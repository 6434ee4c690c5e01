//! A message bus between MQTT, OSC and plain UDP.
//!
//! Messages that arrive at a connector travel through a graph of processing
//! blocks and leave through other connectors. This library holds what the bus
//! decides: the payload formats and their conversions ([`message`], [`json`],
//! [`osc`], [`ieee`]), the blocks ([`block`]), the pipeline with its cycle
//! check and its step-by-step traversal ([`pipeline`], [`graph`],
//! [`traversal`]), the supervisor of the connectors ([`lifecycle`]) and the
//! decisions of each connector ([`connector`]). Sockets, clients, tasks and
//! channels belong to the program around it.

pub mod block;
pub mod cli;
pub mod connector;
pub mod error;
pub mod graph;
pub mod ieee;
pub mod json;
pub mod lifecycle;
pub mod message;
pub mod osc;
pub mod pipeline;
pub mod text;
pub mod traversal;
