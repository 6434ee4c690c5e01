//! What the program is started with: its arguments and its configuration.

use vstd::prelude::*;
use crate::block::{BlockConfig, Connection};
use crate::connector::ConnectorConfig;

verus! {

/// The arguments of the program.
#[derive(Debug)]
pub struct Args {
    /// The path of the configuration file.
    pub file: String,
    /// Whether cycles in the graph of the blocks are only warned about.
    pub ignore_cycles: bool,
    /// Whether whole messages are logged, and not only their topics.
    pub debug: bool,
}

impl Args {
    /// The arguments of a program that was started with none: the file
    /// `config.json`, cycles are an error, and only topics are logged.
    pub fn defaults() -> (out: Args)
        ensures
            out.file@ == "config.json"@,
            !out.ignore_cycles,
            !out.debug,
    {
        Args { file: String::from_str("config.json"), ignore_cycles: false, debug: false }
    }
}

/// The configuration: the connectors and the blocks, each addressed by its
/// place in its list.
#[derive(Debug)]
pub struct Config {
    pub connectors: Vec<ConnectorConfig>,
    pub blocks: Vec<BlockConfig>,
}

/// The numbers from 0 up to `n`, `n` left out.
pub open spec fn indices(n: nat) -> Seq<usize> {
    Seq::new(n, |i: int| i as usize)
}

impl Config {
    /// The indices of the connectors, in their order.
    pub fn connector_indices(&self) -> (out: Vec<usize>)
        ensures
            out@ == indices(self.connectors@.len()),
    {
        let mut out: Vec<usize> = Vec::new();
        let mut i: usize = 0;
        while i < self.connectors.len()
            invariant
                i <= self.connectors.len(),
                out@ == indices(i as nat),
            decreases self.connectors.len() - i,
        {
            out.push(i);
            assert(out@ =~= indices((i + 1) as nat));
            i += 1;
        }
        out
    }
}

/// Whether every edge to a sink names one of `connectors` connectors.
pub open spec fn sinks_within(edges: Seq<Connection>, connectors: nat) -> bool {
    forall|k: int|
        0 <= k < edges.len() ==> (#[trigger] edges[k] matches Connection::Sink(sink) ==> sink
            < connectors)
}

/// Whether every edge of `edges` to a sink names one of `connectors`
/// connectors.
pub fn check_sinks(edges: &Vec<Connection>, connectors: usize) -> (out: bool)
    ensures
        out == sinks_within(edges@, connectors as nat),
{
    let mut k: usize = 0;
    while k < edges.len()
        invariant
            k <= edges.len(),
            forall|j: int|
                0 <= j < k ==> (#[trigger] edges@[j] matches Connection::Sink(sink) ==> sink
                    < connectors),
        decreases edges.len() - k,
    {
        if let Connection::Sink(sink) = edges[k] {
            if sink >= connectors {
                return false;
            }
        }
        k += 1;
    }
    true
}

impl Config {
    /// Whether every edge to a sink, of the connectors and of the blocks,
    /// names a connector of the configuration.
    pub open spec fn sinks_exist(self) -> bool {
        &&& forall|i: int|
            0 <= i < self.connectors@.len() ==> sinks_within(
                (#[trigger] self.connectors@[i]).edges(),
                self.connectors@.len(),
            )
        &&& forall|i: int|
            0 <= i < self.blocks@.len() ==> sinks_within(
                (#[trigger] self.blocks@[i]).edges(),
                self.connectors@.len(),
            )
    }

    /// Checks that every edge to a sink names a connector of the
    /// configuration.
    pub fn check_sinks(&self) -> (out: bool)
        ensures
            out == self.sinks_exist(),
    {
        let count = self.connectors.len();
        let mut i: usize = 0;
        while i < self.connectors.len()
            invariant
                i <= self.connectors.len(),
                count == self.connectors@.len(),
                forall|a: int|
                    0 <= a < i ==> sinks_within((#[trigger] self.connectors@[a]).edges(), count as nat),
            decreases self.connectors.len() - i,
        {
            let fine = match &self.connectors[i] {
                ConnectorConfig::MQTT { to: Some(edges), .. } => check_sinks(edges, count),
                ConnectorConfig::OSCRecv { to: Some(edges), .. } => check_sinks(edges, count),
                _ => true,
            };
            if !fine {
                return false;
            }
            i += 1;
        }
        let mut i: usize = 0;
        while i < self.blocks.len()
            invariant
                i <= self.blocks.len(),
                count == self.connectors@.len(),
                forall|a: int|
                    0 <= a < self.connectors@.len() ==> sinks_within(
                        (#[trigger] self.connectors@[a]).edges(),
                        count as nat,
                    ),
                forall|a: int|
                    0 <= a < i ==> sinks_within((#[trigger] self.blocks@[a]).edges(), count as nat),
            decreases self.blocks.len() - i,
        {
            if !check_sinks(self.blocks[i].to(), count) {
                return false;
            }
            i += 1;
        }
        true
    }
}

} // verus!
