use vstd::prelude::*;
use vstd::utf8::encode_utf8;
use crate::block::Connection;
use crate::connector::{edges_or_none, socket_address, socket_address_spec, unwrap_edges};
use crate::lifecycle::LifeCycleMessage;
use crate::message::InternalMessage;

verus! {

/// The configuration of a connector that sends plain datagrams.
#[derive(Debug)]
pub struct UDPSendConnectorConfig {
    pub host: String,
    pub port: u16,
}

/// A connector that sends the topic of each message as one UDP datagram.
#[derive(Debug)]
pub struct UdpSendConnector {
    pub idx: usize,
    /// The address to bind the socket to: any interface, any port.
    pub bind_address: String,
    /// The address that the datagrams go to.
    pub target_address: String,
    pub to: Vec<Connection>,
}

/// What a [`UdpSendConnector`] stands for.
pub struct UdpSendConnectorModel {
    pub idx: usize,
    pub bind_address: Seq<char>,
    pub target_address: Seq<char>,
    pub to: Seq<Connection>,
}

impl View for UdpSendConnector {
    type V = UdpSendConnectorModel;

    open spec fn view(&self) -> UdpSendConnectorModel {
        UdpSendConnectorModel {
            idx: self.idx,
            bind_address: self.bind_address@,
            target_address: self.target_address@,
            to: self.to@,
        }
    }
}

/// The model of the connector that a configuration describes.
pub open spec fn udp_send_connector_model(
    idx: usize,
    config: UDPSendConnectorConfig,
    to: Option<Vec<Connection>>,
) -> UdpSendConnectorModel {
    UdpSendConnectorModel {
        idx,
        bind_address: "0.0.0.0:0"@,
        target_address: socket_address_spec(config.host@, config.port),
        to: edges_or_none(to),
    }
}

/// Builds the sending UDP connector with the index `idx`.
pub fn make_udp_send_connector(idx: usize, config: UDPSendConnectorConfig, to: Option<Vec<Connection>>) -> (out:
    UdpSendConnector)
    ensures
        out@ == udp_send_connector_model(idx, config, to),
{
    UdpSendConnector {
        idx,
        bind_address: String::from_str("0.0.0.0:0"),
        target_address: socket_address(config.host.as_str(), config.port),
        to: unwrap_edges(to),
    }
}

impl UdpSendConnector {
    /// The report that the connector makes when it starts: it is ready.
    pub fn on_start(&self) -> (out: LifeCycleMessage)
        ensures
            out == (LifeCycleMessage::Ready { idx: self.idx }),
    {
        LifeCycleMessage::Ready { idx: self.idx }
    }

    /// The datagram for a message that leaves through this connector: the
    /// bytes of its topic, and nothing of its payload.
    pub fn on_egress(&self, message: &InternalMessage) -> (out: Vec<u8>)
        ensures
            out@ == encode_utf8(message@.topic),
    {
        crate::text::encode(message.topic.as_str())
    }

    /// The report on a datagram that could not be sent.
    pub fn send_failed(&self, err: String) -> (out: LifeCycleMessage)
        ensures
            out matches LifeCycleMessage::Failed { idx, err: words } && idx == self.idx && words@
                == err@,
    {
        LifeCycleMessage::Failed { idx: self.idx, err }
    }
}

} // verus!
