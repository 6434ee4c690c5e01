use vstd::prelude::*;
use crate::block::Connection;
use crate::connector::{edges_or_none, socket_address, socket_address_spec, unwrap_edges};
use crate::error::ConversionError;
use crate::message::InternalMessage;
use crate::osc::{osc_views, OscMessage, OscModel};

verus! {

/// The configuration of a connector that sends OSC messages.
#[derive(Debug)]
pub struct OSCSendConnectorConfig {
    pub host: String,
    pub port: u16,
}

/// A connector that sends OSC messages over UDP.
#[derive(Debug)]
pub struct OscSendConnector {
    pub idx: usize,
    /// The address to bind the socket to: any interface, any port.
    pub bind_address: String,
    /// The address that the datagrams go to.
    pub target_address: String,
    pub to: Vec<Connection>,
}

/// What an [`OscSendConnector`] stands for.
pub struct OscSendConnectorModel {
    pub idx: usize,
    pub bind_address: Seq<char>,
    pub target_address: Seq<char>,
    pub to: Seq<Connection>,
}

impl View for OscSendConnector {
    type V = OscSendConnectorModel;

    open spec fn view(&self) -> OscSendConnectorModel {
        OscSendConnectorModel {
            idx: self.idx,
            bind_address: self.bind_address@,
            target_address: self.target_address@,
            to: self.to@,
        }
    }
}

/// The model of the connector that a configuration describes.
pub open spec fn osc_send_connector_model(
    idx: usize,
    config: OSCSendConnectorConfig,
    to: Option<Vec<Connection>>,
) -> OscSendConnectorModel {
    OscSendConnectorModel {
        idx,
        bind_address: "0.0.0.0:0"@,
        target_address: socket_address_spec(config.host@, config.port),
        to: edges_or_none(to),
    }
}

/// Builds the sending OSC connector with the index `idx`.
pub fn make_osc_send_connector(idx: usize, config: OSCSendConnectorConfig, to: Option<Vec<Connection>>) -> (out:
    OscSendConnector)
    ensures
        out@ == osc_send_connector_model(idx, config, to),
{
    OscSendConnector {
        idx,
        bind_address: String::from_str("0.0.0.0:0"),
        target_address: socket_address(config.host.as_str(), config.port),
        to: unwrap_edges(to),
    }
}

impl OscSendConnector {
    /// The OSC message that is sent for a message that leaves through this
    /// connector: its topic as the address and its payload as the arguments,
    /// or the reason for which nothing is sent.
    pub fn on_egress(&self, message: InternalMessage) -> (out: Result<OscMessage, ConversionError>)
        ensures
            match out {
                Ok(packet) => packet.addr@ == message@.topic && message@.data.get_osc() == Ok::<
                    Seq<OscModel>,
                    ConversionError,
                >(osc_views(packet.args@)),
                Err(e) => message@.data.get_osc() == Err::<Seq<OscModel>, ConversionError>(e),
            },
    {
        let InternalMessage { topic, data, .. } = message;
        match data.get_osc() {
            Ok(args) => Ok(OscMessage { addr: topic, args }),
            Err(e) => Err(e),
        }
    }
}

/// The datagram for a payload that leaves under the address `topic`, where
/// there is one: the payload has to convert to OSC arguments, and the message
/// has to encode.
pub open spec fn datagram_spec(topic: Seq<char>, data: crate::message::DataModel) -> Option<Seq<u8>> {
    match data.get_osc() {
        Ok(args) => crate::osc::osc_encoded(topic, args),
        Err(_) => None,
    }
}

impl OscSendConnector {
    /// The datagram to send for a message that leaves through this connector.
    /// A message that cannot be converted or encoded is dropped without a
    /// word.
    pub fn datagram(&self, message: InternalMessage) -> (out: Option<Vec<u8>>)
        ensures
            match out {
                Some(datagram) => datagram_spec(message@.topic, message@.data) == Some(datagram@),
                None => datagram_spec(message@.topic, message@.data) is None,
            },
    {
        match self.on_egress(message) {
            Ok(packet) => packet.encode(),
            Err(_) => None,
        }
    }
}

} // verus!
