//! The connectors: what each of them decides, from its configuration and from
//! what arrives. Sockets, clients and channels belong to the program that runs
//! them.

pub mod mqtt;
pub mod osc_recv;
pub mod osc_send;
pub mod udp_send;

use vstd::prelude::*;
use crate::block::Connection;
use crate::text::decimal;
use mqtt::{make_mqtt_connector, MQTTConnectorConfig, MqttConnector};
use osc_recv::{make_osc_recv_connector, OSCRecvConnectorConfig, OscRecvConnector};
use osc_send::{make_osc_send_connector, OSCSendConnectorConfig, OscSendConnector};
use udp_send::{make_udp_send_connector, UDPSendConnectorConfig, UdpSendConnector};

verus! {

/// How many messages a channel between a connector and the dispatcher holds.
pub const CHANNEL_CAPACITY: usize = 32;

/// The outbound edges of a connector: none where none are configured.
pub open spec fn edges_or_none(to: Option<Vec<Connection>>) -> Seq<Connection> {
    match to {
        Some(edges) => edges@,
        None => Seq::empty(),
    }
}

/// The outbound edges of a connector: none where none are configured.
pub fn unwrap_edges(to: Option<Vec<Connection>>) -> (out: Vec<Connection>)
    ensures
        out@ == edges_or_none(to),
{
    match to {
        Some(edges) => edges,
        None => Vec::new(),
    }
}

/// The address of a socket as text: the host, a colon, the port in decimal.
pub open spec fn socket_address_spec(host: Seq<char>, port: u16) -> Seq<char> {
    host + ":"@ + decimal(port as nat)
}

/// Writes the address of a socket.
pub fn socket_address(host: &str, port: u16) -> (out: String)
    ensures
        out@ == socket_address_spec(host@, port),
{
    let number = crate::text::format_decimal(port as u64);
    let head = crate::text::concat(host, ":");
    crate::text::concat(head.as_str(), number.as_str())
}

/// The configuration of one connector.
#[derive(Debug)]
#[allow(inconsistent_fields)]
pub enum ConnectorConfig {
    MQTT { config: MQTTConnectorConfig, to: Option<Vec<Connection>> },
    OSCRecv { config: OSCRecvConnectorConfig, to: Option<Vec<Connection>> },
    OSCSend { config: OSCSendConnectorConfig },
    UDPSend { config: UDPSendConnectorConfig },
}

impl ConnectorConfig {
    /// The outbound edges that the configuration names: none for a connector
    /// that only sends, and none where none are given.
    pub open spec fn edges(self) -> Seq<Connection> {
        match self {
            ConnectorConfig::MQTT { to, .. } => edges_or_none(to),
            ConnectorConfig::OSCRecv { to, .. } => edges_or_none(to),
            ConnectorConfig::OSCSend { .. } => Seq::empty(),
            ConnectorConfig::UDPSend { .. } => Seq::empty(),
        }
    }
}

/// A connector of one of the four kinds.
#[derive(Debug)]
pub enum Connector {
    Mqtt(MqttConnector),
    OscRecv(OscRecvConnector),
    OscSend(OscSendConnector),
    UdpSend(UdpSendConnector),
}

impl Connector {
    /// The edges that a message from this connector is handed to.
    pub open spec fn edges(self) -> Seq<Connection> {
        match self {
            Connector::Mqtt(connector) => connector.to@,
            Connector::OscRecv(connector) => connector.to@,
            Connector::OscSend(connector) => connector.to@,
            Connector::UdpSend(connector) => connector.to@,
        }
    }

    /// The edges that a message from this connector is handed to.
    pub fn to(&self) -> (out: &Vec<Connection>)
        ensures
            out@ == self.edges(),
    {
        match self {
            Connector::Mqtt(connector) => &connector.to,
            Connector::OscRecv(connector) => &connector.to,
            Connector::OscSend(connector) => &connector.to,
            Connector::UdpSend(connector) => &connector.to,
        }
    }
}

/// What a [`Connector`] stands for.
pub enum ConnectorModel {
    Mqtt(mqtt::MqttConnectorModel),
    OscRecv(osc_recv::OscRecvConnectorModel),
    OscSend(osc_send::OscSendConnectorModel),
    UdpSend(udp_send::UdpSendConnectorModel),
}

impl View for Connector {
    type V = ConnectorModel;

    open spec fn view(&self) -> ConnectorModel {
        match self {
            Connector::Mqtt(connector) => ConnectorModel::Mqtt(connector@),
            Connector::OscRecv(connector) => ConnectorModel::OscRecv(connector@),
            Connector::OscSend(connector) => ConnectorModel::OscSend(connector@),
            Connector::UdpSend(connector) => ConnectorModel::UdpSend(connector@),
        }
    }
}

/// The connector that a configuration describes. The two kinds that only send
/// have no outbound edges.
pub open spec fn connector_model(idx: usize, config: ConnectorConfig) -> ConnectorModel {
    match config {
        ConnectorConfig::MQTT { config, to } => ConnectorModel::Mqtt(
            mqtt::mqtt_connector_model(idx, config, to),
        ),
        ConnectorConfig::OSCRecv { config, to } => ConnectorModel::OscRecv(
            osc_recv::osc_recv_connector_model(idx, config, to),
        ),
        ConnectorConfig::OSCSend { config } => ConnectorModel::OscSend(
            osc_send::osc_send_connector_model(idx, config, None),
        ),
        ConnectorConfig::UDPSend { config } => ConnectorModel::UdpSend(
            udp_send::udp_send_connector_model(idx, config, None),
        ),
    }
}

/// Builds the connector with the index `idx` from its configuration.
pub fn make_connector(idx: usize, config: ConnectorConfig) -> (out: Connector)
    ensures
        out@ == connector_model(idx, config),
{
    match config {
        ConnectorConfig::MQTT { config, to } => Connector::Mqtt(make_mqtt_connector(idx, config, to)),
        ConnectorConfig::OSCRecv { config, to } => Connector::OscRecv(
            make_osc_recv_connector(idx, config, to),
        ),
        ConnectorConfig::OSCSend { config } => Connector::OscSend(
            make_osc_send_connector(idx, config, None),
        ),
        ConnectorConfig::UDPSend { config } => Connector::UdpSend(
            make_udp_send_connector(idx, config, None),
        ),
    }
}

} // verus!
