use vstd::prelude::*;
use crate::block::Connection;
use crate::connector::{edges_or_none, unwrap_edges};
use crate::error::ConversionError;
use crate::lifecycle::LifeCycleMessage;
use crate::message::{DataModel, InternalMessage, InternalMessageData, MessageModel};
use crate::text::texts;

verus! {

/// The configuration of an MQTT connector.
#[derive(Debug)]
pub struct MQTTConnectorConfig {
    pub client_id: Option<String>,
    pub host: String,
    pub port: u16,
    pub topics: Option<Vec<String>>,
}

/// The seconds between two keep-alive messages.
pub const KEEP_ALIVE_SECS: u64 = 5;

/// An MQTT connector: where it connects to, what it subscribes to, and where
/// its messages go.
#[derive(Debug)]
pub struct MqttConnector {
    pub idx: usize,
    pub client_id: String,
    pub host: String,
    pub port: u16,
    /// The topic filters to subscribe to once the broker has accepted the
    /// connection.
    pub subscriptions: Vec<String>,
    pub to: Vec<Connection>,
}

/// What an [`MqttConnector`] stands for.
pub struct MqttConnectorModel {
    pub idx: usize,
    pub client_id: Seq<char>,
    pub host: Seq<char>,
    pub port: u16,
    pub subscriptions: Seq<Seq<char>>,
    pub to: Seq<Connection>,
}

impl View for MqttConnector {
    type V = MqttConnectorModel;

    open spec fn view(&self) -> MqttConnectorModel {
        MqttConnectorModel {
            idx: self.idx,
            client_id: self.client_id@,
            host: self.host@,
            port: self.port,
            subscriptions: texts(self.subscriptions@),
            to: self.to@,
        }
    }
}

/// What the client of the connector reports.
#[derive(Debug)]
pub enum MqttEvent {
    /// The broker has accepted the connection.
    ConnAck,
    /// A message has arrived.
    Publish { topic: String, payload: Vec<u8> },
    /// Anything else that needs no answer.
    Other,
    /// The connection failed, with the client's words.
    Error(String),
}

/// What the connector does about a report of its client.
#[derive(Debug)]
pub enum MqttAction {
    /// Subscribe to the connector's topic filters, each with the quality of
    /// service 2, then report the connector as ready.
    SubscribeThenReady,
    /// Hand the message to the dispatcher.
    Forward(InternalMessage),
    /// Hand the report to the supervisor.
    Report(LifeCycleMessage),
    /// Nothing.
    Nothing,
}

/// Whether a connector with these outbound edges is a source of messages.
pub open spec fn is_source_spec(to: Option<Vec<Connection>>) -> bool {
    to matches Some(edges) && edges@.len() > 0
}

/// The topic filters that a connector subscribes to: none if it is no source,
/// else the configured ones, or `#` if none are configured.
pub open spec fn subscriptions_spec(topics: Option<Vec<String>>, is_source: bool) -> Seq<Seq<char>> {
    if !is_source {
        Seq::empty()
    } else {
        match topics {
            Some(list) => texts(list@),
            None => seq!["#"@],
        }
    }
}

/// The client identifier: `postoffice` if none is configured.
pub open spec fn client_id_spec(client_id: Option<String>) -> Seq<char> {
    match client_id {
        Some(id) => id@,
        None => "postoffice"@,
    }
}

/// The model of the connector that a configuration describes.
pub open spec fn mqtt_connector_model(
    idx: usize,
    config: MQTTConnectorConfig,
    to: Option<Vec<Connection>>,
) -> MqttConnectorModel {
    MqttConnectorModel {
        idx,
        client_id: client_id_spec(config.client_id),
        host: config.host@,
        port: config.port,
        subscriptions: subscriptions_spec(config.topics, is_source_spec(to)),
        to: edges_or_none(to),
    }
}

/// Whether a connector with these outbound edges is a source of messages.
pub fn is_source(to: &Option<Vec<Connection>>) -> (out: bool)
    ensures
        out == is_source_spec(*to),
{
    match to {
        Some(edges) => edges.len() > 0,
        None => false,
    }
}

/// The topic filters that a connector subscribes to.
pub fn subscribe_to_topics(topics: Option<Vec<String>>, is_source: bool) -> (out: Vec<String>)
    ensures
        texts(out@) == subscriptions_spec(topics, is_source),
{
    if !is_source {
        let out: Vec<String> = Vec::new();
        assert(texts(out@) =~= Seq::<Seq<char>>::empty());
        return out;
    }
    match topics {
        Some(list) => list,
        None => {
            let mut out: Vec<String> = Vec::new();
            out.push(String::from_str("#"));
            assert(texts(out@) =~= seq!["#"@]);
            out
        },
    }
}

/// Builds the MQTT connector with the index `idx`.
pub fn make_mqtt_connector(idx: usize, config: MQTTConnectorConfig, to: Option<Vec<Connection>>) -> (out:
    MqttConnector)
    ensures
        out@ == mqtt_connector_model(idx, config, to),
{
    let source = is_source(&to);
    let MQTTConnectorConfig { client_id, host, port, topics } = config;
    let client_id = match client_id {
        Some(id) => id,
        None => String::from_str("postoffice"),
    };
    MqttConnector {
        idx,
        client_id,
        host,
        port,
        subscriptions: subscribe_to_topics(topics, source),
        to: unwrap_edges(to),
    }
}

impl MqttConnector {
    /// Whether `action` is what the connector does about `event`: it
    /// subscribes when the broker accepts the connection, hands an arrived
    /// message on with its payload as bytes, reports a failed connection as a
    /// disconnection, and leaves everything else alone.
    pub open spec fn reacts(self, event: MqttEvent, action: MqttAction) -> bool {
        match event {
            MqttEvent::ConnAck => action is SubscribeThenReady,
            MqttEvent::Publish { topic, payload } => action matches MqttAction::Forward(message)
                && message@ == (MessageModel {
                source_connector_idx: self.idx,
                topic: topic@,
                data: DataModel::Binary(payload@),
            }),
            MqttEvent::Other => action is Nothing,
            MqttEvent::Error(err) => action matches MqttAction::Report(
                LifeCycleMessage::Disconnected { idx, err: words },
            ) && idx == self.idx && words@ == err@,
        }
    }

    /// Decides what to do about a report of the client.
    pub fn on_event(&self, event: MqttEvent) -> (out: MqttAction)
        ensures
            self.reacts(event, out),
    {
        match event {
            MqttEvent::ConnAck => MqttAction::SubscribeThenReady,
            MqttEvent::Publish { topic, payload } => MqttAction::Forward(
                InternalMessage {
                    source_connector_idx: self.idx,
                    topic,
                    data: InternalMessageData::Binary(payload),
                },
            ),
            MqttEvent::Other => MqttAction::Nothing,
            MqttEvent::Error(err) => MqttAction::Report(
                LifeCycleMessage::Disconnected { idx: self.idx, err },
            ),
        }
    }

    /// What is published for a message that leaves through this connector:
    /// its topic and its payload as bytes, or the reason for which nothing is
    /// published.
    pub fn on_egress(&self, message: InternalMessage) -> (out: Result<(String, Vec<u8>), ConversionError>)
        ensures
            match out {
                Ok(publication) => publication.0@ == message@.topic && message@.data.get_binary() == Ok::<
                    Seq<u8>,
                    ConversionError,
                >(publication.1@),
                Err(e) => message@.data.get_binary() == Err::<Seq<u8>, ConversionError>(e),
            },
    {
        let InternalMessage { topic, data, .. } = message;
        match data.get_binary() {
            Ok(payload) => Ok((topic, payload)),
            Err(e) => Err(e),
        }
    }

    /// The report on a publication that failed.
    pub fn publish_failed(&self, err: String) -> (out: LifeCycleMessage)
        ensures
            out matches LifeCycleMessage::Failed { idx, err: words } && idx == self.idx && words@
                == err@,
    {
        LifeCycleMessage::Failed { idx: self.idx, err }
    }
}

} // verus!
