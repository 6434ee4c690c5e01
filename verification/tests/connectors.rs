use postoffice::block::Connection;
use postoffice::cli::{check_sinks, Args, Config};
use postoffice::connector::mqtt::{
    is_source, make_mqtt_connector, subscribe_to_topics, MQTTConnectorConfig, MqttAction, MqttEvent,
    KEEP_ALIVE_SECS,
};
use postoffice::connector::osc_recv::{
    collect_messages_from_osc_packet, make_osc_recv_connector, OSCRecvConnectorConfig,
};
use postoffice::connector::osc_send::{make_osc_send_connector, OSCSendConnectorConfig};
use postoffice::connector::udp_send::{make_udp_send_connector, UDPSendConnectorConfig};
use postoffice::connector::{
    make_connector, socket_address, unwrap_edges, Connector, ConnectorConfig, CHANNEL_CAPACITY,
};
use postoffice::error::{ConversionError, DataKind};
use postoffice::json::JsonValue;
use postoffice::lifecycle::LifeCycleMessage;
use postoffice::message::{InternalMessage, InternalMessageData};
use postoffice::osc::{OscArg, OscBundle, OscMessage, Packet, OscTime};

use Connection::{Block, Sink};

fn mqtt_config(client_id: Option<&str>, topics: Option<Vec<&str>>) -> MQTTConnectorConfig {
    MQTTConnectorConfig {
        client_id: client_id.map(|s| s.to_string()),
        host: "broker.local".to_string(),
        port: 1883,
        topics: topics.map(|list| list.into_iter().map(|s| s.to_string()).collect()),
    }
}

fn osc_message(addr: &str, args: Vec<OscArg>) -> Packet {
    Packet::Message(OscMessage { addr: addr.to_string(), args })
}

fn bundle(content: Vec<Packet>) -> Packet {
    Packet::Bundle(OscBundle { timetag: OscTime { seconds: 1, fractional: 2 }, content })
}

#[test]
fn constants() {
    assert_eq!(CHANNEL_CAPACITY, 32);
    assert_eq!(KEEP_ALIVE_SECS, 5);
}

#[test]
fn socket_addresses() {
    assert_eq!(socket_address("127.0.0.1", 9000), "127.0.0.1:9000");
    assert_eq!(socket_address("0.0.0.0", 0), "0.0.0.0:0");
    assert_eq!(socket_address("host", 65535), "host:65535");
}

#[test]
fn mqtt_source_subscribes_to_its_topics() {
    let connector = make_mqtt_connector(4, mqtt_config(Some("me"), Some(vec!["sensors/#", "a/+"])), Some(vec![Block(0)]));
    assert_eq!(connector.idx, 4);
    assert_eq!(connector.client_id, "me");
    assert_eq!(connector.host, "broker.local");
    assert_eq!(connector.port, 1883);
    assert_eq!(connector.subscriptions, vec!["sensors/#".to_string(), "a/+".to_string()]);
    assert_eq!(connector.to, vec![Block(0)]);
}

#[test]
fn mqtt_defaults() {
    let connector = make_mqtt_connector(0, mqtt_config(None, None), Some(vec![Sink(1)]));
    assert_eq!(connector.client_id, "postoffice");
    assert_eq!(connector.subscriptions, vec!["#".to_string()]);
}

#[test]
fn mqtt_sink_does_not_subscribe() {
    let without = make_mqtt_connector(0, mqtt_config(None, Some(vec!["a"])), None);
    assert_eq!(without.subscriptions, Vec::<String>::new());
    assert_eq!(without.to, vec![]);
    let empty = make_mqtt_connector(0, mqtt_config(None, None), Some(vec![]));
    assert_eq!(empty.subscriptions, Vec::<String>::new());
    assert!(!is_source(&None));
    assert!(!is_source(&Some(vec![])));
    assert!(is_source(&Some(vec![Sink(0)])));
    assert_eq!(subscribe_to_topics(Some(vec!["x".to_string()]), false), Vec::<String>::new());
    assert_eq!(subscribe_to_topics(Some(vec![]), true), Vec::<String>::new());
    assert_eq!(subscribe_to_topics(None, true), vec!["#".to_string()]);
}

#[test]
fn mqtt_events() {
    let connector = make_mqtt_connector(7, mqtt_config(None, None), Some(vec![Block(0)]));
    assert!(matches!(connector.on_event(MqttEvent::ConnAck), MqttAction::SubscribeThenReady));
    assert!(matches!(connector.on_event(MqttEvent::Other), MqttAction::Nothing));
    match connector.on_event(MqttEvent::Publish { topic: "sensors/a".to_string(), payload: vec![1, 2] }) {
        MqttAction::Forward(message) => assert_eq!(
            message,
            InternalMessage {
                source_connector_idx: 7,
                topic: "sensors/a".to_string(),
                data: InternalMessageData::Binary(vec![1, 2]),
            }
        ),
        other => panic!("{:?}", other),
    }
    match connector.on_event(MqttEvent::Error("refused".to_string())) {
        MqttAction::Report(report) => {
            assert_eq!(report, LifeCycleMessage::Disconnected { idx: 7, err: "refused".to_string() })
        }
        other => panic!("{:?}", other),
    }
    assert_eq!(
        connector.publish_failed("full".to_string()),
        LifeCycleMessage::Failed { idx: 7, err: "full".to_string() }
    );
}

#[test]
fn mqtt_egress_publishes_the_payload_as_bytes() {
    let connector = make_mqtt_connector(0, mqtt_config(None, None), None);
    let with = |data| InternalMessage { source_connector_idx: 1, topic: "out".to_string(), data };
    assert_eq!(
        connector.on_egress(with(InternalMessageData::String("hé".to_string()))),
        Ok(("out".to_string(), "hé".as_bytes().to_vec()))
    );
    assert_eq!(
        connector.on_egress(with(InternalMessageData::Json(JsonValue::Bool(true)))),
        Ok(("out".to_string(), b"true".to_vec()))
    );
    assert_eq!(connector.on_egress(with(InternalMessageData::Empty)), Ok(("out".to_string(), vec![])));
    assert_eq!(
        connector.on_egress(with(InternalMessageData::OSC(vec![]))),
        Err(ConversionError::Unsupported(DataKind::Osc, DataKind::Binary))
    );
}

#[test]
fn osc_recv_connector() {
    let config = OSCRecvConnectorConfig { interface: "0.0.0.0".to_string(), port: 9001 };
    let connector = make_osc_recv_connector(2, config, Some(vec![Block(1), Sink(0)]));
    assert_eq!(connector.idx, 2);
    assert_eq!(connector.address, "0.0.0.0:9001");
    assert_eq!(connector.on_start(), LifeCycleMessage::Ready { idx: 2 });
    assert_eq!(connector.to, vec![Block(1), Sink(0)]);
}

#[test]
fn osc_message_becomes_one_message() {
    let packet = osc_message("/a", vec![OscArg::Int(1), OscArg::String("s".to_string())]);
    assert_eq!(
        collect_messages_from_osc_packet(5, &packet),
        vec![InternalMessage {
            source_connector_idx: 5,
            topic: "/a".to_string(),
            data: InternalMessageData::OSC(vec![OscArg::Int(1), OscArg::String("s".to_string())]),
        }]
    );
}

#[test]
fn osc_bundles_are_flattened_in_order() {
    let packet = bundle(vec![
        osc_message("/1", vec![]),
        bundle(vec![osc_message("/2", vec![OscArg::Nil]), bundle(vec![]), osc_message("/3", vec![])]),
        bundle(vec![]),
        osc_message("/4", vec![OscArg::Bool(true)]),
    ]);
    let topics: Vec<String> = collect_messages_from_osc_packet(0, &packet).into_iter().map(|m| m.topic).collect();
    assert_eq!(topics, vec!["/1", "/2", "/3", "/4"]);
    assert_eq!(collect_messages_from_osc_packet(0, &bundle(vec![])), vec![]);
}

#[test]
fn osc_send_connector() {
    let config = OSCSendConnectorConfig { host: "127.0.0.1".to_string(), port: 9000 };
    let connector = make_osc_send_connector(1, config, None);
    assert_eq!(connector.bind_address, "0.0.0.0:0");
    assert_eq!(connector.target_address, "127.0.0.1:9000");
    assert_eq!(connector.to, vec![]);
    let with = |data| InternalMessage { source_connector_idx: 0, topic: "sensors/a".to_string(), data };
    let args = vec![OscArg::Int(1), OscArg::Float(2.5f32.to_bits()), OscArg::String("ok".to_string())];
    assert_eq!(
        connector.on_egress(with(InternalMessageData::OSC(args.clone()))),
        Ok(OscMessage { addr: "sensors/a".to_string(), args })
    );
    assert_eq!(
        connector.on_egress(with(InternalMessageData::String("x".to_string()))),
        Ok(OscMessage { addr: "sensors/a".to_string(), args: vec![OscArg::String("x".to_string())] })
    );
    assert_eq!(
        connector.on_egress(with(InternalMessageData::Binary(vec![1]))),
        Err(ConversionError::Unsupported(DataKind::Binary, DataKind::Osc))
    );
}

#[test]
fn udp_send_connector_sends_the_topic_only() {
    let config = UDPSendConnectorConfig { host: "10.0.0.1".to_string(), port: 7 };
    let connector = make_udp_send_connector(3, config, None);
    assert_eq!(connector.bind_address, "0.0.0.0:0");
    assert_eq!(connector.target_address, "10.0.0.1:7");
    assert_eq!(connector.on_start(), LifeCycleMessage::Ready { idx: 3 });
    let message = InternalMessage {
        source_connector_idx: 0,
        topic: "tö/pic".to_string(),
        data: InternalMessageData::String("never sent".to_string()),
    };
    assert_eq!(connector.on_egress(&message), "tö/pic".as_bytes().to_vec());
    assert_eq!(
        connector.send_failed("unreachable".to_string()),
        LifeCycleMessage::Failed { idx: 3, err: "unreachable".to_string() }
    );
}

#[test]
fn make_connector_dispatches() {
    let configs = vec![
        ConnectorConfig::MQTT { config: mqtt_config(None, None), to: Some(vec![Block(0)]) },
        ConnectorConfig::OSCRecv {
            config: OSCRecvConnectorConfig { interface: "::".to_string(), port: 1 },
            to: None,
        },
        ConnectorConfig::OSCSend { config: OSCSendConnectorConfig { host: "h".to_string(), port: 2 } },
        ConnectorConfig::UDPSend { config: UDPSendConnectorConfig { host: "h".to_string(), port: 3 } },
    ];
    let mut seen = vec![];
    for (idx, config) in configs.into_iter().enumerate() {
        let connector = make_connector(idx, config);
        let edges = connector.to().clone();
        seen.push(match connector {
            Connector::Mqtt(c) => (c.idx, "mqtt", edges),
            Connector::OscRecv(c) => (c.idx, "osc_recv", edges),
            Connector::OscSend(c) => (c.idx, "osc_send", edges),
            Connector::UdpSend(c) => (c.idx, "udp_send", edges),
        });
    }
    assert_eq!(
        seen,
        vec![(0, "mqtt", vec![Block(0)]), (1, "osc_recv", vec![]), (2, "osc_send", vec![]), (3, "udp_send", vec![])]
    );
    assert_eq!(unwrap_edges(None), vec![]);
    assert_eq!(unwrap_edges(Some(vec![Sink(1)])), vec![Sink(1)]);
}

#[test]
fn arguments_and_configuration() {
    let args = Args::defaults();
    assert_eq!(args.file, "config.json");
    assert!(!args.ignore_cycles);
    assert!(!args.debug);
    let config = Config {
        connectors: vec![
            ConnectorConfig::OSCSend { config: OSCSendConnectorConfig { host: "h".to_string(), port: 2 } },
            ConnectorConfig::UDPSend { config: UDPSendConnectorConfig { host: "h".to_string(), port: 3 } },
        ],
        blocks: vec![],
    };
    assert_eq!(config.connector_indices(), vec![0, 1]);
    assert!(config.check_sinks());
    assert!(check_sinks(&vec![Sink(0), Block(9), Sink(1)], 2));
    assert!(!check_sinks(&vec![Sink(0), Sink(2)], 2));
    assert!(check_sinks(&vec![], 0));
}

#[test]
fn sinks_have_to_be_connectors() {
    let connectors = |to| {
        vec![
            ConnectorConfig::MQTT { config: mqtt_config(None, None), to },
            ConnectorConfig::UDPSend { config: UDPSendConnectorConfig { host: "h".to_string(), port: 3 } },
        ]
    };
    let block = |to| postoffice::block::BlockConfig::RemoveBody { to };
    let fine = Config { connectors: connectors(Some(vec![Block(7), Sink(1)])), blocks: vec![block(vec![Sink(0)])] };
    assert!(fine.check_sinks());
    let bad_connector = Config { connectors: connectors(Some(vec![Sink(2)])), blocks: vec![] };
    assert!(!bad_connector.check_sinks());
    let bad_block = Config { connectors: connectors(None), blocks: vec![block(vec![]), block(vec![Sink(0), Sink(2)])] };
    assert!(!bad_block.check_sinks());
    assert!(Config { connectors: vec![], blocks: vec![block(vec![Block(5)])] }.check_sinks());
    assert!(!Config { connectors: vec![], blocks: vec![block(vec![Sink(0)])] }.check_sinks());
    assert_eq!(block(vec![Sink(4)]).to(), &vec![Sink(4)]);
}
