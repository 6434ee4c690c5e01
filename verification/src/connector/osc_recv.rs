use vstd::prelude::*;
use crate::block::Connection;
use crate::connector::{edges_or_none, socket_address, socket_address_spec, unwrap_edges};
use crate::lifecycle::LifeCycleMessage;
use crate::message::{message_views, DataModel, InternalMessage, InternalMessageData, MessageModel};
use crate::osc::{clone_args, Packet, PacketModel};

verus! {

/// The configuration of a connector that receives OSC packets.
#[derive(Debug)]
pub struct OSCRecvConnectorConfig {
    pub interface: String,
    pub port: u16,
}

/// A connector that receives OSC packets over UDP.
#[derive(Debug)]
pub struct OscRecvConnector {
    pub idx: usize,
    /// The address to bind the socket to.
    pub address: String,
    pub to: Vec<Connection>,
}

/// What an [`OscRecvConnector`] stands for.
pub struct OscRecvConnectorModel {
    pub idx: usize,
    pub address: Seq<char>,
    pub to: Seq<Connection>,
}

impl View for OscRecvConnector {
    type V = OscRecvConnectorModel;

    open spec fn view(&self) -> OscRecvConnectorModel {
        OscRecvConnectorModel { idx: self.idx, address: self.address@, to: self.to@ }
    }
}

/// The model of the connector that a configuration describes.
pub open spec fn osc_recv_connector_model(
    idx: usize,
    config: OSCRecvConnectorConfig,
    to: Option<Vec<Connection>>,
) -> OscRecvConnectorModel {
    OscRecvConnectorModel {
        idx,
        address: socket_address_spec(config.interface@, config.port),
        to: edges_or_none(to),
    }
}

/// Builds the receiving OSC connector with the index `idx`.
pub fn make_osc_recv_connector(idx: usize, config: OSCRecvConnectorConfig, to: Option<Vec<Connection>>) -> (out:
    OscRecvConnector)
    ensures
        out@ == osc_recv_connector_model(idx, config, to),
{
    OscRecvConnector {
        idx,
        address: socket_address(config.interface.as_str(), config.port),
        to: unwrap_edges(to),
    }
}

/// The messages of a packet: a message is one message, and a bundle holds the
/// messages of its packets, in their order.
pub open spec fn packet_messages(source_idx: usize, packet: PacketModel) -> Seq<MessageModel>
    decreases packet, 0nat,
{
    match packet {
        PacketModel::Message { addr, args } => seq![
            MessageModel { source_connector_idx: source_idx, topic: addr, data: DataModel::Osc(args) },
        ],
        PacketModel::Bundle { content, .. } => bundle_messages(source_idx, content, content.len()),
    }
}

/// The messages of the first `n` packets of a bundle.
pub open spec fn bundle_messages(source_idx: usize, content: Seq<PacketModel>, n: nat) -> Seq<MessageModel>
    decreases content, n,
{
    if n == 0 || n > content.len() {
        Seq::empty()
    } else {
        bundle_messages(source_idx, content, (n - 1) as nat) + packet_messages(source_idx, content[n - 1])
    }
}

/// Gathers the messages of a packet.
pub fn collect_messages_from_osc_packet(source_idx: usize, packet: &Packet) -> (out: Vec<InternalMessage>)
    ensures
        message_views(out@) == packet_messages(source_idx, packet@),
    decreases packet, 1nat,
{
    match packet {
        Packet::Message(message) => {
            let mut out: Vec<InternalMessage> = Vec::new();
            out.push(
                InternalMessage {
                    source_connector_idx: source_idx,
                    topic: message.addr.clone(),
                    data: InternalMessageData::OSC(clone_args(&message.args)),
                },
            );
            assert(message_views(out@) =~= packet_messages(source_idx, packet@));
            out
        },
        Packet::Bundle(bundle) => collect_messages_from_bundle(source_idx, &bundle.content),
    }
}

/// Gathers the messages of the packets of a bundle.
fn collect_messages_from_bundle(source_idx: usize, content: &Vec<Packet>) -> (out: Vec<InternalMessage>)
    ensures
        message_views(out@) == bundle_messages(
            source_idx,
            crate::osc::packet_views(content@),
            content@.len(),
        ),
    decreases content, 0nat,
{
    let mut out: Vec<InternalMessage> = Vec::new();
    let mut i: usize = 0;
    assert(message_views(out@) =~= Seq::<MessageModel>::empty());
    while i < content.len()
        invariant
            i <= content.len(),
            message_views(out@) == bundle_messages(
                source_idx,
                crate::osc::packet_views(content@),
                i as nat,
            ),
        decreases content.len() - i,
    {
        let mut found = collect_messages_from_osc_packet(source_idx, &content[i]);
        let ghost before = message_views(out@);
        let ghost added = message_views(found@);
        out.append(&mut found);
        assert(message_views(out@) =~= before + added);
        i += 1;
    }
    out
}

/// The messages that a datagram holds: those of its packet, and none where it
/// holds no packet.
pub open spec fn datagram_messages(source_idx: usize, datagram: Seq<u8>) -> Seq<MessageModel> {
    match crate::osc::osc_decoded(datagram) {
        Some(packet) => packet_messages(source_idx, packet),
        None => Seq::empty(),
    }
}

impl OscRecvConnector {
    /// The report that the connector makes once its socket is bound: it is
    /// ready.
    pub fn on_start(&self) -> (out: LifeCycleMessage)
        ensures
            out == (LifeCycleMessage::Ready { idx: self.idx }),
    {
        LifeCycleMessage::Ready { idx: self.idx }
    }

    /// The messages to hand to the dispatcher for a datagram that arrived. A
    /// datagram that cannot be decoded is dropped without a word.
    pub fn on_datagram(&self, datagram: &[u8]) -> (out: Vec<InternalMessage>)
        ensures
            message_views(out@) == datagram_messages(self.idx, datagram@),
    {
        match Packet::decode(datagram) {
            Some(packet) => collect_messages_from_osc_packet(self.idx, &packet),
            None => crate::block::none(),
        }
    }
}

} // verus!
