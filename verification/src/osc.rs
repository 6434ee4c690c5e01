//! OSC arguments and packets. Floating-point arguments are held by their
//! IEEE-754 bit patterns.

use vstd::prelude::*;
use rosc::OscType;

verus! {

/// An OSC time tag.
#[derive(Clone, Copy, Debug, PartialEq, Eq, Structural)]
pub struct OscTime {
    pub seconds: u32,
    pub fractional: u32,
}

/// An OSC colour.
#[derive(Clone, Copy, Debug, PartialEq, Eq, Structural)]
pub struct OscColor {
    pub red: u8,
    pub green: u8,
    pub blue: u8,
    pub alpha: u8,
}

/// An OSC MIDI message.
#[derive(Clone, Copy, Debug, PartialEq, Eq, Structural)]
pub struct OscMidiMessage {
    pub port: u8,
    pub status: u8,
    pub data1: u8,
    pub data2: u8,
}

/// One typed OSC argument.
#[derive(Debug, PartialEq)]
pub enum OscArg {
    Int(i32),
    /// A single-precision number, by its bit pattern.
    Float(u32),
    String(String),
    Blob(Vec<u8>),
    Time(OscTime),
    Long(i64),
    /// A double-precision number, by its bit pattern.
    Double(u64),
    Char(char),
    Color(OscColor),
    Midi(OscMidiMessage),
    Bool(bool),
    Array(Vec<OscArg>),
    Nil,
    Inf,
}

/// What an [`OscArg`] stands for.
pub enum OscModel {
    Int(i32),
    Float(u32),
    String(Seq<char>),
    Blob(Seq<u8>),
    Time(OscTime),
    Long(i64),
    Double(u64),
    Char(char),
    Color(OscColor),
    Midi(OscMidiMessage),
    Bool(bool),
    Array(Seq<OscModel>),
    Nil,
    Inf,
}

/// The models of a list of arguments.
pub open spec fn osc_views(args: Seq<OscArg>) -> Seq<OscModel>
    decreases args,
{
    Seq::new(
        args.len(),
        |i: int|
            if 0 <= i < args.len() {
                args[i]@
            } else {
                OscModel::Nil
            },
    )
}

impl View for OscArg {
    type V = OscModel;

    open spec fn view(&self) -> OscModel
        decreases self,
    {
        match self {
            OscArg::Int(n) => OscModel::Int(*n),
            OscArg::Float(bits) => OscModel::Float(*bits),
            OscArg::String(text) => OscModel::String(text@),
            OscArg::Blob(bytes) => OscModel::Blob(bytes@),
            OscArg::Time(time) => OscModel::Time(*time),
            OscArg::Long(n) => OscModel::Long(*n),
            OscArg::Double(bits) => OscModel::Double(*bits),
            OscArg::Char(c) => OscModel::Char(*c),
            OscArg::Color(color) => OscModel::Color(*color),
            OscArg::Midi(midi) => OscModel::Midi(*midi),
            OscArg::Bool(flag) => OscModel::Bool(*flag),
            OscArg::Array(args) => OscModel::Array(osc_views(args@)),
            OscArg::Nil => OscModel::Nil,
            OscArg::Inf => OscModel::Inf,
        }
    }
}

/// A copy of `bytes`.
pub fn copy_bytes(bytes: &Vec<u8>) -> (copy: Vec<u8>)
    ensures
        copy@ == bytes@,
{
    let mut copy: Vec<u8> = Vec::new();
    let mut i: usize = 0;
    while i < bytes.len()
        invariant
            i <= bytes.len(),
            copy@ == bytes@.subrange(0, i as int),
        decreases bytes.len() - i,
    {
        copy.push(bytes[i]);
        assert(bytes@.subrange(0, i as int).push(bytes@[i as int]) =~= bytes@.subrange(
            0,
            i + 1,
        ));
        i += 1;
    }
    assert(bytes@.subrange(0, bytes@.len() as int) =~= bytes@);
    copy
}

impl Clone for OscArg {
    fn clone(&self) -> (out: Self)
        ensures
            out@ == self@,
        decreases self, 1nat,
    {
        match self {
            OscArg::Int(n) => OscArg::Int(*n),
            OscArg::Float(bits) => OscArg::Float(*bits),
            OscArg::String(text) => OscArg::String(text.clone()),
            OscArg::Blob(bytes) => OscArg::Blob(copy_bytes(bytes)),
            OscArg::Time(time) => OscArg::Time(*time),
            OscArg::Long(n) => OscArg::Long(*n),
            OscArg::Double(bits) => OscArg::Double(*bits),
            OscArg::Char(c) => OscArg::Char(*c),
            OscArg::Color(color) => OscArg::Color(*color),
            OscArg::Midi(midi) => OscArg::Midi(*midi),
            OscArg::Bool(flag) => OscArg::Bool(*flag),
            OscArg::Array(args) => OscArg::Array(clone_args(args)),
            OscArg::Nil => OscArg::Nil,
            OscArg::Inf => OscArg::Inf,
        }
    }
}

/// A copy of a list of arguments.
pub fn clone_args(args: &Vec<OscArg>) -> (copy: Vec<OscArg>)
    ensures
        osc_views(copy@) == osc_views(args@),
    decreases args, 0nat,
{
    let mut copy: Vec<OscArg> = Vec::new();
    let mut i: usize = 0;
    while i < args.len()
        invariant
            i <= args.len(),
            copy@.len() == i,
            forall|k: int| 0 <= k < i ==> copy@[k]@ == args@[k]@,
        decreases args.len() - i,
    {
        copy.push(args[i].clone());
        i += 1;
    }
    assert(osc_views(copy@) =~= osc_views(args@));
    copy
}

/// An OSC message: an address and its arguments.
#[derive(Debug, PartialEq)]
pub struct OscMessage {
    pub addr: String,
    pub args: Vec<OscArg>,
}

/// An OSC bundle: a time tag and the packets it holds.
#[derive(Debug, PartialEq)]
pub struct OscBundle {
    pub timetag: OscTime,
    pub content: Vec<Packet>,
}

/// An OSC packet.
#[derive(Debug, PartialEq)]
pub enum Packet {
    Message(OscMessage),
    Bundle(OscBundle),
}

/// What an [`Packet`] stands for.
pub enum PacketModel {
    Message { addr: Seq<char>, args: Seq<OscModel> },
    Bundle { timetag: OscTime, content: Seq<PacketModel> },
}

/// The models of a list of packets.
pub open spec fn packet_views(packets: Seq<Packet>) -> Seq<PacketModel>
    decreases packets,
{
    Seq::new(
        packets.len(),
        |i: int|
            if 0 <= i < packets.len() {
                packets[i]@
            } else {
                PacketModel::Bundle { timetag: OscTime { seconds: 0, fractional: 0 }, content: Seq::empty() }
            },
    )
}

impl View for Packet {
    type V = PacketModel;

    open spec fn view(&self) -> PacketModel
        decreases self,
    {
        match self {
            Packet::Message(message) => PacketModel::Message {
                addr: message.addr@,
                args: osc_views(message.args@),
            },
            Packet::Bundle(bundle) => PacketModel::Bundle {
                timetag: bundle.timetag,
                content: packet_views(bundle.content@),
            },
        }
    }
}

#[verifier::external_type_specification]
#[verifier::external_body]
pub struct ExRoscType(OscType);

#[verifier::external_type_specification]
#[verifier::external_body]
pub struct ExRoscPacket(rosc::OscPacket);

#[verifier::external_type_specification]
#[verifier::external_body]
pub struct ExRoscError(rosc::OscError);

/// The datagram that `rosc::encoder::encode` writes for a message, where it
/// writes one.
pub uninterp spec fn osc_encoded(addr: Seq<char>, args: Seq<OscModel>) -> Option<Seq<u8>>;

/// The packet that `rosc::decoder::decode_udp` reads from a datagram, where
/// the datagram holds one.
pub uninterp spec fn osc_decoded(datagram: Seq<u8>) -> Option<PacketModel>;

/// Rebuilds an argument as a `rosc::OscType`, variant by variant.
#[verifier::external_body]
fn arg_to_rosc(arg: &OscArg) -> OscType {
    match arg {
        OscArg::Int(n) => OscType::Int(*n),
        OscArg::Long(n) => OscType::Long(*n),
        OscArg::Char(c) => OscType::Char(*c),
        OscArg::Bool(flag) => OscType::Bool(*flag),
        OscArg::Nil => OscType::Nil,
        OscArg::Inf => OscType::Inf,
        OscArg::String(text) => OscType::String(text.clone()),
        OscArg::Blob(bytes) => OscType::Blob(bytes.clone()),
        OscArg::Array(args) => OscType::Array(args.iter().map(arg_to_rosc).collect()),
        other => special_to_rosc(other),
    }
}

/// Rebuilds a floating-point number, a time tag, a colour or a MIDI message as
/// a `rosc::OscType`. A floating-point number is decoded from its bit pattern
/// with `bytes::Buf::get_f32` or `get_f64`.
#[verifier::external_body]
fn special_to_rosc(arg: &OscArg) -> OscType {
    match arg {
        OscArg::Float(bits) => OscType::Float(bytes::Buf::get_f32(&mut &bits.to_be_bytes()[..])),
        OscArg::Double(bits) => OscType::Double(bytes::Buf::get_f64(&mut &bits.to_be_bytes()[..])),
        OscArg::Time(t) => (t.seconds, t.fractional).into(),
        OscArg::Color(c) => rosc::OscColor { red: c.red, green: c.green, blue: c.blue, alpha: c.alpha }.into(),
        OscArg::Midi(m) => rosc::OscMidiMessage { port: m.port, status: m.status, data1: m.data1, data2: m.data2 }.into(),
        _ => OscType::Nil,
    }
}

/// Takes a `rosc::OscType` apart, variant by variant.
#[verifier::external_body]
fn arg_from_rosc(arg: OscType) -> OscArg {
    match arg {
        OscType::Int(n) => OscArg::Int(n),
        OscType::Long(n) => OscArg::Long(n),
        OscType::Char(c) => OscArg::Char(c),
        OscType::Bool(flag) => OscArg::Bool(flag),
        OscType::Nil => OscArg::Nil,
        OscType::Inf => OscArg::Inf,
        OscType::String(text) => OscArg::String(text),
        OscType::Blob(bytes) => OscArg::Blob(bytes),
        OscType::Array(array) => OscArg::Array(array.content.into_iter().map(arg_from_rosc).collect()),
        other => special_from_rosc(other),
    }
}

/// Takes a floating-point number, a time tag, a colour or a MIDI message
/// apart. A floating-point number is kept by its bit pattern.
#[verifier::external_body]
fn special_from_rosc(arg: OscType) -> OscArg {
    match arg {
        OscType::Float(x) => OscArg::Float(x.to_bits()),
        OscType::Double(x) => OscArg::Double(x.to_bits()),
        OscType::Time(t) => OscArg::Time(OscTime { seconds: t.seconds, fractional: t.fractional }),
        OscType::Color(c) => OscArg::Color(OscColor { red: c.red, green: c.green, blue: c.blue, alpha: c.alpha }),
        OscType::Midi(m) => OscArg::Midi(OscMidiMessage { port: m.port, status: m.status, data1: m.data1, data2: m.data2 }),
        _ => OscArg::Nil,
    }
}

/// Takes a `rosc::OscPacket` apart: a message with its arguments, a bundle
/// with its packets.
#[verifier::external_body]
fn packet_from_rosc(packet: rosc::OscPacket) -> Packet {
    match packet {
        rosc::OscPacket::Message(m) => Packet::Message(
            OscMessage { addr: m.addr, args: m.args.into_iter().map(arg_from_rosc).collect() },
        ),
        rosc::OscPacket::Bundle(b) => Packet::Bundle(
            OscBundle {
                timetag: OscTime { seconds: b.timetag.seconds, fractional: b.timetag.fractional },
                content: b.content.into_iter().map(packet_from_rosc).collect(),
            },
        ),
    }
}

/// Calls `rosc::encoder::encode` on the message. What it writes depends on the
/// address and the arguments alone.
#[verifier::external_body]
fn rosc_encode(message: &OscMessage) -> (out: Result<Vec<u8>, rosc::OscError>)
    ensures
        match out {
            Ok(datagram) => osc_encoded(message.addr@, osc_views(message.args@)) == Some(datagram@),
            Err(_) => osc_encoded(message.addr@, osc_views(message.args@)) is None,
        },
{
    let args = message.args.iter().map(arg_to_rosc).collect();
    rosc::encoder::encode(&rosc::OscPacket::Message(rosc::OscMessage { addr: message.addr.clone(), args }))
}

/// Calls `rosc::decoder::decode_udp` and keeps the packet. What it reads
/// depends on the datagram alone.
#[verifier::external_body]
fn rosc_decode(datagram: &[u8]) -> (out: Result<Packet, rosc::OscError>)
    ensures
        match out {
            Ok(packet) => osc_decoded(datagram@) == Some(packet@),
            Err(_) => osc_decoded(datagram@) is None,
        },
{
    rosc::decoder::decode_udp(datagram).map(|found| packet_from_rosc(found.1))
}

impl OscMessage {
    /// The message as one datagram.
    pub fn encode(&self) -> (out: Option<Vec<u8>>)
        ensures
            match out {
                Some(datagram) => osc_encoded(self.addr@, osc_views(self.args@)) == Some(datagram@),
                None => osc_encoded(self.addr@, osc_views(self.args@)) is None,
            },
    {
        match rosc_encode(self) {
            Ok(datagram) => Some(datagram),
            Err(_) => None,
        }
    }
}

impl Packet {
    /// The packet that a datagram holds.
    pub fn decode(datagram: &[u8]) -> (out: Option<Packet>)
        ensures
            match out {
                Some(packet) => osc_decoded(datagram@) == Some(packet@),
                None => osc_decoded(datagram@) is None,
            },
    {
        match rosc_decode(datagram) {
            Ok(packet) => Some(packet),
            Err(_) => None,
        }
    }
}

} // verus!
