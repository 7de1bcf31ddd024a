//! The OSC 1.0 wire format as this node uses it: the layout of a message
//! with one argument, and the packets that inbound datagrams decode to.
//! Encoding and decoding are done by the `rosc` crate.

use vstd::prelude::*;
use vstd::string::StringSliceAdditionalSpecFns;
use vstd::utf8::encode_utf8;

verus! {

/// One argument of an OSC message.
#[derive(Clone, Debug, PartialEq, Eq)]
pub enum OscArg {
    /// A 32-bit integer.
    Int(i32),
    /// A 32-bit float, held as its IEEE-754 bit pattern.
    Float(u32),
    /// A string.
    Str(String),
    /// An argument of a type this node has no use for. It is only ever seen
    /// in inbound messages.
    Other,
}

/// An argument as a mathematical value.
pub ghost enum ArgModel {
    Int(i32),
    Float(u32),
    Str(Seq<char>),
    Other,
}

impl View for OscArg {
    type V = ArgModel;

    open spec fn view(&self) -> ArgModel {
        match self {
            OscArg::Int(i) => ArgModel::Int(*i),
            OscArg::Float(bits) => ArgModel::Float(*bits),
            OscArg::Str(s) => ArgModel::Str(s@),
            OscArg::Other => ArgModel::Other,
        }
    }
}

/// An OSC message: an address and its arguments in order.
#[derive(Clone, Debug, PartialEq, Eq)]
pub struct OscMessage {
    pub addr: String,
    pub args: Vec<OscArg>,
}

/// A message as a mathematical value.
pub ghost struct MessageModel {
    pub addr: Seq<char>,
    pub args: Seq<ArgModel>,
}

impl View for OscMessage {
    type V = MessageModel;

    open spec fn view(&self) -> MessageModel {
        MessageModel { addr: self.addr@, args: self.args@.map_values(|a: OscArg| a@) }
    }
}

/// A decoded OSC packet. A bundle is recognised but its content is not
/// kept: nested packets are never expanded.
#[derive(Clone, Debug, PartialEq, Eq)]
pub enum OscPacket {
    Message(OscMessage),
    Bundle,
}

/// A packet as a mathematical value.
pub ghost enum PacketModel {
    Message(MessageModel),
    Bundle,
}

impl View for OscPacket {
    type V = PacketModel;

    open spec fn view(&self) -> PacketModel {
        match self {
            OscPacket::Message(m) => PacketModel::Message(m@),
            OscPacket::Bundle => PacketModel::Bundle,
        }
    }
}

/// Why a datagram is not an OSC packet.
#[derive(Clone, Debug, PartialEq, Eq)]
pub struct DecodeError {
    /// The decoder's message.
    pub reason: String,
}

/// Whether `addr` is an OSC address: it starts with a slash.
pub open spec fn is_address(addr: Seq<char>) -> bool {
    addr.len() > 0 && addr[0] == '/'
}

/// The type tag of a 32-bit integer argument: the letter `i`.
pub const TAG_INT: u8 = 0x69;

/// The type tag of a 32-bit float argument: the letter `f`.
pub const TAG_FLOAT: u8 = 0x66;

/// `n` zero bytes.
pub open spec fn zeros(n: nat) -> Seq<u8> {
    Seq::new(n, |i: int| 0u8)
}

/// An OSC string: the bytes, then one to four zero bytes, so that the whole
/// is terminated and its length is a multiple of four.
pub open spec fn osc_string(s: Seq<u8>) -> Seq<u8> {
    s + zeros((4 - s.len() % 4) as nat)
}

/// The four bytes of a 32-bit word, most significant first.
pub open spec fn be32(word: u32) -> Seq<u8> {
    seq![
        (word / 0x100_0000) as u8,
        (word / 0x1_0000 % 0x100) as u8,
        (word / 0x100 % 0x100) as u8,
        (word % 0x100) as u8,
    ]
}

/// The bytes of a message with one 32-bit argument: the address as an OSC
/// string, the type tag string (a comma and the argument's tag, padded),
/// and the argument's word, most significant byte first.
pub open spec fn message_bytes(addr: Seq<char>, tag: u8, word: u32) -> Seq<u8> {
    osc_string(encode_utf8(addr)) + seq![0x2cu8, tag, 0u8, 0u8] + be32(word)
}

/// The word that carries a 32-bit integer: its two's complement.
pub open spec fn int_word(value: i32) -> u32 {
    value as u32
}

/// The longest datagram that is decoded, in bytes: the size of the
/// transport's receive buffer.
pub const MTU: usize = 1536;

/// What the decoder makes of a datagram: the packet, or the reason why the
/// bytes are none.
pub uninterp spec fn decoded_packet(bytes: Seq<u8>) -> Result<PacketModel, Seq<char>>;

/// The reason given for a datagram that is longer than the receive buffer.
pub open spec fn oversized() -> Seq<char> {
    seq!['d', 'a', 't', 'a', 'g', 'r', 'a', 'm', ' ', 't', 'o', 'o', ' ', 'l', 'o', 'n', 'g']
}

/// What a datagram is taken for: one longer than the receive buffer is
/// refused unread; any other is what the decoder makes of it.
pub open spec fn decode_outcome(bytes: Seq<u8>) -> Result<PacketModel, Seq<char>> {
    if bytes.len() > MTU {
        Err(oversized())
    } else {
        decoded_packet(bytes)
    }
}

/// A decoding result as a mathematical value.
pub open spec fn decoded_model(out: Result<OscPacket, DecodeError>) -> Result<
    PacketModel,
    Seq<char>,
> {
    match out {
        Ok(p) => Ok(p@),
        Err(e) => Err(e.reason@),
    }
}

/// Calls `rosc::encoder::encode` on a message with the given address and
/// one integer argument. The encoder cannot fail on a message, and lays it
/// out as `message_bytes` says: this is taken from its source, not proved.
#[verifier::external_body]
pub(crate) fn encode_int_message(addr: &str, value: i32) -> (out: Option<Vec<u8>>)
    ensures
        out is Some,
        out.unwrap()@ == message_bytes(addr@, TAG_INT, int_word(value)),
{
    let msg = rosc::OscMessage { addr: addr.to_string(), args: vec![rosc::OscType::Int(value)] };
    rosc::encoder::encode(&rosc::OscPacket::Message(msg)).ok()
}

/// Calls `rosc::decoder::decode_udp` and keeps of its answer what this node
/// reads: a message's address and arguments, that a packet is a bundle, or
/// the error's text. Two things are claimed of the answer: it depends on
/// the bytes alone, and the decoder takes nothing for a message whose
/// address does not start with a slash. The decoder descends into nested
/// bundles, so the input is kept to the size of a datagram.
#[verifier::external_body]
pub(crate) fn decode_udp(bytes: &[u8]) -> (out: Result<OscPacket, DecodeError>)
    requires
        bytes@.len() <= MTU,
    ensures
        decoded_model(out) == decoded_packet(bytes@),
        out matches Ok(OscPacket::Message(m)) ==> is_address(m.addr@),
{
    match rosc::decoder::decode_udp(bytes) {
        Ok((_, rosc::OscPacket::Message(m))) => {
            let args = m.args.into_iter().map(|a| match a {
                rosc::OscType::Int(i) => OscArg::Int(i),
                rosc::OscType::Float(x) => OscArg::Float(x.to_bits()),
                rosc::OscType::String(s) => OscArg::Str(s),
                _ => OscArg::Other,
            }).collect();
            Ok(OscPacket::Message(OscMessage { addr: m.addr, args }))
        },
        Ok((_, rosc::OscPacket::Bundle(_))) => Ok(OscPacket::Bundle),
        Err(e) => Err(DecodeError { reason: e.to_string() }),
    }
}

/// Whether `topic` starts with a slash.
pub fn is_valid_address(topic: &str) -> (ok: bool)
    ensures
        ok == is_address(topic@),
{
    topic.unicode_len() > 0 && topic.get_char(0) == '/'
}

/// Encodes a message with one integer argument. Fails exactly when the
/// address does not start with a slash.
pub fn encode_int(addr: &str, value: i32) -> (out: Option<Vec<u8>>)
    ensures
        match out {
            Some(bytes) => is_address(addr@) && bytes@ == message_bytes(
                addr@,
                TAG_INT,
                int_word(value),
            ),
            None => !is_address(addr@),
        },
{
    if is_valid_address(addr) {
        encode_int_message(addr, value)
    } else {
        None
    }
}

/// Encodes a message with one float argument, given as its IEEE-754 bit
/// pattern. Fails exactly when the address does not start with a slash.
///
/// A float and an integer are laid out alike but for the type tag, so the
/// message is encoded with the bit pattern as an integer and then tagged
/// as a float.
pub fn encode_float(addr: &str, bits: u32) -> (out: Option<Vec<u8>>)
    ensures
        match out {
            Some(bytes) => is_address(addr@) && bytes@ == message_bytes(addr@, TAG_FLOAT, bits),
            None => !is_address(addr@),
        },
{
    if !is_valid_address(addr) {
        return None;
    }
    let value: i32 = #[verifier::truncate] (bits as i32);
    assert(int_word(value) == bits) by (bit_vector)
        requires
            value == bits as i32,
    ;
    match encode_int_message(addr, value) {
        Some(mut bytes) => {
            let ghost n = encode_utf8(addr@).len();
            let ghost head = osc_string(encode_utf8(addr@));
            let ghost before = bytes@;
            let total: usize = bytes.len();
            assert(total == n + (4 - n % 4) + 8);
            assert(addr.spec_bytes().len() == n);
            let len: usize = addr.len();
            assert(len == n);
            let tag_at: usize = len - len % 4 + 5;
            assert(tag_at == head.len() + 1);
            bytes.set(tag_at, TAG_FLOAT);
            assert(bytes@ =~= message_bytes(addr@, TAG_FLOAT, bits)) by {
                let want = message_bytes(addr@, TAG_FLOAT, bits);
                assert(want.len() == before.len());
                assert forall|i: int| 0 <= i < want.len() implies bytes@[i] == want[i] by {
                    if i != tag_at as int {
                        assert(bytes@[i] == before[i]);
                    }
                }
            }
            Some(bytes)
        },
        None => None,
    }
}

/// Decodes one datagram. Malformed, truncated or oversized input is an
/// error, never a panic.
pub fn decode(bytes: &[u8]) -> (out: Result<OscPacket, DecodeError>)
    ensures
        decoded_model(out) == decode_outcome(bytes@),
        out matches Ok(OscPacket::Message(m)) ==> is_address(m.addr@),
        bytes@.len() > MTU ==> out is Err,
{
    if bytes.len() > MTU {
        proof {
            reveal_strlit("datagram too long");
            assert("datagram too long"@ =~= oversized());
        }
        Err(DecodeError { reason: "datagram too long".to_owned() })
    } else {
        decode_udp(bytes)
    }
}

} // verus!
