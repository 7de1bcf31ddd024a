//! The OSC transport's rules: what is sent for a reading, what is answered
//! to an inbound datagram, and when the transport loop stops. Sockets and
//! channels belong to the caller, who hands in what arrived and carries out
//! what is decided here.

use vstd::prelude::*;
use vstd::utf8::is_ascii_chars_encode_utf8;
use crate::sen0203::Reading;
use crate::wire::{
    decode,
    decode_outcome,
    encode_float,
    encode_int,
    is_address,
    message_bytes,
    DecodeError,
    MessageModel,
    OscPacket,
    PacketModel,
    TAG_FLOAT,
    TAG_INT,
};

verus! {

/// An IP address, as the number that its bytes spell in network order.
#[derive(Clone, Copy, Debug, PartialEq, Eq, Structural)]
pub enum IpAddress {
    V4(u32),
    V6(u128),
}

/// An IP address and a UDP port.
#[derive(Clone, Copy, Debug, PartialEq, Eq, Structural)]
pub struct Endpoint {
    pub ip: IpAddress,
    pub port: u16,
}

/// A datagram to send: where to, and its bytes.
#[derive(Clone, Debug, PartialEq, Eq)]
pub struct Datagram {
    pub dest: Endpoint,
    pub payload: Vec<u8>,
}

/// A datagram as a mathematical value.
pub ghost struct DatagramModel {
    pub dest: Endpoint,
    pub payload: Seq<u8>,
}

impl View for Datagram {
    type V = DatagramModel;

    open spec fn view(&self) -> DatagramModel {
        DatagramModel { dest: self.dest, payload: self.payload@ }
    }
}

/// Why the transport loop stops.
#[derive(Clone, Copy, Debug, PartialEq, Eq, Structural)]
pub enum Fault {
    /// The sampler is gone: no reading will ever arrive.
    ChannelClosed,
    /// The socket failed to send or to receive.
    TransportIo,
    /// The configured topic is no OSC address.
    MalformedTopic,
}

/// What happened since the transport loop last decided.
#[derive(Clone, Debug, PartialEq, Eq)]
pub enum Event {
    /// A reading arrived from the sampler.
    Reading(Reading),
    /// The producer end of the reading channel is closed.
    ChannelClosed,
    /// A datagram arrived from `sender`.
    Inbound { bytes: Vec<u8>, sender: Endpoint },
    /// The socket reported an error.
    IoFailed,
    /// A bounded wait ran out with nothing to do.
    Idle,
}

/// An event as a mathematical value.
pub ghost enum EventModel {
    Reading(Reading),
    ChannelClosed,
    Inbound { bytes: Seq<u8>, sender: Endpoint },
    IoFailed,
    Idle,
}

impl View for Event {
    type V = EventModel;

    open spec fn view(&self) -> EventModel {
        match self {
            Event::Reading(r) => EventModel::Reading(*r),
            Event::ChannelClosed => EventModel::ChannelClosed,
            Event::Inbound { bytes, sender } => EventModel::Inbound {
                bytes: bytes@,
                sender: *sender,
            },
            Event::IoFailed => EventModel::IoFailed,
            Event::Idle => EventModel::Idle,
        }
    }
}

/// What the transport loop does next.
#[derive(Clone, Debug, PartialEq, Eq)]
pub enum Action {
    /// Send this datagram, then go on.
    Send(Datagram),
    /// Nothing to send: go on.
    Skip,
    /// The datagram was no OSC packet: report it, then go on.
    Reject(DecodeError),
    /// Leave the loop.
    Stop(Fault),
}

/// An action as a mathematical value.
pub ghost enum ActionModel {
    Send(DatagramModel),
    Skip,
    Reject(Seq<char>),
    Stop(Fault),
}

impl View for Action {
    type V = ActionModel;

    open spec fn view(&self) -> ActionModel {
        match self {
            Action::Send(d) => ActionModel::Send(d@),
            Action::Skip => ActionModel::Skip,
            Action::Reject(e) => ActionModel::Reject(e.reason@),
            Action::Stop(f) => ActionModel::Stop(*f),
        }
    }
}

/// The address of the control message that is answered.
pub open spec fn ping_address() -> Seq<char> {
    seq!['/', 'p', 'i', 'n', 'g']
}

/// The address of the answer.
pub open spec fn pong_address() -> Seq<char> {
    seq!['/', 'p', 'o', 'n', 'g']
}

/// The answer's bytes: `/pong` with the integer 1.
pub open spec fn pong_bytes() -> Seq<u8> {
    message_bytes(pong_address(), TAG_INT, 1)
}

/// An optional datagram as a mathematical value.
pub open spec fn reply_model(reply: Option<Datagram>) -> Option<DatagramModel> {
    match reply {
        Some(d) => Some(d@),
        None => None,
    }
}

/// The answer to a packet from `sender` on a node that listens on `port`: a
/// message to `/ping` is answered with `/pong 1`, sent to the sender's
/// address at this node's own port. Nothing else is answered.
pub open spec fn reply_to(packet: PacketModel, sender: Endpoint, port: u16) -> Option<
    DatagramModel,
> {
    match packet {
        PacketModel::Message(m) => if m.addr == ping_address() {
            Some(
                DatagramModel {
                    dest: Endpoint { ip: sender.ip, port: port },
                    payload: pong_bytes(),
                },
            )
        } else {
            None
        },
        PacketModel::Bundle => None,
    }
}

/// What is done about the outcome of decoding an inbound datagram: one
/// that does not decode is reported and passed over; one that needs no
/// answer is passed over; a ping is answered.
pub open spec fn inbound_action(
    decoded: Result<PacketModel, Seq<char>>,
    sender: Endpoint,
    port: u16,
) -> ActionModel {
    match decoded {
        Ok(packet) => match reply_to(packet, sender, port) {
            Some(d) => ActionModel::Send(d),
            None => ActionModel::Skip,
        },
        Err(reason) => ActionModel::Reject(reason),
    }
}

/// What is done about a reading: its beats per minute are sent to `peer`
/// under `topic` as one float, unless the topic is no address, which stops
/// the loop.
pub open spec fn reading_action(peer: Endpoint, topic: Seq<char>, reading: Reading) -> ActionModel {
    if is_address(topic) {
        ActionModel::Send(
            DatagramModel {
                dest: peer,
                payload: message_bytes(topic, TAG_FLOAT, reading.spec_bpm_bits() as u32),
            },
        )
    } else {
        ActionModel::Stop(Fault::MalformedTopic)
    }
}

/// The transport's decision for each event.
pub open spec fn next_action(
    port: u16,
    peer: Endpoint,
    topic: Seq<char>,
    event: EventModel,
) -> ActionModel {
    match event {
        EventModel::Reading(reading) => reading_action(peer, topic, reading),
        EventModel::ChannelClosed => ActionModel::Stop(Fault::ChannelClosed),
        EventModel::Inbound { bytes, sender } => inbound_action(
            decode_outcome(bytes),
            sender,
            port,
        ),
        EventModel::IoFailed => ActionModel::Stop(Fault::TransportIo),
        EventModel::Idle => ActionModel::Skip,
    }
}

/// The transport: the local address that its socket is bound to.
#[derive(Clone, Copy, Debug)]
pub struct Osc {
    local: Endpoint,
}

impl View for Osc {
    type V = Endpoint;

    closed spec fn view(&self) -> Endpoint {
        self.local
    }
}

impl Osc {
    /// A transport that listens on `ip` at `port`.
    pub fn new(ip: IpAddress, port: u16) -> (osc: Self)
        ensures
            osc@ == (Endpoint { ip: ip, port: port }),
    {
        Osc { local: Endpoint { ip, port } }
    }

    /// The address to bind the socket to.
    pub fn local(&self) -> (e: Endpoint)
        ensures
            e == self@,
    {
        self.local
    }

    /// The datagram that publishes `value`, the bit pattern of a 32-bit
    /// float, to `addr` under `topic`: one message with that one argument.
    /// Fails exactly when `topic` does not start with a slash.
    pub fn run(&self, addr: Endpoint, topic: &str, value: u32) -> (out: Result<Datagram, Fault>)
        ensures
            match out {
                Ok(d) => is_address(topic@) && d@ == (DatagramModel {
                    dest: addr,
                    payload: message_bytes(topic@, TAG_FLOAT, value),
                }),
                Err(e) => !is_address(topic@) && e == Fault::MalformedTopic,
            },
    {
        match encode_float(topic, value) {
            Some(payload) => Ok(Datagram { dest: addr, payload }),
            None => Err(Fault::MalformedTopic),
        }
    }

    /// The answer, if any, to a decoded packet that came from `sender`.
    pub fn dispatch(&self, packet: &OscPacket, sender: Endpoint) -> (out: Option<Datagram>)
        ensures
            reply_model(out) == reply_to(packet@, sender, self@.port),
    {
        match packet {
            OscPacket::Message(msg) => {
                let ping = "/ping".to_owned();
                proof {
                    reveal_strlit("/ping");
                    reveal_strlit("/pong");
                    assert("/ping"@ =~= ping_address());
                    assert("/pong"@ =~= pong_address());
                }
                if msg.addr == ping {
                    match encode_int("/pong", 1) {
                        Some(payload) => Some(
                            Datagram {
                                dest: Endpoint { ip: sender.ip, port: self.local.port },
                                payload,
                            },
                        ),
                        None => None,
                    }
                } else {
                    None
                }
            },
            OscPacket::Bundle => None,
        }
    }

    /// Decodes one inbound datagram from `sender` and gives the answer to
    /// send, if it asks for one. A datagram that is no OSC packet is an
    /// error to report and pass over.
    pub fn ping(&self, bytes: &[u8], sender: Endpoint) -> (out: Result<Option<Datagram>, DecodeError>)
        ensures
            match decode_outcome(bytes@) {
                Ok(packet) => out matches Ok(reply) && reply_model(reply) == reply_to(
                    packet,
                    sender,
                    self@.port,
                ),
                Err(reason) => out matches Err(e) && e.reason@ == reason,
            },
    {
        match decode(bytes) {
            Ok(packet) => Ok(self.dispatch(&packet, sender)),
            Err(e) => Err(e),
        }
    }

    /// One decision of the transport loop, which publishes to `peer` under
    /// `topic`. An inbound datagram never stops the loop, whatever its
    /// bytes; a closed reading channel always does.
    pub fn step(&self, peer: Endpoint, topic: &str, event: &Event) -> (action: Action)
        ensures
            action@ == next_action(self@.port, peer, topic@, event@),
            event@ is Inbound ==> !(action@ is Stop),
            event@ is ChannelClosed ==> action@ == ActionModel::Stop(Fault::ChannelClosed),
    {
        match event {
            Event::Reading(reading) => match self.run(peer, topic, reading.bpm_bits()) {
                Ok(d) => Action::Send(d),
                Err(fault) => Action::Stop(fault),
            },
            Event::ChannelClosed => Action::Stop(Fault::ChannelClosed),
            Event::Inbound { bytes, sender } => match self.ping(bytes.as_slice(), *sender) {
                Ok(Some(d)) => Action::Send(d),
                Ok(None) => Action::Skip,
                Err(e) => Action::Reject(e),
            },
            Event::IoFailed => Action::Stop(Fault::TransportIo),
            Event::Idle => Action::Skip,
        }
    }
}

/// The answer's bytes, written out: `/pong`, padded to eight bytes; the
/// type tags `,i`, padded to four; and the integer 1 in four bytes.
pub proof fn lemma_pong_bytes()
    ensures
        pong_bytes() == seq![
            0x2fu8, 0x70, 0x6f, 0x6e, 0x67, 0, 0, 0,
            0x2c, 0x69, 0, 0,
            0, 0, 0, 1,
        ],
{
    let addr = pong_address();
    is_ascii_chars_encode_utf8(addr);
    let bytes = vstd::utf8::encode_utf8(addr);
    assert(bytes.len() == 5);
    assert(bytes[0] == addr[0] as u8);
    assert(bytes[1] == addr[1] as u8);
    assert(bytes[2] == addr[2] as u8);
    assert(bytes[3] == addr[3] as u8);
    assert(bytes[4] == addr[4] as u8);
    assert(pong_bytes() =~= seq![
        0x2fu8, 0x70, 0x6f, 0x6e, 0x67, 0, 0, 0,
        0x2c, 0x69, 0, 0,
        0, 0, 0, 1,
    ]);
}

/// A message to `/ping`, with or without arguments, is answered by one
/// datagram: `/pong` with the integer 1, to the sender's address at this
/// node's own port, whatever port the message came from.
pub proof fn lemma_ping_is_answered(msg: MessageModel, sender: Endpoint, port: u16)
    requires
        msg.addr == ping_address(),
    ensures
        inbound_action(Ok(PacketModel::Message(msg)), sender, port) == ActionModel::Send(
            DatagramModel { dest: Endpoint { ip: sender.ip, port: port }, payload: pong_bytes() },
        ),
{
}

/// An inbound datagram never stops the transport, whether it decodes or
/// not, and what is done about it depends on nothing that went before.
pub proof fn lemma_inbound_never_stops(
    decoded: Result<PacketModel, Seq<char>>,
    sender: Endpoint,
    port: u16,
)
    ensures
        !(inbound_action(decoded, sender, port) is Stop),
        decoded matches Err(reason) ==> inbound_action(decoded, sender, port)
            == ActionModel::Reject(reason),
{
}

} // verus!
