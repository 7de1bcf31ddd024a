use heartbeatc3::osc::{Action, Datagram, Endpoint, Event, Fault, IpAddress, Osc};
use heartbeatc3::wire::{decode, encode_float, encode_int, OscArg, OscMessage, OscPacket};

const OWN_PORT: u16 = 9000;

fn node() -> Osc {
    Osc::new(IpAddress::V4(0xc0a8_0102), OWN_PORT)
}

fn sender() -> Endpoint {
    Endpoint { ip: IpAddress::V4(0xc0a8_0163), port: 54_321 }
}

fn peer() -> Endpoint {
    Endpoint { ip: IpAddress::V4(0xc0a8_0110), port: 9000 }
}

fn pong_to(ip: IpAddress) -> Datagram {
    Datagram {
        dest: Endpoint { ip, port: OWN_PORT },
        payload: vec![0x2f, 0x70, 0x6f, 0x6e, 0x67, 0, 0, 0, 0x2c, 0x69, 0, 0, 0, 0, 0, 1],
    }
}

fn rosc_message(addr: &str, args: Vec<rosc::OscType>) -> Vec<u8> {
    rosc::encoder::encode(&rosc::OscPacket::Message(rosc::OscMessage {
        addr: addr.to_string(),
        args,
    }))
    .unwrap()
}

#[test]
fn new_keeps_the_local_address() {
    let osc = node();
    assert_eq!(osc.local(), Endpoint { ip: IpAddress::V4(0xc0a8_0102), port: OWN_PORT });
}

#[test]
fn run_addresses_the_reading_to_the_peer() {
    let d = node().run(peer(), "/test", 75.0f32.to_bits()).unwrap();
    assert_eq!(d.dest, peer());
    assert_eq!(d.payload, encode_float("/test", 75.0f32.to_bits()).unwrap());
    assert_eq!(
        decode(&d.payload).unwrap(),
        OscPacket::Message(OscMessage {
            addr: "/test".to_string(),
            args: vec![OscArg::Float(75.0f32.to_bits())],
        })
    );
}

#[test]
fn run_refuses_a_topic_without_slash() {
    assert_eq!(node().run(peer(), "test", 0), Err(Fault::MalformedTopic));
    assert_eq!(node().run(peer(), "", 0), Err(Fault::MalformedTopic));
}

#[test]
fn ping_is_answered_with_pong_at_own_port() {
    let ping = rosc_message("/ping", vec![]);
    let reply = node().ping(&ping, sender()).unwrap().expect("a ping is answered");
    assert_eq!(reply, pong_to(sender().ip));
    assert_eq!(reply.dest.port, OWN_PORT);
    assert_ne!(reply.dest.port, sender().port);
    assert_eq!(
        decode(&reply.payload).unwrap(),
        OscPacket::Message(OscMessage { addr: "/pong".to_string(), args: vec![OscArg::Int(1)] })
    );
    assert_eq!(reply.payload, encode_int("/pong", 1).unwrap());
}

#[test]
fn ping_from_an_ipv6_sender_is_answered_there() {
    let from = Endpoint { ip: IpAddress::V6(1), port: 4000 };
    let reply = node().ping(&rosc_message("/ping", vec![]), from).unwrap();
    assert_eq!(reply, Some(pong_to(IpAddress::V6(1))));
}

#[test]
fn ping_is_recognised_by_its_address() {
    let ping = rosc_message("/ping", vec![rosc::OscType::Int(5)]);
    assert_eq!(node().ping(&ping, sender()).unwrap(), Some(pong_to(sender().ip)));
}

#[test]
fn other_addresses_are_ignored() {
    for addr in ["/pong", "/test", "/ping/", "/pin", "/Ping", "/"] {
        let bytes = rosc_message(addr, vec![rosc::OscType::Float(1.0)]);
        assert_eq!(node().ping(&bytes, sender()), Ok(None));
    }
}

#[test]
fn bundle_is_not_expanded() {
    let inner = rosc::OscPacket::Message(rosc::OscMessage { addr: "/ping".to_string(), args: vec![] });
    let bundle = rosc::OscPacket::Bundle(rosc::OscBundle {
        timetag: rosc::OscTime { seconds: 0, fractional: 1 },
        content: vec![inner],
    });
    let bytes = rosc::encoder::encode(&bundle).unwrap();
    assert_eq!(node().ping(&bytes, sender()), Ok(None));
    assert_eq!(node().dispatch(&OscPacket::Bundle, sender()), None);
}

#[test]
fn dispatch_answers_a_decoded_ping() {
    let ping = OscPacket::Message(OscMessage { addr: "/ping".to_string(), args: vec![] });
    assert_eq!(node().dispatch(&ping, sender()), Some(pong_to(sender().ip)));
    let other = OscPacket::Message(OscMessage { addr: "/hello".to_string(), args: vec![] });
    assert_eq!(node().dispatch(&other, sender()), None);
}

#[test]
fn malformed_datagram_is_an_error_and_the_next_is_served() {
    let osc = node();
    let ping = rosc_message("/ping", vec![]);
    assert!(osc.ping(&ping[..3], sender()).is_err());
    assert!(osc.ping(&[], sender()).is_err());
    assert!(osc.ping(&[0xff; 64], sender()).is_err());
    assert_eq!(osc.ping(&ping, sender()).unwrap(), Some(pong_to(sender().ip)));
}

#[test]
fn step_reports_malformed_datagrams_and_goes_on() {
    let osc = node();
    let ping = rosc_message("/ping", vec![]);
    let events = [
        Event::Inbound { bytes: vec![], sender: sender() },
        Event::Inbound { bytes: ping[..5].to_vec(), sender: sender() },
        Event::Inbound { bytes: vec![0x2c, 0x2c, 0x2c], sender: sender() },
    ];
    for e in &events {
        match osc.step(peer(), "/test", e) {
            Action::Reject(why) => assert!(!why.reason.is_empty()),
            other => panic!("expected a rejection, got {other:?}"),
        }
    }
    let e = Event::Inbound { bytes: ping, sender: sender() };
    assert_eq!(osc.step(peer(), "/test", &e), Action::Send(pong_to(sender().ip)));
}

fn reading_of(interval_us: u64) -> heartbeatc3::sen0203::Reading {
    let mut s = heartbeatc3::sen0203::Sen0203::new();
    assert!(s.calculate_fake_avg(1_000).is_none());
    s.calculate_fake_avg(1_000 + interval_us).unwrap()
}

#[test]
fn step_publishes_a_reading() {
    let bits = 75.0f32.to_bits();
    let action = node().step(peer(), "/test", &Event::Reading(reading_of(800_000)));
    assert_eq!(
        action,
        Action::Send(Datagram { dest: peer(), payload: encode_float("/test", bits).unwrap() })
    );
    match action {
        Action::Send(d) => assert_eq!(
            decode(&d.payload).unwrap(),
            OscPacket::Message(OscMessage {
                addr: "/test".to_string(),
                args: vec![OscArg::Float(75.0f32.to_bits())],
            })
        ),
        other => panic!("expected a datagram, got {other:?}"),
    }
}

#[test]
fn step_stops_on_closed_channel_io_failure_and_bad_topic() {
    let osc = node();
    assert_eq!(osc.step(peer(), "/test", &Event::ChannelClosed), Action::Stop(Fault::ChannelClosed));
    assert_eq!(osc.step(peer(), "/test", &Event::IoFailed), Action::Stop(Fault::TransportIo));
    assert_eq!(
        osc.step(peer(), "test", &Event::Reading(reading_of(800_000))),
        Action::Stop(Fault::MalformedTopic)
    );
    assert_eq!(osc.step(peer(), "/test", &Event::Idle), Action::Skip);
}

#[test]
fn step_passes_over_what_needs_no_answer() {
    let osc = node();
    let e = Event::Inbound { bytes: rosc_message("/hello", vec![]), sender: sender() };
    assert_eq!(osc.step(peer(), "/test", &e), Action::Skip);
}

#[test]
fn oversized_datagram_is_rejected_unread() {
    let mut bytes = rosc_message("/ping", vec![]);
    bytes.resize(1537, 0);
    let e = osc_error(node().ping(&bytes, sender()));
    assert_eq!(e, "datagram too long");
    bytes.truncate(1536);
    assert_eq!(node().ping(&bytes, sender()).unwrap(), Some(pong_to(sender().ip)));
}

fn osc_error(r: Result<Option<Datagram>, heartbeatc3::wire::DecodeError>) -> String {
    r.unwrap_err().reason
}
