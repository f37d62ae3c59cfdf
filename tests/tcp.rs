use tcprust::engine::{closed_response, Engine};
use tcprust::seq::{is_between_wrapped, seq_advance, wrapping_lt};
use tcprust::tcp::{Connection, RecvSequenceSpace, SendSequenceSpace, State};
use tcprust::wire::{parse_frame, AddressPair, Ipv4Info, Outbound, SegmentHeader};

const PEER: u32 = 0x0a00_0001;
const LOCAL: u32 = 0x0a00_0002;

fn header(seq: u32, ack_no: u32, syn: bool, ack: bool, rst: bool) -> SegmentHeader {
    SegmentHeader {
        source_port: 40000,
        destination_port: 80,
        sequence_number: seq,
        acknowledgment_number: ack_no,
        window_size: 512,
        syn,
        ack,
        rst,
        fin: false,
    }
}

fn inbound_ip() -> Ipv4Info {
    Ipv4Info { source: PEER, destination: LOCAL, protocol: 6, header_len: 20 }
}

fn inbound_frame(h: SegmentHeader, payload: &[u8]) -> Vec<u8> {
    Outbound::new(h, AddressPair { source: PEER, destination: LOCAL }, payload).frame
}

fn established(una: u32, nxt: u32) -> Connection {
    Connection {
        state: State::Established,
        send: SendSequenceSpace { una, nxt, wnd: 1024, iss: 0 },
        recv: RecvSequenceSpace { irs: 999, nxt: 1001, wnd: 512 },
        tcp: header(0, 0, false, true, false),
        ip: AddressPair { source: LOCAL, destination: PEER },
    }
}

#[test]
fn test_is_between_wrapped() {
    assert!(!is_between_wrapped(5, 4, 10));
    assert!(!is_between_wrapped(5, 5, 10));
    assert!(is_between_wrapped(5, 6, 10));
    assert!(is_between_wrapped(5, 9, 10));
    assert!(!is_between_wrapped(5, 10, 10));
    assert!(!is_between_wrapped(5, 11, 10));
}

#[test]
fn between_across_wrap() {
    assert!(is_between_wrapped(u32::MAX - 1, u32::MAX, 2));
    assert!(is_between_wrapped(u32::MAX - 1, 0, 2));
    assert!(is_between_wrapped(u32::MAX - 1, 1, 2));
    assert!(!is_between_wrapped(u32::MAX - 1, 2, 2));
    assert!(!is_between_wrapped(u32::MAX - 1, u32::MAX - 1, 2));
}

#[test]
fn wrapping_lt_half_space() {
    assert!(wrapping_lt(1, 2));
    assert!(!wrapping_lt(2, 1));
    assert!(!wrapping_lt(3, 3));
    assert!(wrapping_lt(u32::MAX, 0));
    assert!(!wrapping_lt(0, u32::MAX));
    assert!(!wrapping_lt(0, 0x8000_0000));
    assert!(wrapping_lt(0, 0x7fff_ffff));
}

#[test]
fn seq_advance_wraps() {
    assert_eq!(seq_advance(u32::MAX, 1), 0);
    assert_eq!(seq_advance(10, 5), 15);
    assert_eq!(seq_advance(10, 0x1_0000_0003), 13);
}

#[test]
fn accept_syn_creates_connection() {
    let (c, out) = Connection::accept(&inbound_ip(), &header(1000, 0, true, false, false));
    let c = c.expect("a SYN creates a connection");
    assert_eq!(c.state, State::SynReceived);
    assert_eq!(c.recv.irs, 1000);
    assert_eq!(c.recv.nxt, 1001);
    assert_eq!(c.recv.wnd, 512);
    assert_eq!(c.send.una, 0);
    assert_eq!(c.send.nxt, c.send.iss + 1);
    assert_eq!(c.send.wnd, 1024);
    let o = out.expect("a SYN is answered");
    assert!(o.header.syn && o.header.ack && !o.header.rst);
    assert_eq!(o.header.sequence_number, 0);
    assert_eq!(o.header.acknowledgment_number, 1001);
    assert_eq!(o.header.source_port, 80);
    assert_eq!(o.header.destination_port, 40000);
    assert_eq!(o.ip, AddressPair { source: LOCAL, destination: PEER });
}

#[test]
fn accept_syn_at_wrap() {
    let (c, out) = Connection::accept(&inbound_ip(), &header(u32::MAX, 0, true, false, false));
    assert_eq!(c.unwrap().recv.nxt, 0);
    assert_eq!(out.unwrap().header.acknowledgment_number, 0);
}

#[test]
fn accept_rst_is_ignored() {
    let (c, out) = Connection::accept(&inbound_ip(), &header(1000, 7, true, true, true));
    assert!(c.is_none());
    assert!(out.is_none());
}

#[test]
fn accept_ack_is_reset() {
    let (c, out) = Connection::accept(&inbound_ip(), &header(1000, 4242, false, true, false));
    assert!(c.is_none());
    let o = out.expect("an ACK in LISTEN is answered by a reset");
    assert!(o.header.rst && !o.header.ack && !o.header.syn);
    assert_eq!(o.header.sequence_number, 4242);
    assert_eq!(o.header.destination_port, 40000);
}

#[test]
fn accept_without_flags_is_dropped() {
    let (c, out) = Connection::accept(&inbound_ip(), &header(1000, 0, false, false, false));
    assert!(c.is_none());
    assert!(out.is_none());
}

#[test]
fn syn_received_ack_of_nxt_establishes() {
    let (c, _) = Connection::accept(&inbound_ip(), &header(1000, 0, true, false, false));
    let mut c = c.unwrap();
    let out = c.on_packet(&header(1001, 1, false, true, false), &[]);
    assert_eq!(c.state, State::Established);
    assert_eq!(c.send.una, 1);
    assert_eq!(c.recv.nxt, 1002);
    let o = out.expect("an acknowledgment is sent");
    assert!(o.header.ack && !o.header.syn);
    assert_eq!(o.header.sequence_number, 1);
}

#[test]
fn syn_received_bad_ack_keeps_state() {
    let (c, _) = Connection::accept(&inbound_ip(), &header(1000, 0, true, false, false));
    let mut c = c.unwrap();
    let before = c;
    let out = c.on_packet(&header(1001, 5, false, true, false), &[]);
    assert_eq!(c.state, State::SynReceived);
    assert_eq!(c, before);
    assert!(out.is_none());
}

#[test]
fn segment_without_ack_is_dropped() {
    let mut c = established(10, 20);
    let before = c;
    let out = c.on_packet(&header(1001, 15, false, false, false), b"hi");
    assert_eq!(c, before);
    assert!(out.is_none());
}

#[test]
fn established_ack_advances_una() {
    let mut c = established(10, 20);
    let out = c.on_packet(&header(1001, 15, false, true, false), &[]);
    assert_eq!(c.send.una, 15);
    assert!(out.is_some());
    let mut c = established(10, 20);
    c.on_packet(&header(1001, 20, false, true, false), &[]);
    assert_eq!(c.send.una, 20);
}

#[test]
fn established_old_ack_keeps_una() {
    let mut c = established(10, 20);
    c.on_packet(&header(1001, 10, false, true, false), &[]);
    assert_eq!(c.send.una, 10);
    let mut c = established(10, 20);
    c.on_packet(&header(1001, 5, false, true, false), &[]);
    assert_eq!(c.send.una, 10);
    let mut c = established(10, 20);
    c.on_packet(&header(1001, 21, false, true, false), &[]);
    assert_eq!(c.send.una, 10);
}

#[test]
fn established_text_advances_send_nxt() {
    let mut c = established(10, 20);
    let out = c.on_packet(&header(5000, 20, false, true, false), b"hello");
    assert_eq!(c.recv.nxt, 5001);
    assert_eq!(c.send.nxt, 25);
    let o = out.unwrap();
    assert_eq!(o.header.sequence_number, 20);
    assert_eq!(o.header.acknowledgment_number, 5001);
    assert_eq!(o.frame.len(), 4 + 20 + 20 + 5);
    assert_eq!(&o.frame[44..], b"hello");
}

#[test]
fn zero_window_is_answered_by_ack() {
    let mut c = established(10, 20);
    let mut h = header(7000, 15, false, true, false);
    h.window_size = 0;
    let out = c.on_packet(&h, b"data");
    assert_eq!(c.recv.nxt, 7001);
    assert_eq!(c.send.una, 10);
    assert_eq!(c.send.nxt, 20);
    let o = out.unwrap();
    assert!(o.header.ack);
    assert_eq!(o.header.sequence_number, 20);
    assert_eq!(o.header.acknowledgment_number, 7001);
    assert_eq!(o.frame.len(), 44);
}

#[test]
fn oversized_payload_sends_nothing() {
    let mut c = established(10, 20);
    let big = vec![7u8; 1457];
    let out = c.on_packet(&header(5000, 20, false, true, false), &big);
    assert!(out.is_none());
    assert_eq!(c.send.nxt, 20);
}

#[test]
fn write_counts_sequence_numbers() {
    let mut c = established(10, 20);
    c.tcp.syn = true;
    c.tcp.fin = true;
    let (o, n) = c.write(b"abc").unwrap();
    assert_eq!(n, 5);
    assert_eq!(o.header.sequence_number, 20);
    assert_eq!(o.header.acknowledgment_number, 1001);
    assert_eq!(c.tcp.sequence_number, 20);
    assert_eq!(c.send.nxt, 20);
    let mut c = established(10, 20);
    let (_, n) = c.write(&[]).unwrap();
    assert_eq!(n, 0);
    assert!(c.write(&vec![0u8; 1457]).is_none());
}

#[test]
fn frame_round_trip() {
    let h = header(123456, 654321, true, true, false);
    let frame = inbound_frame(h, b"xyz");
    assert_eq!(&frame[..4], &[0, 0, 8, 0]);
    assert_eq!(frame.len(), 47);
    // IPv4 total length: 20 + 20 + 3
    assert_eq!(&frame[6..8], &[0, 43]);
    let (ip, seg, start) = parse_frame(&frame).expect("the frame decodes");
    assert_eq!(ip.source, PEER);
    assert_eq!(ip.destination, LOCAL);
    assert_eq!(ip.protocol, 6);
    assert_eq!(ip.header_len, 20);
    assert_eq!(seg.header, h);
    assert_eq!(seg.header_len, 20);
    assert_eq!(start, 44);
}

#[test]
fn frame_checksum_matches_etherparse() {
    let h = header(1, 2, false, true, false);
    let frame = inbound_frame(h, b"payload");
    let mut t = etherparse::TcpHeader::new(40000, 80, 1, 512);
    t.acknowledgment_number = 2;
    t.ack = true;
    let sum = t
        .calc_checksum_ipv4_raw(PEER.to_be_bytes(), LOCAL.to_be_bytes(), b"payload")
        .unwrap();
    assert_ne!(sum, 0);
    assert_eq!(&frame[40..42], &sum.to_be_bytes());
}

#[test]
fn parse_rejects_other_frames() {
    assert!(parse_frame(&[0, 0, 8]).is_none());
    let mut frame = inbound_frame(header(1, 2, false, true, false), &[]);
    frame[3] = 0xdd;
    assert!(parse_frame(&frame).is_none());
    let mut frame = inbound_frame(header(1, 2, false, true, false), &[]);
    frame[4 + 9] = 17;
    assert!(parse_frame(&frame).is_none());
    let frame = inbound_frame(header(1, 2, false, true, false), &[]);
    assert!(parse_frame(&frame[..30]).is_none());
}

#[test]
fn closed_port_reset_without_ack() {
    let mut h = header(500, 0, true, false, false);
    h.fin = true;
    let o = closed_response(&inbound_ip(), &h, 10).unwrap();
    assert!(o.header.rst && o.header.ack);
    assert_eq!(o.header.sequence_number, 0);
    assert_eq!(o.header.acknowledgment_number, 512);
}

#[test]
fn closed_port_reset_with_ack() {
    let o = closed_response(&inbound_ip(), &header(500, 77, false, true, false), 3).unwrap();
    assert!(o.header.rst && !o.header.ack);
    assert_eq!(o.header.sequence_number, 77);
}

#[test]
fn closed_port_ignores_rst() {
    assert!(closed_response(&inbound_ip(), &header(500, 77, false, true, true), 0).is_none());
}

#[test]
fn handshake_end_to_end() {
    let mut engine = Engine::new(vec![80, 443]);
    let syn = inbound_frame(header(1000, 0, true, false, false), &[]);
    let reply = engine.on_frame(&syn).expect("SYN+ACK");
    assert!(reply.header.syn && reply.header.ack);
    assert_eq!(reply.header.sequence_number, 0);
    assert_eq!(reply.header.acknowledgment_number, 1001);
    assert_eq!(engine.connections.len(), 1);
    assert_eq!(engine.connections[0].1.state, State::SynReceived);
    let ack = inbound_frame(header(1001, 1, false, true, false), &[]);
    engine.on_frame(&ack);
    assert_eq!(engine.connections.len(), 1);
    assert_eq!(engine.connections[0].1.state, State::Established);
}

#[test]
fn engine_resets_unlistened_port() {
    let mut engine = Engine::new(vec![80, 443]);
    let mut h = header(1000, 0, true, false, false);
    h.destination_port = 8080;
    let reply = engine.on_frame(&inbound_frame(h, &[])).unwrap();
    assert!(reply.header.rst && reply.header.ack);
    assert_eq!(reply.header.acknowledgment_number, 1001);
    assert!(engine.connections.is_empty());
}

#[test]
fn engine_drops_garbage() {
    let mut engine = Engine::new(vec![80]);
    assert!(engine.on_frame(&[1, 2, 3, 4, 5]).is_none());
    assert!(engine.connections.is_empty());
}
