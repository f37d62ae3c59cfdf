//! Plain views of IPv4 and TCP headers, and the byte frames exchanged with a
//! TUN interface. Decoding and encoding of the headers, checksums included,
//! is done by `etherparse`.

use vstd::prelude::*;

verus! {

/// Protocol identifier of IPv4 in the 4-byte packet-information prefix.
pub const ETHER_PROTO_IPV4: u16 = 0x0800;

/// IP protocol number of TCP.
pub const IP_PROTO_TCP: u8 = 6;

/// Time to live of every datagram that the engine emits.
pub const IP_TTL: u8 = 64;

/// Length of the packet-information prefix of a TUN frame.
pub const PREFIX_LEN: usize = 4;

/// Length of an IPv4 header without options, as the engine writes it.
pub const IPV4_HEADER_LEN: usize = 20;

/// Length of a TCP header without options, as the engine writes it.
pub const TCP_HEADER_LEN: usize = 20;

/// Largest frame handed to the interface.
pub const MAX_FRAME_LEN: usize = 1500;

/// Largest payload that fits in one outbound frame.
pub const MAX_PAYLOAD_LEN: usize = 1456;

/// What the engine reads of an IPv4 header.
#[derive(Clone, Copy, Debug, PartialEq, Eq, Structural)]
pub struct Ipv4Info {
    /// Source address, most significant octet first.
    pub source: u32,
    /// Destination address, most significant octet first.
    pub destination: u32,
    /// The IP protocol number of the payload.
    pub protocol: u8,
    /// Length of the header with its options, in bytes.
    pub header_len: usize,
}

/// What the engine reads of, or writes into, a TCP header.
#[derive(Clone, Copy, Debug, PartialEq, Eq, Structural)]
pub struct SegmentHeader {
    pub source_port: u16,
    pub destination_port: u16,
    pub sequence_number: u32,
    pub acknowledgment_number: u32,
    pub window_size: u16,
    pub syn: bool,
    pub ack: bool,
    pub rst: bool,
    pub fin: bool,
}

/// An inbound TCP segment: its header and where its payload starts.
#[derive(Clone, Copy, Debug, PartialEq, Eq, Structural)]
pub struct TcpSegment {
    pub header: SegmentHeader,
    /// Length of the header with its options, in bytes.
    pub header_len: usize,
}

/// What `etherparse` decodes from the start of a buffer as an IPv4 header.
pub uninterp spec fn ipv4_decoded(b: Seq<u8>) -> Option<Ipv4Info>;

/// What `etherparse` decodes from the start of a buffer as a TCP header.
pub uninterp spec fn tcp_decoded(b: Seq<u8>) -> Option<TcpSegment>;

/// The TCP checksum `etherparse` computes over the IPv4 pseudo-header, the
/// header `h` and the payload.
pub uninterp spec fn tcp_checksum_of(h: SegmentHeader, source: u32, destination: u32, payload: Seq<u8>) -> u16;

/// The bytes of the TCP header `h` carrying `checksum`, as `etherparse` writes them.
pub uninterp spec fn tcp_header_bytes(h: SegmentHeader, checksum: u16) -> Seq<u8>;

/// The bytes of an IPv4 header without options, as `etherparse` writes it
/// (header checksum included).
pub uninterp spec fn ipv4_header_bytes(payload_len: u16, ttl: u8, protocol: u8, source: u32, destination: u32) -> Seq<u8>;

/// Relies on `Ipv4HeaderSlice::from_slice` and its field readers: on success
/// the header is a prefix of the buffer of at least 20 bytes.
#[verifier::external_body]
fn decode_ipv4(b: &[u8]) -> (r: Option<Ipv4Info>)
    ensures
        r == ipv4_decoded(b@),
        r matches Some(i) ==> IPV4_HEADER_LEN <= i.header_len <= b@.len(),
{
    match etherparse::Ipv4HeaderSlice::from_slice(b) {
        Ok(h) => Some(Ipv4Info {
            source: u32::from_be_bytes(h.source()),
            destination: u32::from_be_bytes(h.destination()),
            protocol: h.protocol(),
            header_len: h.slice().len(),
        }),
        Err(_) => None,
    }
}

/// Relies on `TcpHeaderSlice::from_slice` and its field readers: on success
/// the header is a prefix of the buffer of at least 20 bytes.
#[verifier::external_body]
fn decode_tcp(b: &[u8]) -> (r: Option<TcpSegment>)
    ensures
        r == tcp_decoded(b@),
        r matches Some(s) ==> TCP_HEADER_LEN <= s.header_len <= b@.len(),
{
    match etherparse::TcpHeaderSlice::from_slice(b) {
        Ok(t) => {
            let header = SegmentHeader {
                source_port: t.source_port(), destination_port: t.destination_port(),
                sequence_number: t.sequence_number(), acknowledgment_number: t.acknowledgment_number(),
                window_size: t.window_size(), syn: t.syn(), ack: t.ack(), rst: t.rst(), fin: t.fin(),
            };
            Some(TcpSegment { header, header_len: t.slice().len() })
        },
        Err(_) => None,
    }
}

/// Relies on `TcpHeader::calc_checksum_ipv4_raw`, which fails only when the
/// header and payload together exceed 65535 bytes.
#[verifier::external_body]
fn tcp_checksum(h: &SegmentHeader, source: u32, destination: u32, payload: &[u8]) -> (r: u16)
    requires
        TCP_HEADER_LEN + payload@.len() <= 65535,
    ensures
        r == tcp_checksum_of(*h, source, destination, payload@),
{
    let mut t = etherparse::TcpHeader::new(h.source_port, h.destination_port, h.sequence_number, h.window_size);
    t.acknowledgment_number = h.acknowledgment_number;
    t.syn = h.syn;
    t.ack = h.ack;
    t.rst = h.rst;
    t.fin = h.fin;
    t.calc_checksum_ipv4_raw(source.to_be_bytes(), destination.to_be_bytes(), payload).unwrap_or(0)
}

/// Relies on `TcpHeader::write`: a header made by `TcpHeader::new` has no
/// options, so 20 bytes are written; writing into a `Vec` does not fail.
#[verifier::external_body]
fn encode_tcp_header(h: &SegmentHeader, checksum: u16) -> (r: Vec<u8>)
    ensures
        r@ == tcp_header_bytes(*h, checksum),
        r@.len() == TCP_HEADER_LEN,
{
    let mut t = etherparse::TcpHeader::new(h.source_port, h.destination_port, h.sequence_number, h.window_size);
    t.acknowledgment_number = h.acknowledgment_number;
    t.syn = h.syn;
    t.ack = h.ack;
    t.rst = h.rst;
    t.fin = h.fin;
    t.checksum = checksum;
    let mut out: Vec<u8> = Vec::with_capacity(TCP_HEADER_LEN);
    let _ = t.write(&mut out);
    out
}

/// Relies on `Ipv4Header::new` and `Ipv4Header::write`: no options, so 20
/// bytes; `write` checks only ranges that such a header meets when the
/// payload length is at most 65515.
#[verifier::external_body]
fn encode_ipv4_header(payload_len: u16, ttl: u8, protocol: u8, source: u32, destination: u32) -> (r: Vec<u8>)
    requires
        payload_len <= 65515,
    ensures
        r@ == ipv4_header_bytes(payload_len, ttl, protocol, source, destination),
        r@.len() == IPV4_HEADER_LEN,
{
    let ip = etherparse::Ipv4Header::new(payload_len, ttl, protocol, source.to_be_bytes(), destination.to_be_bytes());
    let mut out: Vec<u8> = Vec::with_capacity(IPV4_HEADER_LEN);
    let _ = ip.write(&mut out);
    out
}

/// The packet-information prefix of an IPv4 frame: no flags, protocol 0x0800.
pub open spec fn ipv4_prefix() -> Seq<u8> {
    seq![0u8, 0u8, 8u8, 0u8]
}

/// The frame that carries the segment `h` with `payload` from `source` to
/// `destination`: prefix, IPv4 header, TCP header with its checksum over the
/// pseudo-header, header and payload, then the payload.
pub open spec fn frame_bytes(h: SegmentHeader, source: u32, destination: u32, payload: Seq<u8>) -> Seq<u8> {
    ipv4_prefix() + ipv4_header_bytes(
        (TCP_HEADER_LEN + payload.len()) as u16,
        IP_TTL,
        IP_PROTO_TCP,
        source,
        destination,
    ) + tcp_header_bytes(h, tcp_checksum_of(h, source, destination, payload)) + payload
}

/// Builds the full frame for one outbound segment.
pub fn build_frame(h: &SegmentHeader, source: u32, destination: u32, payload: &[u8]) -> (r: Vec<u8>)
    requires
        payload@.len() <= MAX_PAYLOAD_LEN,
    ensures
        r@ == frame_bytes(*h, source, destination, payload@),
        r@.len() == PREFIX_LEN + IPV4_HEADER_LEN + TCP_HEADER_LEN + payload@.len(),
        r@.len() <= MAX_FRAME_LEN,
{
    let mut out: Vec<u8> = vec![0u8, 0u8, 8u8, 0u8];
    let mut ip = encode_ipv4_header((TCP_HEADER_LEN + payload.len()) as u16, IP_TTL, IP_PROTO_TCP, source, destination);
    out.append(&mut ip);
    let checksum = tcp_checksum(h, source, destination, payload);
    let mut tcp = encode_tcp_header(h, checksum);
    out.append(&mut tcp);
    let ghost head = out@;
    assert(head =~= ipv4_prefix() + ipv4_header_bytes(
        (TCP_HEADER_LEN + payload@.len()) as u16,
        IP_TTL,
        IP_PROTO_TCP,
        source,
        destination,
    ) + tcp_header_bytes(*h, checksum));
    let mut i: usize = 0;
    while i < payload.len()
        invariant
            i <= payload@.len(),
            out@ == head + payload@.subrange(0, i as int),
        decreases payload@.len() - i,
    {
        out.push(payload[i]);
        assert(payload@.subrange(0, i as int + 1) =~= payload@.subrange(0, i as int).push(payload@[i as int]));
        i = i + 1;
    }
    assert(payload@.subrange(0, payload@.len() as int) =~= payload@);
    out
}

/// The IPv4 and TCP views of a frame read from the interface: `None` unless
/// the prefix names IPv4, the datagram decodes and carries TCP, and the TCP
/// header decodes.
pub open spec fn frame_view(b: Seq<u8>) -> Option<(Ipv4Info, TcpSegment)> {
    if b.len() < PREFIX_LEN || b[2] != 8 || b[3] != 0 {
        None
    } else {
        match ipv4_decoded(b.subrange(PREFIX_LEN as int, b.len() as int)) {
            None => None,
            Some(ip) => if ip.protocol != IP_PROTO_TCP {
                None
            } else {
                match tcp_decoded(b.subrange(PREFIX_LEN + ip.header_len, b.len() as int)) {
                    None => None,
                    Some(seg) => Some((ip, seg)),
                }
            },
        }
    }
}

/// Splits a frame read from the interface into its IPv4 view, its TCP view
/// and the offset at which the TCP payload starts. Frames that do not carry
/// IPv4, whose datagram is not TCP, or whose headers do not decode give `None`.
pub fn parse_frame(frame: &[u8]) -> (r: Option<(Ipv4Info, TcpSegment, usize)>)
    ensures
        match frame_view(frame@) {
            Some((ip, seg)) => {
                &&& r matches Some((i, s, start)) && i == ip && s == seg
                    && start == PREFIX_LEN + ip.header_len + seg.header_len
                &&& PREFIX_LEN + ip.header_len + seg.header_len <= frame@.len()
            },
            None => r is None,
        },
{
    if frame.len() < PREFIX_LEN || frame[2] != 8u8 || frame[3] != 0u8 {
        return None;
    }
    let ip_bytes = slice_from(frame, PREFIX_LEN);
    let ip = match decode_ipv4(ip_bytes) {
        Some(ip) => ip,
        None => return None,
    };
    if ip.protocol != IP_PROTO_TCP {
        return None;
    }
    let tcp_bytes = slice_from(frame, PREFIX_LEN + ip.header_len);
    let seg = match decode_tcp(tcp_bytes) {
        Some(seg) => seg,
        None => return None,
    };
    Some((ip, seg, PREFIX_LEN + ip.header_len + seg.header_len))
}

/// The part of `b` from `start` on.
pub(crate) fn slice_from(b: &[u8], start: usize) -> (r: &[u8])
    requires
        start <= b@.len(),
    ensures
        r@ == b@.subrange(start as int, b@.len() as int),
{
    vstd::slice::slice_subrange(b, start, b.len())
}

/// The two addresses of an IPv4 datagram.
#[derive(Clone, Copy, Debug, PartialEq, Eq, Structural)]
pub struct AddressPair {
    pub source: u32,
    pub destination: u32,
}

/// One segment ready for the interface: its TCP header, its addresses and
/// the full frame.
#[derive(Debug)]
pub struct Outbound {
    pub header: SegmentHeader,
    pub ip: AddressPair,
    pub frame: Vec<u8>,
}

impl Outbound {
    /// `self` carries the header `h` with `payload` between the addresses `ip`.
    pub open spec fn carries(&self, h: SegmentHeader, ip: AddressPair, payload: Seq<u8>) -> bool {
        &&& self.header == h
        &&& self.ip == ip
        &&& self.frame@ == frame_bytes(h, ip.source, ip.destination, payload)
    }

    /// Builds the frame for the header `h` carrying `payload`.
    pub fn new(h: SegmentHeader, ip: AddressPair, payload: &[u8]) -> (r: Outbound)
        requires
            payload@.len() <= MAX_PAYLOAD_LEN,
        ensures
            r.carries(h, ip, payload@),
    {
        let frame = build_frame(&h, ip.source, ip.destination, payload);
        Outbound { header: h, ip, frame }
    }
}

} // verus!
