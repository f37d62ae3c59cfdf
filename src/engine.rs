//! The flow table and the dispatch of inbound frames: to an existing
//! connection, to `accept` for a listening port, or to the CLOSED-state
//! responder.

use vstd::prelude::*;
use vstd::arithmetic::div_mod::lemma_add_mod_noop_right;
use crate::seq::{seq_add, seq_advance, seq_modulus};
use crate::tcp::{
    accept_reply, accepted, header_spec, packet_next, packet_reply, reply_addresses, sends,
    Connection, LOCAL_WINDOW,
};
use crate::wire::{
    frame_view, parse_frame, slice_from, AddressPair, Ipv4Info, Outbound, SegmentHeader,
    PREFIX_LEN,
};

verus! {

/// The key of a flow: the remote (source) and local (destination) address
/// and port of its inbound segments.
#[derive(Clone, Copy, Debug, PartialEq, Eq, Structural)]
pub struct Quad {
    pub src_addr: u32,
    pub src_port: u16,
    pub dst_addr: u32,
    pub dst_port: u16,
}

/// The flow that an inbound segment belongs to.
pub open spec fn quad_of(ip: Ipv4Info, seg: SegmentHeader) -> Quad {
    Quad {
        src_addr: ip.source,
        src_port: seg.source_port,
        dst_addr: ip.destination,
        dst_port: seg.destination_port,
    }
}

/// SEG.LEN: the sequence numbers that a segment with `len` bytes of
/// payload and the flags of `seg` takes.
pub open spec fn segment_len(seg: SegmentHeader, len: int) -> int {
    len + (if seg.syn { 1int } else { 0 }) + (if seg.fin { 1int } else { 0 })
}

/// The answer of the CLOSED state (RFC 793, page 64): nothing to an RST;
/// `<SEQ=0><ACK=SEG.SEQ+SEG.LEN><CTL=RST,ACK>` when ACK is off;
/// `<SEQ=SEG.ACK><CTL=RST>` when it is on.
pub open spec fn closed_reply(ip: Ipv4Info, seg: SegmentHeader, len: int) -> Option<(SegmentHeader, AddressPair, Seq<u8>)> {
    if seg.rst {
        None
    } else if !seg.ack {
        let h = header_spec(seg.destination_port, seg.source_port, 0, LOCAL_WINDOW, false, true, true);
        Some((
            SegmentHeader { acknowledgment_number: seq_add(seg.sequence_number, segment_len(seg, len)), ..h },
            reply_addresses(ip),
            Seq::<u8>::empty(),
        ))
    } else {
        Some((
            header_spec(seg.destination_port, seg.source_port, seg.acknowledgment_number, LOCAL_WINDOW, false, false, true),
            reply_addresses(ip),
            Seq::<u8>::empty(),
        ))
    }
}

/// Answers a segment with `payload_len` bytes of payload that arrived for a
/// port nobody listens on, with no connection for its flow.
pub fn closed_response(ip: &Ipv4Info, seg: &SegmentHeader, payload_len: usize) -> (r: Option<Outbound>)
    ensures
        sends(r, closed_reply(*ip, *seg, payload_len as int)),
{
    if seg.rst {
        return None;
    }
    let reply = AddressPair { source: ip.destination, destination: ip.source };
    let mut h = SegmentHeader {
        source_port: seg.destination_port,
        destination_port: seg.source_port,
        sequence_number: 0,
        acknowledgment_number: 0,
        window_size: LOCAL_WINDOW,
        syn: false,
        ack: false,
        rst: true,
        fin: false,
    };
    if !seg.ack {
        let mut k: u64 = (payload_len as u64) % 0x1_0000_0000u64;
        if seg.syn {
            k = k + 1;
        }
        if seg.fin {
            k = k + 1;
        }
        proof {
            let flags = segment_len(*seg, 0);
            lemma_add_mod_noop_right(seg.sequence_number + flags, payload_len as int, seq_modulus());
            assert(k == (payload_len as int) % seq_modulus() + flags);
        }
        h.acknowledgment_number = seq_advance(seg.sequence_number, k);
        h.ack = true;
    } else {
        h.sequence_number = seg.acknowledgment_number;
    }
    let empty: &[u8] = &[];
    assert(empty@ =~= Seq::<u8>::empty());
    Some(Outbound::new(h, reply, empty))
}

/// The connections of one interface, keyed by flow, and the ports that
/// accept new connections.
pub struct Engine {
    pub connections: Vec<(Quad, Connection)>,
    pub listening: Vec<u16>,
}

impl Engine {
    /// No two connections share a flow.
    pub open spec fn wf(&self) -> bool {
        forall|i: int, j: int|
            0 <= i < j < self.connections@.len() ==> self.connections@[i].0 != self.connections@[j].0
    }

    /// Some connection belongs to the flow `q`.
    pub open spec fn has_flow(&self, q: Quad) -> bool {
        exists|i: int| 0 <= i < self.connections@.len() && self.connections@[i].0 == q
    }

    /// An engine with no connections that accepts connections on the ports
    /// in `listening`.
    pub fn new(listening: Vec<u16>) -> (r: Engine)
        ensures
            r.wf(),
            r.connections@.len() == 0,
            r.listening@ == listening@,
    {
        Engine { connections: Vec::new(), listening }
    }

    /// The position of the connection of flow `q`, if there is one.
    pub fn find(&self, q: &Quad) -> (r: Option<usize>)
        requires
            self.wf(),
        ensures
            match r {
                Some(i) => i < self.connections@.len() && self.connections@[i as int].0 == *q,
                None => !self.has_flow(*q),
            },
    {
        let mut i: usize = 0;
        while i < self.connections.len()
            invariant
                i <= self.connections@.len(),
                forall|k: int| 0 <= k < i ==> self.connections@[k].0 != *q,
            decreases self.connections@.len() - i,
        {
            if self.connections[i].0 == *q {
                return Some(i);
            }
            i = i + 1;
        }
        None
    }

    /// Whether new connections are accepted on `port`.
    pub fn is_listening(&self, port: u16) -> (r: bool)
        ensures
            r == self.listening@.contains(port),
    {
        let mut i: usize = 0;
        while i < self.listening.len()
            invariant
                i <= self.listening@.len(),
                forall|k: int| 0 <= k < i ==> self.listening@[k] != port,
            decreases self.listening@.len() - i,
        {
            if self.listening[i] == port {
                return true;
            }
            i = i + 1;
        }
        false
    }
    /// Dispatches one frame read from the interface. A frame that is not a
    /// decodable TCP-in-IPv4 datagram is dropped. A segment of a known flow
    /// goes to its connection's `on_packet` with its payload; one for a
    /// listening port goes to `accept`, and the connection it creates joins
    /// the table; any other gets the CLOSED-state answer. Returns the
    /// segment to send, if any.
    pub fn on_frame(&mut self, frame: &[u8]) -> (r: Option<Outbound>)
        requires
            old(self).wf(),
        ensures
            final(self).wf(),
            final(self).listening@ == old(self).listening@,
            match frame_view(frame@) {
                None => r is None && final(self).connections@ == old(self).connections@,
                Some((ip, seg)) => {
                    let q = quad_of(ip, seg.header);
                    let payload = frame@.subrange(PREFIX_LEN + ip.header_len + seg.header_len, frame@.len() as int);
                    if old(self).has_flow(q) {
                        exists|i: int|
                            0 <= i < old(self).connections@.len() && old(self).connections@[i].0 == q
                            && final(self).connections@ == old(self).connections@.update(
                                i,
                                (q, packet_next(old(self).connections@[i].1, seg.header, payload)),
                            )
                            && sends(r, packet_reply(old(self).connections@[i].1, seg.header, payload))
                    } else if old(self).listening@.contains(seg.header.destination_port) {
                        &&& final(self).connections@ == match accepted(ip, seg.header) {
                            Some(c) => old(self).connections@.push((q, c)),
                            None => old(self).connections@,
                        }
                        &&& sends(r, accept_reply(ip, seg.header))
                    } else {
                        &&& final(self).connections@ == old(self).connections@
                        &&& sends(r, closed_reply(ip, seg.header, payload.len() as int))
                    }
                },
            },
    {
        let parsed = parse_frame(frame);
        if parsed.is_none() {
            return None;
        }
        let (ip, seg, start) = parsed.unwrap();
        assert(frame_view(frame@) == Some((ip, seg)));
        let h = seg.header;
        let q = Quad {
            src_addr: ip.source,
            src_port: h.source_port,
            dst_addr: ip.destination,
            dst_port: h.destination_port,
        };
        let payload = slice_from(frame, start);
        assert(payload@ == frame@.subrange(PREFIX_LEN + ip.header_len + seg.header_len, frame@.len() as int));
        match self.find(&q) {
            Some(i) => {
                let mut c = self.connections[i].1;
                let out = c.on_packet(&h, payload);
                self.connections.set(i, (q, c));
                proof {
                    let k = i as int;
                    assert(self.connections@ == old(self).connections@.update(k, (q, packet_next(old(self).connections@[k].1, h, payload@))));
                }
                out
            },
            None => {
                if self.is_listening(h.destination_port) {
                    let (created, out) = Connection::accept(&ip, &h);
                    match created {
                        Some(c) => {
                            self.connections.push((q, c));
                        },
                        None => {},
                    }
                    out
                } else {
                    closed_response(&ip, &h, payload.len())
                }
            },
        }
    }
}

} // verus!
