//! The connection state machine: acceptance of a connection from the
//! implicit LISTEN state, processing of segments on an existing connection,
//! and construction of outbound segments.

use vstd::prelude::*;
use crate::seq::{
    is_between_wrapped, lemma_advance_in_flight, lemma_between_shrinks, lemma_seq_diff_cases, seq_add,
    seq_between, seq_diff, seq_lt, seq_next,
};
use crate::wire::{AddressPair, Ipv4Info, Outbound, SegmentHeader, MAX_PAYLOAD_LEN};

verus! {

/// Initial send sequence number of every connection.
pub const INITIAL_SEND_SEQUENCE: u32 = 0;

/// Receive window that the engine advertises.
pub const LOCAL_WINDOW: u16 = 1024;

/// The states of a connection. CLOSED and LISTEN have no connection record:
/// they are the absence of one from the flow table.
#[derive(Clone, Copy, Debug, PartialEq, Eq, Structural)]
pub enum State {
    SynReceived,
    Established,
    FinWait1,
    FinWait2,
    CloseWait,
    Closing,
    LastAck,
    TimeWait,
}

/// Send sequence space (RFC 793, section 3.2, figure 4).
#[derive(Clone, Copy, Debug, PartialEq, Eq, Structural)]
pub struct SendSequenceSpace {
    /// Oldest unacknowledged sequence number.
    pub una: u32,
    /// Next sequence number to send.
    pub nxt: u32,
    /// Send window.
    pub wnd: u16,
    /// Initial send sequence number.
    pub iss: u32,
}

impl SendSequenceSpace {
    /// `una` is never ahead of `nxt` in wrap-around order.
    pub open spec fn wf(&self) -> bool {
        !seq_lt(self.nxt, self.una)
    }
}

/// Receive sequence space (RFC 793, section 3.2, figure 5).
#[derive(Clone, Copy, Debug, PartialEq, Eq, Structural)]
pub struct RecvSequenceSpace {
    /// Initial receive sequence number, fixed when the connection is made.
    pub irs: u32,
    /// Next sequence number expected from the peer.
    pub nxt: u32,
    /// Receive window.
    pub wnd: u16,
}

/// One TCP connection: its state, both sequence spaces, the header that
/// outbound segments are built from, and the addresses they go between.
#[derive(Clone, Copy, Debug, PartialEq, Eq, Structural)]
pub struct Connection {
    pub state: State,
    pub send: SendSequenceSpace,
    pub recv: RecvSequenceSpace,
    pub tcp: SegmentHeader,
    pub ip: AddressPair,
}

/// A header from `source_port` to `destination_port` with the given flags,
/// acknowledgment number zero.
pub open spec fn header_spec(
    source_port: u16,
    destination_port: u16,
    sequence_number: u32,
    window_size: u16,
    syn: bool,
    ack: bool,
    rst: bool,
) -> SegmentHeader {
    SegmentHeader {
        source_port,
        destination_port,
        sequence_number,
        acknowledgment_number: 0,
        window_size,
        syn,
        ack,
        rst,
        fin: false,
    }
}

/// The addresses of a reply to a datagram with the addresses `ip`.
pub open spec fn reply_addresses(ip: Ipv4Info) -> AddressPair {
    AddressPair { source: ip.destination, destination: ip.source }
}

/// The reset that answers an acknowledgment arriving in LISTEN:
/// `<SEQ=SEG.ACK><CTL=RST>`.
pub open spec fn listen_reset(seg: SegmentHeader) -> SegmentHeader {
    header_spec(seg.destination_port, seg.source_port, seg.acknowledgment_number, LOCAL_WINDOW, false, false, true)
}

/// The connection that a SYN creates, before its SYN+ACK is sent.
pub open spec fn syn_received(ip: Ipv4Info, seg: SegmentHeader) -> Connection {
    Connection {
        state: State::SynReceived,
        send: SendSequenceSpace {
            una: INITIAL_SEND_SEQUENCE,
            nxt: INITIAL_SEND_SEQUENCE,
            wnd: LOCAL_WINDOW,
            iss: INITIAL_SEND_SEQUENCE,
        },
        recv: RecvSequenceSpace {
            irs: seg.sequence_number,
            nxt: seq_add(seg.sequence_number, 1),
            wnd: seg.window_size,
        },
        tcp: header_spec(
            seg.destination_port,
            seg.source_port,
            INITIAL_SEND_SEQUENCE,
            LOCAL_WINDOW,
            true,
            true,
            false,
        ),
        ip: reply_addresses(ip),
    }
}

/// The header of `c` stamped for sending: sequence number `send.nxt`,
/// acknowledgment number `recv.nxt`.
pub open spec fn stamped(c: Connection) -> SegmentHeader {
    SegmentHeader {
        sequence_number: c.send.nxt,
        acknowledgment_number: c.recv.nxt,
        ..c.tcp
    }
}

/// Sequence numbers taken by a segment with `len` bytes of payload and the
/// flags of `h`.
pub open spec fn consumed(h: SegmentHeader, len: int) -> int {
    len + (if h.syn { 1int } else { 0 }) + (if h.fin { 1int } else { 0 })
}

/// The header of a bare acknowledgment on the flow of `seg`, from the send
/// space `send`.
pub open spec fn ack_template(seg: SegmentHeader, send: SendSequenceSpace) -> SegmentHeader {
    header_spec(seg.destination_port, seg.source_port, send.nxt, send.wnd, false, true, false)
}

/// The state after the acknowledgment `ack` is checked (fifth step of
/// segment processing).
pub open spec fn state_after_ack(c: Connection, ack: u32) -> State {
    if c.state == State::SynReceived && seq_between(
        seq_add(c.send.una, -1),
        ack,
        seq_add(c.send.nxt, 1),
    ) {
        State::Established
    } else {
        c.state
    }
}

/// `send.una` after the acknowledgment `ack` is checked.
pub open spec fn una_after_ack(c: Connection, ack: u32) -> u32 {
    if state_after_ack(c, ack) == State::Established && seq_between(
        c.send.una,
        ack,
        seq_add(c.send.nxt, 1),
    ) {
        ack
    } else {
        c.send.una
    }
}

/// States in which the text of a segment is processed.
pub open spec fn takes_text(s: State) -> bool {
    s == State::Established || s == State::FinWait1 || s == State::FinWait2
}

/// States in which a segment with a zero window is answered at once.
pub open spec fn checks_window(s: State) -> bool {
    s == State::SynReceived || s == State::Established
}

/// `out` is the segment that `reply` describes (header, addresses and
/// payload), or nothing when `reply` is nothing.
pub open spec fn sends(out: Option<Outbound>, reply: Option<(SegmentHeader, AddressPair, Seq<u8>)>) -> bool {
    match reply {
        Some((h, ip, payload)) => out matches Some(o) && o.carries(h, ip, payload),
        None => out is None,
    }
}

/// The connection that `accept` creates: one for a SYN that carries
/// neither RST nor ACK, with `send.nxt` past the SYN it sends.
pub open spec fn accepted(ip: Ipv4Info, seg: SegmentHeader) -> Option<Connection> {
    if !seg.rst && !seg.ack && seg.syn {
        let c0 = syn_received(ip, seg);
        Some(Connection {
            send: SendSequenceSpace { nxt: seq_add(INITIAL_SEND_SEQUENCE, 1), ..c0.send },
            tcp: stamped(c0),
            ..c0
        })
    } else {
        None
    }
}

/// The segment that `accept` sends: a reset for an ACK, a SYN+ACK for a
/// SYN; nothing for an RST or a segment with none of the three.
pub open spec fn accept_reply(ip: Ipv4Info, seg: SegmentHeader) -> Option<(SegmentHeader, AddressPair, Seq<u8>)> {
    if seg.rst {
        None
    } else if seg.ack {
        Some((listen_reset(seg), reply_addresses(ip), Seq::<u8>::empty()))
    } else if seg.syn {
        let c0 = syn_received(ip, seg);
        Some((stamped(c0), c0.ip, Seq::<u8>::empty()))
    } else {
        None
    }
}

/// The connection after `on_packet` processed `seg` carrying `data`.
pub open spec fn packet_next(c: Connection, seg: SegmentHeader, data: Seq<u8>) -> Connection {
    if checks_window(c.state) && seg.window_size == 0 {
        let recv = RecvSequenceSpace { nxt: seq_add(seg.sequence_number, 1), ..c.recv };
        Connection { recv, tcp: stamped(Connection { recv, tcp: ack_template(seg, c.send), ..c }), ..c }
    } else if !seg.ack {
        c
    } else {
        let state = state_after_ack(c, seg.acknowledgment_number);
        let send = SendSequenceSpace { una: una_after_ack(c, seg.acknowledgment_number), ..c.send };
        if !takes_text(state) {
            Connection { state, send, ..c }
        } else {
            let recv = RecvSequenceSpace { nxt: seq_add(seg.sequence_number, 1), ..c.recv };
            if data.len() <= MAX_PAYLOAD_LEN {
                let tcp = stamped(Connection { state, send, recv, tcp: ack_template(seg, send), ..c });
                Connection {
                    state,
                    send: SendSequenceSpace { nxt: seq_add(send.nxt, data.len() as int), ..send },
                    recv,
                    tcp,
                    ..c
                }
            } else {
                Connection { state, send, recv, tcp: ack_template(seg, send), ..c }
            }
        }
    }
}

/// The segment that `on_packet` sends for `seg` carrying `data`.
pub open spec fn packet_reply(c: Connection, seg: SegmentHeader, data: Seq<u8>) -> Option<(SegmentHeader, AddressPair, Seq<u8>)> {
    if checks_window(c.state) && seg.window_size == 0 {
        Some((packet_next(c, seg, data).tcp, c.ip, Seq::<u8>::empty()))
    } else if !seg.ack || !takes_text(state_after_ack(c, seg.acknowledgment_number)) || data.len() > MAX_PAYLOAD_LEN {
        None
    } else {
        Some((packet_next(c, seg, data).tcp, c.ip, data))
    }
}

impl Connection {
    /// Answers a segment that arrived for a listening port with no
    /// connection: an RST is ignored; an ACK is answered by a reset; a SYN
    /// creates a connection in SYN-RECEIVED and is answered by a SYN+ACK;
    /// anything else is dropped. Returns the new connection, if any, and
    /// the segment to send, if any.
    pub fn accept(ip: &Ipv4Info, seg: &SegmentHeader) -> (r: (Option<Connection>, Option<Outbound>))
        ensures
            r.0 == accepted(*ip, *seg),
            sends(r.1, accept_reply(*ip, *seg)),
    {
        if seg.rst {
            return (None, None);
        }
        let reply = AddressPair { source: ip.destination, destination: ip.source };
        if seg.ack {
            let h = SegmentHeader {
                source_port: seg.destination_port,
                destination_port: seg.source_port,
                sequence_number: seg.acknowledgment_number,
                acknowledgment_number: 0,
                window_size: LOCAL_WINDOW,
                syn: false,
                ack: false,
                rst: true,
                fin: false,
            };
            let empty: &[u8] = &[];
            assert(empty@ =~= Seq::<u8>::empty());
            return (None, Some(Outbound::new(h, reply, empty)));
        }
        if seg.syn {
            let iss = INITIAL_SEND_SEQUENCE;
            let mut c = Connection {
                state: State::SynReceived,
                send: SendSequenceSpace { una: iss, nxt: iss, wnd: LOCAL_WINDOW, iss },
                recv: RecvSequenceSpace {
                    irs: seg.sequence_number,
                    nxt: seq_next(seg.sequence_number),
                    wnd: seg.window_size,
                },
                tcp: SegmentHeader {
                    source_port: seg.destination_port,
                    destination_port: seg.source_port,
                    sequence_number: iss,
                    acknowledgment_number: 0,
                    window_size: LOCAL_WINDOW,
                    syn: true,
                    ack: true,
                    rst: false,
                    fin: false,
                },
                ip: reply,
            };
            let empty: &[u8] = &[];
            assert(empty@ =~= Seq::<u8>::empty());
            let sent = c.write(empty);
            match sent {
                Some((o, _)) => {
                    c.send.nxt = iss + 1;
                    return (Some(c), Some(o));
                },
                None => {
                    return (None, None);
                },
            }
        }
        (None, None)
    }

    /// Stamps the header with `send.nxt` and `recv.nxt` and builds the frame
    /// carrying `data`. Returns the segment and the number of sequence
    /// numbers it takes: the payload length, plus one for SYN and one for
    /// FIN. A payload too large for one frame gives `None` and changes
    /// nothing.
    pub fn write(&mut self, data: &[u8]) -> (r: Option<(Outbound, usize)>)
        ensures
            data@.len() <= MAX_PAYLOAD_LEN <==> r is Some,
            r is None ==> *final(self) == *old(self),
            r matches Some((o, n)) ==> {
                &&& *final(self) == (Connection { tcp: stamped(*old(self)), ..*old(self) })
                &&& o.carries(stamped(*old(self)), old(self).ip, data@)
                &&& n == consumed(old(self).tcp, data@.len() as int)
            },
    {
        if data.len() > MAX_PAYLOAD_LEN {
            return None;
        }
        self.tcp.sequence_number = self.send.nxt;
        self.tcp.acknowledgment_number = self.recv.nxt;
        let o = Outbound::new(self.tcp, self.ip, data);
        let mut len: usize = data.len();
        if self.tcp.syn {
            len = len + 1;
        }
        if self.tcp.fin {
            len = len + 1;
        }
        Some((o, len))
    }
    /// Processes a segment on this connection, in the order of RFC 793,
    /// page 69. A zero window while SYN-RECEIVED or ESTABLISHED is answered
    /// by an acknowledgment, after `recv.nxt` becomes one past the segment's
    /// sequence number. A segment without ACK is dropped. Otherwise the
    /// acknowledgment may complete the handshake (SYN-RECEIVED to
    /// ESTABLISHED) and may advance `send.una`; then, in ESTABLISHED or
    /// FIN-WAIT, `recv.nxt` becomes one past the segment's sequence number
    /// and an acknowledgment carrying `data` is sent, `send.nxt` advancing
    /// by the sequence numbers it takes. Returns the segment to send, if any.
    pub fn on_packet(&mut self, seg: &SegmentHeader, data: &[u8]) -> (r: Option<Outbound>)
        ensures
            *final(self) == packet_next(*old(self), *seg, data@),
            sends(r, packet_reply(*old(self), *seg, data@)),
    {
        // first, check the sequence number
        if (self.state == State::SynReceived || self.state == State::Established) && seg.window_size == 0 {
            self.recv.nxt = seq_next(seg.sequence_number);
            self.tcp = self.ack_header(seg);
            let empty: &[u8] = &[];
            assert(empty@ =~= Seq::<u8>::empty());
            return match self.write(empty) {
                Some((o, _)) => Some(o),
                None => None,
            };
        }
        // fifth, check the ACK field
        if !seg.ack {
            return None;
        }
        if self.state == State::SynReceived {
            // SND.UNA =< SEG.ACK =< SND.NXT
            if is_between_wrapped(self.send.una.wrapping_sub(1), seg.acknowledgment_number, seq_next(self.send.nxt)) {
                self.state = State::Established;
            }
        }
        if self.state == State::Established {
            // SND.UNA < SEG.ACK =< SND.NXT
            if is_between_wrapped(self.send.una, seg.acknowledgment_number, seq_next(self.send.nxt)) {
                self.send.una = seg.acknowledgment_number;
            }
        }
        // seventh, process the segment text
        if self.state == State::Established || self.state == State::FinWait1 || self.state == State::FinWait2 {
            self.recv.nxt = seq_next(seg.sequence_number);
            self.tcp = self.ack_header(seg);
            match self.write(data) {
                Some((o, n)) => {
                    self.send.nxt = self.send.nxt.wrapping_add(n as u32);
                    Some(o)
                },
                None => None,
            }
        } else {
            None
        }
    }

    /// The header of a bare acknowledgment on the flow of `seg`.
    fn ack_header(&self, seg: &SegmentHeader) -> (r: SegmentHeader)
        ensures
            r == ack_template(*seg, self.send),
    {
        SegmentHeader {
            source_port: seg.destination_port,
            destination_port: seg.source_port,
            sequence_number: self.send.nxt,
            acknowledgment_number: 0,
            window_size: self.send.wnd,
            syn: false,
            ack: true,
            rst: false,
            fin: false,
        }
    }
}


/// A SYN with sequence number `S` (no RST, no ACK) creates a connection in
/// SYN-RECEIVED with `recv.irs == S`, `recv.nxt == S + 1` and
/// `send.nxt == iss + 1`, and exactly one SYN+ACK is sent, acknowledging
/// `S + 1`.
pub proof fn lemma_accept_syn(ip: Ipv4Info, seg: SegmentHeader)
    requires
        seg.syn,
        !seg.rst,
        !seg.ack,
    ensures
        accepted(ip, seg) matches Some(c) && {
            &&& c.state == State::SynReceived
            &&& c.recv.irs == seg.sequence_number
            &&& c.recv.nxt == seq_add(seg.sequence_number, 1)
            &&& c.send.nxt == seq_add(c.send.iss, 1)
        },
        accept_reply(ip, seg) matches Some((h, _, payload)) && {
            &&& h.syn && h.ack && !h.rst
            &&& h.sequence_number == INITIAL_SEND_SEQUENCE
            &&& h.acknowledgment_number == seq_add(seg.sequence_number, 1)
            &&& payload.len() == 0
        },
{
}

/// An RST arriving in LISTEN creates no connection and sends nothing.
pub proof fn lemma_accept_rst(ip: Ipv4Info, seg: SegmentHeader)
    requires
        seg.rst,
    ensures
        accepted(ip, seg) is None,
        accept_reply(ip, seg) is None,
{
}

/// An ACK (without RST) arriving in LISTEN creates no connection and sends
/// exactly one reset, whose sequence number is the segment's acknowledgment
/// number.
pub proof fn lemma_accept_ack(ip: Ipv4Info, seg: SegmentHeader)
    requires
        seg.ack,
        !seg.rst,
    ensures
        accepted(ip, seg) is None,
        accept_reply(ip, seg) matches Some((h, _, payload)) && {
            &&& h.rst && !h.syn && !h.ack
            &&& h.sequence_number == seg.acknowledgment_number
            &&& payload.len() == 0
        },
{
}

/// In SYN-RECEIVED, an acknowledgment of exactly `send.nxt` (with a
/// non-zero window) completes the handshake, provided fewer than 2^31 - 1
/// sequence numbers are outstanding; an acknowledgment outside
/// `(send.una - 1, send.nxt + 1)` leaves the state as it was.
pub proof fn lemma_syn_received_ack(c: Connection, seg: SegmentHeader, data: Seq<u8>)
    requires
        c.state == State::SynReceived,
    ensures
        seg.ack && seg.window_size != 0 && seg.acknowledgment_number == c.send.nxt
            && seq_diff(c.send.nxt, c.send.una) < 0x7fff_ffff
            ==> packet_next(c, seg, data).state == State::Established,
        !seq_between(seq_add(c.send.una, -1), seg.acknowledgment_number, seq_add(c.send.nxt, 1))
            ==> packet_next(c, seg, data).state == State::SynReceived,
{
}

/// In ESTABLISHED, an acknowledgment (with a non-zero window) strictly
/// after `send.una` and not after `send.nxt` becomes the new `send.una`;
/// one that is not after `send.una` leaves `send.una` as it was. Both are
/// stated in wrap-around order, and again in plain integer order for
/// windows shorter than half the sequence space.
pub proof fn lemma_established_ack(c: Connection, seg: SegmentHeader, data: Seq<u8>)
    requires
        c.state == State::Established,
    ensures
        seg.ack && seg.window_size != 0
            && seq_between(c.send.una, seg.acknowledgment_number, seq_add(c.send.nxt, 1))
            ==> packet_next(c, seg, data).send.una == seg.acknowledgment_number,
        !seq_lt(c.send.una, seg.acknowledgment_number)
            ==> packet_next(c, seg, data).send.una == c.send.una,
        seg.ack && seg.window_size != 0
            && c.send.una < seg.acknowledgment_number <= c.send.nxt
            && c.send.nxt - c.send.una < 0x7fff_ffff
            ==> packet_next(c, seg, data).send.una == seg.acknowledgment_number,
        seg.acknowledgment_number <= c.send.una && c.send.una - seg.acknowledgment_number < 0x8000_0000
            ==> packet_next(c, seg, data).send.una == c.send.una,
        packet_next(c, seg, data).state == State::Established,
{
}

/// A connection made by `accept` has `send.una` not ahead of `send.nxt`.
pub proof fn lemma_accepted_send_order(ip: Ipv4Info, seg: SegmentHeader)
    ensures
        accepted(ip, seg) matches Some(c) ==> c.send.wf(),
{
}

/// `on_packet` keeps `send.una` not ahead of `send.nxt`, as long as the
/// sequence numbers in flight, with the payload sent, stay within half the
/// sequence space.
pub proof fn lemma_on_packet_send_order(c: Connection, seg: SegmentHeader, data: Seq<u8>)
    requires
        c.send.wf(),
        seq_diff(c.send.nxt, c.send.una) + data.len() <= 0x8000_0000,
    ensures
        packet_next(c, seg, data).send.wf(),
{
    let ack = seg.acknowledgment_number;
    let una = una_after_ack(c, ack);
    if una == ack && una != c.send.una {
        lemma_between_shrinks(c.send.una, ack, c.send.nxt);
    }
    assert(seq_diff(c.send.nxt, una) <= seq_diff(c.send.nxt, c.send.una));
    lemma_advance_in_flight(c.send.nxt, una, data.len() as int);
    lemma_seq_diff_cases(c.send.nxt, c.send.una);
}

} // verus!
