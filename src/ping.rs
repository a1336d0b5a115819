pub mod errors;

use crate::net::icmp::{
    echo_bytes, request_header, with_seq, EchoPacketHeader, EchoRequestPacket, IcmpProto, ECHO_REQUEST4_CODE,
    ECHO_REQUEST4_TYPE, ECHO_REQUEST6_CODE, ECHO_REQUEST6_TYPE, HEADER_SIZE, PACKET_SIZE,
};
use crate::ping::errors::{PingErrors, PingRecvErrs, PingSendError};
use vstd::prelude::*;
use vstd::utf8::encode_utf8;

verus! {

/// What one successful send reports.
#[derive(Debug)]
pub struct PingSendResult {
    pub payload_bytes: u64,
    /// The sequence number the request carried.
    pub seq: u16,
    /// The hop-limit knob of the family, with the value applied.
    pub ttl: TimeoutOption,
}

/// What one receive reports; zero bytes means that no reply came in time.
#[derive(Debug)]
pub struct PingRecvResult {
    pub reply_bytes: u64,
}

impl PingSendResult {
    /// Whether this was the first request of its session, which the loop
    /// announces before any report.
    pub fn is_first(&self) -> (r: bool)
        ensures
            r == (self.seq == 1),
    {
        self.seq == 1
    }
}

impl PingRecvResult {
    /// Whether a reply came in; without one no round trip is reported.
    pub fn has_reply(&self) -> (r: bool)
        ensures
            r == (self.reply_bytes > 0),
    {
        self.reply_bytes > 0
    }
}

/// The hop limit of outgoing requests: a TTL for IPv4, a unicast hop count
/// for IPv6.
#[derive(Debug, Clone, Copy, PartialEq, Eq, Structural)]
pub enum TimeoutOption {
    TTL(u32),
    HOPS(u32),
}

impl TimeoutOption {
    pub open spec fn spec_value(self) -> u32 {
        match self {
            TimeoutOption::TTL(v) => v,
            TimeoutOption::HOPS(v) => v,
        }
    }

    pub fn value(&self) -> (r: u32)
        ensures
            r == self.spec_value(),
    {
        match *self {
            TimeoutOption::TTL(v) => v,
            TimeoutOption::HOPS(v) => v,
        }
    }
}

/// What the transport reported for one attempt to send a request.
pub enum SendStatus {
    /// The request went out; the number of bytes sent.
    Sent(usize),
    /// There was no socket to send on.
    NoSocket,
    /// The platform refused to make the raw socket; the cause as text.
    SocketRefused(String),
    /// The send itself failed.
    Failed { target: String, cause: String },
}

/// What the transport reported for one receive.
pub enum RecvStatus {
    /// A reply of this many bytes came in.
    Received(usize),
    /// The read timeout elapsed.
    TimedOut,
    /// The socket had nothing to read.
    WouldBlock,
    /// The wait was interrupted.
    Interrupted,
    /// There was no socket to receive on.
    NoSocket,
    /// Any other failure, as text.
    Failed(String),
}

/// The state of a ping session as a value.
pub struct PingerView {
    pub seq: u16,
    pub id: u16,
    pub timeout: TimeoutOption,
    pub socket_timeout: u32,
}

/// One ping session towards one target: the sequence number of the next
/// request, the identifier of its requests and the socket settings.
pub struct Pinger {
    socket_timeout: u32,
    timeout: TimeoutOption,
    seq: u16,
    id: u16,
}

/// The sequence number after `seq`; it wraps, as the 16-bit wire field does.
pub open spec fn next_seq(seq: u16) -> u16 {
    if seq == u16::MAX {
        0
    } else {
        (seq + 1) as u16
    }
}

/// The hop-limit setting reported for family `proto`.
pub open spec fn ttl_for(proto: IcmpProto, timeout: TimeoutOption) -> TimeoutOption {
    if proto == IcmpProto::V6 {
        TimeoutOption::HOPS(timeout.spec_value())
    } else {
        TimeoutOption::TTL(timeout.spec_value())
    }
}

/// The header of the request of family `proto` sent by session `s`.
pub open spec fn request_header_for(s: PingerView, proto: IcmpProto) -> EchoPacketHeader {
    with_seq(
        if proto == IcmpProto::V6 {
            request_header(ECHO_REQUEST6_TYPE, ECHO_REQUEST6_CODE, s.id)
        } else {
            request_header(ECHO_REQUEST4_TYPE, ECHO_REQUEST4_CODE, s.id)
        },
        s.seq,
    )
}

/// A successful send takes session `pre` to `post` and reports `reported`.
pub open spec fn send_step(pre: PingerView, post: PingerView, reported: u16) -> bool {
    &&& reported == pre.seq
    &&& post == (PingerView { seq: next_seq(pre.seq), ..pre })
}

/// The sequence numbers reported along a run of a session, in order: each
/// step is a successful send (`Some` of the number it reported) or anything
/// that leaves the session as it is (`None`: a receive, a failed send).
pub open spec fn reported_seqs(steps: Seq<Option<u16>>) -> Seq<u16>
    decreases steps.len(),
{
    if steps.len() == 0 {
        Seq::empty()
    } else {
        let before = reported_seqs(steps.drop_last());
        match steps.last() {
            Some(s) => before.push(s),
            None => before,
        }
    }
}

/// `states` is a run of a session along `steps`.
pub open spec fn is_run(states: Seq<PingerView>, steps: Seq<Option<u16>>) -> bool {
    &&& states.len() == steps.len() + 1
    &&& forall|i: int|
        0 <= i < steps.len() ==> match #[trigger] steps[i] {
            Some(s) => send_step(states[i], states[i + 1], s),
            None => states[i + 1] == states[i],
        }
}

/// Along any run of a fresh session, whatever receives or failed sends come
/// between, the successful sends report the sequence numbers 1, 2, ..., n,
/// as long as n stays within the 16-bit range.
///
/// The calls of a session make such a run: `Pinger::new` starts at sequence
/// number 1, each `record_send` of a sent request is a `send_step` reporting
/// the sequence number it returns, while `record_recv` (which takes `&self`),
/// `prepare_send` and every failed `record_send` leave the session's view as
/// it was.
pub proof fn lemma_send_sequence(states: Seq<PingerView>, steps: Seq<Option<u16>>)
    requires
        is_run(states, steps),
        states[0].seq == 1,
        reported_seqs(steps).len() <= u16::MAX,
    ensures
        forall|k: int|
            0 <= k < reported_seqs(steps).len() ==> #[trigger] reported_seqs(steps)[k] == k + 1,
{
    lemma_run_seq(states, steps);
}

/// The next sequence number of a run of a fresh session counts its
/// successful sends, and those reported 1, 2, ... in order.
proof fn lemma_run_seq(states: Seq<PingerView>, steps: Seq<Option<u16>>)
    requires
        is_run(states, steps),
        states[0].seq == 1,
        reported_seqs(steps).len() <= u16::MAX,
    ensures
        states.last().seq == (reported_seqs(steps).len() + 1) % 0x10000,
        forall|k: int|
            0 <= k < reported_seqs(steps).len() ==> #[trigger] reported_seqs(steps)[k] == k + 1,
    decreases steps.len(),
{
    if steps.len() > 0 {
        let n = steps.len() - 1;
        let init = steps.drop_last();
        let prefix = states.drop_last();
        assert forall|i: int| 0 <= i < init.len() implies match #[trigger] init[i] {
            Some(s) => send_step(prefix[i], prefix[i + 1], s),
            None => prefix[i + 1] == prefix[i],
        } by {
            assert(init[i] == steps[i]);
        }
        let before = reported_seqs(init);
        assert(before.len() <= reported_seqs(steps).len());
        lemma_run_seq(prefix, init);
        assert(steps[n] == steps.last());
        match steps.last() {
            Some(s) => {
                assert(send_step(states[n], states[n + 1], s));
                assert(reported_seqs(steps) == before.push(s));
            },
            None => {
                assert(states[n + 1] == states[n]);
            },
        }
    }
}

impl View for Pinger {
    type V = PingerView;

    closed spec fn view(&self) -> PingerView {
        PingerView {
            seq: self.seq,
            id: self.id,
            timeout: self.timeout,
            socket_timeout: self.socket_timeout,
        }
    }
}

impl Pinger {
    /// A fresh session: its first request carries sequence number 1 and
    /// every request carries identifier `id`.
    pub fn new(timeout: TimeoutOption, socket_timeout: u32, id: u16) -> (r: Self)
        ensures
            r@ == (PingerView { seq: 1, id, timeout, socket_timeout }),
    {
        let seq: u16 = 1;
        Self { socket_timeout, timeout, seq, id }
    }

    /// The read timeout of the socket, in seconds.
    pub fn socket_timeout(&self) -> (r: u32)
        ensures
            r == self@.socket_timeout,
    {
        self.socket_timeout
    }

    /// The hop limit to set on the socket (TTL or unicast hops).
    pub fn hop_limit(&self) -> (r: u32)
        ensures
            r == self@.timeout.spec_value(),
    {
        self.timeout.value()
    }

    /// Builds the request of family `proto` carrying `payload` for the
    /// current sequence number, encoded: the header followed by the payload,
    /// nothing more. Fails when header and payload exceed `PACKET_SIZE`.
    pub fn prepare_send(&self, proto: IcmpProto, target: &str, payload: &str) -> (r: Result<
        Vec<u8>,
        PingSendError,
    >)
        ensures
            r is Ok <==> HEADER_SIZE + encode_utf8(payload@).len() <= PACKET_SIZE,
            r matches Ok(bytes) ==> bytes@ == echo_bytes(
                request_header_for(self@, proto),
                encode_utf8(payload@),
            ),
            r matches Err(e) ==> e.target@ == target@ && e.err is PayloadTooLarge,
    {
        let n = payload.len();
        if n > PACKET_SIZE - HEADER_SIZE {
            return Err(PingSendError { target: target.to_owned(), err: PingErrors::PayloadTooLarge });
        }
        let mut packet = EchoRequestPacket::new(proto, payload.to_owned(), self.id);
        packet.set_seq(self.seq);
        let mut buf: Vec<u8> = vec![0u8; HEADER_SIZE + n];
        match packet.encode(buf.as_mut_slice()) {
            Ok(()) => {
                assert(buf@ =~= echo_bytes(request_header_for(self@, proto), encode_utf8(payload@)));
                Ok(buf)
            },
            Err(_) => Err(PingSendError { target: target.to_owned(), err: PingErrors::PayloadTooLarge }),
        }
    }

    /// Takes account of the transport's answer to the send of the request
    /// built by `prepare_send`. On success the sequence number reported is the
    /// one that request carried, and the next request carries the one after
    /// it; a failed send leaves the session as it was.
    pub fn record_send(&mut self, proto: IcmpProto, target: &str, status: SendStatus) -> (r: Result<
        PingSendResult,
        PingSendError,
    >)
        ensures
            match status {
                SendStatus::Sent(n) => {
                    &&& r matches Ok(res) && res.payload_bytes == n && send_step(
                        old(self)@,
                        final(self)@,
                        res.seq,
                    ) && res.ttl == ttl_for(proto, old(self)@.timeout)
                },
                SendStatus::NoSocket => {
                    &&& final(self)@ == old(self)@
                    &&& r matches Err(e) && e.target@ == target@ && e.err is LookupErr
                },
                SendStatus::SocketRefused(cause) => {
                    &&& final(self)@ == old(self)@
                    &&& r matches Err(e) && e.target@ == target@ && e.err
                        == PingErrors::SocketErr(cause)
                },
                SendStatus::Failed { target: t, cause } => {
                    &&& final(self)@ == old(self)@
                    &&& r matches Err(e) && e.target == t && e.err == PingErrors::PingErr(cause)
                },
            },
    {
        match status {
            SendStatus::Sent(n) => {
                let ttl = match proto {
                    IcmpProto::V6 => TimeoutOption::HOPS(self.timeout.value()),
                    IcmpProto::V4 => TimeoutOption::TTL(self.timeout.value()),
                };
                let seq = self.seq;
                self.seq = self.seq.wrapping_add(1);
                Ok(PingSendResult { payload_bytes: n as u64, seq, ttl })
            },
            SendStatus::NoSocket => Err(
                PingSendError { target: target.to_owned(), err: PingErrors::LookupErr },
            ),
            SendStatus::SocketRefused(cause) => Err(
                PingSendError { target: target.to_owned(), err: PingErrors::SocketErr(cause) },
            ),
            SendStatus::Failed { target, cause } => Err(
                PingSendError { target, err: PingErrors::PingErr(cause) },
            ),
        }
    }

    /// Takes account of the transport's answer to a receive: a timeout (or a
    /// wait that would block or was interrupted) is no error but a reply of
    /// zero bytes; any other failure is an error.
    pub fn record_recv(&self, status: RecvStatus) -> (r: Result<PingRecvResult, PingRecvErrs>)
        ensures
            match status {
                RecvStatus::Received(n) => r matches Ok(res) && res.reply_bytes == n,
                RecvStatus::TimedOut | RecvStatus::WouldBlock | RecvStatus::Interrupted => {
                    r matches Ok(res) && res.reply_bytes == 0
                },
                RecvStatus::NoSocket => r matches Err(PingRecvErrs::RecvErr(c)) && c@.len() == 0,
                RecvStatus::Failed(cause) => r matches Err(PingRecvErrs::RecvErr(c)) && c == cause,
            },
    {
        match status {
            RecvStatus::Received(n) => Ok(PingRecvResult { reply_bytes: n as u64 }),
            RecvStatus::TimedOut => Ok(PingRecvResult { reply_bytes: 0 }),
            RecvStatus::WouldBlock => Ok(PingRecvResult { reply_bytes: 0 }),
            RecvStatus::Interrupted => Ok(PingRecvResult { reply_bytes: 0 }),
            RecvStatus::NoSocket => Err(PingRecvErrs::RecvErr(String::new())),
            RecvStatus::Failed(cause) => Err(PingRecvErrs::RecvErr(cause)),
        }
    }
}

} // verus!
