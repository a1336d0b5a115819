use vstd::prelude::*;
use vstd::arithmetic::div_mod::{lemma_fundamental_div_mod, lemma_mod_multiples_vanish};
use vstd::utf8::encode_utf8;

verus! {

pub const ECHO_REQUEST4_TYPE: u8 = 8;

pub const ECHO_REQUEST4_CODE: u8 = 0;

pub const ECHO_REQUEST6_TYPE: u8 = 128;

pub const ECHO_REQUEST6_CODE: u8 = 0;

pub const ECHO_REQUEST_PORT: u8 = 0;

/// Size of the buffer a request is encoded into before it is sent.
pub const PACKET_SIZE: usize = 64;

/// Length of the echo header on the wire.
pub const HEADER_SIZE: usize = 8;

pub const DEFAULT_TTL: u32 = 64;

pub const DEFAULT_HOPS: u32 = 3;

/// Address family of an echo exchange.
#[derive(Debug, Clone, Copy, PartialEq, Eq, Structural)]
pub enum IcmpProto {
    V4,
    V6,
}

#[derive(Debug)]
pub struct EchoPacketHeader {
    pub typ: u8,
    pub code: u8,
    pub checksum: u16,
    pub id: u16,
    pub seq: u16,
}

/// An ICMP echo packet: header and payload.
#[derive(Debug)]
pub struct EchoPacket {
    pub header: EchoPacketHeader,
    pub msg: String,
}

#[derive(Debug, Clone, Copy, PartialEq, Eq, Structural)]
pub enum EncodeError {
    /// Header and payload do not fit in the destination buffer.
    PayloadTooLarge,
}

/// `v` as two big-endian bytes.
pub open spec fn be_bytes(v: u16) -> Seq<u8> {
    seq![(v / 256) as u8, (v % 256) as u8]
}

/// The 16-bit big-endian value of `b[i]`, `b[i + 1]`.
pub open spec fn be_u16_at(b: Seq<u8>, i: int) -> int {
    b[i] as int * 256 + b[i + 1] as int
}

/// The eight header bytes, with `checksum` in the checksum field.
pub open spec fn header_bytes(h: EchoPacketHeader, checksum: u16) -> Seq<u8> {
    seq![h.typ, h.code] + be_bytes(checksum) + be_bytes(h.id) + be_bytes(h.seq)
}

/// The wire form of header `h` and `payload`: the checksum field holds the
/// checksum of the whole packet taken with that field zero. The value
/// `h.checksum` plays no part.
pub open spec fn echo_bytes(h: EchoPacketHeader, payload: Seq<u8>) -> Seq<u8> {
    header_bytes(h, checksum_of(header_bytes(h, 0) + payload)) + payload
}

/// Header fields read back from the first eight bytes of `b`.
pub open spec fn decode_header(b: Seq<u8>) -> EchoPacketHeader {
    EchoPacketHeader {
        typ: b[0],
        code: b[1],
        checksum: be_u16_at(b, 2) as u16,
        id: be_u16_at(b, 4) as u16,
        seq: be_u16_at(b, 6) as u16,
    }
}

/// Outcome of encoding `h` and `payload` into a buffer holding `before`: the
/// result and the buffer's new contents.
pub open spec fn encode_outcome(h: EchoPacketHeader, payload: Seq<u8>, before: Seq<u8>) -> (
    Result<(), EncodeError>,
    Seq<u8>,
) {
    if HEADER_SIZE + payload.len() <= before.len() {
        (
            Ok(()),
            echo_bytes(h, payload) + before.subrange(
                HEADER_SIZE + payload.len(),
                before.len() as int,
            ),
        )
    } else {
        (Err(EncodeError::PayloadTooLarge), before)
    }
}

/// The sum of `b` read as big-endian 16-bit words; an odd final byte is the
/// high byte of a word whose low byte is zero.
pub open spec fn word_sum(b: Seq<u8>) -> nat
    decreases b.len(),
{
    if b.len() == 0 {
        0
    } else if b.len() == 1 {
        b[0] as nat * 256
    } else {
        (b[0] as nat * 256 + b[1] as nat) + word_sum(b.subrange(2, b.len() as int))
    }
}

/// Folds the carries out of the low 16 bits back into them until the value
/// fits in 16 bits (one's complement addition).
pub open spec fn fold_carries(s: nat) -> nat
    decreases s,
{
    if s <= 0xffff {
        s
    } else {
        fold_carries(s / 0x10000 + s % 0x10000)
    }
}

/// The Internet checksum (RFC 1071) of `b`.
pub open spec fn checksum_of(b: Seq<u8>) -> u16 {
    (0xffff - fold_carries(word_sum(b))) as u16
}

/// `fold_carries` in closed form: zero stays zero, any other sum lands in
/// `1..=0xffff` in its class modulo `0xffff`.
pub proof fn lemma_fold_carries_closed(s: nat)
    ensures
        fold_carries(s) == if s == 0 { 0 } else { ((s - 1) as nat % 0xffff) + 1 },
    decreases s,
{
    if s > 0xffff {
        let q = s / 0x10000;
        let r = s % 0x10000;
        assert(s == 0x10000 * q + r);
        assert(q >= 1);
        lemma_fold_carries_closed(q + r);
        assert((q + r) - 1 == (s - 1) - 0xffff * q);
        assert(((s - 1) - 0xffff * q) % 0xffff == (s - 1) % 0xffff) by {
            lemma_mod_multiples_vanish(-q, (s - 1) as int, 0xffff);
        }
    } else if s > 0 {
        assert((s - 1) as nat % 0xffff == s - 1);
    }
}

/// Adding `0xffff` to a non-zero sum does not change its folded value.
proof fn lemma_fold_add_ffff(a: nat)
    requires
        a > 0,
    ensures
        fold_carries(a + 0xffff) == fold_carries(a),
{
    lemma_fold_carries_closed(a);
    lemma_fold_carries_closed(a + 0xffff);
    lemma_mod_multiples_vanish(1, (a - 1) as int, 0xffff);
}

/// The checksum is zero exactly when the folded word sum is `0xffff`.
pub proof fn lemma_checksum_zero_iff(b: Seq<u8>)
    ensures
        checksum_of(b) == 0 <==> fold_carries(word_sum(b)) == 0xffff,
{
    lemma_fold_carries_closed(word_sum(b));
}

/// Adding to a folded sum the complement of that folded sum folds to `0xffff`.
proof fn lemma_fold_with_complement(s: nat)
    ensures
        fold_carries((s + (0xffff - fold_carries(s))) as nat) == 0xffff,
{
    lemma_fold_carries_closed(s);
    let t = (s + (0xffff - fold_carries(s))) as nat;
    lemma_fold_carries_closed(t);
    if s > 0 {
        let k = (s - 1) / 0xffff;
        lemma_fundamental_div_mod((s - 1) as int, 0xffff);
        assert(t - 1 == 0xffff * k + 0xfffe);
        lemma_mod_multiples_vanish(k, 0xfffe, 0xffff);
    }
}

/// Computes the Internet checksum (RFC 1071) of `buf`.
pub fn calculate_checksum(buf: &[u8]) -> (r: u16)
    ensures
        r == checksum_of(buf@),
{
    let n = buf.len();
    // One's complement running sum, carries folded in at every step.
    let mut sum: u32 = 0;
    let mut i: usize = 0;
    assert(buf@.subrange(0, n as int) =~= buf@);
    while i < n
        invariant
            n == buf@.len(),
            i <= n,
            sum <= 0xffff,
            fold_carries((sum + word_sum(buf@.subrange(i as int, n as int))) as nat)
                == fold_carries(word_sum(buf@)),
        decreases n - i,
    {
        let rest = Ghost(buf@.subrange(i as int, n as int));
        let mut word: u32 = buf[i] as u32 * 256;
        if i + 1 < n {
            word = word + buf[i + 1] as u32;
        }
        let ghost tail = if i + 1 < n { buf@.subrange(i + 2, n as int) } else { Seq::<u8>::empty() };
        assert(word_sum(rest@) == word + word_sum(tail)) by {
            if i + 1 < n {
                assert(rest@.subrange(2, rest@.len() as int) =~= tail);
            }
        }
        sum = sum + word;
        if sum > 0xffff {
            proof {
                lemma_fold_add_ffff((sum - 0xffff + word_sum(tail)) as nat);
            }
            sum = sum - 0xffff;
        }
        if i + 1 < n {
            i = i + 2;
        } else {
            i = n;
        }
        assert(buf@.subrange(i as int, n as int) =~= tail);
    }
    assert(buf@.subrange(n as int, n as int) =~= Seq::<u8>::empty());
    (0xffff - sum) as u16
}

proof fn lemma_header_bytes(h: EchoPacketHeader, c: u16)
    ensures
        header_bytes(h, c) == seq![
            h.typ,
            h.code,
            (c / 256) as u8,
            (c % 256) as u8,
            (h.id / 256) as u8,
            (h.id % 256) as u8,
            (h.seq / 256) as u8,
            (h.seq % 256) as u8,
        ],
{
    assert(header_bytes(h, c) =~= seq![
        h.typ,
        h.code,
        (c / 256) as u8,
        (c % 256) as u8,
        (h.id / 256) as u8,
        (h.id % 256) as u8,
        (h.seq / 256) as u8,
        (h.seq % 256) as u8,
    ]);
}

/// The word sum of a packet is that of the packet with a zero checksum field,
/// plus the checksum field's value.
proof fn lemma_word_sum_checksum_field(h: EchoPacketHeader, c: u16, payload: Seq<u8>)
    ensures
        word_sum(header_bytes(h, c) + payload) == word_sum(header_bytes(h, 0) + payload) + c,
{
    let a = header_bytes(h, c) + payload;
    let z = header_bytes(h, 0) + payload;
    lemma_header_bytes(h, c);
    lemma_header_bytes(h, 0);
    let a2 = a.subrange(2, a.len() as int);
    let z2 = z.subrange(2, z.len() as int);
    assert(a2.subrange(2, a2.len() as int) =~= z2.subrange(2, z2.len() as int));
    assert(word_sum(a2) == (c / 256) * 256 + c % 256 + word_sum(a2.subrange(2, a2.len() as int)));
    assert(word_sum(z2) == word_sum(z2.subrange(2, z2.len() as int)));
}

/// Reading back an encoded packet gives the type, code, identifier and
/// sequence number it was encoded from, its checksum field holds the checksum
/// of the packet taken with that field zero, the payload follows the header,
/// and the checksum of the whole encoded packet is zero.
pub proof fn lemma_encode_round_trip(h: EchoPacketHeader, payload: Seq<u8>)
    ensures
        decode_header(echo_bytes(h, payload)) == (EchoPacketHeader {
            checksum: checksum_of(header_bytes(h, 0) + payload),
            ..h
        }),
        echo_bytes(h, payload).subrange(
            HEADER_SIZE as int,
            echo_bytes(h, payload).len() as int,
        ) == payload,
        checksum_of(echo_bytes(h, payload)) == 0,
{
    let c = checksum_of(header_bytes(h, 0) + payload);
    let e = echo_bytes(h, payload);
    lemma_header_bytes(h, c);
    assert(e.subrange(HEADER_SIZE as int, e.len() as int) =~= payload);
    let s = word_sum(header_bytes(h, 0) + payload);
    lemma_fold_carries_closed(s);
    lemma_word_sum_checksum_field(h, c, payload);
    lemma_fold_with_complement(s);
    lemma_checksum_zero_iff(e);
}

/// Encoding does not read the header's checksum field: packets that agree on
/// type, code, identifier, sequence number and payload encode to the same
/// bytes.
pub proof fn lemma_encoding_ignores_checksum_field(p: EchoPacket, q: EchoPacket)
    requires
        p.header.typ == q.header.typ,
        p.header.code == q.header.code,
        p.header.id == q.header.id,
        p.header.seq == q.header.seq,
        p.payload() == q.payload(),
    ensures
        p.encoding() == q.encoding(),
{
    lemma_header_bytes(p.header, 0);
    lemma_header_bytes(q.header, 0);
    let c = checksum_of(header_bytes(p.header, 0) + p.payload());
    assert(header_bytes(p.header, 0) =~= header_bytes(q.header, 0));
    lemma_header_bytes(p.header, c);
    lemma_header_bytes(q.header, c);
    assert(header_bytes(p.header, c) =~= header_bytes(q.header, c));
}

impl EchoPacket {
    /// The payload's bytes (the UTF-8 encoding of the message).
    pub open spec fn payload(&self) -> Seq<u8> {
        encode_utf8(self.msg@)
    }

    /// The packet on the wire.
    pub open spec fn encoding(&self) -> Seq<u8> {
        echo_bytes(self.header, self.payload())
    }

    pub fn new(header: EchoPacketHeader, msg: String) -> (r: Self)
        ensures
            r.header == header,
            r.payload() == encode_utf8(msg@),
    {
        EchoPacket { header, msg }
    }

    /// Writes the packet at the front of `buf`, with its checksum; the bytes
    /// of `buf` past the packet are left as they are. Fails, writing nothing,
    /// when the packet does not fit.
    pub fn encode(&self, buf: &mut [u8]) -> (r: Result<(), EncodeError>)
        ensures
            (r, final(buf)@) == encode_outcome(self.header, self.payload(), old(buf)@),
    {
        let msg = self.msg.as_str().as_bytes();
        let n = buf.len();
        if msg.len() > n || n - msg.len() < HEADER_SIZE {
            return Err(EncodeError::PayloadTooLarge);
        }
        let end = HEADER_SIZE + msg.len();
        let ghost before = buf@;
        let h = &self.header;
        buf[0] = h.typ;
        buf[1] = h.code;
        buf[2] = 0;
        buf[3] = 0;
        buf[4] = (h.id / 256) as u8;
        buf[5] = (h.id % 256) as u8;
        buf[6] = (h.seq / 256) as u8;
        buf[7] = (h.seq % 256) as u8;
        let mut i: usize = 0;
        while i < msg.len()
            invariant
                end == HEADER_SIZE + msg@.len(),
                end <= n,
                n == buf@.len(),
                n == before.len(),
                i <= msg@.len(),
                buf@.subrange(0, HEADER_SIZE as int) == header_bytes(self.header, 0),
                buf@.subrange(HEADER_SIZE as int, HEADER_SIZE + i) == msg@.subrange(0, i as int),
                buf@.subrange(end as int, n as int) == before.subrange(end as int, n as int),
            decreases msg@.len() - i,
        {
            buf[HEADER_SIZE + i] = msg[i];
            i = i + 1;
            assert(buf@.subrange(HEADER_SIZE as int, HEADER_SIZE + i) =~= msg@.subrange(0, i as int));
        }
        let ghost unsummed = buf@.subrange(0, end as int);
        assert(msg@ == self.payload());
        assert(msg@.subrange(0, msg@.len() as int) =~= msg@);
        assert(unsummed.subrange(0, HEADER_SIZE as int) =~= buf@.subrange(0, HEADER_SIZE as int));
        assert(unsummed.subrange(HEADER_SIZE as int, end as int) =~= buf@.subrange(HEADER_SIZE as int, end as int));
        assert(unsummed =~= header_bytes(self.header, 0) + self.payload());
        let c = calculate_checksum(vstd::slice::slice_subrange(buf, 0, end));
        assert(c == checksum_of(header_bytes(self.header, 0) + self.payload()));
        let ghost mid = buf@;
        proof {
            lemma_header_bytes(self.header, 0);
            lemma_header_bytes(self.header, c);
            assert(mid[4] == mid.subrange(0, HEADER_SIZE as int)[4]);
            assert(mid[5] == mid.subrange(0, HEADER_SIZE as int)[5]);
            assert(mid[6] == mid.subrange(0, HEADER_SIZE as int)[6]);
            assert(mid[7] == mid.subrange(0, HEADER_SIZE as int)[7]);
            assert(mid[0] == mid.subrange(0, HEADER_SIZE as int)[0]);
            assert(mid[1] == mid.subrange(0, HEADER_SIZE as int)[1]);
        }
        buf[2] = (c / 256) as u8;
        buf[3] = (c % 256) as u8;
        assert(buf@.subrange(0, HEADER_SIZE as int) =~= header_bytes(self.header, c));
        assert(buf@.subrange(HEADER_SIZE as int, end as int) =~= mid.subrange(HEADER_SIZE as int, end as int));
        assert(buf@.subrange(end as int, n as int) =~= mid.subrange(end as int, n as int));
        assert(buf@ =~= echo_bytes(self.header, self.payload()) + before.subrange(end as int, n as int));
        Ok(())
    }
}

pub enum EchoRequestPacket {
    V4(Echo4RequestPacket),
    V6(Echo6RequestPacket),
}

pub struct Echo4RequestPacket {
    pub packet: EchoPacket,
}

pub struct Echo6RequestPacket {
    pub packet: EchoPacket,
}

/// The header of a fresh echo request: checksum and sequence number zero.
pub open spec fn request_header(typ: u8, code: u8, id: u16) -> EchoPacketHeader {
    EchoPacketHeader { typ, code, checksum: 0, id, seq: 0 }
}

/// `h` with its sequence number replaced by `seq`.
pub open spec fn with_seq(h: EchoPacketHeader, seq: u16) -> EchoPacketHeader {
    EchoPacketHeader { seq, ..h }
}

impl EchoRequestPacket {
    /// The echo packet inside the request.
    pub open spec fn packet(&self) -> EchoPacket {
        match self {
            EchoRequestPacket::V4(p) => p.packet,
            EchoRequestPacket::V6(p) => p.packet,
        }
    }

    /// A fresh request of family `proto` with identifier `id` carrying `msg`.
    pub fn new(proto: IcmpProto, msg: String, id: u16) -> (r: Self)
        ensures
            r is V6 <==> proto == IcmpProto::V6,
            r.packet().header == (if proto == IcmpProto::V6 {
                request_header(ECHO_REQUEST6_TYPE, ECHO_REQUEST6_CODE, id)
            } else {
                request_header(ECHO_REQUEST4_TYPE, ECHO_REQUEST4_CODE, id)
            }),
            r.packet().payload() == encode_utf8(msg@),
    {
        match proto {
            IcmpProto::V4 => EchoRequestPacket::V4(Echo4RequestPacket::new(msg, id)),
            IcmpProto::V6 => EchoRequestPacket::V6(Echo6RequestPacket::new(msg, id)),
        }
    }

    pub fn encode(&self, buf: &mut [u8]) -> (r: Result<(), EncodeError>)
        ensures
            (r, final(buf)@) == encode_outcome(
                self.packet().header,
                self.packet().payload(),
                old(buf)@,
            ),
    {
        match self {
            EchoRequestPacket::V4(packet) => packet.encode(buf),
            EchoRequestPacket::V6(packet) => packet.encode(buf),
        }
    }

    pub fn get_seq(&mut self) -> (r: u16)
        ensures
            r == old(self).packet().header.seq,
            *final(self) == *old(self),
    {
        match self {
            EchoRequestPacket::V4(packet) => packet.get_seq(),
            EchoRequestPacket::V6(packet) => packet.get_seq(),
        }
    }

    /// Replaces the sequence number; the packet must be encoded again for
    /// its checksum to follow.
    pub fn set_seq(&mut self, seq: u16)
        ensures
            *final(self) is V6 <==> *old(self) is V6,
            final(self).packet().header == with_seq(old(self).packet().header, seq),
            final(self).packet().msg == old(self).packet().msg,
    {
        match self {
            EchoRequestPacket::V4(packet) => packet.set_seq(seq),
            EchoRequestPacket::V6(packet) => packet.set_seq(seq),
        }
    }

    pub fn is_ipv6(&self) -> (r: bool)
        ensures
            r == self is V6,
    {
        matches!(self, EchoRequestPacket::V6(_))
    }
}

impl Echo4RequestPacket {
    /// A fresh IPv4 echo request with identifier `id` carrying `msg`.
    pub fn new(msg: String, id: u16) -> (r: Self)
        ensures
            r.packet.header == request_header(ECHO_REQUEST4_TYPE, ECHO_REQUEST4_CODE, id),
            r.packet.payload() == encode_utf8(msg@),
    {
        let header = EchoPacketHeader {
            typ: ECHO_REQUEST4_TYPE,
            code: ECHO_REQUEST4_CODE,
            checksum: 0,
            id,
            seq: 0,
        };
        let packet = EchoPacket::new(header, msg);
        Echo4RequestPacket { packet }
    }

    pub fn encode(&self, buf: &mut [u8]) -> (r: Result<(), EncodeError>)
        ensures
            (r, final(buf)@) == encode_outcome(
                self.packet.header,
                self.packet.payload(),
                old(buf)@,
            ),
    {
        self.packet.encode(buf)
    }

    pub fn get_seq(&mut self) -> (r: u16)
        ensures
            r == old(self).packet.header.seq,
            *final(self) == *old(self),
    {
        self.packet.header.seq
    }

    pub fn set_seq(&mut self, seq: u16)
        ensures
            final(self).packet.header == with_seq(old(self).packet.header, seq),
            final(self).packet.msg == old(self).packet.msg,
    {
        self.packet.header.seq = seq;
    }
}

impl Echo6RequestPacket {
    /// A fresh IPv6 echo request with identifier `id` carrying `msg`.
    pub fn new(msg: String, id: u16) -> (r: Self)
        ensures
            r.packet.header == request_header(ECHO_REQUEST6_TYPE, ECHO_REQUEST6_CODE, id),
            r.packet.payload() == encode_utf8(msg@),
    {
        let header = EchoPacketHeader {
            typ: ECHO_REQUEST6_TYPE,
            code: ECHO_REQUEST6_CODE,
            checksum: 0,
            id,
            seq: 0,
        };
        let packet = EchoPacket::new(header, msg);
        Echo6RequestPacket { packet }
    }

    pub fn encode(&self, buf: &mut [u8]) -> (r: Result<(), EncodeError>)
        ensures
            (r, final(buf)@) == encode_outcome(
                self.packet.header,
                self.packet.payload(),
                old(buf)@,
            ),
    {
        self.packet.encode(buf)
    }

    pub fn get_seq(&mut self) -> (r: u16)
        ensures
            r == old(self).packet.header.seq,
            *final(self) == *old(self),
    {
        self.packet.header.seq
    }

    pub fn set_seq(&mut self, seq: u16)
        ensures
            final(self).packet.header == with_seq(old(self).packet.header, seq),
            final(self).packet.msg == old(self).packet.msg,
    {
        self.packet.header.seq = seq;
    }
}

} // verus!
