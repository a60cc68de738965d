//! ICMP header codec and the Internet checksum.

use super::{PacketError, Result};
use vstd::prelude::*;

verus! {

/// Size of an ICMP header, in bytes.
pub const MINIMUM_HEADER_SIZE: usize = 8;

/// A big-endian 16-bit value from its two bytes.
pub open spec fn be16(hi: u8, lo: u8) -> u16 {
    ((hi as int) * 256 + (lo as int)) as u16
}

/// A parsed ICMP packet: a view over a buffer of at least eight bytes.
pub struct IcmpPacket<'a>(&'a [u8]);

impl<'a> View for IcmpPacket<'a> {
    type V = Seq<u8>;

    closed spec fn view(&self) -> Seq<u8> {
        self.0@
    }
}

impl<'a> IcmpPacket<'a> {
    #[verifier::type_invariant]
    spec fn holds_header(self) -> bool {
        self.0@.len() >= MINIMUM_HEADER_SIZE
    }

    /// Parses `buf` as an ICMP packet; it needs at least the eight header bytes.
    pub fn parse(buf: &'a [u8]) -> (r: Result<IcmpPacket<'a>>)
        ensures
            buf@.len() >= MINIMUM_HEADER_SIZE <==> r is Ok,
            r matches Ok(p) ==> p@ == buf@,
            r matches Err(e) ==> e is InvalidBufferSize,
    {
        if buf.len() < MINIMUM_HEADER_SIZE {
            return Err(PacketError::InvalidBufferSize);
        }
        Ok(IcmpPacket(buf))
    }

    pub fn tp(&self) -> (r: u8)
        ensures
            self@.len() >= MINIMUM_HEADER_SIZE,
            r == self@[0],
    {
        proof {
            use_type_invariant(self);
        }
        self.0[0]
    }

    pub fn code(&self) -> (r: u8)
        ensures
            self@.len() >= MINIMUM_HEADER_SIZE,
            r == self@[1],
    {
        proof {
            use_type_invariant(self);
        }
        self.0[1]
    }

    pub fn ident(&self) -> (r: u16)
        ensures
            self@.len() >= MINIMUM_HEADER_SIZE,
            r == be16(self@[4], self@[5]),
    {
        proof {
            use_type_invariant(self);
        }
        (self.0[4] as u16) * 256 + self.0[5] as u16
    }

    pub fn seq(&self) -> (r: u16)
        ensures
            self@.len() >= MINIMUM_HEADER_SIZE,
            r == be16(self@[6], self@[7]),
    {
        proof {
            use_type_invariant(self);
        }
        (self.0[6] as u16) * 256 + self.0[7] as u16
    }

    /// The bytes after the header.
    pub fn payload(&self) -> (r: &'a [u8])
        ensures
            self@.len() >= MINIMUM_HEADER_SIZE,
            r@ == self@.subrange(MINIMUM_HEADER_SIZE as int, self@.len() as int),
    {
        proof {
            use_type_invariant(self);
        }
        vstd::slice::slice_subrange(self.0, MINIMUM_HEADER_SIZE, self.0.len())
    }

    /// Whether the checksum over the whole packet comes out as zero, which is
    /// the case for an intact packet.
    pub fn is_checksum_correct(&self) -> (r: bool)
        ensures
            r == (checksum_of(self@) == 0),
    {
        checksum(self.0) == 0
    }
}

impl<'a> AsRef<[u8]> for IcmpPacket<'a> {
    fn as_ref(&self) -> &[u8] {
        self.0
    }
}

/// The ICMP message types, deprecated ones left out.
#[derive(Clone, Copy, Debug, PartialEq, Eq, Structural)]
pub enum PacketType {
    EchoReply,
    DestinationUnreachable,
    RedirectMessage,
    EchoRequest,
    RouterAdvertisement,
    RouterSolicitation,
    TimeExceeded,
    ParameterProblem,
    Timestamp,
    TimestampReply,
    ExtendedEchoRequest,
    ExtendedEchoReply,
}

impl PacketType {
    /// The type's value on the wire.
    pub open spec fn spec_value(self) -> u8 {
        match self {
            PacketType::EchoReply => 0,
            PacketType::DestinationUnreachable => 3,
            PacketType::RedirectMessage => 5,
            PacketType::EchoRequest => 8,
            PacketType::RouterAdvertisement => 9,
            PacketType::RouterSolicitation => 10,
            PacketType::TimeExceeded => 11,
            PacketType::ParameterProblem => 12,
            PacketType::Timestamp => 13,
            PacketType::TimestampReply => 14,
            PacketType::ExtendedEchoRequest => 42,
            PacketType::ExtendedEchoReply => 43,
        }
    }

    /// The type's value on the wire.
    #[verifier::when_used_as_spec(spec_value)]
    pub fn value(self) -> (r: u8)
        ensures
            r == self.spec_value(),
    {
        match self {
            PacketType::EchoReply => 0,
            PacketType::DestinationUnreachable => 3,
            PacketType::RedirectMessage => 5,
            PacketType::EchoRequest => 8,
            PacketType::RouterAdvertisement => 9,
            PacketType::RouterSolicitation => 10,
            PacketType::TimeExceeded => 11,
            PacketType::ParameterProblem => 12,
            PacketType::Timestamp => 13,
            PacketType::TimestampReply => 14,
            PacketType::ExtendedEchoRequest => 42,
            PacketType::ExtendedEchoReply => 43,
        }
    }

    /// What a message of this type says, as shown to the operator.
    pub open spec fn spec_description(self) -> &'static str {
        match self {
            PacketType::EchoReply => "echo reply",
            PacketType::DestinationUnreachable => "destination unreachable",
            PacketType::RedirectMessage => "redirect message",
            PacketType::EchoRequest => "echo request",
            PacketType::RouterAdvertisement => "router advertisement",
            PacketType::RouterSolicitation => "router solicitation",
            PacketType::TimeExceeded => "time to live exceeded",
            PacketType::ParameterProblem => "parameter problem",
            PacketType::Timestamp => "timestamp",
            PacketType::TimestampReply => "timestamp reply",
            PacketType::ExtendedEchoRequest => "extended echo request",
            PacketType::ExtendedEchoReply => "extended echo reply",
        }
    }

    /// What a message of this type says, as shown to the operator.
    #[verifier::when_used_as_spec(spec_description)]
    pub fn description(self) -> (r: &'static str)
        ensures
            r == self.spec_description(),
    {
        match self {
            PacketType::EchoReply => "echo reply",
            PacketType::DestinationUnreachable => "destination unreachable",
            PacketType::RedirectMessage => "redirect message",
            PacketType::EchoRequest => "echo request",
            PacketType::RouterAdvertisement => "router advertisement",
            PacketType::RouterSolicitation => "router solicitation",
            PacketType::TimeExceeded => "time to live exceeded",
            PacketType::ParameterProblem => "parameter problem",
            PacketType::Timestamp => "timestamp",
            PacketType::TimestampReply => "timestamp reply",
            PacketType::ExtendedEchoRequest => "extended echo request",
            PacketType::ExtendedEchoReply => "extended echo reply",
        }
    }

    /// The type whose wire value is `t`, if any.
    pub open spec fn from_value(t: u8) -> Option<PacketType> {
        match t {
            0 => Some(PacketType::EchoReply),
            3 => Some(PacketType::DestinationUnreachable),
            5 => Some(PacketType::RedirectMessage),
            8 => Some(PacketType::EchoRequest),
            9 => Some(PacketType::RouterAdvertisement),
            10 => Some(PacketType::RouterSolicitation),
            11 => Some(PacketType::TimeExceeded),
            12 => Some(PacketType::ParameterProblem),
            13 => Some(PacketType::Timestamp),
            14 => Some(PacketType::TimestampReply),
            42 => Some(PacketType::ExtendedEchoRequest),
            43 => Some(PacketType::ExtendedEchoReply),
            _ => None,
        }
    }

    /// The type whose wire value is `t`, or `None` for a value that names no
    /// known type.
    pub fn new(t: u8) -> (r: Option<PacketType>)
        ensures
            r == PacketType::from_value(t),
            r matches Some(p) ==> p.value() == t,
            r is None ==> forall|p: PacketType| p.value() != t,
    {
        match t {
            0 => Some(PacketType::EchoReply),
            3 => Some(PacketType::DestinationUnreachable),
            5 => Some(PacketType::RedirectMessage),
            8 => Some(PacketType::EchoRequest),
            9 => Some(PacketType::RouterAdvertisement),
            10 => Some(PacketType::RouterSolicitation),
            11 => Some(PacketType::TimeExceeded),
            12 => Some(PacketType::ParameterProblem),
            13 => Some(PacketType::Timestamp),
            14 => Some(PacketType::TimestampReply),
            42 => Some(PacketType::ExtendedEchoRequest),
            43 => Some(PacketType::ExtendedEchoReply),
            _ => None,
        }
    }
}

/// An ICMP packet to be written: header fields and an optional payload.
#[derive(Clone, Debug)]
pub struct IcmpBuilder {
    pub tp: u8,
    pub code: u8,
    pub seq: u16,
    pub ident: u16,
    pub payload: Option<Vec<u8>>,
}

impl IcmpBuilder {
    /// The payload bytes; empty when there is none.
    pub open spec fn payload_view(&self) -> Seq<u8> {
        match self.payload {
            Some(p) => p@,
            None => Seq::empty(),
        }
    }

    /// Number of bytes the packet takes: the header and the payload.
    pub open spec fn size(&self) -> nat {
        (MINIMUM_HEADER_SIZE + self.payload_view().len()) as nat
    }

    /// The packet's bytes with a zero checksum field.
    pub open spec fn unsigned_bytes(&self) -> Seq<u8> {
        seq![
            self.tp,
            self.code,
            0u8,
            0u8,
            (self.ident / 256) as u8,
            (self.ident % 256) as u8,
            (self.seq / 256) as u8,
            (self.seq % 256) as u8,
        ] + self.payload_view()
    }

    /// The packet's bytes as they go on the wire, signed with the checksum
    /// of the unsigned bytes.
    pub open spec fn encoded(&self) -> Seq<u8> {
        let c = checksum_of(self.unsigned_bytes());
        self.unsigned_bytes().update(2, (c / 256) as u8).update(3, (c % 256) as u8)
    }

    /// A builder with every field zero and no payload.
    pub fn new() -> (r: IcmpBuilder)
        ensures
            r.tp == 0 && r.code == 0 && r.seq == 0 && r.ident == 0,
            r.payload is None,
    {
        IcmpBuilder { tp: 0, code: 0, seq: 0, ident: 0, payload: None }
    }

    pub fn with_type(self, tp: u8) -> (r: IcmpBuilder)
        ensures
            r == (IcmpBuilder { tp, ..self }),
    {
        let mut b = self;
        b.tp = tp;
        b
    }

    pub fn with_code(self, code: u8) -> (r: IcmpBuilder)
        ensures
            r == (IcmpBuilder { code, ..self }),
    {
        let mut b = self;
        b.code = code;
        b
    }

    pub fn with_seq(self, seq: u16) -> (r: IcmpBuilder)
        ensures
            r == (IcmpBuilder { seq, ..self }),
    {
        let mut b = self;
        b.seq = seq;
        b
    }

    pub fn with_ident(self, ident: u16) -> (r: IcmpBuilder)
        ensures
            r == (IcmpBuilder { ident, ..self }),
    {
        let mut b = self;
        b.ident = ident;
        b
    }

    /// Sets the payload to a copy of `buf`.
    pub fn with_payload(self, buf: &[u8]) -> (r: IcmpBuilder)
        ensures
            r.tp == self.tp && r.code == self.code && r.seq == self.seq && r.ident == self.ident,
            r.payload matches Some(p) && p@ == buf@,
    {
        let mut b = self;
        b.payload = Some(vstd::slice::slice_to_vec(buf));
        b
    }

    fn payload_len(&self) -> (r: usize)
        ensures
            r == self.payload_view().len(),
    {
        match &self.payload {
            Some(p) => p.len(),
            None => 0,
        }
    }

    fn hint_size(&self) -> (r: usize)
        requires
            self.size() <= usize::MAX,
        ensures
            r == self.size(),
    {
        MINIMUM_HEADER_SIZE + self.payload_len()
    }

    /// Writes the packet at the start of `buf` and returns its size.
    ///
    /// Fails with `InvalidBufferSize`, leaving `buf` as it was, when `buf` is
    /// shorter than the packet. The checksum covers the written bytes only,
    /// not what follows them in `buf`.
    pub fn build(&self, buf: &mut [u8]) -> (r: Result<usize>)
        ensures
            final(buf)@.len() == old(buf)@.len(),
            old(buf)@.len() >= self.size() <==> r is Ok,
            r matches Ok(n) ==> {
                &&& n == self.size()
                &&& final(buf)@.subrange(0, n as int) == self.encoded()
                &&& final(buf)@.subrange(n as int, final(buf)@.len() as int)
                    == old(buf)@.subrange(n as int, old(buf)@.len() as int)
            },
            r matches Err(e) ==> e is InvalidBufferSize && final(buf)@ == old(buf)@,
    {
        let plen = self.payload_len();
        if buf.len() < MINIMUM_HEADER_SIZE || buf.len() - MINIMUM_HEADER_SIZE < plen {
            return Err(PacketError::InvalidBufferSize);
        }
        let size = self.hint_size();
        let ghost old_buf = buf@;
        buf[0] = self.tp;
        buf[1] = self.code;
        buf[2] = 0;
        buf[3] = 0;
        buf[4] = (self.ident / 256) as u8;
        buf[5] = (self.ident % 256) as u8;
        buf[6] = (self.seq / 256) as u8;
        buf[7] = (self.seq % 256) as u8;
        if let Some(payload) = &self.payload {
            let mut i: usize = 0;
            while i < payload.len()
                invariant
                    size == MINIMUM_HEADER_SIZE + payload@.len(),
                    size <= buf@.len(),
                    buf@.len() == old_buf.len(),
                    i <= payload@.len(),
                    buf@.subrange(0, MINIMUM_HEADER_SIZE + i) == self.unsigned_bytes().subrange(
                        0,
                        MINIMUM_HEADER_SIZE + i,
                    ),
                    buf@.subrange(size as int, buf@.len() as int) == old_buf.subrange(
                        size as int,
                        old_buf.len() as int,
                    ),
                    self.payload_view() == payload@,
                decreases payload@.len() - i,
            {
                buf[MINIMUM_HEADER_SIZE + i] = payload[i];
                i = i + 1;
                assert(buf@.subrange(0, MINIMUM_HEADER_SIZE + i) =~= self.unsigned_bytes().subrange(
                    0,
                    MINIMUM_HEADER_SIZE + i,
                ));
                assert(buf@.subrange(size as int, buf@.len() as int) =~= old_buf.subrange(
                    size as int,
                    old_buf.len() as int,
                ));
            }
        } else {
            assert(buf@.subrange(0, MINIMUM_HEADER_SIZE as int) =~= self.unsigned_bytes());
            assert(buf@.subrange(size as int, buf@.len() as int) =~= old_buf.subrange(
                size as int,
                old_buf.len() as int,
            ));
        }
        assert(buf@.subrange(0, size as int) =~= self.unsigned_bytes());
        let sum = checksum(vstd::slice::slice_subrange(buf, 0, size));
        buf[2] = (sum / 256) as u8;
        buf[3] = (sum % 256) as u8;
        assert(buf@.subrange(0, size as int) =~= self.encoded());
        assert(buf@.subrange(size as int, buf@.len() as int) =~= old_buf.subrange(
            size as int,
            old_buf.len() as int,
        ));
        Ok(size)
    }
}

/// Parsing what a builder writes gives back the builder's type, code,
/// identifier, sequence number and payload: the bytes `build` writes are
/// `encoded()`, and the accessors of the parsed packet read these positions.
pub proof fn lemma_build_parse_round_trip(q: IcmpBuilder)
    ensures
        q.encoded().len() == q.size(),
        q.encoded().len() >= MINIMUM_HEADER_SIZE,
        q.encoded()[0] == q.tp,
        q.encoded()[1] == q.code,
        be16(q.encoded()[4], q.encoded()[5]) == q.ident,
        be16(q.encoded()[6], q.encoded()[7]) == q.seq,
        q.encoded().subrange(MINIMUM_HEADER_SIZE as int, q.encoded().len() as int)
            == q.payload_view(),
{
    let e = q.encoded();
    assert(e.subrange(MINIMUM_HEADER_SIZE as int, e.len() as int) =~= q.payload_view());
}

/// A built packet passes the checksum test.
pub proof fn lemma_built_packet_checksum(q: IcmpBuilder)
    ensures
        checksum_of(q.encoded()) == 0,
{
    lemma_checksum_verifies(q.unsigned_bytes());
}

impl Default for IcmpBuilder {
    fn default() -> (r: IcmpBuilder)
        ensures
            r.tp == 0 && r.code == 0 && r.seq == 0 && r.ident == 0,
            r.payload is None,
    {
        IcmpBuilder::new()
    }
}

/// Builders for echo requests.
pub struct EchoRequest;

impl EchoRequest {
    /// An echo request with the given identifier and sequence number, code
    /// zero and no payload.
    pub fn new(ident: u16, seq: u16) -> (r: IcmpBuilder)
        ensures
            r.tp == PacketType::EchoRequest.value(),
            r.code == 0,
            r.ident == ident,
            r.seq == seq,
            r.payload is None,
    {
        IcmpBuilder::new().with_type(PacketType::EchoRequest.value()).with_code(0).with_seq(
            seq,
        ).with_ident(ident)
    }
}

/// The 16-bit word at word index `i`: two bytes big-endian, or the lone
/// trailing byte of an odd-length buffer taken as the word's value.
pub open spec fn word_at(s: Seq<u8>, i: int) -> nat {
    if 2 * i + 1 < s.len() {
        (s[2 * i] as nat) * 256 + (s[2 * i + 1] as nat)
    } else {
        s[2 * i] as nat
    }
}

/// Number of 16-bit words in a buffer of `len` bytes.
pub open spec fn word_count(len: nat) -> nat {
    (len + 1) / 2
}

/// Sum of the first `k` words in a 32-bit accumulator with wrapping addition.
pub open spec fn wrapped_sum(s: Seq<u8>, k: nat) -> nat
    decreases k,
{
    if k == 0 {
        0
    } else {
        (wrapped_sum(s, (k - 1) as nat) + word_at(s, k - 1)) % 0x1_0000_0000
    }
}

/// Sum of the first `k` words over the integers.
pub open spec fn word_sum(s: Seq<u8>, k: nat) -> nat
    decreases k,
{
    if k == 0 {
        0
    } else {
        word_sum(s, (k - 1) as nat) + word_at(s, k - 1)
    }
}

/// End-around carry: add the high half onto the low half until the value
/// fits in 16 bits.
pub open spec fn fold(x: nat) -> nat
    decreases x,
{
    if x < 0x10000 {
        x
    } else {
        fold(x % 0x10000 + x / 0x10000)
    }
}

/// The Internet checksum of `s`: the one's complement of the folded sum
/// of its words.
pub open spec fn checksum_of(s: Seq<u8>) -> u16 {
    (0xffff - fold(wrapped_sum(s, word_count(s.len())))) as u16
}

/// Folding keeps the value modulo 0xffff, lands below 0x10000, and gives zero
/// only for zero.
proof fn lemma_fold_bounds(x: nat)
    ensures
        fold(x) < 0x10000,
        fold(x) % 0xffff == x % 0xffff,
        fold(x) == 0 <==> x == 0,
    decreases x,
{
    if x >= 0x10000 {
        let y = x % 0x10000 + x / 0x10000;
        assert(y < x);
        assert(y % 0xffff == x % 0xffff) by {
            let h = x / 0x10000;
            let l = x % 0x10000;
            assert(x == h * 0x10000 + l);
            assert(h * 0x10000 == h * 0xffff + h) by (nonlinear_arith);
            assert((h * 0xffff + (h + l)) % 0xffff == (h + l) % 0xffff) by {
                vstd::arithmetic::div_mod::lemma_mod_multiples_vanish(h as int, (h + l) as int, 0xffff);
            }
        }
        assert(y > 0);
        lemma_fold_bounds(y);
    }
}

/// The wrapped sum is the plain sum reduced modulo 2^32.
proof fn lemma_wrapped_is_mod(s: Seq<u8>, k: nat)
    ensures
        wrapped_sum(s, k) == word_sum(s, k) % 0x1_0000_0000,
    decreases k,
{
    if k > 0 {
        lemma_wrapped_is_mod(s, (k - 1) as nat);
        let p = word_sum(s, (k - 1) as nat) as int;
        let w = word_at(s, k - 1) as int;
        vstd::arithmetic::div_mod::lemma_add_mod_noop(p, w, 0x1_0000_0000);
        vstd::arithmetic::div_mod::lemma_mod_twice(p, 0x1_0000_0000);
        vstd::arithmetic::div_mod::lemma_mod_twice(w, 0x1_0000_0000);
    }
}

/// Adding the complement of its folded value to a 32-bit sum never carries
/// out of 32 bits.
proof fn lemma_signed_sum_fits(x: nat)
    requires
        x < 0x1_0000_0000,
    ensures
        x + 0xffff - fold(x) < 0x1_0000_0000,
{
    if x >= 0x10000 {
        let h = x / 0x10000;
        let l = x % 0x10000;
        let y = l + h;
        assert(h < 0x10000);
        assert(x == h * 0x10000 + l);
        assert(fold(x) == fold(y));
        if y >= 0x10000 {
            assert(y % 0x10000 + y / 0x10000 == y - 0xffff);
            assert(fold((y - 0xffff) as nat) == y - 0xffff);
            assert(fold(y) == fold((y - 0xffff) as nat));
            assert(h * 0x10000 + 0x1fffe - h <= 0xffff_ffff) by (nonlinear_arith)
                requires
                    h < 0x10000,
            ;
        } else {
            assert(fold(x) == y);
            assert(h * 0x10000 + 0xffff - h < 0x1_0000_0000) by (nonlinear_arith)
                requires
                    h < 0x10000,
            ;
        }
    }
}

/// Writing `c` into the zeroed checksum field adds `c` to the word sum.
proof fn lemma_sum_with_field(s: Seq<u8>, c: u16, k: nat)
    requires
        s.len() >= 4,
        s[2] == 0,
        s[3] == 0,
        2 <= k <= word_count(s.len()),
    ensures
        word_sum(s.update(2, (c / 256) as u8).update(3, (c % 256) as u8), k) == word_sum(s, k) + c,
    decreases k,
{
    let t = s.update(2, (c / 256) as u8).update(3, (c % 256) as u8);
    assert(word_at(t, k - 1) == word_at(s, k - 1) + if k - 1 == 1 { c as int } else { 0 });
    if k > 2 {
        lemma_sum_with_field(s, c, (k - 1) as nat);
    } else {
        assert(word_at(t, 0) == word_at(s, 0));
        assert(word_sum(t, 0) == 0 && word_sum(s, 0) == 0);
        assert(word_sum(t, 1) == word_sum(s, 1));
    }
}

/// A buffer whose word sum exceeds that of `b` by exactly the checksum of
/// `b` has checksum zero.
proof fn lemma_sum_plus_checksum(b: Seq<u8>, t: Seq<u8>)
    requires
        word_sum(t, word_count(t.len())) == word_sum(b, word_count(b.len())) + checksum_of(b),
    ensures
        checksum_of(t) == 0,
{
    let c = checksum_of(b);
    let n = word_count(b.len());
    let m = word_count(t.len());
    lemma_wrapped_is_mod(b, n);
    lemma_wrapped_is_mod(t, m);
    let s = wrapped_sum(b, n);
    lemma_fold_bounds(s);
    assert(c == 0xffff - fold(s));
    let raw = word_sum(b, n) as int;
    lemma_signed_sum_fits(s);
    let total = s + c;
    assert(wrapped_sum(t, m) == total) by {
        vstd::arithmetic::div_mod::lemma_add_mod_noop(raw, c as int, 0x1_0000_0000);
        vstd::arithmetic::div_mod::lemma_small_mod(c as nat, 0x1_0000_0000);
        vstd::arithmetic::div_mod::lemma_small_mod(total as nat, 0x1_0000_0000);
    }
    lemma_fold_bounds(total as nat);
    assert(total > 0);
    assert(total % 0xffff == 0) by {
        let f = fold(s);
        assert(total == s + 0xffff - f);
        assert(f % 0xffff == s % 0xffff);
        vstd::arithmetic::div_mod::lemma_fundamental_div_mod(s as int, 0xffff);
        vstd::arithmetic::div_mod::lemma_fundamental_div_mod(f as int, 0xffff);
        let q1 = s as int / 0xffff;
        let q2 = f as int / 0xffff;
        assert(total == 0xffff * (q1 - q2 + 1));
        vstd::arithmetic::div_mod::lemma_mod_multiples_basic(q1 - q2 + 1, 0xffff);
    }
    assert(fold(total as nat) == 0xffff);
}

/// A buffer that carries its own checksum in the checksum field, at bytes 2
/// and 3, has checksum zero.
pub proof fn lemma_checksum_verifies(b: Seq<u8>)
    requires
        b.len() >= 4,
        b[2] == 0,
        b[3] == 0,
    ensures
        checksum_of(
            b.update(2, (checksum_of(b) / 256) as u8).update(3, (checksum_of(b) % 256) as u8),
        ) == 0,
{
    let c = checksum_of(b);
    let t = b.update(2, (c / 256) as u8).update(3, (c % 256) as u8);
    assert(t.len() == b.len());
    lemma_sum_with_field(b, c, word_count(b.len()));
    lemma_sum_plus_checksum(b, t);
}

/// Appending bytes to a buffer of even length leaves the sum of its words
/// unchanged.
proof fn lemma_sum_of_prefix(b: Seq<u8>, e: Seq<u8>, k: nat)
    requires
        b.len() % 2 == 0,
        k <= word_count(b.len()),
    ensures
        word_sum(b + e, k) == word_sum(b, k),
    decreases k,
{
    if k > 0 {
        lemma_sum_of_prefix(b, e, (k - 1) as nat);
        assert(word_at(b + e, k - 1) == word_at(b, k - 1));
    }
}

/// A buffer of even length followed by its own checksum, big-endian, has
/// checksum zero.
pub proof fn lemma_checksum_appended(b: Seq<u8>)
    requires
        b.len() % 2 == 0,
    ensures
        checksum_of(b + seq![(checksum_of(b) / 256) as u8, (checksum_of(b) % 256) as u8]) == 0,
{
    let c = checksum_of(b);
    let e = seq![(c / 256) as u8, (c % 256) as u8];
    let t = b + e;
    let n = word_count(b.len());
    assert(word_count(t.len()) == n + 1);
    lemma_sum_of_prefix(b, e, n);
    assert(word_at(t, n as int) == c);
    assert(word_sum(t, n + 1) == word_sum(t, n) + word_at(t, n as int));
    lemma_sum_plus_checksum(b, t);
}

/// Computes the 16-bit Internet checksum of `buf`.
///
/// Words are read big-endian and summed into a 32-bit accumulator with
/// wrapping addition; a lone trailing byte counts as a word of its own
/// value. The sum is folded to 16 bits and complemented.
pub fn checksum(buf: &[u8]) -> (r: u16)
    ensures
        r == checksum_of(buf@),
{
    let mut sum: u32 = 0;
    let mut pos: usize = 0;
    while buf.len() - pos >= 2
        invariant
            pos % 2 == 0,
            pos <= buf@.len(),
            sum == wrapped_sum(buf@, (pos / 2) as nat),
        decreases buf@.len() - pos,
    {
        let word: u16 = (buf[pos] as u16) * 256 + buf[pos + 1] as u16;
        assert(word == word_at(buf@, (pos / 2) as int));
        sum = sum.wrapping_add(word as u32);
        pos = pos + 2;
    }
    if pos < buf.len() {
        let word: u16 = buf[pos] as u16;
        assert(word == word_at(buf@, (pos / 2) as int));
        sum = sum.wrapping_add(word as u32);
        assert(word_count(buf@.len()) == pos / 2 + 1);
    } else {
        assert(word_count(buf@.len()) == pos / 2);
    }
    let ghost total = sum as nat;
    while sum > 0xffff
        invariant
            fold(sum as nat) == fold(total),
        decreases sum,
    {
        sum = (sum % 0x10000) + (sum / 0x10000);
    }
    proof {
        lemma_fold_bounds(total);
    }
    (0xffff - sum) as u16
}

} // verus!
