//! IPv4 header codec.

use super::{write_at, PacketError, Result};
use vstd::prelude::*;

verus! {

/// Size of an IPv4 header without options, in bytes.
pub const MINIMUM_HEADER_SIZE: usize = 20;

/// The version an IPv4 header carries in its high nibble.
pub const IPV4_VERSION: u8 = 4;

/// An IPv4 address as its four octets, most significant first.
#[derive(Clone, Copy, Debug, PartialEq, Eq)]
pub struct Ipv4Address {
    pub octets: [u8; 4],
}

impl Ipv4Address {
    pub fn new(a: u8, b: u8, c: u8, d: u8) -> (r: Ipv4Address)
        ensures
            r.octets@ == seq![a, b, c, d],
    {
        Ipv4Address { octets: [a, b, c, d] }
    }

    pub fn octets(&self) -> (r: [u8; 4])
        ensures
            r@ == self.octets@,
    {
        self.octets
    }
}

/// The header length in bytes that the low nibble of the first byte gives.
pub open spec fn header_len(s: Seq<u8>) -> int {
    4 * (s[0] % 16)
}

/// Whether `s` holds an IPv4 header: twenty bytes at least, version 4, and
/// no shorter than its header length field says.
pub open spec fn parses_as_ipv4(s: Seq<u8>) -> bool {
    &&& s.len() >= MINIMUM_HEADER_SIZE
    &&& s[0] / 16 == IPV4_VERSION
    &&& s.len() >= header_len(s)
}

/// A parsed IPv4 packet: a view over a buffer that holds a whole header.
#[derive(Debug, PartialEq, Eq)]
pub struct IPV4Packet<'a> {
    buf: &'a [u8],
}

impl<'a> View for IPV4Packet<'a> {
    type V = Seq<u8>;

    closed spec fn view(&self) -> Seq<u8> {
        self.buf@
    }
}

impl<'a> IPV4Packet<'a> {
    #[verifier::type_invariant]
    spec fn holds_header(self) -> bool {
        parses_as_ipv4(self.buf@)
    }

    /// Parses the header at the start of `buf`.
    ///
    /// Fails with `InvalidBufferSize` on fewer than twenty bytes, then with
    /// `InvalidVersion` when the version is not 4, then with
    /// `InvalidHeaderSize` when `buf` is shorter than the header length field
    /// says.
    pub fn parse(buf: &'a [u8]) -> (r: Result<IPV4Packet<'a>>)
        ensures
            parses_as_ipv4(buf@) <==> r is Ok,
            r matches Ok(p) ==> p@ == buf@,
            r matches Err(e) ==> {
                if buf@.len() < MINIMUM_HEADER_SIZE {
                    e is InvalidBufferSize
                } else if buf@[0] / 16 != IPV4_VERSION {
                    e is InvalidVersion
                } else {
                    e is InvalidHeaderSize
                }
            },
    {
        if buf.len() < MINIMUM_HEADER_SIZE {
            return Err(PacketError::InvalidBufferSize);
        }
        let version = buf[0] / 16;
        if version != IPV4_VERSION {
            return Err(PacketError::InvalidVersion);
        }
        let size = 4 * (buf[0] % 16) as usize;
        if buf.len() < size {
            return Err(PacketError::InvalidHeaderSize);
        }
        Ok(IPV4Packet { buf })
    }

    pub fn ttl(&self) -> (r: u8)
        ensures
            parses_as_ipv4(self@),
            r == self@[8],
    {
        proof {
            use_type_invariant(self);
        }
        self.buf[8]
    }

    pub fn protocol(&self) -> (r: u8)
        ensures
            parses_as_ipv4(self@),
            r == self@[9],
    {
        proof {
            use_type_invariant(self);
        }
        self.buf[9]
    }

    pub fn source_ip(&self) -> (r: Ipv4Address)
        ensures
            parses_as_ipv4(self@),
            r.octets@ == self@.subrange(12, 16),
    {
        proof {
            use_type_invariant(self);
        }
        let r = Ipv4Address::new(self.buf[12], self.buf[13], self.buf[14], self.buf[15]);
        assert(r.octets@ =~= self@.subrange(12, 16));
        r
    }

    pub fn destination_ip(&self) -> (r: Ipv4Address)
        ensures
            parses_as_ipv4(self@),
            r.octets@ == self@.subrange(16, 20),
    {
        proof {
            use_type_invariant(self);
        }
        let r = Ipv4Address::new(self.buf[16], self.buf[17], self.buf[18], self.buf[19]);
        assert(r.octets@ =~= self@.subrange(16, 20));
        r
    }

    /// The bytes after the header, which starts at the offset that the
    /// header length field gives. Always `Some`.
    pub fn payload(&self) -> (r: Option<&'a [u8]>)
        ensures
            parses_as_ipv4(self@),
            r matches Some(x) && x@ == self@.subrange(header_len(self@), self@.len() as int),
    {
        proof {
            use_type_invariant(self);
        }
        let size = 4 * (self.buf[0] % 16) as usize;
        Some(vstd::slice::slice_subrange(self.buf, size, self.buf.len()))
    }
}

/// A buffer that starts with a whole IPv4 header, the header length field
/// giving its exact size, parses, and its payload is what follows the header.
pub proof fn lemma_payload_after_header(h: Seq<u8>, x: Seq<u8>)
    requires
        h.len() >= MINIMUM_HEADER_SIZE,
        h[0] / 16 == IPV4_VERSION,
        h.len() == header_len(h),
    ensures
        parses_as_ipv4(h + x),
        (h + x).subrange(header_len(h + x), (h + x).len() as int) == x,
{
    assert((h + x).subrange(header_len(h + x), (h + x).len() as int) =~= x);
}

/// The protocols an IPv4 packet can carry here.
#[derive(Clone, Copy, Debug, PartialEq, Eq, Structural)]
pub enum Protocol {
    ICMP,
    IP,
}

impl Protocol {
    pub open spec fn spec_value(self) -> u8 {
        match self {
            Protocol::ICMP => 1,
            Protocol::IP => 4,
        }
    }

    /// The protocol number on the wire.
    #[verifier::when_used_as_spec(spec_value)]
    pub fn value(self) -> (r: u8)
        ensures
            r == self.spec_value(),
    {
        match self {
            Protocol::ICMP => 1,
            Protocol::IP => 4,
        }
    }

    /// The protocol with number `protocol`, if it is supported.
    pub open spec fn from_value(protocol: u8) -> Option<Protocol> {
        match protocol {
            1 => Some(Protocol::ICMP),
            4 => Some(Protocol::IP),
            _ => None,
        }
    }

    /// The protocol with number `protocol`, or `None` for one not supported.
    pub fn new(protocol: u8) -> (r: Option<Protocol>)
        ensures
            r == Protocol::from_value(protocol),
            r matches Some(p) ==> p.value() == protocol,
            r is None ==> forall|p: Protocol| p.value() != protocol,
    {
        match protocol {
            1 => Some(Protocol::ICMP),
            4 => Some(Protocol::IP),
            _ => None,
        }
    }
}

/// An IPv4 packet to be written: a header without options and a payload.
pub struct IPV4Builder<'a> {
    ttl: u8,
    protocol: Protocol,
    source: Ipv4Address,
    dst: Ipv4Address,
    payload: &'a [u8],
}

impl<'a> IPV4Builder<'a> {
    pub fn new(ttl: u8, p: Protocol, source: Ipv4Address, dst: Ipv4Address, payload: &'a [u8]) -> (r:
        IPV4Builder<'a>)
        ensures
            r.spec_ttl() == ttl,
            r.spec_protocol() == p,
            r.spec_source() == source,
            r.spec_dst() == dst,
            r.spec_payload() == payload@,
    {
        IPV4Builder { ttl, protocol: p, source, dst, payload }
    }

    pub closed spec fn spec_ttl(&self) -> u8 {
        self.ttl
    }

    pub closed spec fn spec_protocol(&self) -> Protocol {
        self.protocol
    }

    pub closed spec fn spec_source(&self) -> Ipv4Address {
        self.source
    }

    pub closed spec fn spec_dst(&self) -> Ipv4Address {
        self.dst
    }

    pub closed spec fn spec_payload(&self) -> Seq<u8> {
        self.payload@
    }

    /// Total size of the packet: header and payload.
    pub open spec fn size(&self) -> int {
        MINIMUM_HEADER_SIZE + self.spec_payload().len()
    }

    /// The header: version 4, header length 5 words, the total length
    /// big-endian, the TTL, the protocol and the two addresses; all other
    /// fields zero.
    pub open spec fn header(&self) -> Seq<u8> {
        seq![
            0x45u8,
            0u8,
            (self.size() / 256) as u8,
            (self.size() % 256) as u8,
            0u8,
            0u8,
            0u8,
            0u8,
            self.spec_ttl(),
            self.spec_protocol().value(),
            0u8,
            0u8,
        ] + self.spec_source().octets@ + self.spec_dst().octets@
    }

    /// The packet's bytes: the header, then the payload.
    pub open spec fn encoded(&self) -> Seq<u8> {
        self.header() + self.spec_payload()
    }

    /// Writes the packet at the start of `buf` and returns its size.
    ///
    /// Fails with `InvalidBufferSize` when `buf` is too short for the packet,
    /// and otherwise with `WrongFormat` when the packet would exceed the 65535
    /// bytes that the total length field can hold; `buf` is then left as it
    /// was.
    pub fn build(&self, buf: &mut [u8]) -> (r: Result<usize>)
        ensures
            final(buf)@.len() == old(buf)@.len(),
            r is Ok <==> self.size() <= 0xffff && self.size() <= old(buf)@.len(),
            r matches Ok(n) ==> {
                &&& n == self.size()
                &&& final(buf)@.subrange(0, n as int) == self.encoded()
                &&& final(buf)@.subrange(n as int, final(buf)@.len() as int)
                    == old(buf)@.subrange(n as int, old(buf)@.len() as int)
            },
            r matches Err(e) ==> final(buf)@ == old(buf)@ && if old(buf)@.len() < self.size() {
                e is InvalidBufferSize
            } else {
                e is WrongFormat
            },
    {
        if buf.len() < MINIMUM_HEADER_SIZE || buf.len() - MINIMUM_HEADER_SIZE < self.payload.len() {
            return Err(PacketError::InvalidBufferSize);
        }
        if self.payload.len() > 0xffff - MINIMUM_HEADER_SIZE {
            return Err(PacketError::WrongFormat);
        }
        let size = MINIMUM_HEADER_SIZE + self.payload.len();
        let src = self.source.octets();
        let dst = self.dst.octets();
        let header: [u8; 20] = [
            IPV4_VERSION * 16 + 5,
            0,
            (size / 256) as u8,
            (size % 256) as u8,
            0,
            0,
            0,
            0,
            self.ttl,
            self.protocol.value(),
            0,
            0,
            src[0],
            src[1],
            src[2],
            src[3],
            dst[0],
            dst[1],
            dst[2],
            dst[3],
        ];
        assert(header@ =~= self.header());
        let ghost old_buf = buf@;
        write_at(buf, 0, &header);
        write_at(buf, MINIMUM_HEADER_SIZE, self.payload);
        assert(buf@.subrange(0, size as int) =~= self.encoded());
        assert(buf@.subrange(size as int, buf@.len() as int) =~= old_buf.subrange(
            size as int,
            old_buf.len() as int,
        ));
        Ok(size)
    }
}

/// A built packet parses, and its payload is the builder's payload.
pub proof fn lemma_built_payload(b: IPV4Builder)
    requires
        b.size() <= 0xffff,
    ensures
        parses_as_ipv4(b.encoded()),
        b.encoded().subrange(header_len(b.encoded()), b.encoded().len() as int)
            == b.spec_payload(),
{
    assert(b.header().len() == 20);
    lemma_payload_after_header(b.header(), b.spec_payload());
}

} // verus!
