//! Network packets: parsed views over received bytes ([`icmp::IcmpPacket`],
//! [`ip::IPV4Packet`]) and builders that write outgoing packets.

use vstd::prelude::*;

pub mod icmp;
pub mod ip;

verus! {

/// Declares `std::io::Error` so that errors of the I/O layer can be carried
/// through the library unchanged.
#[verifier::external_type_specification]
#[verifier::external_body]
pub struct ExIoError(std::io::Error);

pub type Result<T> = core::result::Result<T, PacketError>;

/// Why a packet could not be parsed or built.
#[derive(Debug)]
pub enum PacketError {
    ChecksumFailed,
    InvalidHeaderSize,
    WrongFormat,
    InvalidVersion,
    InvalidBufferSize,
    IO(std::io::Error),
}

impl From<std::io::Error> for PacketError {
    fn from(err: std::io::Error) -> (r: PacketError) {
        PacketError::IO(err)
    }
}

impl vstd::std_specs::convert::FromSpecImpl<std::io::Error> for PacketError {
    open spec fn obeys_from_spec() -> bool {
        true
    }

    open spec fn from_spec(err: std::io::Error) -> PacketError {
        PacketError::IO(err)
    }
}

/// Packets that can be written into a byte buffer.
pub trait Builder {
    /// Writes the packet at the start of `buf` and returns how many bytes
    /// it took.
    fn build(&self, buf: &mut [u8]) -> (r: Result<usize>)
        ensures
            final(buf)@.len() == old(buf)@.len(),
            r matches Ok(n) ==> n <= final(buf)@.len(),
    ;
}

/// Packets read from the bytes of a buffer, without copying them.
pub trait Packet<'a> where Self: Sized {
    /// The builder that writes this kind of packet.
    type Builder: Builder;

    /// Reads the packet that `buf` holds.
    fn parse(buf: &'a [u8]) -> Result<Self>;
}

impl Builder for icmp::IcmpBuilder {
    fn build(&self, buf: &mut [u8]) -> (r: Result<usize>) {
        icmp::IcmpBuilder::build(self, buf)
    }
}

impl<'a> Builder for ip::IPV4Builder<'a> {
    fn build(&self, buf: &mut [u8]) -> (r: Result<usize>) {
        ip::IPV4Builder::build(self, buf)
    }
}

impl<'a> Packet<'a> for icmp::IcmpPacket<'a> {
    type Builder = icmp::IcmpBuilder;

    fn parse(buf: &'a [u8]) -> Result<icmp::IcmpPacket<'a>> {
        icmp::IcmpPacket::parse(buf)
    }
}

impl<'a> Packet<'a> for ip::IPV4Packet<'a> {
    type Builder = ip::IPV4Builder<'a>;

    fn parse(buf: &'a [u8]) -> Result<ip::IPV4Packet<'a>> {
        ip::IPV4Packet::parse(buf)
    }
}

/// Copies `src` into `buf` at offset `at`, leaving the other bytes as they were.
pub(crate) fn write_at(buf: &mut [u8], at: usize, src: &[u8])
    requires
        at + src@.len() <= old(buf)@.len(),
    ensures
        final(buf)@ == old(buf)@.subrange(0, at as int) + src@ + old(buf)@.subrange(
            at + src@.len(),
            old(buf)@.len() as int,
        ),
{
    let ghost before = buf@;
    let len = buf.len();
    let mut i: usize = 0;
    while i < src.len()
        invariant
            at + src@.len() <= before.len(),
            buf@.len() == before.len(),
            before.len() == len,
            i <= src@.len(),
            forall|j: int| 0 <= j < at ==> buf@[j] == before[j],
            forall|j: int| 0 <= j < i ==> buf@[at + j] == src@[j],
            forall|j: int| at + i <= j < before.len() ==> buf@[j] == before[j],
        decreases src@.len() - i,
    {
        buf[at + i] = src[i];
        i = i + 1;
    }
    assert(buf@ =~= before.subrange(0, at as int) + src@ + before.subrange(
        at + src@.len(),
        before.len() as int,
    ));
}

} // verus!
