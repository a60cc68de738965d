//! The echo engine: the request template, the decisions taken on each send
//! and receive, and the test that tells this engine's replies from other
//! ICMP traffic on the raw socket.
//!
//! The engine does no I/O. Its caller sends what [`Ping::run`] writes, hands
//! the outcome to [`Ping::on_send`], and then hands each received datagram to
//! [`Ping::on_recv`] until a [`Step::Done`] comes back.

use crate::packet::icmp::{self, be16, IcmpBuilder, IcmpPacket, PacketType};
use crate::packet::ip::{header_len, parses_as_ipv4, Ipv4Address, IPV4Packet};
use crate::packet::PacketError;
use vstd::prelude::*;

verus! {

/// Number of payload bytes in each echo request.
pub const DATA_SIZE: usize = 32;

/// Size of each echo request on the wire.
pub const REQUEST_SIZE: usize = 40;

pub type Result<T> = core::result::Result<T, PingError>;

/// Why a probe produced no reply.
#[derive(Debug)]
pub enum PingError {
    PacketError(PacketError),
    Send(std::io::Error),
    Recv(std::io::Error),
}

impl From<PacketError> for PingError {
    fn from(e: PacketError) -> (r: PingError) {
        PingError::PacketError(e)
    }
}

impl vstd::std_specs::convert::FromSpecImpl<PacketError> for PingError {
    open spec fn obeys_from_spec() -> bool {
        true
    }

    open spec fn from_spec(e: PacketError) -> PingError {
        PingError::PacketError(e)
    }
}

/// What is known of a reply that this engine accepted.
#[derive(Debug)]
pub struct PacketInfo {
    pub ip_source_ip: Ipv4Address,
    pub ip_ttl: u8,
    pub icmp_seq: u16,
    pub icmp_type: u8,
    pub received_bytes: usize,
    /// Round-trip time in nanoseconds.
    pub time: u64,
}

/// The ICMP bytes that an IPv4 datagram carries, when the datagram parses as
/// IPv4 and its payload as ICMP.
pub open spec fn icmp_in(d: Seq<u8>) -> Option<Seq<u8>> {
    if parses_as_ipv4(d) && d.len() - header_len(d) >= icmp::MINIMUM_HEADER_SIZE {
        Some(d.subrange(header_len(d), d.len() as int))
    } else {
        None
    }
}

/// The bytes after an ICMP header.
pub open spec fn icmp_payload(r: Seq<u8>) -> Seq<u8> {
    r.subrange(icmp::MINIMUM_HEADER_SIZE as int, r.len() as int)
}

/// Whether the ICMP message `r` answers a request with identifier `ident`
/// and payload `payload`.
///
/// An echo reply is ours when it carries our payload. A time-exceeded
/// message is ours when the datagram it quotes holds an ICMP header with our
/// identifier; gateways need not quote the payload. An echo request with our
/// identifier and payload is our own request looped back, and is not ours.
/// Any other message is shown to the operator, so it counts as ours.
pub open spec fn belongs_to(ident: u16, payload: Seq<u8>, r: Seq<u8>) -> bool {
    if r[0] == PacketType::EchoReply.value() {
        icmp_payload(r) == payload
    } else if r[0] == PacketType::TimeExceeded.value() {
        match icmp_in(icmp_payload(r)) {
            Some(inner) => be16(inner[4], inner[5]) == ident,
            None => false,
        }
    } else if r[0] == PacketType::EchoRequest.value() {
        !(icmp_payload(r) == payload && be16(r[4], r[5]) == ident)
    } else {
        true
    }
}

/// The sequence number a reply stands for: that of the quoted request in a
/// time-exceeded message, that of the message itself otherwise.
pub open spec fn reply_seq(r: Seq<u8>) -> u16 {
    if r[0] == PacketType::TimeExceeded.value() {
        match icmp_in(icmp_payload(r)) {
            Some(inner) => be16(inner[6], inner[7]),
            None => be16(r[6], r[7]),
        }
    } else {
        be16(r[6], r[7])
    }
}

/// Whether `info` reports the datagram `d`, received after `rtt`
/// nanoseconds: its source address and TTL, the ICMP type, the sequence
/// number the reply stands for, and its size.
pub open spec fn describes(info: PacketInfo, d: Seq<u8>, rtt: u64) -> bool {
    &&& icmp_in(d) is Some
    &&& info.ip_source_ip.octets@ == d.subrange(12, 16)
    &&& info.ip_ttl == d[8]
    &&& info.icmp_type == icmp_in(d)->Some_0[0]
    &&& info.icmp_seq == reply_seq(icmp_in(d)->Some_0)
    &&& info.received_bytes == d.len()
    &&& info.time == rtt
}

/// The sequence number that follows `s`.
pub open spec fn next_seq(s: u16) -> u16 {
    ((s + 1) % 0x10000) as u16
}

proof fn lemma_seq_counts_probes(seqs: Seq<u16>, i: int)
    requires
        0 < seqs.len() <= 0x10000,
        seqs[0] == 0,
        forall|k: int| 0 <= k < seqs.len() - 1 ==> #[trigger] seqs[k + 1] == next_seq(seqs[k]),
        0 <= i < seqs.len(),
    ensures
        seqs[i] == i,
    decreases i,
{
    if i > 0 {
        lemma_seq_counts_probes(seqs, i - 1);
        assert(seqs[(i - 1) + 1] == next_seq(seqs[i - 1]));
    }
}

/// The sequence numbers a session emits come in order.
///
/// `seqs[i]` is the engine's sequence number after `i` probes: 0 for a new
/// engine, then each probe's `run` moves it to `next_seq`. Probe `probes[j]`
/// emitted the reply with sequence number `emitted[j]`, which echoes the
/// request of that probe; a probe emits at most one reply, and the probes
/// that emitted are listed in order. Over fewer than 65536 probes the
/// emitted numbers are then the numbers of their probes, 1 for the first,
/// strictly increasing: no number twice, none out of order, and a gap only
/// where a probe ended without a reply.
pub proof fn lemma_emitted_sequences(seqs: Seq<u16>, probes: Seq<int>, emitted: Seq<u16>)
    requires
        0 < seqs.len() <= 0x10000,
        seqs[0] == 0,
        forall|i: int| 0 <= i < seqs.len() - 1 ==> #[trigger] seqs[i + 1] == next_seq(seqs[i]),
        probes.len() == emitted.len(),
        forall|j: int| 0 <= j < probes.len() ==> 1 <= #[trigger] probes[j] < seqs.len(),
        forall|j: int, k: int| 0 <= j < k < probes.len() ==> probes[j] < probes[k],
        forall|j: int| 0 <= j < emitted.len() ==> #[trigger] emitted[j] == seqs[probes[j]],
    ensures
        forall|j: int| 0 <= j < emitted.len() ==> #[trigger] emitted[j] == probes[j],
        forall|j: int, k: int| 0 <= j < k < emitted.len() ==> emitted[j] < emitted[k],
{
    assert forall|j: int| 0 <= j < emitted.len() implies #[trigger] emitted[j] == probes[j] by {
        lemma_seq_counts_probes(seqs, probes[j]);
    }
    assert forall|j: int, k: int| 0 <= j < k < emitted.len() implies emitted[j] < emitted[k] by {
        assert(emitted[j] == probes[j]);
        assert(emitted[k] == probes[k]);
    }
}

/// Whether two byte slices hold the same bytes.
fn bytes_eq(a: &[u8], b: &[u8]) -> (r: bool)
    ensures
        r == (a@ == b@),
{
    if a.len() != b.len() {
        return false;
    }
    let mut i: usize = 0;
    while i < a.len()
        invariant
            a@.len() == b@.len(),
            i <= a@.len(),
            forall|j: int| 0 <= j < i ==> a@[j] == b@[j],
        decreases a@.len() - i,
    {
        if a[i] != b[i] {
            return false;
        }
        i = i + 1;
    }
    assert(a@ =~= b@);
    true
}

/// The ICMP packet inside an IPv4 datagram, when there is one.
fn parse_icmp_in(d: &[u8]) -> (r: Option<IcmpPacket<'_>>)
    ensures
        r is Some <==> icmp_in(d@) is Some,
        r matches Some(p) ==> icmp_in(d@) == Some(p@),
{
    match IPV4Packet::parse(d) {
        Ok(ip) => match ip.payload() {
            Some(payload) => match IcmpPacket::parse(payload) {
                Ok(p) => Some(p),
                Err(_) => None,
            },
            None => None,
        },
        Err(_) => None,
    }
}

/// Whether the received ICMP message `repl` answers the request that `req`
/// describes (see [`belongs_to`]).
pub fn own_packet(req: &IcmpBuilder, repl: &IcmpPacket) -> (r: bool)
    ensures
        r == belongs_to(req.ident, req.payload_view(), repl@),
{
    let empty: [u8; 0] = [];
    let payload: &[u8] = match &req.payload {
        Some(p) => p.as_slice(),
        None => &empty,
    };
    assert(payload@ == req.payload_view()) by {
        if req.payload is None {
            assert(payload@ =~= Seq::<u8>::empty());
        }
    }
    let tp = repl.tp();
    if tp == PacketType::EchoReply.value() {
        bytes_eq(payload, repl.payload())
    } else if tp == PacketType::TimeExceeded.value() {
        match parse_icmp_in(repl.payload()) {
            Some(inner) => inner.ident() == req.ident,
            None => false,
        }
    } else if tp == PacketType::EchoRequest.value() {
        !(bytes_eq(payload, repl.payload()) && repl.ident() == req.ident)
    } else {
        true
    }
}

/// What the caller does next within a probe.
#[derive(Debug)]
pub enum Step {
    /// Receive another datagram and hand it to [`Ping::on_recv`].
    Receive,
    /// The probe is over; this is its result.
    Done(core::result::Result<PacketInfo, PingError>),
}

/// Relies on rand::random::<u16>: a value drawn from the thread-local
/// generator; nothing is promised of which.
#[verifier::external_body]
fn random_u16() -> u16 {
    rand::random::<u16>()
}

fn uniq_ident() -> u16 {
    random_u16()
}

fn uniq_payload() -> (r: Vec<u8>)
    ensures
        r@.len() == DATA_SIZE,
{
    let mut p: Vec<u8> = Vec::new();
    while p.len() < DATA_SIZE
        invariant
            p@.len() <= DATA_SIZE,
            p@.len() % 2 == 0,
        decreases DATA_SIZE - p@.len(),
    {
        let x = random_u16();
        p.push((x / 256) as u8);
        p.push((x % 256) as u8);
    }
    p
}

/// The echo engine of one ping session.
pub struct Ping {
    req: IcmpBuilder,
}

impl Ping {
    #[verifier::type_invariant]
    spec fn is_echo_request(self) -> bool {
        &&& self.req.tp == PacketType::EchoRequest.value()
        &&& self.req.code == 0
        &&& self.req.payload is Some
        &&& self.req.payload_view().len() == DATA_SIZE
    }

    /// The request template: type, code, identifier, current sequence number
    /// and payload.
    pub closed spec fn template(self) -> IcmpBuilder {
        self.req
    }

    pub open spec fn spec_ident(self) -> u16 {
        self.template().ident
    }

    pub open spec fn spec_seq(self) -> u16 {
        self.template().seq
    }

    pub open spec fn spec_payload(self) -> Seq<u8> {
        self.template().payload_view()
    }

    /// Whether `d` is an IPv4 datagram carrying an ICMP message that belongs
    /// to this engine.
    pub open spec fn accepts(self, d: Seq<u8>) -> bool {
        icmp_in(d) matches Some(m) && belongs_to(self.spec_ident(), self.spec_payload(), m)
    }

    /// An engine whose echo requests carry identifier `ident` and payload
    /// `payload`, with sequence number 0.
    pub fn from_parts(ident: u16, payload: &[u8]) -> (r: Ping)
        requires
            payload@.len() == DATA_SIZE,
        ensures
            r.template().tp == PacketType::EchoRequest.value(),
            r.template().code == 0,
            r.template().payload is Some,
            r.spec_ident() == ident,
            r.spec_seq() == 0,
            r.spec_payload() == payload@,
    {
        let req = icmp::EchoRequest::new(ident, 0).with_payload(payload);
        Ping { req }
    }

    /// An engine with a random identifier, a random payload of `DATA_SIZE`
    /// bytes, and sequence number 0.
    pub fn new() -> (r: Ping)
        ensures
            r.template().tp == PacketType::EchoRequest.value(),
            r.template().code == 0,
            r.spec_seq() == 0,
            r.spec_payload().len() == DATA_SIZE,
    {
        let payload = uniq_payload();
        Ping::from_parts(uniq_ident(), payload.as_slice())
    }

    /// The request template.
    pub fn request(&self) -> (r: &IcmpBuilder)
        ensures
            *r == self.template(),
            r.tp == PacketType::EchoRequest.value(),
            r.code == 0,
            r.payload is Some,
            r.payload_view().len() == DATA_SIZE,
    {
        proof {
            use_type_invariant(self);
        }
        &self.req
    }

    pub fn ident(&self) -> (r: u16)
        ensures
            r == self.spec_ident(),
    {
        self.req.ident
    }

    pub fn seq(&self) -> (r: u16)
        ensures
            r == self.spec_seq(),
    {
        self.req.seq
    }

    /// Starts the next probe: advances the sequence number by one (from
    /// 65535 back to 0) and writes the echo request into `buf`, returning
    /// its size. The number is used up even when sending then fails.
    pub fn run(&mut self, buf: &mut [u8]) -> (r: usize)
        requires
            old(buf)@.len() >= REQUEST_SIZE,
        ensures
            final(self).spec_seq() == next_seq(old(self).spec_seq()),
            final(self).template() == (IcmpBuilder {
                seq: final(self).spec_seq(),
                ..old(self).template()
            }),
            r == REQUEST_SIZE,
            final(buf)@.len() == old(buf)@.len(),
            final(buf)@.subrange(0, r as int) == final(self).template().encoded(),
    {
        proof {
            use_type_invariant(&*self);
        }
        self.req.seq = if self.req.seq == 0xffff {
            0
        } else {
            self.req.seq + 1
        };
        proof {
            use_type_invariant(&*self);
        }
        match self.req.build(buf) {
            Ok(n) => n,
            Err(_) => {
                proof {
                    assert(false);
                }
                0
            },
        }
    }

    /// The reply that `datagram`, received `rtt` nanoseconds after the
    /// current request was sent, makes: `None` when it does not parse as an
    /// IPv4 datagram that carries ICMP, or does not belong to this engine.
    pub fn reply(&self, datagram: &[u8], rtt: u64) -> (r: Option<PacketInfo>)
        ensures
            r is Some <==> self.accepts(datagram@),
            r matches Some(info) ==> describes(info, datagram@, rtt),
    {
        let ip = match IPV4Packet::parse(datagram) {
            Ok(ip) => ip,
            Err(_) => return None,
        };
        let payload = match ip.payload() {
            Some(p) => p,
            None => return None,
        };
        let repl = match IcmpPacket::parse(payload) {
            Ok(p) => p,
            Err(_) => return None,
        };
        if !own_packet(&self.req, &repl) {
            return None;
        }
        let seq = if repl.tp() == PacketType::TimeExceeded.value() {
            match parse_icmp_in(repl.payload()) {
                Some(inner) => inner.seq(),
                None => repl.seq(),
            }
        } else {
            repl.seq()
        };
        Some(
            PacketInfo {
                ip_source_ip: ip.source_ip(),
                ip_ttl: ip.ttl(),
                icmp_seq: seq,
                icmp_type: repl.tp(),
                received_bytes: datagram.len(),
                time: rtt,
            },
        )
    }

    /// Decides on the outcome of sending the request: a failure ends the
    /// probe with a `Send` error and nothing is received for it; a success
    /// moves on to receiving.
    pub fn on_send(&self, sent: std::io::Result<usize>) -> (r: Step)
        ensures
            match sent {
                Ok(_) => r is Receive,
                Err(e) => r == Step::Done(Err(PingError::Send(e))),
            },
    {
        match sent {
            Ok(_) => Step::Receive,
            Err(e) => Step::Done(Err(PingError::Send(e))),
        }
    }

    /// Decides on the outcome of a receive, `rtt` nanoseconds after the send:
    /// a failure (a timeout among them) ends the probe with a `Recv` error; a
    /// datagram that makes a reply ends it with that reply; any other
    /// datagram is skipped and the caller receives again.
    pub fn on_recv(&self, received: core::result::Result<&[u8], std::io::Error>, rtt: u64) -> (r:
        Step)
        ensures
            match received {
                Err(e) => r == Step::Done(Err(PingError::Recv(e))),
                Ok(d) => if self.accepts(d@) {
                    r matches Step::Done(Ok(info)) && describes(info, d@, rtt)
                } else {
                    r is Receive
                },
            },
    {
        match received {
            Err(e) => Step::Done(Err(PingError::Recv(e))),
            Ok(d) => match self.reply(d, rtt) {
                Some(info) => Step::Done(Ok(info)),
                None => Step::Receive,
            },
        }
    }
}

/// Decides whether another probe starts: not once `stop` is set, nor when
/// the packet budget is spent. A probe that starts takes one from the budget.
pub fn take_probe(stop: bool, budget: &mut Option<usize>) -> (r: bool)
    ensures
        r == (!stop && *old(budget) != Some(0usize)),
        r && (*old(budget)) is Some ==> *final(budget) == Some(
            ((*old(budget))->Some_0 - 1) as usize,
        ),
        !r || (*old(budget)) is None ==> *final(budget) == *old(budget),
{
    if stop {
        return false;
    }
    match budget {
        Some(0) => false,
        Some(count) => {
            *count = *count - 1;
            true
        },
        None => true,
    }
}

} // verus!
