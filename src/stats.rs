//! Statistics over the results of a ping session: counters and round-trip
//! times.

use crate::packet::icmp::PacketType;
use crate::packet::ip::Ipv4Address;
use crate::ping::{PacketInfo, PingError, DATA_SIZE};
use vstd::prelude::*;

verus! {

/// The sum of a sequence of round-trip times.
pub open spec fn total(s: Seq<u64>) -> int
    decreases s.len(),
{
    if s.len() == 0 {
        0
    } else {
        total(s.drop_last()) + s.last()
    }
}

proof fn lemma_total_bound(s: Seq<u64>)
    ensures
        0 <= total(s) <= s.len() * (u64::MAX as int),
    decreases s.len(),
{
    if s.len() > 0 {
        lemma_total_bound(s.drop_last());
    }
}

/// What a session has seen so far: probes transmitted, echo replies
/// received, and the round-trip time of each reply.
pub struct Statistics {
    addr: Ipv4Address,
    resource_name: String,
    transmitted: usize,
    received: usize,
    rtt: Vec<u64>,
}

impl Statistics {
    /// Every received reply has a sample, and every sample a transmitted probe.
    pub open spec fn counts_agree(self) -> bool {
        self.spec_received() <= self.spec_samples().len() <= self.spec_transmitted()
    }

    pub closed spec fn spec_transmitted(self) -> nat {
        self.transmitted as nat
    }

    pub closed spec fn spec_received(self) -> nat {
        self.received as nat
    }

    pub closed spec fn spec_samples(self) -> Seq<u64> {
        self.rtt@
    }

    pub closed spec fn spec_addr(self) -> Ipv4Address {
        self.addr
    }

    pub closed spec fn spec_resource_name(self) -> Seq<char> {
        self.resource_name@
    }

    /// Statistics for a session that pings `addr`, named `resource` by the
    /// user, with nothing seen yet.
    pub fn new(resource: String, addr: Ipv4Address) -> (r: Statistics)
        ensures
            r.counts_agree(),
            r.spec_transmitted() == 0,
            r.spec_received() == 0,
            r.spec_samples() == Seq::<u64>::empty(),
            r.spec_addr() == addr,
            r.spec_resource_name() == resource@,
    {
        Statistics {
            addr,
            resource_name: resource,
            transmitted: 0,
            received: 0,
            rtt: Vec::new(),
        }
    }

    /// Takes in the result of one probe. Every result counts as transmitted;
    /// a reply adds its round-trip time to the samples, and counts as
    /// received when it is an echo reply; an error adds nothing else.
    pub fn record(&mut self, result: &core::result::Result<PacketInfo, PingError>)
        requires
            old(self).counts_agree(),
            old(self).spec_transmitted() < usize::MAX,
        ensures
            final(self).counts_agree(),
            final(self).spec_transmitted() == old(self).spec_transmitted() + 1,
            final(self).spec_addr() == old(self).spec_addr(),
            final(self).spec_resource_name() == old(self).spec_resource_name(),
            match result {
                Ok(info) => {
                    &&& final(self).spec_samples() == old(self).spec_samples().push(info.time)
                    &&& final(self).spec_received() == old(self).spec_received() + if info.icmp_type
                        == PacketType::EchoReply.value() {
                        1int
                    } else {
                        0int
                    }
                },
                Err(_) => {
                    &&& final(self).spec_samples() == old(self).spec_samples()
                    &&& final(self).spec_received() == old(self).spec_received()
                },
            },
    {
        self.transmitted = self.transmitted + 1;
        if let Ok(info) = result {
            self.rtt.push(info.time);
            if info.icmp_type == PacketType::EchoReply.value() {
                self.received = self.received + 1;
            }
        }

    }

    pub fn transmitted(&self) -> (r: usize)
        ensures
            r == self.spec_transmitted(),
    {
        self.transmitted
    }

    pub fn received(&self) -> (r: usize)
        ensures
            r == self.spec_received(),
    {
        self.received
    }

    /// The round-trip times seen, in the order the replies came.
    pub fn samples(&self) -> (r: &[u64])
        ensures
            r@ == self.spec_samples(),
    {
        self.rtt.as_slice()
    }

    pub fn addr(&self) -> (r: Ipv4Address)
        ensures
            r == self.spec_addr(),
    {
        self.addr
    }

    pub fn resource_name(&self) -> (r: &str)
        ensures
            r@ == self.spec_resource_name(),
    {
        self.resource_name.as_str()
    }

    /// Number of payload bytes in each request.
    pub fn data_size(&self) -> (r: usize)
        ensures
            r == DATA_SIZE,
    {
        DATA_SIZE
    }

    /// The shortest round-trip time seen.
    pub fn rtt_min(&self) -> (r: u64)
        requires
            self.spec_samples().len() > 0,
        ensures
            self.spec_samples().contains(r),
            forall|i: int| 0 <= i < self.spec_samples().len() ==> r <= self.spec_samples()[i],
    {
        let mut best = self.rtt[0];
        let ghost mut at: int = 0;
        let mut i: usize = 1;
        while i < self.rtt.len()
            invariant
                1 <= i <= self.rtt@.len(),
                0 <= at < i,
                self.rtt@[at] == best,
                forall|j: int| 0 <= j < i ==> best <= self.rtt@[j],
            decreases self.rtt@.len() - i,
        {
            if self.rtt[i] < best {
                best = self.rtt[i];
                proof {
                    at = i as int;
                }
            }
            i = i + 1;
        }
        assert(self.rtt@[at] == best);
        best
    }

    /// The longest round-trip time seen.
    pub fn rtt_max(&self) -> (r: u64)
        requires
            self.spec_samples().len() > 0,
        ensures
            self.spec_samples().contains(r),
            forall|i: int| 0 <= i < self.spec_samples().len() ==> self.spec_samples()[i] <= r,
    {
        let mut best = self.rtt[0];
        let ghost mut at: int = 0;
        let mut i: usize = 1;
        while i < self.rtt.len()
            invariant
                1 <= i <= self.rtt@.len(),
                0 <= at < i,
                self.rtt@[at] == best,
                forall|j: int| 0 <= j < i ==> self.rtt@[j] <= best,
            decreases self.rtt@.len() - i,
        {
            if self.rtt[i] > best {
                best = self.rtt[i];
                proof {
                    at = i as int;
                }
            }
            i = i + 1;
        }
        assert(self.rtt@[at] == best);
        best
    }

    /// The mean round-trip time, rounded down.
    pub fn rtt_avg(&self) -> (r: u64)
        requires
            self.spec_samples().len() > 0,
        ensures
            r == total(self.spec_samples()) / (self.spec_samples().len() as int),
    {
        let n = self.rtt.len();
        let mut sum: u128 = 0;
        let mut i: usize = 0;
        while i < n
            invariant
                n == self.rtt@.len(),
                i <= n,
                sum == total(self.rtt@.subrange(0, i as int)),
            decreases n - i,
        {
            proof {
                let s = self.rtt@.subrange(0, i as int);
                lemma_total_bound(s);
                assert(sum <= i * (u64::MAX as int));
                assert(i * (u64::MAX as int) + u64::MAX as int <= (usize::MAX as int) * (u64::MAX as int)
                    + u64::MAX as int) by (nonlinear_arith)
                    requires
                        i < usize::MAX,
                ;
                assert((usize::MAX as int) * (u64::MAX as int) + u64::MAX as int <= u128::MAX)
                    by (nonlinear_arith)
                    requires
                        usize::MAX <= u64::MAX,
                ;
                assert(self.rtt@.subrange(0, i + 1).drop_last() =~= s);
            }
            sum = sum + self.rtt[i] as u128;
            i = i + 1;
        }
        assert(self.rtt@.subrange(0, n as int) =~= self.rtt@);
        proof {
            lemma_total_bound(self.rtt@);
            assert((sum as int) / (n as int) <= u64::MAX) by (nonlinear_arith)
                requires
                    sum <= n * (u64::MAX as int),
                    n > 0,
            ;
        }
        (sum / n as u128) as u64
    }
}

} // verus!
