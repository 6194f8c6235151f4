//! The statistics of a ping session: how many packets went out and came
//! back, and the least, greatest and total round-trip time.

use crate::text::{millis_text, push_millis};
use crate::time::{duration_from_nanos, duration_nanos, nanos_of, MAX_DURATION_NANOS};
use std::time::Duration;
use vstd::prelude::*;
use vstd::string::StringExecFns;

verus! {

/// What a `PingStats` stands for. Times are in nanoseconds.
pub struct StatsView {
    /// Packets sent.
    pub sent: nat,
    /// Replies received.
    pub received: nat,
    /// Least round-trip time recorded, if any was.
    pub min_rtt: Option<nat>,
    /// Greatest round-trip time recorded, if any was.
    pub max_rtt: Option<nat>,
    /// Sum of the round-trip times recorded.
    pub total_rtt: nat,
}

impl StatsView {
    /// The statistics of a session in which nothing has happened yet.
    pub open spec fn empty() -> StatsView {
        StatsView { sent: 0, received: 0, min_rtt: None, max_rtt: None, total_rtt: 0 }
    }

    /// The statistics after one more packet was sent.
    pub open spec fn with_sent(self) -> StatsView {
        StatsView { sent: self.sent + 1, ..self }
    }

    /// The statistics after the round-trip time `rtt` was recorded.
    pub open spec fn with_rtt(self, rtt: nat) -> StatsView {
        StatsView {
            min_rtt: Some(
                match self.min_rtt {
                    Some(least) if least <= rtt => least,
                    _ => rtt,
                },
            ),
            max_rtt: Some(
                match self.max_rtt {
                    Some(greatest) if greatest >= rtt => greatest,
                    _ => rtt,
                },
            ),
            total_rtt: self.total_rtt + rtt,
            ..self
        }
    }

    /// The statistics after one more reply came, `rtt` after its request.
    pub open spec fn with_received(self, rtt: nat) -> StatsView {
        StatsView { received: self.received + 1, ..self.with_rtt(rtt) }
    }

    /// The mean round-trip time: the total divided by the number of replies,
    /// rounded down; none while no reply has come.
    pub open spec fn average(self) -> Option<nat> {
        if self.received > 0 {
            Some(self.total_rtt / self.received)
        } else {
            None
        }
    }

    /// What holds of the statistics of every session: the counters fit in
    /// 32 bits, the least and the greatest round-trip time are there
    /// together, the least is not above the greatest, neither is above the
    /// total, and the total is not longer than a `Duration` can be.
    pub open spec fn consistent(self) -> bool {
        &&& self.sent <= u32::MAX
        &&& self.received <= u32::MAX
        &&& self.total_rtt <= MAX_DURATION_NANOS
        &&& match (self.min_rtt, self.max_rtt) {
            (Some(least), Some(greatest)) => least <= greatest <= self.total_rtt,
            (None, None) => true,
            _ => false,
        }
    }

    /// Whether there is a least, a mean and a greatest round-trip time.
    pub open spec fn has_rtt(self) -> bool {
        self.min_rtt is Some && self.average() is Some && self.max_rtt is Some
    }

    /// Least, mean and greatest round-trip time in milliseconds with three
    /// decimals, or dashes in their place while there is none of them.
    pub open spec fn rtt_text(self) -> Seq<char> {
        match (self.min_rtt, self.average(), self.max_rtt) {
            (Some(least), Some(mean), Some(greatest)) => millis_text(least) + seq!['/']
                + millis_text(mean) + seq!['/'] + millis_text(greatest),
            _ => "---/---/--- ms"@,
        }
    }
}

/// The sum of `rtts`.
pub open spec fn sum(rtts: Seq<nat>) -> nat
    decreases rtts.len(),
{
    if rtts.len() == 0 {
        0
    } else {
        sum(rtts.drop_last()) + rtts.last()
    }
}

/// The statistics after replies with the round-trip times `rtts` came, one
/// after the other, to a session in which nothing had happened.
pub open spec fn replies(rtts: Seq<nat>) -> StatsView
    decreases rtts.len(),
{
    if rtts.len() == 0 {
        StatsView::empty()
    } else {
        replies(rtts.drop_last()).with_received(rtts.last())
    }
}

/// After replies with the round-trip times `rtts`, and nothing else: as many
/// replies are counted as there are times, and the total is their sum. With
/// no time there is no least, no greatest and no mean. With at least one,
/// the least and the greatest are among the times and bound them all, and
/// the mean is their sum divided by their number and lies between the two.
pub proof fn lemma_replies(rtts: Seq<nat>)
    ensures
        replies(rtts).received == rtts.len(),
        replies(rtts).total_rtt == sum(rtts),
        rtts.len() == 0 ==> replies(rtts).min_rtt is None && replies(rtts).max_rtt is None
            && replies(rtts).average() is None,
        rtts.len() > 0 ==> ({
            let stats = replies(rtts);
            &&& stats.min_rtt matches Some(least) && rtts.contains(least) && (forall|i: int|
                0 <= i < rtts.len() ==> least <= #[trigger] rtts[i])
            &&& stats.max_rtt matches Some(greatest) && rtts.contains(greatest) && (forall|i: int|
                0 <= i < rtts.len() ==> greatest >= #[trigger] rtts[i])
            &&& stats.average() == Some(sum(rtts) / rtts.len())
            &&& stats.min_rtt.unwrap() <= sum(rtts) / rtts.len() <= stats.max_rtt.unwrap()
        }),
    decreases rtts.len(),
{
    if rtts.len() > 0 {
        let before = rtts.drop_last();
        let last = rtts.last();
        lemma_replies(before);
        let stats = replies(rtts);
        let least = stats.min_rtt.unwrap();
        let greatest = stats.max_rtt.unwrap();
        assert(rtts[rtts.len() - 1] == last);
        assert forall|i: int| 0 <= i < rtts.len() implies least <= #[trigger] rtts[i] && greatest
            >= rtts[i] by {
            if i < before.len() {
                assert(before[i] == rtts[i]);
            }
        }
        if before.len() > 0 {
            let earlier = replies(before);
            let i = choose|i: int| 0 <= i < before.len() && before[i] == earlier.min_rtt.unwrap();
            assert(rtts[i] == before[i]);
            let k = choose|k: int| 0 <= k < before.len() && before[k] == earlier.max_rtt.unwrap();
            assert(rtts[k] == before[k]);
        }
        lemma_sum_bounds(rtts, least, greatest);
        let n = rtts.len();
        let total = sum(rtts);
        assert(least <= total / n <= greatest) by (nonlinear_arith)
            requires
                n > 0,
                n * least <= total <= n * greatest,
        ;
    }
}

/// The sum of times that all lie between `low` and `high` lies between as
/// many times `low` and as many times `high`.
pub proof fn lemma_sum_bounds(rtts: Seq<nat>, low: nat, high: nat)
    requires
        forall|i: int| 0 <= i < rtts.len() ==> low <= #[trigger] rtts[i] <= high,
    ensures
        rtts.len() * low <= sum(rtts) <= rtts.len() * high,
    decreases rtts.len(),
{
    if rtts.len() > 0 {
        let before = rtts.drop_last();
        assert forall|i: int| 0 <= i < before.len() implies low <= #[trigger] before[i] <= high by {
            assert(before[i] == rtts[i]);
        }
        lemma_sum_bounds(before, low, high);
        let n = before.len();
        assert((n + 1) * low == n * low + low && (n + 1) * high == n * high + high)
            by (nonlinear_arith);
    }
}

/// Counters and round-trip times of one ping session.
#[derive(Debug, Clone, Copy)]
pub struct PingStats {
    packets_sent: u32,
    packets_received: u32,
    min_rtt: Option<u128>,
    max_rtt: Option<u128>,
    total_rtt: u128,
}

impl View for PingStats {
    type V = StatsView;

    closed spec fn view(&self) -> StatsView {
        StatsView {
            sent: self.packets_sent as nat,
            received: self.packets_received as nat,
            min_rtt: match self.min_rtt {
                Some(least) => Some(least as nat),
                None => None,
            },
            max_rtt: match self.max_rtt {
                Some(greatest) => Some(greatest as nat),
                None => None,
            },
            total_rtt: self.total_rtt as nat,
        }
    }
}

impl Default for PingStats {
    fn default() -> (stats: PingStats)
        ensures
            stats@ == StatsView::empty(),
    {
        PingStats { packets_sent: 0, packets_received: 0, min_rtt: None, max_rtt: None, total_rtt: 0 }
    }
}

impl PingStats {
    /// What holds of every `PingStats`: what it stands for is consistent.
    #[verifier::type_invariant]
    pub closed spec fn wf(&self) -> bool {
        self@.consistent()
    }

    /// What `wf` says.
    pub proof fn lemma_wf(&self)
        requires
            self.wf(),
        ensures
            self@.consistent(),
    {
    }

    /// Statistics of a session in which nothing has happened yet.
    pub fn new() -> (stats: PingStats)
        ensures
            stats@ == StatsView::empty(),
            stats.wf(),
    {
        PingStats { packets_sent: 0, packets_received: 0, min_rtt: None, max_rtt: None, total_rtt: 0 }
    }

    /// Number of packets sent.
    pub fn packets_sent(&self) -> (sent: u32)
        ensures
            sent == self@.sent,
    {
        self.packets_sent
    }

    /// Number of replies received.
    pub fn packets_received(&self) -> (received: u32)
        ensures
            received == self@.received,
    {
        self.packets_received
    }

    /// Least round-trip time recorded, if any was.
    pub fn get_min_rtt(&self) -> (least: Option<Duration>)
        ensures
            self@.min_rtt is None <==> least is None,
            least matches Some(rtt) ==> self@.min_rtt == Some(duration_nanos(rtt)),
    {
        proof {
            use_type_invariant(self);
        }
        match self.min_rtt {
            Some(nanos) => Some(duration_from_nanos(nanos)),
            None => None,
        }
    }

    /// Greatest round-trip time recorded, if any was.
    pub fn get_max_rtt(&self) -> (greatest: Option<Duration>)
        ensures
            self@.max_rtt is None <==> greatest is None,
            greatest matches Some(rtt) ==> self@.max_rtt == Some(duration_nanos(rtt)),
    {
        proof {
            use_type_invariant(self);
        }
        match self.max_rtt {
            Some(nanos) => Some(duration_from_nanos(nanos)),
            None => None,
        }
    }

    /// Counts one more packet as sent.
    pub fn record_sent(&mut self)
        requires
            old(self)@.sent < u32::MAX,
        ensures
            final(self)@ == old(self)@.with_sent(),
    {
        proof {
            use_type_invariant(&*self);
        }
        self.packets_sent = self.packets_sent + 1;
    }

    /// Counts one more reply as received, `rtt` after its request.
    pub fn record_received(&mut self, rtt: Duration)
        requires
            old(self)@.received < u32::MAX,
            old(self)@.total_rtt + duration_nanos(rtt) <= MAX_DURATION_NANOS,
        ensures
            final(self)@ == old(self)@.with_received(duration_nanos(rtt)),
    {
        proof {
            use_type_invariant(&*self);
        }
        self.packets_received = self.packets_received + 1;
        self.update_rtt(rtt);
    }

    /// Takes the round-trip time `rtt` into the least, the greatest and the
    /// total.
    pub fn update_rtt(&mut self, rtt: Duration)
        requires
            old(self)@.total_rtt + duration_nanos(rtt) <= MAX_DURATION_NANOS,
        ensures
            final(self)@ == old(self)@.with_rtt(duration_nanos(rtt)),
    {
        proof {
            use_type_invariant(&*self);
        }
        let nanos = nanos_of(rtt);
        let least = match self.min_rtt {
            Some(least) if least <= nanos => least,
            _ => nanos,
        };
        let greatest = match self.max_rtt {
            Some(greatest) if greatest >= nanos => greatest,
            _ => nanos,
        };
        *self = PingStats {
            packets_sent: self.packets_sent,
            packets_received: self.packets_received,
            min_rtt: Some(least),
            max_rtt: Some(greatest),
            total_rtt: self.total_rtt + nanos,
        };
    }

    /// Whether there is a least, a mean and a greatest round-trip time.
    pub fn has_rtt(&self) -> (has: bool)
        ensures
            has == self@.has_rtt(),
    {
        proof {
            use_type_invariant(self);
        }
        self.min_rtt.is_some() && self.packets_received > 0
    }

    /// Mean round-trip time: the total divided by the number of replies,
    /// rounded down to the nanosecond; none while no reply has come.
    pub fn get_avg_rtt(&self) -> (mean: Option<Duration>)
        ensures
            self@.average() is None <==> mean is None,
            mean matches Some(rtt) ==> self@.average() == Some(duration_nanos(rtt)),
    {
        proof {
            use_type_invariant(self);
        }
        if self.packets_received > 0 {
            Some(duration_from_nanos(self.total_rtt / (self.packets_received as u128)))
        } else {
            None
        }
    }

    /// Least, mean and greatest round-trip time in milliseconds, each with
    /// three decimals and rounded to the nearest microsecond, with a stroke
    /// between them; or, while there is none of them, dashes with the unit.
    pub fn format_rtt(&self) -> (text: String)
        ensures
            text@ == self@.rtt_text(),
    {
        proof {
            use_type_invariant(self);
        }
        match (self.min_rtt, self.max_rtt) {
            (Some(least), Some(greatest)) if self.packets_received > 0 => {
                let mean = self.total_rtt / (self.packets_received as u128);
                let mut text = String::new();
                push_millis(&mut text, least);
                text.push('/');
                push_millis(&mut text, mean);
                text.push('/');
                push_millis(&mut text, greatest);
                assert(text@ =~= self@.rtt_text());
                text
            },
            _ => String::from_str("---/---/--- ms"),
        }
    }
}

} // verus!
