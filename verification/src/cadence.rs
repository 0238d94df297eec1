use vstd::prelude::*;

use vstd::arithmetic::div_mod::lemma_fundamental_div_mod;
use vstd::arithmetic::div_mod::lemma_fundamental_div_mod_converse_mod;
use vstd::arithmetic::div_mod::lemma_small_mod;

verus! {

/// The re-emission schedule of one level-of-detail tier.
///
/// A tier with period `p` is rebuilt and re-emitted on every `p`-th frame,
/// starting with frame 0; each tier keeps its own counter, so tiers with
/// different periods run independently of one another.
pub struct Cadence {
    period: u64,
    counter: u64,
    ticks: Ghost<nat>,
}

impl Cadence {
    /// Frames between two emissions of this tier.
    pub closed spec fn period(self) -> u64 {
        self.period
    }

    /// How many frames this tier has been asked about so far.
    pub closed spec fn ticks(self) -> nat {
        self.ticks@
    }

    /// The cadence's invariant: the run-time counter always equals the
    /// number of frames seen so far, reduced modulo the period.
    pub closed spec fn wf(self) -> bool {
        1 <= self.period && self.counter as nat == self.ticks@ % (self.period as nat)
    }

    /// A fresh cadence that fires on the first frame it is asked about.
    pub fn new(period: u64) -> (c: Cadence)
        requires
            1 <= period,
        ensures
            c.wf(),
            c.period() == period,
            c.ticks() == 0,
    {
        proof {
            lemma_small_mod(0, period as nat);
        }
        Cadence { period, counter: 0, ticks: Ghost(0) }
    }

    /// Advances past one frame and says whether this tier fires on it.
    ///
    /// The tier fires exactly on the frames whose index is a multiple of the
    /// period, so a period of 1 fires every frame, a period of 10 on frames
    /// 0, 10, 20, and so on.
    pub fn tick(&mut self) -> (due: bool)
        requires
            old(self).wf(),
        ensures
            final(self).wf(),
            final(self).period() == old(self).period(),
            final(self).ticks() == old(self).ticks() + 1,
            due == (old(self).ticks() % (old(self).period() as nat) == 0),
    {
        let due = self.counter == 0;
        proof {
            lemma_counter_step(self.ticks@ as int, self.period as int);
            self.ticks@ = self.ticks@ + 1;
        }
        self.counter = self.counter + 1;
        if self.counter == self.period {
            self.counter = 0;
        }
        due
    }
}

/// One step of the counter arithmetic behind `Cadence::tick`: advancing a
/// frame index by one either advances its remainder modulo the period or
/// wraps it back to zero.
proof fn lemma_counter_step(t: int, p: int)
    requires
        0 <= t,
        1 <= p,
    ensures
        t % p + 1 == p ==> (t + 1) % p == 0,
        t % p + 1 < p ==> (t + 1) % p == t % p + 1,
{
    lemma_fundamental_div_mod(t, p);
    if t % p + 1 == p {
        assert((t / p + 1) * p == (t / p) * p + p) by (nonlinear_arith);
        assert(t + 1 == (t / p + 1) * p + 0) by {
            assert(t == p * (t / p) + t % p);
            assert(p * (t / p) == (t / p) * p) by (nonlinear_arith);
        }
        lemma_fundamental_div_mod_converse_mod(t + 1, p, t / p + 1, 0);
    } else {
        assert(t + 1 == (t / p) * p + (t % p + 1)) by {
            assert(t == p * (t / p) + t % p);
            assert(p * (t / p) == (t / p) * p) by (nonlinear_arith);
        }
        lemma_fundamental_div_mod_converse_mod(t + 1, p, t / p, t % p + 1);
    }
}

} // verus!
