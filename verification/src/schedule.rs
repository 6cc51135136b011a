//! The cadence shared by the two loops: each sleeps a fixed interval,
//! then runs one cycle — but only when the interval just slept still lay
//! within the total run time. The caller performs the sleeping and the
//! cycles; the decisions (go on, run a cycle, stop) are made here.

use vstd::prelude::*;
use vstd::arithmetic::div_mod::{lemma_basic_div, lemma_fundamental_div_mod_converse};

verus! {

/// Total run time of both loops, in seconds.
pub const TOTAL_DURATION_SECONDS: u64 = 5 * 60;

/// The update loop's interval, in seconds.
pub const UPDATE_INTERVAL_SECONDS: u64 = 30;

/// The persist loop's interval, in seconds.
pub const STORE_INTERVAL_SECONDS: u64 = 60;

/// How many cycles a loop with the given interval completes within the
/// given total duration: one cycle at each elapsed multiple of
/// `interval` that does not exceed `total`.
pub open spec fn spec_cycle_count(total: nat, interval: nat) -> nat
    recommends
        interval > 0,
{
    total / interval
}

/// The countdown of one periodic loop. `elapsed` is the simulated time
/// slept so far; it only ever grows by `interval`, and the loop is done
/// once it reaches `total`.
pub struct LoopSchedule {
    pub interval: u64,
    pub total: u64,
    pub elapsed: u64,
}

impl LoopSchedule {
    /// The schedule can always take its next step without overflowing,
    /// and `elapsed` stays a multiple of the interval, never more than
    /// one interval past the total.
    pub open spec fn wf(&self) -> bool {
        &&& self.interval > 0
        &&& self.total + self.interval <= u64::MAX
        &&& self.elapsed as int % self.interval as int == 0
        &&& self.elapsed <= self.total + self.interval
    }

    /// A fresh schedule: nothing has elapsed yet.
    pub fn new(interval: u64, total: u64) -> (r: LoopSchedule)
        requires
            interval > 0,
            total + interval <= u64::MAX,
        ensures
            r.wf(),
            r.interval == interval,
            r.total == total,
            r.elapsed == 0,
    {
        proof {
            lemma_basic_div(0, interval as int);
        }
        LoopSchedule { interval, total, elapsed: 0 }
    }

    /// The loop is done once the elapsed time has reached the total.
    pub fn is_done(&self) -> (r: bool)
        ensures
            r == (self.elapsed >= self.total),
    {
        self.elapsed >= self.total
    }

    /// One step: the caller has just slept one interval. The elapsed
    /// time grows by the interval, and the step grants a cycle exactly
    /// when the elapsed time is still within the total.
    pub fn advance(&mut self) -> (run_cycle: bool)
        requires
            old(self).wf(),
            old(self).elapsed < old(self).total,
        ensures
            final(self).wf(),
            final(self).interval == old(self).interval,
            final(self).total == old(self).total,
            final(self).elapsed == old(self).elapsed + old(self).interval,
            run_cycle == (final(self).elapsed <= final(self).total),
    {
        proof {
            let e = self.elapsed as int;
            let iv = self.interval as int;
            vstd::arithmetic::div_mod::lemma_fundamental_div_mod(e, iv);
            assert(e + iv == (e / iv + 1) * iv) by (nonlinear_arith)
                requires
                    e == iv * (e / iv) + e % iv,
                    e % iv == 0,
            ;
            lemma_fundamental_div_mod_converse(e + iv, iv, e / iv + 1, 0);
        }
        self.elapsed = self.elapsed + self.interval;
        self.elapsed <= self.total
    }
}

/// Runs a whole schedule to completion and counts the cycles it grants:
/// exactly `spec_cycle_count(total, interval)` of them — in particular,
/// none at all when the total duration is shorter than one interval.
pub fn count_cycles(interval: u64, total: u64) -> (r: u64)
    requires
        interval > 0,
        total + interval <= u64::MAX,
    ensures
        r as nat == spec_cycle_count(total as nat, interval as nat),
{
    let mut sched = LoopSchedule::new(interval, total);
    let mut count: u64 = 0;
    while !sched.is_done()
        invariant
            sched.wf(),
            sched.interval == interval,
            sched.total == total,
            sched.elapsed <= total ==> count as int * interval as int == sched.elapsed as int,
            sched.elapsed > total ==> count as int * interval as int == sched.elapsed as int
                - interval as int && sched.elapsed - interval < total,
            count <= total,
        decreases total - sched.elapsed + interval,
    {
        let granted = sched.advance();
        proof {
            let iv = interval as int;
            let c = count as int;
            if granted {
                assert((c + 1) * iv == c * iv + iv) by (nonlinear_arith);
                assert(c + 1 <= (c + 1) * iv) by (nonlinear_arith)
                    requires
                        iv >= 1,
                        c >= 0,
                ;
            }
        }
        if granted {
            count = count + 1;
        }
    }
    proof {
        let iv = interval as int;
        let t = total as int;
        if sched.elapsed <= total {
            assert(sched.elapsed == total);
            lemma_fundamental_div_mod_converse(t, iv, count as int, 0);
        } else {
            lemma_fundamental_div_mod_converse(
                t,
                iv,
                count as int,
                t - count as int * iv,
            );
        }
    }
    count
}

/// A run whose total duration is shorter than one interval grants no
/// cycle at all: the deadline passes during the first sleep.
pub proof fn lemma_short_run_no_cycles(total: nat, interval: nat)
    requires
        0 < interval,
        total < interval,
    ensures
        spec_cycle_count(total, interval) == 0,
{
    lemma_basic_div(total as int, interval as int);
}

} // verus!
