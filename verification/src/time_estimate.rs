//! Observer-side estimate of the origin's current simulation time.
//!
//! The origin has no shared wall clock with its observers, so each observer
//! keeps a bounded FIFO window of received [`TimeSample`]s, each paired with
//! the local time it was received.  Every tick the estimate is recomputed as
//! the arithmetic mean of `sample.time + (now - received_at)` over the
//! window: each sample is corrected for the local time that has passed since
//! its receipt.  An empty window leaves the previous estimate untouched, so
//! the estimator degrades to a stale value under total sample loss instead
//! of failing.

use vstd::prelude::*;
use std::collections::VecDeque;
use crate::physics::TimeSample;

verus! {

/// How many samples to keep to make the time estimate.
pub const TIME_ESTIMATE_SAMPLES: usize = 30;

/// A received sample together with the local time (milliseconds) at which it
/// was received.
pub type ReceivedSample = (TimeSample, u64);

/// The origin time a sample witnesses once corrected for the local time that
/// has passed since its receipt.
pub open spec fn corrected(p: ReceivedSample, now: u64) -> int {
    p.0.time + now - p.1
}

/// A sample the estimator can average at local time `now`: it was received
/// in the past, and its corrected time fits the time representation.
pub open spec fn averageable(p: ReceivedSample, now: u64) -> bool {
    p.1 <= now && corrected(p, now) <= u64::MAX
}

/// Sum of the corrected times of a window.
pub open spec fn window_sum(w: Seq<ReceivedSample>, now: u64) -> int
    decreases w.len(),
{
    if w.len() == 0 {
        0
    } else {
        window_sum(w.drop_last(), now) + corrected(w.last(), now)
    }
}

/// Arithmetic mean (rounded down) of the corrected times of a window.
pub open spec fn window_mean(w: Seq<ReceivedSample>, now: u64) -> int {
    window_sum(w, now) / (w.len() as int)
}

/// One sample entering the FIFO window: appended at the back, evicting the
/// oldest entry if the window is over capacity.
pub open spec fn window_push(w: Seq<ReceivedSample>, p: ReceivedSample) -> Seq<ReceivedSample> {
    let grown = w.push(p);
    if grown.len() > TIME_ESTIMATE_SAMPLES {
        grown.drop_first()
    } else {
        grown
    }
}

/// A batch of samples entering the window in order.
pub open spec fn window_ingest(w: Seq<ReceivedSample>, ps: Seq<ReceivedSample>) -> Seq<
    ReceivedSample,
>
    decreases ps.len(),
{
    if ps.len() == 0 {
        w
    } else {
        window_push(window_ingest(w, ps.drop_last()), ps.last())
    }
}

/// Rolling estimate of the origin's current simulation time.
pub struct PhysicsTimeEstimate {
    /// List of samples and when they were received.
    pub samples: VecDeque<ReceivedSample>,
    /// Milliseconds since the origin's epoch; zero until the first window
    /// is averaged.
    pub time_estimate: u64,
}

impl PhysicsTimeEstimate {
    /// The window never holds more than [`TIME_ESTIMATE_SAMPLES`] entries.
    pub open spec fn wf(&self) -> bool {
        self.samples@.len() <= TIME_ESTIMATE_SAMPLES
    }

    pub fn new() -> (r: Self)
        ensures
            r.samples@ == Seq::<ReceivedSample>::empty(),
            r.time_estimate == 0,
            r.wf(),
    {
        PhysicsTimeEstimate { samples: VecDeque::new(), time_estimate: 0 }
    }

    /// Ingests a batch of received samples into the FIFO window, oldest
    /// evicted on overflow.  The estimate itself is untouched until the next
    /// [`calculate_time_estimate`](Self::calculate_time_estimate).
    pub fn receive_time_samples(&mut self, samples: &Vec<ReceivedSample>)
        requires
            old(self).wf(),
        ensures
            final(self).wf(),
            final(self).samples@ == window_ingest(old(self).samples@, samples@),
            final(self).time_estimate == old(self).time_estimate,
    {
        let n = samples.len();
        let mut k: usize = 0;
        while k < n
            invariant
                n == samples@.len(),
                0 <= k <= n,
                self.wf(),
                self.samples@ == window_ingest(old(self).samples@, samples@.take(k as int)),
                self.time_estimate == old(self).time_estimate,
            decreases n - k,
        {
            let ghost before = self.samples@;
            self.samples.push_back(samples[k]);
            if self.samples.len() > TIME_ESTIMATE_SAMPLES {
                self.samples.pop_front();
                proof {
                    assert(self.samples@ =~= before.push(samples@[k as int]).drop_first());
                }
            }
            proof {
                assert(self.samples@ == window_push(before, samples@[k as int]));
                assert(samples@.take(k + 1).drop_last() =~= samples@.take(k as int));
                assert(samples@.take(k + 1).last() == samples@[k as int]);
            }
            k = k + 1;
        }
        proof {
            assert(samples@.take(n as int) =~= samples@);
        }
    }

    /// Recomputes the estimate as the mean corrected time over the current
    /// window, or retains the previous estimate if the window is empty.
    pub fn calculate_time_estimate(&mut self, now: u64)
        requires
            forall|k: int|
                0 <= k < old(self).samples@.len() ==> averageable(
                    #[trigger] old(self).samples@[k],
                    now,
                ),
        ensures
            final(self).samples == old(self).samples,
            old(self).samples@.len() == 0 ==> final(self).time_estimate == old(
                self,
            ).time_estimate,
            old(self).samples@.len() > 0 ==> final(self).time_estimate == window_mean(
                old(self).samples@,
                now,
            ),
    {
        let n = self.samples.len();
        if n == 0 {
            return ;
        }
        let mut sum: u128 = 0;
        let mut k: usize = 0;
        while k < n
            invariant
                n == self.samples@.len(),
                0 <= k <= n,
                forall|i: int| 0 <= i < n ==> averageable(#[trigger] self.samples@[i], now),
                sum == window_sum(self.samples@.take(k as int), now),
                sum <= k * (u64::MAX as int),
            decreases n - k,
        {
            let (sample, received_at) = self.samples[k];
            let correction: u64 = now - received_at;
            let term: u128 = sample.time as u128 + correction as u128;
            proof {
                assert(term == corrected(self.samples@[k as int], now));
                assert(sum + term <= (k + 1) * (u64::MAX as int)) by (nonlinear_arith)
                    requires
                        sum <= k * (u64::MAX as int),
                        term <= u64::MAX as int,
                        0 <= k,
                ;
                assert(self.samples@.take(k + 1).drop_last() =~= self.samples@.take(k as int));
            }
            sum = sum + term;
            k = k + 1;
        }
        proof {
            assert(self.samples@.take(n as int) =~= self.samples@);
            assert(window_sum(self.samples@, now) / (n as int) <= u64::MAX as int) by {
                vstd::arithmetic::div_mod::lemma_div_is_ordered(
                    window_sum(self.samples@, now),
                    n * (u64::MAX as int),
                    n as int,
                );
                vstd::arithmetic::div_mod::lemma_div_multiples_vanish(
                    u64::MAX as int,
                    n as int,
                );
                assert(n * (u64::MAX as int) == (n as int) * (u64::MAX as int));
            }
            assert(window_sum(self.samples@, now) / (n as int) >= 0) by {
                vstd::arithmetic::div_mod::lemma_div_pos_is_pos(
                    window_sum(self.samples@, now),
                    n as int,
                );
            }
        }
        let estimate: u128 = sum / (n as u128);
        proof {
            assert(estimate == window_mean(self.samples@, now));
        }
        self.time_estimate = estimate as u64;
    }
}

impl Default for PhysicsTimeEstimate {
    fn default() -> (r: Self)
        ensures
            r.samples@ == Seq::<ReceivedSample>::empty(),
            r.time_estimate == 0,
            r.wf(),
    {
        PhysicsTimeEstimate::new()
    }
}

/// After any batch is ingested, the window holds exactly the most recent at
/// most [`TIME_ESTIMATE_SAMPLES`] of all samples ever pushed, in arrival
/// order: the estimator averages over exactly its newest window, whatever
/// order and volume the samples arrived in.
pub proof fn lemma_window_keeps_most_recent(w: Seq<ReceivedSample>, ps: Seq<ReceivedSample>)
    requires
        w.len() <= TIME_ESTIMATE_SAMPLES,
    ensures
        ({
            let all = w + ps;
            window_ingest(w, ps) == if all.len() <= TIME_ESTIMATE_SAMPLES {
                all
            } else {
                all.skip(all.len() - TIME_ESTIMATE_SAMPLES)
            }
        }),
    decreases ps.len(),
{
    let all = w + ps;
    if ps.len() == 0 {
        assert(all =~= w);
    } else {
        lemma_window_keeps_most_recent(w, ps.drop_last());
        let front = w + ps.drop_last();
        let prior = window_ingest(w, ps.drop_last());
        assert(all =~= front.push(ps.last()));
        if front.len() <= TIME_ESTIMATE_SAMPLES {
            assert(prior == front);
            if all.len() <= TIME_ESTIMATE_SAMPLES {
                assert(window_push(prior, ps.last()) == all);
            } else {
                assert(all.len() == TIME_ESTIMATE_SAMPLES + 1);
                assert(window_push(prior, ps.last()) =~= all.skip(1));
            }
        } else {
            let k = front.len() - TIME_ESTIMATE_SAMPLES;
            assert(prior == front.skip(k));
            assert(prior.len() == TIME_ESTIMATE_SAMPLES);
            assert(prior.push(ps.last()) =~= all.skip(k));
            assert(window_push(prior, ps.last()) =~= all.skip(k + 1));
        }
    }
}

} // verus!
