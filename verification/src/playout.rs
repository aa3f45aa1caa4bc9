//! Per-frame playout scheduling.
//!
//! Each observer frame derives a playout time (the clock estimate minus a
//! fixed delay budget), brackets it between two buffered snapshots, marks
//! the interpolation state of every body present in the brackets, and
//! evicts snapshots that precede the start bracket.  When no bracket pair
//! exists — the playout time is before the oldest snapshot or beyond the
//! newest — the frame is skipped and nothing moves or is evicted: bodies
//! freeze rather than extrapolate.

use vstd::prelude::*;
use crate::physics::{PhysicsBodySnapshot, PhysicsSnapshot, ServerEntity};
use crate::snapshot_buffer::{is_search_index, PhysicsSnapshots};

verus! {

/// Default delay budget subtracted from the clock estimate, in milliseconds.
/// Larger values trade latency for smoothness under jitter and loss.
pub const DEFAULT_PLAYOUT_DELAY_MILLIS: u64 = 200;

/// The configured delay between estimated origin time and playout time.
#[derive(Clone, Copy, PartialEq, Eq, Structural, Debug)]
pub struct SnapshotPlayoutDelay {
    /// Milliseconds.
    pub delay: u64,
}

impl Default for SnapshotPlayoutDelay {
    fn default() -> (r: Self)
        ensures
            r.delay == DEFAULT_PLAYOUT_DELAY_MILLIS,
    {
        SnapshotPlayoutDelay { delay: DEFAULT_PLAYOUT_DELAY_MILLIS }
    }
}

/// The playout time for a given clock estimate and delay budget: the
/// saturating difference, never negative.
pub open spec fn playout_time_of(time_estimate: u64, delay: u64) -> u64 {
    if time_estimate >= delay {
        (time_estimate - delay) as u64
    } else {
        0u64
    }
}

/// `s` holds a bracket pair for time `t`: some snapshot strictly before `t`
/// and some snapshot at or after it.
pub open spec fn has_bracket(s: Seq<PhysicsSnapshot>, t: u64) -> bool {
    (exists|i: int| 0 <= i < s.len() && s[i].time < t)
        && (exists|i: int| 0 <= i < s.len() && s[i].time >= t)
}

/// The interpolation fraction of one frame, kept exact: the fraction is
/// `elapsed / span`, and `span` is also the factor that rescales stored
/// per-second velocities to the bracket interval.
#[derive(Clone, Copy, PartialEq, Eq, Structural, Debug)]
pub struct InterpolateValues {
    /// Milliseconds from the start bracket to the playout time.
    pub elapsed: u64,
    /// Milliseconds from the start bracket to the end bracket.
    pub span: u64,
}

/// Interpolation state of one body for one frame.  A body is blended only
/// when both brackets recorded it; with either side missing it freezes at
/// its last pose.
#[derive(Clone, Copy, PartialEq, Eq, Structural, Debug)]
pub struct SnapshotInterpolation {
    pub start: Option<PhysicsBodySnapshot>,
    pub end: Option<PhysicsBodySnapshot>,
}

impl SnapshotInterpolation {
    /// The pair of poses to blend, or nothing if the body is missing from
    /// either bracket and must be left untouched this frame.
    pub fn endpoints(&self) -> (r: Option<(PhysicsBodySnapshot, PhysicsBodySnapshot)>)
        ensures
            match r {
                Some(pair) => self.start == Some(pair.0) && self.end == Some(pair.1),
                None => self.start is None || self.end is None,
            },
    {
        match (self.start, self.end) {
            (Some(start), Some(end)) => Some((start, end)),
            _ => None,
        }
    }
}

impl Default for SnapshotInterpolation {
    fn default() -> (r: Self)
        ensures
            r.start is None,
            r.end is None,
    {
        SnapshotInterpolation { start: None, end: None }
    }
}

/// One frame of playout scheduling over the snapshot buffer.
///
/// Computes the playout time, brackets it, and on success evicts every
/// snapshot before the start bracket — the buffer then begins with the
/// bracket pair itself — and returns the exact interpolation fraction.
/// Without a bracket pair (too little data, or playout beyond the newest
/// snapshot) the buffer is left untouched and the frame is skipped.
pub fn queue_interpolation(
    snapshots: &mut PhysicsSnapshots,
    time_estimate: u64,
    delay: u64,
) -> (r: Option<InterpolateValues>)
    requires
        old(snapshots).wf(),
    ensures
        final(snapshots).wf(),
        ({
            let buffer = old(snapshots).snapshots@;
            let after = final(snapshots).snapshots@;
            let t = playout_time_of(time_estimate, delay);
            match r {
                None => *final(snapshots) == *old(snapshots) && !has_bracket(buffer, t),
                Some(v) => {
                    &&& has_bracket(buffer, t)
                    &&& exists|k: int|
                        #[trigger] is_search_index(buffer, t, k + 1) && 0 <= k < buffer.len() - 1
                            && after == buffer.skip(k)
                    &&& after.len() >= 2
                    &&& after[0].time < t <= after[1].time
                    &&& v.elapsed == t - after[0].time
                    &&& v.span == after[1].time - after[0].time
                    &&& 1 <= v.elapsed <= v.span
                },
            }
        }),
{
    // Calculate playout time from the time estimate and the delay budget.
    let playout_time: u64 = if time_estimate >= delay {
        time_estimate - delay
    } else {
        0
    };

    // Bracket the playout time between two buffered snapshots.
    let end_index = snapshots.search(playout_time);
    if end_index == 0 {
        // No snapshot to start interpolation at.
        return None;
    }
    if end_index >= snapshots.snapshots.len() {
        // No snapshot to end interpolation at.
        return None;
    }
    let start_index = end_index - 1;
    let start_time = snapshots.snapshots[start_index].time;
    let end_time = snapshots.snapshots[end_index].time;
    proof {
        let buffer = snapshots.snapshots@;
        assert(buffer[start_index as int].time < playout_time);
        assert(buffer[end_index as int].time >= playout_time);
        assert(start_time <= end_time);
    }

    // Forget snapshots older than the two used.
    snapshots.evict_before(start_index);
    proof {
        let buffer = old(snapshots).snapshots@;
        let after = snapshots.snapshots@;
        assert(after[0] == buffer[start_index as int]);
        assert(after[1] == buffer[end_index as int]);
        assert(is_search_index(buffer, playout_time, start_index + 1)
            && after == buffer.skip(start_index as int));
    }
    Some(InterpolateValues { elapsed: playout_time - start_time, span: end_time - start_time })
}

/// Rebuilds the per-body interpolation states for one frame from the
/// bracket pair now at the front of the buffer: for each local body
/// identifier, the state carries the pose each bracket snapshot recorded
/// for it, either side absent if that snapshot does not mention the body.
pub fn queue_body_interpolation(
    start: &PhysicsSnapshot,
    end: &PhysicsSnapshot,
    ids: &Vec<ServerEntity>,
) -> (states: Vec<SnapshotInterpolation>)
    requires
        start.wf(),
        end.wf(),
    ensures
        states@.len() == ids@.len(),
        forall|i: int|
            0 <= i < ids@.len() ==> #[trigger] states@[i] == (SnapshotInterpolation {
                start: start.spec_lookup(ids@[i]),
                end: end.spec_lookup(ids@[i]),
            }),
{
    let n = ids.len();
    let mut states: Vec<SnapshotInterpolation> = Vec::new();
    let mut k: usize = 0;
    while k < n
        invariant
            n == ids@.len(),
            0 <= k <= n,
            start.wf(),
            end.wf(),
            states@.len() == k,
            forall|i: int|
                0 <= i < k ==> #[trigger] states@[i] == (SnapshotInterpolation {
                    start: start.spec_lookup(ids@[i]),
                    end: end.spec_lookup(ids@[i]),
                }),
        decreases n - k,
    {
        let id = ids[k];
        states.push(SnapshotInterpolation {
            start: start.lookup_body(id),
            end: end.lookup_body(id),
        });
        k = k + 1;
    }
    states
}

} // verus!
