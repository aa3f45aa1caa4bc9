//! Wire-level data model shared by the origin and its observers.
//!
//! Times are millisecond counts since the origin's epoch.  Vector and
//! quaternion components are carried as the bit patterns of 32-bit IEEE-754
//! floats: the replication logic never interprets them, it only stores,
//! matches and hands them back, so the embedding converts to and from its
//! float types at the boundary.

use vstd::prelude::*;

verus! {

/// Identifier of a replicated body in the origin's world, as the raw bits of
/// the origin's entity id.  Observers treat it as an opaque key.
#[derive(Clone, Copy, PartialEq, Eq, Structural, Debug, Hash)]
pub struct ServerEntity(pub u64);

/// A sample of the origin's physics time sent to observers for them to
/// average.  It is its own message and not part of snapshots to minimize
/// message delay.
#[derive(Clone, Copy, PartialEq, Eq, Structural, Debug)]
pub struct TimeSample {
    /// Milliseconds since the origin's epoch.
    pub time: u64,
}

/// Bit patterns of the three components of a 32-bit float vector.
#[derive(Clone, Copy, PartialEq, Eq, Structural, Debug)]
pub struct Vec3Bits {
    pub x: u32,
    pub y: u32,
    pub z: u32,
}

/// Bit patterns of the four components of a 32-bit float quaternion.
#[derive(Clone, Copy, PartialEq, Eq, Structural, Debug)]
pub struct QuatBits {
    pub x: u32,
    pub y: u32,
    pub z: u32,
    pub w: u32,
}

/// The replicated pose of one body at one instant.
#[derive(Clone, Copy, PartialEq, Eq, Structural, Debug)]
pub struct PhysicsBodySnapshot {
    pub position: Vec3Bits,
    /// Units per second; the interpolator rescales it to the bracket span.
    pub linear_velocity: Vec3Bits,
    pub rotation: QuatBits,
}

/// Physics snapshot sent from the origin to observers: the poses of every
/// replicated body, stamped with the origin time at which they were captured.
#[derive(Debug)]
pub struct PhysicsSnapshot {
    pub bodies: Vec<(ServerEntity, PhysicsBodySnapshot)>,
    /// Milliseconds since the origin's epoch.
    pub time: u64,
}

impl PhysicsSnapshot {
    /// Within one snapshot every body appears at most once.
    pub open spec fn wf(&self) -> bool {
        forall|i: int, j: int|
            0 <= i < j < self.bodies@.len() ==> self.bodies@[i].0 != self.bodies@[j].0
    }

    /// The pose this snapshot records for `id`, if any.
    pub open spec fn spec_lookup(&self, id: ServerEntity) -> Option<PhysicsBodySnapshot> {
        if exists|i: int| 0 <= i < self.bodies@.len() && self.bodies@[i].0 == id {
            let i = choose|i: int| 0 <= i < self.bodies@.len() && self.bodies@[i].0 == id;
            Some(self.bodies@[i].1)
        } else {
            None
        }
    }

    /// Finds the pose recorded for `id`, scanning emission order.
    pub fn lookup_body(&self, id: ServerEntity) -> (r: Option<PhysicsBodySnapshot>)
        requires
            self.wf(),
        ensures
            r == self.spec_lookup(id),
    {
        let n = self.bodies.len();
        let mut k: usize = 0;
        while k < n
            invariant
                n == self.bodies@.len(),
                0 <= k <= n,
                self.wf(),
                forall|i: int| 0 <= i < k ==> self.bodies@[i].0 != id,
            decreases n - k,
        {
            let (entry_id, pose) = self.bodies[k];
            if entry_id == id {
                assert(self.bodies@[k as int].0 == id);
                proof {
                    let w = choose|i: int|
                        0 <= i < self.bodies@.len() && self.bodies@[i].0 == id;
                    assert(w == k as int);
                }
                return Some(pose);
            }
            k = k + 1;
        }
        return None;
    }
}

} // verus!
