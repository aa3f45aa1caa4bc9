//! Playout scheduling scenarios and per-body interpolation state.

use physics_replication::hermite::hermite_basis;
use physics_replication::physics::{
    PhysicsBodySnapshot, PhysicsSnapshot, QuatBits, ServerEntity, Vec3Bits,
};
use physics_replication::playout::{
    queue_body_interpolation, queue_interpolation, InterpolateValues, SnapshotInterpolation,
    SnapshotPlayoutDelay, DEFAULT_PLAYOUT_DELAY_MILLIS,
};
use physics_replication::snapshot_buffer::PhysicsSnapshots;

fn vec3(x: f32, y: f32, z: f32) -> Vec3Bits {
    Vec3Bits { x: x.to_bits(), y: y.to_bits(), z: z.to_bits() }
}

fn identity_quat() -> QuatBits {
    QuatBits { x: 0.0f32.to_bits(), y: 0.0f32.to_bits(), z: 0.0f32.to_bits(), w: 1.0f32.to_bits() }
}

fn still_pose(px: f32) -> PhysicsBodySnapshot {
    PhysicsBodySnapshot {
        position: vec3(px, 0.0, 0.0),
        linear_velocity: vec3(0.0, 0.0, 0.0),
        rotation: identity_quat(),
    }
}

fn snapshot_with_body(time: u64, id: u64, body: PhysicsBodySnapshot) -> PhysicsSnapshot {
    PhysicsSnapshot { bodies: vec![(ServerEntity(id), body)], time }
}

/// Blends one position component from the exact basis weights, the way the
/// embedding does with floats.
fn blend(
    values: &InterpolateValues,
    start_pos: f32,
    start_vel: f32,
    end_pos: f32,
    end_vel: f32,
) -> f32 {
    let w = hermite_basis(values.elapsed, values.span);
    let d = w.denominator as f64;
    let span_seconds = values.span as f64 / 1000.0;
    (start_pos as f64 * (w.start_position as f64 / d)
        + end_pos as f64 * (w.end_position as f64 / d)
        + (start_vel as f64 * span_seconds) * (w.start_velocity as f64 / d)
        + (end_vel as f64 * span_seconds) * (w.end_velocity as f64 / d)) as f32
}

fn two_snapshot_buffer() -> PhysicsSnapshots {
    let mut buffer = PhysicsSnapshots::new();
    buffer.insert(snapshot_with_body(100, 7, still_pose(0.0)));
    buffer.insert(snapshot_with_body(250, 7, still_pose(10.0)));
    buffer
}

#[test]
fn playout_before_oldest_snapshot_skips_frame() {
    // Estimate 280 ms, delay 200 ms: playout 80 ms precedes the snapshot at
    // 100 ms, so there is no start bracket and nothing moves or is evicted.
    let mut buffer = two_snapshot_buffer();
    let r = queue_interpolation(&mut buffer, 280, DEFAULT_PLAYOUT_DELAY_MILLIS);
    assert!(r.is_none());
    assert_eq!(buffer.snapshots.len(), 2);
    assert_eq!(buffer.snapshots[0].time, 100);
}

#[test]
fn playout_beyond_newest_snapshot_never_extrapolates() {
    let mut buffer = two_snapshot_buffer();
    // Playout 300 ms is past the newest snapshot at 250 ms.
    let r = queue_interpolation(&mut buffer, 500, DEFAULT_PLAYOUT_DELAY_MILLIS);
    assert!(r.is_none());
    assert_eq!(buffer.snapshots.len(), 2);
}

#[test]
fn bracketed_playout_yields_exact_fraction() {
    // Estimate 380 ms, delay 200 ms: playout 180 ms sits in [100, 250], so
    // the fraction is (180-100)/150.
    let mut buffer = two_snapshot_buffer();
    let r = queue_interpolation(&mut buffer, 380, DEFAULT_PLAYOUT_DELAY_MILLIS);
    let values = r.expect("playout 180 must be bracketed");
    assert_eq!(values.elapsed, 80);
    assert_eq!(values.span, 150);

    // With zero velocities the Hermite blend is the cubic ease
    // 3p^2 - 2p^3, not a straight lerp: at p = 8/15 the x position is
    // 10 * 1856000/3375000 = 5.499259...
    let x = blend(&values, 0.0, 0.0, 10.0, 0.0);
    assert!((x - 5.499_259_3).abs() < 1e-4, "got {x}");
}

#[test]
fn scheduling_evicts_snapshots_before_the_start_bracket() {
    let mut buffer = PhysicsSnapshots::new();
    for t in [100, 200, 300, 400] {
        buffer.insert(PhysicsSnapshot { bodies: Vec::new(), time: t });
    }
    // Playout 350 ms brackets [300, 400]; the two older snapshots go.
    let r = queue_interpolation(&mut buffer, 550, DEFAULT_PLAYOUT_DELAY_MILLIS);
    let values = r.expect("playout 350 must be bracketed");
    assert_eq!(values.elapsed, 50);
    assert_eq!(values.span, 100);
    let times: Vec<u64> = buffer.snapshots.iter().map(|s| s.time).collect();
    assert_eq!(times, vec![300, 400]);
}

#[test]
fn small_estimate_saturates_playout_at_zero() {
    let mut buffer = PhysicsSnapshots::new();
    buffer.insert(PhysicsSnapshot { bodies: Vec::new(), time: 10 });
    // Estimate below the delay budget saturates to playout 0, which no
    // snapshot strictly precedes.
    let r = queue_interpolation(&mut buffer, 150, DEFAULT_PLAYOUT_DELAY_MILLIS);
    assert!(r.is_none());
    assert_eq!(buffer.snapshots.len(), 1);
}

#[test]
fn default_playout_delay_is_200_ms() {
    let configured = SnapshotPlayoutDelay::default();
    assert_eq!(configured.delay, 200);
    assert_eq!(DEFAULT_PLAYOUT_DELAY_MILLIS, 200);
}

#[test]
fn bodies_need_both_brackets_to_interpolate() {
    let mut start = PhysicsSnapshot { bodies: Vec::new(), time: 100 };
    start.bodies.push((ServerEntity(1), still_pose(1.0)));
    start.bodies.push((ServerEntity(2), still_pose(2.0)));
    let mut end = PhysicsSnapshot { bodies: Vec::new(), time: 250 };
    end.bodies.push((ServerEntity(2), still_pose(20.0)));
    end.bodies.push((ServerEntity(3), still_pose(30.0)));

    let ids = vec![ServerEntity(1), ServerEntity(2), ServerEntity(3), ServerEntity(4)];
    let states = queue_body_interpolation(&start, &end, &ids);
    assert_eq!(states.len(), 4);

    // Only body 2 appears in both brackets; every other body freezes.
    assert!(states[0].start.is_some() && states[0].end.is_none());
    assert!(states[1].start.is_some() && states[1].end.is_some());
    assert!(states[2].start.is_none() && states[2].end.is_some());
    assert!(states[3].start.is_none() && states[3].end.is_none());

    assert!(states[0].endpoints().is_none());
    assert!(states[2].endpoints().is_none());
    assert!(states[3].endpoints().is_none());
    let (s, e) = states[1].endpoints().expect("body 2 has both brackets");
    assert_eq!(f32::from_bits(s.position.x), 2.0);
    assert_eq!(f32::from_bits(e.position.x), 20.0);

    let cleared = SnapshotInterpolation::default();
    assert!(cleared.endpoints().is_none());
}
