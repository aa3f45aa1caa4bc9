//! Clock estimator behaviour: corrected mean over a bounded FIFO window.

use physics_replication::physics::TimeSample;
use physics_replication::time_estimate::{PhysicsTimeEstimate, TIME_ESTIMATE_SAMPLES};

fn sample(origin_time: u64, received_at: u64) -> (TimeSample, u64) {
    (TimeSample { time: origin_time }, received_at)
}

#[test]
fn single_sample_estimate() {
    // One sample with origin time 1000 ms, received 50 ms ago.
    let mut clock = PhysicsTimeEstimate::new();
    clock.receive_time_samples(&vec![sample(1000, 400)]);
    clock.calculate_time_estimate(450);
    assert_eq!(clock.time_estimate, 1050);
}

#[test]
fn estimate_is_mean_of_corrected_samples() {
    let mut clock = PhysicsTimeEstimate::new();
    // Corrected values at now = 1000: 900+(1000-100)=1800, 950+(1000-200)=1750,
    // 1100+(1000-300)=1800.  Mean = 5350/3 = 1783 (rounded down).
    clock.receive_time_samples(&vec![sample(900, 100), sample(950, 200), sample(1100, 300)]);
    clock.calculate_time_estimate(1000);
    assert_eq!(clock.time_estimate, (1800 + 1750 + 1800) / 3);
    assert_eq!(clock.time_estimate, 1783);
}

#[test]
fn empty_window_retains_previous_estimate() {
    let mut clock = PhysicsTimeEstimate::new();
    assert_eq!(clock.time_estimate, 0);
    clock.calculate_time_estimate(5000);
    assert_eq!(clock.time_estimate, 0);

    clock.receive_time_samples(&vec![sample(1000, 400)]);
    clock.calculate_time_estimate(450);
    assert_eq!(clock.time_estimate, 1050);
    // No new samples: recomputing at a later now keeps correcting the same
    // window rather than stalling, and an emptied batch changes nothing.
    clock.receive_time_samples(&vec![]);
    clock.calculate_time_estimate(550);
    assert_eq!(clock.time_estimate, 1150);
}

#[test]
fn window_keeps_only_most_recent_samples() {
    let mut clock = PhysicsTimeEstimate::new();
    // 35 samples received at the same instant; only the 30 newest stay.
    let batch: Vec<(TimeSample, u64)> = (0..35).map(|k| sample(1000 + k, 500)).collect();
    clock.receive_time_samples(&batch);
    assert_eq!(clock.samples.len(), TIME_ESTIMATE_SAMPLES);
    assert_eq!(clock.samples[0].0.time, 1005);
    assert_eq!(clock.samples[TIME_ESTIMATE_SAMPLES - 1].0.time, 1034);
    clock.calculate_time_estimate(500);
    // Mean of 1005..=1034 with zero elapsed correction.
    assert_eq!(clock.time_estimate, (1005 + 1034) / 2);
}

#[test]
fn samples_arriving_in_any_order_average_the_same_window() {
    // Three samples, delivered in two different orders with distinct receipt
    // times; the window holds all of them either way, and the mean over the
    // window is order-independent.
    let mut forward = PhysicsTimeEstimate::new();
    forward.receive_time_samples(&vec![sample(700, 10), sample(800, 20), sample(900, 30)]);
    forward.calculate_time_estimate(100);

    let mut shuffled = PhysicsTimeEstimate::new();
    shuffled.receive_time_samples(&vec![sample(900, 30), sample(700, 10), sample(800, 20)]);
    shuffled.calculate_time_estimate(100);

    assert_eq!(forward.time_estimate, shuffled.time_estimate);
    assert_eq!(forward.time_estimate, (790 + 880 + 970) / 3);
}
