use fennec::tap::{Sensitivity, SlapGate, SLAP_COOLDOWN_NS};

/// Deviation of a sample from 1 g, as the helper computes it.
fn deviation(x: f64, y: f64, z: f64) -> f64 {
    ((x * x + y * y + z * z).sqrt() - 1.0).abs()
}

/// Feeds one sample through the verified gate with the threshold of `level`.
fn feed(gate: &mut SlapGate, level: Sensitivity, x: f64, y: f64, z: f64, now_ns: u64) -> bool {
    let threshold = level.threshold_milli_g() as f64 / 1000.0;
    gate.feed(deviation(x, y, z) > threshold, now_ns)
}

#[test]
fn quiet_no_trigger() {
    let level = Sensitivity::from_name("medium");
    let mut d = SlapGate::new(0);
    assert!(!feed(&mut d, level, 0.0, 0.0, 1.0, 1_000));
    assert!(!feed(&mut d, level, 0.01, 0.02, 0.99, 2_000));
}

#[test]
fn light_tap_no_trigger() {
    let level = Sensitivity::from_name("medium");
    let mut d = SlapGate::new(0);
    // 0.06g deviation: a typical light tap
    assert!(!feed(&mut d, level, 0.0, 0.0, 1.06, 1_000));
}

#[test]
fn slap_triggers() {
    let level = Sensitivity::from_name("medium");
    let mut d = SlapGate::new(0);
    // 0.5g deviation: a typical slap
    assert!(feed(&mut d, level, 0.0, 0.0, 1.5, 1_000));
}

#[test]
fn cooldown_blocks_rapid() {
    let level = Sensitivity::from_name("medium");
    let mut d = SlapGate::new(0);
    assert!(feed(&mut d, level, 0.0, 0.0, 1.5, 1_000));
    // Immediate second slap blocked
    assert!(!feed(&mut d, level, 0.0, 0.0, 1.5, 2_000));
}

#[test]
fn slap_after_cooldown_triggers_again() {
    let mut d = SlapGate::new(5);
    assert!(d.feed(true, 10));
    assert!(!d.feed(true, 10 + SLAP_COOLDOWN_NS));
    assert!(d.feed(true, 11 + SLAP_COOLDOWN_NS));
}

#[test]
fn quiet_samples_leave_cooldown_running() {
    let mut d = SlapGate::new(0);
    assert!(d.feed(true, 100));
    assert!(!d.feed(false, 100 + 3 * SLAP_COOLDOWN_NS));
    assert!(!d.feed(true, 100 + SLAP_COOLDOWN_NS / 2));
    assert!(d.feed(true, 101 + SLAP_COOLDOWN_NS));
}

#[test]
fn clock_going_back_counts_as_no_time() {
    let mut d = SlapGate::new(20_000_000_000);
    assert!(d.feed(true, 20_000_000_000));
    assert!(!d.feed(true, 0));
}

#[test]
fn sensitivity_thresholds() {
    assert_eq!(Sensitivity::from_name("low"), Sensitivity::Low);
    assert_eq!(Sensitivity::from_name("high"), Sensitivity::High);
    assert_eq!(Sensitivity::from_name("medium"), Sensitivity::Medium);
    assert_eq!(Sensitivity::from_name("loud"), Sensitivity::Medium);
    assert_eq!(Sensitivity::Low.threshold_milli_g() as f64 / 1000.0, 0.30);
    assert_eq!(Sensitivity::Medium.threshold_milli_g() as f64 / 1000.0, 0.20);
    assert_eq!(Sensitivity::High.threshold_milli_g() as f64 / 1000.0, 0.12);
}

#[test]
fn high_sensitivity_catches_lighter_slaps() {
    let mut d = SlapGate::new(0);
    // 0.15g: a slap for "high", not for "medium"
    assert!(!feed(&mut d, Sensitivity::Medium, 0.0, 0.0, 1.15, 1));
    assert!(feed(&mut d, Sensitivity::High, 0.0, 0.0, 1.15, 2));
}
