use clip_sync::debounce::detect_kill_events;

fn samples_at_rate(positive: impl Fn(u64) -> bool, count: u64) -> Vec<(u64, bool)> {
    (0..count).map(|k| {
        let t = k * 1000 / 3;
        (t, positive(t))
    }).collect()
}

#[test]
fn sustained_run_emits_once() {
    let samples: Vec<(u64, bool)> = (0..50).map(|k| (5000 + k * 333, true)).collect();
    assert_eq!(detect_kill_events(0, 0, &samples), vec![5000]);
    assert_eq!(detect_kill_events(60_000, 0, &samples), vec![65_000]);
}

#[test]
fn half_second_banner_emits_at_its_start() {
    let samples = samples_at_rate(|t| (2000..=2500).contains(&t), 16);
    assert_eq!(detect_kill_events(0, 0, &samples), vec![2000]);
}

#[test]
fn empty_input_yields_nothing() {
    assert_eq!(detect_kill_events(40_000, 0, &vec![]), Vec::<u64>::new());
}

#[test]
fn all_negative_yields_nothing() {
    let samples = samples_at_rate(|_| false, 30);
    assert_eq!(detect_kill_events(0, 0, &samples), Vec::<u64>::new());
}

#[test]
fn cooldown_rearms_after_seven_quiet_samples() {
    let mut samples = vec![(0, true)];
    samples.extend((1..=7).map(|k| (k * 100, false)));
    samples.push((800, true));
    assert_eq!(detect_kill_events(0, 0, &samples), vec![0, 800]);
}

#[test]
fn cooldown_holds_after_six_quiet_samples() {
    let mut samples = vec![(0, true)];
    samples.extend((1..=6).map(|k| (k * 100, false)));
    samples.push((700, true));
    samples.push((800, true));
    assert_eq!(detect_kill_events(0, 0, &samples), vec![0]);
}

#[test]
fn stricter_threshold_drops_single_samples() {
    let samples = vec![(0, true), (100, false), (200, true), (300, true), (400, false)];
    assert_eq!(detect_kill_events(0, 0, &samples), vec![0]);
    assert_eq!(detect_kill_events(1000, 1, &samples), vec![1200]);
    assert_eq!(detect_kill_events(0, 2, &samples), Vec::<u64>::new());
}

#[test]
fn negative_threshold_confirms_at_once() {
    let samples = vec![(10, true), (20, false)];
    assert_eq!(detect_kill_events(0, -3, &samples), vec![10]);
}

#[test]
fn two_banners_give_two_events() {
    let samples = samples_at_rate(|t| (1000..1700).contains(&t) || (6000..7000).contains(&t), 40);
    assert_eq!(detect_kill_events(100, 0, &samples), vec![1100, 6100]);
}
