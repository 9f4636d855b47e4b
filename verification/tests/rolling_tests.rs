use wasabi_speedtest_curl::rolling::{DeviationLevel, RollingStats, MAX_CAPACITY};

#[test]
fn not_ready_until_ten_samples() {
    let mut r = RollingStats::new(100);
    for i in 0..10u64 {
        assert!(!r.is_ready());
        assert_eq!(r.classify(if i % 2 == 0 { 1 } else { 1_000_000 }), DeviationLevel::Normal);
    }
    assert!(r.is_ready());
}

#[test]
fn ratings_by_sigma() {
    // Window: five 90s and five 110s -> mean 100, sample sd = sqrt(1000/9) ~ 10.54.
    let fill = |r: &mut RollingStats| {
        for i in 0..10 {
            r.classify(if i < 5 { 90 } else { 110 });
        }
    };
    let cases = [
        (100u64, DeviationLevel::Normal),
        (110, DeviationLevel::Normal),
        (111, DeviationLevel::Elevated),
        (121, DeviationLevel::Elevated),
        (122, DeviationLevel::High),
        (131, DeviationLevel::High),
        (132, DeviationLevel::Outlier),
        (0, DeviationLevel::Normal),
    ];
    for (v, want) in cases {
        let mut r = RollingStats::new(100);
        fill(&mut r);
        assert_eq!(r.classify(v), want, "value {v}");
    }
}

#[test]
fn constant_window_rates_normal() {
    let mut r = RollingStats::new(20);
    for _ in 0..10 {
        r.classify(50);
    }
    assert_eq!(r.classify(u64::MAX), DeviationLevel::Normal);
}

#[test]
fn window_keeps_most_recent_samples() {
    let mut r = RollingStats::new(3);
    for v in 1..=5u64 {
        r.classify(v);
    }
    assert_eq!(r.samples(), vec![3, 4, 5]);
    let mut z = RollingStats::new(0);
    z.classify(7);
    z.classify(8);
    assert_eq!(z.samples(), vec![8]);
}

#[test]
fn level_labels() {
    assert_eq!(DeviationLevel::Normal.label(), "NORMAL");
    assert_eq!(DeviationLevel::Elevated.label(), "ELEVATED");
    assert_eq!(DeviationLevel::High.label(), "HIGH");
    assert_eq!(DeviationLevel::Outlier.label(), "OUTLIER");
}

#[test]
fn large_samples_do_not_overflow() {
    let mut r = RollingStats::new(1 << 20);
    for i in 0..20u64 {
        r.classify(if i % 2 == 0 { u64::MAX } else { 0 });
    }
    assert_eq!(r.classify(u64::MAX), DeviationLevel::Normal);
    assert_eq!(r.classify(0), DeviationLevel::Normal);
}

#[test]
fn larger_samples_never_rate_lower() {
    let rank = |l: DeviationLevel| match l {
        DeviationLevel::Normal => 0,
        DeviationLevel::Elevated => 1,
        DeviationLevel::High => 2,
        DeviationLevel::Outlier => 3,
    };
    let mut last = 0;
    for v in (0..200u64).step_by(3) {
        let mut r = RollingStats::new(100);
        for i in 0..12u64 {
            r.classify(90 + (i % 5) * 5);
        }
        let k = rank(r.classify(v));
        assert!(k >= last);
        last = k;
    }
    assert_eq!(last, 3);
}

#[test]
fn indicator_arrows_and_samples() {
    assert_eq!(DeviationLevel::Normal.arrows(), "");
    assert_eq!(DeviationLevel::Elevated.arrows(), "↑");
    assert_eq!(DeviationLevel::High.arrows(), "↑↑");
    assert_eq!(DeviationLevel::Outlier.arrows(), "↑↑↑");
    assert_eq!(MAX_CAPACITY, 1u64 << 40);
}

#[test]
fn nanosecond_samples_rate_exactly() {
    // Ten samples alternating 1_000_000_000 and 1_000_000_002 ns: mean 1_000_000_001,
    // sample sd sqrt(10/9); one nanosecond above the mean is within 1 sigma,
    // two nanoseconds above is beyond it.
    let fill = |r: &mut RollingStats| {
        for i in 0..10u64 {
            r.classify(1_000_000_000 + 2 * (i % 2));
        }
    };
    let mut r = RollingStats::new(100);
    fill(&mut r);
    assert_eq!(r.classify(1_000_000_002), DeviationLevel::Normal);
    let mut r = RollingStats::new(100);
    fill(&mut r);
    assert_eq!(r.classify(1_000_000_003), DeviationLevel::Elevated);
}
