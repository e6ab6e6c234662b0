use world_grid::Random;

/// Probability zero always yields false and probability one always yields
/// true, on every one of 10,000 trials.
#[test]
fn next_bool_zero_and_one_are_exact() {
    let mut rand = Random::new();
    for _ in 0..10_000 {
        assert!(!rand.next_bool(0, 1000));
        assert!(rand.next_bool(1000, 1000));
    }
}

/// Two streams seeded identically, each forked the same number of times in
/// the same order, produce pairwise-identical draws from corresponding
/// forks.
#[test]
fn identically_seeded_forks_draw_identically() {
    let mut a = Random::from_seed(0x5eed);
    let mut b = Random::from_seed(0x5eed);
    let mut forks_a = Vec::new();
    let mut forks_b = Vec::new();
    for _ in 0..6 {
        forks_a.push(a.fork());
        forks_b.push(b.fork());
    }
    for (fa, fb) in forks_a.iter_mut().zip(forks_b.iter_mut()) {
        for _ in 0..100 {
            assert_eq!(fa.next_in_range(0, 1_000_000), fb.next_in_range(0, 1_000_000));
            assert_eq!(fa.next_bool(1, 2), fb.next_bool(1, 2));
        }
    }
    for _ in 0..100 {
        assert_eq!(a.next_in_range(0, 1_000_000), b.next_in_range(0, 1_000_000));
    }
}

/// Forking advances the parent: successive forks of one stream do not
/// produce identical draw sequences.
#[test]
fn successive_forks_differ() {
    let mut parent = Random::from_seed(7);
    let mut first = parent.fork();
    let mut second = parent.fork();
    let a: Vec<u32> = (0..32).map(|_| first.next_in_range(0, 1 << 30)).collect();
    let b: Vec<u32> = (0..32).map(|_| second.next_in_range(0, 1 << 30)).collect();
    assert_ne!(a, b);
}

#[test]
fn next_in_range_stays_in_range() {
    let mut rand = Random::from_seed(99);
    for _ in 0..1000 {
        let v = rand.next_in_range(10, 20);
        assert!((10..20).contains(&v));
    }
    for _ in 0..100 {
        assert_eq!(rand.next_in_range(5, 6), 5);
    }
}

#[test]
fn next_in_range_inclusive_reaches_both_bounds() {
    let mut rand = Random::from_seed(101);
    let mut low_seen = false;
    let mut high_seen = false;
    for _ in 0..1000 {
        let v = rand.next_in_range_inclusive(3, 6);
        assert!((3..=6).contains(&v));
        low_seen = low_seen || v == 3;
        high_seen = high_seen || v == 6;
    }
    assert!(low_seen && high_seen, "a closed range draw reaches both bounds");
    assert_eq!(rand.next_in_range_inclusive(9, 9), 9);
}

#[test]
fn next_normal_stays_within_six_spreads() {
    let mut rand = Random::from_seed(3);
    for _ in 0..1000 {
        let v = rand.next_normal(1000, 50);
        assert!(v >= 1000 - 300 && v <= 1000 + 300);
        assert_eq!(rand.next_normal(-25, 0), -25);
    }
}

#[test]
fn next_truncated_normal_honors_bounds() {
    let mut rand = Random::from_seed(4);
    for _ in 0..1000 {
        let v = rand.next_truncated_normal(500_000, 100_000, 400_000, 600_000);
        assert!((400_000..=600_000).contains(&v));
        assert_eq!(rand.next_truncated_normal(77, 1000, 42, 42), 42);
    }
}

#[test]
fn shuffle_keeps_the_same_channels() {
    let mut rand = Random::from_seed(5);
    for _ in 0..200 {
        let shuffled = rand.shuffle_color_rgb([9, 120, 201]);
        let mut sorted = shuffled.to_vec();
        sorted.sort();
        assert_eq!(sorted, vec![9, 120, 201]);
    }
}

#[test]
fn multi_fork_option_forks_one_stream_per_row() {
    let mut rand = Some(Random::from_seed(6));
    let forks = Random::multi_fork_option(&mut rand, 5);
    assert_eq!(forks.len(), 5);
    assert!(forks.iter().all(|f| f.is_some()));
    assert!(rand.is_some());

    let mut absent: Option<Random> = None;
    let forks = Random::multi_fork_option(&mut absent, 4);
    assert_eq!(forks.len(), 4);
    assert!(forks.iter().all(|f| f.is_none()));
    assert!(absent.is_none());
}

/// The per-row fan-out is itself deterministic: the same seed gives the
/// same per-row streams.
#[test]
fn multi_fork_option_is_deterministic() {
    let mut a = Some(Random::from_seed(11));
    let mut b = Some(Random::from_seed(11));
    let mut forks_a = Random::multi_fork_option(&mut a, 3);
    let mut forks_b = Random::multi_fork_option(&mut b, 3);
    for (fa, fb) in forks_a.iter_mut().zip(forks_b.iter_mut()) {
        let fa = fa.as_mut().unwrap();
        let fb = fb.as_mut().unwrap();
        for _ in 0..50 {
            assert_eq!(fa.next_in_range(0, 1 << 20), fb.next_in_range(0, 1 << 20));
        }
    }
}
