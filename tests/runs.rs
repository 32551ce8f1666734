use ordered_sample::{
    mask_from_skips, positions_from_skips, Phase, SamplingAutomaton, SamplingConfig,
};
use rand::rngs::StdRng;
use rand::{Rng, SeedableRng};
use rand_distr::{Beta, Distribution};

/// Drives one run with real-valued draws; returns the skip counts.
fn run(rng: &mut StdRng, n: usize, population: usize, alpha: usize) -> Vec<usize> {
    let mut a = SamplingAutomaton::new(SamplingConfig { n, population, alpha }).unwrap();
    let mut skips = Vec::new();
    let mut u: f64 = 0.0;
    let mut x: f64 = 0.0;
    let mut y1: f64 = 0.0;
    while !a.is_done() {
        match a.phase() {
            Phase::SelectMethod => a.select_method(),
            Phase::ProposeCandidate => {
                u = rng.gen();
                let beta = Beta::new(1.0, a.to_select() as f64).unwrap();
                x = a.remaining() as f64 * beta.sample(rng);
                a.propose(x.floor() as usize);
            }
            Phase::FastAccept { candidate } => {
                let big_n = a.remaining() as f64;
                let qu1 = a.qu1() as f64;
                let exponent = 1.0 / (a.to_select() as f64 - 1.0);
                y1 = (u * big_n / qu1).powf(exponent);
                let vp = y1 * (1.0 - x / big_n) * (qu1 / (qu1 - candidate as f64));
                if let Some(s) = a.fast_accept(vp <= 1.0) {
                    skips.push(s);
                }
            }
            Phase::SlowAccept { .. } => {
                let r = a.product_range();
                let mut y2: f64 = 1.0;
                let mut top = r.top as f64;
                let mut bottom = r.bottom as f64;
                for _ in r.limit..=r.top {
                    y2 *= top / bottom;
                    top -= 1.0;
                    bottom -= 1.0;
                }
                let big_n = a.remaining() as f64;
                let exponent = 1.0 / (a.to_select() as f64 - 1.0);
                let accepted = 1.0 / (1.0 - x / big_n) >= y1 * y2.powf(exponent);
                if let Some(s) = a.slow_accept(accepted) {
                    skips.push(s);
                }
            }
            Phase::Direct { .. } => {
                let v: f64 = rng.gen();
                let mut quot = a.direct_top() as f64 / a.direct_remaining() as f64;
                while quot > v && a.direct_skip() {
                    quot *= a.direct_top() as f64 / a.direct_remaining() as f64;
                }
                skips.push(a.direct_select());
            }
            Phase::FinalDraw => {
                let v: f64 = rng.gen();
                let s = (a.remaining() as f64 * v).floor() as usize;
                if let Some(s) = a.final_draw(s) {
                    skips.push(s);
                }
            }
            Phase::Done => {}
        }
    }
    skips
}

#[test]
fn run_positions_are_increasing_and_inside() {
    let mut rng = StdRng::seed_from_u64(7);
    for &(n, big_n, alpha) in &[(5usize, 20usize, 1usize), (30, 1000, 13), (700, 29999, 13), (9, 10, 1)] {
        let skips = run(&mut rng, n, big_n, alpha);
        assert_eq!(skips.len(), n);
        let p = positions_from_skips(&skips, big_n);
        assert!(p.windows(2).all(|w| w[0] < w[1]));
        assert!(p.iter().all(|&q| q < big_n));
        let m = mask_from_skips(&skips, big_n);
        assert_eq!(m.iter().filter(|&&b| b).count(), n);
    }
}

#[test]
fn same_seed_same_sample() {
    let mut r1 = StdRng::seed_from_u64(42);
    let mut r2 = StdRng::seed_from_u64(42);
    assert_eq!(run(&mut r1, 40, 5000, 13), run(&mut r2, 40, 5000, 13));
    assert_eq!(run(&mut r1, 60, 100, 2), run(&mut r2, 60, 100, 2));
}

#[test]
fn empty_sample_draws_nothing() {
    let mut rng = StdRng::seed_from_u64(3);
    let mut untouched = StdRng::seed_from_u64(3);
    assert!(run(&mut rng, 0, 1000, 4).is_empty());
    assert_eq!(rng.gen::<u64>(), untouched.gen::<u64>());
}

#[test]
fn single_selection_is_uniform() {
    let mut rng = StdRng::seed_from_u64(11);
    let runs = 20000;
    let mut counts = [0usize; 10];
    for _ in 0..runs {
        let s = run(&mut rng, 1, 10, 1);
        assert_eq!(s.len(), 1);
        counts[s[0]] += 1;
    }
    for c in counts {
        let f = c as f64 / runs as f64;
        assert!((f - 0.1).abs() < 0.015, "frequency {}", f);
    }
}

#[test]
fn inclusion_frequency_matches_ratio() {
    let mut rng = StdRng::seed_from_u64(5);
    for &(n, big_n, alpha) in &[(5usize, 20usize, 1usize), (5, 20, 4), (8, 40, 2)] {
        let runs = 20000;
        let mut counts = vec![0usize; big_n];
        for _ in 0..runs {
            let skips = run(&mut rng, n, big_n, alpha);
            for p in positions_from_skips(&skips, big_n) {
                counts[p] += 1;
            }
        }
        let expected = n as f64 / big_n as f64;
        for c in counts {
            let f = c as f64 / runs as f64;
            assert!((f - expected).abs() < 0.02, "frequency {} for {:?}", f, (n, big_n, alpha));
        }
    }
}

#[test]
fn direct_path_only_when_rule_holds_at_start() {
    let mut rng = StdRng::seed_from_u64(9);
    for _ in 0..200 {
        let mut a = SamplingAutomaton::new(SamplingConfig { n: 60, population: 100, alpha: 2 }).unwrap();
        while !a.is_done() {
            match a.phase() {
                Phase::SelectMethod => a.select_method(),
                Phase::Direct { .. } => {
                    let v: f64 = rng.gen();
                    let mut quot = a.direct_top() as f64 / a.direct_remaining() as f64;
                    while quot > v && a.direct_skip() {
                        quot *= a.direct_top() as f64 / a.direct_remaining() as f64;
                    }
                    a.direct_select();
                }
                Phase::FinalDraw => {
                    let v: f64 = rng.gen();
                    a.final_draw((a.remaining() as f64 * v).floor() as usize);
                }
                other => panic!("rejection step {:?} reached", other),
            }
        }
        assert_eq!(a.rejection_selections(), 0);
        assert_eq!(a.direct_selections(), 59);
    }
}
