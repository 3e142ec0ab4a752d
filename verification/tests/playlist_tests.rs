use photoframe::events::{CreatedSource, PhotoInfo};
use photoframe::playlist::{simulate_playlist, GapSampler, PlaylistState};
use rand::rngs::StdRng;
use rand::{Rng, SeedableRng};
use std::cell::{Cell, RefCell};
use std::collections::HashMap;

const SEC: u64 = 1_000_000_000;
const DAY: u64 = 86_400 * SEC;
/// Timestamps count from the UNIX epoch and cannot go below it; the clock is
/// set a year later so that photos a month older than "now" still fit. Only
/// ages matter to the weighting.
const EPOCH_SHIFT: u64 = 365 * DAY;

#[derive(Clone, Copy, PartialEq)]
enum Order {
    WeightedRandom,
    WeightedSpread,
}

#[derive(Clone, Copy)]
struct Options {
    new_multiplicity: u32,
    half_life_ns: u64,
    order: Order,
    min_spacing: f64,
}

impl Default for Options {
    fn default() -> Self {
        Options { new_multiplicity: 3, half_life_ns: DAY, order: Order::WeightedRandom, min_spacing: 0.5 }
    }
}

impl Options {
    fn refractory_fraction(&self) -> f64 {
        match self.order {
            Order::WeightedRandom => 0.0,
            Order::WeightedSpread => self.min_spacing.clamp(0.0, 0.95),
        }
    }

    fn weight_for(&self, created_at: u64, now: u64) -> f64 {
        let age = now.saturating_sub(created_at) as f64;
        let half_life = self.half_life_ns.max(SEC) as f64;
        let base = f64::from(self.new_multiplicity.max(1));
        (base * 0.5_f64.powf(age / half_life)).max(1.0)
    }
}

/// Gaps with mean `1/weight` (in units of 10^9 ticks): a refractory floor plus
/// exponential jitter, drawn from a seeded generator.
struct SeededSampler {
    rng: RefCell<StdRng>,
    options: Options,
    now: u64,
}

impl GapSampler for SeededSampler {
    fn sample_gap(&self, created_at: u64) -> u64 {
        let weight = self.options.weight_for(created_at, self.now);
        let mean = 1.0 / weight.max(1.0);
        let f = self.options.refractory_fraction();
        let u = 1.0 - self.rng.borrow_mut().random::<f64>();
        let gap = f * mean + (1.0 - f) * mean * (-u.ln());
        (gap * 1e9).round() as u64
    }
}

fn photo_info(path: &str, created_at: u64) -> PhotoInfo {
    PhotoInfo { path: path.to_string(), created_at, created_source: CreatedSource::Birthtime, runtime_added: false }
}

fn simulate(photos: Vec<PhotoInfo>, options: Options, now: u64, iterations: usize, seed: u64) -> Vec<String> {
    let sampler = SeededSampler { rng: RefCell::new(StdRng::seed_from_u64(seed)), options, now };
    simulate_playlist(photos, sampler, iterations)
}

#[test]
fn simulate_playlist_respects_seed_and_weights() {
    let options = Options { new_multiplicity: 3, half_life_ns: DAY, ..Default::default() };
    let now = EPOCH_SHIFT + 1_000_000 * SEC;
    let fresh_path = "fresh.jpg".to_string();
    let old_paths: Vec<String> = (0..3).map(|i| format!("old_{i}.jpg")).collect();
    let mut photos = vec![photo_info(&fresh_path, now - 3_600 * SEC)];
    for p in &old_paths {
        photos.push(photo_info(p, now - 30 * DAY));
    }
    let plan = simulate(photos.clone(), options, now, 60, 42);
    assert!(plan.len() >= 30, "expected a full plan");
    let fresh_count = plan.iter().filter(|p| **p == fresh_path).count();
    for p in &old_paths {
        let old_count = plan.iter().filter(|q| *q == p).count();
        assert!(fresh_count > old_count, "fresh photo should repeat more often ({fresh_count} vs {old_count})");
    }
    let plan_again = simulate(photos, options, now, 60, 42);
    assert_eq!(plan, plan_again, "seeded runs should be deterministic");
}

#[test]
fn simulate_playlist_has_no_back_to_back_repeats() {
    let options = Options { new_multiplicity: 3, half_life_ns: DAY, ..Default::default() };
    let now = EPOCH_SHIFT + 1_000_000 * SEC;
    let photos: Vec<PhotoInfo> = (0..3).map(|i| photo_info(&format!("p_{i}.jpg"), now)).collect();
    for seed in [1u64, 7, 42, 1000] {
        let plan = simulate(photos.clone(), options, now, 60, seed);
        for pair in plan.windows(2) {
            assert_ne!(pair[0], pair[1], "no photo should appear twice in a row (seed {seed})");
        }
    }
}

fn recurrence_gaps(plan: &[String]) -> Vec<f64> {
    let mut last: HashMap<&String, usize> = HashMap::new();
    let mut gaps = Vec::new();
    for (i, p) in plan.iter().enumerate() {
        if let Some(prev) = last.insert(p, i) {
            gaps.push((i - prev) as f64);
        }
    }
    gaps
}

fn mean_std(xs: &[f64]) -> (f64, f64) {
    let n = xs.len() as f64;
    let mean = xs.iter().sum::<f64>() / n;
    let var = xs.iter().map(|x| (x - mean).powi(2)).sum::<f64>() / n;
    (mean, var.sqrt())
}

#[test]
fn weighted_spread_with_zero_min_spacing_matches_weighted_random() {
    let now = EPOCH_SHIFT + 1_000_000 * SEC;
    let old = now - 30 * DAY;
    let photos: Vec<PhotoInfo> = (0..20).map(|i| photo_info(&format!("p_{i}.jpg"), old)).collect();
    let random = Options { order: Order::WeightedRandom, ..Default::default() };
    let spread0 = Options { order: Order::WeightedSpread, min_spacing: 0.0, ..Default::default() };
    let a = simulate(photos.clone(), random, now, 200, 99);
    let b = simulate(photos, spread0, now, 200, 99);
    assert_eq!(a, b, "weighted-spread@0.0 must equal weighted-random");
}

#[test]
fn weighted_spread_enforces_minimum_gap_and_tightens_spread() {
    let n = 50usize;
    let now = EPOCH_SHIFT + 10_000_000 * SEC;
    let old = now - 30 * DAY;
    let photos: Vec<PhotoInfo> = (0..n).map(|i| photo_info(&format!("p_{i}.jpg"), old)).collect();
    let f = 0.8;
    let random = Options { order: Order::WeightedRandom, ..Default::default() };
    let spread = Options { order: Order::WeightedSpread, min_spacing: f, ..Default::default() };
    let rgaps = recurrence_gaps(&simulate(photos.clone(), random, now, 3000, 7));
    let sgaps = recurrence_gaps(&simulate(photos, spread, now, 3000, 7));
    let (rmean, rstd) = mean_std(&rgaps);
    let (smean, sstd) = mean_std(&sgaps);
    assert!((rmean - smean).abs() < 0.15 * rmean, "mean gap should be preserved: {rmean:.1} vs {smean:.1}");
    assert!(sstd < 0.7 * rstd, "weighted-spread should tighten gap spread: {rstd:.1} vs {sstd:.1}");
    let floor = f * n as f64;
    let min_gap = sgaps.iter().cloned().fold(f64::INFINITY, f64::min);
    let random_min = rgaps.iter().cloned().fold(f64::INFINITY, f64::min);
    assert!(min_gap >= 0.6 * floor, "refractory floor: min gap {min_gap} vs ~{floor}");
    assert!(random_min < 0.6 * floor, "sanity: weighted-random should produce short gaps (min {random_min})");
}

#[test]
fn simulate_playlist_single_photo_repeats() {
    let now = EPOCH_SHIFT + 1_000_000 * SEC;
    let plan = simulate(vec![photo_info("only.jpg", now)], Options::default(), now, 5, 1);
    assert_eq!(plan.len(), 5);
    assert!(plan.iter().all(|p| p == "only.jpg"), "the sole photo must keep showing");
}

#[test]
fn bulk_import_does_not_starve_old_photos() {
    let now = EPOCH_SHIFT + 10_000_000 * SEC;
    let options = Options { new_multiplicity: 3, half_life_ns: DAY, ..Default::default() };
    let old_paths: Vec<String> = (0..10).map(|i| format!("old_{i}.jpg")).collect();
    let mut photos: Vec<PhotoInfo> = (0..50).map(|i| photo_info(&format!("new_{i}.jpg"), now)).collect();
    for p in &old_paths {
        photos.push(photo_info(p, now - 30 * DAY));
    }
    let plan = simulate(photos, options, now, 100, 7);
    assert!(plan[..50].iter().any(|p| old_paths.contains(p)), "old photos should appear within the first 50 entries");
}

#[test]
fn empty_library_gives_empty_plan() {
    let plan = simulate(Vec::new(), Options::default(), 0, 10, 3);
    assert!(plan.is_empty());
}

struct FixedGaps(Vec<u64>, Cell<usize>);

impl GapSampler for FixedGaps {
    fn sample_gap(&self, _created_at: u64) -> u64 {
        let i = self.1.get();
        self.1.set(i + 1);
        self.0[i % self.0.len()]
    }
}

#[test]
fn removed_photo_is_skipped_and_returns_when_added_again() {
    let mut state = PlaylistState::with_sampler(FixedGaps(vec![10, 20, 30], Cell::new(0)));
    state.record_add(photo_info("a.jpg", 0));
    state.record_add(photo_info("b.jpg", 0));
    state.record_add(photo_info("c.jpg", 0));
    assert_eq!(state.inventory_len(), 3);
    let (first, priority) = state.peek_next().expect("front");
    assert_eq!(first, "a.jpg");
    assert!(priority, "a photo is a priority until first shown");
    state.record_remove("a.jpg");
    assert_eq!(state.inventory_len(), 2);
    let (next, _) = state.peek_next().expect("front after removal");
    assert_eq!(next, "b.jpg");
    state.commit_shown();
    state.record_add(photo_info("a.jpg", 0));
    assert_eq!(state.inventory_len(), 3);
    assert_eq!(state.created_source("a.jpg"), Some(CreatedSource::Birthtime));
    let mut seen = Vec::new();
    for _ in 0..6 {
        let (p, _) = state.peek_next().expect("front");
        seen.push(p);
        state.commit_shown();
    }
    assert!(seen.iter().any(|p| p == "a.jpg"), "re-added photo must come back");
    for pair in seen.windows(2) {
        assert_ne!(pair[0], pair[1]);
    }
}
