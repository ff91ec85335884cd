//! Nucleus filter and draws.
use larql::attention::dsv4_sampling::{dsv4_sample_token, dsv4_topp_filter, TopKEntry};
use rand::rngs::StdRng;
use rand::{Rng, SeedableRng};

fn entry(token_id: u32, logit: f32, probability: f32) -> TopKEntry {
    TopKEntry {
        token_id,
        logit: logit.to_bits(),
        probability: probability.to_bits(),
    }
}

fn sums(entries: &[TopKEntry]) -> Vec<u32> {
    let mut acc = 0.0f32;
    let mut out = Vec::new();
    for e in entries {
        acc += f32::from_bits(e.probability);
        out.push(acc.to_bits());
    }
    out
}

fn topp(entries: &[TopKEntry], p: f32) -> Vec<TopKEntry> {
    dsv4_topp_filter(entries, &sums(entries), p.to_bits())
}

fn sample(entries: &[TopKEntry], rng: &mut StdRng) -> u32 {
    let total: f32 = entries.iter().map(|e| f32::from_bits(e.probability)).sum();
    let u: f32 = rng.gen_range(0.0_f32..total);
    dsv4_sample_token(entries, &sums(entries), u.to_bits())
}

fn three() -> Vec<TopKEntry> {
    vec![entry(0, 10.0, 0.6), entry(1, 9.0, 0.3), entry(2, 8.0, 0.1)]
}

#[test]
fn topp_p_one_returns_all() {
    assert_eq!(topp(&three(), 1.0).len(), 3);
}

#[test]
fn topp_stops_at_cumulative_p() {
    let entries = three();
    assert_eq!(topp(&entries, 0.5).len(), 1);
    assert_eq!(topp(&entries, 0.7).len(), 2);
    assert_eq!(topp(&entries, 0.95).len(), 3);
}

#[test]
fn topp_always_keeps_at_least_one() {
    let entries = vec![entry(7, 1.0, 0.4)];
    let filtered = topp(&entries, 0.01);
    assert_eq!(filtered.len(), 1);
    assert_eq!(filtered[0].token_id, 7);
}

#[test]
fn sample_with_seeded_rng_is_deterministic() {
    let entries = vec![entry(100, 5.0, 0.5), entry(200, 4.5, 0.3), entry(300, 4.0, 0.2)];
    let mut rng_a = StdRng::seed_from_u64(42);
    let mut rng_b = StdRng::seed_from_u64(42);
    let a = sample(&entries, &mut rng_a);
    let b = sample(&entries, &mut rng_b);
    assert_eq!(a, b, "same seed, same sample");
}

#[test]
fn sample_respects_probability_distribution() {
    let entries = vec![entry(1, 10.0, 0.99), entry(2, 5.0, 0.005), entry(3, 5.0, 0.005)];
    let mut rng = StdRng::seed_from_u64(0xc0ffee);
    let mut hits = 0_u32;
    let trials = 10_000;
    for _ in 0..trials {
        if sample(&entries, &mut rng) == 1 {
            hits += 1;
        }
    }
    let ratio = hits as f32 / trials as f32;
    assert!((ratio - 0.99).abs() < 0.01, "sampled ratio {ratio} too far from 0.99");
}

#[test]
fn sample_single_entry_returns_it() {
    let entries = vec![entry(42, 1.0, 1.0)];
    let mut rng = StdRng::seed_from_u64(123);
    for _ in 0..16 {
        assert_eq!(sample(&entries, &mut rng), 42);
    }
}

#[test]
fn a_draw_takes_the_first_entry_above_it() {
    let entries = three();
    let cum = sums(&entries);
    assert_eq!(dsv4_sample_token(&entries, &cum, 0.0f32.to_bits()), 0);
    assert_eq!(dsv4_sample_token(&entries, &cum, 0.6f32.to_bits()), 1);
    assert_eq!(dsv4_sample_token(&entries, &cum, 0.95f32.to_bits()), 2);
}

#[test]
fn a_draw_above_every_sum_takes_the_last_entry() {
    let entries = three();
    assert_eq!(dsv4_sample_token(&entries, &sums(&entries), 2.0f32.to_bits()), 2);
}
