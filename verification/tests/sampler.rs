use rand::SeedableRng;
use rand::rngs::StdRng;

use waymark::config::SamplerConfig;
use waymark::message::RetrievedMessage;
use waymark::visibility::admission_ratio;
use waymark::visibility::filter_messages;

fn config() -> SamplerConfig {
    SamplerConfig {
        distance_sq_threshold: 100,
        staleness_minutes: 35,
        vote_threshold_hide: 0,
        sparsity_cutoff: 2,
        cap_numerator: 4,
        cap_denominator: 5,
    }
}

fn candidate(id: u128, user: i64, x: i32) -> RetrievedMessage {
    RetrievedMessage {
        id,
        x,
        y: 0,
        z: 0,
        yaw: 0,
        message: format!("message {id}"),
        positive_votes: 0,
        negative_votes: 0,
        user_vote: 0,
        glyph: 3,
        created_minutes: 0,
        user,
        last_seen_minutes: 0,
    }
}

const NOW: i64 = 100_000;

#[test]
fn own_messages_are_always_included() {
    for seed in 0..32u64 {
        let mut rng = StdRng::seed_from_u64(seed);
        let mut batch = Vec::new();
        for i in 0..8 {
            // all stacked on one spot so clusters are dense
            let mut m = candidate(i as u128, if i % 2 == 0 { 1 } else { 2 }, 0);
            // own messages are exempt even from the staleness pre-filter
            if i % 2 == 0 {
                m.last_seen_minutes = 60;
            }
            batch.push(m);
        }
        let visible = filter_messages(batch, 1, NOW, &config(), &mut rng);
        for i in (0..8).step_by(2) {
            assert!(visible.iter().any(|m| m.id == i as u128), "own message {i} missing (seed {seed})");
        }
    }
}

#[test]
fn sparse_clusters_are_never_thinned() {
    for seed in 0..32u64 {
        let mut rng = StdRng::seed_from_u64(seed);
        // three co-located candidates: each sees two neighbours, within the cutoff
        let batch = vec![candidate(1, 10, 0), candidate(2, 11, 3), candidate(3, 12, 6)];
        let visible = filter_messages(batch, 99, NOW, &config(), &mut rng);
        assert_eq!(visible.len(), 3, "sparse cluster thinned (seed {seed})");
    }
}

#[test]
fn far_apart_candidates_are_all_included() {
    let mut rng = StdRng::seed_from_u64(5);
    let batch: Vec<_> = (0..6).map(|i| candidate(i as u128, 10 + i, i as i32 * 100)).collect();
    let visible = filter_messages(batch, 99, NOW, &config(), &mut rng);
    assert_eq!(visible.len(), 6);
}

#[test]
fn prefiltered_candidates_never_appear() {
    for seed in 0..32u64 {
        let mut rng = StdRng::seed_from_u64(seed);
        let mut stale = candidate(1, 10, 0);
        stale.last_seen_minutes = 35;
        let mut downvoted = candidate(2, 11, 200);
        downvoted.negative_votes = 1;
        let fine = candidate(3, 12, 400);
        let visible = filter_messages(vec![stale, downvoted, fine], 99, NOW, &config(), &mut rng);
        assert!(visible.iter().all(|m| m.id != 1), "stale candidate shown (seed {seed})");
        assert!(visible.iter().all(|m| m.id != 2), "downvoted candidate shown (seed {seed})");
        assert!(visible.iter().any(|m| m.id == 3));
    }
}

#[test]
fn extreme_coordinates_are_handled() {
    let mut rng = StdRng::seed_from_u64(9);
    let mut far_low = candidate(1, 10, i32::MIN);
    far_low.y = i32::MIN;
    far_low.z = i32::MIN;
    let mut far_high = candidate(2, 11, i32::MAX);
    far_high.y = i32::MAX;
    far_high.z = i32::MAX;
    let visible = filter_messages(vec![far_low, far_high], 99, NOW, &config(), &mut rng);
    assert_eq!(visible.len(), 2);
}

#[test]
fn empty_batch_yields_empty_result() {
    let mut rng = StdRng::seed_from_u64(0);
    let visible = filter_messages(Vec::new(), 1, NOW, &config(), &mut rng);
    assert!(visible.is_empty());
}

#[test]
fn fixed_seed_reproduces_the_same_subset() {
    let batch = || -> Vec<RetrievedMessage> {
        (0..12).map(|i| candidate(i as u128, 10 + i, (i as i32 % 3) * 4)).collect()
    };
    for seed in 0..16u64 {
        let mut rng_a = StdRng::seed_from_u64(seed);
        let mut rng_b = StdRng::seed_from_u64(seed);
        let mut ids_a: Vec<u128> =
            filter_messages(batch(), 99, NOW, &config(), &mut rng_a).iter().map(|m| m.id).collect();
        let mut ids_b: Vec<u128> =
            filter_messages(batch(), 99, NOW, &config(), &mut rng_b).iter().map(|m| m.id).collect();
        ids_a.sort();
        ids_b.sort();
        assert_eq!(ids_a, ids_b, "seed {seed} not reproducible");
    }
}

#[test]
fn established_zero_score_cluster_ratio_is_one_in_eight() {
    let m = candidate(1, 10, 0);
    let (num, den) = admission_ratio(&m, NOW, 4, &config());
    assert_eq!((num, den), (1, 8));
}

#[test]
fn brand_new_candidate_ratio_is_capped() {
    let mut m = candidate(1, 10, 0);
    m.created_minutes = NOW - 10;
    // brand new: numerator is the cluster size, 4/8 over the 4/5 cap? no: 4*5 <= 8*4
    let (num, den) = admission_ratio(&m, NOW, 4, &config());
    assert_eq!((num, den), (4, 8));
    // a big vote bonus runs into the cap
    m.positive_votes = 100;
    let (num, den) = admission_ratio(&m, NOW, 4, &config());
    assert_eq!((num, den), (4, 5));
}

#[test]
fn new_candidate_gets_a_small_bump() {
    let mut m = candidate(1, 10, 0);
    m.created_minutes = NOW - 60;
    let (num, den) = admission_ratio(&m, NOW, 4, &config());
    assert_eq!((num, den), (2, 8));
}

#[test]
fn vote_bonus_raises_the_numerator() {
    let mut m = candidate(1, 10, 0);
    m.positive_votes = 9;
    // established, nearby 4: 1 + max(9 / 4, 4 / 2) = 3
    let (num, den) = admission_ratio(&m, NOW, 4, &config());
    assert_eq!((num, den), (3, 8));
}

#[test]
fn dense_established_cluster_thins_to_about_an_eighth() {
    // five mutually co-located, zero-score, established candidates: each has
    // four neighbours, so each is admitted with probability 1/8
    let total_trials = 2000u64;
    let mut shown = 0usize;
    for seed in 0..total_trials {
        let mut rng = StdRng::seed_from_u64(seed);
        let batch: Vec<_> = (0..5).map(|i| candidate(i as u128, 10 + i, i as i32)).collect();
        let visible = filter_messages(batch, 99, NOW, &config(), &mut rng);
        shown += visible.len();
    }
    let rate = shown as f64 / (5.0 * total_trials as f64);
    assert!(rate > 0.10 && rate < 0.15, "inclusion rate {rate} far from 1/8");
}
