use drysua::league::{
    parameter_fingerprint, CrossPlayProfile, League, LeagueError, LeagueEvaluation,
    LeagueExploitAudit, LeagueMatchResult, LeagueOpponentKind, LeaguePairedResult,
    LeaguePromotionDecision, LeagueSampler, PolicySnapshot, ProfileDistances,
};

fn snapshot(value: f32, generation: u64) -> PolicySnapshot {
    PolicySnapshot::from_parameters(
        vec![value.to_bits(), 0, 0, 0],
        generation,
        4,
        Some(generation + 1),
    )
    .expect("snapshot")
}

fn distances(count: usize) -> ProfileDistances {
    ProfileDistances { between: vec![vec![0; count]; count], incoming: vec![0; count] }
}

fn pairs(first: u64, count: u64, radiant: LeagueMatchResult) -> Vec<LeaguePairedResult> {
    (first..first + count)
        .map(|seed| LeaguePairedResult {
            seed,
            candidate_radiant: radiant,
            candidate_dire: LeagueMatchResult::Draw,
        })
        .collect()
}

fn audit(candidate: u64, accepted: u64) -> LeagueExploitAudit {
    LeagueExploitAudit::new(
        candidate,
        accepted,
        &pairs(900, 2, LeagueMatchResult::Draw),
        &vec![1, 2],
        &vec![100, 101],
        0,
        100,
    )
    .expect("audit")
}

fn evidence(candidate: u64, accepted: u64, radiant: LeagueMatchResult) -> LeagueEvaluation {
    LeagueEvaluation::new(
        candidate,
        accepted,
        pairs(100, 20, radiant),
        &vec![1, 2],
        0,
        1_000,
        CrossPlayProfile::default(),
        audit(candidate, accepted),
    )
    .expect("evidence")
}

fn score(value: f64) -> u64 {
    value.to_bits()
}

#[test]
fn fingerprints_hash_little_endian_bytes() {
    assert_eq!(parameter_fingerprint(&vec![]), 0xcbf2_9ce4_8422_2325);
    let mut expected = 0xcbf2_9ce4_8422_2325u64;
    for byte in 1.5f32.to_bits().to_le_bytes() {
        expected ^= u64::from(byte);
        expected = expected.wrapping_mul(0x0000_0100_0000_01b3);
    }
    assert_eq!(parameter_fingerprint(&vec![1.5f32.to_bits()]), expected);
}

#[test]
fn snapshots_hold_finite_parameters() {
    let good = snapshot(1.0, 6);

    assert_eq!(good.generation(), 6);
    assert_eq!(good.parameters(), &[1.0f32.to_bits(), 0, 0, 0]);
    assert_eq!(good.instance_seed(), good.fingerprint() ^ 6);
    assert_eq!(
        PolicySnapshot::from_parameters(vec![0; 3], 0, 4, Some(1)).unwrap_err(),
        LeagueError::ParameterCount { actual: 3, expected: 4 }
    );
    assert_eq!(
        PolicySnapshot::from_parameters(vec![0, 0, f32::NAN.to_bits(), 0], 0, 4, Some(1))
            .unwrap_err(),
        LeagueError::NonFiniteParameter { index: 2 }
    );
    assert_eq!(
        PolicySnapshot::from_parameters(vec![0; 4], 0, 4, None).unwrap_err(),
        LeagueError::SnapshotIdentityExhausted
    );
    assert_eq!(
        PolicySnapshot::from_parameters(vec![0; 4], 0, 4, Some(0)).unwrap_err(),
        LeagueError::SnapshotIdentityExhausted
    );
}

#[test]
fn profiles_stay_in_the_unit_range() {
    let bits = |value: f32| value.to_bits();

    assert!(CrossPlayProfile::new(bits(-1.0), bits(1.0), bits(-0.0)).is_ok());
    for bad in [1.1f32, -1.5, f32::NAN, f32::INFINITY] {
        assert_eq!(
            CrossPlayProfile::new(bits(0.0), bits(bad), bits(0.0)),
            Err(LeagueError::InvalidProfile)
        );
    }
}

#[test]
fn buckets_weight_the_opponents() {
    let mut league = League::new(9, snapshot(1.0, 0)).expect("league");
    league
        .insert_historical(snapshot(2.0, 1), score(0.0), CrossPlayProfile::default(), &distances(1))
        .expect("insert");
    let current = snapshot(3.0, 2);
    let kind = |bucket: u8| league.select_bucket(bucket, &current).map(|chosen| chosen.kind());

    assert_eq!(kind(0), Ok(LeagueOpponentKind::CurrentMirror));
    assert_eq!(kind(29), Ok(LeagueOpponentKind::CurrentMirror));
    assert_eq!(kind(30), Ok(LeagueOpponentKind::Accepted));
    assert_eq!(kind(54), Ok(LeagueOpponentKind::Accepted));
    assert_eq!(kind(55), Ok(LeagueOpponentKind::Historical));
    assert_eq!(kind(79), Ok(LeagueOpponentKind::Historical));
    assert_eq!(kind(80), Ok(LeagueOpponentKind::Teacher));
    assert_eq!(kind(94), Ok(LeagueOpponentKind::Teacher));
    assert_eq!(kind(95), Ok(LeagueOpponentKind::Weak));
    assert_eq!(kind(100), Err(LeagueError::OpponentBucket { bucket: 100 }));
    let past = league.select_bucket(60, &current).expect("opponent");
    assert_eq!(past.snapshot().map(|policy| policy.generation()), Some(1));
    let mirror = league.select_bucket(5, &current).expect("opponent");
    assert_eq!(mirror.snapshot().map(|policy| policy.generation()), Some(2));
    assert_eq!(league.select_bucket(90, &current).expect("opponent").snapshot().is_none(), true);
    assert_eq!(LeagueOpponentKind::Weak.index(), 4);
}

#[test]
fn samplers_draw_from_history() {
    let mut league = League::new(9, snapshot(1.0, 0)).expect("league");
    for generation in 1..=3u64 {
        let count = league.len();
        league
            .insert_historical(
                snapshot(1.0 + generation as f32, generation),
                score(0.0),
                CrossPlayProfile::default(),
                &distances(count),
            )
            .expect("insert");
    }
    let current = snapshot(3.0, 2);
    let sampler = LeagueSampler::new(4);

    assert_eq!(league.historical_count(current.fingerprint()), 2);
    let mut asked = 0;
    let drawn = sampler
        .sample(&league, &current, Ok(60), |count| {
            asked = count;
            Ok(1)
        })
        .expect("opponent");
    assert_eq!(drawn.snapshot().map(|policy| policy.generation()), Some(3));
    assert_eq!(asked, 2);
    assert_eq!(
        sampler.sample(&league, &current, Err("dry".to_owned()), |_| Ok(0)).unwrap_err(),
        LeagueError::Rng("dry".to_owned())
    );
    assert_eq!(
        sampler
            .sample(&league, &current, Ok(70), |_| Err("dry".to_owned()))
            .unwrap_err(),
        LeagueError::Rng("dry".to_owned())
    );
    let plain = sampler
        .sample(&league, &current, Ok(85), |_| Err("never asked".to_owned()))
        .expect("opponent");
    assert_eq!(plain.kind(), LeagueOpponentKind::Teacher);
}

#[test]
fn full_leagues_evict_the_weakest_unprotected_policy() {
    let mut league = League::new(9, snapshot(1.0, 0)).expect("league");
    for generation in 1..=9u64 {
        let count = league.len();
        league
            .insert_historical(
                snapshot(1.0 + generation as f32, generation),
                score(generation as f64),
                CrossPlayProfile::default(),
                &distances(count),
            )
            .expect("insert");
    }

    assert_eq!(league.len(), 9);
    let kept: Vec<u64> = league.iter().iter().map(|entry| entry.generation()).collect();
    assert_eq!(kept, vec![0, 2, 3, 4, 5, 6, 7, 8, 9]);
    assert_eq!(league.strongest().generation(), 9);
    assert_eq!(league.accepted().generation(), 0);
    assert!(!league.is_empty());
}

#[test]
fn insertions_are_checked() {
    let mut league = League::new(9, snapshot(1.0, 0)).expect("league");
    let profile = CrossPlayProfile::default();

    assert_eq!(
        league.insert_historical(snapshot(2.0, 1), score(f64::NAN), profile, &distances(1)),
        Err(LeagueError::NonFiniteScore)
    );
    assert_eq!(
        league.insert_historical(snapshot(1.0, 5), score(0.0), profile, &distances(1)),
        Err(LeagueError::DuplicatePolicy)
    );
    league.insertion = u64::MAX;
    assert_eq!(
        league.insert_historical(snapshot(2.0, 1), score(0.0), profile, &distances(1)),
        Err(LeagueError::InsertionOverflow)
    );
    assert_eq!(league.len(), 1);
    assert_eq!(
        League::new(8, snapshot(1.0, 0)).unwrap_err(),
        LeagueError::Capacity { capacity: 8 }
    );
    assert!(League::new(32, snapshot(1.0, 0)).is_ok());
    assert!(League::new(33, snapshot(1.0, 0)).is_err());
}

#[test]
fn promotions_need_a_winning_candidate() {
    let base = snapshot(1.0, 0);
    let accepted = base.fingerprint();
    let mut league = League::new(9, base).expect("league");
    let weak = snapshot(2.0, 1);
    let strong = snapshot(3.0, 2);
    let (weak_id, strong_id) = (weak.fingerprint(), strong.fingerprint());
    let losing = evidence(weak_id, accepted, LeagueMatchResult::Loss);
    let winning = evidence(strong_id, accepted, LeagueMatchResult::Win);
    assert_eq!(winning.pair_count(), 20);
    assert_eq!(winning.score(), (20, 40));
    assert!(winning.promotable());
    assert!(!losing.promotable());

    assert_eq!(
        league.try_promote(weak, &losing, score(-0.5), &distances(1)),
        Ok(LeaguePromotionDecision::RejectedPerformance)
    );
    assert_eq!(league.accepted().fingerprint(), accepted);
    assert_eq!(
        league.try_promote(snapshot(4.0, 4), &winning, score(0.5), &distances(2)),
        Err(LeagueError::EvaluationIdentityMismatch)
    );
    assert_eq!(
        league.try_promote(strong, &winning, score(0.5), &distances(2)),
        Ok(LeaguePromotionDecision::Accepted)
    );
    assert_eq!(league.accepted().fingerprint(), strong_id);
    assert!(league.contains(weak_id));
    let again = evidence(weak_id, strong_id, LeagueMatchResult::Win);
    assert_eq!(
        league.try_promote(snapshot(2.0, 1), &again, score(0.5), &distances(3)),
        Ok(LeaguePromotionDecision::Duplicate)
    );
}

#[test]
fn evidence_is_checked() {
    let build = |pairs: Vec<LeaguePairedResult>, training: Vec<u64>, rejected, total, accepted| {
        LeagueEvaluation::new(
            7,
            accepted,
            pairs,
            &training,
            rejected,
            total,
            CrossPlayProfile::default(),
            audit(7, 8),
        )
        .map(|_| ())
    };
    let good = || pairs(100, 20, LeagueMatchResult::Win);
    let mut unordered = good();
    unordered[1].seed = 100;

    assert_eq!(build(good(), vec![1], 0, 1_000, 8), Ok(()));
    assert_eq!(
        build(pairs(100, 19, LeagueMatchResult::Win), vec![1], 0, 1_000, 8),
        Err(LeagueError::PromotionPairCount { count: 19 })
    );
    assert_eq!(build(good(), vec![1], 0, 999, 8), Err(LeagueError::InvalidRejectionRate));
    assert_eq!(build(good(), vec![1], 1, 1_000, 8), Err(LeagueError::InvalidRejectionRate));
    assert_eq!(build(good(), vec![1], 1, 1_001, 8), Ok(()));
    assert_eq!(build(good(), vec![1], 0, 1_000, 7), Err(LeagueError::CandidateEqualsAccepted));
    assert_eq!(build(good(), vec![1], 0, 1_000, 9), Err(LeagueError::ExploitIdentityMismatch));
    assert_eq!(
        build(unordered, vec![1], 0, 1_000, 8),
        Err(LeagueError::PromotionSeedsNotIncreasing)
    );
    assert_eq!(
        build(good(), vec![105], 0, 1_000, 8),
        Err(LeagueError::EvaluationSeedInTraining { seed: 105 })
    );
    assert_eq!(
        build(good(), vec![1; 8_193], 0, 1_000, 8),
        Err(LeagueError::TrainingSeedCapacity)
    );
}

#[test]
fn exploit_audits_are_checked() {
    let build = |pairs: Vec<LeaguePairedResult>, rejected, total| {
        LeagueExploitAudit::new(1, 2, &pairs, &vec![1], &vec![2], rejected, total).map(|_| ())
    };

    assert_eq!(build(pairs(50, 2, LeagueMatchResult::Win), 0, 100), Ok(()));
    assert_eq!(
        build(pairs(50, 1, LeagueMatchResult::Win), 0, 100),
        Err(LeagueError::ExploitPairCount { count: 1 })
    );
    assert_eq!(
        build(pairs(50, 65, LeagueMatchResult::Win), 0, 100),
        Err(LeagueError::ExploitPairCount { count: 65 })
    );
    assert_eq!(
        build(pairs(50, 2, LeagueMatchResult::Win), 0, 99),
        Err(LeagueError::InvalidRejectionRate)
    );
    assert_eq!(
        build(pairs(50, 2, LeagueMatchResult::Loss), 0, 100),
        Err(LeagueError::ExploitRegression)
    );
    assert_eq!(
        build(pairs(2, 2, LeagueMatchResult::Win), 0, 100),
        Err(LeagueError::EvaluationSeedInTraining { seed: 2 })
    );
}

#[test]
fn league_failures_are_described() {
    let cases = [
        (LeagueError::Capacity { capacity: 8 }, "league capacity 8 is outside 9..=32"),
        (
            LeagueError::ParameterCount { actual: 3, expected: 4 },
            "snapshot has 3 parameters, expected 4",
        ),
        (
            LeagueError::NonFiniteParameter { index: 2 },
            "snapshot parameter 2 is non-finite",
        ),
        (LeagueError::SnapshotIdentityExhausted, "snapshot identity is exhausted"),
        (LeagueError::InvalidProfile, "cross-play profile is invalid"),
        (LeagueError::NonFiniteScore, "league score is non-finite"),
        (LeagueError::DuplicatePolicy, "league policy weights are duplicated"),
        (
            LeagueError::OpponentBucket { bucket: 100 },
            "opponent bucket 100 is outside 0..100",
        ),
        (
            LeagueError::PromotionPairCount { count: 19 },
            "promotion has 19 pairs, expected 20..=512",
        ),
        (LeagueError::InvalidRejectionRate, "promotion rejection rate is invalid"),
        (
            LeagueError::ExploitPairCount { count: 1 },
            "exploit audit has 1 pairs, expected 2..=64",
        ),
        (
            LeagueError::ExploitRegression,
            "exploit audit regresses on at least one side",
        ),
        (LeagueError::ExploitIdentityMismatch, "exploit audit identity mismatch"),
        (
            LeagueError::CandidateEqualsAccepted,
            "promotion candidate equals accepted weights",
        ),
        (
            LeagueError::PromotionSeedsNotIncreasing,
            "promotion seeds are not strictly increasing",
        ),
        (LeagueError::TrainingSeedCapacity, "training seed capacity exceeded"),
        (
            LeagueError::EvaluationSeedInTraining { seed: 5 },
            "promotion seed 5 occurs in training",
        ),
        (
            LeagueError::EvaluationIdentityMismatch,
            "promotion evidence identity mismatch",
        ),
        (LeagueError::InsertionOverflow, "league insertion counter overflow"),
        (LeagueError::NoEvictablePolicy, "league has no evictable policy"),
        (LeagueError::Model("x".to_owned()), "league model error: x"),
        (LeagueError::Rng("x".to_owned()), "league RNG error: x"),
    ];

    for (error, text) in cases {
        assert_eq!(error.message(), text);
    }
}
