use drysua::action::ActionKind;
use drysua::imitation_error::ImitationError;
use drysua::local_policy::{
    ActivePolicyOrder, LocalPolicyError, LocalPolicyState, PolicyAssignment, PolicyDecision,
    PolicyLane, PolicyRole,
};
use drysua::observation::FeatureError;
use drysua::shuffle::ShuffleState;
use drysua::world::MapId;

#[test]
fn decisions_are_bounded_and_ordered() {
    let mut state = LocalPolicyState::new(10);
    for step in 0..17u32 {
        state.note_decision(10 + step, ActionKind::Stop).expect("decision");
    }

    assert_eq!(state.decisions().len(), 16);
    assert_eq!(state.decisions()[0], PolicyDecision { tick: 11, kind: ActionKind::Stop });
    let error = state.note_decision(20, ActionKind::Hold).unwrap_err();
    assert_eq!(error, LocalPolicyError::TickRegression { incoming: 20, latest: 26 });
    assert_eq!(error.message(), "local policy tick 20 is older than latest tick 26");
    let error = state.rollback(25).unwrap_err();
    assert_eq!(error, LocalPolicyError::RollbackBeforeHorizon { requested: 25, earliest: 26 });
    assert_eq!(
        error.message(),
        "local policy rollback tick 25 is older than earliest supported tick 26"
    );
}

#[test]
fn rollbacks_leave_no_trace() {
    let mut state = LocalPolicyState::new(10);
    state.note_decision(11, ActionKind::MovePoint).expect("decision");
    state.set_active_order(11, Some(ActionKind::MovePoint)).expect("order");
    state.set_assignment(11, Some(PolicyRole::Mid), Some(PolicyLane::Mid)).expect("assignment");
    state.note_decision(14, ActionKind::Cast).expect("decision");
    state.set_active_order(14, Some(ActionKind::Cast)).expect("order");
    state.set_assignment(15, None, None).expect("assignment");

    state.rollback(13).expect("rollback");

    assert_eq!(state.decisions(), &[PolicyDecision { tick: 11, kind: ActionKind::MovePoint }]);
    assert_eq!(
        state.active_order(),
        Some(ActivePolicyOrder { started_tick: 11, kind: ActionKind::MovePoint })
    );
    assert_eq!(
        state.assignment(),
        Some(PolicyAssignment {
            tick: 11,
            role: Some(PolicyRole::Mid),
            lane: Some(PolicyLane::Mid),
        })
    );
    state.set_active_order(13, None).expect("order");
    assert_eq!(state.active_order(), None);
    state.reset(3);
    assert!(state.decisions().is_empty());
}

#[test]
fn shuffles_follow_split_mix() {
    let mut state = ShuffleState::new(0);

    assert_eq!(state.next(), Ok(0xe220_a839_7b1d_cdaf));
    assert_eq!(state.next(), Ok(0x6e78_9e6a_a1b9_65f4));
    assert_eq!((state.state(), state.draws()), (0x3c6e_f372_fe94_f82a, 2));
    let mut worn = ShuffleState { state: 0, draws: 1_000_000_000 };
    let error = worn.next().unwrap_err();
    assert!(matches!(error, ImitationError::CounterOverflow { maximum: 1_000_000_000, .. }));
    assert_eq!(worn.draws(), 1_000_000_000);
    let mut values = vec![0, 1, 2, 3, 4, 5, 6, 7];
    state.shuffle(&mut values).expect("shuffle");
    assert_eq!(state.draws(), 9);
    values.sort();
    assert_eq!(values, vec![0, 1, 2, 3, 4, 5, 6, 7]);
}

#[test]
fn feature_failures_are_described() {
    let cases = [
        FeatureError::SnapshotRequired,
        FeatureError::TickMismatch { snapshot: 1, action_space: 2 },
        FeatureError::ActionSpaceMismatch,
        FeatureError::ReadinessMismatch,
        FeatureError::MapMismatch,
        FeatureError::LocalStateAhead { snapshot: 1, local: 2 },
        FeatureError::ObservationRequired { snapshot: 1 },
        FeatureError::ObservationMismatch { snapshot: 1 },
        FeatureError::ObservationTickNotIncreasing { incoming: 1, latest: 2 },
        FeatureError::ObservationPredecessorMismatch { incoming: 1 },
        FeatureError::ObservationRollbackBeforeHorizon { requested: 1, earliest: 2 },
    ];

    let mut texts: Vec<String> = cases.iter().map(|error| error.message()).collect();
    texts.sort();
    texts.dedup();
    assert_eq!(texts.len(), cases.len());
    assert_eq!(
        FeatureError::NonFinite.message(),
        "feature encoder produced a non-finite value"
    );
}

#[test]
fn imitation_failures_are_described() {
    let cases = [
        (
            ImitationError::FrameActionSpaceMismatch,
            "imitation feature frame does not belong to the supplied action space",
        ),
        (ImitationError::NonFiniteFrame, "imitation feature frame is non-finite"),
        (
            ImitationError::ActionNotAllowed { role: "teacher", kind: ActionKind::PutUnit },
            "imitation teacher action PutUnit is not allowed by the supplied action space",
        ),
        (
            ImitationError::TargetInactiveMask { head: "shop" },
            "imitation inactive head shop has a nonempty legal mask",
        ),
        (
            ImitationError::TargetEmptyMask { head: "shop" },
            "imitation active head shop has no legal label",
        ),
        (
            ImitationError::TargetLabel { head: "kind", label: 16, width: 16 },
            "imitation target label 16 is outside width 16 for head kind",
        ),
        (
            ImitationError::TargetIllegalLabel { head: "kind", label: 3 },
            "imitation target label 3 is illegal for head kind",
        ),
        (
            ImitationError::TargetPathMismatch("slot"),
            "imitation target path does not match slot",
        ),
        (
            ImitationError::MaskOversize { actual: 3, maximum: 2 },
            "imitation mask width 3 exceeds head width 2",
        ),
        (
            ImitationError::InvalidFrameSide,
            "imitation frame has invalid absolute side features",
        ),
        (
            ImitationError::InvalidFrameMap,
            "imitation frame has invalid absolute map features",
        ),
        (
            ImitationError::SampleIdentityMismatch("tick"),
            "imitation sample identity tick does not match its frame or action space",
        ),
        (
            ImitationError::SampleMapOutsideScope { map: MapId(1) },
            "imitation sample map MapId(1) is outside its training scope",
        ),
        (ImitationError::DaggerSplit, "imitation DAgger sample must belong to Train"),
        (
            ImitationError::Capacity { value: 0, maximum: 8_192 },
            "imitation pool capacity 0 is outside 1..=8192",
        ),
        (ImitationError::EmptyTrainSet, "imitation train set is empty"),
        (
            ImitationError::EffectiveBatch { value: 0, maximum: 64 },
            "imitation effective batch 0 is outside 1..=64",
        ),
        (
            ImitationError::CounterOverflow { counter: "epoch", maximum: 9 },
            "imitation epoch counter exceeds maximum 9",
        ),
        (
            ImitationError::SeedCapacity { namespace: "training", count: 9, maximum: 8 },
            "imitation training seed count 9 exceeds maximum 8",
        ),
        (
            ImitationError::DuplicateSeed { namespace: "training", seed: 9 },
            "imitation training seed 9 is duplicated",
        ),
        (
            ImitationError::SeedOverlap { first: "training", second: "promotion", seed: 9 },
            "imitation seed 9 appears in both training and promotion namespaces",
        ),
        (
            ImitationError::SeedMembership { namespace: "training", seed: 9 },
            "imitation training seed 9 is absent from its seed namespace",
        ),
        (
            ImitationError::DuplicateSampleIdentity,
            "imitation sample identity is duplicated",
        ),
        (
            ImitationError::NoEvictableTrainSample,
            "imitation pool is full and has no evictable Train sample",
        ),
        (
            ImitationError::PoolBindingMismatch,
            "imitation trainer pool lineage, revision, scope, or seeds do not match",
        ),
        (
            ImitationError::HeldOutContamination,
            "imitation held-out evaluation received non-HeldOut or DAgger data",
        ),
        (
            ImitationError::HeldOutSampleNotInPool,
            "imitation held-out evaluation received a sample outside the pool",
        ),
        (
            ImitationError::InvalidEarlyStopping("patience"),
            "imitation early-stopping patience is invalid",
        ),
        (
            ImitationError::EvaluationEpochOrder { epoch: 2, previous: 3 },
            "imitation evaluation epoch 2 is not strictly increasing after 3",
        ),
        (
            ImitationError::NonFiniteEvaluation,
            "imitation evaluation value is non-finite",
        ),
        (
            ImitationError::InvalidEvaluationCounts,
            "imitation evaluation counts are inconsistent",
        ),
        (
            ImitationError::InvalidRolloutCounts,
            "imitation rollout rejection counts are inconsistent",
        ),
        (
            ImitationError::InvalidGameplayReport("paired seed count"),
            "imitation paired gameplay paired seed count is invalid",
        ),
        (
            ImitationError::PolicyIdentityMismatch,
            "imitation promotion evidence policy identity does not match candidate",
        ),
        (
            ImitationError::InvalidTeacherCoverage,
            "imitation teacher coverage counts are inconsistent",
        ),
        (
            ImitationError::CheckpointSchema,
            "imitation checkpoint schema does not match this build",
        ),
        (
            ImitationError::CheckpointState("early"),
            "imitation checkpoint has invalid early",
        ),
        (
            ImitationError::Rollback { cause: "a".to_owned(), rollback: "b".to_owned() },
            "imitation epoch failed (a); rollback failed (b)",
        ),
        (
            ImitationError::InjectedEpochFailure { update: 4 },
            "imitation injected epoch failure before update 4",
        ),
        (
            ImitationError::Model("x".to_owned()),
            "imitation model operation failed: x",
        ),
    ];

    for (error, text) in cases {
        assert_eq!(error.message(), text);
    }
}
