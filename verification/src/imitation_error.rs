//! Failures of behavioral samples, pools, evaluation, and training.
use crate::action::ActionKind;
use crate::text::{decimal, owned, with_decimal, with_text};
use crate::world::MapId;
use vstd::prelude::*;

verus! {

/// Construction, orchestration, evaluation, or checkpoint validation failure.
#[allow(inconsistent_fields)]
#[derive(Clone, Debug, PartialEq, Eq)]
pub enum ImitationError {
    FrameActionSpaceMismatch,
    NonFiniteFrame,
    ActionNotAllowed { role: &'static str, kind: ActionKind },
    TargetInactiveMask { head: &'static str },
    TargetEmptyMask { head: &'static str },
    TargetLabel { head: &'static str, label: usize, width: usize },
    TargetIllegalLabel { head: &'static str, label: usize },
    TargetPathMismatch(&'static str),
    MaskOversize { actual: usize, maximum: usize },
    InvalidFrameSide,
    InvalidFrameMap,
    SampleIdentityMismatch(&'static str),
    SampleMapOutsideScope { map: MapId },
    DaggerSplit,
    Capacity { value: usize, maximum: usize },
    EmptyTrainSet,
    EffectiveBatch { value: usize, maximum: usize },
    CounterOverflow { counter: &'static str, maximum: u64 },
    SeedCapacity { namespace: &'static str, count: usize, maximum: usize },
    DuplicateSeed { namespace: &'static str, seed: u64 },
    SeedOverlap { first: &'static str, second: &'static str, seed: u64 },
    SeedMembership { namespace: &'static str, seed: u64 },
    DuplicateSampleIdentity,
    NoEvictableTrainSample,
    PoolBindingMismatch,
    HeldOutContamination,
    HeldOutSampleNotInPool,
    InvalidEarlyStopping(&'static str),
    EvaluationEpochOrder { epoch: u64, previous: u64 },
    NonFiniteEvaluation,
    InvalidEvaluationCounts,
    InvalidRolloutCounts,
    InvalidGameplayReport(&'static str),
    PolicyIdentityMismatch,
    InvalidTeacherCoverage,
    CheckpointSchema,
    CheckpointState(&'static str),
    Rollback { cause: String, rollback: String },
    InjectedEpochFailure { update: usize },
    Model(String),
}

impl ImitationError {
    pub open spec fn target_text(self) -> Seq<char> {
        match self {
            ImitationError::FrameActionSpaceMismatch =>
                "imitation feature frame does not belong to the supplied action space"@,
            ImitationError::NonFiniteFrame => "imitation feature frame is non-finite"@,
            ImitationError::ActionNotAllowed { role, kind } =>
                "imitation "@ + role@ + " action "@ + kind.name_spec()@
                    + " is not allowed by the supplied action space"@,
            ImitationError::TargetInactiveMask { head } =>
                "imitation inactive head "@ + head@ + " has a nonempty legal mask"@,
            ImitationError::TargetEmptyMask { head } =>
                "imitation active head "@ + head@ + " has no legal label"@,
            ImitationError::TargetLabel { head, label, width } =>
                "imitation target label "@ + decimal(label as nat) + " is outside width "@
                    + decimal(width as nat) + " for head "@ + head@,
            ImitationError::TargetIllegalLabel { head, label } =>
                "imitation target label "@ + decimal(label as nat) + " is illegal for head "@
                    + head@,
            ImitationError::TargetPathMismatch(text) =>
                "imitation target path does not match "@ + text@,
            ImitationError::MaskOversize { actual, maximum } =>
                "imitation mask width "@ + decimal(actual as nat) + " exceeds head width "@
                    + decimal(maximum as nat),
            ImitationError::InvalidFrameSide =>
                "imitation frame has invalid absolute side features"@,
            ImitationError::InvalidFrameMap => "imitation frame has invalid absolute map features"@,
            ImitationError::SampleIdentityMismatch(text) =>
                "imitation sample identity "@ + text@
                    + " does not match its frame or action space"@,
            ImitationError::SampleMapOutsideScope { map } =>
                "imitation sample map MapId("@ + decimal(map.0 as nat)
                    + ") is outside its training scope"@,
            ImitationError::DaggerSplit => "imitation DAgger sample must belong to Train"@,
            _ => self.training_text(),
        }
    }

    pub open spec fn training_text(self) -> Seq<char> {
        match self {
            ImitationError::Capacity { value, maximum } =>
                "imitation pool capacity "@ + decimal(value as nat) + " is outside 1..="@
                    + decimal(maximum as nat),
            ImitationError::EmptyTrainSet => "imitation train set is empty"@,
            ImitationError::EffectiveBatch { value, maximum } =>
                "imitation effective batch "@ + decimal(value as nat) + " is outside 1..="@
                    + decimal(maximum as nat),
            ImitationError::CounterOverflow { counter, maximum } =>
                "imitation "@ + counter@ + " counter exceeds maximum "@ + decimal(maximum as nat),
            ImitationError::SeedCapacity { namespace, count, maximum } =>
                "imitation "@ + namespace@ + " seed count "@ + decimal(count as nat)
                    + " exceeds maximum "@ + decimal(maximum as nat),
            ImitationError::DuplicateSeed { namespace, seed } =>
                "imitation "@ + namespace@ + " seed "@ + decimal(seed as nat) + " is duplicated"@,
            ImitationError::SeedOverlap { first, second, seed } =>
                "imitation seed "@ + decimal(seed as nat) + " appears in both "@ + first@
                    + " and "@ + second@ + " namespaces"@,
            ImitationError::SeedMembership { namespace, seed } =>
                "imitation "@ + namespace@ + " seed "@ + decimal(seed as nat)
                    + " is absent from its seed namespace"@,
            ImitationError::DuplicateSampleIdentity => "imitation sample identity is duplicated"@,
            ImitationError::NoEvictableTrainSample =>
                "imitation pool is full and has no evictable Train sample"@,
            ImitationError::PoolBindingMismatch =>
                "imitation trainer pool lineage, revision, scope, or seeds do not match"@,
            ImitationError::HeldOutContamination =>
                "imitation held-out evaluation received non-HeldOut or DAgger data"@,
            ImitationError::HeldOutSampleNotInPool =>
                "imitation held-out evaluation received a sample outside the pool"@,
            _ => self.training_state_text(),
        }
    }

    pub open spec fn training_state_text(self) -> Seq<char> {
        match self {
            ImitationError::InvalidEarlyStopping(text) =>
                "imitation early-stopping "@ + text@ + " is invalid"@,
            ImitationError::EvaluationEpochOrder { epoch, previous } =>
                "imitation evaluation epoch "@ + decimal(epoch as nat)
                    + " is not strictly increasing after "@ + decimal(previous as nat),
            ImitationError::NonFiniteEvaluation => "imitation evaluation value is non-finite"@,
            ImitationError::InvalidEvaluationCounts =>
                "imitation evaluation counts are inconsistent"@,
            ImitationError::InvalidRolloutCounts =>
                "imitation rollout rejection counts are inconsistent"@,
            ImitationError::InvalidGameplayReport(text) =>
                "imitation paired gameplay "@ + text@ + " is invalid"@,
            ImitationError::PolicyIdentityMismatch =>
                "imitation promotion evidence policy identity does not match candidate"@,
            ImitationError::InvalidTeacherCoverage =>
                "imitation teacher coverage counts are inconsistent"@,
            ImitationError::CheckpointSchema =>
                "imitation checkpoint schema does not match this build"@,
            ImitationError::CheckpointState(text) => "imitation checkpoint has invalid "@ + text@,
            ImitationError::Rollback { cause, rollback } =>
                "imitation epoch failed ("@ + cause@ + "); rollback failed ("@ + rollback@ + ")"@,
            ImitationError::InjectedEpochFailure { update } =>
                "imitation injected epoch failure before update "@ + decimal(update as nat),
            ImitationError::Model(text) => "imitation model operation failed: "@ + text@,
            _ => "imitation error category is invalid"@,
        }
    }

    /// Text of the failure.
    pub open spec fn message_spec(self) -> Seq<char> {
        self.target_text()
    }

    fn target_message(&self) -> (r: String)
        ensures
            r@ == self.target_text(),
    {
        match self {
            ImitationError::FrameActionSpaceMismatch => owned(
                "imitation feature frame does not belong to the supplied action space",
            ),
            ImitationError::NonFiniteFrame => owned("imitation feature frame is non-finite"),
            ImitationError::ActionNotAllowed { role, kind } => with_text(
                with_text(with_text(with_text(owned("imitation "), role), " action "), kind.name()),
                " is not allowed by the supplied action space",
            ),
            ImitationError::TargetInactiveMask { head } => with_text(
                with_text(owned("imitation inactive head "), head),
                " has a nonempty legal mask",
            ),
            ImitationError::TargetEmptyMask { head } => with_text(
                with_text(owned("imitation active head "), head),
                " has no legal label",
            ),
            ImitationError::TargetLabel { head, label, width } => with_text(
                with_text(
                    with_decimal(
                        with_text(
                            with_decimal(owned("imitation target label "), *label as u64),
                            " is outside width ",
                        ),
                        *width as u64,
                    ),
                    " for head ",
                ),
                head,
            ),
            ImitationError::TargetIllegalLabel { head, label } => with_text(
                with_text(
                    with_decimal(owned("imitation target label "), *label as u64),
                    " is illegal for head ",
                ),
                head,
            ),
            ImitationError::TargetPathMismatch(text) => with_text(
                owned("imitation target path does not match "),
                text,
            ),
            ImitationError::MaskOversize { actual, maximum } => with_decimal(
                with_text(
                    with_decimal(owned("imitation mask width "), *actual as u64),
                    " exceeds head width ",
                ),
                *maximum as u64,
            ),
            ImitationError::InvalidFrameSide => owned(
                "imitation frame has invalid absolute side features",
            ),
            ImitationError::InvalidFrameMap => owned(
                "imitation frame has invalid absolute map features",
            ),
            ImitationError::SampleIdentityMismatch(text) => with_text(
                with_text(owned("imitation sample identity "), text),
                " does not match its frame or action space",
            ),
            ImitationError::SampleMapOutsideScope { map } => with_text(
                with_decimal(owned("imitation sample map MapId("), map.0 as u64),
                ") is outside its training scope",
            ),
            ImitationError::DaggerSplit => owned("imitation DAgger sample must belong to Train"),
            _ => self.training_message(),
        }
    }

    fn training_message(&self) -> (r: String)
        ensures
            r@ == self.training_text(),
    {
        match self {
            ImitationError::Capacity { value, maximum } => with_decimal(
                with_text(
                    with_decimal(owned("imitation pool capacity "), *value as u64),
                    " is outside 1..=",
                ),
                *maximum as u64,
            ),
            ImitationError::EmptyTrainSet => owned("imitation train set is empty"),
            ImitationError::EffectiveBatch { value, maximum } => with_decimal(
                with_text(
                    with_decimal(owned("imitation effective batch "), *value as u64),
                    " is outside 1..=",
                ),
                *maximum as u64,
            ),
            ImitationError::CounterOverflow { counter, maximum } => with_decimal(
                with_text(with_text(owned("imitation "), counter), " counter exceeds maximum "),
                *maximum,
            ),
            ImitationError::SeedCapacity { namespace, count, maximum } => with_decimal(
                with_text(
                    with_decimal(
                        with_text(with_text(owned("imitation "), namespace), " seed count "),
                        *count as u64,
                    ),
                    " exceeds maximum ",
                ),
                *maximum as u64,
            ),
            ImitationError::DuplicateSeed { namespace, seed } => with_text(
                with_decimal(with_text(with_text(owned("imitation "), namespace), " seed "), *seed),
                " is duplicated",
            ),
            ImitationError::SeedOverlap { first, second, seed } => with_text(
                with_text(
                    with_text(
                        with_text(
                            with_text(
                                with_decimal(owned("imitation seed "), *seed),
                                " appears in both ",
                            ),
                            first,
                        ),
                        " and ",
                    ),
                    second,
                ),
                " namespaces",
            ),
            ImitationError::SeedMembership { namespace, seed } => with_text(
                with_decimal(with_text(with_text(owned("imitation "), namespace), " seed "), *seed),
                " is absent from its seed namespace",
            ),
            ImitationError::DuplicateSampleIdentity => owned(
                "imitation sample identity is duplicated",
            ),
            ImitationError::NoEvictableTrainSample => owned(
                "imitation pool is full and has no evictable Train sample",
            ),
            ImitationError::PoolBindingMismatch => owned(
                "imitation trainer pool lineage, revision, scope, or seeds do not match",
            ),
            ImitationError::HeldOutContamination => owned(
                "imitation held-out evaluation received non-HeldOut or DAgger data",
            ),
            ImitationError::HeldOutSampleNotInPool => owned(
                "imitation held-out evaluation received a sample outside the pool",
            ),
            _ => self.training_state_message(),
        }
    }

    fn training_state_message(&self) -> (r: String)
        ensures
            r@ == self.training_state_text(),
    {
        match self {
            ImitationError::InvalidEarlyStopping(text) => with_text(
                with_text(owned("imitation early-stopping "), text),
                " is invalid",
            ),
            ImitationError::EvaluationEpochOrder { epoch, previous } => with_decimal(
                with_text(
                    with_decimal(owned("imitation evaluation epoch "), *epoch),
                    " is not strictly increasing after ",
                ),
                *previous,
            ),
            ImitationError::NonFiniteEvaluation => owned(
                "imitation evaluation value is non-finite",
            ),
            ImitationError::InvalidEvaluationCounts => owned(
                "imitation evaluation counts are inconsistent",
            ),
            ImitationError::InvalidRolloutCounts => owned(
                "imitation rollout rejection counts are inconsistent",
            ),
            ImitationError::InvalidGameplayReport(text) => with_text(
                with_text(owned("imitation paired gameplay "), text),
                " is invalid",
            ),
            ImitationError::PolicyIdentityMismatch => owned(
                "imitation promotion evidence policy identity does not match candidate",
            ),
            ImitationError::InvalidTeacherCoverage => owned(
                "imitation teacher coverage counts are inconsistent",
            ),
            ImitationError::CheckpointSchema => owned(
                "imitation checkpoint schema does not match this build",
            ),
            ImitationError::CheckpointState(text) => with_text(
                owned("imitation checkpoint has invalid "),
                text,
            ),
            ImitationError::Rollback { cause, rollback } => with_text(
                with_text(
                    with_text(
                        with_text(owned("imitation epoch failed ("), cause.as_str()),
                        "); rollback failed (",
                    ),
                    rollback.as_str(),
                ),
                ")",
            ),
            ImitationError::InjectedEpochFailure { update } => with_decimal(
                owned("imitation injected epoch failure before update "),
                *update as u64,
            ),
            ImitationError::Model(text) => with_text(
                owned("imitation model operation failed: "),
                text.as_str(),
            ),
            _ => owned("imitation error category is invalid"),
        }
    }

    /// Text of the failure.
    pub fn message(&self) -> (r: String)
        ensures
            r@ == self.message_spec(),
    {
        self.target_message()
    }
}

} // verus!
