//! Owned behavioral samples with their dataset identity and training scope.
use crate::action::StructuredAction;
use crate::behavioral_target::{
    faulted, first_fault, input_fault, labels, oversize, target_fault, validate_action_input,
    BehavioralTarget,
};
use crate::frame::{zero32, FeatureFrame, NEGATIVE_ZERO_BITS, ONE_BITS};
use crate::imitation_error::ImitationError;
use crate::seeds::{ImitationSplit, SeedNamespace};
use crate::space::ActionSpace;
use crate::world::{HeroId, MapId};
use vstd::prelude::*;

verus! {

/// Current audited game-rules scope of training pools and checkpoints.
pub const IMITATION_RULES_AUDIT_VERSION: u32 = 2;
/// Hero that every training scope is bound to.
pub const SHADOW_FIEND: u16 = 2;
/// Global features that hold the absolute side and map.
pub const SIDE_RADIANT: usize = 4;
pub const SIDE_DIRE: usize = 5;
pub const MAP_ZERO: usize = 6;
pub const MAP_ONE: usize = 7;

/// Canonical player side retained only as sample metadata.
#[derive(Clone, Copy, Debug, PartialEq, Eq, PartialOrd, Ord, Hash, Structural)]
pub enum ImitationSide {
    Radiant,
    Dire,
}

impl ImitationSide {
    pub open spec fn index_spec(self) -> usize {
        match self {
            ImitationSide::Radiant => 0,
            ImitationSide::Dire => 1,
        }
    }

    /// Position of the side in per-side counters.
    pub fn index(self) -> (r: usize)
        ensures
            r == self.index_spec(),
    {
        match self {
            ImitationSide::Radiant => 0,
            ImitationSide::Dire => 1,
        }
    }
}

/// Provenance of a teacher label.
#[derive(Clone, Copy, Debug, PartialEq, Eq, Structural)]
pub enum ImitationSource {
    Teacher,
    Dagger,
}

/// Whether a pair of indicator features is exactly one and zero.
pub open spec fn one_hot(first: u32, second: u32) -> bool {
    first == ONE_BITS && zero32(second)
}

fn is_one_hot(first: u32, second: u32) -> (r: bool)
    ensures
        r == one_hot(first, second),
{
    first == ONE_BITS && (second == 0 || second == NEGATIVE_ZERO_BITS)
}

/// Side that the absolute frame features name.
pub open spec fn frame_side_spec(frame: FeatureFrame) -> Result<ImitationSide, ImitationError> {
    let radiant = frame.global@[SIDE_RADIANT as int];
    let dire = frame.global@[SIDE_DIRE as int];
    if one_hot(radiant, dire) {
        Ok(ImitationSide::Radiant)
    } else if one_hot(dire, radiant) {
        Ok(ImitationSide::Dire)
    } else {
        Err(ImitationError::InvalidFrameSide)
    }
}

/// Side that the absolute frame features name.
pub fn frame_side(frame: &FeatureFrame) -> (r: Result<ImitationSide, ImitationError>)
    requires
        frame.wf(),
    ensures
        r == frame_side_spec(*frame),
{
    let radiant: u32 = frame.global[SIDE_RADIANT];
    let dire: u32 = frame.global[SIDE_DIRE];
    if is_one_hot(radiant, dire) {
        Ok(ImitationSide::Radiant)
    } else if is_one_hot(dire, radiant) {
        Ok(ImitationSide::Dire)
    } else {
        Err(ImitationError::InvalidFrameSide)
    }
}

/// Map that the absolute frame features name.
pub open spec fn frame_map_spec(frame: FeatureFrame) -> Result<MapId, ImitationError> {
    let zero = frame.global@[MAP_ZERO as int];
    let one = frame.global@[MAP_ONE as int];
    if one_hot(zero, one) {
        Ok(MapId(0))
    } else if one_hot(one, zero) {
        Ok(MapId(1))
    } else {
        Err(ImitationError::InvalidFrameMap)
    }
}

/// Map that the absolute frame features name.
pub fn frame_map(frame: &FeatureFrame) -> (r: Result<MapId, ImitationError>)
    requires
        frame.wf(),
    ensures
        r == frame_map_spec(*frame),
{
    let zero: u32 = frame.global[MAP_ZERO];
    let one: u32 = frame.global[MAP_ONE];
    if is_one_hot(zero, one) {
        Ok(MapId(0))
    } else if is_one_hot(one, zero) {
        Ok(MapId(1))
    } else {
        Err(ImitationError::InvalidFrameMap)
    }
}

/// Seed, trajectory, tick, side, and namespace identity kept outside model tensors.
#[derive(Clone, Copy, Debug, PartialEq, Eq, PartialOrd, Ord, Hash, Structural)]
pub struct SampleIdentity {
    pub namespace: SeedNamespace,
    pub seed: u64,
    pub trajectory: u64,
    pub tick: u32,
    pub side: ImitationSide,
}

impl SampleIdentity {
    /// Builds identity metadata while deriving side from absolute frame features.
    pub fn from_frame(
        namespace: SeedNamespace,
        seed: u64,
        trajectory: u64,
        tick: u32,
        frame: &FeatureFrame,
    ) -> (r: Result<Self, ImitationError>)
        requires
            frame.wf(),
        ensures
            r == match frame_side_spec(*frame) {
                Ok(side) => Ok(SampleIdentity { namespace, seed, trajectory, tick, side }),
                Err(error) => Err(error),
            },
    {
        match frame_side(frame) {
            Ok(side) => Ok(SampleIdentity { namespace, seed, trajectory, tick, side }),
            Err(error) => Err(error),
        }
    }

    pub fn namespace(self) -> (r: SeedNamespace)
        ensures
            r == self.namespace,
    {
        self.namespace
    }

    pub fn seed(self) -> (r: u64)
        ensures
            r == self.seed,
    {
        self.seed
    }

    pub fn trajectory(self) -> (r: u64)
        ensures
            r == self.trajectory,
    {
        self.trajectory
    }

    pub fn tick(self) -> (r: u32)
        ensures
            r == self.tick,
    {
        self.tick
    }

    pub fn side(self) -> (r: ImitationSide)
        ensures
            r == self.side,
    {
        self.side
    }
}

/// Fixed hero, map, and audited-rules identity for one pool and checkpoint.
#[derive(Clone, Copy, Debug, PartialEq, Eq, Structural)]
pub struct TrainingScope {
    pub hero: HeroId,
    pub map: MapId,
    pub rules_audit_version: u32,
}

impl TrainingScope {
    /// Whether the scope is one that training supports.
    pub open spec fn supported(self) -> bool {
        &&& self.hero.0 == SHADOW_FIEND
        &&& self.map.0 <= 1
        &&& self.rules_audit_version == IMITATION_RULES_AUDIT_VERSION
    }

    pub fn new(map: MapId, rules_audit_version: u32) -> (r: Result<Self, ImitationError>)
        ensures
            r == if map.0 > 1 {
                Err::<TrainingScope, ImitationError>(ImitationError::InvalidFrameMap)
            } else if rules_audit_version != IMITATION_RULES_AUDIT_VERSION {
                Err(ImitationError::CheckpointState("rules audit version"))
            } else {
                Ok(TrainingScope { hero: HeroId(SHADOW_FIEND), map, rules_audit_version })
            },
    {
        if map.0 > 1 {
            return Err(ImitationError::InvalidFrameMap);
        }
        if rules_audit_version != IMITATION_RULES_AUDIT_VERSION {
            return Err(ImitationError::CheckpointState("rules audit version"));
        }
        Ok(TrainingScope { hero: HeroId(SHADOW_FIEND), map, rules_audit_version })
    }
}

/// Failure of a scope that training does not support.
pub open spec fn scope_fault(scope: TrainingScope) -> Option<ImitationError> {
    if scope.supported() {
        None
    } else {
        Some(ImitationError::CheckpointState("training scope"))
    }
}

/// Checks that a scope is one that training supports.
pub fn validate_scope(scope: TrainingScope) -> (r: Result<(), ImitationError>)
    ensures
        r == faulted(scope_fault(scope)),
{
    if scope.hero.0 != SHADOW_FIEND || scope.map.0 > 1 || scope.rules_audit_version
        != IMITATION_RULES_AUDIT_VERSION {
        return Err(ImitationError::CheckpointState("training scope"));
    }
    Ok(())
}

/// Failure of an identity that a frame or an action space contradicts.
pub open spec fn identity_fault(
    frame: FeatureFrame,
    space: ActionSpace,
    identity: SampleIdentity,
) -> Option<ImitationError> {
    match frame_side_spec(frame) {
        Err(error) => Some(error),
        Ok(side) => if side != identity.side {
            Some(ImitationError::SampleIdentityMismatch("side"))
        } else if space.context.tick != identity.tick {
            Some(ImitationError::SampleIdentityMismatch("tick"))
        } else {
            None
        },
    }
}

/// Checks an identity against the frame and the action space of a sample.
pub fn validate_identity(frame: &FeatureFrame, space: &ActionSpace, identity: SampleIdentity) -> (r:
    Result<(), ImitationError>)
    requires
        frame.wf(),
    ensures
        r == faulted(identity_fault(*frame, *space, identity)),
{
    match frame_side(frame) {
        Err(error) => Err(error),
        Ok(side) => {
            if side != identity.side {
                return Err(ImitationError::SampleIdentityMismatch("side"));
            }
            if space.tick() != identity.tick {
                return Err(ImitationError::SampleIdentityMismatch("tick"));
            }
            Ok(())
        },
    }
}

/// One owned frame and identifier-free teacher label with dataset metadata.
#[derive(Debug)]
pub struct ImitationSample {
    pub instance: u64,
    pub frame: FeatureFrame,
    pub target: BehavioralTarget,
    pub teacher_action: StructuredAction,
    pub learner_action: Option<StructuredAction>,
    pub side: ImitationSide,
    pub split: ImitationSplit,
    pub source: ImitationSource,
    pub identity: SampleIdentity,
}

/// Failure of a regular teacher sample.
pub open spec fn teacher_fault(
    frame: FeatureFrame,
    space: ActionSpace,
    action: StructuredAction,
    identity: SampleIdentity,
) -> Option<ImitationError> {
    first_fault(
        identity_fault(frame, space, identity),
        first_fault(input_fault(frame, space, action, "teacher"), oversize(space, action)),
    )
}

/// Failure of a relabeled learner-visited sample.
pub open spec fn dagger_fault(
    frame: FeatureFrame,
    space: ActionSpace,
    learner: StructuredAction,
    action: StructuredAction,
    identity: SampleIdentity,
) -> Option<ImitationError> {
    first_fault(
        identity_fault(frame, space, identity),
        if identity.namespace != SeedNamespace::Training {
            Some(ImitationError::DaggerSplit)
        } else {
            first_fault(
                input_fault(frame, space, learner, "learner"),
                first_fault(input_fault(frame, space, action, "teacher"), oversize(space, action)),
            )
        },
    )
}

impl ImitationSample {
    /// Fixed frame width and metadata that agrees with the identity.
    pub open spec fn wf(self) -> bool {
        &&& self.frame.wf()
        &&& self.instance != 0
        &&& self.side == self.identity.side
        &&& self.split == self.identity.namespace.split_spec()
        &&& target_fault(self.target) is None
        &&& self.source == ImitationSource::Dagger ==> self.split == ImitationSplit::Train
        &&& self.source == ImitationSource::Dagger <==> self.learner_action is Some
    }

    /// Builds a regular teacher sample from one exact frame and action space.
    ///
    /// The caller gives each sample an instance number of its own.
    pub fn teacher(
        instance: u64,
        frame: FeatureFrame,
        space: &ActionSpace,
        teacher_action: StructuredAction,
        identity: SampleIdentity,
    ) -> (r: Result<Self, ImitationError>)
        requires
            instance != 0,
            frame.wf(),
            space.wf(),
        ensures
            match r {
                Ok(sample) => {
                    &&& teacher_fault(frame, *space, teacher_action, identity) is None
                    &&& sample.wf()
                    &&& sample.instance == instance
                    &&& sample.frame == frame
                    &&& labels(sample.target, *space, teacher_action)
                    &&& sample.teacher_action == teacher_action
                    &&& sample.learner_action is None
                    &&& sample.source == ImitationSource::Teacher
                    &&& sample.identity == identity
                },
                Err(error) => teacher_fault(frame, *space, teacher_action, identity) == Some(error),
            },
    {
        match validate_identity(&frame, space, identity) {
            Ok(()) => {},
            Err(error) => {
                return Err(error);
            },
        }
        match BehavioralTarget::from_action(&frame, space, teacher_action) {
            Err(error) => Err(error),
            Ok(target) => Ok(
                ImitationSample {
                    instance,
                    frame,
                    target,
                    teacher_action,
                    learner_action: None,
                    side: identity.side,
                    split: identity.namespace.split(),
                    source: ImitationSource::Teacher,
                    identity,
                },
            ),
        }
    }

    /// Builds a learner-visited sample relabeled by a teacher in the same exact space.
    pub fn dagger(
        instance: u64,
        frame: FeatureFrame,
        space: &ActionSpace,
        learner_action: StructuredAction,
        teacher_action: StructuredAction,
        identity: SampleIdentity,
    ) -> (r: Result<Self, ImitationError>)
        requires
            instance != 0,
            frame.wf(),
            space.wf(),
        ensures
            match r {
                Ok(sample) => {
                    &&& dagger_fault(
                        frame,
                        *space,
                        learner_action,
                        teacher_action,
                        identity,
                    ) is None
                    &&& sample.wf()
                    &&& sample.instance == instance
                    &&& sample.frame == frame
                    &&& labels(sample.target, *space, teacher_action)
                    &&& sample.teacher_action == teacher_action
                    &&& sample.learner_action == Some(learner_action)
                    &&& sample.source == ImitationSource::Dagger
                    &&& sample.identity == identity
                },
                Err(error) => dagger_fault(frame, *space, learner_action, teacher_action, identity)
                    == Some(error),
            },
    {
        match validate_identity(&frame, space, identity) {
            Ok(()) => {},
            Err(error) => {
                return Err(error);
            },
        }
        if identity.namespace != SeedNamespace::Training {
            return Err(ImitationError::DaggerSplit);
        }
        match validate_action_input(&frame, space, learner_action, "learner") {
            Ok(()) => {},
            Err(error) => {
                return Err(error);
            },
        }
        match BehavioralTarget::from_action(&frame, space, teacher_action) {
            Err(error) => Err(error),
            Ok(target) => Ok(
                ImitationSample {
                    instance,
                    frame,
                    target,
                    teacher_action,
                    learner_action: Some(learner_action),
                    side: identity.side,
                    split: ImitationSplit::Train,
                    source: ImitationSource::Dagger,
                    identity,
                },
            ),
        }
    }

    pub fn frame(&self) -> (r: &FeatureFrame)
        ensures
            *r == self.frame,
    {
        &self.frame
    }

    pub fn target(&self) -> (r: &BehavioralTarget)
        ensures
            *r == self.target,
    {
        &self.target
    }

    pub fn teacher_action(&self) -> (r: StructuredAction)
        ensures
            r == self.teacher_action,
    {
        self.teacher_action
    }

    pub fn learner_action(&self) -> (r: Option<StructuredAction>)
        ensures
            r == self.learner_action,
    {
        self.learner_action
    }

    pub fn side(&self) -> (r: ImitationSide)
        ensures
            r == self.side,
    {
        self.side
    }

    pub fn split(&self) -> (r: ImitationSplit)
        ensures
            r == self.split,
    {
        self.split
    }

    pub fn source(&self) -> (r: ImitationSource)
        ensures
            r == self.source,
    {
        self.source
    }

    pub fn identity(&self) -> (r: SampleIdentity)
        ensures
            r == self.identity,
    {
        self.identity
    }

    /// Whether the learner chose another action than the teacher.
    pub open spec fn disagrees(self) -> bool {
        self.learner_action matches Some(action) && action != self.teacher_action
    }

    pub fn is_disagreement(&self) -> (r: bool)
        ensures
            r == self.disagrees(),
    {
        match self.learner_action {
            Some(action) => action != self.teacher_action,
            None => false,
        }
    }
}

} // verus!
