//! Run provenance, progress, and the strict checkpoint manifest.
use crate::frame::{finite64, is_finite64};
use crate::manifest::{checked, either, invalid, text_fault, validate_text, CheckpointError};
use crate::mastery::{self, progress_view, MasteryConfig, MasteryProgress, ProgressView};
use crate::sample::SHADOW_FIEND;
use crate::settings::{PolicyDevice, PpoConfig, PpoSampleBudget, MAP2_REWARD_GAMMA_TICK};
use crate::shuffle::MAX_TRAINING_COUNTER;
use crate::text::owned;
use crate::world::{HeroId, MapId};
use vstd::bytes::{
    lemma_auto_spec_u16_to_from_le_bytes, lemma_auto_spec_u32_to_from_le_bytes,
    lemma_auto_spec_u64_to_from_le_bytes, spec_u16_to_le_bytes, spec_u32_to_le_bytes,
    spec_u64_to_le_bytes,
};
use vstd::prelude::*;

verus! {

/// Most random-number streams of a checkpoint.
pub const MAX_RNG_STATES: usize = 32;
/// Most league references of a checkpoint.
pub const MAX_LEAGUE_REFERENCES: usize = 32;
/// Highest curriculum stage.
pub const MAX_CURRICULUM_STAGE: u32 = 1_024;

/// Optional parts that a build was compiled with.
#[derive(Clone, Copy, Debug, PartialEq, Eq, Structural)]
pub struct BuildFeatures {
    pub builtin: bool,
    pub cuda: bool,
    pub metal: bool,
}

/// Names of the enabled parts, separated by commas.
pub open spec fn feature_text(features: BuildFeatures) -> Seq<char> {
    match (features.builtin, features.cuda, features.metal) {
        (false, false, false) => "none"@,
        (true, false, false) => "builtin"@,
        (false, true, false) => "cuda"@,
        (false, false, true) => "metal"@,
        (true, true, false) => "builtin,cuda"@,
        (true, false, true) => "builtin,metal"@,
        (false, true, true) => "cuda,metal"@,
        (true, true, true) => "builtin,cuda,metal"@,
    }
}

/// Feature set that strict checkpoint manifests must match.
pub fn compiled_features(features: BuildFeatures) -> (r: String)
    ensures
        r@ == feature_text(features),
{
    match (features.builtin, features.cuda, features.metal) {
        (false, false, false) => owned("none"),
        (true, false, false) => owned("builtin"),
        (false, true, false) => owned("cuda"),
        (false, false, true) => owned("metal"),
        (true, true, false) => owned("builtin,cuda"),
        (true, false, true) => owned("builtin,metal"),
        (false, true, true) => owned("cuda,metal"),
        (true, true, true) => owned("builtin,cuda,metal"),
    }
}

/// Device and ordinal recorded in portable checkpoint metadata.
#[derive(Clone, Copy, Debug, PartialEq, Eq, Structural)]
pub enum CheckpointDevice {
    Cpu,
    Cuda { ordinal: u32 },
    Metal { ordinal: u32 },
}

impl CheckpointDevice {
    pub open spec fn of(device: PolicyDevice) -> Result<CheckpointDevice, CheckpointError> {
        match device {
            PolicyDevice::Cpu => Ok(CheckpointDevice::Cpu),
            PolicyDevice::Cuda { ordinal } => if ordinal <= u32::MAX {
                Ok(CheckpointDevice::Cuda { ordinal: ordinal as u32 })
            } else {
                Err(invalid("device ordinal"))
            },
            PolicyDevice::Metal { ordinal } => if ordinal <= u32::MAX {
                Ok(CheckpointDevice::Metal { ordinal: ordinal as u32 })
            } else {
                Err(invalid("device ordinal"))
            },
        }
    }

    /// Recorded form of a learner device.
    pub fn from_policy(device: PolicyDevice) -> (r: Result<Self, CheckpointError>)
        ensures
            r == Self::of(device),
    {
        match device {
            PolicyDevice::Cpu => Ok(CheckpointDevice::Cpu),
            PolicyDevice::Cuda { ordinal } => {
                if ordinal > 0xffff_ffff {
                    return Err(CheckpointError::InvalidManifest("device ordinal"));
                }
                Ok(CheckpointDevice::Cuda { ordinal: ordinal as u32 })
            },
            PolicyDevice::Metal { ordinal } => {
                if ordinal > 0xffff_ffff {
                    return Err(CheckpointError::InvalidManifest("device ordinal"));
                }
                Ok(CheckpointDevice::Metal { ordinal: ordinal as u32 })
            },
        }
    }

    /// Whether a learner device is the recorded one.
    pub fn matches(self, device: PolicyDevice) -> (r: bool)
        ensures
            r == (Self::of(device) matches Ok(candidate) && candidate == self),
    {
        match Self::from_policy(device) {
            Ok(candidate) => candidate == self,
            Err(_) => false,
        }
    }

    pub open spec fn code(self) -> (u8, u32) {
        match self {
            CheckpointDevice::Cpu => (0, 0),
            CheckpointDevice::Cuda { ordinal } => (1, ordinal),
            CheckpointDevice::Metal { ordinal } => (2, ordinal),
        }
    }
}

/// Immutable run provenance required for strict artifact compatibility.
#[derive(Debug, PartialEq, Eq)]
pub struct CheckpointRun {
    pub mastery_config: Option<MasteryConfig>,
    pub git_commit: String,
    pub simulator_commit: String,
    pub enabled_features: String,
    pub command_line: String,
    pub run_seed: u64,
    pub map: MapId,
    pub hero: HeroId,
    pub device: CheckpointDevice,
    pub batch_size: usize,
    pub rules_audit_version: u32,
}

/// Contents of a run provenance.
#[verifier::ext_equal]
pub struct RunView {
    pub mastery_config: Option<MasteryConfig>,
    pub git_commit: Seq<char>,
    pub simulator_commit: Seq<char>,
    pub enabled_features: Seq<char>,
    pub command_line: Seq<char>,
    pub run_seed: u64,
    pub map: u16,
    pub hero: u16,
    pub device: CheckpointDevice,
    pub batch_size: usize,
    pub rules_audit_version: u32,
}

impl View for CheckpointRun {
    type V = RunView;

    open spec fn view(&self) -> RunView {
        RunView {
            mastery_config: self.mastery_config,
            git_commit: self.git_commit@,
            simulator_commit: self.simulator_commit@,
            enabled_features: self.enabled_features@,
            command_line: self.command_line@,
            run_seed: self.run_seed,
            map: self.map.0,
            hero: self.hero.0,
            device: self.device,
            batch_size: self.batch_size,
            rules_audit_version: self.rules_audit_version,
        }
    }
}

/// Whether two optional thresholds are equal.
fn same_mastery(left: Option<MasteryConfig>, right: Option<MasteryConfig>) -> (r: bool)
    ensures
        r == (left == right),
{
    match (left, right) {
        (Some(a), Some(b)) => a == b,
        (None, None) => true,
        _ => false,
    }
}

impl CheckpointRun {
    /// Whether two runs have the same provenance.
    pub fn is_same(&self, other: &Self) -> (r: bool)
        ensures
            r == (self@ == other@),
    {
        let texts = self.git_commit == other.git_commit && self.simulator_commit
            == other.simulator_commit && self.enabled_features == other.enabled_features
            && self.command_line == other.command_line;
        let rest = self.run_seed == other.run_seed && self.map == other.map && self.hero
            == other.hero && self.device == other.device && self.batch_size == other.batch_size
            && self.rules_audit_version == other.rules_audit_version && same_mastery(
            self.mastery_config,
            other.mastery_config,
        );
        proof {
            if texts && rest {
                assert(self@ =~= other@);
            }
        }
        texts && rest
    }

    /// Owned copy of the provenance.
    pub fn duplicate(&self) -> (r: Self)
        ensures
            r@ == self@,
    {
        CheckpointRun {
            mastery_config: self.mastery_config,
            git_commit: owned(self.git_commit.as_str()),
            simulator_commit: owned(self.simulator_commit.as_str()),
            enabled_features: owned(self.enabled_features.as_str()),
            command_line: owned(self.command_line.as_str()),
            run_seed: self.run_seed,
            map: self.map,
            hero: self.hero,
            device: self.device,
            batch_size: self.batch_size,
            rules_audit_version: self.rules_audit_version,
        }
    }
}

/// One named deterministic random stream persisted without hidden simulator state.
#[derive(Debug, PartialEq, Eq)]
pub struct RngCheckpoint {
    pub name: String,
    pub state: u64,
    pub draws: u64,
}

/// Contents of a random stream.
#[verifier::ext_equal]
pub struct RngView {
    pub name: Seq<char>,
    pub state: u64,
    pub draws: u64,
}

impl View for RngCheckpoint {
    type V = RngView;

    open spec fn view(&self) -> RngView {
        RngView { name: self.name@, state: self.state, draws: self.draws }
    }
}

/// Failure of a random stream.
pub open spec fn rng_fault(rng: RngView) -> Option<CheckpointError> {
    either(
        text_fault("RNG name", rng.name),
        if rng.draws > MAX_TRAINING_COUNTER {
            Some(invalid("RNG draw count"))
        } else {
            None
        },
    )
}

impl RngCheckpoint {
    pub fn new(name: String, state: u64, draws: u64) -> (r: Result<Self, CheckpointError>)
        ensures
            match rng_fault(RngView { name: name@, state, draws }) {
                Some(error) => r == Err::<RngCheckpoint, CheckpointError>(error),
                None => r matches Ok(rng) && rng@ == (RngView { name: name@, state, draws }),
            },
    {
        let checkpoint = RngCheckpoint { name, state, draws };
        match checkpoint.validate() {
            Ok(()) => Ok(checkpoint),
            Err(error) => Err(error),
        }
    }

    pub fn name(&self) -> (r: &str)
        ensures
            r@ == self.name@,
    {
        self.name.as_str()
    }

    pub fn state(&self) -> (r: u64)
        ensures
            r == self.state,
    {
        self.state
    }

    pub fn draws(&self) -> (r: u64)
        ensures
            r == self.draws,
    {
        self.draws
    }

    pub fn validate(&self) -> (r: Result<(), CheckpointError>)
        ensures
            r == checked(rng_fault(self@)),
    {
        match validate_text("RNG name", self.name.as_str()) {
            Ok(()) => {},
            Err(error) => {
                return Err(error);
            },
        }
        if self.draws > MAX_TRAINING_COUNTER {
            return Err(CheckpointError::InvalidManifest("RNG draw count"));
        }
        Ok(())
    }

    /// Owned copy of the stream.
    pub fn duplicate(&self) -> (r: Self)
        ensures
            r@ == self@,
    {
        RngCheckpoint {
            name: owned(self.name.as_str()),
            state: self.state,
            draws: self.draws,
        }
    }
}

/// Contents of a list of random streams.
pub open spec fn rng_views(list: Seq<RngCheckpoint>) -> Seq<RngView> {
    list.map_values(|rng: RngCheckpoint| rng@)
}

/// Scheduler, curriculum, rollout, evaluation, league, and random-stream resume state.
#[derive(Debug, PartialEq, Eq)]
pub struct CheckpointProgress {
    pub mastery: Option<MasteryProgress>,
    pub global_update: u64,
    pub policy_version: u64,
    pub scheduler_step: u64,
    pub curriculum_stage: u32,
    pub rollout_samples: u64,
    /// Best evaluation, as double-precision bits.
    pub best_evaluation: Option<u64>,
    pub rng_states: Vec<RngCheckpoint>,
    pub league_references: Vec<u64>,
}

/// Contents of a resume state.
#[verifier::ext_equal]
pub struct ResumeView {
    pub mastery: Option<ProgressView>,
    pub global_update: u64,
    pub policy_version: u64,
    pub scheduler_step: u64,
    pub curriculum_stage: u32,
    pub rollout_samples: u64,
    pub best_evaluation: Option<u64>,
    pub rng_states: Seq<RngView>,
    pub league_references: Seq<u64>,
}

impl View for CheckpointProgress {
    type V = ResumeView;

    open spec fn view(&self) -> ResumeView {
        ResumeView {
            mastery: progress_view(self.mastery),
            global_update: self.global_update,
            policy_version: self.policy_version,
            scheduler_step: self.scheduler_step,
            curriculum_stage: self.curriculum_stage,
            rollout_samples: self.rollout_samples,
            best_evaluation: self.best_evaluation,
            rng_states: rng_views(self.rng_states@),
            league_references: self.league_references@,
        }
    }
}

/// Version and hash of one encoding.
#[derive(Clone, Copy, Debug, PartialEq, Eq, Structural)]
pub struct SchemaLink {
    pub version: u32,
    pub hash: u64,
}

/// Checkpoint identity of one sample budget and the encodings that it links.
#[derive(Clone, Copy, Debug, PartialEq, Eq, Structural)]
pub struct SchemaProfile {
    pub checkpoint: SchemaLink,
    pub action: SchemaLink,
    pub feature: SchemaLink,
    pub model: SchemaLink,
    pub ppo: SchemaLink,
    pub reward: SchemaLink,
}

/// What a build requires of its checkpoints.
#[derive(Clone, Copy, Debug, PartialEq, Eq, Structural)]
pub struct CheckpointContract {
    pub standard: SchemaProfile,
    pub annealed: SchemaProfile,
    pub features: BuildFeatures,
    pub rules_audit_version: u32,
    pub parameter_count: usize,
    pub maximum_optimizer_step: u64,
    pub maximum_samples: u64,
}

impl CheckpointContract {
    pub open spec fn profile_spec(self, budget: PpoSampleBudget) -> SchemaProfile {
        match budget {
            PpoSampleBudget::Standard => self.standard,
            PpoSampleBudget::Annealed => self.annealed,
        }
    }

    /// Encodings of a sample budget.
    pub fn profile(&self, budget: PpoSampleBudget) -> (r: SchemaProfile)
        ensures
            r == self.profile_spec(budget),
    {
        match budget {
            PpoSampleBudget::Standard => self.standard,
            PpoSampleBudget::Annealed => self.annealed,
        }
    }

    /// Version and hash that checkpoints of a sample budget begin with.
    pub fn checkpoint_schema_identity(&self, budget: PpoSampleBudget) -> (r: (u32, u64))
        ensures
            r.0 == self.profile_spec(budget).checkpoint.version,
            r.1 == self.profile_spec(budget).checkpoint.hash,
    {
        let link = self.profile(budget).checkpoint;
        (link.version, link.hash)
    }

    /// Whether a manifest of a budget is read as one: a build with one identity for both budgets
    /// reads every manifest as a standard one.
    pub open spec fn tells(self, budget: PpoSampleBudget) -> bool {
        budget == PpoSampleBudget::Standard || self.standard.checkpoint != self.annealed.checkpoint
    }
}

/// Failure of a run that a build or its configuration does not allow.
pub open spec fn run_fault(
    contract: CheckpointContract,
    run: RunView,
    config: PpoConfig,
) -> Option<CheckpointError> {
    either(
        text_fault("git commit", run.git_commit),
        either(
            text_fault("simulator commit", run.simulator_commit),
            either(
                text_fault("enabled features", run.enabled_features),
                either(
                    text_fault("command line", run.command_line),
                    if run.hero != SHADOW_FIEND || run.map != 2 {
                        Some(invalid("hero or map scope"))
                    } else if run.rules_audit_version != contract.rules_audit_version
                        || run.batch_size != config.minibatch {
                        Some(invalid("rules audit or batch size"))
                    } else if config.gamma_tick != MAP2_REWARD_GAMMA_TICK {
                        Some(invalid("Map2 reward discount"))
                    } else if run.enabled_features != feature_text(contract.features) {
                        Some(invalid("enabled features"))
                    } else {
                        None
                    },
                ),
            ),
        ),
    )
}

/// Checks a run against a build and its configuration.
pub fn validate_run_without_model(
    contract: &CheckpointContract,
    run: &CheckpointRun,
    config: PpoConfig,
) -> (r: Result<(), CheckpointError>)
    ensures
        r == checked(run_fault(*contract, run@, config)),
{
    match validate_text("git commit", run.git_commit.as_str()) {
        Ok(()) => {},
        Err(error) => {
            return Err(error);
        },
    }
    match validate_text("simulator commit", run.simulator_commit.as_str()) {
        Ok(()) => {},
        Err(error) => {
            return Err(error);
        },
    }
    match validate_text("enabled features", run.enabled_features.as_str()) {
        Ok(()) => {},
        Err(error) => {
            return Err(error);
        },
    }
    match validate_text("command line", run.command_line.as_str()) {
        Ok(()) => {},
        Err(error) => {
            return Err(error);
        },
    }
    if run.hero.0 != SHADOW_FIEND || run.map.0 != 2 {
        return Err(CheckpointError::InvalidManifest("hero or map scope"));
    }
    if run.rules_audit_version != contract.rules_audit_version || run.batch_size
        != config.minibatch {
        return Err(CheckpointError::InvalidManifest("rules audit or batch size"));
    }
    if config.gamma_tick != MAP2_REWARD_GAMMA_TICK {
        return Err(CheckpointError::InvalidManifest("Map2 reward discount"));
    }
    if run.enabled_features != compiled_features(contract.features) {
        return Err(CheckpointError::InvalidManifest("enabled features"));
    }
    Ok(())
}

/// Failure of a run on a learner device.
pub open spec fn device_fault(run: RunView, device: PolicyDevice) -> Option<CheckpointError> {
    match CheckpointDevice::of(device) {
        Err(error) => Some(error),
        Ok(recorded) => if recorded != run.device {
            Some(invalid("device"))
        } else {
            None
        },
    }
}

/// Checks a run against a build, its configuration, and the learner device.
pub fn validate_run(
    contract: &CheckpointContract,
    run: &CheckpointRun,
    device: PolicyDevice,
    config: PpoConfig,
) -> (r: Result<(), CheckpointError>)
    ensures
        r == checked(either(run_fault(*contract, run@, config), device_fault(run@, device))),
{
    match validate_run_without_model(contract, run, config) {
        Ok(()) => {},
        Err(error) => {
            return Err(error);
        },
    }
    match CheckpointDevice::from_policy(device) {
        Err(error) => Err(error),
        Ok(recorded) => if recorded != run.device {
            Err(CheckpointError::InvalidManifest("device"))
        } else {
            Ok(())
        },
    }
}

/// Failure of the first random stream that is invalid or repeats a name.
pub open spec fn streams_fault(list: Seq<RngView>) -> Option<CheckpointError>
    decreases list.len(),
{
    if list.len() == 0 {
        None
    } else {
        let before = list.drop_last();
        either(
            streams_fault(before),
            either(
                rng_fault(list.last()),
                if exists|i: int| 0 <= i < before.len() && (#[trigger] before[i]).name
                    == list.last().name {
                    Some(invalid("duplicate RNG name"))
                } else {
                    None
                },
            ),
        )
    }
}

/// Nonzero references without repetition.
pub open spec fn references_ok(list: Seq<u64>) -> bool {
    &&& forall|i: int| 0 <= i < list.len() ==> #[trigger] list[i] != 0
    &&& forall|i: int, j: int| 0 <= i < j < list.len() ==> list[i] != list[j]
}

pub open spec fn saturated(value: int) -> int {
    if value > u64::MAX {
        u64::MAX as int
    } else {
        value
    }
}

/// Failure of a resume state after a number of trainer updates.
pub open spec fn progress_fault(
    contract: CheckpointContract,
    progress: ResumeView,
    updates: u64,
) -> Option<CheckpointError> {
    if progress.global_update != updates || updates > MAX_TRAINING_COUNTER {
        Some(invalid("global update"))
    } else if progress.scheduler_step > MAX_TRAINING_COUNTER {
        Some(invalid("scheduler step"))
    } else if progress.policy_version > updates + 1 || progress.curriculum_stage
        > MAX_CURRICULUM_STAGE {
        Some(invalid("policy or curriculum counter"))
    } else if progress.rollout_samples > saturated((updates + 1) * contract.maximum_samples) {
        Some(invalid("rollout sample counter"))
    } else if progress.best_evaluation matches Some(bits) && !finite64(bits) {
        Some(invalid("best evaluation"))
    } else if progress.rng_states.len() > MAX_RNG_STATES || progress.league_references.len()
        > MAX_LEAGUE_REFERENCES {
        Some(invalid("bounded collection"))
    } else {
        either(
            streams_fault(progress.rng_states),
            if references_ok(progress.league_references) {
                None
            } else {
                Some(invalid("league references"))
            },
        )
    }
}

proof fn lemma_streams_prefix(list: Seq<RngView>, count: int)
    requires
        0 <= count <= list.len(),
    ensures
        streams_fault(list.take(count)) matches Some(error) ==> streams_fault(list) == Some(error),
    decreases list.len() - count,
{
    if count < list.len() {
        assert(list.take(count + 1).drop_last() =~= list.take(count));
        lemma_streams_prefix(list, count + 1);
    } else {
        assert(list.take(count) =~= list);
    }
}

fn validate_streams(list: &Vec<RngCheckpoint>) -> (r: Result<(), CheckpointError>)
    ensures
        r == checked(streams_fault(rng_views(list@))),
{
    let ghost views = rng_views(list@);
    let mut index: usize = 0;
    while index < list.len()
        invariant
            index <= list@.len(),
            views == rng_views(list@),
            streams_fault(views.take(index as int)) is None,
        decreases list@.len() - index,
    {
        let ghost before = views.take(index as int);
        proof {
            assert(views.take(index + 1).drop_last() =~= before);
            assert(views.take(index + 1).last() == list@[index as int]@);
            lemma_streams_prefix(views, index + 1);
        }
        match list[index].validate() {
            Ok(()) => {},
            Err(error) => {
                return Err(error);
            },
        }
        let mut other: usize = 0;
        while other < index
            invariant
                other <= index < list@.len(),
                views == rng_views(list@),
                before == views.take(index as int),
                forall|i: int|
                    0 <= i < other ==> (#[trigger] before[i]).name != views[index as int].name,
                streams_fault(views.take(index + 1)) == either(
                    rng_fault(views[index as int]),
                    if exists|i: int| 0 <= i < before.len() && (#[trigger] before[i]).name
                        == views[index as int].name {
                        Some(invalid("duplicate RNG name"))
                    } else {
                        None
                    },
                ),
                rng_fault(views[index as int]) is None,
                streams_fault(views.take(index + 1)) matches Some(error) ==> streams_fault(views)
                    == Some(error),
            decreases index - other,
        {
            assert(before[other as int] == list@[other as int]@);
            if list[other].name == list[index].name {
                assert(before[other as int].name == views[index as int].name);
                return Err(CheckpointError::InvalidManifest("duplicate RNG name"));
            }
            other += 1;
        }
        index += 1;
    }
    assert(views.take(index as int) =~= views);
    Ok(())
}

fn validate_references(list: &Vec<u64>) -> (r: bool)
    ensures
        r == references_ok(list@),
{
    let mut right: usize = 0;
    while right < list.len()
        invariant
            right <= list@.len(),
            forall|i: int| 0 <= i < right ==> #[trigger] list@[i] != 0,
            forall|i: int, j: int| 0 <= i < j < right ==> list@[i] != list@[j],
        decreases list@.len() - right,
    {
        if list[right] == 0 {
            assert(list@[right as int] == 0);
            return false;
        }
        let mut left: usize = 0;
        while left < right
            invariant
                left <= right < list@.len(),
                forall|i: int| 0 <= i < left ==> list@[i] != list@[right as int],
            decreases right - left,
        {
            if list[left] == list[right] {
                assert(list@[left as int] == list@[right as int]);
                return false;
            }
            left += 1;
        }
        right += 1;
    }
    true
}

/// Checks a resume state after a number of trainer updates.
pub fn validate_progress(
    contract: &CheckpointContract,
    progress: &CheckpointProgress,
    trainer_updates: u64,
) -> (r: Result<(), CheckpointError>)
    ensures
        r == checked(progress_fault(*contract, progress@, trainer_updates)),
{
    if progress.global_update != trainer_updates || trainer_updates > MAX_TRAINING_COUNTER {
        return Err(CheckpointError::InvalidManifest("global update"));
    }
    if progress.scheduler_step > MAX_TRAINING_COUNTER {
        return Err(CheckpointError::InvalidManifest("scheduler step"));
    }
    if progress.policy_version > trainer_updates + 1 || progress.curriculum_stage
        > MAX_CURRICULUM_STAGE {
        return Err(CheckpointError::InvalidManifest("policy or curriculum counter"));
    }
    let maximum: u64 = match (trainer_updates + 1).checked_mul(contract.maximum_samples) {
        Some(maximum) => maximum,
        None => u64::MAX,
    };
    if progress.rollout_samples > maximum {
        return Err(CheckpointError::InvalidManifest("rollout sample counter"));
    }
    if let Some(bits) = progress.best_evaluation {
        if !is_finite64(bits) {
            return Err(CheckpointError::InvalidManifest("best evaluation"));
        }
    }
    if progress.rng_states.len() > MAX_RNG_STATES || progress.league_references.len()
        > MAX_LEAGUE_REFERENCES {
        return Err(CheckpointError::InvalidManifest("bounded collection"));
    }
    match validate_streams(&progress.rng_states) {
        Ok(()) => {},
        Err(error) => {
            return Err(error);
        },
    }
    if !validate_references(&progress.league_references) {
        return Err(CheckpointError::InvalidManifest("league references"));
    }
    Ok(())
}

} // verus!
