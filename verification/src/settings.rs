//! Play deployment and training-run settings.
use crate::frame::{zero32, NEGATIVE_ZERO_BITS, ONE_BITS};
use crate::mastery::MasteryConfig;
use crate::text::{owned, with_text};
use crate::world::MapId;
use std::path::{Component, Path};
use vstd::prelude::*;

verus! {

/// Largest number of arenas that a training run advances.
pub const MAX_TRAINING_ENVIRONMENTS: usize = 26;
/// Recent completed training games per mastery stage, unless configured.
pub const MASTERY_DEFAULT_WINDOW: usize = 50;
/// Win percentage for all mastery opponents, unless configured.
pub const MASTERY_DEFAULT_WIN_PERCENT: u8 = 80;
/// Discount per simulator tick of the comprehensive reward: one, in single-precision bits.
pub const MAP2_REWARD_GAMMA_TICK: u32 = ONE_BITS;

/// Failure of run settings.
#[derive(Clone, Debug, PartialEq, Eq)]
pub enum SettingsError {
    /// An option or a combination of options is not allowed.
    InvalidInput(&'static str),
    /// A check outside the settings failed.
    Other(String),
}

impl SettingsError {
    pub open spec fn message_spec(self) -> Seq<char> {
        match self {
            SettingsError::InvalidInput(text) => text@,
            SettingsError::Other(text) => text@,
        }
    }

    /// Text of the failure.
    pub fn message(&self) -> (r: String)
        ensures
            r@ == self.message_spec(),
    {
        match self {
            SettingsError::InvalidInput(text) => owned(text),
            SettingsError::Other(text) => owned(text.as_str()),
        }
    }
}

/// Policy that plays a match.
#[derive(Clone, Copy, Debug, PartialEq, Eq, Structural)]
pub enum PlayPolicy {
    Hybrid,
    Neural,
    Tactical,
    Teacher,
}

/// Where the weights of a deployment come from.
#[derive(Clone, Debug, PartialEq, Eq)]
pub enum WeightsSource {
    /// No weights directory.
    Absent,
    /// The directory that the caller named.
    Given,
    /// A repository-relative directory of the maintained deployment.
    Repository(String),
}

/// Maintained human-play selection.
#[derive(Clone, Copy, Debug)]
pub struct DefaultDeployment {
    pub policy: PlayPolicy,
    /// Repository-relative artifact directory for a selected neural policy.
    pub weights_directory: Option<&'static str>,
}

/// First character of a path at or after `from` that is a separator, or its length.
pub open spec fn segment_end(path: Seq<char>, from: int) -> int
    decreases path.len() - from,
{
    if from < 0 || from >= path.len() {
        path.len() as int
    } else if path[from] == '/' {
        from
    } else {
        segment_end(path, from + 1)
    }
}

/// Segments between separators, from a position on.
pub open spec fn segments_from(path: Seq<char>, from: int) -> Seq<Seq<char>>
    decreases path.len() - from,
    when 0 <= from <= path.len()
    via segments_from_decreases
{
    let end = segment_end(path, from);
    if end >= path.len() {
        seq![path.subrange(from, path.len() as int)]
    } else {
        seq![path.subrange(from, end)] + segments_from(path, end + 1)
    }
}

#[via_fn]
proof fn segments_from_decreases(path: Seq<char>, from: int) {
    lemma_segment_end(path, from);
}

proof fn lemma_segment_end(path: Seq<char>, from: int)
    requires
        0 <= from <= path.len(),
    ensures
        from <= segment_end(path, from) <= path.len(),
        segment_end(path, from) < path.len() ==> path[segment_end(path, from)] == '/',
        forall|i: int| from <= i < segment_end(path, from) ==> path[i] != '/',
    decreases path.len() - from,
{
    if from < path.len() && path[from] != '/' {
        lemma_segment_end(path, from + 1);
    }
}

/// One component of a path: a name, or anything else, such as a root or a parent directory.
#[derive(Clone, Debug, PartialEq, Eq)]
pub enum PathComponent {
    Normal(String),
    Other,
}

/// Name of a component, if it is one.
pub open spec fn component_name(component: PathComponent) -> Option<Seq<char>> {
    match component {
        PathComponent::Normal(name) => Some(name@),
        PathComponent::Other => None,
    }
}

/// Names of components, in order.
pub open spec fn component_names(components: Seq<PathComponent>) -> Seq<Option<Seq<char>>> {
    components.map_values(|component: PathComponent| component_name(component))
}

/// Whether a path is relative and holds no character that only some machines give a meaning.
pub open spec fn portable(path: Seq<char>) -> bool {
    &&& path.len() > 0 ==> path[0] != '/'
    &&& forall|i: int| 0 <= i < path.len() ==> (#[trigger] path[i]) != '\\' && path[i] != ':'
}

/// Components of the segments of a portable path: empty segments count for nothing, and neither
/// do current directories behind the first segment.
pub open spec fn portable_names(segments: Seq<Seq<char>>) -> Seq<Option<Seq<char>>>
    decreases segments.len(),
{
    if segments.len() == 0 {
        Seq::empty()
    } else {
        let before = portable_names(segments.drop_last());
        let segment = segments.last();
        if segment.len() == 0 || (segment == seq!['.'] && segments.len() > 1) {
            before
        } else if segment == seq!['.'] || segment == seq!['.', '.'] {
            before.push(None)
        } else {
            before.push(Some(segment))
        }
    }
}

/// Whether names can be the components of a path. Other paths than portable and rooted ones have
/// the components that the machine gives them.
pub open spec fn can_split(path: Seq<char>, names: Seq<Option<Seq<char>>>) -> bool {
    &&& portable(path) ==> names == portable_names(segments_from(path, 0))
    &&& path.len() > 0 && path[0] == '/' ==> names.len() > 0 && names[0] is None
}

/// Calls `Path::components`: the components of a path. Repeated and final separators count for
/// nothing, and neither do current directories behind the beginning; a path from the root begins
/// with no name. What machines disagree on, such as a backslash, is not claimed.
#[verifier::external_body]
fn path_components(path: &str) -> (r: Vec<PathComponent>)
    ensures
        can_split(path@, component_names(r@)),
{
    Path::new(path).components().map(|part| match part {
        Component::Normal(name) => PathComponent::Normal(name.to_string_lossy().into_owned()),
        Component::Prefix(_) => PathComponent::Other,
        Component::RootDir => PathComponent::Other,
        Component::CurDir => PathComponent::Other,
        Component::ParentDir => PathComponent::Other,
    }).collect()
}

/// Whether a path begins in `artifacts` and only descends from there.
pub open spec fn below_artifacts(names: Seq<Option<Seq<char>>>) -> bool {
    &&& names.len() >= 2
    &&& names[0] == Some("artifacts"@)
    &&& forall|i: int| 0 <= i < names.len() ==> (#[trigger] names[i]) is Some
}

/// Characters of a text, in order.
pub fn characters(text: &str) -> (r: Vec<char>)
    ensures
        r@ == text@,
{
    let length: usize = vstd::string::StrSliceExecFns::unicode_len(text);
    let mut output: Vec<char> = Vec::new();
    while output.len() < length
        invariant
            length == text@.len(),
            output@.len() <= length,
            output@ == text@.take(output@.len() as int),
        decreases length - output@.len(),
    {
        let next: char = vstd::string::StrSliceExecFns::get_char(text, output.len());
        output.push(next);
        assert(output@ =~= text@.take(output@.len() as int));
    }
    assert(text@.take(length as int) =~= text@);
    output
}

/// Whether a path segment equals a text.
pub fn segment_is(path: &Vec<char>, from: usize, end: usize, text: &Vec<char>) -> (r: bool)
    requires
        from <= end <= path@.len(),
    ensures
        r == (path@.subrange(from as int, end as int) == text@),
{
    if end - from != text.len() {
        return false;
    }
    let mut index: usize = 0;
    while index < text.len()
        invariant
            index <= text@.len(),
            from <= end <= path@.len(),
            end - from == text@.len(),
            forall|i: int| 0 <= i < index ==> path@[from + i] == text@[i],
        decreases text@.len() - index,
    {
        if path[from + index] != text[index] {
            assert(path@.subrange(from as int, end as int)[index as int] != text@[index as int]);
            return false;
        }
        index += 1;
    }
    assert(path@.subrange(from as int, end as int) =~= text@);
    true
}

/// Whether components begin in `artifacts` and only descend from there.
pub fn is_below_artifacts(components: &Vec<PathComponent>) -> (r: bool)
    ensures
        r == below_artifacts(component_names(components@)),
{
    let ghost names = component_names(components@);
    if components.len() < 2 {
        return false;
    }
    assert(names[0] == component_name(components@[0]));
    match &components[0] {
        PathComponent::Normal(name) => {
            let letters = characters(name.as_str());
            if !segment_is(&letters, 0, letters.len(), &characters("artifacts")) {
                assert(letters@.subrange(0, letters@.len() as int) =~= letters@);
                return false;
            }
            assert(letters@.subrange(0, letters@.len() as int) =~= letters@);
        },
        PathComponent::Other => {
            return false;
        },
    }
    let mut index: usize = 0;
    while index < components.len()
        invariant
            index <= components@.len(),
            names == component_names(components@),
            forall|i: int| 0 <= i < index ==> (#[trigger] names[i]) is Some,
        decreases components@.len() - index,
    {
        assert(names[index as int] == component_name(components@[index as int]));
        match &components[index] {
            PathComponent::Normal(_) => {},
            PathComponent::Other => {
                return false;
            },
        }
        index += 1;
    }
    true
}

impl DefaultDeployment {
    /// The repository selection: the teacher, without weights.
    pub fn maintained() -> (r: Self)
        ensures
            r.policy == PlayPolicy::Teacher,
            r.weights_directory is None,
    {
        DefaultDeployment { policy: PlayPolicy::Teacher, weights_directory: None }
    }

    /// Resolves the selection to a policy and, for a neural one, a repository directory.
    pub fn resolve(self) -> (r: Result<(PlayPolicy, WeightsSource), SettingsError>)
        ensures
            match (self.policy, self.weights_directory) {
                (PlayPolicy::Teacher, None) => r == Ok::<(PlayPolicy, WeightsSource), SettingsError>(
                    (PlayPolicy::Teacher, WeightsSource::Absent),
                ),
                (PlayPolicy::Teacher, Some(_)) => r == Err::<
                    (PlayPolicy, WeightsSource),
                    SettingsError,
                >(unpaired_deployment()),
                (_, None) => r == Err::<(PlayPolicy, WeightsSource), SettingsError>(
                    unpaired_deployment(),
                ),
                (policy, Some(directory)) => exists|names: Seq<Option<Seq<char>>>|
                    #[trigger] can_split(directory@, names) && if directory.len() <= 256
                        && below_artifacts(names) {
                        &&& r matches Ok(choice)
                        &&& choice.0 == policy
                        &&& choice.1 matches WeightsSource::Repository(path)
                        &&& path@ == directory@
                    } else {
                        r == Err::<(PlayPolicy, WeightsSource), SettingsError>(
                            SettingsError::InvalidInput(
                                "default deployment weights must be a repository-relative directory below artifacts",
                            ),
                        )
                    },
            },
    {
        match (self.policy, self.weights_directory) {
            (PlayPolicy::Teacher, None) => Ok((PlayPolicy::Teacher, WeightsSource::Absent)),
            (PlayPolicy::Teacher, Some(_)) => Err(
                SettingsError::InvalidInput(
                    "default Teacher must be weights-free; default neural policies must specify weights",
                ),
            ),
            (_, None) => Err(
                SettingsError::InvalidInput(
                    "default Teacher must be weights-free; default neural policies must specify weights",
                ),
            ),
            (policy, Some(directory)) => {
                let components = path_components(directory);
                assert(can_split(directory@, component_names(components@)));
                if directory.len() > 256 || !is_below_artifacts(&components) {
                    return Err(
                        SettingsError::InvalidInput(
                            "default deployment weights must be a repository-relative directory below artifacts",
                        ),
                    );
                }
                Ok((policy, WeightsSource::Repository(owned(directory))))
            },
        }
    }
}

pub open spec fn unpaired_deployment() -> SettingsError {
    SettingsError::InvalidInput(
        "default Teacher must be weights-free; default neural policies must specify weights",
    )
}

/// Policy and weights of a match: an explicit choice, else weights select the hybrid, else
/// the maintained deployment.
pub fn resolve_play_deployment(policy: Option<PlayPolicy>, weights_given: bool) -> (r: Result<
    (PlayPolicy, WeightsSource),
    SettingsError,
>)
    ensures
        r == match policy {
            Some(PlayPolicy::Teacher) if weights_given => Err::<
                (PlayPolicy, WeightsSource),
                SettingsError,
            >(SettingsError::InvalidInput("teacher forbids --weights-directory")),
            Some(chosen) => Ok(
                (
                    chosen,
                    if weights_given {
                        WeightsSource::Given
                    } else {
                        WeightsSource::Absent
                    },
                ),
            ),
            None => if weights_given {
                Ok((PlayPolicy::Hybrid, WeightsSource::Given))
            } else {
                Ok((PlayPolicy::Teacher, WeightsSource::Absent))
            },
        },
{
    if let Some(chosen) = policy {
        if chosen == PlayPolicy::Teacher && weights_given {
            return Err(SettingsError::InvalidInput("teacher forbids --weights-directory"));
        }
        let source = if weights_given {
            WeightsSource::Given
        } else {
            WeightsSource::Absent
        };
        return Ok((chosen, source));
    }
    if weights_given {
        return Ok((PlayPolicy::Hybrid, WeightsSource::Given));
    }
    DefaultDeployment::maintained().resolve()
}

/// Sample budget that a run is trained under.
#[derive(Clone, Copy, Debug, PartialEq, Eq, Structural)]
pub enum PpoSampleBudget {
    Standard,
    Annealed,
}

/// Policy-optimization configuration; real numbers as single-precision bits.
#[derive(Clone, Copy, Debug, PartialEq, Eq, Structural)]
pub struct PpoConfig {
    pub sample_budget: PpoSampleBudget,
    pub decision_interval_ticks: u32,
    pub rollout_decisions: usize,
    pub environments: usize,
    pub epochs: usize,
    pub minibatch: usize,
    pub clip_epsilon: u32,
    pub value_coefficient: u32,
    pub entropy_coefficient: u32,
    pub learning_rate: u32,
    pub adam_beta1: u32,
    pub adam_beta2: u32,
    pub adam_epsilon: u32,
    pub gradient_clip: u32,
    pub gamma_tick: u32,
    pub gae_lambda: u32,
    pub target_kl: u32,
}

/// Decision cadence and retained capacity of the training map.
#[derive(Clone, Copy, Debug, PartialEq, Eq, Structural)]
pub struct RolloutContract {
    pub decision_interval_ticks: u32,
    pub retained_decisions: usize,
}

/// Frozen opponent that an annealed run names.
#[derive(Clone, Copy, Debug, PartialEq, Eq, Structural)]
pub enum AnnealedOpponent {
    Teacher,
    Weights,
}

/// Options of an annealed domain-randomization run.
#[derive(Clone, Copy, Debug, PartialEq, Eq)]
pub struct AnnealedRequest {
    pub updates: u64,
    pub games: usize,
    pub parallel: Option<usize>,
    pub generation_games: u64,
    pub zero_updates: Option<u64>,
    pub opponent: AnnealedOpponent,
    pub opponent_weights_given: bool,
    pub learning_rate: u32,
    pub epochs: usize,
    pub minibatch: usize,
    pub gae_lambda: u32,
    pub entropy_coefficient: u32,
    pub checkpoint_seconds: u64,
    pub seed: u64,
}

/// Complete settings of an annealed run.
#[derive(Clone, Debug, PartialEq, Eq)]
pub struct AnnealedJobConfig {
    pub updates: u64,
    pub games_per_update: usize,
    pub parallel_worlds: usize,
    pub games_per_generation: u64,
    pub zero_updates: u64,
    pub seed: u64,
    pub opponent: AnnealedOpponent,
    pub ppo: PpoConfig,
    pub checkpoint_seconds: u64,
    pub git_commit: String,
    pub simulator_commit: String,
}

/// Greatest common divisor: the common divisors of two numbers are the divisors of it.
spec fn gcd(left: nat, right: nat) -> nat
    decreases right,
{
    if right == 0 {
        left
    } else {
        gcd(right, left % right)
    }
}

fn greatest_common_divisor(left: u64, right: u64) -> (r: u64)
    ensures
        r == gcd(left as nat, right as nat),
{
    let mut high: u64 = left;
    let mut low: u64 = right;
    while low != 0
        invariant
            gcd(high as nat, low as nat) == gcd(left as nat, right as nat),
        decreases low,
    {
        let rest: u64 = high % low;
        high = low;
        low = rest;
    }
    high
}

/// Cores that a run may use.
pub open spec fn core_budget(cores: usize) -> int {
    if cores < 1 {
        1
    } else if cores > MAX_TRAINING_ENVIRONMENTS {
        MAX_TRAINING_ENVIRONMENTS as int
    } else {
        cores as int
    }
}

/// Divisor of both game counts; one alone when both are zero.
pub open spec fn divides_games(games: usize, generation_games: u64, candidate: int) -> bool {
    if games == 0 && generation_games == 0 {
        candidate == 1
    } else {
        games as int % candidate == 0 && generation_games as int % candidate == 0
    }
}

/// Largest divisor of both game counts within the core budget.
pub open spec fn is_default_parallel(
    games: usize,
    generation_games: u64,
    cores: usize,
    worlds: int,
) -> bool {
    &&& 1 <= worlds <= core_budget(cores)
    &&& divides_games(games, generation_games, worlds)
    &&& forall|other: int|
        worlds < other <= core_budget(cores) ==> !#[trigger] divides_games(
            games,
            generation_games,
            other,
        )
}

/// Largest divisor of both game counts not past `cores`.
pub fn default_parallel_worlds_for(games: usize, generation_games: u64, cores: usize) -> (r: usize)
    ensures
        is_default_parallel(games, generation_games, cores, r as int),
{
    let gcd: u64 = greatest_common_divisor(games as u64, generation_games);
    let common: u64 = if gcd == 0 {
        1
    } else {
        gcd
    };
    let budget: usize = if cores < 1 {
        1
    } else if cores > MAX_TRAINING_ENVIRONMENTS {
        MAX_TRAINING_ENVIRONMENTS
    } else {
        cores
    };
    let mut candidate: usize = budget;
    while candidate > 1
        invariant
            1 <= candidate <= budget,
            budget == core_budget(cores),
            budget <= MAX_TRAINING_ENVIRONMENTS,
            gcd == crate::settings::gcd(games as nat, generation_games as nat),
            common == (if gcd == 0 {
                1
            } else {
                gcd
            }),
            forall|other: int|
                candidate < other <= core_budget(cores) ==> !#[trigger] divides_games(
                    games,
                    generation_games,
                    other,
                ),
        decreases candidate,
    {
        proof {
            lemma_common_divisor(games as nat, generation_games as nat, candidate as int);
            lemma_no_common_divisor(games as nat, generation_games as nat);
            if gcd == 0 {
                assert(1int % (candidate as int) == 1) by (nonlinear_arith)
                    requires
                        candidate > 1,
                ;
            }
        }
        if common % (candidate as u64) == 0 {
            return candidate;
        }
        candidate -= 1;
    }
    candidate
}

proof fn lemma_no_common_divisor(left: nat, right: nat)
    ensures
        gcd(left, right) == 0 <==> left == 0 && right == 0,
    decreases right,
{
    if right != 0 {
        lemma_no_common_divisor(right, left % right);
    }
}

proof fn lemma_multiple(value: int, divisor: int)
    requires
        divisor > 0,
    ensures
        value % divisor == 0 <==> exists|k: int| value == #[trigger] (k * divisor),
{
    if value % divisor == 0 {
        vstd::arithmetic::div_mod::lemma_fundamental_div_mod(value, divisor);
        let k = value / divisor;
        assert(value == k * divisor) by (nonlinear_arith)
            requires
                value == divisor * k + 0,
        ;
    }
    if exists|k: int| value == #[trigger] (k * divisor) {
        let k = choose|k: int| value == #[trigger] (k * divisor);
        vstd::arithmetic::div_mod::lemma_mod_multiples_basic(k, divisor);
    }
}

proof fn lemma_common_divisor(left: nat, right: nat, divisor: int)
    requires
        divisor > 0,
    ensures
        gcd(left, right) as int % divisor == 0 <==> left as int % divisor == 0 && right as int
            % divisor == 0,
    decreases right,
{
    if right == 0 {
        assert(0int % divisor == 0) by (nonlinear_arith)
            requires
                divisor > 0,
        ;
    } else {
        let rest = left % right;
        let quotient = left as int / right as int;
        lemma_common_divisor(right, rest, divisor);
        vstd::arithmetic::div_mod::lemma_fundamental_div_mod(left as int, right as int);
        lemma_multiple(left as int, divisor);
        lemma_multiple(right as int, divisor);
        lemma_multiple(rest as int, divisor);
        if right as int % divisor == 0 && rest as int % divisor == 0 {
            let a = choose|k: int| right as int == #[trigger] (k * divisor);
            let b = choose|k: int| rest as int == #[trigger] (k * divisor);
            assert(left as int == (a * quotient + b) * divisor) by (nonlinear_arith)
                requires
                    left as int == right as int * quotient + rest as int,
                    right as int == a * divisor,
                    rest as int == b * divisor,
            ;
        }
        if right as int % divisor == 0 && left as int % divisor == 0 {
            let a = choose|k: int| right as int == #[trigger] (k * divisor);
            let b = choose|k: int| left as int == #[trigger] (k * divisor);
            assert(rest as int == (b - a * quotient) * divisor) by (nonlinear_arith)
                requires
                    left as int == right as int * quotient + rest as int,
                    right as int == a * divisor,
                    left as int == b * divisor,
            ;
        }
    }
}

/// The default number of parallel worlds divides both game counts.
pub proof fn default_parallel_worlds_divide_both_game_counts(
    games: usize,
    generation_games: u64,
    cores: usize,
    worlds: int,
)
    requires
        is_default_parallel(games, generation_games, cores, worlds),
    ensures
        games as int % worlds == 0,
        generation_games as int % worlds == 0,
{
}

/// Failure of annealed options.
pub open spec fn annealed_fault(request: AnnealedRequest) -> Option<SettingsError> {
    if request.updates == 0 {
        Some(SettingsError::InvalidInput("annealed updates must be positive"))
    } else if request.games % 2 != 0 {
        Some(
            SettingsError::InvalidInput(
                "annealed games per update must be even so sides split exactly",
            ),
        )
    } else if request.generation_games == 0 {
        Some(SettingsError::InvalidInput("annealed generation games must be positive"))
    } else if request.opponent == AnnealedOpponent::Weights && !request.opponent_weights_given {
        Some(SettingsError::InvalidInput("weights opponent requires --opponent-weights"))
    } else if request.opponent == AnnealedOpponent::Teacher && request.opponent_weights_given {
        Some(SettingsError::InvalidInput("teacher opponent forbids --opponent-weights"))
    } else {
        None
    }
}

/// Whether settings are those that annealed options ask for.
pub open spec fn annealed_as_asked(
    settings: AnnealedJobConfig,
    request: AnnealedRequest,
    base: PpoConfig,
    contract: RolloutContract,
    cores: usize,
) -> bool {
    &&& settings.updates == request.updates
    &&& settings.games_per_update == request.games
    &&& settings.games_per_generation == request.generation_games
    &&& settings.seed == request.seed
    &&& settings.opponent == request.opponent
    &&& settings.checkpoint_seconds == request.checkpoint_seconds
    &&& match request.parallel {
        Some(worlds) => settings.parallel_worlds == worlds,
        None => is_default_parallel(
            request.games,
            request.generation_games,
            cores,
            settings.parallel_worlds as int,
        ),
    }
    &&& match request.zero_updates {
        Some(zero) => settings.zero_updates == zero,
        None => settings.zero_updates == (request.updates + 4) / 5,
    }
    &&& settings.ppo == (PpoConfig {
        decision_interval_ticks: contract.decision_interval_ticks,
        environments: request.games,
        rollout_decisions: contract.retained_decisions,
        epochs: request.epochs,
        minibatch: request.minibatch,
        learning_rate: request.learning_rate,
        gamma_tick: MAP2_REWARD_GAMMA_TICK,
        gae_lambda: request.gae_lambda,
        entropy_coefficient: request.entropy_coefficient,
        ..base
    })
}

impl AnnealedRequest {
    /// Builds the settings of an annealed run on a host with a number of cores.
    pub fn annealed_settings(
        &self,
        base: PpoConfig,
        contract: RolloutContract,
        cores: usize,
        git_commit: String,
        simulator_commit: String,
    ) -> (r: Result<AnnealedJobConfig, SettingsError>)
        ensures
            match r {
                Err(error) => annealed_fault(*self) == Some(error),
                Ok(settings) => {
                    &&& annealed_fault(*self) is None
                    &&& annealed_as_asked(settings, *self, base, contract, cores)
                    &&& settings.git_commit == git_commit
                    &&& settings.simulator_commit == simulator_commit
                },
            },
    {
        if self.updates == 0 {
            return Err(SettingsError::InvalidInput("annealed updates must be positive"));
        }
        if self.games % 2 != 0 {
            return Err(
                SettingsError::InvalidInput(
                    "annealed games per update must be even so sides split exactly",
                ),
            );
        }
        if self.generation_games == 0 {
            return Err(SettingsError::InvalidInput("annealed generation games must be positive"));
        }
        match (self.opponent, self.opponent_weights_given) {
            (AnnealedOpponent::Weights, false) => {
                return Err(
                    SettingsError::InvalidInput("weights opponent requires --opponent-weights"),
                );
            },
            (AnnealedOpponent::Teacher, true) => {
                return Err(
                    SettingsError::InvalidInput("teacher opponent forbids --opponent-weights"),
                );
            },
            _ => {},
        }
        let parallel_worlds: usize = match self.parallel {
            Some(worlds) => worlds,
            None => default_parallel_worlds_for(self.games, self.generation_games, cores),
        };
        let zero_updates: u64 = match self.zero_updates {
            Some(zero) => zero,
            None => (self.updates - 1) / 5 + 1,
        };
        let ppo = PpoConfig {
            decision_interval_ticks: contract.decision_interval_ticks,
            environments: self.games,
            rollout_decisions: contract.retained_decisions,
            epochs: self.epochs,
            minibatch: self.minibatch,
            learning_rate: self.learning_rate,
            gamma_tick: MAP2_REWARD_GAMMA_TICK,
            gae_lambda: self.gae_lambda,
            entropy_coefficient: self.entropy_coefficient,
            ..base
        };
        Ok(
            AnnealedJobConfig {
                updates: self.updates,
                games_per_update: self.games,
                parallel_worlds,
                games_per_generation: self.generation_games,
                zero_updates,
                seed: self.seed,
                opponent: self.opponent,
                ppo,
                checkpoint_seconds: self.checkpoint_seconds,
                git_commit,
                simulator_commit,
            },
        )
    }
}

/// Opponents of full training episodes.
#[derive(Clone, Copy, Debug, PartialEq, Eq, Structural)]
pub enum OpponentSchedule {
    Teacher,
    MasteryV1,
    /// Any other versioned schedule, by its index.
    Other(u32),
}

/// Opponent of one mastery stage.
#[derive(Clone, Copy, Debug, PartialEq, Eq, Structural)]
pub enum MasteryOpponent {
    Weak,
    Teacher,
}

/// Per-opponent mastery threshold.
#[derive(Clone, Copy, Debug, PartialEq, Eq, Structural)]
pub struct OpponentWinPercent {
    pub opponent: MasteryOpponent,
    pub percent: u8,
}

/// Number that a text of decimal digits names.
pub open spec fn number_of(text: Seq<char>) -> Option<nat>
    decreases text.len(),
{
    if text.len() == 0 || !('0' <= text.last() && text.last() <= '9') {
        None
    } else {
        let last = (text.last() as u32 - 48) as nat;
        if text.len() == 1 {
            Some(last)
        } else {
            match number_of(text.drop_last()) {
                Some(before) => Some(before * 10 + last),
                None => None,
            }
        }
    }
}

/// Percentage behind an opponent's name, if the text is the name and a percentage.
pub open spec fn percent_behind(text: Seq<char>, name: Seq<char>) -> Option<u8> {
    if text.len() < name.len() || text.take(name.len() as int) != name {
        None
    } else {
        match number_of(text.skip(name.len() as int)) {
            Some(value) => if value <= 255 {
                Some(value as u8)
            } else {
                None
            },
            None => None,
        }
    }
}

fn read_percent(text: &Vec<char>, name: &Vec<char>) -> (r: Option<u8>)
    ensures
        r == percent_behind(text@, name@),
{
    if text.len() < name.len() || !segment_is(text, 0, name.len(), name) {
        assert(text@.len() >= name@.len() ==> text@.take(name@.len() as int) =~= text@.subrange(
            0,
            name@.len() as int,
        ));
        return None;
    }
    assert(text@.take(name@.len() as int) =~= text@.subrange(0, name@.len() as int));
    let ghost digits = text@.skip(name@.len() as int);
    let mut value: u64 = 0;
    let mut at: usize = name.len();
    while at < text.len()
        invariant
            name@.len() <= at <= text@.len(),
            digits == text@.skip(name@.len() as int),
            value <= 256,
            at > name@.len() ==> (number_of(digits.take(at - name@.len())) matches Some(number)
                && if number > 255 {
                    value == 256
                } else {
                    value == number
                }),
            at == name@.len() ==> value == 0,
        decreases text@.len() - at,
    {
        let next: char = text[at];
        let ghost seen = digits.take(at - name@.len() + 1);
        proof {
            assert(seen.drop_last() =~= digits.take(at - name@.len()));
            assert(seen.last() == next);
        }
        if !('0' <= next && next <= '9') {
            proof {
                lemma_no_number(digits, at - name@.len() + 1);
            }
            return None;
        }
        value = value * 10 + (next as u32 - 48) as u64;
        if value > 255 {
            value = 256;
        }
        at += 1;
    }
    assert(digits.take(digits.len() as int) =~= digits);
    if at == name.len() || value > 255 {
        return None;
    }
    Some(value as u8)
}

proof fn lemma_no_number(text: Seq<char>, count: int)
    requires
        0 <= count <= text.len(),
        number_of(text.take(count)) is None,
        count > 0,
    ensures
        number_of(text) is None,
    decreases text.len() - count,
{
    if count < text.len() {
        assert(text.take(count + 1).drop_last() =~= text.take(count));
        lemma_no_number(text, count + 1);
    } else {
        assert(text.take(count) =~= text);
    }
}

impl OpponentWinPercent {
    /// Threshold that a text such as `weak=90` names.
    pub open spec fn named(text: Seq<char>) -> Option<OpponentWinPercent> {
        match percent_behind(text, "weak="@) {
            Some(percent) => Some(
                OpponentWinPercent { opponent: MasteryOpponent::Weak, percent },
            ),
            None => match percent_behind(text, "teacher="@) {
                Some(percent) => Some(
                    OpponentWinPercent { opponent: MasteryOpponent::Teacher, percent },
                ),
                None => None,
            },
        }
    }

    /// Reads a threshold such as `weak=90`.
    pub fn parse(text: &str) -> (r: Result<Self, SettingsError>)
        ensures
            r == match Self::named(text@) {
                Some(threshold) => Ok::<Self, SettingsError>(threshold),
                None => Err(
                    SettingsError::InvalidInput("expected weak=PERCENT or teacher=PERCENT"),
                ),
            },
    {
        let letters = characters(text);
        if let Some(percent) = read_percent(&letters, &characters("weak=")) {
            return Ok(OpponentWinPercent { opponent: MasteryOpponent::Weak, percent });
        }
        if let Some(percent) = read_percent(&letters, &characters("teacher=")) {
            return Ok(OpponentWinPercent { opponent: MasteryOpponent::Teacher, percent });
        }
        Err(SettingsError::InvalidInput("expected weak=PERCENT or teacher=PERCENT"))
    }
}

/// Options of a resumable training run.
#[derive(Clone, Debug, PartialEq, Eq)]
pub struct TrainingRequest {
    pub episode_time_cost: u32,
    pub terminal_only: bool,
    pub complete_episodes: bool,
    pub pipeline_groups: u8,
    pub opponent_schedule: OpponentSchedule,
    pub mastery_window: Option<u16>,
    pub mastery_win_percent: Option<u8>,
    pub opponent_win_percent: Vec<OpponentWinPercent>,
    pub learning_rate: u32,
    pub gamma_per_tick: u32,
    pub gae_lambda: u32,
    pub entropy_coefficient: u32,
    pub updates: u64,
    pub environments: usize,
    pub rollout: usize,
    pub epochs: usize,
    pub minibatch: usize,
    pub checkpoint_seconds: u64,
    pub migrate_provenance: bool,
    pub seed: u64,
    pub map: u16,
}

/// How a resumed run treats the commit that its checkpoint names.
#[derive(Clone, Copy, Debug, PartialEq, Eq, Structural)]
pub enum ResumeProvenance {
    Strict,
    MigrateGitCommit,
}

/// Complete settings of a resumable training run.
#[derive(Clone, Debug, PartialEq, Eq)]
pub struct TrainingJobConfig {
    pub mastery_config: Option<MasteryConfig>,
    pub opponent_schedule: OpponentSchedule,
    pub episode_time_cost: u32,
    pub terminal_only: bool,
    pub complete_episodes: bool,
    pub pipeline_groups: usize,
    pub updates: u64,
    pub ppo: PpoConfig,
    pub checkpoint_seconds: u64,
    pub resume_provenance: ResumeProvenance,
    pub seed: u64,
    pub map: MapId,
    pub git_commit: String,
    pub simulator_commit: String,
}

impl TrainingRequest {
    /// Failure of reward options that the comprehensive reward does not allow.
    pub open spec fn reward_fault(self) -> Option<SettingsError> {
        if self.terminal_only {
            Some(SettingsError::InvalidInput("Map2 comprehensive reward forbids --terminal-only"))
        } else if !zero32(self.episode_time_cost) {
            Some(
                SettingsError::InvalidInput(
                    "Map2 comprehensive reward requires --episode-time-cost 0",
                ),
            )
        } else if self.gamma_per_tick != MAP2_REWARD_GAMMA_TICK {
            Some(
                SettingsError::InvalidInput("Map2 comprehensive reward requires --gamma-per-tick 1"),
            )
        } else {
            None
        }
    }

    /// Checks reward options against the comprehensive reward.
    pub fn validate_map2_reward(&self) -> (r: Result<(), SettingsError>)
        ensures
            r == match self.reward_fault() {
                Some(error) => Err::<(), SettingsError>(error),
                None => Ok(()),
            },
    {
        if self.terminal_only {
            return Err(
                SettingsError::InvalidInput("Map2 comprehensive reward forbids --terminal-only"),
            );
        }
        if self.episode_time_cost != 0 && self.episode_time_cost != NEGATIVE_ZERO_BITS {
            return Err(
                SettingsError::InvalidInput(
                    "Map2 comprehensive reward requires --episode-time-cost 0",
                ),
            );
        }
        if self.gamma_per_tick != MAP2_REWARD_GAMMA_TICK {
            return Err(
                SettingsError::InvalidInput("Map2 comprehensive reward requires --gamma-per-tick 1"),
            );
        }
        Ok(())
    }

    /// Whether mastery options are given to a schedule without mastery.
    pub open spec fn mastery_misplaced(self) -> bool {
        self.opponent_schedule != OpponentSchedule::MasteryV1 && (self.mastery_window is Some
            || self.mastery_win_percent is Some || self.opponent_win_percent@.len() != 0)
    }

    /// Mastery thresholds of the run, or why its options are refused.
    pub open spec fn mastery_spec(self) -> Result<Option<MasteryConfig>, SettingsError> {
        if self.mastery_misplaced() {
            Err(
                SettingsError::InvalidInput(
                    "mastery options require --opponent-schedule mastery-v1",
                ),
            )
        } else if self.opponent_schedule != OpponentSchedule::MasteryV1 {
            Ok(None)
        } else {
            match MasteryConfig::asked(
                match self.mastery_window {
                    Some(window) => window as usize,
                    None => MASTERY_DEFAULT_WINDOW,
                },
                match self.mastery_win_percent {
                    Some(percent) => percent,
                    None => MASTERY_DEFAULT_WIN_PERCENT,
                },
                self.opponent_win_percent@,
            ) {
                Ok(config) => Ok(Some(config)),
                Err(text) => Err(SettingsError::InvalidInput(text)),
            }
        }
    }

    /// Mastery thresholds of the run; only the mastery schedule takes any.
    pub fn mastery_config(&self) -> (r: Result<Option<MasteryConfig>, SettingsError>)
        ensures
            r == self.mastery_spec(),
            r matches Ok(Some(config)) ==> config.wf(),
    {
        if self.opponent_schedule != OpponentSchedule::MasteryV1 {
            if self.mastery_window.is_some() || self.mastery_win_percent.is_some()
                || self.opponent_win_percent.len() != 0 {
                return Err(
                    SettingsError::InvalidInput(
                        "mastery options require --opponent-schedule mastery-v1",
                    ),
                );
            }
            return Ok(None);
        }
        let window: usize = match self.mastery_window {
            Some(window) => window as usize,
            None => MASTERY_DEFAULT_WINDOW,
        };
        let win_percent: u8 = match self.mastery_win_percent {
            Some(percent) => percent,
            None => MASTERY_DEFAULT_WIN_PERCENT,
        };
        match MasteryConfig::new(window, win_percent, &self.opponent_win_percent) {
            Ok(config) => Ok(Some(config)),
            Err(text) => Err(SettingsError::InvalidInput(text)),
        }
    }

    pub open spec fn ppo_spec(self, base: PpoConfig, contract: RolloutContract) -> PpoConfig {
        PpoConfig {
            decision_interval_ticks: contract.decision_interval_ticks,
            environments: self.environments,
            rollout_decisions: self.rollout,
            epochs: self.epochs,
            minibatch: self.minibatch,
            learning_rate: self.learning_rate,
            gamma_tick: self.gamma_per_tick,
            gae_lambda: self.gae_lambda,
            entropy_coefficient: self.entropy_coefficient,
            ..base
        }
    }

    /// Policy-optimization configuration that the options ask for.
    pub fn ppo_config(&self, base: PpoConfig, contract: RolloutContract) -> (r: PpoConfig)
        ensures
            r == self.ppo_spec(base, contract),
    {
        PpoConfig {
            decision_interval_ticks: contract.decision_interval_ticks,
            environments: self.environments,
            rollout_decisions: self.rollout,
            epochs: self.epochs,
            minibatch: self.minibatch,
            learning_rate: self.learning_rate,
            gamma_tick: self.gamma_per_tick,
            gae_lambda: self.gae_lambda,
            entropy_coefficient: self.entropy_coefficient,
            ..base
        }
    }

    /// Settings of the run before they are checked against its episodes.
    pub open spec fn drafts(
        self,
        settings: TrainingJobConfig,
        ppo: PpoConfig,
        mastery: Option<MasteryConfig>,
        git_commit: String,
        simulator_commit: String,
    ) -> bool {
        settings == (TrainingJobConfig {
            mastery_config: mastery,
            opponent_schedule: self.opponent_schedule,
            episode_time_cost: self.episode_time_cost,
            terminal_only: self.terminal_only,
            complete_episodes: self.complete_episodes,
            pipeline_groups: self.pipeline_groups as usize,
            updates: self.updates,
            ppo,
            checkpoint_seconds: self.checkpoint_seconds,
            resume_provenance: if self.migrate_provenance {
                ResumeProvenance::MigrateGitCommit
            } else {
                ResumeProvenance::Strict
            },
            seed: self.seed,
            map: MapId(self.map),
            git_commit,
            simulator_commit,
        })
    }

    /// Builds the settings of a training run.
    ///
    /// `ppo` is the optimizer's verdict on the configuration of [`Self::ppo_config`], and `check`
    /// the simulator's verdict on the settings: it is asked last, and only about settings that
    /// nothing else refuses.
    pub fn training_settings(
        &self,
        ppo: Result<PpoConfig, String>,
        git_commit: String,
        simulator_commit: String,
        check: impl FnOnce(&TrainingJobConfig) -> Result<(), String>,
    ) -> (r: Result<TrainingJobConfig, SettingsError>)
        requires
            forall|settings: TrainingJobConfig|
                ppo is Ok && self.reward_fault() is None && self.mastery_spec() is Ok
                    && self.drafts(
                    settings,
                    ppo->Ok_0,
                    self.mastery_spec()->Ok_0,
                    git_commit,
                    simulator_commit,
                ) ==> #[trigger] check.requires((&settings,)),
        ensures
            match ppo {
                Err(text) => r == Err::<TrainingJobConfig, SettingsError>(
                    SettingsError::Other(text),
                ),
                Ok(config) => match self.reward_fault() {
                    Some(error) => r == Err::<TrainingJobConfig, SettingsError>(error),
                    None => match self.mastery_spec() {
                        Err(error) => r == Err::<TrainingJobConfig, SettingsError>(error),
                        Ok(mastery) => exists|settings: TrainingJobConfig, verdict: Result<(), String>|
                            self.drafts(settings, config, mastery, git_commit, simulator_commit)
                                && #[trigger] check.ensures((&settings,), verdict) && match verdict {
                                Ok(()) => r == Ok::<TrainingJobConfig, SettingsError>(settings),
                                Err(text) => r == Err::<TrainingJobConfig, SettingsError>(
                                    SettingsError::Other(text),
                                ),
                            },
                    },
                },
            },
    {
        let ppo = match ppo {
            Ok(config) => config,
            Err(text) => {
                return Err(SettingsError::Other(text));
            },
        };
        match self.validate_map2_reward() {
            Ok(()) => {},
            Err(error) => {
                return Err(error);
            },
        }
        let mastery_config = match self.mastery_config() {
            Ok(mastery) => mastery,
            Err(error) => {
                return Err(error);
            },
        };
        let settings = TrainingJobConfig {
            mastery_config,
            opponent_schedule: self.opponent_schedule,
            episode_time_cost: self.episode_time_cost,
            terminal_only: self.terminal_only,
            complete_episodes: self.complete_episodes,
            pipeline_groups: self.pipeline_groups as usize,
            updates: self.updates,
            ppo,
            checkpoint_seconds: self.checkpoint_seconds,
            resume_provenance: if self.migrate_provenance {
                ResumeProvenance::MigrateGitCommit
            } else {
                ResumeProvenance::Strict
            },
            seed: self.seed,
            map: MapId(self.map),
            git_commit,
            simulator_commit,
        };
        let verdict = check(&settings);
        match verdict {
            Ok(()) => Ok(settings),
            Err(text) => Err(SettingsError::Other(text)),
        }
    }
}

/// Checks a checkpoint directory: it exists, and a fresh run finds it empty.
pub fn validate_checkpoint_directory(is_directory: bool, resume: bool, occupied: bool) -> (r: Result<
    (),
    SettingsError,
>)
    ensures
        r is Ok <==> is_directory && (resume || !occupied),
        r matches Err(error) ==> error.message_spec() == (if !is_directory {
            "checkpoint directory must already exist and be a directory"@
        } else {
            "fresh checkpoint directory must be empty; use --resume for an existing run"@
        }),
{
    if !is_directory {
        return Err(
            SettingsError::Other(
                owned("checkpoint directory must already exist and be a directory"),
            ),
        );
    }
    if !resume && occupied {
        return Err(
            SettingsError::Other(
                owned("fresh checkpoint directory must be empty; use --resume for an existing run"),
            ),
        );
    }
    Ok(())
}

/// Commit that a build recorded under a name; an empty one counts as absent.
pub fn embedded_commit(name: &str, value: Option<&str>) -> (r: Result<String, SettingsError>)
    ensures
        match value {
            Some(commit) if commit@.len() != 0 => r matches Ok(text) && text@ == commit@,
            _ => r matches Err(error) && error.message_spec() == "production training requires "@
                + name@ + " to be set when compiling"@,
        },
{
    if let Some(commit) = value {
        if vstd::string::StrSliceExecFns::unicode_len(commit) != 0 {
            return Ok(owned(commit));
        }
    }
    Err(
        SettingsError::Other(
            with_text(
                with_text(owned("production training requires "), name),
                " to be set when compiling",
            ),
        ),
    )
}

/// Learner tensor backend that a run names.
#[derive(Clone, Copy, Debug, PartialEq, Eq, Structural)]
pub enum LearnerDevice {
    Cpu,
    Cuda,
    Metal,
}

/// Learner tensor backend of a build.
#[derive(Clone, Copy, Debug, PartialEq, Eq, Structural)]
pub enum PolicyDevice {
    Cpu,
    Cuda { ordinal: usize },
    Metal { ordinal: usize },
}

impl LearnerDevice {
    /// Backend of a named device, when the build supports it.
    pub fn policy_device(self, ordinal: usize, cuda: bool, metal: bool) -> (r: Result<
        PolicyDevice,
        SettingsError,
    >)
        ensures
            match self {
                LearnerDevice::Cpu => r == Ok::<PolicyDevice, SettingsError>(PolicyDevice::Cpu),
                LearnerDevice::Cuda => if cuda {
                    r == Ok::<PolicyDevice, SettingsError>(PolicyDevice::Cuda { ordinal })
                } else {
                    r matches Err(error) && error.message_spec()
                        == "CUDA learner requires cargo feature `cuda` on Linux or Windows"@
                },
                LearnerDevice::Metal => if metal {
                    r == Ok::<PolicyDevice, SettingsError>(PolicyDevice::Metal { ordinal })
                } else {
                    r matches Err(error) && error.message_spec()
                        == "Metal learner requires cargo feature `metal` on macOS"@
                },
            },
    {
        match self {
            LearnerDevice::Cpu => Ok(PolicyDevice::Cpu),
            LearnerDevice::Cuda => if cuda {
                Ok(PolicyDevice::Cuda { ordinal })
            } else {
                Err(
                    SettingsError::Other(
                        owned("CUDA learner requires cargo feature `cuda` on Linux or Windows"),
                    ),
                )
            },
            LearnerDevice::Metal => if metal {
                Ok(PolicyDevice::Metal { ordinal })
            } else {
                Err(
                    SettingsError::Other(
                        owned("Metal learner requires cargo feature `metal` on macOS"),
                    ),
                )
            },
        }
    }
}

} // verus!
