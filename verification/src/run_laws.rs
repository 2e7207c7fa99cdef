//! What runs ask for, remember, and may be resumed with.
use crate::action::ActionKind;
use crate::checkpoint::{progress_fault, streams_fault, CheckpointContract, ResumeView, RngView};
use crate::frame::FeatureFrame;
use crate::imitation_error::ImitationError;
use crate::local_policy::{
    bounded, ActivePolicyOrder, LocalPolicyState, PolicyAssignment, PolicyDecision,
};
use crate::mastery::{
    environments_ok, scope_fault, threshold_of, whole_rounds, MasteryConfig, MasteryStage,
    ProgressView,
};
use crate::observation::{
    loot_after, projectile_after, JournalView, LootObservation, ObservationView,
    ProjectileObservation,
};
use crate::sample::{
    dagger_fault, frame_map_spec, frame_side_spec, identity_fault, ImitationSample, ImitationSide,
    SampleIdentity,
};
use crate::search::lemma_first_from_means;
use crate::seeds::SeedNamespace;
use crate::settings::{
    annealed_fault, below_artifacts, is_default_parallel, number_of, percent_behind,
    AnnealedOpponent, AnnealedRequest, MasteryOpponent, OpponentSchedule, OpponentWinPercent,
    TrainingRequest,
};
use crate::space::ActionSpace;
use crate::world::{LootView, MapId, ProjectileView};
use vstd::prelude::*;

verus! {

/// A frame names the side and the map whose indicator is one while the other is zero, and none
/// if both or neither are.
pub proof fn frames_name_one_side_and_one_map(frame: FeatureFrame)
    ensures
        frame_side_spec(frame) == Ok::<ImitationSide, ImitationError>(ImitationSide::Radiant)
            <==> frame.global@[4] == 0x3f80_0000 && frame.global@[5] % 0x8000_0000 == 0,
        frame_side_spec(frame) == Ok::<ImitationSide, ImitationError>(ImitationSide::Dire)
            <==> frame.global@[5] == 0x3f80_0000 && frame.global@[4] % 0x8000_0000 == 0,
        frame_map_spec(frame) == Ok::<MapId, ImitationError>(MapId(0)) <==> frame.global@[6]
            == 0x3f80_0000 && frame.global@[7] % 0x8000_0000 == 0,
        frame_map_spec(frame) == Ok::<MapId, ImitationError>(MapId(1)) <==> frame.global@[7]
            == 0x3f80_0000 && frame.global@[6] % 0x8000_0000 == 0,
{
}

/// A sample's identity is that of its frame and its tick, and a sample that the learner visited
/// is for training.
pub proof fn identities_follow_their_frame(
    frame: FeatureFrame,
    space: ActionSpace,
    identity: SampleIdentity,
    learner: crate::action::StructuredAction,
    action: crate::action::StructuredAction,
)
    ensures
        identity_fault(frame, space, identity) is None <==> frame_side_spec(frame) == Ok::<
            ImitationSide,
            ImitationError,
        >(identity.side) && space.context.tick == identity.tick,
        dagger_fault(frame, space, learner, action, identity) is None ==> identity.namespace
            == SeedNamespace::Training && frame_side_spec(frame) == Ok::<
            ImitationSide,
            ImitationError,
        >(identity.side),
{
}

/// Learner and teacher disagree exactly if the learner chose another action; without a learner
/// there is no disagreement.
pub proof fn disagreements_need_two_actions(sample: ImitationSample)
    ensures
        sample.learner_action is None ==> !sample.disagrees(),
        sample.learner_action == Some(sample.teacher_action) ==> !sample.disagrees(),
        sample.learner_action is Some && sample.learner_action != Some(sample.teacher_action)
            ==> sample.disagrees(),
{
}

/// A projectile that was seen before keeps its first tick and remembers where it was; a new one
/// starts now and has not moved.
pub proof fn projectiles_remember_where_they_were(
    previous: ObservationView,
    tick: u32,
    projectile: ProjectileView,
    p: int,
)
    requires
        0 <= p < previous.projectiles.len() && previous.projectiles[p].id == projectile.id,
        forall|k: int| 0 <= k < p ==> (#[trigger] previous.projectiles[k]).id != projectile.id,
    ensures
        projectile_after(previous, tick, projectile).first_tick
            == previous.projectiles[p].first_tick,
        projectile_after(previous, tick, projectile).previous_tick == Some(
            previous.projectiles[p].last_tick,
        ),
        projectile_after(previous, tick, projectile).previous_position
            == previous.projectiles[p].position,
        projectile_after(previous, tick, projectile).position == projectile.pos,
        projectile_after(previous, tick, projectile).last_tick == tick,
{
    let id = projectile.id;
    let test = |entry: ProjectileObservation| entry.id == id;
    lemma_first_from_means(previous.projectiles, test, 0);
    assert(test(previous.projectiles[p]));
    let found = crate::search::first_index(previous.projectiles, test);
    assert(found is Some);
    assert(test(previous.projectiles[found->0]));
    if found->0 < p {
        assert(previous.projectiles[found->0].id != projectile.id);
    }
}

/// A projectile or ground item that was not seen before starts now.
pub proof fn new_observations_start_now(
    previous: ObservationView,
    tick: u32,
    projectile: ProjectileView,
    loot: LootView,
)
    requires
        forall|k: int|
            0 <= k < previous.projectiles.len() ==> (#[trigger] previous.projectiles[k]).id
                != projectile.id,
        forall|k: int|
            0 <= k < previous.loot.len() ==> (#[trigger] previous.loot[k]).id != loot.id,
    ensures
        projectile_after(previous, tick, projectile).first_tick == tick,
        projectile_after(previous, tick, projectile).previous_tick is None,
        loot_after(previous, tick, loot).first_tick == tick,
        loot_after(previous, tick, loot).last_tick == tick,
{
    let id = projectile.id;
    let test = |entry: ProjectileObservation| entry.id == id;
    lemma_first_from_means(previous.projectiles, test, 0);
    let item = loot.id;
    let other = |entry: LootObservation| entry.id == item;
    lemma_first_from_means(previous.loot, other, 0);
    if crate::search::first_index(previous.projectiles, test) is Some {
        assert(test(
            previous.projectiles[crate::search::first_index(previous.projectiles, test)->0],
        ));
    }
    if crate::search::first_index(previous.loot, other) is Some {
        assert(other(previous.loot[crate::search::first_index(previous.loot, other)->0]));
    }
}

/// A ground item that was seen before keeps its first tick.
pub proof fn ground_items_keep_their_first_tick(
    previous: ObservationView,
    tick: u32,
    loot: LootView,
    p: int,
)
    requires
        0 <= p < previous.loot.len() && previous.loot[p].id == loot.id,
        forall|k: int| 0 <= k < p ==> (#[trigger] previous.loot[k]).id != loot.id,
    ensures
        loot_after(previous, tick, loot).first_tick == previous.loot[p].first_tick,
        loot_after(previous, tick, loot).last_tick == tick,
{
    let item = loot.id;
    let test = |entry: LootObservation| entry.id == item;
    lemma_first_from_means(previous.loot, test, 0);
    assert(test(previous.loot[p]));
    let found = crate::search::first_index(previous.loot, test);
    assert(found is Some);
    assert(test(previous.loot[found->0]));
    if found->0 < p {
        assert(previous.loot[found->0].id != loot.id);
    }
}

/// A journal keeps its sixteen latest observations, refuses one that is not later, and goes back
/// no farther than it remembers.
pub proof fn journals_keep_sixteen_observations(
    journal: JournalView,
    next: ObservationView,
    tick: u32,
    extends: bool,
)
    requires
        journal.history.len() <= 16,
    ensures
        journal.pushed(next).observation == next,
        journal.pushed(next).history.last() == next,
        journal.pushed(next).history.len() <= 16,
        journal.history.len() < 16 ==> journal.pushed(next).history == journal.history.push(next),
        journal.history.len() == 16 ==> journal.pushed(next).history[0] == journal.history[1],
        journal.order_fault(tick, extends) is None <==> (journal.observation.tick is Some ==> tick
            > journal.observation.tick->0) && (journal.observation.provenance is Some
            ==> extends),
        journal.rollback_fault(tick) is None <==> (journal.earliest is Some ==> tick
            >= journal.earliest->0),
{
}

/// A local history keeps its sixteen latest entries, the newest last and the oldest leaving
/// first.
pub proof fn local_histories_keep_sixteen_entries(
    list: Seq<PolicyDecision>,
    next: PolicyDecision,
)
    requires
        list.len() <= 16,
    ensures
        bounded(list, next).last() == next,
        bounded(list, next).len() <= 16,
        list.len() < 16 ==> bounded(list, next) == list.push(next),
        list.len() == 16 ==> bounded(list, next)[0] == list[1],
{
}

/// The active order is the one of the latest change: none after a change to none, and one that
/// started at the change otherwise.
pub proof fn the_latest_change_is_active(
    before: LocalPolicyState,
    tick: u32,
    kind: Option<ActionKind>,
    after: LocalPolicyState,
)
    requires
        before.ordered(tick, kind, after),
        before.active_transitions@.len() <= 16,
    ensures
        kind is None ==> after.active_order_spec() is None,
        kind is Some ==> after.active_order_spec() == Some(
            ActivePolicyOrder { started_tick: tick, kind: kind->0 },
        ),
        after.latest_tick == tick,
        before.active_transitions@.len() == 16 ==> after.active_base == (match
        before.active_transitions@[0].kind {
            Some(old) => Some(
                ActivePolicyOrder { started_tick: before.active_transitions@[0].tick, kind: old },
            ),
            None => None,
        }),
{
}

/// The assignment is the latest one.
pub proof fn the_latest_assignment_holds(
    before: LocalPolicyState,
    assignment: PolicyAssignment,
    after: LocalPolicyState,
)
    requires
        before.assigned(assignment, after),
        before.assignments@.len() <= 16,
    ensures
        after.assignment_spec() == Some(assignment),
        after.latest_tick == assignment.tick,
        after.decisions@ == before.decisions@,
{
}

/// Local ticks never go back.
pub proof fn local_ticks_never_go_back(state: LocalPolicyState, tick: u32)
    ensures
        state.regression(tick) is Ok <==> tick >= state.latest_tick,
{
}

/// Thresholds are accepted exactly with a window in bounds and percentages from 1 to 100; an
/// opponent's own percentage overrides the common one, and no opponent may have two.
pub proof fn mastery_thresholds_are_percentages(
    window: usize,
    percent: u8,
    overrides: Seq<OpponentWinPercent>,
    i: int,
)
    requires
        0 <= i < overrides.len(),
    ensures
        MasteryConfig::asked(window, percent, overrides) matches Ok(config) ==> {
            &&& config.window == window
            &&& 1 <= config.weak <= 100
            &&& 1 <= config.teacher <= 100
            &&& overrides[i].opponent == MasteryOpponent::Weak ==> config.weak
                == overrides[i].percent
            &&& overrides[i].opponent == MasteryOpponent::Teacher ==> config.teacher
                == overrides[i].percent
        },
        1 <= percent <= 100 && window >= 1 && window <= crate::mastery::MASTERY_MAX_WINDOW
            ==> MasteryConfig::asked(window, percent, Seq::empty()) == Ok::<
            MasteryConfig,
            &'static str,
        >(MasteryConfig { window, weak: percent, teacher: percent }),
        forall|j: int|
            0 <= j < overrides.len() && j != i && (#[trigger] overrides[j]).opponent
                == overrides[i].opponent ==> MasteryConfig::asked(window, percent, overrides)
                is Err,
{
    lemma_threshold(overrides, overrides[i].opponent, percent, i);
    let none = Seq::<OpponentWinPercent>::empty();
    let weak = |given: OpponentWinPercent| given.opponent == MasteryOpponent::Weak;
    let teacher = |given: OpponentWinPercent| given.opponent == MasteryOpponent::Teacher;
    lemma_first_from_means(none, weak, 0);
    lemma_first_from_means(none, teacher, 0);
    assert(threshold_of(none, MasteryOpponent::Weak, percent) == percent);
    assert(threshold_of(none, MasteryOpponent::Teacher, percent) == percent);
    assert forall|j: int|
        0 <= j < overrides.len() && j != i && (#[trigger] overrides[j]).opponent
            == overrides[i].opponent implies MasteryConfig::asked(window, percent, overrides)
        is Err by {
        if i < j {
            assert(overrides[i].opponent == overrides[j].opponent);
        } else {
            assert(overrides[j].opponent == overrides[i].opponent);
        }
        assert(crate::mastery::given_twice(overrides));
    }
}

proof fn lemma_threshold(
    overrides: Seq<OpponentWinPercent>,
    opponent: MasteryOpponent,
    common: u8,
    i: int,
)
    requires
        0 <= i < overrides.len(),
        overrides[i].opponent == opponent,
    ensures
        !crate::mastery::given_twice(overrides) ==> threshold_of(overrides, opponent, common)
            == overrides[i].percent,
{
    let test = |given: OpponentWinPercent| given.opponent == opponent;
    lemma_first_from_means(overrides, test, 0);
    assert(test(overrides[i]));
    let found = crate::search::first_index(overrides, test);
    assert(found is Some);
    assert(test(overrides[found->0]));
    if found->0 < i {
        assert(overrides[found->0].opponent == overrides[i].opponent);
    }
}

/// A run with thresholds resumes only with progress whose outcomes fit its window and games, and
/// whose games the updates explain: all of them at the first stage, and at least a whole window
/// before them later; thresholds and progress come together.
pub proof fn mastery_progress_is_explained_by_updates(
    config: Option<MasteryConfig>,
    progress: Option<ProgressView>,
    updates: u64,
    environments: usize,
)
    requires
        scope_fault(config, progress, updates, environments) is None,
    ensures
        config is Some <==> progress is Some,
        config is Some ==> {
            &&& progress->0.recent.len() <= config->0.window
            &&& progress->0.recent.len() <= progress->0.games
            &&& environments >= 2 && environments % 2 == 0
            &&& progress->0.games <= updates * environments
            &&& progress->0.games % environments as u64 == 0
            &&& progress->0.stage == MasteryStage::Weak ==> progress->0.games == updates
                * environments
        },
{
}

/// Arenas play in pairs, from two to twenty-six.
pub proof fn arenas_play_in_pairs(environments: usize)
    ensures
        environments_ok(environments) <==> 2 <= environments <= 26 && environments % 2 == 0,
{
}

/// A window is filled in whole rounds: no fewer games than the window, a multiple of the arenas,
/// and less than one round more.
pub proof fn windows_fill_in_whole_rounds(window: usize, environments: usize)
    requires
        environments > 0,
    ensures
        whole_rounds(window, environments) >= window,
        whole_rounds(window, environments) < window + environments,
        whole_rounds(window, environments) % environments as int == 0,
{
    let e = environments as int;
    let rounds = (window + e - 1) / e;
    assert(rounds * e >= window && rounds * e < window + e && (rounds * e) % e == 0)
        by (nonlinear_arith)
        requires
            e > 0,
            rounds == (window + e - 1) / e,
            window >= 0,
    ;
}

/// A checkpoint resumes only at its own number of updates, with counters in bounds, a finite
/// best score, distinct random streams, and distinct league references that are not zero.
pub proof fn resumed_counters_are_in_bounds(
    contract: CheckpointContract,
    progress: ResumeView,
    updates: u64,
    i: int,
    j: int,
)
    requires
        progress_fault(contract, progress, updates) is None,
    ensures
        progress.global_update == updates,
        updates <= 1_000_000_000,
        progress.scheduler_step <= 1_000_000_000,
        progress.policy_version <= updates + 1,
        progress.curriculum_stage <= 1_024,
        progress.best_evaluation is Some ==> (progress.best_evaluation->0 as int
            / 0x10_0000_0000_0000) % 2_048 != 2_047,
        progress.rng_states.len() <= 32,
        progress.league_references.len() <= 32,
        0 <= i < progress.league_references.len() ==> progress.league_references[i] != 0,
        0 <= i < j < progress.league_references.len() ==> progress.league_references[i]
            != progress.league_references[j],
        0 <= i < j < progress.rng_states.len() ==> progress.rng_states[i].name
            != progress.rng_states[j].name,
        0 <= i < progress.rng_states.len() ==> progress.rng_states[i].draws <= 1_000_000_000,
{
    if 0 <= i < progress.rng_states.len() {
        lemma_streams(progress.rng_states, i);
    }
    if 0 <= i < j < progress.rng_states.len() {
        lemma_streams_differ(progress.rng_states, i, j);
    }
}

proof fn lemma_streams(list: Seq<RngView>, i: int)
    requires
        streams_fault(list) is None,
        0 <= i < list.len(),
    ensures
        list[i].draws <= 1_000_000_000,
    decreases list.len(),
{
    if i < list.len() - 1 {
        lemma_streams(list.drop_last(), i);
    }
}

proof fn lemma_streams_differ(list: Seq<RngView>, i: int, j: int)
    requires
        streams_fault(list) is None,
        0 <= i < j < list.len(),
    ensures
        list[i].name != list[j].name,
    decreases list.len(),
{
    if j < list.len() - 1 {
        lemma_streams_differ(list.drop_last(), i, j);
    } else {
        assert(list.drop_last()[i].name == list[i].name);
    }
}

/// Annealed options are refused exactly without updates, with an odd number of games, without
/// generation games, and where the opponent's weights are missing or not wanted.
pub proof fn annealed_runs_split_sides_evenly(request: AnnealedRequest)
    ensures
        annealed_fault(request) is None <==> {
            &&& request.updates > 0
            &&& request.games % 2 == 0
            &&& request.generation_games > 0
            &&& request.opponent == AnnealedOpponent::Weights ==> request.opponent_weights_given
            &&& request.opponent == AnnealedOpponent::Teacher ==> !request.opponent_weights_given
        },
{
}

/// The default number of worlds divides both game counts, fits the cores, at most twenty-six,
/// and no larger number does both.
pub proof fn default_worlds_are_the_most_that_divide(
    games: usize,
    generation_games: u64,
    cores: usize,
    worlds: int,
    other: int,
)
    requires
        is_default_parallel(games, generation_games, cores, worlds),
        games > 0,
        other > worlds,
        other <= 26,
        other <= cores,
    ensures
        1 <= worlds <= 26,
        cores >= 1 ==> worlds <= cores,
        games as int % worlds == 0,
        generation_games as int % worlds == 0,
        games as int % other != 0 || generation_games as int % other != 0,
{
    assert(!crate::settings::divides_games(games, generation_games, other));
}

/// Decimal texts name numbers digit by digit, and no other text names one.
pub proof fn decimal_texts_name_numbers(text: Seq<char>, digit: char)
    ensures
        number_of(Seq::empty()) is None,
        '0' <= digit <= '9' && number_of(text) is Some ==> number_of(text.push(digit)) == Some(
            (number_of(text)->0 * 10 + (digit as u32 - 48)) as nat,
        ),
        !('0' <= digit <= '9') ==> number_of(text.push(digit)) is None,
        '0' <= digit <= '9' ==> number_of(seq![digit]) == Some((digit as u32 - 48) as nat),
{
    assert(text.push(digit).drop_last() =~= text);
    assert(text.push(digit).last() == digit);
    assert(seq![digit].last() == digit);
}

/// A percentage stands behind exactly its opponent's name.
pub proof fn percentages_stand_behind_their_opponent(name: Seq<char>, digits: Seq<char>)
    ensures
        percent_behind(name + digits, name) == (match number_of(digits) {
            Some(value) => if value <= 255 {
                Some(value as u8)
            } else {
                None
            },
            None => None,
        }),
{
    assert((name + digits).take(name.len() as int) =~= name);
    assert((name + digits).skip(name.len() as int) =~= digits);
}

/// A deployment lies below the artifacts: its path begins there, goes on, and never leaves.
pub proof fn deployments_lie_below_the_artifacts(names: Seq<Option<Seq<char>>>, i: int)
    requires
        0 <= i < names.len(),
    ensures
        below_artifacts(names) ==> names.len() >= 2 && names[0] == Some("artifacts"@) && names[i]
            is Some,
        names[i] is None ==> !below_artifacts(names),
        names.len() < 2 ==> !below_artifacts(names),
{
}

/// Mastery options need their schedule; the comprehensive reward needs no terminal reward, no
/// time cost, and no discount.
pub proof fn training_options_fit_together(request: TrainingRequest)
    ensures
        request.opponent_schedule != OpponentSchedule::MasteryV1 && request.mastery_window is Some
            ==> request.mastery_spec() is Err,
        request.opponent_schedule != OpponentSchedule::MasteryV1 && request.mastery_win_percent
            is Some ==> request.mastery_spec() is Err,
        request.opponent_schedule != OpponentSchedule::MasteryV1
            && request.opponent_win_percent@.len() > 0 ==> request.mastery_spec() is Err,
        request.opponent_schedule != OpponentSchedule::MasteryV1 && request.mastery_window is None
            && request.mastery_win_percent is None && request.opponent_win_percent@.len() == 0
            ==> request.mastery_spec() is Ok && request.mastery_spec()->Ok_0 is None,
        request.reward_fault() is None <==> !request.terminal_only && request.episode_time_cost
            % 0x8000_0000 == 0 && request.gamma_per_tick == 0x3f80_0000,
{
}

} // verus!
