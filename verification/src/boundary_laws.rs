//! What is let in: views, walking paths, coverage, runs, and training checkpoints.
use crate::assembly::{padded, retained};
use crate::checkpoint::{run_fault, CheckpointContract, RunView};
use crate::coverage::TeacherCoverage;
use crate::map_context::{neighbor_of, MapContext};
use crate::model::ModelShape;
use crate::pool::ImitationPool;
use crate::promotion::{report_fault, PairedSeedResult, ScoreTotals};
use crate::sample::{ImitationSide, SampleIdentity};
use crate::search::lemma_first_from_means;
use crate::settings::PpoConfig;
use crate::tools::ProfileRequest;
use crate::tracker::StateTracker;
use crate::training::BehavioralTrainer;
use crate::training_checkpoint::{OptimizerVerdicts, TrainingCheckpoint};
use crate::validation::{dynamic_fault, position_fault, unit_fault};
use crate::world::{ShopEntry, UnitView, WorldView};
use vstd::prelude::*;

verus! {

/// A unit keeps the wire schema exactly if its radius leaves room for a clearance of 32 and its
/// abilities and items have ranges and mana costs in bounds.
pub proof fn units_keep_the_wire_schema(unit: UnitView)
    ensures
        unit_fault(unit) is None <==> {
            &&& 0 <= unit.radius.raw <= 0x7fff_ffff - 2_097_152
            &&& forall|i: int|
                0 <= i < unit.abilities@.len() ==> 0 <= (#[trigger] unit.abilities@[i]).range
                    <= 32_767 && unit.abilities@[i].mana_cost >= 0
            &&& forall|i: int|
                0 <= i < unit.items@.len() && (#[trigger] unit.items@[i]) is Some ==> 0
                    <= unit.items@[i]->0.range <= 32_767 && unit.items@[i]->0.mana_cost >= 0
        },
{
    if unit_fault(unit) is None {
        assert forall|i: int| 0 <= i < unit.abilities@.len() implies 0 <= (
        #[trigger] unit.abilities@[i]).range <= 32_767 && unit.abilities@[i].mana_cost >= 0 by {
            assert(crate::validation::ability_in_schema(unit.abilities@[i]));
        }
        assert forall|i: int|
            0 <= i < unit.items@.len() && (#[trigger] unit.items@[i]) is Some implies 0
            <= unit.items@[i]->0.range <= 32_767 && unit.items@[i]->0.mana_cost >= 0 by {
            assert(crate::validation::item_in_schema(unit.items@[i]));
        }
    }
}

/// A view is let in exactly if every unit keeps the wire schema and no price is negative.
pub proof fn views_keep_the_wire_schema(units: Seq<UnitView>, shop: Seq<ShopEntry>)
    ensures
        dynamic_fault(units, shop) is None <==> {
            &&& forall|i: int| 0 <= i < units.len() ==> unit_fault(#[trigger] units[i]) is None
            &&& forall|i: int| 0 <= i < shop.len() ==> (#[trigger] shop[i]).cost >= 0
        },
{
    let test = |unit: UnitView| unit_fault(unit) is Some;
    lemma_first_from_means(units, test, 0);
    let found = crate::search::first_index(units, test);
    if found is Some {
        assert(test(units[found->0]));
    } else {
        assert forall|i: int| 0 <= i < units.len() implies unit_fault(#[trigger] units[i])
            is None by {
            assert(!test(units[i]));
        }
    }
}

/// Everything in a view that is let in lies on the map.
pub proof fn views_stay_on_the_map(tracker: StateTracker, view: WorldView, i: int)
    requires
        position_fault(tracker, view) is None,
    ensures
        0 <= i < view.units@.len() ==> 0 <= view.units@[i].pos.x.raw < tracker.axis() * 4_194_304
            && 0 <= view.units@[i].pos.y.raw < tracker.axis() * 4_194_304,
        0 <= i < view.loot@.len() ==> 0 <= view.loot@[i].pos.x.raw < tracker.axis() * 4_194_304
            && 0 <= view.loot@[i].pos.y.raw < tracker.axis() * 4_194_304,
        0 <= i < view.planted_trees@.len() ==> 0 <= view.planted_trees@[i].x.raw < tracker.axis()
            * 4_194_304 && 0 <= view.planted_trees@[i].y.raw < tracker.axis() * 4_194_304,
        0 <= i < tracker.static_trees@.len() ==> 0 <= tracker.static_trees@[i].x.raw
            < tracker.axis() * 4_194_304 && 0 <= tracker.static_trees@[i].y.raw < tracker.axis()
            * 4_194_304,
{
    let maximum = crate::validation::maximum_raw(tracker.axis());
    if 0 <= i < view.units@.len() {
        assert(crate::validation::inside(view.units@[i].pos, maximum));
    }
    if 0 <= i < view.loot@.len() {
        assert(crate::validation::inside(view.loot@[i].pos, maximum));
    }
    if 0 <= i < view.planted_trees@.len() {
        assert(crate::validation::inside(view.planted_trees@[i], maximum));
    }
    if 0 <= i < tracker.static_trees@.len() {
        assert(crate::validation::inside(tracker.static_trees@[i], maximum));
    }
}

/// A path enters a cell exactly if its ground can be walked and holds no tree of the map.
pub proof fn paths_enter_walkable_ground(context: MapContext, cell: int, ground: u8)
    requires
        context.terrain@[cell] == ground,
    ensures
        context.enterable(cell) <==> ground >= 128 && !context.static_tree_cells@[cell],
{
    assert((ground & 0x80 != 0) == (ground >= 128)) by (bit_vector);
}

/// A step leads to a cell of the grid at most one column and one row away, and never stays.
pub proof fn steps_lead_to_adjacent_cells(axis: int, cell: int, direction: int, next: int)
    requires
        axis > 0,
        0 <= cell < axis * axis,
        0 <= direction < 8,
        neighbor_of(axis, cell, direction) == Some(next),
    ensures
        0 <= next < axis * axis,
        -1 <= next % axis - cell % axis <= 1,
        -1 <= next / axis - cell / axis <= 1,
        next != cell,
{
    let x = cell % axis + crate::map_context::direction_at(direction).0;
    let y = cell / axis + crate::map_context::direction_at(direction).1;
    assert(0 <= y * axis + x < axis * axis && (y * axis + x) % axis == x && (y * axis + x) / axis
        == y) by (nonlinear_arith)
        requires
            0 <= x < axis,
            0 <= y < axis,
    ;
}

/// One more step leads no less far: to everything that fewer steps lead to, and beyond that only
/// into cells that can be entered.
pub proof fn more_steps_lead_farther(context: MapContext, origin: int, cell: int, steps: nat)
    ensures
        context.reaches(origin, cell, 0) <==> cell == origin,
        context.reaches(origin, cell, steps) ==> context.reaches(origin, cell, steps + 1),
        context.reaches(origin, cell, steps + 1) && !context.reaches(origin, cell, steps)
            ==> context.enterable(cell),
{
    let now = context.within_steps(origin, steps);
    let next = context.within_steps(origin, steps + 1);
    assert(next == Set::new(|c: int| now.contains(c) || context.entered(now, c)));
    assert(next.contains(cell) <==> (now.contains(cell) || context.entered(now, cell)));
}

/// One recorded attempt counts once: as represented or as failed, and on its own side alone.
pub proof fn attempts_count_once(
    before: TeacherCoverage,
    identity: SampleIdentity,
    represented: bool,
    instance: Option<u64>,
    after: TeacherCoverage,
)
    requires
        before.wf(),
        before.attempted < 8_192,
        before.recorded(identity, represented, instance, after),
    ensures
        after.attempted == before.attempted + 1,
        represented ==> after.represented == before.represented + 1 && after.failed
            == before.failed,
        !represented ==> after.failed == before.failed + 1 && after.represented
            == before.represented,
        identity.side == ImitationSide::Radiant ==> after.attempted_by_side@[0]
            == before.attempted_by_side@[0] + 1 && after.attempted_by_side@[1]
            == before.attempted_by_side@[1],
        identity.side == ImitationSide::Dire ==> after.attempted_by_side@[1]
            == before.attempted_by_side@[1] + 1 && after.attempted_by_side@[0]
            == before.attempted_by_side@[0],
        !represented ==> after.represented_by_side@ == before.represented_by_side@,
        represented && identity.side == ImitationSide::Radiant ==> after.represented_by_side@[0]
            == before.represented_by_side@[0] + 1 && after.represented_by_side@[1]
            == before.represented_by_side@[1],
        represented && identity.side == ImitationSide::Dire ==> after.represented_by_side@[1]
            == before.represented_by_side@[1] + 1 && after.represented_by_side@[0]
            == before.represented_by_side@[0],
{
}

/// A run is let in only for its hero and map, under the rules and features of the build, with
/// its own batch size and no discount.
pub proof fn runs_match_their_build(
    contract: CheckpointContract,
    run: RunView,
    config: PpoConfig,
)
    requires
        run_fault(contract, run, config) is None,
    ensures
        run.hero == 2,
        run.map == 2,
        run.rules_audit_version == contract.rules_audit_version,
        run.batch_size == config.minibatch,
        config.gamma_tick == 0x3f80_0000,
        run.enabled_features == crate::checkpoint::feature_text(contract.features),
{
}

/// A gameplay report takes at least one and at most 8192 results, none on a repeated seed.
pub proof fn reports_repeat_no_seed(
    results: Seq<PairedSeedResult>,
    totals: ScoreTotals,
    i: int,
    j: int,
)
    requires
        report_fault(results, totals) is None,
        0 <= i < j < results.len(),
    ensures
        1 <= results.len() <= 8_192,
        results[i].seed != results[j].seed,
{
}

/// A training checkpoint is let in only for the pool revision of the trainer, with as many
/// parameters and moments as the model has, counters in bounds that agree with the optimizer,
/// and an early stop exactly at the end of its patience.
pub proof fn restored_checkpoints_hold_together(
    checkpoint: TrainingCheckpoint,
    shape: ModelShape,
    trainer: BehavioralTrainer,
    pool: ImitationPool,
    verdicts: OptimizerVerdicts,
)
    requires
        checkpoint.fault(shape, trainer, pool, verdicts) is None,
    ensures
        checkpoint.parameters@.len() == shape.parameter_count,
        checkpoint.first_moment@.len() == shape.parameter_count,
        checkpoint.second_moment@.len() == shape.parameter_count,
        checkpoint.model_schema_version == shape.schema_version,
        checkpoint.model_schema_hash == shape.schema_hash,
        checkpoint.pool.instance == pool.binding.instance,
        checkpoint.pool.provenance == pool.binding.provenance,
        checkpoint.pool.instance == trainer.pool.instance,
        checkpoint.pool.provenance == trainer.pool.provenance,
        1 <= checkpoint.effective_batch <= shape.maximum_batch,
        checkpoint.adam_step == checkpoint.global_update,
        checkpoint.epoch <= checkpoint.global_update,
        checkpoint.global_update <= 1_000_000_000,
        checkpoint.shuffle_draws <= 1_000_000_000,
        checkpoint.optimizer_lineage != 0,
        verdicts.current is Ok,
        checkpoint.stopped <==> checkpoint.stale_evaluations
            == checkpoint.early_stopping_config.patience,
        checkpoint.stale_evaluations <= checkpoint.early_stopping_config.patience,
        checkpoint.best_epoch is Some <==> checkpoint.best_parameters is Some,
        checkpoint.best_epoch is Some <==> checkpoint.best_score is Some,
        checkpoint.best_epoch is Some ==> checkpoint.last_evaluation_epoch is Some
            && checkpoint.best_epoch->0 <= checkpoint.last_evaluation_epoch->0
            && checkpoint.last_evaluation_epoch->0 <= checkpoint.epoch,
        checkpoint.best_epoch is Some && checkpoint.stale_evaluations == 0
            ==> checkpoint.best_epoch == checkpoint.last_evaluation_epoch,
        checkpoint.best_epoch is None ==> checkpoint.last_evaluation_epoch is None
            && checkpoint.stale_evaluations == 0,
{
}

/// Tables of a frame hold their rows first and zeros behind them, and keep no more tokens than
/// they have room for.
pub proof fn tables_are_padded_with_zeros(
    rows: Seq<Seq<u32>>,
    count: int,
    width: int,
    i: int,
    column: int,
)
    requires
        0 <= i < count,
        0 <= column < width,
    ensures
        padded(rows, count, width).len() == count,
        i < rows.len() ==> padded(rows, count, width)[i] == rows[i],
        i >= rows.len() ==> padded(rows, count, width)[i].len() == width && padded(
            rows,
            count,
            width,
        )[i][column] == 0,
        retained(rows, count).len() <= count,
        rows.len() <= count ==> retained(rows, count).len() == rows.len(),
{
}

/// A profiling run is let in exactly within its bounds.
pub proof fn profiling_is_bounded(request: ProfileRequest)
    ensures
        request.fault() is None <==> 1 <= request.arenas <= 16 && 1 <= request.ticks <= 20_000
            && request.training_updates <= 2 && 1 <= request.rollout_decisions <= 64,
{
}

} // verus!
