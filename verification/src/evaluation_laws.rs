//! What agreement with the teacher means, and what a promoted candidate has shown.
use crate::action::StructuredAction;
use crate::behavioral_target::{
    action_of, labels, labels_reconstruct_their_action, oversize, BehavioralTarget, HeadTarget,
};
use crate::coverage::TeacherCoverage;
use crate::evaluation::{
    counts, evaluated, evaluation_fault, family_full_test, family_test, full_test, fully_agrees,
    heads_agree, kind_agrees, kind_test, membership_fault, paired, selected_test,
    BehavioralPrediction, EvaluationAggregate, OfflineEvaluation,
};
use crate::model::{ModelShape, PolicyIdentity};
use crate::promotion::{
    order64, outcome_test, reports, LearnerMatchOutcome, PairedGameplayReport, PairedSeedResult,
    PromotionGateInput, ScoreTotals,
};
use crate::sample::{ImitationSample, ImitationSide, ImitationSource};
use crate::search::tally;
use crate::seeds::{ImitationSplit, SeedNamespace};
use crate::space::ActionSpace;
use vstd::prelude::*;

verus! {

/// Whether an active head's class was predicted.
pub open spec fn hits<const WIDTH: usize>(head: HeadTarget<WIDTH>, class: Option<usize>) -> bool {
    head.active ==> class == Some(head.selected)
}

/// Whether a prediction names the labeled class of the kind and of every active head: who acts,
/// with which slot, on which entity or point.
pub open spec fn names_the_label(
    target: BehavioralTarget,
    prediction: BehavioralPrediction,
) -> bool {
    &&& prediction.kind == target.kind.selected
    &&& hits(target.controlled, prediction.controlled)
    &&& hits(target.ability, prediction.ability)
    &&& hits(target.item, prediction.item)
    &&& hits(target.swap, prediction.swap)
    &&& hits(target.learn, prediction.learn)
    &&& hits(target.shop, prediction.shop)
    &&& hits(target.loot, prediction.loot)
    &&& hits(target.target_mode, prediction.target_mode)
    &&& hits(target.put_mode, prediction.put_mode)
    &&& hits(target.entity_pointer, prediction.entity_pointer)
    &&& hits(target.point_pointer, prediction.point_pointer)
}

/// Whether a target selects the class of a head that was predicted, if one was.
pub open spec fn takes<const WIDTH: usize>(head: HeadTarget<WIDTH>, class: Option<usize>) -> bool {
    class is Some ==> head.selected == class->0
}

/// Whether the selected classes of a target are those of a prediction.
pub open spec fn selects_as_predicted(
    target: BehavioralTarget,
    prediction: BehavioralPrediction,
) -> bool {
    &&& target.kind.selected == prediction.kind
    &&& takes(target.controlled, prediction.controlled)
    &&& takes(target.ability, prediction.ability)
    &&& takes(target.item, prediction.item)
    &&& takes(target.swap, prediction.swap)
    &&& takes(target.learn, prediction.learn)
    &&& takes(target.shop, prediction.shop)
    &&& takes(target.loot, prediction.loot)
    &&& takes(target.target_mode, prediction.target_mode)
    &&& takes(target.put_mode, prediction.put_mode)
    &&& takes(target.entity_pointer, prediction.entity_pointer)
    &&& takes(target.point_pointer, prediction.point_pointer)
}

/// A prediction that fully agrees with the labels of a legal action stands for that action:
/// whatever classes stand on the heads that were not predicted, the action rebuilt from the
/// predicted ones is the teacher's.
pub proof fn full_agreement_rebuilds_the_teachers_action(
    sample: ImitationSample,
    space: ActionSpace,
    action: StructuredAction,
    prediction: BehavioralPrediction,
    guess: BehavioralTarget,
)
    requires
        space.wf(),
        space.legal(action),
        oversize(space, action) is None,
        labels(sample.target, space, action),
        fully_agrees(sample, prediction),
        selects_as_predicted(guess, prediction),
    ensures
        action_of(guess) == action,
{
    labels_reconstruct_their_action(sample.target, space, action);
}

/// Two predictions that both fully agree with one target select the same class on every active
/// head: the same entity, the same point, the same slot.
pub proof fn full_agreement_leaves_no_choice(
    sample: ImitationSample,
    first: BehavioralPrediction,
    second: BehavioralPrediction,
)
    requires
        fully_agrees(sample, first),
        fully_agrees(sample, second),
    ensures
        first.kind == second.kind,
        sample.target.controlled.active ==> first.controlled == second.controlled
            && first.controlled == Some(sample.target.controlled.selected),
        sample.target.ability.active ==> first.ability == second.ability && first.ability == Some(
            sample.target.ability.selected,
        ),
        sample.target.item.active ==> first.item == second.item && first.item == Some(
            sample.target.item.selected,
        ),
        sample.target.swap.active ==> first.swap == second.swap && first.swap == Some(
            sample.target.swap.selected,
        ),
        sample.target.learn.active ==> first.learn == second.learn && first.learn == Some(
            sample.target.learn.selected,
        ),
        sample.target.shop.active ==> first.shop == second.shop && first.shop == Some(
            sample.target.shop.selected,
        ),
        sample.target.loot.active ==> first.loot == second.loot && first.loot == Some(
            sample.target.loot.selected,
        ),
        sample.target.target_mode.active ==> first.target_mode == second.target_mode
            && first.target_mode == Some(sample.target.target_mode.selected),
        sample.target.put_mode.active ==> first.put_mode == second.put_mode && first.put_mode
            == Some(sample.target.put_mode.selected),
        sample.target.entity_pointer.active ==> first.entity_pointer == second.entity_pointer
            && first.entity_pointer == Some(sample.target.entity_pointer.selected),
        sample.target.point_pointer.active ==> first.point_pointer == second.point_pointer
            && first.point_pointer == Some(sample.target.point_pointer.selected),
{
}

/// A prediction agrees fully exactly if it names the label; the heads below the kind agree
/// whatever the kind, and classes of inactive heads do not count.
pub proof fn predictions_agree_exactly_on_the_label(
    sample: ImitationSample,
    prediction: BehavioralPrediction,
)
    ensures
        fully_agrees(sample, prediction) <==> names_the_label(sample.target, prediction),
        heads_agree(sample.target, prediction) <==> names_the_label(
            sample.target,
            BehavioralPrediction { kind: sample.target.kind.selected, ..prediction },
        ),
        kind_agrees(sample, prediction) <==> prediction.kind == sample.target.kind.selected,
{
}

proof fn lemma_tally_update<T>(list: Seq<T>, test: spec_fn(T) -> bool, i: int, item: T)
    requires
        0 <= i < list.len(),
    ensures
        tally(list.update(i, item), test) + (if test(list[i]) {
            1int
        } else {
            0int
        }) == tally(list, test) + (if test(item) {
            1int
        } else {
            0int
        }),
    decreases list.len(),
{
    let last = list.len() - 1;
    if i < last {
        lemma_tally_update(list.drop_last(), test, i, item);
        assert(list.update(i, item).drop_last() =~= list.drop_last().update(i, item));
    } else {
        assert(list.update(i, item).drop_last() =~= list.drop_last());
    }
}

proof fn lemma_tally_whole<T>(list: Seq<T>, whole: spec_fn(T) -> bool, part: spec_fn(T) -> bool)
    requires
        forall|item: T| #[trigger] part(item) ==> whole(item),
    ensures
        tally(list, part) <= tally(list, whole),
        tally(list, part) == tally(list, whole) <==> forall|i: int|
            0 <= i < list.len() && whole(#[trigger] list[i]) ==> part(list[i]),
    decreases list.len(),
{
    if list.len() > 0 {
        let rest = list.drop_last();
        lemma_tally_whole(rest, whole, part);
        assert(part(list.last()) ==> whole(list.last()));
        assert forall|i: int| 0 <= i < rest.len() implies #[trigger] list[i] == rest[i] by {}
        if tally(list, part) == tally(list, whole) {
            assert forall|i: int| 0 <= i < list.len() && whole(#[trigger] list[i]) implies part(
                list[i],
            ) by {
                if i < rest.len() {
                    assert(list[i] == rest[i]);
                }
            }
        }
        if forall|i: int| 0 <= i < list.len() && whole(#[trigger] list[i]) ==> part(list[i]) {
            assert forall|i: int| 0 <= i < rest.len() && whole(#[trigger] rest[i]) implies part(
                rest[i],
            ) by {
                assert(list[i] == rest[i]);
            }
            assert(list[list.len() - 1] == list.last());
        }
    }
}

/// Replacing one right prediction by a wrong one costs exactly one full agreement, overall and
/// on the side of its sample, and none on the other side.
pub proof fn a_wrong_prediction_costs_one_agreement(
    before: OfflineEvaluation,
    after: OfflineEvaluation,
    samples: Seq<ImitationSample>,
    indices: Seq<usize>,
    predictions: Seq<BehavioralPrediction>,
    coverage: TeacherCoverage,
    i: int,
    wrong: BehavioralPrediction,
)
    requires
        predictions.len() == indices.len(),
        0 <= i < indices.len(),
        evaluated(before, samples, indices, predictions, coverage),
        evaluated(after, samples, indices, predictions.update(i, wrong), coverage),
        names_the_label(samples[indices[i] as int].target, predictions[i]),
        !names_the_label(samples[indices[i] as int].target, wrong),
    ensures
        after.overall.full.matching == before.overall.full.matching - 1,
        after.overall.full.total == before.overall.full.total,
        after.overall.samples == before.overall.samples,
        after.radiant.full.matching == before.radiant.full.matching - (if
        samples[indices[i] as int].side == ImitationSide::Radiant {
            1int
        } else {
            0int
        }),
        after.dire.full.matching == before.dire.full.matching - (if samples[indices[i] as int].side
            == ImitationSide::Dire {
            1int
        } else {
            0int
        }),
{
    let left = paired(samples, indices, predictions);
    let right = paired(samples, indices, predictions.update(i, wrong));
    let item = (samples[indices[i] as int], wrong);
    assert(right =~= left.update(i, item));
    let none = None::<ImitationSide>;
    let radiant = Some(ImitationSide::Radiant);
    let dire = Some(ImitationSide::Dire);
    lemma_tally_update(left, full_test(none), i, item);
    lemma_tally_update(left, full_test(radiant), i, item);
    lemma_tally_update(left, full_test(dire), i, item);
    lemma_tally_update(left, selected_test(none), i, item);
}

/// A wrong prediction in place of a right one also costs one agreement of the family that the
/// teacher chose, and none of any other; how often each family was chosen does not change.
pub proof fn a_wrong_prediction_costs_its_family_one_agreement(
    before: OfflineEvaluation,
    after: OfflineEvaluation,
    samples: Seq<ImitationSample>,
    indices: Seq<usize>,
    predictions: Seq<BehavioralPrediction>,
    coverage: TeacherCoverage,
    i: int,
    wrong: BehavioralPrediction,
    family: int,
)
    requires
        predictions.len() == indices.len(),
        0 <= i < indices.len(),
        0 <= family < 16,
        evaluated(before, samples, indices, predictions, coverage),
        evaluated(after, samples, indices, predictions.update(i, wrong), coverage),
        names_the_label(samples[indices[i] as int].target, predictions[i]),
        !names_the_label(samples[indices[i] as int].target, wrong),
    ensures
        after.overall.families@[family].matching == before.overall.families@[family].matching - (if
        samples[indices[i] as int].teacher_action.kind_spec().index_spec() == family {
            1int
        } else {
            0int
        }),
        after.overall.families@[family].total == before.overall.families@[family].total,
        after.overall.action_distribution@[family] == before.overall.action_distribution@[family],
        before.overall.action_distribution@[family] == before.overall.families@[family].total,
{
    let left = paired(samples, indices, predictions);
    let right = paired(samples, indices, predictions.update(i, wrong));
    let item = (samples[indices[i] as int], wrong);
    assert(right =~= left.update(i, item));
    let none = None::<ImitationSide>;
    lemma_tally_update(left, family_full_test(none, family), i, item);
    lemma_tally_update(left, family_test(none, family), i, item);
    assert(before.overall.families@[family].total == tally(left, family_test(none, family)));
    assert(after.overall.families@[family].total == tally(right, family_test(none, family)));
    assert(before.overall.action_distribution@[family] == tally(left, family_test(none, family)));
    assert(after.overall.action_distribution@[family] == tally(right, family_test(none, family)));
}

/// Every sample of a side agrees on its kind, or in full, exactly if each prediction names its
/// kind, or its label; agreement in full is never more than agreement on the kind.
pub proof fn perfect_scores_need_every_label(
    aggregate: EvaluationAggregate,
    pairs: Seq<(ImitationSample, BehavioralPrediction)>,
    side: Option<ImitationSide>,
)
    requires
        counts(aggregate, pairs, side),
    ensures
        aggregate.full.matching <= aggregate.kind.matching <= aggregate.samples <= pairs.len(),
        side is None ==> aggregate.samples == pairs.len(),
        aggregate.full.matching == aggregate.samples <==> forall|i: int|
            0 <= i < pairs.len() && (side is None || side == Some((#[trigger] pairs[i]).0.side))
                ==> names_the_label(pairs[i].0.target, pairs[i].1),
        aggregate.kind.matching == aggregate.samples <==> forall|i: int|
            0 <= i < pairs.len() && (side is None || side == Some((#[trigger] pairs[i]).0.side))
                ==> pairs[i].1.kind == pairs[i].0.target.kind.selected,
{
    lemma_tally_whole(pairs, selected_test(side), full_test(side));
    lemma_tally_whole(pairs, selected_test(side), kind_test(side));
    lemma_tally_whole(pairs, kind_test(side), full_test(side));
    let any = |pair: (ImitationSample, BehavioralPrediction)| true;
    lemma_tally_whole(pairs, any, selected_test(side));
    lemma_tally_any(pairs, any);
    assert forall|i: int| 0 <= i < pairs.len() implies (full_test(side)(#[trigger] pairs[i])
        <==> (side is None || side == Some(pairs[i].0.side)) && names_the_label(
        pairs[i].0.target,
        pairs[i].1,
    )) && (kind_test(side)(pairs[i]) <==> (side is None || side == Some(pairs[i].0.side))
        && pairs[i].1.kind == pairs[i].0.target.kind.selected) && (selected_test(side)(pairs[i])
        <==> (side is None || side == Some(pairs[i].0.side))) by {
        predictions_agree_exactly_on_the_label(pairs[i].0, pairs[i].1);
    }
}

proof fn lemma_tally_any<T>(list: Seq<T>, test: spec_fn(T) -> bool)
    requires
        forall|item: T| #[trigger] test(item),
    ensures
        tally(list, test) == list.len(),
    decreases list.len(),
{
    if list.len() > 0 {
        lemma_tally_any(list.drop_last(), test);
        assert(test(list.last()));
    }
}

proof fn lemma_members(samples: Seq<ImitationSample>, indices: Seq<usize>, i: int)
    requires
        membership_fault(samples, indices) is None,
        0 <= i < indices.len(),
    ensures
        indices[i] < samples.len(),
        samples[indices[i] as int].split == ImitationSplit::HeldOut,
        samples[indices[i] as int].source != ImitationSource::Dagger,
    decreases indices.len(),
{
    if i < indices.len() - 1 {
        lemma_members(samples, indices.drop_last(), i);
    }
}

/// An evaluation judges held-out samples of the pool alone, none that the learner produced, no
/// more than fit one batch, and as many as the teacher's coverage of the promotion seeds
/// represents.
pub proof fn evaluations_judge_held_out_samples(
    shape: ModelShape,
    samples: Seq<ImitationSample>,
    indices: Seq<usize>,
    coverage: TeacherCoverage,
    i: int,
)
    requires
        evaluation_fault(shape, samples, indices, coverage) is None,
        0 <= i < indices.len(),
    ensures
        indices.len() <= shape.maximum_batch,
        indices[i] < samples.len(),
        samples[indices[i] as int].split == ImitationSplit::HeldOut,
        samples[indices[i] as int].source != ImitationSource::Dagger,
        coverage.represented == indices.len(),
        coverage.attempted == coverage.represented + coverage.failed,
        coverage.namespace == Some(SeedNamespace::Promotion),
        coverage.represented_samples@.contains(
            (samples[indices[i] as int].identity, samples[indices[i] as int].instance),
        ),
{
    lemma_members(samples, indices, i);
    let entries = crate::coverage::entries_of(samples, indices);
    let entry = (samples[indices[i] as int].identity, samples[indices[i] as int].instance);
    assert(entries[i] == entry);
    assert(entries.contains(entry));
    entries.to_multiset_ensures();
    coverage.represented_samples@.to_multiset_ensures();
    assert(entries.to_multiset().count(entry) > 0);
}

/// Places in numeric order: a negative number is below zero, both zeros are equal, and a greater
/// magnitude is farther from zero.
pub proof fn numeric_places_follow_the_numbers(left: u64, right: u64)
    ensures
        order64(0) == 0 && order64(0x8000_0000_0000_0000) == 0,
        left < right < 0x8000_0000_0000_0000 ==> order64(left) < order64(right),
        0x8000_0000_0000_0000 <= left < right ==> order64(right) < order64(left),
        left < 0x8000_0000_0000_0000 <= right ==> order64(right) <= 0 <= order64(left),
{
}

/// A candidate is promoted exactly if at least 95 percent of the held-out samples agree in full,
/// every attempt of the teacher is represented and judged, fewer than one action in a thousand
/// was rejected, the learner scores no less than the teacher on either side and in total, both
/// sides were judged, both audits passed, and at least two families of actions occur.
pub proof fn promoted_candidates_met_every_bar(input: PromotionGateInput)
    ensures
        input.verdict().passed <==> {
            &&& input.held_out.metrics.overall.full.total > 0
            &&& 100 * input.held_out.metrics.overall.full.matching >= 95
                * input.held_out.metrics.overall.full.total
            &&& input.held_out.coverage.attempted > 0
            &&& input.held_out.coverage.represented == input.held_out.coverage.attempted
            &&& input.held_out.metrics.overall.samples == input.held_out.coverage.attempted
            &&& input.rollout.rejected_actions * 1_000 < input.rollout.total_actions
            &&& input.verdict().gameplay_score
            &&& input.held_out.metrics.radiant.samples > 0
            &&& input.held_out.metrics.dire.samples > 0
            &&& input.rollout.side_audit_passed
            &&& input.rollout.exploit_audit_passed
            &&& exists|i: int, j: int|
                0 <= i < j < 16
                    && #[trigger] input.held_out.metrics.overall.action_distribution@[i] > 0
                    && #[trigger] input.held_out.metrics.overall.action_distribution@[j] > 0
        },
{
    let list = input.held_out.metrics.overall.action_distribution@;
    let test = |count: usize| count != 0;
    lemma_tally_two(list, test);
    assert((tally(list, test) >= 2) == input.verdict().nontrivial_action_distribution);
    if tally(list, test) >= 2 {
        let (i, j) = choose|i: int, j: int|
            0 <= i < j < list.len() && test(#[trigger] list[i]) && test(#[trigger] list[j]);
        assert(list[i] > 0 && list[j] > 0);
    }
    if exists|i: int, j: int|
        0 <= i < j < 16 && #[trigger] list[i] > 0 && #[trigger] list[j] > 0 {
        let (i, j) = choose|i: int, j: int|
            0 <= i < j < 16 && #[trigger] list[i] > 0 && #[trigger] list[j] > 0;
        assert(test(list[i]) && test(list[j]));
    }
}

proof fn lemma_tally_two<T>(list: Seq<T>, test: spec_fn(T) -> bool)
    ensures
        tally(list, test) >= 2 <==> exists|i: int, j: int|
            0 <= i < j < list.len() && test(#[trigger] list[i]) && test(#[trigger] list[j]),
    decreases list.len(),
{
    if list.len() > 0 {
        let rest = list.drop_last();
        let last = list.len() - 1;
        lemma_tally_two(rest, test);
        lemma_tally_one(rest, test);
        if tally(list, test) >= 2 {
            if tally(rest, test) >= 2 {
                let (i, j) = choose|i: int, j: int|
                    0 <= i < j < rest.len() && test(#[trigger] rest[i]) && test(#[trigger] rest[j]);
                assert(test(list[i]) && test(list[j]));
            } else {
                let i = choose|i: int| 0 <= i < rest.len() && test(#[trigger] rest[i]);
                assert(test(list[i]) && test(list[last]));
            }
        }
        if exists|i: int, j: int|
            0 <= i < j < list.len() && test(#[trigger] list[i]) && test(#[trigger] list[j]) {
            let (i, j) = choose|i: int, j: int|
                0 <= i < j < list.len() && test(#[trigger] list[i]) && test(#[trigger] list[j]);
            assert(rest[i] == list[i]);
            if j < last {
                assert(rest[j] == list[j]);
            }
        }
    }
}

proof fn lemma_tally_one<T>(list: Seq<T>, test: spec_fn(T) -> bool)
    ensures
        tally(list, test) >= 1 <==> exists|i: int| 0 <= i < list.len() && test(#[trigger] list[i]),
    decreases list.len(),
{
    if list.len() > 0 {
        let rest = list.drop_last();
        let last = list.len() - 1;
        lemma_tally_one(rest, test);
        if tally(rest, test) >= 1 {
            let i = choose|i: int| 0 <= i < rest.len() && test(#[trigger] rest[i]);
            assert(test(list[i]));
        } else if test(list.last()) {
            assert(test(list[last]));
        }
        if exists|i: int| 0 <= i < list.len() && test(#[trigger] list[i]) {
            let i = choose|i: int| 0 <= i < list.len() && test(#[trigger] list[i]);
            if i < last {
                assert(rest[i] == list[i]);
            }
        }
    }
}

/// The learner holds its ground exactly if its score is no less than the teacher's on each side
/// and in total, both totals are finite, and on each side somebody scored.
pub proof fn learners_hold_on_both_sides(input: PromotionGateInput)
    ensures
        input.verdict().gameplay_score == input.gameplay.learner_holds(),
        input.gameplay.learner_holds() ==> order64(input.gameplay.radiant.learner_score)
            >= order64(input.gameplay.radiant.teacher_score),
        input.gameplay.learner_holds() ==> order64(input.gameplay.dire.learner_score) >= order64(
            input.gameplay.dire.teacher_score,
        ),
        input.gameplay.learner_holds() ==> order64(input.gameplay.learner_total) >= order64(
            input.gameplay.teacher_total,
        ),
        input.gameplay.learner_holds() ==> (input.gameplay.learner_total as int
            / 0x10_0000_0000_0000) % 2_048 != 2_047,
        input.gameplay.learner_holds() ==> (input.gameplay.teacher_total as int
            / 0x10_0000_0000_0000) % 2_048 != 2_047,
        input.gameplay.learner_holds() ==> order64(input.gameplay.radiant.learner_score) != 0
            || order64(input.gameplay.radiant.teacher_score) != 0,
        input.gameplay.learner_holds() ==> order64(input.gameplay.dire.learner_score) != 0
            || order64(input.gameplay.dire.teacher_score) != 0,
        0 < order64(input.gameplay.radiant.teacher_score) <= order64(
            input.gameplay.radiant.learner_score,
        ) && 0 < order64(input.gameplay.dire.teacher_score) <= order64(
            input.gameplay.dire.learner_score,
        ) && order64(input.gameplay.teacher_total) <= order64(input.gameplay.learner_total)
            && input.gameplay.learner_total < 0x7ff0_0000_0000_0000
            && input.gameplay.teacher_total < 0x7ff0_0000_0000_0000
            ==> input.gameplay.learner_holds(),
{
}

/// A candidate is judged only if all three inputs speak of it, the games were played
/// on exactly the promotion seeds, a thousand actions or more were counted, and the samples of
/// both sides make up all of them.
pub proof fn judged_inputs_belong_together(
    input: PromotionGateInput,
    candidate: PolicyIdentity,
    totals: ScoreTotals,
)
    requires
        input.fault(candidate, totals) is None,
    ensures
        input.held_out.candidate == candidate,
        input.rollout.candidate == candidate,
        input.gameplay.candidate == candidate,
        input.gameplay.paired_seeds@ == input.held_out.pool.seeds.promotion@,
        input.gameplay.paired_seeds@.len() == input.gameplay.results@.len(),
        forall|i: int|
            0 <= i < input.gameplay.results@.len() ==> input.gameplay.paired_seeds@[i] == (
            #[trigger] input.gameplay.results@[i]).seed,
        1_000 <= input.rollout.total_actions,
        input.rollout.rejected_actions <= input.rollout.total_actions,
        input.held_out.metrics.radiant.samples + input.held_out.metrics.dire.samples
            == input.held_out.metrics.overall.samples,
        input.held_out.metrics.overall.full.matching <= input.held_out.metrics.overall.full.total,
        input.held_out.metrics.overall.full.total == input.held_out.metrics.overall.samples,
        input.held_out.coverage.represented + input.held_out.coverage.failed
            == input.held_out.coverage.attempted,
        input.held_out.metrics.overall.teacher_attempted == input.held_out.coverage.attempted,
        input.held_out.metrics.overall.teacher_covered == input.held_out.coverage.represented,
        input.gameplay.radiant.games == input.gameplay.results@.len(),
        input.gameplay.dire.games == input.gameplay.results@.len(),
{
}

proof fn lemma_outcomes(results: Seq<PairedSeedResult>, side: ImitationSide)
    ensures
        tally(results, outcome_test(side, LearnerMatchOutcome::Win)) + tally(
            results,
            outcome_test(side, LearnerMatchOutcome::Loss),
        ) + tally(results, outcome_test(side, LearnerMatchOutcome::Draw)) == results.len(),
    decreases results.len(),
{
    if results.len() > 0 {
        lemma_outcomes(results.drop_last(), side);
    }
}

/// Every game of a side is a win, a loss, or a draw; one more win on the Radiant side is one more
/// Radiant win and touches no Dire count.
pub proof fn side_reports_count_their_games(
    before: PairedGameplayReport,
    after: PairedGameplayReport,
    i: int,
    better: PairedSeedResult,
)
    requires
        reports(before.radiant, before.results@, ImitationSide::Radiant),
        reports(before.dire, before.results@, ImitationSide::Dire),
        reports(after.radiant, after.results@, ImitationSide::Radiant),
        reports(after.dire, after.results@, ImitationSide::Dire),
        0 <= i < before.results@.len(),
        after.results@ == before.results@.update(i, better),
        before.results@[i].radiant.outcome == LearnerMatchOutcome::Loss,
        better.radiant.outcome == LearnerMatchOutcome::Win,
        better.dire.outcome == before.results@[i].dire.outcome,
    ensures
        before.radiant.wins + before.radiant.losses + before.radiant.draws
            == before.results@.len(),
        before.radiant.games == before.results@.len(),
        after.radiant.wins == before.radiant.wins + 1,
        after.radiant.losses == before.radiant.losses - 1,
        after.radiant.draws == before.radiant.draws,
        after.dire.wins == before.dire.wins,
        after.dire.losses == before.dire.losses,
        after.dire.draws == before.dire.draws,
{
    let list = before.results@;
    lemma_outcomes(list, ImitationSide::Radiant);
    let radiant = ImitationSide::Radiant;
    let dire = ImitationSide::Dire;
    lemma_tally_update(list, outcome_test(radiant, LearnerMatchOutcome::Win), i, better);
    lemma_tally_update(list, outcome_test(radiant, LearnerMatchOutcome::Loss), i, better);
    lemma_tally_update(list, outcome_test(radiant, LearnerMatchOutcome::Draw), i, better);
    lemma_tally_update(list, outcome_test(dire, LearnerMatchOutcome::Win), i, better);
    lemma_tally_update(list, outcome_test(dire, LearnerMatchOutcome::Loss), i, better);
    lemma_tally_update(list, outcome_test(dire, LearnerMatchOutcome::Draw), i, better);
}

} // verus!
