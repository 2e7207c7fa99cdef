//! Offline teacher-forced evaluation of held-out samples.
use crate::behavioral_target::{faulted, first_fault, target_fault, BehavioralTarget, HeadTarget};
use crate::coverage::{AgreementCount, TeacherCoverage};
use crate::imitation_error::ImitationError;
use crate::model::{ModelShape, PolicyIdentity};
use crate::pool::{held_out_indices, ImitationPool, PoolBinding};
use crate::sample::{ImitationSample, ImitationSide, ImitationSource};
use crate::search::{lemma_tally_step, tally};
use crate::seeds::ImitationSplit;
use vstd::prelude::*;

verus! {

/// Number of action families.
pub const ACTION_FAMILIES: usize = 16;

/// Greedy teacher-forced class selected independently for every active target head.
#[derive(Clone, Copy, Debug, PartialEq, Eq)]
pub struct BehavioralPrediction {
    pub kind: usize,
    pub controlled: Option<usize>,
    pub ability: Option<usize>,
    pub item: Option<usize>,
    pub swap: Option<usize>,
    pub learn: Option<usize>,
    pub shop: Option<usize>,
    pub loot: Option<usize>,
    pub target_mode: Option<usize>,
    pub put_mode: Option<usize>,
    pub entity_pointer: Option<usize>,
    pub point_pointer: Option<usize>,
}

/// An inactive head always matches; an active one needs its selected class.
pub open spec fn head_agrees<const WIDTH: usize>(
    target: HeadTarget<WIDTH>,
    prediction: Option<usize>,
) -> bool {
    !target.active || prediction == Some(target.selected)
}

fn head_matches<const WIDTH: usize>(target: &HeadTarget<WIDTH>, prediction: Option<usize>) -> (r:
    bool)
    ensures
        r == head_agrees(*target, prediction),
{
    if !target.active {
        return true;
    }
    match prediction {
        Some(selected) => selected == target.selected,
        None => false,
    }
}

/// Whether every head below the kind agrees.
pub open spec fn heads_agree(target: BehavioralTarget, prediction: BehavioralPrediction) -> bool {
    &&& head_agrees(target.controlled, prediction.controlled)
    &&& head_agrees(target.ability, prediction.ability)
    &&& head_agrees(target.item, prediction.item)
    &&& head_agrees(target.swap, prediction.swap)
    &&& head_agrees(target.learn, prediction.learn)
    &&& head_agrees(target.shop, prediction.shop)
    &&& head_agrees(target.loot, prediction.loot)
    &&& head_agrees(target.target_mode, prediction.target_mode)
    &&& head_agrees(target.put_mode, prediction.put_mode)
    &&& head_agrees(target.entity_pointer, prediction.entity_pointer)
    &&& head_agrees(target.point_pointer, prediction.point_pointer)
}

/// Whether a prediction selects the labeled class of every active head below the kind.
pub fn prediction_matches(target: &BehavioralTarget, prediction: BehavioralPrediction) -> (r: bool)
    ensures
        r == heads_agree(*target, prediction),
{
    head_matches(&target.controlled, prediction.controlled) && head_matches(
        &target.ability,
        prediction.ability,
    ) && head_matches(&target.item, prediction.item) && head_matches(&target.swap, prediction.swap)
        && head_matches(&target.learn, prediction.learn) && head_matches(
        &target.shop,
        prediction.shop,
    ) && head_matches(&target.loot, prediction.loot) && head_matches(
        &target.target_mode,
        prediction.target_mode,
    ) && head_matches(&target.put_mode, prediction.put_mode) && head_matches(
        &target.entity_pointer,
        prediction.entity_pointer,
    ) && head_matches(&target.point_pointer, prediction.point_pointer)
}

/// Whether the kind agrees.
pub open spec fn kind_agrees(sample: ImitationSample, prediction: BehavioralPrediction) -> bool {
    prediction.kind == sample.target.kind.selected
}

/// Whether every head agrees.
pub open spec fn fully_agrees(sample: ImitationSample, prediction: BehavioralPrediction) -> bool {
    kind_agrees(sample, prediction) && heads_agree(sample.target, prediction)
}

/// Offline behavioral metrics for one side selection or the complete sample set.
#[derive(Clone, Debug, Default, PartialEq, Eq)]
pub struct EvaluationAggregate {
    pub samples: usize,
    pub kind: AgreementCount,
    pub full: AgreementCount,
    pub teacher_covered: usize,
    pub teacher_attempted: usize,
    pub families: [AgreementCount; 16],
    pub action_distribution: [usize; 16],
}

/// Whether a sample belongs to a side selection; no side selects every sample.
pub open spec fn on_side(sample: ImitationSample, side: Option<ImitationSide>) -> bool {
    match side {
        Some(chosen) => sample.side == chosen,
        None => true,
    }
}

/// Whether a sample belongs to a selection and its teacher chose a family.
pub open spec fn of_family(sample: ImitationSample, side: Option<ImitationSide>, family: int) -> bool {
    on_side(sample, side) && sample.teacher_action.kind_spec().index_spec() == family
}

pub open spec fn selected_test(side: Option<ImitationSide>) -> spec_fn(
    (ImitationSample, BehavioralPrediction),
) -> bool {
    |pair: (ImitationSample, BehavioralPrediction)| on_side(pair.0, side)
}

pub open spec fn kind_test(side: Option<ImitationSide>) -> spec_fn(
    (ImitationSample, BehavioralPrediction),
) -> bool {
    |pair: (ImitationSample, BehavioralPrediction)|
        on_side(pair.0, side) && kind_agrees(pair.0, pair.1)
}

pub open spec fn full_test(side: Option<ImitationSide>) -> spec_fn(
    (ImitationSample, BehavioralPrediction),
) -> bool {
    |pair: (ImitationSample, BehavioralPrediction)|
        on_side(pair.0, side) && fully_agrees(pair.0, pair.1)
}

pub open spec fn family_test(side: Option<ImitationSide>, family: int) -> spec_fn(
    (ImitationSample, BehavioralPrediction),
) -> bool {
    |pair: (ImitationSample, BehavioralPrediction)| of_family(pair.0, side, family)
}

pub open spec fn family_full_test(side: Option<ImitationSide>, family: int) -> spec_fn(
    (ImitationSample, BehavioralPrediction),
) -> bool {
    |pair: (ImitationSample, BehavioralPrediction)|
        of_family(pair.0, side, family) && fully_agrees(pair.0, pair.1)
}

/// Whether an aggregate counts exactly the pairs of a side selection.
pub open spec fn counts(
    aggregate: EvaluationAggregate,
    pairs: Seq<(ImitationSample, BehavioralPrediction)>,
    side: Option<ImitationSide>,
) -> bool {
    &&& aggregate.samples == tally(pairs, selected_test(side))
    &&& aggregate.kind.total == tally(pairs, selected_test(side))
    &&& aggregate.kind.matching == tally(pairs, kind_test(side))
    &&& aggregate.full.total == tally(pairs, selected_test(side))
    &&& aggregate.full.matching == tally(pairs, full_test(side))
    &&& forall|family: int|
        0 <= family < ACTION_FAMILIES ==> (#[trigger] aggregate.families@[family]).total == tally(
            pairs,
            family_test(side, family),
        ) && aggregate.families@[family].matching == tally(pairs, family_full_test(side, family))
    &&& forall|family: int|
        0 <= family < ACTION_FAMILIES ==> #[trigger] aggregate.action_distribution@[family]
            == tally(pairs, family_test(side, family))
}

/// Aggregate after noting one pair.
pub open spec fn noted(
    before: EvaluationAggregate,
    sample: ImitationSample,
    prediction: BehavioralPrediction,
    after: EvaluationAggregate,
) -> bool {
    let family = sample.teacher_action.kind_spec().index_spec() as int;
    let kind = if kind_agrees(sample, prediction) {
        1int
    } else {
        0int
    };
    let full = if fully_agrees(sample, prediction) {
        1int
    } else {
        0int
    };
    &&& after.samples == before.samples + 1
    &&& after.kind.total == before.kind.total + 1
    &&& after.kind.matching == before.kind.matching + kind
    &&& after.full.total == before.full.total + 1
    &&& after.full.matching == before.full.matching + full
    &&& after.teacher_covered == before.teacher_covered
    &&& after.teacher_attempted == before.teacher_attempted
    &&& forall|i: int|
        0 <= i < ACTION_FAMILIES ==> (#[trigger] after.families@[i]).total
            == before.families@[i].total + (if i == family {
            1int
        } else {
            0int
        }) && after.families@[i].matching == before.families@[i].matching + (if i == family {
            full
        } else {
            0int
        })
    &&& forall|i: int|
        0 <= i < ACTION_FAMILIES ==> #[trigger] after.action_distribution@[i]
            == before.action_distribution@[i] + (if i == family {
            1int
        } else {
            0int
        })
}

/// Every counter is below a bound.
pub open spec fn below(aggregate: EvaluationAggregate, bound: int) -> bool {
    &&& aggregate.samples < bound
    &&& aggregate.kind.total < bound
    &&& aggregate.kind.matching < bound
    &&& aggregate.full.total < bound
    &&& aggregate.full.matching < bound
    &&& forall|i: int|
        0 <= i < ACTION_FAMILIES ==> (#[trigger] aggregate.families@[i]).total < bound
            && aggregate.families@[i].matching < bound
    &&& forall|i: int|
        0 <= i < ACTION_FAMILIES ==> #[trigger] aggregate.action_distribution@[i] < bound
}

proof fn lemma_tally_bound<T>(list: Seq<T>, test: spec_fn(T) -> bool)
    ensures
        tally(list, test) <= list.len(),
    decreases list.len(),
{
    if list.len() > 0 {
        lemma_tally_bound(list.drop_last(), test);
    }
}

proof fn lemma_counts_below(
    aggregate: EvaluationAggregate,
    pairs: Seq<(ImitationSample, BehavioralPrediction)>,
    side: Option<ImitationSide>,
)
    requires
        counts(aggregate, pairs, side),
    ensures
        below(aggregate, pairs.len() as int + 1),
{
    lemma_tally_bound(pairs, selected_test(side));
    lemma_tally_bound(pairs, kind_test(side));
    lemma_tally_bound(pairs, full_test(side));
    assert forall|i: int| 0 <= i < ACTION_FAMILIES implies (#[trigger] aggregate.families@[i]).total
        < pairs.len() + 1 && aggregate.families@[i].matching < pairs.len() + 1 by {
        lemma_tally_bound(pairs, family_test(side, i));
        lemma_tally_bound(pairs, family_full_test(side, i));
    }
    assert forall|i: int| 0 <= i < ACTION_FAMILIES implies #[trigger]
    aggregate.action_distribution@[i] < pairs.len() + 1 by {
        lemma_tally_bound(pairs, family_test(side, i));
    }
}

proof fn lemma_note_counts(
    before: EvaluationAggregate,
    pairs: Seq<(ImitationSample, BehavioralPrediction)>,
    side: Option<ImitationSide>,
    index: int,
    after: EvaluationAggregate,
)
    requires
        0 <= index < pairs.len(),
        counts(before, pairs.take(index), side),
        if on_side(pairs[index].0, side) {
            noted(before, pairs[index].0, pairs[index].1, after)
        } else {
            after == before
        },
    ensures
        counts(after, pairs.take(index + 1), side),
{
    lemma_tally_step(pairs, selected_test(side), index);
    lemma_tally_step(pairs, kind_test(side), index);
    lemma_tally_step(pairs, full_test(side), index);
    assert forall|family: int| 0 <= family < ACTION_FAMILIES implies (
    #[trigger] after.families@[family]).total == tally(
        pairs.take(index + 1),
        family_test(side, family),
    ) && after.families@[family].matching == tally(
        pairs.take(index + 1),
        family_full_test(side, family),
    ) by {
        lemma_tally_step(pairs, family_test(side, family), index);
        lemma_tally_step(pairs, family_full_test(side, family), index);
        assert(before.families@[family].total == tally(
            pairs.take(index),
            family_test(side, family),
        ));
    }
    assert forall|family: int| 0 <= family < ACTION_FAMILIES implies #[trigger]
    after.action_distribution@[family] == tally(
        pairs.take(index + 1),
        family_test(side, family),
    ) by {
        lemma_tally_step(pairs, family_test(side, family), index);
        assert(before.action_distribution@[family] == tally(
            pairs.take(index),
            family_test(side, family),
        ));
    }
}

impl EvaluationAggregate {
    /// Empty metrics.
    pub fn empty() -> (r: Self)
        ensures
            forall|side: Option<ImitationSide>|
                counts(r, Seq::<(ImitationSample, BehavioralPrediction)>::empty(), side),
            r.teacher_covered == 0,
            r.teacher_attempted == 0,
            r.samples == 0,
    {
        EvaluationAggregate {
            samples: 0,
            kind: AgreementCount { matching: 0, total: 0 },
            full: AgreementCount { matching: 0, total: 0 },
            teacher_covered: 0,
            teacher_attempted: 0,
            families: [AgreementCount { matching: 0, total: 0 };16],
            action_distribution: [0;16],
        }
    }

    /// Ratio of samples whose kind agrees.
    pub fn kind_agreement(&self) -> (r: Option<AgreementCount>)
        ensures
            r == self.kind.agreement_spec(),
    {
        self.kind.agreement()
    }

    /// Ratio of samples on which every head agrees.
    pub fn full_agreement(&self) -> (r: Option<AgreementCount>)
        ensures
            r == self.full.agreement_spec(),
    {
        self.full.agreement()
    }

    /// Ratio of represented teacher attempts.
    pub fn teacher_coverage(&self) -> (r: Option<AgreementCount>)
        ensures
            r == (AgreementCount {
                matching: self.teacher_covered,
                total: self.teacher_attempted,
            }).agreement_spec(),
    {
        AgreementCount {
            matching: self.teacher_covered,
            total: self.teacher_attempted,
        }.agreement()
    }

    /// Ratio of samples whose teacher continued the active order.
    pub fn continue_ratio(&self) -> (r: Option<AgreementCount>)
        ensures
            r == (AgreementCount {
                matching: self.action_distribution@[crate::action::ActionKind::Continue.index_spec() as int],
                total: self.samples,
            }).agreement_spec(),
    {
        let index: usize = crate::action::ActionKind::Continue.index();
        AgreementCount { matching: self.action_distribution[index], total: self.samples }.agreement()
    }

    fn note(&mut self, sample: &ImitationSample, prediction: BehavioralPrediction)
        requires
            below(*old(self), usize::MAX as int),
        ensures
            noted(*old(self), *sample, prediction, *final(self)),
    {
        let kind_matches = prediction.kind == sample.target.kind.selected;
        let full_matches = kind_matches && prediction_matches(&sample.target, prediction);
        let kind: usize = if kind_matches {
            1
        } else {
            0
        };
        let full: usize = if full_matches {
            1
        } else {
            0
        };
        self.samples = self.samples + 1;
        self.kind =
        AgreementCount { matching: self.kind.matching + kind, total: self.kind.total + 1 };
        self.full =
        AgreementCount { matching: self.full.matching + full, total: self.full.total + 1 };
        let family: usize = sample.teacher_action.kind().index();
        let count = self.families[family];
        assert(old(self).families@[family as int].matching < usize::MAX);
        let updated = AgreementCount { matching: count.matching + full, total: count.total + 1 };
        self.families[family] = updated;
        assert(old(self).action_distribution@[family as int] < usize::MAX);
        let chosen: usize = self.action_distribution[family] + 1;
        self.action_distribution[family] = chosen;
    }
}

/// Overall, Radiant, and Dire offline teacher-forced behavioral evaluation.
#[derive(Clone, Debug, Default, PartialEq, Eq)]
pub struct OfflineEvaluation {
    pub overall: EvaluationAggregate,
    pub radiant: EvaluationAggregate,
    pub dire: EvaluationAggregate,
}

/// Typed promotion-set evaluation tied to one exact pool revision and real coverage.
#[derive(Debug, PartialEq, Eq)]
pub struct HeldOutEvaluation {
    pub metrics: OfflineEvaluation,
    pub coverage: TeacherCoverage,
    pub pool: PoolBinding,
    pub candidate: PolicyIdentity,
}

impl HeldOutEvaluation {
    pub fn metrics(&self) -> (r: &OfflineEvaluation)
        ensures
            *r == self.metrics,
    {
        &self.metrics
    }

    pub fn coverage(&self) -> (r: &TeacherCoverage)
        ensures
            *r == self.coverage,
    {
        &self.coverage
    }

    pub fn pool(&self) -> (r: &PoolBinding)
        ensures
            *r == self.pool,
    {
        &self.pool
    }

    pub fn candidate(&self) -> (r: PolicyIdentity)
        ensures
            r == self.candidate,
    {
        self.candidate
    }
}

/// Failure of the first sample that is no clean held-out sample of the pool.
pub open spec fn membership_fault(samples: Seq<ImitationSample>, indices: Seq<usize>) -> Option<
    ImitationError,
>
    decreases indices.len(),
{
    if indices.len() == 0 {
        None
    } else {
        first_fault(
            membership_fault(samples, indices.drop_last()),
            if indices.last() >= samples.len() {
                Some(ImitationError::HeldOutSampleNotInPool)
            } else if !clean(samples[indices.last() as int]) {
                Some(ImitationError::HeldOutContamination)
            } else {
                None
            },
        )
    }
}

/// Held-out and not relabeled learner data.
pub open spec fn clean(sample: ImitationSample) -> bool {
    sample.split == ImitationSplit::HeldOut && sample.source != ImitationSource::Dagger
}

/// Failure of the first sample with an invalid label.
pub open spec fn labels_fault(samples: Seq<ImitationSample>, indices: Seq<usize>) -> Option<
    ImitationError,
>
    decreases indices.len(),
{
    if indices.len() == 0 {
        None
    } else {
        first_fault(
            labels_fault(samples, indices.drop_last()),
            target_fault(samples[indices.last() as int].target),
        )
    }
}

/// Failure of an evaluation before the model is asked for predictions.
pub open spec fn evaluation_fault(
    shape: ModelShape,
    samples: Seq<ImitationSample>,
    indices: Seq<usize>,
    coverage: TeacherCoverage,
) -> Option<ImitationError> {
    if indices.len() > shape.maximum_batch {
        Some(
            ImitationError::EffectiveBatch {
                value: indices.len() as usize,
                maximum: shape.maximum_batch,
            },
        )
    } else {
        first_fault(
            membership_fault(samples, indices),
            first_fault(
                coverage.consistency_fault(),
                if coverage.represented != indices.len() || !coverage.covers(samples, indices) {
                    Some(ImitationError::InvalidTeacherCoverage)
                } else {
                    labels_fault(samples, indices)
                },
            ),
        )
    }
}

/// Samples at given indices, each with its prediction.
pub open spec fn paired(
    samples: Seq<ImitationSample>,
    indices: Seq<usize>,
    predictions: Seq<BehavioralPrediction>,
) -> Seq<(ImitationSample, BehavioralPrediction)> {
    Seq::new(indices.len(), |i: int| (samples[indices[i] as int], predictions[i]))
}

/// Whether an evaluation counts the given samples and the coverage behind them.
pub open spec fn evaluated(
    metrics: OfflineEvaluation,
    samples: Seq<ImitationSample>,
    indices: Seq<usize>,
    predictions: Seq<BehavioralPrediction>,
    coverage: TeacherCoverage,
) -> bool {
    let pairs = paired(samples, indices, predictions);
    &&& counts(metrics.overall, pairs, None)
    &&& counts(metrics.radiant, pairs, Some(ImitationSide::Radiant))
    &&& counts(metrics.dire, pairs, Some(ImitationSide::Dire))
    &&& metrics.overall.teacher_covered == coverage.represented
    &&& metrics.overall.teacher_attempted == coverage.attempted
    &&& metrics.radiant.teacher_covered == coverage.represented_by_side@[0]
    &&& metrics.radiant.teacher_attempted == coverage.attempted_by_side@[0]
    &&& metrics.dire.teacher_covered == coverage.represented_by_side@[1]
    &&& metrics.dire.teacher_attempted == coverage.attempted_by_side@[1]
}

impl OfflineEvaluation {
    fn empty() -> (r: Self)
        ensures
            forall|side: Option<ImitationSide>|
                counts(r.overall, Seq::<(ImitationSample, BehavioralPrediction)>::empty(), side),
            forall|side: Option<ImitationSide>|
                counts(r.radiant, Seq::<(ImitationSample, BehavioralPrediction)>::empty(), side),
            forall|side: Option<ImitationSide>|
                counts(r.dire, Seq::<(ImitationSample, BehavioralPrediction)>::empty(), side),
    {
        OfflineEvaluation {
            overall: EvaluationAggregate::empty(),
            radiant: EvaluationAggregate::empty(),
            dire: EvaluationAggregate::empty(),
        }
    }

    /// Checks everything that precedes the model's predictions.
    pub fn validate_held_out(
        shape: ModelShape,
        pool: &ImitationPool,
        indices: &Vec<usize>,
        coverage: &TeacherCoverage,
    ) -> (r: Result<(), ImitationError>)
        ensures
            r == faulted(evaluation_fault(shape, pool.samples@, indices@, *coverage)),
            r is Ok ==> forall|i: int|
                0 <= i < indices@.len() ==> (#[trigger] indices@[i]) < pool.samples@.len() && clean(
                    pool.samples@[indices@[i] as int],
                ),
    {
        if indices.len() > shape.maximum_batch {
            return Err(
                ImitationError::EffectiveBatch {
                    value: indices.len(),
                    maximum: shape.maximum_batch,
                },
            );
        }
        let mut index: usize = 0;
        assert(indices@.take(indices@.len() as int) =~= indices@);
        while index < indices.len()
            invariant
                index <= indices@.len(),
                membership_fault(pool.samples@, indices@.take(index as int)) is None,
                forall|i: int|
                    0 <= i < index ==> (#[trigger] indices@[i]) < pool.samples@.len() && clean(
                        pool.samples@[indices@[i] as int],
                    ),
                indices@.len() <= shape.maximum_batch,
            decreases indices@.len() - index,
        {
            proof {
                assert(indices@.take(index + 1).drop_last() =~= indices@.take(index as int));
                lemma_membership_prefix(pool.samples@, indices@, index + 1);
            }
            let at: usize = indices[index];
            if at >= pool.samples.len() {
                return Err(ImitationError::HeldOutSampleNotInPool);
            }
            if pool.samples[at].split != ImitationSplit::HeldOut || pool.samples[at].source
                == ImitationSource::Dagger {
                return Err(ImitationError::HeldOutContamination);
            }
            index += 1;
        }
        match coverage.validate() {
            Ok(()) => {},
            Err(error) => {
                return Err(error);
            },
        }
        if coverage.represented != indices.len() {
            return Err(ImitationError::InvalidTeacherCoverage);
        }
        if !coverage.matches_samples(&pool.samples, indices) {
            return Err(ImitationError::InvalidTeacherCoverage);
        }
        index = 0;
        while index < indices.len()
            invariant
                index <= indices@.len(),
                labels_fault(pool.samples@, indices@.take(index as int)) is None,
                forall|i: int|
                    0 <= i < indices@.len() ==> (#[trigger] indices@[i]) < pool.samples@.len(),
                indices@.len() <= shape.maximum_batch,
                membership_fault(pool.samples@, indices@) is None,
                coverage.consistent(),
                coverage.represented == indices@.len(),
                coverage.covers(pool.samples@, indices@),
            decreases indices@.len() - index,
        {
            proof {
                assert(indices@.take(index + 1).drop_last() =~= indices@.take(index as int));
                lemma_labels_prefix(pool.samples@, indices@, index + 1);
            }
            match pool.samples[indices[index]].target.validate() {
                Ok(()) => {},
                Err(error) => {
                    return Err(error);
                },
            }
            index += 1;
        }
        assert(indices@.take(index as int) =~= indices@);
        Ok(())
    }

    /// Evaluates only promotion samples from one exact pool revision.
    ///
    /// `prediction` is what the model answered for those samples, in pool order.
    pub fn evaluate_held_out(
        shape: ModelShape,
        pool: &ImitationPool,
        coverage: TeacherCoverage,
        prediction: Result<(Vec<BehavioralPrediction>, PolicyIdentity), String>,
    ) -> (r: Result<HeldOutEvaluation, ImitationError>)
        requires
            pool.wf(),
        ensures
            evaluation_result(
                shape,
                *pool,
                held_out_indices(pool.samples@),
                coverage,
                prediction,
                r,
            ),
    {
        match pool.held_out() {
            Err(error) => {
                proof {
                    let i = choose|i: int|
                        0 <= i < pool.samples@.len() && (#[trigger] pool.samples@[i]).split
                            == ImitationSplit::HeldOut && pool.samples@[i].source
                            == ImitationSource::Dagger;
                    assert(pool.samples@[i].wf());
                }
                Err(error)
            },
            Ok(indices) => Self::evaluate_held_out_samples(
                shape,
                pool,
                &indices,
                coverage,
                prediction,
            ),
        }
    }

    /// Evaluates chosen pool samples only when every one is clean held-out data.
    ///
    /// `prediction` is what the model answered for those samples, in that order.
    pub fn evaluate_held_out_samples(
        shape: ModelShape,
        pool: &ImitationPool,
        indices: &Vec<usize>,
        coverage: TeacherCoverage,
        prediction: Result<(Vec<BehavioralPrediction>, PolicyIdentity), String>,
    ) -> (r: Result<HeldOutEvaluation, ImitationError>)
        ensures
            evaluation_result(shape, *pool, indices@, coverage, prediction, r),
    {
        match Self::validate_held_out(shape, pool, indices, &coverage) {
            Ok(()) => {},
            Err(error) => {
                return Err(error);
            },
        }
        let (predictions, candidate) = match prediction {
            Ok(answer) => answer,
            Err(text) => {
                return Err(ImitationError::Model(text));
            },
        };
        if predictions.len() != indices.len() {
            return Err(ImitationError::CheckpointState("prediction count"));
        }
        let metrics = Self::evaluate_samples(&pool.samples, indices, &predictions, &coverage);
        Ok(HeldOutEvaluation { metrics, coverage, pool: pool.binding.duplicate(), candidate })
    }

    fn evaluate_samples(
        samples: &Vec<ImitationSample>,
        indices: &Vec<usize>,
        predictions: &Vec<BehavioralPrediction>,
        coverage: &TeacherCoverage,
    ) -> (r: Self)
        requires
            predictions@.len() == indices@.len(),
            indices@.len() < usize::MAX,
            coverage.consistent(),
            forall|i: int| 0 <= i < indices@.len() ==> (#[trigger] indices@[i]) < samples@.len(),
        ensures
            evaluated(r, samples@, indices@, predictions@, *coverage),
    {
        let ghost pairs = paired(samples@, indices@, predictions@);
        let mut output = Self::empty();
        let mut index: usize = 0;
        assert(pairs.take(0) =~= Seq::<(ImitationSample, BehavioralPrediction)>::empty());
        while index < indices.len()
            invariant
                index <= indices@.len(),
                predictions@.len() == indices@.len(),
                indices@.len() < usize::MAX,
                pairs == paired(samples@, indices@, predictions@),
                forall|i: int| 0 <= i < indices@.len() ==> (#[trigger] indices@[i]) < samples@.len(),
                counts(output.overall, pairs.take(index as int), None),
                counts(output.radiant, pairs.take(index as int), Some(ImitationSide::Radiant)),
                counts(output.dire, pairs.take(index as int), Some(ImitationSide::Dire)),
            decreases indices@.len() - index,
        {
            let sample = &samples[indices[index]];
            let prediction = predictions[index];
            let ghost before = output;
            proof {
                assert(pairs[index as int] == (*sample, prediction));
                lemma_counts_below(output.overall, pairs.take(index as int), None);
                lemma_counts_below(
                    output.radiant,
                    pairs.take(index as int),
                    Some(ImitationSide::Radiant),
                );
                lemma_counts_below(
                    output.dire,
                    pairs.take(index as int),
                    Some(ImitationSide::Dire),
                );
            }
            output.overall.note(sample, prediction);
            match sample.side {
                ImitationSide::Radiant => output.radiant.note(sample, prediction),
                ImitationSide::Dire => output.dire.note(sample, prediction),
            }
            proof {
                lemma_note_counts(before.overall, pairs, None, index as int, output.overall);
                lemma_note_counts(
                    before.radiant,
                    pairs,
                    Some(ImitationSide::Radiant),
                    index as int,
                    output.radiant,
                );
                lemma_note_counts(
                    before.dire,
                    pairs,
                    Some(ImitationSide::Dire),
                    index as int,
                    output.dire,
                );
            }
            index += 1;
        }
        assert(pairs.take(index as int) =~= pairs);
        let radiant = coverage.side_counts(ImitationSide::Radiant);
        let dire = coverage.side_counts(ImitationSide::Dire);
        output.overall.teacher_covered = coverage.represented;
        output.overall.teacher_attempted = coverage.attempted;
        output.radiant.teacher_covered = radiant.0;
        output.radiant.teacher_attempted = radiant.1;
        output.dire.teacher_covered = dire.0;
        output.dire.teacher_attempted = dire.1;
        output
    }
}

/// Outcome of an evaluation for every answer of the model.
pub open spec fn evaluation_result(
    shape: ModelShape,
    pool: ImitationPool,
    indices: Seq<usize>,
    coverage: TeacherCoverage,
    prediction: Result<(Vec<BehavioralPrediction>, PolicyIdentity), String>,
    r: Result<HeldOutEvaluation, ImitationError>,
) -> bool {
    match evaluation_fault(shape, pool.samples@, indices, coverage) {
        Some(error) => r == Err::<HeldOutEvaluation, ImitationError>(error),
        None => match prediction {
            Err(text) => r == Err::<HeldOutEvaluation, ImitationError>(ImitationError::Model(text)),
            Ok(answer) => if answer.0@.len() != indices.len() {
                r == Err::<HeldOutEvaluation, ImitationError>(
                    ImitationError::CheckpointState("prediction count"),
                )
            } else {
                r matches Ok(result) && evaluated(
                    result.metrics,
                    pool.samples@,
                    indices,
                    answer.0@,
                    coverage,
                ) && result.coverage == coverage && result.pool.same(pool.binding)
                    && result.candidate == answer.1
            },
        },
    }
}

proof fn lemma_membership_prefix(samples: Seq<ImitationSample>, indices: Seq<usize>, count: int)
    requires
        0 <= count <= indices.len(),
    ensures
        membership_fault(samples, indices.take(count)) matches Some(error) ==> membership_fault(
            samples,
            indices,
        ) == Some(error),
    decreases indices.len() - count,
{
    if count < indices.len() {
        assert(indices.take(count + 1).drop_last() =~= indices.take(count));
        lemma_membership_prefix(samples, indices, count + 1);
    } else {
        assert(indices.take(count) =~= indices);
    }
}

proof fn lemma_labels_prefix(samples: Seq<ImitationSample>, indices: Seq<usize>, count: int)
    requires
        0 <= count <= indices.len(),
    ensures
        labels_fault(samples, indices.take(count)) matches Some(error) ==> labels_fault(
            samples,
            indices,
        ) == Some(error),
    decreases indices.len() - count,
{
    if count < indices.len() {
        assert(indices.take(count + 1).drop_last() =~= indices.take(count));
        lemma_labels_prefix(samples, indices, count + 1);
    } else {
        assert(indices.take(count) =~= indices);
    }
}

proof fn lemma_tally_split<T>(
    list: Seq<T>,
    whole: spec_fn(T) -> bool,
    left: spec_fn(T) -> bool,
    right: spec_fn(T) -> bool,
)
    requires
        forall|item: T|
            (#[trigger] whole(item) == (left(item) || right(item))) && !(left(item) && right(item)),
    ensures
        tally(list, whole) == tally(list, left) + tally(list, right),
    decreases list.len(),
{
    if list.len() > 0 {
        lemma_tally_split(list.drop_last(), whole, left, right);
        assert(whole(list.last()) == (left(list.last()) || right(list.last())));
    }
}

/// Every count of an evaluation is the sum of its Radiant and Dire counts.
pub proof fn sides_partition_an_evaluation(
    metrics: OfflineEvaluation,
    pairs: Seq<(ImitationSample, BehavioralPrediction)>,
    family: int,
)
    requires
        counts(metrics.overall, pairs, None),
        counts(metrics.radiant, pairs, Some(ImitationSide::Radiant)),
        counts(metrics.dire, pairs, Some(ImitationSide::Dire)),
        0 <= family < ACTION_FAMILIES,
    ensures
        metrics.overall.samples == pairs.len(),
        metrics.overall.samples == metrics.radiant.samples + metrics.dire.samples,
        metrics.overall.kind.matching == metrics.radiant.kind.matching
            + metrics.dire.kind.matching,
        metrics.overall.full.matching == metrics.radiant.full.matching
            + metrics.dire.full.matching,
        metrics.overall.families@[family].total == metrics.radiant.families@[family].total
            + metrics.dire.families@[family].total,
        metrics.overall.families@[family].matching == metrics.radiant.families@[family].matching
            + metrics.dire.families@[family].matching,
{
    let radiant = Some(ImitationSide::Radiant);
    let dire = Some(ImitationSide::Dire);
    lemma_tally_split(pairs, selected_test(None), selected_test(radiant), selected_test(dire));
    lemma_tally_split(pairs, kind_test(None), kind_test(radiant), kind_test(dire));
    lemma_tally_split(pairs, full_test(None), full_test(radiant), full_test(dire));
    lemma_tally_split(
        pairs,
        family_test(None, family),
        family_test(radiant, family),
        family_test(dire, family),
    );
    lemma_tally_split(
        pairs,
        family_full_test(None, family),
        family_full_test(radiant, family),
        family_full_test(dire, family),
    );
    lemma_tally_all(pairs, selected_test(None));
    assert(metrics.overall.families@[family].total == tally(pairs, family_test(None, family)));
    assert(metrics.radiant.families@[family].total == tally(pairs, family_test(radiant, family)));
    assert(metrics.dire.families@[family].total == tally(pairs, family_test(dire, family)));
}

proof fn lemma_tally_all<T>(list: Seq<T>, test: spec_fn(T) -> bool)
    requires
        forall|item: T| #[trigger] test(item),
    ensures
        tally(list, test) == list.len(),
    decreases list.len(),
{
    if list.len() > 0 {
        lemma_tally_all(list.drop_last(), test);
        assert(test(list.last()));
    }
}

} // verus!
