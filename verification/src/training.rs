//! Early stopping and the deterministic epochs of a behavioral trainer.
use crate::behavioral_target::{faulted, first_fault};
use crate::frame::{finite64, is_finite64};
use crate::imitation_error::ImitationError;
use crate::model::{AdamState, ModelAdamSnapshot, ModelShape, PolicyIdentity};
use crate::pool::{binding_fault, train_indices, validate_pool_binding, ImitationPool, PoolBinding};
use crate::promotion::{numeric_order, order64};
use crate::sample::{scope_fault, validate_scope};
use crate::shuffle::{
    advanced_by, draw_overflow, draws_for, shuffled, ShuffleState, MAX_TRAINING_COUNTER,
};
use vstd::prelude::*;

verus! {

/// Maximum early-stopping patience in gameplay evaluations.
pub const MAX_EARLY_STOPPING_PATIENCE: u32 = 1_000_000;

/// Gameplay early-stopping configuration; the improvement as double-precision bits.
#[derive(Clone, Copy, Debug, PartialEq, Eq, Structural)]
pub struct EarlyStoppingConfig {
    pub minimum_improvement: u64,
    pub patience: u32,
}

impl Default for EarlyStoppingConfig {
    fn default() -> (r: Self)
        ensures
            r == (EarlyStoppingConfig { minimum_improvement: 0, patience: 10 }),
    {
        EarlyStoppingConfig { minimum_improvement: 0, patience: 10 }
    }
}

/// Failure of an early-stopping configuration.
pub open spec fn early_config_fault(config: EarlyStoppingConfig) -> Option<ImitationError> {
    if !finite64(config.minimum_improvement) || order64(config.minimum_improvement) < 0 {
        Some(ImitationError::InvalidEarlyStopping("minimum improvement"))
    } else if !(1 <= config.patience <= MAX_EARLY_STOPPING_PATIENCE) {
        Some(ImitationError::InvalidEarlyStopping("patience"))
    } else {
        None
    }
}

/// Checks an early-stopping configuration.
pub fn validate_early_config(config: EarlyStoppingConfig) -> (r: Result<(), ImitationError>)
    ensures
        r == faulted(early_config_fault(config)),
{
    if !is_finite64(config.minimum_improvement) || numeric_order(config.minimum_improvement) < 0 {
        return Err(ImitationError::InvalidEarlyStopping("minimum improvement"));
    }
    if !(1 <= config.patience && config.patience <= MAX_EARLY_STOPPING_PATIENCE) {
        return Err(ImitationError::InvalidEarlyStopping("patience"));
    }
    Ok(())
}

/// Trainer counters persisted in strict checkpoints.
#[derive(Clone, Copy, Debug, Default, PartialEq, Eq, Structural)]
pub struct TrainerCounters {
    pub epoch: u64,
    pub global_update: u64,
}

/// Model, optimizer, counters, and shuffle at one moment of training.
#[derive(Debug, PartialEq, Eq)]
pub struct CompleteTrainingState {
    pub model: ModelAdamSnapshot,
    pub counters: TrainerCounters,
    pub shuffle: ShuffleState,
}

impl CompleteTrainingState {
    /// Same model, optimizer, counters, and shuffle.
    pub open spec fn same(self, other: CompleteTrainingState) -> bool {
        &&& self.model.same(other.model)
        &&& self.counters == other.counters
        &&& self.shuffle == other.shuffle
    }

    /// Counters within their limits that agree with the optimizer step.
    pub open spec fn coherent(self) -> bool {
        &&& self.counters.epoch <= self.counters.global_update
        &&& self.counters.global_update <= MAX_TRAINING_COUNTER
        &&& self.model.adam.step == self.counters.global_update
        &&& self.shuffle.draws <= MAX_TRAINING_COUNTER
    }

    /// Owned copy of the state.
    pub fn duplicate(&self) -> (r: Self)
        ensures
            r.same(*self),
    {
        CompleteTrainingState {
            model: self.model.duplicate(),
            counters: self.counters,
            shuffle: self.shuffle,
        }
    }
}

/// Bounded best gameplay snapshot and no-improvement state.
#[derive(Debug, PartialEq, Eq)]
pub struct EarlyStopper {
    pub config: EarlyStoppingConfig,
    pub best_epoch: Option<u64>,
    pub best_score: Option<u64>,
    pub best_state: Option<CompleteTrainingState>,
    pub stale_evaluations: u32,
    pub last_evaluation_epoch: Option<u64>,
    pub stopped: bool,
}

/// Same optional snapshot.
pub open spec fn same_best(
    left: Option<CompleteTrainingState>,
    right: Option<CompleteTrainingState>,
) -> bool {
    match (left, right) {
        (Some(a), Some(b)) => a.same(b),
        (None, None) => true,
        _ => false,
    }
}

impl EarlyStopper {
    /// Same history and best snapshot.
    pub open spec fn same(self, other: EarlyStopper) -> bool {
        &&& self.config == other.config
        &&& self.best_epoch == other.best_epoch
        &&& self.best_score == other.best_score
        &&& same_best(self.best_state, other.best_state)
        &&& self.stale_evaluations == other.stale_evaluations
        &&& self.last_evaluation_epoch == other.last_evaluation_epoch
        &&& self.stopped == other.stopped
    }

    /// A best evaluation, its snapshot, and the evaluations since agree.
    pub open spec fn wf(self) -> bool {
        &&& early_config_fault(self.config) is None
        &&& self.stale_evaluations <= self.config.patience
        &&& self.stopped == (self.stale_evaluations >= self.config.patience)
        &&& match (
            self.best_epoch,
            self.best_score,
            self.best_state,
            self.last_evaluation_epoch,
        ) {
            (Some(best), Some(score), Some(state), Some(last)) => {
                &&& finite64(score)
                &&& state.coherent()
                &&& state.counters.epoch == best
                &&& last <= MAX_TRAINING_COUNTER
                &&& if self.stale_evaluations == 0 {
                    best == last
                } else {
                    last - best >= self.stale_evaluations
                }
            },
            (None, None, None, None) => self.stale_evaluations == 0,
            _ => false,
        }
    }

    pub fn new(config: EarlyStoppingConfig) -> (r: Result<Self, ImitationError>)
        ensures
            match r {
                Ok(stopper) => {
                    &&& early_config_fault(config) is None
                    &&& stopper.wf()
                    &&& stopper == (EarlyStopper {
                        config,
                        best_epoch: None,
                        best_score: None,
                        best_state: None,
                        stale_evaluations: 0,
                        last_evaluation_epoch: None,
                        stopped: false,
                    })
                },
                Err(error) => early_config_fault(config) == Some(error),
            },
    {
        match validate_early_config(config) {
            Ok(()) => {},
            Err(error) => {
                return Err(error);
            },
        }
        Ok(
            EarlyStopper {
                config,
                best_epoch: None,
                best_score: None,
                best_state: None,
                stale_evaluations: 0,
                last_evaluation_epoch: None,
                stopped: false,
            },
        )
    }

    /// Failure of an evaluation that cannot be recorded.
    pub open spec fn observation_fault(self, epoch: u64, score: u64) -> Option<ImitationError> {
        if !finite64(score) {
            Some(ImitationError::NonFiniteEvaluation)
        } else if epoch > MAX_TRAINING_COUNTER {
            Some(
                ImitationError::CounterOverflow { counter: "epoch", maximum: MAX_TRAINING_COUNTER },
            )
        } else {
            match self.last_evaluation_epoch {
                Some(previous) if epoch <= previous => Some(
                    ImitationError::EvaluationEpochOrder { epoch, previous },
                ),
                _ => None,
            }
        }
    }

    /// Whether a score beats the best one by more than the minimum improvement.
    ///
    /// `threshold` is the best score plus the minimum improvement.
    pub open spec fn improves(self, score: u64, threshold: u64) -> bool {
        self.best_score is None || order64(score) > order64(threshold)
    }

    /// Records a finite gameplay score and returns whether patience is exhausted.
    ///
    /// `threshold` is the best score plus the minimum improvement; without a best score
    /// it is not read.
    pub fn observe(
        &mut self,
        epoch: u64,
        score: u64,
        threshold: u64,
        state: CompleteTrainingState,
    ) -> (r: Result<bool, ImitationError>)
        requires
            old(self).wf(),
            state.coherent(),
            state.counters.epoch == epoch,
        ensures
            final(self).wf(),
            final(self).config == old(self).config,
            old(self).stopped ==> r == Ok::<bool, ImitationError>(true) && *final(self) == *old(
                self,
            ),
            !old(self).stopped ==> match old(self).observation_fault(epoch, score) {
                Some(error) => r == Err::<bool, ImitationError>(error) && *final(self) == *old(
                    self,
                ),
                None => if old(self).improves(score, threshold) {
                    &&& r == Ok::<bool, ImitationError>(false)
                    &&& final(self).best_epoch == Some(epoch)
                    &&& final(self).best_score == Some(score)
                    &&& final(self).best_state == Some(state)
                    &&& final(self).stale_evaluations == 0
                    &&& final(self).last_evaluation_epoch == Some(epoch)
                    &&& !final(self).stopped
                } else {
                    &&& r == Ok::<bool, ImitationError>(final(self).stopped)
                    &&& final(self).best_epoch == old(self).best_epoch
                    &&& final(self).best_score == old(self).best_score
                    &&& final(self).best_state == old(self).best_state
                    &&& final(self).stale_evaluations == old(self).stale_evaluations + 1
                    &&& final(self).last_evaluation_epoch == Some(epoch)
                    &&& final(self).stopped == (final(self).stale_evaluations
                        >= old(self).config.patience)
                },
            },
    {
        if self.stopped {
            return Ok(true);
        }
        if !is_finite64(score) {
            return Err(ImitationError::NonFiniteEvaluation);
        }
        if epoch > MAX_TRAINING_COUNTER {
            return Err(
                ImitationError::CounterOverflow { counter: "epoch", maximum: MAX_TRAINING_COUNTER },
            );
        }
        if let Some(previous) = self.last_evaluation_epoch {
            if epoch <= previous {
                return Err(ImitationError::EvaluationEpochOrder { epoch, previous });
            }
        }
        let improved = self.best_score.is_none() || numeric_order(score) > numeric_order(threshold);
        if improved {
            self.best_epoch = Some(epoch);
            self.best_score = Some(score);
            self.best_state = Some(state);
            self.stale_evaluations = 0;
            self.last_evaluation_epoch = Some(epoch);
            return Ok(false);
        }
        self.stale_evaluations = self.stale_evaluations + 1;
        self.last_evaluation_epoch = Some(epoch);
        self.stopped = self.stale_evaluations >= self.config.patience;
        Ok(self.stopped)
    }

    pub fn best_epoch(&self) -> (r: Option<u64>)
        ensures
            r == self.best_epoch,
    {
        self.best_epoch
    }

    /// Owned copy of the stopper.
    pub fn duplicate(&self) -> (r: Self)
        ensures
            r.same(*self),
    {
        let best_state = match &self.best_state {
            Some(state) => Some(state.duplicate()),
            None => None,
        };
        EarlyStopper {
            config: self.config,
            best_epoch: self.best_epoch,
            best_score: self.best_score,
            best_state,
            stale_evaluations: self.stale_evaluations,
            last_evaluation_epoch: self.last_evaluation_epoch,
            stopped: self.stopped,
        }
    }
}

/// Failure of an effective batch outside the model's limits.
pub open spec fn batch_fault(value: usize, shape: ModelShape) -> Option<ImitationError> {
    if 1 <= value <= shape.maximum_batch {
        None
    } else {
        Some(ImitationError::EffectiveBatch { value, maximum: shape.maximum_batch })
    }
}

/// Checks an effective batch against the model's limits.
pub fn validate_effective_batch(value: usize, shape: ModelShape) -> (r: Result<(), ImitationError>)
    ensures
        r == faulted(batch_fault(value, shape)),
{
    if !(1 <= value && value <= shape.maximum_batch) {
        return Err(ImitationError::EffectiveBatch { value, maximum: shape.maximum_batch });
    }
    Ok(())
}

/// Failure of a counter that an increment takes past its maximum.
pub open spec fn increment_fault(counter: &'static str, value: u64, increment: usize) -> Option<
    ImitationError,
> {
    if value + increment > MAX_TRAINING_COUNTER {
        Some(ImitationError::CounterOverflow { counter, maximum: MAX_TRAINING_COUNTER })
    } else {
        None
    }
}

/// Checks that an increment keeps a counter within its maximum.
pub fn validate_counter_increment(counter: &'static str, value: u64, increment: usize) -> (r:
    Result<(), ImitationError>)
    ensures
        r == faulted(increment_fault(counter, value, increment)),
{
    let fits = match value.checked_add(increment as u64) {
        Some(next) => next <= MAX_TRAINING_COUNTER,
        None => false,
    };
    if !fits {
        return Err(ImitationError::CounterOverflow { counter, maximum: MAX_TRAINING_COUNTER });
    }
    Ok(())
}

/// Number of batches that cover a number of samples.
pub open spec fn batch_count(samples: nat, batch: nat) -> nat
    recommends
        batch > 0,
{
    ((samples + batch - 1) / batch as int) as nat
}

/// One batch of an epoch order; the last may be partial.
pub open spec fn batch_of(order: Seq<usize>, batch: nat, index: nat) -> Seq<usize> {
    let start = index * batch;
    let end = if start + batch < order.len() {
        (start + batch) as int
    } else {
        order.len() as int
    };
    order.subrange(start as int, end)
}

/// Batches of an order, one behind the other, up to an index.
pub open spec fn batches_joined(order: Seq<usize>, batch: nat, count: nat) -> Seq<usize>
    decreases count,
{
    if count == 0 {
        Seq::empty()
    } else {
        batches_joined(order, batch, (count - 1) as nat) + batch_of(
            order,
            batch,
            (count - 1) as nat,
        )
    }
}

/// State of a trainer when an epoch began, and the order that the epoch visits.
#[derive(Debug)]
pub struct EpochPlan {
    pub order: Vec<usize>,
    pub batch: usize,
    pub updates: usize,
    pub rollback: EpochRollback,
}

/// What a failed epoch goes back to.
#[derive(Debug)]
pub struct EpochRollback {
    pub state: CompleteTrainingState,
    pub early: EarlyStopper,
}

/// An epoch whose model state has been captured: one to run, or one that failed before its first
/// update and is to be aborted.
#[derive(Debug)]
pub enum EpochStart {
    Planned(EpochPlan),
    Failed { cause: ImitationError, rollback: EpochRollback },
}

/// One deterministic complete pass over all selected Train samples.
#[derive(Debug, PartialEq, Eq)]
pub struct TrainingEpochReport {
    pub epoch: u64,
    pub order: Vec<usize>,
    pub updates: usize,
}

/// Deterministic effective-batch and optimizer orchestration state.
#[derive(Debug)]
pub struct BehavioralTrainer {
    pub effective_batch: usize,
    pub shuffle: ShuffleState,
    pub counters: TrainerCounters,
    pub adam: AdamState,
    pub early_stopper: EarlyStopper,
    pub pool: PoolBinding,
    pub model_identity: PolicyIdentity,
}

/// Failure of counters that disagree with the optimizer or each other.
pub open spec fn counters_fault(trainer: BehavioralTrainer) -> Option<ImitationError> {
    if trainer.counters.epoch > MAX_TRAINING_COUNTER || trainer.counters.global_update
        > MAX_TRAINING_COUNTER || trainer.shuffle.draws > MAX_TRAINING_COUNTER || trainer.adam.step
        != trainer.counters.global_update || trainer.counters.epoch
        > trainer.counters.global_update || trainer.adam.binding.policy
        != trainer.model_identity {
        Some(ImitationError::CheckpointState("trainer counter relationship"))
    } else {
        None
    }
}

/// Checks that counters agree with the optimizer and each other.
pub fn validate_trainer_counters(trainer: &BehavioralTrainer) -> (r: Result<(), ImitationError>)
    ensures
        r == faulted(counters_fault(*trainer)),
{
    if trainer.counters.epoch > MAX_TRAINING_COUNTER || trainer.counters.global_update
        > MAX_TRAINING_COUNTER || trainer.shuffle.draws > MAX_TRAINING_COUNTER || trainer.adam.step
        != trainer.counters.global_update || trainer.counters.epoch
        > trainer.counters.global_update || trainer.adam.binding.policy
        != trainer.model_identity {
        return Err(ImitationError::CheckpointState("trainer counter relationship"));
    }
    Ok(())
}

impl BehavioralTrainer {
    /// The stopper holds together, batches are not empty, and no evaluation or best
    /// snapshot is ahead of the counters.
    pub open spec fn wf(self) -> bool {
        &&& self.effective_batch >= 1
        &&& self.early_stopper.wf()
        &&& self.early_stopper.last_evaluation_epoch matches Some(last) ==> last
            <= self.counters.epoch
        &&& self.early_stopper.best_state matches Some(best) ==> {
            &&& best.counters.epoch <= self.counters.epoch
            &&& best.counters.global_update <= self.counters.global_update
            &&& best.shuffle.draws <= self.shuffle.draws
        }
    }

    /// Everything but the shuffle and counters is unchanged.
    pub open spec fn same_setup(self, other: BehavioralTrainer) -> bool {
        &&& self.effective_batch == other.effective_batch
        &&& self.pool == other.pool
        &&& self.early_stopper == other.early_stopper
    }

    /// Builds a trainer; `claim` is the optimizer state that the model handed out.
    pub fn new(
        effective_batch: usize,
        shuffle_seed: u64,
        early_stopping: EarlyStoppingConfig,
        claim: Result<AdamState, String>,
        shape: ModelShape,
        pool: &ImitationPool,
    ) -> (r: Result<Self, ImitationError>)
        ensures
            match first_fault(
                batch_fault(effective_batch, shape),
                early_config_fault(early_stopping),
            ) {
                Some(error) => r == Err::<BehavioralTrainer, ImitationError>(error),
                None => match claim {
                    Err(text) => r == Err::<BehavioralTrainer, ImitationError>(
                        ImitationError::Model(text),
                    ),
                    Ok(adam) => {
                        &&& r matches Ok(trainer)
                        &&& trainer.wf()
                        &&& trainer.effective_batch == effective_batch
                        &&& trainer.shuffle == (ShuffleState { state: shuffle_seed, draws: 0 })
                        &&& trainer.counters == (TrainerCounters { epoch: 0, global_update: 0 })
                        &&& trainer.adam == adam
                        &&& trainer.early_stopper.config == early_stopping
                        &&& trainer.early_stopper.best_state is None
                        &&& trainer.pool.same(pool.binding)
                        &&& trainer.model_identity == adam.binding.policy
                    },
                },
            },
    {
        match validate_effective_batch(effective_batch, shape) {
            Ok(()) => {},
            Err(error) => {
                return Err(error);
            },
        }
        let early_stopper = match EarlyStopper::new(early_stopping) {
            Ok(stopper) => stopper,
            Err(error) => {
                return Err(error);
            },
        };
        let adam = match claim {
            Ok(adam) => adam,
            Err(text) => {
                return Err(ImitationError::Model(text));
            },
        };
        let model_identity = adam.binding.policy;
        Ok(
            BehavioralTrainer {
                effective_batch,
                shuffle: ShuffleState::new(shuffle_seed),
                counters: TrainerCounters { epoch: 0, global_update: 0 },
                adam,
                early_stopper,
                pool: pool.binding.duplicate(),
                model_identity,
            },
        )
    }

    /// Failure of a pool that is not the bound one at the same or a newer revision.
    pub open spec fn rebind_fault(self, binding: PoolBinding) -> Option<ImitationError> {
        first_fault(
            binding_fault(binding),
            first_fault(
                scope_fault(binding.scope),
                first_fault(
                    counters_fault(self),
                    if !self.pool.same_pool(binding) || binding.provenance.revision
                        < self.pool.provenance.revision {
                        Some(ImitationError::PoolBindingMismatch)
                    } else {
                        None
                    },
                ),
            ),
        )
    }

    /// Accepts the current or a newer revision of the same in-memory pool.
    pub fn rebind_pool(&mut self, pool: &ImitationPool) -> (r: Result<(), ImitationError>)
        ensures
            r == faulted(old(self).rebind_fault(pool.binding)),
            r is Ok ==> final(self).pool.same(pool.binding),
            r is Err ==> final(self).pool == old(self).pool,
            final(self).effective_batch == old(self).effective_batch,
            final(self).shuffle == old(self).shuffle,
            final(self).counters == old(self).counters,
            final(self).adam == old(self).adam,
            final(self).early_stopper == old(self).early_stopper,
            final(self).model_identity == old(self).model_identity,
    {
        match validate_pool_binding(&pool.binding) {
            Ok(()) => {},
            Err(error) => {
                return Err(error);
            },
        }
        match validate_scope(pool.binding.scope) {
            Ok(()) => {},
            Err(error) => {
                return Err(error);
            },
        }
        match validate_trainer_counters(self) {
            Ok(()) => {},
            Err(error) => {
                return Err(error);
            },
        }
        let candidate = &pool.binding;
        if self.pool.instance != candidate.instance || self.pool.capacity != candidate.capacity
            || self.pool.provenance.lineage != candidate.provenance.lineage
            || !self.pool.seeds.is_same(&candidate.seeds) || self.pool.scope != candidate.scope
            || candidate.provenance.revision < self.pool.provenance.revision {
            return Err(ImitationError::PoolBindingMismatch);
        }
        self.pool = candidate.duplicate();
        Ok(())
    }

    /// Failure of a pool that is not exactly the bound revision.
    pub open spec fn pool_fault(self, pool: ImitationPool) -> Option<ImitationError> {
        if self.pool.same(pool.binding) {
            None
        } else {
            Some(ImitationError::PoolBindingMismatch)
        }
    }

    pub fn validate_pool(&self, pool: &ImitationPool) -> (r: Result<(), ImitationError>)
        ensures
            r == faulted(self.pool_fault(*pool)),
    {
        if !self.pool.is_same(&pool.binding) {
            return Err(ImitationError::PoolBindingMismatch);
        }
        Ok(())
    }

    /// Failure of an epoch before its model state is captured.
    pub open spec fn epoch_fault(
        self,
        pool: ImitationPool,
        snapshot: Result<ModelAdamSnapshot, String>,
    ) -> Option<ImitationError> {
        first_fault(
            first_fault(self.pool_fault(pool), counters_fault(self)),
            match snapshot {
                Err(text) => Some(ImitationError::Model(text)),
                Ok(_) => None,
            },
        )
    }

    /// Failure of an epoch to order its samples.
    pub open spec fn order_fault(self, pool: ImitationPool) -> Option<ImitationError> {
        let train = train_indices(pool.samples@);
        if train.len() == 0 {
            Some(ImitationError::EmptyTrainSet)
        } else if self.shuffle.draws + draws_for(train.len()) > MAX_TRAINING_COUNTER {
            Some(draw_overflow())
        } else {
            None
        }
    }

    /// Failure of an epoch whose samples are ordered to leave room in the counters.
    pub open spec fn room_fault(self, pool: ImitationPool) -> Option<ImitationError> {
        let train = train_indices(pool.samples@);
        first_fault(
            increment_fault(
                "global update",
                self.counters.global_update,
                batch_count(train.len(), self.effective_batch as nat) as usize,
            ),
            increment_fault("epoch", self.counters.epoch, 1),
        )
    }

    /// Whether a rollback holds the state of a trainer with a model snapshot.
    pub open spec fn keeps(self, rollback: EpochRollback, model: ModelAdamSnapshot) -> bool {
        &&& rollback.state.model == model
        &&& rollback.state.counters == self.counters
        &&& rollback.state.shuffle == self.shuffle
        &&& rollback.early.same(self.early_stopper)
    }

    /// Whether a shuffle is that of the trainer after it ordered the Train samples.
    pub open spec fn ordered_shuffle(self, pool: ImitationPool, shuffle: ShuffleState) -> bool {
        let train = train_indices(pool.samples@);
        &&& shuffle.draws == self.shuffle.draws + draws_for(train.len())
        &&& shuffle.state == advanced_by(self.shuffle.state, draws_for(train.len()))
    }

    /// Starts an epoch: captures what a failure goes back to and orders the Train samples.
    ///
    /// `snapshot` is the coherent model and optimizer state that the model reported.
    /// Nothing changes on a failure before the capture; a failure behind it is to be aborted.
    pub fn begin_epoch(
        &mut self,
        pool: &ImitationPool,
        snapshot: Result<ModelAdamSnapshot, String>,
    ) -> (r: Result<EpochStart, ImitationError>)
        requires
            old(self).wf(),
            pool.wf(),
        ensures
            final(self).wf(),
            final(self).same_setup(*old(self)),
            final(self).counters == old(self).counters,
            final(self).adam == old(self).adam,
            final(self).model_identity == old(self).model_identity,
            match old(self).epoch_fault(*pool, snapshot) {
                Some(error) => {
                    &&& r == Err::<EpochStart, ImitationError>(error)
                    &&& final(self).shuffle == old(self).shuffle
                },
                None => match r {
                    Err(_) => false,
                    Ok(EpochStart::Failed { cause, rollback }) => {
                        &&& old(self).keeps(rollback, snapshot->Ok_0)
                        &&& match old(self).order_fault(*pool) {
                            Some(error) => cause == error && final(self).shuffle == old(
                                self,
                            ).shuffle,
                            None => old(self).room_fault(*pool) == Some(cause) && old(
                                self,
                            ).ordered_shuffle(*pool, final(self).shuffle),
                        }
                    },
                    Ok(EpochStart::Planned(plan)) => {
                        let train = train_indices(pool.samples@);
                        &&& old(self).order_fault(*pool) is None
                        &&& old(self).room_fault(*pool) is None
                        &&& plan.order@ == shuffled(train, old(self).shuffle.state, train.len())
                        &&& plan.order@.len() == train.len()
                        &&& plan.batch == old(self).effective_batch
                        &&& plan.updates == batch_count(train.len(), plan.batch as nat)
                        &&& old(self).keeps(plan.rollback, snapshot->Ok_0)
                        &&& old(self).ordered_shuffle(*pool, final(self).shuffle)
                    },
                },
            },
    {
        match self.validate_pool(pool) {
            Ok(()) => {},
            Err(error) => {
                return Err(error);
            },
        }
        match validate_trainer_counters(self) {
            Ok(()) => {},
            Err(error) => {
                return Err(error);
            },
        }
        let model = match snapshot {
            Ok(model) => model,
            Err(text) => {
                return Err(ImitationError::Model(text));
            },
        };
        let rollback = EpochRollback {
            state: CompleteTrainingState {
                model,
                counters: self.counters,
                shuffle: self.shuffle,
            },
            early: self.early_stopper.duplicate(),
        };
        let ghost before = self.shuffle;
        let order = match pool.training_order(&mut self.shuffle) {
            Ok(order) => order,
            Err(cause) => {
                return Ok(EpochStart::Failed { cause, rollback });
            },
        };
        proof {
            crate::shuffle::shuffling_permutes(
                train_indices(pool.samples@),
                before.state,
                train_indices(pool.samples@).len(),
            );
            lemma_train_count(pool.samples@);
        }
        let updates: usize = divided_up(order.len(), self.effective_batch);
        match validate_counter_increment("global update", self.counters.global_update, updates) {
            Ok(()) => {},
            Err(cause) => {
                return Ok(EpochStart::Failed { cause, rollback });
            },
        }
        match validate_counter_increment("epoch", self.counters.epoch, 1) {
            Ok(()) => {},
            Err(cause) => {
                return Ok(EpochStart::Failed { cause, rollback });
            },
        }
        Ok(
            EpochStart::Planned(
                EpochPlan { order, batch: self.effective_batch, updates, rollback },
            ),
        )
    }

    /// Counts one model update; `adam` is the optimizer state after it.
    pub fn finish_update(&mut self, adam: AdamState)
        requires
            old(self).wf(),
            old(self).counters.global_update < MAX_TRAINING_COUNTER,
        ensures
            final(self).wf(),
            final(self).same_setup(*old(self)),
            final(self).shuffle == old(self).shuffle,
            final(self).adam == adam,
            final(self).model_identity == adam.binding.policy,
            final(self).counters.epoch == old(self).counters.epoch,
            final(self).counters.global_update == old(self).counters.global_update + 1,
    {
        self.model_identity = adam.binding.policy;
        self.adam = adam;
        self.counters.global_update = self.counters.global_update + 1;
    }

    /// Completes an epoch after its last update.
    pub fn finish_epoch(&mut self, plan: EpochPlan) -> (r: TrainingEpochReport)
        requires
            old(self).wf(),
            old(self).counters.epoch < MAX_TRAINING_COUNTER,
        ensures
            final(self).wf(),
            final(self).same_setup(*old(self)),
            final(self).shuffle == old(self).shuffle,
            final(self).adam == old(self).adam,
            final(self).model_identity == old(self).model_identity,
            final(self).counters.epoch == old(self).counters.epoch + 1,
            final(self).counters.global_update == old(self).counters.global_update,
            r.epoch == final(self).counters.epoch,
            r.order@ == plan.order@,
            r.updates == plan.updates,
    {
        self.counters.epoch = self.counters.epoch + 1;
        TrainingEpochReport { epoch: self.counters.epoch, order: plan.order, updates: plan.updates }
    }

    /// Undoes a failed epoch and returns the failure to report.
    ///
    /// `restored` is the optimizer state after the model went back to its snapshot; when
    /// that failed too, only the report changes.
    pub fn abort_epoch(
        &mut self,
        rollback: EpochRollback,
        cause: ImitationError,
        restored: Result<AdamState, ImitationError>,
    ) -> (r: ImitationError)
        ensures
            final(self).effective_batch == old(self).effective_batch,
            final(self).pool == old(self).pool,
            match restored {
                Ok(adam) => {
                    &&& r == cause
                    &&& final(self).adam == adam
                    &&& final(self).model_identity == adam.binding.policy
                    &&& final(self).counters == rollback.state.counters
                    &&& final(self).shuffle == rollback.state.shuffle
                    &&& final(self).early_stopper == rollback.early
                },
                Err(failure) => {
                    &&& *final(self) == *old(self)
                    &&& r matches ImitationError::Rollback { cause: first, rollback: second }
                        && first@ == cause.message_spec() && second@ == failure.message_spec()
                },
            },
    {
        match restored {
            Ok(adam) => {
                self.model_identity = adam.binding.policy;
                self.adam = adam;
                self.counters = rollback.state.counters;
                self.shuffle = rollback.state.shuffle;
                self.early_stopper = rollback.early;
                cause
            },
            Err(failure) => ImitationError::Rollback {
                cause: cause.message(),
                rollback: failure.message(),
            },
        }
    }

    pub fn adam(&self) -> (r: &AdamState)
        ensures
            *r == self.adam,
    {
        &self.adam
    }

    pub fn counters(&self) -> (r: TrainerCounters)
        ensures
            r == self.counters,
    {
        self.counters
    }

    pub fn model_identity(&self) -> (r: PolicyIdentity)
        ensures
            r == self.model_identity,
    {
        self.model_identity
    }

    pub fn shuffle_draws(&self) -> (r: u64)
        ensures
            r == self.shuffle.draws,
    {
        self.shuffle.draws
    }

    /// Failure of a gameplay evaluation before the stopper sees it.
    pub open spec fn gameplay_fault(self, snapshot: Result<ModelAdamSnapshot, String>) -> Option<
        ImitationError,
    > {
        first_fault(
            counters_fault(self),
            match snapshot {
                Err(text) => Some(ImitationError::Model(text)),
                Ok(_) => None,
            },
        )
    }

    /// Records a gameplay evaluation at the current completed epoch.
    ///
    /// `threshold` is the best score plus the minimum improvement, and `snapshot` the
    /// coherent state that the model reported for the trainer's own optimizer.
    pub fn observe_gameplay(
        &mut self,
        score: u64,
        threshold: u64,
        snapshot: Result<ModelAdamSnapshot, String>,
    ) -> (r: Result<bool, ImitationError>)
        requires
            old(self).wf(),
            snapshot matches Ok(model) ==> model.adam.step == old(self).adam.step,
        ensures
            final(self).wf(),
            final(self).effective_batch == old(self).effective_batch,
            final(self).shuffle == old(self).shuffle,
            final(self).counters == old(self).counters,
            final(self).adam == old(self).adam,
            final(self).pool == old(self).pool,
            final(self).model_identity == old(self).model_identity,
            if !finite64(score) {
                &&& r == Err::<bool, ImitationError>(ImitationError::NonFiniteEvaluation)
                &&& final(self).early_stopper == old(self).early_stopper
            } else if old(self).early_stopper.stopped {
                &&& r == Ok::<bool, ImitationError>(true)
                &&& final(self).early_stopper == old(self).early_stopper
            } else {
                match first_fault(
                    old(self).gameplay_fault(snapshot),
                    old(self).early_stopper.observation_fault(old(self).counters.epoch, score),
                ) {
                    Some(error) => {
                        &&& r == Err::<bool, ImitationError>(error)
                        &&& final(self).early_stopper == old(self).early_stopper
                    },
                    None => {
                        let epoch = old(self).counters.epoch;
                        &&& r == Ok::<bool, ImitationError>(final(self).early_stopper.stopped)
                        &&& final(self).early_stopper.config == old(self).early_stopper.config
                        &&& final(self).early_stopper.last_evaluation_epoch == Some(epoch)
                        &&& if old(self).early_stopper.improves(score, threshold) {
                            &&& final(self).early_stopper.best_epoch == Some(epoch)
                            &&& final(self).early_stopper.best_score == Some(score)
                            &&& final(self).early_stopper.best_state == Some(
                                CompleteTrainingState {
                                    model: snapshot->Ok_0,
                                    counters: old(self).counters,
                                    shuffle: old(self).shuffle,
                                },
                            )
                            &&& final(self).early_stopper.stale_evaluations == 0
                        } else {
                            &&& final(self).early_stopper.best_epoch == old(
                                self,
                            ).early_stopper.best_epoch
                            &&& final(self).early_stopper.best_score == old(
                                self,
                            ).early_stopper.best_score
                            &&& final(self).early_stopper.best_state == old(
                                self,
                            ).early_stopper.best_state
                            &&& final(self).early_stopper.stale_evaluations == old(
                                self,
                            ).early_stopper.stale_evaluations + 1
                        }
                    },
                }
            },
    {
        if !is_finite64(score) {
            return Err(ImitationError::NonFiniteEvaluation);
        }
        if self.early_stopper.stopped {
            return Ok(true);
        }
        match validate_trainer_counters(self) {
            Ok(()) => {},
            Err(error) => {
                return Err(error);
            },
        }
        let model = match snapshot {
            Ok(model) => model,
            Err(text) => {
                return Err(ImitationError::Model(text));
            },
        };
        let state = CompleteTrainingState {
            model,
            counters: self.counters,
            shuffle: self.shuffle,
        };
        self.early_stopper.observe(self.counters.epoch, score, threshold, state)
    }

    /// Goes back to the best gameplay-evaluated state.
    ///
    /// `restored` is the optimizer state after the model took the best snapshot.
    pub fn restore_best(&mut self, restored: Result<AdamState, String>) -> (r: Result<
        (),
        ImitationError,
    >)
        requires
            old(self).wf(),
        ensures
            final(self).wf(),
            final(self).effective_batch == old(self).effective_batch,
            final(self).pool == old(self).pool,
            match old(self).early_stopper.best_state {
                None => {
                    &&& r == Err::<(), ImitationError>(
                        ImitationError::CheckpointState("best training snapshot"),
                    )
                    &&& *final(self) == *old(self)
                },
                Some(best) => match restored {
                    Err(text) => {
                        &&& r == Err::<(), ImitationError>(ImitationError::Model(text))
                        &&& *final(self) == *old(self)
                    },
                    Ok(adam) => {
                        &&& r == Ok::<(), ImitationError>(())
                        &&& final(self).adam == adam
                        &&& final(self).model_identity == adam.binding.policy
                        &&& final(self).counters == best.counters
                        &&& final(self).shuffle == best.shuffle
                        &&& final(self).early_stopper == (EarlyStopper {
                            stale_evaluations: 0,
                            last_evaluation_epoch: old(self).early_stopper.best_epoch,
                            stopped: false,
                            ..old(self).early_stopper
                        })
                    },
                },
            },
    {
        let (counters, shuffle) = match &self.early_stopper.best_state {
            Some(state) => (state.counters, state.shuffle),
            None => {
                return Err(ImitationError::CheckpointState("best training snapshot"));
            },
        };
        let adam = match restored {
            Ok(adam) => adam,
            Err(text) => {
                return Err(ImitationError::Model(text));
            },
        };
        self.model_identity = adam.binding.policy;
        self.adam = adam;
        self.counters = counters;
        self.shuffle = shuffle;
        self.early_stopper.stale_evaluations = 0;
        self.early_stopper.last_evaluation_epoch = self.early_stopper.best_epoch;
        self.early_stopper.stopped = false;
        Ok(())
    }
}

impl EpochPlan {
    /// Sample indices of one update.
    pub fn batch(&self, index: usize) -> (r: Vec<usize>)
        requires
            self.batch >= 1,
            self.order@.len() <= 0xffff_ffff,
            self.updates == batch_count(self.order@.len(), self.batch as nat),
            index < self.updates,
        ensures
            r@ == batch_of(self.order@, self.batch as nat, index as nat),
            r@.len() >= 1,
    {
        proof {
            lemma_batch_start(self.order@.len() as int, self.batch as int, index as int);
        }
        let start: usize = index * self.batch;
        let end: usize = if self.order.len() - start > self.batch {
            start + self.batch
        } else {
            self.order.len()
        };
        let mut output: Vec<usize> = Vec::new();
        let mut at: usize = start;
        while at < end
            invariant
                start <= at <= end,
                end <= self.order@.len(),
                output@ == self.order@.subrange(start as int, at as int),
            decreases end - at,
        {
            output.push(self.order[at]);
            at += 1;
            assert(output@ =~= self.order@.subrange(start as int, at as int));
        }
        output
    }
}

fn divided_up(samples: usize, batch: usize) -> (r: usize)
    requires
        batch >= 1,
        samples >= 1,
    ensures
        r == batch_count(samples as nat, batch as nat),
        r <= samples,
{
    proof {
        let n = samples as int;
        let b = batch as int;
        assert((n + b - 1) / b == (n - 1) / b + 1) by (nonlinear_arith)
            requires
                n >= 1,
                b >= 1,
        ;
        assert((n - 1) / b <= n - 1) by (nonlinear_arith)
            requires
                n >= 1,
                b >= 1,
        ;
        assert((n - 1) / b >= 0) by (nonlinear_arith)
            requires
                n >= 1,
                b >= 1,
        ;
    }
    (samples - 1) / batch + 1
}

proof fn lemma_batch_start(samples: int, batch: int, index: int)
    by (nonlinear_arith)
    requires
        samples >= 0,
        batch >= 1,
        0 <= index < (samples + batch - 1) / batch,
    ensures
        0 <= index * batch < samples,
{
}

proof fn lemma_train_count(samples: Seq<crate::sample::ImitationSample>)
    ensures
        train_indices(samples).len() <= samples.len(),
    decreases samples.len(),
{
    if samples.len() > 0 {
        lemma_train_count(samples.drop_last());
    }
}

proof fn lemma_joined(order: Seq<usize>, batch: nat, count: nat)
    requires
        batch >= 1,
        count <= batch_count(order.len(), batch),
    ensures
        batches_joined(order, batch, count) == order.take(
            if count * batch < order.len() {
                (count * batch) as int
            } else {
                order.len() as int
            },
        ),
    decreases count,
{
    if count > 0 {
        let index = (count - 1) as nat;
        lemma_joined(order, batch, index);
        lemma_batch_start(order.len() as int, batch as int, index as int);
        assert(count * batch == index * batch + batch) by (nonlinear_arith)
            requires
                count == index + 1,
        ;
        assert(batches_joined(order, batch, count) =~= order.take(
            if count * batch < order.len() {
                (count * batch) as int
            } else {
                order.len() as int
            },
        ));
    } else {
        assert(order.take(0) =~= Seq::<usize>::empty());
    }
}

/// The batches of an epoch, one behind the other, are exactly its order.
pub proof fn batches_cover_the_order(order: Seq<usize>, batch: nat)
    requires
        batch >= 1,
    ensures
        batches_joined(order, batch, batch_count(order.len(), batch)) == order,
{
    let count = batch_count(order.len(), batch);
    lemma_joined(order, batch, count);
    let n = order.len() as int;
    let b = batch as int;
    assert((n + b - 1) / b * b >= n) by (nonlinear_arith)
        requires
            n >= 0,
            b >= 1,
    ;
    assert((n + b - 1) / b >= 0) by (nonlinear_arith)
        requires
            n >= 0,
            b >= 1,
    ;
    assert(order.take(n) =~= order);
}

/// A stopped run has exhausted its patience and holds a best state to go back to.
pub proof fn stopped_runs_hold_a_best_state(stopper: EarlyStopper)
    requires
        stopper.wf(),
        stopper.stopped,
    ensures
        stopper.stale_evaluations == stopper.config.patience,
        stopper.best_state is Some,
{
}

} // verus!
