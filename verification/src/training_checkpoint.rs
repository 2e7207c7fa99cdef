//! Strict in-memory checkpoints of behavioral training.
use crate::behavioral_target::{faulted, first_fault};
use crate::frame::{finite64, is_finite32, is_finite64, row_finite, FEATURE_SCHEMA_VERSION};
use crate::imitation_error::ImitationError;
use crate::model::{
    AdamConfig, AdamState, ModelAdamSnapshot, ModelShape, OptimizerBinding, PolicyIdentity,
};
use crate::pool::{binding_fault, validate_pool_binding, ImitationPool, PoolBinding};
use crate::sample::{scope_fault, validate_scope};
use crate::schema::{ACTION_SCHEMA_HASH, ACTION_SCHEMA_VERSION, FEATURE_SCHEMA_HASH};
use crate::shuffle::{ShuffleState, MAX_TRAINING_COUNTER};
use crate::training::{
    batch_fault, counters_fault, early_config_fault, validate_early_config,
    validate_effective_batch, validate_trainer_counters, BehavioralTrainer, CompleteTrainingState,
    EarlyStopper, EarlyStoppingConfig, TrainerCounters,
};
use crate::world::copy_vec;
use vstd::prelude::*;

verus! {

/// Current behavioral optimizer ownership schema.
pub const IMITATION_OPTIMIZER_VERSION: u32 = 2;

/// Complete strict in-memory behavioral-training checkpoint.
///
/// Parameters and moments are single-precision bits, scores double-precision bits.
#[derive(Debug, PartialEq, Eq)]
pub struct TrainingCheckpoint {
    pub action_schema_version: u32,
    pub action_schema_hash: u64,
    pub model_schema_version: u32,
    pub model_schema_hash: u64,
    pub feature_schema_version: u32,
    pub feature_schema_hash: u64,
    pub pool: PoolBinding,
    pub optimizer_version: u32,
    pub model_identity: PolicyIdentity,
    pub optimizer_lineage: u64,
    pub parameters: Vec<u32>,
    pub adam_config: AdamConfig,
    pub first_moment: Vec<u32>,
    pub second_moment: Vec<u32>,
    pub adam_step: u64,
    pub effective_batch: usize,
    pub epoch: u64,
    pub global_update: u64,
    pub shuffle_state: u64,
    pub shuffle_draws: u64,
    pub early_stopping_config: EarlyStoppingConfig,
    pub best_epoch: Option<u64>,
    pub best_score: Option<u64>,
    pub best_model_identity: Option<PolicyIdentity>,
    pub best_optimizer_lineage: Option<u64>,
    pub best_parameters: Option<Vec<u32>>,
    pub best_first_moment: Option<Vec<u32>>,
    pub best_second_moment: Option<Vec<u32>>,
    pub best_adam_step: Option<u64>,
    pub best_counters: Option<TrainerCounters>,
    pub best_shuffle_state: Option<u64>,
    pub best_shuffle_draws: Option<u64>,
    pub stale_evaluations: u32,
    pub last_evaluation_epoch: Option<u64>,
    pub stopped: bool,
}

/// Training state that a checkpoint restores.
#[derive(Debug)]
pub struct CheckpointCandidate {
    pub current: ModelAdamSnapshot,
    pub counters: TrainerCounters,
    pub shuffle: ShuffleState,
    pub early: EarlyStopper,
}

/// Answers of the optimizer's own check on the current and the best moments.
#[derive(Debug)]
pub struct OptimizerVerdicts {
    pub current: Result<(), String>,
    pub best: Result<(), String>,
}

pub open spec fn state_error(field: &'static str) -> ImitationError {
    ImitationError::CheckpointState(field)
}

/// Failure of a vector whose length is not the parameter count.
pub open spec fn length_fault(values: Seq<u32>, shape: ModelShape, field: &'static str) -> Option<
    ImitationError,
> {
    if values.len() == shape.parameter_count {
        None
    } else {
        Some(state_error(field))
    }
}

pub open spec fn optional_length_fault(
    values: Option<Vec<u32>>,
    shape: ModelShape,
    field: &'static str,
) -> Option<ImitationError> {
    match values {
        Some(list) => length_fault(list@, shape, field),
        None => None,
    }
}

/// Failure of parameters that are too few, too many, or not finite.
pub open spec fn parameters_fault(values: Seq<u32>, shape: ModelShape, field: &'static str) -> Option<
    ImitationError,
> {
    if values.len() == shape.parameter_count && row_finite(values) {
        None
    } else {
        Some(state_error(field))
    }
}

fn precheck_vector_length(values: &Vec<u32>, shape: ModelShape, field: &'static str) -> (r: Result<
    (),
    ImitationError,
>)
    ensures
        r == faulted(length_fault(values@, shape, field)),
{
    if values.len() != shape.parameter_count {
        return Err(ImitationError::CheckpointState(field));
    }
    Ok(())
}

fn precheck_optional_length(
    values: &Option<Vec<u32>>,
    shape: ModelShape,
    field: &'static str,
) -> (r: Result<(), ImitationError>)
    ensures
        r == faulted(optional_length_fault(*values, shape, field)),
{
    match values {
        Some(list) => precheck_vector_length(list, shape, field),
        None => Ok(()),
    }
}

fn validate_parameter_vector(values: &Vec<u32>, shape: ModelShape, field: &'static str) -> (r:
    Result<(), ImitationError>)
    ensures
        r == faulted(parameters_fault(values@, shape, field)),
{
    if values.len() != shape.parameter_count {
        return Err(ImitationError::CheckpointState(field));
    }
    let mut index: usize = 0;
    while index < values.len()
        invariant
            index <= values@.len(),
            values@.len() == shape.parameter_count,
            forall|i: int| 0 <= i < index ==> crate::frame::finite32(#[trigger] values@[i]),
        decreases values@.len() - index,
    {
        if !is_finite32(values[index]) {
            assert(!crate::frame::finite32(values@[index as int]));
            return Err(ImitationError::CheckpointState(field));
        }
        index += 1;
    }
    Ok(())
}

impl TrainingCheckpoint {
    /// Failure of any vector with a wrong length.
    pub open spec fn lengths_fault(self, shape: ModelShape) -> Option<ImitationError> {
        first_fault(
            length_fault(self.parameters@, shape, "parameters"),
            first_fault(
                length_fault(self.first_moment@, shape, "first moment"),
                first_fault(
                    length_fault(self.second_moment@, shape, "second moment"),
                    first_fault(
                        optional_length_fault(self.best_parameters, shape, "best parameters"),
                        first_fault(
                            optional_length_fault(
                                self.best_first_moment,
                                shape,
                                "best first moment",
                            ),
                            optional_length_fault(
                                self.best_second_moment,
                                shape,
                                "best second moment",
                            ),
                        ),
                    ),
                ),
            ),
        )
    }

    fn precheck_lengths(&self, shape: ModelShape) -> (r: Result<(), ImitationError>)
        ensures
            r == faulted(self.lengths_fault(shape)),
    {
        match precheck_vector_length(&self.parameters, shape, "parameters") {
            Ok(()) => {},
            Err(error) => {
                return Err(error);
            },
        }
        match precheck_vector_length(&self.first_moment, shape, "first moment") {
            Ok(()) => {},
            Err(error) => {
                return Err(error);
            },
        }
        match precheck_vector_length(&self.second_moment, shape, "second moment") {
            Ok(()) => {},
            Err(error) => {
                return Err(error);
            },
        }
        match precheck_optional_length(&self.best_parameters, shape, "best parameters") {
            Ok(()) => {},
            Err(error) => {
                return Err(error);
            },
        }
        match precheck_optional_length(&self.best_first_moment, shape, "best first moment") {
            Ok(()) => {},
            Err(error) => {
                return Err(error);
            },
        }
        precheck_optional_length(&self.best_second_moment, shape, "best second moment")
    }

    /// Whether every schema matches this library and the model.
    pub open spec fn schemas_match(self, shape: ModelShape) -> bool {
        &&& self.action_schema_version == ACTION_SCHEMA_VERSION
        &&& self.action_schema_hash == ACTION_SCHEMA_HASH
        &&& self.model_schema_version == shape.schema_version
        &&& self.model_schema_hash == shape.schema_hash
        &&& self.feature_schema_version == FEATURE_SCHEMA_VERSION
        &&& self.feature_schema_hash == FEATURE_SCHEMA_HASH
    }

    /// Failure of the current counters.
    pub open spec fn counters_fault(self) -> Option<ImitationError> {
        if self.epoch > MAX_TRAINING_COUNTER || self.global_update > MAX_TRAINING_COUNTER {
            Some(state_error("training counters"))
        } else if self.shuffle_draws > MAX_TRAINING_COUNTER {
            Some(state_error("shuffle draw counter"))
        } else if self.adam_step != self.global_update || self.epoch > self.global_update {
            Some(state_error("optimizer counter relationship"))
        } else {
            None
        }
    }

    fn validate_counters(&self) -> (r: Result<(), ImitationError>)
        ensures
            r == faulted(self.counters_fault()),
    {
        if self.epoch > MAX_TRAINING_COUNTER || self.global_update > MAX_TRAINING_COUNTER {
            return Err(ImitationError::CheckpointState("training counters"));
        }
        if self.shuffle_draws > MAX_TRAINING_COUNTER {
            return Err(ImitationError::CheckpointState("shuffle draw counter"));
        }
        if self.adam_step != self.global_update || self.epoch > self.global_update {
            return Err(ImitationError::CheckpointState("optimizer counter relationship"));
        }
        Ok(())
    }

    /// Whether every part of a best evaluation is present.
    pub open spec fn best_complete(self) -> bool {
        &&& self.best_epoch is Some
        &&& self.best_score is Some
        &&& self.best_model_identity is Some
        &&& self.best_optimizer_lineage is Some
        &&& self.best_parameters is Some
        &&& self.best_first_moment is Some
        &&& self.best_second_moment is Some
        &&& self.best_adam_step is Some
        &&& self.best_counters is Some
        &&& self.best_shuffle_state is Some
        &&& self.best_shuffle_draws is Some
    }

    /// Whether no part of a best evaluation is present.
    pub open spec fn best_absent(self) -> bool {
        &&& self.best_epoch is None
        &&& self.best_score is None
        &&& self.best_model_identity is None
        &&& self.best_optimizer_lineage is None
        &&& self.best_parameters is None
        &&& self.best_first_moment is None
        &&& self.best_second_moment is None
        &&& self.best_adam_step is None
        &&& self.best_counters is None
        &&& self.best_shuffle_state is None
        &&& self.best_shuffle_draws is None
    }

    /// Whether the best and last evaluations fit the evaluations counted since.
    pub open spec fn epochs_valid(self, best: u64, last: u64) -> bool {
        &&& best <= last
        &&& last <= self.epoch
        &&& last <= MAX_TRAINING_COUNTER
        &&& if self.stale_evaluations == 0 {
            best == last
        } else {
            last - best >= self.stale_evaluations
        }
    }

    /// Failure of the recorded evaluations.
    pub open spec fn history_fault(self) -> Option<ImitationError> {
        if !self.best_complete() && !self.best_absent() {
            Some(state_error("best evaluation snapshot"))
        } else if self.best_score matches Some(score) && !finite64(score) {
            Some(state_error("best score"))
        } else {
            match (self.best_epoch, self.last_evaluation_epoch) {
                (Some(best), Some(last)) => if self.epochs_valid(best, last) {
                    None
                } else {
                    Some(state_error("evaluation epoch relationship"))
                },
                (None, None) => if self.stale_evaluations == 0 {
                    None
                } else {
                    Some(state_error("best evaluation state"))
                },
                _ => Some(state_error("best evaluation state")),
            }
        }
    }

    /// Checks the recorded evaluations.
    fn validate_evaluation_history(&self) -> (r: Result<(), ImitationError>)
        ensures
            r == faulted(self.history_fault()),
    {
        let complete = self.best_epoch.is_some() && self.best_score.is_some()
            && self.best_model_identity.is_some() && self.best_optimizer_lineage.is_some()
            && self.best_parameters.is_some() && self.best_first_moment.is_some()
            && self.best_second_moment.is_some() && self.best_adam_step.is_some()
            && self.best_counters.is_some() && self.best_shuffle_state.is_some()
            && self.best_shuffle_draws.is_some();
        let absent = self.best_epoch.is_none() && self.best_score.is_none()
            && self.best_model_identity.is_none() && self.best_optimizer_lineage.is_none()
            && self.best_parameters.is_none() && self.best_first_moment.is_none()
            && self.best_second_moment.is_none() && self.best_adam_step.is_none()
            && self.best_counters.is_none() && self.best_shuffle_state.is_none()
            && self.best_shuffle_draws.is_none();
        if !complete && !absent {
            return Err(ImitationError::CheckpointState("best evaluation snapshot"));
        }
        if let Some(score) = self.best_score {
            if !is_finite64(score) {
                return Err(ImitationError::CheckpointState("best score"));
            }
        }
        match (self.best_epoch, self.last_evaluation_epoch) {
            (Some(best), Some(last)) => {
                let stale: u64 = self.stale_evaluations as u64;
                let valid = best <= last && last <= self.epoch && last <= MAX_TRAINING_COUNTER && if stale
                    == 0 {
                    best == last
                } else {
                    last - best >= stale
                };
                if valid {
                    Ok(())
                } else {
                    Err(ImitationError::CheckpointState("evaluation epoch relationship"))
                }
            },
            (None, None) => if self.stale_evaluations == 0 {
                Ok(())
            } else {
                Err(ImitationError::CheckpointState("best evaluation state"))
            },
            _ => Err(ImitationError::CheckpointState("best evaluation state")),
        }
    }

    /// Whether the best counters fit themselves, the step, and the current counters.
    pub open spec fn best_counters_fit(self, counters: TrainerCounters, step: u64) -> bool {
        &&& counters.epoch <= MAX_TRAINING_COUNTER
        &&& counters.global_update <= MAX_TRAINING_COUNTER
        &&& step == counters.global_update
        &&& counters.epoch <= counters.global_update
        &&& counters.epoch <= self.epoch
        &&& counters.global_update <= self.global_update
        &&& step <= self.adam_step
    }

    /// Failure of the best snapshot behind its parameters.
    pub open spec fn best_parts_fault(self, verdict: Result<(), String>) -> Option<ImitationError> {
        if !(self.best_optimizer_lineage matches Some(lineage) && lineage != 0) {
            Some(state_error("best optimizer lineage"))
        } else if self.best_model_identity is None {
            Some(state_error("best model identity"))
        } else if self.best_first_moment is None {
            Some(state_error("best first moment"))
        } else if self.best_second_moment is None {
            Some(state_error("best second moment"))
        } else if self.best_adam_step is None {
            Some(state_error("best Adam step"))
        } else {
            match verdict {
                Err(text) => Some(ImitationError::Model(text)),
                Ok(()) => match self.best_counters {
                    None => Some(state_error("best counters")),
                    Some(counters) => if !self.best_counters_fit(counters, self.best_adam_step->0) {
                        Some(state_error("best counter relationship"))
                    } else if self.best_epoch != Some(counters.epoch) {
                        Some(state_error("best epoch snapshot relationship"))
                    } else if self.best_shuffle_state is None {
                        Some(state_error("best shuffle state"))
                    } else {
                        match self.best_shuffle_draws {
                            None => Some(state_error("best shuffle draws")),
                            Some(draws) => if draws > MAX_TRAINING_COUNTER {
                                Some(state_error("best shuffle draw counter"))
                            } else if draws > self.shuffle_draws {
                                Some(state_error("best shuffle draw relationship"))
                            } else {
                                None
                            },
                        }
                    },
                },
            }
        }
    }

    /// Failure of the best snapshot; one without parameters is simply absent.
    pub open spec fn best_fault(self, shape: ModelShape, verdict: Result<(), String>) -> Option<
        ImitationError,
    > {
        match self.best_parameters {
            None => None,
            Some(parameters) => first_fault(
                parameters_fault(parameters@, shape, "best parameters"),
                self.best_parts_fault(verdict),
            ),
        }
    }

    /// Whether a state is the best snapshot of the checkpoint.
    pub open spec fn is_best(self, state: CompleteTrainingState) -> bool {
        &&& self.best_parameters matches Some(parameters) && state.model.parameters@ == parameters@
        &&& state.model.adam.config.settings@ == self.adam_config.settings@
        &&& self.best_first_moment matches Some(first) && state.model.adam.first_moment@ == first@
        &&& self.best_second_moment matches Some(second) && state.model.adam.second_moment@
            == second@
        &&& Some(state.model.adam.step) == self.best_adam_step
        &&& Some(state.model.adam.binding.lineage) == self.best_optimizer_lineage
        &&& Some(state.model.adam.binding.policy) == self.best_model_identity
        &&& Some(state.counters) == self.best_counters
        &&& Some(state.shuffle.state) == self.best_shuffle_state
        &&& Some(state.shuffle.draws) == self.best_shuffle_draws
    }

    /// Rebuilds the best snapshot; `verdict` is the optimizer's check of its moments.
    pub fn build_best_state(&self, shape: ModelShape, verdict: &Result<(), String>) -> (r: Result<
        Option<CompleteTrainingState>,
        ImitationError,
    >)
        ensures
            match r {
                Err(error) => match self.best_fault(shape, *verdict) {
                    Some(fault) => same_failure(error, fault),
                    None => false,
                },
                Ok(None) => self.best_parameters is None,
                Ok(Some(state)) => self.best_fault(shape, *verdict) is None && self.is_best(state),
            },
    {
        let parameters = match &self.best_parameters {
            Some(parameters) => parameters,
            None => {
                return Ok(None);
            },
        };
        match validate_parameter_vector(parameters, shape, "best parameters") {
            Ok(()) => {},
            Err(error) => {
                return Err(error);
            },
        }
        let lineage: u64 = match self.best_optimizer_lineage {
            Some(lineage) => lineage,
            None => 0,
        };
        if lineage == 0 {
            return Err(ImitationError::CheckpointState("best optimizer lineage"));
        }
        let policy = match self.best_model_identity {
            Some(policy) => policy,
            None => {
                return Err(ImitationError::CheckpointState("best model identity"));
            },
        };
        let first_moment = match &self.best_first_moment {
            Some(values) => copy_vec(values),
            None => {
                return Err(ImitationError::CheckpointState("best first moment"));
            },
        };
        let second_moment = match &self.best_second_moment {
            Some(values) => copy_vec(values),
            None => {
                return Err(ImitationError::CheckpointState("best second moment"));
            },
        };
        let step: u64 = match self.best_adam_step {
            Some(step) => step,
            None => {
                return Err(ImitationError::CheckpointState("best Adam step"));
            },
        };
        match verdict {
            Ok(()) => {},
            Err(text) => {
                return Err(ImitationError::Model(crate::text::owned(text.as_str())));
            },
        }
        let counters = match self.best_counters {
            Some(counters) => counters,
            None => {
                return Err(ImitationError::CheckpointState("best counters"));
            },
        };
        if counters.epoch > MAX_TRAINING_COUNTER || counters.global_update > MAX_TRAINING_COUNTER
            || step != counters.global_update || counters.epoch > counters.global_update
            || counters.epoch > self.epoch || counters.global_update > self.global_update || step
            > self.adam_step {
            return Err(ImitationError::CheckpointState("best counter relationship"));
        }
        let epoch_matches = match self.best_epoch {
            Some(epoch) => epoch == counters.epoch,
            None => false,
        };
        if !epoch_matches {
            return Err(ImitationError::CheckpointState("best epoch snapshot relationship"));
        }
        let state: u64 = match self.best_shuffle_state {
            Some(state) => state,
            None => {
                return Err(ImitationError::CheckpointState("best shuffle state"));
            },
        };
        let draws: u64 = match self.best_shuffle_draws {
            Some(draws) => draws,
            None => {
                return Err(ImitationError::CheckpointState("best shuffle draws"));
            },
        };
        if draws > MAX_TRAINING_COUNTER {
            return Err(ImitationError::CheckpointState("best shuffle draw counter"));
        }
        if draws > self.shuffle_draws {
            return Err(ImitationError::CheckpointState("best shuffle draw relationship"));
        }
        Ok(
            Some(
                CompleteTrainingState {
                    model: ModelAdamSnapshot {
                        parameters: copy_vec(parameters),
                        adam: AdamState {
                            config: AdamConfig { settings: copy_vec(&self.adam_config.settings) },
                            first_moment,
                            second_moment,
                            step,
                            binding: OptimizerBinding { lineage, policy },
                        },
                    },
                    counters,
                    shuffle: ShuffleState { state, draws },
                },
            ),
        )
    }

    /// Failure of the early-stopping state.
    pub open spec fn early_fault(self, shape: ModelShape, verdict: Result<(), String>) -> Option<
        ImitationError,
    > {
        first_fault(
            early_config_fault(self.early_stopping_config),
            first_fault(
                if self.stale_evaluations > self.early_stopping_config.patience || self.stopped != (
                self.stale_evaluations >= self.early_stopping_config.patience) {
                    Some(state_error("early-stopping patience"))
                } else {
                    None
                },
                first_fault(self.history_fault(), self.best_fault(shape, verdict)),
            ),
        )
    }

    /// Whether a stopper is the one that the checkpoint describes.
    pub open spec fn is_early(self, early: EarlyStopper) -> bool {
        &&& early.config == self.early_stopping_config
        &&& early.best_epoch == self.best_epoch
        &&& early.best_score == self.best_score
        &&& early.stale_evaluations == self.stale_evaluations
        &&& early.last_evaluation_epoch == self.last_evaluation_epoch
        &&& early.stopped == self.stopped
        &&& match early.best_state {
            Some(state) => self.is_best(state),
            None => self.best_parameters is None,
        }
    }

    fn validate_early(&self, shape: ModelShape, verdict: &Result<(), String>) -> (r: Result<
        EarlyStopper,
        ImitationError,
    >)
        ensures
            match r {
                Err(error) => match self.early_fault(shape, *verdict) {
                    Some(fault) => same_failure(error, fault),
                    None => false,
                },
                Ok(early) => self.early_fault(shape, *verdict) is None && self.is_early(early)
                    && early.wf(),
            },
    {
        match validate_early_config(self.early_stopping_config) {
            Ok(()) => {},
            Err(error) => {
                return Err(error);
            },
        }
        if self.stale_evaluations > self.early_stopping_config.patience || self.stopped != (
        self.stale_evaluations >= self.early_stopping_config.patience) {
            return Err(ImitationError::CheckpointState("early-stopping patience"));
        }
        match self.validate_evaluation_history() {
            Ok(()) => {},
            Err(error) => {
                return Err(error);
            },
        }
        let best_state = match self.build_best_state(shape, verdict) {
            Ok(state) => state,
            Err(error) => {
                return Err(error);
            },
        };
        Ok(
            EarlyStopper {
                config: self.early_stopping_config,
                best_epoch: self.best_epoch,
                best_score: self.best_score,
                best_state,
                stale_evaluations: self.stale_evaluations,
                last_evaluation_epoch: self.last_evaluation_epoch,
                stopped: self.stopped,
            },
        )
    }

    /// Failure of the first part of a checkpoint that a trainer and its pool reject.
    pub open spec fn fault(
        self,
        shape: ModelShape,
        trainer: BehavioralTrainer,
        pool: ImitationPool,
        verdicts: OptimizerVerdicts,
    ) -> Option<ImitationError> {
        first_fault(
            self.lengths_fault(shape),
            if !self.schemas_match(shape) {
                Some(ImitationError::CheckpointSchema)
            } else if self.optimizer_version != IMITATION_OPTIMIZER_VERSION {
                Some(state_error("optimizer ownership or version"))
            } else if !self.pool.same(pool.binding) || !self.pool.same(trainer.pool) {
                Some(ImitationError::PoolBindingMismatch)
            } else {
                first_fault(
                    first_fault(binding_fault(self.pool), scope_fault(self.pool.scope)),
                    first_fault(
                        parameters_fault(self.parameters@, shape, "parameters"),
                        first_fault(
                            batch_fault(self.effective_batch, shape),
                            first_fault(
                                self.counters_fault(),
                                if self.optimizer_lineage == 0 {
                                    Some(state_error("optimizer lineage"))
                                } else {
                                    first_fault(
                                        verdict_fault(verdicts.current),
                                        self.early_fault(shape, verdicts.best),
                                    )
                                },
                            ),
                        ),
                    ),
                )
            },
        )
    }

    /// Whether a candidate is the training state that the checkpoint describes.
    pub open spec fn describes(self, candidate: CheckpointCandidate) -> bool {
        &&& candidate.current.parameters@ == self.parameters@
        &&& candidate.current.adam.config.settings@ == self.adam_config.settings@
        &&& candidate.current.adam.first_moment@ == self.first_moment@
        &&& candidate.current.adam.second_moment@ == self.second_moment@
        &&& candidate.current.adam.step == self.adam_step
        &&& candidate.current.adam.binding == (OptimizerBinding {
            lineage: self.optimizer_lineage,
            policy: self.model_identity,
        })
        &&& candidate.counters == (TrainerCounters {
            epoch: self.epoch,
            global_update: self.global_update,
        })
        &&& candidate.shuffle == (ShuffleState {
            state: self.shuffle_state,
            draws: self.shuffle_draws,
        })
        &&& self.is_early(candidate.early)
    }

    /// Strictly validates all state; `verdicts` are the optimizer's checks of the moments.
    pub fn validate(
        &self,
        shape: ModelShape,
        trainer: &BehavioralTrainer,
        pool: &ImitationPool,
        verdicts: &OptimizerVerdicts,
    ) -> (r: Result<CheckpointCandidate, ImitationError>)
        ensures
            match r {
                Err(error) => match self.fault(shape, *trainer, *pool, *verdicts) {
                    Some(fault) => same_failure(error, fault),
                    None => false,
                },
                Ok(candidate) => {
                    &&& self.fault(shape, *trainer, *pool, *verdicts) is None
                    &&& self.describes(candidate)
                    &&& candidate.early.wf()
                },
            },
    {
        match self.precheck_lengths(shape) {
            Ok(()) => {},
            Err(error) => {
                return Err(error);
            },
        }
        if self.action_schema_version != ACTION_SCHEMA_VERSION || self.action_schema_hash
            != ACTION_SCHEMA_HASH || self.model_schema_version != shape.schema_version
            || self.model_schema_hash != shape.schema_hash || self.feature_schema_version
            != FEATURE_SCHEMA_VERSION || self.feature_schema_hash != FEATURE_SCHEMA_HASH {
            return Err(ImitationError::CheckpointSchema);
        }
        if self.optimizer_version != IMITATION_OPTIMIZER_VERSION {
            return Err(ImitationError::CheckpointState("optimizer ownership or version"));
        }
        if !self.pool.is_same(&pool.binding) || !self.pool.is_same(&trainer.pool) {
            return Err(ImitationError::PoolBindingMismatch);
        }
        match validate_pool_binding(&self.pool) {
            Ok(()) => {},
            Err(error) => {
                return Err(error);
            },
        }
        match validate_scope(self.pool.scope) {
            Ok(()) => {},
            Err(error) => {
                return Err(error);
            },
        }
        match validate_parameter_vector(&self.parameters, shape, "parameters") {
            Ok(()) => {},
            Err(error) => {
                return Err(error);
            },
        }
        match validate_effective_batch(self.effective_batch, shape) {
            Ok(()) => {},
            Err(error) => {
                return Err(error);
            },
        }
        match self.validate_counters() {
            Ok(()) => {},
            Err(error) => {
                return Err(error);
            },
        }
        if self.optimizer_lineage == 0 {
            return Err(ImitationError::CheckpointState("optimizer lineage"));
        }
        match &verdicts.current {
            Ok(()) => {},
            Err(text) => {
                return Err(ImitationError::Model(crate::text::owned(text.as_str())));
            },
        }
        let early = match self.validate_early(shape, &verdicts.best) {
            Ok(early) => early,
            Err(error) => {
                return Err(error);
            },
        };
        Ok(
            CheckpointCandidate {
                current: ModelAdamSnapshot {
                    parameters: copy_vec(&self.parameters),
                    adam: AdamState {
                        config: AdamConfig { settings: copy_vec(&self.adam_config.settings) },
                        first_moment: copy_vec(&self.first_moment),
                        second_moment: copy_vec(&self.second_moment),
                        step: self.adam_step,
                        binding: OptimizerBinding {
                            lineage: self.optimizer_lineage,
                            policy: self.model_identity,
                        },
                    },
                },
                counters: TrainerCounters { epoch: self.epoch, global_update: self.global_update },
                shuffle: ShuffleState { state: self.shuffle_state, draws: self.shuffle_draws },
                early,
            },
        )
    }

    /// Whether the checkpoint is the complete state of a trainer and its model.
    pub open spec fn captures(
        self,
        shape: ModelShape,
        trainer: BehavioralTrainer,
        current: ModelAdamSnapshot,
    ) -> bool {
        &&& self.schemas_match(shape)
        &&& self.pool.same(trainer.pool)
        &&& self.optimizer_version == IMITATION_OPTIMIZER_VERSION
        &&& self.model_identity == current.adam.binding.policy
        &&& self.optimizer_lineage == current.adam.binding.lineage
        &&& self.parameters@ == current.parameters@
        &&& self.adam_config.settings@ == current.adam.config.settings@
        &&& self.first_moment@ == current.adam.first_moment@
        &&& self.second_moment@ == current.adam.second_moment@
        &&& self.adam_step == current.adam.step
        &&& self.effective_batch == trainer.effective_batch
        &&& self.epoch == trainer.counters.epoch
        &&& self.global_update == trainer.counters.global_update
        &&& self.shuffle_state == trainer.shuffle.state
        &&& self.shuffle_draws == trainer.shuffle.draws
        &&& self.early_stopping_config == trainer.early_stopper.config
        &&& self.best_epoch == trainer.early_stopper.best_epoch
        &&& self.best_score == trainer.early_stopper.best_score
        &&& self.stale_evaluations == trainer.early_stopper.stale_evaluations
        &&& self.last_evaluation_epoch == trainer.early_stopper.last_evaluation_epoch
        &&& self.stopped == trainer.early_stopper.stopped
        &&& match trainer.early_stopper.best_state {
            Some(state) => self.holds_best(state),
            None => {
                &&& self.best_model_identity is None
                &&& self.best_optimizer_lineage is None
                &&& self.best_parameters is None
                &&& self.best_first_moment is None
                &&& self.best_second_moment is None
                &&& self.best_adam_step is None
                &&& self.best_counters is None
                &&& self.best_shuffle_state is None
                &&& self.best_shuffle_draws is None
            },
        }
    }

    /// Whether the best parts of the checkpoint are those of a state.
    pub open spec fn holds_best(self, state: CompleteTrainingState) -> bool {
        &&& self.best_parameters matches Some(parameters) && parameters@ == state.model.parameters@
        &&& self.best_first_moment matches Some(first) && first@ == state.model.adam.first_moment@
        &&& self.best_second_moment matches Some(second) && second@
            == state.model.adam.second_moment@
        &&& self.best_adam_step == Some(state.model.adam.step)
        &&& self.best_optimizer_lineage == Some(state.model.adam.binding.lineage)
        &&& self.best_model_identity == Some(state.model.adam.binding.policy)
        &&& self.best_counters == Some(state.counters)
        &&& self.best_shuffle_state == Some(state.shuffle.state)
        &&& self.best_shuffle_draws == Some(state.shuffle.draws)
    }

    /// Captures a trainer; `snapshot` is the coherent state that the model reported.
    pub fn capture(
        shape: ModelShape,
        trainer: &BehavioralTrainer,
        pool: &ImitationPool,
        snapshot: Result<ModelAdamSnapshot, String>,
    ) -> (r: Result<Self, ImitationError>)
        ensures
            match first_fault(
                first_fault(trainer.pool_fault(*pool), counters_fault(*trainer)),
                snapshot_fault(snapshot),
            ) {
                Some(error) => r == Err::<TrainingCheckpoint, ImitationError>(error),
                None => r matches Ok(checkpoint) && checkpoint.captures(
                    shape,
                    *trainer,
                    snapshot->Ok_0,
                ),
            },
    {
        match trainer.validate_pool(pool) {
            Ok(()) => {},
            Err(error) => {
                return Err(error);
            },
        }
        match validate_trainer_counters(trainer) {
            Ok(()) => {},
            Err(error) => {
                return Err(error);
            },
        }
        let current = match snapshot {
            Ok(current) => current,
            Err(text) => {
                return Err(ImitationError::Model(text));
            },
        };
        let mut checkpoint = TrainingCheckpoint {
            action_schema_version: ACTION_SCHEMA_VERSION,
            action_schema_hash: ACTION_SCHEMA_HASH,
            model_schema_version: shape.schema_version,
            model_schema_hash: shape.schema_hash,
            feature_schema_version: FEATURE_SCHEMA_VERSION,
            feature_schema_hash: FEATURE_SCHEMA_HASH,
            pool: trainer.pool.duplicate(),
            optimizer_version: IMITATION_OPTIMIZER_VERSION,
            model_identity: current.adam.binding.policy,
            optimizer_lineage: current.adam.binding.lineage,
            parameters: current.parameters,
            adam_config: current.adam.config,
            first_moment: current.adam.first_moment,
            second_moment: current.adam.second_moment,
            adam_step: current.adam.step,
            effective_batch: trainer.effective_batch,
            epoch: trainer.counters.epoch,
            global_update: trainer.counters.global_update,
            shuffle_state: trainer.shuffle.state,
            shuffle_draws: trainer.shuffle.draws,
            early_stopping_config: trainer.early_stopper.config,
            best_epoch: trainer.early_stopper.best_epoch,
            best_score: trainer.early_stopper.best_score,
            best_model_identity: None,
            best_optimizer_lineage: None,
            best_parameters: None,
            best_first_moment: None,
            best_second_moment: None,
            best_adam_step: None,
            best_counters: None,
            best_shuffle_state: None,
            best_shuffle_draws: None,
            stale_evaluations: trainer.early_stopper.stale_evaluations,
            last_evaluation_epoch: trainer.early_stopper.last_evaluation_epoch,
            stopped: trainer.early_stopper.stopped,
        };
        if let Some(state) = &trainer.early_stopper.best_state {
            checkpoint.best_model_identity = Some(state.model.adam.binding.policy);
            checkpoint.best_optimizer_lineage = Some(state.model.adam.binding.lineage);
            checkpoint.best_parameters = Some(copy_vec(&state.model.parameters));
            checkpoint.best_first_moment = Some(copy_vec(&state.model.adam.first_moment));
            checkpoint.best_second_moment = Some(copy_vec(&state.model.adam.second_moment));
            checkpoint.best_adam_step = Some(state.model.adam.step);
            checkpoint.best_counters = Some(state.counters);
            checkpoint.best_shuffle_state = Some(state.shuffle.state);
            checkpoint.best_shuffle_draws = Some(state.shuffle.draws);
        }
        Ok(checkpoint)
    }

    /// Replaces a trainer by a validated candidate of this checkpoint.
    ///
    /// `restored` is the optimizer state after the model took the candidate's snapshot.
    pub fn restore(
        &self,
        trainer: &mut BehavioralTrainer,
        candidate: CheckpointCandidate,
        restored: Result<AdamState, String>,
    ) -> (r: Result<(), ImitationError>)
        ensures
            match restored {
                Err(text) => {
                    &&& r == Err::<(), ImitationError>(ImitationError::Model(text))
                    &&& *final(trainer) == *old(trainer)
                },
                Ok(adam) => {
                    &&& r == Ok::<(), ImitationError>(())
                    &&& final(trainer).effective_batch == self.effective_batch
                    &&& final(trainer).shuffle == candidate.shuffle
                    &&& final(trainer).counters == candidate.counters
                    &&& final(trainer).adam == adam
                    &&& final(trainer).early_stopper == candidate.early
                    &&& final(trainer).pool.same(self.pool)
                    &&& final(trainer).model_identity == adam.binding.policy
                },
            },
    {
        let adam = match restored {
            Ok(adam) => adam,
            Err(text) => {
                return Err(ImitationError::Model(text));
            },
        };
        trainer.effective_batch = self.effective_batch;
        trainer.shuffle = candidate.shuffle;
        trainer.counters = candidate.counters;
        trainer.model_identity = adam.binding.policy;
        trainer.adam = adam;
        trainer.early_stopper = candidate.early;
        trainer.pool = self.pool.duplicate();
        Ok(())
    }
}

/// Same failure, up to the owner of a text.
pub open spec fn same_failure(left: ImitationError, right: ImitationError) -> bool {
    match (left, right) {
        (ImitationError::Model(a), ImitationError::Model(b)) => a@ == b@,
        _ => left == right,
    }
}

pub open spec fn verdict_fault(verdict: Result<(), String>) -> Option<ImitationError> {
    match verdict {
        Ok(()) => None,
        Err(text) => Some(ImitationError::Model(text)),
    }
}

pub open spec fn snapshot_fault(snapshot: Result<ModelAdamSnapshot, String>) -> Option<
    ImitationError,
> {
    match snapshot {
        Ok(_) => None,
        Err(text) => Some(ImitationError::Model(text)),
    }
}

/// A state of the model's shape that a checkpoint can hold.
pub open spec fn snapshot_fits(snapshot: ModelAdamSnapshot, shape: ModelShape) -> bool {
    &&& snapshot.parameters@.len() == shape.parameter_count
    &&& row_finite(snapshot.parameters@)
    &&& snapshot.adam.first_moment@.len() == shape.parameter_count
    &&& snapshot.adam.second_moment@.len() == shape.parameter_count
    &&& snapshot.adam.binding.lineage != 0
}

/// A captured checkpoint validates for its own trainer and pool, and what it gives back is
/// the captured state: shuffle, counters, early stopping, parameters, and optimizer.
pub proof fn captured_checkpoints_restore_their_trainer(
    checkpoint: TrainingCheckpoint,
    shape: ModelShape,
    trainer: BehavioralTrainer,
    pool: ImitationPool,
    current: ModelAdamSnapshot,
    verdicts: OptimizerVerdicts,
    candidate: CheckpointCandidate,
)
    requires
        trainer.wf(),
        pool.wf(),
        trainer.pool.same(pool.binding),
        counters_fault(trainer) is None,
        trainer.effective_batch <= shape.maximum_batch,
        current.adam.step == trainer.adam.step,
        snapshot_fits(current, shape),
        trainer.early_stopper.best_state matches Some(best) ==> {
            &&& snapshot_fits(best.model, shape)
            &&& best.model.adam.config.settings@ == current.adam.config.settings@
        },
        checkpoint.captures(shape, trainer, current),
        verdicts.current is Ok,
        verdicts.best is Ok,
        checkpoint.describes(candidate),
    ensures
        checkpoint.fault(shape, trainer, pool, verdicts) is None,
        candidate.current.same(
            ModelAdamSnapshot {
                parameters: current.parameters,
                adam: AdamState {
                    binding: OptimizerBinding {
                        lineage: current.adam.binding.lineage,
                        policy: current.adam.binding.policy,
                    },
                    ..current.adam
                },
            },
        ),
        candidate.counters == trainer.counters,
        candidate.shuffle == trainer.shuffle,
        candidate.early.same(trainer.early_stopper),
{
    assert(checkpoint.lengths_fault(shape) is None);
    assert(checkpoint.counters_fault() is None);
    assert(checkpoint.pool.same(pool.binding));
    assert(checkpoint.history_fault() is None);
    assert(checkpoint.best_fault(shape, verdicts.best) is None);
}

} // verus!
