//! Fixed-capacity sample pool with protected evaluation samples.
use crate::behavioral_target::{faulted, first_fault, target_fault};
use crate::imitation_error::ImitationError;
use crate::sample::{
    frame_map, frame_map_spec, scope_fault, validate_scope, ImitationSample, ImitationSource,
    SampleIdentity, TrainingScope,
};
use crate::search::{
    first_index, lemma_first_from_found, lemma_first_from_none, lemma_tally_step, tally,
};
use crate::seeds::{ImitationSplit, SeedNamespaces};
use crate::shuffle::{
    advanced_by, draw_overflow, draws_for, shuffled, shuffling_permutes, ShuffleState,
    MAX_TRAINING_COUNTER,
};
use vstd::prelude::*;

verus! {

/// Maximum number of owned samples retained by one imitation pool.
pub const MAX_IMITATION_SAMPLES: usize = 8_192;

/// Bounded source and learner-disagreement counters.
#[derive(Clone, Copy, Debug, Default, PartialEq, Eq, Structural)]
pub struct DaggerStatistics {
    pub teacher: usize,
    pub dagger: usize,
    pub disagreements: usize,
}

/// Exact mutable pool lineage and revision.
#[derive(Clone, Copy, Debug, PartialEq, Eq, Structural)]
pub struct PoolProvenance {
    pub lineage: u64,
    pub revision: u64,
}

/// Exact pool identity bound into trainers and checkpoints.
#[derive(Debug, PartialEq, Eq)]
pub struct PoolBinding {
    pub instance: u64,
    pub capacity: usize,
    pub provenance: PoolProvenance,
    pub seeds: SeedNamespaces,
    pub scope: TrainingScope,
}

impl PoolBinding {
    /// Same pool at the same revision.
    pub open spec fn same(self, other: PoolBinding) -> bool {
        &&& self.instance == other.instance
        &&& self.capacity == other.capacity
        &&& self.provenance == other.provenance
        &&& self.seeds.same(other.seeds)
        &&& self.scope == other.scope
    }

    /// Same pool at any revision.
    pub open spec fn same_pool(self, other: PoolBinding) -> bool {
        &&& self.instance == other.instance
        &&& self.capacity == other.capacity
        &&& self.provenance.lineage == other.provenance.lineage
        &&& self.seeds.same(other.seeds)
        &&& self.scope == other.scope
    }

    /// Whether two bindings name the same pool at the same revision.
    pub fn is_same(&self, other: &Self) -> (r: bool)
        ensures
            r == self.same(*other),
    {
        self.instance == other.instance && self.capacity == other.capacity && self.provenance
            == other.provenance && self.seeds.is_same(&other.seeds) && self.scope == other.scope
    }

    /// Owned copy of the binding.
    pub fn duplicate(&self) -> (r: Self)
        ensures
            r.same(*self),
    {
        PoolBinding {
            instance: self.instance,
            capacity: self.capacity,
            provenance: self.provenance,
            seeds: self.seeds.duplicate(),
            scope: self.scope,
        }
    }
}

/// Failure of a binding outside the pool limits.
pub open spec fn binding_fault(binding: PoolBinding) -> Option<ImitationError> {
    if !(1 <= binding.capacity <= MAX_IMITATION_SAMPLES) || binding.provenance.lineage == 0
        || binding.provenance.revision > MAX_TRAINING_COUNTER {
        Some(ImitationError::CheckpointState("pool binding"))
    } else {
        None
    }
}

/// Checks that a binding is inside the pool limits.
pub fn validate_pool_binding(binding: &PoolBinding) -> (r: Result<(), ImitationError>)
    ensures
        r == faulted(binding_fault(*binding)),
{
    if !(1 <= binding.capacity && binding.capacity <= MAX_IMITATION_SAMPLES)
        || binding.provenance.lineage == 0 || binding.provenance.revision > MAX_TRAINING_COUNTER {
        return Err(ImitationError::CheckpointState("pool binding"));
    }
    Ok(())
}

/// Fixed-capacity pool with protected evaluation samples and exact seed namespaces.
#[derive(Debug)]
pub struct ImitationPool {
    pub capacity: usize,
    pub samples: Vec<ImitationSample>,
    pub seen_identities: Vec<SampleIdentity>,
    pub binding: PoolBinding,
}

/// Failure of a sample that a pool does not admit.
pub open spec fn sample_fault(sample: ImitationSample, binding: PoolBinding) -> Option<
    ImitationError,
> {
    if !sample.frame.finite() {
        Some(ImitationError::NonFiniteFrame)
    } else {
        first_fault(
            target_fault(sample.target),
            if sample.identity.namespace.split_spec() != sample.split {
                Some(ImitationError::SampleIdentityMismatch("namespace"))
            } else if !binding.seeds.of(sample.identity.namespace).contains(sample.identity.seed) {
                Some(
                    ImitationError::SeedMembership {
                        namespace: sample.identity.namespace.name_spec(),
                        seed: sample.identity.seed,
                    },
                )
            } else {
                match frame_map_spec(sample.frame) {
                    Err(error) => Some(error),
                    Ok(map) => if map != binding.scope.map {
                        Some(ImitationError::SampleIdentityMismatch("map"))
                    } else if sample.source == ImitationSource::Dagger && sample.split
                        != ImitationSplit::Train {
                        Some(ImitationError::DaggerSplit)
                    } else {
                        None
                    },
                }
            },
        )
    }
}

pub open spec fn is_train() -> spec_fn(ImitationSample) -> bool {
    |sample: ImitationSample| sample.split == ImitationSplit::Train
}

/// Whether a sample with an identity is in the list.
pub open spec fn holds_identity(samples: Seq<ImitationSample>, identity: SampleIdentity) -> bool {
    exists|i: int| 0 <= i < samples.len() && (#[trigger] samples[i]).identity == identity
}

/// Samples after appending one; a full pool drops its oldest Train sample.
pub open spec fn appended(
    samples: Seq<ImitationSample>,
    capacity: nat,
    sample: ImitationSample,
) -> Seq<ImitationSample> {
    if samples.len() == capacity {
        match first_index(samples, is_train()) {
            Some(index) => samples.remove(index).push(sample),
            None => samples,
        }
    } else {
        samples.push(sample)
    }
}

/// Bounded identity history after noting one identity.
pub open spec fn noted(seen: Seq<SampleIdentity>, identity: SampleIdentity) -> Seq<SampleIdentity> {
    if seen.len() == MAX_IMITATION_SAMPLES {
        seen.remove(0).push(identity)
    } else {
        seen.push(identity)
    }
}

/// Indices of the Train samples, in pool order.
pub open spec fn train_indices(samples: Seq<ImitationSample>) -> Seq<usize>
    decreases samples.len(),
{
    if samples.len() == 0 {
        Seq::empty()
    } else if samples.last().split == ImitationSplit::Train {
        train_indices(samples.drop_last()).push((samples.len() - 1) as usize)
    } else {
        train_indices(samples.drop_last())
    }
}

/// Indices of the held-out samples, in pool order.
pub open spec fn held_out_indices(samples: Seq<ImitationSample>) -> Seq<usize>
    decreases samples.len(),
{
    if samples.len() == 0 {
        Seq::empty()
    } else if samples.last().split == ImitationSplit::HeldOut {
        held_out_indices(samples.drop_last()).push((samples.len() - 1) as usize)
    } else {
        held_out_indices(samples.drop_last())
    }
}

impl ImitationPool {
    /// Bounded, admissible samples with distinct identities.
    pub open spec fn wf(self) -> bool {
        &&& binding_fault(self.binding) is None
        &&& scope_fault(self.binding.scope) is None
        &&& self.binding.seeds.wf()
        &&& self.capacity == self.binding.capacity
        &&& self.samples@.len() <= self.capacity
        &&& self.seen_identities@.len() <= MAX_IMITATION_SAMPLES
        &&& forall|i: int|
            0 <= i < self.samples@.len() ==> (#[trigger] self.samples@[i]).wf() && sample_fault(
                self.samples@[i],
                self.binding,
            ) is None
        &&& forall|i: int, j: int|
            0 <= i < j < self.samples@.len() ==> (#[trigger] self.samples@[i]).identity != (
            #[trigger] self.samples@[j]).identity
    }

    /// Builds an empty pool; the caller gives each pool an instance number of its own.
    pub fn new(
        instance: u64,
        capacity: usize,
        lineage: u64,
        seeds: SeedNamespaces,
        scope: TrainingScope,
    ) -> (r: Result<Self, ImitationError>)
        requires
            seeds.wf(),
        ensures
            match r {
                Ok(pool) => {
                    &&& 1 <= capacity <= MAX_IMITATION_SAMPLES
                    &&& scope.supported()
                    &&& lineage != 0
                    &&& pool.wf()
                    &&& pool.samples@ == Seq::<ImitationSample>::empty()
                    &&& pool.seen_identities@ == Seq::<SampleIdentity>::empty()
                    &&& pool.binding == (PoolBinding {
                        instance,
                        capacity,
                        provenance: PoolProvenance { lineage, revision: 0 },
                        seeds,
                        scope,
                    })
                },
                Err(error) => error == if !(1 <= capacity <= MAX_IMITATION_SAMPLES) {
                    ImitationError::Capacity { value: capacity, maximum: MAX_IMITATION_SAMPLES }
                } else if !scope.supported() {
                    ImitationError::CheckpointState("training scope")
                } else {
                    ImitationError::CheckpointState("pool lineage")
                } && (!(1 <= capacity <= MAX_IMITATION_SAMPLES) || !scope.supported() || lineage
                    == 0),
            },
    {
        if !(1 <= capacity && capacity <= MAX_IMITATION_SAMPLES) {
            return Err(
                ImitationError::Capacity { value: capacity, maximum: MAX_IMITATION_SAMPLES },
            );
        }
        match validate_scope(scope) {
            Ok(()) => {},
            Err(error) => {
                return Err(error);
            },
        }
        if lineage == 0 {
            return Err(ImitationError::CheckpointState("pool lineage"));
        }
        Ok(
            ImitationPool {
                capacity,
                samples: Vec::new(),
                seen_identities: Vec::new(),
                binding: PoolBinding {
                    instance,
                    capacity,
                    provenance: PoolProvenance { lineage, revision: 0 },
                    seeds,
                    scope,
                },
            },
        )
    }

    fn has_seen(&self, identity: SampleIdentity) -> (r: bool)
        ensures
            r == self.seen_identities@.contains(identity),
    {
        let mut index: usize = 0;
        while index < self.seen_identities.len()
            invariant
                index <= self.seen_identities@.len(),
                forall|i: int| 0 <= i < index ==> self.seen_identities@[i] != identity,
            decreases self.seen_identities@.len() - index,
        {
            if self.seen_identities[index] == identity {
                assert(self.seen_identities@[index as int] == identity);
                return true;
            }
            index += 1;
        }
        false
    }

    fn holds(&self, identity: SampleIdentity) -> (r: bool)
        ensures
            r == holds_identity(self.samples@, identity),
    {
        let mut index: usize = 0;
        while index < self.samples.len()
            invariant
                index <= self.samples@.len(),
                forall|i: int| 0 <= i < index ==> (#[trigger] self.samples@[i]).identity != identity,
            decreases self.samples@.len() - index,
        {
            if self.samples[index].identity == identity {
                assert(self.samples@[index as int].identity == identity);
                return true;
            }
            index += 1;
        }
        false
    }

    fn oldest_train(&self) -> (r: Option<usize>)
        ensures
            match r {
                Some(index) => first_index(self.samples@, is_train()) == Some(index as int),
                None => first_index(self.samples@, is_train()) is None,
            },
            r matches Some(index) ==> index < self.samples@.len() && self.samples@[index as int].split
                == ImitationSplit::Train,
    {
        let mut index: usize = 0;
        while index < self.samples.len()
            invariant
                index <= self.samples@.len(),
                forall|i: int| 0 <= i < index ==> !is_train()(#[trigger] self.samples@[i]),
            decreases self.samples@.len() - index,
        {
            if self.samples[index].split == ImitationSplit::Train {
                proof {
                    lemma_first_from_found(self.samples@, is_train(), 0, index as int);
                }
                return Some(index);
            }
            index += 1;
        }
        proof {
            lemma_first_from_none(self.samples@, is_train(), 0);
        }
        None
    }

    /// Appends one sample and returns the whole oldest Train sample when full.
    pub fn push(&mut self, sample: ImitationSample) -> (r: Result<
        Option<ImitationSample>,
        ImitationError,
    >)
        requires
            old(self).wf(),
            sample.wf(),
        ensures
            final(self).wf(),
            r is Ok <==> {
                &&& sample_fault(sample, old(self).binding) is None
                &&& !old(self).seen_identities@.contains(sample.identity)
                &&& !holds_identity(old(self).samples@, sample.identity)
                &&& old(self).binding.provenance.revision < MAX_TRAINING_COUNTER
                &&& old(self).samples@.len() == old(self).capacity ==> first_index(
                    old(self).samples@,
                    is_train(),
                ) is Some
            },
            match r {
                Ok(evicted) => {
                    &&& final(self).samples@ == appended(
                        old(self).samples@,
                        old(self).capacity as nat,
                        sample,
                    )
                    &&& final(self).seen_identities@ == noted(
                        old(self).seen_identities@,
                        sample.identity,
                    )
                    &&& final(self).capacity == old(self).capacity
                    &&& final(self).binding.same_pool(old(self).binding)
                    &&& final(self).binding.provenance.revision
                        == old(self).binding.provenance.revision + 1
                    &&& match evicted {
                        Some(dropped) => {
                            &&& old(self).samples@.len() == old(self).capacity
                            &&& dropped == old(self).samples@[first_index(
                                old(self).samples@,
                                is_train(),
                            )->0]
                            &&& dropped.split == ImitationSplit::Train
                        },
                        None => old(self).samples@.len() < old(self).capacity,
                    }
                },
                Err(error) => {
                    &&& *final(self) == *old(self)
                    &&& error == match sample_fault(sample, old(self).binding) {
                        Some(fault) => fault,
                        None => if old(self).seen_identities@.contains(sample.identity)
                            || holds_identity(old(self).samples@, sample.identity) {
                            ImitationError::DuplicateSampleIdentity
                        } else if old(self).binding.provenance.revision == MAX_TRAINING_COUNTER {
                            ImitationError::CounterOverflow {
                                counter: "pool revision",
                                maximum: MAX_TRAINING_COUNTER,
                            }
                        } else {
                            ImitationError::NoEvictableTrainSample
                        },
                    }
                },
            },
    {
        match self.validate_sample(&sample) {
            Ok(()) => {},
            Err(error) => {
                return Err(error);
            },
        }
        let identity = sample.identity;
        if self.has_seen(identity) || self.holds(identity) {
            return Err(ImitationError::DuplicateSampleIdentity);
        }
        if self.binding.provenance.revision >= MAX_TRAINING_COUNTER {
            return Err(
                ImitationError::CounterOverflow {
                    counter: "pool revision",
                    maximum: MAX_TRAINING_COUNTER,
                },
            );
        }
        let ghost before = self.samples@;
        let evicted = if self.samples.len() == self.capacity {
            match self.oldest_train() {
                None => {
                    return Err(ImitationError::NoEvictableTrainSample);
                },
                Some(index) => Some(self.samples.remove(index)),
            }
        } else {
            None
        };
        self.samples.push(sample);
        if self.seen_identities.len() == MAX_IMITATION_SAMPLES {
            let _ = self.seen_identities.remove(0);
        }
        self.seen_identities.push(identity);
        self.binding.provenance.revision = self.binding.provenance.revision + 1;
        assert(self.binding.seeds == old(self).binding.seeds);
        Ok(evicted)
    }

    fn validate_sample(&self, sample: &ImitationSample) -> (r: Result<(), ImitationError>)
        requires
            self.binding.seeds.wf(),
            sample.frame.wf(),
        ensures
            r == faulted(sample_fault(*sample, self.binding)),
    {
        let identity = sample.identity;
        if !sample.frame.is_finite() {
            return Err(ImitationError::NonFiniteFrame);
        }
        match sample.target.validate() {
            Ok(()) => {},
            Err(error) => {
                return Err(error);
            },
        }
        if identity.namespace.split() != sample.split {
            return Err(ImitationError::SampleIdentityMismatch("namespace"));
        }
        if !self.binding.seeds.contains(identity.namespace, identity.seed) {
            return Err(
                ImitationError::SeedMembership {
                    namespace: identity.namespace.name(),
                    seed: identity.seed,
                },
            );
        }
        match frame_map(&sample.frame) {
            Err(error) => {
                return Err(error);
            },
            Ok(map) => {
                if map != self.binding.scope.map {
                    return Err(ImitationError::SampleIdentityMismatch("map"));
                }
            },
        }
        if sample.source == ImitationSource::Dagger && sample.split != ImitationSplit::Train {
            return Err(ImitationError::DaggerSplit);
        }
        Ok(())
    }

    pub fn get(&self, index: usize) -> (r: Option<&ImitationSample>)
        ensures
            match r {
                Some(sample) => index < self.samples@.len() && *sample
                    == self.samples@[index as int],
                None => index >= self.samples@.len(),
            },
    {
        if index < self.samples.len() {
            Some(&self.samples[index])
        } else {
            None
        }
    }

    pub fn len(&self) -> (r: usize)
        ensures
            r == self.samples@.len(),
    {
        self.samples.len()
    }

    pub fn is_empty(&self) -> (r: bool)
        ensures
            r == (self.samples@.len() == 0),
    {
        self.samples.len() == 0
    }

    pub fn provenance(&self) -> (r: PoolProvenance)
        ensures
            r == self.binding.provenance,
    {
        self.binding.provenance
    }

    pub fn binding(&self) -> (r: &PoolBinding)
        ensures
            *r == self.binding,
    {
        &self.binding
    }

    /// Returns shuffled indices of only Train samples without changing sample order.
    pub fn training_order(&self, shuffle: &mut ShuffleState) -> (r: Result<
        Vec<usize>,
        ImitationError,
    >)
        ensures
            match r {
                Ok(order) => {
                    let train = train_indices(self.samples@);
                    &&& train.len() > 0
                    &&& order@ == shuffled(train, old(shuffle).state, train.len())
                    &&& final(shuffle).draws == old(shuffle).draws + draws_for(train.len())
                    &&& final(shuffle).draws <= MAX_TRAINING_COUNTER
                    &&& final(shuffle).state == advanced_by(
                        old(shuffle).state,
                        draws_for(train.len()),
                    )
                },
                Err(error) => {
                    let train = train_indices(self.samples@);
                    &&& *final(shuffle) == *old(shuffle)
                    &&& if train.len() == 0 {
                        error == ImitationError::EmptyTrainSet
                    } else {
                        old(shuffle).draws + draws_for(train.len()) > MAX_TRAINING_COUNTER && error
                            == draw_overflow()
                    }
                },
            },
    {
        let mut order: Vec<usize> = Vec::new();
        let mut index: usize = 0;
        while index < self.samples.len()
            invariant
                index <= self.samples@.len(),
                order@ == train_indices(self.samples@.take(index as int)),
            decreases self.samples@.len() - index,
        {
            proof {
                assert(self.samples@.take(index + 1).drop_last() =~= self.samples@.take(
                    index as int,
                ));
            }
            if self.samples[index].split == ImitationSplit::Train {
                order.push(index);
            }
            index += 1;
        }
        assert(self.samples@.take(self.samples@.len() as int) =~= self.samples@);
        if order.len() == 0 {
            return Err(ImitationError::EmptyTrainSet);
        }
        match shuffle.shuffle(&mut order) {
            Ok(()) => Ok(order),
            Err(error) => Err(error),
        }
    }

    /// Indices of the held-out samples; fails when one is relabeled learner data.
    pub fn held_out(&self) -> (r: Result<Vec<usize>, ImitationError>)
        ensures
            match r {
                Ok(indices) => {
                    &&& indices@ == held_out_indices(self.samples@)
                    &&& forall|i: int|
                        0 <= i < self.samples@.len() && (#[trigger] self.samples@[i]).split
                            == ImitationSplit::HeldOut ==> self.samples@[i].source
                            != ImitationSource::Dagger
                },
                Err(error) => {
                    &&& error == ImitationError::HeldOutContamination
                    &&& exists|i: int|
                        0 <= i < self.samples@.len() && (#[trigger] self.samples@[i]).split
                            == ImitationSplit::HeldOut && self.samples@[i].source
                            == ImitationSource::Dagger
                },
            },
    {
        let mut output: Vec<usize> = Vec::new();
        let mut index: usize = 0;
        while index < self.samples.len()
            invariant
                index <= self.samples@.len(),
                output@ == held_out_indices(self.samples@.take(index as int)),
                forall|i: int|
                    0 <= i < index && (#[trigger] self.samples@[i]).split
                        == ImitationSplit::HeldOut ==> self.samples@[i].source
                        != ImitationSource::Dagger,
            decreases self.samples@.len() - index,
        {
            proof {
                assert(self.samples@.take(index + 1).drop_last() =~= self.samples@.take(
                    index as int,
                ));
            }
            let sample = &self.samples[index];
            if sample.split == ImitationSplit::HeldOut {
                if sample.source == ImitationSource::Dagger {
                    return Err(ImitationError::HeldOutContamination);
                }
                output.push(index);
            }
            index += 1;
        }
        assert(self.samples@.take(self.samples@.len() as int) =~= self.samples@);
        Ok(output)
    }

    /// Counts sources and learner disagreements.
    pub fn statistics(&self) -> (r: DaggerStatistics)
        ensures
            r.teacher == tally(
                self.samples@,
                |sample: ImitationSample| sample.source == ImitationSource::Teacher,
            ),
            r.dagger == tally(
                self.samples@,
                |sample: ImitationSample| sample.source == ImitationSource::Dagger,
            ),
            r.disagreements == tally(
                self.samples@,
                |sample: ImitationSample| sample.disagrees(),
            ),
    {
        let ghost teacher = |sample: ImitationSample| sample.source == ImitationSource::Teacher;
        let ghost dagger = |sample: ImitationSample| sample.source == ImitationSource::Dagger;
        let ghost differs = |sample: ImitationSample| sample.disagrees();
        let mut output = DaggerStatistics { teacher: 0, dagger: 0, disagreements: 0 };
        let mut index: usize = 0;
        while index < self.samples.len()
            invariant
                index <= self.samples@.len(),
                output.teacher == tally(self.samples@.take(index as int), teacher),
                output.dagger == tally(self.samples@.take(index as int), dagger),
                output.disagreements == tally(self.samples@.take(index as int), differs),
                teacher == |sample: ImitationSample| sample.source == ImitationSource::Teacher,
                dagger == |sample: ImitationSample| sample.source == ImitationSource::Dagger,
                differs == |sample: ImitationSample| sample.disagrees(),
            decreases self.samples@.len() - index,
        {
            proof {
                lemma_tally_step(self.samples@, teacher, index as int);
                lemma_tally_step(self.samples@, dagger, index as int);
                lemma_tally_step(self.samples@, differs, index as int);
            }
            let sample = &self.samples[index];
            match sample.source {
                ImitationSource::Teacher => output.teacher = output.teacher + 1,
                ImitationSource::Dagger => output.dagger = output.dagger + 1,
            }
            if sample.is_disagreement() {
                output.disagreements = output.disagreements + 1;
            }
            index += 1;
        }
        assert(self.samples@.take(self.samples@.len() as int) =~= self.samples@);
        output
    }
}

/// Appending never drops a validation or held-out sample.
pub proof fn evaluation_samples_are_never_evicted(
    samples: Seq<ImitationSample>,
    capacity: nat,
    sample: ImitationSample,
    kept: ImitationSample,
)
    requires
        samples.contains(kept),
        kept.split != ImitationSplit::Train,
    ensures
        appended(samples, capacity, sample).contains(kept),
{
    let at = choose|i: int| 0 <= i < samples.len() && samples[i] == kept;
    if samples.len() == capacity {
        match first_index(samples, is_train()) {
            Some(index) => {
                crate::search::lemma_first_from_means(samples, is_train(), 0);
                let rest = samples.remove(index);
                if at < index {
                    assert(rest.push(sample)[at] == kept);
                } else {
                    assert(rest.push(sample)[at - 1] == kept);
                }
            },
            None => {},
        }
    } else {
        assert(samples.push(sample)[at] == kept);
    }
}

/// A pool never grows past its capacity, and the newest sample is last.
pub proof fn appended_samples_stay_bounded(
    samples: Seq<ImitationSample>,
    capacity: nat,
    sample: ImitationSample,
)
    requires
        samples.len() <= capacity,
    ensures
        appended(samples, capacity, sample).len() <= capacity,
        samples.len() < capacity || first_index(samples, is_train()) is Some ==> appended(
            samples,
            capacity,
            sample,
        ).last() == sample,
{
    crate::search::lemma_first_from_means(samples, is_train(), 0);
}

proof fn lemma_train_indices(samples: Seq<ImitationSample>, index: usize)
    requires
        samples.len() <= usize::MAX,
    ensures
        forall|i: int|
            0 <= i < train_indices(samples).len() ==> (#[trigger] train_indices(samples)[i])
                < samples.len(),
        train_indices(samples).to_multiset().count(index) == if index < samples.len()
            && samples[index as int].split == ImitationSplit::Train {
            1nat
        } else {
            0nat
        },
    decreases samples.len(),
{
    broadcast use vstd::seq_lib::group_to_multiset_ensures;
    if samples.len() > 0 {
        lemma_train_indices(samples.drop_last(), index);
    } else {
        assert(train_indices(samples).to_multiset().count(index) == 0);
    }
}

/// An epoch order visits every Train sample exactly once and nothing else.
pub proof fn epoch_visits_each_train_sample_once(
    samples: Seq<ImitationSample>,
    state: u64,
    index: usize,
)
    requires
        samples.len() <= usize::MAX,
    ensures
        shuffled(
            train_indices(samples),
            state,
            train_indices(samples).len(),
        ).to_multiset().count(index) == if index < samples.len() && samples[index as int].split
            == ImitationSplit::Train {
            1nat
        } else {
            0nat
        },
{
    lemma_train_indices(samples, index);
    shuffling_permutes(train_indices(samples), state, train_indices(samples).len());
}

} // verus!
