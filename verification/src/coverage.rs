//! Teacher attempts behind an evaluation, counted with their failures.
use crate::action::{ActionError, StructuredAction};
use crate::behavioral_target::{faulted, labels};
use crate::frame::FeatureFrame;
use crate::imitation_error::ImitationError;
use crate::pool::MAX_IMITATION_SAMPLES;
use crate::sample::{
    teacher_fault, ImitationSample, ImitationSide, ImitationSource, SampleIdentity,
};
use crate::seeds::SeedNamespace;
use crate::space::ActionSpace;
use crate::text::{owned, with_text};
use vstd::prelude::*;

verus! {

/// Matching and total count with an explicit absent ratio for an empty denominator.
#[derive(Clone, Copy, Debug, Default, PartialEq, Eq, Structural)]
pub struct AgreementCount {
    pub matching: usize,
    pub total: usize,
}

impl AgreementCount {
    pub open spec fn agreement_spec(self) -> Option<AgreementCount> {
        if self.total != 0 {
            Some(self)
        } else {
            None
        }
    }

    /// The ratio of matching to total, absent for an empty denominator.
    pub fn agreement(self) -> (r: Option<AgreementCount>)
        ensures
            r == self.agreement_spec(),
    {
        if self.total != 0 {
            Some(self)
        } else {
            None
        }
    }
}

/// Failure from a teacher decision or exact target construction.
#[derive(Clone, Debug, PartialEq, Eq)]
pub enum TeacherSampleError {
    Decision(ActionError),
    Target(ImitationError),
}

impl TeacherSampleError {
    pub open spec fn message_spec(self) -> Seq<char> {
        match self {
            TeacherSampleError::Decision(error) => "teacher decision failed: "@
                + error.message_spec(),
            TeacherSampleError::Target(error) => "teacher target construction failed: "@
                + error.message_spec(),
        }
    }

    /// Text of the failure.
    pub fn message(&self) -> (r: String)
        ensures
            r@ == self.message_spec(),
    {
        match self {
            TeacherSampleError::Decision(error) => with_text(
                owned("teacher decision failed: "),
                error.message().as_str(),
            ),
            TeacherSampleError::Target(error) => with_text(
                owned("teacher target construction failed: "),
                error.message().as_str(),
            ),
        }
    }
}

/// Error from an identity-bound teacher collector, preserving the source error.
#[derive(Clone, Debug, PartialEq, Eq)]
pub enum CoverageError<E> {
    Capacity(ImitationError),
    Operation(E),
}

impl CoverageError<TeacherSampleError> {
    pub open spec fn message_spec(self) -> Seq<char> {
        match self {
            CoverageError::Capacity(error) => error.message_spec(),
            CoverageError::Operation(error) => "teacher operation failed: "@ + error.message_spec(),
        }
    }

    /// Text of the failure.
    pub fn message(&self) -> (r: String)
        ensures
            r@ == self.message_spec(),
    {
        match self {
            CoverageError::Capacity(error) => error.message(),
            CoverageError::Operation(error) => with_text(
                owned("teacher operation failed: "),
                error.message().as_str(),
            ),
        }
    }
}

/// Bounded real teacher-attempt denominator including failed attempts.
#[derive(Debug, Default, PartialEq, Eq)]
pub struct TeacherCoverage {
    pub attempted: usize,
    pub represented: usize,
    pub failed: usize,
    pub attempted_identities: Vec<SampleIdentity>,
    pub represented_samples: Vec<(SampleIdentity, u64)>,
    pub namespace: Option<SeedNamespace>,
    pub attempted_by_side: [usize; 2],
    pub represented_by_side: [usize; 2],
}

/// Whether a list holds no identity twice.
pub open spec fn distinct(list: Seq<SampleIdentity>) -> bool {
    forall|i: int, j: int| 0 <= i < j < list.len() ==> list[i] != list[j]
}

/// Identities of represented samples.
pub open spec fn identities(list: Seq<(SampleIdentity, u64)>) -> Seq<SampleIdentity> {
    list.map_values(|entry: (SampleIdentity, u64)| entry.0)
}

/// Attempts are distinct, and every represented identity was attempted exactly once.
pub open spec fn identities_valid(
    attempted: Seq<SampleIdentity>,
    represented: Seq<SampleIdentity>,
) -> bool {
    &&& distinct(attempted)
    &&& distinct(represented)
    &&& forall|i: int| 0 <= i < represented.len() ==> attempted.contains(#[trigger] represented[i])
}

fn contains_identity(list: &Vec<SampleIdentity>, identity: SampleIdentity) -> (r: bool)
    ensures
        r == list@.contains(identity),
{
    let mut index: usize = 0;
    while index < list.len()
        invariant
            index <= list@.len(),
            forall|i: int| 0 <= i < index ==> list@[i] != identity,
        decreases list@.len() - index,
    {
        if list[index] == identity {
            assert(list@[index as int] == identity);
            return true;
        }
        index += 1;
    }
    false
}

fn is_distinct(list: &Vec<SampleIdentity>) -> (r: bool)
    ensures
        r == distinct(list@),
{
    let mut right: usize = 0;
    while right < list.len()
        invariant
            right <= list@.len(),
            forall|i: int, j: int| 0 <= i < j < right ==> list@[i] != list@[j],
        decreases list@.len() - right,
    {
        let mut left: usize = 0;
        while left < right
            invariant
                left <= right < list@.len(),
                forall|i: int| 0 <= i < left ==> list@[i] != list@[right as int],
            decreases right - left,
        {
            if list[left] == list[right] {
                assert(list@[left as int] == list@[right as int]);
                return false;
            }
            left += 1;
        }
        right += 1;
    }
    true
}

/// Whether attempts and represented identities are distinct and every one was attempted.
pub fn coverage_identities_valid(
    attempted: &Vec<SampleIdentity>,
    represented: &Vec<SampleIdentity>,
) -> (r: bool)
    ensures
        r == identities_valid(attempted@, represented@),
{
    if !is_distinct(attempted) || !is_distinct(represented) {
        return false;
    }
    let mut index: usize = 0;
    while index < represented.len()
        invariant
            index <= represented@.len(),
            forall|i: int| 0 <= i < index ==> attempted@.contains(#[trigger] represented@[i]),
        decreases represented@.len() - index,
    {
        if !contains_identity(attempted, represented[index]) {
            assert(!attempted@.contains(represented@[index as int]));
            return false;
        }
        index += 1;
    }
    true
}

proof fn lemma_prefix_count(list: Seq<(SampleIdentity, u64)>, count: int, entry: (SampleIdentity, u64))
    requires
        0 <= count <= list.len(),
    ensures
        list.take(count).to_multiset().count(entry) <= list.to_multiset().count(entry),
    decreases list.len() - count,
{
    broadcast use vstd::seq_lib::group_to_multiset_ensures;
    if count < list.len() {
        assert(list.take(count + 1) =~= list.take(count).push(list[count]));
        lemma_prefix_count(list, count + 1, entry);
    } else {
        assert(list.take(count) =~= list);
    }
}

/// Whether two lists hold the same entries the same number of times.
fn same_entries(left: &Vec<(SampleIdentity, u64)>, right: &Vec<(SampleIdentity, u64)>) -> (r: bool)
    ensures
        r == (left@.to_multiset() == right@.to_multiset()),
{
    broadcast use vstd::seq_lib::group_to_multiset_ensures;

    let mut rest = crate::world::copy_vec(right);
    let mut index: usize = 0;
    assert(left@.take(0).to_multiset().add(rest@.to_multiset()) =~= right@.to_multiset());
    while index < left.len()
        invariant
            index <= left@.len(),
            left@.take(index as int).to_multiset().add(rest@.to_multiset())
                == right@.to_multiset(),
        decreases left@.len() - index,
    {
        let ghost entry = left@[index as int];
        let mut found: usize = 0;
        while found < rest.len() && !(rest[found].0 == left[index].0 && rest[found].1
            == left[index].1)
            invariant
                index < left@.len(),
                found <= rest@.len(),
                entry == left@[index as int],
                forall|i: int| 0 <= i < found ==> rest@[i] != entry,
            decreases rest@.len() - found,
        {
            found += 1;
        }
        assert(left@.take(index + 1) =~= left@.take(index as int).push(entry));
        if found == rest.len() {
            proof {
                broadcast use vstd::seq_lib::group_to_multiset_ensures;

                assert(!rest@.contains(entry));
                assert(rest@.to_multiset().count(entry) == 0);
                lemma_prefix_count(left@, index + 1, entry);
                assert(left@.take(index + 1).to_multiset() =~= left@.take(
                    index as int,
                ).to_multiset().insert(entry));
                assert(right@.to_multiset().count(entry) == left@.take(
                    index as int,
                ).to_multiset().count(entry));
            }
            return false;
        }
        let ghost before = rest@;
        let _ = rest.remove(found);
        proof {
            broadcast use vstd::seq_lib::group_to_multiset_ensures;

            assert(before[found as int] == entry);
            assert(rest@ == before.remove(found as int));
            assert(before.contains(entry));
            assert(left@.take(index + 1).to_multiset().add(rest@.to_multiset())
                =~= left@.take(index as int).to_multiset().add(before.to_multiset()));
        }
        index += 1;
    }
    assert(left@.take(index as int) =~= left@);
    proof {
        if rest@.len() == 0 {
            assert(rest@.to_multiset() =~= vstd::multiset::Multiset::empty());
            assert(left@.to_multiset() =~= right@.to_multiset());
        } else {
            let extra = rest@[0];
            assert(rest@.contains(extra));
            assert(rest@.to_multiset().count(extra) > 0);
            assert(right@.to_multiset().count(extra) > left@.to_multiset().count(extra));
        }
    }
    rest.len() == 0
}

/// Identity and instance of each sample at given indices.
pub open spec fn entries_of(samples: Seq<ImitationSample>, indices: Seq<usize>) -> Seq<
    (SampleIdentity, u64),
> {
    indices.map_values(
        |index: usize| (samples[index as int].identity, samples[index as int].instance),
    )
}

pub open spec fn attempt_overflow() -> ImitationError {
    ImitationError::CounterOverflow {
        counter: "teacher coverage attempt",
        maximum: MAX_IMITATION_SAMPLES as u64,
    }
}

impl TeacherCoverage {
    /// Counters that agree with each other and with the recorded identities.
    pub open spec fn wf(self) -> bool {
        &&& self.attempted <= MAX_IMITATION_SAMPLES
        &&& self.represented + self.failed == self.attempted
        &&& self.attempted_identities@.len() <= self.attempted
        &&& self.represented_samples@.len() <= self.represented
        &&& self.attempted_by_side@[0] + self.attempted_by_side@[1]
            == self.attempted_identities@.len()
        &&& self.represented_by_side@[0] + self.represented_by_side@[1] <= self.represented
        &&& distinct(self.attempted_identities@)
        &&& match self.namespace {
            None => self.attempted_identities@.len() == 0,
            Some(namespace) => self.attempted_identities@.len() > 0 && forall|i: int|
                0 <= i < self.attempted_identities@.len() ==> (
                #[trigger] self.attempted_identities@[i]).namespace == namespace,
        }
    }

    pub fn new() -> (r: Self)
        ensures
            r.wf(),
            r.attempted == 0,
            r.represented == 0,
            r.failed == 0,
            r.attempted_identities@ == Seq::<SampleIdentity>::empty(),
            r.represented_samples@ == Seq::<(SampleIdentity, u64)>::empty(),
            r.namespace is None,
            r.attempted_by_side@ == seq![0usize, 0usize],
            r.represented_by_side@ == seq![0usize, 0usize],
    {
        TeacherCoverage {
            attempted: 0,
            represented: 0,
            failed: 0,
            attempted_identities: Vec::new(),
            represented_samples: Vec::new(),
            namespace: None,
            attempted_by_side: [0, 0],
            represented_by_side: [0, 0],
        }
    }

    /// Counters after one attempt without an identity.
    pub open spec fn counted(self, represented: bool, after: TeacherCoverage) -> bool {
        &&& after.attempted == self.attempted + 1
        &&& after.represented == self.represented + if represented {
            1int
        } else {
            0int
        }
        &&& after.failed == self.failed + if represented {
            0int
        } else {
            1int
        }
        &&& after.attempted_identities@ == self.attempted_identities@
        &&& after.represented_samples@ == self.represented_samples@
        &&& after.namespace == self.namespace
        &&& after.attempted_by_side@ == self.attempted_by_side@
        &&& after.represented_by_side@ == self.represented_by_side@
    }

    /// State after one attempt for an identity.
    pub open spec fn recorded(
        self,
        identity: SampleIdentity,
        represented: bool,
        instance: Option<u64>,
        after: TeacherCoverage,
    ) -> bool {
        let side = identity.side.index_spec() as int;
        &&& after.attempted == self.attempted + 1
        &&& after.represented == self.represented + if represented {
            1int
        } else {
            0int
        }
        &&& after.failed == self.failed + if represented {
            0int
        } else {
            1int
        }
        &&& after.attempted_identities@ == self.attempted_identities@.push(identity)
        &&& after.represented_samples@ == match instance {
            Some(number) if represented => self.represented_samples@.push((identity, number)),
            _ => self.represented_samples@,
        }
        &&& after.namespace == match self.namespace {
            Some(namespace) => Some(namespace),
            None => Some(identity.namespace),
        }
        &&& after.attempted_by_side@ == self.attempted_by_side@.update(
            side,
            (self.attempted_by_side@[side] + 1) as usize,
        )
        &&& after.represented_by_side@ == if represented {
            self.represented_by_side@.update(
                side,
                (self.represented_by_side@[side] + 1) as usize,
            )
        } else {
            self.represented_by_side@
        }
    }

    /// Failure of an attempt that the coverage does not admit.
    pub open spec fn admission_fault(self, identity: SampleIdentity) -> Option<ImitationError> {
        if self.attempted >= MAX_IMITATION_SAMPLES {
            Some(attempt_overflow())
        } else if (self.namespace matches Some(namespace) && namespace != identity.namespace)
            || self.attempted_identities@.contains(identity) {
            Some(ImitationError::InvalidTeacherCoverage)
        } else {
            None
        }
    }

    /// Counts one failed attempt without an identity.
    pub fn record_failed(&mut self) -> (r: Result<(), ImitationError>)
        requires
            old(self).wf(),
        ensures
            final(self).wf(),
            match r {
                Ok(()) => old(self).attempted < MAX_IMITATION_SAMPLES && old(self).counted(
                    false,
                    *final(self),
                ),
                Err(error) => old(self).attempted == MAX_IMITATION_SAMPLES && *final(self) == *old(
                    self,
                ) && error == attempt_overflow(),
            },
    {
        self.increment(false)
    }

    /// Counts one attempt without an identity.
    pub fn increment(&mut self, represented: bool) -> (r: Result<(), ImitationError>)
        requires
            old(self).wf(),
        ensures
            final(self).wf(),
            match r {
                Ok(()) => old(self).attempted < MAX_IMITATION_SAMPLES && old(self).counted(
                    represented,
                    *final(self),
                ),
                Err(error) => old(self).attempted == MAX_IMITATION_SAMPLES && *final(self) == *old(
                    self,
                ) && error == attempt_overflow(),
            },
    {
        match self.ensure_capacity() {
            Ok(()) => {},
            Err(error) => {
                return Err(error);
            },
        }
        self.attempted = self.attempted + 1;
        if represented {
            self.represented = self.represented + 1;
        } else {
            self.failed = self.failed + 1;
        }
        Ok(())
    }

    /// Records a failed teacher attempt for one exact state identity.
    pub fn record_failed_for(&mut self, identity: SampleIdentity) -> (r: Result<
        (),
        ImitationError,
    >)
        requires
            old(self).wf(),
        ensures
            final(self).wf(),
            r == faulted(old(self).admission_fault(identity)),
            r is Ok ==> old(self).recorded(identity, false, None, *final(self)),
            r is Err ==> *final(self) == *old(self),
    {
        self.record_identity(identity, false, None)
    }

    /// Records one attempt for an identity.
    pub fn record_identity(
        &mut self,
        identity: SampleIdentity,
        represented: bool,
        instance: Option<u64>,
    ) -> (r: Result<(), ImitationError>)
        requires
            old(self).wf(),
        ensures
            final(self).wf(),
            r == faulted(old(self).admission_fault(identity)),
            r is Ok ==> old(self).recorded(identity, represented, instance, *final(self)),
            r is Err ==> *final(self) == *old(self),
    {
        match self.admits(identity) {
            Ok(()) => {},
            Err(error) => {
                return Err(error);
            },
        }
        self.record_identity_after_capacity(identity, represented, instance);
        Ok(())
    }

    /// Whether an attempt for an identity can be counted; asked before a teacher decides.
    pub fn admits(&self, identity: SampleIdentity) -> (r: Result<(), ImitationError>)
        ensures
            r == faulted(self.admission_fault(identity)),
    {
        match self.ensure_capacity() {
            Ok(()) => self.validate_identity_metadata(identity),
            Err(error) => Err(error),
        }
    }

    /// Counts one teacher decision and its exact target construction as one attempt.
    ///
    /// `decision` is what the teacher answered for the state of `frame`.
    pub fn collect_teacher_sample(
        &mut self,
        identity: SampleIdentity,
        instance: u64,
        frame: FeatureFrame,
        decision: Result<(StructuredAction, ActionSpace), ActionError>,
    ) -> (r: Result<ImitationSample, CoverageError<TeacherSampleError>>)
        requires
            old(self).wf(),
            instance != 0,
            frame.wf(),
            decision matches Ok(choice) ==> choice.1.wf(),
        ensures
            final(self).wf(),
            old(self).admission_fault(identity) matches Some(error) ==> r == Err::<
                ImitationSample,
                CoverageError<TeacherSampleError>,
            >(CoverageError::Capacity(error)) && *final(self) == *old(self),
            old(self).admission_fault(identity) is None ==> match decision {
                Err(error) => {
                    &&& r == Err::<ImitationSample, CoverageError<TeacherSampleError>>(
                        CoverageError::Operation(TeacherSampleError::Decision(error)),
                    )
                    &&& old(self).recorded(identity, false, None, *final(self))
                },
                Ok(choice) => match teacher_fault(frame, choice.1, choice.0, identity) {
                    Some(error) => {
                        &&& r == Err::<ImitationSample, CoverageError<TeacherSampleError>>(
                            CoverageError::Operation(TeacherSampleError::Target(error)),
                        )
                        &&& old(self).recorded(identity, false, None, *final(self))
                    },
                    None => {
                        &&& r matches Ok(sample) && sample.wf() && sample.frame == frame
                            && sample.instance == instance && sample.identity == identity
                            && sample.teacher_action == choice.0 && sample.source
                            == ImitationSource::Teacher && labels(
                            sample.target,
                            choice.1,
                            choice.0,
                        )
                        &&& old(self).recorded(identity, true, Some(instance), *final(self))
                    },
                },
            },
    {
        match self.admits(identity) {
            Ok(()) => {},
            Err(error) => {
                return Err(CoverageError::Capacity(error));
            },
        }
        match decision {
            Err(error) => {
                self.record_identity_after_capacity(identity, false, None);
                Err(CoverageError::Operation(TeacherSampleError::Decision(error)))
            },
            Ok((action, space)) => match ImitationSample::teacher(
                instance,
                frame,
                &space,
                action,
                identity,
            ) {
                Err(error) => {
                    self.record_identity_after_capacity(identity, false, None);
                    Err(CoverageError::Operation(TeacherSampleError::Target(error)))
                },
                Ok(sample) => {
                    self.record_identity_after_capacity(identity, true, Some(instance));
                    Ok(sample)
                },
            },
        }
    }

    fn validate_identity_metadata(&self, identity: SampleIdentity) -> (r: Result<
        (),
        ImitationError,
    >)
        ensures
            r == if (self.namespace matches Some(namespace) && namespace != identity.namespace)
                || self.attempted_identities@.contains(identity) {
                Err::<(), ImitationError>(ImitationError::InvalidTeacherCoverage)
            } else {
                Ok(())
            },
    {
        if let Some(namespace) = self.namespace {
            if namespace != identity.namespace {
                return Err(ImitationError::InvalidTeacherCoverage);
            }
        }
        if contains_identity(&self.attempted_identities, identity) {
            return Err(ImitationError::InvalidTeacherCoverage);
        }
        Ok(())
    }

    fn record_identity_after_capacity(
        &mut self,
        identity: SampleIdentity,
        represented: bool,
        instance: Option<u64>,
    )
        requires
            old(self).wf(),
            old(self).admission_fault(identity) is None,
        ensures
            final(self).wf(),
            old(self).recorded(identity, represented, instance, *final(self)),
    {
        self.attempted = self.attempted + 1;
        if self.namespace.is_none() {
            self.namespace = Some(identity.namespace);
        }
        self.attempted_identities.push(identity);
        let side: usize = identity.side.index();
        let attempts: usize = self.attempted_by_side[side] + 1;
        self.attempted_by_side[side] = attempts;
        if represented {
            self.represented = self.represented + 1;
            let hits: usize = self.represented_by_side[side] + 1;
            self.represented_by_side[side] = hits;
            if let Some(number) = instance {
                self.represented_samples.push((identity, number));
            }
        } else {
            self.failed = self.failed + 1;
        }
    }

    fn ensure_capacity(&self) -> (r: Result<(), ImitationError>)
        ensures
            r == if self.attempted >= MAX_IMITATION_SAMPLES {
                Err::<(), ImitationError>(attempt_overflow())
            } else {
                Ok(())
            },
    {
        if self.attempted >= MAX_IMITATION_SAMPLES {
            return Err(
                ImitationError::CounterOverflow {
                    counter: "teacher coverage attempt",
                    maximum: MAX_IMITATION_SAMPLES as u64,
                },
            );
        }
        Ok(())
    }

    pub fn attempted(&self) -> (r: usize)
        ensures
            r == self.attempted,
    {
        self.attempted
    }

    pub fn represented(&self) -> (r: usize)
        ensures
            r == self.represented,
    {
        self.represented
    }

    pub fn failed(&self) -> (r: usize)
        ensures
            r == self.failed,
    {
        self.failed
    }

    pub open spec fn ratio_spec(self) -> Option<AgreementCount> {
        AgreementCount { matching: self.represented, total: self.attempted }.agreement_spec()
    }

    /// Represented attempts over all attempts, absent before the first one.
    pub fn ratio(&self) -> (r: Option<AgreementCount>)
        ensures
            r == self.ratio_spec(),
    {
        AgreementCount { matching: self.represented, total: self.attempted }.agreement()
    }

    /// Whether every counter agrees with the recorded identities.
    pub open spec fn consistent(self) -> bool {
        &&& self.attempted <= MAX_IMITATION_SAMPLES
        &&& self.represented + self.failed == self.attempted
        &&& self.attempted_identities@.len() == self.attempted
        &&& self.represented_samples@.len() == self.represented
        &&& self.attempted_by_side@[0] + self.attempted_by_side@[1] == self.attempted
        &&& self.represented_by_side@[0] + self.represented_by_side@[1] == self.represented
        &&& identities_valid(self.attempted_identities@, identities(self.represented_samples@))
    }

    pub open spec fn consistency_fault(self) -> Option<ImitationError> {
        if self.consistent() {
            None
        } else {
            Some(ImitationError::InvalidTeacherCoverage)
        }
    }

    /// Checks that every counter agrees with the recorded identities.
    pub fn validate(&self) -> (r: Result<(), ImitationError>)
        ensures
            r == faulted(self.consistency_fault()),
    {
        let attempts = self.attempted_by_side[0].checked_add(self.attempted_by_side[1]);
        let hits = self.represented_by_side[0].checked_add(self.represented_by_side[1]);
        if self.attempted > MAX_IMITATION_SAMPLES || !is_sum(
            self.represented.checked_add(self.failed),
            self.attempted,
        ) || self.attempted_identities.len() != self.attempted || self.represented_samples.len()
            != self.represented || !is_sum(attempts, self.attempted) || !is_sum(
            hits,
            self.represented,
        ) {
            return Err(ImitationError::InvalidTeacherCoverage);
        }
        let mut represented: Vec<SampleIdentity> = Vec::new();
        let mut index: usize = 0;
        while index < self.represented_samples.len()
            invariant
                index <= self.represented_samples@.len(),
                represented@ == identities(self.represented_samples@.take(index as int)),
            decreases self.represented_samples@.len() - index,
        {
            represented.push(self.represented_samples[index].0);
            index += 1;
            assert(represented@ =~= identities(self.represented_samples@.take(index as int)));
        }
        assert(self.represented_samples@.take(index as int) =~= self.represented_samples@);
        if !coverage_identities_valid(&self.attempted_identities, &represented) {
            return Err(ImitationError::InvalidTeacherCoverage);
        }
        Ok(())
    }

    /// Whether the represented attempts are exactly the given promotion samples.
    pub open spec fn covers(self, samples: Seq<ImitationSample>, indices: Seq<usize>) -> bool {
        &&& self.namespace == Some(SeedNamespace::Promotion)
        &&& entries_of(samples, indices).to_multiset() == self.represented_samples@.to_multiset()
    }

    /// Whether the represented attempts are exactly the given promotion samples.
    pub fn matches_samples(&self, samples: &Vec<ImitationSample>, indices: &Vec<usize>) -> (r: bool)
        requires
            forall|i: int| 0 <= i < indices@.len() ==> (#[trigger] indices@[i]) < samples@.len(),
        ensures
            r == self.covers(samples@, indices@),
    {
        match self.namespace {
            Some(SeedNamespace::Promotion) => {},
            _ => {
                return false;
            },
        }
        let mut expected: Vec<(SampleIdentity, u64)> = Vec::new();
        let mut index: usize = 0;
        while index < indices.len()
            invariant
                index <= indices@.len(),
                forall|i: int| 0 <= i < indices@.len() ==> (#[trigger] indices@[i]) < samples@.len(),
                expected@ == entries_of(samples@, indices@.take(index as int)),
            decreases indices@.len() - index,
        {
            let sample = &samples[indices[index]];
            expected.push((sample.identity, sample.instance));
            index += 1;
            assert(expected@ =~= entries_of(samples@, indices@.take(index as int)));
        }
        assert(indices@.take(index as int) =~= indices@);
        same_entries(&expected, &self.represented_samples)
    }

    /// Represented and attempted counts of one side.
    pub fn side_counts(&self, side: ImitationSide) -> (r: (usize, usize))
        ensures
            r.0 == self.represented_by_side@[side.index_spec() as int],
            r.1 == self.attempted_by_side@[side.index_spec() as int],
    {
        let index: usize = side.index();
        (self.represented_by_side[index], self.attempted_by_side[index])
    }
}

fn is_sum(sum: Option<usize>, expected: usize) -> (r: bool)
    ensures
        r == (sum == Some(expected)),
{
    match sum {
        Some(value) => value == expected,
        None => false,
    }
}

/// An identity is attempted at most once, and a recorded one is refused afterwards.
pub proof fn recorded_identities_are_refused(
    before: TeacherCoverage,
    identity: SampleIdentity,
    represented: bool,
    instance: Option<u64>,
    after: TeacherCoverage,
)
    requires
        before.wf(),
        before.admission_fault(identity) is None,
        before.recorded(identity, represented, instance, after),
    ensures
        after.admission_fault(identity) is Some,
{
    assert(after.attempted_identities@.last() == identity);
    assert(after.attempted_identities@.contains(identity));
}

/// While there is room, an identity is refused exactly if it was recorded before or some earlier
/// identity belongs to another namespace.
pub proof fn refusals_follow_the_recorded_identities(
    coverage: TeacherCoverage,
    identity: SampleIdentity,
)
    requires
        coverage.wf(),
        coverage.attempted < MAX_IMITATION_SAMPLES,
    ensures
        coverage.admission_fault(identity) == (if exists|i: int|
            0 <= i < coverage.attempted_identities@.len() && ((
            #[trigger] coverage.attempted_identities@[i]) == identity
                || coverage.attempted_identities@[i].namespace != identity.namespace) {
            Some(ImitationError::InvalidTeacherCoverage)
        } else {
            None
        }),
{
    let list = coverage.attempted_identities@;
    if list.contains(identity) {
        let i = choose|i: int| 0 <= i < list.len() && list[i] == identity;
        assert(coverage.attempted_identities@[i] == identity);
    }
    if coverage.namespace matches Some(namespace) && namespace != identity.namespace {
        assert(coverage.attempted_identities@[0].namespace != identity.namespace);
    }
}

} // verus!
