//! Paired gameplay, rollout audits, and the promotion gate.
use crate::behavioral_target::{faulted, first_fault};
use crate::coverage::AgreementCount;
use crate::evaluation::{EvaluationAggregate, HeldOutEvaluation, OfflineEvaluation};
use crate::frame::{finite64, is_finite64};
use crate::imitation_error::ImitationError;
use crate::model::PolicyIdentity;
use crate::pool::{binding_fault, validate_pool_binding, MAX_IMITATION_SAMPLES};
use crate::sample::{scope_fault, validate_scope, ImitationSide};
use crate::search::{lemma_tally_step, tally};
use crate::seeds::{same_list, MAX_SEED_NAMESPACE};
use crate::shuffle::MAX_TRAINING_COUNTER;
use crate::world::copy_vec;
use vstd::prelude::*;

verus! {

/// Minimum rollout action count accepted by the promotion gate.
pub const MIN_PROMOTION_ROLLOUT_ACTIONS: u64 = 1_000;

/// Position of double-precision bits in numeric order; both zeros share one position.
pub open spec fn order64(bits: u64) -> int {
    if bits < 0x8000_0000_0000_0000 {
        bits as int
    } else {
        0x8000_0000_0000_0000 - bits
    }
}

/// Position of double-precision bits in numeric order; both zeros share one position.
pub fn numeric_order(bits: u64) -> (r: i128)
    ensures
        r == order64(bits),
{
    if bits < 0x8000_0000_0000_0000 {
        bits as i128
    } else {
        0x8000_0000_0000_0000i128 - bits as i128
    }
}

/// Learner outcome for one learner-versus-teacher match.
#[derive(Clone, Copy, Debug, PartialEq, Eq, Structural)]
pub enum LearnerMatchOutcome {
    Win,
    Loss,
    Draw,
}

/// One finite learner-versus-teacher outcome and score pair, as double-precision bits.
#[derive(Clone, Copy, Debug, PartialEq, Eq, Structural)]
pub struct LearnerTeacherResult {
    pub outcome: LearnerMatchOutcome,
    pub learner_score: u64,
    pub teacher_score: u64,
}

impl LearnerTeacherResult {
    pub fn new(outcome: LearnerMatchOutcome, learner_score: u64, teacher_score: u64) -> (r: Result<
        Self,
        ImitationError,
    >)
        ensures
            r == if finite64(learner_score) && finite64(teacher_score) {
                Ok::<LearnerTeacherResult, ImitationError>(
                    LearnerTeacherResult { outcome, learner_score, teacher_score },
                )
            } else {
                Err(ImitationError::NonFiniteEvaluation)
            },
    {
        if !is_finite64(learner_score) || !is_finite64(teacher_score) {
            return Err(ImitationError::NonFiniteEvaluation);
        }
        Ok(LearnerTeacherResult { outcome, learner_score, teacher_score })
    }

    pub fn outcome(self) -> (r: LearnerMatchOutcome)
        ensures
            r == self.outcome,
    {
        self.outcome
    }

    pub fn learner_score(self) -> (r: u64)
        ensures
            r == self.learner_score,
    {
        self.learner_score
    }

    pub fn teacher_score(self) -> (r: u64)
        ensures
            r == self.teacher_score,
    {
        self.teacher_score
    }
}

/// One seed played once with the learner as Radiant and once as Dire.
#[derive(Clone, Copy, Debug, PartialEq, Eq, Structural)]
pub struct PairedSeedResult {
    pub seed: u64,
    pub radiant: LearnerTeacherResult,
    pub dire: LearnerTeacherResult,
}

impl PairedSeedResult {
    pub fn new(seed: u64, radiant: LearnerTeacherResult, dire: LearnerTeacherResult) -> (r: Self)
        ensures
            r == (PairedSeedResult { seed, radiant, dire }),
    {
        PairedSeedResult { seed, radiant, dire }
    }

    pub fn seed(self) -> (r: u64)
        ensures
            r == self.seed,
    {
        self.seed
    }

    pub fn radiant(self) -> (r: LearnerTeacherResult)
        ensures
            r == self.radiant,
    {
        self.radiant
    }

    pub fn dire(self) -> (r: LearnerTeacherResult)
        ensures
            r == self.dire,
    {
        self.dire
    }
}

/// Running score sums over the paired results in seed order, as double-precision bits.
#[derive(Clone, Copy, Debug, PartialEq, Eq, Structural)]
pub struct ScoreTotals {
    pub radiant_learner: u64,
    pub radiant_teacher: u64,
    pub dire_learner: u64,
    pub dire_teacher: u64,
    pub learner: u64,
    pub teacher: u64,
}

/// Aggregate derived only from structural per-seed results for one side.
#[derive(Clone, Copy, Debug, PartialEq, Eq, Structural)]
pub struct SideMatchReport {
    pub games: u32,
    pub wins: u32,
    pub losses: u32,
    pub draws: u32,
    pub learner_score: u64,
    pub teacher_score: u64,
}

/// Wins over games.
#[derive(Clone, Copy, Debug, PartialEq, Eq, Structural)]
pub struct WinRate {
    pub wins: u32,
    pub games: u32,
}

/// Result of one side of a paired seed.
pub open spec fn side_result(result: PairedSeedResult, side: ImitationSide) -> LearnerTeacherResult {
    match side {
        ImitationSide::Radiant => result.radiant,
        ImitationSide::Dire => result.dire,
    }
}

pub open spec fn outcome_test(side: ImitationSide, outcome: LearnerMatchOutcome) -> spec_fn(
    PairedSeedResult,
) -> bool {
    |result: PairedSeedResult| side_result(result, side).outcome == outcome
}

/// Whether a side report counts the outcomes of a list of results.
pub open spec fn reports(
    report: SideMatchReport,
    results: Seq<PairedSeedResult>,
    side: ImitationSide,
) -> bool {
    &&& report.games == results.len()
    &&& report.wins == tally(results, outcome_test(side, LearnerMatchOutcome::Win))
    &&& report.losses == tally(results, outcome_test(side, LearnerMatchOutcome::Loss))
    &&& report.draws == tally(results, outcome_test(side, LearnerMatchOutcome::Draw))
}

impl SideMatchReport {
    fn empty() -> (r: Self)
        ensures
            forall|side: ImitationSide|
                reports(r, Seq::<PairedSeedResult>::empty(), side),
    {
        SideMatchReport {
            games: 0,
            wins: 0,
            losses: 0,
            draws: 0,
            learner_score: 0,
            teacher_score: 0,
        }
    }

    fn note(&mut self, outcome: LearnerMatchOutcome)
        requires
            old(self).games < u32::MAX,
            old(self).wins < u32::MAX,
            old(self).losses < u32::MAX,
            old(self).draws < u32::MAX,
        ensures
            final(self).games == old(self).games + 1,
            final(self).wins == old(self).wins + if outcome == LearnerMatchOutcome::Win {
                1int
            } else {
                0int
            },
            final(self).losses == old(self).losses + if outcome == LearnerMatchOutcome::Loss {
                1int
            } else {
                0int
            },
            final(self).draws == old(self).draws + if outcome == LearnerMatchOutcome::Draw {
                1int
            } else {
                0int
            },
    {
        self.games = self.games + 1;
        match outcome {
            LearnerMatchOutcome::Win => self.wins = self.wins + 1,
            LearnerMatchOutcome::Loss => self.losses = self.losses + 1,
            LearnerMatchOutcome::Draw => self.draws = self.draws + 1,
        }
    }

    pub fn games(self) -> (r: u32)
        ensures
            r == self.games,
    {
        self.games
    }

    pub fn wins(self) -> (r: u32)
        ensures
            r == self.wins,
    {
        self.wins
    }

    pub fn losses(self) -> (r: u32)
        ensures
            r == self.losses,
    {
        self.losses
    }

    pub fn draws(self) -> (r: u32)
        ensures
            r == self.draws,
    {
        self.draws
    }

    pub fn learner_score(self) -> (r: u64)
        ensures
            r == self.learner_score,
    {
        self.learner_score
    }

    pub fn teacher_score(self) -> (r: u64)
        ensures
            r == self.teacher_score,
    {
        self.teacher_score
    }

    /// Learner wins over games.
    pub fn learner_win_rate(self) -> (r: WinRate)
        ensures
            r == (WinRate { wins: self.wins, games: self.games }),
    {
        WinRate { wins: self.wins, games: self.games }
    }
}

/// Bounded structural paired matches for one exact candidate policy.
#[derive(Debug, PartialEq, Eq)]
pub struct PairedGameplayReport {
    pub candidate: PolicyIdentity,
    pub results: Vec<PairedSeedResult>,
    pub paired_seeds: Vec<u64>,
    pub radiant: SideMatchReport,
    pub dire: SideMatchReport,
    pub learner_total: u64,
    pub teacher_total: u64,
}

/// Seeds of paired results.
pub open spec fn seeds_of(results: Seq<PairedSeedResult>) -> Seq<u64> {
    results.map_values(|result: PairedSeedResult| result.seed)
}

/// Results with strictly increasing seeds.
pub open spec fn seed_ordered(results: Seq<PairedSeedResult>) -> bool {
    forall|i: int, j: int|
        0 <= i < j < results.len() ==> (#[trigger] results[i]).seed < (#[trigger] results[j]).seed
}

/// Results without a repeated seed.
pub open spec fn seeds_distinct(results: Seq<PairedSeedResult>) -> bool {
    forall|i: int, j: int|
        0 <= i < j < results.len() ==> (#[trigger] results[i]).seed != (#[trigger] results[j]).seed
}

pub open spec fn totals_finite(totals: ScoreTotals) -> bool {
    &&& finite64(totals.radiant_learner)
    &&& finite64(totals.radiant_teacher)
    &&& finite64(totals.dire_learner)
    &&& finite64(totals.dire_teacher)
}

/// Failure of a list of paired results and their score sums.
pub open spec fn report_fault(results: Seq<PairedSeedResult>, totals: ScoreTotals) -> Option<
    ImitationError,
> {
    if results.len() == 0 || results.len() > MAX_SEED_NAMESPACE {
        Some(ImitationError::InvalidGameplayReport("paired seed count"))
    } else if !seeds_distinct(results) {
        Some(ImitationError::InvalidGameplayReport("paired seed identity"))
    } else if !totals_finite(totals) {
        Some(ImitationError::NonFiniteEvaluation)
    } else {
        None
    }
}

/// Whether a report holds the results in seed order with their derived aggregates.
pub open spec fn derived(
    report: PairedGameplayReport,
    candidate: PolicyIdentity,
    results: Seq<PairedSeedResult>,
    totals: ScoreTotals,
) -> bool {
    &&& report.candidate == candidate
    &&& report.results@.to_multiset() == results.to_multiset()
    &&& seed_ordered(report.results@)
    &&& report.paired_seeds@ == seeds_of(report.results@)
    &&& reports(report.radiant, report.results@, ImitationSide::Radiant)
    &&& reports(report.dire, report.results@, ImitationSide::Dire)
    &&& report.radiant.learner_score == totals.radiant_learner
    &&& report.radiant.teacher_score == totals.radiant_teacher
    &&& report.dire.learner_score == totals.dire_learner
    &&& report.dire.teacher_score == totals.dire_teacher
    &&& report.learner_total == totals.learner
    &&& report.teacher_total == totals.teacher
}

/// Results sorted by seed, or none when a seed repeats.
fn sort_results(results: &Vec<PairedSeedResult>) -> (r: Option<Vec<PairedSeedResult>>)
    ensures
        r is Some <==> seeds_distinct(results@),
        r matches Some(sorted) ==> seed_ordered(sorted@) && sorted@.to_multiset()
            == results@.to_multiset() && sorted@.len() == results@.len(),
{
    let mut sorted: Vec<PairedSeedResult> = Vec::new();
    let mut index: usize = 0;
    proof {
        assert(results@.take(0) =~= Seq::<PairedSeedResult>::empty());
        assert(sorted@ =~= results@.take(0));
    }
    while index < results.len()
        invariant
            index <= results@.len(),
            sorted@.len() == index,
            seed_ordered(sorted@),
            sorted@.to_multiset() == results@.take(index as int).to_multiset(),
            seeds_distinct(results@.take(index as int)),
        decreases results@.len() - index,
    {
        let item = results[index];
        let mut at: usize = 0;
        while at < sorted.len() && sorted[at].seed < item.seed
            invariant
                at <= sorted@.len(),
                forall|i: int| 0 <= i < at ==> (#[trigger] sorted@[i]).seed < item.seed,
            decreases sorted@.len() - at,
        {
            at += 1;
        }
        let ghost before = sorted@;
        let ghost prefix = results@.take(index as int);
        assert(results@.take(index + 1) =~= prefix.push(item));
        if at < sorted.len() && sorted[at].seed == item.seed {
            proof {
                broadcast use vstd::seq_lib::group_to_multiset_ensures;

                let twin = before[at as int];
                assert(before.contains(twin));
                assert(prefix.to_multiset().count(twin) > 0);
                assert(prefix.contains(twin));
                let k = choose|k: int| 0 <= k < prefix.len() && prefix[k] == twin;
                assert(results@[k].seed == results@[index as int].seed);
            }
            return None;
        }
        sorted.insert(at, item);
        proof {
            broadcast use vstd::seq_lib::group_to_multiset_ensures;

            vstd::seq_lib::to_multiset_insert(before, at as int, item);
            assert forall|i: int| at <= i < before.len() implies item.seed < (
            #[trigger] before[i]).seed by {
                if i > at {
                    assert(before[at as int].seed < before[i].seed);
                }
            }
            assert(sorted@ == before.insert(at as int, item));
            assert forall|i: int, j: int| 0 <= i < j < sorted@.len() implies (
            #[trigger] sorted@[i]).seed < (#[trigger] sorted@[j]).seed by {
                let from_i = if i < at {
                    i
                } else {
                    i - 1
                };
                let from_j = if j < at {
                    j
                } else {
                    j - 1
                };
                if i != at && j != at {
                    assert(before[from_i].seed < before[from_j].seed);
                } else if i == at {
                    assert(sorted@[j] == before[j - 1]);
                } else {
                    assert(sorted@[i] == before[i]);
                }
            }
            assert(sorted@.to_multiset() =~= prefix.push(item).to_multiset());
            assert forall|i: int, j: int|
                0 <= i < j < results@.take(index + 1).len() implies (#[trigger] results@.take(
                index + 1,
            )[i]).seed != (#[trigger] results@.take(index + 1)[j]).seed by {
                if j == index {
                    let other = prefix[i];
                    assert(prefix.contains(other));
                    assert(before.to_multiset().count(other) > 0);
                    assert(before.contains(other));
                    let k = choose|k: int| 0 <= k < before.len() && before[k] == other;
                    assert(before[k].seed != item.seed);
                } else {
                    assert(prefix[i].seed != prefix[j].seed);
                }
            }
        }
        index += 1;
    }
    assert(results@.take(index as int) =~= results@);
    Some(sorted)
}

impl PairedGameplayReport {
    /// Orders paired results by seed and derives both side reports.
    ///
    /// `totals` holds the score sums over the results in seed order.
    pub fn new(
        candidate: PolicyIdentity,
        results: Vec<PairedSeedResult>,
        totals: ScoreTotals,
    ) -> (r: Result<Self, ImitationError>)
        ensures
            match r {
                Ok(report) => report_fault(results@, totals) is None && derived(
                    report,
                    candidate,
                    results@,
                    totals,
                ) && report.results@.len() == results@.len(),
                Err(error) => report_fault(results@, totals) == Some(error),
            },
    {
        if results.len() == 0 || results.len() > MAX_SEED_NAMESPACE {
            return Err(ImitationError::InvalidGameplayReport("paired seed count"));
        }
        let sorted = match sort_results(&results) {
            Some(sorted) => sorted,
            None => {
                return Err(ImitationError::InvalidGameplayReport("paired seed identity"));
            },
        };
        if !is_finite64(totals.radiant_learner) || !is_finite64(totals.radiant_teacher)
            || !is_finite64(totals.dire_learner) || !is_finite64(totals.dire_teacher) {
            return Err(ImitationError::NonFiniteEvaluation);
        }
        let mut radiant = SideMatchReport::empty();
        let mut dire = SideMatchReport::empty();
        let mut paired_seeds: Vec<u64> = Vec::new();
        let mut index: usize = 0;
        assert(sorted@.take(0) =~= Seq::<PairedSeedResult>::empty());
        while index < sorted.len()
            invariant
                index <= sorted@.len(),
                sorted@.len() <= MAX_SEED_NAMESPACE,
                paired_seeds@ == seeds_of(sorted@.take(index as int)),
                reports(radiant, sorted@.take(index as int), ImitationSide::Radiant),
                reports(dire, sorted@.take(index as int), ImitationSide::Dire),
            decreases sorted@.len() - index,
        {
            proof {
                lemma_report_step(sorted@, ImitationSide::Radiant, index as int);
                lemma_report_step(sorted@, ImitationSide::Dire, index as int);
            }
            let result = sorted[index];
            radiant.note(result.radiant.outcome);
            dire.note(result.dire.outcome);
            paired_seeds.push(result.seed);
            assert(sorted@.take(index + 1) =~= sorted@.take(index as int).push(result));
            assert(paired_seeds@ =~= seeds_of(sorted@.take(index + 1)));
            index += 1;
        }
        assert(sorted@.take(index as int) =~= sorted@);
        radiant.learner_score = totals.radiant_learner;
        radiant.teacher_score = totals.radiant_teacher;
        dire.learner_score = totals.dire_learner;
        dire.teacher_score = totals.dire_teacher;
        Ok(
            PairedGameplayReport {
                candidate,
                results: sorted,
                paired_seeds,
                radiant,
                dire,
                learner_total: totals.learner,
                teacher_total: totals.teacher,
            },
        )
    }

    pub fn candidate(&self) -> (r: PolicyIdentity)
        ensures
            r == self.candidate,
    {
        self.candidate
    }

    pub fn results(&self) -> (r: &[PairedSeedResult])
        ensures
            r@ == self.results@,
    {
        self.results.as_slice()
    }

    pub fn paired_seeds(&self) -> (r: &[u64])
        ensures
            r@ == self.paired_seeds@,
    {
        self.paired_seeds.as_slice()
    }

    pub fn radiant(&self) -> (r: SideMatchReport)
        ensures
            r == self.radiant,
    {
        self.radiant
    }

    pub fn dire(&self) -> (r: SideMatchReport)
        ensures
            r == self.dire,
    {
        self.dire
    }

    /// Failure of a report that its own results and score sums do not give.
    pub open spec fn fault(self, totals: ScoreTotals) -> Option<ImitationError> {
        first_fault(
            report_fault(self.results@, totals),
            if derived(self, self.candidate, self.results@, totals) {
                None
            } else {
                Some(ImitationError::InvalidGameplayReport("derived paired aggregates"))
            },
        )
    }

    /// Rebuilds the report from its results and checks that nothing else is in it.
    pub fn validate(&self, totals: ScoreTotals) -> (r: Result<(), ImitationError>)
        ensures
            r == faulted(self.fault(totals)),
    {
        let rebuilt = match Self::new(self.candidate, copy_vec(&self.results), totals) {
            Ok(report) => report,
            Err(error) => {
                return Err(error);
            },
        };
        proof {
            if derived(*self, self.candidate, self.results@, totals) {
                lemma_ordered_unique(rebuilt.results@, self.results@);
            }
            if rebuilt.results@ == self.results@ {
                assert(reports(rebuilt.radiant, self.results@, ImitationSide::Radiant));
            }
        }
        if !same_results(&rebuilt.results, &self.results) || !same_list(
            &rebuilt.paired_seeds,
            &self.paired_seeds,
        ) || rebuilt.radiant != self.radiant || rebuilt.dire != self.dire || rebuilt.learner_total
            != self.learner_total || rebuilt.teacher_total != self.teacher_total {
            return Err(ImitationError::InvalidGameplayReport("derived paired aggregates"));
        }
        Ok(())
    }

    /// Whether both sides scored and the learner scored at least as much as the teacher.
    pub open spec fn learner_holds(self) -> bool {
        &&& order64(self.radiant.learner_score) != 0 || order64(self.radiant.teacher_score) != 0
        &&& order64(self.dire.learner_score) != 0 || order64(self.dire.teacher_score) != 0
        &&& finite64(self.learner_total)
        &&& finite64(self.teacher_total)
        &&& order64(self.radiant.learner_score) >= order64(self.radiant.teacher_score)
        &&& order64(self.dire.learner_score) >= order64(self.dire.teacher_score)
        &&& order64(self.learner_total) >= order64(self.teacher_total)
    }

    /// Whether both sides scored and the learner scored at least as much as the teacher.
    pub fn learner_not_worse(&self) -> (r: bool)
        ensures
            r == self.learner_holds(),
    {
        let radiant_learner: i128 = numeric_order(self.radiant.learner_score);
        let radiant_teacher: i128 = numeric_order(self.radiant.teacher_score);
        let dire_learner: i128 = numeric_order(self.dire.learner_score);
        let dire_teacher: i128 = numeric_order(self.dire.teacher_score);
        (radiant_learner != 0 || radiant_teacher != 0) && (dire_learner != 0 || dire_teacher != 0)
            && is_finite64(self.learner_total) && is_finite64(self.teacher_total)
            && radiant_learner >= radiant_teacher && dire_learner >= dire_teacher && numeric_order(
            self.learner_total,
        ) >= numeric_order(self.teacher_total)
    }
}

proof fn lemma_report_step(results: Seq<PairedSeedResult>, side: ImitationSide, index: int)
    requires
        0 <= index < results.len(),
    ensures
        results.take(index + 1).len() == results.take(index).len() + 1,
        forall|outcome: LearnerMatchOutcome| #[trigger]
            tally(results.take(index + 1), outcome_test(side, outcome)) == tally(
                results.take(index),
                outcome_test(side, outcome),
            ) + if side_result(results[index], side).outcome == outcome {
                1nat
            } else {
                0nat
            },
        forall|outcome: LearnerMatchOutcome| #[trigger]
            tally(results.take(index), outcome_test(side, outcome)) <= index,
{
    assert forall|outcome: LearnerMatchOutcome| #[trigger]
        tally(results.take(index + 1), outcome_test(side, outcome)) == tally(
            results.take(index),
            outcome_test(side, outcome),
        ) + if side_result(results[index], side).outcome == outcome {
            1nat
        } else {
            0nat
        } by {
        lemma_tally_step(results, outcome_test(side, outcome), index);
    }
    assert forall|outcome: LearnerMatchOutcome| #[trigger]
        tally(results.take(index), outcome_test(side, outcome)) <= index by {
        lemma_tally_step(results, outcome_test(side, outcome), index);
    }
}

/// Two seed-ordered lists of the same results are equal.
proof fn lemma_ordered_unique(left: Seq<PairedSeedResult>, right: Seq<PairedSeedResult>)
    requires
        seed_ordered(left),
        seed_ordered(right),
        left.to_multiset() == right.to_multiset(),
    ensures
        left == right,
    decreases left.len(),
{
    broadcast use vstd::seq_lib::group_to_multiset_ensures;

    assert(left.len() == left.to_multiset().len());
    assert(right.len() == right.to_multiset().len());
    if left.len() > 0 {
        let a = left.last();
        let b = right.last();
        assert(left.contains(a));
        assert(right.to_multiset().count(a) > 0);
        assert(right.contains(a));
        assert(right.contains(b));
        assert(left.to_multiset().count(b) > 0);
        assert(left.contains(b));
        let i = choose|i: int| 0 <= i < right.len() && right[i] == a;
        let j = choose|j: int| 0 <= j < left.len() && left[j] == b;
        if i < right.len() - 1 {
            assert(right[i].seed < right[right.len() - 1].seed);
            if j < left.len() - 1 {
                assert(left[j].seed < left[left.len() - 1].seed);
            }
        }
        assert(a == b);
        assert(left.drop_last() =~= left.remove(left.len() - 1));
        assert(right.drop_last() =~= right.remove(right.len() - 1));
        lemma_ordered_unique(left.drop_last(), right.drop_last());
        assert(left =~= left.drop_last().push(a));
        assert(right =~= right.drop_last().push(b));
    } else {
        assert(left =~= right);
    }
}

fn same_results(left: &Vec<PairedSeedResult>, right: &Vec<PairedSeedResult>) -> (r: bool)
    ensures
        r == (left@ == right@),
{
    if left.len() != right.len() {
        return false;
    }
    let mut index: usize = 0;
    while index < left.len()
        invariant
            index <= left@.len(),
            left@.len() == right@.len(),
            forall|i: int| 0 <= i < index ==> left@[i] == right@[i],
        decreases left@.len() - index,
    {
        if left[index] != right[index] {
            return false;
        }
        index += 1;
    }
    assert(left@ =~= right@);
    true
}

/// Bounded rollout rejection counts and mandatory safety audits.
#[derive(Clone, Copy, Debug, PartialEq, Eq, Structural)]
pub struct RolloutAudit {
    pub candidate: PolicyIdentity,
    pub rejected_actions: u64,
    pub total_actions: u64,
    pub side_audit_passed: bool,
    pub exploit_audit_passed: bool,
}

impl RolloutAudit {
    pub fn new(
        candidate: PolicyIdentity,
        rejected_actions: u64,
        total_actions: u64,
        side_audit_passed: bool,
        exploit_audit_passed: bool,
    ) -> (r: Result<Self, ImitationError>)
        ensures
            r == if rejected_actions <= total_actions <= MAX_TRAINING_COUNTER {
                Ok::<RolloutAudit, ImitationError>(
                    RolloutAudit {
                        candidate,
                        rejected_actions,
                        total_actions,
                        side_audit_passed,
                        exploit_audit_passed,
                    },
                )
            } else {
                Err(ImitationError::InvalidRolloutCounts)
            },
    {
        if total_actions > MAX_TRAINING_COUNTER || rejected_actions > total_actions {
            return Err(ImitationError::InvalidRolloutCounts);
        }
        Ok(
            RolloutAudit {
                candidate,
                rejected_actions,
                total_actions,
                side_audit_passed,
                exploit_audit_passed,
            },
        )
    }

    pub fn candidate(self) -> (r: PolicyIdentity)
        ensures
            r == self.candidate,
    {
        self.candidate
    }

    pub fn rejected_actions(self) -> (r: u64)
        ensures
            r == self.rejected_actions,
    {
        self.rejected_actions
    }

    pub fn total_actions(self) -> (r: u64)
        ensures
            r == self.total_actions,
    {
        self.total_actions
    }
}

/// Sum of the totals of every family.
pub open spec fn family_sum(families: Seq<AgreementCount>) -> int
    decreases families.len(),
{
    if families.len() == 0 {
        0
    } else {
        family_sum(families.drop_last()) + families.last().total
    }
}

/// Sum of a list of counts.
pub open spec fn count_sum(list: Seq<usize>) -> int
    decreases list.len(),
{
    if list.len() == 0 {
        0
    } else {
        count_sum(list.drop_last()) + list.last()
    }
}

/// Whether every count of an aggregate agrees with the others.
pub open spec fn aggregate_consistent(aggregate: EvaluationAggregate) -> bool {
    &&& aggregate.samples <= MAX_IMITATION_SAMPLES
    &&& aggregate.full.total == aggregate.samples
    &&& aggregate.full.matching <= aggregate.full.total
    &&& aggregate.kind.matching <= aggregate.kind.total
    &&& aggregate.kind.total <= aggregate.samples
    &&& aggregate.teacher_covered <= aggregate.teacher_attempted
    &&& aggregate.teacher_attempted <= MAX_IMITATION_SAMPLES
    &&& family_sum(aggregate.families@) == aggregate.samples
    &&& count_sum(aggregate.action_distribution@) == aggregate.samples
    &&& forall|i: int|
        0 <= i < 16 ==> (#[trigger] aggregate.families@[i]).matching
            <= aggregate.families@[i].total && aggregate.families@[i].total <= aggregate.samples
}

pub open spec fn aggregate_fault(aggregate: EvaluationAggregate) -> Option<ImitationError> {
    if aggregate_consistent(aggregate) {
        None
    } else {
        Some(ImitationError::InvalidEvaluationCounts)
    }
}

proof fn lemma_sums_grow(aggregate: EvaluationAggregate, count: int)
    requires
        0 <= count <= 16,
    ensures
        family_sum(aggregate.families@.take(count)) <= family_sum(aggregate.families@),
        count_sum(aggregate.action_distribution@.take(count)) <= count_sum(
            aggregate.action_distribution@,
        ),
    decreases 16 - count,
{
    if count < 16 {
        lemma_sums_grow(aggregate, count + 1);
        assert(aggregate.families@.take(count + 1).drop_last() =~= aggregate.families@.take(count));
        assert(aggregate.action_distribution@.take(count + 1).drop_last()
            =~= aggregate.action_distribution@.take(count));
    } else {
        assert(aggregate.families@.take(count) =~= aggregate.families@);
        assert(aggregate.action_distribution@.take(count) =~= aggregate.action_distribution@);
    }
}

/// Checks that every count of an aggregate agrees with the others.
pub fn validate_evaluation_aggregate(aggregate: &EvaluationAggregate) -> (r: Result<
    (),
    ImitationError,
>)
    ensures
        r == faulted(aggregate_fault(*aggregate)),
{
    if aggregate.samples > MAX_IMITATION_SAMPLES || aggregate.full.total != aggregate.samples
        || aggregate.full.matching > aggregate.full.total || aggregate.kind.matching
        > aggregate.kind.total || aggregate.kind.total > aggregate.samples
        || aggregate.teacher_covered > aggregate.teacher_attempted || aggregate.teacher_attempted
        > MAX_IMITATION_SAMPLES {
        return Err(ImitationError::InvalidEvaluationCounts);
    }
    let mut families: usize = 0;
    let mut actions: usize = 0;
    let mut index: usize = 0;
    while index < 16
        invariant
            index <= 16,
            families == family_sum(aggregate.families@.take(index as int)),
            actions == count_sum(aggregate.action_distribution@.take(index as int)),
            families <= aggregate.samples,
            actions <= aggregate.samples,
            forall|i: int|
                0 <= i < index ==> (#[trigger] aggregate.families@[i]).matching
                    <= aggregate.families@[i].total && aggregate.families@[i].total
                    <= aggregate.samples,
        decreases 16 - index,
    {
        proof {
            assert(aggregate.families@.take(index + 1).drop_last() =~= aggregate.families@.take(
                index as int,
            ));
            assert(aggregate.action_distribution@.take(index + 1).drop_last()
                =~= aggregate.action_distribution@.take(index as int));
            lemma_sums_grow(*aggregate, index + 1);
            assert(aggregate.families@[index as int].total >= 0);
        }
        let family = aggregate.families[index];
        let chosen: usize = aggregate.action_distribution[index];
        if family.matching > family.total || family.total > aggregate.samples - families || chosen
            > aggregate.samples - actions {
            return Err(ImitationError::InvalidEvaluationCounts);
        }
        families = families + family.total;
        actions = actions + chosen;
        index += 1;
    }
    assert(aggregate.families@.take(16) =~= aggregate.families@);
    assert(aggregate.action_distribution@.take(16) =~= aggregate.action_distribution@);
    if families != aggregate.samples || actions != aggregate.samples {
        return Err(ImitationError::InvalidEvaluationCounts);
    }
    Ok(())
}

/// Typed held-out, paired-gameplay, and rollout inputs to the promotion gate.
#[derive(Debug, PartialEq, Eq)]
pub struct PromotionGateInput {
    pub held_out: HeldOutEvaluation,
    pub rollout: RolloutAudit,
    pub gameplay: PairedGameplayReport,
}

/// Individual promotion requirements and their conjunction.
#[derive(Clone, Copy, Debug, PartialEq, Eq, Structural)]
pub struct PromotionGateResult {
    pub full_agreement: bool,
    pub teacher_coverage: bool,
    pub rejection_rate: bool,
    pub gameplay_score: bool,
    pub both_sides: bool,
    pub side_audit: bool,
    pub exploit_audit: bool,
    pub nontrivial_action_distribution: bool,
    pub radiant_win_rate: WinRate,
    pub dire_win_rate: WinRate,
    pub passed: bool,
}

/// At least 95 percent of the samples agree on every head.
pub open spec fn agreement_reached(full: AgreementCount) -> bool {
    full.total != 0 && 20 * full.matching >= 19 * full.total
}

/// Less than one action in a thousand was rejected.
pub open spec fn rejections_rare(rejected: u64, total: u64) -> bool {
    1000 * rejected < total
}

/// Failure of metrics that disagree with the coverage behind them.
pub open spec fn coverage_fault(held_out: HeldOutEvaluation) -> Option<ImitationError> {
    let metrics = held_out.metrics;
    let coverage = held_out.coverage;
    first_fault(
        coverage.consistency_fault(),
        if metrics.overall.teacher_covered != coverage.represented
            || metrics.overall.teacher_attempted != coverage.attempted
            || metrics.radiant.teacher_covered != coverage.represented_by_side@[0]
            || metrics.radiant.teacher_attempted != coverage.attempted_by_side@[0]
            || metrics.dire.teacher_covered != coverage.represented_by_side@[1]
            || metrics.dire.teacher_attempted != coverage.attempted_by_side@[1] {
            Some(ImitationError::InvalidTeacherCoverage)
        } else {
            None
        },
    )
}

/// Failure of metrics whose counts disagree with each other.
pub open spec fn metrics_fault(metrics: OfflineEvaluation) -> Option<ImitationError> {
    first_fault(
        aggregate_fault(metrics.overall),
        first_fault(
            aggregate_fault(metrics.radiant),
            first_fault(
                aggregate_fault(metrics.dire),
                if metrics.radiant.samples + metrics.dire.samples != metrics.overall.samples {
                    Some(ImitationError::InvalidEvaluationCounts)
                } else {
                    None
                },
            ),
        ),
    )
}

impl PromotionGateInput {
    /// Failure of the first input that bars the promotion of a candidate.
    pub open spec fn fault(self, candidate: PolicyIdentity, totals: ScoreTotals) -> Option<
        ImitationError,
    > {
        first_fault(
            metrics_fault(self.held_out.metrics),
            first_fault(
                binding_fault(self.held_out.pool),
                first_fault(
                    scope_fault(self.held_out.pool.scope),
                    if self.held_out.candidate != candidate || self.rollout.candidate != candidate
                        || self.gameplay.candidate != candidate {
                        Some(ImitationError::PolicyIdentityMismatch)
                    } else {
                        first_fault(
                            coverage_fault(self.held_out),
                            first_fault(
                                self.gameplay.fault(totals),
                                if self.gameplay.paired_seeds@
                                    != self.held_out.pool.seeds.promotion@ {
                                    Some(
                                        ImitationError::InvalidGameplayReport(
                                            "promotion seed namespace",
                                        ),
                                    )
                                } else if !(MIN_PROMOTION_ROLLOUT_ACTIONS
                                    <= self.rollout.total_actions <= MAX_TRAINING_COUNTER)
                                    || self.rollout.rejected_actions > self.rollout.total_actions {
                                    Some(ImitationError::InvalidRolloutCounts)
                                } else {
                                    None
                                },
                            ),
                        )
                    },
                ),
            ),
        )
    }

    /// Every promotion requirement.
    pub open spec fn verdict(self) -> PromotionGateResult {
        let metrics = self.held_out.metrics;
        let coverage = self.held_out.coverage;
        let full_agreement = agreement_reached(metrics.overall.full);
        let teacher_coverage = coverage.attempted != 0 && coverage.represented
            == coverage.attempted && coverage.represented == metrics.overall.samples;
        let rejection_rate = rejections_rare(
            self.rollout.rejected_actions,
            self.rollout.total_actions,
        );
        let gameplay_score = self.gameplay.learner_holds();
        let both_sides = metrics.radiant.samples != 0 && metrics.dire.samples != 0;
        let nontrivial_action_distribution = tally(
            metrics.overall.action_distribution@,
            |count: usize| count != 0,
        ) >= 2;
        PromotionGateResult {
            full_agreement,
            teacher_coverage,
            rejection_rate,
            gameplay_score,
            both_sides,
            side_audit: self.rollout.side_audit_passed,
            exploit_audit: self.rollout.exploit_audit_passed,
            nontrivial_action_distribution,
            radiant_win_rate: WinRate {
                wins: self.gameplay.radiant.wins,
                games: self.gameplay.radiant.games,
            },
            dire_win_rate: WinRate {
                wins: self.gameplay.dire.wins,
                games: self.gameplay.dire.games,
            },
            passed: full_agreement && teacher_coverage && rejection_rate && gameplay_score
                && both_sides && self.rollout.side_audit_passed && self.rollout.exploit_audit_passed
                && nontrivial_action_distribution,
        }
    }

    /// Judges a candidate whose gameplay score sums are `totals`.
    pub fn evaluate(&self, candidate: PolicyIdentity, totals: ScoreTotals) -> (r: Result<
        PromotionGateResult,
        ImitationError,
    >)
        ensures
            r == match self.fault(candidate, totals) {
                Some(error) => Err::<PromotionGateResult, ImitationError>(error),
                None => Ok(self.verdict()),
            },
    {
        match self.validate_inputs(candidate, totals) {
            Ok(()) => {},
            Err(error) => {
                return Err(error);
            },
        }
        let metrics = &self.held_out.metrics;
        let coverage = &self.held_out.coverage;
        let full = metrics.overall.full;
        let full_agreement = full.total != 0 && 20 * full.matching >= 19 * full.total;
        let teacher_coverage = coverage.attempted != 0 && coverage.represented
            == coverage.attempted && coverage.represented == metrics.overall.samples;
        let rejection_rate = 1000 * self.rollout.rejected_actions < self.rollout.total_actions;
        let gameplay_score = self.gameplay.learner_not_worse();
        let both_sides = metrics.radiant.samples != 0 && metrics.dire.samples != 0;
        let side_audit = self.rollout.side_audit_passed;
        let exploit_audit = self.rollout.exploit_audit_passed;
        let nontrivial_action_distribution = used_actions(&metrics.overall) >= 2;
        Ok(
            PromotionGateResult {
                full_agreement,
                teacher_coverage,
                rejection_rate,
                gameplay_score,
                both_sides,
                side_audit,
                exploit_audit,
                nontrivial_action_distribution,
                radiant_win_rate: self.gameplay.radiant.learner_win_rate(),
                dire_win_rate: self.gameplay.dire.learner_win_rate(),
                passed: full_agreement && teacher_coverage && rejection_rate && gameplay_score
                    && both_sides && side_audit && exploit_audit && nontrivial_action_distribution,
            },
        )
    }

    /// Checks every promotion input for a candidate.
    pub fn validate_inputs(&self, candidate: PolicyIdentity, totals: ScoreTotals) -> (r: Result<
        (),
        ImitationError,
    >)
        ensures
            r == faulted(self.fault(candidate, totals)),
    {
        match validate_metrics(&self.held_out.metrics) {
            Ok(()) => {},
            Err(error) => {
                return Err(error);
            },
        }
        match validate_pool_binding(&self.held_out.pool) {
            Ok(()) => {},
            Err(error) => {
                return Err(error);
            },
        }
        match validate_scope(self.held_out.pool.scope) {
            Ok(()) => {},
            Err(error) => {
                return Err(error);
            },
        }
        if self.held_out.candidate != candidate || self.rollout.candidate != candidate
            || self.gameplay.candidate != candidate {
            return Err(ImitationError::PolicyIdentityMismatch);
        }
        match validate_coverage(&self.held_out) {
            Ok(()) => {},
            Err(error) => {
                return Err(error);
            },
        }
        match self.gameplay.validate(totals) {
            Ok(()) => {},
            Err(error) => {
                return Err(error);
            },
        }
        if !same_list(&self.gameplay.paired_seeds, &self.held_out.pool.seeds.promotion) {
            return Err(ImitationError::InvalidGameplayReport("promotion seed namespace"));
        }
        if self.rollout.total_actions < MIN_PROMOTION_ROLLOUT_ACTIONS || self.rollout.total_actions
            > MAX_TRAINING_COUNTER || self.rollout.rejected_actions > self.rollout.total_actions {
            return Err(ImitationError::InvalidRolloutCounts);
        }
        Ok(())
    }
}

fn validate_metrics(metrics: &OfflineEvaluation) -> (r: Result<(), ImitationError>)
    ensures
        r == faulted(metrics_fault(*metrics)),
{
    match validate_evaluation_aggregate(&metrics.overall) {
        Ok(()) => {},
        Err(error) => {
            return Err(error);
        },
    }
    match validate_evaluation_aggregate(&metrics.radiant) {
        Ok(()) => {},
        Err(error) => {
            return Err(error);
        },
    }
    match validate_evaluation_aggregate(&metrics.dire) {
        Ok(()) => {},
        Err(error) => {
            return Err(error);
        },
    }
    if metrics.radiant.samples + metrics.dire.samples != metrics.overall.samples {
        return Err(ImitationError::InvalidEvaluationCounts);
    }
    Ok(())
}

fn validate_coverage(held_out: &HeldOutEvaluation) -> (r: Result<(), ImitationError>)
    ensures
        r == faulted(coverage_fault(*held_out)),
{
    let metrics = &held_out.metrics;
    let coverage = &held_out.coverage;
    match coverage.validate() {
        Ok(()) => {},
        Err(error) => {
            return Err(error);
        },
    }
    let radiant = coverage.side_counts(ImitationSide::Radiant);
    let dire = coverage.side_counts(ImitationSide::Dire);
    if metrics.overall.teacher_covered != coverage.represented || metrics.overall.teacher_attempted
        != coverage.attempted || metrics.radiant.teacher_covered != radiant.0
        || metrics.radiant.teacher_attempted != radiant.1 || metrics.dire.teacher_covered != dire.0
        || metrics.dire.teacher_attempted != dire.1 {
        return Err(ImitationError::InvalidTeacherCoverage);
    }
    Ok(())
}

/// Number of action families that the teacher used.
fn used_actions(aggregate: &EvaluationAggregate) -> (r: usize)
    ensures
        r == tally(aggregate.action_distribution@, |count: usize| count != 0),
{
    let ghost used = |count: usize| count != 0;
    let mut output: usize = 0;
    let mut index: usize = 0;
    while index < 16
        invariant
            index <= 16,
            used == |count: usize| count != 0,
            output == tally(aggregate.action_distribution@.take(index as int), used),
        decreases 16 - index,
    {
        proof {
            lemma_tally_step(aggregate.action_distribution@, used, index as int);
        }
        if aggregate.action_distribution[index] != 0 {
            output += 1;
        }
        index += 1;
    }
    assert(aggregate.action_distribution@.take(16) =~= aggregate.action_distribution@);
    output
}

/// A candidate passes only with every requirement met.
pub proof fn promotion_needs_every_requirement(input: PromotionGateInput)
    ensures
        input.verdict().passed ==> {
            &&& agreement_reached(input.held_out.metrics.overall.full)
            &&& input.held_out.coverage.failed + input.held_out.coverage.represented
                == input.held_out.coverage.attempted ==> input.held_out.coverage.failed == 0
            &&& rejections_rare(input.rollout.rejected_actions, input.rollout.total_actions)
            &&& input.gameplay.learner_holds()
            &&& input.held_out.metrics.radiant.samples > 0
            &&& input.held_out.metrics.dire.samples > 0
            &&& input.rollout.side_audit_passed
            &&& input.rollout.exploit_audit_passed
        },
{
}

} // verus!
