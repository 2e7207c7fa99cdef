//! Bounds and counts of the development tools.
use vstd::prelude::*;

verus! {

/// Policies that one probe evaluates.
pub const MAX_PROBE_EVALUATIONS: usize = 24;

/// Decisions of one evaluated game.
#[derive(Clone, Copy, Debug, PartialEq, Eq, Structural)]
pub struct TacticalGame {
    pub effective_overrides: u32,
    pub sampled_decisions: u32,
}

/// Games of one evaluated policy, over every opponent cohort.
#[derive(Debug)]
pub struct TacticalEvaluation {
    pub games: Vec<TacticalGame>,
}

/// Games of all evaluations.
pub open spec fn game_total(evaluations: Seq<TacticalEvaluation>) -> nat
    decreases evaluations.len(),
{
    if evaluations.len() == 0 {
        0
    } else {
        game_total(evaluations.drop_last()) + evaluations.last().games@.len()
    }
}

proof fn lemma_game_total_prefix(evaluations: Seq<TacticalEvaluation>, count: int)
    requires
        0 <= count <= evaluations.len(),
    ensures
        game_total(evaluations.take(count)) <= game_total(evaluations),
    decreases evaluations.len() - count,
{
    if count < evaluations.len() {
        lemma_game_total_prefix(evaluations, count + 1);
        assert(evaluations.take(count + 1).drop_last() =~= evaluations.take(count));
    } else {
        assert(evaluations.take(count) =~= evaluations);
    }
}

/// Games of all evaluations of a probe.
pub fn probe_game_count(evaluations: &Vec<TacticalEvaluation>) -> (r: usize)
    requires
        evaluations@.len() <= MAX_PROBE_EVALUATIONS,
        game_total(evaluations@) <= usize::MAX,
    ensures
        r == game_total(evaluations@),
{
    let mut total: usize = 0;
    let mut index: usize = 0;
    assert(evaluations@.take(0) =~= Seq::<TacticalEvaluation>::empty());
    while index < evaluations.len()
        invariant
            index <= evaluations@.len(),
            game_total(evaluations@) <= usize::MAX,
            total == game_total(evaluations@.take(index as int)),
        decreases evaluations@.len() - index,
    {
        proof {
            assert(evaluations@.take(index + 1).drop_last() =~= evaluations@.take(index as int));
            assert(evaluations@.take(index + 1).last() == evaluations@[index as int]);
            lemma_game_total_prefix(evaluations@, index + 1);
        }
        total = total + evaluations[index].games.len();
        index += 1;
    }
    assert(evaluations@.take(evaluations@.len() as int) =~= evaluations@);
    total
}

/// Overridden decisions of a list of games.
pub open spec fn override_total(games: Seq<TacticalGame>) -> nat
    decreases games.len(),
{
    if games.len() == 0 {
        0
    } else {
        override_total(games.drop_last()) + games.last().effective_overrides as nat
    }
}

/// Sampled decisions of a list of games.
pub open spec fn sampled_total(games: Seq<TacticalGame>) -> nat
    decreases games.len(),
{
    if games.len() == 0 {
        0
    } else {
        sampled_total(games.drop_last()) + games.last().sampled_decisions as nat
    }
}

proof fn lemma_totals_prefix(games: Seq<TacticalGame>, count: int)
    requires
        0 <= count <= games.len(),
    ensures
        override_total(games.take(count)) <= override_total(games),
        sampled_total(games.take(count)) <= sampled_total(games),
    decreases games.len() - count,
{
    if count < games.len() {
        lemma_totals_prefix(games, count + 1);
        assert(games.take(count + 1).drop_last() =~= games.take(count));
    } else {
        assert(games.take(count) =~= games);
    }
}

impl TacticalEvaluation {
    /// Overridden and sampled decisions over all games.
    pub fn decision_totals(&self) -> (r: (u32, u32))
        requires
            override_total(self.games@) <= u32::MAX,
            sampled_total(self.games@) <= u32::MAX,
        ensures
            r.0 == override_total(self.games@),
            r.1 == sampled_total(self.games@),
    {
        let mut overrides: u32 = 0;
        let mut sampled: u32 = 0;
        let mut index: usize = 0;
        assert(self.games@.take(0) =~= Seq::<TacticalGame>::empty());
        while index < self.games.len()
            invariant
                index <= self.games@.len(),
                override_total(self.games@) <= u32::MAX,
                sampled_total(self.games@) <= u32::MAX,
                overrides == override_total(self.games@.take(index as int)),
                sampled == sampled_total(self.games@.take(index as int)),
            decreases self.games@.len() - index,
        {
            proof {
                assert(self.games@.take(index + 1).drop_last() =~= self.games@.take(index as int));
                assert(self.games@.take(index + 1).last() == self.games@[index as int]);
                lemma_totals_prefix(self.games@, index + 1);
            }
            overrides = overrides + self.games[index].effective_overrides;
            sampled = sampled + self.games[index].sampled_decisions;
            index += 1;
        }
        assert(self.games@.take(self.games@.len() as int) =~= self.games@);
        (overrides, sampled)
    }
}

/// Sizes of one profiling run.
#[derive(Clone, Copy, Debug, PartialEq, Eq, Structural)]
pub struct ProfileRequest {
    pub arenas: usize,
    pub ticks: usize,
    pub training_updates: u32,
    pub rollout_decisions: usize,
}

/// Profiling run outside its bounds.
#[derive(Clone, Copy, Debug, PartialEq, Eq, Structural)]
pub enum ProfileError {
    Bounds,
    RolloutDecisions,
}

impl ProfileError {
    pub open spec fn message_spec(self) -> Seq<char> {
        match self {
            ProfileError::Bounds =>
                "profile bounds are arenas=1..16, ticks=1..20000, updates=0..2"@,
            ProfileError::RolloutDecisions =>
                "profile rollout decisions are outside 1..=64"@,
        }
    }

    /// Text of the failure.
    pub fn message(self) -> (r: &'static str)
        ensures
            r@ == self.message_spec(),
    {
        match self {
            ProfileError::Bounds => "profile bounds are arenas=1..16, ticks=1..20000, updates=0..2",
            ProfileError::RolloutDecisions => "profile rollout decisions are outside 1..=64",
        }
    }
}

impl ProfileRequest {
    /// Why a profiling run is refused.
    pub open spec fn fault(self) -> Option<ProfileError> {
        if !(1 <= self.arenas <= 16) || !(1 <= self.ticks <= 20_000) || self.training_updates > 2 {
            Some(ProfileError::Bounds)
        } else if !(1 <= self.rollout_decisions <= 64) {
            Some(ProfileError::RolloutDecisions)
        } else {
            None
        }
    }

    /// Checks the bounds of a profiling run.
    pub fn validate(&self) -> (r: Result<(), ProfileError>)
        ensures
            match self.fault() {
                Some(error) => r == Err::<(), ProfileError>(error),
                None => r is Ok,
            },
    {
        if self.arenas < 1 || self.arenas > 16 || self.ticks < 1 || self.ticks > 20_000
            || self.training_updates > 2 {
            return Err(ProfileError::Bounds);
        }
        if self.rollout_decisions < 1 || self.rollout_decisions > 64 {
            return Err(ProfileError::RolloutDecisions);
        }
        Ok(())
    }
}

/// Why the output directory of a search is refused.
#[derive(Clone, Copy, Debug, PartialEq, Eq, Structural)]
pub enum OutputError {
    Outside,
    Exists,
}

impl OutputError {
    pub open spec fn message_spec(self) -> Seq<char> {
        match self {
            OutputError::Outside =>
                "tactical output must be a new directory below artifacts/temp"@,
            OutputError::Exists => "tactical output directory already exists"@,
        }
    }

    /// Text of the failure.
    pub fn message(self) -> (r: &'static str)
        ensures
            r@ == self.message_spec(),
    {
        match self {
            OutputError::Outside => "tactical output must be a new directory below artifacts/temp",
            OutputError::Exists => "tactical output directory already exists",
        }
    }
}

/// Checks where a search writes: a named, new directory below the temporary root.
pub fn validate_output(below_root: bool, named: bool, exists: bool) -> (r: Result<(), OutputError>)
    ensures
        r == (if !below_root || !named {
            Err::<(), OutputError>(OutputError::Outside)
        } else if exists {
            Err::<(), OutputError>(OutputError::Exists)
        } else {
            Ok(())
        }),
{
    if !below_root || !named {
        return Err(OutputError::Outside);
    }
    if exists {
        return Err(OutputError::Exists);
    }
    Ok(())
}

} // verus!
