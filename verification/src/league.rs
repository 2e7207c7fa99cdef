//! Frozen-policy league: scheduling, retention, and held-out promotion evidence.
use crate::assembly::order32;
use crate::checkpoint_codec::words_bytes;
use crate::frame::{finite32, finite64, is_finite32, is_finite64};
use crate::league_laws::{margin, promotable_candidates_lose_on_no_side};
use crate::order::{key_views, stable_order, stable_order_exists, stable_order_of};
use crate::schema::{fnv1a, fnv1a_spec};
use crate::search::{first_index, lemma_first_from_found, lemma_first_from_none};
use crate::text::{decimal, owned, with_decimal, with_text};
use std::sync::Arc;
use vstd::prelude::*;

verus! {

/// Initial and maximum retained historical policy count.
pub const LEAGUE_MAX_POLICIES: usize = 32;
/// Smallest league that can preserve every retention class.
pub const LEAGUE_MIN_POLICIES: usize = 9;
/// Recent snapshots protected from historical eviction.
pub const LEAGUE_RECENT_POLICIES: usize = 4;
/// Minimum side-paired held-out seeds required for promotion.
pub const LEAGUE_MIN_PROMOTION_PAIRS: usize = 20;
/// Maximum side-paired held-out seeds accepted by one report.
pub const LEAGUE_MAX_PROMOTION_PAIRS: usize = 512;
/// Minimum evaluated actions required for a promotion decision.
pub const LEAGUE_MIN_PROMOTION_ACTIONS: u64 = 1_000;
/// Minimum separate exploit-regression seed pairs required for promotion.
pub const LEAGUE_MIN_EXPLOIT_PAIRS: usize = 2;
/// Minimum candidate actions required in the exploit-regression namespace.
pub const LEAGUE_MIN_EXPLOIT_ACTIONS: u64 = 100;
/// Maximum exploit-regression seed pairs.
pub const LEAGUE_MAX_EXPLOIT_PAIRS: usize = 64;
/// Maximum training seeds that evidence is held against.
pub const LEAGUE_MAX_TRAINING_SEEDS: usize = 8_192;
/// Single-precision bits of one.
pub const UNIT_BITS: u32 = 0x3f80_0000;

/// Snapshot, league, opponent, or held-out evidence failure.
#[allow(inconsistent_fields)]
#[derive(Clone, Debug, PartialEq, Eq)]
pub enum LeagueError {
    Capacity { capacity: usize },
    ParameterCount { actual: usize, expected: usize },
    NonFiniteParameter { index: usize },
    SnapshotIdentityExhausted,
    InvalidProfile,
    NonFiniteScore,
    DuplicatePolicy,
    OpponentBucket { bucket: u8 },
    PromotionPairCount { count: usize },
    InvalidRejectionRate,
    ExploitPairCount { count: usize },
    ExploitRegression,
    ExploitIdentityMismatch,
    CandidateEqualsAccepted,
    PromotionSeedsNotIncreasing,
    TrainingSeedCapacity,
    EvaluationSeedInTraining { seed: u64 },
    EvaluationIdentityMismatch,
    InsertionOverflow,
    NoEvictablePolicy,
    Model(String),
    Rng(String),
}

impl LeagueError {
    pub open spec fn message_spec(self) -> Seq<char> {
        match self {
            LeagueError::Capacity { capacity } => "league capacity "@ + decimal(capacity as nat)
                + " is outside 9..=32"@,
            LeagueError::ParameterCount { actual, expected } => "snapshot has "@ + decimal(
                actual as nat,
            ) + " parameters, expected "@ + decimal(expected as nat),
            LeagueError::NonFiniteParameter { index } => "snapshot parameter "@ + decimal(
                index as nat,
            ) + " is non-finite"@,
            LeagueError::SnapshotIdentityExhausted => "snapshot identity is exhausted"@,
            LeagueError::InvalidProfile => "cross-play profile is invalid"@,
            LeagueError::NonFiniteScore => "league score is non-finite"@,
            LeagueError::DuplicatePolicy => "league policy weights are duplicated"@,
            LeagueError::OpponentBucket { bucket } => "opponent bucket "@ + decimal(bucket as nat)
                + " is outside 0..100"@,
            LeagueError::PromotionPairCount { count } => "promotion has "@ + decimal(count as nat)
                + " pairs, expected 20..=512"@,
            LeagueError::InvalidRejectionRate => "promotion rejection rate is invalid"@,
            LeagueError::ExploitPairCount { count } => "exploit audit has "@ + decimal(count as nat)
                + " pairs, expected 2..=64"@,
            LeagueError::ExploitRegression => "exploit audit regresses on at least one side"@,
            LeagueError::ExploitIdentityMismatch => "exploit audit identity mismatch"@,
            LeagueError::CandidateEqualsAccepted => "promotion candidate equals accepted weights"@,
            LeagueError::PromotionSeedsNotIncreasing =>
                "promotion seeds are not strictly increasing"@,
            LeagueError::TrainingSeedCapacity => "training seed capacity exceeded"@,
            LeagueError::EvaluationSeedInTraining { seed } => "promotion seed "@ + decimal(
                seed as nat,
            ) + " occurs in training"@,
            LeagueError::EvaluationIdentityMismatch => "promotion evidence identity mismatch"@,
            LeagueError::InsertionOverflow => "league insertion counter overflow"@,
            LeagueError::NoEvictablePolicy => "league has no evictable policy"@,
            LeagueError::Model(message) => "league model error: "@ + message@,
            LeagueError::Rng(message) => "league RNG error: "@ + message@,
        }
    }

    /// Text of the failure.
    pub fn message(&self) -> (r: String)
        ensures
            r@ == self.message_spec(),
    {
        match self {
            LeagueError::Capacity { capacity } => with_text(
                with_decimal(owned("league capacity "), *capacity as u64),
                " is outside 9..=32",
            ),
            LeagueError::ParameterCount { actual, expected } => with_decimal(
                with_text(
                    with_decimal(owned("snapshot has "), *actual as u64),
                    " parameters, expected ",
                ),
                *expected as u64,
            ),
            LeagueError::NonFiniteParameter { index } => with_text(
                with_decimal(owned("snapshot parameter "), *index as u64),
                " is non-finite",
            ),
            LeagueError::SnapshotIdentityExhausted => owned("snapshot identity is exhausted"),
            LeagueError::InvalidProfile => owned("cross-play profile is invalid"),
            LeagueError::NonFiniteScore => owned("league score is non-finite"),
            LeagueError::DuplicatePolicy => owned("league policy weights are duplicated"),
            LeagueError::OpponentBucket { bucket } => with_text(
                with_decimal(owned("opponent bucket "), *bucket as u64),
                " is outside 0..100",
            ),
            LeagueError::PromotionPairCount { count } => with_text(
                with_decimal(owned("promotion has "), *count as u64),
                " pairs, expected 20..=512",
            ),
            LeagueError::InvalidRejectionRate => owned("promotion rejection rate is invalid"),
            LeagueError::ExploitPairCount { count } => with_text(
                with_decimal(owned("exploit audit has "), *count as u64),
                " pairs, expected 2..=64",
            ),
            LeagueError::ExploitRegression => owned(
                "exploit audit regresses on at least one side",
            ),
            LeagueError::ExploitIdentityMismatch => owned("exploit audit identity mismatch"),
            LeagueError::CandidateEqualsAccepted => owned(
                "promotion candidate equals accepted weights",
            ),
            LeagueError::PromotionSeedsNotIncreasing => owned(
                "promotion seeds are not strictly increasing",
            ),
            LeagueError::TrainingSeedCapacity => owned("training seed capacity exceeded"),
            LeagueError::EvaluationSeedInTraining { seed } => with_text(
                with_decimal(owned("promotion seed "), *seed),
                " occurs in training",
            ),
            LeagueError::EvaluationIdentityMismatch => owned(
                "promotion evidence identity mismatch",
            ),
            LeagueError::InsertionOverflow => owned("league insertion counter overflow"),
            LeagueError::NoEvictablePolicy => owned("league has no evictable policy"),
            LeagueError::Model(message) => with_text(
                owned("league model error: "),
                message.as_str(),
            ),
            LeagueError::Rng(message) => with_text(owned("league RNG error: "), message.as_str()),
        }
    }
}

/// Place of double-precision bits in the total order of their numbers.
pub open spec fn total_order64(bits: u64) -> int {
    if bits >= 0x8000_0000_0000_0000 {
        -(bits - 0x8000_0000_0000_0000) - 1
    } else {
        bits as int
    }
}

fn total_key64(bits: u64) -> (r: i128)
    ensures
        r == total_order64(bits),
{
    if bits >= 0x8000_0000_0000_0000 {
        -(bits as i128 - 0x8000_0000_0000_0000) - 1
    } else {
        bits as i128
    }
}

fn total_key32(bits: u32) -> (r: i128)
    ensures
        r == order32(bits),
{
    if bits >= 0x8000_0000 {
        -(bits as i128 - 0x8000_0000) - 1
    } else {
        bits as i128
    }
}

/// Immutable finite weights used by frozen opponents and accepted checkpoints, as
/// single-precision bits; clones share them.
#[derive(Clone, Debug)]
pub struct PolicySnapshot {
    pub id: u64,
    pub fingerprint: u64,
    pub generation: u64,
    pub parameters: Arc<Vec<u32>>,
}

/// FNV-1a hash of the little-endian bytes of weights.
pub open spec fn fingerprint_of(parameters: Seq<u32>) -> u64 {
    fnv1a_spec(words_bytes(parameters))
}

/// FNV-1a hash of the little-endian bytes of weights.
pub fn parameter_fingerprint(parameters: &Vec<u32>) -> (r: u64)
    requires
        parameters@.len() <= crate::archive::MAX_ARCHIVE_ELEMENTS,
    ensures
        r == fingerprint_of(parameters@),
{
    let bytes = crate::archive::encode_f32(parameters);
    fnv1a(bytes.as_slice())
}

/// Index of the first weight that is not finite.
pub open spec fn non_finite_index(parameters: Seq<u32>) -> Option<int> {
    first_index(parameters, |bits: u32| !finite32(bits))
}

fn find_non_finite(parameters: &Vec<u32>) -> (r: Option<usize>)
    ensures
        match r {
            Some(index) => non_finite_index(parameters@) == Some(index as int),
            None => non_finite_index(parameters@) is None,
        },
{
    let ghost test = |bits: u32| !finite32(bits);
    let mut index: usize = 0;
    while index < parameters.len()
        invariant
            index <= parameters@.len(),
            test == (|bits: u32| !finite32(bits)),
            forall|i: int| 0 <= i < index ==> !test(#[trigger] parameters@[i]),
        decreases parameters@.len() - index,
    {
        if !is_finite32(parameters[index]) {
            proof {
                lemma_first_from_found(parameters@, test, 0, index as int);
            }
            return Some(index);
        }
        index += 1;
    }
    proof {
        lemma_first_from_none(parameters@, test, 0);
    }
    None
}

impl PolicySnapshot {
    /// Why weights cannot be frozen; the identity is absent once the counter is used up.
    pub open spec fn fault(
        parameters: Seq<u32>,
        expected: usize,
        identity: Option<u64>,
    ) -> Option<LeagueError> {
        if parameters.len() != expected {
            Some(
                LeagueError::ParameterCount { actual: parameters.len() as usize, expected },
            )
        } else if non_finite_index(parameters) is Some {
            Some(
                LeagueError::NonFiniteParameter {
                    index: non_finite_index(parameters)->0 as usize,
                },
            )
        } else if identity is None || identity == Some(0u64) {
            Some(LeagueError::SnapshotIdentityExhausted)
        } else {
            None
        }
    }

    /// Freezes weights under a fresh identity.
    pub fn from_parameters(
        parameters: Vec<u32>,
        generation: u64,
        expected: usize,
        identity: Option<u64>,
    ) -> (r: Result<Self, LeagueError>)
        requires
            expected <= crate::archive::MAX_ARCHIVE_ELEMENTS,
        ensures
            match PolicySnapshot::fault(parameters@, expected, identity) {
                Some(error) => r == Err::<PolicySnapshot, LeagueError>(error),
                None => r matches Ok(snapshot) && Some(snapshot.id) == identity
                    && snapshot.fingerprint == fingerprint_of(parameters@) && snapshot.generation
                    == generation && snapshot.parameters@ == parameters@,
            },
    {
        if parameters.len() != expected {
            return Err(LeagueError::ParameterCount { actual: parameters.len(), expected });
        }
        match find_non_finite(&parameters) {
            Some(index) => {
                return Err(LeagueError::NonFiniteParameter { index });
            },
            None => {},
        }
        let id = match identity {
            Some(id) => id,
            None => {
                return Err(LeagueError::SnapshotIdentityExhausted);
            },
        };
        if id == 0 {
            return Err(LeagueError::SnapshotIdentityExhausted);
        }
        let fingerprint = parameter_fingerprint(&parameters);
        Ok(PolicySnapshot { id, fingerprint, generation, parameters: Arc::new(parameters) })
    }

    pub fn fingerprint(&self) -> (r: u64)
        ensures
            r == self.fingerprint,
    {
        self.fingerprint
    }

    pub fn generation(&self) -> (r: u64)
        ensures
            r == self.generation,
    {
        self.generation
    }

    /// Weights as single-precision bits.
    pub fn parameters(&self) -> (r: &[u32])
        ensures
            r@ == self.parameters@,
    {
        self.parameters.as_slice()
    }

    /// Seed from which a private model instance of this snapshot starts.
    pub fn instance_seed(&self) -> (r: u64)
        ensures
            r == self.fingerprint ^ self.generation,
    {
        self.fingerprint ^ self.generation
    }
}

/// Frozen-opponent family with fixed sampling weights.
#[derive(Clone, Copy, Debug, PartialEq, Eq, Structural)]
pub enum LeagueOpponentKind {
    CurrentMirror,
    Accepted,
    Historical,
    Teacher,
    Weak,
}

impl LeagueOpponentKind {
    pub open spec fn index_spec(self) -> int {
        match self {
            LeagueOpponentKind::CurrentMirror => 0,
            LeagueOpponentKind::Accepted => 1,
            LeagueOpponentKind::Historical => 2,
            LeagueOpponentKind::Teacher => 3,
            LeagueOpponentKind::Weak => 4,
        }
    }

    pub fn index(self) -> (r: usize)
        ensures
            r == self.index_spec(),
    {
        match self {
            LeagueOpponentKind::CurrentMirror => 0,
            LeagueOpponentKind::Accepted => 1,
            LeagueOpponentKind::Historical => 2,
            LeagueOpponentKind::Teacher => 3,
            LeagueOpponentKind::Weak => 4,
        }
    }
}

/// One selected opponent; model-backed kinds refer to immutable weights.
#[derive(Clone, Copy, Debug)]
pub struct LeagueOpponent<'a> {
    pub kind: LeagueOpponentKind,
    pub snapshot: Option<&'a PolicySnapshot>,
}

impl<'a> LeagueOpponent<'a> {
    pub fn kind(&self) -> (r: LeagueOpponentKind)
        ensures
            r == self.kind,
    {
        self.kind
    }

    pub fn snapshot(&self) -> (r: Option<&'a PolicySnapshot>)
        ensures
            r == self.snapshot,
    {
        self.snapshot
    }
}

/// Three bounded cross-play axes used for diversity retention, as single-precision bits.
#[derive(Clone, Copy, Debug, PartialEq, Eq, Structural)]
pub struct CrossPlayProfile {
    pub teacher: u32,
    pub accepted: u32,
    pub historical: u32,
}

/// Whether bits denote a number between minus one and one.
pub open spec fn within_unit(bits: u32) -> bool {
    bits % 0x8000_0000 <= UNIT_BITS
}

fn is_within_unit(bits: u32) -> (r: bool)
    ensures
        r == within_unit(bits),
{
    bits % 0x8000_0000 <= UNIT_BITS
}

impl CrossPlayProfile {
    pub fn new(teacher: u32, accepted: u32, historical: u32) -> (r: Result<Self, LeagueError>)
        ensures
            if within_unit(teacher) && within_unit(accepted) && within_unit(historical) {
                r == Ok::<CrossPlayProfile, LeagueError>(
                    CrossPlayProfile { teacher, accepted, historical },
                )
            } else {
                r == Err::<CrossPlayProfile, LeagueError>(LeagueError::InvalidProfile)
            },
    {
        if !is_within_unit(teacher) || !is_within_unit(accepted) || !is_within_unit(historical) {
            return Err(LeagueError::InvalidProfile);
        }
        Ok(CrossPlayProfile { teacher, accepted, historical })
    }
}

impl Default for CrossPlayProfile {
    fn default() -> (r: Self)
        ensures
            r == (CrossPlayProfile { teacher: 0, accepted: 0, historical: 0 }),
    {
        CrossPlayProfile { teacher: 0, accepted: 0, historical: 0 }
    }
}

/// One retained policy and its finite held-out strength, as double-precision bits.
#[derive(Debug)]
pub struct LeagueEntry {
    pub snapshot: PolicySnapshot,
    pub score: u64,
    pub profile: CrossPlayProfile,
    pub insertion: u64,
}

impl LeagueEntry {
    pub fn snapshot(&self) -> (r: &PolicySnapshot)
        ensures
            *r == self.snapshot,
    {
        &self.snapshot
    }

    pub fn score(&self) -> (r: u64)
        ensures
            r == self.score,
    {
        self.score
    }

    pub fn generation(&self) -> (r: u64)
        ensures
            r == self.snapshot.generation,
    {
        self.snapshot.generation
    }

    pub fn profile(&self) -> (r: CrossPlayProfile)
        ensures
            r == self.profile,
    {
        self.profile
    }
}

/// Squared profile distances as single-precision bits: between entries, and to an incoming
/// profile.
#[derive(Debug)]
pub struct ProfileDistances {
    pub between: Vec<Vec<u32>>,
    pub incoming: Vec<u32>,
}

impl ProfileDistances {
    /// Whether there is a distance for every pair of entries.
    pub open spec fn covers(self, count: int) -> bool {
        &&& self.between@.len() == count
        &&& self.incoming@.len() == count
        &&& forall|i: int| 0 <= i < count ==> (#[trigger] self.between@[i])@.len() == count
    }
}

/// Bounded historical opponent set with accepted, anchor, strength, recency, and diversity
/// retention.
#[derive(Debug)]
pub struct League {
    pub capacity: usize,
    pub entries: Vec<LeagueEntry>,
    pub anchor: u64,
    pub accepted: u64,
    pub insertion: u64,
}

/// Whether an entry holds weights with a fingerprint.
pub open spec fn holds(entries: Seq<LeagueEntry>, fingerprint: u64) -> bool {
    exists|i: int|
        0 <= i < entries.len() && (#[trigger] entries[i]).snapshot.fingerprint == fingerprint
}

/// Index of the entry with a fingerprint.
pub open spec fn entry_of(entries: Seq<LeagueEntry>, fingerprint: u64) -> Option<int> {
    first_index(entries, |entry: LeagueEntry| entry.snapshot.fingerprint == fingerprint)
}

/// Sort key of an entry by strength.
pub open spec fn strength_key(entry: LeagueEntry) -> Seq<i128> {
    seq![total_order64(entry.score) as i128, entry.insertion as i128]
}

pub open spec fn strength_keys(entries: Seq<LeagueEntry>) -> Seq<Seq<i128>> {
    entries.map_values(|entry: LeagueEntry| strength_key(entry))
}

/// Index of the strongest entry; the later one of two equal scores.
pub open spec fn strongest_of(entries: Seq<LeagueEntry>) -> int {
    stable_order_of(strength_keys(entries)).last() as int
}

/// Sort keys of entries by distance from the accepted one.
pub open spec fn diversity_keys(
    entries: Seq<LeagueEntry>,
    distances: ProfileDistances,
    accepted: int,
) -> Seq<Seq<i128>> {
    Seq::new(
        entries.len(),
        |i: int|
            seq![
                order32(distances.between@[i]@[accepted]) as i128,
                entries[i].insertion as i128,
            ],
    )
}

/// Index of the entry farthest from the accepted one.
pub open spec fn diverse_of(
    entries: Seq<LeagueEntry>,
    distances: ProfileDistances,
    accepted: int,
) -> int {
    stable_order_of(diversity_keys(entries, distances, accepted)).last() as int
}

/// Least distance of an entry to the first other entries or an incoming profile.
pub open spec fn novelty(distances: ProfileDistances, index: int, count: int) -> int
    decreases count,
{
    if count <= 0 {
        order32(distances.incoming@[index])
    } else {
        let rest = novelty(distances, index, count - 1);
        let other = count - 1;
        if other != index && order32(distances.between@[index]@[other]) < rest {
            order32(distances.between@[index]@[other])
        } else {
            rest
        }
    }
}

impl League {
    /// Retained policies are distinct, in order of insertion, and hold the anchor and the
    /// accepted one.
    pub open spec fn wf(self) -> bool {
        &&& LEAGUE_MIN_POLICIES <= self.capacity <= LEAGUE_MAX_POLICIES
        &&& 1 <= self.entries@.len() <= self.capacity
        &&& holds(self.entries@, self.anchor)
        &&& holds(self.entries@, self.accepted)
        &&& forall|i: int, j: int|
            0 <= i < j < self.entries@.len() ==> {
                &&& (#[trigger] self.entries@[i]).snapshot.fingerprint != (
                #[trigger] self.entries@[j]).snapshot.fingerprint
                &&& self.entries@[i].insertion < self.entries@[j].insertion
            }
        &&& forall|i: int|
            0 <= i < self.entries@.len() ==> (#[trigger] self.entries@[i]).insertion
                <= self.insertion
    }

    pub open spec fn accepted_index(self) -> int {
        entry_of(self.entries@, self.accepted)->0
    }

    /// League of one anchor that is accepted.
    pub fn new(capacity: usize, initial: PolicySnapshot) -> (r: Result<Self, LeagueError>)
        ensures
            if LEAGUE_MIN_POLICIES <= capacity <= LEAGUE_MAX_POLICIES {
                r matches Ok(league) && league.wf() && league.capacity == capacity
                    && league.entries@ == seq![
                    LeagueEntry {
                        snapshot: initial,
                        score: 0,
                        profile: CrossPlayProfile { teacher: 0, accepted: 0, historical: 0 },
                        insertion: 0,
                    },
                ] && league.anchor == initial.fingerprint && league.accepted
                    == initial.fingerprint && league.insertion == 0
            } else {
                r == Err::<League, LeagueError>(LeagueError::Capacity { capacity })
            },
    {
        if capacity < LEAGUE_MIN_POLICIES || capacity > LEAGUE_MAX_POLICIES {
            return Err(LeagueError::Capacity { capacity });
        }
        let fingerprint = initial.fingerprint;
        let entry = LeagueEntry {
            snapshot: initial,
            score: 0,
            profile: CrossPlayProfile { teacher: 0, accepted: 0, historical: 0 },
            insertion: 0,
        };
        let entries = vec![entry];
        assert(entries@ =~= seq![entry]);
        assert(entries@[0].snapshot.fingerprint == fingerprint);
        Ok(
            League { capacity, entries, anchor: fingerprint, accepted: fingerprint, insertion: 0 },
        )
    }

    pub fn len(&self) -> (r: usize)
        ensures
            r == self.entries@.len(),
    {
        self.entries.len()
    }

    pub fn is_empty(&self) -> (r: bool)
        ensures
            r == (self.entries@.len() == 0),
    {
        self.entries.len() == 0
    }

    fn entry(&self, fingerprint: u64) -> (r: usize)
        requires
            holds(self.entries@, fingerprint),
        ensures
            entry_of(self.entries@, fingerprint) == Some(r as int),
            r < self.entries@.len(),
            self.entries@[r as int].snapshot.fingerprint == fingerprint,
    {
        let ghost test = |entry: LeagueEntry| entry.snapshot.fingerprint == fingerprint;
        let mut index: usize = 0;
        while index < self.entries.len()
            invariant
                index <= self.entries@.len(),
                holds(self.entries@, fingerprint),
                test == (|entry: LeagueEntry| entry.snapshot.fingerprint == fingerprint),
                forall|i: int| 0 <= i < index ==> !test(#[trigger] self.entries@[i]),
            decreases self.entries@.len() - index,
        {
            if self.entries[index].snapshot.fingerprint == fingerprint {
                proof {
                    lemma_first_from_found(self.entries@, test, 0, index as int);
                }
                return index;
            }
            index += 1;
        }
        proof {
            let found = choose|i: int|
                0 <= i < self.entries@.len() && (
                #[trigger] self.entries@[i]).snapshot.fingerprint == fingerprint;
            assert(test(self.entries@[found]));
        }
        index
    }

    /// Accepted weights.
    pub fn accepted(&self) -> (r: &PolicySnapshot)
        requires
            self.wf(),
        ensures
            *r == self.entries@[self.accepted_index()].snapshot,
            r.fingerprint == self.accepted,
    {
        let index = self.entry(self.accepted);
        &self.entries[index].snapshot
    }

    fn strongest_index(&self) -> (r: usize)
        requires
            self.wf(),
        ensures
            r == strongest_of(self.entries@),
            r < self.entries@.len(),
    {
        let mut keys: Vec<Vec<i128>> = Vec::new();
        let mut index: usize = 0;
        while index < self.entries.len()
            invariant
                index <= self.entries@.len(),
                keys@.len() == index,
                forall|i: int|
                    0 <= i < index ==> (#[trigger] keys@[i])@ == strength_key(self.entries@[i]),
            decreases self.entries@.len() - index,
        {
            let entry = &self.entries[index];
            let key = vec![total_key64(entry.score), entry.insertion as i128];
            assert(key@ =~= strength_key(*entry));
            keys.push(key);
            index += 1;
        }
        assert(key_views(keys@) =~= strength_keys(self.entries@));
        let order = stable_order(&keys);
        let last = order.len() - 1;
        assert(order@[last as int] < keys@.len());
        order[last]
    }

    /// Strongest retained policy.
    pub fn strongest(&self) -> (r: &LeagueEntry)
        requires
            self.wf(),
        ensures
            *r == self.entries@[strongest_of(self.entries@)],
    {
        let index = self.strongest_index();
        &self.entries[index]
    }

    pub fn contains(&self, fingerprint: u64) -> (r: bool)
        ensures
            r == holds(self.entries@, fingerprint),
    {
        let mut index: usize = 0;
        while index < self.entries.len()
            invariant
                index <= self.entries@.len(),
                forall|i: int|
                    0 <= i < index ==> (#[trigger] self.entries@[i]).snapshot.fingerprint
                        != fingerprint,
            decreases self.entries@.len() - index,
        {
            if self.entries[index].snapshot.fingerprint == fingerprint {
                assert(self.entries@[index as int].snapshot.fingerprint == fingerprint);
                return true;
            }
            index += 1;
        }
        false
    }

    /// Entries in order of insertion.
    pub fn iter(&self) -> (r: &Vec<LeagueEntry>)
        ensures
            r@ == self.entries@,
    {
        &self.entries
    }

    /// Indices of the first entries that are neither accepted nor current.
    pub open spec fn historical_list(self, current: u64, count: int) -> Seq<int>
        decreases count,
    {
        if count <= 0 {
            Seq::empty()
        } else {
            let rest = self.historical_list(current, count - 1);
            let fingerprint = self.entries@[count - 1].snapshot.fingerprint;
            if fingerprint != self.accepted && fingerprint != current {
                rest.push(count - 1)
            } else {
                rest
            }
        }
    }

    /// Entry that a historical draw selects; the accepted one without history.
    pub open spec fn historical_choice(self, draw: int, current: u64) -> int {
        let list = self.historical_list(current, self.entries@.len() as int);
        if 0 <= draw < list.len() {
            list[draw]
        } else {
            self.accepted_index()
        }
    }

    /// Number of historical draws, at least one.
    pub open spec fn draw_count(self, current: u64) -> int {
        let count = self.historical_list(current, self.entries@.len() as int).len() as int;
        if count == 0 {
            1
        } else {
            count
        }
    }

    fn historical_indices(&self, current: u64) -> (r: Vec<usize>)
        ensures
            r@.map_values(|i: usize| i as int) == self.historical_list(
                current,
                self.entries@.len() as int,
            ),
            forall|i: int| 0 <= i < r@.len() ==> (#[trigger] r@[i]) < self.entries@.len(),
            r@.len() <= self.entries@.len(),
    {
        let mut list: Vec<usize> = Vec::new();
        let mut index: usize = 0;
        assert(list@.map_values(|i: usize| i as int) =~= self.historical_list(current, 0));
        while index < self.entries.len()
            invariant
                index <= self.entries@.len(),
                list@.map_values(|i: usize| i as int) == self.historical_list(
                    current,
                    index as int,
                ),
                forall|i: int| 0 <= i < list@.len() ==> (#[trigger] list@[i]) < self.entries@.len(),
                list@.len() <= index,
            decreases self.entries@.len() - index,
        {
            let fingerprint = self.entries[index].snapshot.fingerprint;
            let ghost before = list@;
            if fingerprint != self.accepted && fingerprint != current {
                list.push(index);
                assert(list@.map_values(|i: usize| i as int) =~= before.map_values(
                    |i: usize| i as int,
                ).push(index as int));
            }
            index += 1;
        }
        list
    }

    /// Number of historical draws, at least one.
    pub fn historical_count(&self, current: u64) -> (r: usize)
        ensures
            r == self.draw_count(current),
            r >= 1,
    {
        let list = self.historical_indices(current);
        let ghost known = list@.map_values(|i: usize| i as int);
        assert(known.len() == list@.len());
        if list.len() == 0 {
            1
        } else {
            list.len()
        }
    }

    /// Entry that a historical draw selects.
    pub fn historical_at(&self, draw: usize, current: u64) -> (r: &LeagueEntry)
        requires
            self.wf(),
        ensures
            *r == self.entries@[self.historical_choice(draw as int, current)],
    {
        let list = self.historical_indices(current);
        let ghost known = list@.map_values(|i: usize| i as int);
        assert(known.len() == list@.len());
        if draw < list.len() {
            assert(known[draw as int] == list@[draw as int]);
            &self.entries[list[draw]]
        } else {
            let index = self.entry(self.accepted);
            &self.entries[index]
        }
    }

    /// Opponent of a bucket below one hundred.
    pub open spec fn bucket_opponent<'a>(
        &'a self,
        bucket: u8,
        current: &'a PolicySnapshot,
    ) -> LeagueOpponent<'a> {
        if bucket < 30 {
            LeagueOpponent { kind: LeagueOpponentKind::CurrentMirror, snapshot: Some(current) }
        } else if bucket < 55 {
            LeagueOpponent {
                kind: LeagueOpponentKind::Accepted,
                snapshot: Some(&self.entries@[self.accepted_index()].snapshot),
            }
        } else if bucket < 80 {
            LeagueOpponent {
                kind: LeagueOpponentKind::Historical,
                snapshot: Some(
                    &self.entries@[self.historical_choice(0, current.fingerprint)].snapshot,
                ),
            }
        } else if bucket < 95 {
            LeagueOpponent { kind: LeagueOpponentKind::Teacher, snapshot: None }
        } else {
            LeagueOpponent { kind: LeagueOpponentKind::Weak, snapshot: None }
        }
    }

    /// Opponent of a bucket below one hundred.
    pub fn select_bucket<'a>(&'a self, bucket: u8, current: &'a PolicySnapshot) -> (r: Result<
        LeagueOpponent<'a>,
        LeagueError,
    >)
        requires
            self.wf(),
        ensures
            if bucket >= 100 {
                r == Err::<LeagueOpponent<'a>, LeagueError>(LeagueError::OpponentBucket { bucket })
            } else {
                r == Ok::<LeagueOpponent<'a>, LeagueError>(self.bucket_opponent(bucket, current))
            },
    {
        if bucket >= 100 {
            return Err(LeagueError::OpponentBucket { bucket });
        }
        let opponent = if bucket < 30 {
            LeagueOpponent { kind: LeagueOpponentKind::CurrentMirror, snapshot: Some(current) }
        } else if bucket < 55 {
            LeagueOpponent {
                kind: LeagueOpponentKind::Accepted,
                snapshot: Some(self.accepted()),
            }
        } else if bucket < 80 {
            LeagueOpponent {
                kind: LeagueOpponentKind::Historical,
                snapshot: Some(&self.historical_at(0, current.fingerprint).snapshot),
            }
        } else if bucket < 95 {
            LeagueOpponent { kind: LeagueOpponentKind::Teacher, snapshot: None }
        } else {
            LeagueOpponent { kind: LeagueOpponentKind::Weak, snapshot: None }
        };
        Ok(opponent)
    }

    /// Whether no retention class protects an entry.
    pub open spec fn evictable(self, distances: ProfileDistances, index: int) -> bool {
        let entry = self.entries@[index];
        let fingerprint = entry.snapshot.fingerprint;
        &&& fingerprint != self.anchor
        &&& fingerprint != self.accepted
        &&& index != strongest_of(self.entries@)
        &&& index != diverse_of(self.entries@, distances, self.accepted_index())
        &&& entry.insertion + 3 < self.insertion
    }

    /// Indices of the first entries that no retention class protects.
    pub open spec fn evictable_list(self, distances: ProfileDistances, count: int) -> Seq<usize>
        decreases count,
    {
        if count <= 0 {
            Seq::empty()
        } else {
            let rest = self.evictable_list(distances, count - 1);
            if self.evictable(distances, count - 1) {
                rest.push((count - 1) as usize)
            } else {
                rest
            }
        }
    }

    /// Sort key of an entry for eviction: least novelty, then score, then insertion.
    pub open spec fn eviction_key(self, distances: ProfileDistances, index: int) -> Seq<i128> {
        seq![
            novelty(distances, index, self.entries@.len() as int) as i128,
            total_order64(self.entries@[index].score) as i128,
            self.entries@[index].insertion as i128,
        ]
    }

    /// Entry that leaves a full league.
    pub open spec fn eviction(self, distances: ProfileDistances) -> Option<int> {
        let list = self.evictable_list(distances, self.entries@.len() as int);
        if list.len() == 0 {
            None
        } else {
            let keys = list.map_values(|i: usize| self.eviction_key(distances, i as int));
            Some(list[stable_order_of(keys)[0] as int] as int)
        }
    }

    /// Entries that stay when a policy arrives.
    pub open spec fn kept(self, distances: ProfileDistances) -> Seq<LeagueEntry> {
        if self.entries@.len() == self.capacity {
            self.entries@.remove(self.eviction(distances)->0)
        } else {
            self.entries@
        }
    }

    /// Whether a league is this one after a policy arrived.
    pub open spec fn grown_to(
        self,
        after: League,
        entry: LeagueEntry,
        make_accepted: bool,
        distances: ProfileDistances,
    ) -> bool {
        &&& after.capacity == self.capacity
        &&& after.entries@ == self.kept(distances).push(entry)
        &&& after.anchor == self.anchor
        &&& after.accepted == (if make_accepted {
            entry.snapshot.fingerprint
        } else {
            self.accepted
        })
        &&& after.insertion == self.insertion + 1
        &&& entry.insertion == self.insertion + 1
    }

    /// Why a policy is refused.
    pub open spec fn insert_fault(self, fingerprint: u64, score: u64) -> Option<LeagueError> {
        if !finite64(score) {
            Some(LeagueError::NonFiniteScore)
        } else if holds(self.entries@, fingerprint) {
            Some(LeagueError::DuplicatePolicy)
        } else if self.insertion == u64::MAX {
            Some(LeagueError::InsertionOverflow)
        } else {
            None
        }
    }

    fn most_diverse_index(&self, distances: &ProfileDistances) -> (r: usize)
        requires
            self.wf(),
            distances.covers(self.entries@.len() as int),
        ensures
            r == diverse_of(self.entries@, *distances, self.accepted_index()),
            r < self.entries@.len(),
    {
        let accepted = self.entry(self.accepted);
        let mut keys: Vec<Vec<i128>> = Vec::new();
        let mut index: usize = 0;
        while index < self.entries.len()
            invariant
                index <= self.entries@.len(),
                accepted < self.entries@.len(),
                accepted == self.accepted_index(),
                distances.covers(self.entries@.len() as int),
                keys@.len() == index,
                forall|i: int|
                    0 <= i < index ==> (#[trigger] keys@[i])@ == diversity_keys(
                        self.entries@,
                        *distances,
                        accepted as int,
                    )[i],
            decreases self.entries@.len() - index,
        {
            assert(distances.between@[index as int]@.len() == self.entries@.len());
            let key = vec![
                total_key32(distances.between[index][accepted]),
                self.entries[index].insertion as i128,
            ];
            assert(key@ =~= diversity_keys(
                self.entries@,
                *distances,
                accepted as int,
            )[index as int]);
            keys.push(key);
            index += 1;
        }
        assert(key_views(keys@) =~= diversity_keys(self.entries@, *distances, accepted as int));
        let order = stable_order(&keys);
        let last = order.len() - 1;
        assert(order@[last as int] < keys@.len());
        order[last]
    }

    fn profile_novelty(&self, index: usize, distances: &ProfileDistances) -> (r: i128)
        requires
            index < self.entries@.len(),
            distances.covers(self.entries@.len() as int),
        ensures
            r == novelty(*distances, index as int, self.entries@.len() as int),
    {
        let mut least = total_key32(distances.incoming[index]);
        let mut other: usize = 0;
        assert(distances.between@[index as int]@.len() == self.entries@.len());
        while other < self.entries.len()
            invariant
                other <= self.entries@.len(),
                index < self.entries@.len(),
                distances.covers(self.entries@.len() as int),
                distances.between@[index as int]@.len() == self.entries@.len(),
                least == novelty(*distances, index as int, other as int),
            decreases self.entries@.len() - other,
        {
            let distance = total_key32(distances.between[index][other]);
            if other != index && distance < least {
                least = distance;
            }
            other += 1;
        }
        least
    }

    fn eviction_index(&self, distances: &ProfileDistances) -> (r: Result<usize, LeagueError>)
        requires
            self.wf(),
            distances.covers(self.entries@.len() as int),
        ensures
            match self.eviction(*distances) {
                Some(index) => r == Ok::<usize, LeagueError>(index as usize) && 0 <= index
                    < self.entries@.len() && self.evictable(*distances, index),
                None => r == Err::<usize, LeagueError>(LeagueError::NoEvictablePolicy),
            },
    {
        let strongest = self.strongest_index();
        let diverse = self.most_diverse_index(distances);
        let mut list: Vec<usize> = Vec::new();
        let mut keys: Vec<Vec<i128>> = Vec::new();
        let mut index: usize = 0;
        while index < self.entries.len()
            invariant
                index <= self.entries@.len(),
                distances.covers(self.entries@.len() as int),
                strongest == strongest_of(self.entries@),
                diverse == diverse_of(self.entries@, *distances, self.accepted_index()),
                list@ == self.evictable_list(*distances, index as int),
                keys@.len() == list@.len(),
                forall|i: int|
                    0 <= i < list@.len() ==> {
                        &&& (#[trigger] list@[i]) < self.entries@.len()
                        &&& self.evictable(*distances, list@[i] as int)
                    },
                forall|i: int|
                    0 <= i < list@.len() ==> (#[trigger] keys@[i])@ == self.eviction_key(
                        *distances,
                        list@[i] as int,
                    ),
            decreases self.entries@.len() - index,
        {
            let entry = &self.entries[index];
            let fingerprint = entry.snapshot.fingerprint;
            let settled = self.insertion >= 3 && entry.insertion < self.insertion - 3;
            if fingerprint != self.anchor && fingerprint != self.accepted && index != strongest
                && index != diverse && settled {
                let key = vec![
                    self.profile_novelty(index, distances),
                    total_key64(entry.score),
                    entry.insertion as i128,
                ];
                assert(key@ =~= self.eviction_key(*distances, index as int));
                list.push(index);
                keys.push(key);
            }
            index += 1;
        }
        if list.len() == 0 {
            return Err(LeagueError::NoEvictablePolicy);
        }
        let ghost expected = list@.map_values(
            |i: usize| self.eviction_key(*distances, i as int),
        );
        assert(key_views(keys@) =~= expected);
        let order = stable_order(&keys);
        assert(order@[0] < keys@.len());
        Ok(list[order[0]])
    }

    fn insert(
        &mut self,
        snapshot: PolicySnapshot,
        score: u64,
        profile: CrossPlayProfile,
        make_accepted: bool,
        distances: &ProfileDistances,
    ) -> (r: Result<(), LeagueError>)
        requires
            old(self).wf(),
            distances.covers(old(self).entries@.len() as int),
        ensures
            final(self).wf(),
            match old(self).insert_fault(snapshot.fingerprint, score) {
                Some(error) => r == Err::<(), LeagueError>(error) && *final(self) == *old(self),
                None => r is Ok && old(self).grown_to(
                    *final(self),
                    LeagueEntry {
                        snapshot,
                        score,
                        profile,
                        insertion: (old(self).insertion + 1) as u64,
                    },
                    make_accepted,
                    *distances,
                ),
            },
    {
        if !is_finite64(score) {
            return Err(LeagueError::NonFiniteScore);
        }
        if self.contains(snapshot.fingerprint) {
            return Err(LeagueError::DuplicatePolicy);
        }
        if self.insertion == u64::MAX {
            return Err(LeagueError::InsertionOverflow);
        }
        let ghost before = *self;
        let next: u64 = self.insertion + 1;
        if self.entries.len() == self.capacity {
            proof {
                full_leagues_can_evict(before, *distances);
            }
            match self.eviction_index(distances) {
                Ok(evicted) => {
                    self.entries.remove(evicted);
                },
                Err(error) => {
                    return Err(error);
                },
            }
        }
        assert(self.entries@ =~= before.kept(*distances));
        self.insertion = next;
        if make_accepted {
            self.accepted = snapshot.fingerprint;
        }
        let ghost kept = self.entries@;
        let entry = LeagueEntry { snapshot, score, profile, insertion: next };
        self.entries.push(entry);
        proof {
            lemma_growth_wf(before, *self, entry, make_accepted, *distances);
        }
        Ok(())
    }

    /// Adds a frozen policy to the history.
    pub fn insert_historical(
        &mut self,
        snapshot: PolicySnapshot,
        score: u64,
        profile: CrossPlayProfile,
        distances: &ProfileDistances,
    ) -> (r: Result<(), LeagueError>)
        requires
            old(self).wf(),
            distances.covers(old(self).entries@.len() as int),
        ensures
            final(self).wf(),
            match old(self).insert_fault(snapshot.fingerprint, score) {
                Some(error) => r == Err::<(), LeagueError>(error) && *final(self) == *old(self),
                None => r is Ok && old(self).grown_to(
                    *final(self),
                    LeagueEntry {
                        snapshot,
                        score,
                        profile,
                        insertion: (old(self).insertion + 1) as u64,
                    },
                    false,
                    *distances,
                ),
            },
    {
        self.insert(snapshot, score, profile, false, distances)
    }

    /// Applies promotion evidence; `score` is its combined score as double-precision bits.
    pub fn try_promote(
        &mut self,
        candidate: PolicySnapshot,
        evidence: &LeagueEvaluation,
        score: u64,
        distances: &ProfileDistances,
    ) -> (r: Result<LeaguePromotionDecision, LeagueError>)
        requires
            old(self).wf(),
            distances.covers(old(self).entries@.len() as int),
        ensures
            final(self).wf(),
            r == Ok::<LeaguePromotionDecision, LeagueError>(LeaguePromotionDecision::Accepted)
                <==> final(self).accepted != old(self).accepted,
            r == Ok::<LeaguePromotionDecision, LeagueError>(LeaguePromotionDecision::Accepted)
                ==> final(self).accepted == candidate.fingerprint,
            evidence.wf() && r == Ok::<LeaguePromotionDecision, LeagueError>(
                LeaguePromotionDecision::Accepted,
            ) ==> margin(evidence.pairs@, true) >= 0 && margin(evidence.pairs@, false) >= 0
                && margin(evidence.pairs@, true) + margin(evidence.pairs@, false) > 0,
            if evidence.candidate != candidate.fingerprint || evidence.accepted != old(
                self,
            ).accepted {
                r == Err::<LeaguePromotionDecision, LeagueError>(
                    LeagueError::EvaluationIdentityMismatch,
                ) && *final(self) == *old(self)
            } else if holds(old(self).entries@, candidate.fingerprint) {
                r == Ok::<LeaguePromotionDecision, LeagueError>(
                    LeaguePromotionDecision::Duplicate,
                ) && *final(self) == *old(self)
            } else {
                match old(self).insert_fault(candidate.fingerprint, score) {
                    Some(error) => r == Err::<LeaguePromotionDecision, LeagueError>(error)
                        && *final(self) == *old(self),
                    None => {
                        &&& r == Ok::<LeaguePromotionDecision, LeagueError>(
                            if evidence.passes() {
                                LeaguePromotionDecision::Accepted
                            } else {
                                LeaguePromotionDecision::RejectedPerformance
                            },
                        )
                        &&& old(self).grown_to(
                            *final(self),
                            LeagueEntry {
                                snapshot: candidate,
                                score,
                                profile: evidence.profile,
                                insertion: (old(self).insertion + 1) as u64,
                            },
                            evidence.passes(),
                            *distances,
                        )
                    },
                }
            },
    {
        if evidence.candidate != candidate.fingerprint || evidence.accepted != self.accepted {
            return Err(LeagueError::EvaluationIdentityMismatch);
        }
        if self.contains(candidate.fingerprint) {
            return Ok(LeaguePromotionDecision::Duplicate);
        }
        let promotable = evidence.promotable();
        proof {
            if evidence.wf() {
                promotable_candidates_lose_on_no_side(*evidence);
            }
        }
        match self.insert(candidate, score, evidence.profile, promotable, distances) {
            Ok(()) => {},
            Err(error) => {
                return Err(error);
            },
        }
        if promotable {
            Ok(LeaguePromotionDecision::Accepted)
        } else {
            Ok(LeaguePromotionDecision::RejectedPerformance)
        }
    }
}

/// Insertion numbers of a league fall by at least one per entry from the end.
proof fn lemma_insertion_gap(league: League, index: int)
    requires
        league.wf(),
        0 <= index < league.entries@.len(),
    ensures
        league.entries@[index].insertion + (league.entries@.len() - 1 - index) <= league.insertion,
    decreases league.entries@.len() - index,
{
    if index + 1 < league.entries@.len() {
        lemma_insertion_gap(league, index + 1);
        assert(league.entries@[index].insertion < league.entries@[index + 1].insertion);
    }
}

proof fn lemma_evictable_listed(league: League, distances: ProfileDistances, index: int, count: int)
    requires
        0 <= index < count,
        league.evictable(distances, index),
    ensures
        league.evictable_list(distances, count).len() > 0,
    decreases count,
{
    if index < count - 1 {
        lemma_evictable_listed(league, distances, index, count - 1);
    }
}

/// A full league always holds a policy that no retention class protects.
pub proof fn full_leagues_can_evict(league: League, distances: ProfileDistances)
    requires
        league.wf(),
        league.entries@.len() == league.capacity,
        distances.covers(league.entries@.len() as int),
    ensures
        league.eviction(distances) is Some,
{
    let entries = league.entries@;
    if league.evictable_list(distances, entries.len() as int).len() == 0 {
        let anchor = choose|i: int|
            0 <= i < entries.len() && (#[trigger] entries[i]).snapshot.fingerprint == league.anchor;
        let accepted = choose|i: int|
            0 <= i < entries.len() && (#[trigger] entries[i]).snapshot.fingerprint
                == league.accepted;
        lemma_protected(league, distances, anchor, accepted, 0);
        lemma_protected(league, distances, anchor, accepted, 1);
        lemma_protected(league, distances, anchor, accepted, 2);
        lemma_protected(league, distances, anchor, accepted, 3);
        lemma_protected(league, distances, anchor, accepted, 4);
    }
}

/// An old entry of a full league that cannot leave belongs to one of four retention classes.
proof fn lemma_protected(
    league: League,
    distances: ProfileDistances,
    anchor: int,
    accepted: int,
    index: int,
)
    requires
        league.wf(),
        league.entries@.len() == league.capacity,
        league.evictable_list(distances, league.entries@.len() as int).len() == 0,
        0 <= anchor < league.entries@.len(),
        league.entries@[anchor].snapshot.fingerprint == league.anchor,
        0 <= accepted < league.entries@.len(),
        league.entries@[accepted].snapshot.fingerprint == league.accepted,
        0 <= index < 5,
    ensures
        index == anchor || index == accepted || index == strongest_of(league.entries@) || index
            == diverse_of(league.entries@, distances, league.accepted_index()),
{
    let entries = league.entries@;
    if league.evictable(distances, index) {
        lemma_evictable_listed(league, distances, index, entries.len() as int);
    }
    lemma_insertion_gap(league, index);
    if index < anchor {
        assert(entries[index].snapshot.fingerprint != entries[anchor].snapshot.fingerprint);
    } else if anchor < index {
        assert(entries[anchor].snapshot.fingerprint != entries[index].snapshot.fingerprint);
    }
    if index < accepted {
        assert(entries[index].snapshot.fingerprint != entries[accepted].snapshot.fingerprint);
    } else if accepted < index {
        assert(entries[accepted].snapshot.fingerprint != entries[index].snapshot.fingerprint);
    }
}

/// Eviction chooses a policy that no retention class protects.
pub proof fn eviction_spares_protected_policies(league: League, distances: ProfileDistances)
    requires
        league.wf(),
        league.eviction(distances) is Some,
    ensures
        0 <= league.eviction(distances)->0 < league.entries@.len(),
        league.evictable(distances, league.eviction(distances)->0),
{
    let count = league.entries@.len() as int;
    let list = league.evictable_list(distances, count);
    let keys = list.map_values(|i: usize| league.eviction_key(distances, i as int));
    lemma_list_evictable(league, distances, count);
    let found = stable_order_exists(keys);
    assert(stable_order_of(keys)[0] < keys.len());
    assert(list[stable_order_of(keys)[0] as int] < count);
}

pub proof fn lemma_list_evictable(league: League, distances: ProfileDistances, count: int)
    requires
        0 <= count <= league.entries@.len() <= usize::MAX,
    ensures
        league.evictable_list(distances, count).len() <= count,
        forall|i: int|
            0 <= i < league.evictable_list(distances, count).len() ==> {
                &&& (#[trigger] league.evictable_list(distances, count)[i]) < count
                &&& league.evictable(
                    distances,
                    league.evictable_list(distances, count)[i] as int,
                )
            },
    decreases count,
{
    if count > 0 {
        lemma_list_evictable(league, distances, count - 1);
    }
}

/// A growing league stays well formed.
proof fn lemma_growth_wf(
    before: League,
    after: League,
    entry: LeagueEntry,
    make_accepted: bool,
    distances: ProfileDistances,
)
    requires
        before.wf(),
        before.grown_to(after, entry, make_accepted, distances),
        !holds(before.entries@, entry.snapshot.fingerprint),
        before.entries@.len() == before.capacity ==> before.eviction(distances) is Some,
    ensures
        after.wf(),
{
    let kept = before.kept(distances);
    let full = before.entries@.len() == before.capacity;
    if full {
        eviction_spares_protected_policies(before, distances);
    }
    let gone: int = if full {
        before.eviction(distances)->0
    } else {
        before.entries@.len() as int
    };
    assert forall|i: int| 0 <= i < kept.len() implies #[trigger] kept[i] == before.entries@[if i
        < gone {
        i
    } else {
        i + 1
    }] by {}
    assert forall|fingerprint: u64|
        holds(before.entries@, fingerprint) && (!full
            || before.entries@[gone].snapshot.fingerprint != fingerprint) implies holds(
        after.entries@,
        fingerprint,
    ) by {
        let i = choose|i: int|
            0 <= i < before.entries@.len() && (
            #[trigger] before.entries@[i]).snapshot.fingerprint == fingerprint;
        let place = if i < gone {
            i
        } else {
            i - 1
        };
        assert(after.entries@[place] == before.entries@[i]);
    }
    assert(after.entries@[kept.len() as int] == entry);
    assert forall|i: int, j: int| 0 <= i < j < after.entries@.len() implies {
        &&& (#[trigger] after.entries@[i]).snapshot.fingerprint != (
        #[trigger] after.entries@[j]).snapshot.fingerprint
        &&& after.entries@[i].insertion < after.entries@[j].insertion
    } by {
        let from: int = if i < gone {
            i
        } else {
            i + 1
        };
        assert(after.entries@[i] == kept[i]);
        assert(kept[i] == before.entries@[from]);
        if j < kept.len() {
            let to: int = if j < gone {
                j
            } else {
                j + 1
            };
            assert(after.entries@[j] == kept[j]);
            assert(kept[j] == before.entries@[to]);
        } else {
            assert(before.entries@[from].snapshot.fingerprint != entry.snapshot.fingerprint);
        }
    }
    assert forall|i: int| 0 <= i < after.entries@.len() implies (
    #[trigger] after.entries@[i]).insertion <= after.insertion by {
        if i < kept.len() {
            assert(after.entries@[i] == kept[i]);
        }
    }
}

/// The anchor, the accepted policy, and the strongest one survive every arrival.
pub proof fn retention_classes_survive(
    before: League,
    after: League,
    entry: LeagueEntry,
    make_accepted: bool,
    distances: ProfileDistances,
)
    requires
        before.wf(),
        distances.covers(before.entries@.len() as int),
        before.grown_to(after, entry, make_accepted, distances),
    ensures
        holds(after.entries@, before.anchor),
        holds(after.entries@, before.accepted),
        holds(
            after.entries@,
            before.entries@[strongest_of(before.entries@)].snapshot.fingerprint,
        ),
        forall|i: int|
            0 <= i < before.entries@.len() && (#[trigger] before.entries@[i]).insertion
                + LEAGUE_RECENT_POLICIES > before.insertion ==> holds(
                after.entries@,
                before.entries@[i].snapshot.fingerprint,
            ),
        after.entries@.len() <= after.capacity,
{
    let full = before.entries@.len() == before.capacity;
    if full {
        full_leagues_can_evict(before, distances);
        eviction_spares_protected_policies(before, distances);
    }
    let gone: int = if full {
        before.eviction(distances)->0
    } else {
        before.entries@.len() as int
    };
    let kept = before.kept(distances);
    assert forall|i: int| 0 <= i < before.entries@.len() && i != gone implies holds(
        after.entries@,
        (#[trigger] before.entries@[i]).snapshot.fingerprint,
    ) by {
        let place = if i < gone {
            i
        } else {
            i - 1
        };
        assert(after.entries@[place] == before.entries@[i]);
    }
    let found = stable_order_exists(strength_keys(before.entries@));
    let order = stable_order_of(strength_keys(before.entries@));
    assert(order[order.len() - 1] < strength_keys(before.entries@).len());
    let anchor = choose|i: int|
        0 <= i < before.entries@.len() && (#[trigger] before.entries@[i]).snapshot.fingerprint
            == before.anchor;
    let accepted = choose|i: int|
        0 <= i < before.entries@.len() && (#[trigger] before.entries@[i]).snapshot.fingerprint
            == before.accepted;
}

/// Candidate result in one held-out match.
#[derive(Clone, Copy, Debug, PartialEq, Eq, Structural)]
pub enum LeagueMatchResult {
    Win,
    Loss,
    Draw,
}

impl LeagueMatchResult {
    pub open spec fn score_spec(self) -> int {
        match self {
            LeagueMatchResult::Win => 1,
            LeagueMatchResult::Loss => -1,
            LeagueMatchResult::Draw => 0,
        }
    }

    pub fn score(self) -> (r: i32)
        ensures
            r == self.score_spec(),
            -1 <= r <= 1,
    {
        match self {
            LeagueMatchResult::Win => 1,
            LeagueMatchResult::Loss => -1,
            LeagueMatchResult::Draw => 0,
        }
    }
}

/// One held-out seed played with candidate sides swapped.
#[derive(Clone, Copy, Debug, PartialEq, Eq, Structural)]
pub struct LeaguePairedResult {
    pub seed: u64,
    pub candidate_radiant: LeagueMatchResult,
    pub candidate_dire: LeagueMatchResult,
}

/// Sum of the candidate's results on one side.
pub open spec fn side_score(pairs: Seq<LeaguePairedResult>, radiant: bool) -> int
    decreases pairs.len(),
{
    if pairs.len() == 0 {
        0
    } else {
        side_score(pairs.drop_last(), radiant) + if radiant {
            pairs.last().candidate_radiant.score_spec()
        } else {
            pairs.last().candidate_dire.score_spec()
        }
    }
}

fn sum_side(pairs: &Vec<LeaguePairedResult>, radiant: bool) -> (r: i32)
    requires
        pairs@.len() <= LEAGUE_MAX_PROMOTION_PAIRS,
    ensures
        r == side_score(pairs@, radiant),
        -(pairs@.len() as int) <= r <= pairs@.len(),
{
    let mut total: i32 = 0;
    let mut index: usize = 0;
    assert(pairs@.take(0) =~= Seq::<LeaguePairedResult>::empty());
    while index < pairs.len()
        invariant
            index <= pairs@.len() <= LEAGUE_MAX_PROMOTION_PAIRS,
            total == side_score(pairs@.take(index as int), radiant),
            -(index as int) <= total <= index,
        decreases pairs@.len() - index,
    {
        proof {
            assert(pairs@.take(index + 1).drop_last() =~= pairs@.take(index as int));
            assert(pairs@.take(index + 1).last() == pairs@[index as int]);
        }
        let pair = pairs[index];
        let result = if radiant {
            pair.candidate_radiant.score()
        } else {
            pair.candidate_dire.score()
        };
        total = total + result;
        index += 1;
    }
    assert(pairs@.take(pairs@.len() as int) =~= pairs@);
    total
}

/// Whether rejected actions are below one in a thousand of enough actions.
pub open spec fn rate_allowed(rejected: u64, total: u64, minimum: u64) -> bool {
    total >= minimum && rejected * 1_000 < total
}

fn is_rate_allowed(rejected: u64, total: u64, minimum: u64) -> (r: bool)
    ensures
        r == rate_allowed(rejected, total, minimum),
{
    total >= minimum && (rejected as u128) * 1_000 < total as u128
}

/// Why the seeds of paired results are refused, looking at pairs from an index on.
pub open spec fn seeds_fault_from(
    pairs: Seq<LeaguePairedResult>,
    training: Seq<u64>,
    index: int,
) -> Option<LeagueError>
    decreases pairs.len() - index,
{
    if index < 0 || index >= pairs.len() {
        None
    } else if index > 0 && pairs[index].seed <= pairs[index - 1].seed {
        Some(LeagueError::PromotionSeedsNotIncreasing)
    } else if training.contains(pairs[index].seed) {
        Some(LeagueError::EvaluationSeedInTraining { seed: pairs[index].seed })
    } else {
        seeds_fault_from(pairs, training, index + 1)
    }
}

/// Why the seeds of paired results are refused.
pub open spec fn seeds_fault(pairs: Seq<LeaguePairedResult>, training: Seq<u64>) -> Option<
    LeagueError,
> {
    if training.len() > LEAGUE_MAX_TRAINING_SEEDS {
        Some(LeagueError::TrainingSeedCapacity)
    } else {
        seeds_fault_from(pairs, training, 0)
    }
}

fn contains_seed(list: &Vec<u64>, seed: u64) -> (r: bool)
    ensures
        r == list@.contains(seed),
{
    let mut index: usize = 0;
    while index < list.len()
        invariant
            index <= list@.len(),
            forall|i: int| 0 <= i < index ==> list@[i] != seed,
        decreases list@.len() - index,
    {
        if list[index] == seed {
            assert(list@[index as int] == seed);
            return true;
        }
        index += 1;
    }
    false
}

fn validate_evaluation_seeds(pairs: &Vec<LeaguePairedResult>, training: &Vec<u64>) -> (r: Option<
    LeagueError,
>)
    ensures
        r == seeds_fault(pairs@, training@),
{
    if training.len() > LEAGUE_MAX_TRAINING_SEEDS {
        return Some(LeagueError::TrainingSeedCapacity);
    }
    let mut index: usize = 0;
    while index < pairs.len()
        invariant
            index <= pairs@.len(),
            seeds_fault_from(pairs@, training@, 0) == seeds_fault_from(
                pairs@,
                training@,
                index as int,
            ),
            training@.len() <= LEAGUE_MAX_TRAINING_SEEDS,
        decreases pairs@.len() - index,
    {
        let pair = pairs[index];
        if index > 0 && pair.seed <= pairs[index - 1].seed {
            return Some(LeagueError::PromotionSeedsNotIncreasing);
        }
        if contains_seed(training, pair.seed) {
            return Some(LeagueError::EvaluationSeedInTraining { seed: pair.seed });
        }
        index += 1;
    }
    None
}

/// Evidence from the separate exploit-regression namespace.
#[derive(Clone, Copy, Debug, PartialEq, Eq, Structural)]
pub struct LeagueExploitAudit {
    pub candidate: u64,
    pub accepted: u64,
}

impl LeagueExploitAudit {
    /// Why an exploit audit is refused.
    pub open spec fn fault(
        pairs: Seq<LeaguePairedResult>,
        training: Seq<u64>,
        promotion: Seq<u64>,
        rejected: u64,
        total: u64,
    ) -> Option<LeagueError> {
        if !(LEAGUE_MIN_EXPLOIT_PAIRS <= pairs.len() <= LEAGUE_MAX_EXPLOIT_PAIRS) {
            Some(LeagueError::ExploitPairCount { count: pairs.len() as usize })
        } else if !rate_allowed(rejected, total, LEAGUE_MIN_EXPLOIT_ACTIONS) {
            Some(LeagueError::InvalidRejectionRate)
        } else if seeds_fault(pairs, training) is Some {
            seeds_fault(pairs, training)
        } else if seeds_fault(pairs, promotion) is Some {
            seeds_fault(pairs, promotion)
        } else if side_score(pairs, true) < 0 || side_score(pairs, false) < 0 {
            Some(LeagueError::ExploitRegression)
        } else {
            None
        }
    }

    /// Audits exploit regression on separate seeds.
    pub fn new(
        candidate: u64,
        accepted: u64,
        pairs: &Vec<LeaguePairedResult>,
        training: &Vec<u64>,
        promotion: &Vec<u64>,
        rejected: u64,
        total: u64,
    ) -> (r: Result<Self, LeagueError>)
        ensures
            match LeagueExploitAudit::fault(pairs@, training@, promotion@, rejected, total) {
                Some(error) => r == Err::<LeagueExploitAudit, LeagueError>(error),
                None => r == Ok::<LeagueExploitAudit, LeagueError>(
                    LeagueExploitAudit { candidate, accepted },
                ),
            },
    {
        if pairs.len() < LEAGUE_MIN_EXPLOIT_PAIRS || pairs.len() > LEAGUE_MAX_EXPLOIT_PAIRS {
            return Err(LeagueError::ExploitPairCount { count: pairs.len() });
        }
        if !is_rate_allowed(rejected, total, LEAGUE_MIN_EXPLOIT_ACTIONS) {
            return Err(LeagueError::InvalidRejectionRate);
        }
        match validate_evaluation_seeds(pairs, training) {
            Some(error) => {
                return Err(error);
            },
            None => {},
        }
        match validate_evaluation_seeds(pairs, promotion) {
            Some(error) => {
                return Err(error);
            },
            None => {},
        }
        if sum_side(pairs, true) < 0 || sum_side(pairs, false) < 0 {
            return Err(LeagueError::ExploitRegression);
        }
        Ok(LeagueExploitAudit { candidate, accepted })
    }
}

/// Validated held-out promotion evidence for exact candidate and accepted weights.
#[derive(Debug)]
pub struct LeagueEvaluation {
    pub candidate: u64,
    pub accepted: u64,
    pub pairs: Vec<LeaguePairedResult>,
    pub radiant_score: i32,
    pub dire_score: i32,
    pub rejected_actions: u64,
    pub total_actions: u64,
    pub profile: CrossPlayProfile,
}

impl LeagueEvaluation {
    /// Side scores are those of the pairs.
    pub open spec fn wf(self) -> bool {
        &&& LEAGUE_MIN_PROMOTION_PAIRS <= self.pairs@.len() <= LEAGUE_MAX_PROMOTION_PAIRS
        &&& self.radiant_score == side_score(self.pairs@, true)
        &&& self.dire_score == side_score(self.pairs@, false)
        &&& -512 <= self.radiant_score <= 512
        &&& -512 <= self.dire_score <= 512
    }

    /// Why promotion evidence is refused.
    pub open spec fn fault(
        candidate: u64,
        accepted: u64,
        pairs: Seq<LeaguePairedResult>,
        training: Seq<u64>,
        rejected: u64,
        total: u64,
        audit: LeagueExploitAudit,
    ) -> Option<LeagueError> {
        if !(LEAGUE_MIN_PROMOTION_PAIRS <= pairs.len() <= LEAGUE_MAX_PROMOTION_PAIRS) {
            Some(LeagueError::PromotionPairCount { count: pairs.len() as usize })
        } else if !rate_allowed(rejected, total, LEAGUE_MIN_PROMOTION_ACTIONS) {
            Some(LeagueError::InvalidRejectionRate)
        } else if candidate == accepted {
            Some(LeagueError::CandidateEqualsAccepted)
        } else if audit.candidate != candidate || audit.accepted != accepted {
            Some(LeagueError::ExploitIdentityMismatch)
        } else {
            seeds_fault(pairs, training)
        }
    }

    /// Collects promotion evidence on held-out seeds.
    pub fn new(
        candidate: u64,
        accepted: u64,
        pairs: Vec<LeaguePairedResult>,
        training: &Vec<u64>,
        rejected_actions: u64,
        total_actions: u64,
        profile: CrossPlayProfile,
        audit: LeagueExploitAudit,
    ) -> (r: Result<Self, LeagueError>)
        ensures
            match LeagueEvaluation::fault(
                candidate,
                accepted,
                pairs@,
                training@,
                rejected_actions,
                total_actions,
                audit,
            ) {
                Some(error) => r == Err::<LeagueEvaluation, LeagueError>(error),
                None => r matches Ok(evaluation) && evaluation.wf() && evaluation.candidate
                    == candidate && evaluation.accepted == accepted && evaluation.pairs@ == pairs@
                    && evaluation.rejected_actions == rejected_actions && evaluation.total_actions
                    == total_actions && evaluation.profile == profile,
            },
    {
        if pairs.len() < LEAGUE_MIN_PROMOTION_PAIRS || pairs.len() > LEAGUE_MAX_PROMOTION_PAIRS {
            return Err(LeagueError::PromotionPairCount { count: pairs.len() });
        }
        if !is_rate_allowed(rejected_actions, total_actions, LEAGUE_MIN_PROMOTION_ACTIONS) {
            return Err(LeagueError::InvalidRejectionRate);
        }
        if candidate == accepted {
            return Err(LeagueError::CandidateEqualsAccepted);
        }
        if audit.candidate != candidate || audit.accepted != accepted {
            return Err(LeagueError::ExploitIdentityMismatch);
        }
        match validate_evaluation_seeds(&pairs, training) {
            Some(error) => {
                return Err(error);
            },
            None => {},
        }
        let radiant_score = sum_side(&pairs, true);
        let dire_score = sum_side(&pairs, false);
        Ok(
            LeagueEvaluation {
                candidate,
                accepted,
                pairs,
                radiant_score,
                dire_score,
                rejected_actions,
                total_actions,
                profile,
            },
        )
    }

    pub fn pair_count(&self) -> (r: usize)
        ensures
            r == self.pairs@.len(),
    {
        self.pairs.len()
    }

    /// Combined score as a quotient: wins less losses over matches.
    pub fn score(&self) -> (r: (i32, usize))
        requires
            self.wf(),
        ensures
            r.0 == self.radiant_score + self.dire_score,
            r.1 == 2 * self.pairs@.len(),
            r.1 > 0,
    {
        (self.radiant_score + self.dire_score, 2 * self.pairs.len())
    }

    /// Whether the candidate loses on no side and wins overall.
    pub open spec fn passes(self) -> bool {
        self.radiant_score >= 0 && self.dire_score >= 0 && self.radiant_score + self.dire_score > 0
    }

    /// Whether the candidate loses on no side and wins overall.
    pub fn promotable(&self) -> (r: bool)
        ensures
            r == self.passes(),
    {
        self.radiant_score >= 0 && self.dire_score >= 0 && (self.radiant_score > 0
            || self.dire_score > 0)
    }
}

/// Result of applying valid promotion evidence.
#[derive(Clone, Copy, Debug, PartialEq, Eq, Structural)]
pub enum LeaguePromotionDecision {
    Accepted,
    RejectedPerformance,
    Duplicate,
}

/// Hidden scheduler for weighted opponent and history selection.
#[derive(Clone, Copy, Debug, PartialEq, Eq, Structural)]
pub struct LeagueSampler {
    pub seed: u64,
}

impl LeagueSampler {
    pub fn new(seed: u64) -> (r: Self)
        ensures
            r.seed == seed,
    {
        LeagueSampler { seed }
    }

    /// Opponent of a drawn bucket; a historical bucket draws an entry below the number of
    /// historical draws.
    pub fn sample<'a>(
        &self,
        league: &'a League,
        current: &'a PolicySnapshot,
        bucket: Result<u8, String>,
        draw: impl FnOnce(usize) -> Result<usize, String>,
    ) -> (r: Result<LeagueOpponent<'a>, LeagueError>)
        requires
            league.wf(),
            bucket matches Ok(value) && 55 <= value <= 79 ==> draw.requires(
                (league.draw_count(current.fingerprint) as usize,),
            ),
        ensures
            match bucket {
                Err(message) => r == Err::<LeagueOpponent<'a>, LeagueError>(
                    LeagueError::Rng(message),
                ),
                Ok(value) => if value >= 100 {
                    r == Err::<LeagueOpponent<'a>, LeagueError>(
                        LeagueError::OpponentBucket { bucket: value },
                    )
                } else if !(55 <= value <= 79) {
                    r == Ok::<LeagueOpponent<'a>, LeagueError>(
                        league.bucket_opponent(value, current),
                    )
                } else {
                    exists|drawn: Result<usize, String>|
                        #[trigger] draw.ensures((league.draw_count(current.fingerprint) as usize,), drawn)
                            && match drawn {
                            Err(message) => r == Err::<LeagueOpponent<'a>, LeagueError>(
                                LeagueError::Rng(message),
                            ),
                            Ok(index) => r == Ok::<LeagueOpponent<'a>, LeagueError>(
                                LeagueOpponent {
                                    kind: LeagueOpponentKind::Historical,
                                    snapshot: Some(
                                        &league.entries@[league.historical_choice(
                                            index as int,
                                            current.fingerprint,
                                        )].snapshot,
                                    ),
                                },
                            ),
                        }
                },
            },
    {
        let value = match bucket {
            Ok(value) => value,
            Err(message) => {
                return Err(LeagueError::Rng(message));
            },
        };
        if value < 55 || value > 79 {
            return league.select_bucket(value, current);
        }
        let count = league.historical_count(current.fingerprint);
        match draw(count) {
            Err(message) => Err(LeagueError::Rng(message)),
            Ok(index) => Ok(
                LeagueOpponent {
                    kind: LeagueOpponentKind::Historical,
                    snapshot: Some(&league.historical_at(index, current.fingerprint).snapshot),
                },
            ),
        }
    }
}

} // verus!
