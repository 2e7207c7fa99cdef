//! What the league accepts, retains, and plays against, told from results and identities.
use crate::assembly::order32;
use crate::frame::{finite32, finite64};
use crate::league::{
    diverse_of, diversity_keys, entry_of, eviction_spares_protected_policies,
    full_leagues_can_evict, holds, lemma_list_evictable, novelty, seeds_fault, seeds_fault_from,
    side_score, strength_keys, strongest_of, total_order64, within_unit, League, LeagueEntry,
    LeagueEvaluation, LeagueExploitAudit, LeagueMatchResult, LeagueOpponentKind, LeaguePairedResult,
    PolicySnapshot, ProfileDistances,
};
use crate::order::{
    comes_before, lex_less_from, stable_order_covers, stable_order_exists, stable_order_of,
};
use crate::search::lemma_first_from_means;
use vstd::prelude::*;

verus! {

/// Games of a side that ended in a result.
pub open spec fn games(
    pairs: Seq<LeaguePairedResult>,
    radiant: bool,
    result: LeagueMatchResult,
) -> int
    decreases pairs.len(),
{
    if pairs.len() == 0 {
        0
    } else {
        let last = pairs.last();
        let ended = if radiant {
            last.candidate_radiant
        } else {
            last.candidate_dire
        };
        games(pairs.drop_last(), radiant, result) + if ended == result {
            1int
        } else {
            0int
        }
    }
}

/// Wins less losses of one side.
pub open spec fn margin(pairs: Seq<LeaguePairedResult>, radiant: bool) -> int {
    games(pairs, radiant, LeagueMatchResult::Win) - games(pairs, radiant, LeagueMatchResult::Loss)
}

/// The score of a side is its wins less its losses; draws count for nothing, and every game ends
/// in one of the three results.
pub proof fn side_scores_are_wins_less_losses(pairs: Seq<LeaguePairedResult>, radiant: bool)
    ensures
        side_score(pairs, radiant) == margin(pairs, radiant),
        games(pairs, radiant, LeagueMatchResult::Win) + games(
            pairs,
            radiant,
            LeagueMatchResult::Loss,
        ) + games(pairs, radiant, LeagueMatchResult::Draw) == pairs.len(),
        games(pairs, radiant, LeagueMatchResult::Win) >= 0,
        games(pairs, radiant, LeagueMatchResult::Loss) >= 0,
        games(pairs, radiant, LeagueMatchResult::Draw) >= 0,
    decreases pairs.len(),
{
    if pairs.len() > 0 {
        side_scores_are_wins_less_losses(pairs.drop_last(), radiant);
    }
}

/// A candidate is promotable exactly if on neither side its losses exceed its wins, and over
/// both sides its wins exceed its losses.
pub proof fn promotable_candidates_lose_on_no_side(evidence: LeagueEvaluation)
    requires
        evidence.wf(),
    ensures
        evidence.passes() ==> games(evidence.pairs@, true, LeagueMatchResult::Win) >= games(
            evidence.pairs@,
            true,
            LeagueMatchResult::Loss,
        ),
        evidence.passes() ==> games(evidence.pairs@, false, LeagueMatchResult::Win) >= games(
            evidence.pairs@,
            false,
            LeagueMatchResult::Loss,
        ),
        evidence.passes() ==> margin(evidence.pairs@, true) + margin(evidence.pairs@, false) > 0,
        margin(evidence.pairs@, true) >= 0 && margin(evidence.pairs@, false) >= 0 && margin(
            evidence.pairs@,
            true,
        ) + margin(evidence.pairs@, false) > 0 ==> evidence.passes(),
{
    side_scores_are_wins_less_losses(evidence.pairs@, true);
    side_scores_are_wins_less_losses(evidence.pairs@, false);
}

/// Whether a pair's seed is fresh: greater than the one before it, and unknown to training.
spec fn fresh(pairs: Seq<LeaguePairedResult>, training: Seq<u64>, i: int) -> bool {
    (i > 0 ==> pairs[i - 1].seed < pairs[i].seed) && !training.contains(pairs[i].seed)
}

proof fn lemma_seeds(pairs: Seq<LeaguePairedResult>, training: Seq<u64>, start: int)
    requires
        0 <= start,
    ensures
        seeds_fault_from(pairs, training, start) is None <==> forall|i: int|
            start <= i < pairs.len() ==> #[trigger] fresh(pairs, training, i),
    decreases pairs.len() - start,
{
    if start < pairs.len() {
        lemma_seeds(pairs, training, start + 1);
        if fresh(pairs, training, start) {
            assert(seeds_fault_from(pairs, training, start) == seeds_fault_from(
                pairs,
                training,
                start + 1,
            ));
            if seeds_fault_from(pairs, training, start) is None {
                assert forall|i: int| start <= i < pairs.len() implies #[trigger] fresh(
                    pairs,
                    training,
                    i,
                ) by {}
            } else {
                let i = choose|i: int|
                    start + 1 <= i < pairs.len() && !(#[trigger] fresh(pairs, training, i));
                assert(!fresh(pairs, training, i));
            }
        }
    }
}

proof fn lemma_increasing(pairs: Seq<LeaguePairedResult>, training: Seq<u64>, i: int, j: int)
    requires
        forall|k: int| 0 <= k < pairs.len() ==> #[trigger] fresh(pairs, training, k),
        0 <= i < j < pairs.len(),
    ensures
        pairs[i].seed < pairs[j].seed,
    decreases j - i,
{
    assert(fresh(pairs, training, j));
    if i < j - 1 {
        lemma_increasing(pairs, training, i, j - 1);
    }
}

/// Whether pairs were played on distinct seeds, in order, that training never saw.
pub open spec fn held_out(pairs: Seq<LeaguePairedResult>, training: Seq<u64>) -> bool {
    &&& forall|i: int, j: int|
        0 <= i < j < pairs.len() ==> (#[trigger] pairs[i]).seed < (#[trigger] pairs[j]).seed
    &&& forall|i: int, k: int|
        0 <= i < pairs.len() && 0 <= k < training.len() ==> (#[trigger] pairs[i]).seed != (
        #[trigger] training[k])
}

proof fn lemma_held_out(pairs: Seq<LeaguePairedResult>, training: Seq<u64>)
    ensures
        seeds_fault(pairs, training) is None <==> training.len() <= 8_192 && held_out(
            pairs,
            training,
        ),
{
    lemma_seeds(pairs, training, 0);
    if seeds_fault_from(pairs, training, 0) is None {
        assert forall|i: int, j: int| 0 <= i < j < pairs.len() implies (#[trigger] pairs[i]).seed
            < (#[trigger] pairs[j]).seed by {
            lemma_increasing(pairs, training, i, j);
        }
        assert forall|i: int, k: int|
            0 <= i < pairs.len() && 0 <= k < training.len() implies (#[trigger] pairs[i]).seed != (
        #[trigger] training[k]) by {
            assert(fresh(pairs, training, i));
        }
    }
    if held_out(pairs, training) {
        assert forall|i: int| 0 <= i < pairs.len() implies #[trigger] fresh(
            pairs,
            training,
            i,
        ) by {
            if i > 0 {
                let before = i - 1;
                assert(pairs[before].seed < pairs[i].seed);
            }
            if training.contains(pairs[i].seed) {
                let k = choose|k: int| 0 <= k < training.len() && training[k] == pairs[i].seed;
                assert(training[k] == pairs[i].seed);
            }
        }
    }
}

/// Promotion evidence is accepted exactly if it holds 20 to 512 pairs on held-out seeds, at
/// least a thousand actions of which fewer than one in a thousand were rejected, two different
/// policies, and an exploit audit of those two.
pub proof fn accepted_evidence_is_held_out(
    candidate: u64,
    accepted: u64,
    pairs: Seq<LeaguePairedResult>,
    training: Seq<u64>,
    rejected: u64,
    total: u64,
    audit: LeagueExploitAudit,
)
    ensures
        LeagueEvaluation::fault(candidate, accepted, pairs, training, rejected, total, audit)
            is None <==> {
            &&& 20 <= pairs.len() <= 512
            &&& total >= 1_000
            &&& rejected * 1_000 < total
            &&& candidate != accepted
            &&& audit.candidate == candidate
            &&& audit.accepted == accepted
            &&& training.len() <= 8_192
            &&& held_out(pairs, training)
        },
{
    lemma_held_out(pairs, training);
}

/// An exploit audit passes exactly if it holds 2 to 64 pairs on seeds that neither training nor
/// promotion saw, at least a hundred actions of which fewer than one in a thousand were
/// rejected, and on neither side more losses than wins.
pub proof fn passed_audits_regress_on_no_side(
    pairs: Seq<LeaguePairedResult>,
    training: Seq<u64>,
    promotion: Seq<u64>,
    rejected: u64,
    total: u64,
)
    ensures
        LeagueExploitAudit::fault(pairs, training, promotion, rejected, total) is None <==> {
            &&& 2 <= pairs.len() <= 64
            &&& total >= 100
            &&& rejected * 1_000 < total
            &&& training.len() <= 8_192
            &&& promotion.len() <= 8_192
            &&& held_out(pairs, training)
            &&& held_out(pairs, promotion)
            &&& margin(pairs, true) >= 0
            &&& margin(pairs, false) >= 0
        },
{
    lemma_held_out(pairs, training);
    lemma_held_out(pairs, promotion);
    side_scores_are_wins_less_losses(pairs, true);
    side_scores_are_wins_less_losses(pairs, false);
}

/// Of a hundred buckets thirty mirror the current policy, twenty-five play the accepted one,
/// twenty-five one of the history, fifteen the teacher, and five the weak opponent; a mirror
/// plays the current weights, and the accepted bucket plays weights of the accepted fingerprint.
pub proof fn buckets_weigh_the_opponents(league: League, bucket: u8, current: PolicySnapshot)
    requires
        league.wf(),
        bucket < 100,
    ensures
        league.bucket_opponent(bucket, &current).kind == LeagueOpponentKind::CurrentMirror
            <==> bucket < 30,
        league.bucket_opponent(bucket, &current).kind == LeagueOpponentKind::Accepted <==> 30
            <= bucket < 55,
        league.bucket_opponent(bucket, &current).kind == LeagueOpponentKind::Historical <==> 55
            <= bucket < 80,
        league.bucket_opponent(bucket, &current).kind == LeagueOpponentKind::Teacher <==> 80
            <= bucket < 95,
        league.bucket_opponent(bucket, &current).kind == LeagueOpponentKind::Weak <==> 95
            <= bucket,
        league.bucket_opponent(bucket, &current).snapshot is None <==> bucket >= 80,
        bucket < 30 ==> league.bucket_opponent(bucket, &current).snapshot->0 == current,
        30 <= bucket < 55 ==> league.bucket_opponent(bucket, &current).snapshot->0.fingerprint
            == league.accepted,
{
    lemma_accepted(league);
}

proof fn lemma_accepted(league: League)
    requires
        league.wf(),
    ensures
        0 <= league.accepted_index() < league.entries@.len(),
        league.entries@[league.accepted_index()].snapshot.fingerprint == league.accepted,
{
    let fingerprint = league.accepted;
    let test = |entry: LeagueEntry| entry.snapshot.fingerprint == fingerprint;
    lemma_first_from_means(league.entries@, test, 0);
    let i = choose|i: int|
        0 <= i < league.entries@.len() && (#[trigger] league.entries@[i]).snapshot.fingerprint
            == league.accepted;
    assert(test(league.entries@[i]));
    let found = entry_of(league.entries@, fingerprint);
    assert(found is Some);
    assert(test(league.entries@[found->0]));
}

/// Whether a place of the league holds a policy that is neither accepted nor current.
pub open spec fn is_history(league: League, current: u64, place: int) -> bool {
    &&& 0 <= place < league.entries@.len()
    &&& league.entries@[place].snapshot.fingerprint != league.accepted
    &&& league.entries@[place].snapshot.fingerprint != current
}

proof fn lemma_history(league: League, current: u64, count: int)
    requires
        0 <= count <= league.entries@.len(),
    ensures
        league.historical_list(current, count).len() <= count,
        forall|k: int|
            0 <= k < league.historical_list(current, count).len() ==> is_history(
                league,
                current,
                #[trigger] league.historical_list(current, count)[k],
            ) && league.historical_list(current, count)[k] < count,
        forall|k: int, l: int|
            0 <= k < l < league.historical_list(current, count).len()
                ==> #[trigger] league.historical_list(current, count)[k]
                < #[trigger] league.historical_list(current, count)[l],
        forall|place: int| #[trigger]
            is_history(league, current, place) && place < count ==> league.historical_list(
                current,
                count,
            ).contains(place),
    decreases count,
{
    if count > 0 {
        lemma_history(league, current, count - 1);
        let rest = league.historical_list(current, count - 1);
        let list = league.historical_list(current, count);
        assert forall|place: int| #[trigger]
            is_history(league, current, place) && place < count implies list.contains(place) by {
            if place < count - 1 {
                let k = choose|k: int| 0 <= k < rest.len() && rest[k] == place;
                assert(list[k] == place);
            } else {
                assert(list[list.len() - 1] == place);
            }
        }
    }
}

/// A draw from the history gives a policy that is neither accepted nor current, two draws give
/// different ones, and every such policy has its draw; without one the accepted policy is given
/// and there is one draw.
pub proof fn historical_draws_cover_the_history(
    league: League,
    current: u64,
    draw: int,
    other: int,
    place: int,
)
    requires
        league.wf(),
        0 <= draw < other < league.draw_count(current),
        is_history(league, current, place),
    ensures
        is_history(league, current, league.historical_choice(draw, current)),
        is_history(league, current, league.historical_choice(other, current)),
        league.historical_choice(draw, current) < league.historical_choice(other, current),
        exists|k: int|
            0 <= k < league.draw_count(current) && #[trigger] league.historical_choice(k, current)
                == place,
{
    let count = league.entries@.len() as int;
    lemma_history(league, current, count);
    let list = league.historical_list(current, count);
    assert(list.contains(place));
    let k = choose|k: int| 0 <= k < list.len() && list[k] == place;
    assert(league.historical_choice(k, current) == place);
}

/// Any draw gives a place of the league: of the history where there is one and the draw is below
/// its size, and the accepted policy's otherwise.
pub proof fn historical_draws_fall_back_to_the_accepted(league: League, current: u64, draw: int)
    requires
        league.wf(),
        0 <= draw,
    ensures
        is_history(league, current, league.historical_choice(draw, current)) || league.entries@[
            league.historical_choice(draw, current)
        ].snapshot.fingerprint == league.accepted,
        draw < league.draw_count(current) && (exists|place: int|
            #[trigger] is_history(league, current, place)) ==> is_history(
            league,
            current,
            league.historical_choice(draw, current),
        ),
        (forall|place: int| !(#[trigger] is_history(league, current, place)))
            ==> league.draw_count(current) == 1,
{
    let count = league.entries@.len() as int;
    lemma_history(league, current, count);
    lemma_accepted(league);
    let list = league.historical_list(current, count);
    if exists|place: int| #[trigger] is_history(league, current, place) {
        let place = choose|place: int| #[trigger] is_history(league, current, place);
        assert(list.contains(place));
    }
    if list.len() > 0 {
        assert(is_history(league, current, list[0]));
    }
}

proof fn lemma_last(keys: Seq<Seq<i128>>, j: int)
    requires
        0 <= j < keys.len() <= usize::MAX,
    ensures
        stable_order_of(keys).len() == keys.len(),
        stable_order_of(keys).last() < keys.len(),
        j == stable_order_of(keys).last() || comes_before(
            keys,
            j,
            stable_order_of(keys).last() as int,
        ),
{
    let found = stable_order_exists(keys);
    let order = stable_order_of(keys);
    stable_order_covers(keys, order, j as usize);
    let k = choose|k: int| 0 <= k < order.len() && order[k] == j as usize;
    if k < order.len() - 1 {
        assert(comes_before(keys, order[k] as int, order[order.len() - 1] as int));
    }
}

proof fn lemma_first(keys: Seq<Seq<i128>>, j: int)
    requires
        0 <= j < keys.len() <= usize::MAX,
    ensures
        stable_order_of(keys).len() == keys.len(),
        stable_order_of(keys)[0] < keys.len(),
        j == stable_order_of(keys)[0] || comes_before(keys, stable_order_of(keys)[0] as int, j),
{
    let found = stable_order_exists(keys);
    let order = stable_order_of(keys);
    stable_order_covers(keys, order, j as usize);
    let k = choose|k: int| 0 <= k < order.len() && order[k] == j as usize;
    if k > 0 {
        assert(comes_before(keys, order[0] as int, order[k] as int));
    }
}

/// Numbers in the order of their bits: a negative one comes before every other, a greater
/// magnitude first among the negative ones and last among the others.
pub proof fn bits_order_as_their_numbers(left: u64, right: u64)
    ensures
        left < 0x8000_0000_0000_0000 && right < 0x8000_0000_0000_0000 ==> (total_order64(left)
            < total_order64(right) <==> left < right),
        left >= 0x8000_0000_0000_0000 && right >= 0x8000_0000_0000_0000 ==> (total_order64(left)
            < total_order64(right) <==> left > right),
        left >= 0x8000_0000_0000_0000 && right < 0x8000_0000_0000_0000 ==> total_order64(left)
            < total_order64(right),
{
}

/// Single-precision numbers in the order of their bits.
pub proof fn short_bits_order_as_their_numbers(left: u32, right: u32)
    ensures
        left < 0x8000_0000 && right < 0x8000_0000 ==> (order32(left) < order32(right) <==> left
            < right),
        left >= 0x8000_0000 && right >= 0x8000_0000 ==> (order32(left) < order32(right) <==> left
            > right),
        left >= 0x8000_0000 && right < 0x8000_0000 ==> order32(left) < order32(right),
{
}

/// No retained policy has a higher score than the strongest, and of equal scores the strongest
/// arrived last.
pub proof fn no_policy_is_stronger_than_the_strongest(league: League, j: int)
    requires
        league.wf(),
        0 <= j < league.entries@.len(),
    ensures
        0 <= strongest_of(league.entries@) < league.entries@.len(),
        total_order64(league.entries@[j].score) <= total_order64(
            league.entries@[strongest_of(league.entries@)].score,
        ),
        league.entries@[j].score == league.entries@[strongest_of(league.entries@)].score
            ==> league.entries@[j].insertion <= league.entries@[strongest_of(
            league.entries@,
        )].insertion,
{
    let keys = strength_keys(league.entries@);
    lemma_last(keys, j);
    reveal_with_fuel(lex_less_from, 4);
}

/// No retained policy plays farther from the accepted one than the most diverse policy.
pub proof fn no_policy_is_farther_than_the_most_diverse(
    league: League,
    distances: ProfileDistances,
    j: int,
)
    requires
        league.wf(),
        distances.covers(league.entries@.len() as int),
        0 <= j < league.entries@.len(),
    ensures
        0 <= diverse_of(league.entries@, distances, league.accepted_index())
            < league.entries@.len(),
        order32(distances.between@[j]@[league.accepted_index()]) <= order32(
            distances.between@[diverse_of(
                league.entries@,
                distances,
                league.accepted_index(),
            )]@[league.accepted_index()],
        ),
{
    let keys = diversity_keys(league.entries@, distances, league.accepted_index());
    lemma_last(keys, j);
    reveal_with_fuel(lex_less_from, 4);
}

/// The novelty of a policy is its least distance: to the incoming profile or to any other of
/// the league.
pub proof fn novelty_is_the_least_distance(
    distances: ProfileDistances,
    index: int,
    count: int,
    other: int,
)
    requires
        0 <= other < count,
        other != index,
    ensures
        novelty(distances, index, count) <= order32(distances.incoming@[index]),
        novelty(distances, index, count) <= order32(distances.between@[index]@[other]),
        novelty(distances, index, count) == order32(distances.incoming@[index]) || exists|j: int|
            0 <= j < count && j != index && novelty(distances, index, count) == order32(
                #[trigger] distances.between@[index]@[j],
            ),
    decreases count,
{
    lemma_novelty(distances, index, count);
    if other < count - 1 {
        novelty_is_the_least_distance(distances, index, count - 1, other);
    }
}

proof fn lemma_novelty(distances: ProfileDistances, index: int, count: int)
    ensures
        novelty(distances, index, count) <= order32(distances.incoming@[index]),
        novelty(distances, index, count) == order32(distances.incoming@[index]) || exists|j: int|
            0 <= j < count && j != index && novelty(distances, index, count) == order32(
                #[trigger] distances.between@[index]@[j],
            ),
    decreases count,
{
    if count > 0 {
        lemma_novelty(distances, index, count - 1);
        let other = count - 1;
        assert(order32(distances.between@[index]@[other]) == order32(
            distances.between@[index]@[other],
        ));
    }
}

/// Whether a policy may leave: neither the first nor the accepted one, not among the four that
/// arrived last, not the strongest, and not the most diverse.
pub open spec fn may_leave(league: League, distances: ProfileDistances, place: int) -> bool {
    &&& 0 <= place < league.entries@.len()
    &&& league.entries@[place].snapshot.fingerprint != league.anchor
    &&& league.entries@[place].snapshot.fingerprint != league.accepted
    &&& league.entries@[place].insertion <= league.insertion - 4
    &&& place != strongest_of(league.entries@)
    &&& place != diverse_of(league.entries@, distances, league.accepted_index())
}

/// The policy that leaves a full league may leave, and no other that may has less novelty; of
/// equal novelty the one of less score leaves.
pub proof fn the_least_novel_policy_leaves(
    league: League,
    distances: ProfileDistances,
    j: int,
)
    requires
        league.wf(),
        league.entries@.len() == league.capacity,
        distances.covers(league.entries@.len() as int),
        may_leave(league, distances, j),
    ensures
        league.eviction(distances) is Some,
        may_leave(league, distances, league.eviction(distances)->0),
        novelty(distances, league.eviction(distances)->0, league.entries@.len() as int)
            <= novelty(distances, j, league.entries@.len() as int),
        novelty(distances, league.eviction(distances)->0, league.entries@.len() as int) == novelty(
            distances,
            j,
            league.entries@.len() as int,
        ) ==> total_order64(league.entries@[league.eviction(distances)->0].score)
            <= total_order64(league.entries@[j].score),
{
    full_leagues_can_evict(league, distances);
    eviction_spares_protected_policies(league, distances);
    let count = league.entries@.len() as int;
    let list = league.evictable_list(distances, count);
    let keys = list.map_values(|i: usize| league.eviction_key(distances, i as int));
    lemma_list_evictable(league, distances, count);
    lemma_listed(league, distances, j, count);
    let k = choose|k: int| 0 <= k < list.len() && list[k] == j as usize;
    lemma_first(keys, k);
    let gone = league.eviction(distances)->0;
    let g = stable_order_of(keys)[0] as int;
    assert(keys[g] == league.eviction_key(distances, gone));
    assert(keys[k] == league.eviction_key(distances, j));
    lemma_novelty_bound(distances, gone, count);
    lemma_novelty_bound(distances, j, count);
    reveal_with_fuel(lex_less_from, 5);
}

proof fn lemma_novelty_bound(distances: ProfileDistances, index: int, count: int)
    ensures
        novelty(distances, index, count) as i128 == novelty(distances, index, count),
    decreases count,
{
    lemma_novelty(distances, index, count);
}

proof fn lemma_listed(league: League, distances: ProfileDistances, j: int, count: int)
    requires
        0 <= j < count <= usize::MAX,
        league.evictable(distances, j),
    ensures
        league.evictable_list(distances, count).contains(j as usize),
        league.evictable_list(distances, count).len() <= count,
    decreases count,
{
    let list = league.evictable_list(distances, count);
    if j < count - 1 {
        lemma_listed(league, distances, j, count - 1);
        let rest = league.evictable_list(distances, count - 1);
        let k = choose|k: int| 0 <= k < rest.len() && rest[k] == j as usize;
        assert(list[k] == j as usize);
    } else {
        assert(list[list.len() - 1] == j as usize);
        lemma_list_short(league, distances, count);
    }
}

proof fn lemma_list_short(league: League, distances: ProfileDistances, count: int)
    ensures
        league.evictable_list(distances, count).len() <= if count <= 0 {
            0
        } else {
            count
        },
    decreases count,
{
    if count > 0 {
        lemma_list_short(league, distances, count - 1);
    }
}

/// An arrival is kept last under the next number, an arrival into a league with room removes
/// none, and one into a full league removes exactly one; the first policy never changes, and the
/// accepted one only to the arrival.
pub proof fn arrivals_remove_at_most_one_policy(
    before: League,
    after: League,
    entry: LeagueEntry,
    make_accepted: bool,
    distances: ProfileDistances,
    i: int,
)
    requires
        before.wf(),
        distances.covers(before.entries@.len() as int),
        before.grown_to(after, entry, make_accepted, distances),
        0 <= i < before.entries@.len(),
    ensures
        after.entries@.last() == entry,
        entry.insertion == before.insertion + 1,
        after.anchor == before.anchor,
        after.accepted == before.accepted || after.accepted == entry.snapshot.fingerprint,
        !make_accepted ==> after.accepted == before.accepted,
        make_accepted ==> after.accepted == entry.snapshot.fingerprint,
        before.entries@.len() < before.capacity ==> after.entries@.len() == before.entries@.len()
            + 1 && after.entries@[i] == before.entries@[i],
        before.entries@.len() == before.capacity ==> after.entries@.len() == before.entries@.len(),
        before.entries@.len() == before.capacity && i != before.eviction(distances)->0
            ==> after.entries@.contains(before.entries@[i]),
{
    if before.entries@.len() == before.capacity {
        full_leagues_can_evict(before, distances);
        eviction_spares_protected_policies(before, distances);
        let gone = before.eviction(distances)->0;
        if i < gone {
            assert(after.entries@[i] == before.entries@[i]);
        } else if i > gone {
            assert(after.entries@[i - 1] == before.entries@[i]);
        }
    }
}

/// Bits denote a finite number exactly if not every bit of their exponent is set.
pub proof fn finite_bits_have_a_free_exponent(bits: u64, short: u32)
    ensures
        finite64(bits) <==> (bits as int / 0x10_0000_0000_0000) % 2_048 != 2_047,
        finite32(short) <==> (short as int / 0x80_0000) % 256 != 255,
{
}

/// Weights are frozen exactly if there are as many as expected, all finite, under an identity
/// that is not zero.
pub proof fn frozen_weights_are_finite(parameters: Seq<u32>, expected: usize, identity: Option<u64>)
    ensures
        PolicySnapshot::fault(parameters, expected, identity) is None <==> {
            &&& parameters.len() == expected
            &&& forall|i: int|
                0 <= i < parameters.len() ==> (#[trigger] parameters[i] as int / 0x80_0000) % 256
                    != 255
            &&& identity is Some
            &&& identity != Some(0u64)
        },
{
    let test = |bits: u32| !finite32(bits);
    lemma_first_from_means(parameters, test, 0);
    assert forall|i: int| 0 <= i < parameters.len() implies (test(#[trigger] parameters[i]) <==> (
    parameters[i] as int / 0x80_0000) % 256 == 255) by {
        finite_bits_have_a_free_exponent(0, parameters[i]);
    }
}

/// A policy is refused exactly for a score that is not finite, weights that the league holds
/// already, or a spent counter.
pub proof fn refused_arrivals(league: League, fingerprint: u64, score: u64)
    ensures
        league.insert_fault(fingerprint, score) is None <==> {
            &&& (score as int / 0x10_0000_0000_0000) % 2_048 != 2_047
            &&& forall|i: int|
                0 <= i < league.entries@.len() ==> (
                #[trigger] league.entries@[i]).snapshot.fingerprint != fingerprint
            &&& league.insertion < u64::MAX
        },
{
    finite_bits_have_a_free_exponent(score, 0);
    assert(holds(league.entries@, fingerprint) <==> !(forall|i: int|
        0 <= i < league.entries@.len() ==> (#[trigger] league.entries@[i]).snapshot.fingerprint
            != fingerprint));
}

/// Bits lie between minus one and one exactly if those of their magnitude do not exceed the bits
/// of one; neither infinities nor other bits without a number do.
pub proof fn unit_bits_stay_within_one(bits: u32)
    ensures
        within_unit(bits) <==> bits <= 0x3f80_0000 || 0x8000_0000 <= bits <= 0xbf80_0000,
        within_unit(bits) ==> finite32(bits),
{
}

} // verus!
