//! What training may see, when it stops, and what the arena tells its seats.
use crate::arena::{
    admitted, pick_of, rejection, shown_events, tick_tail, Command, EventVisibility, MessageView,
    Pick, Request,
};
use crate::behavioral_target::target_fault;
use crate::model::ModelShape;
use crate::pool::{
    appended, held_out_indices, is_train, noted, sample_fault, train_indices, ImitationPool,
    PoolBinding,
};
use crate::promotion::order64;
use crate::sample::{ImitationSample, ImitationSource, SampleIdentity};
use crate::search::lemma_first_from_means;
use crate::seeds::{namespace_ok, occurs_twice, ImitationSplit, SeedNamespace, SeedNamespaces};
use crate::shuffle::{advanced, advanced_by, draws_for, mixed, shuffled, swapped};
use crate::training::{
    batch_count, batch_fault, batch_of, counters_fault, early_config_fault, increment_fault,
    BehavioralTrainer, EarlyStopper, EarlyStoppingConfig,
};
use crate::world::Team;
use vstd::prelude::*;

verus! {

/// A run stops early only under a finite improvement that is not negative and a patience between
/// one and a million evaluations.
pub proof fn early_stopping_is_bounded(config: EarlyStoppingConfig)
    ensures
        early_config_fault(config) is None <==> {
            &&& (config.minimum_improvement as int / 0x10_0000_0000_0000) % 2_048 != 2_047
            &&& order64(config.minimum_improvement) >= 0
            &&& 1 <= config.patience <= 1_000_000
        },
{
}

/// The first score always improves; a later one improves exactly if it is strictly above the
/// best one and the asked improvement, so an equal score never does.
pub proof fn only_higher_scores_improve(stopper: EarlyStopper, score: u64, threshold: u64)
    ensures
        stopper.best_score is None ==> stopper.improves(score, threshold),
        stopper.best_score is Some ==> !stopper.improves(threshold, threshold),
        stopper.best_score is Some && score < threshold < 0x8000_0000_0000_0000
            ==> !stopper.improves(score, threshold),
        stopper.best_score is Some && threshold < score < 0x8000_0000_0000_0000
            ==> stopper.improves(score, threshold),
        stopper.best_score is Some && score > 0x8000_0000_0000_0000 && threshold
            < 0x8000_0000_0000_0000 ==> !stopper.improves(score, threshold),
{
}

/// An evaluation is recorded exactly if its score is finite and its epoch is in bounds and later
/// than the one before.
pub proof fn evaluations_go_forward(stopper: EarlyStopper, epoch: u64, score: u64)
    ensures
        stopper.observation_fault(epoch, score) is None <==> {
            &&& (score as int / 0x10_0000_0000_0000) % 2_048 != 2_047
            &&& epoch <= 1_000_000_000
            &&& stopper.last_evaluation_epoch is Some ==> epoch
                > stopper.last_evaluation_epoch->0
        },
{
}

/// Batches are as few as hold every sample, none larger than asked.
pub proof fn batches_are_as_few_as_possible(samples: nat, batch: nat)
    requires
        batch > 0,
    ensures
        batch_count(samples, batch) * batch >= samples,
        samples > 0 ==> (batch_count(samples, batch) - 1) * batch < samples,
        samples == 0 ==> batch_count(samples, batch) == 0,
{
    let count = (samples + batch - 1) / batch as int;
    assert(count * batch >= samples && (samples > 0 ==> (count - 1) * batch < samples) && count
        >= 0 && (samples == 0 ==> count == 0)) by (nonlinear_arith)
        requires
            batch > 0,
            samples >= 0,
            count == (samples + batch - 1) / batch as int,
    ;
}

/// A batch is a run of the order from its index on, full but for the last.
pub proof fn batches_follow_the_order(order: Seq<usize>, batch: nat, index: nat, k: int)
    requires
        batch > 0,
        index * batch < order.len(),
        0 <= k < batch_of(order, batch, index).len(),
    ensures
        batch_of(order, batch, index).len() <= batch,
        (index + 1) * batch <= order.len() ==> batch_of(order, batch, index).len() == batch,
        batch_of(order, batch, index)[k] == order[index * batch + k],
{
    assert((index + 1) * batch == index * batch + batch) by (nonlinear_arith);
    let start = index * batch;
    assert(start >= 0) by (nonlinear_arith)
        requires
            start == index * batch,
    ;
}

/// A batch fits the model, and a counter its maximum.
pub proof fn training_limits(value: usize, shape: ModelShape, counter: u64, increment: usize)
    ensures
        batch_fault(value, shape) is None <==> 1 <= value <= shape.maximum_batch,
        increment_fault("epoch", counter, increment) is None <==> counter + increment
            <= 1_000_000_000,
{
}

/// A trainer goes on only where its optimizer has made exactly its updates for its own policy,
/// and it has no more epochs than updates.
pub proof fn trainers_agree_with_their_optimizer(trainer: BehavioralTrainer)
    ensures
        counters_fault(trainer) is None <==> {
            &&& trainer.adam.step == trainer.counters.global_update
            &&& trainer.counters.epoch <= trainer.counters.global_update
            &&& trainer.counters.global_update <= 1_000_000_000
            &&& trainer.shuffle.draws <= 1_000_000_000
            &&& trainer.adam.binding.policy == trainer.model_identity
        },
{
}

/// A trainer takes another revision of its pool only if it is the same pool and not an older
/// revision, and trains on exactly the revision that it holds.
pub proof fn trainers_keep_to_their_pool(
    trainer: BehavioralTrainer,
    binding: PoolBinding,
    pool: ImitationPool,
)
    ensures
        trainer.rebind_fault(binding) is None ==> {
            &&& trainer.pool.instance == binding.instance
            &&& trainer.pool.capacity == binding.capacity
            &&& trainer.pool.provenance.lineage == binding.provenance.lineage
            &&& trainer.pool.provenance.revision <= binding.provenance.revision
            &&& trainer.pool.scope == binding.scope
            &&& trainer.pool.seeds.training@ == binding.seeds.training@
            &&& trainer.pool.seeds.validation@ == binding.seeds.validation@
            &&& trainer.pool.seeds.promotion@ == binding.seeds.promotion@
        },
        trainer.pool_fault(pool) is None <==> {
            &&& trainer.pool.instance == pool.binding.instance
            &&& trainer.pool.capacity == pool.binding.capacity
            &&& trainer.pool.provenance == pool.binding.provenance
            &&& trainer.pool.scope == pool.binding.scope
            &&& trainer.pool.seeds.training@ == pool.binding.seeds.training@
            &&& trainer.pool.seeds.validation@ == pool.binding.seeds.validation@
            &&& trainer.pool.seeds.promotion@ == pool.binding.seeds.promotion@
        },
{
}

/// A sample is admitted only if its frame is finite, its label valid, its split that of its
/// namespace, its seed one of that namespace, and, where the learner produced it, it is for
/// training.
pub proof fn admitted_samples_belong_to_their_split(sample: ImitationSample, binding: PoolBinding)
    requires
        sample_fault(sample, binding) is None,
    ensures
        sample.frame.finite(),
        target_fault(sample.target) is None,
        sample.identity.namespace == SeedNamespace::Training <==> sample.split
            == ImitationSplit::Train,
        sample.identity.namespace == SeedNamespace::Validation <==> sample.split
            == ImitationSplit::Validation,
        sample.identity.namespace == SeedNamespace::Promotion <==> sample.split
            == ImitationSplit::HeldOut,
        sample.split == ImitationSplit::Train ==> binding.seeds.training@.contains(
            sample.identity.seed,
        ),
        sample.split == ImitationSplit::Validation ==> binding.seeds.validation@.contains(
            sample.identity.seed,
        ),
        sample.split == ImitationSplit::HeldOut ==> binding.seeds.promotion@.contains(
            sample.identity.seed,
        ),
        sample.source == ImitationSource::Dagger ==> sample.split == ImitationSplit::Train,
{
}

/// Training sees the Train samples of a pool alone, each once and in order, and promotion sees
/// the held-out ones alone.
pub proof fn splits_are_never_mixed(samples: Seq<ImitationSample>, index: usize)
    requires
        samples.len() <= usize::MAX,
    ensures
        train_indices(samples).contains(index) <==> index < samples.len()
            && samples[index as int].split == ImitationSplit::Train,
        held_out_indices(samples).contains(index) <==> index < samples.len()
            && samples[index as int].split == ImitationSplit::HeldOut,
        !(train_indices(samples).contains(index) && held_out_indices(samples).contains(index)),
    decreases samples.len(),
{
    if samples.len() > 0 {
        let rest = samples.drop_last();
        let last = samples.len() - 1;
        splits_are_never_mixed(rest, index);
        let train = train_indices(samples);
        let held = held_out_indices(samples);
        lemma_pushed(train_indices(rest), last as usize, index);
        lemma_pushed(held_out_indices(rest), last as usize, index);
        if index < last {
            assert(rest[index as int] == samples[index as int]);
        }
    }
}

proof fn lemma_pushed<T>(list: Seq<T>, item: T, other: T)
    ensures
        list.push(item).contains(other) <==> list.contains(other) || other == item,
{
    let all = list.push(item);
    if list.contains(other) {
        let k = choose|k: int| 0 <= k < list.len() && list[k] == other;
        assert(all[k] == other);
    }
    assert(all[all.len() - 1] == item);
    if all.contains(other) {
        let k = choose|k: int| 0 <= k < all.len() && all[k] == other;
        if k < list.len() {
            assert(list[k] == other);
        }
    }
}

/// A pool with room keeps everything and adds the sample last; a full one drops exactly its
/// oldest Train sample, and takes nothing if it holds none.
pub proof fn full_pools_drop_their_oldest_train_sample(
    samples: Seq<ImitationSample>,
    capacity: nat,
    sample: ImitationSample,
    t: int,
)
    requires
        samples.len() <= capacity,
        0 <= t < samples.len(),
        samples[t].split == ImitationSplit::Train,
        forall|k: int|
            0 <= k < t ==> (#[trigger] samples[k]).split != ImitationSplit::Train,
    ensures
        samples.len() < capacity ==> appended(samples, capacity, sample) == samples.push(sample),
        samples.len() == capacity ==> appended(samples, capacity, sample) == samples.remove(
            t,
        ).push(sample),
        appended(samples, capacity, sample).last() == sample,
        appended(samples, capacity, sample).len() <= capacity,
{
    lemma_first_from_means(samples, is_train(), 0);
    assert(is_train()(samples[t]));
    let found = crate::search::first_index(samples, is_train());
    assert(found is Some);
    assert(is_train()(samples[found->0]));
    if found->0 < t {
        assert(samples[found->0].split != ImitationSplit::Train);
    }
}

/// The identities that a pool has seen are kept up to 8192, the oldest leaving first.
pub proof fn seen_identities_leave_in_order(seen: Seq<SampleIdentity>, identity: SampleIdentity)
    requires
        seen.len() <= 8_192,
    ensures
        noted(seen, identity).last() == identity,
        noted(seen, identity).len() <= 8_192,
        seen.len() < 8_192 ==> noted(seen, identity) == seen.push(identity),
        seen.len() == 8_192 ==> noted(seen, identity) == seen.drop_first().push(identity),
{
    if seen.len() == 8_192 {
        assert(seen.remove(0) =~= seen.drop_first());
    }
}

/// Namespaces that hold together share no seed and repeat none.
pub proof fn namespaces_share_no_seed(seeds: SeedNamespaces, i: int, j: int)
    requires
        seeds.wf(),
    ensures
        0 <= i < seeds.training@.len() && 0 <= j < seeds.validation@.len()
            ==> seeds.training@[i] != seeds.validation@[j],
        0 <= i < seeds.training@.len() && 0 <= j < seeds.promotion@.len() ==> seeds.training@[i]
            != seeds.promotion@[j],
        0 <= i < seeds.validation@.len() && 0 <= j < seeds.promotion@.len()
            ==> seeds.validation@[i] != seeds.promotion@[j],
        0 <= i < j < seeds.training@.len() ==> seeds.training@[i] < seeds.training@[j],
        0 <= i < j < seeds.validation@.len() ==> seeds.validation@[i] < seeds.validation@[j],
        0 <= i < j < seeds.promotion@.len() ==> seeds.promotion@[i] < seeds.promotion@[j],
{
    if 0 <= i < seeds.training@.len() {
        assert(seeds.training@.contains(seeds.training@[i]));
    }
    if 0 <= i < seeds.validation@.len() {
        assert(seeds.validation@.contains(seeds.validation@[i]));
    }
    if 0 <= j < seeds.validation@.len() {
        assert(seeds.validation@.contains(seeds.validation@[j]));
    }
    if 0 <= j < seeds.promotion@.len() {
        assert(seeds.promotion@.contains(seeds.promotion@[j]));
    }
}

/// A namespace is accepted exactly if it holds at most 8192 seeds, all different.
pub proof fn accepted_namespaces_repeat_no_seed(seeds: Seq<u64>)
    ensures
        namespace_ok(seeds) <==> seeds.len() <= 8_192 && forall|i: int, j: int|
            0 <= i < j < seeds.len() ==> #[trigger] seeds[i] != #[trigger] seeds[j],
{
    if namespace_ok(seeds) {
        assert forall|i: int, j: int| 0 <= i < j < seeds.len() implies #[trigger] seeds[i]
            != #[trigger] seeds[j] by {
            if seeds[i] == seeds[j] {
                assert(occurs_twice(seeds, seeds[i]));
            }
        }
    }
    if forall|i: int, j: int|
        0 <= i < j < seeds.len() ==> #[trigger] seeds[i] != #[trigger] seeds[j] {
        assert forall|seed: u64| !#[trigger] occurs_twice(seeds, seed) by {
            if occurs_twice(seeds, seed) {
                let (i, j) = choose|i: int, j: int|
                    0 <= i < j < seeds.len() && #[trigger] seeds[i] == seed && #[trigger] seeds[j]
                        == seed;
                assert(seeds[i] != seeds[j]);
            }
        }
    }
}

/// A shuffle goes down from the last place: it swaps that place with the drawn one at or below
/// it, and never touches it again; each place below the last takes one draw.
pub proof fn shuffles_settle_from_the_last_place(values: Seq<usize>, state: u64, count: nat)
    requires
        2 <= count <= values.len(),
    ensures
        shuffled(values, state, count).len() == values.len(),
        shuffled(values, state, count)[count - 1] == values[mixed(advanced(state)) as int
            % count as int],
        draws_for(count) == count - 1,
        advanced_by(state, 1) == advanced(state),
    decreases count,
{
    let next = advanced(state);
    let selected = mixed(next) as int % (count as int);
    assert(0 <= selected < count) by (nonlinear_arith)
        requires
            count >= 2,
            selected == mixed(next) as int % (count as int),
    ;
    let after = swapped(values, count - 1, selected);
    assert(after[count - 1] == values[selected]);
    lemma_keeps_above(after, next, (count - 1) as nat, count - 1);
    assert(advanced_by(state, 1) == advanced_by(advanced(state), 0));
}

proof fn lemma_keeps_above(values: Seq<usize>, state: u64, count: nat, at: int)
    requires
        count <= at < values.len(),
    ensures
        shuffled(values, state, count).len() == values.len(),
        shuffled(values, state, count)[at] == values[at],
    decreases count,
{
    if count >= 2 {
        let next = advanced(state);
        let selected = mixed(next) as int % (count as int);
        assert(0 <= selected < count) by (nonlinear_arith)
            requires
                count >= 2,
                selected == mixed(next) as int % (count as int),
        ;
        let after = swapped(values, count - 1, selected);
        assert(after[at] == values[at]);
        lemma_keeps_above(after, next, (count - 1) as nat, at);
    }
}

/// Seats take sides in turn, Radiant first, each under its own number.
pub proof fn seats_take_sides_in_turn(seat: int)
    requires
        0 <= seat < 10,
    ensures
        pick_of(seat).slot.0 == seat,
        pick_of(seat).team == Team::Radiant <==> seat % 2 == 0,
        pick_of(seat).team == Team::Dire <==> seat % 2 == 1,
        pick_of(seat).hero == pick_of(0).hero,
{
}

/// A side sees exactly the events for everyone and those for itself, in their order, and never
/// one for the other side alone.
pub proof fn sides_see_no_event_of_the_other(
    events: Seq<EventVisibility>,
    team: Team,
    count: int,
    index: usize,
)
    requires
        0 <= count <= events.len(),
        events.len() <= usize::MAX,
    ensures
        shown_events(events, team, count).contains(index) <==> index < count && (
        events[index as int] == EventVisibility::Everyone || events[index as int]
            == EventVisibility::OneTeam(team)),
    decreases count,
{
    if count > 0 {
        sides_see_no_event_of_the_other(events, team, count - 1, index);
        lemma_pushed(shown_events(events, team, count - 1), (count - 1) as usize, index);
    }
}

/// A tick ends with a snapshot, then the events that the side sees, if any, then the end of the
/// match, if it ended.
pub proof fn ticks_end_in_order(
    events: Seq<EventVisibility>,
    team: Team,
    victor: Option<Team>,
)
    ensures
        tick_tail(events, team, victor)[0] == MessageView::Snapshot,
        victor is Some ==> tick_tail(events, team, victor).last() == (MessageView::MatchOver {
            winner: victor->0,
        }),
        victor is None && shown_events(events, team, events.len() as int).len() == 0
            ==> tick_tail(events, team, victor).len() == 1,
        shown_events(events, team, events.len() as int).len() > 0 ==> tick_tail(
            events,
            team,
            victor,
        )[1] == (MessageView::Events {
            indices: shown_events(events, team, events.len() as int),
        }),
        tick_tail(events, team, victor).len() == 1 + (if shown_events(
            events,
            team,
            events.len() as int,
        ).len() > 0 {
            1int
        } else {
            0
        }) + (if victor is Some {
            1int
        } else {
            0
        }),
{
}

/// A seat's request becomes a command under the seat's own number exactly if no reason speaks
/// against it; with a reason the seat is told its own sequence number and that reason.
pub proof fn requests_become_commands_of_their_seat(
    picks: Seq<Pick>,
    requests: Seq<Option<Request>>,
    verdicts: Seq<Option<u32>>,
    count: int,
    seat: int,
)
    requires
        0 <= seat < count <= requests.len(),
        requests.len() == verdicts.len() == picks.len(),
    ensures
        requests[seat] is Some && verdicts[seat] is None ==> admitted(
            picks,
            requests,
            verdicts,
            count,
        ).contains(
            Command {
                slot: picks[seat].slot,
                unit: requests[seat]->0.unit,
                order: requests[seat]->0.order,
            },
        ) && rejection(requests[seat], verdicts[seat]) is None,
        requests[seat] is Some && verdicts[seat] is Some ==> rejection(
            requests[seat],
            verdicts[seat],
        ) == Some((requests[seat]->0.seq, verdicts[seat]->0)),
        requests[seat] is None ==> rejection(requests[seat], verdicts[seat]) is None,
        admitted(picks, requests, verdicts, count).len() <= count,
    decreases count,
{
    let all = admitted(picks, requests, verdicts, count);
    let rest = admitted(picks, requests, verdicts, count - 1);
    if seat < count - 1 {
        requests_become_commands_of_their_seat(picks, requests, verdicts, count - 1, seat);
        if requests[seat] is Some && verdicts[seat] is None {
            let command = Command {
                slot: picks[seat].slot,
                unit: requests[seat]->0.unit,
                order: requests[seat]->0.order,
            };
            let k = choose|k: int| 0 <= k < rest.len() && rest[k] == command;
            assert(all[k] == command);
        }
    } else {
        lemma_few(picks, requests, verdicts, count - 1);
        if requests[seat] is Some && verdicts[seat] is None {
            assert(all[all.len() - 1] == (Command {
                slot: picks[seat].slot,
                unit: requests[seat]->0.unit,
                order: requests[seat]->0.order,
            }));
        }
    }
}

proof fn lemma_few(
    picks: Seq<Pick>,
    requests: Seq<Option<Request>>,
    verdicts: Seq<Option<u32>>,
    count: int,
)
    requires
        count >= 0,
    ensures
        admitted(picks, requests, verdicts, count).len() <= count,
    decreases count,
{
    if count > 0 {
        lemma_few(picks, requests, verdicts, count - 1);
    }
}

} // verus!
