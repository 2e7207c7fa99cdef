//! What an observed lane stream counts, and for whom.
use crate::laning::{hero_index, key_below, least, LaningError};
use crate::laning_laws::{leads, lemma_least, walks_a_lane};
use crate::laning_observer::{
    cooldown_before, gives_experience, hero_in, near_enemy_creep, nearest_tower, risen, tower_key,
    tower_keys, LaningMessage, LaningMetrics, ObserverView,
};
use crate::nearness::{apart, lemma_distance, lemma_near, near};
use crate::search::lemma_first_from_means;
use crate::tracker::ObservedKind;
use crate::world::{
    AbilityId, AbilityView, DamageKind, EntityId, Team, UnitKind, UnitView, Vec2, WorldView,
};
use vstd::prelude::*;

verus! {

/// Whether every count of the metrics has room for one more event.
pub open spec fn has_room(m: LaningMetrics) -> bool {
    &&& m.hero_damage < 0x8000_0000_0000_0000
    &&& m.hero_magical_damage < 0x8000_0000_0000_0000
    &&& m.hero_damage_taken < 0x8000_0000_0000_0000
    &&& m.hero_physical_hits < u32::MAX
    &&& m.hero_magical_hits < u32::MAX
    &&& m.unit_physical_hits < u32::MAX
    &&& m.confirmed_casts < u32::MAX
    &&& m.phase_ticks < u32::MAX
    &&& m.phase_alive_ticks < u32::MAX
    &&& m.phase_xp_ticks < u32::MAX
    &&& m.healthy_behind_tower_ticks < u32::MAX
    &&& m.rejections < u32::MAX
}

/// Seat whose hero an entity is or was.
pub open spec fn seat(observer: ObserverView, id: EntityId, slot: u8) -> bool {
    observer.heroes.dom().contains(id.0) && observer.heroes[id.0] == slot
}

/// Whether an entity is or was some seat's hero.
pub open spec fn is_hero(observer: ObserverView, id: EntityId) -> bool {
    observer.heroes.dom().contains(id.0)
}

/// A hit of the own hero on another hero counts its amount as damage dealt and nothing as damage
/// taken; a magical one also as magical damage, a physical one as a physical hit.
pub proof fn own_hits_on_heroes_count_as_damage_dealt(
    observer: ObserverView,
    tick: u32,
    source: EntityId,
    target: EntityId,
    amount: i32,
    kind: DamageKind,
    crit: bool,
)
    requires
        has_room(observer.metrics),
        amount > 0,
        seat(observer, source, observer.slot),
        is_hero(observer, target),
        !seat(observer, target, observer.slot),
    ensures
        ({
            let event = ObservedKind::Damaged { source: Some(source), target, amount, kind, crit };
            let before = observer.metrics;
            let after = observer.after_event(tick, event).metrics;
            &&& after.hero_damage == before.hero_damage + amount
            &&& after.hero_damage_taken == before.hero_damage_taken
            &&& after.hero_magical_damage == before.hero_magical_damage + (if kind
                == DamageKind::Magical {
                amount as int
            } else {
                0
            })
            &&& after.hero_physical_hits == before.hero_physical_hits + (if kind
                == DamageKind::Physical {
                1int
            } else {
                0
            })
            &&& after.hero_magical_hits == before.hero_magical_hits + (if kind
                == DamageKind::Magical {
                1int
            } else {
                0
            })
            &&& after.unit_physical_hits == before.unit_physical_hits + (if kind
                == DamageKind::Physical {
                1int
            } else {
                0
            })
            &&& after.confirmed_casts == before.confirmed_casts
            &&& observer.after_event(tick, event).last_damage == observer.last_damage
        }),
{
}

/// A hit of another hero on the own hero counts its amount as damage taken alone, and its tick
/// as that of the last damage.
pub proof fn hits_on_the_own_hero_count_as_damage_taken(
    observer: ObserverView,
    tick: u32,
    source: EntityId,
    target: EntityId,
    amount: i32,
    kind: DamageKind,
    crit: bool,
)
    requires
        has_room(observer.metrics),
        amount > 0,
        is_hero(observer, source),
        !seat(observer, source, observer.slot),
        seat(observer, target, observer.slot),
    ensures
        ({
            let event = ObservedKind::Damaged { source: Some(source), target, amount, kind, crit };
            let before = observer.metrics;
            let after = observer.after_event(tick, event).metrics;
            &&& after.hero_damage_taken == before.hero_damage_taken + amount
            &&& after.hero_damage == before.hero_damage
            &&& after.hero_magical_damage == before.hero_magical_damage
            &&& after.hero_physical_hits == before.hero_physical_hits
            &&& after.hero_magical_hits == before.hero_magical_hits
            &&& after.unit_physical_hits == before.unit_physical_hits
            &&& observer.after_event(tick, event).last_damage == Some(tick)
        }),
{
}

/// A hit of the own hero on a unit that is no hero counts as a physical hit if it is physical,
/// and as no hero damage; hits between others, and hits of no amount, count for nothing.
pub proof fn other_hits_are_no_hero_damage(
    observer: ObserverView,
    tick: u32,
    source: Option<EntityId>,
    target: EntityId,
    amount: i32,
    kind: DamageKind,
    crit: bool,
)
    requires
        has_room(observer.metrics),
        !is_hero(observer, target) || source is None || amount <= 0 || (!seat(
            observer,
            source->0,
            observer.slot,
        ) && !seat(observer, target, observer.slot)) || (seat(observer, source->0, observer.slot)
            && seat(observer, target, observer.slot)),
    ensures
        ({
            let event = ObservedKind::Damaged { source, target, amount, kind, crit };
            let before = observer.metrics;
            let after = observer.after_event(tick, event).metrics;
            &&& after.hero_damage == before.hero_damage
            &&& after.hero_magical_damage == before.hero_magical_damage
            &&& after.hero_damage_taken == before.hero_damage_taken
            &&& after.hero_physical_hits == before.hero_physical_hits
            &&& after.hero_magical_hits == before.hero_magical_hits
            &&& after.unit_physical_hits == before.unit_physical_hits + (if amount > 0 && kind
                == DamageKind::Physical && source is Some && seat(
                observer,
                source->0,
                observer.slot,
            ) && !seat(observer, target, observer.slot) {
                1int
            } else {
                0
            })
        }),
{
}

/// A cast is confirmed exactly if the own hero made it and the cooldown of that ability rose
/// with this snapshot; each rise confirms one cast.
pub proof fn casts_are_confirmed_by_cooldowns(
    observer: ObserverView,
    tick: u32,
    caster: EntityId,
    ability: AbilityId,
)
    requires
        has_room(observer.metrics),
    ensures
        ({
            let event = ObservedKind::AbilityCast { caster, ability };
            let after = observer.after_event(tick, event);
            if seat(observer, caster, observer.slot) && observer.resets.contains(ability) {
                &&& after.metrics.confirmed_casts == observer.metrics.confirmed_casts + 1
                &&& after.resets.len() == observer.resets.len() - 1
            } else {
                after == observer
            }
        }),
{
    let test = |id: AbilityId| id == ability;
    lemma_first_from_means(observer.resets, test, 0);
    let found = crate::search::first_index(observer.resets, test);
    if found is Some {
        assert(test(observer.resets[found->0]));
        assert(observer.resets.contains(ability));
    }
    if observer.resets.contains(ability) {
        let i = choose|i: int| 0 <= i < observer.resets.len() && observer.resets[i] == ability;
        assert(test(observer.resets[i]));
    }
}

/// An ability's cooldown rose exactly if it is active and longer than before; an ability that
/// was not there had none.
pub proof fn risen_cooldowns_are_longer(
    abilities: Seq<AbilityView>,
    previous: Option<UnitView>,
    id: AbilityId,
)
    ensures
        risen(abilities, previous).contains(id) <==> exists|i: int|
            0 <= i < abilities.len() && (#[trigger] abilities[i]).id == id && !abilities[i].passive
                && abilities[i].cooldown_left > cooldown_before(previous, id),
        previous is None ==> cooldown_before(previous, id) == 0,
    decreases abilities.len(),
{
    if abilities.len() > 0 {
        let rest = abilities.drop_last();
        let last = abilities.len() - 1;
        risen_cooldowns_are_longer(rest, previous, id);
        let before = risen(rest, previous);
        let all = risen(abilities, previous);
        if all.contains(id) {
            let k = choose|k: int| 0 <= k < all.len() && all[k] == id;
            if k < before.len() {
                assert(before[k] == id);
                assert(before.contains(id));
                let i = choose|i: int|
                    0 <= i < rest.len() && (#[trigger] rest[i]).id == id && !rest[i].passive
                        && rest[i].cooldown_left > cooldown_before(previous, id);
                assert(abilities[i] == rest[i]);
            } else {
                assert(abilities[last].id == id);
            }
        }
        if exists|i: int|
            0 <= i < abilities.len() && (#[trigger] abilities[i]).id == id && !abilities[i].passive
                && abilities[i].cooldown_left > cooldown_before(previous, id) {
            let i = choose|i: int|
                0 <= i < abilities.len() && (#[trigger] abilities[i]).id == id
                    && !abilities[i].passive && abilities[i].cooldown_left > cooldown_before(
                    previous,
                    id,
                );
            if i < last {
                assert(rest[i] == abilities[i]);
                assert(before.contains(id));
                let k = choose|k: int| 0 <= k < before.len() && before[k] == id;
                assert(all[k] == id);
            } else {
                assert(all[all.len() - 1] == id);
            }
        }
    }
}

/// Rejections and the end of the match are noted and change nothing else.
pub proof fn rejections_and_winners_are_noted(observer: ObserverView, winner: Team)
    requires
        has_room(observer.metrics),
    ensures
        observer.after(LaningMessage::OrderRejected).1 is None,
        observer.after(LaningMessage::OrderRejected).0.metrics.rejections
            == observer.metrics.rejections + 1,
        observer.after(LaningMessage::OrderRejected).0.metrics.hero_damage
            == observer.metrics.hero_damage,
        observer.after(LaningMessage::MatchOver { winner }).0.metrics.winner == Some(winner),
        observer.after(LaningMessage::MatchOver { winner }).0.metrics.rejections
            == observer.metrics.rejections,
        observer.after(LaningMessage::Other).0 == observer,
{
}

/// A completed snapshot takes last hits, denies, and deaths from the own row of the scoreboard,
/// and counts its tick toward the laning phase exactly from tick 3000 to tick 6000, as one alive
/// exactly if the own hero lives.
pub proof fn samples_count_the_laning_phase(observer: ObserverView, view: WorldView)
    requires
        has_room(observer.metrics),
        observer.view == Some(view),
        observer.slot < 2,
    ensures
        observer.sampled().metrics.last_hits == view.players@[observer.slot as int].last_hits,
        observer.sampled().metrics.denies == view.players@[observer.slot as int].denies,
        observer.sampled().metrics.deaths == view.players@[observer.slot as int].deaths,
        observer.sampled().metrics.phase_ticks == observer.metrics.phase_ticks + (if 3_000
            <= view.tick <= 6_000 {
            1int
        } else {
            0
        }),
        observer.sampled().metrics.phase_alive_ticks == observer.metrics.phase_alive_ticks + (if
        3_000 <= view.tick <= 6_000 && (exists|h: int| leads(view, observer.slot, h)) {
            1int
        } else {
            0
        }),
{
    lemma_leader(observer, view);
}

proof fn lemma_leader(observer: ObserverView, view: WorldView)
    requires
        observer.view == Some(view),
    ensures
        (hero_in(observer.view, observer.slot) matches Some(hero) && hero.hp > 0) <==> exists|
            h: int,
        | leads(view, observer.slot, h),
        forall|h: int|
            leads(view, observer.slot, h) ==> hero_in(observer.view, observer.slot) == Some(
                #[trigger] view.units@[h],
            ),
{
    let player = view.players@[observer.slot as int];
    if player.unit is Some {
        let id = player.unit->0;
        let test = |unit: UnitView| unit.id == id && unit.kind == UnitKind::Hero;
        lemma_first_from_means(view.units@, test, 0);
        let found = hero_index(view, observer.slot);
        if found is Some {
            let f = found->0;
            assert(test(view.units@[f]));
            if view.units@[f].hp > 0 {
                assert forall|j: int| 0 <= j < f implies (#[trigger] view.units@[j]).id
                    != view.units@[f].id || view.units@[j].kind != UnitKind::Hero by {
                    assert(!test(view.units@[j]));
                }
                assert(leads(view, observer.slot, f));
            }
        }
        assert forall|h: int| leads(view, observer.slot, h) implies hero_in(
            observer.view,
            observer.slot,
        ) == Some(#[trigger] view.units@[h]) by {
            assert(test(view.units@[h]));
            assert(found is Some);
            if found->0 < h {
                assert(test(view.units@[found->0]));
            }
        }
        if exists|h: int| leads(view, observer.slot, h) {
            let h = choose|h: int| leads(view, observer.slot, h);
            assert(hero_in(observer.view, observer.slot) == Some(view.units@[h]));
        }
    }
}

/// A living hero in the laning phase gains a tick of experience exactly if a living enemy lane
/// creep stands within 1500, and a tick behind its tower exactly if it stands more than 300
/// behind it with at least 60 percent of its health and 90 quiet ticks. The first tick within
/// 1500 of the center is kept.
pub proof fn samples_tell_where_the_hero_plays(observer: ObserverView, view: WorldView, h: int)
    requires
        has_room(observer.metrics),
        observer.view == Some(view),
        observer.center is Some,
        leads(view, observer.slot, h),
        3_000 <= view.tick <= 6_000,
    ensures
        observer.sampled().metrics.phase_xp_ticks == observer.metrics.phase_xp_ticks + (if exists|
            c: int,
        |
            0 <= c < view.units@.len() && (#[trigger] view.units@[c]).hp > 0 && walks_a_lane(
                view.units@[c].kind,
            ) && view.units@[c].team != view.units@[h].team && near(
                view.units@[h].pos,
                view.units@[c].pos,
                98_304_000,
            ) {
            1int
        } else {
            0
        }),
        observer.metrics.first_center_tick is Some
            ==> observer.sampled().metrics.first_center_tick == observer.metrics.first_center_tick,
        observer.metrics.first_center_tick is None ==> observer.sampled().metrics.first_center_tick
            == (if near(view.units@[h].pos, observer.center->0, 98_304_000) {
            Some(view.tick)
        } else {
            None
        }),
        observer.sampled().metrics.healthy_behind_tower_ticks
            == observer.metrics.healthy_behind_tower_ticks + (if observer.tower is Some && (if
        view.units@[h].team == Team::Radiant {
            (observer.tower->0.x.raw + observer.tower->0.y.raw) - (view.units@[h].pos.x.raw
                + view.units@[h].pos.y.raw) > 300 * 65_536
        } else {
            (view.units@[h].pos.x.raw + view.units@[h].pos.y.raw) - (observer.tower->0.x.raw
                + observer.tower->0.y.raw) > 300 * 65_536
        }) && view.units@[h].hp * 100 >= view.units@[h].max_hp * 60 && (observer.last_damage
            is Some ==> view.tick - observer.last_damage->0 > 90) {
            1int
        } else {
            0
        }),
{
    lemma_leader(observer, view);
    let hero = view.units@[h];
    lemma_near(hero.pos, observer.center->0, 98_304_000);
    assert forall|c: int| 0 <= c < view.units@.len() implies gives_experience(
        hero,
        #[trigger] view.units@[c],
    ) == (view.units@[c].hp > 0 && walks_a_lane(view.units@[c].kind) && view.units@[c].team
        != hero.team && near(hero.pos, view.units@[c].pos, 98_304_000)) by {
        lemma_near(hero.pos, view.units@[c].pos, 98_304_000);
    }
    if near_enemy_creep(view, hero) {
        let c = choose|c: int|
            0 <= c < view.units@.len() && gives_experience(hero, #[trigger] view.units@[c]);
        assert(view.units@[c].hp > 0);
    }
}

/// The tower of an observer is one of its viewer, and none of those stands nearer to the center.
pub proof fn the_tower_is_the_nearest_own(view: WorldView, center: Vec2, place: Vec2, j: int)
    requires
        nearest_tower(view, center) == Some(place),
        0 <= j < view.units@.len(),
        view.units@[j].kind == UnitKind::Tower && Some(view.units@[j].team) == view.viewer,
    ensures
        apart(center, place) <= apart(center, view.units@[j].pos),
        exists|t: int|
            0 <= t < view.units@.len() && (#[trigger] view.units@[t]).pos == place
                && view.units@[t].kind == UnitKind::Tower && Some(view.units@[t].team)
                == view.viewer,
{
    let keys = tower_keys(view, center);
    lemma_least(keys);
    let t = least(keys)->0;
    lemma_distance(center, view.units@[t].pos);
    lemma_distance(center, view.units@[j].pos);
    assert(keys[t] == tower_key(view, center, view.units@[t]));
    assert(keys[j] == tower_key(view, center, view.units@[j]));
    assert(keys[j] is Some);
    assert(!key_below(keys[j]->0, keys[t]->0));
    assert(view.units@[t].pos == place);
}

/// Snapshots and their events alternate: a snapshot is refused while events are due or if its
/// tick is not later, and events are refused unless their snapshot waits for them; a refused
/// message counts nothing.
pub proof fn snapshots_and_events_alternate(
    observer: ObserverView,
    view: WorldView,
    tick: u32,
    events: Vec<ObservedKind>,
)
    ensures
        observer.after(LaningMessage::Snapshot { view }).0.metrics == observer.metrics,
        observer.pending ==> observer.after(LaningMessage::Snapshot { view }).1 is Some,
        observer.view is Some && view.tick <= observer.view->0.tick ==> observer.after(
            LaningMessage::Snapshot { view },
        ).1 is Some,
        observer.after(LaningMessage::Snapshot { view }).1 is None ==> observer.after(
            LaningMessage::Snapshot { view },
        ).0.pending,
        !observer.pending ==> observer.after(LaningMessage::Events { tick, events }) == (
            observer,
            Some(LaningError::EventsOrder),
        ),
        observer.view is Some && observer.view->0.tick != tick ==> observer.after(
            LaningMessage::Events { tick, events },
        ) == (observer, Some(LaningError::EventsOrder)),
        events@.len() > 4_096 ==> observer.after(LaningMessage::Events { tick, events }).1
            is Some,
        observer.after(LaningMessage::Events { tick, events }).1 is None ==> !observer.after(
            LaningMessage::Events { tick, events },
        ).0.pending,
{
}

} // verus!
