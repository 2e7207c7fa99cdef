//! What scripted lane opponents do, told from the view alone.
use crate::laning::{
    attack_target, can_push, covered, covers, facing_length, facing_vector, first_of, harass_key,
    harass_keys, hero_index, is_root, lemma_root_unique, key_below, last_hit_key, last_hit_keys,
    learn_slot, least, push_key, push_keys, raze_point, raze_slot, raze_victim, razes, reaches,
    LaningProxy, LaningScript,
};
use crate::nearness::{apart, lemma_distance, lemma_near, near};
use crate::scalar::truncated;
use crate::search::{lemma_first_from_found, lemma_first_from_means};
use crate::world::{
    AbilitySlot, AbilityView, EntityId, Order, Target, Team, UnitKind, UnitView, Vec2, WorldView,
};
use vstd::prelude::*;

verus! {

/// Whether the living own hero of a seat stands at a place of the view.
pub open spec fn leads(view: WorldView, slot: u8, h: int) -> bool {
    &&& 0 <= h < view.units@.len()
    &&& view.players@[slot as int].unit == Some(view.units@[h].id)
    &&& view.units@[h].kind == UnitKind::Hero
    &&& view.units@[h].hp > 0
    &&& forall|j: int|
        0 <= j < h ==> (#[trigger] view.units@[j]).id != view.units@[h].id || view.units@[j].kind
            != UnitKind::Hero
}

/// Whether a unit walks a lane.
pub open spec fn walks_a_lane(kind: UnitKind) -> bool {
    ||| kind == UnitKind::CreepMelee
    ||| kind == UnitKind::CreepRanged
    ||| kind == UnitKind::CreepFlagbearer
    ||| kind == UnitKind::CreepSiege
}

/// Whether a living unit of the opposing side, no neutral one, stands at most 1200 from a hero.
pub open spec fn foe_in_sight(hero: UnitView, unit: UnitView) -> bool {
    &&& unit.hp > 0
    &&& unit.team != hero.team
    &&& unit.team != Team::Neutral
    &&& near(hero.pos, unit.pos, 78_643_200)
}

/// Whether a living lane creep of any side can be finished by one attack from where a hero
/// stands: two thirds of the attack damage reach its health, and 50 beyond the attack range
/// reach its place.
pub open spec fn can_finish(hero: UnitView, unit: UnitView) -> bool {
    &&& unit.hp > 0
    &&& walks_a_lane(unit.kind)
    &&& 3 * unit.hp <= 2 * hero.attack_damage
    &&& near(hero.pos, unit.pos, hero.attack_range.raw + 50 * 65_536)
}

/// Whether a tower or fountain guards a unit of its side: 200 beyond its attack range.
pub open spec fn guards(tower: UnitView, unit: UnitView) -> bool {
    &&& tower.kind == UnitKind::Tower || tower.kind == UnitKind::Fountain
    &&& tower.team == unit.team
    &&& near(tower.pos, unit.pos, tower.attack_range.raw + 200 * 65_536)
}

/// Whether an enemy hero in sight can be harassed: no building guards it.
pub open spec fn can_harass(units: Seq<UnitView>, hero: UnitView, unit: UnitView) -> bool {
    &&& unit.kind == UnitKind::Hero
    &&& foe_in_sight(hero, unit)
    &&& forall|k: int| 0 <= k < units.len() ==> !guards(#[trigger] units[k], unit)
}

/// Whether a unit stands nearer to a hero than another, or as near with no greater handle.
pub open spec fn nearer(hero: UnitView, unit: UnitView, other: UnitView) -> bool {
    ||| apart(hero.pos, unit.pos) < apart(hero.pos, other.pos)
    ||| apart(hero.pos, unit.pos) == apart(hero.pos, other.pos) && unit.id.0 <= other.id.0
}

/// Whether a unit has less health than another, or as much with no greater handle.
pub open spec fn weaker(unit: UnitView, other: UnitView) -> bool {
    unit.hp < other.hp || unit.hp == other.hp && unit.id.0 <= other.id.0
}

/// Whether no enemy lane creep in sight of a hero stands nearer than this one.
pub open spec fn nearest_foe_creep(units: Seq<UnitView>, hero: UnitView, t: int) -> bool {
    &&& 0 <= t < units.len()
    &&& foe_in_sight(hero, units[t])
    &&& walks_a_lane(units[t].kind)
    &&& forall|j: int|
        0 <= j < units.len() && foe_in_sight(hero, #[trigger] units[j]) && walks_a_lane(
            units[j].kind,
        ) ==> nearer(hero, units[t], units[j])
}

/// Whether no lane creep that a hero can finish has less health than this one.
pub open spec fn weakest_creep(units: Seq<UnitView>, hero: UnitView, t: int) -> bool {
    &&& 0 <= t < units.len()
    &&& can_finish(hero, units[t])
    &&& forall|j: int|
        0 <= j < units.len() && can_finish(hero, #[trigger] units[j]) ==> weaker(
            units[t],
            units[j],
        )
}

/// Whether no enemy hero that can be harassed stands nearer than this one.
pub open spec fn nearest_foe_hero(units: Seq<UnitView>, hero: UnitView, t: int) -> bool {
    &&& 0 <= t < units.len()
    &&& can_harass(units, hero, units[t])
    &&& forall|j: int|
        0 <= j < units.len() && can_harass(units, hero, #[trigger] units[j]) ==> nearer(
            hero,
            units[t],
            units[j],
        )
}

/// Whether no lane creep of a view can be finished by a hero.
pub open spec fn none_to_finish(units: Seq<UnitView>, hero: UnitView) -> bool {
    forall|j: int| 0 <= j < units.len() ==> !can_finish(hero, #[trigger] units[j])
}

pub proof fn lemma_least(keys: Seq<Option<(i128, u64)>>)
    ensures
        match least(keys) {
            Some(index) => {
                &&& 0 <= index < keys.len()
                &&& keys[index] is Some
                &&& forall|j: int|
                    0 <= j < keys.len() && (#[trigger] keys[j]) is Some ==> !key_below(
                        keys[j]->0,
                        keys[index]->0,
                    )
            },
            None => forall|j: int| 0 <= j < keys.len() ==> (#[trigger] keys[j]) is None,
        },
    decreases keys.len(),
{
    if keys.len() > 0 {
        let rest = keys.drop_last();
        lemma_least(rest);
        assert forall|j: int| 0 <= j < rest.len() implies #[trigger] keys[j] == rest[j] by {}
        assert(forall|j: int| 0 <= j < keys.len() - 1 ==> (#[trigger] keys[j]) == rest[j]);
    }
}

proof fn lemma_hero(script: LaningScript, view: WorldView, h: int)
    requires
        leads(view, script.slot, h),
    ensures
        script.living_hero(view) == Some(view.units@[h]),
{
    let id = view.units@[h].id;
    let test = |unit: UnitView| unit.id == id && unit.kind == UnitKind::Hero;
    lemma_first_from_means(view.units@, test, 0);
    assert(test(view.units@[h]));
    let found = hero_index(view, script.slot);
    assert(found is Some);
    if found->0 < h {
        assert(test(view.units@[found->0]));
    }
}

proof fn lemma_push_keys(units: Seq<UnitView>, hero: UnitView, j: int)
    requires
        0 <= j < units.len(),
    ensures
        push_keys(units, hero).len() == units.len(),
        push_keys(units, hero)[j] == push_key(hero, units[j]),
        push_key(hero, units[j]) is Some <==> foe_in_sight(hero, units[j]) && walks_a_lane(
            units[j].kind,
        ),
        push_key(hero, units[j]) is Some ==> push_key(hero, units[j])->0 == (
            apart(hero.pos, units[j].pos) as i128,
            units[j].id.0,
        ) && apart(hero.pos, units[j].pos) as i128 == apart(hero.pos, units[j].pos),
{
    lemma_distance(hero.pos, units[j].pos);
    lemma_near(hero.pos, units[j].pos, 78_643_200);
}

/// Place of the unit that an issued attack is aimed at.
proof fn lemma_attacked(
    script: LaningScript,
    view: WorldView,
    h: int,
    id: EntityId,
) -> (t: int)
    requires
        leads(view, script.slot, h),
        script.decided(view).1 == Some(Order::Attack { target: Target::Unit(id) }),
    ensures
        attack_target(view.units@, view.units@[h], script.proxy) == Some(t),
        0 <= t < view.units@.len(),
        view.units@[t].id == id,
{
    let units = view.units@;
    let hero = units[h];
    lemma_hero(script, view, h);
    lemma_least(push_keys(units, hero));
    lemma_least(last_hit_keys(units, hero));
    lemma_least(harass_keys(units, hero));
    attack_target(units, hero, script.proxy)->0
}

/// A push script attacks a unit only if that unit lives, walks a lane for the opposing side
/// within 1200 of the own hero, and no other such creep stands nearer; of two equally near ones
/// it takes the one of the smaller handle.
pub proof fn pushes_attack_the_nearest_enemy_creep(
    script: LaningScript,
    view: WorldView,
    h: int,
    id: EntityId,
)
    requires
        leads(view, script.slot, h),
        script.proxy == LaningProxy::LanePush,
        script.decided(view).1 == Some(Order::Attack { target: Target::Unit(id) }),
    ensures
        exists|t: int| #[trigger]
            nearest_foe_creep(view.units@, view.units@[h], t) && view.units@[t].id == id,
{
    let units = view.units@;
    let hero = units[h];
    let t = lemma_attacked(script, view, h, id);
    let keys = push_keys(units, hero);
    lemma_least(keys);
    lemma_push_keys(units, hero, t);
    assert forall|j: int|
        0 <= j < units.len() && foe_in_sight(hero, #[trigger] units[j]) && walks_a_lane(
            units[j].kind,
        ) implies nearer(hero, units[t], units[j]) by {
        lemma_push_keys(units, hero, j);
        assert(keys[j] is Some);
        assert(!key_below(keys[j]->0, keys[t]->0));
    }
    assert(nearest_foe_creep(units, hero, t));
}

/// A push script that attacks toward a point sees no enemy lane creep within 1200, and the point
/// lies 1200 behind the center of the lane, on both axes, away from the own side.
pub proof fn pushes_go_past_the_center_when_no_creep_is_near(
    script: LaningScript,
    view: WorldView,
    h: int,
    goal: Vec2,
    j: int,
)
    requires
        leads(view, script.slot, h),
        script.proxy == LaningProxy::LanePush,
        script.decide_fault(view) is None,
        can_push(view.units@[h], script.center_in(view)->0),
        script.decided(view).1 == Some(Order::Attack { target: Target::Pos(goal) }),
        0 <= j < view.units@.len(),
    ensures
        !(foe_in_sight(view.units@[h], view.units@[j]) && walks_a_lane(view.units@[j].kind)),
        view.units@[h].team == Team::Radiant ==> goal.x.raw == script.center_in(view)->0.x.raw
            + 1_200 * 65_536 && goal.y.raw == script.center_in(view)->0.y.raw + 1_200 * 65_536,
        view.units@[h].team != Team::Radiant ==> goal.x.raw == script.center_in(view)->0.x.raw
            - 1_200 * 65_536 && goal.y.raw == script.center_in(view)->0.y.raw - 1_200 * 65_536,
{
    let units = view.units@;
    let hero = units[h];
    lemma_hero(script, view, h);
    lemma_least(push_keys(units, hero));
    lemma_push_keys(units, hero, j);
    assert(push_keys(units, hero)[j] is None);
}

proof fn lemma_last_hit_keys(units: Seq<UnitView>, hero: UnitView, j: int)
    requires
        0 <= j < units.len(),
    ensures
        last_hit_keys(units, hero).len() == units.len(),
        last_hit_keys(units, hero)[j] == last_hit_key(hero, units[j]),
        last_hit_key(hero, units[j]) is Some <==> can_finish(hero, units[j]),
        last_hit_key(hero, units[j]) is Some ==> last_hit_key(hero, units[j])->0 == (
            units[j].hp as i128,
            units[j].id.0,
        ),
{
    lemma_near(hero.pos, units[j].pos, hero.attack_range.raw + 50 * 65_536);
}

proof fn lemma_covers(tower: UnitView, unit: UnitView)
    ensures
        covers(tower, unit) == guards(tower, unit),
{
    lemma_near(tower.pos, unit.pos, tower.attack_range.raw + 200 * 65_536);
}

proof fn lemma_harass_keys(units: Seq<UnitView>, hero: UnitView, j: int)
    requires
        0 <= j < units.len(),
    ensures
        harass_keys(units, hero).len() == units.len(),
        harass_keys(units, hero)[j] == harass_key(units, hero, units[j]),
        harass_key(units, hero, units[j]) is Some <==> can_harass(units, hero, units[j]),
        harass_key(units, hero, units[j]) is Some ==> harass_key(units, hero, units[j])->0 == (
            apart(hero.pos, units[j].pos) as i128,
            units[j].id.0,
        ) && apart(hero.pos, units[j].pos) as i128 == apart(hero.pos, units[j].pos),
{
    lemma_distance(hero.pos, units[j].pos);
    lemma_near(hero.pos, units[j].pos, 78_643_200);
    assert forall|k: int| 0 <= k < units.len() implies covers(#[trigger] units[k], units[j])
        == guards(units[k], units[j]) by {
        lemma_covers(units[k], units[j]);
    }
    if covered(units, units[j]) {
        let k = choose|k: int| 0 <= k < units.len() && covers(#[trigger] units[k], units[j]);
        assert(guards(units[k], units[j]));
    } else if foe_in_sight(hero, units[j]) && units[j].kind == UnitKind::Hero {
        assert(forall|k: int| 0 <= k < units.len() ==> !covers(#[trigger] units[k], units[j]));
    }
}

/// A script that does not push attacks, where some lane creep can be finished, one that can be
/// and has the least health. Only where none can be does it harass an enemy hero, the nearest
/// that is in sight and that no building guards.
pub proof fn other_scripts_finish_creeps_before_they_harass(
    script: LaningScript,
    view: WorldView,
    h: int,
    id: EntityId,
)
    requires
        leads(view, script.slot, h),
        script.proxy != LaningProxy::LanePush,
        script.decided(view).1 == Some(Order::Attack { target: Target::Unit(id) }),
    ensures
        none_to_finish(view.units@, view.units@[h]) ==> exists|t: int| #[trigger]
            nearest_foe_hero(view.units@, view.units@[h], t) && view.units@[t].id == id,
        !none_to_finish(view.units@, view.units@[h]) ==> exists|t: int| #[trigger]
            weakest_creep(view.units@, view.units@[h], t) && view.units@[t].id == id,
{
    let units = view.units@;
    let hero = units[h];
    let hits = last_hit_keys(units, hero);
    let harms = harass_keys(units, hero);
    let t = lemma_attacked(script, view, h, id);
    lemma_least(hits);
    lemma_least(harms);
    if least(hits) is Some {
        lemma_last_hit_keys(units, hero, t);
        assert forall|j: int|
            0 <= j < units.len() && can_finish(hero, #[trigger] units[j]) implies weaker(
            units[t],
            units[j],
        ) by {
            lemma_last_hit_keys(units, hero, j);
            assert(hits[j] is Some);
            assert(!key_below(hits[j]->0, hits[t]->0));
        }
        assert(weakest_creep(units, hero, t));
        assert(!none_to_finish(units, hero));
    } else {
        assert forall|j: int| 0 <= j < units.len() implies !can_finish(
            hero,
            #[trigger] units[j],
        ) by {
            lemma_last_hit_keys(units, hero, j);
            assert(hits[j] is None);
        }
        lemma_harass_keys(units, hero, t);
        assert forall|j: int|
            0 <= j < units.len() && can_harass(units, hero, #[trigger] units[j]) implies nearer(
            hero,
            units[t],
            units[j],
        ) by {
            lemma_harass_keys(units, hero, j);
            assert(harms[j] is Some);
            assert(!key_below(harms[j]->0, harms[t]->0));
        }
        assert(nearest_foe_hero(units, hero, t));
    }
}

/// A script that does not push and attacks toward a point goes to the center of the lane, and
/// sees neither a lane creep to finish nor an enemy hero to harass.
pub proof fn other_scripts_hold_the_center(
    script: LaningScript,
    view: WorldView,
    h: int,
    goal: Vec2,
    j: int,
)
    requires
        leads(view, script.slot, h),
        script.proxy != LaningProxy::LanePush,
        script.decided(view).1 == Some(Order::Attack { target: Target::Pos(goal) }),
        0 <= j < view.units@.len(),
    ensures
        script.center_in(view) is Some ==> goal == script.center_in(view)->0,
        !can_finish(view.units@[h], view.units@[j]),
        !can_harass(view.units@, view.units@[h], view.units@[j]),
{
    let units = view.units@;
    let hero = units[h];
    lemma_hero(script, view, h);
    lemma_least(last_hit_keys(units, hero));
    lemma_least(harass_keys(units, hero));
    lemma_last_hit_keys(units, hero, j);
    lemma_harass_keys(units, hero, j);
    assert(last_hit_keys(units, hero)[j] is None);
    assert(harass_keys(units, hero)[j] is None);
}

/// A living hero below 55 percent of its health sends the script home, and one at 90 percent or
/// more never does; in between the script goes on as it did.
pub proof fn recovery_lasts_from_half_to_nearly_full_health(
    script: LaningScript,
    view: WorldView,
    h: int,
)
    requires
        leads(view, script.slot, h),
    ensures
        view.units@[h].hp * 100 < view.units@[h].max_hp * 55 && view.units@[h].max_hp >= 0
            ==> script.decided(view).0.recovering,
        view.units@[h].hp * 100 >= view.units@[h].max_hp * 90 && view.units@[h].max_hp >= 0
            ==> !script.decided(view).0.recovering,
        view.units@[h].max_hp * 55 <= view.units@[h].hp * 100 < view.units@[h].max_hp * 90
            ==> script.decided(view).0.recovering == script.recovering,
{
    lemma_hero(script, view, h);
}

/// A recovering script walks to the own fountain, or stays where no own fountain is in view, and
/// gives no other order.
pub proof fn recovering_scripts_walk_home(
    script: LaningScript,
    view: WorldView,
    h: int,
    order: Order,
)
    requires
        leads(view, script.slot, h),
        script.decided(view).0.recovering,
        script.decided(view).1 == Some(order),
    ensures
        order matches Order::Move { target: Target::Pos(goal) } && {
            ||| exists|f: int|
                0 <= f < view.units@.len() && (#[trigger] view.units@[f]).kind
                    == UnitKind::Fountain && view.units@[f].team == view.units@[h].team
                    && view.units@[f].pos == goal
            ||| {
                &&& goal == view.units@[h].pos
                &&& forall|f: int|
                    0 <= f < view.units@.len() ==> (#[trigger] view.units@[f]).kind
                        != UnitKind::Fountain || view.units@[f].team != view.units@[h].team
            }
        },
{
    lemma_hero(script, view, h);
    let team = view.units@[h].team;
    let test = |unit: UnitView| unit.kind == UnitKind::Fountain && unit.team == team;
    lemma_first_from_means(view.units@, test, 0);
    let found = first_of(view.units@, UnitKind::Fountain, team);
    if found is Some {
        let f = found->0;
        assert(test(view.units@[f]));
        assert(view.units@[f].kind == UnitKind::Fountain && view.units@[f].team == team);
    } else {
        assert forall|f: int| 0 <= f < view.units@.len() implies (#[trigger] view.units@[f]).kind
            != UnitKind::Fountain || view.units@[f].team != team by {
            assert(!test(view.units@[f]));
        }
    }
}

/// A hero that does not recover learns before it does anything else: the first ability that can
/// be learned; a script learns nothing that cannot be.
pub proof fn scripts_learn_the_first_open_ability(
    script: LaningScript,
    view: WorldView,
    h: int,
    order: Order,
    a: int,
)
    requires
        leads(view, script.slot, h),
        view.units@[h].abilities@.len() <= 8,
        !script.decided(view).0.recovering,
        script.decided(view).1 == Some(order),
        0 <= a < view.units@[h].abilities@.len(),
    ensures
        view.units@[h].abilities@[a].can_level ==> order is Learn && order->Learn_slot.0 <= a,
        order is Learn ==> order->Learn_slot.0 < view.units@[h].abilities@.len()
            && view.units@[h].abilities@[order->Learn_slot.0 as int].can_level,
{
    lemma_hero(script, view, h);
    let hero = view.units@[h];
    let test = |ability: AbilityView| ability.can_level;
    lemma_first_from_means(hero.abilities@, test, 0);
    let found = learn_slot(hero);
    if hero.abilities@[a].can_level {
        assert(test(hero.abilities@[a]));
        assert(found is Some);
        if a < found->0 {
            assert(!test(hero.abilities@[a]));
        }
    }
    if found is Some {
        assert(test(hero.abilities@[found->0]));
    }
}

/// Before the lane opens a hero with nothing to learn walks to the center of the lane; it
/// neither attacks nor casts.
pub proof fn scripts_wait_at_the_center_before_the_lane_opens(
    script: LaningScript,
    view: WorldView,
    h: int,
    order: Order,
)
    requires
        leads(view, script.slot, h),
        script.center_in(view) is Some,
        !script.decided(view).0.recovering,
        view.tick < script.pregame,
        script.decided(view).1 == Some(order),
    ensures
        order is Learn || order == (Order::Move {
            target: Target::Pos(script.center_in(view)->0),
        }),
{
    lemma_hero(script, view, h);
}

/// Whether a blast of an ability reaches a living hero or lane creep that is not of the own side.
pub open spec fn would_hit(hero: UnitView, ability: AbilityView, unit: UnitView) -> bool {
    &&& unit.hp > 0
    &&& unit.team != hero.team
    &&& unit.kind == UnitKind::Hero || walks_a_lane(unit.kind)
    &&& (raze_point(hero, ability.range).0 - unit.pos.x.raw) * (raze_point(hero, ability.range).0
        - unit.pos.x.raw) + (raze_point(hero, ability.range).1 - unit.pos.y.raw) * (raze_point(
        hero,
        ability.range,
    ).1 - unit.pos.y.raw) <= (180 * 65_536) * (180 * 65_536)
}

/// Only a farming script casts: a blast that is learned, off cooldown, paid for, and would hit
/// an opponent; it names no target.
pub proof fn scripts_cast_only_blasts_that_hit(
    script: LaningScript,
    view: WorldView,
    h: int,
    slot: AbilitySlot,
    target: Target,
)
    requires
        leads(view, script.slot, h),
        view.units@[h].abilities@.len() <= 8,
        script.decided(view).1 == Some(Order::Cast { slot, target }),
    ensures
        script.proxy == LaningProxy::RazeFarm,
        target == Target::Untargeted,
        slot.0 < view.units@[h].abilities@.len(),
        13 <= view.units@[h].abilities@[slot.0 as int].id.0 <= 15,
        view.units@[h].abilities@[slot.0 as int].level > 0,
        view.units@[h].abilities@[slot.0 as int].cooldown_left == 0,
        view.units@[h].mana >= view.units@[h].abilities@[slot.0 as int].mana_cost,
        exists|v: int|
            0 <= v < view.units@.len() && would_hit(
                view.units@[h],
                view.units@[h].abilities@[slot.0 as int],
                #[trigger] view.units@[v],
            ),
{
    lemma_hero(script, view, h);
    let hero = view.units@[h];
    let test = |ability: AbilityView| razes(view, hero, ability);
    lemma_first_from_means(hero.abilities@, test, 0);
    let found = raze_slot(view, hero)->0;
    let ability = hero.abilities@[found];
    assert(test(ability));
    let v = choose|v: int|
        0 <= v < view.units@.len() && raze_victim(hero, #[trigger] view.units@[v], ability.range);
    assert(would_hit(hero, ability, view.units@[v]));
}

/// A farming script attacks only where no blast that it could cast would hit.
pub proof fn farming_scripts_blast_before_they_attack(
    script: LaningScript,
    view: WorldView,
    h: int,
    a: int,
    v: int,
)
    requires
        leads(view, script.slot, h),
        script.proxy == LaningProxy::RazeFarm,
        script.decided(view).1 is Some,
        script.decided(view).1->0 is Attack,
        0 <= a < view.units@[h].abilities@.len(),
        0 <= v < view.units@.len(),
        13 <= view.units@[h].abilities@[a].id.0 <= 15,
        view.units@[h].abilities@[a].level > 0,
        view.units@[h].abilities@[a].cooldown_left == 0,
        view.units@[h].mana >= view.units@[h].abilities@[a].mana_cost,
    ensures
        !would_hit(view.units@[h], view.units@[h].abilities@[a], view.units@[v]),
{
    lemma_hero(script, view, h);
    let hero = view.units@[h];
    let test = |ability: AbilityView| razes(view, hero, ability);
    lemma_first_from_means(hero.abilities@, test, 0);
    let ability = hero.abilities@[a];
    if would_hit(hero, ability, view.units@[v]) {
        assert(raze_victim(hero, view.units@[v], ability.range));
        assert(test(ability));
    }
}

/// A facing points along the first axis at zero, and the half of its turn up to the diagonal
/// mirrors the half above it; a quarter turn turns the vector by a right angle.
pub proof fn facings_turn_counterclockwise(brads: u16)
    ensures
        brads < 8_192 ==> facing_vector(brads) == (8_192int, brads as int),
        0 < brads <= 8_192 ==> facing_vector((16_384 - brads) as u16) == (
            brads as int,
            8_192int,
        ),
        brads < 49_152 ==> facing_vector((brads + 16_384) as u16) == (
            -facing_vector(brads).1,
            facing_vector(brads).0,
        ),
{
}

/// A hero that faces along the first axis blasts straight ahead: as far away as the ability
/// reaches.
pub proof fn blasts_fall_straight_ahead(hero: UnitView, reach: i32)
    requires
        hero.facing.brads == 0,
        reach >= 0,
    ensures
        raze_point(hero, reach) == (
            hero.pos.x.raw + reach * 65_536,
            hero.pos.y.raw as int,
        ),
{
    assert(8_192 * 8_192 + 0 * 0 == 67_108_864);
    assert(is_root(67_108_864, 8_192));
    let chosen = facing_length(0);
    assert(is_root(67_108_864, chosen));
    lemma_root_unique(67_108_864, 8_192, chosen);
    assert(truncated(8_192 * reach, 8_192) == reach);
    assert(truncated(0 * reach, 8_192) == 0);
}

/// Without a living own hero a script gives no order and forgets its last one.
pub proof fn scripts_without_a_hero_wait(script: LaningScript, view: WorldView)
    requires
        forall|j: int|
            0 <= j < view.units@.len() ==> (#[trigger] view.units@[j]).kind != UnitKind::Hero
                || view.units@[j].hp <= 0 || view.players@[script.slot as int].unit != Some(
                view.units@[j].id,
            ),
    ensures
        script.decided(view).1 is None,
        script.decided(view).0.last is None,
        script.decided(view).0.committed_until == 0,
{
    let player = view.players@[script.slot as int];
    if player.unit is Some {
        let id = player.unit->0;
        let test = |unit: UnitView| unit.id == id && unit.kind == UnitKind::Hero;
        lemma_first_from_means(view.units@, test, 0);
        let found = hero_index(view, script.slot);
        if found is Some {
            assert(test(view.units@[found->0]));
        }
    }
}

/// A free script acts: on a tick of its cadence and past its commitment, a living hero gets an
/// order unless the script would only repeat its last move or attack.
pub proof fn free_scripts_act(script: LaningScript, view: WorldView, h: int)
    requires
        leads(view, script.slot, h),
        (view.tick - 1) % 3 == 0,
        view.tick >= script.committed_until || script.decided(view).0.recovering,
    ensures
        script.decided(view).1 is None ==> script.last is Some && (script.last->0 is Move
            || script.last->0 is Attack),
        script.decided(view).1 matches Some(order) ==> (order is Move || order is Attack
            ==> script.last != Some(order)),
        script.decided(view).1 matches Some(order) ==> (!(order is Learn) ==> script.decided(
            view,
        ).0.last == Some(order)),
{
    lemma_hero(script, view, h);
}

/// The center of the lane lies halfway between the first towers of both sides in view, and once
/// found it is kept.
pub proof fn the_center_lies_between_the_towers(
    script: LaningScript,
    view: WorldView,
    r: int,
    d: int,
)
    requires
        script.center is None,
        0 <= r < view.units@.len(),
        0 <= d < view.units@.len(),
        view.units@[r].kind == UnitKind::Tower && view.units@[r].team == Team::Radiant,
        view.units@[d].kind == UnitKind::Tower && view.units@[d].team == Team::Dire,
        forall|j: int|
            0 <= j < r ==> (#[trigger] view.units@[j]).kind != UnitKind::Tower
                || view.units@[j].team != Team::Radiant,
        forall|j: int|
            0 <= j < d ==> (#[trigger] view.units@[j]).kind != UnitKind::Tower
                || view.units@[j].team != Team::Dire,
    ensures
        script.decided(view).0.center is Some,
        -1 <= 2 * script.decided(view).0.center->0.x.raw - (view.units@[r].pos.x.raw
            + view.units@[d].pos.x.raw) <= 1,
        -1 <= 2 * script.decided(view).0.center->0.y.raw - (view.units@[r].pos.y.raw
            + view.units@[d].pos.y.raw) <= 1,
{
    let left = |unit: UnitView| unit.kind == UnitKind::Tower && unit.team == Team::Radiant;
    let right = |unit: UnitView| unit.kind == UnitKind::Tower && unit.team == Team::Dire;
    assert(left(view.units@[r]));
    assert(right(view.units@[d]));
    lemma_first_from_found(view.units@, left, 0, r);
    lemma_first_from_found(view.units@, right, 0, d);
    assert(first_of(view.units@, UnitKind::Tower, Team::Radiant) == Some(r));
    assert(first_of(view.units@, UnitKind::Tower, Team::Dire) == Some(d));
}

/// A script decides on no view of another seat, none that shows the opponent's gold, stash, or
/// kit, and none past the ticks of the cohort.
pub proof fn decided_views_are_fogged(script: LaningScript, view: WorldView)
    requires
        script.slot < 2,
        script.decide_fault(view) is None,
    ensures
        script.slot == 0 ==> view.viewer == Some(Team::Radiant),
        script.slot == 1 ==> view.viewer == Some(Team::Dire),
        view.players@.len() == 2,
        view.players@[0].slot.0 == 0 && view.players@[0].team == Team::Radiant,
        view.players@[1].slot.0 == 1 && view.players@[1].team == Team::Dire,
        view.players@[1 - script.slot].gold is None,
        view.players@[1 - script.slot].stash is None,
        view.players@[1 - script.slot].kit is None,
        1 <= view.tick <= 6_300,
        view.units@.len() <= 4_096,
{
}

} // verus!
