//! What ability, item, point, projectile, and ground-item tokens and the global scalars tell.
use crate::action::{ControlledUnit, PointCandidate};
use crate::events::{is_attack, is_cast, is_damage, latest_attack, latest_cast, latest_damage};
use crate::feature_laws::{axis_gap, is_flag, is_part, is_signed, seen_from};
use crate::global_features::{
    decision_rows, global_row, history_age, history_rows, lead_row, seat_damage,
};
use crate::item_features::{
    ability_rows, ability_table, asset_value, item_rows, item_table, value_of,
};
use crate::local_policy::LocalPolicyState;
use crate::map_context::MapContext;
use crate::observation::{LootObservation, ProjectileObservation};
use crate::scalar::{
    ability_category, aim_category, attribute_category, category_of, facing_of, item_category,
    truncated, Scalar,
};
use crate::search::{entry, last_match, lemma_first_from_means, tally};
use crate::shop::entry_index;
use crate::space::ActionSpace;
use crate::tracker::{GlobalSummary, ItemReadiness, ObservedEvent, ObservedKind, StateTracker};
use crate::world::{
    AbilityId, Aim, Attribute, EntityId, ItemId, ItemSlot, ItemView, LootView, PlayerView,
    ProjectileView, ShopEntry, Team, UnitView, Vec2,
};
use vstd::prelude::*;

verus! {

/// Categories count from one; named abilities come first, then every other by its number.
pub proof fn categories_name_abilities_items_and_aims(ability: AbilityId, item: ItemId)
    ensures
        8 <= ability.0 <= 18 ==> ability_category(ability) == Scalar::Category(
            (ability.0 - 7) as u32,
        ),
        ability.0 < 8 || ability.0 > 18 ==> ability_category(ability) == Scalar::Category(
            (ability.0 + 12) as u32,
        ),
        item_category(item) == Scalar::Category((item.0 + 1) as u32),
        aim_category(Aim::Own) == Scalar::Category(1),
        aim_category(Aim::Point) == Scalar::Category(2),
        aim_category(Aim::Unit) == Scalar::Category(3),
        aim_category(Aim::Tree) == Scalar::Category(4),
        aim_category(Aim::Building) == Scalar::Category(5),
        attribute_category(Attribute::Strength) == Scalar::Category(1),
        attribute_category(Attribute::Agility) == Scalar::Category(2),
        attribute_category(Attribute::Intelligence) == Scalar::Category(3),
{
}

/// The token of a hero's ability tells its level, cooldown, cost, range, and aim, whether it is
/// passive, on, or can be learned, and whether some cast of it is legal now.
pub proof fn ability_tokens_tell_the_ability(
    tracker: StateTracker,
    space: ActionSpace,
    hero: UnitView,
    slot: int,
)
    requires
        tracker.hero_spec() == Some(hero),
        0 <= slot < 6,
        slot < hero.abilities@.len(),
    ensures
        ability_rows(tracker, space).len() == 14,
        ability_rows(tracker, space)[slot].len() == 24,
        ability_rows(tracker, space)[slot][0] == Scalar::One,
        ability_rows(tracker, space)[slot][1] == Scalar::Category(1),
        ability_rows(tracker, space)[slot][2] == Scalar::Category((slot + 1) as u32),
        ability_rows(tracker, space)[slot][3] == Scalar::One,
        ability_rows(tracker, space)[slot][4] == Scalar::One,
        ability_rows(tracker, space)[slot][5] == ability_category(hero.abilities@[slot].id),
        is_part(
            ability_rows(tracker, space)[slot][6],
            hero.abilities@[slot].level as int,
            30,
        ),
        is_part(
            ability_rows(tracker, space)[slot][7],
            hero.abilities@[slot].max_level as int,
            30,
        ),
        is_part(
            ability_rows(tracker, space)[slot][8],
            hero.abilities@[slot].cooldown_left as int,
            36_000,
        ),
        is_signed(
            ability_rows(tracker, space)[slot][9],
            hero.abilities@[slot].mana_cost as int,
            20_000,
        ),
        is_signed(
            ability_rows(tracker, space)[slot][10],
            hero.abilities@[slot].range as int,
            32_767,
        ),
        ability_rows(tracker, space)[slot][11] == aim_category(hero.abilities@[slot].aim),
        is_flag(ability_rows(tracker, space)[slot][12], hero.abilities@[slot].passive),
        is_flag(ability_rows(tracker, space)[slot][13], hero.abilities@[slot].on),
        is_flag(ability_rows(tracker, space)[slot][14], hero.abilities@[slot].can_level),
        is_flag(
            ability_rows(tracker, space)[slot][15],
            slot < space.hero_masks.casts@.len() && space.hero_masks.casts@[slot].open(),
        ),
        is_flag(ability_rows(tracker, space)[slot][18], false),
{
    let row = ability_rows(tracker, space)[slot];
    assert(row == ability_table(tracker, space, slot));
    assert(category_of(slot) == Scalar::Category((slot + 1) as u32));
}

/// A slot without an ability tells only that it is there, and whether its hero's kit is known
/// from the scoreboard alone.
pub proof fn empty_ability_slots_tell_nothing(
    tracker: StateTracker,
    space: ActionSpace,
    hero: UnitView,
    slot: int,
    column: int,
)
    requires
        tracker.hero_spec() == Some(hero),
        0 <= slot < 6,
        slot >= hero.abilities@.len(),
        3 <= column < 24,
    ensures
        ability_rows(tracker, space)[slot][column] == Scalar::Zero,
{
    assert(ability_rows(tracker, space)[slot] == ability_table(tracker, space, slot));
}

proof fn lemma_last_match<T>(list: Seq<T>, test: spec_fn(T) -> bool)
    ensures
        match last_match(list, test) {
            Some(found) => {
                &&& 0 <= found < list.len()
                &&& test(list[found])
                &&& forall|j: int| found < j < list.len() ==> !test(#[trigger] list[j])
            },
            None => forall|j: int| 0 <= j < list.len() ==> !test(#[trigger] list[j]),
        },
    decreases list.len(),
{
    if list.len() > 0 && !test(list.last()) {
        let rest = list.drop_last();
        lemma_last_match(rest, test);
        assert forall|j: int| 0 <= j < rest.len() implies #[trigger] list[j] == rest[j] by {}
    }
}

/// Whether an event happened before a tick, by at most 4800 ticks.
pub open spec fn fresh(event: ObservedEvent, tick: u32) -> bool {
    event.tick < tick <= event.tick + 4_800
}

/// Damage that an entity took: who is hit, not who hits; the latest fresh event counts.
pub proof fn the_latest_damage_taken_counts(
    events: Seq<ObservedEvent>,
    entity: EntityId,
    tick: u32,
    i: int,
)
    requires
        0 <= i < events.len(),
        fresh(events[i], tick),
        events[i].kind matches ObservedKind::Damaged { target, .. } && target == entity,
        forall|j: int|
            i < j < events.len() ==> !(fresh(#[trigger] events[j], tick)
                && events[j].kind is Damaged && events[j].kind->Damaged_target == entity),
    ensures
        latest_damage(events, entity, tick, false) == Some(events[i].kind->Damaged_amount),
{
    let test = |event: ObservedEvent| is_damage(event, entity, tick, false);
    lemma_last_match(events, test);
    assert(test(events[i]));
    let found = last_match(events, test);
    assert(found is Some);
    if found->0 > i {
        assert(test(events[found->0]));
    }
}

/// Damage that an entity dealt: who hits, not who is hit; the latest fresh event counts.
pub proof fn the_latest_damage_dealt_counts(
    events: Seq<ObservedEvent>,
    entity: EntityId,
    tick: u32,
    i: int,
)
    requires
        0 <= i < events.len(),
        fresh(events[i], tick),
        events[i].kind matches ObservedKind::Damaged { source, .. } && source == Some(entity),
        forall|j: int|
            i < j < events.len() ==> !(fresh(#[trigger] events[j], tick)
                && events[j].kind is Damaged && events[j].kind->Damaged_source == Some(entity)),
    ensures
        latest_damage(events, entity, tick, true) == Some(events[i].kind->Damaged_amount),
{
    let test = |event: ObservedEvent| is_damage(event, entity, tick, true);
    lemma_last_match(events, test);
    assert(test(events[i]));
    let found = last_match(events, test);
    assert(found is Some);
    if found->0 > i {
        assert(test(events[found->0]));
    }
}

/// Without a fresh event of its own an entity dealt no damage, took none, and did not cast.
pub proof fn stale_events_tell_nothing(
    events: Seq<ObservedEvent>,
    entity: EntityId,
    ability: AbilityId,
    tick: u32,
)
    requires
        forall|j: int| 0 <= j < events.len() ==> !fresh(#[trigger] events[j], tick),
    ensures
        latest_damage(events, entity, tick, true) is None,
        latest_damage(events, entity, tick, false) is None,
        latest_attack(events, entity, tick) is None,
        latest_cast(events, entity, ability, tick) is None,
{
    lemma_last_match(events, |event: ObservedEvent| is_damage(event, entity, tick, true));
    lemma_last_match(events, |event: ObservedEvent| is_damage(event, entity, tick, false));
    lemma_last_match(events, |event: ObservedEvent| is_attack(events, event, entity, tick));
    lemma_last_match(events, |event: ObservedEvent| is_cast(event, entity, ability, tick));
}

/// An attack is a fresh physical hit of the entity that is no critical one, on a tick on which
/// it cast nothing; a cast is a fresh one of that ability by that entity.
pub proof fn attacks_and_casts_are_seen_in_events(
    events: Seq<ObservedEvent>,
    entity: EntityId,
    ability: AbilityId,
    tick: u32,
)
    ensures
        latest_attack(events, entity, tick) matches Some(at) ==> exists|i: int|
            0 <= i < events.len() && fresh(#[trigger] events[i], tick) && events[i].tick == at && (
            events[i].kind matches ObservedKind::Damaged { source, kind, crit, .. } && source
                == Some(entity) && kind == crate::world::DamageKind::Physical && !crit) && (forall|
                j: int,
            |
                0 <= j < events.len() && (#[trigger] events[j]).tick == at && events[j].kind
                    is AbilityCast ==> events[j].kind->AbilityCast_caster != entity),
        latest_cast(events, entity, ability, tick) matches Some(at) ==> exists|i: int|
            0 <= i < events.len() && fresh(#[trigger] events[i], tick) && events[i].tick == at
                && events[i].kind == (ObservedKind::AbilityCast { caster: entity, ability }),
{
    let test = |event: ObservedEvent| is_attack(events, event, entity, tick);
    lemma_last_match(events, test);
    let found = last_match(events, test);
    if found is Some {
        let i = found->0;
        assert(test(events[i]));
        assert forall|j: int|
            0 <= j < events.len() && (#[trigger] events[j]).tick == events[i].tick && events[j].kind
                is AbilityCast implies events[j].kind->AbilityCast_caster != entity by {
            assert(!crate::events::casts_at(events, entity, events[i].tick));
        }
        assert(fresh(events[i], tick));
    }
    let cast = |event: ObservedEvent| is_cast(event, entity, ability, tick);
    lemma_last_match(events, cast);
    let at = last_match(events, cast);
    if at is Some {
        assert(cast(events[at->0]));
        assert(fresh(events[at->0], tick));
    }
}

/// The token of a hero's item tells which it is, its charges, cooldown, aim, range, cost, mode,
/// whether it is for sale, what the shop asks for it, and whether some use of it is legal now.
pub proof fn item_tokens_tell_the_item(
    tracker: StateTracker,
    space: ActionSpace,
    readiness: ItemReadiness,
    hero: UnitView,
    slot: int,
    item: ItemView,
)
    requires
        tracker.hero_spec() == Some(hero),
        0 <= slot < 9,
        slot < hero.items@.len(),
        hero.items@[slot] == Some(item),
    ensures
        item_rows(tracker, space, readiness)[slot].len() == 28,
        item_rows(tracker, space, readiness)[slot][0] == Scalar::One,
        item_rows(tracker, space, readiness)[slot][1] == Scalar::Category(2),
        item_rows(tracker, space, readiness)[slot][2] == Scalar::Category((slot + 1) as u32),
        item_rows(tracker, space, readiness)[slot][3] == Scalar::One,
        item_rows(tracker, space, readiness)[slot][4] == item_category(item.id),
        is_flag(item_rows(tracker, space, readiness)[slot][5], item.charges is Some),
        item.charges is Some ==> is_part(
            item_rows(tracker, space, readiness)[slot][6],
            item.charges->0 as int,
            255,
        ),
        item.charges is None ==> is_part(item_rows(tracker, space, readiness)[slot][6], 0, 255),
        is_part(
            item_rows(tracker, space, readiness)[slot][7],
            item.cooldown_left as int,
            36_000,
        ),
        is_flag(item_rows(tracker, space, readiness)[slot][8], item.aim is Some),
        item.aim is Some ==> item_rows(tracker, space, readiness)[slot][9] == aim_category(
            item.aim->0,
        ),
        item.aim is None ==> item_rows(tracker, space, readiness)[slot][9] == Scalar::Zero,
        is_signed(item_rows(tracker, space, readiness)[slot][10], item.range as int, 32_767),
        is_signed(item_rows(tracker, space, readiness)[slot][11], item.mana_cost as int, 20_000),
        is_flag(item_rows(tracker, space, readiness)[slot][12], item.mode is Some),
        item.mode is Some ==> item_rows(tracker, space, readiness)[slot][13]
            == attribute_category(item.mode->0),
        is_flag(item_rows(tracker, space, readiness)[slot][14], item.for_sale),
        is_flag(
            item_rows(tracker, space, readiness)[slot][15],
            readiness.muted(
                ControlledUnit::Hero,
                ItemSlot(slot as u8),
                tracker.view_spec().tick,
            ),
        ),
        is_flag(
            item_rows(tracker, space, readiness)[slot][16],
            exists|i: int|
                0 <= i < tracker.shop@.len() && (#[trigger] tracker.shop@[i]).id == item.id,
        ),
        is_flag(
            item_rows(tracker, space, readiness)[slot][18],
            exists|i: int|
                0 <= i < tracker.shop@.len() && (
                #[trigger] tracker.shop@[i]).components@.contains(item.id),
        ),
        is_flag(
            item_rows(tracker, space, readiness)[slot][20],
            slot < 6 && slot < space.hero_masks.uses@.len()
                && space.hero_masks.uses@[slot].open(),
        ),
        is_flag(item_rows(tracker, space, readiness)[slot][26], false),
{
    let row = item_rows(tracker, space, readiness)[slot];
    assert(row == item_table(tracker, space, readiness, slot));
    assert(category_of(slot) == Scalar::Category((slot + 1) as u32));
    lemma_sold(tracker.shop@, item.id);
}

proof fn lemma_sold(shop: Seq<ShopEntry>, item: ItemId)
    ensures
        entry_index(shop, item) is Some <==> exists|i: int|
            0 <= i < shop.len() && (#[trigger] shop[i]).id == item,
        entry_index(shop, item) matches Some(i) ==> 0 <= i < shop.len() && shop[i].id == item,
{
    let test = |entry: ShopEntry| entry.id == item;
    lemma_first_from_means(shop, test, 0);
    let found = entry_index(shop, item);
    if found is Some {
        assert(test(shop[found->0]));
    }
    if exists|i: int| 0 <= i < shop.len() && (#[trigger] shop[i]).id == item {
        let i = choose|i: int| 0 <= i < shop.len() && (#[trigger] shop[i]).id == item;
        assert(test(shop[i]));
    }
}

/// The token of a shop candidate tells which item it is, its price, and whether the hero can buy
/// it now.
pub proof fn shop_tokens_tell_the_price(
    tracker: StateTracker,
    space: ActionSpace,
    readiness: ItemReadiness,
    i: int,
)
    requires
        0 <= i < space.context.shop@.len(),
    ensures
        item_rows(tracker, space, readiness).len() == 21 + space.context.shop@.len(),
        item_rows(tracker, space, readiness)[21 + i][1] == Scalar::Category(5),
        item_rows(tracker, space, readiness)[21 + i][4] == item_category(
            space.context.shop@[i].item,
        ),
        is_signed(
            item_rows(tracker, space, readiness)[21 + i][17],
            space.context.shop@[i].cost as int,
            100_000,
        ),
        is_flag(
            item_rows(tracker, space, readiness)[21 + i][20],
            entry(space.hero_masks.buy@, i),
        ),
{
    assert(item_rows(tracker, space, readiness)[21 + i] == item_table(
        tracker,
        space,
        readiness,
        21 + i,
    ));
    assert(category_of(4) == Scalar::Category(5));
}

/// Items are worth what the shop asks for them: one more item adds its price, and an empty slot
/// nothing.
pub proof fn assets_add_up(
    shop: Seq<ShopEntry>,
    items: Seq<Option<ItemView>>,
    start: int,
    next: Option<ItemView>,
    s: int,
)
    requires
        next is Some ==> 0 <= s < shop.len() && shop[s].id == next->0.id && forall|k: int|
            0 <= k < s ==> (#[trigger] shop[k]).id != next->0.id,
        -0x4000_0000_0000_0000 <= value_of(shop, items, start) <= 0x4000_0000_0000_0000,
    ensures
        next is None ==> value_of(shop, items.push(next), start) == value_of(shop, items, start),
        next is Some ==> value_of(shop, items.push(next), start) == value_of(shop, items, start)
            + shop[s].cost,
{
    assert(items.push(next).drop_last() =~= items);
    if next is Some {
        let id = next->0.id;
        let test = |entry: ShopEntry| entry.id == id;
        lemma_first_from_means(shop, test, 0);
        assert(test(shop[s]));
        let found = entry_index(shop, id);
        assert(found is Some);
        if found->0 < s {
            assert(test(shop[found->0]));
        }
    }
}

/// The token of a point tells where it lies from the own body, and whether it can be walked,
/// holds a tree, or lies at an allied building.
pub proof fn point_tokens_tell_the_ground(
    context: MapContext,
    team: Team,
    point: PointCandidate,
    own: Vec2,
)
    requires
        1 < context.extent_raw <= 0x8000_0000,
    ensures
        context.point_row(team, point, Some(own)).len() == 32,
        context.point_row(team, point, Some(own))[0] == Scalar::One,
        context.point_row(team, point, Some(own))[4] == Scalar::One,
        context.point_row(team, point, None)[4] == Scalar::Zero,
        is_signed(
            context.point_row(team, point, Some(own))[5],
            seen_from(team, own.x.raw as int, point.position.x.raw as int),
            context.extent_raw as int,
        ),
        is_signed(
            context.point_row(team, point, Some(own))[6],
            seen_from(team, own.y.raw as int, point.position.y.raw as int),
            context.extent_raw as int,
        ),
        is_part(
            context.point_row(team, point, Some(own))[7],
            axis_gap(own, point.position),
            context.extent_raw as int,
        ),
        is_flag(context.point_row(team, point, Some(own))[22], point.walkable),
        is_flag(context.point_row(team, point, Some(own))[23], point.standing_tree),
        is_flag(context.point_row(team, point, Some(own))[24], point.allied_building),
{
}

/// The token of a projectile tells whose it is, whether an ability made it, where it is from the
/// own body, and how it moved between its two latest observations.
pub proof fn projectile_tokens_tell_the_motion(
    context: MapContext,
    team: Team,
    projectile: ProjectileView,
    own: Vec2,
    history: ProjectileObservation,
    previous: u32,
)
    requires
        1 < context.extent_raw <= 0x8000_0000,
        team != Team::Neutral,
        history.previous_tick == Some(previous),
        previous < history.last_tick,
        history.first_tick <= history.last_tick,
    ensures
        context.projectile_row(team, projectile, Some(own), Some(history)).len() == 20,
        is_flag(context.projectile_row(team, projectile, Some(own), Some(history))[1], false),
        is_flag(
            context.projectile_row(team, projectile, Some(own), Some(history))[2],
            projectile.team == team,
        ),
        is_flag(
            context.projectile_row(team, projectile, Some(own), Some(history))[3],
            projectile.team != team && projectile.team != Team::Neutral,
        ),
        is_flag(
            context.projectile_row(team, projectile, Some(own), Some(history))[4],
            projectile.team == Team::Neutral,
        ),
        is_flag(
            context.projectile_row(team, projectile, Some(own), Some(history))[5],
            projectile.ability is Some,
        ),
        is_signed(
            context.projectile_row(team, projectile, Some(own), Some(history))[7],
            seen_from(team, own.x.raw as int, projectile.pos.x.raw as int),
            context.extent_raw as int,
        ),
        is_signed(
            context.projectile_row(team, projectile, Some(own), Some(history))[8],
            seen_from(team, own.y.raw as int, projectile.pos.y.raw as int),
            context.extent_raw as int,
        ),
        context.projectile_row(team, projectile, Some(own), Some(history))[9] == facing_of(
            team,
            projectile.facing,
        ),
        is_signed(
            context.projectile_row(team, projectile, Some(own), Some(history))[11],
            truncated(
                seen_from(
                    team,
                    history.previous_position.x.raw as int,
                    history.position.x.raw as int,
                ),
                history.last_tick - previous,
            ),
            context.extent_raw as int,
        ),
        is_signed(
            context.projectile_row(team, projectile, Some(own), Some(history))[12],
            truncated(
                seen_from(
                    team,
                    history.previous_position.y.raw as int,
                    history.position.y.raw as int,
                ),
                history.last_tick - previous,
            ),
            context.extent_raw as int,
        ),
        is_part(
            context.projectile_row(team, projectile, Some(own), Some(history))[14],
            history.last_tick - history.first_tick,
            4_800,
        ),
{
}

/// The token of a ground item tells which it is, its charges, where it lies from the own body,
/// and how long it has lain there.
pub proof fn ground_item_tokens_tell_the_item(
    context: MapContext,
    team: Team,
    loot: LootView,
    own: Vec2,
    age: LootObservation,
)
    requires
        1 < context.extent_raw <= 0x8000_0000,
        age.first_tick <= age.last_tick,
    ensures
        context.loot_row(team, loot, Some(own), Some(age))[1] == item_category(loot.item),
        is_flag(
            context.loot_row(team, loot, Some(own), Some(age))[2],
            loot.charges is Some,
        ),
        loot.charges is Some ==> is_part(
            context.loot_row(team, loot, Some(own), Some(age))[3],
            loot.charges->0 as int,
            255,
        ),
        is_signed(
            context.loot_row(team, loot, Some(own), Some(age))[4],
            seen_from(team, own.x.raw as int, loot.pos.x.raw as int),
            context.extent_raw as int,
        ),
        is_signed(
            context.loot_row(team, loot, Some(own), Some(age))[5],
            seen_from(team, own.y.raw as int, loot.pos.y.raw as int),
            context.extent_raw as int,
        ),
        is_part(
            context.loot_row(team, loot, Some(own), Some(age))[6],
            axis_gap(own, loot.pos),
            context.extent_raw as int,
        ),
        context.loot_row(team, loot, Some(own), Some(age))[9] == Scalar::One,
        context.loot_row(team, loot, Some(own), None)[9] == Scalar::Zero,
        context.loot_row(team, loot, Some(own), None)[10] == Scalar::Zero,
        is_part(
            context.loot_row(team, loot, Some(own), Some(age))[10],
            age.last_tick - age.first_tick,
            4_800,
        ),
{
}

/// Scoreboard leads are those of the own side: more kills, assists, experience, levels, last
/// hits, and denies of it, and more deaths of the other, count for it.
pub proof fn leads_count_for_the_own_side(
    tracker: StateTracker,
    local: LocalPolicyState,
    summary: GlobalSummary,
)
    requires
        tracker.history@[6] == summary,
        summary.allied.kills < 0x8000_0000_0000_0000,
        summary.enemy.kills < 0x8000_0000_0000_0000,
        summary.allied.deaths < 0x8000_0000_0000_0000,
        summary.enemy.deaths < 0x8000_0000_0000_0000,
        summary.allied.assists < 0x8000_0000_0000_0000,
        summary.enemy.assists < 0x8000_0000_0000_0000,
        summary.allied.levels < 0x8000_0000_0000_0000,
        summary.enemy.levels < 0x8000_0000_0000_0000,
        summary.allied.last_hits < 0x8000_0000_0000_0000,
        summary.enemy.last_hits < 0x8000_0000_0000_0000,
        summary.allied.denies < 0x8000_0000_0000_0000,
        summary.enemy.denies < 0x8000_0000_0000_0000,
    ensures
        is_signed(
            global_row(tracker, local, true)[13],
            summary.allied.kills - summary.enemy.kills,
            1_000,
        ),
        is_signed(
            global_row(tracker, local, true)[14],
            summary.enemy.deaths - summary.allied.deaths,
            1_000,
        ),
        is_signed(
            global_row(tracker, local, true)[15],
            summary.allied.assists - summary.enemy.assists,
            1_000,
        ),
        is_signed(
            global_row(tracker, local, true)[16],
            summary.allied.xp - summary.enemy.xp,
            100_000,
        ),
        is_signed(
            global_row(tracker, local, true)[17],
            summary.allied.levels - summary.enemy.levels,
            1_000,
        ),
        is_signed(
            global_row(tracker, local, true)[18],
            summary.allied.last_hits - summary.enemy.last_hits,
            1_000,
        ),
        is_signed(
            global_row(tracker, local, true)[19],
            summary.allied.denies - summary.enemy.denies,
            1_000,
        ),
{
    assert(crate::global_features::setting_row(tracker, local).len() == 13);
    assert(lead_row(summary).len() == 7);
}

/// Global scalars tell the time, the side, the map, and the seats.
pub proof fn global_scalars_tell_the_setting(
    tracker: StateTracker,
    local: LocalPolicyState,
    scoreboard: bool,
)
    ensures
        is_part(
            global_row(tracker, local, scoreboard)[0],
            tracker.view_spec().tick as int,
            3_600_000,
        ),
        tracker.view_spec().tick >= tracker.metadata.pregame_ticks ==> global_row(
            tracker,
            local,
            scoreboard,
        )[1] == Scalar::One,
        tracker.view_spec().tick < tracker.metadata.pregame_ticks ==> is_part(
            global_row(tracker, local, scoreboard)[1],
            tracker.view_spec().tick as int,
            tracker.metadata.pregame_ticks as int,
        ),
        is_flag(
            global_row(tracker, local, scoreboard)[4],
            tracker.team == Team::Radiant,
        ),
        is_flag(global_row(tracker, local, scoreboard)[5], tracker.team == Team::Dire),
        is_flag(global_row(tracker, local, scoreboard)[6], tracker.metadata.map.0 == 0),
        is_flag(global_row(tracker, local, scoreboard)[7], tracker.metadata.map.0 == 1),
        is_part(
            global_row(tracker, local, scoreboard)[8],
            tracker.metadata.seats - 1,
            9,
        ),
{
    assert(crate::global_features::setting_row(tracker, local).len() == 13);
}

/// Global scalars tell the own gold and assets, whether the own hero lives, when it comes back,
/// how many heroes live, and how the structures stand.
pub proof fn global_scalars_tell_the_own_standing(
    tracker: StateTracker,
    local: LocalPolicyState,
    scoreboard: bool,
    own: PlayerView,
)
    requires
        tracker.player_spec() == Some(own),
        tracker.team != Team::Neutral,
    ensures
        own.gold is Some ==> is_signed(
            global_row(tracker, local, scoreboard)[20],
            own.gold->0 as int,
            100_000,
        ),
        is_signed(global_row(tracker, local, scoreboard)[21], asset_value(tracker), 100_000),
        is_flag(global_row(tracker, local, scoreboard)[22], own.unit is None),
        is_part(global_row(tracker, local, scoreboard)[23], own.respawn_left as int, 4_800),
        is_flag(global_row(tracker, local, scoreboard)[24], own.unit is Some),
        is_part(
            global_row(tracker, local, scoreboard)[25],
            tally(
                tracker.view_spec().players@,
                |player: PlayerView| player.unit is Some && player.team == tracker.team,
            ) as int,
            5,
        ),
        scoreboard ==> is_part(
            global_row(tracker, local, scoreboard)[26],
            tally(
                tracker.view_spec().players@,
                |player: PlayerView| player.unit is Some && player.team == (if tracker.team
                    == Team::Radiant {
                    Team::Dire
                } else {
                    Team::Radiant
                }),
            ) as int,
            5,
        ),
        is_signed(
            global_row(tracker, local, scoreboard)[27],
            tracker.history@[6].allied_structure_hp as int,
            100_000,
        ),
        is_signed(
            global_row(tracker, local, scoreboard)[28],
            tracker.history@[6].enemy_structure_hp as int,
            100_000,
        ),
        is_part(global_row(tracker, local, scoreboard)[38], own.level as int, 30),
        is_signed(global_row(tracker, local, scoreboard)[39], own.xp as int, 100_000),
        is_part(global_row(tracker, local, scoreboard)[40], own.kills as int, 1_000),
        is_part(global_row(tracker, local, scoreboard)[41], own.deaths as int, 1_000),
        is_part(global_row(tracker, local, scoreboard)[42], own.assists as int, 1_000),
        is_part(global_row(tracker, local, scoreboard)[43], own.last_hits as int, 1_000),
        is_part(global_row(tracker, local, scoreboard)[44], own.denies as int, 1_000),
        is_part(
            global_row(tracker, local, scoreboard)[45],
            tracker.history@[6].visible_allied_units as int,
            256,
        ),
        is_part(
            global_row(tracker, local, scoreboard)[46],
            tracker.history@[6].visible_enemy_units as int,
            256,
        ),
        is_flag(global_row(tracker, local, scoreboard)[47], scoreboard),
        is_signed(
            global_row(tracker, local, scoreboard)[36],
            seat_damage(tracker, true),
            10_000,
        ),
        is_signed(
            global_row(tracker, local, scoreboard)[37],
            seat_damage(tracker, false),
            10_000,
        ),
{
    assert(crate::global_features::setting_row(tracker, local).len() == 13);
    assert(crate::global_features::standing_row(tracker, scoreboard).len() == 11);
    assert(crate::global_features::activity_row(tracker, local).len() == 7);
    let own_team = tracker.team;
    lemma_tally_same(
        tracker.view_spec().players@,
        crate::global_features::living(tracker.team),
        |player: PlayerView| player.unit is Some && player.team == own_team,
    );
    assert(tracker.team == Team::Radiant || tracker.team == Team::Dire);
    lemma_tally_same(
        tracker.view_spec().players@,
        crate::global_features::living(tracker.team.opposing_spec()),
        |player: PlayerView| player.unit is Some && player.team == (if own_team == Team::Radiant {
            Team::Dire
        } else {
            Team::Radiant
        }),
    );
}

proof fn lemma_tally_same<T>(list: Seq<T>, left: spec_fn(T) -> bool, right: spec_fn(T) -> bool)
    requires
        forall|item: T| #[trigger] left(item) == right(item),
    ensures
        tally(list, left) == tally(list, right),
    decreases list.len(),
{
    if list.len() > 0 {
        lemma_tally_same(list.drop_last(), left, right);
        assert(left(list.last()) == right(list.last()));
    }
}

/// Past decisions come newest first, each with its age and family.
pub proof fn past_decisions_come_newest_first(local: LocalPolicyState, tick: u32, i: int)
    requires
        0 <= i < local.decisions@.len(),
    ensures
        decision_rows(local, tick).len() == local.decisions@.len(),
        is_part(
            decision_rows(local, tick)[i][1],
            tick - local.decisions@[local.decisions@.len() - 1 - i].tick,
            4_800,
        ),
        decision_rows(local, tick)[i][3] == Scalar::Category(
            (local.decisions@[local.decisions@.len() - 1 - i].kind.index_spec() + 1) as u32,
        ),
{
}

/// History samples look back 480, 240, 120, 60, 30, 15, and no ticks, oldest first; one that is
/// not old enough tells nothing.
pub proof fn history_samples_look_back(tracker: StateTracker, scoreboard: bool, sample: int)
    requires
        0 <= sample < 7,
    ensures
        history_rows(tracker, scoreboard).len() == 7,
        history_age(0) == 480 && history_age(1) == 240 && history_age(2) == 120 && history_age(3)
            == 60 && history_age(4) == 30 && history_age(5) == 15 && history_age(6) == 0,
        sample < 6 && tracker.history@[sample].tick > 0 && tracker.history@[sample].tick
            + history_age(sample) > tracker.view_spec().tick ==> history_rows(
            tracker,
            scoreboard,
        )[sample][0] == Scalar::Zero,
        sample == 6 || tracker.history@[sample].tick + history_age(sample)
            <= tracker.view_spec().tick ==> {
            &&& history_rows(tracker, scoreboard)[sample][0] == Scalar::One
            &&& is_part(
                history_rows(tracker, scoreboard)[sample][1],
                tracker.view_spec().tick - tracker.history@[sample].tick,
                480,
            )
            &&& is_flag(
                history_rows(tracker, scoreboard)[sample][2],
                tracker.history@[sample].own_hp_present,
            )
            &&& tracker.history@[sample].own_max_hp > 0 ==> is_part(
                history_rows(tracker, scoreboard)[sample][3],
                tracker.history@[sample].own_hp as int,
                tracker.history@[sample].own_max_hp as int,
            )
            &&& tracker.history@[sample].own_max_mana > 0 ==> is_part(
                history_rows(tracker, scoreboard)[sample][5],
                tracker.history@[sample].own_mana as int,
                tracker.history@[sample].own_max_mana as int,
            )
            &&& is_part(
                history_rows(tracker, scoreboard)[sample][6],
                tracker.history@[sample].own_level as int,
                30,
            )
            &&& is_signed(
                history_rows(tracker, scoreboard)[sample][7],
                tracker.history@[sample].own_gold as int,
                100_000,
            )
            &&& is_flag(history_rows(tracker, scoreboard)[sample][23], scoreboard)
        },
{
    assert(history_rows(tracker, scoreboard)[sample] == crate::global_features::history_table(
        tracker,
        scoreboard,
        sample,
    ));
}

/// The half minute and the minute of the game run from the first wave on, and stand at zero
/// before it.
pub proof fn phases_run_from_the_first_wave(
    tracker: StateTracker,
    local: LocalPolicyState,
    scoreboard: bool,
    rate: int,
)
    requires
        tracker.metadata.tick_rate == rate,
        rate > 0,
    ensures
        tracker.view_spec().tick <= tracker.metadata.pregame_ticks ==> is_part(
            global_row(tracker, local, scoreboard)[2],
            0,
            rate * 30,
        ) && is_part(global_row(tracker, local, scoreboard)[3], 0, rate * 60),
        tracker.view_spec().tick > tracker.metadata.pregame_ticks ==> is_part(
            global_row(tracker, local, scoreboard)[2],
            (tracker.view_spec().tick - tracker.metadata.pregame_ticks) % (rate * 30),
            rate * 30,
        ) && is_part(
            global_row(tracker, local, scoreboard)[3],
            (tracker.view_spec().tick - tracker.metadata.pregame_ticks) % (rate * 60),
            rate * 60,
        ),
{
    assert(crate::global_features::setting_row(tracker, local).len() == 13);
    let passed = tracker.view_spec().tick - tracker.metadata.pregame_ticks;
    assert(0int % (rate * 30) == 0 && 0int % (rate * 60) == 0) by (nonlinear_arith)
        requires
            rate > 0,
    ;
    if passed > 0 {
        assert(0 <= passed % (rate * 30) < rate * 30 && 0 <= passed % (rate * 60) < rate * 60)
            by (nonlinear_arith)
            requires
                rate > 0,
                passed > 0,
        ;
    }
}

} // verus!
