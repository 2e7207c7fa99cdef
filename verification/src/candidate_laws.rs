//! Which entities, ground items, shop entries, and landmarks a snapshot offers, and in what order.
use crate::action::{EntityCandidate, EntityRelation};
use crate::candidates::{
    entities_match, entity_at, entity_key, entity_keys, live_units, loot_key, loot_keys, loot_spec,
    origin_distance, priority_class, shop_keys, shop_spec,
};
use crate::construction::{allied_buildings_of, fountain_of};
use crate::nearness::{apart, lemma_distance, lemma_near, near};
use crate::order::{
    comes_before, is_stable_order, lex_less_from, stable_order_covers, stable_order_exists,
    stable_order_of,
};
use crate::points::{landmark_key, landmark_keys, nearest_of};
use crate::shop::{
    buy_requirement, edge_total, entry_index, expansion_limit, resolve_parts, BuyRequirement,
};
use crate::search::lemma_first_from_found;
use crate::tracker::StateTracker;
use crate::world::{ItemId, LootView, ShopEntry, Team, UnitKind, UnitView, Vec2, WorldView};
use vstd::prelude::*;

verus! {

/// Whether a unit has health and is not marked dead.
pub open spec fn living(u: UnitView) -> bool {
    u.hp > 0 && u.statuses.bits & 256 == 0
}

proof fn lemma_live(units: Seq<UnitView>)
    ensures
        live_units(units).len() <= units.len(),
        forall|i: int|
            0 <= i < live_units(units).len() ==> living(#[trigger] live_units(units)[i])
                && units.contains(live_units(units)[i]),
        forall|u: UnitView|
            units.contains(u) && living(u) ==> #[trigger] live_units(units).contains(u),
    decreases units.len(),
{
    if units.len() > 0 {
        let rest = units.drop_last();
        lemma_live(rest);
        let live = live_units(units);
        assert(units[units.len() - 1] == units.last());
        assert forall|i: int| 0 <= i < live.len() implies living(#[trigger] live[i])
            && units.contains(live[i]) by {
            if i < live_units(rest).len() {
                assert(live[i] == live_units(rest)[i]);
                let k = choose|k: int| 0 <= k < rest.len() && rest[k] == live[i];
                assert(units[k] == live[i]);
            }
        }
        assert forall|u: UnitView| units.contains(u) && living(u) implies #[trigger] live.contains(
            u,
        ) by {
            let k = choose|k: int| 0 <= k < units.len() && units[k] == u;
            if k < rest.len() {
                assert(rest[k] == u);
                assert(live_units(rest).contains(u));
                let i = choose|i: int| 0 <= i < live_units(rest).len() && live_units(rest)[i] == u;
                assert(live[i] == u);
            } else {
                assert(live[live.len() - 1] == u);
            }
        }
    }
}

/// An entity candidate is a living unit in view: owned by this seat, of its side, neutral, or
/// else an enemy.
pub proof fn entity_candidates_are_living_units(
    tracker: StateTracker,
    view: WorldView,
    center: Option<Vec2>,
    entities: Seq<EntityCandidate>,
    i: int,
)
    requires
        entities_match(tracker, view, center, entities),
        view.units@.len() <= usize::MAX,
        0 <= i < entities.len(),
    ensures
        entities.len() <= 96,
        living(entities[i].unit),
        exists|u: int| 0 <= u < view.units@.len() && entities[i].unit.same(
            #[trigger] view.units@[u],
        ),
        entities[i].relation == EntityRelation::Own <==> entities[i].unit.owner == Some(
            tracker.slot,
        ),
        entities[i].relation == EntityRelation::Allied <==> entities[i].unit.owner != Some(
            tracker.slot,
        ) && entities[i].unit.team == tracker.team,
        tracker.team != Team::Neutral ==> (entities[i].relation == EntityRelation::Neutral
            <==> entities[i].unit.owner != Some(tracker.slot) && entities[i].unit.team
            == Team::Neutral),
        tracker.team != Team::Neutral ==> (entities[i].relation == EntityRelation::Enemy
            <==> entities[i].unit.owner != Some(tracker.slot) && entities[i].unit.team
            != Team::Neutral && entities[i].unit.team != tracker.team),
{
    lemma_live(view.units@);
    let keys = entity_keys(tracker, view, center);
    let found = stable_order_exists(keys);
    let order = stable_order_of(keys);
    let live = live_units(view.units@);
    assert(order[i] < keys.len());
    let u = entity_at(tracker, view, center, i);
    assert(u == live[order[i] as int]);
    assert(entities[i].unit.same(u));
    let k = choose|k: int| 0 <= k < view.units@.len() && view.units@[k] == u;
    assert(entities[i].unit.same(view.units@[k]));
}

/// Every living unit in view is a candidate while there is room for all of them.
pub proof fn every_living_unit_is_a_candidate(
    tracker: StateTracker,
    view: WorldView,
    center: Option<Vec2>,
    entities: Seq<EntityCandidate>,
    u: int,
)
    requires
        entities_match(tracker, view, center, entities),
        view.units@.len() <= 96,
        0 <= u < view.units@.len(),
        living(view.units@[u]),
    ensures
        exists|i: int| 0 <= i < entities.len() && (#[trigger] entities[i]).unit.same(
            view.units@[u],
        ),
{
    lemma_live(view.units@);
    let keys = entity_keys(tracker, view, center);
    let found = stable_order_exists(keys);
    let order = stable_order_of(keys);
    let live = live_units(view.units@);
    assert(view.units@.contains(view.units@[u]));
    assert(live.contains(view.units@[u]));
    let l = choose|l: int| 0 <= l < live.len() && live[l] == view.units@[u];
    stable_order_covers(keys, order, l as usize);
    let i = choose|i: int| 0 <= i < order.len() && order[i] == l as usize;
    assert(entities[i].unit.same(entity_at(tracker, view, center, i)));
}

/// Group of a unit: own heroes and couriers, other heroes, structures, units within 1200 of the
/// own body, and the rest.
pub open spec fn group(tracker: StateTracker, center: Option<Vec2>, u: UnitView) -> int {
    if u.owner == Some(tracker.slot) && (u.kind == UnitKind::Hero || u.kind == UnitKind::Courier) {
        0
    } else if u.kind == UnitKind::Hero {
        1
    } else if u.kind == UnitKind::Tower || u.kind == UnitKind::Ancient || u.kind
        == UnitKind::Fountain {
        2
    } else if center is Some && near(center->0, u.pos, 78_643_200) {
        3
    } else {
        4
    }
}

proof fn lemma_key_order(left: Seq<i128>, right: Seq<i128>)
    requires
        left.len() >= 2,
        right.len() >= 2,
        !lex_less_from(right, left, 0),
    ensures
        left[0] < right[0] || left[0] == right[0] && left[1] <= right[1],
{
    reveal_with_fuel(lex_less_from, 3);
}

proof fn lemma_not_after(keys: Seq<Seq<i128>>, i: int, j: int)
    requires
        is_stable_order(keys, stable_order_of(keys)),
        0 <= i < j < keys.len(),
    ensures
        !lex_less_from(
            keys[stable_order_of(keys)[j] as int],
            keys[stable_order_of(keys)[i] as int],
            0,
        ),
{
    let order = stable_order_of(keys);
    let a = order[i] as int;
    let b = order[j] as int;
    assert(comes_before(keys, a, b));
    crate::order::lemma_comes_before_irreflexive(keys, a);
    if a != b {
        crate::order::lemma_comes_before_total(keys, a, b);
        assert(!comes_before(keys, b, a));
    }
}

/// Candidates come by group, and within a group the nearer one first.
pub proof fn entity_candidates_come_by_group_and_distance(
    tracker: StateTracker,
    view: WorldView,
    own: Vec2,
    entities: Seq<EntityCandidate>,
    i: int,
    j: int,
)
    requires
        entities_match(tracker, view, Some(own), entities),
        view.units@.len() <= usize::MAX,
        0 <= i < j < entities.len(),
    ensures
        group(tracker, Some(own), entities[i].unit) <= group(
            tracker,
            Some(own),
            entities[j].unit,
        ),
        group(tracker, Some(own), entities[i].unit) == group(
            tracker,
            Some(own),
            entities[j].unit,
        ) ==> apart(own, entities[i].unit.pos) <= apart(own, entities[j].unit.pos),
{
    lemma_live(view.units@);
    let center = Some(own);
    let keys = entity_keys(tracker, view, center);
    let found = stable_order_exists(keys);
    let order = stable_order_of(keys);
    lemma_not_after(keys, i, j);
    let a = entity_at(tracker, view, center, i);
    let b = entity_at(tracker, view, center, j);
    assert(keys[order[i] as int] == entity_key(tracker, view.players@, a, center));
    assert(keys[order[j] as int] == entity_key(tracker, view.players@, b, center));
    lemma_group(tracker, view, own, a);
    lemma_group(tracker, view, own, b);
    lemma_key_order(keys[order[i] as int], keys[order[j] as int]);
    assert(entities[i].unit.same(a));
    assert(entities[j].unit.same(b));
}

proof fn lemma_group(tracker: StateTracker, view: WorldView, own: Vec2, u: UnitView)
    ensures
        entity_key(tracker, view.players@, u, Some(own)).len() >= 2,
        entity_key(tracker, view.players@, u, Some(own))[0] == group(tracker, Some(own), u),
        entity_key(tracker, view.players@, u, Some(own))[1] == apart(own, u.pos),
{
    lemma_distance(own, u.pos);
    lemma_near(own, u.pos, 78_643_200);
    let key = entity_key(tracker, view.players@, u, Some(own));
    let distance = origin_distance(Some(own), u.pos);
    assert(key[0] == priority_class(tracker, u, distance) as i128);
    assert(key[1] == distance as i128);
}

/// Shop candidates are the entries of the shop by item number, each with its own price.
pub proof fn shop_candidates_come_by_item(shop: Seq<ShopEntry>, i: int, j: int, s: int)
    requires
        shop.len() <= usize::MAX,
        0 <= i < j < shop.len(),
        0 <= s < shop.len(),
    ensures
        shop_spec(shop).len() == shop.len(),
        shop_spec(shop)[i].item.0 <= shop_spec(shop)[j].item.0,
        exists|k: int|
            0 <= k < shop.len() && (#[trigger] shop_spec(shop)[k]).item == shop[s].id && shop_spec(
                shop,
            )[k].cost == shop[s].cost,
        exists|k: int|
            0 <= k < shop.len() && shop_spec(shop)[i].item == (#[trigger] shop[k]).id && shop_spec(
                shop,
            )[i].cost == shop[k].cost,
{
    let keys = shop_keys(shop);
    let found = stable_order_exists(keys);
    let order = stable_order_of(keys);
    lemma_not_after(keys, i, j);
    reveal_with_fuel(lex_less_from, 2);
    assert(order[i] < keys.len() && order[j] < keys.len());
    assert(shop_spec(shop)[i].item == shop[order[i] as int].id);
    assert(shop_spec(shop)[i].cost == shop[order[i] as int].cost);
    assert(shop_spec(shop)[j].item == shop[order[j] as int].id);
    assert(keys[order[i] as int] == seq![shop[order[i] as int].id.0 as i128]);
    assert(keys[order[j] as int] == seq![shop[order[j] as int].id.0 as i128]);
    stable_order_covers(keys, order, s as usize);
    let k = choose|k: int| 0 <= k < order.len() && order[k] == s as usize;
    assert(shop_spec(shop)[k].item == shop[s].id);
}

/// Ground-item candidates are the ground items in view by item number, each with its own place
/// and charges.
pub proof fn ground_candidates_come_by_item(loot: Seq<LootView>, i: int, j: int, s: int)
    requires
        loot.len() <= usize::MAX,
        0 <= i < j < loot.len(),
        0 <= s < loot.len(),
    ensures
        loot_spec(loot).len() == loot.len(),
        loot_spec(loot)[i].item.0 <= loot_spec(loot)[j].item.0,
        exists|k: int|
            0 <= k < loot.len() && (#[trigger] loot_spec(loot)[k]).id == loot[s].id && loot_spec(
                loot,
            )[k].item == loot[s].item && loot_spec(loot)[k].position == loot[s].pos && loot_spec(
                loot,
            )[k].charges == loot[s].charges,
{
    let keys = loot_keys(loot);
    let found = stable_order_exists(keys);
    let order = stable_order_of(keys);
    lemma_not_after(keys, i, j);
    assert(order[i] < keys.len() && order[j] < keys.len());
    assert(keys[order[i] as int] == loot_key(loot[order[i] as int]));
    assert(keys[order[j] as int] == loot_key(loot[order[j] as int]));
    assert(loot_key(loot[order[i] as int])[0] == loot[order[i] as int].item.0);
    assert(loot_key(loot[order[j] as int])[0] == loot[order[j] as int].item.0);
    lemma_key_order(keys[order[i] as int], keys[order[j] as int]);
    assert(loot_spec(loot)[i].item == loot[order[i] as int].item);
    assert(loot_spec(loot)[j].item == loot[order[j] as int].item);
    stable_order_covers(keys, order, s as usize);
    let k = choose|k: int| 0 <= k < order.len() && order[k] == s as usize;
    assert(loot_spec(loot)[k].id == loot[s].id);
}

/// The own fountain of a snapshot is a fountain of the own side in view, and none of them stands
/// nearer to the own body.
pub proof fn the_own_fountain_is_the_nearest(
    tracker: StateTracker,
    view: WorldView,
    own: Vec2,
    place: Vec2,
    j: int,
)
    requires
        tracker.origin_spec() == Some(own),
        fountain_of(tracker, view) == Some(place),
        0 <= j < view.units@.len(),
        view.units@[j].kind == UnitKind::Fountain && view.units@[j].team == tracker.team,
    ensures
        exists|f: int|
            0 <= f < view.units@.len() && (#[trigger] view.units@[f]).kind == UnitKind::Fountain
                && view.units@[f].team == tracker.team && view.units@[f].pos == place,
        apart(own, place) <= apart(own, view.units@[j].pos),
{
    let units = view.units@;
    let count = units.len() as int;
    let f = choose|i: int|
        nearest_of(tracker, units, own, UnitKind::Fountain, true, count, i);
    assert(nearest_of(tracker, units, own, UnitKind::Fountain, true, count, f));
    assert(units[f].pos == place);
    lemma_distance(own, place);
    lemma_distance(own, units[j].pos);
    if j != f {
        let keys = landmark_keys(tracker, own, units);
        assert(crate::points::is_landmark(tracker, units[j], UnitKind::Fountain, true));
        assert(comes_before(keys, f, j));
        assert(keys[f] == landmark_key(tracker, own, units[f]));
        assert(keys[j] == landmark_key(tracker, own, units[j]));
        crate::order::lemma_comes_before_total(keys, f, j);
        lemma_key_order(keys[f], keys[j]);
    }
}

/// Buildings that an effect can land at are exactly the towers, ancients, and fountains of the
/// own side in view.
pub proof fn allied_buildings_are_own_structures(
    tracker: StateTracker,
    units: Seq<UnitView>,
    place: Vec2,
)
    ensures
        allied_buildings_of(tracker, units).contains(place) <==> exists|i: int|
            0 <= i < units.len() && (#[trigger] units[i]).pos == place && units[i].team
                == tracker.team && (units[i].kind == UnitKind::Tower || units[i].kind
                == UnitKind::Ancient || units[i].kind == UnitKind::Fountain),
    decreases units.len(),
{
    if units.len() > 0 {
        let rest = units.drop_last();
        let last = units.len() - 1;
        allied_buildings_are_own_structures(tracker, rest, place);
        let before = allied_buildings_of(tracker, rest);
        let all = allied_buildings_of(tracker, units);
        if all.contains(place) {
            let k = choose|k: int| 0 <= k < all.len() && all[k] == place;
            if k < before.len() {
                assert(before[k] == place);
                let i = choose|i: int|
                    0 <= i < rest.len() && (#[trigger] rest[i]).pos == place && rest[i].team
                        == tracker.team && (rest[i].kind == UnitKind::Tower || rest[i].kind
                        == UnitKind::Ancient || rest[i].kind == UnitKind::Fountain);
                assert(units[i] == rest[i]);
            } else {
                assert(units[last].pos == place);
            }
        }
        if exists|i: int|
            0 <= i < units.len() && (#[trigger] units[i]).pos == place && units[i].team
                == tracker.team && (units[i].kind == UnitKind::Tower || units[i].kind
                == UnitKind::Ancient || units[i].kind == UnitKind::Fountain) {
            let i = choose|i: int|
                0 <= i < units.len() && (#[trigger] units[i]).pos == place && units[i].team
                    == tracker.team && (units[i].kind == UnitKind::Tower || units[i].kind
                    == UnitKind::Ancient || units[i].kind == UnitKind::Fountain);
            if i < last {
                assert(rest[i] == units[i]);
                assert(before.contains(place));
                let k = choose|k: int| 0 <= k < before.len() && before[k] == place;
                assert(all[k] == place);
            } else {
                assert(all[all.len() - 1] == place);
            }
        }
    }
}

/// An item that is assembled from nothing costs its price and one slot, whatever is held.
pub proof fn plain_items_cost_their_price(
    shop: Seq<ShopEntry>,
    held: Seq<ItemId>,
    s: int,
)
    requires
        0 <= s < shop.len(),
        shop[s].components@.len() == 0,
        forall|k: int| 0 <= k < s ==> (#[trigger] shop[k]).id != shop[s].id,
    ensures
        buy_requirement(shop, shop[s].id, held) == Ok::<BuyRequirement, crate::action::ActionError>(
            BuyRequirement { missing_cost: shop[s].cost, missing_slots: 1 },
        ),
{
    let id = shop[s].id;
    let test = |entry: ShopEntry| entry.id == id;
    lemma_first_from_found(shop, test, 0, s);
}

/// Price of plain parts.
pub open spec fn price(shop: Seq<ShopEntry>, parts: Seq<ItemId>) -> int
    decreases parts.len(),
{
    if parts.len() == 0 {
        0
    } else {
        price(shop, parts.drop_first()) + (match entry_index(shop, parts[0]) {
            Some(i) => shop[i].cost as int,
            None => 0,
        })
    }
}

/// Whether the shop sells a part that is assembled from nothing, for a price that is not
/// negative.
pub open spec fn plain_part(shop: Seq<ShopEntry>, part: ItemId) -> bool {
    entry_index(shop, part) matches Some(i) && shop[i].components@.len() == 0 && shop[i].cost >= 0
}

proof fn lemma_price_nonnegative(shop: Seq<ShopEntry>, parts: Seq<ItemId>)
    requires
        forall|k: int| 0 <= k < parts.len() ==> #[trigger] plain_part(shop, parts[k]),
    ensures
        price(shop, parts) >= 0,
    decreases parts.len(),
{
    if parts.len() > 0 {
        assert(plain_part(shop, parts[0]));
        assert forall|k: int| 0 <= k < parts.drop_first().len() implies #[trigger] plain_part(
            shop,
            parts.drop_first()[k],
        ) by {
            assert(plain_part(shop, parts[k + 1]));
        }
        lemma_price_nonnegative(shop, parts.drop_first());
    }
}

proof fn lemma_buys_parts(
    shop: Seq<ShopEntry>,
    parts: Seq<ItemId>,
    found: BuyRequirement,
    steps: nat,
)
    requires
        steps > parts.len(),
        found.missing_cost >= 0,
        found.missing_slots + parts.len() <= 15,
        found.missing_cost + price(shop, parts) <= i32::MAX,
        forall|k: int| 0 <= k < parts.len() ==> #[trigger] plain_part(shop, parts[k]),
    ensures
        resolve_parts(shop, Seq::empty(), parts.reverse(), found, steps) == Ok::<
            BuyRequirement,
            crate::action::ActionError,
        >(
            BuyRequirement {
                missing_cost: (found.missing_cost + price(shop, parts)) as i32,
                missing_slots: (found.missing_slots + parts.len()) as usize,
            },
        ),
    decreases parts.len(),
{
    let stack = parts.reverse();
    if parts.len() > 0 {
        let rest = parts.drop_first();
        assert(stack.last() == parts[0]);
        assert(stack.drop_last() =~= rest.reverse());
        assert(plain_part(shop, parts[0]));
        assert forall|k: int| 0 <= k < rest.len() implies #[trigger] plain_part(shop, rest[k]) by {
            assert(plain_part(shop, parts[k + 1]));
        }
        lemma_price_nonnegative(shop, rest);
        let i = entry_index(shop, parts[0])->0;
        let bought = BuyRequirement {
            missing_cost: (found.missing_cost + shop[i].cost) as i32,
            missing_slots: (found.missing_slots + 1) as usize,
        };
        lemma_buys_parts(shop, rest, bought, (steps - 1) as nat);
    } else {
        assert(stack =~= Seq::<ItemId>::empty());
    }
}

proof fn lemma_edges(shop: Seq<ShopEntry>, s: int)
    requires
        0 <= s < shop.len(),
    ensures
        edge_total(shop) >= shop[s].components@.len(),
    decreases shop.len(),
{
    if s < shop.len() - 1 {
        lemma_edges(shop.drop_last(), s);
    }
}

proof fn lemma_limit(shop: Seq<ShopEntry>, held: Seq<ItemId>, s: int)
    requires
        0 <= s < shop.len(),
    ensures
        expansion_limit(shop, held) > shop[s].components@.len(),
{
    lemma_edges(shop, s);
    let left = 15 + held.len() + 1;
    let right = shop.len() + edge_total(shop) + 1;
    assert(left * right >= right) by (nonlinear_arith)
        requires
            left >= 1,
            right >= 0,
    ;
}

/// With nothing at hand an item that is assembled from plain parts costs what its parts cost,
/// and as many slots as it has parts.
pub proof fn recipes_cost_their_parts(shop: Seq<ShopEntry>, s: int)
    requires
        0 <= s < shop.len(),
        forall|k: int| 0 <= k < s ==> (#[trigger] shop[k]).id != shop[s].id,
        1 <= shop[s].components@.len() <= 15,
        forall|k: int|
            0 <= k < shop[s].components@.len() ==> #[trigger] plain_part(
                shop,
                shop[s].components@[k],
            ),
        price(shop, shop[s].components@) <= i32::MAX,
        expansion_limit(shop, Seq::empty()) <= usize::MAX,
    ensures
        buy_requirement(shop, shop[s].id, Seq::empty()) == Ok::<
            BuyRequirement,
            crate::action::ActionError,
        >(
            BuyRequirement {
                missing_cost: price(shop, shop[s].components@) as i32,
                missing_slots: shop[s].components@.len() as usize,
            },
        ),
{
    let id = shop[s].id;
    let test = |entry: ShopEntry| entry.id == id;
    lemma_first_from_found(shop, test, 0, s);
    lemma_limit(shop, Seq::empty(), s);
    lemma_edge_bound(shop, Seq::empty());
    lemma_buys_parts(
        shop,
        shop[s].components@,
        BuyRequirement { missing_cost: 0, missing_slots: 0 },
        expansion_limit(shop, Seq::empty()) as nat,
    );
}

proof fn lemma_edge_bound(shop: Seq<ShopEntry>, held: Seq<ItemId>)
    requires
        expansion_limit(shop, held) <= usize::MAX,
    ensures
        edge_total(shop) <= usize::MAX,
{
    let left = 15 + held.len() + 1;
    let right = shop.len() + edge_total(shop) + 1;
    assert(left * right >= right) by (nonlinear_arith)
        requires
            left >= 1,
            right >= 0,
    ;
}

proof fn lemma_uses_parts(
    shop: Seq<ShopEntry>,
    parts: Seq<ItemId>,
    found: BuyRequirement,
    steps: nat,
)
    requires
        steps > parts.len(),
    ensures
        resolve_parts(shop, parts, parts.reverse(), found, steps) == Ok::<
            BuyRequirement,
            crate::action::ActionError,
        >(found),
    decreases parts.len(),
{
    let stack = parts.reverse();
    if parts.len() > 0 {
        let rest = parts.drop_first();
        assert(stack.last() == parts[0]);
        assert(stack.drop_last() =~= rest.reverse());
        assert(parts.contains(parts[0]));
        lemma_first_held(parts, parts[0]);
        assert(parts.remove(0) =~= rest);
        lemma_uses_parts(shop, rest, found, (steps - 1) as nat);
    } else {
        assert(stack =~= Seq::<ItemId>::empty());
    }
}

proof fn lemma_first_held(held: Seq<ItemId>, item: ItemId)
    requires
        held.len() > 0,
        held[0] == item,
    ensures
        held.index_of_first(item) == Some(0int),
{
    held.index_of_first_ensures(item);
}

/// Whoever holds every part of an item gets it for nothing: neither gold nor slots are missing.
pub proof fn held_parts_are_used_up(shop: Seq<ShopEntry>, s: int)
    requires
        0 <= s < shop.len(),
        forall|k: int| 0 <= k < s ==> (#[trigger] shop[k]).id != shop[s].id,
        shop[s].components@.len() >= 1,
        expansion_limit(shop, shop[s].components@) <= usize::MAX,
    ensures
        buy_requirement(shop, shop[s].id, shop[s].components@) == Ok::<
            BuyRequirement,
            crate::action::ActionError,
        >(BuyRequirement { missing_cost: 0, missing_slots: 0 }),
{
    let id = shop[s].id;
    let test = |entry: ShopEntry| entry.id == id;
    lemma_first_from_found(shop, test, 0, s);
    lemma_limit(shop, shop[s].components@, s);
    lemma_edge_bound(shop, shop[s].components@);
    lemma_uses_parts(
        shop,
        shop[s].components@,
        BuyRequirement { missing_cost: 0, missing_slots: 0 },
        expansion_limit(shop, shop[s].components@) as nat,
    );
}

} // verus!
