//! Entity, ground-item, and shop candidates in their stable model order.
use crate::action::{EntityCandidate, EntityRelation, LootCandidate, ShopCandidate};
use crate::order::{is_stable_order, key_views, stable_order, stable_order_of};
use crate::points::{canonical_key, canonical_position_key, entity_relation, relation_of};
use crate::search::{
    count_free, first_index, free_count, lemma_first_from_found, lemma_first_from_none,
};
use crate::tracker::{CastRecord, DamageRecord, EntityTrack, StateTracker, Velocity, UNIT_TOKENS};
use crate::validation::{inside, maximum_raw};
use crate::world::{
    square, LootView, PlayerView, ShopEntry, Team, UnitKind, UnitView, Vec2, WorldView,
};
use vstd::prelude::*;

verus! {

/// Squared raw distance within which a unit matters for combat.
pub const COMBAT_DISTANCE_SQUARED: i64 = 6_184_752_906_240_000;

/// Relation of a unit's owner to the controlled seat.
pub open spec fn owner_relation_of(
    tracker: StateTracker,
    players: Seq<PlayerView>,
    unit: UnitView,
) -> Option<EntityRelation> {
    match unit.owner {
        None => None,
        Some(owner) => if owner == tracker.slot {
            Some(EntityRelation::Own)
        } else {
            match first_index(players, |player: PlayerView| player.slot == owner) {
                Some(i) => if players[i].team == tracker.team {
                    Some(EntityRelation::Allied)
                } else {
                    Some(EntityRelation::Enemy)
                },
                None => None,
            }
        },
    }
}

/// Relation of a unit's owner to the controlled seat.
pub fn candidate_owner_relation(
    tracker: &StateTracker,
    players: &Vec<PlayerView>,
    unit: &UnitView,
) -> (r: Option<EntityRelation>)
    ensures
        r == owner_relation_of(*tracker, players@, *unit),
{
    let owner = match unit.owner {
        Some(owner) => owner,
        None => {
            return None;
        },
    };
    if owner == tracker.slot {
        return Some(EntityRelation::Own);
    }
    let ghost owns = |player: PlayerView| player.slot == owner;
    let mut index: usize = 0;
    while index < players.len()
        invariant
            index <= players@.len(),
            unit.owner == Some(owner),
            owner != tracker.slot,
            owns == (|player: PlayerView| player.slot == owner),
            forall|j: int| 0 <= j < index ==> !owns(#[trigger] players@[j]),
        decreases players@.len() - index,
    {
        if players[index].slot == owner {
            proof {
                lemma_first_from_found(players@, owns, 0, index as int);
            }
            return if players[index].team == tracker.team {
                Some(EntityRelation::Allied)
            } else {
                Some(EntityRelation::Enemy)
            };
        }
        index += 1;
    }
    proof {
        lemma_first_from_none(players@, owns, 0);
    }
    None
}

/// Facing as the Radiant side sees it.
pub open spec fn canonical_facing_spec(team: Team, brads: u16) -> u16 {
    if team == Team::Dire {
        ((brads + 0x8000) % 0x1_0000) as u16
    } else {
        brads
    }
}

/// Facing as the Radiant side sees it.
pub fn canonical_facing(team: Team, brads: u16) -> (r: u16)
    ensures
        r == canonical_facing_spec(team, brads),
{
    if team == Team::Dire {
        brads.wrapping_add(0x8000)
    } else {
        brads
    }
}

/// Absent sorts before present.
pub open spec fn optional_key(present: bool, fields: Seq<i128>) -> Seq<i128> {
    if present {
        seq![1i128] + fields
    } else {
        seq![0i128]
    }
}

pub open spec fn flag_key(flag: bool) -> i128 {
    if flag {
        1
    } else {
        0
    }
}

pub open spec fn damage_key(record: Option<DamageRecord>) -> Seq<i128> {
    optional_key(
        record is Some,
        seq![
            record->0.tick as i128,
            record->0.amount as i128,
            record->0.kind.rank_spec() as i128,
            flag_key(record->0.crit),
        ],
    )
}

pub open spec fn velocity_key(team: Team, velocity: Option<Velocity>) -> Seq<i128> {
    let side: int = if team == Team::Dire {
        -1
    } else {
        1
    };
    optional_key(
        velocity is Some,
        seq![
            (velocity->0.delta.x.raw * side) as i128,
            (velocity->0.delta.y.raw * side) as i128,
            velocity->0.elapsed_ticks as i128,
        ],
    )
}

pub open spec fn cast_key(record: Option<CastRecord>) -> Seq<i128> {
    optional_key(
        record is Some,
        seq![record->0.tick as i128, record->0.ability.0 as i128],
    )
}

/// Tracked movement, health changes, and recent events of a unit.
pub open spec fn track_key(team: Team, track: Option<EntityTrack>) -> Seq<i128> {
    match track {
        None => seq![0i128],
        Some(track) => seq![1i128] + velocity_key(team, track.velocity) + seq![
            track.hp_delta as i128,
            track.mana_delta as i128,
        ] + damage_key(track.last_damage_dealt) + damage_key(track.last_damage_taken) + cast_key(
            track.last_ability_cast,
        ) + optional_key(
            track.last_attack_landed is Some,
            seq![track.last_attack_landed->0 as i128],
        ),
    }
}

/// Observed values of a unit in comparison order.
pub open spec fn unit_key(tracker: StateTracker, unit: UnitView) -> Seq<i128> {
    let free = free_count(unit.items@);
    seq![
        unit.kind.rank_spec() as i128,
        canonical_key(tracker, unit.pos).0 as i128,
        canonical_key(tracker, unit.pos).1 as i128,
        canonical_facing_spec(tracker.team, unit.facing.brads) as i128,
        unit.hp as i128,
        unit.max_hp as i128,
        unit.mana as i128,
        unit.max_mana as i128,
        unit.move_speed.raw as i128,
        unit.attack_damage as i128,
        unit.attack_range.raw as i128,
        unit.attack_interval as i128,
        unit.attack_speed as i128,
        unit.armor.raw as i128,
        unit.magic_resist.raw as i128,
        unit.radius.raw as i128,
        unit.vision_radius.raw as i128,
        unit.true_sight_radius.raw as i128,
        unit.statuses.bits as i128,
        unit.items@.len() as i128,
        free as i128,
        flag_key(free > 0),
    ]
}

/// Distance from the own origin; everything is far without one.
pub open spec fn origin_distance(center: Option<Vec2>, position: Vec2) -> int {
    match center {
        Some(origin) => origin.distance2(position),
        None => i64::MAX as int,
    }
}

/// Class of an entity: own bodies, heroes, structures, nearby units, the rest.
pub open spec fn priority_class(tracker: StateTracker, unit: UnitView, distance: int) -> int {
    if unit.owner == Some(tracker.slot) && (unit.kind == UnitKind::Hero || unit.kind
        == UnitKind::Courier) {
        0
    } else if unit.kind == UnitKind::Hero {
        1
    } else if unit.kind.structure() {
        2
    } else if distance <= square(78_643_200) {
        3
    } else {
        4
    }
}

/// Full comparison key of an entity candidate.
pub open spec fn entity_key(
    tracker: StateTracker,
    players: Seq<PlayerView>,
    unit: UnitView,
    center: Option<Vec2>,
) -> Seq<i128> {
    let distance = origin_distance(center, unit.pos);
    let owner = owner_relation_of(tracker, players, unit);
    seq![
        priority_class(tracker, unit, distance) as i128,
        distance as i128,
        relation_of(tracker, unit).rank_spec() as i128,
    ] + optional_key(owner is Some, seq![owner->0.rank_spec() as i128]) + unit_key(tracker, unit)
        + track_key(tracker.team, tracker.track_spec(unit.id)) + seq![unit.id.0 as i128]
}

fn push_optional(key: &mut Vec<i128>, present: bool)
    ensures
        final(key)@ == old(key)@.push(flag_key(present)),
{
    key.push(if present {
        1
    } else {
        0
    });
}

fn push_damage(key: &mut Vec<i128>, record: Option<DamageRecord>)
    ensures
        final(key)@ == old(key)@ + damage_key(record),
{
    let ghost before = key@;
    match record {
        Some(value) => {
            key.push(1);
            key.push(value.tick as i128);
            key.push(value.amount as i128);
            key.push(value.kind.rank() as i128);
            push_optional(key, value.crit);
        },
        None => {
            key.push(0);
        },
    }
    assert(key@ =~= before + damage_key(record));
}

fn push_velocity(key: &mut Vec<i128>, team: Team, velocity: Option<Velocity>)
    ensures
        final(key)@ == old(key)@ + velocity_key(team, velocity),
{
    let ghost before = key@;
    match velocity {
        Some(velocity) => {
            let side: i128 = if team == Team::Dire {
                -1
            } else {
                1
            };
            key.push(1);
            key.push(velocity.delta.x.raw as i128 * side);
            key.push(velocity.delta.y.raw as i128 * side);
            key.push(velocity.elapsed_ticks as i128);
        },
        None => {
            key.push(0);
        },
    }
    assert(key@ =~= before + velocity_key(team, velocity));
}

fn push_cast(key: &mut Vec<i128>, record: Option<CastRecord>)
    ensures
        final(key)@ == old(key)@ + cast_key(record),
{
    let ghost before = key@;
    match record {
        Some(value) => {
            key.push(1);
            key.push(value.tick as i128);
            key.push(value.ability.0 as i128);
        },
        None => {
            key.push(0);
        },
    }
    assert(key@ =~= before + cast_key(record));
}

fn push_tick(key: &mut Vec<i128>, tick: Option<u32>)
    ensures
        final(key)@ == old(key)@ + optional_key(tick is Some, seq![tick->0 as i128]),
{
    let ghost before = key@;
    match tick {
        Some(tick) => {
            key.push(1);
            key.push(tick as i128);
        },
        None => {
            key.push(0);
        },
    }
    assert(key@ =~= before + optional_key(tick is Some, seq![tick->0 as i128]));
}

proof fn lemma_append(before: Seq<i128>, middle: Seq<i128>, last: Seq<i128>)
    ensures
        (before + middle) + last == before + (middle + last),
{
    assert((before + middle) + last =~= before + (middle + last));
}

fn push_track(key: &mut Vec<i128>, team: Team, track: Option<&EntityTrack>)
    ensures
        final(key)@ == old(key)@ + track_key(
            team,
            match track {
                Some(track) => Some(*track),
                None => None,
            },
        ),
{
    let ghost before = key@;
    let track = match track {
        Some(track) => track,
        None => {
            key.push(0);
            assert(key@ =~= before + seq![0i128]);
            return ;
        },
    };
    key.push(1);
    let ghost flag = seq![1i128];
    assert(key@ =~= before + flag);
    let ghost moved = velocity_key(team, track.velocity);
    push_velocity(key, team, track.velocity);
    let ghost base = key@;
    key.push(track.hp_delta as i128);
    key.push(track.mana_delta as i128);
    let ghost deltas = seq![track.hp_delta as i128, track.mana_delta as i128];
    assert(key@ =~= base + deltas);
    push_damage(key, track.last_damage_dealt);
    push_damage(key, track.last_damage_taken);
    push_cast(key, track.last_ability_cast);
    push_tick(key, track.last_attack_landed);
    proof {
        let dealt = damage_key(track.last_damage_dealt);
        let taken = damage_key(track.last_damage_taken);
        let cast = cast_key(track.last_ability_cast);
        let landed = optional_key(
            track.last_attack_landed is Some,
            seq![track.last_attack_landed->0 as i128],
        );
        lemma_append(before, flag, moved);
        lemma_append(before, flag + moved, deltas);
        lemma_append(before, flag + moved + deltas, dealt);
        lemma_append(before, flag + moved + deltas + dealt, taken);
        lemma_append(before, flag + moved + deltas + dealt + taken, cast);
        lemma_append(before, flag + moved + deltas + dealt + taken + cast, landed);
    }
}

fn push_unit(key: &mut Vec<i128>, tracker: &StateTracker, unit: &UnitView)
    requires
        tracker.wf(),
    ensures
        final(key)@ == old(key)@ + unit_key(*tracker, *unit),
{
    let ghost before = key@;
    let (x, y) = canonical_position_key(tracker, unit.pos);
    let free = count_free(&unit.items);
    key.push(unit.kind.rank() as i128);
    key.push(x as i128);
    key.push(y as i128);
    key.push(canonical_facing(tracker.team, unit.facing.brads) as i128);
    key.push(unit.hp as i128);
    key.push(unit.max_hp as i128);
    key.push(unit.mana as i128);
    key.push(unit.max_mana as i128);
    key.push(unit.move_speed.raw as i128);
    key.push(unit.attack_damage as i128);
    key.push(unit.attack_range.raw as i128);
    key.push(unit.attack_interval as i128);
    key.push(unit.attack_speed as i128);
    key.push(unit.armor.raw as i128);
    key.push(unit.magic_resist.raw as i128);
    key.push(unit.radius.raw as i128);
    key.push(unit.vision_radius.raw as i128);
    key.push(unit.true_sight_radius.raw as i128);
    key.push(unit.statuses.bits as i128);
    key.push(unit.items.len() as i128);
    key.push(free as i128);
    push_optional(key, free > 0);
    assert(key@ =~= before + unit_key(*tracker, *unit));
}

/// Full comparison key of an entity candidate.
pub fn entity_priority(
    tracker: &StateTracker,
    players: &Vec<PlayerView>,
    unit: &UnitView,
    center: Option<Vec2>,
) -> (key: Vec<i128>)
    requires
        tracker.wf(),
        unit.pos.on_map(),
        center matches Some(origin) ==> origin.on_map(),
    ensures
        key@ == entity_key(*tracker, players@, *unit, center),
{
    let own_slot = match unit.owner {
        Some(owner) => owner == tracker.slot,
        None => false,
    };
    let own_body = own_slot && (unit.kind == UnitKind::Hero || unit.kind == UnitKind::Courier);
    let distance: i64 = match center {
        Some(origin) => origin.distance_squared(unit.pos),
        None => i64::MAX,
    };
    assert(square(78_643_200) == 6_184_752_906_240_000) by (nonlinear_arith);
    let priority: i128 = if own_body {
        0
    } else if unit.kind == UnitKind::Hero {
        1
    } else if unit.kind.is_structure() {
        2
    } else if distance <= COMBAT_DISTANCE_SQUARED {
        3
    } else {
        4
    };
    let mut key: Vec<i128> = Vec::new();
    key.push(priority);
    key.push(distance as i128);
    key.push(entity_relation(tracker, unit).rank() as i128);
    let ghost owner = owner_relation_of(*tracker, players@, *unit);
    match candidate_owner_relation(tracker, players, unit) {
        Some(relation) => {
            key.push(1);
            key.push(relation.rank() as i128);
        },
        None => {
            key.push(0);
        },
    }
    assert(key@ =~= seq![
        priority,
        distance as i128,
        relation_of(*tracker, *unit).rank_spec() as i128,
    ] + optional_key(owner is Some, seq![owner->0.rank_spec() as i128]));
    push_unit(&mut key, tracker, unit);
    push_track(&mut key, tracker.team, tracker.entity(unit.id));
    key.push(unit.id.0 as i128);
    assert(key@ =~= entity_key(*tracker, players@, *unit, center));
    key
}

/// Live units in view order.
pub open spec fn live_units(units: Seq<UnitView>) -> Seq<UnitView>
    decreases units.len(),
{
    if units.len() == 0 {
        Seq::empty()
    } else if units.last().alive_spec() {
        live_units(units.drop_last()).push(units.last())
    } else {
        live_units(units.drop_last())
    }
}

pub open spec fn entity_keys(
    tracker: StateTracker,
    view: WorldView,
    center: Option<Vec2>,
) -> Seq<Seq<i128>> {
    let live = live_units(view.units@);
    Seq::new(live.len(), |i: int| entity_key(tracker, view.players@, live[i], center))
}

/// Unit behind the entity candidate at an index.
pub open spec fn entity_at(
    tracker: StateTracker,
    view: WorldView,
    center: Option<Vec2>,
    index: int,
) -> UnitView {
    live_units(view.units@)[stable_order_of(entity_keys(tracker, view, center))[index] as int]
}

/// Number of entity candidates.
pub open spec fn entity_total(view: WorldView) -> int {
    if live_units(view.units@).len() <= UNIT_TOKENS {
        live_units(view.units@).len() as int
    } else {
        UNIT_TOKENS as int
    }
}

/// Whether candidates are the first live units in key order.
pub open spec fn entities_match(
    tracker: StateTracker,
    view: WorldView,
    center: Option<Vec2>,
    entities: Seq<EntityCandidate>,
) -> bool {
    &&& entities.len() == entity_total(view)
    &&& forall|i: int|
        0 <= i < entities.len() ==> {
            &&& (#[trigger] entities[i]).unit.same(entity_at(tracker, view, center, i))
            &&& entities[i].relation == relation_of(
                tracker,
                entity_at(tracker, view, center, i),
            )
        }
}

proof fn lemma_live_step(units: Seq<UnitView>, count: int)
    requires
        0 <= count < units.len(),
    ensures
        live_units(units.subrange(0, count + 1)) == (if units[count].alive_spec() {
            live_units(units.subrange(0, count)).push(units[count])
        } else {
            live_units(units.subrange(0, count))
        }),
{
    assert(units.subrange(0, count + 1).drop_last() =~= units.subrange(0, count));
}

/// Live visible units in model order, capped at the entity-token count.
pub fn build_entity_candidates(
    tracker: &StateTracker,
    current: &WorldView,
    center: Option<Vec2>,
) -> (r: Vec<EntityCandidate>)
    requires
        tracker.wf(),
        crate::validation::units_inside(*tracker, *current),
        center matches Some(origin) ==> origin.on_map(),
    ensures
        entities_match(*tracker, *current, center, r@),
        r@.len() <= UNIT_TOKENS,
        forall|i: int| 0 <= i < r@.len() ==> (#[trigger] r@[i]).unit.pos.on_map(),
{
    let ghost units = current.units@;
    let ghost players = current.players@;
    let mut live: Vec<usize> = Vec::new();
    let mut keys: Vec<Vec<i128>> = Vec::new();
    let mut index: usize = 0;
    while index < current.units.len()
        invariant
            index <= units.len(),
            units == current.units@,
            tracker.wf(),
            crate::validation::units_inside(*tracker, *current),
            center matches Some(origin) ==> origin.on_map(),
            live@.len() == live_units(units.subrange(0, index as int)).len(),
            keys@.len() == live@.len(),
            forall|i: int|
                0 <= i < live@.len() ==> {
                    &&& (#[trigger] live@[i]) < index
                    &&& live_units(units.subrange(0, index as int))[i] == units[live@[i] as int]
                    &&& keys@[i]@ == entity_key(
                        *tracker,
                        current.players@,
                        units[live@[i] as int],
                        center,
                    )
                },
        decreases units.len() - index,
    {
        proof {
            lemma_live_step(units, index as int);
            assert(inside(units[index as int].pos, maximum_raw(tracker.axis())));
        }
        if current.units[index].is_alive() {
            let key = entity_priority(tracker, &current.players, &current.units[index], center);
            live.push(index);
            keys.push(key);
        }
        index += 1;
    }
    let order = stable_order(&keys);
    proof {
        assert(units.subrange(0, units.len() as int) =~= units);
        assert forall|i: int| 0 <= i < keys@.len() implies (#[trigger] key_views(keys@)[i])
            == entity_keys(*tracker, *current, center)[i] by {
            assert(live@[i] < units.len());
        }
        assert(key_views(keys@) =~= entity_keys(*tracker, *current, center));
    }
    let count: usize = if order.len() <= UNIT_TOKENS {
        order.len()
    } else {
        UNIT_TOKENS
    };
    let mut output: Vec<EntityCandidate> = Vec::new();
    index = 0;
    while index < count
        invariant
            index <= count <= order@.len(),
            count <= UNIT_TOKENS,
            units == current.units@,
            order@ == stable_order_of(entity_keys(*tracker, *current, center)),
            is_stable_order(entity_keys(*tracker, *current, center), order@),
            crate::validation::units_inside(*tracker, *current),
            live@.len() == live_units(units).len(),
            forall|i: int|
                0 <= i < live@.len() ==> (#[trigger] live@[i]) < units.len() && live_units(units)[i]
                    == units[live@[i] as int],
            output@.len() == index,
            forall|i: int|
                0 <= i < index ==> {
                    &&& (#[trigger] output@[i]).unit.same(entity_at(*tracker, *current, center, i))
                    &&& output@[i].relation == relation_of(
                        *tracker,
                        entity_at(*tracker, *current, center, i),
                    )
                    &&& output@[i].unit.pos.on_map()
                },
        decreases count - index,
    {
        assert(order@[index as int] < live@.len());
        let at: usize = live[order[index]];
        proof {
            assert(live_units(units)[order@[index as int] as int] == units[at as int]);
            assert(inside(units[at as int].pos, maximum_raw(tracker.axis())));
        }
        let unit = &current.units[at];
        output.push(
            EntityCandidate { unit: unit.duplicate(), relation: entity_relation(tracker, unit) },
        );
        index += 1;
    }
    output
}

/// Item, charges, position, and handle of a ground item.
pub open spec fn loot_key(loot: LootView) -> Seq<i128> {
    seq![loot.item.0 as i128] + optional_key(
        loot.charges is Some,
        seq![loot.charges->0 as i128],
    ) + seq![loot.pos.x.raw as i128, loot.pos.y.raw as i128, loot.id.0 as i128]
}

pub open spec fn loot_keys(loot: Seq<LootView>) -> Seq<Seq<i128>> {
    Seq::new(loot.len(), |i: int| loot_key(loot[i]))
}

pub open spec fn loot_candidate(loot: LootView) -> LootCandidate {
    LootCandidate { id: loot.id, position: loot.pos, item: loot.item, charges: loot.charges }
}

/// Ground items in key order.
pub open spec fn loot_spec(loot: Seq<LootView>) -> Seq<LootCandidate> {
    Seq::new(
        loot.len(),
        |i: int| loot_candidate(loot[stable_order_of(loot_keys(loot))[i] as int]),
    )
}

/// Visible ground items in model order.
pub fn build_loot_candidates(loot: &Vec<LootView>) -> (r: Vec<LootCandidate>)
    ensures
        r@ == loot_spec(loot@),
{
    let mut keys: Vec<Vec<i128>> = Vec::new();
    let mut index: usize = 0;
    while index < loot.len()
        invariant
            index <= loot@.len(),
            keys@.len() == index,
            forall|i: int| 0 <= i < index ==> (#[trigger] keys@[i])@ == loot_key(loot@[i]),
        decreases loot@.len() - index,
    {
        let item = loot[index];
        let mut key: Vec<i128> = Vec::new();
        key.push(item.item.0 as i128);
        match item.charges {
            Some(charges) => {
                key.push(1);
                key.push(charges as i128);
            },
            None => {
                key.push(0);
            },
        }
        key.push(item.pos.x.raw as i128);
        key.push(item.pos.y.raw as i128);
        key.push(item.id.0 as i128);
        assert(key@ =~= loot_key(item));
        keys.push(key);
        index += 1;
    }
    let order = stable_order(&keys);
    assert(key_views(keys@) =~= loot_keys(loot@));
    let mut output: Vec<LootCandidate> = Vec::new();
    index = 0;
    while index < order.len()
        invariant
            index <= order@.len(),
            order@.len() == loot@.len(),
            is_stable_order(loot_keys(loot@), order@),
            order@ == stable_order_of(loot_keys(loot@)),
            output@.len() == index,
            forall|i: int| 0 <= i < index ==> (#[trigger] output@[i]) == loot_spec(loot@)[i],
        decreases order@.len() - index,
    {
        assert(order@[index as int] < loot@.len());
        let item = loot[order[index]];
        output.push(
            LootCandidate {
                id: item.id,
                position: item.pos,
                item: item.item,
                charges: item.charges,
            },
        );
        index += 1;
    }
    assert(output@ =~= loot_spec(loot@));
    output
}

pub open spec fn shop_keys(shop: Seq<ShopEntry>) -> Seq<Seq<i128>> {
    Seq::new(shop.len(), |i: int| seq![shop[i].id.0 as i128])
}

/// Shop entries in item-id order.
pub open spec fn shop_spec(shop: Seq<ShopEntry>) -> Seq<ShopCandidate> {
    Seq::new(
        shop.len(),
        |i: int|
            {
                let entry = shop[stable_order_of(shop_keys(shop))[i] as int];
                ShopCandidate { item: entry.id, cost: entry.cost }
            },
    )
}

/// Shop entries in item-id order.
pub fn build_shop_candidates(shop: &Vec<ShopEntry>) -> (r: Vec<ShopCandidate>)
    ensures
        r@ == shop_spec(shop@),
{
    let mut keys: Vec<Vec<i128>> = Vec::new();
    let mut index: usize = 0;
    while index < shop.len()
        invariant
            index <= shop@.len(),
            keys@.len() == index,
            forall|i: int| 0 <= i < index ==> (#[trigger] keys@[i])@ == shop_keys(shop@)[i],
        decreases shop@.len() - index,
    {
        let mut key: Vec<i128> = Vec::new();
        key.push(shop[index].id.0 as i128);
        assert(key@ =~= shop_keys(shop@)[index as int]);
        keys.push(key);
        index += 1;
    }
    let order = stable_order(&keys);
    assert(key_views(keys@) =~= shop_keys(shop@));
    let mut output: Vec<ShopCandidate> = Vec::new();
    index = 0;
    while index < order.len()
        invariant
            index <= order@.len(),
            order@.len() == shop@.len(),
            is_stable_order(shop_keys(shop@), order@),
            order@ == stable_order_of(shop_keys(shop@)),
            output@.len() == index,
            forall|i: int| 0 <= i < index ==> (#[trigger] output@[i]) == shop_spec(shop@)[i],
        decreases order@.len() - index,
    {
        assert(order@[index as int] < shop@.len());
        let entry = &shop[order[index]];
        output.push(ShopCandidate { item: entry.id, cost: entry.cost });
        index += 1;
    }
    assert(output@ =~= shop_spec(shop@));
    output
}

} // verus!
