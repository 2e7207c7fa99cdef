//! Conditional legality masks of one controlled unit.
use crate::action::{
    ControlledUnit, EntityCandidate, EntityRelation, LootCandidate, PointCandidate, ShopCandidate,
    TargetMask, WIRE_ITEM_SLOTS,
};
use crate::search::{any_set, any_true, count_free, free_count};
use crate::shop::BuyRequirement;
use crate::tracker::{
    ItemReadiness, TrackerProvenance, COURIER_ITEM_SLOTS, HERO_ITEM_SLOTS, MAX_ABILITY_SLOTS,
    MAX_POINT_CANDIDATES, UNIT_TOKENS,
};
use crate::validation::{ability_in_schema, item_in_schema};
use crate::world::{
    square, AbilityView, Aim, Fixed, ItemSlot, ItemView, UnitKind, UnitView, Vec2,
    STATUS_DISARMED, STATUS_ROOTED, STATUS_SILENCED, STATUS_STUNNED,
};
use vstd::prelude::*;

verus! {

/// Distance at which stash swaps are permitted around the own fountain.
pub const STASH_ACCESS_RANGE: i32 = 1_000;
/// Inventory slots whose items can be activated.
pub const ACTIVE_ITEM_SLOTS: usize = 6;

/// A live controlled unit.
#[derive(Debug)]
pub struct ControlledState {
    pub unit: UnitView,
    pub underfoot_walkable: bool,
}

/// Ground targets of one bag slot.
#[derive(Debug)]
pub struct PutPointMask {
    pub underfoot: bool,
    pub points: Vec<bool>,
}

impl PutPointMask {
    pub open spec fn open(self) -> bool {
        self.underfoot || any_set(self.points@)
    }

    /// Whether some ground target is valid.
    pub fn any(&self) -> (r: bool)
        ensures
            r == self.open(),
    {
        self.underfoot || any_true(self.points.as_slice())
    }
}

/// All legality masks of one controlled unit.
#[derive(Debug)]
pub struct ControlledMasks {
    pub stop: bool,
    pub move_points: Vec<bool>,
    pub follow_entities: Vec<bool>,
    pub hold: bool,
    pub attack_move_points: Vec<bool>,
    pub attack_entities: Vec<bool>,
    pub casts: Vec<TargetMask>,
    pub uses: Vec<TargetMask>,
    pub put_points: Vec<PutPointMask>,
    pub put_units: Vec<Vec<bool>>,
    pub take: Vec<bool>,
    pub buy: Vec<bool>,
    pub sell: [bool; WIRE_ITEM_SLOTS],
    pub swap: Vec<[bool; WIRE_ITEM_SLOTS]>,
    pub learn: Vec<bool>,
}

/// Candidates and own state that masks are computed from.
#[derive(Debug)]
pub struct SpaceContext {
    pub provenance: TrackerProvenance,
    pub hero: Option<ControlledState>,
    pub courier: Option<ControlledState>,
    pub entities: Vec<EntityCandidate>,
    pub points: Vec<PointCandidate>,
    pub loot: Vec<LootCandidate>,
    pub shop: Vec<ShopCandidate>,
    pub tick: u32,
    pub readiness: ItemReadiness,
    pub own_gold: i32,
    pub own_stash: Vec<Option<ItemView>>,
    pub own_fountain: Option<Vec2>,
    pub allied_buildings: Vec<Vec2>,
    pub buy_requirements: Vec<BuyRequirement>,
}

impl ControlledState {
    pub open spec fn wf(self) -> bool {
        &&& self.unit.pos.on_map()
        &&& forall|i: int|
            0 <= i < self.unit.abilities@.len() ==> ability_in_schema(
                #[trigger] self.unit.abilities@[i],
            )
        &&& forall|i: int|
            0 <= i < self.unit.items@.len() ==> item_in_schema(#[trigger] self.unit.items@[i])
    }

    /// Whether the unit can walk.
    pub open spec fn moves(self) -> bool {
        !self.unit.statuses.has(STATUS_STUNNED) && !self.unit.statuses.has(STATUS_ROOTED)
    }

    /// Whether the unit can attack.
    pub open spec fn attacks(self) -> bool {
        !self.unit.statuses.has(STATUS_STUNNED) && !self.unit.statuses.has(STATUS_DISARMED)
    }

    /// Whether a bag slot holds an item.
    pub open spec fn holds(self, slot: int) -> bool {
        0 <= slot < self.unit.items@.len() && self.unit.items@[slot] is Some
    }

    /// Whether a bag slot holds an item.
    pub fn has_item(&self, slot: usize) -> (r: bool)
        ensures
            r == self.holds(slot as int),
    {
        slot < self.unit.items.len() && self.unit.items[slot].is_some()
    }
}

impl SpaceContext {
    pub open spec fn wf(self) -> bool {
        &&& self.hero matches Some(state) ==> state.wf()
        &&& self.courier matches Some(state) ==> state.wf()
        &&& forall|i: int|
            0 <= i < self.entities@.len() ==> (#[trigger] self.entities@[i]).unit.pos.on_map()
        &&& forall|i: int|
            0 <= i < self.points@.len() ==> (#[trigger] self.points@[i]).position.on_map()
        &&& forall|i: int|
            0 <= i < self.allied_buildings@.len() ==> (
            #[trigger] self.allied_buildings@[i]).on_map()
        &&& self.own_fountain matches Some(position) ==> position.on_map()
        &&& self.buy_requirements@.len() == self.shop@.len()
        &&& self.own_stash@.len() <= 6
        &&& self.entities@.len() <= UNIT_TOKENS
        &&& self.points@.len() <= MAX_POINT_CANDIDATES
    }

    pub open spec fn state(self, unit: ControlledUnit) -> Option<ControlledState> {
        match unit {
            ControlledUnit::Hero => self.hero,
            ControlledUnit::Courier => self.courier,
        }
    }
}

/// Whether a target lies within a whole-unit range.
pub open spec fn reaches(from: Vec2, to: Vec2, range: i32) -> bool {
    range >= 0 && from.distance2(to) <= square(range * 65_536)
}

/// Whether a target lies within a whole-unit range.
pub fn in_range(from: Vec2, to: Vec2, range: i32) -> (r: bool)
    requires
        from.on_map(),
        to.on_map(),
        range <= 32_767,
    ensures
        r == reaches(from, to, range),
{
    range >= 0 && from.within(to, Fixed::from_int(range))
}

pub open spec fn friendly(relation: EntityRelation) -> bool {
    relation == EntityRelation::Own || relation == EntityRelation::Allied
}

/// Whether an aimed effect may be put on an entity.
pub open spec fn entity_target_ok(
    state: ControlledState,
    aim: Aim,
    range: i32,
    active_item: bool,
    target: EntityCandidate,
) -> bool {
    &&& aim == Aim::Unit
    &&& !active_item || friendly(target.relation)
    &&& reaches(state.unit.pos, target.unit.pos, range)
}

/// Whether an aimed effect may be put on a point.
pub open spec fn point_target_ok(
    buildings: Seq<Vec2>,
    state: ControlledState,
    aim: Aim,
    range: i32,
    active_item: bool,
    point: PointCandidate,
) -> bool {
    match aim {
        Aim::Point => (!active_item || point.walkable) && reaches(
            state.unit.pos,
            point.position,
            range,
        ),
        Aim::Tree => point.standing_tree && reaches(state.unit.pos, point.position, range),
        Aim::Building => point.allied_building && point.walkable && exists|i: int|
            0 <= i < buildings.len() && reaches(#[trigger] buildings[i], point.position, range),
        Aim::Own => false,
        Aim::Unit => false,
    }
}

/// Whether a target mask is exactly what an aimed effect permits.
pub open spec fn target_mask_ok(
    context: SpaceContext,
    state: ControlledState,
    aim: Aim,
    range: i32,
    ready: bool,
    active_item: bool,
    mask: TargetMask,
) -> bool {
    &&& mask.none == (ready && aim == Aim::Own)
    &&& mask.entities@.len() == context.entities@.len()
    &&& mask.points@.len() == context.points@.len()
    &&& forall|i: int|
        0 <= i < mask.entities@.len() ==> (#[trigger] mask.entities@[i]) == (ready
            && entity_target_ok(state, aim, range, active_item, context.entities@[i]))
    &&& forall|i: int|
        0 <= i < mask.points@.len() ==> (#[trigger] mask.points@[i]) == (ready && point_target_ok(
            context.allied_buildings@,
            state,
            aim,
            range,
            active_item,
            context.points@[i],
        ))
}

/// Mask of a given length with every entry clear.
pub fn clear_mask(length: usize) -> (r: Vec<bool>)
    ensures
        r@.len() == length,
        forall|i: int| 0 <= i < length ==> !(#[trigger] r@[i]),
{
    let mut mask: Vec<bool> = Vec::new();
    mask.resize(length, false);
    mask
}

fn near_building(buildings: &Vec<Vec2>, position: Vec2, range: i32) -> (r: bool)
    requires
        forall|i: int| 0 <= i < buildings@.len() ==> (#[trigger] buildings@[i]).on_map(),
        position.on_map(),
        range <= 32_767,
    ensures
        r == exists|i: int|
            0 <= i < buildings@.len() && reaches(#[trigger] buildings@[i], position, range),
{
    let mut index: usize = 0;
    while index < buildings.len()
        invariant
            index <= buildings@.len(),
            forall|i: int| 0 <= i < buildings@.len() ==> (#[trigger] buildings@[i]).on_map(),
            position.on_map(),
            range <= 32_767,
            forall|i: int| 0 <= i < index ==> !reaches(#[trigger] buildings@[i], position, range),
        decreases buildings@.len() - index,
    {
        if in_range(buildings[index], position, range) {
            assert(reaches(buildings@[index as int], position, range));
            return true;
        }
        index += 1;
    }
    false
}

fn fill_unit_targets(
    context: &SpaceContext,
    state: &ControlledState,
    range: i32,
    active_item: bool,
) -> (mask: Vec<bool>)
    requires
        context.wf(),
        state.wf(),
        range <= 32_767,
    ensures
        mask@.len() == context.entities@.len(),
        forall|i: int|
            0 <= i < mask@.len() ==> (#[trigger] mask@[i]) == entity_target_ok(
                *state,
                Aim::Unit,
                range,
                active_item,
                context.entities@[i],
            ),
{
    let mut mask: Vec<bool> = Vec::new();
    let mut index: usize = 0;
    while index < context.entities.len()
        invariant
            index <= context.entities@.len(),
            context.wf(),
            state.wf(),
            range <= 32_767,
            mask@.len() == index,
            forall|i: int|
                0 <= i < index ==> (#[trigger] mask@[i]) == entity_target_ok(
                    *state,
                    Aim::Unit,
                    range,
                    active_item,
                    context.entities@[i],
                ),
        decreases context.entities@.len() - index,
    {
        let target = &context.entities[index];
        let allowed = !active_item || target.relation == EntityRelation::Own || target.relation
            == EntityRelation::Allied;
        mask.push(allowed && in_range(state.unit.pos, target.unit.pos, range));
        index += 1;
    }
    mask
}

fn fill_point_targets(
    context: &SpaceContext,
    state: &ControlledState,
    aim: Aim,
    range: i32,
    active_item: bool,
) -> (mask: Vec<bool>)
    requires
        context.wf(),
        state.wf(),
        range <= 32_767,
    ensures
        mask@.len() == context.points@.len(),
        forall|i: int|
            0 <= i < mask@.len() ==> (#[trigger] mask@[i]) == point_target_ok(
                context.allied_buildings@,
                *state,
                aim,
                range,
                active_item,
                context.points@[i],
            ),
{
    let mut mask: Vec<bool> = Vec::new();
    let mut index: usize = 0;
    while index < context.points.len()
        invariant
            index <= context.points@.len(),
            context.wf(),
            state.wf(),
            range <= 32_767,
            mask@.len() == index,
            forall|i: int|
                0 <= i < index ==> (#[trigger] mask@[i]) == point_target_ok(
                    context.allied_buildings@,
                    *state,
                    aim,
                    range,
                    active_item,
                    context.points@[i],
                ),
        decreases context.points@.len() - index,
    {
        let point = context.points[index];
        assert(context.points@[index as int].position.on_map());
        let allowed = match aim {
            Aim::Point => (!active_item || point.walkable) && in_range(
                state.unit.pos,
                point.position,
                range,
            ),
            Aim::Tree => point.standing_tree && in_range(state.unit.pos, point.position, range),
            Aim::Building => point.allied_building && point.walkable && near_building(
                &context.allied_buildings,
                point.position,
                range,
            ),
            Aim::Own => false,
            Aim::Unit => false,
        };
        mask.push(allowed);
        index += 1;
    }
    mask
}

/// Target mask of one ability or active item.
pub fn target_mask(
    context: &SpaceContext,
    state: &ControlledState,
    aim: Aim,
    range: i32,
    ready: bool,
    active_item: bool,
) -> (mask: TargetMask)
    requires
        context.wf(),
        state.wf(),
        range <= 32_767,
    ensures
        target_mask_ok(*context, *state, aim, range, ready, active_item, mask),
{
    if !ready {
        return TargetMask {
            none: false,
            entities: clear_mask(context.entities.len()),
            points: clear_mask(context.points.len()),
        };
    }
    let entities = if aim == Aim::Unit {
        fill_unit_targets(context, state, range, active_item)
    } else {
        clear_mask(context.entities.len())
    };
    let points = fill_point_targets(context, state, aim, range, active_item);
    TargetMask { none: aim == Aim::Own, entities, points }
}

/// Whether an ability can be cast now.
pub open spec fn cast_ready(state: ControlledState, ability: AbilityView) -> bool {
    &&& !state.unit.statuses.has(STATUS_STUNNED)
    &&& !state.unit.statuses.has(STATUS_SILENCED)
    &&& !ability.passive
    &&& ability.level > 0
    &&& ability.cooldown_left == 0
    &&& state.unit.mana >= ability.mana_cost
}

/// Number of ability slots a unit exposes.
pub open spec fn ability_total(unit: UnitView) -> int {
    if unit.abilities@.len() <= MAX_ABILITY_SLOTS {
        unit.abilities@.len() as int
    } else {
        MAX_ABILITY_SLOTS as int
    }
}

pub open spec fn casts_ok(
    context: SpaceContext,
    state: ControlledState,
    casts: Seq<TargetMask>,
) -> bool {
    &&& casts.len() == ability_total(state.unit)
    &&& forall|i: int|
        0 <= i < casts.len() ==> target_mask_ok(
            context,
            state,
            state.unit.abilities@[i].aim,
            state.unit.abilities@[i].range,
            cast_ready(state, state.unit.abilities@[i]),
            false,
            #[trigger] casts[i],
        )
}

fn fill_cast_masks(context: &SpaceContext, state: &ControlledState) -> (casts: Vec<TargetMask>)
    requires
        context.wf(),
        state.wf(),
    ensures
        casts_ok(*context, *state, casts@),
{
    let disabled = state.unit.statuses.contains(STATUS_STUNNED) || state.unit.statuses.contains(
        STATUS_SILENCED,
    );
    let mut casts: Vec<TargetMask> = Vec::new();
    let count: usize = if state.unit.abilities.len() <= MAX_ABILITY_SLOTS {
        state.unit.abilities.len()
    } else {
        MAX_ABILITY_SLOTS
    };
    let mut index: usize = 0;
    while index < count
        invariant
            index <= count,
            count == ability_total(state.unit),
            context.wf(),
            state.wf(),
            disabled == (state.unit.statuses.has(STATUS_STUNNED) || state.unit.statuses.has(
                STATUS_SILENCED,
            )),
            casts@.len() == index,
            forall|i: int|
                0 <= i < index ==> target_mask_ok(
                    *context,
                    *state,
                    state.unit.abilities@[i].aim,
                    state.unit.abilities@[i].range,
                    cast_ready(*state, state.unit.abilities@[i]),
                    false,
                    #[trigger] casts@[i],
                ),
        decreases count - index,
    {
        let ability = state.unit.abilities[index];
        assert(ability_in_schema(state.unit.abilities@[index as int]));
        let ready = !disabled && !ability.passive && ability.level > 0 && ability.cooldown_left
            == 0 && state.unit.mana >= ability.mana_cost;
        casts.push(target_mask(context, state, ability.aim, ability.range, ready, false));
        index += 1;
    }
    casts
}

/// Whether an active item can be used now.
pub open spec fn use_ready(
    context: SpaceContext,
    state: ControlledState,
    unit: ControlledUnit,
    slot: int,
    item: ItemView,
) -> bool {
    &&& item.cooldown_left == 0
    &&& item.charges != Some(0u8)
    &&& state.unit.mana >= item.mana_cost
    &&& !state.unit.statuses.has(STATUS_STUNNED)
    &&& !context.readiness.muted(unit, ItemSlot(slot as u8), context.tick)
    &&& !context.readiness.waiting(unit, item.id, context.tick)
}

pub open spec fn blank_mask(context: SpaceContext, mask: TargetMask) -> bool {
    &&& !mask.none
    &&& mask.entities@.len() == context.entities@.len()
    &&& mask.points@.len() == context.points@.len()
    &&& forall|i: int| 0 <= i < mask.entities@.len() ==> !(#[trigger] mask.entities@[i])
    &&& forall|i: int| 0 <= i < mask.points@.len() ==> !(#[trigger] mask.points@[i])
}

/// Whether a slot's use mask is what its item permits; empty and aimless slots permit nothing.
pub open spec fn use_mask_ok(
    context: SpaceContext,
    state: ControlledState,
    unit: ControlledUnit,
    slot: int,
    mask: TargetMask,
) -> bool {
    if !state.holds(slot) {
        blank_mask(context, mask)
    } else {
        let item = state.unit.items@[slot]->0;
        match item.aim {
            Some(aim) => target_mask_ok(
                context,
                state,
                aim,
                item.range,
                use_ready(context, state, unit, slot, item),
                true,
                mask,
            ),
            None => blank_mask(context, mask),
        }
    }
}

pub open spec fn uses_ok(
    context: SpaceContext,
    state: ControlledState,
    unit: ControlledUnit,
    uses: Seq<TargetMask>,
) -> bool {
    &&& uses.len() == ACTIVE_ITEM_SLOTS
    &&& forall|i: int|
        0 <= i < uses.len() ==> use_mask_ok(context, state, unit, i, #[trigger] uses[i])
}

fn fill_use_masks(context: &SpaceContext, state: &ControlledState, unit: ControlledUnit) -> (uses:
    Vec<TargetMask>)
    requires
        context.wf(),
        state.wf(),
    ensures
        uses_ok(*context, *state, unit, uses@),
{
    let mut uses: Vec<TargetMask> = Vec::new();
    let mut slot: usize = 0;
    while slot < ACTIVE_ITEM_SLOTS
        invariant
            slot <= ACTIVE_ITEM_SLOTS,
            context.wf(),
            state.wf(),
            uses@.len() == slot,
            forall|i: int|
                0 <= i < slot ==> use_mask_ok(*context, *state, unit, i, #[trigger] uses@[i]),
        decreases ACTIVE_ITEM_SLOTS - slot,
    {
        let held: Option<ItemView> = if slot < state.unit.items.len() {
            state.unit.items[slot]
        } else {
            None
        };
        let mask = match held {
            Some(item) => {
                assert(item_in_schema(state.unit.items@[slot as int]));
                let spent = match item.charges {
                    Some(charges) => charges == 0,
                    None => false,
                };
                let ready = item.cooldown_left == 0 && !spent && state.unit.mana >= item.mana_cost
                    && !state.unit.statuses.contains(STATUS_STUNNED)
                    && !context.readiness.inventory_muted(unit, ItemSlot(slot as u8), context.tick)
                    && !context.readiness.shared_waiting(unit, item.id, context.tick);
                match item.aim {
                    Some(aim) => target_mask(context, state, aim, item.range, ready, true),
                    None => TargetMask {
                        none: false,
                        entities: clear_mask(context.entities.len()),
                        points: clear_mask(context.points.len()),
                    },
                }
            },
            None => TargetMask {
                none: false,
                entities: clear_mask(context.entities.len()),
                points: clear_mask(context.points.len()),
            },
        };
        uses.push(mask);
        slot += 1;
    }
    uses
}


/// Bag slots of a controlled unit.
pub open spec fn bag_limit(unit: ControlledUnit) -> int {
    match unit {
        ControlledUnit::Hero => 9,
        ControlledUnit::Courier => 6,
    }
}

/// Bag slots of a controlled unit.
pub fn bag_slot_limit(unit: ControlledUnit) -> (r: usize)
    ensures
        r == bag_limit(unit),
{
    match unit {
        ControlledUnit::Hero => HERO_ITEM_SLOTS,
        ControlledUnit::Courier => COURIER_ITEM_SLOTS,
    }
}

/// Whether an item may be handed to an entity: another friendly carrier with a free slot.
pub open spec fn put_target_ok(state: ControlledState, target: EntityCandidate) -> bool {
    &&& target.unit.id != state.unit.id
    &&& friendly(target.relation)
    &&& target.unit.kind == UnitKind::Hero || target.unit.kind == UnitKind::Courier
    &&& free_count(target.unit.items@) > 0
}

fn valid_put_unit_target(state: &ControlledState, target: &EntityCandidate) -> (r: bool)
    ensures
        r == put_target_ok(*state, *target),
{
    target.unit.id != state.unit.id && (target.relation == EntityRelation::Own || target.relation
        == EntityRelation::Allied) && (target.unit.kind == UnitKind::Hero || target.unit.kind
        == UnitKind::Courier) && count_free(&target.unit.items) > 0
}

pub open spec fn put_point_ok(
    context: SpaceContext,
    state: ControlledState,
    slot: int,
    mask: PutPointMask,
) -> bool {
    &&& mask.underfoot == (state.holds(slot) && state.underfoot_walkable)
    &&& mask.points@.len() == context.points@.len()
    &&& forall|i: int|
        0 <= i < mask.points@.len() ==> (#[trigger] mask.points@[i]) == (state.holds(slot)
            && context.points@[i].walkable)
}

pub open spec fn put_unit_ok(
    context: SpaceContext,
    state: ControlledState,
    slot: int,
    mask: Seq<bool>,
) -> bool {
    &&& mask.len() == context.entities@.len()
    &&& forall|i: int|
        0 <= i < mask.len() ==> (#[trigger] mask[i]) == (state.holds(slot) && put_target_ok(
            state,
            context.entities@[i],
        ))
}

pub open spec fn puts_ok(
    context: SpaceContext,
    state: ControlledState,
    unit: ControlledUnit,
    put_points: Seq<PutPointMask>,
    put_units: Seq<Vec<bool>>,
) -> bool {
    &&& put_points.len() == bag_limit(unit)
    &&& put_units.len() == bag_limit(unit)
    &&& forall|i: int|
        0 <= i < put_points.len() ==> put_point_ok(context, state, i, #[trigger] put_points[i])
    &&& forall|i: int|
        0 <= i < put_units.len() ==> put_unit_ok(context, state, i, (#[trigger] put_units[i])@)
}

fn walkable_mask(context: &SpaceContext, enabled: bool) -> (mask: Vec<bool>)
    ensures
        mask@.len() == context.points@.len(),
        forall|i: int|
            0 <= i < mask@.len() ==> (#[trigger] mask@[i]) == (enabled
                && context.points@[i].walkable),
{
    let mut mask: Vec<bool> = Vec::new();
    let mut index: usize = 0;
    while index < context.points.len()
        invariant
            index <= context.points@.len(),
            mask@.len() == index,
            forall|i: int|
                0 <= i < index ==> (#[trigger] mask@[i]) == (enabled
                    && context.points@[i].walkable),
        decreases context.points@.len() - index,
    {
        mask.push(enabled && context.points[index].walkable);
        index += 1;
    }
    mask
}

fn fill_put_masks(context: &SpaceContext, state: &ControlledState, unit: ControlledUnit) -> (r: (
    Vec<PutPointMask>,
    Vec<Vec<bool>>,
))
    ensures
        puts_ok(*context, *state, unit, r.0@, r.1@),
{
    let limit = bag_slot_limit(unit);
    let mut put_points: Vec<PutPointMask> = Vec::new();
    let mut put_units: Vec<Vec<bool>> = Vec::new();
    let mut source: usize = 0;
    while source < limit
        invariant
            source <= limit,
            limit == bag_limit(unit),
            put_points@.len() == source,
            put_units@.len() == source,
            forall|i: int|
                0 <= i < source ==> put_point_ok(*context, *state, i, #[trigger] put_points@[i]),
            forall|i: int|
                0 <= i < source ==> put_unit_ok(*context, *state, i, (#[trigger] put_units@[i])@),
        decreases limit - source,
    {
        let held = state.has_item(source);
        let mut units: Vec<bool> = Vec::new();
        let mut index: usize = 0;
        while index < context.entities.len()
            invariant
                index <= context.entities@.len(),
                held == state.holds(source as int),
                units@.len() == index,
                forall|i: int|
                    0 <= i < index ==> (#[trigger] units@[i]) == (state.holds(source as int)
                        && put_target_ok(*state, context.entities@[i])),
            decreases context.entities@.len() - index,
        {
            units.push(held && valid_put_unit_target(state, &context.entities[index]));
            index += 1;
        }
        put_points.push(
            PutPointMask {
                underfoot: held && state.underfoot_walkable,
                points: walkable_mask(context, held),
            },
        );
        put_units.push(units);
        source += 1;
    }
    (put_points, put_units)
}

/// Whether a wire slot addresses the stash.
pub open spec fn stash_slot(slot: int) -> bool {
    9 <= slot < 15
}

/// Whether a wire slot addresses the stash.
pub fn is_stash(slot: usize) -> (r: bool)
    ensures
        r == stash_slot(slot as int),
{
    slot >= HERO_ITEM_SLOTS && slot < WIRE_ITEM_SLOTS
}

/// Item in a wire slot: the unit's bag first, then the stash.
pub open spec fn item_in(
    context: SpaceContext,
    state: ControlledState,
    unit: ControlledUnit,
    slot: int,
) -> Option<ItemView> {
    if 0 <= slot < bag_limit(unit) {
        if slot < state.unit.items@.len() {
            state.unit.items@[slot]
        } else {
            None
        }
    } else if stash_slot(slot) && slot - 9 < context.own_stash@.len() {
        context.own_stash@[slot - 9]
    } else {
        None
    }
}

fn item_at(
    context: &SpaceContext,
    state: &ControlledState,
    unit: ControlledUnit,
    slot: usize,
) -> (r: Option<ItemView>)
    ensures
        r == item_in(*context, *state, unit, slot as int),
{
    if slot < bag_slot_limit(unit) {
        if slot < state.unit.items.len() {
            state.unit.items[slot]
        } else {
            None
        }
    } else if is_stash(slot) && slot - HERO_ITEM_SLOTS < context.own_stash.len() {
        context.own_stash[slot - HERO_ITEM_SLOTS]
    } else {
        None
    }
}

/// Whether a wire slot exists for a unit.
pub open spec fn slot_in(
    context: SpaceContext,
    state: ControlledState,
    unit: ControlledUnit,
    slot: int,
) -> bool {
    if 0 <= slot < bag_limit(unit) {
        slot < state.unit.items@.len()
    } else {
        stash_slot(slot) && slot - 9 < context.own_stash@.len()
    }
}

fn slot_exists(
    context: &SpaceContext,
    state: &ControlledState,
    unit: ControlledUnit,
    slot: usize,
) -> (r: bool)
    ensures
        r == slot_in(*context, *state, unit, slot as int),
{
    if slot < bag_slot_limit(unit) {
        slot < state.unit.items.len()
    } else {
        is_stash(slot) && slot - HERO_ITEM_SLOTS < context.own_stash.len()
    }
}

/// Whether a position lies within stash range of the own fountain.
pub open spec fn near_fountain(context: SpaceContext, position: Vec2) -> bool {
    context.own_fountain matches Some(fountain) && position.distance2(fountain) <= square(
        65_536_000,
    )
}

fn near_own_fountain(context: &SpaceContext, position: Vec2) -> (r: bool)
    requires
        context.wf(),
        position.on_map(),
    ensures
        r == near_fountain(*context, position),
{
    match context.own_fountain {
        Some(fountain) => position.within(fountain, Fixed::from_int(STASH_ACCESS_RANGE)),
        None => false,
    }
}

/// Free slots a purchase can fill: the stash, and the bag next to the own fountain.
pub open spec fn purchase_slots(context: SpaceContext, state: ControlledState) -> nat {
    free_count(context.own_stash@) + (if near_fountain(context, state.unit.pos) {
        free_count(state.unit.items@)
    } else {
        0
    })
}

/// Whether an item can be bought now.
pub open spec fn buyable(
    context: SpaceContext,
    state: ControlledState,
    unit: ControlledUnit,
    index: int,
) -> bool {
    let slots = purchase_slots(context, state);
    let requirement = context.buy_requirements@[index];
    &&& unit == ControlledUnit::Hero
    &&& slots > 0
    &&& slots >= requirement.missing_slots
    &&& context.own_gold >= context.shop@[index].cost
    &&& context.own_gold >= requirement.missing_cost
}

fn fill_buy_mask(context: &SpaceContext, state: &ControlledState, unit: ControlledUnit) -> (mask:
    Vec<bool>)
    requires
        context.wf(),
        state.wf(),
    ensures
        mask@.len() == context.shop@.len(),
        forall|i: int|
            0 <= i < mask@.len() ==> (#[trigger] mask@[i]) == buyable(*context, *state, unit, i),
{
    if unit != ControlledUnit::Hero {
        return clear_mask(context.shop.len());
    }
    let stash_slots = count_free(&context.own_stash);
    let hero_slots: usize = if near_own_fountain(context, state.unit.pos) {
        count_free(&state.unit.items)
    } else {
        0
    };
    let free_slots: u128 = stash_slots as u128 + hero_slots as u128;
    let mut mask: Vec<bool> = Vec::new();
    let mut index: usize = 0;
    while index < context.shop.len()
        invariant
            index <= context.shop@.len(),
            context.wf(),
            unit == ControlledUnit::Hero,
            free_slots == purchase_slots(*context, *state),
            mask@.len() == index,
            forall|i: int|
                0 <= i < index ==> (#[trigger] mask@[i]) == buyable(*context, *state, unit, i),
        decreases context.shop@.len() - index,
    {
        let requirement = context.buy_requirements[index];
        mask.push(
            free_slots > 0 && free_slots >= requirement.missing_slots as u128 && context.own_gold
                >= context.shop[index].cost && context.own_gold >= requirement.missing_cost,
        );
        index += 1;
    }
    mask
}

/// Whether the item in one wire slot may be swapped into another.
pub open spec fn swappable(
    context: SpaceContext,
    state: ControlledState,
    unit: ControlledUnit,
    from: int,
    to: int,
) -> bool {
    &&& from != to
    &&& item_in(context, state, unit, from) is Some
    &&& slot_in(context, state, unit, to)
    &&& stash_slot(from) || stash_slot(to) ==> near_fountain(context, state.unit.pos)
}

pub open spec fn sells_ok(
    context: SpaceContext,
    state: ControlledState,
    unit: ControlledUnit,
    sell: Seq<bool>,
) -> bool {
    &&& sell.len() == WIRE_ITEM_SLOTS
    &&& forall|i: int|
        0 <= i < sell.len() ==> (#[trigger] sell[i]) == (item_in(
            context,
            state,
            unit,
            i,
        ) matches Some(item) && item.for_sale)
}

pub open spec fn swaps_ok(
    context: SpaceContext,
    state: ControlledState,
    unit: ControlledUnit,
    swap: Seq<[bool; WIRE_ITEM_SLOTS]>,
) -> bool {
    &&& swap.len() == WIRE_ITEM_SLOTS
    &&& forall|from: int, to: int|
        0 <= from < WIRE_ITEM_SLOTS && 0 <= to < WIRE_ITEM_SLOTS ==> (#[trigger] swap[from]@[to])
            == swappable(context, state, unit, from, to)
}

fn fill_sell_mask(context: &SpaceContext, state: &ControlledState, unit: ControlledUnit) -> (sell:
    [bool; WIRE_ITEM_SLOTS])
    ensures
        sells_ok(*context, *state, unit, sell@),
{
    let mut sell: [bool; WIRE_ITEM_SLOTS] = [false;WIRE_ITEM_SLOTS];
    let mut slot: usize = 0;
    while slot < WIRE_ITEM_SLOTS
        invariant
            slot <= WIRE_ITEM_SLOTS,
            sell@.len() == WIRE_ITEM_SLOTS,
            forall|i: int|
                0 <= i < slot ==> (#[trigger] sell@[i]) == (item_in(
                    *context,
                    *state,
                    unit,
                    i,
                ) matches Some(item) && item.for_sale),
        decreases WIRE_ITEM_SLOTS - slot,
    {
        let for_sale = match item_at(context, state, unit, slot) {
            Some(item) => item.for_sale,
            None => false,
        };
        sell[slot] = for_sale;
        slot += 1;
    }
    sell
}

fn fill_swap_mask(context: &SpaceContext, state: &ControlledState, unit: ControlledUnit) -> (swap:
    Vec<[bool; WIRE_ITEM_SLOTS]>)
    requires
        context.wf(),
        state.wf(),
    ensures
        swaps_ok(*context, *state, unit, swap@),
{
    let near = near_own_fountain(context, state.unit.pos);
    let mut swap: Vec<[bool; WIRE_ITEM_SLOTS]> = Vec::new();
    let mut from: usize = 0;
    while from < WIRE_ITEM_SLOTS
        invariant
            from <= WIRE_ITEM_SLOTS,
            near == near_fountain(*context, state.unit.pos),
            swap@.len() == from,
            forall|i: int, to: int|
                0 <= i < from && 0 <= to < WIRE_ITEM_SLOTS ==> (#[trigger] swap@[i]@[to])
                    == swappable(*context, *state, unit, i, to),
        decreases WIRE_ITEM_SLOTS - from,
    {
        let held = item_at(context, state, unit, from).is_some();
        let mut row: [bool; WIRE_ITEM_SLOTS] = [false;WIRE_ITEM_SLOTS];
        let mut to: usize = 0;
        while to < WIRE_ITEM_SLOTS
            invariant
                from < WIRE_ITEM_SLOTS,
                to <= WIRE_ITEM_SLOTS,
                near == near_fountain(*context, state.unit.pos),
                held == item_in(*context, *state, unit, from as int) is Some,
                row@.len() == WIRE_ITEM_SLOTS,
                forall|j: int|
                    0 <= j < to ==> (#[trigger] row@[j]) == swappable(
                        *context,
                        *state,
                        unit,
                        from as int,
                        j,
                    ),
            decreases WIRE_ITEM_SLOTS - to,
        {
            let allowed = from != to && held && slot_exists(context, state, unit, to) && (!(
            is_stash(from) || is_stash(to)) || near);
            row[to] = allowed;
            to += 1;
        }
        swap.push(row);
        from += 1;
    }
    swap
}

pub open spec fn learns_ok(state: ControlledState, unit: ControlledUnit, learn: Seq<bool>) -> bool {
    if unit == ControlledUnit::Hero {
        &&& learn.len() == ability_total(state.unit)
        &&& forall|i: int|
            0 <= i < learn.len() ==> (#[trigger] learn[i]) == state.unit.abilities@[i].can_level
    } else {
        learn.len() == 0
    }
}

fn fill_learn_mask(state: &ControlledState, unit: ControlledUnit) -> (learn: Vec<bool>)
    ensures
        learns_ok(*state, unit, learn@),
{
    let mut learn: Vec<bool> = Vec::new();
    if unit != ControlledUnit::Hero {
        return learn;
    }
    let count: usize = if state.unit.abilities.len() <= MAX_ABILITY_SLOTS {
        state.unit.abilities.len()
    } else {
        MAX_ABILITY_SLOTS
    };
    let mut index: usize = 0;
    while index < count
        invariant
            index <= count,
            count == ability_total(state.unit),
            learn@.len() == index,
            forall|i: int|
                0 <= i < index ==> (#[trigger] learn@[i]) == state.unit.abilities@[i].can_level,
        decreases count - index,
    {
        learn.push(state.unit.abilities[index].can_level);
        index += 1;
    }
    learn
}

pub open spec fn others_ok(
    context: SpaceContext,
    state: ControlledState,
    enabled: bool,
    mask: Seq<bool>,
) -> bool {
    &&& mask.len() == context.entities@.len()
    &&& forall|i: int|
        0 <= i < mask.len() ==> (#[trigger] mask[i]) == (enabled && context.entities@[i].unit.id
            != state.unit.id)
}

fn others_mask(context: &SpaceContext, state: &ControlledState, enabled: bool) -> (mask: Vec<bool>)
    ensures
        others_ok(*context, *state, enabled, mask@),
{
    let mut mask: Vec<bool> = Vec::new();
    let mut index: usize = 0;
    while index < context.entities.len()
        invariant
            index <= context.entities@.len(),
            mask@.len() == index,
            forall|i: int|
                0 <= i < index ==> (#[trigger] mask@[i]) == (enabled
                    && context.entities@[i].unit.id != state.unit.id),
        decreases context.entities@.len() - index,
    {
        mask.push(enabled && context.entities[index].unit.id != state.unit.id);
        index += 1;
    }
    mask
}

pub open spec fn walks_ok(context: SpaceContext, enabled: bool, mask: Seq<bool>) -> bool {
    &&& mask.len() == context.points@.len()
    &&& forall|i: int|
        0 <= i < mask.len() ==> (#[trigger] mask[i]) == (enabled && context.points@[i].walkable)
}

pub open spec fn all_clear(mask: Seq<bool>, length: nat) -> bool {
    &&& mask.len() == length
    &&& forall|i: int| 0 <= i < mask.len() ==> !(#[trigger] mask[i])
}

/// Masks of a unit that is not on the map permit nothing.
pub open spec fn masks_blank(context: SpaceContext, masks: ControlledMasks) -> bool {
    &&& !masks.stop
    &&& !masks.hold
    &&& all_clear(masks.move_points@, context.points@.len())
    &&& all_clear(masks.attack_move_points@, context.points@.len())
    &&& all_clear(masks.follow_entities@, context.entities@.len())
    &&& all_clear(masks.attack_entities@, context.entities@.len())
    &&& masks.casts@.len() == 0
    &&& masks.uses@.len() == 0
    &&& masks.put_points@.len() == 0
    &&& masks.put_units@.len() == 0
    &&& all_clear(masks.take@, context.loot@.len())
    &&& all_clear(masks.buy@, context.shop@.len())
    &&& all_clear(masks.sell@, 15)
    &&& masks.swap@.len() == 15
    &&& forall|i: int| 0 <= i < 15 ==> all_clear((#[trigger] masks.swap@[i])@, 15)
    &&& masks.learn@.len() == 0
}

/// Masks of a live unit are exactly what its state and the candidates permit.
pub open spec fn masks_live(
    context: SpaceContext,
    state: ControlledState,
    unit: ControlledUnit,
    masks: ControlledMasks,
) -> bool {
    &&& masks.stop
    &&& masks.hold == state.attacks()
    &&& walks_ok(context, state.moves(), masks.move_points@)
    &&& walks_ok(context, state.attacks(), masks.attack_move_points@)
    &&& others_ok(context, state, state.moves(), masks.follow_entities@)
    &&& others_ok(context, state, state.attacks(), masks.attack_entities@)
    &&& casts_ok(context, state, masks.casts@)
    &&& uses_ok(context, state, unit, masks.uses@)
    &&& puts_ok(context, state, unit, masks.put_points@, masks.put_units@)
    &&& masks.take@.len() == context.loot@.len()
    &&& forall|i: int|
        0 <= i < masks.take@.len() ==> (#[trigger] masks.take@[i]) == (free_count(
            state.unit.items@,
        ) > 0)
    &&& masks.buy@.len() == context.shop@.len()
    &&& forall|i: int|
        0 <= i < masks.buy@.len() ==> (#[trigger] masks.buy@[i]) == buyable(
            context,
            state,
            unit,
            i,
        )
    &&& sells_ok(context, state, unit, masks.sell@)
    &&& swaps_ok(context, state, unit, masks.swap@)
    &&& learns_ok(state, unit, masks.learn@)
}

/// Whether masks are what the candidates and the unit's state permit.
pub open spec fn masks_ok(
    context: SpaceContext,
    unit: ControlledUnit,
    masks: ControlledMasks,
) -> bool {
    match context.state(unit) {
        Some(state) => masks_live(context, state, unit, masks),
        None => masks_blank(context, masks),
    }
}

impl ControlledMasks {
    /// Masks that permit nothing.
    pub fn empty(context: &SpaceContext) -> (masks: Self)
        ensures
            masks_blank(*context, masks),
    {
        let mut swap: Vec<[bool; WIRE_ITEM_SLOTS]> = Vec::new();
        let row: [bool; WIRE_ITEM_SLOTS] = [false;WIRE_ITEM_SLOTS];
        let mut index: usize = 0;
        while index < WIRE_ITEM_SLOTS
            invariant
                index <= WIRE_ITEM_SLOTS,
                swap@.len() == index,
                all_clear(row@, 15),
                forall|i: int| 0 <= i < index ==> all_clear((#[trigger] swap@[i])@, 15),
            decreases WIRE_ITEM_SLOTS - index,
        {
            swap.push(row);
            index += 1;
        }
        ControlledMasks {
            stop: false,
            move_points: clear_mask(context.points.len()),
            follow_entities: clear_mask(context.entities.len()),
            hold: false,
            attack_move_points: clear_mask(context.points.len()),
            attack_entities: clear_mask(context.entities.len()),
            casts: Vec::new(),
            uses: Vec::new(),
            put_points: Vec::new(),
            put_units: Vec::new(),
            take: clear_mask(context.loot.len()),
            buy: clear_mask(context.shop.len()),
            sell: row,
            swap,
            learn: Vec::new(),
        }
    }
}

/// All legality masks of one controlled unit.
pub fn build_controlled_masks(context: &SpaceContext, unit: ControlledUnit) -> (masks:
    ControlledMasks)
    requires
        context.wf(),
    ensures
        masks_ok(*context, unit, masks),
{
    let state: &ControlledState = match unit {
        ControlledUnit::Hero => match &context.hero {
            Some(state) => state,
            None => {
                return ControlledMasks::empty(context);
            },
        },
        ControlledUnit::Courier => match &context.courier {
            Some(state) => state,
            None => {
                return ControlledMasks::empty(context);
            },
        },
    };
    let stunned = state.unit.statuses.contains(STATUS_STUNNED);
    let moves = !stunned && !state.unit.statuses.contains(STATUS_ROOTED);
    let attacks = !stunned && !state.unit.statuses.contains(STATUS_DISARMED);
    let (put_points, put_units) = fill_put_masks(context, state, unit);
    let mut take: Vec<bool> = Vec::new();
    take.resize(context.loot.len(), count_free(&state.unit.items) > 0);
    ControlledMasks {
        stop: true,
        move_points: walkable_mask(context, moves),
        follow_entities: others_mask(context, state, moves),
        hold: attacks,
        attack_move_points: walkable_mask(context, attacks),
        attack_entities: others_mask(context, state, attacks),
        casts: fill_cast_masks(context, state),
        uses: fill_use_masks(context, state, unit),
        put_points,
        put_units,
        take,
        buy: fill_buy_mask(context, state, unit),
        sell: fill_sell_mask(context, state, unit),
        swap: fill_swap_mask(context, state, unit),
        learn: fill_learn_mask(state, unit),
    }
}

} // verus!
