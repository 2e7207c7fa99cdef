//! Checks of wire values before an action space is built from them.
use crate::action::ActionError;
use crate::passability::{radii_fit, STRUCTURE_CLEARANCE_RAW};
use crate::search::{first_index, lemma_first_from_found, lemma_first_from_none};
use crate::tracker::{StateTracker, TERRAIN_CELL_RAW};
use crate::world::{
    AbilityView, ItemView, ShopEntry, UnitView, Vec2, WorldView, FIXED_MAX_INT, FIXED_MAX_RAW,
};
use vstd::prelude::*;

verus! {

pub open spec fn ability_in_schema(ability: AbilityView) -> bool {
    0 <= ability.range <= FIXED_MAX_INT && ability.mana_cost >= 0
}

pub open spec fn item_in_schema(slot: Option<ItemView>) -> bool {
    slot matches Some(item) ==> 0 <= item.range <= FIXED_MAX_INT && item.mana_cost >= 0
}

/// First field of a unit that breaks the wire schema.
pub open spec fn unit_fault(unit: UnitView) -> Option<ActionError> {
    if unit.radius.raw < 0 || unit.radius.raw > FIXED_MAX_RAW - STRUCTURE_CLEARANCE_RAW {
        Some(ActionError::InvalidSchema("UnitView radius"))
    } else if exists|i: int|
        0 <= i < unit.abilities@.len() && !ability_in_schema(#[trigger] unit.abilities@[i]) {
        Some(ActionError::InvalidSchema("AbilityView range or mana cost"))
    } else if exists|i: int|
        0 <= i < unit.items@.len() && !item_in_schema(#[trigger] unit.items@[i]) {
        Some(ActionError::InvalidSchema("ItemView range or mana cost"))
    } else {
        None
    }
}

/// First break of the wire schema in the visible units, then in the shop.
pub open spec fn dynamic_fault(units: Seq<UnitView>, shop: Seq<ShopEntry>) -> Option<ActionError> {
    match first_index(units, |unit: UnitView| unit_fault(unit) is Some) {
        Some(i) => unit_fault(units[i]),
        None => if exists|i: int| 0 <= i < shop.len() && (#[trigger] shop[i]).cost < 0 {
            Some(ActionError::InvalidSchema("ShopEntry cost"))
        } else {
            None
        },
    }
}

/// Result that carries a fault, if there is one.
pub open spec fn faulted(fault: Option<ActionError>) -> Result<(), ActionError> {
    match fault {
        Some(error) => Err(error),
        None => Ok(()),
    }
}

fn validate_unit(unit: &UnitView) -> (r: Result<(), ActionError>)
    ensures
        r == faulted(unit_fault(*unit)),
{
    if unit.radius.raw < 0 || unit.radius.raw > FIXED_MAX_RAW - STRUCTURE_CLEARANCE_RAW {
        return Err(ActionError::InvalidSchema("UnitView radius"));
    }
    let mut index: usize = 0;
    while index < unit.abilities.len()
        invariant
            index <= unit.abilities@.len(),
            0 <= unit.radius.raw <= FIXED_MAX_RAW - STRUCTURE_CLEARANCE_RAW,
            forall|i: int| 0 <= i < index ==> ability_in_schema(#[trigger] unit.abilities@[i]),
        decreases unit.abilities@.len() - index,
    {
        let ability = unit.abilities[index];
        if ability.range < 0 || ability.range > FIXED_MAX_INT || ability.mana_cost < 0 {
            assert(!ability_in_schema(unit.abilities@[index as int]));
            return Err(ActionError::InvalidSchema("AbilityView range or mana cost"));
        }
        index += 1;
    }
    index = 0;
    while index < unit.items.len()
        invariant
            index <= unit.items@.len(),
            0 <= unit.radius.raw <= FIXED_MAX_RAW - STRUCTURE_CLEARANCE_RAW,
            forall|i: int|
                0 <= i < unit.abilities@.len() ==> ability_in_schema(#[trigger] unit.abilities@[i]),
            forall|i: int| 0 <= i < index ==> item_in_schema(#[trigger] unit.items@[i]),
        decreases unit.items@.len() - index,
    {
        if let Some(item) = unit.items[index] {
            if item.range < 0 || item.range > FIXED_MAX_INT || item.mana_cost < 0 {
                assert(!item_in_schema(unit.items@[index as int]));
                return Err(ActionError::InvalidSchema("ItemView range or mana cost"));
            }
        }
        index += 1;
    }
    Ok(())
}

/// Checks visible units and shop prices against the wire schema.
pub fn validate_dynamic_schema(units: &Vec<UnitView>, shop: &Vec<ShopEntry>) -> (r: Result<
    (),
    ActionError,
>)
    ensures
        r == faulted(dynamic_fault(units@, shop@)),
        r is Ok ==> radii_fit(units@),
        r is Ok ==> forall|i: int|
            0 <= i < units@.len() ==> unit_fault(#[trigger] units@[i]) is None,
{
    let ghost broken = |unit: UnitView| unit_fault(unit) is Some;
    let mut index: usize = 0;
    while index < units.len()
        invariant
            index <= units@.len(),
            broken == (|unit: UnitView| unit_fault(unit) is Some),
            forall|j: int| 0 <= j < index ==> !broken(#[trigger] units@[j]),
        decreases units@.len() - index,
    {
        if let Err(error) = validate_unit(&units[index]) {
            proof {
                lemma_first_from_found(units@, broken, 0, index as int);
            }
            return Err(error);
        }
        index += 1;
    }
    proof {
        lemma_first_from_none(units@, broken, 0);
        assert forall|j: int| 0 <= j < units@.len() implies unit_fault(
            #[trigger] units@[j],
        ) is None by {
            assert(!broken(units@[j]));
        }
        assert forall|j: int| 0 <= j < units@.len() implies 0 <= (#[trigger] units@[j]).radius.raw
            && units@[j].radius.raw + STRUCTURE_CLEARANCE_RAW <= i32::MAX by {
            assert(!broken(units@[j]));
        }
    }
    index = 0;
    while index < shop.len()
        invariant
            index <= shop@.len(),
            radii_fit(units@),
            forall|i: int| 0 <= i < units@.len() ==> unit_fault(#[trigger] units@[i]) is None,
            dynamic_fault(units@, shop@) == (if exists|i: int|
                0 <= i < shop@.len() && (#[trigger] shop@[i]).cost < 0 {
                Some(ActionError::InvalidSchema("ShopEntry cost"))
            } else {
                None
            }),
            forall|i: int| 0 <= i < index ==> (#[trigger] shop@[i]).cost >= 0,
        decreases shop@.len() - index,
    {
        if shop[index].cost < 0 {
            assert(shop@[index as int].cost < 0);
            return Err(ActionError::InvalidSchema("ShopEntry cost"));
        }
        index += 1;
    }
    Ok(())
}

/// Largest raw coordinate on the map.
pub open spec fn maximum_raw(axis: int) -> int {
    axis * 4_194_304 - 1
}

/// Largest raw coordinate on the map.
pub fn map_maximum_raw(tracker: &StateTracker) -> (r: i64)
    requires
        tracker.wf(),
    ensures
        r == maximum_raw(tracker.axis()),
        0 <= r <= i32::MAX,
{
    tracker.metadata.terrain_cells as i64 * TERRAIN_CELL_RAW - 1
}

/// Whether a position lies on a map whose largest coordinate is `maximum`.
pub open spec fn inside(position: Vec2, maximum: int) -> bool {
    0 <= position.x.raw <= maximum && 0 <= position.y.raw <= maximum
}

fn validate_position(position: Vec2, maximum: i64, field: &'static str) -> (r: Result<
    (),
    ActionError,
>)
    ensures
        r == faulted(
            if inside(position, maximum as int) {
                None
            } else {
                Some(ActionError::InvalidSchema(field))
            },
        ),
{
    let x: i64 = position.x.raw as i64;
    let y: i64 = position.y.raw as i64;
    if x < 0 || y < 0 || x > maximum || y > maximum {
        return Err(ActionError::InvalidSchema(field));
    }
    Ok(())
}

/// Whether every static tree lies on the map.
pub open spec fn trees_inside(tracker: StateTracker) -> bool {
    forall|i: int|
        0 <= i < tracker.static_trees@.len() ==> inside(
            #[trigger] tracker.static_trees@[i],
            maximum_raw(tracker.axis()),
        )
}

/// Whether every visible unit lies on the map.
pub open spec fn units_inside(tracker: StateTracker, view: WorldView) -> bool {
    forall|i: int|
        0 <= i < view.units@.len() ==> inside(
            (#[trigger] view.units@[i]).pos,
            maximum_raw(tracker.axis()),
        )
}

/// Whether every planted tree lies on the map.
pub open spec fn planted_inside(tracker: StateTracker, view: WorldView) -> bool {
    forall|i: int|
        0 <= i < view.planted_trees@.len() ==> inside(
            #[trigger] view.planted_trees@[i],
            maximum_raw(tracker.axis()),
        )
}

/// Whether every visible ground item lies on the map.
pub open spec fn loot_inside(tracker: StateTracker, view: WorldView) -> bool {
    forall|i: int|
        0 <= i < view.loot@.len() ==> inside(
            (#[trigger] view.loot@[i]).pos,
            maximum_raw(tracker.axis()),
        )
}

/// First kind of position that leaves the map.
pub open spec fn position_fault(tracker: StateTracker, view: WorldView) -> Option<ActionError> {
    if !trees_inside(tracker) {
        Some(ActionError::InvalidSchema("MatchInfo tree position"))
    } else if !units_inside(tracker, view) {
        Some(ActionError::InvalidSchema("UnitView position"))
    } else if !planted_inside(tracker, view) {
        Some(ActionError::InvalidSchema("planted tree position"))
    } else if !loot_inside(tracker, view) {
        Some(ActionError::InvalidSchema("LootView position"))
    } else {
        None
    }
}

/// Checks that trees, units, and ground items lie on the map.
#[verifier::loop_isolation(false)]
pub fn validate_positions(tracker: &StateTracker, current: &WorldView) -> (r: Result<
    (),
    ActionError,
>)
    requires
        tracker.wf(),
    ensures
        r == faulted(position_fault(*tracker, *current)),
{
    let maximum = map_maximum_raw(tracker);
    let mut index: usize = 0;
    while index < tracker.static_trees.len()
        invariant
            index <= tracker.static_trees@.len(),
            forall|i: int|
                0 <= i < index ==> inside(#[trigger] tracker.static_trees@[i], maximum as int),
        decreases tracker.static_trees@.len() - index,
    {
        if let Err(error) = validate_position(
            tracker.static_trees[index],
            maximum,
            "MatchInfo tree position",
        ) {
            assert(!inside(tracker.static_trees@[index as int], maximum as int));
            return Err(error);
        }
        index += 1;
    }
    index = 0;
    while index < current.units.len()
        invariant
            index <= current.units@.len(),
            forall|i: int|
                0 <= i < index ==> inside((#[trigger] current.units@[i]).pos, maximum as int),
        decreases current.units@.len() - index,
    {
        if let Err(error) = validate_position(
            current.units[index].pos,
            maximum,
            "UnitView position",
        ) {
            assert(!inside(current.units@[index as int].pos, maximum as int));
            return Err(error);
        }
        index += 1;
    }
    index = 0;
    while index < current.planted_trees.len()
        invariant
            index <= current.planted_trees@.len(),
            forall|i: int|
                0 <= i < index ==> inside(#[trigger] current.planted_trees@[i], maximum as int),
        decreases current.planted_trees@.len() - index,
    {
        if let Err(error) = validate_position(
            current.planted_trees[index],
            maximum,
            "planted tree position",
        ) {
            assert(!inside(current.planted_trees@[index as int], maximum as int));
            return Err(error);
        }
        index += 1;
    }
    index = 0;
    while index < current.loot.len()
        invariant
            index <= current.loot@.len(),
            forall|i: int|
                0 <= i < index ==> inside((#[trigger] current.loot@[i]).pos, maximum as int),
        decreases current.loot@.len() - index,
    {
        if let Err(error) = validate_position(
            current.loot[index].pos,
            maximum,
            "LootView position",
        ) {
            assert(!inside(current.loot@[index as int].pos, maximum as int));
            return Err(error);
        }
        index += 1;
    }
    Ok(())
}

} // verus!
