//! What labels offer: on every head exactly the legal alternatives of the labeled action.
use crate::action::{
    ActionTarget, ControlledUnit, EntityIndex, LootIndex, PointIndex, ShopIndex, StructuredAction,
};
use crate::behavioral_target::{labels, BehavioralTarget};
use crate::space::{conditional_masks_decide_legality, ActionSpace};
use crate::world::{AbilitySlot, ItemSlot};
use vstd::prelude::*;

verus! {

/// The entity head of an attack or a walk behind a unit offers exactly the entities on which
/// that action is legal, and the labeled one is selected.
pub proof fn entity_heads_offer_legal_entities(
    target: BehavioralTarget,
    space: ActionSpace,
    unit: ControlledUnit,
    chosen: EntityIndex,
    other: usize,
)
    requires
        space.wf(),
        other < 96,
    ensures
        labels(target, space, StructuredAction::AttackUnit { unit, target: chosen }) ==> {
            &&& target.entity_pointer.active
            &&& target.entity_pointer.selected == chosen.0
            &&& target.entity_pointer.mask@[other as int] <==> space.legal(
                StructuredAction::AttackUnit { unit, target: EntityIndex(other) },
            )
        },
        labels(target, space, StructuredAction::FollowUnit { unit, target: chosen }) ==> {
            &&& target.entity_pointer.active
            &&& target.entity_pointer.selected == chosen.0
            &&& target.entity_pointer.mask@[other as int] <==> space.legal(
                StructuredAction::FollowUnit { unit, target: EntityIndex(other) },
            )
        },
{
    conditional_masks_decide_legality(
        space,
        StructuredAction::AttackUnit { unit, target: EntityIndex(other) },
    );
    conditional_masks_decide_legality(
        space,
        StructuredAction::FollowUnit { unit, target: EntityIndex(other) },
    );
}

/// The point head of a walk or an attack toward a point offers exactly the points on which that
/// action is legal, and the labeled one is selected.
pub proof fn point_heads_offer_legal_points(
    target: BehavioralTarget,
    space: ActionSpace,
    unit: ControlledUnit,
    chosen: PointIndex,
    other: usize,
)
    requires
        space.wf(),
        other < 48,
    ensures
        labels(target, space, StructuredAction::MovePoint { unit, point: chosen }) ==> {
            &&& target.point_pointer.active
            &&& target.point_pointer.selected == chosen.0
            &&& target.point_pointer.mask@[other as int] <==> space.legal(
                StructuredAction::MovePoint { unit, point: PointIndex(other) },
            )
        },
        labels(target, space, StructuredAction::AttackMovePoint { unit, point: chosen }) ==> {
            &&& target.point_pointer.active
            &&& target.point_pointer.selected == chosen.0
            &&& target.point_pointer.mask@[other as int] <==> space.legal(
                StructuredAction::AttackMovePoint { unit, point: PointIndex(other) },
            )
        },
{
    conditional_masks_decide_legality(
        space,
        StructuredAction::MovePoint { unit, point: PointIndex(other) },
    );
    conditional_masks_decide_legality(
        space,
        StructuredAction::AttackMovePoint { unit, point: PointIndex(other) },
    );
}

/// The heads of an aimed cast offer exactly what is legal with the same ability: no target,
/// entities, or points; the ability head offers a slot exactly if some target of it is legal.
pub proof fn cast_heads_offer_legal_targets(
    target: BehavioralTarget,
    space: ActionSpace,
    unit: ControlledUnit,
    slot: AbilitySlot,
    aimed: ActionTarget,
    entity: usize,
    point: usize,
)
    requires
        space.wf(),
        space.legal(StructuredAction::Cast { unit, slot, target: aimed }),
        labels(target, space, StructuredAction::Cast { unit, slot, target: aimed }),
        entity < 96,
        point < 48,
    ensures
        target.ability.active && target.ability.selected == slot.0,
        target.target_mode.active,
        target.target_mode.mask@[0] <==> space.legal(
            StructuredAction::Cast { unit, slot, target: ActionTarget::Untargeted },
        ),
        aimed is Untargeted ==> target.target_mode.selected == 0,
        aimed is Entity ==> target.target_mode.selected == 1 && target.entity_pointer.active && (
        target.entity_pointer.mask@[entity as int] <==> space.legal(
            StructuredAction::Cast {
                unit,
                slot,
                target: ActionTarget::Entity(EntityIndex(entity)),
            },
        )),
        aimed is Point ==> target.target_mode.selected == 2 && target.point_pointer.active && (
        target.point_pointer.mask@[point as int] <==> space.legal(
            StructuredAction::Cast {
                unit,
                slot,
                target: ActionTarget::Point(PointIndex(point)),
            },
        )),
{
    conditional_masks_decide_legality(
        space,
        StructuredAction::Cast { unit, slot, target: aimed },
    );
    conditional_masks_decide_legality(
        space,
        StructuredAction::Cast { unit, slot, target: ActionTarget::Untargeted },
    );
    conditional_masks_decide_legality(
        space,
        StructuredAction::Cast { unit, slot, target: ActionTarget::Entity(EntityIndex(entity)) },
    );
    conditional_masks_decide_legality(
        space,
        StructuredAction::Cast { unit, slot, target: ActionTarget::Point(PointIndex(point)) },
    );
}

/// The heads of a use offer exactly what is legal with the same item.
pub proof fn use_heads_offer_legal_targets(
    target: BehavioralTarget,
    space: ActionSpace,
    unit: ControlledUnit,
    slot: ItemSlot,
    aimed: ActionTarget,
    entity: usize,
    point: usize,
)
    requires
        space.wf(),
        space.legal(StructuredAction::Use { unit, slot, target: aimed }),
        labels(target, space, StructuredAction::Use { unit, slot, target: aimed }),
        entity < 96,
        point < 48,
    ensures
        target.item.active && target.item.selected == slot.0,
        target.target_mode.active,
        target.target_mode.mask@[0] <==> space.legal(
            StructuredAction::Use { unit, slot, target: ActionTarget::Untargeted },
        ),
        aimed is Untargeted ==> target.target_mode.selected == 0,
        aimed is Entity ==> target.target_mode.selected == 1 && target.entity_pointer.active && (
        target.entity_pointer.mask@[entity as int] <==> space.legal(
            StructuredAction::Use {
                unit,
                slot,
                target: ActionTarget::Entity(EntityIndex(entity)),
            },
        )),
        aimed is Point ==> target.target_mode.selected == 2 && target.point_pointer.active && (
        target.point_pointer.mask@[point as int] <==> space.legal(
            StructuredAction::Use {
                unit,
                slot,
                target: ActionTarget::Point(PointIndex(point)),
            },
        )),
{
    conditional_masks_decide_legality(space, StructuredAction::Use { unit, slot, target: aimed });
    conditional_masks_decide_legality(
        space,
        StructuredAction::Use { unit, slot, target: ActionTarget::Untargeted },
    );
    conditional_masks_decide_legality(
        space,
        StructuredAction::Use { unit, slot, target: ActionTarget::Entity(EntityIndex(entity)) },
    );
    conditional_masks_decide_legality(
        space,
        StructuredAction::Use { unit, slot, target: ActionTarget::Point(PointIndex(point)) },
    );
}

/// The heads of item handling offer exactly the legal alternatives: shop entries, ground items,
/// slots to sell, slots to swap into, and abilities to learn.
pub proof fn item_heads_offer_legal_alternatives(
    target: BehavioralTarget,
    space: ActionSpace,
    unit: ControlledUnit,
    item: ShopIndex,
    loot: LootIndex,
    from: ItemSlot,
    to: ItemSlot,
    learned: AbilitySlot,
    other: u8,
)
    requires
        space.wf(),
    ensures
        labels(target, space, StructuredAction::Buy { unit, item }) && other < 64 ==> {
            &&& target.shop.active && target.shop.selected == item.0
            &&& target.shop.mask@[other as int] <==> space.legal(
                StructuredAction::Buy { unit, item: ShopIndex(other as usize) },
            )
        },
        labels(target, space, StructuredAction::Take { unit, loot }) && other < 16 ==> {
            &&& target.loot.active && target.loot.selected == loot.0
            &&& target.loot.mask@[other as int] <==> space.legal(
                StructuredAction::Take { unit, loot: LootIndex(other as usize) },
            )
        },
        labels(target, space, StructuredAction::Sell { unit, slot: from }) && other < 15 ==> {
            &&& target.item.active && target.item.selected == from.0
            &&& target.item.mask@[other as int] <==> space.legal(
                StructuredAction::Sell { unit, slot: ItemSlot(other) },
            )
        },
        labels(target, space, StructuredAction::Swap { unit, from, to }) && other < 15 && from.0
            < 15 ==> {
            &&& target.item.active && target.item.selected == from.0
            &&& target.swap.active && target.swap.selected == to.0
            &&& target.swap.mask@[other as int] <==> space.legal(
                StructuredAction::Swap { unit, from, to: ItemSlot(other) },
            )
        },
        labels(target, space, StructuredAction::Learn { slot: learned }) && other < 6 ==> {
            &&& target.learn.active && target.learn.selected == learned.0
            &&& target.learn.mask@[other as int] <==> space.legal(
                StructuredAction::Learn { slot: AbilitySlot(other) },
            )
        },
{
    conditional_masks_decide_legality(
        space,
        StructuredAction::Buy { unit, item: ShopIndex(other as usize) },
    );
    conditional_masks_decide_legality(
        space,
        StructuredAction::Take { unit, loot: LootIndex(other as usize) },
    );
    conditional_masks_decide_legality(
        space,
        StructuredAction::Sell { unit, slot: ItemSlot(other) },
    );
    conditional_masks_decide_legality(
        space,
        StructuredAction::Swap { unit, from, to: ItemSlot(other) },
    );
    conditional_masks_decide_legality(space, StructuredAction::Learn { slot: AbilitySlot(other) });
}

} // verus!
