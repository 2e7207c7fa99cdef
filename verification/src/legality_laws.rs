//! Which actions a snapshot allows, told from what the seat observes.
use crate::action::{
    ActionTarget, ControlledUnit, EntityIndex, EntityRelation, LootIndex, PointIndex,
    PutPointTarget, ShopIndex, StructuredAction,
};
use crate::construction::context_matches;
use crate::masks::{masks_blank, masks_live, near_fountain, target_mask_ok, ControlledState};
use crate::nearness::{lemma_near, near};
use crate::passability::StaticPassability;
use crate::search::{free_count, lemma_first_from_means, lemma_free_count};
use crate::space::{
    absent_units_have_no_legal_action, conditional_masks_decide_legality,
    exactly_legal_actions_decode, ActionSpace,
};
use crate::tracker::{ItemReadiness, MuteTimer, StateTracker, WaitTimer};
use crate::world::{
    AbilitySlot, AbilityView, Aim, ItemId, ItemSlot, ItemView, Order, Target, UnitKind, UnitView,
    Vec2,
};
use vstd::prelude::*;

verus! {

/// Whether a space was built from a snapshot under local timers and over a grid.
pub open spec fn built(
    tracker: StateTracker,
    readiness: ItemReadiness,
    grid: StaticPassability,
    space: ActionSpace,
) -> bool {
    space.wf() && context_matches(tracker, readiness, grid, space.context)
}

/// Own unit of the snapshot that a selection controls.
pub open spec fn body(tracker: StateTracker, unit: ControlledUnit) -> Option<UnitView> {
    let place = if unit == ControlledUnit::Hero {
        tracker.own_hero
    } else {
        tracker.own_courier
    };
    match (tracker.current, place) {
        (Some(view), Some(i)) => Some(view.units@[i as int]),
        _ => None,
    }
}

/// Whether the controlled unit is on the map and alive: it has health and is not marked dead.
pub open spec fn lives(tracker: StateTracker, unit: ControlledUnit) -> bool {
    body(tracker, unit) is Some && body(tracker, unit)->0.hp > 0 && body(
        tracker,
        unit,
    )->0.statuses.bits & 256 == 0
}

pub open spec fn stunned(u: UnitView) -> bool {
    u.statuses.bits & 1 != 0
}

pub open spec fn silenced(u: UnitView) -> bool {
    u.statuses.bits & 2 != 0
}

pub open spec fn rooted(u: UnitView) -> bool {
    u.statuses.bits & 4 != 0
}

pub open spec fn disarmed(u: UnitView) -> bool {
    u.statuses.bits & 8 != 0
}

/// Whether a place is at most a range in whole units away; a negative range reaches nothing.
pub open spec fn in_reach_of(from: Vec2, to: Vec2, range: i32) -> bool {
    range >= 0 && near(from, to, range * 65_536)
}

/// Whether an effect with an aim and a range fits a target: none for effects on oneself, an
/// entity in reach for those on units, and a point in reach for the others, which must hold a
/// tree or lie at an allied building where the aim asks for one. An item is used on friends and
/// on ground that can be walked.
pub open spec fn fits(
    space: ActionSpace,
    u: UnitView,
    aim: Aim,
    range: i32,
    item: bool,
    target: ActionTarget,
) -> bool {
    match target {
        ActionTarget::Untargeted => aim == Aim::Own,
        ActionTarget::Entity(e) => {
            &&& aim == Aim::Unit
            &&& e.0 < space.context.entities@.len()
            &&& in_reach_of(u.pos, space.context.entities@[e.0 as int].unit.pos, range)
            &&& item ==> space.context.entities@[e.0 as int].relation == EntityRelation::Own
                || space.context.entities@[e.0 as int].relation == EntityRelation::Allied
        },
        ActionTarget::Point(p) => {
            &&& p.0 < space.context.points@.len()
            &&& aim == Aim::Point || aim == Aim::Tree || aim == Aim::Building
            &&& aim != Aim::Building ==> in_reach_of(
                u.pos,
                space.context.points@[p.0 as int].position,
                range,
            )
            &&& aim == Aim::Point && item ==> space.context.points@[p.0 as int].walkable
            &&& aim == Aim::Tree ==> space.context.points@[p.0 as int].standing_tree
            &&& aim == Aim::Building ==> space.context.points@[p.0 as int].allied_building
                && space.context.points@[p.0 as int].walkable && near_some_building(
                space,
                space.context.points@[p.0 as int].position,
                range,
            )
        },
    }
}

/// Whether an allied building stands in reach of a place.
pub open spec fn near_some_building(space: ActionSpace, place: Vec2, range: i32) -> bool {
    exists|b: int|
        0 <= b < space.context.allied_buildings@.len() && in_reach_of(
            #[trigger] space.context.allied_buildings@[b],
            place,
            range,
        )
}

proof fn lemma_reach(from: Vec2, to: Vec2, range: i32)
    ensures
        crate::masks::reaches(from, to, range) == in_reach_of(from, to, range),
{
    lemma_near(from, to, range * 65_536);
}

proof fn lemma_fits(
    space: ActionSpace,
    state: ControlledState,
    aim: Aim,
    range: i32,
    ready: bool,
    item: bool,
    mask: crate::action::TargetMask,
    target: ActionTarget,
)
    requires
        target_mask_ok(space.context, state, aim, range, ready, item, mask),
    ensures
        mask.permits(target) <==> ready && fits(space, state.unit, aim, range, item, target),
{
    match target {
        ActionTarget::Untargeted => {},
        ActionTarget::Entity(e) => {
            if e.0 < space.context.entities@.len() {
                lemma_reach(state.unit.pos, space.context.entities@[e.0 as int].unit.pos, range);
                assert(mask.entities@[e.0 as int] == mask.entities@[e.0 as int]);
            }
        },
        ActionTarget::Point(p) => {
            if p.0 < space.context.points@.len() {
                let place = space.context.points@[p.0 as int].position;
                lemma_reach(state.unit.pos, place, range);
                assert forall|b: int| 0 <= b < space.context.allied_buildings@.len() implies
                    crate::masks::reaches(
                        #[trigger] space.context.allied_buildings@[b],
                        place,
                        range,
                    ) == in_reach_of(space.context.allied_buildings@[b], place, range) by {
                    lemma_reach(space.context.allied_buildings@[b], place, range);
                }
                if near_some_building(space, place, range) {
                    let b = choose|b: int|
                        0 <= b < space.context.allied_buildings@.len() && in_reach_of(
                            #[trigger] space.context.allied_buildings@[b],
                            place,
                            range,
                        );
                    assert(crate::masks::reaches(
                        space.context.allied_buildings@[b],
                        place,
                        range,
                    ));
                }
                assert(mask.points@[p.0 as int] == mask.points@[p.0 as int]);
            }
        },
    }
}

/// What the masks of a living unit are built from is the unit itself.
proof fn lemma_state(
    tracker: StateTracker,
    readiness: ItemReadiness,
    grid: StaticPassability,
    space: ActionSpace,
    unit: ControlledUnit,
)
    requires
        built(tracker, readiness, grid, space),
    ensures
        space.context.state(unit) is Some <==> lives(tracker, unit),
        !lives(tracker, unit) ==> masks_blank(space.context, space.masks(unit)),
        lives(tracker, unit) ==> {
            &&& masks_live(
                space.context,
                space.context.state(unit)->0,
                unit,
                space.masks(unit),
            )
            &&& space.context.state(unit)->0.unit.same(body(tracker, unit)->0)
            &&& space.context.state(unit)->0.underfoot_walkable == grid.standable(
                body(tracker, unit)->0.pos,
            )
        },
{
    match unit {
        ControlledUnit::Hero => {
            assert(body(tracker, unit) == tracker.hero_spec());
        },
        ControlledUnit::Courier => {
            assert(body(tracker, unit) == tracker.courier_spec());
        },
    }
}

/// An ability is cast exactly by a living unit, neither stunned nor silenced, whose slot among
/// the first eight holds a learned active ability that is off cooldown and paid for by the mana
/// at hand, on a target that fits its aim. An ability that still cools down is never allowed, on
/// any target.
pub proof fn abilities_on_cooldown_are_never_cast(
    tracker: StateTracker,
    readiness: ItemReadiness,
    grid: StaticPassability,
    space: ActionSpace,
    unit: ControlledUnit,
    slot: AbilitySlot,
    target: ActionTarget,
)
    requires
        built(tracker, readiness, grid, space),
    ensures
        space.legal(StructuredAction::Cast { unit, slot, target }) <==> {
            &&& lives(tracker, unit)
            &&& !stunned(body(tracker, unit)->0)
            &&& !silenced(body(tracker, unit)->0)
            &&& slot.0 < body(tracker, unit)->0.abilities@.len()
            &&& slot.0 < 8
            &&& body(tracker, unit)->0.abilities@[slot.0 as int].cooldown_left == 0
            &&& body(tracker, unit)->0.abilities@[slot.0 as int].level > 0
            &&& !body(tracker, unit)->0.abilities@[slot.0 as int].passive
            &&& body(tracker, unit)->0.abilities@[slot.0 as int].mana_cost <= body(
                tracker,
                unit,
            )->0.mana
            &&& fits(
                space,
                body(tracker, unit)->0,
                body(tracker, unit)->0.abilities@[slot.0 as int].aim,
                body(tracker, unit)->0.abilities@[slot.0 as int].range,
                false,
                target,
            )
        },
        lives(tracker, unit) && slot.0 < body(tracker, unit)->0.abilities@.len() && body(
            tracker,
            unit,
        )->0.abilities@[slot.0 as int].cooldown_left > 0 ==> !space.legal(
            StructuredAction::Cast { unit, slot, target },
        ) && (slot.0 < 8 ==> !space.masks(unit).casts@[slot.0 as int].open()),
{
    let action = StructuredAction::Cast { unit, slot, target };
    conditional_masks_decide_legality(space, action);
    lemma_state(tracker, readiness, grid, space, unit);
    if lives(tracker, unit) {
        let state = space.context.state(unit)->0;
        let casts = space.masks(unit).casts@;
        if slot.0 < casts.len() {
            let ability = state.unit.abilities@[slot.0 as int];
            lemma_fits(
                space,
                state,
                ability.aim,
                ability.range,
                crate::masks::cast_ready(state, ability),
                false,
                casts[slot.0 as int],
                target,
            );
            lemma_same_place(space, state.unit, body(tracker, unit)->0, ability, target);
        }
    }
}

proof fn lemma_same_place(
    space: ActionSpace,
    left: UnitView,
    right: UnitView,
    ability: AbilityView,
    target: ActionTarget,
)
    requires
        left.same(right),
    ensures
        fits(space, left, ability.aim, ability.range, false, target) == fits(
            space,
            right,
            ability.aim,
            ability.range,
            false,
            target,
        ),
{
}

/// Whether the first timer of a unit's slot stands at a place of the list.
pub open spec fn mutes_first(
    mutes: Seq<MuteTimer>,
    unit: ControlledUnit,
    slot: ItemSlot,
    t: int,
) -> bool {
    &&& 0 <= t < mutes.len()
    &&& mutes[t].unit == unit && mutes[t].slot == slot
    &&& forall|k: int| 0 <= k < t ==> (#[trigger] mutes[k]).unit != unit || mutes[k].slot != slot
}

/// Whether a local timer of a unit's slot still runs: the first one recorded for it ends after
/// this tick.
#[verifier::opaque]
pub open spec fn slot_muted(
    mutes: Seq<MuteTimer>,
    unit: ControlledUnit,
    slot: ItemSlot,
    tick: u32,
) -> bool {
    exists|t: int| #[trigger] mutes_first(mutes, unit, slot, t) && mutes[t].until > tick
}

/// Whether the first timer of a unit's item stands at a place of the list.
pub open spec fn waits_first(
    waits: Seq<WaitTimer>,
    unit: ControlledUnit,
    item: ItemId,
    t: int,
) -> bool {
    &&& 0 <= t < waits.len()
    &&& waits[t].unit == unit && waits[t].item == item
    &&& forall|k: int| 0 <= k < t ==> (#[trigger] waits[k]).unit != unit || waits[k].item != item
}

/// Whether a shared timer of a unit's item still runs: the first one recorded for it ends after
/// this tick.
#[verifier::opaque]
pub open spec fn item_waits(
    waits: Seq<WaitTimer>,
    unit: ControlledUnit,
    item: ItemId,
    tick: u32,
) -> bool {
    exists|t: int| #[trigger] waits_first(waits, unit, item, t) && waits[t].until > tick
}

proof fn lemma_muted(readiness: ItemReadiness, unit: ControlledUnit, slot: ItemSlot, tick: u32)
    ensures
        readiness.muted(unit, slot, tick) == slot_muted(readiness.mutes@, unit, slot, tick),
{
    reveal(slot_muted);
    let mutes = readiness.mutes@;
    let test = |t: MuteTimer| t.unit == unit && t.slot == slot;
    lemma_first_from_means(mutes, test, 0);
    let found = crate::search::first_index(mutes, test);
    if found is Some {
        assert(test(mutes[found->0]));
        assert forall|k: int| 0 <= k < found->0 implies (#[trigger] mutes[k]).unit != unit
            || mutes[k].slot != slot by {
            assert(!test(mutes[k]));
        }
        assert(mutes_first(mutes, unit, slot, found->0));
    }
    if slot_muted(mutes, unit, slot, tick) {
        let t = choose|t: int| #[trigger]
            mutes_first(mutes, unit, slot, t) && mutes[t].until > tick;
        assert(test(mutes[t]));
        assert(found is Some);
        if found->0 < t {
            assert(test(mutes[found->0]));
        }
    }
}

proof fn lemma_waiting(readiness: ItemReadiness, unit: ControlledUnit, item: ItemId, tick: u32)
    ensures
        readiness.waiting(unit, item, tick) == item_waits(readiness.waits@, unit, item, tick),
{
    reveal(item_waits);
    let waits = readiness.waits@;
    let test = |t: WaitTimer| t.unit == unit && t.item == item;
    lemma_first_from_means(waits, test, 0);
    let found = crate::search::first_index(waits, test);
    if found is Some {
        assert(test(waits[found->0]));
        assert forall|k: int| 0 <= k < found->0 implies (#[trigger] waits[k]).unit != unit
            || waits[k].item != item by {
            assert(!test(waits[k]));
        }
        assert(waits_first(waits, unit, item, found->0));
    }
    if item_waits(waits, unit, item, tick) {
        let t = choose|t: int| #[trigger]
            waits_first(waits, unit, item, t) && waits[t].until > tick;
        assert(test(waits[t]));
        assert(found is Some);
        if found->0 < t {
            assert(test(waits[found->0]));
        }
    }
}

/// Item that a controlled unit holds in a slot.
pub open spec fn held(tracker: StateTracker, unit: ControlledUnit, slot: ItemSlot) -> Option<
    ItemView,
> {
    if body(tracker, unit) is Some && slot.0 < body(tracker, unit)->0.items@.len() {
        body(tracker, unit)->0.items@[slot.0 as int]
    } else {
        None
    }
}

/// An item is used exactly by a living unit that is not stunned, from one of its first six
/// slots, if the item is active, off cooldown, has a charge left where it has charges, is paid
/// for by the mana at hand, and no local timer holds its slot or its kind back, on a target that
/// fits its aim.
pub proof fn items_are_used_when_ready(
    tracker: StateTracker,
    readiness: ItemReadiness,
    grid: StaticPassability,
    space: ActionSpace,
    unit: ControlledUnit,
    slot: ItemSlot,
    target: ActionTarget,
)
    requires
        built(tracker, readiness, grid, space),
    ensures
        space.legal(StructuredAction::Use { unit, slot, target }) <==> {
            &&& lives(tracker, unit)
            &&& !stunned(body(tracker, unit)->0)
            &&& slot.0 < 6
            &&& held(tracker, unit, slot) is Some
            &&& held(tracker, unit, slot)->0.aim is Some
            &&& held(tracker, unit, slot)->0.cooldown_left == 0
            &&& held(tracker, unit, slot)->0.charges is Some ==> held(
                tracker,
                unit,
                slot,
            )->0.charges->0 > 0
            &&& held(tracker, unit, slot)->0.mana_cost <= body(tracker, unit)->0.mana
            &&& !slot_muted(readiness.mutes@, unit, slot, tracker.current->0.tick)
            &&& !item_waits(
                readiness.waits@,
                unit,
                held(tracker, unit, slot)->0.id,
                tracker.current->0.tick,
            )
            &&& fits(
                space,
                body(tracker, unit)->0,
                held(tracker, unit, slot)->0.aim->0,
                held(tracker, unit, slot)->0.range,
                true,
                target,
            )
        },
{
    let action = StructuredAction::Use { unit, slot, target };
    conditional_masks_decide_legality(space, action);
    lemma_state(tracker, readiness, grid, space, unit);
    if lives(tracker, unit) {
        let state = space.context.state(unit)->0;
        let uses = space.masks(unit).uses@;
        let timers = space.context.readiness;
        assert(timers.mutes@ == readiness.mutes@ && timers.waits@ == readiness.waits@);
        if slot.0 < 6 {
            let mask = uses[slot.0 as int];
            assert(crate::masks::use_mask_ok(space.context, state, unit, slot.0 as int, mask));
            if held(tracker, unit, slot) is Some {
                let item = held(tracker, unit, slot)->0;
                assert(state.unit.items@[slot.0 as int] == Some(item));
                lemma_muted(timers, unit, slot, space.context.tick);
                lemma_waiting(timers, unit, item.id, space.context.tick);
                assert(ItemSlot(slot.0) == slot);
                if item.aim is Some {
                    lemma_fits(
                        space,
                        state,
                        item.aim->0,
                        item.range,
                        crate::masks::use_ready(space.context, state, unit, slot.0 as int, item),
                        true,
                        mask,
                        target,
                    );
                    assert(fits(space, state.unit, item.aim->0, item.range, true, target) == fits(
                        space,
                        body(tracker, unit)->0,
                        item.aim->0,
                        item.range,
                        true,
                        target,
                    ));
                }
            } else {
                assert(!state.holds(slot.0 as int));
            }
        }
    }
}

/// A living unit can always stop; it walks unless it is stunned or rooted, and attacks or holds
/// unless it is stunned or disarmed. It walks and attacks onto ground that can be walked, and
/// follows and attacks any other unit.
pub proof fn movement_and_attacks_follow_the_statuses(
    tracker: StateTracker,
    readiness: ItemReadiness,
    grid: StaticPassability,
    space: ActionSpace,
    unit: ControlledUnit,
    point: PointIndex,
    target: EntityIndex,
)
    requires
        built(tracker, readiness, grid, space),
    ensures
        space.legal(StructuredAction::Continue),
        space.legal(StructuredAction::Stop { unit }) <==> lives(tracker, unit),
        space.legal(StructuredAction::Hold { unit }) <==> lives(tracker, unit) && !stunned(
            body(tracker, unit)->0,
        ) && !disarmed(body(tracker, unit)->0),
        space.legal(StructuredAction::MovePoint { unit, point }) <==> lives(tracker, unit)
            && !stunned(body(tracker, unit)->0) && !rooted(body(tracker, unit)->0) && point.0
            < space.context.points@.len() && space.context.points@[point.0 as int].walkable,
        space.legal(StructuredAction::AttackMovePoint { unit, point }) <==> lives(tracker, unit)
            && !stunned(body(tracker, unit)->0) && !disarmed(body(tracker, unit)->0) && point.0
            < space.context.points@.len() && space.context.points@[point.0 as int].walkable,
        space.legal(StructuredAction::FollowUnit { unit, target }) <==> lives(tracker, unit)
            && !stunned(body(tracker, unit)->0) && !rooted(body(tracker, unit)->0) && target.0
            < space.context.entities@.len() && space.context.entities@[target.0 as int].unit.id
            != body(tracker, unit)->0.id,
        space.legal(StructuredAction::AttackUnit { unit, target }) <==> lives(tracker, unit)
            && !stunned(body(tracker, unit)->0) && !disarmed(body(tracker, unit)->0) && target.0
            < space.context.entities@.len() && space.context.entities@[target.0 as int].unit.id
            != body(tracker, unit)->0.id,
{
    conditional_masks_decide_legality(space, StructuredAction::Continue);
    conditional_masks_decide_legality(space, StructuredAction::Stop { unit });
    conditional_masks_decide_legality(space, StructuredAction::Hold { unit });
    conditional_masks_decide_legality(space, StructuredAction::MovePoint { unit, point });
    conditional_masks_decide_legality(space, StructuredAction::AttackMovePoint { unit, point });
    conditional_masks_decide_legality(space, StructuredAction::FollowUnit { unit, target });
    conditional_masks_decide_legality(space, StructuredAction::AttackUnit { unit, target });
    lemma_state(tracker, readiness, grid, space, unit);
    let masks = space.masks(unit);
    if lives(tracker, unit) {
        let state = space.context.state(unit)->0;
        assert(state.moves() == (!stunned(body(tracker, unit)->0) && !rooted(
            body(tracker, unit)->0,
        )));
        assert(state.attacks() == (!stunned(body(tracker, unit)->0) && !disarmed(
            body(tracker, unit)->0,
        )));
    }
}

/// Whether an own slot is empty.
pub open spec fn has_room(slots: Seq<Option<ItemView>>) -> bool {
    exists|i: int| 0 <= i < slots.len() && (#[trigger] slots[i]) is None
}

/// A living unit puts down what it holds: under its feet or on a point where the ground can be
/// walked, or into the free slot of another hero or courier of its own or an allied seat. It
/// takes ground items while it has a free slot.
pub proof fn items_are_put_where_they_fit(
    tracker: StateTracker,
    readiness: ItemReadiness,
    grid: StaticPassability,
    space: ActionSpace,
    unit: ControlledUnit,
    source: ItemSlot,
    point: PointIndex,
    target: EntityIndex,
    loot: LootIndex,
)
    requires
        built(tracker, readiness, grid, space),
    ensures
        space.legal(
            StructuredAction::PutPoint { unit, source, target: PutPointTarget::Underfoot },
        ) <==> lives(tracker, unit) && source.0 < (if unit == ControlledUnit::Hero {
            9int
        } else {
            6int
        }) && held(tracker, unit, source) is Some && grid.standable(body(tracker, unit)->0.pos),
        space.legal(
            StructuredAction::PutPoint { unit, source, target: PutPointTarget::Point(point) },
        ) <==> lives(tracker, unit) && source.0 < (if unit == ControlledUnit::Hero {
            9int
        } else {
            6int
        }) && held(tracker, unit, source) is Some && point.0 < space.context.points@.len()
            && space.context.points@[point.0 as int].walkable,
        space.legal(StructuredAction::PutUnit { unit, source, target }) <==> {
            &&& lives(tracker, unit)
            &&& source.0 < (if unit == ControlledUnit::Hero {
                9int
            } else {
                6int
            })
            &&& held(tracker, unit, source) is Some
            &&& target.0 < space.context.entities@.len()
            &&& space.context.entities@[target.0 as int].unit.id != body(tracker, unit)->0.id
            &&& space.context.entities@[target.0 as int].relation == EntityRelation::Own
                || space.context.entities@[target.0 as int].relation == EntityRelation::Allied
            &&& space.context.entities@[target.0 as int].unit.kind == UnitKind::Hero
                || space.context.entities@[target.0 as int].unit.kind == UnitKind::Courier
            &&& has_room(space.context.entities@[target.0 as int].unit.items@)
        },
        space.legal(StructuredAction::Take { unit, loot }) <==> lives(tracker, unit) && loot.0
            < space.context.loot@.len() && has_room(body(tracker, unit)->0.items@),
{
    let under = StructuredAction::PutPoint { unit, source, target: PutPointTarget::Underfoot };
    let ground = StructuredAction::PutPoint { unit, source, target: PutPointTarget::Point(point) };
    let hand = StructuredAction::PutUnit { unit, source, target };
    let take = StructuredAction::Take { unit, loot };
    conditional_masks_decide_legality(space, under);
    conditional_masks_decide_legality(space, ground);
    conditional_masks_decide_legality(space, hand);
    conditional_masks_decide_legality(space, take);
    lemma_state(tracker, readiness, grid, space, unit);
    let masks = space.masks(unit);
    if lives(tracker, unit) {
        let state = space.context.state(unit)->0;
        lemma_free_count(state.unit.items@);
        assert(state.holds(source.0 as int) == (held(tracker, unit, source) is Some));
        if source.0 < masks.put_points@.len() {
            assert(crate::masks::put_point_ok(
                space.context,
                state,
                source.0 as int,
                masks.put_points@[source.0 as int],
            ));
            assert(crate::masks::put_unit_ok(
                space.context,
                state,
                source.0 as int,
                masks.put_units@[source.0 as int]@,
            ));
        }
        if target.0 < space.context.entities@.len() {
            lemma_free_count(space.context.entities@[target.0 as int].unit.items@);
        }
    }
}

/// A hero learns exactly the abilities among its first eight that can be leveled; couriers learn
/// nothing.
pub proof fn heroes_learn_open_abilities(
    tracker: StateTracker,
    readiness: ItemReadiness,
    grid: StaticPassability,
    space: ActionSpace,
    slot: AbilitySlot,
)
    requires
        built(tracker, readiness, grid, space),
    ensures
        space.legal(StructuredAction::Learn { slot }) <==> lives(tracker, ControlledUnit::Hero)
            && slot.0 < 8 && slot.0 < body(tracker, ControlledUnit::Hero)->0.abilities@.len()
            && body(tracker, ControlledUnit::Hero)->0.abilities@[slot.0 as int].can_level,
{
    conditional_masks_decide_legality(space, StructuredAction::Learn { slot });
    lemma_state(tracker, readiness, grid, space, ControlledUnit::Hero);
}

/// Own slots that a wire slot names: the bag of the unit from zero on, nine slots of a hero and
/// six of a courier, and the stash from nine on.
pub open spec fn wire_slot(
    tracker: StateTracker,
    unit: ControlledUnit,
    stash: Seq<Option<ItemView>>,
    slot: ItemSlot,
) -> Option<Option<ItemView>> {
    if slot.0 < 6 || (slot.0 < 9 && unit == ControlledUnit::Hero) {
        if slot.0 < body(tracker, unit)->0.items@.len() {
            Some(body(tracker, unit)->0.items@[slot.0 as int])
        } else {
            None
        }
    } else if 9 <= slot.0 < 15 && slot.0 - 9 < stash.len() {
        Some(stash[slot.0 - 9])
    } else {
        None
    }
}

/// Whether the controlled unit stands within a thousand of the own fountain.
pub open spec fn at_fountain(space: ActionSpace, u: UnitView) -> bool {
    space.context.own_fountain is Some && near(u.pos, space.context.own_fountain->0, 65_536_000)
}

/// An item is sold exactly if it stands for sale in a slot of the bag or the stash; it is
/// swapped into any other slot that exists, and next to the own fountain alone where one of the
/// two is in the stash.
pub proof fn slots_are_sold_and_swapped(
    tracker: StateTracker,
    readiness: ItemReadiness,
    grid: StaticPassability,
    space: ActionSpace,
    unit: ControlledUnit,
    from: ItemSlot,
    to: ItemSlot,
)
    requires
        built(tracker, readiness, grid, space),
    ensures
        space.legal(StructuredAction::Sell { unit, slot: from }) <==> {
            &&& lives(tracker, unit)
            &&& wire_slot(tracker, unit, space.context.own_stash@, from) is Some
            &&& wire_slot(tracker, unit, space.context.own_stash@, from)->0 is Some
            &&& wire_slot(tracker, unit, space.context.own_stash@, from)->0->0.for_sale
        },
        space.legal(StructuredAction::Swap { unit, from, to }) <==> {
            &&& lives(tracker, unit)
            &&& from != to
            &&& wire_slot(tracker, unit, space.context.own_stash@, from) is Some
            &&& wire_slot(tracker, unit, space.context.own_stash@, from)->0 is Some
            &&& wire_slot(tracker, unit, space.context.own_stash@, to) is Some
            &&& from.0 >= 9 || to.0 >= 9 ==> at_fountain(space, body(tracker, unit)->0)
        },
        Some(space.context.own_gold) == tracker.player_spec()->0.gold,
        space.context.own_stash@ == tracker.player_spec()->0.stash->0@,
{
    conditional_masks_decide_legality(space, StructuredAction::Sell { unit, slot: from });
    conditional_masks_decide_legality(space, StructuredAction::Swap { unit, from, to });
    lemma_state(tracker, readiness, grid, space, unit);
    let masks = space.masks(unit);
    if lives(tracker, unit) {
        let state = space.context.state(unit)->0;
        if space.context.own_fountain is Some {
            lemma_near(state.unit.pos, space.context.own_fountain->0, 65_536_000);
        }
        if from.0 < 15 {
            assert(masks.sell@[from.0 as int] == masks.sell@[from.0 as int]);
            if to.0 < 15 {
                assert(masks.swap@[from.0 as int]@[to.0 as int] == crate::masks::swappable(
                    space.context,
                    state,
                    unit,
                    from.0 as int,
                    to.0 as int,
                ));
            }
        }
    } else if from.0 < 15 {
        assert(crate::masks::all_clear(masks.swap@[from.0 as int]@, 15));
    }
}

/// A hero buys exactly what its gold pays for, both the listed price and the price of the parts
/// that are missing, while there are free slots for them: those of the stash, and those of the
/// bag next to the own fountain. Couriers buy nothing.
pub proof fn heroes_buy_what_they_can_pay_and_carry(
    tracker: StateTracker,
    readiness: ItemReadiness,
    grid: StaticPassability,
    space: ActionSpace,
    unit: ControlledUnit,
    item: ShopIndex,
)
    requires
        built(tracker, readiness, grid, space),
    ensures
        space.legal(StructuredAction::Buy { unit, item }) ==> {
            &&& unit == ControlledUnit::Hero
            &&& lives(tracker, unit)
            &&& item.0 < space.context.shop@.len()
            &&& space.context.shop@[item.0 as int].cost <= space.context.own_gold
            &&& space.context.buy_requirements@[item.0 as int].missing_cost
                <= space.context.own_gold
            &&& has_room(space.context.own_stash@) || at_fountain(space, body(tracker, unit)->0)
                && has_room(body(tracker, unit)->0.items@)
        },
        unit == ControlledUnit::Hero && lives(tracker, unit) && item.0
            < space.context.shop@.len() && space.context.shop@[item.0 as int].cost
            <= space.context.own_gold && space.context.buy_requirements@[item.0 as int].missing_cost
            <= space.context.own_gold && has_room(space.context.own_stash@)
            && space.context.buy_requirements@[item.0 as int].missing_slots <= 1 ==> space.legal(
            StructuredAction::Buy { unit, item },
        ),
        unit == ControlledUnit::Hero && lives(tracker, unit) && item.0
            < space.context.shop@.len() && !at_fountain(space, body(tracker, unit)->0)
            && space.context.buy_requirements@[item.0 as int].missing_slots > free_count(
            space.context.own_stash@,
        ) ==> !space.legal(StructuredAction::Buy { unit, item }),
        unit == ControlledUnit::Hero && lives(tracker, unit) && item.0
            < space.context.shop@.len()
            && space.context.buy_requirements@[item.0 as int].missing_slots > free_count(space.context.own_stash@) + free_count(body(tracker, unit)->0.items@)
            ==> !space.legal(StructuredAction::Buy { unit, item }),
{
    let action = StructuredAction::Buy { unit, item };
    conditional_masks_decide_legality(space, action);
    lemma_state(tracker, readiness, grid, space, unit);
    lemma_free_count(space.context.own_stash@);
    let masks = space.masks(unit);
    if lives(tracker, unit) {
        let state = space.context.state(unit)->0;
        lemma_free_count(state.unit.items@);
        if space.context.own_fountain is Some {
            lemma_near(state.unit.pos, space.context.own_fountain->0, 65_536_000);
        }
        assert(near_fountain(space.context, state.unit.pos) == at_fountain(
            space,
            body(tracker, unit)->0,
        ));
        if item.0 < space.context.shop@.len() {
            assert(masks.buy@[item.0 as int] == crate::masks::buyable(
                space.context,
                state,
                unit,
                item.0 as int,
            ));
        }
    }
}

/// What an issued order asks of the unit that an action selects.
pub open spec fn asks(
    space: ActionSpace,
    action: StructuredAction,
    unit: ControlledUnit,
    order: Order,
) -> bool {
    &&& space.decoded(action) is Ok
    &&& space.decoded(action)->Ok_0 is Some
    &&& space.decoded(action)->Ok_0->0.order == order
    &&& unit == ControlledUnit::Hero ==> space.decoded(action)->Ok_0->0.unit is None
    &&& unit == ControlledUnit::Courier ==> space.context.courier is Some && space.decoded(
        action,
    )->Ok_0->0.unit == Some(space.context.courier->0.unit.id)
}

/// A legal movement or attack decodes to the order of its own family on exactly the selected
/// place or entity, for the selected unit; to go on decodes to no order.
pub proof fn movement_decodes_to_what_was_selected(
    space: ActionSpace,
    unit: ControlledUnit,
    point: PointIndex,
    target: EntityIndex,
)
    requires
        space.wf(),
    ensures
        space.decoded(StructuredAction::Continue) is Ok && space.decoded(
            StructuredAction::Continue,
        )->Ok_0 is None,
        space.legal(StructuredAction::Stop { unit }) ==> asks(
            space,
            StructuredAction::Stop { unit },
            unit,
            Order::Move { target: Target::Untargeted },
        ),
        space.legal(StructuredAction::Hold { unit }) ==> asks(
            space,
            StructuredAction::Hold { unit },
            unit,
            Order::Attack { target: Target::Untargeted },
        ),
        space.legal(StructuredAction::MovePoint { unit, point }) ==> asks(
            space,
            StructuredAction::MovePoint { unit, point },
            unit,
            Order::Move { target: Target::Pos(space.context.points@[point.0 as int].position) },
        ),
        space.legal(StructuredAction::AttackMovePoint { unit, point }) ==> asks(
            space,
            StructuredAction::AttackMovePoint { unit, point },
            unit,
            Order::Attack { target: Target::Pos(space.context.points@[point.0 as int].position) },
        ),
        space.legal(StructuredAction::FollowUnit { unit, target }) ==> asks(
            space,
            StructuredAction::FollowUnit { unit, target },
            unit,
            Order::Move { target: Target::Unit(space.context.entities@[target.0 as int].unit.id) },
        ),
        space.legal(StructuredAction::AttackUnit { unit, target }) ==> asks(
            space,
            StructuredAction::AttackUnit { unit, target },
            unit,
            Order::Attack {
                target: Target::Unit(space.context.entities@[target.0 as int].unit.id),
            },
        ),
        !space.legal(StructuredAction::AttackUnit { unit, target }) ==> space.decoded(
            StructuredAction::AttackUnit { unit, target },
        ) is Err,
{
    exactly_legal_actions_decode(space, StructuredAction::Continue);
    exactly_legal_actions_decode(space, StructuredAction::Stop { unit });
    exactly_legal_actions_decode(space, StructuredAction::Hold { unit });
    exactly_legal_actions_decode(space, StructuredAction::MovePoint { unit, point });
    exactly_legal_actions_decode(space, StructuredAction::AttackMovePoint { unit, point });
    exactly_legal_actions_decode(space, StructuredAction::FollowUnit { unit, target });
    exactly_legal_actions_decode(space, StructuredAction::AttackUnit { unit, target });
    conditional_masks_decide_legality(space, StructuredAction::Continue);
    if space.context.state(unit) is None {
        absent_units_have_no_legal_action(space, StructuredAction::Stop { unit });
        absent_units_have_no_legal_action(space, StructuredAction::Hold { unit });
        absent_units_have_no_legal_action(space, StructuredAction::MovePoint { unit, point });
        absent_units_have_no_legal_action(space, StructuredAction::AttackMovePoint { unit, point });
        absent_units_have_no_legal_action(space, StructuredAction::FollowUnit { unit, target });
        absent_units_have_no_legal_action(space, StructuredAction::AttackUnit { unit, target });
    }
}

/// Wire target of a selected target.
pub open spec fn wire_target(space: ActionSpace, target: ActionTarget) -> Target {
    match target {
        ActionTarget::Untargeted => Target::Untargeted,
        ActionTarget::Entity(e) => Target::Unit(space.context.entities@[e.0 as int].unit.id),
        ActionTarget::Point(p) => Target::Pos(space.context.points@[p.0 as int].position),
    }
}

/// A legal cast, use, or handling of items decodes to the order of its own family with exactly
/// the selected slots, items, and targets.
pub proof fn items_decode_to_what_was_selected(
    space: ActionSpace,
    unit: ControlledUnit,
    slot: AbilitySlot,
    from: ItemSlot,
    to: ItemSlot,
    target: ActionTarget,
    entity: EntityIndex,
    point: PointIndex,
    loot: LootIndex,
    item: ShopIndex,
)
    requires
        space.wf(),
    ensures
        space.legal(StructuredAction::Cast { unit, slot, target }) ==> asks(
            space,
            StructuredAction::Cast { unit, slot, target },
            unit,
            Order::Cast { slot, target: wire_target(space, target) },
        ),
        space.legal(StructuredAction::Use { unit, slot: from, target }) ==> asks(
            space,
            StructuredAction::Use { unit, slot: from, target },
            unit,
            Order::Use { slot: from, target: wire_target(space, target) },
        ),
        space.legal(
            StructuredAction::PutPoint {
                unit,
                source: from,
                target: PutPointTarget::Point(point),
            },
        ) ==> asks(
            space,
            StructuredAction::PutPoint {
                unit,
                source: from,
                target: PutPointTarget::Point(point),
            },
            unit,
            Order::Put {
                slot: from,
                target: Target::Pos(space.context.points@[point.0 as int].position),
            },
        ),
        space.legal(StructuredAction::PutUnit { unit, source: from, target: entity }) ==> asks(
            space,
            StructuredAction::PutUnit { unit, source: from, target: entity },
            unit,
            Order::Put {
                slot: from,
                target: Target::Unit(space.context.entities@[entity.0 as int].unit.id),
            },
        ),
        space.legal(StructuredAction::Take { unit, loot }) ==> asks(
            space,
            StructuredAction::Take { unit, loot },
            unit,
            Order::Take { target: Target::Unit(space.context.loot@[loot.0 as int].id) },
        ),
        space.legal(StructuredAction::Buy { unit, item }) ==> asks(
            space,
            StructuredAction::Buy { unit, item },
            unit,
            Order::Buy { item: space.context.shop@[item.0 as int].item },
        ),
        space.legal(StructuredAction::Sell { unit, slot: from }) ==> asks(
            space,
            StructuredAction::Sell { unit, slot: from },
            unit,
            Order::Sell { slot: from },
        ),
        space.legal(StructuredAction::Swap { unit, from, to }) ==> asks(
            space,
            StructuredAction::Swap { unit, from, to },
            unit,
            Order::Swap { from, to },
        ),
        space.legal(StructuredAction::Learn { slot }) ==> asks(
            space,
            StructuredAction::Learn { slot },
            ControlledUnit::Hero,
            Order::Learn { slot },
        ),
{
    let cast = StructuredAction::Cast { unit, slot, target };
    let uses = StructuredAction::Use { unit, slot: from, target };
    let put = StructuredAction::PutPoint {
        unit,
        source: from,
        target: PutPointTarget::Point(point),
    };
    let hand = StructuredAction::PutUnit { unit, source: from, target: entity };
    let take = StructuredAction::Take { unit, loot };
    let buy = StructuredAction::Buy { unit, item };
    let sell = StructuredAction::Sell { unit, slot: from };
    let swap = StructuredAction::Swap { unit, from, to };
    let learn = StructuredAction::Learn { slot };
    exactly_legal_actions_decode(space, cast);
    exactly_legal_actions_decode(space, uses);
    exactly_legal_actions_decode(space, put);
    exactly_legal_actions_decode(space, hand);
    exactly_legal_actions_decode(space, take);
    exactly_legal_actions_decode(space, buy);
    exactly_legal_actions_decode(space, sell);
    exactly_legal_actions_decode(space, swap);
    exactly_legal_actions_decode(space, learn);
    if space.context.state(unit) is None {
        absent_units_have_no_legal_action(space, cast);
        absent_units_have_no_legal_action(space, uses);
        absent_units_have_no_legal_action(space, put);
        absent_units_have_no_legal_action(space, hand);
        absent_units_have_no_legal_action(space, take);
        absent_units_have_no_legal_action(space, buy);
        absent_units_have_no_legal_action(space, sell);
        absent_units_have_no_legal_action(space, swap);
    }
}

} // verus!
