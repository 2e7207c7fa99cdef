//! The action space of one snapshot: candidates, masks, legality, and decoding.
use crate::action::{
    ActionError, ActionKind, ActionTarget, ControlledUnit, ControlledUnitMask, EntityCandidate,
    EntityIndex, IssuedOrder, KindMask, LootCandidate, LootIndex, PointCandidate, PointIndex,
    PutPointTarget, ShopCandidate, ShopIndex, StructuredAction, TargetMask, ACTION_KIND_COUNT,
    WIRE_ITEM_SLOTS,
};
use crate::masks::{masks_blank, masks_live, masks_ok, ControlledMasks, PutPointMask, SpaceContext};
use crate::search::{any_set, any_true, entry, mask_at};
use crate::tracker::{ItemReadiness, StateTracker};
use crate::validation::inside;
use crate::world::{AbilitySlot, EntityId, ItemSlot, ItemView, Order, Target};
use vstd::prelude::*;

verus! {

/// Bounded candidates and all conditional legality masks for one snapshot.
#[derive(Debug)]
pub struct ActionSpace {
    pub context: SpaceContext,
    pub hero_masks: ControlledMasks,
    pub courier_masks: ControlledMasks,
    pub kind_mask: KindMask,
}

/// Whether some target of a list of slots is valid.
pub open spec fn any_open(masks: Seq<TargetMask>) -> bool {
    exists|i: int| 0 <= i < masks.len() && (#[trigger] masks[i]).open()
}

/// Whether an action family has a valid full action for one unit.
pub open spec fn family(masks: ControlledMasks, kind: ActionKind) -> bool {
    match kind {
        ActionKind::Continue => false,
        ActionKind::Stop => masks.stop,
        ActionKind::MovePoint => any_set(masks.move_points@),
        ActionKind::FollowUnit => any_set(masks.follow_entities@),
        ActionKind::Hold => masks.hold,
        ActionKind::AttackMovePoint => any_set(masks.attack_move_points@),
        ActionKind::AttackUnit => any_set(masks.attack_entities@),
        ActionKind::Cast => any_open(masks.casts@),
        ActionKind::Use => any_open(masks.uses@),
        ActionKind::PutPoint => exists|i: int|
            0 <= i < masks.put_points@.len() && (#[trigger] masks.put_points@[i]).open(),
        ActionKind::PutUnit => exists|i: int|
            0 <= i < masks.put_units@.len() && any_set((#[trigger] masks.put_units@[i])@),
        ActionKind::Take => any_set(masks.take@),
        ActionKind::Buy => any_set(masks.buy@),
        ActionKind::Sell => any_set(masks.sell@),
        ActionKind::Swap => exists|i: int|
            0 <= i < masks.swap@.len() && any_set((#[trigger] masks.swap@[i])@),
        ActionKind::Learn => any_set(masks.learn@),
    }
}

fn any_target(masks: &Vec<TargetMask>) -> (r: bool)
    ensures
        r == any_open(masks@),
{
    let mut index: usize = 0;
    while index < masks.len()
        invariant
            index <= masks@.len(),
            forall|i: int| 0 <= i < index ==> !(#[trigger] masks@[i]).open(),
        decreases masks@.len() - index,
    {
        if masks[index].any() {
            assert(masks@[index as int].open());
            return true;
        }
        index += 1;
    }
    false
}

fn any_put_point(masks: &Vec<PutPointMask>) -> (r: bool)
    ensures
        r == exists|i: int| 0 <= i < masks@.len() && (#[trigger] masks@[i]).open(),
{
    let mut index: usize = 0;
    while index < masks.len()
        invariant
            index <= masks@.len(),
            forall|i: int| 0 <= i < index ==> !(#[trigger] masks@[i]).open(),
        decreases masks@.len() - index,
    {
        if masks[index].any() {
            assert(masks@[index as int].open());
            return true;
        }
        index += 1;
    }
    false
}

fn any_put_unit(masks: &Vec<Vec<bool>>) -> (r: bool)
    ensures
        r == exists|i: int| 0 <= i < masks@.len() && any_set((#[trigger] masks@[i])@),
{
    let mut index: usize = 0;
    while index < masks.len()
        invariant
            index <= masks@.len(),
            forall|i: int| 0 <= i < index ==> !any_set((#[trigger] masks@[i])@),
        decreases masks@.len() - index,
    {
        if any_true(masks[index].as_slice()) {
            assert(any_set(masks@[index as int]@));
            return true;
        }
        index += 1;
    }
    false
}

fn any_swap(masks: &Vec<[bool; WIRE_ITEM_SLOTS]>) -> (r: bool)
    ensures
        r == exists|i: int| 0 <= i < masks@.len() && any_set((#[trigger] masks@[i])@),
{
    let mut index: usize = 0;
    while index < masks.len()
        invariant
            index <= masks@.len(),
            forall|i: int| 0 <= i < index ==> !any_set((#[trigger] masks@[i])@),
        decreases masks@.len() - index,
    {
        if any_true(vstd::array::array_as_slice(&masks[index])) {
            assert(any_set(masks@[index as int]@));
            return true;
        }
        index += 1;
    }
    false
}

impl ControlledMasks {
    /// Whether an action family has a valid full action for this unit.
    pub fn family_allowed(&self, kind: ActionKind) -> (r: bool)
        ensures
            r == family(*self, kind),
    {
        match kind {
            ActionKind::Continue => false,
            ActionKind::Stop => self.stop,
            ActionKind::MovePoint => any_true(self.move_points.as_slice()),
            ActionKind::FollowUnit => any_true(self.follow_entities.as_slice()),
            ActionKind::Hold => self.hold,
            ActionKind::AttackMovePoint => any_true(self.attack_move_points.as_slice()),
            ActionKind::AttackUnit => any_true(self.attack_entities.as_slice()),
            ActionKind::Cast => any_target(&self.casts),
            ActionKind::Use => any_target(&self.uses),
            ActionKind::PutPoint => any_put_point(&self.put_points),
            ActionKind::PutUnit => any_put_unit(&self.put_units),
            ActionKind::Take => any_true(self.take.as_slice()),
            ActionKind::Buy => any_true(self.buy.as_slice()),
            ActionKind::Sell => any_true(vstd::array::array_as_slice(&self.sell)),
            ActionKind::Swap => any_swap(&self.swap),
            ActionKind::Learn => any_true(self.learn.as_slice()),
        }
    }
}

/// Whether a kind mask allows exactly the families with a valid full action.
pub open spec fn kind_mask_ok(
    hero: ControlledMasks,
    courier: ControlledMasks,
    mask: KindMask,
) -> bool {
    forall|kind: ActionKind| #[trigger]
        mask.0@[kind.index_spec()] == (kind == ActionKind::Continue || family(hero, kind)
            || family(courier, kind))
}

pub fn build_kind_mask(hero: &ControlledMasks, courier: &ControlledMasks) -> (mask: KindMask)
    ensures
        kind_mask_ok(*hero, *courier, mask),
{
    let mut output: [bool; ACTION_KIND_COUNT] = [false;ACTION_KIND_COUNT];
    let mut index: usize = 0;
    while index < ACTION_KIND_COUNT
        invariant
            index <= ACTION_KIND_COUNT,
            output@.len() == ACTION_KIND_COUNT,
            forall|kind: ActionKind|
                kind.index_spec() < index ==> #[trigger] output@[kind.index_spec()] == (kind
                    == ActionKind::Continue || family(*hero, kind) || family(*courier, kind)),
        decreases ACTION_KIND_COUNT - index,
    {
        if let Some(kind) = ActionKind::from_index(index) {
            let allowed = kind == ActionKind::Continue || hero.family_allowed(kind)
                || courier.family_allowed(kind);
            let ghost before = output@;
            output[index] = allowed;
            proof {
                assert forall|other: ActionKind|
                    other.index_spec() < index + 1 implies #[trigger] output@[other.index_spec()]
                    == (other == ActionKind::Continue || family(*hero, other) || family(
                    *courier,
                    other,
                )) by {
                    if other.index_spec() == index {
                        crate::action::kind_index_is_injective(other, kind);
                    } else {
                        assert(before[other.index_spec()] == output@[other.index_spec()]);
                    }
                }
            }
        }
        index += 1;
    }
    KindMask(output)
}

/// Whether a slot exists and permits a typed target.
pub open spec fn target_permitted(
    masks: Seq<TargetMask>,
    slot: int,
    target: ActionTarget,
) -> bool {
    0 <= slot < masks.len() && masks[slot].permits(target)
}

fn allows_target(masks: &Vec<TargetMask>, slot: u8, target: ActionTarget) -> (r: bool)
    ensures
        r == target_permitted(masks@, slot as int, target),
{
    (slot as usize) < masks.len() && masks[slot as usize].allows(target)
}

/// Whether the item of a bag slot may be put on a ground target.
pub open spec fn put_point_permitted(
    masks: Seq<PutPointMask>,
    source: int,
    target: PutPointTarget,
) -> bool {
    0 <= source < masks.len() && match target {
        PutPointTarget::Underfoot => masks[source].underfoot,
        PutPointTarget::Point(point) => entry(masks[source].points@, point.0 as int),
    }
}

fn allows_put_point(masks: &Vec<PutPointMask>, source: ItemSlot, target: PutPointTarget) -> (r:
    bool)
    ensures
        r == put_point_permitted(masks@, source.0 as int, target),
{
    if source.0 as usize >= masks.len() {
        return false;
    }
    match target {
        PutPointTarget::Underfoot => masks[source.0 as usize].underfoot,
        PutPointTarget::Point(point) => mask_at(
            masks[source.0 as usize].points.as_slice(),
            point.0,
        ),
    }
}

/// Whether the item of a bag slot may be handed to an entity.
pub open spec fn put_unit_permitted(masks: Seq<Vec<bool>>, source: int, target: EntityIndex) -> bool {
    0 <= source < masks.len() && entry(masks[source]@, target.0 as int)
}

fn allows_put_unit(masks: &Vec<Vec<bool>>, source: ItemSlot, target: EntityIndex) -> (r: bool)
    ensures
        r == put_unit_permitted(masks@, source.0 as int, target),
{
    (source.0 as usize) < masks.len() && mask_at(masks[source.0 as usize].as_slice(), target.0)
}

/// Whether the item of one slot may be swapped into another.
pub open spec fn swap_permitted(rows: Seq<[bool; WIRE_ITEM_SLOTS]>, from: int, to: int) -> bool {
    0 <= from < rows.len() && entry(rows[from]@, to)
}

fn allows_swap(rows: &Vec<[bool; WIRE_ITEM_SLOTS]>, from: ItemSlot, to: ItemSlot) -> (r: bool)
    ensures
        r == swap_permitted(rows@, from.0 as int, to.0 as int),
{
    (from.0 as usize) < rows.len() && mask_at(
        vstd::array::array_as_slice(&rows[from.0 as usize]),
        to.0 as usize,
    )
}

/// Unit whose masks decide an action; families without a unit belong to the hero.
pub open spec fn selected_unit_of(action: StructuredAction) -> ControlledUnit {
    match action.unit_spec() {
        Some(unit) => unit,
        None => ControlledUnit::Hero,
    }
}

/// Whether the masks of one unit permit an action.
pub open spec fn unit_permits(masks: ControlledMasks, action: StructuredAction) -> bool {
    match action {
        StructuredAction::Continue => true,
        StructuredAction::Stop { .. } => masks.stop,
        StructuredAction::MovePoint { point, .. } => entry(
            masks.move_points@,
            point.0 as int,
        ),
        StructuredAction::FollowUnit { target, .. } => entry(
            masks.follow_entities@,
            target.0 as int,
        ),
        StructuredAction::Hold { .. } => masks.hold,
        StructuredAction::AttackMovePoint { point, .. } => entry(
            masks.attack_move_points@,
            point.0 as int,
        ),
        StructuredAction::AttackUnit { target, .. } => entry(
            masks.attack_entities@,
            target.0 as int,
        ),
        StructuredAction::Cast { slot, target, .. } => target_permitted(
            masks.casts@,
            slot.0 as int,
            target,
        ),
        StructuredAction::Use { slot, target, .. } => target_permitted(
            masks.uses@,
            slot.0 as int,
            target,
        ),
        StructuredAction::PutPoint { source, target, .. } => put_point_permitted(
            masks.put_points@,
            source.0 as int,
            target,
        ),
        StructuredAction::PutUnit { source, target, .. } => put_unit_permitted(
            masks.put_units@,
            source.0 as int,
            target,
        ),
        StructuredAction::Take { loot, .. } => entry(
            masks.take@,
            loot.0 as int,
        ),
        StructuredAction::Buy { item, .. } => entry(masks.buy@, item.0 as int),
        StructuredAction::Sell { slot, .. } => entry(
            masks.sell@,
            slot.0 as int,
        ),
        StructuredAction::Swap { from, to, .. } => swap_permitted(
            masks.swap@,
            from.0 as int,
            to.0 as int,
        ),
        StructuredAction::Learn { slot } => entry(
            masks.learn@,
            slot.0 as int,
        ),
    }
}

impl ControlledMasks {
    /// Whether these masks permit an action.
    pub fn permits(&self, action: StructuredAction) -> (r: bool)
        ensures
            r == unit_permits(*self, action),
    {
        match action {
            StructuredAction::Continue => true,
            StructuredAction::Stop { .. } => self.stop,
            StructuredAction::MovePoint { point, .. } => mask_at(
                self.move_points.as_slice(),
                point.0,
            ),
            StructuredAction::FollowUnit { target, .. } => mask_at(
                self.follow_entities.as_slice(),
                target.0,
            ),
            StructuredAction::Hold { .. } => self.hold,
            StructuredAction::AttackMovePoint { point, .. } => mask_at(
                self.attack_move_points.as_slice(),
                point.0,
            ),
            StructuredAction::AttackUnit { target, .. } => mask_at(
                self.attack_entities.as_slice(),
                target.0,
            ),
            StructuredAction::Cast { slot, target, .. } => allows_target(
                &self.casts,
                slot.0,
                target,
            ),
            StructuredAction::Use { slot, target, .. } => allows_target(
                &self.uses,
                slot.0,
                target,
            ),
            StructuredAction::PutPoint { source, target, .. } => allows_put_point(
                &self.put_points,
                source,
                target,
            ),
            StructuredAction::PutUnit { source, target, .. } => allows_put_unit(
                &self.put_units,
                source,
                target,
            ),
            StructuredAction::Take { loot, .. } => mask_at(
                self.take.as_slice(),
                loot.0,
            ),
            StructuredAction::Buy { item, .. } => mask_at(
                self.buy.as_slice(),
                item.0,
            ),
            StructuredAction::Sell { slot, .. } => mask_at(
                vstd::array::array_as_slice(&self.sell),
                slot.0 as usize,
            ),
            StructuredAction::Swap { from, to, .. } => allows_swap(
                &self.swap,
                from,
                to,
            ),
            StructuredAction::Learn { slot } => mask_at(
                self.learn.as_slice(),
                slot.0 as usize,
            ),
        }
    }
}

impl ActionSpace {
    pub open spec fn wf(self) -> bool {
        &&& self.context.wf()
        &&& masks_ok(self.context, ControlledUnit::Hero, self.hero_masks)
        &&& masks_ok(self.context, ControlledUnit::Courier, self.courier_masks)
        &&& kind_mask_ok(self.hero_masks, self.courier_masks, self.kind_mask)
    }

    pub open spec fn masks(self, unit: ControlledUnit) -> ControlledMasks {
        match unit {
            ControlledUnit::Hero => self.hero_masks,
            ControlledUnit::Courier => self.courier_masks,
        }
    }

    /// Whether the masks of the selected unit permit an action.
    pub open spec fn conditionals(self, action: StructuredAction) -> bool {
        unit_permits(self.masks(selected_unit_of(action)), action)
    }

    /// Whether the exact complete structured action is legal in this snapshot.
    pub open spec fn legal(self, action: StructuredAction) -> bool {
        self.kind_mask.0@[action.kind_spec().index_spec()] && self.conditionals(action)
    }

    fn masks_of(&self, unit: ControlledUnit) -> (r: &ControlledMasks)
        ensures
            *r == self.masks(unit),
    {
        match unit {
            ControlledUnit::Hero => &self.hero_masks,
            ControlledUnit::Courier => &self.courier_masks,
        }
    }

    fn allows_conditionals(&self, action: StructuredAction) -> (r: bool)
        ensures
            r == self.conditionals(action),
    {
        let unit = match action.controlled_unit() {
            Some(unit) => unit,
            None => ControlledUnit::Hero,
        };
        self.masks_of(unit).permits(action)
    }

    /// Whether the exact complete structured action is legal in this snapshot.
    pub fn allows(&self, action: StructuredAction) -> (r: bool)
        ensures
            r == self.legal(action),
    {
        if !self.kind_mask.allows(action.kind()) {
            return false;
        }
        self.allows_conditionals(action)
    }

    pub open spec fn target_fault(self, target: ActionTarget) -> Option<ActionError> {
        match target {
            ActionTarget::Untargeted => None,
            ActionTarget::Entity(index) => index_fault(
                "entity target",
                index.0,
                self.context.entities@.len(),
            ),
            ActionTarget::Point(index) => index_fault(
                "point target",
                index.0,
                self.context.points@.len(),
            ),
        }
    }

    /// Candidate index of an action that lies outside its candidate list.
    pub open spec fn candidate_fault(self, action: StructuredAction) -> Option<ActionError> {
        let points = self.context.points@.len();
        let entities = self.context.entities@.len();
        match action {
            StructuredAction::MovePoint { point, .. } => index_fault(
                "point target",
                point.0,
                points,
            ),
            StructuredAction::AttackMovePoint { point, .. } => index_fault(
                "point target",
                point.0,
                points,
            ),
            StructuredAction::FollowUnit { target, .. } => index_fault(
                "entity target",
                target.0,
                entities,
            ),
            StructuredAction::AttackUnit { target, .. } => index_fault(
                "entity target",
                target.0,
                entities,
            ),
            StructuredAction::PutUnit { target, .. } => index_fault(
                "entity target",
                target.0,
                entities,
            ),
            StructuredAction::Cast { target, .. } => self.target_fault(target),
            StructuredAction::Use { target, .. } => self.target_fault(target),
            StructuredAction::PutPoint { target: PutPointTarget::Point(point), .. } => index_fault(
                "point target",
                point.0,
                points,
            ),
            StructuredAction::Take { loot, .. } => index_fault(
                "loot target",
                loot.0,
                self.context.loot@.len(),
            ),
            StructuredAction::Buy { item, .. } => index_fault(
                "shop item",
                item.0,
                self.context.shop@.len(),
            ),
            _ => None,
        }
    }

    fn validate_target_index(&self, target: ActionTarget) -> (r: Result<(), ActionError>)
        ensures
            r == crate::validation::faulted(self.target_fault(target)),
    {
        match target {
            ActionTarget::Untargeted => Ok(()),
            ActionTarget::Entity(index) => check_candidate(
                "entity target",
                index.0,
                self.context.entities.len(),
            ),
            ActionTarget::Point(index) => check_candidate(
                "point target",
                index.0,
                self.context.points.len(),
            ),
        }
    }

    fn validate_candidate_indices(&self, action: StructuredAction) -> (r: Result<(), ActionError>)
        ensures
            r == crate::validation::faulted(self.candidate_fault(action)),
    {
        match action {
            StructuredAction::MovePoint { point, .. } => check_candidate(
                "point target",
                point.0,
                self.context.points.len(),
            ),
            StructuredAction::AttackMovePoint { point, .. } => check_candidate(
                "point target",
                point.0,
                self.context.points.len(),
            ),
            StructuredAction::FollowUnit { target, .. } => check_candidate(
                "entity target",
                target.0,
                self.context.entities.len(),
            ),
            StructuredAction::AttackUnit { target, .. } => check_candidate(
                "entity target",
                target.0,
                self.context.entities.len(),
            ),
            StructuredAction::PutUnit { target, .. } => check_candidate(
                "entity target",
                target.0,
                self.context.entities.len(),
            ),
            StructuredAction::Cast { target, .. } => self.validate_target_index(target),
            StructuredAction::Use { target, .. } => self.validate_target_index(target),
            StructuredAction::PutPoint {
                target: PutPointTarget::Point(point),
                ..
            } => check_candidate("point target", point.0, self.context.points.len()),
            StructuredAction::Take { loot, .. } => check_candidate(
                "loot target",
                loot.0,
                self.context.loot.len(),
            ),
            StructuredAction::Buy { item, .. } => check_candidate(
                "shop item",
                item.0,
                self.context.shop.len(),
            ),
            _ => Ok(()),
        }
    }

    pub open spec fn target_of(self, target: ActionTarget) -> Target {
        match target {
            ActionTarget::Untargeted => Target::Untargeted,
            ActionTarget::Entity(index) => Target::Unit(
                self.context.entities@[index.0 as int].unit.id,
            ),
            ActionTarget::Point(index) => Target::Pos(
                self.context.points@[index.0 as int].position,
            ),
        }
    }

    /// Wire order of an action.
    pub open spec fn order_of(self, action: StructuredAction) -> Order {
        let points = self.context.points@;
        let entities = self.context.entities@;
        match action {
            StructuredAction::Continue => Order::Move { target: Target::Untargeted },
            StructuredAction::Stop { .. } => Order::Move { target: Target::Untargeted },
            StructuredAction::MovePoint { point, .. } => Order::Move {
                target: Target::Pos(points[point.0 as int].position),
            },
            StructuredAction::FollowUnit { target, .. } => Order::Move {
                target: Target::Unit(entities[target.0 as int].unit.id),
            },
            StructuredAction::Hold { .. } => Order::Attack { target: Target::Untargeted },
            StructuredAction::AttackMovePoint { point, .. } => Order::Attack {
                target: Target::Pos(points[point.0 as int].position),
            },
            StructuredAction::AttackUnit { target, .. } => Order::Attack {
                target: Target::Unit(entities[target.0 as int].unit.id),
            },
            StructuredAction::Cast { slot, target, .. } => Order::Cast {
                slot,
                target: self.target_of(target),
            },
            StructuredAction::Use { slot, target, .. } => Order::Use {
                slot,
                target: self.target_of(target),
            },
            StructuredAction::PutPoint { source, target, .. } => Order::Put {
                slot: source,
                target: match target {
                    PutPointTarget::Underfoot => Target::Untargeted,
                    PutPointTarget::Point(point) => Target::Pos(points[point.0 as int].position),
                },
            },
            StructuredAction::PutUnit { source, target, .. } => Order::Put {
                slot: source,
                target: Target::Unit(entities[target.0 as int].unit.id),
            },
            StructuredAction::Take { loot, .. } => Order::Take {
                target: Target::Unit(self.context.loot@[loot.0 as int].id),
            },
            StructuredAction::Buy { item, .. } => Order::Buy {
                item: self.context.shop@[item.0 as int].item,
            },
            StructuredAction::Sell { slot, .. } => Order::Sell { slot },
            StructuredAction::Swap { from, to, .. } => Order::Swap { from, to },
            StructuredAction::Learn { slot } => Order::Learn { slot },
        }
    }

    /// Wire selector of the unit an action controls.
    pub open spec fn wire_unit_of(self, action: StructuredAction) -> Option<EntityId> {
        match action.unit_spec() {
            Some(ControlledUnit::Courier) => match self.context.courier {
                Some(state) => Some(state.unit.id),
                None => None,
            },
            _ => None,
        }
    }

    fn decode_target(&self, target: ActionTarget) -> (r: Target)
        requires
            self.target_fault(target) is None,
        ensures
            r == self.target_of(target),
    {
        match target {
            ActionTarget::Untargeted => Target::Untargeted,
            ActionTarget::Entity(index) => Target::Unit(self.context.entities[index.0].unit.id),
            ActionTarget::Point(index) => Target::Pos(self.context.points[index.0].position),
        }
    }

    fn decode_put_point(&self, target: PutPointTarget) -> (r: Target)
        requires
            target matches PutPointTarget::Point(point) ==> point.0 < self.context.points@.len(),
        ensures
            r == (match target {
                PutPointTarget::Underfoot => Target::Untargeted,
                PutPointTarget::Point(point) => Target::Pos(
                    self.context.points@[point.0 as int].position,
                ),
            }),
    {
        match target {
            PutPointTarget::Underfoot => Target::Untargeted,
            PutPointTarget::Point(index) => Target::Pos(self.context.points[index.0].position),
        }
    }

    fn decode_order(&self, action: StructuredAction) -> (r: Result<Order, ActionError>)
        requires
            self.candidate_fault(action) is None,
        ensures
            action == StructuredAction::Continue ==> r == Err::<Order, ActionError>(
                ActionError::NotAllowed(ActionKind::Continue),
            ),
            action != StructuredAction::Continue ==> r == Ok::<Order, ActionError>(
                self.order_of(action),
            ),
    {
        let order = match action {
            StructuredAction::Continue => {
                return Err(ActionError::NotAllowed(ActionKind::Continue));
            },
            StructuredAction::Stop { .. } => Order::Move { target: Target::Untargeted },
            StructuredAction::MovePoint { point, .. } => Order::Move {
                target: Target::Pos(self.context.points[point.0].position),
            },
            StructuredAction::FollowUnit { target, .. } => Order::Move {
                target: Target::Unit(self.context.entities[target.0].unit.id),
            },
            StructuredAction::Hold { .. } => Order::Attack { target: Target::Untargeted },
            StructuredAction::AttackMovePoint { point, .. } => Order::Attack {
                target: Target::Pos(self.context.points[point.0].position),
            },
            StructuredAction::AttackUnit { target, .. } => Order::Attack {
                target: Target::Unit(self.context.entities[target.0].unit.id),
            },
            StructuredAction::Cast { slot, target, .. } => Order::Cast {
                slot,
                target: self.decode_target(target),
            },
            StructuredAction::Use { slot, target, .. } => Order::Use {
                slot,
                target: self.decode_target(target),
            },
            StructuredAction::PutPoint { source, target, .. } => Order::Put {
                slot: source,
                target: self.decode_put_point(target),
            },
            StructuredAction::PutUnit { source, target, .. } => Order::Put {
                slot: source,
                target: Target::Unit(self.context.entities[target.0].unit.id),
            },
            StructuredAction::Take { loot, .. } => Order::Take {
                target: Target::Unit(self.context.loot[loot.0].id),
            },
            StructuredAction::Buy { item, .. } => Order::Buy {
                item: self.context.shop[item.0].item,
            },
            StructuredAction::Sell { slot, .. } => Order::Sell { slot },
            StructuredAction::Swap { from, to, .. } => Order::Swap { from, to },
            StructuredAction::Learn { slot } => Order::Learn { slot },
        };
        Ok(order)
    }

    fn wire_unit(&self, unit: ControlledUnit) -> (r: Result<Option<EntityId>, ActionError>)
        ensures
            r == (match unit {
                ControlledUnit::Hero => Ok::<Option<EntityId>, ActionError>(None),
                ControlledUnit::Courier => match self.context.courier {
                    Some(state) => Ok(Some(state.unit.id)),
                    None => Err(ActionError::NotAllowed(ActionKind::Stop)),
                },
            }),
    {
        match unit {
            ControlledUnit::Hero => Ok(None),
            ControlledUnit::Courier => match &self.context.courier {
                Some(state) => Ok(Some(state.unit.id)),
                None => Err(ActionError::NotAllowed(ActionKind::Stop)),
            },
        }
    }

    /// What decoding an action gives.
    pub open spec fn decoded(self, action: StructuredAction) -> Result<
        Option<IssuedOrder>,
        ActionError,
    > {
        match self.candidate_fault(action) {
            Some(error) => Err(error),
            None => if !self.legal(action) {
                Err(ActionError::NotAllowed(action.kind_spec()))
            } else if action == StructuredAction::Continue {
                Ok(None)
            } else {
                Ok(
                    Some(
                        IssuedOrder {
                            unit: self.wire_unit_of(action),
                            order: self.order_of(action),
                        },
                    ),
                )
            },
        }
    }

    /// Validates the exact action and converts candidate indices to wire values.
    pub fn decode(&self, action: StructuredAction) -> (r: Result<Option<IssuedOrder>, ActionError>)
        requires
            self.wf(),
        ensures
            r == self.decoded(action),
    {
        match self.validate_candidate_indices(action) {
            Ok(()) => {},
            Err(error) => {
                return Err(error);
            },
        }
        if !self.allows(action) {
            return Err(ActionError::NotAllowed(action.kind()));
        }
        if action == StructuredAction::Continue {
            return Ok(None);
        }
        let unit = match action.controlled_unit() {
            Some(selected) => match self.wire_unit(selected) {
                Ok(unit) => unit,
                Err(error) => {
                    assert(self.context.courier is None);
                    assert(masks_blank(self.context, self.courier_masks));
                    assert(false);
                    return Err(error);
                },
            },
            None => None,
        };
        match self.decode_order(action) {
            Ok(order) => Ok(Some(IssuedOrder { unit, order })),
            Err(error) => Err(error),
        }
    }
}

/// Fault of a candidate index, if it lies outside its list.
pub open spec fn index_fault(field: &'static str, index: usize, count: nat) -> Option<ActionError> {
    if index >= count {
        Some(ActionError::CandidateIndex { field, index, count: count as usize })
    } else {
        None
    }
}

fn check_candidate(field: &'static str, index: usize, count: usize) -> (r: Result<(), ActionError>)
    ensures
        r == crate::validation::faulted(index_fault(field, index, count as nat)),
{
    if index >= count {
        return Err(ActionError::CandidateIndex { field, index, count });
    }
    Ok(())
}


proof fn lemma_entry_sets(mask: Seq<bool>, index: int)
    requires
        entry(mask, index),
    ensures
        any_set(mask),
{
    assert(mask[index]);
}

/// An action that the masks of its unit permit belongs to an allowed family.
proof fn lemma_permitted_family(masks: ControlledMasks, action: StructuredAction)
    requires
        unit_permits(masks, action),
        action != StructuredAction::Continue,
    ensures
        family(masks, action.kind_spec()),
{
    match action {
        StructuredAction::MovePoint { point, .. } => {
            lemma_entry_sets(masks.move_points@, point.0 as int);
        },
        StructuredAction::FollowUnit { target, .. } => {
            lemma_entry_sets(masks.follow_entities@, target.0 as int);
        },
        StructuredAction::AttackMovePoint { point, .. } => {
            lemma_entry_sets(masks.attack_move_points@, point.0 as int);
        },
        StructuredAction::AttackUnit { target, .. } => {
            lemma_entry_sets(masks.attack_entities@, target.0 as int);
        },
        StructuredAction::Cast { slot, target, .. } => {
            let mask = masks.casts@[slot.0 as int];
            crate::action::open_target_mask_permits_something(mask);
            assert(mask.permits(target));
            assert(masks.casts@[slot.0 as int].open());
        },
        StructuredAction::Use { slot, target, .. } => {
            let mask = masks.uses@[slot.0 as int];
            crate::action::open_target_mask_permits_something(mask);
            assert(mask.permits(target));
            assert(masks.uses@[slot.0 as int].open());
        },
        StructuredAction::PutPoint { source, target, .. } => {
            if let PutPointTarget::Point(point) = target {
                lemma_entry_sets(masks.put_points@[source.0 as int].points@, point.0 as int);
            }
            assert(masks.put_points@[source.0 as int].open());
        },
        StructuredAction::PutUnit { source, target, .. } => {
            lemma_entry_sets(masks.put_units@[source.0 as int]@, target.0 as int);
            assert(any_set(masks.put_units@[source.0 as int]@));
        },
        StructuredAction::Take { loot, .. } => {
            lemma_entry_sets(masks.take@, loot.0 as int);
        },
        StructuredAction::Buy { item, .. } => {
            lemma_entry_sets(masks.buy@, item.0 as int);
        },
        StructuredAction::Sell { slot, .. } => {
            lemma_entry_sets(masks.sell@, slot.0 as int);
        },
        StructuredAction::Swap { from, to, .. } => {
            lemma_entry_sets(masks.swap@[from.0 as int]@, to.0 as int);
            assert(any_set(masks.swap@[from.0 as int]@));
        },
        StructuredAction::Learn { slot } => {
            lemma_entry_sets(masks.learn@, slot.0 as int);
        },
        _ => {},
    }
}

/// A legal action belongs to an allowed family of its unit.
pub proof fn lemma_permitted_family_of(space: ActionSpace, action: StructuredAction)
    requires
        space.legal(action),
    ensures
        action != StructuredAction::Continue ==> family(
            space.masks(selected_unit_of(action)),
            action.kind_spec(),
        ),
{
    if action != StructuredAction::Continue {
        lemma_permitted_family(space.masks(selected_unit_of(action)), action);
    }
}

/// The kind mask never hides an action that the conditional masks permit.
pub proof fn conditional_masks_decide_legality(space: ActionSpace, action: StructuredAction)
    requires
        space.wf(),
    ensures
        space.legal(action) <==> space.conditionals(action),
{
    if space.conditionals(action) {
        let kind = action.kind_spec();
        if action != StructuredAction::Continue {
            lemma_permitted_family(space.masks(selected_unit_of(action)), action);
        }
        assert(space.kind_mask.0@[kind.index_spec()]);
    }
}

/// Every candidate index of a permitted action lies inside its candidate list.
proof fn lemma_permitted_indices(space: ActionSpace, action: StructuredAction)
    requires
        space.wf(),
        space.conditionals(action),
    ensures
        space.candidate_fault(action) is None,
{
    let unit = selected_unit_of(action);
    let masks = space.masks(unit);
    assert(masks_ok(space.context, unit, masks));
    match space.context.state(unit) {
        Some(state) => {
            assert(masks_live(space.context, state, unit, masks));
            match action {
                StructuredAction::Use { slot, .. } => {
                    assert(crate::masks::use_mask_ok(
                        space.context,
                        state,
                        unit,
                        slot.0 as int,
                        masks.uses@[slot.0 as int],
                    ));
                },
                StructuredAction::Cast { slot, .. } => {
                    assert(masks.casts@[slot.0 as int].entities@.len()
                        == space.context.entities@.len());
                },
                StructuredAction::PutPoint { source, .. } => {
                    assert(masks.put_points@[source.0 as int].points@.len()
                        == space.context.points@.len());
                },
                StructuredAction::PutUnit { source, .. } => {
                    assert(masks.put_units@[source.0 as int]@.len()
                        == space.context.entities@.len());
                },
                _ => {},
            }
        },
        None => {
            assert(masks_blank(space.context, masks));
        },
    }
}

/// Every legal action decodes, and only legal actions do.
pub proof fn exactly_legal_actions_decode(space: ActionSpace, action: StructuredAction)
    requires
        space.wf(),
    ensures
        space.decoded(action) is Ok <==> space.legal(action),
{
    if space.legal(action) {
        lemma_permitted_indices(space, action);
    }
}

/// A dead or absent unit has no legal action of its own.
pub proof fn absent_units_have_no_legal_action(space: ActionSpace, action: StructuredAction)
    requires
        space.wf(),
        action.unit_spec() matches Some(unit) && space.context.state(unit) is None,
    ensures
        !space.legal(action),
{
    let unit = action.unit_spec()->0;
    assert(masks_blank(space.context, space.masks(unit)));
}

proof fn lemma_open_target(mask: TargetMask) -> (target: ActionTarget)
    requires
        mask.open(),
    ensures
        mask.permits(target),
{
    crate::action::open_target_mask_permits_something(mask);
    choose|target: ActionTarget| mask.permits(target)
}

proof fn lemma_small_lists(space: ActionSpace, unit: ControlledUnit)
    requires
        space.wf(),
    ensures
        space.masks(unit).casts@.len() <= 8,
        space.masks(unit).uses@.len() <= 6,
        space.masks(unit).put_points@.len() <= 9,
        space.masks(unit).put_units@.len() <= 9,
        space.masks(unit).swap@.len() == 15,
        space.masks(unit).learn@.len() <= 8,
        unit == ControlledUnit::Courier ==> space.masks(unit).learn@.len() == 0,
{
    assert(masks_ok(space.context, unit, space.masks(unit)));
}

/// An allowed family of one unit has an action that the unit's masks permit.
proof fn lemma_family_action(space: ActionSpace, unit: ControlledUnit, kind: ActionKind) -> (action:
    StructuredAction)
    requires
        space.wf(),
        family(space.masks(unit), kind),
    ensures
        action.kind_spec() == kind,
        kind != ActionKind::Continue ==> selected_unit_of(action) == unit,
        space.conditionals(action),
{
    let masks = space.masks(unit);
    lemma_small_lists(space, unit);
    assert(masks.move_points.len() == masks.move_points@.len());
    assert(masks.follow_entities.len() == masks.follow_entities@.len());
    assert(masks.attack_move_points.len() == masks.attack_move_points@.len());
    assert(masks.attack_entities.len() == masks.attack_entities@.len());
    assert(masks.take.len() == masks.take@.len());
    assert(masks.buy.len() == masks.buy@.len());
    match kind {
        ActionKind::Continue => StructuredAction::Continue,
        ActionKind::Stop => StructuredAction::Stop { unit },
        ActionKind::Hold => StructuredAction::Hold { unit },
        ActionKind::MovePoint => {
            let i = choose|i: int| 0 <= i < masks.move_points@.len() && #[trigger]
                masks.move_points@[i];
            StructuredAction::MovePoint { unit, point: PointIndex(i as usize) }
        },
        ActionKind::FollowUnit => {
            let i = choose|i: int| 0 <= i < masks.follow_entities@.len() && #[trigger]
                masks.follow_entities@[i];
            StructuredAction::FollowUnit { unit, target: EntityIndex(i as usize) }
        },
        ActionKind::AttackMovePoint => {
            let i = choose|i: int| 0 <= i < masks.attack_move_points@.len() && #[trigger]
                masks.attack_move_points@[i];
            StructuredAction::AttackMovePoint { unit, point: PointIndex(i as usize) }
        },
        ActionKind::AttackUnit => {
            let i = choose|i: int| 0 <= i < masks.attack_entities@.len() && #[trigger]
                masks.attack_entities@[i];
            StructuredAction::AttackUnit { unit, target: EntityIndex(i as usize) }
        },
        ActionKind::Cast => {
            let i = choose|i: int| 0 <= i < masks.casts@.len() && (#[trigger]
                masks.casts@[i]).open();
            let target = lemma_open_target(masks.casts@[i]);
            StructuredAction::Cast { unit, slot: AbilitySlot(i as u8), target }
        },
        ActionKind::Use => {
            let i = choose|i: int| 0 <= i < masks.uses@.len() && (#[trigger] masks.uses@[i]).open();
            let target = lemma_open_target(masks.uses@[i]);
            StructuredAction::Use { unit, slot: ItemSlot(i as u8), target }
        },
        ActionKind::PutPoint => {
            let i = choose|i: int| 0 <= i < masks.put_points@.len() && (#[trigger]
                masks.put_points@[i]).open();
            let mask = masks.put_points@[i];
            assert(mask.points.len() == mask.points@.len());
            if mask.underfoot {
                StructuredAction::PutPoint {
                    unit,
                    source: ItemSlot(i as u8),
                    target: PutPointTarget::Underfoot,
                }
            } else {
                let j = choose|j: int| 0 <= j < mask.points@.len() && #[trigger] mask.points@[j];
                StructuredAction::PutPoint {
                    unit,
                    source: ItemSlot(i as u8),
                    target: PutPointTarget::Point(PointIndex(j as usize)),
                }
            }
        },
        ActionKind::PutUnit => {
            let i = choose|i: int| 0 <= i < masks.put_units@.len() && any_set((#[trigger]
                masks.put_units@[i])@);
            let mask = masks.put_units@[i]@;
            assert(masks.put_units@[i].len() == mask.len());
            let j = choose|j: int| 0 <= j < mask.len() && #[trigger] mask[j];
            StructuredAction::PutUnit {
                unit,
                source: ItemSlot(i as u8),
                target: EntityIndex(j as usize),
            }
        },
        ActionKind::Take => {
            let i = choose|i: int| 0 <= i < masks.take@.len() && #[trigger] masks.take@[i];
            StructuredAction::Take { unit, loot: LootIndex(i as usize) }
        },
        ActionKind::Buy => {
            let i = choose|i: int| 0 <= i < masks.buy@.len() && #[trigger] masks.buy@[i];
            StructuredAction::Buy { unit, item: ShopIndex(i as usize) }
        },
        ActionKind::Sell => {
            let i = choose|i: int| 0 <= i < masks.sell@.len() && #[trigger] masks.sell@[i];
            StructuredAction::Sell { unit, slot: ItemSlot(i as u8) }
        },
        ActionKind::Swap => {
            let i = choose|i: int| 0 <= i < masks.swap@.len() && any_set((#[trigger]
                masks.swap@[i])@);
            let row = masks.swap@[i]@;
            let j = choose|j: int| 0 <= j < row.len() && #[trigger] row[j];
            StructuredAction::Swap { unit, from: ItemSlot(i as u8), to: ItemSlot(j as u8) }
        },
        ActionKind::Learn => {
            let i = choose|i: int| 0 <= i < masks.learn@.len() && #[trigger] masks.learn@[i];
            StructuredAction::Learn { slot: AbilitySlot(i as u8) }
        },
    }
}

/// The kind mask allows a family exactly when some full action of that family is legal.
pub proof fn kind_mask_allows_exactly_open_families(space: ActionSpace, kind: ActionKind)
    requires
        space.wf(),
    ensures
        space.kind_mask.0@[kind.index_spec()] <==> exists|action: StructuredAction|
            action.kind_spec() == kind && #[trigger] space.legal(action),
{
    if space.kind_mask.0@[kind.index_spec()] {
        if kind == ActionKind::Continue {
            assert(space.legal(StructuredAction::Continue));
        } else if family(space.hero_masks, kind) {
            let action = lemma_family_action(space, ControlledUnit::Hero, kind);
            assert(space.legal(action));
        } else {
            let action = lemma_family_action(space, ControlledUnit::Courier, kind);
            assert(space.legal(action));
        }
    }
}

/// The unit mask of a family allows a unit exactly when some full action of that family with
/// that unit is legal; learning belongs to the hero.
pub proof fn unit_mask_allows_exactly_open_units(
    space: ActionSpace,
    kind: ActionKind,
    unit: ControlledUnit,
)
    requires
        space.wf(),
        kind != ActionKind::Continue,
    ensures
        space.unit_mask(kind)[unit.index_spec() as int] <==> exists|action: StructuredAction|
            action.kind_spec() == kind && selected_unit_of(action) == unit
                && #[trigger] space.legal(action),
{
    if family(space.masks(unit), kind) {
        let action = lemma_family_action(space, unit, kind);
        conditional_masks_decide_legality(space, action);
        assert(space.legal(action));
    }
    if exists|action: StructuredAction|
        action.kind_spec() == kind && selected_unit_of(action) == unit && #[trigger] space.legal(
            action,
        ) {
        let action = choose|action: StructuredAction|
            action.kind_spec() == kind && selected_unit_of(action) == unit
                && #[trigger] space.legal(action);
        lemma_permitted_family_of(space, action);
    }
}

/// Openness of every slot of a list.
pub open spec fn open_slots(masks: Seq<TargetMask>) -> Seq<bool> {
    Seq::new(masks.len(), |i: int| masks[i].open())
}

fn open_slot_mask(masks: &Vec<TargetMask>) -> (r: Vec<bool>)
    ensures
        r@ == open_slots(masks@),
{
    let mut output: Vec<bool> = Vec::new();
    let mut index: usize = 0;
    while index < masks.len()
        invariant
            index <= masks@.len(),
            output@.len() == index,
            forall|i: int| 0 <= i < index ==> (#[trigger] output@[i]) == masks@[i].open(),
        decreases masks@.len() - index,
    {
        output.push(masks[index].any());
        index += 1;
    }
    assert(output@ =~= open_slots(masks@));
    output
}

impl ActionSpace {
    /// Tick of the snapshot this space was built from.
    pub fn tick(&self) -> (r: u32)
        ensures
            r == self.context.tick,
    {
        self.context.tick
    }

    /// Whether the space was built from the current state of a tracker.
    pub fn matches_tracker(&self, tracker: &StateTracker) -> (r: bool)
        ensures
            r == (self.context.provenance == tracker.provenance),
    {
        self.context.provenance == tracker.provenance
    }

    /// Whether the space was built with the given item timers.
    pub fn matches_readiness(&self, readiness: &ItemReadiness) -> (r: bool)
        ensures
            r == self.context.readiness.same(*readiness),
    {
        self.context.readiness.is_same(readiness)
    }

    /// Item held by a controlled unit in one of its bag slots, if any.
    pub fn controlled_item(&self, unit: ControlledUnit, slot: ItemSlot) -> (r: Option<ItemView>)
        ensures
            r == (match self.context.state(unit) {
                Some(state) => if (slot.0 as int) < state.unit.items@.len() {
                    state.unit.items@[slot.0 as int]
                } else {
                    None
                },
                None => None,
            }),
    {
        let state = match unit {
            ControlledUnit::Hero => &self.context.hero,
            ControlledUnit::Courier => &self.context.courier,
        };
        match state {
            Some(state) => if (slot.0 as usize) < state.unit.items.len() {
                state.unit.items[slot.0 as usize]
            } else {
                None
            },
            None => None,
        }
    }

    /// Finds a current candidate by its handle.
    pub fn entity_index(&self, id: EntityId) -> (r: Option<EntityIndex>)
        ensures
            match r {
                Some(found) => {
                    &&& found.0 < self.context.entities@.len()
                    &&& self.context.entities@[found.0 as int].unit.id == id
                    &&& forall|j: int|
                        0 <= j < found.0 ==> (#[trigger] self.context.entities@[j]).unit.id != id
                },
                None => forall|j: int|
                    0 <= j < self.context.entities@.len() ==> (
                    #[trigger] self.context.entities@[j]).unit.id != id,
            },
    {
        let mut index: usize = 0;
        while index < self.context.entities.len()
            invariant
                index <= self.context.entities@.len(),
                forall|j: int|
                    0 <= j < index ==> (#[trigger] self.context.entities@[j]).unit.id != id,
            decreases self.context.entities@.len() - index,
        {
            if self.context.entities[index].unit.id == id {
                return Some(EntityIndex(index));
            }
            index += 1;
        }
        None
    }

    /// Top-level mask in stable append-only kind order.
    pub fn kind_mask(&self) -> (r: &KindMask)
        ensures
            *r == self.kind_mask,
    {
        &self.kind_mask
    }

    /// Units with a valid action of one family, in hero, courier order.
    pub open spec fn unit_mask(self, kind: ActionKind) -> Seq<bool> {
        seq![family(self.hero_masks, kind), family(self.courier_masks, kind)]
    }

    /// Conditional hero and courier mask for one action family.
    pub fn controlled_unit_mask(&self, kind: ActionKind) -> (r: ControlledUnitMask)
        ensures
            r.0@ == self.unit_mask(kind),
    {
        let mask: [bool; 2] = [
            self.hero_masks.family_allowed(kind),
            self.courier_masks.family_allowed(kind),
        ];
        assert(mask@ =~= self.unit_mask(kind));
        ControlledUnitMask(mask)
    }

    /// Current visible entity candidates.
    pub fn entity_candidates(&self) -> (r: &[EntityCandidate])
        ensures
            r@ == self.context.entities@,
    {
        self.context.entities.as_slice()
    }

    /// Deterministic deduplicated point candidates.
    pub fn point_candidates(&self) -> (r: &[PointCandidate])
        ensures
            r@ == self.context.points@,
    {
        self.context.points.as_slice()
    }

    /// Current visible loot candidates.
    pub fn loot_candidates(&self) -> (r: &[LootCandidate])
        ensures
            r@ == self.context.loot@,
    {
        self.context.loot.as_slice()
    }

    /// Static shop candidates in item-id order.
    pub fn shop_candidates(&self) -> (r: &[ShopCandidate])
        ensures
            r@ == self.context.shop@,
    {
        self.context.shop.as_slice()
    }

    /// Number of allowed sell slots whose ownership cannot be proved on wire.
    ///
    /// Selling is masked unless the item is marked for sale, so this is always zero.
    pub fn sell_ownership_uncertain_count(&self) -> (r: usize)
        ensures
            r == 0,
    {
        0
    }

    /// Whether any allowed sell action has wire-absent ownership.
    pub fn has_sell_ownership_uncertainty(&self) -> (r: bool)
        ensures
            !r,
    {
        false
    }

    /// Ability-slot mask after selecting a controlled unit.
    pub fn ability_slot_mask(&self, unit: ControlledUnit) -> (r: Vec<bool>)
        ensures
            r@ == open_slots(self.masks(unit).casts@),
    {
        open_slot_mask(&self.masks_of(unit).casts)
    }

    /// Active inventory-slot mask after selecting a controlled unit.
    pub fn item_slot_mask(&self, unit: ControlledUnit) -> (r: Vec<bool>)
        ensures
            r@ == open_slots(self.masks(unit).uses@),
    {
        open_slot_mask(&self.masks_of(unit).uses)
    }

    /// Bag source-slot mask shared by put target modes.
    pub fn put_source_slot_mask(&self, unit: ControlledUnit) -> (r: Vec<bool>)
        ensures
            r@.len() == self.masks(unit).put_points@.len(),
            forall|i: int|
                0 <= i < r@.len() ==> (#[trigger] r@[i]) == (self.masks(unit).put_points@[i].open()
                    || (i < self.masks(unit).put_units@.len() && any_set(
                    self.masks(unit).put_units@[i]@,
                ))),
    {
        let masks = self.masks_of(unit);
        let mut output: Vec<bool> = Vec::new();
        let mut index: usize = 0;
        while index < masks.put_points.len()
            invariant
                index <= masks.put_points@.len(),
                *masks == self.masks(unit),
                output@.len() == index,
                forall|i: int|
                    0 <= i < index ==> (#[trigger] output@[i]) == (masks.put_points@[i].open() || (i
                        < masks.put_units@.len() && any_set(masks.put_units@[i]@))),
            decreases masks.put_points@.len() - index,
        {
            let handed = index < masks.put_units.len() && any_true(
                masks.put_units[index].as_slice(),
            );
            output.push(masks.put_points[index].any() || handed);
            index += 1;
        }
        output
    }

    /// Underfoot target mask in bag source-slot order.
    pub open spec fn underfoot_of(self, unit: ControlledUnit) -> Seq<bool> {
        Seq::new(
            self.masks(unit).put_points@.len(),
            |i: int| self.masks(unit).put_points@[i].underfoot,
        )
    }

    /// Underfoot target mask in bag source-slot order.
    pub fn put_underfoot_mask(&self, unit: ControlledUnit) -> (r: Vec<bool>)
        ensures
            r@ == self.underfoot_of(unit),
    {
        let masks = self.masks_of(unit);
        let mut output: Vec<bool> = Vec::new();
        let mut index: usize = 0;
        while index < masks.put_points.len()
            invariant
                index <= masks.put_points@.len(),
                *masks == self.masks(unit),
                output@.len() == index,
                forall|i: int|
                    0 <= i < index ==> (#[trigger] output@[i]) == masks.put_points@[i].underfoot,
            decreases masks.put_points@.len() - index,
        {
            output.push(masks.put_points[index].underfoot);
            index += 1;
        }
        assert(output@ =~= self.underfoot_of(unit));
        output
    }

    /// Point pointer mask after selecting a bag source slot.
    pub fn put_point_target_mask(&self, unit: ControlledUnit, source: ItemSlot) -> (r: Option<
        &[bool],
    >)
        ensures
            match r {
                Some(mask) => (source.0 as int) < self.masks(unit).put_points@.len() && mask@
                    == self.masks(unit).put_points@[source.0 as int].points@,
                None => source.0 as int >= self.masks(unit).put_points@.len(),
            },
    {
        let masks = &self.masks_of(unit).put_points;
        if (source.0 as usize) < masks.len() {
            Some(masks[source.0 as usize].points.as_slice())
        } else {
            None
        }
    }

    /// Allied bag-carrier pointer mask after selecting a bag source slot.
    pub fn put_entity_target_mask(&self, unit: ControlledUnit, source: ItemSlot) -> (r: Option<
        &[bool],
    >)
        ensures
            match r {
                Some(mask) => (source.0 as int) < self.masks(unit).put_units@.len() && mask@
                    == self.masks(unit).put_units@[source.0 as int]@,
                None => source.0 as int >= self.masks(unit).put_units@.len(),
            },
    {
        let masks = &self.masks_of(unit).put_units;
        if (source.0 as usize) < masks.len() {
            Some(masks[source.0 as usize].as_slice())
        } else {
            None
        }
    }

    /// Target mask after selecting a controlled unit and ability slot.
    pub fn cast_target_mask(&self, unit: ControlledUnit, slot: AbilitySlot) -> (r: Option<
        &TargetMask,
    >)
        ensures
            match r {
                Some(mask) => (slot.0 as int) < self.masks(unit).casts@.len() && *mask
                    == self.masks(unit).casts@[slot.0 as int],
                None => slot.0 as int >= self.masks(unit).casts@.len(),
            },
    {
        let masks = &self.masks_of(unit).casts;
        if (slot.0 as usize) < masks.len() {
            Some(&masks[slot.0 as usize])
        } else {
            None
        }
    }

    /// Target mask after selecting a controlled unit and active item slot.
    pub fn use_target_mask(&self, unit: ControlledUnit, slot: ItemSlot) -> (r: Option<&TargetMask>)
        ensures
            match r {
                Some(mask) => (slot.0 as int) < self.masks(unit).uses@.len() && *mask
                    == self.masks(unit).uses@[slot.0 as int],
                None => slot.0 as int >= self.masks(unit).uses@.len(),
            },
    {
        let masks = &self.masks_of(unit).uses;
        if (slot.0 as usize) < masks.len() {
            Some(&masks[slot.0 as usize])
        } else {
            None
        }
    }

    /// Entity target mask for follow orders.
    pub fn follow_entity_mask(&self, unit: ControlledUnit) -> (r: &[bool])
        ensures
            r@ == self.masks(unit).follow_entities@,
    {
        self.masks_of(unit).follow_entities.as_slice()
    }

    /// Entity target mask for attack orders.
    pub fn attack_entity_mask(&self, unit: ControlledUnit) -> (r: &[bool])
        ensures
            r@ == self.masks(unit).attack_entities@,
    {
        self.masks_of(unit).attack_entities.as_slice()
    }

    /// Point target mask for move orders.
    pub fn move_point_mask(&self, unit: ControlledUnit) -> (r: &[bool])
        ensures
            r@ == self.masks(unit).move_points@,
    {
        self.masks_of(unit).move_points.as_slice()
    }

    /// Point target mask for attack-move orders.
    pub fn attack_move_point_mask(&self, unit: ControlledUnit) -> (r: &[bool])
        ensures
            r@ == self.masks(unit).attack_move_points@,
    {
        self.masks_of(unit).attack_move_points.as_slice()
    }

    /// Loot mask after selecting a controlled unit.
    pub fn take_mask(&self, unit: ControlledUnit) -> (r: &[bool])
        ensures
            r@ == self.masks(unit).take@,
    {
        self.masks_of(unit).take.as_slice()
    }

    /// Shop mask after selecting a controlled unit.
    ///
    /// Remote purchases go to the stash. The selected body only receives a purchase
    /// directly while it is within the local shop range.
    pub fn buy_mask(&self, unit: ControlledUnit) -> (r: &[bool])
        ensures
            r@ == self.masks(unit).buy@,
    {
        self.masks_of(unit).buy.as_slice()
    }

    /// Sell slots whose items are marked for sale.
    pub fn sell_slot_mask(&self, unit: ControlledUnit) -> (r: &[bool; WIRE_ITEM_SLOTS])
        ensures
            *r == self.masks(unit).sell,
    {
        &self.masks_of(unit).sell
    }

    /// Destination slot mask after selecting a nonempty swap source.
    pub fn swap_destination_mask(&self, unit: ControlledUnit, from: ItemSlot) -> (r: Option<
        &[bool; WIRE_ITEM_SLOTS],
    >)
        ensures
            match r {
                Some(row) => (from.0 as int) < self.masks(unit).swap@.len() && *row == self.masks(
                    unit,
                ).swap@[from.0 as int],
                None => from.0 as int >= self.masks(unit).swap@.len(),
            },
    {
        let rows = &self.masks_of(unit).swap;
        if (from.0 as usize) < rows.len() {
            Some(&rows[from.0 as usize])
        } else {
            None
        }
    }

    /// Hero ability slots that currently can gain a level.
    pub fn learn_slot_mask(&self) -> (r: &[bool])
        ensures
            r@ == self.hero_masks.learn@,
    {
        self.hero_masks.learn.as_slice()
    }
}

} // verus!
