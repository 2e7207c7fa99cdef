//! Behavioral labels of one structured action: a legal mask and a class for every policy head.
use crate::action::{
    ActionKind, ActionTarget, ControlledUnit, EntityIndex, LootIndex, PointIndex, PutPointTarget,
    ShopIndex, StructuredAction, TargetMask,
};
use crate::frame::FeatureFrame;
use crate::imitation_error::ImitationError;
use crate::masks::{masks_blank, masks_live, masks_ok};
use crate::search::{any_set, any_true, entry};
use crate::space::{open_slots, selected_unit_of, ActionSpace};
use crate::world::{AbilitySlot, ItemSlot};
use vstd::prelude::*;

verus! {

pub const MODEL_KIND_HEAD: usize = 16;

pub const MODEL_UNIT_HEAD: usize = 2;

pub const MODEL_ABILITY_HEAD: usize = 8;

pub const MODEL_ITEM_HEAD: usize = 15;

pub const MODEL_SWAP_HEAD: usize = 15;

pub const MODEL_LEARN_HEAD: usize = 6;

pub const MODEL_SHOP_HEAD: usize = 64;

pub const MODEL_LOOT_HEAD: usize = 16;

pub const TARGET_MODE_HEAD: usize = 3;

pub const PUT_MODE_HEAD: usize = 2;

pub const MODEL_ENTITY_POINTER_HEAD: usize = 96;

pub const MODEL_POINT_POINTER_HEAD: usize = 48;

/// One fixed-width legal mask and selected class for a policy head.
#[derive(Clone, Copy, Debug, PartialEq, Eq)]
pub struct HeadTarget<const WIDTH: usize> {
    /// Whether this head lies on the teacher action path.
    pub active: bool,
    /// Exact legal classes in stable model order; all false when inactive.
    pub mask: [bool; WIDTH],
    /// Teacher-selected class; zero when inactive.
    pub selected: usize,
}

/// Mask widened with clear entries.
pub open spec fn padded(mask: Seq<bool>, width: nat) -> Seq<bool> {
    Seq::new(width, |i: int| i < mask.len() && mask[i])
}

/// A head's legal classes and selected class, absent off the action path.
pub type Label = Option<(Seq<bool>, usize)>;

/// Whether a head holds a label.
pub open spec fn head_is<const WIDTH: usize>(head: HeadTarget<WIDTH>, label: Label) -> bool {
    match label {
        Some((mask, selected)) => {
            &&& head.active
            &&& head.mask@ == padded(mask, WIDTH as nat)
            &&& head.selected == selected
        },
        None => {
            &&& !head.active
            &&& head.mask@ == padded(Seq::empty(), WIDTH as nat)
            &&& head.selected == 0
        },
    }
}

/// First broken boundary of a head.
pub open spec fn head_fault<const WIDTH: usize>(
    head: HeadTarget<WIDTH>,
    name: &'static str,
) -> Option<ImitationError> {
    if !head.active {
        if any_set(head.mask@) {
            Some(ImitationError::TargetInactiveMask { head: name })
        } else {
            None
        }
    } else if !any_set(head.mask@) {
        Some(ImitationError::TargetEmptyMask { head: name })
    } else if head.selected >= WIDTH {
        Some(ImitationError::TargetLabel { head: name, label: head.selected, width: WIDTH })
    } else if !head.mask@[head.selected as int] {
        Some(ImitationError::TargetIllegalLabel { head: name, label: head.selected })
    } else {
        None
    }
}

/// Result that carries a fault, if there is one.
pub open spec fn faulted(fault: Option<ImitationError>) -> Result<(), ImitationError> {
    match fault {
        Some(error) => Err(error),
        None => Ok(()),
    }
}

impl<const WIDTH: usize> HeadTarget<WIDTH> {
    /// Head off the action path.
    pub fn inactive() -> (head: Self)
        ensures
            head_is(head, None),
    {
        let head = HeadTarget { active: false, mask: [false;WIDTH], selected: 0 };
        assert(head.mask@ =~= padded(Seq::empty(), WIDTH as nat));
        head
    }

    /// Head with a legal mask and a selected class.
    pub fn active(mask: [bool; WIDTH], selected: usize) -> (head: Self)
        ensures
            head_is(head, Some((mask@, selected))),
    {
        let head = HeadTarget { active: true, mask, selected };
        assert(head.mask@ =~= padded(mask@, WIDTH as nat));
        head
    }

    /// Whether the selected class is inside this active head's legal mask.
    pub fn is_selected_legal(&self) -> (r: bool)
        ensures
            r == (self.active && entry(self.mask@, self.selected as int)),
    {
        self.active && self.selected < WIDTH && self.mask[self.selected]
    }

    fn validate(&self, name: &'static str) -> (r: Result<(), ImitationError>)
        ensures
            r == faulted(head_fault(*self, name)),
    {
        let any = any_true(vstd::array::array_as_slice(&self.mask));
        if !self.active {
            if any {
                return Err(ImitationError::TargetInactiveMask { head: name });
            }
            return Ok(());
        }
        if !any {
            return Err(ImitationError::TargetEmptyMask { head: name });
        }
        if self.selected >= WIDTH {
            return Err(
                ImitationError::TargetLabel { head: name, label: self.selected, width: WIDTH },
            );
        }
        if !self.mask[self.selected] {
            return Err(ImitationError::TargetIllegalLabel { head: name, label: self.selected });
        }
        Ok(())
    }
}

/// A head that holds a label with a legal selection has no fault; neither has an inactive one.
proof fn lemma_label_is_valid<const WIDTH: usize>(
    head: HeadTarget<WIDTH>,
    label: Label,
    name: &'static str,
)
    requires
        head_is(head, label),
        label matches Some((mask, selected)) ==> entry(mask, selected as int) && selected < WIDTH,
    ensures
        head_fault(head, name) is None,
{
    match label {
        Some((mask, selected)) => {
            assert(head.mask@[selected as int]);
        },
        None => {},
    }
}

/// Ability slot of a teacher-forced prefix.
#[derive(Clone, Copy, Debug, PartialEq, Eq, Structural)]
pub struct TrainingAbilitySlot {
    pub index: usize,
}

/// Item slot of a teacher-forced prefix.
#[derive(Clone, Copy, Debug, PartialEq, Eq, Structural)]
pub struct TrainingItemSlot {
    pub index: usize,
}

/// Slot of a teacher-forced prefix.
#[derive(Clone, Copy, Debug, PartialEq, Eq, Structural)]
pub enum TrainingSlot {
    Ability(TrainingAbilitySlot),
    Item(TrainingItemSlot),
}

/// Exact context of the conditional model heads.
#[derive(Clone, Copy, Debug, PartialEq, Eq)]
pub struct TrainingPrefix {
    pub kind: ActionKind,
    pub unit: Option<ControlledUnit>,
    pub slot: Option<TrainingSlot>,
}

/// Fixed, identifier-free behavioral labels for every autoregressive policy head.
#[derive(Clone, Debug, PartialEq, Eq)]
pub struct BehavioralTarget {
    pub kind: HeadTarget<MODEL_KIND_HEAD>,
    pub controlled: HeadTarget<MODEL_UNIT_HEAD>,
    pub ability: HeadTarget<MODEL_ABILITY_HEAD>,
    pub item: HeadTarget<MODEL_ITEM_HEAD>,
    pub swap: HeadTarget<MODEL_SWAP_HEAD>,
    pub learn: HeadTarget<MODEL_LEARN_HEAD>,
    pub shop: HeadTarget<MODEL_SHOP_HEAD>,
    pub loot: HeadTarget<MODEL_LOOT_HEAD>,
    pub target_mode: HeadTarget<TARGET_MODE_HEAD>,
    pub put_mode: HeadTarget<PUT_MODE_HEAD>,
    pub entity_pointer: HeadTarget<MODEL_ENTITY_POINTER_HEAD>,
    pub point_pointer: HeadTarget<MODEL_POINT_POINTER_HEAD>,
    pub prefix: TrainingPrefix,
}

/// Bag slots whose item can be put on some ground target.
pub open spec fn put_point_sources(space: ActionSpace, unit: ControlledUnit) -> Seq<bool> {
    let masks = space.masks(unit).put_points@;
    Seq::new(masks.len(), |i: int| masks[i].open())
}

/// Bag slots whose item can be handed to some entity.
pub open spec fn put_unit_sources(space: ActionSpace, unit: ControlledUnit) -> Seq<bool> {
    let masks = space.masks(unit).put_units@;
    Seq::new(masks.len(), |i: int| any_set(masks[i]@))
}

/// Slots whose item can be swapped somewhere.
pub open spec fn swap_sources(space: ActionSpace, unit: ControlledUnit) -> Seq<bool> {
    let rows = space.masks(unit).swap@;
    Seq::new(rows.len(), |i: int| any_set(rows[i]@))
}

pub open spec fn target_modes(mask: TargetMask) -> Seq<bool> {
    seq![mask.none, any_set(mask.entities@), any_set(mask.points@)]
}

pub open spec fn target_mode(target: ActionTarget) -> usize {
    match target {
        ActionTarget::Untargeted => 0,
        ActionTarget::Entity(_) => 1,
        ActionTarget::Point(_) => 2,
    }
}

pub open spec fn put_mode(target: PutPointTarget) -> usize {
    match target {
        PutPointTarget::Underfoot => 0,
        PutPointTarget::Point(_) => 1,
    }
}

pub open spec fn controlled_label(space: ActionSpace, action: StructuredAction) -> Label {
    match action.unit_spec() {
        Some(unit) => Some(
            (space.unit_mask(action.kind_spec()), unit.index_spec() as usize),
        ),
        None => None,
    }
}

pub open spec fn ability_label(space: ActionSpace, action: StructuredAction) -> Label {
    match action {
        StructuredAction::Cast { unit, slot, .. } => Some(
            (open_slots(space.masks(unit).casts@), slot.0 as usize),
        ),
        _ => None,
    }
}

pub open spec fn item_label(space: ActionSpace, action: StructuredAction) -> Label {
    match action {
        StructuredAction::Use { unit, slot, .. } => Some(
            (open_slots(space.masks(unit).uses@), slot.0 as usize),
        ),
        StructuredAction::PutPoint { unit, source, .. } => Some(
            (put_point_sources(space, unit), source.0 as usize),
        ),
        StructuredAction::PutUnit { unit, source, .. } => Some(
            (put_unit_sources(space, unit), source.0 as usize),
        ),
        StructuredAction::Sell { unit, slot } => Some(
            (space.masks(unit).sell@, slot.0 as usize),
        ),
        StructuredAction::Swap { unit, from, .. } => Some(
            (swap_sources(space, unit), from.0 as usize),
        ),
        _ => None,
    }
}

pub open spec fn swap_label(space: ActionSpace, action: StructuredAction) -> Label {
    match action {
        StructuredAction::Swap { unit, from, to } => Some(
            (space.masks(unit).swap@[from.0 as int]@, to.0 as usize),
        ),
        _ => None,
    }
}

pub open spec fn learn_label(space: ActionSpace, action: StructuredAction) -> Label {
    match action {
        StructuredAction::Learn { slot } => Some((space.hero_masks.learn@, slot.0 as usize)),
        _ => None,
    }
}

pub open spec fn shop_label(space: ActionSpace, action: StructuredAction) -> Label {
    match action {
        StructuredAction::Buy { unit, item } => Some((space.masks(unit).buy@, item.0)),
        _ => None,
    }
}

pub open spec fn loot_label(space: ActionSpace, action: StructuredAction) -> Label {
    match action {
        StructuredAction::Take { unit, loot } => Some((space.masks(unit).take@, loot.0)),
        _ => None,
    }
}

/// Mask and target of an aimed action.
pub open spec fn aimed(space: ActionSpace, action: StructuredAction) -> Option<
    (TargetMask, ActionTarget),
> {
    match action {
        StructuredAction::Cast { unit, slot, target } => Some(
            (space.masks(unit).casts@[slot.0 as int], target),
        ),
        StructuredAction::Use { unit, slot, target } => Some(
            (space.masks(unit).uses@[slot.0 as int], target),
        ),
        _ => None,
    }
}

pub open spec fn target_mode_label(space: ActionSpace, action: StructuredAction) -> Label {
    match aimed(space, action) {
        Some((mask, target)) => Some((target_modes(mask), target_mode(target))),
        None => None,
    }
}

pub open spec fn put_mode_label(space: ActionSpace, action: StructuredAction) -> Label {
    match action {
        StructuredAction::PutPoint { unit, source, target } => {
            let mask = space.masks(unit).put_points@[source.0 as int];
            Some((seq![mask.underfoot, any_set(mask.points@)], put_mode(target)))
        },
        _ => None,
    }
}

pub open spec fn entity_label(space: ActionSpace, action: StructuredAction) -> Label {
    match action {
        StructuredAction::FollowUnit { unit, target } => Some(
            (space.masks(unit).follow_entities@, target.0),
        ),
        StructuredAction::AttackUnit { unit, target } => Some(
            (space.masks(unit).attack_entities@, target.0),
        ),
        StructuredAction::PutUnit { unit, source, target } => Some(
            (space.masks(unit).put_units@[source.0 as int]@, target.0),
        ),
        _ => match aimed(space, action) {
            Some((mask, ActionTarget::Entity(index))) => Some((mask.entities@, index.0)),
            _ => None,
        },
    }
}

pub open spec fn point_label(space: ActionSpace, action: StructuredAction) -> Label {
    match action {
        StructuredAction::MovePoint { unit, point } => Some(
            (space.masks(unit).move_points@, point.0),
        ),
        StructuredAction::AttackMovePoint { unit, point } => Some(
            (space.masks(unit).attack_move_points@, point.0),
        ),
        StructuredAction::PutPoint { unit, source, target: PutPointTarget::Point(point) } => Some(
            (space.masks(unit).put_points@[source.0 as int].points@, point.0),
        ),
        _ => match aimed(space, action) {
            Some((mask, ActionTarget::Point(index))) => Some((mask.points@, index.0)),
            _ => None,
        },
    }
}

/// Context of the conditional heads for an action.
pub open spec fn prefix_of(action: StructuredAction) -> TrainingPrefix {
    TrainingPrefix {
        kind: action.kind_spec(),
        unit: action.unit_spec(),
        slot: match action {
            StructuredAction::Cast { slot, .. } => Some(
                TrainingSlot::Ability(TrainingAbilitySlot { index: slot.0 as usize }),
            ),
            StructuredAction::Use { slot, .. } => Some(
                TrainingSlot::Item(TrainingItemSlot { index: slot.0 as usize }),
            ),
            StructuredAction::PutPoint { source, .. } => Some(
                TrainingSlot::Item(TrainingItemSlot { index: source.0 as usize }),
            ),
            StructuredAction::PutUnit { source, .. } => Some(
                TrainingSlot::Item(TrainingItemSlot { index: source.0 as usize }),
            ),
            StructuredAction::Swap { from, .. } => Some(
                TrainingSlot::Item(TrainingItemSlot { index: from.0 as usize }),
            ),
            _ => None,
        },
    }
}

/// Whether a target labels exactly one action of a space.
pub open spec fn labels(
    target: BehavioralTarget,
    space: ActionSpace,
    action: StructuredAction,
) -> bool {
    &&& head_is(
        target.kind,
        Some((space.kind_mask.0@, action.kind_spec().index_spec() as usize)),
    )
    &&& head_is(target.controlled, controlled_label(space, action))
    &&& head_is(target.ability, ability_label(space, action))
    &&& head_is(target.item, item_label(space, action))
    &&& head_is(target.swap, swap_label(space, action))
    &&& head_is(target.learn, learn_label(space, action))
    &&& head_is(target.shop, shop_label(space, action))
    &&& head_is(target.loot, loot_label(space, action))
    &&& head_is(target.target_mode, target_mode_label(space, action))
    &&& head_is(target.put_mode, put_mode_label(space, action))
    &&& head_is(target.entity_pointer, entity_label(space, action))
    &&& head_is(target.point_pointer, point_label(space, action))
    &&& target.prefix == prefix_of(action)
}

/// Mask of a legal action that is wider than its head.
pub open spec fn oversize(space: ActionSpace, action: StructuredAction) -> Option<ImitationError> {
    match action {
        StructuredAction::Take { unit, .. } => width_fault(
            space.masks(unit).take@,
            MODEL_LOOT_HEAD,
        ),
        StructuredAction::Buy { unit, .. } => width_fault(
            space.masks(unit).buy@,
            MODEL_SHOP_HEAD,
        ),
        StructuredAction::Learn { .. } => width_fault(
            space.hero_masks.learn@,
            MODEL_LEARN_HEAD,
        ),
        _ => None,
    }
}

pub open spec fn width_fault(mask: Seq<bool>, width: usize) -> Option<ImitationError> {
    if mask.len() > width {
        Some(ImitationError::MaskOversize { actual: mask.len() as usize, maximum: width })
    } else {
        None
    }
}

/// Mask widened to the width of a head.
pub fn padded_mask<const WIDTH: usize>(mask: &[bool]) -> (r: Result<[bool; WIDTH], ImitationError>)
    ensures
        match r {
            Ok(output) => mask@.len() <= WIDTH && output@ == padded(mask@, WIDTH as nat),
            Err(error) => mask@.len() > WIDTH && error == (ImitationError::MaskOversize {
                actual: mask@.len() as usize,
                maximum: WIDTH,
            }),
        },
{
    if mask.len() > WIDTH {
        return Err(ImitationError::MaskOversize { actual: mask.len(), maximum: WIDTH });
    }
    let mut output: [bool; WIDTH] = [false;WIDTH];
    let mut index: usize = 0;
    while index < mask.len()
        invariant
            index <= mask@.len() <= WIDTH,
            output@.len() == WIDTH,
            forall|i: int| 0 <= i < index ==> (#[trigger] output@[i]) == mask@[i],
            forall|i: int| index <= i < WIDTH ==> !(#[trigger] output@[i]),
        decreases mask@.len() - index,
    {
        output[index] = mask[index];
        index += 1;
    }
    assert(output@ =~= padded(mask@, WIDTH as nat));
    Ok(output)
}

fn pointer_target<const WIDTH: usize>(mask: &[bool], selected: usize) -> (r: Result<
    HeadTarget<WIDTH>,
    ImitationError,
>)
    ensures
        match r {
            Ok(head) => mask@.len() <= WIDTH && head_is(head, Some((mask@, selected))),
            Err(error) => width_fault(mask@, WIDTH) == Some(error),
        },
{
    match padded_mask::<WIDTH>(mask) {
        Ok(output) => {
            let head = HeadTarget::active(output, selected);
            assert(padded(padded(mask@, WIDTH as nat), WIDTH as nat) =~= padded(
                mask@,
                WIDTH as nat,
            ));
            Ok(head)
        },
        Err(error) => Err(error),
    }
}


fn put_point_source_mask(space: &ActionSpace, unit: ControlledUnit) -> (r: [bool; MODEL_ITEM_HEAD])
    requires
        space.wf(),
    ensures
        r@ == padded(put_point_sources(*space, unit), 15),
{
    let mut output: [bool; MODEL_ITEM_HEAD] = [false;MODEL_ITEM_HEAD];
    let underfoot = space.put_underfoot_mask(unit);
    let mut index: usize = 0;
    while index < MODEL_ITEM_HEAD
        invariant
            index <= MODEL_ITEM_HEAD,
            underfoot@ == space.underfoot_of(unit),
            output@.len() == MODEL_ITEM_HEAD,
            forall|i: int|
                0 <= i < index ==> (#[trigger] output@[i]) == padded(
                    put_point_sources(*space, unit),
                    15,
                )[i],
        decreases MODEL_ITEM_HEAD - index,
    {
        let aimed = match space.put_point_target_mask(unit, ItemSlot(index as u8)) {
            Some(mask) => any_true(mask),
            None => false,
        };
        let dropped = index < underfoot.len() && underfoot[index];
        output[index] = dropped || aimed;
        index += 1;
    }
    assert(output@ =~= padded(put_point_sources(*space, unit), 15));
    output
}

fn put_unit_source_mask(space: &ActionSpace, unit: ControlledUnit) -> (r: [bool; MODEL_ITEM_HEAD])
    requires
        space.wf(),
    ensures
        r@ == padded(put_unit_sources(*space, unit), 15),
{
    let mut output: [bool; MODEL_ITEM_HEAD] = [false;MODEL_ITEM_HEAD];
    let mut index: usize = 0;
    while index < MODEL_ITEM_HEAD
        invariant
            index <= MODEL_ITEM_HEAD,
            output@.len() == MODEL_ITEM_HEAD,
            forall|i: int|
                0 <= i < index ==> (#[trigger] output@[i]) == padded(
                    put_unit_sources(*space, unit),
                    15,
                )[i],
        decreases MODEL_ITEM_HEAD - index,
    {
        output[index] =
        match space.put_entity_target_mask(unit, ItemSlot(index as u8)) {
            Some(mask) => any_true(mask),
            None => false,
        };
        index += 1;
    }
    assert(output@ =~= padded(put_unit_sources(*space, unit), 15));
    output
}

fn swap_source_mask(space: &ActionSpace, unit: ControlledUnit) -> (r: [bool; MODEL_ITEM_HEAD])
    requires
        space.wf(),
    ensures
        r@ == padded(swap_sources(*space, unit), 15),
{
    let mut output: [bool; MODEL_ITEM_HEAD] = [false;MODEL_ITEM_HEAD];
    let mut index: usize = 0;
    while index < MODEL_ITEM_HEAD
        invariant
            index <= MODEL_ITEM_HEAD,
            output@.len() == MODEL_ITEM_HEAD,
            forall|i: int|
                0 <= i < index ==> (#[trigger] output@[i]) == padded(
                    swap_sources(*space, unit),
                    15,
                )[i],
        decreases MODEL_ITEM_HEAD - index,
    {
        output[index] =
        match space.swap_destination_mask(unit, ItemSlot(index as u8)) {
            Some(row) => any_true(vstd::array::array_as_slice(row)),
            None => false,
        };
        index += 1;
    }
    assert(output@ =~= padded(swap_sources(*space, unit), 15));
    output
}

proof fn lemma_padded_twice(mask: Seq<bool>, width: nat)
    ensures
        padded(padded(mask, width), width) == padded(mask, width),
{
    assert(padded(padded(mask, width), width) =~= padded(mask, width));
}

/// Widths of the masks that a space builds.
proof fn lemma_mask_widths(space: ActionSpace, unit: ControlledUnit)
    requires
        space.wf(),
    ensures
        space.masks(unit).move_points@.len() <= 48,
        space.masks(unit).attack_move_points@.len() <= 48,
        space.masks(unit).follow_entities@.len() <= 96,
        space.masks(unit).attack_entities@.len() <= 96,
        space.masks(unit).casts@.len() <= 8,
        space.masks(unit).uses@.len() <= 6,
        space.masks(unit).put_points@.len() <= 9,
        space.masks(unit).put_units@.len() <= 9,
        space.masks(unit).swap@.len() == 15,
        forall|i: int|
            0 <= i < space.masks(unit).casts@.len() ==> (
            #[trigger] space.masks(unit).casts@[i]).entities@.len() <= 96 && space.masks(
                unit,
            ).casts@[i].points@.len() <= 48,
        forall|i: int|
            0 <= i < space.masks(unit).uses@.len() ==> (
            #[trigger] space.masks(unit).uses@[i]).entities@.len() <= 96 && space.masks(
                unit,
            ).uses@[i].points@.len() <= 48,
        forall|i: int|
            0 <= i < space.masks(unit).put_points@.len() ==> (
            #[trigger] space.masks(unit).put_points@[i]).points@.len() <= 48,
        forall|i: int|
            0 <= i < space.masks(unit).put_units@.len() ==> (
            #[trigger] space.masks(unit).put_units@[i])@.len() <= 96,
{
    let masks = space.masks(unit);
    assert(masks_ok(space.context, unit, masks));
    match space.context.state(unit) {
        Some(state) => {
            assert(masks_live(space.context, state, unit, masks));
            assert forall|i: int| 0 <= i < masks.uses@.len() implies (
            #[trigger] masks.uses@[i]).entities@.len() <= 96 && masks.uses@[i].points@.len()
                <= 48 by {
                assert(crate::masks::use_mask_ok(
                    space.context,
                    state,
                    unit,
                    i,
                    masks.uses@[i],
                ));
            }
        },
        None => {
            assert(masks_blank(space.context, masks));
        },
    }
}

fn controlled_head(space: &ActionSpace, action: StructuredAction) -> (head: HeadTarget<
    MODEL_UNIT_HEAD,
>)
    ensures
        head_is(head, controlled_label(*space, action)),
{
    match action.controlled_unit() {
        Some(unit) => HeadTarget::active(
            *space.controlled_unit_mask(action.kind()).as_array(),
            unit.index(),
        ),
        None => HeadTarget::inactive(),
    }
}

fn ability_head(space: &ActionSpace, action: StructuredAction) -> (head: HeadTarget<
    MODEL_ABILITY_HEAD,
>)
    requires
        space.wf(),
    ensures
        head_is(head, ability_label(*space, action)),
{
    match action {
        StructuredAction::Cast { unit, slot, .. } => {
            proof {
                lemma_mask_widths(*space, unit);
            }
            let mask = space.ability_slot_mask(unit);
            match pointer_target(mask.as_slice(), slot.0 as usize) {
                Ok(head) => head,
                Err(_) => HeadTarget::inactive(),
            }
        },
        _ => HeadTarget::inactive(),
    }
}

fn item_head(space: &ActionSpace, action: StructuredAction) -> (head: HeadTarget<MODEL_ITEM_HEAD>)
    requires
        space.wf(),
    ensures
        head_is(head, item_label(*space, action)),
{
    match action {
        StructuredAction::Use { unit, slot, .. } => {
            proof {
                lemma_mask_widths(*space, unit);
            }
            let mask = space.item_slot_mask(unit);
            match pointer_target(mask.as_slice(), slot.0 as usize) {
                Ok(head) => head,
                Err(_) => HeadTarget::inactive(),
            }
        },
        StructuredAction::PutPoint { unit, source, .. } => {
            proof {
                lemma_padded_twice(put_point_sources(*space, unit), 15);
            }
            HeadTarget::active(put_point_source_mask(space, unit), source.0 as usize)
        },
        StructuredAction::PutUnit { unit, source, .. } => {
            proof {
                lemma_padded_twice(put_unit_sources(*space, unit), 15);
            }
            HeadTarget::active(put_unit_source_mask(space, unit), source.0 as usize)
        },
        StructuredAction::Sell { unit, slot } => HeadTarget::active(
            *space.sell_slot_mask(unit),
            slot.0 as usize,
        ),
        StructuredAction::Swap { unit, from, .. } => {
            proof {
                lemma_padded_twice(swap_sources(*space, unit), 15);
            }
            HeadTarget::active(swap_source_mask(space, unit), from.0 as usize)
        },
        _ => HeadTarget::inactive(),
    }
}

fn swap_head(space: &ActionSpace, action: StructuredAction) -> (head: HeadTarget<MODEL_SWAP_HEAD>)
    requires
        space.wf(),
        space.conditionals(action),
    ensures
        head_is(head, swap_label(*space, action)),
{
    match action {
        StructuredAction::Swap { unit, from, to } => match space.swap_destination_mask(
            unit,
            from,
        ) {
            Some(row) => HeadTarget::active(*row, to.0 as usize),
            None => HeadTarget::inactive(),
        },
        _ => HeadTarget::inactive(),
    }
}

/// Targets of an aimed action.
fn aimed_mask<'a>(space: &'a ActionSpace, action: StructuredAction) -> (r: Option<
    (&'a TargetMask, ActionTarget),
>)
    requires
        space.wf(),
        space.conditionals(action),
    ensures
        match r {
            Some((mask, target)) => aimed(*space, action) == Some((*mask, target))
                && mask.entities@.len() <= 96 && mask.points@.len() <= 48 && mask.permits(target),
            None => aimed(*space, action) is None,
        },
{
    match action {
        StructuredAction::Cast { unit, slot, target } => {
            proof {
                lemma_mask_widths(*space, unit);
            }
            match space.cast_target_mask(unit, slot) {
                Some(mask) => Some((mask, target)),
                None => None,
            }
        },
        StructuredAction::Use { unit, slot, target } => {
            proof {
                lemma_mask_widths(*space, unit);
            }
            match space.use_target_mask(unit, slot) {
                Some(mask) => Some((mask, target)),
                None => None,
            }
        },
        _ => None,
    }
}

fn target_mode_head(space: &ActionSpace, action: StructuredAction) -> (head: HeadTarget<
    TARGET_MODE_HEAD,
>)
    requires
        space.wf(),
        space.conditionals(action),
    ensures
        head_is(head, target_mode_label(*space, action)),
{
    match aimed_mask(space, action) {
        Some((mask, target)) => {
            let modes: [bool; TARGET_MODE_HEAD] = [
                mask.allows_none(),
                any_true(mask.entities()),
                any_true(mask.points()),
            ];
            let mode: usize = match target {
                ActionTarget::Untargeted => 0,
                ActionTarget::Entity(_) => 1,
                ActionTarget::Point(_) => 2,
            };
            assert(modes@ =~= target_modes(*mask));
            HeadTarget::active(modes, mode)
        },
        None => HeadTarget::inactive(),
    }
}

fn put_mode_head(space: &ActionSpace, action: StructuredAction) -> (head: HeadTarget<
    PUT_MODE_HEAD,
>)
    requires
        space.wf(),
        space.conditionals(action),
    ensures
        head_is(head, put_mode_label(*space, action)),
{
    match action {
        StructuredAction::PutPoint { unit, source, target } => {
            let underfoot = space.put_underfoot_mask(unit);
            let points = match space.put_point_target_mask(unit, source) {
                Some(mask) => any_true(mask),
                None => false,
            };
            let modes: [bool; PUT_MODE_HEAD] = [underfoot[source.0 as usize], points];
            let mode: usize = match target {
                PutPointTarget::Underfoot => 0,
                PutPointTarget::Point(_) => 1,
            };
            proof {
                let mask = space.masks(unit).put_points@[source.0 as int];
                assert(modes@ =~= seq![mask.underfoot, any_set(mask.points@)]);
            }
            HeadTarget::active(modes, mode)
        },
        _ => HeadTarget::inactive(),
    }
}

fn entity_head(space: &ActionSpace, action: StructuredAction) -> (head: HeadTarget<
    MODEL_ENTITY_POINTER_HEAD,
>)
    requires
        space.wf(),
        space.conditionals(action),
    ensures
        head_is(head, entity_label(*space, action)),
{
    proof {
        lemma_mask_widths(*space, selected_unit_of(action));
    }
    let pointer = match action {
        StructuredAction::FollowUnit { unit, target } => pointer_target(
            space.follow_entity_mask(unit),
            target.0,
        ),
        StructuredAction::AttackUnit { unit, target } => pointer_target(
            space.attack_entity_mask(unit),
            target.0,
        ),
        StructuredAction::PutUnit { unit, source, target } => match space.put_entity_target_mask(
            unit,
            source,
        ) {
            Some(mask) => pointer_target(mask, target.0),
            None => Ok(HeadTarget::inactive()),
        },
        _ => match aimed_mask(space, action) {
            Some((mask, ActionTarget::Entity(index))) => pointer_target(mask.entities(), index.0),
            _ => Ok(HeadTarget::inactive()),
        },
    };
    match pointer {
        Ok(head) => head,
        Err(_) => HeadTarget::inactive(),
    }
}

fn point_head(space: &ActionSpace, action: StructuredAction) -> (head: HeadTarget<
    MODEL_POINT_POINTER_HEAD,
>)
    requires
        space.wf(),
        space.conditionals(action),
    ensures
        head_is(head, point_label(*space, action)),
{
    proof {
        lemma_mask_widths(*space, selected_unit_of(action));
    }
    let pointer = match action {
        StructuredAction::MovePoint { unit, point } => pointer_target(
            space.move_point_mask(unit),
            point.0,
        ),
        StructuredAction::AttackMovePoint { unit, point } => pointer_target(
            space.attack_move_point_mask(unit),
            point.0,
        ),
        StructuredAction::PutPoint {
            unit,
            source,
            target: PutPointTarget::Point(point),
        } => match space.put_point_target_mask(unit, source) {
            Some(mask) => pointer_target(mask, point.0),
            None => Ok(HeadTarget::inactive()),
        },
        _ => match aimed_mask(space, action) {
            Some((mask, ActionTarget::Point(index))) => pointer_target(mask.points(), index.0),
            _ => Ok(HeadTarget::inactive()),
        },
    };
    match pointer {
        Ok(head) => head,
        Err(_) => HeadTarget::inactive(),
    }
}

fn training_prefix(action: StructuredAction) -> (prefix: TrainingPrefix)
    ensures
        prefix == prefix_of(action),
{
    let slot = match action {
        StructuredAction::Cast { slot, .. } => Some(
            TrainingSlot::Ability(TrainingAbilitySlot { index: slot.0 as usize }),
        ),
        StructuredAction::Use { slot, .. } => Some(
            TrainingSlot::Item(TrainingItemSlot { index: slot.0 as usize }),
        ),
        StructuredAction::PutPoint { source, .. } => Some(
            TrainingSlot::Item(TrainingItemSlot { index: source.0 as usize }),
        ),
        StructuredAction::PutUnit { source, .. } => Some(
            TrainingSlot::Item(TrainingItemSlot { index: source.0 as usize }),
        ),
        StructuredAction::Swap { from, .. } => Some(
            TrainingSlot::Item(TrainingItemSlot { index: from.0 as usize }),
        ),
        _ => None,
    };
    TrainingPrefix { kind: action.kind(), unit: action.controlled_unit(), slot }
}

/// Failure of an action that a frame and a space do not support.
pub open spec fn input_fault(
    frame: FeatureFrame,
    space: ActionSpace,
    action: StructuredAction,
    role: &'static str,
) -> Option<ImitationError> {
    if !frame.belongs_to(space) {
        Some(ImitationError::FrameActionSpaceMismatch)
    } else if !frame.finite() {
        Some(ImitationError::NonFiniteFrame)
    } else if !space.legal(action) {
        Some(ImitationError::ActionNotAllowed { role, kind: action.kind_spec() })
    } else {
        None
    }
}

/// Checks that an action is legal in the space that a finite frame was encoded from.
pub fn validate_action_input(
    frame: &FeatureFrame,
    space: &ActionSpace,
    action: StructuredAction,
    role: &'static str,
) -> (r: Result<(), ImitationError>)
    requires
        space.wf(),
    ensures
        r == faulted(input_fault(*frame, *space, action, role)),
{
    if !frame.matches_action_space(space) {
        return Err(ImitationError::FrameActionSpaceMismatch);
    }
    if !frame.is_finite() {
        return Err(ImitationError::NonFiniteFrame);
    }
    proof {
        crate::space::exactly_legal_actions_decode(*space, action);
    }
    if !space.allows(action) || space.decode(action).is_err() {
        return Err(ImitationError::ActionNotAllowed { role, kind: action.kind() });
    }
    Ok(())
}

impl BehavioralTarget {
    /// Labels of a legal action; fails when a mask is wider than its head.
    fn map_action(space: &ActionSpace, action: StructuredAction) -> (r: Result<
        Self,
        ImitationError,
    >)
        requires
            space.wf(),
            space.legal(action),
        ensures
            match r {
                Ok(target) => oversize(*space, action) is None && labels(target, *space, action),
                Err(error) => oversize(*space, action) == Some(error),
            },
    {
        let mut shop: HeadTarget<MODEL_SHOP_HEAD> = HeadTarget::inactive();
        let mut loot: HeadTarget<MODEL_LOOT_HEAD> = HeadTarget::inactive();
        let mut learn: HeadTarget<MODEL_LEARN_HEAD> = HeadTarget::inactive();
        match action {
            StructuredAction::Take { unit, loot: index } => {
                match pointer_target(space.take_mask(unit), index.0) {
                    Ok(head) => {
                        loot = head;
                    },
                    Err(error) => {
                        return Err(error);
                    },
                }
            },
            StructuredAction::Buy { unit, item } => {
                match pointer_target(space.buy_mask(unit), item.0) {
                    Ok(head) => {
                        shop = head;
                    },
                    Err(error) => {
                        return Err(error);
                    },
                }
            },
            StructuredAction::Learn { slot } => {
                match pointer_target(space.learn_slot_mask(), slot.0 as usize) {
                    Ok(head) => {
                        learn = head;
                    },
                    Err(error) => {
                        return Err(error);
                    },
                }
            },
            _ => {},
        }
        Ok(
            BehavioralTarget {
                kind: HeadTarget::active(*space.kind_mask().as_array(), action.kind().index()),
                controlled: controlled_head(space, action),
                ability: ability_head(space, action),
                item: item_head(space, action),
                swap: swap_head(space, action),
                learn,
                shop,
                loot,
                target_mode: target_mode_head(space, action),
                put_mode: put_mode_head(space, action),
                entity_pointer: entity_head(space, action),
                point_pointer: point_head(space, action),
                prefix: training_prefix(action),
            },
        )
    }
}


/// Kind with a stable model index.
pub open spec fn kind_at(index: int) -> ActionKind {
    choose|kind: ActionKind| kind.index_spec() == index
}

proof fn lemma_kind_at(kind: ActionKind)
    ensures
        kind_at(kind.index_spec()) == kind,
{
    let found = kind_at(kind.index_spec());
    assert(kind.index_spec() == kind.index_spec());
    crate::action::kind_index_is_injective(found, kind);
}

pub open spec fn unit_at(index: usize) -> ControlledUnit {
    if index == 0 {
        ControlledUnit::Hero
    } else {
        ControlledUnit::Courier
    }
}

/// Whether an action family selects a unit.
pub open spec fn selects_unit(kind: ActionKind) -> bool {
    kind != ActionKind::Continue && kind != ActionKind::Learn
}

/// Whether an action family conditions its targets on an item slot.
pub open spec fn selects_item(kind: ActionKind) -> bool {
    kind == ActionKind::Use || kind == ActionKind::PutPoint || kind == ActionKind::PutUnit || kind
        == ActionKind::Swap
}

/// Slot that the selected labels put into the prefix.
pub open spec fn expected_slot(target: BehavioralTarget, kind: ActionKind) -> Option<TrainingSlot> {
    if kind == ActionKind::Cast {
        Some(TrainingSlot::Ability(TrainingAbilitySlot { index: target.ability.selected }))
    } else if selects_item(kind) {
        Some(TrainingSlot::Item(TrainingItemSlot { index: target.item.selected }))
    } else {
        None
    }
}

/// Heads that lie on the path of the selected labels, without the kind head.
pub open spec fn expected_heads(target: BehavioralTarget, kind: ActionKind) -> Seq<bool> {
    let aims = kind == ActionKind::Cast || kind == ActionKind::Use;
    seq![
        selects_unit(kind),
        kind == ActionKind::Cast,
        selects_item(kind) || kind == ActionKind::Sell,
        kind == ActionKind::Swap,
        kind == ActionKind::Learn,
        kind == ActionKind::Buy,
        kind == ActionKind::Take,
        aims,
        kind == ActionKind::PutPoint,
        kind == ActionKind::FollowUnit || kind == ActionKind::AttackUnit || kind
            == ActionKind::PutUnit || (aims && target.target_mode.selected == 1),
        kind == ActionKind::MovePoint || kind == ActionKind::AttackMovePoint || (aims
            && target.target_mode.selected == 2) || (kind == ActionKind::PutPoint
            && target.put_mode.selected == 1),
    ]
}

/// Heads that are active, without the kind head.
pub open spec fn active_heads(target: BehavioralTarget) -> Seq<bool> {
    seq![
        target.controlled.active,
        target.ability.active,
        target.item.active,
        target.swap.active,
        target.learn.active,
        target.shop.active,
        target.loot.active,
        target.target_mode.active,
        target.put_mode.active,
        target.entity_pointer.active,
        target.point_pointer.active,
    ]
}

/// First disagreement between the selected labels, the prefix, and the active heads.
pub open spec fn path_fault(target: BehavioralTarget) -> Option<ImitationError> {
    let kind = kind_at(target.kind.selected as int);
    let unit = if selects_unit(kind) {
        Some(unit_at(target.controlled.selected))
    } else {
        None
    };
    if target.kind.selected >= MODEL_KIND_HEAD {
        Some(ImitationError::TargetPathMismatch("kind"))
    } else if !target.kind.active {
        Some(ImitationError::TargetPathMismatch("kind active"))
    } else if target.prefix.kind != kind {
        Some(ImitationError::TargetPathMismatch("prefix kind"))
    } else if selects_unit(kind) && target.controlled.selected >= 2 {
        Some(
            ImitationError::TargetLabel {
                head: "controlled",
                label: target.controlled.selected,
                width: 2,
            },
        )
    } else if target.controlled.active != selects_unit(kind) || target.prefix.unit != unit {
        Some(ImitationError::TargetPathMismatch("controlled unit"))
    } else if kind == ActionKind::Cast && target.ability.selected >= MODEL_ABILITY_HEAD {
        Some(
            ImitationError::TargetLabel {
                head: "ability",
                label: target.ability.selected,
                width: MODEL_ABILITY_HEAD,
            },
        )
    } else if selects_item(kind) && target.item.selected >= MODEL_ITEM_HEAD {
        Some(
            ImitationError::TargetLabel {
                head: "item",
                label: target.item.selected,
                width: MODEL_ITEM_HEAD,
            },
        )
    } else if target.prefix.slot != expected_slot(target, kind) {
        Some(ImitationError::TargetPathMismatch("slot"))
    } else if active_heads(target) != expected_heads(target, kind) {
        Some(ImitationError::TargetPathMismatch("active heads"))
    } else {
        None
    }
}

/// First of two faults.
pub open spec fn first_fault(
    first: Option<ImitationError>,
    second: Option<ImitationError>,
) -> Option<ImitationError> {
    match first {
        Some(_) => first,
        None => second,
    }
}

/// First broken head boundary, then the first disagreement on the path.
pub open spec fn target_fault(target: BehavioralTarget) -> Option<ImitationError> {
    first_fault(
        head_fault(target.kind, "kind"),
        first_fault(
            head_fault(target.controlled, "controlled"),
            first_fault(
                head_fault(target.ability, "ability"),
                first_fault(
                    head_fault(target.item, "item"),
                    first_fault(
                        head_fault(target.swap, "swap"),
                        first_fault(
                            head_fault(target.learn, "learn"),
                            first_fault(
                                head_fault(target.shop, "shop"),
                                first_fault(
                                    head_fault(target.loot, "loot"),
                                    first_fault(
                                        head_fault(target.target_mode, "target mode"),
                                        first_fault(
                                            head_fault(target.put_mode, "put mode"),
                                            first_fault(
                                                head_fault(
                                                    target.entity_pointer,
                                                    "entity pointer",
                                                ),
                                                first_fault(
                                                    head_fault(
                                                        target.point_pointer,
                                                        "point pointer",
                                                    ),
                                                    path_fault(target),
                                                ),
                                            ),
                                        ),
                                    ),
                                ),
                            ),
                        ),
                    ),
                ),
            ),
        ),
    )
}

fn same_unit(left: Option<ControlledUnit>, right: Option<ControlledUnit>) -> (r: bool)
    ensures
        r == (left == right),
{
    match (left, right) {
        (Some(left), Some(right)) => left == right,
        (None, None) => true,
        _ => false,
    }
}

fn same_slot(left: Option<TrainingSlot>, right: Option<TrainingSlot>) -> (r: bool)
    ensures
        r == (left == right),
{
    match (left, right) {
        (Some(left), Some(right)) => left == right,
        (None, None) => true,
        _ => false,
    }
}

fn selects_unit_exec(kind: ActionKind) -> (r: bool)
    ensures
        r == selects_unit(kind),
{
    kind != ActionKind::Continue && kind != ActionKind::Learn
}

fn expected_activity(target: &BehavioralTarget, kind: ActionKind) -> (expected: [bool; 11])
    ensures
        expected@ == expected_heads(*target, kind),
{
    let mut expected: [bool; 11] = [false;11];
    expected[0] = kind != ActionKind::Continue && kind != ActionKind::Learn;
    match kind {
        ActionKind::MovePoint | ActionKind::AttackMovePoint => {
            expected[10] = true;
        },
        ActionKind::FollowUnit | ActionKind::AttackUnit => {
            expected[9] = true;
        },
        ActionKind::Cast => {
            expected[1] = true;
            expected[7] = true;
            expected[9] = target.target_mode.selected == 1;
            expected[10] = target.target_mode.selected == 2;
        },
        ActionKind::Use => {
            expected[2] = true;
            expected[7] = true;
            expected[9] = target.target_mode.selected == 1;
            expected[10] = target.target_mode.selected == 2;
        },
        ActionKind::PutPoint => {
            expected[2] = true;
            expected[8] = true;
            expected[10] = target.put_mode.selected == 1;
        },
        ActionKind::PutUnit => {
            expected[2] = true;
            expected[9] = true;
        },
        ActionKind::Take => {
            expected[6] = true;
        },
        ActionKind::Buy => {
            expected[5] = true;
        },
        ActionKind::Sell => {
            expected[2] = true;
        },
        ActionKind::Swap => {
            expected[2] = true;
            expected[3] = true;
        },
        ActionKind::Learn => {
            expected[4] = true;
        },
        ActionKind::Continue | ActionKind::Stop | ActionKind::Hold => {},
    }
    assert(expected@ =~= expected_heads(*target, kind));
    expected
}

fn same_flags(left: &[bool; 11], right: &[bool; 11]) -> (r: bool)
    ensures
        r == (left@ == right@),
{
    let mut index: usize = 0;
    while index < 11
        invariant
            index <= 11,
            left@.len() == 11,
            right@.len() == 11,
            forall|i: int| 0 <= i < index ==> left@[i] == right@[i],
        decreases 11 - index,
    {
        if left[index] != right[index] {
            return false;
        }
        index += 1;
    }
    assert(left@ =~= right@);
    true
}

/// Action that the selected labels of a valid target stand for.
pub open spec fn action_of(target: BehavioralTarget) -> StructuredAction {
    let kind = kind_at(target.kind.selected as int);
    let unit = unit_at(target.controlled.selected);
    let point = PointIndex(target.point_pointer.selected);
    let entity = EntityIndex(target.entity_pointer.selected);
    let slot = ItemSlot(target.item.selected as u8);
    let aim = if target.target_mode.selected == 0 {
        ActionTarget::Untargeted
    } else if target.target_mode.selected == 1 {
        ActionTarget::Entity(entity)
    } else {
        ActionTarget::Point(point)
    };
    match kind {
        ActionKind::Continue => StructuredAction::Continue,
        ActionKind::Stop => StructuredAction::Stop { unit },
        ActionKind::MovePoint => StructuredAction::MovePoint { unit, point },
        ActionKind::FollowUnit => StructuredAction::FollowUnit { unit, target: entity },
        ActionKind::Hold => StructuredAction::Hold { unit },
        ActionKind::AttackMovePoint => StructuredAction::AttackMovePoint { unit, point },
        ActionKind::AttackUnit => StructuredAction::AttackUnit { unit, target: entity },
        ActionKind::Cast => StructuredAction::Cast {
            unit,
            slot: AbilitySlot(target.ability.selected as u8),
            target: aim,
        },
        ActionKind::Use => StructuredAction::Use { unit, slot, target: aim },
        ActionKind::PutPoint => StructuredAction::PutPoint {
            unit,
            source: slot,
            target: if target.put_mode.selected == 0 {
                PutPointTarget::Underfoot
            } else {
                PutPointTarget::Point(point)
            },
        },
        ActionKind::PutUnit => StructuredAction::PutUnit { unit, source: slot, target: entity },
        ActionKind::Take => StructuredAction::Take { unit, loot: LootIndex(target.loot.selected) },
        ActionKind::Buy => StructuredAction::Buy { unit, item: ShopIndex(target.shop.selected) },
        ActionKind::Sell => StructuredAction::Sell { unit, slot },
        ActionKind::Swap => StructuredAction::Swap {
            unit,
            from: slot,
            to: ItemSlot(target.swap.selected as u8),
        },
        ActionKind::Learn => StructuredAction::Learn {
            slot: AbilitySlot(target.learn.selected as u8),
        },
    }
}

impl BehavioralTarget {
    fn validate_heads(&self) -> (r: Result<(), ImitationError>)
        ensures
            r is Ok ==> target_fault(*self) == path_fault(*self),
            r matches Err(error) ==> target_fault(*self) == Some(error),
            r is Ok ==> {
                &&& head_fault(self.kind, "kind") is None
                &&& head_fault(self.controlled, "controlled") is None
                &&& head_fault(self.ability, "ability") is None
                &&& head_fault(self.item, "item") is None
                &&& head_fault(self.swap, "swap") is None
                &&& head_fault(self.learn, "learn") is None
                &&& head_fault(self.target_mode, "target mode") is None
                &&& head_fault(self.put_mode, "put mode") is None
            },
    {
        match self.kind.validate("kind") {
            Ok(()) => {},
            Err(error) => {
                return Err(error);
            },
        }
        match self.controlled.validate("controlled") {
            Ok(()) => {},
            Err(error) => {
                return Err(error);
            },
        }
        match self.ability.validate("ability") {
            Ok(()) => {},
            Err(error) => {
                return Err(error);
            },
        }
        match self.item.validate("item") {
            Ok(()) => {},
            Err(error) => {
                return Err(error);
            },
        }
        match self.swap.validate("swap") {
            Ok(()) => {},
            Err(error) => {
                return Err(error);
            },
        }
        match self.learn.validate("learn") {
            Ok(()) => {},
            Err(error) => {
                return Err(error);
            },
        }
        match self.shop.validate("shop") {
            Ok(()) => {},
            Err(error) => {
                return Err(error);
            },
        }
        match self.loot.validate("loot") {
            Ok(()) => {},
            Err(error) => {
                return Err(error);
            },
        }
        match self.target_mode.validate("target mode") {
            Ok(()) => {},
            Err(error) => {
                return Err(error);
            },
        }
        match self.put_mode.validate("put mode") {
            Ok(()) => {},
            Err(error) => {
                return Err(error);
            },
        }
        match self.entity_pointer.validate("entity pointer") {
            Ok(()) => {},
            Err(error) => {
                return Err(error);
            },
        }
        self.point_pointer.validate("point pointer")
    }

    /// Validates every active and inactive head boundary and the selected path.
    pub fn validate(&self) -> (r: Result<(), ImitationError>)
        ensures
            r == faulted(target_fault(*self)),
    {
        match self.validate_heads() {
            Ok(()) => self.validate_path(),
            Err(error) => Err(error),
        }
    }

    fn validate_path(&self) -> (r: Result<(), ImitationError>)
        ensures
            r == faulted(path_fault(*self)),
    {
        let kind = match ActionKind::from_index(self.kind.selected) {
            Some(kind) => kind,
            None => {
                return Err(ImitationError::TargetPathMismatch("kind"));
            },
        };
        proof {
            lemma_kind_at(kind);
        }
        if !self.kind.active {
            return Err(ImitationError::TargetPathMismatch("kind active"));
        }
        if self.prefix.kind != kind {
            return Err(ImitationError::TargetPathMismatch("prefix kind"));
        }
        let selects = selects_unit_exec(kind);
        let expected_unit = if selects {
            match selected_unit(self.controlled.selected) {
                Ok(unit) => Some(unit),
                Err(error) => {
                    return Err(error);
                },
            }
        } else {
            None
        };
        if self.controlled.active != selects || !same_unit(self.prefix.unit, expected_unit) {
            return Err(ImitationError::TargetPathMismatch("controlled unit"));
        }
        let slot = match kind {
            ActionKind::Cast => {
                if self.ability.selected >= MODEL_ABILITY_HEAD {
                    return Err(
                        ImitationError::TargetLabel {
                            head: "ability",
                            label: self.ability.selected,
                            width: MODEL_ABILITY_HEAD,
                        },
                    );
                }
                Some(TrainingSlot::Ability(TrainingAbilitySlot { index: self.ability.selected }))
            },
            ActionKind::Use | ActionKind::PutPoint | ActionKind::PutUnit | ActionKind::Swap => {
                if self.item.selected >= MODEL_ITEM_HEAD {
                    return Err(
                        ImitationError::TargetLabel {
                            head: "item",
                            label: self.item.selected,
                            width: MODEL_ITEM_HEAD,
                        },
                    );
                }
                Some(TrainingSlot::Item(TrainingItemSlot { index: self.item.selected }))
            },
            _ => None,
        };
        if !same_slot(self.prefix.slot, slot) {
            return Err(ImitationError::TargetPathMismatch("slot"));
        }
        let expected = expected_activity(self, kind);
        let actual: [bool; 11] = [
            self.controlled.active,
            self.ability.active,
            self.item.active,
            self.swap.active,
            self.learn.active,
            self.shop.active,
            self.loot.active,
            self.target_mode.active,
            self.put_mode.active,
            self.entity_pointer.active,
            self.point_pointer.active,
        ];
        assert(actual@ =~= active_heads(*self));
        if !same_flags(&actual, &expected) {
            return Err(ImitationError::TargetPathMismatch("active heads"));
        }
        Ok(())
    }

    /// Exact teacher-forced context used by all conditional model tensors.
    pub fn prefix(&self) -> (r: TrainingPrefix)
        ensures
            r == self.prefix,
    {
        self.prefix
    }

    /// Number of heads contributing cross entropy for this target.
    pub fn active_head_count(&self) -> (r: usize)
        ensures
            r == count_set(active_heads(*self)) + (if self.kind.active {
                1int
            } else {
                0int
            }),
    {
        let heads: [bool; 11] = [
            self.controlled.active,
            self.ability.active,
            self.item.active,
            self.swap.active,
            self.learn.active,
            self.shop.active,
            self.loot.active,
            self.target_mode.active,
            self.put_mode.active,
            self.entity_pointer.active,
            self.point_pointer.active,
        ];
        assert(heads@ =~= active_heads(*self));
        let mut count: usize = 0;
        let mut index: usize = 0;
        while index < 11
            invariant
                index <= 11,
                heads@ == active_heads(*self),
                count == count_set(heads@.subrange(0, index as int)),
                count <= index,
            decreases 11 - index,
        {
            assert(heads@.subrange(0, index + 1).drop_last() =~= heads@.subrange(0, index as int));
            if heads[index] {
                count += 1;
            }
            index += 1;
        }
        assert(heads@.subrange(0, 11) =~= heads@);
        if self.kind.active {
            count += 1;
        }
        count
    }
}

/// Number of set entries.
pub open spec fn count_set(mask: Seq<bool>) -> nat
    decreases mask.len(),
{
    if mask.len() == 0 {
        0
    } else {
        count_set(mask.drop_last()) + (if mask.last() {
            1nat
        } else {
            0nat
        })
    }
}

fn selected_unit(index: usize) -> (r: Result<ControlledUnit, ImitationError>)
    ensures
        r == (if index < 2 {
            Ok::<ControlledUnit, ImitationError>(unit_at(index))
        } else {
            Err(ImitationError::TargetLabel { head: "controlled", label: index, width: 2 })
        }),
{
    match index {
        0 => Ok(ControlledUnit::Hero),
        1 => Ok(ControlledUnit::Courier),
        label => Err(ImitationError::TargetLabel { head: "controlled", label, width: 2 }),
    }
}


impl BehavioralTarget {
    /// Reverse-maps one exact legal teacher action into fixed head labels and masks.
    pub fn from_action(frame: &FeatureFrame, space: &ActionSpace, action: StructuredAction) -> (r:
        Result<Self, ImitationError>)
        requires
            space.wf(),
        ensures
            match r {
                Ok(target) => {
                    &&& input_fault(*frame, *space, action, "teacher") is None
                    &&& oversize(*space, action) is None
                    &&& labels(target, *space, action)
                    &&& target_fault(target) is None
                },
                Err(error) => first_fault(
                    input_fault(*frame, *space, action, "teacher"),
                    oversize(*space, action),
                ) == Some(error),
            },
    {
        match validate_action_input(frame, space, action, "teacher") {
            Ok(()) => {},
            Err(error) => {
                return Err(error);
            },
        }
        let target = match Self::map_action(space, action) {
            Ok(target) => target,
            Err(error) => {
                return Err(error);
            },
        };
        proof {
            labeled_targets_are_valid(target, *space, action);
        }
        match target.validate() {
            Ok(()) => Ok(target),
            Err(error) => Err(error),
        }
    }

    /// Reconstructs the exact structured action represented by selected labels.
    pub fn reconstruct_action(&self) -> (r: Result<StructuredAction, ImitationError>)
        ensures
            r == (match target_fault(*self) {
                Some(error) => Err::<StructuredAction, ImitationError>(error),
                None => Ok(action_of(*self)),
            }),
    {
        match self.validate_heads() {
            Ok(()) => {},
            Err(error) => {
                return Err(error);
            },
        }
        match self.validate_path() {
            Ok(()) => {},
            Err(error) => {
                return Err(error);
            },
        }
        let kind = match ActionKind::from_index(self.kind.selected) {
            Some(kind) => kind,
            None => {
                return Err(
                    ImitationError::TargetLabel {
                        head: "kind",
                        label: self.kind.selected,
                        width: MODEL_KIND_HEAD,
                    },
                );
            },
        };
        proof {
            lemma_kind_at(kind);
            assert(active_heads(*self) == expected_heads(*self, kind));
            assert(active_heads(*self)[4] == expected_heads(*self, kind)[4]);
            assert(active_heads(*self)[3] == expected_heads(*self, kind)[3]);
            assert(active_heads(*self)[2] == expected_heads(*self, kind)[2]);
            assert(active_heads(*self)[1] == expected_heads(*self, kind)[1]);
            assert(active_heads(*self)[7] == expected_heads(*self, kind)[7]);
            assert(active_heads(*self)[8] == expected_heads(*self, kind)[8]);
        }
        if kind == ActionKind::Continue {
            return Ok(StructuredAction::Continue);
        }
        if kind == ActionKind::Learn {
            return Ok(StructuredAction::Learn { slot: AbilitySlot(self.learn.selected as u8) });
        }
        self.reconstruct_controlled(kind)
    }

    fn reconstruct_controlled(&self, kind: ActionKind) -> (r: Result<
        StructuredAction,
        ImitationError,
    >)
        requires
            selects_unit(kind),
            kind_at(self.kind.selected as int) == kind,
            self.controlled.selected < 2,
            kind == ActionKind::Cast ==> self.ability.selected < 8,
            selects_item(kind) || kind == ActionKind::Sell ==> self.item.selected < 15,
            kind == ActionKind::Swap ==> self.swap.selected < 15,
            kind == ActionKind::Cast || kind == ActionKind::Use ==> self.target_mode.selected < 3,
            kind == ActionKind::PutPoint ==> self.put_mode.selected < 2,
        ensures
            r == Ok::<StructuredAction, ImitationError>(action_of(*self)),
    {
        let unit = match selected_unit(self.controlled.selected) {
            Ok(unit) => unit,
            Err(error) => {
                return Err(error);
            },
        };
        let action = match kind {
            ActionKind::Stop => StructuredAction::Stop { unit },
            ActionKind::MovePoint => StructuredAction::MovePoint {
                unit,
                point: PointIndex(self.point_pointer.selected),
            },
            ActionKind::FollowUnit => StructuredAction::FollowUnit {
                unit,
                target: EntityIndex(self.entity_pointer.selected),
            },
            ActionKind::Hold => StructuredAction::Hold { unit },
            ActionKind::AttackMovePoint => StructuredAction::AttackMovePoint {
                unit,
                point: PointIndex(self.point_pointer.selected),
            },
            ActionKind::AttackUnit => StructuredAction::AttackUnit {
                unit,
                target: EntityIndex(self.entity_pointer.selected),
            },
            ActionKind::Cast | ActionKind::Use => {
                return self.reconstruct_targeted(kind, unit);
            },
            ActionKind::PutPoint | ActionKind::PutUnit => {
                return self.reconstruct_put(kind, unit);
            },
            ActionKind::Take => StructuredAction::Take {
                unit,
                loot: LootIndex(self.loot.selected),
            },
            ActionKind::Buy => StructuredAction::Buy {
                unit,
                item: ShopIndex(self.shop.selected),
            },
            ActionKind::Sell => StructuredAction::Sell {
                unit,
                slot: ItemSlot(self.item.selected as u8),
            },
            ActionKind::Swap => StructuredAction::Swap {
                unit,
                from: ItemSlot(self.item.selected as u8),
                to: ItemSlot(self.swap.selected as u8),
            },
            ActionKind::Continue | ActionKind::Learn => {
                return Err(ImitationError::TargetEmptyMask { head: "controlled" });
            },
        };
        Ok(action)
    }

    fn reconstruct_targeted(&self, kind: ActionKind, unit: ControlledUnit) -> (r: Result<
        StructuredAction,
        ImitationError,
    >)
        requires
            kind == ActionKind::Cast || kind == ActionKind::Use,
            kind_at(self.kind.selected as int) == kind,
            unit == unit_at(self.controlled.selected),
            self.target_mode.selected < 3,
            kind == ActionKind::Cast ==> self.ability.selected < 8,
            kind == ActionKind::Use ==> self.item.selected < 15,
        ensures
            r == Ok::<StructuredAction, ImitationError>(action_of(*self)),
    {
        let target = match self.target_mode.selected {
            0 => ActionTarget::Untargeted,
            1 => ActionTarget::Entity(EntityIndex(self.entity_pointer.selected)),
            2 => ActionTarget::Point(PointIndex(self.point_pointer.selected)),
            label => {
                return Err(ImitationError::TargetLabel { head: "target mode", label, width: 3 });
            },
        };
        if kind == ActionKind::Cast {
            Ok(
                StructuredAction::Cast {
                    unit,
                    slot: AbilitySlot(self.ability.selected as u8),
                    target,
                },
            )
        } else {
            Ok(StructuredAction::Use { unit, slot: ItemSlot(self.item.selected as u8), target })
        }
    }

    fn reconstruct_put(&self, kind: ActionKind, unit: ControlledUnit) -> (r: Result<
        StructuredAction,
        ImitationError,
    >)
        requires
            kind == ActionKind::PutPoint || kind == ActionKind::PutUnit,
            kind_at(self.kind.selected as int) == kind,
            unit == unit_at(self.controlled.selected),
            self.item.selected < 15,
            kind == ActionKind::PutPoint ==> self.put_mode.selected < 2,
        ensures
            r == Ok::<StructuredAction, ImitationError>(action_of(*self)),
    {
        let source = ItemSlot(self.item.selected as u8);
        if kind == ActionKind::PutUnit {
            return Ok(
                StructuredAction::PutUnit {
                    unit,
                    source,
                    target: EntityIndex(self.entity_pointer.selected),
                },
            );
        }
        let target = match self.put_mode.selected {
            0 => PutPointTarget::Underfoot,
            1 => PutPointTarget::Point(PointIndex(self.point_pointer.selected)),
            label => {
                return Err(ImitationError::TargetLabel { head: "put mode", label, width: 2 });
            },
        };
        Ok(StructuredAction::PutPoint { unit, source, target })
    }
}

/// Selected classes of a legal action are legal in their masks and fit their heads.
proof fn lemma_labels_legal(space: ActionSpace, action: StructuredAction)
    requires
        space.wf(),
        space.legal(action),
        oversize(space, action) is None,
    ensures
        controlled_label(space, action) matches Some((mask, selected)) ==> entry(
            mask,
            selected as int,
        ) && selected < 2,
        ability_label(space, action) matches Some((mask, selected)) ==> entry(
            mask,
            selected as int,
        ) && selected < 8,
        item_label(space, action) matches Some((mask, selected)) ==> entry(mask, selected as int)
            && selected < 15,
        swap_label(space, action) matches Some((mask, selected)) ==> entry(mask, selected as int)
            && selected < 15,
        learn_label(space, action) matches Some((mask, selected)) ==> entry(mask, selected as int)
            && selected < 6,
        shop_label(space, action) matches Some((mask, selected)) ==> entry(mask, selected as int)
            && selected < 64,
        loot_label(space, action) matches Some((mask, selected)) ==> entry(mask, selected as int)
            && selected < 16,
        target_mode_label(space, action) matches Some((mask, selected)) ==> entry(
            mask,
            selected as int,
        ) && selected < 3,
        put_mode_label(space, action) matches Some((mask, selected)) ==> entry(
            mask,
            selected as int,
        ) && selected < 2,
        entity_label(space, action) matches Some((mask, selected)) ==> entry(
            mask,
            selected as int,
        ) && selected < 96,
        point_label(space, action) matches Some((mask, selected)) ==> entry(
            mask,
            selected as int,
        ) && selected < 48,
{
    let unit = selected_unit_of(action);
    let masks = space.masks(unit);
    lemma_mask_widths(space, unit);
    crate::space::lemma_permitted_family_of(space, action);
    match action {
        StructuredAction::Cast { slot, target, .. } => {
            let mask = masks.casts@[slot.0 as int];
            crate::action::open_target_mask_permits_something(mask);
            assert(mask.permits(target));
        },
        StructuredAction::Use { slot, target, .. } => {
            let mask = masks.uses@[slot.0 as int];
            crate::action::open_target_mask_permits_something(mask);
            assert(mask.permits(target));
        },
        StructuredAction::PutPoint { source, target, .. } => {
            let mask = masks.put_points@[source.0 as int];
            if let PutPointTarget::Point(point) = target {
                assert(mask.points@[point.0 as int]);
            }
        },
        StructuredAction::PutUnit { source, target, .. } => {
            assert(masks.put_units@[source.0 as int]@[target.0 as int]);
        },
        StructuredAction::Swap { from, to, .. } => {
            assert(masks.swap@[from.0 as int]@[to.0 as int]);
        },
        _ => {},
    }
}

/// Labels of a legal action break no head boundary and agree with their path.
pub proof fn labeled_targets_are_valid(
    target: BehavioralTarget,
    space: ActionSpace,
    action: StructuredAction,
)
    requires
        space.wf(),
        space.legal(action),
        oversize(space, action) is None,
        labels(target, space, action),
    ensures
        target_fault(target) is None,
{
    lemma_labels_legal(space, action);
    lemma_kind_at(action.kind_spec());
    lemma_label_is_valid(
        target.kind,
        Some((space.kind_mask.0@, action.kind_spec().index_spec() as usize)),
        "kind",
    );
    lemma_label_is_valid(target.controlled, controlled_label(space, action), "controlled");
    lemma_label_is_valid(target.ability, ability_label(space, action), "ability");
    lemma_label_is_valid(target.item, item_label(space, action), "item");
    lemma_label_is_valid(target.swap, swap_label(space, action), "swap");
    lemma_label_is_valid(target.learn, learn_label(space, action), "learn");
    lemma_label_is_valid(target.shop, shop_label(space, action), "shop");
    lemma_label_is_valid(target.loot, loot_label(space, action), "loot");
    lemma_label_is_valid(target.target_mode, target_mode_label(space, action), "target mode");
    lemma_label_is_valid(target.put_mode, put_mode_label(space, action), "put mode");
    lemma_label_is_valid(target.entity_pointer, entity_label(space, action), "entity pointer");
    lemma_label_is_valid(target.point_pointer, point_label(space, action), "point pointer");
    assert(active_heads(target) =~= expected_heads(target, action.kind_spec()));
}

/// Reconstructing the labels of a legal action gives back that action.
pub proof fn labels_reconstruct_their_action(
    target: BehavioralTarget,
    space: ActionSpace,
    action: StructuredAction,
)
    requires
        space.wf(),
        space.legal(action),
        oversize(space, action) is None,
        labels(target, space, action),
    ensures
        target_fault(target) is None,
        action_of(target) == action,
{
    labeled_targets_are_valid(target, space, action);
    lemma_kind_at(action.kind_spec());
}

/// Two legal actions with the same labels are the same action.
pub proof fn labels_identify_their_action(
    target: BehavioralTarget,
    space: ActionSpace,
    first: StructuredAction,
    second: StructuredAction,
)
    requires
        space.wf(),
        space.legal(first),
        space.legal(second),
        oversize(space, first) is None,
        oversize(space, second) is None,
        labels(target, space, first),
        labels(target, space, second),
    ensures
        first == second,
{
    labels_reconstruct_their_action(target, space, first);
    labels_reconstruct_their_action(target, space, second);
}

} // verus!
