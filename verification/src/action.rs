//! Structured actions of one seat and their stable model indices.
use crate::search::{any_set, entry};
use crate::text::{decimal, owned, with_decimal, with_text};
use crate::world::{AbilitySlot, EntityId, ItemId, ItemSlot, Order, UnitKind, UnitView, Vec2};
use vstd::prelude::*;

verus! {

/// Number of action kinds.
pub const ACTION_KIND_COUNT: usize = 16;
/// Item slots addressable on the wire: hero bag, then stash.
pub const WIRE_ITEM_SLOTS: usize = 15;

/// Stable append-only top-level action discriminator.
#[derive(Clone, Copy, Debug, PartialEq, Eq, PartialOrd, Ord, Hash, Structural)]
pub enum ActionKind {
    Continue,
    Stop,
    MovePoint,
    FollowUnit,
    Hold,
    AttackMovePoint,
    AttackUnit,
    Cast,
    Use,
    PutPoint,
    PutUnit,
    Take,
    Buy,
    Sell,
    Swap,
    Learn,
}

impl ActionKind {
    /// Stable zero-based model index.
    pub open spec fn index_spec(self) -> int {
        match self {
            ActionKind::Continue => 0,
            ActionKind::Stop => 1,
            ActionKind::MovePoint => 2,
            ActionKind::FollowUnit => 3,
            ActionKind::Hold => 4,
            ActionKind::AttackMovePoint => 5,
            ActionKind::AttackUnit => 6,
            ActionKind::Cast => 7,
            ActionKind::Use => 8,
            ActionKind::PutPoint => 9,
            ActionKind::PutUnit => 10,
            ActionKind::Take => 11,
            ActionKind::Buy => 12,
            ActionKind::Sell => 13,
            ActionKind::Swap => 14,
            ActionKind::Learn => 15,
        }
    }

    /// Stable zero-based model index.
    pub fn index(self) -> (r: usize)
        ensures
            r == self.index_spec(),
            r < ACTION_KIND_COUNT,
    {
        match self {
            ActionKind::Continue => 0,
            ActionKind::Stop => 1,
            ActionKind::MovePoint => 2,
            ActionKind::FollowUnit => 3,
            ActionKind::Hold => 4,
            ActionKind::AttackMovePoint => 5,
            ActionKind::AttackUnit => 6,
            ActionKind::Cast => 7,
            ActionKind::Use => 8,
            ActionKind::PutPoint => 9,
            ActionKind::PutUnit => 10,
            ActionKind::Take => 11,
            ActionKind::Buy => 12,
            ActionKind::Sell => 13,
            ActionKind::Swap => 14,
            ActionKind::Learn => 15,
        }
    }

    /// Converts a stable model index to its action kind.
    pub fn from_index(index: usize) -> (r: Option<Self>)
        ensures
            r is Some <==> index < ACTION_KIND_COUNT,
            r matches Some(kind) ==> kind.index_spec() == index,
    {
        match index {
            0 => Some(ActionKind::Continue),
            1 => Some(ActionKind::Stop),
            2 => Some(ActionKind::MovePoint),
            3 => Some(ActionKind::FollowUnit),
            4 => Some(ActionKind::Hold),
            5 => Some(ActionKind::AttackMovePoint),
            6 => Some(ActionKind::AttackUnit),
            7 => Some(ActionKind::Cast),
            8 => Some(ActionKind::Use),
            9 => Some(ActionKind::PutPoint),
            10 => Some(ActionKind::PutUnit),
            11 => Some(ActionKind::Take),
            12 => Some(ActionKind::Buy),
            13 => Some(ActionKind::Sell),
            14 => Some(ActionKind::Swap),
            15 => Some(ActionKind::Learn),
            _ => None,
        }
    }
}

/// Different kinds have different model indices.
pub proof fn kind_index_is_injective(left: ActionKind, right: ActionKind)
    requires
        left.index_spec() == right.index_spec(),
    ensures
        left == right,
{
}

/// Unit selected after the top-level action kind.
#[derive(Clone, Copy, Debug, PartialEq, Eq, PartialOrd, Ord, Hash, Structural)]
pub enum ControlledUnit {
    Hero,
    Courier,
}

impl ControlledUnit {
    pub open spec fn index_spec(self) -> int {
        match self {
            ControlledUnit::Hero => 0,
            ControlledUnit::Courier => 1,
        }
    }

    /// Stable conditional-head index.
    pub fn index(self) -> (r: usize)
        ensures
            r == self.index_spec(),
            r < 2,
    {
        match self {
            ControlledUnit::Hero => 0,
            ControlledUnit::Courier => 1,
        }
    }
}

/// Index into the current visible entity candidate list.
#[derive(Clone, Copy, Debug, PartialEq, Eq, PartialOrd, Ord, Hash, Structural)]
pub struct EntityIndex(pub usize);

/// Index into the current point candidate list.
#[derive(Clone, Copy, Debug, PartialEq, Eq, PartialOrd, Ord, Hash, Structural)]
pub struct PointIndex(pub usize);

/// Index into the current visible loot candidate list.
#[derive(Clone, Copy, Debug, PartialEq, Eq, PartialOrd, Ord, Hash, Structural)]
pub struct LootIndex(pub usize);

/// Index into the current static shop candidate list.
#[derive(Clone, Copy, Debug, PartialEq, Eq, PartialOrd, Ord, Hash, Structural)]
pub struct ShopIndex(pub usize);

/// Typed target selected for an ability or active item.
#[derive(Clone, Copy, Debug, PartialEq, Eq, Hash, Structural)]
pub enum ActionTarget {
    Untargeted,
    Entity(EntityIndex),
    Point(PointIndex),
}

/// Ground destination of a put order, including the drop underfoot.
#[derive(Clone, Copy, Debug, PartialEq, Eq, Hash, Structural)]
pub enum PutPointTarget {
    Underfoot,
    Point(PointIndex),
}

/// One structured action accepted by the autoregressive action schema.
#[allow(inconsistent_fields)]
#[derive(Clone, Copy, Debug, PartialEq, Eq, Hash, Structural)]
pub enum StructuredAction {
    Continue,
    Stop { unit: ControlledUnit },
    MovePoint { unit: ControlledUnit, point: PointIndex },
    FollowUnit { unit: ControlledUnit, target: EntityIndex },
    Hold { unit: ControlledUnit },
    AttackMovePoint { unit: ControlledUnit, point: PointIndex },
    AttackUnit { unit: ControlledUnit, target: EntityIndex },
    Cast { unit: ControlledUnit, slot: AbilitySlot, target: ActionTarget },
    Use { unit: ControlledUnit, slot: ItemSlot, target: ActionTarget },
    PutPoint { unit: ControlledUnit, source: ItemSlot, target: PutPointTarget },
    PutUnit { unit: ControlledUnit, source: ItemSlot, target: EntityIndex },
    Take { unit: ControlledUnit, loot: LootIndex },
    Buy { unit: ControlledUnit, item: ShopIndex },
    Sell { unit: ControlledUnit, slot: ItemSlot },
    Swap { unit: ControlledUnit, from: ItemSlot, to: ItemSlot },
    Learn { slot: AbilitySlot },
}

/// Short public name for one strongly typed structured action.
pub type Action = StructuredAction;

impl StructuredAction {
    pub open spec fn kind_spec(self) -> ActionKind {
        match self {
            StructuredAction::Continue => ActionKind::Continue,
            StructuredAction::Stop { .. } => ActionKind::Stop,
            StructuredAction::MovePoint { .. } => ActionKind::MovePoint,
            StructuredAction::FollowUnit { .. } => ActionKind::FollowUnit,
            StructuredAction::Hold { .. } => ActionKind::Hold,
            StructuredAction::AttackMovePoint { .. } => ActionKind::AttackMovePoint,
            StructuredAction::AttackUnit { .. } => ActionKind::AttackUnit,
            StructuredAction::Cast { .. } => ActionKind::Cast,
            StructuredAction::Use { .. } => ActionKind::Use,
            StructuredAction::PutPoint { .. } => ActionKind::PutPoint,
            StructuredAction::PutUnit { .. } => ActionKind::PutUnit,
            StructuredAction::Take { .. } => ActionKind::Take,
            StructuredAction::Buy { .. } => ActionKind::Buy,
            StructuredAction::Sell { .. } => ActionKind::Sell,
            StructuredAction::Swap { .. } => ActionKind::Swap,
            StructuredAction::Learn { .. } => ActionKind::Learn,
        }
    }

    pub open spec fn unit_spec(self) -> Option<ControlledUnit> {
        match self {
            StructuredAction::Continue => None,
            StructuredAction::Stop { unit } => Some(unit),
            StructuredAction::MovePoint { unit, .. } => Some(unit),
            StructuredAction::FollowUnit { unit, .. } => Some(unit),
            StructuredAction::Hold { unit } => Some(unit),
            StructuredAction::AttackMovePoint { unit, .. } => Some(unit),
            StructuredAction::AttackUnit { unit, .. } => Some(unit),
            StructuredAction::Cast { unit, .. } => Some(unit),
            StructuredAction::Use { unit, .. } => Some(unit),
            StructuredAction::PutPoint { unit, .. } => Some(unit),
            StructuredAction::PutUnit { unit, .. } => Some(unit),
            StructuredAction::Take { unit, .. } => Some(unit),
            StructuredAction::Buy { unit, .. } => Some(unit),
            StructuredAction::Sell { unit, .. } => Some(unit),
            StructuredAction::Swap { unit, .. } => Some(unit),
            StructuredAction::Learn { .. } => None,
        }
    }

    /// Top-level discriminator used by the kind mask.
    pub fn kind(self) -> (r: ActionKind)
        ensures
            r == self.kind_spec(),
    {
        match self {
            StructuredAction::Continue => ActionKind::Continue,
            StructuredAction::Stop { .. } => ActionKind::Stop,
            StructuredAction::MovePoint { .. } => ActionKind::MovePoint,
            StructuredAction::FollowUnit { .. } => ActionKind::FollowUnit,
            StructuredAction::Hold { .. } => ActionKind::Hold,
            StructuredAction::AttackMovePoint { .. } => ActionKind::AttackMovePoint,
            StructuredAction::AttackUnit { .. } => ActionKind::AttackUnit,
            StructuredAction::Cast { .. } => ActionKind::Cast,
            StructuredAction::Use { .. } => ActionKind::Use,
            StructuredAction::PutPoint { .. } => ActionKind::PutPoint,
            StructuredAction::PutUnit { .. } => ActionKind::PutUnit,
            StructuredAction::Take { .. } => ActionKind::Take,
            StructuredAction::Buy { .. } => ActionKind::Buy,
            StructuredAction::Sell { .. } => ActionKind::Sell,
            StructuredAction::Swap { .. } => ActionKind::Swap,
            StructuredAction::Learn { .. } => ActionKind::Learn,
        }
    }

    /// Controlled unit, absent for action families that do not select one.
    pub fn controlled_unit(self) -> (r: Option<ControlledUnit>)
        ensures
            r == self.unit_spec(),
            r is None <==> self.kind_spec() == ActionKind::Continue || self.kind_spec()
                == ActionKind::Learn,
    {
        match self {
            StructuredAction::Continue => None,
            StructuredAction::Stop { unit } => Some(unit),
            StructuredAction::MovePoint { unit, .. } => Some(unit),
            StructuredAction::FollowUnit { unit, .. } => Some(unit),
            StructuredAction::Hold { unit } => Some(unit),
            StructuredAction::AttackMovePoint { unit, .. } => Some(unit),
            StructuredAction::AttackUnit { unit, .. } => Some(unit),
            StructuredAction::Cast { unit, .. } => Some(unit),
            StructuredAction::Use { unit, .. } => Some(unit),
            StructuredAction::PutPoint { unit, .. } => Some(unit),
            StructuredAction::PutUnit { unit, .. } => Some(unit),
            StructuredAction::Take { unit, .. } => Some(unit),
            StructuredAction::Buy { unit, .. } => Some(unit),
            StructuredAction::Sell { unit, .. } => Some(unit),
            StructuredAction::Swap { unit, .. } => Some(unit),
            StructuredAction::Learn { .. } => None,
        }
    }
}

/// Relation of a visible entity candidate to the controlled seat.
#[derive(Clone, Copy, Debug, PartialEq, Eq, Hash, Structural)]
pub enum EntityRelation {
    Own,
    Allied,
    Enemy,
    Neutral,
}

impl EntityRelation {
    pub open spec fn rank_spec(self) -> int {
        match self {
            EntityRelation::Own => 0,
            EntityRelation::Allied => 1,
            EntityRelation::Enemy => 2,
            EntityRelation::Neutral => 3,
        }
    }

    /// Stable index of a relation.
    pub fn rank(self) -> (r: usize)
        ensures
            r == self.rank_spec(),
            r < 4,
    {
        match self {
            EntityRelation::Own => 0,
            EntityRelation::Allied => 1,
            EntityRelation::Enemy => 2,
            EntityRelation::Neutral => 3,
        }
    }
}

/// One of the eight deterministic tactical directions.
#[derive(Clone, Copy, Debug, PartialEq, Eq, PartialOrd, Ord, Hash, Structural)]
pub enum PointDirection {
    East,
    NorthEast,
    North,
    NorthWest,
    West,
    SouthWest,
    South,
    SouthEast,
}

/// Relation attached to a public map landmark.
#[derive(Clone, Copy, Debug, PartialEq, Eq, PartialOrd, Ord, Hash, Structural)]
pub enum LandmarkRelation {
    Own,
    Enemy,
}

/// Provenance of one point candidate.
#[derive(Clone, Copy, Debug, PartialEq, Eq, Hash, Structural)]
pub enum PointSource {
    Tactical { direction: PointDirection, radius: i32 },
    StaticTree,
    PlantedTree,
    BuildingLanding(UnitKind),
    Fountain(LandmarkRelation),
    Tower(LandmarkRelation),
    PredictedHero(EntityRelation),
    PredictedCreep(EntityRelation),
}

/// Deterministic model-visible point candidate.
#[derive(Clone, Copy, Debug, PartialEq, Eq, Hash, Structural)]
pub struct PointCandidate {
    /// Candidate position clamped to the terrain grid.
    pub position: Vec2,
    /// Candidate provenance used by tree and building target masks.
    pub source: PointSource,
    /// Whether public terrain and candidate provenance permit standing here.
    pub walkable: bool,
    /// Whether a currently standing static or planted tree occupies this point.
    pub standing_tree: bool,
    /// Whether this point is a landing candidate near a visible allied structure.
    pub allied_building: bool,
}

/// Visible entity metadata.
#[derive(Debug)]
pub struct EntityCandidate {
    pub unit: UnitView,
    /// Relation to this seat.
    pub relation: EntityRelation,
}

impl EntityCandidate {
    /// Handle of the candidate.
    pub fn id(&self) -> (r: EntityId)
        ensures
            r == self.unit.id,
    {
        self.unit.id
    }
}

/// Visible ground-item candidate.
#[derive(Clone, Copy, Debug, PartialEq, Eq, Hash)]
pub struct LootCandidate {
    pub id: EntityId,
    /// Current visible position.
    pub position: Vec2,
    /// Item carried by this ground entity.
    pub item: ItemId,
    /// Current charge count, absent for items without charges.
    pub charges: Option<u8>,
}

/// One bounded shop output in stable item-id order.
#[derive(Clone, Copy, Debug, PartialEq, Eq, Hash, Structural)]
pub struct ShopCandidate {
    /// Item sent in a decoded buy order.
    pub item: ItemId,
    /// Full purchase cost from match metadata.
    pub cost: i32,
}

/// Boolean mask for all stable top-level kinds.
#[derive(Clone, Copy, Debug, PartialEq, Eq)]
pub struct KindMask(pub [bool; ACTION_KIND_COUNT]);

impl KindMask {
    /// Whether the action family has at least one valid full action.
    pub fn allows(&self, kind: ActionKind) -> (r: bool)
        ensures
            r == self.0@[kind.index_spec()],
    {
        self.0[kind.index()]
    }

    /// Fixed model-head representation in stable kind order.
    pub fn as_array(&self) -> (r: &[bool; ACTION_KIND_COUNT])
        ensures
            *r == self.0,
    {
        &self.0
    }
}

/// Boolean controlled-unit mask in hero, courier order.
#[derive(Clone, Copy, Debug, PartialEq, Eq)]
pub struct ControlledUnitMask(pub [bool; 2]);

impl ControlledUnitMask {
    /// Whether a controlled unit has at least one valid continuation.
    pub fn allows(&self, unit: ControlledUnit) -> (r: bool)
        ensures
            r == self.0@[unit.index_spec()],
    {
        self.0[unit.index()]
    }

    /// Fixed model-head representation in hero, courier order.
    pub fn as_array(&self) -> (r: &[bool; 2])
        ensures
            *r == self.0,
    {
        &self.0
    }
}

/// Conditional target mask for an ability or active item slot.
#[derive(Debug)]
pub struct TargetMask {
    pub none: bool,
    pub entities: Vec<bool>,
    pub points: Vec<bool>,
}

impl TargetMask {
    /// Whether a typed target is valid for this slot.
    pub open spec fn permits(self, target: ActionTarget) -> bool {
        match target {
            ActionTarget::Untargeted => self.none,
            ActionTarget::Entity(index) => entry(self.entities@, index.0 as int),
            ActionTarget::Point(index) => entry(self.points@, index.0 as int),
        }
    }

    /// Whether some typed target is valid for this slot.
    pub open spec fn open(self) -> bool {
        self.none || any_set(self.entities@) || any_set(self.points@)
    }

    /// Whether the no-target form is valid.
    pub fn allows_none(&self) -> (r: bool)
        ensures
            r == self.none,
    {
        self.none
    }

    /// Entity pointer mask in current candidate order.
    pub fn entities(&self) -> (r: &[bool])
        ensures
            r@ == self.entities@,
    {
        self.entities.as_slice()
    }

    /// Point pointer mask in current candidate order.
    pub fn points(&self) -> (r: &[bool])
        ensures
            r@ == self.points@,
    {
        self.points.as_slice()
    }

    /// Whether a typed target is valid for this slot.
    pub fn allows(&self, target: ActionTarget) -> (r: bool)
        ensures
            r == self.permits(target),
    {
        match target {
            ActionTarget::Untargeted => self.none,
            ActionTarget::Entity(index) => crate::search::mask_at(
                self.entities.as_slice(),
                index.0,
            ),
            ActionTarget::Point(index) => crate::search::mask_at(self.points.as_slice(), index.0),
        }
    }

    /// Whether some typed target is valid for this slot.
    pub fn any(&self) -> (r: bool)
        ensures
            r == self.open(),
    {
        self.none || crate::search::any_true(self.entities.as_slice()) || crate::search::any_true(
            self.points.as_slice(),
        )
    }
}

/// A slot has an open target exactly when some typed target is valid for it.
pub proof fn open_target_mask_permits_something(mask: TargetMask)
    ensures
        mask.open() <==> exists|target: ActionTarget| mask.permits(target),
{
    if mask.none {
        assert(mask.permits(ActionTarget::Untargeted));
    }
    if any_set(mask.entities@) {
        let i = choose|i: int| 0 <= i < mask.entities@.len() && #[trigger] mask.entities@[i];
        assert(mask.entities.len() == mask.entities@.len());
        assert(mask.permits(ActionTarget::Entity(EntityIndex(i as usize))));
    }
    if any_set(mask.points@) {
        let i = choose|i: int| 0 <= i < mask.points@.len() && #[trigger] mask.points@[i];
        assert(mask.points.len() == mask.points@.len());
        assert(mask.permits(ActionTarget::Point(PointIndex(i as usize))));
    }
}

/// A decoded order paired with the wire controlled-unit selector.
#[derive(Clone, Copy, Debug, PartialEq, Eq, Hash)]
pub struct IssuedOrder {
    /// `None` selects the own hero; `Some` selects the current courier.
    pub unit: Option<EntityId>,
    /// Exact wire order built only from current candidates.
    pub order: Order,
}

/// Construction or decoding failure for the structured action space.
#[derive(Clone, Debug, PartialEq, Eq)]
pub enum ActionError {
    SnapshotRequired,
    Arithmetic(&'static str),
    InvalidSchema(&'static str),
    CandidateIndex { field: &'static str, index: usize, count: usize },
    NotAllowed(ActionKind),
}


impl ActionKind {
    pub open spec fn name_spec(self) -> &'static str {
        match self {
            ActionKind::Continue => "Continue",
            ActionKind::Stop => "Stop",
            ActionKind::MovePoint => "MovePoint",
            ActionKind::FollowUnit => "FollowUnit",
            ActionKind::Hold => "Hold",
            ActionKind::AttackMovePoint => "AttackMovePoint",
            ActionKind::AttackUnit => "AttackUnit",
            ActionKind::Cast => "Cast",
            ActionKind::Use => "Use",
            ActionKind::PutPoint => "PutPoint",
            ActionKind::PutUnit => "PutUnit",
            ActionKind::Take => "Take",
            ActionKind::Buy => "Buy",
            ActionKind::Sell => "Sell",
            ActionKind::Swap => "Swap",
            ActionKind::Learn => "Learn",
        }
    }

    /// Name of the kind as it is declared.
    pub fn name(self) -> (r: &'static str)
        ensures
            r == self.name_spec(),
    {
        match self {
            ActionKind::Continue => "Continue",
            ActionKind::Stop => "Stop",
            ActionKind::MovePoint => "MovePoint",
            ActionKind::FollowUnit => "FollowUnit",
            ActionKind::Hold => "Hold",
            ActionKind::AttackMovePoint => "AttackMovePoint",
            ActionKind::AttackUnit => "AttackUnit",
            ActionKind::Cast => "Cast",
            ActionKind::Use => "Use",
            ActionKind::PutPoint => "PutPoint",
            ActionKind::PutUnit => "PutUnit",
            ActionKind::Take => "Take",
            ActionKind::Buy => "Buy",
            ActionKind::Sell => "Sell",
            ActionKind::Swap => "Swap",
            ActionKind::Learn => "Learn",
        }
    }
}

impl ActionError {
    /// Text of the failure.
    pub open spec fn message_spec(self) -> Seq<char> {
        match self {
            ActionError::SnapshotRequired => "action space requires a validated snapshot"@,
            ActionError::Arithmetic(field) => "action space arithmetic overflow in "@ + field@,
            ActionError::InvalidSchema(field) => "action space received invalid wire schema in "@
                + field@,
            ActionError::CandidateIndex { field, index, count } => field@ + " index "@ + decimal(
                index as nat,
            ) + " is outside candidate count "@ + decimal(count as nat),
            ActionError::NotAllowed(kind) => "action "@ + kind.name_spec()@
                + " is masked by the current action space"@,
        }
    }

    /// Text of the failure.
    pub fn message(&self) -> (r: String)
        ensures
            r@ == self.message_spec(),
    {
        match self {
            ActionError::SnapshotRequired => owned("action space requires a validated snapshot"),
            ActionError::Arithmetic(field) => with_text(
                owned("action space arithmetic overflow in "),
                field,
            ),
            ActionError::InvalidSchema(field) => with_text(
                owned("action space received invalid wire schema in "),
                field,
            ),
            ActionError::CandidateIndex { field, index, count } => with_decimal(
                with_text(
                    with_decimal(with_text(owned(field), " index "), *index as u64),
                    " is outside candidate count ",
                ),
                *count as u64,
            ),
            ActionError::NotAllowed(kind) => with_text(
                with_text(owned("action "), kind.name()),
                " is masked by the current action space",
            ),
        }
    }
}

} // verus!
