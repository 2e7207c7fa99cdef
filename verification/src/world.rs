//! Plain values that one seat observes: fixed-point geometry, units, items, orders.
use vstd::prelude::*;

verus! {

/// Raw fixed-point units in one whole world unit.
pub const FIXED_ONE_RAW: i32 = 65_536;
/// Largest raw fixed-point value.
pub const FIXED_MAX_RAW: i32 = 0x7fff_ffff;
/// Largest whole world unit a fixed-point number can hold.
pub const FIXED_MAX_INT: i32 = 32_767;

/// Fixed-point number with sixteen fractional bits.
#[derive(Clone, Copy, Debug, PartialEq, Eq, PartialOrd, Ord, Hash, Structural)]
pub struct Fixed {
    pub raw: i32,
}

impl Fixed {
    /// Whole world units as a fixed-point number.
    pub fn from_int(value: i32) -> (r: Fixed)
        requires
            -32_768 <= value <= 32_767,
        ensures
            r.raw == value * 65_536,
    {
        Fixed { raw: value * FIXED_ONE_RAW }
    }

    /// Whole part of a value that is not negative.
    pub fn to_int(self) -> (r: i32)
        requires
            self.raw >= 0,
        ensures
            r == self.raw as int / 65_536,
    {
        self.raw / FIXED_ONE_RAW
    }

    /// Square of the raw value.
    pub fn squared_raw(self) -> (r: i64)
        ensures
            r == square(self.raw as int),
    {
        proof {
            lemma_square_bound(self.raw as int);
        }
        self.raw as i64 * self.raw as i64
    }
}

/// Product of a number with itself.
pub open spec fn square(value: int) -> int {
    value * value
}

pub proof fn lemma_square_bound(value: int)
    requires
        -0x8000_0000 <= value <= 0x8000_0000,
    ensures
        0 <= square(value) <= 0x4000_0000_0000_0000,
{
    assert(0 <= value * value <= 0x4000_0000_0000_0000) by (nonlinear_arith)
        requires
            -0x8000_0000 <= value <= 0x8000_0000,
    ;
}

/// Position or offset on the map.
#[derive(Clone, Copy, Debug, PartialEq, Eq, PartialOrd, Ord, Hash, Structural)]
pub struct Vec2 {
    pub x: Fixed,
    pub y: Fixed,
}

impl Vec2 {
    /// Whether neither coordinate is negative, as on every validated map position.
    pub open spec fn on_map(self) -> bool {
        self.x.raw >= 0 && self.y.raw >= 0
    }

    /// Squared raw distance between two positions.
    pub open spec fn distance2(self, other: Vec2) -> int {
        square(self.x.raw - other.x.raw) + square(self.y.raw - other.y.raw)
    }

    pub fn new(x: i32, y: i32) -> (r: Vec2)
        ensures
            r.x.raw == x,
            r.y.raw == y,
    {
        Vec2 { x: Fixed { raw: x }, y: Fixed { raw: y } }
    }

    pub fn from_ints(x: i32, y: i32) -> (r: Vec2)
        requires
            -32_768 <= x <= 32_767,
            -32_768 <= y <= 32_767,
        ensures
            r.x.raw == x * 65_536,
            r.y.raw == y * 65_536,
    {
        Vec2 { x: Fixed::from_int(x), y: Fixed::from_int(y) }
    }

    pub fn is_zero(self) -> (r: bool)
        ensures
            r == (self.x.raw == 0 && self.y.raw == 0),
    {
        self.x.raw == 0 && self.y.raw == 0
    }

    /// Squared raw distance between two map positions.
    pub fn distance_squared(self, other: Vec2) -> (r: i64)
        requires
            self.on_map(),
            other.on_map(),
        ensures
            r == self.distance2(other),
            r >= 0,
    {
        proof {
            lemma_map_square_bound(self.x.raw - other.x.raw);
            lemma_map_square_bound(self.y.raw - other.y.raw);
        }
        let dx: i64 = self.x.raw as i64 - other.x.raw as i64;
        let dy: i64 = self.y.raw as i64 - other.y.raw as i64;
        dx * dx + dy * dy
    }

    /// Squared raw distance between two positions anywhere.
    pub fn wide_distance(self, other: Vec2) -> (r: i128)
        ensures
            r == self.distance2(other),
            r >= 0,
    {
        let dx: i128 = self.x.raw as i128 - other.x.raw as i128;
        let dy: i128 = self.y.raw as i128 - other.y.raw as i128;
        proof {
            lemma_wide_square_bound(dx as int);
            lemma_wide_square_bound(dy as int);
        }
        dx * dx + dy * dy
    }

    /// Whether another map position lies inside a closed circle around this one.
    pub fn within(self, other: Vec2, radius: Fixed) -> (r: bool)
        requires
            self.on_map(),
            other.on_map(),
        ensures
            r == (self.distance2(other) <= square(radius.raw as int)),
    {
        self.distance_squared(other) <= radius.squared_raw()
    }
}

proof fn lemma_wide_square_bound(delta: int)
    requires
        -0x1_0000_0000 <= delta <= 0x1_0000_0000,
    ensures
        0 <= square(delta) <= 0x1_0000_0000_0000_0000,
{
    assert(0 <= delta * delta <= 0x1_0000_0000_0000_0000) by (nonlinear_arith)
        requires
            -0x1_0000_0000 <= delta <= 0x1_0000_0000,
    ;
}

pub proof fn lemma_map_square_bound(delta: int)
    requires
        -0x7fff_ffff <= delta <= 0x7fff_ffff,
    ensures
        0 <= square(delta) <= 0x3fff_ffff_0000_0001,
{
    assert(0 <= delta * delta <= 0x3fff_ffff_0000_0001) by (nonlinear_arith)
        requires
            -0x7fff_ffff <= delta <= 0x7fff_ffff,
    ;
}

/// Opaque handle of one entity.
#[derive(Clone, Copy, Debug, PartialEq, Eq, PartialOrd, Ord, Hash, Structural)]
pub struct EntityId(pub u64);

#[derive(Clone, Copy, Debug, PartialEq, Eq, PartialOrd, Ord, Hash, Structural)]
pub struct ItemId(pub u16);

#[derive(Clone, Copy, Debug, PartialEq, Eq, PartialOrd, Ord, Hash, Structural)]
pub struct AbilityId(pub u16);

#[derive(Clone, Copy, Debug, PartialEq, Eq, PartialOrd, Ord, Hash, Structural)]
pub struct AbilitySlot(pub u8);

#[derive(Clone, Copy, Debug, PartialEq, Eq, PartialOrd, Ord, Hash, Structural)]
pub struct ItemSlot(pub u8);

#[derive(Clone, Copy, Debug, PartialEq, Eq, PartialOrd, Ord, Hash, Structural)]
pub struct PlayerSlot(pub u8);

#[derive(Clone, Copy, Debug, PartialEq, Eq, PartialOrd, Ord, Hash, Structural)]
pub struct MapId(pub u16);

#[derive(Clone, Copy, Debug, PartialEq, Eq, PartialOrd, Ord, Hash, Structural)]
pub struct HeroId(pub u16);

#[derive(Clone, Copy, Debug, PartialEq, Eq, PartialOrd, Ord, Hash, Structural)]
pub enum Team {
    Radiant,
    Dire,
    Neutral,
}

impl Team {
    pub open spec fn opposing_spec(self) -> Team {
        match self {
            Team::Radiant => Team::Dire,
            Team::Dire => Team::Radiant,
            Team::Neutral => Team::Neutral,
        }
    }

    /// Side that plays against this one.
    pub fn opposing(self) -> (r: Team)
        ensures
            r == self.opposing_spec(),
    {
        match self {
            Team::Radiant => Team::Dire,
            Team::Dire => Team::Radiant,
            Team::Neutral => Team::Neutral,
        }
    }
}

#[derive(Clone, Copy, Debug, PartialEq, Eq, PartialOrd, Ord, Hash, Structural)]
pub enum UnitKind {
    Hero,
    CreepMelee,
    CreepFlagbearer,
    CreepRanged,
    CreepSiege,
    CreepNeutral,
    Roshan,
    Tower,
    Ancient,
    Fountain,
    Ward,
    Courier,
}

impl UnitKind {
    /// Position of a kind in declaration order.
    pub open spec fn rank_spec(self) -> int {
        match self {
            UnitKind::Hero => 0,
            UnitKind::CreepMelee => 1,
            UnitKind::CreepFlagbearer => 2,
            UnitKind::CreepRanged => 3,
            UnitKind::CreepSiege => 4,
            UnitKind::CreepNeutral => 5,
            UnitKind::Roshan => 6,
            UnitKind::Tower => 7,
            UnitKind::Ancient => 8,
            UnitKind::Fountain => 9,
            UnitKind::Ward => 10,
            UnitKind::Courier => 11,
        }
    }

    pub fn rank(self) -> (r: u32)
        ensures
            r == self.rank_spec(),
            r < 12,
    {
        match self {
            UnitKind::Hero => 0,
            UnitKind::CreepMelee => 1,
            UnitKind::CreepFlagbearer => 2,
            UnitKind::CreepRanged => 3,
            UnitKind::CreepSiege => 4,
            UnitKind::CreepNeutral => 5,
            UnitKind::Roshan => 6,
            UnitKind::Tower => 7,
            UnitKind::Ancient => 8,
            UnitKind::Fountain => 9,
            UnitKind::Ward => 10,
            UnitKind::Courier => 11,
        }
    }

    pub open spec fn structure(self) -> bool {
        self == UnitKind::Tower || self == UnitKind::Ancient || self == UnitKind::Fountain
    }

    /// Whether the kind is an immobile map structure.
    pub fn is_structure(self) -> (r: bool)
        ensures
            r == self.structure(),
    {
        self == UnitKind::Tower || self == UnitKind::Ancient || self == UnitKind::Fountain
    }

    pub open spec fn creep(self) -> bool {
        ||| self == UnitKind::CreepMelee
        ||| self == UnitKind::CreepFlagbearer
        ||| self == UnitKind::CreepRanged
        ||| self == UnitKind::CreepSiege
        ||| self == UnitKind::CreepNeutral
    }

    /// Whether the kind is a lane or neutral creep.
    pub fn is_creep(self) -> (r: bool)
        ensures
            r == self.creep(),
    {
        self == UnitKind::CreepMelee || self == UnitKind::CreepFlagbearer || self
            == UnitKind::CreepRanged || self == UnitKind::CreepSiege || self
            == UnitKind::CreepNeutral
    }
}

/// What an ability or item is aimed at.
#[derive(Clone, Copy, Debug, PartialEq, Eq, PartialOrd, Ord, Hash, Structural)]
pub enum Aim {
    Own,
    Point,
    Unit,
    Tree,
    Building,
}

#[derive(Clone, Copy, Debug, PartialEq, Eq, PartialOrd, Ord, Hash, Structural)]
pub enum Attribute {
    Strength,
    Agility,
    Intelligence,
}

#[derive(Clone, Copy, Debug, PartialEq, Eq, PartialOrd, Ord, Hash, Structural)]
pub enum DamageKind {
    Physical,
    Magical,
    Pure,
}

impl DamageKind {
    pub open spec fn rank_spec(self) -> int {
        match self {
            DamageKind::Physical => 0,
            DamageKind::Magical => 1,
            DamageKind::Pure => 2,
        }
    }

    pub fn rank(self) -> (r: u32)
        ensures
            r == self.rank_spec(),
    {
        match self {
            DamageKind::Physical => 0,
            DamageKind::Magical => 1,
            DamageKind::Pure => 2,
        }
    }
}

/// Bit set of status effects on a unit.
#[derive(Clone, Copy, Debug, PartialEq, Eq, PartialOrd, Ord, Hash, Structural)]
pub struct StatusFlags {
    pub bits: u16,
}

pub const STATUS_STUNNED: u16 = 1;
pub const STATUS_SILENCED: u16 = 2;
pub const STATUS_ROOTED: u16 = 4;
pub const STATUS_DISARMED: u16 = 8;
pub const STATUS_SLOWED: u16 = 16;
pub const STATUS_DOT: u16 = 32;
pub const STATUS_INVISIBLE: u16 = 64;
pub const STATUS_MAGIC_IMMUNE: u16 = 128;
pub const STATUS_DEAD: u16 = 256;

impl StatusFlags {
    pub open spec fn has(self, status: u16) -> bool {
        self.bits & status != 0
    }

    /// Whether any bit of a status is set.
    pub fn contains(self, status: u16) -> (r: bool)
        ensures
            r == self.has(status),
    {
        self.bits & status != 0
    }
}

/// Facing in 65,536ths of a turn.
#[derive(Clone, Copy, Debug, PartialEq, Eq, PartialOrd, Ord, Hash, Structural)]
pub struct Angle {
    pub brads: u16,
}

#[derive(Clone, Copy, Debug, PartialEq, Eq, Structural)]
pub struct AbilityView {
    pub id: AbilityId,
    pub level: u8,
    pub max_level: u8,
    pub cooldown_left: u32,
    pub mana_cost: i32,
    pub range: i32,
    pub aim: Aim,
    pub passive: bool,
    pub on: bool,
    pub can_level: bool,
}

#[derive(Clone, Copy, Debug, PartialEq, Eq)]
pub struct ItemView {
    pub id: ItemId,
    pub charges: Option<u8>,
    pub cooldown_left: u32,
    pub aim: Option<Aim>,
    pub range: i32,
    pub mana_cost: i32,
    pub mode: Option<Attribute>,
    pub for_sale: bool,
}

/// One visible unit.
#[derive(Debug)]
pub struct UnitView {
    pub id: EntityId,
    pub kind: UnitKind,
    pub team: Team,
    pub owner: Option<PlayerSlot>,
    pub pos: Vec2,
    pub facing: Angle,
    pub radius: Fixed,
    pub hp: i32,
    pub max_hp: i32,
    pub mana: i32,
    pub max_mana: i32,
    pub move_speed: Fixed,
    pub attack_damage: i32,
    pub attack_range: Fixed,
    pub attack_interval: u32,
    pub attack_speed: i32,
    pub armor: Fixed,
    pub magic_resist: Fixed,
    pub vision_radius: Fixed,
    pub true_sight_radius: Fixed,
    pub statuses: StatusFlags,
    pub abilities: Vec<AbilityView>,
    pub items: Vec<Option<ItemView>>,
}

impl UnitView {
    /// Same observed values, abilities, and item slots.
    pub open spec fn same(self, other: UnitView) -> bool {
        &&& self.id == other.id
        &&& self.kind == other.kind
        &&& self.team == other.team
        &&& self.owner == other.owner
        &&& self.pos == other.pos
        &&& self.facing == other.facing
        &&& self.radius == other.radius
        &&& self.hp == other.hp
        &&& self.max_hp == other.max_hp
        &&& self.mana == other.mana
        &&& self.max_mana == other.max_mana
        &&& self.move_speed == other.move_speed
        &&& self.attack_damage == other.attack_damage
        &&& self.attack_range == other.attack_range
        &&& self.attack_interval == other.attack_interval
        &&& self.attack_speed == other.attack_speed
        &&& self.armor == other.armor
        &&& self.magic_resist == other.magic_resist
        &&& self.vision_radius == other.vision_radius
        &&& self.true_sight_radius == other.true_sight_radius
        &&& self.statuses == other.statuses
        &&& self.abilities@ == other.abilities@
        &&& self.items@ == other.items@
    }

    /// Whether the unit is alive on the map.
    pub open spec fn alive_spec(self) -> bool {
        self.hp > 0 && !self.statuses.has(STATUS_DEAD)
    }

    pub fn is_alive(&self) -> (r: bool)
        ensures
            r == self.alive_spec(),
    {
        self.hp > 0 && !self.statuses.contains(STATUS_DEAD)
    }

    /// Owned copy of an observed unit.
    pub fn duplicate(&self) -> (r: UnitView)
        ensures
            r.same(*self),
    {
        UnitView {
            id: self.id,
            kind: self.kind,
            team: self.team,
            owner: self.owner,
            pos: self.pos,
            facing: self.facing,
            radius: self.radius,
            hp: self.hp,
            max_hp: self.max_hp,
            mana: self.mana,
            max_mana: self.max_mana,
            move_speed: self.move_speed,
            attack_damage: self.attack_damage,
            attack_range: self.attack_range,
            attack_interval: self.attack_interval,
            attack_speed: self.attack_speed,
            armor: self.armor,
            magic_resist: self.magic_resist,
            vision_radius: self.vision_radius,
            true_sight_radius: self.true_sight_radius,
            statuses: self.statuses,
            abilities: copy_vec(&self.abilities),
            items: copy_vec(&self.items),
        }
    }
}

/// Element-by-element copy of a list of plain values.
pub fn copy_vec<T: Copy>(source: &Vec<T>) -> (r: Vec<T>)
    ensures
        r@ == source@,
{
    let mut output: Vec<T> = Vec::new();
    let mut index: usize = 0;
    while index < source.len()
        invariant
            index <= source@.len(),
            output@ == source@.subrange(0, index as int),
        decreases source@.len() - index,
    {
        output.push(source[index]);
        index += 1;
        assert(source@.subrange(0, index as int) =~= source@.subrange(0, index - 1).push(
            source@[index - 1],
        ));
    }
    assert(source@.subrange(0, source@.len() as int) =~= source@);
    output
}

/// One item the shop sells, with the items it is assembled from.
#[derive(Debug)]
pub struct ShopEntry {
    pub id: ItemId,
    pub cost: i32,
    pub components: Vec<ItemId>,
}

#[derive(Clone, Copy, Debug, PartialEq, Eq)]
pub struct LootView {
    pub id: EntityId,
    pub pos: Vec2,
    pub item: ItemId,
    pub charges: Option<u8>,
}

#[derive(Clone, Copy, Debug, PartialEq, Eq)]
pub struct ProjectileView {
    pub id: EntityId,
    pub team: Team,
    pub ability: Option<AbilityId>,
    pub pos: Vec2,
    pub facing: Angle,
}

/// Abilities and items of a hero that has no body on the map.
#[derive(Debug)]
pub struct KitView {
    pub abilities: Vec<AbilityView>,
    pub items: Vec<Option<ItemView>>,
}

/// One scoreboard row; gold, stash, and kit are known for the own player only.
#[derive(Debug)]
pub struct PlayerView {
    pub slot: PlayerSlot,
    pub team: Team,
    pub unit: Option<EntityId>,
    pub respawn_left: u32,
    pub level: u8,
    pub xp: i32,
    pub kills: u16,
    pub deaths: u16,
    pub assists: u16,
    pub last_hits: u16,
    pub denies: u16,
    pub gold: Option<i32>,
    pub stash: Option<Vec<Option<ItemView>>>,
    pub kit: Option<KitView>,
}

/// Everything visible at one tick.
#[derive(Debug)]
pub struct WorldView {
    /// Side whose sight the view shows.
    pub viewer: Option<Team>,
    pub tick: u32,
    pub units: Vec<UnitView>,
    pub players: Vec<PlayerView>,
    pub loot: Vec<LootView>,
    pub projectiles: Vec<ProjectileView>,
    pub felled_trees: Vec<u32>,
    pub planted_trees: Vec<Vec2>,
}

/// Target of an order.
#[derive(Clone, Copy, Debug, PartialEq, Eq, Hash, Structural)]
pub enum Target {
    Untargeted,
    Pos(Vec2),
    Unit(EntityId),
}

/// Order sent for one controlled unit.
#[allow(inconsistent_fields)]
#[derive(Clone, Copy, Debug, PartialEq, Eq, Hash, Structural)]
pub enum Order {
    Move { target: Target },
    Attack { target: Target },
    Cast { slot: AbilitySlot, target: Target },
    Use { slot: ItemSlot, target: Target },
    Put { slot: ItemSlot, target: Target },
    Take { target: Target },
    Buy { item: ItemId },
    Sell { slot: ItemSlot },
    Swap { from: ItemSlot, to: ItemSlot },
    Learn { slot: AbilitySlot },
}

} // verus!
