//! Exact policy-input scalars: presence, categories, and clamped ratios of whole numbers.
use crate::action::{EntityRelation, LandmarkRelation, PointDirection};
use crate::candidates::{canonical_facing, canonical_facing_spec};
use crate::local_policy::{PolicyLane, PolicyRole};
use crate::world::{AbilityId, Aim, Angle, Attribute, ItemId, Team, UnitKind, Vec2};
use vstd::prelude::*;

verus! {

/// Largest category: the last ability outside the named range.
pub const MAX_CATEGORY: u32 = 65_547;

/// One policy-input scalar before it is rounded to single precision.
#[allow(inconsistent_fields)]
#[derive(Clone, Copy, Debug, PartialEq, Eq, Structural)]
pub enum Scalar {
    Zero,
    One,
    /// Positive whole number that names a category.
    Category(u32),
    /// Quotient between zero and one.
    Ratio { numerator: i64, denominator: i64 },
    /// Quotient between zero and one, stretched to lie between minus one and one.
    Signed { numerator: i64, denominator: i64 },
    /// Quotient between minus one and one.
    Direction { numerator: i64, denominator: i64 },
    /// Closest distance of a moving point to the origin in parts of the map extent.
    Approach { relative_x: i64, relative_y: i64, velocity_x: i64, velocity_y: i64, extent: i64 },
}

impl Scalar {
    /// Whether the scalar keeps the declared range of its sort.
    pub open spec fn bounded(self) -> bool {
        match self {
            Scalar::Zero => true,
            Scalar::One => true,
            Scalar::Category(index) => 1 <= index <= MAX_CATEGORY,
            Scalar::Ratio { numerator, denominator } => 0 <= numerator <= denominator && denominator
                > 0,
            Scalar::Signed { numerator, denominator } => 0 <= numerator <= denominator
                && denominator > 0,
            Scalar::Direction { numerator, denominator } => -denominator <= numerator <= denominator
                && denominator > 0,
            Scalar::Approach { extent, .. } => extent > 0,
        }
    }
}

/// Whether every scalar of a row keeps its range.
pub open spec fn row_bounded(row: Seq<Scalar>) -> bool {
    forall|i: int| 0 <= i < row.len() ==> (#[trigger] row[i]).bounded()
}

/// Nearest number inside a closed range.
pub open spec fn clamped(value: int, minimum: int, maximum: int) -> int {
    if value < minimum {
        minimum
    } else if value > maximum {
        maximum
    } else {
        value
    }
}

pub open spec fn larger(left: int, right: int) -> int {
    if left >= right {
        left
    } else {
        right
    }
}

pub open spec fn magnitude(value: int) -> int {
    if value < 0 {
        -value
    } else {
        value
    }
}

/// Position of a value inside a closed range.
pub open spec fn ratio_of(value: int, minimum: int, maximum: int) -> Scalar {
    Scalar::Ratio {
        numerator: (clamped(value, minimum, maximum) - minimum) as i64,
        denominator: (maximum - minimum) as i64,
    }
}

/// Position of a value inside the range between the two signs of a bound.
pub open spec fn signed_of(value: int, maximum: int) -> Scalar {
    Scalar::Signed {
        numerator: (clamped(value, -larger(magnitude(maximum), 1), larger(magnitude(maximum), 1))
            + larger(magnitude(maximum), 1)) as i64,
        denominator: (2 * larger(magnitude(maximum), 1)) as i64,
    }
}

pub open spec fn flag_of(value: bool) -> Scalar {
    if value {
        Scalar::One
    } else {
        Scalar::Zero
    }
}

pub open spec fn category_of(index: int) -> Scalar {
    Scalar::Category((index + 1) as u32)
}

/// Nearest number inside a closed range.
pub fn clamp(value: i64, minimum: i64, maximum: i64) -> (r: i64)
    requires
        minimum <= maximum,
    ensures
        r == clamped(value as int, minimum as int, maximum as int),
{
    if value < minimum {
        minimum
    } else if value > maximum {
        maximum
    } else {
        value
    }
}

/// Position of a value inside a closed range.
pub fn ratio(value: i64, minimum: i64, maximum: i64) -> (r: Scalar)
    requires
        minimum < maximum,
        maximum - minimum <= i64::MAX,
    ensures
        r == ratio_of(value as int, minimum as int, maximum as int),
        r.bounded(),
{
    Scalar::Ratio {
        numerator: clamp(value, minimum, maximum) - minimum,
        denominator: maximum - minimum,
    }
}

/// Position of a value inside the range between the two signs of a bound.
pub fn signed_ratio(value: i64, maximum: i64) -> (r: Scalar)
    requires
        -0x3fff_ffff_ffff_ffff <= maximum <= 0x3fff_ffff_ffff_ffff,
    ensures
        r == signed_of(value as int, maximum as int),
        r.bounded(),
{
    let size: i64 = if maximum < 0 {
        -maximum
    } else {
        maximum
    };
    let bound: i64 = if size < 1 {
        1
    } else {
        size
    };
    Scalar::Signed { numerator: clamp(value, -bound, bound) + bound, denominator: 2 * bound }
}

/// Part of a bound that a count fills.
pub open spec fn unit_of(value: int, maximum: int) -> Scalar {
    ratio_of(value, 0, larger(maximum, 1))
}

/// Part of a bound that a count fills.
pub fn unit_ratio(value: u32, maximum: u32) -> (r: Scalar)
    ensures
        r == unit_of(value as int, maximum as int),
        r.bounded(),
{
    let bound: u32 = if maximum < 1 {
        1
    } else {
        maximum
    };
    ratio(value as i64, 0, bound as i64)
}

/// Part of a bound that the length of a list fills.
pub fn count_ratio(count: usize, maximum: u32) -> (r: Scalar)
    requires
        maximum >= 1,
    ensures
        r == ratio_of(count as int, 0, maximum as int),
        r.bounded(),
{
    let value: u32 = if count > maximum as usize {
        maximum
    } else {
        count as u32
    };
    ratio(value as i64, 0, maximum as i64)
}

pub fn bool_feature(value: bool) -> (r: Scalar)
    ensures
        r == flag_of(value),
        r.bounded(),
{
    if value {
        Scalar::One
    } else {
        Scalar::Zero
    }
}

pub fn category_token(index: usize) -> (r: Scalar)
    requires
        index < MAX_CATEGORY,
    ensures
        r == category_of(index as int),
        r.bounded(),
{
    Scalar::Category((index + 1) as u32)
}

/// Part of a maximum that a value fills; zero without a maximum.
pub open spec fn fraction_of(value: int, maximum: int) -> Scalar {
    if maximum <= 0 {
        Scalar::Zero
    } else {
        ratio_of(value, 0, maximum)
    }
}

pub fn safe_fraction(value: i32, maximum: i32) -> (r: Scalar)
    ensures
        r == fraction_of(value as int, maximum as int),
        r.bounded(),
{
    if maximum <= 0 {
        return Scalar::Zero;
    }
    ratio(value as i64, 0, maximum as i64)
}

/// Part of the map that a coordinate lies behind.
pub open spec fn coordinate_of(raw: int, extent: int) -> Scalar {
    ratio_of(raw, 0, larger(extent - 1, 1))
}

pub fn coordinate_ratio(raw: i32, extent_raw: i64) -> (r: Scalar)
    requires
        extent_raw > 0,
    ensures
        r == coordinate_of(raw as int, extent_raw as int),
        r.bounded(),
{
    let bound: i64 = if extent_raw - 1 < 1 {
        1
    } else {
        extent_raw - 1
    };
    ratio(raw as i64, 0, bound)
}

/// Part of a maximum that a raw distance fills.
pub fn raw_distance_ratio_i64(raw: i64, maximum: i64) -> (r: Scalar)
    requires
        maximum > 0,
    ensures
        r == ratio_of(raw as int, 0, maximum as int),
        r.bounded(),
{
    ratio(raw, 0, maximum)
}

/// Part of a maximum that a raw distance fills.
pub fn raw_distance_ratio(raw: i32, maximum: i64) -> (r: Scalar)
    requires
        maximum > 0,
    ensures
        r == ratio_of(raw as int, 0, maximum as int),
        r.bounded(),
{
    raw_distance_ratio_i64(raw as i64, maximum)
}

/// Part of the squared map extent that a squared distance fills.
pub fn squared_distance_ratio(distance_squared: i64, extent_raw: i64) -> (r: Scalar)
    requires
        0 < extent_raw <= 0x8000_0000,
    ensures
        r == ratio_of(distance_squared as int, 0, extent_raw * extent_raw),
        r.bounded(),
{
    proof {
        assert(1 <= extent_raw * extent_raw <= 0x4000_0000_0000_0000) by (nonlinear_arith)
            requires
                0 < extent_raw <= 0x8000_0000,
        ;
    }
    ratio(distance_squared, 0, extent_raw * extent_raw)
}

/// Quotient of an offset by the larger axis distance.
pub open spec fn direction_of(delta: int, distance: int) -> Scalar {
    if distance > 0 {
        Scalar::Direction { numerator: delta as i64, denominator: distance as i64 }
    } else {
        Scalar::Zero
    }
}

pub fn direction_ratio(delta: i64, distance: i64) -> (r: Scalar)
    requires
        -distance <= delta <= distance,
    ensures
        r == direction_of(delta as int, distance as int),
        r.bounded(),
{
    if distance > 0 {
        Scalar::Direction { numerator: delta, denominator: distance }
    } else {
        Scalar::Zero
    }
}

/// Facing in parts of a turn as the Radiant side sees it.
pub open spec fn facing_of(team: Team, angle: Angle) -> Scalar {
    ratio_of(canonical_facing_spec(team, angle.brads) as int, 0, 65_535)
}

pub fn facing_feature(team: Team, angle: Angle) -> (r: Scalar)
    ensures
        r == facing_of(team, angle),
        r.bounded(),
{
    ratio(canonical_facing(team, angle.brads) as i64, 0, 65_535)
}

/// Progress of the time before the first wave.
pub open spec fn pregame_of(tick: int, pregame: int) -> Scalar {
    if pregame == 0 || tick >= pregame {
        Scalar::One
    } else {
        ratio_of(tick, 0, pregame)
    }
}

pub fn pregame_progress(tick: u32, pregame_ticks: u32) -> (r: Scalar)
    ensures
        r == pregame_of(tick as int, pregame_ticks as int),
        r.bounded(),
{
    if pregame_ticks == 0 || tick >= pregame_ticks {
        return Scalar::One;
    }
    ratio(tick as i64, 0, pregame_ticks as i64)
}

/// Progress inside the current period of a repeating event.
pub open spec fn phase_of(tick: int, pregame: int, tick_rate: int, seconds: int) -> Scalar {
    let period = larger(clamped(tick_rate * seconds, 0, u32::MAX as int), 1);
    ratio_of(larger(tick - pregame, 0) % period, 0, period)
}

pub fn periodic_phase(tick: u32, pregame: u32, tick_rate: u16, seconds: u32) -> (r: Scalar)
    ensures
        r == phase_of(tick as int, pregame as int, tick_rate as int, seconds as int),
        r.bounded(),
{
    proof {
        assert(0 <= tick_rate as u64 * seconds as u64 <= 0xffff * 0xffff_ffff) by (nonlinear_arith)
            requires
                0 <= tick_rate as u64 <= 0xffff,
                0 <= seconds as u64 <= 0xffff_ffff,
        ;
        assert(tick_rate as int * seconds as int == tick_rate as u64 * seconds as u64);
    }
    let product: u64 = tick_rate as u64 * seconds as u64;
    let limited: u32 = if product > 0xffff_ffff {
        0xffff_ffff
    } else {
        product as u32
    };
    let period: u32 = if limited < 1 {
        1
    } else {
        limited
    };
    let game_tick = tick.saturating_sub(pregame);
    ratio((game_tick % period) as i64, 0, period as i64)
}

/// Signed difference of two counters, each limited to the signed range.
pub open spec fn difference_of(left: u64, right: u64) -> int {
    clamped(
        clamped(left as int, 0, i64::MAX as int) - clamped(right as int, 0, i64::MAX as int),
        i64::MIN as int,
        i64::MAX as int,
    )
}

fn limited(value: u64) -> (r: i64)
    ensures
        r == clamped(value as int, 0, i64::MAX as int),
{
    if value > 0x7fff_ffff_ffff_ffff {
        0x7fff_ffff_ffff_ffff
    } else {
        value as i64
    }
}

pub fn difference(left: u64, right: u64) -> (r: i64)
    ensures
        r == difference_of(left, right),
{
    limited(left) - limited(right)
}

/// Sum of two numbers limited to the signed range.
pub open spec fn saturated_sum(left: int, right: int) -> int {
    clamped(left + right, i64::MIN as int, i64::MAX as int)
}

pub fn saturating_sum(left: i64, right: i64) -> (r: i64)
    ensures
        r == saturated_sum(left as int, right as int),
{
    match left.checked_add(right) {
        Some(sum) => sum,
        None => if left < 0 {
            i64::MIN
        } else {
            i64::MAX
        },
    }
}

/// Quotient rounded toward zero.
pub open spec fn truncated(value: int, divisor: int) -> int {
    if value >= 0 {
        value / divisor
    } else {
        -((-value) / divisor)
    }
}

pub fn truncated_quotient(value: i64, divisor: i64) -> (r: i64)
    requires
        divisor > 0,
        value > i64::MIN,
    ensures
        r == truncated(value as int, divisor as int),
        magnitude(r as int) <= magnitude(value as int),
{
    if value >= 0 {
        proof {
            assert(value as int / divisor as int <= value) by (nonlinear_arith)
                requires
                    value >= 0,
                    divisor > 0,
            ;
            assert(value as int / divisor as int >= 0) by (nonlinear_arith)
                requires
                    value >= 0,
                    divisor > 0,
            ;
        }
        value / divisor
    } else {
        let positive: i64 = -value;
        proof {
            assert(positive as int / divisor as int <= positive) by (nonlinear_arith)
                requires
                    positive >= 0,
                    divisor > 0,
            ;
            assert(positive as int / divisor as int >= 0) by (nonlinear_arith)
                requires
                    positive >= 0,
                    divisor > 0,
            ;
        }
        -(positive / divisor)
    }
}

/// Nearest raw fixed-point value.
pub open spec fn raw_of(raw: int) -> int {
    clamped(raw, i32::MIN as int, i32::MAX as int)
}

pub fn clamp_raw(raw: i64) -> (r: i32)
    ensures
        r == raw_of(raw as int),
{
    clamp(raw, -0x8000_0000, 0x7fff_ffff) as i32
}

/// Larger distance along one axis between two positions.
pub open spec fn axis_distance(left: Vec2, right: Vec2) -> int {
    larger(magnitude(left.x.raw - right.x.raw), magnitude(left.y.raw - right.y.raw))
}

pub fn maximum_axis_distance(left: Vec2, right: Vec2) -> (r: i64)
    ensures
        r == axis_distance(left, right),
        0 <= r <= 0xffff_ffff,
{
    let x: i64 = left.x.raw as i64 - right.x.raw as i64;
    let y: i64 = left.y.raw as i64 - right.y.raw as i64;
    larger_size(x, y)
}

/// Larger magnitude of two offsets.
pub fn larger_size(x: i64, y: i64) -> (r: i64)
    requires
        x > i64::MIN,
        y > i64::MIN,
    ensures
        r == larger(magnitude(x as int), magnitude(y as int)),
{
    let size_x: i64 = if x < 0 {
        -x
    } else {
        x
    };
    let size_y: i64 = if y < 0 {
        -y
    } else {
        y
    };
    if size_x >= size_y {
        size_x
    } else {
        size_y
    }
}

/// Relation of another side to the own one.
pub open spec fn team_relation_of(own: Team, other: Team) -> EntityRelation {
    if own == other {
        EntityRelation::Allied
    } else if own.opposing_spec() == other {
        EntityRelation::Enemy
    } else {
        EntityRelation::Neutral
    }
}

pub fn team_relation(own: Team, other: Team) -> (r: EntityRelation)
    ensures
        r == team_relation_of(own, other),
{
    if own == other {
        EntityRelation::Allied
    } else if own.opposing() == other {
        EntityRelation::Enemy
    } else {
        EntityRelation::Neutral
    }
}

/// Presence of one relation among the four.
pub open spec fn relation_flag_of(relation: EntityRelation, index: int) -> Scalar {
    flag_of(relation.rank_spec() == index)
}

pub fn relation_flag(relation: EntityRelation, index: usize) -> (r: Scalar)
    ensures
        r == relation_flag_of(relation, index as int),
        r.bounded(),
{
    bool_feature(relation.rank() == index)
}

pub open spec fn landmark_relation_of(relation: LandmarkRelation) -> EntityRelation {
    match relation {
        LandmarkRelation::Own => EntityRelation::Own,
        LandmarkRelation::Enemy => EntityRelation::Enemy,
    }
}

pub fn landmark_relation(relation: LandmarkRelation) -> (r: EntityRelation)
    ensures
        r == landmark_relation_of(relation),
{
    match relation {
        LandmarkRelation::Own => EntityRelation::Own,
        LandmarkRelation::Enemy => EntityRelation::Enemy,
    }
}

pub open spec fn direction_rank(direction: PointDirection) -> int {
    match direction {
        PointDirection::East => 0,
        PointDirection::NorthEast => 1,
        PointDirection::North => 2,
        PointDirection::NorthWest => 3,
        PointDirection::West => 4,
        PointDirection::SouthWest => 5,
        PointDirection::South => 6,
        PointDirection::SouthEast => 7,
    }
}

pub fn point_direction_index(direction: PointDirection) -> (r: usize)
    ensures
        r == direction_rank(direction),
        r < 8,
{
    match direction {
        PointDirection::East => 0,
        PointDirection::NorthEast => 1,
        PointDirection::North => 2,
        PointDirection::NorthWest => 3,
        PointDirection::West => 4,
        PointDirection::SouthWest => 5,
        PointDirection::South => 6,
        PointDirection::SouthEast => 7,
    }
}

pub open spec fn kind_category(kind: UnitKind) -> Scalar {
    category_of(kind.rank_spec())
}

pub fn unit_kind_token(kind: UnitKind) -> (r: Scalar)
    ensures
        r == kind_category(kind),
        r.bounded(),
{
    category_token(kind.rank() as usize)
}

/// Named abilities come first, every other one after them by number.
pub open spec fn ability_category(id: AbilityId) -> Scalar {
    if 8 <= id.0 <= 18 {
        category_of(id.0 - 8)
    } else {
        category_of(11 + id.0)
    }
}

pub fn ability_id_token(id: AbilityId) -> (r: Scalar)
    ensures
        r == ability_category(id),
        r.bounded(),
{
    if 8 <= id.0 && id.0 <= 18 {
        category_token(id.0 as usize - 8)
    } else {
        category_token(11 + id.0 as usize)
    }
}

pub open spec fn item_category(id: ItemId) -> Scalar {
    category_of(id.0 as int)
}

pub fn item_id_token(id: ItemId) -> (r: Scalar)
    ensures
        r == item_category(id),
        r.bounded(),
{
    category_token(id.0 as usize)
}

pub open spec fn aim_category(aim: Aim) -> Scalar {
    category_of(
        match aim {
            Aim::Own => 0,
            Aim::Point => 1,
            Aim::Unit => 2,
            Aim::Tree => 3,
            Aim::Building => 4,
        },
    )
}

pub fn aim_token(aim: Aim) -> (r: Scalar)
    ensures
        r == aim_category(aim),
        r.bounded(),
{
    let index: usize = match aim {
        Aim::Own => 0,
        Aim::Point => 1,
        Aim::Unit => 2,
        Aim::Tree => 3,
        Aim::Building => 4,
    };
    category_token(index)
}

pub open spec fn attribute_category(attribute: Attribute) -> Scalar {
    category_of(
        match attribute {
            Attribute::Strength => 0,
            Attribute::Agility => 1,
            Attribute::Intelligence => 2,
        },
    )
}

pub fn attribute_token(attribute: Attribute) -> (r: Scalar)
    ensures
        r == attribute_category(attribute),
        r.bounded(),
{
    let index: usize = match attribute {
        Attribute::Strength => 0,
        Attribute::Agility => 1,
        Attribute::Intelligence => 2,
    };
    category_token(index)
}

pub open spec fn role_rank(role: PolicyRole) -> int {
    match role {
        PolicyRole::Carry => 0,
        PolicyRole::Mid => 1,
        PolicyRole::Offlane => 2,
        PolicyRole::Support => 3,
        PolicyRole::HardSupport => 4,
    }
}

pub fn role_index(role: PolicyRole) -> (r: usize)
    ensures
        r == role_rank(role),
        r < 5,
{
    match role {
        PolicyRole::Carry => 0,
        PolicyRole::Mid => 1,
        PolicyRole::Offlane => 2,
        PolicyRole::Support => 3,
        PolicyRole::HardSupport => 4,
    }
}

pub open spec fn lane_rank(lane: PolicyLane) -> int {
    match lane {
        PolicyLane::Safe => 0,
        PolicyLane::Mid => 1,
        PolicyLane::Offlane => 2,
    }
}

pub fn lane_index(lane: PolicyLane) -> (r: usize)
    ensures
        r == lane_rank(lane),
        r < 3,
{
    match lane {
        PolicyLane::Safe => 0,
        PolicyLane::Mid => 1,
        PolicyLane::Offlane => 2,
    }
}

} // verus!
