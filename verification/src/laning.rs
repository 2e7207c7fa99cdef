//! Rule-based lane opponents: bounded views, lane geometry, and a scripted decision.
use crate::scalar::{truncated, truncated_quotient};
use crate::search::{first_index, lemma_first_from_found, lemma_first_from_none};
use crate::world::{
    square, AbilitySlot, AbilityView, Fixed, Order, PlayerView, Target, Team, UnitKind, UnitView,
    Vec2, WorldView,
};
use vstd::prelude::*;

verus! {

/// Maximum absolute simulation tick, including pregame, for the diagnostic cohort.
pub const LANING_TICKS: u32 = 6300;
/// Units in one laning view.
pub const LANING_UNITS: usize = 4096;
/// Raw offset of the push goal from the lane center.
pub const PUSH_OFFSET_RAW: i32 = 78_643_200;

/// Laning stream or view that breaks the rules of the cohort.
#[derive(Clone, Copy, Debug, PartialEq, Eq, Structural)]
pub enum LaningError {
    Seat,
    Limits,
    Geometry,
    SnapshotOrder,
    EventsOrder,
    EventBatch,
    HeroHistory,
}

impl LaningError {
    pub open spec fn message_spec(self) -> Seq<char> {
        match self {
            LaningError::Seat => "laning requires the assigned seat's fogged two-player view"@,
            LaningError::Limits => "laning view exceeds tick/unit/ability limits"@,
            LaningError::Geometry => "laning Map1 requires two initially public lane towers"@,
            LaningError::SnapshotOrder =>
                "laning Snapshot repeated, regressed, or preceded Events"@,
            LaningError::EventsOrder =>
                "laning Events must complete exactly one matching Snapshot"@,
            LaningError::EventBatch => "laning event batch exceeds 4096"@,
            LaningError::HeroHistory => "laning hero identity history exceeds 128"@,
        }
    }

    /// Text of the failure.
    pub fn message(self) -> (r: &'static str)
        ensures
            r@ == self.message_spec(),
    {
        match self {
            LaningError::Seat => "laning requires the assigned seat's fogged two-player view",
            LaningError::Limits => "laning view exceeds tick/unit/ability limits",
            LaningError::Geometry => "laning Map1 requires two initially public lane towers",
            LaningError::SnapshotOrder => "laning Snapshot repeated, regressed, or preceded Events",
            LaningError::EventsOrder => "laning Events must complete exactly one matching Snapshot",
            LaningError::EventBatch => "laning event batch exceeds 4096",
            LaningError::HeroHistory => "laning hero identity history exceeds 128",
        }
    }
}

/// Side of one of the two seats.
pub open spec fn seat_team(slot: int) -> Team {
    if slot == 0 {
        Team::Radiant
    } else {
        Team::Dire
    }
}

fn team_of(slot: usize) -> (r: Team)
    ensures
        r == seat_team(slot as int),
{
    if slot == 0 {
        Team::Radiant
    } else {
        Team::Dire
    }
}

/// Whether a scoreboard row is the expected one and hides what the viewer may not see.
pub open spec fn row_allowed(player: PlayerView, index: int, viewer: Option<Team>) -> bool {
    &&& player.slot.0 == index
    &&& player.team == seat_team(index)
    &&& Some(player.team) == viewer || (player.gold is None && player.stash is None && player.kit
        is None)
}

fn is_row_allowed(player: &PlayerView, index: usize, viewer: Team) -> (r: bool)
    ensures
        r == row_allowed(*player, index as int, Some(viewer)),
{
    player.slot.0 as usize == index && player.team == team_of(index) && (player.team == viewer || (
    player.gold.is_none() && player.stash.is_none() && player.kit.is_none()))
}

/// Whether a view is the fogged two-player view of a seat.
pub open spec fn seat_view(view: WorldView, slot: u8) -> bool {
    &&& view.viewer == Some(seat_team(slot as int))
    &&& view.players@.len() == 2
    &&& row_allowed(view.players@[0], 0, view.viewer)
    &&& row_allowed(view.players@[1], 1, view.viewer)
}

/// Whether a view keeps the tick, unit, and ability limits.
pub open spec fn within_limits(view: WorldView) -> bool {
    &&& 1 <= view.tick <= LANING_TICKS
    &&& view.units@.len() <= LANING_UNITS
    &&& forall|i: int| 0 <= i < view.units@.len() ==> (#[trigger] view.units@[i]).abilities@.len()
        <= 8
}

/// Why a view is refused.
pub open spec fn view_fault(view: WorldView, slot: u8) -> Option<LaningError> {
    if !seat_view(view, slot) {
        Some(LaningError::Seat)
    } else if !within_limits(view) {
        Some(LaningError::Limits)
    } else {
        None
    }
}

fn any_overlong(units: &Vec<UnitView>) -> (r: bool)
    ensures
        r == !(forall|i: int| 0 <= i < units@.len() ==> (#[trigger] units@[i]).abilities@.len()
            <= 8),
{
    let mut index: usize = 0;
    while index < units.len()
        invariant
            index <= units@.len(),
            forall|i: int| 0 <= i < index ==> (#[trigger] units@[i]).abilities@.len() <= 8,
        decreases units@.len() - index,
    {
        if units[index].abilities.len() > 8 {
            assert(units@[index as int].abilities@.len() > 8);
            return true;
        }
        index += 1;
    }
    false
}

/// Why a view is refused.
pub fn validate_view(view: &WorldView, slot: u8) -> (r: Option<LaningError>)
    ensures
        r == view_fault(*view, slot),
{
    let own = team_of(slot as usize);
    let viewer = match view.viewer {
        Some(viewer) => viewer,
        None => {
            return Some(LaningError::Seat);
        },
    };
    if viewer != own || view.players.len() != 2 || !is_row_allowed(&view.players[0], 0, viewer)
        || !is_row_allowed(&view.players[1], 1, viewer) {
        return Some(LaningError::Seat);
    }
    if view.tick < 1 || view.tick > LANING_TICKS || view.units.len() > LANING_UNITS || any_overlong(
        &view.units,
    ) {
        return Some(LaningError::Limits);
    }
    None
}

/// Index of the own hero's unit.
pub open spec fn hero_index(view: WorldView, slot: u8) -> Option<int> {
    match view.players@[slot as int].unit {
        Some(id) => first_index(
            view.units@,
            |unit: UnitView| unit.id == id && unit.kind == UnitKind::Hero,
        ),
        None => None,
    }
}

/// Index of the own hero's unit.
pub fn own_hero(view: &WorldView, slot: u8) -> (r: Option<usize>)
    requires
        slot < view.players@.len(),
    ensures
        match r {
            Some(index) => hero_index(*view, slot) == Some(index as int) && index
                < view.units@.len(),
            None => hero_index(*view, slot) is None,
        },
{
    let id = match view.players[slot as usize].unit {
        Some(id) => id,
        None => {
            return None;
        },
    };
    let ghost test = |unit: UnitView| unit.id == id && unit.kind == UnitKind::Hero;
    let mut index: usize = 0;
    while index < view.units.len()
        invariant
            index <= view.units@.len(),
            view.players@[slot as int].unit == Some(id),
            test == (|unit: UnitView| unit.id == id && unit.kind == UnitKind::Hero),
            forall|i: int| 0 <= i < index ==> !test(#[trigger] view.units@[i]),
        decreases view.units@.len() - index,
    {
        if view.units[index].id == id && view.units[index].kind == UnitKind::Hero {
            proof {
                lemma_first_from_found(view.units@, test, 0, index as int);
            }
            return Some(index);
        }
        index += 1;
    }
    proof {
        lemma_first_from_none(view.units@, test, 0);
    }
    None
}

/// Whether a unit is a living creep of a lane.
pub open spec fn is_lane_creep(unit: UnitView) -> bool {
    unit.hp > 0 && (unit.kind == UnitKind::CreepMelee || unit.kind == UnitKind::CreepRanged
        || unit.kind == UnitKind::CreepFlagbearer || unit.kind == UnitKind::CreepSiege)
}

/// Whether a unit is a living creep of a lane.
pub fn lane_creep(unit: &UnitView) -> (r: bool)
    ensures
        r == is_lane_creep(*unit),
{
    unit.hp > 0 && (unit.kind == UnitKind::CreepMelee || unit.kind == UnitKind::CreepRanged
        || unit.kind == UnitKind::CreepFlagbearer || unit.kind == UnitKind::CreepSiege)
}

/// Index of the first unit of a kind and side.
pub open spec fn first_of(units: Seq<UnitView>, kind: UnitKind, team: Team) -> Option<int> {
    first_index(units, |unit: UnitView| unit.kind == kind && unit.team == team)
}

/// Index of the first unit of a kind and side.
pub fn find_first(units: &Vec<UnitView>, kind: UnitKind, team: Team) -> (r: Option<usize>)
    ensures
        match r {
            Some(index) => first_of(units@, kind, team) == Some(index as int) && index
                < units@.len(),
            None => first_of(units@, kind, team) is None,
        },
{
    let ghost test = |unit: UnitView| unit.kind == kind && unit.team == team;
    let mut index: usize = 0;
    while index < units.len()
        invariant
            index <= units@.len(),
            test == (|unit: UnitView| unit.kind == kind && unit.team == team),
            forall|i: int| 0 <= i < index ==> !test(#[trigger] units@[i]),
        decreases units@.len() - index,
    {
        if units[index].kind == kind && units[index].team == team {
            proof {
                lemma_first_from_found(units@, test, 0, index as int);
            }
            return Some(index);
        }
        index += 1;
    }
    proof {
        lemma_first_from_none(units@, test, 0);
    }
    None
}

/// Middle between two raw coordinates, rounded toward zero.
pub open spec fn middle(left: Fixed, right: Fixed) -> Fixed {
    Fixed { raw: truncated(left.raw + right.raw, 2) as i32 }
}

fn middle_of(left: Fixed, right: Fixed) -> (r: Fixed)
    ensures
        r == middle(left, right),
{
    let sum: i64 = left.raw as i64 + right.raw as i64;
    let half = truncated_quotient(sum, 2);
    assert(-0x8000_0000 <= half <= 0x7fff_ffff);
    Fixed { raw: half as i32 }
}

/// Middle between the first towers of both sides.
pub open spec fn center_of(view: WorldView) -> Option<Vec2> {
    match (
        first_of(view.units@, UnitKind::Tower, Team::Radiant),
        first_of(view.units@, UnitKind::Tower, Team::Dire),
    ) {
        (Some(radiant), Some(dire)) => Some(
            Vec2 {
                x: middle(view.units@[radiant].pos.x, view.units@[dire].pos.x),
                y: middle(view.units@[radiant].pos.y, view.units@[dire].pos.y),
            },
        ),
        _ => None,
    }
}

/// Middle between the first towers of both sides.
pub fn lane_center(view: &WorldView) -> (r: Option<Vec2>)
    ensures
        r == center_of(*view),
{
    let radiant = find_first(&view.units, UnitKind::Tower, Team::Radiant);
    let dire = find_first(&view.units, UnitKind::Tower, Team::Dire);
    match (radiant, dire) {
        (Some(left), Some(right)) => {
            let left_pos = view.units[left].pos;
            let right_pos = view.units[right].pos;
            Some(
                Vec2 {
                    x: middle_of(left_pos.x, right_pos.x),
                    y: middle_of(left_pos.y, right_pos.y),
                },
            )
        },
        _ => None,
    }
}

/// Whether a percentage of a maximum exceeds a value.
pub open spec fn below_percent(value: i32, maximum: i32, percent: int) -> bool {
    value * 100 < maximum * percent
}

/// Whether a percentage of a maximum exceeds a value.
pub fn is_below_percent(value: i32, maximum: i32, percent: i64) -> (r: bool)
    requires
        0 <= percent <= 100,
    ensures
        r == below_percent(value, maximum, percent as int),
{
    proof {
        assert(-0x8000_0000 * 100 <= maximum * percent <= 0x8000_0000 * 100) by (nonlinear_arith)
            requires
                -0x8000_0000 <= maximum <= 0x7fff_ffff,
                0 <= percent <= 100,
        ;
    }
    value as i64 * 100 < maximum as i64 * percent
}

/// Whether a position lies inside a closed circle whose radius is raised by whole units.
pub open spec fn reaches(from: Vec2, to: Vec2, radius: int) -> bool {
    from.distance2(to) <= square(radius)
}

/// Whether a position lies inside a closed circle.
pub fn in_reach(from: Vec2, to: Vec2, radius: i64) -> (r: bool)
    ensures
        r == reaches(from, to, radius as int),
{
    let wide: i128 = radius as i128;
    proof {
        assert(0 <= wide * wide <= 0x4000_0000_0000_0000_0000_0000_0000_0000) by (nonlinear_arith)
            requires
                -0x8000_0000_0000_0000 <= wide <= 0x8000_0000_0000_0000,
        ;
    }
    from.wide_distance(to) <= wide * wide
}

/// Least key of a list with the first place that holds it; absent keys do not count.
pub open spec fn least(keys: Seq<Option<(i128, u64)>>) -> Option<int>
    decreases keys.len(),
{
    if keys.len() == 0 {
        None
    } else {
        let rest = least(keys.drop_last());
        match (keys.last(), rest) {
            (None, _) => rest,
            (Some(_), None) => Some(keys.len() - 1),
            (Some(key), Some(best)) => if key_below(key, keys[best]->0) {
                Some(keys.len() - 1)
            } else {
                rest
            },
        }
    }
}

/// Order of two keys.
pub open spec fn key_below(left: (i128, u64), right: (i128, u64)) -> bool {
    left.0 < right.0 || (left.0 == right.0 && left.1 < right.1)
}

/// First place of the least key of a list.
pub fn least_position(keys: &Vec<Option<(i128, u64)>>) -> (r: Option<usize>)
    ensures
        match r {
            Some(index) => least(keys@) == Some(index as int) && index < keys@.len()
                && keys@[index as int] is Some,
            None => least(keys@) is None,
        },
{
    let mut best: Option<usize> = None;
    let mut index: usize = 0;
    assert(keys@.take(0) =~= Seq::<Option<(i128, u64)>>::empty());
    while index < keys.len()
        invariant
            index <= keys@.len(),
            match best {
                Some(found) => least(keys@.take(index as int)) == Some(found as int) && found
                    < index && keys@[found as int] is Some,
                None => least(keys@.take(index as int)) is None,
            },
        decreases keys@.len() - index,
    {
        proof {
            assert(keys@.take(index + 1).drop_last() =~= keys@.take(index as int));
            assert(keys@.take(index + 1).last() == keys@[index as int]);
        }
        match keys[index] {
            None => {},
            Some(key) => match best {
                None => {
                    best = Some(index);
                },
                Some(found) => {
                    let other = keys[found].unwrap();
                    assert(keys@.take(index + 1)[found as int] == keys@[found as int]);
                    if key.0 < other.0 || (key.0 == other.0 && key.1 < other.1) {
                        best = Some(index);
                    }
                },
            },
        }
        index += 1;
    }
    assert(keys@.take(keys@.len() as int) =~= keys@);
    best
}

/// Uncalibrated human-behavior probes, not strength-ranked opponents.
#[derive(Clone, Copy, Debug, PartialEq, Eq, Structural)]
pub enum LaningProxy {
    RightClick,
    RazeFarm,
    LanePush,
}

/// Key of a creep that the hero can finish: least health first.
pub open spec fn last_hit_key(hero: UnitView, unit: UnitView) -> Option<(i128, u64)> {
    if is_lane_creep(unit) && unit.hp <= truncated(hero.attack_damage * 2, 3) && reaches(
        hero.pos,
        unit.pos,
        hero.attack_range.raw + 3_276_800,
    ) {
        Some((unit.hp as i128, unit.id.0))
    } else {
        None
    }
}

/// Whether a unit lives and fights for the other side.
pub open spec fn is_enemy(hero: UnitView, unit: UnitView) -> bool {
    unit.hp > 0 && unit.team != hero.team && unit.team != Team::Neutral
}

/// Whether a building of a unit's side covers it.
pub open spec fn covered(units: Seq<UnitView>, unit: UnitView) -> bool {
    exists|i: int| 0 <= i < units.len() && covers(#[trigger] units[i], unit)
}

pub open spec fn covers(tower: UnitView, unit: UnitView) -> bool {
    (tower.kind == UnitKind::Tower || tower.kind == UnitKind::Fountain) && tower.team == unit.team
        && reaches(tower.pos, unit.pos, tower.attack_range.raw + 13_107_200)
}

/// Key of an enemy hero that no building covers: nearest first.
pub open spec fn harass_key(units: Seq<UnitView>, hero: UnitView, unit: UnitView) -> Option<
    (i128, u64),
> {
    if is_enemy(hero, unit) && unit.kind == UnitKind::Hero && reaches(
        hero.pos,
        unit.pos,
        78_643_200,
    ) && !covered(units, unit) {
        Some((hero.pos.distance2(unit.pos) as i128, unit.id.0))
    } else {
        None
    }
}

/// Key of an enemy lane creep: nearest first.
pub open spec fn push_key(hero: UnitView, unit: UnitView) -> Option<(i128, u64)> {
    if is_enemy(hero, unit) && is_lane_creep(unit) && reaches(hero.pos, unit.pos, 78_643_200) {
        Some((hero.pos.distance2(unit.pos) as i128, unit.id.0))
    } else {
        None
    }
}

/// Keys of all units for the purpose of a proxy.
pub open spec fn last_hit_keys(units: Seq<UnitView>, hero: UnitView) -> Seq<Option<(i128, u64)>> {
    units.map_values(|unit: UnitView| last_hit_key(hero, unit))
}

pub open spec fn harass_keys(units: Seq<UnitView>, hero: UnitView) -> Seq<Option<(i128, u64)>> {
    units.map_values(|unit: UnitView| harass_key(units, hero, unit))
}

pub open spec fn push_keys(units: Seq<UnitView>, hero: UnitView) -> Seq<Option<(i128, u64)>> {
    units.map_values(|unit: UnitView| push_key(hero, unit))
}

/// Unit that a proxy attacks.
pub open spec fn attack_target(units: Seq<UnitView>, hero: UnitView, proxy: LaningProxy) -> Option<
    int,
> {
    if proxy == LaningProxy::LanePush {
        least(push_keys(units, hero))
    } else if least(last_hit_keys(units, hero)) is Some {
        least(last_hit_keys(units, hero))
    } else {
        least(harass_keys(units, hero))
    }
}

/// Point that a proxy attacks toward without a target.
pub open spec fn attack_goal(hero: UnitView, center: Vec2, proxy: LaningProxy) -> Vec2 {
    if proxy == LaningProxy::LanePush {
        let offset: int = if hero.team == Team::Radiant {
            78_643_200
        } else {
            -78_643_200
        };
        Vec2 {
            x: Fixed { raw: (center.x.raw + offset) as i32 },
            y: Fixed { raw: (center.y.raw + offset) as i32 },
        }
    } else {
        center
    }
}

/// Attack order of a proxy.
pub open spec fn attack_order(view: WorldView, hero: UnitView, center: Vec2, proxy: LaningProxy) -> Order {
    match attack_target(view.units@, hero, proxy) {
        Some(index) => Order::Attack { target: Target::Unit(view.units@[index].id) },
        None => Order::Attack { target: Target::Pos(attack_goal(hero, center, proxy)) },
    }
}

fn build_last_hit_keys(units: &Vec<UnitView>, hero: &UnitView) -> (r: Vec<Option<(i128, u64)>>)
    ensures
        r@ == last_hit_keys(units@, *hero),
{
    let limit = truncated_quotient(hero.attack_damage as i64 * 2, 3);
    let radius: i64 = hero.attack_range.raw as i64 + 3_276_800;
    let mut keys: Vec<Option<(i128, u64)>> = Vec::new();
    let mut index: usize = 0;
    while index < units.len()
        invariant
            index <= units@.len(),
            limit == truncated(hero.attack_damage * 2, 3),
            radius == hero.attack_range.raw + 3_276_800,
            keys@.len() == index,
            forall|i: int| 0 <= i < index ==> #[trigger] keys@[i] == last_hit_key(*hero, units@[i]),
        decreases units@.len() - index,
    {
        let unit = &units[index];
        if lane_creep(unit) && unit.hp as i64 <= limit && in_reach(hero.pos, unit.pos, radius) {
            keys.push(Some((unit.hp as i128, unit.id.0)));
        } else {
            keys.push(None);
        }
        index += 1;
    }
    assert(keys@ =~= last_hit_keys(units@, *hero));
    keys
}

fn is_covered(units: &Vec<UnitView>, unit: &UnitView) -> (r: bool)
    ensures
        r == covered(units@, *unit),
{
    let mut index: usize = 0;
    while index < units.len()
        invariant
            index <= units@.len(),
            forall|i: int| 0 <= i < index ==> !covers(#[trigger] units@[i], *unit),
        decreases units@.len() - index,
    {
        let tower = &units[index];
        if (tower.kind == UnitKind::Tower || tower.kind == UnitKind::Fountain) && tower.team
            == unit.team && in_reach(
            tower.pos,
            unit.pos,
            tower.attack_range.raw as i64 + 13_107_200,
        ) {
            assert(covers(units@[index as int], *unit));
            return true;
        }
        index += 1;
    }
    false
}

fn enemy_of(hero: &UnitView, unit: &UnitView) -> (r: bool)
    ensures
        r == is_enemy(*hero, *unit),
{
    unit.hp > 0 && unit.team != hero.team && unit.team != Team::Neutral
}

fn build_harass_keys(units: &Vec<UnitView>, hero: &UnitView) -> (r: Vec<Option<(i128, u64)>>)
    ensures
        r@ == harass_keys(units@, *hero),
{
    let mut keys: Vec<Option<(i128, u64)>> = Vec::new();
    let mut index: usize = 0;
    while index < units.len()
        invariant
            index <= units@.len(),
            keys@.len() == index,
            forall|i: int|
                0 <= i < index ==> #[trigger] keys@[i] == harass_key(units@, *hero, units@[i]),
        decreases units@.len() - index,
    {
        let unit = &units[index];
        if enemy_of(hero, unit) && unit.kind == UnitKind::Hero && in_reach(
            hero.pos,
            unit.pos,
            78_643_200,
        ) && !is_covered(units, unit) {
            keys.push(Some((hero.pos.wide_distance(unit.pos), unit.id.0)));
        } else {
            keys.push(None);
        }
        index += 1;
    }
    assert(keys@ =~= harass_keys(units@, *hero));
    keys
}

fn build_push_keys(units: &Vec<UnitView>, hero: &UnitView) -> (r: Vec<Option<(i128, u64)>>)
    ensures
        r@ == push_keys(units@, *hero),
{
    let mut keys: Vec<Option<(i128, u64)>> = Vec::new();
    let mut index: usize = 0;
    while index < units.len()
        invariant
            index <= units@.len(),
            keys@.len() == index,
            forall|i: int| 0 <= i < index ==> #[trigger] keys@[i] == push_key(*hero, units@[i]),
        decreases units@.len() - index,
    {
        let unit = &units[index];
        if enemy_of(hero, unit) && lane_creep(unit) && in_reach(hero.pos, unit.pos, 78_643_200) {
            keys.push(Some((hero.pos.wide_distance(unit.pos), unit.id.0)));
        } else {
            keys.push(None);
        }
        index += 1;
    }
    assert(keys@ =~= push_keys(units@, *hero));
    keys
}

/// Whether the goal behind the center of the lane is a position.
pub open spec fn can_push(hero: UnitView, center: Vec2) -> bool {
    if hero.team == Team::Radiant {
        center.x.raw <= i32::MAX - PUSH_OFFSET_RAW && center.y.raw <= i32::MAX - PUSH_OFFSET_RAW
    } else {
        center.x.raw >= i32::MIN + PUSH_OFFSET_RAW && center.y.raw >= i32::MIN + PUSH_OFFSET_RAW
    }
}

/// Attack order of a proxy.
pub fn attack(view: &WorldView, hero: &UnitView, center: Vec2, proxy: LaningProxy) -> (r: Order)
    requires
        proxy == LaningProxy::LanePush ==> can_push(*hero, center),
    ensures
        r == attack_order(*view, *hero, center, proxy),
{
    let target = if proxy == LaningProxy::LanePush {
        least_position(&build_push_keys(&view.units, hero))
    } else {
        match least_position(&build_last_hit_keys(&view.units, hero)) {
            Some(index) => Some(index),
            None => least_position(&build_harass_keys(&view.units, hero)),
        }
    };
    match target {
        Some(index) => Order::Attack { target: Target::Unit(view.units[index].id) },
        None => {
            let goal = if proxy == LaningProxy::LanePush {
                let offset: i32 = if hero.team == Team::Radiant {
                    PUSH_OFFSET_RAW
                } else {
                    -PUSH_OFFSET_RAW
                };
                Vec2 {
                    x: Fixed { raw: center.x.raw + offset },
                    y: Fixed { raw: center.y.raw + offset },
                }
            } else {
                center
            };
            Order::Attack { target: Target::Pos(goal) }
        },
    }
}

/// Whole part of a square root.
pub open spec fn is_root(value: int, root: int) -> bool {
    0 <= root && root * root <= value < (root + 1) * (root + 1)
}

/// Whole part of a square root.
pub fn isqrt(value: u64) -> (r: u64)
    requires
        value <= 0x1000_0000,
    ensures
        is_root(value as int, r as int),
        r <= 0x4000,
{
    let mut low: u64 = 0;
    let mut high: u64 = 0x4001;
    assert(0x4001 * 0x4001 > 0x1000_0000);
    while low + 1 < high
        invariant
            low < high <= 0x4001,
            low * low <= value,
            value < high * high,
            value <= 0x1000_0000,
        decreases high - low,
    {
        let probe: u64 = low + (high - low) / 2;
        proof {
            assert(probe * probe <= 0x4001 * 0x4001) by (nonlinear_arith)
                requires
                    0 <= probe <= 0x4001,
            ;
        }
        if probe * probe <= value {
            low = probe;
        } else {
            high = probe;
        }
    }
    assert(high == low + 1);
    low
}

/// Facing as a vector toward the edge of a square.
pub open spec fn facing_vector(brads: u16) -> (int, int) {
    let slope = brads as int % 8192;
    let octant = brads as int / 8192;
    if octant == 0 {
        (8192, slope)
    } else if octant == 1 {
        (8192 - slope, 8192)
    } else if octant == 2 {
        (-slope, 8192)
    } else if octant == 3 {
        (-8192, 8192 - slope)
    } else if octant == 4 {
        (-8192, -slope)
    } else if octant == 5 {
        (slope - 8192, -8192)
    } else if octant == 6 {
        (slope, -8192)
    } else {
        (8192, slope - 8192)
    }
}

fn facing_offset(brads: u16) -> (r: (i64, i64))
    ensures
        (r.0 as int, r.1 as int) == facing_vector(brads),
        -8192 <= r.0 <= 8192,
        -8192 <= r.1 <= 8192,
        r.0 == 8192 || r.0 == -8192 || r.1 == 8192 || r.1 == -8192,
{
    let slope: i64 = (brads % 8192) as i64;
    let octant = brads / 8192;
    if octant == 0 {
        (8192, slope)
    } else if octant == 1 {
        (8192 - slope, 8192)
    } else if octant == 2 {
        (-slope, 8192)
    } else if octant == 3 {
        (-8192, 8192 - slope)
    } else if octant == 4 {
        (-8192, -slope)
    } else if octant == 5 {
        (slope - 8192, -8192)
    } else if octant == 6 {
        (slope, -8192)
    } else {
        (8192, slope - 8192)
    }
}

/// Whole part of a square root.
pub open spec fn root_of(value: int) -> int {
    choose|root: int| is_root(value, root)
}

/// Length of a facing vector, rounded down.
pub open spec fn facing_length(brads: u16) -> int {
    let (x, y) = facing_vector(brads);
    root_of(x * x + y * y)
}

pub proof fn lemma_root_unique(value: int, left: int, right: int)
    requires
        is_root(value, left),
        is_root(value, right),
    ensures
        left == right,
{
    if left < right {
        assert((left + 1) * (left + 1) <= right * right) by (nonlinear_arith)
            requires
                0 <= left + 1 <= right,
        ;
    } else if right < left {
        assert((right + 1) * (right + 1) <= left * left) by (nonlinear_arith)
            requires
                0 <= right + 1 <= left,
        ;
    }
}

/// Raw center of a blast in front of a hero.
pub open spec fn raze_point(hero: UnitView, reach: i32) -> (int, int) {
    let (x, y) = facing_vector(hero.facing.brads);
    let length = facing_length(hero.facing.brads);
    (
        hero.pos.x.raw + truncated(x * reach, length) * 65_536,
        hero.pos.y.raw + truncated(y * reach, length) * 65_536,
    )
}

/// Raw center of a blast in front of a hero.
pub fn raze_center(hero: &UnitView, reach: i32) -> (r: (i64, i64))
    ensures
        (r.0 as int, r.1 as int) == raze_point(*hero, reach),
        -0x1_0000_0000_0000 <= r.0 <= 0x1_0000_0000_0000,
        -0x1_0000_0000_0000 <= r.1 <= 0x1_0000_0000_0000,
{
    let (x, y) = facing_offset(hero.facing.brads);
    proof {
        assert(0 <= x * x <= 8192 * 8192) by (nonlinear_arith)
            requires
                -8192 <= x <= 8192,
        ;
        assert(0 <= y * y <= 8192 * 8192) by (nonlinear_arith)
            requires
                -8192 <= y <= 8192,
        ;
        if x == 8192 || x == -8192 {
            assert(x * x == 8192 * 8192) by (nonlinear_arith)
                requires
                    x == 8192 || x == -8192,
            ;
        } else {
            assert(y * y == 8192 * 8192) by (nonlinear_arith)
                requires
                    y == 8192 || y == -8192,
            ;
        }
    }
    let length = isqrt((x * x + y * y) as u64);
    proof {
        assert(length >= 8192) by (nonlinear_arith)
            requires
                (length + 1) * (length + 1) > 8192 * 8192,
                length >= 0,
        ;
        let chosen = facing_length(hero.facing.brads);
        assert(is_root(x * x + y * y, length as int));
        lemma_root_unique(x * x + y * y, length as int, chosen);
        lemma_scaled(x as int, reach as int, length as int);
        lemma_scaled(y as int, reach as int, length as int);
    }
    let offset_x = truncated_quotient(x * reach as i64, length as i64);
    let offset_y = truncated_quotient(y * reach as i64, length as i64);
    (hero.pos.x.raw as i64 + offset_x * 65_536, hero.pos.y.raw as i64 + offset_y * 65_536)
}

proof fn lemma_scaled(x: int, reach: int, length: int)
    requires
        -8192 <= x <= 8192,
        -0x8000_0000 <= reach <= 0x7fff_ffff,
        length >= 8192,
    ensures
        -0x1000_0000_0000 <= x * reach <= 0x1000_0000_0000,
        -0x8000_0000 <= truncated(x * reach, length) <= 0x8000_0000,
{
    assert(-0x1000_0000_0000 <= x * reach <= 0x1000_0000_0000) by (nonlinear_arith)
        requires
            -8192 <= x <= 8192,
            -0x8000_0000 <= reach <= 0x7fff_ffff,
    ;
    let product = x * reach;
    if product >= 0 {
        assert(0 <= product / length <= 0x8000_0000) by (nonlinear_arith)
            requires
                0 <= product <= 0x1000_0000_0000,
                length >= 8192,
        ;
    } else {
        let positive = -product;
        assert(0 <= positive / length <= 0x8000_0000) by (nonlinear_arith)
            requires
                0 <= positive <= 0x1000_0000_0000,
                length >= 8192,
        ;
    }
}

/// Whether a unit stands in a blast of 180 world units.
pub open spec fn blasted(center: (int, int), position: Vec2) -> bool {
    square(center.0 - position.x.raw) + square(center.1 - position.y.raw) <= square(11_796_480)
}

fn is_blasted(center: (i64, i64), position: Vec2) -> (r: bool)
    requires
        -0x1_0000_0000_0000 <= center.0 <= 0x1_0000_0000_0000,
        -0x1_0000_0000_0000 <= center.1 <= 0x1_0000_0000_0000,
    ensures
        r == blasted((center.0 as int, center.1 as int), position),
{
    let x: i128 = center.0 as i128 - position.x.raw as i128;
    let y: i128 = center.1 as i128 - position.y.raw as i128;
    proof {
        assert(0 <= x * x <= 0x4_0000_0000_0000_0000_0000_0000) by (nonlinear_arith)
            requires
                -0x2_0000_0000_0000 <= x <= 0x2_0000_0000_0000,
        ;
        assert(0 <= y * y <= 0x4_0000_0000_0000_0000_0000_0000) by (nonlinear_arith)
            requires
                -0x2_0000_0000_0000 <= y <= 0x2_0000_0000_0000,
        ;
        assert(square(11_796_480) == 11_796_480 * 11_796_480);
    }
    x * x + y * y <= 139_156_940_390_400
}

/// Whether a blast ability is ready and hits an enemy hero or lane creep.
pub open spec fn razes(view: WorldView, hero: UnitView, ability: AbilityView) -> bool {
    &&& 13 <= ability.id.0 <= 15
    &&& ability.level > 0
    &&& ability.cooldown_left == 0
    &&& hero.mana >= ability.mana_cost
    &&& exists|i: int|
        0 <= i < view.units@.len() && raze_victim(hero, #[trigger] view.units@[i], ability.range)
}

pub open spec fn raze_victim(hero: UnitView, unit: UnitView, range: i32) -> bool {
    &&& unit.hp > 0
    &&& unit.team != hero.team
    &&& unit.kind == UnitKind::Hero || is_lane_creep(unit)
    &&& blasted(raze_point(hero, range), unit.pos)
}

fn any_victim(view: &WorldView, hero: &UnitView, range: i32) -> (r: bool)
    ensures
        r == exists|i: int|
            0 <= i < view.units@.len() && raze_victim(*hero, #[trigger] view.units@[i], range),
{
    let center = raze_center(hero, range);
    let mut index: usize = 0;
    while index < view.units.len()
        invariant
            index <= view.units@.len(),
            (center.0 as int, center.1 as int) == raze_point(*hero, range),
            -0x1_0000_0000_0000 <= center.0 <= 0x1_0000_0000_0000,
            -0x1_0000_0000_0000 <= center.1 <= 0x1_0000_0000_0000,
            forall|i: int|
                0 <= i < index ==> !raze_victim(*hero, #[trigger] view.units@[i], range),
        decreases view.units@.len() - index,
    {
        let unit = &view.units[index];
        if unit.hp > 0 && unit.team != hero.team && (unit.kind == UnitKind::Hero || lane_creep(
            unit,
        )) && is_blasted(center, unit.pos) {
            assert(raze_victim(*hero, view.units@[index as int], range));
            return true;
        }
        index += 1;
    }
    false
}

/// First ability slot whose blast is ready and hits.
pub open spec fn raze_slot(view: WorldView, hero: UnitView) -> Option<int> {
    first_index(hero.abilities@, |ability: AbilityView| razes(view, hero, ability))
}

/// First ability slot whose blast is ready and hits.
pub fn raze(view: &WorldView, hero: &UnitView) -> (r: Option<usize>)
    ensures
        match r {
            Some(index) => raze_slot(*view, *hero) == Some(index as int) && index
                < hero.abilities@.len(),
            None => raze_slot(*view, *hero) is None,
        },
{
    let ghost test = |ability: AbilityView| razes(*view, *hero, ability);
    let mut index: usize = 0;
    while index < hero.abilities.len()
        invariant
            index <= hero.abilities@.len(),
            test == (|ability: AbilityView| razes(*view, *hero, ability)),
            forall|i: int| 0 <= i < index ==> !test(#[trigger] hero.abilities@[i]),
        decreases hero.abilities@.len() - index,
    {
        let ability = hero.abilities[index];
        if 13 <= ability.id.0 && ability.id.0 <= 15 && ability.level > 0 && ability.cooldown_left
            == 0 && hero.mana >= ability.mana_cost && any_victim(view, hero, ability.range) {
            proof {
                lemma_first_from_found(hero.abilities@, test, 0, index as int);
            }
            return Some(index);
        }
        index += 1;
    }
    proof {
        lemma_first_from_none(hero.abilities@, test, 0);
    }
    None
}

/// Public-view-only script with a cadence of every third tick and bounded attack and cast
/// commitment.
#[derive(Clone, Copy, Debug)]
pub struct LaningScript {
    pub slot: u8,
    pub proxy: LaningProxy,
    pub pregame: u32,
    pub center: Option<Vec2>,
    pub last: Option<Order>,
    pub committed_until: u32,
    pub recovering: bool,
}

/// First ability slot that can be learned.
pub open spec fn learn_slot(hero: UnitView) -> Option<int> {
    first_index(hero.abilities@, |ability: AbilityView| ability.can_level)
}

fn find_learnable(hero: &UnitView) -> (r: Option<usize>)
    ensures
        match r {
            Some(index) => learn_slot(*hero) == Some(index as int) && index
                < hero.abilities@.len(),
            None => learn_slot(*hero) is None,
        },
{
    let ghost test = |ability: AbilityView| ability.can_level;
    let mut index: usize = 0;
    while index < hero.abilities.len()
        invariant
            index <= hero.abilities@.len(),
            test == (|ability: AbilityView| ability.can_level),
            forall|i: int| 0 <= i < index ==> !test(#[trigger] hero.abilities@[i]),
        decreases hero.abilities@.len() - index,
    {
        if hero.abilities[index].can_level {
            proof {
                lemma_first_from_found(hero.abilities@, test, 0, index as int);
            }
            return Some(index);
        }
        index += 1;
    }
    proof {
        lemma_first_from_none(hero.abilities@, test, 0);
    }
    None
}

impl LaningScript {
    /// Script of one of the two seats.
    pub fn new(slot: u8, proxy: LaningProxy, pregame: u32) -> (r: Self)
        requires
            slot < 2,
            pregame < LANING_TICKS,
        ensures
            r.slot == slot,
            r.proxy == proxy,
            r.pregame == pregame,
            r.center is None,
            r.last is None,
            r.committed_until == 0,
            !r.recovering,
    {
        LaningScript {
            slot,
            proxy,
            pregame,
            center: None,
            last: None,
            committed_until: 0,
            recovering: false,
        }
    }

    /// Lane center: the one found first, else that of the view.
    pub open spec fn center_in(self, view: WorldView) -> Option<Vec2> {
        match self.center {
            Some(center) => Some(center),
            None => center_of(view),
        }
    }

    /// Why a decision is refused.
    pub open spec fn decide_fault(self, view: WorldView) -> Option<LaningError> {
        if view_fault(view, self.slot) is Some {
            view_fault(view, self.slot)
        } else if self.center_in(view) is None {
            Some(LaningError::Geometry)
        } else {
            None
        }
    }

    /// Own hero, if it lives.
    pub open spec fn living_hero(self, view: WorldView) -> Option<UnitView> {
        match hero_index(view, self.slot) {
            Some(index) => if view.units@[index].hp > 0 {
                Some(view.units@[index])
            } else {
                None
            },
            None => None,
        }
    }

    /// Whether the script goes home: below 55 percent of health, and then up to 90.
    pub open spec fn recovers(self, hero: UnitView) -> bool {
        if self.recovering {
            below_percent(hero.hp, hero.max_hp, 90)
        } else {
            below_percent(hero.hp, hero.max_hp, 55)
        }
    }

    /// Order a script chooses for a living hero.
    pub open spec fn chosen(self, view: WorldView, hero: UnitView, center: Vec2) -> Order {
        if self.recovering {
            Order::Move {
                target: Target::Pos(
                    match first_of(view.units@, UnitKind::Fountain, hero.team) {
                        Some(index) => view.units@[index].pos,
                        None => hero.pos,
                    },
                ),
            }
        } else if learn_slot(hero) is Some {
            Order::Learn { slot: AbilitySlot(learn_slot(hero)->0 as u8) }
        } else if view.tick < self.pregame {
            Order::Move { target: Target::Pos(center) }
        } else if self.proxy == LaningProxy::RazeFarm && raze_slot(view, hero) is Some {
            Order::Cast {
                slot: AbilitySlot(raze_slot(view, hero)->0 as u8),
                target: Target::Untargeted,
            }
        } else {
            attack_order(view, hero, center, self.proxy)
        }
    }

    /// Script after a view, and the order it issues.
    pub open spec fn decided(self, view: WorldView) -> (LaningScript, Option<Order>) {
        let center = self.center_in(view);
        match self.living_hero(view) {
            None => (
                LaningScript { center, last: None, committed_until: 0, ..self },
                None,
            ),
            Some(hero) => {
                let recovering = self.recovers(hero);
                let ready = LaningScript { center, recovering, ..self };
                if (view.tick - 1) % 3 != 0 || (!recovering && view.tick < self.committed_until) {
                    (ready, None)
                } else {
                    let order = ready.chosen(view, hero, center->0);
                    let steady = order is Move || order is Attack;
                    if steady && self.last == Some(order) {
                        (ready, None)
                    } else {
                        (
                            LaningScript {
                                committed_until: if order is Cast || order is Attack {
                                    (view.tick + 24) as u32
                                } else {
                                    self.committed_until
                                },
                                last: if order is Learn {
                                    self.last
                                } else {
                                    Some(order)
                                },
                                ..ready
                            },
                            Some(order),
                        )
                    }
                }
            },
        }
    }

    fn choose_order(&self, view: &WorldView, hero: &UnitView, center: Vec2) -> (r: Order)
        requires
            hero.abilities@.len() <= 8,
            self.proxy == LaningProxy::LanePush ==> can_push(*hero, center),
        ensures
            r == self.chosen(*view, *hero, center),
    {
        if self.recovering {
            let home = match find_first(&view.units, UnitKind::Fountain, hero.team) {
                Some(index) => view.units[index].pos,
                None => hero.pos,
            };
            return Order::Move { target: Target::Pos(home) };
        }
        match find_learnable(hero) {
            Some(index) => {
                return Order::Learn { slot: AbilitySlot(index as u8) };
            },
            None => {},
        }
        if view.tick < self.pregame {
            return Order::Move { target: Target::Pos(center) };
        }
        if self.proxy == LaningProxy::RazeFarm {
            match raze(view, hero) {
                Some(index) => {
                    return Order::Cast {
                        slot: AbilitySlot(index as u8),
                        target: Target::Untargeted,
                    };
                },
                None => {},
            }
        }
        attack(view, hero, center, self.proxy)
    }

    /// Decides on one view; a refused view changes nothing.
    pub fn decide(&mut self, view: &WorldView) -> (r: Result<Option<Order>, LaningError>)
        requires
            old(self).slot < 2,
            old(self).proxy == LaningProxy::LanePush ==> match (
                old(self).center_in(*view),
                hero_index(*view, old(self).slot),
            ) {
                (Some(center), Some(index)) => can_push(view.units@[index], center),
                _ => true,
            },
        ensures
            match old(self).decide_fault(*view) {
                Some(error) => r == Err::<Option<Order>, LaningError>(error) && *final(self) == *old(
                    self,
                ),
                None => r == Ok::<Option<Order>, LaningError>(old(self).decided(*view).1)
                    && *final(self) == old(self).decided(*view).0,
            },
    {
        match validate_view(view, self.slot) {
            Some(error) => {
                return Err(error);
            },
            None => {},
        }
        let center = match self.center {
            Some(center) => center,
            None => match lane_center(view) {
                Some(center) => center,
                None => {
                    return Err(LaningError::Geometry);
                },
            },
        };
        self.center = Some(center);
        let position = match own_hero(view, self.slot) {
            Some(index) => index,
            None => {
                self.last = None;
                self.committed_until = 0;
                return Ok(None);
            },
        };
        let hero = &view.units[position];
        if hero.hp <= 0 {
            self.last = None;
            self.committed_until = 0;
            return Ok(None);
        }
        self.recovering = if self.recovering {
            is_below_percent(hero.hp, hero.max_hp, 90)
        } else {
            is_below_percent(hero.hp, hero.max_hp, 55)
        };
        if (view.tick - 1) % 3 != 0 || (!self.recovering && view.tick < self.committed_until) {
            return Ok(None);
        }
        proof {
            assert(view.units@[position as int].abilities@.len() <= 8);
        }
        let order = self.choose_order(view, hero, center);
        let (steady, commits, learns) = match order {
            Order::Move { .. } => (true, false, false),
            Order::Attack { .. } => (true, true, false),
            Order::Cast { .. } => (false, true, false),
            Order::Learn { .. } => (false, false, true),
            _ => (false, false, false),
        };
        if steady {
            match self.last {
                Some(previous) => {
                    if previous == order {
                        return Ok(None);
                    }
                },
                None => {},
            }
        }
        if commits {
            self.committed_until = view.tick + 24;
        }
        if !learns {
            self.last = Some(order);
        }
        Ok(Some(order))
    }
}

/// A script issues orders on every third tick alone.
pub proof fn scripts_keep_their_cadence(script: LaningScript, view: WorldView)
    requires
        script.decide_fault(view) is None,
        script.decided(view).1 is Some,
    ensures
        (view.tick - 1) % 3 == 0,
{
}

/// An attack or cast holds back every later order of a healthy hero for 24 ticks.
pub proof fn commitments_hold(script: LaningScript, view: WorldView, later: WorldView)
    requires
        script.decided(view).1 matches Some(order) && (order is Attack || order is Cast),
        later.tick < view.tick + 24,
        view.tick <= LANING_TICKS,
        script.decided(view).0.living_hero(later) matches Some(hero) && !script.decided(
            view,
        ).0.recovers(hero),
    ensures
        script.decided(view).0.decided(later).1 is None,
{
}

} // verus!
