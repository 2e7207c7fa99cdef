//! Unit and point tokens.
use crate::action::EntityRelation;
use crate::candidates::{candidate_owner_relation, owner_relation_of};
use crate::events::{
    in_view, latest_attack, latest_damage, recent_damage, recent_possible_attack,
    snapshot_visible,
};
use crate::map_context::MapContext;
use crate::map_features::{
    append_row, blank, elevation_ratio, elevation_scalar, walkable_feature, walkable_scalar,
};
use crate::scalar::{
    axis_distance, bool_feature, clamp_raw, coordinate_of, coordinate_ratio, count_ratio,
    direction_of, direction_ratio, facing_feature, facing_of, flag_of, fraction_of, kind_category,
    larger, larger_size, magnitude, maximum_axis_distance, ratio, ratio_of, raw_of,
    raw_distance_ratio, raw_distance_ratio_i64, relation_flag, relation_flag_of, row_bounded,
    safe_fraction, signed_of, signed_ratio, truncated, truncated_quotient, unit_kind_token,
    unit_of, unit_ratio, Scalar,
};
use crate::search::{count_free, free_count};
use crate::tracker::{EntityTrack, StateTracker, Velocity, HISTORY_TICKS};
use crate::world::{
    square, Fixed, Team, UnitView, Vec2, FIXED_MAX_RAW, FIXED_ONE_RAW, STATUS_DEAD,
    STATUS_DISARMED, STATUS_DOT, STATUS_INVISIBLE, STATUS_MAGIC_IMMUNE, STATUS_ROOTED,
    STATUS_SILENCED, STATUS_SLOWED, STATUS_STUNNED,
};
use vstd::prelude::*;

verus! {

pub const MAX_HP: i64 = 100_000;

pub const MAX_MANA: i64 = 20_000;

pub const MAX_DAMAGE: i64 = 10_000;

pub const MAX_ATTACK_INTERVAL: i64 = 600;

pub const MAX_SPEED: i64 = 2_000;

/// Raw bound of the movement speed.
pub const MAX_SPEED_RAW: i64 = 131_072_000;

/// Raw bound of the armor.
pub const MAX_ARMOR_RAW: i64 = 6_553_600;

/// Relation of a unit to the own seat; a side that opposes nobody is neutral.
pub open spec fn unit_relation_of(tracker: StateTracker, unit: UnitView) -> EntityRelation {
    if unit.owner == Some(tracker.slot) {
        EntityRelation::Own
    } else if unit.team == tracker.team {
        EntityRelation::Allied
    } else if unit.team == tracker.team.opposing_spec() {
        EntityRelation::Enemy
    } else {
        EntityRelation::Neutral
    }
}

fn unit_relation(tracker: &StateTracker, unit: &UnitView) -> (r: EntityRelation)
    ensures
        r == unit_relation_of(*tracker, *unit),
{
    let owned = match unit.owner {
        Some(owner) => owner == tracker.slot,
        None => false,
    };
    if owned {
        EntityRelation::Own
    } else if unit.team == tracker.team {
        EntityRelation::Allied
    } else if unit.team == tracker.team.opposing() {
        EntityRelation::Enemy
    } else {
        EntityRelation::Neutral
    }
}

/// Presence of one relation among those of an optional relation.
pub open spec fn optional_flag(relation: Option<EntityRelation>, index: int) -> Scalar {
    match relation {
        Some(known) => relation_flag_of(known, index),
        None => Scalar::Zero,
    }
}

pub fn optional_relation_flag(relation: Option<EntityRelation>, index: usize) -> (r: Scalar)
    ensures
        r == optional_flag(relation, index as int),
        r.bounded(),
{
    match relation {
        Some(known) => relation_flag(known, index),
        None => Scalar::Zero,
    }
}

/// Offset from the own body as the Radiant side sees it.
pub open spec fn delta_of(team: Team, position: Vec2, origin: Vec2) -> (int, int) {
    let x = position.x.raw - origin.x.raw;
    let y = position.y.raw - origin.y.raw;
    if team == Team::Dire {
        (-x, -y)
    } else {
        (x, y)
    }
}

/// Offset from the own body as the Radiant side sees it.
pub fn canonical_delta(team: Team, position: Vec2, origin: Vec2) -> (r: (i64, i64))
    ensures
        (r.0 as int, r.1 as int) == delta_of(team, position, origin),
        -0xffff_ffff <= r.0 <= 0xffff_ffff,
        -0xffff_ffff <= r.1 <= 0xffff_ffff,
{
    let x: i64 = position.x.raw as i64 - origin.x.raw as i64;
    let y: i64 = position.y.raw as i64 - origin.y.raw as i64;
    if team == Team::Dire {
        (-x, -y)
    } else {
        (x, y)
    }
}

/// Relative offset, distance, and direction from an optional own body.
pub open spec fn offset_row(
    team: Team,
    position: Vec2,
    origin: Option<Vec2>,
    extent: int,
) -> Seq<Scalar> {
    match origin {
        None => blank(5),
        Some(own) => {
            let delta = delta_of(team, position, own);
            let distance = larger(magnitude(delta.0), magnitude(delta.1));
            seq![
                signed_of(delta.0, extent),
                signed_of(delta.1, extent),
                ratio_of(distance, 0, extent),
                direction_of(delta.0, distance),
                direction_of(delta.1, distance),
            ]
        },
    }
}

/// Relative offset, distance, and direction from an optional own body.
pub fn encode_offset(team: Team, position: Vec2, origin: Option<Vec2>, extent_raw: i64) -> (r:
    [Scalar; 5])
    requires
        0 < extent_raw <= 0x8000_0000,
    ensures
        r@ == offset_row(team, position, origin, extent_raw as int),
        row_bounded(r@),
{
    match origin {
        None => {
            let row = [Scalar::Zero, Scalar::Zero, Scalar::Zero, Scalar::Zero, Scalar::Zero];
            assert(row@ =~= offset_row(team, position, origin, extent_raw as int));
            row
        },
        Some(own) => {
            let delta = canonical_delta(team, position, own);
            let distance = larger_size(delta.0, delta.1);
            let row = [
                signed_ratio(delta.0, extent_raw),
                signed_ratio(delta.1, extent_raw),
                raw_distance_ratio_i64(distance, extent_raw),
                direction_ratio(delta.0, distance),
                direction_ratio(delta.1, distance),
            ];
            assert(row@ =~= offset_row(team, position, origin, extent_raw as int));
            row
        },
    }
}

/// One component of an optional velocity per tick.
pub open spec fn velocity_scalar(
    team: Team,
    velocity: Option<Velocity>,
    vertical: bool,
    extent: int,
) -> Scalar {
    match velocity {
        None => Scalar::Zero,
        Some(known) => {
            let raw = if vertical {
                known.delta.y.raw as int
            } else {
                known.delta.x.raw as int
            };
            let seen = if team == Team::Dire {
                -raw
            } else {
                raw
            };
            signed_of(truncated(seen, larger(known.elapsed_ticks as int, 1)), extent)
        },
    }
}

fn velocity_ratio(team: Team, velocity: Option<Velocity>, vertical: bool, extent_raw: i64) -> (r:
    Scalar)
    requires
        0 < extent_raw <= 0x8000_0000,
    ensures
        r == velocity_scalar(team, velocity, vertical, extent_raw as int),
        r.bounded(),
{
    match velocity {
        None => Scalar::Zero,
        Some(known) => {
            let raw: i64 = if vertical {
                known.delta.y.raw as i64
            } else {
                known.delta.x.raw as i64
            };
            let seen: i64 = if team == Team::Dire {
                -raw
            } else {
                raw
            };
            let elapsed: i64 = if known.elapsed_ticks < 1 {
                1
            } else {
                known.elapsed_ticks as i64
            };
            signed_ratio(truncated_quotient(seen, elapsed), extent_raw)
        },
    }
}

/// Value of an optional resource change.
pub open spec fn change_scalar(velocity: Option<Velocity>, change: int, maximum: int) -> Scalar {
    if velocity is Some {
        signed_of(change, maximum)
    } else {
        Scalar::Zero
    }
}

fn change_ratio(velocity: Option<Velocity>, change: i64, maximum: i64) -> (r: Scalar)
    requires
        0 < maximum <= MAX_HP,
    ensures
        r == change_scalar(velocity, change as int, maximum as int),
        r.bounded(),
{
    if velocity.is_some() {
        signed_ratio(change, maximum)
    } else {
        Scalar::Zero
    }
}

/// Attacks of the own hero that a unit survives, rounded up.
pub open spec fn attacks_needed(unit: UnitView, hero: UnitView) -> int {
    (unit.hp + hero.attack_damage - 1) / hero.attack_damage as int
}

/// How an own hero at a position can fight a unit.
pub open spec fn tactics_row(
    unit: UnitView,
    origin: Option<Vec2>,
    hero: Option<UnitView>,
    tick_rate: u16,
) -> Seq<Scalar> {
    match (origin, hero) {
        (Some(own), Some(body)) => {
            let killable = body.attack_damage > 0 && unit.hp > 0;
            let moving = body.move_speed.raw > 0;
            let distance = own.distance2(unit.pos);
            seq![
                flag_of(killable),
                if killable {
                    ratio_of(attacks_needed(unit, body), 1, 100)
                } else {
                    Scalar::Zero
                },
                flag_of(moving),
                if moving {
                    ratio_of(
                        axis_distance(own, unit.pos) * tick_rate / body.move_speed.raw as int,
                        0,
                        4_800,
                    )
                } else {
                    Scalar::Zero
                },
                flag_of(distance <= square(body.attack_range.raw as int)),
                flag_of(distance <= square(unit.attack_range.raw as int)),
            ]
        },
        _ => blank(6),
    }
}

fn encode_unit_tactics(
    unit: &UnitView,
    origin: Option<Vec2>,
    hero: Option<&UnitView>,
    tick_rate: u16,
) -> (r: [Scalar; 6])
    requires
        unit.pos.on_map(),
        origin matches Some(own) ==> own.on_map(),
    ensures
        r@ == tactics_row(
            *unit,
            origin,
            match hero {
                Some(body) => Some(*body),
                None => None,
            },
            tick_rate,
        ),
        row_bounded(r@),
{
    let ghost known: Option<UnitView> = match hero {
        Some(body) => Some(*body),
        None => None,
    };
    let zero = [
        Scalar::Zero,
        Scalar::Zero,
        Scalar::Zero,
        Scalar::Zero,
        Scalar::Zero,
        Scalar::Zero,
    ];
    let (own, body) = match (origin, hero) {
        (Some(own), Some(body)) => (own, body),
        _ => {
            assert(zero@ =~= tactics_row(*unit, origin, known, tick_rate));
            return zero;
        },
    };
    let killable = body.attack_damage > 0 && unit.hp > 0;
    let attacks = if killable {
        let needed: i64 = (unit.hp as i64 + body.attack_damage as i64 - 1)
            / body.attack_damage as i64;
        ratio(needed, 1, 100)
    } else {
        Scalar::Zero
    };
    let moving = body.move_speed.raw > 0;
    let reach = if moving {
        let distance = maximum_axis_distance(own, unit.pos);
        proof {
            assert(0 <= distance * tick_rate <= 0xffff_ffff * 0xffff) by (nonlinear_arith)
                requires
                    0 <= distance <= 0xffff_ffff,
                    0 <= tick_rate <= 0xffff,
            ;
        }
        let product: i64 = distance * tick_rate as i64;
        ratio(product / body.move_speed.raw as i64, 0, 4_800)
    } else {
        Scalar::Zero
    };
    let distance_squared = own.distance_squared(unit.pos);
    let row = [
        bool_feature(killable),
        attacks,
        bool_feature(moving),
        reach,
        bool_feature(distance_squared <= body.attack_range.squared_raw()),
        bool_feature(distance_squared <= unit.attack_range.squared_raw()),
    ];
    assert(row@ =~= tactics_row(*unit, origin, known, tick_rate));
    row
}

/// Amount of recent damage that was dealt.
pub open spec fn dealt_scalar(amount: Option<i32>) -> Scalar {
    match amount {
        Some(value) => signed_of(value as int, MAX_DAMAGE as int),
        None => Scalar::Zero,
    }
}

fn dealt_ratio(amount: Option<i32>) -> (r: Scalar)
    ensures
        r == dealt_scalar(amount),
        r.bounded(),
{
    match amount {
        Some(value) => signed_ratio(value as i64, MAX_DAMAGE),
        None => Scalar::Zero,
    }
}

/// Ticks since the latest attack, if the attack interval has not passed.
pub open spec fn attack_age(attack: Option<u32>, tick: u32, interval: u32) -> Option<int> {
    match attack {
        Some(landed) => if tick - landed > interval {
            None
        } else {
            Some(tick - landed)
        },
        None => None,
    }
}

pub open spec fn phase_scalar(age: Option<int>, interval: u32) -> Scalar {
    match age {
        Some(ticks) => unit_of(ticks, larger(interval as int, 1)),
        None => Scalar::Zero,
    }
}

fn encode_attack_phase(attack: Option<u32>, tick: u32, interval: u32) -> (r: (Scalar, Scalar))
    requires
        attack matches Some(landed) ==> landed < tick,
    ensures
        r.0 == flag_of(attack_age(attack, tick, interval) is Some),
        r.1 == phase_scalar(attack_age(attack, tick, interval), interval),
        r.0.bounded(),
        r.1.bounded(),
{
    match attack {
        None => (Scalar::Zero, Scalar::Zero),
        Some(landed) => {
            let age: u32 = tick - landed;
            if age > interval {
                (Scalar::Zero, Scalar::Zero)
            } else {
                let bound: u32 = if interval < 1 {
                    1
                } else {
                    interval
                };
                (Scalar::One, unit_ratio(age, bound))
            }
        },
    }
}

impl MapContext {
    /// Position as the Radiant side sees it.
    pub open spec fn canonical_spec(self, team: Team, position: Vec2) -> Vec2 {
        if team == Team::Dire {
            Vec2 {
                x: Fixed { raw: raw_of(self.extent_raw - 1 - position.x.raw) as i32 },
                y: Fixed { raw: raw_of(self.extent_raw - 1 - position.y.raw) as i32 },
            }
        } else {
            position
        }
    }

    /// Position as the Radiant side sees it.
    pub fn canonical_position(&self, team: Team, position: Vec2) -> (r: Vec2)
        requires
            self.wf(),
        ensures
            r == self.canonical_spec(team, position),
    {
        if team == Team::Dire {
            let maximum: i64 = self.extent_raw - 1;
            Vec2 {
                x: Fixed { raw: clamp_raw(maximum - position.x.raw as i64) },
                y: Fixed { raw: clamp_raw(maximum - position.y.raw as i64) },
            }
        } else {
            position
        }
    }

    /// Presence, relations, kind, visibility, and age of a unit.
    pub open spec fn unit_identity(
        self,
        tracker: StateTracker,
        track: EntityTrack,
        origin: Option<Vec2>,
    ) -> Seq<Scalar> {
        let unit = track.unit;
        let tick = tracker.view_spec().tick;
        let relation = unit_relation_of(tracker, unit);
        let owner = owner_relation_of(tracker, tracker.view_spec().players@, unit);
        seq![
            Scalar::One,
            relation_flag_of(relation, 0),
            relation_flag_of(relation, 1),
            relation_flag_of(relation, 2),
            relation_flag_of(relation, 3),
            kind_category(unit.kind),
            optional_flag(owner, 0),
            optional_flag(owner, 1),
            optional_flag(owner, 2),
            flag_of(owner is Some),
            Scalar::One,
            flag_of(in_view(tracker, track)),
            flag_of(!in_view(tracker, track)),
            flag_of(origin is Some),
            unit_of(larger(tick - track.last_seen_tick, 0), HISTORY_TICKS as int),
        ]
    }

    fn encode_unit_identity(
        &self,
        tracker: &StateTracker,
        track: &EntityTrack,
        origin: Option<Vec2>,
    ) -> (r: Vec<Scalar>)
        requires
            self.wf(),
            tracker.wf(),
            tracker.current is Some,
            track.unit.pos.on_map(),
            origin matches Some(own) ==> own.on_map(),
        ensures
            r@ == self.unit_identity(*tracker, *track, origin),
            r@.len() == 15,
            row_bounded(r@),
    {
        let unit = &track.unit;
        let current = tracker.current.as_ref().unwrap();
        let tick = current.tick;
        let relation = unit_relation(tracker, unit);
        let owner = candidate_owner_relation(tracker, &current.players, unit);
        let visible = snapshot_visible(tracker, track);
        let row = vec![
            Scalar::One,
            relation_flag(relation, 0),
            relation_flag(relation, 1),
            relation_flag(relation, 2),
            relation_flag(relation, 3),
            unit_kind_token(unit.kind),
            optional_relation_flag(owner, 0),
            optional_relation_flag(owner, 1),
            optional_relation_flag(owner, 2),
            bool_feature(owner.is_some()),
            Scalar::One,
            bool_feature(visible),
            bool_feature(!visible),
            bool_feature(origin.is_some()),
            unit_ratio(tick.saturating_sub(track.last_seen_tick), HISTORY_TICKS),
        ];
        assert(row@ =~= self.unit_identity(*tracker, *track, origin));
        row
    }

    /// Position, motion, and ground of a unit.
    pub open spec fn unit_place(
        self,
        tracker: StateTracker,
        track: EntityTrack,
        origin: Option<Vec2>,
    ) -> Seq<Scalar> {
        let unit = track.unit;
        let team = tracker.team;
        let extent = self.extent_raw as int;
        let position = self.canonical_spec(team, unit.pos);
        let offset = offset_row(team, unit.pos, origin, extent);
        let terrain = self.terrain_at(unit.pos);
        seq![
            coordinate_of(position.x.raw as int, extent),
            coordinate_of(position.y.raw as int, extent),
            offset[0],
            offset[1],
            offset[2],
            offset[3],
            offset[4],
            facing_of(team, unit.facing),
            ratio_of(unit.radius.raw as int, 0, extent),
            flag_of(track.velocity is Some),
            velocity_scalar(team, track.velocity, false, extent),
            velocity_scalar(team, track.velocity, true, extent),
            flag_of(unit.max_hp > 0),
            elevation_scalar(terrain),
            walkable_scalar(terrain),
        ]
    }

    fn encode_unit_place(
        &self,
        tracker: &StateTracker,
        track: &EntityTrack,
        origin: Option<Vec2>,
    ) -> (r: Vec<Scalar>)
        requires
            self.wf(),
            tracker.wf(),
            tracker.current is Some,
            track.unit.pos.on_map(),
            origin matches Some(own) ==> own.on_map(),
        ensures
            r@ == self.unit_place(*tracker, *track, origin),
            r@.len() == 15,
            row_bounded(r@),
    {
        let unit = &track.unit;
        let team = tracker.team;
        let extent = self.extent_raw;
        let position = self.canonical_position(team, unit.pos);
        let offset = encode_offset(team, unit.pos, origin, extent);
        let terrain = self.terrain_value(unit.pos);
        let moving = track.velocity.is_some();
        let row = vec![
            coordinate_ratio(position.x.raw, extent),
            coordinate_ratio(position.y.raw, extent),
            offset[0],
            offset[1],
            offset[2],
            offset[3],
            offset[4],
            facing_feature(team, unit.facing),
            raw_distance_ratio(unit.radius.raw, extent),
            bool_feature(moving),
            velocity_ratio(team, track.velocity, false, extent),
            velocity_ratio(team, track.velocity, true, extent),
            bool_feature(unit.max_hp > 0),
            elevation_ratio(terrain),
            walkable_feature(terrain),
        ];
        assert(row@ =~= self.unit_place(*tracker, *track, origin));
        row
    }

    /// Health, mana, and attributes of a unit.
    pub open spec fn unit_resource(
        self,
        tracker: StateTracker,
        track: EntityTrack,
        origin: Option<Vec2>,
    ) -> Seq<Scalar> {
        let unit = track.unit;
        seq![
            fraction_of(unit.hp as int, unit.max_hp as int),
            flag_of(unit.max_mana > 0),
            fraction_of(unit.mana as int, unit.max_mana as int),
            flag_of(track.velocity is Some),
            change_scalar(track.velocity, track.hp_delta as int, MAX_HP as int),
            flag_of(track.velocity is Some),
            change_scalar(track.velocity, track.mana_delta as int, MAX_MANA as int),
            signed_of(unit.attack_damage as int, MAX_DAMAGE as int),
            ratio_of(unit.attack_range.raw as int, 0, FIXED_MAX_RAW as int),
            ratio_of(unit.attack_interval as int, 0, MAX_ATTACK_INTERVAL as int),
            signed_of(unit.attack_speed as int, MAX_SPEED as int),
            signed_of(unit.move_speed.raw as int, MAX_SPEED_RAW as int),
            signed_of(unit.armor.raw as int, MAX_ARMOR_RAW as int),
            signed_of(unit.magic_resist.raw as int, FIXED_ONE_RAW as int),
            ratio_of(unit.vision_radius.raw as int, 0, FIXED_MAX_RAW as int),
            ratio_of(unit.true_sight_radius.raw as int, 0, FIXED_MAX_RAW as int),
        ]
    }

    fn encode_unit_resource(
        &self,
        tracker: &StateTracker,
        track: &EntityTrack,
        origin: Option<Vec2>,
    ) -> (r: Vec<Scalar>)
        requires
            self.wf(),
            tracker.wf(),
            tracker.current is Some,
            track.unit.pos.on_map(),
            origin matches Some(own) ==> own.on_map(),
        ensures
            r@ == self.unit_resource(*tracker, *track, origin),
            r@.len() == 16,
            row_bounded(r@),
    {
        let unit = &track.unit;
        let moving = track.velocity.is_some();
        let row = vec![
            safe_fraction(unit.hp, unit.max_hp),
            bool_feature(unit.max_mana > 0),
            safe_fraction(unit.mana, unit.max_mana),
            bool_feature(moving),
            change_ratio(track.velocity, track.hp_delta, MAX_HP),
            bool_feature(moving),
            change_ratio(track.velocity, track.mana_delta, MAX_MANA),
            signed_ratio(unit.attack_damage as i64, MAX_DAMAGE),
            raw_distance_ratio(unit.attack_range.raw, FIXED_MAX_RAW as i64),
            ratio(unit.attack_interval as i64, 0, MAX_ATTACK_INTERVAL),
            signed_ratio(unit.attack_speed as i64, MAX_SPEED),
            signed_ratio(unit.move_speed.raw as i64, MAX_SPEED_RAW),
            signed_ratio(unit.armor.raw as i64, MAX_ARMOR_RAW),
            signed_ratio(unit.magic_resist.raw as i64, FIXED_ONE_RAW as i64),
            raw_distance_ratio(unit.vision_radius.raw, FIXED_MAX_RAW as i64),
            raw_distance_ratio(unit.true_sight_radius.raw, FIXED_MAX_RAW as i64),
        ];
        assert(row@ =~= self.unit_resource(*tracker, *track, origin));
        row
    }

    /// How the own hero can fight a unit, and its statuses.
    pub open spec fn unit_combat(
        self,
        tracker: StateTracker,
        track: EntityTrack,
        origin: Option<Vec2>,
    ) -> Seq<Scalar> {
        let unit = track.unit;
        let tactics = tactics_row(
            unit,
            origin,
            tracker.hero_spec(),
            tracker.metadata.tick_rate,
        );
        seq![
            tactics[0],
            tactics[1],
            tactics[2],
            tactics[3],
            tactics[4],
            tactics[5],
            flag_of(unit.statuses.has(STATUS_STUNNED)),
            flag_of(unit.statuses.has(STATUS_SILENCED)),
            flag_of(unit.statuses.has(STATUS_ROOTED)),
            flag_of(unit.statuses.has(STATUS_DISARMED)),
            flag_of(unit.statuses.has(STATUS_SLOWED)),
            flag_of(unit.statuses.has(STATUS_DOT)),
            flag_of(unit.statuses.has(STATUS_INVISIBLE)),
            flag_of(unit.statuses.has(STATUS_MAGIC_IMMUNE)),
            flag_of(unit.statuses.has(STATUS_DEAD)),
        ]
    }

    fn encode_unit_combat(
        &self,
        tracker: &StateTracker,
        track: &EntityTrack,
        origin: Option<Vec2>,
    ) -> (r: Vec<Scalar>)
        requires
            self.wf(),
            tracker.wf(),
            tracker.current is Some,
            track.unit.pos.on_map(),
            origin matches Some(own) ==> own.on_map(),
        ensures
            r@ == self.unit_combat(*tracker, *track, origin),
            r@.len() == 15,
            row_bounded(r@),
    {
        let unit = &track.unit;
        let tactics = encode_unit_tactics(
            unit,
            origin,
            tracker.hero(),
            tracker.metadata.tick_rate,
        );
        let row = vec![
            tactics[0],
            tactics[1],
            tactics[2],
            tactics[3],
            tactics[4],
            tactics[5],
            bool_feature(unit.statuses.contains(STATUS_STUNNED)),
            bool_feature(unit.statuses.contains(STATUS_SILENCED)),
            bool_feature(unit.statuses.contains(STATUS_ROOTED)),
            bool_feature(unit.statuses.contains(STATUS_DISARMED)),
            bool_feature(unit.statuses.contains(STATUS_SLOWED)),
            bool_feature(unit.statuses.contains(STATUS_DOT)),
            bool_feature(unit.statuses.contains(STATUS_INVISIBLE)),
            bool_feature(unit.statuses.contains(STATUS_MAGIC_IMMUNE)),
            bool_feature(unit.statuses.contains(STATUS_DEAD)),
        ];
        assert(row@ =~= self.unit_combat(*tracker, *track, origin));
        row
    }

    /// Recent combat and inventory space of a unit.
    pub open spec fn unit_recent(
        self,
        tracker: StateTracker,
        track: EntityTrack,
        origin: Option<Vec2>,
    ) -> Seq<Scalar> {
        let unit = track.unit;
        let tick = tracker.view_spec().tick;
        let dealt = latest_damage(tracker.events@, track.id, tick, true);
        let age = attack_age(
            latest_attack(tracker.events@, track.id, tick),
            tick,
            unit.attack_interval,
        );
        seq![
            flag_of(latest_damage(tracker.events@, track.id, tick, false) is Some),
            flag_of(dealt is Some),
            dealt_scalar(dealt),
            flag_of(age is Some),
            phase_scalar(age, unit.attack_interval),
            ratio_of(unit.items@.len() as int, 0, 9),
            ratio_of(free_count(unit.items@) as int, 0, 9),
            flag_of(free_count(unit.items@) > 0),
        ]
    }

    fn encode_unit_recent(
        &self,
        tracker: &StateTracker,
        track: &EntityTrack,
        origin: Option<Vec2>,
    ) -> (r: Vec<Scalar>)
        requires
            self.wf(),
            tracker.wf(),
            tracker.current is Some,
            track.unit.pos.on_map(),
            origin matches Some(own) ==> own.on_map(),
        ensures
            r@ == self.unit_recent(*tracker, *track, origin),
            r@.len() == 8,
            row_bounded(r@),
    {
        let unit = &track.unit;
        let current = tracker.current.as_ref().unwrap();
        let tick = current.tick;
        let taken = recent_damage(tracker, track.id, tick, false);
        let dealt = recent_damage(tracker, track.id, tick, true);
        let attack = recent_possible_attack(tracker, track.id, tick);
        let phase = encode_attack_phase(attack, tick, unit.attack_interval);
        let free = count_free(&unit.items);
        let row = vec![
            bool_feature(taken.is_some()),
            bool_feature(dealt.is_some()),
            dealt_ratio(dealt),
            phase.0,
            phase.1,
            count_ratio(unit.items.len(), 9),
            count_ratio(free, 9),
            bool_feature(free > 0),
        ];
        assert(row@ =~= self.unit_recent(*tracker, *track, origin));
        row
    }

    /// Scalars of one tracked unit in schema order.
    pub open spec fn unit_row(
        self,
        tracker: StateTracker,
        track: EntityTrack,
        origin: Option<Vec2>,
    ) -> Seq<Scalar> {
        self.unit_identity(tracker, track, origin) + self.unit_place(tracker, track, origin)
            + self.unit_resource(tracker, track, origin) + self.unit_combat(tracker, track, origin)
            + self.unit_recent(tracker, track, origin)
    }

    /// Scalars of one tracked unit in schema order.
    pub fn encode_unit_track(
        &self,
        tracker: &StateTracker,
        track: &EntityTrack,
        origin: Option<Vec2>,
    ) -> (r: Vec<Scalar>)
        requires
            self.wf(),
            tracker.wf(),
            tracker.current is Some,
            track.unit.pos.on_map(),
            origin matches Some(own) ==> own.on_map(),
        ensures
            r@ == self.unit_row(*tracker, *track, origin),
            r@.len() == 69,
            row_bounded(r@),
    {
        let mut row = self.encode_unit_identity(tracker, track, origin);
        append_row(&mut row, &self.encode_unit_place(tracker, track, origin));
        append_row(&mut row, &self.encode_unit_resource(tracker, track, origin));
        append_row(&mut row, &self.encode_unit_combat(tracker, track, origin));
        append_row(&mut row, &self.encode_unit_recent(tracker, track, origin));
        row
    }
}

} // verus!
