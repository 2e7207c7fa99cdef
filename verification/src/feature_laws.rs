//! What the scalars of the policy input tell, column by column, from the tracked snapshot.
use crate::action::EntityRelation;
use crate::candidates::owner_relation_of;
use crate::encoder::FeatureEncoder;
use crate::local_policy::LocalPolicyState;
use crate::map_context::MapContext;
use crate::map_features::{elevation_scalar, walkable_scalar};
use crate::nearness::{lemma_near, near};
use crate::scalar::{
    clamped, facing_of, fraction_of, kind_category, larger, magnitude, ratio_of, signed_of,
    truncated, unit_of, Scalar,
};
use crate::search::{free_count, lemma_first_from_means, lemma_free_count};
use crate::space::ActionSpace;
use crate::tracker::{EntityTrack, ItemReadiness, StateTracker};
use crate::unit_features::attacks_needed;
use crate::world::{Angle, Team, UnitKind, UnitView, Vec2};
use vstd::prelude::*;

verus! {

/// Whether a scalar tells that something holds.
pub open spec fn is_flag(scalar: Scalar, holds: bool) -> bool {
    (holds ==> scalar == Scalar::One) && (!holds ==> scalar == Scalar::Zero)
}

/// Whether a scalar is the part that a value fills of a whole, none below zero and all above it.
pub open spec fn is_part(scalar: Scalar, value: int, whole: int) -> bool {
    scalar matches Scalar::Ratio { numerator, denominator } && {
        &&& denominator == whole
        &&& value <= 0 ==> numerator == 0
        &&& 0 <= value <= whole ==> numerator == value
        &&& value >= whole ==> numerator == whole
    }
}

/// Whether a scalar places a value between the two signs of a bound, at an end beyond it.
pub open spec fn is_signed(scalar: Scalar, value: int, bound: int) -> bool {
    scalar matches Scalar::Signed { numerator, denominator } && {
        &&& denominator == 2 * bound
        &&& value <= -bound ==> numerator == 0
        &&& -bound <= value <= bound ==> numerator == value + bound
        &&& value >= bound ==> numerator == 2 * bound
    }
}

/// Ratios measure a value between its bounds.
pub proof fn ratios_measure_between_their_bounds(value: int, minimum: int, maximum: int)
    requires
        -0x4000_0000_0000_0000 <= minimum < maximum < 0x4000_0000_0000_0000,
    ensures
        is_part(ratio_of(value, minimum, maximum), value - minimum, maximum - minimum),
{
}

/// Signed ratios measure a value between the signs of its bound.
pub proof fn signed_ratios_measure_around_zero(value: int, maximum: int)
    requires
        0 < maximum < 0x2000_0000_0000_0000,
    ensures
        is_signed(signed_of(value, maximum), value, maximum),
{
}

/// Fractions of nothing are zero, and those of something its part; counts fill at least one.
pub proof fn fractions_measure_their_whole(value: int, maximum: int)
    requires
        -0x4000_0000_0000_0000 < maximum < 0x4000_0000_0000_0000,
    ensures
        maximum <= 0 ==> fraction_of(value, maximum) == Scalar::Zero,
        maximum > 0 ==> is_part(fraction_of(value, maximum), value, maximum),
        maximum > 0 ==> is_part(unit_of(value, maximum), value, maximum),
        maximum <= 0 ==> is_part(unit_of(value, maximum), value, 1),
{
}

/// Division goes toward zero: the quotient of a negative number is that of its opposite, negated.
pub proof fn truncation_goes_toward_zero(value: int, divisor: int)
    requires
        divisor > 0,
    ensures
        truncated(-value, divisor) == -truncated(value, divisor),
        value >= 0 ==> truncated(value, divisor) * divisor <= value < truncated(value, divisor)
            * divisor + divisor,
{
    if value >= 0 {
        assert((value / divisor) * divisor <= value < (value / divisor) * divisor + divisor)
            by (nonlinear_arith)
            requires
                divisor > 0,
                value >= 0,
        ;
        if value == 0 {
            assert(0int / divisor == 0) by (nonlinear_arith)
                requires
                    divisor > 0,
            ;
        }
    }
}

/// Clamping gives the nearest number between two bounds.
pub proof fn clamping_gives_the_nearest_number(value: int, minimum: int, maximum: int)
    requires
        minimum <= maximum,
    ensures
        minimum <= clamped(value, minimum, maximum) <= maximum,
        minimum <= value <= maximum ==> clamped(value, minimum, maximum) == value,
        value <= minimum ==> clamped(value, minimum, maximum) == minimum,
        value >= maximum ==> clamped(value, minimum, maximum) == maximum,
        magnitude(value) >= value && magnitude(value) >= -value && (magnitude(value) == value
            || magnitude(value) == -value),
        larger(value, minimum) >= value && larger(value, minimum) >= minimum && (larger(
            value,
            minimum,
        ) == value || larger(value, minimum) == minimum),
{
}

/// Facings of the Dire side are turned by half a turn, so that both sides look the same way.
pub proof fn dire_facings_are_turned(angle: Angle)
    ensures
        is_part(facing_of(Team::Radiant, angle), angle.brads as int, 65_535),
        angle.brads < 32_768 ==> is_part(
            facing_of(Team::Dire, angle),
            angle.brads + 32_768,
            65_535,
        ),
        angle.brads >= 32_768 ==> is_part(
            facing_of(Team::Dire, angle),
            angle.brads - 32_768,
            65_535,
        ),
{
}

/// Every kind of unit has a category of its own, counted from one.
pub proof fn kinds_have_their_own_category(left: UnitKind, right: UnitKind)
    ensures
        kind_category(left) == kind_category(right) <==> left == right,
        kind_category(UnitKind::Hero) == Scalar::Category(1),
        kind_category(UnitKind::CreepMelee) == Scalar::Category(2),
        kind_category(UnitKind::CreepFlagbearer) == Scalar::Category(3),
        kind_category(UnitKind::CreepRanged) == Scalar::Category(4),
        kind_category(UnitKind::CreepSiege) == Scalar::Category(5),
        kind_category(UnitKind::CreepNeutral) == Scalar::Category(6),
        kind_category(UnitKind::Roshan) == Scalar::Category(7),
        kind_category(UnitKind::Tower) == Scalar::Category(8),
        kind_category(UnitKind::Ancient) == Scalar::Category(9),
        kind_category(UnitKind::Fountain) == Scalar::Category(10),
        kind_category(UnitKind::Ward) == Scalar::Category(11),
        kind_category(UnitKind::Courier) == Scalar::Category(12),
{
}

/// Scalar of a tracked unit in one column.
pub open spec fn cell(
    context: MapContext,
    tracker: StateTracker,
    track: EntityTrack,
    column: int,
) -> Scalar {
    context.unit_row(tracker, track, tracker.origin_spec())[column]
}

/// The token of an entity candidate shows the track of that entity, and those of the own hero
/// and courier look out from the same place: the own hero, or the courier without one.
pub proof fn unit_tokens_show_their_tracks(
    encoder: FeatureEncoder,
    tracker: StateTracker,
    space: ActionSpace,
    readiness: ItemReadiness,
    local: LocalPolicyState,
    i: int,
    t: int,
    column: int,
)
    requires
        0 <= i < space.context.entities@.len(),
        0 <= t < tracker.entities@.len(),
        tracker.entities@[t].id == space.context.entities@[i].unit.id,
        forall|k: int|
            0 <= k < t ==> (#[trigger] tracker.entities@[k]).id != tracker.entities@[t].id,
        0 <= column < 69,
    ensures
        encoder.rows(tracker, space, readiness, local).units.len() == space.context.entities@.len(),
        encoder.rows(tracker, space, readiness, local).units[i][column] == cell(
            encoder.context,
            tracker,
            tracker.entities@[t],
            column,
        ),
{
    let id = space.context.entities@[i].unit.id;
    let test = |track: EntityTrack| track.id == id;
    lemma_first_from_means(tracker.entities@, test, 0);
    assert(test(tracker.entities@[t]));
    let found = tracker.track_index(id);
    assert(found is Some);
    assert(test(tracker.entities@[found->0]));
    if found->0 < t {
        assert(tracker.entities@[found->0].id != tracker.entities@[t].id);
    }
    assert(tracker.track_spec(id) == Some(tracker.entities@[t]));
}

proof fn lemma_unit_widths(context: MapContext, tracker: StateTracker, track: EntityTrack)
    ensures
        context.unit_identity(tracker, track, tracker.origin_spec()).len() == 15,
        context.unit_place(tracker, track, tracker.origin_spec()).len() == 15,
        context.unit_resource(tracker, track, tracker.origin_spec()).len() == 16,
        context.unit_combat(tracker, track, tracker.origin_spec()).len() == 15,
        context.unit_recent(tracker, track, tracker.origin_spec()).len() == 8,
        forall|c: int|
            0 <= c < 15 ==> #[trigger] cell(context, tracker, track, c) == context.unit_identity(
                tracker,
                track,
                tracker.origin_spec(),
            )[c],
        forall|c: int|
            15 <= c < 30 ==> #[trigger] cell(context, tracker, track, c) == context.unit_place(
                tracker,
                track,
                tracker.origin_spec(),
            )[c - 15],
        forall|c: int|
            30 <= c < 46 ==> #[trigger] cell(context, tracker, track, c) == context.unit_resource(
                tracker,
                track,
                tracker.origin_spec(),
            )[c - 30],
        forall|c: int|
            46 <= c < 61 ==> #[trigger] cell(context, tracker, track, c) == context.unit_combat(
                tracker,
                track,
                tracker.origin_spec(),
            )[c - 46],
        forall|c: int|
            61 <= c < 69 ==> #[trigger] cell(context, tracker, track, c) == context.unit_recent(
                tracker,
                track,
                tracker.origin_spec(),
            )[c - 61],
{
}

/// A unit token tells that it is there, whether its unit is owned by this seat, an ally, an
/// enemy, or neither, of which kind it is, and whether it is in view now.
pub proof fn unit_tokens_tell_who_it_is(
    context: MapContext,
    tracker: StateTracker,
    track: EntityTrack,
)
    requires
        tracker.current is Some,
        tracker.team != Team::Neutral,
    ensures
        cell(context, tracker, track, 0) == Scalar::One,
        is_flag(cell(context, tracker, track, 1), track.unit.owner == Some(tracker.slot)),
        is_flag(
            cell(context, tracker, track, 2),
            track.unit.owner != Some(tracker.slot) && track.unit.team == tracker.team,
        ),
        is_flag(
            cell(context, tracker, track, 3),
            track.unit.owner != Some(tracker.slot) && track.unit.team != tracker.team
                && track.unit.team != Team::Neutral,
        ),
        is_flag(
            cell(context, tracker, track, 4),
            track.unit.owner != Some(tracker.slot) && track.unit.team == Team::Neutral,
        ),
        cell(context, tracker, track, 5) == kind_category(track.unit.kind),
        is_flag(
            cell(context, tracker, track, 6),
            owner_relation_of(tracker, tracker.current->0.players@, track.unit) == Some(
                EntityRelation::Own,
            ),
        ),
        is_flag(
            cell(context, tracker, track, 7),
            owner_relation_of(tracker, tracker.current->0.players@, track.unit) == Some(
                EntityRelation::Allied,
            ),
        ),
        is_flag(
            cell(context, tracker, track, 8),
            owner_relation_of(tracker, tracker.current->0.players@, track.unit) == Some(
                EntityRelation::Enemy,
            ),
        ),
        is_flag(
            cell(context, tracker, track, 9),
            owner_relation_of(tracker, tracker.current->0.players@, track.unit) is Some,
        ),
        cell(context, tracker, track, 10) == Scalar::One,
        is_flag(
            cell(context, tracker, track, 11),
            exists|i: int|
                0 <= i < tracker.current->0.units@.len() && (
                #[trigger] tracker.current->0.units@[i]).id == track.id,
        ),
        is_flag(
            cell(context, tracker, track, 12),
            forall|i: int|
                0 <= i < tracker.current->0.units@.len() ==> (
                #[trigger] tracker.current->0.units@[i]).id != track.id,
        ),
        is_flag(
            cell(context, tracker, track, 13),
            tracker.own_hero is Some || tracker.own_courier is Some,
        ),
        is_part(
            cell(context, tracker, track, 14),
            tracker.current->0.tick - track.last_seen_tick,
            crate::tracker::HISTORY_TICKS as int,
        ),
{
    lemma_unit_widths(context, tracker, track);
    assert(tracker.team == Team::Radiant || tracker.team == Team::Dire);
}

/// Difference of two coordinates as the Radiant side sees it.
pub open spec fn seen_from(team: Team, from: int, to: int) -> int {
    if team == Team::Dire {
        from - to
    } else {
        to - from
    }
}

/// Larger of the two distances along the axes.
pub open spec fn axis_gap(left: Vec2, right: Vec2) -> int {
    let x = if left.x.raw >= right.x.raw {
        left.x.raw - right.x.raw
    } else {
        right.x.raw - left.x.raw
    };
    let y = if left.y.raw >= right.y.raw {
        left.y.raw - right.y.raw
    } else {
        right.y.raw - left.y.raw
    };
    if x >= y {
        x
    } else {
        y
    }
}

/// A unit token tells where the unit stands: the Dire side sees the map turned by half a turn,
/// and offsets, distance, and direction are taken from the own body.
pub proof fn unit_tokens_tell_where_it_stands(
    context: MapContext,
    tracker: StateTracker,
    track: EntityTrack,
    own: Vec2,
)
    requires
        1 < context.extent_raw <= 0x8000_0000,
        tracker.origin_spec() == Some(own),
        track.unit.pos.on_map(),
        track.unit.pos.x.raw < context.extent_raw,
        track.unit.pos.y.raw < context.extent_raw,
    ensures
        tracker.team != Team::Dire ==> is_part(
            cell(context, tracker, track, 15),
            track.unit.pos.x.raw as int,
            context.extent_raw - 1,
        ) && is_part(
            cell(context, tracker, track, 16),
            track.unit.pos.y.raw as int,
            context.extent_raw - 1,
        ),
        tracker.team == Team::Dire ==> is_part(
            cell(context, tracker, track, 15),
            context.extent_raw - 1 - track.unit.pos.x.raw,
            context.extent_raw - 1,
        ) && is_part(
            cell(context, tracker, track, 16),
            context.extent_raw - 1 - track.unit.pos.y.raw,
            context.extent_raw - 1,
        ),
        is_signed(
            cell(context, tracker, track, 17),
            seen_from(tracker.team, own.x.raw as int, track.unit.pos.x.raw as int),
            context.extent_raw as int,
        ),
        is_signed(
            cell(context, tracker, track, 18),
            seen_from(tracker.team, own.y.raw as int, track.unit.pos.y.raw as int),
            context.extent_raw as int,
        ),
        is_part(
            cell(context, tracker, track, 19),
            axis_gap(own, track.unit.pos),
            context.extent_raw as int,
        ),
        own != track.unit.pos ==> cell(context, tracker, track, 20) == (Scalar::Direction {
            numerator: seen_from(
                tracker.team,
                own.x.raw as int,
                track.unit.pos.x.raw as int,
            ) as i64,
            denominator: axis_gap(own, track.unit.pos) as i64,
        }),
        own != track.unit.pos ==> cell(context, tracker, track, 21) == (Scalar::Direction {
            numerator: seen_from(
                tracker.team,
                own.y.raw as int,
                track.unit.pos.y.raw as int,
            ) as i64,
            denominator: axis_gap(own, track.unit.pos) as i64,
        }),
        own == track.unit.pos ==> cell(context, tracker, track, 20) == Scalar::Zero && cell(
            context,
            tracker,
            track,
            21,
        ) == Scalar::Zero,
        cell(context, tracker, track, 22) == facing_of(tracker.team, track.unit.facing),
        is_part(
            cell(context, tracker, track, 23),
            track.unit.radius.raw as int,
            context.extent_raw as int,
        ),
        is_flag(cell(context, tracker, track, 24), track.velocity is Some),
        track.velocity is None ==> cell(context, tracker, track, 25) == Scalar::Zero && cell(
            context,
            tracker,
            track,
            26,
        ) == Scalar::Zero,
        track.velocity is Some && track.velocity->0.elapsed_ticks > 0 ==> is_signed(
            cell(context, tracker, track, 25),
            truncated(
                seen_from(tracker.team, 0, track.velocity->0.delta.x.raw as int),
                track.velocity->0.elapsed_ticks as int,
            ),
            context.extent_raw as int,
        ) && is_signed(
            cell(context, tracker, track, 26),
            truncated(
                seen_from(tracker.team, 0, track.velocity->0.delta.y.raw as int),
                track.velocity->0.elapsed_ticks as int,
            ),
            context.extent_raw as int,
        ),
        is_flag(cell(context, tracker, track, 27), track.unit.max_hp > 0),
        cell(context, tracker, track, 28) == elevation_scalar(
            context.terrain_at(track.unit.pos),
        ),
        cell(context, tracker, track, 29) == walkable_scalar(context.terrain_at(track.unit.pos)),
{
    lemma_unit_widths(context, tracker, track);
}

/// Ground is walkable where its highest bit is set, and its lowest six bits are its elevation;
/// off the grid both are zero.
pub proof fn terrain_tells_elevation_and_walkability(value: u8)
    ensures
        is_flag(walkable_scalar(Some(value)), value >= 128),
        is_part(elevation_scalar(Some(value)), value as int % 64, 63),
        walkable_scalar(None) == Scalar::Zero,
        elevation_scalar(None) == Scalar::Zero,
{
    assert((value & 0x80 != 0) == (value >= 128)) by (bit_vector);
    assert((value & 0x3f) == value % 64) by (bit_vector);
}

/// A unit token tells health and mana as parts of their maximum, their changes while the unit
/// was observed twice, and its attack, speed, armor, resistance, and sight by fixed bounds.
pub proof fn unit_tokens_tell_its_strength(
    context: MapContext,
    tracker: StateTracker,
    track: EntityTrack,
)
    ensures
        track.unit.max_hp > 0 ==> is_part(
            cell(context, tracker, track, 30),
            track.unit.hp as int,
            track.unit.max_hp as int,
        ),
        track.unit.max_hp <= 0 ==> cell(context, tracker, track, 30) == Scalar::Zero,
        is_flag(cell(context, tracker, track, 31), track.unit.max_mana > 0),
        track.unit.max_mana > 0 ==> is_part(
            cell(context, tracker, track, 32),
            track.unit.mana as int,
            track.unit.max_mana as int,
        ),
        track.unit.max_mana <= 0 ==> cell(context, tracker, track, 32) == Scalar::Zero,
        is_flag(cell(context, tracker, track, 33), track.velocity is Some),
        track.velocity is Some ==> is_signed(
            cell(context, tracker, track, 34),
            track.hp_delta as int,
            100_000,
        ),
        track.velocity is None ==> cell(context, tracker, track, 34) == Scalar::Zero,
        is_flag(cell(context, tracker, track, 35), track.velocity is Some),
        track.velocity is Some ==> is_signed(
            cell(context, tracker, track, 36),
            track.mana_delta as int,
            20_000,
        ),
        track.velocity is None ==> cell(context, tracker, track, 36) == Scalar::Zero,
        is_signed(cell(context, tracker, track, 37), track.unit.attack_damage as int, 10_000),
        is_part(cell(context, tracker, track, 38), track.unit.attack_range.raw as int, 0x7fff_ffff),
        is_part(cell(context, tracker, track, 39), track.unit.attack_interval as int, 600),
        is_signed(cell(context, tracker, track, 40), track.unit.attack_speed as int, 2_000),
        is_signed(
            cell(context, tracker, track, 41),
            track.unit.move_speed.raw as int,
            131_072_000,
        ),
        is_signed(cell(context, tracker, track, 42), track.unit.armor.raw as int, 6_553_600),
        is_signed(cell(context, tracker, track, 43), track.unit.magic_resist.raw as int, 65_536),
        is_part(
            cell(context, tracker, track, 44),
            track.unit.vision_radius.raw as int,
            0x7fff_ffff,
        ),
        is_part(
            cell(context, tracker, track, 45),
            track.unit.true_sight_radius.raw as int,
            0x7fff_ffff,
        ),
{
    lemma_unit_widths(context, tracker, track);
}

/// A unit token tells who is in whose attack range: the unit is in the own hero's range exactly
/// if it is no farther away than that range, and the own hero is in the unit's exactly if it is
/// no farther than the unit's.
pub proof fn attack_range_flags_tell_who_reaches_whom(
    context: MapContext,
    tracker: StateTracker,
    track: EntityTrack,
    hero: UnitView,
)
    requires
        tracker.hero_spec() == Some(hero),
    ensures
        near(hero.pos, track.unit.pos, hero.attack_range.raw as int) ==> cell(
            context,
            tracker,
            track,
            50,
        ) == Scalar::One,
        !near(hero.pos, track.unit.pos, hero.attack_range.raw as int) ==> cell(
            context,
            tracker,
            track,
            50,
        ) == Scalar::Zero,
        near(hero.pos, track.unit.pos, track.unit.attack_range.raw as int) ==> cell(
            context,
            tracker,
            track,
            51,
        ) == Scalar::One,
        !near(hero.pos, track.unit.pos, track.unit.attack_range.raw as int) ==> cell(
            context,
            tracker,
            track,
            51,
        ) == Scalar::Zero,
{
    lemma_unit_widths(context, tracker, track);
    lemma_near(hero.pos, track.unit.pos, hero.attack_range.raw as int);
    lemma_near(hero.pos, track.unit.pos, track.unit.attack_range.raw as int);
    assert(tracker.origin_spec() == Some(hero.pos));
}

/// Moving a unit closer to the own hero never takes it out of the hero's attack range, and a
/// longer range never loses a unit.
pub proof fn closer_units_stay_in_attack_range(
    context: MapContext,
    tracker: StateTracker,
    farther: EntityTrack,
    closer: EntityTrack,
    hero: UnitView,
)
    requires
        tracker.hero_spec() == Some(hero),
        hero.pos.distance2(closer.unit.pos) <= hero.pos.distance2(farther.unit.pos),
        cell(context, tracker, farther, 50) == Scalar::One,
    ensures
        cell(context, tracker, closer, 50) == Scalar::One,
{
    lemma_unit_widths(context, tracker, farther);
    lemma_unit_widths(context, tracker, closer);
}

/// A unit token tells how the own hero can fight: in how many attacks, the least whose damage
/// reaches the unit's health, and in how many ticks it walks the larger distance along an axis.
pub proof fn unit_tokens_tell_how_to_fight(
    context: MapContext,
    tracker: StateTracker,
    track: EntityTrack,
    hero: UnitView,
    attacks: int,
)
    requires
        tracker.hero_spec() == Some(hero),
        hero.attack_damage > 0 && track.unit.hp > 0 ==> (attacks - 1) * hero.attack_damage
            < track.unit.hp <= attacks * hero.attack_damage,
    ensures
        is_flag(
            cell(context, tracker, track, 46),
            hero.attack_damage > 0 && track.unit.hp > 0,
        ),
        hero.attack_damage > 0 && track.unit.hp > 0 ==> is_part(
            cell(context, tracker, track, 47),
            attacks - 1,
            99,
        ),
        !(hero.attack_damage > 0 && track.unit.hp > 0) ==> cell(context, tracker, track, 47)
            == Scalar::Zero,
        is_flag(cell(context, tracker, track, 48), hero.move_speed.raw > 0),
        hero.move_speed.raw > 0 ==> is_part(
            cell(context, tracker, track, 49),
            axis_gap(hero.pos, track.unit.pos) * tracker.metadata.tick_rate
                / hero.move_speed.raw as int,
            4_800,
        ),
        hero.move_speed.raw <= 0 ==> cell(context, tracker, track, 49) == Scalar::Zero,
{
    lemma_unit_widths(context, tracker, track);
    assert(tracker.origin_spec() == Some(hero.pos));
    if hero.attack_damage > 0 && track.unit.hp > 0 {
        let damage = hero.attack_damage as int;
        let hp = track.unit.hp as int;
        assert((hp + damage - 1) / damage == attacks) by (nonlinear_arith)
            requires
                damage > 0,
                (attacks - 1) * damage < hp <= attacks * damage,
        ;
        assert(attacks_needed(track.unit, hero) == attacks);
    }
    assert(crate::scalar::axis_distance(hero.pos, track.unit.pos) == axis_gap(
        hero.pos,
        track.unit.pos,
    ));
}

/// Without an own body, or without a hero, a unit token tells nothing of a fight.
pub proof fn unit_tokens_tell_no_fight_without_a_hero(
    context: MapContext,
    tracker: StateTracker,
    track: EntityTrack,
    column: int,
)
    requires
        tracker.hero_spec() is None,
        46 <= column < 52,
    ensures
        cell(context, tracker, track, column) == Scalar::Zero,
{
    lemma_unit_widths(context, tracker, track);
}

/// A unit token tells each status of the unit, and how many of its item slots are free.
pub proof fn unit_tokens_tell_its_statuses(
    context: MapContext,
    tracker: StateTracker,
    track: EntityTrack,
)
    ensures
        is_flag(cell(context, tracker, track, 52), track.unit.statuses.bits & 1 != 0),
        is_flag(cell(context, tracker, track, 53), track.unit.statuses.bits & 2 != 0),
        is_flag(cell(context, tracker, track, 54), track.unit.statuses.bits & 4 != 0),
        is_flag(cell(context, tracker, track, 55), track.unit.statuses.bits & 8 != 0),
        is_flag(cell(context, tracker, track, 56), track.unit.statuses.bits & 16 != 0),
        is_flag(cell(context, tracker, track, 57), track.unit.statuses.bits & 32 != 0),
        is_flag(cell(context, tracker, track, 58), track.unit.statuses.bits & 64 != 0),
        is_flag(cell(context, tracker, track, 59), track.unit.statuses.bits & 128 != 0),
        is_flag(cell(context, tracker, track, 60), track.unit.statuses.bits & 256 != 0),
        is_part(cell(context, tracker, track, 66), track.unit.items@.len() as int, 9),
        is_part(cell(context, tracker, track, 67), free_count(track.unit.items@) as int, 9),
        is_flag(
            cell(context, tracker, track, 68),
            exists|i: int|
                0 <= i < track.unit.items@.len() && (#[trigger] track.unit.items@[i]) is None,
        ),
{
    lemma_unit_widths(context, tracker, track);
    lemma_free_count(track.unit.items@);
}

} // verus!
