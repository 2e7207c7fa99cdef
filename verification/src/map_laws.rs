//! What the map scalars tell of the ground and the landmarks around the own body.
use crate::feature_laws::{cell, is_flag, is_part, is_signed};
use crate::map_context::MapContext;
use crate::map_features::{nearest_squared, ray_point, world_direction, RayTest};
use crate::nearness::{apart, lemma_distance};
use crate::passability::tree_stands;
use crate::scalar::Scalar;
use crate::token_laws::{fresh, the_latest_damage_dealt_counts, the_latest_damage_taken_counts};
use crate::tracker::{run_cells, EntityTrack, ObservedKind, StateTracker};
use crate::world::{Team, UnitKind, UnitView, Vec2, WorldView};
use vstd::prelude::*;

verus! {

/// The nearest unit of a kind and side: one of them is as near, and none is nearer; without one
/// there is no distance.
pub proof fn nearest_landmarks_are_nearest(
    units: Seq<UnitView>,
    kind: UnitKind,
    team: Team,
    origin: Vec2,
)
    ensures
        match nearest_squared(units, kind, team, origin) {
            Some(distance) => {
                &&& exists|i: int|
                    0 <= i < units.len() && (#[trigger] units[i]).kind == kind && units[i].team
                        == team && apart(origin, units[i].pos) == distance
                &&& forall|i: int|
                    0 <= i < units.len() && (#[trigger] units[i]).kind == kind && units[i].team
                        == team ==> distance <= apart(origin, units[i].pos)
            },
            None => forall|i: int|
                0 <= i < units.len() ==> (#[trigger] units[i]).kind != kind || units[i].team
                    != team,
        },
    decreases units.len(),
{
    if units.len() > 0 {
        let rest = units.drop_last();
        let last = units.len() - 1;
        nearest_landmarks_are_nearest(rest, kind, team, origin);
        lemma_distance(origin, units[last].pos);
        let before = nearest_squared(rest, kind, team, origin);
        let all = nearest_squared(units, kind, team, origin);
        if before is Some {
            let i = choose|i: int|
                0 <= i < rest.len() && (#[trigger] rest[i]).kind == kind && rest[i].team == team
                    && apart(origin, rest[i].pos) == before->0;
            assert(units[i] == rest[i]);
        }
        if all is Some {
            assert forall|i: int|
                0 <= i < units.len() && (#[trigger] units[i]).kind == kind && units[i].team
                    == team implies all->0 <= apart(origin, units[i].pos) by {
                if i < last {
                    assert(rest[i] == units[i]);
                }
            }
        } else {
            assert forall|i: int| 0 <= i < units.len() implies (#[trigger] units[i]).kind != kind
                || units[i].team != team by {
                if i < last {
                    assert(rest[i] == units[i]);
                }
            }
        }
    }
}

/// Opponent of one of the two playing sides.
pub open spec fn other_side(team: Team) -> Team {
    if team == Team::Radiant {
        Team::Dire
    } else {
        Team::Radiant
    }
}

/// Map scalars tell whether the own and the enemy fountain and towers are in view, in that order.
pub proof fn map_scalars_tell_the_landmarks(
    context: MapContext,
    tracker: StateTracker,
    origin: Vec2,
)
    requires
        tracker.origin_spec() == Some(origin),
        tracker.team != Team::Neutral,
    ensures
        is_flag(
            context.map_row(tracker)[6],
            nearest_squared(
                tracker.view_spec().units@,
                UnitKind::Fountain,
                tracker.team,
                origin,
            ) is Some,
        ),
        is_flag(
            context.map_row(tracker)[8],
            nearest_squared(
                tracker.view_spec().units@,
                UnitKind::Fountain,
                other_side(tracker.team),
                origin,
            ) is Some,
        ),
        is_flag(
            context.map_row(tracker)[10],
            nearest_squared(
                tracker.view_spec().units@,
                UnitKind::Tower,
                tracker.team,
                origin,
            ) is Some,
        ),
        is_flag(
            context.map_row(tracker)[12],
            nearest_squared(
                tracker.view_spec().units@,
                UnitKind::Tower,
                other_side(tracker.team),
                origin,
            ) is Some,
        ),
{
    assert(tracker.team == Team::Radiant || tracker.team == Team::Dire);
    assert(context.ground_row(tracker, origin).len() == 6);
}

/// Map scalars tell the ground under the own body: whether it can be walked, is water, blocks
/// sight, or holds a tree; without a body they tell nothing.
pub proof fn map_scalars_tell_the_ground(
    context: MapContext,
    tracker: StateTracker,
    origin: Vec2,
    ground: u8,
)
    requires
        tracker.origin_spec() == Some(origin),
        context.cell_spec(origin) is Some,
        context.terrain@[context.cell_spec(origin)->0] == ground,
    ensures
        context.map_row(tracker)[0] == Scalar::One,
        is_flag(context.map_row(tracker)[1], ground >= 128),
        is_flag(context.map_row(tracker)[2], ground as int / 64 % 2 == 1),
        is_part(context.map_row(tracker)[3], ground as int % 64, 63),
        is_flag(
            context.map_row(tracker)[4],
            context.opaque@[context.cell_spec(origin)->0],
        ),
        is_flag(context.map_row(tracker)[5], context.tree_known(tracker, origin)),
{
    assert((ground & 0x80 != 0) == (ground >= 128)) by (bit_vector);
    assert((ground & 0x40 != 0) == (ground / 64 % 2 == 1)) by (bit_vector);
    assert((ground & 0x3f) == ground % 64) by (bit_vector);
    assert(context.ground_row(tracker, origin).len() == 6);
}

/// Without an own body every map scalar is zero.
pub proof fn map_scalars_need_a_body(context: MapContext, tracker: StateTracker, column: int)
    requires
        tracker.origin_spec() is None,
        0 <= column < 96,
    ensures
        context.map_row(tracker)[column] == Scalar::Zero,
{
}

/// Whether the steps of a ray from one to another lie on the map.
pub open spec fn stays_on_map(
    context: MapContext,
    origin: Vec2,
    direction: (int, int),
    from: int,
    to: int,
) -> bool {
    forall|b: int|
        from <= b <= to ==> context.cell_spec(#[trigger] ray_point(origin, direction, b)) is Some
}

/// A ray tells the first step at which it meets what it looks for; every step before it is on
/// the map and free of it. The edge of the map blocks the way, and ends every other ray.
pub proof fn rays_tell_the_first_obstacle(
    context: MapContext,
    tracker: StateTracker,
    origin: Vec2,
    direction: (int, int),
    test: RayTest,
    step: int,
)
    requires
        1 <= step,
    ensures
        match context.ray_hit(tracker, origin, direction, test, step) {
            Some(hit) => {
                &&& step <= hit <= 20
                &&& forall|s: int|
                    step <= s < hit ==> context.cell_spec(
                        #[trigger] ray_point(origin, direction, s),
                    ) is Some && !context.ray_test(tracker, origin, direction, test, s)
                &&& if context.cell_spec(ray_point(origin, direction, hit)) is None {
                    test == RayTest::Blocked
                } else {
                    context.ray_test(tracker, origin, direction, test, hit)
                }
            },
            None => forall|s: int|
                step <= s <= 20 && stays_on_map(context, origin, direction, step, s)
                    ==> !(#[trigger] context.ray_test(tracker, origin, direction, test, s)),
        },
    decreases 21 - step,
{
    if step <= 20 && context.cell_spec(ray_point(origin, direction, step)) is Some
        && !context.ray_test(tracker, origin, direction, test, step) {
        rays_tell_the_first_obstacle(context, tracker, origin, direction, test, step + 1);
        if context.ray_hit(tracker, origin, direction, test, step) is None {
            assert forall|s: int|
                step <= s <= 20 && stays_on_map(context, origin, direction, step, s) implies !(
            #[trigger] context.ray_test(tracker, origin, direction, test, s)) by {
                if s > step {
                    assert(stays_on_map(context, origin, direction, step + 1, s));
                }
            }
        }
    } else if step <= 20 && context.cell_spec(ray_point(origin, direction, step)) is None {
        assert forall|s: int| step <= s <= 20 implies !stays_on_map(
            context,
            origin,
            direction,
            step,
            s,
        ) by {
            if stays_on_map(context, origin, direction, step, s) {
                assert(context.cell_spec(ray_point(origin, direction, step)) is Some);
            }
        }
    }
}

/// What rays look for: ground that cannot be walked, water, ground that blocks sight, and trees
/// that this seat knows of; eight rays turn from the own east on.
pub proof fn rays_look_for_ground(
    context: MapContext,
    tracker: StateTracker,
    origin: Vec2,
    direction: (int, int),
    step: int,
    ground: u8,
)
    requires
        context.cell_spec(ray_point(origin, direction, step)) is Some,
        context.terrain@[context.cell_spec(ray_point(origin, direction, step))->0] == ground,
    ensures
        context.ray_test(tracker, origin, direction, RayTest::Blocked, step) <==> ground < 128,
        context.ray_test(tracker, origin, direction, RayTest::Water, step) <==> ground as int / 64
            % 2 == 1,
        context.ray_test(tracker, origin, direction, RayTest::Opaque, step) <==> context.opaque@[
            context.cell_spec(ray_point(origin, direction, step))->0
        ],
        context.ray_test(tracker, origin, direction, RayTest::Tree, step) <==> context.tree_known(
            tracker,
            ray_point(origin, direction, step),
        ),
        world_direction(Team::Radiant, 0) == (1int, 0int),
        world_direction(Team::Radiant, 2) == (0int, 1int),
        world_direction(Team::Radiant, 4) == (-1int, 0int),
        world_direction(Team::Radiant, 6) == (0int, -1int),
        world_direction(Team::Dire, 0) == (-1int, 0int),
        world_direction(Team::Dire, 2) == (0int, -1int),
{
    assert((ground & 0x80 == 0) == (ground < 128)) by (bit_vector);
    assert((ground & 0x40 != 0) == (ground / 64 % 2 == 1)) by (bit_vector);
}

/// A tree of the map stands unless it was felled where this seat can see it.
pub proof fn trees_fall_where_they_are_seen(tracker: StateTracker, view: WorldView, t: int)
    requires
        0 <= t < tracker.static_trees@.len(),
        t <= u32::MAX,
    ensures
        !view.felled_trees@.contains(t as u32) ==> tree_stands(tracker, view, t),
        !tracker.observable(tracker.static_trees@[t]) ==> tree_stands(tracker, view, t),
        view.felled_trees@.contains(t as u32) && tracker.observable(tracker.static_trees@[t])
            ==> !tree_stands(tracker, view, t),
{
}

/// A unit token tells that its unit was hit from the events that hit it, and what it dealt from
/// the events that it caused, and nothing from stale ones.
pub proof fn unit_tokens_tell_recent_damage(
    context: MapContext,
    tracker: StateTracker,
    track: EntityTrack,
    hit: int,
    dealt: int,
)
    requires
        0 <= hit < tracker.events@.len(),
        0 <= dealt < tracker.events@.len(),
        fresh(tracker.events@[hit], tracker.view_spec().tick),
        fresh(tracker.events@[dealt], tracker.view_spec().tick),
        tracker.events@[hit].kind matches ObservedKind::Damaged { target, .. } && target
            == track.id,
        tracker.events@[dealt].kind matches ObservedKind::Damaged { source, .. } && source
            == Some(track.id),
        forall|j: int|
            hit < j < tracker.events@.len() ==> !(fresh(
                #[trigger] tracker.events@[j],
                tracker.view_spec().tick,
            ) && tracker.events@[j].kind is Damaged && tracker.events@[j].kind->Damaged_target
                == track.id),
        forall|j: int|
            dealt < j < tracker.events@.len() ==> !(fresh(
                #[trigger] tracker.events@[j],
                tracker.view_spec().tick,
            ) && tracker.events@[j].kind is Damaged && tracker.events@[j].kind->Damaged_source
                == Some(track.id)),
    ensures
        cell(context, tracker, track, 61) == Scalar::One,
        cell(context, tracker, track, 62) == Scalar::One,
        is_signed(
            cell(context, tracker, track, 63),
            tracker.events@[dealt].kind->Damaged_amount as int,
            10_000,
        ),
{
    let tick = tracker.view_spec().tick;
    the_latest_damage_taken_counts(tracker.events@, track.id, tick, hit);
    the_latest_damage_dealt_counts(tracker.events@, track.id, tick, dealt);
    assert(context.unit_identity(tracker, track, tracker.origin_spec()).len() == 15);
    assert(context.unit_place(tracker, track, tracker.origin_spec()).len() == 15);
    assert(context.unit_resource(tracker, track, tracker.origin_spec()).len() == 16);
    assert(context.unit_combat(tracker, track, tracker.origin_spec()).len() == 15);
}

/// A place lies in the cell of its column and row of 64 units, counted row by row; places off
/// the grid lie in none.
pub proof fn places_lie_in_their_cell(context: MapContext, place: Vec2)
    ensures
        context.cell_spec(place) is Some <==> 0 <= place.x.raw < context.axis * 4_194_304 && 0
            <= place.y.raw < context.axis * 4_194_304,
        context.cell_spec(place) is Some ==> context.cell_spec(place)->0 == place.y.raw as int
            / 4_194_304 * context.axis + place.x.raw as int / 4_194_304,
{
}

/// Terrain runs repeat their ground as often as they say, one behind the other.
pub proof fn terrain_runs_repeat_their_ground(runs: Seq<(u16, u8)>, length: u16, ground: u8)
    ensures
        run_cells(runs.push((length, ground))) == run_cells(runs) + Seq::new(
            length as nat,
            |i: int| ground,
        ),
        run_cells(Seq::empty()).len() == 0,
{
    assert(runs.push((length, ground)).drop_last() =~= runs);
    assert(run_cells(runs.push((length, ground))) =~= run_cells(runs) + Seq::new(
        length as nat,
        |i: int| ground,
    ));
}

/// A tree of the map is known in its cell unless this seat has seen it felled.
pub proof fn standing_trees_are_known(
    context: MapContext,
    tracker: StateTracker,
    place: Vec2,
    t: int,
)
    requires
        context.cell_spec(place) is Some,
        0 <= t < context.static_tree_index@.len(),
        context.static_tree_index@[t].0 == context.cell_spec(place)->0,
        !tracker.observable(place) || !tracker.view_spec().felled_trees@.contains(
            context.static_tree_index@[t].1,
        ),
    ensures
        context.tree_known(tracker, place),
{
}

/// A planted tree is known in its cell where this seat can see it.
pub proof fn seen_planted_trees_are_known(
    context: MapContext,
    tracker: StateTracker,
    place: Vec2,
    t: int,
)
    requires
        context.cell_spec(place) is Some,
        0 <= t < tracker.view_spec().planted_trees@.len(),
        context.cell_spec(tracker.view_spec().planted_trees@[t]) == context.cell_spec(place),
        tracker.observable(place),
    ensures
        context.tree_known(tracker, place),
{
}

/// No tree is known off the grid, nor where every tree of the map was seen felled and none was
/// planted, nor where none of the map stands and nothing is in sight.
pub proof fn other_ground_holds_no_tree(context: MapContext, tracker: StateTracker, place: Vec2)
    requires
        context.cell_spec(place) is None || forall|t: int|
            0 <= t < context.static_tree_index@.len() && (
            #[trigger] context.static_tree_index@[t]).0 == context.cell_spec(place)->0
                ==> tracker.observable(place) && tracker.view_spec().felled_trees@.contains(
                context.static_tree_index@[t].1,
            ),
        context.cell_spec(place) is None || !tracker.observable(place) || forall|t: int|
            0 <= t < tracker.view_spec().planted_trees@.len() ==> context.cell_spec(
                #[trigger] tracker.view_spec().planted_trees@[t],
            ) != context.cell_spec(place),
    ensures
        !context.tree_known(tracker, place),
{
}

} // verus!
