//! Where a unit can stand, and what the offered points tell of the ground.
use crate::action::PointCandidate;
use crate::nearness::{apart, lemma_distance};
use crate::order::stable_order_exists;
use crate::passability::{
    cell_open, covers, grid_matches, tree_clearance, tree_stands, StaticPassability,
};
use crate::points::{
    clamped, heroes_capped, keys_of, landing_number, landing_of, landing_position, landing_records,
    lands, lands_no_later, merged, nearest_lands, ordered, points_spec, predicted_records, pushed,
    pushed_all, pushed_until_full, static_tree_records, tactical_candidate, tactical_candidates,
    taken, tree_records, with_landmarks,
};
use crate::search::lemma_first_from_means;
use crate::tracker::{cell_of_spec, run_cells, StateTracker};
use crate::world::{square, Fixed, Team, UnitKind, UnitView, Vec2, WorldView};
use vstd::prelude::*;

verus! {

/// Whether a raw place is at most a raw distance from the center of a cell of 64 units.
#[verifier::opaque]
pub open spec fn shades(place: Vec2, radius: int, x: int, y: int) -> bool {
    ((x * 64 + 32) * 65_536 - place.x.raw) * ((x * 64 + 32) * 65_536 - place.x.raw) + ((y * 64
        + 32) * 65_536 - place.y.raw) * ((y * 64 + 32) * 65_536 - place.y.raw) <= radius * radius
}

/// Whether a place lies on a square grid of cells of 64 units.
pub open spec fn on_grid(axis: int, place: Vec2) -> bool {
    0 <= place.x.raw < axis * 4_194_304 && 0 <= place.y.raw < axis * 4_194_304
}

proof fn lemma_on_grid(axis: int, place: Vec2)
    ensures
        cell_of_spec(axis, place) is Some <==> on_grid(axis, place),
        cell_of_spec(axis, place) is Some ==> cell_of_spec(axis, place)->0 == (
            place.x.raw as int / 4_194_304,
            place.y.raw as int / 4_194_304,
        ),
{
}

proof fn lemma_covers(axis: int, place: Vec2, radius: Fixed, x: int, y: int)
    ensures
        covers(axis, place, radius, x, y) == (on_grid(axis, place) && shades(
            place,
            radius.raw as int,
            x,
            y,
        )),
{
    reveal(shades);
    lemma_on_grid(axis, place);
}

/// A cell is open exactly if its terrain can be walked and its center is farther than 80 from
/// every standing tree of the map and every planted tree in sight, and farther from every
/// structure than the structure's radius and 32 more.
pub proof fn open_cells_are_clear(
    tracker: StateTracker,
    view: WorldView,
    index: int,
)
    requires
        forall|u: int|
            0 <= u < view.units@.len() ==> 0 <= (#[trigger] view.units@[u]).radius.raw
                <= 0x7fff_ffff - 2_097_152,
    ensures
        cell_open(tracker, view, index) <==> {
            &&& run_cells(tracker.terrain_rle@)[index] >= 128
            &&& forall|t: int|
                0 <= t < tracker.static_trees@.len() && tree_stands(tracker, view, t) && on_grid(
                    tracker.axis(),
                    #[trigger] tracker.static_trees@[t],
                ) ==> !shades(
                    tracker.static_trees@[t],
                    5_242_880,
                    index % tracker.axis(),
                    index / tracker.axis(),
                )
            &&& forall|t: int|
                0 <= t < view.planted_trees@.len() && tracker.observable(
                    #[trigger] view.planted_trees@[t],
                ) && on_grid(tracker.axis(), view.planted_trees@[t]) ==> !shades(
                    view.planted_trees@[t],
                    5_242_880,
                    index % tracker.axis(),
                    index / tracker.axis(),
                )
            &&& forall|u: int|
                0 <= u < view.units@.len() && ((#[trigger] view.units@[u]).kind == UnitKind::Tower
                    || view.units@[u].kind == UnitKind::Ancient || view.units@[u].kind
                    == UnitKind::Fountain) && on_grid(tracker.axis(), view.units@[u].pos)
                    ==> !shades(
                    view.units@[u].pos,
                    view.units@[u].radius.raw + 2_097_152,
                    index % tracker.axis(),
                    index / tracker.axis(),
                )
        },
{
    let axis = tracker.axis();
    let x = index % axis;
    let y = index / axis;
    let ground = run_cells(tracker.terrain_rle@)[index];
    assert((ground & 0x80 != 0) == (ground >= 128)) by (bit_vector);
    assert forall|t: int| 0 <= t < tracker.static_trees@.len() implies covers(
        axis,
        #[trigger] tracker.static_trees@[t],
        tree_clearance(),
        x,
        y,
    ) == (on_grid(axis, tracker.static_trees@[t]) && shades(
        tracker.static_trees@[t],
        5_242_880,
        x,
        y,
    )) by {
        lemma_covers(axis, tracker.static_trees@[t], tree_clearance(), x, y);
    }
    assert forall|t: int| 0 <= t < view.planted_trees@.len() implies covers(
        axis,
        #[trigger] view.planted_trees@[t],
        tree_clearance(),
        x,
        y,
    ) == (on_grid(axis, view.planted_trees@[t]) && shades(
        view.planted_trees@[t],
        5_242_880,
        x,
        y,
    )) by {
        lemma_covers(axis, view.planted_trees@[t], tree_clearance(), x, y);
    }
    assert forall|u: int| 0 <= u < view.units@.len() implies covers(
        axis,
        (#[trigger] view.units@[u]).pos,
        crate::passability::structure_clearance(view.units@[u]),
        x,
        y,
    ) == (on_grid(axis, view.units@[u].pos) && shades(
        view.units@[u].pos,
        view.units@[u].radius.raw + 2_097_152,
        x,
        y,
    )) by {
        lemma_covers(
            axis,
            view.units@[u].pos,
            crate::passability::structure_clearance(view.units@[u]),
            x,
            y,
        );
    }
}

/// A unit can stand exactly on the map in an open cell, the one that holds its place.
pub proof fn units_stand_in_open_cells(
    tracker: StateTracker,
    view: WorldView,
    grid: StaticPassability,
    place: Vec2,
)
    requires
        grid_matches(grid, tracker, view),
    ensures
        grid.standable(place) <==> on_grid(tracker.axis(), place) && cell_open(
            tracker,
            view,
            place.y.raw as int / 4_194_304 * tracker.axis() + place.x.raw as int / 4_194_304,
        ),
{
    let axis = tracker.axis();
    lemma_on_grid(axis, place);
    if on_grid(axis, place) {
        let x = place.x.raw as int / 4_194_304;
        let y = place.y.raw as int / 4_194_304;
        assert(0 <= y * axis + x < axis * axis) by (nonlinear_arith)
            requires
                0 <= x < axis,
                0 <= y < axis,
        ;
    }
}

proof fn lemma_nearest(grid: StaticPassability, center: Vec2, team: Team, x: int, y: int)
    requires
        lands(grid, center, team, x, y),
    ensures
        exists|cell: (int, int)| nearest_lands(grid, center, team, cell),
    decreases
            center.distance2(landing_position(team, x, y)),
            landing_number(grid.axis as int, team, x, y),
{
    let axis = grid.axis as int;
    if nearest_lands(grid, center, team, (x, y)) {
    } else {
        let (a, b) = choose|a: int, b: int| #[trigger]
            lands(grid, center, team, a, b) && !lands_no_later(
                axis,
                center,
                team,
                (x, y),
                (a, b),
            );
        lemma_distance(center, landing_position(team, a, b));
        lemma_distance(center, landing_position(team, x, y));
        assert(0 <= b * axis + a <= axis * axis - 1) by (nonlinear_arith)
            requires
                0 <= a < axis,
                0 <= b < axis,
        ;
        lemma_nearest(grid, center, team, a, b);
    }
}

/// A landing place can be stood on, and lies within ten cells of its structure.
pub proof fn landing_places_can_be_stood_on(
    grid: StaticPassability,
    center: Vec2,
    team: Team,
    place: Vec2,
)
    requires
        landing_of(grid, center, team) == Some(place),
    ensures
        grid.standable(place),
        exists|x: int, y: int| #[trigger]
            lands(grid, center, team, x, y) && landing_position(team, x, y) == place,
{
    let (x, y) = choose|x: int, y: int| lands(grid, center, team, x, y);
    lemma_nearest(grid, center, team, x, y);
    let cell = choose|cell: (int, int)| nearest_lands(grid, center, team, cell);
    assert(nearest_lands(grid, center, team, cell));
    assert(lands(grid, center, team, cell.0, cell.1));
}

/// No open cell within ten cells of a structure gives a nearer landing place.
pub proof fn landing_places_are_the_nearest(
    grid: StaticPassability,
    center: Vec2,
    team: Team,
    place: Vec2,
    x: int,
    y: int,
)
    requires
        landing_of(grid, center, team) == Some(place),
        on_grid(grid.axis as int, center),
        0 <= x < grid.axis,
        0 <= y < grid.axis,
        center.x.raw as int / 4_194_304 - 10 <= x <= center.x.raw as int / 4_194_304 + 10,
        center.y.raw as int / 4_194_304 - 10 <= y <= center.y.raw as int / 4_194_304 + 10,
        grid.standable(landing_position(team, x, y)),
    ensures
        apart(center, place) <= apart(center, landing_position(team, x, y)),
{
    lemma_on_grid(grid.axis as int, center);
    assert(lands(grid, center, team, x, y));
    lemma_nearest(grid, center, team, x, y);
    let cell = choose|cell: (int, int)| nearest_lands(grid, center, team, cell);
    assert(nearest_lands(grid, center, team, cell));
    lemma_distance(center, place);
    lemma_distance(center, landing_position(team, x, y));
}

/// Whether a tree that stands as far as this seat knows occupies a place.
pub open spec fn tree_at(tracker: StateTracker, view: WorldView, place: Vec2) -> bool {
    ||| exists|t: int|
        0 <= t < tracker.static_trees@.len() && tree_stands(tracker, view, t) && clamped(
            tracker.axis(),
            (#[trigger] tracker.static_trees@[t]).x.raw as int,
            tracker.static_trees@[t].y.raw as int,
        ) == place
    ||| exists|t: int|
        0 <= t < view.planted_trees@.len() && tracker.observable(#[trigger] view.planted_trees@[t])
            && clamped(
            tracker.axis(),
            view.planted_trees@[t].x.raw as int,
            view.planted_trees@[t].y.raw as int,
        ) == place
}

/// Whether a place is the landing place of a structure of the own side in view.
pub open spec fn landing_at(
    tracker: StateTracker,
    view: WorldView,
    grid: StaticPassability,
    place: Vec2,
) -> bool {
    exists|u: int|
        0 <= u < view.units@.len() && (#[trigger] view.units@[u]).team == tracker.team && (
        view.units@[u].kind == UnitKind::Tower || view.units@[u].kind == UnitKind::Ancient
            || view.units@[u].kind == UnitKind::Fountain) && landing_of(
            grid,
            view.units@[u].pos,
            tracker.team,
        ) == Some(place)
}

/// Whether a point tells the truth of its place: it is walkable exactly if a unit can stand
/// there, holds a tree only where one stands, and is a landing place only of an own structure.
pub open spec fn truthful(
    tracker: StateTracker,
    view: WorldView,
    grid: StaticPassability,
    point: PointCandidate,
) -> bool {
    &&& point.walkable == grid.standable(point.position)
    &&& point.standing_tree ==> tree_at(tracker, view, point.position)
    &&& point.allied_building ==> landing_at(tracker, view, grid, point.position)
}

spec fn all_truthful(
    tracker: StateTracker,
    view: WorldView,
    grid: StaticPassability,
    points: Seq<PointCandidate>,
) -> bool {
    forall|i: int| 0 <= i < points.len() ==> truthful(tracker, view, grid, #[trigger] points[i])
}

proof fn lemma_pushed_truthful(
    tracker: StateTracker,
    view: WorldView,
    grid: StaticPassability,
    points: Seq<PointCandidate>,
    candidate: PointCandidate,
)
    requires
        all_truthful(tracker, view, grid, points),
        truthful(tracker, view, grid, candidate),
    ensures
        all_truthful(tracker, view, grid, pushed(points, candidate)),
{
    let test = |point: PointCandidate| point.position == candidate.position;
    lemma_first_from_means(points, test, 0);
    let found = crate::search::first_index(points, test);
    if found is Some {
        let i = found->0;
        assert(test(points[i]));
        assert(truthful(tracker, view, grid, points[i]));
        assert(truthful(tracker, view, grid, merged(points[i], candidate)));
    }
}

proof fn lemma_all_truthful(
    tracker: StateTracker,
    view: WorldView,
    grid: StaticPassability,
    points: Seq<PointCandidate>,
    candidates: Seq<PointCandidate>,
)
    requires
        all_truthful(tracker, view, grid, points),
        all_truthful(tracker, view, grid, candidates),
    ensures
        all_truthful(tracker, view, grid, pushed_all(points, candidates)),
        all_truthful(tracker, view, grid, pushed_until_full(points, candidates)),
    decreases candidates.len(),
{
    if candidates.len() > 0 {
        let rest = candidates.drop_last();
        assert forall|i: int| 0 <= i < rest.len() implies truthful(
            tracker,
            view,
            grid,
            #[trigger] rest[i],
        ) by {
            assert(rest[i] == candidates[i]);
        }
        assert(truthful(tracker, view, grid, candidates[candidates.len() - 1]));
        lemma_all_truthful(tracker, view, grid, points, rest);
        lemma_pushed_truthful(tracker, view, grid, pushed_all(points, rest), candidates.last());
        lemma_pushed_truthful(
            tracker,
            view,
            grid,
            pushed_until_full(points, rest),
            candidates.last(),
        );
    }
}

spec fn records_truthful(
    tracker: StateTracker,
    view: WorldView,
    grid: StaticPassability,
    records: Seq<(PointCandidate, Seq<i128>)>,
) -> bool {
    forall|i: int|
        0 <= i < records.len() ==> truthful(tracker, view, grid, (#[trigger] records[i]).0)
}

proof fn lemma_ordered_truthful(
    tracker: StateTracker,
    view: WorldView,
    grid: StaticPassability,
    records: Seq<(PointCandidate, Seq<i128>)>,
)
    requires
        records_truthful(tracker, view, grid, records),
        records.len() <= usize::MAX,
    ensures
        all_truthful(tracker, view, grid, ordered(records)),
{
    let found = stable_order_exists(keys_of(records));
    let order = crate::order::stable_order_of(keys_of(records));
    let list = ordered(records);
    assert forall|i: int| 0 <= i < list.len() implies truthful(
        tracker,
        view,
        grid,
        #[trigger] list[i],
    ) by {
        assert(order[i] < keys_of(records).len());
        assert(list[i] == records[order[i] as int].0);
    }
}

proof fn lemma_landings_truthful(
    tracker: StateTracker,
    view: WorldView,
    grid: StaticPassability,
    center: Vec2,
    count: int,
)
    requires
        0 <= count <= view.units@.len(),
    ensures
        records_truthful(
            tracker,
            view,
            grid,
            landing_records(tracker, view.units@, grid, center, count),
        ),
        landing_records(tracker, view.units@, grid, center, count).len() <= count,
    decreases count,
{
    if count > 0 {
        lemma_landings_truthful(tracker, view, grid, center, count - 1);
        let unit = view.units@[count - 1];
        let landing = landing_of(grid, unit.pos, tracker.team);
        if landing is Some && unit.team == tracker.team && unit.kind.structure() {
            landing_places_can_be_stood_on(grid, unit.pos, tracker.team, landing->0);
            assert(landing_at(tracker, view, grid, landing->0));
        }
    }
}

proof fn lemma_static_trees_truthful(
    tracker: StateTracker,
    view: WorldView,
    grid: StaticPassability,
    center: Vec2,
    count: int,
)
    requires
        0 <= count <= tracker.static_trees@.len(),
    ensures
        records_truthful(
            tracker,
            view,
            grid,
            static_tree_records(tracker, view, grid, center, count),
        ),
        static_tree_records(tracker, view, grid, center, count).len() <= count,
    decreases count,
{
    if count > 0 {
        lemma_static_trees_truthful(tracker, view, grid, center, count - 1);
        if tree_stands(tracker, view, count - 1) {
            let tree = tracker.static_trees@[count - 1];
            assert(tree_at(
                tracker,
                view,
                clamped(tracker.axis(), tree.x.raw as int, tree.y.raw as int),
            ));
        }
    }
}

proof fn lemma_trees_truthful(
    tracker: StateTracker,
    view: WorldView,
    grid: StaticPassability,
    center: Vec2,
    count: int,
)
    requires
        0 <= count <= view.planted_trees@.len(),
    ensures
        records_truthful(tracker, view, grid, tree_records(tracker, view, grid, center, count)),
        tree_records(tracker, view, grid, center, count).len() <= tracker.static_trees@.len()
            + count,
    decreases count,
{
    if count > 0 {
        lemma_trees_truthful(tracker, view, grid, center, count - 1);
        let tree = view.planted_trees@[count - 1];
        if tracker.observable(tree) {
            assert(tree_at(
                tracker,
                view,
                clamped(tracker.axis(), tree.x.raw as int, tree.y.raw as int),
            ));
        }
    } else {
        lemma_static_trees_truthful(
            tracker,
            view,
            grid,
            center,
            tracker.static_trees@.len() as int,
        );
    }
}

proof fn lemma_predicted_truthful(
    tracker: StateTracker,
    view: WorldView,
    grid: StaticPassability,
    center: Vec2,
    count: int,
)
    requires
        0 <= count <= view.units@.len(),
    ensures
        records_truthful(
            tracker,
            view,
            grid,
            predicted_records(tracker, view.units@, grid, center, count),
        ),
        predicted_records(tracker, view.units@, grid, center, count).len() <= count,
    decreases count,
{
    if count > 0 {
        lemma_predicted_truthful(tracker, view, grid, center, count - 1);
    }
}

proof fn lemma_capped_truthful(
    tracker: StateTracker,
    view: WorldView,
    grid: StaticPassability,
    candidates: Seq<PointCandidate>,
)
    requires
        all_truthful(tracker, view, grid, candidates),
    ensures
        all_truthful(tracker, view, grid, heroes_capped(candidates)),
    decreases candidates.len(),
{
    if candidates.len() > 0 {
        let rest = candidates.drop_last();
        assert forall|i: int| 0 <= i < rest.len() implies truthful(
            tracker,
            view,
            grid,
            #[trigger] rest[i],
        ) by {
            assert(rest[i] == candidates[i]);
        }
        assert(truthful(tracker, view, grid, candidates[candidates.len() - 1]));
        lemma_capped_truthful(tracker, view, grid, rest);
    }
}

proof fn lemma_landmarks_truthful(
    tracker: StateTracker,
    view: WorldView,
    grid: StaticPassability,
    center: Vec2,
    points: Seq<PointCandidate>,
    count: int,
)
    requires
        all_truthful(tracker, view, grid, points),
    ensures
        all_truthful(
            tracker,
            view,
            grid,
            with_landmarks(tracker, view.units@, grid, center, points, count),
        ),
    decreases count,
{
    if count > 0 {
        lemma_landmarks_truthful(tracker, view, grid, center, points, count - 1);
        let (kind, own) = crate::points::landmark_slot(count - 1);
        let place = crate::points::landmark_of(tracker, view.units@, center, kind, own);
        if place is Some {
            lemma_pushed_truthful(
                tracker,
                view,
                grid,
                with_landmarks(tracker, view.units@, grid, center, points, count - 1),
                crate::points::landmark_candidate(grid, kind, own, place->0),
            );
        }
    }
}

/// Every offered point tells the truth of its place: it is walkable exactly if a unit can stand
/// there, it holds a tree only where one stands as far as this seat knows, and it is a landing
/// place only next to a structure of the own side.
pub proof fn offered_points_tell_the_ground(
    tracker: StateTracker,
    view: WorldView,
    grid: StaticPassability,
    center: Option<Vec2>,
    i: int,
)
    requires
        0 <= i < points_spec(tracker, view, grid, center).len(),
        view.units@.len() <= usize::MAX,
        tracker.static_trees@.len() + view.planted_trees@.len() <= usize::MAX,
    ensures
        points_spec(tracker, view, grid, center)[i].walkable == grid.standable(
            points_spec(tracker, view, grid, center)[i].position,
        ),
        points_spec(tracker, view, grid, center)[i].standing_tree ==> tree_at(
            tracker,
            view,
            points_spec(tracker, view, grid, center)[i].position,
        ),
        points_spec(tracker, view, grid, center)[i].allied_building ==> landing_at(
            tracker,
            view,
            grid,
            points_spec(tracker, view, grid, center)[i].position,
        ),
{
    let own = center->0;
    let units = view.units@;
    let rings = tactical_candidates(tracker, grid, own);
    assert(all_truthful(tracker, view, grid, rings));
    let tactical = pushed_all(Seq::empty(), rings);
    lemma_all_truthful(tracker, view, grid, Seq::empty(), rings);
    let landings = landing_records(tracker, units, grid, own, units.len() as int);
    lemma_landings_truthful(tracker, view, grid, own, units.len() as int);
    lemma_ordered_truthful(tracker, view, grid, landings);
    let landed = pushed_until_full(tactical, ordered(landings));
    lemma_all_truthful(tracker, view, grid, tactical, ordered(landings));
    let trees = tree_records(tracker, view, grid, own, view.planted_trees@.len() as int);
    lemma_trees_truthful(tracker, view, grid, own, view.planted_trees@.len() as int);
    lemma_ordered_truthful(tracker, view, grid, trees);
    let some = taken(ordered(trees), 8);
    assert forall|k: int| 0 <= k < some.len() implies truthful(
        tracker,
        view,
        grid,
        #[trigger] some[k],
    ) by {
        assert(some[k] == ordered(trees)[k]);
    }
    let treed = pushed_until_full(landed, some);
    lemma_all_truthful(tracker, view, grid, landed, some);
    let marked = with_landmarks(tracker, units, grid, own, treed, 4);
    lemma_landmarks_truthful(tracker, view, grid, own, treed, 4);
    let moving = predicted_records(tracker, units, grid, own, units.len() as int);
    lemma_predicted_truthful(tracker, view, grid, own, units.len() as int);
    lemma_ordered_truthful(tracker, view, grid, moving);
    lemma_capped_truthful(tracker, view, grid, ordered(moving));
    lemma_all_truthful(tracker, view, grid, marked, heroes_capped(ordered(moving)));
    assert(truthful(tracker, view, grid, points_spec(tracker, view, grid, center)[i]));
}

/// Without an own body no point is offered.
pub proof fn no_point_is_offered_without_a_body(
    tracker: StateTracker,
    view: WorldView,
    grid: StaticPassability,
)
    ensures
        points_spec(tracker, view, grid, None).len() == 0,
{
}

/// Tactical points lie in rings of 200, 600, and 1200 around the own body, eight to a ring from
/// the own east on; the Dire side looks the other way.
pub proof fn tactical_points_ring_the_body(
    tracker: StateTracker,
    grid: StaticPassability,
    center: Vec2,
)
    requires
        tracker.axis() <= 512,
        78_643_200 <= center.x.raw < tracker.axis() * 4_194_304 - 78_643_200,
        78_643_200 <= center.y.raw < tracker.axis() * 4_194_304 - 78_643_200,
    ensures
        tracker.team != Team::Dire ==> {
            &&& tactical_candidate(tracker, grid, center, 0).position.x.raw == center.x.raw + 200
                * 65_536
            &&& tactical_candidate(tracker, grid, center, 0).position.y.raw == center.y.raw
            &&& tactical_candidate(tracker, grid, center, 2).position.x.raw == center.x.raw
            &&& tactical_candidate(tracker, grid, center, 2).position.y.raw == center.y.raw + 200
                * 65_536
            &&& tactical_candidate(tracker, grid, center, 12).position.x.raw == center.x.raw - 600
                * 65_536
            &&& tactical_candidate(tracker, grid, center, 22).position.y.raw == center.y.raw
                - 1_200 * 65_536
        },
        tracker.team == Team::Dire ==> {
            &&& tactical_candidate(tracker, grid, center, 0).position.x.raw == center.x.raw - 200
                * 65_536
            &&& tactical_candidate(tracker, grid, center, 2).position.y.raw == center.y.raw - 200
                * 65_536
            &&& tactical_candidate(tracker, grid, center, 12).position.x.raw == center.x.raw + 600
                * 65_536
            &&& tactical_candidate(tracker, grid, center, 22).position.y.raw == center.y.raw
                + 1_200 * 65_536
        },
        tactical_candidate(tracker, grid, center, 1).position.x.raw - center.x.raw
            == tactical_candidate(tracker, grid, center, 1).position.y.raw - center.y.raw,
        tactical_candidate(tracker, grid, center, 3).position.x.raw - center.x.raw == -(
        tactical_candidate(tracker, grid, center, 3).position.y.raw - center.y.raw),
{
}

/// Diagonal tactical points lie as far away as straight ones, rounded down to whole units.
pub proof fn diagonal_points_keep_the_distance(
    tracker: StateTracker,
    grid: StaticPassability,
    center: Vec2,
)
    requires
        tracker.axis() <= 512,
        tracker.team != Team::Dire,
        78_643_200 <= center.x.raw < tracker.axis() * 4_194_304 - 78_643_200,
        78_643_200 <= center.y.raw < tracker.axis() * 4_194_304 - 78_643_200,
    ensures
        tactical_candidate(tracker, grid, center, 1).position.x.raw == center.x.raw + 141 * 65_536,
        tactical_candidate(tracker, grid, center, 1).position.y.raw == center.y.raw + 141 * 65_536,
        tactical_candidate(tracker, grid, center, 11).position.x.raw == center.x.raw - 424
            * 65_536,
        tactical_candidate(tracker, grid, center, 11).position.y.raw == center.y.raw + 424
            * 65_536,
        tactical_candidate(tracker, grid, center, 21).position.x.raw == center.x.raw - 848
            * 65_536,
        tactical_candidate(tracker, grid, center, 21).position.y.raw == center.y.raw - 848
            * 65_536,
{
}

/// A point that is offered again at its place keeps its source, holds a tree or a landing place
/// if either offer did, and can be walked only if both could; another one is added at the end
/// while there are fewer than 48.
pub proof fn points_at_one_place_are_merged(
    points: Seq<PointCandidate>,
    candidate: PointCandidate,
    i: int,
)
    requires
        0 <= i <= points.len(),
        forall|k: int|
            0 <= k < i ==> (#[trigger] points[k]).position != candidate.position,
        i < points.len() ==> points[i].position == candidate.position,
    ensures
        i < points.len() ==> {
            &&& pushed(points, candidate).len() == points.len()
            &&& pushed(points, candidate)[i].source == points[i].source
            &&& pushed(points, candidate)[i].standing_tree <==> points[i].standing_tree
                || candidate.standing_tree
            &&& pushed(points, candidate)[i].allied_building <==> points[i].allied_building
                || candidate.allied_building
            &&& pushed(points, candidate)[i].walkable <==> points[i].walkable
                && candidate.walkable
        },
        i == points.len() && points.len() < 48 ==> pushed(points, candidate) == points.push(
            candidate,
        ),
        i == points.len() && points.len() >= 48 ==> pushed(points, candidate) == points,
{
    let test = |point: PointCandidate| point.position == candidate.position;
    lemma_first_from_means(points, test, 0);
    let found = crate::search::first_index(points, test);
    if found is Some {
        assert(test(points[found->0]));
        assert(found->0 >= i);
    }
    if i < points.len() {
        assert(test(points[i]));
        assert(found is Some);
    }
}

/// At most four predicted heroes are offered.
pub proof fn few_predicted_heroes_are_offered(candidates: Seq<PointCandidate>)
    ensures
        crate::points::hero_count(heroes_capped(candidates)) <= 4,
    decreases candidates.len(),
{
    if candidates.len() > 0 {
        few_predicted_heroes_are_offered(candidates.drop_last());
        let before = heroes_capped(candidates.drop_last());
        assert(before.push(candidates.last()).drop_last() =~= before);
    }
}

/// A hero or creep that moved is predicted to go on by as much as it moved, within the map;
/// others, and those that stand still, are not predicted.
pub proof fn moving_units_are_predicted_to_go_on(
    tracker: StateTracker,
    grid: StaticPassability,
    center: Vec2,
    unit: UnitView,
)
    ensures
        crate::points::predicted_record(tracker, grid, center, unit) is Some ==> {
            let delta: Vec2 = crate::points::movement_of(tracker, unit.id)->0;
            let record = crate::points::predicted_record(tracker, grid, center, unit)->0;
            let place: Vec2 = record.0.position;
            &&& crate::points::movement_of(tracker, unit.id) is Some
            &&& delta.x.raw != 0 || delta.y.raw != 0
            &&& unit.kind == UnitKind::Hero || unit.kind == UnitKind::CreepMelee || unit.kind
                == UnitKind::CreepRanged || unit.kind == UnitKind::CreepFlagbearer || unit.kind
                == UnitKind::CreepSiege || unit.kind == UnitKind::CreepNeutral
            &&& 0 <= unit.pos.x.raw + delta.x.raw < tracker.axis() * 4_194_304 <= 0x8000_0000
                ==> place.x.raw == unit.pos.x.raw + delta.x.raw
            &&& 0 <= unit.pos.y.raw + delta.y.raw < tracker.axis() * 4_194_304 <= 0x8000_0000
                ==> place.y.raw == unit.pos.y.raw + delta.y.raw
        },
        crate::points::movement_of(tracker, unit.id) is None
            ==> crate::points::predicted_record(tracker, grid, center, unit) is None,
{
}

} // verus!
