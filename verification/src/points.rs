//! Deterministic point candidates around one seat.
use crate::action::{EntityRelation, LandmarkRelation, PointCandidate, PointDirection, PointSource};
use crate::order::{
    comes_before, is_stable_order, key_less, key_views, lemma_comes_before_total,
    lemma_comes_before_transitive, stable_order, stable_order_of,
};
use crate::passability::{cell_center_spec, lemma_cell_index, tree_stands, StaticPassability};
use crate::search::{
    first_index, lemma_first_from_found, lemma_first_from_means, lemma_first_from_none,
};
use crate::tracker::{cell_of, cell_of_spec, StateTracker, MAX_POINT_CANDIDATES};
use crate::validation::{inside, map_maximum_raw, maximum_raw};
use crate::world::{EntityId, Fixed, Team, UnitKind, UnitView, Vec2, WorldView};
use vstd::prelude::*;

verus! {

/// Trees nearest to the seat that become point candidates.
pub const NEARBY_TREE_POINTS: usize = 8;
/// Predicted hero positions that become point candidates.
pub const PREDICTED_HERO_POINTS: usize = 4;
/// Cells scanned around a structure for a teleport landing; covers its range.
pub const LANDING_SEARCH_CELLS: usize = 10;

/// Value limited to a closed range.
pub open spec fn clamp_to(value: int, maximum: int) -> int {
    if value < 0 {
        0
    } else if value > maximum {
        maximum
    } else {
        value
    }
}

/// Raw position limited to the map.
pub open spec fn clamped(axis: int, x: int, y: int) -> Vec2 {
    Vec2 {
        x: Fixed { raw: clamp_to(x, maximum_raw(axis)) as i32 },
        y: Fixed { raw: clamp_to(y, maximum_raw(axis)) as i32 },
    }
}

fn clamp_axis(value: i64, maximum: i64) -> (r: i32)
    requires
        0 <= maximum <= i32::MAX,
    ensures
        r == clamp_to(value as int, maximum as int),
        0 <= r <= maximum,
{
    if value < 0 {
        0
    } else if value > maximum {
        maximum as i32
    } else {
        value as i32
    }
}

/// Raw position limited to the map.
pub fn clamp_raw_position(tracker: &StateTracker, x: i64, y: i64) -> (r: Vec2)
    requires
        tracker.wf(),
    ensures
        r == clamped(tracker.axis(), x as int, y as int),
        inside(r, maximum_raw(tracker.axis())),
{
    let maximum = map_maximum_raw(tracker);
    Vec2 { x: Fixed { raw: clamp_axis(x, maximum) }, y: Fixed { raw: clamp_axis(y, maximum) } }
}

/// Position moved by an offset and limited to the map.
pub open spec fn offset_spec(axis: int, position: Vec2, offset: Vec2) -> Vec2 {
    clamped(axis, position.x.raw + offset.x.raw, position.y.raw + offset.y.raw)
}

/// Position moved by an offset and limited to the map.
pub fn clamp_offset(tracker: &StateTracker, position: Vec2, offset: Vec2) -> (r: Vec2)
    requires
        tracker.wf(),
    ensures
        r == offset_spec(tracker.axis(), position, offset),
        inside(r, maximum_raw(tracker.axis())),
{
    clamp_raw_position(
        tracker,
        position.x.raw as i64 + offset.x.raw as i64,
        position.y.raw as i64 + offset.y.raw as i64,
    )
}

/// Position as seen from the Radiant side.
pub open spec fn canonical_key(tracker: StateTracker, position: Vec2) -> (int, int) {
    if tracker.team == Team::Dire {
        (
            maximum_raw(tracker.axis()) - position.x.raw,
            maximum_raw(tracker.axis()) - position.y.raw,
        )
    } else {
        (position.x.raw as int, position.y.raw as int)
    }
}

/// Position as seen from the Radiant side.
pub fn canonical_position_key(tracker: &StateTracker, position: Vec2) -> (r: (i64, i64))
    requires
        tracker.wf(),
    ensures
        (r.0 as int, r.1 as int) == canonical_key(*tracker, position),
{
    if tracker.team == Team::Dire {
        let maximum = map_maximum_raw(tracker);
        (maximum - position.x.raw as i64, maximum - position.y.raw as i64)
    } else {
        (position.x.raw as i64, position.y.raw as i64)
    }
}

/// Relation of a unit to the controlled seat.
pub open spec fn relation_of(tracker: StateTracker, unit: UnitView) -> EntityRelation {
    if unit.owner == Some(tracker.slot) {
        EntityRelation::Own
    } else if unit.team == tracker.team {
        EntityRelation::Allied
    } else if unit.team == Team::Neutral {
        EntityRelation::Neutral
    } else {
        EntityRelation::Enemy
    }
}

/// Relation of a unit to the controlled seat.
pub fn entity_relation(tracker: &StateTracker, unit: &UnitView) -> (r: EntityRelation)
    ensures
        r == relation_of(*tracker, *unit),
{
    let own = match unit.owner {
        Some(owner) => owner == tracker.slot,
        None => false,
    };
    if own {
        EntityRelation::Own
    } else if unit.team == tracker.team {
        EntityRelation::Allied
    } else if unit.team == Team::Neutral {
        EntityRelation::Neutral
    } else {
        EntityRelation::Enemy
    }
}

/// Candidate that stays when another one lands on its position.
pub open spec fn merged(kept: PointCandidate, other: PointCandidate) -> PointCandidate {
    PointCandidate {
        position: kept.position,
        source: kept.source,
        walkable: kept.walkable && other.walkable,
        standing_tree: kept.standing_tree || other.standing_tree,
        allied_building: kept.allied_building || other.allied_building,
    }
}

/// Candidate list after one more candidate: merged by position, else appended while room is left.
pub open spec fn pushed(points: Seq<PointCandidate>, candidate: PointCandidate) -> Seq<
    PointCandidate,
> {
    match first_index(points, |point: PointCandidate| point.position == candidate.position) {
        Some(i) => points.update(i, merged(points[i], candidate)),
        None => if points.len() >= MAX_POINT_CANDIDATES {
            points
        } else {
            points.push(candidate)
        },
    }
}

/// Candidate list after a whole list of candidates.
pub open spec fn pushed_all(
    points: Seq<PointCandidate>,
    candidates: Seq<PointCandidate>,
) -> Seq<PointCandidate>
    decreases candidates.len(),
{
    if candidates.len() == 0 {
        points
    } else {
        pushed(pushed_all(points, candidates.drop_last()), candidates.last())
    }
}

/// Candidate list after a list of candidates that stops once the list is full.
pub open spec fn pushed_until_full(
    points: Seq<PointCandidate>,
    candidates: Seq<PointCandidate>,
) -> Seq<PointCandidate>
    decreases candidates.len(),
{
    if candidates.len() == 0 {
        points
    } else {
        let before = pushed_until_full(points, candidates.drop_last());
        if candidates.len() > 1 && before.len() == MAX_POINT_CANDIDATES {
            before
        } else {
            pushed(before, candidates.last())
        }
    }
}

/// Bounded candidates at pairwise different positions on the map.
pub open spec fn points_ok(axis: int, points: Seq<PointCandidate>) -> bool {
    &&& points.len() <= MAX_POINT_CANDIDATES
    &&& forall|i: int|
        0 <= i < points.len() ==> inside((#[trigger] points[i]).position, maximum_raw(axis))
    &&& forall|i: int, j: int|
        0 <= i < j < points.len() ==> (#[trigger] points[i]).position != (
        #[trigger] points[j]).position
}

/// One more on-map candidate keeps the list bounded and its positions different.
pub proof fn lemma_pushed_ok(axis: int, points: Seq<PointCandidate>, candidate: PointCandidate)
    requires
        points_ok(axis, points),
        inside(candidate.position, maximum_raw(axis)),
    ensures
        points_ok(axis, pushed(points, candidate)),
        pushed(points, candidate).len() >= points.len(),
{
    lemma_first_from_means(
        points,
        |point: PointCandidate| point.position == candidate.position,
        0,
    );
}

/// Adds one candidate, merging it into an earlier one at the same position.
pub fn push_point(points: &mut Vec<PointCandidate>, candidate: PointCandidate)
    ensures
        final(points)@ == pushed(old(points)@, candidate),
{
    let ghost same = |point: PointCandidate| point.position == candidate.position;
    let ghost before = points@;
    let mut index: usize = 0;
    while index < points.len()
        invariant
            index <= points@.len(),
            points@ == before,
            before == old(points)@,
            same == (|point: PointCandidate| point.position == candidate.position),
            forall|j: int| 0 <= j < index ==> !same(#[trigger] points@[j]),
        decreases points@.len() - index,
    {
        let existing = points[index];
        if existing.position == candidate.position {
            proof {
                lemma_first_from_found(before, same, 0, index as int);
            }
            points.set(
                index,
                PointCandidate {
                    position: existing.position,
                    source: existing.source,
                    walkable: existing.walkable && candidate.walkable,
                    standing_tree: existing.standing_tree || candidate.standing_tree,
                    allied_building: existing.allied_building || candidate.allied_building,
                },
            );
            return ;
        }
        index += 1;
    }
    proof {
        lemma_first_from_none(before, same, 0);
    }
    if points.len() < MAX_POINT_CANDIDATES {
        points.push(candidate);
    }
}


/// Tactical directions in candidate order.
pub open spec fn direction_at(index: int) -> PointDirection {
    if index == 0 {
        PointDirection::East
    } else if index == 1 {
        PointDirection::NorthEast
    } else if index == 2 {
        PointDirection::North
    } else if index == 3 {
        PointDirection::NorthWest
    } else if index == 4 {
        PointDirection::West
    } else if index == 5 {
        PointDirection::SouthWest
    } else if index == 6 {
        PointDirection::South
    } else {
        PointDirection::SouthEast
    }
}

/// Tactical directions in candidate order.
pub fn all_directions() -> (r: [PointDirection; 8])
    ensures
        forall|i: int| 0 <= i < 8 ==> r@[i] == direction_at(i),
{
    [
        PointDirection::East,
        PointDirection::NorthEast,
        PointDirection::North,
        PointDirection::NorthWest,
        PointDirection::West,
        PointDirection::SouthWest,
        PointDirection::South,
        PointDirection::SouthEast,
    ]
}

/// Tactical radius of a ring of candidates, in world units.
pub open spec fn tactical_radius(ring: int) -> int {
    if ring == 0 {
        200
    } else if ring == 1 {
        600
    } else {
        1_200
    }
}

/// Whole-unit offset of a tactical direction as the Radiant side sees it.
pub open spec fn direction_units(direction: PointDirection, radius: int) -> (int, int) {
    let diagonal = radius * 46_341 / 65_536;
    match direction {
        PointDirection::East => (radius, 0),
        PointDirection::NorthEast => (diagonal, diagonal),
        PointDirection::North => (0, radius),
        PointDirection::NorthWest => (-diagonal, diagonal),
        PointDirection::West => (-radius, 0),
        PointDirection::SouthWest => (-diagonal, -diagonal),
        PointDirection::South => (0, -radius),
        PointDirection::SouthEast => (diagonal, -diagonal),
    }
}

/// Raw offset of a tactical direction for one side; Dire sees the map mirrored.
pub open spec fn direction_raw(team: Team, direction: PointDirection, radius: int) -> (int, int) {
    let (x, y) = direction_units(direction, radius);
    if team == Team::Dire {
        (-x * 65_536, -y * 65_536)
    } else {
        (x * 65_536, y * 65_536)
    }
}

/// Offset of a tactical direction for one side.
pub fn direction_offset(team: Team, direction: PointDirection, radius: i32) -> (r: Vec2)
    requires
        0 <= radius <= 32_767,
    ensures
        (r.x.raw as int, r.y.raw as int) == direction_raw(team, direction, radius as int),
{
    let diagonal: i32 = (radius as i64 * 46_341 / 65_536) as i32;
    let (x, y) = match direction {
        PointDirection::East => (radius, 0),
        PointDirection::NorthEast => (diagonal, diagonal),
        PointDirection::North => (0, radius),
        PointDirection::NorthWest => (-diagonal, diagonal),
        PointDirection::West => (-radius, 0),
        PointDirection::SouthWest => (-diagonal, -diagonal),
        PointDirection::South => (0, -radius),
        PointDirection::SouthEast => (diagonal, -diagonal),
    };
    if team == Team::Dire {
        Vec2::from_ints(-x, -y)
    } else {
        Vec2::from_ints(x, y)
    }
}

/// The two sides see every tactical direction mirrored.
pub proof fn tactical_directions_are_mirrored(direction: PointDirection, radius: int)
    ensures
        direction_raw(Team::Dire, direction, radius).0 == -direction_raw(
            Team::Radiant,
            direction,
            radius,
        ).0,
        direction_raw(Team::Dire, direction, radius).1 == -direction_raw(
            Team::Radiant,
            direction,
            radius,
        ).1,
{
}

/// Tactical candidate by ring and direction.
pub open spec fn tactical_candidate(
    tracker: StateTracker,
    grid: StaticPassability,
    center: Vec2,
    index: int,
) -> PointCandidate {
    let direction = direction_at(index % 8);
    let radius = tactical_radius(index / 8);
    let (x, y) = direction_raw(tracker.team, direction, radius);
    let position = clamped(tracker.axis(), center.x.raw + x, center.y.raw + y);
    PointCandidate {
        position,
        source: PointSource::Tactical { direction, radius: radius as i32 },
        walkable: grid.standable(position),
        standing_tree: false,
        allied_building: false,
    }
}

/// Tactical candidates, ring by ring from the nearest.
pub open spec fn tactical_candidates(
    tracker: StateTracker,
    grid: StaticPassability,
    center: Vec2,
) -> Seq<PointCandidate> {
    Seq::new(24, |i: int| tactical_candidate(tracker, grid, center, i))
}

/// Adds the tactical candidates around a center.
pub fn add_tactical_points(
    tracker: &StateTracker,
    grid: &StaticPassability,
    center: Vec2,
    points: &mut Vec<PointCandidate>,
)
    requires
        tracker.wf(),
        grid.wf(),
        points_ok(tracker.axis(), old(points)@),
    ensures
        final(points)@ == pushed_all(
            old(points)@,
            tactical_candidates(*tracker, *grid, center),
        ),
        points_ok(tracker.axis(), final(points)@),
{
    let radii: [i32; 3] = [200, 600, 1_200];
    let directions = all_directions();
    let ghost all = tactical_candidates(*tracker, *grid, center);
    let mut ring: usize = 0;
    assert(all.subrange(0, 0) =~= Seq::empty());
    while ring < 3
        invariant
            ring <= 3,
            tracker.wf(),
            grid.wf(),
            radii@ == seq![200i32, 600, 1_200],
            forall|i: int| 0 <= i < 8 ==> directions@[i] == direction_at(i),
            all == tactical_candidates(*tracker, *grid, center),
            points@ == pushed_all(old(points)@, all.subrange(0, ring * 8)),
            points_ok(tracker.axis(), points@),
        decreases 3 - ring,
    {
        let mut at: usize = 0;
        let radius: i32 = radii[ring];
        assert(all.subrange(0, ring * 8 + 0) =~= all.subrange(0, ring * 8));
        while at < 8
            invariant
                ring < 3,
                at <= 8,
                tracker.wf(),
                grid.wf(),
                radius == tactical_radius(ring as int),
                forall|i: int| 0 <= i < 8 ==> directions@[i] == direction_at(i),
                all == tactical_candidates(*tracker, *grid, center),
                points@ == pushed_all(old(points)@, all.subrange(0, ring * 8 + at)),
                points_ok(tracker.axis(), points@),
            decreases 8 - at,
        {
            let direction = directions[at];
            let offset = direction_offset(tracker.team, direction, radius);
            let position = clamp_offset(tracker, center, offset);
            let candidate = PointCandidate {
                position,
                source: PointSource::Tactical { direction, radius },
                walkable: grid.walkable(position),
                standing_tree: false,
                allied_building: false,
            };
            proof {
                let index = ring * 8 + at;
                assert(all[index] == candidate);
                assert(all.subrange(0, index + 1).drop_last() =~= all.subrange(0, index));
                lemma_pushed_ok(tracker.axis(), points@, candidate);
            }
            push_point(points, candidate);
            at += 1;
        }
        ring += 1;
    }
    assert(all.subrange(0, 24) =~= all);
}

/// Standing position of a landing cell; Dire takes the mirrored cell center.
pub open spec fn landing_position(team: Team, cell_x: int, cell_y: int) -> Vec2 {
    let (x, y) = cell_center_spec(cell_x, cell_y);
    let shift: int = if team == Team::Dire {
        1
    } else {
        0
    };
    Vec2 { x: Fixed { raw: (x - shift) as i32 }, y: Fixed { raw: (y - shift) as i32 } }
}

/// Row-major number of a landing cell as its side counts cells.
pub open spec fn landing_number(axis: int, team: Team, cell_x: int, cell_y: int) -> int {
    if team == Team::Dire {
        axis * axis - 1 - (cell_y * axis + cell_x)
    } else {
        cell_y * axis + cell_x
    }
}

/// Whether a cell near a structure is an open landing cell.
pub open spec fn lands(
    grid: StaticPassability,
    center: Vec2,
    team: Team,
    cell_x: int,
    cell_y: int,
) -> bool {
    let reach = LANDING_SEARCH_CELLS as int;
    match cell_of_spec(grid.axis as int, center) {
        Some((center_x, center_y)) => {
            &&& 0 <= cell_x < grid.axis
            &&& 0 <= cell_y < grid.axis
            &&& center_x - reach <= cell_x <= center_x + reach
            &&& center_y - reach <= cell_y <= center_y + reach
            &&& grid.standable(landing_position(team, cell_x, cell_y))
        },
        None => false,
    }
}

/// Whether one landing cell is no worse than another: by distance, then by number.
pub open spec fn lands_no_later(
    axis: int,
    center: Vec2,
    team: Team,
    first: (int, int),
    second: (int, int),
) -> bool {
    let near = center.distance2(landing_position(team, first.0, first.1));
    let far = center.distance2(landing_position(team, second.0, second.1));
    near < far || (near == far && landing_number(axis, team, first.0, first.1) <= landing_number(
        axis,
        team,
        second.0,
        second.1,
    ))
}

/// Whether a cell is the landing cell nearest to a structure.
pub open spec fn nearest_lands(
    grid: StaticPassability,
    center: Vec2,
    team: Team,
    cell: (int, int),
) -> bool {
    &&& lands(grid, center, team, cell.0, cell.1)
    &&& forall|x: int, y: int| #[trigger]
        lands(grid, center, team, x, y) ==> lands_no_later(
            grid.axis as int,
            center,
            team,
            cell,
            (x, y),
        )
}

/// Landing position nearest to a structure.
pub open spec fn landing_of(grid: StaticPassability, center: Vec2, team: Team) -> Option<Vec2> {
    if exists|x: int, y: int| lands(grid, center, team, x, y) {
        let cell = choose|cell: (int, int)| nearest_lands(grid, center, team, cell);
        Some(landing_position(team, cell.0, cell.1))
    } else {
        None
    }
}

proof fn lemma_landing_number_unique(axis: int, team: Team, first: (int, int), second: (int, int))
    requires
        0 <= first.0 < axis,
        0 <= first.1 < axis,
        0 <= second.0 < axis,
        0 <= second.1 < axis,
        landing_number(axis, team, first.0, first.1) == landing_number(
            axis,
            team,
            second.0,
            second.1,
        ),
    ensures
        first == second,
{
    lemma_cell_index(axis, first.0, first.1);
    lemma_cell_index(axis, second.0, second.1);
}

fn landing_cell_position(
    grid: &StaticPassability,
    cell_x: usize,
    cell_y: usize,
    team: Team,
) -> (r: Vec2)
    requires
        grid.wf(),
        cell_x < grid.axis,
        cell_y < grid.axis,
    ensures
        r == landing_position(team, cell_x as int, cell_y as int),
        inside(r, maximum_raw(grid.axis as int)),
{
    if team != Team::Dire {
        return grid.cell_center(cell_x, cell_y);
    }
    let mirrored = grid.cell_center(grid.axis - 1 - cell_x, grid.axis - 1 - cell_y);
    let maximum: i64 = grid.axis as i64 * 4_194_304 - 1;
    Vec2::new(
        (maximum - mirrored.x.raw as i64) as i32,
        (maximum - mirrored.y.raw as i64) as i32,
    )
}

/// Landing position nearest to a structure, if an open cell is near.
pub fn nearest_landing_cell(grid: &StaticPassability, center: Vec2, team: Team) -> (r: Option<Vec2>)
    requires
        grid.wf(),
    ensures
        r == landing_of(*grid, center, team),
        r matches Some(position) ==> inside(position, maximum_raw(grid.axis as int)),
{
    let axis = grid.axis;
    let (center_x, center_y) = match cell_of(axis, center) {
        Some(cell) => cell,
        None => {
            return None;
        },
    };
    let start_y: usize = center_y.saturating_sub(LANDING_SEARCH_CELLS);
    let start_x: usize = center_x.saturating_sub(LANDING_SEARCH_CELLS);
    let end_y: usize = if center_y + LANDING_SEARCH_CELLS < axis {
        center_y + LANDING_SEARCH_CELLS
    } else {
        axis - 1
    };
    let end_x: usize = if center_x + LANDING_SEARCH_CELLS < axis {
        center_x + LANDING_SEARCH_CELLS
    } else {
        axis - 1
    };
    let mut best: Option<(i64, usize, Vec2)> = None;
    let ghost mut best_cell: (int, int) = (0, 0);
    proof {
        assert(axis * axis <= 512 * 512) by (nonlinear_arith)
            requires
                0 <= axis <= 512,
        ;
    }
    let mut cell_y: usize = start_y;
    while cell_y <= end_y
        invariant
            grid.wf(),
            axis == grid.axis,
            axis * axis <= 512 * 512,
            cell_of_spec(axis as int, center) == Some((center_x as int, center_y as int)),
            center.on_map(),
            start_y <= cell_y <= end_y + 1,
            end_y < axis,
            start_x <= end_x < axis,
            start_x == (if center_x >= 10 { center_x - 10 } else { 0 }),
            end_x == (if center_x + 10 < axis { center_x + 10 } else { axis - 1 }),
            start_y == (if center_y >= 10 { center_y - 10 } else { 0 }),
            end_y == (if center_y + 10 < axis { center_y + 10 } else { axis - 1 }),
            best matches Some((distance, number, position)) ==> {
                &&& lands(*grid, center, team, best_cell.0, best_cell.1)
                &&& position == landing_position(team, best_cell.0, best_cell.1)
                &&& inside(position, maximum_raw(axis as int))
                &&& distance == center.distance2(position)
                &&& number == landing_number(axis as int, team, best_cell.0, best_cell.1)
            },
            forall|x: int, y: int| #[trigger]
                lands(*grid, center, team, x, y) && start_y <= y < cell_y ==> best is Some
                    && lands_no_later(axis as int, center, team, best_cell, (x, y)),
        decreases end_y + 1 - cell_y,
    {
        let mut cell_x: usize = start_x;
        while cell_x <= end_x
            invariant
                grid.wf(),
                axis == grid.axis,
                axis * axis <= 512 * 512,
                cell_of_spec(axis as int, center) == Some((center_x as int, center_y as int)),
                center.on_map(),
                start_y <= cell_y <= end_y,
                end_y < axis,
                start_x <= cell_x <= end_x + 1,
                end_x < axis,
                start_x == (if center_x >= 10 { center_x - 10 } else { 0 }),
                end_x == (if center_x + 10 < axis { center_x + 10 } else { axis - 1 }),
                center_y as int - 10 <= cell_y <= center_y + 10,
                best matches Some((distance, number, position)) ==> {
                    &&& lands(*grid, center, team, best_cell.0, best_cell.1)
                    &&& position == landing_position(team, best_cell.0, best_cell.1)
                    &&& inside(position, maximum_raw(axis as int))
                    &&& distance == center.distance2(position)
                    &&& number == landing_number(axis as int, team, best_cell.0, best_cell.1)
                },
                forall|x: int, y: int| #[trigger]
                    lands(*grid, center, team, x, y) && (start_y <= y < cell_y || (y == cell_y && x
                        < cell_x)) ==> best is Some && lands_no_later(
                        axis as int,
                        center,
                        team,
                        best_cell,
                        (x, y),
                    ),
            decreases end_x + 1 - cell_x,
        {
            let position = landing_cell_position(grid, cell_x, cell_y, team);
            let ghost here = (cell_x as int, cell_y as int);
            if grid.walkable(position) {
                let distance = center.distance_squared(position);
                proof {
                    lemma_cell_index(axis as int, cell_x as int, cell_y as int);
                    assert(lands(*grid, center, team, here.0, here.1));
                }
                let row_major: usize = cell_y * axis + cell_x;
                let number: usize = if team == Team::Dire {
                    axis * axis - 1 - row_major
                } else {
                    row_major
                };
                let better = match best {
                    None => true,
                    Some((best_distance, best_number, _)) => distance < best_distance || (distance
                        == best_distance && number < best_number),
                };
                if better {
                    best = Some((distance, number, position));
                    proof {
                        best_cell = here;
                    }
                }
            }
            cell_x += 1;
        }
        cell_y += 1;
    }
    proof {
        if best is Some {
            assert(nearest_lands(*grid, center, team, best_cell)) by {
                assert forall|x: int, y: int| #[trigger]
                    lands(*grid, center, team, x, y) implies lands_no_later(
                    axis as int,
                    center,
                    team,
                    best_cell,
                    (x, y),
                ) by {}
            }
            let cell = choose|cell: (int, int)| nearest_lands(*grid, center, team, cell);
            assert(lands(*grid, center, team, cell.0, cell.1));
            lemma_landing_number_unique(axis as int, team, cell, best_cell);
        }
    }
    match best {
        Some((_, _, position)) => Some(position),
        None => None,
    }
}


pub open spec fn keys_of(records: Seq<(PointCandidate, Seq<i128>)>) -> Seq<Seq<i128>> {
    Seq::new(records.len(), |i: int| records[i].1)
}

/// Candidates in stable key order.
pub open spec fn ordered(records: Seq<(PointCandidate, Seq<i128>)>) -> Seq<PointCandidate> {
    Seq::new(records.len(), |i: int| records[stable_order_of(keys_of(records))[i] as int].0)
}

/// Whether candidates and key lists hold the given records.
pub open spec fn holds_records(
    candidates: Seq<PointCandidate>,
    keys: Seq<Vec<i128>>,
    records: Seq<(PointCandidate, Seq<i128>)>,
) -> bool {
    &&& candidates.len() == records.len()
    &&& keys.len() == records.len()
    &&& forall|i: int|
        0 <= i < records.len() ==> (#[trigger] records[i]) == (candidates[i], keys[i]@)
}

/// All candidates of the records lie on the map.
pub open spec fn records_inside(axis: int, records: Seq<(PointCandidate, Seq<i128>)>) -> bool {
    forall|i: int|
        0 <= i < records.len() ==> inside((#[trigger] records[i]).0.position, maximum_raw(axis))
}

fn order_candidates(
    candidates: &Vec<PointCandidate>,
    keys: &Vec<Vec<i128>>,
    Ghost(axis): Ghost<int>,
    Ghost(records): Ghost<Seq<(PointCandidate, Seq<i128>)>>,
) -> (r: Vec<PointCandidate>)
    requires
        holds_records(candidates@, keys@, records),
        records_inside(axis, records),
    ensures
        r@ == ordered(records),
        forall|i: int|
            0 <= i < r@.len() ==> inside((#[trigger] r@[i]).position, maximum_raw(axis)),
{
    let order = stable_order(keys);
    assert(key_views(keys@) =~= keys_of(records));
    let mut output: Vec<PointCandidate> = Vec::new();
    let mut index: usize = 0;
    while index < order.len()
        invariant
            index <= order@.len(),
            order@.len() == records.len(),
            order@ == stable_order_of(keys_of(records)),
            is_stable_order(keys_of(records), order@),
            holds_records(candidates@, keys@, records),
            records_inside(axis, records),
            output@.len() == index,
            forall|i: int| 0 <= i < index ==> (#[trigger] output@[i]) == ordered(records)[i],
            forall|i: int|
                0 <= i < index ==> inside((#[trigger] output@[i]).position, maximum_raw(axis)),
        decreases order@.len() - index,
    {
        assert(order@[index as int] < records.len());
        assert(records[order@[index as int] as int].0 == candidates@[order@[index as int] as int]);
        output.push(candidates[order[index]]);
        index += 1;
    }
    assert(output@ =~= ordered(records));
    output
}

/// Adds candidates in order until the list is full.
fn push_until_full(
    points: &mut Vec<PointCandidate>,
    candidates: &Vec<PointCandidate>,
    Ghost(axis): Ghost<int>,
)
    requires
        points_ok(axis, old(points)@),
        forall|i: int|
            0 <= i < candidates@.len() ==> inside(
                (#[trigger] candidates@[i]).position,
                maximum_raw(axis),
            ),
    ensures
        final(points)@ == pushed_until_full(old(points)@, candidates@),
        points_ok(axis, final(points)@),
{
    let ghost all = candidates@;
    let ghost start = points@;
    let mut index: usize = 0;
    assert(all.subrange(0, 0) =~= Seq::empty());
    while index < candidates.len()
        invariant
            index <= all.len(),
            all == candidates@,
            start == old(points)@,
            points@ == pushed_until_full(start, all.subrange(0, index as int)),
            points_ok(axis, points@),
            index >= 1 ==> points@.len() != MAX_POINT_CANDIDATES,
            forall|i: int|
                0 <= i < all.len() ==> inside((#[trigger] all[i]).position, maximum_raw(axis)),
        decreases all.len() - index,
    {
        let candidate = candidates[index];
        proof {
            assert(all.subrange(0, index + 1).drop_last() =~= all.subrange(0, index as int));
            lemma_pushed_ok(axis, points@, candidate);
        }
        push_point(points, candidate);
        index += 1;
        if points.len() == MAX_POINT_CANDIDATES {
            proof {
                lemma_full_stays(start, all, index as int);
            }
            return ;
        }
    }
    assert(all.subrange(0, all.len() as int) =~= all);
}

proof fn lemma_full_stays(start: Seq<PointCandidate>, all: Seq<PointCandidate>, count: int)
    requires
        1 <= count <= all.len(),
        pushed_until_full(start, all.subrange(0, count)).len() == MAX_POINT_CANDIDATES,
    ensures
        pushed_until_full(start, all) == pushed_until_full(start, all.subrange(0, count)),
    decreases all.len() - count,
{
    if count < all.len() {
        assert(all.subrange(0, count + 1).drop_last() =~= all.subrange(0, count));
        lemma_full_stays(start, all, count + 1);
    } else {
        assert(all.subrange(0, count) =~= all);
    }
}

/// Landing candidates of the first units, in unit order.
pub open spec fn landing_records(
    tracker: StateTracker,
    units: Seq<UnitView>,
    grid: StaticPassability,
    center: Vec2,
    count: int,
) -> Seq<(PointCandidate, Seq<i128>)>
    decreases count,
{
    if count <= 0 {
        Seq::empty()
    } else {
        let before = landing_records(tracker, units, grid, center, count - 1);
        let unit = units[count - 1];
        match landing_of(grid, unit.pos, tracker.team) {
            Some(position) if unit.team == tracker.team && unit.kind.structure() => before.push(
                (landing_candidate(unit.kind, position), landing_key(tracker, center, unit, position)),
            ),
            _ => before,
        }
    }
}

pub open spec fn landing_candidate(kind: UnitKind, position: Vec2) -> PointCandidate {
    PointCandidate {
        position,
        source: PointSource::BuildingLanding(kind),
        walkable: true,
        standing_tree: false,
        allied_building: true,
    }
}

/// Distance, structure kind, mirrored position, and handle.
pub open spec fn landing_key(
    tracker: StateTracker,
    center: Vec2,
    unit: UnitView,
    position: Vec2,
) -> Seq<i128> {
    seq![
        center.distance2(position) as i128,
        unit.kind.rank_spec() as i128,
        canonical_key(tracker, position).0 as i128,
        canonical_key(tracker, position).1 as i128,
        unit.id.0 as i128,
    ]
}

/// Adds a landing candidate near every visible allied structure.
pub fn add_building_landing_points(
    tracker: &StateTracker,
    current: &WorldView,
    grid: &StaticPassability,
    center: Vec2,
    points: &mut Vec<PointCandidate>,
)
    requires
        tracker.wf(),
        grid.wf(),
        grid.axis == tracker.axis(),
        center.on_map(),
        points_ok(tracker.axis(), old(points)@),
    ensures
        final(points)@ == pushed_until_full(
            old(points)@,
            ordered(
                landing_records(
                    *tracker,
                    current.units@,
                    *grid,
                    center,
                    current.units@.len() as int,
                ),
            ),
        ),
        points_ok(tracker.axis(), final(points)@),
{
    let ghost axis = tracker.axis();
    let mut candidates: Vec<PointCandidate> = Vec::new();
    let mut keys: Vec<Vec<i128>> = Vec::new();
    let mut index: usize = 0;
    while index < current.units.len()
        invariant
            index <= current.units@.len(),
            tracker.wf(),
            grid.wf(),
            grid.axis == tracker.axis(),
            center.on_map(),
            axis == tracker.axis(),
            holds_records(
                candidates@,
                keys@,
                landing_records(*tracker, current.units@, *grid, center, index as int),
            ),
            records_inside(
                axis,
                landing_records(*tracker, current.units@, *grid, center, index as int),
            ),
        decreases current.units@.len() - index,
    {
        let unit = &current.units[index];
        if unit.team == tracker.team && unit.kind.is_structure() {
            if let Some(position) = nearest_landing_cell(grid, unit.pos, tracker.team) {
                let (x, y) = canonical_position_key(tracker, position);
                let mut key: Vec<i128> = Vec::new();
                key.push(center.distance_squared(position) as i128);
                key.push(unit.kind.rank() as i128);
                key.push(x as i128);
                key.push(y as i128);
                key.push(unit.id.0 as i128);
                assert(key@ =~= landing_key(*tracker, center, *unit, position));
                candidates.push(
                    PointCandidate {
                        position,
                        source: PointSource::BuildingLanding(unit.kind),
                        walkable: true,
                        standing_tree: false,
                        allied_building: true,
                    },
                );
                keys.push(key);
            }
        }
        index += 1;
    }
    let ghost records = landing_records(
        *tracker,
        current.units@,
        *grid,
        center,
        current.units@.len() as int,
    );
    let landings = order_candidates(&candidates, &keys, Ghost(axis), Ghost(records));
    push_until_full(points, &landings, Ghost(axis));
}

pub open spec fn tree_candidate(
    tracker: StateTracker,
    grid: StaticPassability,
    tree: Vec2,
    planted: bool,
) -> PointCandidate {
    let position = clamped(tracker.axis(), tree.x.raw as int, tree.y.raw as int);
    PointCandidate {
        position,
        source: if planted {
            PointSource::PlantedTree
        } else {
            PointSource::StaticTree
        },
        walkable: grid.standable(position),
        standing_tree: true,
        allied_building: false,
    }
}

/// Distance, mirrored position, and whether the tree was planted.
pub open spec fn tree_key(
    tracker: StateTracker,
    center: Vec2,
    tree: Vec2,
    planted: bool,
) -> Seq<i128> {
    seq![
        center.distance2(tree) as i128,
        canonical_key(tracker, tree).0 as i128,
        canonical_key(tracker, tree).1 as i128,
        if planted {
            1i128
        } else {
            0i128
        },
    ]
}

/// Static trees not known to be felled, among the first `count`.
pub open spec fn static_tree_records(
    tracker: StateTracker,
    view: WorldView,
    grid: StaticPassability,
    center: Vec2,
    count: int,
) -> Seq<(PointCandidate, Seq<i128>)>
    decreases count,
{
    if count <= 0 {
        Seq::empty()
    } else {
        let before = static_tree_records(tracker, view, grid, center, count - 1);
        let tree = tracker.static_trees@[count - 1];
        if tree_stands(tracker, view, count - 1) {
            before.push(
                (tree_candidate(tracker, grid, tree, false), tree_key(tracker, center, tree, false)),
            )
        } else {
            before
        }
    }
}

/// Standing static trees, then the observable ones among the first planted trees.
pub open spec fn tree_records(
    tracker: StateTracker,
    view: WorldView,
    grid: StaticPassability,
    center: Vec2,
    count: int,
) -> Seq<(PointCandidate, Seq<i128>)>
    decreases count,
{
    if count <= 0 {
        static_tree_records(tracker, view, grid, center, tracker.static_trees@.len() as int)
    } else {
        let before = tree_records(tracker, view, grid, center, count - 1);
        let tree = view.planted_trees@[count - 1];
        if tracker.observable(tree) {
            before.push(
                (tree_candidate(tracker, grid, tree, true), tree_key(tracker, center, tree, true)),
            )
        } else {
            before
        }
    }
}

/// At most the first `count` candidates.
pub open spec fn taken(candidates: Seq<PointCandidate>, count: int) -> Seq<PointCandidate> {
    if candidates.len() <= count {
        candidates
    } else {
        candidates.subrange(0, count)
    }
}

fn tree_record(
    tracker: &StateTracker,
    grid: &StaticPassability,
    center: Vec2,
    tree: Vec2,
    planted: bool,
) -> (r: (PointCandidate, Vec<i128>))
    requires
        tracker.wf(),
        grid.wf(),
        center.on_map(),
        tree.on_map(),
    ensures
        r.0 == tree_candidate(*tracker, *grid, tree, planted),
        r.1@ == tree_key(*tracker, center, tree, planted),
        inside(r.0.position, maximum_raw(tracker.axis())),
{
    let position = clamp_raw_position(tracker, tree.x.raw as i64, tree.y.raw as i64);
    let (x, y) = canonical_position_key(tracker, tree);
    let mut key: Vec<i128> = Vec::new();
    key.push(center.distance_squared(tree) as i128);
    key.push(x as i128);
    key.push(y as i128);
    key.push(if planted {
        1
    } else {
        0
    });
    assert(key@ =~= tree_key(*tracker, center, tree, planted));
    (
        PointCandidate {
            position,
            source: if planted {
                PointSource::PlantedTree
            } else {
                PointSource::StaticTree
            },
            walkable: grid.walkable(position),
            standing_tree: true,
            allied_building: false,
        },
        key,
    )
}

/// Adds the standing trees nearest to the center.
pub fn add_tree_points(
    tracker: &StateTracker,
    current: &WorldView,
    grid: &StaticPassability,
    center: Vec2,
    points: &mut Vec<PointCandidate>,
)
    requires
        tracker.wf(),
        tracker.static_trees@.len() <= 0x1_0000_0000,
        crate::validation::trees_inside(*tracker),
        crate::validation::planted_inside(*tracker, *current),
        grid.wf(),
        center.on_map(),
        points_ok(tracker.axis(), old(points)@),
    ensures
        final(points)@ == pushed_until_full(
            old(points)@,
            taken(
                ordered(
                    tree_records(
                        *tracker,
                        *current,
                        *grid,
                        center,
                        current.planted_trees@.len() as int,
                    ),
                ),
                NEARBY_TREE_POINTS as int,
            ),
        ),
        points_ok(tracker.axis(), final(points)@),
{
    let ghost axis = tracker.axis();
    let mut candidates: Vec<PointCandidate> = Vec::new();
    let mut keys: Vec<Vec<i128>> = Vec::new();
    let mut index: usize = 0;
    while index < tracker.static_trees.len()
        invariant
            index <= tracker.static_trees@.len(),
            tracker.static_trees@.len() <= 0x1_0000_0000,
            crate::validation::trees_inside(*tracker),
            tracker.wf(),
            grid.wf(),
            center.on_map(),
            axis == tracker.axis(),
            holds_records(
                candidates@,
                keys@,
                static_tree_records(*tracker, *current, *grid, center, index as int),
            ),
            records_inside(
                axis,
                static_tree_records(*tracker, *current, *grid, center, index as int),
            ),
        decreases tracker.static_trees@.len() - index,
    {
        let tree = tracker.static_trees[index];
        assert(inside(tree, maximum_raw(axis)));
        let felled = crate::passability::contains_index(&current.felled_trees, index as u32)
            && tracker.is_observable(tree);
        if !felled {
            let (candidate, key) = tree_record(tracker, grid, center, tree, false);
            candidates.push(candidate);
            keys.push(key);
        }
        index += 1;
    }
    index = 0;
    while index < current.planted_trees.len()
        invariant
            index <= current.planted_trees@.len(),
            crate::validation::planted_inside(*tracker, *current),
            tracker.wf(),
            grid.wf(),
            center.on_map(),
            axis == tracker.axis(),
            holds_records(
                candidates@,
                keys@,
                tree_records(*tracker, *current, *grid, center, index as int),
            ),
            records_inside(axis, tree_records(*tracker, *current, *grid, center, index as int)),
        decreases current.planted_trees@.len() - index,
    {
        let tree = current.planted_trees[index];
        assert(inside(current.planted_trees@[index as int], maximum_raw(axis)));
        if tracker.is_observable(tree) {
            let (candidate, key) = tree_record(tracker, grid, center, tree, true);
            candidates.push(candidate);
            keys.push(key);
        }
        index += 1;
    }
    let ghost records = tree_records(
        *tracker,
        *current,
        *grid,
        center,
        current.planted_trees@.len() as int,
    );
    let mut trees = order_candidates(&candidates, &keys, Ghost(axis), Ghost(records));
    let ghost all = trees@;
    trees.truncate(NEARBY_TREE_POINTS);
    assert(trees@ =~= taken(all, NEARBY_TREE_POINTS as int));
    push_until_full(points, &trees, Ghost(axis));
}


/// Distance, mirrored position, and handle of a unit.
pub open spec fn landmark_key(tracker: StateTracker, center: Vec2, unit: UnitView) -> Seq<i128> {
    seq![
        center.distance2(unit.pos) as i128,
        canonical_key(tracker, unit.pos).0 as i128,
        canonical_key(tracker, unit.pos).1 as i128,
        unit.id.0 as i128,
    ]
}

pub open spec fn landmark_keys(
    tracker: StateTracker,
    center: Vec2,
    units: Seq<UnitView>,
) -> Seq<Seq<i128>> {
    Seq::new(units.len(), |i: int| landmark_key(tracker, center, units[i]))
}

pub open spec fn is_landmark(tracker: StateTracker, unit: UnitView, kind: UnitKind, own: bool) -> bool {
    unit.kind == kind && (unit.team == tracker.team) == own
}

/// Whether a unit is the first of its kind and side in key order among the first `count`.
pub open spec fn nearest_of(
    tracker: StateTracker,
    units: Seq<UnitView>,
    center: Vec2,
    kind: UnitKind,
    own: bool,
    count: int,
    index: int,
) -> bool {
    &&& 0 <= index < count
    &&& is_landmark(tracker, units[index], kind, own)
    &&& forall|j: int|
        0 <= j < count && j != index && is_landmark(tracker, #[trigger] units[j], kind, own)
            ==> comes_before(landmark_keys(tracker, center, units), index, j)
}

/// Position of the nearest structure of a kind on one side.
pub open spec fn landmark_of(
    tracker: StateTracker,
    units: Seq<UnitView>,
    center: Vec2,
    kind: UnitKind,
    own: bool,
) -> Option<Vec2> {
    let count = units.len() as int;
    if exists|i: int| nearest_of(tracker, units, center, kind, own, count, i) {
        let i = choose|i: int| nearest_of(tracker, units, center, kind, own, count, i);
        Some(units[i].pos)
    } else {
        None
    }
}

/// Position of the nearest structure of a kind on one side.
pub fn nearest_landmark(
    tracker: &StateTracker,
    current: &WorldView,
    center: Vec2,
    kind: UnitKind,
    own: bool,
) -> (r: Option<Vec2>)
    requires
        tracker.wf(),
        center.on_map(),
        crate::validation::units_inside(*tracker, *current),
    ensures
        r == landmark_of(*tracker, current.units@, center, kind, own),
        r matches Some(position) ==> inside(position, maximum_raw(tracker.axis())),
        r is None <==> forall|i: int|
            0 <= i < current.units@.len() ==> !is_landmark(
                *tracker,
                #[trigger] current.units@[i],
                kind,
                own,
            ),
{
    let ghost units = current.units@;
    let ghost keys = landmark_keys(*tracker, center, units);
    let mut best: Option<usize> = None;
    let mut best_key: Vec<i128> = Vec::new();
    let mut index: usize = 0;
    while index < current.units.len()
        invariant
            index <= units.len(),
            units == current.units@,
            keys == landmark_keys(*tracker, center, units),
            tracker.wf(),
            center.on_map(),
            crate::validation::units_inside(*tracker, *current),
            match best {
                Some(i) => nearest_of(
                    *tracker,
                    units,
                    center,
                    kind,
                    own,
                    index as int,
                    i as int,
                ) && best_key@ == keys[i as int],
                None => forall|j: int|
                    0 <= j < index ==> !is_landmark(*tracker, #[trigger] units[j], kind, own),
            },
        decreases units.len() - index,
    {
        let unit = &current.units[index];
        if unit.kind == kind && (unit.team == tracker.team) == own {
            let (x, y) = canonical_position_key(tracker, unit.pos);
            assert(inside(units[index as int].pos, maximum_raw(tracker.axis())));
            let mut key: Vec<i128> = Vec::new();
            key.push(center.distance_squared(unit.pos) as i128);
            key.push(x as i128);
            key.push(y as i128);
            key.push(unit.id.0 as i128);
            assert(key@ =~= keys[index as int]);
            let better = match best {
                Some(_) => key_less(&key, &best_key),
                None => true,
            };
            if better {
                proof {
                    assert forall|j: int|
                        0 <= j < index + 1 && j != index && is_landmark(
                            *tracker,
                            #[trigger] units[j],
                            kind,
                            own,
                        ) implies comes_before(keys, index as int, j) by {
                        if best is Some {
                            let i = best->0 as int;
                            assert(comes_before(keys, index as int, i));
                            if j != i {
                                lemma_comes_before_transitive(keys, index as int, i, j);
                            }
                        }
                    }
                }
                best = Some(index);
                best_key = key;
            } else {
                proof {
                    let i = best->0 as int;
                    assert(comes_before(keys, i, index as int));
                }
            }
        }
        index += 1;
    }
    match best {
        Some(i) => {
            proof {
                let n = units.len() as int;
                assert(nearest_of(*tracker, units, center, kind, own, n, i as int));
                let chosen = choose|k: int| nearest_of(*tracker, units, center, kind, own, n, k);
                if chosen != i {
                    lemma_comes_before_total(keys, i as int, chosen);
                }
                assert(inside(units[i as int].pos, maximum_raw(tracker.axis())));
            }
            Some(current.units[i].pos)
        },
        None => None,
    }
}

/// Landmark kinds in candidate order.
pub open spec fn landmark_slot(index: int) -> (UnitKind, bool) {
    if index == 0 {
        (UnitKind::Fountain, true)
    } else if index == 1 {
        (UnitKind::Fountain, false)
    } else if index == 2 {
        (UnitKind::Tower, true)
    } else {
        (UnitKind::Tower, false)
    }
}

pub open spec fn landmark_candidate(
    grid: StaticPassability,
    kind: UnitKind,
    own: bool,
    position: Vec2,
) -> PointCandidate {
    let relation = if own {
        LandmarkRelation::Own
    } else {
        LandmarkRelation::Enemy
    };
    PointCandidate {
        position,
        source: if kind == UnitKind::Fountain {
            PointSource::Fountain(relation)
        } else {
            PointSource::Tower(relation)
        },
        walkable: grid.standable(position),
        standing_tree: false,
        allied_building: false,
    }
}

/// Candidate list after the first landmark kinds.
pub open spec fn with_landmarks(
    tracker: StateTracker,
    units: Seq<UnitView>,
    grid: StaticPassability,
    center: Vec2,
    points: Seq<PointCandidate>,
    count: int,
) -> Seq<PointCandidate>
    decreases count,
{
    if count <= 0 {
        points
    } else {
        let before = with_landmarks(tracker, units, grid, center, points, count - 1);
        let (kind, own) = landmark_slot(count - 1);
        match landmark_of(tracker, units, center, kind, own) {
            Some(position) => pushed(before, landmark_candidate(grid, kind, own, position)),
            None => before,
        }
    }
}

/// Adds the nearest own and enemy fountain and tower.
pub fn add_landmark_points(
    tracker: &StateTracker,
    current: &WorldView,
    grid: &StaticPassability,
    center: Vec2,
    points: &mut Vec<PointCandidate>,
)
    requires
        tracker.wf(),
        grid.wf(),
        center.on_map(),
        crate::validation::units_inside(*tracker, *current),
        points_ok(tracker.axis(), old(points)@),
    ensures
        final(points)@ == with_landmarks(
            *tracker,
            current.units@,
            *grid,
            center,
            old(points)@,
            4,
        ),
        points_ok(tracker.axis(), final(points)@),
{
    let slots: [(UnitKind, bool); 4] = [
        (UnitKind::Fountain, true),
        (UnitKind::Fountain, false),
        (UnitKind::Tower, true),
        (UnitKind::Tower, false),
    ];
    let mut index: usize = 0;
    while index < 4
        invariant
            index <= 4,
            forall|i: int| 0 <= i < 4 ==> slots@[i] == landmark_slot(i),
            tracker.wf(),
            grid.wf(),
            center.on_map(),
            crate::validation::units_inside(*tracker, *current),
            points_ok(tracker.axis(), points@),
            points@ == with_landmarks(
                *tracker,
                current.units@,
                *grid,
                center,
                old(points)@,
                index as int,
            ),
        decreases 4 - index,
    {
        let (kind, own) = slots[index];
        assert(slots@[index as int] == landmark_slot(index as int));
        if let Some(position) = nearest_landmark(tracker, current, center, kind, own) {
            let relation = if own {
                LandmarkRelation::Own
            } else {
                LandmarkRelation::Enemy
            };
            let candidate = PointCandidate {
                position,
                source: if kind == UnitKind::Fountain {
                    PointSource::Fountain(relation)
                } else {
                    PointSource::Tower(relation)
                },
                walkable: grid.walkable(position),
                standing_tree: false,
                allied_building: false,
            };
            proof {
                lemma_pushed_ok(tracker.axis(), points@, candidate);
            }
            push_point(points, candidate);
        }
        index += 1;
    }
}

/// Source of a predicted position: heroes and creeps only.
pub open spec fn predicted_source(tracker: StateTracker, unit: UnitView) -> Option<PointSource> {
    if unit.kind == UnitKind::Hero {
        Some(PointSource::PredictedHero(relation_of(tracker, unit)))
    } else if unit.kind.creep() {
        Some(PointSource::PredictedCreep(relation_of(tracker, unit)))
    } else {
        None
    }
}

/// Order of predicted sources: heroes by relation, then creeps by relation.
pub open spec fn predicted_rank(source: PointSource) -> int {
    match source {
        PointSource::PredictedHero(relation) => relation.rank_spec(),
        PointSource::PredictedCreep(relation) => 4 + relation.rank_spec(),
        _ => 255,
    }
}

/// Order of predicted sources: heroes by relation, then creeps by relation.
pub fn predicted_source_index(source: PointSource) -> (r: u8)
    ensures
        r == predicted_rank(source),
{
    match source {
        PointSource::PredictedHero(relation) => relation.rank() as u8,
        PointSource::PredictedCreep(relation) => 4 + relation.rank() as u8,
        _ => 255,
    }
}

/// Movement a track has shown, if it moved at all.
pub open spec fn movement_of(tracker: StateTracker, id: EntityId) -> Option<Vec2> {
    match tracker.track_spec(id) {
        Some(track) => match track.velocity {
            Some(velocity) if !(velocity.delta.x.raw == 0 && velocity.delta.y.raw == 0) => Some(
                velocity.delta,
            ),
            _ => None,
        },
        None => None,
    }
}

fn unit_movement(tracker: &StateTracker, id: EntityId) -> (r: Option<Vec2>)
    ensures
        r == movement_of(*tracker, id),
{
    match tracker.entity(id) {
        Some(track) => match track.velocity {
            Some(velocity) => if velocity.delta.is_zero() {
                None
            } else {
                Some(velocity.delta)
            },
            None => None,
        },
        None => None,
    }
}

/// Candidate, key, and source of a unit that is predicted to move on.
pub open spec fn predicted_record(
    tracker: StateTracker,
    grid: StaticPassability,
    center: Vec2,
    unit: UnitView,
) -> Option<(PointCandidate, Seq<i128>)> {
    match (movement_of(tracker, unit.id), predicted_source(tracker, unit)) {
        (Some(delta), Some(source)) => {
            let position = offset_spec(tracker.axis(), unit.pos, delta);
            Some(
                (
                    PointCandidate {
                        position,
                        source,
                        walkable: grid.standable(position),
                        standing_tree: false,
                        allied_building: false,
                    },
                    seq![
                        center.distance2(position) as i128,
                        predicted_rank(source) as i128,
                        canonical_key(tracker, position).0 as i128,
                        canonical_key(tracker, position).1 as i128,
                        unit.id.0 as i128,
                    ],
                ),
            )
        },
        _ => None,
    }
}

/// Predicted candidates of the first units, in unit order.
pub open spec fn predicted_records(
    tracker: StateTracker,
    units: Seq<UnitView>,
    grid: StaticPassability,
    center: Vec2,
    count: int,
) -> Seq<(PointCandidate, Seq<i128>)>
    decreases count,
{
    if count <= 0 {
        Seq::empty()
    } else {
        let before = predicted_records(tracker, units, grid, center, count - 1);
        match predicted_record(tracker, grid, center, units[count - 1]) {
            Some(record) => before.push(record),
            None => before,
        }
    }
}

pub open spec fn is_predicted_hero(candidate: PointCandidate) -> bool {
    candidate.source matches PointSource::PredictedHero(_)
}

/// Number of predicted heroes in a list.
pub open spec fn hero_count(candidates: Seq<PointCandidate>) -> nat
    decreases candidates.len(),
{
    if candidates.len() == 0 {
        0
    } else {
        hero_count(candidates.drop_last()) + (if is_predicted_hero(candidates.last()) {
            1nat
        } else {
            0nat
        })
    }
}

/// List without the predicted heroes after the first few.
pub open spec fn heroes_capped(candidates: Seq<PointCandidate>) -> Seq<PointCandidate>
    decreases candidates.len(),
{
    if candidates.len() == 0 {
        Seq::empty()
    } else {
        let before = heroes_capped(candidates.drop_last());
        if is_predicted_hero(candidates.last()) && hero_count(before) >= PREDICTED_HERO_POINTS {
            before
        } else {
            before.push(candidates.last())
        }
    }
}

fn cap_heroes(candidates: &Vec<PointCandidate>, Ghost(axis): Ghost<int>) -> (r: Vec<
    PointCandidate,
>)
    requires
        forall|i: int|
            0 <= i < candidates@.len() ==> inside(
                (#[trigger] candidates@[i]).position,
                maximum_raw(axis),
            ),
    ensures
        r@ == heroes_capped(candidates@),
        hero_count(r@) <= PREDICTED_HERO_POINTS,
        forall|i: int|
            0 <= i < r@.len() ==> inside((#[trigger] r@[i]).position, maximum_raw(axis)),
{
    let ghost all = candidates@;
    let mut output: Vec<PointCandidate> = Vec::new();
    let mut heroes: usize = 0;
    let mut index: usize = 0;
    while index < candidates.len()
        invariant
            index <= all.len(),
            all == candidates@,
            forall|i: int|
                0 <= i < all.len() ==> inside((#[trigger] all[i]).position, maximum_raw(axis)),
            output@ == heroes_capped(all.subrange(0, index as int)),
            heroes == hero_count(output@),
            heroes <= PREDICTED_HERO_POINTS,
            forall|i: int|
                0 <= i < output@.len() ==> inside(
                    (#[trigger] output@[i]).position,
                    maximum_raw(axis),
                ),
        decreases all.len() - index,
    {
        let candidate = candidates[index];
        assert(all.subrange(0, index + 1).drop_last() =~= all.subrange(0, index as int));
        let hero = matches!(candidate.source, PointSource::PredictedHero(_));
        let ghost before = output@;
        if !hero || heroes < PREDICTED_HERO_POINTS {
            if hero {
                heroes += 1;
            }
            output.push(candidate);
            assert(output@.drop_last() =~= before);
        }
        index += 1;
    }
    assert(all.subrange(0, all.len() as int) =~= all);
    output
}

/// Adds the positions that moving heroes and creeps are predicted to reach.
pub fn add_predicted_points(
    tracker: &StateTracker,
    current: &WorldView,
    grid: &StaticPassability,
    center: Vec2,
    points: &mut Vec<PointCandidate>,
)
    requires
        tracker.wf(),
        grid.wf(),
        center.on_map(),
        points_ok(tracker.axis(), old(points)@),
    ensures
        final(points)@ == pushed_until_full(
            old(points)@,
            heroes_capped(
                ordered(
                    predicted_records(
                        *tracker,
                        current.units@,
                        *grid,
                        center,
                        current.units@.len() as int,
                    ),
                ),
            ),
        ),
        points_ok(tracker.axis(), final(points)@),
{
    let ghost axis = tracker.axis();
    let mut candidates: Vec<PointCandidate> = Vec::new();
    let mut keys: Vec<Vec<i128>> = Vec::new();
    let mut index: usize = 0;
    while index < current.units.len()
        invariant
            index <= current.units@.len(),
            tracker.wf(),
            grid.wf(),
            center.on_map(),
            axis == tracker.axis(),
            holds_records(
                candidates@,
                keys@,
                predicted_records(*tracker, current.units@, *grid, center, index as int),
            ),
            records_inside(
                axis,
                predicted_records(*tracker, current.units@, *grid, center, index as int),
            ),
        decreases current.units@.len() - index,
    {
        let unit = &current.units[index];
        let source = if unit.kind == UnitKind::Hero {
            Some(PointSource::PredictedHero(entity_relation(tracker, unit)))
        } else if unit.kind.is_creep() {
            Some(PointSource::PredictedCreep(entity_relation(tracker, unit)))
        } else {
            None
        };
        if let (Some(delta), Some(source)) = (unit_movement(tracker, unit.id), source) {
            let position = clamp_offset(tracker, unit.pos, delta);
            let (x, y) = canonical_position_key(tracker, position);
            let mut key: Vec<i128> = Vec::new();
            key.push(center.distance_squared(position) as i128);
            key.push(predicted_source_index(source) as i128);
            key.push(x as i128);
            key.push(y as i128);
            key.push(unit.id.0 as i128);
            candidates.push(
                PointCandidate {
                    position,
                    source,
                    walkable: grid.walkable(position),
                    standing_tree: false,
                    allied_building: false,
                },
            );
            proof {
                let record = predicted_record(*tracker, *grid, center, *unit)->0;
                assert(record.1 =~= key@);
            }
            keys.push(key);
        }
        index += 1;
    }
    let ghost records = predicted_records(
        *tracker,
        current.units@,
        *grid,
        center,
        current.units@.len() as int,
    );
    let predicted = order_candidates(&candidates, &keys, Ghost(axis), Ghost(records));
    let capped = cap_heroes(&predicted, Ghost(axis));
    push_until_full(points, &capped, Ghost(axis));
}

/// All point candidates around the own origin.
pub open spec fn points_spec(
    tracker: StateTracker,
    view: WorldView,
    grid: StaticPassability,
    center: Option<Vec2>,
) -> Seq<PointCandidate> {
    match center {
        None => Seq::empty(),
        Some(center) => {
            let units = view.units@;
            let tactical = pushed_all(Seq::empty(), tactical_candidates(tracker, grid, center));
            let landed = pushed_until_full(
                tactical,
                ordered(landing_records(tracker, units, grid, center, units.len() as int)),
            );
            let treed = pushed_until_full(
                landed,
                taken(
                    ordered(
                        tree_records(
                            tracker,
                            view,
                            grid,
                            center,
                            view.planted_trees@.len() as int,
                        ),
                    ),
                    NEARBY_TREE_POINTS as int,
                ),
            );
            let marked = with_landmarks(tracker, units, grid, center, treed, 4);
            pushed_until_full(
                marked,
                heroes_capped(
                    ordered(predicted_records(tracker, units, grid, center, units.len() as int)),
                ),
            )
        },
    }
}

/// Tactical, landing, tree, landmark, and predicted points around the own origin.
pub fn build_point_candidates(
    tracker: &StateTracker,
    current: &WorldView,
    grid: &StaticPassability,
    center: Option<Vec2>,
) -> (r: Vec<PointCandidate>)
    requires
        tracker.wf(),
        tracker.static_trees@.len() <= 0x1_0000_0000,
        crate::validation::trees_inside(*tracker),
        crate::validation::planted_inside(*tracker, *current),
        crate::validation::units_inside(*tracker, *current),
        grid.wf(),
        grid.axis == tracker.axis(),
        center matches Some(position) ==> position.on_map(),
    ensures
        r@ == points_spec(*tracker, *current, *grid, center),
        points_ok(tracker.axis(), r@),
{
    let mut points: Vec<PointCandidate> = Vec::new();
    if let Some(center) = center {
        add_tactical_points(tracker, grid, center, &mut points);
        add_building_landing_points(tracker, current, grid, center, &mut points);
        add_tree_points(tracker, current, grid, center, &mut points);
        add_landmark_points(tracker, current, grid, center, &mut points);
        add_predicted_points(tracker, current, grid, center, &mut points);
    }
    points
}

} // verus!
