//! Local map context: terrain underfoot, nearest landmarks, and eight rays.
use crate::map_context::{direction_at, map_direction, MapContext, MAP_RAY_CELLS};
use crate::scalar::{
    bool_feature, clamp_raw, flag_of, ratio, ratio_of, raw_of, row_bounded,
    squared_distance_ratio, Scalar,
};
use crate::tracker::{units_on_map, StateTracker, TERRAIN_CELL_RAW};
use crate::world::{Fixed, Team, UnitKind, UnitView, Vec2};
use vstd::prelude::*;

verus! {

/// Sorts of obstacles a ray looks for.
#[derive(Clone, Copy, Debug, PartialEq, Eq, Structural)]
pub enum RayTest {
    Blocked,
    Water,
    Opaque,
    Tree,
}

/// Direction on the map that looks like a canonical one from the own side.
pub open spec fn world_direction(team: Team, direction: int) -> (int, int) {
    if team == Team::Dire {
        (-direction_at(direction).0, -direction_at(direction).1)
    } else {
        direction_at(direction)
    }
}

/// Position a number of cells along a ray.
pub open spec fn ray_point(origin: Vec2, direction: (int, int), step: int) -> Vec2 {
    Vec2 {
        x: Fixed { raw: raw_of(origin.x.raw + direction.0 * (step * TERRAIN_CELL_RAW)) as i32 },
        y: Fixed { raw: raw_of(origin.y.raw + direction.1 * (step * TERRAIN_CELL_RAW)) as i32 },
    }
}

fn ray_position(origin: Vec2, direction: (i32, i32), step: usize) -> (r: Vec2)
    requires
        -1 <= direction.0 <= 1,
        -1 <= direction.1 <= 1,
        step <= MAP_RAY_CELLS,
    ensures
        r == ray_point(origin, (direction.0 as int, direction.1 as int), step as int),
{
    let distance: i64 = step as i64 * TERRAIN_CELL_RAW;
    proof {
        assert(-distance <= direction.0 * distance <= distance) by (nonlinear_arith)
            requires
                -1 <= direction.0 <= 1,
                distance >= 0,
        ;
        assert(-distance <= direction.1 * distance <= distance) by (nonlinear_arith)
            requires
                -1 <= direction.1 <= 1,
                distance >= 0,
        ;
    }
    Vec2 {
        x: Fixed { raw: clamp_raw(origin.x.raw as i64 + direction.0 as i64 * distance) },
        y: Fixed { raw: clamp_raw(origin.y.raw as i64 + direction.1 as i64 * distance) },
    }
}

impl MapContext {
    /// Whether the obstacle a ray looks for lies at a step on the grid.
    pub open spec fn ray_test(
        self,
        tracker: StateTracker,
        origin: Vec2,
        direction: (int, int),
        test: RayTest,
        step: int,
    ) -> bool {
        let position = ray_point(origin, direction, step);
        let cell = self.cell_spec(position)->0;
        match test {
            RayTest::Blocked => self.terrain@[cell] & 0x80 == 0,
            RayTest::Water => self.terrain@[cell] & 0x40 != 0,
            RayTest::Opaque => self.opaque@[cell],
            RayTest::Tree => self.tree_known(tracker, position),
        }
    }

    /// First step at or after one at which a ray meets an obstacle; the map edge blocks.
    pub open spec fn ray_hit(
        self,
        tracker: StateTracker,
        origin: Vec2,
        direction: (int, int),
        test: RayTest,
        step: int,
    ) -> Option<int>
        decreases MAP_RAY_CELLS + 1 - step,
    {
        if step > MAP_RAY_CELLS {
            None
        } else if self.cell_spec(ray_point(origin, direction, step)) is None {
            if test == RayTest::Blocked {
                Some(step)
            } else {
                None
            }
        } else if self.ray_test(tracker, origin, direction, test, step) {
            Some(step)
        } else {
            self.ray_hit(tracker, origin, direction, test, step + 1)
        }
    }

    /// Terrain of the last cell of a ray before it leaves the grid.
    pub open spec fn ray_end(
        self,
        origin: Vec2,
        direction: (int, int),
        step: int,
        last: Option<u8>,
    ) -> Option<u8>
        decreases MAP_RAY_CELLS + 1 - step,
    {
        if step > MAP_RAY_CELLS {
            last
        } else {
            match self.cell_spec(ray_point(origin, direction, step)) {
                None => last,
                Some(cell) => self.ray_end(
                    origin,
                    direction,
                    step + 1,
                    Some(self.terrain@[cell]),
                ),
            }
        }
    }

    /// Scalars of one ray.
    pub open spec fn ray_row(
        self,
        tracker: StateTracker,
        origin: Vec2,
        direction: (int, int),
    ) -> Seq<Scalar> {
        let blocked = self.ray_hit(tracker, origin, direction, RayTest::Blocked, 1);
        let water = self.ray_hit(tracker, origin, direction, RayTest::Water, 1);
        let opaque = self.ray_hit(tracker, origin, direction, RayTest::Opaque, 1);
        let tree = self.ray_hit(tracker, origin, direction, RayTest::Tree, 1);
        let end = self.ray_end(origin, direction, 1, None);
        seq![
            flag_of(blocked is Some),
            step_scalar(blocked),
            flag_of(water is Some),
            step_scalar(water),
            flag_of(opaque is Some),
            step_scalar(opaque),
            flag_of(tree is Some),
            step_scalar(tree),
            elevation_scalar(end),
            walkable_scalar(end),
        ]
    }

    /// Scalars of one ray.
    fn encode_map_ray(&self, tracker: &StateTracker, origin: Vec2, direction: (i32, i32)) -> (r: Vec<
        Scalar,
    >)
        requires
            self.wf(),
            tracker.wf(),
            tracker.current is Some,
            -1 <= direction.0 <= 1,
            -1 <= direction.1 <= 1,
        ensures
            r@ == self.ray_row(*tracker, origin, (direction.0 as int, direction.1 as int)),
            r@.len() == 10,
            row_bounded(r@),
    {
        let ghost way = (direction.0 as int, direction.1 as int);
        let mut blocked: Option<usize> = None;
        let mut water: Option<usize> = None;
        let mut opaque: Option<usize> = None;
        let mut tree: Option<usize> = None;
        let mut endpoint: Option<u8> = None;
        let mut open = true;
        let mut step: usize = 1;
        while open && step <= MAP_RAY_CELLS
            invariant
                1 <= step <= MAP_RAY_CELLS + 1,
                self.wf(),
                tracker.wf(),
                tracker.current is Some,
                -1 <= direction.0 <= 1,
                -1 <= direction.1 <= 1,
                way == (direction.0 as int, direction.1 as int),
                self.hit_so_far(*tracker, origin, way, RayTest::Blocked, blocked, step as int, open),
                self.hit_so_far(*tracker, origin, way, RayTest::Water, water, step as int, open),
                self.hit_so_far(*tracker, origin, way, RayTest::Opaque, opaque, step as int, open),
                self.hit_so_far(*tracker, origin, way, RayTest::Tree, tree, step as int, open),
                self.ray_end(origin, way, 1, None) == (if open {
                    self.ray_end(origin, way, step as int, endpoint)
                } else {
                    endpoint
                }),
            decreases
                MAP_RAY_CELLS + 1 - step,
                if open {
                    1int
                } else {
                    0int
                },
        {
            let position = ray_position(origin, direction, step);
            match self.cell(position) {
                None => {
                    if blocked.is_none() {
                        blocked = Some(step);
                    }
                    open = false;
                },
                Some(cell) => {
                    let terrain = self.terrain[cell];
                    if terrain & 0x80 == 0 && blocked.is_none() {
                        blocked = Some(step);
                    }
                    if terrain & 0x40 != 0 && water.is_none() {
                        water = Some(step);
                    }
                    if self.opaque[cell] && opaque.is_none() {
                        opaque = Some(step);
                    }
                    if self.tree_at_visible_context(tracker, position) && tree.is_none() {
                        tree = Some(step);
                    }
                    endpoint = Some(terrain);
                    step += 1;
                },
            }
        }
        let row = vec![
            bool_feature(blocked.is_some()),
            step_ratio(blocked),
            bool_feature(water.is_some()),
            step_ratio(water),
            bool_feature(opaque.is_some()),
            step_ratio(opaque),
            bool_feature(tree.is_some()),
            step_ratio(tree),
            elevation_ratio(endpoint),
            walkable_feature(endpoint),
        ];
        assert(row@ =~= self.ray_row(*tracker, origin, way));
        row
    }

    /// Whether a recorded hit is the first one, or none was met before a step.
    pub open spec fn hit_so_far(
        self,
        tracker: StateTracker,
        origin: Vec2,
        direction: (int, int),
        test: RayTest,
        hit: Option<usize>,
        step: int,
        open: bool,
    ) -> bool {
        match hit {
            Some(first) => 1 <= first <= MAP_RAY_CELLS && self.ray_hit(
                tracker,
                origin,
                direction,
                test,
                1,
            ) == Some(first as int),
            None => self.ray_hit(tracker, origin, direction, test, 1) == (if open {
                self.ray_hit(tracker, origin, direction, test, step)
            } else {
                None
            }),
        }
    }
}

pub open spec fn step_scalar(hit: Option<int>) -> Scalar {
    match hit {
        Some(step) => ratio_of(step, 1, 20),
        None => Scalar::Zero,
    }
}

fn step_ratio(hit: Option<usize>) -> (r: Scalar)
    requires
        hit matches Some(step) ==> step <= MAP_RAY_CELLS,
    ensures
        r == step_scalar(
            match hit {
                Some(step) => Some(step as int),
                None => None,
            },
        ),
        r.bounded(),
{
    match hit {
        Some(step) => ratio(step as i64, 1, 20),
        None => Scalar::Zero,
    }
}

pub open spec fn elevation_scalar(terrain: Option<u8>) -> Scalar {
    match terrain {
        Some(value) => ratio_of((value & 0x3f) as int, 0, 63),
        None => Scalar::Zero,
    }
}

/// Elevation of a terrain value.
pub fn elevation_ratio(terrain: Option<u8>) -> (r: Scalar)
    ensures
        r == elevation_scalar(terrain),
        r.bounded(),
{
    match terrain {
        Some(value) => ratio((value & 0x3f) as i64, 0, 63),
        None => Scalar::Zero,
    }
}

pub open spec fn walkable_scalar(terrain: Option<u8>) -> Scalar {
    match terrain {
        Some(value) => flag_of(value & 0x80 != 0),
        None => Scalar::Zero,
    }
}

/// Whether a unit can stand on a terrain value.
pub fn walkable_feature(terrain: Option<u8>) -> (r: Scalar)
    ensures
        r == walkable_scalar(terrain),
        r.bounded(),
{
    match terrain {
        Some(value) => bool_feature(value & 0x80 != 0),
        None => Scalar::Zero,
    }
}

/// Least squared distance to a unit of a kind and side.
pub open spec fn nearest_squared(
    units: Seq<UnitView>,
    kind: UnitKind,
    team: Team,
    origin: Vec2,
) -> Option<int>
    decreases units.len(),
{
    if units.len() == 0 {
        None
    } else {
        let rest = nearest_squared(units.drop_last(), kind, team, origin);
        let unit = units.last();
        let distance = origin.distance2(unit.pos);
        if unit.kind != kind || unit.team != team {
            rest
        } else if rest matches Some(other) && other <= distance {
            rest
        } else {
            Some(distance)
        }
    }
}

fn nearest_distance(units: &Vec<UnitView>, kind: UnitKind, team: Team, origin: Vec2) -> (r: Option<
    i64,
>)
    requires
        origin.on_map(),
        units_on_map(units@),
    ensures
        match r {
            Some(distance) => nearest_squared(units@, kind, team, origin) == Some(distance as int),
            None => nearest_squared(units@, kind, team, origin) is None,
        },
{
    let mut best: Option<i64> = None;
    let mut index: usize = 0;
    assert(units@.take(0) =~= Seq::<UnitView>::empty());
    while index < units.len()
        invariant
            index <= units@.len(),
            origin.on_map(),
            units_on_map(units@),
            match best {
                Some(distance) => nearest_squared(units@.take(index as int), kind, team, origin)
                    == Some(distance as int),
                None => nearest_squared(units@.take(index as int), kind, team, origin) is None,
            },
        decreases units@.len() - index,
    {
        let unit = &units[index];
        proof {
            assert(units@.take(index + 1).drop_last() =~= units@.take(index as int));
            assert(units@.take(index + 1).last() == *unit);
        }
        if unit.kind == kind && unit.team == team {
            let distance = origin.distance_squared(unit.pos);
            match best {
                Some(other) => {
                    if distance < other {
                        best = Some(distance);
                    }
                },
                None => {
                    best = Some(distance);
                },
            }
        }
        index += 1;
    }
    assert(units@.take(units@.len() as int) =~= units@);
    best
}

pub open spec fn distance_scalar(distance: Option<int>, extent: int) -> Scalar {
    match distance {
        Some(value) => ratio_of(value, 0, extent * extent),
        None => Scalar::Zero,
    }
}

/// Presence of a landmark and its distance.
pub open spec fn landmark_pair(
    tracker: StateTracker,
    kind: UnitKind,
    team: Team,
    origin: Vec2,
    extent: int,
) -> Seq<Scalar> {
    let nearest = nearest_squared(tracker.view_spec().units@, kind, team, origin);
    seq![flag_of(nearest is Some), distance_scalar(nearest, extent)]
}

fn encode_landmark(
    units: &Vec<UnitView>,
    kind: UnitKind,
    team: Team,
    origin: Vec2,
    extent_raw: i64,
) -> (r: (Scalar, Scalar))
    requires
        0 < extent_raw <= 0x8000_0000,
        origin.on_map(),
        units_on_map(units@),
    ensures
        r.0 == flag_of(nearest_squared(units@, kind, team, origin) is Some),
        r.1 == distance_scalar(nearest_squared(units@, kind, team, origin), extent_raw as int),
        r.0.bounded(),
        r.1.bounded(),
{
    match nearest_distance(units, kind, team, origin) {
        Some(distance) => (Scalar::One, squared_distance_ratio(distance, extent_raw)),
        None => (Scalar::Zero, Scalar::Zero),
    }
}

/// Presence and distance of the own and enemy fountain and tower.
pub open spec fn landmark_row(tracker: StateTracker, origin: Vec2, extent: int) -> Seq<Scalar> {
    let own = tracker.team;
    let enemy = tracker.team.opposing_spec();
    landmark_pair(tracker, UnitKind::Fountain, own, origin, extent) + landmark_pair(
        tracker,
        UnitKind::Fountain,
        enemy,
        origin,
        extent,
    ) + landmark_pair(tracker, UnitKind::Tower, own, origin, extent) + landmark_pair(
        tracker,
        UnitKind::Tower,
        enemy,
        origin,
        extent,
    )
}

/// Row of zeros.
pub open spec fn blank(width: int) -> Seq<Scalar> {
    Seq::new(width as nat, |i: int| Scalar::Zero)
}

/// Row of zeros.
pub fn blank_row(width: usize) -> (r: Vec<Scalar>)
    ensures
        r@ == blank(width as int),
        row_bounded(r@),
{
    let mut row: Vec<Scalar> = Vec::new();
    while row.len() < width
        invariant
            row@.len() <= width,
            row@ == blank(row@.len() as int),
        decreases width - row@.len(),
    {
        let ghost before = row@;
        row.push(Scalar::Zero);
        assert(row@ =~= blank(before.len() as int + 1));
    }
    row
}

/// Appends scalars to a row.
pub fn append_row(row: &mut Vec<Scalar>, tail: &Vec<Scalar>)
    ensures
        final(row)@ == old(row)@ + tail@,
        row_bounded(old(row)@) && row_bounded(tail@) ==> row_bounded(final(row)@),
{
    let mut index: usize = 0;
    while index < tail.len()
        invariant
            index <= tail@.len(),
            row@ == old(row)@ + tail@.take(index as int),
        decreases tail@.len() - index,
    {
        row.push(tail[index]);
        index += 1;
        assert(tail@.take(index as int) =~= tail@.take(index - 1).push(tail@[index - 1]));
        assert(row@ =~= old(row)@ + tail@.take(index as int));
    }
    assert(tail@.take(tail@.len() as int) =~= tail@);
    proof {
        if row_bounded(old(row)@) && row_bounded(tail@) {
            assert forall|i: int| 0 <= i < row@.len() implies (#[trigger] row@[i]).bounded() by {
                if i < old(row)@.len() {
                    assert(row@[i] == old(row)@[i]);
                } else {
                    assert(row@[i] == tail@[i - old(row)@.len()]);
                }
            }
        }
    }
}

impl MapContext {
    /// Terrain underfoot, if the position lies on the grid.
    pub open spec fn terrain_at(self, position: Vec2) -> Option<u8> {
        match self.cell_spec(position) {
            Some(cell) => Some(self.terrain@[cell]),
            None => None,
        }
    }

    /// Terrain underfoot, if the position lies on the grid.
    pub fn terrain_value(&self, position: Vec2) -> (r: Option<u8>)
        requires
            self.wf(),
        ensures
            r == self.terrain_at(position),
    {
        match self.cell(position) {
            Some(cell) => Some(self.terrain[cell]),
            None => None,
        }
    }

    pub open spec fn ground_row(self, tracker: StateTracker, origin: Vec2) -> Seq<Scalar> {
        let terrain = self.terrain_at(origin);
        seq![
            Scalar::One,
            walkable_scalar(terrain),
            match terrain {
                Some(value) => flag_of(value & 0x40 != 0),
                None => Scalar::Zero,
            },
            elevation_scalar(terrain),
            match self.cell_spec(origin) {
                Some(cell) => flag_of(self.opaque@[cell]),
                None => Scalar::Zero,
            },
            flag_of(self.tree_known(tracker, origin)),
        ]
    }

    /// Rays of the first directions, one after another.
    pub open spec fn rays(self, tracker: StateTracker, origin: Vec2, count: int) -> Seq<Scalar>
        decreases count,
    {
        if count <= 0 {
            Seq::empty()
        } else {
            self.rays(tracker, origin, count - 1) + self.ray_row(
                tracker,
                origin,
                world_direction(tracker.team, count - 1),
            )
        }
    }

    /// Local map context around the own body; zeros without one.
    pub open spec fn map_row(self, tracker: StateTracker) -> Seq<Scalar> {
        match tracker.origin_spec() {
            None => blank(96),
            Some(origin) => self.ground_row(tracker, origin) + landmark_row(
                tracker,
                origin,
                self.extent_raw as int,
            ) + blank(2) + self.rays(tracker, origin, 8),
        }
    }

    fn encode_ground(&self, tracker: &StateTracker, origin: Vec2) -> (r: Vec<Scalar>)
        requires
            self.wf(),
            tracker.wf(),
            tracker.current is Some,
        ensures
            r@ == self.ground_row(*tracker, origin),
            r@.len() == 6,
            row_bounded(r@),
    {
        let terrain = self.terrain_value(origin);
        let water = match terrain {
            Some(value) => bool_feature(value & 0x40 != 0),
            None => Scalar::Zero,
        };
        let opaque = match self.cell(origin) {
            Some(cell) => bool_feature(self.opaque[cell]),
            None => Scalar::Zero,
        };
        let row = vec![
            Scalar::One,
            walkable_feature(terrain),
            water,
            elevation_ratio(terrain),
            opaque,
            bool_feature(self.tree_at_visible_context(tracker, origin)),
        ];
        assert(row@ =~= self.ground_row(*tracker, origin));
        row
    }

    fn encode_landmark_distances(&self, tracker: &StateTracker, origin: Vec2) -> (r: Vec<Scalar>)
        requires
            self.wf(),
            tracker.wf(),
            tracker.current is Some,
            origin.on_map(),
            units_on_map(tracker.view_spec().units@),
        ensures
            r@ == landmark_row(*tracker, origin, self.extent_raw as int),
            r@.len() == 8,
            row_bounded(r@),
    {
        let current = tracker.current.as_ref().unwrap();
        let units = &current.units;
        let own = tracker.team;
        let enemy = tracker.team.opposing();
        let extent = self.extent_raw;
        let own_fountain = encode_landmark(units, UnitKind::Fountain, own, origin, extent);
        let enemy_fountain = encode_landmark(units, UnitKind::Fountain, enemy, origin, extent);
        let own_tower = encode_landmark(units, UnitKind::Tower, own, origin, extent);
        let enemy_tower = encode_landmark(units, UnitKind::Tower, enemy, origin, extent);
        let row = vec![
            own_fountain.0,
            own_fountain.1,
            enemy_fountain.0,
            enemy_fountain.1,
            own_tower.0,
            own_tower.1,
            enemy_tower.0,
            enemy_tower.1,
        ];
        assert(row@ =~= landmark_row(*tracker, origin, self.extent_raw as int));
        row
    }

    /// Local map context around the own body; zeros without one.
    pub fn encode_map(&self, tracker: &StateTracker) -> (r: Vec<Scalar>)
        requires
            self.wf(),
            tracker.wf(),
            tracker.current is Some,
            units_on_map(tracker.view_spec().units@),
        ensures
            r@ == self.map_row(*tracker),
            r@.len() == 96,
            row_bounded(r@),
    {
        let origin = match tracker.own_origin() {
            Some(origin) => origin,
            None => {
                return blank_row(96);
            },
        };
        proof {
            let units = tracker.view_spec().units@;
            match tracker.own_hero {
                Some(hero) => assert(units[hero as int].pos.on_map()),
                None => assert(units[tracker.own_courier->0 as int].pos.on_map()),
            }
        }
        let mut row = self.encode_ground(tracker, origin);
        append_row(&mut row, &self.encode_landmark_distances(tracker, origin));
        append_row(&mut row, &blank_row(2));
        let ghost start = row@;
        let mut index: usize = 0;
        assert(start + self.rays(*tracker, origin, 0) =~= start);
        while index < 8
            invariant
                index <= 8,
                self.wf(),
                tracker.wf(),
                tracker.current is Some,
                start.len() == 16,
                row@ == start + self.rays(*tracker, origin, index as int),
                row@.len() == 16 + 10 * index,
                row_bounded(row@),
            decreases 8 - index,
        {
            let (x, y) = map_direction(index);
            let direction: (i32, i32) = if tracker.team == Team::Dire {
                (-x, -y)
            } else {
                (x, y)
            };
            let ray = self.encode_map_ray(tracker, origin, direction);
            let ghost before = row@;
            append_row(&mut row, &ray);
            index += 1;
            assert(row@ =~= start + self.rays(*tracker, origin, index as int));
        }
        row
    }
}

} // verus!
