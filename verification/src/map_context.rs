//! Static map data decoded once: terrain, sight blockers, trees, rays, and walking distances.
use crate::passability::{contains_index, expand_terrain, lemma_cell_index};
use crate::tracker::{
    cell_of, cell_of_spec, run_cells, StateTracker, MAX_TERRAIN_AXIS, TERRAIN_CELL_RAW,
};
use crate::world::Vec2;
use vstd::prelude::*;

verus! {

/// Cells one map ray looks along.
pub const MAP_RAY_CELLS: usize = 20;

/// Distance of a cell that no path reaches.
pub const UNREACHED: u32 = 0xffff_ffff;

/// Column and row step of one of the eight directions, counted from east toward north.
pub open spec fn direction_at(index: int) -> (int, int) {
    if index == 0 {
        (1, 0)
    } else if index == 1 {
        (1, 1)
    } else if index == 2 {
        (0, 1)
    } else if index == 3 {
        (-1, 1)
    } else if index == 4 {
        (-1, 0)
    } else if index == 5 {
        (-1, -1)
    } else if index == 6 {
        (0, -1)
    } else {
        (1, -1)
    }
}

/// Column and row step of one of the eight directions.
pub fn map_direction(index: usize) -> (r: (i32, i32))
    requires
        index < 8,
    ensures
        (r.0 as int, r.1 as int) == direction_at(index as int),
        -1 <= r.0 <= 1,
        -1 <= r.1 <= 1,
{
    if index == 0 {
        (1, 0)
    } else if index == 1 {
        (1, 1)
    } else if index == 2 {
        (0, 1)
    } else if index == 3 {
        (-1, 1)
    } else if index == 4 {
        (-1, 0)
    } else if index == 5 {
        (-1, -1)
    } else if index == 6 {
        (0, -1)
    } else {
        (1, -1)
    }
}

/// Cell next to another one in a direction, if the grid has it.
pub open spec fn neighbor_of(axis: int, cell: int, direction: int) -> Option<int> {
    let x = cell % axis + direction_at(direction).0;
    let y = cell / axis + direction_at(direction).1;
    if 0 <= x < axis && 0 <= y < axis {
        Some(y * axis + x)
    } else {
        None
    }
}

/// Static map data and the walking distances from one cell.
#[derive(Debug)]
pub struct MapContext {
    pub axis: usize,
    pub extent_raw: i64,
    pub terrain: Vec<u8>,
    pub opaque: Vec<bool>,
    /// Cell and number of every static tree on the grid.
    pub static_tree_index: Vec<(usize, u32)>,
    /// Whether a cell holds a static tree.
    pub static_tree_cells: Vec<bool>,
    pub path_distances: Vec<u32>,
    pub path_origin: Option<usize>,
}

/// Cell and number of every static tree on the grid.
pub open spec fn tree_entries(trees: Seq<Vec2>, axis: int) -> Seq<(usize, u32)>
    decreases trees.len(),
{
    if trees.len() == 0 {
        Seq::empty()
    } else {
        let rest = tree_entries(trees.drop_last(), axis);
        match cell_of_spec(axis, trees.last()) {
            Some((x, y)) => rest.push(((y * axis + x) as usize, (trees.len() - 1) as u32)),
            None => rest,
        }
    }
}

/// Whether a cell holds one of the listed trees.
pub open spec fn holds_tree(entries: Seq<(usize, u32)>, cell: int) -> bool {
    exists|i: int| 0 <= i < entries.len() && (#[trigger] entries[i]).0 == cell
}

impl MapContext {
    pub open spec fn area(self) -> int {
        self.axis * self.axis
    }

    /// Tables have one entry per cell, tree cells agree with the trees, and known walking
    /// distances are the shortest ones.
    pub open spec fn wf(self) -> bool {
        &&& 1 <= self.axis <= MAX_TERRAIN_AXIS
        &&& self.extent_raw == self.axis * TERRAIN_CELL_RAW
        &&& self.terrain@.len() == self.area()
        &&& self.opaque@.len() == self.area()
        &&& self.static_tree_cells@.len() == self.area()
        &&& forall|cell: int|
            0 <= cell < self.area() ==> (#[trigger] self.static_tree_cells@[cell]) == holds_tree(
                self.static_tree_index@,
                cell,
            )
        &&& self.path_distances@.len() == self.area()
        &&& self.path_origin matches Some(origin) ==> {
            &&& origin < self.area()
            &&& self.distances_exact(origin as int, self.path_distances@)
        }
    }

    /// Same static data; walking distances may differ.
    pub open spec fn same_map(self, other: MapContext) -> bool {
        &&& self.axis == other.axis
        &&& self.extent_raw == other.extent_raw
        &&& self.terrain == other.terrain
        &&& self.opaque == other.opaque
        &&& self.static_tree_index == other.static_tree_index
        &&& self.static_tree_cells == other.static_tree_cells
    }

    /// Whether the static data are those of a tracker.
    pub open spec fn decoded_from(self, tracker: StateTracker) -> bool {
        &&& self.axis == tracker.metadata.terrain_cells
        &&& self.terrain@ == run_cells(tracker.terrain_rle@)
        &&& forall|cell: int|
            0 <= cell < self.area() ==> (#[trigger] self.opaque@[cell]) == exists|i: int|
                0 <= i < tracker.opaque_cells@.len() && cell == (
                #[trigger] tracker.opaque_cells@[i]).1 * tracker.axis() + tracker.opaque_cells@[i].0
        &&& self.static_tree_index@ == tree_entries(tracker.static_trees@, tracker.axis())
    }

    /// Cell number of a position on the grid.
    pub open spec fn cell_spec(self, position: Vec2) -> Option<int> {
        match cell_of_spec(self.axis as int, position) {
            Some((x, y)) => Some(y * self.axis + x),
            None => None,
        }
    }

    /// Whether a path may enter a cell: walkable terrain without a static tree.
    pub open spec fn enterable(self, cell: int) -> bool {
        self.terrain@[cell] & 0x80 != 0 && !self.static_tree_cells@[cell]
    }

    /// Whether one step from a set of cells leads to a cell.
    pub open spec fn entered(self, cells: Set<int>, cell: int) -> bool {
        self.enterable(cell) && exists|from: int, direction: int|
            0 <= from < self.area() && 0 <= direction < 8 && #[trigger] neighbor_of(
                self.axis as int,
                from,
                direction,
            ) == Some(cell) && cells.contains(from)
    }

    /// Cells that at most the given number of steps from a cell lead to.
    pub open spec fn within_steps(self, origin: int, steps: nat) -> Set<int>
        decreases steps,
    {
        if steps == 0 {
            Set::empty().insert(origin)
        } else {
            let nearer = self.within_steps(origin, (steps - 1) as nat);
            Set::new(|cell: int| nearer.contains(cell) || self.entered(nearer, cell))
        }
    }

    /// Whether at most the given number of steps lead from one cell to another.
    pub open spec fn reaches(self, origin: int, cell: int, steps: nat) -> bool {
        self.within_steps(origin, steps).contains(cell)
    }

    /// Whether a number of steps is the least that leads to a cell.
    pub open spec fn least(self, origin: int, cell: int, steps: nat) -> bool {
        self.reaches(origin, cell, steps) && (steps > 0 ==> !self.reaches(
            origin,
            cell,
            (steps - 1) as nat,
        ))
    }

    /// Whether a cell cannot be reached at all.
    pub open spec fn unreachable(self, origin: int, cell: int) -> bool {
        forall|steps: nat| !#[trigger] self.reaches(origin, cell, steps)
    }

    /// Whether a table holds the least number of steps to every cell.
    pub open spec fn distances_exact(self, origin: int, distances: Seq<u32>) -> bool {
        forall|cell: int|
            0 <= cell < self.area() ==> if (#[trigger] distances[cell]) == UNREACHED {
                self.unreachable(origin, cell)
            } else {
                self.least(origin, cell, distances[cell] as nat)
            }
    }

    /// Least number of steps from one cell to another.
    pub open spec fn steps_between(self, origin: int, cell: int) -> Option<nat> {
        if self.unreachable(origin, cell) {
            None
        } else {
            Some(choose|steps: nat| self.least(origin, cell, steps))
        }
    }

    /// Reaching within some steps is reaching within more.
    pub proof fn lemma_reaches_monotone(self, origin: int, cell: int, steps: nat, more: nat)
        requires
            self.reaches(origin, cell, steps),
            steps <= more,
        ensures
            self.reaches(origin, cell, more),
        decreases more,
    {
        if steps < more {
            self.lemma_reaches_monotone(origin, cell, steps, (more - 1) as nat);
        }
    }

    /// The least number of steps is unique.
    pub proof fn lemma_least_unique(self, origin: int, cell: int, left: nat, right: nat)
        requires
            self.least(origin, cell, left),
            self.least(origin, cell, right),
        ensures
            left == right,
    {
        if left < right {
            self.lemma_reaches_monotone(origin, cell, left, (right - 1) as nat);
        } else if right < left {
            self.lemma_reaches_monotone(origin, cell, right, (left - 1) as nat);
        }
    }

    /// Column and row of a position on the grid.
    pub fn cell_xy(&self, position: Vec2) -> (r: Option<(usize, usize)>)
        ensures
            match r {
                Some((x, y)) => cell_of_spec(self.axis as int, position) == Some(
                    (x as int, y as int),
                ) && x < self.axis && y < self.axis,
                None => cell_of_spec(self.axis as int, position) is None,
            },
    {
        cell_of(self.axis, position)
    }

    /// Cell number of a position on the grid.
    pub fn cell(&self, position: Vec2) -> (r: Option<usize>)
        requires
            self.wf(),
        ensures
            match r {
                Some(cell) => self.cell_spec(position) == Some(cell as int) && cell < self.area(),
                None => self.cell_spec(position) is None,
            },
    {
        match self.cell_xy(position) {
            Some((x, y)) => {
                proof {
                    lemma_cell_index(self.axis as int, x as int, y as int);
                    assert(self.axis * self.axis <= 512 * 512) by (nonlinear_arith)
                        requires
                            0 <= self.axis <= 512,
                    ;
                    assert(0 <= y * self.axis) by (nonlinear_arith)
                        requires
                            0 <= y,
                            0 <= self.axis,
                    ;
                }
                Some(y * self.axis + x)
            },
            None => None,
        }
    }

    /// Decodes the static map data of a tracker.
    pub fn new(tracker: &StateTracker) -> (r: Self)
        requires
            tracker.wf(),
            tracker.static_trees@.len() <= 0x1_0000_0000,
        ensures
            r.wf(),
            r.decoded_from(*tracker),
            r.path_origin is None,
    {
        let axis = tracker.metadata.terrain_cells as usize;
        proof {
            assert(axis * axis <= 512 * 512) by (nonlinear_arith)
                requires
                    0 <= axis <= 512,
            ;
        }
        let area: usize = axis * axis;
        let terrain = expand_terrain(tracker);
        let mut opaque: Vec<bool> = Vec::new();
        opaque.resize(area, false);
        let mut index: usize = 0;
        while index < tracker.opaque_cells.len()
            invariant
                index <= tracker.opaque_cells@.len(),
                tracker.wf(),
                axis == tracker.axis(),
                area == axis * axis,
                opaque@.len() == area,
                forall|cell: int|
                    0 <= cell < area ==> (#[trigger] opaque@[cell]) == exists|i: int|
                        0 <= i < index && cell == (#[trigger] tracker.opaque_cells@[i]).1
                            * tracker.axis() + tracker.opaque_cells@[i].0,
            decreases tracker.opaque_cells@.len() - index,
        {
            let (x, y) = tracker.opaque_cells[index];
            let ghost before = opaque@;
            proof {
                lemma_cell_index(axis as int, x as int, y as int);
                assert(0 <= y * axis) by (nonlinear_arith)
                    requires
                        0 <= y,
                        0 <= axis,
                ;
                assert(axis * axis <= 512 * 512) by (nonlinear_arith)
                    requires
                        0 <= axis <= 512,
                ;
            }
            let cell: usize = y as usize * axis + x as usize;
            opaque.set(cell, true);
            proof {
                assert forall|c: int| 0 <= c < area implies (#[trigger] opaque@[c]) == exists|i: int|
                    0 <= i < index + 1 && c == (#[trigger] tracker.opaque_cells@[i]).1
                        * tracker.axis() + tracker.opaque_cells@[i].0 by {
                    assert(before[c] == exists|i: int|
                        0 <= i < index && c == (#[trigger] tracker.opaque_cells@[i]).1
                            * tracker.axis() + tracker.opaque_cells@[i].0);
                    if c == cell {
                        assert(tracker.opaque_cells@[index as int].1 * tracker.axis()
                            + tracker.opaque_cells@[index as int].0 == c);
                    }
                }
            }
            index += 1;
        }
        let mut static_tree_index: Vec<(usize, u32)> = Vec::new();
        let mut static_tree_cells: Vec<bool> = Vec::new();
        static_tree_cells.resize(area, false);
        index = 0;
        assert(tracker.static_trees@.take(0) =~= Seq::<Vec2>::empty());
        while index < tracker.static_trees.len()
            invariant
                index <= tracker.static_trees@.len(),
                tracker.static_trees@.len() <= 0x1_0000_0000,
                tracker.wf(),
                axis == tracker.axis(),
                area == axis * axis,
                static_tree_cells@.len() == area,
                static_tree_index@ == tree_entries(
                    tracker.static_trees@.take(index as int),
                    axis as int,
                ),
                forall|cell: int|
                    0 <= cell < area ==> (#[trigger] static_tree_cells@[cell]) == holds_tree(
                        static_tree_index@,
                        cell,
                    ),
            decreases tracker.static_trees@.len() - index,
        {
            let position = tracker.static_trees[index];
            let ghost entries = static_tree_index@;
            let ghost before = static_tree_cells@;
            proof {
                let longer = tracker.static_trees@.take(index + 1);
                assert(longer.drop_last() =~= tracker.static_trees@.take(index as int));
                assert(longer.last() == position);
            }
            match cell_of(axis, position) {
                Some((x, y)) => {
                    proof {
                        lemma_cell_index(axis as int, x as int, y as int);
                        assert(0 <= y * axis) by (nonlinear_arith)
                            requires
                                0 <= y,
                                0 <= axis,
                        ;
                        assert(axis * axis <= 512 * 512) by (nonlinear_arith)
                            requires
                                0 <= axis <= 512,
                        ;
                    }
                    let cell: usize = y * axis + x;
                    static_tree_index.push((cell, index as u32));
                    static_tree_cells.set(cell, true);
                    proof {
                        assert forall|c: int| 0 <= c < area implies (
                        #[trigger] static_tree_cells@[c]) == holds_tree(
                            static_tree_index@,
                            c,
                        ) by {
                            assert(before[c] == holds_tree(entries, c));
                            if holds_tree(entries, c) {
                                let i = choose|i: int|
                                    0 <= i < entries.len() && (#[trigger] entries[i]).0 == c;
                                assert(static_tree_index@[i].0 == c);
                            }
                            if c == cell {
                                assert(static_tree_index@[entries.len() as int].0 == c);
                            }
                            if holds_tree(static_tree_index@, c) && c != cell {
                                let i = choose|i: int|
                                    0 <= i < static_tree_index@.len() && (
                                    #[trigger] static_tree_index@[i]).0 == c;
                                assert(entries[i].0 == c);
                            }
                        }
                    }
                },
                None => {},
            }
            index += 1;
        }
        assert(tracker.static_trees@.take(tracker.static_trees@.len() as int)
            =~= tracker.static_trees@);
        let mut path_distances: Vec<u32> = Vec::new();
        path_distances.resize(area, UNREACHED);
        MapContext {
            axis,
            extent_raw: axis as i64 * TERRAIN_CELL_RAW,
            terrain,
            opaque,
            static_tree_index,
            static_tree_cells,
            path_distances,
            path_origin: None,
        }
    }

    /// Whether a cell holds a static tree.
    pub fn static_tree_at_cell(&self, cell: usize) -> (r: bool)
        requires
            self.wf(),
            cell < self.area(),
        ensures
            r == holds_tree(self.static_tree_index@, cell as int),
    {
        self.static_tree_cells[cell]
    }

    /// Whether a planted tree stands in the cell of a position.
    pub open spec fn planted_in(self, planted: Seq<Vec2>, position: Vec2) -> bool {
        exists|i: int|
            0 <= i < planted.len() && self.cell_spec(#[trigger] planted[i]) is Some
                && self.cell_spec(planted[i]) == self.cell_spec(position)
    }

    /// Whether the own seat knows a tree at a position: a static one that it has not seen felled,
    /// or a planted one that it can see.
    pub open spec fn tree_known(self, tracker: StateTracker, position: Vec2) -> bool {
        match self.cell_spec(position) {
            None => false,
            Some(cell) => {
                ||| exists|i: int|
                    0 <= i < self.static_tree_index@.len() && (
                    #[trigger] self.static_tree_index@[i]).0 == cell && !(tracker.observable(
                        position,
                    ) && tracker.view_spec().felled_trees@.contains(self.static_tree_index@[i].1))
                ||| tracker.observable(position) && self.planted_in(
                    tracker.view_spec().planted_trees@,
                    position,
                )
            },
        }
    }

    fn any_planted(&self, planted: &Vec<Vec2>, position: Vec2) -> (r: bool)
        requires
            self.wf(),
        ensures
            r == self.planted_in(planted@, position),
    {
        let target = self.cell(position);
        let mut index: usize = 0;
        while index < planted.len()
            invariant
                self.wf(),
                index <= planted@.len(),
                match target {
                    Some(cell) => self.cell_spec(position) == Some(cell as int),
                    None => self.cell_spec(position) is None,
                },
                forall|i: int|
                    0 <= i < index ==> !(self.cell_spec(#[trigger] planted@[i]) is Some
                        && self.cell_spec(planted@[i]) == self.cell_spec(position)),
            decreases planted@.len() - index,
        {
            let cell = self.cell(planted[index]);
            match (cell, target) {
                (Some(left), Some(right)) => {
                    if left == right {
                        assert(self.cell_spec(planted@[index as int]) == self.cell_spec(position));
                        return true;
                    }
                },
                _ => {},
            }
            index += 1;
        }
        false
    }

    /// Whether the own seat knows a tree at a position.
    pub fn tree_at_visible_context(&self, tracker: &StateTracker, position: Vec2) -> (r: bool)
        requires
            self.wf(),
            tracker.wf(),
            tracker.current is Some,
        ensures
            r == self.tree_known(*tracker, position),
    {
        let current = tracker.current.as_ref().unwrap();
        let cell = match self.cell(position) {
            Some(cell) => cell,
            None => {
                return false;
            },
        };
        let observable = tracker.is_observable(position);
        let mut index: usize = 0;
        while index < self.static_tree_index.len()
            invariant
                index <= self.static_tree_index@.len(),
                tracker.current == Some(*current),
                observable == tracker.observable(position),
                self.cell_spec(position) == Some(cell as int),
                forall|i: int|
                    0 <= i < index ==> !((#[trigger] self.static_tree_index@[i]).0 == cell && !(
                    observable && current.felled_trees@.contains(self.static_tree_index@[i].1))),
            decreases self.static_tree_index@.len() - index,
        {
            let (tree_cell, number) = self.static_tree_index[index];
            if tree_cell == cell {
                if !observable || !contains_index(&current.felled_trees, number) {
                    assert(self.static_tree_index@[index as int].0 == cell);
                    return true;
                }
            }
            index += 1;
        }
        observable && self.any_planted(&current.planted_trees, position)
    }
}

/// Where the own seat sees no tree changes, it knows exactly the trees of the static map.
pub proof fn unseen_tree_changes_are_ignored(
    context: MapContext,
    tracker: StateTracker,
    position: Vec2,
)
    requires
        !tracker.observable(position),
    ensures
        context.tree_known(tracker, position) == match context.cell_spec(position) {
            Some(cell) => holds_tree(context.static_tree_index@, cell),
            None => false,
        },
{
}

} // verus!
