//! Cells a unit can stand on, reconstructed from terrain, trees, and structures.
use crate::action::ActionError;
use crate::tracker::{
    cell_of, cell_of_spec, lemma_run_cells_len, lemma_run_total_prefix, run_cells, run_total,
    StateTracker, MAX_TERRAIN_AXIS, TERRAIN_CELL_SIZE, TERRAIN_WALKABLE,
};
use crate::world::{square, Fixed, UnitView, Vec2, WorldView};
use vstd::arithmetic::div_mod::lemma_fundamental_div_mod_converse;
use vstd::prelude::*;

verus! {

/// World units kept free around a standing tree.
pub const STATIC_TREE_CLEARANCE: i32 = 80;
/// Raw units kept free around a structure.
pub const STRUCTURE_CLEARANCE_RAW: i32 = 2_097_152;

/// Open cells of a square grid in row order.
#[derive(Debug)]
pub struct StaticPassability {
    pub axis: usize,
    pub open: Vec<bool>,
}

/// Center of a terrain cell.
pub open spec fn cell_center_spec(cell_x: int, cell_y: int) -> (int, int) {
    ((cell_x * 64 + 32) * 65_536, (cell_y * 64 + 32) * 65_536)
}

/// Whether a circle around an on-grid center covers the center of a cell.
pub open spec fn covers(axis: int, center: Vec2, radius: Fixed, cell_x: int, cell_y: int) -> bool {
    let (x, y) = cell_center_spec(cell_x, cell_y);
    &&& cell_of_spec(axis, center) is Some
    &&& square(x - center.x.raw) + square(y - center.y.raw) <= square(radius.raw as int)
}

pub proof fn lemma_cell_index(axis: int, cell_x: int, cell_y: int)
    requires
        0 <= cell_x < axis,
        0 <= cell_y < axis,
    ensures
        0 <= cell_y * axis + cell_x < axis * axis,
        (cell_y * axis + cell_x) % axis == cell_x,
        (cell_y * axis + cell_x) / axis == cell_y,
{
    assert(0 <= cell_y * axis + cell_x < axis * axis) by (nonlinear_arith)
        requires
            0 <= cell_x < axis,
            0 <= cell_y < axis,
    ;
    lemma_fundamental_div_mod_converse(cell_y * axis + cell_x, axis, cell_y, cell_x);
}

pub proof fn lemma_index_cell(axis: int, index: int)
    requires
        0 < axis,
        0 <= index < axis * axis,
    ensures
        0 <= index % axis < axis,
        0 <= index / axis < axis,
        (index / axis) * axis + index % axis == index,
{
    vstd::arithmetic::div_mod::lemma_fundamental_div_mod(index, axis);
    assert(axis * (index / axis) == (index / axis) * axis) by (nonlinear_arith);
    assert(index / axis < axis) by (nonlinear_arith)
        requires
            0 <= index < axis * axis,
            0 < axis,
    ;
    vstd::arithmetic::div_mod::lemma_div_pos_is_pos(index, axis);
}

/// A distance inside a circle bounds the offset along each axis.
proof fn lemma_axis_offset(dx: int, dy: int, radius: int)
    requires
        radius >= 0,
        square(dx) + square(dy) <= square(radius),
    ensures
        -radius <= dx <= radius,
        -radius <= dy <= radius,
{
    assert(dy * dy >= 0) by (nonlinear_arith);
    assert(dx * dx >= 0) by (nonlinear_arith);
    assert(-radius <= dx <= radius) by (nonlinear_arith)
        requires
            dx * dx <= radius * radius,
            radius >= 0,
    ;
    assert(-radius <= dy <= radius) by (nonlinear_arith)
        requires
            dy * dy <= radius * radius,
            radius >= 0,
    ;
}

/// A cell whose center a circle covers lies within the search span of the circle's cell.
proof fn lemma_covered_in_span(
    axis: int,
    center: Vec2,
    radius: Fixed,
    cell_x: int,
    cell_y: int,
)
    requires
        covers(axis, center, radius, cell_x, cell_y),
        radius.raw >= 0,
    ensures
        ({
            let span = radius.raw as int / 65_536 / 64 + 1;
            let (center_x, center_y) = cell_of_spec(axis, center)->0;
            &&& center_x - span <= cell_x <= center_x + span
            &&& center_y - span <= cell_y <= center_y + span
        }),
{
    let (x, y) = cell_center_spec(cell_x, cell_y);
    lemma_axis_offset(x - center.x.raw, y - center.y.raw, radius.raw as int);
}

impl StaticPassability {
    pub open spec fn wf(self) -> bool {
        &&& 1 <= self.axis <= MAX_TERRAIN_AXIS
        &&& self.open@.len() == self.axis * self.axis
    }

    /// Whether a unit can stand at a position.
    pub open spec fn standable(self, position: Vec2) -> bool {
        match cell_of_spec(self.axis as int, position) {
            Some((x, y)) => self.open@[y * self.axis + x],
            None => false,
        }
    }

    /// Whether a unit can stand at a position.
    pub fn walkable(&self, position: Vec2) -> (r: bool)
        requires
            self.wf(),
        ensures
            r == self.standable(position),
    {
        match cell_of(self.axis, position) {
            Some((cell_x, cell_y)) => {
                proof {
                    lemma_cell_index(self.axis as int, cell_x as int, cell_y as int);
                    assert(cell_y * self.axis <= cell_y * self.axis + cell_x);
                    assert(self.axis * self.axis <= 512 * 512) by (nonlinear_arith)
                        requires
                            0 <= self.axis <= 512,
                    ;
                }
                self.open[cell_y * self.axis + cell_x]
            },
            None => false,
        }
    }

    /// Center of a cell of the grid.
    pub fn cell_center(&self, cell_x: usize, cell_y: usize) -> (r: Vec2)
        requires
            self.wf(),
            cell_x < self.axis,
            cell_y < self.axis,
        ensures
            (r.x.raw as int, r.y.raw as int) == cell_center_spec(cell_x as int, cell_y as int),
            r.on_map(),
    {
        let half: i32 = TERRAIN_CELL_SIZE / 2;
        Vec2::from_ints(
            cell_x as i32 * TERRAIN_CELL_SIZE + half,
            cell_y as i32 * TERRAIN_CELL_SIZE + half,
        )
    }

    /// Closes every cell whose center lies inside a circle around an on-grid position.
    pub fn block_circle(&mut self, center: Vec2, radius: Fixed)
        requires
            old(self).wf(),
            radius.raw >= 0,
        ensures
            final(self).wf(),
            final(self).axis == old(self).axis,
            forall|i: int|
                0 <= i < final(self).open@.len() ==> (#[trigger] final(self).open@[i]) == (old(
                    self,
                ).open@[i] && !covers(
                    old(self).axis as int,
                    center,
                    radius,
                    i % (old(self).axis as int),
                    i / (old(self).axis as int),
                )),
    {
        let axis = self.axis;
        let ghost before = self.open@;
        let span: usize = (radius.to_int() / TERRAIN_CELL_SIZE + 1) as usize;
        let (center_x, center_y) = match cell_of(axis, center) {
            Some(cell) => cell,
            None => {
                return ;
            },
        };
        let start_x: usize = center_x.saturating_sub(span);
        let start_y: usize = center_y.saturating_sub(span);
        let end_x: usize = if center_x + span < axis {
            center_x + span
        } else {
            axis - 1
        };
        let end_y: usize = if center_y + span < axis {
            center_y + span
        } else {
            axis - 1
        };
        let mut cell_y: usize = start_y;
        while cell_y <= end_y
            invariant
                self.wf(),
                self.axis == axis,
                radius.raw >= 0,
                center.on_map(),
                cell_of_spec(axis as int, center) is Some,
                start_x <= end_x < axis,
                start_y <= cell_y <= end_y + 1,
                end_y < axis,
                before.len() == self.open@.len(),
                forall|i: int|
                    0 <= i < self.open@.len() ==> (#[trigger] self.open@[i]) == (before[i] && !(
                    covers(axis as int, center, radius, i % (axis as int), i / (axis as int))
                        && start_x <= i % (axis as int) <= end_x && start_y <= i / (axis as int)
                        < cell_y)),
            decreases end_y + 1 - cell_y,
        {
            let mut cell_x: usize = start_x;
            while cell_x <= end_x
                invariant
                    self.wf(),
                    self.axis == axis,
                    radius.raw >= 0,
                    center.on_map(),
                    cell_of_spec(axis as int, center) is Some,
                    start_x <= cell_x <= end_x + 1,
                    end_x < axis,
                    start_y <= cell_y <= end_y,
                    end_y < axis,
                    before.len() == self.open@.len(),
                    forall|i: int|
                        0 <= i < self.open@.len() ==> (#[trigger] self.open@[i]) == (before[i]
                            && !(covers(
                            axis as int,
                            center,
                            radius,
                            i % (axis as int),
                            i / (axis as int),
                        ) && start_x <= i % (axis as int) <= end_x && (start_y <= i / (axis as int)
                            < cell_y || (i / (axis as int) == cell_y && i % (axis as int)
                            < cell_x)))),
                decreases end_x + 1 - cell_x,
            {
                let ghost previous = self.open@;
                let middle = self.cell_center(cell_x, cell_y);
                let ghost at = cell_y * axis + cell_x;
                proof {
                    lemma_cell_index(axis as int, cell_x as int, cell_y as int);
                    assert(axis * axis <= 512 * 512) by (nonlinear_arith)
                        requires
                            0 <= axis <= 512,
                    ;
                    assert(square(middle.x.raw - center.x.raw) == square(
                        center.x.raw - middle.x.raw,
                    )) by (nonlinear_arith);
                    assert(square(middle.y.raw - center.y.raw) == square(
                        center.y.raw - middle.y.raw,
                    )) by (nonlinear_arith);
                }
                if middle.within(center, radius) {
                    self.open.set(cell_y * axis + cell_x, false);
                }
                proof {
                    assert forall|i: int| 0 <= i < self.open@.len() implies (
                    #[trigger] self.open@[i]) == (before[i] && !(covers(
                        axis as int,
                        center,
                        radius,
                        i % (axis as int),
                        i / (axis as int),
                    ) && start_x <= i % (axis as int) <= end_x && (start_y <= i / (axis as int)
                        < cell_y || (i / (axis as int) == cell_y && i % (axis as int) < cell_x
                        + 1)))) by {
                        assert(previous[i] == previous[i]);
                        lemma_index_cell(axis as int, i);
                    }
                }
                cell_x += 1;
            }
            proof {
                assert forall|i: int| 0 <= i < self.open@.len() implies (#[trigger] self.open@[i])
                    == (before[i] && !(covers(
                    axis as int,
                    center,
                    radius,
                    i % (axis as int),
                    i / (axis as int),
                ) && start_x <= i % (axis as int) <= end_x && start_y <= i / (axis as int) < cell_y
                    + 1)) by {
                    lemma_index_cell(axis as int, i);
                }
            }
            cell_y += 1;
        }
        proof {
            assert forall|i: int| 0 <= i < self.open@.len() implies (#[trigger] self.open@[i]) == (
            before[i] && !covers(
                axis as int,
                center,
                radius,
                i % (axis as int),
                i / (axis as int),
            )) by {
                lemma_index_cell(axis as int, i);
                if covers(axis as int, center, radius, i % (axis as int), i / (axis as int)) {
                    lemma_covered_in_span(
                        axis as int,
                        center,
                        radius,
                        i % (axis as int),
                        i / (axis as int),
                    );
                }
            }
        }
    }
}


/// Whether a number occurs in a list.
pub fn contains_index(list: &Vec<u32>, value: u32) -> (r: bool)
    ensures
        r == list@.contains(value),
{
    let mut index: usize = 0;
    while index < list.len()
        invariant
            index <= list@.len(),
            forall|j: int| 0 <= j < index ==> list@[j] != value,
        decreases list@.len() - index,
    {
        if list[index] == value {
            assert(list@[index as int] == value);
            return true;
        }
        index += 1;
    }
    false
}

/// Clearance around a standing tree.
pub open spec fn tree_clearance() -> Fixed {
    Fixed { raw: 5_242_880 }
}

/// Clearance around a structure.
pub open spec fn structure_clearance(unit: UnitView) -> Fixed {
    Fixed { raw: (unit.radius.raw + STRUCTURE_CLEARANCE_RAW) as i32 }
}

/// Whether a static tree is not known to be felled.
pub open spec fn tree_stands(tracker: StateTracker, view: WorldView, index: int) -> bool {
    !(view.felled_trees@.contains(index as u32) && tracker.observable(
        tracker.static_trees@[index],
    ))
}

/// Whether one of the first static trees closes a cell.
pub open spec fn trees_close(
    tracker: StateTracker,
    view: WorldView,
    count: int,
    cell_x: int,
    cell_y: int,
) -> bool {
    exists|j: int|
        0 <= j < count && tree_stands(tracker, view, j) && covers(
            tracker.axis(),
            #[trigger] tracker.static_trees@[j],
            tree_clearance(),
            cell_x,
            cell_y,
        )
}

/// Whether one of the first planted trees closes a cell.
pub open spec fn planted_close(
    tracker: StateTracker,
    view: WorldView,
    count: int,
    cell_x: int,
    cell_y: int,
) -> bool {
    exists|j: int|
        0 <= j < count && tracker.observable(#[trigger] view.planted_trees@[j]) && covers(
            tracker.axis(),
            view.planted_trees@[j],
            tree_clearance(),
            cell_x,
            cell_y,
        )
}

/// Whether one of the first structures closes a cell.
pub open spec fn structures_close(
    axis: int,
    units: Seq<UnitView>,
    count: int,
    cell_x: int,
    cell_y: int,
) -> bool {
    exists|j: int|
        0 <= j < count && (#[trigger] units[j]).kind.structure() && covers(
            axis,
            units[j].pos,
            structure_clearance(units[j]),
            cell_x,
            cell_y,
        )
}

/// Whether terrain, trees, and structures leave a cell open.
pub open spec fn cell_open(tracker: StateTracker, view: WorldView, index: int) -> bool {
    let x = index % tracker.axis();
    let y = index / tracker.axis();
    &&& run_cells(tracker.terrain_rle@)[index] & TERRAIN_WALKABLE != 0
    &&& !trees_close(tracker, view, tracker.static_trees@.len() as int, x, y)
    &&& !planted_close(tracker, view, view.planted_trees@.len() as int, x, y)
    &&& !structures_close(tracker.axis(), view.units@, view.units@.len() as int, x, y)
}

/// Every structure radius leaves room for its clearance.
pub open spec fn radii_fit(units: Seq<UnitView>) -> bool {
    forall|j: int|
        0 <= j < units.len() ==> 0 <= (#[trigger] units[j]).radius.raw && units[j].radius.raw
            + STRUCTURE_CLEARANCE_RAW <= i32::MAX
}

/// Expands run-length terrain into one value per cell.
pub fn expand_terrain(tracker: &StateTracker) -> (terrain: Vec<u8>)
    requires
        tracker.wf(),
    ensures
        terrain@ == run_cells(tracker.terrain_rle@),
        terrain@.len() == tracker.axis() * tracker.axis(),
{
    let ghost runs = tracker.terrain_rle@;
    let mut terrain: Vec<u8> = Vec::new();
    let mut index: usize = 0;
    proof {
        assert(tracker.axis() * tracker.axis() <= 512 * 512) by (nonlinear_arith)
            requires
                0 <= tracker.axis() <= 512,
        ;
    }
    while index < tracker.terrain_rle.len()
        invariant
            index <= runs.len(),
            runs == tracker.terrain_rle@,
            run_total(runs) <= 512 * 512,
            terrain@ == run_cells(runs.subrange(0, index as int)),
        decreases runs.len() - index,
    {
        let (run, cell) = tracker.terrain_rle[index];
        proof {
            lemma_run_total_prefix(runs, index + 1);
            assert(runs.subrange(0, index + 1).drop_last() =~= runs.subrange(0, index as int));
            lemma_run_cells_len(runs.subrange(0, index as int));
        }
        let ghost before = terrain@;
        let length: usize = terrain.len() + run as usize;
        terrain.resize(length, cell);
        assert(terrain@ =~= before + Seq::new(run as nat, |i: int| cell));
        index += 1;
    }
    proof {
        assert(runs.subrange(0, runs.len() as int) =~= runs);
        lemma_run_cells_len(runs);
    }
    terrain
}

/// Whether every cell of a grid is what terrain, trees, and structures make of it.
pub open spec fn grid_matches(
    grid: StaticPassability,
    tracker: StateTracker,
    view: WorldView,
) -> bool {
    &&& grid.wf()
    &&& grid.axis == tracker.axis()
    &&& forall|i: int|
        0 <= i < grid.open@.len() ==> (#[trigger] grid.open@[i]) == cell_open(tracker, view, i)
}

/// Open cells of the current view; fails only when a tree index exceeds 32 bits.
pub fn reconstruct_static_passability(tracker: &StateTracker, current: &WorldView) -> (r: Result<
    StaticPassability,
    ActionError,
>)
    requires
        tracker.wf(),
        radii_fit(current.units@),
    ensures
        match r {
            Ok(grid) => {
                &&& tracker.static_trees@.len() <= 0x1_0000_0000
                &&& grid_matches(grid, *tracker, *current)
            },
            Err(error) => tracker.static_trees@.len() > 0x1_0000_0000 && error
                == ActionError::Arithmetic("tree index"),
        },
{
    let axis: usize = tracker.metadata.terrain_cells as usize;
    let terrain = expand_terrain(tracker);
    let mut open: Vec<bool> = Vec::new();
    let mut index: usize = 0;
    while index < terrain.len()
        invariant
            index <= terrain@.len(),
            open@.len() == index,
            forall|i: int| 0 <= i < index ==> (#[trigger] open@[i]) == (terrain@[i]
                & TERRAIN_WALKABLE != 0),
        decreases terrain@.len() - index,
    {
        open.push(terrain[index] & TERRAIN_WALKABLE != 0);
        index += 1;
    }
    let mut grid = StaticPassability { axis, open };
    index = 0;
    while index < tracker.static_trees.len()
        invariant
            tracker.wf(),
            grid.wf(),
            grid.axis == axis,
            axis == tracker.axis(),
            terrain@.len() == grid.open@.len(),
            index <= tracker.static_trees@.len(),
            index <= 0x1_0000_0000,
            forall|i: int|
                0 <= i < grid.open@.len() ==> (#[trigger] grid.open@[i]) == (terrain@[i]
                    & TERRAIN_WALKABLE != 0 && !trees_close(
                    *tracker,
                    *current,
                    index as int,
                    i % (axis as int),
                    i / (axis as int),
                )),
        decreases tracker.static_trees@.len() - index,
    {
        if index > 0xffff_ffff {
            return Err(ActionError::Arithmetic("tree index"));
        }
        let position = tracker.static_trees[index];
        let felled = contains_index(&current.felled_trees, index as u32) && tracker.is_observable(
            position,
        );
        let ghost before = grid.open@;
        if !felled {
            grid.block_circle(position, Fixed::from_int(STATIC_TREE_CLEARANCE));
        }
        proof {
            assert forall|i: int| 0 <= i < grid.open@.len() implies (#[trigger] grid.open@[i]) == (
            terrain@[i] & TERRAIN_WALKABLE != 0 && !trees_close(
                *tracker,
                *current,
                index + 1,
                i % (axis as int),
                i / (axis as int),
            )) by {
                let x = i % (axis as int);
                let y = i / (axis as int);
                assert(before[i] == (terrain@[i] & TERRAIN_WALKABLE != 0 && !trees_close(
                    *tracker,
                    *current,
                    index as int,
                    x,
                    y,
                )));
                assert(tracker.static_trees@[index as int] == position);
                assert(trees_close(*tracker, *current, index + 1, x, y) == (trees_close(
                    *tracker,
                    *current,
                    index as int,
                    x,
                    y,
                ) || (!felled && covers(axis as int, position, tree_clearance(), x, y))));
            }
        }
        index += 1;
    }
    let ghost treed = grid.open@;
    index = 0;
    while index < current.planted_trees.len()
        invariant
            tracker.wf(),
            grid.wf(),
            grid.axis == axis,
            axis == tracker.axis(),
            treed.len() == grid.open@.len(),
            index <= current.planted_trees@.len(),
            forall|i: int|
                0 <= i < grid.open@.len() ==> (#[trigger] grid.open@[i]) == (treed[i]
                    && !planted_close(
                    *tracker,
                    *current,
                    index as int,
                    i % (axis as int),
                    i / (axis as int),
                )),
        decreases current.planted_trees@.len() - index,
    {
        let position = current.planted_trees[index];
        let ghost before = grid.open@;
        let visible = tracker.is_observable(position);
        if visible {
            grid.block_circle(position, Fixed::from_int(STATIC_TREE_CLEARANCE));
        }
        proof {
            assert forall|i: int| 0 <= i < grid.open@.len() implies (#[trigger] grid.open@[i]) == (
            treed[i] && !planted_close(
                *tracker,
                *current,
                index + 1,
                i % (axis as int),
                i / (axis as int),
            )) by {
                let x = i % (axis as int);
                let y = i / (axis as int);
                assert(before[i] == (treed[i] && !planted_close(
                    *tracker,
                    *current,
                    index as int,
                    x,
                    y,
                )));
                assert(current.planted_trees@[index as int] == position);
                assert(planted_close(*tracker, *current, index + 1, x, y) == (planted_close(
                    *tracker,
                    *current,
                    index as int,
                    x,
                    y,
                ) || (visible && covers(axis as int, position, tree_clearance(), x, y))));
            }
        }
        index += 1;
    }
    let ghost planted = grid.open@;
    index = 0;
    while index < current.units.len()
        invariant
            tracker.wf(),
            radii_fit(current.units@),
            grid.wf(),
            grid.axis == axis,
            axis == tracker.axis(),
            planted.len() == grid.open@.len(),
            index <= current.units@.len(),
            forall|i: int|
                0 <= i < grid.open@.len() ==> (#[trigger] grid.open@[i]) == (planted[i]
                    && !structures_close(
                    axis as int,
                    current.units@,
                    index as int,
                    i % (axis as int),
                    i / (axis as int),
                )),
        decreases current.units@.len() - index,
    {
        let ghost before = grid.open@;
        let ghost unit = current.units@[index as int];
        if current.units[index].kind.is_structure() {
            let clearance: i32 = current.units[index].radius.raw + STRUCTURE_CLEARANCE_RAW;
            grid.block_circle(current.units[index].pos, Fixed { raw: clearance });
        }
        proof {
            assert forall|i: int| 0 <= i < grid.open@.len() implies (#[trigger] grid.open@[i]) == (
            planted[i] && !structures_close(
                axis as int,
                current.units@,
                index + 1,
                i % (axis as int),
                i / (axis as int),
            )) by {
                let x = i % (axis as int);
                let y = i / (axis as int);
                assert(before[i] == (planted[i] && !structures_close(
                    axis as int,
                    current.units@,
                    index as int,
                    x,
                    y,
                )));
                assert(structures_close(axis as int, current.units@, index + 1, x, y) == (
                structures_close(axis as int, current.units@, index as int, x, y) || (
                unit.kind.structure() && covers(
                    axis as int,
                    unit.pos,
                    structure_clearance(unit),
                    x,
                    y,
                ))));
            }
        }
        index += 1;
    }
    proof {
        assert forall|i: int| 0 <= i < grid.open@.len() implies (#[trigger] grid.open@[i])
            == cell_open(*tracker, *current, i) by {
            assert(planted[i] == planted[i]);
            assert(treed[i] == treed[i]);
        }
    }
    Ok(grid)
}

proof fn lemma_unseen_planted(
    tracker: StateTracker,
    left: WorldView,
    right: WorldView,
    cell_x: int,
    cell_y: int,
)
    requires
        forall|tree: Vec2| #[trigger]
            tracker.observable(tree) && left.planted_trees@.contains(tree)
                ==> right.planted_trees@.contains(tree),
        planted_close(tracker, left, left.planted_trees@.len() as int, cell_x, cell_y),
    ensures
        planted_close(tracker, right, right.planted_trees@.len() as int, cell_x, cell_y),
{
    let j = choose|j: int|
        0 <= j < left.planted_trees@.len() && tracker.observable(
            #[trigger] left.planted_trees@[j],
        ) && covers(
            tracker.axis(),
            left.planted_trees@[j],
            tree_clearance(),
            cell_x,
            cell_y,
        );
    let tree = left.planted_trees@[j];
    assert(left.planted_trees@.contains(tree));
    let k = choose|k: int| 0 <= k < right.planted_trees@.len() && right.planted_trees@[k] == tree;
    assert(tracker.observable(right.planted_trees@[k]));
}

/// Felled and planted trees that the own seat cannot see leave the walkable ground unchanged.
pub proof fn unseen_tree_changes_keep_the_ground(
    tracker: StateTracker,
    left: WorldView,
    right: WorldView,
    index: int,
)
    requires
        left.units@ == right.units@,
        forall|j: int|
            0 <= j < tracker.static_trees@.len() && tracker.observable(
                #[trigger] tracker.static_trees@[j],
            ) ==> left.felled_trees@.contains(j as u32) == right.felled_trees@.contains(j as u32),
        forall|tree: Vec2| #[trigger]
            tracker.observable(tree) ==> left.planted_trees@.contains(tree)
                == right.planted_trees@.contains(tree),
    ensures
        cell_open(tracker, left, index) == cell_open(tracker, right, index),
{
    let x = index % tracker.axis();
    let y = index / tracker.axis();
    assert forall|j: int| 0 <= j < tracker.static_trees@.len() implies tree_stands(
        tracker,
        left,
        j,
    ) == tree_stands(tracker, right, j) by {
        let tree = tracker.static_trees@[j];
    }
    if planted_close(tracker, left, left.planted_trees@.len() as int, x, y) {
        lemma_unseen_planted(tracker, left, right, x, y);
    }
    if planted_close(tracker, right, right.planted_trees@.len() as int, x, y) {
        lemma_unseen_planted(tracker, right, left, x, y);
    }
}

} // verus!
