//! Shortest walking distances over the static grid by breadth-first search.
use crate::map_context::{map_direction, neighbor_of, MapContext, UNREACHED};
use crate::passability::{lemma_cell_index, lemma_index_cell};
use crate::search::tally;
use crate::world::Vec2;
use vstd::prelude::*;

verus! {

/// Changing one element changes the tally by what it was and what it becomes.
proof fn lemma_tally_update<T>(list: Seq<T>, test: spec_fn(T) -> bool, index: int, value: T)
    requires
        0 <= index < list.len(),
    ensures
        tally(list.update(index, value), test) + (if test(list[index]) {
            1nat
        } else {
            0nat
        }) == tally(list, test) + (if test(value) {
            1nat
        } else {
            0nat
        }),
    decreases list.len(),
{
    let changed = list.update(index, value);
    if index == list.len() - 1 {
        assert(changed.drop_last() =~= list.drop_last());
    } else {
        lemma_tally_update(list.drop_last(), test, index, value);
        assert(changed.drop_last() =~= list.drop_last().update(index, value));
    }
}

proof fn lemma_tally_all<T>(list: Seq<T>, test: spec_fn(T) -> bool)
    requires
        forall|i: int| 0 <= i < list.len() ==> test(#[trigger] list[i]),
    ensures
        tally(list, test) == list.len(),
    decreases list.len(),
{
    if list.len() > 0 {
        assert forall|i: int| 0 <= i < list.len() - 1 implies test(
            #[trigger] list.drop_last()[i],
        ) by {
            assert(list.drop_last()[i] == list[i]);
        }
        assert(test(list[list.len() - 1]));
        lemma_tally_all(list.drop_last(), test);
    }
}

/// Cells next to a cell of the grid lie on the grid.
proof fn lemma_neighbor_range(axis: int, cell: int, direction: int)
    requires
        0 < axis,
    ensures
        neighbor_of(axis, cell, direction) matches Some(next) ==> 0 <= next < axis * axis,
{
    let x = cell % axis + crate::map_context::direction_at(direction).0;
    let y = cell / axis + crate::map_context::direction_at(direction).1;
    if 0 <= x < axis && 0 <= y < axis {
        lemma_cell_index(axis, x, y);
    }
}

/// Whether a cell has no recorded distance yet.
pub open spec fn without_distance() -> spec_fn(u32) -> bool {
    |distance: u32| distance == UNREACHED
}

impl MapContext {
    /// Queue of visited cells in order of distance, each with a distance that steps prove.
    pub open spec fn visited(self, origin: int, distances: Seq<u32>, queue: Seq<usize>) -> bool {
        &&& distances.len() == self.area()
        &&& tally(distances, without_distance()) + queue.len() == self.area()
        &&& queue.len() > 0 && queue[0] == origin
        &&& 0 <= origin < self.area()
        &&& distances[origin] == 0
        &&& forall|i: int| 0 <= i < queue.len() ==> (#[trigger] queue[i]) < self.area()
        &&& forall|i: int| 0 <= i < queue.len() ==> distances[(#[trigger] queue[i]) as int] <= i
        &&& forall|i: int, j: int|
            0 <= i <= j < queue.len() ==> distances[(#[trigger] queue[i]) as int] <= distances[(
            #[trigger] queue[j]) as int]
        &&& forall|cell: int|
            0 <= cell < self.area() && (#[trigger] distances[cell]) != UNREACHED ==> self.reaches(
                origin,
                cell,
                distances[cell] as nat,
            ) && queue.contains(cell as usize)
    }

    /// Whether the first directions of a cell lead nowhere new.
    pub open spec fn closed(self, distances: Seq<u32>, cell: int, directions: int) -> bool {
        forall|direction: int|
            0 <= direction < directions ==> match #[trigger] neighbor_of(
                self.axis as int,
                cell,
                direction,
            ) {
                Some(next) => self.enterable(next) ==> distances[next] != UNREACHED
                    && distances[next] <= distances[cell] + 1,
                None => true,
            }
    }

    /// Whether every direction of the first queued cells leads nowhere new.
    pub open spec fn expanded(self, distances: Seq<u32>, queue: Seq<usize>, count: int) -> bool {
        forall|i: int| 0 <= i < count ==> self.closed(distances, (#[trigger] queue[i]) as int, 8)
    }

    /// Cells of a queue that is expanded to its end hold every reachable cell.
    proof fn lemma_complete(
        self,
        origin: int,
        distances: Seq<u32>,
        queue: Seq<usize>,
        cell: int,
        steps: nat,
    )
        requires
            self.wf(),
            self.visited(origin, distances, queue),
            self.expanded(distances, queue, queue.len() as int),
            0 <= cell < self.area(),
            self.reaches(origin, cell, steps),
        ensures
            distances[cell] != UNREACHED,
            distances[cell] <= steps,
        decreases steps,
    {
        if steps > 0 {
            if self.reaches(origin, cell, (steps - 1) as nat) {
                self.lemma_complete(origin, distances, queue, cell, (steps - 1) as nat);
            } else {
                let nearer = self.within_steps(origin, (steps - 1) as nat);
                assert(self.entered(nearer, cell));
                let (from, direction) = choose|from: int, direction: int|
                    0 <= from < self.area() && 0 <= direction < 8 && #[trigger] neighbor_of(
                        self.axis as int,
                        from,
                        direction,
                    ) == Some(cell) && nearer.contains(from);
                self.lemma_complete(origin, distances, queue, from, (steps - 1) as nat);
                assert(queue.contains(from as usize));
                let i = choose|i: int| 0 <= i < queue.len() && queue[i] == from as usize;
                assert(self.area() <= 512 * 512) by (nonlinear_arith)
                    requires
                        self.area() == self.axis * self.axis,
                        0 <= self.axis <= 512,
                ;
                assert(queue[i] as int == from);
                assert(self.closed(distances, queue[i] as int, 8));
            }
        }
    }

    /// Distances of an expanded search are the least ones.
    proof fn lemma_exact(self, origin: int, distances: Seq<u32>, queue: Seq<usize>)
        requires
            self.wf(),
            self.visited(origin, distances, queue),
            self.expanded(distances, queue, queue.len() as int),
        ensures
            self.distances_exact(origin, distances),
    {
        assert forall|cell: int| 0 <= cell < self.area() implies if (#[trigger] distances[cell])
            == UNREACHED {
            self.unreachable(origin, cell)
        } else {
            self.least(origin, cell, distances[cell] as nat)
        } by {
            if distances[cell] == UNREACHED {
                assert forall|steps: nat| !#[trigger] self.reaches(origin, cell, steps) by {
                    if self.reaches(origin, cell, steps) {
                        self.lemma_complete(origin, distances, queue, cell, steps);
                    }
                }
            } else if distances[cell] > 0 {
                let fewer = (distances[cell] - 1) as nat;
                if self.reaches(origin, cell, fewer) {
                    self.lemma_complete(origin, distances, queue, cell, fewer);
                }
            }
        }
    }

    /// Cell next to another one in a direction, if the grid has it.
    fn neighbor(&self, cell: usize, direction: usize) -> (r: Option<usize>)
        requires
            self.wf(),
            cell < self.area(),
            direction < 8,
        ensures
            match r {
                Some(next) => neighbor_of(self.axis as int, cell as int, direction as int) == Some(
                    next as int,
                ) && next < self.area(),
                None => neighbor_of(self.axis as int, cell as int, direction as int) is None,
            },
    {
        proof {
            lemma_index_cell(self.axis as int, cell as int);
        }
        let (step_x, step_y) = map_direction(direction);
        let x: i64 = (cell % self.axis) as i64 + step_x as i64;
        let y: i64 = (cell / self.axis) as i64 + step_y as i64;
        if x < 0 || y < 0 || x >= self.axis as i64 || y >= self.axis as i64 {
            return None;
        }
        proof {
            lemma_cell_index(self.axis as int, x as int, y as int);
            assert(self.axis * self.axis <= 512 * 512) by (nonlinear_arith)
                requires
                    0 <= self.axis <= 512,
            ;
            assert(0 <= y * self.axis) by (nonlinear_arith)
                requires
                    0 <= y,
                    0 <= self.axis,
            ;
        }
        Some(y as usize * self.axis + x as usize)
    }

    /// Records every cell next to a queued one that has no distance yet.
    fn visit_path_neighbors(
        &self,
        origin: usize,
        cursor: usize,
        distances: &mut Vec<u32>,
        queue: &mut Vec<usize>,
    )
        requires
            self.wf(),
            self.visited(origin as int, old(distances)@, old(queue)@),
            cursor < old(queue)@.len(),
            self.expanded(old(distances)@, old(queue)@, cursor as int),
            forall|i: int|
                0 <= i < old(queue)@.len() ==> old(distances)@[(#[trigger] old(queue)@[i]) as int]
                    <= old(distances)@[old(queue)@[cursor as int] as int] + 1,
        ensures
            self.visited(origin as int, final(distances)@, final(queue)@),
            cursor < final(queue)@.len(),
            final(queue)@[cursor as int] == old(queue)@[cursor as int],
            self.expanded(final(distances)@, final(queue)@, cursor + 1),
            forall|i: int|
                0 <= i < final(queue)@.len() ==> final(distances)@[(
                #[trigger] final(queue)@[i]) as int] <= final(distances)@[final(queue)@[cursor as int] as int]
                    + 1,
    {
        let cell = queue[cursor];
        proof {
            assert(self.area() <= 512 * 512) by (nonlinear_arith)
                requires
                    self.area() == self.axis * self.axis,
                    0 <= self.axis <= 512,
            ;
            assert(distances@[cell as int] <= cursor);
        }
        let next_distance: u32 = distances[cell] + 1;
        let mut direction: usize = 0;
        while direction < 8
            invariant
                direction <= 8,
                self.wf(),
                self.area() <= 512 * 512,
                self.visited(origin as int, distances@, queue@),
                cursor < queue@.len(),
                queue@[cursor as int] == cell,
                cell == old(queue)@[cursor as int],
                distances@[cell as int] + 1 == next_distance,
                distances@[cell as int] <= cursor,
                self.expanded(distances@, queue@, cursor as int),
                self.closed(distances@, cell as int, direction as int),
                forall|i: int|
                    0 <= i < queue@.len() ==> distances@[(#[trigger] queue@[i]) as int]
                        <= next_distance,
            decreases 8 - direction,
        {
            match self.neighbor(cell, direction) {
                Some(next) => {
                    if self.terrain[next] & 0x80 != 0 && !self.static_tree_at_cell(next) {
                        if distances[next] == UNREACHED {
                            let ghost before = distances@;
                            let ghost queued = queue@;
                            proof {
                                lemma_tally_update(
                                    before,
                                    without_distance(),
                                    next as int,
                                    next_distance,
                                );
                                assert(tally(before.update(next as int, next_distance), without_distance())
                                    >= 0);
                            }
                            distances.set(next, next_distance);
                            queue.push(next);
                            proof {
                                self.lemma_visit(
                                    origin as int,
                                    before,
                                    queued,
                                    cursor as int,
                                    next as int,
                                    direction as int,
                                    next_distance,
                                );
                            }
                        } else {
                            assert(queue@.contains(next as usize));
                            let ghost i = choose|i: int|
                                0 <= i < queue@.len() && queue@[i] == next as usize;
                            assert(distances@[queue@[i] as int] <= next_distance);
                        }
                    }
                },
                None => {},
            }
            direction += 1;
        }
        assert forall|i: int| 0 <= i < cursor + 1 implies self.closed(
            distances@,
            (#[trigger] queue@[i]) as int,
            8,
        ) by {}
    }

    /// Recording a new cell keeps the search in order.
    proof fn lemma_visit(
        self,
        origin: int,
        before: Seq<u32>,
        queued: Seq<usize>,
        cursor: int,
        next: int,
        direction: int,
        distance: u32,
    )
        requires
            self.wf(),
            self.area() <= 512 * 512,
            self.visited(origin, before, queued),
            0 <= cursor < queued.len(),
            0 <= direction < 8,
            before[queued[cursor] as int] + 1 == distance,
            before[queued[cursor] as int] <= cursor,
            self.expanded(before, queued, cursor),
            self.closed(before, queued[cursor] as int, direction),
            forall|i: int|
                0 <= i < queued.len() ==> before[(#[trigger] queued[i]) as int] <= distance,
            neighbor_of(self.axis as int, queued[cursor] as int, direction) == Some(next),
            0 <= next < self.area(),
            self.enterable(next),
            before[next] == UNREACHED,
            tally(before.update(next, distance), without_distance()) + queued.len() + 1 == self.area(),
        ensures
            self.visited(origin, before.update(next, distance), queued.push(next as usize)),
            self.expanded(before.update(next, distance), queued.push(next as usize), cursor),
            self.closed(before.update(next, distance), queued[cursor] as int, direction + 1),
            forall|i: int|
                0 <= i < queued.push(next as usize).len() ==> before.update(next, distance)[(
                #[trigger] queued.push(next as usize)[i]) as int] <= distance,
    {
        let after = before.update(next, distance);
        let queue = queued.push(next as usize);
        let cell = queued[cursor] as int;
        assert forall|i: int| 0 <= i < queued.len() implies after[(#[trigger] queued[i]) as int]
            == before[queued[i] as int] by {
            assert(before[queued[i] as int] <= i);
        }
        assert(self.reaches(origin, cell, before[cell] as nat));
        assert(neighbor_of(self.axis as int, cell, direction) == Some(next));
        let nearer = self.within_steps(origin, before[cell] as nat);
        assert(self.entered(nearer, next));
        assert((distance - 1) as nat == before[cell] as nat);
        assert(self.within_steps(origin, distance as nat).contains(next));
        assert forall|c: int| 0 <= c < self.area() && (#[trigger] after[c]) != UNREACHED implies self.reaches(
            origin,
            c,
            after[c] as nat,
        ) && queue.contains(c as usize) by {
            if c == next {
                assert(queue[queued.len() as int] == next as usize);
            } else {
                assert(before[c] != UNREACHED);
                assert(queued.contains(c as usize));
                let i = choose|i: int| 0 <= i < queued.len() && queued[i] == c as usize;
                assert(queue[i] == c as usize);
            }
        }
        assert forall|i: int, j: int| 0 <= i <= j < queue.len() implies after[(
        #[trigger] queue[i]) as int] <= after[(#[trigger] queue[j]) as int] by {
            if j < queued.len() {
                assert(queue[i] == queued[i] && queue[j] == queued[j]);
            } else if i < queued.len() {
                assert(queue[i] == queued[i]);
            }
        }
        assert forall|i: int| 0 <= i < cursor implies self.closed(
            after,
            (#[trigger] queue[i]) as int,
            8,
        ) by {
            assert(queue[i] == queued[i]);
            let done = queued[i] as int;
            assert(self.closed(before, done, 8));
            assert forall|k: int| 0 <= k < 8 implies match #[trigger] neighbor_of(
                self.axis as int,
                done,
                k,
            ) {
                Some(other) => self.enterable(other) ==> after[other] != UNREACHED && after[other]
                    <= after[done] + 1,
                None => true,
            } by {
                lemma_neighbor_range(self.axis as int, done, k);
            }
        }
        assert forall|k: int| 0 <= k < direction + 1 implies match #[trigger] neighbor_of(
            self.axis as int,
            cell,
            k,
        ) {
            Some(other) => self.enterable(other) ==> after[other] != UNREACHED && after[other]
                <= after[cell] + 1,
            None => true,
        } by {
            lemma_neighbor_range(self.axis as int, cell, k);
        }
    }

    /// Least number of steps from a cell to every cell.
    fn search_distances(&self, origin: usize) -> (r: Vec<u32>)
        requires
            self.wf(),
            origin < self.area(),
        ensures
            r@.len() == self.area(),
            self.distances_exact(origin as int, r@),
    {
        let mut distances: Vec<u32> = Vec::new();
        distances.resize(self.terrain.len(), UNREACHED);
        let mut queue: Vec<usize> = Vec::new();
        proof {
            lemma_tally_all(distances@, without_distance());
            lemma_tally_update(distances@, without_distance(), origin as int, 0);
        }
        distances.set(origin, 0);
        queue.push(origin);
        let mut cursor: usize = 0;
        proof {
            assert forall|cell: int| 0 <= cell < self.area() && (#[trigger] distances@[cell])
                != UNREACHED implies self.reaches(origin as int, cell, distances@[cell] as nat)
                && queue@.contains(cell as usize) by {
                assert(cell == origin);
                assert(queue@[0] == cell as usize);
            }
            assert(self.visited(origin as int, distances@, queue@));
        }
        while cursor < queue.len()
            invariant
                self.wf(),
                cursor <= queue@.len(),
                self.visited(origin as int, distances@, queue@),
                self.expanded(distances@, queue@, cursor as int),
                cursor < queue@.len() ==> forall|i: int|
                    0 <= i < queue@.len() ==> distances@[(#[trigger] queue@[i]) as int]
                        <= distances@[queue@[cursor as int] as int] + 1,
            decreases self.area() - cursor,
        {
            self.visit_path_neighbors(origin, cursor, &mut distances, &mut queue);
            cursor += 1;
            proof {
                if cursor < queue@.len() {
                    assert(distances@[queue@[cursor - 1] as int]
                        <= distances@[queue@[cursor as int] as int]);
                }
            }
        }
        proof {
            self.lemma_exact(origin as int, distances@, queue@);
        }
        distances
    }

    /// Computes the walking distances from the cell of a position.
    pub fn prepare_path_distances(&mut self, position: Vec2)
        requires
            old(self).wf(),
        ensures
            final(self).wf(),
            final(self).same_map(*old(self)),
            match old(self).cell_spec(position) {
                Some(cell) => final(self).path_origin == Some(cell as usize),
                None => final(self).path_origin is None,
            },
    {
        let origin = match self.cell(position) {
            Some(origin) => origin,
            None => {
                self.path_origin = None;
                return ;
            },
        };
        match self.path_origin {
            Some(known) => {
                if known == origin {
                    return ;
                }
            },
            None => {},
        }
        let distances = self.search_distances(origin);
        let ghost before = *self;
        self.path_distances = distances;
        self.path_origin = Some(origin);
        proof {
            self.lemma_same_distances(before, origin as int, distances@);
        }
    }

    /// Distances depend on the static data alone.
    proof fn lemma_same_reach(self, other: MapContext, origin: int, steps: nat)
        requires
            self.same_map(other),
        ensures
            self.within_steps(origin, steps) == other.within_steps(origin, steps),
        decreases steps,
    {
        if steps > 0 {
            let nearer = self.within_steps(origin, (steps - 1) as nat);
            self.lemma_same_reach(other, origin, (steps - 1) as nat);
            assert forall|cell: int|
                self.within_steps(origin, steps).contains(cell) == other.within_steps(
                    origin,
                    steps,
                ).contains(cell) by {
                assert(self.entered(nearer, cell) == other.entered(nearer, cell));
            }
            assert(self.within_steps(origin, steps) =~= other.within_steps(origin, steps));
        }
    }

    proof fn lemma_same_distances(self, other: MapContext, origin: int, distances: Seq<u32>)
        requires
            self.same_map(other),
            other.distances_exact(origin, distances),
        ensures
            self.distances_exact(origin, distances),
    {
        assert forall|cell: int, steps: nat| #[trigger]
            self.reaches(origin, cell, steps) == other.reaches(origin, cell, steps) by {
            self.lemma_same_reach(other, origin, steps);
        }
        assert forall|cell: int| 0 <= cell < self.area() implies if (#[trigger] distances[cell])
            == UNREACHED {
            self.unreachable(origin, cell)
        } else {
            self.least(origin, cell, distances[cell] as nat)
        } by {
            assert(other.area() == self.area());
        }
    }

    /// Recorded steps to the cell of a position, if a path was found.
    pub open spec fn recorded_steps(self, position: Vec2) -> Option<int> {
        match self.cell_spec(position) {
            Some(cell) => if self.path_distances@[cell] == UNREACHED {
                None
            } else {
                Some(self.path_distances@[cell] as int)
            },
            None => None,
        }
    }

    /// Recorded steps from a prepared cell are the least number of steps.
    pub proof fn recorded_steps_are_shortest(self, position: Vec2)
        requires
            self.wf(),
            self.path_origin is Some,
            self.cell_spec(position) is Some,
        ensures
            match self.recorded_steps(position) {
                Some(steps) => self.steps_between(
                    self.path_origin->0 as int,
                    self.cell_spec(position)->0,
                ) == Some(steps as nat),
                None => self.steps_between(
                    self.path_origin->0 as int,
                    self.cell_spec(position)->0,
                ) is None,
            },
    {
        let cell = self.cell_spec(position)->0;
        let origin = self.path_origin->0 as int;
        let (x, y) = crate::tracker::cell_of_spec(self.axis as int, position)->0;
        lemma_cell_index(self.axis as int, x, y);
        if self.path_distances@[cell] != UNREACHED {
            let steps = self.path_distances@[cell] as nat;
            assert(self.least(origin, cell, steps));
            let chosen = choose|steps: nat| self.least(origin, cell, steps);
            self.lemma_least_unique(origin, cell, steps, chosen);
        }
    }

    /// Recorded steps to the cell of a position, if a path was found.
    pub fn path_steps(&self, position: Vec2) -> (r: Option<u32>)
        requires
            self.wf(),
        ensures
            match r {
                Some(steps) => self.recorded_steps(position) == Some(steps as int),
                None => self.recorded_steps(position) is None,
            },
    {
        match self.cell(position) {
            None => None,
            Some(cell) => {
                let distance = self.path_distances[cell];
                if distance == UNREACHED {
                    None
                } else {
                    Some(distance)
                }
            },
        }
    }
}

} // verus!
