//! Shop recipes: well-formedness of the recipe graph and what a purchase still needs.
use crate::action::ActionError;
use crate::search::{
    first_index, lemma_first_from_found, lemma_first_from_means, lemma_first_from_none,
};
use crate::world::{ItemId, ShopEntry};
use vstd::prelude::*;

verus! {

/// Position of the entry that sells an item.
pub open spec fn entry_index(shop: Seq<ShopEntry>, item: ItemId) -> Option<int> {
    first_index(shop, |entry: ShopEntry| entry.id == item)
}

/// Position of the entry that sells an item.
pub fn entry_position(shop: &Vec<ShopEntry>, item: ItemId) -> (r: Option<usize>)
    ensures
        match r {
            Some(i) => entry_index(shop@, item) == Some(i as int) && i < shop@.len()
                && shop@[i as int].id == item,
            None => entry_index(shop@, item) is None,
        },
{
    let ghost sells = |entry: ShopEntry| entry.id == item;
    let mut index: usize = 0;
    while index < shop.len()
        invariant
            index <= shop@.len(),
            sells == (|entry: ShopEntry| entry.id == item),
            forall|j: int| 0 <= j < index ==> !sells(#[trigger] shop@[j]),
        decreases shop@.len() - index,
    {
        if shop[index].id == item {
            proof {
                lemma_first_from_found(shop@, sells, 0, index as int);
            }
            return Some(index);
        }
        index += 1;
    }
    proof {
        lemma_first_from_none(shop@, sells, 0);
    }
    None
}

/// Entry that sells one component of an entry.
pub open spec fn part(shop: Seq<ShopEntry>, entry: int, component: int) -> Option<int> {
    entry_index(shop, shop[entry].components@[component])
}

/// Whether two entries sell the same item.
pub open spec fn sells_twice(shop: Seq<ShopEntry>) -> bool {
    exists|i: int, j: int|
        0 <= i < j < shop.len() && (#[trigger] shop[i]).id == (#[trigger] shop[j]).id
}

/// Whether every component of every entry is sold.
pub open spec fn components_known(shop: Seq<ShopEntry>) -> bool {
    forall|i: int, j: int|
        0 <= i < shop.len() && 0 <= j < shop[i].components@.len() ==> (#[trigger] part(
            shop,
            i,
            j,
        )) is Some
}

/// Whether ranks fall from every entry to each of its components.
pub open spec fn is_ranking(shop: Seq<ShopEntry>, rank: Seq<int>) -> bool {
    &&& rank.len() == shop.len()
    &&& forall|i: int, j: int|
        0 <= i < shop.len() && 0 <= j < shop[i].components@.len() && (#[trigger] part(
            shop,
            i,
            j,
        )) is Some ==> rank[part(shop, i, j)->0] < rank[i]
}

/// Whether no recipe needs itself, directly or through its components.
pub open spec fn acyclic(shop: Seq<ShopEntry>) -> bool {
    exists|rank: Seq<int>| is_ranking(shop, rank)
}

/// Whether an entry is a component of another.
pub open spec fn needs(shop: Seq<ShopEntry>, entry: int, other: int) -> bool {
    exists|j: int|
        0 <= entry < shop.len() && 0 <= j < shop[entry].components@.len() && #[trigger] part(
            shop,
            entry,
            j,
        ) == Some(other)
}

/// Whether a walk follows components from an entry back to itself.
pub open spec fn is_cycle(shop: Seq<ShopEntry>, walk: Seq<int>) -> bool {
    &&& walk.len() >= 2
    &&& walk[0] == walk.last()
    &&& forall|i: int|
        0 <= i < walk.len() - 1 ==> needs(shop, #[trigger] walk[i], walk[i + 1])
}

/// Whether some recipe needs itself.
pub open spec fn cyclic(shop: Seq<ShopEntry>) -> bool {
    exists|walk: Seq<int>| is_cycle(shop, walk)
}

proof fn lemma_walk_descends(shop: Seq<ShopEntry>, rank: Seq<int>, walk: Seq<int>, at: int)
    requires
        is_ranking(shop, rank),
        is_cycle(shop, walk),
        1 <= at < walk.len(),
    ensures
        rank[walk[at]] < rank[walk[0]],
    decreases at,
{
    assert(needs(shop, walk[at - 1], walk[at - 1 + 1]));
    if at > 1 {
        lemma_walk_descends(shop, rank, walk, at - 1);
    }
}

/// A shop with a ranking has no recipe that needs itself.
pub proof fn acyclic_shop_has_no_cycle(shop: Seq<ShopEntry>)
    requires
        acyclic(shop),
    ensures
        !cyclic(shop),
{
    if cyclic(shop) {
        let rank = choose|rank: Seq<int>| is_ranking(shop, rank);
        let walk = choose|walk: Seq<int>| is_cycle(shop, walk);
        lemma_walk_descends(shop, rank, walk, walk.len() - 1);
    }
}

/// The first of two failures, if there is one.
pub open spec fn earlier(first: Option<ActionError>, second: Option<ActionError>) -> Option<
    ActionError,
> {
    match first {
        Some(error) => Some(error),
        None => second,
    }
}

/// First failure below the last entry of a path, from one of its components on: each component
/// is looked up, compared with the path, and followed before the next one.
pub open spec fn recipe_fault(shop: Seq<ShopEntry>, path: Seq<int>, component: int) -> Option<
    ActionError,
>
    decreases shop.len() + 1 - path.len(), shop[path.last()].components@.len() - component,
{
    if path.len() > shop.len() || component >= shop[path.last()].components@.len() {
        None
    } else {
        match part(shop, path.last(), component) {
            None => Some(ActionError::InvalidSchema("unknown recipe component")),
            Some(child) => if path.contains(child) {
                Some(ActionError::InvalidSchema("cyclic shop recipe"))
            } else {
                earlier(
                    recipe_fault(shop, path.push(child), 0),
                    recipe_fault(shop, path, component + 1),
                )
            },
        }
    }
}

/// First failure of the recipes of an entry and the ones behind it.
pub open spec fn recipes_fault(shop: Seq<ShopEntry>, root: int) -> Option<ActionError>
    decreases shop.len() - root,
{
    if root >= shop.len() {
        None
    } else {
        earlier(recipe_fault(shop, seq![root], 0), recipes_fault(shop, root + 1))
    }
}

/// First failure of a shop.
pub open spec fn shop_fault(shop: Seq<ShopEntry>) -> Option<ActionError> {
    if sells_twice(shop) {
        Some(ActionError::InvalidSchema("duplicate shop item"))
    } else {
        recipes_fault(shop, 0)
    }
}

const WHITE: u8 = 0;

const GREY: u8 = 1;

const BLACK: u8 = 2;

spec fn white_count(colors: Seq<u8>) -> nat
    decreases colors.len(),
{
    if colors.len() == 0 {
        0
    } else {
        white_count(colors.drop_last()) + (if colors.last() == WHITE {
            1nat
        } else {
            0nat
        })
    }
}

proof fn lemma_white_count_update(colors: Seq<u8>, at: int, color: u8)
    requires
        0 <= at < colors.len(),
        color != WHITE,
    ensures
        colors[at] == WHITE ==> white_count(colors.update(at, color)) + 1 == white_count(colors),
        colors[at] != WHITE ==> white_count(colors.update(at, color)) == white_count(colors),
    decreases colors.len(),
{
    let updated = colors.update(at, color);
    if at == colors.len() - 1 {
        assert(updated.drop_last() =~= colors.drop_last());
    } else {
        assert(updated.drop_last() =~= colors.drop_last().update(at, color));
        lemma_white_count_update(colors.drop_last(), at, color);
    }
}

spec fn pending(shop: Seq<ShopEntry>, stack: Seq<(usize, usize)>) -> nat
    decreases stack.len(),
{
    if stack.len() == 0 {
        0
    } else {
        let (entry, next) = stack.last();
        pending(shop, stack.drop_last()) + (if next <= shop[entry as int].components@.len() {
            (shop[entry as int].components@.len() - next + 1) as nat
        } else {
            0
        })
    }
}

/// Finished entries have only finished components, of smaller rank.
spec fn blacks_ranked(shop: Seq<ShopEntry>, colors: Seq<u8>, rank: Seq<int>) -> bool {
    &&& rank.len() == shop.len()
    &&& colors.len() == shop.len()
    &&& forall|i: int, j: int|
        0 <= i < shop.len() && colors[i] == BLACK && 0 <= j < shop[i].components@.len() ==> {
            &&& (#[trigger] part(shop, i, j)) is Some
            &&& colors[part(shop, i, j)->0] == BLACK
            &&& rank[part(shop, i, j)->0] < rank[i]
        }
}

spec fn settled(shop: Seq<ShopEntry>, colors: Seq<u8>) -> bool {
    &&& colors.len() == shop.len()
    &&& forall|i: int|
        0 <= i < colors.len() ==> (#[trigger] colors[i]) == WHITE || colors[i] == BLACK
    &&& exists|rank: Seq<int>| blacks_ranked(shop, colors, rank)
}

/// The traversal stack is a path of grey entries whose earlier components are finished.
spec fn stack_ok(shop: Seq<ShopEntry>, colors: Seq<u8>, stack: Seq<(usize, usize)>) -> bool {
    &&& colors.len() == shop.len()
    &&& forall|k: int|
        0 <= k < stack.len() ==> {
            &&& (#[trigger] stack[k]).0 < shop.len()
            &&& stack[k].1 <= shop[stack[k].0 as int].components@.len()
            &&& colors[stack[k].0 as int] == GREY
        }
    &&& forall|k: int|
        0 <= k < stack.len() - 1 ==> {
            &&& (#[trigger] stack[k]).1 >= 1
            &&& part(shop, stack[k].0 as int, stack[k].1 - 1) == Some(stack[k + 1].0 as int)
        }
    &&& forall|k: int, j: int|
        #![trigger stack[k], part(shop, stack[k].0 as int, j)]
        0 <= k < stack.len() && 0 <= j < stack[k].1 - (if k < stack.len() - 1 {
            1int
        } else {
            0int
        }) ==> part(shop, stack[k].0 as int, j) is Some && colors[part(
            shop,
            stack[k].0 as int,
            j,
        )->0] == BLACK
    &&& forall|i: int|
        0 <= i < colors.len() && (#[trigger] colors[i]) == GREY ==> exists|k: int|
            0 <= k < stack.len() && (#[trigger] stack[k]).0 == i
    &&& forall|k: int, l: int|
        0 <= k < l < stack.len() ==> (#[trigger] stack[k]).0 != (#[trigger] stack[l]).0
}

/// Entries of a traversal stack, from the root on.
spec fn path_of(stack: Seq<(usize, usize)>) -> Seq<int> {
    stack.map_values(|step: (usize, usize)| step.0 as int)
}

/// First failure that a traversal has still to find.
spec fn open_fault(shop: Seq<ShopEntry>, stack: Seq<(usize, usize)>) -> Option<ActionError>
    decreases stack.len(),
{
    if stack.len() == 0 {
        None
    } else {
        earlier(
            recipe_fault(shop, path_of(stack), stack.last().1 as int),
            open_fault(shop, stack.drop_last()),
        )
    }
}

/// Finished entries hold no failure.
proof fn lemma_finished_is_sound(
    shop: Seq<ShopEntry>,
    colors: Seq<u8>,
    rank: Seq<int>,
    path: Seq<int>,
    component: int,
)
    requires
        blacks_ranked(shop, colors, rank),
        path.len() > 0,
        0 <= path.last() < shop.len(),
        colors[path.last()] == BLACK,
        0 <= component,
        forall|k: int|
            0 <= k < path.len() - 1 ==> colors[#[trigger] path[k]] != BLACK || rank[path[k]]
                > rank[path.last()],
    ensures
        recipe_fault(shop, path, component) is None,
    decreases shop.len() + 1 - path.len(), shop[path.last()].components@.len() - component,
{
    if path.len() <= shop.len() && component < shop[path.last()].components@.len() {
        let entry = path.last();
        lemma_part_in_range(shop, entry, component);
        let child = part(shop, entry, component)->0;
        if path.contains(child) {
            let k = choose|k: int| 0 <= k < path.len() && path[k] == child;
            assert(false);
        }
        let deeper = path.push(child);
        assert forall|k: int| 0 <= k < deeper.len() - 1 implies colors[#[trigger] deeper[k]] != BLACK
            || rank[deeper[k]] > rank[deeper.last()] by {
            assert(deeper[k] == path[k]);
        }
        lemma_finished_is_sound(shop, colors, rank, deeper, 0);
        lemma_finished_is_sound(shop, colors, rank, path, component + 1);
    }
}

/// A stack of different entries is no longer than the shop.
proof fn lemma_stack_fits(shop: Seq<ShopEntry>, colors: Seq<u8>, stack: Seq<(usize, usize)>)
    requires
        stack_ok(shop, colors, stack),
    ensures
        stack.len() <= shop.len(),
{
    let path = path_of(stack);
    assert(path.no_duplicates()) by {
        assert forall|k: int, l: int| 0 <= k < path.len() && 0 <= l < path.len() && k != l implies path[k]
            != path[l] by {
            if k < l {
                assert(stack[k].0 != stack[l].0);
            } else {
                assert(stack[l].0 != stack[k].0);
            }
        }
    }
    path.unique_seq_to_set();
    let all = vstd::set_lib::set_int_range(0, shop.len() as int);
    vstd::set_lib::lemma_int_range(0, shop.len() as int);
    assert(path.to_set().subset_of(all)) by {
        assert forall|entry: int| path.to_set().contains(entry) implies all.contains(entry) by {
            let k = choose|k: int| 0 <= k < path.len() && path[k] == entry;
            assert(stack[k].0 < shop.len());
        }
    }
    vstd::set_lib::lemma_len_subset(path.to_set(), all);
}

/// What is still to be found does not change while a traversal finishes an entry, passes a
/// finished component, or enters a new one.
proof fn lemma_step_keeps_the_fault(
    shop: Seq<ShopEntry>,
    colors: Seq<u8>,
    stack: Seq<(usize, usize)>,
    rank: Seq<int>,
)
    requires
        stack_ok(shop, colors, stack),
        blacks_ranked(shop, colors, rank),
        stack.len() > 0,
        shop.len() <= usize::MAX,
        shop[stack.last().0 as int].components@.len() <= usize::MAX,
    ensures
        ({
            let (entry, next) = stack.last();
            let found = part(shop, entry as int, next as int);
            let passed = stack.update(stack.len() - 1, (entry, (next + 1) as usize));
            if next == shop[entry as int].components@.len() {
                open_fault(shop, stack) == open_fault(shop, stack.drop_last())
            } else {
                match found {
                    None => open_fault(shop, stack) == Some(
                        ActionError::InvalidSchema("unknown recipe component"),
                    ),
                    Some(child) => if colors[child] == GREY {
                        open_fault(shop, stack) == Some(
                            ActionError::InvalidSchema("cyclic shop recipe"),
                        )
                    } else if colors[child] == BLACK {
                        open_fault(shop, stack) == open_fault(shop, passed)
                    } else {
                        open_fault(shop, stack) == open_fault(
                            shop,
                            passed.push((child as usize, 0usize)),
                        )
                    },
                }
            }
        }),
{
    let top = stack.len() - 1;
    assert(stack[top] == stack.last());
    let (entry, next) = stack.last();
    let path = path_of(stack);
    let passed = stack.update(top, (entry, (next + 1) as usize));
    lemma_stack_fits(shop, colors, stack);
    assert(path.last() == entry);
    assert(path_of(passed) =~= path);
    assert(passed.drop_last() =~= stack.drop_last());
    assert(passed.last() == (entry, (next + 1) as usize));
    if next < shop[entry as int].components@.len() && part(shop, entry as int, next as int) is Some {
        let child = part(shop, entry as int, next as int)->0;
        lemma_part_in_range(shop, entry as int, next as int);
        if colors[child] == GREY {
            let k = choose|k: int| 0 <= k < stack.len() && (#[trigger] stack[k]).0 == child;
            assert(path[k] == child);
            assert(path.contains(child));
        } else {
            if path.contains(child) {
                let k = choose|k: int| 0 <= k < path.len() && path[k] == child;
                assert(colors[stack[k].0 as int] == GREY);
            }
            let deeper = passed.push((child as usize, 0usize));
            assert(path_of(deeper) =~= path.push(child));
            assert(deeper.drop_last() =~= passed);
            if colors[child] == BLACK {
                let longer = path.push(child);
                assert forall|k: int| 0 <= k < longer.len() - 1 implies colors[#[trigger] longer[k]]
                    != BLACK || rank[longer[k]] > rank[longer.last()] by {
                    assert(longer[k] == stack[k].0);
                }
                lemma_finished_is_sound(shop, colors, rank, longer, 0);
            }
        }
    }
}

proof fn lemma_grey_closes_cycle(
    shop: Seq<ShopEntry>,
    colors: Seq<u8>,
    stack: Seq<(usize, usize)>,
    component: int,
)
    requires
        stack_ok(shop, colors, stack),
        stack.len() > 0,
        0 <= component < shop[stack.last().0 as int].components@.len(),
        part(shop, stack.last().0 as int, component) is Some,
        colors[part(shop, stack.last().0 as int, component)->0] == GREY,
        0 <= part(shop, stack.last().0 as int, component)->0 < shop.len(),
    ensures
        cyclic(shop),
{
    let next = part(shop, stack.last().0 as int, component)->0;
    let from = choose|k: int| 0 <= k < stack.len() && (#[trigger] stack[k]).0 == next;
    let length = stack.len() - from;
    let walk = Seq::new(
        (length + 1) as nat,
        |i: int|
            if i < length {
                stack[from + i].0 as int
            } else {
                next
            },
    );
    assert forall|i: int| 0 <= i < walk.len() - 1 implies needs(
        shop,
        #[trigger] walk[i],
        walk[i + 1],
    ) by {
        let k = from + i;
        if i < length - 1 {
            assert(part(shop, stack[k].0 as int, stack[k].1 - 1) == Some(stack[k + 1].0 as int));
        } else {
            assert(part(shop, stack[k].0 as int, component) == Some(next));
        }
    }
    assert(is_cycle(shop, walk));
}

proof fn lemma_start(shop: Seq<ShopEntry>, colors: Seq<u8>, rank: Seq<int>, root: usize)
    requires
        blacks_ranked(shop, colors, rank),
        forall|i: int|
            0 <= i < colors.len() ==> (#[trigger] colors[i]) == WHITE || colors[i] == BLACK,
        root < shop.len(),
        colors[root as int] == WHITE,
    ensures
        stack_ok(shop, colors.update(root as int, GREY), seq![(root, 0usize)]),
        blacks_ranked(shop, colors.update(root as int, GREY), rank),
{
    let stack = seq![(root, 0usize)];
    let after = colors.update(root as int, GREY);
    assert forall|i: int| 0 <= i < after.len() && (#[trigger] after[i]) == GREY implies exists|
        k: int,
    | 0 <= k < stack.len() && (#[trigger] stack[k]).0 == i by {
        assert(stack[0].0 == i);
    }
    lemma_greying_keeps_ranks(shop, colors, rank, root as int);
}

proof fn lemma_greying_keeps_ranks(
    shop: Seq<ShopEntry>,
    colors: Seq<u8>,
    rank: Seq<int>,
    entry: int,
)
    requires
        blacks_ranked(shop, colors, rank),
        0 <= entry < shop.len(),
        colors[entry] == WHITE,
    ensures
        blacks_ranked(shop, colors.update(entry, GREY), rank),
{
    let after = colors.update(entry, GREY);
    assert forall|i: int, j: int|
        0 <= i < shop.len() && after[i] == BLACK && 0 <= j
            < shop[i].components@.len() implies (#[trigger] part(shop, i, j)) is Some
        && after[part(shop, i, j)->0] == BLACK && rank[part(shop, i, j)->0] < rank[i] by {
        assert(colors[i] == BLACK);
        lemma_part_in_range(shop, i, j);
    }
}

proof fn lemma_finish(
    shop: Seq<ShopEntry>,
    colors: Seq<u8>,
    stack: Seq<(usize, usize)>,
    rank: Seq<int>,
)
    requires
        stack_ok(shop, colors, stack),
        blacks_ranked(shop, colors, rank),
        stack.len() > 0,
        stack.last().1 == shop[stack.last().0 as int].components@.len(),
    ensures
        ({
            let entry = stack.last().0 as int;
            let after = colors.update(entry, BLACK);
            &&& stack_ok(shop, after, stack.drop_last())
            &&& blacks_ranked(shop, after, rank.update(entry, choose_above(rank)))
            &&& white_count(after) == white_count(colors)
        }),
{
    let top = stack.len() - 1;
    let entry = stack.last().0 as int;
    assert(stack[top] == stack.last());
    let after = colors.update(entry, BLACK);
    let shorter = stack.drop_last();
    let raised = rank.update(entry, choose_above(rank));
    lemma_choose_above(rank);
    assert forall|i: int, j: int|
        0 <= i < shop.len() && after[i] == BLACK && 0 <= j
            < shop[i].components@.len() implies (#[trigger] part(shop, i, j)) is Some
        && after[part(shop, i, j)->0] == BLACK && raised[part(shop, i, j)->0] < raised[i] by {
        if i == entry {
            assert(part(shop, stack[top].0 as int, j) is Some);
            lemma_part_in_range(shop, i, j);
        } else {
            assert(colors[i] == BLACK);
            lemma_part_in_range(shop, i, j);
        }
    }
    assert forall|k: int|
        0 <= k < shorter.len() implies (#[trigger] shorter[k]).0 < shop.len() && shorter[k].1
        <= shop[shorter[k].0 as int].components@.len() && after[shorter[k].0 as int] == GREY by {
        assert(shorter[k] == stack[k]);
        assert(stack[k].0 != stack[top].0);
    }
    assert forall|k: int, j: int|
        #![trigger shorter[k], part(shop, shorter[k].0 as int, j)]
        0 <= k < shorter.len() && 0 <= j < shorter[k].1 - (if k < shorter.len() - 1 {
            1int
        } else {
            0int
        }) implies part(shop, shorter[k].0 as int, j) is Some && after[part(
        shop,
        shorter[k].0 as int,
        j,
    )->0] == BLACK by {
        assert(shorter[k] == stack[k]);
        if k == shorter.len() - 1 && j == shorter[k].1 - 1 {
            assert(part(shop, stack[k].0 as int, stack[k].1 - 1) == Some(stack[k + 1].0 as int));
        } else {
            assert(part(shop, stack[k].0 as int, j) is Some);
            lemma_part_in_range(shop, stack[k].0 as int, j);
        }
    }
    assert forall|i: int| 0 <= i < after.len() && (#[trigger] after[i]) == GREY implies exists|
        k: int,
    | 0 <= k < shorter.len() && (#[trigger] shorter[k]).0 == i by {
        assert(colors[i] == GREY);
        let k = choose|k: int| 0 <= k < stack.len() && (#[trigger] stack[k]).0 == i;
        assert(shorter[k].0 == i);
    }
    assert forall|k: int| 0 <= k < shorter.len() - 1 implies (#[trigger] shorter[k]).1 >= 1
        && part(shop, shorter[k].0 as int, shorter[k].1 - 1) == Some(shorter[k + 1].0 as int) by {
        assert(shorter[k] == stack[k]);
        assert(shorter[k + 1] == stack[k + 1]);
    }
    assert forall|k: int, l: int| 0 <= k < l < shorter.len() implies (#[trigger] shorter[k]).0 != (
    #[trigger] shorter[l]).0 by {
        assert(shorter[k] == stack[k]);
        assert(shorter[l] == stack[l]);
    }
    lemma_white_count_update(colors, entry, BLACK);
}

proof fn lemma_advance(
    shop: Seq<ShopEntry>,
    colors: Seq<u8>,
    stack: Seq<(usize, usize)>,
    advanced: Seq<(usize, usize)>,
)
    requires
        stack_ok(shop, colors, stack),
        stack.len() > 0,
        stack.last().1 < shop[stack.last().0 as int].components@.len(),
        part(shop, stack.last().0 as int, stack.last().1 as int) is Some,
        colors[part(shop, stack.last().0 as int, stack.last().1 as int)->0] == BLACK,
        advanced == stack.update(
            stack.len() - 1,
            (stack.last().0, (stack.last().1 + 1) as usize),
        ),
        stack.last().1 < usize::MAX,
    ensures
        stack_ok(shop, colors, advanced),
        pending(shop, advanced) < pending(shop, stack),
{
    let top = stack.len() - 1;
    assert(stack[top] == stack.last());
    assert(advanced.drop_last() =~= stack.drop_last());
    assert forall|k: int| 0 <= k < advanced.len() implies (#[trigger] advanced[k]).0
        == stack[k].0 by {}
    assert forall|k: int| 0 <= k < advanced.len() - 1 implies (#[trigger] advanced[k]).1 >= 1
        && part(shop, advanced[k].0 as int, advanced[k].1 - 1) == Some(
        advanced[k + 1].0 as int,
    ) by {
        assert(advanced[k] == stack[k]);
        assert(advanced[k + 1].0 == stack[k + 1].0);
    }
    assert forall|k: int, j: int|
        #![trigger advanced[k], part(shop, advanced[k].0 as int, j)]
        0 <= k < advanced.len() && 0 <= j < advanced[k].1 - (if k < advanced.len() - 1 {
            1int
        } else {
            0int
        }) implies part(shop, advanced[k].0 as int, j) is Some && colors[part(
        shop,
        advanced[k].0 as int,
        j,
    )->0] == BLACK by {
        assert(advanced[k].0 == stack[k].0);
        if !(k == top && j == stack.last().1) {
            assert(part(shop, stack[k].0 as int, j) is Some);
        }
    }
    assert forall|i: int| 0 <= i < colors.len() && (#[trigger] colors[i]) == GREY implies exists|
        k: int,
    | 0 <= k < advanced.len() && (#[trigger] advanced[k]).0 == i by {
        let k = choose|k: int| 0 <= k < stack.len() && (#[trigger] stack[k]).0 == i;
        assert(advanced[k].0 == i);
    }
    assert forall|k: int, l: int| 0 <= k < l < advanced.len() implies (#[trigger] advanced[k]).0
        != (#[trigger] advanced[l]).0 by {
        assert(advanced[k].0 == stack[k].0);
        assert(advanced[l].0 == stack[l].0);
    }
}

proof fn lemma_descend(
    shop: Seq<ShopEntry>,
    colors: Seq<u8>,
    stack: Seq<(usize, usize)>,
    deeper: Seq<(usize, usize)>,
    child: usize,
)
    requires
        stack_ok(shop, colors, stack),
        stack.len() > 0,
        stack.last().1 < shop[stack.last().0 as int].components@.len(),
        child < shop.len(),
        part(shop, stack.last().0 as int, stack.last().1 as int) == Some(child as int),
        colors[child as int] == WHITE,
        deeper == stack.update(
            stack.len() - 1,
            (stack.last().0, (stack.last().1 + 1) as usize),
        ).push((child, 0)),
        stack.last().1 < usize::MAX,
    ensures
        stack_ok(shop, colors.update(child as int, GREY), deeper),
        white_count(colors.update(child as int, GREY)) < white_count(colors),
{
    let top = stack.len() - 1;
    let after = colors.update(child as int, GREY);
    assert(stack[top] == stack.last());
    assert forall|k: int| 0 <= k < stack.len() implies (#[trigger] deeper[k]).0 == stack[k].0 by {}
    assert forall|k: int|
        0 <= k < deeper.len() implies (#[trigger] deeper[k]).0 < shop.len() && deeper[k].1
        <= shop[deeper[k].0 as int].components@.len() && after[deeper[k].0 as int] == GREY by {
        if k < stack.len() {
            assert(deeper[k].0 == stack[k].0);
        }
    }
    assert forall|k: int| 0 <= k < deeper.len() - 1 implies (#[trigger] deeper[k]).1 >= 1 && part(
        shop,
        deeper[k].0 as int,
        deeper[k].1 - 1,
    ) == Some(deeper[k + 1].0 as int) by {
        if k < top {
            assert(deeper[k] == stack[k]);
            assert(deeper[k + 1].0 == stack[k + 1].0);
        }
    }
    assert forall|k: int, j: int|
        #![trigger deeper[k], part(shop, deeper[k].0 as int, j)]
        0 <= k < deeper.len() && 0 <= j < deeper[k].1 - (if k < deeper.len() - 1 {
            1int
        } else {
            0int
        }) implies part(shop, deeper[k].0 as int, j) is Some && after[part(
        shop,
        deeper[k].0 as int,
        j,
    )->0] == BLACK by {
        assert(k < stack.len());
        assert(deeper[k].0 == stack[k].0);
        assert(part(shop, stack[k].0 as int, j) is Some);
        lemma_part_in_range(shop, stack[k].0 as int, j);
    }
    assert forall|i: int| 0 <= i < after.len() && (#[trigger] after[i]) == GREY implies exists|
        k: int,
    | 0 <= k < deeper.len() && (#[trigger] deeper[k]).0 == i by {
        if i == child {
            assert(deeper[top + 1].0 == i);
        } else {
            assert(colors[i] == GREY);
            let k = choose|k: int| 0 <= k < stack.len() && (#[trigger] stack[k]).0 == i;
            assert(deeper[k].0 == i);
        }
    }
    assert forall|k: int, l: int| 0 <= k < l < deeper.len() implies (#[trigger] deeper[k]).0 != (
    #[trigger] deeper[l]).0 by {
        assert(deeper[k].0 == stack[k].0);
        if l <= top {
            assert(deeper[l].0 == stack[l].0);
        }
    }
    lemma_white_count_update(colors, child as int, GREY);
}

/// Visits everything an entry is assembled from, depth first.
fn validate_recipe_from(shop: &Vec<ShopEntry>, root: usize, colors: &mut Vec<u8>) -> (r: Result<
    (),
    ActionError,
>)
    requires
        settled(shop@, old(colors)@),
        root < shop@.len(),
        old(colors)@[root as int] == WHITE,
    ensures
        r is Ok ==> {
            &&& settled(shop@, final(colors)@)
            &&& final(colors)@[root as int] == BLACK
            &&& forall|i: int|
                0 <= i < shop@.len() && old(colors)@[i] == BLACK ==> final(colors)@[i] == BLACK
        },
        r matches Err(error) ==> !components_known(shop@) || cyclic(shop@),
        match recipe_fault(shop@, seq![root as int], 0) {
            Some(error) => r == Err::<(), ActionError>(error),
            None => r is Ok,
        },
{
    let ghost started = colors@;
    let ghost fault = recipe_fault(shop@, seq![root as int], 0);
    let ghost mut rank: Seq<int> = choose|rank: Seq<int>| blacks_ranked(shop@, started, rank);
    proof {
        lemma_start(shop@, started, rank, root);
    }
    let mut stack: Vec<(usize, usize)> = Vec::new();
    stack.push((root, 0));
    colors.set(root, GREY);
    assert(stack@ =~= seq![(root, 0usize)]);
    proof {
        assert(path_of(stack@) =~= seq![root as int]);
        assert(stack@.drop_last() =~= Seq::<(usize, usize)>::empty());
        assert(open_fault(shop@, stack@.drop_last()) is None);
        assert(open_fault(shop@, stack@) == fault);
    }
    while stack.len() > 0
        invariant
            open_fault(shop@, stack@) == fault,
            fault == recipe_fault(shop@, seq![root as int], 0),
            colors@.len() == shop@.len(),
            root < shop@.len(),
            started.len() == shop@.len(),
            stack_ok(shop@, colors@, stack@),
            blacks_ranked(shop@, colors@, rank),
            forall|i: int| 0 <= i < colors@.len() ==> (#[trigger] colors@[i]) <= BLACK,
            forall|i: int|
                0 <= i < shop@.len() && started[i] == BLACK ==> (#[trigger] colors@[i]) == BLACK,
            colors@[root as int] != WHITE,
        decreases white_count(colors@), pending(shop@, stack@),
    {
        let top: usize = stack.len() - 1;
        let (entry, next) = stack[top];
        let ghost old_stack = stack@;
        assert(old_stack[top as int] == (entry, next));
        let count: usize = shop[entry].components.len();
        proof {
            assert(shop.len() <= usize::MAX);
            lemma_step_keeps_the_fault(shop@, colors@, stack@, rank);
        }
        if next == count {
            proof {
                lemma_finish(shop@, colors@, stack@, rank);
                rank = rank.update(entry as int, choose_above(rank));
            }
            colors.set(entry, BLACK);
            stack.pop();
            assert(stack@ =~= old_stack.drop_last());
        } else {
            let component = shop[entry].components[next];
            let child = match entry_position(shop, component) {
                Some(child) => child,
                None => {
                    assert(part(shop@, entry as int, next as int) is None);
                    return Err(ActionError::InvalidSchema("unknown recipe component"));
                },
            };
            assert(part(shop@, entry as int, next as int) == Some(child as int));
            let color: u8 = colors[child];
            if color == GREY {
                proof {
                    lemma_grey_closes_cycle(shop@, colors@, stack@, next as int);
                }
                return Err(ActionError::InvalidSchema("cyclic shop recipe"));
            }
            stack.set(top, (entry, next + 1));
            assert(stack@ =~= old_stack.update(top as int, (entry, (next + 1) as usize)));
            if color == WHITE {
                proof {
                    lemma_greying_keeps_ranks(shop@, colors@, rank, child as int);
                    lemma_descend(
                        shop@,
                        colors@,
                        old_stack,
                        stack@.push((child, 0)),
                        child,
                    );
                }
                stack.push((child, 0));
                colors.set(child, GREY);
            } else {
                proof {
                    lemma_advance(shop@, colors@, old_stack, stack@);
                }
            }
        }
    }
    proof {
        assert forall|i: int| 0 <= i < colors@.len() implies (#[trigger] colors@[i]) == WHITE
            || colors@[i] == BLACK by {
            if colors@[i] == GREY {
                let k = choose|k: int| 0 <= k < stack@.len() && (#[trigger] stack@[k]).0 == i;
            }
        }
    }
    Ok(())
}

spec fn choose_above(rank: Seq<int>) -> int
    decreases rank.len(),
{
    if rank.len() == 0 {
        0
    } else {
        let below = choose_above(rank.drop_last());
        if rank.last() >= below {
            rank.last() + 1
        } else {
            below
        }
    }
}

proof fn lemma_choose_above(rank: Seq<int>)
    ensures
        forall|i: int| 0 <= i < rank.len() ==> (#[trigger] rank[i]) < choose_above(rank),
    decreases rank.len(),
{
    if rank.len() > 0 {
        lemma_choose_above(rank.drop_last());
        assert forall|i: int| 0 <= i < rank.len() implies (#[trigger] rank[i]) < choose_above(
            rank,
        ) by {
            if i < rank.len() - 1 {
                assert(rank.drop_last()[i] == rank[i]);
            }
        }
    }
}

proof fn lemma_part_in_range(shop: Seq<ShopEntry>, entry: int, component: int)
    requires
        part(shop, entry, component) is Some,
    ensures
        0 <= part(shop, entry, component)->0 < shop.len(),
{
    let item = shop[entry].components@[component];
    lemma_first_from_means(shop, |e: ShopEntry| e.id == item, 0);
}

fn has_duplicate_item(shop: &Vec<ShopEntry>) -> (r: bool)
    ensures
        r == sells_twice(shop@),
{
    let mut index: usize = 0;
    while index < shop.len()
        invariant
            index <= shop@.len(),
            forall|i: int, j: int|
                0 <= i < j < index ==> (#[trigger] shop@[i]).id != (#[trigger] shop@[j]).id,
        decreases shop@.len() - index,
    {
        let mut earlier: usize = 0;
        while earlier < index
            invariant
                earlier <= index < shop@.len(),
                forall|i: int| 0 <= i < earlier ==> (#[trigger] shop@[i]).id != shop@[index as int].id,
            decreases index - earlier,
        {
            if shop[earlier].id == shop[index].id {
                assert(shop@[earlier as int].id == shop@[index as int].id);
                return true;
            }
            earlier += 1;
        }
        index += 1;
    }
    false
}

/// Checks that every item is sold once, from known components, without a cycle.
pub fn validate_shop_recipes(shop: &Vec<ShopEntry>) -> (r: Result<(), ActionError>)
    ensures
        r is Ok <==> !sells_twice(shop@) && components_known(shop@) && acyclic(shop@),
        sells_twice(shop@) ==> r == Err::<(), ActionError>(
            ActionError::InvalidSchema("duplicate shop item"),
        ),
        match shop_fault(shop@) {
            Some(error) => r == Err::<(), ActionError>(error),
            None => r is Ok,
        },
{
    if has_duplicate_item(shop) {
        return Err(ActionError::InvalidSchema("duplicate shop item"));
    }
    let mut colors: Vec<u8> = Vec::new();
    colors.resize(shop.len(), WHITE);
    let mut root: usize = 0;
    proof {
        assert(forall|i: int| 0 <= i < colors@.len() ==> (#[trigger] colors@[i]) == WHITE);
        let rank = Seq::new(shop@.len(), |i: int| 0int);
        assert(blacks_ranked(shop@, colors@, rank));
        if acyclic(shop@) {
            acyclic_shop_has_no_cycle(shop@);
        }
    }
    while root < shop.len()
        invariant
            root <= shop@.len(),
            !sells_twice(shop@),
            acyclic(shop@) ==> !cyclic(shop@),
            settled(shop@, colors@),
            forall|i: int| 0 <= i < root ==> (#[trigger] colors@[i]) == BLACK,
            recipes_fault(shop@, 0) == recipes_fault(shop@, root as int),
        decreases shop@.len() - root,
    {
        if colors[root] == WHITE {
            let ghost before = colors@;
            match validate_recipe_from(shop, root, &mut colors) {
                Ok(()) => {},
                Err(error) => {
                    return Err(error);
                },
            }
            proof {
                assert forall|i: int| 0 <= i < root + 1 implies (#[trigger] colors@[i])
                    == BLACK by {
                    if i < root {
                        assert(before[i] == BLACK);
                    }
                }
            }
        } else {
            proof {
                let rank = choose|rank: Seq<int>| blacks_ranked(shop@, colors@, rank);
                assert(colors@[root as int] == BLACK);
                lemma_finished_is_sound(shop@, colors@, rank, seq![root as int], 0);
            }
        }
        root += 1;
    }
    proof {
        let rank = choose|rank: Seq<int>| blacks_ranked(shop@, colors@, rank);
        assert forall|i: int, j: int|
            0 <= i < shop@.len() && 0 <= j < shop@[i].components@.len() implies (#[trigger] part(
            shop@,
            i,
            j,
        )) is Some && rank[part(shop@, i, j)->0] < rank[i] by {
            assert(colors@[i] == BLACK);
        }
        assert(is_ranking(shop@, rank));
    }
    Ok(())
}


/// Slots a purchase may fill: hero bag and stash.
pub const MAX_PURCHASE_SLOTS: usize = 15;

/// What buying an item still costs and how many slots its missing parts fill.
#[derive(Clone, Copy, Debug, PartialEq, Eq, Structural)]
pub struct BuyRequirement {
    pub missing_cost: i32,
    pub missing_slots: usize,
}

/// Components of all entries together.
pub open spec fn edge_total(shop: Seq<ShopEntry>) -> nat
    decreases shop.len(),
{
    if shop.len() == 0 {
        0
    } else {
        edge_total(shop.drop_last()) + shop.last().components@.len()
    }
}

proof fn lemma_edge_total_prefix(shop: Seq<ShopEntry>, count: int)
    requires
        0 <= count <= shop.len(),
    ensures
        edge_total(shop.subrange(0, count)) <= edge_total(shop),
    decreases shop.len() - count,
{
    if count < shop.len() {
        lemma_edge_total_prefix(shop, count + 1);
        assert(shop.subrange(0, count + 1).drop_last() =~= shop.subrange(0, count));
    } else {
        assert(shop.subrange(0, count) =~= shop);
    }
}

/// Items left after one held item is used up.
pub open spec fn without_first(held: Seq<ItemId>, item: ItemId) -> Seq<ItemId> {
    held.remove(held.index_of_first(item)->0)
}

/// Resolves the parts on a stack, last one first: a held part is used up, a recipe is replaced
/// by its components, and a plain part is bought. Gives up after a bounded number of parts.
pub open spec fn resolve_parts(
    shop: Seq<ShopEntry>,
    held: Seq<ItemId>,
    stack: Seq<ItemId>,
    found: BuyRequirement,
    steps: nat,
) -> Result<BuyRequirement, ActionError>
    decreases steps,
{
    if steps == 0 {
        Err(ActionError::InvalidSchema("recipe expansion limit"))
    } else if stack.len() == 0 {
        Ok(found)
    } else {
        let item = stack.last();
        let rest = stack.drop_last();
        let left = (steps - 1) as nat;
        if held.contains(item) {
            resolve_parts(shop, without_first(held, item), rest, found, left)
        } else {
            match entry_index(shop, item) {
                None => Err(ActionError::InvalidSchema("unknown recipe component")),
                Some(i) => {
                    let components = shop[i].components@;
                    let cost = found.missing_cost + shop[i].cost;
                    if components.len() > 0 {
                        resolve_parts(shop, held, rest + components.reverse(), found, left)
                    } else if cost > i32::MAX || cost < i32::MIN {
                        Err(ActionError::Arithmetic("missing recipe cost"))
                    } else {
                        let bought = BuyRequirement {
                            missing_cost: cost as i32,
                            missing_slots: (found.missing_slots + 1) as usize,
                        };
                        if bought.missing_slots > MAX_PURCHASE_SLOTS {
                            Ok(bought)
                        } else {
                            resolve_parts(shop, held, rest, bought, left)
                        }
                    }
                },
            }
        }
    }
}

/// Parts that may be resolved before a purchase is given up.
pub open spec fn expansion_limit(shop: Seq<ShopEntry>, held: Seq<ItemId>) -> int {
    (MAX_PURCHASE_SLOTS + held.len() + 1) * (shop.len() + edge_total(shop) + 1)
}

/// What buying an item still costs, given what is held already.
pub open spec fn buy_requirement(
    shop: Seq<ShopEntry>,
    item: ItemId,
    held: Seq<ItemId>,
) -> Result<BuyRequirement, ActionError> {
    match entry_index(shop, item) {
        None => Err(ActionError::InvalidSchema("unknown recipe component")),
        Some(i) => if shop[i].components@.len() == 0 {
            Ok(BuyRequirement { missing_cost: shop[i].cost, missing_slots: 1 })
        } else if edge_total(shop) > usize::MAX {
            Err(ActionError::Arithmetic("recipe edge count"))
        } else if expansion_limit(shop, held) > usize::MAX {
            Err(ActionError::Arithmetic("recipe expansion limit"))
        } else {
            resolve_parts(
                shop,
                held,
                shop[i].components@.reverse(),
                BuyRequirement { missing_cost: 0, missing_slots: 0 },
                expansion_limit(shop, held) as nat,
            )
        },
    }
}

fn held_position(held: &Vec<ItemId>, item: ItemId) -> (r: Option<usize>)
    ensures
        match r {
            Some(i) => held@.contains(item) && i < held@.len() && held@.index_of_first(item)
                == Some(i as int),
            None => !held@.contains(item),
        },
{
    let mut index: usize = 0;
    while index < held.len()
        invariant
            index <= held@.len(),
            forall|j: int| 0 <= j < index ==> held@[j] != item,
        decreases held@.len() - index,
    {
        if held[index] == item {
            proof {
                assert(held@[index as int] == item);
                held@.index_of_first_ensures(item);
            }
            return Some(index);
        }
        index += 1;
    }
    None
}

fn push_reversed(stack: &mut Vec<ItemId>, components: &Vec<ItemId>)
    ensures
        final(stack)@ == old(stack)@ + components@.reverse(),
{
    let ghost start = stack@;
    let mut left: usize = components.len();
    while left > 0
        invariant
            left <= components@.len(),
            start == old(stack)@,
            stack@ == start + components@.reverse().subrange(0, components@.len() - left),
        decreases left,
    {
        left -= 1;
        stack.push(components[left]);
        assert(stack@ =~= start + components@.reverse().subrange(0, components@.len() - left));
    }
    assert(components@.reverse().subrange(0, components@.len() as int) =~= components@.reverse());
}

fn expand_missing_parts(
    shop: &Vec<ShopEntry>,
    held: &mut Vec<ItemId>,
    stack: &mut Vec<ItemId>,
    limit: usize,
) -> (r: Result<BuyRequirement, ActionError>)
    ensures
        r == resolve_parts(
            shop@,
            old(held)@,
            old(stack)@,
            (BuyRequirement { missing_cost: 0, missing_slots: 0 }),
            limit as nat,
        ),
{
    let mut found = BuyRequirement { missing_cost: 0, missing_slots: 0 };
    let ghost goal = resolve_parts(shop@, held@, stack@, found, limit as nat);
    let mut left: usize = limit;
    while left > 0
        invariant
            goal == resolve_parts(shop@, held@, stack@, found, left as nat),
            goal == resolve_parts(
                shop@,
                old(held)@,
                old(stack)@,
                (BuyRequirement { missing_cost: 0, missing_slots: 0 }),
                limit as nat,
            ),
            found.missing_slots <= MAX_PURCHASE_SLOTS,
        decreases left,
    {
        let item = match stack.pop() {
            Some(item) => item,
            None => {
                return Ok(found);
            },
        };
        left -= 1;
        if let Some(index) = held_position(held, item) {
            held.remove(index);
        } else {
            let index = match entry_position(shop, item) {
                Some(index) => index,
                None => {
                    return Err(ActionError::InvalidSchema("unknown recipe component"));
                },
            };
            if shop[index].components.len() == 0 {
                let cost = match found.missing_cost.checked_add(shop[index].cost) {
                    Some(cost) => cost,
                    None => {
                        return Err(ActionError::Arithmetic("missing recipe cost"));
                    },
                };
                found =
                BuyRequirement { missing_cost: cost, missing_slots: found.missing_slots + 1 };
                if found.missing_slots > MAX_PURCHASE_SLOTS {
                    return Ok(found);
                }
            } else {
                push_reversed(stack, &shop[index].components);
            }
        }
    }
    Err(ActionError::InvalidSchema("recipe expansion limit"))
}

/// What buying an item still costs; uses up the held items it counts.
pub fn missing_buy_requirement(
    shop: &Vec<ShopEntry>,
    item: ItemId,
    held: &mut Vec<ItemId>,
) -> (r: Result<BuyRequirement, ActionError>)
    ensures
        r == buy_requirement(shop@, item, old(held)@),
{
    let root = match entry_position(shop, item) {
        Some(root) => root,
        None => {
            return Err(ActionError::InvalidSchema("unknown recipe component"));
        },
    };
    if shop[root].components.len() == 0 {
        return Ok(BuyRequirement { missing_cost: shop[root].cost, missing_slots: 1 });
    }
    let mut edges: usize = 0;
    let mut index: usize = 0;
    while index < shop.len()
        invariant
            index <= shop@.len(),
            edges == edge_total(shop@.subrange(0, index as int)),
            entry_index(shop@, item) == Some(root as int),
            shop@[root as int].components@.len() > 0,
        decreases shop@.len() - index,
    {
        assert(shop@.subrange(0, index + 1).drop_last() =~= shop@.subrange(0, index as int));
        proof {
            lemma_edge_total_prefix(shop@, index + 1);
        }
        edges =
        match edges.checked_add(shop[index].components.len()) {
            Some(total) => total,
            None => {
                return Err(ActionError::Arithmetic("recipe edge count"));
            },
        };
        index += 1;
    }
    assert(shop@.subrange(0, shop@.len() as int) =~= shop@);
    let slots: u128 = MAX_PURCHASE_SLOTS as u128 + held.len() as u128 + 1;
    let nodes: u128 = shop.len() as u128 + edges as u128 + 1;
    proof {
        assert(slots * nodes <= 0x2_0000_0000_0000_0000 * 0x3_0000_0000_0000_0000)
            by (nonlinear_arith)
            requires
                slots <= 0x2_0000_0000_0000_0000,
                nodes <= 0x3_0000_0000_0000_0000,
        ;
    }
    if nodes > usize::MAX as u128 || slots > usize::MAX as u128 {
        proof {
            assert(slots * nodes >= slots && slots * nodes >= nodes) by (nonlinear_arith)
                requires
                    slots >= 1,
                    nodes >= 1,
            ;
        }
        return Err(ActionError::Arithmetic("recipe expansion limit"));
    }
    let limit: usize = match (slots as usize).checked_mul(nodes as usize) {
        Some(limit) => limit,
        None => {
            return Err(ActionError::Arithmetic("recipe expansion limit"));
        },
    };
    let mut stack: Vec<ItemId> = Vec::new();
    push_reversed(&mut stack, &shop[root].components);
    assert(stack@ =~= shop@[root as int].components@.reverse());
    expand_missing_parts(shop, held, &mut stack, limit)
}

} // verus!
