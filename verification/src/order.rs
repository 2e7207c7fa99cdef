//! Stable ordering of records by lists of integer keys.
use crate::search::{first_index, lemma_first_from_means};
use vstd::prelude::*;

verus! {

/// Lexicographic order of key lists from one position on.
pub open spec fn lex_less_from(left: Seq<i128>, right: Seq<i128>, at: int) -> bool
    decreases left.len() - at,
{
    if at >= right.len() {
        false
    } else if at < 0 || at >= left.len() {
        true
    } else if left[at] < right[at] {
        true
    } else if left[at] > right[at] {
        false
    } else {
        lex_less_from(left, right, at + 1)
    }
}

/// Lexicographic order of two key lists; a strict prefix comes first.
pub open spec fn lex_less(left: Seq<i128>, right: Seq<i128>) -> bool {
    lex_less_from(left, right, 0)
}

/// Order of two records: by key list, then by position.
pub open spec fn comes_before(keys: Seq<Seq<i128>>, first: int, second: int) -> bool {
    lex_less(keys[first], keys[second]) || (!lex_less(keys[second], keys[first]) && first < second)
}

/// Every key list as a mathematical sequence.
pub open spec fn key_views(keys: Seq<Vec<i128>>) -> Seq<Seq<i128>> {
    Seq::new(keys.len(), |i: int| keys[i]@)
}

/// Positions of all records in stable key order, each exactly once.
pub open spec fn is_stable_order(keys: Seq<Seq<i128>>, order: Seq<usize>) -> bool {
    &&& order.len() == keys.len()
    &&& forall|i: int| 0 <= i < order.len() ==> (#[trigger] order[i]) < keys.len()
    &&& forall|i: int, j: int|
        0 <= i < j < order.len() ==> comes_before(
            keys,
            #[trigger] order[i] as int,
            #[trigger] order[j] as int,
        )
}

/// The stable order of a list of keys.
pub open spec fn stable_order_of(keys: Seq<Seq<i128>>) -> Seq<usize> {
    choose|order: Seq<usize>| is_stable_order(keys, order)
}

proof fn lemma_less_from_irreflexive(key: Seq<i128>, at: int)
    requires
        0 <= at,
    ensures
        !lex_less_from(key, key, at),
    decreases key.len() - at,
{
    if at < key.len() {
        lemma_less_from_irreflexive(key, at + 1);
    }
}

proof fn lemma_less_from_asymmetric(left: Seq<i128>, right: Seq<i128>, at: int)
    requires
        0 <= at,
        lex_less_from(left, right, at),
    ensures
        !lex_less_from(right, left, at),
    decreases left.len() - at,
{
    if at < left.len() && at < right.len() && left[at] == right[at] {
        lemma_less_from_asymmetric(left, right, at + 1);
    }
}

proof fn lemma_less_from_transitive(a: Seq<i128>, b: Seq<i128>, c: Seq<i128>, at: int)
    requires
        0 <= at,
        !lex_less_from(b, a, at),
        !lex_less_from(c, b, at),
    ensures
        !lex_less_from(c, a, at),
        lex_less_from(a, b, at) || lex_less_from(b, c, at) ==> lex_less_from(a, c, at),
    decreases a.len() - at,
{
    if at < a.len() && at < b.len() && at < c.len() && a[at] == b[at] && b[at] == c[at] {
        lemma_less_from_transitive(a, b, c, at + 1);
    } else if at >= a.len() && at >= b.len() && at >= c.len() {
    }
}

/// The record order is transitive.
pub proof fn lemma_comes_before_transitive(keys: Seq<Seq<i128>>, a: int, b: int, c: int)
    requires
        comes_before(keys, a, b),
        comes_before(keys, b, c),
    ensures
        comes_before(keys, a, c),
{
    if lex_less(keys[a], keys[b]) {
        lemma_less_from_asymmetric(keys[a], keys[b], 0);
    }
    if lex_less(keys[b], keys[c]) {
        lemma_less_from_asymmetric(keys[b], keys[c], 0);
    }
    lemma_less_from_transitive(keys[a], keys[b], keys[c], 0);
}

/// Two different records always come in exactly one order.
pub proof fn lemma_comes_before_total(keys: Seq<Seq<i128>>, a: int, b: int)
    requires
        a != b,
    ensures
        comes_before(keys, a, b) != comes_before(keys, b, a),
{
    if lex_less(keys[a], keys[b]) {
        lemma_less_from_asymmetric(keys[a], keys[b], 0);
    }
    if lex_less(keys[b], keys[a]) {
        lemma_less_from_asymmetric(keys[b], keys[a], 0);
    }
}

/// No record comes before itself.
pub proof fn lemma_comes_before_irreflexive(keys: Seq<Seq<i128>>, a: int)
    ensures
        !comes_before(keys, a, a),
{
    lemma_less_from_irreflexive(keys[a], 0);
}

/// Key lists have a stable order.
pub proof fn stable_order_exists(keys: Seq<Seq<i128>>) -> (order: Seq<usize>)
    requires
        keys.len() <= usize::MAX,
    ensures
        is_stable_order(keys, order),
        is_stable_order(keys, stable_order_of(keys)),
    decreases keys.len(),
{
    if keys.len() == 0 {
        let order = Seq::<usize>::empty();
        assert(is_stable_order(keys, order));
        order
    } else {
        let rest = keys.drop_last();
        let prior = stable_order_exists(rest);
        let last = keys.len() - 1;
        let test = |index: usize| lex_less(keys[last], keys[index as int]);
        lemma_first_from_means(prior, test, 0);
        let place: int = match first_index(prior, test) {
            Some(found) => found,
            None => last,
        };
        let order = prior.insert(place, last as usize);
        assert forall|i: int, j: int| 0 <= i < j < prior.len() implies comes_before(
            keys,
            #[trigger] prior[i] as int,
            #[trigger] prior[j] as int,
        ) by {
            assert(comes_before(rest, prior[i] as int, prior[j] as int));
            assert(rest[prior[i] as int] == keys[prior[i] as int]);
            assert(rest[prior[j] as int] == keys[prior[j] as int]);
        }
        assert forall|i: int| place <= i < prior.len() implies comes_before(
            keys,
            last,
            #[trigger] prior[i] as int,
        ) by {
            if i > place {
                assert(comes_before(keys, prior[place] as int, prior[i] as int));
                lemma_comes_before_transitive(keys, last, prior[place] as int, prior[i] as int);
            }
        }
        assert forall|i: int, j: int| 0 <= i < j < order.len() implies comes_before(
            keys,
            #[trigger] order[i] as int,
            #[trigger] order[j] as int,
        ) by {
            if j < place {
                assert(order[i] == prior[i] && order[j] == prior[j]);
            } else if j == place {
                assert(order[i] == prior[i]);
                assert(!test(prior[i]));
            } else if i < place {
                assert(order[i] == prior[i] && order[j] == prior[j - 1]);
            } else if i == place {
                assert(order[j] == prior[j - 1]);
            } else {
                assert(order[i] == prior[i - 1] && order[j] == prior[j - 1]);
            }
        }
        assert(is_stable_order(keys, order));
        order
    }
}

/// Key lists have at most one stable order.
pub proof fn stable_order_is_unique(keys: Seq<Seq<i128>>, left: Seq<usize>, right: Seq<usize>)
    requires
        is_stable_order(keys, left),
        is_stable_order(keys, right),
    ensures
        left == right,
{
    assert forall|n: int| 0 <= n <= left.len() implies left.subrange(0, n) == right.subrange(
        0,
        n,
    ) by {
        lemma_orders_agree(keys, left, right, n);
    }
    assert(left.subrange(0, left.len() as int) =~= left);
    assert(right.subrange(0, right.len() as int) =~= right);
}

/// Every position occurs in a stable order.
pub proof fn stable_order_covers(keys: Seq<Seq<i128>>, order: Seq<usize>, value: usize)
    requires
        is_stable_order(keys, order),
        value < keys.len(),
    ensures
        order.contains(value),
{
    let n = keys.len() as int;
    assert forall|i: int, j: int| 0 <= i < j < n implies order[i] != order[j] by {
        lemma_comes_before_irreflexive(keys, order[i] as int);
    }
    assert(order.no_duplicates());
    let ints = order.map_values(|v: usize| v as int);
    assert forall|i: int, j: int| 0 <= i < j < n implies ints[i] != ints[j] by {}
    assert(ints.no_duplicates());
    let domain = vstd::set_lib::set_int_range(0, n);
    vstd::set_lib::lemma_int_range(0, n);
    ints.unique_seq_to_set();
    assert(ints.to_set().subset_of(domain)) by {
        assert forall|v: int| ints.to_set().contains(v) implies domain.contains(v) by {
            let i = choose|i: int| 0 <= i < ints.len() && ints[i] == v;
            assert(order[i] < keys.len());
        }
    }
    vstd::set_lib::lemma_subset_equality(ints.to_set(), domain);
    assert(domain.contains(value as int));
    assert(ints.contains(value as int));
    let i = choose|i: int| 0 <= i < ints.len() && ints[i] == value as int;
    assert(order[i] == value);
}

proof fn lemma_orders_agree(
    keys: Seq<Seq<i128>>,
    left: Seq<usize>,
    right: Seq<usize>,
    n: int,
)
    requires
        is_stable_order(keys, left),
        is_stable_order(keys, right),
        0 <= n <= left.len(),
    ensures
        left.subrange(0, n) == right.subrange(0, n),
    decreases n,
{
    if n > 0 {
        lemma_orders_agree(keys, left, right, n - 1);
        let at = n - 1;
        assert forall|i: int| 0 <= i < at implies left[i] == right[i] by {
            assert(left.subrange(0, at)[i] == right.subrange(0, at)[i]);
        }
        if left[at] != right[at] {
            stable_order_covers(keys, right, left[at]);
            stable_order_covers(keys, left, right[at]);
            let i = choose|i: int| 0 <= i < right.len() && right[i] == left[at];
            let j = choose|j: int| 0 <= j < left.len() && left[j] == right[at];
            if i < at {
                assert(left[i] == left[at]);
                lemma_comes_before_irreflexive(keys, left[at] as int);
            }
            if j < at {
                assert(right[j] == right[at]);
                lemma_comes_before_irreflexive(keys, right[at] as int);
            }
            assert(comes_before(keys, right[at] as int, right[i] as int));
            assert(comes_before(keys, left[at] as int, left[j] as int));
            lemma_comes_before_total(keys, left[at] as int, right[at] as int);
        }
        assert(left.subrange(0, n) =~= right.subrange(0, n));
    }
}

/// Lexicographic order of two key lists.
pub fn key_less(left: &Vec<i128>, right: &Vec<i128>) -> (r: bool)
    ensures
        r == lex_less(left@, right@),
{
    let mut at: usize = 0;
    while at < left.len() && at < right.len()
        invariant
            at <= left@.len(),
            at <= right@.len(),
            lex_less(left@, right@) == lex_less_from(left@, right@, at as int),
        decreases left@.len() - at,
    {
        if left[at] < right[at] {
            return true;
        }
        if left[at] > right[at] {
            return false;
        }
        at += 1;
    }
    left.len() < right.len()
}

/// Positions of all records in stable key order.
pub fn stable_order(keys: &Vec<Vec<i128>>) -> (order: Vec<usize>)
    ensures
        is_stable_order(key_views(keys@), order@),
        order@ == stable_order_of(key_views(keys@)),
{
    let ghost views = key_views(keys@);
    let mut order: Vec<usize> = Vec::new();
    let mut next: usize = 0;
    while next < keys.len()
        invariant
            next <= keys@.len(),
            views == key_views(keys@),
            order@.len() == next,
            forall|i: int| 0 <= i < order@.len() ==> (#[trigger] order@[i]) < next,
            forall|i: int, j: int|
                0 <= i < j < order@.len() ==> comes_before(
                    views,
                    #[trigger] order@[i] as int,
                    #[trigger] order@[j] as int,
                ),
        decreases keys@.len() - next,
    {
        let mut at: usize = order.len();
        while at > 0 && key_less(&keys[next], &keys[order[at - 1]])
            invariant
                at <= order@.len(),
                next < keys@.len(),
                views == key_views(keys@),
                order@.len() == next,
                forall|i: int| 0 <= i < order@.len() ==> (#[trigger] order@[i]) < next,
                forall|i: int|
                    at <= i < order@.len() ==> comes_before(
                        views,
                        next as int,
                        #[trigger] order@[i] as int,
                    ),
            decreases at,
        {
            at -= 1;
        }
        let ghost before = order@;
        order.insert(at, next);
        proof {
            assert forall|i: int| 0 <= i < at implies comes_before(
                views,
                #[trigger] before[i] as int,
                next as int,
            ) by {
                assert(!lex_less(views[next as int], views[before[at - 1] as int]));
                assert(comes_before(views, before[at - 1] as int, next as int));
                if i < at - 1 {
                    lemma_comes_before_transitive(
                        views,
                        before[i] as int,
                        before[at - 1] as int,
                        next as int,
                    );
                }
            }
            assert forall|i: int, j: int| 0 <= i < j < order@.len() implies comes_before(
                views,
                #[trigger] order@[i] as int,
                #[trigger] order@[j] as int,
            ) by {
                let old_i = if i < at {
                    i
                } else {
                    i - 1
                };
                let old_j = if j < at {
                    j
                } else {
                    j - 1
                };
                if i != at {
                    assert(order@[i] == before[old_i]);
                }
                if j != at {
                    assert(order@[j] == before[old_j]);
                }
            }
            assert forall|i: int| 0 <= i < order@.len() implies (#[trigger] order@[i]) < next
                + 1 by {
                if i < at {
                    assert(order@[i] == before[i]);
                } else if i > at {
                    assert(order@[i] == before[i - 1]);
                }
            }
        }
        next += 1;
    }
    proof {
        stable_order_is_unique(views, order@, stable_order_of(views));
    }
    order
}

} // verus!
