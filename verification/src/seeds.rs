//! Disjoint seed namespaces of optimization and evaluation.
use crate::imitation_error::ImitationError;
use crate::order::{
    comes_before, is_stable_order, key_views, lemma_comes_before_irreflexive, lex_less_from,
    stable_order, stable_order_covers,
};
use vstd::prelude::*;

verus! {

/// Maximum seed count in each training, validation, or promotion namespace.
pub const MAX_SEED_NAMESPACE: usize = 8_192;

/// Dataset partition with optimizer access restricted to `Train`.
#[derive(Clone, Copy, Debug, PartialEq, Eq, Structural)]
pub enum ImitationSplit {
    Train,
    Validation,
    HeldOut,
}

/// Seed namespace encoded in immutable sample identity metadata.
#[derive(Clone, Copy, Debug, PartialEq, Eq, PartialOrd, Ord, Hash, Structural)]
pub enum SeedNamespace {
    Training,
    Validation,
    Promotion,
}

impl SeedNamespace {
    pub open spec fn split_spec(self) -> ImitationSplit {
        match self {
            SeedNamespace::Training => ImitationSplit::Train,
            SeedNamespace::Validation => ImitationSplit::Validation,
            SeedNamespace::Promotion => ImitationSplit::HeldOut,
        }
    }

    /// Partition that samples of this namespace belong to.
    pub fn split(self) -> (r: ImitationSplit)
        ensures
            r == self.split_spec(),
    {
        match self {
            SeedNamespace::Training => ImitationSplit::Train,
            SeedNamespace::Validation => ImitationSplit::Validation,
            SeedNamespace::Promotion => ImitationSplit::HeldOut,
        }
    }

    pub open spec fn name_spec(self) -> &'static str {
        match self {
            SeedNamespace::Training => "training",
            SeedNamespace::Validation => "validation",
            SeedNamespace::Promotion => "promotion",
        }
    }

    /// Name of the namespace in failures.
    pub fn name(self) -> (r: &'static str)
        ensures
            r == self.name_spec(),
    {
        match self {
            SeedNamespace::Training => "training",
            SeedNamespace::Validation => "validation",
            SeedNamespace::Promotion => "promotion",
        }
    }
}

/// Strictly increasing seeds.
pub open spec fn increasing(seeds: Seq<u64>) -> bool {
    forall|i: int, j: int| 0 <= i < j < seeds.len() ==> seeds[i] < seeds[j]
}

/// Whether two lists hold the same seeds.
pub open spec fn same_seeds(left: Seq<u64>, right: Seq<u64>) -> bool {
    left.len() == right.len() && forall|seed: u64|
        left.contains(seed) == #[trigger] right.contains(seed)
}

/// Whether a seed occurs at two positions.
pub open spec fn occurs_twice(seeds: Seq<u64>, seed: u64) -> bool {
    exists|i: int, j: int|
        0 <= i < j < seeds.len() && #[trigger] seeds[i] == seed && #[trigger] seeds[j] == seed
}

/// Smallest seed that occurs twice.
pub open spec fn smallest_repeat(seeds: Seq<u64>, seed: u64) -> bool {
    occurs_twice(seeds, seed) && forall|other: u64| #[trigger]
        occurs_twice(seeds, other) ==> seed <= other
}

/// Smallest seed in both lists.
pub open spec fn smallest_shared(left: Seq<u64>, right: Seq<u64>, seed: u64) -> bool {
    left.contains(seed) && right.contains(seed) && forall|other: u64|
        left.contains(other) && #[trigger] right.contains(other) ==> seed <= other
}

/// Sorts seeds; positions of equal seeds stay adjacent.
fn sorted_seeds(seeds: &Vec<u64>) -> (r: Vec<u64>)
    ensures
        r@.len() == seeds@.len(),
        forall|i: int, j: int| 0 <= i < j < r@.len() ==> r@[i] <= r@[j],
        forall|seed: u64| seeds@.contains(seed) == #[trigger] r@.contains(seed),
        forall|seed: u64| occurs_twice(seeds@, seed) == #[trigger] occurs_twice(r@, seed),
{
    let mut keys: Vec<Vec<i128>> = Vec::new();
    let mut index: usize = 0;
    while index < seeds.len()
        invariant
            index <= seeds@.len(),
            keys@.len() == index,
            forall|i: int| 0 <= i < index ==> (#[trigger] keys@[i])@ == seq![seeds@[i] as i128],
        decreases seeds@.len() - index,
    {
        let mut key: Vec<i128> = Vec::new();
        key.push(seeds[index] as i128);
        assert(key@ =~= seq![seeds@[index as int] as i128]);
        keys.push(key);
        index += 1;
    }
    let order = stable_order(&keys);
    let ghost views = key_views(keys@);
    let mut output: Vec<u64> = Vec::new();
    index = 0;
    while index < order.len()
        invariant
            index <= order@.len(),
            order@.len() == seeds@.len(),
            views.len() == seeds@.len(),
            is_stable_order(views, order@),
            output@.len() == index,
            forall|i: int| 0 <= i < index ==> (#[trigger] output@[i]) == seeds@[order@[i] as int],
        decreases order@.len() - index,
    {
        assert(order@[index as int] < views.len());
        output.push(seeds[order[index]]);
        index += 1;
    }
    proof {
        assert forall|i: int| 0 <= i < views.len() implies (#[trigger] views[i])
            == seq![seeds@[i] as i128] by {
            assert(keys@[i]@ == seq![seeds@[i] as i128]);
        }
        assert forall|i: int, j: int| 0 <= i < j < output@.len() implies output@[i]
            <= output@[j] by {
            assert(comes_before(views, order@[i] as int, order@[j] as int));
            let left = views[order@[i] as int];
            let right = views[order@[j] as int];
            if left[0] > right[0] {
                assert(lex_less_from(right, left, 0));
                assert(!lex_less_from(left, right, 0));
            }
        }
        assert forall|seed: u64| seeds@.contains(seed) == #[trigger] output@.contains(seed) by {
            if seeds@.contains(seed) {
                let a = choose|a: int| 0 <= a < seeds@.len() && seeds@[a] == seed;
                stable_order_covers(views, order@, a as usize);
                let p = choose|p: int| 0 <= p < order@.len() && order@[p] == a as usize;
                assert(output@[p] == seed);
            }
            if output@.contains(seed) {
                let p = choose|p: int| 0 <= p < output@.len() && output@[p] == seed;
                assert(seeds@[order@[p] as int] == seed);
            }
        }
        assert forall|seed: u64| occurs_twice(seeds@, seed) == #[trigger] occurs_twice(
            output@,
            seed,
        ) by {
            if occurs_twice(seeds@, seed) {
                let (a, b) = choose|a: int, b: int|
                    0 <= a < b < seeds@.len() && #[trigger] seeds@[a] == seed
                        && #[trigger] seeds@[b] == seed;
                stable_order_covers(views, order@, a as usize);
                stable_order_covers(views, order@, b as usize);
                let p = choose|p: int| 0 <= p < order@.len() && order@[p] == a as usize;
                let q = choose|q: int| 0 <= q < order@.len() && order@[q] == b as usize;
                assert(output@[p] == seed && output@[q] == seed);
                if p < q {
                    assert(occurs_twice(output@, seed));
                } else {
                    assert(q < p);
                    assert(occurs_twice(output@, seed));
                }
            }
            if occurs_twice(output@, seed) {
                let (p, q) = choose|p: int, q: int|
                    0 <= p < q < output@.len() && #[trigger] output@[p] == seed
                        && #[trigger] output@[q] == seed;
                let a = order@[p] as int;
                let b = order@[q] as int;
                assert(comes_before(views, a, b));
                lemma_comes_before_irreflexive(views, a);
                assert(a != b);
                assert(seeds@[a] == seed && seeds@[b] == seed);
                if a < b {
                    assert(occurs_twice(seeds@, seed));
                } else {
                    assert(occurs_twice(seeds@, seed));
                }
            }
        }
    }
    output
}

/// Failure of one namespace: too many seeds, or the smallest repeated seed.
pub open spec fn namespace_error(
    name: &'static str,
    seeds: Seq<u64>,
    error: ImitationError,
) -> bool {
    if seeds.len() > MAX_SEED_NAMESPACE {
        error == (ImitationError::SeedCapacity {
            namespace: name,
            count: seeds.len() as usize,
            maximum: MAX_SEED_NAMESPACE,
        })
    } else {
        exists|seed: u64| #[trigger]
            smallest_repeat(seeds, seed) && error == (ImitationError::DuplicateSeed {
                namespace: name,
                seed,
            })
    }
}

/// Bounded seeds without repetition.
pub open spec fn namespace_ok(seeds: Seq<u64>) -> bool {
    seeds.len() <= MAX_SEED_NAMESPACE && forall|seed: u64| !#[trigger] occurs_twice(seeds, seed)
}

/// Sorts one namespace and checks its size and uniqueness.
pub fn validate_seed_namespace(name: &'static str, seeds: Vec<u64>) -> (r: Result<
    Vec<u64>,
    ImitationError,
>)
    ensures
        r is Ok <==> namespace_ok(seeds@),
        match r {
            Ok(sorted) => increasing(sorted@) && same_seeds(seeds@, sorted@),
            Err(error) => namespace_error(name, seeds@, error),
        },
{
    if seeds.len() > MAX_SEED_NAMESPACE {
        return Err(
            ImitationError::SeedCapacity {
                namespace: name,
                count: seeds.len(),
                maximum: MAX_SEED_NAMESPACE,
            },
        );
    }
    let sorted = sorted_seeds(&seeds);
    let mut index: usize = 1;
    while index < sorted.len()
        invariant
            1 <= index,
            sorted@.len() == seeds@.len(),
            seeds@.len() <= MAX_SEED_NAMESPACE,
            index <= sorted@.len() || sorted@.len() == 0,
            forall|i: int, j: int| 0 <= i < j < sorted@.len() ==> sorted@[i] <= sorted@[j],
            forall|i: int, j: int| 0 <= i < j < index && j < sorted@.len() ==> sorted@[i]
                < sorted@[j],
            forall|seed: u64| occurs_twice(seeds@, seed) == #[trigger] occurs_twice(sorted@, seed),
        decreases sorted@.len() - index,
    {
        if sorted[index - 1] == sorted[index] {
            let seed: u64 = sorted[index];
            proof {
                assert(sorted@[index - 1] == seed && sorted@[index as int] == seed);
                assert(occurs_twice(sorted@, seed));
                assert(occurs_twice(seeds@, seed));
                assert forall|other: u64| #[trigger] occurs_twice(seeds@, other) implies seed
                    <= other by {
                    assert(occurs_twice(sorted@, other));
                    let (p, q) = choose|p: int, q: int|
                        0 <= p < q < sorted@.len() && #[trigger] sorted@[p] == other
                            && #[trigger] sorted@[q] == other;
                    if other < seed {
                        if q >= index {
                            assert(sorted@[index as int] <= sorted@[q]);
                        } else {
                            assert(sorted@[p] < sorted@[q]);
                        }
                    }
                }
                assert(smallest_repeat(seeds@, seed));
            }
            return Err(ImitationError::DuplicateSeed { namespace: name, seed });
        }
        proof {
            assert forall|i: int, j: int| 0 <= i < j < index + 1 && j < sorted@.len() implies sorted@[i]
                < sorted@[j] by {
                if j == index {
                    assert(sorted@[index - 1] < sorted@[index as int]);
                    if i < index - 1 {
                        assert(sorted@[i] < sorted@[index - 1]);
                    }
                }
            }
        }
        index += 1;
    }
    proof {
        assert forall|seed: u64| !#[trigger] occurs_twice(seeds@, seed) by {
            if occurs_twice(sorted@, seed) {
                let (p, q) = choose|p: int, q: int|
                    0 <= p < q < sorted@.len() && #[trigger] sorted@[p] == seed
                        && #[trigger] sorted@[q] == seed;
                assert(sorted@[p] < sorted@[q]);
            }
        }
    }
    Ok(sorted)
}

/// Whether two namespaces share no seed.
pub open spec fn disjoint(left: Seq<u64>, right: Seq<u64>) -> bool {
    forall|seed: u64| left.contains(seed) ==> !#[trigger] right.contains(seed)
}

/// Checks that two sorted namespaces share no seed; reports the smallest shared one.
pub fn validate_seed_disjoint(
    first_name: &'static str,
    first: &Vec<u64>,
    second_name: &'static str,
    second: &Vec<u64>,
) -> (r: Result<(), ImitationError>)
    requires
        increasing(first@),
        increasing(second@),
    ensures
        r is Ok <==> disjoint(first@, second@),
        r matches Err(error) ==> exists|seed: u64| #[trigger]
            smallest_shared(first@, second@, seed) && error == (ImitationError::SeedOverlap {
                first: first_name,
                second: second_name,
                seed,
            }),
{
    let mut left: usize = 0;
    let mut right: usize = 0;
    while left < first.len() && right < second.len()
        invariant
            left <= first@.len(),
            right <= second@.len(),
            increasing(first@),
            increasing(second@),
            forall|i: int, j: int|
                0 <= i < left && 0 <= j < second@.len() ==> first@[i] != second@[j],
            forall|i: int, j: int|
                0 <= i < first@.len() && 0 <= j < right ==> first@[i] != second@[j],
        decreases first@.len() - left + second@.len() - right,
    {
        if first[left] < second[right] {
            proof {
                assert forall|i: int, j: int|
                    0 <= i < left + 1 && 0 <= j < second@.len() implies first@[i]
                    != second@[j] by {
                    if i == left && j > right {
                        assert(second@[right as int] < second@[j]);
                    }
                }
            }
            left += 1;
        } else if first[left] > second[right] {
            proof {
                assert forall|i: int, j: int|
                    0 <= i < first@.len() && 0 <= j < right + 1 implies first@[i]
                    != second@[j] by {
                    if j == right && i > left {
                        assert(first@[left as int] < first@[i]);
                    }
                }
            }
            right += 1;
        } else {
            let seed: u64 = first[left];
            proof {
                assert(first@[left as int] == seed && second@[right as int] == seed);
                assert(first@.contains(seed) && second@.contains(seed));
                assert forall|other: u64|
                    first@.contains(other) && #[trigger] second@.contains(other) implies seed
                    <= other by {
                    let i = choose|i: int| 0 <= i < first@.len() && first@[i] == other;
                    let j = choose|j: int| 0 <= j < second@.len() && second@[j] == other;
                    assert(first@[i] == second@[j]);
                    assert(i >= left);
                    if i > left {
                        assert(first@[left as int] < first@[i]);
                    }
                }
                assert(smallest_shared(first@, second@, seed));
            }
            return Err(
                ImitationError::SeedOverlap { first: first_name, second: second_name, seed },
            );
        }
    }
    proof {
        assert forall|seed: u64| first@.contains(seed) implies !#[trigger] second@.contains(
            seed,
        ) by {
            if second@.contains(seed) {
                let i = choose|i: int| 0 <= i < first@.len() && first@[i] == seed;
                let j = choose|j: int| 0 <= j < second@.len() && second@[j] == seed;
                assert(first@[i] == second@[j]);
            }
        }
    }
    Ok(())
}

/// Sorted unique and pairwise-disjoint optimization and evaluation seeds.
#[derive(Clone, Debug, PartialEq, Eq)]
pub struct SeedNamespaces {
    pub training: Vec<u64>,
    pub validation: Vec<u64>,
    pub promotion: Vec<u64>,
}

impl SeedNamespaces {
    pub open spec fn wf(self) -> bool {
        &&& increasing(self.training@)
        &&& increasing(self.validation@)
        &&& increasing(self.promotion@)
        &&& self.training@.len() <= MAX_SEED_NAMESPACE
        &&& self.validation@.len() <= MAX_SEED_NAMESPACE
        &&& self.promotion@.len() <= MAX_SEED_NAMESPACE
        &&& disjoint(self.training@, self.validation@)
        &&& disjoint(self.training@, self.promotion@)
        &&& disjoint(self.validation@, self.promotion@)
    }

    /// Same seeds in every namespace.
    pub open spec fn same(self, other: SeedNamespaces) -> bool {
        &&& self.training@ == other.training@
        &&& self.validation@ == other.validation@
        &&& self.promotion@ == other.promotion@
    }

    pub open spec fn of(self, namespace: SeedNamespace) -> Seq<u64> {
        match namespace {
            SeedNamespace::Training => self.training@,
            SeedNamespace::Validation => self.validation@,
            SeedNamespace::Promotion => self.promotion@,
        }
    }

    /// Sorts the namespaces and checks that they are bounded, unique, and disjoint.
    pub fn new(training: Vec<u64>, validation: Vec<u64>, promotion: Vec<u64>) -> (r: Result<
        Self,
        ImitationError,
    >)
        ensures
            r is Ok <==> {
                &&& namespace_ok(training@)
                &&& namespace_ok(validation@)
                &&& namespace_ok(promotion@)
                &&& disjoint(training@, validation@)
                &&& disjoint(training@, promotion@)
                &&& disjoint(validation@, promotion@)
            },
            match r {
                Ok(seeds) => {
                    &&& seeds.wf()
                    &&& same_seeds(training@, seeds.training@)
                    &&& same_seeds(validation@, seeds.validation@)
                    &&& same_seeds(promotion@, seeds.promotion@)
                },
                Err(error) => namespaces_error(training@, validation@, promotion@, error),
            },
    {
        let ghost raw = (training@, validation@, promotion@);
        let training = match validate_seed_namespace("training", training) {
            Ok(seeds) => seeds,
            Err(error) => {
                return Err(error);
            },
        };
        let validation = match validate_seed_namespace("validation", validation) {
            Ok(seeds) => seeds,
            Err(error) => {
                return Err(error);
            },
        };
        let promotion = match validate_seed_namespace("promotion", promotion) {
            Ok(seeds) => seeds,
            Err(error) => {
                return Err(error);
            },
        };
        proof {
            lemma_disjoint_sorted(raw.0, training@, raw.1, validation@);
            lemma_disjoint_sorted(raw.0, training@, raw.2, promotion@);
            lemma_disjoint_sorted(raw.1, validation@, raw.2, promotion@);
        }
        match validate_seed_disjoint("training", &training, "validation", &validation) {
            Ok(()) => {},
            Err(error) => {
                return Err(error);
            },
        }
        match validate_seed_disjoint("training", &training, "promotion", &promotion) {
            Ok(()) => {},
            Err(error) => {
                return Err(error);
            },
        }
        match validate_seed_disjoint("validation", &validation, "promotion", &promotion) {
            Ok(()) => {},
            Err(error) => {
                return Err(error);
            },
        }
        Ok(SeedNamespaces { training, validation, promotion })
    }

    pub fn training(&self) -> (r: &[u64])
        ensures
            r@ == self.training@,
    {
        self.training.as_slice()
    }

    pub fn validation(&self) -> (r: &[u64])
        ensures
            r@ == self.validation@,
    {
        self.validation.as_slice()
    }

    pub fn promotion(&self) -> (r: &[u64])
        ensures
            r@ == self.promotion@,
    {
        self.promotion.as_slice()
    }

    /// Whether a seed belongs to a namespace.
    pub fn contains(&self, namespace: SeedNamespace, seed: u64) -> (r: bool)
        requires
            self.wf(),
        ensures
            r == self.of(namespace).contains(seed),
    {
        let seeds = match namespace {
            SeedNamespace::Training => &self.training,
            SeedNamespace::Validation => &self.validation,
            SeedNamespace::Promotion => &self.promotion,
        };
        let mut low: usize = 0;
        let mut high: usize = seeds.len();
        while low < high
            invariant
                low <= high <= seeds@.len(),
                seeds@ == self.of(namespace),
                increasing(seeds@),
                forall|i: int| 0 <= i < low ==> seeds@[i] < seed,
                forall|i: int| high <= i < seeds@.len() ==> seeds@[i] > seed,
            decreases high - low,
        {
            let middle: usize = low + (high - low) / 2;
            if seeds[middle] == seed {
                assert(seeds@[middle as int] == seed);
                return true;
            }
            if seeds[middle] < seed {
                assert forall|i: int| 0 <= i < middle + 1 implies seeds@[i] < seed by {
                    if i < middle {
                        assert(seeds@[i] < seeds@[middle as int]);
                    }
                }
                low = middle + 1;
            } else {
                assert forall|i: int| middle <= i < seeds@.len() implies seeds@[i] > seed by {
                    if i > middle {
                        assert(seeds@[middle as int] < seeds@[i]);
                    }
                }
                high = middle;
            }
        }
        false
    }

    /// Owned copy with the same seeds.
    pub fn duplicate(&self) -> (r: Self)
        ensures
            r.same(*self),
    {
        SeedNamespaces {
            training: crate::world::copy_vec(&self.training),
            validation: crate::world::copy_vec(&self.validation),
            promotion: crate::world::copy_vec(&self.promotion),
        }
    }

    /// Whether two recordings hold the same seeds in every namespace.
    pub fn is_same(&self, other: &Self) -> (r: bool)
        ensures
            r == self.same(*other),
    {
        same_list(&self.training, &other.training) && same_list(&self.validation, &other.validation)
            && same_list(&self.promotion, &other.promotion)
    }
}

/// Whether two lists are equal.
pub fn same_list(left: &Vec<u64>, right: &Vec<u64>) -> (r: bool)
    ensures
        r == (left@ == right@),
{
    if left.len() != right.len() {
        return false;
    }
    let mut index: usize = 0;
    while index < left.len()
        invariant
            index <= left@.len(),
            left@.len() == right@.len(),
            forall|i: int| 0 <= i < index ==> left@[i] == right@[i],
        decreases left@.len() - index,
    {
        if left[index] != right[index] {
            return false;
        }
        index += 1;
    }
    assert(left@ =~= right@);
    true
}

proof fn lemma_disjoint_sorted(
    left_raw: Seq<u64>,
    left: Seq<u64>,
    right_raw: Seq<u64>,
    right: Seq<u64>,
)
    requires
        same_seeds(left_raw, left),
        same_seeds(right_raw, right),
    ensures
        disjoint(left_raw, right_raw) == disjoint(left, right),
        forall|seed: u64| #[trigger]
            smallest_shared(left, right, seed) ==> smallest_shared(left_raw, right_raw, seed),
{
    assert forall|seed: u64| left.contains(seed) == #[trigger] left_raw.contains(seed) by {
        assert(left_raw.contains(seed) == left.contains(seed));
    }
    assert forall|seed: u64| right.contains(seed) == #[trigger] right_raw.contains(seed) by {
        assert(right_raw.contains(seed) == right.contains(seed));
    }
    if disjoint(left_raw, right_raw) {
        assert forall|seed: u64| left.contains(seed) implies !#[trigger] right.contains(seed) by {
            assert(left_raw.contains(seed));
            assert(!right_raw.contains(seed));
        }
    }
    if disjoint(left, right) {
        assert forall|seed: u64| left_raw.contains(seed) implies !#[trigger] right_raw.contains(
            seed,
        ) by {
            assert(left.contains(seed));
            assert(!right.contains(seed));
        }
    }
    assert forall|seed: u64| #[trigger] smallest_shared(left, right, seed) implies smallest_shared(
        left_raw,
        right_raw,
        seed,
    ) by {
        assert forall|other: u64|
            left_raw.contains(other) && #[trigger] right_raw.contains(other) implies seed
            <= other by {
            assert(left.contains(other));
            assert(right.contains(other));
        }
    }
}

pub open spec fn overlap_error(
    first_name: &'static str,
    first: Seq<u64>,
    second_name: &'static str,
    second: Seq<u64>,
    error: ImitationError,
) -> bool {
    exists|seed: u64| #[trigger]
        smallest_shared(first, second, seed) && error == (ImitationError::SeedOverlap {
            first: first_name,
            second: second_name,
            seed,
        })
}

/// Failure of the first namespace that breaks a rule, then of the first pair that overlaps.
pub open spec fn namespaces_error(
    training: Seq<u64>,
    validation: Seq<u64>,
    promotion: Seq<u64>,
    error: ImitationError,
) -> bool {
    if !namespace_ok(training) {
        namespace_error("training", training, error)
    } else if !namespace_ok(validation) {
        namespace_error("validation", validation, error)
    } else if !namespace_ok(promotion) {
        namespace_error("promotion", promotion, error)
    } else if !disjoint(training, validation) {
        overlap_error("training", training, "validation", validation, error)
    } else if !disjoint(training, promotion) {
        overlap_error("training", training, "promotion", promotion, error)
    } else {
        overlap_error("validation", validation, "promotion", promotion, error)
    }
}

} // verus!
