//! Frames assembled from rendered scalars: fixed shapes, ordered tokens, and finite values.
use crate::frame::FeatureFrame;
use crate::observation::FeatureError;
use crate::order::{is_stable_order, key_views, stable_order, stable_order_exists, stable_order_of};
use crate::space::ActionSpace;
use vstd::prelude::*;

verus! {

/// Place of single-precision bits in the total order of their numbers.
pub open spec fn order32(bits: u32) -> int {
    if bits >= 0x8000_0000 {
        -(bits - 0x8000_0000) - 1
    } else {
        bits as int
    }
}

fn order_key(bits: u32) -> (r: i128)
    ensures
        r == order32(bits),
{
    if bits >= 0x8000_0000 {
        -(bits as i128 - 0x8000_0000) - 1
    } else {
        bits as i128
    }
}

/// Sort key of a token: the places of its scalars.
pub open spec fn token_key(row: Seq<u32>) -> Seq<i128> {
    row.map_values(|bits: u32| order32(bits) as i128)
}

fn build_key(row: &Vec<u32>) -> (r: Vec<i128>)
    ensures
        r@ == token_key(row@),
{
    let mut key: Vec<i128> = Vec::new();
    let mut index: usize = 0;
    while index < row.len()
        invariant
            index <= row@.len(),
            key@.len() == index,
            forall|i: int| 0 <= i < index ==> #[trigger] key@[i] == order32(row@[i]) as i128,
        decreases row@.len() - index,
    {
        key.push(order_key(row[index]));
        index += 1;
    }
    assert(key@ =~= token_key(row@));
    key
}

/// Rows of a table.
pub open spec fn bit_rows(table: Seq<Vec<u32>>) -> Seq<Seq<u32>> {
    table.map_values(|row: Vec<u32>| row@)
}

/// Sort keys of a list of tokens.
pub open spec fn token_keys(rows: Seq<Seq<u32>>) -> Seq<Seq<i128>> {
    rows.map_values(|row: Seq<u32>| token_key(row))
}

pub open spec fn fewer(left: int, right: int) -> int {
    if left <= right {
        left
    } else {
        right
    }
}

/// First tokens in lexicographic order of their scalars; tokens that compare equal keep their
/// order.
pub open spec fn retained(rows: Seq<Seq<u32>>, limit: int) -> Seq<Seq<u32>> {
    Seq::new(
        fewer(rows.len() as int, limit) as nat,
        |i: int| rows[stable_order_of(token_keys(rows))[i] as int],
    )
}

/// Row of zero bits.
pub open spec fn zero_bits(width: int) -> Seq<u32> {
    Seq::new(width as nat, |i: int| 0u32)
}

/// Table of a fixed number of rows: the given ones, then zeros.
pub open spec fn padded(rows: Seq<Seq<u32>>, count: int, width: int) -> Seq<Seq<u32>> {
    Seq::new(
        count as nat,
        |i: int|
            if i < rows.len() {
                rows[i]
            } else {
                zero_bits(width)
            },
    )
}

fn copy_row(row: &Vec<u32>) -> (r: Vec<u32>)
    ensures
        r@ == row@,
{
    crate::world::copy_vec(row)
}

fn zeros(width: usize) -> (r: Vec<u32>)
    ensures
        r@ == zero_bits(width as int),
{
    let mut row: Vec<u32> = Vec::new();
    row.resize(width, 0);
    assert(row@ =~= zero_bits(width as int));
    row
}

/// Sorts tokens, and keeps as many as fit.
pub fn sorted_tokens(table: &Vec<Vec<u32>>, limit: usize) -> (r: Vec<Vec<u32>>)
    ensures
        bit_rows(r@) == retained(bit_rows(table@), limit as int),
{
    let ghost rows = bit_rows(table@);
    let mut keys: Vec<Vec<i128>> = Vec::new();
    let mut index: usize = 0;
    while index < table.len()
        invariant
            index <= table@.len(),
            rows == bit_rows(table@),
            keys@.len() == index,
            forall|i: int| 0 <= i < index ==> (#[trigger] keys@[i])@ == token_key(rows[i]),
        decreases table@.len() - index,
    {
        keys.push(build_key(&table[index]));
        index += 1;
    }
    assert(key_views(keys@) =~= token_keys(rows));
    let order = stable_order(&keys);
    let mut output: Vec<Vec<u32>> = Vec::new();
    index = 0;
    while index < table.len() && index < limit
        invariant
            index <= table@.len(),
            index <= limit,
            rows == bit_rows(table@),
            order@ == stable_order_of(token_keys(rows)),
            order@.len() == table@.len(),
            is_stable_order(token_keys(rows), order@),
            output@.len() == index,
            forall|i: int|
                0 <= i < index ==> (#[trigger] output@[i])@ == rows[order@[i] as int],
        decreases table@.len() - index,
    {
        assert(order@[index as int] < token_keys(rows).len());
        output.push(copy_row(&table[order[index]]));
        index += 1;
    }
    assert(bit_rows(output@) =~= retained(rows, limit as int));
    output
}

/// Table of a fixed number of rows: the given ones, then zeros.
pub fn pad_table(table: Vec<Vec<u32>>, count: usize, width: usize) -> (r: Vec<Vec<u32>>)
    requires
        table@.len() <= count,
    ensures
        bit_rows(r@) == padded(bit_rows(table@), count as int, width as int),
{
    let ghost rows = bit_rows(table@);
    let mut output = table;
    while output.len() < count
        invariant
            rows.len() <= output@.len() <= count,
            forall|i: int|
                0 <= i < output@.len() ==> (#[trigger] output@[i])@ == padded(
                    rows,
                    count as int,
                    width as int,
                )[i],
        decreases count - output@.len(),
    {
        output.push(zeros(width));
    }
    assert(bit_rows(output@) =~= padded(rows, count as int, width as int));
    output
}

/// Scalars of one snapshot as single-precision bits; remembered units and projectiles are not
/// ordered yet.
#[derive(Debug)]
pub struct RenderedFrame {
    pub global: Vec<u32>,
    pub history: Vec<Vec<u32>>,
    pub policy_history: Vec<Vec<u32>>,
    pub units: Vec<Vec<u32>>,
    pub own_units: Vec<Vec<u32>>,
    pub remembered_units: Vec<Vec<u32>>,
    pub points: Vec<Vec<u32>>,
    pub abilities: Vec<Vec<u32>>,
    pub items: Vec<Vec<u32>>,
    pub projectiles: Vec<Vec<u32>>,
    pub loot: Vec<Vec<u32>>,
    pub map: Vec<u32>,
}

impl RenderedFrame {
    /// Whether every table fits the fixed shape of a frame.
    pub open spec fn fits(self) -> bool {
        &&& self.global@.len() == 64
        &&& self.history@.len() <= 7
        &&& self.policy_history@.len() <= 16
        &&& self.units@.len() <= 96
        &&& self.own_units@.len() <= 2
        &&& self.points@.len() <= 48
        &&& self.abilities@.len() <= 14
        &&& self.items@.len() <= 85
        &&& self.loot@.len() <= 16
    }

    /// Whether a frame holds exactly the rendered tables in their fixed shapes.
    pub open spec fn shaped(self, frame: FeatureFrame) -> bool {
        &&& frame.global@ == self.global@
        &&& bit_rows(frame.history@) == padded(bit_rows(self.history@), 7, 24)
        &&& bit_rows(frame.policy_history@) == padded(bit_rows(self.policy_history@), 16, 4)
        &&& bit_rows(frame.units@) == padded(bit_rows(self.units@), 96, 69)
        &&& bit_rows(frame.own_units@) == padded(bit_rows(self.own_units@), 2, 69)
        &&& bit_rows(frame.remembered_units@) == padded(
            retained(bit_rows(self.remembered_units@), 32),
            32,
            69,
        )
        &&& bit_rows(frame.points@) == padded(bit_rows(self.points@), 48, 32)
        &&& bit_rows(frame.abilities@) == padded(bit_rows(self.abilities@), 14, 24)
        &&& bit_rows(frame.items@) == padded(bit_rows(self.items@), 85, 28)
        &&& bit_rows(frame.projectiles@) == padded(
            retained(bit_rows(self.projectiles@), 32),
            32,
            20,
        )
        &&& bit_rows(frame.loot@) == padded(bit_rows(self.loot@), 16, 16)
        &&& frame.map@ == self.map@
    }

    /// Brings rendered scalars into the fixed shapes of a frame.
    pub fn shape(self) -> (frame: FeatureFrame)
        requires
            self.fits(),
        ensures
            self.shaped(frame),
            frame.provenance is None,
            frame.wf(),
    {
        let remembered = sorted_tokens(&self.remembered_units, 32);
        let projectiles = sorted_tokens(&self.projectiles, 32);
        proof {
            assert(bit_rows(remembered@).len() <= 32);
            assert(bit_rows(projectiles@).len() <= 32);
        }
        FeatureFrame {
            provenance: None,
            global: self.global,
            history: pad_table(self.history, 7, 24),
            policy_history: pad_table(self.policy_history, 16, 4),
            units: pad_table(self.units, 96, 69),
            own_units: pad_table(self.own_units, 2, 69),
            remembered_units: pad_table(remembered, 32, 69),
            points: pad_table(self.points, 48, 32),
            abilities: pad_table(self.abilities, 14, 24),
            items: pad_table(self.items, 85, 28),
            projectiles: pad_table(projectiles, 32, 20),
            loot: pad_table(self.loot, 16, 16),
            map: self.map,
        }
    }

    /// Frame of rendered scalars, attributed to the snapshot of an action space.
    pub fn assemble(self, space: &ActionSpace) -> (r: Result<FeatureFrame, FeatureError>)
        requires
            self.fits(),
        ensures
            match r {
                Ok(frame) => self.shaped(frame) && frame.finite() && frame.belongs_to(*space)
                    && frame.wf(),
                Err(error) => error == FeatureError::NonFinite && exists|frame: FeatureFrame|
                    self.shaped(frame) && !frame.finite(),
            },
    {
        let mut frame = self.shape();
        if !frame.is_finite() {
            return Err(FeatureError::NonFinite);
        }
        frame.attribute(space);
        Ok(frame)
    }
}

/// Retained tokens stand in lexicographic order, and no token that is left out comes before one
/// of them.
pub proof fn retained_tokens_come_first(rows: Seq<Seq<u32>>, limit: int)
    requires
        0 <= limit,
        rows.len() <= usize::MAX,
    ensures
        forall|i: int, j: int|
            0 <= i < j < retained(rows, limit).len() ==> !crate::order::lex_less(
                token_key(#[trigger] retained(rows, limit)[j]),
                token_key(#[trigger] retained(rows, limit)[i]),
            ),
        forall|i: int, j: int|
            0 <= i < retained(rows, limit).len() <= j < rows.len() ==> !crate::order::lex_less(
                token_key(rows[#[trigger] stable_order_of(token_keys(rows))[j] as int]),
                token_key(#[trigger] retained(rows, limit)[i]),
            ),
{
    let keys = token_keys(rows);
    let order = stable_order_of(keys);
    let found = stable_order_exists(keys);
    assert forall|i: int, j: int| 0 <= i < j < rows.len() implies !crate::order::lex_less(
        token_key(rows[(#[trigger] order[j]) as int]),
        token_key(rows[(#[trigger] order[i]) as int]),
    ) by {
        assert(crate::order::comes_before(keys, order[i] as int, order[j] as int));
        crate::order::lemma_comes_before_irreflexive(keys, order[i] as int);
        crate::order::lemma_comes_before_total(keys, order[i] as int, order[j] as int);
        assert(keys[order[i] as int] == token_key(rows[order[i] as int]));
        assert(keys[order[j] as int] == token_key(rows[order[j] as int]));
    }
}

} // verus!
