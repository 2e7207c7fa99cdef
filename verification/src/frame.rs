//! Fixed-shape policy input frames, held as single-precision bit patterns.
use crate::space::ActionSpace;
use crate::tracker::{ItemReadiness, TrackerProvenance, HISTORY_SAMPLES};
use vstd::prelude::*;

verus! {

/// Version of the append-only policy feature schema.
pub const FEATURE_SCHEMA_VERSION: u32 = 3;
/// Number of scalar global features.
pub const GLOBAL_FEATURES: usize = 64;
/// Number of scalar features in one global-history sample.
pub const HISTORY_FEATURES: usize = 24;
/// Number of scalar features in one local policy-history sample.
pub const POLICY_HISTORY_FEATURES: usize = 4;
/// Maximum number of local policy-history samples.
pub const MAX_POLICY_HISTORY: usize = 16;
/// Number of scalar features in one unit token.
pub const UNIT_FEATURES: usize = 69;
/// Number of unit tokens in exact entity-candidate order.
pub const UNIT_FEATURE_TOKENS: usize = 96;
/// Number of fixed own hero and courier unit tokens.
pub const OWN_UNIT_FEATURE_TOKENS: usize = 2;
/// Maximum number of non-targetable remembered unit tokens.
pub const REMEMBERED_UNIT_FEATURE_TOKENS: usize = 32;
/// Number of scalar features in one point-candidate token.
pub const POINT_FEATURES: usize = 32;
/// Number of point tokens in exact point-candidate order.
pub const POINT_FEATURE_TOKENS: usize = 48;
/// Number of scalar features in one ability token.
pub const ABILITY_FEATURES: usize = 24;
/// Number of fixed own hero and courier ability tokens.
pub const ABILITY_FEATURE_TOKENS: usize = 14;
/// Number of scalar features in one item token.
pub const ITEM_FEATURES: usize = 28;
/// Number of fixed own inventory and shop item tokens.
pub const ITEM_FEATURE_TOKENS: usize = 85;
/// Number of scalar features in one projectile token.
pub const PROJECTILE_FEATURES: usize = 20;
/// Number of fixed projectile tokens.
pub const PROJECTILE_FEATURE_TOKENS: usize = 32;
/// Number of scalar features in one loot token.
pub const LOOT_FEATURES: usize = 16;
/// Number of fixed loot tokens.
pub const LOOT_FEATURE_TOKENS: usize = 16;
/// Number of scalar local map-context features.
pub const MAP_FEATURES: usize = 96;

/// Bits of the single-precision number one.
pub const ONE_BITS: u32 = 0x3f80_0000;
/// Bits of negative zero in single precision.
pub const NEGATIVE_ZERO_BITS: u32 = 0x8000_0000;

/// Whether single-precision bits denote a finite number: their exponent is not all ones.
pub open spec fn finite32(bits: u32) -> bool {
    bits / 0x80_0000 % 0x100 != 0xff
}

/// Whether single-precision bits denote a finite number.
pub fn is_finite32(bits: u32) -> (r: bool)
    ensures
        r == finite32(bits),
{
    bits / 0x80_0000 % 0x100 != 0xff
}

/// Whether single-precision bits denote zero of either sign.
pub open spec fn zero32(bits: u32) -> bool {
    bits == 0 || bits == NEGATIVE_ZERO_BITS
}

/// Whether double-precision bits denote a finite number.
pub open spec fn finite64(bits: u64) -> bool {
    bits / 0x10_0000_0000_0000 % 0x800 != 0x7ff
}

/// Whether double-precision bits denote a finite number.
pub fn is_finite64(bits: u64) -> (r: bool)
    ensures
        r == finite64(bits),
{
    bits / 0x10_0000_0000_0000 % 0x800 != 0x7ff
}

/// Snapshot and timers that a frame was encoded from.
#[derive(Debug)]
pub struct FeatureFrameProvenance {
    pub tracker: TrackerProvenance,
    pub tick: u32,
    pub readiness: ItemReadiness,
}

/// One fixed-shape policy input frame.
#[derive(Debug)]
pub struct FeatureFrame {
    pub provenance: Option<FeatureFrameProvenance>,
    pub global: Vec<u32>,
    pub history: Vec<Vec<u32>>,
    pub policy_history: Vec<Vec<u32>>,
    pub units: Vec<Vec<u32>>,
    pub own_units: Vec<Vec<u32>>,
    pub remembered_units: Vec<Vec<u32>>,
    pub points: Vec<Vec<u32>>,
    pub abilities: Vec<Vec<u32>>,
    pub items: Vec<Vec<u32>>,
    pub projectiles: Vec<Vec<u32>>,
    pub loot: Vec<Vec<u32>>,
    pub map: Vec<u32>,
}

/// Whether every entry of a row is finite.
pub open spec fn row_finite(row: Seq<u32>) -> bool {
    forall|i: int| 0 <= i < row.len() ==> finite32(#[trigger] row[i])
}

/// Whether every entry of every row is finite.
pub open spec fn table_finite(table: Seq<Vec<u32>>) -> bool {
    forall|i: int| 0 <= i < table.len() ==> row_finite((#[trigger] table[i])@)
}

/// Table of zeros with a fixed shape.
pub open spec fn zero_table(table: Seq<Vec<u32>>, rows: nat, width: nat) -> bool {
    &&& table.len() == rows
    &&& forall|i: int| 0 <= i < rows ==> zero_row((#[trigger] table[i])@, width)
}

pub open spec fn zero_row(row: Seq<u32>, width: nat) -> bool {
    row.len() == width && forall|i: int| 0 <= i < width ==> #[trigger] row[i] == 0
}

fn check_row(row: &Vec<u32>) -> (r: bool)
    ensures
        r == row_finite(row@),
{
    let mut index: usize = 0;
    while index < row.len()
        invariant
            index <= row@.len(),
            forall|i: int| 0 <= i < index ==> finite32(#[trigger] row@[i]),
        decreases row@.len() - index,
    {
        if !is_finite32(row[index]) {
            assert(!finite32(row@[index as int]));
            return false;
        }
        index += 1;
    }
    true
}

fn check_table(table: &Vec<Vec<u32>>) -> (r: bool)
    ensures
        r == table_finite(table@),
{
    let mut index: usize = 0;
    while index < table.len()
        invariant
            index <= table@.len(),
            forall|i: int| 0 <= i < index ==> row_finite((#[trigger] table@[i])@),
        decreases table@.len() - index,
    {
        if !check_row(&table[index]) {
            assert(!row_finite(table@[index as int]@));
            return false;
        }
        index += 1;
    }
    true
}

fn zeros(width: usize) -> (row: Vec<u32>)
    ensures
        zero_row(row@, width as nat),
{
    let mut row: Vec<u32> = Vec::new();
    row.resize(width, 0);
    row
}

fn zero_rows(rows: usize, width: usize) -> (table: Vec<Vec<u32>>)
    ensures
        zero_table(table@, rows as nat, width as nat),
{
    let mut table: Vec<Vec<u32>> = Vec::new();
    while table.len() < rows
        invariant
            table@.len() <= rows,
            forall|i: int| 0 <= i < table@.len() ==> zero_row((#[trigger] table@[i])@, width as nat),
        decreases rows - table@.len(),
    {
        table.push(zeros(width));
    }
    table
}

impl FeatureFrame {
    /// Fixed shape of every part of a frame.
    pub open spec fn is_zero(self) -> bool {
        &&& self.provenance is None
        &&& zero_row(self.global@, 64)
        &&& zero_table(self.history@, 7, 24)
        &&& zero_table(self.policy_history@, 16, 4)
        &&& zero_table(self.units@, 96, 69)
        &&& zero_table(self.own_units@, 2, 69)
        &&& zero_table(self.remembered_units@, 32, 69)
        &&& zero_table(self.points@, 48, 32)
        &&& zero_table(self.abilities@, 14, 24)
        &&& zero_table(self.items@, 85, 28)
        &&& zero_table(self.projectiles@, 32, 20)
        &&& zero_table(self.loot@, 16, 16)
        &&& zero_row(self.map@, 96)
    }

    /// The global features have their fixed width.
    pub open spec fn wf(self) -> bool {
        self.global@.len() == GLOBAL_FEATURES
    }

    /// Whether every scalar in the frame is finite.
    pub open spec fn finite(self) -> bool {
        &&& row_finite(self.global@)
        &&& table_finite(self.history@)
        &&& table_finite(self.policy_history@)
        &&& table_finite(self.units@)
        &&& table_finite(self.own_units@)
        &&& table_finite(self.remembered_units@)
        &&& table_finite(self.points@)
        &&& table_finite(self.abilities@)
        &&& table_finite(self.items@)
        &&& table_finite(self.projectiles@)
        &&& table_finite(self.loot@)
        &&& row_finite(self.map@)
    }

    /// Whether the frame was encoded from the snapshot and timers of an action space.
    pub open spec fn belongs_to(self, space: ActionSpace) -> bool {
        self.provenance matches Some(provenance) && provenance.tracker == space.context.provenance
            && provenance.tick == space.context.tick && provenance.readiness.same(
            space.context.readiness,
        )
    }

    /// Creates a zeroed fixed-shape frame.
    pub fn new() -> (frame: Self)
        ensures
            frame.is_zero(),
            frame.wf(),
    {
        FeatureFrame {
            provenance: None,
            global: zeros(GLOBAL_FEATURES),
            history: zero_rows(HISTORY_SAMPLES, HISTORY_FEATURES),
            policy_history: zero_rows(MAX_POLICY_HISTORY, POLICY_HISTORY_FEATURES),
            units: zero_rows(UNIT_FEATURE_TOKENS, UNIT_FEATURES),
            own_units: zero_rows(OWN_UNIT_FEATURE_TOKENS, UNIT_FEATURES),
            remembered_units: zero_rows(REMEMBERED_UNIT_FEATURE_TOKENS, UNIT_FEATURES),
            points: zero_rows(POINT_FEATURE_TOKENS, POINT_FEATURES),
            abilities: zero_rows(ABILITY_FEATURE_TOKENS, ABILITY_FEATURES),
            items: zero_rows(ITEM_FEATURE_TOKENS, ITEM_FEATURES),
            projectiles: zero_rows(PROJECTILE_FEATURE_TOKENS, PROJECTILE_FEATURES),
            loot: zero_rows(LOOT_FEATURE_TOKENS, LOOT_FEATURES),
            map: zeros(MAP_FEATURES),
        }
    }

    /// Whether every scalar in the frame is finite.
    pub fn is_finite(&self) -> (r: bool)
        ensures
            r == self.finite(),
    {
        check_row(&self.global) && check_table(&self.history) && check_table(&self.policy_history)
            && check_table(&self.units) && check_table(&self.own_units) && check_table(
            &self.remembered_units,
        ) && check_table(&self.points) && check_table(&self.abilities) && check_table(&self.items)
            && check_table(&self.projectiles) && check_table(&self.loot) && check_row(&self.map)
    }

    /// Whether the frame was encoded from the snapshot and timers of an action space.
    pub fn matches_action_space(&self, space: &ActionSpace) -> (r: bool)
        ensures
            r == self.belongs_to(*space),
    {
        match &self.provenance {
            Some(provenance) => provenance.tracker == space.context.provenance && provenance.tick
                == space.context.tick && provenance.readiness.is_same(&space.context.readiness),
            None => false,
        }
    }

    /// Marks the frame as encoded from the snapshot and timers of an action space.
    pub fn attribute(&mut self, space: &ActionSpace)
        ensures
            final(self).belongs_to(*space),
            *final(self) == (FeatureFrame { provenance: final(self).provenance, ..*old(self) }),
    {
        self.provenance =
        Some(
            FeatureFrameProvenance {
                tracker: space.context.provenance,
                tick: space.context.tick,
                readiness: space.context.readiness.duplicate(),
            },
        );
    }
}

/// Whether single-precision bits denote equal numbers: a value that is no number equals none, and
/// both zeros are equal.
pub open spec fn equal32(left: u32, right: u32) -> bool {
    (left == right && left % 0x8000_0000 <= 0x7f80_0000) || (zero32(left) && zero32(right))
}

/// Whether two rows hold equal numbers.
pub open spec fn rows_equal(left: Seq<u32>, right: Seq<u32>) -> bool {
    left.len() == right.len() && forall|i: int|
        0 <= i < left.len() ==> equal32(#[trigger] left[i], right[i])
}

/// Whether two tables hold equal numbers.
pub open spec fn tables_equal(left: Seq<Vec<u32>>, right: Seq<Vec<u32>>) -> bool {
    left.len() == right.len() && forall|i: int|
        0 <= i < left.len() ==> rows_equal((#[trigger] left[i])@, right[i]@)
}

fn is_equal32(left: u32, right: u32) -> (r: bool)
    ensures
        r == equal32(left, right),
{
    (left == right && left % 0x8000_0000 <= 0x7f80_0000) || ((left == 0 || left
        == NEGATIVE_ZERO_BITS) && (right == 0 || right == NEGATIVE_ZERO_BITS))
}

fn same_row(left: &Vec<u32>, right: &Vec<u32>) -> (r: bool)
    ensures
        r == rows_equal(left@, right@),
{
    if left.len() != right.len() {
        return false;
    }
    let mut index: usize = 0;
    while index < left.len()
        invariant
            index <= left@.len(),
            left@.len() == right@.len(),
            forall|i: int| 0 <= i < index ==> equal32(#[trigger] left@[i], right@[i]),
        decreases left@.len() - index,
    {
        if !is_equal32(left[index], right[index]) {
            assert(!equal32(left@[index as int], right@[index as int]));
            return false;
        }
        index += 1;
    }
    true
}

fn same_table(left: &Vec<Vec<u32>>, right: &Vec<Vec<u32>>) -> (r: bool)
    ensures
        r == tables_equal(left@, right@),
{
    if left.len() != right.len() {
        return false;
    }
    let mut index: usize = 0;
    while index < left.len()
        invariant
            index <= left@.len(),
            left@.len() == right@.len(),
            forall|i: int| 0 <= i < index ==> rows_equal((#[trigger] left@[i])@, right@[i]@),
        decreases left@.len() - index,
    {
        if !same_row(&left[index], &right[index]) {
            assert(!rows_equal(left@[index as int]@, right@[index as int]@));
            return false;
        }
        index += 1;
    }
    true
}

impl FeatureFrame {
    /// Whether two frames hold equal numbers, wherever they were encoded.
    pub open spec fn equal(self, other: FeatureFrame) -> bool {
        &&& rows_equal(self.global@, other.global@)
        &&& tables_equal(self.history@, other.history@)
        &&& tables_equal(self.policy_history@, other.policy_history@)
        &&& tables_equal(self.units@, other.units@)
        &&& tables_equal(self.own_units@, other.own_units@)
        &&& tables_equal(self.remembered_units@, other.remembered_units@)
        &&& tables_equal(self.points@, other.points@)
        &&& tables_equal(self.abilities@, other.abilities@)
        &&& tables_equal(self.items@, other.items@)
        &&& tables_equal(self.projectiles@, other.projectiles@)
        &&& tables_equal(self.loot@, other.loot@)
        &&& rows_equal(self.map@, other.map@)
    }

    /// Global scalar features in stable schema order.
    pub fn global(&self) -> (r: &Vec<u32>)
        ensures
            *r == self.global,
    {
        &self.global
    }

    /// Global-history samples in oldest-to-newest schema order.
    pub fn history(&self) -> (r: &Vec<Vec<u32>>)
        ensures
            *r == self.history,
    {
        &self.history
    }

    /// Local policy-history samples in newest-first encoded order.
    pub fn policy_history(&self) -> (r: &Vec<Vec<u32>>)
        ensures
            *r == self.policy_history,
    {
        &self.policy_history
    }

    /// Current unit tokens in exact entity-pointer order.
    pub fn units(&self) -> (r: &Vec<Vec<u32>>)
        ensures
            *r == self.units,
    {
        &self.units
    }

    /// Fixed own hero and courier unit tokens.
    pub fn own_units(&self) -> (r: &Vec<Vec<u32>>)
        ensures
            *r == self.own_units,
    {
        &self.own_units
    }

    /// Non-targetable remembered unit tokens.
    pub fn remembered_units(&self) -> (r: &Vec<Vec<u32>>)
        ensures
            *r == self.remembered_units,
    {
        &self.remembered_units
    }

    /// Point tokens in exact point-pointer order.
    pub fn points(&self) -> (r: &Vec<Vec<u32>>)
        ensures
            *r == self.points,
    {
        &self.points
    }

    /// Fixed own-body ability tokens.
    pub fn abilities(&self) -> (r: &Vec<Vec<u32>>)
        ensures
            *r == self.abilities,
    {
        &self.abilities
    }

    /// Fixed inventory and shop item tokens.
    pub fn items(&self) -> (r: &Vec<Vec<u32>>)
        ensures
            *r == self.items,
    {
        &self.items
    }

    /// Current projectile tokens in deterministic semantic order.
    pub fn projectiles(&self) -> (r: &Vec<Vec<u32>>)
        ensures
            *r == self.projectiles,
    {
        &self.projectiles
    }

    /// Current loot tokens in exact loot-pointer order.
    pub fn loot(&self) -> (r: &Vec<Vec<u32>>)
        ensures
            *r == self.loot,
    {
        &self.loot
    }

    /// Fixed local map-context scalars.
    pub fn map(&self) -> (r: &Vec<u32>)
        ensures
            *r == self.map,
    {
        &self.map
    }
}

impl PartialEq for FeatureFrame {
    fn eq(&self, other: &FeatureFrame) -> (r: bool) {
        same_row(&self.global, &other.global) && same_table(&self.history, &other.history)
            && same_table(&self.policy_history, &other.policy_history) && same_table(
            &self.units,
            &other.units,
        ) && same_table(&self.own_units, &other.own_units) && same_table(
            &self.remembered_units,
            &other.remembered_units,
        ) && same_table(&self.points, &other.points) && same_table(
            &self.abilities,
            &other.abilities,
        ) && same_table(&self.items, &other.items) && same_table(
            &self.projectiles,
            &other.projectiles,
        ) && same_table(&self.loot, &other.loot) && same_row(&self.map, &other.map)
    }
}

impl vstd::std_specs::cmp::PartialEqSpecImpl for FeatureFrame {
    open spec fn obeys_eq_spec() -> bool {
        true
    }

    open spec fn eq_spec(&self, other: &FeatureFrame) -> bool {
        self.equal(*other)
    }
}

impl Default for FeatureFrame {
    fn default() -> (frame: Self)
        ensures
            frame.is_zero(),
            frame.wf(),
    {
        FeatureFrame::new()
    }
}

/// A zeroed frame is finite.
pub proof fn zero_frame_is_finite(frame: FeatureFrame)
    requires
        frame.is_zero(),
    ensures
        frame.finite(),
{
    assert(finite32(0));
}

} // verus!
