//! Stable indices in each ground-loot token.
use vstd::prelude::*;

verus! {

pub const TOKEN_PRESENT: usize = 0;

pub const ITEM_TOKEN: usize = 1;

pub const CHARGES_PRESENT: usize = 2;

pub const CHARGES: usize = 3;

pub const RELATIVE_X: usize = 4;

pub const RELATIVE_Y: usize = 5;

pub const DIRECT_DISTANCE: usize = 6;

pub const PATH_DISTANCE_PRESENT: usize = 7;

pub const PATH_DISTANCE: usize = 8;

pub const VISIBLE_AGE_PRESENT: usize = 9;

pub const VISIBLE_AGE: usize = 10;

pub const ORIGIN_PRESENT: usize = 11;

} // verus!
