//! Stable indices in each projectile token.
use vstd::prelude::*;

verus! {

pub const TOKEN_PRESENT: usize = 0;

pub const RELATION_START: usize = 1;

pub const ABILITY_PRESENT: usize = 5;

pub const ABILITY_TOKEN: usize = 6;

pub const RELATIVE_X: usize = 7;

pub const RELATIVE_Y: usize = 8;

pub const FACING: usize = 9;

pub const VELOCITY_PRESENT: usize = 10;

pub const VELOCITY_X: usize = 11;

pub const VELOCITY_Y: usize = 12;

pub const AGE_PRESENT: usize = 13;

pub const AGE: usize = 14;

pub const CLOSEST_APPROACH_PRESENT: usize = 15;

pub const CLOSEST_APPROACH: usize = 16;

pub const ORIGIN_PRESENT: usize = 17;

} // verus!
