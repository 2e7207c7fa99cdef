//! Stable indices in each point-candidate token.
use vstd::prelude::*;

verus! {

pub const TOKEN_PRESENT: usize = 0;

pub const POINTER_VALID: usize = 1;

pub const POSITION_X: usize = 2;

pub const POSITION_Y: usize = 3;

pub const ORIGIN_PRESENT: usize = 4;

pub const RELATIVE_X: usize = 5;

pub const RELATIVE_Y: usize = 6;

pub const DISTANCE: usize = 7;

pub const DIRECTION_X: usize = 8;

pub const DIRECTION_Y: usize = 9;

pub const SOURCE_TOKEN: usize = 10;

pub const SOURCE_DIRECTION_PRESENT: usize = 11;

pub const SOURCE_DIRECTION_TOKEN: usize = 12;

pub const SOURCE_RADIUS_PRESENT: usize = 13;

pub const SOURCE_RADIUS: usize = 14;

pub const SOURCE_KIND_PRESENT: usize = 15;

pub const SOURCE_KIND_TOKEN: usize = 16;

pub const SOURCE_RELATION_PRESENT: usize = 17;

pub const SOURCE_RELATION_START: usize = 18;

pub const WALKABLE: usize = 22;

pub const STANDING_TREE: usize = 23;

pub const ALLIED_BUILDING: usize = 24;

} // verus!
