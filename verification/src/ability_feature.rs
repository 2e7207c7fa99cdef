//! Stable indices in each ability token.
use vstd::prelude::*;

verus! {

pub const TOKEN_PRESENT: usize = 0;

pub const BODY_TOKEN: usize = 1;

pub const SEMANTIC_SLOT_TOKEN: usize = 2;

pub const OBSERVATION_PRESENT: usize = 3;

pub const ID_PRESENT: usize = 4;

pub const ID_TOKEN: usize = 5;

pub const LEVEL: usize = 6;

pub const MAX_LEVEL: usize = 7;

pub const COOLDOWN: usize = 8;

pub const MANA_COST: usize = 9;

pub const RANGE: usize = 10;

pub const AIM_TOKEN: usize = 11;

pub const PASSIVE: usize = 12;

pub const TOGGLE_ON: usize = 13;

pub const CAN_LEVEL: usize = 14;

pub const LEGAL: usize = 15;

pub const LAST_CAST_PRESENT: usize = 16;

pub const LAST_CAST_AGE: usize = 17;

pub const SCOREBOARD_KIT_SOURCE: usize = 18;

} // verus!
