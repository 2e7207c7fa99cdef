//! Stable indices in each global-history sample.
use vstd::prelude::*;

verus! {

pub const SAMPLE_PRESENT: usize = 0;

pub const AGE: usize = 1;

pub const HP_PRESENT: usize = 2;

pub const HP_RATIO: usize = 3;

pub const MANA_PRESENT: usize = 4;

pub const MANA_RATIO: usize = 5;

pub const OWN_LEVEL: usize = 6;

pub const OWN_GOLD: usize = 7;

pub const OWN_ALIVE: usize = 8;

pub const RESPAWN_LEFT: usize = 9;

pub const VISIBLE_ALLIED_UNITS: usize = 10;

pub const VISIBLE_ENEMY_UNITS: usize = 11;

pub const XP_ADVANTAGE: usize = 12;

pub const LEVEL_ADVANTAGE: usize = 13;

pub const KILL_ADVANTAGE: usize = 14;

pub const DEATH_ADVANTAGE: usize = 15;

pub const ASSIST_ADVANTAGE: usize = 16;

pub const LAST_HIT_ADVANTAGE: usize = 17;

pub const DENY_ADVANTAGE: usize = 18;

pub const ALLIED_STRUCTURE_HP: usize = 19;

pub const ENEMY_STRUCTURE_HP: usize = 20;

pub const DESTROYED_STRUCTURES_PRESENT: usize = 21;

pub const DESTROYED_STRUCTURES: usize = 22;

pub const ENEMY_SCOREBOARD_ENABLED: usize = 23;

} // verus!
