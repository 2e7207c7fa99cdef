//! Stable indices in the global feature vector.
use vstd::prelude::*;

verus! {

pub const TICK: usize = 0;

pub const PREGAME_PROGRESS: usize = 1;

pub const WAVE_PHASE: usize = 2;

pub const JUNGLE_PHASE: usize = 3;

pub const SIDE_RADIANT: usize = 4;

pub const SIDE_DIRE: usize = 5;

pub const MAP_ZERO: usize = 6;

pub const MAP_ONE: usize = 7;

pub const SEAT_COUNT: usize = 8;

pub const ROLE_PRESENT: usize = 9;

pub const ROLE_TOKEN: usize = 10;

pub const LANE_PRESENT: usize = 11;

pub const LANE_TOKEN: usize = 12;

pub const KILL_ADVANTAGE: usize = 13;

pub const DEATH_ADVANTAGE: usize = 14;

pub const ASSIST_ADVANTAGE: usize = 15;

pub const XP_ADVANTAGE: usize = 16;

pub const LEVEL_ADVANTAGE: usize = 17;

pub const LAST_HIT_ADVANTAGE: usize = 18;

pub const DENY_ADVANTAGE: usize = 19;

pub const OWN_GOLD: usize = 20;

pub const OWN_ASSET_VALUE: usize = 21;

pub const RESPAWN_PRESENT: usize = 22;

pub const RESPAWN_LEFT: usize = 23;

pub const OWN_ALIVE: usize = 24;

pub const ALLIED_ALIVE_HEROES: usize = 25;

pub const ENEMY_ALIVE_HEROES: usize = 26;

pub const ALLIED_STRUCTURE_HP: usize = 27;

pub const ENEMY_STRUCTURE_HP: usize = 28;

pub const DESTROYED_STRUCTURES_PRESENT: usize = 29;

pub const DESTROYED_STRUCTURES: usize = 30;

pub const ACTIVE_ORDER_PRESENT: usize = 31;

pub const ACTIVE_ORDER_KIND: usize = 32;

pub const ACTIVE_ORDER_AGE: usize = 33;

pub const LAST_DECISION_PRESENT: usize = 34;

pub const TICKS_SINCE_DECISION: usize = 35;

pub const SNAPSHOT_DAMAGE_DEALT: usize = 36;

pub const SNAPSHOT_DAMAGE_TAKEN: usize = 37;

pub const OWN_LEVEL: usize = 38;

pub const OWN_XP: usize = 39;

pub const OWN_KILLS: usize = 40;

pub const OWN_DEATHS: usize = 41;

pub const OWN_ASSISTS: usize = 42;

pub const OWN_LAST_HITS: usize = 43;

pub const OWN_DENIES: usize = 44;

pub const VISIBLE_ALLIED_UNITS: usize = 45;

pub const VISIBLE_ENEMY_UNITS: usize = 46;

pub const ENEMY_SCOREBOARD_ENABLED: usize = 47;

} // verus!
