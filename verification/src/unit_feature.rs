//! Stable indices in each unit token.
use vstd::prelude::*;

verus! {

pub const TOKEN_PRESENT: usize = 0;

pub const RELATION_START: usize = 1;

pub const KIND_TOKEN: usize = 5;

pub const OWNER_START: usize = 6;

pub const OWNER_PRESENT: usize = 9;

pub const OBSERVATION_PRESENT: usize = 10;

pub const VISIBLE: usize = 11;

pub const REMEMBERED: usize = 12;

pub const ORIGIN_PRESENT: usize = 13;

pub const AGE: usize = 14;

pub const POSITION_X: usize = 15;

pub const POSITION_Y: usize = 16;

pub const RELATIVE_X: usize = 17;

pub const RELATIVE_Y: usize = 18;

pub const DISTANCE: usize = 19;

pub const DIRECTION_X: usize = 20;

pub const DIRECTION_Y: usize = 21;

pub const FACING: usize = 22;

pub const RADIUS: usize = 23;

pub const VELOCITY_PRESENT: usize = 24;

pub const VELOCITY_X: usize = 25;

pub const VELOCITY_Y: usize = 26;

pub const HP_PRESENT: usize = 27;

pub const ELEVATION: usize = 28;

pub const WALKABLE: usize = 29;

pub const HP_RATIO: usize = 30;

pub const MANA_PRESENT: usize = 31;

pub const MANA_RATIO: usize = 32;

pub const HP_DELTA_PRESENT: usize = 33;

pub const HP_DELTA: usize = 34;

pub const MANA_DELTA_PRESENT: usize = 35;

pub const MANA_DELTA: usize = 36;

pub const ATTACK_DAMAGE: usize = 37;

pub const ATTACK_RANGE: usize = 38;

pub const ATTACK_INTERVAL: usize = 39;

pub const ATTACK_SPEED: usize = 40;

pub const MOVE_SPEED: usize = 41;

pub const ARMOR: usize = 42;

pub const MAGIC_RESISTANCE: usize = 43;

pub const VISION: usize = 44;

pub const TRUE_SIGHT: usize = 45;

pub const ATTACKS_TO_KILL_PRESENT: usize = 46;

pub const ATTACKS_TO_KILL: usize = 47;

pub const TIME_TO_REACH_PRESENT: usize = 48;

pub const TIME_TO_REACH: usize = 49;

pub const OWN_IN_ATTACK_RANGE: usize = 50;

pub const UNIT_IN_ATTACK_RANGE: usize = 51;

pub const STATUS_START: usize = 52;

pub const RECENT_DAMAGE_TAKEN: usize = 61;

pub const RECENT_DAMAGE_DEALT_PRESENT: usize = 62;

pub const RECENT_DAMAGE_DEALT: usize = 63;

pub const ATTACK_PHASE_PRESENT: usize = 64;

pub const ATTACK_PHASE: usize = 65;

pub const ITEM_SLOT_COUNT: usize = 66;

pub const FREE_ITEM_SLOTS: usize = 67;

pub const ITEM_CAPACITY_AVAILABLE: usize = 68;

} // verus!
