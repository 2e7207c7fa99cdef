//! Stable indices in each item token.
use vstd::prelude::*;

verus! {

pub const TOKEN_PRESENT: usize = 0;

pub const LOCATION_TOKEN: usize = 1;

pub const SLOT_TOKEN: usize = 2;

pub const ITEM_PRESENT: usize = 3;

pub const ITEM_TOKEN: usize = 4;

pub const CHARGES_PRESENT: usize = 5;

pub const CHARGES: usize = 6;

pub const COOLDOWN: usize = 7;

pub const AIM_PRESENT: usize = 8;

pub const AIM_TOKEN: usize = 9;

pub const RANGE: usize = 10;

pub const MANA_COST: usize = 11;

pub const ATTRIBUTE_PRESENT: usize = 12;

pub const ATTRIBUTE_TOKEN: usize = 13;

pub const FOR_SALE: usize = 14;

pub const MUTED: usize = 15;

pub const VALUE_PRESENT: usize = 16;

pub const VALUE: usize = 17;

pub const RECIPE_COMPONENT: usize = 18;

pub const COMPOSITE: usize = 19;

pub const LEGAL: usize = 20;

pub const SHOP_CANDIDATE: usize = 21;

pub const MUTE_REMAINING_PRESENT: usize = 22;

pub const MUTE_REMAINING: usize = 23;

pub const SHARED_WAIT_PRESENT: usize = 24;

pub const SHARED_WAIT_REMAINING: usize = 25;

pub const SCOREBOARD_KIT_SOURCE: usize = 26;

} // verus!
