//! One seat's validated snapshot: static map data, the current view, and tracked history.
use crate::action::ControlledUnit;
use crate::search::{first_index, lemma_first_from_found, lemma_first_from_none};
use crate::world::{
    AbilityId, DamageKind, EntityId, ItemId, ItemSlot, MapId, PlayerSlot, PlayerView, ShopEntry,
    Team, UnitView, Vec2, WorldView,
};
use vstd::prelude::*;

verus! {

/// World units along one side of a terrain cell.
pub const TERRAIN_CELL_SIZE: i32 = 64;
/// Raw fixed-point units along one side of a terrain cell.
pub const TERRAIN_CELL_RAW: i64 = 4_194_304;
/// Largest terrain axis whose extent fits a fixed-point coordinate.
pub const MAX_TERRAIN_AXIS: u32 = 512;
/// Bag slots of a hero.
pub const HERO_ITEM_SLOTS: usize = 9;
/// Slots of the stash.
pub const STASH_ITEM_SLOTS: usize = 6;
/// Bag slots of a courier.
pub const COURIER_ITEM_SLOTS: usize = 6;
/// Ability slots considered on any unit.
pub const MAX_ABILITY_SLOTS: usize = 8;
/// Ground items in one view.
pub const MAX_LOOT: usize = 16;
/// Projectiles in one view.
pub const MAX_PROJECTILES: usize = 32;
/// Items the shop can sell.
pub const MAX_SHOP_ITEMS: usize = 64;
/// Point candidates in one action space.
pub const MAX_POINT_CANDIDATES: usize = 48;
/// Entity candidates in one action space.
pub const UNIT_TOKENS: usize = 96;
/// Global-history samples.
pub const HISTORY_SAMPLES: usize = 7;
/// Ticks covered by the global history.
pub const HISTORY_TICKS: u32 = 480;
/// Terrain bit of a cell a unit can stand on.
pub const TERRAIN_WALKABLE: u8 = 0x80;

/// Static facts about the match.
#[derive(Clone, Copy, Debug, PartialEq, Eq, Structural)]
pub struct MatchMetadata {
    pub map: MapId,
    pub seats: u8,
    pub tick_rate: u16,
    pub pregame_ticks: u32,
    pub terrain_cells: u32,
}

/// Position change of a unit between its two latest observations.
#[derive(Clone, Copy, Debug, PartialEq, Eq, Structural)]
pub struct Velocity {
    pub delta: Vec2,
    pub elapsed_ticks: u32,
}

#[derive(Clone, Copy, Debug, PartialEq, Eq, Structural)]
pub struct DamageRecord {
    pub tick: u32,
    pub amount: i32,
    pub kind: DamageKind,
    pub crit: bool,
}

#[derive(Clone, Copy, Debug, PartialEq, Eq, Structural)]
pub struct CastRecord {
    pub tick: u32,
    pub ability: AbilityId,
}

/// Latest observation of one entity and the changes that led to it.
#[derive(Debug)]
pub struct EntityTrack {
    pub id: EntityId,
    pub unit: UnitView,
    pub last_seen_tick: u32,
    pub velocity: Option<Velocity>,
    pub hp_delta: i64,
    pub mana_delta: i64,
    pub last_damage_dealt: Option<DamageRecord>,
    pub last_damage_taken: Option<DamageRecord>,
    pub last_ability_cast: Option<CastRecord>,
    pub last_attack_landed: Option<u32>,
}

/// Public score of one side.
#[derive(Clone, Copy, Debug, PartialEq, Eq, Structural)]
pub struct TeamScore {
    pub kills: u64,
    pub deaths: u64,
    pub assists: u64,
    pub xp: i64,
    pub levels: u64,
    pub last_hits: u64,
    pub denies: u64,
}

/// Whole-map summary sampled at one tick.
#[derive(Clone, Copy, Debug, PartialEq, Eq, Structural)]
pub struct GlobalSummary {
    pub tick: u32,
    pub allied: TeamScore,
    pub enemy: TeamScore,
    pub allied_structure_hp: i64,
    pub enemy_structure_hp: i64,
    pub destroyed_structures_present: bool,
    pub allied_structures_destroyed: u32,
    pub enemy_structures_destroyed: u32,
    pub visible_allied_units: u32,
    pub visible_enemy_units: u32,
    pub own_hp_present: bool,
    pub own_hp: i32,
    pub own_max_hp: i32,
    pub own_mana_present: bool,
    pub own_mana: i32,
    pub own_max_mana: i32,
    pub own_level: u8,
    pub own_gold: i32,
    pub own_respawn_left: u32,
}

/// Event kinds that later decisions read.
#[derive(Clone, Copy, Debug, PartialEq, Eq)]
pub enum ObservedKind {
    Damaged {
        source: Option<EntityId>,
        target: EntityId,
        amount: i32,
        kind: DamageKind,
        crit: bool,
    },
    AbilityCast { caster: EntityId, ability: AbilityId },
    Other,
}

#[derive(Clone, Copy, Debug, PartialEq, Eq)]
pub struct ObservedEvent {
    pub tick: u32,
    pub kind: ObservedKind,
}

/// Identity of one tracker state.
#[derive(Clone, Copy, Debug, PartialEq, Eq, Structural)]
pub struct TrackerProvenance {
    pub lineage: u64,
    pub revision: u64,
}

/// Seat-specific state that actions and features are built from.
#[derive(Debug)]
pub struct StateTracker {
    pub provenance: TrackerProvenance,
    pub slot: PlayerSlot,
    pub team: Team,
    pub metadata: MatchMetadata,
    /// Terrain as runs of equal cells in row order.
    pub terrain_rle: Vec<(u16, u8)>,
    /// Cells that block sight, as column and row.
    pub opaque_cells: Vec<(u16, u16)>,
    pub static_trees: Vec<Vec2>,
    pub shop: Vec<ShopEntry>,
    pub current: Option<WorldView>,
    /// Position of the own hero among the current units.
    pub own_hero: Option<usize>,
    /// Position of the own courier among the current units.
    pub own_courier: Option<usize>,
    /// Position of the own row among the current players.
    pub own_player: Option<usize>,
    /// Cells in which the own seat can see tree changes, as column and row.
    pub observable_cells: Vec<(u16, u16)>,
    pub entities: Vec<EntityTrack>,
    pub history: [GlobalSummary; HISTORY_SAMPLES],
    pub events: Vec<ObservedEvent>,
}

/// Cells covered by a run-length list.
pub open spec fn run_total(runs: Seq<(u16, u8)>) -> nat
    decreases runs.len(),
{
    if runs.len() == 0 {
        0
    } else {
        run_total(runs.drop_last()) + runs.last().0 as nat
    }
}

/// Cell values of a run-length list in order.
pub open spec fn run_cells(runs: Seq<(u16, u8)>) -> Seq<u8>
    decreases runs.len(),
{
    if runs.len() == 0 {
        Seq::empty()
    } else {
        run_cells(runs.drop_last()) + Seq::new(runs.last().0 as nat, |i: int| runs.last().1)
    }
}

pub proof fn lemma_run_cells_len(runs: Seq<(u16, u8)>)
    ensures
        run_cells(runs).len() == run_total(runs),
    decreases runs.len(),
{
    if runs.len() > 0 {
        lemma_run_cells_len(runs.drop_last());
    }
}

pub proof fn lemma_run_total_prefix(runs: Seq<(u16, u8)>, count: int)
    requires
        0 <= count <= runs.len(),
    ensures
        run_total(runs.subrange(0, count)) <= run_total(runs),
    decreases runs.len() - count,
{
    if count < runs.len() {
        lemma_run_total_prefix(runs, count + 1);
        assert(runs.subrange(0, count + 1).drop_last() =~= runs.subrange(0, count));
    } else {
        assert(runs.subrange(0, count) =~= runs);
    }
}

/// Terrain cell of a map position on a square grid.
pub open spec fn cell_of_spec(axis: int, position: Vec2) -> Option<(int, int)> {
    let x = position.x.raw as int / 65_536 / 64;
    let y = position.y.raw as int / 65_536 / 64;
    if position.x.raw < 0 || position.y.raw < 0 || x >= axis || y >= axis {
        None
    } else {
        Some((x, y))
    }
}

/// Terrain cell of a map position on a square grid.
pub fn cell_of(axis: usize, position: Vec2) -> (r: Option<(usize, usize)>)
    ensures
        match r {
            Some((x, y)) => cell_of_spec(axis as int, position) == Some((x as int, y as int)) && x
                < axis && y < axis,
            None => cell_of_spec(axis as int, position) is None,
        },
{
    if position.x.raw < 0 || position.y.raw < 0 {
        return None;
    }
    let cell_x: usize = (position.x.to_int() / TERRAIN_CELL_SIZE) as usize;
    let cell_y: usize = (position.y.to_int() / TERRAIN_CELL_SIZE) as usize;
    if cell_x < axis && cell_y < axis {
        Some((cell_x, cell_y))
    } else {
        None
    }
}

/// Whether every unit stands on the map.
pub open spec fn units_on_map(units: Seq<UnitView>) -> bool {
    forall|i: int| 0 <= i < units.len() ==> (#[trigger] units[i]).pos.on_map()
}

impl StateTracker {
    pub open spec fn axis(self) -> int {
        self.metadata.terrain_cells as int
    }

    /// Static data agree with each other, and own positions lie inside the current view.
    pub open spec fn wf(self) -> bool {
        &&& 1 <= self.metadata.terrain_cells <= MAX_TERRAIN_AXIS
        &&& run_total(self.terrain_rle@) == self.axis() * self.axis()
        &&& forall|i: int|
            0 <= i < self.opaque_cells@.len() ==> (#[trigger] self.opaque_cells@[i]).0
                < self.metadata.terrain_cells && self.opaque_cells@[i].1
                < self.metadata.terrain_cells
        &&& match self.current {
            Some(view) => {
                &&& self.own_hero matches Some(i) ==> i < view.units@.len()
                &&& self.own_courier matches Some(i) ==> i < view.units@.len()
                &&& self.own_player matches Some(i) ==> {
                    &&& i < view.players@.len()
                    &&& view.players@[i as int].stash matches Some(stash) ==> stash@.len()
                        <= STASH_ITEM_SLOTS
                }
            },
            None => true,
        }
    }

    fn terrain_fits(&self) -> (r: bool)
        requires
            1 <= self.metadata.terrain_cells <= MAX_TERRAIN_AXIS,
        ensures
            r == (run_total(self.terrain_rle@) == self.axis() * self.axis()),
    {
        let axis: u64 = self.metadata.terrain_cells as u64;
        proof {
            assert(1 <= axis * axis <= 512 * 512) by (nonlinear_arith)
                requires
                    1 <= axis <= 512,
            ;
        }
        let area: u64 = axis * axis;
        let ghost runs = self.terrain_rle@;
        let mut total: u64 = 0;
        let mut index: usize = 0;
        assert(runs.subrange(0, 0) =~= Seq::<(u16, u8)>::empty());
        while index < self.terrain_rle.len()
            invariant
                index <= runs.len(),
                runs == self.terrain_rle@,
                area == self.axis() * self.axis(),
                total <= area <= 512 * 512,
                total == run_total(runs.subrange(0, index as int)),
            decreases runs.len() - index,
        {
            proof {
                assert(runs.subrange(0, index + 1).drop_last() =~= runs.subrange(0, index as int));
                lemma_run_total_prefix(runs, index + 1);
            }
            total = total + self.terrain_rle[index].0 as u64;
            if total > area {
                return false;
            }
            index += 1;
        }
        assert(runs.subrange(0, runs.len() as int) =~= runs);
        total == area
    }

    fn opaque_cells_fit(&self) -> (r: bool)
        ensures
            r == forall|i: int|
                0 <= i < self.opaque_cells@.len() ==> (#[trigger] self.opaque_cells@[i]).0
                    < self.metadata.terrain_cells && self.opaque_cells@[i].1
                    < self.metadata.terrain_cells,
    {
        let mut index: usize = 0;
        while index < self.opaque_cells.len()
            invariant
                index <= self.opaque_cells@.len(),
                forall|i: int|
                    0 <= i < index ==> (#[trigger] self.opaque_cells@[i]).0
                        < self.metadata.terrain_cells && self.opaque_cells@[i].1
                        < self.metadata.terrain_cells,
            decreases self.opaque_cells@.len() - index,
        {
            let (x, y) = self.opaque_cells[index];
            if x as u32 >= self.metadata.terrain_cells || y as u32 >= self.metadata.terrain_cells {
                assert(!(self.opaque_cells@[index as int].0 < self.metadata.terrain_cells
                    && self.opaque_cells@[index as int].1 < self.metadata.terrain_cells));
                return false;
            }
            index += 1;
        }
        true
    }

    /// Checks that static data agree with each other and own positions lie inside the view.
    pub fn is_well_formed(&self) -> (r: bool)
        ensures
            r == self.wf(),
    {
        if self.metadata.terrain_cells < 1 || self.metadata.terrain_cells > MAX_TERRAIN_AXIS
            || !self.terrain_fits() || !self.opaque_cells_fit() {
            return false;
        }
        let view = match &self.current {
            Some(view) => view,
            None => {
                return true;
            },
        };
        let hero = match self.own_hero {
            Some(index) => index < view.units.len(),
            None => true,
        };
        let courier = match self.own_courier {
            Some(index) => index < view.units.len(),
            None => true,
        };
        let player = match self.own_player {
            Some(index) => index < view.players.len() && match &view.players[index].stash {
                Some(stash) => stash.len() <= STASH_ITEM_SLOTS,
                None => true,
            },
            None => true,
        };
        hero && courier && player
    }

    pub open spec fn view_spec(self) -> WorldView {
        self.current->0
    }

    pub open spec fn hero_spec(self) -> Option<UnitView> {
        match (self.current, self.own_hero) {
            (Some(view), Some(i)) => Some(view.units@[i as int]),
            _ => None,
        }
    }

    pub open spec fn courier_spec(self) -> Option<UnitView> {
        match (self.current, self.own_courier) {
            (Some(view), Some(i)) => Some(view.units@[i as int]),
            _ => None,
        }
    }

    pub open spec fn player_spec(self) -> Option<PlayerView> {
        match (self.current, self.own_player) {
            (Some(view), Some(i)) => Some(view.players@[i as int]),
            _ => None,
        }
    }

    /// Own body the seat looks out from: the hero, else the courier.
    pub open spec fn origin_spec(self) -> Option<Vec2> {
        match self.hero_spec() {
            Some(unit) => Some(unit.pos),
            None => match self.courier_spec() {
                Some(unit) => Some(unit.pos),
                None => None,
            },
        }
    }

    /// Own hero in the current view.
    pub fn hero(&self) -> (r: Option<&UnitView>)
        requires
            self.wf(),
        ensures
            match r {
                Some(unit) => self.hero_spec() == Some(*unit),
                None => self.hero_spec() is None,
            },
    {
        match (&self.current, self.own_hero) {
            (Some(view), Some(index)) => Some(&view.units[index]),
            _ => None,
        }
    }

    /// Own courier in the current view.
    pub fn courier(&self) -> (r: Option<&UnitView>)
        requires
            self.wf(),
        ensures
            match r {
                Some(unit) => self.courier_spec() == Some(*unit),
                None => self.courier_spec() is None,
            },
    {
        match (&self.current, self.own_courier) {
            (Some(view), Some(index)) => Some(&view.units[index]),
            _ => None,
        }
    }

    /// Own scoreboard row in the current view.
    pub fn player(&self) -> (r: Option<&PlayerView>)
        requires
            self.wf(),
        ensures
            match r {
                Some(row) => self.player_spec() == Some(*row),
                None => self.player_spec() is None,
            },
    {
        match (&self.current, self.own_player) {
            (Some(view), Some(index)) => Some(&view.players[index]),
            _ => None,
        }
    }

    /// Position of the own hero, or of the own courier without a hero.
    pub fn own_origin(&self) -> (r: Option<Vec2>)
        requires
            self.wf(),
        ensures
            r == self.origin_spec(),
    {
        match self.hero() {
            Some(unit) => Some(unit.pos),
            None => match self.courier() {
                Some(unit) => Some(unit.pos),
                None => None,
            },
        }
    }

    /// Index of the track of an entity.
    pub open spec fn track_index(self, id: EntityId) -> Option<int> {
        first_index(self.entities@, |track: EntityTrack| track.id == id)
    }

    pub open spec fn track_spec(self, id: EntityId) -> Option<EntityTrack> {
        match self.track_index(id) {
            Some(i) => Some(self.entities@[i]),
            None => None,
        }
    }

    /// Track of an entity, if it is tracked.
    pub fn entity(&self, id: EntityId) -> (r: Option<&EntityTrack>)
        ensures
            match r {
                Some(track) => self.track_spec(id) == Some(*track),
                None => self.track_spec(id) is None,
            },
    {
        let ghost test = |track: EntityTrack| track.id == id;
        let mut index: usize = 0;
        while index < self.entities.len()
            invariant
                index <= self.entities@.len(),
                test == (|track: EntityTrack| track.id == id),
                forall|j: int| 0 <= j < index ==> !test(#[trigger] self.entities@[j]),
            decreases self.entities@.len() - index,
        {
            if self.entities[index].id == id {
                proof {
                    lemma_first_from_found(self.entities@, test, 0, index as int);
                }
                return Some(&self.entities[index]);
            }
            index += 1;
        }
        proof {
            lemma_first_from_none(self.entities@, test, 0);
        }
        None
    }

    /// Whether the own seat can see tree changes at a position.
    pub open spec fn observable(self, position: Vec2) -> bool {
        match cell_of_spec(self.axis(), position) {
            Some((x, y)) => exists|i: int|
                0 <= i < self.observable_cells@.len() && (#[trigger] self.observable_cells@[i]).0
                    == x && self.observable_cells@[i].1 == y,
            None => false,
        }
    }

    /// Whether the own seat can see tree changes at a position.
    pub fn is_observable(&self, position: Vec2) -> (r: bool)
        requires
            self.wf(),
        ensures
            r == self.observable(position),
    {
        let cell = cell_of(self.metadata.terrain_cells as usize, position);
        let (x, y) = match cell {
            Some(cell) => cell,
            None => {
                return false;
            },
        };
        let mut index: usize = 0;
        while index < self.observable_cells.len()
            invariant
                index <= self.observable_cells@.len(),
                cell_of_spec(self.axis(), position) == Some((x as int, y as int)),
                forall|j: int|
                    0 <= j < index ==> !((#[trigger] self.observable_cells@[j]).0 == x
                        && self.observable_cells@[j].1 == y),
            decreases self.observable_cells@.len() - index,
        {
            let (cell_x, cell_y) = self.observable_cells[index];
            if cell_x as usize == x && cell_y as usize == y {
                assert(self.observable_cells@[index as int].0 == x);
                return true;
            }
            index += 1;
        }
        false
    }
}

/// Timer that mutes one inventory slot of a controlled unit.
#[derive(Clone, Copy, Debug, PartialEq, Eq, Structural)]
pub struct MuteTimer {
    pub unit: ControlledUnit,
    pub slot: ItemSlot,
    pub until: u32,
}

/// Timer that makes one item of a controlled unit wait.
#[derive(Clone, Copy, Debug, PartialEq, Eq, Structural)]
pub struct WaitTimer {
    pub unit: ControlledUnit,
    pub item: ItemId,
    pub until: u32,
}

/// Locally recorded item timers.
#[derive(Debug)]
pub struct ItemReadiness {
    pub mutes: Vec<MuteTimer>,
    pub waits: Vec<WaitTimer>,
}

/// Ticks left of a timer.
pub open spec fn ticks_left(until: u32, tick: u32) -> u32 {
    if until > tick {
        (until - tick) as u32
    } else {
        0
    }
}

impl ItemReadiness {
    /// Same timers in the same order.
    pub open spec fn same(self, other: ItemReadiness) -> bool {
        self.mutes@ == other.mutes@ && self.waits@ == other.waits@
    }

    /// No recorded timers.
    pub fn new() -> (r: Self)
        ensures
            r.mutes@.len() == 0,
            r.waits@.len() == 0,
    {
        ItemReadiness { mutes: Vec::new(), waits: Vec::new() }
    }

    pub open spec fn mute_left_spec(
        self,
        unit: ControlledUnit,
        slot: ItemSlot,
        tick: u32,
    ) -> Option<u32> {
        match first_index(self.mutes@, |t: MuteTimer| t.unit == unit && t.slot == slot) {
            Some(i) => Some(ticks_left(self.mutes@[i].until, tick)),
            None => None,
        }
    }

    pub open spec fn wait_left_spec(
        self,
        unit: ControlledUnit,
        item: ItemId,
        tick: u32,
    ) -> Option<u32> {
        match first_index(self.waits@, |t: WaitTimer| t.unit == unit && t.item == item) {
            Some(i) => Some(ticks_left(self.waits@[i].until, tick)),
            None => None,
        }
    }

    /// Whether an inventory slot is still muted.
    pub open spec fn muted(self, unit: ControlledUnit, slot: ItemSlot, tick: u32) -> bool {
        self.mute_left_spec(unit, slot, tick) matches Some(left) && left > 0
    }

    /// Whether an item still waits on its shared timer.
    pub open spec fn waiting(self, unit: ControlledUnit, item: ItemId, tick: u32) -> bool {
        self.wait_left_spec(unit, item, tick) matches Some(left) && left > 0
    }

    /// Ticks for which an inventory slot stays muted, if a timer is recorded for it.
    pub fn inventory_mute_left(&self, unit: ControlledUnit, slot: ItemSlot, tick: u32) -> (r:
        Option<u32>)
        ensures
            r == self.mute_left_spec(unit, slot, tick),
    {
        let ghost test = |t: MuteTimer| t.unit == unit && t.slot == slot;
        let mut index: usize = 0;
        while index < self.mutes.len()
            invariant
                index <= self.mutes@.len(),
                test == (|t: MuteTimer| t.unit == unit && t.slot == slot),
                forall|j: int| 0 <= j < index ==> !test(#[trigger] self.mutes@[j]),
            decreases self.mutes@.len() - index,
        {
            let timer = self.mutes[index];
            if timer.unit == unit && timer.slot == slot {
                proof {
                    lemma_first_from_found(self.mutes@, test, 0, index as int);
                }
                return Some(timer.until.saturating_sub(tick));
            }
            index += 1;
        }
        proof {
            lemma_first_from_none(self.mutes@, test, 0);
        }
        None
    }

    /// Ticks for which an item waits on its shared timer, if one is recorded for it.
    pub fn shared_wait_left(&self, unit: ControlledUnit, item: ItemId, tick: u32) -> (r: Option<
        u32,
    >)
        ensures
            r == self.wait_left_spec(unit, item, tick),
    {
        let ghost test = |t: WaitTimer| t.unit == unit && t.item == item;
        let mut index: usize = 0;
        while index < self.waits.len()
            invariant
                index <= self.waits@.len(),
                test == (|t: WaitTimer| t.unit == unit && t.item == item),
                forall|j: int| 0 <= j < index ==> !test(#[trigger] self.waits@[j]),
            decreases self.waits@.len() - index,
        {
            let timer = self.waits[index];
            if timer.unit == unit && timer.item == item {
                proof {
                    lemma_first_from_found(self.waits@, test, 0, index as int);
                }
                return Some(timer.until.saturating_sub(tick));
            }
            index += 1;
        }
        proof {
            lemma_first_from_none(self.waits@, test, 0);
        }
        None
    }

    pub fn inventory_muted(&self, unit: ControlledUnit, slot: ItemSlot, tick: u32) -> (r: bool)
        ensures
            r == self.muted(unit, slot, tick),
    {
        match self.inventory_mute_left(unit, slot, tick) {
            Some(left) => left > 0,
            None => false,
        }
    }

    pub fn shared_waiting(&self, unit: ControlledUnit, item: ItemId, tick: u32) -> (r: bool)
        ensures
            r == self.waiting(unit, item, tick),
    {
        match self.shared_wait_left(unit, item, tick) {
            Some(left) => left > 0,
            None => false,
        }
    }

    /// Owned copy with the same timers.
    pub fn duplicate(&self) -> (r: Self)
        ensures
            r.same(*self),
    {
        ItemReadiness {
            mutes: crate::world::copy_vec(&self.mutes),
            waits: crate::world::copy_vec(&self.waits),
        }
    }

    /// Whether two recordings hold the same timers.
    pub fn is_same(&self, other: &Self) -> (r: bool)
        ensures
            r == self.same(*other),
    {
        if self.mutes.len() != other.mutes.len() || self.waits.len() != other.waits.len() {
            return false;
        }
        let mut index: usize = 0;
        while index < self.mutes.len()
            invariant
                index <= self.mutes@.len(),
                self.mutes@.len() == other.mutes@.len(),
                forall|j: int| 0 <= j < index ==> self.mutes@[j] == other.mutes@[j],
            decreases self.mutes@.len() - index,
        {
            if self.mutes[index] != other.mutes[index] {
                return false;
            }
            index += 1;
        }
        assert(self.mutes@ =~= other.mutes@);
        index = 0;
        while index < self.waits.len()
            invariant
                index <= self.waits@.len(),
                self.waits@.len() == other.waits@.len(),
                forall|j: int| 0 <= j < index ==> self.waits@[j] == other.waits@[j],
            decreases self.waits@.len() - index,
        {
            if self.waits[index] != other.waits[index] {
                return false;
            }
            index += 1;
        }
        assert(self.waits@ =~= other.waits@);
        true
    }
}

} // verus!
