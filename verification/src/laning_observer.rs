//! Measurements of one seat's laning stream.
use crate::laning::{
    center_of, hero_index, in_reach, is_below_percent, is_lane_creep, lane_center, lane_creep,
    least, least_position, own_hero, reaches, validate_view, view_fault, below_percent,
    LaningError, LANING_TICKS,
};
use crate::search::{first_index, lemma_first_from_found, lemma_first_from_none};
use crate::tracker::ObservedKind;
use crate::world::{
    AbilityId, AbilityView, DamageKind, EntityId, PlayerView, Team, UnitKind, UnitView, Vec2,
    WorldView,
};
use std::collections::BTreeMap;
use vstd::prelude::*;

verus! {

/// Events in one laning batch.
pub const LANING_EVENTS: usize = 4096;
/// Remembered hero handles.
pub const LANING_HEROES: usize = 128;

/// Per-seat observations; damage comes from events alone.
#[derive(Clone, Copy, Debug, Default, PartialEq, Eq)]
pub struct LaningMetrics {
    pub hero_damage: u64,
    pub hero_magical_damage: u64,
    pub hero_damage_taken: u64,
    pub hero_physical_hits: u32,
    pub hero_magical_hits: u32,
    pub unit_physical_hits: u32,
    pub confirmed_casts: u32,
    pub first_center_tick: Option<u32>,
    pub phase_ticks: u32,
    pub phase_alive_ticks: u32,
    pub phase_xp_ticks: u32,
    pub healthy_behind_tower_ticks: u32,
    pub last_hits: u16,
    pub denies: u16,
    pub deaths: u16,
    pub rejections: u32,
    pub winner: Option<Team>,
}

/// One message of a seat's stream.
#[derive(Debug)]
pub enum LaningMessage {
    Snapshot { view: WorldView },
    Events { tick: u32, events: Vec<ObservedKind> },
    OrderRejected,
    MatchOver { winner: Team },
    Other,
}

/// A single fogged seat stream; feeding a second copy of a tick is an error.
#[derive(Debug, Default)]
pub struct LaningObserver {
    pub slot: u8,
    pub view: Option<WorldView>,
    pub pending: bool,
    /// Seat of every hero handle seen so far.
    pub heroes: BTreeMap<u64, u8>,
    /// Own abilities whose cooldown rose with the latest snapshot.
    pub resets: Vec<AbilityId>,
    pub center: Option<Vec2>,
    pub tower: Option<Vec2>,
    pub last_damage: Option<u32>,
    pub metrics: LaningMetrics,
}

/// Contents of an observer.
pub struct ObserverView {
    pub slot: u8,
    pub view: Option<WorldView>,
    pub pending: bool,
    pub heroes: Map<u64, u8>,
    pub resets: Seq<AbilityId>,
    pub center: Option<Vec2>,
    pub tower: Option<Vec2>,
    pub last_damage: Option<u32>,
    pub metrics: LaningMetrics,
}

impl View for LaningObserver {
    type V = ObserverView;

    open spec fn view(&self) -> ObserverView {
        ObserverView {
            slot: self.slot,
            view: self.view,
            pending: self.pending,
            heroes: self.heroes@,
            resets: self.resets@,
            center: self.center,
            tower: self.tower,
            last_damage: self.last_damage,
            metrics: self.metrics,
        }
    }
}

/// Hero handles after a scoreboard.
pub open spec fn heroes_after(heroes: Map<u64, u8>, players: Seq<PlayerView>) -> Map<u64, u8>
    decreases players.len(),
{
    if players.len() == 0 {
        heroes
    } else {
        let rest = heroes_after(heroes, players.drop_last());
        match players.last().unit {
            Some(id) => rest.insert(id.0, players.last().slot.0),
            None => rest,
        }
    }
}

/// Cooldown an ability had before.
pub open spec fn cooldown_before(previous: Option<UnitView>, id: AbilityId) -> u32 {
    match previous {
        Some(hero) => match first_index(hero.abilities@, |held: AbilityView| held.id == id) {
            Some(i) => hero.abilities@[i].cooldown_left,
            None => 0,
        },
        None => 0,
    }
}

/// Active abilities whose cooldown rose.
pub open spec fn risen(abilities: Seq<AbilityView>, previous: Option<UnitView>) -> Seq<AbilityId>
    decreases abilities.len(),
{
    if abilities.len() == 0 {
        Seq::empty()
    } else {
        let rest = risen(abilities.drop_last(), previous);
        let ability = abilities.last();
        if !ability.passive && ability.cooldown_left > cooldown_before(previous, ability.id) {
            rest.push(ability.id)
        } else {
            rest
        }
    }
}

/// Own hero of an optional view.
pub open spec fn hero_in(view: Option<WorldView>, slot: u8) -> Option<UnitView> {
    match view {
        Some(known) => match hero_index(known, slot) {
            Some(i) => Some(known.units@[i]),
            None => None,
        },
        None => None,
    }
}

/// Distance key of a tower of the viewer.
pub open spec fn tower_key(view: WorldView, center: Vec2, unit: UnitView) -> Option<(i128, u64)> {
    if unit.kind == UnitKind::Tower && Some(unit.team) == view.viewer {
        Some((center.distance2(unit.pos) as i128, 0u64))
    } else {
        None
    }
}

pub open spec fn tower_keys(view: WorldView, center: Vec2) -> Seq<Option<(i128, u64)>> {
    view.units@.map_values(|unit: UnitView| tower_key(view, center, unit))
}

/// Viewer's tower nearest to the lane center.
pub open spec fn nearest_tower(view: WorldView, center: Vec2) -> Option<Vec2> {
    match least(tower_keys(view, center)) {
        Some(i) => Some(view.units@[i].pos),
        None => None,
    }
}

/// Whether events count toward the laning phase.
pub open spec fn in_phase(tick: u32) -> bool {
    3000 <= tick <= 6000
}

/// Whether an enemy lane creep gives experience to a hero.
pub open spec fn near_enemy_creep(view: WorldView, hero: UnitView) -> bool {
    exists|i: int| 0 <= i < view.units@.len() && gives_experience(hero, #[trigger] view.units@[i])
}

pub open spec fn gives_experience(hero: UnitView, unit: UnitView) -> bool {
    is_lane_creep(unit) && unit.team != hero.team && reaches(hero.pos, unit.pos, 98_304_000)
}

/// Progress of a position along the lane.
pub open spec fn progress(position: Vec2) -> int {
    position.x.raw + position.y.raw
}

/// Whether a hero stands more than 300 world units behind a tower of its side.
pub open spec fn behind(hero: UnitView, tower: Option<Vec2>) -> bool {
    match tower {
        Some(position) => (if hero.team == Team::Radiant {
            progress(position) - progress(hero.pos)
        } else {
            progress(hero.pos) - progress(position)
        }) > 19_660_800,
        None => false,
    }
}

pub open spec fn one_if(condition: bool) -> int {
    if condition {
        1
    } else {
        0
    }
}

impl ObserverView {
    /// Tick of the latest snapshot.
    pub open spec fn latest(self) -> int {
        match self.view {
            Some(view) => view.tick as int,
            None => 0,
        }
    }

    /// Snapshots whose events are complete, at most.
    pub open spec fn completed(self) -> int {
        self.latest() - one_if(self.pending)
    }

    /// The latest view was accepted, and no count can exceed what its ticks allow.
    pub open spec fn wf(self) -> bool {
        &&& self.slot < 2
        &&& match self.view {
            Some(view) => view_fault(view, self.slot) is None
                && self.center is Some,
            None => !self.pending && self.tower is None,
        }
        &&& self.last_damage matches Some(tick) ==> tick <= self.latest()
        &&& metrics_bounded(self.metrics, self.completed(), 0)
    }

    /// Observer after an accepted snapshot, or what a refused one leaves and why.
    pub open spec fn after_snapshot(self, view: WorldView) -> (ObserverView, Option<LaningError>) {
        let heroes = heroes_after(self.heroes, view.players@);
        let resets = match hero_in(Some(view), self.slot) {
            Some(hero) => risen(hero.abilities@, hero_in(self.view, self.slot)),
            None => Seq::empty(),
        };
        if view_fault(view, self.slot) is Some {
            (self, view_fault(view, self.slot))
        } else if self.pending || self.latest() >= view.tick {
            (self, Some(LaningError::SnapshotOrder))
        } else if heroes.len() > LANING_HEROES {
            (ObserverView { heroes, ..self }, Some(LaningError::HeroHistory))
        } else if self.tower is None && center_of(view) is None {
            (ObserverView { heroes, resets, ..self }, Some(LaningError::Geometry))
        } else {
            (
                ObserverView {
                    heroes,
                    resets,
                    center: if self.tower is None {
                        center_of(view)
                    } else {
                        self.center
                    },
                    tower: if self.tower is None {
                        nearest_tower(view, center_of(view)->0)
                    } else {
                        self.tower
                    },
                    view: Some(view),
                    pending: true,
                    ..self
                },
                None,
            )
        }
    }

    /// Seat of a hero handle.
    pub open spec fn seat_of(self, id: EntityId) -> Option<u8> {
        if self.heroes.dom().contains(id.0) {
            Some(self.heroes[id.0])
        } else {
            None
        }
    }

    /// Observer after damage of a positive amount.
    pub open spec fn after_damage(
        self,
        tick: u32,
        source: Option<EntityId>,
        target: EntityId,
        amount: i32,
        kind: DamageKind,
    ) -> ObserverView {
        let attacker = match source {
            Some(id) => self.seat_of(id),
            None => None,
        };
        let victim = self.seat_of(target);
        let m = self.metrics;
        let own_victim = victim == Some(self.slot);
        let own_attack = attacker == Some(self.slot) && !own_victim;
        let own_hero_hit = own_attack && victim is Some;
        let physical = kind == DamageKind::Physical;
        let magical = kind == DamageKind::Magical;
        ObserverView {
            last_damage: if own_victim {
                Some(tick)
            } else {
                self.last_damage
            },
            metrics: LaningMetrics {
                hero_damage_taken: (m.hero_damage_taken + if own_victim && attacker is Some
                    && attacker != Some(self.slot) {
                    amount as int
                } else {
                    0
                }) as u64,
                unit_physical_hits: (m.unit_physical_hits + one_if(own_attack && physical)) as u32,
                hero_damage: (m.hero_damage + if own_hero_hit {
                    amount as int
                } else {
                    0
                }) as u64,
                hero_physical_hits: (m.hero_physical_hits + one_if(
                    own_hero_hit && physical,
                )) as u32,
                hero_magical_damage: (m.hero_magical_damage + if own_hero_hit && magical {
                    amount as int
                } else {
                    0
                }) as u64,
                hero_magical_hits: (m.hero_magical_hits + one_if(own_hero_hit && magical)) as u32,
                ..m
            },
            ..self
        }
    }

    /// Observer after one event.
    pub open spec fn after_event(self, tick: u32, event: ObservedKind) -> ObserverView {
        match event {
            ObservedKind::Damaged { source, target, amount, kind, .. } => if amount > 0 {
                self.after_damage(tick, source, target, amount, kind)
            } else {
                self
            },
            ObservedKind::AbilityCast { caster, ability } => match first_index(
                self.resets,
                |id: AbilityId| id == ability,
            ) {
                Some(i) => if self.seat_of(caster) == Some(self.slot) {
                    ObserverView {
                        resets: self.resets.update(i, self.resets.last()).drop_last(),
                        metrics: LaningMetrics {
                            confirmed_casts: (self.metrics.confirmed_casts + 1) as u32,
                            ..self.metrics
                        },
                        ..self
                    }
                } else {
                    self
                },
                None => self,
            },
            ObservedKind::Other => self,
        }
    }

    /// Observer after the first events of a batch.
    pub open spec fn after_events(self, tick: u32, events: Seq<ObservedKind>) -> ObserverView
        decreases events.len(),
    {
        if events.len() == 0 {
            self
        } else {
            self.after_events(tick, events.drop_last()).after_event(tick, events.last())
        }
    }

    /// Observer after the measurements of a completed snapshot.
    pub open spec fn sampled(self) -> ObserverView {
        let view = self.view->0;
        let player = view.players@[self.slot as int];
        let m = self.metrics;
        let phase = in_phase(view.tick);
        let base = LaningMetrics {
            last_hits: player.last_hits,
            denies: player.denies,
            deaths: player.deaths,
            phase_ticks: (m.phase_ticks + one_if(phase)) as u32,
            ..m
        };
        let living = match hero_in(self.view, self.slot) {
            Some(hero) => hero.hp > 0,
            None => false,
        };
        if !living {
            ObserverView { metrics: base, ..self }
        } else {
            let hero = hero_in(self.view, self.slot)->0;
            let centered = LaningMetrics {
                first_center_tick: if m.first_center_tick is None && reaches(
                    hero.pos,
                    self.center->0,
                    98_304_000,
                ) {
                    Some(view.tick)
                } else {
                    m.first_center_tick
                },
                ..base
            };
            if !phase {
                ObserverView { metrics: centered, ..self }
            } else {
                let quiet = match self.last_damage {
                    Some(tick) => view.tick - tick > 90,
                    None => true,
                };
                ObserverView {
                    metrics: LaningMetrics {
                        phase_alive_ticks: (m.phase_alive_ticks + 1) as u32,
                        phase_xp_ticks: (m.phase_xp_ticks + one_if(
                            near_enemy_creep(view, hero),
                        )) as u32,
                        healthy_behind_tower_ticks: (m.healthy_behind_tower_ticks + one_if(
                            behind(hero, self.tower) && !below_percent(hero.hp, hero.max_hp, 60)
                                && quiet,
                        )) as u32,
                        ..centered
                    },
                    ..self
                }
            }
        }
    }

    /// Why a batch of events is refused.
    pub open spec fn events_fault(self, tick: u32, count: int) -> Option<LaningError> {
        if !self.pending || self.view is None || self.view->0.tick != tick {
            Some(LaningError::EventsOrder)
        } else if count > LANING_EVENTS {
            Some(LaningError::EventBatch)
        } else {
            None
        }
    }

    /// Observer after a message, and why it was refused.
    pub open spec fn after(self, message: LaningMessage) -> (ObserverView, Option<LaningError>) {
        match message {
            LaningMessage::Snapshot { view } => self.after_snapshot(view),
            LaningMessage::Events { tick, events } => match self.events_fault(
                tick,
                events@.len() as int,
            ) {
                Some(error) => (self, Some(error)),
                None => (
                    ObserverView {
                        pending: false,
                        ..self.after_events(tick, events@).sampled()
                    },
                    None,
                ),
            },
            LaningMessage::OrderRejected => (
                ObserverView {
                    metrics: LaningMetrics {
                        rejections: (self.metrics.rejections + 1) as u32,
                        ..self.metrics
                    },
                    ..self
                },
                None,
            ),
            LaningMessage::MatchOver { winner } => (
                ObserverView {
                    metrics: LaningMetrics { winner: Some(winner), ..self.metrics },
                    ..self
                },
                None,
            ),
            LaningMessage::Other => (self, None),
        }
    }
}

/// Whether counts fit the complete ticks and the events of the current one.
pub open spec fn metrics_bounded(m: LaningMetrics, ticks: int, events: int) -> bool {
    let total = ticks * 4096 + events;
    &&& m.hero_damage <= total * 0x7fff_ffff
    &&& m.hero_magical_damage <= total * 0x7fff_ffff
    &&& m.hero_damage_taken <= total * 0x7fff_ffff
    &&& m.hero_physical_hits <= total
    &&& m.hero_magical_hits <= total
    &&& m.unit_physical_hits <= total
    &&& m.confirmed_casts <= total
    &&& m.phase_ticks <= ticks
    &&& m.phase_alive_ticks <= ticks
    &&& m.phase_xp_ticks <= ticks
    &&& m.healthy_behind_tower_ticks <= ticks
}

fn find_cooldown(previous: Option<&UnitView>, id: AbilityId) -> (r: u32)
    ensures
        r == cooldown_before(
            match previous {
                Some(hero) => Some(*hero),
                None => None,
            },
            id,
        ),
{
    let hero = match previous {
        Some(hero) => hero,
        None => {
            return 0;
        },
    };
    let ghost test = |held: AbilityView| held.id == id;
    let mut index: usize = 0;
    while index < hero.abilities.len()
        invariant
            index <= hero.abilities@.len(),
            previous == Some(hero),
            test == (|held: AbilityView| held.id == id),
            forall|i: int| 0 <= i < index ==> !test(#[trigger] hero.abilities@[i]),
        decreases hero.abilities@.len() - index,
    {
        if hero.abilities[index].id == id {
            proof {
                lemma_first_from_found(hero.abilities@, test, 0, index as int);
            }
            return hero.abilities[index].cooldown_left;
        }
        index += 1;
    }
    proof {
        lemma_first_from_none(hero.abilities@, test, 0);
    }
    0
}

fn find_risen(hero: &UnitView, previous: Option<&UnitView>) -> (r: Vec<AbilityId>)
    ensures
        r@ == risen(
            hero.abilities@,
            match previous {
                Some(held) => Some(*held),
                None => None,
            },
        ),
{
    let ghost known = match previous {
        Some(held) => Some(*held),
        None => None,
    };
    let mut output: Vec<AbilityId> = Vec::new();
    let mut index: usize = 0;
    assert(hero.abilities@.take(0) =~= Seq::<AbilityView>::empty());
    while index < hero.abilities.len()
        invariant
            index <= hero.abilities@.len(),
            known == (match previous {
                Some(held) => Some(*held),
                None => None,
            }),
            output@ == risen(hero.abilities@.take(index as int), known),
        decreases hero.abilities@.len() - index,
    {
        let ability = hero.abilities[index];
        proof {
            assert(hero.abilities@.take(index + 1).drop_last() =~= hero.abilities@.take(
                index as int,
            ));
            assert(hero.abilities@.take(index + 1).last() == ability);
        }
        if !ability.passive && ability.cooldown_left > find_cooldown(previous, ability.id) {
            output.push(ability.id);
        }
        index += 1;
    }
    assert(hero.abilities@.take(hero.abilities@.len() as int) =~= hero.abilities@);
    output
}

fn find_tower(view: &WorldView, center: Vec2) -> (r: Option<Vec2>)
    ensures
        r == nearest_tower(*view, center),
{
    let mut keys: Vec<Option<(i128, u64)>> = Vec::new();
    let mut index: usize = 0;
    while index < view.units.len()
        invariant
            index <= view.units@.len(),
            keys@.len() == index,
            forall|i: int|
                0 <= i < index ==> #[trigger] keys@[i] == tower_key(*view, center, view.units@[i]),
        decreases view.units@.len() - index,
    {
        let unit = &view.units[index];
        let own = match view.viewer {
            Some(team) => team == unit.team,
            None => false,
        };
        if unit.kind == UnitKind::Tower && own {
            keys.push(Some((center.wide_distance(unit.pos), 0)));
        } else {
            keys.push(None);
        }
        index += 1;
    }
    assert(keys@ =~= tower_keys(*view, center));
    match least_position(&keys) {
        Some(found) => Some(view.units[found].pos),
        None => None,
    }
}

fn any_enemy_creep(view: &WorldView, hero: &UnitView) -> (r: bool)
    ensures
        r == near_enemy_creep(*view, *hero),
{
    let mut index: usize = 0;
    while index < view.units.len()
        invariant
            index <= view.units@.len(),
            forall|i: int| 0 <= i < index ==> !gives_experience(*hero, #[trigger] view.units@[i]),
        decreases view.units@.len() - index,
    {
        let unit = &view.units[index];
        if lane_creep(unit) && unit.team != hero.team && in_reach(hero.pos, unit.pos, 98_304_000) {
            assert(gives_experience(*hero, view.units@[index as int]));
            return true;
        }
        index += 1;
    }
    false
}

fn is_behind(hero: &UnitView, tower: Option<Vec2>) -> (r: bool)
    ensures
        r == behind(*hero, tower),
{
    match tower {
        None => false,
        Some(position) => {
            let goal: i64 = position.x.raw as i64 + position.y.raw as i64;
            let own: i64 = hero.pos.x.raw as i64 + hero.pos.y.raw as i64;
            let lead: i64 = if hero.team == Team::Radiant {
                goal - own
            } else {
                own - goal
            };
            lead > 19_660_800
        },
    }
}

impl LaningObserver {
    /// Observer of one of the two seats.
    pub fn new(slot: u8) -> (r: Self)
        requires
            slot < 2,
        ensures
            r@.wf(),
            r.slot == slot,
            r.view is None,
            !r.pending,
            r@.heroes == Map::<u64, u8>::empty(),
            r@.resets.len() == 0,
            r.center is None,
            r.tower is None,
            r.last_damage is None,
            r.metrics == (LaningMetrics {
                hero_damage: 0,
                hero_magical_damage: 0,
                hero_damage_taken: 0,
                hero_physical_hits: 0,
                hero_magical_hits: 0,
                unit_physical_hits: 0,
                confirmed_casts: 0,
                first_center_tick: None,
                phase_ticks: 0,
                phase_alive_ticks: 0,
                phase_xp_ticks: 0,
                healthy_behind_tower_ticks: 0,
                last_hits: 0,
                denies: 0,
                deaths: 0,
                rejections: 0,
                winner: None,
            }),
    {
        LaningObserver {
            slot,
            view: None,
            pending: false,
            heroes: BTreeMap::new(),
            resets: Vec::new(),
            center: None,
            tower: None,
            last_damage: None,
            metrics: LaningMetrics {
                hero_damage: 0,
                hero_magical_damage: 0,
                hero_damage_taken: 0,
                hero_physical_hits: 0,
                hero_magical_hits: 0,
                unit_physical_hits: 0,
                confirmed_casts: 0,
                first_center_tick: None,
                phase_ticks: 0,
                phase_alive_ticks: 0,
                phase_xp_ticks: 0,
                healthy_behind_tower_ticks: 0,
                last_hits: 0,
                denies: 0,
                deaths: 0,
                rejections: 0,
                winner: None,
            },
        }
    }

    /// Takes in one message of the stream.
    pub fn observe(&mut self, message: LaningMessage) -> (r: Result<(), LaningError>)
        requires
            old(self)@.wf(),
            message is OrderRejected ==> old(self).metrics.rejections < u32::MAX,
        ensures
            final(self)@.wf(),
            final(self)@ == old(self)@.after(message).0,
            match old(self)@.after(message).1 {
                Some(error) => r == Err::<(), LaningError>(error),
                None => r is Ok,
            },
    {
        match message {
            LaningMessage::Snapshot { view } => {
                return self.snapshot(view);
            },
            LaningMessage::Events { tick, events } => {
                return self.finish_tick(tick, &events);
            },
            LaningMessage::OrderRejected => {
                self.metrics.rejections = self.metrics.rejections + 1;
            },
            LaningMessage::MatchOver { winner } => {
                self.metrics.winner = Some(winner);
            },
            LaningMessage::Other => {},
        }
        Ok(())
    }

    fn note_heroes(&mut self, players: &Vec<PlayerView>)
        ensures
            final(self)@ == (ObserverView {
                heroes: heroes_after(old(self)@.heroes, players@),
                ..old(self)@
            }),
    {
        let ghost before = self@;
        let mut index: usize = 0;
        assert(players@.take(0) =~= Seq::<PlayerView>::empty());
        while index < players.len()
            invariant
                index <= players@.len(),
                self@ == (ObserverView {
                    heroes: heroes_after(before.heroes, players@.take(index as int)),
                    ..before
                }),
            decreases players@.len() - index,
        {
            proof {
                assert(players@.take(index + 1).drop_last() =~= players@.take(index as int));
                assert(players@.take(index + 1).last() == players@[index as int]);
            }
            match players[index].unit {
                Some(id) => {
                    self.heroes.insert(id.0, players[index].slot.0);
                },
                None => {},
            }
            index += 1;
        }
        assert(players@.take(players@.len() as int) =~= players@);
    }

    fn snapshot(&mut self, view: WorldView) -> (r: Result<(), LaningError>)
        requires
            old(self)@.wf(),
        ensures
            final(self)@.wf(),
            final(self)@ == old(self)@.after_snapshot(view).0,
            match old(self)@.after_snapshot(view).1 {
                Some(error) => r == Err::<(), LaningError>(error),
                None => r is Ok,
            },
    {
        match validate_view(&view, self.slot) {
            Some(error) => {
                return Err(error);
            },
            None => {},
        }
        let previous_tick = match &self.view {
            Some(previous) => previous.tick,
            None => 0,
        };
        if self.pending || previous_tick >= view.tick {
            return Err(LaningError::SnapshotOrder);
        }
        self.note_heroes(&view.players);
        if self.heroes.len() > LANING_HEROES {
            return Err(LaningError::HeroHistory);
        }
        let slot = self.slot;
        let resets = match own_hero(&view, slot) {
            Some(index) => {
                let previous = match &self.view {
                    Some(known) => match own_hero(known, slot) {
                        Some(held) => Some(&known.units[held]),
                        None => None,
                    },
                    None => None,
                };
                find_risen(&view.units[index], previous)
            },
            None => Vec::new(),
        };
        self.resets = resets;
        if self.tower.is_none() {
            let center = match lane_center(&view) {
                Some(center) => center,
                None => {
                    return Err(LaningError::Geometry);
                },
            };
            self.center = Some(center);
            self.tower = find_tower(&view, center);
        }
        self.view = Some(view);
        self.pending = true;
        Ok(())
    }

    fn seat(&self, id: EntityId) -> (r: Option<u8>)
        ensures
            r == self@.seat_of(id),
    {
        match self.heroes.get(&id.0) {
            Some(slot) => Some(*slot),
            None => None,
        }
    }

    fn damage(
        &mut self,
        tick: u32,
        source: Option<EntityId>,
        target: EntityId,
        amount: i32,
        kind: DamageKind,
        Ghost(ticks): Ghost<int>,
        Ghost(events): Ghost<int>,
    )
        requires
            amount > 0,
            0 <= ticks <= LANING_TICKS,
            0 <= events < LANING_EVENTS,
            metrics_bounded(old(self).metrics, ticks, events),
        ensures
            final(self)@ == old(self)@.after_damage(tick, source, target, amount, kind),
            metrics_bounded(final(self).metrics, ticks, events + 1),
    {
        let attacker = match source {
            Some(id) => self.seat(id),
            None => None,
        };
        let victim = self.seat(target);
        let own_victim = match victim {
            Some(slot) => slot == self.slot,
            None => false,
        };
        let own_attacker = match attacker {
            Some(slot) => slot == self.slot,
            None => false,
        };
        if own_victim {
            self.last_damage = Some(tick);
            if attacker.is_some() && !own_attacker {
                self.metrics.hero_damage_taken = self.metrics.hero_damage_taken + amount as u64;
            }
        }
        if own_attacker && !own_victim {
            if kind == DamageKind::Physical {
                self.metrics.unit_physical_hits = self.metrics.unit_physical_hits + 1;
            }
            if victim.is_some() {
                self.metrics.hero_damage = self.metrics.hero_damage + amount as u64;
                if kind == DamageKind::Physical {
                    self.metrics.hero_physical_hits = self.metrics.hero_physical_hits + 1;
                }
                if kind == DamageKind::Magical {
                    self.metrics.hero_magical_damage = self.metrics.hero_magical_damage
                        + amount as u64;
                    self.metrics.hero_magical_hits = self.metrics.hero_magical_hits + 1;
                }
            }
        }
    }

    fn event(
        &mut self,
        tick: u32,
        event: &ObservedKind,
        Ghost(ticks): Ghost<int>,
        Ghost(events): Ghost<int>,
    )
        requires
            0 <= ticks <= LANING_TICKS,
            0 <= events < LANING_EVENTS,
            metrics_bounded(old(self).metrics, ticks, events),
        ensures
            final(self)@ == old(self)@.after_event(tick, *event),
            metrics_bounded(final(self).metrics, ticks, events + 1),
    {
        match event {
            ObservedKind::Damaged { source, target, amount, kind, .. } => {
                if *amount > 0 {
                    self.damage(
                        tick,
                        *source,
                        *target,
                        *amount,
                        *kind,
                        Ghost(ticks),
                        Ghost(events),
                    );
                }
            },
            ObservedKind::AbilityCast { caster, ability } => {
                let own = match self.seat(*caster) {
                    Some(slot) => slot == self.slot,
                    None => false,
                };
                match find_reset(&self.resets, *ability) {
                    Some(index) => {
                        if own {
                            self.resets.swap_remove(index);
                            self.metrics.confirmed_casts = self.metrics.confirmed_casts + 1;
                        }
                    },
                    None => {},
                }
            },
            ObservedKind::Other => {},
        }
    }

    fn sample(&mut self, Ghost(events): Ghost<int>)
        requires
            old(self)@.view is Some,
            old(self)@.pending,
            old(self)@.slot < 2,
            view_fault(old(self)@.view->0, old(self)@.slot) is None,
            old(self)@.center is Some,
            old(self)@.last_damage matches Some(tick) ==> tick <= old(self)@.latest(),
            0 <= events <= LANING_EVENTS,
            metrics_bounded(old(self)@.metrics, old(self)@.completed(), events),
        ensures
            final(self)@ == old(self)@.sampled(),
            metrics_bounded(final(self)@.metrics, old(self)@.latest(), 0),
    {
        let slot = self.slot;
        let view = self.view.as_ref().unwrap();
        let player = &view.players[slot as usize];
        let mut metrics = self.metrics;
        metrics.last_hits = player.last_hits;
        metrics.denies = player.denies;
        metrics.deaths = player.deaths;
        let phase = 3000 <= view.tick && view.tick <= 6000;
        if phase {
            metrics.phase_ticks = metrics.phase_ticks + 1;
        }
        let found = own_hero(view, slot);
        let alive = match found {
            Some(index) => view.units[index].hp > 0,
            None => false,
        };
        if alive {
            let hero = &view.units[found.unwrap()];
            if metrics.first_center_tick.is_none() && in_reach(
                hero.pos,
                self.center.unwrap(),
                98_304_000,
            ) {
                metrics.first_center_tick = Some(view.tick);
            }
            if phase {
                metrics.phase_alive_ticks = metrics.phase_alive_ticks + 1;
                if any_enemy_creep(view, hero) {
                    metrics.phase_xp_ticks = metrics.phase_xp_ticks + 1;
                }
                let quiet = match self.last_damage {
                    Some(tick) => view.tick - tick > 90,
                    None => true,
                };
                if is_behind(hero, self.tower) && !is_below_percent(hero.hp, hero.max_hp, 60)
                    && quiet {
                    metrics.healthy_behind_tower_ticks = metrics.healthy_behind_tower_ticks + 1;
                }
            }
        }
        self.metrics = metrics;
    }

    fn finish_tick(&mut self, tick: u32, events: &Vec<ObservedKind>) -> (r: Result<(), LaningError>)
        requires
            old(self)@.wf(),
        ensures
            final(self)@.wf(),
            match old(self)@.events_fault(tick, events@.len() as int) {
                Some(error) => r == Err::<(), LaningError>(error) && final(self)@ == old(self)@,
                None => r is Ok && final(self)@ == (ObserverView {
                    pending: false,
                    ..old(self)@.after_events(tick, events@).sampled()
                }),
            },
    {
        let matching = match &self.view {
            Some(view) => view.tick == tick,
            None => false,
        };
        if !self.pending || !matching {
            return Err(LaningError::EventsOrder);
        }
        if events.len() > LANING_EVENTS {
            return Err(LaningError::EventBatch);
        }
        let ghost before = self@;
        let ghost ticks = before.completed();
        let mut index: usize = 0;
        assert(events@.take(0) =~= Seq::<ObservedKind>::empty());
        while index < events.len()
            invariant
                index <= events@.len() <= LANING_EVENTS,
                0 <= ticks <= LANING_TICKS,
                self@ == before.after_events(tick, events@.take(index as int)),
                metrics_bounded(self@.metrics, ticks, index as int),
                self@.view == before.view,
                self@.pending == before.pending,
                self@.slot == before.slot,
                self@.center == before.center,
                self@.tower == before.tower,
                self@.last_damage == before.last_damage || self@.last_damage == Some(tick),
            decreases events@.len() - index,
        {
            proof {
                assert(events@.take(index + 1).drop_last() =~= events@.take(index as int));
                assert(events@.take(index + 1).last() == events@[index as int]);
            }
            self.event(tick, &events[index], Ghost(ticks), Ghost(index as int));
            index += 1;
        }
        assert(events@.take(events@.len() as int) =~= events@);
        self.sample(Ghost(index as int));
        self.pending = false;
        Ok(())
    }
}

fn find_reset(resets: &Vec<AbilityId>, ability: AbilityId) -> (r: Option<usize>)
    ensures
        match r {
            Some(index) => first_index(resets@, |id: AbilityId| id == ability) == Some(
                index as int,
            ) && index < resets@.len(),
            None => first_index(resets@, |id: AbilityId| id == ability) is None,
        },
{
    let ghost test = |id: AbilityId| id == ability;
    let mut index: usize = 0;
    while index < resets.len()
        invariant
            index <= resets@.len(),
            test == (|id: AbilityId| id == ability),
            forall|i: int| 0 <= i < index ==> !test(#[trigger] resets@[i]),
        decreases resets@.len() - index,
    {
        if resets[index] == ability {
            proof {
                lemma_first_from_found(resets@, test, 0, index as int);
            }
            return Some(index);
        }
        index += 1;
    }
    proof {
        lemma_first_from_none(resets@, test, 0);
    }
    None
}

/// A second copy of the latest tick is refused and changes nothing.
pub proof fn repeated_snapshots_are_refused(observer: ObserverView, view: WorldView)
    requires
        view_fault(view, observer.slot) is None,
        observer.view matches Some(known) && known.tick == view.tick,
    ensures
        observer.after_snapshot(view) == (observer, Some(LaningError::SnapshotOrder)),
{
}

} // verus!
