//! Recent events and own bodies that a snapshot remembers.
use crate::search::last_match;
use crate::tracker::{EntityTrack, ObservedEvent, ObservedKind, StateTracker};
use crate::world::{AbilityId, DamageKind, EntityId, UnitKind};
use vstd::prelude::*;

verus! {

/// Oldest event age that still counts.
pub const MAX_AGE: u32 = 4_800;

/// Whether an event lies before a tick, but not too far.
pub open spec fn recent(event_tick: u32, tick: u32) -> bool {
    event_tick < tick && tick - event_tick <= MAX_AGE
}

fn recent_before(event_tick: u32, tick: u32) -> (r: bool)
    ensures
        r == recent(event_tick, tick),
{
    event_tick < tick && tick - event_tick <= MAX_AGE
}

/// Whether an event is recent damage that an entity dealt or took.
pub open spec fn is_damage(
    event: ObservedEvent,
    entity: EntityId,
    tick: u32,
    dealt: bool,
) -> bool {
    recent(event.tick, tick) && match event.kind {
        ObservedKind::Damaged { source, target, .. } => if dealt {
            source == Some(entity)
        } else {
            target == entity
        },
        _ => false,
    }
}

/// Amount of an event that is damage.
pub open spec fn damage_amount(event: ObservedEvent) -> i32 {
    match event.kind {
        ObservedKind::Damaged { amount, .. } => amount,
        _ => 0,
    }
}

/// Amount of the latest recent damage that an entity dealt or took.
pub open spec fn latest_damage(
    events: Seq<ObservedEvent>,
    entity: EntityId,
    tick: u32,
    dealt: bool,
) -> Option<i32> {
    match last_match(events, |event: ObservedEvent| is_damage(event, entity, tick, dealt)) {
        Some(i) => Some(damage_amount(events[i])),
        None => None,
    }
}

fn matches_damage(event: &ObservedEvent, entity: EntityId, tick: u32, dealt: bool) -> (r: Option<
    i32,
>)
    ensures
        r == (if is_damage(*event, entity, tick, dealt) {
            Some(damage_amount(*event))
        } else {
            None
        }),
{
    if !recent_before(event.tick, tick) {
        return None;
    }
    match event.kind {
        ObservedKind::Damaged { source, target, amount, .. } => {
            let involved = if dealt {
                match source {
                    Some(id) => id == entity,
                    None => false,
                }
            } else {
                target == entity
            };
            if involved {
                Some(amount)
            } else {
                None
            }
        },
        _ => None,
    }
}

/// Amount of the latest recent damage that an entity dealt or took.
pub fn recent_damage(tracker: &StateTracker, entity: EntityId, tick: u32, dealt: bool) -> (r: Option<
    i32,
>)
    ensures
        r == latest_damage(tracker.events@, entity, tick, dealt),
{
    let events = &tracker.events;
    let ghost test = |event: ObservedEvent| is_damage(event, entity, tick, dealt);
    let mut index: usize = events.len();
    assert(events@.take(events@.len() as int) =~= events@);
    while index > 0
        invariant
            index <= events@.len(),
            *events == tracker.events,
            test == (|event: ObservedEvent| is_damage(event, entity, tick, dealt)),
            last_match(events@, test) == last_match(events@.take(index as int), test),
        decreases index,
    {
        index -= 1;
        proof {
            assert(events@.take(index + 1).drop_last() =~= events@.take(index as int));
            assert(events@.take(index + 1).last() == events@[index as int]);
        }
        match matches_damage(&events[index], entity, tick, dealt) {
            Some(amount) => {
                return Some(amount);
            },
            None => {},
        }
    }
    None
}

/// Whether an event is a recent cast of an ability by an entity.
pub open spec fn is_cast(
    event: ObservedEvent,
    entity: EntityId,
    cast: AbilityId,
    tick: u32,
) -> bool {
    recent(event.tick, tick) && match event.kind {
        ObservedKind::AbilityCast { caster, ability } => caster == entity && ability == cast,
        _ => false,
    }
}

/// Tick of the latest recent cast of an ability by an entity.
pub open spec fn latest_cast(
    events: Seq<ObservedEvent>,
    entity: EntityId,
    cast: AbilityId,
    tick: u32,
) -> Option<u32> {
    match last_match(events, |event: ObservedEvent| is_cast(event, entity, cast, tick)) {
        Some(i) => Some(events[i].tick),
        None => None,
    }
}

/// Tick of the latest recent cast of an ability by an entity.
pub fn recent_ability_cast(
    tracker: &StateTracker,
    entity: EntityId,
    cast: AbilityId,
    tick: u32,
) -> (r: Option<u32>)
    ensures
        r == latest_cast(tracker.events@, entity, cast, tick),
        r matches Some(found) ==> found < tick,
{
    let events = &tracker.events;
    let ghost test = |event: ObservedEvent| is_cast(event, entity, cast, tick);
    let mut index: usize = events.len();
    assert(events@.take(events@.len() as int) =~= events@);
    while index > 0
        invariant
            index <= events@.len(),
            *events == tracker.events,
            test == (|event: ObservedEvent| is_cast(event, entity, cast, tick)),
            last_match(events@, test) == last_match(events@.take(index as int), test),
        decreases index,
    {
        index -= 1;
        proof {
            assert(events@.take(index + 1).drop_last() =~= events@.take(index as int));
            assert(events@.take(index + 1).last() == events@[index as int]);
        }
        let event = &events[index];
        if recent_before(event.tick, tick) {
            match event.kind {
                ObservedKind::AbilityCast { caster, ability } => {
                    if caster == entity && ability == cast {
                        return Some(event.tick);
                    }
                },
                _ => {},
            }
        }
    }
    None
}

/// Whether an entity casts anything at a tick.
pub open spec fn casts_at(events: Seq<ObservedEvent>, entity: EntityId, tick: u32) -> bool {
    exists|i: int|
        0 <= i < events.len() && (#[trigger] events[i]).tick == tick && match events[i].kind {
            ObservedKind::AbilityCast { caster, .. } => caster == entity,
            _ => false,
        }
}

fn any_cast_at(events: &Vec<ObservedEvent>, entity: EntityId, tick: u32) -> (r: bool)
    ensures
        r == casts_at(events@, entity, tick),
{
    let mut index: usize = 0;
    while index < events.len()
        invariant
            index <= events@.len(),
            forall|i: int|
                0 <= i < index ==> !((#[trigger] events@[i]).tick == tick && match events@[i].kind {
                    ObservedKind::AbilityCast { caster, .. } => caster == entity,
                    _ => false,
                }),
        decreases events@.len() - index,
    {
        let event = &events[index];
        if event.tick == tick {
            match event.kind {
                ObservedKind::AbilityCast { caster, .. } => {
                    if caster == entity {
                        assert(events@[index as int].tick == tick);
                        return true;
                    }
                },
                _ => {},
            }
        }
        index += 1;
    }
    false
}

/// Whether an event may be an attack of an entity: recent physical damage without a critical
/// strike and without a cast at the same tick.
pub open spec fn is_attack(
    events: Seq<ObservedEvent>,
    event: ObservedEvent,
    entity: EntityId,
    tick: u32,
) -> bool {
    &&& recent(event.tick, tick)
    &&& match event.kind {
        ObservedKind::Damaged { source, kind, crit, .. } => source == Some(entity) && kind
            == DamageKind::Physical && !crit,
        _ => false,
    }
    &&& !casts_at(events, entity, event.tick)
}

/// Tick of the latest recent attack of an entity.
pub open spec fn latest_attack(
    events: Seq<ObservedEvent>,
    entity: EntityId,
    tick: u32,
) -> Option<u32> {
    match last_match(events, |event: ObservedEvent| is_attack(events, event, entity, tick)) {
        Some(i) => Some(events[i].tick),
        None => None,
    }
}

/// Tick of the latest recent attack of an entity.
pub fn recent_possible_attack(tracker: &StateTracker, entity: EntityId, tick: u32) -> (r: Option<
    u32,
>)
    ensures
        r == latest_attack(tracker.events@, entity, tick),
        r matches Some(found) ==> found < tick,
{
    let events = &tracker.events;
    let ghost test = |event: ObservedEvent| is_attack(tracker.events@, event, entity, tick);
    let mut index: usize = events.len();
    assert(events@.take(events@.len() as int) =~= events@);
    while index > 0
        invariant
            index <= events@.len(),
            *events == tracker.events,
            test == (|event: ObservedEvent| is_attack(tracker.events@, event, entity, tick)),
            last_match(events@, test) == last_match(events@.take(index as int), test),
        decreases index,
    {
        index -= 1;
        proof {
            assert(events@.take(index + 1).drop_last() =~= events@.take(index as int));
            assert(events@.take(index + 1).last() == events@[index as int]);
        }
        let event = &events[index];
        if recent_before(event.tick, tick) {
            match event.kind {
                ObservedKind::Damaged { source, kind, crit, .. } => {
                    let own = match source {
                        Some(id) => id == entity,
                        None => false,
                    };
                    if own && kind == DamageKind::Physical && !crit && !any_cast_at(
                        events,
                        entity,
                        event.tick,
                    ) {
                        return Some(event.tick);
                    }
                },
                _ => {},
            }
        }
    }
    None
}

/// Whether a track is a body of a kind that the own seat controls.
pub open spec fn own_track(tracker: StateTracker, track: EntityTrack, kind: UnitKind) -> bool {
    track.unit.kind == kind && track.unit.team == tracker.team && track.unit.owner == Some(
        tracker.slot,
    )
}

/// Whether a track is the only own body of a kind that was seen last.
pub open spec fn is_latest_body(tracker: StateTracker, index: int, kind: UnitKind) -> bool {
    let tracks = tracker.entities@;
    &&& 0 <= index < tracks.len()
    &&& own_track(tracker, tracks[index], kind)
    &&& forall|i: int|
        0 <= i < tracks.len() && i != index && own_track(tracker, #[trigger] tracks[i], kind)
            ==> tracks[i].last_seen_tick < tracks[index].last_seen_tick
}

/// Track of the only own body of a kind that was seen last.
pub open spec fn latest_body(tracker: StateTracker, kind: UnitKind) -> Option<EntityTrack> {
    if exists|index: int| is_latest_body(tracker, index, kind) {
        Some(tracker.entities@[choose|index: int| is_latest_body(tracker, index, kind)])
    } else {
        None
    }
}

fn is_own_track(tracker: &StateTracker, track: &EntityTrack, kind: UnitKind) -> (r: bool)
    ensures
        r == own_track(*tracker, *track, kind),
{
    let owned = match track.unit.owner {
        Some(owner) => owner == tracker.slot,
        None => false,
    };
    track.unit.kind == kind && track.unit.team == tracker.team && owned
}

/// Track of the only own body of a kind that was seen last.
pub fn own_body_track(tracker: &StateTracker, kind: UnitKind) -> (r: Option<&EntityTrack>)
    ensures
        match r {
            Some(track) => latest_body(*tracker, kind) == Some(*track),
            None => latest_body(*tracker, kind) is None,
        },
{
    let tracks = &tracker.entities;
    let mut best: Option<usize> = None;
    let mut tied = false;
    let mut index: usize = 0;
    while index < tracks.len()
        invariant
            index <= tracks@.len(),
            *tracks == tracker.entities,
            match best {
                None => !tied && forall|i: int|
                    0 <= i < index ==> !own_track(*tracker, #[trigger] tracks@[i], kind),
                Some(first) => {
                    &&& first < index
                    &&& own_track(*tracker, tracks@[first as int], kind)
                    &&& forall|i: int|
                        0 <= i < index && own_track(*tracker, #[trigger] tracks@[i], kind)
                            ==> tracks@[i].last_seen_tick <= tracks@[first as int].last_seen_tick
                    &&& tied == exists|i: int|
                        0 <= i < index && i != first && own_track(
                            *tracker,
                            #[trigger] tracks@[i],
                            kind,
                        ) && tracks@[i].last_seen_tick == tracks@[first as int].last_seen_tick
                },
            },
        decreases tracks@.len() - index,
    {
        if is_own_track(tracker, &tracks[index], kind) {
            match best {
                None => {
                    best = Some(index);
                },
                Some(first) => {
                    let seen = tracks[index].last_seen_tick;
                    let known = tracks[first].last_seen_tick;
                    if seen > known {
                        best = Some(index);
                        tied = false;
                    } else if seen == known {
                        tied = true;
                        assert(tracks@[index as int].last_seen_tick
                            == tracks@[first as int].last_seen_tick);
                    }
                },
            }
        }
        index += 1;
    }
    proof {
        if exists|index: int| is_latest_body(*tracker, index, kind) {
            let found = choose|index: int| is_latest_body(*tracker, index, kind);
            assert(own_track(*tracker, tracks@[found], kind));
        }
    }
    match best {
        None => None,
        Some(first) => if tied {
            proof {
                let other = choose|i: int|
                    0 <= i < index && i != first && own_track(
                        *tracker,
                        #[trigger] tracks@[i],
                        kind,
                    ) && tracks@[i].last_seen_tick == tracks@[first as int].last_seen_tick;
                assert forall|found: int| !is_latest_body(*tracker, found, kind) by {
                    if is_latest_body(*tracker, found, kind) {
                        if found != first {
                            assert(own_track(*tracker, tracks@[first as int], kind));
                            assert(own_track(*tracker, tracks@[found], kind));
                        } else {
                            assert(own_track(*tracker, tracks@[other], kind));
                        }
                    }
                }
            }
            None
        } else {
            proof {
                assert(is_latest_body(*tracker, first as int, kind));
                let found = choose|index: int| is_latest_body(*tracker, index, kind);
                if found != first {
                    assert(own_track(*tracker, tracks@[first as int], kind));
                    assert(own_track(*tracker, tracks@[found], kind));
                }
            }
            Some(&tracks[first])
        },
    }
}

/// Whether a track is an own hero or courier.
pub open spec fn is_own_body(tracker: StateTracker, track: EntityTrack) -> bool {
    own_track(tracker, track, UnitKind::Hero) || own_track(tracker, track, UnitKind::Courier)
}

/// Whether a track is an own hero or courier.
pub fn is_own_body_track(tracker: &StateTracker, track: &EntityTrack) -> (r: bool)
    ensures
        r == is_own_body(*tracker, *track),
{
    is_own_track(tracker, track, UnitKind::Hero) || is_own_track(tracker, track, UnitKind::Courier)
}

/// Whether the current view holds a unit of a track.
pub open spec fn in_view(tracker: StateTracker, track: EntityTrack) -> bool {
    tracker.current matches Some(view) && exists|i: int|
        0 <= i < view.units@.len() && (#[trigger] view.units@[i]).id == track.id
}

/// Whether the current view holds a unit of a track.
pub fn snapshot_visible(tracker: &StateTracker, track: &EntityTrack) -> (r: bool)
    ensures
        r == in_view(*tracker, *track),
{
    match &tracker.current {
        None => false,
        Some(view) => {
            let mut index: usize = 0;
            while index < view.units.len()
                invariant
                    index <= view.units@.len(),
                    tracker.current == Some(*view),
                    forall|i: int| 0 <= i < index ==> (#[trigger] view.units@[i]).id != track.id,
                decreases view.units@.len() - index,
            {
                if view.units[index].id == track.id {
                    assert(view.units@[index as int].id == track.id);
                    return true;
                }
                index += 1;
            }
            false
        },
    }
}

} // verus!
