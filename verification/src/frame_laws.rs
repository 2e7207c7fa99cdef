//! Which bodies, memories, and slots the rows of a frame show.
use crate::action::{ControlledUnit, LandmarkRelation, PointDirection, PointSource};
use crate::encoder::{remembered_tracks, FeatureEncoder};
use crate::events::{is_latest_body, latest_body, latest_cast};
use crate::feature_laws::{cell, is_flag, is_part, is_signed};
use crate::global_features::{global_row, history_lead_row, history_row};
use crate::item_features::{ability_rows, ability_table, item_rows, item_table};
use crate::local_policy::LocalPolicyState;
use crate::map_context::MapContext;
use crate::map_features::nearest_squared;
use crate::map_laws::other_side;
use crate::scalar::{item_category, Scalar};
use crate::search::lemma_first_from_means;
use crate::space::ActionSpace;
use crate::token_features::source_row;
use crate::token_laws::fresh;
use crate::tracker::{EntityTrack, GlobalSummary, ItemReadiness, StateTracker};
use crate::world::{ItemSlot, ItemView, ShopEntry, Team, UnitKind, UnitView, Vec2};
use vstd::prelude::*;

verus! {

/// Whether a track is of an own body of a kind.
pub open spec fn is_own(tracker: StateTracker, track: EntityTrack, kind: UnitKind) -> bool {
    track.unit.kind == kind && track.unit.team == tracker.team && track.unit.owner == Some(
        tracker.slot,
    )
}

/// The rows of the own hero and courier show the own body of that kind that was seen last.
pub proof fn own_rows_show_the_latest_body(
    encoder: FeatureEncoder,
    tracker: StateTracker,
    kind: UnitKind,
    t: int,
    column: int,
)
    requires
        kind == UnitKind::Hero || kind == UnitKind::Courier,
        0 <= t < tracker.entities@.len(),
        is_own(tracker, tracker.entities@[t], kind),
        forall|i: int|
            0 <= i < tracker.entities@.len() && i != t && is_own(
                tracker,
                #[trigger] tracker.entities@[i],
                kind,
            ) ==> tracker.entities@[i].last_seen_tick < tracker.entities@[t].last_seen_tick,
        0 <= column < 69,
    ensures
        encoder.own_rows(tracker).len() == 2,
        encoder.own_rows(tracker)[if kind == UnitKind::Hero {
            0int
        } else {
            1int
        }][column] == cell(encoder.context, tracker, tracker.entities@[t], column),
{
    assert(is_latest_body(tracker, t, kind));
    let found = choose|index: int| is_latest_body(tracker, index, kind);
    if found != t {
        assert(tracker.entities@[found].last_seen_tick < tracker.entities@[t].last_seen_tick);
    }
    assert(latest_body(tracker, kind) == Some(tracker.entities@[t]));
}

/// Without a track of an own body of a kind its row is zero.
pub proof fn rows_of_absent_bodies_are_zero(
    encoder: FeatureEncoder,
    tracker: StateTracker,
    column: int,
)
    requires
        forall|i: int|
            0 <= i < tracker.entities@.len() ==> !is_own(
                tracker,
                #[trigger] tracker.entities@[i],
                UnitKind::Hero,
            ),
        0 <= column < 69,
    ensures
        encoder.own_rows(tracker)[0][column] == Scalar::Zero,
{
    if exists|index: int| is_latest_body(tracker, index, UnitKind::Hero) {
        let index = choose|index: int| is_latest_body(tracker, index, UnitKind::Hero);
        assert(is_own(tracker, tracker.entities@[index], UnitKind::Hero));
    }
}

/// Whether the current view shows a track's unit.
pub open spec fn shown(tracker: StateTracker, track: EntityTrack) -> bool {
    exists|i: int|
        0 <= i < tracker.current->0.units@.len() && (#[trigger] tracker.current->0.units@[i]).id
            == track.id
}

/// Remembered rows show exactly the tracks that are out of view and no own hero or courier.
pub proof fn remembered_rows_are_out_of_view(
    tracker: StateTracker,
    tracks: Seq<EntityTrack>,
    track: EntityTrack,
)
    requires
        tracker.current is Some,
    ensures
        remembered_tracks(tracker, tracks).contains(track) <==> tracks.contains(track) && !shown(
            tracker,
            track,
        ) && !is_own(tracker, track, UnitKind::Hero) && !is_own(tracker, track, UnitKind::Courier),
    decreases tracks.len(),
{
    if tracks.len() > 0 {
        let rest = tracks.drop_last();
        remembered_rows_are_out_of_view(tracker, rest, track);
        let before = remembered_tracks(tracker, rest);
        let all = remembered_tracks(tracker, tracks);
        let last = tracks.last();
        assert(tracks =~= rest.push(last));
        lemma_pushed(rest, last, track);
        lemma_pushed(before, last, track);
        assert(crate::events::in_view(tracker, last) == shown(tracker, last));
    }
}

proof fn lemma_pushed<T>(list: Seq<T>, item: T, other: T)
    ensures
        list.push(item).contains(other) <==> list.contains(other) || other == item,
{
    let all = list.push(item);
    if list.contains(other) {
        let k = choose|k: int| 0 <= k < list.len() && list[k] == other;
        assert(all[k] == other);
    }
    assert(all[all.len() - 1] == item);
    if all.contains(other) {
        let k = choose|k: int| 0 <= k < all.len() && all[k] == other;
        if k < list.len() {
            assert(list[k] == other);
        }
    }
}

/// Item rows show nine slots of the hero, six of the stash, and six of the courier, each under
/// its own place and slot.
pub proof fn item_rows_show_stash_and_courier(
    tracker: StateTracker,
    space: ActionSpace,
    readiness: ItemReadiness,
    stash: Seq<Option<ItemView>>,
    courier: UnitView,
    slot: int,
)
    requires
        tracker.player_spec() is Some,
        tracker.player_spec()->0.stash is Some,
        tracker.player_spec()->0.stash->0@ == stash,
        tracker.courier_spec() == Some(courier),
        0 <= slot < 6,
        slot < stash.len(),
        slot < courier.items@.len(),
    ensures
        item_rows(tracker, space, readiness)[9 + slot][1] == Scalar::Category(3),
        item_rows(tracker, space, readiness)[9 + slot][2] == Scalar::Category((10 + slot) as u32),
        is_flag(item_rows(tracker, space, readiness)[9 + slot][3], stash[slot] is Some),
        stash[slot] is Some ==> item_rows(tracker, space, readiness)[9 + slot][4]
            == item_category(stash[slot]->0.id),
        item_rows(tracker, space, readiness)[15 + slot][1] == Scalar::Category(4),
        item_rows(tracker, space, readiness)[15 + slot][2] == Scalar::Category((1 + slot) as u32),
        is_flag(item_rows(tracker, space, readiness)[15 + slot][3], courier.items@[slot] is Some),
        courier.items@[slot] is Some ==> item_rows(tracker, space, readiness)[15 + slot][4]
            == item_category(courier.items@[slot]->0.id),
        courier.items@[slot] is Some ==> is_flag(
            item_rows(tracker, space, readiness)[15 + slot][20],
            slot < space.courier_masks.uses@.len() && space.courier_masks.uses@[slot].open(),
        ),
{
    assert(item_rows(tracker, space, readiness)[9 + slot] == item_table(
        tracker,
        space,
        readiness,
        9 + slot,
    ));
    assert(item_rows(tracker, space, readiness)[15 + slot] == item_table(
        tracker,
        space,
        readiness,
        15 + slot,
    ));
}

/// The row of an item tells what the shop asks for it, whether it is assembled from others, and
/// how long its slot and its kind are still held back.
pub proof fn item_rows_show_price_and_timers(
    tracker: StateTracker,
    space: ActionSpace,
    readiness: ItemReadiness,
    hero: UnitView,
    slot: int,
    item: ItemView,
    s: int,
)
    requires
        tracker.hero_spec() == Some(hero),
        0 <= slot < 9,
        slot < hero.items@.len(),
        hero.items@[slot] == Some(item),
        0 <= s < tracker.shop@.len(),
        tracker.shop@[s].id == item.id,
        forall|k: int| 0 <= k < s ==> (#[trigger] tracker.shop@[k]).id != item.id,
    ensures
        is_signed(
            item_rows(tracker, space, readiness)[slot][17],
            tracker.shop@[s].cost as int,
            100_000,
        ),
        is_flag(
            item_rows(tracker, space, readiness)[slot][19],
            tracker.shop@[s].components@.len() > 0,
        ),
        is_flag(
            item_rows(tracker, space, readiness)[slot][22],
            readiness.mute_left_spec(
                ControlledUnit::Hero,
                ItemSlot(slot as u8),
                tracker.view_spec().tick,
            ) is Some,
        ),
        readiness.mute_left_spec(
            ControlledUnit::Hero,
            ItemSlot(slot as u8),
            tracker.view_spec().tick,
        ) matches Some(left) ==> is_part(
            item_rows(tracker, space, readiness)[slot][23],
            left as int,
            36_000,
        ),
        is_flag(
            item_rows(tracker, space, readiness)[slot][24],
            readiness.wait_left_spec(ControlledUnit::Hero, item.id, tracker.view_spec().tick)
                is Some,
        ),
        readiness.wait_left_spec(ControlledUnit::Hero, item.id, tracker.view_spec().tick)
            matches Some(left) ==> is_part(
            item_rows(tracker, space, readiness)[slot][25],
            left as int,
            36_000,
        ),
{
    assert(item_rows(tracker, space, readiness)[slot] == item_table(
        tracker,
        space,
        readiness,
        slot,
    ));
    let id = item.id;
    let test = |entry: ShopEntry| entry.id == id;
    lemma_first_from_means(tracker.shop@, test, 0);
    assert(test(tracker.shop@[s]));
    let found = crate::shop::entry_index(tracker.shop@, id);
    assert(found is Some);
    assert(test(tracker.shop@[found->0]));
    if found->0 < s {
        assert(tracker.shop@[found->0].id != item.id);
    }
}

/// Timers count down to the tick at which they end, and stay at zero from then on.
pub proof fn timers_count_down(until: u32, tick: u32)
    ensures
        tick < until ==> crate::tracker::ticks_left(until, tick) == until - tick,
        tick >= until ==> crate::tracker::ticks_left(until, tick) == 0,
{
}

/// Courier rows follow those of the hero: eight slots after the hero's six.
pub proof fn ability_rows_show_the_courier(
    tracker: StateTracker,
    space: ActionSpace,
    courier: UnitView,
    slot: int,
)
    requires
        tracker.courier_spec() == Some(courier),
        0 <= slot < 8,
        slot < courier.abilities@.len(),
    ensures
        ability_rows(tracker, space)[6 + slot][1] == Scalar::Category(2),
        ability_rows(tracker, space)[6 + slot][2] == Scalar::Category((slot + 1) as u32),
        is_part(
            ability_rows(tracker, space)[6 + slot][8],
            courier.abilities@[slot].cooldown_left as int,
            36_000,
        ),
        is_flag(
            ability_rows(tracker, space)[6 + slot][15],
            slot < space.courier_masks.casts@.len() && space.courier_masks.casts@[slot].open(),
        ),
{
    assert(ability_rows(tracker, space)[6 + slot] == ability_table(tracker, space, 6 + slot));
}

/// The row of an ability tells when its hero cast it last, by the fresh events of that hero.
pub proof fn ability_rows_show_the_last_cast(
    tracker: StateTracker,
    space: ActionSpace,
    hero: UnitView,
    slot: int,
    body: EntityTrack,
)
    requires
        tracker.hero_spec() == Some(hero),
        0 <= slot < 6,
        slot < hero.abilities@.len(),
        latest_body(tracker, UnitKind::Hero) == Some(body),
    ensures
        is_flag(
            ability_rows(tracker, space)[slot][16],
            latest_cast(
                tracker.events@,
                body.id,
                hero.abilities@[slot].id,
                tracker.view_spec().tick,
            ) is Some,
        ),
        latest_cast(
            tracker.events@,
            body.id,
            hero.abilities@[slot].id,
            tracker.view_spec().tick,
        ) matches Some(at) ==> is_part(
            ability_rows(tracker, space)[slot][17],
            tracker.view_spec().tick - at,
            4_800,
        ),
{
    assert(ability_rows(tracker, space)[slot] == ability_table(tracker, space, slot));
}

/// Past leads are those of the own side too, and hidden without the scoreboard.
pub proof fn past_leads_count_for_the_own_side(summary: GlobalSummary, tick: u32)
    requires
        summary.allied.kills < 0x8000_0000_0000_0000,
        summary.enemy.kills < 0x8000_0000_0000_0000,
        summary.allied.deaths < 0x8000_0000_0000_0000,
        summary.enemy.deaths < 0x8000_0000_0000_0000,
        summary.allied.assists < 0x8000_0000_0000_0000,
        summary.enemy.assists < 0x8000_0000_0000_0000,
        summary.allied.levels < 0x8000_0000_0000_0000,
        summary.enemy.levels < 0x8000_0000_0000_0000,
        summary.allied.last_hits < 0x8000_0000_0000_0000,
        summary.enemy.last_hits < 0x8000_0000_0000_0000,
        summary.allied.denies < 0x8000_0000_0000_0000,
        summary.enemy.denies < 0x8000_0000_0000_0000,
    ensures
        is_part(history_row(summary, tick, true)[9], summary.own_respawn_left as int, 4_800),
        is_part(history_row(summary, tick, true)[10], summary.visible_allied_units as int, 256),
        is_part(history_row(summary, tick, true)[11], summary.visible_enemy_units as int, 256),
        is_signed(
            history_row(summary, tick, true)[12],
            summary.allied.xp - summary.enemy.xp,
            100_000,
        ),
        is_signed(
            history_row(summary, tick, true)[13],
            summary.allied.levels - summary.enemy.levels,
            1_000,
        ),
        is_signed(
            history_row(summary, tick, true)[14],
            summary.allied.kills - summary.enemy.kills,
            1_000,
        ),
        is_signed(
            history_row(summary, tick, true)[15],
            summary.enemy.deaths - summary.allied.deaths,
            1_000,
        ),
        is_signed(
            history_row(summary, tick, true)[16],
            summary.allied.assists - summary.enemy.assists,
            1_000,
        ),
        is_signed(
            history_row(summary, tick, true)[17],
            summary.allied.last_hits - summary.enemy.last_hits,
            1_000,
        ),
        is_signed(
            history_row(summary, tick, true)[18],
            summary.allied.denies - summary.enemy.denies,
            1_000,
        ),
        is_signed(
            history_row(summary, tick, true)[19],
            summary.allied_structure_hp as int,
            100_000,
        ),
        is_signed(
            history_row(summary, tick, true)[20],
            summary.enemy_structure_hp as int,
            100_000,
        ),
        forall|c: int| 12 <= c < 19 ==> #[trigger] history_row(summary, tick, false)[c]
            == Scalar::Zero,
{
    assert(history_lead_row(summary).len() == 7);
}

/// Global scalars tell the active order with its age, and how long ago the last decision was.
pub proof fn global_scalars_tell_the_activity(
    tracker: StateTracker,
    local: LocalPolicyState,
    scoreboard: bool,
)
    ensures
        is_flag(global_row(tracker, local, scoreboard)[31], local.active_order_spec() is Some),
        local.active_order_spec() matches Some(order) ==> global_row(tracker, local, scoreboard)[32]
            == Scalar::Category((order.kind.index_spec() + 1) as u32) && is_part(
            global_row(tracker, local, scoreboard)[33],
            tracker.view_spec().tick - order.started_tick,
            4_800,
        ),
        local.active_order_spec() is None ==> global_row(tracker, local, scoreboard)[32]
            == Scalar::Zero,
        is_flag(global_row(tracker, local, scoreboard)[34], local.decisions@.len() > 0),
        local.decisions@.len() > 0 ==> is_part(
            global_row(tracker, local, scoreboard)[35],
            tracker.view_spec().tick - local.decisions@.last().tick,
            4_800,
        ),
{
    assert(crate::global_features::setting_row(tracker, local).len() == 13);
    assert(crate::global_features::standing_row(tracker, scoreboard).len() == 11);
}

/// Map scalars tell the squared distance to the nearest landmark of each sort in parts of the
/// squared map extent.
pub proof fn map_scalars_tell_landmark_distances(
    context: MapContext,
    tracker: StateTracker,
    origin: Vec2,
    own_fountain: int,
    enemy_tower: int,
)
    requires
        tracker.origin_spec() == Some(origin),
        tracker.team != Team::Neutral,
        0 < context.extent_raw <= 0x7fff_ffff,
        nearest_squared(
            tracker.view_spec().units@,
            UnitKind::Fountain,
            tracker.team,
            origin,
        ) == Some(own_fountain),
        nearest_squared(
            tracker.view_spec().units@,
            UnitKind::Tower,
            other_side(tracker.team),
            origin,
        ) == Some(enemy_tower),
    ensures
        is_part(
            context.map_row(tracker)[7],
            own_fountain,
            context.extent_raw * context.extent_raw,
        ),
        is_part(
            context.map_row(tracker)[13],
            enemy_tower,
            context.extent_raw * context.extent_raw,
        ),
{
    let extent = context.extent_raw as int;
    assert(0 < extent * extent <= 0x3fff_ffff_ffff_ffff) by (nonlinear_arith)
        requires
            0 < extent <= 0x7fff_ffff,
    ;
    assert(tracker.team == Team::Radiant || tracker.team == Team::Dire);
    assert(context.ground_row(tracker, origin).len() == 6);
}

/// Every sort of point source has a category of its own; a ring point tells its direction and
/// radius, a landing place its structure, and the others whose they are.
pub proof fn point_sources_are_told_apart(
    direction: PointDirection,
    radius: i32,
    kind: UnitKind,
    relation: LandmarkRelation,
)
    ensures
        source_row(PointSource::Tactical { direction, radius })[0] == Scalar::Category(1),
        source_row(PointSource::StaticTree)[0] == Scalar::Category(2),
        source_row(PointSource::PlantedTree)[0] == Scalar::Category(3),
        source_row(PointSource::BuildingLanding(kind))[0] == Scalar::Category(4),
        source_row(PointSource::Fountain(relation))[0] == Scalar::Category(5),
        source_row(PointSource::Tower(relation))[0] == Scalar::Category(6),
        source_row(PointSource::Tactical { direction, radius })[1] == Scalar::One,
        source_row(PointSource::Tactical { direction: PointDirection::East, radius })[2]
            == Scalar::Category(1),
        source_row(PointSource::Tactical { direction: PointDirection::North, radius })[2]
            == Scalar::Category(3),
        source_row(PointSource::Tactical { direction: PointDirection::West, radius })[2]
            == Scalar::Category(5),
        source_row(PointSource::Tactical { direction: PointDirection::South, radius })[2]
            == Scalar::Category(7),
        is_part(source_row(PointSource::Tactical { direction, radius })[4], radius as int, 1_200),
        source_row(PointSource::BuildingLanding(kind))[6] == crate::scalar::kind_category(kind),
        is_flag(
            source_row(PointSource::Fountain(relation))[8],
            relation == LandmarkRelation::Own,
        ),
        is_flag(
            source_row(PointSource::Fountain(relation))[10],
            relation == LandmarkRelation::Enemy,
        ),
        is_flag(
            source_row(PointSource::Tower(relation))[10],
            relation == LandmarkRelation::Enemy,
        ),
{
}

} // verus!
