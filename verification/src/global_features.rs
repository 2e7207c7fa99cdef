//! Global, global-history, and policy-history scalars.
use crate::events::{latest_body, latest_damage, own_body_track, recent_damage, MAX_AGE};
use crate::frame::MAX_POLICY_HISTORY;
use crate::item_features::{asset_value, own_asset_value, rows_of, table_bounded};
use crate::local_policy::{LocalPolicyState, PolicyDecision};
use crate::map_features::{append_row, blank, blank_row};
use crate::scalar::{
    bool_feature, category_of, category_token, clamped, count_ratio, difference, difference_of,
    flag_of, fraction_of, lane_index, lane_rank, larger, periodic_phase, phase_of, pregame_of,
    pregame_progress, ratio, ratio_of, role_index, role_rank, row_bounded, safe_fraction,
    signed_of, signed_ratio, unit_of, unit_ratio, Scalar,
};
use crate::search::{lemma_tally_step, tally};
use crate::tracker::{GlobalSummary, StateTracker, HISTORY_SAMPLES, HISTORY_TICKS};
use crate::unit_features::{MAX_DAMAGE, MAX_HP};
use crate::world::{PlayerView, Team, UnitKind};
use vstd::prelude::*;

verus! {

pub const MAX_TICK: u32 = 3_600_000;

pub const MAX_GOLD: i64 = 100_000;

pub const MAX_SCORE: i64 = 1_000;

pub const MAX_XP: i64 = 100_000;

pub const MAX_LEVEL: i64 = 30;

pub const MAX_STRUCTURE_COUNT: i64 = 64;

/// Age of one global-history sample; the last one is the current snapshot.
pub open spec fn history_age(sample: int) -> int {
    if sample == 0 {
        480
    } else if sample == 1 {
        240
    } else if sample == 2 {
        120
    } else if sample == 3 {
        60
    } else if sample == 4 {
        30
    } else if sample == 5 {
        15
    } else {
        0
    }
}

/// Age of one global-history sample.
pub fn history_sample_age(sample: usize) -> (r: u32)
    ensures
        r == history_age(sample as int),
{
    if sample == 0 {
        480
    } else if sample == 1 {
        240
    } else if sample == 2 {
        120
    } else if sample == 3 {
        60
    } else if sample == 4 {
        30
    } else if sample == 5 {
        15
    } else {
        0
    }
}

/// Experience by which the allied side leads.
pub open spec fn xp_lead(summary: GlobalSummary) -> int {
    clamped(summary.allied.xp - summary.enemy.xp, i64::MIN as int, i64::MAX as int)
}

fn xp_advantage(summary: &GlobalSummary) -> (r: Scalar)
    ensures
        r == signed_of(xp_lead(*summary), MAX_XP as int),
        r.bounded(),
{
    let lead = match summary.allied.xp.checked_sub(summary.enemy.xp) {
        Some(lead) => lead,
        None => if summary.enemy.xp > 0 {
            i64::MIN
        } else {
            i64::MAX
        },
    };
    signed_ratio(lead, MAX_XP)
}

/// Lead in a counter in parts of the largest score.
pub open spec fn lead_of(left: u64, right: u64) -> Scalar {
    signed_of(difference_of(left, right), MAX_SCORE as int)
}

fn advantage(left: u64, right: u64) -> (r: Scalar)
    ensures
        r == lead_of(left, right),
        r.bounded(),
{
    signed_ratio(difference(left, right), MAX_SCORE)
}

/// Structures of both sides that fell.
pub open spec fn destroyed_total(summary: GlobalSummary) -> int {
    clamped(
        summary.allied_structures_destroyed + summary.enemy_structures_destroyed,
        0,
        u32::MAX as int,
    )
}

fn destroyed_ratio(summary: &GlobalSummary) -> (r: Scalar)
    ensures
        r == ratio_of(destroyed_total(*summary), 0, MAX_STRUCTURE_COUNT as int),
        r.bounded(),
{
    let total = summary.allied_structures_destroyed.saturating_add(
        summary.enemy_structures_destroyed,
    );
    ratio(total as i64, 0, MAX_STRUCTURE_COUNT)
}

/// Leads of the allied side in scoreboard order.
pub open spec fn lead_row(summary: GlobalSummary) -> Seq<Scalar> {
    seq![
        lead_of(summary.allied.kills, summary.enemy.kills),
        lead_of(summary.enemy.deaths, summary.allied.deaths),
        lead_of(summary.allied.assists, summary.enemy.assists),
        signed_of(xp_lead(summary), MAX_XP as int),
        lead_of(summary.allied.levels, summary.enemy.levels),
        lead_of(summary.allied.last_hits, summary.enemy.last_hits),
        lead_of(summary.allied.denies, summary.enemy.denies),
    ]
}

fn encode_score_advantages(summary: &GlobalSummary) -> (r: Vec<Scalar>)
    ensures
        r@ == lead_row(*summary),
        r@.len() == 7,
        row_bounded(r@),
{
    let row = vec![
        advantage(summary.allied.kills, summary.enemy.kills),
        advantage(summary.enemy.deaths, summary.allied.deaths),
        advantage(summary.allied.assists, summary.enemy.assists),
        xp_advantage(summary),
        advantage(summary.allied.levels, summary.enemy.levels),
        advantage(summary.allied.last_hits, summary.enemy.last_hits),
        advantage(summary.allied.denies, summary.enemy.denies),
    ];
    assert(row@ =~= lead_row(*summary));
    row
}

/// Leads of the allied side in history order.
pub open spec fn history_lead_row(summary: GlobalSummary) -> Seq<Scalar> {
    seq![
        signed_of(xp_lead(summary), MAX_XP as int),
        lead_of(summary.allied.levels, summary.enemy.levels),
        lead_of(summary.allied.kills, summary.enemy.kills),
        lead_of(summary.enemy.deaths, summary.allied.deaths),
        lead_of(summary.allied.assists, summary.enemy.assists),
        lead_of(summary.allied.last_hits, summary.enemy.last_hits),
        lead_of(summary.allied.denies, summary.enemy.denies),
    ]
}

fn encode_history_advantages(summary: &GlobalSummary) -> (r: Vec<Scalar>)
    ensures
        r@ == history_lead_row(*summary),
        r@.len() == 7,
        row_bounded(r@),
{
    let row = vec![
        xp_advantage(summary),
        advantage(summary.allied.levels, summary.enemy.levels),
        advantage(summary.allied.kills, summary.enemy.kills),
        advantage(summary.enemy.deaths, summary.allied.deaths),
        advantage(summary.allied.assists, summary.enemy.assists),
        advantage(summary.allied.last_hits, summary.enemy.last_hits),
        advantage(summary.allied.denies, summary.enemy.denies),
    ];
    assert(row@ =~= history_lead_row(*summary));
    row
}

/// Scalars of one global-history sample.
pub open spec fn history_row(summary: GlobalSummary, tick: u32, scoreboard: bool) -> Seq<Scalar> {
    seq![
        Scalar::One,
        unit_of(larger(tick - summary.tick, 0), HISTORY_TICKS as int),
        flag_of(summary.own_hp_present),
        fraction_of(summary.own_hp as int, summary.own_max_hp as int),
        flag_of(summary.own_mana_present),
        fraction_of(summary.own_mana as int, summary.own_max_mana as int),
        ratio_of(summary.own_level as int, 0, MAX_LEVEL as int),
        signed_of(summary.own_gold as int, MAX_GOLD as int),
        flag_of(summary.own_hp_present),
        unit_of(summary.own_respawn_left as int, MAX_AGE as int),
        ratio_of(summary.visible_allied_units as int, 0, 256),
        ratio_of(summary.visible_enemy_units as int, 0, 256),
    ] + (if scoreboard {
        history_lead_row(summary)
    } else {
        blank(7)
    }) + seq![
        signed_of(summary.allied_structure_hp as int, MAX_HP as int),
        signed_of(summary.enemy_structure_hp as int, MAX_HP as int),
        flag_of(summary.destroyed_structures_present),
        ratio_of(destroyed_total(summary), 0, MAX_STRUCTURE_COUNT as int),
        flag_of(scoreboard),
    ]
}

fn encode_history_sample(summary: &GlobalSummary, tick: u32, scoreboard: bool) -> (r: Vec<Scalar>)
    ensures
        r@ == history_row(*summary, tick, scoreboard),
        r@.len() == 24,
        row_bounded(r@),
{
    let mut row = vec![
        Scalar::One,
        unit_ratio(tick.saturating_sub(summary.tick), HISTORY_TICKS),
        bool_feature(summary.own_hp_present),
        safe_fraction(summary.own_hp, summary.own_max_hp),
        bool_feature(summary.own_mana_present),
        safe_fraction(summary.own_mana, summary.own_max_mana),
        ratio(summary.own_level as i64, 0, MAX_LEVEL),
        signed_ratio(summary.own_gold as i64, MAX_GOLD),
        bool_feature(summary.own_hp_present),
        unit_ratio(summary.own_respawn_left, MAX_AGE),
        ratio(summary.visible_allied_units as i64, 0, 256),
        ratio(summary.visible_enemy_units as i64, 0, 256),
    ];
    let leads = if scoreboard {
        encode_history_advantages(summary)
    } else {
        blank_row(7)
    };
    append_row(&mut row, &leads);
    append_row(
        &mut row,
        &vec![
            signed_ratio(summary.allied_structure_hp, MAX_HP),
            signed_ratio(summary.enemy_structure_hp, MAX_HP),
            bool_feature(summary.destroyed_structures_present),
            destroyed_ratio(summary),
            bool_feature(scoreboard),
        ],
    );
    assert(row@ =~= history_row(*summary, tick, scoreboard));
    row
}

/// Global-history rows, oldest first; a sample that is not old enough is zero.
pub open spec fn history_table(tracker: StateTracker, scoreboard: bool, sample: int) -> Seq<Scalar> {
    let tick = tracker.view_spec().tick;
    let summary = tracker.history@[sample];
    if history_age(sample) == 0 || summary.tick <= larger(tick - history_age(sample), 0) {
        history_row(summary, tick, scoreboard)
    } else {
        blank(24)
    }
}

/// Global-history rows, oldest first.
pub open spec fn history_rows(tracker: StateTracker, scoreboard: bool) -> Seq<Seq<Scalar>> {
    Seq::new(7, |i: int| history_table(tracker, scoreboard, i))
}

/// Global-history rows, oldest first.
pub fn encode_history(tracker: &StateTracker, scoreboard: bool) -> (r: Vec<Vec<Scalar>>)
    requires
        tracker.current is Some,
    ensures
        rows_of(r@) == history_rows(*tracker, scoreboard),
        table_bounded(r@, 24),
{
    let current = tracker.current.as_ref().unwrap();
    let tick = current.tick;
    let mut table: Vec<Vec<Scalar>> = Vec::new();
    let mut index: usize = 0;
    while index < HISTORY_SAMPLES
        invariant
            index <= HISTORY_SAMPLES,
            tracker.current == Some(*current),
            tick == current.tick,
            table@.len() == index,
            table_bounded(table@, 24),
            forall|i: int|
                0 <= i < index ==> (#[trigger] table@[i])@ == history_table(
                    *tracker,
                    scoreboard,
                    i,
                ),
        decreases HISTORY_SAMPLES - index,
    {
        let summary = tracker.history[index];
        let age = history_sample_age(index);
        let row = if age == 0 || summary.tick <= tick.saturating_sub(age) {
            encode_history_sample(&summary, tick, scoreboard)
        } else {
            blank_row(24)
        };
        assert(row@ == history_table(*tracker, scoreboard, index as int));
        table.push(row);
        index += 1;
    }
    assert(rows_of(table@) =~= history_rows(*tracker, scoreboard));
    table
}

/// Scalars of one past decision.
pub open spec fn decision_row(decision: PolicyDecision, tick: u32) -> Seq<Scalar> {
    seq![
        Scalar::One,
        unit_of(larger(tick - decision.tick, 0), MAX_AGE as int),
        Scalar::One,
        category_of(decision.kind.index_spec()),
    ]
}

/// Policy-history rows, newest first.
pub open spec fn decision_rows(local: LocalPolicyState, tick: u32) -> Seq<Seq<Scalar>> {
    local.decisions@.reverse().map_values(
        |decision: PolicyDecision| decision_row(decision, tick),
    )
}

/// Policy-history rows, newest first.
pub fn encode_policy_history(tick: u32, local: &LocalPolicyState) -> (r: Vec<Vec<Scalar>>)
    requires
        local.wf(),
    ensures
        rows_of(r@) == decision_rows(*local, tick),
        r@.len() <= MAX_POLICY_HISTORY,
        table_bounded(r@, 4),
{
    let decisions = &local.decisions;
    let mut table: Vec<Vec<Scalar>> = Vec::new();
    let mut index: usize = decisions.len();
    while index > 0
        invariant
            index <= decisions@.len(),
            *decisions == local.decisions,
            table@.len() == decisions@.len() - index,
            table_bounded(table@, 4),
            forall|i: int|
                0 <= i < table@.len() ==> (#[trigger] table@[i])@ == decision_row(
                    decisions@[decisions@.len() - 1 - i],
                    tick,
                ),
        decreases index,
    {
        index -= 1;
        let decision = decisions[index];
        let row = vec![
            Scalar::One,
            unit_ratio(tick.saturating_sub(decision.tick), MAX_AGE),
            Scalar::One,
            category_token(decision.kind.index()),
        ];
        assert(row@ =~= decision_row(decision, tick));
        table.push(row);
    }
    proof {
        assert(rows_of(table@) =~= decision_rows(*local, tick));
    }
    table
}

/// Time, side, map, seats, and local assignment.
pub open spec fn setting_row(tracker: StateTracker, local: LocalPolicyState) -> Seq<Scalar> {
    let tick = tracker.view_spec().tick as int;
    let metadata = tracker.metadata;
    let pregame = metadata.pregame_ticks as int;
    let role = match local.assignment_spec() {
        Some(assignment) => assignment.role,
        None => None,
    };
    let lane = match local.assignment_spec() {
        Some(assignment) => assignment.lane,
        None => None,
    };
    seq![
        unit_of(tick, MAX_TICK as int),
        pregame_of(tick, pregame),
        phase_of(tick, pregame, metadata.tick_rate as int, 30),
        phase_of(tick, pregame, metadata.tick_rate as int, 60),
        flag_of(tracker.team == Team::Radiant),
        flag_of(tracker.team == Team::Dire),
        flag_of(metadata.map.0 == 0),
        flag_of(metadata.map.0 == 1),
        ratio_of(metadata.seats as int, 1, 10),
        flag_of(role is Some),
        match role {
            Some(known) => category_of(role_rank(known)),
            None => Scalar::Zero,
        },
        flag_of(lane is Some),
        match lane {
            Some(known) => category_of(lane_rank(known)),
            None => Scalar::Zero,
        },
    ]
}

fn encode_setting(tracker: &StateTracker, local: &LocalPolicyState) -> (r: Vec<Scalar>)
    requires
        tracker.current is Some,
        local.wf(),
    ensures
        r@ == setting_row(*tracker, *local),
        r@.len() == 13,
        row_bounded(r@),
{
    let current = tracker.current.as_ref().unwrap();
    let tick = current.tick;
    let metadata = tracker.metadata;
    let (role, lane) = match local.assignment() {
        Some(assignment) => (assignment.role, assignment.lane),
        None => (None, None),
    };
    let role_token = match role {
        Some(known) => category_token(role_index(known)),
        None => Scalar::Zero,
    };
    let lane_token = match lane {
        Some(known) => category_token(lane_index(known)),
        None => Scalar::Zero,
    };
    let row = vec![
        unit_ratio(tick, MAX_TICK),
        pregame_progress(tick, metadata.pregame_ticks),
        periodic_phase(tick, metadata.pregame_ticks, metadata.tick_rate, 30),
        periodic_phase(tick, metadata.pregame_ticks, metadata.tick_rate, 60),
        bool_feature(tracker.team == Team::Radiant),
        bool_feature(tracker.team == Team::Dire),
        bool_feature(metadata.map.0 == 0),
        bool_feature(metadata.map.0 == 1),
        ratio(metadata.seats as i64, 1, 10),
        bool_feature(role.is_some()),
        role_token,
        bool_feature(lane.is_some()),
        lane_token,
    ];
    assert(row@ =~= setting_row(*tracker, *local));
    row
}

/// Whether a player of a side has a living hero.
pub open spec fn living(team: Team) -> spec_fn(PlayerView) -> bool {
    |player: PlayerView| player.unit is Some && player.team == team
}

/// Living heroes of the own and the opposing side.
pub fn alive_hero_counts(players: &Vec<PlayerView>, own_team: Team) -> (r: (usize, usize))
    ensures
        r.0 == tally(players@, living(own_team)),
        r.1 == (if own_team.opposing_spec() == own_team {
            0
        } else {
            tally(players@, living(own_team.opposing_spec()))
        }),
{
    let ghost own = living(own_team);
    let ghost other = living(own_team.opposing_spec());
    let opposing = own_team.opposing();
    let mut allied: usize = 0;
    let mut enemy: usize = 0;
    let mut index: usize = 0;
    assert(players@.take(0) =~= Seq::<PlayerView>::empty());
    while index < players.len()
        invariant
            index <= players@.len(),
            own == living(own_team),
            other == living(own_team.opposing_spec()),
            opposing == own_team.opposing_spec(),
            allied == tally(players@.take(index as int), own),
            enemy == (if opposing == own_team {
                0
            } else {
                tally(players@.take(index as int), other)
            }),
            allied <= index,
            enemy <= index,
        decreases players@.len() - index,
    {
        proof {
            lemma_tally_step(players@, own, index as int);
            lemma_tally_step(players@, other, index as int);
        }
        let player = &players[index];
        if player.unit.is_some() {
            if player.team == own_team {
                allied += 1;
            } else if player.team == opposing {
                enemy += 1;
            }
        }
        index += 1;
    }
    assert(players@.take(players@.len() as int) =~= players@);
    (allied, enemy)
}

/// Living heroes of the opposing side; a side that opposes itself has none.
pub open spec fn enemy_alive(players: Seq<PlayerView>, own_team: Team) -> int {
    if own_team.opposing_spec() == own_team {
        0
    } else {
        tally(players, living(own_team.opposing_spec())) as int
    }
}

/// Own wealth and respawn, living heroes, and structures.
pub open spec fn standing_row(tracker: StateTracker, scoreboard: bool) -> Seq<Scalar> {
    let own = tracker.player_spec()->0;
    let players = tracker.view_spec().players@;
    let summary = tracker.history@[6];
    seq![
        signed_of(
            match own.gold {
                Some(gold) => gold as int,
                None => 0,
            },
            MAX_GOLD as int,
        ),
        signed_of(asset_value(tracker), MAX_GOLD as int),
        flag_of(own.unit is None),
        unit_of(own.respawn_left as int, MAX_AGE as int),
        flag_of(own.unit is Some),
        ratio_of(tally(players, living(tracker.team)) as int, 0, 5),
        if scoreboard {
            ratio_of(enemy_alive(players, tracker.team), 0, 5)
        } else {
            Scalar::Zero
        },
        signed_of(summary.allied_structure_hp as int, MAX_HP as int),
        signed_of(summary.enemy_structure_hp as int, MAX_HP as int),
        flag_of(summary.destroyed_structures_present),
        ratio_of(destroyed_total(summary), 0, MAX_STRUCTURE_COUNT as int),
    ]
}

fn encode_standing(tracker: &StateTracker, scoreboard: bool) -> (r: Vec<Scalar>)
    requires
        tracker.wf(),
        tracker.current is Some,
        tracker.player_spec() is Some,
    ensures
        r@ == standing_row(*tracker, scoreboard),
        r@.len() == 11,
        row_bounded(r@),
{
    let current = tracker.current.as_ref().unwrap();
    let own = tracker.player().unwrap();
    let summary = tracker.history[6];
    let gold: i64 = match own.gold {
        Some(gold) => gold as i64,
        None => 0,
    };
    let (allied, enemy) = alive_hero_counts(&current.players, tracker.team);
    let enemy_token = if scoreboard {
        count_ratio(enemy, 5)
    } else {
        Scalar::Zero
    };
    let row = vec![
        signed_ratio(gold, MAX_GOLD),
        signed_ratio(own_asset_value(tracker), MAX_GOLD),
        bool_feature(own.unit.is_none()),
        unit_ratio(own.respawn_left, MAX_AGE),
        bool_feature(own.unit.is_some()),
        count_ratio(allied, 5),
        enemy_token,
        signed_ratio(summary.allied_structure_hp, MAX_HP),
        signed_ratio(summary.enemy_structure_hp, MAX_HP),
        bool_feature(summary.destroyed_structures_present),
        destroyed_ratio(&summary),
    ];
    assert(row@ =~= standing_row(*tracker, scoreboard));
    row
}

/// Recent damage of one own body, without healing.
pub open spec fn body_damage(tracker: StateTracker, kind: UnitKind, dealt: bool) -> int {
    match latest_body(tracker, kind) {
        Some(track) => match latest_damage(
            tracker.events@,
            track.id,
            tracker.view_spec().tick,
            dealt,
        ) {
            Some(amount) => larger(amount as int, 0),
            None => 0,
        },
        None => 0,
    }
}

/// Recent damage of both own bodies.
pub open spec fn seat_damage(tracker: StateTracker, dealt: bool) -> int {
    body_damage(tracker, UnitKind::Hero, dealt) + body_damage(tracker, UnitKind::Courier, dealt)
}

fn own_body_damage(tracker: &StateTracker, kind: UnitKind, dealt: bool) -> (r: i64)
    requires
        tracker.current is Some,
    ensures
        r == body_damage(*tracker, kind, dealt),
        0 <= r <= 0x7fff_ffff,
{
    let current = tracker.current.as_ref().unwrap();
    match own_body_track(tracker, kind) {
        Some(track) => match recent_damage(tracker, track.id, current.tick, dealt) {
            Some(amount) => if amount > 0 {
                amount as i64
            } else {
                0
            },
            None => 0,
        },
        None => 0,
    }
}

/// Recent damage that the own bodies dealt and took.
pub fn snapshot_damage(tracker: &StateTracker) -> (r: (i64, i64))
    requires
        tracker.current is Some,
    ensures
        r.0 == seat_damage(*tracker, true),
        r.1 == seat_damage(*tracker, false),
{
    let dealt = own_body_damage(tracker, UnitKind::Hero, true) + own_body_damage(
        tracker,
        UnitKind::Courier,
        true,
    );
    let taken = own_body_damage(tracker, UnitKind::Hero, false) + own_body_damage(
        tracker,
        UnitKind::Courier,
        false,
    );
    (dealt, taken)
}

/// Active order, last decision, and recent damage.
pub open spec fn activity_row(tracker: StateTracker, local: LocalPolicyState) -> Seq<Scalar> {
    let tick = tracker.view_spec().tick;
    let active = local.active_order_spec();
    let decided = local.decisions@.len() > 0;
    seq![
        flag_of(active is Some),
        match active {
            Some(order) => category_of(order.kind.index_spec()),
            None => Scalar::Zero,
        },
        match active {
            Some(order) => unit_of(larger(tick - order.started_tick, 0), MAX_AGE as int),
            None => Scalar::Zero,
        },
        flag_of(decided),
        if decided {
            unit_of(larger(tick - local.decisions@.last().tick, 0), MAX_AGE as int)
        } else {
            Scalar::Zero
        },
        signed_of(seat_damage(tracker, true), MAX_DAMAGE as int),
        signed_of(seat_damage(tracker, false), MAX_DAMAGE as int),
    ]
}

fn encode_activity(tracker: &StateTracker, local: &LocalPolicyState) -> (r: Vec<Scalar>)
    requires
        tracker.current is Some,
        local.wf(),
    ensures
        r@ == activity_row(*tracker, *local),
        r@.len() == 7,
        row_bounded(r@),
{
    let current = tracker.current.as_ref().unwrap();
    let tick = current.tick;
    let active = local.active_order();
    let (kind, age) = match active {
        Some(order) => (
            category_token(order.kind.index()),
            unit_ratio(tick.saturating_sub(order.started_tick), MAX_AGE),
        ),
        None => (Scalar::Zero, Scalar::Zero),
    };
    let count = local.decisions.len();
    let since = if count > 0 {
        unit_ratio(tick.saturating_sub(local.decisions[count - 1].tick), MAX_AGE)
    } else {
        Scalar::Zero
    };
    let (dealt, taken) = snapshot_damage(tracker);
    let row = vec![
        bool_feature(active.is_some()),
        kind,
        age,
        bool_feature(count > 0),
        since,
        signed_ratio(dealt, MAX_DAMAGE),
        signed_ratio(taken, MAX_DAMAGE),
    ];
    assert(row@ =~= activity_row(*tracker, *local));
    row
}

/// Own score and visible units.
pub open spec fn score_row(tracker: StateTracker, scoreboard: bool) -> Seq<Scalar> {
    let own = tracker.player_spec()->0;
    let summary = tracker.history@[6];
    seq![
        ratio_of(own.level as int, 0, MAX_LEVEL as int),
        signed_of(own.xp as int, MAX_XP as int),
        ratio_of(own.kills as int, 0, MAX_SCORE as int),
        ratio_of(own.deaths as int, 0, MAX_SCORE as int),
        ratio_of(own.assists as int, 0, MAX_SCORE as int),
        ratio_of(own.last_hits as int, 0, MAX_SCORE as int),
        ratio_of(own.denies as int, 0, MAX_SCORE as int),
        ratio_of(summary.visible_allied_units as int, 0, 256),
        ratio_of(summary.visible_enemy_units as int, 0, 256),
        flag_of(scoreboard),
    ]
}

fn encode_own_score(tracker: &StateTracker, scoreboard: bool) -> (r: Vec<Scalar>)
    requires
        tracker.wf(),
        tracker.player_spec() is Some,
    ensures
        r@ == score_row(*tracker, scoreboard),
        r@.len() == 10,
        row_bounded(r@),
{
    let own = tracker.player().unwrap();
    let summary = tracker.history[6];
    let row = vec![
        ratio(own.level as i64, 0, MAX_LEVEL),
        signed_ratio(own.xp as i64, MAX_XP),
        ratio(own.kills as i64, 0, MAX_SCORE),
        ratio(own.deaths as i64, 0, MAX_SCORE),
        ratio(own.assists as i64, 0, MAX_SCORE),
        ratio(own.last_hits as i64, 0, MAX_SCORE),
        ratio(own.denies as i64, 0, MAX_SCORE),
        ratio(summary.visible_allied_units as i64, 0, 256),
        ratio(summary.visible_enemy_units as i64, 0, 256),
        bool_feature(scoreboard),
    ];
    assert(row@ =~= score_row(*tracker, scoreboard));
    row
}

/// Global scalars in schema order; enemy scoreboard values are zero unless they are admitted.
pub open spec fn global_row(
    tracker: StateTracker,
    local: LocalPolicyState,
    scoreboard: bool,
) -> Seq<Scalar> {
    setting_row(tracker, local) + (if scoreboard {
        lead_row(tracker.history@[6])
    } else {
        blank(7)
    }) + standing_row(tracker, scoreboard) + activity_row(tracker, local) + score_row(
        tracker,
        scoreboard,
    ) + blank(16)
}

/// Global scalars in schema order.
pub fn encode_global(tracker: &StateTracker, local: &LocalPolicyState, scoreboard: bool) -> (r: Vec<
    Scalar,
>)
    requires
        tracker.wf(),
        tracker.current is Some,
        tracker.player_spec() is Some,
        local.wf(),
    ensures
        r@ == global_row(*tracker, *local, scoreboard),
        r@.len() == 64,
        row_bounded(r@),
{
    let mut row = encode_setting(tracker, local);
    let leads = if scoreboard {
        encode_score_advantages(&tracker.history[6])
    } else {
        blank_row(7)
    };
    append_row(&mut row, &leads);
    append_row(&mut row, &encode_standing(tracker, scoreboard));
    append_row(&mut row, &encode_activity(tracker, local));
    append_row(&mut row, &encode_own_score(tracker, scoreboard));
    append_row(&mut row, &blank_row(16));
    row
}

/// Without an admitted scoreboard, two trackers that differ in the public scores of the sides
/// alone, now or at any sampled time, have the same global and history scalars.
pub proof fn disabled_scoreboard_hides_the_scores(
    left: StateTracker,
    right: StateTracker,
    local: LocalPolicyState,
)
    requires
        forall|i: int|
            0 <= i < 7 ==> (#[trigger] right.history@[i]) == (GlobalSummary {
                allied: right.history@[i].allied,
                enemy: right.history@[i].enemy,
                ..left.history@[i]
            }),
        right == (StateTracker { history: right.history, ..left }),
    ensures
        global_row(left, local, false) == global_row(right, local, false),
        history_rows(left, false) == history_rows(right, false),
{
    assert(right.history@[6].allied_structure_hp == left.history@[6].allied_structure_hp);
    assert(history_rows(left, false) =~= history_rows(right, false)) by {
        assert forall|i: int| 0 <= i < 7 implies history_table(left, false, i) == history_table(
            right,
            false,
            i,
        ) by {
            assert(right.history@[i].tick == left.history@[i].tick);
            assert(history_row(left.history@[i], left.view_spec().tick, false) =~= history_row(
                right.history@[i],
                right.view_spec().tick,
                false,
            ));
        }
    }
    assert(asset_value(left) == asset_value(right));
    assert(body_damage(left, UnitKind::Hero, true) == body_damage(right, UnitKind::Hero, true)) by {
        lemma_same_body(left, right, UnitKind::Hero);
    }
    assert(body_damage(left, UnitKind::Hero, false) == body_damage(right, UnitKind::Hero, false)) by {
        lemma_same_body(left, right, UnitKind::Hero);
    }
    assert(body_damage(left, UnitKind::Courier, true) == body_damage(
        right,
        UnitKind::Courier,
        true,
    )) by {
        lemma_same_body(left, right, UnitKind::Courier);
    }
    assert(body_damage(left, UnitKind::Courier, false) == body_damage(
        right,
        UnitKind::Courier,
        false,
    )) by {
        lemma_same_body(left, right, UnitKind::Courier);
    }
    assert(setting_row(left, local) =~= setting_row(right, local));
    assert(standing_row(left, false) =~= standing_row(right, false));
    assert(activity_row(left, local) =~= activity_row(right, local));
    assert(score_row(left, false) =~= score_row(right, false));
}

proof fn lemma_same_body(left: StateTracker, right: StateTracker, kind: UnitKind)
    requires
        right == (StateTracker { history: right.history, ..left }),
    ensures
        latest_body(left, kind) == latest_body(right, kind),
{
    assert forall|index: int|
        crate::events::is_latest_body(left, index, kind) == crate::events::is_latest_body(
            right,
            index,
            kind,
        ) by {
        assert forall|i: int| 0 <= i < left.entities@.len() implies crate::events::own_track(
            left,
            #[trigger] left.entities@[i],
            kind,
        ) == crate::events::own_track(right, right.entities@[i], kind) by {}
    }
    if exists|index: int| crate::events::is_latest_body(left, index, kind) {
        let a = choose|index: int| crate::events::is_latest_body(left, index, kind);
        let b = choose|index: int| crate::events::is_latest_body(right, index, kind);
        assert(crate::events::is_latest_body(right, a, kind));
        assert(crate::events::is_latest_body(left, b, kind));
        if a != b {
            assert(crate::events::own_track(left, left.entities@[a], kind));
            assert(crate::events::own_track(left, left.entities@[b], kind));
        }
    } else {
        if exists|index: int| crate::events::is_latest_body(right, index, kind) {
            let b = choose|index: int| crate::events::is_latest_body(right, index, kind);
            assert(crate::events::is_latest_body(left, b, kind));
        }
    }
}

} // verus!
