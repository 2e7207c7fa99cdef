use drysua::laning::{isqrt, raze_center, LaningError, LaningProxy, LaningScript};
use drysua::laning_observer::{LaningMessage, LaningMetrics, LaningObserver};
use drysua::tracker::ObservedKind;
use drysua::world::{
    AbilityId, AbilitySlot, AbilityView, Aim, Angle, DamageKind, EntityId, Fixed, Order,
    PlayerSlot, PlayerView, StatusFlags, Target, Team, UnitKind, UnitView, Vec2, WorldView,
};

fn unit(id: u64, kind: UnitKind, team: Team, x: i32, y: i32) -> UnitView {
    UnitView {
        id: EntityId(id),
        kind,
        team,
        owner: None,
        pos: Vec2::from_ints(x, y),
        facing: Angle { brads: 0 },
        radius: Fixed::from_int(24),
        hp: 100,
        max_hp: 100,
        mana: 100,
        max_mana: 100,
        move_speed: Fixed::from_int(300),
        attack_damage: 60,
        attack_range: Fixed::from_int(500),
        attack_interval: 50,
        attack_speed: 100,
        armor: Fixed::from_int(0),
        magic_resist: Fixed::from_int(0),
        vision_radius: Fixed::from_int(1_800),
        true_sight_radius: Fixed::from_int(0),
        statuses: StatusFlags { bits: 0 },
        abilities: vec![],
        items: vec![],
    }
}

fn ability(id: u16, cooldown_left: u32, can_level: bool) -> AbilityView {
    AbilityView {
        id: AbilityId(id),
        level: 1,
        max_level: 4,
        cooldown_left,
        mana_cost: 90,
        range: 200,
        aim: Aim::Own,
        passive: false,
        on: false,
        can_level,
    }
}

fn player(slot: u8, team: Team, body: u64) -> PlayerView {
    PlayerView {
        slot: PlayerSlot(slot),
        team,
        unit: Some(EntityId(body)),
        respawn_left: 0,
        level: 1,
        xp: 0,
        kills: 0,
        deaths: 2,
        assists: 0,
        last_hits: 7,
        denies: 3,
        gold: None,
        stash: None,
        kit: None,
    }
}

fn view(tick: u32) -> WorldView {
    WorldView {
        viewer: Some(Team::Radiant),
        tick,
        units: vec![
            unit(1, UnitKind::Hero, Team::Radiant, 5_000, 5_000),
            unit(10, UnitKind::Tower, Team::Radiant, 4_000, 4_000),
            unit(11, UnitKind::Tower, Team::Dire, 8_000, 8_000),
            unit(12, UnitKind::Fountain, Team::Radiant, 1_000, 1_000),
        ],
        players: vec![player(0, Team::Radiant, 1), player(1, Team::Dire, 2)],
        loot: vec![],
        projectiles: vec![],
        felled_trees: vec![],
        planted_trees: vec![],
    }
}

fn attack(id: u64) -> Order {
    Order::Attack { target: Target::Unit(EntityId(id)) }
}

fn move_to(x: i32, y: i32) -> Order {
    Order::Move { target: Target::Pos(Vec2::from_ints(x, y)) }
}

#[test]
fn scripts_walk_to_the_lane_once() {
    let mut script = LaningScript::new(0, LaningProxy::RightClick, 900);

    assert_eq!(script.decide(&view(1)), Ok(Some(move_to(6_000, 6_000))));
    assert_eq!(script.decide(&view(2)), Ok(None));
    assert_eq!(script.decide(&view(4)), Ok(None));
}

#[test]
fn attacks_commit_for_twenty_four_ticks() {
    let mut script = LaningScript::new(0, LaningProxy::RightClick, 900);
    let with = |tick: u32, hp: i32, id: u64| {
        let mut view = view(tick);
        let mut creep = unit(id, UnitKind::CreepMelee, Team::Dire, 5_100, 5_000);
        creep.hp = hp;
        view.units.push(creep);
        view
    };

    assert_eq!(script.decide(&with(901, 40, 20)), Ok(Some(attack(20))));
    assert_eq!(script.decide(&with(904, 40, 21)), Ok(None));
    assert_eq!(script.decide(&with(922, 40, 21)), Ok(None));
    assert_eq!(script.decide(&with(925, 40, 21)), Ok(Some(attack(21))));
    assert_eq!(
        script.decide(&with(949, 41, 22)),
        Ok(Some(Order::Attack { target: Target::Pos(Vec2::from_ints(6_000, 6_000)) }))
    );
}

#[test]
fn harassment_spares_heroes_under_towers() {
    let mut open = view(901);
    open.units.push(unit(2, UnitKind::Hero, Team::Dire, 5_900, 5_000));
    let mut covered = view(901);
    covered.units.push(unit(2, UnitKind::Hero, Team::Dire, 5_900, 5_000));
    covered.units.push(unit(13, UnitKind::Tower, Team::Dire, 6_500, 5_000));

    let decide = |view: &WorldView| {
        LaningScript::new(0, LaningProxy::RightClick, 0).decide(view).expect("order")
    };

    assert_eq!(decide(&open), Some(attack(2)));
    assert_eq!(
        decide(&covered),
        Some(Order::Attack { target: Target::Pos(Vec2::from_ints(6_000, 6_000)) })
    );
}

#[test]
fn pushes_go_past_the_center() {
    let mut script = LaningScript::new(0, LaningProxy::LanePush, 0);

    assert_eq!(
        script.decide(&view(1)),
        Ok(Some(Order::Attack { target: Target::Pos(Vec2::from_ints(7_200, 7_200)) }))
    );
}

#[test]
fn razes_hit_what_stands_ahead() {
    let mut near = view(901);
    near.units[0].abilities = vec![ability(9, 0, false), ability(13, 0, false)];
    near.units.push(unit(20, UnitKind::CreepRanged, Team::Dire, 5_200, 5_100));
    let mut far = view(901);
    far.units[0].abilities = vec![ability(13, 0, false)];
    far.units.push(unit(20, UnitKind::CreepRanged, Team::Dire, 5_600, 5_000));
    let decide = |view: &WorldView| {
        LaningScript::new(0, LaningProxy::RazeFarm, 0).decide(view).expect("order")
    };

    assert_eq!(
        decide(&near),
        Some(Order::Cast { slot: AbilitySlot(1), target: Target::Untargeted })
    );
    assert_eq!(
        decide(&far),
        Some(Order::Attack { target: Target::Pos(Vec2::from_ints(6_000, 6_000)) })
    );
    let hero = &near.units[0];
    assert_eq!(raze_center(hero, 200), (5_200 << 16, 5_000 << 16));
    assert_eq!(isqrt(67_108_864), 8_192);
    assert_eq!(isqrt(8), 2);
}

#[test]
fn abilities_are_learned_first() {
    let mut script = LaningScript::new(0, LaningProxy::RightClick, 900);
    let mut view = view(1);
    view.units[0].abilities = vec![ability(9, 0, false), ability(10, 0, true)];

    assert_eq!(script.decide(&view), Ok(Some(Order::Learn { slot: AbilitySlot(1) })));
}

#[test]
fn hurt_heroes_retreat_until_healed() {
    let mut script = LaningScript::new(0, LaningProxy::RightClick, 900);
    let with = |tick: u32, hp: i32| {
        let mut view = view(tick);
        view.units[0].hp = hp;
        view
    };

    assert_eq!(script.decide(&with(1, 54)), Ok(Some(move_to(1_000, 1_000))));
    assert!(script.recovering);
    assert_eq!(script.decide(&with(4, 89)), Ok(None));
    assert!(script.recovering);
    assert_eq!(script.decide(&with(7, 90)), Ok(Some(move_to(6_000, 6_000))));
    assert_eq!(script.decide(&with(10, 0)), Ok(None));
    assert_eq!(script.last, None);
}

#[test]
fn views_are_checked_in_order() {
    let mut script = LaningScript::new(0, LaningProxy::RightClick, 900);
    let mut seat = view(1);
    seat.viewer = Some(Team::Dire);
    let mut peeking = view(1);
    peeking.players[1].gold = Some(1);
    let mut bare = view(1);
    bare.units.truncate(1);

    assert_eq!(script.decide(&seat), Err(LaningError::Seat));
    assert_eq!(script.decide(&peeking), Err(LaningError::Seat));
    assert_eq!(script.decide(&view(6_301)), Err(LaningError::Limits));
    assert_eq!(script.decide(&view(0)), Err(LaningError::Limits));
    assert_eq!(script.decide(&bare), Err(LaningError::Geometry));
    assert_eq!(
        LaningError::Seat.message(),
        "laning requires the assigned seat's fogged two-player view"
    );
    assert_eq!(LaningError::Limits.message(), "laning view exceeds tick/unit/ability limits");
    assert_eq!(
        LaningError::Geometry.message(),
        "laning Map1 requires two initially public lane towers"
    );
}

fn damage(source: u64, target: u64, amount: i32, kind: DamageKind) -> ObservedKind {
    ObservedKind::Damaged {
        source: Some(EntityId(source)),
        target: EntityId(target),
        amount,
        kind,
        crit: false,
    }
}

#[test]
fn observers_count_a_complete_tick() {
    let mut observer = LaningObserver::new(0);
    assert_eq!(observer.metrics, LaningMetrics::default());
    let mut view = view(3_000);
    view.units[0].pos = Vec2::from_ints(5_500, 5_500);
    view.units[0].abilities = vec![ability(13, 30, false)];
    view.units.push(unit(20, UnitKind::CreepMelee, Team::Dire, 6_000, 6_000));
    observer.observe(LaningMessage::Snapshot { view }).expect("snapshot");
    observer
        .observe(LaningMessage::Events {
            tick: 3_000,
            events: vec![
                damage(1, 2, 30, DamageKind::Physical),
                damage(1, 2, 40, DamageKind::Magical),
                damage(1, 20, 25, DamageKind::Physical),
                damage(2, 1, 12, DamageKind::Physical),
                damage(1, 2, 0, DamageKind::Physical),
                ObservedKind::AbilityCast { caster: EntityId(1), ability: AbilityId(13) },
                ObservedKind::AbilityCast { caster: EntityId(1), ability: AbilityId(13) },
                ObservedKind::Other,
            ],
        })
        .expect("events");
    observer.observe(LaningMessage::OrderRejected).expect("rejection");
    observer.observe(LaningMessage::MatchOver { winner: Team::Dire }).expect("end");
    observer.observe(LaningMessage::Other).expect("other");

    assert_eq!(
        observer.metrics,
        LaningMetrics {
            hero_damage: 70,
            hero_magical_damage: 40,
            hero_damage_taken: 12,
            hero_physical_hits: 1,
            hero_magical_hits: 1,
            unit_physical_hits: 2,
            confirmed_casts: 1,
            first_center_tick: Some(3_000),
            phase_ticks: 1,
            phase_alive_ticks: 1,
            phase_xp_ticks: 1,
            healthy_behind_tower_ticks: 0,
            last_hits: 7,
            denies: 3,
            deaths: 2,
            rejections: 1,
            winner: Some(Team::Dire),
        }
    );
}

#[test]
fn quiet_healthy_heroes_behind_their_tower_are_counted() {
    let mut observer = LaningObserver::new(0);
    for (tick, events) in [
        (3_000, vec![damage(2, 1, 5, DamageKind::Pure)]),
        (3_090, vec![]),
        (3_091, vec![]),
    ] {
        let mut view = view(tick);
        view.units[0].pos = Vec2::from_ints(3_000, 3_000);
        observer.observe(LaningMessage::Snapshot { view }).expect("snapshot");
        observer.observe(LaningMessage::Events { tick, events }).expect("events");
    }

    assert_eq!(observer.metrics.healthy_behind_tower_ticks, 1);
    assert_eq!(observer.metrics.phase_alive_ticks, 3);
    assert_eq!(observer.metrics.first_center_tick, None);
}

#[test]
fn snapshots_and_events_alternate() {
    let mut observer = LaningObserver::new(0);
    let snapshot = |tick: u32| LaningMessage::Snapshot { view: view(tick) };
    let events = |tick: u32, count: usize| LaningMessage::Events {
        tick,
        events: vec![ObservedKind::Other; count],
    };

    assert_eq!(observer.observe(events(5, 0)), Err(LaningError::EventsOrder));
    assert_eq!(observer.observe(snapshot(5)), Ok(()));
    assert_eq!(observer.observe(snapshot(6)), Err(LaningError::SnapshotOrder));
    assert_eq!(observer.observe(events(6, 0)), Err(LaningError::EventsOrder));
    assert_eq!(observer.observe(events(5, 4_097)), Err(LaningError::EventBatch));
    assert_eq!(observer.observe(events(5, 4_096)), Ok(()));
    assert_eq!(observer.observe(events(5, 0)), Err(LaningError::EventsOrder));
    assert_eq!(observer.observe(snapshot(5)), Err(LaningError::SnapshotOrder));
    assert_eq!(
        LaningError::SnapshotOrder.message(),
        "laning Snapshot repeated, regressed, or preceded Events"
    );
    assert_eq!(
        LaningError::EventsOrder.message(),
        "laning Events must complete exactly one matching Snapshot"
    );
    assert_eq!(LaningError::EventBatch.message(), "laning event batch exceeds 4096");
    assert_eq!(
        LaningError::HeroHistory.message(),
        "laning hero identity history exceeds 128"
    );
}

#[test]
fn hero_histories_are_bounded() {
    let mut observer = LaningObserver::new(0);
    let mut last = Ok(());
    for step in 1..=70u32 {
        let mut view = view(step);
        view.players[0].unit = Some(EntityId(1_000 + u64::from(step)));
        view.players[1].unit = Some(EntityId(2_000 + u64::from(step)));
        last = observer.observe(LaningMessage::Snapshot { view });
        if last.is_err() {
            assert_eq!(step, 65);
            break;
        }
        observer
            .observe(LaningMessage::Events { tick: step, events: vec![] })
            .expect("events");
    }

    assert_eq!(last, Err(LaningError::HeroHistory));
}

#[test]
fn positions_off_the_map_are_measured_too() {
    let mut far = view(901);
    far.units[0].pos = Vec2::from_ints(-32_768, -32_768);
    far.units.push(unit(20, UnitKind::CreepMelee, Team::Dire, 32_767, 32_767));
    far.units.push(unit(21, UnitKind::Hero, Team::Dire, -32_000, -32_768));

    let mut script = LaningScript::new(0, LaningProxy::RightClick, 0);
    assert_eq!(script.decide(&far), Ok(Some(attack(21))));
    let mut observer = LaningObserver::new(0);
    observer.observe(LaningMessage::Snapshot { view: far }).expect("snapshot");
}
