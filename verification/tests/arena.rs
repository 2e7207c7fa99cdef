use drysua::arena::{
    match_config, seed_key, start_stream, visible_events, Arena, ArenaConfig, ArenaError,
    ArenaMessage, Command, EventVisibility, Request,
};
use drysua::sample::SHADOW_FIEND;
use drysua::world::{HeroId, MapId, Order, PlayerSlot, Target, Team};

fn settings(seats: u8) -> ArenaConfig {
    ArenaConfig { seats, map: MapId(1), seed: 0x0102_0304_0506_0708 }
}

fn stop(seq: u32) -> Option<Request> {
    Some(Request { seq, unit: None, order: Order::Move { target: Target::Untargeted } })
}

#[test]
fn seats_alternate_between_the_teams() {
    let plan = match_config(settings(3));

    let teams: Vec<Team> = plan.picks.iter().map(|pick| pick.team).collect();
    assert_eq!(teams, vec![Team::Radiant, Team::Dire, Team::Radiant]);
    assert!(plan.picks.iter().all(|pick| pick.hero == HeroId(SHADOW_FIEND)));
    assert_eq!(plan.picks[2].slot, PlayerSlot(2));
    assert_eq!(plan.match_id, 0x0102_0304_0506_0708);
    assert_eq!((plan.tick_rate, plan.ack_timeout_ticks), (30, 150));
    assert_eq!(plan.map, MapId(1));
}

#[test]
fn keys_repeat_the_seed_bytes() {
    let key = seed_key(0x0102_0304_0506_0708);

    assert_eq!(&key[..8], &[8, 7, 6, 5, 4, 3, 2, 1]);
    assert_eq!(&key[24..], &[8, 7, 6, 5, 4, 3, 2, 1]);
}

#[test]
fn arenas_check_their_use() {
    let error = Arena::new(settings(1), None).unwrap_err();
    assert_eq!(error, ArenaError::SeatCount { got: 1 });
    assert_eq!(error.message(), "arena seat count must be between 2 and 10, got 1");
    assert_eq!(Arena::new(settings(11), None).unwrap_err(), ArenaError::SeatCount { got: 11 });
    let arena = Arena::new(settings(2), None).expect("arena");
    assert_eq!((arena.seat_count(), arena.tick()), (2, 1));
    let error = arena.step(&vec![None], &vec![None]).unwrap_err();
    assert_eq!(error, ArenaError::RequestCount { expected: 2, got: 1 });
    assert_eq!(error.message(), "arena request count must equal seat count 2, got 1");
    let over = Arena::new(settings(2), Some(Team::Dire)).expect("arena");
    let error = over.step(&vec![None, None], &vec![None, None]).unwrap_err();
    assert_eq!(error, ArenaError::MatchOver);
    assert_eq!(error.message(), "arena cannot step after MatchOver");
}

#[test]
fn requests_are_admitted_or_rejected() {
    let arena = Arena::new(settings(3), None).expect("arena");

    let plan = arena
        .step(&vec![stop(4), None, stop(6)], &vec![None, Some(9), Some(7)])
        .expect("plan");

    assert_eq!(
        plan.commands,
        vec![Command {
            slot: PlayerSlot(0),
            unit: None,
            order: Order::Move { target: Target::Untargeted },
        }]
    );
    assert_eq!(plan.rejections, vec![None, None, Some((6, 7))]);
}

#[test]
fn streams_show_each_team_its_events() {
    let events = vec![
        EventVisibility::Everyone,
        EventVisibility::OneTeam(Team::Dire),
        EventVisibility::OneTeam(Team::Radiant),
    ];

    assert_eq!(visible_events(&events, Team::Radiant), vec![0, 2]);
    assert_eq!(
        start_stream(&events, Team::Dire, None),
        vec![
            ArenaMessage::MatchStart,
            ArenaMessage::Snapshot,
            ArenaMessage::Events { indices: vec![0, 1] },
        ]
    );
    assert_eq!(
        Arena::step_stream(Some((6, 7)), &vec![], Team::Radiant, Some(Team::Dire)),
        vec![
            ArenaMessage::OrderRejected { seq: 6, reason: 7 },
            ArenaMessage::Snapshot,
            ArenaMessage::MatchOver { winner: Team::Dire },
        ]
    );
}
