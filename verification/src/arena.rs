//! Lockstep matches: seats, admitted requests, and the message stream of every seat.
use crate::sample::SHADOW_FIEND;
use crate::text::{decimal, owned, with_decimal, with_text};
use crate::world::{EntityId, HeroId, MapId, Order, PlayerSlot, Team};
use vstd::prelude::*;

verus! {

/// Smallest supported vectorized match.
pub const MIN_ARENA_SEATS: u8 = 2;
/// Largest supported vectorized match.
pub const MAX_ARENA_SEATS: u8 = 10;
/// Simulation tick rate recorded in match information.
pub const ARENA_TICK_RATE: u16 = 30;
/// Ticks a lockstep match waits for an acknowledgement.
pub const ARENA_ACK_TIMEOUT_TICKS: u32 = 150;

/// Settings used to construct one match.
#[derive(Clone, Copy, Debug, PartialEq, Eq, Structural)]
pub struct ArenaConfig {
    /// Number of seats in the range 2 through 10.
    pub seats: u8,
    /// Map used by the match.
    pub map: MapId,
    /// Match identity and deterministic random seed.
    pub seed: u64,
}

/// At most one order request from one seat for one step.
#[derive(Clone, Copy, Debug, PartialEq, Eq)]
pub struct Request {
    /// Sequence number returned with a rejection.
    pub seq: u32,
    /// Unit to control, or the seat hero when absent.
    pub unit: Option<EntityId>,
    /// Order to validate and apply.
    pub order: Order,
}

/// Invalid input or lifecycle use of an arena.
#[allow(inconsistent_fields)]
#[derive(Clone, Copy, Debug, PartialEq, Eq, Structural)]
pub enum ArenaError {
    /// The configured seat count is outside 2 through 10.
    SeatCount { got: u8 },
    /// The request list does not contain one entry per seat.
    RequestCount { expected: usize, got: usize },
    /// The match already sent its end.
    MatchOver,
}

impl ArenaError {
    pub open spec fn message_spec(self) -> Seq<char> {
        match self {
            ArenaError::SeatCount { got } => "arena seat count must be between 2 and 10, got "@
                + decimal(got as nat),
            ArenaError::RequestCount { expected, got } =>
                "arena request count must equal seat count "@ + decimal(expected as nat) + ", got "@
                + decimal(got as nat),
            ArenaError::MatchOver => "arena cannot step after MatchOver"@,
        }
    }

    /// Text of the failure.
    pub fn message(&self) -> (r: String)
        ensures
            r@ == self.message_spec(),
    {
        match self {
            ArenaError::SeatCount { got } => with_decimal(
                owned("arena seat count must be between 2 and 10, got "),
                *got as u64,
            ),
            ArenaError::RequestCount { expected, got } => with_decimal(
                with_text(
                    with_decimal(
                        owned("arena request count must equal seat count "),
                        *expected as u64,
                    ),
                    ", got ",
                ),
                *got as u64,
            ),
            ArenaError::MatchOver => owned("arena cannot step after MatchOver"),
        }
    }
}

/// Seat, side, and hero of one player.
#[derive(Clone, Copy, Debug, PartialEq, Eq, Structural)]
pub struct Pick {
    pub slot: PlayerSlot,
    pub team: Team,
    pub hero: HeroId,
}

/// Everything a match is built from.
#[derive(Debug)]
pub struct MatchPlan {
    pub match_id: u64,
    pub master_key: [u8; 32],
    pub picks: Vec<Pick>,
    pub map: MapId,
    pub tick_rate: u16,
    pub ack_timeout_ticks: u32,
}

/// Pick of a seat: sides alternate, and every hero is the supported one.
pub open spec fn pick_of(seat: int) -> Pick {
    Pick {
        slot: PlayerSlot(seat as u8),
        team: if seat % 2 == 0 {
            Team::Radiant
        } else {
            Team::Dire
        },
        hero: HeroId(SHADOW_FIEND),
    }
}

/// Little-endian byte of a seed.
pub open spec fn seed_byte(seed: u64, index: int) -> u8 {
    vstd::bytes::spec_u64_to_le_bytes(seed)[index % 8]
}

/// Seed repeated to the length of a key.
pub fn seed_key(seed: u64) -> (r: [u8; 32])
    ensures
        forall|i: int| 0 <= i < 32 ==> #[trigger] r@[i] == seed_byte(seed, i),
{
    let bytes = vstd::bytes::u64_to_le_bytes(seed);
    let mut key = [0u8; 32];
    let mut index: usize = 0;
    while index < 32
        invariant
            index <= 32,
            bytes@ == vstd::bytes::spec_u64_to_le_bytes(seed),
            bytes@.len() == 8,
            forall|i: int| 0 <= i < index ==> #[trigger] key@[i] == seed_byte(seed, i),
        decreases 32 - index,
    {
        key[index] = bytes[index % 8];
        index += 1;
    }
    key
}

/// Checks the seat count of a match.
pub fn validate_seat_count(seats: u8) -> (r: Result<(), ArenaError>)
    ensures
        r == (if MIN_ARENA_SEATS <= seats <= MAX_ARENA_SEATS {
            Ok(())
        } else {
            Err::<(), ArenaError>(ArenaError::SeatCount { got: seats })
        }),
{
    if seats < MIN_ARENA_SEATS || seats > MAX_ARENA_SEATS {
        return Err(ArenaError::SeatCount { got: seats });
    }
    Ok(())
}

/// Plan of a match.
pub fn match_config(settings: ArenaConfig) -> (r: MatchPlan)
    ensures
        r.match_id == settings.seed,
        forall|i: int| 0 <= i < 32 ==> #[trigger] r.master_key@[i] == seed_byte(settings.seed, i),
        r.picks@ == Seq::new(settings.seats as nat, |i: int| pick_of(i)),
        r.map == settings.map,
        r.tick_rate == ARENA_TICK_RATE,
        r.ack_timeout_ticks == ARENA_ACK_TIMEOUT_TICKS,
{
    let mut picks: Vec<Pick> = Vec::new();
    let mut seat: u8 = 0;
    while seat < settings.seats
        invariant
            seat <= settings.seats,
            picks@.len() == seat,
            forall|i: int| 0 <= i < seat ==> #[trigger] picks@[i] == pick_of(i),
        decreases settings.seats - seat,
    {
        let team = if seat % 2 == 0 {
            Team::Radiant
        } else {
            Team::Dire
        };
        picks.push(Pick { slot: PlayerSlot(seat), team, hero: HeroId(SHADOW_FIEND) });
        seat += 1;
    }
    assert(picks@ =~= Seq::new(settings.seats as nat, |i: int| pick_of(i)));
    MatchPlan {
        match_id: settings.seed,
        master_key: seed_key(settings.seed),
        picks,
        map: settings.map,
        tick_rate: ARENA_TICK_RATE,
        ack_timeout_ticks: ARENA_ACK_TIMEOUT_TICKS,
    }
}

/// Who sees an event.
#[derive(Clone, Copy, Debug, PartialEq, Eq, Structural)]
pub enum EventVisibility {
    Everyone,
    OneTeam(Team),
}

impl EventVisibility {
    pub open spec fn shows(self, team: Team) -> bool {
        match self {
            EventVisibility::Everyone => true,
            EventVisibility::OneTeam(visible) => visible == team,
        }
    }

    /// Whether a side sees the event.
    pub fn is_shown(self, team: Team) -> (r: bool)
        ensures
            r == self.shows(team),
    {
        match self {
            EventVisibility::Everyone => true,
            EventVisibility::OneTeam(visible) => visible == team,
        }
    }
}

/// Indices of the first events that a side sees.
pub open spec fn shown_events(events: Seq<EventVisibility>, team: Team, count: int) -> Seq<usize>
    decreases count,
{
    if count <= 0 {
        Seq::empty()
    } else {
        let rest = shown_events(events, team, count - 1);
        if events[count - 1].shows(team) {
            rest.push((count - 1) as usize)
        } else {
            rest
        }
    }
}

/// Indices of the events that a side sees, in order.
pub fn visible_events(events: &Vec<EventVisibility>, team: Team) -> (r: Vec<usize>)
    ensures
        r@ == shown_events(events@, team, events@.len() as int),
{
    let mut output: Vec<usize> = Vec::new();
    let mut index: usize = 0;
    while index < events.len()
        invariant
            index <= events@.len(),
            output@ == shown_events(events@, team, index as int),
        decreases events@.len() - index,
    {
        if events[index].is_shown(team) {
            output.push(index);
        }
        index += 1;
    }
    output
}

/// One message of a seat's stream; events are named by their indices.
#[derive(Debug, PartialEq, Eq)]
pub enum ArenaMessage {
    MatchStart,
    OrderRejected { seq: u32, reason: u32 },
    Snapshot,
    Events { indices: Vec<usize> },
    MatchOver { winner: Team },
}

/// Contents of a message.
pub enum MessageView {
    MatchStart,
    OrderRejected { seq: u32, reason: u32 },
    Snapshot,
    Events { indices: Seq<usize> },
    MatchOver { winner: Team },
}

impl View for ArenaMessage {
    type V = MessageView;

    open spec fn view(&self) -> MessageView {
        match self {
            ArenaMessage::MatchStart => MessageView::MatchStart,
            ArenaMessage::OrderRejected { seq, reason } => MessageView::OrderRejected {
                seq: *seq,
                reason: *reason,
            },
            ArenaMessage::Snapshot => MessageView::Snapshot,
            ArenaMessage::Events { indices } => MessageView::Events { indices: indices@ },
            ArenaMessage::MatchOver { winner } => MessageView::MatchOver { winner: *winner },
        }
    }
}

/// Messages of a stream.
pub open spec fn stream_of(stream: Seq<ArenaMessage>) -> Seq<MessageView> {
    stream.map_values(|message: ArenaMessage| message@)
}

/// Messages of an advanced tick that every stream ends with.
pub open spec fn tick_tail(
    events: Seq<EventVisibility>,
    team: Team,
    victor: Option<Team>,
) -> Seq<MessageView> {
    let shown = shown_events(events, team, events.len() as int);
    seq![MessageView::Snapshot] + (if shown.len() > 0 {
        seq![MessageView::Events { indices: shown }]
    } else {
        Seq::empty()
    }) + match victor {
        Some(winner) => seq![MessageView::MatchOver { winner }],
        None => Seq::empty(),
    }
}

/// Appends the messages of an advanced tick to one stream.
pub fn append_tick_messages(
    stream: &mut Vec<ArenaMessage>,
    events: &Vec<EventVisibility>,
    team: Team,
    victor: Option<Team>,
)
    ensures
        stream_of(final(stream)@) == stream_of(old(stream)@) + tick_tail(events@, team, victor),
{
    let ghost before = stream_of(stream@);
    stream.push(ArenaMessage::Snapshot);
    assert(stream_of(stream@) =~= before.push(MessageView::Snapshot));
    let visible = visible_events(events, team);
    let ghost shown = visible@;
    let ghost middle = stream_of(stream@);
    if visible.len() > 0 {
        stream.push(ArenaMessage::Events { indices: visible });
        assert(stream_of(stream@) =~= middle.push(MessageView::Events { indices: shown }));
    }
    let ghost late = stream_of(stream@);
    match victor {
        Some(winner) => {
            stream.push(ArenaMessage::MatchOver { winner });
            assert(stream_of(stream@) =~= late.push(MessageView::MatchOver { winner }));
        },
        None => {},
    }
    assert(stream_of(stream@) =~= before + tick_tail(events@, team, victor));
}

/// First messages of one seat.
pub fn start_stream(events: &Vec<EventVisibility>, team: Team, victor: Option<Team>) -> (r: Vec<
    ArenaMessage,
>)
    ensures
        stream_of(r@) == seq![MessageView::MatchStart] + tick_tail(events@, team, victor),
{
    let mut stream = vec![ArenaMessage::MatchStart];
    assert(stream_of(stream@) =~= seq![MessageView::MatchStart]);
    append_tick_messages(&mut stream, events, team, victor);
    stream
}

/// Order that a match applies.
#[derive(Clone, Copy, Debug, PartialEq, Eq)]
pub struct Command {
    pub slot: PlayerSlot,
    pub unit: Option<EntityId>,
    pub order: Order,
}

/// Seats of a match, its tick, and who won it.
#[derive(Debug)]
pub struct Arena {
    pub picks: Vec<Pick>,
    pub tick: u32,
    pub victor: Option<Team>,
}

/// Admitted commands, and the rejection of every seat.
#[derive(Debug)]
pub struct StepPlan {
    pub commands: Vec<Command>,
    pub rejections: Vec<Option<(u32, u32)>>,
}

/// Commands of the first seats: those whose request the rules admit.
pub open spec fn admitted(
    picks: Seq<Pick>,
    requests: Seq<Option<Request>>,
    verdicts: Seq<Option<u32>>,
    count: int,
) -> Seq<Command>
    decreases count,
{
    if count <= 0 {
        Seq::empty()
    } else {
        let rest = admitted(picks, requests, verdicts, count - 1);
        match (requests[count - 1], verdicts[count - 1]) {
            (Some(request), None) => rest.push(
                Command {
                    slot: picks[count - 1].slot,
                    unit: request.unit,
                    order: request.order,
                },
            ),
            _ => rest,
        }
    }
}

/// Rejection of one seat: the sequence of its request and the reason.
pub open spec fn rejection(request: Option<Request>, verdict: Option<u32>) -> Option<(u32, u32)> {
    match (request, verdict) {
        (Some(known), Some(reason)) => Some((known.seq, reason)),
        _ => None,
    }
}

impl Arena {
    /// Arena of a match at its first visible tick.
    pub fn new(settings: ArenaConfig, victor: Option<Team>) -> (r: Result<Self, ArenaError>)
        ensures
            if MIN_ARENA_SEATS <= settings.seats <= MAX_ARENA_SEATS {
                r matches Ok(arena) && arena.picks@ == Seq::new(
                    settings.seats as nat,
                    |i: int| pick_of(i),
                ) && arena.tick == 1 && arena.victor == victor
            } else {
                r == Err::<Arena, ArenaError>(ArenaError::SeatCount { got: settings.seats })
            },
    {
        match validate_seat_count(settings.seats) {
            Ok(()) => {},
            Err(error) => {
                return Err(error);
            },
        }
        Ok(Arena { picks: match_config(settings).picks, tick: 1, victor })
    }

    /// Number of seats in this match.
    pub fn seat_count(&self) -> (r: usize)
        ensures
            r == self.picks@.len(),
    {
        self.picks.len()
    }

    /// Current simulation tick.
    pub fn tick(&self) -> (r: u32)
        ensures
            r == self.tick,
    {
        self.tick
    }

    /// Why a step is refused.
    pub open spec fn step_fault(self, count: int) -> Option<ArenaError> {
        if self.victor is Some {
            Some(ArenaError::MatchOver)
        } else if count != self.picks@.len() {
            Some(
                ArenaError::RequestCount {
                    expected: self.picks@.len() as usize,
                    got: count as usize,
                },
            )
        } else {
            None
        }
    }

    /// Splits requests by the verdicts of the rules: a verdict is the reason of a rejection.
    pub fn step(&self, requests: &Vec<Option<Request>>, verdicts: &Vec<Option<u32>>) -> (r: Result<
        StepPlan,
        ArenaError,
    >)
        requires
            verdicts@.len() == requests@.len(),
        ensures
            match self.step_fault(requests@.len() as int) {
                Some(error) => r == Err::<StepPlan, ArenaError>(error),
                None => r matches Ok(plan) && plan.commands@ == admitted(
                    self.picks@,
                    requests@,
                    verdicts@,
                    requests@.len() as int,
                ) && plan.rejections@ == Seq::new(
                    requests@.len(),
                    |i: int| rejection(requests@[i], verdicts@[i]),
                ),
            },
    {
        if self.victor.is_some() {
            return Err(ArenaError::MatchOver);
        }
        let seats = self.picks.len();
        if requests.len() != seats {
            return Err(ArenaError::RequestCount { expected: seats, got: requests.len() });
        }
        let mut commands: Vec<Command> = Vec::new();
        let mut rejections: Vec<Option<(u32, u32)>> = Vec::new();
        let mut index: usize = 0;
        while index < seats
            invariant
                index <= seats,
                seats == self.picks@.len(),
                requests@.len() == seats,
                verdicts@.len() == seats,
                commands@ == admitted(self.picks@, requests@, verdicts@, index as int),
                rejections@.len() == index,
                forall|i: int|
                    0 <= i < index ==> #[trigger] rejections@[i] == rejection(
                        requests@[i],
                        verdicts@[i],
                    ),
            decreases seats - index,
        {
            match (requests[index], verdicts[index]) {
                (Some(request), None) => {
                    commands.push(
                        Command {
                            slot: self.picks[index].slot,
                            unit: request.unit,
                            order: request.order,
                        },
                    );
                    rejections.push(None);
                },
                (Some(request), Some(reason)) => {
                    rejections.push(Some((request.seq, reason)));
                },
                _ => {
                    rejections.push(None);
                },
            }
            index += 1;
        }
        assert(rejections@ =~= Seq::new(
            requests@.len(),
            |i: int| rejection(requests@[i], verdicts@[i]),
        ));
        Ok(StepPlan { commands, rejections })
    }

    /// Messages of one seat after a step: its rejection, then those of the tick.
    pub fn step_stream(
        rejected: Option<(u32, u32)>,
        events: &Vec<EventVisibility>,
        team: Team,
        victor: Option<Team>,
    ) -> (r: Vec<ArenaMessage>)
        ensures
            stream_of(r@) == (match rejected {
                Some(pair) => seq![MessageView::OrderRejected { seq: pair.0, reason: pair.1 }],
                None => Seq::empty(),
            }) + tick_tail(events@, team, victor),
    {
        let mut stream: Vec<ArenaMessage> = Vec::new();
        match rejected {
            Some((seq, reason)) => {
                stream.push(ArenaMessage::OrderRejected { seq, reason });
                assert(stream_of(stream@) =~= seq![MessageView::OrderRejected { seq, reason }]);
            },
            None => {
                assert(stream_of(stream@) =~= Seq::<MessageView>::empty());
            },
        }
        append_tick_messages(&mut stream, events, team, victor);
        stream
    }
}

/// A request is admitted or rejected, never both, and a seat without one is neither.
pub proof fn requests_are_settled_once(
    picks: Seq<Pick>,
    requests: Seq<Option<Request>>,
    verdicts: Seq<Option<u32>>,
    count: int,
)
    requires
        0 <= count <= requests.len(),
        requests.len() == verdicts.len(),
        requests.len() == picks.len(),
    ensures
        admitted(picks, requests, verdicts, count).len() + crate::search::tally(
            Seq::new(count as nat, |i: int| rejection(requests[i], verdicts[i])),
            |entry: Option<(u32, u32)>| entry is Some,
        ) == crate::search::tally(requests.take(count), |entry: Option<Request>| entry is Some),
    decreases count,
{
    let settled = |entry: Option<(u32, u32)>| entry is Some;
    let asked = |entry: Option<Request>| entry is Some;
    if count > 0 {
        requests_are_settled_once(picks, requests, verdicts, count - 1);
        let rejected = Seq::new(count as nat, |i: int| rejection(requests[i], verdicts[i]));
        assert(rejected.drop_last() =~= Seq::new(
            (count - 1) as nat,
            |i: int| rejection(requests[i], verdicts[i]),
        ));
        assert(requests.take(count).drop_last() =~= requests.take(count - 1));
        assert(requests.take(count).last() == requests[count - 1]);
    } else {
        assert(requests.take(0) =~= Seq::<Option<Request>>::empty());
    }
}

} // verus!
