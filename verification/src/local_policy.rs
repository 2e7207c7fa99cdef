//! Bounded local policy state with exact rollback.
use crate::action::ActionKind;
use crate::frame::MAX_POLICY_HISTORY;
use crate::text::{decimal, owned, with_decimal, with_text};
use vstd::prelude::*;

verus! {

/// One local decision retained for policy-history features.
#[derive(Clone, Copy, Debug, PartialEq, Eq, Structural)]
pub struct PolicyDecision {
    /// Snapshot tick used for the decision.
    pub tick: u32,
    /// Selected top-level action family.
    pub kind: ActionKind,
}

/// One locally active order and its deterministic start tick.
#[derive(Clone, Copy, Debug, PartialEq, Eq, Structural)]
pub struct ActivePolicyOrder {
    /// Tick at which the policy selected the order.
    pub started_tick: u32,
    /// Selected top-level action family.
    pub kind: ActionKind,
}

/// Local strategic role supplied by the policy configuration.
#[derive(Clone, Copy, Debug, PartialEq, Eq, Structural)]
pub enum PolicyRole {
    Carry,
    Mid,
    Offlane,
    Support,
    HardSupport,
}

/// Local lane assignment supplied by the policy configuration.
#[derive(Clone, Copy, Debug, PartialEq, Eq, Structural)]
pub enum PolicyLane {
    Safe,
    Mid,
    Offlane,
}

/// Role and lane from one tick on.
#[derive(Clone, Copy, Debug, PartialEq, Eq)]
pub struct PolicyAssignment {
    pub tick: u32,
    pub role: Option<PolicyRole>,
    pub lane: Option<PolicyLane>,
}

/// Active order from one tick on.
#[derive(Clone, Copy, Debug, PartialEq, Eq)]
pub struct ActivePolicyTransition {
    pub tick: u32,
    pub kind: Option<ActionKind>,
}

/// Invalid chronology or unsupported rollback supplied to [`LocalPolicyState`].
#[derive(Clone, Copy, Debug, PartialEq, Eq, Structural)]
pub enum LocalPolicyError {
    TickRegression { incoming: u32, latest: u32 },
    RollbackBeforeHorizon { requested: u32, earliest: u32 },
}

impl LocalPolicyError {
    pub open spec fn message_spec(self) -> Seq<char> {
        match self {
            LocalPolicyError::TickRegression { incoming, latest } => "local policy tick "@
                + decimal(incoming as nat) + " is older than latest tick "@ + decimal(
                latest as nat,
            ),
            LocalPolicyError::RollbackBeforeHorizon { requested, earliest } => "local policy rollback tick "@
                + decimal(requested as nat) + " is older than earliest supported tick "@ + decimal(
                earliest as nat,
            ),
        }
    }

    /// Text of the failure.
    pub fn message(&self) -> (r: String)
        ensures
            r@ == self.message_spec(),
    {
        match self {
            LocalPolicyError::TickRegression { incoming, latest } => with_decimal(
                with_text(
                    with_decimal(owned("local policy tick "), *incoming as u64),
                    " is older than latest tick ",
                ),
                *latest as u64,
            ),
            LocalPolicyError::RollbackBeforeHorizon { requested, earliest } => with_decimal(
                with_text(
                    with_decimal(owned("local policy rollback tick "), *requested as u64),
                    " is older than earliest supported tick ",
                ),
                *earliest as u64,
            ),
        }
    }
}

/// Bounded local policy state used by active-order and history features.
#[derive(Debug)]
pub struct LocalPolicyState {
    pub earliest_rollback_tick: u32,
    pub latest_tick: u32,
    pub decisions: Vec<PolicyDecision>,
    pub active_base: Option<ActivePolicyOrder>,
    pub active_transitions: Vec<ActivePolicyTransition>,
    pub assignment_base: Option<PolicyAssignment>,
    pub assignments: Vec<PolicyAssignment>,
}

/// Ticks of decisions, transitions, or assignments.
pub open spec fn decision_ticks(list: Seq<PolicyDecision>) -> Seq<u32> {
    list.map_values(|entry: PolicyDecision| entry.tick)
}

pub open spec fn transition_ticks(list: Seq<ActivePolicyTransition>) -> Seq<u32> {
    list.map_values(|entry: ActivePolicyTransition| entry.tick)
}

pub open spec fn assignment_ticks(list: Seq<PolicyAssignment>) -> Seq<u32> {
    list.map_values(|entry: PolicyAssignment| entry.tick)
}

/// Ticks that never decrease and never pass a bound.
pub open spec fn chronological(ticks: Seq<u32>, latest: u32) -> bool {
    &&& forall|i: int, j: int| 0 <= i <= j < ticks.len() ==> ticks[i] <= ticks[j]
    &&& forall|i: int| 0 <= i < ticks.len() ==> #[trigger] ticks[i] <= latest
}

/// Number of leading entries not newer than a tick.
pub open spec fn within(ticks: Seq<u32>, tick: u32) -> nat
    decreases ticks.len(),
{
    if ticks.len() == 0 || ticks[0] > tick {
        0
    } else {
        1 + within(ticks.drop_first(), tick)
    }
}

pub proof fn lemma_within(ticks: Seq<u32>, tick: u32, count: int)
    requires
        0 <= count <= ticks.len(),
        forall|i: int| 0 <= i < count ==> #[trigger] ticks[i] <= tick,
        count < ticks.len() ==> ticks[count] > tick,
    ensures
        within(ticks, tick) == count,
    decreases count,
{
    if count > 0 {
        assert(ticks[0] <= tick);
        assert forall|i: int| 0 <= i < count - 1 implies #[trigger] ticks.drop_first()[i]
            <= tick by {
            assert(ticks[i + 1] <= tick);
        }
        lemma_within(ticks.drop_first(), tick, count - 1);
    }
}

pub proof fn lemma_within_bounds(ticks: Seq<u32>, tick: u32)
    ensures
        within(ticks, tick) <= ticks.len(),
        forall|i: int| 0 <= i < within(ticks, tick) ==> #[trigger] ticks[i] <= tick,
        within(ticks, tick) < ticks.len() ==> ticks[within(ticks, tick) as int] > tick,
    decreases ticks.len(),
{
    if ticks.len() > 0 && ticks[0] <= tick {
        let rest = ticks.drop_first();
        lemma_within_bounds(rest, tick);
        assert forall|i: int| 0 <= i < within(ticks, tick) implies #[trigger] ticks[i] <= tick by {
            if i > 0 {
                assert(rest[i - 1] == ticks[i]);
            }
        }
        if within(rest, tick) < rest.len() {
            assert(rest[within(rest, tick) as int] == ticks[within(rest, tick) as int + 1]);
        }
    }
}

/// Entry list after one more entry at its fixed bound.
pub open spec fn bounded<T>(list: Seq<T>, entry: T) -> Seq<T> {
    if list.len() == MAX_POLICY_HISTORY {
        list.drop_first().push(entry)
    } else {
        list.push(entry)
    }
}

pub open spec fn later(left: u32, right: u32) -> u32 {
    if left >= right {
        left
    } else {
        right
    }
}

/// Order that a transition makes active.
pub open spec fn order_of(transition: ActivePolicyTransition) -> Option<ActivePolicyOrder> {
    match transition.kind {
        Some(kind) => Some(ActivePolicyOrder { started_tick: transition.tick, kind }),
        None => None,
    }
}

fn apply_active_transition(transition: ActivePolicyTransition) -> (r: Option<ActivePolicyOrder>)
    ensures
        r == order_of(transition),
{
    match transition.kind {
        Some(kind) => Some(ActivePolicyOrder { started_tick: transition.tick, kind }),
        None => None,
    }
}

impl LocalPolicyState {
    /// Bounded, chronological journals behind the latest tick.
    pub open spec fn wf(self) -> bool {
        &&& self.decisions@.len() <= MAX_POLICY_HISTORY
        &&& self.active_transitions@.len() <= MAX_POLICY_HISTORY
        &&& self.assignments@.len() <= MAX_POLICY_HISTORY
        &&& chronological(decision_ticks(self.decisions@), self.latest_tick)
        &&& chronological(transition_ticks(self.active_transitions@), self.latest_tick)
        &&& chronological(assignment_ticks(self.assignments@), self.latest_tick)
        &&& self.earliest_rollback_tick <= self.latest_tick
    }

    /// Effective active order.
    pub open spec fn active_order_spec(self) -> Option<ActivePolicyOrder> {
        if self.active_transitions@.len() == 0 {
            self.active_base
        } else {
            order_of(self.active_transitions@.last())
        }
    }

    /// Effective assignment.
    pub open spec fn assignment_spec(self) -> Option<PolicyAssignment> {
        if self.assignments@.len() == 0 {
            self.assignment_base
        } else {
            Some(self.assignments@.last())
        }
    }

    /// Nothing but the journals' common ticks is fixed by an empty state.
    pub open spec fn is_empty_at(self, tick: u32) -> bool {
        &&& self.earliest_rollback_tick == tick
        &&& self.latest_tick == tick
        &&& self.decisions@.len() == 0
        &&& self.active_base is None
        &&& self.active_transitions@.len() == 0
        &&& self.assignment_base is None
        &&& self.assignments@.len() == 0
    }

    /// Creates empty local state at one rollback-safe baseline tick.
    pub fn new(tick: u32) -> (r: Self)
        ensures
            r.wf(),
            r.is_empty_at(tick),
    {
        LocalPolicyState {
            earliest_rollback_tick: tick,
            latest_tick: tick,
            decisions: Vec::new(),
            active_base: None,
            active_transitions: Vec::new(),
            assignment_base: None,
            assignments: Vec::new(),
        }
    }

    /// Clears all local policy data and starts a new epoch at `tick`.
    pub fn reset(&mut self, tick: u32)
        ensures
            final(self).wf(),
            final(self).is_empty_at(tick),
    {
        *self = Self::new(tick);
    }

    /// State after removing everything newer than a tick.
    pub open spec fn rolled_back(self, tick: u32, after: LocalPolicyState) -> bool {
        &&& after.earliest_rollback_tick == self.earliest_rollback_tick
        &&& after.latest_tick == tick
        &&& after.decisions@ == self.decisions@.take(
            within(decision_ticks(self.decisions@), tick) as int,
        )
        &&& after.active_base == self.active_base
        &&& after.active_transitions@ == self.active_transitions@.take(
            within(transition_ticks(self.active_transitions@), tick) as int,
        )
        &&& after.assignment_base == self.assignment_base
        &&& after.assignments@ == self.assignments@.take(
            within(assignment_ticks(self.assignments@), tick) as int,
        )
    }

    /// Removes local data newer than `tick` when the bounded journal can prove it.
    pub fn rollback(&mut self, tick: u32) -> (r: Result<(), LocalPolicyError>)
        requires
            old(self).wf(),
        ensures
            final(self).wf(),
            r == if tick < old(self).earliest_rollback_tick {
                Err::<(), LocalPolicyError>(
                    LocalPolicyError::RollbackBeforeHorizon {
                        requested: tick,
                        earliest: old(self).earliest_rollback_tick,
                    },
                )
            } else {
                Ok(())
            },
            r is Err ==> *final(self) == *old(self),
            r is Ok ==> old(self).rolled_back(tick, *final(self)),
    {
        if tick < self.earliest_rollback_tick {
            return Err(
                LocalPolicyError::RollbackBeforeHorizon {
                    requested: tick,
                    earliest: self.earliest_rollback_tick,
                },
            );
        }
        let ghost before = *self;
        self.rollback_decisions(tick);
        self.rollback_active(tick);
        self.rollback_assignment(tick);
        self.latest_tick = tick;
        proof {
            lemma_within_bounds(decision_ticks(before.decisions@), tick);
            lemma_within_bounds(transition_ticks(before.active_transitions@), tick);
            lemma_within_bounds(assignment_ticks(before.assignments@), tick);
            assert forall|i: int| 0 <= i < decision_ticks(self.decisions@).len() implies #[trigger]
            decision_ticks(self.decisions@)[i] == decision_ticks(before.decisions@)[i] by {}
            assert forall|i: int|
                0 <= i < transition_ticks(self.active_transitions@).len() implies #[trigger]
            transition_ticks(self.active_transitions@)[i] == transition_ticks(
                before.active_transitions@,
            )[i] by {}
            assert forall|i: int| 0 <= i < assignment_ticks(self.assignments@).len() implies #[trigger]
            assignment_ticks(self.assignments@)[i] == assignment_ticks(before.assignments@)[i] by {}
        }
        Ok(())
    }

    fn rollback_decisions(&mut self, tick: u32)
        ensures
            *final(self) == (LocalPolicyState { decisions: final(self).decisions, ..*old(self) }),
            final(self).decisions@ == old(self).decisions@.take(
                within(decision_ticks(old(self).decisions@), tick) as int,
            ),
    {
        let mut count: usize = 0;
        while count < self.decisions.len() && self.decisions[count].tick <= tick
            invariant
                count <= self.decisions@.len(),
                forall|i: int|
                    0 <= i < count ==> #[trigger] decision_ticks(self.decisions@)[i] <= tick,
            decreases self.decisions@.len() - count,
        {
            count += 1;
        }
        proof {
            lemma_within(decision_ticks(self.decisions@), tick, count as int);
        }
        self.decisions.truncate(count);
    }

    fn rollback_active(&mut self, tick: u32)
        ensures
            *final(self) == (LocalPolicyState {
                active_transitions: final(self).active_transitions,
                ..*old(self)
            }),
            final(self).active_transitions@ == old(self).active_transitions@.take(
                within(transition_ticks(old(self).active_transitions@), tick) as int,
            ),
    {
        let mut count: usize = 0;
        while count < self.active_transitions.len() && self.active_transitions[count].tick <= tick
            invariant
                count <= self.active_transitions@.len(),
                forall|i: int|
                    0 <= i < count ==> #[trigger] transition_ticks(self.active_transitions@)[i]
                        <= tick,
            decreases self.active_transitions@.len() - count,
        {
            count += 1;
        }
        proof {
            lemma_within(transition_ticks(self.active_transitions@), tick, count as int);
        }
        self.active_transitions.truncate(count);
    }

    fn rollback_assignment(&mut self, tick: u32)
        ensures
            *final(self) == (LocalPolicyState {
                assignments: final(self).assignments,
                ..*old(self)
            }),
            final(self).assignments@ == old(self).assignments@.take(
                within(assignment_ticks(old(self).assignments@), tick) as int,
            ),
    {
        let mut count: usize = 0;
        while count < self.assignments.len() && self.assignments[count].tick <= tick
            invariant
                count <= self.assignments@.len(),
                forall|i: int|
                    0 <= i < count ==> #[trigger] assignment_ticks(self.assignments@)[i] <= tick,
            decreases self.assignments@.len() - count,
        {
            count += 1;
        }
        proof {
            lemma_within(assignment_ticks(self.assignments@), tick, count as int);
        }
        self.assignments.truncate(count);
    }

    pub open spec fn regression(self, tick: u32) -> Result<(), LocalPolicyError> {
        if tick < self.latest_tick {
            Err(LocalPolicyError::TickRegression { incoming: tick, latest: self.latest_tick })
        } else {
            Ok(())
        }
    }

    fn check_tick(&self, tick: u32) -> (r: Result<(), LocalPolicyError>)
        ensures
            r == self.regression(tick),
    {
        if tick < self.latest_tick {
            return Err(
                LocalPolicyError::TickRegression { incoming: tick, latest: self.latest_tick },
            );
        }
        Ok(())
    }

    /// State after one decision; an eviction moves the horizon to the incoming tick.
    pub open spec fn decided(self, tick: u32, kind: ActionKind, after: LocalPolicyState) -> bool {
        &&& after.decisions@ == bounded(self.decisions@, PolicyDecision { tick, kind })
        &&& after.earliest_rollback_tick == if self.decisions@.len() == MAX_POLICY_HISTORY {
            later(self.earliest_rollback_tick, tick)
        } else {
            self.earliest_rollback_tick
        }
        &&& after.latest_tick == tick
        &&& after.active_base == self.active_base
        &&& after.active_transitions@ == self.active_transitions@
        &&& after.assignment_base == self.assignment_base
        &&& after.assignments@ == self.assignments@
    }

    /// Records one decision, evicting the oldest entry at the fixed bound.
    pub fn note_decision(&mut self, tick: u32, kind: ActionKind) -> (r: Result<
        (),
        LocalPolicyError,
    >)
        requires
            old(self).wf(),
        ensures
            final(self).wf(),
            r == old(self).regression(tick),
            r is Err ==> *final(self) == *old(self),
            r is Ok ==> old(self).decided(tick, kind, *final(self)),
    {
        match self.check_tick(tick) {
            Ok(()) => {},
            Err(error) => {
                return Err(error);
            },
        }
        let ghost before = *self;
        if self.decisions.len() == MAX_POLICY_HISTORY {
            let _ = self.decisions.remove(0);
            assert(self.decisions@ =~= before.decisions@.drop_first());
            if tick > self.earliest_rollback_tick {
                self.earliest_rollback_tick = tick;
            }
        }
        self.decisions.push(PolicyDecision { tick, kind });
        self.latest_tick = tick;
        proof {
            let ticks = decision_ticks(self.decisions@);
            let shift = if before.decisions@.len() == MAX_POLICY_HISTORY {
                1int
            } else {
                0int
            };
            assert forall|i: int| 0 <= i < ticks.len() - 1 implies #[trigger] ticks[i]
                == decision_ticks(before.decisions@)[i + shift] by {}
        }
        Ok(())
    }

    /// State after one active-order change; an evicted change becomes the base.
    pub open spec fn ordered(
        self,
        tick: u32,
        kind: Option<ActionKind>,
        after: LocalPolicyState,
    ) -> bool {
        let full = self.active_transitions@.len() == MAX_POLICY_HISTORY;
        &&& after.active_transitions@ == bounded(
            self.active_transitions@,
            ActivePolicyTransition { tick, kind },
        )
        &&& after.active_base == if full {
            order_of(self.active_transitions@[0])
        } else {
            self.active_base
        }
        &&& after.earliest_rollback_tick == if full {
            later(self.earliest_rollback_tick, self.active_transitions@[0].tick)
        } else {
            self.earliest_rollback_tick
        }
        &&& after.latest_tick == tick
        &&& after.decisions@ == self.decisions@
        &&& after.assignment_base == self.assignment_base
        &&& after.assignments@ == self.assignments@
    }

    /// Replaces or clears the current active order at one local tick.
    pub fn set_active_order(&mut self, tick: u32, kind: Option<ActionKind>) -> (r: Result<
        (),
        LocalPolicyError,
    >)
        requires
            old(self).wf(),
        ensures
            final(self).wf(),
            r == old(self).regression(tick),
            r is Err ==> *final(self) == *old(self),
            r is Ok ==> old(self).ordered(tick, kind, *final(self)),
    {
        match self.check_tick(tick) {
            Ok(()) => {},
            Err(error) => {
                return Err(error);
            },
        }
        let ghost before = *self;
        if self.active_transitions.len() == MAX_POLICY_HISTORY {
            let evicted = self.active_transitions.remove(0);
            assert(self.active_transitions@ =~= before.active_transitions@.drop_first());
            assert(transition_ticks(before.active_transitions@)[0] == evicted.tick);
            self.active_base = apply_active_transition(evicted);
            if evicted.tick > self.earliest_rollback_tick {
                self.earliest_rollback_tick = evicted.tick;
            }
        }
        self.active_transitions.push(ActivePolicyTransition { tick, kind });
        self.latest_tick = tick;
        proof {
            let ticks = transition_ticks(self.active_transitions@);
            let shift = if before.active_transitions@.len() == MAX_POLICY_HISTORY {
                1int
            } else {
                0int
            };
            assert forall|i: int| 0 <= i < ticks.len() - 1 implies #[trigger] ticks[i]
                == transition_ticks(before.active_transitions@)[i + shift] by {}
        }
        Ok(())
    }

    /// State after one assignment; an evicted one becomes the base.
    pub open spec fn assigned(self, assignment: PolicyAssignment, after: LocalPolicyState) -> bool {
        let full = self.assignments@.len() == MAX_POLICY_HISTORY;
        &&& after.assignments@ == bounded(self.assignments@, assignment)
        &&& after.assignment_base == if full {
            Some(self.assignments@[0])
        } else {
            self.assignment_base
        }
        &&& after.earliest_rollback_tick == if full {
            later(self.earliest_rollback_tick, self.assignments@[0].tick)
        } else {
            self.earliest_rollback_tick
        }
        &&& after.latest_tick == assignment.tick
        &&& after.decisions@ == self.decisions@
        &&& after.active_base == self.active_base
        &&& after.active_transitions@ == self.active_transitions@
    }

    /// Replaces the explicit role and lane assignment at one local tick.
    pub fn set_assignment(
        &mut self,
        tick: u32,
        role: Option<PolicyRole>,
        lane: Option<PolicyLane>,
    ) -> (r: Result<(), LocalPolicyError>)
        requires
            old(self).wf(),
        ensures
            final(self).wf(),
            r == old(self).regression(tick),
            r is Err ==> *final(self) == *old(self),
            r is Ok ==> old(self).assigned(PolicyAssignment { tick, role, lane }, *final(self)),
    {
        match self.check_tick(tick) {
            Ok(()) => {},
            Err(error) => {
                return Err(error);
            },
        }
        let ghost before = *self;
        if self.assignments.len() == MAX_POLICY_HISTORY {
            let evicted = self.assignments.remove(0);
            assert(self.assignments@ =~= before.assignments@.drop_first());
            assert(assignment_ticks(before.assignments@)[0] == evicted.tick);
            self.assignment_base = Some(evicted);
            if evicted.tick > self.earliest_rollback_tick {
                self.earliest_rollback_tick = evicted.tick;
            }
        }
        self.assignments.push(PolicyAssignment { tick, role, lane });
        self.latest_tick = tick;
        proof {
            let ticks = assignment_ticks(self.assignments@);
            let shift = if before.assignments@.len() == MAX_POLICY_HISTORY {
                1int
            } else {
                0int
            };
            assert forall|i: int| 0 <= i < ticks.len() - 1 implies #[trigger] ticks[i]
                == assignment_ticks(before.assignments@)[i + shift] by {}
        }
        Ok(())
    }

    /// Decisions in oldest-to-newest order.
    pub fn decisions(&self) -> (r: &[PolicyDecision])
        ensures
            r@ == self.decisions@,
    {
        self.decisions.as_slice()
    }

    /// Current active order, if local policy state supplies one.
    pub fn active_order(&self) -> (r: Option<ActivePolicyOrder>)
        ensures
            r == self.active_order_spec(),
    {
        if self.active_transitions.len() == 0 {
            return self.active_base;
        }
        apply_active_transition(self.active_transitions[self.active_transitions.len() - 1])
    }

    /// Current role and lane, if local policy state supplies them.
    pub fn assignment(&self) -> (r: Option<PolicyAssignment>)
        ensures
            r == self.assignment_spec(),
    {
        if self.assignments.len() == 0 {
            return self.assignment_base;
        }
        Some(self.assignments[self.assignments.len() - 1])
    }
}

/// What features read from a local state is the same.
pub open spec fn same_view(left: LocalPolicyState, right: LocalPolicyState) -> bool {
    &&& left.latest_tick == right.latest_tick
    &&& left.decisions@ == right.decisions@
    &&& left.active_order_spec() == right.active_order_spec()
    &&& left.assignment_spec() == right.assignment_spec()
}

proof fn lemma_push_within(ticks: Seq<u32>, next: u32, tick: u32)
    requires
        next > tick,
    ensures
        within(ticks.push(next), tick) == within(ticks, tick),
{
    lemma_within_bounds(ticks, tick);
    let count = within(ticks, tick) as int;
    assert forall|i: int| 0 <= i < count implies #[trigger] ticks.push(next)[i] <= tick by {
        assert(ticks[i] <= tick);
    }
    lemma_within(ticks.push(next), tick, count);
}

proof fn lemma_shift_within(ticks: Seq<u32>, tick: u32)
    requires
        ticks.len() > 0,
        ticks[0] <= tick,
    ensures
        within(ticks, tick) == within(ticks.drop_first(), tick) + 1,
{
}

/// A decision newer than the rollback tick leaves no trace once rolled back.
pub proof fn rolled_back_decisions_leave_no_trace(
    before: LocalPolicyState,
    tick: u32,
    kind: ActionKind,
    after: LocalPolicyState,
    target: u32,
    left: LocalPolicyState,
    right: LocalPolicyState,
)
    requires
        before.wf(),
        before.latest_tick <= tick,
        before.decided(tick, kind, after),
        after.earliest_rollback_tick <= target < tick,
        before.rolled_back(target, left),
        after.rolled_back(target, right),
    ensures
        same_view(left, right),
{
    let entry = PolicyDecision { tick, kind };
    assert(before.decisions@.len() < MAX_POLICY_HISTORY);
    assert(decision_ticks(after.decisions@) =~= decision_ticks(before.decisions@).push(tick));
    lemma_push_within(decision_ticks(before.decisions@), tick, target);
    lemma_within_bounds(decision_ticks(before.decisions@), target);
    assert(left.decisions@ =~= right.decisions@);
}

/// An active-order change newer than the rollback tick leaves no trace once rolled back.
pub proof fn rolled_back_orders_leave_no_trace(
    before: LocalPolicyState,
    tick: u32,
    kind: Option<ActionKind>,
    after: LocalPolicyState,
    target: u32,
    left: LocalPolicyState,
    right: LocalPolicyState,
)
    requires
        before.wf(),
        before.latest_tick <= tick,
        before.ordered(tick, kind, after),
        after.earliest_rollback_tick <= target < tick,
        before.rolled_back(target, left),
        after.rolled_back(target, right),
    ensures
        same_view(left, right),
{
    let old_ticks = transition_ticks(before.active_transitions@);
    lemma_within_bounds(old_ticks, target);
    if before.active_transitions@.len() == MAX_POLICY_HISTORY {
        assert(transition_ticks(after.active_transitions@) =~= old_ticks.drop_first().push(tick));
        lemma_push_within(old_ticks.drop_first(), tick, target);
        assert(old_ticks[0] == before.active_transitions@[0].tick);
        lemma_shift_within(old_ticks, target);
        let kept = within(old_ticks, target) as int;
        assert(right.active_transitions@ =~= left.active_transitions@.drop_first());
        if kept > 1 {
            assert(right.active_transitions@.last() == left.active_transitions@.last());
        }
    } else {
        assert(transition_ticks(after.active_transitions@) =~= old_ticks.push(tick));
        lemma_push_within(old_ticks, tick, target);
        assert(left.active_transitions@ =~= right.active_transitions@);
    }
}

/// An assignment newer than the rollback tick leaves no trace once rolled back.
pub proof fn rolled_back_assignments_leave_no_trace(
    before: LocalPolicyState,
    assignment: PolicyAssignment,
    after: LocalPolicyState,
    target: u32,
    left: LocalPolicyState,
    right: LocalPolicyState,
)
    requires
        before.wf(),
        before.latest_tick <= assignment.tick,
        before.assigned(assignment, after),
        after.earliest_rollback_tick <= target < assignment.tick,
        before.rolled_back(target, left),
        after.rolled_back(target, right),
    ensures
        same_view(left, right),
{
    let tick = assignment.tick;
    let old_ticks = assignment_ticks(before.assignments@);
    lemma_within_bounds(old_ticks, target);
    if before.assignments@.len() == MAX_POLICY_HISTORY {
        assert(assignment_ticks(after.assignments@) =~= old_ticks.drop_first().push(tick));
        lemma_push_within(old_ticks.drop_first(), tick, target);
        assert(old_ticks[0] == before.assignments@[0].tick);
        lemma_shift_within(old_ticks, target);
        let kept = within(old_ticks, target) as int;
        assert(right.assignments@ =~= left.assignments@.drop_first());
        if kept > 1 {
            assert(right.assignments@.last() == left.assignments@.last());
        }
    } else {
        assert(assignment_ticks(after.assignments@) =~= old_ticks.push(tick));
        lemma_push_within(old_ticks, tick, target);
        assert(left.assignments@ =~= right.assignments@);
    }
}

/// Rolling back to the latest tick or later changes no feature input.
pub proof fn rollback_to_the_present_changes_nothing(
    before: LocalPolicyState,
    tick: u32,
    after: LocalPolicyState,
)
    requires
        before.wf(),
        before.latest_tick <= tick,
        before.rolled_back(tick, after),
    ensures
        after.decisions@ == before.decisions@,
        after.active_order_spec() == before.active_order_spec(),
        after.assignment_spec() == before.assignment_spec(),
{
    lemma_within(
        decision_ticks(before.decisions@),
        tick,
        decision_ticks(before.decisions@).len() as int,
    );
    lemma_within(
        transition_ticks(before.active_transitions@),
        tick,
        transition_ticks(before.active_transitions@).len() as int,
    );
    lemma_within(
        assignment_ticks(before.assignments@),
        tick,
        assignment_ticks(before.assignments@).len() as int,
    );
    assert(after.decisions@ =~= before.decisions@);
    assert(after.active_transitions@ =~= before.active_transitions@);
    assert(after.assignments@ =~= before.assignments@);
}

} // verus!
