//! Journal of projectile and loot observations with exact rollback.
use crate::local_policy::{lemma_within, lemma_within_bounds, within};
use crate::search::{
    first_index, lemma_first_from_found, lemma_first_from_means, lemma_first_from_none,
};
use crate::text::{decimal, owned, with_decimal, with_text};
use crate::tracker::{TrackerProvenance, MAX_LOOT, MAX_PROJECTILES};
use crate::world::{copy_vec, EntityId, LootView, ProjectileView, Vec2, WorldView};
use vstd::prelude::*;

verus! {

/// Maximum encoded observation states retained for deterministic rollback.
pub const MAX_FEATURE_OBSERVATION_HISTORY: usize = 16;

/// Feature construction failure.
#[allow(inconsistent_fields)]
#[derive(Clone, Copy, Debug, PartialEq, Eq, Structural)]
pub enum FeatureError {
    SnapshotRequired,
    TickMismatch { snapshot: u32, action_space: u32 },
    ActionSpaceMismatch,
    ReadinessMismatch,
    MapMismatch,
    LocalStateAhead { snapshot: u32, local: u32 },
    ObservationRequired { snapshot: u32 },
    ObservationMismatch { snapshot: u32 },
    ObservationTickNotIncreasing { incoming: u32, latest: u32 },
    ObservationPredecessorMismatch { incoming: u32 },
    ObservationRollbackBeforeHorizon { requested: u32, earliest: u32 },
    NonFinite,
}

impl FeatureError {
    pub open spec fn message_spec(self) -> Seq<char> {
        match self {
            FeatureError::SnapshotRequired => "feature encoding requires a snapshot"@,
            FeatureError::TickMismatch { snapshot, action_space } => "feature snapshot tick "@
                + decimal(snapshot as nat) + " differs from action-space tick "@ + decimal(
                action_space as nat,
            ),
            FeatureError::ActionSpaceMismatch =>
                "feature action space belongs to a different snapshot"@,
            FeatureError::ReadinessMismatch => "feature item readiness differs from action space"@,
            FeatureError::MapMismatch => "feature encoder map context differs from tracker"@,
            FeatureError::LocalStateAhead { snapshot, local } => "local policy tick "@ + decimal(
                local as nat,
            ) + " is newer than snapshot tick "@ + decimal(snapshot as nat),
            FeatureError::ObservationRequired { snapshot } =>
                "feature observation for snapshot tick "@ + decimal(snapshot as nat)
                + " is required"@,
            FeatureError::ObservationMismatch { snapshot } =>
                "feature observation belongs to a different snapshot at tick "@ + decimal(
                snapshot as nat,
            ),
            FeatureError::ObservationTickNotIncreasing { incoming, latest } =>
                "feature observation tick "@ + decimal(incoming as nat)
                + " must be greater than latest tick "@ + decimal(latest as nat),
            FeatureError::ObservationPredecessorMismatch { incoming } =>
                "feature observation snapshot tick "@ + decimal(incoming as nat)
                + " does not extend its exact predecessor"@,
            FeatureError::ObservationRollbackBeforeHorizon { requested, earliest } =>
                "feature observation rollback tick "@ + decimal(requested as nat)
                + " is older than earliest supported tick "@ + decimal(earliest as nat),
            FeatureError::NonFinite => "feature encoder produced a non-finite value"@,
        }
    }

    /// Text of the failure.
    pub fn message(&self) -> (r: String)
        ensures
            r@ == self.message_spec(),
    {
        match self {
            FeatureError::SnapshotRequired => owned("feature encoding requires a snapshot"),
            FeatureError::TickMismatch { snapshot, action_space } => with_decimal(
                with_text(
                    with_decimal(owned("feature snapshot tick "), *snapshot as u64),
                    " differs from action-space tick ",
                ),
                *action_space as u64,
            ),
            FeatureError::ActionSpaceMismatch => owned(
                "feature action space belongs to a different snapshot",
            ),
            FeatureError::ReadinessMismatch => owned(
                "feature item readiness differs from action space",
            ),
            FeatureError::MapMismatch => owned("feature encoder map context differs from tracker"),
            FeatureError::LocalStateAhead { snapshot, local } => with_decimal(
                with_text(
                    with_decimal(owned("local policy tick "), *local as u64),
                    " is newer than snapshot tick ",
                ),
                *snapshot as u64,
            ),
            FeatureError::ObservationRequired { snapshot } => with_text(
                with_decimal(owned("feature observation for snapshot tick "), *snapshot as u64),
                " is required",
            ),
            FeatureError::ObservationMismatch { snapshot } => with_decimal(
                owned("feature observation belongs to a different snapshot at tick "),
                *snapshot as u64,
            ),
            FeatureError::ObservationTickNotIncreasing { incoming, latest } => with_decimal(
                with_text(
                    with_decimal(owned("feature observation tick "), *incoming as u64),
                    " must be greater than latest tick ",
                ),
                *latest as u64,
            ),
            FeatureError::ObservationPredecessorMismatch { incoming } => with_text(
                with_decimal(owned("feature observation snapshot tick "), *incoming as u64),
                " does not extend its exact predecessor",
            ),
            FeatureError::ObservationRollbackBeforeHorizon { requested, earliest } => with_decimal(
                with_text(
                    with_decimal(owned("feature observation rollback tick "), *requested as u64),
                    " is older than earliest supported tick ",
                ),
                *earliest as u64,
            ),
            FeatureError::NonFinite => owned("feature encoder produced a non-finite value"),
        }
    }
}

/// One projectile seen without a break since its first tick.
#[derive(Clone, Copy, Debug, PartialEq, Eq)]
pub struct ProjectileObservation {
    pub id: EntityId,
    pub first_tick: u32,
    pub last_tick: u32,
    pub previous_tick: Option<u32>,
    pub position: Vec2,
    pub previous_position: Vec2,
}

/// One ground item seen without a break since its first tick.
#[derive(Clone, Copy, Debug, PartialEq, Eq, Structural)]
pub struct LootObservation {
    pub id: EntityId,
    pub first_tick: u32,
    pub last_tick: u32,
}

/// Everything observed up to one snapshot.
#[derive(Debug)]
pub struct FeatureObservationState {
    pub tick: Option<u32>,
    pub provenance: Option<TrackerProvenance>,
    pub projectiles: Vec<ProjectileObservation>,
    pub loot: Vec<LootObservation>,
}

/// Contents of an observation state.
#[verifier::ext_equal]
pub struct ObservationView {
    pub tick: Option<u32>,
    pub provenance: Option<TrackerProvenance>,
    pub projectiles: Seq<ProjectileObservation>,
    pub loot: Seq<LootObservation>,
}

impl View for FeatureObservationState {
    type V = ObservationView;

    open spec fn view(&self) -> ObservationView {
        ObservationView {
            tick: self.tick,
            provenance: self.provenance,
            projectiles: self.projectiles@,
            loot: self.loot@,
        }
    }
}

impl ObservationView {
    /// Nothing observed yet.
    pub open spec fn nothing() -> ObservationView {
        ObservationView {
            tick: None,
            provenance: None,
            projectiles: Seq::empty(),
            loot: Seq::empty(),
        }
    }

    /// Every observation ends at the state's tick and began no later.
    pub open spec fn wf(self) -> bool {
        &&& self.projectiles.len() <= MAX_PROJECTILES
        &&& self.loot.len() <= MAX_LOOT
        &&& self.tick is None ==> self.projectiles.len() == 0 && self.loot.len() == 0
        &&& forall|i: int| 0 <= i < self.projectiles.len() ==> projectile_timed(
            #[trigger] self.projectiles[i],
            self.tick,
        )
        &&& forall|i: int| 0 <= i < self.loot.len() ==> {
            &&& Some((#[trigger] self.loot[i]).last_tick) == self.tick
            &&& self.loot[i].first_tick <= self.loot[i].last_tick
        }
    }

    /// Observation of a projectile, if it was seen.
    pub open spec fn projectile(self, id: EntityId) -> Option<ProjectileObservation> {
        match first_index(self.projectiles, |entry: ProjectileObservation| entry.id == id) {
            Some(i) => Some(self.projectiles[i]),
            None => None,
        }
    }

    /// Observation of a ground item, if it was seen.
    pub open spec fn ground(self, id: EntityId) -> Option<LootObservation> {
        match first_index(self.loot, |entry: LootObservation| entry.id == id) {
            Some(i) => Some(self.loot[i]),
            None => None,
        }
    }
}

/// Whether the ticks of a projectile observation are in order.
pub open spec fn projectile_timed(entry: ProjectileObservation, tick: Option<u32>) -> bool {
    &&& Some(entry.last_tick) == tick
    &&& entry.first_tick <= entry.last_tick
    &&& entry.previous_tick matches Some(previous) ==> previous < entry.last_tick
}

/// Observation of a projectile at a later snapshot.
pub open spec fn projectile_after(
    previous: ObservationView,
    tick: u32,
    projectile: ProjectileView,
) -> ProjectileObservation {
    match previous.projectile(projectile.id) {
        None => ProjectileObservation {
            id: projectile.id,
            first_tick: tick,
            last_tick: tick,
            previous_tick: None,
            position: projectile.pos,
            previous_position: projectile.pos,
        },
        Some(entry) => ProjectileObservation {
            id: projectile.id,
            first_tick: entry.first_tick,
            last_tick: tick,
            previous_tick: Some(entry.last_tick),
            position: projectile.pos,
            previous_position: entry.position,
        },
    }
}

/// Observation of a ground item at a later snapshot.
pub open spec fn loot_after(previous: ObservationView, tick: u32, loot: LootView) -> LootObservation {
    LootObservation {
        id: loot.id,
        first_tick: match previous.ground(loot.id) {
            None => tick,
            Some(entry) => entry.first_tick,
        },
        last_tick: tick,
    }
}

/// Observation state after one more snapshot.
pub open spec fn observed(
    previous: ObservationView,
    provenance: TrackerProvenance,
    current: WorldView,
) -> ObservationView {
    ObservationView {
        tick: Some(current.tick),
        provenance: Some(provenance),
        projectiles: current.projectiles@.map_values(
            |projectile: ProjectileView| projectile_after(previous, current.tick, projectile),
        ),
        loot: current.loot@.map_values(|loot: LootView| loot_after(previous, current.tick, loot)),
    }
}

/// A later snapshot keeps the ticks of every observation in order.
pub proof fn lemma_observed_wf(
    previous: ObservationView,
    provenance: TrackerProvenance,
    current: WorldView,
)
    requires
        previous.wf(),
        previous.tick matches Some(latest) ==> latest < current.tick,
        current.projectiles@.len() <= MAX_PROJECTILES,
        current.loot@.len() <= MAX_LOOT,
    ensures
        observed(previous, provenance, current).wf(),
{
    let next = observed(previous, provenance, current);
    assert forall|i: int| 0 <= i < next.projectiles.len() implies projectile_timed(
        #[trigger] next.projectiles[i],
        next.tick,
    ) by {
        let id = current.projectiles@[i].id;
        lemma_first_from_means(
            previous.projectiles,
            |entry: ProjectileObservation| entry.id == id,
            0,
        );
        assert(next.projectiles[i] == projectile_after(
            previous,
            current.tick,
            current.projectiles@[i],
        ));
    }
    assert forall|i: int| 0 <= i < next.loot.len() implies Some((#[trigger] next.loot[i]).last_tick)
        == next.tick && next.loot[i].first_tick <= next.loot[i].last_tick by {
        let id = current.loot@[i].id;
        lemma_first_from_means(previous.loot, |entry: LootObservation| entry.id == id, 0);
        assert(next.loot[i] == loot_after(previous, current.tick, current.loot@[i]));
    }
}

impl FeatureObservationState {
    /// Nothing observed yet.
    pub fn new() -> (r: Self)
        ensures
            r@ == ObservationView::nothing(),
    {
        let state = FeatureObservationState {
            tick: None,
            provenance: None,
            projectiles: Vec::new(),
            loot: Vec::new(),
        };
        assert(state@ =~= ObservationView::nothing());
        state
    }

    /// Owned copy of an observation state.
    pub fn duplicate(&self) -> (r: Self)
        ensures
            r@ == self@,
    {
        FeatureObservationState {
            tick: self.tick,
            provenance: self.provenance,
            projectiles: copy_vec(&self.projectiles),
            loot: copy_vec(&self.loot),
        }
    }

    /// Observation of a projectile, if it was seen.
    pub fn projectile_observation(&self, id: EntityId) -> (r: Option<ProjectileObservation>)
        ensures
            r == self@.projectile(id),
    {
        let ghost test = |entry: ProjectileObservation| entry.id == id;
        let mut index: usize = 0;
        while index < self.projectiles.len()
            invariant
                index <= self.projectiles@.len(),
                test == (|entry: ProjectileObservation| entry.id == id),
                forall|i: int| 0 <= i < index ==> !test(#[trigger] self.projectiles@[i]),
            decreases self.projectiles@.len() - index,
        {
            if self.projectiles[index].id == id {
                proof {
                    lemma_first_from_found(self.projectiles@, test, 0, index as int);
                }
                return Some(self.projectiles[index]);
            }
            index += 1;
        }
        proof {
            lemma_first_from_none(self.projectiles@, test, 0);
        }
        None
    }

    /// Observation of a ground item, if it was seen.
    pub fn loot_observation(&self, id: EntityId) -> (r: Option<LootObservation>)
        ensures
            r == self@.ground(id),
    {
        let ghost test = |entry: LootObservation| entry.id == id;
        let mut index: usize = 0;
        while index < self.loot.len()
            invariant
                index <= self.loot@.len(),
                test == (|entry: LootObservation| entry.id == id),
                forall|i: int| 0 <= i < index ==> !test(#[trigger] self.loot@[i]),
            decreases self.loot@.len() - index,
        {
            if self.loot[index].id == id {
                proof {
                    lemma_first_from_found(self.loot@, test, 0, index as int);
                }
                return Some(self.loot[index]);
            }
            index += 1;
        }
        proof {
            lemma_first_from_none(self.loot@, test, 0);
        }
        None
    }

    /// Observation state after one more snapshot.
    pub fn next(&self, provenance: TrackerProvenance, current: &WorldView) -> (r: Self)
        ensures
            r@ == observed(self@, provenance, *current),
    {
        let tick = current.tick;
        let mut projectiles: Vec<ProjectileObservation> = Vec::new();
        let mut index: usize = 0;
        while index < current.projectiles.len()
            invariant
                index <= current.projectiles@.len(),
                tick == current.tick,
                projectiles@.len() == index,
                forall|i: int|
                    0 <= i < index ==> #[trigger] projectiles@[i] == projectile_after(
                        self@,
                        tick,
                        current.projectiles@[i],
                    ),
            decreases current.projectiles@.len() - index,
        {
            let projectile = current.projectiles[index];
            let entry = match self.projectile_observation(projectile.id) {
                None => ProjectileObservation {
                    id: projectile.id,
                    first_tick: tick,
                    last_tick: tick,
                    previous_tick: None,
                    position: projectile.pos,
                    previous_position: projectile.pos,
                },
                Some(entry) => ProjectileObservation {
                    id: projectile.id,
                    first_tick: entry.first_tick,
                    last_tick: tick,
                    previous_tick: Some(entry.last_tick),
                    position: projectile.pos,
                    previous_position: entry.position,
                },
            };
            projectiles.push(entry);
            index += 1;
        }
        let mut loot: Vec<LootObservation> = Vec::new();
        index = 0;
        while index < current.loot.len()
            invariant
                index <= current.loot@.len(),
                tick == current.tick,
                loot@.len() == index,
                forall|i: int|
                    0 <= i < index ==> #[trigger] loot@[i] == loot_after(
                        self@,
                        tick,
                        current.loot@[i],
                    ),
            decreases current.loot@.len() - index,
        {
            let item = current.loot[index];
            let first_tick = match self.loot_observation(item.id) {
                None => tick,
                Some(entry) => entry.first_tick,
            };
            loot.push(LootObservation { id: item.id, first_tick, last_tick: tick });
            index += 1;
        }
        let state = FeatureObservationState {
            tick: Some(tick),
            provenance: Some(provenance),
            projectiles,
            loot,
        };
        proof {
            let expected = observed(self@, provenance, *current);
            assert(state@.projectiles =~= expected.projectiles);
            assert(state@.loot =~= expected.loot);
        }
        state
    }
}

/// Current observation and the retained ones before it.
#[derive(Debug)]
pub struct ObservationJournal {
    pub observation: FeatureObservationState,
    pub history: Vec<FeatureObservationState>,
    pub earliest_rollback_tick: Option<u32>,
}

/// Contents of a journal.
#[verifier::ext_equal]
pub struct JournalView {
    pub observation: ObservationView,
    pub history: Seq<ObservationView>,
    pub earliest: Option<u32>,
}

impl View for ObservationJournal {
    type V = JournalView;

    open spec fn view(&self) -> JournalView {
        JournalView {
            observation: self.observation@,
            history: self.history@.map_values(|state: FeatureObservationState| state@),
            earliest: self.earliest_rollback_tick,
        }
    }
}

/// Ticks of retained observations.
pub open spec fn observation_ticks(history: Seq<ObservationView>) -> Seq<u32> {
    history.map_values(|state: ObservationView| state.tick->0)
}

/// Newest observation of a history.
pub open spec fn newest(history: Seq<ObservationView>) -> ObservationView {
    if history.len() == 0 {
        ObservationView::nothing()
    } else {
        history.last()
    }
}

impl JournalView {
    /// Bounded history of strictly increasing ticks that ends in the current observation.
    pub open spec fn wf(self) -> bool {
        &&& self.history.len() <= MAX_FEATURE_OBSERVATION_HISTORY
        &&& self.observation == newest(self.history)
        &&& forall|i: int| 0 <= i < self.history.len() ==> {
            &&& (#[trigger] self.history[i]).tick is Some
            &&& self.history[i].wf()
        }
        &&& forall|i: int, j: int|
            0 <= i < j < self.history.len() ==> (#[trigger] self.history[i]).tick->0 < (
            #[trigger] self.history[j]).tick->0
    }

    /// Journal after one more observation; the oldest one leaves at the bound.
    pub open spec fn pushed(self, next: ObservationView) -> JournalView {
        if self.history.len() == MAX_FEATURE_OBSERVATION_HISTORY {
            JournalView {
                observation: next,
                history: self.history.drop_first().push(next),
                earliest: self.history[1].tick,
            }
        } else {
            JournalView {
                observation: next,
                history: self.history.push(next),
                earliest: self.earliest,
            }
        }
    }

    /// Journal that keeps the observations not newer than a tick.
    pub open spec fn rolled_back(self, tick: u32) -> JournalView {
        let kept = self.history.take(within(observation_ticks(self.history), tick) as int);
        JournalView { observation: newest(kept), history: kept, earliest: self.earliest }
    }

    /// Why a rollback is refused.
    pub open spec fn rollback_fault(self, tick: u32) -> Option<FeatureError> {
        match self.earliest {
            Some(earliest) => if tick < earliest {
                Some(
                    FeatureError::ObservationRollbackBeforeHorizon { requested: tick, earliest },
                )
            } else {
                None
            },
            None => None,
        }
    }

    /// Why an observation of a later snapshot is refused.
    pub open spec fn order_fault(self, incoming: u32, extends: bool) -> Option<FeatureError> {
        if self.observation.tick matches Some(latest) && incoming <= latest {
            Some(
                FeatureError::ObservationTickNotIncreasing {
                    incoming,
                    latest: self.observation.tick->0,
                },
            )
        } else if self.observation.provenance is Some && !extends {
            Some(FeatureError::ObservationPredecessorMismatch { incoming })
        } else {
            None
        }
    }
}

/// A newer observation keeps a journal in order.
pub proof fn lemma_pushed_wf(journal: JournalView, next: ObservationView)
    requires
        journal.wf(),
        next.wf(),
        next.tick is Some,
        journal.observation.tick matches Some(latest) ==> latest < next.tick->0,
    ensures
        journal.pushed(next).wf(),
{
    let after = journal.pushed(next);
    if journal.history.len() > 0 {
        assert(journal.observation == journal.history[journal.history.len() - 1]);
    }
    assert forall|i: int| 0 <= i < after.history.len() implies (#[trigger] after.history[i]).tick
        is Some && after.history[i].wf() by {
        if i < after.history.len() - 1 {
            if journal.history.len() == MAX_FEATURE_OBSERVATION_HISTORY {
                assert(after.history[i] == journal.history[i + 1]);
            } else {
                assert(after.history[i] == journal.history[i]);
            }
        }
    }
    assert forall|i: int, j: int| 0 <= i < j < after.history.len() implies (
    #[trigger] after.history[i]).tick->0 < (#[trigger] after.history[j]).tick->0 by {
        let shift: int = if journal.history.len() == MAX_FEATURE_OBSERVATION_HISTORY {
            1
        } else {
            0
        };
        assert(after.history[i] == journal.history[i + shift]);
        if j < after.history.len() - 1 {
            assert(after.history[j] == journal.history[j + shift]);
        } else {
            let last = journal.history.len() - 1;
            if i + shift < last {
                assert(journal.history[i + shift].tick->0 < journal.history[last].tick->0);
            }
        }
    }
}

/// Rolling back after newer observations returns to the observation of the earlier tick.
pub proof fn rolled_back_observations_leave_no_trace(journal: JournalView, next: ObservationView)
    requires
        journal.wf(),
        next.tick is Some,
        journal.observation.tick matches Some(latest) && latest < next.tick->0,
    ensures
        journal.pushed(next).rolled_back(journal.observation.tick->0).observation
            == journal.observation,
        journal.history.len() < MAX_FEATURE_OBSERVATION_HISTORY ==> journal.pushed(
            next,
        ).rolled_back(journal.observation.tick->0) == journal,
{
    let latest = journal.observation.tick->0;
    let after = journal.pushed(next);
    let count = after.history.len() - 1;
    let ticks = observation_ticks(after.history);
    let shift: int = if journal.history.len() == MAX_FEATURE_OBSERVATION_HISTORY {
        1
    } else {
        0
    };
    let last = journal.history.len() - 1;
    assert forall|i: int| 0 <= i < count implies #[trigger] ticks[i] <= latest by {
        assert(after.history[i] == journal.history[i + shift]);
        if i + shift < last {
            assert(journal.history[i + shift].tick->0 < journal.history[last].tick->0);
        }
    }
    lemma_within(ticks, latest, count);
    assert(after.history.take(count) =~= journal.history.skip(shift));
    assert(journal.history.skip(0) =~= journal.history);
    assert(journal.history.skip(shift).last() == journal.history.last());
}

/// Rolling back to the tick of the current observation changes nothing.
pub proof fn rollback_to_the_current_observation_changes_nothing(journal: JournalView)
    requires
        journal.wf(),
        journal.observation.tick is Some,
    ensures
        journal.rolled_back(journal.observation.tick->0) == journal,
{
    let ticks = observation_ticks(journal.history);
    let last = journal.history.len() - 1;
    assert forall|i: int| 0 <= i < journal.history.len() implies #[trigger] ticks[i]
        <= journal.observation.tick->0 by {
        if i < last {
            assert(journal.history[i].tick->0 < journal.history[last].tick->0);
        }
    }
    lemma_within(ticks, journal.observation.tick->0, journal.history.len() as int);
    assert(journal.history.take(journal.history.len() as int) =~= journal.history);
}

/// Retained observations never exceed their bound, and a rollback keeps a journal in order.
pub proof fn rollback_keeps_a_journal_in_order(journal: JournalView, tick: u32)
    requires
        journal.wf(),
    ensures
        journal.rolled_back(tick).wf(),
{
    lemma_within_bounds(observation_ticks(journal.history), tick);
}

impl ObservationJournal {
    /// Journal without observations.
    pub fn new() -> (r: Self)
        ensures
            r@ == (JournalView {
                observation: ObservationView::nothing(),
                history: Seq::empty(),
                earliest: None,
            }),
            r@.wf(),
    {
        let journal = ObservationJournal {
            observation: FeatureObservationState::new(),
            history: Vec::new(),
            earliest_rollback_tick: None,
        };
        assert(journal@.history =~= Seq::<ObservationView>::empty());
        journal
    }

    /// Why an observation of a later snapshot is refused.
    pub fn check_order(&self, incoming: u32, extends: bool) -> (r: Option<FeatureError>)
        ensures
            r == self@.order_fault(incoming, extends),
    {
        match self.observation.tick {
            Some(latest) => {
                if incoming <= latest {
                    return Some(FeatureError::ObservationTickNotIncreasing { incoming, latest });
                }
            },
            None => {},
        }
        if self.observation.provenance.is_some() && !extends {
            return Some(FeatureError::ObservationPredecessorMismatch { incoming });
        }
        None
    }

    /// Adds one observation; the oldest one leaves at the bound.
    pub fn push_observation(&mut self, next: FeatureObservationState)
        requires
            old(self)@.wf(),
            next@.wf(),
            next@.tick is Some,
            old(self)@.observation.tick matches Some(latest) ==> latest < next@.tick->0,
        ensures
            final(self)@ == old(self)@.pushed(next@),
            final(self)@.wf(),
    {
        let ghost before = self@;
        let ghost arriving = next@;
        proof {
            lemma_pushed_wf(before, arriving);
        }
        if self.history.len() == MAX_FEATURE_OBSERVATION_HISTORY {
            self.earliest_rollback_tick = self.history[1].tick;
            assert(self.history@[1]@ == before.history[1]);
            self.history.remove(0);
            assert(self@.history =~= before.history.drop_first());
        }
        self.observation = next.duplicate();
        let ghost kept = self@.history;
        self.history.push(next);
        assert(self@.history =~= kept.push(arriving));
    }

    /// Restores the newest retained observation at or before a tick.
    pub fn rollback(&mut self, tick: u32) -> (r: Result<(), FeatureError>)
        requires
            old(self)@.wf(),
        ensures
            final(self)@.wf(),
            match old(self)@.rollback_fault(tick) {
                Some(error) => r == Err::<(), FeatureError>(error) && *final(self) == *old(self),
                None => r is Ok && final(self)@ == old(self)@.rolled_back(tick),
            },
    {
        match self.earliest_rollback_tick {
            Some(earliest) => {
                if tick < earliest {
                    return Err(
                        FeatureError::ObservationRollbackBeforeHorizon {
                            requested: tick,
                            earliest,
                        },
                    );
                }
            },
            None => {},
        }
        let ghost before = self@;
        let ghost ticks = observation_ticks(before.history);
        let mut kept: usize = 0;
        proof {
            assert forall|i: int| 0 <= i < self.history@.len() implies (
            #[trigger] self.history@[i]).tick is Some by {
                assert(before.history[i] == self.history@[i]@);
            }
        }
        while kept < self.history.len() && self.history[kept].tick.unwrap() <= tick
            invariant
                before == self@,
                before.wf(),
                kept <= self.history@.len(),
                ticks == observation_ticks(before.history),
                forall|i: int| 0 <= i < before.history.len() ==> (#[trigger] before.history[i]).tick
                    is Some,
                forall|i: int| 0 <= i < kept ==> #[trigger] ticks[i] <= tick,
                forall|i: int|
                    0 <= i < self.history@.len() ==> (#[trigger] self.history@[i]).tick is Some,
            decreases self.history@.len() - kept,
        {
            proof {
                assert(before.history[kept as int] == self.history@[kept as int]@);
                assert(ticks[kept as int] <= tick);
            }
            kept += 1;
        }
        proof {
            if kept < self.history@.len() {
                assert(before.history[kept as int] == self.history@[kept as int]@);
                assert(ticks[kept as int] > tick);
            }
            lemma_within(ticks, tick, kept as int);
            rollback_keeps_a_journal_in_order(before, tick);
        }
        self.history.truncate(kept);
        assert(self@.history =~= before.history.take(kept as int));
        self.observation = if kept == 0 {
            FeatureObservationState::new()
        } else {
            assert(self.history@[kept - 1]@ == self@.history[kept - 1]);
            self.history[kept - 1].duplicate()
        };
        Ok(())
    }

    /// Forgets every observation.
    pub fn reset(&mut self)
        ensures
            final(self)@ == (JournalView {
                observation: ObservationView::nothing(),
                history: Seq::empty(),
                earliest: None,
            }),
            final(self)@.wf(),
    {
        self.observation = FeatureObservationState::new();
        self.history = Vec::new();
        self.earliest_rollback_tick = None;
        assert(self@.history =~= Seq::<ObservationView>::empty());
    }
}

} // verus!
