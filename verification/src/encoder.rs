//! Feature encoder: observation journal, static map, and the scalars of one snapshot.
use crate::action::PointCandidate;
use crate::events::{
    in_view, is_own_body, is_own_body_track, latest_body, own_body_track, snapshot_visible,
};
use crate::global_features::{
    decision_rows, encode_global, encode_history, encode_policy_history, global_row, history_rows,
};
use crate::item_features::{
    ability_rows, encode_abilities, encode_items, item_rows, rows_of, table_bounded,
};
use crate::local_policy::LocalPolicyState;
use crate::map_context::MapContext;
use crate::map_features::{blank, blank_row};
use crate::observation::{
    lemma_observed_wf, observed, FeatureError, JournalView, LootObservation, ObservationJournal,
    ObservationView,
};
use crate::scalar::{row_bounded, Scalar};
use crate::search::{
    first_index, lemma_first_from_found, lemma_first_from_means, lemma_first_from_none,
};
use crate::space::ActionSpace;
use crate::token_features::{has_double, looks_alike};
use crate::tracker::{
    units_on_map, EntityTrack, ItemReadiness, StateTracker, MAX_LOOT, MAX_PROJECTILES,
    MAX_SHOP_ITEMS,
};
use crate::world::{EntityId, LootView, MapId, ProjectileView, UnitKind, WorldView};
use vstd::prelude::*;

verus! {

/// Explicit controls for policy inputs that can expose audited wire data.
#[derive(Clone, Copy, Debug, PartialEq, Eq, Structural)]
pub struct FeatureAuditConfig {
    /// Whether enemy scoreboard values and derived history enter the model frame.
    pub enemy_scoreboard: bool,
}

impl Default for FeatureAuditConfig {
    fn default() -> (r: Self)
        ensures
            !r.enemy_scoreboard,
    {
        FeatureAuditConfig { enemy_scoreboard: false }
    }
}

/// Static map data and the observations of one seat.
#[derive(Debug)]
pub struct FeatureEncoder {
    pub audit: FeatureAuditConfig,
    pub map: MapId,
    pub lineage: u64,
    pub context: MapContext,
    pub journal: ObservationJournal,
}

/// Scalars of one snapshot; remembered units and projectiles are not ordered yet.
#[derive(Debug)]
pub struct ScalarFrame {
    pub global: Vec<Scalar>,
    pub history: Vec<Vec<Scalar>>,
    pub policy_history: Vec<Vec<Scalar>>,
    pub units: Vec<Vec<Scalar>>,
    pub own_units: Vec<Vec<Scalar>>,
    pub remembered_units: Vec<Vec<Scalar>>,
    pub points: Vec<Vec<Scalar>>,
    pub abilities: Vec<Vec<Scalar>>,
    pub items: Vec<Vec<Scalar>>,
    pub projectiles: Vec<Vec<Scalar>>,
    pub loot: Vec<Vec<Scalar>>,
    pub map: Vec<Scalar>,
}

/// Contents of a scalar frame.
#[verifier::ext_equal]
pub struct FrameRows {
    pub global: Seq<Scalar>,
    pub history: Seq<Seq<Scalar>>,
    pub policy_history: Seq<Seq<Scalar>>,
    pub units: Seq<Seq<Scalar>>,
    pub own_units: Seq<Seq<Scalar>>,
    pub remembered_units: Seq<Seq<Scalar>>,
    pub points: Seq<Seq<Scalar>>,
    pub abilities: Seq<Seq<Scalar>>,
    pub items: Seq<Seq<Scalar>>,
    pub projectiles: Seq<Seq<Scalar>>,
    pub loot: Seq<Seq<Scalar>>,
    pub map: Seq<Scalar>,
}

impl View for ScalarFrame {
    type V = FrameRows;

    open spec fn view(&self) -> FrameRows {
        FrameRows {
            global: self.global@,
            history: rows_of(self.history@),
            policy_history: rows_of(self.policy_history@),
            units: rows_of(self.units@),
            own_units: rows_of(self.own_units@),
            remembered_units: rows_of(self.remembered_units@),
            points: rows_of(self.points@),
            abilities: rows_of(self.abilities@),
            items: rows_of(self.items@),
            projectiles: rows_of(self.projectiles@),
            loot: rows_of(self.loot@),
            map: self.map@,
        }
    }
}

impl ScalarFrame {
    /// Every scalar keeps the range of its sort, and every row its width.
    pub open spec fn bounded(self) -> bool {
        &&& self.global@.len() == 64 && row_bounded(self.global@)
        &&& table_bounded(self.history@, 24)
        &&& table_bounded(self.policy_history@, 4)
        &&& table_bounded(self.units@, 69)
        &&& table_bounded(self.own_units@, 69)
        &&& table_bounded(self.remembered_units@, 69)
        &&& table_bounded(self.points@, 32)
        &&& table_bounded(self.abilities@, 24)
        &&& table_bounded(self.items@, 28)
        &&& table_bounded(self.projectiles@, 20)
        &&& table_bounded(self.loot@, 16)
        &&& self.map@.len() == 96 && row_bounded(self.map@)
    }
}

/// Ground item with a handle.
pub open spec fn loot_index(loot: Seq<LootView>, id: EntityId) -> Option<int> {
    first_index(loot, |entry: LootView| entry.id == id)
}

/// Tracks of the listed ones that are neither visible nor own bodies.
pub open spec fn remembered_tracks(tracker: StateTracker, tracks: Seq<EntityTrack>) -> Seq<
    EntityTrack,
>
    decreases tracks.len(),
{
    if tracks.len() == 0 {
        Seq::empty()
    } else {
        let rest = remembered_tracks(tracker, tracks.drop_last());
        if in_view(tracker, tracks.last()) || is_own_body(tracker, tracks.last()) {
            rest
        } else {
            rest.push(tracks.last())
        }
    }
}

/// Whether every tracked unit stands on the map.
pub open spec fn tracks_on_map(tracks: Seq<EntityTrack>) -> bool {
    forall|i: int| 0 <= i < tracks.len() ==> (#[trigger] tracks[i]).unit.pos.on_map()
}

/// Whether a snapshot and its action space hold everything that encoding reads.
pub open spec fn encodable(tracker: StateTracker, space: ActionSpace) -> bool {
    &&& tracker.wf()
    &&& tracker.current is Some
    &&& tracker.player_spec() is Some
    &&& units_on_map(tracker.view_spec().units@)
    &&& tracks_on_map(tracker.entities@)
    &&& space.context.shop@.len() <= MAX_SHOP_ITEMS
    &&& forall|i: int|
        0 <= i < space.context.entities@.len() ==> tracker.track_spec(
            (#[trigger] space.context.entities@[i]).unit.id,
        ) is Some
    &&& forall|i: int|
        0 <= i < space.context.loot@.len() ==> loot_index(
            tracker.view_spec().loot@,
            (#[trigger] space.context.loot@[i]).id,
        ) is Some
}

impl FeatureEncoder {
    pub open spec fn wf(self) -> bool {
        self.context.wf() && self.journal@.wf()
    }

    /// Builds bounded static map context from validated public tracker inputs.
    pub fn new(tracker: &StateTracker) -> (r: Self)
        requires
            tracker.wf(),
            tracker.static_trees@.len() <= 0x1_0000_0000,
        ensures
            r.wf(),
            !r.audit.enemy_scoreboard,
            r.map == tracker.metadata.map,
            r.lineage == tracker.provenance.lineage,
            r.context.decoded_from(*tracker),
            r.journal@.observation == ObservationView::nothing(),
            r.journal@.history.len() == 0,
            r.journal@.earliest is None,
    {
        FeatureEncoder::new_with_audit(tracker, FeatureAuditConfig { enemy_scoreboard: false })
    }

    /// Builds map context with explicit enemy-scoreboard audit controls.
    pub fn new_with_audit(tracker: &StateTracker, audit: FeatureAuditConfig) -> (r: Self)
        requires
            tracker.wf(),
            tracker.static_trees@.len() <= 0x1_0000_0000,
        ensures
            r.wf(),
            r.audit == audit,
            r.map == tracker.metadata.map,
            r.lineage == tracker.provenance.lineage,
            r.context.decoded_from(*tracker),
            r.journal@.observation == ObservationView::nothing(),
            r.journal@.history.len() == 0,
            r.journal@.earliest is None,
    {
        FeatureEncoder {
            audit,
            map: tracker.metadata.map,
            lineage: tracker.provenance.lineage,
            context: MapContext::new(tracker),
            journal: ObservationJournal::new(),
        }
    }

    /// Whether a tracker describes another map; `same_static` tells whether its static data
    /// compare equal.
    pub open spec fn map_differs(self, tracker: StateTracker, same_static: bool) -> bool {
        tracker.metadata.map != self.map || tracker.metadata.terrain_cells != self.context.axis
            || !same_static
    }

    fn validate_map(&self, tracker: &StateTracker, same_static: bool) -> (r: Result<
        (),
        FeatureError,
    >)
        ensures
            r == (if self.map_differs(*tracker, same_static) {
                Err::<(), FeatureError>(FeatureError::MapMismatch)
            } else {
                Ok(())
            }),
    {
        if tracker.metadata.map != self.map || tracker.metadata.terrain_cells as usize
            != self.context.axis || !same_static {
            return Err(FeatureError::MapMismatch);
        }
        Ok(())
    }

    /// Why an observation is refused; `extends` tells whether the tracker's snapshot follows the
    /// latest observed one.
    pub open spec fn observe_fault(
        self,
        tracker: StateTracker,
        same_static: bool,
        extends: bool,
    ) -> Option<FeatureError> {
        match tracker.current {
            None => Some(FeatureError::SnapshotRequired),
            Some(current) => if self.map_differs(tracker, same_static) {
                Some(FeatureError::MapMismatch)
            } else if tracker.provenance.lineage != self.lineage {
                Some(FeatureError::ObservationPredecessorMismatch { incoming: current.tick })
            } else {
                self.journal@.order_fault(current.tick, extends)
            },
        }
    }

    /// Records projectile and loot observations exactly once for one snapshot.
    pub fn observe(&mut self, tracker: &StateTracker, same_static: bool, extends: bool) -> (r: Result<
        (),
        FeatureError,
    >)
        requires
            old(self).wf(),
            tracker.current matches Some(view) ==> view.projectiles@.len() <= MAX_PROJECTILES
                && view.loot@.len() <= MAX_LOOT,
        ensures
            final(self).wf(),
            match old(self).observe_fault(*tracker, same_static, extends) {
                Some(error) => r == Err::<(), FeatureError>(error) && *final(self) == *old(self),
                None => {
                    &&& r is Ok
                    &&& final(self).journal@ == old(self).journal@.pushed(
                        observed(
                            old(self).journal@.observation,
                            tracker.provenance,
                            tracker.view_spec(),
                        ),
                    )
                    &&& final(self).context == (MapContext {
                        path_origin: None,
                        ..old(self).context
                    })
                    &&& final(self).audit == old(self).audit
                    &&& final(self).map == old(self).map
                    &&& final(self).lineage == old(self).lineage
                },
            },
    {
        let current = match &tracker.current {
            Some(current) => current,
            None => {
                return Err(FeatureError::SnapshotRequired);
            },
        };
        match self.validate_map(tracker, same_static) {
            Ok(()) => {},
            Err(error) => {
                return Err(error);
            },
        }
        if tracker.provenance.lineage != self.lineage {
            return Err(
                FeatureError::ObservationPredecessorMismatch { incoming: current.tick },
            );
        }
        match self.journal.check_order(current.tick, extends) {
            Some(error) => {
                return Err(error);
            },
            None => {},
        }
        let next = self.journal.observation.next(tracker.provenance, current);
        proof {
            let journal = self.journal@;
            if journal.history.len() > 0 {
                assert(journal.history[journal.history.len() - 1].wf());
            }
            assert(journal.observation.wf());
            lemma_observed_wf(journal.observation, tracker.provenance, *current);
        }
        self.journal.push_observation(next);
        self.context.path_origin = None;
        Ok(())
    }

    /// Restores the newest retained observation at or before a tick.
    pub fn rollback(&mut self, tick: u32) -> (r: Result<(), FeatureError>)
        requires
            old(self).wf(),
        ensures
            final(self).wf(),
            match old(self).journal@.rollback_fault(tick) {
                Some(error) => r == Err::<(), FeatureError>(error) && *final(self) == *old(self),
                None => {
                    &&& r is Ok
                    &&& final(self).journal@ == old(self).journal@.rolled_back(tick)
                    &&& final(self).context == (MapContext {
                        path_origin: None,
                        ..old(self).context
                    })
                    &&& final(self).audit == old(self).audit
                    &&& final(self).map == old(self).map
                    &&& final(self).lineage == old(self).lineage
                },
            },
    {
        match self.journal.rollback(tick) {
            Ok(()) => {},
            Err(error) => {
                return Err(error);
            },
        }
        self.context.path_origin = None;
        Ok(())
    }

    /// Clears all dynamic observations while retaining the static map.
    pub fn reset(&mut self)
        requires
            old(self).wf(),
        ensures
            final(self).wf(),
            final(self).journal@ == (JournalView {
                observation: ObservationView::nothing(),
                history: Seq::empty(),
                earliest: None,
            }),
            final(self).context == (MapContext { path_origin: None, ..old(self).context }),
            final(self).audit == old(self).audit,
            final(self).map == old(self).map,
            final(self).lineage == old(self).lineage,
    {
        self.journal.reset();
        self.context.path_origin = None;
    }

    /// Why encoding is refused.
    pub open spec fn input_fault(
        self,
        tracker: StateTracker,
        space: ActionSpace,
        readiness: ItemReadiness,
        local: LocalPolicyState,
        same_static: bool,
    ) -> Option<FeatureError> {
        match tracker.current {
            None => Some(FeatureError::SnapshotRequired),
            Some(current) => {
                let tick = current.tick;
                let observation = self.journal@.observation;
                if space.context.tick != tick {
                    Some(
                        FeatureError::TickMismatch {
                            snapshot: tick,
                            action_space: space.context.tick,
                        },
                    )
                } else if space.context.provenance != tracker.provenance {
                    Some(FeatureError::ActionSpaceMismatch)
                } else if !space.context.readiness.same(readiness) {
                    Some(FeatureError::ReadinessMismatch)
                } else if self.map_differs(tracker, same_static) {
                    Some(FeatureError::MapMismatch)
                } else if observation.tick != Some(tick) {
                    Some(FeatureError::ObservationRequired { snapshot: tick })
                } else if observation.provenance != Some(tracker.provenance) {
                    Some(FeatureError::ObservationMismatch { snapshot: tick })
                } else if local.latest_tick > tick {
                    Some(
                        FeatureError::LocalStateAhead { snapshot: tick, local: local.latest_tick },
                    )
                } else {
                    None
                }
            },
        }
    }

    /// First reason why a snapshot and its companions are not encoded.
    pub fn validate_inputs(
        &self,
        tracker: &StateTracker,
        space: &ActionSpace,
        readiness: &ItemReadiness,
        local: &LocalPolicyState,
        same_static: bool,
    ) -> (r: Option<FeatureError>)
        ensures
            r == self.input_fault(*tracker, *space, *readiness, *local, same_static),
    {
        let current = match &tracker.current {
            Some(current) => current,
            None => {
                return Some(FeatureError::SnapshotRequired);
            },
        };
        let tick = current.tick;
        if space.tick() != tick {
            return Some(
                FeatureError::TickMismatch { snapshot: tick, action_space: space.tick() },
            );
        }
        if !space.matches_tracker(tracker) {
            return Some(FeatureError::ActionSpaceMismatch);
        }
        if !space.matches_readiness(readiness) {
            return Some(FeatureError::ReadinessMismatch);
        }
        match self.validate_map(tracker, same_static) {
            Ok(()) => {},
            Err(error) => {
                return Some(error);
            },
        }
        let observation = &self.journal.observation;
        let observed_now = match observation.tick {
            Some(latest) => latest == tick,
            None => false,
        };
        if !observed_now {
            return Some(FeatureError::ObservationRequired { snapshot: tick });
        }
        let same_snapshot = match observation.provenance {
            Some(provenance) => provenance == tracker.provenance,
            None => false,
        };
        if !same_snapshot {
            return Some(FeatureError::ObservationMismatch { snapshot: tick });
        }
        if local.latest_tick > tick {
            return Some(
                FeatureError::LocalStateAhead { snapshot: tick, local: local.latest_tick },
            );
        }
        None
    }

    /// Age that a ground-item candidate shows.
    pub open spec fn loot_age(self, space: ActionSpace, index: int) -> Option<LootObservation> {
        if looks_alike(space.context.loot@, index) {
            None
        } else {
            self.journal@.observation.ground(space.context.loot@[index].id)
        }
    }

    /// Scalars of the ground-item candidates.
    pub open spec fn loot_rows(self, tracker: StateTracker, space: ActionSpace) -> Seq<Seq<Scalar>> {
        let loot = tracker.view_spec().loot@;
        Seq::new(
            space.context.loot@.len(),
            |i: int|
                self.context.loot_row(
                    tracker.team,
                    loot[loot_index(loot, space.context.loot@[i].id)->0],
                    tracker.origin_spec(),
                    self.loot_age(space, i),
                ),
        )
    }

    /// Whether walking distances start at the own body wherever ground items are in view.
    pub open spec fn path_prepared(self, tracker: StateTracker) -> bool {
        tracker.origin_spec() is Some && tracker.view_spec().loot@.len() > 0
            ==> match self.context.cell_spec(tracker.origin_spec()->0) {
            Some(cell) => self.context.path_origin == Some(cell as usize),
            None => self.context.path_origin is None,
        }
    }

    /// Scalars of the entity candidates in pointer order.
    pub open spec fn unit_rows(self, tracker: StateTracker, space: ActionSpace) -> Seq<Seq<Scalar>> {
        Seq::new(
            space.context.entities@.len(),
            |i: int|
                self.context.unit_row(
                    tracker,
                    tracker.track_spec(space.context.entities@[i].unit.id)->0,
                    tracker.origin_spec(),
                ),
        )
    }

    /// Scalars of the own hero and courier.
    pub open spec fn own_rows(self, tracker: StateTracker) -> Seq<Seq<Scalar>> {
        seq![self.own_row(tracker, UnitKind::Hero), self.own_row(tracker, UnitKind::Courier)]
    }

    /// Scalars of the tracks that are neither visible nor own bodies.
    pub open spec fn remembered_rows(self, tracker: StateTracker) -> Seq<Seq<Scalar>> {
        remembered_tracks(tracker, tracker.entities@).map_values(
            |track: EntityTrack| self.context.unit_row(tracker, track, tracker.origin_spec()),
        )
    }

    /// Scalars of the point candidates in pointer order.
    pub open spec fn point_rows(self, tracker: StateTracker, space: ActionSpace) -> Seq<Seq<Scalar>> {
        space.context.points@.map_values(
            |point: PointCandidate|
                self.context.point_row(tracker.team, point, tracker.origin_spec()),
        )
    }

    /// Scalars of the projectiles in view.
    pub open spec fn projectile_rows(self, tracker: StateTracker) -> Seq<Seq<Scalar>> {
        tracker.view_spec().projectiles@.map_values(
            |projectile: ProjectileView|
                self.context.projectile_row(
                    tracker.team,
                    projectile,
                    tracker.origin_spec(),
                    self.journal@.observation.projectile(projectile.id),
                ),
        )
    }

    /// Scalars of a snapshot.
    pub open spec fn rows(
        self,
        tracker: StateTracker,
        space: ActionSpace,
        readiness: ItemReadiness,
        local: LocalPolicyState,
    ) -> FrameRows {
        let scoreboard = self.audit.enemy_scoreboard;
        FrameRows {
            global: global_row(tracker, local, scoreboard),
            history: history_rows(tracker, scoreboard),
            policy_history: decision_rows(local, tracker.view_spec().tick),
            units: self.unit_rows(tracker, space),
            own_units: self.own_rows(tracker),
            remembered_units: self.remembered_rows(tracker),
            points: self.point_rows(tracker, space),
            abilities: ability_rows(tracker, space),
            items: item_rows(tracker, space, readiness),
            projectiles: self.projectile_rows(tracker),
            loot: self.loot_rows(tracker, space),
            map: self.context.map_row(tracker),
        }
    }

    /// Scalars of the own hero or courier, zeros without a track of it.
    pub open spec fn own_row(self, tracker: StateTracker, kind: UnitKind) -> Seq<Scalar> {
        match latest_body(tracker, kind) {
            Some(track) => self.context.unit_row(tracker, track, tracker.origin_spec()),
            None => blank(69),
        }
    }

    fn encode_own_unit(&self, tracker: &StateTracker, kind: UnitKind) -> (r: Vec<Scalar>)
        requires
            self.wf(),
            tracker.wf(),
            tracker.current is Some,
            units_on_map(tracker.view_spec().units@),
            tracks_on_map(tracker.entities@),
        ensures
            r@ == self.own_row(*tracker, kind),
            r@.len() == 69,
            row_bounded(r@),
    {
        match own_body_track(tracker, kind) {
            Some(track) => {
                proof {
                    lemma_origin_on_map(*tracker);
                    let index = choose|index: int|
                        crate::events::is_latest_body(*tracker, index, kind);
                    assert(tracker.entities@[index].unit.pos.on_map());
                }
                self.context.encode_unit_track(tracker, track, tracker.own_origin())
            },
            None => blank_row(69),
        }
    }

    fn encode_units(&self, tracker: &StateTracker, space: &ActionSpace) -> (r: Vec<Vec<Scalar>>)
        requires
            self.wf(),
            encodable(*tracker, *space),
        ensures
            rows_of(r@) == self.unit_rows(*tracker, *space),
            table_bounded(r@, 69),
    {
        let origin = tracker.own_origin();
        proof {
            lemma_origin_on_map(*tracker);
        }
        let mut table: Vec<Vec<Scalar>> = Vec::new();
        let mut index: usize = 0;
        while index < space.context.entities.len()
            invariant
                index <= space.context.entities@.len(),
                self.wf(),
                encodable(*tracker, *space),
                origin == tracker.origin_spec(),
                origin matches Some(own) ==> own.on_map(),
                table@.len() == index,
                table_bounded(table@, 69),
                forall|i: int|
                    0 <= i < index ==> (#[trigger] table@[i])@ == self.context.unit_row(
                        *tracker,
                        tracker.track_spec(space.context.entities@[i].unit.id)->0,
                        origin,
                    ),
            decreases space.context.entities@.len() - index,
        {
            let id = space.context.entities[index].id();
            assert(tracker.track_spec(space.context.entities@[index as int].unit.id) is Some);
            let track = tracker.entity(id).unwrap();
            proof {
                let test = |track: EntityTrack| track.id == id;
                lemma_first_from_means(tracker.entities@, test, 0);
            }
            table.push(self.context.encode_unit_track(tracker, track, origin));
            index += 1;
        }
        assert(rows_of(table@) =~= self.unit_rows(*tracker, *space));
        table
    }

    fn encode_remembered_units(&self, tracker: &StateTracker) -> (r: Vec<Vec<Scalar>>)
        requires
            self.wf(),
            tracker.wf(),
            tracker.current is Some,
            units_on_map(tracker.view_spec().units@),
            tracks_on_map(tracker.entities@),
        ensures
            rows_of(r@) == self.remembered_rows(*tracker),
            table_bounded(r@, 69),
    {
        let origin = tracker.own_origin();
        proof {
            lemma_origin_on_map(*tracker);
        }
        let ghost row = |track: EntityTrack|
            self.context.unit_row(*tracker, track, tracker.origin_spec());
        let mut table: Vec<Vec<Scalar>> = Vec::new();
        let mut index: usize = 0;
        assert(tracker.entities@.take(0) =~= Seq::<EntityTrack>::empty());
        assert(rows_of(table@) =~= Seq::<EntityTrack>::empty().map_values(row));
        while index < tracker.entities.len()
            invariant
                index <= tracker.entities@.len(),
                self.wf(),
                tracker.wf(),
                tracker.current is Some,
                tracks_on_map(tracker.entities@),
                origin == tracker.origin_spec(),
                origin matches Some(own) ==> own.on_map(),
                row == (|track: EntityTrack|
                    self.context.unit_row(*tracker, track, tracker.origin_spec())),
                table_bounded(table@, 69),
                rows_of(table@) == remembered_tracks(
                    *tracker,
                    tracker.entities@.take(index as int),
                ).map_values(row),
            decreases tracker.entities@.len() - index,
        {
            let track = &tracker.entities[index];
            let ghost before = remembered_tracks(*tracker, tracker.entities@.take(index as int));
            proof {
                let longer = tracker.entities@.take(index + 1);
                assert(longer.drop_last() =~= tracker.entities@.take(index as int));
                assert(longer.last() == *track);
            }
            if !snapshot_visible(tracker, track) && !is_own_body_track(tracker, track) {
                let ghost kept = table@;
                table.push(self.context.encode_unit_track(tracker, track, origin));
                proof {
                    assert(rows_of(table@) =~= rows_of(kept).push(row(*track)));
                    assert(before.push(*track).map_values(row) =~= before.map_values(row).push(
                        row(*track),
                    ));
                }
            }
            index += 1;
        }
        assert(tracker.entities@.take(tracker.entities@.len() as int) =~= tracker.entities@);
        assert(rows_of(table@) =~= self.remembered_rows(*tracker));
        table
    }

    fn encode_points(&self, tracker: &StateTracker, space: &ActionSpace) -> (r: Vec<Vec<Scalar>>)
        requires
            self.wf(),
            tracker.wf(),
        ensures
            rows_of(r@) == self.point_rows(*tracker, *space),
            table_bounded(r@, 32),
    {
        let origin = tracker.own_origin();
        let mut table: Vec<Vec<Scalar>> = Vec::new();
        let mut index: usize = 0;
        while index < space.context.points.len()
            invariant
                index <= space.context.points@.len(),
                self.wf(),
                origin == tracker.origin_spec(),
                table@.len() == index,
                table_bounded(table@, 32),
                forall|i: int|
                    0 <= i < index ==> (#[trigger] table@[i])@ == self.context.point_row(
                        tracker.team,
                        space.context.points@[i],
                        origin,
                    ),
            decreases space.context.points@.len() - index,
        {
            table.push(
                self.context.encode_point(tracker.team, &space.context.points[index], origin),
            );
            index += 1;
        }
        assert(rows_of(table@) =~= self.point_rows(*tracker, *space));
        table
    }

    fn encode_projectiles(&self, tracker: &StateTracker) -> (r: Vec<Vec<Scalar>>)
        requires
            self.wf(),
            tracker.wf(),
            tracker.current is Some,
        ensures
            rows_of(r@) == self.projectile_rows(*tracker),
            table_bounded(r@, 20),
    {
        let current = tracker.current.as_ref().unwrap();
        let origin = tracker.own_origin();
        let mut table: Vec<Vec<Scalar>> = Vec::new();
        let mut index: usize = 0;
        while index < current.projectiles.len()
            invariant
                index <= current.projectiles@.len(),
                tracker.current == Some(*current),
                self.wf(),
                origin == tracker.origin_spec(),
                table@.len() == index,
                table_bounded(table@, 20),
                forall|i: int|
                    0 <= i < index ==> (#[trigger] table@[i])@ == self.context.projectile_row(
                        tracker.team,
                        current.projectiles@[i],
                        origin,
                        self.journal@.observation.projectile(current.projectiles@[i].id),
                    ),
            decreases current.projectiles@.len() - index,
        {
            let projectile = &current.projectiles[index];
            let history = self.journal.observation.projectile_observation(projectile.id);
            proof {
                self.lemma_observation_wf();
                let id = projectile.id;
                lemma_first_from_means(
                    self.journal@.observation.projectiles,
                    |entry: crate::observation::ProjectileObservation| entry.id == id,
                    0,
                );
            }
            table.push(self.context.projectile_token(tracker.team, projectile, origin, history));
            index += 1;
        }
        assert(rows_of(table@) =~= self.projectile_rows(*tracker));
        table
    }

    proof fn lemma_observation_wf(self)
        requires
            self.journal@.wf(),
        ensures
            self.journal@.observation.wf(),
    {
        let journal = self.journal@;
        if journal.history.len() > 0 {
            assert(journal.history[journal.history.len() - 1].wf());
        }
    }

    fn encode_loot(&self, tracker: &StateTracker, space: &ActionSpace) -> (r: Vec<Vec<Scalar>>)
        requires
            self.wf(),
            encodable(*tracker, *space),
        ensures
            rows_of(r@) == self.loot_rows(*tracker, *space),
            table_bounded(r@, 16),
    {
        let current = tracker.current.as_ref().unwrap();
        let origin = tracker.own_origin();
        let candidates = &space.context.loot;
        let mut table: Vec<Vec<Scalar>> = Vec::new();
        let mut index: usize = 0;
        while index < candidates.len()
            invariant
                index <= candidates@.len(),
                *candidates == space.context.loot,
                tracker.current == Some(*current),
                self.wf(),
                encodable(*tracker, *space),
                origin == tracker.origin_spec(),
                table@.len() == index,
                table_bounded(table@, 16),
                forall|i: int|
                    0 <= i < index ==> (#[trigger] table@[i])@ == self.context.loot_row(
                        tracker.team,
                        current.loot@[loot_index(current.loot@, candidates@[i].id)->0],
                        origin,
                        self.loot_age(*space, i),
                    ),
            decreases candidates@.len() - index,
        {
            let id = candidates[index].id;
            assert(loot_index(current.loot@, candidates@[index as int].id) is Some);
            let position = find_loot(&current.loot, id);
            let age = if has_double(candidates, index) {
                None
            } else {
                self.journal.observation.loot_observation(id)
            };
            proof {
                self.lemma_observation_wf();
                lemma_first_from_means(
                    self.journal@.observation.loot,
                    |entry: LootObservation| entry.id == id,
                    0,
                );
            }
            table.push(
                self.context.encode_loot_token(
                    tracker.team,
                    &current.loot[position],
                    origin,
                    age,
                ),
            );
            index += 1;
        }
        assert(rows_of(table@) =~= self.loot_rows(*tracker, *space));
        table
    }

    fn encode_rows(
        &self,
        tracker: &StateTracker,
        space: &ActionSpace,
        readiness: &ItemReadiness,
        local: &LocalPolicyState,
    ) -> (frame: ScalarFrame)
        requires
            self.wf(),
            local.wf(),
            encodable(*tracker, *space),
        ensures
            frame@ == self.rows(*tracker, *space, *readiness, *local),
            frame.bounded(),
    {
        let current = tracker.current.as_ref().unwrap();
        let scoreboard = self.audit.enemy_scoreboard;
        let hero = self.encode_own_unit(tracker, UnitKind::Hero);
        let courier = self.encode_own_unit(tracker, UnitKind::Courier);
        let frame = ScalarFrame {
            global: encode_global(tracker, local, scoreboard),
            history: encode_history(tracker, scoreboard),
            policy_history: encode_policy_history(current.tick, local),
            units: self.encode_units(tracker, space),
            own_units: vec![hero, courier],
            remembered_units: self.encode_remembered_units(tracker),
            points: self.encode_points(tracker, space),
            abilities: encode_abilities(tracker, space),
            items: encode_items(tracker, space, readiness),
            projectiles: self.encode_projectiles(tracker),
            loot: self.encode_loot(tracker, space),
            map: self.context.encode_map(tracker),
        };
        proof {
            let expected = self.rows(*tracker, *space, *readiness, *local);
            assert(rows_of(frame.own_units@) =~= self.own_rows(*tracker));
            assert(frame@ == expected);
        }
        frame
    }

    /// Encodes the scalars of one snapshot from seat-safe state and explicit local history.
    pub fn encode(
        &mut self,
        tracker: &StateTracker,
        space: &ActionSpace,
        readiness: &ItemReadiness,
        local: &LocalPolicyState,
        same_static: bool,
    ) -> (r: Result<ScalarFrame, FeatureError>)
        requires
            old(self).wf(),
            local.wf(),
            old(self).input_fault(*tracker, *space, *readiness, *local, same_static) is None
                ==> encodable(*tracker, *space),
        ensures
            final(self).wf(),
            final(self).audit == old(self).audit,
            final(self).map == old(self).map,
            final(self).lineage == old(self).lineage,
            final(self).journal == old(self).journal,
            final(self).context.same_map(old(self).context),
            match old(self).input_fault(*tracker, *space, *readiness, *local, same_static) {
                Some(error) => r matches Err(found) && found == error && *final(self) == *old(self),
                None => {
                    &&& r matches Ok(frame) && frame@ == final(self).rows(
                        *tracker,
                        *space,
                        *readiness,
                        *local,
                    ) && frame.bounded()
                    &&& final(self).path_prepared(*tracker)
                },
            },
    {
        match self.validate_inputs(tracker, space, readiness, local, same_static) {
            Some(error) => {
                return Err(error);
            },
            None => {},
        }
        let current = tracker.current.as_ref().unwrap();
        match tracker.own_origin() {
            Some(origin) => {
                if current.loot.len() > 0 {
                    self.context.prepare_path_distances(origin);
                }
            },
            None => {},
        }
        Ok(self.encode_rows(tracker, space, readiness, local))
    }
}

/// Own bodies of a view whose units stand on the map stand on the map.
pub proof fn lemma_origin_on_map(tracker: StateTracker)
    requires
        tracker.wf(),
        tracker.current is Some,
        units_on_map(tracker.view_spec().units@),
    ensures
        tracker.origin_spec() matches Some(own) ==> own.on_map(),
{
    let units = tracker.view_spec().units@;
    if tracker.own_hero is Some {
        assert(units[tracker.own_hero->0 as int].pos.on_map());
    } else if tracker.own_courier is Some {
        assert(units[tracker.own_courier->0 as int].pos.on_map());
    }
}

fn find_loot(loot: &Vec<LootView>, id: EntityId) -> (r: usize)
    requires
        loot_index(loot@, id) is Some,
    ensures
        loot_index(loot@, id) == Some(r as int),
        r < loot@.len(),
{
    let ghost test = |entry: LootView| entry.id == id;
    proof {
        lemma_first_from_means(loot@, test, 0);
    }
    let ghost found = loot_index(loot@, id)->0;
    let mut index: usize = 0;
    while index < loot.len() && loot[index].id != id
        invariant
            index <= found < loot@.len(),
            test == (|entry: LootView| entry.id == id),
            test(loot@[found]),
            forall|i: int| 0 <= i < index ==> !test(#[trigger] loot@[i]),
        decreases found - index,
    {
        assert(!test(loot@[index as int]));
        index += 1;
    }
    proof {
        lemma_first_from_found(loot@, test, 0, index as int);
    }
    index
}

fn has_loot(loot: &Vec<LootView>, id: EntityId) -> (r: bool)
    ensures
        r == loot_index(loot@, id) is Some,
{
    let ghost test = |entry: LootView| entry.id == id;
    let mut index: usize = 0;
    while index < loot.len()
        invariant
            index <= loot@.len(),
            test == (|entry: LootView| entry.id == id),
            forall|i: int| 0 <= i < index ==> !test(#[trigger] loot@[i]),
        decreases loot@.len() - index,
    {
        if loot[index].id == id {
            proof {
                lemma_first_from_found(loot@, test, 0, index as int);
            }
            return true;
        }
        index += 1;
    }
    proof {
        lemma_first_from_none(loot@, test, 0);
    }
    false
}

fn candidates_known(tracker: &StateTracker, space: &ActionSpace, view: &WorldView) -> (r: bool)
    ensures
        r == ((forall|i: int|
            0 <= i < space.context.entities@.len() ==> tracker.track_spec(
                (#[trigger] space.context.entities@[i]).unit.id,
            ) is Some) && (forall|i: int|
            0 <= i < space.context.loot@.len() ==> loot_index(
                view.loot@,
                (#[trigger] space.context.loot@[i]).id,
            ) is Some)),
{
    let mut index: usize = 0;
    while index < space.context.entities.len()
        invariant
            index <= space.context.entities@.len(),
            forall|i: int|
                0 <= i < index ==> tracker.track_spec(
                    (#[trigger] space.context.entities@[i]).unit.id,
                ) is Some,
        decreases space.context.entities@.len() - index,
    {
        let id = space.context.entities[index].unit.id;
        if tracker.entity(id).is_none() {
            assert(tracker.track_spec(space.context.entities@[index as int].unit.id) is None);
            return false;
        }
        index += 1;
    }
    let mut index: usize = 0;
    while index < space.context.loot.len()
        invariant
            index <= space.context.loot@.len(),
            forall|i: int|
                0 <= i < index ==> loot_index(
                    view.loot@,
                    (#[trigger] space.context.loot@[i]).id,
                ) is Some,
        decreases space.context.loot@.len() - index,
    {
        let id = space.context.loot[index].id;
        if !has_loot(&view.loot, id) {
            assert(loot_index(view.loot@, space.context.loot@[index as int].id) is None);
            return false;
        }
        index += 1;
    }
    true
}

fn positions_on_map(tracker: &StateTracker, view: &WorldView) -> (r: bool)
    ensures
        r == (units_on_map(view.units@) && tracks_on_map(tracker.entities@)),
{
    let mut index: usize = 0;
    while index < view.units.len()
        invariant
            index <= view.units@.len(),
            forall|i: int| 0 <= i < index ==> (#[trigger] view.units@[i]).pos.on_map(),
        decreases view.units@.len() - index,
    {
        let position = view.units[index].pos;
        if position.x.raw < 0 || position.y.raw < 0 {
            assert(!view.units@[index as int].pos.on_map());
            return false;
        }
        index += 1;
    }
    let mut index: usize = 0;
    while index < tracker.entities.len()
        invariant
            index <= tracker.entities@.len(),
            forall|i: int| 0 <= i < index ==> (#[trigger] tracker.entities@[i]).unit.pos.on_map(),
        decreases tracker.entities@.len() - index,
    {
        let position = tracker.entities[index].unit.pos;
        if position.x.raw < 0 || position.y.raw < 0 {
            assert(!tracker.entities@[index as int].unit.pos.on_map());
            return false;
        }
        index += 1;
    }
    true
}

/// Whether a snapshot and its action space hold everything that encoding reads.
pub fn is_encodable(tracker: &StateTracker, space: &ActionSpace) -> (r: bool)
    ensures
        r == encodable(*tracker, *space),
{
    if !tracker.is_well_formed() {
        return false;
    }
    match &tracker.current {
        None => false,
        Some(view) => tracker.player().is_some() && space.context.shop.len() <= MAX_SHOP_ITEMS
            && positions_on_map(tracker, view) && candidates_known(tracker, space, view),
    }
}

} // verus!
