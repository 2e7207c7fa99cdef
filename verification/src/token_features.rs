//! Point, projectile, and loot tokens.
use crate::action::{EntityRelation, LootCandidate, PointCandidate, PointDirection, PointSource};
use crate::events::MAX_AGE;
use crate::item_features::MAX_CHARGES;
use crate::map_context::MapContext;
use crate::map_features::{append_row, blank, blank_row};
use crate::observation::{projectile_timed, LootObservation, ProjectileObservation};
use crate::scalar::{
    ability_category, ability_id_token, bool_feature, category_of, category_token, coordinate_of,
    coordinate_ratio, direction_rank, facing_feature, facing_of, flag_of, item_category,
    item_id_token, kind_category, landmark_relation, landmark_relation_of, point_direction_index,
    ratio, ratio_of, relation_flag, relation_flag_of, row_bounded, signed_of, signed_ratio,
    team_relation, team_relation_of, truncated, truncated_quotient, unit_kind_token, unit_of,
    unit_ratio, Scalar,
};
use crate::unit_features::{
    canonical_delta, delta_of, encode_offset, offset_row, optional_flag, optional_relation_flag,
};
use crate::world::{LootView, ProjectileView, Team, UnitKind, Vec2};
use vstd::prelude::*;

verus! {

/// What the source of a point tells about it.
#[derive(Clone, Copy, Debug, PartialEq, Eq)]
pub struct PointSourceSemantics {
    pub category: usize,
    pub direction: Option<PointDirection>,
    pub radius: Option<i32>,
    pub kind: Option<UnitKind>,
    pub relation: Option<EntityRelation>,
}

pub open spec fn semantics_of(source: PointSource) -> PointSourceSemantics {
    let none = PointSourceSemantics {
        category: 0,
        direction: None,
        radius: None,
        kind: None,
        relation: None,
    };
    match source {
        PointSource::Tactical { direction, radius } => PointSourceSemantics {
            direction: Some(direction),
            radius: Some(radius),
            ..none
        },
        PointSource::StaticTree => PointSourceSemantics { category: 1, ..none },
        PointSource::PlantedTree => PointSourceSemantics { category: 2, ..none },
        PointSource::BuildingLanding(kind) => PointSourceSemantics {
            category: 3,
            kind: Some(kind),
            ..none
        },
        PointSource::Fountain(relation) => PointSourceSemantics {
            category: 4,
            relation: Some(landmark_relation_of(relation)),
            ..none
        },
        PointSource::Tower(relation) => PointSourceSemantics {
            category: 5,
            relation: Some(landmark_relation_of(relation)),
            ..none
        },
        PointSource::PredictedHero(relation) => PointSourceSemantics {
            category: 6,
            relation: Some(relation),
            ..none
        },
        PointSource::PredictedCreep(relation) => PointSourceSemantics {
            category: 7,
            relation: Some(relation),
            ..none
        },
    }
}

/// What the source of a point tells about it.
pub fn point_source_semantics(source: PointSource) -> (r: PointSourceSemantics)
    ensures
        r == semantics_of(source),
{
    let none = PointSourceSemantics {
        category: 0,
        direction: None,
        radius: None,
        kind: None,
        relation: None,
    };
    match source {
        PointSource::Tactical { direction, radius } => PointSourceSemantics {
            direction: Some(direction),
            radius: Some(radius),
            ..none
        },
        PointSource::StaticTree => PointSourceSemantics { category: 1, ..none },
        PointSource::PlantedTree => PointSourceSemantics { category: 2, ..none },
        PointSource::BuildingLanding(kind) => PointSourceSemantics {
            category: 3,
            kind: Some(kind),
            ..none
        },
        PointSource::Fountain(relation) => PointSourceSemantics {
            category: 4,
            relation: Some(landmark_relation(relation)),
            ..none
        },
        PointSource::Tower(relation) => PointSourceSemantics {
            category: 5,
            relation: Some(landmark_relation(relation)),
            ..none
        },
        PointSource::PredictedHero(relation) => PointSourceSemantics {
            category: 6,
            relation: Some(relation),
            ..none
        },
        PointSource::PredictedCreep(relation) => PointSourceSemantics {
            category: 7,
            relation: Some(relation),
            ..none
        },
    }
}

/// Scalars of a point's source.
pub open spec fn source_row(source: PointSource) -> Seq<Scalar> {
    let known = semantics_of(source);
    seq![
        category_of(known.category as int),
        flag_of(known.direction is Some),
        match known.direction {
            Some(direction) => category_of(direction_rank(direction)),
            None => Scalar::Zero,
        },
        flag_of(known.radius is Some),
        match known.radius {
            Some(radius) => ratio_of(radius as int, 0, 1_200),
            None => Scalar::Zero,
        },
        flag_of(known.kind is Some),
        match known.kind {
            Some(kind) => kind_category(kind),
            None => Scalar::Zero,
        },
        flag_of(known.relation is Some),
        optional_flag(known.relation, 0),
        optional_flag(known.relation, 1),
        optional_flag(known.relation, 2),
        optional_flag(known.relation, 3),
    ]
}

fn encode_point_source(source: PointSource) -> (r: Vec<Scalar>)
    ensures
        r@ == source_row(source),
        r@.len() == 12,
        row_bounded(r@),
{
    let known = point_source_semantics(source);
    let direction = match known.direction {
        Some(direction) => category_token(point_direction_index(direction)),
        None => Scalar::Zero,
    };
    let radius = match known.radius {
        Some(radius) => ratio(radius as i64, 0, 1_200),
        None => Scalar::Zero,
    };
    let kind = match known.kind {
        Some(kind) => unit_kind_token(kind),
        None => Scalar::Zero,
    };
    let row = vec![
        category_token(known.category),
        bool_feature(known.direction.is_some()),
        direction,
        bool_feature(known.radius.is_some()),
        radius,
        bool_feature(known.kind.is_some()),
        kind,
        bool_feature(known.relation.is_some()),
        optional_relation_flag(known.relation, 0),
        optional_relation_flag(known.relation, 1),
        optional_relation_flag(known.relation, 2),
        optional_relation_flag(known.relation, 3),
    ];
    assert(row@ =~= source_row(source));
    row
}

/// Velocity of a projectile between its two latest observations as the Radiant side sees it.
pub open spec fn projectile_delta(team: Team, history: ProjectileObservation) -> (int, int) {
    delta_of(team, history.position, history.previous_position)
}

/// Motion of a projectile that was seen twice, and its closest approach to the own body.
pub open spec fn motion_row(
    team: Team,
    position: Vec2,
    origin: Option<Vec2>,
    history: Option<ProjectileObservation>,
    extent: int,
) -> Seq<Scalar> {
    match history {
        None => blank(7),
        Some(known) => {
            let age = seq![
                Scalar::One,
                unit_of(known.last_tick - known.first_tick, MAX_AGE as int),
            ];
            match known.previous_tick {
                None => blank(3) + age + blank(2),
                Some(previous) => {
                    let elapsed = known.last_tick - previous;
                    let delta = projectile_delta(team, known);
                    seq![
                        Scalar::One,
                        signed_of(truncated(delta.0, elapsed), extent),
                        signed_of(truncated(delta.1, elapsed), extent),
                    ] + age + match origin {
                        None => blank(2),
                        Some(own) => {
                            let relative = delta_of(team, position, own);
                            seq![
                                Scalar::One,
                                Scalar::Approach {
                                    relative_x: relative.0 as i64,
                                    relative_y: relative.1 as i64,
                                    velocity_x: delta.0 as i64,
                                    velocity_y: delta.1 as i64,
                                    extent: extent as i64,
                                },
                            ]
                        },
                    }
                },
            }
        },
    }
}

fn encode_motion(
    team: Team,
    position: Vec2,
    origin: Option<Vec2>,
    history: Option<ProjectileObservation>,
    extent_raw: i64,
) -> (r: Vec<Scalar>)
    requires
        0 < extent_raw <= 0x8000_0000,
        history matches Some(known) ==> projectile_timed(known, Some(known.last_tick)),
    ensures
        r@ == motion_row(team, position, origin, history, extent_raw as int),
        r@.len() == 7,
        row_bounded(r@),
{
    let known = match history {
        None => {
            return blank_row(7);
        },
        Some(known) => known,
    };
    let age = unit_ratio(known.last_tick - known.first_tick, MAX_AGE);
    let row = match known.previous_tick {
        None => vec![
            Scalar::Zero,
            Scalar::Zero,
            Scalar::Zero,
            Scalar::One,
            age,
            Scalar::Zero,
            Scalar::Zero,
        ],
        Some(previous) => {
            let elapsed: i64 = (known.last_tick - previous) as i64;
            let delta = canonical_delta(team, known.position, known.previous_position);
            let (present, approach) = match origin {
                None => (Scalar::Zero, Scalar::Zero),
                Some(own) => {
                    let relative = canonical_delta(team, position, own);
                    (
                        Scalar::One,
                        Scalar::Approach {
                            relative_x: relative.0,
                            relative_y: relative.1,
                            velocity_x: delta.0,
                            velocity_y: delta.1,
                            extent: extent_raw,
                        },
                    )
                },
            };
            vec![
                Scalar::One,
                signed_ratio(truncated_quotient(delta.0, elapsed), extent_raw),
                signed_ratio(truncated_quotient(delta.1, elapsed), extent_raw),
                Scalar::One,
                age,
                present,
                approach,
            ]
        },
    };
    assert(row@ =~= motion_row(team, position, origin, history, extent_raw as int));
    row
}

/// Relative offset from an optional own body.
pub open spec fn relative_row(team: Team, position: Vec2, origin: Option<Vec2>, extent: int) -> Seq<
    Scalar,
> {
    offset_row(team, position, origin, extent).take(2)
}

impl MapContext {
    /// Scalars of one point candidate.
    pub open spec fn point_row(
        self,
        team: Team,
        point: PointCandidate,
        origin: Option<Vec2>,
    ) -> Seq<Scalar> {
        let position = self.canonical_spec(team, point.position);
        let extent = self.extent_raw as int;
        seq![
            Scalar::One,
            Scalar::One,
            coordinate_of(position.x.raw as int, extent),
            coordinate_of(position.y.raw as int, extent),
            flag_of(origin is Some),
        ] + offset_row(team, point.position, origin, extent) + source_row(point.source) + seq![
            flag_of(point.walkable),
            flag_of(point.standing_tree),
            flag_of(point.allied_building),
        ] + blank(7)
    }

    /// Scalars of one point candidate.
    pub fn encode_point(&self, team: Team, point: &PointCandidate, origin: Option<Vec2>) -> (r: Vec<
        Scalar,
    >)
        requires
            self.wf(),
        ensures
            r@ == self.point_row(team, *point, origin),
            r@.len() == 32,
            row_bounded(r@),
    {
        let position = self.canonical_position(team, point.position);
        let extent = self.extent_raw;
        let offset = encode_offset(team, point.position, origin, extent);
        let mut row = vec![
            Scalar::One,
            Scalar::One,
            coordinate_ratio(position.x.raw, extent),
            coordinate_ratio(position.y.raw, extent),
            bool_feature(origin.is_some()),
        ];
        let ghost head = row@;
        let middle = vec![offset[0], offset[1], offset[2], offset[3], offset[4]];
        assert(middle@ =~= offset_row(team, point.position, origin, extent as int)) by {
            assert(offset@.len() == 5);
        }
        append_row(&mut row, &middle);
        append_row(&mut row, &encode_point_source(point.source));
        let tail = vec![
            bool_feature(point.walkable),
            bool_feature(point.standing_tree),
            bool_feature(point.allied_building),
        ];
        append_row(&mut row, &tail);
        append_row(&mut row, &blank_row(7));
        assert(row@ =~= self.point_row(team, *point, origin));
        row
    }

    /// Scalars of one projectile.
    pub open spec fn projectile_row(
        self,
        team: Team,
        projectile: ProjectileView,
        origin: Option<Vec2>,
        history: Option<ProjectileObservation>,
    ) -> Seq<Scalar> {
        let relation = team_relation_of(team, projectile.team);
        let extent = self.extent_raw as int;
        seq![
            Scalar::One,
            relation_flag_of(relation, 0),
            relation_flag_of(relation, 1),
            relation_flag_of(relation, 2),
            relation_flag_of(relation, 3),
            flag_of(projectile.ability is Some),
            match projectile.ability {
                Some(ability) => ability_category(ability),
                None => Scalar::Zero,
            },
        ] + relative_row(team, projectile.pos, origin, extent) + seq![
            facing_of(team, projectile.facing),
        ] + motion_row(team, projectile.pos, origin, history, extent) + seq![
            flag_of(origin is Some),
        ] + blank(2)
    }

    /// Scalars of one projectile.
    pub fn projectile_token(
        &self,
        team: Team,
        projectile: &ProjectileView,
        origin: Option<Vec2>,
        history: Option<ProjectileObservation>,
    ) -> (r: Vec<Scalar>)
        requires
            self.wf(),
            history matches Some(known) ==> projectile_timed(known, Some(known.last_tick)),
        ensures
            r@ == self.projectile_row(team, *projectile, origin, history),
            r@.len() == 20,
            row_bounded(r@),
    {
        let relation = team_relation(team, projectile.team);
        let extent = self.extent_raw;
        let ability = match projectile.ability {
            Some(ability) => ability_id_token(ability),
            None => Scalar::Zero,
        };
        let offset = encode_offset(team, projectile.pos, origin, extent);
        let mut row = vec![
            Scalar::One,
            relation_flag(relation, 0),
            relation_flag(relation, 1),
            relation_flag(relation, 2),
            relation_flag(relation, 3),
            bool_feature(projectile.ability.is_some()),
            ability,
        ];
        let relative = vec![offset[0], offset[1]];
        assert(relative@ =~= relative_row(team, projectile.pos, origin, extent as int));
        append_row(&mut row, &relative);
        append_row(&mut row, &vec![facing_feature(team, projectile.facing)]);
        append_row(&mut row, &encode_motion(team, projectile.pos, origin, history, extent));
        append_row(&mut row, &vec![bool_feature(origin.is_some())]);
        append_row(&mut row, &blank_row(2));
        assert(row@ =~= self.projectile_row(team, *projectile, origin, history));
        row
    }

    /// Scalars of one ground item; the age is withheld from items that look alike.
    pub open spec fn loot_row(
        self,
        team: Team,
        loot: LootView,
        origin: Option<Vec2>,
        age: Option<LootObservation>,
    ) -> Seq<Scalar> {
        let extent = self.extent_raw as int;
        let offset = offset_row(team, loot.pos, origin, extent);
        let steps = if origin is Some {
            self.recorded_steps(loot.pos)
        } else {
            None
        };
        seq![
            Scalar::One,
            item_category(loot.item),
            flag_of(loot.charges is Some),
            ratio_of(
                match loot.charges {
                    Some(count) => count as int,
                    None => 0,
                },
                0,
                MAX_CHARGES as int,
            ),
            offset[0],
            offset[1],
            offset[2],
            flag_of(steps is Some),
            match steps {
                Some(count) => ratio_of(count, 0, self.area()),
                None => Scalar::Zero,
            },
            flag_of(age is Some),
            match age {
                Some(known) => unit_of(known.last_tick - known.first_tick, MAX_AGE as int),
                None => Scalar::Zero,
            },
            flag_of(origin is Some),
        ] + blank(4)
    }

    /// Scalars of one ground item.
    pub fn encode_loot_token(
        &self,
        team: Team,
        loot: &LootView,
        origin: Option<Vec2>,
        age: Option<LootObservation>,
    ) -> (r: Vec<Scalar>)
        requires
            self.wf(),
            age matches Some(known) ==> known.first_tick <= known.last_tick,
        ensures
            r@ == self.loot_row(team, *loot, origin, age),
            r@.len() == 16,
            row_bounded(r@),
    {
        let extent = self.extent_raw;
        let offset = encode_offset(team, loot.pos, origin, extent);
        let steps = if origin.is_some() {
            self.path_steps(loot.pos)
        } else {
            None
        };
        let charges: i64 = match loot.charges {
            Some(count) => count as i64,
            None => 0,
        };
        proof {
            assert(1 <= self.area() <= 512 * 512) by (nonlinear_arith)
                requires
                    self.area() == self.axis * self.axis,
                    1 <= self.axis <= 512,
            ;
        }
        let path = match steps {
            Some(count) => ratio(count as i64, 0, self.path_distances.len() as i64),
            None => Scalar::Zero,
        };
        let seen = match age {
            Some(known) => unit_ratio(known.last_tick - known.first_tick, MAX_AGE),
            None => Scalar::Zero,
        };
        let mut row = vec![
            Scalar::One,
            item_id_token(loot.item),
            bool_feature(loot.charges.is_some()),
            ratio(charges, 0, MAX_CHARGES),
            offset[0],
            offset[1],
            offset[2],
            bool_feature(steps.is_some()),
            path,
            bool_feature(age.is_some()),
            seen,
            bool_feature(origin.is_some()),
        ];
        append_row(&mut row, &blank_row(4));
        assert(row@ =~= self.loot_row(team, *loot, origin, age));
        row
    }
}

/// Whether another candidate looks like a ground item.
pub open spec fn looks_alike(candidates: Seq<LootCandidate>, index: int) -> bool {
    exists|i: int|
        0 <= i < candidates.len() && (#[trigger] candidates[i]).id != candidates[index].id
            && candidates[i].item == candidates[index].item && candidates[i].charges
            == candidates[index].charges && candidates[i].position == candidates[index].position
}

fn same_charges(left: Option<u8>, right: Option<u8>) -> (r: bool)
    ensures
        r == (left == right),
{
    match (left, right) {
        (Some(a), Some(b)) => a == b,
        (None, None) => true,
        _ => false,
    }
}

/// Whether another candidate looks like a ground item.
pub fn has_double(candidates: &Vec<LootCandidate>, index: usize) -> (r: bool)
    requires
        index < candidates@.len(),
    ensures
        r == looks_alike(candidates@, index as int),
{
    let own = candidates[index];
    let mut other: usize = 0;
    while other < candidates.len()
        invariant
            other <= candidates@.len(),
            index < candidates@.len(),
            own == candidates@[index as int],
            forall|i: int|
                0 <= i < other ==> !((#[trigger] candidates@[i]).id != own.id && candidates@[i].item
                    == own.item && candidates@[i].charges == own.charges && candidates@[i].position
                    == own.position),
        decreases candidates@.len() - other,
    {
        let candidate = candidates[other];
        if candidate.id != own.id && candidate.item == own.item && same_charges(
            candidate.charges,
            own.charges,
        ) && candidate.position == own.position {
            assert(candidates@[other as int].id != own.id);
            return true;
        }
        other += 1;
    }
    false
}

} // verus!
