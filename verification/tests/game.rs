use drysua::ability_feature;
use drysua::action::{
    ActionError, ActionKind, ActionTarget, ControlledUnit, EntityIndex, EntityRelation,
    IssuedOrder, LootIndex, PointCandidate, PointDirection, PointIndex, PointSource,
    PutPointTarget, ShopIndex, StructuredAction, ACTION_KIND_COUNT,
};
use drysua::assembly::{sorted_tokens, RenderedFrame};
use drysua::behavioral_target::{padded_mask, BehavioralTarget, HeadTarget};
use drysua::candidates::canonical_facing;
use drysua::coverage::{AgreementCount, CoverageError, TeacherCoverage, TeacherSampleError};
use drysua::encoder::{is_encodable, FeatureAuditConfig, FeatureEncoder, ScalarFrame};
use drysua::evaluation::{prediction_matches, BehavioralPrediction, OfflineEvaluation};
use drysua::frame::{
    FeatureFrame, ABILITY_FEATURE_TOKENS, GLOBAL_FEATURES, ITEM_FEATURE_TOKENS, MAP_FEATURES,
    NEGATIVE_ZERO_BITS, ONE_BITS, UNIT_FEATURES, UNIT_FEATURE_TOKENS,
};
use drysua::global_feature;
use drysua::imitation_error::ImitationError;
use drysua::item_feature;
use drysua::local_policy::LocalPolicyState;
use drysua::loot_feature;
use drysua::map_context::MapContext;
use drysua::model::{
    AdamConfig, AdamState, ModelAdamSnapshot, ModelShape, OptimizerBinding, PolicyIdentity,
};
use drysua::observation::FeatureError;
use drysua::order::stable_order;
use drysua::passability::reconstruct_static_passability;
use drysua::point_feature;
use drysua::points::{direction_offset, nearest_landmark, push_point};
use drysua::pool::{DaggerStatistics, ImitationPool};
use drysua::projectile_feature;
use drysua::promotion::{
    numeric_order, LearnerMatchOutcome, LearnerTeacherResult, PairedGameplayReport,
    PairedSeedResult, PromotionGateInput, PromotionGateResult, RolloutAudit, ScoreTotals, WinRate,
};
use drysua::sample::{
    frame_map, frame_side, ImitationSample, ImitationSide, ImitationSource, SampleIdentity,
    TrainingScope, IMITATION_RULES_AUDIT_VERSION, MAP_ONE, MAP_ZERO, SIDE_DIRE, SIDE_RADIANT,
};
use drysua::scalar::Scalar;
use drysua::seeds::{ImitationSplit, SeedNamespace, SeedNamespaces};
use drysua::shop::{missing_buy_requirement, validate_shop_recipes, BuyRequirement};
use drysua::shuffle::ShuffleState;
use drysua::space::ActionSpace;
use drysua::tracker::{
    EntityTrack, GlobalSummary, ItemReadiness, MatchMetadata, MuteTimer, StateTracker, TeamScore,
    TrackerProvenance, WaitTimer, HISTORY_SAMPLES, MAX_POINT_CANDIDATES, TERRAIN_WALKABLE,
};
use drysua::training::{
    BehavioralTrainer, EarlyStoppingConfig, EpochPlan, EpochStart, TrainerCounters,
    TrainingEpochReport,
};
use drysua::training_checkpoint::{OptimizerVerdicts, TrainingCheckpoint};
use drysua::unit_feature;
use drysua::validation::map_maximum_raw;
use drysua::world::{
    AbilityId, AbilitySlot, AbilityView, Aim, Angle, EntityId, Fixed, ItemId, ItemSlot, ItemView,
    LootView, MapId, Order, PlayerSlot, PlayerView, ProjectileView, ShopEntry, StatusFlags,
    Target, Team, UnitKind, UnitView, Vec2, WorldView, STATUS_DISARMED, STATUS_ROOTED,
    STATUS_STUNNED,
};

const HERO: ControlledUnit = ControlledUnit::Hero;
const COURIER: ControlledUnit = ControlledUnit::Courier;

fn ability(id: u16, level: u8, aim: Aim, range: i32) -> AbilityView {
    AbilityView {
        id: AbilityId(id),
        level,
        max_level: 4,
        cooldown_left: 0,
        mana_cost: 50,
        range,
        aim,
        passive: false,
        on: false,
        can_level: level == 0,
    }
}

fn item(id: u16, aim: Option<Aim>, for_sale: bool) -> ItemView {
    ItemView {
        id: ItemId(id),
        charges: None,
        cooldown_left: 0,
        aim,
        range: 600,
        mana_cost: 0,
        mode: None,
        for_sale,
    }
}

fn unit(id: u64, kind: UnitKind, team: Team, owner: Option<u8>, x: i32, y: i32) -> UnitView {
    UnitView {
        id: EntityId(id),
        kind,
        team,
        owner: owner.map(PlayerSlot),
        pos: Vec2::from_ints(x, y),
        facing: Angle { brads: 0 },
        radius: Fixed::from_int(24),
        hp: 500,
        max_hp: 600,
        mana: 100,
        max_mana: 200,
        move_speed: Fixed::from_int(300),
        attack_damage: 50,
        attack_range: Fixed::from_int(500),
        attack_interval: 50,
        attack_speed: 100,
        armor: Fixed::from_int(2),
        magic_resist: Fixed::from_int(0),
        vision_radius: Fixed::from_int(1_800),
        true_sight_radius: Fixed::from_int(0),
        statuses: StatusFlags { bits: 0 },
        abilities: vec![],
        items: vec![],
    }
}

fn player(slot: u8, team: Team, body: u64) -> PlayerView {
    PlayerView {
        slot: PlayerSlot(slot),
        team,
        unit: Some(EntityId(body)),
        respawn_left: 0,
        level: 1,
        xp: 0,
        kills: 0,
        deaths: 0,
        assists: 0,
        last_hits: 0,
        denies: 0,
        gold: if slot == 0 { Some(300) } else { None },
        stash: if slot == 0 { Some(vec![None; 6]) } else { None },
        kit: None,
    }
}

fn score() -> TeamScore {
    TeamScore { kills: 0, deaths: 0, assists: 0, xp: 0, levels: 1, last_hits: 0, denies: 0 }
}

fn summary() -> GlobalSummary {
    GlobalSummary {
        tick: 100,
        allied: score(),
        enemy: score(),
        allied_structure_hp: 500,
        enemy_structure_hp: 500,
        destroyed_structures_present: true,
        allied_structures_destroyed: 0,
        enemy_structures_destroyed: 0,
        visible_allied_units: 3,
        visible_enemy_units: 2,
        own_hp_present: true,
        own_hp: 500,
        own_max_hp: 600,
        own_mana_present: true,
        own_mana: 100,
        own_max_mana: 200,
        own_level: 1,
        own_gold: 300,
        own_respawn_left: 0,
    }
}

fn view() -> WorldView {
    let mut hero = unit(1, UnitKind::Hero, Team::Radiant, Some(0), 2_000, 2_000);
    hero.abilities = vec![
        ability(10, 1, Aim::Unit, 450),
        ability(11, 1, Aim::Own, 0),
        ability(12, 0, Aim::Point, 700),
    ];
    hero.items = vec![None; 9];
    hero.items[0] = Some(item(100, Some(Aim::Own), true));
    hero.items[2] = Some(item(102, None, false));
    let mut courier = unit(2, UnitKind::Courier, Team::Radiant, Some(0), 2_100, 2_000);
    courier.items = vec![None; 6];
    WorldView {
        viewer: Some(Team::Radiant),
        tick: 100,
        units: vec![
            hero,
            courier,
            unit(3, UnitKind::Hero, Team::Dire, Some(1), 2_400, 2_000),
            unit(4, UnitKind::CreepMelee, Team::Dire, None, 2_300, 2_300),
            unit(5, UnitKind::Fountain, Team::Radiant, None, 1_500, 1_500),
        ],
        players: vec![player(0, Team::Radiant, 1), player(1, Team::Dire, 3)],
        loot: vec![
            LootView { id: EntityId(30), pos: Vec2::from_ints(2_050, 2_050), item: ItemId(9), charges: None },
            LootView { id: EntityId(31), pos: Vec2::from_ints(2_060, 2_050), item: ItemId(8), charges: Some(2) },
        ],
        projectiles: vec![ProjectileView {
            id: EntityId(40),
            team: Team::Dire,
            ability: None,
            pos: Vec2::from_ints(2_200, 2_000),
            facing: Angle { brads: 32_768 },
        }],
        felled_trees: vec![],
        planted_trees: vec![],
    }
}

fn shop() -> Vec<ShopEntry> {
    vec![
        ShopEntry { id: ItemId(202), cost: 300, components: vec![ItemId(200), ItemId(201)] },
        ShopEntry { id: ItemId(200), cost: 90, components: vec![] },
        ShopEntry { id: ItemId(201), cost: 250, components: vec![] },
    ]
}

fn track(unit: UnitView) -> EntityTrack {
    EntityTrack {
        id: unit.id,
        unit,
        last_seen_tick: 100,
        velocity: None,
        hp_delta: 0,
        mana_delta: 0,
        last_damage_dealt: None,
        last_damage_taken: None,
        last_ability_cast: None,
        last_attack_landed: None,
    }
}

fn tracker() -> StateTracker {
    StateTracker {
        provenance: TrackerProvenance { lineage: 77, revision: 5 },
        slot: PlayerSlot(0),
        team: Team::Radiant,
        metadata: MatchMetadata {
            map: MapId(0),
            seats: 2,
            tick_rate: 30,
            pregame_ticks: 900,
            terrain_cells: 64,
        },
        terrain_rle: vec![(4_096, TERRAIN_WALKABLE | 3)],
        opaque_cells: vec![],
        static_trees: vec![Vec2::from_ints(2_200, 1_800)],
        shop: shop(),
        current: Some(view()),
        own_hero: Some(0),
        own_courier: Some(1),
        own_player: Some(0),
        observable_cells: vec![],
        entities: view().units.into_iter().map(track).collect(),
        history: [summary(); HISTORY_SAMPLES],
        events: vec![],
    }
}

fn space() -> ActionSpace {
    ActionSpace::from_tracker(&tracker()).expect("action space")
}

fn legal_actions(space: &ActionSpace) -> Vec<StructuredAction> {
    let mut actions = vec![StructuredAction::Continue];
    for unit in [HERO, COURIER] {
        actions.push(StructuredAction::Stop { unit });
        actions.push(StructuredAction::Hold { unit });
        for index in 0..space.point_candidates().len() {
            let point = PointIndex(index);
            actions.push(StructuredAction::MovePoint { unit, point });
            actions.push(StructuredAction::AttackMovePoint { unit, point });
            for slot in 0..15u8 {
                let source = ItemSlot(slot);
                let target = PutPointTarget::Point(point);
                actions.push(StructuredAction::PutPoint { unit, source, target });
            }
            for slot in 0..8u8 {
                let target = ActionTarget::Point(point);
                actions.push(StructuredAction::Cast { unit, slot: AbilitySlot(slot), target });
                actions.push(StructuredAction::Use { unit, slot: ItemSlot(slot), target });
            }
        }
        for index in 0..space.entity_candidates().len() {
            let target = EntityIndex(index);
            actions.push(StructuredAction::FollowUnit { unit, target });
            actions.push(StructuredAction::AttackUnit { unit, target });
            for slot in 0..15u8 {
                actions.push(StructuredAction::PutUnit { unit, source: ItemSlot(slot), target });
            }
            for slot in 0..8u8 {
                let target = ActionTarget::Entity(target);
                actions.push(StructuredAction::Cast { unit, slot: AbilitySlot(slot), target });
                actions.push(StructuredAction::Use { unit, slot: ItemSlot(slot), target });
            }
        }
        for slot in 0..15u8 {
            let source = ItemSlot(slot);
            let target = PutPointTarget::Underfoot;
            actions.push(StructuredAction::PutPoint { unit, source, target });
            actions.push(StructuredAction::Sell { unit, slot: source });
            for to in 0..15u8 {
                actions.push(StructuredAction::Swap { unit, from: source, to: ItemSlot(to) });
            }
        }
        for slot in 0..8u8 {
            let target = ActionTarget::Untargeted;
            actions.push(StructuredAction::Cast { unit, slot: AbilitySlot(slot), target });
            actions.push(StructuredAction::Use { unit, slot: ItemSlot(slot), target });
        }
        for index in 0..space.loot_candidates().len() {
            actions.push(StructuredAction::Take { unit, loot: LootIndex(index) });
        }
        for index in 0..space.shop_candidates().len() {
            actions.push(StructuredAction::Buy { unit, item: ShopIndex(index) });
        }
    }
    for slot in 0..8u8 {
        actions.push(StructuredAction::Learn { slot: AbilitySlot(slot) });
    }
    actions.retain(|action| space.allows(*action));
    actions
}

#[test]
fn spaces_need_a_snapshot() {
    let mut tracker = tracker();
    tracker.current = None;

    let error = ActionSpace::from_tracker(&tracker).expect_err("no snapshot");

    assert_eq!(error, ActionError::SnapshotRequired);
    assert_eq!(error.message(), "action space requires a validated snapshot");
}

#[test]
fn spaces_refuse_each_malformed_field() {
    let changes: [(fn(&mut StateTracker), &'static str); 11] = [
        (|t| t.current.as_mut().unwrap().units[3].radius.raw = -1, "UnitView radius"),
        (
            |t| t.current.as_mut().unwrap().units[0].abilities[0].range = 32_768,
            "AbilityView range or mana cost",
        ),
        (
            |t| t.current.as_mut().unwrap().units[0].items[0].as_mut().unwrap().mana_cost = -1,
            "ItemView range or mana cost",
        ),
        (|t| t.shop[1].cost = -1, "ShopEntry cost"),
        (|t| t.shop[1].id = ItemId(201), "duplicate shop item"),
        (|t| t.shop[0].components[0] = ItemId(999), "unknown recipe component"),
        (|t| t.shop[1].components.push(ItemId(202)), "cyclic shop recipe"),
        (|t| t.static_trees[0].x.raw = -1, "MatchInfo tree position"),
        (
            |t| t.current.as_mut().unwrap().units[4].pos = Vec2::from_ints(4_096, 0),
            "UnitView position",
        ),
        (|t| t.current.as_mut().unwrap().players[0].gold = None, "own gold"),
        (|t| t.current.as_mut().unwrap().players[0].stash = None, "own stash"),
    ];

    for (change, field) in changes {
        let mut tracker = tracker();
        change(&mut tracker);

        let error = ActionSpace::from_tracker(&tracker).expect_err(field);

        assert_eq!(error, ActionError::InvalidSchema(field));
        assert_eq!(
            error.message(),
            format!("action space received invalid wire schema in {field}")
        );
    }
}

#[test]
fn planted_trees_and_loot_stay_on_the_map() {
    let mut planted = tracker();
    planted.current.as_mut().unwrap().planted_trees.push(Vec2::from_ints(-1, 5));
    let mut loot = tracker();
    loot.current.as_mut().unwrap().loot[1].pos = Vec2::from_ints(5, 5_000);

    assert_eq!(
        ActionSpace::from_tracker(&planted).unwrap_err(),
        ActionError::InvalidSchema("planted tree position")
    );
    assert_eq!(
        ActionSpace::from_tracker(&loot).unwrap_err(),
        ActionError::InvalidSchema("LootView position")
    );
    assert_eq!(map_maximum_raw(&planted), 64 * 64 * 65_536 - 1);
}

#[test]
fn entities_come_by_importance_then_distance() {
    let space = space();
    let ids: Vec<u64> = space.entity_candidates().iter().map(|entity| entity.id().0).collect();
    let relations: Vec<EntityRelation> =
        space.entity_candidates().iter().map(|entity| entity.relation).collect();

    assert_eq!(ids, vec![1, 2, 3, 5, 4]);
    assert_eq!(
        relations,
        vec![
            EntityRelation::Own,
            EntityRelation::Own,
            EntityRelation::Enemy,
            EntityRelation::Allied,
            EntityRelation::Enemy,
        ]
    );
    assert_eq!(space.entity_index(EntityId(4)), Some(EntityIndex(4)));
    assert_eq!(space.entity_index(EntityId(99)), None);
}

#[test]
fn dead_units_are_no_candidates() {
    let mut tracker = tracker();
    tracker.current.as_mut().unwrap().units[3].hp = 0;

    let space = ActionSpace::from_tracker(&tracker).expect("space");

    assert_eq!(space.entity_index(EntityId(4)), None);
    assert_eq!(space.entity_candidates().len(), 4);
}

#[test]
fn loot_and_shop_come_in_item_order() {
    let space = space();
    let loot: Vec<u64> = space.loot_candidates().iter().map(|loot| loot.id.0).collect();
    let shop: Vec<u16> = space.shop_candidates().iter().map(|entry| entry.item.0).collect();

    assert_eq!(loot, vec![31, 30]);
    assert_eq!(shop, vec![200, 201, 202]);
}

#[test]
fn the_first_point_lies_east_of_the_hero() {
    let space = space();
    let first = space.point_candidates()[0];

    let PointSource::Tactical { direction, radius } = first.source else {
        panic!("tactical point");
    };
    assert_eq!(direction, PointDirection::East);
    assert_eq!(first.position, Vec2::from_ints(2_000 + radius, 2_000));
    assert!(first.walkable);
    assert!(space.point_candidates().len() <= MAX_POINT_CANDIDATES);
}

#[test]
fn diagonals_shrink_and_sides_mirror() {
    assert_eq!(
        direction_offset(Team::Radiant, PointDirection::NorthEast, 100),
        Vec2::from_ints(70, 70)
    );
    assert_eq!(
        direction_offset(Team::Dire, PointDirection::NorthEast, 100),
        Vec2::from_ints(-70, -70)
    );
    assert_eq!(
        direction_offset(Team::Radiant, PointDirection::SouthEast, 200),
        Vec2::from_ints(141, -141)
    );
    assert_eq!(canonical_facing(Team::Radiant, 5), 5);
    assert_eq!(canonical_facing(Team::Dire, 5), 32_773);
}

#[test]
fn points_at_one_position_merge() {
    let position = Vec2::from_ints(10, 10);
    let candidate = |walkable, standing_tree| PointCandidate {
        position,
        source: PointSource::StaticTree,
        walkable,
        standing_tree,
        allied_building: false,
    };
    let mut points = vec![candidate(true, false)];

    push_point(&mut points, candidate(false, true));

    assert_eq!(points, vec![candidate(false, true)]);
}

#[test]
fn points_stop_at_their_limit() {
    let mut points = vec![];
    for index in 0..60 {
        push_point(
            &mut points,
            PointCandidate {
                position: Vec2::from_ints(index, 0),
                source: PointSource::StaticTree,
                walkable: true,
                standing_tree: true,
                allied_building: false,
            },
        );
    }

    assert_eq!(points.len(), MAX_POINT_CANDIDATES);
    assert_eq!(points[47].position, Vec2::from_ints(47, 0));
}

#[test]
fn landmarks_are_the_nearest_of_their_side() {
    let tracker = tracker();
    let current = view();
    let center = Vec2::from_ints(2_000, 2_000);

    assert_eq!(
        nearest_landmark(&tracker, &current, center, UnitKind::Fountain, true),
        Some(Vec2::from_ints(1_500, 1_500))
    );
    assert_eq!(nearest_landmark(&tracker, &current, center, UnitKind::Fountain, false), None);
}

#[test]
fn structures_and_trees_block_the_ground() {
    let tracker = tracker();
    let current = view();
    let grid = reconstruct_static_passability(&tracker, &current).expect("grid");

    assert!(grid.walkable(Vec2::from_ints(2_000, 2_000)));
    assert!(!grid.walkable(Vec2::from_ints(1_500, 1_500)));
    assert!(!grid.walkable(Vec2::from_ints(2_200, 1_800)));
    assert!(!grid.walkable(Vec2::from_ints(-5, 0)));

    let mut felled = view();
    felled.felled_trees.push(0);
    let unseen = reconstruct_static_passability(&tracker, &felled).expect("grid");
    assert!(!unseen.walkable(Vec2::from_ints(2_200, 1_800)));
    let mut watching = tracker;
    watching.observable_cells.push((34, 28));
    let opened = reconstruct_static_passability(&watching, &felled).expect("grid");
    assert!(opened.walkable(Vec2::from_ints(2_200, 1_800)));
}

#[test]
fn purchases_are_priced_by_missing_parts() {
    let shop = shop();
    let mut none = vec![];
    let mut one = vec![ItemId(201), ItemId(5)];

    assert_eq!(
        missing_buy_requirement(&shop, ItemId(202), &mut none),
        Ok(BuyRequirement { missing_cost: 340, missing_slots: 2 })
    );
    assert_eq!(
        missing_buy_requirement(&shop, ItemId(202), &mut one),
        Ok(BuyRequirement { missing_cost: 90, missing_slots: 1 })
    );
    assert_eq!(one, vec![ItemId(5)]);
    assert_eq!(
        missing_buy_requirement(&shop, ItemId(200), &mut one),
        Ok(BuyRequirement { missing_cost: 90, missing_slots: 1 })
    );
    assert_eq!(
        missing_buy_requirement(&shop, ItemId(1), &mut one),
        Err(ActionError::InvalidSchema("unknown recipe component"))
    );
    assert_eq!(validate_shop_recipes(&shop), Ok(()));
}

#[test]
fn the_first_broken_recipe_is_reported() {
    let entry = |id: u16, parts: &[u16]| ShopEntry {
        id: ItemId(id),
        cost: 1,
        components: parts.iter().map(|part| ItemId(*part)).collect(),
    };
    let unknown = Err(ActionError::InvalidSchema("unknown recipe component"));
    let cyclic = Err(ActionError::InvalidSchema("cyclic shop recipe"));

    assert_eq!(validate_shop_recipes(&vec![entry(1, &[2, 99]), entry(2, &[1])]), cyclic);
    assert_eq!(validate_shop_recipes(&vec![entry(1, &[99, 2]), entry(2, &[1])]), unknown);
    assert_eq!(validate_shop_recipes(&vec![entry(1, &[2]), entry(2, &[99, 1])]), unknown);
    assert_eq!(
        validate_shop_recipes(&vec![entry(3, &[]), entry(1, &[3, 3]), entry(2, &[1, 3, 2])]),
        cyclic
    );
}

#[test]
fn unit_masks_follow_the_legal_actions() {
    let space = space();
    let legal = legal_actions(&space);

    for index in 1..ACTION_KIND_COUNT {
        let kind = ActionKind::from_index(index).expect("kind");
        for unit in [HERO, COURIER] {
            let open = legal.iter().any(|action| {
                action.kind() == kind && action.controlled_unit().unwrap_or(HERO) == unit
            });
            assert_eq!(space.controlled_unit_mask(kind).allows(unit), open, "{kind:?} {unit:?}");
        }
    }
}

#[test]
fn gold_and_slots_decide_what_can_be_bought() {
    let space = space();

    assert_eq!(space.buy_mask(HERO), &[true, true, false]);
    assert_eq!(space.buy_mask(COURIER), &[false, false, false]);
}

#[test]
fn abilities_ask_for_level_mana_and_range() {
    let space = space();

    assert_eq!(space.ability_slot_mask(HERO), vec![true, true, false]);
    let aimed = space.cast_target_mask(HERO, AbilitySlot(0)).expect("first ability");
    assert_eq!(aimed.entities(), &[true, true, true, false, true]);
    assert!(!aimed.allows_none());
    let own = space.cast_target_mask(HERO, AbilitySlot(1)).expect("second ability");
    assert!(own.allows(ActionTarget::Untargeted));
    assert_eq!(space.learn_slot_mask(), &[false, false, true]);
}

#[test]
fn items_ask_for_their_timers() {
    let ready = space();
    let mut muted = ItemReadiness::new();
    muted.mutes.push(MuteTimer { unit: HERO, slot: ItemSlot(0), until: 101 });
    let mut over = ItemReadiness::new();
    over.waits.push(WaitTimer { unit: HERO, item: ItemId(100), until: 100 });
    let mut waiting = ItemReadiness::new();
    waiting.waits.push(WaitTimer { unit: HERO, item: ItemId(100), until: 130 });

    let with = |readiness: &ItemReadiness| {
        ActionSpace::from_tracker_with_readiness(&tracker(), readiness)
            .expect("space")
            .item_slot_mask(HERO)
    };

    let open = vec![true, false, false, false, false, false];
    assert_eq!(ready.item_slot_mask(HERO), open);
    assert_eq!(with(&muted), vec![false; 6]);
    assert_eq!(with(&over), open);
    assert_eq!(with(&waiting), vec![false; 6]);
    assert_eq!(waiting.shared_wait_left(HERO, ItemId(100), 100), Some(30));
    assert_eq!(waiting.shared_wait_left(COURIER, ItemId(100), 100), None);
    assert!(muted.inventory_muted(HERO, ItemSlot(0), 100));
    assert_eq!(muted.inventory_mute_left(HERO, ItemSlot(0), 100), Some(1));
}

#[test]
fn statuses_take_away_movement_and_attacks() {
    let with = |status: u16| {
        let mut tracker = tracker();
        tracker.current.as_mut().unwrap().units[0].statuses.bits = status;
        ActionSpace::from_tracker(&tracker).expect("space")
    };
    let rooted = with(STATUS_ROOTED);
    let disarmed = with(STATUS_DISARMED);
    let stunned = with(STATUS_STUNNED);

    assert!(!rooted.allows(StructuredAction::MovePoint { unit: HERO, point: PointIndex(0) }));
    assert!(rooted.allows(StructuredAction::Hold { unit: HERO }));
    assert!(disarmed.allows(StructuredAction::MovePoint { unit: HERO, point: PointIndex(0) }));
    assert!(!disarmed.allows(StructuredAction::Hold { unit: HERO }));
    assert!(stunned.allows(StructuredAction::Stop { unit: HERO }));
    assert!(!stunned.allows(StructuredAction::Hold { unit: HERO }));
    assert_eq!(stunned.ability_slot_mask(HERO), vec![false; 3]);
    assert_eq!(stunned.item_slot_mask(HERO), vec![false; 6]);
}

#[test]
fn bags_are_sold_swapped_and_emptied() {
    let space = space();

    let mut sold = [false; 15];
    sold[0] = true;
    assert_eq!(space.sell_slot_mask(HERO), &sold);
    assert!(!space.has_sell_ownership_uncertainty());
    assert_eq!(space.sell_ownership_uncertain_count(), 0);
    let mut destinations = [true; 15];
    destinations[0] = false;
    assert_eq!(space.swap_destination_mask(HERO, ItemSlot(0)), Some(&destinations));
    assert_eq!(space.swap_destination_mask(HERO, ItemSlot(1)), Some(&[false; 15]));
    assert_eq!(space.swap_destination_mask(HERO, ItemSlot(15)), None);
    let mut sources = vec![false; 9];
    sources[0] = true;
    sources[2] = true;
    assert_eq!(space.put_source_slot_mask(HERO), sources);
    assert_eq!(space.put_underfoot_mask(HERO), sources);
    assert_eq!(
        space.put_entity_target_mask(HERO, ItemSlot(0)),
        Some([false, true, false, false, false].as_slice())
    );
    assert_eq!(space.put_point_target_mask(HERO, ItemSlot(1)).map(|m| m.contains(&true)), Some(false));
    assert_eq!(space.controlled_item(HERO, ItemSlot(2)), Some(item(102, None, false)));
    assert_eq!(space.controlled_item(HERO, ItemSlot(1)), None);
    assert_eq!(space.take_mask(HERO), &[true, true]);
}

#[test]
fn a_missing_courier_leaves_only_the_hero() {
    let mut tracker = tracker();
    tracker.own_courier = None;
    let space = ActionSpace::from_tracker(&tracker).expect("space");

    assert!(!space.allows(StructuredAction::Stop { unit: COURIER }));
    assert_eq!(space.controlled_unit_mask(ActionKind::Stop).as_array(), &[true, false]);
    assert_eq!(
        space.decode(StructuredAction::Stop { unit: COURIER }),
        Err(ActionError::NotAllowed(ActionKind::Stop))
    );
    assert_eq!(
        ActionError::NotAllowed(ActionKind::Stop).message(),
        "action Stop is masked by the current action space"
    );
}

#[test]
fn decoded_orders_name_wire_values() {
    let space = space();
    let point = space.point_candidates()[0].position;
    let cases = [
        (StructuredAction::Continue, None),
        (
            StructuredAction::Stop { unit: COURIER },
            Some((Some(EntityId(2)), Order::Move { target: Target::Untargeted })),
        ),
        (
            StructuredAction::MovePoint { unit: HERO, point: PointIndex(0) },
            Some((None, Order::Move { target: Target::Pos(point) })),
        ),
        (
            StructuredAction::FollowUnit { unit: HERO, target: EntityIndex(1) },
            Some((None, Order::Move { target: Target::Unit(EntityId(2)) })),
        ),
        (
            StructuredAction::Hold { unit: HERO },
            Some((None, Order::Attack { target: Target::Untargeted })),
        ),
        (
            StructuredAction::AttackMovePoint { unit: HERO, point: PointIndex(0) },
            Some((None, Order::Attack { target: Target::Pos(point) })),
        ),
        (
            StructuredAction::AttackUnit { unit: HERO, target: EntityIndex(4) },
            Some((None, Order::Attack { target: Target::Unit(EntityId(4)) })),
        ),
        (
            StructuredAction::Cast {
                unit: HERO,
                slot: AbilitySlot(0),
                target: ActionTarget::Entity(EntityIndex(2)),
            },
            Some((
                None,
                Order::Cast { slot: AbilitySlot(0), target: Target::Unit(EntityId(3)) },
            )),
        ),
        (
            StructuredAction::Use {
                unit: HERO,
                slot: ItemSlot(0),
                target: ActionTarget::Untargeted,
            },
            Some((None, Order::Use { slot: ItemSlot(0), target: Target::Untargeted })),
        ),
        (
            StructuredAction::PutPoint {
                unit: HERO,
                source: ItemSlot(2),
                target: PutPointTarget::Underfoot,
            },
            Some((None, Order::Put { slot: ItemSlot(2), target: Target::Untargeted })),
        ),
        (
            StructuredAction::PutUnit {
                unit: HERO,
                source: ItemSlot(2),
                target: EntityIndex(1),
            },
            Some((None, Order::Put { slot: ItemSlot(2), target: Target::Unit(EntityId(2)) })),
        ),
        (
            StructuredAction::Take { unit: COURIER, loot: LootIndex(0) },
            Some((Some(EntityId(2)), Order::Take { target: Target::Unit(EntityId(31)) })),
        ),
        (
            StructuredAction::Buy { unit: HERO, item: ShopIndex(1) },
            Some((None, Order::Buy { item: ItemId(201) })),
        ),
        (
            StructuredAction::Sell { unit: HERO, slot: ItemSlot(0) },
            Some((None, Order::Sell { slot: ItemSlot(0) })),
        ),
        (
            StructuredAction::Swap { unit: HERO, from: ItemSlot(0), to: ItemSlot(9) },
            Some((None, Order::Swap { from: ItemSlot(0), to: ItemSlot(9) })),
        ),
        (
            StructuredAction::Learn { slot: AbilitySlot(2) },
            Some((None, Order::Learn { slot: AbilitySlot(2) })),
        ),
    ];

    for (action, expected) in cases {
        let expected = expected.map(|(unit, order)| IssuedOrder { unit, order });

        assert_eq!(space.decode(action), Ok(expected), "{action:?}");
    }
}

#[test]
fn decoding_names_the_index_out_of_range() {
    let space = space();
    let cases = [
        (
            StructuredAction::AttackUnit { unit: HERO, target: EntityIndex(5) },
            ActionError::CandidateIndex { field: "entity target", index: 5, count: 5 },
        ),
        (
            StructuredAction::Take { unit: HERO, loot: LootIndex(2) },
            ActionError::CandidateIndex { field: "loot target", index: 2, count: 2 },
        ),
        (
            StructuredAction::Buy { unit: HERO, item: ShopIndex(3) },
            ActionError::CandidateIndex { field: "shop item", index: 3, count: 3 },
        ),
        (
            StructuredAction::MovePoint { unit: HERO, point: PointIndex(99) },
            ActionError::CandidateIndex {
                field: "point target",
                index: 99,
                count: space.point_candidates().len(),
            },
        ),
        (
            StructuredAction::Buy { unit: HERO, item: ShopIndex(2) },
            ActionError::NotAllowed(ActionKind::Buy),
        ),
    ];

    for (action, expected) in cases {
        assert_eq!(space.decode(action), Err(expected));
    }
    assert_eq!(
        ActionError::CandidateIndex { field: "loot target", index: 2, count: 2 }.message(),
        "loot target index 2 is outside candidate count 2"
    );
    assert_eq!(
        ActionError::Arithmetic("point x").message(),
        "action space arithmetic overflow in point x"
    );
}

#[test]
fn legal_actions_decode_and_the_rest_do_not() {
    let space = space();
    let legal = legal_actions(&space);

    assert!(legal.len() > 100);
    for action in legal {
        assert!(space.decode(action).is_ok(), "{action:?}");
        assert!(space.kind_mask().allows(action.kind()));
    }
    assert!(space.decode(StructuredAction::Learn { slot: AbilitySlot(0) }).is_err());
}

#[test]
fn kinds_are_numbered_in_order() {
    for index in 0..ACTION_KIND_COUNT {
        assert_eq!(ActionKind::from_index(index).map(ActionKind::index), Some(index));
    }
    assert_eq!(ActionKind::from_index(16), None);
    assert_eq!(ActionKind::Learn.index(), 15);
    assert_eq!(ActionKind::AttackMovePoint.name(), "AttackMovePoint");
}

fn frame(space: &ActionSpace) -> FeatureFrame {
    let mut frame = FeatureFrame::new();
    frame.global[SIDE_RADIANT] = ONE_BITS;
    frame.global[MAP_ZERO] = ONE_BITS;
    frame.attribute(space);
    frame
}

#[test]
fn labels_give_back_every_legal_action() {
    let space = space();
    let frame = frame(&space);

    for action in legal_actions(&space) {
        let target = BehavioralTarget::from_action(&frame, &space, action).expect("label");

        assert_eq!(target.validate(), Ok(()));
        assert_eq!(target.reconstruct_action(), Ok(action));
        assert_eq!(target.pack().unpack(), target);
        assert_eq!(target.prefix().kind, action.kind());
    }
}

#[test]
fn labels_ask_for_frame_space_and_legality() {
    let space = space();
    let good = frame(&space);
    let stale = FeatureFrame::new();
    let mut broken = frame(&space);
    broken.map[3] = f32::INFINITY.to_bits();
    let stop = StructuredAction::Stop { unit: HERO };

    assert_eq!(
        BehavioralTarget::from_action(&stale, &space, stop),
        Err(ImitationError::FrameActionSpaceMismatch)
    );
    assert_eq!(
        BehavioralTarget::from_action(&broken, &space, stop),
        Err(ImitationError::NonFiniteFrame)
    );
    assert_eq!(
        BehavioralTarget::from_action(
            &good,
            &space,
            StructuredAction::Learn { slot: AbilitySlot(0) }
        ),
        Err(ImitationError::ActionNotAllowed { role: "teacher", kind: ActionKind::Learn })
    );
}

#[test]
fn tampered_labels_are_refused() {
    let space = space();
    let frame = frame(&space);
    let stop = StructuredAction::Stop { unit: HERO };
    let label = || BehavioralTarget::from_action(&frame, &space, stop).expect("label");
    assert_eq!(label().active_head_count(), 2);

    let mut wide = label();
    wide.kind.selected = 16;
    let mut illegal = label();
    illegal.controlled.mask[0] = false;
    let mut inactive = label();
    inactive.shop.mask[0] = true;
    let mut empty = label();
    empty.controlled.mask = [false; 2];
    let mut path = label();
    path.loot = HeadTarget::active([true; 16], 0);

    assert_eq!(
        wide.validate(),
        Err(ImitationError::TargetLabel { head: "kind", label: 16, width: 16 })
    );
    assert_eq!(
        illegal.validate(),
        Err(ImitationError::TargetIllegalLabel { head: "controlled", label: 0 })
    );
    assert_eq!(inactive.validate(), Err(ImitationError::TargetInactiveMask { head: "shop" }));
    assert_eq!(
        empty.validate(),
        Err(ImitationError::TargetEmptyMask { head: "controlled" })
    );
    assert!(matches!(path.validate(), Err(ImitationError::TargetPathMismatch(_))));
    assert_eq!(padded_mask::<4>(&[true, false]), Ok([true, false, false, false]));
    assert_eq!(
        padded_mask::<2>(&[true; 3]),
        Err(ImitationError::MaskOversize { actual: 3, maximum: 2 })
    );
}

#[test]
fn packed_labels_hold_bits_in_head_order() {
    let space = space();
    let frame = frame(&space);
    let label = BehavioralTarget::from_action(
        &frame,
        &space,
        StructuredAction::Stop { unit: COURIER },
    )
    .expect("label");
    let packed = label.pack();

    assert_eq!(packed.active, 0b11);
    assert_eq!(packed.selected, [1, 1, 0, 0, 0, 0, 0, 0, 0, 0, 0, 0]);
    let kinds = label.kind.mask.iter().enumerate().fold(0u16, |bits, (index, allowed)| {
        bits | (u16::from(*allowed) << index)
    });
    assert_eq!(u16::from_le_bytes([packed.masks[0], packed.masks[1]]), kinds);
    assert_eq!(packed.masks[2] & 0b11, 0b11);
}

fn identity(namespace: SeedNamespace, seed: u64, trajectory: u64, frame: &FeatureFrame) -> SampleIdentity {
    SampleIdentity::from_frame(namespace, seed, trajectory, 100, frame).expect("identity")
}

fn seeds() -> SeedNamespaces {
    SeedNamespaces::new(vec![1, 2, 3], vec![11, 12], vec![21]).expect("seeds")
}

fn scope() -> TrainingScope {
    TrainingScope::new(MapId(0), IMITATION_RULES_AUDIT_VERSION).expect("scope")
}

fn teacher(instance: u64, namespace: SeedNamespace, seed: u64) -> ImitationSample {
    let space = space();
    let frame = frame(&space);
    let identity = identity(namespace, seed, instance, &frame);
    ImitationSample::teacher(
        instance,
        frame,
        &space,
        StructuredAction::Stop { unit: HERO },
        identity,
    )
    .expect("sample")
}

#[test]
fn frames_tell_side_and_map() {
    let space = space();
    let good = frame(&space);
    let mut both = frame(&space);
    both.global[SIDE_DIRE] = ONE_BITS;
    let mut neither = frame(&space);
    neither.global[MAP_ZERO] = 0;
    let mut other = frame(&space);
    other.global[MAP_ZERO] = NEGATIVE_ZERO_BITS;
    other.global[MAP_ONE] = ONE_BITS;

    assert_eq!(frame_side(&good), Ok(ImitationSide::Radiant));
    assert_eq!(frame_map(&good), Ok(MapId(0)));
    assert_eq!(frame_side(&both), Err(ImitationError::InvalidFrameSide));
    assert_eq!(frame_map(&neither), Err(ImitationError::InvalidFrameMap));
    assert_eq!(frame_map(&other), Ok(MapId(1)));
}

#[test]
fn samples_carry_their_labels() {
    let sample = teacher(7, SeedNamespace::Training, 1);

    assert_eq!(sample.split(), ImitationSplit::Train);
    assert_eq!(sample.source(), ImitationSource::Teacher);
    assert_eq!(sample.teacher_action(), StructuredAction::Stop { unit: HERO });
    assert_eq!(sample.learner_action(), None);
    assert!(!sample.is_disagreement());
    assert_eq!(sample.identity().seed(), 1);
}

#[test]
fn corrections_keep_both_actions() {
    let space = space();
    let stop = StructuredAction::Stop { unit: HERO };
    let hold = StructuredAction::Hold { unit: HERO };
    let first = frame(&space);
    let training = identity(SeedNamespace::Training, 1, 1, &first);
    let second = frame(&space);
    let held = identity(SeedNamespace::Promotion, 21, 1, &second);

    let sample = ImitationSample::dagger(5, first, &space, hold, stop, training).expect("sample");
    let refused = ImitationSample::dagger(6, second, &space, hold, stop, held);

    assert!(sample.is_disagreement());
    assert_eq!(sample.learner_action(), Some(hold));
    assert_eq!(sample.source(), ImitationSource::Dagger);
    assert_eq!(refused.unwrap_err(), ImitationError::DaggerSplit);
}

#[test]
fn identities_must_match_their_frame() {
    let space = space();
    let frame = frame(&space);
    let mut late = identity(SeedNamespace::Training, 1, 1, &frame);
    late.tick = 101;

    let error =
        ImitationSample::teacher(1, frame, &space, StructuredAction::Stop { unit: HERO }, late)
            .unwrap_err();

    assert!(matches!(error, ImitationError::SampleIdentityMismatch(_)));
    assert!(TrainingScope::new(MapId(9), IMITATION_RULES_AUDIT_VERSION).is_err());
    assert!(TrainingScope::new(MapId(0), IMITATION_RULES_AUDIT_VERSION + 1).is_err());
}

#[test]
fn full_pools_evict_the_oldest_training_sample() {
    let mut pool = ImitationPool::new(9, 2, 4, seeds(), scope()).expect("pool");
    assert!(pool.is_empty());
    assert_eq!(pool.push(teacher(1, SeedNamespace::Promotion, 21)).map(|s| s.is_none()), Ok(true));
    assert_eq!(pool.push(teacher(2, SeedNamespace::Training, 1)).map(|s| s.is_none()), Ok(true));
    let evicted = pool.push(teacher(3, SeedNamespace::Training, 2)).expect("push");

    assert_eq!(evicted.map(|sample| sample.instance), Some(2));
    assert_eq!(pool.len(), 2);
    assert_eq!(pool.provenance().revision, 3);
    assert_eq!(pool.provenance().lineage, 4);
    assert_eq!(pool.statistics(), DaggerStatistics { teacher: 2, dagger: 0, disagreements: 0 });
    assert_eq!(pool.held_out(), Ok(vec![0]));
    assert_eq!(pool.get(1).map(|sample| sample.instance), Some(3));
}

#[test]
fn pools_refuse_repeats_strangers_and_contamination() {
    let mut pool = ImitationPool::new(9, 1, 4, seeds(), scope()).expect("pool");
    pool.push(teacher(1, SeedNamespace::Promotion, 21)).expect("push");

    assert_eq!(
        pool.push(teacher(1, SeedNamespace::Promotion, 21)).unwrap_err(),
        ImitationError::DuplicateSampleIdentity
    );
    assert_eq!(
        pool.push(teacher(2, SeedNamespace::Training, 9)).unwrap_err(),
        ImitationError::SeedMembership { namespace: "training", seed: 9 }
    );
    assert_eq!(
        pool.push(teacher(3, SeedNamespace::Training, 1)).unwrap_err(),
        ImitationError::NoEvictableTrainSample
    );
    assert_eq!(pool.len(), 1);
    assert!(matches!(
        ImitationPool::new(9, 0, 4, seeds(), scope()).unwrap_err(),
        ImitationError::Capacity { value: 0, .. }
    ));
}

#[test]
fn training_orders_are_shuffled_permutations() {
    let mut pool = ImitationPool::new(9, 8, 4, seeds(), scope()).expect("pool");
    let mut empty = ShuffleState::new(5);
    assert_eq!(pool.training_order(&mut empty), Err(ImitationError::EmptyTrainSet));
    for instance in 1..=6 {
        pool.push(teacher(instance, SeedNamespace::Training, 1)).expect("push");
    }
    let mut first = ShuffleState::new(5);
    let mut second = ShuffleState::new(5);

    let order = pool.training_order(&mut first).expect("order");
    let again = pool.training_order(&mut second).expect("order");

    assert_eq!(order, again);
    assert_eq!(first, second);
    assert_eq!(first.draws(), 5);
    let mut sorted = order.clone();
    sorted.sort();
    assert_eq!(sorted, vec![0, 1, 2, 3, 4, 5]);
}

#[test]
fn coverage_counts_failures_and_samples() {
    let mut coverage = TeacherCoverage::new();
    assert_eq!(coverage.ratio(), None);
    let first = space();
    let good = frame(&first);
    let represented = identity(SeedNamespace::Promotion, 21, 1, &good);
    let lost = identity(SeedNamespace::Promotion, 21, 2, &good);

    let sample = coverage
        .collect_teacher_sample(
            represented,
            4,
            good,
            Ok((StructuredAction::Stop { unit: HERO }, first)),
        )
        .expect("sample");
    let failed = coverage
        .collect_teacher_sample(
            lost,
            5,
            FeatureFrame::new(),
            Err(ActionError::SnapshotRequired),
        )
        .unwrap_err();

    assert_eq!(sample.instance, 4);
    assert_eq!(
        failed,
        CoverageError::Operation(TeacherSampleError::Decision(ActionError::SnapshotRequired))
    );
    assert_eq!((coverage.attempted(), coverage.represented(), coverage.failed()), (2, 1, 1));
    assert_eq!(coverage.ratio(), Some(AgreementCount { matching: 1, total: 2 }));
    assert_eq!(coverage.side_counts(ImitationSide::Radiant), (1, 2));
    assert_eq!(coverage.side_counts(ImitationSide::Dire), (0, 0));
    assert_eq!(coverage.validate(), Ok(()));
    assert!(coverage.matches_samples(&vec![sample], &vec![0]));
    assert_eq!(coverage.record_failed_for(lost), Err(ImitationError::InvalidTeacherCoverage));
    let elsewhere = SampleIdentity { namespace: SeedNamespace::Training, seed: 1, ..lost };
    assert_eq!(
        coverage.record_failed_for(elsewhere),
        Err(ImitationError::InvalidTeacherCoverage)
    );
    assert_eq!(coverage.attempted(), 2);
}

fn shape() -> ModelShape {
    ModelShape { schema_version: 1, schema_hash: 2, parameter_count: 4, maximum_batch: 64 }
}

#[test]
fn held_out_evaluation_counts_agreement() {
    let mut pool = ImitationPool::new(9, 8, 4, seeds(), scope()).expect("pool");
    let mut coverage = TeacherCoverage::new();
    let good = space();
    let base = frame(&good);
    let identity = identity(SeedNamespace::Promotion, 21, 1, &base);
    let sample = coverage
        .collect_teacher_sample(
            identity,
            1,
            base,
            Ok((StructuredAction::Stop { unit: HERO }, good)),
        )
        .expect("sample");
    let prediction = BehavioralPrediction {
        kind: 1,
        controlled: Some(0),
        ability: None,
        item: None,
        swap: None,
        learn: None,
        shop: None,
        loot: None,
        target_mode: None,
        put_mode: None,
        entity_pointer: None,
        point_pointer: None,
    };
    assert!(prediction_matches(sample.target(), prediction));
    pool.push(sample).expect("push");
    let policy = PolicyIdentity { instance: 3, revision: 8 };

    let held = OfflineEvaluation::evaluate_held_out(
        shape(),
        &pool,
        coverage,
        Ok((vec![prediction], policy)),
    )
    .expect("evaluation");

    let all = &held.metrics().overall;
    assert_eq!(all.samples, 1);
    assert_eq!(all.full_agreement(), Some(AgreementCount { matching: 1, total: 1 }));
    assert_eq!(all.kind_agreement(), Some(AgreementCount { matching: 1, total: 1 }));
    assert_eq!(all.teacher_coverage(), Some(AgreementCount { matching: 1, total: 1 }));
    assert_eq!(all.continue_ratio(), Some(AgreementCount { matching: 0, total: 1 }));
    assert_eq!(all.families[1], AgreementCount { matching: 1, total: 1 });
    assert_eq!(held.metrics().dire.samples, 0);
    assert_eq!(held.candidate(), policy);
}

#[test]
fn held_out_evaluation_reports_its_faults() {
    let pool = ImitationPool::new(9, 8, 4, seeds(), scope()).expect("pool");
    let policy = PolicyIdentity { instance: 3, revision: 8 };

    assert!(OfflineEvaluation::evaluate_held_out(
        shape(),
        &pool,
        TeacherCoverage::new(),
        Ok((vec![], policy)),
    )
    .is_err());
}

fn encoder(tracker: &StateTracker) -> FeatureEncoder {
    FeatureEncoder::new(tracker)
}

fn encoded(tracker: &StateTracker) -> Result<ScalarFrame, FeatureError> {
    let space = ActionSpace::from_tracker(tracker).expect("space");
    let mut encoder = encoder(tracker);
    encoder.observe(tracker, true, true)?;
    encoder.encode(tracker, &space, &ItemReadiness::new(), &LocalPolicyState::new(100), true)
}

#[test]
fn encoded_frames_have_their_shape() {
    let frame = encoded(&tracker()).expect("frame");

    assert_eq!(frame.global.len(), GLOBAL_FEATURES);
    assert_eq!(frame.map.len(), MAP_FEATURES);
    assert_eq!(frame.abilities.len(), ABILITY_FEATURE_TOKENS);
    assert_eq!(frame.items.len(), 21 + 3);
    assert!(frame.items.len() <= ITEM_FEATURE_TOKENS);
    assert!(frame.units.iter().all(|row| row.len() == UNIT_FEATURES));
    assert_eq!(frame.loot.len(), 2);
    assert_eq!(frame.projectiles.len(), 1);
    assert_eq!(frame.global[SIDE_RADIANT], Scalar::One);
    assert_eq!(frame.global[SIDE_DIRE], Scalar::Zero);
    assert_eq!(frame.global[MAP_ZERO], Scalar::One);
}

#[test]
fn rows_follow_the_feature_schema() {
    let frame = encoded(&tracker()).expect("frame");
    let part = |numerator: i64, denominator: i64| Scalar::Ratio { numerator, denominator };
    let signed = |numerator: i64, denominator: i64| Scalar::Signed { numerator, denominator };
    let extent = 64 * 64 * 65_536i64;
    let step = 400 * 65_536i64;

    let global = &frame.global;
    assert_eq!(global[global_feature::TICK], part(100, 3_600_000));
    assert_eq!(global[global_feature::PREGAME_PROGRESS], part(100, 900));
    assert_eq!(global[global_feature::WAVE_PHASE], part(0, 900));
    assert_eq!(global[global_feature::JUNGLE_PHASE], part(0, 1_800));
    assert_eq!(global[global_feature::SEAT_COUNT], part(1, 9));
    assert_eq!(global[global_feature::OWN_GOLD], signed(100_300, 200_000));
    assert_eq!(global[global_feature::RESPAWN_PRESENT], Scalar::Zero);
    assert_eq!(global[global_feature::OWN_ALIVE], Scalar::One);
    assert_eq!(global[global_feature::ALLIED_ALIVE_HEROES], part(1, 5));
    assert_eq!(global[global_feature::ENEMY_ALIVE_HEROES], Scalar::Zero);
    assert_eq!(global[global_feature::ALLIED_STRUCTURE_HP], signed(100_500, 200_000));
    assert_eq!(global[global_feature::DESTROYED_STRUCTURES_PRESENT], Scalar::One);
    assert_eq!(global[global_feature::OWN_LEVEL], part(1, 30));
    assert_eq!(global[global_feature::VISIBLE_ALLIED_UNITS], part(3, 256));
    assert_eq!(global[global_feature::VISIBLE_ENEMY_UNITS], part(2, 256));
    assert_eq!(global[global_feature::ENEMY_SCOREBOARD_ENABLED], Scalar::Zero);

    let enemy = &frame.units[2];
    assert_eq!(enemy[unit_feature::TOKEN_PRESENT], Scalar::One);
    assert_eq!(enemy[unit_feature::RELATION_START + 2], Scalar::One);
    assert_eq!(enemy[unit_feature::RELATION_START], Scalar::Zero);
    assert_eq!(enemy[unit_feature::KIND_TOKEN], Scalar::Category(1));
    assert_eq!(enemy[unit_feature::VISIBLE], Scalar::One);
    assert_eq!(enemy[unit_feature::ORIGIN_PRESENT], Scalar::One);
    assert_eq!(enemy[unit_feature::AGE], part(0, 480));
    assert_eq!(enemy[unit_feature::POSITION_X], part(6 * step, extent - 1));
    assert_eq!(enemy[unit_feature::RELATIVE_X], signed(step + extent, 2 * extent));
    assert_eq!(enemy[unit_feature::RELATIVE_Y], signed(extent, 2 * extent));
    assert_eq!(enemy[unit_feature::DISTANCE], part(step, extent));
    assert_eq!(
        enemy[unit_feature::DIRECTION_X],
        Scalar::Direction { numerator: step, denominator: step }
    );
    assert_eq!(
        enemy[unit_feature::DIRECTION_Y],
        Scalar::Direction { numerator: 0, denominator: step }
    );
    assert_eq!(enemy[unit_feature::VELOCITY_PRESENT], Scalar::Zero);
    assert_eq!(enemy[unit_feature::ELEVATION], part(3, 63));
    assert_eq!(enemy[unit_feature::WALKABLE], Scalar::One);
    assert_eq!(enemy[unit_feature::HP_RATIO], part(500, 600));
    assert_eq!(enemy[unit_feature::MANA_RATIO], part(100, 200));
    assert_eq!(frame.units[0][unit_feature::FREE_ITEM_SLOTS + 1], Scalar::One);

    let projectile = &frame.projectiles[0];
    assert_eq!(projectile[projectile_feature::RELATION_START + 2], Scalar::One);
    assert_eq!(projectile[projectile_feature::ABILITY_PRESENT], Scalar::Zero);
    assert_eq!(projectile[projectile_feature::FACING], part(32_768, 65_535));
    assert_eq!(projectile[projectile_feature::AGE_PRESENT], Scalar::One);
    assert_eq!(projectile[projectile_feature::AGE], part(0, 4_800));
    assert_eq!(projectile[projectile_feature::VELOCITY_PRESENT], Scalar::Zero);

    let loot = &frame.loot[0];
    assert_eq!(loot[loot_feature::CHARGES_PRESENT], Scalar::One);
    assert_eq!(loot[loot_feature::CHARGES], part(2, 255));
    assert_eq!(loot[loot_feature::PATH_DISTANCE_PRESENT], Scalar::One);
    assert_eq!(frame.points[0][point_feature::POINTER_VALID], Scalar::One);
    assert_eq!(frame.points[0][point_feature::WALKABLE], Scalar::One);

    assert_eq!(frame.items[0][item_feature::ITEM_PRESENT], Scalar::One);
    assert_eq!(frame.items[0][item_feature::FOR_SALE], Scalar::One);
    assert_eq!(frame.items[1][item_feature::ITEM_PRESENT], Scalar::Zero);
    assert_eq!(frame.items[21][item_feature::SHOP_CANDIDATE], Scalar::One);
    assert_eq!(frame.items[21][item_feature::LEGAL], Scalar::One);
    assert_eq!(frame.items[23][item_feature::LEGAL], Scalar::Zero);
    assert_eq!(frame.items[23][item_feature::COMPOSITE], Scalar::One);
    assert_eq!(frame.abilities[0][ability_feature::LEGAL], Scalar::One);
    assert_eq!(frame.abilities[2][ability_feature::LEGAL], Scalar::Zero);
    assert_eq!(frame.abilities[2][ability_feature::CAN_LEVEL], Scalar::One);
    assert_eq!(frame.abilities[3][ability_feature::ID_PRESENT], Scalar::Zero);
}

#[test]
fn moving_projectiles_approach_the_hero() {
    let first = tracker();
    let mut second = tracker();
    second.current.as_mut().unwrap().tick = 103;
    second.current.as_mut().unwrap().projectiles[0].pos = Vec2::from_ints(2_170, 2_000);
    let space = ActionSpace::from_tracker(&second).expect("space");
    let mut encoder = encoder(&first);
    encoder.observe(&first, true, true).expect("first");
    encoder.observe(&second, true, true).expect("second");

    let frame = encoder
        .encode(&second, &space, &ItemReadiness::new(), &LocalPolicyState::new(100), true)
        .expect("frame");

    let extent = 64 * 64 * 65_536i64;
    let projectile = &frame.projectiles[0];
    assert_eq!(
        projectile[projectile_feature::AGE],
        Scalar::Ratio { numerator: 3, denominator: 4_800 }
    );
    assert_eq!(
        projectile[projectile_feature::VELOCITY_X],
        Scalar::Signed { numerator: extent - 10 * 65_536, denominator: 2 * extent }
    );
    assert_eq!(projectile[projectile_feature::CLOSEST_APPROACH_PRESENT], Scalar::One);
    assert_eq!(
        projectile[projectile_feature::CLOSEST_APPROACH],
        Scalar::Approach {
            relative_x: 170 * 65_536,
            relative_y: 0,
            velocity_x: -30 * 65_536,
            velocity_y: 0,
            extent,
        }
    );
}

#[test]
fn encoders_refuse_what_does_not_belong_together() {
    let tracker_now = tracker();
    let space_now = space();
    let readiness = ItemReadiness::new();
    let local = LocalPolicyState::new(100);
    let mut other_readiness = ItemReadiness::new();
    other_readiness.mutes.push(MuteTimer { unit: HERO, slot: ItemSlot(0), until: 300 });
    let mut missing = tracker();
    missing.current = None;
    let mut later = tracker();
    later.current.as_mut().unwrap().tick = 101;
    let mut stranger = tracker();
    stranger.provenance.revision = 6;
    let mut ready = encoder(&tracker_now);
    let encode = |encoder: &mut FeatureEncoder, tracker: &StateTracker, readiness: &ItemReadiness, local: &LocalPolicyState, same: bool| {
        encoder.encode(tracker, &space_now, readiness, local, same).map(|_| ())
    };

    assert_eq!(
        encode(&mut ready, &tracker_now, &readiness, &local, true),
        Err(FeatureError::ObservationRequired { snapshot: 100 })
    );
    assert_eq!(ready.observe(&missing, true, true), Err(FeatureError::SnapshotRequired));
    ready.observe(&tracker_now, true, true).expect("observation");
    assert_eq!(
        encode(&mut ready, &missing, &readiness, &local, true),
        Err(FeatureError::SnapshotRequired)
    );
    assert_eq!(
        encode(&mut ready, &later, &readiness, &local, true),
        Err(FeatureError::TickMismatch { snapshot: 101, action_space: 100 })
    );
    assert_eq!(
        encode(&mut ready, &stranger, &readiness, &local, true),
        Err(FeatureError::ActionSpaceMismatch)
    );
    assert_eq!(
        encode(&mut ready, &tracker_now, &other_readiness, &local, true),
        Err(FeatureError::ReadinessMismatch)
    );
    assert_eq!(
        encode(&mut ready, &tracker_now, &readiness, &local, false),
        Err(FeatureError::MapMismatch)
    );
    assert_eq!(
        encode(&mut ready, &tracker_now, &readiness, &LocalPolicyState::new(101), true),
        Err(FeatureError::LocalStateAhead { snapshot: 100, local: 101 })
    );
    assert_eq!(encode(&mut ready, &tracker_now, &readiness, &local, true), Ok(()));
    assert!(is_encodable(&tracker_now, &space_now));
    let mut untracked = tracker();
    untracked.entities.pop();
    assert!(!is_encodable(&untracked, &space_now));
    let mut ragged = tracker();
    ragged.terrain_rle.push((1, 0));
    assert!(!ragged.is_well_formed());
}

#[test]
fn observations_advance_and_roll_back() {
    let first = tracker();
    let mut second = tracker();
    second.current.as_mut().unwrap().tick = 103;
    second.current.as_mut().unwrap().projectiles[0].pos = Vec2::from_ints(2_170, 2_000);
    second.provenance.revision = 6;
    let mut encoder = encoder(&first);
    encoder.observe(&first, true, true).expect("first");
    assert_eq!(encoder.observe(&second, true, false).unwrap_err(), FeatureError::ObservationPredecessorMismatch { incoming: 103 });
    encoder.observe(&second, true, true).expect("second");

    let seen = encoder.journal.observation.projectile_observation(EntityId(40)).expect("projectile");
    assert_eq!((seen.first_tick, seen.last_tick, seen.previous_tick), (100, 103, Some(100)));
    assert_eq!(seen.previous_position, Vec2::from_ints(2_200, 2_000));
    assert_eq!(
        encoder.observe(&first, true, true),
        Err(FeatureError::ObservationTickNotIncreasing { incoming: 100, latest: 103 })
    );
    encoder.rollback(100).expect("rollback");
    let back = encoder.journal.observation.projectile_observation(EntityId(40)).expect("projectile");
    assert_eq!((back.first_tick, back.last_tick, back.previous_tick), (100, 100, None));
    assert_eq!(encoder.rollback(50), Ok(()));
    assert!(encoder.journal.history.is_empty());
    encoder.reset();
    assert_eq!(encoder.journal.observation.tick, None);
}

#[test]
fn long_journals_forget_their_beginning() {
    let mut encoder = encoder(&tracker());
    for step in 0..17u32 {
        let mut now = tracker();
        now.current.as_mut().unwrap().tick = 100 + step;
        encoder.observe(&now, true, true).expect("observation");
    }

    assert_eq!(encoder.journal.history.len(), 16);
    let error = encoder.rollback(99).unwrap_err();
    let FeatureError::ObservationRollbackBeforeHorizon { requested, earliest } = error else {
        panic!("horizon");
    };
    assert_eq!(requested, 99);
    assert!(earliest > 99);
    assert_eq!(encoder.journal.history.len(), 16);
}

#[test]
fn disabled_scoreboards_hide_enemy_scores() {
    let mut rich = tracker();
    for sample in rich.history.iter_mut() {
        sample.enemy.kills = 9;
    }
    rich.current.as_mut().unwrap().players[1].kills = 9;
    let plain = tracker();
    let with = |tracker: &StateTracker, enemy_scoreboard: bool| {
        let space = ActionSpace::from_tracker(tracker).expect("space");
        let mut encoder =
            FeatureEncoder::new_with_audit(tracker, FeatureAuditConfig { enemy_scoreboard });
        encoder.observe(tracker, true, true).expect("observation");
        encoder
            .encode(tracker, &space, &ItemReadiness::new(), &LocalPolicyState::new(100), true)
            .expect("frame")
    };

    let hidden = (with(&rich, false), with(&plain, false));
    let shown = (with(&rich, true), with(&plain, true));

    assert_eq!(hidden.0.global, hidden.1.global);
    assert_eq!(hidden.0.history, hidden.1.history);
    assert_ne!(
        (shown.0.global, shown.0.history),
        (shown.1.global, shown.1.history)
    );
    assert!(!FeatureAuditConfig::default().enemy_scoreboard);
}

fn rendered() -> RenderedFrame {
    let blank = FeatureFrame::new();
    RenderedFrame {
        global: blank.global,
        history: blank.history,
        policy_history: blank.policy_history,
        units: vec![],
        own_units: vec![],
        remembered_units: vec![],
        points: vec![],
        abilities: blank.abilities,
        items: blank.items,
        projectiles: vec![],
        loot: vec![],
        map: blank.map,
    }
}

#[test]
fn assembled_frames_are_padded_and_attributed() {
    let space = space();
    let mut values = rendered();
    values.units = vec![vec![ONE_BITS; UNIT_FEATURES]; 2];

    let frame = values.assemble(&space).expect("frame");

    assert_eq!(frame.units().len(), UNIT_FEATURE_TOKENS);
    assert_eq!(frame.units()[1], vec![ONE_BITS; UNIT_FEATURES]);
    assert_eq!(frame.units()[2], vec![0; UNIT_FEATURES]);
    assert!(frame.matches_action_space(&space));
    let mut broken = rendered();
    broken.global[0] = f32::NAN.to_bits();
    assert_eq!(broken.assemble(&space).unwrap_err(), FeatureError::NonFinite);
}

#[test]
fn tokens_are_sorted_by_value_and_cut() {
    let row = |value: f32| vec![value.to_bits(), 0];
    let table = vec![row(0.5), row(-1.0), row(0.25), row(0.5)];

    let kept = sorted_tokens(&table, 3);

    assert_eq!(kept.len(), 3);
    assert_eq!(sorted_tokens(&kept, 3), kept);
    for token in &kept {
        assert!(table.contains(token));
    }
}

#[test]
fn frames_compare_by_number() {
    let space = space();
    let mut left = frame(&space);
    let mut right = frame(&space);
    left.map[0] = 0;
    right.map[0] = NEGATIVE_ZERO_BITS;
    assert!(left == right);
    right.map[0] = f32::NAN.to_bits();
    assert!(left != right);
    let same = f32::NAN.to_bits();
    left.map[0] = same;
    assert!(left != right);
    assert!(FeatureFrame::default() == FeatureFrame::new());
}

#[test]
fn walking_distances_go_round_walls() {
    let mut tracker = tracker();
    tracker.metadata.terrain_cells = 3;
    let open = TERRAIN_WALKABLE;
    // The middle row is closed but for its last cell.
    tracker.terrain_rle = vec![(3, open), (2, 0), (1, open), (3, open)];
    tracker.static_trees = vec![];
    tracker.current = None;
    let mut context = MapContext::new(&tracker);
    let at = |x: i32, y: i32| Vec2::from_ints(64 * x + 32, 64 * y + 32);

    context.prepare_path_distances(at(0, 0));

    assert_eq!(context.path_steps(at(0, 0)), Some(0));
    assert_eq!(context.path_steps(at(1, 0)), Some(1));
    assert_eq!(context.path_steps(at(0, 1)), None);
    assert_eq!(context.path_steps(at(2, 1)), Some(2));
    assert_eq!(context.path_steps(at(0, 2)), Some(4));
    assert_eq!(context.path_steps(Vec2::from_ints(500, 0)), None);
}

#[test]
fn stable_orders_keep_ties_in_place() {
    let keys = vec![vec![2, 0], vec![1, 5], vec![2, 0], vec![1]];

    assert_eq!(stable_order(&keys), vec![3, 1, 0, 2]);
}

fn adam(step: u64) -> AdamState {
    AdamState {
        config: AdamConfig { settings: vec![1, 2, 3] },
        first_moment: vec![0; 4],
        second_moment: vec![0; 4],
        step,
        binding: OptimizerBinding {
            lineage: 50,
            policy: PolicyIdentity { instance: 3, revision: step },
        },
    }
}

fn model(step: u64) -> ModelAdamSnapshot {
    ModelAdamSnapshot { parameters: vec![ONE_BITS, 0, 0, 0], adam: adam(step) }
}

fn stocked_pool(count: u64) -> ImitationPool {
    let mut pool = ImitationPool::new(9, 16, 4, seeds(), scope()).expect("pool");
    for instance in 1..=count {
        pool.push(teacher(instance, SeedNamespace::Training, 1)).expect("push");
    }
    pool
}

fn trainer(pool: &ImitationPool, batch: usize) -> BehavioralTrainer {
    BehavioralTrainer::new(
        batch,
        5,
        EarlyStoppingConfig { minimum_improvement: 0.0f64.to_bits(), patience: 2 },
        Ok(adam(0)),
        shape(),
        pool,
    )
    .expect("trainer")
}

fn planned(start: Result<EpochStart, ImitationError>) -> EpochPlan {
    match start.expect("epoch") {
        EpochStart::Planned(plan) => plan,
        EpochStart::Failed { cause, .. } => panic!("{cause:?}"),
    }
}

#[test]
fn epochs_that_fail_behind_their_snapshot_are_aborted() {
    let empty = stocked_pool(0);
    let mut trainer_now = trainer(&empty, 2);
    let EpochStart::Failed { cause, rollback } =
        trainer_now.begin_epoch(&empty, Ok(model(0))).expect("epoch")
    else {
        panic!("an empty pool has no epoch");
    };
    assert_eq!(cause, ImitationError::EmptyTrainSet);
    let mut restored = adam(0);
    restored.binding.policy.revision = 9;
    assert_eq!(
        trainer_now.abort_epoch(rollback, cause, Ok(restored)),
        ImitationError::EmptyTrainSet
    );
    assert_eq!(trainer_now.model_identity().revision, 9);

    let pool = stocked_pool(3);
    let mut full = trainer(&pool, 1);
    full.counters = TrainerCounters { epoch: 5, global_update: 999_999_999 };
    full.adam.step = 999_999_999;
    let EpochStart::Failed { cause, rollback } =
        full.begin_epoch(&pool, Ok(model(999_999_999))).expect("epoch")
    else {
        panic!("the counters have no room");
    };
    assert_eq!(
        cause,
        ImitationError::CounterOverflow { counter: "global update", maximum: 1_000_000_000 }
    );
    assert_eq!(full.shuffle_draws(), 2);
    let lost = full.abort_epoch(rollback, cause, Err(ImitationError::NonFiniteFrame));
    assert!(matches!(lost, ImitationError::Rollback { .. }));
    assert_eq!(full.shuffle_draws(), 2);
}

#[test]
fn epochs_run_in_batches() {
    let pool = stocked_pool(5);
    let mut trainer = trainer(&pool, 2);

    let plan = planned(trainer.begin_epoch(&pool, Ok(model(0))));

    assert_eq!(plan.updates, 3);
    let mut visited = vec![];
    for update in 0..3usize {
        visited.extend(plan.batch(update));
        trainer.finish_update(adam(update as u64 + 1));
    }
    assert_eq!(plan.batch(2).len(), 1);
    assert_eq!(visited, plan.order);
    let order = plan.order.clone();
    let report = trainer.finish_epoch(plan);
    assert_eq!(report, TrainingEpochReport { epoch: 1, order, updates: 3 });
    assert_eq!(trainer.counters(), TrainerCounters { epoch: 1, global_update: 3 });
    assert_eq!(trainer.adam().step, 3);
    assert_eq!(trainer.model_identity().revision, 3);
    assert_eq!(trainer.shuffle_draws(), 4);
}

#[test]
fn failed_epochs_return_to_their_start() {
    let pool = stocked_pool(3);
    let mut trainer = trainer(&pool, 1);
    let plan = planned(trainer.begin_epoch(&pool, Ok(model(0))));
    trainer.finish_update(adam(1));
    let cause = ImitationError::Model("diverged".to_owned());

    let error = trainer.abort_epoch(plan.rollback, cause.clone(), Ok(adam(0)));

    assert_eq!(error, cause);
    assert_eq!(trainer.counters(), TrainerCounters::default());
    assert_eq!(trainer.shuffle_draws(), 0);
    let again = planned(trainer.begin_epoch(&pool, Ok(model(0))));
    let lost = trainer.abort_epoch(again.rollback, cause, Err(ImitationError::NonFiniteFrame));
    assert_eq!(
        lost,
        ImitationError::Rollback {
            cause: "imitation model operation failed: diverged".to_owned(),
            rollback: "imitation feature frame is non-finite".to_owned(),
        }
    );
    assert_eq!(
        lost.message(),
        "imitation epoch failed (imitation model operation failed: diverged); rollback failed (imitation feature frame is non-finite)"
    );
}

#[test]
fn trainers_check_their_setup() {
    let pool = stocked_pool(1);
    let build = |batch: usize, early: EarlyStoppingConfig, claim: Result<AdamState, String>| {
        BehavioralTrainer::new(batch, 5, early, claim, shape(), &pool).map(|_| ())
    };
    let early = EarlyStoppingConfig::default();

    assert_eq!(early.patience, 10);
    assert_eq!(build(0, early, Ok(adam(0))), Err(ImitationError::EffectiveBatch { value: 0, maximum: 64 }));
    assert_eq!(build(65, early, Ok(adam(0))), Err(ImitationError::EffectiveBatch { value: 65, maximum: 64 }));
    assert_eq!(
        build(1, early, Err("taken".to_owned())),
        Err(ImitationError::Model("taken".to_owned()))
    );
    assert_eq!(
        build(1, EarlyStoppingConfig { minimum_improvement: (-1.0f64).to_bits(), patience: 1 }, Ok(adam(0))),
        Err(ImitationError::InvalidEarlyStopping("minimum improvement"))
    );
    assert_eq!(
        build(1, EarlyStoppingConfig { minimum_improvement: 0, patience: 0 }, Ok(adam(0))),
        Err(ImitationError::InvalidEarlyStopping("patience"))
    );
    let mut bound = trainer(&pool, 1);
    let other = stocked_pool(2);
    assert_eq!(bound.validate_pool(&other), Err(ImitationError::PoolBindingMismatch));
    assert_eq!(
        bound.begin_epoch(&other, Ok(model(0))).map(|_| ()).unwrap_err(),
        ImitationError::PoolBindingMismatch
    );
    assert_eq!(bound.rebind_pool(&other), Ok(()));
    assert_eq!(bound.rebind_pool(&pool), Err(ImitationError::PoolBindingMismatch));
}

fn run_epoch(trainer: &mut BehavioralTrainer, pool: &ImitationPool) {
    let step = trainer.adam().step;
    let plan = planned(trainer.begin_epoch(pool, Ok(model(step))));
    trainer.finish_update(adam(step + 1));
    trainer.finish_epoch(plan);
}

#[test]
fn patience_ends_a_run_at_its_best_state() {
    let pool = stocked_pool(1);
    let mut trainer = trainer(&pool, 1);
    let bits = |value: f64| value.to_bits();
    let mut observe = |trainer: &mut BehavioralTrainer, score: f64, best: f64| {
        run_epoch(trainer, &pool);
        let step = trainer.adam().step;
        trainer.observe_gameplay(bits(score), bits(best), Ok(model(step)))
    };

    assert_eq!(
        trainer.restore_best(Ok(adam(0))),
        Err(ImitationError::CheckpointState("best training snapshot"))
    );
    assert_eq!(observe(&mut trainer, 0.5, 0.0), Ok(false));
    assert_eq!(observe(&mut trainer, 0.75, 0.5), Ok(false));
    assert_eq!(observe(&mut trainer, 0.75, 0.75), Ok(false));
    assert_eq!(observe(&mut trainer, f64::NAN, 0.75), Err(ImitationError::NonFiniteEvaluation));
    assert_eq!(observe(&mut trainer, 0.1, 0.75), Ok(true));
    assert_eq!(trainer.early_stopper.best_epoch(), Some(2));
    assert_eq!(trainer.counters().epoch, 5);
    assert_eq!(trainer.restore_best(Ok(adam(2))), Ok(()));
    assert_eq!(trainer.counters(), TrainerCounters { epoch: 2, global_update: 2 });
    assert!(!trainer.early_stopper.stopped);
}

#[test]
fn training_checkpoints_restore_their_trainer() {
    let pool = stocked_pool(2);
    let mut first = trainer(&pool, 2);
    run_epoch(&mut first, &pool);
    first
        .observe_gameplay(0.5f64.to_bits(), 0, Ok(model(1)))
        .expect("evaluation");

    let checkpoint =
        TrainingCheckpoint::capture(shape(), &first, &pool, Ok(model(1))).expect("checkpoint");
    let verdicts = OptimizerVerdicts { current: Ok(()), best: Ok(()) };
    let candidate =
        checkpoint.validate(shape(), &first, &pool, &verdicts).expect("candidate");
    assert_eq!(candidate.counters, TrainerCounters { epoch: 1, global_update: 1 });
    run_epoch(&mut first, &pool);
    checkpoint.restore(&mut first, candidate, Ok(adam(1))).expect("restored");

    assert_eq!(first.counters(), TrainerCounters { epoch: 1, global_update: 1 });
    assert_eq!(first.early_stopper.best_epoch(), Some(1));
    assert_eq!(first.adam().step, 1);
    let mut older = TrainingCheckpoint::capture(shape(), &first, &pool, Ok(model(1))).expect("checkpoint");
    older.optimizer_version = 1;
    assert_eq!(
        older.validate(shape(), &first, &pool, &verdicts).map(|_| ()).unwrap_err(),
        ImitationError::CheckpointState("optimizer ownership or version")
    );
    older.action_schema_hash += 1;
    assert_eq!(
        older.validate(shape(), &first, &pool, &verdicts).map(|_| ()).unwrap_err(),
        ImitationError::CheckpointSchema
    );
}

fn rated(learner: f64, teacher: f64, outcome: LearnerMatchOutcome) -> LearnerTeacherResult {
    LearnerTeacherResult::new(outcome, learner.to_bits(), teacher.to_bits()).expect("result")
}

fn totals() -> ScoreTotals {
    ScoreTotals {
        radiant_learner: 2.0f64.to_bits(),
        radiant_teacher: 1.0f64.to_bits(),
        dire_learner: 3.0f64.to_bits(),
        dire_teacher: 3.0f64.to_bits(),
        learner: 5.0f64.to_bits(),
        teacher: 4.0f64.to_bits(),
    }
}

fn gameplay(candidate: PolicyIdentity) -> PairedGameplayReport {
    PairedGameplayReport::new(
        candidate,
        vec![PairedSeedResult::new(
            21,
            rated(2.0, 1.0, LearnerMatchOutcome::Win),
            rated(3.0, 3.0, LearnerMatchOutcome::Draw),
        )],
        totals(),
    )
    .expect("gameplay")
}

fn sided(instance: u64, dire: bool, action: StructuredAction, coverage: &mut TeacherCoverage) -> ImitationSample {
    let space = space();
    let mut frame = FeatureFrame::new();
    frame.global[if dire { SIDE_DIRE } else { SIDE_RADIANT }] = ONE_BITS;
    frame.global[MAP_ZERO] = ONE_BITS;
    frame.attribute(&space);
    let identity = identity(SeedNamespace::Promotion, 21, instance, &frame);
    coverage
        .collect_teacher_sample(identity, instance, frame, Ok((action, space)))
        .expect("sample")
}

fn promotion_input(candidate: PolicyIdentity) -> PromotionGateInput {
    let mut pool = ImitationPool::new(9, 8, 4, seeds(), scope()).expect("pool");
    let mut coverage = TeacherCoverage::new();
    let stop = sided(1, false, StructuredAction::Stop { unit: HERO }, &mut coverage);
    let hold = sided(2, true, StructuredAction::Hold { unit: HERO }, &mut coverage);
    pool.push(stop).expect("push");
    pool.push(hold).expect("push");
    let prediction = |kind: usize| BehavioralPrediction {
        kind,
        controlled: Some(0),
        ability: None,
        item: None,
        swap: None,
        learn: None,
        shop: None,
        loot: None,
        target_mode: None,
        put_mode: None,
        entity_pointer: None,
        point_pointer: None,
    };
    let held_out = OfflineEvaluation::evaluate_held_out(
        shape(),
        &pool,
        coverage,
        Ok((vec![prediction(1), prediction(4)], candidate)),
    )
    .expect("evaluation");
    PromotionGateInput {
        held_out,
        rollout: RolloutAudit::new(candidate, 0, 1_000, true, true).expect("audit"),
        gameplay: gameplay(candidate),
    }
}

#[test]
fn complete_evidence_promotes() {
    let candidate = PolicyIdentity { instance: 3, revision: 8 };
    let input = promotion_input(candidate);

    let result = input.evaluate(candidate, totals()).expect("result");

    assert_eq!(
        result,
        PromotionGateResult {
            full_agreement: true,
            teacher_coverage: true,
            rejection_rate: true,
            gameplay_score: true,
            both_sides: true,
            side_audit: true,
            exploit_audit: true,
            nontrivial_action_distribution: true,
            radiant_win_rate: WinRate { wins: 1, games: 1 },
            dire_win_rate: WinRate { wins: 0, games: 1 },
            passed: true,
        }
    );
}

#[test]
fn each_missing_requirement_blocks_promotion() {
    let candidate = PolicyIdentity { instance: 3, revision: 8 };
    let changes: [fn(&mut PromotionGateInput); 4] = [
        |input| input.rollout.rejected_actions = 1,
        |input| input.rollout.side_audit_passed = false,
        |input| input.rollout.exploit_audit_passed = false,
        |input| input.held_out.metrics.overall.full.matching = 1,
    ];

    for change in changes {
        let mut input = promotion_input(candidate);
        change(&mut input);

        let result = input.evaluate(candidate, totals()).expect("result");

        assert!(!result.passed);
    }
}

#[test]
fn inconsistent_evidence_is_refused() {
    let candidate = PolicyIdentity { instance: 3, revision: 8 };
    let changes: [(fn(&mut PromotionGateInput), ImitationError); 6] = [
        (
            |input| input.held_out.metrics.overall.samples = 3,
            ImitationError::InvalidEvaluationCounts,
        ),
        (
            |input| input.rollout.candidate.revision = 9,
            ImitationError::PolicyIdentityMismatch,
        ),
        (
            |input| input.held_out.metrics.radiant.teacher_attempted = 2,
            ImitationError::InvalidTeacherCoverage,
        ),
        (
            |input| input.gameplay.radiant.wins = 0,
            ImitationError::InvalidGameplayReport("derived paired aggregates"),
        ),
        (
            |input| {
                input.gameplay.results[0].seed = 22;
                input.gameplay.paired_seeds[0] = 22;
            },
            ImitationError::InvalidGameplayReport("promotion seed namespace"),
        ),
        (
            |input| input.rollout.total_actions = 999,
            ImitationError::InvalidRolloutCounts,
        ),
    ];

    for (change, error) in changes {
        let mut input = promotion_input(candidate);
        change(&mut input);

        assert_eq!(input.evaluate(candidate, totals()).unwrap_err(), error);
    }
}

#[test]
fn gameplay_reports_are_checked() {
    let candidate = PolicyIdentity { instance: 3, revision: 8 };
    let result = |seed: u64| {
        PairedSeedResult::new(
            seed,
            rated(2.0, 1.0, LearnerMatchOutcome::Win),
            rated(3.0, 3.0, LearnerMatchOutcome::Draw),
        )
    };

    assert_eq!(
        PairedGameplayReport::new(candidate, vec![], totals()).unwrap_err(),
        ImitationError::InvalidGameplayReport("paired seed count")
    );
    assert_eq!(
        PairedGameplayReport::new(candidate, vec![result(4), result(4)], totals()).unwrap_err(),
        ImitationError::InvalidGameplayReport("paired seed identity")
    );
    let sorted = PairedGameplayReport::new(candidate, vec![result(9), result(4)], totals()).expect("report");
    assert_eq!(sorted.paired_seeds(), &[4, 9]);
    assert_eq!(sorted.radiant().wins(), 2);
    assert_eq!(sorted.dire().draws(), 2);
    assert!(sorted.learner_not_worse());
    assert_eq!(
        LearnerTeacherResult::new(LearnerMatchOutcome::Win, f64::INFINITY.to_bits(), 0).unwrap_err(),
        ImitationError::NonFiniteEvaluation
    );
    assert_eq!(
        RolloutAudit::new(candidate, 2, 1, true, true).unwrap_err(),
        ImitationError::InvalidRolloutCounts
    );
    assert!(numeric_order((-1.0f64).to_bits()) < numeric_order(1.0f64.to_bits()));
    assert_eq!(numeric_order((-0.0f64).to_bits()), numeric_order(0));
}
