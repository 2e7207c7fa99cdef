//! Stable identities of the action and feature encodings.
use vstd::prelude::*;

verus! {

/// Stable policy-action encoding version.
pub const ACTION_SCHEMA_VERSION: u32 = 1;

/// Complete description of the policy-action encoding.
pub const ACTION_SCHEMA_DESCRIPTOR: &'static str = "\
    bota-drysua-action/v1;\
    kinds=Continue,Stop,MovePoint,FollowUnit,Hold,AttackMovePoint,AttackUnit,Cast,Use,PutPoint,PutUnit,Take,Buy,Sell,Swap,Learn;\
    heads=kind16,controlled2,ability8,item15,swap15,learn6,shop64,loot16,target_mode3,put_mode2,entity96,point48;\
    target_modes=None,Entity,Point;\
    put_modes=Underfoot,Point;\
";

/// FNV-1a identity of the action descriptor.
pub const ACTION_SCHEMA_HASH: u64 = 17797499074169920257;

/// Complete description of the feature encoding.
pub const FEATURE_SCHEMA_DESCRIPTOR: &'static str = "\
    bota-drysua-feature/v3;\
    shapes=global:64,history:7x24,policy_history:16x4,unit:96x69,own_unit:2x69,remembered_unit:32x69,point:48x32,ability:14x24,item:85x28,projectile:32x20,loot:16x16,map:96;\
    scalar_ranges=presence_and_one_hot:[0,1],unsigned_continuous:[0,1],signed_continuous:[-1,1],category:positive_exact_integer,all_finite;\
    history_ages=480,240,120,60,30,15,0;\
    normalizers=tick:3600000,age:4800,history_age:480,gold_asset_item_cost:100000,score:1000,xp:100000,hp:100000,mana:20000,damage:10000,attack_interval:600,speed:2000,armor_raw:6553600,level:30,charges:255,cooldown:36000,structures:64;\
    coordinates=raw_extent:terrain_cells*64*65536,dire_position:(extent_raw-1)-raw,dire_delta:negated,dire_facing:brads+32768_wrapping,absolute_side:global[4:6];\
    categories=unit_kind:Hero1,CreepMelee2,CreepFlagbearer3,CreepRanged4,CreepSiege5,CreepNeutral6,Roshan7,Tower8,Ancient9,Fountain10,Ward11,Courier12;\
    ability_category=id8:1,id9:2,id10:3,id11:4,id12:5,id13:6,id14:7,id15:8,id16:9,id17:10,id18:11,other:raw+12,range:1..65547;\
    item_category=raw+1,range:1..65536;aim=Own1,Point2,Unit3,Tree4,Building5;attribute=Strength1,Agility2,Intelligence3;\
    action_category=Continue1,Stop2,MovePoint3,FollowUnit4,Hold5,AttackMovePoint6,AttackUnit7,Cast8,Use9,PutPoint10,PutUnit11,Take12,Buy13,Sell14,Swap15,Learn16;\
    role_category=Carry1,Mid2,Offlane3,Support4,HardSupport5;lane_category=Safe1,Mid2,Offlane3;body_category=Hero1,Courier2;item_location=hero2,stash3,courier4,shop5;slots=zero_based_plus_one;\
    unit_leading_when_present=own-hero-then-own-courier;item_fixed=hero9,stash6,courier6,shop64;\
    unit_candidates=current_visible_live_only,cap96,priority:own_body_then_hero_then_structure_then_within1200_then_other,distance_then_relation_then_owner_relation_then_canonical_model_semantics_then_entity_id_only_for_semantically_identical_ties;\
    unit_semantic_order=kind,canonical_position,canonical_facing,hp,max_hp,mana,max_mana,move_speed,attack_damage,attack_range,attack_interval,attack_speed,armor,magic_resistance,radius,vision,true_sight,statuses,item_slot_count,free_item_slots,item_capacity_available,canonical_velocity,hp_delta,mana_delta,recent_damage,recent_cast,recent_attack;\
    unit_memory=units_exact_current_pointer_order,own_units_fixed_hero_courier_current_or_remembered,remembered_units_nonown_hidden_cap32_lexicographic_complete_encoded_token,tracker_cap256_evict_complete_oldest_invisible_last_seen_tick_cohorts,no_target_handles;\
    point_candidates=cap48,deduplicate_position_keep_first_source,canonical_team_directions,generate:tactical_radii200_600_1200_in_E_NE_N_NW_W_SW_S_SE_order_then_allied_building_landings_then_nearest8_visible_or_static-baseline_trees_then_own_fountain_enemy_fountain_own_tower_enemy_tower_then_predicted_units;\
    point_features=exact_action_pointer_prefix,present,pointer_valid,canonical_position,relative_position,distance,direction,source_category,direction_radius_kind_relation_parameters,walkable,standing_tree,allied_building;\
    point_order=building:distance_kind_canonical_landing_position_entity_id_identical_tie,tree:distance_canonical_position_planted,predicted:distance_source_relation_canonical_position_entity_id_identical_tie,landmark:distance_canonical_position_entity_id_identical_tie;shop_order=item_id;\
    loot_candidates=current_visible,cap16,order:item_then_charges_then_position_then_entity_id_only_for_semantically_identical_ties;\
    projectile_order=lexicographic_encoded_semantics,feature_identical_ties_indistinguishable;\
    projectile_history=continuous_full_handle_observation,cap32,first_age,second_velocity,closest_approach,disappearance_or_generation_resets;loot_history=continuous_full_handle_observation,cap16,visible_age,duplicate_current_semantics_suppress_identity_age;\
    observation_journal=16_states,strictly_increasing_observe,exact_tracker_lineage_slot_static_snapshot_predecessor_and_tracker_history_provenance,rollback_at_or_before,eviction_horizon_exact_error_and_atomic,reset_empty,failed_observe_and_encode_atomic;\
    loot_path=static-terrain-and-static-tree-grid;\
    map_rays=E_NE_N_NW_W_SW_S_SE,20_cells,64_world_units_per_step,first_nonwalkable_water_opaque_tree_and_endpoint_elevation_walkability;\
    visibility=allied_current_units,positive_vision_radius,within_radius,target_elevation_not_above_viewer,exact_fixed_point_supercover_line,intermediate_opaque_or_higher_cell_blocks,corner_touch_checks_both_cells;\
    trees=opaque_cells_include_static_map_tree_cells,static_occupancy_baseline,dynamic_delta_proof_requires_live_allied_body_in_same_or_adjacent_cell,proof_ignores_all_dynamic_tree_entries,local_felled_unblocks_passability_and_tree_mask,local_planted_blocks_passability_and_enters_tree_mask,remote_dynamic_changes_invariant,no_hidden_dynamic_blocker_channel;\
    events=input_batch_cap:payload_len_div_2:2097152_reject_before_mutation,snapshot_event_journal_cap64,only_ticks_strictly_before_snapshot,same_tick_delivery_cannot_overwrite_or_evict_prior_snapshot_features,ability_cast_age_per_caster_and_ability,combat_phase_for_any_tracked_source;\
    readiness=backpack_mute:180_from_apply_tick,teleport_shared_wait:2100_from_apply_tick,hero_inventory_journals6,body_shared_journals2,recent_request_cap8,effective_evicted_base_retained,rejection_exact_for_retained_sequences,evicted_sequence_rejection_unsupported,retained_rejections_restore_base;\
    local_rollback=active_assignment_transition_cap16,evicted_effective_base_retained,earliest_supported_tick_tracked,rollback_before_horizon_exact_error_and_atomic,decision_eviction_advances_horizon_to_incoming_tick;\
    own_payloads=live_body_current,hero_scoreboard_kit_current_with_source_bit,absent_courier_ability_and_item_payloads_missing,no_remembered_body_payload_fallback;\
    provenance=private_nonzero_checked_tracker_lineage_clone_gets_fresh_lineage_move_preserves_lineage,action_space_exact_bounded_lineage_slot_static_snapshot_tracker_comparison,readiness_exact_bounded_comparison,observation_exact_bounded_lineage_slot_static_snapshot_tracker_comparison,encoder_static_exact_bounded_comparison,no_correctness_claim_for_fnv_schema_hash;\
    audit=enemy_scoreboard_disabled_by_default,global47_and_history23_presence,disabled_zeros_enemy_alive_and_score_xp_level_kda_last_hit_deny_advantages;\
    ids=entity_match_seed_tracker_lineage_excluded_from_frame,entity_full_handle_only_memory_key_and_final_identical_tie,ability_and_item_semantic_categories_visible;\
    global_indices=0:tick,1:pregame,2:wave,3:jungle,4:radiant,5:dire,6:map0,7:map1,8:seats,9:role_present,10:role,11:lane_present,12:lane,13:kill_adv,14:death_adv,15:assist_adv,16:xp_adv,17:level_adv,18:lh_adv,19:deny_adv,20:gold,21:assets,22:respawn_present,23:respawn,24:alive,25:allied_alive,26:enemy_alive,27:allied_structure_hp,28:enemy_structure_hp,29:destroyed_present,30:destroyed,31:order_present,32:order,33:order_age,34:decision_present,35:decision_age,36:damage_dealt,37:damage_taken,38:level,39:xp,40:kills,41:deaths,42:assists,43:lh,44:denies,45:allied_visible,46:enemy_visible,47:enemy_scoreboard_enabled,48-63:reserved;\
    history_indices=0:present,1:age,2:hp_present,3:hp,4:mana_present,5:mana,6:level,7:gold,8:alive,9:respawn,10:allied_visible,11:enemy_visible,12:xp_adv,13:level_adv,14:kill_adv,15:death_adv,16:assist_adv,17:lh_adv,18:deny_adv,19:allied_structure_hp,20:enemy_structure_hp,21:destroyed_present,22:destroyed,23:enemy_scoreboard_enabled;\
    policy_history_indices=0:present,1:age,2:kind_present,3:kind;\
    unit_indices=0:present,1-4:relation,5:kind,6-8:owner_relation,9:owner_present,10:observation,11:visible,12:remembered,13:origin_present,14:age,15-16:position,17-18:relative,19:distance,20-21:direction,22:facing,23:radius,24:velocity_present,25-26:velocity,27:hp_present,28:elevation,29:walkable,30:hp,31:mana_present,32:mana,33:hp_delta_present,34:hp_delta,35:mana_delta_present,36:mana_delta,37:attack_damage,38:attack_range,39:attack_interval,40:attack_speed,41:move_speed,42:armor,43:magic_resistance,44:vision,45:true_sight,46:attacks_present,47:attacks,48:reach_present,49:reach,50-51:mutual_range,52-60:statuses,61:damage_taken,62:damage_dealt_present,63:damage_dealt,64:attack_phase_present,65:attack_phase,66:item_slot_count,67:free_item_slots,68:item_capacity_available;\
    point_indices=0:present,1:pointer_valid,2-3:position,4:origin_present,5-6:relative,7:distance,8-9:direction,10:source,11:source_direction_present,12:source_direction,13:source_radius_present,14:source_radius,15:source_kind_present,16:source_kind,17:source_relation_present,18-21:source_relation,22:walkable,23:standing_tree,24:allied_building,25-31:reserved;\
    ability_indices=0:present,1:body,2:slot,3:observation,4:id_present,5:id,6:level,7:max_level,8:cooldown,9:mana,10:range,11:aim,12:passive,13:toggle,14:can_level,15:legal,16:last_cast_present,17:last_cast_age,18:scoreboard_kit_source,19-23:reserved;\
    item_indices=0:present,1:location,2:slot,3:item_present,4:item,5:charges_present,6:charges,7:cooldown,8:aim_present,9:aim,10:range,11:mana,12:attribute_present,13:attribute,14:for_sale,15:muted,16:value_present,17:value,18:recipe_component,19:composite,20:legal,21:shop,22:mute_present,23:mute_left,24:shared_wait_present,25:shared_wait_left,26:scoreboard_kit_source,27:reserved;\
    projectile_indices=0:present,1-4:relation,5:ability_present,6:ability,7-8:relative,9:facing,10:velocity_present,11-12:velocity,13:age_present,14:age,15:approach_present,16:approach,17:origin_present,18-19:reserved;\
    loot_indices=0:present,1:item,2:charges_present,3:charges,4-5:relative,6:direct_distance,7:path_present,8:path,9:age_present,10:age,11:origin_present,12-15:reserved;\
    map_indices=0:present,1:walkable,2:water,3:elevation,4:opaque,5:tree,6-13:landmark_presence_distance_pairs,14-15:reserved,16-95:eight_rays_each_four_presence_distance_pairs_plus_endpoint_elevation_walkable;\
    global_scalars=normalizers:tick3600000_pregame_ticks_wave30s_jungle60s_seats10_score1000_xp100000_gold100000_age4800_damage10000_hp100000_structures64_visible256_level30,categories:role1..5_lane1..3_action1..16_map_onehot_side_onehot,reserved:48..63;\
    history_scalars=normalizers:age480_hp_ratio_mana_ratio_level30_gold100000_visible256_score1000_xp100000_hp100000_structures64,categories:none,reserved:none;\
    policy_history_scalars=normalizers:age4800,categories:action1..16,reserved:none;\
    unit_scalars=normalizers:age480_position_extent_delta_extent_distance_extent_facing65535_radius_extent_hp_ratio_mana_ratio_damage10000_attack_range_fixed_max_attack_interval600_attack_speed2000_move_speed2000_armor_raw6553600_magic_resistance_fixed_max_vision_fixed_max_attacks100_reach4800_item_slots9,categories:relation_onehot4_kind1..12_owner_relation_onehot3_status_bits9,reserved:none;\
    point_scalars=normalizers:position_extent_relative_extent_distance_extent_radius1200,categories:source1..8_direction1..8_kind1..12_relation_onehot4,reserved:25..31;\
    ability_scalars=normalizers:level30_cooldown36000_mana20000_range_fixed_max_age4800,categories:body1..2_slot1..8_ability1..65547_aim1..5,reserved:19..23;\
    item_scalars=normalizers:charges255_cooldown36000_range_fixed_max_mana20000_value100000_mute36000_shared_wait36000,categories:location_hero2_stash3_courier4_shop5_with1_reserved_slot1..64_item1..65536_aim1..5_attribute1..3,reserved:27;\
    projectile_scalars=normalizers:relative_extent_facing65535_velocity_extent_per_tick_age4800_closest_approach_extent,categories:relation_onehot4_ability1..65547,reserved:18..19;\
    loot_scalars=normalizers:charges255_relative_extent_direct_extent_path_axis_squared_age4800,categories:item1..65536,reserved:12..15;\
    map_scalars=normalizers:elevation63_landmark_squared_extent_ray_step20,categories:direction_fixed_E_NE_N_NW_W_SW_S_SE_hit_kind_walkable_water_opaque_tree,reserved:14..15;\
";

/// FNV-1a identity of the feature descriptor.
pub const FEATURE_SCHEMA_HASH: u64 = 4481226947978520357;

/// Initial FNV-1a state.
pub const FNV_OFFSET: u64 = 0xcbf2_9ce4_8422_2325;

/// FNV-1a multiplier.
pub const FNV_PRIME: u64 = 0x0000_0100_0000_01b3;

/// FNV-1a state after a list of bytes.
pub open spec fn fnv1a_spec(bytes: Seq<u8>) -> u64
    decreases bytes.len(),
{
    if bytes.len() == 0 {
        FNV_OFFSET
    } else {
        (fnv1a_spec(bytes.drop_last()) ^ (bytes.last() as u64)).wrapping_mul(FNV_PRIME)
    }
}

/// FNV-1a hash of a list of bytes.
pub fn fnv1a(bytes: &[u8]) -> (r: u64)
    ensures
        r == fnv1a_spec(bytes@),
{
    let mut hash: u64 = FNV_OFFSET;
    let mut index: usize = 0;
    assert(bytes@.take(0) =~= Seq::<u8>::empty());
    while index < bytes.len()
        invariant
            index <= bytes@.len(),
            hash == fnv1a_spec(bytes@.take(index as int)),
        decreases bytes@.len() - index,
    {
        assert(bytes@.take(index + 1).drop_last() =~= bytes@.take(index as int));
        hash = (hash ^ (bytes[index] as u64)).wrapping_mul(FNV_PRIME);
        index += 1;
    }
    assert(bytes@.take(index as int) =~= bytes@);
    hash
}

} // verus!
