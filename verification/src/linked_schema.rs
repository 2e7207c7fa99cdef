//! Schema identities that link several encodings.
use crate::checkpoint::SchemaLink;
use crate::manifest::ManifestWriter;
use crate::schema::{fnv1a, fnv1a_spec};
use vstd::bytes::{spec_u32_to_le_bytes, spec_u64_to_le_bytes};
use vstd::prelude::*;
use vstd::utf8::encode_utf8;

verus! {

/// Version of the strict on-disk tensor and manifest contract.
pub const CHECKPOINT_SCHEMA_VERSION: u32 = 5;

/// Canonical strict checkpoint contract descriptor.
pub const CHECKPOINT_SCHEMA_DESCRIPTOR: &'static str = "bota-drysua-checkpoint/v5;\
    linked_schemas=action,feature,model,ppo,map2_reward;\
    linked_hash=fnv1a_descriptor_then_ordered_version_le32_hash_le64_then_map2_reward_descriptor_utf8;\
    files=checkpoint.safetensors,checkpoint.meta,drysua.weights.safetensors,immutable_sha256_tensor_generation;\
    tensors=model.parameters,adam.first_moment,adam.second_moment;\
    dtype=f32;\
    runtime_metadata=action_feature_model_ppo_schema_hashes,ppo_schema_version,ppo_rules_audit_version,map2_reward_schema_version,map2_reward_schema_hash,map2_reward_schema_descriptor;\
    load=exact_names_shapes_dtype_finite_schema_sha256,no_legacy_runtime_or_resume,canonical_tensor_fallback;\
    initialization=explicit_two_pinned_m14_sources_candle_named_zero_row_insertion_or_two_pinned_m16_initial1739d280_advantagefdd4d3f2_exact_nine_key_a4_f14_m16_ppo29_rules24_reward1_full_sha_same_shape62_tensor_all_parameter_bits_new_provenance_no_gameplay_equivalence_fresh_optimizer_progress_rng_league;\
    manifest=git_simulator_features_map2_scope_cap27900_including900_pregame_seed_device_batch_command_rules25_progress_rng_curriculum_league;\
    observation=feature15_action5_walkable_building_landing_move_only_effects13_guarded14_inspired15_shadowraze_manual_hp_mana_restoration_reports_not_confirmed_tickregen;\
    save=immutable_generation,canonical_copy,recoverable_manifest_commit_last,file_and_directory_fsync;\
";

/// League contract version.
pub const LEAGUE_SCHEMA_VERSION: u32 = 37;

/// Audited simulator and learner rules required by league artifacts.
pub const LEAGUE_RULES_AUDIT_VERSION: u32 = 32;

/// Canonical frozen-policy, scheduling, retention, and promotion contract.
pub const LEAGUE_SCHEMA_DESCRIPTOR: &'static str = "bota-drysua-league/v37;\
    linked_schemas=action,feature,model,ppo,map2_reward;linked_hash=fnv1a_descriptor_then_ordered_version_le32_hash_le64_then_map2_reward_descriptor_utf8;rules_audit=32;\
    scope=map2_mid_only_second_hero_death_or_first_tower_loss_simultaneous_draw_cap27900_including900_pregame;reward=linked_map2_reward_schema_version_hash_and_full_descriptor;observations=Guarded13_Inspired14_Shadowraze15_Healed_hp_mana_manual_reports_not_confirmed_tickregen;\
    execution_roles=current_m22_policy_sharedpolicy_current_accepted_new_run_historical_snapshots_use_candidate_feature20_action5_move_landing_order_contract_including_restart,frozen_weights_not_legacy_execution,observer_bookkeeping_never_changes_teacher_strategy;initialization=explicit_pinned_m14_m16_m17_or_m19u162_global_input_padding_or_m21u300_parameter_only_sources_new_map2_m22_policy_not_historical_opponent_identity_or_qualified_release,no_inherited_progress_mastery_moments_rng_league_or_promotion_evidence,no_gameplay_or_reward_equivalence;reward7=terminal_win.2_loss_neg.2_draw0_taskcap_neg.2_win_only_victory_time_bonus_all_dense_unchanged,no_strategy_override;historical_opponents=original_binaries_remain_historical_explicit_map2_adapters_not_original_release_identity,no_old_runtime_or_resume,no_parameter_fingerprint_as_execution_identity;\
    opponents=current30,accepted25,historical25,teacher15,weak5,frozen_per_rollout;\
    league=capacity32,minimum9,protect_anchor_accepted_strongest_recent4,evict_nearest_cross_play_profile;\
    snapshot=immutable_finite_f32_parameters,stable_parameter_fingerprint,generation;\
    evaluation=held_out_seed_disjoint,paired_radiant_and_dire,min20,max512,authoritative_map2_win_required,draw_and_task_timecap_nonwins,infrastructure_failures_invalidate,timeout_rejected,min_actions1000,rejections_below0.001,weak_loss_and_stall_rejected;\
    exploit_audit=separate_seed_namespace,min2_pairs,min100_actions,timeout_rejected,nonnegative_each_side,rejections_below0.001;\
    promotion=opaque_paired_evidence_and_exploit_audit,positive_combined_score,nonnegative_each_side,training_reward_excluded;\
    current_contract=feature22_model24_ppo37_reward7_win.2_loss_neg.2_draw0_completed_taskcap_neg.2_win_only_victory_time_bonus;mastery_training_gate_is_not_league_qualification;explicit_pinned_parameter_initialization_fresh_mastery_progress_no_equivalence;\
";

/// Bytes of linked versions and hashes in order.
pub open spec fn link_bytes(links: Seq<SchemaLink>) -> Seq<u8>
    decreases links.len(),
{
    if links.len() == 0 {
        Seq::empty()
    } else {
        link_bytes(links.drop_last()) + spec_u32_to_le_bytes(links.last().version)
            + spec_u64_to_le_bytes(links.last().hash)
    }
}

/// FNV-1a of a descriptor, its linked identities in order, and a reward descriptor.
pub open spec fn linked_hash(
    descriptor: Seq<char>,
    links: Seq<SchemaLink>,
    reward: Seq<char>,
) -> u64 {
    fnv1a_spec(encode_utf8(descriptor) + link_bytes(links) + encode_utf8(reward))
}

/// FNV-1a of a descriptor, its linked identities in order, and a reward descriptor.
pub fn linked_schema_hash(descriptor: &str, links: &Vec<SchemaLink>, reward: &str) -> (r: u64)
    ensures
        r == linked_hash(descriptor@, links@, reward@),
{
    let mut writer = ManifestWriter::new();
    writer.raw(descriptor.as_bytes());
    let ghost start = writer.bytes@;
    assert(start =~= encode_utf8(descriptor@));
    let mut index: usize = 0;
    assert(links@.take(0) =~= Seq::<SchemaLink>::empty());
    assert(start + link_bytes(links@.take(0)) =~= start);
    while index < links.len()
        invariant
            index <= links@.len(),
            writer.bytes@ == start + link_bytes(links@.take(index as int)),
        decreases links@.len() - index,
    {
        proof {
            assert(links@.take(index + 1).drop_last() =~= links@.take(index as int));
            assert(links@.take(index + 1).last() == links@[index as int]);
        }
        writer.u32(links[index].version);
        writer.u64(links[index].hash);
        index += 1;
        assert(writer.bytes@ =~= start + link_bytes(links@.take(index as int)));
    }
    assert(links@.take(links@.len() as int) =~= links@);
    writer.raw(reward.as_bytes());
    fnv1a(writer.bytes.as_slice())
}

} // verus!
