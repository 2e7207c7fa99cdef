use drysua::artifact::{
    attach_tensors, decode_checkpoint_identity, decode_manifest, encode_checkpoint, encode_manifest,
    metrics_manifest_identity,
    metrics_manifest_identity_after_sync, metrics_scope_identity, open_manifest,
    serialize_training_tensors, CheckpointOptimizer, TrainingArtifact,
};
use drysua::checkpoint::{
    compiled_features, BuildFeatures, CheckpointContract, CheckpointDevice, CheckpointProgress,
    CheckpointRun, RngCheckpoint, SchemaLink, SchemaProfile,
};
use drysua::checkpoint_codec::{
    decode_run, decode_schema, encode_config, encode_run, encode_schema,
};
use drysua::manifest::{CheckpointError, ManifestReader, ManifestWriter, MAX_TEXT_BYTES};
use drysua::mastery::{validate_scope, MasteryConfig, MasteryProgress, MasteryStage};
use drysua::sample::SHADOW_FIEND;
use drysua::settings::{PolicyDevice, PpoConfig, PpoSampleBudget};
use drysua::shuffle::ShuffleState;
use drysua::world::{HeroId, MapId};
use sha2::{Digest, Sha256};

type InvalidFieldCase<T> = (fn(&mut T), &'static str);

const RULES_AUDIT_VERSION: u32 = 32;

fn sha256(bytes: &[u8]) -> [u8; 32] {
    Sha256::digest(bytes).into()
}

fn valid(config: PpoConfig) -> bool {
    f32::from_bits(config.learning_rate).is_finite() && config.minibatch > 0
}

fn profile(checkpoint: SchemaLink) -> SchemaProfile {
    SchemaProfile {
        checkpoint,
        action: SchemaLink { version: 5, hash: 11 },
        feature: SchemaLink { version: 22, hash: 12 },
        model: SchemaLink { version: 24, hash: 13 },
        ppo: SchemaLink { version: 37, hash: 14 },
        reward: SchemaLink { version: 7, hash: 15 },
    }
}

fn contract() -> CheckpointContract {
    CheckpointContract {
        standard: profile(SchemaLink { version: 16, hash: 0x1111_2222_3333_4444 }),
        annealed: profile(SchemaLink { version: 48, hash: 0x5555_6666_7777_8888 }),
        features: BuildFeatures { builtin: true, cuda: false, metal: false },
        rules_audit_version: RULES_AUDIT_VERSION,
        parameter_count: 4,
        maximum_optimizer_step: 1_000_000,
        maximum_samples: 65_536,
    }
}

fn scope(run: &CheckpointRun, config: PpoConfig) -> Result<[u8; 32], CheckpointError> {
    metrics_scope_identity(&contract(), run, config, valid)
}

fn identity(bytes: &[u8]) -> Result<[u8; 32], CheckpointError> {
    metrics_manifest_identity(&contract(), bytes, valid)
}

fn encode(artifact: &TrainingArtifact, hash: [u8; 32]) -> Vec<u8> {
    encode_manifest(&contract(), artifact, &hash).expect("manifest")
}

fn decode(bytes: &[u8]) -> TrainingArtifact {
    decode_manifest(&contract(), bytes).expect("decoded manifest")
}

#[test]
fn metrics_scope_is_deterministic_and_uses_domain_separated_canonical_fields() {
    for budget in [PpoSampleBudget::Standard, PpoSampleBudget::Annealed] {
        let mut artifact = manifest_artifact();
        artifact.config.sample_budget = budget;
        let mut writer = ManifestWriter::new();
        writer.raw(b"drysua-metrics-scope/v1");
        let (version, hash) = contract().checkpoint_schema_identity(budget);
        writer.u32(version);
        writer.u64(hash);
        encode_schema(&mut writer, &contract(), budget);
        encode_run(&mut writer, &artifact.run).expect("canonical run");
        encode_config(&mut writer, artifact.config).expect("canonical config");

        let identity = scope(&artifact.run, artifact.config).expect("scope");
        let repeated = scope(&artifact.run.duplicate(), artifact.config).expect("same scope");

        assert_eq!(identity, sha256(&writer.bytes));
        assert_eq!(repeated, identity);
    }
}

#[test]
fn metrics_scope_changes_with_run_provenance_seed_device_and_command_flags() {
    let artifact = manifest_artifact();
    let base = scope(&artifact.run, artifact.config).expect("scope");
    let changes: [fn(&mut CheckpointRun); 9] = [
        |run| run.git_commit.push_str("-other"),
        |run| run.simulator_commit.push_str("-other"),
        |run| run.command_line.push_str(" --retain-every 2"),
        |run| run.run_seed = 0,
        |run| run.run_seed = u64::MAX,
        |run| run.device = CheckpointDevice::Cuda { ordinal: 0 },
        |run| run.device = CheckpointDevice::Cuda { ordinal: 1 },
        |run| run.device = CheckpointDevice::Metal { ordinal: 0 },
        |run| run.mastery_config = Some(MasteryConfig::default()),
    ];

    for (index, change) in changes.into_iter().enumerate() {
        let mut run = artifact.run.duplicate();
        change(&mut run);

        let identity = scope(&run, artifact.config).expect("changed scope");

        assert_ne!(identity, base, "run field variant {index}");
    }
}

#[test]
fn metrics_scope_includes_each_mastery_setting_without_command_line_changes() {
    let mut artifact = manifest_artifact();
    artifact.run.mastery_config = Some(MasteryConfig::default());
    let base = scope(&artifact.run, artifact.config).expect("scope");

    for (window, weak, teacher) in [(51, 80, 80), (50, 81, 80), (50, 80, 81)] {
        let mut run = artifact.run.duplicate();
        run.mastery_config =
            Some(MasteryConfig::from_resolved(window, weak, teacher).expect("mastery"));

        let identity = scope(&run, artifact.config).expect("changed mastery");

        assert_ne!(identity, base, "mastery {window}/{weak}/{teacher}");
        assert_eq!(run.command_line, artifact.run.command_line);
    }
}

#[test]
fn metrics_scope_includes_ppo_values_and_profile_without_command_line_changes() {
    let artifact = manifest_artifact();
    let base = scope(&artifact.run, artifact.config).expect("scope");
    let changes: [fn(&mut PpoConfig); 16] = [
        |config| config.sample_budget = PpoSampleBudget::Annealed,
        |config| config.decision_interval_ticks = 4,
        |config| config.rollout_decisions = 1_164,
        |config| config.environments = 4,
        |config| config.epochs = 2,
        |config| config.minibatch = 256,
        |config| config.clip_epsilon = 0.3f32.to_bits(),
        |config| config.value_coefficient = 0.6f32.to_bits(),
        |config| config.entropy_coefficient = 0.02f32.to_bits(),
        |config| config.learning_rate += 1,
        |config| config.adam_beta1 = 0.8f32.to_bits(),
        |config| config.adam_beta2 = 0.99f32.to_bits(),
        |config| config.adam_epsilon = 2.0e-5f32.to_bits(),
        |config| config.gradient_clip = 0.6f32.to_bits(),
        |config| config.gae_lambda = 0.99f32.to_bits(),
        |config| config.target_kl = 0.03f32.to_bits(),
    ];

    for (index, change) in changes.into_iter().enumerate() {
        let mut config = artifact.config;
        change(&mut config);
        let mut run = artifact.run.duplicate();
        run.batch_size = config.minibatch;

        let identity = scope(&run, config).expect("changed PPO config");

        assert_ne!(identity, base, "PPO field variant {index}");
        assert_eq!(run.command_line, artifact.run.command_line);
    }
}

#[test]
fn metrics_scope_rejects_invalid_run_fields_instead_of_hashing_them() {
    let artifact = manifest_artifact();
    let changes: [InvalidFieldCase<CheckpointRun>; 7] = [
        (|run| run.git_commit.clear(), "git commit"),
        (|run| run.simulator_commit.clear(), "simulator commit"),
        (|run| run.command_line.push('\n'), "command line"),
        (
            |run| run.enabled_features = "other".to_owned(),
            "enabled features",
        ),
        (|run| run.map = MapId(0), "hero or map scope"),
        (
            |run| run.rules_audit_version = 0,
            "rules audit or batch size",
        ),
        (|run| run.batch_size = 0, "rules audit or batch size"),
    ];

    for (change, field) in changes {
        let mut run = artifact.run.duplicate();
        change(&mut run);

        let error = scope(&run, artifact.config).expect_err("invalid scope");

        assert_eq!(error, CheckpointError::InvalidManifest(field));
        assert_eq!(
            error.message(),
            format!("checkpoint manifest has invalid {field}")
        );
    }
}

#[test]
fn metrics_scope_accepts_bounded_text_and_rejects_one_byte_more() {
    let mut artifact = manifest_artifact();
    artifact.run.git_commit = "g".repeat(MAX_TEXT_BYTES);

    let accepted = scope(&artifact.run, artifact.config);
    artifact.run.git_commit.push('g');
    let error = scope(&artifact.run, artifact.config).expect_err("oversize");

    assert!(accepted.is_ok());
    assert_eq!(error, CheckpointError::InvalidManifest("git commit"));
    assert_eq!(
        error.message(),
        "checkpoint manifest has invalid git commit"
    );
}

#[test]
fn metrics_scope_rejects_invalid_ppo_values_and_wrong_map2_discount() {
    let artifact = manifest_artifact();
    let changes: [InvalidFieldCase<PpoConfig>; 3] = [
        (|config| config.learning_rate = f32::NAN.to_bits(), "PPO config"),
        (|config| config.minibatch = 0, "PPO config"),
        (
            |config| config.gamma_tick = 0.99f32.to_bits(),
            "Map2 reward discount",
        ),
    ];

    for (change, field) in changes {
        let mut config = artifact.config;
        change(&mut config);

        let error = scope(&artifact.run, config).expect_err("invalid config");

        assert_eq!(error, CheckpointError::InvalidManifest(field));
        assert_eq!(
            error.message(),
            format!("checkpoint manifest has invalid {field}")
        );
    }
}

#[test]
fn metrics_scope_rejects_annealed_mastery() {
    let mut artifact = manifest_artifact();
    artifact.run.mastery_config = Some(MasteryConfig::default());
    artifact.config.sample_budget = PpoSampleBudget::Annealed;

    let error = scope(&artifact.run, artifact.config).expect_err("mastery");

    assert_eq!(error, CheckpointError::InvalidManifest("annealed mastery"));
    assert_eq!(
        error.message(),
        "checkpoint manifest has invalid annealed mastery"
    );
}

#[test]
fn metrics_manifest_identity_syncs_once_before_returning_the_exact_hash() {
    let artifact = manifest_artifact();
    let encoded = encode(&artifact, artifact.tensor_hash);
    let mut sync_calls = 0;

    let identity = metrics_manifest_identity_after_sync(&contract(), &encoded, valid, || {
        sync_calls += 1;
        Ok(())
    })
    .expect("durable manifest identity");

    assert_eq!(sync_calls, 1);
    assert_eq!(identity, sha256(&encoded));
}

#[test]
fn metrics_manifest_identity_returns_sync_failure_instead_of_an_identity() {
    let artifact = manifest_artifact();
    let encoded = encode(&artifact, artifact.tensor_hash);
    let mut sync_calls = 0;

    let error = metrics_manifest_identity_after_sync(&contract(), &encoded, valid, || {
        sync_calls += 1;
        let failure = std::io::Error::new(
            std::io::ErrorKind::PermissionDenied,
            "metrics checkpoint directory fsync failed",
        );
        Err(CheckpointError::Io(failure.to_string()))
    })
    .expect_err("sync failure must prevent returning an identity");

    assert_eq!(sync_calls, 1);
    assert_eq!(
        error,
        CheckpointError::Io("metrics checkpoint directory fsync failed".to_owned())
    );
    assert_eq!(
        error.message(),
        "checkpoint I/O failed: metrics checkpoint directory fsync failed"
    );
}

#[test]
fn metrics_manifest_identity_rejects_invalid_metadata_before_sync() {
    let artifact = manifest_artifact();
    let mut encoded = encode(&artifact, artifact.tensor_hash);
    encoded[0] ^= 1;
    let mut sync_calls = 0;

    let error = metrics_manifest_identity_after_sync(&contract(), &encoded, valid, || {
        sync_calls += 1;
        Ok(())
    })
    .expect_err("invalid manifest");

    assert_eq!(error, CheckpointError::ManifestMagic);
    assert_eq!(error.message(), "checkpoint manifest magic is invalid");
    assert_eq!(sync_calls, 0);
}

#[test]
fn metrics_manifest_identity_is_sha256_of_exact_manifest_not_tensor_hash() {
    for budget in [PpoSampleBudget::Standard, PpoSampleBudget::Annealed] {
        let mut artifact = manifest_artifact();
        artifact.config.sample_budget = budget;
        let encoded = encode(&artifact, artifact.tensor_hash);

        let identity = identity(&encoded).expect("manifest identity");
        let decoded = decode(&encoded);
        let reencoded = encode(&decoded, decoded.tensor_hash);

        assert_eq!(identity, <[u8; 32]>::from(Sha256::digest(&encoded)));
        assert_ne!(identity, artifact.tensor_hash);
        assert_eq!(reencoded, encoded);
    }
}

#[test]
fn metrics_manifest_identity_changes_with_progress_rng_and_optimizer_metadata() {
    let artifact = manifest_artifact();
    let encoded = encode(&artifact, artifact.tensor_hash);
    let base = identity(&encoded).expect("identity");
    let run_scope = scope(&artifact.run, artifact.config).expect("scope");
    let changes: [fn(&mut TrainingArtifact); 10] = [
        |artifact| {
            artifact.progress.global_update += 1;
            artifact.trainer_updates += 1;
        },
        |artifact| artifact.progress.scheduler_step += 1,
        |artifact| artifact.progress.curriculum_stage += 1,
        |artifact| artifact.progress.rollout_samples += 1,
        |artifact| artifact.progress.best_evaluation = Some(0.5f64.to_bits()),
        |artifact| artifact.progress.rng_states[0].state += 1,
        |artifact| artifact.progress.league_references.push(1),
        |artifact| artifact.shuffle.state += 1,
        |artifact| artifact.shuffle.draws += 1,
        |artifact| artifact.optimizer.step += 1,
    ];

    for (index, change) in changes.into_iter().enumerate() {
        let mut changed = manifest_artifact();
        change(&mut changed);
        let encoded = encode(&changed, changed.tensor_hash);

        let identity = identity(&encoded).expect("changed identity");

        assert_ne!(identity, base, "metadata variant {index}");
        assert_eq!(
            scope(&changed.run, changed.config).expect("scope"),
            run_scope
        );
    }
}

#[test]
fn metrics_manifest_identity_includes_the_existing_tensor_hash() {
    let artifact = manifest_artifact();
    let base = encode(&artifact, artifact.tensor_hash);
    let changed = encode(&artifact, [43; 32]);

    let base = identity(&base).expect("base identity");
    let changed = identity(&changed).expect("changed identity");

    assert_ne!(base, changed);
}

#[test]
fn metrics_manifest_identity_hashes_input_bytes_without_reencoding() {
    let artifact = manifest_artifact();
    let mut encoded = encode(&artifact, artifact.tensor_hash);
    let copy = encoded.clone();
    let mut reader = ManifestReader::new(&copy);
    reader.take(8).expect("magic");
    let budget = decode_checkpoint_identity(&mut reader, &contract()).expect("checkpoint schema");
    decode_schema(&mut reader, &contract(), budget).expect("linked schemas");
    decode_run(&mut reader).expect("run");
    reader
        .take(4 * 8 + 4 + 1)
        .expect("progress before optional payload");
    let offset = reader.offset;
    // An absent evaluation accepts either sign of zero; encoding again canonicalizes it.
    encoded[offset..offset + 8].copy_from_slice(&(-0.0f64).to_le_bytes());
    let decoded = decode(&encoded);
    let canonical = encode(&decoded, decoded.tensor_hash);

    let identity = identity(&encoded).expect("exact identity");

    assert_eq!(identity, sha256(&encoded));
    assert_ne!(identity, sha256(&canonical));
}

#[test]
fn metrics_manifest_identity_rejects_truncation_and_trailing_bytes() {
    let artifact = manifest_artifact();
    let mut encoded = encode(&artifact, artifact.tensor_hash);

    for length in [0, 7, encoded.len() - 1] {
        let error = identity(&encoded[..length]).expect_err("truncated");

        assert_eq!(error, CheckpointError::ManifestTruncated);
        assert_eq!(error.message(), "checkpoint manifest is truncated");
    }
    encoded.push(0);

    let error = identity(&encoded).expect_err("trailing byte");

    assert_eq!(error, CheckpointError::ManifestTrailingBytes);
    assert_eq!(error.message(), "checkpoint manifest has trailing bytes");
}

#[test]
fn metrics_manifest_identity_rejects_magic_and_schema_mismatches() {
    let artifact = manifest_artifact();
    let encoded = encode(&artifact, artifact.tensor_hash);

    for (offset, expected) in [
        (0, CheckpointError::ManifestMagic),
        (8, CheckpointError::SchemaMismatch),
        (12, CheckpointError::SchemaMismatch),
        (20, CheckpointError::SchemaMismatch),
    ] {
        let mut changed = encoded.clone();
        changed[offset] ^= 1;

        let error = identity(&changed).expect_err("invalid header");

        assert_eq!(error, expected);
        let message = if offset == 0 {
            "checkpoint manifest magic is invalid"
        } else {
            "checkpoint schema does not match this build"
        };
        assert_eq!(error.message(), message);
    }
}

#[test]
fn metrics_manifest_identity_rejects_invalid_config_before_returning_a_hash() {
    let mut artifact = manifest_artifact();
    artifact.config.learning_rate = f32::NAN.to_bits();
    let encoded = encode(&artifact, artifact.tensor_hash);

    let error = identity(&encoded).expect_err("invalid config");

    assert_eq!(error, CheckpointError::InvalidManifest("PPO config"));
    assert_eq!(
        error.message(),
        "checkpoint manifest has invalid PPO config"
    );
}

fn manifest_artifact() -> TrainingArtifact {
    TrainingArtifact {
        run: CheckpointRun {
            mastery_config: None,
            git_commit: "metrics-drysua".to_owned(),
            simulator_commit: "metrics-simulator".to_owned(),
            enabled_features: compiled_features(contract().features),
            command_line: "train metrics-fixture --retain-every 1".to_owned(),
            run_seed: 40_008,
            map: MapId(2),
            hero: HeroId(SHADOW_FIEND),
            device: CheckpointDevice::Cpu,
            batch_size: 512,
            rules_audit_version: RULES_AUDIT_VERSION,
        },
        progress: CheckpointProgress {
            mastery: None,
            global_update: 3,
            policy_version: 3,
            scheduler_step: 3,
            curriculum_stage: 0,
            rollout_samples: 2_326,
            best_evaluation: None,
            rng_states: vec![
                RngCheckpoint::new("ppo_actor_sampling".to_owned(), 8, 40).expect("RNG"),
            ],
            league_references: Vec::new(),
        },
        config: PpoConfig {
            sample_budget: PpoSampleBudget::Standard,
            decision_interval_ticks: 3,
            rollout_decisions: 1_163,
            environments: 2,
            epochs: 1,
            minibatch: 512,
            clip_epsilon: 0.2f32.to_bits(),
            value_coefficient: 0.5f32.to_bits(),
            entropy_coefficient: 0.01f32.to_bits(),
            learning_rate: 3.0e-4f32.to_bits(),
            adam_beta1: 0.9f32.to_bits(),
            adam_beta2: 0.999f32.to_bits(),
            adam_epsilon: 1.0e-5f32.to_bits(),
            gradient_clip: 0.5f32.to_bits(),
            gamma_tick: 1.0f32.to_bits(),
            gae_lambda: 0.95f32.to_bits(),
            target_kl: 0.02f32.to_bits(),
        },
        trainer_updates: 3,
        shuffle: ShuffleState { state: 17, draws: 19 },
        parameters: Vec::new(),
        optimizer: CheckpointOptimizer {
            first_moment: Vec::new(),
            second_moment: Vec::new(),
            step: 0,
        },
        tensor_hash: [42; 32],
    }
}

fn complete_artifact() -> TrainingArtifact {
    let mut artifact = manifest_artifact();
    artifact.parameters = vec![1.0f32.to_bits(), 0, 0, (-2.0f32).to_bits()];
    artifact.optimizer.first_moment = vec![0, 0, 0, 0.5f32.to_bits()];
    artifact.optimizer.second_moment = vec![0, 0, 0, 0.25f32.to_bits()];
    artifact
}

#[test]
fn saved_artifacts_load_again() {
    let mut artifact = complete_artifact();
    artifact.run.mastery_config = Some(MasteryConfig::default());
    artifact.progress.mastery = Some(MasteryProgress {
        stage: MasteryStage::Weak,
        games: 6,
        recent: vec![true, false, true],
    });
    artifact.progress.best_evaluation = Some(0.75f64.to_bits());
    artifact.progress.league_references = vec![9, 4];
    let (tensors, hash, manifest) = encode_checkpoint(&contract(), &artifact).expect("files");
    assert_eq!(hash, sha256(&tensors));
    assert_eq!(manifest, encode(&artifact, hash));
    artifact.tensor_hash = hash;

    let opened = open_manifest(&contract(), &manifest, Some(&artifact.run)).expect("manifest");
    assert!(opened.parameters.is_empty());
    let loaded = attach_tensors(&contract(), opened, &tensors, true).expect("artifact");

    assert_eq!(loaded, artifact);
    assert_eq!(loaded.validate(&contract(), true), Ok(()));
    assert_eq!(
        loaded.validate_restore(&contract(), true, &artifact.run, PolicyDevice::Cpu),
        Ok(())
    );
    assert!(loaded
        .validate_restore(&contract(), true, &artifact.run, PolicyDevice::Cuda { ordinal: 0 })
        .is_err());
}

#[test]
fn every_cut_is_truncated_and_every_addition_trails() {
    let mut artifact = manifest_artifact();
    artifact.run.mastery_config = Some(MasteryConfig::default());
    artifact.progress.mastery = Some(MasteryProgress {
        stage: MasteryStage::Teacher,
        games: 6,
        recent: vec![true, false],
    });
    artifact.progress.league_references = vec![9, 4];
    let encoded = encode(&artifact, [42; 32]);
    assert!(decode_manifest(&contract(), &encoded).is_ok());

    for count in 0..encoded.len() {
        assert_eq!(
            decode_manifest(&contract(), &encoded[..count]).unwrap_err(),
            CheckpointError::ManifestTruncated,
            "{count}"
        );
    }
    for more in 1..5 {
        let mut longer = encoded.clone();
        longer.resize(encoded.len() + more, 7);
        assert_eq!(
            decode_manifest(&contract(), &longer).unwrap_err(),
            CheckpointError::ManifestTrailingBytes
        );
    }
}

#[test]
fn the_hash_ends_a_manifest() {
    let mut artifact = manifest_artifact();
    artifact.progress.league_references = vec![5; 300];
    let first = encode(&artifact, [1; 32]);
    let second = encode(&artifact, [2; 32]);
    let start = first.len() - 32;

    assert_eq!(first.len(), second.len());
    assert_eq!(&first[..start], &second[..start]);
    assert_eq!(&first[start..], &[1; 32]);
    assert_eq!(&second[start..], &[2; 32]);
}

#[test]
fn oversized_dimensions_have_no_files() {
    let mut artifact = complete_artifact();
    artifact.config.epochs = 1 << 40;

    assert_eq!(
        encode_checkpoint(&contract(), &artifact).unwrap_err(),
        CheckpointError::InvalidManifest("PPO dimension")
    );
}

#[test]
fn loading_refuses_other_runs_tensors_and_values() {
    let artifact = complete_artifact();
    let tensors = serialize_training_tensors(&artifact).expect("tensors");
    let manifest = encode(&artifact, sha256(&tensors));
    let mut other = artifact.run.duplicate();
    other.run_seed += 1;
    assert_eq!(
        open_manifest(&contract(), &manifest, Some(&other)).unwrap_err(),
        CheckpointError::InvalidManifest("compatibility scope")
    );
    let open = || open_manifest(&contract(), &manifest, None).expect("manifest");

    assert_eq!(
        attach_tensors(&contract(), open(), &tensors[1..], true).unwrap_err(),
        CheckpointError::TensorHashMismatch
    );
    assert_eq!(
        attach_tensors(&contract(), open(), &tensors, false).unwrap_err(),
        CheckpointError::InvalidManifest("PPO config")
    );
    let mut negative = complete_artifact();
    negative.optimizer.second_moment[0] = (-1.0f32).to_bits();
    assert_eq!(
        negative.validate(&contract(), true),
        Err(CheckpointError::InvalidManifest("optimizer or RNG state"))
    );
    let mut short = complete_artifact();
    short.parameters.pop();
    assert_eq!(
        short.validate(&contract(), true),
        Err(CheckpointError::TensorContract("element count"))
    );
    let mut broken = complete_artifact();
    broken.optimizer.first_moment[2] = f32::INFINITY.to_bits();
    assert_eq!(
        broken.validate(&contract(), true),
        Err(CheckpointError::NonFiniteTensor { name: "adam.first_moment", index: 2 })
    );
}

#[test]
fn progress_faults_are_named() {
    let changes: [InvalidFieldCase<TrainingArtifact>; 9] = [
        (|a| a.progress.global_update = 4, "global update"),
        (|a| a.progress.scheduler_step = 1_000_000_001, "scheduler step"),
        (|a| a.progress.policy_version = 5, "policy or curriculum counter"),
        (|a| a.progress.curriculum_stage = 1_025, "policy or curriculum counter"),
        (|a| a.progress.rollout_samples = 4 * 65_536 + 1, "rollout sample counter"),
        (|a| a.progress.best_evaluation = Some(f64::NAN.to_bits()), "best evaluation"),
        (|a| a.progress.league_references = vec![1; 33], "bounded collection"),
        (
            |a| {
                let copy = a.progress.rng_states[0].duplicate();
                a.progress.rng_states.push(copy);
            },
            "duplicate RNG name",
        ),
        (|a| a.progress.league_references = vec![3, 3], "league references"),
    ];

    for (change, field) in changes {
        let mut artifact = complete_artifact();
        change(&mut artifact);

        assert_eq!(
            artifact.validate(&contract(), true),
            Err(CheckpointError::InvalidManifest(field))
        );
    }
}

#[test]
fn captures_carry_the_model_snapshot() {
    let base = complete_artifact();
    let optimizer = || CheckpointOptimizer {
        first_moment: vec![0; 4],
        second_moment: vec![0; 4],
        step: 9,
    };
    let capture = |device: PolicyDevice, snapshot| {
        TrainingArtifact::capture(
            &contract(),
            device,
            base.config,
            true,
            3,
            base.shuffle,
            base.run.duplicate(),
            manifest_artifact().progress,
            snapshot,
        )
    };

    let captured =
        capture(PolicyDevice::Cpu, Ok((base.parameters.clone(), optimizer()))).expect("artifact");
    assert_eq!(captured.tensor_hash, [0; 32]);
    assert_eq!(captured.optimizer.step, 9);
    assert_eq!(captured.run(), &base.run);
    assert_eq!(captured.progress().global_update, 3);
    assert_eq!(
        capture(PolicyDevice::Cpu, Err("offline".to_owned())).unwrap_err(),
        CheckpointError::Model("offline".to_owned())
    );
    assert!(capture(PolicyDevice::Metal { ordinal: 0 }, Ok((vec![], optimizer()))).is_err());
}

#[test]
fn mastery_scopes_are_checked() {
    let config = Some(MasteryConfig::default());
    let progress = |stage, games, recent: usize| {
        Some(MasteryProgress { stage, games, recent: vec![true; recent] })
    };
    let invalid = |field| Err(CheckpointError::InvalidManifest(field));

    assert_eq!(validate_scope(None, &None, 5, 2), Ok(()));
    assert_eq!(validate_scope(config, &progress(MasteryStage::Weak, 10, 10), 5, 2), Ok(()));
    assert_eq!(
        validate_scope(config, &None, 5, 2),
        invalid("mastery configuration/state mismatch")
    );
    assert_eq!(
        validate_scope(config, &progress(MasteryStage::Weak, 10, 11), 5, 2),
        invalid("mastery window outcomes")
    );
    assert_eq!(
        validate_scope(config, &progress(MasteryStage::Weak, 10, 10), 5, 3),
        invalid("mastery environment count")
    );
    assert_eq!(
        validate_scope(config, &progress(MasteryStage::Weak, 10, 10), u64::MAX, 2),
        invalid("mastery total game counter")
    );
    assert_eq!(
        validate_scope(config, &progress(MasteryStage::Weak, 12, 10), 5, 2),
        invalid("mastery game count exceeds updates")
    );
    assert_eq!(
        validate_scope(config, &progress(MasteryStage::Weak, 8, 8), 5, 2),
        invalid("mastery stage/game counters")
    );
    assert_eq!(
        validate_scope(config, &progress(MasteryStage::Teacher, 10, 10), 29, 2),
        invalid("mastery stage/game counters")
    );
    assert_eq!(
        validate_scope(config, &progress(MasteryStage::Teacher, 10, 10), 30, 2),
        Ok(())
    );
    assert!(MasteryConfig::from_resolved(0, 80, 80).is_err());
    assert!(MasteryConfig::from_resolved(1_025, 80, 80).is_err());
    assert!(MasteryConfig::from_resolved(50, 101, 80).is_err());
    assert_eq!(MasteryStage::Completed.code(), 2);
}
