use drysua::archive::{
    archive_contents, archive_texts, encode_f32, is_header_bounded, serialize_named_tensors,
    vector_tensor,
};
use drysua::artifact::decode_training_tensors;
use drysua::digest::{generation_name, hex, is_tensor_generation, same_digest};
use drysua::manifest::{validate_text, CheckpointError, ManifestReader, ManifestWriter};
use drysua::sources::{
    decode_parameters, decode_runtime_tensor, decode_selected, decode_selected_m10_training_tensor,
    decode_selected_m11_training_tensor, decode_selected_m12_training_tensor,
    decode_selected_m14_map2_tensor, decode_selected_m16_navigation_tensor,
    decode_selected_m17_wait_tensor, decode_selected_m19_nonwin_tensor,
    decode_selected_m21_terminal_tensor, refuse_retired, serialize_runtime_tensor,
    terminal_description, Map2InitializationProvenance, Map2NavigationInitializationProvenance,
    Map2NonwinInitializationProvenance, Map2WaitInitializationProvenance, PinnedSource,
    RewardIdentity, SelectedWeights, TargetVersions, TupleIdentity, M14_PARAMETER_COUNT,
};
use drysua::storage::{
    backup_name, preflight_entry, prune_entry, recoverable_source, replace_steps,
    runtime_tensor_limit, temporary_name, training_tensor_limit, validate_directory,
    validate_file_kind, validate_file_length, validate_file_size, validate_immutable,
    CheckpointSaveOutcome, EntryAction, FileKind, ReadSource, ReplaceStep,
};
use sha2::{Digest, Sha256};

fn identity() -> TupleIdentity {
    TupleIdentity {
        action: "1".to_owned(),
        feature: "2".to_owned(),
        model: "3".to_owned(),
        ppo_version: "4".to_owned(),
        ppo_hash: "5".to_owned(),
        rules: "6".to_owned(),
        reward: Some(RewardIdentity {
            version: "7".to_owned(),
            hash: "8".to_owned(),
            descriptor: "reward \"one\"\n".to_owned(),
        }),
    }
}

fn values() -> Vec<u32> {
    vec![1.0f32.to_bits(), (-0.5f32).to_bits(), 0, 0x8000_0000]
}

#[test]
fn runtime_weights_load_as_written() {
    let bytes = serialize_runtime_tensor(&values(), &identity()).expect("archive");

    assert_eq!(decode_runtime_tensor(&bytes, &identity(), 4), Ok(values()));
    let mut texts = archive_texts(&bytes).expect("texts").expect("metadata");
    texts.sort();
    assert_eq!(texts.len(), 9);
    assert_eq!(texts[0], ("action_schema_hash".to_owned(), "1".to_owned()));
    assert!(texts.contains(&(
        "map2_reward_schema_descriptor".to_owned(),
        "reward \"one\"\n".to_owned()
    )));
}

#[test]
fn runtime_weights_are_refused_by_schema_shape_and_value() {
    let bytes = serialize_runtime_tensor(&values(), &identity()).expect("archive");
    let mut other = identity();
    other.rules = "9".to_owned();
    let mut bare = identity();
    bare.reward = None;

    assert_eq!(
        decode_runtime_tensor(&bytes, &other, 4),
        Err(CheckpointError::SchemaMismatch)
    );
    assert_eq!(
        decode_runtime_tensor(&bytes, &bare, 4),
        Err(CheckpointError::SchemaMismatch)
    );
    assert_eq!(
        decode_runtime_tensor(&bytes, &identity(), 5),
        Err(CheckpointError::TensorContract("dtype or shape"))
    );
    assert!(matches!(
        decode_runtime_tensor(&bytes[..20], &identity(), 4),
        Err(CheckpointError::Backend(_))
    ));
    assert!(matches!(
        decode_runtime_tensor(&[], &identity(), 4),
        Err(CheckpointError::Backend(_))
    ));
    assert_eq!(
        serialize_runtime_tensor(&vec![0, f32::NAN.to_bits()], &identity()),
        Err(CheckpointError::NonFiniteTensor { name: "model.parameters", index: 1 })
    );
}

#[test]
fn archives_hold_named_tensors() {
    let list = vec![
        vector_tensor("adam.first_moment", &values()),
        vector_tensor("adam.second_moment", &values()),
        vector_tensor("model.parameters", &values()),
    ];
    let bytes = serialize_named_tensors(&list, None).expect("archive");

    assert!(is_header_bounded(&bytes));
    assert_eq!(archive_texts(&bytes), Ok(None));
    let mut read = archive_contents(&bytes).expect("tensors");
    read.sort_by(|left, right| left.name.cmp(&right.name));
    assert_eq!(read, list);
    let decoded = decode_training_tensors(&bytes, 4).expect("decoded");
    assert_eq!(decoded.parameters, values());
    assert_eq!(decoded.second_moment, values());
    assert_eq!(
        decode_training_tensors(&bytes, 3),
        Err(CheckpointError::TensorContract("dtype or shape"))
    );
    let few = serialize_named_tensors(&list[..1].iter().map(|_| vector_tensor("other", &values())).collect(), None)
        .expect("archive");
    assert_eq!(
        decode_training_tensors(&few, 4),
        Err(CheckpointError::TensorContract("names"))
    );
    assert_eq!(encode_f32(&vec![0x0403_0201]), vec![1, 2, 3, 4]);
}

fn headed(header: &str, data: usize) -> Vec<u8> {
    let mut bytes = (header.len() as u64).to_le_bytes().to_vec();
    bytes.extend_from_slice(header.as_bytes());
    bytes.resize(bytes.len() + data, 0);
    bytes
}

#[test]
fn offsets_that_leave_no_room_are_refused() {
    let header = format!(
        "{{\"x\":{{\"dtype\":\"U8\",\"shape\":[0],\"data_offsets\":[{0}, {0} ]}}}}",
        usize::MAX
    );
    let bytes = headed(&header, 4);

    assert!(!is_header_bounded(&bytes));
    assert_eq!(
        archive_contents(&bytes),
        Err(CheckpointError::Backend(
            "tensor header declares a size past the supported range".to_owned()
        ))
    );
}

#[test]
fn long_numbers_elsewhere_are_no_obstacle() {
    let largest = usize::MAX;
    let accepted = [
        format!("{{\"x\":{{\"dtype\":\"F32\",\"shape\":[1],\"data_offsets\":[0,4],\"note\":{largest}}}}}"),
        format!("{{\"__metadata__\":{{\"[{largest},{largest}]\":\"\\\"\"}},\"x\":{{\"dtype\":\"F32\",\"shape\":[1],\"data_offsets\":[0,4]}}}}"),
        format!("{{\"x\":{{\"dtype\":\"F32\",\"shape\":[1],\"data_offsets\":[0,4]}},\"y\":{{\"dtype\":\"F32\",\"shape\":[0,{largest}],\"data_offsets\":[4,4]}}}}"),
    ];
    let refused = [
        "{\"x\":{\"dtype\":\"F32\",\"shape\":[99999999999999999999],\"data_offsets\":[0,4]}}".to_owned(),
        format!("{{\"x\":{{\"dtype\":\"F32\",\"shape\":[1],\"data_offsets\":[0,{largest}]}}}}"),
    ];

    for header in accepted {
        let read = archive_contents(&headed(&header, 4)).expect("archive");
        assert_eq!(read.iter().map(|tensor| tensor.data.len()).sum::<usize>(), 4, "{header}");
    }
    for header in refused {
        assert!(is_header_bounded(&headed(&header, 4)));
        assert!(matches!(
            archive_contents(&headed(&header, 4)),
            Err(CheckpointError::Backend(_))
        ));
    }
}

fn pinned(digest: String, count: usize) -> PinnedSource {
    PinnedSource { identity: identity(), digests: vec![digest.leak()], count }
}

#[test]
fn selected_weights_are_pinned_by_digest() {
    let bytes = serialize_runtime_tensor(&values(), &identity()).expect("archive");
    let digest: [u8; 32] = Sha256::digest(&bytes).into();
    let mut stranger = pinned(hex(&digest), 4);
    stranger.identity.action = "0".to_owned();

    let read = decode_selected(&bytes, &vec![stranger, pinned(hex(&digest), 4)], "source")
        .expect("weights");

    assert_eq!(read.parameters, values());
    assert_eq!(read.digest, digest);
    assert_eq!(read.source, 1);
    assert_eq!(
        decode_selected(&bytes, &vec![pinned("00".repeat(32), 4)], "source").unwrap_err(),
        CheckpointError::TensorContract("source")
    );
    assert_eq!(
        decode_selected(&bytes, &vec![], "source").unwrap_err(),
        CheckpointError::SchemaMismatch
    );
    assert_eq!(
        refuse_retired(Ok(SelectedWeights { parameters: vec![], digest, source: 0 })),
        CheckpointError::SchemaMismatch
    );
    assert_eq!(
        refuse_retired(Err(CheckpointError::TensorHashMismatch)),
        CheckpointError::TensorHashMismatch
    );
    let list = archive_contents(&bytes).expect("tensors");
    assert_eq!(decode_parameters(&list, 4), Ok(values()));
}

#[test]
fn every_generation_refuses_foreign_weights() {
    let bytes = serialize_runtime_tensor(&values(), &identity()).expect("archive");
    let mismatch = Some(CheckpointError::SchemaMismatch);

    assert_eq!(decode_selected_m10_training_tensor(&bytes).err(), mismatch);
    assert_eq!(decode_selected_m11_training_tensor(&bytes).err(), mismatch);
    assert_eq!(decode_selected_m12_training_tensor(&bytes).err(), mismatch);
    assert_eq!(decode_selected_m14_map2_tensor(&bytes).err(), mismatch);
    assert_eq!(decode_selected_m16_navigation_tensor(&bytes).err(), mismatch);
    assert_eq!(decode_selected_m17_wait_tensor(&bytes).err(), mismatch);
    assert_eq!(decode_selected_m19_nonwin_tensor(&bytes).err(), mismatch);
    assert_eq!(decode_selected_m21_terminal_tensor(&bytes, "reward").err(), mismatch);
    assert_eq!(
        Map2NavigationInitializationProvenance::from_source_sha256([0; 32]).unwrap_err(),
        CheckpointError::TensorContract("selected M16 navigation initialization source SHA-256")
    );
    assert_eq!(
        Map2WaitInitializationProvenance::from_source_sha256([0; 32]).unwrap_err(),
        CheckpointError::TensorContract("selected M17 wait initialization source SHA-256")
    );
    assert_eq!(
        Map2NonwinInitializationProvenance::from_source_sha256([0; 32]).unwrap_err(),
        CheckpointError::TensorContract("selected M19 nonwin initialization source SHA-256")
    );
}

#[test]
fn descriptions_name_source_and_target() {
    let target = TargetVersions {
        feature: 22,
        action: 5,
        model: 24,
        ppo: 37,
        rules: 32,
        reward_version: 7,
        reward_hash: 12_345,
        parameter_count: M14_PARAMETER_COUNT + 10,
        global_features: 92,
    };
    let provenance = Map2InitializationProvenance {
        source_sha256: [0xab; 32],
        source_ppo_schema_version: 27,
        source_ppo_rules_audit_version: 22,
    };

    assert_eq!(
        provenance.description(target),
        format!(
            "INITIALIZATION_ONLY source_m14_sha256={} source_ppo=27 source_rules=22 target_f=22 target_a=5 target_m=24 target_ppo=37 target_rules=32 reward_version=7 reward_hash=12345 old_parameter_bits_preserved=true new_weights=10_positive_zero optimizer_progress_rng_league=fresh gameplay_equivalence=false qualification=false",
            "ab".repeat(32)
        )
    );
    let other = Map2InitializationProvenance { source_sha256: [0xac; 32], ..provenance };
    assert_ne!(provenance.description(target), other.description(target));
    assert_eq!(validate_text("command line", &provenance.description(target)), Ok(()));
    let text = terminal_description(target);
    assert!(text.contains(" target_reward=7 target_reward_hash=12345 "));
    assert!(text.starts_with("INITIALIZATION_ONLY source_m21_u300_sha256=b29752ac"));
}

#[test]
fn digests_name_generations() {
    let digest: [u8; 32] = Sha256::digest(b"tensors").into();
    let name = generation_name(&digest);

    assert_eq!(name, format!("checkpoint.{}.safetensors", hex(&digest)));
    assert!(is_tensor_generation(&name));
    assert!(is_tensor_generation(&name.replace(&hex(&digest), &hex(&digest).to_uppercase())));
    assert!(!is_tensor_generation("checkpoint.safetensors"));
    assert!(!is_tensor_generation(&name.replace("checkpoint.", "checkpoint_")));
    assert!(same_digest(&digest, &digest));
    assert!(!same_digest(&digest, &[0; 32]));
    assert_eq!(hex(&[0, 0x1f, 0xff]), "001fff");
}

#[test]
fn only_old_generations_are_pruned() {
    let kept = [1; 32];
    let old = generation_name(&[2; 32]);
    let invalid = |field| Err(CheckpointError::InvalidManifest(field));

    assert_eq!(prune_entry(0, &old, FileKind::File, &kept), Ok(EntryAction::Remove));
    assert_eq!(
        prune_entry(0, &generation_name(&kept), FileKind::File, &kept),
        Ok(EntryAction::Keep)
    );
    assert_eq!(
        prune_entry(0, "checkpoint.meta", FileKind::File, &kept),
        Ok(EntryAction::Keep)
    );
    assert_eq!(
        prune_entry(0, &old, FileKind::Link, &kept).map(|_| ()),
        invalid("generation file type")
    );
    assert_eq!(
        prune_entry(128, &old, FileKind::File, &kept).map(|_| ()),
        invalid("artifact file count")
    );
    assert_eq!(preflight_entry(0, &old, FileKind::File), Ok(()));
    assert_eq!(preflight_entry(0, &old, FileKind::Directory), invalid("generation file type"));
    assert_eq!(preflight_entry(128, &old, FileKind::File), invalid("artifact file count"));
}

#[test]
fn files_are_checked_before_they_are_read() {
    let invalid = |field| Err(CheckpointError::InvalidManifest(field));

    assert_eq!(validate_directory(FileKind::Directory), Ok(()));
    assert_eq!(validate_directory(FileKind::Link), invalid("checkpoint directory"));
    assert_eq!(validate_file_kind(FileKind::File), Ok(()));
    assert_eq!(validate_file_kind(FileKind::Special), invalid("artifact file type"));
    assert_eq!(validate_file_size(10, 10), Ok(()));
    assert_eq!(validate_file_size(11, 10), invalid("file size"));
    assert_eq!(validate_file_length(&[1, 2], 2), Ok(()));
    assert_eq!(validate_file_length(&[1, 2], 3), invalid("file length"));
    assert_eq!(validate_immutable(&[1], &[1]), Ok(()));
    assert_eq!(validate_immutable(&[1], &[2]), Err(CheckpointError::TensorHashMismatch));
    assert_eq!(training_tensor_limit(10), 65_656);
    assert_eq!(runtime_tensor_limit(10), 16_424);
}

#[test]
fn replacements_keep_a_readable_file() {
    assert_eq!(
        replace_steps(true, false),
        vec![
            ReplaceStep::WriteTemporary,
            ReplaceStep::TargetToBackup,
            ReplaceStep::SyncParent,
            ReplaceStep::TemporaryToTarget,
            ReplaceStep::SyncParent,
            ReplaceStep::RemoveBackup,
        ]
    );
    assert_eq!(replace_steps(false, false).len(), 3);
    for target in [true, false] {
        for backup in [true, false] {
            let mut files = (
                if target { Some("old") } else { None },
                if backup { Some("older") } else { None },
                None,
            );
            for step in replace_steps(target, backup) {
                match step {
                    ReplaceStep::WriteTemporary => files.2 = Some("new"),
                    ReplaceStep::RemoveBackup => files.1 = None,
                    ReplaceStep::TargetToBackup => files.1 = files.0.take(),
                    ReplaceStep::TemporaryToTarget => files.0 = files.2.take(),
                    ReplaceStep::SyncParent => {}
                }
                assert!(!(target || backup) || files.0.or(files.1).is_some());
            }
            assert_eq!(files, (Some("new"), None, None));
        }
    }
    assert_eq!(recoverable_source(true), ReadSource::Target);
    assert_eq!(recoverable_source(false), ReadSource::Backup);
    assert_eq!(backup_name("checkpoint.meta"), "checkpoint.meta.previous");
    assert_eq!(temporary_name("checkpoint.meta", 12, 3), "checkpoint.meta.tmp-12-3");
}

#[test]
fn saves_report_their_cleanup() {
    assert_eq!(CheckpointSaveOutcome::after_cleanup(Ok(())), CheckpointSaveOutcome::Committed);
    assert_eq!(
        CheckpointSaveOutcome::after_cleanup(Err(CheckpointError::TensorHashMismatch)),
        CheckpointSaveOutcome::CommittedWithCleanupError(
            CheckpointError::TensorHashMismatch.message()
        )
    );
}

#[test]
fn manifest_fields_read_back() {
    let mut writer = ManifestWriter::new();
    writer.u8(7);
    writer.u16(0x0102);
    writer.u32(9);
    writer.u64(u64::MAX);
    writer.option_f64(Some(0.5f64.to_bits()));
    writer.option_f64(None);
    writer.string("naïve ✓").expect("text");
    writer.raw(&[1, 2]);
    let bytes = writer.bytes;
    let mut reader = ManifestReader::new(&bytes);

    assert_eq!(&bytes[..3], &[7, 2, 1]);
    assert_eq!(reader.u8(), Ok(7));
    assert_eq!(reader.u16(), Ok(0x0102));
    assert_eq!(reader.u32(), Ok(9));
    assert_eq!(reader.u64(), Ok(u64::MAX));
    assert_eq!(reader.option_f64(), Ok(Some(0.5f64.to_bits())));
    assert_eq!(reader.option_f64(), Ok(None));
    assert_eq!(reader.string(), Ok("naïve ✓".to_owned()));
    assert_eq!(reader.finish(), Err(CheckpointError::ManifestTrailingBytes));
    assert_eq!(reader.take(2), Ok([1, 2].as_slice()));
    assert_eq!(reader.finish(), Ok(()));
    assert_eq!(reader.u8(), Err(CheckpointError::ManifestTruncated));
}

#[test]
fn malformed_texts_are_refused() {
    let read = |bytes: &[u8]| ManifestReader::new(bytes).string();
    let mut writer = ManifestWriter::new();

    assert!(writer.string("").is_err());
    assert!(writer.string("a\tb").is_err());
    assert!(matches!(read(&[1, 0, 0xff]), Err(CheckpointError::InvalidManifest(_))));
    assert_eq!(read(&[4, 0, b'a']), Err(CheckpointError::ManifestTruncated));
    assert!(ManifestReader::new(&[9]).bounded_count(8).is_err());
    assert_eq!(ManifestReader::new(&[8]).bounded_count(8), Ok(8));
}

#[test]
fn checkpoint_failures_are_described() {
    let cases = [
        (CheckpointError::Io("x".to_owned()), "checkpoint I/O failed: x"),
        (CheckpointError::ManifestTruncated, "checkpoint manifest is truncated"),
        (CheckpointError::ManifestMagic, "checkpoint manifest magic is invalid"),
        (CheckpointError::ManifestTrailingBytes, "checkpoint manifest has trailing bytes"),
        (CheckpointError::InvalidManifest("map"), "checkpoint manifest has invalid map"),
        (CheckpointError::SchemaMismatch, "checkpoint schema does not match this build"),
        (
            CheckpointError::TensorHashMismatch,
            "checkpoint tensor SHA-256 does not match manifest",
        ),
        (CheckpointError::TensorContract("names"), "checkpoint tensor contract has invalid names"),
        (
            CheckpointError::NonFiniteTensor { name: "model.parameters", index: 1 },
            "checkpoint tensor model.parameters contains non-finite value at 1",
        ),
        (CheckpointError::Backend("x".to_owned()), "checkpoint safetensors failed: x"),
        (CheckpointError::Model("x".to_owned()), "checkpoint model restore failed: x"),
    ];

    for (error, text) in cases {
        assert_eq!(error.message(), text);
    }
}
