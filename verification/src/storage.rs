//! Checkpoint files: accepted sizes, names, pruning, and replacement that a crash cannot undo.
use crate::digest::{generation_name, generation_name_of, is_tensor_generation, names_generation};
use crate::manifest::{checked, invalid, same_bytes, CheckpointError};
use crate::text::{decimal, owned, with_decimal, with_text};
use vstd::prelude::*;

verus! {

/// File of the current training tensors.
pub const CHECKPOINT_TENSOR_FILE: &'static str = "checkpoint.safetensors";
/// File of the current manifest.
pub const CHECKPOINT_META_FILE: &'static str = "checkpoint.meta";
/// File of runtime weights.
pub const RUNTIME_TENSOR_FILE: &'static str = "drysua.weights.safetensors";
/// Largest manifest.
pub const MAX_META_BYTES: u64 = 65_536;
/// Directory entries that saving and pruning look at.
pub const MAX_ARTIFACT_FILES: usize = 128;

/// Outcome of a save: files are durable once it is either of these.
#[derive(Clone, Debug, PartialEq, Eq)]
pub enum CheckpointSaveOutcome {
    Committed,
    CommittedWithCleanupError(String),
}

impl CheckpointSaveOutcome {
    /// Outcome of a save whose files are durable, by the outcome of its cleanup.
    pub fn after_cleanup(cleanup: Result<(), CheckpointError>) -> (r: Self)
        ensures
            match cleanup {
                Ok(()) => r == CheckpointSaveOutcome::Committed,
                Err(error) => r matches CheckpointSaveOutcome::CommittedWithCleanupError(text)
                    && text@ == error.message_spec(),
            },
    {
        match cleanup {
            Ok(()) => CheckpointSaveOutcome::Committed,
            Err(error) => CheckpointSaveOutcome::CommittedWithCleanupError(error.message()),
        }
    }
}

/// What a path names, without following links.
#[derive(Clone, Copy, Debug, PartialEq, Eq, Structural)]
pub enum FileKind {
    File,
    Directory,
    Link,
    Special,
}

/// Checks that a checkpoint path is a plain directory.
pub fn validate_directory(kind: FileKind) -> (r: Result<(), CheckpointError>)
    ensures
        r == (if kind == FileKind::Directory {
            Ok(())
        } else {
            Err::<(), CheckpointError>(invalid("checkpoint directory"))
        }),
{
    if kind != FileKind::Directory {
        return Err(CheckpointError::InvalidManifest("checkpoint directory"));
    }
    Ok(())
}

/// Checks that an artifact path is a plain file.
pub fn validate_file_kind(kind: FileKind) -> (r: Result<(), CheckpointError>)
    ensures
        r == (if kind == FileKind::File {
            Ok(())
        } else {
            Err::<(), CheckpointError>(invalid("artifact file type"))
        }),
{
    if kind != FileKind::File {
        return Err(CheckpointError::InvalidManifest("artifact file type"));
    }
    Ok(())
}

/// Checks the declared length of a file against its bound.
pub fn validate_file_size(length: u64, maximum: u64) -> (r: Result<(), CheckpointError>)
    ensures
        r == (if 0 < length <= maximum {
            Ok(())
        } else {
            Err::<(), CheckpointError>(invalid("file size"))
        }),
{
    if length == 0 || length > maximum {
        return Err(CheckpointError::InvalidManifest("file size"));
    }
    Ok(())
}

/// Checks that exactly the declared bytes were read.
pub fn validate_file_length(bytes: &[u8], length: u64) -> (r: Result<(), CheckpointError>)
    ensures
        r == (if bytes@.len() == length {
            Ok(())
        } else {
            Err::<(), CheckpointError>(invalid("file length"))
        }),
{
    if bytes.len() as u64 != length {
        return Err(CheckpointError::InvalidManifest("file length"));
    }
    Ok(())
}

/// Largest file of training tensors: three words per parameter and a header.
pub fn training_tensor_limit(parameter_count: u32) -> (r: u64)
    ensures
        r == parameter_count * 12 + 65_536,
{
    parameter_count as u64 * 12 + 65_536
}

/// Largest file of runtime weights: one word per parameter and a header.
pub fn runtime_tensor_limit(parameter_count: u32) -> (r: u64)
    ensures
        r == parameter_count * 4 + 16_384,
{
    parameter_count as u64 * 4 + 16_384
}

/// Checks that an immutable file that exists already holds exactly the bytes to write.
pub fn validate_immutable(existing: &[u8], bytes: &[u8]) -> (r: Result<(), CheckpointError>)
    ensures
        r == (if existing@ == bytes@ {
            Ok(())
        } else {
            Err::<(), CheckpointError>(CheckpointError::TensorHashMismatch)
        }),
{
    if !same_bytes(existing, bytes) {
        return Err(CheckpointError::TensorHashMismatch);
    }
    Ok(())
}

/// Name of the previous version of a file.
pub fn backup_name(name: &str) -> (r: String)
    ensures
        r@ == name@ + ".previous"@,
{
    with_text(owned(name), ".previous")
}

/// Name of a file that is being written by a process.
pub fn temporary_name(name: &str, process: u32, sequence: u64) -> (r: String)
    ensures
        r@ == name@ + ".tmp-"@ + decimal(process as nat) + "-"@ + decimal(sequence as nat),
{
    with_decimal(
        with_text(with_decimal(with_text(owned(name), ".tmp-"), process as u64), "-"),
        sequence,
    )
}

/// What to do with one directory entry.
#[derive(Clone, Copy, Debug, PartialEq, Eq, Structural)]
pub enum EntryAction {
    Keep,
    Remove,
}

/// What pruning does with one directory entry: only other tensor generations leave.
pub open spec fn prune_decision(
    index: usize,
    name: Seq<char>,
    kind: FileKind,
    retained: Seq<u8>,
) -> Result<EntryAction, CheckpointError> {
    if index >= MAX_ARTIFACT_FILES {
        Err(invalid("artifact file count"))
    } else if name == generation_name_of(retained) || !names_generation(name) {
        Ok(EntryAction::Keep)
    } else if kind != FileKind::File {
        Err(invalid("generation file type"))
    } else {
        Ok(EntryAction::Remove)
    }
}

/// What pruning does with one directory entry.
pub fn prune_entry(index: usize, name: &str, kind: FileKind, retained: &[u8; 32]) -> (r: Result<
    EntryAction,
    CheckpointError,
>)
    ensures
        r == prune_decision(index, name@, kind, retained@),
{
    if index >= MAX_ARTIFACT_FILES {
        return Err(CheckpointError::InvalidManifest("artifact file count"));
    }
    let kept = generation_name(retained);
    if owned(name) == kept || !is_tensor_generation(name) {
        return Ok(EntryAction::Keep);
    }
    if kind != FileKind::File {
        return Err(CheckpointError::InvalidManifest("generation file type"));
    }
    Ok(EntryAction::Remove)
}

/// Whether saving may go on past one directory entry.
pub open spec fn preflight_fault(index: usize, name: Seq<char>, kind: FileKind) -> Option<
    CheckpointError,
> {
    if index >= MAX_ARTIFACT_FILES {
        Some(invalid("artifact file count"))
    } else if names_generation(name) && kind != FileKind::File {
        Some(invalid("generation file type"))
    } else {
        None
    }
}

/// Checks one directory entry before anything is written.
pub fn preflight_entry(index: usize, name: &str, kind: FileKind) -> (r: Result<
    (),
    CheckpointError,
>)
    ensures
        r == checked(preflight_fault(index, name@, kind)),
{
    if index >= MAX_ARTIFACT_FILES {
        return Err(CheckpointError::InvalidManifest("artifact file count"));
    }
    if is_tensor_generation(name) && kind != FileKind::File {
        return Err(CheckpointError::InvalidManifest("generation file type"));
    }
    Ok(())
}

/// The retained generation never leaves, and neither does a file that is no generation.
pub proof fn pruning_keeps_what_is_needed(
    index: usize,
    name: Seq<char>,
    kind: FileKind,
    retained: Seq<u8>,
)
    requires
        prune_decision(index, name, kind, retained) == Ok::<EntryAction, CheckpointError>(
            EntryAction::Remove,
        ),
    ensures
        name != generation_name_of(retained),
        names_generation(name),
        kind == FileKind::File,
{
}

/// One step of replacing a file through a temporary one.
#[derive(Clone, Copy, Debug, PartialEq, Eq, Structural)]
pub enum ReplaceStep {
    WriteTemporary,
    RemoveBackup,
    TargetToBackup,
    TemporaryToTarget,
    SyncParent,
}

/// Contents of the three files that a replacement touches.
#[verifier::ext_equal]
pub struct ReplaceFiles {
    pub target: Option<Seq<u8>>,
    pub backup: Option<Seq<u8>>,
    pub temporary: Option<Seq<u8>>,
}

impl ReplaceFiles {
    /// What a reader gets: the target, else the backup.
    pub open spec fn readable(self) -> Option<Seq<u8>> {
        if self.target is Some {
            self.target
        } else {
            self.backup
        }
    }

    /// Files after one step.
    pub open spec fn after(self, step: ReplaceStep, bytes: Seq<u8>) -> ReplaceFiles {
        match step {
            ReplaceStep::WriteTemporary => ReplaceFiles { temporary: Some(bytes), ..self },
            ReplaceStep::RemoveBackup => ReplaceFiles { backup: None, ..self },
            ReplaceStep::TargetToBackup => ReplaceFiles {
                target: None,
                backup: self.target,
                ..self
            },
            ReplaceStep::TemporaryToTarget => ReplaceFiles {
                target: self.temporary,
                temporary: None,
                ..self
            },
            ReplaceStep::SyncParent => self,
        }
    }

    /// Files after the first steps of a list.
    pub open spec fn after_all(self, steps: Seq<ReplaceStep>, bytes: Seq<u8>) -> ReplaceFiles
        decreases steps.len(),
    {
        if steps.len() == 0 {
            self
        } else {
            self.after_all(steps.drop_last(), bytes).after(steps.last(), bytes)
        }
    }
}

/// Steps that replace a file, by what exists before.
pub open spec fn replace_plan(target: bool, backup: bool) -> Seq<ReplaceStep> {
    if target && backup {
        seq![
            ReplaceStep::WriteTemporary,
            ReplaceStep::RemoveBackup,
            ReplaceStep::TargetToBackup,
            ReplaceStep::SyncParent,
            ReplaceStep::TemporaryToTarget,
            ReplaceStep::SyncParent,
            ReplaceStep::RemoveBackup,
        ]
    } else if target {
        seq![
            ReplaceStep::WriteTemporary,
            ReplaceStep::TargetToBackup,
            ReplaceStep::SyncParent,
            ReplaceStep::TemporaryToTarget,
            ReplaceStep::SyncParent,
            ReplaceStep::RemoveBackup,
        ]
    } else if backup {
        seq![
            ReplaceStep::WriteTemporary,
            ReplaceStep::TemporaryToTarget,
            ReplaceStep::SyncParent,
            ReplaceStep::RemoveBackup,
        ]
    } else {
        seq![
            ReplaceStep::WriteTemporary,
            ReplaceStep::TemporaryToTarget,
            ReplaceStep::SyncParent,
        ]
    }
}

/// Steps that replace a file, by what exists before.
pub fn replace_steps(target: bool, backup: bool) -> (r: Vec<ReplaceStep>)
    ensures
        r@ == replace_plan(target, backup),
{
    let mut steps = vec![ReplaceStep::WriteTemporary];
    if target {
        if backup {
            steps.push(ReplaceStep::RemoveBackup);
        }
        steps.push(ReplaceStep::TargetToBackup);
        steps.push(ReplaceStep::SyncParent);
    }
    steps.push(ReplaceStep::TemporaryToTarget);
    steps.push(ReplaceStep::SyncParent);
    if target || backup {
        steps.push(ReplaceStep::RemoveBackup);
    }
    assert(steps@ =~= replace_plan(target, backup));
    steps
}

proof fn lemma_step(files: ReplaceFiles, steps: Seq<ReplaceStep>, bytes: Seq<u8>, count: int)
    requires
        0 < count <= steps.len(),
    ensures
        files.after_all(steps.take(count), bytes) == files.after_all(
            steps.take(count - 1),
            bytes,
        ).after(steps[count - 1], bytes),
{
    assert(steps.take(count).drop_last() =~= steps.take(count - 1));
    assert(steps.take(count).last() == steps[count - 1]);
}

/// However far a replacement gets, a reader finds the old bytes or the new ones, and after the
/// last step the new ones alone are left.
pub proof fn interrupted_replacements_stay_readable(
    files: ReplaceFiles,
    bytes: Seq<u8>,
    count: int,
)
    requires
        0 <= count <= replace_plan(files.target is Some, files.backup is Some).len(),
    ensures
        ({
            let steps = replace_plan(files.target is Some, files.backup is Some);
            let reached = files.after_all(steps.take(count), bytes);
            &&& reached.readable() == files.readable() || reached.readable() == Some(bytes)
            &&& count == steps.len() ==> reached == (ReplaceFiles {
                target: Some(bytes),
                backup: None,
                temporary: None,
            })
        }),
{
    let steps = replace_plan(files.target is Some, files.backup is Some);
    assert(steps.take(0) =~= Seq::<ReplaceStep>::empty());
    if count >= 1 {
        lemma_step(files, steps, bytes, 1);
    }
    if count >= 2 {
        lemma_step(files, steps, bytes, 2);
    }
    if count >= 3 {
        lemma_step(files, steps, bytes, 3);
    }
    if count >= 4 {
        lemma_step(files, steps, bytes, 4);
    }
    if count >= 5 {
        lemma_step(files, steps, bytes, 5);
    }
    if count >= 6 {
        lemma_step(files, steps, bytes, 6);
    }
    if count >= 7 {
        lemma_step(files, steps, bytes, 7);
    }
}

/// Which file a reader opens.
#[derive(Clone, Copy, Debug, PartialEq, Eq, Structural)]
pub enum ReadSource {
    Target,
    Backup,
}

/// Which file a reader opens: the target, else the backup.
pub fn recoverable_source(target_exists: bool) -> (r: ReadSource)
    ensures
        r == (if target_exists {
            ReadSource::Target
        } else {
            ReadSource::Backup
        }),
{
    if target_exists {
        ReadSource::Target
    } else {
        ReadSource::Backup
    }
}

} // verus!
