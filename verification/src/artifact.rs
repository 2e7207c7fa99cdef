//! Complete training artifacts: manifest, tensors, validation, and metric identities.
use crate::archive::{
    archive_contents, archive_metadata, archive_tensors, decode_tensor_count,
    encoded_values_read_back, entry_fault, header_bounded, le_words, name_set, names_distinct,
    oversized, serialize_named_tensors, tensors_map, validate_names, validate_tensor_values,
    values_fault, vector_tensor, ArchiveTensor, MAX_ARCHIVE_ELEMENTS,
};
use crate::checkpoint::{
    device_fault, progress_fault, rng_fault, run_fault, validate_progress, validate_run,
    validate_run_without_model, CheckpointContract, CheckpointDevice, CheckpointProgress,
    CheckpointRun, ResumeView, RngView, RunView, SchemaLink, streams_fault, MAX_LEAGUE_REFERENCES,
    MAX_RNG_STATES,
};
use crate::checkpoint_codec::{
    config_encode_fault, config_words, decode_config, decode_progress, decode_run, decode_schema,
    encode_config, encode_progress, encode_run, encode_schema, lemma_ppo_back, lemma_resume_back,
    lemma_run_back, lemma_schema_back, links_at, ppo_at, profile_links, resume_at, resume_bytes,
    run_at, run_bytes, run_encode_fault, schema_bytes, streams_encode_fault, words_bytes,
};
use crate::digest::{same_digest, sha256, sha256_of};
use crate::frame::row_finite;
use crate::manifest::{
    checked, either, invalid, lemma_stands_split, lemma_u32_back, lemma_u64_back, same_bytes,
    stands, take_at, u32_at, u64_at, CheckpointError, ManifestReader, ManifestWriter,
};
use crate::settings::{PolicyDevice, PpoConfig, PpoSampleBudget};
use crate::shuffle::{ShuffleState, MAX_TRAINING_COUNTER};
use vstd::bytes::{
    lemma_auto_spec_u32_to_from_le_bytes, lemma_auto_spec_u64_to_from_le_bytes,
    spec_u32_to_le_bytes, spec_u64_to_le_bytes,
};
use vstd::prelude::*;
use vstd::utf8::encode_utf8;

verus! {

/// Optimizer moments, as single-precision bits, and step.
#[derive(Debug, PartialEq, Eq)]
pub struct CheckpointOptimizer {
    pub first_moment: Vec<u32>,
    pub second_moment: Vec<u32>,
    pub step: u64,
}

/// Complete model, optimizer, provenance, and control-plane checkpoint.
#[derive(Debug, PartialEq, Eq)]
pub struct TrainingArtifact {
    pub run: CheckpointRun,
    pub progress: CheckpointProgress,
    pub config: PpoConfig,
    pub trainer_updates: u64,
    pub shuffle: ShuffleState,
    /// Policy parameters, as single-precision bits.
    pub parameters: Vec<u32>,
    pub optimizer: CheckpointOptimizer,
    pub tensor_hash: [u8; 32],
}

/// What a manifest holds of an artifact.
#[verifier::ext_equal]
pub struct ManifestView {
    pub run: RunView,
    pub progress: ResumeView,
    pub config: PpoConfig,
    pub trainer_updates: u64,
    pub step: u64,
    pub shuffle: ShuffleState,
    pub tensor_hash: Seq<u8>,
}

impl TrainingArtifact {
    /// What the manifest of the artifact holds, with a tensor hash of its own.
    pub open spec fn manifest_view(self, tensor_hash: Seq<u8>) -> ManifestView {
        ManifestView {
            run: self.run@,
            progress: self.progress@,
            config: self.config,
            trainer_updates: self.trainer_updates,
            step: self.optimizer.step,
            shuffle: self.shuffle,
            tensor_hash,
        }
    }
}

/// First bytes of every manifest.
pub open spec fn magic() -> Seq<u8> {
    seq![0x44u8, 0x52u8, 0x59u8, 0x43u8, 0x4bu8, 0x50u8, 0x31u8, 0x38u8]
}

fn checkpoint_magic() -> (r: Vec<u8>)
    ensures
        r@ == magic(),
{
    let bytes: Vec<u8> = vec![0x44, 0x52, 0x59, 0x43, 0x4b, 0x50, 0x31, 0x38];
    assert(bytes@ =~= magic());
    bytes
}

/// Bytes of the counters and the hash at the end of a manifest.
pub open spec fn ending_bytes(view: ManifestView) -> Seq<u8> {
    spec_u64_to_le_bytes(view.trainer_updates) + (spec_u64_to_le_bytes(view.step) + (
    spec_u64_to_le_bytes(view.shuffle.state) + (spec_u64_to_le_bytes(view.shuffle.draws)
        + view.tensor_hash)))
}

/// Bytes of a checkpoint identity.
pub open spec fn identity_bytes(contract: CheckpointContract, budget: PpoSampleBudget) -> Seq<u8> {
    spec_u32_to_le_bytes(contract.profile_spec(budget).checkpoint.version) + spec_u64_to_le_bytes(
        contract.profile_spec(budget).checkpoint.hash,
    )
}

/// Bytes of a manifest.
pub open spec fn manifest_bytes(contract: CheckpointContract, view: ManifestView) -> Seq<u8> {
    magic() + (identity_bytes(contract, view.config.sample_budget) + (schema_bytes(
        contract.profile_spec(view.config.sample_budget),
    ) + (run_bytes(view.run) + (resume_bytes(view.progress) + (words_bytes(
        config_words(view.config),
    ) + ending_bytes(view))))))
}

/// Failure of an artifact that has no byte form.
pub open spec fn encode_fault(view: ManifestView) -> Option<CheckpointError> {
    either(
        run_encode_fault(view.run),
        either(
            streams_encode_fault(view.progress.rng_states),
            config_encode_fault(view.config),
        ),
    )
}

/// Encodes the manifest of an artifact with the hash of its tensors.
pub fn encode_manifest(
    contract: &CheckpointContract,
    artifact: &TrainingArtifact,
    tensor_hash: &[u8; 32],
) -> (r: Result<Vec<u8>, CheckpointError>)
    ensures
        match encode_fault(artifact.manifest_view(tensor_hash@)) {
            Some(error) => r == Err::<Vec<u8>, CheckpointError>(error),
            None => r matches Ok(bytes) && bytes@ == manifest_bytes(
                *contract,
                artifact.manifest_view(tensor_hash@),
            ),
        },
{
    let ghost view = artifact.manifest_view(tensor_hash@);
    let budget = artifact.config.sample_budget;
    let mut writer = ManifestWriter::new();
    encode_header(&mut writer, contract, budget);
    encode_schema(&mut writer, contract, budget);
    match encode_run(&mut writer, &artifact.run) {
        Ok(()) => {},
        Err(error) => {
            return Err(error);
        },
    }
    match encode_progress(&mut writer, &artifact.progress) {
        Ok(()) => {},
        Err(error) => {
            return Err(error);
        },
    }
    match encode_config(&mut writer, artifact.config) {
        Ok(()) => {},
        Err(error) => {
            return Err(error);
        },
    }
    encode_ending(&mut writer, artifact, tensor_hash);
    proof {
        lemma_joined(
            magic(),
            identity_bytes(*contract, budget),
            schema_bytes(contract.profile_spec(budget)),
            run_bytes(view.run),
            resume_bytes(view.progress),
            words_bytes(config_words(view.config)),
            ending_bytes(view),
        );
    }
    Ok(writer.bytes)
}

fn encode_header(writer: &mut ManifestWriter, contract: &CheckpointContract, budget: PpoSampleBudget)
    requires
        old(writer).bytes@.len() == 0,
    ensures
        final(writer).bytes@ == magic() + identity_bytes(*contract, budget),
{
    let head = checkpoint_magic();
    writer.raw(head.as_slice());
    let (version, hash) = contract.checkpoint_schema_identity(budget);
    writer.u32(version);
    writer.u64(hash);
    assert(writer.bytes@ =~= magic() + identity_bytes(*contract, budget));
}

fn encode_ending(writer: &mut ManifestWriter, artifact: &TrainingArtifact, tensor_hash: &[u8; 32])
    ensures
        final(writer).bytes@ == old(writer).bytes@ + ending_bytes(
            artifact.manifest_view(tensor_hash@),
        ),
{
    let ghost before = writer.bytes@;
    writer.u64(artifact.trainer_updates);
    writer.u64(artifact.optimizer.step);
    writer.u64(artifact.shuffle.state);
    writer.u64(artifact.shuffle.draws);
    writer.raw(vstd::array::array_as_slice(tensor_hash));
    assert(writer.bytes@ =~= before + ending_bytes(artifact.manifest_view(tensor_hash@)));
}

proof fn lemma_joined(
    a: Seq<u8>,
    b: Seq<u8>,
    c: Seq<u8>,
    d: Seq<u8>,
    e: Seq<u8>,
    f: Seq<u8>,
    g: Seq<u8>,
)
    ensures
        a + b + c + d + e + f + g == a + (b + (c + (d + (e + (f + g))))),
{
    assert(a + b + c + d + e + f + g =~= a + (b + (c + (d + (e + (f + g))))));
}

/// Sample budget that a checkpoint identity tells; the version is compared before the hash
/// is read.
pub open spec fn identity_at(bytes: Seq<u8>, at: int, contract: CheckpointContract) -> Result<
    (PpoSampleBudget, int),
    CheckpointError,
> {
    match u32_at(bytes, at) {
        Err(error) => Err(error),
        Ok(version) => if version.0 != contract.standard.checkpoint.version && version.0
            != contract.annealed.checkpoint.version {
            Err(CheckpointError::SchemaMismatch)
        } else {
            match u64_at(bytes, version.1) {
                Err(error) => Err(error),
                Ok(hash) => {
                    let link = SchemaLink { version: version.0, hash: hash.0 };
                    if link == contract.standard.checkpoint {
                        Ok((PpoSampleBudget::Standard, hash.1))
                    } else if link == contract.annealed.checkpoint {
                        Ok((PpoSampleBudget::Annealed, hash.1))
                    } else {
                        Err(CheckpointError::SchemaMismatch)
                    }
                },
            }
        },
    }
}

/// Reads a checkpoint identity.
pub fn decode_checkpoint_identity(reader: &mut ManifestReader<'_>, contract: &CheckpointContract) -> (r:
    Result<PpoSampleBudget, CheckpointError>)
    requires
        old(reader).wf(),
    ensures
        final(reader).wf(),
        final(reader).bytes@ == old(reader).bytes@,
        crate::manifest::reads(
            identity_at(old(reader).bytes@, old(reader).offset as int, *contract),
            r,
            final(reader).offset,
        ),
{
    let version: u32 = match reader.u32() {
        Ok(version) => version,
        Err(error) => {
            return Err(error);
        },
    };
    if version != contract.standard.checkpoint.version && version
        != contract.annealed.checkpoint.version {
        return Err(CheckpointError::SchemaMismatch);
    }
    let hash: u64 = match reader.u64() {
        Ok(hash) => hash,
        Err(error) => {
            return Err(error);
        },
    };
    let link = SchemaLink { version, hash };
    if link == contract.standard.checkpoint {
        return Ok(PpoSampleBudget::Standard);
    }
    if link == contract.annealed.checkpoint {
        return Ok(PpoSampleBudget::Annealed);
    }
    Err(CheckpointError::SchemaMismatch)
}

/// Counters and hash at the end of a manifest.
pub struct Ending {
    pub trainer_updates: u64,
    pub step: u64,
    pub state: u64,
    pub draws: u64,
    pub tensor_hash: Seq<u8>,
}

/// Ending at a position; nothing may follow it.
pub open spec fn ending_at(bytes: Seq<u8>, at: int) -> Result<Ending, CheckpointError> {
    match u64_at(bytes, at) {
        Err(error) => Err(error),
        Ok(updates) => match u64_at(bytes, updates.1) {
            Err(error) => Err(error),
            Ok(step) => match u64_at(bytes, step.1) {
                Err(error) => Err(error),
                Ok(state) => match u64_at(bytes, state.1) {
                    Err(error) => Err(error),
                    Ok(draws) => match take_at(bytes, draws.1, 32) {
                        Err(error) => Err(error),
                        Ok(hash) => if hash.1 == bytes.len() {
                            Ok(
                                Ending {
                                    trainer_updates: updates.0,
                                    step: step.0,
                                    state: state.0,
                                    draws: draws.0,
                                    tensor_hash: hash.0,
                                },
                            )
                        } else {
                            Err(CheckpointError::ManifestTrailingBytes)
                        },
                    },
                },
            },
        },
    }
}

/// Run, progress, and configuration at a position.
pub open spec fn body_at(bytes: Seq<u8>, at: int, budget: PpoSampleBudget) -> Result<
    ((RunView, ResumeView, PpoConfig), int),
    CheckpointError,
> {
    match run_at(bytes, at) {
        Err(error) => Err(error),
        Ok(run) => match resume_at(bytes, run.1, run.0.mastery_config) {
            Err(error) => Err(error),
            Ok(progress) => match ppo_at(bytes, progress.1, budget) {
                Err(error) => Err(error),
                Ok(config) => Ok(((run.0, progress.0, config.0), config.1)),
            },
        },
    }
}

/// What a manifest holds, or why it is refused.
pub open spec fn manifest_of(contract: CheckpointContract, bytes: Seq<u8>) -> Result<
    ManifestView,
    CheckpointError,
> {
    match take_at(bytes, 0, 8) {
        Err(error) => Err(error),
        Ok(head) => if head.0 != magic() {
            Err(CheckpointError::ManifestMagic)
        } else {
            match identity_at(bytes, head.1, contract) {
                Err(error) => Err(error),
                Ok(budget) => match links_at(
                    bytes,
                    budget.1,
                    profile_links(contract.profile_spec(budget.0)),
                ) {
                    Err(error) => Err(error),
                    Ok(end) => match body_at(bytes, end, budget.0) {
                        Err(error) => Err(error),
                        Ok(body) => match ending_at(bytes, body.1) {
                            Err(error) => Err(error),
                            Ok(ending) => Ok(
                                ManifestView {
                                    run: body.0.0,
                                    progress: body.0.1,
                                    config: body.0.2,
                                    trainer_updates: ending.trainer_updates,
                                    step: ending.step,
                                    shuffle: ShuffleState {
                                        state: ending.state,
                                        draws: ending.draws,
                                    },
                                    tensor_hash: ending.tensor_hash,
                                },
                            ),
                        },
                    },
                },
            }
        },
    }
}

fn digest_of(part: &[u8]) -> (r: [u8; 32])
    requires
        part@.len() == 32,
    ensures
        r@ == part@,
{
    let mut digest: [u8; 32] = [0;32];
    let mut index: usize = 0;
    while index < 32
        invariant
            index <= 32,
            part@.len() == 32,
            forall|i: int| 0 <= i < index ==> digest@[i] == part@[i],
        decreases 32 - index,
    {
        let byte: u8 = part[index];
        digest[index] = byte;
        index += 1;
    }
    assert(digest@ =~= part@);
    digest
}

struct EndingParts {
    trainer_updates: u64,
    step: u64,
    shuffle: ShuffleState,
    tensor_hash: [u8; 32],
}

fn decode_ending(reader: &mut ManifestReader<'_>) -> (r: Result<EndingParts, CheckpointError>)
    requires
        old(reader).wf(),
    ensures
        match ending_at(old(reader).bytes@, old(reader).offset as int) {
            Err(error) => r == Err::<EndingParts, CheckpointError>(error),
            Ok(ending) => r matches Ok(parts) && parts.trainer_updates == ending.trainer_updates
                && parts.step == ending.step && parts.shuffle.state == ending.state
                && parts.shuffle.draws == ending.draws && parts.tensor_hash@ == ending.tensor_hash,
        },
{
    let trainer_updates: u64 = match reader.u64() {
        Ok(value) => value,
        Err(error) => {
            return Err(error);
        },
    };
    let step: u64 = match reader.u64() {
        Ok(value) => value,
        Err(error) => {
            return Err(error);
        },
    };
    let state: u64 = match reader.u64() {
        Ok(value) => value,
        Err(error) => {
            return Err(error);
        },
    };
    let draws: u64 = match reader.u64() {
        Ok(value) => value,
        Err(error) => {
            return Err(error);
        },
    };
    let tensor_hash = match reader.take(32) {
        Ok(part) => digest_of(part),
        Err(error) => {
            return Err(error);
        },
    };
    match reader.finish() {
        Ok(()) => {},
        Err(error) => {
            return Err(error);
        },
    }
    Ok(EndingParts { trainer_updates, step, shuffle: ShuffleState { state, draws }, tensor_hash })
}

/// Decodes a manifest; its tensors are attached separately.
pub fn decode_manifest(contract: &CheckpointContract, bytes: &[u8]) -> (r: Result<
    TrainingArtifact,
    CheckpointError,
>)
    ensures
        match manifest_of(*contract, bytes@) {
            Err(error) => r == Err::<TrainingArtifact, CheckpointError>(error),
            Ok(view) => r matches Ok(artifact) && artifact.manifest_view(artifact.tensor_hash@)
                == view && artifact.parameters@.len() == 0
                && artifact.optimizer.first_moment@.len() == 0
                && artifact.optimizer.second_moment@.len() == 0,
        },
{
    let mut reader = ManifestReader::new(bytes);
    let expected = checkpoint_magic();
    match reader.take(8) {
        Err(error) => {
            return Err(error);
        },
        Ok(head) => {
            if !same_bytes(head, expected.as_slice()) {
                return Err(CheckpointError::ManifestMagic);
            }
        },
    }
    let budget = match decode_checkpoint_identity(&mut reader, contract) {
        Ok(budget) => budget,
        Err(error) => {
            return Err(error);
        },
    };
    match decode_schema(&mut reader, contract, budget) {
        Ok(()) => {},
        Err(error) => {
            return Err(error);
        },
    }
    let run = match decode_run(&mut reader) {
        Ok(run) => run,
        Err(error) => {
            return Err(error);
        },
    };
    let progress = match decode_progress(&mut reader, run.mastery_config) {
        Ok(progress) => progress,
        Err(error) => {
            return Err(error);
        },
    };
    let config = match decode_config(&mut reader, budget) {
        Ok(config) => config,
        Err(error) => {
            return Err(error);
        },
    };
    let ending = match decode_ending(&mut reader) {
        Ok(ending) => ending,
        Err(error) => {
            return Err(error);
        },
    };
    Ok(
        TrainingArtifact {
            run,
            progress,
            config,
            trainer_updates: ending.trainer_updates,
            shuffle: ending.shuffle,
            parameters: Vec::new(),
            optimizer: CheckpointOptimizer {
                first_moment: Vec::new(),
                second_moment: Vec::new(),
                step: ending.step,
            },
            tensor_hash: ending.tensor_hash,
        },
    )
}

proof fn lemma_ending_back(bytes: Seq<u8>, at: int, view: ManifestView)
    requires
        view.tensor_hash.len() == 32,
        stands(bytes, at, ending_bytes(view)),
        at + ending_bytes(view).len() == bytes.len(),
    ensures
        ending_at(bytes, at) == Ok::<Ending, CheckpointError>(
            Ending {
                trainer_updates: view.trainer_updates,
                step: view.step,
                state: view.shuffle.state,
                draws: view.shuffle.draws,
                tensor_hash: view.tensor_hash,
            },
        ),
{
    lemma_auto_spec_u64_to_from_le_bytes();
    let d = spec_u64_to_le_bytes(view.shuffle.draws) + view.tensor_hash;
    let c = spec_u64_to_le_bytes(view.shuffle.state) + d;
    let b = spec_u64_to_le_bytes(view.step) + c;
    lemma_stands_split(bytes, at, spec_u64_to_le_bytes(view.trainer_updates), b);
    lemma_stands_split(bytes, at + 8, spec_u64_to_le_bytes(view.step), c);
    lemma_stands_split(bytes, at + 16, spec_u64_to_le_bytes(view.shuffle.state), d);
    lemma_stands_split(
        bytes,
        at + 24,
        spec_u64_to_le_bytes(view.shuffle.draws),
        view.tensor_hash,
    );
    lemma_u64_back(bytes, at, view.trainer_updates);
    lemma_u64_back(bytes, at + 8, view.step);
    lemma_u64_back(bytes, at + 16, view.shuffle.state);
    lemma_u64_back(bytes, at + 24, view.shuffle.draws);
}

proof fn lemma_identity_size(contract: CheckpointContract, budget: PpoSampleBudget)
    ensures
        identity_bytes(contract, budget).len() == 12,
{
    lemma_auto_spec_u32_to_from_le_bytes();
    lemma_auto_spec_u64_to_from_le_bytes();
}

proof fn lemma_identity_back(
    bytes: Seq<u8>,
    at: int,
    contract: CheckpointContract,
    budget: PpoSampleBudget,
)
    requires
        0 <= at,
        contract.tells(budget),
        stands(bytes, at, identity_bytes(contract, budget)),
    ensures
        identity_at(bytes, at, contract) == Ok::<(PpoSampleBudget, int), CheckpointError>(
            (budget, at + 12),
        ),
{
    let link = contract.profile_spec(budget).checkpoint;
    lemma_auto_spec_u32_to_from_le_bytes();
    lemma_auto_spec_u64_to_from_le_bytes();
    lemma_stands_split(
        bytes,
        at,
        spec_u32_to_le_bytes(link.version),
        spec_u64_to_le_bytes(link.hash),
    );
    lemma_u32_back(bytes, at, link.version);
    lemma_u64_back(bytes, at + 4, link.hash);
}

proof fn lemma_body_back(bytes: Seq<u8>, at: int, view: ManifestView)
    requires
        0 <= at,
        encode_fault(view) is None,
        view.tensor_hash.len() == 32,
        view.run.mastery_config matches Some(config) ==> config.wf(),
        view.progress.rng_states.len() <= MAX_RNG_STATES,
        view.progress.league_references.len() <= MAX_LEAGUE_REFERENCES,
        forall|i: int|
            0 <= i < view.progress.rng_states.len() ==> rng_fault(
                #[trigger] view.progress.rng_states[i],
            ) is None,
        view.progress.mastery matches Some(value) ==> (view.run.mastery_config matches Some(limits)
            && value.fits(limits)),
        stands(
            bytes,
            at,
            run_bytes(view.run) + (resume_bytes(view.progress) + (words_bytes(
                config_words(view.config),
            ) + ending_bytes(view))),
        ),
        at + (run_bytes(view.run) + (resume_bytes(view.progress) + (words_bytes(
            config_words(view.config),
        ) + ending_bytes(view)))).len() == bytes.len(),
    ensures
        body_at(bytes, at, view.config.sample_budget) matches Ok(body) && body.0 == (
            view.run,
            view.progress,
            view.config,
        ) && ending_at(bytes, body.1) == Ok::<Ending, CheckpointError>(
            Ending {
                trainer_updates: view.trainer_updates,
                step: view.step,
                state: view.shuffle.state,
                draws: view.shuffle.draws,
                tensor_hash: view.tensor_hash,
            },
        ),
{
    let run = run_bytes(view.run);
    let resume = resume_bytes(view.progress);
    let words = words_bytes(config_words(view.config));
    let ending = ending_bytes(view);
    lemma_stands_split(bytes, at, run, resume + (words + ending));
    lemma_run_back(bytes, at, view.run);
    let next = at + run.len() as int;
    lemma_stands_split(bytes, next, resume, words + ending);
    lemma_resume_back(bytes, next, view.progress, view.run.mastery_config);
    let last = next + resume.len() as int;
    lemma_stands_split(bytes, last, words, ending);
    lemma_ppo_back(bytes, last, view.config);
    lemma_ending_back(bytes, last + 64, view);
}

proof fn lemma_head_back(contract: CheckpointContract, bytes: Seq<u8>, view: ManifestView)
    requires
        contract.tells(view.config.sample_budget),
        bytes == manifest_bytes(contract, view),
    ensures
        take_at(bytes, 0, 8) == Ok::<(Seq<u8>, int), CheckpointError>((magic(), 8)),
        identity_at(bytes, 8, contract) == Ok::<(PpoSampleBudget, int), CheckpointError>(
            (view.config.sample_budget, 20),
        ),
        links_at(bytes, 20, profile_links(contract.profile_spec(view.config.sample_budget))) == Ok::<
            int,
            CheckpointError,
        >(80),
        stands(
            bytes,
            80,
            run_bytes(view.run) + (resume_bytes(view.progress) + (words_bytes(
                config_words(view.config),
            ) + ending_bytes(view))),
        ),
        80 + (run_bytes(view.run) + (resume_bytes(view.progress) + (words_bytes(
            config_words(view.config),
        ) + ending_bytes(view)))).len() == bytes.len(),
{
    let budget = view.config.sample_budget;
    let identity = identity_bytes(contract, budget);
    let schema = schema_bytes(contract.profile_spec(budget));
    let body = run_bytes(view.run) + (resume_bytes(view.progress) + (words_bytes(
        config_words(view.config),
    ) + ending_bytes(view)));
    assert(bytes == magic() + (identity + (schema + body)));
    assert(bytes.subrange(0, bytes.len() as int) =~= bytes);
    assert(stands(bytes, 0, magic() + (identity + (schema + body))));
    lemma_stands_split(bytes, 0, magic(), identity + (schema + body));
    lemma_identity_size(contract, budget);
    lemma_stands_split(bytes, 8, identity, schema + body);
    lemma_identity_back(bytes, 8, contract, budget);
    lemma_stands_split(bytes, 20, schema, body);
    lemma_schema_back(bytes, 20, contract.profile_spec(budget));
}

proof fn lemma_parts_make_manifest(
    contract: CheckpointContract,
    bytes: Seq<u8>,
    view: ManifestView,
    end: int,
)
    requires
        take_at(bytes, 0, 8) == Ok::<(Seq<u8>, int), CheckpointError>((magic(), 8)),
        identity_at(bytes, 8, contract) == Ok::<(PpoSampleBudget, int), CheckpointError>(
            (view.config.sample_budget, 20),
        ),
        links_at(bytes, 20, profile_links(contract.profile_spec(view.config.sample_budget))) == Ok::<
            int,
            CheckpointError,
        >(80),
        body_at(bytes, 80, view.config.sample_budget) == Ok::<
            ((RunView, ResumeView, PpoConfig), int),
            CheckpointError,
        >(((view.run, view.progress, view.config), end)),
        ending_at(bytes, end) == Ok::<Ending, CheckpointError>(
            Ending {
                trainer_updates: view.trainer_updates,
                step: view.step,
                state: view.shuffle.state,
                draws: view.shuffle.draws,
                tensor_hash: view.tensor_hash,
            },
        ),
    ensures
        manifest_of(contract, bytes) == Ok::<ManifestView, CheckpointError>(view),
{
}

/// Every artifact that has a byte form and bounded, valid lists reads back from it, and what is
/// read back has the same byte form.
pub proof fn manifests_read_back(contract: CheckpointContract, view: ManifestView)
    requires
        contract.tells(view.config.sample_budget),
        encode_fault(view) is None,
        view.tensor_hash.len() == 32,
        view.run.mastery_config matches Some(config) ==> config.wf(),
        view.progress.rng_states.len() <= MAX_RNG_STATES,
        view.progress.league_references.len() <= MAX_LEAGUE_REFERENCES,
        forall|i: int|
            0 <= i < view.progress.rng_states.len() ==> rng_fault(
                #[trigger] view.progress.rng_states[i],
            ) is None,
        view.progress.mastery matches Some(value) ==> (view.run.mastery_config matches Some(limits)
            && value.fits(limits)),
    ensures
        manifest_of(contract, manifest_bytes(contract, view)) == Ok::<ManifestView, CheckpointError>(
            view,
        ),
        manifest_of(contract, manifest_bytes(contract, view)) matches Ok(back) && encode_fault(
            back,
        ) is None && manifest_bytes(contract, back) == manifest_bytes(contract, view),
{
    let bytes = manifest_bytes(contract, view);
    lemma_head_back(contract, bytes, view);
    lemma_body_back(bytes, 80, view);
    let body = body_at(bytes, 80, view.config.sample_budget)->Ok_0;
    lemma_parts_make_manifest(contract, bytes, view, body.1);
}

/// Two artifacts with the same manifest bytes hold the same values.
pub proof fn manifests_identify_their_artifact(
    contract: CheckpointContract,
    left: ManifestView,
    right: ManifestView,
)
    requires
        contract.tells(left.config.sample_budget),
        contract.tells(right.config.sample_budget),
        encode_fault(left) is None,
        encode_fault(right) is None,
        left.tensor_hash.len() == 32,
        right.tensor_hash.len() == 32,
        left.run.mastery_config matches Some(config) ==> config.wf(),
        right.run.mastery_config matches Some(config) ==> config.wf(),
        left.progress.rng_states.len() <= MAX_RNG_STATES,
        right.progress.rng_states.len() <= MAX_RNG_STATES,
        left.progress.league_references.len() <= MAX_LEAGUE_REFERENCES,
        right.progress.league_references.len() <= MAX_LEAGUE_REFERENCES,
        forall|i: int|
            0 <= i < left.progress.rng_states.len() ==> rng_fault(
                #[trigger] left.progress.rng_states[i],
            ) is None,
        forall|i: int|
            0 <= i < right.progress.rng_states.len() ==> rng_fault(
                #[trigger] right.progress.rng_states[i],
            ) is None,
        left.progress.mastery matches Some(value) ==> (left.run.mastery_config matches Some(limits)
            && value.fits(limits)),
        right.progress.mastery matches Some(value) ==> (right.run.mastery_config matches Some(
            limits,
        ) && value.fits(limits)),
        manifest_bytes(contract, left) == manifest_bytes(contract, right),
    ensures
        left == right,
{
    manifests_read_back(contract, left);
    manifests_read_back(contract, right);
}

/// Failure of second moments below zero.
pub open spec fn negative(bits: u32) -> bool {
    bits > 0x8000_0000
}

fn any_negative(values: &Vec<u32>) -> (r: bool)
    ensures
        r == exists|i: int| 0 <= i < values@.len() && negative(#[trigger] values@[i]),
{
    let mut index: usize = 0;
    while index < values.len()
        invariant
            index <= values@.len(),
            forall|i: int| 0 <= i < index ==> !negative(#[trigger] values@[i]),
        decreases values@.len() - index,
    {
        if values[index] > 0x8000_0000 {
            assert(negative(values@[index as int]));
            return true;
        }
        index += 1;
    }
    false
}

impl TrainingArtifact {
    /// Failure of the tensors and counters behind a valid run, progress, and configuration.
    pub open spec fn state_fault(self, contract: CheckpointContract) -> Option<CheckpointError> {
        either(
            values_fault("model.parameters", self.parameters@),
            either(
                values_fault("adam.first_moment", self.optimizer.first_moment@),
                either(
                    values_fault("adam.second_moment", self.optimizer.second_moment@),
                    if self.parameters@.len() != contract.parameter_count
                        || self.optimizer.first_moment@.len() != contract.parameter_count
                        || self.optimizer.second_moment@.len() != contract.parameter_count {
                        Some(CheckpointError::TensorContract("element count"))
                    } else if self.optimizer.step > contract.maximum_optimizer_step
                        || self.shuffle.draws > MAX_TRAINING_COUNTER || (exists|i: int|
                        0 <= i < self.optimizer.second_moment@.len() && negative(
                            #[trigger] self.optimizer.second_moment@[i],
                        )) {
                        Some(invalid("optimizer or RNG state"))
                    } else {
                        None
                    },
                ),
            ),
        )
    }

    /// Failure of an artifact; `config_valid` is the optimizer's verdict on its configuration.
    pub open spec fn fault(self, contract: CheckpointContract, config_valid: bool) -> Option<
        CheckpointError,
    > {
        either(
            metadata_fault(contract, self.manifest_view(self.tensor_hash@), config_valid),
            self.state_fault(contract),
        )
    }

    /// Checks an artifact; `config_valid` is the optimizer's verdict on its configuration.
    pub fn validate(&self, contract: &CheckpointContract, config_valid: bool) -> (r: Result<
        (),
        CheckpointError,
    >)
        ensures
            r == checked(self.fault(*contract, config_valid)),
    {
        match validate_metadata(contract, self, config_valid) {
            Ok(()) => {},
            Err(error) => {
                return Err(error);
            },
        }
        match validate_tensor_values("model.parameters", &self.parameters) {
            Ok(()) => {},
            Err(error) => {
                return Err(error);
            },
        }
        match validate_tensor_values("adam.first_moment", &self.optimizer.first_moment) {
            Ok(()) => {},
            Err(error) => {
                return Err(error);
            },
        }
        match validate_tensor_values("adam.second_moment", &self.optimizer.second_moment) {
            Ok(()) => {},
            Err(error) => {
                return Err(error);
            },
        }
        if self.parameters.len() != contract.parameter_count || self.optimizer.first_moment.len()
            != contract.parameter_count || self.optimizer.second_moment.len()
            != contract.parameter_count {
            return Err(CheckpointError::TensorContract("element count"));
        }
        if self.optimizer.step > contract.maximum_optimizer_step || self.shuffle.draws
            > MAX_TRAINING_COUNTER || any_negative(&self.optimizer.second_moment) {
            return Err(CheckpointError::InvalidManifest("optimizer or RNG state"));
        }
        Ok(())
    }

    /// Captures a training state: a run and progress that fit the trainer, with the model's
    /// snapshot. `config_valid` is the optimizer's verdict on the configuration.
    pub fn capture(
        contract: &CheckpointContract,
        device: PolicyDevice,
        config: PpoConfig,
        config_valid: bool,
        trainer_updates: u64,
        shuffle: ShuffleState,
        run: CheckpointRun,
        progress: CheckpointProgress,
        snapshot: Result<(Vec<u32>, CheckpointOptimizer), String>,
    ) -> (r: Result<Self, CheckpointError>)
        ensures
            match either(
                either(run_fault(*contract, run@, config), device_fault(run@, device)),
                progress_fault(*contract, progress@, trainer_updates),
            ) {
                Some(error) => r == Err::<TrainingArtifact, CheckpointError>(error),
                None => match snapshot {
                    Err(text) => r == Err::<TrainingArtifact, CheckpointError>(
                        CheckpointError::Model(text),
                    ),
                    Ok(parts) => match r {
                        Ok(artifact) => {
                            &&& artifact.run == run
                            &&& artifact.progress == progress
                            &&& artifact.config == config
                            &&& artifact.trainer_updates == trainer_updates
                            &&& artifact.shuffle == shuffle
                            &&& artifact.parameters == parts.0
                            &&& artifact.optimizer == parts.1
                            &&& artifact.tensor_hash@ == Seq::new(32, |i: int| 0u8)
                            &&& artifact.fault(*contract, config_valid) is None
                        },
                        Err(error) => exists|artifact: TrainingArtifact|
                            artifact.run == run && artifact.progress == progress && artifact.config
                                == config && artifact.trainer_updates == trainer_updates
                                && artifact.shuffle == shuffle && artifact.parameters == parts.0
                                && artifact.optimizer == parts.1 && #[trigger] artifact.fault(
                                *contract,
                                config_valid,
                            ) == Some(error),
                    },
                },
            },
    {
        match validate_run(contract, &run, device, config) {
            Ok(()) => {},
            Err(error) => {
                return Err(error);
            },
        }
        match validate_progress(contract, &progress, trainer_updates) {
            Ok(()) => {},
            Err(error) => {
                return Err(error);
            },
        }
        let (parameters, optimizer) = match snapshot {
            Ok(parts) => parts,
            Err(text) => {
                return Err(CheckpointError::Model(text));
            },
        };
        let artifact = TrainingArtifact {
            run,
            progress,
            config,
            trainer_updates,
            shuffle,
            parameters,
            optimizer,
            tensor_hash: [0;32],
        };
        match artifact.validate(contract, config_valid) {
            Ok(()) => Ok(artifact),
            Err(error) => Err(error),
        }
    }

    pub fn run(&self) -> (r: &CheckpointRun)
        ensures
            *r == self.run,
    {
        &self.run
    }

    pub fn progress(&self) -> (r: &CheckpointProgress)
        ensures
            *r == self.progress,
    {
        &self.progress
    }

    /// Failure of installing an artifact for an expected run on a device.
    pub open spec fn restore_fault(
        self,
        contract: CheckpointContract,
        config_valid: bool,
        expected: RunView,
        device: PolicyDevice,
    ) -> Option<CheckpointError> {
        either(
            self.fault(contract, config_valid),
            if self.run@ != expected {
                Some(invalid("compatibility scope"))
            } else if !(CheckpointDevice::of(device) matches Ok(recorded) && recorded
                == self.run.device) {
                Some(invalid("restore device"))
            } else {
                None
            },
        )
    }

    /// Checks that an artifact can be installed for an expected run on a device.
    pub fn validate_restore(
        &self,
        contract: &CheckpointContract,
        config_valid: bool,
        expected: &CheckpointRun,
        device: PolicyDevice,
    ) -> (r: Result<(), CheckpointError>)
        ensures
            r == checked(self.restore_fault(*contract, config_valid, expected@, device)),
    {
        match self.validate(contract, config_valid) {
            Ok(()) => {},
            Err(error) => {
                return Err(error);
            },
        }
        if !self.run.is_same(expected) {
            return Err(CheckpointError::InvalidManifest("compatibility scope"));
        }
        if !self.run.device.matches(device) {
            return Err(CheckpointError::InvalidManifest("restore device"));
        }
        Ok(())
    }
}

/// Failure of the run, progress, and configuration of a manifest.
pub open spec fn metadata_fault(
    contract: CheckpointContract,
    view: ManifestView,
    config_valid: bool,
) -> Option<CheckpointError> {
    either(
        run_fault(contract, view.run, view.config),
        either(
            progress_fault(contract, view.progress, view.trainer_updates),
            if config_valid {
                None
            } else {
                Some(invalid("PPO config"))
            },
        ),
    )
}

fn validate_metadata(
    contract: &CheckpointContract,
    artifact: &TrainingArtifact,
    config_valid: bool,
) -> (r: Result<(), CheckpointError>)
    ensures
        r == checked(
            metadata_fault(
                *contract,
                artifact.manifest_view(artifact.tensor_hash@),
                config_valid,
            ),
        ),
{
    match validate_run_without_model(contract, &artifact.run, artifact.config) {
        Ok(()) => {},
        Err(error) => {
            return Err(error);
        },
    }
    match validate_progress(contract, &artifact.progress, artifact.trainer_updates) {
        Ok(()) => {},
        Err(error) => {
            return Err(error);
        },
    }
    if !config_valid {
        return Err(CheckpointError::InvalidManifest("PPO config"));
    }
    Ok(())
}

/// Bytes that identify the metric scope of a run.
pub open spec fn scope_bytes(contract: CheckpointContract, run: RunView, config: PpoConfig) -> Seq<
    u8,
> {
    encode_utf8("drysua-metrics-scope/v1"@) + (identity_bytes(contract, config.sample_budget) + (
    schema_bytes(contract.profile_spec(config.sample_budget)) + (run_bytes(run) + words_bytes(
        config_words(config),
    ))))
}

/// Failure of a run whose metrics have no scope.
pub open spec fn scope_fault(
    contract: CheckpointContract,
    run: RunView,
    config: PpoConfig,
    config_valid: bool,
) -> Option<CheckpointError> {
    if !config_valid {
        Some(invalid("PPO config"))
    } else {
        either(
            run_fault(contract, run, config),
            if config.sample_budget == PpoSampleBudget::Annealed && run.mastery_config is Some {
                Some(invalid("annealed mastery"))
            } else {
                either(run_encode_fault(run), config_encode_fault(config))
            },
        )
    }
}

fn encode_scope(contract: &CheckpointContract, run: &CheckpointRun, config: PpoConfig) -> (r: Result<
    Vec<u8>,
    CheckpointError,
>)
    ensures
        match either(run_encode_fault(run@), config_encode_fault(config)) {
            Some(error) => r == Err::<Vec<u8>, CheckpointError>(error),
            None => r matches Ok(bytes) && bytes@ == scope_bytes(*contract, run@, config),
        },
{
    let mut writer = ManifestWriter::new();
    writer.raw("drysua-metrics-scope/v1".as_bytes());
    let ghost head = encode_utf8("drysua-metrics-scope/v1"@);
    assert(writer.bytes@ =~= head);
    let (version, hash) = contract.checkpoint_schema_identity(config.sample_budget);
    writer.u32(version);
    writer.u64(hash);
    let ghost identity = identity_bytes(*contract, config.sample_budget);
    assert(writer.bytes@ =~= head + identity);
    encode_schema(&mut writer, contract, config.sample_budget);
    match encode_run(&mut writer, run) {
        Ok(()) => {},
        Err(error) => {
            return Err(error);
        },
    }
    match encode_config(&mut writer, config) {
        Ok(()) => {},
        Err(error) => {
            return Err(error);
        },
    }
    proof {
        let schema = schema_bytes(contract.profile_spec(config.sample_budget));
        let words = words_bytes(config_words(config));
        let none = Seq::<u8>::empty();
        lemma_joined(head, identity, schema, run_bytes(run@), words, none, none);
        assert(words + (none + none) =~= words);
        assert(head + identity + schema + run_bytes(run@) + words + none + none =~= head + identity
            + schema + run_bytes(run@) + words);
    }
    Ok(writer.bytes)
}

/// Identity of the metric scope of a run: the digest of its canonical fields.
///
/// `check` is the optimizer's verdict on a configuration.
pub fn metrics_scope_identity(
    contract: &CheckpointContract,
    run: &CheckpointRun,
    config: PpoConfig,
    check: impl Fn(PpoConfig) -> bool,
) -> (r: Result<[u8; 32], CheckpointError>)
    requires
        check.requires((config,)),
    ensures
        exists|verdict: bool| #[trigger]
            check.ensures((config,), verdict) && match scope_fault(
                *contract,
                run@,
                config,
                verdict,
            ) {
                Some(error) => r == Err::<[u8; 32], CheckpointError>(error),
                None => r matches Ok(identity) && identity@ == sha256_of(
                    scope_bytes(*contract, run@, config),
                ),
            },
{
    let valid = check(config);
    if !valid {
        return Err(CheckpointError::InvalidManifest("PPO config"));
    }
    match validate_run_without_model(contract, run, config) {
        Ok(()) => {},
        Err(error) => {
            return Err(error);
        },
    }
    if config.sample_budget == PpoSampleBudget::Annealed && run.mastery_config.is_some() {
        return Err(CheckpointError::InvalidManifest("annealed mastery"));
    }
    match encode_scope(contract, run, config) {
        Ok(bytes) => Ok(sha256(bytes.as_slice())),
        Err(error) => Err(error),
    }
}

/// Outcome of identifying a manifest under a verdict on its configuration.
pub open spec fn manifest_identity(
    contract: CheckpointContract,
    bytes: Seq<u8>,
    view: ManifestView,
    config_valid: bool,
    r: Result<[u8; 32], CheckpointError>,
) -> bool {
    match metadata_fault(contract, view, config_valid) {
        Some(error) => r == Err::<[u8; 32], CheckpointError>(error),
        None => r matches Ok(identity) && identity@ == sha256_of(bytes),
    }
}

/// Identity of a valid manifest: the digest of its exact bytes.
///
/// `check` is the optimizer's verdict on a configuration.
pub fn metrics_manifest_identity(
    contract: &CheckpointContract,
    bytes: &[u8],
    check: impl Fn(PpoConfig) -> bool,
) -> (r: Result<[u8; 32], CheckpointError>)
    requires
        forall|config: PpoConfig| check.requires((config,)),
    ensures
        match manifest_of(*contract, bytes@) {
            Err(error) => r == Err::<[u8; 32], CheckpointError>(error),
            Ok(view) => exists|verdict: bool| #[trigger]
                check.ensures((view.config,), verdict) && manifest_identity(
                    *contract,
                    bytes@,
                    view,
                    verdict,
                    r,
                ),
        },
{
    match decode_manifest(contract, bytes) {
        Err(error) => Err(error),
        Ok(artifact) => {
            let valid = check(artifact.config);
            match validate_metadata(contract, &artifact, valid) {
                Ok(()) => Ok(sha256(bytes)),
                Err(error) => Err(error),
            }
        },
    }
}

/// Identity of a manifest that a synchronization has made durable.
///
/// An invalid manifest is refused before `sync` is called, and a failed `sync` gives no
/// identity.
pub fn metrics_manifest_identity_after_sync(
    contract: &CheckpointContract,
    bytes: &[u8],
    check: impl Fn(PpoConfig) -> bool,
    sync: impl FnOnce() -> Result<(), CheckpointError>,
) -> (r: Result<[u8; 32], CheckpointError>)
    requires
        forall|config: PpoConfig| check.requires((config,)),
        match manifest_of(*contract, bytes@) {
            Ok(view) => (exists|verdict: bool| #[trigger]
                check.ensures((view.config,), verdict) && metadata_fault(
                    *contract,
                    view,
                    verdict,
                ) is None) ==> sync.requires(()),
            Err(_) => true,
        },
    ensures
        match manifest_of(*contract, bytes@) {
            Err(error) => r == Err::<[u8; 32], CheckpointError>(error),
            Ok(view) => exists|verdict: bool| #[trigger]
                check.ensures((view.config,), verdict) && match metadata_fault(
                    *contract,
                    view,
                    verdict,
                ) {
                    Some(error) => r == Err::<[u8; 32], CheckpointError>(error),
                    None => exists|outcome: Result<(), CheckpointError>| #[trigger]
                        sync.ensures((), outcome) && match outcome {
                            Err(error) => r == Err::<[u8; 32], CheckpointError>(error),
                            Ok(()) => r matches Ok(identity) && identity@ == sha256_of(bytes@),
                        },
                },
        },
{
    let identity = match metrics_manifest_identity(contract, bytes, check) {
        Ok(identity) => identity,
        Err(error) => {
            return Err(error);
        },
    };
    let outcome = sync();
    match outcome {
        Ok(()) => Ok(identity),
        Err(error) => Err(error),
    }
}

/// Parameters and moments of an archive, or why it is refused.
pub open spec fn training_tensors(
    tensors: Map<Seq<char>, (bool, Seq<usize>, Seq<u8>)>,
    count: usize,
) -> Result<(Seq<u32>, Seq<u32>, Seq<u32>), CheckpointError> {
    let parameters = tensors["model.parameters"@];
    let first = tensors["adam.first_moment"@];
    let second = tensors["adam.second_moment"@];
    if tensors.dom() != name_set(
        seq!["adam.first_moment", "adam.second_moment", "model.parameters"],
    ) {
        Err(CheckpointError::TensorContract("names"))
    } else {
        match either(
            entry_fault(parameters, "model.parameters", count),
            either(
                entry_fault(first, "adam.first_moment", count),
                entry_fault(second, "adam.second_moment", count),
            ),
        ) {
            Some(error) => Err(error),
            None => Ok((le_words(parameters.2), le_words(first.2), le_words(second.2))),
        }
    }
}

/// Parameters, first moments, and second moments.
#[derive(Debug, PartialEq, Eq)]
pub struct DecodedTensors {
    pub parameters: Vec<u32>,
    pub first_moment: Vec<u32>,
    pub second_moment: Vec<u32>,
}

/// Parameters and moments of the tensors of an archive.
pub fn training_tensors_of(list: &Vec<ArchiveTensor>, count: usize) -> (r: Result<
    DecodedTensors,
    CheckpointError,
>)
    requires
        names_distinct(list@),
    ensures
        match training_tensors(tensors_map(list@), count) {
            Err(error) => r == Err::<DecodedTensors, CheckpointError>(error),
            Ok(values) => r matches Ok(decoded) && decoded.parameters@ == values.0
                && decoded.first_moment@ == values.1 && decoded.second_moment@ == values.2,
        },
{
    let names = vec!["adam.first_moment", "adam.second_moment", "model.parameters"];
    assert(names@ =~= seq!["adam.first_moment", "adam.second_moment", "model.parameters"]);
    match validate_names(list, &names) {
        Ok(()) => {},
        Err(error) => {
            return Err(error);
        },
    }
    proof {
        assert(names@[0]@ == "adam.first_moment"@);
        assert(names@[1]@ == "adam.second_moment"@);
        assert(names@[2]@ == "model.parameters"@);
        assert(name_set(names@).contains("adam.first_moment"@));
        assert(name_set(names@).contains("adam.second_moment"@));
        assert(name_set(names@).contains("model.parameters"@));
    }
    let parameters = match decode_tensor_count(list, "model.parameters", count) {
        Ok(values) => values,
        Err(error) => {
            return Err(error);
        },
    };
    let first_moment = match decode_tensor_count(list, "adam.first_moment", count) {
        Ok(values) => values,
        Err(error) => {
            return Err(error);
        },
    };
    let second_moment = match decode_tensor_count(list, "adam.second_moment", count) {
        Ok(values) => values,
        Err(error) => {
            return Err(error);
        },
    };
    Ok(DecodedTensors { parameters, first_moment, second_moment })
}

/// Decodes the tensor archive of a training checkpoint.
pub fn decode_training_tensors(bytes: &[u8], count: usize) -> (r: Result<
    DecodedTensors,
    CheckpointError,
>)
    ensures
        if !header_bounded(bytes@) {
            r matches Err(error) && oversized(error)
        } else {
            match archive_tensors(bytes@) {
                None => r matches Err(CheckpointError::Backend(_)),
                Some(tensors) => match training_tensors(tensors, count) {
                    Err(error) => r == Err::<DecodedTensors, CheckpointError>(error),
                    Ok(values) => r matches Ok(decoded) && decoded.parameters@ == values.0
                        && decoded.first_moment@ == values.1 && decoded.second_moment@ == values.2,
                },
            }
        },
{
    match archive_contents(bytes) {
        Err(error) => Err(error),
        Ok(list) => training_tensors_of(&list, count),
    }
}

/// Tensors that a training checkpoint is written with.
pub open spec fn written_tensors(parameters: Seq<u32>, first: Seq<u32>, second: Seq<u32>) -> Map<
    Seq<char>,
    (bool, Seq<usize>, Seq<u8>),
> {
    Map::<Seq<char>, (bool, Seq<usize>, Seq<u8>)>::empty().insert(
        "adam.first_moment"@,
        (true, seq![first.len() as usize], words_bytes(first)),
    ).insert(
        "adam.second_moment"@,
        (true, seq![second.len() as usize], words_bytes(second)),
    ).insert(
        "model.parameters"@,
        (true, seq![parameters.len() as usize], words_bytes(parameters)),
    )
}

proof fn lemma_tensor_names()
    ensures
        "adam.first_moment"@ != "adam.second_moment"@,
        "adam.first_moment"@ != "model.parameters"@,
        "adam.second_moment"@ != "model.parameters"@,
        "adam.first_moment"@ != "__metadata__"@,
        "adam.second_moment"@ != "__metadata__"@,
        "model.parameters"@ != "__metadata__"@,
        "adam.first_moment"@.len() <= 256,
        "adam.second_moment"@.len() <= 256,
        "model.parameters"@.len() <= 256,
{
    reveal_strlit("adam.first_moment");
    reveal_strlit("adam.second_moment");
    reveal_strlit("model.parameters");
    reveal_strlit("__metadata__");
    assert("adam.first_moment"@[5] != "adam.second_moment"@[5]);
    assert("adam.first_moment"@[0] != "model.parameters"@[0]);
    assert("adam.second_moment"@[0] != "model.parameters"@[0]);
    assert("adam.first_moment"@[0] != "__metadata__"@[0]);
    assert("adam.second_moment"@[0] != "__metadata__"@[0]);
    assert("model.parameters"@[0] != "__metadata__"@[0]);
}

/// Writes the tensor archive of a training checkpoint.
pub fn serialize_training_tensors(artifact: &TrainingArtifact) -> (r: Result<
    Vec<u8>,
    CheckpointError,
>)
    requires
        artifact.parameters@.len() <= MAX_ARCHIVE_ELEMENTS,
        artifact.optimizer.first_moment@.len() <= MAX_ARCHIVE_ELEMENTS,
        artifact.optimizer.second_moment@.len() <= MAX_ARCHIVE_ELEMENTS,
    ensures
        r matches Ok(bytes) && header_bounded(bytes@) && archive_tensors(bytes@) == Some(
            written_tensors(
                artifact.parameters@,
                artifact.optimizer.first_moment@,
                artifact.optimizer.second_moment@,
            ),
        ) && archive_metadata(bytes@) == Some(None::<Map<Seq<char>, Seq<char>>>),
{
    let first = vector_tensor("adam.first_moment", &artifact.optimizer.first_moment);
    let second = vector_tensor("adam.second_moment", &artifact.optimizer.second_moment);
    let parameters = vector_tensor("model.parameters", &artifact.parameters);
    let list = vec![first, second, parameters];
    proof {
        lemma_tensor_names();
        encoded_values_read_back(artifact.optimizer.first_moment@);
        encoded_values_read_back(artifact.optimizer.second_moment@);
        encoded_values_read_back(artifact.parameters@);
        assert(list@ =~= seq![first, second, parameters]);
        assert(names_distinct(list@));
        let two = list@.drop_last();
        let one = two.drop_last();
        assert(one.last() == first && two.last() == second && list@.last() == parameters);
        reveal_with_fuel(tensors_map, 4);
        assert(tensors_map(list@) =~= written_tensors(
            artifact.parameters@,
            artifact.optimizer.first_moment@,
            artifact.optimizer.second_moment@,
        ));
    }
    serialize_named_tensors(&list, None)
}

/// Writes a checkpoint: its tensor archive, the archive's digest, and the manifest that records
/// the digest.
pub fn encode_checkpoint(contract: &CheckpointContract, artifact: &TrainingArtifact) -> (r: Result<
    (Vec<u8>, [u8; 32], Vec<u8>),
    CheckpointError,
>)
    requires
        artifact.parameters@.len() <= MAX_ARCHIVE_ELEMENTS,
        artifact.optimizer.first_moment@.len() <= MAX_ARCHIVE_ELEMENTS,
        artifact.optimizer.second_moment@.len() <= MAX_ARCHIVE_ELEMENTS,
    ensures
        match encode_fault(artifact.manifest_view(artifact.tensor_hash@)) {
            Some(error) => r == Err::<(Vec<u8>, [u8; 32], Vec<u8>), CheckpointError>(error),
            None => {
                &&& r matches Ok((tensors, hash, manifest))
                &&& hash@ == sha256_of(tensors@)
                &&& manifest@ == manifest_bytes(*contract, artifact.manifest_view(hash@))
                &&& header_bounded(tensors@)
                &&& archive_tensors(tensors@) == Some(
                    written_tensors(
                        artifact.parameters@,
                        artifact.optimizer.first_moment@,
                        artifact.optimizer.second_moment@,
                    ),
                )
                &&& archive_metadata(tensors@) == Some(None::<Map<Seq<char>, Seq<char>>>)
            },
        },
{
    let tensors = match serialize_training_tensors(artifact) {
        Ok(tensors) => tensors,
        Err(error) => {
            return Err(error);
        },
    };
    let hash = sha256(tensors.as_slice());
    match encode_manifest(contract, artifact, &hash) {
        Ok(manifest) => Ok((tensors, hash, manifest)),
        Err(error) => Err(error),
    }
}

/// Written tensors read back: the decoded parameters and moments are the written ones.
pub proof fn written_tensors_read_back(
    parameters: Seq<u32>,
    first: Seq<u32>,
    second: Seq<u32>,
    count: usize,
)
    requires
        parameters.len() == count,
        first.len() == count,
        second.len() == count,
        row_finite(parameters),
        row_finite(first),
        row_finite(second),
    ensures
        training_tensors(written_tensors(parameters, first, second), count) == Ok::<
            (Seq<u32>, Seq<u32>, Seq<u32>),
            CheckpointError,
        >((parameters, first, second)),
{
    lemma_tensor_names();
    encoded_values_read_back(parameters);
    encoded_values_read_back(first);
    encoded_values_read_back(second);
    let tensors = written_tensors(parameters, first, second);
    let names = seq!["adam.first_moment", "adam.second_moment", "model.parameters"];
    assert(names[0]@ == "adam.first_moment"@ && names[1]@ == "adam.second_moment"@ && names[2]@
        == "model.parameters"@);
    assert(tensors.dom() =~= name_set(names)) by {
        assert forall|name: Seq<char>| tensors.dom().contains(name) == name_set(names).contains(
            name,
        ) by {
            if name_set(names).contains(name) {
                let i = choose|i: int| 0 <= i < names.len() && (#[trigger] names[i])@ == name;
                assert(i == 0 || i == 1 || i == 2);
            }
        }
    }
    let test = |bits: u32| !crate::frame::finite32(bits);
    crate::search::lemma_first_from_none(parameters, test, 0);
    crate::search::lemma_first_from_none(first, test, 0);
    crate::search::lemma_first_from_none(second, test, 0);
}

/// Whether opening a manifest had the outcome that its bytes give.
pub open spec fn opened_as(
    contract: CheckpointContract,
    bytes: Seq<u8>,
    expected: Option<RunView>,
    r: Result<TrainingArtifact, CheckpointError>,
) -> bool {
    match manifest_of(contract, bytes) {
        Err(error) => r == Err::<TrainingArtifact, CheckpointError>(error),
        Ok(view) => match expected {
            Some(run) if run != view.run => r == Err::<TrainingArtifact, CheckpointError>(
                invalid("compatibility scope"),
            ),
            _ => r matches Ok(artifact) && artifact.manifest_view(artifact.tensor_hash@) == view,
        },
    }
}

/// Opens a manifest and refuses one of another run before its tensors are read.
pub fn open_manifest(
    contract: &CheckpointContract,
    bytes: &[u8],
    expected: Option<&CheckpointRun>,
) -> (r: Result<TrainingArtifact, CheckpointError>)
    ensures
        opened_as(
            *contract,
            bytes@,
            match expected {
                Some(run) => Some(run@),
                None => None,
            },
            r,
        ),
{
    let artifact = match decode_manifest(contract, bytes) {
        Ok(artifact) => artifact,
        Err(error) => {
            return Err(error);
        },
    };
    if let Some(run) = expected {
        if !run.is_same(&artifact.run) {
            return Err(CheckpointError::InvalidManifest("compatibility scope"));
        }
    }
    Ok(artifact)
}

impl TrainingArtifact {
    /// Whether the artifact holds the manifest values of an opened one and the given tensors.
    pub open spec fn completes(
        self,
        opened: TrainingArtifact,
        values: (Seq<u32>, Seq<u32>, Seq<u32>),
    ) -> bool {
        &&& self.manifest_view(self.tensor_hash@) == opened.manifest_view(opened.tensor_hash@)
        &&& self.parameters@ == values.0
        &&& self.optimizer.first_moment@ == values.1
        &&& self.optimizer.second_moment@ == values.2
    }
}

/// Whether completing an opened artifact had the outcome that its tensors give.
pub open spec fn attached_as(
    contract: CheckpointContract,
    artifact: TrainingArtifact,
    tensors: Seq<u8>,
    config_valid: bool,
    r: Result<TrainingArtifact, CheckpointError>,
) -> bool {
    if sha256_of(tensors) != artifact.tensor_hash@ {
        r == Err::<TrainingArtifact, CheckpointError>(CheckpointError::TensorHashMismatch)
    } else if !header_bounded(tensors) {
        r matches Err(error) && oversized(error)
    } else {
        match archive_tensors(tensors) {
            None => r matches Err(CheckpointError::Backend(_)),
            Some(map) => match training_tensors(map, contract.parameter_count) {
                Err(error) => r == Err::<TrainingArtifact, CheckpointError>(error),
                Ok(values) => match r {
                    Ok(complete) => complete.completes(artifact, values) && complete.fault(
                        contract,
                        config_valid,
                    ) is None,
                    Err(error) => exists|complete: TrainingArtifact|
                        complete.completes(artifact, values) && #[trigger] complete.fault(
                            contract,
                            config_valid,
                        ) == Some(error),
                },
            },
        }
    }
}

/// Completes an opened artifact with its tensors: their digest must be the recorded one.
pub fn attach_tensors(
    contract: &CheckpointContract,
    artifact: TrainingArtifact,
    tensors: &[u8],
    config_valid: bool,
) -> (r: Result<TrainingArtifact, CheckpointError>)
    ensures
        attached_as(*contract, artifact, tensors@, config_valid, r),
{
    let digest = sha256(tensors);
    if !same_digest(&digest, &artifact.tensor_hash) {
        return Err(CheckpointError::TensorHashMismatch);
    }
    let decoded = match decode_training_tensors(tensors, contract.parameter_count) {
        Ok(decoded) => decoded,
        Err(error) => {
            return Err(error);
        },
    };
    let complete = TrainingArtifact {
        run: artifact.run,
        progress: artifact.progress,
        config: artifact.config,
        trainer_updates: artifact.trainer_updates,
        shuffle: artifact.shuffle,
        parameters: decoded.parameters,
        optimizer: CheckpointOptimizer {
            first_moment: decoded.first_moment,
            second_moment: decoded.second_moment,
            step: artifact.optimizer.step,
        },
        tensor_hash: artifact.tensor_hash,
    };
    match complete.validate(contract, config_valid) {
        Ok(()) => Ok(complete),
        Err(error) => Err(error),
    }
}

/// The tensor hash is the end of a manifest, and nothing before it depends on it.
pub proof fn manifests_end_in_their_hash(
    contract: CheckpointContract,
    artifact: TrainingArtifact,
    left: [u8; 32],
    right: [u8; 32],
)
    ensures
        ({
            let first = manifest_bytes(contract, artifact.manifest_view(left@));
            let second = manifest_bytes(contract, artifact.manifest_view(right@));
            let start = first.len() - 32;
            &&& encode_fault(artifact.manifest_view(left@)) == encode_fault(
                artifact.manifest_view(right@),
            )
            &&& first.len() == second.len()
            &&& start >= 0
            &&& first.skip(start) == left@
            &&& second.skip(start) == right@
            &&& first.take(start) == second.take(start)
            &&& first == second <==> left@ == right@
        }),
{
    let view = artifact.manifest_view(left@);
    let other = artifact.manifest_view(right@);
    let budget = view.config.sample_budget;
    let counters = spec_u64_to_le_bytes(view.trainer_updates) + (spec_u64_to_le_bytes(view.step) + (
    spec_u64_to_le_bytes(view.shuffle.state) + spec_u64_to_le_bytes(view.shuffle.draws)));
    let head = magic() + (identity_bytes(contract, budget) + (schema_bytes(
        contract.profile_spec(budget),
    ) + (run_bytes(view.run) + (resume_bytes(view.progress) + (words_bytes(
        config_words(view.config),
    ) + counters)))));
    assert(ending_bytes(view) =~= counters + left@);
    assert(ending_bytes(other) =~= counters + right@);
    lemma_appended(contract, view, counters, left@);
    lemma_appended(contract, other, counters, right@);
    let first = manifest_bytes(contract, view);
    let second = manifest_bytes(contract, other);
    assert(first == head + left@ && second == head + right@);
    assert(first.skip(head.len() as int) =~= left@);
    assert(second.skip(head.len() as int) =~= right@);
    assert(first.take(head.len() as int) =~= head);
    assert(second.take(head.len() as int) =~= head);
}

proof fn lemma_appended(
    contract: CheckpointContract,
    view: ManifestView,
    counters: Seq<u8>,
    hash: Seq<u8>,
)
    requires
        ending_bytes(view) == counters + hash,
    ensures
        manifest_bytes(contract, view) == magic() + (identity_bytes(
            contract,
            view.config.sample_budget,
        ) + (schema_bytes(contract.profile_spec(view.config.sample_budget)) + (run_bytes(view.run)
            + (resume_bytes(view.progress) + (words_bytes(config_words(view.config)) + counters)))))
            + hash,
{
    let words = words_bytes(config_words(view.config));
    let resume = resume_bytes(view.progress);
    let run = run_bytes(view.run);
    let schema = schema_bytes(contract.profile_spec(view.config.sample_budget));
    let identity = identity_bytes(contract, view.config.sample_budget);
    lemma_grouped(words, counters, hash);
    lemma_grouped(resume, words + counters, hash);
    lemma_grouped(run, resume + (words + counters), hash);
    lemma_grouped(schema, run + (resume + (words + counters)), hash);
    lemma_grouped(identity, schema + (run + (resume + (words + counters))), hash);
    lemma_grouped(magic(), identity + (schema + (run + (resume + (words + counters)))), hash);
}

proof fn lemma_grouped(first: Seq<u8>, second: Seq<u8>, third: Seq<u8>)
    ensures
        first + (second + third) == first + second + third,
{
    assert(first + (second + third) =~= first + second + third);
}

proof fn lemma_streams_valid(list: Seq<RngView>, index: int)
    requires
        streams_fault(list) is None,
        0 <= index < list.len(),
    ensures
        rng_fault(list[index]) is None,
    decreases list.len(),
{
    if index < list.len() - 1 {
        lemma_streams_valid(list.drop_last(), index);
    }
}

/// A valid artifact that is saved as a tensor archive and a manifest with the archive's digest
/// loads again with the same run, progress, configuration, counters, parameters, and moments.
pub proof fn saved_checkpoints_load(
    contract: CheckpointContract,
    artifact: TrainingArtifact,
    tensors: Seq<u8>,
    hash: [u8; 32],
    opened: Result<TrainingArtifact, CheckpointError>,
    attached: Result<TrainingArtifact, CheckpointError>,
)
    requires
        contract.tells(artifact.config.sample_budget),
        artifact.fault(contract, true) is None,
        encode_fault(artifact.manifest_view(hash@)) is None,
        artifact.run.mastery_config matches Some(config) ==> config.wf(),
        artifact.progress@.mastery matches Some(value) ==> (artifact.run.mastery_config matches Some(
            limits,
        ) && value.fits(limits)),
        header_bounded(tensors),
        archive_tensors(tensors) == Some(
            written_tensors(
                artifact.parameters@,
                artifact.optimizer.first_moment@,
                artifact.optimizer.second_moment@,
            ),
        ),
        hash@ == sha256_of(tensors),
        opened_as(
            contract,
            manifest_bytes(contract, artifact.manifest_view(hash@)),
            Some(artifact.run@),
            opened,
        ),
        opened matches Ok(head) ==> attached_as(contract, head, tensors, true, attached),
    ensures
        opened is Ok,
        attached matches Ok(complete) && complete.manifest_view(complete.tensor_hash@)
            == artifact.manifest_view(hash@) && complete.parameters@ == artifact.parameters@
            && complete.optimizer.first_moment@ == artifact.optimizer.first_moment@
            && complete.optimizer.second_moment@ == artifact.optimizer.second_moment@,
{
    let view = artifact.manifest_view(hash@);
    let list = view.progress.rng_states;
    assert forall|i: int| 0 <= i < list.len() implies rng_fault(#[trigger] list[i]) is None by {
        lemma_streams_valid(list, i);
    }
    manifests_read_back(contract, view);
    let test = |bits: u32| !crate::frame::finite32(bits);
    crate::search::lemma_first_from_means(artifact.parameters@, test, 0);
    crate::search::lemma_first_from_means(artifact.optimizer.first_moment@, test, 0);
    crate::search::lemma_first_from_means(artifact.optimizer.second_moment@, test, 0);
    written_tensors_read_back(
        artifact.parameters@,
        artifact.optimizer.first_moment@,
        artifact.optimizer.second_moment@,
        contract.parameter_count,
    );
    if attached is Err {
        let head = opened->Ok_0;
        let values = (
            artifact.parameters@,
            artifact.optimizer.first_moment@,
            artifact.optimizer.second_moment@,
        );
        let complete = choose|complete: TrainingArtifact|
            complete.completes(head, values) && #[trigger] complete.fault(contract, true) == Some(
                attached->Err_0,
            );
        assert(complete.fault(contract, true) == artifact.fault(contract, true));
    }
}

} // verus!
