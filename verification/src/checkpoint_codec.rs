//! Byte form of the strict checkpoint manifest.
use crate::checkpoint::{
    rng_fault, rng_views, CheckpointContract, CheckpointDevice, CheckpointProgress, CheckpointRun,
    ResumeView, RngCheckpoint, RngView, RunView, SchemaLink, SchemaProfile, MAX_LEAGUE_REFERENCES,
    MAX_RNG_STATES,
};
use crate::manifest::{
    checked, count_at, either, invalid, lemma_optional_back, lemma_stands_split, lemma_text_back,
    lemma_u16_back, lemma_u32_back, lemma_u64_back, lemma_u8_back, optional_at, optional_bytes,
    reads, stands, text_at, text_bytes, text_fault, u16_at, u32_at, u64_at, u8_at,
    CheckpointError, ManifestReader, ManifestWriter,
};
use crate::mastery::{
    self, config_at, config_bytes, lemma_config_back, lemma_progress_back, progress_at,
    progress_bytes, MasteryConfig,
};
use crate::settings::{PpoConfig, PpoSampleBudget};
use crate::world::{HeroId, MapId};
use vstd::bytes::{
    lemma_auto_spec_u16_to_from_le_bytes, lemma_auto_spec_u32_to_from_le_bytes,
    lemma_auto_spec_u64_to_from_le_bytes, spec_u16_to_le_bytes, spec_u32_to_le_bytes,
    spec_u64_to_le_bytes,
};
use vstd::prelude::*;

verus! {

/// Bytes of one linked encoding.
pub open spec fn link_bytes(link: SchemaLink) -> Seq<u8> {
    spec_u32_to_le_bytes(link.version) + spec_u64_to_le_bytes(link.hash)
}

/// Bytes of every linked encoding, in order.
pub open spec fn schema_bytes(profile: SchemaProfile) -> Seq<u8> {
    link_bytes(profile.action) + (link_bytes(profile.feature) + (link_bytes(profile.model) + (
    link_bytes(profile.ppo) + link_bytes(profile.reward))))
}

fn encode_link(writer: &mut ManifestWriter, link: SchemaLink)
    ensures
        final(writer).bytes@ == old(writer).bytes@ + link_bytes(link),
{
    let ghost before = writer.bytes@;
    writer.u32(link.version);
    writer.u64(link.hash);
    assert(writer.bytes@ =~= before + link_bytes(link));
}

/// Writes the linked encodings of a sample budget.
pub fn encode_schema(
    writer: &mut ManifestWriter,
    contract: &CheckpointContract,
    budget: PpoSampleBudget,
)
    ensures
        final(writer).bytes@ == old(writer).bytes@ + schema_bytes(contract.profile_spec(budget)),
{
    let ghost before = writer.bytes@;
    let profile = contract.profile(budget);
    encode_link(writer, profile.action);
    encode_link(writer, profile.feature);
    encode_link(writer, profile.model);
    encode_link(writer, profile.ppo);
    encode_link(writer, profile.reward);
    assert(writer.bytes@ =~= before + schema_bytes(profile));
}

/// End of an expected encoding; its version is compared before its hash is read.
pub open spec fn link_at(bytes: Seq<u8>, at: int, link: SchemaLink) -> Result<int, CheckpointError> {
    match u32_at(bytes, at) {
        Err(error) => Err(error),
        Ok(version) => if version.0 != link.version {
            Err(CheckpointError::SchemaMismatch)
        } else {
            match u64_at(bytes, version.1) {
                Err(error) => Err(error),
                Ok(hash) => if hash.0 != link.hash {
                    Err(CheckpointError::SchemaMismatch)
                } else {
                    Ok(hash.1)
                },
            }
        },
    }
}

pub open spec fn links_at(bytes: Seq<u8>, at: int, links: Seq<SchemaLink>) -> Result<
    int,
    CheckpointError,
>
    decreases links.len(),
{
    if links.len() == 0 {
        Ok(at)
    } else {
        match link_at(bytes, at, links[0]) {
            Err(error) => Err(error),
            Ok(end) => links_at(bytes, end, links.drop_first()),
        }
    }
}

pub open spec fn profile_links(profile: SchemaProfile) -> Seq<SchemaLink> {
    seq![profile.action, profile.feature, profile.model, profile.ppo, profile.reward]
}

fn decode_link(reader: &mut ManifestReader<'_>, link: SchemaLink) -> (r: Result<
    (),
    CheckpointError,
>)
    requires
        old(reader).wf(),
    ensures
        final(reader).wf(),
        final(reader).bytes@ == old(reader).bytes@,
        match link_at(old(reader).bytes@, old(reader).offset as int, link) {
            Ok(end) => r == Ok::<(), CheckpointError>(()) && final(reader).offset == end,
            Err(error) => r == Err::<(), CheckpointError>(error),
        },
{
    match reader.u32() {
        Err(error) => {
            return Err(error);
        },
        Ok(version) => {
            if version != link.version {
                return Err(CheckpointError::SchemaMismatch);
            }
        },
    }
    match reader.u64() {
        Err(error) => Err(error),
        Ok(hash) => if hash != link.hash {
            Err(CheckpointError::SchemaMismatch)
        } else {
            Ok(())
        },
    }
}

/// Reads the linked encodings of a sample budget and compares each.
pub fn decode_schema(
    reader: &mut ManifestReader<'_>,
    contract: &CheckpointContract,
    budget: PpoSampleBudget,
) -> (r: Result<(), CheckpointError>)
    requires
        old(reader).wf(),
    ensures
        final(reader).wf(),
        final(reader).bytes@ == old(reader).bytes@,
        match links_at(
            old(reader).bytes@,
            old(reader).offset as int,
            profile_links(contract.profile_spec(budget)),
        ) {
            Ok(end) => r == Ok::<(), CheckpointError>(()) && final(reader).offset == end,
            Err(error) => r == Err::<(), CheckpointError>(error),
        },
{
    let profile = contract.profile(budget);
    let links = vec![profile.action, profile.feature, profile.model, profile.ppo, profile.reward];
    let ghost all = links@;
    assert(all =~= profile_links(profile));
    let ghost begin = reader.offset as int;
    let mut index: usize = 0;
    assert(all.skip(0) =~= all);
    while index < links.len()
        invariant
            index <= links@.len(),
            links@ == all,
            all == profile_links(contract.profile_spec(budget)),
            reader.wf(),
            reader.bytes@ == old(reader).bytes@,
            begin == old(reader).offset,
            links_at(reader.bytes@, begin, all) == links_at(
                reader.bytes@,
                reader.offset as int,
                all.skip(index as int),
            ),
        decreases links@.len() - index,
    {
        assert(all.skip(index as int).drop_first() =~= all.skip(index + 1));
        match decode_link(reader, links[index]) {
            Ok(()) => {},
            Err(error) => {
                return Err(error);
            },
        }
        index += 1;
    }
    Ok(())
}

proof fn lemma_link_back(bytes: Seq<u8>, at: int, link: SchemaLink)
    requires
        stands(bytes, at, link_bytes(link)),
    ensures
        link_at(bytes, at, link) == Ok::<int, CheckpointError>(at + 12),
        link_bytes(link).len() == 12,
{
    lemma_auto_spec_u32_to_from_le_bytes();
    lemma_auto_spec_u64_to_from_le_bytes();
    lemma_stands_split(
        bytes,
        at,
        spec_u32_to_le_bytes(link.version),
        spec_u64_to_le_bytes(link.hash),
    );
    lemma_u32_back(bytes, at, link.version);
    lemma_u64_back(bytes, at + 4, link.hash);
}

/// Written linked encodings read back.
pub proof fn lemma_schema_back(bytes: Seq<u8>, at: int, profile: SchemaProfile)
    requires
        stands(bytes, at, schema_bytes(profile)),
    ensures
        links_at(bytes, at, profile_links(profile)) == Ok::<int, CheckpointError>(at + 60),
        schema_bytes(profile).len() == 60,
{
    lemma_auto_spec_u32_to_from_le_bytes();
    lemma_auto_spec_u64_to_from_le_bytes();
    let e = link_bytes(profile.reward);
    let d = link_bytes(profile.ppo) + e;
    let c = link_bytes(profile.model) + d;
    let b = link_bytes(profile.feature) + c;
    lemma_stands_split(bytes, at, link_bytes(profile.action), b);
    lemma_stands_split(bytes, at + 12, link_bytes(profile.feature), c);
    lemma_stands_split(bytes, at + 24, link_bytes(profile.model), d);
    lemma_stands_split(bytes, at + 36, link_bytes(profile.ppo), e);
    lemma_link_back(bytes, at, profile.action);
    lemma_link_back(bytes, at + 12, profile.feature);
    lemma_link_back(bytes, at + 24, profile.model);
    lemma_link_back(bytes, at + 36, profile.ppo);
    lemma_link_back(bytes, at + 48, profile.reward);
    let links = profile_links(profile);
    let l1 = links.drop_first();
    let l2 = l1.drop_first();
    let l3 = l2.drop_first();
    let l4 = l3.drop_first();
    assert(l1[0] == profile.feature && l2[0] == profile.model && l3[0] == profile.ppo && l4[0]
        == profile.reward);
    assert(links_at(bytes, at + 60, l4.drop_first()) == Ok::<int, CheckpointError>(at + 60));
    assert(links_at(bytes, at + 48, l4) == Ok::<int, CheckpointError>(at + 60));
    assert(links_at(bytes, at + 36, l3) == Ok::<int, CheckpointError>(at + 60));
    assert(links_at(bytes, at + 24, l2) == Ok::<int, CheckpointError>(at + 60));
    assert(links_at(bytes, at + 12, l1) == Ok::<int, CheckpointError>(at + 60));
}

/// Bytes of a device.
pub open spec fn device_bytes(device: CheckpointDevice) -> Seq<u8> {
    seq![device.code().0] + spec_u32_to_le_bytes(device.code().1)
}

fn encode_device(writer: &mut ManifestWriter, device: CheckpointDevice)
    ensures
        final(writer).bytes@ == old(writer).bytes@ + device_bytes(device),
{
    let ghost before = writer.bytes@;
    match device {
        CheckpointDevice::Cpu => {
            writer.u8(0);
            writer.u32(0);
        },
        CheckpointDevice::Cuda { ordinal } => {
            writer.u8(1);
            writer.u32(ordinal);
        },
        CheckpointDevice::Metal { ordinal } => {
            writer.u8(2);
            writer.u32(ordinal);
        },
    }
    assert(writer.bytes@ =~= before + device_bytes(device));
}

/// Device at a position.
pub open spec fn device_at(bytes: Seq<u8>, at: int) -> Result<
    (CheckpointDevice, int),
    CheckpointError,
> {
    match u8_at(bytes, at) {
        Err(error) => Err(error),
        Ok(kind) => match u32_at(bytes, kind.1) {
            Err(error) => Err(error),
            Ok(ordinal) => if kind.0 == 0 && ordinal.0 == 0 {
                Ok((CheckpointDevice::Cpu, ordinal.1))
            } else if kind.0 == 1 {
                Ok((CheckpointDevice::Cuda { ordinal: ordinal.0 }, ordinal.1))
            } else if kind.0 == 2 {
                Ok((CheckpointDevice::Metal { ordinal: ordinal.0 }, ordinal.1))
            } else {
                Err(invalid("device"))
            },
        },
    }
}

fn decode_device(reader: &mut ManifestReader<'_>) -> (r: Result<CheckpointDevice, CheckpointError>)
    requires
        old(reader).wf(),
    ensures
        final(reader).wf(),
        final(reader).bytes@ == old(reader).bytes@,
        reads(device_at(old(reader).bytes@, old(reader).offset as int), r, final(reader).offset),
{
    let kind: u8 = match reader.u8() {
        Ok(kind) => kind,
        Err(error) => {
            return Err(error);
        },
    };
    let ordinal: u32 = match reader.u32() {
        Ok(ordinal) => ordinal,
        Err(error) => {
            return Err(error);
        },
    };
    if kind == 0 && ordinal == 0 {
        return Ok(CheckpointDevice::Cpu);
    }
    if kind == 1 {
        return Ok(CheckpointDevice::Cuda { ordinal });
    }
    if kind == 2 {
        return Ok(CheckpointDevice::Metal { ordinal });
    }
    Err(CheckpointError::InvalidManifest("device"))
}

proof fn lemma_device_back(bytes: Seq<u8>, at: int, device: CheckpointDevice)
    requires
        stands(bytes, at, device_bytes(device)),
    ensures
        device_at(bytes, at) == Ok::<(CheckpointDevice, int), CheckpointError>((device, at + 5)),
        device_bytes(device).len() == 5,
{
    lemma_auto_spec_u32_to_from_le_bytes();
    let code = device.code();
    lemma_stands_split(bytes, at, seq![code.0], spec_u32_to_le_bytes(code.1));
    lemma_u8_back(bytes, at, code.0);
    lemma_u32_back(bytes, at + 1, code.1);
}

/// Bytes of a run behind its texts.
pub open spec fn run_tail_bytes(run: RunView) -> Seq<u8> {
    spec_u64_to_le_bytes(run.run_seed) + (spec_u16_to_le_bytes(run.map) + (spec_u16_to_le_bytes(
        run.hero,
    ) + (device_bytes(run.device) + (spec_u32_to_le_bytes(run.batch_size as u32) + (
    spec_u32_to_le_bytes(run.rules_audit_version) + config_bytes(run.mastery_config))))))
}

/// Bytes of a run.
pub open spec fn run_bytes(run: RunView) -> Seq<u8> {
    text_bytes(run.git_commit) + (text_bytes(run.simulator_commit) + (text_bytes(
        run.enabled_features,
    ) + (text_bytes(run.command_line) + run_tail_bytes(run))))
}

/// Failure of a run that has no byte form.
pub open spec fn run_encode_fault(run: RunView) -> Option<CheckpointError> {
    either(
        text_fault("text", run.git_commit),
        either(
            text_fault("text", run.simulator_commit),
            either(
                text_fault("text", run.enabled_features),
                either(
                    text_fault("text", run.command_line),
                    if run.batch_size > u32::MAX {
                        Some(invalid("batch size"))
                    } else {
                        None
                    },
                ),
            ),
        ),
    )
}

/// Writes a run.
pub fn encode_run(writer: &mut ManifestWriter, run: &CheckpointRun) -> (r: Result<
    (),
    CheckpointError,
>)
    ensures
        r == checked(run_encode_fault(run@)),
        r is Ok ==> final(writer).bytes@ == old(writer).bytes@ + run_bytes(run@),
{
    let ghost before = writer.bytes@;
    match writer.string(run.git_commit.as_str()) {
        Ok(()) => {},
        Err(error) => {
            return Err(error);
        },
    }
    match writer.string(run.simulator_commit.as_str()) {
        Ok(()) => {},
        Err(error) => {
            return Err(error);
        },
    }
    match writer.string(run.enabled_features.as_str()) {
        Ok(()) => {},
        Err(error) => {
            return Err(error);
        },
    }
    match writer.string(run.command_line.as_str()) {
        Ok(()) => {},
        Err(error) => {
            return Err(error);
        },
    }
    let ghost head = writer.bytes@;
    writer.u64(run.run_seed);
    writer.u16(run.map.0);
    writer.u16(run.hero.0);
    encode_device(writer, run.device);
    if run.batch_size > 0xffff_ffff {
        return Err(CheckpointError::InvalidManifest("batch size"));
    }
    writer.u32(run.batch_size as u32);
    writer.u32(run.rules_audit_version);
    mastery::encode_config(writer, run.mastery_config);
    proof {
        assert(writer.bytes@ =~= head + run_tail_bytes(run@));
        assert(writer.bytes@ =~= before + run_bytes(run@));
    }
    Ok(())
}

/// Four texts at a position.
pub open spec fn texts_at(bytes: Seq<u8>, at: int) -> Result<
    ((Seq<char>, Seq<char>, Seq<char>, Seq<char>), int),
    CheckpointError,
> {
    match text_at(bytes, at) {
        Err(error) => Err(error),
        Ok(first) => match text_at(bytes, first.1) {
            Err(error) => Err(error),
            Ok(second) => match text_at(bytes, second.1) {
                Err(error) => Err(error),
                Ok(third) => match text_at(bytes, third.1) {
                    Err(error) => Err(error),
                    Ok(fourth) => Ok(((first.0, second.0, third.0, fourth.0), fourth.1)),
                },
            },
        },
    }
}

/// Seed, map, hero, and device at a position.
pub open spec fn scope_at(bytes: Seq<u8>, at: int) -> Result<
    ((u64, u16, u16, CheckpointDevice), int),
    CheckpointError,
> {
    match u64_at(bytes, at) {
        Err(error) => Err(error),
        Ok(seed) => match u16_at(bytes, seed.1) {
            Err(error) => Err(error),
            Ok(map) => match u16_at(bytes, map.1) {
                Err(error) => Err(error),
                Ok(hero) => match device_at(bytes, hero.1) {
                    Err(error) => Err(error),
                    Ok(device) => Ok(((seed.0, map.0, hero.0, device.0), device.1)),
                },
            },
        },
    }
}

/// Run at a position.
pub open spec fn run_at(bytes: Seq<u8>, at: int) -> Result<(RunView, int), CheckpointError> {
    match texts_at(bytes, at) {
        Err(error) => Err(error),
        Ok(texts) => match scope_at(bytes, texts.1) {
            Err(error) => Err(error),
            Ok(scope) => match u32_at(bytes, scope.1) {
                Err(error) => Err(error),
                Ok(batch) => match u32_at(bytes, batch.1) {
                    Err(error) => Err(error),
                    Ok(rules) => match config_at(bytes, rules.1) {
                        Err(error) => Err(error),
                        Ok(config) => Ok(
                            (
                                RunView {
                                    mastery_config: config.0,
                                    git_commit: texts.0.0,
                                    simulator_commit: texts.0.1,
                                    enabled_features: texts.0.2,
                                    command_line: texts.0.3,
                                    run_seed: scope.0.0,
                                    map: scope.0.1,
                                    hero: scope.0.2,
                                    device: scope.0.3,
                                    batch_size: batch.0 as usize,
                                    rules_audit_version: rules.0,
                                },
                                config.1,
                            ),
                        ),
                    },
                },
            },
        },
    }
}

/// Reads a run.
pub fn decode_run(reader: &mut ManifestReader<'_>) -> (r: Result<CheckpointRun, CheckpointError>)
    requires
        old(reader).wf(),
    ensures
        final(reader).wf(),
        final(reader).bytes@ == old(reader).bytes@,
        match run_at(old(reader).bytes@, old(reader).offset as int) {
            Ok(part) => r matches Ok(run) && run@ == part.0 && final(reader).offset == part.1,
            Err(error) => r == Err::<CheckpointRun, CheckpointError>(error),
        },
        r matches Ok(run) ==> (run.mastery_config matches Some(config) ==> config.wf()),
{
    let git_commit = match reader.string() {
        Ok(text) => text,
        Err(error) => {
            return Err(error);
        },
    };
    let simulator_commit = match reader.string() {
        Ok(text) => text,
        Err(error) => {
            return Err(error);
        },
    };
    let enabled_features = match reader.string() {
        Ok(text) => text,
        Err(error) => {
            return Err(error);
        },
    };
    let command_line = match reader.string() {
        Ok(text) => text,
        Err(error) => {
            return Err(error);
        },
    };
    let run_seed: u64 = match reader.u64() {
        Ok(value) => value,
        Err(error) => {
            return Err(error);
        },
    };
    let map: u16 = match reader.u16() {
        Ok(value) => value,
        Err(error) => {
            return Err(error);
        },
    };
    let hero: u16 = match reader.u16() {
        Ok(value) => value,
        Err(error) => {
            return Err(error);
        },
    };
    let device = match decode_device(reader) {
        Ok(device) => device,
        Err(error) => {
            return Err(error);
        },
    };
    let batch_size: usize = match reader.u32() {
        Ok(value) => value as usize,
        Err(error) => {
            return Err(error);
        },
    };
    let rules_audit_version: u32 = match reader.u32() {
        Ok(value) => value,
        Err(error) => {
            return Err(error);
        },
    };
    let mastery_config = match mastery::decode_config(reader) {
        Ok(config) => config,
        Err(error) => {
            return Err(error);
        },
    };
    Ok(
        CheckpointRun {
            mastery_config,
            git_commit,
            simulator_commit,
            enabled_features,
            command_line,
            run_seed,
            map: MapId(map),
            hero: HeroId(hero),
            device,
            batch_size,
            rules_audit_version,
        },
    )
}

proof fn lemma_run_tail_back(bytes: Seq<u8>, at: int, run: RunView)
    requires
        run.batch_size <= u32::MAX,
        run.mastery_config matches Some(config) ==> config.wf(),
        stands(bytes, at, run_tail_bytes(run)),
    ensures
        scope_at(bytes, at) == Ok::<((u64, u16, u16, CheckpointDevice), int), CheckpointError>(
            ((run.run_seed, run.map, run.hero, run.device), at + 17),
        ),
        u32_at(bytes, at + 17) == Ok::<(u32, int), CheckpointError>(
            (run.batch_size as u32, at + 21),
        ),
        u32_at(bytes, at + 21) == Ok::<(u32, int), CheckpointError>(
            (run.rules_audit_version, at + 25),
        ),
        config_at(bytes, at + 25) == Ok::<(Option<MasteryConfig>, int), CheckpointError>(
            (run.mastery_config, at + run_tail_bytes(run).len()),
        ),
{
    lemma_auto_spec_u16_to_from_le_bytes();
    lemma_auto_spec_u32_to_from_le_bytes();
    lemma_auto_spec_u64_to_from_le_bytes();
    let g = config_bytes(run.mastery_config);
    let f = spec_u32_to_le_bytes(run.rules_audit_version) + g;
    let e = spec_u32_to_le_bytes(run.batch_size as u32) + f;
    let d = device_bytes(run.device) + e;
    let c = spec_u16_to_le_bytes(run.hero) + d;
    let b = spec_u16_to_le_bytes(run.map) + c;
    assert(device_bytes(run.device).len() == 5);
    lemma_stands_split(bytes, at, spec_u64_to_le_bytes(run.run_seed), b);
    lemma_stands_split(bytes, at + 8, spec_u16_to_le_bytes(run.map), c);
    lemma_stands_split(bytes, at + 10, spec_u16_to_le_bytes(run.hero), d);
    lemma_stands_split(bytes, at + 12, device_bytes(run.device), e);
    lemma_stands_split(bytes, at + 17, spec_u32_to_le_bytes(run.batch_size as u32), f);
    lemma_stands_split(bytes, at + 21, spec_u32_to_le_bytes(run.rules_audit_version), g);
    lemma_u64_back(bytes, at, run.run_seed);
    lemma_u16_back(bytes, at + 8, run.map);
    lemma_u16_back(bytes, at + 10, run.hero);
    lemma_device_back(bytes, at + 12, run.device);
    lemma_u32_back(bytes, at + 17, run.batch_size as u32);
    lemma_u32_back(bytes, at + 21, run.rules_audit_version);
    lemma_config_back(bytes, at + 25, run.mastery_config);
}

/// A written run reads back.
pub proof fn lemma_run_back(bytes: Seq<u8>, at: int, run: RunView)
    requires
        run_encode_fault(run) is None,
        run.mastery_config matches Some(config) ==> config.wf(),
        stands(bytes, at, run_bytes(run)),
    ensures
        run_at(bytes, at) == Ok::<(RunView, int), CheckpointError>(
            (run, at + run_bytes(run).len()),
        ),
{
    let tail = run_tail_bytes(run);
    let d = text_bytes(run.command_line) + tail;
    let c = text_bytes(run.enabled_features) + d;
    let b = text_bytes(run.simulator_commit) + c;
    let n1 = at + text_bytes(run.git_commit).len();
    let n2 = n1 + text_bytes(run.simulator_commit).len();
    let n3 = n2 + text_bytes(run.enabled_features).len();
    let n4 = n3 + text_bytes(run.command_line).len();
    lemma_stands_split(bytes, at, text_bytes(run.git_commit), b);
    lemma_stands_split(bytes, n1, text_bytes(run.simulator_commit), c);
    lemma_stands_split(bytes, n2, text_bytes(run.enabled_features), d);
    lemma_stands_split(bytes, n3, text_bytes(run.command_line), tail);
    lemma_text_back(bytes, at, run.git_commit);
    lemma_text_back(bytes, n1, run.simulator_commit);
    lemma_text_back(bytes, n2, run.enabled_features);
    lemma_text_back(bytes, n3, run.command_line);
    lemma_run_tail_back(bytes, n4, run);
}

/// Bytes of one random stream.
pub open spec fn stream_bytes(rng: RngView) -> Seq<u8> {
    text_bytes(rng.name) + (spec_u64_to_le_bytes(rng.state) + spec_u64_to_le_bytes(rng.draws))
}

/// Bytes of random streams, one behind the other.
pub open spec fn streams_bytes(list: Seq<RngView>) -> Seq<u8>
    decreases list.len(),
{
    if list.len() == 0 {
        Seq::empty()
    } else {
        stream_bytes(list[0]) + streams_bytes(list.drop_first())
    }
}

/// Bytes of references, one behind the other.
pub open spec fn references_bytes(list: Seq<u64>) -> Seq<u8>
    decreases list.len(),
{
    if list.len() == 0 {
        Seq::empty()
    } else {
        spec_u64_to_le_bytes(list[0]) + references_bytes(list.drop_first())
    }
}

/// Bytes of the counters of a resume state.
pub open spec fn counters_bytes(progress: ResumeView) -> Seq<u8> {
    spec_u64_to_le_bytes(progress.global_update) + (spec_u64_to_le_bytes(progress.policy_version)
        + (spec_u64_to_le_bytes(progress.scheduler_step) + (spec_u32_to_le_bytes(
        progress.curriculum_stage,
    ) + (spec_u64_to_le_bytes(progress.rollout_samples) + optional_bytes(
        progress.best_evaluation,
    )))))
}

/// Lowest byte of a count, which is all that a manifest holds of it.
pub open spec fn low_byte(count: nat) -> u8 {
    (count % 256) as u8
}

/// Bytes of a resume state.
pub open spec fn resume_bytes(progress: ResumeView) -> Seq<u8> {
    counters_bytes(progress) + (seq![low_byte(progress.rng_states.len())] + (streams_bytes(
        progress.rng_states,
    ) + (seq![low_byte(progress.league_references.len())] + (references_bytes(
        progress.league_references,
    ) + progress_bytes(progress.mastery)))))
}

/// Failure of the first random stream without a byte form.
pub open spec fn streams_encode_fault(list: Seq<RngView>) -> Option<CheckpointError>
    decreases list.len(),
{
    if list.len() == 0 {
        None
    } else {
        either(text_fault("text", list[0].name), streams_encode_fault(list.drop_first()))
    }
}

fn encode_streams(writer: &mut ManifestWriter, list: &Vec<RngCheckpoint>) -> (r: Result<
    (),
    CheckpointError,
>)
    ensures
        r == checked(streams_encode_fault(rng_views(list@))),
        r is Ok ==> final(writer).bytes@ == old(writer).bytes@ + streams_bytes(rng_views(list@)),
{
    let ghost views = rng_views(list@);
    let ghost before = writer.bytes@;
    let mut index: usize = 0;
    assert(views.skip(0) =~= views);
    assert(before + streams_bytes(views) =~= writer.bytes@ + streams_bytes(views));
    while index < list.len()
        invariant
            index <= list@.len(),
            views == rng_views(list@),
            before == old(writer).bytes@,
            writer.bytes@ + streams_bytes(views.skip(index as int)) == before + streams_bytes(
                views,
            ),
            streams_encode_fault(views) == streams_encode_fault(views.skip(index as int)),
        decreases list@.len() - index,
    {
        let ghost rest = views.skip(index as int);
        let ghost head = writer.bytes@;
        assert(rest[0] == list@[index as int]@);
        assert(rest.drop_first() =~= views.skip(index + 1));
        let rng = &list[index];
        match writer.string(rng.name.as_str()) {
            Ok(()) => {},
            Err(error) => {
                return Err(error);
            },
        }
        writer.u64(rng.state);
        writer.u64(rng.draws);
        proof {
            assert(writer.bytes@ =~= head + stream_bytes(rest[0]));
            assert(writer.bytes@ + streams_bytes(views.skip(index + 1)) =~= head + streams_bytes(
                rest,
            ));
        }
        index += 1;
    }
    assert(writer.bytes@ + Seq::<u8>::empty() =~= writer.bytes@);
    Ok(())
}

fn encode_references(writer: &mut ManifestWriter, list: &Vec<u64>)
    ensures
        final(writer).bytes@ == old(writer).bytes@ + references_bytes(list@),
{
    let ghost before = writer.bytes@;
    let mut index: usize = 0;
    assert(list@.skip(0) =~= list@);
    while index < list.len()
        invariant
            index <= list@.len(),
            before == old(writer).bytes@,
            writer.bytes@ + references_bytes(list@.skip(index as int)) == before
                + references_bytes(list@),
        decreases list@.len() - index,
    {
        let ghost rest = list@.skip(index as int);
        let ghost head = writer.bytes@;
        assert(rest.drop_first() =~= list@.skip(index + 1));
        writer.u64(list[index]);
        assert(writer.bytes@ + references_bytes(list@.skip(index + 1)) =~= head + references_bytes(
            rest,
        ));
        index += 1;
    }
    assert(writer.bytes@ + Seq::<u8>::empty() =~= writer.bytes@);
}

/// Writes a resume state; its lists are counted in one byte each.
pub fn encode_progress(writer: &mut ManifestWriter, progress: &CheckpointProgress) -> (r: Result<
    (),
    CheckpointError,
>)
    ensures
        r == checked(streams_encode_fault(progress@.rng_states)),
        r is Ok ==> final(writer).bytes@ == old(writer).bytes@ + resume_bytes(progress@),
{
    let ghost before = writer.bytes@;
    writer.u64(progress.global_update);
    writer.u64(progress.policy_version);
    writer.u64(progress.scheduler_step);
    writer.u32(progress.curriculum_stage);
    writer.u64(progress.rollout_samples);
    writer.option_f64(progress.best_evaluation);
    assert(writer.bytes@ =~= before + counters_bytes(progress@));
    writer.u8((progress.rng_states.len() % 256) as u8);
    match encode_streams(writer, &progress.rng_states) {
        Ok(()) => {},
        Err(error) => {
            return Err(error);
        },
    }
    writer.u8((progress.league_references.len() % 256) as u8);
    encode_references(writer, &progress.league_references);
    mastery::encode_progress(writer, &progress.mastery);
    assert(writer.bytes@ =~= before + resume_bytes(progress@));
    Ok(())
}

/// One random stream at a position; an invalid one is refused.
pub open spec fn stream_at(bytes: Seq<u8>, at: int) -> Result<(RngView, int), CheckpointError> {
    match text_at(bytes, at) {
        Err(error) => Err(error),
        Ok(name) => match u64_at(bytes, name.1) {
            Err(error) => Err(error),
            Ok(state) => match u64_at(bytes, state.1) {
                Err(error) => Err(error),
                Ok(draws) => {
                    let rng = RngView { name: name.0, state: state.0, draws: draws.0 };
                    match rng_fault(rng) {
                        Some(error) => Err(error),
                        None => Ok((rng, draws.1)),
                    }
                },
            },
        },
    }
}

/// Random streams at a position.
pub open spec fn streams_at(bytes: Seq<u8>, at: int, count: nat) -> Result<
    (Seq<RngView>, int),
    CheckpointError,
>
    decreases count,
{
    if count == 0 {
        Ok((Seq::empty(), at))
    } else {
        match stream_at(bytes, at) {
            Err(error) => Err(error),
            Ok(first) => match streams_at(bytes, first.1, (count - 1) as nat) {
                Err(error) => Err(error),
                Ok(rest) => Ok((seq![first.0] + rest.0, rest.1)),
            },
        }
    }
}

/// References at a position.
pub open spec fn references_at(bytes: Seq<u8>, at: int, count: nat) -> Result<
    (Seq<u64>, int),
    CheckpointError,
>
    decreases count,
{
    if count == 0 {
        Ok((Seq::empty(), at))
    } else {
        match u64_at(bytes, at) {
            Err(error) => Err(error),
            Ok(first) => match references_at(bytes, first.1, (count - 1) as nat) {
                Err(error) => Err(error),
                Ok(rest) => Ok((seq![first.0] + rest.0, rest.1)),
            },
        }
    }
}

/// Counters of a resume state.
pub struct ResumeCounters {
    pub global_update: u64,
    pub policy_version: u64,
    pub scheduler_step: u64,
    pub curriculum_stage: u32,
    pub rollout_samples: u64,
    pub best_evaluation: Option<u64>,
}

/// Counters at a position.
pub open spec fn counters_at(bytes: Seq<u8>, at: int) -> Result<
    (ResumeCounters, int),
    CheckpointError,
> {
    match u64_at(bytes, at) {
        Err(error) => Err(error),
        Ok(update) => match u64_at(bytes, update.1) {
            Err(error) => Err(error),
            Ok(policy) => match u64_at(bytes, policy.1) {
                Err(error) => Err(error),
                Ok(scheduler) => match u32_at(bytes, scheduler.1) {
                    Err(error) => Err(error),
                    Ok(stage) => match u64_at(bytes, stage.1) {
                        Err(error) => Err(error),
                        Ok(samples) => match optional_at(bytes, samples.1) {
                            Err(error) => Err(error),
                            Ok(best) => Ok(
                                (
                                    ResumeCounters {
                                        global_update: update.0,
                                        policy_version: policy.0,
                                        scheduler_step: scheduler.0,
                                        curriculum_stage: stage.0,
                                        rollout_samples: samples.0,
                                        best_evaluation: best.0,
                                    },
                                    best.1,
                                ),
                            ),
                        },
                    },
                },
            },
        },
    }
}

/// Resume state at a position, under the thresholds of its run.
pub open spec fn resume_at(bytes: Seq<u8>, at: int, config: Option<MasteryConfig>) -> Result<
    (ResumeView, int),
    CheckpointError,
> {
    match counters_at(bytes, at) {
        Err(error) => Err(error),
        Ok(counters) => match count_at(bytes, counters.1, MAX_RNG_STATES) {
            Err(error) => Err(error),
            Ok(stream_count) => match streams_at(bytes, stream_count.1, stream_count.0 as nat) {
                Err(error) => Err(error),
                Ok(streams) => match count_at(bytes, streams.1, MAX_LEAGUE_REFERENCES) {
                    Err(error) => Err(error),
                    Ok(reference_count) => match references_at(
                        bytes,
                        reference_count.1,
                        reference_count.0 as nat,
                    ) {
                        Err(error) => Err(error),
                        Ok(references) => match progress_at(bytes, references.1, config) {
                            Err(error) => Err(error),
                            Ok(mastery) => Ok(
                                (
                                    ResumeView {
                                        mastery: mastery.0,
                                        global_update: counters.0.global_update,
                                        policy_version: counters.0.policy_version,
                                        scheduler_step: counters.0.scheduler_step,
                                        curriculum_stage: counters.0.curriculum_stage,
                                        rollout_samples: counters.0.rollout_samples,
                                        best_evaluation: counters.0.best_evaluation,
                                        rng_states: streams.0,
                                        league_references: references.0,
                                    },
                                    mastery.1,
                                ),
                            ),
                        },
                    },
                },
            },
        },
    }
}

fn decode_stream(reader: &mut ManifestReader<'_>) -> (r: Result<RngCheckpoint, CheckpointError>)
    requires
        old(reader).wf(),
    ensures
        final(reader).wf(),
        final(reader).bytes@ == old(reader).bytes@,
        match stream_at(old(reader).bytes@, old(reader).offset as int) {
            Ok(part) => r matches Ok(rng) && rng@ == part.0 && final(reader).offset == part.1,
            Err(error) => r == Err::<RngCheckpoint, CheckpointError>(error),
        },
{
    let name = match reader.string() {
        Ok(name) => name,
        Err(error) => {
            return Err(error);
        },
    };
    let state: u64 = match reader.u64() {
        Ok(value) => value,
        Err(error) => {
            return Err(error);
        },
    };
    let draws: u64 = match reader.u64() {
        Ok(value) => value,
        Err(error) => {
            return Err(error);
        },
    };
    RngCheckpoint::new(name, state, draws)
}

fn decode_streams(reader: &mut ManifestReader<'_>, count: usize) -> (r: Result<
    Vec<RngCheckpoint>,
    CheckpointError,
>)
    requires
        old(reader).wf(),
    ensures
        final(reader).wf(),
        final(reader).bytes@ == old(reader).bytes@,
        match streams_at(old(reader).bytes@, old(reader).offset as int, count as nat) {
            Ok(part) => r matches Ok(list) && rng_views(list@) == part.0 && final(reader).offset
                == part.1,
            Err(error) => r == Err::<Vec<RngCheckpoint>, CheckpointError>(error),
        },
{
    let ghost bytes = reader.bytes@;
    let ghost begin = reader.offset as int;
    let mut list: Vec<RngCheckpoint> = Vec::new();
    proof {
        assert(rng_views(list@) =~= Seq::<RngView>::empty());
        match streams_at(bytes, begin, count as nat) {
            Ok(part) => {
                assert(Seq::<RngView>::empty() + part.0 =~= part.0);
            },
            Err(_) => {},
        }
    }
    while list.len() < count
        invariant
            reader.wf(),
            reader.bytes@ == bytes,
            bytes == old(reader).bytes@,
            begin == old(reader).offset,
            list@.len() <= count,
            streams_at(bytes, begin, count as nat) == match streams_at(
                bytes,
                reader.offset as int,
                (count - list@.len()) as nat,
            ) {
                Ok(part) => Ok::<(Seq<RngView>, int), CheckpointError>(
                    (rng_views(list@) + part.0, part.1),
                ),
                Err(error) => Err(error),
            },
        decreases count - list@.len(),
    {
        let rng = match decode_stream(reader) {
            Ok(rng) => rng,
            Err(error) => {
                return Err(error);
            },
        };
        let ghost before = rng_views(list@);
        let ghost added = rng@;
        list.push(rng);
        proof {
            assert(rng_views(list@) =~= before.push(added));
            match streams_at(bytes, reader.offset as int, (count - list@.len()) as nat) {
                Ok(part) => {
                    assert(before + (seq![added] + part.0) =~= rng_views(list@) + part.0);
                },
                Err(_) => {},
            }
        }
    }
    assert(rng_views(list@) + Seq::<RngView>::empty() =~= rng_views(list@));
    Ok(list)
}

fn decode_references(reader: &mut ManifestReader<'_>, count: usize) -> (r: Result<
    Vec<u64>,
    CheckpointError,
>)
    requires
        old(reader).wf(),
    ensures
        final(reader).wf(),
        final(reader).bytes@ == old(reader).bytes@,
        match references_at(old(reader).bytes@, old(reader).offset as int, count as nat) {
            Ok(part) => r matches Ok(list) && list@ == part.0 && final(reader).offset == part.1,
            Err(error) => r == Err::<Vec<u64>, CheckpointError>(error),
        },
{
    let ghost bytes = reader.bytes@;
    let ghost begin = reader.offset as int;
    let mut list: Vec<u64> = Vec::new();
    proof {
        match references_at(bytes, begin, count as nat) {
            Ok(part) => {
                assert(Seq::<u64>::empty() + part.0 =~= part.0);
            },
            Err(_) => {},
        }
    }
    while list.len() < count
        invariant
            reader.wf(),
            reader.bytes@ == bytes,
            bytes == old(reader).bytes@,
            begin == old(reader).offset,
            list@.len() <= count,
            references_at(bytes, begin, count as nat) == match references_at(
                bytes,
                reader.offset as int,
                (count - list@.len()) as nat,
            ) {
                Ok(part) => Ok::<(Seq<u64>, int), CheckpointError>((list@ + part.0, part.1)),
                Err(error) => Err(error),
            },
        decreases count - list@.len(),
    {
        let reference: u64 = match reader.u64() {
            Ok(value) => value,
            Err(error) => {
                return Err(error);
            },
        };
        let ghost before = list@;
        list.push(reference);
        proof {
            match references_at(bytes, reader.offset as int, (count - list@.len()) as nat) {
                Ok(part) => {
                    assert(before + (seq![reference] + part.0) =~= list@ + part.0);
                },
                Err(_) => {},
            }
        }
    }
    assert(list@ + Seq::<u64>::empty() =~= list@);
    Ok(list)
}

fn decode_counters(reader: &mut ManifestReader<'_>) -> (r: Result<ResumeCounters, CheckpointError>)
    requires
        old(reader).wf(),
    ensures
        final(reader).wf(),
        final(reader).bytes@ == old(reader).bytes@,
        reads(counters_at(old(reader).bytes@, old(reader).offset as int), r, final(reader).offset),
{
    let global_update: u64 = match reader.u64() {
        Ok(value) => value,
        Err(error) => {
            return Err(error);
        },
    };
    let policy_version: u64 = match reader.u64() {
        Ok(value) => value,
        Err(error) => {
            return Err(error);
        },
    };
    let scheduler_step: u64 = match reader.u64() {
        Ok(value) => value,
        Err(error) => {
            return Err(error);
        },
    };
    let curriculum_stage: u32 = match reader.u32() {
        Ok(value) => value,
        Err(error) => {
            return Err(error);
        },
    };
    let rollout_samples: u64 = match reader.u64() {
        Ok(value) => value,
        Err(error) => {
            return Err(error);
        },
    };
    let best_evaluation = match reader.option_f64() {
        Ok(value) => value,
        Err(error) => {
            return Err(error);
        },
    };
    Ok(
        ResumeCounters {
            global_update,
            policy_version,
            scheduler_step,
            curriculum_stage,
            rollout_samples,
            best_evaluation,
        },
    )
}

/// Reads a resume state under the thresholds of its run.
pub fn decode_progress(reader: &mut ManifestReader<'_>, config: Option<MasteryConfig>) -> (r: Result<
    CheckpointProgress,
    CheckpointError,
>)
    requires
        old(reader).wf(),
    ensures
        final(reader).wf(),
        final(reader).bytes@ == old(reader).bytes@,
        match resume_at(old(reader).bytes@, old(reader).offset as int, config) {
            Ok(part) => r matches Ok(progress) && progress@ == part.0 && final(reader).offset
                == part.1,
            Err(error) => r == Err::<CheckpointProgress, CheckpointError>(error),
        },
        r matches Ok(progress) ==> progress.rng_states@.len() <= 255
            && progress.league_references@.len() <= 255,
{
    let counters = match decode_counters(reader) {
        Ok(counters) => counters,
        Err(error) => {
            return Err(error);
        },
    };
    let stream_count: usize = match reader.bounded_count(MAX_RNG_STATES) {
        Ok(count) => count,
        Err(error) => {
            return Err(error);
        },
    };
    proof {
        lemma_streams_len(reader.bytes@, reader.offset as int, stream_count as nat);
    }
    let rng_states = match decode_streams(reader, stream_count) {
        Ok(list) => list,
        Err(error) => {
            return Err(error);
        },
    };
    let reference_count: usize = match reader.bounded_count(MAX_LEAGUE_REFERENCES) {
        Ok(count) => count,
        Err(error) => {
            return Err(error);
        },
    };
    proof {
        lemma_references_len(reader.bytes@, reader.offset as int, reference_count as nat);
    }
    let league_references = match decode_references(reader, reference_count) {
        Ok(list) => list,
        Err(error) => {
            return Err(error);
        },
    };
    let mastery = match mastery::decode_progress(reader, config) {
        Ok(mastery) => mastery,
        Err(error) => {
            return Err(error);
        },
    };
    Ok(
        CheckpointProgress {
            mastery,
            global_update: counters.global_update,
            policy_version: counters.policy_version,
            scheduler_step: counters.scheduler_step,
            curriculum_stage: counters.curriculum_stage,
            rollout_samples: counters.rollout_samples,
            best_evaluation: counters.best_evaluation,
            rng_states,
            league_references,
        },
    )
}

proof fn lemma_streams_len(bytes: Seq<u8>, at: int, count: nat)
    ensures
        streams_at(bytes, at, count) matches Ok(part) ==> part.0.len() == count,
    decreases count,
{
    if count > 0 {
        match stream_at(bytes, at) {
            Ok(first) => {
                lemma_streams_len(bytes, first.1, (count - 1) as nat);
            },
            Err(_) => {},
        }
    }
}

proof fn lemma_references_len(bytes: Seq<u8>, at: int, count: nat)
    ensures
        references_at(bytes, at, count) matches Ok(part) ==> part.0.len() == count,
    decreases count,
{
    if count > 0 {
        match u64_at(bytes, at) {
            Ok(first) => {
                lemma_references_len(bytes, first.1, (count - 1) as nat);
            },
            Err(_) => {},
        }
    }
}

proof fn lemma_counters_back(bytes: Seq<u8>, at: int, progress: ResumeView)
    requires
        stands(bytes, at, counters_bytes(progress)),
    ensures
        counters_at(bytes, at) == Ok::<(ResumeCounters, int), CheckpointError>(
            (
                ResumeCounters {
                    global_update: progress.global_update,
                    policy_version: progress.policy_version,
                    scheduler_step: progress.scheduler_step,
                    curriculum_stage: progress.curriculum_stage,
                    rollout_samples: progress.rollout_samples,
                    best_evaluation: progress.best_evaluation,
                },
                at + 45,
            ),
        ),
        counters_bytes(progress).len() == 45,
{
    lemma_auto_spec_u32_to_from_le_bytes();
    lemma_auto_spec_u64_to_from_le_bytes();
    let f = optional_bytes(progress.best_evaluation);
    let e = spec_u64_to_le_bytes(progress.rollout_samples) + f;
    let d = spec_u32_to_le_bytes(progress.curriculum_stage) + e;
    let c = spec_u64_to_le_bytes(progress.scheduler_step) + d;
    let b = spec_u64_to_le_bytes(progress.policy_version) + c;
    lemma_stands_split(bytes, at, spec_u64_to_le_bytes(progress.global_update), b);
    lemma_stands_split(bytes, at + 8, spec_u64_to_le_bytes(progress.policy_version), c);
    lemma_stands_split(bytes, at + 16, spec_u64_to_le_bytes(progress.scheduler_step), d);
    lemma_stands_split(bytes, at + 24, spec_u32_to_le_bytes(progress.curriculum_stage), e);
    lemma_stands_split(bytes, at + 28, spec_u64_to_le_bytes(progress.rollout_samples), f);
    lemma_u64_back(bytes, at, progress.global_update);
    lemma_u64_back(bytes, at + 8, progress.policy_version);
    lemma_u64_back(bytes, at + 16, progress.scheduler_step);
    lemma_u32_back(bytes, at + 24, progress.curriculum_stage);
    lemma_u64_back(bytes, at + 28, progress.rollout_samples);
    lemma_optional_back(bytes, at + 36, progress.best_evaluation);
}

proof fn lemma_streams_back(bytes: Seq<u8>, at: int, list: Seq<RngView>)
    requires
        forall|i: int| 0 <= i < list.len() ==> rng_fault(#[trigger] list[i]) is None,
        stands(bytes, at, streams_bytes(list)),
    ensures
        streams_at(bytes, at, list.len()) == Ok::<(Seq<RngView>, int), CheckpointError>(
            (list, at + streams_bytes(list).len()),
        ),
    decreases list.len(),
{
    if list.len() > 0 {
        let first = list[0];
        let rest = list.drop_first();
        let numbers = spec_u64_to_le_bytes(first.state) + spec_u64_to_le_bytes(first.draws);
        let n1 = at + text_bytes(first.name).len();
        lemma_auto_spec_u64_to_from_le_bytes();
        lemma_stands_split(bytes, at, stream_bytes(first), streams_bytes(rest));
        lemma_stands_split(bytes, at, text_bytes(first.name), numbers);
        lemma_stands_split(
            bytes,
            n1,
            spec_u64_to_le_bytes(first.state),
            spec_u64_to_le_bytes(first.draws),
        );
        assert(rng_fault(list[0]) is None);
        lemma_text_back(bytes, at, first.name);
        lemma_u64_back(bytes, n1, first.state);
        lemma_u64_back(bytes, n1 + 8, first.draws);
        assert forall|i: int| 0 <= i < rest.len() implies rng_fault(#[trigger] rest[i]) is None by {
            assert(rest[i] == list[i + 1]);
        }
        lemma_streams_back(bytes, n1 + 16, rest);
        assert(seq![first] + rest =~= list);
    } else {
        assert(list =~= Seq::<RngView>::empty());
    }
}

proof fn lemma_references_back(bytes: Seq<u8>, at: int, list: Seq<u64>)
    requires
        stands(bytes, at, references_bytes(list)),
    ensures
        references_at(bytes, at, list.len()) == Ok::<(Seq<u64>, int), CheckpointError>(
            (list, at + references_bytes(list).len()),
        ),
    decreases list.len(),
{
    if list.len() > 0 {
        let rest = list.drop_first();
        lemma_auto_spec_u64_to_from_le_bytes();
        lemma_stands_split(bytes, at, spec_u64_to_le_bytes(list[0]), references_bytes(rest));
        lemma_u64_back(bytes, at, list[0]);
        lemma_references_back(bytes, at + 8, rest);
        assert(seq![list[0]] + rest =~= list);
    } else {
        assert(list =~= Seq::<u64>::empty());
    }
}

/// A written resume state reads back.
pub proof fn lemma_resume_back(
    bytes: Seq<u8>,
    at: int,
    progress: ResumeView,
    config: Option<MasteryConfig>,
)
    requires
        progress.rng_states.len() <= MAX_RNG_STATES,
        progress.league_references.len() <= MAX_LEAGUE_REFERENCES,
        forall|i: int|
            0 <= i < progress.rng_states.len() ==> rng_fault(
                #[trigger] progress.rng_states[i],
            ) is None,
        progress.mastery matches Some(value) ==> (config matches Some(limits) && limits.wf()
            && value.fits(limits)),
        stands(bytes, at, resume_bytes(progress)),
    ensures
        resume_at(bytes, at, config) == Ok::<(ResumeView, int), CheckpointError>(
            (progress, at + resume_bytes(progress).len()),
        ),
{
    let mastery = progress_bytes(progress.mastery);
    let references = references_bytes(progress.league_references);
    let streams = streams_bytes(progress.rng_states);
    let e = references + mastery;
    let d = seq![low_byte(progress.league_references.len())] + e;
    let c = streams + d;
    let b = seq![low_byte(progress.rng_states.len())] + c;
    lemma_stands_split(bytes, at, counters_bytes(progress), b);
    lemma_counters_back(bytes, at, progress);
    let n1 = at + 45;
    lemma_stands_split(bytes, n1, seq![low_byte(progress.rng_states.len())], c);
    lemma_u8_back(bytes, n1, low_byte(progress.rng_states.len()));
    lemma_stands_split(bytes, n1 + 1, streams, d);
    lemma_streams_back(bytes, n1 + 1, progress.rng_states);
    let n2 = n1 + 1 + streams.len();
    lemma_stands_split(bytes, n2, seq![low_byte(progress.league_references.len())], e);
    lemma_u8_back(bytes, n2, low_byte(progress.league_references.len()));
    lemma_stands_split(bytes, n2 + 1, references, mastery);
    lemma_references_back(bytes, n2 + 1, progress.league_references);
    lemma_progress_back(bytes, n2 + 1 + references.len(), progress.mastery, config);
}

/// Words of a configuration: cadence, dimensions, and real numbers as bits.
pub open spec fn config_words(config: PpoConfig) -> Seq<u32> {
    seq![
        config.decision_interval_ticks,
        config.rollout_decisions as u32,
        config.environments as u32,
        config.epochs as u32,
        config.minibatch as u32,
        config.clip_epsilon,
        config.value_coefficient,
        config.entropy_coefficient,
        config.learning_rate,
        config.adam_beta1,
        config.adam_beta2,
        config.adam_epsilon,
        config.gradient_clip,
        config.gamma_tick,
        config.gae_lambda,
        config.target_kl,
    ]
}

/// Bytes of words, one behind the other.
pub open spec fn words_bytes(words: Seq<u32>) -> Seq<u8>
    decreases words.len(),
{
    if words.len() == 0 {
        Seq::empty()
    } else {
        spec_u32_to_le_bytes(words[0]) + words_bytes(words.drop_first())
    }
}

/// Failure of a configuration without a byte form.
pub open spec fn config_encode_fault(config: PpoConfig) -> Option<CheckpointError> {
    if config.rollout_decisions > u32::MAX || config.environments > u32::MAX || config.epochs
        > u32::MAX || config.minibatch > u32::MAX {
        Some(invalid("PPO dimension"))
    } else {
        None
    }
}

fn encode_words(writer: &mut ManifestWriter, words: &Vec<u32>)
    ensures
        final(writer).bytes@ == old(writer).bytes@ + words_bytes(words@),
{
    let ghost before = writer.bytes@;
    let mut index: usize = 0;
    assert(words@.skip(0) =~= words@);
    while index < words.len()
        invariant
            index <= words@.len(),
            before == old(writer).bytes@,
            writer.bytes@ + words_bytes(words@.skip(index as int)) == before + words_bytes(words@),
        decreases words@.len() - index,
    {
        let ghost rest = words@.skip(index as int);
        let ghost head = writer.bytes@;
        assert(rest.drop_first() =~= words@.skip(index + 1));
        writer.u32(words[index]);
        assert(writer.bytes@ + words_bytes(words@.skip(index + 1)) =~= head + words_bytes(rest));
        index += 1;
    }
    assert(writer.bytes@ + Seq::<u8>::empty() =~= writer.bytes@);
}

/// Writes a configuration; its sample budget is told by the checkpoint identity.
pub fn encode_config(writer: &mut ManifestWriter, config: PpoConfig) -> (r: Result<
    (),
    CheckpointError,
>)
    ensures
        r == checked(config_encode_fault(config)),
        r is Ok ==> final(writer).bytes@ == old(writer).bytes@ + words_bytes(config_words(config)),
{
    if config.rollout_decisions > 0xffff_ffff || config.environments > 0xffff_ffff || config.epochs
        > 0xffff_ffff || config.minibatch > 0xffff_ffff {
        return Err(CheckpointError::InvalidManifest("PPO dimension"));
    }
    let words: Vec<u32> = vec![
        config.decision_interval_ticks,
        config.rollout_decisions as u32,
        config.environments as u32,
        config.epochs as u32,
        config.minibatch as u32,
        config.clip_epsilon,
        config.value_coefficient,
        config.entropy_coefficient,
        config.learning_rate,
        config.adam_beta1,
        config.adam_beta2,
        config.adam_epsilon,
        config.gradient_clip,
        config.gamma_tick,
        config.gae_lambda,
        config.target_kl,
    ];
    assert(words@ =~= config_words(config));
    encode_words(writer, &words);
    Ok(())
}

/// Words at a position.
pub open spec fn words_at(bytes: Seq<u8>, at: int, count: nat) -> Result<
    (Seq<u32>, int),
    CheckpointError,
>
    decreases count,
{
    if count == 0 {
        Ok((Seq::empty(), at))
    } else {
        match u32_at(bytes, at) {
            Err(error) => Err(error),
            Ok(first) => match words_at(bytes, first.1, (count - 1) as nat) {
                Err(error) => Err(error),
                Ok(rest) => Ok((seq![first.0] + rest.0, rest.1)),
            },
        }
    }
}

/// Configuration of words under a sample budget.
pub open spec fn words_config(words: Seq<u32>, budget: PpoSampleBudget) -> PpoConfig {
    PpoConfig {
        sample_budget: budget,
        decision_interval_ticks: words[0],
        rollout_decisions: words[1] as usize,
        environments: words[2] as usize,
        epochs: words[3] as usize,
        minibatch: words[4] as usize,
        clip_epsilon: words[5],
        value_coefficient: words[6],
        entropy_coefficient: words[7],
        learning_rate: words[8],
        adam_beta1: words[9],
        adam_beta2: words[10],
        adam_epsilon: words[11],
        gradient_clip: words[12],
        gamma_tick: words[13],
        gae_lambda: words[14],
        target_kl: words[15],
    }
}

/// Configuration at a position.
pub open spec fn ppo_at(bytes: Seq<u8>, at: int, budget: PpoSampleBudget) -> Result<
    (PpoConfig, int),
    CheckpointError,
> {
    match words_at(bytes, at, 16) {
        Err(error) => Err(error),
        Ok(words) => Ok((words_config(words.0, budget), words.1)),
    }
}

fn decode_words(reader: &mut ManifestReader<'_>, count: usize) -> (r: Result<
    Vec<u32>,
    CheckpointError,
>)
    requires
        old(reader).wf(),
    ensures
        final(reader).wf(),
        final(reader).bytes@ == old(reader).bytes@,
        match words_at(old(reader).bytes@, old(reader).offset as int, count as nat) {
            Ok(part) => r matches Ok(list) && list@ == part.0 && final(reader).offset == part.1,
            Err(error) => r == Err::<Vec<u32>, CheckpointError>(error),
        },
        r matches Ok(list) ==> list@.len() == count,
{
    let ghost bytes = reader.bytes@;
    let ghost begin = reader.offset as int;
    let mut list: Vec<u32> = Vec::new();
    proof {
        match words_at(bytes, begin, count as nat) {
            Ok(part) => {
                assert(Seq::<u32>::empty() + part.0 =~= part.0);
            },
            Err(_) => {},
        }
    }
    while list.len() < count
        invariant
            reader.wf(),
            reader.bytes@ == bytes,
            bytes == old(reader).bytes@,
            begin == old(reader).offset,
            list@.len() <= count,
            words_at(bytes, begin, count as nat) == match words_at(
                bytes,
                reader.offset as int,
                (count - list@.len()) as nat,
            ) {
                Ok(part) => Ok::<(Seq<u32>, int), CheckpointError>((list@ + part.0, part.1)),
                Err(error) => Err(error),
            },
        decreases count - list@.len(),
    {
        let word: u32 = match reader.u32() {
            Ok(value) => value,
            Err(error) => {
                return Err(error);
            },
        };
        let ghost before = list@;
        list.push(word);
        proof {
            match words_at(bytes, reader.offset as int, (count - list@.len()) as nat) {
                Ok(part) => {
                    assert(before + (seq![word] + part.0) =~= list@ + part.0);
                },
                Err(_) => {},
            }
        }
    }
    assert(list@ + Seq::<u32>::empty() =~= list@);
    Ok(list)
}

/// Reads a configuration under a sample budget.
pub fn decode_config(reader: &mut ManifestReader<'_>, budget: PpoSampleBudget) -> (r: Result<
    PpoConfig,
    CheckpointError,
>)
    requires
        old(reader).wf(),
    ensures
        final(reader).wf(),
        final(reader).bytes@ == old(reader).bytes@,
        reads(ppo_at(old(reader).bytes@, old(reader).offset as int, budget), r, final(reader).offset),
{
    let words = match decode_words(reader, 16) {
        Ok(words) => words,
        Err(error) => {
            return Err(error);
        },
    };
    Ok(
        PpoConfig {
            sample_budget: budget,
            decision_interval_ticks: words[0],
            rollout_decisions: words[1] as usize,
            environments: words[2] as usize,
            epochs: words[3] as usize,
            minibatch: words[4] as usize,
            clip_epsilon: words[5],
            value_coefficient: words[6],
            entropy_coefficient: words[7],
            learning_rate: words[8],
            adam_beta1: words[9],
            adam_beta2: words[10],
            adam_epsilon: words[11],
            gradient_clip: words[12],
            gamma_tick: words[13],
            gae_lambda: words[14],
            target_kl: words[15],
        },
    )
}

proof fn lemma_words_back(bytes: Seq<u8>, at: int, words: Seq<u32>)
    requires
        stands(bytes, at, words_bytes(words)),
    ensures
        words_at(bytes, at, words.len()) == Ok::<(Seq<u32>, int), CheckpointError>(
            (words, at + 4 * words.len()),
        ),
        words_bytes(words).len() == 4 * words.len(),
    decreases words.len(),
{
    if words.len() > 0 {
        let rest = words.drop_first();
        lemma_auto_spec_u32_to_from_le_bytes();
        lemma_stands_split(bytes, at, spec_u32_to_le_bytes(words[0]), words_bytes(rest));
        lemma_u32_back(bytes, at, words[0]);
        lemma_words_back(bytes, at + 4, rest);
        assert(seq![words[0]] + rest =~= words);
    } else {
        assert(words =~= Seq::<u32>::empty());
    }
}

/// A written configuration reads back.
pub proof fn lemma_ppo_back(bytes: Seq<u8>, at: int, config: PpoConfig)
    requires
        config_encode_fault(config) is None,
        stands(bytes, at, words_bytes(config_words(config))),
    ensures
        ppo_at(bytes, at, config.sample_budget) == Ok::<(PpoConfig, int), CheckpointError>(
            (config, at + 64),
        ),
        words_bytes(config_words(config)).len() == 64,
{
    lemma_words_back(bytes, at, config_words(config));
}

} // verus!
