//! Manifests that end early or go on: what reading a prefix gives.
use crate::artifact::{body_at, ending_at, identity_at, manifest_of, Ending, ManifestView};
use crate::checkpoint::{CheckpointContract, SchemaLink, MAX_LEAGUE_REFERENCES, MAX_RNG_STATES};
use crate::checkpoint_codec::{
    counters_at, device_at, link_at, links_at, ppo_at, profile_links, references_at, resume_at,
    run_at, scope_at, stream_at, streams_at, texts_at, words_at,
};
use crate::manifest::{
    count_at, optional_at, take_at, text_at, u16_at, u32_at, u64_at, u8_at, CheckpointError,
};
use crate::mastery::{config_at, outcomes_at, present_progress_at, progress_at, MasteryConfig};
use crate::settings::PpoSampleBudget;
use vstd::prelude::*;

verus! {

/// Whether reading a prefix agrees with reading the whole: what ends inside the prefix reads the
/// same, and what goes on behind it is truncated.
pub open spec fn reads_on<T>(
    whole: Result<(T, int), CheckpointError>,
    prefix: Result<(T, int), CheckpointError>,
    at: int,
    end: int,
    length: int,
) -> bool {
    &&& whole matches Ok(part) ==> at <= part.1 <= length
    &&& at <= end ==> (whole matches Ok(part) ==> if part.1 <= end {
        prefix == whole
    } else {
        prefix == Err::<(T, int), CheckpointError>(CheckpointError::ManifestTruncated)
    })
    &&& at <= end ==> (prefix matches Ok(part) ==> whole == prefix && part.1 <= end)
}

/// Whether skipping in a prefix agrees with skipping in the whole.
pub open spec fn skips_on(
    whole: Result<int, CheckpointError>,
    prefix: Result<int, CheckpointError>,
    at: int,
    end: int,
    length: int,
) -> bool {
    &&& whole matches Ok(next) ==> at <= next <= length
    &&& at <= end ==> (whole matches Ok(next) ==> if next <= end {
        prefix == whole
    } else {
        prefix == Err::<int, CheckpointError>(CheckpointError::ManifestTruncated)
    })
    &&& at <= end ==> (prefix matches Ok(next) ==> whole == prefix && next <= end)
}

proof fn cut_take(bytes: Seq<u8>, at: int, end: int, count: int)
    requires
        0 <= at <= bytes.len(),
        0 <= end <= bytes.len(),
        0 <= count,
    ensures
        reads_on(
            take_at(bytes, at, count),
            take_at(bytes.take(end), at, count),
            at,
            end,
            bytes.len() as int,
        ),
{
    if at + count <= end {
        assert(bytes.take(end).subrange(at, at + count) =~= bytes.subrange(at, at + count));
    }
}

proof fn cut_u8(bytes: Seq<u8>, at: int, end: int)
    requires
        0 <= at <= bytes.len(),
        0 <= end <= bytes.len(),
    ensures
        reads_on(
            u8_at(bytes, at),
            u8_at(bytes.take(end), at),
            at,
            end,
            bytes.len() as int,
        ),
{
    cut_take(bytes, at, end, 1);
}

proof fn cut_u16(bytes: Seq<u8>, at: int, end: int)
    requires
        0 <= at <= bytes.len(),
        0 <= end <= bytes.len(),
    ensures
        reads_on(
            u16_at(bytes, at),
            u16_at(bytes.take(end), at),
            at,
            end,
            bytes.len() as int,
        ),
{
    cut_take(bytes, at, end, 2);
}

proof fn cut_u32(bytes: Seq<u8>, at: int, end: int)
    requires
        0 <= at <= bytes.len(),
        0 <= end <= bytes.len(),
    ensures
        reads_on(
            u32_at(bytes, at),
            u32_at(bytes.take(end), at),
            at,
            end,
            bytes.len() as int,
        ),
{
    cut_take(bytes, at, end, 4);
}

proof fn cut_u64(bytes: Seq<u8>, at: int, end: int)
    requires
        0 <= at <= bytes.len(),
        0 <= end <= bytes.len(),
    ensures
        reads_on(
            u64_at(bytes, at),
            u64_at(bytes.take(end), at),
            at,
            end,
            bytes.len() as int,
        ),
{
    cut_take(bytes, at, end, 8);
}

proof fn cut_text(bytes: Seq<u8>, at: int, end: int)
    requires
        0 <= at <= bytes.len(),
        0 <= end <= bytes.len(),
    ensures
        reads_on(
            text_at(bytes, at),
            text_at(bytes.take(end), at),
            at,
            end,
            bytes.len() as int,
        ),
{
    cut_u16(bytes, at, end);
    match u16_at(bytes, at) {
        Ok(count) => {
            cut_take(bytes, count.1, end, count.0 as int);
        },
        Err(_) => {},
    }
}

proof fn cut_optional(bytes: Seq<u8>, at: int, end: int)
    requires
        0 <= at <= bytes.len(),
        0 <= end <= bytes.len(),
    ensures
        reads_on(
            optional_at(bytes, at),
            optional_at(bytes.take(end), at),
            at,
            end,
            bytes.len() as int,
        ),
{
    cut_u8(bytes, at, end);
    match u8_at(bytes, at) {
        Ok(present) => {
            cut_u64(bytes, present.1, end);
        },
        Err(_) => {},
    }
}

proof fn cut_count(bytes: Seq<u8>, at: int, end: int, maximum: usize)
    requires
        0 <= at <= bytes.len(),
        0 <= end <= bytes.len(),
    ensures
        reads_on(
            count_at(bytes, at, maximum),
            count_at(bytes.take(end), at, maximum),
            at,
            end,
            bytes.len() as int,
        ),
{
    cut_u8(bytes, at, end);
}

proof fn cut_config(bytes: Seq<u8>, at: int, end: int)
    requires
        0 <= at <= bytes.len(),
        0 <= end <= bytes.len(),
    ensures
        reads_on(
            config_at(bytes, at),
            config_at(bytes.take(end), at),
            at,
            end,
            bytes.len() as int,
        ),
{
    cut_u8(bytes, at, end);
    match u8_at(bytes, at) {
        Ok(present) => {
            cut_u32(bytes, present.1, end);
            match u32_at(bytes, present.1) {
                Ok(window) => {
                    cut_u8(bytes, window.1, end);
                    match u8_at(bytes, window.1) {
                        Ok(weak) => {
                            cut_u8(bytes, weak.1, end);
                        },
                        Err(_) => {},
                    }
                },
                Err(_) => {},
            }
        },
        Err(_) => {},
    }
}

proof fn cut_outcomes(bytes: Seq<u8>, at: int, end: int, count: nat)
    requires
        0 <= at <= bytes.len(),
        0 <= end <= bytes.len(),
    ensures
        reads_on(
            outcomes_at(bytes, at, count),
            outcomes_at(bytes.take(end), at, count),
            at,
            end,
            bytes.len() as int,
        ),
    decreases count,
{
    if count > 0 {
        cut_u8(bytes, at, end);
        match u8_at(bytes, at) {
            Ok(flag) => {
                cut_outcomes(bytes, flag.1, end, (count - 1) as nat);
            },
            Err(_) => {},
        }
    }
}

proof fn cut_present_progress(bytes: Seq<u8>, at: int, end: int, config: MasteryConfig)
    requires
        0 <= at <= bytes.len(),
        0 <= end <= bytes.len(),
    ensures
        reads_on(
            present_progress_at(bytes, at, config),
            present_progress_at(bytes.take(end), at, config),
            at,
            end,
            bytes.len() as int,
        ),
{
    cut_u8(bytes, at, end);
    match u8_at(bytes, at) {
        Ok(code) => {
            cut_u64(bytes, code.1, end);
            match u64_at(bytes, code.1) {
                Ok(games) => {
                    cut_u32(bytes, games.1, end);
                    match u32_at(bytes, games.1) {
                        Ok(count) => {
                            cut_outcomes(bytes, count.1, end, count.0 as nat);
                        },
                        Err(_) => {},
                    }
                },
                Err(_) => {},
            }
        },
        Err(_) => {},
    }
}

proof fn cut_progress(bytes: Seq<u8>, at: int, end: int, config: Option<MasteryConfig>)
    requires
        0 <= at <= bytes.len(),
        0 <= end <= bytes.len(),
    ensures
        reads_on(
            progress_at(bytes, at, config),
            progress_at(bytes.take(end), at, config),
            at,
            end,
            bytes.len() as int,
        ),
{
    cut_u8(bytes, at, end);
    match u8_at(bytes, at) {
        Ok(present) => {
            if config is Some {
                cut_present_progress(bytes, present.1, end, config->0);
            }
        },
        Err(_) => {},
    }
}

proof fn cut_link(bytes: Seq<u8>, at: int, end: int, link: SchemaLink)
    requires
        0 <= at <= bytes.len(),
        0 <= end <= bytes.len(),
    ensures
        skips_on(
            link_at(bytes, at, link),
            link_at(bytes.take(end), at, link),
            at,
            end,
            bytes.len() as int,
        ),
{
    cut_u32(bytes, at, end);
    match u32_at(bytes, at) {
        Ok(version) => {
            cut_u64(bytes, version.1, end);
        },
        Err(_) => {},
    }
}

proof fn cut_links(bytes: Seq<u8>, at: int, end: int, links: Seq<SchemaLink>)
    requires
        0 <= at <= bytes.len(),
        0 <= end <= bytes.len(),
    ensures
        skips_on(
            links_at(bytes, at, links),
            links_at(bytes.take(end), at, links),
            at,
            end,
            bytes.len() as int,
        ),
    decreases links.len(),
{
    if links.len() > 0 {
        cut_link(bytes, at, end, links[0]);
        match link_at(bytes, at, links[0]) {
            Ok(next) => {
                cut_links(bytes, next, end, links.drop_first());
            },
            Err(_) => {},
        }
    }
}

proof fn cut_device(bytes: Seq<u8>, at: int, end: int)
    requires
        0 <= at <= bytes.len(),
        0 <= end <= bytes.len(),
    ensures
        reads_on(
            device_at(bytes, at),
            device_at(bytes.take(end), at),
            at,
            end,
            bytes.len() as int,
        ),
{
    cut_u8(bytes, at, end);
    match u8_at(bytes, at) {
        Ok(kind) => {
            cut_u32(bytes, kind.1, end);
        },
        Err(_) => {},
    }
}

proof fn cut_texts(bytes: Seq<u8>, at: int, end: int)
    requires
        0 <= at <= bytes.len(),
        0 <= end <= bytes.len(),
    ensures
        reads_on(
            texts_at(bytes, at),
            texts_at(bytes.take(end), at),
            at,
            end,
            bytes.len() as int,
        ),
{
    cut_text(bytes, at, end);
    match text_at(bytes, at) {
        Ok(first) => {
            cut_text(bytes, first.1, end);
            match text_at(bytes, first.1) {
                Ok(second) => {
                    cut_text(bytes, second.1, end);
                    match text_at(bytes, second.1) {
                        Ok(third) => {
                            cut_text(bytes, third.1, end);
                        },
                        Err(_) => {},
                    }
                },
                Err(_) => {},
            }
        },
        Err(_) => {},
    }
}

proof fn cut_scope(bytes: Seq<u8>, at: int, end: int)
    requires
        0 <= at <= bytes.len(),
        0 <= end <= bytes.len(),
    ensures
        reads_on(
            scope_at(bytes, at),
            scope_at(bytes.take(end), at),
            at,
            end,
            bytes.len() as int,
        ),
{
    cut_u64(bytes, at, end);
    match u64_at(bytes, at) {
        Ok(seed) => {
            cut_u16(bytes, seed.1, end);
            match u16_at(bytes, seed.1) {
                Ok(map) => {
                    cut_u16(bytes, map.1, end);
                    match u16_at(bytes, map.1) {
                        Ok(hero) => {
                            cut_device(bytes, hero.1, end);
                        },
                        Err(_) => {},
                    }
                },
                Err(_) => {},
            }
        },
        Err(_) => {},
    }
}

proof fn cut_run(bytes: Seq<u8>, at: int, end: int)
    requires
        0 <= at <= bytes.len(),
        0 <= end <= bytes.len(),
    ensures
        reads_on(
            run_at(bytes, at),
            run_at(bytes.take(end), at),
            at,
            end,
            bytes.len() as int,
        ),
{
    cut_texts(bytes, at, end);
    match texts_at(bytes, at) {
        Ok(texts) => {
            cut_scope(bytes, texts.1, end);
            match scope_at(bytes, texts.1) {
                Ok(scope) => {
                    cut_u32(bytes, scope.1, end);
                    match u32_at(bytes, scope.1) {
                        Ok(batch) => {
                            cut_u32(bytes, batch.1, end);
                            match u32_at(bytes, batch.1) {
                                Ok(rules) => {
                                    cut_config(bytes, rules.1, end);
                                },
                                Err(_) => {},
                            }
                        },
                        Err(_) => {},
                    }
                },
                Err(_) => {},
            }
        },
        Err(_) => {},
    }
}

proof fn cut_stream(bytes: Seq<u8>, at: int, end: int)
    requires
        0 <= at <= bytes.len(),
        0 <= end <= bytes.len(),
    ensures
        reads_on(
            stream_at(bytes, at),
            stream_at(bytes.take(end), at),
            at,
            end,
            bytes.len() as int,
        ),
{
    cut_text(bytes, at, end);
    match text_at(bytes, at) {
        Ok(name) => {
            cut_u64(bytes, name.1, end);
            match u64_at(bytes, name.1) {
                Ok(state) => {
                    cut_u64(bytes, state.1, end);
                },
                Err(_) => {},
            }
        },
        Err(_) => {},
    }
}

proof fn cut_streams(bytes: Seq<u8>, at: int, end: int, count: nat)
    requires
        0 <= at <= bytes.len(),
        0 <= end <= bytes.len(),
    ensures
        reads_on(
            streams_at(bytes, at, count),
            streams_at(bytes.take(end), at, count),
            at,
            end,
            bytes.len() as int,
        ),
    decreases count,
{
    if count > 0 {
        cut_stream(bytes, at, end);
        match stream_at(bytes, at) {
            Ok(first) => {
                cut_streams(bytes, first.1, end, (count - 1) as nat);
            },
            Err(_) => {},
        }
    }
}

proof fn cut_references(bytes: Seq<u8>, at: int, end: int, count: nat)
    requires
        0 <= at <= bytes.len(),
        0 <= end <= bytes.len(),
    ensures
        reads_on(
            references_at(bytes, at, count),
            references_at(bytes.take(end), at, count),
            at,
            end,
            bytes.len() as int,
        ),
    decreases count,
{
    if count > 0 {
        cut_u64(bytes, at, end);
        match u64_at(bytes, at) {
            Ok(first) => {
                cut_references(bytes, first.1, end, (count - 1) as nat);
            },
            Err(_) => {},
        }
    }
}

proof fn cut_words(bytes: Seq<u8>, at: int, end: int, count: nat)
    requires
        0 <= at <= bytes.len(),
        0 <= end <= bytes.len(),
    ensures
        reads_on(
            words_at(bytes, at, count),
            words_at(bytes.take(end), at, count),
            at,
            end,
            bytes.len() as int,
        ),
    decreases count,
{
    if count > 0 {
        cut_u32(bytes, at, end);
        match u32_at(bytes, at) {
            Ok(first) => {
                cut_words(bytes, first.1, end, (count - 1) as nat);
            },
            Err(_) => {},
        }
    }
}

proof fn cut_counters(bytes: Seq<u8>, at: int, end: int)
    requires
        0 <= at <= bytes.len(),
        0 <= end <= bytes.len(),
    ensures
        reads_on(
            counters_at(bytes, at),
            counters_at(bytes.take(end), at),
            at,
            end,
            bytes.len() as int,
        ),
{
    cut_u64(bytes, at, end);
    match u64_at(bytes, at) {
        Ok(update) => {
            cut_u64(bytes, update.1, end);
            match u64_at(bytes, update.1) {
                Ok(policy) => {
                    cut_u64(bytes, policy.1, end);
                    match u64_at(bytes, policy.1) {
                        Ok(scheduler) => {
                            cut_u32(bytes, scheduler.1, end);
                            match u32_at(bytes, scheduler.1) {
                                Ok(stage) => {
                                    cut_u64(bytes, stage.1, end);
                                    match u64_at(bytes, stage.1) {
                                        Ok(samples) => {
                                            cut_optional(bytes, samples.1, end);
                                        },
                                        Err(_) => {},
                                    }
                                },
                                Err(_) => {},
                            }
                        },
                        Err(_) => {},
                    }
                },
                Err(_) => {},
            }
        },
        Err(_) => {},
    }
}

proof fn cut_resume(bytes: Seq<u8>, at: int, end: int, config: Option<MasteryConfig>)
    requires
        0 <= at <= bytes.len(),
        0 <= end <= bytes.len(),
    ensures
        reads_on(
            resume_at(bytes, at, config),
            resume_at(bytes.take(end), at, config),
            at,
            end,
            bytes.len() as int,
        ),
{
    cut_counters(bytes, at, end);
    match counters_at(bytes, at) {
        Ok(counters) => {
            cut_count(bytes, counters.1, end, MAX_RNG_STATES);
            match count_at(bytes, counters.1, MAX_RNG_STATES) {
                Ok(stream_count) => {
                    cut_streams(bytes, stream_count.1, end, stream_count.0 as nat);
                    match streams_at(bytes, stream_count.1, stream_count.0 as nat) {
                        Ok(streams) => {
                            cut_count(bytes, streams.1, end, MAX_LEAGUE_REFERENCES);
                            match count_at(bytes, streams.1, MAX_LEAGUE_REFERENCES) {
                                Ok(reference_count) => {
                                    cut_references(
                                        bytes,
                                        reference_count.1,
                                        end,
                                        reference_count.0 as nat,
                                    );
                                    match references_at(
                                        bytes,
                                        reference_count.1,
                                        reference_count.0 as nat,
                                    ) {
                                        Ok(references) => {
                                            cut_progress(bytes, references.1, end, config);
                                        },
                                        Err(_) => {},
                                    }
                                },
                                Err(_) => {},
                            }
                        },
                        Err(_) => {},
                    }
                },
                Err(_) => {},
            }
        },
        Err(_) => {},
    }
}

proof fn cut_ppo(bytes: Seq<u8>, at: int, end: int, budget: PpoSampleBudget)
    requires
        0 <= at <= bytes.len(),
        0 <= end <= bytes.len(),
    ensures
        reads_on(
            ppo_at(bytes, at, budget),
            ppo_at(bytes.take(end), at, budget),
            at,
            end,
            bytes.len() as int,
        ),
{
    cut_words(bytes, at, end, 16);
}

proof fn cut_identity(bytes: Seq<u8>, at: int, end: int, contract: CheckpointContract)
    requires
        0 <= at <= bytes.len(),
        0 <= end <= bytes.len(),
    ensures
        reads_on(
            identity_at(bytes, at, contract),
            identity_at(bytes.take(end), at, contract),
            at,
            end,
            bytes.len() as int,
        ),
{
    cut_u32(bytes, at, end);
    match u32_at(bytes, at) {
        Ok(version) => {
            cut_u64(bytes, version.1, end);
        },
        Err(_) => {},
    }
}

proof fn cut_body(bytes: Seq<u8>, at: int, end: int, budget: PpoSampleBudget)
    requires
        0 <= at <= bytes.len(),
        0 <= end <= bytes.len(),
    ensures
        reads_on(
            body_at(bytes, at, budget),
            body_at(bytes.take(end), at, budget),
            at,
            end,
            bytes.len() as int,
        ),
{
    cut_run(bytes, at, end);
    match run_at(bytes, at) {
        Ok(run) => {
            cut_resume(bytes, run.1, end, run.0.mastery_config);
            match resume_at(bytes, run.1, run.0.mastery_config) {
                Ok(progress) => {
                    cut_ppo(bytes, progress.1, end, budget);
                },
                Err(_) => {},
            }
        },
        Err(_) => {},
    }
}

proof fn cut_ending(bytes: Seq<u8>, at: int, end: int)
    requires
        0 <= at <= bytes.len(),
        0 <= end < bytes.len(),
    ensures
        ending_at(bytes, at) is Ok && at <= end ==> ending_at(bytes.take(end), at) == Err::<
            Ending,
            CheckpointError,
        >(CheckpointError::ManifestTruncated),
        ending_at(bytes.take(end), at) is Ok && at <= end ==> ending_at(bytes, at) == Err::<
            Ending,
            CheckpointError,
        >(CheckpointError::ManifestTrailingBytes),
{
    cut_u64(bytes, at, end);
    match u64_at(bytes, at) {
        Ok(updates) => {
            cut_u64(bytes, updates.1, end);
            match u64_at(bytes, updates.1) {
                Ok(step) => {
                    cut_u64(bytes, step.1, end);
                    match u64_at(bytes, step.1) {
                        Ok(state) => {
                            cut_u64(bytes, state.1, end);
                            match u64_at(bytes, state.1) {
                                Ok(draws) => {
                                    cut_take(bytes, draws.1, end, 32);
                                },
                                Err(_) => {},
                            }
                        },
                        Err(_) => {},
                    }
                },
                Err(_) => {},
            }
        },
        Err(_) => {},
    }
}

proof fn lemma_prefix(contract: CheckpointContract, bytes: Seq<u8>, end: int)
    requires
        0 <= end <= bytes.len(),
        manifest_of(contract, bytes) is Ok || manifest_of(contract, bytes.take(end)) is Ok,
        end < bytes.len(),
    ensures
        manifest_of(contract, bytes) is Ok ==> manifest_of(contract, bytes.take(end)) == Err::<
            ManifestView,
            CheckpointError,
        >(CheckpointError::ManifestTruncated),
        manifest_of(contract, bytes.take(end)) is Ok ==> manifest_of(contract, bytes) == Err::<
            ManifestView,
            CheckpointError,
        >(CheckpointError::ManifestTrailingBytes),
{
    cut_take(bytes, 0, end, 8);
    match take_at(bytes, 0, 8) {
        Ok(head) => {
            cut_identity(bytes, head.1, end, contract);
            match identity_at(bytes, head.1, contract) {
                Ok(budget) => {
                    let links = profile_links(contract.profile_spec(budget.0));
                    cut_links(bytes, budget.1, end, links);
                    match links_at(bytes, budget.1, links) {
                        Ok(next) => {
                            cut_body(bytes, next, end, budget.0);
                            match body_at(bytes, next, budget.0) {
                                Ok(body) => {
                                    cut_ending(bytes, body.1, end);
                                },
                                Err(_) => {},
                            }
                        },
                        Err(_) => {},
                    }
                },
                Err(_) => {},
            }
        },
        Err(_) => {},
    }
}

/// A manifest that is cut anywhere is truncated, and one with anything behind it has trailing
/// bytes.
pub proof fn manifests_have_one_length(
    contract: CheckpointContract,
    bytes: Seq<u8>,
    count: int,
    more: Seq<u8>,
)
    requires
        manifest_of(contract, bytes) is Ok,
        0 <= count < bytes.len(),
        more.len() > 0,
    ensures
        manifest_of(contract, bytes.take(count)) == Err::<ManifestView, CheckpointError>(
            CheckpointError::ManifestTruncated,
        ),
        manifest_of(contract, bytes + more) == Err::<ManifestView, CheckpointError>(
            CheckpointError::ManifestTrailingBytes,
        ),
{
    lemma_prefix(contract, bytes, count);
    assert((bytes + more).take(bytes.len() as int) =~= bytes);
    lemma_prefix(contract, bytes + more, bytes.len() as int);
}

} // verus!
