//! Mastery thresholds and progress, and their manifest form.
use crate::manifest::{
    checked, invalid, lemma_stands_split, lemma_u32_back, lemma_u64_back, lemma_u8_back, reads,
    stands, u32_at, u64_at, u8_at, CheckpointError, ManifestReader, ManifestWriter,
};
use crate::search::{first_index, lemma_first_from_found, lemma_first_from_none};
use crate::settings::{MasteryOpponent, OpponentWinPercent, MAX_TRAINING_ENVIRONMENTS};
use crate::world::copy_vec;
use vstd::bytes::{
    lemma_auto_spec_u32_to_from_le_bytes, lemma_auto_spec_u64_to_from_le_bytes,
    spec_u32_to_le_bytes, spec_u64_to_le_bytes,
};
use vstd::prelude::*;

verus! {

/// Largest mastery window.
pub const MASTERY_MAX_WINDOW: usize = 1_024;

/// Opponent stage of mastery training.
#[derive(Clone, Copy, Debug, PartialEq, Eq, Structural)]
pub enum MasteryStage {
    Weak,
    Teacher,
    Completed,
}

impl MasteryStage {
    pub open spec fn code_spec(self) -> u8 {
        match self {
            MasteryStage::Weak => 0,
            MasteryStage::Teacher => 1,
            MasteryStage::Completed => 2,
        }
    }

    /// Manifest code of the stage.
    pub fn code(self) -> (r: u8)
        ensures
            r == self.code_spec(),
    {
        match self {
            MasteryStage::Weak => 0,
            MasteryStage::Teacher => 1,
            MasteryStage::Completed => 2,
        }
    }
}

/// Resolved window and win percentages.
#[derive(Clone, Copy, Debug, PartialEq, Eq, Structural)]
pub struct MasteryConfig {
    pub window: usize,
    pub weak: u8,
    pub teacher: u8,
}

impl MasteryConfig {
    pub open spec fn wf(self) -> bool {
        &&& 1 <= self.window <= MASTERY_MAX_WINDOW
        &&& 1 <= self.weak <= 100
        &&& 1 <= self.teacher <= 100
    }

    pub open spec fn resolved(window: usize, weak: u8, teacher: u8) -> Result<
        MasteryConfig,
        &'static str,
    > {
        if !(1 <= window <= MASTERY_MAX_WINDOW) {
            Err("mastery window")
        } else if !(1 <= weak <= 100) || !(1 <= teacher <= 100) {
            Err("mastery win percent")
        } else {
            Ok(MasteryConfig { window, weak, teacher })
        }
    }

    /// Thresholds from resolved values.
    pub fn from_resolved(window: usize, weak: u8, teacher: u8) -> (r: Result<
        MasteryConfig,
        &'static str,
    >)
        ensures
            r == Self::resolved(window, weak, teacher),
            r matches Ok(config) ==> config.wf(),
    {
        if !(1 <= window && window <= MASTERY_MAX_WINDOW) {
            return Err("mastery window");
        }
        if !(1 <= weak && weak <= 100) || !(1 <= teacher && teacher <= 100) {
            return Err("mastery win percent");
        }
        Ok(MasteryConfig { window, weak, teacher })
    }
}

/// Whether two thresholds are given to one opponent.
pub open spec fn given_twice(overrides: Seq<OpponentWinPercent>) -> bool {
    exists|i: int, j: int|
        0 <= i < j < overrides.len() && (#[trigger] overrides[i]).opponent == (
        #[trigger] overrides[j]).opponent
}

/// Threshold of an opponent: the first one given to it, else the common one.
pub open spec fn threshold_of(
    overrides: Seq<OpponentWinPercent>,
    opponent: MasteryOpponent,
    common: u8,
) -> u8 {
    match first_index(overrides, |given: OpponentWinPercent| given.opponent == opponent) {
        Some(index) => overrides[index].percent,
        None => common,
    }
}

fn find_threshold(overrides: &Vec<OpponentWinPercent>, opponent: MasteryOpponent, common: u8) -> (r:
    u8)
    ensures
        r == threshold_of(overrides@, opponent, common),
{
    let ghost test = |given: OpponentWinPercent| given.opponent == opponent;
    let mut index: usize = 0;
    while index < overrides.len()
        invariant
            index <= overrides@.len(),
            test == (|given: OpponentWinPercent| given.opponent == opponent),
            forall|j: int| 0 <= j < index ==> !test(#[trigger] overrides@[j]),
        decreases overrides@.len() - index,
    {
        if overrides[index].opponent == opponent {
            proof {
                lemma_first_from_found(overrides@, test, 0, index as int);
            }
            return overrides[index].percent;
        }
        index += 1;
    }
    proof {
        lemma_first_from_none(overrides@, test, 0);
    }
    common
}

fn has_double(overrides: &Vec<OpponentWinPercent>) -> (r: bool)
    ensures
        r == given_twice(overrides@),
{
    let mut index: usize = 0;
    while index < overrides.len()
        invariant
            index <= overrides@.len(),
            forall|i: int, j: int|
                0 <= i < j < index ==> (#[trigger] overrides@[i]).opponent != (
                #[trigger] overrides@[j]).opponent,
        decreases overrides@.len() - index,
    {
        let mut earlier: usize = 0;
        while earlier < index
            invariant
                earlier <= index < overrides@.len(),
                forall|i: int|
                    0 <= i < earlier ==> (#[trigger] overrides@[i]).opponent
                        != overrides@[index as int].opponent,
            decreases index - earlier,
        {
            if overrides[earlier].opponent == overrides[index].opponent {
                assert(overrides@[earlier as int].opponent == overrides@[index as int].opponent);
                return true;
            }
            earlier += 1;
        }
        index += 1;
    }
    false
}

impl MasteryConfig {
    /// Thresholds from a window, a common percentage, and percentages of single opponents.
    pub open spec fn asked(
        window: usize,
        percent: u8,
        overrides: Seq<OpponentWinPercent>,
    ) -> Result<MasteryConfig, &'static str> {
        if given_twice(overrides) {
            Err("duplicate mastery opponent")
        } else {
            Self::resolved(
                window,
                threshold_of(overrides, MasteryOpponent::Weak, percent),
                threshold_of(overrides, MasteryOpponent::Teacher, percent),
            )
        }
    }

    /// Thresholds from a window, a common percentage, and percentages of single opponents.
    pub fn new(window: usize, percent: u8, overrides: &Vec<OpponentWinPercent>) -> (r: Result<
        MasteryConfig,
        &'static str,
    >)
        ensures
            r == Self::asked(window, percent, overrides@),
            r matches Ok(config) ==> config.wf(),
    {
        if has_double(overrides) {
            return Err("duplicate mastery opponent");
        }
        Self::from_resolved(
            window,
            find_threshold(overrides, MasteryOpponent::Weak, percent),
            find_threshold(overrides, MasteryOpponent::Teacher, percent),
        )
    }
}

impl Default for MasteryConfig {
    fn default() -> (r: Self)
        ensures
            r == (MasteryConfig { window: 50, weak: 80, teacher: 80 }),
    {
        MasteryConfig { window: 50, weak: 80, teacher: 80 }
    }
}

/// Stage, completed games of the stage, and the recent outcomes of its window.
#[derive(Debug, PartialEq, Eq)]
pub struct MasteryProgress {
    pub stage: MasteryStage,
    pub games: u64,
    pub recent: Vec<bool>,
}

/// Contents of a mastery progress.
#[verifier::ext_equal]
pub struct ProgressView {
    pub stage: MasteryStage,
    pub games: u64,
    pub recent: Seq<bool>,
}

impl View for MasteryProgress {
    type V = ProgressView;

    open spec fn view(&self) -> ProgressView {
        ProgressView { stage: self.stage, games: self.games, recent: self.recent@ }
    }
}

impl ProgressView {
    /// Outcomes fit the window and the completed games.
    pub open spec fn fits(self, config: MasteryConfig) -> bool {
        self.recent.len() <= config.window && self.recent.len() <= self.games
    }
}

impl MasteryProgress {
    /// Checks the outcomes against the window and the completed games.
    pub fn validate(&self, config: MasteryConfig) -> (r: Result<(), &'static str>)
        ensures
            r == if self@.fits(config) {
                Ok::<(), &'static str>(())
            } else {
                Err("mastery window outcomes")
            },
    {
        if self.recent.len() > config.window || self.recent.len() as u64 > self.games {
            return Err("mastery window outcomes");
        }
        Ok(())
    }

    /// Owned copy of the progress.
    pub fn duplicate(&self) -> (r: Self)
        ensures
            r@ == self@,
    {
        MasteryProgress { stage: self.stage, games: self.games, recent: copy_vec(&self.recent) }
    }
}

/// Bytes of optional thresholds.
pub open spec fn config_bytes(config: Option<MasteryConfig>) -> Seq<u8> {
    match config {
        None => seq![0u8],
        Some(config) => seq![1u8] + (spec_u32_to_le_bytes(config.window as u32) + (
        seq![config.weak] + seq![config.teacher])),
    }
}

/// Writes optional thresholds.
pub fn encode_config(writer: &mut ManifestWriter, config: Option<MasteryConfig>)
    ensures
        final(writer).bytes@ == old(writer).bytes@ + config_bytes(config),
{
    let ghost before = writer.bytes@;
    match config {
        None => writer.u8(0),
        Some(config) => {
            writer.u8(1);
            writer.u32(config.window as u32);
            writer.u8(config.weak);
            writer.u8(config.teacher);
        },
    }
    assert(writer.bytes@ =~= before + config_bytes(config));
}

/// Thresholds at a position.
pub open spec fn config_at(bytes: Seq<u8>, at: int) -> Result<
    (Option<MasteryConfig>, int),
    CheckpointError,
> {
    match u8_at(bytes, at) {
        Err(error) => Err(error),
        Ok(present) => if present.0 == 0 {
            Ok((None, present.1))
        } else if present.0 != 1 {
            Err(invalid("mastery configuration presence"))
        } else {
            match u32_at(bytes, present.1) {
                Err(error) => Err(error),
                Ok(window) => match u8_at(bytes, window.1) {
                    Err(error) => Err(error),
                    Ok(weak) => match u8_at(bytes, weak.1) {
                        Err(error) => Err(error),
                        Ok(teacher) => match MasteryConfig::resolved(
                            window.0 as usize,
                            weak.0,
                            teacher.0,
                        ) {
                            Ok(config) => Ok((Some(config), teacher.1)),
                            Err(field) => Err(invalid(field)),
                        },
                    },
                },
            }
        },
    }
}

/// Reads optional thresholds.
pub fn decode_config(reader: &mut ManifestReader<'_>) -> (r: Result<
    Option<MasteryConfig>,
    CheckpointError,
>)
    requires
        old(reader).wf(),
    ensures
        final(reader).wf(),
        final(reader).bytes@ == old(reader).bytes@,
        reads(config_at(old(reader).bytes@, old(reader).offset as int), r, final(reader).offset),
        r matches Ok(Some(config)) ==> config.wf(),
{
    let present: u8 = match reader.u8() {
        Ok(present) => present,
        Err(error) => {
            return Err(error);
        },
    };
    if present == 0 {
        return Ok(None);
    }
    if present != 1 {
        return Err(CheckpointError::InvalidManifest("mastery configuration presence"));
    }
    let window: usize = match reader.u32() {
        Ok(window) => window as usize,
        Err(error) => {
            return Err(error);
        },
    };
    let weak: u8 = match reader.u8() {
        Ok(weak) => weak,
        Err(error) => {
            return Err(error);
        },
    };
    let teacher: u8 = match reader.u8() {
        Ok(teacher) => teacher,
        Err(error) => {
            return Err(error);
        },
    };
    match MasteryConfig::from_resolved(window, weak, teacher) {
        Ok(config) => Ok(Some(config)),
        Err(field) => Err(CheckpointError::InvalidManifest(field)),
    }
}

/// Written thresholds read back.
pub proof fn lemma_config_back(bytes: Seq<u8>, at: int, config: Option<MasteryConfig>)
    requires
        config matches Some(value) ==> value.wf(),
        stands(bytes, at, config_bytes(config)),
    ensures
        config_at(bytes, at) == Ok::<(Option<MasteryConfig>, int), CheckpointError>(
            (config, at + config_bytes(config).len()),
        ),
{
    match config {
        None => {
            lemma_u8_back(bytes, at, 0);
        },
        Some(value) => {
            let tail = seq![value.weak] + seq![value.teacher];
            let window = spec_u32_to_le_bytes(value.window as u32);
            lemma_auto_spec_u32_to_from_le_bytes();
            lemma_stands_split(bytes, at, seq![1u8], window + tail);
            lemma_stands_split(bytes, at + 1, window, tail);
            lemma_stands_split(bytes, at + 5, seq![value.weak], seq![value.teacher]);
            lemma_u8_back(bytes, at, 1);
            lemma_u32_back(bytes, at + 1, value.window as u32);
            lemma_u8_back(bytes, at + 5, value.weak);
            lemma_u8_back(bytes, at + 6, value.teacher);
        },
    }
}

/// One byte per outcome.
pub open spec fn outcome_bytes(recent: Seq<bool>) -> Seq<u8> {
    recent.map_values(
        |win: bool|
            if win {
                1u8
            } else {
                0u8
            },
    )
}

/// Bytes of optional progress.
pub open spec fn progress_bytes(progress: Option<ProgressView>) -> Seq<u8> {
    match progress {
        None => seq![0u8],
        Some(value) => seq![1u8] + (seq![value.stage.code_spec()] + (spec_u64_to_le_bytes(
            value.games,
        ) + (spec_u32_to_le_bytes(value.recent.len() as u32) + outcome_bytes(value.recent)))),
    }
}

/// Contents of an optional progress.
pub open spec fn progress_view(progress: Option<MasteryProgress>) -> Option<ProgressView> {
    match progress {
        Some(value) => Some(value@),
        None => None,
    }
}

/// Writes optional progress.
pub fn encode_progress(writer: &mut ManifestWriter, progress: &Option<MasteryProgress>)
    ensures
        final(writer).bytes@ == old(writer).bytes@ + progress_bytes(progress_view(*progress)),
{
    let ghost before = writer.bytes@;
    match progress {
        None => {
            writer.u8(0);
            assert(writer.bytes@ =~= before + progress_bytes(progress_view(*progress)));
        },
        Some(value) => {
            writer.u8(1);
            writer.u8(value.stage.code());
            writer.u64(value.games);
            writer.u32(value.recent.len() as u32);
            let ghost head = writer.bytes@;
            let mut index: usize = 0;
            assert(writer.bytes@ =~= head + outcome_bytes(value.recent@.take(0)));
            while index < value.recent.len()
                invariant
                    index <= value.recent@.len(),
                    writer.bytes@ == head + outcome_bytes(value.recent@.take(index as int)),
                decreases value.recent@.len() - index,
            {
                let flag: u8 = if value.recent[index] {
                    1
                } else {
                    0
                };
                writer.u8(flag);
                index += 1;
                assert(writer.bytes@ =~= head + outcome_bytes(value.recent@.take(index as int)));
            }
            assert(value.recent@.take(index as int) =~= value.recent@);
            assert(writer.bytes@ =~= before + progress_bytes(progress_view(*progress)));
        },
    }
}

/// Outcomes at a position.
pub open spec fn outcomes_at(bytes: Seq<u8>, at: int, count: nat) -> Result<
    (Seq<bool>, int),
    CheckpointError,
>
    decreases count,
{
    if count == 0 {
        Ok((Seq::empty(), at))
    } else {
        match u8_at(bytes, at) {
            Err(error) => Err(error),
            Ok(flag) => if flag.0 > 1 {
                Err(invalid("mastery outcome flag"))
            } else {
                match outcomes_at(bytes, flag.1, (count - 1) as nat) {
                    Err(error) => Err(error),
                    Ok(rest) => Ok((seq![flag.0 == 1] + rest.0, rest.1)),
                }
            },
        }
    }
}

/// Stage of a manifest code.
pub open spec fn stage_of(code: u8) -> Option<MasteryStage> {
    if code == 0 {
        Some(MasteryStage::Weak)
    } else if code == 1 {
        Some(MasteryStage::Teacher)
    } else if code == 2 {
        Some(MasteryStage::Completed)
    } else {
        None
    }
}

/// Progress behind its presence byte.
pub open spec fn present_progress_at(bytes: Seq<u8>, at: int, config: MasteryConfig) -> Result<
    (ProgressView, int),
    CheckpointError,
> {
    match u8_at(bytes, at) {
        Err(error) => Err(error),
        Ok(code) => match stage_of(code.0) {
            None => Err(invalid("mastery stage")),
            Some(stage) => match u64_at(bytes, code.1) {
                Err(error) => Err(error),
                Ok(games) => match u32_at(bytes, games.1) {
                    Err(error) => Err(error),
                    Ok(count) => if count.0 > config.window {
                        Err(invalid("mastery window exceeds configured capacity"))
                    } else {
                        match outcomes_at(bytes, count.1, count.0 as nat) {
                            Err(error) => Err(error),
                            Ok(recent) => {
                                let view = ProgressView {
                                    stage,
                                    games: games.0,
                                    recent: recent.0,
                                };
                                if view.fits(config) {
                                    Ok((view, recent.1))
                                } else {
                                    Err(invalid("mastery window outcomes"))
                                }
                            },
                        }
                    },
                },
            },
        },
    }
}

/// Progress at a position.
pub open spec fn progress_at(bytes: Seq<u8>, at: int, config: Option<MasteryConfig>) -> Result<
    (Option<ProgressView>, int),
    CheckpointError,
> {
    match u8_at(bytes, at) {
        Err(error) => Err(error),
        Ok(present) => if present.0 == 0 {
            Ok((None, present.1))
        } else if present.0 != 1 {
            Err(invalid("mastery progress presence"))
        } else {
            match config {
                None => Err(invalid("mastery configuration/state mismatch")),
                Some(config) => match present_progress_at(bytes, present.1, config) {
                    Err(error) => Err(error),
                    Ok(value) => Ok((Some(value.0), value.1)),
                },
            }
        },
    }
}

fn decode_outcomes(reader: &mut ManifestReader<'_>, count: usize) -> (r: Result<
    Vec<bool>,
    CheckpointError,
>)
    requires
        old(reader).wf(),
    ensures
        final(reader).wf(),
        final(reader).bytes@ == old(reader).bytes@,
        match outcomes_at(old(reader).bytes@, old(reader).offset as int, count as nat) {
            Ok(part) => r matches Ok(list) && list@ == part.0 && final(reader).offset == part.1,
            Err(error) => r == Err::<Vec<bool>, CheckpointError>(error),
        },
{
    let ghost bytes = reader.bytes@;
    let ghost begin = reader.offset as int;
    let mut recent: Vec<bool> = Vec::new();
    proof {
        match outcomes_at(bytes, begin, count as nat) {
            Ok(part) => {
                assert(Seq::<bool>::empty() + part.0 =~= part.0);
            },
            Err(_) => {},
        }
    }
    while recent.len() < count
        invariant
            reader.wf(),
            reader.bytes@ == bytes,
            bytes == old(reader).bytes@,
            begin == old(reader).offset,
            recent@.len() <= count,
            outcomes_at(bytes, begin, count as nat) == match outcomes_at(
                bytes,
                reader.offset as int,
                (count - recent@.len()) as nat,
            ) {
                Ok(part) => Ok::<(Seq<bool>, int), CheckpointError>((recent@ + part.0, part.1)),
                Err(error) => Err(error),
            },
        decreases count - recent@.len(),
    {
        let flag: u8 = match reader.u8() {
            Ok(flag) => flag,
            Err(error) => {
                return Err(error);
            },
        };
        if flag > 1 {
            return Err(CheckpointError::InvalidManifest("mastery outcome flag"));
        }
        let ghost before = recent@;
        recent.push(flag == 1);
        proof {
            match outcomes_at(bytes, reader.offset as int, (count - recent@.len()) as nat) {
                Ok(part) => {
                    assert(before + (seq![flag == 1] + part.0) =~= recent@ + part.0);
                },
                Err(_) => {},
            }
        }
    }
    assert(recent@ + Seq::<bool>::empty() =~= recent@);
    Ok(recent)
}

fn decode_present_progress(reader: &mut ManifestReader<'_>, config: MasteryConfig) -> (r: Result<
    MasteryProgress,
    CheckpointError,
>)
    requires
        old(reader).wf(),
    ensures
        final(reader).wf(),
        final(reader).bytes@ == old(reader).bytes@,
        match present_progress_at(old(reader).bytes@, old(reader).offset as int, config) {
            Ok(part) => r matches Ok(value) && value@ == part.0 && final(reader).offset == part.1,
            Err(error) => r == Err::<MasteryProgress, CheckpointError>(error),
        },
{
    let code: u8 = match reader.u8() {
        Ok(code) => code,
        Err(error) => {
            return Err(error);
        },
    };
    let stage = match code {
        0 => MasteryStage::Weak,
        1 => MasteryStage::Teacher,
        2 => MasteryStage::Completed,
        _ => {
            return Err(CheckpointError::InvalidManifest("mastery stage"));
        },
    };
    let games: u64 = match reader.u64() {
        Ok(games) => games,
        Err(error) => {
            return Err(error);
        },
    };
    let count: usize = match reader.u32() {
        Ok(count) => count as usize,
        Err(error) => {
            return Err(error);
        },
    };
    if count > config.window {
        return Err(CheckpointError::InvalidManifest("mastery window exceeds configured capacity"));
    }
    let recent = match decode_outcomes(reader, count) {
        Ok(recent) => recent,
        Err(error) => {
            return Err(error);
        },
    };
    let progress = MasteryProgress { stage, games, recent };
    match progress.validate(config) {
        Ok(()) => Ok(progress),
        Err(field) => Err(CheckpointError::InvalidManifest(field)),
    }
}

/// Reads optional progress of optional thresholds.
pub fn decode_progress(reader: &mut ManifestReader<'_>, config: Option<MasteryConfig>) -> (r: Result<
    Option<MasteryProgress>,
    CheckpointError,
>)
    requires
        old(reader).wf(),
    ensures
        final(reader).wf(),
        final(reader).bytes@ == old(reader).bytes@,
        match progress_at(old(reader).bytes@, old(reader).offset as int, config) {
            Ok(part) => r matches Ok(value) && progress_view(value) == part.0
                && final(reader).offset == part.1,
            Err(error) => r == Err::<Option<MasteryProgress>, CheckpointError>(error),
        },
{
    let present: u8 = match reader.u8() {
        Ok(present) => present,
        Err(error) => {
            return Err(error);
        },
    };
    if present == 0 {
        return Ok(None);
    }
    if present != 1 {
        return Err(CheckpointError::InvalidManifest("mastery progress presence"));
    }
    match config {
        None => Err(CheckpointError::InvalidManifest("mastery configuration/state mismatch")),
        Some(config) => match decode_present_progress(reader, config) {
            Ok(progress) => Ok(Some(progress)),
            Err(error) => Err(error),
        },
    }
}

proof fn lemma_outcomes_back(bytes: Seq<u8>, at: int, recent: Seq<bool>)
    requires
        stands(bytes, at, outcome_bytes(recent)),
    ensures
        outcomes_at(bytes, at, recent.len()) == Ok::<(Seq<bool>, int), CheckpointError>(
            (recent, at + recent.len()),
        ),
    decreases recent.len(),
{
    if recent.len() > 0 {
        let flag: u8 = if recent[0] {
            1
        } else {
            0
        };
        let rest = recent.drop_first();
        assert(outcome_bytes(recent) =~= seq![flag] + outcome_bytes(rest));
        lemma_stands_split(bytes, at, seq![flag], outcome_bytes(rest));
        lemma_u8_back(bytes, at, flag);
        lemma_outcomes_back(bytes, at + 1, rest);
        assert(seq![recent[0]] + rest =~= recent);
    } else {
        assert(recent =~= Seq::<bool>::empty());
    }
}

/// Written progress reads back under its thresholds.
pub proof fn lemma_progress_back(
    bytes: Seq<u8>,
    at: int,
    progress: Option<ProgressView>,
    config: Option<MasteryConfig>,
)
    requires
        progress matches Some(value) ==> (config matches Some(limits) && limits.wf() && value.fits(
            limits,
        )),
        stands(bytes, at, progress_bytes(progress)),
    ensures
        progress_at(bytes, at, config) == Ok::<(Option<ProgressView>, int), CheckpointError>(
            (progress, at + progress_bytes(progress).len()),
        ),
{
    match progress {
        None => {
            lemma_u8_back(bytes, at, 0);
        },
        Some(value) => {
            let outcomes = outcome_bytes(value.recent);
            let count = spec_u32_to_le_bytes(value.recent.len() as u32);
            let games = spec_u64_to_le_bytes(value.games);
            lemma_auto_spec_u32_to_from_le_bytes();
            lemma_auto_spec_u64_to_from_le_bytes();
            lemma_stands_split(
                bytes,
                at,
                seq![1u8],
                seq![value.stage.code_spec()] + (games + (count + outcomes)),
            );
            lemma_stands_split(
                bytes,
                at + 1,
                seq![value.stage.code_spec()],
                games + (count + outcomes),
            );
            lemma_stands_split(bytes, at + 2, games, count + outcomes);
            lemma_stands_split(bytes, at + 10, count, outcomes);
            lemma_u8_back(bytes, at, 1);
            lemma_u8_back(bytes, at + 1, value.stage.code_spec());
            lemma_u64_back(bytes, at + 2, value.games);
            lemma_u32_back(bytes, at + 10, value.recent.len() as u32);
            lemma_outcomes_back(bytes, at + 14, value.recent);
        },
    }
}

/// Whether a number of arenas can play paired complete episodes.
pub open spec fn environments_ok(environments: usize) -> bool {
    2 <= environments <= MAX_TRAINING_ENVIRONMENTS && environments % 2 == 0
}

/// Whether a number of arenas can play paired complete episodes.
pub fn valid_environment_count(environments: usize) -> (r: bool)
    ensures
        r == environments_ok(environments),
{
    2 <= environments && environments <= MAX_TRAINING_ENVIRONMENTS && environments % 2 == 0
}

/// Fewest games that fill a window in whole rounds of every arena.
pub open spec fn whole_rounds(window: usize, environments: usize) -> int {
    (window + environments - 1) / environments as int * environments
}

/// Failure of mastery state that the completed updates do not explain.
pub open spec fn scope_fault(
    config: Option<MasteryConfig>,
    progress: Option<ProgressView>,
    updates: u64,
    environments: usize,
) -> Option<CheckpointError> {
    match (config, progress) {
        (None, None) => None,
        (Some(config), Some(progress)) => if !progress.fits(config) {
            Some(invalid("mastery window outcomes"))
        } else if !environments_ok(environments) {
            Some(invalid("mastery environment count"))
        } else if updates * environments > u64::MAX {
            Some(invalid("mastery total game counter"))
        } else if progress.games > updates * environments {
            Some(invalid("mastery game count exceeds updates"))
        } else {
            let preceding = updates * environments - progress.games;
            if progress.games % environments as u64 != 0 || (progress.stage == MasteryStage::Weak
                && preceding != 0) || (progress.stage != MasteryStage::Weak && (preceding
                < whole_rounds(config.window, environments) || preceding % environments as int
                != 0)) {
                Some(invalid("mastery stage/game counters"))
            } else {
                None
            }
        },
        _ => Some(invalid("mastery configuration/state mismatch")),
    }
}

/// Checks mastery state against the completed updates.
pub fn validate_scope(
    config: Option<MasteryConfig>,
    progress: &Option<MasteryProgress>,
    updates: u64,
    environments: usize,
) -> (r: Result<(), CheckpointError>)
    requires
        config matches Some(value) ==> value.wf(),
    ensures
        r == checked(scope_fault(config, progress_view(*progress), updates, environments)),
{
    match (config, progress) {
        (None, None) => Ok(()),
        (Some(config), Some(progress)) => {
            match progress.validate(config) {
                Ok(()) => {},
                Err(field) => {
                    return Err(CheckpointError::InvalidManifest(field));
                },
            }
            if !valid_environment_count(environments) {
                return Err(CheckpointError::InvalidManifest("mastery environment count"));
            }
            let total: u64 = match updates.checked_mul(environments as u64) {
                Some(total) => total,
                None => {
                    return Err(CheckpointError::InvalidManifest("mastery total game counter"));
                },
            };
            if progress.games > total {
                return Err(CheckpointError::InvalidManifest("mastery game count exceeds updates"));
            }
            let preceding: u64 = total - progress.games;
            proof {
                lemma_whole_rounds(config.window as int, environments as int);
            }
            let minimum: usize = ((config.window - 1) / environments + 1) * environments;
            if progress.games % (environments as u64) != 0 || (progress.stage == MasteryStage::Weak
                && preceding != 0) || (progress.stage != MasteryStage::Weak && (preceding
                < minimum as u64 || preceding % (environments as u64) != 0)) {
                return Err(CheckpointError::InvalidManifest("mastery stage/game counters"));
            }
            Ok(())
        },
        _ => Err(CheckpointError::InvalidManifest("mastery configuration/state mismatch")),
    }
}

proof fn lemma_whole_rounds(window: int, environments: int)
    requires
        1 <= window <= 1024,
        2 <= environments <= 26,
    ensures
        (window + environments - 1) / environments == (window - 1) / environments + 1,
        0 <= ((window - 1) / environments + 1) * environments <= 2000,
{
    assert((window + environments - 1) / environments == (window - 1) / environments + 1)
        by (nonlinear_arith)
        requires
            1 <= window,
            2 <= environments,
    ;
    assert(0 <= ((window - 1) / environments + 1) * environments <= 2000) by (nonlinear_arith)
        requires
            1 <= window <= 1024,
            2 <= environments <= 26,
    ;
}

} // verus!
