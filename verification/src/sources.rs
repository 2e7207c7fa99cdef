//! Runtime weights and the pinned historical weights that a new policy may start from.
use crate::archive::{
    archive_contents, archive_metadata, archive_tensors, archive_texts, decode_tensor_count,
    encoded_values_read_back, entry_fault, header_bounded, keys_distinct, le_words, name_set,
    names_distinct, oversized, pairs_map, same_texts, serialize_named_tensors, tensors_map,
    validate_names, validate_tensor_values, values_fault, vector_tensor, writable, ArchiveTensor,
    MAX_ARCHIVE_ELEMENTS,
};
use crate::checkpoint_codec::words_bytes;
use crate::digest::{hex, hex_of, sha256, sha256_of};
use crate::frame::row_finite;
use crate::manifest::CheckpointError;
use crate::reward_schema::{MAP2_REWARD_V1_DESCRIPTOR, MAP2_REWARD_V3_DESCRIPTOR};
use crate::text::{decimal, owned, with_decimal, with_text};
use vstd::prelude::*;

verus! {

/// Parameters of the tenth and eleventh generation.
pub const M11_PARAMETER_COUNT: usize = 1_684_724;
/// Parameters of the twelfth and fourteenth generation.
pub const M14_PARAMETER_COUNT: usize = 1_689_076;
/// Parameters of the sixteenth and seventeenth generation.
pub const M16_PARAMETER_COUNT: usize = 1_696_436;
/// Parameters of the nineteenth generation.
pub const M19_PARAMETER_COUNT: usize = 1_698_996;
/// Parameters of the twenty-first generation.
pub const M21_PARAMETER_COUNT: usize = 1_700_020;
/// Global input rows of the nineteenth generation.
pub const M19_GLOBAL_ROWS: usize = 90;

/// Version, hash, and descriptor of a reward schema.
#[derive(Clone, Debug, PartialEq, Eq)]
pub struct RewardIdentity {
    pub version: String,
    pub hash: String,
    pub descriptor: String,
}

/// Schema texts that runtime weights carry.
#[derive(Clone, Debug, PartialEq, Eq)]
pub struct TupleIdentity {
    pub action: String,
    pub feature: String,
    pub model: String,
    pub ppo_version: String,
    pub ppo_hash: String,
    pub rules: String,
    pub reward: Option<RewardIdentity>,
}

/// Contents of schema texts.
#[verifier::ext_equal]
pub struct IdentityView {
    pub action: Seq<char>,
    pub feature: Seq<char>,
    pub model: Seq<char>,
    pub ppo_version: Seq<char>,
    pub ppo_hash: Seq<char>,
    pub rules: Seq<char>,
    pub reward: Option<(Seq<char>, Seq<char>, Seq<char>)>,
}

impl View for TupleIdentity {
    type V = IdentityView;

    open spec fn view(&self) -> IdentityView {
        IdentityView {
            action: self.action@,
            feature: self.feature@,
            model: self.model@,
            ppo_version: self.ppo_version@,
            ppo_hash: self.ppo_hash@,
            rules: self.rules@,
            reward: match self.reward {
                Some(reward) => Some((reward.version@, reward.hash@, reward.descriptor@)),
                None => None,
            },
        }
    }
}

/// Texts of the policy schemas by key.
pub open spec fn policy_texts(identity: IdentityView) -> Map<Seq<char>, Seq<char>> {
    Map::<Seq<char>, Seq<char>>::empty().insert("action_schema_hash"@, identity.action).insert(
        "feature_schema_hash"@,
        identity.feature,
    ).insert("model_schema_hash"@, identity.model).insert(
        "ppo_schema_version"@,
        identity.ppo_version,
    ).insert("ppo_schema_hash"@, identity.ppo_hash).insert(
        "ppo_rules_audit_version"@,
        identity.rules,
    )
}

/// Texts of every schema by key.
pub open spec fn identity_texts(identity: IdentityView) -> Map<Seq<char>, Seq<char>> {
    match identity.reward {
        None => policy_texts(identity),
        Some(reward) => policy_texts(identity).insert(
            "map2_reward_schema_version"@,
            reward.0,
        ).insert("map2_reward_schema_hash"@, reward.1).insert(
            "map2_reward_schema_descriptor"@,
            reward.2,
        ),
    }
}

proof fn lemma_key_lengths()
    ensures
        "action_schema_hash"@.len() == 18,
        "feature_schema_hash"@.len() == 19,
        "model_schema_hash"@.len() == 17,
        "ppo_schema_version"@.len() == 18,
        "ppo_schema_hash"@.len() == 15,
        "ppo_rules_audit_version"@.len() == 23,
        "map2_reward_schema_version"@.len() == 26,
        "map2_reward_schema_hash"@.len() == 23,
        "map2_reward_schema_descriptor"@.len() == 29,
        "action_schema_hash"@ != "ppo_schema_version"@,
        "ppo_rules_audit_version"@ != "map2_reward_schema_hash"@,
{
    reveal_strlit("action_schema_hash");
    reveal_strlit("feature_schema_hash");
    reveal_strlit("model_schema_hash");
    reveal_strlit("ppo_schema_version");
    reveal_strlit("ppo_schema_hash");
    reveal_strlit("ppo_rules_audit_version");
    reveal_strlit("map2_reward_schema_version");
    reveal_strlit("map2_reward_schema_hash");
    reveal_strlit("map2_reward_schema_descriptor");
    assert("action_schema_hash"@[0] != "ppo_schema_version"@[0]);
    assert("ppo_rules_audit_version"@[0] != "map2_reward_schema_hash"@[0]);
}

proof fn lemma_pairs_push(before: Seq<(String, String)>, after: Seq<(String, String)>)
    requires
        after.len() == before.len() + 1,
        after == before.push(after.last()),
    ensures
        pairs_map(after) == pairs_map(before).insert(after.last().0@, after.last().1@),
{
    assert(after.drop_last() =~= before);
}

impl TupleIdentity {
    /// Texts of every schema with their keys.
    pub fn texts(&self) -> (r: Vec<(String, String)>)
        ensures
            keys_distinct(r@),
            pairs_map(r@) == identity_texts(self@),
            r@.len() <= 9,
            forall|i: int|
                0 <= i < r@.len() ==> (#[trigger] r@[i]).0@.len() <= 29 && (r@[i].1@
                    == self@.action || r@[i].1@ == self@.feature || r@[i].1@ == self@.model
                    || r@[i].1@ == self@.ppo_version || r@[i].1@ == self@.ppo_hash || r@[i].1@
                    == self@.rules || (self@.reward matches Some(reward) && (r@[i].1@ == reward.0
                    || r@[i].1@ == reward.1 || r@[i].1@ == reward.2))),
    {
        let mut list: Vec<(String, String)> = Vec::new();
        proof {
            lemma_key_lengths();
        }
        let ghost l0 = list@;
        list.push((owned("action_schema_hash"), owned(self.action.as_str())));
        let ghost l1 = list@;
        list.push((owned("feature_schema_hash"), owned(self.feature.as_str())));
        let ghost l2 = list@;
        list.push((owned("model_schema_hash"), owned(self.model.as_str())));
        let ghost l3 = list@;
        list.push((owned("ppo_schema_version"), owned(self.ppo_version.as_str())));
        let ghost l4 = list@;
        list.push((owned("ppo_schema_hash"), owned(self.ppo_hash.as_str())));
        let ghost l5 = list@;
        list.push((owned("ppo_rules_audit_version"), owned(self.rules.as_str())));
        let ghost l6 = list@;
        proof {
            lemma_pairs_push(l0, l1);
            lemma_pairs_push(l1, l2);
            lemma_pairs_push(l2, l3);
            lemma_pairs_push(l3, l4);
            lemma_pairs_push(l4, l5);
            lemma_pairs_push(l5, l6);
            assert(pairs_map(l0) =~= Map::<Seq<char>, Seq<char>>::empty());
            assert(pairs_map(l6) =~= policy_texts(self@));
        }
        match &self.reward {
            None => {},
            Some(reward) => {
                list.push((owned("map2_reward_schema_version"), owned(reward.version.as_str())));
                let ghost l7 = list@;
                list.push((owned("map2_reward_schema_hash"), owned(reward.hash.as_str())));
                let ghost l8 = list@;
                list.push(
                    (owned("map2_reward_schema_descriptor"), owned(reward.descriptor.as_str())),
                );
                proof {
                    lemma_pairs_push(l6, l7);
                    lemma_pairs_push(l7, l8);
                    lemma_pairs_push(l8, list@);
                }
            },
        }
        list
    }
}

/// Weights that a new policy may start from: their schema texts, permitted digests in
/// hexadecimal, and parameter count.
#[derive(Clone, Debug)]
pub struct PinnedSource {
    pub identity: TupleIdentity,
    pub digests: Vec<&'static str>,
    pub count: usize,
}

/// Contents of pinned weights.
#[verifier::ext_equal]
pub struct SourceView {
    pub identity: IdentityView,
    pub digests: Seq<&'static str>,
    pub count: usize,
}

impl View for PinnedSource {
    type V = SourceView;

    open spec fn view(&self) -> SourceView {
        SourceView { identity: self.identity@, digests: self.digests@, count: self.count }
    }
}

/// Whether a digest is a permitted one.
pub open spec fn permitted(digests: Seq<&'static str>, digest: Seq<u8>) -> bool {
    exists|i: int| 0 <= i < digests.len() && (#[trigger] digests[i])@ == hex_of(digest)
}

fn is_permitted(digests: &Vec<&'static str>, digest: &[u8; 32]) -> (r: bool)
    ensures
        r == permitted(digests@, digest@),
{
    let text = hex(vstd::array::array_as_slice(digest));
    let mut index: usize = 0;
    while index < digests.len()
        invariant
            index <= digests@.len(),
            text@ == hex_of(digest@),
            forall|i: int| 0 <= i < index ==> (#[trigger] digests@[i])@ != hex_of(digest@),
        decreases digests@.len() - index,
    {
        if owned(digests[index]) == text {
            assert(digests@[index as int]@ == hex_of(digest@));
            return true;
        }
        index += 1;
    }
    false
}

/// Parameters of an archive that holds nothing else, or why it is refused.
pub open spec fn parameters_of(
    tensors: Map<Seq<char>, (bool, Seq<usize>, Seq<u8>)>,
    count: usize,
) -> Result<Seq<u32>, CheckpointError> {
    if tensors.dom() != name_set(seq!["model.parameters"]) {
        Err(CheckpointError::TensorContract("names"))
    } else {
        match entry_fault(tensors["model.parameters"@], "model.parameters", count) {
            Some(error) => Err(error),
            None => Ok(le_words(tensors["model.parameters"@].2)),
        }
    }
}

/// Parameters of the tensors of an archive that holds nothing else.
pub fn decode_parameters(list: &Vec<ArchiveTensor>, count: usize) -> (r: Result<
    Vec<u32>,
    CheckpointError,
>)
    requires
        names_distinct(list@),
    ensures
        match parameters_of(tensors_map(list@), count) {
            Err(error) => r == Err::<Vec<u32>, CheckpointError>(error),
            Ok(values) => r matches Ok(parameters) && parameters@ == values,
        },
{
    let names = vec!["model.parameters"];
    assert(names@ =~= seq!["model.parameters"]);
    match validate_names(list, &names) {
        Ok(()) => {},
        Err(error) => {
            return Err(error);
        },
    }
    proof {
        assert(names@[0]@ == "model.parameters"@);
        assert(name_set(names@).contains("model.parameters"@));
    }
    decode_tensor_count(list, "model.parameters", count)
}

/// Header texts by key.
pub open spec fn header_of(texts: Option<Vec<(String, String)>>) -> Option<
    Map<Seq<char>, Seq<char>>,
> {
    match texts {
        Some(list) => Some(pairs_map(list@)),
        None => None,
    }
}

/// Whether header texts are those of an identity.
pub open spec fn texts_match(texts: Option<Map<Seq<char>, Seq<char>>>, identity: IdentityView) -> bool {
    texts == Some(identity_texts(identity))
}

fn is_texts_match(texts: &Option<Vec<(String, String)>>, identity: &TupleIdentity) -> (r: bool)
    requires
        texts matches Some(list) ==> keys_distinct(list@),
    ensures
        r == (texts matches Some(list) && pairs_map(list@) == identity_texts(identity@)),
{
    match texts {
        None => false,
        Some(list) => {
            let expected = identity.texts();
            same_texts(list, &expected)
        },
    }
}

/// Index of the first source whose schema texts an archive carries.
pub open spec fn source_index(texts: Option<Map<Seq<char>, Seq<char>>>, sources: Seq<SourceView>) -> Option<
    int,
> {
    crate::search::first_index(sources, |source: SourceView| texts_match(texts, source.identity))
}

/// Outcome of reading pinned weights: their parameters and the index of their source.
pub open spec fn selected(
    bytes: Seq<u8>,
    texts: Option<Map<Seq<char>, Seq<char>>>,
    tensors: Map<Seq<char>, (bool, Seq<usize>, Seq<u8>)>,
    sources: Seq<SourceView>,
    field: &'static str,
) -> Result<(Seq<u32>, int), CheckpointError> {
    match source_index(texts, sources) {
        None => Err(CheckpointError::SchemaMismatch),
        Some(index) => match parameters_of(tensors, sources[index].count) {
            Err(error) => Err(error),
            Ok(parameters) => if permitted(sources[index].digests, sha256_of(bytes)) {
                Ok((parameters, index))
            } else {
                Err(CheckpointError::TensorContract(field))
            },
        },
    }
}

/// Parameters, digest, and source index of pinned weights.
#[derive(Debug)]
pub struct SelectedWeights {
    pub parameters: Vec<u32>,
    pub digest: [u8; 32],
    pub source: usize,
}

/// Contents of a list of sources.
pub open spec fn source_views(sources: Seq<PinnedSource>) -> Seq<SourceView> {
    sources.map_values(|source: PinnedSource| source@)
}

/// Whether reading weights had the outcome that their archive and digest give.
pub open spec fn read_as(
    bytes: Seq<u8>,
    sources: Seq<SourceView>,
    field: &'static str,
    r: Result<SelectedWeights, CheckpointError>,
) -> bool {
    if !header_bounded(bytes) {
        r matches Err(error) && oversized(error)
    } else {
        match archive_metadata(bytes) {
            None => r matches Err(CheckpointError::Backend(_)),
            Some(texts) => if source_index(texts, sources) is None {
                r == Err::<SelectedWeights, CheckpointError>(CheckpointError::SchemaMismatch)
            } else {
                match archive_tensors(bytes) {
                    None => r matches Err(CheckpointError::Backend(_)),
                    Some(tensors) => match selected(bytes, texts, tensors, sources, field) {
                        Err(error) => r == Err::<SelectedWeights, CheckpointError>(error),
                        Ok(value) => r matches Ok(weights) && weights.parameters@ == value.0
                            && weights.source == value.1 && weights.digest@ == sha256_of(bytes),
                    },
                }
            },
        }
    }
}

/// Reads weights that must be one of the pinned sources.
pub fn decode_selected(bytes: &[u8], sources: &Vec<PinnedSource>, field: &'static str) -> (r: Result<
    SelectedWeights,
    CheckpointError,
>)
    ensures
        read_as(bytes@, source_views(sources@), field, r),
{
    let ghost views = source_views(sources@);
    let texts = match archive_texts(bytes) {
        Ok(texts) => texts,
        Err(error) => {
            return Err(error);
        },
    };
    let ghost header = header_of(texts);
    let ghost test = |source: SourceView| texts_match(header, source.identity);
    let mut index: usize = 0;
    while index < sources.len() && !is_texts_match(&texts, &sources[index].identity)
        invariant
            index <= sources@.len(),
            views == source_views(sources@),
            texts matches Some(list) ==> keys_distinct(list@),
            header == header_of(texts),
            test == |source: SourceView| texts_match(header, source.identity),
            forall|i: int| 0 <= i < index ==> !test(#[trigger] views[i]),
        decreases sources@.len() - index,
    {
        index += 1;
    }
    if index == sources.len() {
        proof {
            crate::search::lemma_first_from_none(views, test, 0);
        }
        return Err(CheckpointError::SchemaMismatch);
    }
    proof {
        assert(test(views[index as int]));
        crate::search::lemma_first_from_found(views, test, 0, index as int);
    }
    let list = match archive_contents(bytes) {
        Ok(list) => list,
        Err(error) => {
            return Err(error);
        },
    };
    let parameters = match decode_parameters(&list, sources[index].count) {
        Ok(parameters) => parameters,
        Err(error) => {
            return Err(error);
        },
    };
    let digest = sha256(bytes);
    if !is_permitted(&sources[index].digests, &digest) {
        return Err(CheckpointError::TensorContract(field));
    }
    Ok(SelectedWeights { parameters, digest, source: index })
}

/// Corrected fourteenth-generation source.
pub open spec fn m14_corrected_view() -> SourceView {
    SourceView {
        identity: IdentityView {
            action: "1755359086494840931"@,
            feature: "1577122233561586211"@,
            model: "7970187849195607202"@,
            ppo_version: "27"@,
            ppo_hash: "9274275648898675046"@,
            rules: "22"@,
            reward: None,
        },
        digests: seq!["6348fe57a128ebd521dba68da0949ceb7378d3e0d6b7d6a7ce9a5fb6446547ab"],
        count: M14_PARAMETER_COUNT,
    }
}

fn m14_corrected() -> (r: PinnedSource)
    ensures
        r@ == m14_corrected_view(),
{
    let source = PinnedSource {
        identity: TupleIdentity {
            action: owned("1755359086494840931"),
            feature: owned("1577122233561586211"),
            model: owned("7970187849195607202"),
            ppo_version: owned("27"),
            ppo_hash: owned("9274275648898675046"),
            rules: owned("22"),
            reward: None,
        },
        digests: vec!["6348fe57a128ebd521dba68da0949ceb7378d3e0d6b7d6a7ce9a5fb6446547ab"],
        count: M14_PARAMETER_COUNT,
    };
    assert(source@ =~= m14_corrected_view());
    source
}

/// Initial fourteenth-generation source.
pub open spec fn m14_initial_view() -> SourceView {
    SourceView {
        identity: IdentityView {
            action: "1755359086494840931"@,
            feature: "1577122233561586211"@,
            model: "7970187849195607202"@,
            ppo_version: "26"@,
            ppo_hash: "4420330489262074980"@,
            rules: "21"@,
            reward: None,
        },
        digests: seq!["ce17f6f1e3668837776b366fdcab59c250a4d6bb6de3ba3615dc3e7f23a53c4b"],
        count: M14_PARAMETER_COUNT,
    }
}

fn m14_initial() -> (r: PinnedSource)
    ensures
        r@ == m14_initial_view(),
{
    let source = PinnedSource {
        identity: TupleIdentity {
            action: owned("1755359086494840931"),
            feature: owned("1577122233561586211"),
            model: owned("7970187849195607202"),
            ppo_version: owned("26"),
            ppo_hash: owned("4420330489262074980"),
            rules: owned("21"),
            reward: None,
        },
        digests: vec!["ce17f6f1e3668837776b366fdcab59c250a4d6bb6de3ba3615dc3e7f23a53c4b"],
        count: M14_PARAMETER_COUNT,
    };
    assert(source@ =~= m14_initial_view());
    source
}

/// Base twelfth-generation source.
pub open spec fn m12_base_view() -> SourceView {
    SourceView {
        identity: IdentityView {
            action: "1755359086494840931"@,
            feature: "8078516161541333175"@,
            model: "17156054387874206897"@,
            ppo_version: "23"@,
            ppo_hash: "765990392710687046"@,
            rules: "18"@,
            reward: None,
        },
        digests: seq!["adbecb8293548ad1602b24b046b9a6f032fc62798d46102029a1f3448d764bdd"],
        count: M14_PARAMETER_COUNT,
    }
}

fn m12_base() -> (r: PinnedSource)
    ensures
        r@ == m12_base_view(),
{
    let source = PinnedSource {
        identity: TupleIdentity {
            action: owned("1755359086494840931"),
            feature: owned("8078516161541333175"),
            model: owned("17156054387874206897"),
            ppo_version: owned("23"),
            ppo_hash: owned("765990392710687046"),
            rules: owned("18"),
            reward: None,
        },
        digests: vec!["adbecb8293548ad1602b24b046b9a6f032fc62798d46102029a1f3448d764bdd"],
        count: M14_PARAMETER_COUNT,
    };
    assert(source@ =~= m12_base_view());
    source
}

/// Skill-blended twelfth-generation source.
pub open spec fn m12_skill_view() -> SourceView {
    SourceView {
        identity: IdentityView {
            action: "1755359086494840931"@,
            feature: "8078516161541333175"@,
            model: "17156054387874206897"@,
            ppo_version: "25"@,
            ppo_hash: "12302688747093836273"@,
            rules: "20"@,
            reward: None,
        },
        digests: seq!["d22a011f829c23593bbc6c03d22cbab9ab13bb79662959eda2d6c96b9de8098e"],
        count: M14_PARAMETER_COUNT,
    }
}

fn m12_skill() -> (r: PinnedSource)
    ensures
        r@ == m12_skill_view(),
{
    let source = PinnedSource {
        identity: TupleIdentity {
            action: owned("1755359086494840931"),
            feature: owned("8078516161541333175"),
            model: owned("17156054387874206897"),
            ppo_version: owned("25"),
            ppo_hash: owned("12302688747093836273"),
            rules: owned("20"),
            reward: None,
        },
        digests: vec!["d22a011f829c23593bbc6c03d22cbab9ab13bb79662959eda2d6c96b9de8098e"],
        count: M14_PARAMETER_COUNT,
    };
    assert(source@ =~= m12_skill_view());
    source
}

/// Eleventh-generation source.
pub open spec fn m11_view() -> SourceView {
    SourceView {
        identity: IdentityView {
            action: "1755359086494840931"@,
            feature: "15519817897416174399"@,
            model: "18229126264156367519"@,
            ppo_version: "21"@,
            ppo_hash: "768751058595344501"@,
            rules: "17"@,
            reward: None,
        },
        digests: seq!["5bbb8843fec88f3c6443618de9cabeba44ff9dbb0b7f9a9856c2c8936551e880"],
        count: M11_PARAMETER_COUNT,
    }
}

fn m11() -> (r: PinnedSource)
    ensures
        r@ == m11_view(),
{
    let source = PinnedSource {
        identity: TupleIdentity {
            action: owned("1755359086494840931"),
            feature: owned("15519817897416174399"),
            model: owned("18229126264156367519"),
            ppo_version: owned("21"),
            ppo_hash: owned("768751058595344501"),
            rules: owned("17"),
            reward: None,
        },
        digests: vec!["5bbb8843fec88f3c6443618de9cabeba44ff9dbb0b7f9a9856c2c8936551e880"],
        count: M11_PARAMETER_COUNT,
    };
    assert(source@ =~= m11_view());
    source
}

/// Tenth-generation source.
pub open spec fn m10_view() -> SourceView {
    SourceView {
        identity: IdentityView {
            action: "1755359086494840931"@,
            feature: "9669721049329356661"@,
            model: "720439888929233033"@,
            ppo_version: "18"@,
            ppo_hash: "6877503070358232325"@,
            rules: "15"@,
            reward: None,
        },
        digests: seq!["b3802642b34487d66fc3f0fe526e7f8b2a84df542793ac336b58ea046b8f8b53"],
        count: M11_PARAMETER_COUNT,
    }
}

fn m10() -> (r: PinnedSource)
    ensures
        r@ == m10_view(),
{
    let source = PinnedSource {
        identity: TupleIdentity {
            action: owned("1755359086494840931"),
            feature: owned("9669721049329356661"),
            model: owned("720439888929233033"),
            ppo_version: owned("18"),
            ppo_hash: owned("6877503070358232325"),
            rules: owned("15"),
            reward: None,
        },
        digests: vec!["b3802642b34487d66fc3f0fe526e7f8b2a84df542793ac336b58ea046b8f8b53"],
        count: M11_PARAMETER_COUNT,
    };
    assert(source@ =~= m10_view());
    source
}

/// Sixteenth-generation source.
pub open spec fn m16_view() -> SourceView {
    SourceView {
        identity: IdentityView {
            action: "281345351372519059"@,
            feature: "16612223928593971806"@,
            model: "16105106472474017042"@,
            ppo_version: "29"@,
            ppo_hash: "6915425029811947603"@,
            rules: "24"@,
            reward: Some(("1"@, "798798703797057220"@, MAP2_REWARD_V1_DESCRIPTOR@)),
        },
        digests: seq!["1739d280cb6c3fbd0df71ffe8c4a129ed3e25a0ed294b0b57931c4891c566bf4", "fdd4d3f2a85a64d9b4d162f1607a94a4aaba8a8e3136e51dab2152181cdf63b7"],
        count: M16_PARAMETER_COUNT,
    }
}

fn m16() -> (r: PinnedSource)
    ensures
        r@ == m16_view(),
{
    let source = PinnedSource {
        identity: TupleIdentity {
            action: owned("281345351372519059"),
            feature: owned("16612223928593971806"),
            model: owned("16105106472474017042"),
            ppo_version: owned("29"),
            ppo_hash: owned("6915425029811947603"),
            rules: owned("24"),
            reward: Some(RewardIdentity { version: owned("1"), hash: owned("798798703797057220"), descriptor: owned(MAP2_REWARD_V1_DESCRIPTOR) }),
        },
        digests: vec!["1739d280cb6c3fbd0df71ffe8c4a129ed3e25a0ed294b0b57931c4891c566bf4", "fdd4d3f2a85a64d9b4d162f1607a94a4aaba8a8e3136e51dab2152181cdf63b7"],
        count: M16_PARAMETER_COUNT,
    };
    assert(source@ =~= m16_view());
    source
}

/// Seventeenth-generation source.
pub open spec fn m17_view() -> SourceView {
    SourceView {
        identity: IdentityView {
            action: "10658390830565586343"@,
            feature: "1861607613534772372"@,
            model: "13592057279889489276"@,
            ppo_version: "30"@,
            ppo_hash: "16275284022255703821"@,
            rules: "25"@,
            reward: Some(("1"@, "798798703797057220"@, MAP2_REWARD_V1_DESCRIPTOR@)),
        },
        digests: seq!["05e78663dd45ac23ad6c0242a69d8b8e45c163f7861c59154e3f3fd81de9ab1f", "107e19e61794c457ce8ec6adc2b3e66ccce08ee5b6544cb2005964f3e7dfedc8"],
        count: M16_PARAMETER_COUNT,
    }
}

fn m17() -> (r: PinnedSource)
    ensures
        r@ == m17_view(),
{
    let source = PinnedSource {
        identity: TupleIdentity {
            action: owned("10658390830565586343"),
            feature: owned("1861607613534772372"),
            model: owned("13592057279889489276"),
            ppo_version: owned("30"),
            ppo_hash: owned("16275284022255703821"),
            rules: owned("25"),
            reward: Some(RewardIdentity { version: owned("1"), hash: owned("798798703797057220"), descriptor: owned(MAP2_REWARD_V1_DESCRIPTOR) }),
        },
        digests: vec!["05e78663dd45ac23ad6c0242a69d8b8e45c163f7861c59154e3f3fd81de9ab1f", "107e19e61794c457ce8ec6adc2b3e66ccce08ee5b6544cb2005964f3e7dfedc8"],
        count: M16_PARAMETER_COUNT,
    };
    assert(source@ =~= m17_view());
    source
}

/// Nineteenth-generation source.
pub open spec fn m19_view() -> SourceView {
    SourceView {
        identity: IdentityView {
            action: "10658390830565586343"@,
            feature: "4298252436472980484"@,
            model: "7182549121935768714"@,
            ppo_version: "32"@,
            ppo_hash: "9056229782321552319"@,
            rules: "27"@,
            reward: Some(("3"@, "11643768462079275437"@, MAP2_REWARD_V3_DESCRIPTOR@)),
        },
        digests: seq!["9d0b88128bb4a74d636e0774ab53eeed2e2aea306c3ab0186a5698f41f92afea"],
        count: M19_PARAMETER_COUNT,
    }
}

fn m19() -> (r: PinnedSource)
    ensures
        r@ == m19_view(),
{
    let source = PinnedSource {
        identity: TupleIdentity {
            action: owned("10658390830565586343"),
            feature: owned("4298252436472980484"),
            model: owned("7182549121935768714"),
            ppo_version: owned("32"),
            ppo_hash: owned("9056229782321552319"),
            rules: owned("27"),
            reward: Some(RewardIdentity { version: owned("3"), hash: owned("11643768462079275437"), descriptor: owned(MAP2_REWARD_V3_DESCRIPTOR) }),
        },
        digests: vec!["9d0b88128bb4a74d636e0774ab53eeed2e2aea306c3ab0186a5698f41f92afea"],
        count: M19_PARAMETER_COUNT,
    };
    assert(source@ =~= m19_view());
    source
}

/// Twenty-first-generation source, under the given reward descriptor.
pub open spec fn m21_view(reward: Seq<char>) -> SourceView {
    SourceView {
        identity: IdentityView {
            action: "10658390830565586343"@,
            feature: "11343334068766071417"@,
            model: "13521186719558157260"@,
            ppo_version: "34"@,
            ppo_hash: "12153447298094992077"@,
            rules: "29"@,
            reward: Some(("5"@, "10775256611790261869"@, reward)),
        },
        digests: seq!["b29752acf5c02687a54a63dce9d76480f8e97fc416ad9d4159c21a59e9109780"],
        count: M21_PARAMETER_COUNT,
    }
}

fn m21(reward: &str) -> (r: PinnedSource)
    ensures
        r@ == m21_view(reward@),
{
    let source = PinnedSource {
        identity: TupleIdentity {
            action: owned("10658390830565586343"),
            feature: owned("11343334068766071417"),
            model: owned("13521186719558157260"),
            ppo_version: owned("34"),
            ppo_hash: owned("12153447298094992077"),
            rules: owned("29"),
            reward: Some(RewardIdentity { version: owned("5"), hash: owned("10775256611790261869"), descriptor: owned(reward) }),
        },
        digests: vec!["b29752acf5c02687a54a63dce9d76480f8e97fc416ad9d4159c21a59e9109780"],
        count: M21_PARAMETER_COUNT,
    };
    assert(source@ =~= m21_view(reward@));
    source
}

/// Versions that a new policy is built for.
#[derive(Clone, Copy, Debug, PartialEq, Eq, Structural)]
pub struct TargetVersions {
    pub feature: u32,
    pub action: u32,
    pub model: u32,
    pub ppo: u32,
    pub rules: u32,
    pub reward_version: u32,
    pub reward_hash: u64,
    pub parameter_count: usize,
    pub global_features: usize,
}

/// Parameter ancestry of a new, unqualified policy; never a resume or gameplay identity.
#[derive(Clone, Copy, Debug, PartialEq, Eq)]
pub struct Map2InitializationProvenance {
    pub source_sha256: [u8; 32],
    pub source_ppo_schema_version: u32,
    pub source_ppo_rules_audit_version: u32,
}

impl Map2InitializationProvenance {
    pub open spec fn description_spec(self, target: TargetVersions) -> Seq<char> {
        "INITIALIZATION_ONLY source_m14_sha256="@ + hex_of(self.source_sha256@) + " source_ppo="@
            + decimal(self.source_ppo_schema_version as nat) + " source_rules="@ + decimal(
            self.source_ppo_rules_audit_version as nat,
        ) + " target_f="@ + decimal(target.feature as nat) + " target_a="@ + decimal(
            target.action as nat,
        ) + " target_m="@ + decimal(target.model as nat) + " target_ppo="@ + decimal(
            target.ppo as nat,
        ) + " target_rules="@ + decimal(target.rules as nat) + " reward_version="@ + decimal(
            target.reward_version as nat,
        ) + " reward_hash="@ + decimal(target.reward_hash as nat)
            + " old_parameter_bits_preserved=true new_weights="@ + decimal(
            (target.parameter_count - M14_PARAMETER_COUNT) as nat,
        )
            + "_positive_zero optimizer_progress_rng_league=fresh gameplay_equivalence=false qualification=false"@
    }

    /// Text to persist with a new run, not with the source artifact.
    pub fn description(&self, target: TargetVersions) -> (r: String)
        requires
            target.parameter_count >= M14_PARAMETER_COUNT,
        ensures
            r@ == self.description_spec(target),
    {
        let digest = hex(vstd::array::array_as_slice(&self.source_sha256));
        let mut text = with_text(
            owned("INITIALIZATION_ONLY source_m14_sha256="),
            digest.as_str(),
        );
        text = with_decimal(
            with_text(text, " source_ppo="),
            self.source_ppo_schema_version as u64,
        );
        text = with_decimal(
            with_text(text, " source_rules="),
            self.source_ppo_rules_audit_version as u64,
        );
        text = with_decimal(with_text(text, " target_f="), target.feature as u64);
        text = with_decimal(with_text(text, " target_a="), target.action as u64);
        text = with_decimal(with_text(text, " target_m="), target.model as u64);
        text = with_decimal(with_text(text, " target_ppo="), target.ppo as u64);
        text = with_decimal(with_text(text, " target_rules="), target.rules as u64);
        text = with_decimal(with_text(text, " reward_version="), target.reward_version as u64);
        text = with_decimal(with_text(text, " reward_hash="), target.reward_hash);
        text = with_decimal(
            with_text(text, " old_parameter_bits_preserved=true new_weights="),
            (target.parameter_count - M14_PARAMETER_COUNT) as u64,
        );
        with_text(
            text,
            "_positive_zero optimizer_progress_rng_league=fresh gameplay_equivalence=false qualification=false",
        )
    }
}

/// Ancestry of a new-navigation policy.
#[derive(Clone, Copy, Debug, PartialEq, Eq)]
pub struct Map2NavigationInitializationProvenance {
    pub source_sha256: [u8; 32],
}

impl Map2NavigationInitializationProvenance {
    /// Full immutable source-file digest; not a runtime compatibility identity.
    pub fn source_sha256(self) -> (r: [u8; 32])
        ensures
            r@ == self.source_sha256@,
    {
        self.source_sha256
    }

    pub open spec fn description_spec(self, target: TargetVersions) -> Seq<char> {
        "INITIALIZATION_ONLY source_m16_sha256="@ + hex_of(self.source_sha256@)
            + " source_f=14 source_a=4 source_m=16 source_ppo=29 source_rules=24 target_f="@
            + decimal(target.feature as nat) + " target_a="@ + decimal(target.action as nat)
            + " target_m="@ + decimal(target.model as nat) + " target_ppo="@ + decimal(
            target.ppo as nat,
        ) + " target_rules="@ + decimal(target.rules as nat)
            + " reward_version=1 reward_hash=798798703797057220 parameter_bits_preserved=true named_tensors=62 new_weights=0 optimizer_progress_rng_league=fresh GAMEPLAY_EQUIVALENCE=false new_legal_actions_change_behavior=true qualification=false"@
    }

    /// Text to retain with a new run rather than with the source metadata.
    pub fn description(self, target: TargetVersions) -> (r: String)
        ensures
            r@ == self.description_spec(target),
    {
        let digest = hex(vstd::array::array_as_slice(&self.source_sha256));
        let mut text = with_text(
            owned("INITIALIZATION_ONLY source_m16_sha256="),
            digest.as_str(),
        );
        text = with_decimal(
            with_text(
                text,
                " source_f=14 source_a=4 source_m=16 source_ppo=29 source_rules=24 target_f=",
            ),
            target.feature as u64,
        );
        text = with_decimal(with_text(text, " target_a="), target.action as u64);
        text = with_decimal(with_text(text, " target_m="), target.model as u64);
        text = with_decimal(with_text(text, " target_ppo="), target.ppo as u64);
        text = with_decimal(with_text(text, " target_rules="), target.rules as u64);
        with_text(
            text,
            " reward_version=1 reward_hash=798798703797057220 parameter_bits_preserved=true named_tensors=62 new_weights=0 optimizer_progress_rng_league=fresh GAMEPLAY_EQUIVALENCE=false new_legal_actions_change_behavior=true qualification=false",
        )
    }

    /// Ancestry of a permitted digest.
    pub fn from_source_sha256(source_sha256: [u8; 32]) -> (r: Result<Self, CheckpointError>)
        ensures
            match r {
                Ok(provenance) => permitted(m16_view().digests, source_sha256@)
                    && provenance.source_sha256@ == source_sha256@,
                Err(error) => !permitted(m16_view().digests, source_sha256@) && error
                    == CheckpointError::TensorContract(
                    "selected M16 navigation initialization source SHA-256",
                ),
            },
    {
        if !is_permitted(&m16().digests, &source_sha256) {
            return Err(
                CheckpointError::TensorContract(
                    "selected M16 navigation initialization source SHA-256",
                ),
            );
        }
        Ok(Map2NavigationInitializationProvenance { source_sha256 })
    }
}

/// Ancestry of a policy under the wait and progress reward.
#[derive(Clone, Copy, Debug, PartialEq, Eq)]
pub struct Map2WaitInitializationProvenance {
    pub source_sha256: [u8; 32],
}

impl Map2WaitInitializationProvenance {
    pub fn source_sha256(self) -> (r: [u8; 32])
        ensures
            r@ == self.source_sha256@,
    {
        self.source_sha256
    }

    pub open spec fn description_spec(self, target: TargetVersions) -> Seq<char> {
        "INITIALIZATION_ONLY source_m17_sha256="@ + hex_of(self.source_sha256@)
            + " source_f=15 source_a=5 source_m=17 source_ppo=30 source_rules=25 source_reward_version=1 source_reward_hash=798798703797057220 target_f="@
            + decimal(target.feature as nat) + " target_a="@ + decimal(target.action as nat)
            + " target_m="@ + decimal(target.model as nat) + " target_ppo="@ + decimal(
            target.ppo as nat,
        ) + " target_rules="@ + decimal(target.rules as nat) + " reward_version="@ + decimal(
            target.reward_version as nat,
        ) + " reward_hash="@ + decimal(target.reward_hash as nat)
            + " parameter_bits_preserved=true named_tensors=62 new_weights=2560_positive_zero trunk_insertion_rows=85..90 optimizer_progress_rng_league=fresh GAMEPLAY_EQUIVALENCE=false qualification=false"@
    }

    /// Text to store with a new run, never with the source metadata.
    pub fn description(self, target: TargetVersions) -> (r: String)
        ensures
            r@ == self.description_spec(target),
    {
        let digest = hex(vstd::array::array_as_slice(&self.source_sha256));
        let mut text = with_text(
            owned("INITIALIZATION_ONLY source_m17_sha256="),
            digest.as_str(),
        );
        text = with_decimal(
            with_text(
                text,
                " source_f=15 source_a=5 source_m=17 source_ppo=30 source_rules=25 source_reward_version=1 source_reward_hash=798798703797057220 target_f=",
            ),
            target.feature as u64,
        );
        text = with_decimal(with_text(text, " target_a="), target.action as u64);
        text = with_decimal(with_text(text, " target_m="), target.model as u64);
        text = with_decimal(with_text(text, " target_ppo="), target.ppo as u64);
        text = with_decimal(with_text(text, " target_rules="), target.rules as u64);
        text = with_decimal(with_text(text, " reward_version="), target.reward_version as u64);
        text = with_decimal(with_text(text, " reward_hash="), target.reward_hash);
        with_text(
            text,
            " parameter_bits_preserved=true named_tensors=62 new_weights=2560_positive_zero trunk_insertion_rows=85..90 optimizer_progress_rng_league=fresh GAMEPLAY_EQUIVALENCE=false qualification=false",
        )
    }

    /// Ancestry of a permitted digest.
    pub fn from_source_sha256(source_sha256: [u8; 32]) -> (r: Result<Self, CheckpointError>)
        ensures
            match r {
                Ok(provenance) => permitted(m17_view().digests, source_sha256@)
                    && provenance.source_sha256@ == source_sha256@,
                Err(error) => !permitted(m17_view().digests, source_sha256@) && error
                    == CheckpointError::TensorContract(
                    "selected M17 wait initialization source SHA-256",
                ),
            },
    {
        if !is_permitted(&m17().digests, &source_sha256) {
            return Err(
                CheckpointError::TensorContract("selected M17 wait initialization source SHA-256"),
            );
        }
        Ok(Map2WaitInitializationProvenance { source_sha256 })
    }
}

/// Ancestry of a policy under the reward that ends in no win.
#[derive(Clone, Copy, Debug, PartialEq, Eq)]
pub struct Map2NonwinInitializationProvenance {
    pub source_sha256: [u8; 32],
}

impl Map2NonwinInitializationProvenance {
    pub fn source_sha256(self) -> (r: [u8; 32])
        ensures
            r@ == self.source_sha256@,
    {
        self.source_sha256
    }

    pub open spec fn description_spec(self, target: TargetVersions) -> Seq<char> {
        "INITIALIZATION_ONLY source_m19_sha256="@ + hex_of(self.source_sha256@)
            + " source_f=17 source_m=19 source_ppo=32 source_rules=27 source_reward=3 source_reward_hash=11643768462079275437 target_f="@
            + decimal(target.feature as nat) + " target_m="@ + decimal(target.model as nat)
            + " target_ppo="@ + decimal(target.ppo as nat) + " target_rules="@ + decimal(
            target.rules as nat,
        ) + " target_reward="@ + decimal(target.reward_version as nat) + " target_reward_hash="@
            + decimal(target.reward_hash as nat)
            + " parameter_bits_preserved=true named_tensors=62 new_weights="@ + decimal(
            ((target.global_features - M19_GLOBAL_ROWS) * 512) as nat,
        ) + "_positive_zero trunk_insertion_rows=90.."@ + decimal(target.global_features as nat)
            + " optimizer_progress_rng_league=fresh mastery_window=fresh gameplay_equivalence=false reward_equivalence=false qualification=false"@
    }

    /// Text to store with a new run.
    pub fn description(self, target: TargetVersions) -> (r: String)
        requires
            M19_GLOBAL_ROWS <= target.global_features <= 0x10_0000,
        ensures
            r@ == self.description_spec(target),
    {
        let digest = hex(vstd::array::array_as_slice(&self.source_sha256));
        let mut text = with_text(
            owned("INITIALIZATION_ONLY source_m19_sha256="),
            digest.as_str(),
        );
        text = with_decimal(
            with_text(
                text,
                " source_f=17 source_m=19 source_ppo=32 source_rules=27 source_reward=3 source_reward_hash=11643768462079275437 target_f=",
            ),
            target.feature as u64,
        );
        text = with_decimal(with_text(text, " target_m="), target.model as u64);
        text = with_decimal(with_text(text, " target_ppo="), target.ppo as u64);
        text = with_decimal(with_text(text, " target_rules="), target.rules as u64);
        text = with_decimal(with_text(text, " target_reward="), target.reward_version as u64);
        text = with_decimal(with_text(text, " target_reward_hash="), target.reward_hash);
        text = with_decimal(
            with_text(text, " parameter_bits_preserved=true named_tensors=62 new_weights="),
            ((target.global_features - M19_GLOBAL_ROWS) * 512) as u64,
        );
        text = with_decimal(
            with_text(text, "_positive_zero trunk_insertion_rows=90.."),
            target.global_features as u64,
        );
        with_text(
            text,
            " optimizer_progress_rng_league=fresh mastery_window=fresh gameplay_equivalence=false reward_equivalence=false qualification=false",
        )
    }

    /// Ancestry of the permitted digest.
    pub fn from_source_sha256(source_sha256: [u8; 32]) -> (r: Result<Self, CheckpointError>)
        ensures
            match r {
                Ok(provenance) => permitted(m19_view().digests, source_sha256@)
                    && provenance.source_sha256@ == source_sha256@,
                Err(error) => !permitted(m19_view().digests, source_sha256@) && error
                    == CheckpointError::TensorContract(
                    "selected M19 nonwin initialization source SHA-256",
                ),
            },
    {
        if !is_permitted(&m19().digests, &source_sha256) {
            return Err(
                CheckpointError::TensorContract("selected M19 nonwin initialization source SHA-256"),
            );
        }
        Ok(Map2NonwinInitializationProvenance { source_sha256 })
    }
}

/// Reads tenth-generation weights; their gameplay is retired.
pub fn decode_selected_m10_training_tensor(bytes: &[u8]) -> (r: Result<
    SelectedWeights,
    CheckpointError,
>)
    ensures
        read_as(bytes@, seq![m10_view()], "selected M10 training source SHA-256", r),
{
    let sources = vec![m10()];
    assert(source_views(sources@) =~= seq![m10_view()]);
    decode_selected(bytes, &sources, "selected M10 training source SHA-256")
}

/// Reads eleventh-generation weights; their gameplay is retired.
pub fn decode_selected_m11_training_tensor(bytes: &[u8]) -> (r: Result<
    SelectedWeights,
    CheckpointError,
>)
    ensures
        read_as(bytes@, seq![m11_view()], "selected M11 training source SHA-256", r),
{
    let sources = vec![m11()];
    assert(source_views(sources@) =~= seq![m11_view()]);
    decode_selected(bytes, &sources, "selected M11 training source SHA-256")
}

/// Reads twelfth-generation weights; their gameplay is retired.
pub fn decode_selected_m12_training_tensor(bytes: &[u8]) -> (r: Result<
    SelectedWeights,
    CheckpointError,
>)
    ensures
        read_as(
            bytes@,
            seq![m12_base_view(), m12_skill_view()],
            "selected M12 training source SHA-256",
            r,
        ),
{
    let sources = vec![m12_base(), m12_skill()];
    assert(source_views(sources@) =~= seq![m12_base_view(), m12_skill_view()]);
    decode_selected(bytes, &sources, "selected M12 training source SHA-256")
}

/// Initializer of a retired generation: a readable source is refused all the same.
pub fn refuse_retired(read: Result<SelectedWeights, CheckpointError>) -> (r: CheckpointError)
    ensures
        r == match read {
            Ok(_) => CheckpointError::SchemaMismatch,
            Err(error) => error,
        },
{
    match read {
        Ok(_) => CheckpointError::SchemaMismatch,
        Err(error) => error,
    }
}

/// Fourteenth-generation sources.
pub open spec fn m14_sources() -> Seq<SourceView> {
    seq![m14_corrected_view(), m14_initial_view()]
}

/// Reads fourteenth-generation weights and their ancestry.
pub fn decode_selected_m14_map2_tensor(bytes: &[u8]) -> (r: Result<
    (Vec<u32>, Map2InitializationProvenance),
    CheckpointError,
>)
    ensures
        exists|read: Result<SelectedWeights, CheckpointError>| #[trigger]
            read_as(
                bytes@,
                m14_sources(),
                "selected M14 Map2 initialization source SHA-256",
                read,
            ) && match read {
                Err(error) => r == Err::<
                    (Vec<u32>, Map2InitializationProvenance),
                    CheckpointError,
                >(error),
                Ok(weights) => r matches Ok(result) && result.0@ == weights.parameters@
                    && result.1.source_sha256@ == sha256_of(bytes@)
                    && result.1.source_ppo_schema_version == (if weights.source == 0 {
                    27u32
                } else {
                    26u32
                }) && result.1.source_ppo_rules_audit_version == (if weights.source == 0 {
                    22u32
                } else {
                    21u32
                }),
            },
{
    let sources = vec![m14_corrected(), m14_initial()];
    assert(source_views(sources@) =~= m14_sources());
    let read = decode_selected(
        bytes,
        &sources,
        "selected M14 Map2 initialization source SHA-256",
    );
    match read {
        Err(error) => Err(error),
        Ok(weights) => {
            let corrected = weights.source == 0;
            let provenance = Map2InitializationProvenance {
                source_sha256: weights.digest,
                source_ppo_schema_version: if corrected {
                    27
                } else {
                    26
                },
                source_ppo_rules_audit_version: if corrected {
                    22
                } else {
                    21
                },
            };
            Ok((weights.parameters, provenance))
        },
    }
}

/// Reads sixteenth-generation weights for a new-navigation policy.
pub fn decode_selected_m16_navigation_tensor(bytes: &[u8]) -> (r: Result<
    SelectedWeights,
    CheckpointError,
>)
    ensures
        read_as(
            bytes@,
            seq![m16_view()],
            "selected M16 navigation initialization source SHA-256",
            r,
        ),
{
    let sources = vec![m16()];
    assert(source_views(sources@) =~= seq![m16_view()]);
    decode_selected(bytes, &sources, "selected M16 navigation initialization source SHA-256")
}

/// Reads seventeenth-generation weights for a wait-reward policy.
pub fn decode_selected_m17_wait_tensor(bytes: &[u8]) -> (r: Result<
    SelectedWeights,
    CheckpointError,
>)
    ensures
        read_as(bytes@, seq![m17_view()], "selected M17 wait initialization source SHA-256", r),
{
    let sources = vec![m17()];
    assert(source_views(sources@) =~= seq![m17_view()]);
    decode_selected(bytes, &sources, "selected M17 wait initialization source SHA-256")
}

/// Reads nineteenth-generation weights for a nonwin-reward policy.
pub fn decode_selected_m19_nonwin_tensor(bytes: &[u8]) -> (r: Result<
    SelectedWeights,
    CheckpointError,
>)
    ensures
        read_as(bytes@, seq![m19_view()], "selected M19 nonwin initialization source SHA-256", r),
{
    let sources = vec![m19()];
    assert(source_views(sources@) =~= seq![m19_view()]);
    decode_selected(bytes, &sources, "selected M19 nonwin initialization source SHA-256")
}

/// Reads twenty-first-generation weights for a terminal-reward policy.
pub fn decode_selected_m21_terminal_tensor(bytes: &[u8], reward: &str) -> (r: Result<
    SelectedWeights,
    CheckpointError,
>)
    ensures
        read_as(
            bytes@,
            seq![m21_view(reward@)],
            "selected M21/u300 terminal initialization source SHA-256",
            r,
        ),
{
    let sources = vec![m21(reward)];
    assert(source_views(sources@) =~= seq![m21_view(reward@)]);
    decode_selected(bytes, &sources, "selected M21/u300 terminal initialization source SHA-256")
}

pub open spec fn terminal_description_spec(target: TargetVersions) -> Seq<char> {
    "INITIALIZATION_ONLY source_m21_u300_sha256=b29752acf5c02687a54a63dce9d76480f8e97fc416ad9d4159c21a59e9109780 source_f=19 source_m=21 source_ppo=34 source_rules=29 source_reward=5 source_reward_hash=10775256611790261869 target_f="@
        + decimal(target.feature as nat) + " target_m="@ + decimal(target.model as nat)
        + " target_ppo="@ + decimal(target.ppo as nat) + " target_rules="@ + decimal(
        target.rules as nat,
    ) + " target_reward="@ + decimal(target.reward_version as nat) + " target_reward_hash="@
        + decimal(target.reward_hash as nat)
        + " parameter_bits_preserved=true parameters=1700020 new_weights=0 actor_critic_rescaled=false optimizer_progress_mastery_rng_league=fresh reward_equivalence=false qualification=false"@
}

/// Text to store with a new terminal-reward run.
pub fn terminal_description(target: TargetVersions) -> (r: String)
    ensures
        r@ == terminal_description_spec(target),
{
    let mut text = with_decimal(
        owned(
            "INITIALIZATION_ONLY source_m21_u300_sha256=b29752acf5c02687a54a63dce9d76480f8e97fc416ad9d4159c21a59e9109780 source_f=19 source_m=21 source_ppo=34 source_rules=29 source_reward=5 source_reward_hash=10775256611790261869 target_f=",
        ),
        target.feature as u64,
    );
    text = with_decimal(with_text(text, " target_m="), target.model as u64);
    text = with_decimal(with_text(text, " target_ppo="), target.ppo as u64);
    text = with_decimal(with_text(text, " target_rules="), target.rules as u64);
    text = with_decimal(with_text(text, " target_reward="), target.reward_version as u64);
    text = with_decimal(with_text(text, " target_reward_hash="), target.reward_hash);
    with_text(
        text,
        " parameter_bits_preserved=true parameters=1700020 new_weights=0 actor_critic_rescaled=false optimizer_progress_mastery_rng_league=fresh reward_equivalence=false qualification=false",
    )
}

/// Tensors that runtime weights are written with.
pub open spec fn runtime_tensors(parameters: Seq<u32>) -> Map<
    Seq<char>,
    (bool, Seq<usize>, Seq<u8>),
> {
    Map::<Seq<char>, (bool, Seq<usize>, Seq<u8>)>::empty().insert(
        "model.parameters"@,
        (true, seq![parameters.len() as usize], words_bytes(parameters)),
    )
}

/// Whether schema texts are short enough to write.
pub open spec fn texts_bounded(identity: IdentityView) -> bool {
    &&& identity.action.len() <= 0x1_0000
    &&& identity.feature.len() <= 0x1_0000
    &&& identity.model.len() <= 0x1_0000
    &&& identity.ppo_version.len() <= 0x1_0000
    &&& identity.ppo_hash.len() <= 0x1_0000
    &&& identity.rules.len() <= 0x1_0000
    &&& identity.reward matches Some(reward) ==> reward.0.len() <= 0x1_0000 && reward.1.len()
        <= 0x1_0000 && reward.2.len() <= 0x1_0000
}

/// Writes runtime weights with the schema texts of their build.
pub fn serialize_runtime_tensor(parameters: &Vec<u32>, identity: &TupleIdentity) -> (r: Result<
    Vec<u8>,
    CheckpointError,
>)
    requires
        parameters@.len() <= MAX_ARCHIVE_ELEMENTS,
        texts_bounded(identity@),
    ensures
        match values_fault("model.parameters", parameters@) {
            Some(error) => r == Err::<Vec<u8>, CheckpointError>(error),
            None => r matches Ok(bytes) && header_bounded(bytes@) && archive_tensors(bytes@)
                == Some(runtime_tensors(parameters@)) && archive_metadata(bytes@) == Some(
                Some(identity_texts(identity@)),
            ),
        },
{
    match validate_tensor_values("model.parameters", parameters) {
        Ok(()) => {},
        Err(error) => {
            return Err(error);
        },
    }
    let tensor = vector_tensor("model.parameters", parameters);
    let list = vec![tensor];
    let texts = identity.texts();
    proof {
        reveal_strlit("model.parameters");
        reveal_strlit("__metadata__");
        assert("model.parameters"@[0] != "__metadata__"@[0]);
        encoded_values_read_back(parameters@);
        assert(list@ =~= seq![tensor]);
        assert(list@.last() == tensor);
        reveal_with_fuel(tensors_map, 2);
        assert(tensors_map(list@) =~= runtime_tensors(parameters@));
        assert forall|i: int| 0 <= i < texts@.len() implies (#[trigger] texts@[i]).0@.len()
            <= 0x1_0000 && texts@[i].1@.len() <= 0x1_0000 by {}
        assert(writable(list@, Some(texts)));
    }
    serialize_named_tensors(&list, Some(texts))
}

/// Whether reading runtime weights had the outcome that their archive gives.
pub open spec fn runtime_read(
    bytes: Seq<u8>,
    identity: IdentityView,
    count: usize,
    r: Result<Vec<u32>, CheckpointError>,
) -> bool {
    if !header_bounded(bytes) {
        r matches Err(error) && oversized(error)
    } else {
        match archive_metadata(bytes) {
            None => r matches Err(CheckpointError::Backend(_)),
            Some(texts) => if !texts_match(texts, identity) {
                r == Err::<Vec<u32>, CheckpointError>(CheckpointError::SchemaMismatch)
            } else {
                match archive_tensors(bytes) {
                    None => r matches Err(CheckpointError::Backend(_)),
                    Some(tensors) => match parameters_of(tensors, count) {
                        Err(error) => r == Err::<Vec<u32>, CheckpointError>(error),
                        Ok(values) => r matches Ok(parameters) && parameters@ == values,
                    },
                }
            },
        }
    }
}

/// Reads runtime weights of exactly the given schema texts.
pub fn decode_runtime_tensor(bytes: &[u8], identity: &TupleIdentity, count: usize) -> (r: Result<
    Vec<u32>,
    CheckpointError,
>)
    ensures
        runtime_read(bytes@, identity@, count, r),
{
    let texts = match archive_texts(bytes) {
        Ok(texts) => texts,
        Err(error) => {
            return Err(error);
        },
    };
    if !is_texts_match(&texts, identity) {
        return Err(CheckpointError::SchemaMismatch);
    }
    match archive_contents(bytes) {
        Err(error) => Err(error),
        Ok(list) => decode_parameters(&list, count),
    }
}

/// Runtime weights that were written with some schema texts load under the same texts with the
/// written parameters.
pub proof fn runtime_weights_read_back(
    parameters: Seq<u32>,
    identity: IdentityView,
    count: usize,
    bytes: Seq<u8>,
    r: Result<Vec<u32>, CheckpointError>,
)
    requires
        parameters.len() == count,
        row_finite(parameters),
        header_bounded(bytes),
        archive_tensors(bytes) == Some(runtime_tensors(parameters)),
        archive_metadata(bytes) == Some(Some(identity_texts(identity))),
        runtime_read(bytes, identity, count, r),
    ensures
        r matches Ok(values) && values@ == parameters,
{
    encoded_values_read_back(parameters);
    let names = seq!["model.parameters"];
    assert(names[0]@ == "model.parameters"@);
    assert(runtime_tensors(parameters).dom() =~= name_set(names)) by {
        assert forall|name: Seq<char>|
            runtime_tensors(parameters).dom().contains(name) == name_set(names).contains(name) by {
            if name_set(names).contains(name) {
                let i = choose|i: int| 0 <= i < names.len() && (#[trigger] names[i])@ == name;
                assert(i == 0);
            }
        }
    }
    crate::search::lemma_first_from_none(
        parameters,
        |bits: u32| !crate::frame::finite32(bits),
        0,
    );
}

} // verus!
