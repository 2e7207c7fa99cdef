//! Ancestry texts: a text tells its digest and can stand in a run's command line.
use crate::digest::{hex_of, hexadecimal_text_is_twice_as_long, hex_digit};
use crate::manifest::{text_fault, text_ok, MAX_TEXT_BYTES};
use crate::sources::{
    Map2InitializationProvenance, Map2NavigationInitializationProvenance,
    Map2NonwinInitializationProvenance, Map2WaitInitializationProvenance, TargetVersions,
    M14_PARAMETER_COUNT, M19_GLOBAL_ROWS,
};
use crate::text::{decimal, digit};
use vstd::prelude::*;
use vstd::utf8::encode_utf8;

verus! {

/// Whether a character is a printable one of seven bits.
spec fn printable(value: char) -> bool {
    0x20 <= value as u32 && (value as u32) < 0x7f
}

/// Whether a text holds printable characters of seven bits alone.
spec fn plain(text: Seq<char>) -> bool {
    forall|i: int| 0 <= i < text.len() ==> printable(#[trigger] text[i])
}

proof fn lemma_plain_bytes(text: Seq<char>)
    requires
        plain(text),
    ensures
        encode_utf8(text).len() == text.len(),
    decreases text.len(),
{
    if text.len() > 0 {
        let rest = text.drop_first();
        assert forall|i: int| 0 <= i < rest.len() implies printable(#[trigger] rest[i]) by {
            assert(rest[i] == text[i + 1]);
        }
        lemma_plain_bytes(rest);
        assert(printable(text[0]));
    }
}

proof fn lemma_plain_text(text: Seq<char>)
    requires
        plain(text),
        0 < text.len() <= MAX_TEXT_BYTES,
    ensures
        text_ok(text),
{
    lemma_plain_bytes(text);
    assert forall|i: int| 0 <= i < text.len() implies !crate::manifest::control(
        #[trigger] text[i],
    ) by {
        assert(printable(text[i]));
    }
}

proof fn lemma_plain_join(left: Seq<char>, right: Seq<char>)
    requires
        plain(left),
        plain(right),
    ensures
        plain(left + right),
        (left + right).len() == left.len() + right.len(),
{
    assert forall|i: int| 0 <= i < (left + right).len() implies printable(
        #[trigger] (left + right)[i],
    ) by {
        if i < left.len() {
            assert((left + right)[i] == left[i]);
        } else {
            assert((left + right)[i] == right[i - left.len()]);
        }
    }
}

proof fn lemma_plain_decimal(value: nat, size: nat)
    requires
        size >= 1,
        value < vstd::arithmetic::power::pow(10, size),
    ensures
        plain(decimal(value)),
        1 <= decimal(value).len() <= size,
    decreases size,
{
    vstd::arithmetic::power::lemma_pow1(10);
    if value >= 10 {
        if size == 1 {
            assert(false);
        }
        let before = (size - 1) as nat;
        vstd::arithmetic::power::lemma_pow_adds(10, 1, before);
        assert(vstd::arithmetic::power::pow(10, size) == 10 * vstd::arithmetic::power::pow(10, before));
        assert(value / 10 < vstd::arithmetic::power::pow(10, before));
        lemma_plain_decimal(value / 10, before);
        assert(printable(digit(value % 10)));
        assert(decimal(value) =~= decimal(value / 10) + seq![digit(value % 10)]);
        lemma_plain_join(decimal(value / 10), seq![digit(value % 10)]);
    } else {
        assert(printable(digit(value)));
    }
}

/// Decimal forms of machine words are short.
proof fn lemma_word_decimal(value: nat)
    requires
        value <= u64::MAX,
    ensures
        plain(decimal(value)),
        1 <= decimal(value).len() <= 20,
{
    assert(vstd::arithmetic::power::pow(10, 20) == 100_000_000_000_000_000_000) by {
        reveal(vstd::arithmetic::power::pow);
        reveal_with_fuel(vstd::arithmetic::power::pow, 21);
    }
    lemma_plain_decimal(value, 20);
}

proof fn lemma_plain_digit(value: int)
    requires
        0 <= value < 16,
    ensures
        plain(hex_digit(value)),
        hex_digit(value).len() == 1,
{
    assert(printable(hex_digit(value)[0]));
}

proof fn lemma_plain_hex(bytes: Seq<u8>)
    ensures
        plain(hex_of(bytes)),
        hex_of(bytes).len() == 2 * bytes.len(),
    decreases bytes.len(),
{
    if bytes.len() > 0 {
        let high = hex_digit(bytes.last() as int / 16);
        let low = hex_digit(bytes.last() as int % 16);
        lemma_plain_hex(bytes.drop_last());
        lemma_plain_digit(bytes.last() as int / 16);
        lemma_plain_digit(bytes.last() as int % 16);
        lemma_plain_join(hex_of(bytes.drop_last()), high);
        lemma_plain_join(hex_of(bytes.drop_last()) + high, low);
    }
}

proof fn lemma_digit_tells(left: int, right: int)
    requires
        0 <= left < 16,
        0 <= right < 16,
        hex_digit(left) == hex_digit(right),
    ensures
        left == right,
{
    assert(hex_digit(left)[0] == hex_digit(right)[0]);
    assert(hex_digit(left)[0] as u32 == if left < 10 {
        48 + left
    } else {
        87 + left
    });
    assert(hex_digit(right)[0] as u32 == if right < 10 {
        48 + right
    } else {
        87 + right
    });
}

proof fn lemma_regroup(first: Seq<char>, second: Seq<char>, third: Seq<char>)
    ensures
        first + second + third == first + (second + third),
{
    assert(first + second + third =~= first + (second + third));
}

/// Different bytes have different hexadecimal texts.
pub proof fn hexadecimal_text_tells_its_bytes(left: Seq<u8>, right: Seq<u8>)
    requires
        hex_of(left) == hex_of(right),
    ensures
        left == right,
    decreases left.len(),
{
    hexadecimal_text_is_twice_as_long(left);
    hexadecimal_text_is_twice_as_long(right);
    if left.len() > 0 {
        let text = hex_of(left);
        let other = hex_of(right);
        let size = text.len() - 2;
        hexadecimal_text_is_twice_as_long(left.drop_last());
        hexadecimal_text_is_twice_as_long(right.drop_last());
        assert(text.subrange(0, size) =~= hex_of(left.drop_last()));
        assert(other.subrange(0, size) =~= hex_of(right.drop_last()));
        hexadecimal_text_tells_its_bytes(left.drop_last(), right.drop_last());
        assert(text.subrange(size, size + 1) =~= hex_digit(left.last() as int / 16));
        assert(other.subrange(size, size + 1) =~= hex_digit(right.last() as int / 16));
        assert(text.subrange(size + 1, size + 2) =~= hex_digit(left.last() as int % 16));
        assert(other.subrange(size + 1, size + 2) =~= hex_digit(right.last() as int % 16));
        lemma_digit_tells(left.last() as int / 16, right.last() as int / 16);
        lemma_digit_tells(left.last() as int % 16, right.last() as int % 16);
        assert(left =~= left.drop_last().push(left.last()));
        assert(right =~= right.drop_last().push(right.last()));
    } else {
        assert(left =~= right);
    }
}

proof fn lemma_head_tells(
    head: Seq<char>,
    left: Seq<u8>,
    right: Seq<u8>,
    left_rest: Seq<char>,
    right_rest: Seq<char>,
)
    requires
        left.len() == right.len(),
        head + hex_of(left) + left_rest == head + hex_of(right) + right_rest,
    ensures
        left == right,
{
    hexadecimal_text_is_twice_as_long(left);
    hexadecimal_text_is_twice_as_long(right);
    let end = head.len() + 2 * left.len();
    assert((head + hex_of(left) + left_rest).subrange(head.len() as int, end as int) =~= hex_of(left));
    assert((head + hex_of(right) + right_rest).subrange(head.len() as int, end as int) =~= hex_of(
        right,
    ));
    hexadecimal_text_tells_its_bytes(left, right);
}

proof fn plain_initialization_only_source_m14()
    ensures
        plain("INITIALIZATION_ONLY source_m14_sha256="@),
        "INITIALIZATION_ONLY source_m14_sha256="@.len() == 38,
{
    reveal_strlit("INITIALIZATION_ONLY source_m14_sha256=");
}

proof fn plain_source_ppo()
    ensures
        plain(" source_ppo="@),
        " source_ppo="@.len() == 12,
{
    reveal_strlit(" source_ppo=");
}

proof fn plain_source_rules()
    ensures
        plain(" source_rules="@),
        " source_rules="@.len() == 14,
{
    reveal_strlit(" source_rules=");
}

proof fn plain_target_f()
    ensures
        plain(" target_f="@),
        " target_f="@.len() == 10,
{
    reveal_strlit(" target_f=");
}

proof fn plain_target_a()
    ensures
        plain(" target_a="@),
        " target_a="@.len() == 10,
{
    reveal_strlit(" target_a=");
}

proof fn plain_target_m()
    ensures
        plain(" target_m="@),
        " target_m="@.len() == 10,
{
    reveal_strlit(" target_m=");
}

proof fn plain_target_ppo()
    ensures
        plain(" target_ppo="@),
        " target_ppo="@.len() == 12,
{
    reveal_strlit(" target_ppo=");
}

proof fn plain_target_rules()
    ensures
        plain(" target_rules="@),
        " target_rules="@.len() == 14,
{
    reveal_strlit(" target_rules=");
}

proof fn plain_reward_version()
    ensures
        plain(" reward_version="@),
        " reward_version="@.len() == 16,
{
    reveal_strlit(" reward_version=");
}

proof fn plain_reward_hash()
    ensures
        plain(" reward_hash="@),
        " reward_hash="@.len() == 13,
{
    reveal_strlit(" reward_hash=");
}

proof fn plain_old_parameter_bits_preserved()
    ensures
        plain(" old_parameter_bits_preserved=true new_weights="@),
        " old_parameter_bits_preserved=true new_weights="@.len() == 47,
{
    reveal_strlit(" old_parameter_bits_preserved=true new_weights=");
}

proof fn plain_positive_zero_optimizer_progress()
    ensures
        plain("_positive_zero optimizer_progress_rng_league=fresh gameplay_equivalence=false qualification=false"@),
        "_positive_zero optimizer_progress_rng_league=fresh gameplay_equivalence=false qualification=false"@.len() == 97,
{
    reveal_strlit("_positive_zero optimizer_progress_rng_league=fresh gameplay_equivalence=false qualification=false");
}

proof fn plain_initialization_only_source_m16()
    ensures
        plain("INITIALIZATION_ONLY source_m16_sha256="@),
        "INITIALIZATION_ONLY source_m16_sha256="@.len() == 38,
{
    reveal_strlit("INITIALIZATION_ONLY source_m16_sha256=");
}

proof fn plain_source_f_14_source()
    ensures
        plain(" source_f=14 source_a=4 source_m=16 source_ppo=29 source_rules=24 target_f="@),
        " source_f=14 source_a=4 source_m=16 source_ppo=29 source_rules=24 target_f="@.len() == 75,
{
    reveal_strlit(" source_f=14 source_a=4 source_m=16 source_ppo=29 source_rules=24 target_f=");
}

proof fn plain_reward_version_1_reward()
    ensures
        plain(" reward_version=1 reward_hash=798798703797057220 parameter_bits_preserved=true named_tensors=62 new_weights=0 optimizer_progress_rng_league=fresh GAMEPLAY_EQUIVALENCE=false new_legal_actions_change_behavior=true qualification=false"@),
        " reward_version=1 reward_hash=798798703797057220 parameter_bits_preserved=true named_tensors=62 new_weights=0 optimizer_progress_rng_league=fresh GAMEPLAY_EQUIVALENCE=false new_legal_actions_change_behavior=true qualification=false"@.len() == 231,
{
    reveal_strlit(" reward_version=1 reward_hash=798798703797057220 parameter_bits_preserved=true named_tensors=62 new_weights=0 optimizer_progress_rng_league=fresh GAMEPLAY_EQUIVALENCE=false new_legal_actions_change_behavior=true qualification=false");
}

proof fn plain_initialization_only_source_m17()
    ensures
        plain("INITIALIZATION_ONLY source_m17_sha256="@),
        "INITIALIZATION_ONLY source_m17_sha256="@.len() == 38,
{
    reveal_strlit("INITIALIZATION_ONLY source_m17_sha256=");
}

proof fn plain_source_f_15_source()
    ensures
        plain(" source_f=15 source_a=5 source_m=17 source_ppo=30 source_rules=25 source_reward_version=1 source_reward_hash=798798703797057220 target_f="@),
        " source_f=15 source_a=5 source_m=17 source_ppo=30 source_rules=25 source_reward_version=1 source_reward_hash=798798703797057220 target_f="@.len() == 137,
{
    reveal_strlit(" source_f=15 source_a=5 source_m=17 source_ppo=30 source_rules=25 source_reward_version=1 source_reward_hash=798798703797057220 target_f=");
}

proof fn plain_parameter_bits_preserved_true()
    ensures
        plain(" parameter_bits_preserved=true named_tensors=62 new_weights=2560_positive_zero trunk_insertion_rows=85..90 optimizer_progress_rng_league=fresh GAMEPLAY_EQUIVALENCE=false qualification=false"@),
        " parameter_bits_preserved=true named_tensors=62 new_weights=2560_positive_zero trunk_insertion_rows=85..90 optimizer_progress_rng_league=fresh GAMEPLAY_EQUIVALENCE=false qualification=false"@.len() == 189,
{
    reveal_strlit(" parameter_bits_preserved=true named_tensors=62 new_weights=2560_positive_zero trunk_insertion_rows=85..90 optimizer_progress_rng_league=fresh GAMEPLAY_EQUIVALENCE=false qualification=false");
}

proof fn plain_initialization_only_source_m19()
    ensures
        plain("INITIALIZATION_ONLY source_m19_sha256="@),
        "INITIALIZATION_ONLY source_m19_sha256="@.len() == 38,
{
    reveal_strlit("INITIALIZATION_ONLY source_m19_sha256=");
}

proof fn plain_source_f_17_source()
    ensures
        plain(" source_f=17 source_m=19 source_ppo=32 source_rules=27 source_reward=3 source_reward_hash=11643768462079275437 target_f="@),
        " source_f=17 source_m=19 source_ppo=32 source_rules=27 source_reward=3 source_reward_hash=11643768462079275437 target_f="@.len() == 120,
{
    reveal_strlit(" source_f=17 source_m=19 source_ppo=32 source_rules=27 source_reward=3 source_reward_hash=11643768462079275437 target_f=");
}

proof fn plain_target_reward()
    ensures
        plain(" target_reward="@),
        " target_reward="@.len() == 15,
{
    reveal_strlit(" target_reward=");
}

proof fn plain_target_reward_hash()
    ensures
        plain(" target_reward_hash="@),
        " target_reward_hash="@.len() == 20,
{
    reveal_strlit(" target_reward_hash=");
}

proof fn plain_parameter_bits_preserved_true_2()
    ensures
        plain(" parameter_bits_preserved=true named_tensors=62 new_weights="@),
        " parameter_bits_preserved=true named_tensors=62 new_weights="@.len() == 60,
{
    reveal_strlit(" parameter_bits_preserved=true named_tensors=62 new_weights=");
}

proof fn plain_positive_zero_trunk_insertion()
    ensures
        plain("_positive_zero trunk_insertion_rows=90.."@),
        "_positive_zero trunk_insertion_rows=90.."@.len() == 40,
{
    reveal_strlit("_positive_zero trunk_insertion_rows=90..");
}

proof fn plain_optimizer_progress_rng_league()
    ensures
        plain(" optimizer_progress_rng_league=fresh mastery_window=fresh gameplay_equivalence=false reward_equivalence=false qualification=false"@),
        " optimizer_progress_rng_league=fresh mastery_window=fresh gameplay_equivalence=false reward_equivalence=false qualification=false"@.len() == 129,
{
    reveal_strlit(" optimizer_progress_rng_league=fresh mastery_window=fresh gameplay_equivalence=false reward_equivalence=false qualification=false");
}

/// Text of a initialization description behind its digest.
spec fn initialization_tail(
    value: Map2InitializationProvenance,
    target: TargetVersions,
) -> Seq<char> {
    " source_ppo="@
        + decimal(value.source_ppo_schema_version as nat)
        + " source_rules="@
        + decimal(value.source_ppo_rules_audit_version as nat)
        + " target_f="@
        + decimal(target.feature as nat)
        + " target_a="@
        + decimal(target.action as nat)
        + " target_m="@
        + decimal(target.model as nat)
        + " target_ppo="@
        + decimal(target.ppo as nat)
        + " target_rules="@
        + decimal(target.rules as nat)
        + " reward_version="@
        + decimal(target.reward_version as nat)
        + " reward_hash="@
        + decimal(target.reward_hash as nat)
        + " old_parameter_bits_preserved=true new_weights="@
        + decimal((target.parameter_count - M14_PARAMETER_COUNT) as nat)
        + "_positive_zero optimizer_progress_rng_league=fresh gameplay_equivalence=false qualification=false"@
}

proof fn lemma_initialization_tail(value: Map2InitializationProvenance, target: TargetVersions)
    requires
        target.parameter_count >= M14_PARAMETER_COUNT,
    ensures
        plain(initialization_tail(value, target)),
        initialization_tail(value, target).len() <= 2_000,
{
    plain_source_ppo();
    let t0 = " source_ppo="@;
    lemma_word_decimal(value.source_ppo_schema_version as nat);
    lemma_plain_join(t0, decimal(value.source_ppo_schema_version as nat));
    let t1 = t0 + decimal(value.source_ppo_schema_version as nat);
    plain_source_rules();
    lemma_plain_join(t1, " source_rules="@);
    let t2 = t1 + " source_rules="@;
    lemma_word_decimal(value.source_ppo_rules_audit_version as nat);
    lemma_plain_join(t2, decimal(value.source_ppo_rules_audit_version as nat));
    let t3 = t2 + decimal(value.source_ppo_rules_audit_version as nat);
    plain_target_f();
    lemma_plain_join(t3, " target_f="@);
    let t4 = t3 + " target_f="@;
    lemma_word_decimal(target.feature as nat);
    lemma_plain_join(t4, decimal(target.feature as nat));
    let t5 = t4 + decimal(target.feature as nat);
    plain_target_a();
    lemma_plain_join(t5, " target_a="@);
    let t6 = t5 + " target_a="@;
    lemma_word_decimal(target.action as nat);
    lemma_plain_join(t6, decimal(target.action as nat));
    let t7 = t6 + decimal(target.action as nat);
    plain_target_m();
    lemma_plain_join(t7, " target_m="@);
    let t8 = t7 + " target_m="@;
    lemma_word_decimal(target.model as nat);
    lemma_plain_join(t8, decimal(target.model as nat));
    let t9 = t8 + decimal(target.model as nat);
    plain_target_ppo();
    lemma_plain_join(t9, " target_ppo="@);
    let t10 = t9 + " target_ppo="@;
    lemma_word_decimal(target.ppo as nat);
    lemma_plain_join(t10, decimal(target.ppo as nat));
    let t11 = t10 + decimal(target.ppo as nat);
    plain_target_rules();
    lemma_plain_join(t11, " target_rules="@);
    let t12 = t11 + " target_rules="@;
    lemma_word_decimal(target.rules as nat);
    lemma_plain_join(t12, decimal(target.rules as nat));
    let t13 = t12 + decimal(target.rules as nat);
    plain_reward_version();
    lemma_plain_join(t13, " reward_version="@);
    let t14 = t13 + " reward_version="@;
    lemma_word_decimal(target.reward_version as nat);
    lemma_plain_join(t14, decimal(target.reward_version as nat));
    let t15 = t14 + decimal(target.reward_version as nat);
    plain_reward_hash();
    lemma_plain_join(t15, " reward_hash="@);
    let t16 = t15 + " reward_hash="@;
    lemma_word_decimal(target.reward_hash as nat);
    lemma_plain_join(t16, decimal(target.reward_hash as nat));
    let t17 = t16 + decimal(target.reward_hash as nat);
    plain_old_parameter_bits_preserved();
    lemma_plain_join(t17, " old_parameter_bits_preserved=true new_weights="@);
    let t18 = t17 + " old_parameter_bits_preserved=true new_weights="@;
    lemma_word_decimal((target.parameter_count - M14_PARAMETER_COUNT) as nat);
    lemma_plain_join(t18, decimal((target.parameter_count - M14_PARAMETER_COUNT) as nat));
    let t19 = t18 + decimal((target.parameter_count - M14_PARAMETER_COUNT) as nat);
    plain_positive_zero_optimizer_progress();
    lemma_plain_join(t19, "_positive_zero optimizer_progress_rng_league=fresh gameplay_equivalence=false qualification=false"@);
    let t20 = t19 + "_positive_zero optimizer_progress_rng_league=fresh gameplay_equivalence=false qualification=false"@;
}

proof fn lemma_initialization_split(value: Map2InitializationProvenance, target: TargetVersions)
    ensures
        value.description_spec(target) == "INITIALIZATION_ONLY source_m14_sha256="@ + hex_of(value.source_sha256@) + initialization_tail(
            value,
            target,
        ),
{
    let head = "INITIALIZATION_ONLY source_m14_sha256="@ + hex_of(value.source_sha256@);
    let t0 = " source_ppo="@;
    lemma_regroup(head, t0, decimal(value.source_ppo_schema_version as nat));
    let t1 = t0 + decimal(value.source_ppo_schema_version as nat);
    lemma_regroup(head, t1, " source_rules="@);
    let t2 = t1 + " source_rules="@;
    lemma_regroup(head, t2, decimal(value.source_ppo_rules_audit_version as nat));
    let t3 = t2 + decimal(value.source_ppo_rules_audit_version as nat);
    lemma_regroup(head, t3, " target_f="@);
    let t4 = t3 + " target_f="@;
    lemma_regroup(head, t4, decimal(target.feature as nat));
    let t5 = t4 + decimal(target.feature as nat);
    lemma_regroup(head, t5, " target_a="@);
    let t6 = t5 + " target_a="@;
    lemma_regroup(head, t6, decimal(target.action as nat));
    let t7 = t6 + decimal(target.action as nat);
    lemma_regroup(head, t7, " target_m="@);
    let t8 = t7 + " target_m="@;
    lemma_regroup(head, t8, decimal(target.model as nat));
    let t9 = t8 + decimal(target.model as nat);
    lemma_regroup(head, t9, " target_ppo="@);
    let t10 = t9 + " target_ppo="@;
    lemma_regroup(head, t10, decimal(target.ppo as nat));
    let t11 = t10 + decimal(target.ppo as nat);
    lemma_regroup(head, t11, " target_rules="@);
    let t12 = t11 + " target_rules="@;
    lemma_regroup(head, t12, decimal(target.rules as nat));
    let t13 = t12 + decimal(target.rules as nat);
    lemma_regroup(head, t13, " reward_version="@);
    let t14 = t13 + " reward_version="@;
    lemma_regroup(head, t14, decimal(target.reward_version as nat));
    let t15 = t14 + decimal(target.reward_version as nat);
    lemma_regroup(head, t15, " reward_hash="@);
    let t16 = t15 + " reward_hash="@;
    lemma_regroup(head, t16, decimal(target.reward_hash as nat));
    let t17 = t16 + decimal(target.reward_hash as nat);
    lemma_regroup(head, t17, " old_parameter_bits_preserved=true new_weights="@);
    let t18 = t17 + " old_parameter_bits_preserved=true new_weights="@;
    lemma_regroup(head, t18, decimal((target.parameter_count - M14_PARAMETER_COUNT) as nat));
    let t19 = t18 + decimal((target.parameter_count - M14_PARAMETER_COUNT) as nat);
    lemma_regroup(head, t19, "_positive_zero optimizer_progress_rng_league=fresh gameplay_equivalence=false qualification=false"@);
    let t20 = t19 + "_positive_zero optimizer_progress_rng_league=fresh gameplay_equivalence=false qualification=false"@;
}

/// Descriptions of two widened sources of the same source versions under one target are the same
/// exactly if their digests are, and every description can stand in a command line.
pub proof fn initialization_descriptions_tell_their_source(
    left: Map2InitializationProvenance,
    right: Map2InitializationProvenance,
    target: TargetVersions,
)
    requires
        target.parameter_count >= M14_PARAMETER_COUNT,
        left.source_ppo_schema_version == right.source_ppo_schema_version,
        left.source_ppo_rules_audit_version == right.source_ppo_rules_audit_version,
    ensures
        left.description_spec(target) == right.description_spec(target) <==> left.source_sha256@
            == right.source_sha256@,
        text_fault("command line", left.description_spec(target)) is None,
{
    let head = "INITIALIZATION_ONLY source_m14_sha256="@;
    let tail = initialization_tail(left, target);
    plain_initialization_only_source_m14();
    lemma_initialization_tail(left, target);
    lemma_plain_hex(left.source_sha256@);
    lemma_plain_join(head, hex_of(left.source_sha256@));
    lemma_plain_join(head + hex_of(left.source_sha256@), tail);
    lemma_initialization_split(left, target);
    lemma_initialization_split(right, target);
    lemma_plain_text(left.description_spec(target));
    if left.description_spec(target) == right.description_spec(target) {
        lemma_head_tells(
            head,
            left.source_sha256@,
            right.source_sha256@,
            tail,
            initialization_tail(right, target),
        );
    }
}

/// Text of a navigation description behind its digest.
spec fn navigation_tail(
    value: Map2NavigationInitializationProvenance,
    target: TargetVersions,
) -> Seq<char> {
    " source_f=14 source_a=4 source_m=16 source_ppo=29 source_rules=24 target_f="@
        + decimal(target.feature as nat)
        + " target_a="@
        + decimal(target.action as nat)
        + " target_m="@
        + decimal(target.model as nat)
        + " target_ppo="@
        + decimal(target.ppo as nat)
        + " target_rules="@
        + decimal(target.rules as nat)
        + " reward_version=1 reward_hash=798798703797057220 parameter_bits_preserved=true named_tensors=62 new_weights=0 optimizer_progress_rng_league=fresh GAMEPLAY_EQUIVALENCE=false new_legal_actions_change_behavior=true qualification=false"@
}

proof fn lemma_navigation_tail(value: Map2NavigationInitializationProvenance, target: TargetVersions)
    ensures
        plain(navigation_tail(value, target)),
        navigation_tail(value, target).len() <= 2_000,
{
    plain_source_f_14_source();
    let t0 = " source_f=14 source_a=4 source_m=16 source_ppo=29 source_rules=24 target_f="@;
    lemma_word_decimal(target.feature as nat);
    lemma_plain_join(t0, decimal(target.feature as nat));
    let t1 = t0 + decimal(target.feature as nat);
    plain_target_a();
    lemma_plain_join(t1, " target_a="@);
    let t2 = t1 + " target_a="@;
    lemma_word_decimal(target.action as nat);
    lemma_plain_join(t2, decimal(target.action as nat));
    let t3 = t2 + decimal(target.action as nat);
    plain_target_m();
    lemma_plain_join(t3, " target_m="@);
    let t4 = t3 + " target_m="@;
    lemma_word_decimal(target.model as nat);
    lemma_plain_join(t4, decimal(target.model as nat));
    let t5 = t4 + decimal(target.model as nat);
    plain_target_ppo();
    lemma_plain_join(t5, " target_ppo="@);
    let t6 = t5 + " target_ppo="@;
    lemma_word_decimal(target.ppo as nat);
    lemma_plain_join(t6, decimal(target.ppo as nat));
    let t7 = t6 + decimal(target.ppo as nat);
    plain_target_rules();
    lemma_plain_join(t7, " target_rules="@);
    let t8 = t7 + " target_rules="@;
    lemma_word_decimal(target.rules as nat);
    lemma_plain_join(t8, decimal(target.rules as nat));
    let t9 = t8 + decimal(target.rules as nat);
    plain_reward_version_1_reward();
    lemma_plain_join(t9, " reward_version=1 reward_hash=798798703797057220 parameter_bits_preserved=true named_tensors=62 new_weights=0 optimizer_progress_rng_league=fresh GAMEPLAY_EQUIVALENCE=false new_legal_actions_change_behavior=true qualification=false"@);
    let t10 = t9 + " reward_version=1 reward_hash=798798703797057220 parameter_bits_preserved=true named_tensors=62 new_weights=0 optimizer_progress_rng_league=fresh GAMEPLAY_EQUIVALENCE=false new_legal_actions_change_behavior=true qualification=false"@;
}

proof fn lemma_navigation_split(value: Map2NavigationInitializationProvenance, target: TargetVersions)
    ensures
        value.description_spec(target) == "INITIALIZATION_ONLY source_m16_sha256="@ + hex_of(value.source_sha256@) + navigation_tail(
            value,
            target,
        ),
{
    let head = "INITIALIZATION_ONLY source_m16_sha256="@ + hex_of(value.source_sha256@);
    let t0 = " source_f=14 source_a=4 source_m=16 source_ppo=29 source_rules=24 target_f="@;
    lemma_regroup(head, t0, decimal(target.feature as nat));
    let t1 = t0 + decimal(target.feature as nat);
    lemma_regroup(head, t1, " target_a="@);
    let t2 = t1 + " target_a="@;
    lemma_regroup(head, t2, decimal(target.action as nat));
    let t3 = t2 + decimal(target.action as nat);
    lemma_regroup(head, t3, " target_m="@);
    let t4 = t3 + " target_m="@;
    lemma_regroup(head, t4, decimal(target.model as nat));
    let t5 = t4 + decimal(target.model as nat);
    lemma_regroup(head, t5, " target_ppo="@);
    let t6 = t5 + " target_ppo="@;
    lemma_regroup(head, t6, decimal(target.ppo as nat));
    let t7 = t6 + decimal(target.ppo as nat);
    lemma_regroup(head, t7, " target_rules="@);
    let t8 = t7 + " target_rules="@;
    lemma_regroup(head, t8, decimal(target.rules as nat));
    let t9 = t8 + decimal(target.rules as nat);
    lemma_regroup(head, t9, " reward_version=1 reward_hash=798798703797057220 parameter_bits_preserved=true named_tensors=62 new_weights=0 optimizer_progress_rng_league=fresh GAMEPLAY_EQUIVALENCE=false new_legal_actions_change_behavior=true qualification=false"@);
    let t10 = t9 + " reward_version=1 reward_hash=798798703797057220 parameter_bits_preserved=true named_tensors=62 new_weights=0 optimizer_progress_rng_league=fresh GAMEPLAY_EQUIVALENCE=false new_legal_actions_change_behavior=true qualification=false"@;
}

/// Descriptions of two navigation sources under one target are the same exactly if their digests
/// are, and every description can stand in a command line.
pub proof fn navigation_descriptions_tell_their_source(
    left: Map2NavigationInitializationProvenance,
    right: Map2NavigationInitializationProvenance,
    target: TargetVersions,
)
    ensures
        left.description_spec(target) == right.description_spec(target) <==> left.source_sha256@
            == right.source_sha256@,
        text_fault("command line", left.description_spec(target)) is None,
{
    let head = "INITIALIZATION_ONLY source_m16_sha256="@;
    let tail = navigation_tail(left, target);
    plain_initialization_only_source_m16();
    lemma_navigation_tail(left, target);
    lemma_plain_hex(left.source_sha256@);
    lemma_plain_join(head, hex_of(left.source_sha256@));
    lemma_plain_join(head + hex_of(left.source_sha256@), tail);
    lemma_navigation_split(left, target);
    lemma_navigation_split(right, target);
    lemma_plain_text(left.description_spec(target));
    if left.description_spec(target) == right.description_spec(target) {
        lemma_head_tells(
            head,
            left.source_sha256@,
            right.source_sha256@,
            tail,
            navigation_tail(right, target),
        );
    }
}

/// Text of a wait description behind its digest.
spec fn wait_tail(value: Map2WaitInitializationProvenance, target: TargetVersions) -> Seq<char> {
    " source_f=15 source_a=5 source_m=17 source_ppo=30 source_rules=25 source_reward_version=1 source_reward_hash=798798703797057220 target_f="@
        + decimal(target.feature as nat)
        + " target_a="@
        + decimal(target.action as nat)
        + " target_m="@
        + decimal(target.model as nat)
        + " target_ppo="@
        + decimal(target.ppo as nat)
        + " target_rules="@
        + decimal(target.rules as nat)
        + " reward_version="@
        + decimal(target.reward_version as nat)
        + " reward_hash="@
        + decimal(target.reward_hash as nat)
        + " parameter_bits_preserved=true named_tensors=62 new_weights=2560_positive_zero trunk_insertion_rows=85..90 optimizer_progress_rng_league=fresh GAMEPLAY_EQUIVALENCE=false qualification=false"@
}

proof fn lemma_wait_tail(value: Map2WaitInitializationProvenance, target: TargetVersions)
    ensures
        plain(wait_tail(value, target)),
        wait_tail(value, target).len() <= 2_000,
{
    plain_source_f_15_source();
    let t0 = " source_f=15 source_a=5 source_m=17 source_ppo=30 source_rules=25 source_reward_version=1 source_reward_hash=798798703797057220 target_f="@;
    lemma_word_decimal(target.feature as nat);
    lemma_plain_join(t0, decimal(target.feature as nat));
    let t1 = t0 + decimal(target.feature as nat);
    plain_target_a();
    lemma_plain_join(t1, " target_a="@);
    let t2 = t1 + " target_a="@;
    lemma_word_decimal(target.action as nat);
    lemma_plain_join(t2, decimal(target.action as nat));
    let t3 = t2 + decimal(target.action as nat);
    plain_target_m();
    lemma_plain_join(t3, " target_m="@);
    let t4 = t3 + " target_m="@;
    lemma_word_decimal(target.model as nat);
    lemma_plain_join(t4, decimal(target.model as nat));
    let t5 = t4 + decimal(target.model as nat);
    plain_target_ppo();
    lemma_plain_join(t5, " target_ppo="@);
    let t6 = t5 + " target_ppo="@;
    lemma_word_decimal(target.ppo as nat);
    lemma_plain_join(t6, decimal(target.ppo as nat));
    let t7 = t6 + decimal(target.ppo as nat);
    plain_target_rules();
    lemma_plain_join(t7, " target_rules="@);
    let t8 = t7 + " target_rules="@;
    lemma_word_decimal(target.rules as nat);
    lemma_plain_join(t8, decimal(target.rules as nat));
    let t9 = t8 + decimal(target.rules as nat);
    plain_reward_version();
    lemma_plain_join(t9, " reward_version="@);
    let t10 = t9 + " reward_version="@;
    lemma_word_decimal(target.reward_version as nat);
    lemma_plain_join(t10, decimal(target.reward_version as nat));
    let t11 = t10 + decimal(target.reward_version as nat);
    plain_reward_hash();
    lemma_plain_join(t11, " reward_hash="@);
    let t12 = t11 + " reward_hash="@;
    lemma_word_decimal(target.reward_hash as nat);
    lemma_plain_join(t12, decimal(target.reward_hash as nat));
    let t13 = t12 + decimal(target.reward_hash as nat);
    plain_parameter_bits_preserved_true();
    lemma_plain_join(t13, " parameter_bits_preserved=true named_tensors=62 new_weights=2560_positive_zero trunk_insertion_rows=85..90 optimizer_progress_rng_league=fresh GAMEPLAY_EQUIVALENCE=false qualification=false"@);
    let t14 = t13 + " parameter_bits_preserved=true named_tensors=62 new_weights=2560_positive_zero trunk_insertion_rows=85..90 optimizer_progress_rng_league=fresh GAMEPLAY_EQUIVALENCE=false qualification=false"@;
}

proof fn lemma_wait_split(value: Map2WaitInitializationProvenance, target: TargetVersions)
    ensures
        value.description_spec(target) == "INITIALIZATION_ONLY source_m17_sha256="@ + hex_of(value.source_sha256@) + wait_tail(
            value,
            target,
        ),
{
    let head = "INITIALIZATION_ONLY source_m17_sha256="@ + hex_of(value.source_sha256@);
    let t0 = " source_f=15 source_a=5 source_m=17 source_ppo=30 source_rules=25 source_reward_version=1 source_reward_hash=798798703797057220 target_f="@;
    lemma_regroup(head, t0, decimal(target.feature as nat));
    let t1 = t0 + decimal(target.feature as nat);
    lemma_regroup(head, t1, " target_a="@);
    let t2 = t1 + " target_a="@;
    lemma_regroup(head, t2, decimal(target.action as nat));
    let t3 = t2 + decimal(target.action as nat);
    lemma_regroup(head, t3, " target_m="@);
    let t4 = t3 + " target_m="@;
    lemma_regroup(head, t4, decimal(target.model as nat));
    let t5 = t4 + decimal(target.model as nat);
    lemma_regroup(head, t5, " target_ppo="@);
    let t6 = t5 + " target_ppo="@;
    lemma_regroup(head, t6, decimal(target.ppo as nat));
    let t7 = t6 + decimal(target.ppo as nat);
    lemma_regroup(head, t7, " target_rules="@);
    let t8 = t7 + " target_rules="@;
    lemma_regroup(head, t8, decimal(target.rules as nat));
    let t9 = t8 + decimal(target.rules as nat);
    lemma_regroup(head, t9, " reward_version="@);
    let t10 = t9 + " reward_version="@;
    lemma_regroup(head, t10, decimal(target.reward_version as nat));
    let t11 = t10 + decimal(target.reward_version as nat);
    lemma_regroup(head, t11, " reward_hash="@);
    let t12 = t11 + " reward_hash="@;
    lemma_regroup(head, t12, decimal(target.reward_hash as nat));
    let t13 = t12 + decimal(target.reward_hash as nat);
    lemma_regroup(head, t13, " parameter_bits_preserved=true named_tensors=62 new_weights=2560_positive_zero trunk_insertion_rows=85..90 optimizer_progress_rng_league=fresh GAMEPLAY_EQUIVALENCE=false qualification=false"@);
    let t14 = t13 + " parameter_bits_preserved=true named_tensors=62 new_weights=2560_positive_zero trunk_insertion_rows=85..90 optimizer_progress_rng_league=fresh GAMEPLAY_EQUIVALENCE=false qualification=false"@;
}

/// Descriptions of two wait sources under one target are the same exactly if their digests
/// are, and every description can stand in a command line.
pub proof fn wait_descriptions_tell_their_source(
    left: Map2WaitInitializationProvenance,
    right: Map2WaitInitializationProvenance,
    target: TargetVersions,
)
    ensures
        left.description_spec(target) == right.description_spec(target) <==> left.source_sha256@
            == right.source_sha256@,
        text_fault("command line", left.description_spec(target)) is None,
{
    let head = "INITIALIZATION_ONLY source_m17_sha256="@;
    let tail = wait_tail(left, target);
    plain_initialization_only_source_m17();
    lemma_wait_tail(left, target);
    lemma_plain_hex(left.source_sha256@);
    lemma_plain_join(head, hex_of(left.source_sha256@));
    lemma_plain_join(head + hex_of(left.source_sha256@), tail);
    lemma_wait_split(left, target);
    lemma_wait_split(right, target);
    lemma_plain_text(left.description_spec(target));
    if left.description_spec(target) == right.description_spec(target) {
        lemma_head_tells(
            head,
            left.source_sha256@,
            right.source_sha256@,
            tail,
            wait_tail(right, target),
        );
    }
}

/// Text of a nonwin description behind its digest.
spec fn nonwin_tail(
    value: Map2NonwinInitializationProvenance,
    target: TargetVersions,
) -> Seq<char> {
    " source_f=17 source_m=19 source_ppo=32 source_rules=27 source_reward=3 source_reward_hash=11643768462079275437 target_f="@
        + decimal(target.feature as nat)
        + " target_m="@
        + decimal(target.model as nat)
        + " target_ppo="@
        + decimal(target.ppo as nat)
        + " target_rules="@
        + decimal(target.rules as nat)
        + " target_reward="@
        + decimal(target.reward_version as nat)
        + " target_reward_hash="@
        + decimal(target.reward_hash as nat)
        + " parameter_bits_preserved=true named_tensors=62 new_weights="@
        + decimal(((target.global_features - M19_GLOBAL_ROWS) * 512) as nat)
        + "_positive_zero trunk_insertion_rows=90.."@
        + decimal(target.global_features as nat)
        + " optimizer_progress_rng_league=fresh mastery_window=fresh gameplay_equivalence=false reward_equivalence=false qualification=false"@
}

proof fn lemma_nonwin_tail(value: Map2NonwinInitializationProvenance, target: TargetVersions)
    requires
        M19_GLOBAL_ROWS <= target.global_features <= 0x10_0000,
    ensures
        plain(nonwin_tail(value, target)),
        nonwin_tail(value, target).len() <= 2_000,
{
    plain_source_f_17_source();
    let t0 = " source_f=17 source_m=19 source_ppo=32 source_rules=27 source_reward=3 source_reward_hash=11643768462079275437 target_f="@;
    lemma_word_decimal(target.feature as nat);
    lemma_plain_join(t0, decimal(target.feature as nat));
    let t1 = t0 + decimal(target.feature as nat);
    plain_target_m();
    lemma_plain_join(t1, " target_m="@);
    let t2 = t1 + " target_m="@;
    lemma_word_decimal(target.model as nat);
    lemma_plain_join(t2, decimal(target.model as nat));
    let t3 = t2 + decimal(target.model as nat);
    plain_target_ppo();
    lemma_plain_join(t3, " target_ppo="@);
    let t4 = t3 + " target_ppo="@;
    lemma_word_decimal(target.ppo as nat);
    lemma_plain_join(t4, decimal(target.ppo as nat));
    let t5 = t4 + decimal(target.ppo as nat);
    plain_target_rules();
    lemma_plain_join(t5, " target_rules="@);
    let t6 = t5 + " target_rules="@;
    lemma_word_decimal(target.rules as nat);
    lemma_plain_join(t6, decimal(target.rules as nat));
    let t7 = t6 + decimal(target.rules as nat);
    plain_target_reward();
    lemma_plain_join(t7, " target_reward="@);
    let t8 = t7 + " target_reward="@;
    lemma_word_decimal(target.reward_version as nat);
    lemma_plain_join(t8, decimal(target.reward_version as nat));
    let t9 = t8 + decimal(target.reward_version as nat);
    plain_target_reward_hash();
    lemma_plain_join(t9, " target_reward_hash="@);
    let t10 = t9 + " target_reward_hash="@;
    lemma_word_decimal(target.reward_hash as nat);
    lemma_plain_join(t10, decimal(target.reward_hash as nat));
    let t11 = t10 + decimal(target.reward_hash as nat);
    plain_parameter_bits_preserved_true_2();
    lemma_plain_join(t11, " parameter_bits_preserved=true named_tensors=62 new_weights="@);
    let t12 = t11 + " parameter_bits_preserved=true named_tensors=62 new_weights="@;
    lemma_word_decimal(((target.global_features - M19_GLOBAL_ROWS) * 512) as nat);
    lemma_plain_join(t12, decimal(((target.global_features - M19_GLOBAL_ROWS) * 512) as nat));
    let t13 = t12 + decimal(((target.global_features - M19_GLOBAL_ROWS) * 512) as nat);
    plain_positive_zero_trunk_insertion();
    lemma_plain_join(t13, "_positive_zero trunk_insertion_rows=90.."@);
    let t14 = t13 + "_positive_zero trunk_insertion_rows=90.."@;
    lemma_word_decimal(target.global_features as nat);
    lemma_plain_join(t14, decimal(target.global_features as nat));
    let t15 = t14 + decimal(target.global_features as nat);
    plain_optimizer_progress_rng_league();
    lemma_plain_join(t15, " optimizer_progress_rng_league=fresh mastery_window=fresh gameplay_equivalence=false reward_equivalence=false qualification=false"@);
    let t16 = t15 + " optimizer_progress_rng_league=fresh mastery_window=fresh gameplay_equivalence=false reward_equivalence=false qualification=false"@;
}

proof fn lemma_nonwin_split(value: Map2NonwinInitializationProvenance, target: TargetVersions)
    ensures
        value.description_spec(target) == "INITIALIZATION_ONLY source_m19_sha256="@ + hex_of(value.source_sha256@) + nonwin_tail(
            value,
            target,
        ),
{
    let head = "INITIALIZATION_ONLY source_m19_sha256="@ + hex_of(value.source_sha256@);
    let t0 = " source_f=17 source_m=19 source_ppo=32 source_rules=27 source_reward=3 source_reward_hash=11643768462079275437 target_f="@;
    lemma_regroup(head, t0, decimal(target.feature as nat));
    let t1 = t0 + decimal(target.feature as nat);
    lemma_regroup(head, t1, " target_m="@);
    let t2 = t1 + " target_m="@;
    lemma_regroup(head, t2, decimal(target.model as nat));
    let t3 = t2 + decimal(target.model as nat);
    lemma_regroup(head, t3, " target_ppo="@);
    let t4 = t3 + " target_ppo="@;
    lemma_regroup(head, t4, decimal(target.ppo as nat));
    let t5 = t4 + decimal(target.ppo as nat);
    lemma_regroup(head, t5, " target_rules="@);
    let t6 = t5 + " target_rules="@;
    lemma_regroup(head, t6, decimal(target.rules as nat));
    let t7 = t6 + decimal(target.rules as nat);
    lemma_regroup(head, t7, " target_reward="@);
    let t8 = t7 + " target_reward="@;
    lemma_regroup(head, t8, decimal(target.reward_version as nat));
    let t9 = t8 + decimal(target.reward_version as nat);
    lemma_regroup(head, t9, " target_reward_hash="@);
    let t10 = t9 + " target_reward_hash="@;
    lemma_regroup(head, t10, decimal(target.reward_hash as nat));
    let t11 = t10 + decimal(target.reward_hash as nat);
    lemma_regroup(head, t11, " parameter_bits_preserved=true named_tensors=62 new_weights="@);
    let t12 = t11 + " parameter_bits_preserved=true named_tensors=62 new_weights="@;
    lemma_regroup(head, t12, decimal(((target.global_features - M19_GLOBAL_ROWS) * 512) as nat));
    let t13 = t12 + decimal(((target.global_features - M19_GLOBAL_ROWS) * 512) as nat);
    lemma_regroup(head, t13, "_positive_zero trunk_insertion_rows=90.."@);
    let t14 = t13 + "_positive_zero trunk_insertion_rows=90.."@;
    lemma_regroup(head, t14, decimal(target.global_features as nat));
    let t15 = t14 + decimal(target.global_features as nat);
    lemma_regroup(head, t15, " optimizer_progress_rng_league=fresh mastery_window=fresh gameplay_equivalence=false reward_equivalence=false qualification=false"@);
    let t16 = t15 + " optimizer_progress_rng_league=fresh mastery_window=fresh gameplay_equivalence=false reward_equivalence=false qualification=false"@;
}

/// Descriptions of two nonwin sources under one target are the same exactly if their digests
/// are, and every description can stand in a command line.
pub proof fn nonwin_descriptions_tell_their_source(
    left: Map2NonwinInitializationProvenance,
    right: Map2NonwinInitializationProvenance,
    target: TargetVersions,
)
    requires
        M19_GLOBAL_ROWS <= target.global_features <= 0x10_0000,
    ensures
        left.description_spec(target) == right.description_spec(target) <==> left.source_sha256@
            == right.source_sha256@,
        text_fault("command line", left.description_spec(target)) is None,
{
    let head = "INITIALIZATION_ONLY source_m19_sha256="@;
    let tail = nonwin_tail(left, target);
    plain_initialization_only_source_m19();
    lemma_nonwin_tail(left, target);
    lemma_plain_hex(left.source_sha256@);
    lemma_plain_join(head, hex_of(left.source_sha256@));
    lemma_plain_join(head + hex_of(left.source_sha256@), tail);
    lemma_nonwin_split(left, target);
    lemma_nonwin_split(right, target);
    lemma_plain_text(left.description_spec(target));
    if left.description_spec(target) == right.description_spec(target) {
        lemma_head_tells(
            head,
            left.source_sha256@,
            right.source_sha256@,
            tail,
            nonwin_tail(right, target),
        );
    }
}

} // verus!
