//! SHA-256 digests and their hexadecimal text.
use sha2::{Digest, Sha256};
use vstd::prelude::*;
use vstd::string::StringExecFns;

verus! {

/// SHA-256 digest of bytes.
pub uninterp spec fn sha256_of(bytes: Seq<u8>) -> Seq<u8>;

/// Calls `Sha256::digest`: the SHA-256 digest of the bytes.
#[verifier::external_body]
pub(crate) fn sha256(bytes: &[u8]) -> (r: [u8; 32])
    ensures
        r@ == sha256_of(bytes@),
{
    Sha256::digest(bytes).into()
}

/// Whether two digests are equal.
pub fn same_digest(left: &[u8; 32], right: &[u8; 32]) -> (r: bool)
    ensures
        r == (left@ == right@),
{
    crate::manifest::same_bytes(
        vstd::array::array_as_slice(left),
        vstd::array::array_as_slice(right),
    )
}

/// Character of a hexadecimal digit.
pub open spec fn hex_digit(value: int) -> Seq<char> {
    if value < 10 {
        seq![('0' as u8 + value) as char]
    } else {
        seq![('a' as u8 + (value - 10)) as char]
    }
}

fn hex_text(value: u8) -> (r: &'static str)
    requires
        value < 16,
    ensures
        r@ == hex_digit(value as int),
{
    proof {
        reveal_strlit("0");
        reveal_strlit("1");
        reveal_strlit("2");
        reveal_strlit("3");
        reveal_strlit("4");
        reveal_strlit("5");
        reveal_strlit("6");
        reveal_strlit("7");
        reveal_strlit("8");
        reveal_strlit("9");
        reveal_strlit("a");
        reveal_strlit("b");
        reveal_strlit("c");
        reveal_strlit("d");
        reveal_strlit("e");
        reveal_strlit("f");
    }
    let text: &'static str = match value {
        0 => "0",
        1 => "1",
        2 => "2",
        3 => "3",
        4 => "4",
        5 => "5",
        6 => "6",
        7 => "7",
        8 => "8",
        9 => "9",
        10 => "a",
        11 => "b",
        12 => "c",
        13 => "d",
        14 => "e",
        _ => "f",
    };
    assert(text@ =~= hex_digit(value as int));
    text
}

/// Lower-case hexadecimal text of bytes, two digits each.
pub open spec fn hex_of(bytes: Seq<u8>) -> Seq<char>
    decreases bytes.len(),
{
    if bytes.len() == 0 {
        Seq::empty()
    } else {
        hex_of(bytes.drop_last()) + hex_digit(bytes.last() as int / 16) + hex_digit(
            bytes.last() as int % 16,
        )
    }
}

/// Lower-case hexadecimal text of bytes, two digits each.
pub fn hex(bytes: &[u8]) -> (r: String)
    ensures
        r@ == hex_of(bytes@),
{
    let mut output = String::new();
    let mut index: usize = 0;
    assert(output@ =~= hex_of(bytes@.take(0)));
    while index < bytes.len()
        invariant
            index <= bytes@.len(),
            output@ == hex_of(bytes@.take(index as int)),
        decreases bytes@.len() - index,
    {
        assert(bytes@.take(index + 1).drop_last() =~= bytes@.take(index as int));
        output.append(hex_text(bytes[index] / 16));
        output.append(hex_text(bytes[index] % 16));
        index += 1;
    }
    assert(bytes@.take(index as int) =~= bytes@);
    output
}

/// Hexadecimal text has two characters per byte.
pub proof fn hexadecimal_text_is_twice_as_long(bytes: Seq<u8>)
    ensures
        hex_of(bytes).len() == 2 * bytes.len(),
    decreases bytes.len(),
{
    if bytes.len() > 0 {
        hexadecimal_text_is_twice_as_long(bytes.drop_last());
    }
}

/// File name of an immutable tensor generation.
pub open spec fn generation_name_of(digest: Seq<u8>) -> Seq<char> {
    "checkpoint."@ + hex_of(digest) + ".safetensors"@
}

/// File name of the immutable tensor generation with a digest.
pub fn generation_name(digest: &[u8; 32]) -> (r: String)
    ensures
        r@ == generation_name_of(digest@),
{
    let text = hex(vstd::array::array_as_slice(digest));
    crate::text::with_text(
        crate::text::with_text(crate::text::owned("checkpoint."), text.as_str()),
        ".safetensors",
    )
}

/// Hexadecimal digit of either case.
pub open spec fn is_hex(value: char) -> bool {
    ('0' <= value && value <= '9') || ('a' <= value && value <= 'f') || ('A' <= value && value
        <= 'F')
}

/// Whether a file name is that of a tensor generation.
pub open spec fn names_generation(name: Seq<char>) -> bool {
    &&& name.len() == "checkpoint."@.len() + 64 + ".safetensors"@.len()
    &&& name.take("checkpoint."@.len() as int) == "checkpoint."@
    &&& name.skip("checkpoint."@.len() as int + 64) == ".safetensors"@
    &&& forall|i: int|
        "checkpoint."@.len() <= i < "checkpoint."@.len() + 64 ==> is_hex(#[trigger] name[i])
}

/// Whether a file name is that of a tensor generation.
pub fn is_tensor_generation(name: &str) -> (r: bool)
    ensures
        r == names_generation(name@),
{
    let head = crate::settings::characters("checkpoint.");
    let tail = crate::settings::characters(".safetensors");
    let text = crate::settings::characters(name);
    proof {
        reveal_strlit("checkpoint.");
        reveal_strlit(".safetensors");
    }
    if text.len() != head.len() + 64 + tail.len() {
        return false;
    }
    if !crate::settings::segment_is(&text, 0, head.len(), &head) {
        assert(name@.take(head@.len() as int) =~= name@.subrange(0, head@.len() as int));
        return false;
    }
    assert(name@.take(head@.len() as int) =~= name@.subrange(0, head@.len() as int));
    let middle: usize = head.len() + 64;
    assert(name@.skip(middle as int) =~= name@.subrange(middle as int, name@.len() as int));
    if !crate::settings::segment_is(&text, middle, text.len(), &tail) {
        return false;
    }
    let mut index: usize = head.len();
    while index < middle
        invariant
            head@ == "checkpoint."@,
            middle == head@.len() + 64,
            head@.len() <= index <= middle,
            middle <= text@.len(),
            text@ == name@,
            forall|i: int| head@.len() <= i < index ==> is_hex(#[trigger] name@[i]),
        decreases middle - index,
    {
        let value: char = text[index];
        if !(('0' <= value && value <= '9') || ('a' <= value && value <= 'f') || ('A' <= value
            && value <= 'F')) {
            assert(!is_hex(name@[index as int]));
            return false;
        }
        index += 1;
    }
    true
}

proof fn lemma_hex_digits(bytes: Seq<u8>)
    ensures
        forall|i: int| 0 <= i < hex_of(bytes).len() ==> is_hex(#[trigger] hex_of(bytes)[i]),
    decreases bytes.len(),
{
    if bytes.len() > 0 {
        lemma_hex_digits(bytes.drop_last());
        hexadecimal_text_is_twice_as_long(bytes.drop_last());
        let before = hex_of(bytes.drop_last());
        let high = bytes.last() as int / 16;
        let low = bytes.last() as int % 16;
        assert(is_hex(hex_digit(high)[0]));
        assert(is_hex(hex_digit(low)[0]));
        assert forall|i: int| 0 <= i < hex_of(bytes).len() implies is_hex(
            #[trigger] hex_of(bytes)[i],
        ) by {
            if i < before.len() {
                assert(hex_of(bytes)[i] == before[i]);
            } else if i == before.len() {
                assert(hex_of(bytes)[i] == hex_digit(high)[0]);
            } else {
                assert(hex_of(bytes)[i] == hex_digit(low)[0]);
            }
        }
    }
}

/// The file name of every digest is recognized as a tensor generation.
pub proof fn generation_names_are_recognized(digest: Seq<u8>)
    requires
        digest.len() == 32,
    ensures
        names_generation(generation_name_of(digest)),
{
    hexadecimal_text_is_twice_as_long(digest);
    lemma_hex_digits(digest);
    let name = generation_name_of(digest);
    let head = "checkpoint."@;
    assert(name.take(head.len() as int) =~= head);
    assert(name.skip(head.len() as int + 64) =~= ".safetensors"@);
    assert forall|i: int| head.len() <= i < head.len() + 64 implies is_hex(#[trigger] name[i]) by {
        assert(name[i] == hex_of(digest)[i - head.len()]);
    }
}

} // verus!
