//! Little-endian manifest fields: bounded reading, writing, and their round trip.
use crate::text::{decimal, owned, with_decimal, with_text};
use vstd::bytes::{
    lemma_auto_spec_u16_to_from_le_bytes, lemma_auto_spec_u32_to_from_le_bytes,
    lemma_auto_spec_u64_to_from_le_bytes, spec_u16_from_le_bytes, spec_u16_to_le_bytes,
    spec_u32_from_le_bytes, spec_u32_to_le_bytes, spec_u64_from_le_bytes, spec_u64_to_le_bytes,
    u16_from_le_bytes, u16_to_le_bytes, u32_from_le_bytes, u32_to_le_bytes, u64_from_le_bytes,
    u64_to_le_bytes,
};
use vstd::prelude::*;
use vstd::string::StrSliceExecFns;
use vstd::utf8::{decode_utf8, encode_utf8, valid_utf8};

verus! {

/// Longest text of a manifest, in bytes.
pub const MAX_TEXT_BYTES: usize = 4_096;

/// Strict checkpoint I/O, schema, tensor, or resume failure.
#[allow(inconsistent_fields)]
#[derive(Clone, Debug, PartialEq, Eq)]
pub enum CheckpointError {
    Io(String),
    ManifestTruncated,
    ManifestMagic,
    ManifestTrailingBytes,
    InvalidManifest(&'static str),
    SchemaMismatch,
    TensorHashMismatch,
    TensorContract(&'static str),
    NonFiniteTensor { name: &'static str, index: usize },
    Backend(String),
    Model(String),
}

impl CheckpointError {
    pub open spec fn message_spec(self) -> Seq<char> {
        match self {
            CheckpointError::Io(text) => "checkpoint I/O failed: "@ + text@,
            CheckpointError::ManifestTruncated => "checkpoint manifest is truncated"@,
            CheckpointError::ManifestMagic => "checkpoint manifest magic is invalid"@,
            CheckpointError::ManifestTrailingBytes => "checkpoint manifest has trailing bytes"@,
            CheckpointError::InvalidManifest(field) => "checkpoint manifest has invalid "@ + field@,
            CheckpointError::SchemaMismatch => "checkpoint schema does not match this build"@,
            CheckpointError::TensorHashMismatch => "checkpoint tensor SHA-256 does not match manifest"@,
            CheckpointError::TensorContract(field) => "checkpoint tensor contract has invalid "@
                + field@,
            CheckpointError::NonFiniteTensor { name, index } => "checkpoint tensor "@ + name@
                + " contains non-finite value at "@ + decimal(index as nat),
            CheckpointError::Backend(text) => "checkpoint safetensors failed: "@ + text@,
            CheckpointError::Model(text) => "checkpoint model restore failed: "@ + text@,
        }
    }

    /// Text of the failure.
    pub fn message(&self) -> (r: String)
        ensures
            r@ == self.message_spec(),
    {
        match self {
            CheckpointError::Io(text) => with_text(
                owned("checkpoint I/O failed: "),
                text.as_str(),
            ),
            CheckpointError::ManifestTruncated => owned("checkpoint manifest is truncated"),
            CheckpointError::ManifestMagic => owned("checkpoint manifest magic is invalid"),
            CheckpointError::ManifestTrailingBytes => owned(
                "checkpoint manifest has trailing bytes",
            ),
            CheckpointError::InvalidManifest(field) => with_text(
                owned("checkpoint manifest has invalid "),
                field,
            ),
            CheckpointError::SchemaMismatch => owned("checkpoint schema does not match this build"),
            CheckpointError::TensorHashMismatch => owned(
                "checkpoint tensor SHA-256 does not match manifest",
            ),
            CheckpointError::TensorContract(field) => with_text(
                owned("checkpoint tensor contract has invalid "),
                field,
            ),
            CheckpointError::NonFiniteTensor { name, index } => with_decimal(
                with_text(
                    with_text(owned("checkpoint tensor "), name),
                    " contains non-finite value at ",
                ),
                *index as u64,
            ),
            CheckpointError::Backend(text) => with_text(
                owned("checkpoint safetensors failed: "),
                text.as_str(),
            ),
            CheckpointError::Model(text) => with_text(
                owned("checkpoint model restore failed: "),
                text.as_str(),
            ),
        }
    }
}

/// `Err` of a fault, `Ok` without one.
pub open spec fn checked(fault: Option<CheckpointError>) -> Result<(), CheckpointError> {
    match fault {
        Some(error) => Err(error),
        None => Ok(()),
    }
}

/// The first of two faults.
pub open spec fn either(
    first: Option<CheckpointError>,
    second: Option<CheckpointError>,
) -> Option<CheckpointError> {
    match first {
        Some(error) => Some(error),
        None => second,
    }
}

pub open spec fn invalid(field: &'static str) -> CheckpointError {
    CheckpointError::InvalidManifest(field)
}

/// Unicode control characters.
pub open spec fn control(value: char) -> bool {
    (value as u32) < 0x20 || 0x7f <= (value as u32) < 0xa0
}

/// Whether a text is present, bounded, and free of control characters.
pub open spec fn text_ok(text: Seq<char>) -> bool {
    &&& text.len() > 0
    &&& encode_utf8(text).len() <= MAX_TEXT_BYTES
    &&& forall|i: int| 0 <= i < text.len() ==> !control(#[trigger] text[i])
}

pub open spec fn text_fault(field: &'static str, text: Seq<char>) -> Option<CheckpointError> {
    if text_ok(text) {
        None
    } else {
        Some(invalid(field))
    }
}

/// Checks that a text is present, bounded, and free of control characters.
pub fn validate_text(field: &'static str, value: &str) -> (r: Result<(), CheckpointError>)
    ensures
        r == checked(text_fault(field, value@)),
{
    let bytes = value.as_bytes();
    if bytes.len() > MAX_TEXT_BYTES {
        return Err(CheckpointError::InvalidManifest(field));
    }
    let count: usize = value.unicode_len();
    if count == 0 {
        return Err(CheckpointError::InvalidManifest(field));
    }
    let mut index: usize = 0;
    while index < count
        invariant
            index <= count,
            count == value@.len(),
            forall|i: int| 0 <= i < index ==> !control(#[trigger] value@[i]),
        decreases count - index,
    {
        let code: u32 = value.get_char(index) as u32;
        if code < 0x20 || (0x7f <= code && code < 0xa0) {
            assert(control(value@[index as int]));
            return Err(CheckpointError::InvalidManifest(field));
        }
        index += 1;
    }
    Ok(())
}

/// Appends bytes to a list.
pub fn push_bytes(output: &mut Vec<u8>, bytes: &[u8])
    ensures
        final(output)@ == old(output)@ + bytes@,
{
    let ghost before = output@;
    let mut index: usize = 0;
    while index < bytes.len()
        invariant
            index <= bytes@.len(),
            output@ == before + bytes@.take(index as int),
        decreases bytes@.len() - index,
    {
        output.push(bytes[index]);
        index += 1;
        assert(output@ =~= before + bytes@.take(index as int));
    }
    assert(output@ =~= before + bytes@);
}

/// Owned copy of bytes.
pub fn copy_bytes(bytes: &[u8]) -> (r: Vec<u8>)
    ensures
        r@ == bytes@,
{
    let mut output: Vec<u8> = Vec::new();
    push_bytes(&mut output, bytes);
    assert(output@ =~= bytes@);
    output
}

/// Whether two lists of bytes are equal.
pub fn same_bytes(left: &[u8], right: &[u8]) -> (r: bool)
    ensures
        r == (left@ == right@),
{
    if left.len() != right.len() {
        return false;
    }
    let mut index: usize = 0;
    while index < left.len()
        invariant
            index <= left@.len(),
            left@.len() == right@.len(),
            forall|i: int| 0 <= i < index ==> left@[i] == right@[i],
        decreases left@.len() - index,
    {
        if left[index] != right[index] {
            return false;
        }
        index += 1;
    }
    assert(left@ =~= right@);
    true
}

/// Calls `String::from_utf8`: the text of well-formed UTF-8 bytes, and none for other bytes.
#[verifier::external_body]
fn decode_text(bytes: Vec<u8>) -> (r: Option<String>)
    ensures
        r is Some <==> valid_utf8(bytes@),
        r matches Some(text) ==> text@ == decode_utf8(bytes@),
{
    String::from_utf8(bytes).ok()
}

/// Bytes of a text: its length in two bytes, then its UTF-8 form.
pub open spec fn text_bytes(text: Seq<char>) -> Seq<u8> {
    spec_u16_to_le_bytes(encode_utf8(text).len() as u16) + encode_utf8(text)
}

/// Bytes of an optional double: a presence byte, then its bits or zeros.
pub open spec fn optional_bytes(value: Option<u64>) -> Seq<u8> {
    match value {
        Some(bits) => seq![1u8] + spec_u64_to_le_bytes(bits),
        None => seq![0u8] + spec_u64_to_le_bytes(0),
    }
}

/// Writes fields behind each other.
#[derive(Debug, Default)]
pub struct ManifestWriter {
    pub bytes: Vec<u8>,
}

impl ManifestWriter {
    pub fn new() -> (r: Self)
        ensures
            r.bytes@ == Seq::<u8>::empty(),
    {
        ManifestWriter { bytes: Vec::new() }
    }

    pub fn raw(&mut self, value: &[u8])
        ensures
            final(self).bytes@ == old(self).bytes@ + value@,
    {
        push_bytes(&mut self.bytes, value);
    }

    pub fn u8(&mut self, value: u8)
        ensures
            final(self).bytes@ == old(self).bytes@ + seq![value],
    {
        self.bytes.push(value);
        assert(self.bytes@ =~= old(self).bytes@ + seq![value]);
    }

    pub fn u16(&mut self, value: u16)
        ensures
            final(self).bytes@ == old(self).bytes@ + spec_u16_to_le_bytes(value),
    {
        let bytes = u16_to_le_bytes(value);
        push_bytes(&mut self.bytes, bytes.as_slice());
    }

    pub fn u32(&mut self, value: u32)
        ensures
            final(self).bytes@ == old(self).bytes@ + spec_u32_to_le_bytes(value),
    {
        let bytes = u32_to_le_bytes(value);
        push_bytes(&mut self.bytes, bytes.as_slice());
    }

    pub fn u64(&mut self, value: u64)
        ensures
            final(self).bytes@ == old(self).bytes@ + spec_u64_to_le_bytes(value),
    {
        let bytes = u64_to_le_bytes(value);
        push_bytes(&mut self.bytes, bytes.as_slice());
    }

    /// Writes an optional double by its bits.
    pub fn option_f64(&mut self, value: Option<u64>)
        ensures
            final(self).bytes@ == old(self).bytes@ + optional_bytes(value),
    {
        let ghost before = self.bytes@;
        match value {
            Some(bits) => {
                self.u8(1);
                self.u64(bits);
            },
            None => {
                self.u8(0);
                self.u64(0);
            },
        }
        assert(self.bytes@ =~= before + optional_bytes(value));
    }

    /// Writes a text; one that is absent, too long, or holds control characters is refused.
    pub fn string(&mut self, value: &str) -> (r: Result<(), CheckpointError>)
        ensures
            r == checked(text_fault("text", value@)),
            r is Ok ==> final(self).bytes@ == old(self).bytes@ + text_bytes(value@),
            r is Err ==> final(self).bytes@ == old(self).bytes@,
    {
        match validate_text("text", value) {
            Ok(()) => {},
            Err(error) => {
                return Err(error);
            },
        }
        let ghost before = self.bytes@;
        let bytes = value.as_bytes();
        self.u16(bytes.len() as u16);
        self.raw(bytes);
        assert(self.bytes@ =~= before + text_bytes(value@));
        Ok(())
    }
}

/// Value and end of a field, or why it cannot be read.
pub open spec fn take_at(bytes: Seq<u8>, at: int, count: int) -> Result<(Seq<u8>, int), CheckpointError> {
    if at + count <= bytes.len() {
        Ok((bytes.subrange(at, at + count), at + count))
    } else {
        Err(CheckpointError::ManifestTruncated)
    }
}

pub open spec fn u8_at(bytes: Seq<u8>, at: int) -> Result<(u8, int), CheckpointError> {
    match take_at(bytes, at, 1) {
        Ok(part) => Ok((part.0[0], part.1)),
        Err(error) => Err(error),
    }
}

pub open spec fn u16_at(bytes: Seq<u8>, at: int) -> Result<(u16, int), CheckpointError> {
    match take_at(bytes, at, 2) {
        Ok(part) => Ok((spec_u16_from_le_bytes(part.0), part.1)),
        Err(error) => Err(error),
    }
}

pub open spec fn u32_at(bytes: Seq<u8>, at: int) -> Result<(u32, int), CheckpointError> {
    match take_at(bytes, at, 4) {
        Ok(part) => Ok((spec_u32_from_le_bytes(part.0), part.1)),
        Err(error) => Err(error),
    }
}

pub open spec fn u64_at(bytes: Seq<u8>, at: int) -> Result<(u64, int), CheckpointError> {
    match take_at(bytes, at, 8) {
        Ok(part) => Ok((spec_u64_from_le_bytes(part.0), part.1)),
        Err(error) => Err(error),
    }
}

pub open spec fn text_at(bytes: Seq<u8>, at: int) -> Result<(Seq<char>, int), CheckpointError> {
    match u16_at(bytes, at) {
        Err(error) => Err(error),
        Ok(count) => if count.0 == 0 || count.0 > MAX_TEXT_BYTES {
            Err(invalid("text length"))
        } else {
            match take_at(bytes, count.1, count.0 as int) {
                Err(error) => Err(error),
                Ok(part) => if valid_utf8(part.0) {
                    Ok((decode_utf8(part.0), part.1))
                } else {
                    Err(invalid("UTF-8 text"))
                },
            }
        },
    }
}

/// Both zeros stand for an absent value.
pub open spec fn optional_at(bytes: Seq<u8>, at: int) -> Result<(Option<u64>, int), CheckpointError> {
    match u8_at(bytes, at) {
        Err(error) => Err(error),
        Ok(present) => match u64_at(bytes, present.1) {
            Err(error) => Err(error),
            Ok(value) => if present.0 == 0 && (value.0 == 0 || value.0 == 0x8000_0000_0000_0000) {
                Ok((None, value.1))
            } else if present.0 == 1 {
                Ok((Some(value.0), value.1))
            } else {
                Err(invalid("optional float"))
            },
        },
    }
}

pub open spec fn count_at(bytes: Seq<u8>, at: int, maximum: usize) -> Result<
    (usize, int),
    CheckpointError,
> {
    match u8_at(bytes, at) {
        Err(error) => Err(error),
        Ok(count) => if count.0 > maximum {
            Err(invalid("collection count"))
        } else {
            Ok((count.0 as usize, count.1))
        },
    }
}

/// Whether a read returned what stands at its position and moved behind it.
pub open spec fn reads<T>(
    outcome: Result<(T, int), CheckpointError>,
    r: Result<T, CheckpointError>,
    after: usize,
) -> bool {
    match outcome {
        Ok(part) => r == Ok::<T, CheckpointError>(part.0) && after == part.1,
        Err(error) => r == Err::<T, CheckpointError>(error),
    }
}

/// Reads fields behind each other.
#[derive(Debug)]
pub struct ManifestReader<'a> {
    pub bytes: &'a [u8],
    pub offset: usize,
}

impl<'a> ManifestReader<'a> {
    pub open spec fn wf(self) -> bool {
        self.offset <= self.bytes@.len()
    }

    pub fn new(bytes: &'a [u8]) -> (r: Self)
        ensures
            r.wf(),
            r.bytes@ == bytes@,
            r.offset == 0,
    {
        ManifestReader { bytes, offset: 0 }
    }

    pub fn take(&mut self, count: usize) -> (r: Result<&'a [u8], CheckpointError>)
        requires
            old(self).wf(),
        ensures
            final(self).wf(),
            final(self).bytes@ == old(self).bytes@,
            match take_at(old(self).bytes@, old(self).offset as int, count as int) {
                Ok(part) => r matches Ok(slice) && slice@ == part.0 && final(self).offset == part.1,
                Err(error) => r == Err::<&'a [u8], CheckpointError>(error),
            },
    {
        if count > self.bytes.len() - self.offset {
            return Err(CheckpointError::ManifestTruncated);
        }
        let end: usize = self.offset + count;
        let output = vstd::slice::slice_subrange(self.bytes, self.offset, end);
        self.offset = end;
        Ok(output)
    }

    pub fn u8(&mut self) -> (r: Result<u8, CheckpointError>)
        requires
            old(self).wf(),
        ensures
            final(self).wf(),
            final(self).bytes@ == old(self).bytes@,
            reads(u8_at(old(self).bytes@, old(self).offset as int), r, final(self).offset),
    {
        match self.take(1) {
            Ok(part) => Ok(part[0]),
            Err(error) => Err(error),
        }
    }

    pub fn u16(&mut self) -> (r: Result<u16, CheckpointError>)
        requires
            old(self).wf(),
        ensures
            final(self).wf(),
            final(self).bytes@ == old(self).bytes@,
            reads(u16_at(old(self).bytes@, old(self).offset as int), r, final(self).offset),
    {
        match self.take(2) {
            Ok(part) => Ok(u16_from_le_bytes(part)),
            Err(error) => Err(error),
        }
    }

    pub fn u32(&mut self) -> (r: Result<u32, CheckpointError>)
        requires
            old(self).wf(),
        ensures
            final(self).wf(),
            final(self).bytes@ == old(self).bytes@,
            reads(u32_at(old(self).bytes@, old(self).offset as int), r, final(self).offset),
    {
        match self.take(4) {
            Ok(part) => Ok(u32_from_le_bytes(part)),
            Err(error) => Err(error),
        }
    }

    pub fn u64(&mut self) -> (r: Result<u64, CheckpointError>)
        requires
            old(self).wf(),
        ensures
            final(self).wf(),
            final(self).bytes@ == old(self).bytes@,
            reads(u64_at(old(self).bytes@, old(self).offset as int), r, final(self).offset),
    {
        match self.take(8) {
            Ok(part) => Ok(u64_from_le_bytes(part)),
            Err(error) => Err(error),
        }
    }

    pub fn string(&mut self) -> (r: Result<String, CheckpointError>)
        requires
            old(self).wf(),
        ensures
            final(self).wf(),
            final(self).bytes@ == old(self).bytes@,
            match text_at(old(self).bytes@, old(self).offset as int) {
                Ok(part) => r matches Ok(text) && text@ == part.0 && final(self).offset == part.1,
                Err(error) => r == Err::<String, CheckpointError>(error),
            },
    {
        let count: usize = match self.u16() {
            Ok(count) => count as usize,
            Err(error) => {
                return Err(error);
            },
        };
        if count == 0 || count > MAX_TEXT_BYTES {
            return Err(CheckpointError::InvalidManifest("text length"));
        }
        match self.take(count) {
            Err(error) => Err(error),
            Ok(part) => match decode_text(copy_bytes(part)) {
                Some(text) => Ok(text),
                None => Err(CheckpointError::InvalidManifest("UTF-8 text")),
            },
        }
    }

    /// Reads an optional double by its bits.
    pub fn option_f64(&mut self) -> (r: Result<Option<u64>, CheckpointError>)
        requires
            old(self).wf(),
        ensures
            final(self).wf(),
            final(self).bytes@ == old(self).bytes@,
            reads(optional_at(old(self).bytes@, old(self).offset as int), r, final(self).offset),
    {
        let present: u8 = match self.u8() {
            Ok(present) => present,
            Err(error) => {
                return Err(error);
            },
        };
        let value: u64 = match self.u64() {
            Ok(value) => value,
            Err(error) => {
                return Err(error);
            },
        };
        if present == 0 && (value == 0 || value == 0x8000_0000_0000_0000) {
            return Ok(None);
        }
        if present == 1 {
            return Ok(Some(value));
        }
        Err(CheckpointError::InvalidManifest("optional float"))
    }

    pub fn bounded_count(&mut self, maximum: usize) -> (r: Result<usize, CheckpointError>)
        requires
            old(self).wf(),
        ensures
            final(self).wf(),
            final(self).bytes@ == old(self).bytes@,
            reads(
                count_at(old(self).bytes@, old(self).offset as int, maximum),
                r,
                final(self).offset,
            ),
    {
        let count: usize = match self.u8() {
            Ok(count) => count as usize,
            Err(error) => {
                return Err(error);
            },
        };
        if count > maximum {
            return Err(CheckpointError::InvalidManifest("collection count"));
        }
        Ok(count)
    }

    /// Checks that nothing is left.
    pub fn finish(&self) -> (r: Result<(), CheckpointError>)
        ensures
            r == if self.offset == self.bytes@.len() {
                Ok::<(), CheckpointError>(())
            } else {
                Err(CheckpointError::ManifestTrailingBytes)
            },
    {
        if self.offset != self.bytes.len() {
            return Err(CheckpointError::ManifestTrailingBytes);
        }
        Ok(())
    }
}

/// Whether a part stands in bytes at a position.
pub open spec fn stands(bytes: Seq<u8>, at: int, part: Seq<u8>) -> bool {
    &&& 0 <= at
    &&& at + part.len() <= bytes.len()
    &&& bytes.subrange(at, at + part.len()) == part
}

/// The parts of a concatenation stand behind each other.
pub proof fn lemma_stands_split(bytes: Seq<u8>, at: int, left: Seq<u8>, right: Seq<u8>)
    requires
        stands(bytes, at, left + right),
    ensures
        stands(bytes, at, left),
        stands(bytes, at + left.len(), right),
{
    let both = left + right;
    assert(bytes.subrange(at, at + left.len()) =~= left) by {
        assert forall|i: int| 0 <= i < left.len() implies #[trigger] bytes.subrange(
            at,
            at + left.len(),
        )[i] == left[i] by {
            assert(bytes.subrange(at, at + both.len())[i] == both[i]);
        }
    }
    let middle = at + left.len();
    assert(bytes.subrange(middle, middle + right.len()) =~= right) by {
        assert forall|i: int| 0 <= i < right.len() implies #[trigger] bytes.subrange(
            middle,
            middle + right.len(),
        )[i] == right[i] by {
            assert(bytes.subrange(at, at + both.len())[i + left.len()] == both[i + left.len()]);
        }
    }
}

/// A written byte reads back.
pub proof fn lemma_u8_back(bytes: Seq<u8>, at: int, value: u8)
    requires
        stands(bytes, at, seq![value]),
    ensures
        u8_at(bytes, at) == Ok::<(u8, int), CheckpointError>((value, at + 1)),
{
    assert(bytes.subrange(at, at + 1) == seq![value]);
    assert(seq![value][0] == value);
}

/// A written number reads back.
pub proof fn lemma_u16_back(bytes: Seq<u8>, at: int, value: u16)
    requires
        stands(bytes, at, spec_u16_to_le_bytes(value)),
    ensures
        u16_at(bytes, at) == Ok::<(u16, int), CheckpointError>((value, at + 2)),
        spec_u16_to_le_bytes(value).len() == 2,
{
    lemma_auto_spec_u16_to_from_le_bytes();
}

/// A written number reads back.
pub proof fn lemma_u32_back(bytes: Seq<u8>, at: int, value: u32)
    requires
        stands(bytes, at, spec_u32_to_le_bytes(value)),
    ensures
        u32_at(bytes, at) == Ok::<(u32, int), CheckpointError>((value, at + 4)),
        spec_u32_to_le_bytes(value).len() == 4,
{
    lemma_auto_spec_u32_to_from_le_bytes();
}

/// A written number reads back.
pub proof fn lemma_u64_back(bytes: Seq<u8>, at: int, value: u64)
    requires
        stands(bytes, at, spec_u64_to_le_bytes(value)),
    ensures
        u64_at(bytes, at) == Ok::<(u64, int), CheckpointError>((value, at + 8)),
        spec_u64_to_le_bytes(value).len() == 8,
{
    lemma_auto_spec_u64_to_from_le_bytes();
}

/// A written optional number reads back.
pub proof fn lemma_optional_back(bytes: Seq<u8>, at: int, value: Option<u64>)
    requires
        stands(bytes, at, optional_bytes(value)),
    ensures
        optional_at(bytes, at) == Ok::<(Option<u64>, int), CheckpointError>((value, at + 9)),
        optional_bytes(value).len() == 9,
{
    let (present, bits) = match value {
        Some(bits) => (1u8, bits),
        None => (0u8, 0u64),
    };
    lemma_stands_split(bytes, at, seq![present], spec_u64_to_le_bytes(bits));
    lemma_u8_back(bytes, at, present);
    lemma_u64_back(bytes, at + 1, bits);
}

/// A written text reads back.
pub proof fn lemma_text_back(bytes: Seq<u8>, at: int, text: Seq<char>)
    requires
        text_ok(text),
        stands(bytes, at, text_bytes(text)),
    ensures
        text_at(bytes, at) == Ok::<(Seq<char>, int), CheckpointError>(
            (text, at + text_bytes(text).len()),
        ),
{
    let utf8 = encode_utf8(text);
    let count = utf8.len() as u16;
    lemma_stands_split(bytes, at, spec_u16_to_le_bytes(count), utf8);
    lemma_u16_back(bytes, at, count);
    broadcast use {vstd::utf8::encode_utf8_valid_utf8, vstd::utf8::encode_utf8_decode_utf8};

    assert(decode_utf8(utf8) == text);
    if utf8.len() == 0 {
        assert(decode_utf8(utf8).len() == 0);
    }
}

} // verus!
