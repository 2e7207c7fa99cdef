//! Named single-precision tensors in safetensors archives.
use crate::checkpoint_codec::words_bytes;
use crate::frame::{finite32, is_finite32};
use crate::manifest::{checked, CheckpointError, ManifestWriter};
use crate::text::owned;
use safetensors::tensor::{serialize, Dtype, SafeTensors, TensorView};
use vstd::bytes::{
    lemma_auto_spec_u32_to_from_le_bytes, spec_u32_from_le_bytes, spec_u32_to_le_bytes,
    u32_from_le_bytes,
};
use vstd::prelude::*;

verus! {

/// Most elements of one written tensor.
pub const MAX_ARCHIVE_ELEMENTS: usize = 0x0100_0000;

/// One tensor of an archive.
#[derive(Debug, PartialEq, Eq)]
pub struct ArchiveTensor {
    pub name: String,
    /// Whether the elements are single-precision numbers.
    pub single: bool,
    pub shape: Vec<usize>,
    pub data: Vec<u8>,
}

/// Element kind, shape, and bytes of a tensor.
pub open spec fn entry_of(tensor: ArchiveTensor) -> (bool, Seq<usize>, Seq<u8>) {
    (tensor.single, tensor.shape@, tensor.data@)
}

/// Tensors by name; a later one replaces an earlier one of the same name.
pub open spec fn tensors_map(list: Seq<ArchiveTensor>) -> Map<
    Seq<char>,
    (bool, Seq<usize>, Seq<u8>),
>
    decreases list.len(),
{
    if list.len() == 0 {
        Map::empty()
    } else {
        tensors_map(list.drop_last()).insert(list.last().name@, entry_of(list.last()))
    }
}

/// Whether no name repeats.
pub open spec fn names_distinct(list: Seq<ArchiveTensor>) -> bool {
    forall|i: int, j: int|
        0 <= i < j < list.len() ==> (#[trigger] list[i]).name@ != (#[trigger] list[j]).name@
}

/// Texts by key; a later one replaces an earlier one of the same key.
pub open spec fn pairs_map(list: Seq<(String, String)>) -> Map<Seq<char>, Seq<char>>
    decreases list.len(),
{
    if list.len() == 0 {
        Map::empty()
    } else {
        pairs_map(list.drop_last()).insert(list.last().0@, list.last().1@)
    }
}

/// Whether no key repeats.
pub open spec fn keys_distinct(list: Seq<(String, String)>) -> bool {
    forall|i: int, j: int|
        0 <= i < j < list.len() ==> (#[trigger] list[i]).0@ != (#[trigger] list[j]).0@
}

/// Metadata of an archive on a machine whose largest size is given: absent for bytes that are
/// no archive there, else the optional texts of its header.
pub uninterp spec fn metadata_within(bytes: Seq<u8>, largest: nat) -> Option<
    Option<Map<Seq<char>, Seq<char>>>,
>;

/// Tensors of an archive on a machine whose largest size is given: absent for bytes that are
/// no archive there.
pub uninterp spec fn tensors_within(bytes: Seq<u8>, largest: nat) -> Option<
    Map<Seq<char>, (bool, Seq<usize>, Seq<u8>)>,
>;

/// Metadata of an archive: absent for bytes that are no archive, else the optional texts of
/// its header.
pub open spec fn archive_metadata(bytes: Seq<u8>) -> Option<Option<Map<Seq<char>, Seq<char>>>> {
    metadata_within(bytes, usize::MAX as nat)
}

/// Tensors of an archive: absent for bytes that are no archive.
pub open spec fn archive_tensors(bytes: Seq<u8>) -> Option<
    Map<Seq<char>, (bool, Seq<usize>, Seq<u8>)>,
> {
    tensors_within(bytes, usize::MAX as nat)
}

/// Length of the header that archive bytes declare in their first eight bytes.
pub open spec fn header_length(bytes: Seq<u8>) -> nat {
    bytes[0] as nat + 0x100 * (bytes[1] as nat + 0x100 * (bytes[2] as nat + 0x100 * (bytes[3] as nat
        + 0x100 * (bytes[4] as nat + 0x100 * (bytes[5] as nat + 0x100 * (bytes[6] as nat + 0x100
        * bytes[7] as nat))))))
}

/// Place of a scan outside texts, relative to a bracketed pair of numbers.
#[derive(Clone, Copy, Debug, PartialEq, Eq, Structural)]
pub enum PairPlace {
    /// Nowhere in a pair.
    Outside,
    /// Behind the bracket.
    Opened,
    /// In the first number.
    First,
    /// Behind the first number.
    Between,
    /// Behind the comma.
    Parted,
    /// In the second number.
    Second,
    /// Behind the second number.
    Closing,
}

impl PairPlace {
    /// Place behind one more byte.
    pub open spec fn after(self, byte: u8) -> PairPlace {
        let blank = byte == 0x20 || byte == 0x09 || byte == 0x0a || byte == 0x0d;
        let digit = 0x30 <= byte <= 0x39;
        match self {
            _ if byte == 0x5b => PairPlace::Opened,
            PairPlace::Opened if blank => PairPlace::Opened,
            PairPlace::Opened if digit => PairPlace::First,
            PairPlace::First if digit => PairPlace::First,
            PairPlace::First if blank => PairPlace::Between,
            PairPlace::Between if blank => PairPlace::Between,
            PairPlace::First if byte == 0x2c => PairPlace::Parted,
            PairPlace::Between if byte == 0x2c => PairPlace::Parted,
            PairPlace::Parted if blank => PairPlace::Parted,
            PairPlace::Parted if digit => PairPlace::Second,
            PairPlace::Second if digit => PairPlace::Second,
            PairPlace::Second if blank => PairPlace::Closing,
            PairPlace::Closing if blank => PairPlace::Closing,
            _ => PairPlace::Outside,
        }
    }

    /// Whether a closing bracket ends a pair.
    pub open spec fn complete(self) -> bool {
        self == PairPlace::Second || self == PairPlace::Closing
    }
}

/// Scan of a header: inside a text or not, behind an escape or not, the place in a pair of
/// numbers, both numbers so far, and whether every pair that has ended leaves room.
pub struct HeaderScan {
    pub quoted: bool,
    pub escaped: bool,
    pub place: PairPlace,
    pub first: nat,
    pub second: nat,
    pub bounded: bool,
}

/// Whether a pair cannot be the offsets of a tensor whose end and the header of the given length
/// are together past the machine's range. A tensor's bits are counted in a size, so an eighth of
/// the range is the most that a tensor spans.
pub open spec fn leaves_room(first: nat, second: nat, length: nat) -> bool {
    second > usize::MAX || second + 8 + length <= usize::MAX || first > second || second - first
        > usize::MAX as nat / 8
}

/// Number behind one more digit.
pub open spec fn extended(value: nat, byte: u8) -> nat {
    (value * 10 + byte - 0x30) as nat
}

/// Scan after one more byte of a header of the given length.
pub open spec fn scanned(state: HeaderScan, byte: u8, length: nat) -> HeaderScan {
    if state.quoted {
        if state.escaped {
            HeaderScan { escaped: false, ..state }
        } else if byte == 0x5c {
            HeaderScan { escaped: true, ..state }
        } else if byte == 0x22 {
            HeaderScan { quoted: false, ..state }
        } else {
            state
        }
    } else {
        let place = state.place.after(byte);
        HeaderScan {
            quoted: byte == 0x22,
            escaped: false,
            place,
            first: if place == PairPlace::Opened {
                0
            } else if place == PairPlace::First {
                extended(state.first, byte)
            } else {
                state.first
            },
            second: if place == PairPlace::Opened {
                0
            } else if place == PairPlace::Second {
                extended(state.second, byte)
            } else {
                state.second
            },
            bounded: state.bounded && (state.place.complete() && byte == 0x5d ==> leaves_room(
                state.first,
                state.second,
                length,
            )),
        }
    }
}

/// Scan of the first bytes of a header of the given length.
pub open spec fn scan_of(header: Seq<u8>, length: nat) -> HeaderScan
    decreases header.len(),
{
    if header.len() == 0 {
        HeaderScan {
            quoted: false,
            escaped: false,
            place: PairPlace::Outside,
            first: 0,
            second: 0,
            bounded: true,
        }
    } else {
        scanned(scan_of(header.drop_last(), length), header.last(), length)
    }
}

/// Whether no bracketed pair of numbers of a declared header can be the offsets of a tensor whose
/// end and the header are together past the machine's range.
pub open spec fn header_bounded(bytes: Seq<u8>) -> bool {
    bytes.len() >= 8 && header_length(bytes) <= bytes.len() - 8 ==> scan_of(
        bytes.subrange(8, 8 + header_length(bytes) as int),
        header_length(bytes),
    ).bounded
}

fn place_after(place: PairPlace, byte: u8) -> (r: PairPlace)
    ensures
        r == place.after(byte),
{
    let blank = byte == 0x20 || byte == 0x09 || byte == 0x0a || byte == 0x0d;
    let digit = 0x30 <= byte && byte <= 0x39;
    if byte == 0x5b {
        return PairPlace::Opened;
    }
    match place {
        PairPlace::Outside => PairPlace::Outside,
        PairPlace::Opened => if blank {
            PairPlace::Opened
        } else if digit {
            PairPlace::First
        } else {
            PairPlace::Outside
        },
        PairPlace::First => if digit {
            PairPlace::First
        } else if blank {
            PairPlace::Between
        } else if byte == 0x2c {
            PairPlace::Parted
        } else {
            PairPlace::Outside
        },
        PairPlace::Between => if blank {
            PairPlace::Between
        } else if byte == 0x2c {
            PairPlace::Parted
        } else {
            PairPlace::Outside
        },
        PairPlace::Parted => if blank {
            PairPlace::Parted
        } else if digit {
            PairPlace::Second
        } else {
            PairPlace::Outside
        },
        PairPlace::Second => if digit {
            PairPlace::Second
        } else if blank {
            PairPlace::Closing
        } else {
            PairPlace::Outside
        },
        PairPlace::Closing => if blank {
            PairPlace::Closing
        } else {
            PairPlace::Outside
        },
    }
}

/// Number limited to one past the machine's range.
spec fn limited(value: nat) -> nat {
    if value > usize::MAX {
        usize::MAX as nat + 1
    } else {
        value
    }
}

fn extend_number(value: u128, byte: u8, Ghost(exact): Ghost<nat>) -> (r: u128)
    requires
        0x30 <= byte <= 0x39,
        value == limited(exact),
    ensures
        r == limited(extended(exact, byte)),
{
    let largest: u128 = usize::MAX as u128;
    if value > largest {
        return value;
    }
    let next: u128 = value * 10 + (byte - 0x30) as u128;
    if next > largest {
        largest + 1
    } else {
        next
    }
}

/// Checks that no bracketed pair of numbers of a declared header can be the offsets of a tensor
/// whose end and the header are together past the machine's range.
pub fn is_header_bounded(bytes: &[u8]) -> (r: bool)
    ensures
        r == header_bounded(bytes@),
{
    if bytes.len() < 8 {
        return true;
    }
    let room: u64 = (bytes.len() - 8) as u64;
    let high: u128 = bytes[4] as u128 + 0x100 * (bytes[5] as u128 + 0x100 * (bytes[6] as u128
        + 0x100 * (bytes[7] as u128)));
    let low: u128 = bytes[0] as u128 + 0x100 * (bytes[1] as u128 + 0x100 * (bytes[2] as u128 + 0x100
        * (bytes[3] as u128)));
    let declared: u128 = low + 0x1_0000_0000 * high;
    assert(declared == header_length(bytes@));
    if declared > room as u128 {
        return true;
    }
    let end: usize = 8 + declared as usize;
    let largest: u128 = usize::MAX as u128;
    let mut quoted = false;
    let mut escaped = false;
    let mut place = PairPlace::Outside;
    let mut first: u128 = 0;
    let mut second: u128 = 0;
    let mut bounded = true;
    let mut at: usize = 8;
    let ghost length = header_length(bytes@);
    let ghost header = bytes@.subrange(8, end as int);
    while at < end
        invariant
            8 <= at <= end <= bytes@.len(),
            end == 8 + length,
            header == bytes@.subrange(8, end as int),
            largest == usize::MAX,
            ({
                let scan = scan_of(header.take(at - 8), length);
                &&& scan.quoted == quoted
                &&& scan.escaped == escaped
                &&& scan.place == place
                &&& first == limited(scan.first)
                &&& second == limited(scan.second)
                &&& scan.bounded == bounded
            }),
        decreases end - at,
    {
        assert(header.take(at - 8 + 1).drop_last() =~= header.take(at - 8));
        let ghost scan = scan_of(header.take(at - 8), length);
        let byte: u8 = bytes[at];
        if quoted {
            if escaped {
                escaped = false;
            } else if byte == 0x5c {
                escaped = true;
            } else if byte == 0x22 {
                quoted = false;
            }
        } else {
            let closes = (place == PairPlace::Second || place == PairPlace::Closing) && byte
                == 0x5d;
            if closes && second <= largest && second + end as u128 > largest && first <= second
                && second - first <= largest / 8 {
                bounded = false;
            }
            place = place_after(place, byte);
            match place {
                PairPlace::Opened => {
                    first = 0;
                    second = 0;
                },
                PairPlace::First => {
                    first = extend_number(first, byte, Ghost(scan.first));
                },
                PairPlace::Second => {
                    second = extend_number(second, byte, Ghost(scan.second));
                },
                _ => {},
            }
            quoted = byte == 0x22;
            escaped = false;
        }
        at += 1;
    }
    assert(header.take(at - 8) =~= header);
    bounded
}

/// Calls `SafeTensors::read_metadata` and `Metadata::metadata`: whether bytes hold a complete
/// archive, and the texts of its header, each key once and in no promised order. The text of
/// a failure is not claimed.
#[verifier::external_body]
fn read_metadata(bytes: &[u8]) -> (r: Result<Option<Vec<(String, String)>>, String>)
    requires
        header_bounded(bytes@),
    ensures
        match metadata_within(bytes@, usize::MAX as nat) {
            None => r is Err,
            Some(None) => r == Ok::<Option<Vec<(String, String)>>, String>(None),
            Some(Some(texts)) => r matches Ok(Some(list)) && keys_distinct(list@) && pairs_map(
                list@,
            ) == texts,
        },
{
    let (_, header) = SafeTensors::read_metadata(bytes).map_err(|error| error.to_string())?;
    Ok(header.metadata().as_ref().map(|texts| {
        texts.iter().map(|(key, value)| (key.clone(), value.clone())).collect()
    }))
}

/// Calls `SafeTensors::deserialize` and `SafeTensors::tensors`: whether bytes hold a complete
/// archive, and its tensors, each name once and in no promised order. The text of a failure
/// is not claimed.
#[verifier::external_body]
fn read_tensors(bytes: &[u8]) -> (r: Result<Vec<ArchiveTensor>, String>)
    requires
        header_bounded(bytes@),
    ensures
        match tensors_within(bytes@, usize::MAX as nat) {
            None => r is Err,
            Some(tensors) => r matches Ok(list) && names_distinct(list@) && tensors_map(list@)
                == tensors,
        },
{
    let archive = SafeTensors::deserialize(bytes).map_err(|error| error.to_string())?;
    Ok(archive.tensors().into_iter().map(|(name, view)| ArchiveTensor {
        name,
        single: view.dtype() == Dtype::F32,
        shape: view.shape().to_vec(),
        data: view.data().to_vec(),
    }).collect())
}

/// Whether tensors and texts can be written: a few single-precision vectors of bounded size
/// with distinct short names, and distinct keys of bounded size.
pub open spec fn writable(list: Seq<ArchiveTensor>, texts: Option<Vec<(String, String)>>) -> bool {
    &&& list.len() <= 8
    &&& names_distinct(list)
    &&& forall|i: int|
        0 <= i < list.len() ==> {
            let tensor = #[trigger] list[i];
            &&& tensor.single
            &&& tensor.name@.len() <= 256
            &&& tensor.name@ != "__metadata__"@
            &&& tensor.shape@.len() == 1
            &&& tensor.shape@[0] <= MAX_ARCHIVE_ELEMENTS
            &&& tensor.data@.len() == 4 * tensor.shape@[0]
        }
    &&& texts matches Some(pairs) ==> {
        &&& pairs@.len() <= 16
        &&& keys_distinct(pairs@)
        &&& forall|i: int|
            0 <= i < pairs@.len() ==> (#[trigger] pairs@[i]).0@.len() <= 0x1_0000
                && pairs@[i].1@.len() <= 0x1_0000
    }
}

/// Calls `TensorView::new` and `serialize`: they succeed on such tensors and texts, and give an
/// archive that reads back as them. Its bytes are not otherwise claimed, for the order of the
/// texts may vary.
#[verifier::external_body]
fn write_archive(list: &Vec<ArchiveTensor>, texts: Option<Vec<(String, String)>>) -> (r: Result<
    Vec<u8>,
    String,
>)
    requires
        writable(list@, texts),
    ensures
        match r {
            Ok(bytes) => header_bounded(bytes@) && tensors_within(bytes@, usize::MAX as nat)
                == Some(tensors_map(list@)) && metadata_within(bytes@, usize::MAX as nat) == Some(
                match texts {
                    Some(pairs) => Some(pairs_map(pairs@)),
                    None => None,
                },
            ),
            Err(_) => false,
        },
{
    let views = list
        .iter()
        .map(|tensor| TensorView::new(Dtype::F32, tensor.shape.clone(), &tensor.data)
            .map(|view| (tensor.name.clone(), view)))
        .collect::<Result<Vec<_>, _>>()
        .map_err(|error| error.to_string())?;
    serialize(views, texts.map(|pairs| pairs.into_iter().collect()))
        .map_err(|error| error.to_string())
}

/// Failure of bytes whose header declares sizes that no archive of this library reaches.
pub open spec fn oversized(error: CheckpointError) -> bool {
    error matches CheckpointError::Backend(text) && text@
        == "tensor header declares a size past the supported range"@
}

/// Texts of an archive's header.
pub fn archive_texts(bytes: &[u8]) -> (r: Result<Option<Vec<(String, String)>>, CheckpointError>)
    ensures
        if !header_bounded(bytes@) {
            r matches Err(error) && oversized(error)
        } else {
            match archive_metadata(bytes@) {
                None => r matches Err(CheckpointError::Backend(_)),
                Some(None) => r == Ok::<Option<Vec<(String, String)>>, CheckpointError>(None),
                Some(Some(texts)) => r matches Ok(Some(list)) && keys_distinct(list@) && pairs_map(
                    list@,
                ) == texts,
            }
        },
{
    if !is_header_bounded(bytes) {
        return Err(
            CheckpointError::Backend(
                owned("tensor header declares a size past the supported range"),
            ),
        );
    }
    match read_metadata(bytes) {
        Ok(texts) => Ok(texts),
        Err(text) => Err(CheckpointError::Backend(text)),
    }
}

/// Tensors of an archive.
pub fn archive_contents(bytes: &[u8]) -> (r: Result<Vec<ArchiveTensor>, CheckpointError>)
    ensures
        if !header_bounded(bytes@) {
            r matches Err(error) && oversized(error)
        } else {
            match archive_tensors(bytes@) {
                None => r matches Err(CheckpointError::Backend(_)),
                Some(tensors) => r matches Ok(list) && names_distinct(list@) && tensors_map(list@)
                    == tensors,
            }
        },
{
    if !is_header_bounded(bytes) {
        return Err(
            CheckpointError::Backend(
                owned("tensor header declares a size past the supported range"),
            ),
        );
    }
    match read_tensors(bytes) {
        Ok(list) => Ok(list),
        Err(text) => Err(CheckpointError::Backend(text)),
    }
}

/// Map lookup and list membership agree when no name repeats.
pub proof fn lemma_tensors_map(list: Seq<ArchiveTensor>, name: Seq<char>)
    ensures
        tensors_map(list).dom().contains(name) <==> exists|i: int|
            0 <= i < list.len() && (#[trigger] list[i]).name@ == name,
        names_distinct(list) ==> forall|i: int|
            0 <= i < list.len() && (#[trigger] list[i]).name@ == name ==> tensors_map(list)[name]
                == entry_of(list[i]),
    decreases list.len(),
{
    if list.len() > 0 {
        let rest = list.drop_last();
        lemma_tensors_map(rest, name);
        assert forall|i: int| 0 <= i < rest.len() implies #[trigger] rest[i] == list[i] by {}
        if tensors_map(list).dom().contains(name) {
            if list.last().name@ == name {
                assert(list[list.len() - 1].name@ == name);
            } else {
                let i = choose|i: int| 0 <= i < rest.len() && (#[trigger] rest[i]).name@ == name;
                assert(list[i].name@ == name);
            }
        }
        if exists|i: int| 0 <= i < list.len() && (#[trigger] list[i]).name@ == name {
            let i = choose|i: int| 0 <= i < list.len() && (#[trigger] list[i]).name@ == name;
            if i < rest.len() {
                assert(rest[i].name@ == name);
            }
        }
        if names_distinct(list) {
            assert(names_distinct(rest));
            assert forall|i: int|
                0 <= i < list.len() && (#[trigger] list[i]).name@ == name implies tensors_map(
                list,
            )[name] == entry_of(list[i]) by {
                if i < rest.len() {
                    assert(rest[i].name@ == name);
                    assert(list[i].name@ != list[list.len() - 1].name@);
                }
            }
        }
    }
}

/// Map lookup and list membership agree when no key repeats.
pub proof fn lemma_pairs_map(list: Seq<(String, String)>, key: Seq<char>)
    ensures
        pairs_map(list).dom().contains(key) <==> exists|i: int|
            0 <= i < list.len() && (#[trigger] list[i]).0@ == key,
        keys_distinct(list) ==> forall|i: int|
            0 <= i < list.len() && (#[trigger] list[i]).0@ == key ==> pairs_map(list)[key]
                == list[i].1@,
    decreases list.len(),
{
    if list.len() > 0 {
        let rest = list.drop_last();
        lemma_pairs_map(rest, key);
        assert forall|i: int| 0 <= i < rest.len() implies #[trigger] rest[i] == list[i] by {}
        if pairs_map(list).dom().contains(key) {
            if list.last().0@ == key {
                assert(list[list.len() - 1].0@ == key);
            } else {
                let i = choose|i: int| 0 <= i < rest.len() && (#[trigger] rest[i]).0@ == key;
                assert(list[i].0@ == key);
            }
        }
        if exists|i: int| 0 <= i < list.len() && (#[trigger] list[i]).0@ == key {
            let i = choose|i: int| 0 <= i < list.len() && (#[trigger] list[i]).0@ == key;
            if i < rest.len() {
                assert(rest[i].0@ == key);
            }
        }
        if keys_distinct(list) {
            assert(keys_distinct(rest));
            assert forall|i: int|
                0 <= i < list.len() && (#[trigger] list[i]).0@ == key implies pairs_map(list)[key]
                == list[i].1@ by {
                if i < rest.len() {
                    assert(rest[i].0@ == key);
                    assert(list[i].0@ != list[list.len() - 1].0@);
                }
            }
        }
    }
}

/// Whether a list holds a text under a key.
pub open spec fn has_pair(list: Seq<(String, String)>, key: Seq<char>, value: Seq<char>) -> bool {
    exists|i: int| 0 <= i < list.len() && (#[trigger] list[i]).0@ == key && list[i].1@ == value
}

/// Whether every text of a list is in another.
pub open spec fn all_in(left: Seq<(String, String)>, right: Seq<(String, String)>) -> bool {
    forall|i: int|
        0 <= i < left.len() ==> has_pair(right, (#[trigger] left[i]).0@, left[i].1@)
}

fn holds_pair(list: &Vec<(String, String)>, key: &String, value: &String) -> (r: bool)
    ensures
        r == has_pair(list@, key@, value@),
{
    let mut index: usize = 0;
    while index < list.len()
        invariant
            index <= list@.len(),
            forall|i: int|
                0 <= i < index ==> !((#[trigger] list@[i]).0@ == key@ && list@[i].1@ == value@),
        decreases list@.len() - index,
    {
        if list[index].0 == *key && list[index].1 == *value {
            assert(list@[index as int].0@ == key@);
            return true;
        }
        index += 1;
    }
    false
}

fn is_all_in(left: &Vec<(String, String)>, right: &Vec<(String, String)>) -> (r: bool)
    ensures
        r == all_in(left@, right@),
{
    let mut index: usize = 0;
    while index < left.len()
        invariant
            index <= left@.len(),
            forall|i: int|
                0 <= i < index ==> has_pair(right@, (#[trigger] left@[i]).0@, left@[i].1@),
        decreases left@.len() - index,
    {
        if !holds_pair(right, &left[index].0, &left[index].1) {
            assert(!has_pair(right@, left@[index as int].0@, left@[index as int].1@));
            return false;
        }
        index += 1;
    }
    true
}

/// Texts of a list that is in another are texts of the other.
proof fn lemma_all_in(left: Seq<(String, String)>, right: Seq<(String, String)>, key: Seq<char>)
    requires
        keys_distinct(left),
        keys_distinct(right),
        all_in(left, right),
        pairs_map(left).dom().contains(key),
    ensures
        pairs_map(right).dom().contains(key),
        pairs_map(right)[key] == pairs_map(left)[key],
{
    lemma_pairs_map(left, key);
    lemma_pairs_map(right, key);
    let i = choose|i: int| 0 <= i < left.len() && (#[trigger] left[i]).0@ == key;
    assert(has_pair(right, left[i].0@, left[i].1@));
    let j = choose|j: int|
        0 <= j < right.len() && (#[trigger] right[j]).0@ == left[i].0@ && right[j].1@ == left[i].1@;
    assert(right[j].0@ == key);
}

proof fn lemma_not_all_in(left: Seq<(String, String)>, right: Seq<(String, String)>)
    requires
        keys_distinct(left),
        keys_distinct(right),
        pairs_map(left) == pairs_map(right),
    ensures
        all_in(left, right),
{
    assert forall|i: int| 0 <= i < left.len() implies has_pair(
        right,
        (#[trigger] left[i]).0@,
        left[i].1@,
    ) by {
        let key = left[i].0@;
        lemma_pairs_map(left, key);
        lemma_pairs_map(right, key);
        assert(pairs_map(right).dom().contains(key));
        let j = choose|j: int| 0 <= j < right.len() && (#[trigger] right[j]).0@ == key;
        assert(right[j].1@ == left[i].1@);
    }
}

/// Whether two lists without repeated keys hold the same texts.
pub fn same_texts(left: &Vec<(String, String)>, right: &Vec<(String, String)>) -> (r: bool)
    requires
        keys_distinct(left@),
        keys_distinct(right@),
    ensures
        r == (pairs_map(left@) == pairs_map(right@)),
{
    let same = is_all_in(left, right) && is_all_in(right, left);
    proof {
        if pairs_map(left@) == pairs_map(right@) {
            lemma_not_all_in(left@, right@);
            lemma_not_all_in(right@, left@);
        }
        if same {
            assert forall|key: Seq<char>| #[trigger]
                pairs_map(left@).dom().contains(key) implies pairs_map(right@).dom().contains(key)
                && pairs_map(left@)[key] == pairs_map(right@)[key] by {
                lemma_all_in(left@, right@, key);
            }
            assert forall|key: Seq<char>| #[trigger]
                pairs_map(right@).dom().contains(key) implies pairs_map(left@).dom().contains(
                key,
            ) by {
                lemma_all_in(right@, left@, key);
            }
            assert(pairs_map(left@) =~= pairs_map(right@));
        }
    }
    same
}

/// Names that an archive is expected to hold.
pub open spec fn name_set(names: Seq<&'static str>) -> Set<Seq<char>> {
    Set::new(|name: Seq<char>| exists|i: int| 0 <= i < names.len() && (#[trigger] names[i])@ == name)
}

/// Checks that an archive holds exactly the expected names.
pub fn validate_names(list: &Vec<ArchiveTensor>, expected: &Vec<&'static str>) -> (r: Result<
    (),
    CheckpointError,
>)
    ensures
        r == if tensors_map(list@).dom() == name_set(expected@) {
            Ok::<(), CheckpointError>(())
        } else {
            Err(CheckpointError::TensorContract("names"))
        },
{
    let mut index: usize = 0;
    while index < list.len()
        invariant
            index <= list@.len(),
            forall|i: int|
                0 <= i < index ==> name_set(expected@).contains((#[trigger] list@[i]).name@),
        decreases list@.len() - index,
    {
        let mut found = false;
        let mut at: usize = 0;
        while at < expected.len()
            invariant
                index < list@.len(),
                at <= expected@.len(),
                found == exists|i: int|
                    0 <= i < at && (#[trigger] expected@[i])@ == list@[index as int].name@,
            decreases expected@.len() - at,
        {
            if list[index].name == owned(expected[at]) {
                assert(expected@[at as int]@ == list@[index as int].name@);
                found = true;
            }
            at += 1;
        }
        if !found {
            proof {
                let name = list@[index as int].name@;
                lemma_tensors_map(list@, name);
                assert(list@[index as int].name@ == name);
                assert(tensors_map(list@).dom().contains(name));
                assert(!name_set(expected@).contains(name));
            }
            return Err(CheckpointError::TensorContract("names"));
        }
        index += 1;
    }
    let mut at: usize = 0;
    while at < expected.len()
        invariant
            at <= expected@.len(),
            forall|i: int|
                0 <= i < list@.len() ==> name_set(expected@).contains((#[trigger] list@[i]).name@),
            forall|i: int|
                0 <= i < at ==> exists|j: int|
                    0 <= j < list@.len() && (#[trigger] list@[j]).name@ == (
                    #[trigger] expected@[i])@,
        decreases expected@.len() - at,
    {
        let wanted = owned(expected[at]);
        let mut found = false;
        index = 0;
        while index < list.len()
            invariant
                at < expected@.len(),
                index <= list@.len(),
                wanted@ == expected@[at as int]@,
                found == exists|j: int|
                    0 <= j < index && (#[trigger] list@[j]).name@ == expected@[at as int]@,
            decreases list@.len() - index,
        {
            if list[index].name == wanted {
                assert(list@[index as int].name@ == expected@[at as int]@);
                found = true;
            }
            index += 1;
        }
        if !found {
            proof {
                let name = expected@[at as int]@;
                lemma_tensors_map(list@, name);
                assert(name_set(expected@).contains(name));
            }
            return Err(CheckpointError::TensorContract("names"));
        }
        at += 1;
    }
    proof {
        assert forall|name: Seq<char>|
            tensors_map(list@).dom().contains(name) == name_set(expected@).contains(name) by {
            lemma_tensors_map(list@, name);
            if tensors_map(list@).dom().contains(name) {
                let i = choose|i: int| 0 <= i < list@.len() && (#[trigger] list@[i]).name@ == name;
                assert(name_set(expected@).contains(list@[i].name@));
            }
            if name_set(expected@).contains(name) {
                let i = choose|i: int| 0 <= i < expected@.len() && (#[trigger] expected@[i])@ == name;
                let j = choose|j: int|
                    0 <= j < list@.len() && (#[trigger] list@[j]).name@ == expected@[i]@;
                assert(list@[j].name@ == name);
            }
        }
        assert(tensors_map(list@).dom() =~= name_set(expected@));
    }
    Ok(())
}

/// Little-endian words of bytes.
pub open spec fn le_words(data: Seq<u8>) -> Seq<u32> {
    Seq::new(
        (data.len() / 4) as nat,
        |i: int| spec_u32_from_le_bytes(data.subrange(4 * i, 4 * i + 4)),
    )
}

/// Failure of the first value that is not finite.
pub open spec fn values_fault(name: &'static str, values: Seq<u32>) -> Option<CheckpointError> {
    match crate::search::first_index(values, |bits: u32| !finite32(bits)) {
        Some(index) => Some(CheckpointError::NonFiniteTensor { name, index: index as usize }),
        None => None,
    }
}

/// Checks that every value of a tensor is finite.
pub fn validate_tensor_values(name: &'static str, values: &Vec<u32>) -> (r: Result<
    (),
    CheckpointError,
>)
    ensures
        r == checked(values_fault(name, values@)),
        r is Ok ==> crate::frame::row_finite(values@),
{
    let ghost test = |bits: u32| !finite32(bits);
    let mut index: usize = 0;
    while index < values.len()
        invariant
            index <= values@.len(),
            test == |bits: u32| !finite32(bits),
            forall|i: int| 0 <= i < index ==> !test(#[trigger] values@[i]),
        decreases values@.len() - index,
    {
        if !is_finite32(values[index]) {
            proof {
                crate::search::lemma_first_from_found(values@, test, 0, index as int);
            }
            return Err(CheckpointError::NonFiniteTensor { name, index });
        }
        index += 1;
    }
    proof {
        crate::search::lemma_first_from_none(values@, test, 0);
        assert forall|i: int| 0 <= i < values@.len() implies finite32(#[trigger] values@[i]) by {
            assert(!test(values@[i]));
        }
    }
    Ok(())
}

/// Failure of a tensor that is no finite vector of a number of single-precision values.
pub open spec fn entry_fault(
    entry: (bool, Seq<usize>, Seq<u8>),
    name: &'static str,
    count: usize,
) -> Option<CheckpointError> {
    if !entry.0 || entry.1 != seq![count] {
        Some(CheckpointError::TensorContract("dtype or shape"))
    } else if entry.2.len() % 4 != 0 {
        Some(CheckpointError::TensorContract("byte alignment"))
    } else {
        values_fault(name, le_words(entry.2))
    }
}

fn words_of(data: &Vec<u8>) -> (r: Vec<u32>)
    requires
        data@.len() % 4 == 0,
    ensures
        r@ == le_words(data@),
{
    let mut values: Vec<u32> = Vec::new();
    let mut at: usize = 0;
    while at < data.len()
        invariant
            at <= data@.len(),
            at % 4 == 0,
            data@.len() % 4 == 0,
            values@.len() == at / 4,
            forall|i: int|
                0 <= i < values@.len() ==> #[trigger] values@[i] == spec_u32_from_le_bytes(
                    data@.subrange(4 * i, 4 * i + 4),
                ),
        decreases data@.len() - at,
    {
        let part = vstd::slice::slice_subrange(data.as_slice(), at, at + 4);
        values.push(u32_from_le_bytes(part));
        at += 4;
    }
    assert(values@ =~= le_words(data@));
    values
}

/// Values of a named tensor of an archive that holds it.
pub fn decode_tensor_count(list: &Vec<ArchiveTensor>, name: &'static str, count: usize) -> (r: Result<
    Vec<u32>,
    CheckpointError,
>)
    requires
        names_distinct(list@),
        tensors_map(list@).dom().contains(name@),
    ensures
        match entry_fault(tensors_map(list@)[name@], name, count) {
            Some(error) => r == Err::<Vec<u32>, CheckpointError>(error),
            None => r matches Ok(values) && values@ == le_words(tensors_map(list@)[name@].2)
                && crate::frame::row_finite(values@),
        },
{
    let wanted = owned(name);
    let mut index: usize = 0;
    proof {
        lemma_tensors_map(list@, name@);
    }
    while index < list.len() && list[index].name != wanted
        invariant
            index <= list@.len(),
            wanted@ == name@,
            forall|i: int| 0 <= i < index ==> (#[trigger] list@[i]).name@ != name@,
        decreases list@.len() - index,
    {
        index += 1;
    }
    if index == list.len() {
        proof {
            let i = choose|i: int| 0 <= i < list@.len() && (#[trigger] list@[i]).name@ == name@;
            assert(list@[i].name@ != name@);
        }
        return Err(CheckpointError::TensorContract("names"));
    }
    let tensor = &list[index];
    assert(tensors_map(list@)[name@] == entry_of(*tensor));
    if !tensor.single || tensor.shape.len() != 1 || tensor.shape[0] != count {
        proof {
            if tensor.shape@.len() == 1 {
                if tensor.shape@ == seq![count] {
                    assert(tensor.shape@[0] == seq![count][0]);
                }
            }
        }
        return Err(CheckpointError::TensorContract("dtype or shape"));
    }
    assert(tensor.shape@ =~= seq![count]);
    if tensor.data.len() % 4 != 0 {
        return Err(CheckpointError::TensorContract("byte alignment"));
    }
    let values = words_of(&tensor.data);
    match validate_tensor_values(name, &values) {
        Ok(()) => Ok(values),
        Err(error) => Err(error),
    }
}

/// Bytes of values, one behind the other.
pub fn encode_f32(values: &Vec<u32>) -> (r: Vec<u8>)
    ensures
        r@ == words_bytes(values@),
{
    let mut writer = ManifestWriter::new();
    let mut index: usize = 0;
    assert(values@.skip(0) =~= values@);
    assert(writer.bytes@ + words_bytes(values@) =~= words_bytes(values@));
    while index < values.len()
        invariant
            index <= values@.len(),
            writer.bytes@ + words_bytes(values@.skip(index as int)) == words_bytes(values@),
        decreases values@.len() - index,
    {
        let ghost rest = values@.skip(index as int);
        let ghost head = writer.bytes@;
        assert(rest.drop_first() =~= values@.skip(index + 1));
        writer.u32(values[index]);
        assert(writer.bytes@ + words_bytes(values@.skip(index + 1)) =~= head + words_bytes(rest));
        index += 1;
    }
    assert(writer.bytes@ + Seq::<u8>::empty() =~= writer.bytes@);
    writer.bytes
}

/// Values read back from their bytes are the written values.
pub proof fn encoded_values_read_back(values: Seq<u32>)
    ensures
        words_bytes(values).len() == 4 * values.len(),
        le_words(words_bytes(values)) == values,
    decreases values.len(),
{
    lemma_auto_spec_u32_to_from_le_bytes();
    if values.len() > 0 {
        let rest = values.drop_first();
        encoded_values_read_back(rest);
        let head = spec_u32_to_le_bytes(values[0]);
        let tail = words_bytes(rest);
        let all = words_bytes(values);
        assert(all == head + tail);
        assert forall|i: int| 0 <= i < values.len() implies #[trigger] le_words(all)[i]
            == values[i] by {
            if i == 0 {
                assert(all.subrange(0, 4) =~= head);
            } else {
                assert(all.subrange(4 * i, 4 * i + 4) =~= tail.subrange(
                    4 * (i - 1),
                    4 * (i - 1) + 4,
                ));
                assert(le_words(tail)[i - 1] == rest[i - 1]);
            }
        }
        assert(le_words(all) =~= values);
    } else {
        assert(le_words(words_bytes(values)) =~= values);
    }
}

/// One single-precision vector as a tensor of an archive.
pub fn vector_tensor(name: &'static str, values: &Vec<u32>) -> (r: ArchiveTensor)
    ensures
        r.name@ == name@,
        entry_of(r) == (true, seq![values@.len() as usize], words_bytes(values@)),
{
    let shape: Vec<usize> = vec![values.len()];
    assert(shape@ =~= seq![values@.len() as usize]);
    ArchiveTensor { name: owned(name), single: true, shape, data: encode_f32(values) }
}

/// Writes tensors and texts as an archive.
pub fn serialize_named_tensors(list: &Vec<ArchiveTensor>, texts: Option<Vec<(String, String)>>) -> (r:
    Result<Vec<u8>, CheckpointError>)
    requires
        writable(list@, texts),
    ensures
        r matches Ok(bytes) && header_bounded(bytes@) && archive_tensors(bytes@) == Some(
            tensors_map(list@),
        ) && archive_metadata(bytes@) == Some(
            match texts {
                Some(pairs) => Some(pairs_map(pairs@)),
                None => None,
            },
        ),
{
    match write_archive(list, texts) {
        Ok(bytes) => Ok(bytes),
        Err(text) => Err(CheckpointError::Backend(text)),
    }
}

} // verus!
