//! Compact storage of behavioral targets: one bit per mask entry, one byte per class.
use crate::action::StructuredAction;
use crate::behavioral_target::{
    labeled_targets_are_valid, labels, oversize, BehavioralTarget, HeadTarget, TrainingPrefix,
};
use crate::space::ActionSpace;
use vstd::prelude::*;

verus! {

/// Policy heads of a target.
pub const MODEL_BEHAVIORAL_HEADS: usize = 12;
/// Bytes that hold all mask entries.
pub const BEHAVIORAL_MASK_BYTES: usize = 37;

/// A target with its masks packed into bits.
#[derive(Clone, Debug)]
pub struct PackedBehavioralTarget {
    pub active: u16,
    pub selected: [u8; MODEL_BEHAVIORAL_HEADS],
    pub masks: [u8; BEHAVIORAL_MASK_BYTES],
    pub prefix: TrainingPrefix,
}

/// Bit of a byte, counted from the lowest.
pub open spec fn bit_of(byte: u8, bit: u8) -> bool {
    byte & (1u8 << bit) != 0
}

/// Bit of a byte string, counted from the lowest bit of the first byte.
pub open spec fn bit_at(bytes: Seq<u8>, bit: int) -> bool {
    bit_of(bytes[bit / 8], (bit % 8) as u8)
}

/// Bit of a word, counted from the lowest.
pub open spec fn word_bit(word: u16, bit: u16) -> bool {
    word & (1u16 << bit) != 0
}

proof fn lemma_set_bit(byte: u8, set: u8, other: u8)
    requires
        set < 8,
        other < 8,
    ensures
        bit_of(byte | (1u8 << set), set),
        other != set ==> bit_of(byte | (1u8 << set), other) == bit_of(byte, other),
{
    assert((byte | (1u8 << set)) & (1u8 << set) != 0) by (bit_vector)
        requires
            set < 8,
    ;
    assert(other != set ==> ((byte | (1u8 << set)) & (1u8 << other) != 0) == (byte & (1u8 << other)
        != 0)) by (bit_vector)
        requires
            set < 8,
            other < 8,
    ;
}

proof fn lemma_set_word_bit(word: u16, set: u16, other: u16)
    requires
        set < 16,
        other < 16,
    ensures
        word_bit(word | (1u16 << set), set),
        other != set ==> word_bit(word | (1u16 << set), other) == word_bit(word, other),
{
    assert((word | (1u16 << set)) & (1u16 << set) != 0) by (bit_vector)
        requires
            set < 16,
    ;
    assert(other != set ==> ((word | (1u16 << set)) & (1u16 << other) != 0) == (word & (1u16
        << other) != 0)) by (bit_vector)
        requires
            set < 16,
            other < 16,
    ;
}

proof fn lemma_zero_bits(bit: u8, word: u16)
    ensures
        !bit_of(0, bit),
        !word_bit(0, word),
{
    assert(0u8 & (1u8 << bit) == 0) by (bit_vector);
    assert(0u16 & (1u16 << word) == 0) by (bit_vector);
}

/// Whether a packed target holds a head at a head index and a bit offset.
pub open spec fn holds_head<const WIDTH: usize>(
    packed: PackedBehavioralTarget,
    head: HeadTarget<WIDTH>,
    index: int,
    offset: int,
) -> bool {
    &&& word_bit(packed.active, index as u16) == head.active
    &&& packed.selected@[index] == head.selected as u8
    &&& forall|i: int|
        0 <= i < WIDTH ==> bit_at(packed.masks@, offset + i) == #[trigger] head.mask@[i]
}

/// Whether a packed target holds every head of a target.
pub open spec fn packs(packed: PackedBehavioralTarget, target: BehavioralTarget) -> bool {
    &&& holds_head(packed, target.kind, 0, 0)
    &&& holds_head(packed, target.controlled, 1, 16)
    &&& holds_head(packed, target.ability, 2, 18)
    &&& holds_head(packed, target.item, 3, 26)
    &&& holds_head(packed, target.swap, 4, 41)
    &&& holds_head(packed, target.learn, 5, 56)
    &&& holds_head(packed, target.shop, 6, 62)
    &&& holds_head(packed, target.loot, 7, 126)
    &&& holds_head(packed, target.target_mode, 8, 142)
    &&& holds_head(packed, target.put_mode, 9, 145)
    &&& holds_head(packed, target.entity_pointer, 10, 147)
    &&& holds_head(packed, target.point_pointer, 11, 243)
    &&& packed.prefix == target.prefix
}

/// Whether nothing is packed from a head index and a bit offset on.
spec fn clear_from(packed: PackedBehavioralTarget, index: int, offset: int) -> bool {
    &&& forall|i: u16| index <= i < 12 ==> !#[trigger] word_bit(packed.active, i)
    &&& forall|b: int| offset <= b < 296 ==> !#[trigger] bit_at(packed.masks@, b)
}

/// Whether everything before a head index and a bit offset is the same.
spec fn same_before(
    left: PackedBehavioralTarget,
    right: PackedBehavioralTarget,
    index: int,
    offset: int,
) -> bool {
    &&& left.prefix == right.prefix
    &&& forall|i: u16|
        0 <= i < index ==> #[trigger] word_bit(left.active, i) == word_bit(right.active, i)
    &&& forall|i: int| 0 <= i < index ==> #[trigger] left.selected@[i] == right.selected@[i]
    &&& forall|b: int|
        0 <= b < offset ==> #[trigger] bit_at(left.masks@, b) == bit_at(right.masks@, b)
}

proof fn lemma_kept_head<const WIDTH: usize>(
    before: PackedBehavioralTarget,
    after: PackedBehavioralTarget,
    head: HeadTarget<WIDTH>,
    index: int,
    offset: int,
    next_index: int,
    next_offset: int,
)
    requires
        same_before(before, after, next_index, next_offset),
        holds_head(before, head, index, offset),
        0 <= index < next_index <= 12,
        0 <= offset,
        offset + WIDTH <= next_offset <= 296,
    ensures
        holds_head(after, head, index, offset),
{
    assert(word_bit(before.active, index as u16) == word_bit(after.active, index as u16));
    assert(before.selected@[index] == after.selected@[index]);
    assert forall|i: int| 0 <= i < WIDTH implies bit_at(after.masks@, offset + i)
        == #[trigger] head.mask@[i] by {
        assert(bit_at(before.masks@, offset + i) == bit_at(after.masks@, offset + i));
    }
}

fn pack_head<const WIDTH: usize>(
    head: &HeadTarget<WIDTH>,
    index: usize,
    bit: usize,
    packed: &mut PackedBehavioralTarget,
)
    requires
        index < MODEL_BEHAVIORAL_HEADS,
        bit + WIDTH <= 291,
        clear_from(*old(packed), index as int, bit as int),
    ensures
        holds_head(*final(packed), *head, index as int, bit as int),
        clear_from(*final(packed), index + 1, bit + WIDTH),
        same_before(*old(packed), *final(packed), index as int, bit as int),
{
    let ghost start = *packed;
    assert(!word_bit(packed.active, index as u16));
    if head.active {
        let shift: u16 = index as u16;
        proof {
            assert forall|i: u16| 0 <= i < 12 implies #[trigger] word_bit(
                start.active | (1u16 << shift),
                i,
            ) == (i == shift || word_bit(start.active, i)) by {
                lemma_set_word_bit(start.active, shift, i);
            }
        }
        packed.active = packed.active | (1u16 << shift);
    }
    packed.selected[index] = head.selected as u8;
    let mut at: usize = 0;
    while at < WIDTH
        invariant
            at <= WIDTH,
            index < MODEL_BEHAVIORAL_HEADS,
            bit + WIDTH <= 291,
            packed.prefix == start.prefix,
            packed.selected@ == start.selected@.update(index as int, head.selected as u8),
            forall|i: u16|
                0 <= i < 12 ==> #[trigger] word_bit(packed.active, i) == (word_bit(start.active, i)
                    || (i == index && head.active)),
            forall|b: int|
                bit + at <= b < 296 ==> !#[trigger] bit_at(packed.masks@, b),
            forall|b: int|
                0 <= b < bit ==> #[trigger] bit_at(packed.masks@, b) == bit_at(start.masks@, b),
            forall|i: int|
                0 <= i < at ==> bit_at(packed.masks@, bit + i) == #[trigger] head.mask@[i],
        decreases WIDTH - at,
    {
        let ghost before = packed.masks@;
        let position: usize = bit + at;
        if head.mask[at] {
            let byte: usize = position / 8;
            let shift: u8 = (position % 8) as u8;
            proof {
                assert forall|b: int| 0 <= b < 296 implies #[trigger] bit_at(
                    before.update(byte as int, before[byte as int] | (1u8 << shift)),
                    b,
                ) == (b == position || bit_at(before, b)) by {
                    lemma_set_bit(before[byte as int], shift, (b % 8) as u8);
                }
            }
            packed.masks[byte] = packed.masks[byte] | (1u8 << shift);
        } else {
            assert(!bit_at(before, position as int));
        }
        proof {
            assert forall|i: int| 0 <= i < at + 1 implies bit_at(packed.masks@, bit + i)
                == #[trigger] head.mask@[i] by {
                if i < at {
                    assert(bit_at(before, bit + i) == head.mask@[i]);
                }
            }
        }
        at += 1;
    }
}

fn unpack_head<const WIDTH: usize>(packed: &PackedBehavioralTarget, index: usize, bit: usize) -> (
head: HeadTarget<WIDTH>)
    requires
        index < MODEL_BEHAVIORAL_HEADS,
        bit + WIDTH <= 291,
    ensures
        holds_head(*packed, head, index as int, bit as int),
        head.selected < 256,
{
    let mut mask: [bool; WIDTH] = [false;WIDTH];
    let mut at: usize = 0;
    while at < WIDTH
        invariant
            at <= WIDTH,
            bit + WIDTH <= 291,
            mask@.len() == WIDTH,
            forall|i: int|
                0 <= i < at ==> bit_at(packed.masks@, bit + i) == #[trigger] mask@[i],
        decreases WIDTH - at,
    {
        let position: usize = bit + at;
        let shift: u8 = (position % 8) as u8;
        mask[at] = packed.masks[position / 8] & (1u8 << shift) != 0;
        at += 1;
    }
    let shift: u16 = index as u16;
    HeadTarget {
        active: packed.active & (1u16 << shift) != 0,
        mask,
        selected: packed.selected[index] as usize,
    }
}

impl BehavioralTarget {
    /// Packs masks into bits and classes into bytes.
    pub fn pack(&self) -> (packed: PackedBehavioralTarget)
        ensures
            packs(packed, *self),
    {
        let mut packed = PackedBehavioralTarget {
            active: 0,
            selected: [0;MODEL_BEHAVIORAL_HEADS],
            masks: [0;BEHAVIORAL_MASK_BYTES],
            prefix: self.prefix,
        };
        proof {
            assert forall|i: u16| 0 <= i < 12 implies !#[trigger] word_bit(packed.active, i) by {
                lemma_zero_bits(0, i);
            }
            assert forall|b: int| 0 <= b < 296 implies !#[trigger] bit_at(packed.masks@, b) by {
                lemma_zero_bits((b % 8) as u8, 0);
            }
        }
        pack_head(&self.kind, 0, 0, &mut packed);
        let ghost p0 = packed;
        pack_head(&self.controlled, 1, 16, &mut packed);
        let ghost p1 = packed;
        pack_head(&self.ability, 2, 18, &mut packed);
        let ghost p2 = packed;
        pack_head(&self.item, 3, 26, &mut packed);
        let ghost p3 = packed;
        pack_head(&self.swap, 4, 41, &mut packed);
        let ghost p4 = packed;
        pack_head(&self.learn, 5, 56, &mut packed);
        let ghost p5 = packed;
        pack_head(&self.shop, 6, 62, &mut packed);
        let ghost p6 = packed;
        pack_head(&self.loot, 7, 126, &mut packed);
        let ghost p7 = packed;
        pack_head(&self.target_mode, 8, 142, &mut packed);
        let ghost p8 = packed;
        pack_head(&self.put_mode, 9, 145, &mut packed);
        let ghost p9 = packed;
        pack_head(&self.entity_pointer, 10, 147, &mut packed);
        let ghost p10 = packed;
        pack_head(&self.point_pointer, 11, 243, &mut packed);
        proof {
            lemma_same_through(p9, p10, packed, 10, 147, 11, 243);
            lemma_same_through(p8, p9, packed, 9, 145, 10, 147);
            lemma_same_through(p7, p8, packed, 8, 142, 9, 145);
            lemma_same_through(p6, p7, packed, 7, 126, 8, 142);
            lemma_same_through(p5, p6, packed, 6, 62, 7, 126);
            lemma_same_through(p4, p5, packed, 5, 56, 6, 62);
            lemma_same_through(p3, p4, packed, 4, 41, 5, 56);
            lemma_same_through(p2, p3, packed, 3, 26, 4, 41);
            lemma_same_through(p1, p2, packed, 2, 18, 3, 26);
            lemma_same_through(p0, p1, packed, 1, 16, 2, 18);
            lemma_kept_head(p0, packed, self.kind, 0, 0, 1, 16);
            lemma_kept_head(p1, packed, self.controlled, 1, 16, 2, 18);
            lemma_kept_head(p2, packed, self.ability, 2, 18, 3, 26);
            lemma_kept_head(p3, packed, self.item, 3, 26, 4, 41);
            lemma_kept_head(p4, packed, self.swap, 4, 41, 5, 56);
            lemma_kept_head(p5, packed, self.learn, 5, 56, 6, 62);
            lemma_kept_head(p6, packed, self.shop, 6, 62, 7, 126);
            lemma_kept_head(p7, packed, self.loot, 7, 126, 8, 142);
            lemma_kept_head(p8, packed, self.target_mode, 8, 142, 9, 145);
            lemma_kept_head(p9, packed, self.put_mode, 9, 145, 10, 147);
            lemma_kept_head(p10, packed, self.entity_pointer, 10, 147, 11, 243);
        }
        packed
    }
}

proof fn lemma_same_through(
    first: PackedBehavioralTarget,
    second: PackedBehavioralTarget,
    last: PackedBehavioralTarget,
    index: int,
    offset: int,
    next_index: int,
    next_offset: int,
)
    requires
        same_before(first, second, index, offset),
        same_before(second, last, next_index, next_offset),
        index <= next_index,
        offset <= next_offset,
    ensures
        same_before(first, last, index, offset),
{
    assert forall|i: u16| 0 <= i < index implies #[trigger] word_bit(first.active, i) == word_bit(
        last.active,
        i,
    ) by {
        assert(word_bit(second.active, i) == word_bit(last.active, i));
    }
    assert forall|b: int| 0 <= b < offset implies #[trigger] bit_at(first.masks@, b) == bit_at(
        last.masks@,
        b,
    ) by {
        assert(bit_at(second.masks@, b) == bit_at(last.masks@, b));
    }
}

/// Every class fits one byte, as the classes of a valid target do.
pub open spec fn classes_fit(target: BehavioralTarget) -> bool {
    &&& target.kind.selected < 256
    &&& target.controlled.selected < 256
    &&& target.ability.selected < 256
    &&& target.item.selected < 256
    &&& target.swap.selected < 256
    &&& target.learn.selected < 256
    &&& target.shop.selected < 256
    &&& target.loot.selected < 256
    &&& target.target_mode.selected < 256
    &&& target.put_mode.selected < 256
    &&& target.entity_pointer.selected < 256
    &&& target.point_pointer.selected < 256
}

impl PackedBehavioralTarget {
    /// Target that was packed.
    pub fn unpack(&self) -> (target: BehavioralTarget)
        ensures
            packs(*self, target),
            classes_fit(target),
    {
        BehavioralTarget {
            kind: unpack_head(self, 0, 0),
            controlled: unpack_head(self, 1, 16),
            ability: unpack_head(self, 2, 18),
            item: unpack_head(self, 3, 26),
            swap: unpack_head(self, 4, 41),
            learn: unpack_head(self, 5, 56),
            shop: unpack_head(self, 6, 62),
            loot: unpack_head(self, 7, 126),
            target_mode: unpack_head(self, 8, 142),
            put_mode: unpack_head(self, 9, 145),
            entity_pointer: unpack_head(self, 10, 147),
            point_pointer: unpack_head(self, 11, 243),
            prefix: self.prefix,
        }
    }
}

proof fn lemma_head_unique<const WIDTH: usize>(
    packed: PackedBehavioralTarget,
    left: HeadTarget<WIDTH>,
    right: HeadTarget<WIDTH>,
    index: int,
    offset: int,
)
    requires
        holds_head(packed, left, index, offset),
        holds_head(packed, right, index, offset),
        left.selected < 256,
        right.selected < 256,
    ensures
        left == right,
{
    assert(left.mask@.len() == WIDTH);
    assert(right.mask@.len() == WIDTH);
    assert forall|i: int| 0 <= i < WIDTH implies left.mask@[i] == right.mask@[i] by {
        assert(bit_at(packed.masks@, offset + i) == left.mask@[i]);
    }
    assert(left.mask =~= right.mask);
}

/// A packed target stands for one target: unpacking what was packed gives it back.
pub proof fn unpacking_inverts_packing(
    packed: PackedBehavioralTarget,
    left: BehavioralTarget,
    right: BehavioralTarget,
)
    requires
        packs(packed, left),
        packs(packed, right),
        classes_fit(left),
        classes_fit(right),
    ensures
        left == right,
{
    lemma_head_unique(packed, left.kind, right.kind, 0, 0);
    lemma_head_unique(packed, left.controlled, right.controlled, 1, 16);
    lemma_head_unique(packed, left.ability, right.ability, 2, 18);
    lemma_head_unique(packed, left.item, right.item, 3, 26);
    lemma_head_unique(packed, left.swap, right.swap, 4, 41);
    lemma_head_unique(packed, left.learn, right.learn, 5, 56);
    lemma_head_unique(packed, left.shop, right.shop, 6, 62);
    lemma_head_unique(packed, left.loot, right.loot, 7, 126);
    lemma_head_unique(packed, left.target_mode, right.target_mode, 8, 142);
    lemma_head_unique(packed, left.put_mode, right.put_mode, 9, 145);
    lemma_head_unique(packed, left.entity_pointer, right.entity_pointer, 10, 147);
    lemma_head_unique(packed, left.point_pointer, right.point_pointer, 11, 243);
}

/// The labels of every legal action survive packing.
pub proof fn labels_survive_packing(
    space: ActionSpace,
    action: StructuredAction,
    target: BehavioralTarget,
    packed: PackedBehavioralTarget,
    unpacked: BehavioralTarget,
)
    requires
        space.wf(),
        space.legal(action),
        oversize(space, action) is None,
        labels(target, space, action),
        packs(packed, target),
        packs(packed, unpacked),
        classes_fit(unpacked),
    ensures
        unpacked == target,
{
    labeled_targets_are_valid(target, space, action);
    unpacking_inverts_packing(packed, target, unpacked);
}

} // verus!
