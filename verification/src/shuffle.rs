//! Deterministic SplitMix64 Fisher-Yates ordering.
use crate::imitation_error::ImitationError;
use vstd::prelude::*;

verus! {

/// Maximum epoch, optimizer-step, and global-update counter value.
pub const MAX_TRAINING_COUNTER: u64 = 1_000_000_000;

/// Increment of the generator state.
pub const SPLIT_MIX_INCREMENT: u64 = 0x9e37_79b9_7f4a_7c15;

/// Owned SplitMix64 state used only for deterministic Fisher-Yates ordering.
#[derive(Clone, Copy, Debug, PartialEq, Eq, Structural)]
pub struct ShuffleState {
    pub state: u64,
    pub draws: u64,
}

/// Generator state after one draw.
pub open spec fn advanced(state: u64) -> u64 {
    state.wrapping_add(SPLIT_MIX_INCREMENT)
}

/// Generator state after a number of draws.
pub open spec fn advanced_by(state: u64, draws: nat) -> u64
    decreases draws,
{
    if draws == 0 {
        state
    } else {
        advanced_by(advanced(state), (draws - 1) as nat)
    }
}

/// Value drawn from an advanced generator state.
pub open spec fn mixed(state: u64) -> u64 {
    let first = (state ^ (state >> 30)).wrapping_mul(0xbf58_476d_1ce4_e5b9u64);
    let second = (first ^ (first >> 27)).wrapping_mul(0x94d0_49bb_1331_11ebu64);
    second ^ (second >> 31)
}

pub open spec fn swapped(values: Seq<usize>, left: int, right: int) -> Seq<usize> {
    values.update(left, values[right]).update(right, values[left])
}

/// Fisher-Yates order of the first `count` values, from the last down.
pub open spec fn shuffled(values: Seq<usize>, state: u64, count: nat) -> Seq<usize>
    decreases count,
{
    if count < 2 {
        values
    } else {
        let next = advanced(state);
        let index = count - 1;
        let selected = mixed(next) as int % (count as int);
        shuffled(swapped(values, index, selected), next, (count - 1) as nat)
    }
}

/// Number of draws that ordering a list takes.
pub open spec fn draws_for(count: nat) -> nat {
    if count == 0 {
        0
    } else {
        (count - 1) as nat
    }
}

pub open spec fn draw_overflow() -> ImitationError {
    ImitationError::CounterOverflow { counter: "shuffle draw", maximum: MAX_TRAINING_COUNTER }
}

impl ShuffleState {
    pub fn new(seed: u64) -> (r: Self)
        ensures
            r == (ShuffleState { state: seed, draws: 0 }),
    {
        ShuffleState { state: seed, draws: 0 }
    }

    pub fn state(self) -> (r: u64)
        ensures
            r == self.state,
    {
        self.state
    }

    pub fn draws(self) -> (r: u64)
        ensures
            r == self.draws,
    {
        self.draws
    }

    /// Draws one value; the draw counter never exceeds its maximum.
    pub fn next(&mut self) -> (r: Result<u64, ImitationError>)
        ensures
            r is Ok <==> old(self).draws < MAX_TRAINING_COUNTER,
            match r {
                Ok(value) => {
                    &&& final(self).draws == old(self).draws + 1
                    &&& final(self).state == advanced(old(self).state)
                    &&& value == mixed(advanced(old(self).state))
                },
                Err(error) => *final(self) == *old(self) && error == draw_overflow(),
            },
    {
        if self.draws >= MAX_TRAINING_COUNTER {
            return Err(
                ImitationError::CounterOverflow {
                    counter: "shuffle draw",
                    maximum: MAX_TRAINING_COUNTER,
                },
            );
        }
        self.draws = self.draws + 1;
        self.state = self.state.wrapping_add(SPLIT_MIX_INCREMENT);
        let value: u64 = self.state;
        let first: u64 = (value ^ (value >> 30)).wrapping_mul(0xbf58_476d_1ce4_e5b9);
        let second: u64 = (first ^ (first >> 27)).wrapping_mul(0x94d0_49bb_1331_11eb);
        Ok(second ^ (second >> 31))
    }

    /// Orders a list; nothing changes when the draws would pass the maximum.
    pub fn shuffle(&mut self, values: &mut Vec<usize>) -> (r: Result<(), ImitationError>)
        ensures
            r is Ok <==> old(self).draws + draws_for(old(values)@.len()) <= MAX_TRAINING_COUNTER,
            match r {
                Ok(()) => {
                    &&& final(values)@ == shuffled(
                        old(values)@,
                        old(self).state,
                        old(values)@.len(),
                    )
                    &&& final(self).draws == old(self).draws + draws_for(old(values)@.len())
                    &&& final(self).state == advanced_by(
                        old(self).state,
                        draws_for(old(values)@.len()),
                    )
                },
                Err(error) => {
                    &&& *final(self) == *old(self)
                    &&& final(values)@ == old(values)@
                    &&& error == draw_overflow()
                },
            },
    {
        let required: u64 = if values.len() == 0 {
            0
        } else {
            (values.len() - 1) as u64
        };
        assert(required == draws_for(values@.len()));
        let fits = match self.draws.checked_add(required) {
            None => false,
            Some(total) => total <= MAX_TRAINING_COUNTER,
        };
        if !fits {
            return Err(
                ImitationError::CounterOverflow {
                    counter: "shuffle draw",
                    maximum: MAX_TRAINING_COUNTER,
                },
            );
        }
        let ghost input = values@;
        let ghost begin = *self;
        let mut count: usize = values.len();
        while count >= 2
            invariant
                values@.len() == input.len(),
                count <= input.len(),
                begin.draws + draws_for(input.len()) <= MAX_TRAINING_COUNTER,
                self.draws + draws_for(count as nat) == begin.draws + draws_for(input.len()),
                shuffled(values@, self.state, count as nat) == shuffled(
                    input,
                    begin.state,
                    input.len(),
                ),
                advanced_by(self.state, draws_for(count as nat)) == advanced_by(
                    begin.state,
                    draws_for(input.len()),
                ),
            decreases count,
        {
            let index: usize = count - 1;
            let ghost before = values@;
            let drawn: u64 = match self.next() {
                Ok(value) => value,
                Err(error) => {
                    return Err(error);
                },
            };
            let selected: usize = (drawn % (count as u64)) as usize;
            let high: usize = values[index];
            let low: usize = values[selected];
            values.set(index, low);
            values.set(selected, high);
            assert(values@ =~= swapped(before, index as int, selected as int));
            count -= 1;
        }
        Ok(())
    }
}

proof fn lemma_swapped_multiset(values: Seq<usize>, left: int, right: int)
    requires
        0 <= left < values.len(),
        0 <= right < values.len(),
    ensures
        swapped(values, left, right).to_multiset() =~= values.to_multiset(),
{
    let first = values.update(left, values[right]);
    vstd::seq_lib::to_multiset_update(values, left, values[right]);
    vstd::seq_lib::to_multiset_update(first, right, values[left]);
    broadcast use vstd::seq_lib::group_to_multiset_ensures;
    assert(values.contains(values[left]));
    assert(values.contains(values[right]));
    assert(first[right] == values[right]);
    let all = values.to_multiset();
    assert(first.to_multiset() =~= all.insert(values[right]).remove(values[left]));
    assert(swapped(values, left, right).to_multiset() =~= first.to_multiset().insert(
        values[left],
    ).remove(values[right]));
}

/// Ordering a list only permutes it.
pub proof fn shuffling_permutes(values: Seq<usize>, state: u64, count: nat)
    requires
        count <= values.len(),
    ensures
        shuffled(values, state, count).len() == values.len(),
        shuffled(values, state, count).to_multiset() == values.to_multiset(),
    decreases count,
{
    if count >= 2 {
        let next = advanced(state);
        let index = count - 1;
        let selected = mixed(next) as int % (count as int);
        assert(0 <= selected < count);
        lemma_swapped_multiset(values, index, selected);
        shuffling_permutes(swapped(values, index, selected), next, (count - 1) as nat);
    }
}

} // verus!
