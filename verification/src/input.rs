//! Input handling: the latest-wins shared slot the sampler republishes into,
//! and the decoding of raw key events into game inputs.

use vstd::prelude::*;

use crate::entity::Input;

verus! {

/// A single-value latest-wins cell. A writer overwrites whatever is stored —
/// nothing is ever queued — and the consumer takes the stored value at most
/// once, leaving the slot empty. The embedding application shares one slot
/// between the input-sampling thread and the tick loop, under a lock that is
/// never held across a blocking wait.
pub struct InputSlot {
    value: Input,
}

impl View for InputSlot {
    type V = Input;

    closed spec fn view(&self) -> Input {
        self.value
    }
}

/// The write transition of a slot: what [`InputSlot::write`] guarantees.
/// The stored value after a write is the written value, whatever was stored
/// before.
pub open spec fn written(pre: InputSlot, input: Input, post: InputSlot) -> bool {
    post@ == input
}

impl InputSlot {
    /// An empty slot.
    pub fn new() -> (s: InputSlot)
        ensures
            s@ == Input::Idle,
    {
        InputSlot { value: Input::Idle }
    }

    /// Publish an input: overwrite whatever the slot held.
    pub fn write(&mut self, input: Input)
        ensures
            written(*old(self), input, *final(self)),
    {
        self.value = input;
    }

    /// Consume the stored input: read it and reset the slot, so each
    /// published input is consumed by at most one tick.
    pub fn take(&mut self) -> (r: Input)
        ensures
            r == old(self)@,
            final(self)@ == Input::Idle,
    {
        let value = self.value;
        self.value = Input::Idle;
        value
    }
}

/// Latest-wins: when the slot is written twice between two reads, the second
/// write erases the first, and the next take observes only the later value,
/// whatever the slot held to begin with.
pub proof fn lemma_latest_wins(
    pre: InputSlot,
    first: Input,
    mid: InputSlot,
    second: Input,
    post: InputSlot,
)
    requires
        written(pre, first, mid),
        written(mid, second, post),
    ensures
        post@ == second,
{
}

/// A raw key event, reduced to what the decoder reads: the arrow keys, a
/// printable character, or anything else.
#[derive(Copy, Clone, Debug, PartialEq, Eq, Structural)]
pub enum Key {
    Up,
    Down,
    Left,
    Right,
    Char(char),
    Other,
}

/// The input a raw key event decodes to: `q` and ctrl-c quit; the arrow keys
/// and `wasd` move; anything else is no input.
pub open spec fn spec_decode(key: Key, ctrl: bool) -> Input {
    if key == Key::Char('q') || (ctrl && key == Key::Char('c')) {
        Input::Quit
    } else if key == Key::Up || key == Key::Char('w') {
        Input::Up
    } else if key == Key::Down || key == Key::Char('s') {
        Input::Down
    } else if key == Key::Left || key == Key::Char('a') {
        Input::Left
    } else if key == Key::Right || key == Key::Char('d') {
        Input::Right
    } else {
        Input::Idle
    }
}

/// Decode a raw key event into the game input it stands for.
pub fn decode_input(key: Key, ctrl: bool) -> (r: Input)
    ensures
        r == spec_decode(key, ctrl),
{
    match key {
        Key::Char('q') => Input::Quit,
        Key::Char('c') if ctrl => Input::Quit,
        Key::Up | Key::Char('w') => Input::Up,
        Key::Down | Key::Char('s') => Input::Down,
        Key::Left | Key::Char('a') => Input::Left,
        Key::Right | Key::Char('d') => Input::Right,
        _ => Input::Idle,
    }
}

} // verus!
