//! The input channel: bytes on their way from the host to the guest, first in,
//! first out.

use std::collections::VecDeque;
use vstd::prelude::*;

verus! {

/// Input device.  Producers append bytes with
/// [`queue_input_bytes`](ConsoleInput::queue_input_bytes); the receive path
/// takes them from the front.  The channel has no bound.
pub struct ConsoleInput {
    in_buffer: VecDeque<u8>,
}

impl View for ConsoleInput {
    type V = Seq<u8>;

    /// The buffered bytes, oldest first.
    closed spec fn view(&self) -> Seq<u8> {
        self.in_buffer@
    }
}

impl ConsoleInput {
    /// An empty channel.
    pub fn new() -> (input: ConsoleInput)
        ensures
            input@ == Seq::<u8>::empty(),
    {
        ConsoleInput { in_buffer: VecDeque::new() }
    }

    /// Appends `input` behind the bytes already buffered.
    pub fn queue_input_bytes(&mut self, input: &[u8])
        ensures
            final(self)@ == old(self)@ + input@,
    {
        let n = input.len();
        let mut i: usize = 0;
        while i < n
            invariant
                n == input@.len(),
                i <= n,
                self@ == old(self)@ + input@.take(i as int),
            decreases n - i,
        {
            self.in_buffer.push_back(input[i]);
            i += 1;
        }
    }

    /// The number of buffered bytes.
    pub fn len(&self) -> (n: usize)
        ensures
            n == self@.len(),
    {
        self.in_buffer.len()
    }

    /// Whether nothing is buffered.
    pub fn is_empty(&self) -> (empty: bool)
        ensures
            empty == (self@.len() == 0),
    {
        self.in_buffer.len() == 0
    }

    /// Removes the oldest `n` bytes, or all of them if fewer are buffered, and
    /// returns them in order.
    pub fn take_front(&mut self, n: usize) -> (taken: Vec<u8>)
        ensures
            taken@ == old(self)@.take(vstd::math::min(n as int, old(self)@.len() as int)),
            final(self)@ == old(self)@.skip(vstd::math::min(n as int, old(self)@.len() as int)),
    {
        let mut taken: Vec<u8> = Vec::new();
        let mut i: usize = 0;
        while i < n && self.in_buffer.len() > 0
            invariant
                i <= n,
                i <= old(self)@.len(),
                taken@ == old(self)@.take(i as int),
                self@ == old(self)@.skip(i as int),
            decreases n - i,
        {
            if let Some(byte) = self.in_buffer.pop_front() {
                taken.push(byte);
            }
            i += 1;
        }
        taken
    }
}

} // verus!
