//! A virtqueue as the device side sees it: the descriptor chains that the
//! driver has made available, in the order it offered them, and the used ring
//! on which the device reports what it has finished with.

use std::collections::VecDeque;
use vstd::prelude::*;

verus! {

/// One guest buffer offered to the device: the index of its head descriptor,
/// the guest physical address where it starts, and its length in bytes.
#[derive(Clone, Copy, Debug, PartialEq, Eq, Structural)]
pub struct DescriptorChain {
    pub index: u16,
    pub addr: u64,
    pub len: u32,
}

/// One entry of the used ring: the chain that the device has finished with and
/// the number of bytes it processed in it.
#[derive(Clone, Copy, Debug, PartialEq, Eq, Structural)]
pub struct UsedElem {
    pub index: u16,
    pub len: u32,
}

/// The abstract state of a [`Queue`].
pub struct QueueView {
    /// The largest number of chains that can be available at one time.
    pub max_size: nat,
    /// The chains that the device has not fetched yet, oldest first.
    pub avail: Seq<DescriptorChain>,
    /// The used ring, oldest entry first.
    pub used: Seq<UsedElem>,
}

/// A virtqueue.  The driver offers chains, the device fetches them in the same
/// order and reports each on the used ring when it is done with it.
pub struct Queue {
    max_size: u16,
    avail: VecDeque<DescriptorChain>,
    used: Vec<UsedElem>,
}

impl View for Queue {
    type V = QueueView;

    closed spec fn view(&self) -> QueueView {
        QueueView { max_size: self.max_size as nat, avail: self.avail@, used: self.used@ }
    }
}

impl Queue {
    /// The ring never holds more available chains than its size.  Every
    /// operation keeps a queue within its ring.
    pub open spec fn wf(&self) -> bool {
        self@.avail.len() <= self@.max_size
    }

    /// An empty queue whose ring holds up to `max_size` chains.
    pub fn new(max_size: u16) -> (q: Queue)
        ensures
            q@ == (QueueView { max_size: max_size as nat, avail: Seq::empty(), used: Seq::empty() }),
            q.wf(),
    {
        Queue { max_size, avail: VecDeque::new(), used: Vec::new() }
    }

    /// The size of the ring.
    pub fn max_size(&self) -> (n: u16)
        ensures
            n == self@.max_size,
    {
        self.max_size
    }

    /// The number of chains waiting to be fetched.
    pub fn avail_len(&self) -> (n: usize)
        ensures
            n == self@.avail.len(),
    {
        self.avail.len()
    }

    /// The driver's side of the ring: makes `chain` available behind the chains
    /// already waiting.  A full ring takes no more: the queue is then left as it
    /// was and the result is `false`.
    pub fn offer(&mut self, chain: DescriptorChain) -> (accepted: bool)
        ensures
            accepted == (old(self)@.avail.len() < old(self)@.max_size),
            accepted ==> final(self)@ == (QueueView {
                avail: old(self)@.avail.push(chain),
                ..old(self)@
            }),
            !accepted ==> final(self)@ == old(self)@,
            old(self).wf() ==> final(self).wf(),
    {
        if self.avail.len() < self.max_size as usize {
            self.avail.push_back(chain);
            true
        } else {
            false
        }
    }

    /// Fetches the oldest available chain, if there is one.  A fetched chain is
    /// no longer available; the device owes the driver a used entry for it.
    pub fn pop_avail(&mut self) -> (next: Option<DescriptorChain>)
        ensures
            old(self)@.avail.len() == 0 ==> next is None && final(self)@ == old(self)@,
            old(self)@.avail.len() > 0 ==> next == Some(old(self)@.avail[0]) && final(self)@ == (
            QueueView { avail: old(self)@.avail.skip(1), ..old(self)@ }),
            old(self).wf() ==> final(self).wf(),
    {
        self.avail.pop_front()
    }

    /// Appends an entry to the used ring: chain `index` is done, `len` bytes of
    /// it were processed.
    pub fn add_used(&mut self, index: u16, len: u32)
        ensures
            final(self)@ == (QueueView {
                used: old(self)@.used.push(UsedElem { index, len }),
                ..old(self)@
            }),
            old(self).wf() ==> final(self).wf(),
    {
        self.used.push(UsedElem { index, len });
    }

    /// The used ring, oldest entry first.
    pub fn used(&self) -> (entries: &Vec<UsedElem>)
        ensures
            entries@ == self@.used,
    {
        &self.used
    }
}

} // verus!
