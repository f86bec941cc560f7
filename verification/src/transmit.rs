//! The transmit path as a function on values: what one pass over the available
//! transmit chains hands to the host and reports to the guest.

use crate::guest_memory::load;
use crate::guest_memory::mapped_prefix;
use crate::queue::DescriptorChain;
use crate::queue::UsedElem;
use vstd::prelude::*;

verus! {

/// The bytes that `chain` sends: its contents from its address upwards, as far
/// as they can be read.
pub open spec fn payload(memory: Map<int, u8>, chain: DescriptorChain) -> Seq<u8> {
    load(
        memory,
        chain.addr as int,
        mapped_prefix(memory, chain.addr as int, chain.len as nat),
    )
}

/// One record for each chain, in the order of the chains.  Each record is to be
/// written to the host's sink as a whole, and the sink flushed after it.
pub open spec fn transmit_records(memory: Map<int, u8>, avail: Seq<DescriptorChain>) -> Seq<
    Seq<u8>,
> {
    Seq::new(avail.len(), |i: int| payload(memory, avail[i]))
}

/// The used entries of a transmit pass: every chain, in order, with its whole
/// length, whether or not its contents could be read.
pub open spec fn transmit_used(avail: Seq<DescriptorChain>) -> Seq<UsedElem> {
    Seq::new(avail.len(), |i: int| UsedElem { index: avail[i].index, len: avail[i].len })
}

} // verus!
