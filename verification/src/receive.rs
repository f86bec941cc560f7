//! The receive path as a function on values: what one pass over the available
//! receive chains does to the input channel, the queue and guest memory.

use crate::guest_memory::lemma_mapped_prefix_bound;
use crate::guest_memory::lemma_mapped_prefix_by_domain;
use crate::guest_memory::lemma_mapped_prefix_shorter;
use crate::guest_memory::lemma_mapped_prefix_whole;
use crate::guest_memory::lemma_store_keeps_domain;
use crate::guest_memory::load;
use crate::guest_memory::mapped_prefix;
use crate::guest_memory::store;
use crate::queue::DescriptorChain;
use crate::queue::UsedElem;
use vstd::prelude::*;

verus! {

/// The result of one receive pass.
pub struct Received {
    /// The bytes that stay in the channel.
    pub buffer: Seq<u8>,
    /// The chains that stay available.
    pub avail: Seq<DescriptorChain>,
    /// The used entries that the pass adds, in the order of the chains.
    pub used: Seq<UsedElem>,
    /// Guest memory after the pass.
    pub memory: Map<int, u8>,
}

/// The number of buffered bytes that `chain` takes: as many as it has room for.
pub open spec fn share(chain: DescriptorChain, buffer: Seq<u8>) -> nat {
    if chain.len <= buffer.len() {
        chain.len as nat
    } else {
        buffer.len()
    }
}

/// Whether the first `n` bytes of `chain` can be written.
pub open spec fn writable(memory: Map<int, u8>, chain: DescriptorChain, n: nat) -> bool {
    mapped_prefix(memory, chain.addr as int, n) == n
}

/// One receive pass.  While bytes are buffered and chains are available, the
/// oldest chain takes its share from the front of the buffer.  The share is
/// written at the chain's address and the chain is recorded as used with the
/// share's length.  A write that faults ends the pass: that chain has been
/// fetched and its share removed from the buffer, but it is not recorded.
pub open spec fn receive(
    buffer: Seq<u8>,
    avail: Seq<DescriptorChain>,
    memory: Map<int, u8>,
) -> Received
    decreases avail.len(),
{
    if buffer.len() == 0 || avail.len() == 0 {
        Received { buffer, avail, used: Seq::empty(), memory }
    } else {
        let chain = avail[0];
        let n = share(chain, buffer);
        let stored = mapped_prefix(memory, chain.addr as int, n);
        let after = store(memory, chain.addr as int, buffer.take(n as int).take(stored as int));
        if writable(memory, chain, n) {
            let rest = receive(buffer.skip(n as int), avail.skip(1), after);
            Received {
                used: seq![UsedElem { index: chain.index, len: n as u32 }] + rest.used,
                ..rest
            }
        } else {
            Received {
                buffer: buffer.skip(n as int),
                avail: avail.skip(1),
                used: Seq::empty(),
                memory: after,
            }
        }
    }
}

/// The number of bytes that the entries of `used` report, all together.
pub open spec fn total_len(used: Seq<UsedElem>) -> nat
    decreases used.len(),
{
    if used.len() == 0 {
        0
    } else {
        used[0].len as nat + total_len(used.skip(1))
    }
}

/// Whether a pass marked every chain that it fetched, which is to say that no
/// write faulted.
pub open spec fn complete(avail: Seq<DescriptorChain>, pass: Received) -> bool {
    avail.len() - pass.avail.len() == pass.used.len()
}

/// What holds of every receive pass, with or without a fault, where `pass` is
/// the result for `buffer` and `avail`.
///
/// - The chains that the pass fetched are the oldest ones; the others stay
///   available as they were.
/// - The bytes that the pass took are the oldest ones; the others stay
///   buffered as they were.
/// - Every fetched chain has one used entry, in the order of the chains, and
///   the entry reports no more than the chain's length.  The one exception is
///   a chain whose write faulted: it is the last one fetched and has no entry.
/// - The used entries report no more bytes than the pass took.
/// - A pass without a fault took exactly the bytes that its entries report,
///   and it went on until no byte was buffered or no chain available.
pub open spec fn orderly(buffer: Seq<u8>, avail: Seq<DescriptorChain>, pass: Received) -> bool {
    let fetched = avail.len() - pass.avail.len();
    let taken = buffer.len() - pass.buffer.len();
    &&& 0 <= fetched
    &&& pass.avail == avail.skip(fetched)
    &&& 0 <= taken
    &&& pass.buffer == buffer.skip(taken)
    &&& pass.used.len() <= fetched <= pass.used.len() + 1
    &&& forall|i: int|
        0 <= i < pass.used.len() ==> (#[trigger] pass.used[i]).index == avail[i].index
            && pass.used[i].len <= avail[i].len
    &&& total_len(pass.used) <= taken
    &&& complete(avail, pass) ==> taken == total_len(pass.used) && (pass.buffer.len() == 0
        || pass.avail.len() == 0)
}

/// Whether every chain of `avail` can be written over its whole length.
pub open spec fn all_writable(memory: Map<int, u8>, avail: Seq<DescriptorChain>) -> bool {
    forall|i: int| 0 <= i < avail.len() ==> writable(memory, #[trigger] avail[i], avail[i].len as nat)
}

/// Whether two chains share no address.
pub open spec fn apart(a: DescriptorChain, b: DescriptorChain) -> bool {
    a.addr + a.len <= b.addr || b.addr + b.len <= a.addr
}

/// Whether no two chains of `chains` share an address.
pub open spec fn all_apart(chains: Seq<DescriptorChain>) -> bool {
    forall|i: int, j: int| 0 <= i < j < chains.len() ==> apart(#[trigger] chains[i], #[trigger] chains[j])
}

/// What the guest finds in the chains that `used` reports: for each entry, in
/// order, as many bytes from the address of its chain as the entry says.
pub open spec fn gather(
    memory: Map<int, u8>,
    avail: Seq<DescriptorChain>,
    used: Seq<UsedElem>,
) -> Seq<u8>
    decreases used.len(),
{
    if used.len() == 0 {
        Seq::empty()
    } else {
        load(memory, avail[0].addr as int, used[0].len as nat) + gather(
            memory,
            avail.skip(1),
            used.skip(1),
        )
    }
}

/// A pass that finds no buffered byte or no available chain changes nothing
/// and marks nothing used.
pub proof fn lemma_receive_idle(
    buffer: Seq<u8>,
    avail: Seq<DescriptorChain>,
    memory: Map<int, u8>,
)
    requires
        buffer.len() == 0 || avail.len() == 0,
    ensures
        receive(buffer, avail, memory) == (Received {
            buffer,
            avail,
            used: Seq::empty(),
            memory,
        }),
{
}

/// Every receive pass is [`orderly`], and it maps and unmaps no memory.
pub proof fn lemma_receive_orderly(
    buffer: Seq<u8>,
    avail: Seq<DescriptorChain>,
    memory: Map<int, u8>,
)
    ensures
        orderly(buffer, avail, receive(buffer, avail, memory)),
        receive(buffer, avail, memory).memory.dom() == memory.dom(),
    decreases avail.len(),
{
    let pass = receive(buffer, avail, memory);
    if buffer.len() == 0 || avail.len() == 0 {
        assert(avail.skip(0) =~= avail);
        assert(buffer.skip(0) =~= buffer);
    } else {
        let chain = avail[0];
        let n = share(chain, buffer);
        let stored = mapped_prefix(memory, chain.addr as int, n);
        let after = store(memory, chain.addr as int, buffer.take(n as int).take(stored as int));
        lemma_store_keeps_domain(
            memory,
            chain.addr as int,
            buffer.take(n as int).take(stored as int),
        );
        if writable(memory, chain, n) {
            let rest = receive(buffer.skip(n as int), avail.skip(1), after);
            lemma_receive_orderly(buffer.skip(n as int), avail.skip(1), after);
            let fetched = avail.skip(1).len() - rest.avail.len();
            let taken = buffer.skip(n as int).len() - rest.buffer.len();
            assert(avail.skip(1).skip(fetched) =~= avail.skip(fetched + 1));
            assert(buffer.skip(n as int).skip(taken) =~= buffer.skip(n + taken));
            assert(pass.used.skip(1) =~= rest.used);
        }
    }
}

/// Where every available chain can be written over its whole length, no write
/// of a pass faults, and the chains that the pass leaves can still be written.
pub proof fn lemma_receive_writable(
    buffer: Seq<u8>,
    avail: Seq<DescriptorChain>,
    memory: Map<int, u8>,
)
    requires
        all_writable(memory, avail),
    ensures
        complete(avail, receive(buffer, avail, memory)),
        all_writable(receive(buffer, avail, memory).memory, receive(buffer, avail, memory).avail),
    decreases avail.len(),
{
    if buffer.len() != 0 && avail.len() != 0 {
        let chain = avail[0];
        let n = share(chain, buffer);
        lemma_mapped_prefix_shorter(memory, chain.addr as int, chain.len as nat, n);
        let after = store(memory, chain.addr as int, buffer.take(n as int).take(n as int));
        lemma_store_keeps_domain(memory, chain.addr as int, buffer.take(n as int).take(n as int));
        let later = avail.skip(1);
        assert forall|i: int| 0 <= i < later.len() implies writable(
            after,
            #[trigger] later[i],
            later[i].len as nat,
        ) by {
            lemma_mapped_prefix_by_domain(
                memory,
                after,
                later[i].addr as int,
                later[i].len as nat,
            );
        }
        lemma_receive_writable(buffer.skip(n as int), later, after);
    }
}

/// A pass leaves alone every address that lies in none of the chains that it
/// fetched.
pub proof fn lemma_receive_frame(
    buffer: Seq<u8>,
    avail: Seq<DescriptorChain>,
    memory: Map<int, u8>,
    addr: int,
)
    requires
        memory.dom().contains(addr),
        forall|i: int|
            0 <= i < avail.len() - receive(buffer, avail, memory).avail.len() ==> !((
            #[trigger] avail[i]).addr <= addr < avail[i].addr + avail[i].len),
    ensures
        receive(buffer, avail, memory).memory[addr] == memory[addr],
    decreases avail.len(),
{
    lemma_receive_orderly(buffer, avail, memory);
    if buffer.len() != 0 && avail.len() != 0 {
        let chain = avail[0];
        let n = share(chain, buffer);
        let stored = mapped_prefix(memory, chain.addr as int, n);
        lemma_mapped_prefix_bound(memory, chain.addr as int, n);
        let after = store(memory, chain.addr as int, buffer.take(n as int).take(stored as int));
        if writable(memory, chain, n) {
            let later = avail.skip(1);
            let rest = receive(buffer.skip(n as int), later, after);
            lemma_receive_orderly(buffer.skip(n as int), later, after);
            lemma_receive_frame(buffer.skip(n as int), later, after, addr);
        }
    }
}

/// After a pass without a fault the guest finds, in the chains that the pass
/// marked used, the bytes that left the buffer: the oldest ones, in the order
/// in which they were queued.  This asks that no two of those chains share an
/// address.
pub proof fn lemma_receive_readable(
    buffer: Seq<u8>,
    avail: Seq<DescriptorChain>,
    memory: Map<int, u8>,
)
    requires
        complete(avail, receive(buffer, avail, memory)),
        all_apart(avail.take(receive(buffer, avail, memory).used.len() as int)),
    ensures
        ({
            let pass = receive(buffer, avail, memory);
            &&& total_len(pass.used) <= buffer.len()
            &&& gather(pass.memory, avail, pass.used) == buffer.take(total_len(pass.used) as int)
            &&& pass.buffer == buffer.skip(total_len(pass.used) as int)
        }),
    decreases avail.len(),
{
    let pass = receive(buffer, avail, memory);
    lemma_receive_orderly(buffer, avail, memory);
    if buffer.len() != 0 && avail.len() != 0 {
        let chain = avail[0];
        let n = share(chain, buffer);
        let head = buffer.take(n as int);
        let after = store(memory, chain.addr as int, head);
        let later = avail.skip(1);
        let rest = receive(buffer.skip(n as int), later, after);
        lemma_receive_orderly(buffer.skip(n as int), later, after);
        assert(head.take(n as int) =~= head);
        assert(pass.used.skip(1) =~= rest.used);
        let marked = pass.used.len() as int;
        let chosen = avail.take(marked);
        assert(later.take(marked - 1) =~= chosen.skip(1));
        lemma_receive_readable(buffer.skip(n as int), later, after);
        // The first chain still holds its share: the later chains lie apart
        // from it.
        lemma_mapped_prefix_whole(memory, chain.addr as int, n);
        assert forall|k: int| 0 <= k < n implies pass.memory[chain.addr + k] == head[k] by {
            let addr = chain.addr + k;
            lemma_store_keeps_domain(memory, chain.addr as int, head);
            assert forall|i: int| 0 <= i < later.len() - rest.avail.len() implies !((
            #[trigger] later[i]).addr <= addr < later[i].addr + later[i].len) by {
                assert(later[i] == chosen[i + 1]);
                assert(chain == chosen[0]);
            }
            lemma_receive_frame(buffer.skip(n as int), later, after, addr);
        }
    }
}

} // verus!
