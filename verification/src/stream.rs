//! The input stream over the life of a device: producers inject batches of
//! bytes, the driver offers receive chains, and the worker runs receive passes,
//! in any order and any number of times.

use crate::guest_memory::lemma_mapped_prefix_by_domain;
use crate::queue::DescriptorChain;
use crate::receive::all_apart;
use crate::receive::all_writable;
use crate::receive::complete;
use crate::receive::gather;
use crate::receive::lemma_receive_orderly;
use crate::receive::lemma_receive_readable;
use crate::receive::lemma_receive_writable;
use crate::receive::receive;
use crate::receive::writable;
use vstd::prelude::*;

verus! {

/// One thing that happens to the input stream.
pub enum StreamStep {
    /// A producer queues a batch of bytes.
    Inject(Seq<u8>),
    /// The driver makes a receive chain available.
    Offer(DescriptorChain),
    /// The worker runs a receive pass.
    Receive,
}

/// The input stream at one moment.
pub struct Stream {
    /// The bytes in the channel.
    pub buffer: Seq<u8>,
    /// The receive chains that are available.
    pub avail: Seq<DescriptorChain>,
    /// Guest memory.
    pub memory: Map<int, u8>,
    /// Every byte injected so far, in order.
    pub injected: Seq<u8>,
    /// Every byte that the guest has found so far in the chains marked used,
    /// taken together after each pass, in order.
    pub delivered: Seq<u8>,
}

/// The stream before anything has happened.
pub open spec fn stream_start(memory: Map<int, u8>) -> Stream {
    Stream {
        buffer: Seq::empty(),
        avail: Seq::empty(),
        memory,
        injected: Seq::empty(),
        delivered: Seq::empty(),
    }
}

/// The stream after `step`.
pub open spec fn stream_step(stream: Stream, step: StreamStep) -> Stream {
    match step {
        StreamStep::Inject(batch) => Stream {
            buffer: stream.buffer + batch,
            injected: stream.injected + batch,
            ..stream
        },
        StreamStep::Offer(chain) => Stream { avail: stream.avail.push(chain), ..stream },
        StreamStep::Receive => {
            let pass = receive(stream.buffer, stream.avail, stream.memory);
            Stream {
                buffer: pass.buffer,
                avail: pass.avail,
                memory: pass.memory,
                injected: stream.injected,
                delivered: stream.delivered + gather(pass.memory, stream.avail, pass.used),
            }
        },
    }
}

/// The stream after all of `steps`, the first one first.
pub open spec fn stream_run(stream: Stream, steps: Seq<StreamStep>) -> Stream
    decreases steps.len(),
{
    if steps.len() == 0 {
        stream
    } else {
        stream_step(stream_run(stream, steps.drop_last()), steps.last())
    }
}

/// Whether a receive pass on `stream` would go through cleanly: no write
/// faults, and no two of the chains that the pass marks used share an address.
pub open spec fn clean_pass(stream: Stream) -> bool {
    let pass = receive(stream.buffer, stream.avail, stream.memory);
    &&& complete(stream.avail, pass)
    &&& all_apart(stream.avail.take(pass.used.len() as int))
}

/// Whether every receive pass among `steps` goes through cleanly.
pub open spec fn clean_passes(memory: Map<int, u8>, steps: Seq<StreamStep>) -> bool {
    forall|k: int|
        0 <= k < steps.len() && #[trigger] steps[k] is Receive ==> clean_pass(
            stream_run(stream_start(memory), steps.take(k)),
        )
}

/// Whatever is injected, offered and received, and in whatever order, the bytes
/// delivered to the guest followed by the bytes still buffered are the bytes
/// injected: nothing is lost, nothing comes twice, nothing changes place.  Once
/// the channel is drained, the guest has been given exactly what was injected.
/// This holds as long as every pass goes through cleanly.
pub proof fn lemma_stream_preserved(memory: Map<int, u8>, steps: Seq<StreamStep>)
    requires
        clean_passes(memory, steps),
    ensures
        ({
            let end = stream_run(stream_start(memory), steps);
            &&& end.delivered + end.buffer == end.injected
            &&& end.buffer.len() == 0 ==> end.delivered == end.injected
        }),
    decreases steps.len(),
{
    if steps.len() != 0 {
        let start = stream_start(memory);
        let earlier = steps.drop_last();
        assert forall|k: int| 0 <= k < earlier.len() && #[trigger] earlier[k] is Receive implies clean_pass(
            stream_run(start, earlier.take(k)),
        ) by {
            assert(earlier.take(k) =~= steps.take(k));
        }
        lemma_stream_preserved(memory, earlier);
        if steps.last() is Receive {
            let before = stream_run(start, earlier);
            lemma_receive_readable(before.buffer, before.avail, before.memory);
        }
    }
}

/// The chains that `steps` offer, in order.
pub open spec fn offered(steps: Seq<StreamStep>) -> Seq<DescriptorChain>
    decreases steps.len(),
{
    if steps.len() == 0 {
        Seq::empty()
    } else {
        match steps.last() {
            StreamStep::Offer(chain) => offered(steps.drop_last()).push(chain),
            _ => offered(steps.drop_last()),
        }
    }
}

/// The chains offered up to a point are the first of the chains offered in
/// all.
proof fn lemma_offered_grows(steps: Seq<StreamStep>, k: int)
    requires
        0 <= k <= steps.len(),
    ensures
        offered(steps.take(k)).len() <= offered(steps).len(),
        offered(steps.take(k)) == offered(steps).take(offered(steps.take(k)).len() as int),
    decreases steps.len(),
{
    if k == steps.len() {
        assert(steps.take(k) =~= steps);
    } else {
        lemma_offered_grows(steps.drop_last(), k);
        assert(steps.drop_last().take(k) =~= steps.take(k));
    }
}

/// The chains available at any moment are the chains offered until then, less
/// the oldest of them, which earlier passes fetched; and no pass maps or
/// unmaps memory.
proof fn lemma_stream_avail(memory: Map<int, u8>, steps: Seq<StreamStep>) -> (fetched: int)
    ensures
        0 <= fetched <= offered(steps).len(),
        stream_run(stream_start(memory), steps).avail == offered(steps).skip(fetched),
        stream_run(stream_start(memory), steps).memory.dom() == memory.dom(),
    decreases steps.len(),
{
    if steps.len() == 0 {
        0
    } else {
        let earlier = steps.drop_last();
        let gone = lemma_stream_avail(memory, earlier);
        if steps.last() is Receive {
            let before = stream_run(stream_start(memory), earlier);
            let pass = receive(before.buffer, before.avail, before.memory);
            lemma_receive_orderly(before.buffer, before.avail, before.memory);
            gone + (before.avail.len() - pass.avail.len())
        } else {
            gone
        }
    }
}

/// Every pass goes through cleanly if every chain that is ever offered can be
/// written over its whole length and no two of them share an address.
pub proof fn lemma_clean_offers(memory: Map<int, u8>, steps: Seq<StreamStep>)
    requires
        all_writable(memory, offered(steps)),
        all_apart(offered(steps)),
    ensures
        clean_passes(memory, steps),
{
    let all = offered(steps);
    assert forall|k: int| 0 <= k < steps.len() && #[trigger] steps[k] is Receive implies clean_pass(
        stream_run(stream_start(memory), steps.take(k)),
    ) by {
        // The chains available before the pass are chains of `all`, in order.
        let stream = stream_run(stream_start(memory), steps.take(k));
        let gone = lemma_stream_avail(memory, steps.take(k));
        lemma_offered_grows(steps, k);
        assert forall|i: int| 0 <= i < stream.avail.len() implies stream.avail[i] == all[gone
            + i] by {}
        assert forall|i: int| 0 <= i < stream.avail.len() implies writable(
            stream.memory,
            #[trigger] stream.avail[i],
            stream.avail[i].len as nat,
        ) by {
            lemma_mapped_prefix_by_domain(
                memory,
                stream.memory,
                all[gone + i].addr as int,
                all[gone + i].len as nat,
            );
        }
        lemma_receive_writable(stream.buffer, stream.avail, stream.memory);
        lemma_receive_orderly(stream.buffer, stream.avail, stream.memory);
    }
}

} // verus!
