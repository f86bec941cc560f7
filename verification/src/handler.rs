//! The state that the device's worker owns, the two processors that run on it,
//! and what the worker does with each event that wakes it.

use crate::error::DeviceError;
use crate::event::ConsoleEvent;
use crate::event::EventOutcome;
use crate::event::LoopControl;
use crate::event::VirtioInterruptType;
use crate::guest_memory::guest_bytes;
use crate::guest_memory::write_slice;
use crate::guest_memory::write_volatile_to;
use crate::input::ConsoleInput;
use crate::queue::DescriptorChain;
use crate::queue::Queue;
use crate::queue::QueueView;
use crate::queue::UsedElem;
use crate::receive::lemma_receive_orderly;
use crate::receive::orderly;
use crate::receive::receive;
use crate::receive::Received;
use crate::transmit::transmit_records;
use crate::transmit::transmit_used;
use vm_memory::GuestMemoryMmap;
use vstd::prelude::*;

verus! {

/// What the worker of an activated console owns: the receive queue, the
/// transmit queue and the guest's memory.
pub struct ConsoleEpollHandler {
    /// The queue on which the driver offers buffers for input.
    pub rx_queue: Queue,
    /// The queue on which the driver places output.
    pub tx_queue: Queue,
    /// The guest's memory.
    pub mem: GuestMemoryMmap<()>,
}

/// The abstract state of a [`ConsoleEpollHandler`].
pub struct HandlerView {
    /// The receive queue.
    pub rx_queue: QueueView,
    /// The transmit queue.
    pub tx_queue: QueueView,
    /// The bytes of guest memory, by guest physical address.
    pub memory: Map<int, u8>,
}

impl View for ConsoleEpollHandler {
    type V = HandlerView;

    open spec fn view(&self) -> HandlerView {
        HandlerView {
            rx_queue: self.rx_queue@,
            tx_queue: self.tx_queue@,
            memory: guest_bytes(self.mem),
        }
    }
}

/// What handling one event comes to.
pub struct Handled {
    /// The worker's state afterwards.
    pub handler: HandlerView,
    /// The bytes that stay in the input channel.
    pub buffer: Seq<u8>,
    /// The records to write to the host's sink, each followed by a flush.
    pub records: Seq<Seq<u8>>,
    /// Whether the loop goes on, and the interrupt to raise.
    pub outcome: EventOutcome,
}

impl HandlerView {
    /// The receive pass that the worker makes when the channel holds `buffer`.
    pub open spec fn receive_pass(self, buffer: Seq<u8>) -> Received {
        receive(buffer, self.rx_queue.avail, self.memory)
    }

    /// The worker's state after a receive pass: the fetched chains have left
    /// the receive queue, their used entries stand at the end of its used
    /// ring, and guest memory holds what was written.
    pub open spec fn after_receive(self, buffer: Seq<u8>) -> HandlerView {
        let pass = self.receive_pass(buffer);
        HandlerView {
            rx_queue: QueueView {
                avail: pass.avail,
                used: self.rx_queue.used + pass.used,
                ..self.rx_queue
            },
            memory: pass.memory,
            ..self
        }
    }

    /// The records that a transmit pass sends.
    pub open spec fn transmit_pass(self) -> Seq<Seq<u8>> {
        transmit_records(self.memory, self.tx_queue.avail)
    }

    /// The worker's state after a transmit pass: no chain is left on the
    /// transmit queue, and every one of them has its used entry.
    pub open spec fn after_transmit(self) -> HandlerView {
        HandlerView {
            tx_queue: QueueView {
                avail: Seq::empty(),
                used: self.tx_queue.used + transmit_used(self.tx_queue.avail),
                ..self.tx_queue
            },
            ..self
        }
    }

    /// What the worker does with `event` when the channel holds `buffer`.
    /// `drained` says whether the event's notification could be read.
    ///
    /// - A notification that could not be read stops the loop.
    /// - A kick of the receive queue starts nothing.
    /// - A kick of the transmit queue runs the transmit pass; no interrupt
    ///   follows.
    /// - Arriving input runs the receive pass; the queue interrupt follows if
    ///   the pass marked a chain used.
    /// - The kill event stops the loop.
    /// - An unknown event is passed over.
    pub open spec fn handle(self, buffer: Seq<u8>, event: ConsoleEvent, drained: bool) -> Handled {
        let idle = Handled {
            handler: self,
            buffer,
            records: Seq::empty(),
            outcome: EventOutcome { control: LoopControl::Continue, interrupt: None },
        };
        let stop = Handled {
            outcome: EventOutcome { control: LoopControl::Stop, interrupt: None },
            ..idle
        };
        if event.needs_drain() && !drained {
            stop
        } else {
            match event {
                ConsoleEvent::InputQueue => idle,
                ConsoleEvent::OutputQueue => Handled {
                    handler: self.after_transmit(),
                    records: self.transmit_pass(),
                    ..idle
                },
                ConsoleEvent::Input => Handled {
                    handler: self.after_receive(buffer),
                    buffer: self.receive_pass(buffer).buffer,
                    outcome: EventOutcome {
                        control: LoopControl::Continue,
                        interrupt: if self.receive_pass(buffer).used.len() > 0 {
                            Some(VirtioInterruptType::Queue)
                        } else {
                            None
                        },
                    },
                    ..idle
                },
                ConsoleEvent::Kill => stop,
                ConsoleEvent::Unknown => idle,
            }
        }
    }
}

impl ConsoleEpollHandler {
    /// Moves buffered input into the guest's receive buffers.
    ///
    /// Each port of a virtio console has one receive queue, on which the driver
    /// places empty buffers for incoming data.  The pass is [`receive`] applied
    /// to the channel, the available receive chains and guest memory; the used
    /// entries are added to the ring after the last write, in the order of the
    /// chains.  The result says whether any chain was marked used.
    ///
    /// The pass is [`orderly`].  With an empty channel or without an available
    /// chain it changes nothing.
    pub fn process_input_queue(&mut self, input: &mut ConsoleInput) -> (consumed: bool)
        ensures
            final(self)@ == old(self)@.after_receive(old(input)@),
            final(input)@ == old(self)@.receive_pass(old(input)@).buffer,
            consumed == (old(self)@.receive_pass(old(input)@).used.len() > 0),
            orderly(
                old(input)@,
                old(self)@.rx_queue.avail,
                old(self)@.receive_pass(old(input)@),
            ),
            old(input)@.len() == 0 || old(self)@.rx_queue.avail.len() == 0 ==> !consumed
                && final(input)@ == old(input)@ && final(self)@ == old(self)@,
            old(self).rx_queue.wf() ==> final(self).rx_queue.wf(),
            old(self).tx_queue.wf() ==> final(self).tx_queue.wf(),
    {
        let ghost goal = self@.receive_pass(input@);
        proof {
            lemma_receive_orderly(input@, self@.rx_queue.avail, self@.memory);
        }
        let count = input.len();
        let mut written: usize = 0;
        let mut heads: Vec<UsedElem> = Vec::new();
        while written < count
            invariant_except_break
                ({
                    let rest = self@.receive_pass(input@);
                    goal == (Received { used: heads@ + rest.used, ..rest })
                }),
                input@.len() == count - written,
            invariant
                written <= count,
                self@.tx_queue == old(self)@.tx_queue,
                self@.rx_queue.used == old(self)@.rx_queue.used,
                self@.rx_queue.max_size == old(self)@.rx_queue.max_size,
            ensures
                goal == (Received {
                    buffer: input@,
                    avail: self@.rx_queue.avail,
                    used: heads@,
                    memory: self@.memory,
                }),
            decreases self@.rx_queue.avail.len(),
        {
            let ghost buffer = input@;
            let ghost pass = self@.receive_pass(buffer);
            let chain = match self.rx_queue.pop_avail() {
                Some(chain) => chain,
                None => {
                    break ;
                },
            };
            let room = chain.len as usize;
            let n = if room <= count - written {
                room
            } else {
                count - written
            };
            let data = input.take_front(n);
            match write_slice(&mut self.mem, data.as_slice(), chain.addr) {
                Ok(_) => {
                    let head = UsedElem { index: chain.index, len: n as u32 };
                    proof {
                        let rest = self@.receive_pass(input@);
                        assert(heads@ + pass.used == heads@.push(head) + rest.used);
                    }
                    heads.push(head);
                    written = written + n;
                },
                Err(_) => {
                    break ;
                },
            }
        }
        let mut i: usize = 0;
        while i < heads.len()
            invariant
                i <= heads@.len(),
                self@ == (HandlerView {
                    rx_queue: QueueView {
                        avail: goal.avail,
                        used: old(self)@.rx_queue.used + heads@.take(i as int),
                        ..old(self)@.rx_queue
                    },
                    memory: goal.memory,
                    ..old(self)@
                }),
            decreases heads@.len() - i,
        {
            let head = heads[i];
            self.rx_queue.add_used(head.index, head.len);
            i += 1;
            assert(heads@.take(i as int) == heads@.take(i - 1).push(heads@[i - 1]));
        }
        assert(heads@.take(i as int) == heads@);
        heads.len() > 0
    }

    /// Sends what the guest has placed on the transmit queue.
    ///
    /// Each port of a virtio console has one transmit queue, on which the driver
    /// places characters to send.  Every available chain is drained: its
    /// contents are read from guest memory and appended to `out` as one record,
    /// and the chain is marked used with its whole length, also where its
    /// contents could not be read.  The records are for the host's sink, in
    /// order, with a flush after each.  The result says whether any chain was
    /// processed.
    ///
    /// Without an available chain the pass changes nothing.
    pub fn process_output_queue(&mut self, out: &mut Vec<Vec<u8>>) -> (processed: bool)
        ensures
            final(self)@ == old(self)@.after_transmit(),
            final(out).deep_view() == old(out).deep_view() + old(self)@.transmit_pass(),
            final(out)@.take(old(out)@.len() as int) == old(out)@,
            processed == (old(self)@.tx_queue.avail.len() > 0),
            old(self)@.tx_queue.avail.len() == 0 ==> final(out)@ == old(out)@ && final(self)@
                == old(self)@,
            old(self).rx_queue.wf() ==> final(self).rx_queue.wf(),
            old(self).tx_queue.wf() ==> final(self).tx_queue.wf(),
    {
        let ghost avail = self@.tx_queue.avail;
        let ghost memory = self@.memory;
        let mut heads: Vec<UsedElem> = Vec::new();
        assert(avail.skip(0) == avail);
        loop
            invariant
                avail == old(self)@.tx_queue.avail,
                memory == old(self)@.memory,
                heads@.len() + self@.tx_queue.avail.len() == avail.len(),
                heads@ == transmit_used(avail.take(heads@.len() as int)),
                out.deep_view() == old(out).deep_view() + transmit_records(
                    memory,
                    avail.take(heads@.len() as int),
                ),
                out@.len() == old(out)@.len() + heads@.len(),
                out@.take(old(out)@.len() as int) == old(out)@,
                self@ == (HandlerView {
                    tx_queue: QueueView {
                        avail: avail.skip(heads@.len() as int),
                        ..old(self)@.tx_queue
                    },
                    ..old(self)@
                }),
            ensures
                self@.tx_queue.avail.len() == 0,
            decreases self@.tx_queue.avail.len(),
        {
            let chain = match self.tx_queue.pop_avail() {
                Some(chain) => chain,
                None => {
                    break ;
                },
            };
            let ghost done = heads@.len() as int;
            let ghost before = out.deep_view();
            let mut record: Vec<u8> = Vec::new();
            let _ = write_volatile_to(&self.mem, chain.addr, &mut record, chain.len as usize);
            out.push(record);
            heads.push(UsedElem { index: chain.index, len: chain.len });
            proof {
                assert(out.deep_view() =~~= before.push(record@));
                assert(self@.tx_queue.avail == avail.skip(done + 1));
            }
        }
        assert(self@.tx_queue.avail == Seq::<DescriptorChain>::empty());
        let mut i: usize = 0;
        while i < heads.len()
            invariant
                i <= heads@.len(),
                self@ == (HandlerView {
                    tx_queue: QueueView {
                        avail: Seq::empty(),
                        used: old(self)@.tx_queue.used + heads@.take(i as int),
                        ..old(self)@.tx_queue
                    },
                    ..old(self)@
                }),
            decreases heads@.len() - i,
        {
            let head = heads[i];
            self.tx_queue.add_used(head.index, head.len);
            i += 1;
            assert(heads@.take(i as int) == heads@.take(i - 1).push(heads@[i - 1]));
        }
        assert(heads@.take(i as int) == heads@);
        heads.len() > 0
    }

    /// Handles one ready event as [`handle`](HandlerView::handle) says.
    /// `drained` says whether reading the event's notification succeeded; it
    /// counts only for the events that [`needs_drain`](ConsoleEvent::needs_drain)
    /// names.  The records of a transmit pass are appended to `out`.
    pub fn handle_event(
        &mut self,
        event: ConsoleEvent,
        drained: bool,
        input: &mut ConsoleInput,
        out: &mut Vec<Vec<u8>>,
    ) -> (outcome: EventOutcome)
        ensures
            final(self)@ == old(self)@.handle(old(input)@, event, drained).handler,
            final(input)@ == old(self)@.handle(old(input)@, event, drained).buffer,
            final(out).deep_view() == old(out).deep_view() + old(self)@.handle(
                old(input)@,
                event,
                drained,
            ).records,
            final(out)@.take(old(out)@.len() as int) == old(out)@,
            outcome == old(self)@.handle(old(input)@, event, drained).outcome,
            old(self).rx_queue.wf() ==> final(self).rx_queue.wf(),
            old(self).tx_queue.wf() ==> final(self).tx_queue.wf(),
    {
        let go_on = EventOutcome { control: LoopControl::Continue, interrupt: None };
        let stop = EventOutcome { control: LoopControl::Stop, interrupt: None };
        proof {
        }
        match event {
            ConsoleEvent::InputQueue => {
                if drained {
                    go_on
                } else {
                    stop
                }
            },
            ConsoleEvent::OutputQueue => {
                if drained {
                    self.process_output_queue(out);
                    go_on
                } else {
                    stop
                }
            },
            ConsoleEvent::Input => {
                if !drained {
                    stop
                } else if self.process_input_queue(input) {
                    EventOutcome {
                        control: LoopControl::Continue,
                        interrupt: Some(VirtioInterruptType::Queue),
                    }
                } else {
                    go_on
                }
            },
            ConsoleEvent::Kill => stop,
            ConsoleEvent::Unknown => go_on,
        }
    }

    /// The queue that the interrupt asked for by
    /// [`handle_event`](ConsoleEpollHandler::handle_event) is about: the receive
    /// queue.  The transmit queue is never announced.
    pub fn signalled_queue(&self) -> (queue: &Queue)
        ensures
            *queue == self.rx_queue,
    {
        &self.rx_queue
    }

    /// Says what the answer of the interrupt callback means for the worker: a
    /// signal that could not be raised is an error that ends the loop; it is
    /// not tried again.
    pub fn signal_used_queue(raised: bool) -> (r: Result<(), DeviceError>)
        ensures
            r == (if raised {
                Ok::<(), DeviceError>(())
            } else {
                Err::<(), DeviceError>(DeviceError::FailedSignalingUsedQueue)
            }),
    {
        if raised {
            Ok(())
        } else {
            Err(DeviceError::FailedSignalingUsedQueue)
        }
    }
}

} // verus!
