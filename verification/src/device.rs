//! The console as the transport sees it: identity, feature negotiation,
//! activation and teardown.

use crate::error::ActivateError;
use crate::handler::ConsoleEpollHandler;
use crate::input::ConsoleInput;
use crate::queue::Queue;
use vm_memory::GuestMemoryMmap;
use vstd::prelude::*;

verus! {

/// The device type of a virtio console.
pub const TYPE_CONSOLE: u32 = 3;

/// The feature bit that says the device follows version 1 of the standard.
pub const VIRTIO_F_VERSION_1: u32 = 32;

/// The largest size that the device accepts for each of its queues.
pub const QUEUE_SIZE: u16 = 256;

/// The device's queues: the receive queue comes first, the transmit queue
/// second.
pub const NUM_QUEUES: usize = 2;

/// The abstract state of a [`Console`].
pub struct ConsoleView<W, K> {
    /// The handle on which teardown raises the kill notification; `Some` once
    /// an activation got as far as arming it.
    pub kill_evt: Option<K>,
    /// The features that the device offers.
    pub avail_features: u64,
    /// The features that the driver has acknowledged.
    pub acked_features: u64,
    /// The sink for the guest's output, until an activation takes it.
    pub out: Option<W>,
}

/// Virtio device for exposing console to the guest OS through virtio.
///
/// `W` is the sink that receives what the guest transmits, `K` the handle of
/// the kill notification.  The device only keeps them and hands them on.
pub struct Console<W, K> {
    kill_evt: Option<K>,
    avail_features: u64,
    acked_features: u64,
    out: Option<W>,
}

impl<W, K> View for Console<W, K> {
    type V = ConsoleView<W, K>;

    closed spec fn view(&self) -> ConsoleView<W, K> {
        ConsoleView {
            kill_evt: self.kill_evt,
            avail_features: self.avail_features,
            acked_features: self.acked_features,
            out: self.out,
        }
    }
}

/// The 32 bits of `features` that `page` holds: page 0 the low half, page 1
/// the high half, any other page nothing.
pub open spec fn features_page(features: u64, page: u32) -> u32 {
    if page == 0 {
        (features & 0xffff_ffff) as u32
    } else if page == 1 {
        (features >> 32) as u32
    } else {
        0
    }
}

/// The feature bits that `value` names when it is written to `page`.
pub open spec fn page_bits(page: u32, value: u32) -> u64 {
    if page == 0 {
        value as u64
    } else if page == 1 {
        (value as u64) << 32
    } else {
        0
    }
}

/// The two pages hold all of the features between them: what page 0 and page
/// 1 show of `features`, written back to the same pages, names `features` again.
pub proof fn lemma_pages_cover(features: u64)
    ensures
        page_bits(0, features_page(features, 0)) | page_bits(1, features_page(features, 1))
            == features,
{
    assert((((features & 0xffff_ffff) as u32) as u64) | ((((features >> 32) as u32) as u64) << 32)
        == features) by (bit_vector);
}

/// Whether an activation was given the right number of queues and of queue
/// notification handles.
pub open spec fn activation_fits(queues: nat, queue_evts: nat) -> bool {
    queues == NUM_QUEUES && queue_evts == NUM_QUEUES
}

/// Reads one page of `features`.
fn read_page(features: u64, page: u32) -> (bits: u32)
    ensures
        bits == features_page(features, page),
{
    if page == 0 {
        // The lower 32 bits of the features bitfield.
        (features & 0xffff_ffff) as u32
    } else if page == 1 {
        // The upper 32 bits of the features bitfield.
        (features >> 32) as u32
    } else {
        0u32
    }
}

impl<W, K> Console<W, K> {
    /// A console offers version 1 and nothing else, and the driver never gets
    /// a feature acknowledged that the device does not offer.
    pub open spec fn wf(&self) -> bool {
        &&& self@.avail_features == 1u64 << 32
        &&& self@.acked_features & !self@.avail_features == 0
    }

    /// Create a new virtio console device that sends the guest's output to
    /// `out`, together with the channel on which input for the guest is queued.
    pub fn new(out: Option<W>) -> (made: (Console<W, K>, ConsoleInput))
        ensures
            made.0@ == (ConsoleView::<W, K> {
                kill_evt: None,
                avail_features: 1u64 << 32,
                acked_features: 0,
                out,
            }),
            made.0.wf(),
            made.1@ == Seq::<u8>::empty(),
    {
        let avail_features = 1u64 << VIRTIO_F_VERSION_1;
        assert(0u64 & !(1u64 << 32) == 0) by (bit_vector);
        (
            Console { kill_evt: None, avail_features, acked_features: 0u64, out },
            ConsoleInput::new(),
        )
    }

    /// The device type: a console.
    pub fn device_type(&self) -> (ty: u32)
        ensures
            ty == TYPE_CONSOLE,
    {
        TYPE_CONSOLE
    }

    /// The largest size of each queue, in the order of the queues.
    pub fn queue_max_sizes(&self) -> (sizes: [u16; 2])
        ensures
            sizes@ == seq![QUEUE_SIZE, QUEUE_SIZE],
    {
        [QUEUE_SIZE, QUEUE_SIZE]
    }

    /// One page of the features that the device offers.
    pub fn features(&self, page: u32) -> (bits: u32)
        ensures
            bits == features_page(self@.avail_features, page),
    {
        read_page(self.avail_features, page)
    }

    /// One page of the features that the driver has acknowledged so far.
    pub fn acked_features(&self, page: u32) -> (bits: u32)
        ensures
            bits == features_page(self@.acked_features, page),
    {
        read_page(self.acked_features, page)
    }

    /// The driver acknowledges the feature bits of `value` on `page`.  The bits
    /// that the device offers are added to the acknowledged features; the
    /// others are dropped.  A page other than 0 and 1 names no feature.
    ///
    /// So the call acknowledges no bit that the device does not offer, and it
    /// acknowledges every offered bit that it was asked for, whatever else was
    /// asked for with it.
    pub fn ack_features(&mut self, page: u32, value: u32)
        ensures
            final(self)@ == (ConsoleView {
                acked_features: old(self)@.acked_features | (page_bits(page, value) & old(
                    self,
                )@.avail_features),
                ..old(self)@
            }),
            final(self)@.acked_features & !old(self)@.avail_features == old(self)@.acked_features
                & !old(self)@.avail_features,
            page_bits(page, value) & old(self)@.avail_features & !final(self)@.acked_features
                == 0,
            old(self).wf() ==> final(self).wf(),
    {
        let v = if page == 0 {
            value as u64
        } else if page == 1 {
            (value as u64) << 32
        } else {
            0u64
        };
        let avail = self.avail_features;
        let acked = self.acked_features;
        // Bits that the device did not claim to have do not count as acked.
        let unrequested_features = v & !avail;
        let accepted = if unrequested_features != 0 {
            v & !unrequested_features
        } else {
            v
        };
        assert(accepted == v & avail) by (bit_vector)
            requires
                unrequested_features == v & !avail,
                accepted == (if unrequested_features != 0 {
                    v & !unrequested_features
                } else {
                    v
                }),
        ;
        assert((acked | (v & avail)) & !avail == acked & !avail) by (bit_vector);
        assert(v & avail & !(acked | (v & avail)) == 0) by (bit_vector);
        self.acked_features = acked | accepted;
    }

    /// Reads the device's configuration space.  A console defines none: `data`
    /// is left as it is.
    pub fn read_config(&self, offset: u64, data: &mut [u8])
        ensures
            final(data)@ == old(data)@,
    {
    }

    /// Writes the device's configuration space.  A console defines none:
    /// nothing changes.
    pub fn write_config(&mut self, offset: u64, data: &[u8])
        ensures
            *final(self) == *old(self),
    {
    }

    /// Tells whether an activation with that many queues and queue
    /// notification handles can go ahead.  The device wants two of each.
    pub fn check_activation(queues: usize, queue_evts: usize) -> (r: Result<(), ActivateError>)
        ensures
            r is Ok <==> activation_fits(queues as nat, queue_evts as nat),
            r is Err ==> r == Err::<(), ActivateError>(ActivateError::BadActivate),
    {
        if queues != NUM_QUEUES || queue_evts != NUM_QUEUES {
            Err(ActivateError::BadActivate)
        } else {
            Ok(())
        }
    }

    /// Activates the device on the guest's memory and the negotiated queues.
    /// `queue_evts` is the number of queue notification handles that came with
    /// them, `kill_evt` a fresh handle for the kill notification.
    ///
    /// With counts other than two and two the activation fails and the device
    /// is left as it was.  Otherwise the kill notification is armed and the
    /// output sink is taken.  If there is a sink, the result is the state for
    /// the worker, which owns the queues and the memory from then on, and the
    /// sink.  If there is none, because the device never had one or because an
    /// earlier activation took it, the activation fails.
    pub fn activate(
        &mut self,
        mem: GuestMemoryMmap<()>,
        queues: Vec<Queue>,
        queue_evts: usize,
        kill_evt: K,
    ) -> (r: Result<(ConsoleEpollHandler, W), ActivateError>)
        ensures
            !activation_fits(queues@.len(), queue_evts as nat) ==> final(self)@ == old(self)@,
            activation_fits(queues@.len(), queue_evts as nat) ==> final(self)@ == (ConsoleView {
                kill_evt: Some(kill_evt),
                out: None,
                ..old(self)@
            }),
            r is Ok <==> activation_fits(queues@.len(), queue_evts as nat) && old(self)@.out
                is Some,
            r matches Ok(started) ==> started.0.rx_queue == queues@[0] && started.0.tx_queue
                == queues@[1] && started.0.mem == mem && Some(started.1) == old(self)@.out,
            r is Err ==> r == Err::<(ConsoleEpollHandler, W), ActivateError>(
                ActivateError::BadActivate,
            ),
            old(self).wf() ==> final(self).wf(),
    {
        if queues.len() != NUM_QUEUES || queue_evts != NUM_QUEUES {
            return Err(ActivateError::BadActivate);
        }
        self.kill_evt = Some(kill_evt);
        let mut queues = queues;
        let tx_queue = queues.pop();
        let rx_queue = queues.pop();
        let out = self.out.take();
        match (rx_queue, tx_queue, out) {
            (Some(rx_queue), Some(tx_queue), Some(out)) => Ok(
                (ConsoleEpollHandler { rx_queue, tx_queue, mem }, out),
            ),
            _ => Err(ActivateError::BadActivate),
        }
    }

    /// Whether an activation has armed the kill notification.
    pub fn is_armed(&self) -> (armed: bool)
        ensures
            armed == self@.kill_evt is Some,
    {
        self.kill_evt.is_some()
    }

    /// Tears the device down: hands out the handle of the kill notification, if
    /// an activation armed it, for the caller to raise.  A second teardown
    /// finds nothing to raise.
    pub fn teardown(&mut self) -> (kill_evt: Option<K>)
        ensures
            kill_evt == old(self)@.kill_evt,
            final(self)@ == (ConsoleView { kill_evt: None, ..old(self)@ }),
            old(self).wf() ==> final(self).wf(),
    {
        self.kill_evt.take()
    }
}

} // verus!
