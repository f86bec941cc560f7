//! Core of a virtio console device: the receive and transmit processors that
//! move bytes between a host-side channel and guest buffers, the dispatch rules
//! of the device's event loop, and the device's negotiation and activation
//! state.  Everything here is verified; the blocking loop, the notification
//! handles and the worker thread live with the embedding program.

pub mod device;
pub mod error;
pub mod event;
pub mod guest_memory;
pub mod handler;
pub mod input;
pub mod queue;
pub mod receive;
pub mod stream;
pub mod transmit;
