//! The failures that the console reports.

use vstd::prelude::*;

verus! {

/// Why a device could not be activated.
#[derive(Clone, Copy, Debug, PartialEq, Eq, Structural)]
pub enum ActivateError {
    /// The queues, the notification handles or the device's own state do not
    /// allow an activation.
    BadActivate,
}

/// The failures that end the worker's loop.
#[derive(Clone, Copy, Debug, PartialEq, Eq, Structural)]
pub enum DeviceError {
    /// Waiting for events failed, and not because a signal interrupted the
    /// wait.
    EpollWait,
    /// The guest could not be told that the receive queue has used entries.
    FailedSignalingUsedQueue,
}

} // verus!
