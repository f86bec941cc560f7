//! The events that wake the worker, and what each of them calls for.

use crate::error::DeviceError;
use vstd::prelude::*;

verus! {

/// New descriptors are pending on the receive queue.
pub const INPUT_QUEUE_EVENT: u16 = 0;

/// New descriptors are pending on the transmit queue.
pub const OUTPUT_QUEUE_EVENT: u16 = 1;

/// Some input from the host is ready to be injected into the guest.
pub const INPUT_EVENT: u16 = 2;

/// The device has been dropped.
pub const KILL_EVENT: u16 = 3;

/// How many ready events one wakeup hands over at most.
pub const EPOLL_EVENTS_LEN: usize = 100;

/// The four notification sources of the worker, and everything else.
#[derive(Clone, Copy, Debug, PartialEq, Eq, Structural)]
pub enum ConsoleEvent {
    /// The driver kicked the receive queue.
    InputQueue,
    /// The driver kicked the transmit queue.
    OutputQueue,
    /// Input has arrived on the channel.
    Input,
    /// The device is being torn down.
    Kill,
    /// A token that belongs to none of the sources.
    Unknown,
}

/// Whether the worker goes on waiting after an event.
#[derive(Clone, Copy, Debug, PartialEq, Eq, Structural)]
pub enum LoopControl {
    /// The worker waits for the next event.
    Continue,
    /// The worker leaves its loop for good.
    Stop,
}

/// The class of an interrupt raised towards the guest.
#[derive(Clone, Copy, Debug, PartialEq, Eq, Structural)]
pub enum VirtioInterruptType {
    /// The device's configuration changed.
    Config,
    /// A queue has used entries.
    Queue,
}

/// What handling one event led to.
#[derive(Clone, Copy, Debug, PartialEq, Eq, Structural)]
pub struct EventOutcome {
    /// Whether the loop goes on.
    pub control: LoopControl,
    /// The interrupt to raise for the receive queue, if any.
    pub interrupt: Option<VirtioInterruptType>,
}

/// The low sixteen bits of the data that came with a ready event.
pub open spec fn token_of(data: u64) -> u16 {
    (data & 0xffff) as u16
}

/// The event that a token stands for.
pub open spec fn event_of(token: u16) -> ConsoleEvent {
    if token == INPUT_QUEUE_EVENT {
        ConsoleEvent::InputQueue
    } else if token == OUTPUT_QUEUE_EVENT {
        ConsoleEvent::OutputQueue
    } else if token == INPUT_EVENT {
        ConsoleEvent::Input
    } else if token == KILL_EVENT {
        ConsoleEvent::Kill
    } else {
        ConsoleEvent::Unknown
    }
}

/// Tells which event the data of a ready event stands for.  Only the low
/// sixteen bits count.
pub fn decode_event(data: u64) -> (event: ConsoleEvent)
    ensures
        event == event_of(token_of(data)),
{
    let token = (data & 0xffff) as u16;
    if token == INPUT_QUEUE_EVENT {
        ConsoleEvent::InputQueue
    } else if token == OUTPUT_QUEUE_EVENT {
        ConsoleEvent::OutputQueue
    } else if token == INPUT_EVENT {
        ConsoleEvent::Input
    } else if token == KILL_EVENT {
        ConsoleEvent::Kill
    } else {
        ConsoleEvent::Unknown
    }
}

impl ConsoleEvent {
    /// The token under which the event's source is registered; `Unknown` has
    /// none.
    pub fn token(self) -> (token: Option<u16>)
        ensures
            self is Unknown <==> token is None,
            token matches Some(t) ==> event_of(t) == self,
    {
        match self {
            ConsoleEvent::InputQueue => Some(INPUT_QUEUE_EVENT),
            ConsoleEvent::OutputQueue => Some(OUTPUT_QUEUE_EVENT),
            ConsoleEvent::Input => Some(INPUT_EVENT),
            ConsoleEvent::Kill => Some(KILL_EVENT),
            ConsoleEvent::Unknown => None,
        }
    }

    /// The events whose notification is read before they are handled.
    pub open spec fn spec_needs_drain(self) -> bool {
        self is InputQueue || self is OutputQueue || self is Input
    }

    /// Whether the event's notification has to be read, and so reset, before
    /// the event is handled.  The kill notification is never read, so that it
    /// stays raised.
    #[verifier::when_used_as_spec(spec_needs_drain)]
    pub fn needs_drain(self) -> (drain: bool)
        ensures
            drain == self.spec_needs_drain(),
    {
        match self {
            ConsoleEvent::InputQueue | ConsoleEvent::OutputQueue | ConsoleEvent::Input => true,
            ConsoleEvent::Kill | ConsoleEvent::Unknown => false,
        }
    }
}

/// What a failed wait for events means.  An interrupted wait is no failure:
/// the result is `None` and the wait is to be tried again.  Any other failure
/// ends the loop with the error returned.
pub fn on_wait_error(interrupted: bool) -> (fatal: Option<DeviceError>)
    ensures
        fatal == (if interrupted {
            None
        } else {
            Some(DeviceError::EpollWait)
        }),
{
    if interrupted {
        None
    } else {
        Some(DeviceError::EpollWait)
    }
}

} // verus!
