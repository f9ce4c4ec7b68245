//! The SPDM responder: it answers one request after the other, for ever.
use vstd::prelude::*;

verus! {

/// The responder's own I2C address.
pub const OWN_I2C_ADDR: u8 = 0x2b;

/// The I2C address of the requester.
pub const REMOTE_I2C_ADDR: u8 = 0x2a;

/// The responder's own MCTP endpoint.
pub const OWN_EID: u8 = 10;

/// What the firmware is to do next.
#[derive(Clone, Copy, Debug, PartialEq, Eq, Structural)]
pub enum Action {
    /// Reset the message buffer, receive a request, process it and respond to it.
    Process,
    /// Report that a request was processed, or that it was not.
    Report { processed: bool },
}

/// What came of an [`Action`].
#[derive(Clone, Copy, Debug, PartialEq, Eq, Structural)]
pub enum Event {
    /// Whether the request was processed.
    Processed(bool),
    /// The report was made.
    Reported,
}

/// The action that `event` leads to.
pub open spec fn next(event: Event) -> Action {
    match event {
        Event::Processed(processed) => Action::Report { processed },
        Event::Reported => Action::Process,
    }
}

/// Starts to wait for requests.
pub fn start() -> (action: Action)
    ensures
        action == Action::Process,
{
    Action::Process
}

/// Goes on, given what came of the last action.
pub fn resume(event: Event) -> (action: Action)
    ensures
        action == next(event),
{
    match event {
        Event::Processed(processed) => Action::Report { processed },
        Event::Reported => Action::Process,
    }
}

/// A request that could not be processed is reported and does not end the responder: it
/// waits for the next request, just as after one that was processed.
pub proof fn law_errors_do_not_end_the_responder(processed: bool)
    ensures
        next(Event::Processed(processed)) == (Action::Report { processed }),
        next(Event::Reported) == Action::Process,
{
}

} // verus!
