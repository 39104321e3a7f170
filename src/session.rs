//! What the role machines ask their caller to do, and what the caller
//! reports back.
use crate::error::ProtocolError;
use crate::field::FieldElement;
use crate::wire::{decode_frame, decoded};
use vstd::prelude::*;

verus! {

/// One end of a channel, as seen by the role that uses it.
#[derive(Clone, Copy, Debug, PartialEq, Eq, Structural)]
pub enum Channel {
    /// The coordinator's channel to the first data owner.
    PartyA,
    /// The coordinator's channel to the second data owner.
    PartyB,
    /// A data owner's channel to the coordinator.
    Coordinator,
    /// The direct channel between the two data owners.
    Peer,
}

/// One operation of a role's fixed schedule.
#[derive(Clone, Copy, Debug, PartialEq, Eq, Structural)]
pub enum Step {
    Connect(Channel),
    Accept(Channel),
    DrawMasks,
    Read(Channel),
    Write(Channel),
    Finish,
}

/// What the caller reports once it has carried out an action.
pub enum Event {
    /// The pending connect, accept or write finished.
    Completed,
    /// The pending operation ran past the timeout.
    TimedOut,
    /// The line that a read returned, line break included; empty when the
    /// peer closed the channel.
    Line(Vec<u8>),
    /// The two masks that were drawn, for the first and the second data owner.
    Masks(FieldElement, FieldElement),
    /// The operation failed in the given way.
    Failed(ProtocolError),
}

/// What a role asks its caller to do next.
pub enum Action {
    Connect(Channel),
    Accept(Channel),
    DrawMasks,
    Read(Channel),
    /// Write these bytes, in full, to the channel.
    Write(Channel, Vec<u8>),
    /// The coordinator's run is over, with this aggregate.
    Report(FieldElement),
    /// A data owner's run is over.
    Complete,
    /// The run is aborted.
    Abort(ProtocolError),
}

/// What an event means for the step that was pending.
pub enum Outcome {
    /// The step is done.
    Advance,
    /// The step read this value.
    Received(i64),
    /// The step drew these masks.
    MasksDrawn(FieldElement, FieldElement),
    /// The run fails.
    Fail(ProtocolError),
    /// The event does not belong to the step and changes nothing.
    Ignore,
}

/// The error that a timeout means during `step`.
pub open spec fn timeout_error(step: Step) -> Option<ProtocolError> {
    match step {
        Step::Connect(_) => Some(ProtocolError::ConnectTimeout),
        Step::Accept(_) => Some(ProtocolError::AcceptTimeout),
        Step::Read(_) => Some(ProtocolError::ReadTimeout),
        Step::Write(_) => Some(ProtocolError::WriteTimeout),
        _ => None,
    }
}

pub open spec fn outcome_of(step: Step, event: Event) -> Outcome {
    match event {
        Event::Failed(e) => Outcome::Fail(e),
        Event::TimedOut => match timeout_error(step) {
            Some(e) => Outcome::Fail(e),
            None => Outcome::Ignore,
        },
        Event::Completed => match step {
            Step::Connect(_) | Step::Accept(_) | Step::Write(_) => Outcome::Advance,
            _ => Outcome::Ignore,
        },
        Event::Line(l) => match step {
            Step::Read(_) => match decoded(l@) {
                Ok(v) => Outcome::Received(v),
                Err(e) => Outcome::Fail(e),
            },
            _ => Outcome::Ignore,
        },
        Event::Masks(a, b) => match step {
            Step::DrawMasks => Outcome::MasksDrawn(a, b),
            _ => Outcome::Ignore,
        },
    }
}

/// Decides what `event` means while `step` is pending.
pub fn classify(step: Step, event: Event) -> (r: Outcome)
    ensures
        r == outcome_of(step, event),
{
    match event {
        Event::Failed(e) => Outcome::Fail(e),
        Event::TimedOut => match step {
            Step::Connect(_) => Outcome::Fail(ProtocolError::ConnectTimeout),
            Step::Accept(_) => Outcome::Fail(ProtocolError::AcceptTimeout),
            Step::Read(_) => Outcome::Fail(ProtocolError::ReadTimeout),
            Step::Write(_) => Outcome::Fail(ProtocolError::WriteTimeout),
            _ => Outcome::Ignore,
        },
        Event::Completed => match step {
            Step::Connect(_) | Step::Accept(_) | Step::Write(_) => Outcome::Advance,
            _ => Outcome::Ignore,
        },
        Event::Line(l) => match step {
            Step::Read(_) => match decode_frame(l.as_slice()) {
                Ok(v) => Outcome::Received(v),
                Err(e) => Outcome::Fail(e),
            },
            _ => Outcome::Ignore,
        },
        Event::Masks(a, b) => match step {
            Step::DrawMasks => Outcome::MasksDrawn(a, b),
            _ => Outcome::Ignore,
        },
    }
}

} // verus!
