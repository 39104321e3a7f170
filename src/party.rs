//! A data owner: it submits its pair, swaps masked pairs with the other
//! owner, and forwards the other owner's pair to the coordinator.
use crate::error::ProtocolError;
use crate::session::{classify, outcome_of, Action, Channel, Event, Outcome, Step};
use crate::wire::{encode_pair, pair_text};
use vstd::prelude::*;

verus! {

/// How a data owner takes part in the direct channel between the owners.
/// The one that binds sends first, the one that connects reads first, so
/// neither waits on a read the other has not written for.
#[derive(Clone, Copy, Debug, PartialEq, Eq, Structural)]
pub enum Role {
    /// Binds the rendezvous address of the peer channel and accepts.
    Listener,
    /// Connects to the address that the other owner bound.
    Connector,
}

/// The number of steps in a data owner's schedule before `Finish`.
pub const PARTY_STEPS: usize = 9;

/// A data owner's schedule: connect to the coordinator, send `x` and `y`,
/// read the own masked pair, open the peer channel, swap masked pairs in the
/// order of the role, forward the peer's pair to the coordinator, finish.
pub open spec fn party_schedule(role: Role, k: int) -> Step {
    if k == 0 {
        Step::Connect(Channel::Coordinator)
    } else if k == 1 {
        Step::Write(Channel::Coordinator)
    } else if 2 <= k < 4 {
        Step::Read(Channel::Coordinator)
    } else if k == 4 {
        if role == Role::Listener {
            Step::Accept(Channel::Peer)
        } else {
            Step::Connect(Channel::Peer)
        }
    } else if k == 5 {
        if role == Role::Listener {
            Step::Write(Channel::Peer)
        } else {
            Step::Read(Channel::Peer)
        }
    } else if k == 6 {
        Step::Read(Channel::Peer)
    } else if k == 7 {
        if role == Role::Listener {
            Step::Read(Channel::Peer)
        } else {
            Step::Write(Channel::Peer)
        }
    } else if k == 8 {
        Step::Write(Channel::Coordinator)
    } else {
        Step::Finish
    }
}

/// How many values a data owner has read once `k` steps are done.
pub open spec fn party_reads(role: Role, k: int) -> int {
    if k <= 2 {
        0
    } else if k <= 4 {
        k - 2
    } else if role == Role::Listener {
        if k <= 6 {
            2
        } else if k <= 8 {
            k - 4
        } else {
            4
        }
    } else {
        if k <= 5 {
            2
        } else if k <= 7 {
            k - 3
        } else {
            4
        }
    }
}

fn party_step(role: Role, k: usize) -> (r: Step)
    ensures
        r == party_schedule(role, k as int),
{
    let listener = role == Role::Listener;
    if k == 0 {
        Step::Connect(Channel::Coordinator)
    } else if k == 1 {
        Step::Write(Channel::Coordinator)
    } else if k < 4 {
        Step::Read(Channel::Coordinator)
    } else if k == 4 {
        if listener {
            Step::Accept(Channel::Peer)
        } else {
            Step::Connect(Channel::Peer)
        }
    } else if k == 5 {
        if listener {
            Step::Write(Channel::Peer)
        } else {
            Step::Read(Channel::Peer)
        }
    } else if k == 6 {
        Step::Read(Channel::Peer)
    } else if k == 7 {
        if listener {
            Step::Read(Channel::Peer)
        } else {
            Step::Write(Channel::Peer)
        }
    } else if k == 8 {
        Step::Write(Channel::Coordinator)
    } else {
        Step::Finish
    }
}

/// The state of one data owner's run.
pub struct Party {
    pub role: Role,
    /// The owner's private values, already narrowed to 64 bits.
    pub x: i64,
    pub y: i64,
    /// How many steps of the schedule are done.
    pub done: usize,
    /// The values read so far: the own masked pair from the coordinator,
    /// then the peer's masked pair.
    pub received: Vec<i64>,
    /// Set once the run has failed; the run then stays aborted.
    pub failure: Option<ProtocolError>,
}

pub struct PartyView {
    pub role: Role,
    pub x: i64,
    pub y: i64,
    pub done: int,
    pub received: Seq<i64>,
    pub failure: Option<ProtocolError>,
}

impl View for Party {
    type V = PartyView;

    open spec fn view(&self) -> PartyView {
        PartyView {
            role: self.role,
            x: self.x,
            y: self.y,
            done: self.done as int,
            received: self.received@,
            failure: self.failure,
        }
    }
}

/// A data owner's state after an event whose meaning is `o`. A run that
/// failed or finished does not change any more.
pub open spec fn party_next(s: PartyView, o: Outcome) -> PartyView {
    if s.failure is Some || s.done >= PARTY_STEPS {
        s
    } else {
        match o {
            Outcome::Advance => PartyView { done: s.done + 1, ..s },
            Outcome::Received(v) => PartyView { done: s.done + 1, received: s.received.push(v), ..s },
            Outcome::Fail(e) => PartyView { failure: Some(e), ..s },
            _ => s,
        }
    }
}

/// What a data owner writes at step `k`: its own pair to the coordinator
/// first, its masked pair to the peer, and at the end the peer's masked
/// pair back to the coordinator.
pub open spec fn party_payload(s: PartyView, k: int) -> Seq<u8> {
    if k == 1 {
        pair_text(s.x as int, s.y as int)
    } else if k == 8 {
        pair_text(s.received[2] as int, s.received[3] as int)
    } else {
        pair_text(s.received[0] as int, s.received[1] as int)
    }
}

/// The named stages of a data owner's run.
#[derive(Clone, Copy, Debug, PartialEq, Eq, Structural)]
pub enum PartyStage {
    Connect,
    SubmitShare,
    AwaitOwnMaskedValue,
    EstablishPeerChannel,
    ExchangeWithPeer,
    ForwardToCoordinator,
    Done,
    /// The run failed.
    Aborted,
}

pub open spec fn party_stage(s: PartyView) -> PartyStage {
    if s.failure is Some {
        PartyStage::Aborted
    } else if s.done == 0 {
        PartyStage::Connect
    } else if s.done == 1 {
        PartyStage::SubmitShare
    } else if s.done < 4 {
        PartyStage::AwaitOwnMaskedValue
    } else if s.done == 4 {
        PartyStage::EstablishPeerChannel
    } else if s.done < 8 {
        PartyStage::ExchangeWithPeer
    } else if s.done == 8 {
        PartyStage::ForwardToCoordinator
    } else {
        PartyStage::Done
    }
}

impl Party {
    pub open spec fn wf(&self) -> bool {
        &&& self.done <= PARTY_STEPS
        &&& self.received@.len() == party_reads(self.role, self.done as int)
    }

    /// A run that has not started: its first step connects to the coordinator.
    pub fn new(role: Role, x: i64, y: i64) -> (r: Party)
        ensures
            r.wf(),
            r.role == role,
            r.x == x,
            r.y == y,
            r.done == 0,
            r.received@.len() == 0,
            r.failure is None,
    {
        Party { role, x, y, done: 0, received: Vec::new(), failure: None }
    }

    /// The stage the run is in.
    pub fn stage(&self) -> (r: PartyStage)
        ensures
            r == party_stage(self@),
    {
        if self.failure.is_some() {
            PartyStage::Aborted
        } else if self.done == 0 {
            PartyStage::Connect
        } else if self.done == 1 {
            PartyStage::SubmitShare
        } else if self.done < 4 {
            PartyStage::AwaitOwnMaskedValue
        } else if self.done == 4 {
            PartyStage::EstablishPeerChannel
        } else if self.done < 8 {
            PartyStage::ExchangeWithPeer
        } else if self.done == 8 {
            PartyStage::ForwardToCoordinator
        } else {
            PartyStage::Done
        }
    }

    /// What the caller must do next.
    pub fn next_action(&self) -> (r: Action)
        requires
            self.wf(),
        ensures
            self.failure matches Some(e) ==> r == Action::Abort(e),
            self.failure is None ==> match party_schedule(self.role, self.done as int) {
                Step::Connect(c) => r == Action::Connect(c),
                Step::Accept(c) => r == Action::Accept(c),
                Step::DrawMasks => r == Action::DrawMasks,
                Step::Read(c) => r == Action::Read(c),
                Step::Write(c) => r matches Action::Write(d, bytes) && d == c && bytes@
                    == party_payload(self@, self.done as int),
                Step::Finish => r == Action::Complete,
            },
    {
        if let Some(e) = self.failure {
            return Action::Abort(e);
        }
        match party_step(self.role, self.done) {
            Step::Connect(c) => Action::Connect(c),
            Step::Accept(c) => Action::Accept(c),
            Step::DrawMasks => Action::DrawMasks,
            Step::Read(c) => Action::Read(c),
            Step::Write(c) => {
                let bytes = if self.done == 1 {
                    encode_pair(self.x, self.y)
                } else if self.done == 8 {
                    encode_pair(self.received[2], self.received[3])
                } else {
                    encode_pair(self.received[0], self.received[1])
                };
                Action::Write(c, bytes)
            },
            Step::Finish => Action::Complete,
        }
    }

    /// Takes in what happened to the pending step.
    pub fn handle(&mut self, event: Event)
        requires
            old(self).wf(),
        ensures
            final(self).wf(),
            final(self)@ == party_next(
                old(self)@,
                outcome_of(party_schedule(old(self).role, old(self).done as int), event),
            ),
    {
        if self.failure.is_some() || self.done >= PARTY_STEPS {
            return;
        }
        match classify(party_step(self.role, self.done), event) {
            Outcome::Advance => {
                self.done = self.done + 1;
            },
            Outcome::Received(v) => {
                self.received.push(v);
                self.done = self.done + 1;
            },
            Outcome::Fail(e) => {
                self.failure = Some(e);
            },
            _ => {},
        }
    }
}

} // verus!
