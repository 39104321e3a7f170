use std::collections::VecDeque;

use masked_product::coordinator::{Coordinator, CoordinatorStage};
use masked_product::error::ProtocolError;
use masked_product::field::{FieldElement, P};
use masked_product::party::{Party, PartyStage, Role};
use masked_product::session::{Action, Channel, Event};

/// The three roles of one run, wired together by in-memory line queues.
struct Net {
    coordinator: Coordinator,
    a: Party,
    b: Party,
    masks: (i64, i64),
    // Lines in flight, indexed by `queue`.
    queues: Vec<VecDeque<Vec<u8>>>,
    report: Option<u64>,
    aborted: Vec<ProtocolError>,
    completed: usize,
}

// 0: coordinator -> A, 1: A -> coordinator, 2: coordinator -> B,
// 3: B -> coordinator, 4: A -> B, 5: B -> A.
fn outgoing(who: usize, c: Channel) -> usize {
    match (who, c) {
        (0, Channel::PartyA) => 0,
        (0, Channel::PartyB) => 2,
        (1, Channel::Coordinator) => 1,
        (1, Channel::Peer) => 4,
        (2, Channel::Coordinator) => 3,
        (2, Channel::Peer) => 5,
        _ => panic!("no such channel"),
    }
}

fn incoming(who: usize, c: Channel) -> usize {
    match (who, c) {
        (0, Channel::PartyA) => 1,
        (0, Channel::PartyB) => 3,
        (1, Channel::Coordinator) => 0,
        (1, Channel::Peer) => 5,
        (2, Channel::Coordinator) => 2,
        (2, Channel::Peer) => 4,
        _ => panic!("no such channel"),
    }
}

fn split_lines(bytes: &[u8]) -> Vec<Vec<u8>> {
    let mut lines = Vec::new();
    let mut cur = Vec::new();
    for &b in bytes {
        cur.push(b);
        if b == b'\n' {
            lines.push(std::mem::take(&mut cur));
        }
    }
    assert!(cur.is_empty());
    lines
}

impl Net {
    fn new(xa: i64, ya: i64, xb: i64, yb: i64, ra: i64, rb: i64) -> Net {
        Net {
            coordinator: Coordinator::new(),
            a: Party::new(Role::Listener, xa, ya),
            b: Party::new(Role::Connector, xb, yb),
            masks: (ra, rb),
            queues: vec![VecDeque::new(); 6],
            report: None,
            aborted: Vec::new(),
            completed: 0,
        }
    }

    fn action(&self, who: usize) -> Action {
        match who {
            0 => self.coordinator.next_action(),
            1 => self.a.next_action(),
            _ => self.b.next_action(),
        }
    }

    fn deliver(&mut self, who: usize, e: Event) {
        match who {
            0 => self.coordinator.handle(e),
            1 => self.a.handle(e),
            _ => self.b.handle(e),
        }
    }

    /// Carries out one action of `who`; false when it cannot go on yet or is over.
    fn turn(&mut self, who: usize) -> bool {
        match self.action(who) {
            Action::Connect(_) | Action::Accept(_) => self.deliver(who, Event::Completed),
            Action::DrawMasks => {
                let (ra, rb) = self.masks;
                self.deliver(
                    who,
                    Event::Masks(FieldElement::reduce(ra), FieldElement::reduce(rb)),
                );
            }
            Action::Read(c) => match self.queues[incoming(who, c)].pop_front() {
                Some(line) => self.deliver(who, Event::Line(line)),
                None => return false,
            },
            Action::Write(c, bytes) => {
                let q = outgoing(who, c);
                for line in split_lines(&bytes) {
                    self.queues[q].push_back(line);
                }
                self.deliver(who, Event::Completed);
            }
            Action::Report(v) => {
                if self.report.is_none() {
                    self.report = Some(v.value());
                }
                return false;
            }
            Action::Complete => return false,
            Action::Abort(e) => {
                if !self.aborted.contains(&e) {
                    self.aborted.push(e);
                }
                return false;
            }
        }
        true
    }

    fn run(&mut self) {
        loop {
            let mut moved = false;
            for who in 0..3 {
                while self.turn(who) {
                    moved = true;
                }
            }
            if !moved {
                break;
            }
        }
        self.completed = [&self.a, &self.b]
            .iter()
            .filter(|p| matches!(p.next_action(), Action::Complete))
            .count();
    }
}

fn run(xa: i64, ya: i64, xb: i64, yb: i64, ra: i64, rb: i64) -> Net {
    let mut net = Net::new(xa, ya, xb, yb, ra, rb);
    net.run();
    net
}

#[test]
fn end_to_end_small_values() {
    let net = run(3, 4, 5, 6, 17, 123_456);
    assert_eq!(net.report, Some(80));
    assert_eq!(net.completed, 2);
    assert!(net.aborted.is_empty());
}

#[test]
fn end_to_end_at_the_reduction_boundary() {
    let net = run(P as i64 - 1, 2, 0, 0, 5, 999_999_999);
    assert_eq!(net.report, Some(P - 2));
    assert_eq!(net.completed, 2);
}

#[test]
fn end_to_end_result_does_not_depend_on_masks() {
    let expected = ((1_000_000_008u128 + 77) * (42 + 9_000_000_000)) % P as u128;
    for (ra, rb) in [(1, 1), (2, P as i64 - 2), (123_456_789, 987_654_321)] {
        let net = run(1_000_000_008, 42, 77, 9_000_000_000, ra, rb);
        assert_eq!(net.report, Some(expected as u64));
    }
}

#[test]
fn end_to_end_with_drawn_masks() {
    let (ra, rb) = masked_product::coordinator::draw_masks();
    let net = run(10, 20, 30, 40, ra.value() as i64, rb.value() as i64);
    assert_eq!(net.report, Some(40 * 60));
}

#[test]
fn parties_only_ever_see_masked_values_of_each_other() {
    let mut net = Net::new(3, 4, 5, 6, 100, 200);
    net.run();
    // The first owner's reads: its own pair masked with 100, then the
    // second owner's pair masked with 200.
    assert_eq!(net.a.received, vec![103, 104, 205, 206]);
    assert_eq!(net.b.received, vec![205, 206, 103, 104]);
}

#[test]
fn coordinator_sends_each_party_its_own_masked_pair() {
    let mut c = Coordinator::new();
    c.handle(Event::Completed);
    c.handle(Event::Completed);
    c.handle(Event::Masks(FieldElement::reduce(10), FieldElement::reduce(20)));
    for line in [&b"3\n"[..], b"4\n", b"5\n", b"6\n"] {
        assert!(matches!(c.next_action(), Action::Read(_)));
        c.handle(Event::Line(line.to_vec()));
    }
    match c.next_action() {
        Action::Write(Channel::PartyA, bytes) => assert_eq!(bytes, b"13\n14\n".to_vec()),
        _ => panic!("expected a write to the first owner"),
    }
    c.handle(Event::Completed);
    match c.next_action() {
        Action::Write(Channel::PartyB, bytes) => assert_eq!(bytes, b"25\n26\n".to_vec()),
        _ => panic!("expected a write to the second owner"),
    }
}

#[test]
fn disconnect_before_share_aborts_without_aggregate() {
    let mut c = Coordinator::new();
    c.handle(Event::Completed);
    c.handle(Event::Completed);
    assert!(matches!(c.next_action(), Action::DrawMasks));
    c.handle(Event::Masks(FieldElement::reduce(1), FieldElement::reduce(2)));
    c.handle(Event::Line(b"3\n".to_vec()));
    c.handle(Event::Line(b"4\n".to_vec()));
    assert!(matches!(c.next_action(), Action::Read(Channel::PartyB)));
    // The second owner closed its end: the read returns zero bytes.
    c.handle(Event::Line(Vec::new()));
    assert!(matches!(
        c.next_action(),
        Action::Abort(ProtocolError::PeerDisconnected)
    ));
    // Nothing afterwards revives the run.
    c.handle(Event::Line(b"5\n".to_vec()));
    c.handle(Event::Completed);
    assert!(matches!(
        c.next_action(),
        Action::Abort(ProtocolError::PeerDisconnected)
    ));
}

#[test]
fn read_timeout_aborts_the_run() {
    let mut c = Coordinator::new();
    c.handle(Event::Completed);
    c.handle(Event::Completed);
    c.handle(Event::Masks(FieldElement::reduce(1), FieldElement::reduce(2)));
    c.handle(Event::TimedOut);
    assert!(matches!(
        c.next_action(),
        Action::Abort(ProtocolError::ReadTimeout)
    ));
}

#[test]
fn accept_timeout_aborts_before_masks() {
    let mut c = Coordinator::new();
    assert!(matches!(c.next_action(), Action::Accept(Channel::PartyA)));
    c.handle(Event::TimedOut);
    assert!(matches!(
        c.next_action(),
        Action::Abort(ProtocolError::AcceptTimeout)
    ));
    assert_eq!(c.done, 0);
    // Masks are never asked for, even if they are offered.
    c.handle(Event::Masks(FieldElement::reduce(1), FieldElement::reduce(2)));
    assert_eq!(c.mask_a.value(), 0);
    assert!(matches!(
        c.next_action(),
        Action::Abort(ProtocolError::AcceptTimeout)
    ));
}

#[test]
fn second_accept_timeout_also_aborts() {
    let mut c = Coordinator::new();
    c.handle(Event::Completed);
    assert!(matches!(c.next_action(), Action::Accept(Channel::PartyB)));
    c.handle(Event::TimedOut);
    assert!(matches!(
        c.next_action(),
        Action::Abort(ProtocolError::AcceptTimeout)
    ));
}

#[test]
fn malformed_and_empty_frames_abort() {
    let mut c = Coordinator::new();
    c.handle(Event::Completed);
    c.handle(Event::Completed);
    c.handle(Event::Masks(FieldElement::reduce(1), FieldElement::reduce(2)));
    c.handle(Event::Line(b"12x\n".to_vec()));
    assert!(matches!(
        c.next_action(),
        Action::Abort(ProtocolError::MalformedNumber)
    ));

    let mut p = Party::new(Role::Connector, 1, 2);
    p.handle(Event::Completed);
    p.handle(Event::Completed);
    p.handle(Event::Line(b"   \n".to_vec()));
    assert!(matches!(
        p.next_action(),
        Action::Abort(ProtocolError::EmptyPayload)
    ));
}

#[test]
fn party_timeouts_name_the_pending_operation() {
    let mut p = Party::new(Role::Connector, 1, 2);
    p.handle(Event::TimedOut);
    assert!(matches!(p.next_action(), Action::Abort(ProtocolError::ConnectTimeout)));

    let mut p = Party::new(Role::Listener, 1, 2);
    p.handle(Event::Completed);
    p.handle(Event::TimedOut);
    assert!(matches!(p.next_action(), Action::Abort(ProtocolError::WriteTimeout)));

    let mut p = Party::new(Role::Listener, 1, 2);
    p.handle(Event::Completed);
    p.handle(Event::Completed);
    p.handle(Event::Line(b"5\n".to_vec()));
    p.handle(Event::Line(b"6\n".to_vec()));
    assert!(matches!(p.next_action(), Action::Accept(Channel::Peer)));
    p.handle(Event::TimedOut);
    assert!(matches!(p.next_action(), Action::Abort(ProtocolError::AcceptTimeout)));
}

#[test]
fn party_schedule_by_role() {
    let mut a = Party::new(Role::Listener, 7, 8);
    let mut b = Party::new(Role::Connector, 9, 10);
    for p in [&mut a, &mut b] {
        assert!(matches!(p.next_action(), Action::Connect(Channel::Coordinator)));
        p.handle(Event::Completed);
        match p.next_action() {
            Action::Write(Channel::Coordinator, bytes) => {
                assert_eq!(bytes, format!("{}\n{}\n", p.x, p.y).into_bytes())
            }
            _ => panic!("expected the share to be sent"),
        }
        p.handle(Event::Completed);
        p.handle(Event::Line(b"11\n".to_vec()));
        p.handle(Event::Line(b"12\n".to_vec()));
    }
    assert!(matches!(a.next_action(), Action::Accept(Channel::Peer)));
    assert!(matches!(b.next_action(), Action::Connect(Channel::Peer)));
    a.handle(Event::Completed);
    b.handle(Event::Completed);
    // The listener writes first, the connector reads first.
    assert!(matches!(a.next_action(), Action::Write(Channel::Peer, _)));
    assert!(matches!(b.next_action(), Action::Read(Channel::Peer)));
}

#[test]
fn coordinator_stages_follow_the_run() {
    let mut c = Coordinator::new();
    assert_eq!(c.stage(), CoordinatorStage::AwaitBothParties);
    c.handle(Event::Completed);
    c.handle(Event::Completed);
    assert_eq!(c.stage(), CoordinatorStage::AwaitShares);
    c.handle(Event::Masks(FieldElement::reduce(1), FieldElement::reduce(2)));
    for line in [&b"3\n"[..], b"4\n", b"5\n", b"6\n"] {
        c.handle(Event::Line(line.to_vec()));
    }
    assert_eq!(c.stage(), CoordinatorStage::MaskAndRespond);
    c.handle(Event::Completed);
    c.handle(Event::Completed);
    assert_eq!(c.stage(), CoordinatorStage::AwaitExchangedValues);
    for line in [&b"7\n"[..], b"8\n", b"4\n", b"5\n"] {
        c.handle(Event::Line(line.to_vec()));
    }
    assert_eq!(c.stage(), CoordinatorStage::Aggregate);
    c.handle(Event::TimedOut);
    assert_eq!(c.stage(), CoordinatorStage::Aggregate);
    assert!(matches!(c.next_action(), Action::Report(_)));

    let mut d = Coordinator::new();
    d.handle(Event::TimedOut);
    assert_eq!(d.stage(), CoordinatorStage::Aborted);
}

#[test]
fn party_stages_follow_the_run() {
    let mut p = Party::new(Role::Connector, 1, 2);
    assert_eq!(p.stage(), PartyStage::Connect);
    p.handle(Event::Completed);
    assert_eq!(p.stage(), PartyStage::SubmitShare);
    p.handle(Event::Completed);
    assert_eq!(p.stage(), PartyStage::AwaitOwnMaskedValue);
    p.handle(Event::Line(b"3\n".to_vec()));
    p.handle(Event::Line(b"4\n".to_vec()));
    assert_eq!(p.stage(), PartyStage::EstablishPeerChannel);
    p.handle(Event::Completed);
    assert_eq!(p.stage(), PartyStage::ExchangeWithPeer);
    p.handle(Event::Line(b"5\n".to_vec()));
    p.handle(Event::Line(b"6\n".to_vec()));
    p.handle(Event::Completed);
    assert_eq!(p.stage(), PartyStage::ForwardToCoordinator);
    match p.next_action() {
        Action::Write(Channel::Coordinator, bytes) => assert_eq!(bytes, b"5\n6\n".to_vec()),
        _ => panic!("expected the peer's pair to be forwarded"),
    }
    p.handle(Event::Completed);
    assert_eq!(p.stage(), PartyStage::Done);
    assert!(matches!(p.next_action(), Action::Complete));
}
