//! The coordinator: it masks each data owner's values, collects what the
//! owners forwarded to each other, and computes the aggregate.
use crate::error::ProtocolError;
use crate::field::{lemma_product_of_reduced, lemma_sum_of_reduced, lemma_unmask, modp, FieldElement, P};
use crate::session::{classify, outcome_of, Action, Channel, Event, Outcome, Step};
use crate::wire::{encode_pair, pair_text};
use vstd::arithmetic::div_mod::{lemma_add_mod_noop, lemma_fundamental_div_mod_converse};
use vstd::prelude::*;

verus! {

/// Relies on `rand::random_range`: a value drawn uniformly from the
/// half-open range `low..high`, which must not be empty.
#[verifier::external_body]
fn random_in(low: u64, high: u64) -> (r: u64)
    requires
        low < high,
    ensures
        low <= r < high,
{
    rand::random_range(low..high)
}

/// Draws the two masks of a run, one per data owner, each from `[1, P - 1)`:
/// never zero, since a zero mask blinds nothing.
pub fn draw_masks() -> (r: (FieldElement, FieldElement))
    ensures
        1 <= r.0.val() < P - 1,
        1 <= r.1.val() < P - 1,
{
    let a = random_in(1, P - 1);
    let b = random_in(1, P - 1);
    let ma = FieldElement::reduce(a as i64);
    let mb = FieldElement::reduce(b as i64);
    proof {
        lemma_fundamental_div_mod_converse(a as int, P as int, 0, a as int);
        lemma_fundamental_div_mod_converse(b as int, P as int, 0, b as int);
    }
    (ma, mb)
}

/// A raw value, reduced and blinded with mask `r`.
pub open spec fn masked(v: int, r: int) -> int {
    modp(modp(v) + r)
}

/// A forwarded value with mask `r` taken off.
pub open spec fn recovered(f: int, r: int) -> int {
    modp(f - r)
}

/// The expansion of `(x_a + x_b) * (y_a + y_b)`, its cross terms taken from
/// the recovered values.
pub open spec fn combined(xa: int, ya: int, xb: int, yb: int, rec_ya: int, rec_yb: int) -> int {
    modp(xa * ya + xa * rec_yb + xb * rec_ya + xb * yb)
}

/// Reduces `v` and adds the mask `r` to it.
pub fn mask_value(v: i64, r: &FieldElement) -> (m: FieldElement)
    ensures
        m.val() == masked(v as int, r.val()),
{
    FieldElement::reduce(v).add(r)
}

/// Takes the mask `r` off a value that a data owner forwarded.
pub fn unmask_value(forwarded: i64, r: &FieldElement) -> (m: FieldElement)
    ensures
        m.val() == recovered(forwarded as int, r.val()),
{
    let m = FieldElement::reduce(forwarded).sub(r);
    proof {
        lemma_mod_sub_reduced(forwarded as int, r.val());
    }
    m
}

proof fn lemma_mod_sub_reduced(f: int, r: int)
    ensures
        modp(modp(f) - r) == modp(f - r),
{
    lemma_add_mod_noop(f, -r, P as int);
    lemma_add_mod_noop(modp(f), -r, P as int);
    lemma_fundamental_div_mod_converse(modp(f), P as int, 0, modp(f));
}

/// The aggregate: `x_a*y_a + x_a*rec_yb + x_b*rec_ya + x_b*y_b` modulo `P`.
pub fn aggregate(
    xa: &FieldElement,
    ya: &FieldElement,
    xb: &FieldElement,
    yb: &FieldElement,
    rec_ya: &FieldElement,
    rec_yb: &FieldElement,
) -> (r: FieldElement)
    ensures
        r.val() == combined(xa.val(), ya.val(), xb.val(), yb.val(), rec_ya.val(), rec_yb.val()),
{
    let t1 = xa.mul(ya);
    let t2 = xa.mul(rec_yb);
    let t3 = xb.mul(rec_ya);
    let t4 = xb.mul(yb);
    let r = t1.add(&t2).add(&t3).add(&t4);
    proof {
        lemma_sum_of_reduced(
            xa.val() * ya.val(),
            xa.val() * rec_yb.val(),
            xb.val() * rec_ya.val(),
            xb.val() * yb.val(),
        );
    }
    r
}

/// When each data owner forwards the other's masked `y` unchanged, the
/// aggregate is `(x_a + x_b) * (y_a + y_b)` modulo `P`, whatever the masks.
pub proof fn lemma_aggregate_is_product(xa: int, ya: int, xb: int, yb: int, ra: int, rb: int)
    requires
        0 <= ra < P,
        0 <= rb < P,
    ensures
        combined(
            modp(xa),
            modp(ya),
            modp(xb),
            modp(yb),
            recovered(masked(ya, ra), ra),
            recovered(masked(yb, rb), rb),
        ) == modp((xa + xb) * (ya + yb)),
{
    let p = P as int;
    let (a, b, c, d) = (modp(xa), modp(ya), modp(xb), modp(yb));
    lemma_unmask(b, ra);
    lemma_unmask(d, rb);
    assert(a * b + a * d + c * b + c * d == (a + c) * (b + d)) by (nonlinear_arith);
    lemma_product_of_reduced(a + c, b + d);
    lemma_add_mod_noop(xa, xb, p);
    lemma_add_mod_noop(ya, yb, p);
    lemma_product_of_reduced(xa + xb, ya + yb);
}

/// The number of steps in the coordinator's schedule before `Finish`.
pub const COORDINATOR_STEPS: usize = 13;

/// The coordinator's schedule: accept both owners, draw the masks, read each
/// owner's `x` and `y`, send each owner its masked pair, read the pair that
/// each owner forwarded, then finish.
pub open spec fn coordinator_schedule(k: int) -> Step {
    if k == 0 {
        Step::Accept(Channel::PartyA)
    } else if k == 1 {
        Step::Accept(Channel::PartyB)
    } else if k == 2 {
        Step::DrawMasks
    } else if 3 <= k < 5 {
        Step::Read(Channel::PartyA)
    } else if 5 <= k < 7 {
        Step::Read(Channel::PartyB)
    } else if k == 7 {
        Step::Write(Channel::PartyA)
    } else if k == 8 {
        Step::Write(Channel::PartyB)
    } else if 9 <= k < 11 {
        Step::Read(Channel::PartyA)
    } else if 11 <= k < 13 {
        Step::Read(Channel::PartyB)
    } else {
        Step::Finish
    }
}

/// How many values the coordinator has read once `k` steps are done.
pub open spec fn coordinator_reads(k: int) -> int {
    if k <= 3 {
        0
    } else if k <= 7 {
        k - 3
    } else if k <= 9 {
        4
    } else {
        k - 5
    }
}

fn coordinator_step(k: usize) -> (r: Step)
    ensures
        r == coordinator_schedule(k as int),
{
    if k == 0 {
        Step::Accept(Channel::PartyA)
    } else if k == 1 {
        Step::Accept(Channel::PartyB)
    } else if k == 2 {
        Step::DrawMasks
    } else if k < 5 {
        Step::Read(Channel::PartyA)
    } else if k < 7 {
        Step::Read(Channel::PartyB)
    } else if k == 7 {
        Step::Write(Channel::PartyA)
    } else if k == 8 {
        Step::Write(Channel::PartyB)
    } else if k < 11 {
        Step::Read(Channel::PartyA)
    } else if k < 13 {
        Step::Read(Channel::PartyB)
    } else {
        Step::Finish
    }
}

/// The state of one coordinator run.
pub struct Coordinator {
    /// How many steps of the schedule are done.
    pub done: usize,
    /// The values read so far, in order: the first owner's `x` and `y`, the
    /// second owner's `x` and `y`, the second owner's masked pair as the
    /// first owner forwarded it, the first owner's masked pair as the second
    /// owner forwarded it.
    pub received: Vec<i64>,
    pub mask_a: FieldElement,
    pub mask_b: FieldElement,
    /// Set once the run has failed; the run then stays aborted.
    pub failure: Option<ProtocolError>,
}

pub struct CoordinatorView {
    pub done: int,
    pub received: Seq<i64>,
    pub mask_a: FieldElement,
    pub mask_b: FieldElement,
    pub failure: Option<ProtocolError>,
}

impl View for Coordinator {
    type V = CoordinatorView;

    open spec fn view(&self) -> CoordinatorView {
        CoordinatorView {
            done: self.done as int,
            received: self.received@,
            mask_a: self.mask_a,
            mask_b: self.mask_b,
            failure: self.failure,
        }
    }
}

/// The coordinator's state after an event whose meaning is `o`. A run that
/// failed or finished does not change any more.
pub open spec fn coordinator_next(s: CoordinatorView, o: Outcome) -> CoordinatorView {
    if s.failure is Some || s.done >= COORDINATOR_STEPS {
        s
    } else {
        match o {
            Outcome::Advance => CoordinatorView { done: s.done + 1, ..s },
            Outcome::Received(v) => CoordinatorView {
                done: s.done + 1,
                received: s.received.push(v),
                ..s
            },
            Outcome::MasksDrawn(a, b) => CoordinatorView {
                done: s.done + 1,
                mask_a: a,
                mask_b: b,
                ..s
            },
            Outcome::Fail(e) => CoordinatorView { failure: Some(e), ..s },
            Outcome::Ignore => s,
        }
    }
}

/// The masked pair that the coordinator sends on channel `c`.
pub open spec fn coordinator_payload(s: CoordinatorView, c: Channel) -> Seq<u8> {
    if c == Channel::PartyA {
        pair_text(masked(s.received[0] as int, s.mask_a.val()), masked(s.received[1] as int, s.mask_a.val()))
    } else {
        pair_text(masked(s.received[2] as int, s.mask_b.val()), masked(s.received[3] as int, s.mask_b.val()))
    }
}

/// The aggregate of a run that has read all its values: each owner's
/// forwarded `y` is the other owner's, so it is unmasked with the other
/// owner's mask.
pub open spec fn run_aggregate(s: CoordinatorView) -> int {
    combined(
        modp(s.received[0] as int),
        modp(s.received[1] as int),
        modp(s.received[2] as int),
        modp(s.received[3] as int),
        recovered(s.received[7] as int, s.mask_a.val()),
        recovered(s.received[5] as int, s.mask_b.val()),
    )
}

/// When each owner forwards the other's masked pair unchanged, a run that
/// has read all its values reports `(x_a + x_b) * (y_a + y_b)` modulo `P`.
pub proof fn lemma_honest_run_reports_product(s: CoordinatorView)
    requires
        s.received.len() == 8,
        0 <= s.mask_a.val() < P,
        0 <= s.mask_b.val() < P,
        s.received[5] as int == masked(s.received[3] as int, s.mask_b.val()),
        s.received[7] as int == masked(s.received[1] as int, s.mask_a.val()),
    ensures
        run_aggregate(s) == modp(
            (s.received[0] + s.received[2]) * (s.received[1] + s.received[3]),
        ),
{
    lemma_aggregate_is_product(
        s.received[0] as int,
        s.received[1] as int,
        s.received[2] as int,
        s.received[3] as int,
        s.mask_a.val(),
        s.mask_b.val(),
    );
}

/// The named stages of a coordinator run.
#[derive(Clone, Copy, Debug, PartialEq, Eq, Structural)]
pub enum CoordinatorStage {
    /// Accepting one connection from each data owner.
    AwaitBothParties,
    /// Drawing the masks, then reading each owner's `x` and `y`.
    AwaitShares,
    /// Sending each owner its own masked pair.
    MaskAndRespond,
    /// Reading the pairs that the owners forwarded to each other.
    AwaitExchangedValues,
    /// Every value is in; the aggregate is ready.
    Aggregate,
    /// The run failed.
    Aborted,
}

pub open spec fn coordinator_stage(s: CoordinatorView) -> CoordinatorStage {
    if s.failure is Some {
        CoordinatorStage::Aborted
    } else if s.done < 2 {
        CoordinatorStage::AwaitBothParties
    } else if s.done < 7 {
        CoordinatorStage::AwaitShares
    } else if s.done < 9 {
        CoordinatorStage::MaskAndRespond
    } else if s.done < 13 {
        CoordinatorStage::AwaitExchangedValues
    } else {
        CoordinatorStage::Aggregate
    }
}

impl Coordinator {
    pub open spec fn wf(&self) -> bool {
        &&& self.done <= COORDINATOR_STEPS
        &&& self.received@.len() == coordinator_reads(self.done as int)
    }

    /// A run that has not started: its first step accepts the first owner.
    pub fn new() -> (r: Coordinator)
        ensures
            r.wf(),
            r.done == 0,
            r.received@.len() == 0,
            r.failure is None,
    {
        Coordinator {
            done: 0,
            received: Vec::new(),
            mask_a: FieldElement::reduce(0),
            mask_b: FieldElement::reduce(0),
            failure: None,
        }
    }

    /// The stage the run is in.
    pub fn stage(&self) -> (r: CoordinatorStage)
        ensures
            r == coordinator_stage(self@),
    {
        if self.failure.is_some() {
            CoordinatorStage::Aborted
        } else if self.done < 2 {
            CoordinatorStage::AwaitBothParties
        } else if self.done < 7 {
            CoordinatorStage::AwaitShares
        } else if self.done < 9 {
            CoordinatorStage::MaskAndRespond
        } else if self.done < 13 {
            CoordinatorStage::AwaitExchangedValues
        } else {
            CoordinatorStage::Aggregate
        }
    }

    /// What the caller must do next.
    pub fn next_action(&self) -> (r: Action)
        requires
            self.wf(),
        ensures
            self.failure matches Some(e) ==> r == Action::Abort(e),
            self.failure is None ==> match coordinator_schedule(self.done as int) {
                Step::Connect(c) => r == Action::Connect(c),
                Step::Accept(c) => r == Action::Accept(c),
                Step::DrawMasks => r == Action::DrawMasks,
                Step::Read(c) => r == Action::Read(c),
                Step::Write(c) => r matches Action::Write(d, bytes) && d == c && bytes@
                    == coordinator_payload(self@, c),
                Step::Finish => r matches Action::Report(v) && v.val() == run_aggregate(self@),
            },
    {
        if let Some(e) = self.failure {
            return Action::Abort(e);
        }
        match coordinator_step(self.done) {
            Step::Connect(c) => Action::Connect(c),
            Step::Accept(c) => Action::Accept(c),
            Step::DrawMasks => Action::DrawMasks,
            Step::Read(c) => Action::Read(c),
            Step::Write(c) => {
                let (x, y, r) = if c == Channel::PartyA {
                    (self.received[0], self.received[1], &self.mask_a)
                } else {
                    (self.received[2], self.received[3], &self.mask_b)
                };
                let mx = mask_value(x, r);
                let my = mask_value(y, r);
                Action::Write(c, encode_pair(mx.value() as i64, my.value() as i64))
            },
            Step::Finish => {
                let xa = FieldElement::reduce(self.received[0]);
                let ya = FieldElement::reduce(self.received[1]);
                let xb = FieldElement::reduce(self.received[2]);
                let yb = FieldElement::reduce(self.received[3]);
                let rec_yb = unmask_value(self.received[5], &self.mask_b);
                let rec_ya = unmask_value(self.received[7], &self.mask_a);
                Action::Report(aggregate(&xa, &ya, &xb, &yb, &rec_ya, &rec_yb))
            },
        }
    }

    /// Takes in what happened to the pending step.
    pub fn handle(&mut self, event: Event)
        requires
            old(self).wf(),
        ensures
            final(self).wf(),
            final(self)@ == coordinator_next(
                old(self)@,
                outcome_of(coordinator_schedule(old(self).done as int), event),
            ),
    {
        if self.failure.is_some() || self.done >= COORDINATOR_STEPS {
            return;
        }
        match classify(coordinator_step(self.done), event) {
            Outcome::Advance => {
                self.done = self.done + 1;
            },
            Outcome::Received(v) => {
                self.received.push(v);
                self.done = self.done + 1;
            },
            Outcome::MasksDrawn(a, b) => {
                self.mask_a = a;
                self.mask_b = b;
                self.done = self.done + 1;
            },
            Outcome::Fail(e) => {
                self.failure = Some(e);
            },
            Outcome::Ignore => {},
        }
    }
}

} // verus!
