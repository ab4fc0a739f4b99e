//! The reconciliation loop as a state machine: the caller resolves, applies
//! and sleeps; the machine decides what comes next and keeps the applied
//! state.

use crate::membership::{
    build_snapshot, candidate_text, lemma_members_show, lemma_survivors_exact, scheme, survivors,
    texts, Snapshot,
};
use vstd::prelude::*;

verus! {

/// Where a cycle stands.
#[derive(Debug, PartialEq, Eq)]
pub enum Phase {
    /// Waiting for the next tick.
    Idle,
    /// The domain is being resolved.
    Resolving,
    /// The held candidate is being pushed to the store.
    Applying(Snapshot),
}

/// What the caller hands to the machine.
#[derive(Debug, Clone, PartialEq, Eq)]
pub enum Event {
    /// The timer fired.
    Tick,
    /// The domain resolved to these addresses, in their text form.
    Resolved(Vec<String>),
    /// The domain could not be resolved; the resolver's words.
    ResolveFailed(String),
    /// The store took the snapshot.
    ApplySucceeded,
    /// The store refused the snapshot, or the connection dropped; the
    /// store's words.
    ApplyFailed(String),
}

/// What the caller does next.
#[derive(Debug, Clone, PartialEq, Eq)]
pub enum Action {
    /// Resolve the domain and hand back `Resolved` or `ResolveFailed`.
    Resolve,
    /// Push this text to the store and hand back `ApplySucceeded` or
    /// `ApplyFailed`.
    Apply(String),
    /// The candidate is what the store already has: sleep until the next
    /// tick.
    Unchanged,
    /// Report the resolution error, given in the resolver's words, then
    /// sleep until the next tick.
    ReportResolveFailure(String),
    /// Report that the membership went from the first text to the second,
    /// then sleep until the next tick.
    ReportChange(String, String),
    /// Report that the store did not take the first text, with the store's
    /// words as the second, then sleep until the next tick.
    ReportApplyFailure(String, String),
    /// The event does not belong to the current phase: nothing changed.
    OutOfTurn,
}

/// A phase, with the held candidate as its text.
pub enum PhaseView {
    Idle,
    Resolving,
    Applying(Seq<char>),
}

/// An event, with the resolved addresses as their texts.
pub enum EventView {
    Tick,
    Resolved(Seq<Seq<char>>),
    ResolveFailed(Seq<char>),
    ApplySucceeded,
    ApplyFailed(Seq<char>),
}

/// An action, with the snapshots as their texts.
pub enum ActionView {
    Resolve,
    Apply(Seq<char>),
    Unchanged,
    ReportResolveFailure(Seq<char>),
    ReportChange(Seq<char>, Seq<char>),
    ReportApplyFailure(Seq<char>, Seq<char>),
    OutOfTurn,
}

/// The machine as a value: the exclusion set and the port it was made
/// with, the snapshot that the store last took, and the phase.
pub struct ReconcilerView {
    pub excluded: Set<Seq<char>>,
    pub port: nat,
    pub applied: Seq<char>,
    pub phase: PhaseView,
}

impl View for Phase {
    type V = PhaseView;

    open spec fn view(&self) -> PhaseView {
        match self {
            Phase::Idle => PhaseView::Idle,
            Phase::Resolving => PhaseView::Resolving,
            Phase::Applying(c) => PhaseView::Applying(c@),
        }
    }
}

impl View for Event {
    type V = EventView;

    open spec fn view(&self) -> EventView {
        match self {
            Event::Tick => EventView::Tick,
            Event::Resolved(addrs) => EventView::Resolved(texts(addrs@)),
            Event::ResolveFailed(detail) => EventView::ResolveFailed(detail@),
            Event::ApplySucceeded => EventView::ApplySucceeded,
            Event::ApplyFailed(detail) => EventView::ApplyFailed(detail@),
        }
    }
}

impl View for Action {
    type V = ActionView;

    open spec fn view(&self) -> ActionView {
        match self {
            Action::Resolve => ActionView::Resolve,
            Action::Apply(text) => ActionView::Apply(text@),
            Action::Unchanged => ActionView::Unchanged,
            Action::ReportResolveFailure(detail) => ActionView::ReportResolveFailure(detail@),
            Action::ReportChange(old_text, new_text) => ActionView::ReportChange(
                old_text@,
                new_text@,
            ),
            Action::ReportApplyFailure(text, detail) => ActionView::ReportApplyFailure(
                text@,
                detail@,
            ),
            Action::OutOfTurn => ActionView::OutOfTurn,
        }
    }
}

/// The machine before its first tick: nothing applied yet, idle.
pub open spec fn initial(excluded: Set<Seq<char>>, port: nat) -> ReconcilerView {
    ReconcilerView { excluded, port, applied: scheme(), phase: PhaseView::Idle }
}

/// The state with another phase.
pub open spec fn in_phase(s: ReconcilerView, phase: PhaseView) -> ReconcilerView {
    ReconcilerView { phase, ..s }
}

/// The transition: the state and the action that follow an event.
///
/// A tick starts a cycle. A failed resolution ends it with the applied
/// state untouched. A resolution gives a candidate, which is applied only
/// if it differs from the applied state. The applied state becomes the
/// candidate only when the store took it.
pub open spec fn next(s: ReconcilerView, e: EventView) -> (ReconcilerView, ActionView) {
    match (s.phase, e) {
        (PhaseView::Idle, EventView::Tick) => (
            in_phase(s, PhaseView::Resolving),
            ActionView::Resolve,
        ),
        (PhaseView::Resolving, EventView::Resolved(addrs)) => {
            let c = candidate_text(addrs, s.excluded, s.port);
            if c == s.applied {
                (in_phase(s, PhaseView::Idle), ActionView::Unchanged)
            } else {
                (in_phase(s, PhaseView::Applying(c)), ActionView::Apply(c))
            }
        },
        (PhaseView::Resolving, EventView::ResolveFailed(detail)) => (
            in_phase(s, PhaseView::Idle),
            ActionView::ReportResolveFailure(detail),
        ),
        (PhaseView::Applying(c), EventView::ApplySucceeded) => (
            ReconcilerView { applied: c, phase: PhaseView::Idle, ..s },
            ActionView::ReportChange(s.applied, c),
        ),
        (PhaseView::Applying(c), EventView::ApplyFailed(detail)) => (
            in_phase(s, PhaseView::Idle),
            ActionView::ReportApplyFailure(c, detail),
        ),
        _ => (s, ActionView::OutOfTurn),
    }
}

/// One whole cycle from an idle state: the tick, the resolution (`None`
/// where it failed) and, where an apply was asked for, the store's answer.
/// Gives the state after the cycle and the texts handed to the store. The
/// words of a failure do not bear on either, so the cycle is taken with
/// empty ones.
pub open spec fn cycle(s: ReconcilerView, resolved: Option<Seq<Seq<char>>>, accepted: bool) -> (
    ReconcilerView,
    Seq<Seq<char>>,
) {
    let ticked = next(s, EventView::Tick).0;
    let after = next(
        ticked,
        match resolved {
            Some(addrs) => EventView::Resolved(addrs),
            None => EventView::ResolveFailed(Seq::empty()),
        },
    );
    match after.1 {
        ActionView::Apply(c) => (
            next(
                after.0,
                if accepted {
                    EventView::ApplySucceeded
                } else {
                    EventView::ApplyFailed(Seq::empty())
                },
            ).0,
            seq![c],
        ),
        _ => (after.0, Seq::empty()),
    }
}

/// The reconciliation loop's own state.
pub struct Reconciler {
    excluded: Vec<String>,
    port: u32,
    applied: Snapshot,
    phase: Phase,
}

impl View for Reconciler {
    type V = ReconcilerView;

    closed spec fn view(&self) -> ReconcilerView {
        ReconcilerView {
            excluded: texts(self.excluded@).to_set(),
            port: self.port as nat,
            applied: self.applied@,
            phase: self.phase@,
        }
    }
}

impl Reconciler {
    /// A machine for the given exclusion set and port, with nothing
    /// applied yet.
    pub fn new(excluded: Vec<String>, port: u32) -> (r: Reconciler)
        ensures
            r@ == initial(texts(excluded@).to_set(), port as nat),
    {
        Reconciler { excluded, port, applied: Snapshot::empty(), phase: Phase::Idle }
    }

    /// The snapshot that the store last took.
    pub fn applied(&self) -> (s: &Snapshot)
        ensures
            s@ == self@.applied,
    {
        &self.applied
    }

    /// Whether the machine waits for a tick.
    pub fn is_idle(&self) -> (idle: bool)
        ensures
            idle == (self@.phase == PhaseView::Idle),
    {
        match &self.phase {
            Phase::Idle => true,
            _ => false,
        }
    }

    /// Takes one event and says what to do next.
    pub fn step(&mut self, event: Event) -> (action: Action)
        ensures
            (final(self)@, action@) == next(old(self)@, event@),
    {
        let pending: Option<Snapshot> = match &self.phase {
            Phase::Applying(c) => Some(c.clone()),
            _ => None,
        };
        let resolving = match &self.phase {
            Phase::Resolving => true,
            _ => false,
        };
        let idle = self.is_idle();
        match event {
            Event::Tick => {
                if idle {
                    self.phase = Phase::Resolving;
                    Action::Resolve
                } else {
                    Action::OutOfTurn
                }
            },
            Event::Resolved(addrs) => {
                if resolving {
                    let candidate = build_snapshot(&addrs, &self.excluded, self.port);
                    if candidate.same_as(&self.applied) {
                        self.phase = Phase::Idle;
                        Action::Unchanged
                    } else {
                        let text = candidate.to_text();
                        self.phase = Phase::Applying(candidate);
                        Action::Apply(text)
                    }
                } else {
                    Action::OutOfTurn
                }
            },
            Event::ResolveFailed(detail) => {
                if resolving {
                    self.phase = Phase::Idle;
                    Action::ReportResolveFailure(detail)
                } else {
                    Action::OutOfTurn
                }
            },
            Event::ApplySucceeded => {
                match pending {
                    Some(candidate) => {
                        let old_text = self.applied.to_text();
                        let new_text = candidate.to_text();
                        self.applied = candidate;
                        self.phase = Phase::Idle;
                        Action::ReportChange(old_text, new_text)
                    },
                    None => Action::OutOfTurn,
                }
            },
            Event::ApplyFailed(detail) => {
                match pending {
                    Some(candidate) => {
                        self.phase = Phase::Idle;
                        Action::ReportApplyFailure(candidate.to_text(), detail)
                    },
                    None => Action::OutOfTurn,
                }
            },
        }
    }
}

/// A cycle from an idle state ends idle, keeps the exclusion set and the
/// port, and hands the store at most one text.
pub proof fn lemma_cycle_ends_idle(
    s: ReconcilerView,
    resolved: Option<Seq<Seq<char>>>,
    accepted: bool,
)
    requires
        s.phase == PhaseView::Idle,
    ensures
        cycle(s, resolved, accepted).0.phase == PhaseView::Idle,
        cycle(s, resolved, accepted).0.excluded == s.excluded,
        cycle(s, resolved, accepted).0.port == s.port,
        cycle(s, resolved, accepted).1.len() <= 1,
{
}

/// Idempotence: once a cycle has brought the store to the candidate of a
/// resolved set (the store took it, or already had it), a further cycle on
/// the same resolved set hands the store nothing and changes nothing.
pub proof fn lemma_unchanged_resolution_applies_nothing(
    s: ReconcilerView,
    addrs: Seq<Seq<char>>,
    accepted_first: bool,
    accepted_second: bool,
)
    requires
        s.phase == PhaseView::Idle,
        accepted_first || candidate_text(addrs, s.excluded, s.port) == s.applied,
    ensures
        ({
            let first = cycle(s, Some(addrs), accepted_first).0;
            &&& first.applied == candidate_text(addrs, s.excluded, s.port)
            &&& cycle(first, Some(addrs), accepted_second).1 == Seq::<Seq<char>>::empty()
            &&& cycle(first, Some(addrs), accepted_second).0 == first
        }),
{
    let first = cycle(s, Some(addrs), accepted_first).0;
    assert(cycle(first, Some(addrs), accepted_second).1 =~= Seq::<Seq<char>>::empty());
}

/// Change detection: where the candidate differs from the applied state,
/// the cycle hands the store the candidate's text once, and the applied
/// state becomes the candidate if the store took it and stays otherwise.
pub proof fn lemma_change_is_applied_once(
    s: ReconcilerView,
    addrs: Seq<Seq<char>>,
    accepted: bool,
)
    requires
        s.phase == PhaseView::Idle,
        candidate_text(addrs, s.excluded, s.port) != s.applied,
    ensures
        cycle(s, Some(addrs), accepted).1 == seq![candidate_text(addrs, s.excluded, s.port)],
        cycle(s, Some(addrs), accepted).0.applied == if accepted {
            candidate_text(addrs, s.excluded, s.port)
        } else {
            s.applied
        },
{
}

/// A failed apply retains the target: the state after the cycle is the
/// state before it, and the next cycle on the same resolved set hands the
/// store the same candidate again.
pub proof fn lemma_failed_apply_is_retried(
    s: ReconcilerView,
    addrs: Seq<Seq<char>>,
    accepted_next: bool,
)
    requires
        s.phase == PhaseView::Idle,
        candidate_text(addrs, s.excluded, s.port) != s.applied,
    ensures
        cycle(s, Some(addrs), false).0 == s,
        cycle(cycle(s, Some(addrs), false).0, Some(addrs), accepted_next).1 == seq![
            candidate_text(addrs, s.excluded, s.port),
        ],
{
}

/// A failed resolution hands the store nothing and leaves the state as it
/// was.
pub proof fn lemma_failed_resolution_changes_nothing(s: ReconcilerView, accepted: bool)
    requires
        s.phase == PhaseView::Idle,
    ensures
        cycle(s, None, accepted).0 == s,
        cycle(s, None, accepted).1 == Seq::<Seq<char>>::empty(),
{
    assert(cycle(s, None, accepted).1 =~= Seq::<Seq<char>>::empty());
}

/// The applied state is always the initial snapshot or a text that the
/// store took: only `ApplySucceeded` in the applying phase changes it, and
/// then to the text that was handed out.
pub proof fn lemma_applied_changes_only_on_success(s: ReconcilerView, e: EventView)
    ensures
        next(s, e).0.applied != s.applied ==> (e == EventView::ApplySucceeded && s.phase
            == PhaseView::Applying(next(s, e).0.applied)),
        next(s, e).0.excluded == s.excluded,
        next(s, e).0.port == s.port,
{
}

/// Before anything was applied, a resolution that leaves a member is always
/// handed to the store: some resolved address is not excluded, so the
/// candidate is not the empty snapshot that the machine starts with.
pub proof fn lemma_first_membership_is_applied(
    excluded: Set<Seq<char>>,
    port: nat,
    addrs: Seq<Seq<char>>,
    accepted: bool,
)
    requires
        exists|a: Seq<char>| addrs.contains(a) && !excluded.contains(a),
    ensures
        cycle(initial(excluded, port), Some(addrs), accepted).1 == seq![
            candidate_text(addrs, excluded, port),
        ],
{
    let a = choose|a: Seq<char>| addrs.contains(a) && !excluded.contains(a);
    lemma_survivors_exact(addrs, excluded);
    assert(survivors(addrs, excluded).contains(a));
    lemma_members_show(survivors(addrs, excluded), port);
}

} // verus!
