//! The store connector's rules: the statement that carries a snapshot, and
//! the policy by which a connection is waited for.

use vstd::prelude::*;

verus! {

/// Seconds between two attempts to reach the store.
pub const RETRY_INTERVAL_SECS: u64 = 1;

/// The statement that sets the cluster address; its one parameter is the
/// snapshot's text.
pub fn update_statement() -> (q: &'static str)
    ensures
        q@ == "SET @@global.wsrep_cluster_address = ?"@,
{
    "SET @@global.wsrep_cluster_address = ?"
}

/// How far the connection has come.
#[derive(Clone, Copy, Debug, PartialEq, Eq, Structural)]
pub enum ConnectPhase {
    /// No pool yet.
    OpeningPool,
    /// A pool, but no connection from it yet.
    OpeningConnection,
    /// A live connection.
    Established,
}

/// What the caller does after an attempt.
#[derive(Clone, Copy, Debug, PartialEq, Eq, Structural)]
pub enum ConnectAction {
    /// Wait out the retry interval, give the notice that the server is
    /// awaited, and try to open the pool again.
    RetryPool,
    /// The pool is open: ask it for a connection.
    OpenConnection,
    /// Wait out the retry interval, give the notice that a connection is
    /// awaited, and ask the pool again.
    RetryConnection,
    /// The connection stands: report it and go on.
    Proceed,
}

/// The phase and the action that follow one attempt of the phase's step.
/// A failure never ends the wait: it leaves the phase as it is and asks for
/// the same step again.
pub open spec fn after_attempt(phase: ConnectPhase, succeeded: bool) -> (
    ConnectPhase,
    ConnectAction,
) {
    match phase {
        ConnectPhase::OpeningPool => if succeeded {
            (ConnectPhase::OpeningConnection, ConnectAction::OpenConnection)
        } else {
            (ConnectPhase::OpeningPool, ConnectAction::RetryPool)
        },
        ConnectPhase::OpeningConnection => if succeeded {
            (ConnectPhase::Established, ConnectAction::Proceed)
        } else {
            (ConnectPhase::OpeningConnection, ConnectAction::RetryConnection)
        },
        ConnectPhase::Established => (ConnectPhase::Established, ConnectAction::Proceed),
    }
}

/// The phase after a run of attempts, each made in the phase that the one
/// before it left.
pub open spec fn after_attempts(phase: ConnectPhase, outcomes: Seq<bool>) -> ConnectPhase
    decreases outcomes.len(),
{
    if outcomes.len() == 0 {
        phase
    } else {
        after_attempt(after_attempts(phase, outcomes.drop_last()), outcomes.last()).0
    }
}

/// Seconds to wait before an action is carried out.
pub open spec fn delay_before(action: ConnectAction) -> nat {
    match action {
        ConnectAction::RetryPool | ConnectAction::RetryConnection => RETRY_INTERVAL_SECS as nat,
        _ => 0,
    }
}

/// Where the connecting starts.
pub fn connect_start() -> (phase: ConnectPhase)
    ensures
        phase == ConnectPhase::OpeningPool,
{
    ConnectPhase::OpeningPool
}

/// Decides what follows an attempt that was made in `phase`.
pub fn connect_step(phase: ConnectPhase, succeeded: bool) -> (r: (ConnectPhase, ConnectAction))
    ensures
        r == after_attempt(phase, succeeded),
{
    match phase {
        ConnectPhase::OpeningPool => {
            if succeeded {
                (ConnectPhase::OpeningConnection, ConnectAction::OpenConnection)
            } else {
                (ConnectPhase::OpeningPool, ConnectAction::RetryPool)
            }
        },
        ConnectPhase::OpeningConnection => {
            if succeeded {
                (ConnectPhase::Established, ConnectAction::Proceed)
            } else {
                (ConnectPhase::OpeningConnection, ConnectAction::RetryConnection)
            }
        },
        ConnectPhase::Established => (ConnectPhase::Established, ConnectAction::Proceed),
    }
}

/// The seconds to wait before carrying out an action: the fixed interval
/// before a retry, nothing otherwise.
pub fn retry_delay(action: ConnectAction) -> (secs: u64)
    ensures
        secs as nat == delay_before(action),
{
    match action {
        ConnectAction::RetryPool => RETRY_INTERVAL_SECS,
        ConnectAction::RetryConnection => RETRY_INTERVAL_SECS,
        _ => 0,
    }
}

/// No run of failures, however long, ends the wait or moves it back: the
/// phase stays where it was.
pub proof fn lemma_failures_keep_waiting(phase: ConnectPhase, outcomes: Seq<bool>)
    requires
        forall|i: int| 0 <= i < outcomes.len() ==> !outcomes[i],
    ensures
        after_attempts(phase, outcomes) == phase,
    decreases outcomes.len(),
{
    if outcomes.len() > 0 {
        lemma_failures_keep_waiting(phase, outcomes.drop_last());
    }
}

/// From the start, the connection stands exactly when two attempts
/// have succeeded.
pub proof fn lemma_established_after_two_successes(outcomes: Seq<bool>)
    ensures
        after_attempts(ConnectPhase::OpeningPool, outcomes) == ConnectPhase::Established
            <==> outcomes.filter(|ok: bool| ok).len() >= 2,
        after_attempts(ConnectPhase::OpeningPool, outcomes) == ConnectPhase::OpeningConnection
            <==> outcomes.filter(|ok: bool| ok).len() == 1,
    decreases outcomes.len(),
{
    reveal(Seq::filter);
    if outcomes.len() > 0 {
        lemma_established_after_two_successes(outcomes.drop_last());
    }
}

} // verus!
