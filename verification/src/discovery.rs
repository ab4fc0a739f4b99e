//! Finding the node's own address: the policy by which the probe is
//! repeated until it gives one.

use vstd::prelude::*;

verus! {

/// What the caller does after a probe for the local address.
#[derive(Debug, Clone, PartialEq, Eq)]
pub enum ProbeAction {
    /// No address yet: wait out the retry interval, give the notice that
    /// the remote end is awaited, and probe again.
    Retry,
    /// The address was found: add it to the ignored ones.
    Use(String),
}

/// A probe action, with the address as its text.
pub enum ProbeActionView {
    Retry,
    Use(Seq<char>),
}

impl View for ProbeAction {
    type V = ProbeActionView;

    open spec fn view(&self) -> ProbeActionView {
        match self {
            ProbeAction::Retry => ProbeActionView::Retry,
            ProbeAction::Use(ip) => ProbeActionView::Use(ip@),
        }
    }
}

/// Decides what follows a probe: an address that was found is used, and a
/// probe that found none is repeated, however often it has failed before.
pub fn probe_step(found: Option<String>) -> (a: ProbeAction)
    ensures
        match found {
            Some(ip) => a@ == ProbeActionView::Use(ip@),
            None => a@ == ProbeActionView::Retry,
        },
{
    match found {
        Some(ip) => ProbeAction::Use(ip),
        None => ProbeAction::Retry,
    }
}

} // verus!
