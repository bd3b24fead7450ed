//! The out-of-process organ controller.
//!
//! Here the organ is an externally managed application. The controller never
//! owns the process: it spawns and detaches it, signals it with one-way
//! best-effort notifications, and trusts only a liveness probe — never a
//! stored identifier alone — when deciding whether the organ is alive. The
//! surrounding application reads the persisted identifier file, probes the
//! identifiers, performs the planned spawn and signals, and hands the
//! outcomes back.

use vstd::prelude::*;
use crate::shell::OrganState;
use crate::switcher::Action;
use crate::tracker::Tracker;
use crate::tracker::spec_reconcile;

verus! {

/// Why the external organ could not be opened.
#[derive(Clone, Copy, PartialEq, Eq, Structural, Debug)]
pub enum SpawnError {
    /// The external process could not be launched.
    SpawnFailed,
}

/// What an open request against the external organ decided.
#[derive(Clone, Copy, PartialEq, Eq, Structural, Debug)]
pub enum OpenDecision {
    /// The process is alive; a bring-to-front signal was planned instead of
    /// a second spawn.
    Signalled,
    /// No live process; the external process must be spawned and the outcome
    /// reported through `spawn_recorded`.
    NeedsSpawn,
}

/// The observable state of the external organ, given the reconciled live
/// identifier and the last requested visibility.
pub open spec fn spec_external_status(live: Option<u32>, frontmost: bool) -> OrganState {
    match live {
        Option::None => OrganState::Closed,
        Option::Some(_) => if frontmost {
            OrganState::Visible
        } else {
            OrganState::Background
        },
    }
}

/// Controller for an out-of-process organ: a liveness tracker plus the last
/// visibility this controller requested of the process.
pub struct ExternalOrgan {
    pub tracker: Tracker,
    pub frontmost: bool,
}

impl ExternalOrgan {
    /// A fresh controller: nothing tracked, nothing requested.
    pub fn new() -> (e: ExternalOrgan)
        ensures
            e.tracker.cached is None,
            !e.frontmost,
    {
        ExternalOrgan { tracker: Tracker::new(), frontmost: false }
    }

    /// Open the external organ. Liveness is reconciled first; a live process
    /// is only signalled to bring itself to the front — never spawned a
    /// second time — while a dead or absent one must be spawned, the outcome
    /// arriving through `spawn_recorded`.
    pub fn open(
        &mut self,
        persisted: Option<u32>,
        cached_alive: bool,
        persisted_alive: bool,
    ) -> (r: (OpenDecision, Vec<Action>))
        ensures
            final(self).tracker.cached == spec_reconcile(
                old(self).tracker.cached,
                persisted,
                cached_alive,
                persisted_alive,
            ),
            match spec_reconcile(
                old(self).tracker.cached,
                persisted,
                cached_alive,
                persisted_alive,
            ) {
                Option::Some(pid) => r.0 == OpenDecision::Signalled && r.1@ == seq![
                    Action::NotifyFront(pid),
                ] && final(self).frontmost,
                Option::None => r.0 == OpenDecision::NeedsSpawn && r.1@ == seq![
                    Action::SpawnOrgan,
                ] && final(self).frontmost == old(self).frontmost,
            },
    {
        let live = self.tracker.reconcile(persisted, cached_alive, persisted_alive);
        match live {
            Some(pid) => {
                self.frontmost = true;
                let mut acts: Vec<Action> = Vec::new();
                acts.push(Action::NotifyFront(pid));
                proof {
                    assert(acts@ =~= seq![Action::NotifyFront(pid)]);
                }
                (OpenDecision::Signalled, acts)
            },
            None => {
                let mut acts: Vec<Action> = Vec::new();
                acts.push(Action::SpawnOrgan);
                proof {
                    assert(acts@ =~= seq![Action::SpawnOrgan]);
                }
                (OpenDecision::NeedsSpawn, acts)
            },
        }
    }

    /// Record the outcome of the planned spawn. A launched process is
    /// tracked by the identifier the spawn reported and left detached; a
    /// failed launch is surfaced to the caller of the open request.
    pub fn spawn_recorded(&mut self, pid: Option<u32>) -> (r: Result<OrganState, SpawnError>)
        ensures
            pid matches Option::Some(p) ==> r == Result::<OrganState, SpawnError>::Ok(
                OrganState::Visible,
            ) && final(self).tracker.cached == Option::Some(p) && final(self).frontmost,
            pid is None ==> r == Result::<OrganState, SpawnError>::Err(SpawnError::SpawnFailed)
                && *final(self) == *old(self),
    {
        match pid {
            Some(p) => {
                self.tracker.record_spawn(p);
                self.frontmost = true;
                Ok(OrganState::Visible)
            },
            None => Err(SpawnError::SpawnFailed),
        }
    }

    /// Ask the live process to bring itself to the front or send itself to
    /// the back. Signalling a dead or absent process is a silent no-op, never
    /// an error: the next status query reports it closed.
    pub fn show(
        &mut self,
        visible: bool,
        persisted: Option<u32>,
        cached_alive: bool,
        persisted_alive: bool,
    ) -> (acts: Vec<Action>)
        ensures
            final(self).tracker.cached == spec_reconcile(
                old(self).tracker.cached,
                persisted,
                cached_alive,
                persisted_alive,
            ),
            match spec_reconcile(
                old(self).tracker.cached,
                persisted,
                cached_alive,
                persisted_alive,
            ) {
                Option::Some(pid) => acts@ == (if visible {
                    seq![Action::NotifyFront(pid)]
                } else {
                    seq![Action::NotifyBack(pid)]
                }) && final(self).frontmost == visible,
                Option::None => acts@ == Seq::<Action>::empty() && final(self).frontmost == old(
                    self,
                ).frontmost,
            },
    {
        let live = self.tracker.reconcile(persisted, cached_alive, persisted_alive);
        match live {
            Some(pid) => {
                self.frontmost = visible;
                let mut acts: Vec<Action> = Vec::new();
                if visible {
                    acts.push(Action::NotifyFront(pid));
                    proof {
                        assert(acts@ =~= seq![Action::NotifyFront(pid)]);
                    }
                } else {
                    acts.push(Action::NotifyBack(pid));
                    proof {
                        assert(acts@ =~= seq![Action::NotifyBack(pid)]);
                    }
                }
                acts
            },
            None => Vec::new(),
        }
    }

    /// Close the external organ: plan a one-way termination request and the
    /// removal of the persisted identifier file, and clear the cached
    /// identifier. Termination is not confirmed synchronously — the signal is
    /// trusted and the bookkeeping cleared. Closing with nothing tracked is a
    /// no-op, not an error.
    pub fn close(&mut self) -> (acts: Vec<Action>)
        ensures
            old(self).tracker.cached matches Option::Some(pid) ==> acts@ == seq![
                Action::NotifyTerminate(pid),
                Action::RemovePidFile,
            ] && final(self).tracker.cached is None && !final(self).frontmost,
            old(self).tracker.cached is None ==> *final(self) == *old(self) && acts@ == Seq::<
                Action,
            >::empty(),
    {
        match self.tracker.cached_pid() {
            Some(pid) => {
                self.tracker.clear();
                self.frontmost = false;
                let mut acts: Vec<Action> = Vec::new();
                acts.push(Action::NotifyTerminate(pid));
                acts.push(Action::RemovePidFile);
                proof {
                    assert(acts@ =~= seq![Action::NotifyTerminate(pid), Action::RemovePidFile]);
                }
                acts
            },
            None => Vec::new(),
        }
    }

    /// Report the observable state, reconfirming liveness first: the report
    /// follows the reconciled live identifier — the persisted one when the
    /// two sources disagree and it alone is alive — and the cache is updated
    /// to match.
    pub fn status(
        &mut self,
        persisted: Option<u32>,
        cached_alive: bool,
        persisted_alive: bool,
    ) -> (r: OrganState)
        ensures
            final(self).tracker.cached == spec_reconcile(
                old(self).tracker.cached,
                persisted,
                cached_alive,
                persisted_alive,
            ),
            r == spec_external_status(
                spec_reconcile(old(self).tracker.cached, persisted, cached_alive, persisted_alive),
                old(self).frontmost,
            ),
            final(self).frontmost == old(self).frontmost,
    {
        let live = self.tracker.reconcile(persisted, cached_alive, persisted_alive);
        match live {
            None => OrganState::Closed,
            Some(_) => {
                if self.frontmost {
                    OrganState::Visible
                } else {
                    OrganState::Background
                }
            },
        }
    }
}

} // verus!
