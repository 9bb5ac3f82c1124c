//! The terminal session: whether immersive mode is held and must still be
//! left. Releasing is idempotent, so a normal exit and a cleanup on unwinding
//! can both ask for it and the terminal is restored once.
use vstd::prelude::*;
use crate::controller::{exit_outcome, Fault};

verus! {

/// Whether the terminal is held in immersive mode.
#[derive(Clone, Copy, Debug, PartialEq, Eq, Structural)]
pub struct TerminalSession {
    pub active: bool,
}

/// The session after a release, and whether that release is the one that
/// must restore the terminal.
pub open spec fn release_spec(s: TerminalSession) -> (TerminalSession, bool) {
    (TerminalSession { active: false }, s.active)
}

impl TerminalSession {
    /// A session that does not hold the terminal yet.
    pub fn new() -> (r: TerminalSession)
        ensures
            !r.active,
    {
        TerminalSession { active: false }
    }

    /// Records that immersive mode was entered.
    pub fn activate(&mut self)
        ensures
            final(self).active,
    {
        self.active = true;
    }

    /// Gives the terminal back: `true` when the caller is to restore it now,
    /// `false` when it was not held or was already released.
    pub fn release(&mut self) -> (r: bool)
        ensures
            (*final(self), r) == release_spec(*old(self)),
    {
        let was = self.active;
        self.active = false;
        was
    }
}

/// Releasing twice restores the terminal at most once: the second release
/// asks for nothing and leaves the session as the first left it, and a fault
/// that came before restoration stays the session's outcome whatever
/// restoration did.
pub proof fn lemma_release_twice(s: TerminalSession, pending: Option<Fault>, restored_ok: bool)
    ensures
        ({
            let (s1, first) = release_spec(s);
            let (s2, second) = release_spec(s1);
            &&& first == s.active
            &&& !second
            &&& s2 == s1
            &&& !s1.active
        }),
        pending is Some ==> exit_outcome(pending, restored_ok) == pending,
{
}

} // verus!
