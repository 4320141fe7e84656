//! Bookkeeping for the terminal session: raw mode and the alternate screen are
//! taken once and given back exactly once, on every way out of the program.
//! The terminal calls themselves are made by the caller, as these decisions say.

use vstd::prelude::*;

verus! {

#[derive(Debug, Clone, Copy, PartialEq, Eq, Structural)]
pub enum SessionPhase {
    /// The terminal has not been taken.
    Idle,
    /// Raw mode and the alternate screen are on.
    Active,
    /// The terminal has been given back.
    Released,
}

/// Why the program stopped short.
#[derive(Debug, Clone, Copy, PartialEq, Eq, Structural)]
pub enum LoopError {
    /// Entering or leaving raw mode or the alternate screen failed.
    Session,
    /// The rendering backend failed.
    Draw,
    /// Polling or reading input failed.
    Input,
}

#[derive(Debug)]
pub struct Session {
    pub phase: SessionPhase,
}

/// The phase after a release attempt, and whether the terminal must be restored.
pub open spec fn release_spec(p: SessionPhase) -> (SessionPhase, bool) {
    if p == SessionPhase::Active {
        (SessionPhase::Released, true)
    } else {
        (p, false)
    }
}

/// How many of `k` successive release attempts restore the terminal.
pub open spec fn restores_over(p: SessionPhase, k: nat) -> nat
    decreases k,
{
    if k == 0 {
        0
    } else {
        (if release_spec(p).1 { 1nat } else { 0nat }) + restores_over(release_spec(p).0, (k - 1) as nat)
    }
}

/// The result the program reports: the loop's own error comes first; a clean
/// run reports a failed restore.
pub open spec fn outcome_spec(run: Result<(), LoopError>, restored: bool) -> Result<(), LoopError> {
    match run {
        Err(e) => Err(e),
        Ok(()) => if restored {
            Ok(())
        } else {
            Err(LoopError::Session)
        },
    }
}

impl Session {
    pub fn new() -> (r: Session)
        ensures
            r.phase == SessionPhase::Idle,
    {
        Session { phase: SessionPhase::Idle }
    }

    /// Marks the terminal as taken; only an idle session may take it.
    pub fn acquire(&mut self) -> (r: bool)
        ensures
            r == (old(self).phase == SessionPhase::Idle),
            final(self).phase == (if r {
                SessionPhase::Active
            } else {
                old(self).phase
            }),
    {
        match self.phase {
            SessionPhase::Idle => {
                self.phase = SessionPhase::Active;
                true
            },
            _ => false,
        }
    }

    /// Whether the caller must restore the terminal now: true only the first
    /// time after it was taken.
    pub fn release(&mut self) -> (r: bool)
        ensures
            (final(self).phase, r) == release_spec(old(self).phase),
    {
        match self.phase {
            SessionPhase::Active => {
                self.phase = SessionPhase::Released;
                true
            },
            _ => false,
        }
    }
}

/// Combines the loop's result with whether the terminal was restored.
pub fn outcome(run: Result<(), LoopError>, restored: bool) -> (r: Result<(), LoopError>)
    ensures
        r == outcome_spec(run, restored),
{
    match run {
        Err(e) => Err(e),
        Ok(()) => if restored {
            Ok(())
        } else {
            Err(LoopError::Session)
        },
    }
}

/// The process exit code for a reported result: zero exactly on success.
pub fn exit_code(r: &Result<(), LoopError>) -> (c: i32)
    ensures
        c == (if r.is_ok() { 0i32 } else { 1i32 }),
{
    match r {
        Ok(()) => 0,
        Err(_) => 1,
    }
}

/// However often release is attempted after the terminal was taken (on a
/// failure, then again on the way out), the terminal is restored exactly once,
/// at the first attempt.
pub proof fn lemma_restored_once(k: nat)
    requires
        k >= 1,
    ensures
        restores_over(SessionPhase::Active, k) == 1,
        release_spec(SessionPhase::Active).1,
{
    lemma_released_restores_nothing((k - 1) as nat);
}

/// A released session never restores again.
proof fn lemma_released_restores_nothing(k: nat)
    ensures
        restores_over(SessionPhase::Released, k) == 0,
    decreases k,
{
    if k > 0 {
        lemma_released_restores_nothing((k - 1) as nat);
    }
}

/// A failure in the loop is what the program reports, whether or not the
/// terminal could be restored afterwards.
pub proof fn lemma_failure_not_masked(e: LoopError, restored: bool)
    ensures
        outcome_spec(Err(e), restored) == Err::<(), LoopError>(e),
{
}

} // verus!
