use vstd::prelude::*;

verus! {

/// Whether a guarded section is in progress.
#[derive(Clone, Copy, Debug, PartialEq, Eq, Structural)]
pub enum GuardState {
    Unlocked,
    Locked,
}

/// The error raised when a guarded section is entered twice.
#[derive(Clone, Copy, Debug, PartialEq, Eq, Structural)]
pub enum ReentrancyError {
    ReentrantCall,
}

/// A single mutual-exclusion flag wrapped around every mutating operation.
#[derive(Clone, Copy, Debug, PartialEq, Eq, Structural)]
pub struct ReentrancyGuard {
    pub state: GuardState,
}

impl ReentrancyGuard {
    pub open spec fn locked(&self) -> bool {
        self.state == GuardState::Locked
    }

    /// A guard with no section in progress.
    pub fn new() -> (r: ReentrancyGuard)
        ensures
            !r.locked(),
    {
        ReentrancyGuard { state: GuardState::Unlocked }
    }

    /// Enters the guarded section; fails, changing nothing, if it is already entered.
    pub fn enter(&mut self) -> (r: Result<(), ReentrancyError>)
        ensures
            old(self).locked() ==> r == Err::<(), ReentrancyError>(ReentrancyError::ReentrantCall)
                && *final(self) == *old(self),
            !old(self).locked() ==> r is Ok && final(self).locked(),
    {
        if self.state == GuardState::Locked {
            return Err(ReentrancyError::ReentrantCall);
        }
        self.state = GuardState::Locked;
        Ok(())
    }

    /// Leaves the guarded section, whatever state it was in.
    pub fn exit(&mut self)
        ensures
            !final(self).locked(),
    {
        self.state = GuardState::Unlocked;
    }

    /// Whether a guarded section is in progress.
    pub fn is_locked(&self) -> (r: bool)
        ensures
            r == self.locked(),
    {
        self.state == GuardState::Locked
    }
}

} // verus!
