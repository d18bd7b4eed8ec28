//! Locking and unlocking a pool, which only its authority may do.

use vstd::prelude::*;
use crate::error::AmmError;
use crate::state::{Config, Pubkey};

verus! {

/// A request to lock or unlock a pool: who asks, and the pool's record.
#[derive(Clone, Copy, Debug, PartialEq, Eq)]
pub struct Update {
    pub user: Pubkey,
    pub config: Config,
}

impl Update {
    /// The caller is the authority that the record names. Where it names none,
    /// no caller is.
    pub open spec fn is_authority(&self) -> bool {
        self.config.authority == Some(self.user)
    }

    /// The same request with the record's lock flag set to `locked` and nothing
    /// else changed.
    pub open spec fn with_locked(self, locked: bool) -> Update {
        Update { user: self.user, config: Config { locked, ..self.config } }
    }

    /// Locks the pool for the authority, whether or not it was locked before;
    /// any other caller is refused with `InvalidAuthority` and changes nothing.
    pub fn lock(&mut self) -> (r: Result<(), AmmError>)
        ensures
            match r {
                Ok(_) => old(self).is_authority() && *final(self) == old(self).with_locked(true),
                Err(e) => {
                    &&& !old(self).is_authority()
                    &&& e == AmmError::InvalidAuthority
                    &&& *final(self) == *old(self)
                },
            },
    {
        if !(self.config.authority == Some(self.user)) {
            return Err(AmmError::InvalidAuthority);
        }
        self.config.locked = true;
        Ok(())
    }

    /// Unlocks the pool for the authority, whether or not it was locked before;
    /// any other caller is refused with `InvalidAuthority` and changes nothing.
    pub fn unlock(&mut self) -> (r: Result<(), AmmError>)
        ensures
            match r {
                Ok(_) => old(self).is_authority() && *final(self) == old(self).with_locked(false),
                Err(e) => {
                    &&& !old(self).is_authority()
                    &&& e == AmmError::InvalidAuthority
                    &&& *final(self) == *old(self)
                },
            },
    {
        if !(self.config.authority == Some(self.user)) {
            return Err(AmmError::InvalidAuthority);
        }
        self.config.locked = false;
        Ok(())
    }
}

/// Locking twice in a row leaves the same record as locking once, and so does
/// unlocking: the second call is let through exactly as the first was and finds
/// the flag already set as it would set it.
pub proof fn lemma_lock_idempotent(request: Update, locked: bool)
    ensures
        request.with_locked(locked).is_authority() == request.is_authority(),
        request.with_locked(locked).with_locked(locked) == request.with_locked(locked),
{
}

/// Locking and unlocking touch the lock flag and nothing else, so each undoes
/// the other for as long as the authority wishes.
pub proof fn lemma_lock_reversible(request: Update, locked: bool)
    ensures
        request.with_locked(locked).config.locked == locked,
        request.with_locked(locked).config.fee == request.config.fee,
        request.with_locked(locked).config.authority == request.config.authority,
        request.with_locked(locked).with_locked(request.config.locked) == request,
{
}

} // verus!
