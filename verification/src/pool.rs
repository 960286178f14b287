//! The connection pool manager's decision core: one swappable slot that
//! either holds the current pool handle or holds nothing.
//!
//! The embedding application keeps the slot behind a mutual-exclusion guard
//! and holds that guard only long enough to read or swap the handle — never
//! across a network round-trip — so replacing the pool cannot invalidate
//! connections already borrowed by in-flight requests.

use vstd::prelude::*;
use vstd::string::StringExecFns;

verus! {

/// The message returned when no pool has ever been established.
pub fn not_connected_error() -> (r: String)
    ensures
        r@ == "Not connected"@,
{
    String::from_str("Not connected")
}

/// A swappable slot for the one current pool handle.
pub struct PoolSlot<T> {
    /// The current handle, if a pool has been established.
    pub pool: Option<T>,
}

impl<T> PoolSlot<T> {
    /// A slot with no pool established yet.
    pub fn new() -> (r: Self)
        ensures
            r.pool is None,
    {
        PoolSlot { pool: None }
    }

    /// Whether a pool is currently established.
    pub fn is_connected(&self) -> (r: bool)
        ensures
            r == (self.pool is Some),
    {
        match &self.pool {
            Some(_) => true,
            None => false,
        }
    }

    /// Borrows the current handle: the handle exactly when one is
    /// established, and the typed "not connected" message — immediately,
    /// never blocking — when none ever was.
    pub fn current(&self) -> (r: Result<&T, String>)
        ensures
            r is Ok <==> self.pool is Some,
            r is Ok ==> r->Ok_0 == &self.pool->0,
            r is Err ==> r->Err_0@ == "Not connected"@,
    {
        match &self.pool {
            Some(p) => Ok(p),
            None => Err(not_connected_error()),
        }
    }

    /// Replaces the current pool, as on reconnect.  Handles already borrowed
    /// from the old pool are unaffected: they were cloned out of the slot.
    pub fn replace(&mut self, pool: T)
        ensures
            final(self).pool == Some(pool),
    {
        self.pool = Some(pool);
    }

    /// Clears the slot, as on disconnect.
    pub fn clear(&mut self)
        ensures
            final(self).pool is None,
    {
        self.pool = None;
    }
}

} // verus!
