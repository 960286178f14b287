//! The part of the preference document that the engine itself produces:
//! one entry of the query history.  Loading and saving the document is the
//! embedding application's.

use vstd::prelude::*;

verus! {

/// One remembered statement of the query history.
pub struct QueryHistoryItem {
    /// The statement text as the user ran it.
    pub sql: String,
    /// When it was run, as timestamp text.
    pub timestamp: String,
}

} // verus!
