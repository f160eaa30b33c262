use vstd::prelude::*;

verus! {

/// Pagination state reported by the service with every listing page.
#[derive(Clone, Copy, Debug, PartialEq, Eq, Structural)]
pub struct Pagination {
    /// Continuation flag: the server claims further pages exist.
    pub has_more: bool,
    /// Server-reported total item count for the query.
    pub total: usize,
}

} // verus!
