use vstd::prelude::*;

verus! {

/// The operation that was attempted with a handle.
#[derive(Clone, Copy, Debug, PartialEq, Eq, Structural)]
pub enum Op {
    Wait,
    Release,
    Notify,
}

/// What was wrong with a handle: each of these is a broken usage contract,
/// which the caller is expected to treat as fatal.
#[derive(Clone, Copy, Debug, PartialEq, Eq, Structural)]
pub enum Violation {
    /// The tag of the handle selects no backend.
    UnknownTag,
    /// The backend does not know the handle's inner id.
    UnknownId,
    /// The slot was released while it was not occupied.
    DoubleRelease,
}

/// A usage error, naming the operation and the handle involved.
#[derive(Clone, Copy, Debug, PartialEq, Eq, Structural)]
pub struct NotifyError {
    pub kind: Violation,
    pub op: Op,
    pub id: u64,
}

} // verus!
