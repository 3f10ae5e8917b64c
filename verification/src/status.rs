use vstd::prelude::*;

verus! {

/// Lifecycle marker recorded with every envelope written to the log.
///
/// Replay tells the three kinds of write apart by this tag alone: `In` and
/// `Up` store the payload under the identifier, `De` removes the identifier.
#[derive(Debug, Clone, Copy, PartialEq, Eq, Structural)]
pub enum Status {
    /// The envelope records a fresh insert.
    In,
    /// The envelope records the replacement of a live value.
    Up,
    /// The envelope records a removal.
    De,
}

impl Default for Status {
    fn default() -> (s: Self)
        ensures
            s == Status::In,
    {
        Status::In
    }
}

} // verus!
