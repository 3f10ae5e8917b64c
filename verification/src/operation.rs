use vstd::prelude::*;

verus! {

/// The kind of write that produced an entry of a batch result.
#[derive(Debug, Clone, Copy, PartialEq, Eq, Structural)]
pub enum Operation {
    Insert,
    Delete,
    Update,
}

impl Default for Operation {
    fn default() -> (op: Self)
        ensures
            op == Operation::Insert,
    {
        Operation::Insert
    }
}

} // verus!
