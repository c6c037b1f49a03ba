use vstd::prelude::*;

verus! {

/// The persisted contract state: a single counter field, serialized under a
/// fixed storage key.
#[derive(Clone, Copy, Debug, PartialEq, Eq)]
pub struct State {
    pub counter: i32,
}

} // verus!
