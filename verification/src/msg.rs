use vstd::prelude::*;

verus! {

/// Payload of the initialize call: no semantic content.
#[derive(Clone, Copy, Debug, PartialEq, Eq)]
pub struct InstantiateMsg {}

/// Tagged union of the mutating calls.
#[derive(Clone, Copy, Debug, PartialEq, Eq)]
pub enum ExecuteMsg {
    Update {},
}

/// Tagged union of the read-only calls.
#[derive(Clone, Copy, Debug, PartialEq, Eq)]
pub enum QueryMsg {
    Counter {},
}

/// The structured query response: the current counter value.
#[derive(Clone, Copy, Debug, PartialEq, Eq)]
pub struct CounterResponse {
    pub counter: i32,
}

} // verus!
