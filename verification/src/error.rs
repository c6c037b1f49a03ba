use vstd::prelude::*;

verus! {

/// The host's standard error vocabulary, as far as this contract surfaces
/// it: the read-only query reports its failures in these terms.
#[derive(Clone, Copy, Debug, PartialEq, Eq)]
pub enum StdError {
    /// No state record was ever written under the storage key.
    NotFound,
    /// The bytes under the storage key are not a well-formed counter record.
    ParseErr,
}

/// The custom error family of the mutating operations: it only passes
/// storage errors through, with no operation-specific variants.
#[derive(Clone, Copy, Debug, PartialEq, Eq)]
pub enum ContractError {
    Std(StdError),
}

impl StdError {
    /// What `describe` returns, as a spec-level sequence.
    pub open spec fn describe_spec(&self) -> Seq<char> {
        if *self == StdError::NotFound {
            "counter state not found"@
        } else {
            "counter state is not a well-formed record"@
        }
    }

    /// A short description of the error, for display by the caller.
    pub fn describe(&self) -> (s: &'static str)
        ensures
            s@ == self.describe_spec(),
    {
        match self {
            StdError::NotFound => "counter state not found",
            StdError::ParseErr => "counter state is not a well-formed record",
        }
    }
}

impl ContractError {
    /// The wrapped standard error, as a spec-level value.
    pub open spec fn source_spec(&self) -> StdError {
        match *self {
            ContractError::Std(e) => e,
        }
    }

    /// A short description of the error, for display by the caller.
    pub fn describe(&self) -> (s: &'static str)
        ensures
            s@ == self.source_spec().describe_spec(),
    {
        match self {
            ContractError::Std(e) => e.describe(),
        }
    }
}

} // verus!
