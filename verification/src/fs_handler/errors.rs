use vstd::prelude::*;
use vstd::string::*;

verus! {

/// Errors of the sandboxed file handler.
#[derive(Debug)]
pub enum GlobalHandlerError {
    TryFromIntError,
}

impl GlobalHandlerError {
    /// The description that the error displays.
    pub fn description(&self) -> (r: String)
        ensures
            r@ == "value can't be transform"@,
    {
        match self {
            GlobalHandlerError::TryFromIntError => String::from_str("value can't be transform"),
        }
    }
}

impl From<core::num::TryFromIntError> for GlobalHandlerError {
    fn from(_e: core::num::TryFromIntError) -> (r: Self)
    {
        GlobalHandlerError::TryFromIntError
    }
}

impl vstd::std_specs::convert::FromSpecImpl<core::num::TryFromIntError> for GlobalHandlerError {
    open spec fn obeys_from_spec() -> bool {
        true
    }

    open spec fn from_spec(v: core::num::TryFromIntError) -> Self {
        GlobalHandlerError::TryFromIntError
    }
}

} // verus!
