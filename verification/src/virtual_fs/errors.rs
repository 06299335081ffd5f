use vstd::prelude::*;
use vstd::string::*;

verus! {

/// Errors of the server's own state.
#[derive(Debug)]
pub enum GlobalError {
    ParseError(String),
    UninitializedVariable,
    ResetOnceLock,
}

impl GlobalError {
    /// The description that the error displays.
    pub fn description(&self) -> (r: String)
        ensures
            r@ == match *self {
                GlobalError::ParseError(msg) => msg@,
                GlobalError::UninitializedVariable => "'tries to be waited for before being initialized."@,
                GlobalError::ResetOnceLock => "Can't reset a oncelock static "@,
            },
    {
        match self {
            GlobalError::ParseError(msg) => msg.clone(),
            GlobalError::UninitializedVariable => String::from_str(
                "'tries to be waited for before being initialized.",
            ),
            GlobalError::ResetOnceLock => String::from_str("Can't reset a oncelock static "),
        }
    }
}

} // verus!
