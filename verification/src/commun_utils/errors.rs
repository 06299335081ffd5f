use vstd::prelude::*;
use vstd::string::*;

verus! {

/// Errors shared by the file readers and the server collections.
#[derive(Debug)]
pub enum GlobalError {
    ParseError(String),
    UninitializedVariable,
    ResetOnceLock,
    TryFromIntError,
    NotExistingDir(String),
    JsonSerialize,
    FileToBig,
    WasiError,
    SingleInstanceBreach,
    StringEnumInit(String),
}

/// The text that describes each error (without terminal colouring).
pub open spec fn global_error_text(e: GlobalError) -> Seq<char> {
    match e {
        GlobalError::ParseError(msg) => msg@,
        GlobalError::UninitializedVariable => "'tries to be waited for before being initialized."@,
        GlobalError::ResetOnceLock => "Can't reset a oncelock static."@,
        GlobalError::TryFromIntError => "value can't be transform."@,
        GlobalError::JsonSerialize => "can't serialize value."@,
        GlobalError::NotExistingDir(dir) => "the dir:'"@ + dir@ + "."@,
        GlobalError::FileToBig => "File to big to read."@,
        GlobalError::WasiError => "Something went wrong during the runing of a wasi component."@,
        GlobalError::SingleInstanceBreach => "instance cannot be duplicated."@,
        GlobalError::StringEnumInit(variante) => "variante enum: "@ + variante@ + "doesn't exist."@,
    }
}

impl GlobalError {
    /// The description that the error displays.
    pub fn description(&self) -> (r: String)
        ensures
            r@ == global_error_text(*self),
    {
        match self {
            GlobalError::ParseError(msg) => msg.clone(),
            GlobalError::UninitializedVariable => String::from_str(
                "'tries to be waited for before being initialized.",
            ),
            GlobalError::ResetOnceLock => String::from_str("Can't reset a oncelock static."),
            GlobalError::TryFromIntError => String::from_str("value can't be transform."),
            GlobalError::JsonSerialize => String::from_str("can't serialize value."),
            GlobalError::NotExistingDir(dir) => {
                let mut s = String::from_str("the dir:'");
                s.append(dir.as_str());
                s.append(".");
                s
            },
            GlobalError::FileToBig => String::from_str("File to big to read."),
            GlobalError::WasiError => String::from_str(
                "Something went wrong during the runing of a wasi component.",
            ),
            GlobalError::SingleInstanceBreach => String::from_str("instance cannot be duplicated."),
            GlobalError::StringEnumInit(variante) => {
                let mut s = String::from_str("variante enum: ");
                s.append(variante.as_str());
                s.append("doesn't exist.");
                s
            },
        }
    }
}

} // verus!
