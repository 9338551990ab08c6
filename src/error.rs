use vstd::prelude::*;

verus! {

/// Errors produced by this crate
#[derive(Debug, PartialEq, Eq)]
pub enum Error {
    /// An I/O error occurred
    Io(String),
    /// Serialization error
    Serialize(String),
    /// Deserialization error
    Deserialize(String),
}

impl Error {
    /// The message carried by this error
    pub fn message(&self) -> (r: &String)
        ensures
            r@ == match self {
                Error::Io(m) => m@,
                Error::Serialize(m) => m@,
                Error::Deserialize(m) => m@,
            },
    {
        match self {
            Error::Io(m) => m,
            Error::Serialize(m) => m,
            Error::Deserialize(m) => m,
        }
    }
}

} // verus!
