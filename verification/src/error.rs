use vstd::prelude::*;

verus! {

/// What can go wrong when a value meets a signature.
#[derive(Debug, Clone, Copy, PartialEq, Eq, Structural)]
pub enum Error {
    /// An expected signature and an observed one differ.
    IncorrectType,
}

impl Error {
    /// The message that describes this error.
    pub fn message(&self) -> (s: &'static str)
        ensures
            s@ == "incorrect type"@,
    {
        match self {
            Error::IncorrectType => "incorrect type",
        }
    }
}

} // verus!
