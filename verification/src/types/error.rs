//! Type errors.
use vstd::prelude::*;

verus! {

/// Type error
#[derive(Debug)]
pub enum TypeError {
    /// Wrong version.
    WrongVersion(String),
    /// Wrong version kind.
    WrongVersionKind(String),
}

impl TypeError {
    /// The message that describes the error.
    pub fn message(&self) -> (res: String)
        ensures
            res@ == match self {
                TypeError::WrongVersion(s) => "Wrong version: "@ + s@,
                TypeError::WrongVersionKind(s) => "Wrong version kind: "@ + s@,
            },
    {
        match self {
            TypeError::WrongVersion(s) => {
                let mut res = String::from_str("Wrong version: ");
                res.append(s.as_str());
                res
            },
            TypeError::WrongVersionKind(s) => {
                let mut res = String::from_str("Wrong version kind: ");
                res.append(s.as_str());
                res
            },
        }
    }
}

} // verus!
