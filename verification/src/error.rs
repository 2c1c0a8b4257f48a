//! Failures as the operator reads them.

use vstd::prelude::*;

verus! {

broadcast use vstd::string::group_string_axioms;

#[derive(Debug, PartialEq)]
pub enum Error {
    /// A command or a request went wrong.
    Rpc(String),
    /// The embedded Lua evaluator raised an error.
    Lua(String),
}

/// What a failure says.
pub enum ErrorModel {
    Rpc(Seq<char>),
    Lua(Seq<char>),
}

impl View for Error {
    type V = ErrorModel;

    open spec fn view(&self) -> ErrorModel {
        match self {
            Error::Rpc(s) => ErrorModel::Rpc(s@),
            Error::Lua(s) => ErrorModel::Lua(s@),
        }
    }
}

impl ErrorModel {
    pub open spec fn message(self) -> Seq<char> {
        match self {
            ErrorModel::Rpc(s) => s,
            ErrorModel::Lua(s) => s,
        }
    }
}

impl Error {
    pub fn rpc(message: &str) -> (r: Error)
        ensures
            r@ == ErrorModel::Rpc(message@),
    {
        Error::Rpc(message.to_owned())
    }

    /// The text of the failure.
    pub fn message(&self) -> (r: &String)
        ensures
            r@ == self@.message(),
    {
        match self {
            Error::Rpc(s) => s,
            Error::Lua(s) => s,
        }
    }
}

impl Clone for Error {
    fn clone(&self) -> (r: Error)
        ensures
            r@ == self@,
    {
        match self {
            Error::Rpc(s) => Error::Rpc(s.clone()),
            Error::Lua(s) => Error::Lua(s.clone()),
        }
    }
}

} // verus!
