//! The error of a lookup that cannot be answered.

use vstd::prelude::*;
use vstd::string::StringExecFns;

verus! {

/// Why a lookup could not be answered, in words.
#[derive(Debug)]
pub struct RuntimeError {
    message: String,
}

impl View for RuntimeError {
    type V = Seq<char>;

    closed spec fn view(&self) -> Seq<char> {
        self.message@
    }
}

impl Clone for RuntimeError {
    fn clone(&self) -> (copy: Self)
        ensures
            copy@ == self@,
    {
        RuntimeError { message: self.message.clone() }
    }
}

impl RuntimeError {
    pub fn new(msg: &str) -> (error: RuntimeError)
        ensures
            error@ == msg@,
    {
        RuntimeError { message: String::from_str(msg) }
    }

    /// The message of the error.
    pub fn description(&self) -> (message: &str)
        ensures
            message@ == self@,
    {
        self.message.as_str()
    }
}

} // verus!
