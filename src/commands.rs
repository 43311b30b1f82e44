//! The two error kinds that flow out of the core.

use vstd::prelude::*;

verus! {

/// A malformed frame, or a command whose arity or format is wrong.
#[derive(Debug)]
pub struct ParserError {
    message: String,
}

impl View for ParserError {
    type V = Seq<char>;

    closed spec fn view(&self) -> Seq<char> {
        self.message@
    }
}

impl ParserError {
    pub fn new(message: &str) -> (r: Self)
        ensures
            r@ == message@,
    {
        ParserError { message: message.to_owned() }
    }

    pub fn get_message(&self) -> (r: &str)
        ensures
            r@ == self@,
    {
        self.message.as_str()
    }
}

/// A semantic failure while executing a well-formed command.
#[derive(Debug)]
pub struct ExecutionError {
    message: String,
}

impl View for ExecutionError {
    type V = Seq<char>;

    closed spec fn view(&self) -> Seq<char> {
        self.message@
    }
}

impl ExecutionError {
    pub fn new(message: &str) -> (r: Self)
        ensures
            r@ == message@,
    {
        ExecutionError { message: message.to_owned() }
    }

    pub fn get_message(&self) -> (r: &str)
        ensures
            r@ == self@,
    {
        self.message.as_str()
    }
}

/// A parse failure surfaces to the client exactly as an execution failure
/// with the same message.
impl From<ParserError> for ExecutionError {
    fn from(e: ParserError) -> (r: Self)
        ensures
            r@ == e@,
    {
        ExecutionError { message: e.message }
    }
}

impl vstd::std_specs::convert::FromSpecImpl<ParserError> for ExecutionError {
    open spec fn obeys_from_spec() -> bool {
        true
    }

    closed spec fn from_spec(e: ParserError) -> ExecutionError {
        ExecutionError { message: e.message }
    }
}

} // verus!
