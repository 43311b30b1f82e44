//! The request/reply boundary of the server: the stores it owns, and the
//! step that turns one framed request into one reply.

use crate::commands::{ExecutionError, ParserError};
use crate::index::{consistent, dispatch, server_model, Index, ServerModel};
use crate::list_executor::ListExecutor;
use crate::resp::{error_reply, format_error_bytes};
use crate::string_executor::StringExecutor;
use crate::tokenizer::{frame, identify_command};
use crate::value::bytes_slice;
use vstd::prelude::*;
use vstd::slice::slice_to_vec;
use vstd::utf8::encode_utf8;

verus! {

/// The typed stores.
pub struct Databases {
    pub string: StringExecutor,
    pub list: ListExecutor,
}

impl Databases {
    pub open spec fn wf(&self) -> bool {
        self.string.wf() && self.list.wf()
    }

    pub fn new() -> (r: Databases)
        ensures
            r.wf(),
            r.string@ == Map::<Seq<char>, Seq<u8>>::empty(),
            r.list@ == Map::<Seq<char>, Seq<Seq<u8>>>::empty(),
    {
        Databases { string: StringExecutor::new(), list: ListExecutor::new() }
    }
}

/// The reply to one framed request, and the state it leaves: a framing
/// error or a failed command is answered as an error reply and changes nothing.
pub open spec fn respond(m: ServerModel, request: Seq<u8>) -> (ServerModel, Seq<u8>) {
    match frame(request) {
        Err(e) => (m, error_reply(encode_utf8(e))),
        Ok(argv) => {
            let (m2, r) = dispatch(m, argv);
            match r {
                Ok(reply) => (m2, reply),
                Err(e) => (m2, error_reply(encode_utf8(e))),
            }
        },
    }
}

/// Answers one framed request.
pub fn handle_request(index: &mut Index, databases: &mut Databases, request: &[u8]) -> (r: Vec<u8>)
    requires
        old(index).wf(),
        old(databases).wf(),
        consistent(server_model(old(index)@, old(databases))),
    ensures
        final(index).wf(),
        final(databases).wf(),
        consistent(server_model(final(index)@, final(databases))),
        (server_model(final(index)@, final(databases)), r@) == respond(
            server_model(old(index)@, old(databases)),
            request@,
        ),
{
    match identify_command(request) {
        Ok(argv) => match index.execute_command(databases, &argv) {
            Ok(reply) => slice_to_vec(bytes_slice(&reply)),
            Err(error) => format_execution_error(&error),
        },
        Err(error) => format_parse_error(&error),
    }
}

pub fn format_parse_error(error: &ParserError) -> (r: Vec<u8>)
    ensures
        r@ == error_reply(encode_utf8(error@)),
{
    format_error(error.get_message())
}

pub fn format_execution_error(error: &ExecutionError) -> (r: Vec<u8>)
    ensures
        r@ == error_reply(encode_utf8(error@)),
{
    format_error(error.get_message())
}

/// `-ERR <message> \r\n`
pub fn format_error(error: &str) -> (r: Vec<u8>)
    ensures
        r@ == error_reply(encode_utf8(error@)),
{
    format_error_bytes(error.as_bytes())
}

} // verus!
