//! The string store: keys mapped to byte strings, with integer arithmetic on
//! values that spell decimal integers.

use crate::commands::{ExecutionError, ParserError};
use crate::index::{
    argv_view, build_typed, completed_view, outcome, parsed_view, typed_request, CommandCompleted,
    CommandIdentifier, IndexImpactOnCompletion, KeyType, OutcomeView, RedisCommandType,
    RequestView,
};
use crate::resp::{
    decimal, format_nil, format_ok, format_simple, i64_of, nil_reply, ok_reply, parse_i64,
    push_crlf, push_decimal, simple_reply,
};
use crate::string_storage::StringStorage;
use crate::value::{bytes_from_vec, bytes_slice};
use crate::verb::{verb_text, identify_verb_text, is_string_verb, verb_arity, verb_of_text, Verb};
use vstd::prelude::*;

verus! {

pub open spec fn not_integer_message() -> Seq<char> {
    "-ERR value is not an integer or out of range"@
}

pub open spec fn wrong_type_message() -> Seq<char> {
    "-WRONGTYPE Operation against a key holding the wrong kind of value"@
}

pub open spec fn string_arity_message(v: Verb) -> Seq<char> {
    match v {
        Verb::Get => "GET command requires exactly one parameter"@,
        Verb::SetValue => "SET command requires two parameter"@,
        Verb::Incr => "INCR command requires one parameter"@,
        Verb::IncrBy => "INCRBY command requires two parameter"@,
        Verb::Decr => "DECR command requires one parameter"@,
        _ => "DECRBY command requires two parameter"@,
    }
}

fn arity_message(v: Verb) -> (r: &'static str)
    ensures
        r@ == string_arity_message(v),
{
    match v {
        Verb::Get => "GET command requires exactly one parameter",
        Verb::SetValue => "SET command requires two parameter",
        Verb::Incr => "INCR command requires one parameter",
        Verb::IncrBy => "INCRBY command requires two parameter",
        Verb::Decr => "DECR command requires one parameter",
        _ => "DECRBY command requires two parameter",
    }
}

/// What building a string command from its arguments gives.
pub open spec fn string_build(argv: Seq<Seq<char>>) -> Result<RequestView, Seq<char>> {
    if argv.len() < 2 {
        Err("Not enough identifiers provided for string command"@)
    } else {
        match verb_of_text(argv[0]) {
            Some(v) => if !is_string_verb(v) {
                Err("Unsupported string command type"@)
            } else if argv.len() != verb_arity(v) {
                Err(string_arity_message(v))
            } else {
                Ok(typed_request(argv, v, RedisCommandType::StringCommand, KeyType::String))
            },
            None => Err("Unsupported string command type"@),
        }
    }
}

/// A request that the string store can carry out: a string verb with the
/// parameter it needs.
pub open spec fn string_request_ok(req: RequestView) -> bool {
    match req.verb {
        Some(v) => is_string_verb(v) ==> req.params.len() + 2 >= verb_arity(v),
        None => true,
    }
}

/// The amount an arithmetic verb adds, if its parameter spells a usable one.
pub open spec fn string_delta(v: Verb, params: Seq<Seq<u8>>) -> Option<int> {
    match v {
        Verb::Incr => Some(1),
        Verb::Decr => Some(-1),
        Verb::IncrBy => match i64_of(params[0]) {
            Some(d) => Some(d as int),
            None => None,
        },
        _ => match i64_of(params[0]) {
            Some(d) => if d == i64::MIN {
                None
            } else {
                Some(-d)
            },
            None => None,
        },
    }
}

/// The new value of an arithmetic command: the stored integer (zero when the
/// key is absent) plus the delta, if every part is an integer and the sum fits.
pub open spec fn adjusted(store: Map<Seq<char>, Seq<u8>>, key: Seq<char>, delta: Option<int>) -> Option<int> {
    match delta {
        None => None,
        Some(d) => {
            let current = if store.contains_key(key) {
                match i64_of(store[key]) {
                    Some(c) => Some(c as int),
                    None => None,
                }
            } else {
                Some(0)
            };
            match current {
                Some(c) => if i64::MIN <= c + d <= i64::MAX {
                    Some(c + d)
                } else {
                    None
                },
                None => None,
            }
        },
    }
}

pub open spec fn added_if_absent(store: Map<Seq<char>, Seq<u8>>, key: Seq<char>) -> IndexImpactOnCompletion {
    if store.contains_key(key) {
        IndexImpactOnCompletion::NoImpact
    } else {
        IndexImpactOnCompletion::Add
    }
}

/// What executing a request does to the string store, and what it answers.
pub open spec fn string_execute(store: Map<Seq<char>, Seq<u8>>, req: RequestView) -> (
    Map<Seq<char>, Seq<u8>>,
    Result<OutcomeView, Seq<char>>,
) {
    let t = req.target;
    match req.verb {
        Some(Verb::Get) => (
            store,
            Ok(
                outcome(
                    t,
                    KeyType::String,
                    IndexImpactOnCompletion::NoImpact,
                    if store.contains_key(t) {
                        simple_reply(store[t])
                    } else {
                        nil_reply()
                    },
                ),
            ),
        ),
        Some(Verb::SetValue) => (
            store.insert(t, req.params[0]),
            Ok(outcome(t, KeyType::String, added_if_absent(store, t), ok_reply())),
        ),
        Some(v) => if is_string_verb(v) {
            match adjusted(store, t, string_delta(v, req.params)) {
                Some(n) => (
                    store.insert(t, decimal(n)),
                    Ok(outcome(t, KeyType::String, added_if_absent(store, t), simple_reply(decimal(n)))),
                ),
                None => (store, Err(not_integer_message())),
            }
        } else {
            (store, Err(wrong_type_message()))
        },
        None => (store, Err(wrong_type_message())),
    }
}

pub struct StringExecutor {
    data: StringStorage,
}

impl View for StringExecutor {
    type V = Map<Seq<char>, Seq<u8>>;

    closed spec fn view(&self) -> Map<Seq<char>, Seq<u8>> {
        self.data@
    }
}

impl StringExecutor {
    pub closed spec fn wf(&self) -> bool {
        self.data.wf()
    }

    pub fn new() -> (r: StringExecutor)
        ensures
            r.wf(),
            r@ == Map::<Seq<char>, Seq<u8>>::empty(),
    {
        StringExecutor { data: StringStorage::new() }
    }

    pub fn is_command_supported(command: &str) -> (r: bool)
        ensures
            r == (verb_of_text(command@) matches Some(v) && is_string_verb(v)),
    {
        match identify_verb_text(command) {
            Some(v) => v.is_string_verb(),
            None => false,
        }
    }

    pub fn build_command(command: &Vec<String>) -> (r: Result<CommandIdentifier, ParserError>)
        ensures
            parsed_view(r) == string_build(argv_view(command@)),
            r matches Ok(c) ==> string_request_ok(c@),
            r matches Ok(c) ==> c@.verb matches Some(v) && c@.action == verb_text(v),
    {
        if command.len() < 2 {
            return Err(ParserError::new("Not enough identifiers provided for string command"));
        }
        match identify_verb_text(command[0].as_str()) {
            Some(v) => {
                if !v.is_string_verb() {
                    Err(ParserError::new("Unsupported string command type"))
                } else if command.len() != v.arity() {
                    Err(ParserError::new(arity_message(v)))
                } else {
                    Ok(build_typed(command, v, RedisCommandType::StringCommand, KeyType::String))
                }
            },
            None => Err(ParserError::new("Unsupported string command type")),
        }
    }

    pub fn execute_command(&mut self, command: &CommandIdentifier) -> (r: Result<
        CommandCompleted,
        ExecutionError,
    >)
        requires
            old(self).wf(),
            string_request_ok(command@),
        ensures
            final(self).wf(),
            (final(self)@, completed_view(r)) == string_execute(old(self)@, command@),
    {
        let target = command.get_target();
        match command.get_verb() {
            Some(Verb::Get) => {
                let reply = match self.data.get(target) {
                    Some(value) => format_simple(bytes_slice(&value)),
                    None => format_nil(),
                };
                Ok(
                    CommandCompleted::new(
                        target,
                        KeyType::String,
                        IndexImpactOnCompletion::NoImpact,
                        bytes_from_vec(reply),
                    ),
                )
            },
            Some(Verb::SetValue) => {
                let impact = if self.data.contains(target) {
                    IndexImpactOnCompletion::NoImpact
                } else {
                    IndexImpactOnCompletion::Add
                };
                let value = command.param(0);
                self.data.set(target, &value);
                Ok(CommandCompleted::new(target, KeyType::String, impact, bytes_from_vec(format_ok())))
            },
            Some(v) => {
                if !v.is_string_verb() {
                    return Err(
                        ExecutionError::new(
                            "-WRONGTYPE Operation against a key holding the wrong kind of value",
                        ),
                    );
                }
                let delta: Option<i64> = match v {
                    Verb::Incr => Some(1),
                    Verb::Decr => Some(-1),
                    Verb::IncrBy => {
                        let p = command.param(0);
                        parse_i64(bytes_slice(&p))
                    },
                    _ => {
                        let p = command.param(0);
                        match parse_i64(bytes_slice(&p)) {
                            Some(d) => if d == i64::MIN {
                                None
                            } else {
                                Some(-d)
                            },
                            None => None,
                        }
                    },
                };
                assert(delta matches Some(d) ==> string_delta(v, command@.params) == Some(d as int));
                assert(delta is None ==> string_delta(v, command@.params) is None);
                self.adjust_value_if_exists(command, delta)
            },
            None => Err(
                ExecutionError::new("-WRONGTYPE Operation against a key holding the wrong kind of value"),
            ),
        }
    }

    fn adjust_value_if_exists(&mut self, command: &CommandIdentifier, delta: Option<i64>) -> (r: Result<
        CommandCompleted,
        ExecutionError,
    >)
        requires
            old(self).wf(),
        ensures
            final(self).wf(),
            ({
                let t = command@.target;
                let d = match delta {
                    Some(d) => Some(d as int),
                    None => None,
                };
                match adjusted(old(self)@, t, d) {
                    Some(n) => final(self)@ == old(self)@.insert(t, decimal(n)) && completed_view(r)
                        == Ok::<OutcomeView, Seq<char>>(
                        outcome(
                            t,
                            KeyType::String,
                            added_if_absent(old(self)@, t),
                            simple_reply(decimal(n)),
                        ),
                    ),
                    None => final(self)@ == old(self)@ && completed_view(r) == Err::<
                        OutcomeView,
                        Seq<char>,
                    >(not_integer_message()),
                }
            }),
    {
        let target = command.get_target();
        let d = match delta {
            Some(d) => d,
            None => {
                return Err(ExecutionError::new("-ERR value is not an integer or out of range"));
            },
        };
        let (current, impact) = match self.data.get(target) {
            Some(value) => match parse_i64(bytes_slice(&value)) {
                Some(c) => (c, IndexImpactOnCompletion::NoImpact),
                None => {
                    return Err(ExecutionError::new("-ERR value is not an integer or out of range"));
                },
            },
            None => (0i64, IndexImpactOnCompletion::Add),
        };
        let sum = current.checked_add(d);
        let updated = match sum {
            Some(n) => n,
            None => {
                return Err(ExecutionError::new("-ERR value is not an integer or out of range"));
            },
        };
        let mut text: Vec<u8> = Vec::new();
        push_decimal(&mut text, updated);
        let mut reply: Vec<u8> = vec![43u8];
        push_decimal(&mut reply, updated);
        push_crlf(&mut reply);
        assert(reply@ =~= simple_reply(decimal(updated as int)));
        self.data.set(target, &bytes_from_vec(text));
        Ok(CommandCompleted::new(target, KeyType::String, impact, bytes_from_vec(reply)))
    }

    /// Removes `key`; answers 1 if it was present, else 0.
    pub fn delete(&mut self, key: &str) -> (r: u16)
        requires
            old(self).wf(),
        ensures
            final(self).wf(),
            final(self)@ == old(self)@.remove(key@),
            r == if old(self)@.contains_key(key@) {
                1u16
            } else {
                0u16
            },
    {
        if self.data.del(key) {
            1
        } else {
            0
        }
    }

    /// Moves the value of `old_key` under `new_key`; false if `old_key` is absent.
    pub fn rename(&mut self, old_key: &str, new_key: &str) -> (r: bool)
        requires
            old(self).wf(),
        ensures
            final(self).wf(),
            r == old(self)@.contains_key(old_key@),
            final(self)@ == if r {
                old(self)@.insert(new_key@, old(self)@[old_key@]).remove(old_key@)
            } else {
                old(self)@
            },
    {
        match self.data.get(old_key) {
            Some(value) => {
                self.data.set(new_key, &value);
                let _ = self.delete(old_key);
                true
            },
            None => false,
        }
    }

    pub fn internal_exists(&self, key: &str) -> (r: bool)
        requires
            self.wf(),
        ensures
            r == self@.contains_key(key@),
    {
        self.data.contains(key)
    }
}

} // verus!
