//! The list store: keys mapped to non-empty double-ended lists of byte strings.

use crate::commands::{ExecutionError, ParserError};
use crate::index::{
    argv_view, build_typed, completed_view, outcome, params_view, parsed_view, typed_request,
    CommandCompleted, CommandIdentifier, IndexImpactOnCompletion, KeyType, OutcomeView,
    RedisCommandType, RequestView,
};
use crate::resp::{format_count, format_null, format_simple, i64_of, integer_reply, null_reply, parse_i64, simple_reply};
use crate::string_executor::wrong_type_message;
use crate::table::KeyTable;
use crate::value::{bytes_clone, bytes_content, bytes_from_vec, bytes_slice};
use crate::verb::{verb_text, identify_verb_text, is_list_verb, verb_arity, verb_of_text, Verb};
use bytes::Bytes;
use std::collections::VecDeque;
use vstd::prelude::*;

verus! {

pub type ListModel = Map<Seq<char>, Seq<Seq<u8>>>;

pub open spec fn bad_index_message() -> Seq<char> {
    "Index is not an integer or out of range"@
}

pub open spec fn list_arity_message(v: Verb) -> Seq<char> {
    match v {
        Verb::LLen => "LLEN command requires exactly one parameter"@,
        Verb::LIndex => "LINDEX command requires exactly two parameters"@,
        Verb::RPush => "RPUSH command requires exactly two parameters"@,
        Verb::RPop => "RPOP command requires exactly one parameters"@,
        Verb::LPush => "LPUSH command requires exactly two parameters"@,
        _ => "LPOP command requires exactly one parameters"@,
    }
}

fn arity_message(v: Verb) -> (r: &'static str)
    ensures
        r@ == list_arity_message(v),
{
    match v {
        Verb::LLen => "LLEN command requires exactly one parameter",
        Verb::LIndex => "LINDEX command requires exactly two parameters",
        Verb::RPush => "RPUSH command requires exactly two parameters",
        Verb::RPop => "RPOP command requires exactly one parameters",
        Verb::LPush => "LPUSH command requires exactly two parameters",
        _ => "LPOP command requires exactly one parameters",
    }
}

/// What building a list command from its arguments gives.
pub open spec fn list_build(argv: Seq<Seq<char>>) -> Result<RequestView, Seq<char>> {
    if argv.len() < 2 {
        Err("Not enough identifiers provided for List command"@)
    } else {
        match verb_of_text(argv[0]) {
            Some(v) => if !is_list_verb(v) {
                Err("Unsupported List command type"@)
            } else if argv.len() != verb_arity(v) {
                Err(list_arity_message(v))
            } else {
                Ok(typed_request(argv, v, RedisCommandType::ListCommand, KeyType::List))
            },
            None => Err("Unsupported List command type"@),
        }
    }
}

/// A request that the list store can carry out: a list verb with the
/// parameter it needs.
pub open spec fn list_request_ok(req: RequestView) -> bool {
    match req.verb {
        Some(v) => is_list_verb(v) ==> req.params.len() + 2 >= verb_arity(v),
        None => true,
    }
}

/// No list is kept empty.
pub open spec fn lists_nonempty(store: ListModel) -> bool {
    forall|k: Seq<char>| #[trigger] store.contains_key(k) ==> store[k].len() > 0
}

pub open spec fn list_or_empty(store: ListModel, key: Seq<char>) -> Seq<Seq<u8>> {
    if store.contains_key(key) {
        store[key]
    } else {
        Seq::empty()
    }
}

pub open spec fn created_if_absent(store: ListModel, key: Seq<char>) -> IndexImpactOnCompletion {
    if store.contains_key(key) {
        IndexImpactOnCompletion::NoImpact
    } else {
        IndexImpactOnCompletion::Add
    }
}

/// The store after a list has been shortened to `rest`: an emptied list is removed.
pub open spec fn keep_or_drop(store: ListModel, key: Seq<char>, rest: Seq<Seq<u8>>) -> ListModel {
    if rest.len() == 0 {
        store.remove(key)
    } else {
        store.insert(key, rest)
    }
}

pub open spec fn dropped_if_emptied(rest: Seq<Seq<u8>>) -> IndexImpactOnCompletion {
    if rest.len() == 0 {
        IndexImpactOnCompletion::Delete
    } else {
        IndexImpactOnCompletion::NoImpact
    }
}

/// The reply to `LINDEX` on a present list.
pub open spec fn lindex_reply(list: Seq<Seq<u8>>, arg: Seq<u8>) -> Result<Seq<u8>, Seq<char>> {
    match i64_of(arg) {
        Some(i) => if i < 0 {
            Err(bad_index_message())
        } else if i < list.len() {
            Ok(simple_reply(list[i as int]))
        } else {
            Ok(null_reply())
        },
        None => Err(bad_index_message()),
    }
}

/// What executing a request does to the list store, and what it answers.
pub open spec fn list_execute(store: ListModel, req: RequestView) -> (ListModel, Result<OutcomeView, Seq<char>>) {
    let t = req.target;
    let done = |impact: IndexImpactOnCompletion, reply: Seq<u8>|
        Ok::<OutcomeView, Seq<char>>(outcome(t, KeyType::List, impact, reply));
    match req.verb {
        Some(Verb::LLen) => (
            store,
            done(IndexImpactOnCompletion::NoImpact, integer_reply(list_or_empty(store, t).len() as int)),
        ),
        Some(Verb::LIndex) => if !store.contains_key(t) {
            (store, done(IndexImpactOnCompletion::NoImpact, null_reply()))
        } else {
            match lindex_reply(store[t], req.params[0]) {
                Ok(reply) => (store, done(IndexImpactOnCompletion::NoImpact, reply)),
                Err(m) => (store, Err(m)),
            }
        },
        Some(Verb::RPush) => {
            let l = list_or_empty(store, t).push(req.params[0]);
            (store.insert(t, l), done(created_if_absent(store, t), integer_reply(l.len() as int)))
        },
        Some(Verb::LPush) => {
            let l = seq![req.params[0]] + list_or_empty(store, t);
            (store.insert(t, l), done(created_if_absent(store, t), integer_reply(l.len() as int)))
        },
        Some(Verb::RPop) => if !store.contains_key(t) {
            (store, done(IndexImpactOnCompletion::NoImpact, null_reply()))
        } else {
            let l = store[t];
            let rest = l.drop_last();
            (keep_or_drop(store, t, rest), done(dropped_if_emptied(rest), simple_reply(l.last())))
        },
        Some(Verb::LPop) => if !store.contains_key(t) {
            (store, done(IndexImpactOnCompletion::NoImpact, null_reply()))
        } else {
            let l = store[t];
            let rest = l.drop_first();
            (keep_or_drop(store, t, rest), done(dropped_if_emptied(rest), simple_reply(l.first())))
        },
        _ => (store, Err(wrong_type_message())),
    }
}

pub struct ListExecutor {
    data: KeyTable<VecDeque<Bytes>>,
}

impl View for ListExecutor {
    type V = ListModel;

    closed spec fn view(&self) -> ListModel {
        self.data.view().map_values(|d: VecDeque<Bytes>| params_view(d@))
    }
}

impl ListExecutor {
    pub closed spec fn wf(&self) -> bool {
        self.data.wf() && lists_nonempty(self@)
    }

    pub fn new() -> (r: ListExecutor)
        ensures
            r.wf(),
            r@ == ListModel::empty(),
    {
        let r = ListExecutor { data: KeyTable::new() };
        assert(r@ =~= ListModel::empty());
        r
    }

    pub fn is_command_supported(command: &str) -> (r: bool)
        ensures
            r == (verb_of_text(command@) matches Some(v) && is_list_verb(v)),
    {
        match identify_verb_text(command) {
            Some(v) => v.is_list_verb(),
            None => false,
        }
    }

    pub fn build_command(command: &Vec<String>) -> (r: Result<CommandIdentifier, ParserError>)
        ensures
            parsed_view(r) == list_build(argv_view(command@)),
            r matches Ok(c) ==> list_request_ok(c@),
            r matches Ok(c) ==> c@.verb matches Some(v) && c@.action == verb_text(v),
    {
        if command.len() < 2 {
            return Err(ParserError::new("Not enough identifiers provided for List command"));
        }
        match identify_verb_text(command[0].as_str()) {
            Some(v) => {
                if !v.is_list_verb() {
                    Err(ParserError::new("Unsupported List command type"))
                } else if command.len() != v.arity() {
                    Err(ParserError::new(arity_message(v)))
                } else {
                    Ok(build_typed(command, v, RedisCommandType::ListCommand, KeyType::List))
                }
            },
            None => Err(ParserError::new("Unsupported List command type")),
        }
    }

    /// Takes the list under `key` out of the store, or an empty list if none.
    fn take(&mut self, key: &str) -> (r: VecDeque<Bytes>)
        requires
            old(self).data.wf(),
        ensures
            final(self).data.wf(),
            final(self)@ == old(self)@.remove(key@),
            params_view(r@) == list_or_empty(old(self)@, key@),
    {
        let r = match self.data.remove(key) {
            Some(d) => d,
            None => VecDeque::new(),
        };
        assert(self@ =~= old(self)@.remove(key@));
        assert(params_view(r@) =~= list_or_empty(old(self)@, key@));
        r
    }

    fn put(&mut self, key: &str, list: VecDeque<Bytes>)
        requires
            old(self).data.wf(),
        ensures
            final(self).data.wf(),
            final(self)@ == old(self)@.insert(key@, params_view(list@)),
    {
        self.data.insert(key.to_owned(), list);
        assert(self@ =~= old(self)@.insert(key@, params_view(list@)));
    }

    fn done(target: &str, impact: IndexImpactOnCompletion, reply: Vec<u8>) -> (r: Result<
        CommandCompleted,
        ExecutionError,
    >)
        ensures
            completed_view(r) == Ok::<OutcomeView, Seq<char>>(outcome(target@, KeyType::List, impact, reply@)),
    {
        Ok(CommandCompleted::new(target, KeyType::List, impact, bytes_from_vec(reply)))
    }

    pub fn execute_command(&mut self, command: &CommandIdentifier) -> (r: Result<
        CommandCompleted,
        ExecutionError,
    >)
        requires
            old(self).wf(),
            list_request_ok(command@),
        ensures
            final(self).wf(),
            (final(self)@, completed_view(r)) == list_execute(old(self)@, command@),
    {
        let target = command.get_target();
        let ghost t = command@.target;
        match command.get_verb() {
            Some(Verb::LLen) => {
                let n = self.internal_get_list_length(target);
                Self::done(target, IndexImpactOnCompletion::NoImpact, format_count(n))
            },
            Some(Verb::LIndex) => {
                let reply = match self.data.get(target) {
                    Some(list) => {
                        let ghost l = params_view(list@);
                        assert(l == self@[t]);
                        let p = command.param(0);
                        match parse_i64(bytes_slice(&p)) {
                            Some(i) => {
                                if i < 0 {
                                    return Err(ExecutionError::new("Index is not an integer or out of range"));
                                } else if (i as u64) < (list.len() as u64) {
                                    format_simple(bytes_slice(&list[i as usize]))
                                } else {
                                    format_null()
                                }
                            },
                            None => {
                                return Err(ExecutionError::new("Index is not an integer or out of range"));
                            },
                        }
                    },
                    None => format_null(),
                };
                Self::done(target, IndexImpactOnCompletion::NoImpact, reply)
            },
            Some(Verb::RPush) | Some(Verb::LPush) => {
                let impact = if self.data.contains(target) {
                    IndexImpactOnCompletion::NoImpact
                } else {
                    IndexImpactOnCompletion::Add
                };
                let value = command.param(0);
                let mut list = self.take(target);
                let ghost before = params_view(list@);
                if command.get_verb() == Some(Verb::RPush) {
                    list.push_back(value);
                    assert(params_view(list@) =~= before.push(command@.params[0]));
                } else {
                    list.push_front(value);
                    assert(params_view(list@) =~= seq![command@.params[0]] + before);
                }
                let n = list.len();
                self.put(target, list);
                assert(self@ =~= list_execute(old(self)@, command@).0);
                Self::done(target, impact, format_count(n))
            },
            Some(Verb::RPop) | Some(Verb::LPop) => {
                if !self.data.contains(target) {
                    return Self::done(target, IndexImpactOnCompletion::NoImpact, format_null());
                }
                let mut list = self.take(target);
                let ghost l = params_view(list@);
                let popped = if command.get_verb() == Some(Verb::RPop) {
                    list.pop_back()
                } else {
                    list.pop_front()
                };
                let value = match popped {
                    Some(v) => v,
                    None => {
                        return Self::done(target, IndexImpactOnCompletion::NoImpact, format_null());
                    },
                };
                let impact = if list.len() == 0 {
                    IndexImpactOnCompletion::Delete
                } else {
                    self.put(target, list);
                    IndexImpactOnCompletion::NoImpact
                };
                proof {
                    if command@.verb == Some(Verb::RPop) {
                        assert(params_view(list@) =~= l.drop_last());
                    } else {
                        assert(params_view(list@) =~= l.drop_first());
                    }
                    assert(self@ =~= list_execute(old(self)@, command@).0);
                }
                Self::done(target, impact, format_simple(bytes_slice(&value)))
            },
            _ => Err(ExecutionError::new("-WRONGTYPE Operation against a key holding the wrong kind of value")),
        }
    }

    /// Removes the list under `key`; answers 1 if it was present, else 0.
    pub fn delete(&mut self, key: &str) -> (r: u16)
        requires
            old(self).wf(),
        ensures
            final(self).wf(),
            final(self)@ == old(self)@.remove(key@),
            r == if old(self)@.contains_key(key@) {
                1u16
            } else {
                0u16
            },
    {
        let removed = self.data.remove(key);
        assert(self@ =~= old(self)@.remove(key@));
        match removed {
            Some(_) => 1,
            None => 0,
        }
    }

    /// Moves the list of `old_key` under `new_key`; false if `old_key` is absent.
    pub fn rename(&mut self, old_key: &str, new_key: &str) -> (r: bool)
        requires
            old(self).wf(),
        ensures
            final(self).wf(),
            r == old(self)@.contains_key(old_key@),
            final(self)@ == if r {
                old(self)@.insert(new_key@, old(self)@[old_key@]).remove(old_key@)
            } else {
                old(self)@
            },
    {
        match self.data.remove(old_key) {
            Some(list) => {
                assert(self@ =~= old(self)@.remove(old_key@));
                let ghost moved = old(self)@.insert(new_key@, old(self)@[old_key@]).remove(old_key@);
                assert(params_view(list@) == old(self)@[old_key@]);
                assert(old(self)@.contains_key(old_key@));
                if old_key.to_owned() == new_key.to_owned() {
                    assert(self@ =~= moved);
                } else {
                    self.put(new_key, list);
                    assert(self@ =~= moved);
                }
                assert(lists_nonempty(self@)) by {
                    assert forall|k: Seq<char>| #[trigger] self@.contains_key(k) implies self@[k].len() > 0 by {
                        if k != new_key@ {
                            assert(old(self)@.contains_key(k));
                        }
                    }
                }
                true
            },
            None => {
                assert(self@ =~= old(self)@);
                false
            },
        }
    }

    /// The number of lists held.
    pub fn internal_get_length(&self) -> (r: usize)
        requires
            self.wf(),
        ensures
            r == self@.dom().len(),
    {
        assert(self@.dom() =~= self.data.view().dom());
        self.data.len()
    }

    /// The length of the list under `key`, 0 if there is none.
    pub fn internal_get_list_length(&self, key: &str) -> (r: usize)
        requires
            self.wf(),
        ensures
            r == list_or_empty(self@, key@).len(),
    {
        match self.data.get(key) {
            Some(list) => list.len(),
            None => 0,
        }
    }

    /// The first element of the list under `key`, if there is one.
    pub fn internal_get_list_head(&self, key: &str) -> (r: Option<Bytes>)
        requires
            self.wf(),
        ensures
            match r {
                Some(b) => self@.contains_key(key@) && bytes_content(b) == self@[key@][0],
                None => !self@.contains_key(key@),
            },
    {
        match self.data.get(key) {
            Some(list) => {
                if list.len() == 0 {
                    None
                } else {
                    Some(bytes_clone(&list[0]))
                }
            },
            None => None,
        }
    }
}

} // verus!
