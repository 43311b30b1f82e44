//! The key index: the authoritative map from each live key to the type of
//! value it holds, and the dispatcher that routes every command.

use crate::commands::{ExecutionError, ParserError};
use crate::controller::Databases;
use crate::list_executor::{list_build, list_execute, list_request_ok, lists_nonempty, ListExecutor, ListModel};
use crate::resp::{format_count, format_ok, integer_reply, ok_reply};
use crate::string_executor::{string_build, string_execute, string_request_ok, wrong_type_message, StringExecutor};
use crate::table::KeyTable;
use crate::text::text_from_utf8;
use crate::tokenizer::TOKEN_IS_NOT_VALID_UTF8;
use crate::value::bytes_slice;
use crate::value::{bytes_clone, bytes_content, bytes_from_vec};
use crate::verb::{identify_verb_text, is_index_verb, is_list_verb, is_string_verb, verb_arity, verb_lock, verb_of_text, verb_text, Verb};
use vstd::slice::slice_to_vec;
use vstd::utf8::{decode_utf8, encode_utf8, valid_utf8};
use bytes::Bytes;
use vstd::prelude::*;

verus! {

/// The lock a command needs on the index: kept with each request for a
/// future reader/writer discipline; every command runs exclusively today.
#[derive(Debug, Clone, Copy, PartialEq, Eq, Structural)]
pub enum LockType {
    Read,
    Write,
}

/// What a command that completes asks of the index.
#[derive(Debug, Clone, Copy, PartialEq, Eq, Structural)]
pub enum IndexImpactOnCompletion {
    NoImpact,
    Add,
    Delete,
    Rename,
}

impl Default for IndexImpactOnCompletion {
    fn default() -> (r: Self)
        ensures
            r == IndexImpactOnCompletion::NoImpact,
    {
        IndexImpactOnCompletion::NoImpact
    }
}

/// Which collaborator owns a command.
#[derive(Debug, Clone, Copy, PartialEq, Eq, Structural)]
pub enum RedisCommandType {
    UnknownCommand,
    StringCommand,
    ListCommand,
    IndexCommand,
}

/// The type of value a key holds; `Index` marks commands that act on any type.
#[derive(Debug, Clone, Copy, PartialEq, Eq, Structural)]
pub enum KeyType {
    Undefined,
    Index,
    String,
    Integer,
    List,
}

impl Default for KeyType {
    fn default() -> (r: Self)
        ensures
            r == KeyType::Undefined,
    {
        KeyType::Undefined
    }
}

/// The meaning of a validated request.
pub ghost struct RequestView {
    pub command_type: RedisCommandType,
    pub target: Seq<char>,
    pub action: Seq<char>,
    pub verb: Option<Verb>,
    pub params: Seq<Seq<u8>>,
    pub key_type: KeyType,
    pub lock_type: LockType,
}

/// A validated request: what to do, to which key, with which arguments.
pub struct CommandIdentifier {
    command_type: RedisCommandType,
    target: String,
    action: String,
    verb: Option<Verb>,
    params: Vec<Bytes>,
    key_type: KeyType,
    lock_type: LockType,
}

pub open spec fn params_view(p: Seq<Bytes>) -> Seq<Seq<u8>> {
    p.map_values(|b: Bytes| bytes_content(b))
}

impl View for CommandIdentifier {
    type V = RequestView;

    closed spec fn view(&self) -> RequestView {
        RequestView {
            command_type: self.command_type,
            target: self.target@,
            action: self.action@,
            verb: self.verb,
            params: params_view(self.params@),
            key_type: self.key_type,
            lock_type: self.lock_type,
        }
    }
}

impl CommandIdentifier {
    /// A request whose action is given as text; the action is recognised as a
    /// verb in any ASCII case.
    pub fn new(
        command_type: RedisCommandType,
        target: String,
        action: String,
        params: Vec<Bytes>,
        key_type: KeyType,
        lock_type: LockType,
    ) -> (r: CommandIdentifier)
        ensures
            r@ == (RequestView {
                command_type,
                target: target@,
                action: action@,
                verb: verb_of_text(action@),
                params: params_view(params@),
                key_type,
                lock_type,
            }),
    {
        let verb = identify_verb_text(action.as_str());
        CommandIdentifier { command_type, target, action, verb, params, key_type, lock_type }
    }

    /// A request for a known verb.
    pub fn for_verb(
        command_type: RedisCommandType,
        target: String,
        verb: Verb,
        params: Vec<Bytes>,
        key_type: KeyType,
        lock_type: LockType,
    ) -> (r: CommandIdentifier)
        ensures
            r@ == (RequestView {
                command_type,
                target: target@,
                action: verb_text(verb),
                verb: Some(verb),
                params: params_view(params@),
                key_type,
                lock_type,
            }),
    {
        let action = verb.name().to_owned();
        CommandIdentifier { command_type, target, action, verb: Some(verb), params, key_type, lock_type }
    }

    pub fn get_command_type(&self) -> (r: &RedisCommandType)
        ensures
            *r == self@.command_type,
    {
        &self.command_type
    }

    pub fn get_lock_type(&self) -> (r: &LockType)
        ensures
            *r == self@.lock_type,
    {
        &self.lock_type
    }

    pub fn get_target(&self) -> (r: &str)
        ensures
            r@ == self@.target,
    {
        self.target.as_str()
    }

    pub fn get_action(&self) -> (r: &str)
        ensures
            r@ == self@.action,
    {
        self.action.as_str()
    }

    pub fn get_verb(&self) -> (r: Option<Verb>)
        ensures
            r == self@.verb,
    {
        self.verb
    }

    pub fn get_params(&self) -> (r: &[Bytes])
        ensures
            params_view(r@) == self@.params,
    {
        self.params.as_slice()
    }

    pub fn get_key_type(&self) -> (r: &KeyType)
        ensures
            *r == self@.key_type,
    {
        &self.key_type
    }

    /// The `i`-th parameter, as a new handle on the same bytes.
    pub fn param(&self, i: usize) -> (r: Bytes)
        requires
            i < self@.params.len(),
        ensures
            bytes_content(r) == self@.params[i as int],
    {
        bytes_clone(&self.params[i])
    }
}

/// The meaning of a completed command.
pub ghost struct OutcomeView {
    pub key_name: Seq<char>,
    pub key_type: KeyType,
    pub impact: IndexImpactOnCompletion,
    pub response: Seq<u8>,
}

pub open spec fn outcome(
    key_name: Seq<char>,
    key_type: KeyType,
    impact: IndexImpactOnCompletion,
    response: Seq<u8>,
) -> OutcomeView {
    OutcomeView { key_name, key_type, impact, response }
}

/// A completed command: its reply, and what the index must do about it.
#[derive(Debug)]
pub struct CommandCompleted {
    key_name: String,
    key_type: KeyType,
    impact_on_index: IndexImpactOnCompletion,
    response: Bytes,
}

impl View for CommandCompleted {
    type V = OutcomeView;

    closed spec fn view(&self) -> OutcomeView {
        OutcomeView {
            key_name: self.key_name@,
            key_type: self.key_type,
            impact: self.impact_on_index,
            response: bytes_content(self.response),
        }
    }
}

impl CommandCompleted {
    pub fn new(
        key_name: &str,
        key_type: KeyType,
        impact_on_index: IndexImpactOnCompletion,
        response: Bytes,
    ) -> (r: CommandCompleted)
        ensures
            r@ == outcome(key_name@, key_type, impact_on_index, bytes_content(response)),
    {
        CommandCompleted { key_name: key_name.to_owned(), key_type, impact_on_index, response }
    }

    pub fn get_key_name(&self) -> (r: &String)
        ensures
            r@ == self@.key_name,
    {
        &self.key_name
    }

    pub fn get_key_type(&self) -> (r: &KeyType)
        ensures
            *r == self@.key_type,
    {
        &self.key_type
    }

    pub fn get_impact_on_index(&self) -> (r: &IndexImpactOnCompletion)
        ensures
            *r == self@.impact,
    {
        &self.impact_on_index
    }

    pub fn get_response(&self) -> (r: &Bytes)
        ensures
            bytes_content(*r) == self@.response,
    {
        &self.response
    }
}

/// The arguments of a request as text.
pub open spec fn argv_view(a: Seq<String>) -> Seq<Seq<char>> {
    a.map_values(|s: String| s@)
}

/// The request that a typed store builds for a verb of its own whose arity
/// the arguments meet: the key is the first argument, and the argument after
/// it, if any, is carried as bytes.
pub open spec fn typed_request(
    argv: Seq<Seq<char>>,
    v: Verb,
    command_type: RedisCommandType,
    key_type: KeyType,
) -> RequestView {
    RequestView {
        command_type,
        target: argv[1],
        action: verb_text(v),
        verb: Some(v),
        params: if argv.len() == 3 {
            seq![encode_utf8(argv[2])]
        } else {
            Seq::empty()
        },
        key_type,
        lock_type: verb_lock(v),
    }
}

pub(crate) fn build_typed(
    command: &Vec<String>,
    v: Verb,
    command_type: RedisCommandType,
    key_type: KeyType,
) -> (r: CommandIdentifier)
    requires
        command@.len() == verb_arity(v),
        verb_arity(v) >= 2,
    ensures
        r@ == typed_request(argv_view(command@), v, command_type, key_type),
{
    let mut params: Vec<Bytes> = Vec::new();
    if command.len() == 3 {
        let bytes = slice_to_vec(command[2].as_str().as_bytes());
        params.push(bytes_from_vec(bytes));
    }
    let r = CommandIdentifier::for_verb(command_type, command[1].clone(), v, params, key_type, v.lock());
    assert(r@.params =~= typed_request(argv_view(command@), v, command_type, key_type).params);
    r
}

pub open spec fn parsed_view(r: Result<CommandIdentifier, ParserError>) -> Result<RequestView, Seq<char>> {
    match r {
        Ok(c) => Ok(c@),
        Err(e) => Err(e@),
    }
}

pub open spec fn completed_view(r: Result<CommandCompleted, crate::commands::ExecutionError>) -> Result<
    OutcomeView,
    Seq<char>,
> {
    match r {
        Ok(c) => Ok(c@),
        Err(e) => Err(e@),
    }
}


/// The state of the whole server: the key index and the two typed stores.
pub ghost struct ServerModel {
    pub index: Map<Seq<char>, KeyType>,
    pub strings: Map<Seq<char>, Seq<u8>>,
    pub lists: ListModel,
}

/// Every live key is held by exactly one typed store, and the index maps it
/// to that store's type; no list is empty.
pub open spec fn consistent(m: ServerModel) -> bool {
    &&& lists_nonempty(m.lists)
    &&& forall|k: Seq<char>|
        #[trigger] m.index.contains_key(k) <==> (m.strings.contains_key(k) || m.lists.contains_key(k))
    &&& forall|k: Seq<char>| #[trigger] m.strings.contains_key(k) ==> !m.lists.contains_key(k)
    &&& forall|k: Seq<char>| #[trigger] m.strings.contains_key(k) ==> m.index[k] == KeyType::String
    &&& forall|k: Seq<char>| #[trigger] m.lists.contains_key(k) ==> m.index[k] == KeyType::List
}

pub open spec fn empty_server() -> ServerModel {
    ServerModel { index: Map::empty(), strings: Map::empty(), lists: Map::empty() }
}

pub open spec fn unknown_command_message() -> Seq<char> {
    "Unknown Command"@
}

pub open spec fn type_mismatch_message() -> Seq<char> {
    "Key already exists with different type"@
}

pub open spec fn no_such_key_message() -> Seq<char> {
    "-no such key"@
}

pub open spec fn index_arity_message(v: Verb) -> Seq<char> {
    match v {
        Verb::Exists => "EXISTS command requires exactly one parameter"@,
        Verb::Del => "DEL command requires one parameter"@,
        _ => "RENAME command requires two parameter"@,
    }
}

fn index_arity_message_text(v: Verb) -> (r: &'static str)
    ensures
        r@ == index_arity_message(v),
{
    match v {
        Verb::Exists => "EXISTS command requires exactly one parameter",
        Verb::Del => "DEL command requires one parameter",
        _ => "RENAME command requires two parameter",
    }
}

/// What building an index command from its arguments gives.
pub open spec fn index_build(argv: Seq<Seq<char>>) -> Result<RequestView, Seq<char>> {
    if argv.len() < 2 {
        Err("Not enough identifiers provided for index command"@)
    } else {
        match verb_of_text(argv[0]) {
            Some(v) => if !is_index_verb(v) {
                Err("Unsupported Index command type"@)
            } else if argv.len() != verb_arity(v) {
                Err(index_arity_message(v))
            } else {
                Ok(typed_request(argv, v, RedisCommandType::IndexCommand, KeyType::Index))
            },
            None => Err("Unsupported Index command type"@),
        }
    }
}

/// What building any command from its arguments gives: the verb picks the
/// collaborator that owns it.
pub open spec fn build_request(argv: Seq<Seq<char>>) -> Result<RequestView, Seq<char>> {
    match verb_of_text(argv[0]) {
        Some(v) => if is_string_verb(v) {
            string_build(argv)
        } else if is_list_verb(v) {
            list_build(argv)
        } else {
            index_build(argv)
        },
        None => Err(unknown_command_message()),
    }
}

/// A request that its collaborator can carry out, whose declared key type is
/// its collaborator's own.
pub open spec fn request_ok(req: RequestView) -> bool {
    &&& req.command_type == RedisCommandType::StringCommand ==> req.key_type == KeyType::String
    &&& req.command_type == RedisCommandType::ListCommand ==> req.key_type == KeyType::List
    &&& req.command_type == RedisCommandType::IndexCommand ==> req.key_type == KeyType::Index
    &&& string_request_ok(req)
    &&& list_request_ok(req)
    &&& (req.verb == Some(Verb::Rename) ==> req.params.len() >= 1 && valid_utf8(req.params[0]))
}

/// The type the index records for `key`, `Undefined` when none.
pub open spec fn existing_type(index: Map<Seq<char>, KeyType>, key: Seq<char>) -> KeyType {
    if index.contains_key(key) {
        index[key]
    } else {
        KeyType::Undefined
    }
}

/// The index after a completed command's impact is applied.
pub open spec fn apply_impact(index: Map<Seq<char>, KeyType>, o: OutcomeView, target: Seq<char>) -> Map<
    Seq<char>,
    KeyType,
> {
    match o.impact {
        IndexImpactOnCompletion::NoImpact => index,
        IndexImpactOnCompletion::Add => index.insert(o.key_name, o.key_type),
        IndexImpactOnCompletion::Delete => index.remove(o.key_name),
        IndexImpactOnCompletion::Rename => index.insert(o.key_name, o.key_type).remove(target),
    }
}

pub open spec fn count_of(present: bool) -> int {
    if present {
        1
    } else {
        0
    }
}

pub open spec fn deleted_if(present: bool) -> IndexImpactOnCompletion {
    if present {
        IndexImpactOnCompletion::Delete
    } else {
        IndexImpactOnCompletion::NoImpact
    }
}

/// `DEL key`, where the index records type `t` for the key: the owning store
/// drops the key and reports how many it removed.
pub open spec fn del_command(m: ServerModel, key: Seq<char>, t: KeyType) -> (ServerModel, OutcomeView) {
    if t == KeyType::String {
        let present = m.strings.contains_key(key);
        (
            ServerModel { strings: m.strings.remove(key), ..m },
            outcome(key, t, deleted_if(present), integer_reply(count_of(present))),
        )
    } else if t == KeyType::List {
        let present = m.lists.contains_key(key);
        (
            ServerModel { lists: m.lists.remove(key), ..m },
            outcome(key, t, deleted_if(present), integer_reply(count_of(present))),
        )
    } else {
        (m, outcome(key, t, IndexImpactOnCompletion::NoImpact, integer_reply(0)))
    }
}

/// A store with the value under `from` moved to `to`.
pub open spec fn moved<V>(store: Map<Seq<char>, V>, from: Seq<char>, to: Seq<char>) -> Map<Seq<char>, V> {
    if store.contains_key(from) {
        store.insert(to, store[from]).remove(from)
    } else {
        store
    }
}

/// What an index-owned command does, before its impact is applied.
pub open spec fn index_command(m: ServerModel, req: RequestView, existing: KeyType) -> (
    ServerModel,
    Result<OutcomeView, Seq<char>>,
) {
    let t = req.target;
    match req.verb {
        Some(Verb::Exists) => (
            m,
            Ok(
                outcome(
                    t,
                    KeyType::Index,
                    IndexImpactOnCompletion::NoImpact,
                    integer_reply(if existing == KeyType::Undefined {
                        0
                    } else {
                        1
                    }),
                ),
            ),
        ),
        Some(Verb::Del) => {
            let (m2, o) = del_command(m, t, existing);
            (m2, Ok(o))
        },
        Some(Verb::Rename) => if existing == KeyType::Undefined {
            (m, Err(no_such_key_message()))
        } else {
            let dst = decode_utf8(req.params[0]);
            let (m1, o) = del_command(m, dst, existing_type(m.index, dst));
            let m2 = ServerModel { index: apply_impact(m1.index, o, dst), ..m1 };
            let m3 = if existing == KeyType::String {
                ServerModel { strings: moved(m2.strings, t, dst), ..m2 }
            } else if existing == KeyType::List {
                ServerModel { lists: moved(m2.lists, t, dst), ..m2 }
            } else {
                m2
            };
            (m3, Ok(outcome(dst, existing, IndexImpactOnCompletion::Rename, ok_reply())))
        },
        _ => (m, Err(wrong_type_message())),
    }
}

/// Carrying out a validated request: the type check, the routed execution,
/// and the impact on the index.
pub open spec fn execute_request(m: ServerModel, req: RequestView) -> (
    ServerModel,
    Result<OutcomeView, Seq<char>>,
) {
    let existing = existing_type(m.index, req.target);
    if req.key_type != KeyType::Index && existing != KeyType::Undefined && existing != req.key_type {
        (m, Err(type_mismatch_message()))
    } else {
        let (m1, r) = match req.command_type {
            RedisCommandType::StringCommand => {
                let (s, r) = string_execute(m.strings, req);
                (ServerModel { strings: s, ..m }, r)
            },
            RedisCommandType::ListCommand => {
                let (l, r) = list_execute(m.lists, req);
                (ServerModel { lists: l, ..m }, r)
            },
            RedisCommandType::IndexCommand => index_command(m, req, existing),
            RedisCommandType::UnknownCommand => (m, Err(unknown_command_message())),
        };
        match r {
            Ok(o) => (ServerModel { index: apply_impact(m1.index, o, req.target), ..m1 }, Ok(o)),
            Err(e) => (m1, Err(e)),
        }
    }
}

/// One command, from its arguments to the new state and the reply or error.
pub open spec fn dispatch(m: ServerModel, argv: Seq<Seq<char>>) -> (ServerModel, Result<Seq<u8>, Seq<char>>) {
    match build_request(argv) {
        Ok(req) => {
            let (m2, r) = execute_request(m, req);
            match r {
                Ok(o) => (m2, Ok(o.response)),
                Err(e) => (m2, Err(e)),
            }
        },
        Err(e) => (m, Err(e)),
    }
}

pub open spec fn reply_view(r: Result<Bytes, ExecutionError>) -> Result<Seq<u8>, Seq<char>> {
    match r {
        Ok(b) => Ok(bytes_content(b)),
        Err(e) => Err(e@),
    }
}

/// The key index.
#[derive(Debug)]
pub struct Index {
    type_map: KeyTable<KeyType>,
}

impl View for Index {
    type V = Map<Seq<char>, KeyType>;

    closed spec fn view(&self) -> Map<Seq<char>, KeyType> {
        self.type_map.view()
    }
}

pub open spec fn server_model(index: Map<Seq<char>, KeyType>, dbs: &Databases) -> ServerModel {
    ServerModel { index, strings: dbs.string@, lists: dbs.list@ }
}

impl Index {
    pub closed spec fn wf(&self) -> bool {
        self.type_map.wf()
    }

    pub fn new() -> (r: Index)
        ensures
            r.wf(),
            r@ == Map::<Seq<char>, KeyType>::empty(),
    {
        Index { type_map: KeyTable::new() }
    }

    /// Runs one command given as its argument vector, and answers its reply.
    pub fn execute_command(&mut self, databases: &mut Databases, request: &Vec<String>) -> (r: Result<
        Bytes,
        ExecutionError,
    >)
        requires
            old(self).wf(),
            old(databases).wf(),
            consistent(server_model(old(self)@, old(databases))),
            request@.len() >= 1,
        ensures
            final(self).wf(),
            final(databases).wf(),
            consistent(server_model(final(self)@, final(databases))),
            (server_model(final(self)@, final(databases)), reply_view(r)) == dispatch(
                server_model(old(self)@, old(databases)),
                argv_view(request@),
            ),
    {
        let command = request[0].as_str();
        let built = if StringExecutor::is_command_supported(command) {
            StringExecutor::build_command(request)
        } else if ListExecutor::is_command_supported(command) {
            ListExecutor::build_command(request)
        } else if self.is_index_command(command) {
            self.build_index_command(request)
        } else {
            return Err(ExecutionError::new("Unknown Command"));
        };
        let context = match built {
            Ok(c) => c,
            Err(e) => {
                return Err(ExecutionError::from(e));
            },
        };
        proof {
            lemma_built_request_ok(argv_view(request@));
            lemma_execute_consistent(server_model(self@, databases), context@);
        }
        match self.internal_execute_command(databases, &context) {
            Ok(done) => Ok(bytes_clone(done.get_response())),
            Err(e) => Err(e),
        }
    }

    /// Runs a validated request while the index is held: the type check, the
    /// routed execution, and the impact on the index.
    fn internal_execute_command(&mut self, databases: &mut Databases, context: &CommandIdentifier) -> (r: Result<
        CommandCompleted,
        ExecutionError,
    >)
        requires
            old(self).wf(),
            old(databases).wf(),
            request_ok(context@),
        ensures
            final(self).wf(),
            final(databases).wf(),
            (server_model(final(self)@, final(databases)), completed_view(r)) == execute_request(
                server_model(old(self)@, old(databases)),
                context@,
            ),
        decreases request_rank(context@), 1int,
    {
        let key = context.get_target();
        let existing = match self.type_map.get(key) {
            Some(t) => *t,
            None => KeyType::Undefined,
        };
        let wanted = *context.get_key_type();
        if wanted != KeyType::Index && existing != KeyType::Undefined && existing != wanted {
            return Err(ExecutionError::new("Key already exists with different type"));
        }
        let result = match context.get_command_type() {
            RedisCommandType::StringCommand => databases.string.execute_command(context),
            RedisCommandType::ListCommand => databases.list.execute_command(context),
            RedisCommandType::IndexCommand => self.execute_index_command(databases, context, &existing),
            RedisCommandType::UnknownCommand => Err(ExecutionError::new("Unknown Command")),
        };
        let done = match result {
            Ok(done) => done,
            Err(e) => {
                return Err(e);
            },
        };
        match done.get_impact_on_index() {
            IndexImpactOnCompletion::NoImpact => {},
            IndexImpactOnCompletion::Add => {
                self.type_map.insert(done.get_key_name().clone(), *done.get_key_type());
            },
            IndexImpactOnCompletion::Delete => {
                let _ = self.type_map.remove(done.get_key_name().as_str());
            },
            IndexImpactOnCompletion::Rename => {
                self.type_map.insert(done.get_key_name().clone(), *done.get_key_type());
                let _ = self.type_map.remove(key);
            },
        }
        Ok(done)
    }

    fn is_index_command(&self, command: &str) -> (r: bool)
        ensures
            r == (verb_of_text(command@) matches Some(v) && is_index_verb(v)),
    {
        match identify_verb_text(command) {
            Some(v) => v.is_index_verb(),
            None => false,
        }
    }

    fn build_index_command(&self, command: &Vec<String>) -> (r: Result<CommandIdentifier, ParserError>)
        ensures
            parsed_view(r) == index_build(argv_view(command@)),
            r matches Ok(c) ==> c@.verb matches Some(v) && c@.action == verb_text(v),
    {
        if command.len() < 2 {
            return Err(ParserError::new("Not enough identifiers provided for index command"));
        }
        match identify_verb_text(command[0].as_str()) {
            Some(v) => {
                if !v.is_index_verb() {
                    Err(ParserError::new("Unsupported Index command type"))
                } else if command.len() != v.arity() {
                    Err(ParserError::new(index_arity_message_text(v)))
                } else {
                    Ok(build_typed(command, v, RedisCommandType::IndexCommand, KeyType::Index))
                }
            },
            None => Err(ParserError::new("Unsupported Index command type")),
        }
    }

    /// Carries out `EXISTS`, `DEL` and `RENAME`, given the type the index
    /// records for the target.
    pub fn execute_index_command(
        &mut self,
        databases: &mut Databases,
        command: &CommandIdentifier,
        existing_key_type: &KeyType,
    ) -> (r: Result<CommandCompleted, ExecutionError>)
        requires
            old(self).wf(),
            old(databases).wf(),
            request_ok(command@),
        ensures
            final(self).wf(),
            final(databases).wf(),
            (server_model(final(self)@, final(databases)), completed_view(r)) == index_command(
                server_model(old(self)@, old(databases)),
                command@,
                *existing_key_type,
            ),
        decreases request_rank(command@), 0int,
    {
        let target = command.get_target();
        let existing = *existing_key_type;
        match command.get_verb() {
            Some(Verb::Exists) => {
                let reply = if existing == KeyType::Undefined {
                    format_count(0)
                } else {
                    format_count(1)
                };
                Ok(CommandCompleted::new(target, KeyType::Index, IndexImpactOnCompletion::NoImpact, bytes_from_vec(reply)))
            },
            Some(Verb::Del) => {
                let mut deleted: u16 = 0;
                if existing == KeyType::String {
                    deleted = databases.string.delete(target);
                } else if existing == KeyType::List {
                    deleted = databases.list.delete(target);
                }
                let impact = if deleted == 0 {
                    IndexImpactOnCompletion::NoImpact
                } else {
                    IndexImpactOnCompletion::Delete
                };
                let reply = format_count(deleted as usize);
                Ok(CommandCompleted::new(target, existing, impact, bytes_from_vec(reply)))
            },
            Some(Verb::Rename) => {
                if existing == KeyType::Undefined {
                    return Err(ExecutionError::new("-no such key"));
                }
                let raw = command.param(0);
                let destination = match text_from_utf8(slice_to_vec(bytes_slice(&raw))) {
                    Some(d) => d,
                    None => {
                        return Err(ExecutionError::new(TOKEN_IS_NOT_VALID_UTF8));
                    },
                };
                let delete_command = CommandIdentifier::for_verb(
                    RedisCommandType::IndexCommand,
                    destination.clone(),
                    Verb::Del,
                    Vec::new(),
                    KeyType::Index,
                    LockType::Write,
                );
                match self.internal_execute_command(databases, &delete_command) {
                    Ok(_) => {},
                    Err(e) => {
                        return Err(e);
                    },
                }
                if existing == KeyType::String {
                    let _ = databases.string.rename(target, destination.as_str());
                } else if existing == KeyType::List {
                    let _ = databases.list.rename(target, destination.as_str());
                }
                Ok(
                    CommandCompleted::new(
                        destination.as_str(),
                        existing,
                        IndexImpactOnCompletion::Rename,
                        bytes_from_vec(format_ok()),
                    ),
                )
            },
            _ => Err(
                ExecutionError::new("-WRONGTYPE Operation against a key holding the wrong kind of value"),
            ),
        }
    }

    /// Whether the index records `key`.
    pub fn contains(&self, key: &str) -> (r: bool)
        requires
            self.wf(),
        ensures
            r == self@.contains_key(key@),
    {
        self.type_map.contains(key)
    }
}

/// Orders requests for the one nested call: a `RENAME` runs a `DEL`.
pub open spec fn request_rank(req: RequestView) -> int {
    if req.verb == Some(Verb::Rename) {
        1
    } else {
        0
    }
}


/// Every request that building gives can be carried out.
pub proof fn lemma_built_request_ok(argv: Seq<Seq<char>>)
    requires
        argv.len() >= 1,
    ensures
        build_request(argv) matches Ok(req) ==> request_ok(req),
{
    if argv.len() == 3 {
        vstd::utf8::encode_utf8_valid_utf8(argv[2]);
    }
}

/// Carrying out a request keeps the server consistent.
pub proof fn lemma_execute_consistent(m: ServerModel, req: RequestView)
    requires
        consistent(m),
        request_ok(req),
    ensures
        consistent(execute_request(m, req).0),
{
    let existing = existing_type(m.index, req.target);
    if req.key_type != KeyType::Index && existing != KeyType::Undefined && existing != req.key_type {
    } else {
        match req.command_type {
            RedisCommandType::StringCommand => lemma_string_consistent(m, req),
            RedisCommandType::ListCommand => lemma_list_consistent(m, req),
            RedisCommandType::IndexCommand => lemma_index_consistent(m, req),
            RedisCommandType::UnknownCommand => {},
        }
    }
}

proof fn lemma_string_consistent(m: ServerModel, req: RequestView)
    requires
        consistent(m),
        request_ok(req),
        req.command_type == RedisCommandType::StringCommand,
        existing_type(m.index, req.target) == KeyType::Undefined || existing_type(m.index, req.target)
            == KeyType::String,
    ensures
        consistent(execute_request(m, req).0),
{
    let t = req.target;
    assert(!m.lists.contains_key(t));
    assert(m.strings.contains_key(t) <==> m.index.contains_key(t));
    if string_execute(m.strings, req).1 is Ok {
        assert(consistent(execute_request(m, req).0));
    }
}

proof fn lemma_list_consistent(m: ServerModel, req: RequestView)
    requires
        consistent(m),
        request_ok(req),
        req.command_type == RedisCommandType::ListCommand,
        existing_type(m.index, req.target) == KeyType::Undefined || existing_type(m.index, req.target)
            == KeyType::List,
    ensures
        consistent(execute_request(m, req).0),
{
    let t = req.target;
    assert(!m.strings.contains_key(t));
    assert(m.lists.contains_key(t) <==> m.index.contains_key(t));
    if list_execute(m.lists, req).1 is Ok {
        assert(consistent(execute_request(m, req).0));
    }
}

/// `DEL` keeps the server consistent once its impact is applied.
proof fn lemma_del_consistent(m: ServerModel, key: Seq<char>)
    requires
        consistent(m),
    ensures
        ({
            let (m1, o) = del_command(m, key, existing_type(m.index, key));
            &&& consistent(ServerModel { index: apply_impact(m1.index, o, key), ..m1 })
            &&& o.key_name == key
            &&& !m1.strings.contains_key(key)
            &&& !m1.lists.contains_key(key)
            &&& !apply_impact(m1.index, o, key).contains_key(key)
            &&& o.impact == IndexImpactOnCompletion::NoImpact || o.impact == IndexImpactOnCompletion::Delete
        }),
{
    let (m1, o) = del_command(m, key, existing_type(m.index, key));
    let m2 = ServerModel { index: apply_impact(m1.index, o, key), ..m1 };
    assert(consistent(m2));
}

proof fn lemma_index_consistent(m: ServerModel, req: RequestView)
    requires
        consistent(m),
        request_ok(req),
        req.command_type == RedisCommandType::IndexCommand,
    ensures
        consistent(execute_request(m, req).0),
{
    let t = req.target;
    let existing = existing_type(m.index, t);
    match req.verb {
        Some(Verb::Del) => {
            lemma_del_consistent(m, t);
        },
        Some(Verb::Rename) => {
            if existing != KeyType::Undefined {
                let dst = decode_utf8(req.params[0]);
                lemma_del_consistent(m, dst);
                let (m1, o) = del_command(m, dst, existing_type(m.index, dst));
                let m2 = ServerModel { index: apply_impact(m1.index, o, dst), ..m1 };
                assert(m2.index.contains_key(t) <==> t != dst);
                let m3 = index_command(m, req, existing).0;
                let m4 = execute_request(m, req).0;
                assert(m4.index == m3.index.insert(dst, existing).remove(t));
                if existing == KeyType::String {
                    assert(m.strings.contains_key(t));
                } else {
                    assert(existing == KeyType::List);
                    assert(m.lists.contains_key(t));
                }
                assert(consistent(m4));
            }
        },
        _ => {},
    }
}

} // verus!
