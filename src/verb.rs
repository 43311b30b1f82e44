//! The closed set of command verbs, recognised without regard to ASCII case.

use vstd::prelude::*;
use vstd::utf8::{encode_utf8, is_ascii_chars, is_ascii_chars_encode_utf8};
use crate::index::LockType;

verus! {

#[derive(Debug, Clone, Copy, PartialEq, Eq, Structural)]
pub enum Verb {
    Get,
    SetValue,
    Incr,
    IncrBy,
    Decr,
    DecrBy,
    LLen,
    LIndex,
    RPush,
    RPop,
    LPush,
    LPop,
    Exists,
    Del,
    Rename,
}

pub open spec fn ascii_upper(b: u8) -> u8 {
    if 97 <= b <= 122 {
        (b - 32) as u8
    } else {
        b
    }
}

pub open spec fn upper(s: Seq<u8>) -> Seq<u8> {
    s.map_values(|b: u8| ascii_upper(b))
}

/// The canonical upper-case spelling of a verb.
pub open spec fn verb_name(v: Verb) -> Seq<u8> {
    match v {
        Verb::Get => seq![71u8, 69, 84],
        Verb::SetValue => seq![83u8, 69, 84],
        Verb::Incr => seq![73u8, 78, 67, 82],
        Verb::IncrBy => seq![73u8, 78, 67, 82, 66, 89],
        Verb::Decr => seq![68u8, 69, 67, 82],
        Verb::DecrBy => seq![68u8, 69, 67, 82, 66, 89],
        Verb::LLen => seq![76u8, 76, 69, 78],
        Verb::LIndex => seq![76u8, 73, 78, 68, 69, 88],
        Verb::RPush => seq![82u8, 80, 85, 83, 72],
        Verb::RPop => seq![82u8, 80, 79, 80],
        Verb::LPush => seq![76u8, 80, 85, 83, 72],
        Verb::LPop => seq![76u8, 80, 79, 80],
        Verb::Exists => seq![69u8, 88, 73, 83, 84, 83],
        Verb::Del => seq![68u8, 69, 76],
        Verb::Rename => seq![82u8, 69, 78, 65, 77, 69],
    }
}

/// The verb that `s` spells in any ASCII case, if any.
pub open spec fn verb_of(s: Seq<u8>) -> Option<Verb> {
    let u = upper(s);
    if u == verb_name(Verb::Get) {
        Some(Verb::Get)
    } else if u == verb_name(Verb::SetValue) {
        Some(Verb::SetValue)
    } else if u == verb_name(Verb::Incr) {
        Some(Verb::Incr)
    } else if u == verb_name(Verb::IncrBy) {
        Some(Verb::IncrBy)
    } else if u == verb_name(Verb::Decr) {
        Some(Verb::Decr)
    } else if u == verb_name(Verb::DecrBy) {
        Some(Verb::DecrBy)
    } else if u == verb_name(Verb::LLen) {
        Some(Verb::LLen)
    } else if u == verb_name(Verb::LIndex) {
        Some(Verb::LIndex)
    } else if u == verb_name(Verb::RPush) {
        Some(Verb::RPush)
    } else if u == verb_name(Verb::RPop) {
        Some(Verb::RPop)
    } else if u == verb_name(Verb::LPush) {
        Some(Verb::LPush)
    } else if u == verb_name(Verb::LPop) {
        Some(Verb::LPop)
    } else if u == verb_name(Verb::Exists) {
        Some(Verb::Exists)
    } else if u == verb_name(Verb::Del) {
        Some(Verb::Del)
    } else if u == verb_name(Verb::Rename) {
        Some(Verb::Rename)
    } else {
        None
    }
}

/// The verb that a text argument spells, judged on its UTF-8 bytes.
pub open spec fn verb_of_text(s: Seq<char>) -> Option<Verb> {
    verb_of(encode_utf8(s))
}

pub open spec fn is_string_verb(v: Verb) -> bool {
    matches!(v, Verb::Get | Verb::SetValue | Verb::Incr | Verb::IncrBy | Verb::Decr | Verb::DecrBy)
}

pub open spec fn is_list_verb(v: Verb) -> bool {
    matches!(v, Verb::LLen | Verb::LIndex | Verb::RPush | Verb::RPop | Verb::LPush | Verb::LPop)
}

pub open spec fn is_index_verb(v: Verb) -> bool {
    matches!(v, Verb::Exists | Verb::Del | Verb::Rename)
}

/// How many arguments, the verb included, the command takes.
pub open spec fn verb_arity(v: Verb) -> nat {
    match v {
        Verb::SetValue | Verb::IncrBy | Verb::DecrBy | Verb::LIndex | Verb::RPush | Verb::LPush
        | Verb::Rename => 3,
        _ => 2,
    }
}

/// The canonical spelling as text.
pub open spec fn verb_text(v: Verb) -> Seq<char> {
    match v {
        Verb::Get => "GET"@,
        Verb::SetValue => "SET"@,
        Verb::Incr => "INCR"@,
        Verb::IncrBy => "INCRBY"@,
        Verb::Decr => "DECR"@,
        Verb::DecrBy => "DECRBY"@,
        Verb::LLen => "LLEN"@,
        Verb::LIndex => "LINDEX"@,
        Verb::RPush => "RPUSH"@,
        Verb::RPop => "RPOP"@,
        Verb::LPush => "LPUSH"@,
        Verb::LPop => "LPOP"@,
        Verb::Exists => "EXISTS"@,
        Verb::Del => "DEL"@,
        Verb::Rename => "RENAME"@,
    }
}

/// The index lock a verb asks for.
pub open spec fn verb_lock(v: Verb) -> LockType {
    match v {
        Verb::Get | Verb::LLen | Verb::LIndex | Verb::Exists => LockType::Read,
        _ => LockType::Write,
    }
}

impl Verb {
    pub fn is_string_verb(&self) -> (r: bool)
        ensures
            r == is_string_verb(*self),
    {
        matches!(self, Verb::Get | Verb::SetValue | Verb::Incr | Verb::IncrBy | Verb::Decr | Verb::DecrBy)
    }

    pub fn is_list_verb(&self) -> (r: bool)
        ensures
            r == is_list_verb(*self),
    {
        matches!(self, Verb::LLen | Verb::LIndex | Verb::RPush | Verb::RPop | Verb::LPush | Verb::LPop)
    }

    pub fn is_index_verb(&self) -> (r: bool)
        ensures
            r == is_index_verb(*self),
    {
        matches!(self, Verb::Exists | Verb::Del | Verb::Rename)
    }

    pub fn arity(&self) -> (r: usize)
        ensures
            r == verb_arity(*self),
    {
        match self {
            Verb::SetValue | Verb::IncrBy | Verb::DecrBy | Verb::LIndex | Verb::RPush | Verb::LPush
            | Verb::Rename => 3,
            _ => 2,
        }
    }

    pub fn lock(&self) -> (r: LockType)
        ensures
            r == verb_lock(*self),
    {
        match self {
            Verb::Get | Verb::LLen | Verb::LIndex | Verb::Exists => LockType::Read,
            _ => LockType::Write,
        }
    }

    pub fn name(&self) -> (r: &'static str)
        ensures
            r@ == verb_text(*self),
    {
        match self {
            Verb::Get => "GET",
            Verb::SetValue => "SET",
            Verb::Incr => "INCR",
            Verb::IncrBy => "INCRBY",
            Verb::Decr => "DECR",
            Verb::DecrBy => "DECRBY",
            Verb::LLen => "LLEN",
            Verb::LIndex => "LINDEX",
            Verb::RPush => "RPUSH",
            Verb::RPop => "RPOP",
            Verb::LPush => "LPUSH",
            Verb::LPop => "LPOP",
            Verb::Exists => "EXISTS",
            Verb::Del => "DEL",
            Verb::Rename => "RENAME",
        }
    }

    fn name_bytes(&self) -> (r: Vec<u8>)
        ensures
            r@ == verb_name(*self),
    {
        let r: Vec<u8> = match self {
            Verb::Get => vec![71u8, 69, 84],
            Verb::SetValue => vec![83u8, 69, 84],
            Verb::Incr => vec![73u8, 78, 67, 82],
            Verb::IncrBy => vec![73u8, 78, 67, 82, 66, 89],
            Verb::Decr => vec![68u8, 69, 67, 82],
            Verb::DecrBy => vec![68u8, 69, 67, 82, 66, 89],
            Verb::LLen => vec![76u8, 76, 69, 78],
            Verb::LIndex => vec![76u8, 73, 78, 68, 69, 88],
            Verb::RPush => vec![82u8, 80, 85, 83, 72],
            Verb::RPop => vec![82u8, 80, 79, 80],
            Verb::LPush => vec![76u8, 80, 85, 83, 72],
            Verb::LPop => vec![76u8, 80, 79, 80],
            Verb::Exists => vec![69u8, 88, 73, 83, 84, 83],
            Verb::Del => vec![68u8, 69, 76],
            Verb::Rename => vec![82u8, 69, 78, 65, 77, 69],
        };
        assert(r@ =~= verb_name(*self));
        r
    }
}

/// The canonical spelling of each verb is recognised as that verb.
pub proof fn lemma_canonical_spelling(v: Verb)
    ensures
        verb_of_text(verb_text(v)) == Some(v),
{
    let t = verb_text(v);
    match v {
        Verb::Get => reveal_strlit("GET"),
        Verb::SetValue => reveal_strlit("SET"),
        Verb::Incr => reveal_strlit("INCR"),
        Verb::IncrBy => reveal_strlit("INCRBY"),
        Verb::Decr => reveal_strlit("DECR"),
        Verb::DecrBy => reveal_strlit("DECRBY"),
        Verb::LLen => reveal_strlit("LLEN"),
        Verb::LIndex => reveal_strlit("LINDEX"),
        Verb::RPush => reveal_strlit("RPUSH"),
        Verb::RPop => reveal_strlit("RPOP"),
        Verb::LPush => reveal_strlit("LPUSH"),
        Verb::LPop => reveal_strlit("LPOP"),
        Verb::Exists => reveal_strlit("EXISTS"),
        Verb::Del => reveal_strlit("DEL"),
        Verb::Rename => reveal_strlit("RENAME"),
    }
    assert(is_ascii_chars(t));
    is_ascii_chars_encode_utf8(t);
    let b = encode_utf8(t);
    assert(upper(b) =~= verb_name(v));
}

fn to_upper(s: &[u8]) -> (r: Vec<u8>)
    ensures
        r@ == upper(s@),
{
    let mut r: Vec<u8> = Vec::new();
    let mut i: usize = 0;
    while i < s.len()
        invariant
            i <= s@.len(),
            r@ =~= upper(s@.subrange(0, i as int)),
        decreases s@.len() - i,
    {
        let b = s[i];
        let c = if 97 <= b && b <= 122 {
            b - 32
        } else {
            b
        };
        r.push(c);
        i = i + 1;
        assert(s@.subrange(0, i as int) =~= s@.subrange(0, i - 1).push(b));
    }
    assert(s@.subrange(0, s@.len() as int) =~= s@);
    r
}

fn same_bytes(a: &[u8], b: &[u8]) -> (r: bool)
    ensures
        r == (a@ == b@),
{
    if a.len() != b.len() {
        return false;
    }
    let mut i: usize = 0;
    while i < a.len()
        invariant
            a@.len() == b@.len(),
            i <= a@.len(),
            forall|j: int| 0 <= j < i ==> a@[j] == b@[j],
        decreases a@.len() - i,
    {
        if a[i] != b[i] {
            return false;
        }
        i = i + 1;
    }
    assert(a@ =~= b@);
    true
}

fn spells(u: &Vec<u8>, v: Verb) -> (r: bool)
    ensures
        r == (u@ == verb_name(v)),
{
    let n = v.name_bytes();
    same_bytes(u.as_slice(), n.as_slice())
}

/// Recognises a verb in any ASCII case.
pub fn identify_verb(s: &[u8]) -> (r: Option<Verb>)
    ensures
        r == verb_of(s@),
{
    let u = to_upper(s);
    if spells(&u, Verb::Get) {
        Some(Verb::Get)
    } else if spells(&u, Verb::SetValue) {
        Some(Verb::SetValue)
    } else if spells(&u, Verb::Incr) {
        Some(Verb::Incr)
    } else if spells(&u, Verb::IncrBy) {
        Some(Verb::IncrBy)
    } else if spells(&u, Verb::Decr) {
        Some(Verb::Decr)
    } else if spells(&u, Verb::DecrBy) {
        Some(Verb::DecrBy)
    } else if spells(&u, Verb::LLen) {
        Some(Verb::LLen)
    } else if spells(&u, Verb::LIndex) {
        Some(Verb::LIndex)
    } else if spells(&u, Verb::RPush) {
        Some(Verb::RPush)
    } else if spells(&u, Verb::RPop) {
        Some(Verb::RPop)
    } else if spells(&u, Verb::LPush) {
        Some(Verb::LPush)
    } else if spells(&u, Verb::LPop) {
        Some(Verb::LPop)
    } else if spells(&u, Verb::Exists) {
        Some(Verb::Exists)
    } else if spells(&u, Verb::Del) {
        Some(Verb::Del)
    } else if spells(&u, Verb::Rename) {
        Some(Verb::Rename)
    } else {
        None
    }
}

/// Recognises the verb spelled by a text argument.
pub fn identify_verb_text(s: &str) -> (r: Option<Verb>)
    ensures
        r == verb_of_text(s@),
{
    identify_verb(s.as_bytes())
}

} // verus!
