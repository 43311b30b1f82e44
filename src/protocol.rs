//! Reading single protocol elements from a token sequence, and parsing a
//! whole request into a textual command.

use crate::command::RedisCommand;
use crate::commands::ParserError;
use crate::resp::{i64_of, parse_i64};
use crate::text::text_from_utf8;
use crate::tokenizer::{
    frame, get_number_of_chars, header_size, identify_command, prepend, token_values, Token,
    IDENTIFIER_IS_WRONG_SIZE, INVALID_NO_IDENTIFIER, INVALID_REQUEST_STRUCTURE, NO_TOKENS_FOUND, TOKEN_IS_NOT_VALID_UTF8,
    TOKEN_SIZE_NOT_A_BYTE, TOKEN_SIZE_NOT_A_NUMBER,
};
use crate::verb::{identify_verb_text, is_list_verb, is_string_verb, verb_of_text};
use vstd::prelude::*;
use vstd::slice::slice_to_vec;
use vstd::utf8::{decode_utf8, valid_utf8};

verus! {

pub const NESTED_ARRAY: &'static str = "An array is not a single identifier";

pub const ARGUMENT_NOT_TEXT: &'static str = "Command arguments must be strings";

/// A single element: a bulk or simple string, or an integer.
#[derive(Debug)]
pub enum Identifier {
    String(String),
    Integer(i64),
}

pub ghost enum IdentifierView {
    Text(Seq<char>),
    Integer(i64),
}

impl View for Identifier {
    type V = IdentifierView;

    open spec fn view(&self) -> IdentifierView {
        match self {
            Identifier::String(s) => IdentifierView::Text(s@),
            Identifier::Integer(i) => IdentifierView::Integer(*i),
        }
    }
}

/// An element, and how many tokens it took.
pub struct IdentifierType {
    pub identifier: Identifier,
    pub consumed_tokens: usize,
}

impl IdentifierType {
    pub fn get_identifier(&self) -> (r: &Identifier)
        ensures
            *r == self.identifier,
    {
        &self.identifier
    }
}

/// The value of a bulk string announced as `n` bytes long.
pub open spec fn bulk_value(v: Seq<u8>, n: int) -> Result<IdentifierView, Seq<char>> {
    if !valid_utf8(v) {
        Err(TOKEN_IS_NOT_VALID_UTF8@)
    } else if v.len() != n {
        Err(IDENTIFIER_IS_WRONG_SIZE@)
    } else {
        Ok(IdentifierView::Text(decode_utf8(v)))
    }
}

/// Reads a token as the value of a bulk string announced as `num_chars` bytes long.
pub fn convert_to_string_identifier(token: &Token, num_chars: usize) -> (r: Result<Identifier, ParserError>)
    ensures
        match r {
            Ok(id) => bulk_value(token.value@, num_chars as int) == Ok::<IdentifierView, Seq<char>>(id@),
            Err(e) => bulk_value(token.value@, num_chars as int) == Err::<IdentifierView, Seq<char>>(e@),
        },
{
    let text = match text_from_utf8(slice_to_vec(token.value.as_slice())) {
        Some(t) => t,
        None => {
            return Err(ParserError::new(TOKEN_IS_NOT_VALID_UTF8));
        },
    };
    if token.value.len() != num_chars {
        return Err(ParserError::new(IDENTIFIER_IS_WRONG_SIZE));
    }
    Ok(Identifier::String(text))
}

/// The element that starts at token `start`, and how many tokens it spans:
/// `$<n>` and a value of `n` bytes, `:<integer>`, or a simple string.
pub open spec fn element_at(tokens: Seq<Seq<u8>>, start: int) -> Result<(IdentifierView, int), Seq<char>> {
    if start < 0 || start >= tokens.len() {
        Err(NO_TOKENS_FOUND@)
    } else {
        let t = tokens[start];
        if t.len() > 0 && t[0] == 36u8 {
            match header_size(t) {
                Err(e) => Err(e),
                Ok(n) => if start + 1 >= tokens.len() {
                    Err(INVALID_NO_IDENTIFIER@)
                } else {
                    match bulk_value(tokens[start + 1], n as int) {
                        Ok(id) => Ok((id, 2)),
                        Err(e) => Err(e),
                    }
                },
            }
        } else if t.len() > 0 && t[0] == 58u8 {
            let d = t.drop_first();
            if !valid_utf8(d) {
                Err(TOKEN_SIZE_NOT_A_BYTE@)
            } else {
                match i64_of(d) {
                    Some(i) => Ok((IdentifierView::Integer(i), 1)),
                    None => Err(TOKEN_SIZE_NOT_A_NUMBER@),
                }
            }
        } else if t.len() > 0 && t[0] == 42u8 {
            Err(NESTED_ARRAY@)
        } else if !valid_utf8(t) {
            Err(TOKEN_IS_NOT_VALID_UTF8@)
        } else {
            Ok((IdentifierView::Text(decode_utf8(t)), 1))
        }
    }
}

/// Reads the element that starts at token `start`.
pub fn determine_identifiers(tokens: &[Token], start: usize) -> (r: Result<IdentifierType, ParserError>)
    ensures
        match r {
            Ok(id) => element_at(token_values(tokens@), start as int) == Ok::<(IdentifierView, int), Seq<char>>(
                (id.identifier@, id.consumed_tokens as int),
            ),
            Err(e) => element_at(token_values(tokens@), start as int) == Err::<(IdentifierView, int), Seq<char>>(
                e@,
            ),
        },
{
    let ghost tv = token_values(tokens@);
    if start >= tokens.len() {
        return Err(ParserError::new(NO_TOKENS_FOUND));
    }
    let first = &tokens[start];
    assert(tv[start as int] == first.value@);
    if first.value.len() > 0 && first.value[0] == 36u8 {
        let n = match get_number_of_chars(first) {
            Ok(n) => n,
            Err(e) => {
                return Err(e);
            },
        };
        if start + 1 >= tokens.len() {
            return Err(ParserError::new(INVALID_NO_IDENTIFIER));
        }
        let value = &tokens[start + 1];
        assert(tv[start + 1] == value.value@);
        match convert_to_string_identifier(value, n) {
            Ok(identifier) => Ok(IdentifierType { identifier, consumed_tokens: 2 }),
            Err(e) => Err(e),
        }
    } else if first.value.len() > 0 && first.value[0] == 58u8 {
        let digits = slice_to_vec(first.value.as_slice().split_at(1).1);
        assert(digits@ =~= first.value@.drop_first());
        if text_from_utf8(slice_to_vec(digits.as_slice())).is_none() {
            return Err(ParserError::new(TOKEN_SIZE_NOT_A_BYTE));
        }
        match parse_i64(digits.as_slice()) {
            Some(i) => Ok(IdentifierType { identifier: Identifier::Integer(i), consumed_tokens: 1 }),
            None => Err(ParserError::new(TOKEN_SIZE_NOT_A_NUMBER)),
        }
    } else if first.value.len() > 0 && first.value[0] == 42u8 {
        Err(ParserError::new(NESTED_ARRAY))
    } else {
        match text_from_utf8(slice_to_vec(first.value.as_slice())) {
            Some(t) => Ok(IdentifierType { identifier: Identifier::String(t), consumed_tokens: 1 }),
            None => Err(ParserError::new(TOKEN_IS_NOT_VALID_UTF8)),
        }
    }
}

/// The `count` elements that follow one another from token `i` on, each with
/// the number of tokens it spans.
pub open spec fn elements_from(tokens: Seq<Seq<u8>>, i: int, count: nat) -> Result<
    Seq<(IdentifierView, int)>,
    Seq<char>,
>
    decreases count,
{
    if count == 0 {
        Ok(Seq::empty())
    } else {
        match element_at(tokens, i) {
            Err(e) => Err(e),
            Ok((id, used)) => prepend(seq![(id, used)], elements_from(tokens, i + used, (count - 1) as nat)),
        }
    }
}

pub open spec fn elements_view(v: Seq<IdentifierType>) -> Seq<(IdentifierView, int)> {
    v.map_values(|e: IdentifierType| (e.identifier@, e.consumed_tokens as int))
}

proof fn lemma_element_in_bounds(tokens: Seq<Seq<u8>>, i: int)
    ensures
        element_at(tokens, i) matches Ok((_, used)) ==> 0 <= i && 1 <= used <= 2 && i + used <= tokens.len(),
{
}

/// Reads the elements of an array whose header is `first_token`, starting at
/// token `start`.
pub fn process_array_command(first_token: &Token, tokens: &[Token], start: usize) -> (r: Result<
    Vec<IdentifierType>,
    ParserError,
>)
    ensures
        match header_size(first_token.value@) {
            Ok(n) => match r {
                Ok(ids) => elements_from(token_values(tokens@), start as int, n as nat) == Ok::<
                    Seq<(IdentifierView, int)>,
                    Seq<char>,
                >(elements_view(ids@)),
                Err(e) => elements_from(token_values(tokens@), start as int, n as nat) == Err::<
                    Seq<(IdentifierView, int)>,
                    Seq<char>,
                >(e@),
            },
            Err(e) => r matches Err(x) && x@ == e,
        },
{
    let ghost tv = token_values(tokens@);
    let num_elements = match get_number_of_chars(first_token) {
        Ok(n) => n,
        Err(e) => {
            return Err(e);
        },
    };
    let total = tokens.len();
    let mut identifiers: Vec<IdentifierType> = Vec::new();
    let mut index: usize = start;
    let mut k: usize = 0;
    while k < num_elements
        invariant
            k <= num_elements,
            tv == token_values(tokens@),
            tv.len() == tokens@.len(),
            total == tokens@.len(),
            header_size(first_token.value@) == Ok::<usize, Seq<char>>(num_elements),
            elements_from(tv, start as int, num_elements as nat) == prepend(
                elements_view(identifiers@),
                elements_from(tv, index as int, (num_elements - k) as nat),
            ),
        decreases num_elements - k,
    {
        let id = match determine_identifiers(tokens, index) {
            Ok(id) => id,
            Err(e) => {
                return Err(e);
            },
        };
        proof {
            lemma_element_in_bounds(tv, index as int);
        }
        let used = id.consumed_tokens;
        let ghost before = elements_view(identifiers@);
        let ghost item = (id.identifier@, used as int);
        identifiers.push(id);
        assert(elements_view(identifiers@) =~= before + seq![item]);
        proof {
            match elements_from(tv, index + used, (num_elements - k - 1) as nat) {
                Ok(rest) => {
                    assert(before + (seq![item] + rest) =~= elements_view(identifiers@) + rest);
                },
                Err(_) => {},
            }
        }
        assert(index + used <= total);
        index = index + used;
        k = k + 1;
    }
    assert(elements_view(identifiers@) + Seq::<(IdentifierView, int)>::empty() =~= elements_view(identifiers@));
    Ok(identifiers)
}

/// The name of the collaborator that owns a verb.
pub open spec fn command_kind(verb: Seq<char>) -> Seq<char> {
    match verb_of_text(verb) {
        Some(v) => if is_string_verb(v) {
            "StringCommand"@
        } else if is_list_verb(v) {
            "ListCommand"@
        } else {
            "IndexCommand"@
        },
        None => "UnknownCommand"@,
    }
}

fn command_kind_text(verb: &str) -> (r: &'static str)
    ensures
        r@ == command_kind(verb@),
{
    match identify_verb_text(verb) {
        Some(v) => if v.is_string_verb() {
            "StringCommand"
        } else if v.is_list_verb() {
            "ListCommand"
        } else {
            "IndexCommand"
        },
        None => "UnknownCommand",
    }
}

/// A command that describes the arguments `argv`: the collaborator that owns
/// its verb, the verb, the key (empty when there is none), and the remaining
/// arguments.
pub open spec fn describes(c: RedisCommand, argv: Seq<Seq<char>>) -> bool {
    &&& argv.len() >= 1
    &&& c.command_type_text() == command_kind(argv[0])
    &&& c.action_text() == argv[0]
    &&& c.target_text() == if argv.len() > 1 {
        argv[1]
    } else {
        Seq::<char>::empty()
    }
    &&& c.params_text() == if argv.len() > 2 {
        argv.subrange(2, argv.len() as int)
    } else {
        Seq::<Seq<char>>::empty()
    }
}

fn command_from_args(argv: &Vec<String>) -> (r: RedisCommand)
    requires
        argv@.len() >= 1,
    ensures
        describes(r, argv@.map_values(|s: String| s@)),
{
    let ghost args = argv@.map_values(|s: String| s@);
    let kind = command_kind_text(argv[0].as_str()).to_owned();
    let action = argv[0].clone();
    let target = if argv.len() > 1 {
        argv[1].clone()
    } else {
        String::new()
    };
    let mut params: Vec<String> = Vec::new();
    let first: usize = if argv.len() > 2 {
        2
    } else {
        argv.len()
    };
    let mut i: usize = first;
    while i < argv.len()
        invariant
            first <= i <= argv@.len(),
            first == if argv@.len() > 2 {
                2
            } else {
                argv@.len()
            },
            args == argv@.map_values(|s: String| s@),
            params@.map_values(|s: String| s@) == args.subrange(first as int, i as int),
        decreases argv@.len() - i,
    {
        let ghost before = params@;
        let item = argv[i].clone();
        params.push(item);
        assert(params@ == before.push(item));
        assert(item@ == args[i as int]);
        assert(params@.map_values(|s: String| s@) =~= before.map_values(|s: String| s@).push(item@));
        assert(args.subrange(first as int, i + 1) =~= args.subrange(first as int, i as int).push(args[i as int]));
        i = i + 1;
    }
    assert(params@.map_values(|s: String| s@) =~= (if args.len() > 2 {
        args.subrange(2, args.len() as int)
    } else {
        Seq::<Seq<char>>::empty()
    }));
    RedisCommand::new(kind, target, action, params)
}

/// Frames a request and describes it as a command.
pub fn parse_request(request: &[u8]) -> (r: Result<RedisCommand, ParserError>)
    ensures
        match r {
            Ok(c) => match frame(request@) {
                Ok(argv) => describes(c, argv),
                Err(_) => false,
            },
            Err(e) => frame(request@) == Err::<Seq<Seq<char>>, Seq<char>>(e@),
        },
{
    match identify_command(request) {
        Ok(argv) => Ok(command_from_args(&argv)),
        Err(e) => Err(e),
    }
}

/// The texts of elements that are all strings.
pub open spec fn texts_of(ids: Seq<(IdentifierView, int)>) -> Option<Seq<Seq<char>>>
    decreases ids.len(),
{
    if ids.len() == 0 {
        Some(Seq::empty())
    } else {
        match (ids.last().0, texts_of(ids.drop_last())) {
            (IdentifierView::Text(t), Some(init)) => Some(init.push(t)),
            _ => None,
        }
    }
}

/// The arguments of the command array whose header is token `start`: its
/// elements, which must all be strings.
pub open spec fn command_args_at(tokens: Seq<Seq<u8>>, start: int) -> Result<Seq<Seq<char>>, Seq<char>> {
    if start < 0 || start >= tokens.len() {
        Err(NO_TOKENS_FOUND@)
    } else if tokens[start].len() == 0 || tokens[start][0] != 42u8 {
        Err(INVALID_REQUEST_STRUCTURE@)
    } else {
        match header_size(tokens[start]) {
            Err(e) => Err(e),
            Ok(n) => match elements_from(tokens, start + 1, n as nat) {
                Err(e) => Err(e),
                Ok(ids) => match texts_of(ids) {
                    Some(args) => Ok(args),
                    None => Err(ARGUMENT_NOT_TEXT@),
                },
            },
        }
    }
}

/// Reads the command array whose header is token `start` and describes it
/// as a command.
pub fn determine_command(tokens: &[Token], start: usize) -> (r: Result<RedisCommand, ParserError>)
    ensures
        match r {
            Ok(c) => match command_args_at(token_values(tokens@), start as int) {
                Ok(argv) => describes(c, argv),
                Err(_) => false,
            },
            Err(e) => command_args_at(token_values(tokens@), start as int) == Err::<
                Seq<Seq<char>>,
                Seq<char>,
            >(e@),
        },
{
    let ghost tv = token_values(tokens@);
    if start >= tokens.len() {
        return Err(ParserError::new(NO_TOKENS_FOUND));
    }
    let first = &tokens[start];
    assert(tv[start as int] == first.value@);
    if first.value.len() == 0 || first.value[0] != 42u8 {
        return Err(ParserError::new(INVALID_REQUEST_STRUCTURE));
    }
    let elements = match process_array_command(first, tokens, start + 1) {
        Ok(ids) => ids,
        Err(e) => {
            return Err(e);
        },
    };
    let ghost ids = elements_view(elements@);
    let ghost outcome = match texts_of(ids) {
        Some(a) => Ok::<Seq<Seq<char>>, Seq<char>>(a),
        None => Err::<Seq<Seq<char>>, Seq<char>>(ARGUMENT_NOT_TEXT@),
    };
    proof {
        lemma_header_nonzero(tv[start as int]);
        if let Ok(n) = header_size(tv[start as int]) {
            lemma_elements_len(tv, start + 1, n as nat);
        }
    }
    assert(command_args_at(tv, start as int) == outcome);
    assert(ids.len() >= 1);
    let mut args: Vec<String> = Vec::new();
    let mut i: usize = 0;
    while i < elements.len()
        invariant
            i <= elements@.len(),
            ids == elements_view(elements@),
            ids.len() >= 1,
            tv == token_values(tokens@),
            command_args_at(tv, start as int) == outcome,
            outcome == match texts_of(ids) {
                Some(a) => Ok::<Seq<Seq<char>>, Seq<char>>(a),
                None => Err::<Seq<Seq<char>>, Seq<char>>(ARGUMENT_NOT_TEXT@),
            },
            texts_of(ids.subrange(0, i as int)) == Some(args@.map_values(|s: String| s@)),
        decreases elements@.len() - i,
    {
        let ghost before = args@;
        assert(ids.subrange(0, i + 1).drop_last() =~= ids.subrange(0, i as int));
        match &elements[i].identifier {
            Identifier::String(text) => {
                args.push(text.clone());
                assert(args@.map_values(|s: String| s@) =~= before.map_values(|s: String| s@).push(text@));
            },
            Identifier::Integer(_) => {
                proof {
                    assert(ids.subrange(0, i + 1).last() == ids[i as int]);
                    assert(ids[i as int].0 == elements@[i as int].identifier@);
                    assert(ids[i as int].0 is Integer);
                    assert(texts_of(ids.subrange(0, i + 1)) is None);
                    lemma_texts_of_prefix(ids, i as int + 1);
                }
                return Err(ParserError::new(ARGUMENT_NOT_TEXT));
            },
        }
        i = i + 1;
    }
    assert(ids.subrange(0, elements@.len() as int) =~= ids);
    proof {
        lemma_texts_len(ids);
    }
    Ok(command_from_args(&args))
}

/// Elements that include a non-string at or before `k` have no texts.
proof fn lemma_texts_of_prefix(ids: Seq<(IdentifierView, int)>, k: int)
    requires
        1 <= k <= ids.len(),
        texts_of(ids.subrange(0, k)) is None,
    ensures
        texts_of(ids) is None,
    decreases ids.len() - k,
{
    if k < ids.len() {
        assert(ids.subrange(0, k + 1).drop_last() =~= ids.subrange(0, k));
        lemma_texts_of_prefix(ids, k + 1);
    } else {
        assert(ids.subrange(0, k) =~= ids);
    }
}

proof fn lemma_elements_len(tokens: Seq<Seq<u8>>, i: int, count: nat)
    ensures
        elements_from(tokens, i, count) matches Ok(ids) ==> ids.len() == count,
    decreases count,
{
    if count > 0 {
        if let Ok((_, used)) = element_at(tokens, i) {
            lemma_elements_len(tokens, i + used, (count - 1) as nat);
        }
    }
}

proof fn lemma_texts_len(ids: Seq<(IdentifierView, int)>)
    ensures
        texts_of(ids) matches Some(t) ==> t.len() == ids.len(),
    decreases ids.len(),
{
    if ids.len() > 0 {
        lemma_texts_len(ids.drop_last());
    }
}

proof fn lemma_header_nonzero(t: Seq<u8>)
    ensures
        header_size(t) matches Ok(n) ==> n >= 1,
{
}

} // verus!
