//! The framer: splits a request `*<n>\r\n` followed by `n` fields
//! `$<len>\r\n<bytes>\r\n` into its arguments.

use crate::commands::ParserError;
use crate::resp::{parse_usize, usize_of};
use crate::text::text_from_utf8;
use vstd::prelude::*;
use vstd::slice::slice_to_vec;
use vstd::utf8::{decode_utf8, valid_utf8};

verus! {

pub const EMPTY_REQUEST: &'static str = "Request is empty";

pub const NO_TOKENS_FOUND: &'static str = "No tokens found in the request";

pub const INVALID_REQUEST_STRUCTURE: &'static str =
    "Invalid request structure, expected an array indicator '*' at the start";

pub const INVALID_TOKEN_FORMAT: &'static str = "Invalid token format, expected newline after carriage return";

pub const EMPTY_TOKEN_VALUE: &'static str =
    "Empty token value; expected at least one character before carriage return";

pub const TOKEN_SIZE_NOT_A_BYTE: &'static str = "Unable to determine size of Token";

pub const TOKEN_SIZE_NOT_A_NUMBER: &'static str = "Token size is not a valid number";

pub const SIZE_CANNOT_BE_ZERO: &'static str = "Array size cannot be zero";

pub const IDENTIFIER_IS_WRONG_SIZE: &'static str = "Identifier size is less than expected";

pub const TOKEN_IS_NOT_VALID_UTF8: &'static str = "Identifiers are not valid UTF-8 bytes";

pub const INVALID_NO_SIZE_TOKEN: &'static str = "Expected size token '$' before identifier";

pub const INVALID_NO_IDENTIFIER: &'static str = "Expected identifier after size token";

pub const INVALID_REQUEST_INCORRECT_SIZE: &'static str =
    "Invalid structure, number of identifiers does not match expected size";

/// One line of a request: its content, and how many bytes of the request it
/// spans with its line end.
pub struct Token {
    pub value: Vec<u8>,
    pub size: usize,
}

/// The first carriage return at or after `i`, or the end of the input.
pub open spec fn cr_from(input: Seq<u8>, i: int) -> int
    decreases input.len() - i,
{
    if i >= input.len() {
        input.len() as int
    } else if input[i] == 13u8 {
        i
    } else {
        cr_from(input, i + 1)
    }
}

/// The token that starts at `start`: its content and the bytes it spans with
/// its line end. Every token ends in CRLF: a line that reaches the end of the
/// input without one is a format error.
pub open spec fn token_at(input: Seq<u8>, start: int) -> Result<(Seq<u8>, int), Seq<char>> {
    if input.len() == 0 || start >= input.len() {
        Err(EMPTY_REQUEST@)
    } else {
        let p = cr_from(input, start);
        if p < input.len() {
            if p == start {
                Err(EMPTY_TOKEN_VALUE@)
            } else if p + 1 >= input.len() || input[p + 1] != 10u8 {
                Err(INVALID_TOKEN_FORMAT@)
            } else {
                Ok((input.subrange(start, p), p - start + 2))
            }
        } else {
            Err(INVALID_TOKEN_FORMAT@)
        }
    }
}

pub open spec fn prepend<T>(p: Seq<T>, r: Result<Seq<T>, Seq<char>>) -> Result<Seq<T>, Seq<char>> {
    match r {
        Ok(rest) => Ok(p + rest),
        Err(e) => Err(e),
    }
}

pub proof fn lemma_cr_from(input: Seq<u8>, i: int)
    requires
        0 <= i,
    ensures
        i <= cr_from(input, i) || i >= input.len(),
        cr_from(input, i) <= input.len() || i > input.len(),
        i >= input.len() ==> cr_from(input, i) == input.len(),
        forall|j: int| i <= j < cr_from(input, i) ==> input[j] != 13u8,
        cr_from(input, i) < input.len() ==> input[cr_from(input, i)] == 13u8,
    decreases input.len() - i,
{
    if i < input.len() && input[i] != 13u8 {
        lemma_cr_from(input, i + 1);
    }
}

/// The contents of the tokens from `start` on, in order.
pub open spec fn tokens_from(input: Seq<u8>, start: int) -> Result<Seq<Seq<u8>>, Seq<char>>
    decreases input.len() - start,
{
    if start < 0 || start >= input.len() {
        Ok(Seq::empty())
    } else {
        match token_at(input, start) {
            Ok((v, size)) => if size <= 0 {
                Ok(Seq::empty())
            } else if start + size >= input.len() {
                Ok(seq![v])
            } else {
                prepend(seq![v], tokens_from(input, start + size))
            },
            Err(e) => Err(e),
        }
    }
}

/// Whether the input ends with a line end.
pub open spec fn ends_with_crlf(input: Seq<u8>) -> bool {
    input.len() >= 2 && input[input.len() - 2] == 13u8 && input[input.len() - 1] == 10u8
}

proof fn lemma_tokens_need_final_crlf(input: Seq<u8>, start: int)
    requires
        0 <= start < input.len(),
        tokens_from(input, start) is Ok,
    ensures
        ends_with_crlf(input),
    decreases input.len() - start,
{
    lemma_cr_from(input, start);
    let p = cr_from(input, start);
    if p < input.len() && p != start && p + 1 < input.len() && input[p + 1] == 10u8 {
        let size = p - start + 2;
        if start + size < input.len() {
            lemma_tokens_need_final_crlf(input, start + size);
        }
    }
}

/// A request that does not end in CRLF is incomplete: framing it fails.
pub proof fn law_incomplete_request_fails(request: Seq<u8>)
    requires
        !ends_with_crlf(request),
    ensures
        frame(request) is Err,
{
    if request.len() > 0 && tokens_from(request, 0) is Ok {
        lemma_tokens_need_final_crlf(request, 0);
    }
}

/// The size of an array or bulk-string header such as `*3` or `$5`.
pub open spec fn header_size(v: Seq<u8>) -> Result<usize, Seq<char>> {
    let d = if v.len() > 0 {
        v.drop_first()
    } else {
        v
    };
    if !valid_utf8(d) {
        Err(TOKEN_SIZE_NOT_A_BYTE@)
    } else {
        match usize_of(d) {
            Some(n) => if n == 0 {
                Err(SIZE_CANNOT_BE_ZERO@)
            } else {
                Ok(n)
            },
            None => Err(TOKEN_SIZE_NOT_A_NUMBER@),
        }
    }
}

/// The arguments that the `$`-sized fields from token `i` on spell.
pub open spec fn fields_from(tokens: Seq<Seq<u8>>, i: int) -> Result<Seq<Seq<char>>, Seq<char>>
    decreases tokens.len() - i,
{
    if i < 0 || i >= tokens.len() {
        Ok(Seq::empty())
    } else {
        let t = tokens[i];
        if t.len() == 0 || t[0] != 36u8 {
            Err(INVALID_NO_SIZE_TOKEN@)
        } else {
            match header_size(t) {
                Err(e) => Err(e),
                Ok(n) => if i + 1 >= tokens.len() {
                    Err(INVALID_NO_IDENTIFIER@)
                } else {
                    let v = tokens[i + 1];
                    if !valid_utf8(v) {
                        Err(TOKEN_IS_NOT_VALID_UTF8@)
                    } else if v.len() == 0 || v.len() != n {
                        Err(IDENTIFIER_IS_WRONG_SIZE@)
                    } else {
                        prepend(seq![decode_utf8(v)], fields_from(tokens, i + 2))
                    }
                },
            }
        }
    }
}

/// The arguments that a whole token sequence frames.
pub open spec fn frame_tokens(tokens: Seq<Seq<u8>>) -> Result<Seq<Seq<char>>, Seq<char>> {
    if tokens.len() == 0 {
        Err(NO_TOKENS_FOUND@)
    } else if tokens[0].len() == 0 || tokens[0][0] != 42u8 {
        Err(INVALID_REQUEST_STRUCTURE@)
    } else {
        match header_size(tokens[0]) {
            Err(e) => Err(e),
            Ok(n) => match fields_from(tokens, 1) {
                Err(e) => Err(e),
                Ok(args) => if args.len() != n {
                    Err(INVALID_REQUEST_INCORRECT_SIZE@)
                } else {
                    Ok(args)
                },
            },
        }
    }
}

/// The arguments that a request frames, or the first rule it breaks.
pub open spec fn frame(request: Seq<u8>) -> Result<Seq<Seq<char>>, Seq<char>> {
    if request.len() == 0 {
        Err(EMPTY_REQUEST@)
    } else {
        match tokens_from(request, 0) {
            Err(e) => Err(e),
            Ok(tokens) => frame_tokens(tokens),
        }
    }
}

pub open spec fn token_values(tokens: Seq<Token>) -> Seq<Seq<u8>> {
    tokens.map_values(|t: Token| t.value@)
}

pub open spec fn strings_view(v: Seq<String>) -> Seq<Seq<char>> {
    v.map_values(|s: String| s@)
}

pub open spec fn framed_view(r: Result<Vec<String>, ParserError>) -> Result<Seq<Seq<char>>, Seq<char>> {
    match r {
        Ok(v) => Ok(strings_view(v@)),
        Err(e) => Err(e@),
    }
}

/// Splits a request into its arguments.
pub fn identify_command(request: &[u8]) -> (r: Result<Vec<String>, ParserError>)
    ensures
        framed_view(r) == frame(request@),
        r matches Ok(args) ==> args@.len() >= 1,
        !ends_with_crlf(request@) ==> r is Err,
{
    proof {
        if !ends_with_crlf(request@) {
            law_incomplete_request_fails(request@);
        }
    }
    if request.len() == 0 {
        return Err(ParserError::new(EMPTY_REQUEST));
    }
    let tokens = match tokenize_request(request) {
        Ok(tokens) => tokens,
        Err(e) => {
            return Err(ParserError::new(e));
        },
    };
    validate_request_structure(tokens.as_slice())
}

/// Checks the token sequence against the framing rules and collects the
/// arguments.
pub fn validate_request_structure(tokens: &[Token]) -> (r: Result<Vec<String>, ParserError>)
    ensures
        framed_view(r) == frame_tokens(token_values(tokens@)),
        r matches Ok(args) ==> args@.len() >= 1,
{
    let ghost tv = token_values(tokens@);
    if tokens.len() == 0 {
        return Err(ParserError::new(NO_TOKENS_FOUND));
    }
    assert(tv[0] == tokens@[0].value@);
    if tokens[0].value.len() == 0 || tokens[0].value[0] != 42u8 {
        return Err(ParserError::new(INVALID_REQUEST_STRUCTURE));
    }
    let num_children = match get_number_of_chars(&tokens[0]) {
        Ok(n) => n,
        Err(e) => {
            return Err(e);
        },
    };
    let mut response: Vec<String> = Vec::new();
    let mut index: usize = 1;
    while index < tokens.len()
        invariant
            1 <= index,
            tv == token_values(tokens@),
            tv.len() == tokens@.len(),
            tv.len() > 0 && tv[0].len() > 0 && tv[0][0] == 42u8,
            header_size(tv[0]) == Ok::<usize, Seq<char>>(num_children),
            fields_from(tv, 1) == prepend(strings_view(response@), fields_from(tv, index as int)),
        decreases tokens@.len() - index,
    {
        assert(tv[index as int] == tokens@[index as int].value@);
        let size_token = &tokens[index];
        if size_token.value.len() == 0 || size_token.value[0] != 36u8 {
            assert(fields_from(tv, index as int) == Err::<Seq<Seq<char>>, Seq<char>>(INVALID_NO_SIZE_TOKEN@));
            return Err(ParserError::new(INVALID_NO_SIZE_TOKEN));
        }
        let size = match get_number_of_chars(size_token) {
            Ok(n) => n,
            Err(e) => {
                assert(fields_from(tv, index as int) == Err::<Seq<Seq<char>>, Seq<char>>(e@));
                return Err(e);
            },
        };
        if index + 1 >= tokens.len() {
            return Err(ParserError::new(INVALID_NO_IDENTIFIER));
        }
        assert(tv[index + 1] == tokens@[index + 1].value@);
        let bytes = slice_to_vec(tokens[index + 1].value.as_slice());
        let identifier = match text_from_utf8(bytes) {
            Some(s) => s,
            None => {
                assert(fields_from(tv, index as int) == Err::<Seq<Seq<char>>, Seq<char>>(TOKEN_IS_NOT_VALID_UTF8@));
                return Err(ParserError::new(TOKEN_IS_NOT_VALID_UTF8));
            },
        };
        if tokens[index + 1].value.len() == 0 || tokens[index + 1].value.len() != size {
            return Err(ParserError::new(IDENTIFIER_IS_WRONG_SIZE));
        }
        let ghost before = strings_view(response@);
        response.push(identifier);
        assert(strings_view(response@) =~= before + seq![decode_utf8(tv[index + 1])]);
        assert(fields_from(tv, index as int) == prepend(
            seq![decode_utf8(tv[index + 1])],
            fields_from(tv, index + 2),
        ));
        proof {
            match fields_from(tv, index + 2) {
                Ok(rest) => {
                    assert(before + (seq![decode_utf8(tv[index + 1])] + rest) =~= strings_view(response@) + rest);
                },
                Err(_) => {},
            }
        }
        index = if tokens.len() - index >= 2 {
            index + 2
        } else {
            tokens.len()
        };
    }
    assert(fields_from(tv, index as int) == Ok::<Seq<Seq<char>>, Seq<char>>(Seq::empty()));
    assert(strings_view(response@) + Seq::<Seq<char>>::empty() =~= strings_view(response@));
    if response.len() != num_children {
        return Err(ParserError::new(INVALID_REQUEST_INCORRECT_SIZE));
    }
    Ok(response)
}

/// The size that a header token such as `*3` or `$5` announces.
pub fn get_number_of_chars(token: &Token) -> (r: Result<usize, ParserError>)
    ensures
        match r {
            Ok(n) => header_size(token.value@) == Ok::<usize, Seq<char>>(n),
            Err(e) => header_size(token.value@) == Err::<usize, Seq<char>>(e@),
        },
{
    let digits: Vec<u8> = if token.value.len() > 0 {
        slice_to_vec(token.value.as_slice().split_at(1).1)
    } else {
        Vec::new()
    };
    assert(digits@ =~= if token.value@.len() > 0 {
        token.value@.drop_first()
    } else {
        token.value@
    });
    let text = match text_from_utf8(slice_to_vec(digits.as_slice())) {
        Some(t) => t,
        None => {
            return Err(ParserError::new(TOKEN_SIZE_NOT_A_BYTE));
        },
    };
    let size = match parse_usize(digits.as_slice()) {
        Some(n) => n,
        None => {
            return Err(ParserError::new(TOKEN_SIZE_NOT_A_NUMBER));
        },
    };
    if size == 0 {
        return Err(ParserError::new(SIZE_CANNOT_BE_ZERO));
    }
    Ok(size)
}

/// Splits a request into its lines.
pub fn tokenize_request(request: &[u8]) -> (r: Result<Vec<Token>, &'static str>)
    ensures
        match r {
            Ok(tokens) => tokens_from(request@, 0) == Ok::<Seq<Seq<u8>>, Seq<char>>(
                token_values(tokens@),
            ),
            Err(e) => tokens_from(request@, 0) == Err::<Seq<Seq<u8>>, Seq<char>>(e@),
        },
{
    let mut tokens: Vec<Token> = Vec::new();
    let mut start: usize = 0;
    while start < request.len()
        invariant
            start <= request@.len(),
            tokens_from(request@, 0) == prepend(token_values(tokens@), tokens_from(request@, start as int)),
        decreases request@.len() - start,
    {
        match get_token(request, start) {
            Ok(token) => {
                let ghost before = token_values(tokens@);
                let ghost v = token.value@;
                let size = token.size;
                tokens.push(token);
                assert(token_values(tokens@) =~= before + seq![v]);
                if size >= request.len() - start {
                    assert(tokens_from(request@, start as int) == Ok::<Seq<Seq<u8>>, Seq<char>>(seq![v]));
                    assert(before + seq![v] =~= token_values(tokens@) + Seq::<Seq<u8>>::empty());
                    start = request.len();
                } else {
                    proof {
                        match tokens_from(request@, start + size) {
                            Ok(rest) => {
                                assert(before + (seq![v] + rest) =~= token_values(tokens@) + rest);
                            },
                            Err(_) => {},
                        }
                    }
                    start = start + size;
                }
            },
            Err(e) => {
                return Err(e);
            },
        }
    }
    assert(token_values(tokens@) + Seq::<Seq<u8>>::empty() =~= token_values(tokens@));
    Ok(tokens)
}

/// Reads the line that starts at `start`.
pub fn get_token(input: &[u8], start: usize) -> (r: Result<Token, &'static str>)
    ensures
        match r {
            Ok(t) => token_at(input@, start as int) == Ok::<(Seq<u8>, int), Seq<char>>(
                (t.value@, t.size as int),
            ) && t.size >= 3,
            Err(e) => token_at(input@, start as int) == Err::<(Seq<u8>, int), Seq<char>>(e@),
        },
{
    if input.len() == 0 || start >= input.len() {
        return Err(EMPTY_REQUEST);
    }
    proof {
        lemma_cr_from(input@, start as int);
    }
    let mut index: usize = start;
    let mut terminated = false;
    while index < input.len()
        invariant_except_break
            !terminated,
        invariant
            start <= index <= input@.len(),
            start < input@.len(),
            forall|j: int| start <= j < index ==> input@[j] != 13u8,
            cr_from(input@, start as int) >= index,
            forall|j: int| start <= j < cr_from(input@, start as int) ==> input@[j] != 13u8,
            cr_from(input@, start as int) <= input@.len(),
            cr_from(input@, start as int) < input@.len() ==> input@[cr_from(input@, start as int)] == 13u8,
        ensures
            start <= index <= input@.len(),
            terminated ==> index + 1 < input@.len() && input@[index as int] == 13u8 && input@[index + 1] == 10u8 && index > start,
            !terminated ==> index == input@.len(),
            forall|j: int| start <= j < index ==> input@[j] != 13u8,
        decreases input@.len() - index,
    {
        if input[index] == 13u8 {
            if index == start {
                return Err(EMPTY_TOKEN_VALUE);
            }
            if index + 1 >= input.len() || input[index + 1] != 10u8 {
                return Err(INVALID_TOKEN_FORMAT);
            }
            terminated = true;
            break;
        }
        index = index + 1;
    }
    if !terminated {
        assert(cr_from(input@, start as int) == input@.len()) by {
            let p = cr_from(input@, start as int);
            if p < input@.len() {
                assert(input@[p] != 13u8);
            }
        }
        return Err(INVALID_TOKEN_FORMAT);
    }
    let count = index - start;
    let value = slice_to_vec(input.split_at(start).1.split_at(count).0);
    assert(value@ =~= input@.subrange(start as int, index as int));
    let ghost p = cr_from(input@, start as int);
    assert(p == index as int) by {
        if p < index {
            assert(input@[p] != 13u8);
        }
    }
    Ok(Token { value, size: count + 2 })
}

} // verus!
