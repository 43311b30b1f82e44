//! Decimal numbers and the reply shapes of the wire protocol.

use vstd::prelude::*;

verus! {

pub open spec fn is_digit(b: u8) -> bool {
    48 <= b <= 57
}

/// A non-empty run of ASCII decimal digits.
pub open spec fn is_decimal(s: Seq<u8>) -> bool {
    s.len() > 0 && forall|i: int| 0 <= i < s.len() ==> is_digit(#[trigger] s[i])
}

/// The number that a run of digits spells, most significant first.
pub open spec fn digits_value(s: Seq<u8>) -> int
    decreases s.len(),
{
    if s.len() == 0 {
        0
    } else {
        digits_value(s.drop_last()) * 10 + (s.last() - 48)
    }
}

/// An unsigned integer in text: an optional `+`, then digits.
pub open spec fn parse_unsigned(s: Seq<u8>) -> Option<int> {
    let d = if s.len() > 0 && s[0] == 43u8 {
        s.drop_first()
    } else {
        s
    };
    if is_decimal(d) {
        Some(digits_value(d))
    } else {
        None
    }
}

/// A signed integer in text: an optional `+` or `-`, then digits.
pub open spec fn parse_signed(s: Seq<u8>) -> Option<int> {
    if s.len() > 0 && s[0] == 45u8 {
        if is_decimal(s.drop_first()) {
            Some(-digits_value(s.drop_first()))
        } else {
            None
        }
    } else {
        parse_unsigned(s)
    }
}

/// The 64-bit signed integer that `s` spells, if it spells one in range.
pub open spec fn i64_of(s: Seq<u8>) -> Option<i64> {
    match parse_signed(s) {
        Some(v) => if i64::MIN <= v <= i64::MAX {
            Some(v as i64)
        } else {
            None
        },
        None => None,
    }
}

/// The machine-sized unsigned integer that `s` spells, if it spells one in range.
pub open spec fn usize_of(s: Seq<u8>) -> Option<usize> {
    match parse_unsigned(s) {
        Some(v) => if v <= usize::MAX {
            Some(v as usize)
        } else {
            None
        },
        None => None,
    }
}

/// The shortest decimal digits of `n`.
pub open spec fn digits_of(n: nat) -> Seq<u8>
    decreases n,
{
    if n < 10 {
        seq![(48 + n) as u8]
    } else {
        digits_of(n / 10).push((48 + n % 10) as u8)
    }
}

/// The decimal text of `i`, with a leading `-` when negative.
pub open spec fn decimal(i: int) -> Seq<u8> {
    if i < 0 {
        seq![45u8] + digits_of((-i) as nat)
    } else {
        digits_of(i as nat)
    }
}

pub open spec fn crlf() -> Seq<u8> {
    seq![13u8, 10u8]
}

/// `+<bytes>\r\n`
pub open spec fn simple_reply(v: Seq<u8>) -> Seq<u8> {
    seq![43u8] + v + crlf()
}

/// `:<n>\r\n`
pub open spec fn integer_reply(n: int) -> Seq<u8> {
    seq![58u8] + decimal(n) + crlf()
}

/// `_\r\n`
pub open spec fn null_reply() -> Seq<u8> {
    seq![95u8] + crlf()
}

/// `+OK\r\n`
pub open spec fn ok_reply() -> Seq<u8> {
    simple_reply(seq![79u8, 75u8])
}

/// `+(nil)\r\n`
pub open spec fn nil_reply() -> Seq<u8> {
    simple_reply(seq![40u8, 110u8, 105u8, 108u8, 41u8])
}

/// `-ERR <message> \r\n`; the space before the line end is part of the format.
pub open spec fn error_reply(message: Seq<u8>) -> Seq<u8> {
    seq![45u8, 69u8, 82u8, 82u8, 32u8] + message + seq![32u8] + crlf()
}

pub proof fn lemma_digits_of_decimal(n: nat)
    ensures
        is_decimal(digits_of(n)),
        digits_value(digits_of(n)) == n,
    decreases n,
{
    if n >= 10 {
        lemma_digits_of_decimal(n / 10);
        let d = digits_of(n);
        assert(d.drop_last() =~= digits_of(n / 10));
        assert(d.last() == (48 + n % 10) as u8);
        assert(n == (n / 10) * 10 + n % 10);
        assert forall|i: int| 0 <= i < d.len() implies is_digit(#[trigger] d[i]) by {
            if i < d.len() - 1 {
                assert(d[i] == digits_of(n / 10)[i]);
            }
        }
    } else {
        let d = digits_of(n);
        assert(d.drop_last() =~= Seq::<u8>::empty());
        assert(digits_value(d.drop_last()) == 0);
    }
}

/// Reading back the decimal text of an integer gives the integer.
pub proof fn lemma_parse_decimal(i: int)
    ensures
        parse_signed(decimal(i)) == Some(i),
{
    if i < 0 {
        lemma_digits_of_decimal((-i) as nat);
        assert((seq![45u8] + digits_of((-i) as nat)).drop_first() =~= digits_of((-i) as nat));
    } else {
        lemma_digits_of_decimal(i as nat);
        let d = digits_of(i as nat);
        assert(d[0] != 43u8 && d[0] != 45u8) by {
            assert(is_digit(d[0]));
        }
    }
}

/// Scans `s[start..]` as a run of digits whose value fits in a `u64`.
fn parse_digits(s: &[u8], start: usize) -> (r: Option<u64>)
    requires
        start <= s@.len(),
    ensures
        ({
            let d = s@.subrange(start as int, s@.len() as int);
            match r {
                Some(v) => is_decimal(d) && v == digits_value(d),
                None => !is_decimal(d) || digits_value(d) > u64::MAX,
            }
        }),
{
    if start == s.len() {
        return None;
    }
    let mut acc: u64 = 0;
    let mut overflow = false;
    let mut i = start;
    while i < s.len()
        invariant
            start < s@.len(),
            start <= i <= s@.len(),
            forall|j: int| start <= j < i ==> is_digit(#[trigger] s@[j]),
            !overflow ==> acc == digits_value(s@.subrange(start as int, i as int)),
            overflow ==> digits_value(s@.subrange(start as int, i as int)) > u64::MAX,
            digits_value(s@.subrange(start as int, i as int)) >= 0,
        decreases s@.len() - i,
    {
        let b = s[i];
        if b < 48 || b > 57 {
            assert(!is_digit(s@.subrange(start as int, s@.len() as int)[i - start]));
            return None;
        }
        let ghost prev = s@.subrange(start as int, i as int);
        let ghost next = s@.subrange(start as int, i + 1);
        assert(next.drop_last() =~= prev);
        let d = (b - 48) as u64;
        if !overflow {
            if acc > 1844674407370955161 || (acc == 1844674407370955161 && d > 5) {
                overflow = true;
            } else {
                acc = acc * 10 + d;
            }
        }
        i = i + 1;
    }
    let ghost d = s@.subrange(start as int, s@.len() as int);
    assert(is_decimal(d)) by {
        assert forall|j: int| 0 <= j < d.len() implies is_digit(#[trigger] d[j]) by {
            assert(d[j] == s@[start + j]);
        }
    }
    if overflow {
        None
    } else {
        Some(acc)
    }
}

/// Reads an unsigned machine-sized integer, as `str::parse::<usize>` does.
pub fn parse_usize(s: &[u8]) -> (r: Option<usize>)
    ensures
        r == usize_of(s@),
{
    let start: usize = if s.len() > 0 && s[0] == 43u8 {
        1
    } else {
        0
    };
    let ghost d = s@.subrange(start as int, s@.len() as int);
    assert(d =~= if s@.len() > 0 && s@[0] == 43u8 {
        s@.drop_first()
    } else {
        s@
    });
    match parse_digits(s, start) {
        Some(v) => {
            if v as u128 <= usize::MAX as u128 {
                Some(v as usize)
            } else {
                None
            }
        },
        None => None,
    }
}

/// Reads a signed 64-bit integer, as `str::parse::<i64>` does.
pub fn parse_i64(s: &[u8]) -> (r: Option<i64>)
    ensures
        r == i64_of(s@),
{
    if s.len() > 0 && s[0] == 45u8 {
        assert(s@.subrange(1, s@.len() as int) =~= s@.drop_first());
        match parse_digits(s, 1) {
            Some(m) => {
                if m <= 9223372036854775807 {
                    Some(-(m as i64))
                } else if m == 9223372036854775808 {
                    Some(i64::MIN)
                } else {
                    None
                }
            },
            None => None,
        }
    } else {
        let start: usize = if s.len() > 0 && s[0] == 43u8 {
            1
        } else {
            0
        };
        let ghost d = s@.subrange(start as int, s@.len() as int);
        assert(d =~= if s@.len() > 0 && s@[0] == 43u8 {
            s@.drop_first()
        } else {
            s@
        });
        match parse_digits(s, start) {
            Some(v) => {
                if v <= 9223372036854775807 {
                    Some(v as i64)
                } else {
                    None
                }
            },
            None => None,
        }
    }
}

/// Appends the decimal digits of `n`.
fn push_digits(out: &mut Vec<u8>, n: u64)
    ensures
        final(out)@ == old(out)@ + digits_of(n as nat),
    decreases n,
{
    if n >= 10 {
        push_digits(out, n / 10);
    }
    out.push((48 + n % 10) as u8);
    proof {
        if n >= 10 {
            assert(digits_of(n as nat) == digits_of((n / 10) as nat).push((48 + n % 10) as u8));
        }
    }
}

/// Appends the decimal text of `n`.
pub fn push_decimal(out: &mut Vec<u8>, n: i64)
    ensures
        final(out)@ == old(out)@ + decimal(n as int),
{
    if n < 0 {
        out.push(45u8);
        let m: u64 = if n == i64::MIN {
            9223372036854775808
        } else {
            (-n) as u64
        };
        push_digits(out, m);
    } else {
        push_digits(out, n as u64);
    }
}

/// Appends the decimal text of an unsigned count.
pub fn push_count(out: &mut Vec<u8>, n: usize)
    ensures
        final(out)@ == old(out)@ + decimal(n as int),
{
    push_digits(out, n as u64);
}

/// Appends every byte of `s`.
pub fn push_all(out: &mut Vec<u8>, s: &[u8])
    ensures
        final(out)@ == old(out)@ + s@,
{
    let mut i: usize = 0;
    while i < s.len()
        invariant
            i <= s@.len(),
            out@ == old(out)@ + s@.subrange(0, i as int),
        decreases s@.len() - i,
    {
        out.push(s[i]);
        i = i + 1;
        assert(s@.subrange(0, i as int) =~= s@.subrange(0, i - 1).push(s@[i - 1]));
    }
    assert(s@.subrange(0, s@.len() as int) =~= s@);
}

pub fn push_crlf(out: &mut Vec<u8>)
    ensures
        final(out)@ == old(out)@ + crlf(),
{
    out.push(13u8);
    out.push(10u8);
}

/// `+<bytes>\r\n`
pub fn format_simple(v: &[u8]) -> (r: Vec<u8>)
    ensures
        r@ == simple_reply(v@),
{
    let mut out: Vec<u8> = Vec::new();
    out.push(43u8);
    push_all(&mut out, v);
    push_crlf(&mut out);
    out
}

/// `:<n>\r\n` for a count.
pub fn format_count(n: usize) -> (r: Vec<u8>)
    ensures
        r@ == integer_reply(n as int),
{
    let mut out: Vec<u8> = Vec::new();
    out.push(58u8);
    push_count(&mut out, n);
    push_crlf(&mut out);
    out
}

/// `_\r\n`
pub fn format_null() -> (r: Vec<u8>)
    ensures
        r@ == null_reply(),
{
    let mut out: Vec<u8> = Vec::new();
    out.push(95u8);
    push_crlf(&mut out);
    out
}

/// `+OK\r\n`
pub fn format_ok() -> (r: Vec<u8>)
    ensures
        r@ == ok_reply(),
{
    let v: Vec<u8> = vec![79u8, 75u8];
    format_simple(v.as_slice())
}

/// `+(nil)\r\n`
pub fn format_nil() -> (r: Vec<u8>)
    ensures
        r@ == nil_reply(),
{
    let v: Vec<u8> = vec![40u8, 110u8, 105u8, 108u8, 41u8];
    format_simple(v.as_slice())
}

/// `-ERR <message> \r\n`
pub fn format_error_bytes(message: &[u8]) -> (r: Vec<u8>)
    ensures
        r@ == error_reply(message@),
{
    let mut out: Vec<u8> = vec![45u8, 69u8, 82u8, 82u8, 32u8];
    push_all(&mut out, message);
    out.push(32u8);
    push_crlf(&mut out);
    out
}

} // verus!
