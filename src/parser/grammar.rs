//! Magic-file syntax: numbers, offsets, operators and values.
//!
//! Every parser takes the remaining input and returns what is left after the item,
//! in nom's `IResult` shape. Whitespace around offsets, operators and values is
//! skipped (spaces, tabs, carriage returns and newlines).

use vstd::prelude::*;

use nom::IResult;

use crate::parser::ast::{OffsetSpec, Operator, Value};

verus! {

#[verifier::external_type_specification]
#[verifier::external_body]
#[verifier::reject_recursive_types(F)]
#[verifier::reject_recursive_types(E)]
pub struct ExNomErr<F, E>(nom::Err<F, E>);

#[verifier::external_type_specification]
#[verifier::external_body]
#[verifier::reject_recursive_types(I)]
pub struct ExNomError<I>(nom::error::Error<I>);

/// Relies on nom's `Err::Error` with `ErrorKind::Tag`: a recoverable failure at `input`.
#[verifier::external_body]
fn syntax_error<'a>(input: &'a str) -> nom::Err<nom::error::Error<&'a str>> {
    nom::Err::Error(nom::error::Error::new(input, nom::error::ErrorKind::Tag))
}

/// Relies on std's `String::push`: appends one character.
#[verifier::external_body]
fn push_char(s: &mut String, c: char)
    ensures
        final(s)@ == old(s)@.push(c),
{
    s.push(c)
}

/// Relies on std's `char::from(u8)`: the character whose code point is the byte.
#[verifier::external_body]
fn latin1_char(b: u8) -> (c: char)
    ensures
        c as u32 == b as u32,
{
    char::from(b)
}

// ---------------------------------------------------------------- characters

/// `s` holds `c` at position `k`.
pub open spec fn char_is(s: Seq<char>, k: int, c: char) -> bool {
    0 <= k < s.len() && s[k] == c
}

/// Whitespace as the grammar skips it.
pub open spec fn is_space(c: char) -> bool {
    c == ' ' || c == '\t' || c == '\r' || c == '\n'
}

/// A decimal digit, or a hexadecimal one when `hex`.
pub open spec fn is_digit(c: char, hex: bool) -> bool {
    ('0' <= c && c <= '9') || (hex && (('a' <= c && c <= 'f') || ('A' <= c && c <= 'F')))
}

/// A hexadecimal digit that is a letter.
pub open spec fn is_hex_letter(c: char) -> bool {
    ('a' <= c && c <= 'f') || ('A' <= c && c <= 'F')
}

/// An octal digit.
pub open spec fn is_octal(c: char) -> bool {
    '0' <= c && c <= '7'
}

/// The value of a digit character (0 for anything else).
pub open spec fn digit_value(c: char) -> int {
    if '0' <= c && c <= '9' {
        c as int - '0' as int
    } else if 'a' <= c && c <= 'f' {
        c as int - 'a' as int + 10
    } else if 'A' <= c && c <= 'F' {
        c as int - 'A' as int + 10
    } else {
        0
    }
}

/// The first position at or after `i` that is not whitespace.
pub open spec fn skip_spaces(s: Seq<char>, i: int) -> int
    decreases s.len() - i,
{
    if 0 <= i < s.len() && is_space(s[i]) {
        skip_spaces(s, i + 1)
    } else {
        i
    }
}

/// The first position at or after `i` that is not a digit.
pub open spec fn digits_end(s: Seq<char>, i: int, hex: bool) -> int
    decreases s.len() - i,
{
    if 0 <= i < s.len() && is_digit(s[i], hex) {
        digits_end(s, i + 1, hex)
    } else {
        i
    }
}

/// The number the digits in `[i, j)` spell in base 10, or 16 when `hex`.
pub open spec fn digits_number(s: Seq<char>, i: int, j: int, hex: bool) -> int
    decreases j - i,
{
    if j <= i {
        0
    } else if hex {
        digits_number(s, i, j - 1, hex) * 16 + digit_value(s[j - 1])
    } else {
        digits_number(s, i, j - 1, hex) * 10 + digit_value(s[j - 1])
    }
}

// ---------------------------------------------------------------- numbers

/// The digits at `start` read as a non-negative `i64`: where they end and their
/// value. At most 19 decimal or 16 hexadecimal digits are accepted.
pub open spec fn magnitude(s: Seq<char>, start: int, hex: bool) -> Option<(int, int)> {
    let e = digits_end(s, start, hex);
    let limit = if hex {
        16int
    } else {
        19int
    };
    if e == start || e - start > limit {
        None
    } else if digits_number(s, start, e, hex) > i64::MAX {
        None
    } else {
        Some((e, digits_number(s, start, e, hex)))
    }
}

/// `s` holds "0x" at `j`.
pub open spec fn hex_prefix_at(s: Seq<char>, j: int) -> bool {
    char_is(s, j, '0') && char_is(s, j + 1, 'x')
}

/// A number at `i`: an optional '-', then "0x" and hexadecimal digits, or decimal
/// digits. Where it ends and its value.
pub open spec fn number_at(s: Seq<char>, i: int) -> Option<(int, int)> {
    let neg = char_is(s, i, '-');
    let j = if neg {
        i + 1
    } else {
        i
    };
    let m = if hex_prefix_at(s, j) {
        magnitude(s, j + 2, true)
    } else {
        magnitude(s, j, false)
    };
    match m {
        None => None,
        Some((e, v)) => Some((
            e,
            if neg {
                -v
            } else {
                v
            },
        )),
    }
}

/// `r` is the number `m` describes with the rest of `s` after it, or a failure
/// when `m` is `None`.
pub open spec fn parsed_number(r: IResult<&str, i64>, s: Seq<char>, m: Option<(int, int)>) -> bool {
    match m {
        None => r is Err,
        Some((e, v)) => r matches Ok((rest, n)) && rest@ == s.subrange(e, s.len() as int) && n
            == v,
    }
}

/// `r` is the item `m` describes with the rest of `s` after it, or a failure when
/// `m` is `None`.
pub open spec fn parsed<T>(r: IResult<&str, T>, s: Seq<char>, m: Option<(int, T)>) -> bool {
    match m {
        None => r is Err,
        Some((e, v)) => r matches Ok((rest, x)) && rest@ == s.subrange(e, s.len() as int) && x
            == v,
    }
}

fn char_at(s: &str, i: usize) -> (c: char)
    requires
        i < s@.len(),
    ensures
        c == s@[i as int],
        s@.len() <= usize::MAX,
{
    // Asking for the length also tells that it fits in a usize.
    let _ = s.unicode_len();
    s.get_char(i)
}

fn rest_from<'a>(s: &'a str, i: usize) -> (r: &'a str)
    requires
        i <= s@.len(),
    ensures
        r@ == s@.subrange(i as int, s@.len() as int),
{
    s.substring_char(i, s.unicode_len())
}

fn spaces_end(s: &str, i: usize) -> (e: usize)
    requires
        i <= s@.len(),
    ensures
        e == skip_spaces(s@, i as int),
        i <= e <= s@.len(),
{
    let len = s.unicode_len();
    let mut e = i;
    while e < len && is_space_char(char_at(s, e))
        invariant
            i <= e <= len,
            len == s@.len(),
            skip_spaces(s@, e as int) == skip_spaces(s@, i as int),
        decreases len - e,
    {
        e = e + 1;
    }
    e
}

fn is_space_char(c: char) -> (r: bool)
    ensures
        r == is_space(c),
{
    c == ' ' || c == '\t' || c == '\r' || c == '\n'
}

fn is_digit_char(c: char, hex: bool) -> (r: bool)
    ensures
        r == is_digit(c, hex),
{
    ('0' <= c && c <= '9') || (hex && (('a' <= c && c <= 'f') || ('A' <= c && c <= 'F')))
}

fn digit_of(c: char) -> (r: u8)
    ensures
        r as int == digit_value(c),
        r < 16,
{
    if '0' <= c && c <= '9' {
        (c as u32 - '0' as u32) as u8
    } else if 'a' <= c && c <= 'f' {
        (c as u32 - 'a' as u32 + 10) as u8
    } else if 'A' <= c && c <= 'F' {
        (c as u32 - 'A' as u32 + 10) as u8
    } else {
        0
    }
}

proof fn lemma_digits_number_nonneg(s: Seq<char>, i: int, j: int, hex: bool)
    ensures
        0 <= digits_number(s, i, j, hex),
    decreases j - i,
{
    if j > i {
        lemma_digits_number_nonneg(s, i, j - 1, hex);
    }
}

proof fn lemma_digits_number_grows(s: Seq<char>, i: int, p: int, e: int, hex: bool)
    requires
        i <= p <= e,
    ensures
        digits_number(s, i, p, hex) <= digits_number(s, i, e, hex),
    decreases e - p,
{
    if p < e {
        lemma_digits_number_grows(s, i, p, e - 1, hex);
        lemma_digits_number_nonneg(s, i, e - 1, hex);
    }
}

fn digits_end_from(s: &str, start: usize, hex: bool) -> (e: usize)
    requires
        start <= s@.len(),
    ensures
        e == digits_end(s@, start as int, hex),
        start <= e <= s@.len(),
{
    let len = s.unicode_len();
    let mut e = start;
    while e < len && is_digit_char(char_at(s, e), hex)
        invariant
            start <= e <= len,
            len == s@.len(),
            digits_end(s@, e as int, hex) == digits_end(s@, start as int, hex),
        decreases len - e,
    {
        e = e + 1;
    }
    e
}

fn read_magnitude(s: &str, start: usize, hex: bool) -> (r: Option<(usize, i64)>)
    requires
        start <= s@.len(),
    ensures
        match magnitude(s@, start as int, hex) {
            None => r is None,
            Some((e, v)) => r matches Some((e2, v2)) && e2 == e && v2 == v,
        },
        r matches Some((e2, v2)) ==> e2 <= s@.len() && v2 >= 0,
{
    let e = digits_end_from(s, start, hex);
    let limit: usize = if hex {
        16
    } else {
        19
    };
    if e == start || e - start > limit {
        return None;
    }
    let mut v: u128 = 0;
    let mut p = start;
    while p < e
        invariant
            start <= p <= e,
            e <= s@.len(),
            e == digits_end(s@, start as int, hex),
            e != start,
            e - start <= limit,
            limit == (if hex {
                16int
            } else {
                19int
            }),
            v as int == digits_number(s@, start as int, p as int, hex),
            v <= i64::MAX,
        decreases e - p,
    {
        let d = digit_of(char_at(s, p)) as u128;
        let w: u128 = if hex {
            v * 16 + d
        } else {
            v * 10 + d
        };
        if w > i64::MAX as u128 {
            proof {
                assert(digits_number(s@, start as int, p + 1, hex) == w as int);
                lemma_digits_number_grows(s@, start as int, p + 1, e as int, hex);
            }
            return None;
        }
        v = w;
        p = p + 1;
    }
    proof {
        lemma_digits_number_nonneg(s@, start as int, e as int, hex);
    }
    Some((e, v as i64))
}

fn number_from(s: &str, i: usize) -> (r: Option<(usize, i64)>)
    requires
        i <= s@.len(),
    ensures
        match number_at(s@, i as int) {
            None => r is None,
            Some((e, v)) => r matches Some((e2, v2)) && e2 == e && v2 == v,
        },
        r matches Some((e2, v2)) ==> e2 <= s@.len(),
{
    let len = s.unicode_len();
    let neg = i < len && char_at(s, i) == '-';
    let j = if neg {
        i + 1
    } else {
        i
    };
    let hex = j < len && len - j > 1 && char_at(s, j) == '0' && char_at(s, j + 1) == 'x';
    let m = if hex {
        read_magnitude(s, j + 2, true)
    } else {
        read_magnitude(s, j, false)
    };
    match m {
        None => None,
        Some((e, v)) => Some(
            (
                e,
                if neg {
                    -v
                } else {
                    v
                },
            ),
        ),
    }
}

/// Decimal digits at the start of `input`, as an `i64` (at most 19 digits).
pub fn parse_decimal_number<'a>(input: &'a str) -> (r: IResult<&'a str, i64>)
    ensures
        parsed_number(r, input@, magnitude(input@, 0, false)),
{
    match read_magnitude(input, 0, false) {
        None => Err(syntax_error(input)),
        Some((e, v)) => Ok((rest_from(input, e), v)),
    }
}

/// "0x" and hexadecimal digits at the start of `input`, as an `i64` (at most 16 digits).
pub fn parse_hex_number<'a>(input: &'a str) -> (r: IResult<&'a str, i64>)
    ensures
        parsed_number(
            r,
            input@,
            if hex_prefix_at(input@, 0) {
                magnitude(input@, 2, true)
            } else {
                None
            },
        ),
{
    let len = input.unicode_len();
    if len >= 2 && char_at(input, 0) == '0' && char_at(input, 1) == 'x' {
        match read_magnitude(input, 2, true) {
            None => Err(syntax_error(input)),
            Some((e, v)) => Ok((rest_from(input, e), v)),
        }
    } else {
        Err(syntax_error(input))
    }
}

/// A signed decimal or hexadecimal number at the start of `input`.
pub fn parse_number<'a>(input: &'a str) -> (r: IResult<&'a str, i64>)
    ensures
        parsed_number(r, input@, number_at(input@, 0)),
{
    match number_from(input, 0) {
        None => Err(syntax_error(input)),
        Some((e, v)) => Ok((rest_from(input, e), v)),
    }
}

/// An offset: a number with whitespace around it, read as an absolute offset.
pub open spec fn offset_at(s: Seq<char>) -> Option<(int, OffsetSpec)> {
    match number_at(s, skip_spaces(s, 0)) {
        None => None,
        Some((e, v)) => Some((skip_spaces(s, e), OffsetSpec::Absolute(v as i64))),
    }
}

/// An absolute offset at the start of `input`, with surrounding whitespace skipped.
pub fn parse_offset<'a>(input: &'a str) -> (r: IResult<&'a str, OffsetSpec>)
    ensures
        parsed(r, input@, offset_at(input@)),
{
    let i = spaces_end(input, 0);
    match number_from(input, i) {
        None => Err(syntax_error(input)),
        Some((e, v)) => {
            let e2 = spaces_end(input, e);
            Ok((rest_from(input, e2), OffsetSpec::Absolute(v)))
        },
    }
}

// ---------------------------------------------------------------- operators

/// An operator after optional whitespace: "==" or "=" for equality, "!=" or "<>"
/// for inequality, "&" for bitwise and; "===" and "&&" are refused. Whitespace
/// after it is skipped.
pub open spec fn operator_at(s: Seq<char>) -> Option<(int, Operator)> {
    let i = skip_spaces(s, 0);
    if char_is(s, i, '=') && char_is(s, i + 1, '=') {
        if char_is(s, i + 2, '=') {
            None
        } else {
            Some((skip_spaces(s, i + 2), Operator::Equal))
        }
    } else if char_is(s, i, '!') && char_is(s, i + 1, '=') {
        Some((skip_spaces(s, i + 2), Operator::NotEqual))
    } else if char_is(s, i, '<') && char_is(s, i + 1, '>') {
        Some((skip_spaces(s, i + 2), Operator::NotEqual))
    } else if char_is(s, i, '=') {
        Some((skip_spaces(s, i + 1), Operator::Equal))
    } else if char_is(s, i, '&') {
        if char_is(s, i + 1, '&') {
            None
        } else {
            Some((skip_spaces(s, i + 1), Operator::BitwiseAnd))
        }
    } else {
        None
    }
}

fn char_is_at(s: &str, k: usize, c: char) -> (r: bool)
    ensures
        r == char_is(s@, k as int, c),
        s@.len() <= usize::MAX,
{
    k < s.unicode_len() && char_at(s, k) == c
}

/// A comparison operator at the start of `input`, with surrounding whitespace skipped.
pub fn parse_operator<'a>(input: &'a str) -> (r: IResult<&'a str, Operator>)
    ensures
        parsed(r, input@, operator_at(input@)),
{
    let i = spaces_end(input, 0);
    let len = input.unicode_len();
    let (width, op): (usize, Operator) = if char_is_at(input, i, '=') && char_is_at(
        input,
        i + 1,
        '=',
    ) {
        if char_is_at(input, i + 2, '=') {
            return Err(syntax_error(input));
        }
        (2, Operator::Equal)
    } else if char_is_at(input, i, '!') && char_is_at(input, i + 1, '=') {
        (2, Operator::NotEqual)
    } else if char_is_at(input, i, '<') && char_is_at(input, i + 1, '>') {
        (2, Operator::NotEqual)
    } else if char_is_at(input, i, '=') {
        (1, Operator::Equal)
    } else if char_is_at(input, i, '&') {
        if char_is_at(input, i + 1, '&') {
            return Err(syntax_error(input));
        }
        (1, Operator::BitwiseAnd)
    } else {
        return Err(syntax_error(input));
    };
    let e = spaces_end(input, i + width);
    Ok((rest_from(input, e), op))
}

// ---------------------------------------------------------------- byte strings

/// `r` holds the bytes `m` describes with the rest of `s` after them, or a failure
/// when `m` is `None`.
pub open spec fn parsed_bytes(r: IResult<&str, Vec<u8>>, s: Seq<char>, m: Option<(int, Seq<u8>)>) -> bool {
    match m {
        None => r is Err,
        Some((e, b)) => r matches Ok((rest, x)) && rest@ == s.subrange(e, s.len() as int) && x@
            == b,
    }
}

/// The byte spelled by the two hexadecimal digits at `i`.
pub open spec fn pair_byte(s: Seq<char>, i: int) -> u8 {
    (digit_value(s[i]) * 16 + digit_value(s[i + 1])) as u8
}

/// `s` holds "\x" and two hexadecimal digits at `i`.
pub open spec fn escaped_byte_at(s: Seq<char>, i: int) -> bool {
    char_is(s, i, '\\') && char_is(s, i + 1, 'x') && i + 3 < s.len() && is_digit(s[i + 2], true)
        && is_digit(s[i + 3], true)
}

/// The run of "\xHH" bytes starting at `i`: where it ends and the bytes.
pub open spec fn escaped_run(s: Seq<char>, i: int) -> (int, Seq<u8>)
    decreases s.len() - i,
{
    if i >= 0 && escaped_byte_at(s, i) {
        let (end, rest) = escaped_run(s, i + 4);
        (end, seq![pair_byte(s, i + 2)] + rest)
    } else {
        (i, Seq::empty())
    }
}

/// Bytes written as "\xHH" sequences at `i` (possibly none after a leading "\x").
pub open spec fn prefixed_bytes_at(s: Seq<char>, i: int) -> Option<(int, Seq<u8>)> {
    if char_is(s, i, '\\') && char_is(s, i + 1, 'x') {
        Some(escaped_run(s, i))
    } else {
        None
    }
}

/// Some hexadecimal digit in `[i, e)` is a letter.
pub open spec fn has_hex_letter(s: Seq<char>, i: int, e: int) -> bool
    decreases e - i,
{
    i < e && (is_hex_letter(s[i]) || has_hex_letter(s, i + 1, e))
}

/// The bytes spelled by the digit pairs in `[i, e)`.
pub open spec fn hex_pairs(s: Seq<char>, i: int, e: int) -> Seq<u8>
    decreases e - i,
{
    if i + 2 <= e {
        seq![pair_byte(s, i)] + hex_pairs(s, i + 2, e)
    } else {
        Seq::empty()
    }
}

/// Bytes written as bare hexadecimal digit pairs at `i`: an even, non-zero number
/// of digits with at least one letter among them, not starting with "0x" or '-'.
pub open spec fn bare_bytes_at(s: Seq<char>, i: int) -> Option<(int, Seq<u8>)> {
    let e = digits_end(s, i, true);
    if hex_prefix_at(s, i) || char_is(s, i, '-') {
        None
    } else if e == i || (e - i) % 2 != 0 || !has_hex_letter(s, i, e) {
        None
    } else {
        Some((e, hex_pairs(s, i, e)))
    }
}

/// Bytes at `i`, escaped or bare.
pub open spec fn hex_bytes_at(s: Seq<char>, i: int) -> Option<(int, Seq<u8>)> {
    match prefixed_bytes_at(s, i) {
        Some(r) => Some(r),
        None => bare_bytes_at(s, i),
    }
}

fn pair_byte_at(s: &str, i: usize) -> (r: u8)
    requires
        i + 1 < s@.len(),
    ensures
        r == pair_byte(s@, i as int),
{
    let high = digit_of(char_at(s, i)) as u32;
    let low = digit_of(char_at(s, i + 1)) as u32;
    (high * 16 + low) as u8
}

fn is_escaped_byte_at(s: &str, i: usize) -> (r: bool)
    requires
        i <= s@.len(),
    ensures
        r == escaped_byte_at(s@, i as int),
{
    let len = s.unicode_len();
    char_is_at(s, i, '\\') && char_is_at(s, i + 1, 'x') && len - i > 3 && is_digit_char(
        char_at(s, i + 2),
        true,
    ) && is_digit_char(char_at(s, i + 3), true)
}

/// One "\xHH" byte at the start of `input`.
pub fn parse_hex_byte_with_prefix<'a>(input: &'a str) -> (r: IResult<&'a str, u8>)
    ensures
        parsed(
            r,
            input@,
            if escaped_byte_at(input@, 0) {
                Some((4int, pair_byte(input@, 2)))
            } else {
                None
            },
        ),
{
    if is_escaped_byte_at(input, 0) {
        Ok((rest_from(input, 4), pair_byte_at(input, 2)))
    } else {
        Err(syntax_error(input))
    }
}

fn escaped_run_from(s: &str, i: usize) -> (r: (usize, Vec<u8>))
    requires
        i <= s@.len(),
    ensures
        r.0 as int == escaped_run(s@, i as int).0,
        r.1@ == escaped_run(s@, i as int).1,
        r.0 <= s@.len(),
{
    let len = s.unicode_len();
    let mut bytes: Vec<u8> = Vec::new();
    let mut p = i;
    while is_escaped_byte_at(s, p)
        invariant
            i <= p <= s@.len(),
            len == s@.len(),
            escaped_run(s@, p as int).0 == escaped_run(s@, i as int).0,
            bytes@ + escaped_run(s@, p as int).1 == escaped_run(s@, i as int).1,
        decreases s@.len() - p,
    {
        bytes.push(pair_byte_at(s, p + 2));
        proof {
            assert(bytes@ + escaped_run(s@, p + 4).1 =~= escaped_run(s@, i as int).1);
        }
        p = p + 4;
    }
    assert(bytes@ =~= escaped_run(s@, i as int).1);
    (p, bytes)
}

fn prefixed_bytes_from(s: &str, i: usize) -> (r: Option<(usize, Vec<u8>)>)
    requires
        i <= s@.len(),
    ensures
        match prefixed_bytes_at(s@, i as int) {
            None => r is None,
            Some((e, b)) => r matches Some((e2, x)) && e2 == e && x@ == b,
        },
        r matches Some((e2, x)) ==> e2 <= s@.len(),
{
    if char_is_at(s, i, '\\') && char_is_at(s, i + 1, 'x') {
        Some(escaped_run_from(s, i))
    } else {
        None
    }
}

/// "\xHH" bytes at the start of `input` (none when the first escape is malformed).
pub fn parse_hex_bytes_with_prefix<'a>(input: &'a str) -> (r: IResult<&'a str, Vec<u8>>)
    ensures
        parsed_bytes(r, input@, prefixed_bytes_at(input@, 0)),
{
    match prefixed_bytes_from(input, 0) {
        Some((e, bytes)) => Ok((rest_from(input, e), bytes)),
        None => Err(syntax_error(input)),
    }
}

fn hex_letter_within(s: &str, i: usize, e: usize) -> (r: bool)
    requires
        i <= e <= s@.len(),
    ensures
        r == has_hex_letter(s@, i as int, e as int),
{
    let mut p = i;
    while p < e
        invariant
            i <= p <= e,
            e <= s@.len(),
            has_hex_letter(s@, i as int, e as int) == has_hex_letter(s@, p as int, e as int),
        decreases e - p,
    {
        let c = char_at(s, p);
        if ('a' <= c && c <= 'f') || ('A' <= c && c <= 'F') {
            return true;
        }
        p = p + 1;
    }
    false
}

fn bare_bytes_from(s: &str, i: usize) -> (r: Option<(usize, Vec<u8>)>)
    requires
        i <= s@.len(),
    ensures
        match bare_bytes_at(s@, i as int) {
            None => r is None,
            Some((e, b)) => r matches Some((e2, x)) && e2 == e && x@ == b,
        },
        r matches Some((e2, x)) ==> e2 <= s@.len(),
{
    let len = s.unicode_len();
    if (len - i >= 2 && char_at(s, i) == '0' && char_at(s, i + 1) == 'x') || char_is_at(s, i, '-') {
        return None;
    }
    let e = digits_end_from(s, i, true);
    if e == i || (e - i) % 2 != 0 || !hex_letter_within(s, i, e) {
        return None;
    }
    let mut bytes: Vec<u8> = Vec::new();
    let mut p: usize = i;
    while p < e
        invariant
            i <= p <= e,
            e <= s@.len(),
            (p - i) % 2 == 0,
            (e - i) % 2 == 0,
            bytes@ + hex_pairs(s@, p as int, e as int) == hex_pairs(s@, i as int, e as int),
        decreases e - p,
    {
        bytes.push(pair_byte_at(s, p));
        proof {
            assert(bytes@ + hex_pairs(s@, p + 2, e as int) =~= hex_pairs(
                s@,
                i as int,
                e as int,
            ));
        }
        p = p + 2;
    }
    assert(bytes@ =~= hex_pairs(s@, i as int, e as int));
    Some((e, bytes))
}

/// Bare hexadecimal digit pairs at the start of `input`.
pub fn parse_hex_bytes_no_prefix<'a>(input: &'a str) -> (r: IResult<&'a str, Vec<u8>>)
    ensures
        parsed_bytes(r, input@, bare_bytes_at(input@, 0)),
{
    match bare_bytes_from(input, 0) {
        Some((e, bytes)) => Ok((rest_from(input, e), bytes)),
        None => Err(syntax_error(input)),
    }
}

fn hex_bytes_from(s: &str, i: usize) -> (r: Option<(usize, Vec<u8>)>)
    requires
        i <= s@.len(),
    ensures
        match hex_bytes_at(s@, i as int) {
            None => r is None,
            Some((e, b)) => r matches Some((e2, x)) && e2 == e && x@ == b,
        },
        r matches Some((e2, x)) ==> e2 <= s@.len(),
{
    match prefixed_bytes_from(s, i) {
        Some(r) => Some(r),
        None => bare_bytes_from(s, i),
    }
}

/// Hexadecimal bytes at the start of `input`, escaped ("\x7f\x45") or bare ("7f45").
pub fn parse_hex_bytes<'a>(input: &'a str) -> (r: IResult<&'a str, Vec<u8>>)
    ensures
        parsed_bytes(r, input@, hex_bytes_at(input@, 0)),
{
    match hex_bytes_from(input, 0) {
        Some((e, bytes)) => Ok((rest_from(input, e), bytes)),
        None => Err(syntax_error(input)),
    }
}

// ---------------------------------------------------------------- text

/// The character an escape letter stands for.
pub open spec fn escape_letter(c: char) -> Option<char> {
    if c == 'n' {
        Some('\n')
    } else if c == 'r' {
        Some('\r')
    } else if c == 't' {
        Some('\t')
    } else if c == '\\' {
        Some('\\')
    } else if c == '"' {
        Some('"')
    } else if c == '\'' {
        Some('\'')
    } else if c == '0' {
        Some('\0')
    } else {
        None
    }
}

/// `s` holds an octal escape ("\" and three octal digits, the first at most 3) at `i`.
pub open spec fn octal_escape_at(s: Seq<char>, i: int) -> bool {
    char_is(s, i, '\\') && i + 3 < s.len() && '0' <= s[i + 1] && s[i + 1] <= '3' && is_octal(
        s[i + 2],
    ) && is_octal(s[i + 3])
}

/// The code point of the octal escape at `i`.
pub open spec fn octal_code(s: Seq<char>, i: int) -> int {
    digit_value(s[i + 1]) * 64 + digit_value(s[i + 2]) * 8 + digit_value(s[i + 3])
}

/// How many characters the escape sequence at `i` spans (0 when there is none).
pub open spec fn escape_len(s: Seq<char>, i: int) -> int {
    if octal_escape_at(s, i) {
        4
    } else if char_is(s, i, '\\') && i + 1 < s.len() && escape_letter(s[i + 1]) is Some {
        2
    } else {
        0
    }
}

/// The character the escape sequence at `i` stands for.
pub open spec fn escape_char(s: Seq<char>, i: int) -> char {
    if octal_escape_at(s, i) {
        octal_code(s, i) as char
    } else {
        escape_letter(s[i + 1])->0
    }
}

/// The escape sequence at `i`: where it ends and the character it stands for.
pub open spec fn escape_at(s: Seq<char>, i: int) -> Option<(int, char)> {
    if escape_len(s, i) > 0 {
        Some((i + escape_len(s, i), escape_char(s, i)))
    } else {
        None
    }
}

/// The characters of a quoted string from `i` up to (not including) the closing
/// quote: where they end and the text they stand for.
pub open spec fn string_body(s: Seq<char>, i: int) -> (int, Seq<char>)
    decreases s.len() - i,
{
    if i < 0 || i >= s.len() {
        (i, Seq::empty())
    } else if escape_len(s, i) > 0 {
        let (end, t) = string_body(s, i + escape_len(s, i));
        (end, seq![escape_char(s, i)] + t)
    } else if s[i] != '"' && s[i] != '\\' {
        let (end, t) = string_body(s, i + 1);
        (end, seq![s[i]] + t)
    } else {
        (i, Seq::empty())
    }
}

/// A quoted string after optional whitespace at `i`, and the whitespace after it.
pub open spec fn quoted_at(s: Seq<char>, i: int) -> Option<(int, Seq<char>)> {
    let j = skip_spaces(s, i);
    if !char_is(s, j, '"') {
        None
    } else {
        let (e, t) = string_body(s, j + 1);
        if char_is(s, e, '"') {
            Some((skip_spaces(s, e + 1), t))
        } else {
            None
        }
    }
}

fn escape_from(s: &str, i: usize) -> (r: Option<(usize, char)>)
    requires
        i <= s@.len(),
    ensures
        escape_len(s@, i as int) == 0 ==> r is None,
        escape_len(s@, i as int) > 0 ==> r == Some::<(usize, char)>(
            ((i + escape_len(s@, i as int)) as usize, escape_char(s@, i as int)),
        ),
{
    let len = s.unicode_len();
    if !char_is_at(s, i, '\\') {
        return None;
    }
    if len - i > 3 {
        let a = char_at(s, i + 1);
        let b = char_at(s, i + 2);
        let c = char_at(s, i + 3);
        if '0' <= a && a <= '3' && '0' <= b && b <= '7' && '0' <= c && c <= '7' {
            let code = digit_of(a) * 64 + digit_of(b) * 8 + digit_of(c);
            let ch = latin1_char(code);
            assert(ch == octal_code(s@, i as int) as char);
            return Some((i + 4, ch));
        }
    }
    if len - i > 1 {
        let l = char_at(s, i + 1);
        let mapped = if l == 'n' {
            '\n'
        } else if l == 'r' {
            '\r'
        } else if l == 't' {
            '\t'
        } else if l == '\\' {
            '\\'
        } else if l == '"' {
            '"'
        } else if l == '\'' {
            '\''
        } else if l == '0' {
            '\0'
        } else {
            return None;
        };
        return Some((i + 2, mapped));
    }
    None
}

/// A backslash escape at the start of `input`: an octal code ("\101") or one of
/// "\n", "\r", "\t", "\\", "\"", "\'", "\0".
pub fn parse_escape_sequence<'a>(input: &'a str) -> (r: IResult<&'a str, char>)
    ensures
        parsed(r, input@, escape_at(input@, 0)),
{
    match escape_from(input, 0) {
        None => Err(syntax_error(input)),
        Some((e, c)) => Ok((rest_from(input, e), c)),
    }
}

fn quoted_from(input: &str, i: usize) -> (r: Option<(usize, String)>)
    requires
        i <= input@.len(),
    ensures
        match quoted_at(input@, i as int) {
            None => r is None,
            Some((e, t)) => r matches Some((e2, x)) && e2 == e && x@ == t,
        },
        r matches Some((e2, x)) ==> e2 <= input@.len(),
{
    let len = input.unicode_len();
    let j = spaces_end(input, i);
    if !char_is_at(input, j, '"') {
        return None;
    }
    let mut text = String::new();
    let mut p = j + 1;
    loop
        invariant
            j + 1 <= p <= len,
            len == input@.len(),
            string_body(input@, p as int).0 == string_body(input@, j + 1).0,
            text@ + string_body(input@, p as int).1 == string_body(input@, j + 1).1,
        ensures
            j + 1 <= p <= len,
            string_body(input@, p as int).0 == string_body(input@, j + 1).0,
            text@ + string_body(input@, p as int).1 == string_body(input@, j + 1).1,
            string_body(input@, p as int) == (p as int, Seq::<char>::empty()),
        decreases len - p,
    {
        if p >= len {
            break;
        }
        match escape_from(input, p) {
            Some((e, c)) => {
                push_char(&mut text, c);
                proof {
                    assert(text@ + string_body(input@, e as int).1 =~= string_body(
                        input@,
                        j + 1,
                    ).1);
                }
                p = e;
            },
            None => {
                let c = char_at(input, p);
                if c == '"' || c == '\\' {
                    break;
                }
                push_char(&mut text, c);
                proof {
                    assert(text@ + string_body(input@, p + 1).1 =~= string_body(
                        input@,
                        j + 1,
                    ).1);
                }
                p = p + 1;
            },
        }
    }
    assert(text@ =~= string_body(input@, j + 1).1);
    if !char_is_at(input, p, '"') {
        return None;
    }
    let e = spaces_end(input, p + 1);
    Some((e, text))
}

/// A double-quoted string with escapes, with surrounding whitespace skipped.
pub fn parse_quoted_string<'a>(input: &'a str) -> (r: IResult<&'a str, String>)
    ensures
        match quoted_at(input@, 0) {
            None => r is Err,
            Some((e, t)) => r matches Ok((rest, x)) && rest@ == input@.subrange(
                e,
                input@.len() as int,
            ) && x@ == t,
        },
{
    match quoted_from(input, 0) {
        Some((e, text)) => Ok((rest_from(input, e), text)),
        None => Err(syntax_error(input)),
    }
}

// ---------------------------------------------------------------- values

/// A number after optional whitespace at `i`, and the whitespace after it.
pub open spec fn numeric_at(s: Seq<char>, i: int) -> Option<(int, int)> {
    match number_at(s, skip_spaces(s, i)) {
        None => None,
        Some((e, v)) => Some((skip_spaces(s, e), v)),
    }
}

/// The value a number literal stands for: unsigned when non-negative, signed otherwise.
pub open spec fn number_value(n: int) -> Value {
    if n >= 0 {
        Value::Uint(n as u64)
    } else {
        Value::Int(n as i64)
    }
}

fn numeric_from(s: &str, i: usize) -> (r: Option<(usize, Value)>)
    requires
        i <= s@.len(),
    ensures
        match numeric_at(s@, i as int) {
            None => r is None,
            Some((e, n)) => r matches Some((e2, v)) && e2 == e && v == number_value(n),
        },
        r matches Some((e2, v)) ==> e2 <= s@.len(),
{
    let j = spaces_end(s, i);
    match number_from(s, j) {
        None => None,
        Some((e, n)) => {
            let e2 = spaces_end(s, e);
            let v = if n >= 0 {
                Value::Uint(n as u64)
            } else {
                Value::Int(n)
            };
            Some((e2, v))
        },
    }
}

/// A number with surrounding whitespace skipped, as a value.
pub fn parse_numeric_value<'a>(input: &'a str) -> (r: IResult<&'a str, Value>)
    ensures
        match numeric_at(input@, 0) {
            None => r is Err,
            Some((e, n)) => r matches Ok((rest, v)) && rest@ == input@.subrange(
                e,
                input@.len() as int,
            ) && v == number_value(n),
        },
{
    match numeric_from(input, 0) {
        None => Err(syntax_error(input)),
        Some((e, v)) => Ok((rest_from(input, e), v)),
    }
}

/// `r` succeeded and left the part of `s` from `e` on.
pub open spec fn leaves(r: IResult<&str, Value>, s: Seq<char>, e: int) -> bool {
    r matches Ok((rest, _)) && rest@ == s.subrange(e, s.len() as int)
}

/// What `parse_value` returns for input `s`: empty bytes at the end of the input,
/// otherwise the first of a quoted string, hexadecimal bytes or a number that
/// parses at the first non-blank character, or a failure.
pub open spec fn value_parsed(r: IResult<&str, Value>, s: Seq<char>) -> bool {
    let i = skip_spaces(s, 0);
    if i >= s.len() {
        leaves(r, s, i) && (r->Ok_0.1 matches Value::Bytes(b) && b@.len() == 0)
    } else {
        match quoted_at(s, i) {
            Some((e, t)) => leaves(r, s, e) && (r->Ok_0.1 matches Value::String(x) && x@ == t),
            None => match hex_bytes_at(s, i) {
                Some((e, b)) => leaves(r, s, e) && (r->Ok_0.1 matches Value::Bytes(x) && x@ == b),
                None => match numeric_at(s, i) {
                    Some((e, n)) => leaves(r, s, e) && r->Ok_0.1 == number_value(n),
                    None => r is Err,
                },
            },
        }
    }
}

/// A literal value at the start of `input`: a quoted string, hexadecimal bytes or
/// a number, tried in that order, after skipping whitespace. Blank input gives
/// empty bytes.
pub fn parse_value<'a>(input: &'a str) -> (r: IResult<&'a str, Value>)
    ensures
        value_parsed(r, input@),
{
    let i = spaces_end(input, 0);
    let len = input.unicode_len();
    if i == len {
        return Ok((rest_from(input, i), Value::Bytes(Vec::new())));
    }
    if let Some((e, text)) = quoted_from(input, i) {
        return Ok((rest_from(input, e), Value::String(text)));
    }
    if let Some((e, bytes)) = hex_bytes_from(input, i) {
        return Ok((rest_from(input, e), Value::Bytes(bytes)));
    }
    match numeric_from(input, i) {
        Some((e, v)) => Ok((rest_from(input, e), v)),
        None => Err(syntax_error(input)),
    }
}

} // verus!
