//! Lexical primitives for reading the checkpoint format back in: whitespace,
//! string tokens with their escapes, digit runs, and balanced skipping of
//! arbitrary JSON values.
//!
//! Each exec function mirrors a spec function exactly, so what the reader
//! does on every input is pinned down.

use vstd::prelude::*;

verus! {

/// JSON whitespace.
pub open spec fn is_ws(c: char) -> bool {
    c == ' ' || c == '\t' || c == '\n' || c == '\r'
}

/// The first position at or after `i` holding something other than
/// whitespace.
pub open spec fn spec_skip_ws(s: Seq<char>, i: int) -> int
    decreases s.len() - i,
{
    if 0 <= i < s.len() && is_ws(s[i]) {
        spec_skip_ws(s, i + 1)
    } else {
        i
    }
}

/// Skipping whitespace never moves backwards nor past the end.
pub proof fn lemma_skip_ws_bounds(s: Seq<char>, i: int)
    requires
        0 <= i <= s.len(),
    ensures
        i <= spec_skip_ws(s, i) <= s.len(),
    decreases s.len() - i,
{
    if i < s.len() && is_ws(s[i]) {
        lemma_skip_ws_bounds(s, i + 1);
    }
}

pub fn skip_ws(chars: &Vec<char>, i: usize) -> (r: usize)
    requires
        i <= chars@.len(),
    ensures
        r == spec_skip_ws(chars@, i as int),
        i <= r <= chars@.len(),
{
    let n = chars.len();
    let mut j = i;
    while j < n && (chars[j] == ' ' || chars[j] == '\t' || chars[j] == '\n' || chars[j] == '\r')
        invariant
            i <= j <= n,
            n == chars@.len(),
            spec_skip_ws(chars@, i as int) == spec_skip_ws(chars@, j as int),
        decreases n - j,
    {
        j = j + 1;
    }
    j
}

/// A decimal digit.
pub open spec fn is_dec_digit(c: char) -> bool {
    '0' <= c && c <= '9'
}

/// The value of a decimal digit character; other characters count zero.
pub open spec fn dec_val(c: char) -> nat {
    if is_dec_digit(c) {
        ((c as int) - ('0' as int)) as nat
    } else {
        0
    }
}

/// A hexadecimal digit, either case.
pub open spec fn is_hex_char(c: char) -> bool {
    is_dec_digit(c) || ('a' <= c && c <= 'f') || ('A' <= c && c <= 'F')
}

/// The value of a hexadecimal digit character; other characters count zero.
pub open spec fn hex_val(c: char) -> nat {
    if is_dec_digit(c) {
        ((c as int) - ('0' as int)) as nat
    } else if 'a' <= c && c <= 'f' {
        ((c as int) - ('a' as int) + 10) as nat
    } else if 'A' <= c && c <= 'F' {
        ((c as int) - ('A' as int) + 10) as nat
    } else {
        0
    }
}

/// The value of a run of decimal digits, most significant first.
pub open spec fn digits_val(s: Seq<char>) -> nat
    decreases s.len(),
{
    if s.len() == 0 {
        0
    } else {
        digits_val(s.drop_last()) * 10 + dec_val(s.last())
    }
}

/// The first position at or after `i` holding a non-digit.
pub open spec fn spec_digits_end(s: Seq<char>, i: int) -> int
    decreases s.len() - i,
{
    if 0 <= i < s.len() && is_dec_digit(s[i]) {
        spec_digits_end(s, i + 1)
    } else {
        i
    }
}

/// A digit run never moves backwards nor past the end.
pub proof fn lemma_digits_end_bounds(s: Seq<char>, i: int)
    requires
        0 <= i <= s.len(),
    ensures
        i <= spec_digits_end(s, i) <= s.len(),
    decreases s.len() - i,
{
    if i < s.len() && is_dec_digit(s[i]) {
        lemma_digits_end_bounds(s, i + 1);
    }
}

/// Everything in the run up to its end is a digit, and the run stops at a
/// non-digit or the end of the input.
pub proof fn lemma_digits_end_digits(s: Seq<char>, i: int)
    requires
        0 <= i <= s.len(),
    ensures
        forall|k: int| i <= k < spec_digits_end(s, i) ==> is_dec_digit(s[k]),
        spec_digits_end(s, i) < s.len() ==> !is_dec_digit(s[spec_digits_end(s, i)]),
    decreases s.len() - i,
{
    if i < s.len() && is_dec_digit(s[i]) {
        lemma_digits_end_digits(s, i + 1);
        lemma_digits_end_bounds(s, i + 1);
    }
}

pub fn digits_end(chars: &Vec<char>, i: usize) -> (r: usize)
    requires
        i <= chars@.len(),
    ensures
        r == spec_digits_end(chars@, i as int),
        i <= r <= chars@.len(),
{
    let n = chars.len();
    let mut j = i;
    while j < n && '0' <= chars[j] && chars[j] <= '9'
        invariant
            i <= j <= n,
            n == chars@.len(),
            spec_digits_end(chars@, i as int) == spec_digits_end(chars@, j as int),
        decreases n - j,
    {
        j = j + 1;
    }
    j
}

/// The value of a longer digit run is at least the value of a prefix of it.
pub proof fn lemma_digits_val_prefix_le(s: Seq<char>, k: int)
    requires
        0 <= k <= s.len(),
    ensures
        digits_val(s.subrange(0, k)) <= digits_val(s),
    decreases s.len() - k,
{
    if k < s.len() {
        lemma_digits_val_prefix_le(s, k + 1);
        let a = s.subrange(0, k);
        let b = s.subrange(0, k + 1);
        assert(b.drop_last() =~= a);
        assert(digits_val(b) == digits_val(a) * 10 + dec_val(b.last()));
    } else {
        assert(s.subrange(0, k) =~= s);
    }
}

/// The value of a pure digit run, unless it cannot be carried in 64 bits.
pub fn digits_value(chars: &Vec<char>, i: usize, e: usize) -> (r: Option<u64>)
    requires
        i <= e <= chars@.len(),
        forall|k: int| i <= k < e ==> is_dec_digit(chars@[k]),
    ensures
        (r matches Some(v) ==> v as nat == digits_val(chars@.subrange(i as int, e as int))),
        (r is None ==> digits_val(chars@.subrange(i as int, e as int)) > u64::MAX),
{
    let mut acc: u64 = 0;
    let mut j = i;
    while j < e
        invariant
            i <= j <= e <= chars@.len(),
            forall|k: int| i <= k < e ==> is_dec_digit(chars@[k]),
            acc as nat == digits_val(chars@.subrange(i as int, j as int)),
        decreases e - j,
    {
        let c = chars[j];
        let d: u64 = (c as u32 as u64) - 48;
        let ghost prefix = chars@.subrange(i as int, j as int);
        let ghost prefix1 = chars@.subrange(i as int, j + 1 as int);
        proof {
            assert(prefix1.drop_last() =~= prefix);
            assert(dec_val(chars@[j as int]) == d as nat);
        }
        let scaled = match acc.checked_mul(10) {
            Some(x) => x,
            None => {
                proof {
                    assert(chars@.subrange(i as int, e as int).subrange(0, j - i + 1 as int)
                        =~= prefix1);
                    assert(digits_val(prefix1) == (acc as nat) * 10 + (d as nat));
                    lemma_digits_val_overflow(chars@.subrange(i as int, e as int), j - i + 1);
                }
                return None;
            },
        };
        let next = match scaled.checked_add(d) {
            Some(x) => x,
            None => {
                proof {
                    assert(chars@.subrange(i as int, e as int).subrange(0, j - i + 1 as int)
                        =~= prefix1);
                    assert(digits_val(prefix1) == (acc as nat) * 10 + (d as nat));
                    lemma_digits_val_overflow(chars@.subrange(i as int, e as int), j - i + 1);
                }
                return None;
            },
        };
        acc = next;
        j = j + 1;
    }
    proof {
        assert(chars@.subrange(i as int, e as int) =~= chars@.subrange(i as int, j as int));
    }
    Some(acc)
}

/// If some prefix of a digit run is already too large for 64 bits, so is the
/// whole run.
proof fn lemma_digits_val_overflow(s: Seq<char>, k: int)
    requires
        0 <= k <= s.len(),
        digits_val(s.subrange(0, k)) > u64::MAX,
    ensures
        digits_val(s) > u64::MAX,
{
    lemma_digits_val_prefix_le(s, k);
}

/// A unicode scalar value outside the surrogate range.
pub open spec fn is_scalar(v: int) -> bool {
    (0 <= v < 0xD800) || (0xE000 <= v <= 0x10FFFF)
}

/// The scalar value of a character.
pub open spec fn char_scalar(c: char) -> int {
    c as int
}

/// The character with the given scalar value.
pub open spec fn char_from_scalar(v: int) -> char {
    choose|c: char| char_scalar(c) == v
}

/// Relies on std's `char::from_u32`: the character with this scalar value,
/// or nothing when the value is a surrogate or out of range.
#[verifier::external_body]
pub fn char_from_u32(v: u32) -> (r: Option<char>)
    ensures
        (r matches Some(c) ==> c as int == v as int),
        (r is None ==> !is_scalar(v as int)),
{
    char::from_u32(v)
}

/// What a short escape code decodes to: the named control characters, the
/// quote, the backslash, and the solidus; anything else is not a valid
/// escape.
pub open spec fn decode_escape(e: char) -> Option<char> {
    if e == '"' {
        Some('"')
    } else if e == '\\' {
        Some('\\')
    } else if e == '/' {
        Some('/')
    } else if e == 'b' {
        Some('\u{8}')
    } else if e == 'f' {
        Some('\u{c}')
    } else if e == 'n' {
        Some('\n')
    } else if e == 'r' {
        Some('\r')
    } else if e == 't' {
        Some('\t')
    } else {
        None
    }
}

/// Read a string token's body from just after the opening quote, decoding
/// escapes, until the closing quote: the decoded body so far is `acc`.
/// Nothing (and not a prefix) is returned for an unterminated or invalidly
/// escaped token.
pub open spec fn spec_parse_string(s: Seq<char>, i: int, acc: Seq<char>) -> Option<(Seq<char>, int)>
    decreases s.len() - i,
{
    if i < 0 || i >= s.len() {
        None
    } else if s[i] == '"' {
        Some((acc, i + 1))
    } else if s[i] == '\\' {
        if i + 1 < s.len() {
            let e = s[i + 1];
            if e == 'u' {
                if i + 5 < s.len() && is_hex_char(s[i + 2]) && is_hex_char(s[i + 3]) && is_hex_char(
                    s[i + 4],
                ) && is_hex_char(s[i + 5]) {
                    let v = hex_val(s[i + 2]) * 0x1000 + hex_val(s[i + 3]) * 0x100 + hex_val(
                        s[i + 4],
                    ) * 0x10 + hex_val(s[i + 5]);
                    if is_scalar(v as int) {
                        spec_parse_string(s, i + 6, acc.push(char_from_scalar(v as int)))
                    } else {
                        None
                    }
                } else {
                    None
                }
            } else {
                match decode_escape(e) {
                    Some(c) => spec_parse_string(s, i + 2, acc.push(c)),
                    None => None,
                }
            }
        } else {
            None
        }
    } else {
        spec_parse_string(s, i + 1, acc.push(s[i]))
    }
}

/// Reading a string token moves strictly forwards.
pub proof fn lemma_parse_string_advances(s: Seq<char>, i: int, acc: Seq<char>)
    ensures
        (spec_parse_string(s, i, acc) matches Some(r) ==> i < r.1 <= s.len()),
    decreases s.len() - i,
{
    if 0 <= i < s.len() {
        if s[i] == '"' {
        } else if s[i] == '\\' {
            if i + 1 < s.len() {
                let e = s[i + 1];
                if e == 'u' {
                    if i + 5 < s.len() && is_hex_char(s[i + 2]) && is_hex_char(s[i + 3])
                        && is_hex_char(s[i + 4]) && is_hex_char(s[i + 5]) {
                        let v = hex_val(s[i + 2]) * 0x1000 + hex_val(s[i + 3]) * 0x100 + hex_val(
                            s[i + 4],
                        ) * 0x10 + hex_val(s[i + 5]);
                        if is_scalar(v as int) {
                            lemma_parse_string_advances(
                                s,
                                i + 6,
                                acc.push(char_from_scalar(v as int)),
                            );
                        }
                    }
                } else {
                    match decode_escape(e) {
                        Some(c) => lemma_parse_string_advances(s, i + 2, acc.push(c)),
                        None => {},
                    }
                }
            }
        } else {
            lemma_parse_string_advances(s, i + 1, acc.push(s[i]));
        }
    }
}

/// Read a string token's body from just after the opening quote; the decoded
/// body and the position after the closing quote.
pub fn parse_string(chars: &Vec<char>, i: usize) -> (r: Option<(Vec<char>, usize)>)
    requires
        i <= chars@.len(),
    ensures
        (r matches Some(p) ==> spec_parse_string(chars@, i as int, Seq::empty()) == Some(
            (p.0@, p.1 as int),
        ) && i < p.1 <= chars@.len()),
        (r is None ==> spec_parse_string(chars@, i as int, Seq::empty()) is None),
{
    let n = chars.len();
    let mut acc: Vec<char> = Vec::new();
    let mut j = i;
    loop
        invariant
            i <= j <= n,
            n == chars@.len(),
            spec_parse_string(chars@, i as int, Seq::empty()) == spec_parse_string(
                chars@,
                j as int,
                acc@,
            ),
        decreases n - j,
    {
        if j >= n {
            return None;
        }
        let c = chars[j];
        if c == '"' {
            proof {
                lemma_parse_string_advances(chars@, i as int, Seq::empty());
            }
            return Some((acc, j + 1));
        } else if c == '\\' {
            if j + 1 >= n {
                return None;
            }
            let e = chars[j + 1];
            if e == 'u' {
                if n - j < 6 {
                    return None;
                }
                let h1 = chars[j + 2];
                let h2 = chars[j + 3];
                let h3 = chars[j + 4];
                let h4 = chars[j + 5];
                if !(hex_ok(h1) && hex_ok(h2) && hex_ok(h3) && hex_ok(h4)) {
                    return None;
                }
                let v: u32 = hex_value(h1) * 0x1000 + hex_value(h2) * 0x100 + hex_value(h3) * 0x10
                    + hex_value(h4);
                match char_from_u32(v) {
                    Some(dc) => {
                        proof {
                            assert(char_scalar(dc) == v as int);
                            assert(char_scalar(char_from_scalar(v as int)) == v as int);
                            assert(char_from_scalar(v as int) == dc);
                        }
                        acc.push(dc);
                        j = j + 6;
                    },
                    None => {
                        return None;
                    },
                }
            } else if e == '"' {
                acc.push('"');
                j = j + 2;
            } else if e == '\\' {
                acc.push('\\');
                j = j + 2;
            } else if e == '/' {
                acc.push('/');
                j = j + 2;
            } else if e == 'b' {
                acc.push('\u{8}');
                j = j + 2;
            } else if e == 'f' {
                acc.push('\u{c}');
                j = j + 2;
            } else if e == 'n' {
                acc.push('\n');
                j = j + 2;
            } else if e == 'r' {
                acc.push('\r');
                j = j + 2;
            } else if e == 't' {
                acc.push('\t');
                j = j + 2;
            } else {
                return None;
            }
        } else {
            acc.push(c);
            j = j + 1;
        }
    }
}

/// A hexadecimal digit, either case.
fn hex_ok(c: char) -> (r: bool)
    ensures
        r == is_hex_char(c),
{
    ('0' <= c && c <= '9') || ('a' <= c && c <= 'f') || ('A' <= c && c <= 'F')
}

/// The value of a hexadecimal digit character.
fn hex_value(c: char) -> (r: u32)
    requires
        is_hex_char(c),
    ensures
        r as nat == hex_val(c),
        r < 16,
{
    let v = c as u32;
    if '0' <= c && c <= '9' {
        v - 48
    } else if 'a' <= c && c <= 'f' {
        v - 97 + 10
    } else {
        v - 65 + 10
    }
}

/// Skip over a string token's body from just after the opening quote,
/// without decoding: at a backslash the next character is consumed blindly.
/// The position after the closing quote, or nothing for an unterminated
/// token.
pub open spec fn spec_skip_string(s: Seq<char>, i: int) -> Option<int>
    decreases s.len() - i,
{
    if i < 0 || i >= s.len() {
        None
    } else if s[i] == '"' {
        Some(i + 1)
    } else if s[i] == '\\' {
        if i + 1 < s.len() {
            spec_skip_string(s, i + 2)
        } else {
            None
        }
    } else {
        spec_skip_string(s, i + 1)
    }
}

/// Skipping a string token moves strictly forwards.
pub proof fn lemma_skip_string_advances(s: Seq<char>, i: int)
    ensures
        (spec_skip_string(s, i) matches Some(j) ==> i < j <= s.len()),
    decreases s.len() - i,
{
    if 0 <= i < s.len() {
        if s[i] == '"' {
        } else if s[i] == '\\' {
            if i + 1 < s.len() {
                lemma_skip_string_advances(s, i + 2);
            }
        } else {
            lemma_skip_string_advances(s, i + 1);
        }
    }
}

/// Skip over a string token's body from just after the opening quote.
pub fn skip_string_body(chars: &Vec<char>, i: usize) -> (r: Option<usize>)
    requires
        i <= chars@.len(),
    ensures
        (r matches Some(j) ==> spec_skip_string(chars@, i as int) == Some(j as int) && i < j
            <= chars@.len()),
        (r is None ==> spec_skip_string(chars@, i as int) is None),
{
    let n = chars.len();
    let mut j = i;
    loop
        invariant
            i <= j <= n,
            n == chars@.len(),
            spec_skip_string(chars@, i as int) == spec_skip_string(chars@, j as int),
        decreases n - j,
    {
        if j >= n {
            return None;
        }
        let c = chars[j];
        if c == '"' {
            proof {
                lemma_skip_string_advances(chars@, i as int);
            }
            return Some(j + 1);
        } else if c == '\\' {
            if j + 1 >= n {
                return None;
            }
            j = j + 2;
        } else {
            j = j + 1;
        }
    }
}

/// A character that can stand in a JSON number token.
pub open spec fn is_num_char(c: char) -> bool {
    is_dec_digit(c) || c == '-' || c == '+' || c == '.' || c == 'e' || c == 'E'
}

/// The first position at or after `i` holding something no number holds.
pub open spec fn spec_num_end(s: Seq<char>, i: int) -> int
    decreases s.len() - i,
{
    if 0 <= i < s.len() && is_num_char(s[i]) {
        spec_num_end(s, i + 1)
    } else {
        i
    }
}

/// A number run never moves backwards nor past the end.
pub proof fn lemma_num_end_bounds(s: Seq<char>, i: int)
    requires
        0 <= i <= s.len(),
    ensures
        i <= spec_num_end(s, i) <= s.len(),
    decreases s.len() - i,
{
    if i < s.len() && is_num_char(s[i]) {
        lemma_num_end_bounds(s, i + 1);
    }
}

/// The first position at or after `i` holding something no number holds.
pub fn num_end(chars: &Vec<char>, i: usize) -> (r: usize)
    requires
        i <= chars@.len(),
    ensures
        r == spec_num_end(chars@, i as int),
        i <= r <= chars@.len(),
{
    let n = chars.len();
    let mut j = i;
    while j < n && (('0' <= chars[j] && chars[j] <= '9') || chars[j] == '-' || chars[j] == '+'
        || chars[j] == '.' || chars[j] == 'e' || chars[j] == 'E')
        invariant
            i <= j <= n,
            n == chars@.len(),
            spec_num_end(chars@, i as int) == spec_num_end(chars@, j as int),
        decreases n - j,
    {
        j = j + 1;
    }
    j
}

/// Skip the remainder of an object or array opened before `i`: track the
/// nesting depth over braces and brackets, passing over string tokens, until
/// it returns to zero. The position after the matching close, or nothing
/// when the input ends first.
pub open spec fn spec_skip_composite(s: Seq<char>, i: int, depth: int) -> Option<int>
    decreases s.len() - i,
{
    if depth <= 0 {
        Some(i)
    } else if i < 0 || i >= s.len() {
        None
    } else if s[i] == '"' {
        match spec_skip_string(s, i + 1) {
            Some(j) => {
                if i < j <= s.len() {
                    spec_skip_composite(s, j, depth)
                } else {
                    None
                }
            },
            None => None,
        }
    } else if s[i] == '{' || s[i] == '[' {
        spec_skip_composite(s, i + 1, depth + 1)
    } else if s[i] == '}' || s[i] == ']' {
        spec_skip_composite(s, i + 1, depth - 1)
    } else {
        spec_skip_composite(s, i + 1, depth)
    }
}

/// Skipping a composite moves strictly forwards.
pub proof fn lemma_skip_composite_advances(s: Seq<char>, i: int, depth: int)
    requires
        depth >= 1,
    ensures
        (spec_skip_composite(s, i, depth) matches Some(j) ==> i < j <= s.len()),
    decreases s.len() - i,
{
    if 0 <= i < s.len() {
        if s[i] == '"' {
            lemma_skip_string_advances(s, i + 1);
            match spec_skip_string(s, i + 1) {
                Some(j) => {
                    if i < j <= s.len() {
                        lemma_skip_composite_advances(s, j, depth);
                    }
                },
                None => {},
            }
        } else if s[i] == '{' || s[i] == '[' {
            lemma_skip_composite_advances(s, i + 1, depth + 1);
        } else if s[i] == '}' || s[i] == ']' {
            if depth - 1 >= 1 {
                lemma_skip_composite_advances(s, i + 1, depth - 1);
            }
        } else {
            lemma_skip_composite_advances(s, i + 1, depth);
        }
    }
}

/// Skip the remainder of an object or array whose opening character stood
/// just before `i`.
pub fn skip_composite(chars: &Vec<char>, i: usize) -> (r: Option<usize>)
    requires
        1 <= i <= chars@.len(),
    ensures
        (r matches Some(j) ==> spec_skip_composite(chars@, i as int, 1) == Some(j as int) && i < j
            <= chars@.len()),
        (r is None ==> spec_skip_composite(chars@, i as int, 1) is None),
{
    let n = chars.len();
    let mut depth: usize = 1;
    let mut j = i;
    proof {
        lemma_skip_composite_advances(chars@, i as int, 1);
    }
    loop
        invariant
            1 <= i <= j <= n,
            n == chars@.len(),
            depth <= j - i + 1,
            spec_skip_composite(chars@, i as int, 1) == spec_skip_composite(
                chars@,
                j as int,
                depth as int,
            ),
            (spec_skip_composite(chars@, i as int, 1) matches Some(k) ==> i < k <= chars@.len()),
        decreases n - j, depth,
    {
        if depth == 0 {
            return Some(j);
        }
        if j >= n {
            return None;
        }
        let c = chars[j];
        if c == '"' {
            match skip_string_body(chars, j + 1) {
                Some(k) => {
                    j = k;
                },
                None => {
                    return None;
                },
            }
        } else if c == '{' || c == '[' {
            depth = depth + 1;
            j = j + 1;
        } else if c == '}' || c == ']' {
            depth = depth - 1;
            j = j + 1;
        } else {
            j = j + 1;
        }
    }
}

/// Skip one JSON value starting exactly at `i`: a string, an object or
/// array, a literal, or a number run. The position just after it, or nothing
/// when the text starts no value or ends too soon. Skipped values are
/// checked for balance, not validated.
pub open spec fn spec_skip_value(s: Seq<char>, i: int) -> Option<int> {
    if i < 0 || i >= s.len() {
        None
    } else if s[i] == '"' {
        spec_skip_string(s, i + 1)
    } else if s[i] == '{' || s[i] == '[' {
        spec_skip_composite(s, i + 1, 1)
    } else if s[i] == 't' {
        if i + 4 <= s.len() && s[i + 1] == 'r' && s[i + 2] == 'u' && s[i + 3] == 'e' {
            Some(i + 4)
        } else {
            None
        }
    } else if s[i] == 'f' {
        if i + 5 <= s.len() && s[i + 1] == 'a' && s[i + 2] == 'l' && s[i + 3] == 's' && s[i + 4]
            == 'e' {
            Some(i + 5)
        } else {
            None
        }
    } else if s[i] == 'n' {
        if i + 4 <= s.len() && s[i + 1] == 'u' && s[i + 2] == 'l' && s[i + 3] == 'l' {
            Some(i + 4)
        } else {
            None
        }
    } else if s[i] == '-' || is_dec_digit(s[i]) {
        Some(spec_num_end(s, i))
    } else {
        None
    }
}

/// Skipping a value moves strictly forwards.
pub proof fn lemma_skip_value_advances(s: Seq<char>, i: int)
    ensures
        (spec_skip_value(s, i) matches Some(j) ==> i < j <= s.len()),
{
    if 0 <= i < s.len() {
        if s[i] == '"' {
            lemma_skip_string_advances(s, i + 1);
        } else if s[i] == '{' || s[i] == '[' {
            lemma_skip_composite_advances(s, i + 1, 1);
        } else if s[i] == '-' || is_dec_digit(s[i]) {
            lemma_num_end_bounds(s, i + 1);
        }
    }
}

/// Skip one JSON value starting exactly at `i`.
pub fn skip_value(chars: &Vec<char>, i: usize) -> (r: Option<usize>)
    requires
        i <= chars@.len(),
    ensures
        (r matches Some(j) ==> spec_skip_value(chars@, i as int) == Some(j as int) && i < j
            <= chars@.len()),
        (r is None ==> spec_skip_value(chars@, i as int) is None),
{
    let n = chars.len();
    if i >= n {
        return None;
    }
    let c = chars[i];
    if c == '"' {
        skip_string_body(chars, i + 1)
    } else if c == '{' || c == '[' {
        skip_composite(chars, i + 1)
    } else if c == 't' {
        if n - i >= 4 && chars[i + 1] == 'r' && chars[i + 2] == 'u' && chars[i + 3] == 'e' {
            Some(i + 4)
        } else {
            None
        }
    } else if c == 'f' {
        if n - i >= 5 && chars[i + 1] == 'a' && chars[i + 2] == 'l' && chars[i + 3] == 's'
            && chars[i + 4] == 'e' {
            Some(i + 5)
        } else {
            None
        }
    } else if c == 'n' {
        if n - i >= 4 && chars[i + 1] == 'u' && chars[i + 2] == 'l' && chars[i + 3] == 'l' {
            Some(i + 4)
        } else {
            None
        }
    } else if c == '-' || ('0' <= c && c <= '9') {
        proof {
            lemma_num_end_bounds(chars@, i + 1);
        }
        Some(num_end(chars, i))
    } else {
        None
    }
}

} // verus!
