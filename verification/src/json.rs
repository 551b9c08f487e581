//! Character-exact emission of the checkpoint format's JSON text.
//!
//! The state file is this crate's own external format, so its text is built
//! here character by character, against spec functions that pin every
//! character down.

use vstd::prelude::*;
use vstd::string::StrSliceExecFns;

verus! {

/// The character for one hexadecimal digit, lower case.
pub open spec fn hex_digit(d: int) -> char {
    if d == 0 {
        '0'
    } else if d == 1 {
        '1'
    } else if d == 2 {
        '2'
    } else if d == 3 {
        '3'
    } else if d == 4 {
        '4'
    } else if d == 5 {
        '5'
    } else if d == 6 {
        '6'
    } else if d == 7 {
        '7'
    } else if d == 8 {
        '8'
    } else if d == 9 {
        '9'
    } else if d == 10 {
        'a'
    } else if d == 11 {
        'b'
    } else if d == 12 {
        'c'
    } else if d == 13 {
        'd'
    } else if d == 14 {
        'e'
    } else {
        'f'
    }
}

/// The characters a string character becomes inside a JSON string: quote and
/// backslash are escaped, the named control characters use their short
/// escapes, other control characters a `\u00..` escape, and everything else
/// stands as itself.
pub open spec fn escape_char(c: char) -> Seq<char> {
    if c == '"' {
        seq!['\\', '"']
    } else if c == '\\' {
        seq!['\\', '\\']
    } else if c == '\u{8}' {
        seq!['\\', 'b']
    } else if c == '\u{c}' {
        seq!['\\', 'f']
    } else if c == '\n' {
        seq!['\\', 'n']
    } else if c == '\r' {
        seq!['\\', 'r']
    } else if c == '\t' {
        seq!['\\', 't']
    } else if (c as int) < 0x20 {
        seq!['\\', 'u', '0', '0', hex_digit(c as int / 16), hex_digit(c as int % 16)]
    } else {
        seq![c]
    }
}

/// A whole string body, escaped.
pub open spec fn escape_seq(s: Seq<char>) -> Seq<char>
    decreases s.len(),
{
    if s.len() == 0 {
        Seq::empty()
    } else {
        escape_char(s[0]) + escape_seq(s.drop_first())
    }
}

/// Escaping a string extends over a push one character at a time.
pub proof fn lemma_escape_seq_push(s: Seq<char>, c: char)
    ensures
        escape_seq(s.push(c)) == escape_seq(s) + escape_char(c),
    decreases s.len(),
{
    if s.len() == 0 {
        assert(s.push(c)[0] == c);
        assert(s.push(c).drop_first() =~= Seq::<char>::empty());
        assert(escape_seq(Seq::<char>::empty()) == Seq::<char>::empty());
        assert(escape_seq(s.push(c)) =~= escape_seq(s) + escape_char(c));
    } else {
        lemma_escape_seq_push(s.drop_first(), c);
        assert(s.push(c)[0] == s[0]);
        assert(s.push(c).drop_first() =~= s.drop_first().push(c));
        assert(escape_seq(s.push(c)) =~= escape_seq(s) + escape_char(c));
    }
}

/// A JSON string token: the escaped body between quotes.
pub open spec fn json_string(s: Seq<char>) -> Seq<char> {
    seq!['"'] + escape_seq(s) + seq!['"']
}

/// The decimal rendering of an unsigned number, most significant digit first.
pub open spec fn dec_str(n: nat) -> Seq<char>
    decreases n,
{
    if n < 10 {
        seq![hex_digit(n as int)]
    } else {
        dec_str(n / 10).push(hex_digit((n % 10) as int))
    }
}

/// The JSON rendering of a boolean.
pub open spec fn bool_str(b: bool) -> Seq<char> {
    if b {
        "true"@
    } else {
        "false"@
    }
}

/// The character for one hexadecimal digit, lower case.
pub fn hex_digit_char(d: u8) -> (r: char)
    requires
        d < 16,
    ensures
        r == hex_digit(d as int),
{
    if d == 0 {
        '0'
    } else if d == 1 {
        '1'
    } else if d == 2 {
        '2'
    } else if d == 3 {
        '3'
    } else if d == 4 {
        '4'
    } else if d == 5 {
        '5'
    } else if d == 6 {
        '6'
    } else if d == 7 {
        '7'
    } else if d == 8 {
        '8'
    } else if d == 9 {
        '9'
    } else if d == 10 {
        'a'
    } else if d == 11 {
        'b'
    } else if d == 12 {
        'c'
    } else if d == 13 {
        'd'
    } else if d == 14 {
        'e'
    } else {
        'f'
    }
}

/// Append the characters of a literal piece of the format.
pub fn push_lit(out: &mut Vec<char>, s: &str)
    ensures
        final(out)@ == old(out)@ + s@,
{
    let len = s.unicode_len();
    let mut i: usize = 0;
    while i < len
        invariant
            i <= len,
            len == s@.len(),
            out@ == old(out)@ + s@.subrange(0, i as int),
        decreases len - i,
    {
        out.push(s.get_char(i));
        proof {
            assert(out@ =~= old(out)@ + s@.subrange(0, i + 1 as int));
        }
        i = i + 1;
    }
    proof {
        assert(old(out)@ + s@.subrange(0, len as int) =~= old(out)@ + s@);
    }
}

/// Append one string character in its escaped form.
pub fn push_escaped_char(out: &mut Vec<char>, c: char)
    ensures
        final(out)@ == old(out)@ + escape_char(c),
{
    if c == '"' {
        out.push('\\');
        out.push('"');
    } else if c == '\\' {
        out.push('\\');
        out.push('\\');
    } else if c == '\u{8}' {
        out.push('\\');
        out.push('b');
    } else if c == '\u{c}' {
        out.push('\\');
        out.push('f');
    } else if c == '\n' {
        out.push('\\');
        out.push('n');
    } else if c == '\r' {
        out.push('\\');
        out.push('r');
    } else if c == '\t' {
        out.push('\\');
        out.push('t');
    } else {
        let v: u32 = c as u32;
        if v < 0x20 {
            out.push('\\');
            out.push('u');
            out.push('0');
            out.push('0');
            out.push(hex_digit_char((v / 16) as u8));
            out.push(hex_digit_char((v % 16) as u8));
        } else {
            out.push(c);
        }
    }
    proof {
        assert(out@ =~= old(out)@ + escape_char(c));
    }
}

/// Append a JSON string token holding exactly this string.
pub fn push_json_string(out: &mut Vec<char>, s: &str)
    ensures
        final(out)@ == old(out)@ + json_string(s@),
{
    out.push('"');
    let len = s.unicode_len();
    let mut i: usize = 0;
    while i < len
        invariant
            i <= len,
            len == s@.len(),
            out@ == old(out)@ + seq!['"'] + escape_seq(s@.subrange(0, i as int)),
        decreases len - i,
    {
        let ghost prefix = s@.subrange(0, i as int);
        push_escaped_char(out, s.get_char(i));
        proof {
            assert(prefix.push(s@[i as int]) =~= s@.subrange(0, i + 1 as int));
            lemma_escape_seq_push(prefix, s@[i as int]);
            assert(out@ =~= old(out)@ + seq!['"'] + escape_seq(s@.subrange(0, i + 1 as int)));
        }
        i = i + 1;
    }
    out.push('"');
    proof {
        assert(s@.subrange(0, len as int) =~= s@);
        assert(out@ =~= old(out)@ + json_string(s@));
    }
}

/// Append the decimal rendering of a number.
pub fn push_u64(out: &mut Vec<char>, n: u64)
    ensures
        final(out)@ == old(out)@ + dec_str(n as nat),
{
    let mut tmp: Vec<char> = Vec::new();
    let mut cur: u64 = n;
    proof {
        assert(tmp@.reverse() =~= Seq::<char>::empty());
    }
    loop
        invariant_except_break
            dec_str(n as nat) == dec_str(cur as nat) + tmp@.reverse(),
        ensures
            dec_str(n as nat) == tmp@.reverse(),
        decreases cur,
    {
        let d: u64 = cur % 10;
        let next: u64 = cur / 10;
        let ghost pre_tmp = tmp@;
        tmp.push(hex_digit_char(d as u8));
        proof {
            assert(tmp@.reverse() =~= seq![hex_digit(d as int)] + pre_tmp.reverse());
            if cur >= 10 {
                assert(dec_str(cur as nat) == dec_str(next as nat).push(hex_digit(d as int)));
                assert(dec_str(next as nat) + tmp@.reverse() =~= dec_str(cur as nat)
                    + pre_tmp.reverse());
            } else {
                assert(dec_str(cur as nat) =~= seq![hex_digit(cur as int)]);
                assert(tmp@.reverse() =~= dec_str(cur as nat) + pre_tmp.reverse());
            }
        }
        if next == 0 {
            break;
        }
        cur = next;
    }
    proof {
        assert(dec_str(n as nat) =~= tmp@.reverse());
    }
    let m = tmp.len();
    let mut j: usize = m;
    while j > 0
        invariant
            j <= m,
            m == tmp@.len(),
            dec_str(n as nat) == tmp@.reverse(),
            out@ == old(out)@ + tmp@.reverse().subrange(0, (m - j) as int),
        decreases j,
    {
        out.push(tmp[j - 1]);
        proof {
            assert(tmp@.reverse()[(m - j) as int] == tmp@[j - 1 as int]);
            assert(out@ =~= old(out)@ + tmp@.reverse().subrange(0, (m - j + 1) as int));
        }
        j = j - 1;
    }
    proof {
        assert(tmp@.reverse().subrange(0, m as int) =~= tmp@.reverse());
    }
}

/// Append the JSON rendering of a boolean.
pub fn push_bool(out: &mut Vec<char>, b: bool)
    ensures
        final(out)@ == old(out)@ + bool_str(b),
{
    if b {
        push_lit(out, "true");
    } else {
        push_lit(out, "false");
    }
}

} // verus!
