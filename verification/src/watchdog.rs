//! The watchdog's computations: turning a time-limit spec into seconds, and
//! naming the checkpoint file written on interrupt or timeout. The sleeping,
//! the signal handler, and the exit are the runner's; what they decide and
//! write comes from here.

use vstd::prelude::*;

use crate::json::dec_str;
use crate::json::push_lit;
use crate::json::push_u64;
use crate::parse::digits_end;
use crate::parse::digits_val;
use crate::parse::digits_value;
use crate::parse::lemma_digits_end_digits;
use crate::parse::spec_digits_end;
use crate::text::chars_to_string;
use crate::text::str_to_chars;

verus! {

/// A time-limit unit letter, either case.
pub open spec fn is_time_unit(c: char) -> bool {
    c == 's' || c == 'S' || c == 'm' || c == 'M' || c == 'h' || c == 'H' || c == 'd' || c == 'D'
}

/// The seconds one unit stands for.
pub open spec fn unit_secs(c: char) -> nat {
    if c == 's' || c == 'S' {
        1
    } else if c == 'm' || c == 'M' {
        60
    } else if c == 'h' || c == 'H' {
        3600
    } else if c == 'd' || c == 'D' {
        86400
    } else {
        0
    }
}

/// What a time-limit spec means: digits followed by one unit letter, worth
/// their product in seconds — and nothing when the text has another shape or
/// the product cannot be carried in 64 bits.
pub open spec fn spec_parse_time_limit(s: Seq<char>) -> Option<u64> {
    let e = spec_digits_end(s, 0);
    if 1 <= e && e + 1 == s.len() && is_time_unit(s[e]) {
        let v = digits_val(s.subrange(0, e));
        let u = unit_secs(s[e]);
        if v * u <= u64::MAX {
            Some((v * u) as u64)
        } else {
            None
        }
    } else {
        None
    }
}

/// Turn a time-limit spec such as `10s`, `30m`, `2h` or `1d` into seconds.
///
/// A numeric part too large for 64 bits — or a product that is — yields
/// nothing: the caller logs it and enforces no limit, a soft failure.
pub fn parse_time_limit(spec: &str) -> (r: Option<u64>)
    ensures
        r == spec_parse_time_limit(spec@),
{
    let chars = str_to_chars(spec);
    let n = chars.len();
    let e = digits_end(&chars, 0);
    if e < 1 || n - e != 1 {
        return None;
    }
    let u = chars[e];
    let unit: u64 = if u == 's' || u == 'S' {
        1
    } else if u == 'm' || u == 'M' {
        60
    } else if u == 'h' || u == 'H' {
        3600
    } else if u == 'd' || u == 'D' {
        86400
    } else {
        return None;
    };
    proof {
        lemma_digits_end_digits(chars@, 0);
    }
    let v = match digits_value(&chars, 0, e) {
        Some(v) => v,
        None => {
            proof {
                let gv = digits_val(chars@.subrange(0, e as int));
                let gu = unit_secs(chars@[e as int]);
                assert(gv * gu >= gv * 1) by (nonlinear_arith)
                    requires
                        gu >= 1,
                        gv >= 0,
                ;
            }
            return None;
        },
    };
    match v.checked_mul(unit) {
        Some(secs) => Some(secs),
        None => None,
    }
}

/// The filesystem-safe slug of a target URL: the scheme separator, and every
/// slash and dot, become underscores.
pub open spec fn slug_of(s: Seq<char>) -> Seq<char>
    decreases s.len(),
{
    if s.len() == 0 {
        Seq::empty()
    } else if s.len() >= 3 && s[0] == ':' && s[1] == '/' && s[2] == '/' {
        seq!['_'] + slug_of(s.subrange(3, s.len() as int))
    } else if s[0] == '/' || s[0] == '.' {
        seq!['_'] + slug_of(s.subrange(1, s.len() as int))
    } else {
        seq![s[0]] + slug_of(s.subrange(1, s.len() as int))
    }
}

/// The checkpoint file's name: the slugged target URL — or `stdin` when no
/// target URL is configured — between a fixed prefix and the timestamp.
pub open spec fn spec_state_file_name(url: Seq<char>, ts: nat) -> Seq<char> {
    let slug = if url.len() == 0 {
        "stdin"@
    } else {
        slug_of(url)
    };
    "ferox-"@ + slug + "-"@ + dec_str(ts) + ".state"@
}

/// The name of the checkpoint file to write for this target at this time
/// (seconds since the epoch): timestamped, filesystem-safe, and `stdin` in
/// place of the slug when no target URL is configured.
pub fn state_file_name(target_url: &str, timestamp: u64) -> (r: String)
    ensures
        r@ == spec_state_file_name(target_url@, timestamp as nat),
{
    let mut out: Vec<char> = Vec::new();
    push_lit(&mut out, "ferox-");
    let chars = str_to_chars(target_url);
    let n = chars.len();
    if n == 0 {
        push_lit(&mut out, "stdin");
    } else {
        let ghost base = out@;
        let mut i: usize = 0;
        proof {
            assert(chars@.subrange(0, n as int) =~= chars@);
            assert(out@.subrange(base.len() as int, out@.len() as int) =~= Seq::<char>::empty());
            assert(Seq::<char>::empty() + slug_of(chars@) =~= slug_of(chars@));
            assert(out@.subrange(0, base.len() as int) =~= base);
        }
        while i < n
            invariant
                i <= n,
                n == chars@.len(),
                slug_of(chars@) == out@.subrange(base.len() as int, out@.len() as int) + slug_of(
                    chars@.subrange(i as int, n as int),
                ),
                out@.len() >= base.len(),
                out@.subrange(0, base.len() as int) == base,
            decreases n - i,
        {
            let ghost rest = chars@.subrange(i as int, n as int);
            if n - i > 2 && chars[i] == ':' && chars[i + 1] == '/' && chars[i + 2] == '/' {
                out.push('_');
                proof {
                    assert(rest.subrange(3, rest.len() as int) =~= chars@.subrange(
                        i + 3,
                        n as int,
                    ));
                }
                i = i + 3;
            } else if chars[i] == '/' || chars[i] == '.' {
                out.push('_');
                proof {
                    assert(rest.subrange(1, rest.len() as int) =~= chars@.subrange(
                        i + 1,
                        n as int,
                    ));
                }
                i = i + 1;
            } else {
                out.push(chars[i]);
                proof {
                    assert(rest.subrange(1, rest.len() as int) =~= chars@.subrange(
                        i + 1,
                        n as int,
                    ));
                }
                i = i + 1;
            }
            proof {
                assert(out@.subrange(0, base.len() as int) =~= base);
                assert(out@.subrange(base.len() as int, out@.len() as int) + slug_of(
                    chars@.subrange(i as int, n as int),
                ) =~= slug_of(chars@));
            }
        }
        proof {
            assert(chars@.subrange(n as int, n as int) =~= Seq::<char>::empty());
            assert(slug_of(Seq::<char>::empty()) == Seq::<char>::empty());
            assert(out@ =~= base + slug_of(chars@));
        }
    }
    push_lit(&mut out, "-");
    push_u64(&mut out, timestamp);
    push_lit(&mut out, ".state");
    proof {
        assert(out@ =~= spec_state_file_name(target_url@, timestamp as nat));
    }
    chars_to_string(&out)
}

} // verus!
