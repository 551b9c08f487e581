//! The crate's laws: what holds of the registry's de-duplication, of scan
//! identity, of the response cache's membership, and of writing a scan out
//! and reading it back.

use vstd::prelude::*;
use vstd::std_specs::cmp::PartialEqSpec;

use crate::json::escape_char;
use crate::json::escape_seq;
use crate::json::hex_digit;
use crate::parse::char_from_scalar;
use crate::parse::char_scalar;
use crate::parse::hex_val;
use crate::parse::is_hex_char;
use crate::parse::spec_parse_string;

verus! {

/// A character's scalar value is never negative.
pub proof fn lemma_char_nonneg(c: char)
    ensures
        0 <= c as int,
{
    vstd::utf8::char_is_scalar(c);
    assert(vstd::utf8::is_scalar(c as u32));
    assert((c as u32) >= 0);
    assert(c as int == (c as u32) as int);
}

/// A hexadecimal digit's character reads back as its value.
pub proof fn lemma_hex_digit_props(d: int)
    requires
        0 <= d < 16,
    ensures
        is_hex_char(hex_digit(d)),
        hex_val(hex_digit(d)) == d,
{
}

/// Reading a string token undoes escaping: where the text from `i` holds an
/// escaped body and its closing quote, the parser returns exactly the body.
pub proof fn lemma_parse_string_unescape(s: Seq<char>, i: int, v: Seq<char>, acc: Seq<char>)
    requires
        0 <= i,
        i + escape_seq(v).len() + 1 <= s.len(),
        s.subrange(i, i + escape_seq(v).len() + 1) == escape_seq(v) + seq!['"'],
    ensures
        spec_parse_string(s, i, acc) == Some((acc + v, i + escape_seq(v).len() + 1)),
    decreases v.len(),
{
    let esc = escape_seq(v);
    let sub = s.subrange(i, i + esc.len() + 1);
    if v.len() == 0 {
        assert(esc == Seq::<char>::empty());
        assert(sub[0] == s[i]);
        assert(s[i] == '"');
        assert(acc + v =~= acc);
    } else {
        let c = v[0];
        let v2 = v.drop_first();
        let ec = escape_char(c);
        assert(esc == ec + escape_seq(v2));
        let lc = ec.len() as int;
        assert(s.subrange(i + lc, i + esc.len() + 1) =~= escape_seq(v2) + seq!['"']) by {
            assert forall|k: int| 0 <= k < escape_seq(v2).len() + 1 implies s.subrange(
                i + lc,
                i + esc.len() + 1,
            )[k] == (escape_seq(v2) + seq!['"'])[k] by {
                assert(s.subrange(i + lc, i + esc.len() + 1)[k] == s[i + lc + k]);
                assert(sub[lc + k] == s[i + lc + k]);
                assert(sub[lc + k] == (esc + seq!['"'])[lc + k]);
            }
        }
        assert(acc.push(c) + v2 =~= acc + v);
        assert(sub[0] == s[i]);
        if c == '"' || c == '\\' || c == '\u{8}' || c == '\u{c}' || c == '\n' || c == '\r' || c
            == '\t' {
            assert(sub[1] == s[i + 1]);
            assert(s[i] == '\\');
            let e = ec[1];
            assert(s[i + 1] == e);
            assert(e != 'u');
            assert(crate::parse::decode_escape(e) == Some(c));
            lemma_parse_string_unescape(s, i + 2, v2, acc.push(c));
        } else if (c as int) < 0x20 {
            assert(sub[1] == s[i + 1]);
            assert(sub[2] == s[i + 2]);
            assert(sub[3] == s[i + 3]);
            assert(sub[4] == s[i + 4]);
            assert(sub[5] == s[i + 5]);
            assert(s[i] == '\\');
            assert(s[i + 1] == 'u');
            assert(s[i + 2] == '0');
            assert(s[i + 3] == '0');
            let h1 = hex_digit(c as int / 16);
            let h2 = hex_digit(c as int % 16);
            assert(s[i + 4] == h1);
            assert(s[i + 5] == h2);
            lemma_char_nonneg(c);
            assert(0 <= (c as int) && (c as int) < 0x20);
            assert(0 <= (c as int) / 16 && (c as int) / 16 < 16) by (nonlinear_arith)
                requires
                    0 <= (c as int) && (c as int) < 0x20,
            ;
            assert(0 <= (c as int) % 16 && (c as int) % 16 < 16);
            lemma_hex_digit_props(c as int / 16);
            lemma_hex_digit_props(c as int % 16);
            assert(hex_val('0') == 0);
            let hv = hex_val(s[i + 2]) * 0x1000 + hex_val(s[i + 3]) * 0x100 + hex_val(s[i + 4])
                * 0x10 + hex_val(s[i + 5]);
            assert(hv == c as int);
            assert(crate::parse::is_scalar(hv as int));
            assert(char_scalar(c) == hv as int);
            assert(char_scalar(char_from_scalar(hv as int)) == hv as int);
            assert(char_from_scalar(hv as int) == c);
            lemma_parse_string_unescape(s, i + 6, v2, acc.push(c));
        } else {
            assert(ec =~= seq![c]);
            assert(s[i] == c);
            assert(c != '"' && c != '\\');
            lemma_parse_string_unescape(s, i + 1, v2, acc.push(c));
        }
    }
}

/// Escaping leaves a string of ordinary characters — no quote, no
/// backslash, nothing below space — exactly as it is.
pub proof fn lemma_escape_plain(v: Seq<char>)
    requires
        forall|k: int| 0 <= k < v.len() ==> escape_char(#[trigger] v[k]) == seq![v[k]],
    ensures
        escape_seq(v) == v,
    decreases v.len(),
{
    if v.len() > 0 {
        lemma_escape_plain(v.drop_first());
        assert(escape_seq(v) =~= v);
    }
}

/// The escaped form of a revealed literal made of ordinary characters is
/// itself.
proof fn lemma_plain_lit(t: Seq<char>)
    requires
        forall|k: int| 0 <= k < t.len() ==> !(#[trigger] t[k] == '"') && !(t[k] == '\\') && (
        t[k] as int) >= 0x20,
    ensures
        escape_seq(t) == t,
{
    assert forall|k: int| 0 <= k < t.len() implies escape_char(#[trigger] t[k]) == seq![t[k]] by {
        assert(!((t[k] as int) < 0x20));
    }
    lemma_escape_plain(t);
}

/// Reading one member whose key and value are both string tokens: the key
/// comes back as itself, and the value's body unescapes to the content.
#[verifier::rlimit(60)]
proof fn lemma_member_string(s: Seq<char>, p: int, key: Seq<char>, content: Seq<char>)
    requires
        0 <= p,
        escape_seq(key) == key,
        p + key.len() + escape_seq(content).len() + 5 <= s.len(),
        s.subrange(p, p + key.len() as int + escape_seq(content).len() as int + 5) == seq!['"']
            + key + seq!['"', ':', '"'] + escape_seq(content) + seq!['"'],
    ensures
        crate::restore::spec_parse_key(s, p) == Some((key, p + key.len() + 3)),
        s[p + key.len() + 3] == '"',
        spec_parse_string(s, p + key.len() + 4, Seq::empty()) == Some(
            (content, p + key.len() + escape_seq(content).len() + 5),
        ),
{
    let lk = key.len() as int;
    let le = escape_seq(content).len() as int;
    let seg = s.subrange(p, p + lk + le + 5);
    let pat = seq!['"'] + key + seq!['"', ':', '"'] + escape_seq(content) + seq!['"'];
    assert(seg[0] == s[p] && seg[0] == pat[0]);
    assert(s[p] == '"');
    assert(crate::parse::spec_skip_ws(s, p) == p);
    assert(s.subrange(p + 1, p + 1 + lk + 1) =~= escape_seq(key) + seq!['"']) by {
        assert forall|k: int| 0 <= k < lk + 1 implies s.subrange(p + 1, p + 1 + lk + 1)[k] == (
        escape_seq(key) + seq!['"'])[k] by {
            assert(s.subrange(p + 1, p + 1 + lk + 1)[k] == s[p + 1 + k]);
            assert(seg[1 + k] == s[p + (1 + k)] && seg[1 + k] == pat[1 + k]);
        }
    }
    lemma_parse_string_unescape(s, p + 1, key, Seq::empty());
    assert(Seq::<char>::empty() + key =~= key);
    assert(seg[lk + 2] == s[p + (lk + 2)] && seg[lk + 2] == pat[lk + 2]);
    assert(s[p + lk + 2] == ':');
    assert(crate::parse::spec_skip_ws(s, p + lk + 2) == p + lk + 2);
    assert(seg[lk + 3] == s[p + (lk + 3)] && seg[lk + 3] == pat[lk + 3]);
    assert(s[p + lk + 3] == '"');
    assert(crate::parse::spec_skip_ws(s, p + lk + 3) == p + lk + 3);
    assert(crate::restore::spec_parse_key(s, p) == Some((key, p + lk + 3)));
    assert(s.subrange(p + lk + 4, p + lk + 4 + le + 1) =~= escape_seq(content) + seq!['"']) by {
        assert forall|k: int|
            0 <= k < le + 1 implies s.subrange(p + lk + 4, p + lk + 4 + le + 1)[k] == (escape_seq(
            content,
        ) + seq!['"'])[k] by {
            assert(s.subrange(p + lk + 4, p + lk + 4 + le + 1)[k] == s[p + lk + 4 + k]);
            assert(seg[lk + 4 + k] == s[p + (lk + 4 + k)] && seg[lk + 4 + k] == pat[lk + 4 + k]);
        }
    }
    lemma_parse_string_unescape(s, p + lk + 4, content, Seq::empty());
    assert(Seq::<char>::empty() + content =~= content);
}

/// The scan record's text, its characters grouped by member.
proof fn lemma_scan_json_shape(v: crate::scan::ScanView)
    ensures
        ({
            let s = crate::serialize::scan_json(v);
            let j1 = crate::json::json_string(v.id);
            let j2 = crate::json::json_string(v.url);
            let j3 = crate::json::json_string(crate::serialize::kind_str(v.kind));
            let bb = crate::json::bool_str(v.complete);
            let q2 = 6 + j1.len() as int;
            let q4 = q2 + 7 + j2.len() as int;
            let q6 = q4 + 13 + j3.len() as int;
            let q8 = q6 + 12 + bb.len() as int;
            &&& s.len() == q8 + 1
            &&& s.subrange(0, 6) == "{\"id\":"@
            &&& s.subrange(6, q2) == j1
            &&& s.subrange(q2, q2 + 7) == ",\"url\":"@
            &&& s.subrange(q2 + 7, q4) == j2
            &&& s.subrange(q4, q4 + 13) == ",\"scan_type\":"@
            &&& s.subrange(q4 + 13, q6) == j3
            &&& s.subrange(q6, q6 + 12) == ",\"complete\":"@
            &&& s.subrange(q6 + 12, q8) == bb
            &&& s.subrange(q8, q8 + 1) == "}"@
        }),
{
    let s = crate::serialize::scan_json(v);
    let a0 = "{\"id\":"@;
    let a1 = ",\"url\":"@;
    let a2 = ",\"scan_type\":"@;
    let a3 = ",\"complete\":"@;
    let a4 = "}"@;
    reveal_strlit("{\"id\":");
    reveal_strlit(",\"url\":");
    reveal_strlit(",\"scan_type\":");
    reveal_strlit(",\"complete\":");
    reveal_strlit("}");
    let j1 = crate::json::json_string(v.id);
    let j2 = crate::json::json_string(v.url);
    let j3 = crate::json::json_string(crate::serialize::kind_str(v.kind));
    let bb = crate::json::bool_str(v.complete);
    let c1 = a0 + j1;
    let c2 = c1 + a1;
    let c3 = c2 + j2;
    let c4 = c3 + a2;
    let c5 = c4 + j3;
    let c6 = c5 + a3;
    let c7 = c6 + bb;
    assert(s == c7 + a4);
    let q2 = 6 + j1.len() as int;
    let q4 = q2 + 7 + j2.len() as int;
    let q6 = q4 + 13 + j3.len() as int;
    let q8 = q6 + 12 + bb.len() as int;
    assert(s.subrange(0, 6) =~= a0);
    assert(s.subrange(6, q2) =~= j1);
    assert(s.subrange(q2, q2 + 7) =~= a1);
    assert(s.subrange(q2 + 7, q4) =~= j2);
    assert(s.subrange(q4, q4 + 13) =~= a2);
    assert(s.subrange(q4 + 13, q6) =~= j3);
    assert(s.subrange(q6, q6 + 12) =~= a3);
    assert(s.subrange(q6 + 12, q8) =~= bb);
    assert(s.subrange(q8, q8 + 1) =~= a4);
}

/// One member whose text stands at `p`: a comma behind it at `p - 1` is the
/// caller's business; here the key and the string value are read.
#[verifier::rlimit(100)]
proof fn lemma_rt_member(s: Seq<char>, p: int, lit: Seq<char>, key: Seq<char>, content: Seq<char>)
    requires
        0 <= p,
        escape_seq(key) == key,
        lit == seq!['"'] + key + seq!['"', ':'],
        p + lit.len() <= s.len(),
        s.subrange(p, p + lit.len() as int) == lit,
        p + lit.len() + escape_seq(content).len() + 2 <= s.len(),
        s.subrange(
            p + lit.len() as int,
            p + lit.len() as int + escape_seq(content).len() as int + 2,
        ) == crate::json::json_string(content),
    ensures
        crate::restore::spec_parse_key(s, p) == Some((key, p + key.len() + 3)),
        spec_parse_string(s, p + key.len() + 4, Seq::empty()) == Some(
            (content, p + key.len() + escape_seq(content).len() + 5),
        ),
        s[p + key.len() + 3] == '"',
{
    let lk = key.len() as int;
    let le = escape_seq(content).len() as int;
    let seg = s.subrange(p, p + lk + 3);
    assert(seg =~= s.subrange(p, p + lit.len() as int).subrange(0, lk + 3)) by {
        assert forall|k: int| 0 <= k < lk + 3 implies #[trigger] seg[k] == s.subrange(
            p,
            p + lit.len() as int,
        )[k] by {
            assert(seg[k] == s[p + k]);
            assert(s.subrange(p, p + lit.len() as int)[k] == s[p + k]);
        }
    }
    assert(s.subrange(p, p + lk + le + 5) == seq!['"'] + key + seq!['"', ':', '"']
        + escape_seq(content) + seq!['"']) by {
        let whole = s.subrange(p, p + lk + le + 5);
        let pat = seq!['"'] + key + seq!['"', ':', '"'] + escape_seq(content) + seq!['"'];
        assert forall|k: int| 0 <= k < lk + le + 5 implies #[trigger] whole[k] == pat[k] by {
            assert(whole[k] == s[p + k]);
            if k < lk + 3 {
                assert(s.subrange(p, p + lit.len() as int)[k] == s[p + k]);
            } else {
                assert(s.subrange(
                    p + lit.len() as int,
                    p + lit.len() as int + le + 2,
                )[k - (lk + 3)] == s[p + lit.len() as int + (k - (lk + 3))]);
                assert(crate::json::json_string(content)[k - (lk + 3)] == pat[k]);
            }
        }
        assert(whole =~= pat);
    }
    lemma_member_string(s, p, key, content);
}

/// The comma-and-key text of the completion member, and its boolean value,
/// as the reader sees them.
#[verifier::rlimit(100)]
proof fn lemma_rt_bool(s: Seq<char>, p: int, b: bool)
    requires
        0 <= p,
        p + 12 + crate::json::bool_str(b).len() <= s.len(),
        s.subrange(p, p + 12) == ",\"complete\":"@,
        s.subrange(p + 12, p + 12 + crate::json::bool_str(b).len() as int) == crate::json::bool_str(
            b,
        ),
    ensures
        s[p] == ',',
        crate::restore::spec_parse_key(s, p + 1) == Some(("complete"@, p + 12)),
        crate::parse::spec_skip_value(s, p + 12) == Some(
            p + 12 + crate::json::bool_str(b).len() as int,
        ),
        (s[p + 12] == 't') == b,
        s[p + 12] == 't' || s[p + 12] == 'f',
{
    reveal_strlit(",\"complete\":");
    reveal_strlit("complete");
    reveal_strlit("true");
    reveal_strlit("false");
    let a3 = ",\"complete\":"@;
    let seg = s.subrange(p, p + 12);
    assert(seg[0] == s[p] && seg[0] == a3[0]);
    assert(seg[1] == s[p + 1] && seg[1] == a3[1]);
    assert(seg[11] == s[p + 11] && seg[11] == a3[11]);
    assert(s.subrange(p + 2, p + 11) =~= escape_seq("complete"@) + seq!['"']) by {
        lemma_plain_lit("complete"@);
        assert forall|k: int| 0 <= k < 9 implies #[trigger] s.subrange(p + 2, p + 11)[k] == a3[k
            + 2] by {
            assert(s.subrange(p + 2, p + 11)[k] == s[p + 2 + k]);
            assert(seg[k + 2] == s[p + (k + 2)]);
        }
    }
    lemma_plain_lit("complete"@);
    lemma_parse_string_unescape(s, p + 2, "complete"@, Seq::empty());
    assert(Seq::<char>::empty() + "complete"@ =~= "complete"@);
    assert(crate::parse::spec_skip_ws(s, p + 1) == p + 1);
    assert(crate::parse::spec_skip_ws(s, p + 11) == p + 11);
    let bb = crate::json::bool_str(b);
    let bseg = s.subrange(p + 12, p + 12 + bb.len() as int);
    assert(bseg[0] == s[p + 12] && bseg[0] == bb[0]);
    assert(crate::parse::spec_skip_ws(s, p + 12) == p + 12);
    assert(crate::restore::spec_parse_key(s, p + 1) == Some(("complete"@, p + 12)));
    if b {
        assert(bseg[1] == s[p + 13] && bseg[1] == bb[1]);
        assert(bseg[2] == s[p + 14] && bseg[2] == bb[2]);
        assert(bseg[3] == s[p + 15] && bseg[3] == bb[3]);
        assert(s[p + 12] == 't' && s[p + 13] == 'r' && s[p + 14] == 'u' && s[p + 15] == 'e');
        assert(crate::parse::spec_skip_value(s, p + 12) == Some(p + 16));
    } else {
        assert(bseg[1] == s[p + 13] && bseg[1] == bb[1]);
        assert(bseg[2] == s[p + 14] && bseg[2] == bb[2]);
        assert(bseg[3] == s[p + 15] && bseg[3] == bb[3]);
        assert(bseg[4] == s[p + 16] && bseg[4] == bb[4]);
        assert(s[p + 12] == 'f' && s[p + 13] == 'a' && s[p + 14] == 'l' && s[p + 15] == 's' && s[p
            + 16] == 'e');
        assert(crate::parse::spec_skip_value(s, p + 12) == Some(p + 17));
    }
}

/// Walking a scan record's members: with each member's reading given, the
/// record resolves to the four fields.
#[verifier::rlimit(100)]
proof fn lemma_rt_walk(
    s: Seq<char>,
    idv: Seq<char>,
    urlv: Seq<char>,
    kind: crate::scan::ScanType,
    complete: bool,
    q2: int,
    q4: int,
    q6: int,
    q8: int,
)
    requires
        8 <= q2,
        q2 + 8 <= q4,
        q4 + 14 <= q6,
        q6 + 12 < q8,
        s.len() == q8 + 1,
        s[0] == '{',
        s[1] == '"',
        crate::restore::spec_parse_key(s, 1) == Some(("id"@, 6int)),
        s[6] == '"',
        spec_parse_string(s, 7, Seq::empty()) == Some((idv, q2)),
        s[q2] == ',',
        crate::restore::spec_parse_key(s, q2 + 1) == Some(("url"@, q2 + 7)),
        s[q2 + 7] == '"',
        spec_parse_string(s, q2 + 8, Seq::empty()) == Some((urlv, q4)),
        s[q4] == ',',
        crate::restore::spec_parse_key(s, q4 + 1) == Some(("scan_type"@, q4 + 13)),
        s[q4 + 13] == '"',
        (spec_parse_string(s, q4 + 14, Seq::empty()) == Some(
            (crate::serialize::kind_str(kind), q6),
        )),
        s[q6] == ',',
        crate::restore::spec_parse_key(s, q6 + 1) == Some(("complete"@, q6 + 12)),
        crate::parse::spec_skip_value(s, q6 + 12) == Some(q8),
        (s[q6 + 12] == 't') == complete,
        s[q6 + 12] == 't' || s[q6 + 12] == 'f',
        s[q8] == '}',
    ensures
        crate::restore::spec_scan_from_json(s) == Some(
            crate::restore::ScanRecord { id: Some(idv), url: urlv, kind, complete },
        ),
{
    reveal_strlit("id");
    reveal_strlit("url");
    reveal_strlit("scan_type");
    reveal_strlit("complete");
    reveal_strlit("File");
    reveal_strlit("Directory");
    let q9 = q8 + 1;
    let ks = crate::serialize::kind_str(kind);
    assert("id"@.len() == 2 && "url"@.len() == 3 && "scan_type"@.len() == 9 && "complete"@.len()
        == 8);
    assert(crate::parse::spec_skip_ws(s, 0) == 0);
    assert(crate::parse::spec_skip_ws(s, 1) == 1);
    assert(crate::parse::spec_skip_ws(s, q2) == q2);
    assert(crate::parse::spec_skip_ws(s, q4) == q4);
    assert(crate::parse::spec_skip_ws(s, q6) == q6);
    assert(crate::parse::spec_skip_ws(s, q8) == q8);
    assert(crate::parse::spec_skip_ws(s, q9) == q9);
    match kind {
        crate::scan::ScanType::File => {
            assert("File"@.len() == 4 && "Directory"@.len() == 9);
            assert(ks == "File"@ && "File"@ != "Directory"@);
        },
        crate::scan::ScanType::Directory => {
            assert(ks == "Directory"@);
        },
    }
    assert(crate::restore::kind_of_str(ks) == kind);
    let rec0 = crate::restore::default_scan_record();
    let rec1 = crate::restore::ScanRecord { id: Some(idv), ..rec0 };
    let rec2 = crate::restore::ScanRecord { url: urlv, ..rec1 };
    let rec3 = crate::restore::ScanRecord { kind, ..rec2 };
    let rec4 = crate::restore::ScanRecord { complete, ..rec3 };
    assert(crate::restore::scan_apply(s, q6 + 12, "complete"@, rec3) == Some((rec4, q8)));
    assert(crate::restore::parse_scan_members(s, q6 + 1, rec3) == Some((rec4, q9)));
    assert(crate::restore::scan_apply(s, q4 + 13, "scan_type"@, rec2) == Some((rec3, q6)));
    assert(crate::restore::parse_scan_members(s, q4 + 1, rec2) == Some((rec4, q9)));
    assert(crate::restore::scan_apply(s, q2 + 7, "url"@, rec1) == Some((rec2, q4)));
    assert(crate::restore::parse_scan_members(s, q2 + 1, rec1) == Some((rec4, q9)));
    assert(crate::restore::scan_apply(s, 6, "id"@, rec0) == Some((rec1, q2)));
    assert(crate::restore::parse_scan_members(s, 1, rec0) == Some((rec4, q9)));
    assert(crate::restore::spec_parse_scan_record(s, 0) == Some((rec4, q9)));
    assert(crate::restore::spec_scan_from_json(s) == Some(rec4));
}

/// What the reader finds at the id member of a scan record's text, and at
/// the record's opening.
#[verifier::rlimit(100)]
proof fn lemma_rt_id_member(v: crate::scan::ScanView)
    ensures
        ({
            let s = crate::serialize::scan_json(v);
            let q2 = 6 + crate::json::json_string(v.id).len() as int;
            &&& s[0] == '{'
            &&& s[1] == '"'
            &&& crate::restore::spec_parse_key(s, 1) == Some(("id"@, 6int))
            &&& s[6] == '"'
            &&& spec_parse_string(s, 7, Seq::empty()) == Some((v.id, q2))
        }),
{
    reveal_strlit("{\"id\":");
    reveal_strlit("id");
    let s = crate::serialize::scan_json(v);
    lemma_scan_json_shape(v);
    lemma_plain_lit("id"@);
    assert(s.subrange(0, 6)[0] == s[0] && s.subrange(0, 6)[1] == s[1]);
    assert(s[0] == '{' && s[1] == '"');
    assert(s.subrange(1, 6) =~= seq!['"'] + "id"@ + seq!['"', ':']) by {
        assert forall|k: int| 0 <= k < 5 implies #[trigger] s.subrange(1, 6)[k] == s.subrange(
            0,
            6,
        )[k + 1] by {
            assert(s.subrange(1, 6)[k] == s[1 + k]);
            assert(s.subrange(0, 6)[k + 1] == s[0 + (k + 1)]);
        }
    }
    lemma_rt_member(s, 1, seq!['"'] + "id"@ + seq!['"', ':'], "id"@, v.id);
}

/// What the reader finds at the url member of a scan record's text.
#[verifier::rlimit(100)]
proof fn lemma_rt_url_member(v: crate::scan::ScanView)
    ensures
        ({
            let s = crate::serialize::scan_json(v);
            let q2 = 6 + crate::json::json_string(v.id).len() as int;
            let q4 = q2 + 7 + crate::json::json_string(v.url).len() as int;
            &&& s[q2] == ','
            &&& crate::restore::spec_parse_key(s, q2 + 1) == Some(("url"@, q2 + 7))
            &&& s[q2 + 7] == '"'
            &&& spec_parse_string(s, q2 + 8, Seq::empty()) == Some((v.url, q4))
        }),
{
    reveal_strlit(",\"url\":");
    reveal_strlit("url");
    let s = crate::serialize::scan_json(v);
    let q2 = 6 + crate::json::json_string(v.id).len() as int;
    lemma_scan_json_shape(v);
    lemma_plain_lit("url"@);
    assert(s.subrange(q2, q2 + 7)[0] == s[q2]);
    assert(s[q2] == ',');
    assert(s.subrange(q2 + 1, q2 + 7) =~= seq!['"'] + "url"@ + seq!['"', ':']) by {
        assert forall|k: int| 0 <= k < 6 implies #[trigger] s.subrange(q2 + 1, q2 + 7)[k]
            == s.subrange(q2, q2 + 7)[k + 1] by {
            assert(s.subrange(q2 + 1, q2 + 7)[k] == s[q2 + 1 + k]);
            assert(s.subrange(q2, q2 + 7)[k + 1] == s[q2 + (k + 1)]);
        }
    }
    lemma_rt_member(s, q2 + 1, seq!['"'] + "url"@ + seq!['"', ':'], "url"@, v.url);
}

/// What the reader finds at the scan_type member of a scan record's text.
#[verifier::rlimit(100)]
proof fn lemma_rt_kind_member(v: crate::scan::ScanView)
    ensures
        ({
            let s = crate::serialize::scan_json(v);
            let ks = crate::serialize::kind_str(v.kind);
            let q2 = 6 + crate::json::json_string(v.id).len() as int;
            let q4 = q2 + 7 + crate::json::json_string(v.url).len() as int;
            let q6 = q4 + 13 + crate::json::json_string(ks).len() as int;
            &&& s[q4] == ','
            &&& crate::restore::spec_parse_key(s, q4 + 1) == Some(("scan_type"@, q4 + 13))
            &&& s[q4 + 13] == '"'
            &&& spec_parse_string(s, q4 + 14, Seq::empty()) == Some((ks, q6))
        }),
{
    reveal_strlit(",\"scan_type\":");
    reveal_strlit("scan_type");
    let s = crate::serialize::scan_json(v);
    let ks = crate::serialize::kind_str(v.kind);
    let q2 = 6 + crate::json::json_string(v.id).len() as int;
    let q4 = q2 + 7 + crate::json::json_string(v.url).len() as int;
    lemma_scan_json_shape(v);
    lemma_plain_lit("scan_type"@);
    assert(s.subrange(q4, q4 + 13)[0] == s[q4]);
    assert(s[q4] == ',');
    assert(s.subrange(q4 + 1, q4 + 13) =~= seq!['"'] + "scan_type"@ + seq!['"', ':']) by {
        assert forall|k: int| 0 <= k < 12 implies #[trigger] s.subrange(q4 + 1, q4 + 13)[k]
            == s.subrange(q4, q4 + 13)[k + 1] by {
            assert(s.subrange(q4 + 1, q4 + 13)[k] == s[q4 + 1 + k]);
            assert(s.subrange(q4, q4 + 13)[k + 1] == s[q4 + (k + 1)]);
        }
    }
    lemma_rt_member(s, q4 + 1, seq!['"'] + "scan_type"@ + seq!['"', ':'], "scan_type"@, ks);
}

/// What the reader finds at the completion member and the record's close.
#[verifier::rlimit(100)]
proof fn lemma_rt_complete_member(v: crate::scan::ScanView)
    ensures
        ({
            let s = crate::serialize::scan_json(v);
            let ks = crate::serialize::kind_str(v.kind);
            let q2 = 6 + crate::json::json_string(v.id).len() as int;
            let q4 = q2 + 7 + crate::json::json_string(v.url).len() as int;
            let q6 = q4 + 13 + crate::json::json_string(ks).len() as int;
            let q8 = q6 + 12 + crate::json::bool_str(v.complete).len() as int;
            &&& s.len() == q8 + 1
            &&& s[q6] == ','
            &&& crate::restore::spec_parse_key(s, q6 + 1) == Some(("complete"@, q6 + 12))
            &&& crate::parse::spec_skip_value(s, q6 + 12) == Some(q8)
            &&& (s[q6 + 12] == 't') == v.complete
            &&& (s[q6 + 12] == 't' || s[q6 + 12] == 'f')
            &&& s[q8] == '}'
        }),
{
    reveal_strlit("}");
    let s = crate::serialize::scan_json(v);
    let ks = crate::serialize::kind_str(v.kind);
    let q2 = 6 + crate::json::json_string(v.id).len() as int;
    let q4 = q2 + 7 + crate::json::json_string(v.url).len() as int;
    let q6 = q4 + 13 + crate::json::json_string(ks).len() as int;
    let q8 = q6 + 12 + crate::json::bool_str(v.complete).len() as int;
    lemma_scan_json_shape(v);
    lemma_rt_bool(s, q6, v.complete);
    assert(s.subrange(q8, q8 + 1)[0] == s[q8]);
    assert("}"@[0] == '}');
    assert(s[q8] == '}');
}

/// Writing a scan out and reading the record back reproduces the id, the
/// url, the kind and the completion flag exactly.
#[verifier::rlimit(100)]
pub proof fn lemma_scan_json_round_trip(v: crate::scan::ScanView)
    ensures
        crate::restore::spec_scan_from_json(crate::serialize::scan_json(v)) == Some(
            crate::restore::ScanRecord {
                id: Some(v.id),
                url: v.url,
                kind: v.kind,
                complete: v.complete,
            },
        ),
{
    let s = crate::serialize::scan_json(v);
    let ks = crate::serialize::kind_str(v.kind);
    let q2 = 6 + crate::json::json_string(v.id).len() as int;
    let q4 = q2 + 7 + crate::json::json_string(v.url).len() as int;
    let q6 = q4 + 13 + crate::json::json_string(ks).len() as int;
    let q8 = q6 + 12 + crate::json::bool_str(v.complete).len() as int;
    lemma_rt_id_member(v);
    lemma_rt_url_member(v);
    lemma_rt_kind_member(v);
    lemma_rt_complete_member(v);
    assert(crate::json::json_string(v.id).len() >= 2);
    assert(crate::json::json_string(v.url).len() >= 2);
    assert(crate::json::json_string(ks).len() >= 2);
    assert(crate::json::bool_str(v.complete).len() >= 1) by {
        reveal_strlit("true");
        reveal_strlit("false");
    }
    lemma_rt_walk(s, v.id, v.url, v.kind, v.complete, q2, q4, q6, q8);
}

/// Registering a scan for a new URL appends it and makes the registry
/// contain that URL, so a second scan for the same URL — whatever its id —
/// is refused by `insert`'s contract and the registry is left as it stands.
pub proof fn lemma_insert_deduplicates(
    pre: Seq<crate::scan::ScanView>,
    a: crate::scan::ScanView,
    b: crate::scan::ScanView,
)
    requires
        !crate::registry::contains_url(pre, a.url),
        b.url == a.url,
    ensures
        crate::registry::contains_url(pre.push(a), a.url),
        crate::registry::contains_url(pre.push(a), b.url),
        pre.push(a).len() == pre.len() + 1,
{
    assert(pre.push(a)[pre.len() as int] == a);
}

/// Scan identity is the id alone: what `==` means for scans is that the ids
/// are equal, whatever the URLs and the rest of the state hold.
pub proof fn lemma_scan_equality_is_id(a: &crate::scan::FeroxScan, b: &crate::scan::FeroxScan)
    ensures
        a.eq_spec(b) == (a.id@ == b.id@),
{
}

/// Cache membership goes by the URL alone: two responses with the same URL
/// are contained under exactly the same cache states, whatever their status,
/// sizes or headers, and a stored entry witnesses its own URL.
pub proof fn lemma_cache_contains_url_only(
    views: Seq<crate::response::ResponseView>,
    a: crate::response::ResponseView,
    b: crate::response::ResponseView,
)
    requires
        a.url == b.url,
    ensures
        crate::response::contains_response_url(views, a.url) == crate::response::contains_response_url(
            views,
            b.url,
        ),
        crate::response::contains_response_url(views.push(a), b.url),
{
    assert(views.push(a)[views.len() as int] == a);
}

/// A scan id of lowercase hexadecimal digits — the only shape `new_scan_id`
/// draws — needs no escaping: its record text carries it verbatim, so the
/// serialized scan is exactly the four fields with the id substituted as it
/// stands.
pub proof fn lemma_hex_id_text_verbatim(id: Seq<char>)
    requires
        forall|k: int| 0 <= k < id.len() ==> crate::scan::is_hex_id_char(#[trigger] id[k]),
    ensures
        crate::json::json_string(id) == seq!['"'] + id + seq!['"'],
{
    assert forall|k: int| 0 <= k < id.len() implies escape_char(#[trigger] id[k]) == seq![
        id[k],
    ] by {
        let c = id[k];
        assert(c != '"' && c != '\\');
        assert(!((c as int) < 0x20));
    }
    lemma_escape_plain(id);
}

} // verus!


