//! Reading checkpoint records back in: scan records, response records, and
//! the whole state file. The reading is tolerant by design: a scan record
//! takes each recognised, well-typed field and leaves the rest at their
//! defaults, so one bad field never costs the whole record.

use vstd::prelude::*;
use vstd::string::StrSliceExecFns;

use crate::parse::is_dec_digit;
use crate::parse::skip_value;
use crate::parse::skip_ws;
use crate::parse::spec_parse_string;
use crate::parse::spec_skip_value;
use crate::parse::spec_skip_ws;
use crate::parse::lemma_parse_string_advances;
use crate::parse::lemma_skip_value_advances;
use crate::parse::lemma_skip_ws_bounds;
use crate::parse::parse_string;
use crate::scan::FeroxScan;
use crate::scan::ScanType;
use crate::scan::new_scan_id;
use crate::text::chars_to_string;
use crate::text::str_to_chars;

verus! {

/// The four persisted fields of a scan record, as read from a checkpoint.
/// A missing or ill-typed id is `None`: the scan then draws a fresh one.
pub struct ScanRecord {
    pub id: Option<Seq<char>>,
    pub url: Seq<char>,
    pub kind: ScanType,
    pub complete: bool,
}

/// A record with every field at its default.
pub open spec fn default_scan_record() -> ScanRecord {
    ScanRecord { id: None, url: Seq::empty(), kind: ScanType::File, complete: false }
}

/// What a scan_type string means: the two known kinds, and File for anything
/// unrecognised.
pub open spec fn kind_of_str(v: Seq<char>) -> ScanType {
    if v == "Directory"@ {
        ScanType::Directory
    } else {
        ScanType::File
    }
}

/// Read one member key: leading whitespace, the key string, whitespace, and
/// the colon. The key and the position where the value starts.
pub open spec fn spec_parse_key(s: Seq<char>, i: int) -> Option<(Seq<char>, int)> {
    let k0 = spec_skip_ws(s, i);
    if 0 <= k0 < s.len() && s[k0] == '"' {
        match spec_parse_string(s, k0 + 1, Seq::empty()) {
            Some((key, k1)) => {
                let k2 = spec_skip_ws(s, k1);
                if 0 <= k2 < s.len() && s[k2] == ':' {
                    Some((key, spec_skip_ws(s, k2 + 1)))
                } else {
                    None
                }
            },
            None => None,
        }
    } else {
        None
    }
}

/// Reading a key moves strictly forwards.
pub proof fn lemma_parse_key_advances(s: Seq<char>, i: int)
    requires
        0 <= i <= s.len(),
    ensures
        (spec_parse_key(s, i) matches Some(p) ==> i < p.1 <= s.len()),
{
    lemma_skip_ws_bounds(s, i);
    let k0 = spec_skip_ws(s, i);
    if 0 <= k0 < s.len() && s[k0] == '"' {
        lemma_parse_string_advances(s, k0 + 1, Seq::empty());
        match spec_parse_string(s, k0 + 1, Seq::empty()) {
            Some((key, k1)) => {
                lemma_skip_ws_bounds(s, k1);
                let k2 = spec_skip_ws(s, k1);
                if 0 <= k2 < s.len() && s[k2] == ':' {
                    lemma_skip_ws_bounds(s, k2 + 1);
                }
            },
            None => {},
        }
    }
}

/// Read one member key: leading whitespace, the key string, whitespace, and
/// the colon.
pub fn parse_key(chars: &Vec<char>, i: usize) -> (r: Option<(Vec<char>, usize)>)
    requires
        i <= chars@.len(),
    ensures
        (r matches Some(p) ==> spec_parse_key(chars@, i as int) == Some((p.0@, p.1 as int)) && i
            < p.1 <= chars@.len()),
        (r is None ==> spec_parse_key(chars@, i as int) is None),
{
    proof {
        lemma_parse_key_advances(chars@, i as int);
    }
    let n = chars.len();
    let k0 = skip_ws(chars, i);
    if k0 >= n || chars[k0] != '"' {
        return None;
    }
    match parse_string(chars, k0 + 1) {
        Some((key, k1)) => {
            let k2 = skip_ws(chars, k1);
            if k2 >= n || chars[k2] != ':' {
                return None;
            }
            let v = skip_ws(chars, k2 + 1);
            Some((key, v))
        },
        None => None,
    }
}

/// Apply one scan-record member: a recognised key with a well-typed value
/// sets its field, an unrecognised scan_type string means File, and anything
/// else is passed over, the field keeping its earlier value. The updated
/// record and the position after the value.
pub open spec fn scan_apply(s: Seq<char>, v: int, key: Seq<char>, rec: ScanRecord) -> Option<
    (ScanRecord, int),
> {
    if key == "id"@ && 0 <= v < s.len() && s[v] == '"' {
        match spec_parse_string(s, v + 1, Seq::empty()) {
            Some((val, k)) => Some((ScanRecord { id: Some(val), ..rec }, k)),
            None => None,
        }
    } else if key == "url"@ && 0 <= v < s.len() && s[v] == '"' {
        match spec_parse_string(s, v + 1, Seq::empty()) {
            Some((val, k)) => Some((ScanRecord { url: val, ..rec }, k)),
            None => None,
        }
    } else if key == "scan_type"@ && 0 <= v < s.len() && s[v] == '"' {
        match spec_parse_string(s, v + 1, Seq::empty()) {
            Some((val, k)) => Some((ScanRecord { kind: kind_of_str(val), ..rec }, k)),
            None => None,
        }
    } else if key == "complete"@ && 0 <= v < s.len() && (s[v] == 't' || s[v] == 'f') {
        match spec_skip_value(s, v) {
            Some(k) => Some((ScanRecord { complete: s[v] == 't', ..rec }, k)),
            None => None,
        }
    } else {
        match spec_skip_value(s, v) {
            Some(k) => Some((rec, k)),
            None => None,
        }
    }
}

/// Applying a member moves strictly forwards from the value.
pub proof fn lemma_scan_apply_advances(s: Seq<char>, v: int, key: Seq<char>, rec: ScanRecord)
    ensures
        (scan_apply(s, v, key, rec) matches Some(p) ==> v < p.1 <= s.len()),
{
    lemma_skip_value_advances(s, v);
    if 0 <= v < s.len() && s[v] == '"' {
        lemma_parse_string_advances(s, v + 1, Seq::empty());
    }
}

/// Read the members of a scan record from just after the opening brace (or a
/// comma), applying each to `rec`, until the closing brace. Later members
/// win over earlier ones.
pub open spec fn parse_scan_members(s: Seq<char>, i: int, rec: ScanRecord) -> Option<
    (ScanRecord, int),
>
    decreases s.len() - i,
{
    match spec_parse_key(s, i) {
        Some((key, v)) => match scan_apply(s, v, key, rec) {
            Some((rec2, k4)) => {
                let k5 = spec_skip_ws(s, k4);
                if 0 <= k5 < s.len() && s[k5] == ',' {
                    if i < k5 + 1 <= s.len() {
                        parse_scan_members(s, k5 + 1, rec2)
                    } else {
                        None
                    }
                } else if 0 <= k5 < s.len() && s[k5] == '}' {
                    Some((rec2, k5 + 1))
                } else {
                    None
                }
            },
            None => None,
        },
        None => None,
    }
}

/// Read a whole scan record: an object whose recognised members set the
/// record's fields and whose other members are passed over. The record and
/// the position after the closing brace; nothing if the text there is not an
/// object.
pub open spec fn spec_parse_scan_record(s: Seq<char>, i: int) -> Option<(ScanRecord, int)> {
    if 0 <= i < s.len() && s[i] == '{' {
        let k = spec_skip_ws(s, i + 1);
        if 0 <= k < s.len() && s[k] == '}' {
            Some((default_scan_record(), k + 1))
        } else {
            parse_scan_members(s, i + 1, default_scan_record())
        }
    } else {
        None
    }
}

/// The scan-record fields carried in executable form.
pub struct ScanRecordData {
    pub id: Option<String>,
    pub url: String,
    pub kind: ScanType,
    pub complete: bool,
}

impl View for ScanRecordData {
    type V = ScanRecord;

    open spec fn view(&self) -> ScanRecord {
        ScanRecord {
            id: match self.id {
                Some(ref s) => Some(s@),
                None => None,
            },
            url: self.url@,
            kind: self.kind,
            complete: self.complete,
        }
    }
}

/// Whether these characters spell exactly this string.
pub fn chars_eq_lit(v: &Vec<char>, s: &str) -> (r: bool)
    ensures
        r == (v@ == s@),
{
    let len = s.unicode_len();
    if v.len() != len {
        return false;
    }
    let mut i: usize = 0;
    while i < len
        invariant
            i <= len,
            len == s@.len(),
            len == v@.len(),
            forall|j: int| 0 <= j < i ==> v@[j] == s@[j],
        decreases len - i,
    {
        if v[i] != s.get_char(i) {
            return false;
        }
        i = i + 1;
    }
    proof {
        assert(v@ =~= s@);
    }
    true
}

/// Read a whole scan record at `i`.
pub fn parse_scan_record(chars: &Vec<char>, i: usize) -> (r: Option<(ScanRecordData, usize)>)
    requires
        i <= chars@.len(),
    ensures
        (r matches Some(p) ==> spec_parse_scan_record(chars@, i as int) == Some(
            (p.0@, p.1 as int),
        ) && i < p.1 <= chars@.len()),
        (r is None ==> spec_parse_scan_record(chars@, i as int) is None),
{
    let n = chars.len();
    if i >= n || chars[i] != '{' {
        return None;
    }
    let k = skip_ws(chars, i + 1);
    let mut data = ScanRecordData {
        id: None,
        url: String::new(),
        kind: ScanType::File,
        complete: false,
    };
    proof {
        assert(data@ == default_scan_record());
    }
    if k < n && chars[k] == '}' {
        return Some((data, k + 1));
    }
    let mut j: usize = i + 1;
    loop
        invariant
            i + 1 <= j <= n,
            n == chars@.len(),
            spec_parse_scan_record(chars@, i as int) == parse_scan_members(chars@, j as int, data@),
        decreases n - j,
    {
        let (key, v) = match parse_key(chars, j) {
            Some(p) => p,
            None => {
                return None;
            },
        };
        proof {
            lemma_scan_apply_advances(chars@, v as int, key@, data@);
        }
        let k4: usize;
        if chars_eq_lit(&key, "id") && v < n && chars[v] == '"' {
            match parse_string(chars, v + 1) {
                Some((val, k)) => {
                    data.id = Some(chars_to_string(&val));
                    k4 = k;
                },
                None => {
                    return None;
                },
            }
        } else if chars_eq_lit(&key, "url") && v < n && chars[v] == '"' {
            match parse_string(chars, v + 1) {
                Some((val, k)) => {
                    data.url = chars_to_string(&val);
                    k4 = k;
                },
                None => {
                    return None;
                },
            }
        } else if chars_eq_lit(&key, "scan_type") && v < n && chars[v] == '"' {
            match parse_string(chars, v + 1) {
                Some((val, k)) => {
                    data.kind = if chars_eq_lit(&val, "Directory") {
                        ScanType::Directory
                    } else {
                        ScanType::File
                    };
                    k4 = k;
                },
                None => {
                    return None;
                },
            }
        } else if chars_eq_lit(&key, "complete") && v < n && (chars[v] == 't' || chars[v] == 'f') {
            match skip_value(chars, v) {
                Some(k) => {
                    data.complete = chars[v] == 't';
                    k4 = k;
                },
                None => {
                    return None;
                },
            }
        } else {
            match skip_value(chars, v) {
                Some(k) => {
                    k4 = k;
                },
                None => {
                    return None;
                },
            }
        }
        let k5 = skip_ws(chars, k4);
        if k5 < n && chars[k5] == ',' {
            j = k5 + 1;
        } else if k5 < n && chars[k5] == '}' {
            return Some((data, k5 + 1));
        } else {
            return None;
        }
    }
}

/// What a whole text means as one scan record: optional whitespace, the
/// record, optional whitespace, and nothing more.
pub open spec fn spec_scan_from_json(s: Seq<char>) -> Option<ScanRecord> {
    let i = spec_skip_ws(s, 0);
    match spec_parse_scan_record(s, i) {
        Some((rec, k)) => {
            if spec_skip_ws(s, k) == s.len() {
                Some(rec)
            } else {
                None
            }
        },
        None => None,
    }
}

impl FeroxScan {
    /// Read a scan back from the JSON text of one record: recognised,
    /// well-typed fields are taken, everything else keeps its default, an
    /// unrecognised scan_type means File, and a missing id draws a fresh
    /// one. Nothing is returned when the text is not a single JSON object.
    pub fn from_json(s: &str) -> (r: Option<FeroxScan>)
        ensures
            (r is Some) == (spec_scan_from_json(s@) is Some),
            (r matches Some(scan) ==> {
                let rec = spec_scan_from_json(s@)->0;
                &&& scan@.url == rec.url
                &&& scan@.kind == rec.kind
                &&& scan@.complete == rec.complete
                &&& (rec.id matches Some(idv) ==> scan@.id == idv)
                &&& (rec.id is None ==> scan@.id.len() == 32)
                &&& scan.task is None
                &&& scan.progress_bar is None
            }),
    {
        let chars = str_to_chars(s);
        let i = skip_ws(&chars, 0);
        match parse_scan_record(&chars, i) {
            Some((data, k)) => {
                if skip_ws(&chars, k) != chars.len() {
                    return None;
                }
                let id = match data.id {
                    Some(idv) => idv,
                    None => new_scan_id(),
                };
                Some(
                    FeroxScan {
                        id,
                        url: data.url,
                        scan_type: data.kind,
                        complete: data.complete,
                        task: None,
                        progress_bar: None,
                    },
                )
            },
            None => None,
        }
    }
}

/// A response record with every field at its zero value.
pub open spec fn default_response_record() -> crate::response::ResponseView {
    crate::response::ResponseView {
        url: Seq::empty(),
        path: Seq::empty(),
        wildcard: false,
        status: 0,
        content_length: 0,
        line_count: 0,
        word_count: 0,
        headers: Seq::empty(),
    }
}

/// The value of an unsigned-integer token at `v`: a run of digits that the
/// number does not continue past. A signed, fractional, or exponent form is
/// no unsigned integer.
pub open spec fn uint_token(s: Seq<char>, v: int) -> Option<nat> {
    if 0 <= v < s.len() && is_dec_digit(s[v]) {
        let e = crate::parse::spec_digits_end(s, v);
        if e == crate::parse::spec_num_end(s, v) {
            Some(crate::parse::digits_val(s.subrange(v, e)))
        } else {
            None
        }
    } else {
        None
    }
}

/// Read the members of a headers object from just after its opening brace,
/// keeping each pair whose value is a string, in file order, and passing
/// over the rest.
pub open spec fn parse_header_members(
    s: Seq<char>,
    i: int,
    acc: Seq<(Seq<char>, Seq<char>)>,
) -> Option<(Seq<(Seq<char>, Seq<char>)>, int)>
    decreases s.len() - i,
{
    match spec_parse_key(s, i) {
        Some((key, v)) => {
            let step: Option<(Seq<(Seq<char>, Seq<char>)>, int)> = if 0 <= v < s.len() && s[v]
                == '"' {
                match spec_parse_string(s, v + 1, Seq::empty()) {
                    Some((val, k)) => Some((acc.push((key, val)), k)),
                    None => None,
                }
            } else {
                match spec_skip_value(s, v) {
                    Some(k) => Some((acc, k)),
                    None => None,
                }
            };
            match step {
                Some((acc2, k4)) => {
                    let k5 = spec_skip_ws(s, k4);
                    if 0 <= k5 < s.len() && s[k5] == ',' {
                        if i < k5 + 1 <= s.len() {
                            parse_header_members(s, k5 + 1, acc2)
                        } else {
                            None
                        }
                    } else if 0 <= k5 < s.len() && s[k5] == '}' {
                        Some((acc2, k5 + 1))
                    } else {
                        None
                    }
                },
                None => None,
            }
        },
        None => None,
    }
}

/// Read a headers object at `i`.
pub open spec fn spec_parse_headers(s: Seq<char>, i: int) -> Option<
    (Seq<(Seq<char>, Seq<char>)>, int),
> {
    if 0 <= i < s.len() && s[i] == '{' {
        let k = spec_skip_ws(s, i + 1);
        if 0 <= k < s.len() && s[k] == '}' {
            Some((Seq::empty(), k + 1))
        } else {
            parse_header_members(s, i + 1, Seq::empty())
        }
    } else {
        None
    }
}

/// Apply one response-record member: a recognised key with a well-typed
/// value sets its field (numbers must be unsigned integers within the
/// field's range), and anything else is passed over.
pub open spec fn response_apply(
    s: Seq<char>,
    v: int,
    key: Seq<char>,
    rec: crate::response::ResponseView,
) -> Option<(crate::response::ResponseView, int)> {
    if key == "url"@ && 0 <= v < s.len() && s[v] == '"' {
        match spec_parse_string(s, v + 1, Seq::empty()) {
            Some((val, k)) => Some((crate::response::ResponseView { url: val, ..rec }, k)),
            None => None,
        }
    } else if key == "path"@ && 0 <= v < s.len() && s[v] == '"' {
        match spec_parse_string(s, v + 1, Seq::empty()) {
            Some((val, k)) => Some((crate::response::ResponseView { path: val, ..rec }, k)),
            None => None,
        }
    } else if key == "wildcard"@ && 0 <= v < s.len() && (s[v] == 't' || s[v] == 'f') {
        match spec_skip_value(s, v) {
            Some(k) => Some(
                (crate::response::ResponseView { wildcard: s[v] == 't', ..rec }, k),
            ),
            None => None,
        }
    } else if key == "status"@ {
        match spec_skip_value(s, v) {
            Some(k) => {
                let rec2 = match uint_token(s, v) {
                    Some(val) => if val <= u16::MAX {
                        crate::response::ResponseView { status: val as u16, ..rec }
                    } else {
                        rec
                    },
                    None => rec,
                };
                Some((rec2, k))
            },
            None => None,
        }
    } else if key == "content_length"@ {
        match spec_skip_value(s, v) {
            Some(k) => {
                let rec2 = match uint_token(s, v) {
                    Some(val) => if val <= u64::MAX {
                        crate::response::ResponseView { content_length: val as u64, ..rec }
                    } else {
                        rec
                    },
                    None => rec,
                };
                Some((rec2, k))
            },
            None => None,
        }
    } else if key == "line_count"@ {
        match spec_skip_value(s, v) {
            Some(k) => {
                let rec2 = match uint_token(s, v) {
                    Some(val) => if val <= u64::MAX {
                        crate::response::ResponseView { line_count: val as u64, ..rec }
                    } else {
                        rec
                    },
                    None => rec,
                };
                Some((rec2, k))
            },
            None => None,
        }
    } else if key == "word_count"@ {
        match spec_skip_value(s, v) {
            Some(k) => {
                let rec2 = match uint_token(s, v) {
                    Some(val) => if val <= u64::MAX {
                        crate::response::ResponseView { word_count: val as u64, ..rec }
                    } else {
                        rec
                    },
                    None => rec,
                };
                Some((rec2, k))
            },
            None => None,
        }
    } else if key == "headers"@ && 0 <= v < s.len() && s[v] == '{' {
        match spec_parse_headers(s, v) {
            Some((hs, k)) => Some((crate::response::ResponseView { headers: hs, ..rec }, k)),
            None => None,
        }
    } else {
        match spec_skip_value(s, v) {
            Some(k) => Some((rec, k)),
            None => None,
        }
    }
}

/// Read the members of a response record from just after the opening brace,
/// applying each to `rec`, until the closing brace. A member `type` whose
/// value is the string `response` marks the object as a response record;
/// an object without that tag is no response record.
pub open spec fn parse_response_members(
    s: Seq<char>,
    i: int,
    rec: crate::response::ResponseView,
    tagged: bool,
) -> Option<((crate::response::ResponseView, bool), int)>
    decreases s.len() - i,
{
    match spec_parse_key(s, i) {
        Some((key, v)) => {
            let step: Option<((crate::response::ResponseView, bool), int)> = if key == "type"@ && 0
                <= v < s.len() && s[v] == '"' {
                match spec_parse_string(s, v + 1, Seq::empty()) {
                    Some((val, k)) => Some(((rec, tagged || val == "response"@), k)),
                    None => None,
                }
            } else {
                match response_apply(s, v, key, rec) {
                    Some((rec2, k4)) => Some(((rec2, tagged), k4)),
                    None => None,
                }
            };
            match step {
                Some(((rec2, tagged2), k4)) => {
                    let k5 = spec_skip_ws(s, k4);
                    if 0 <= k5 < s.len() && s[k5] == ',' {
                        if i < k5 + 1 <= s.len() {
                            parse_response_members(s, k5 + 1, rec2, tagged2)
                        } else {
                            None
                        }
                    } else if 0 <= k5 < s.len() && s[k5] == '}' {
                        Some(((rec2, tagged2), k5 + 1))
                    } else {
                        None
                    }
                },
                None => None,
            }
        },
        None => None,
    }
}

/// Read a whole response record at `i`: an object whose recognised members
/// set the record's fields, together with whether the object carries the
/// record tag `type: response`; nothing if the text there is not an object.
pub open spec fn spec_parse_response_record(s: Seq<char>, i: int) -> Option<
    ((crate::response::ResponseView, bool), int),
> {
    if 0 <= i < s.len() && s[i] == '{' {
        let k = spec_skip_ws(s, i + 1);
        if 0 <= k < s.len() && s[k] == '}' {
            Some(((default_response_record(), false), k + 1))
        } else {
            parse_response_members(s, i + 1, default_response_record(), false)
        }
    } else {
        None
    }
}

/// The characters of a range, as a string.
pub fn chars_range_to_string(chars: &Vec<char>, a: usize, b: usize) -> (r: String)
    requires
        a <= b <= chars@.len(),
    ensures
        r@ == chars@.subrange(a as int, b as int),
{
    let mut out: Vec<char> = Vec::new();
    let mut j = a;
    while j < b
        invariant
            a <= j <= b <= chars@.len(),
            out@ == chars@.subrange(a as int, j as int),
        decreases b - j,
    {
        out.push(chars[j]);
        proof {
            assert(out@ =~= chars@.subrange(a as int, j + 1 as int));
        }
        j = j + 1;
    }
    chars_to_string(&out)
}

/// Read a headers object at `i`.
pub fn parse_headers(chars: &Vec<char>, i: usize) -> (r: Option<(Vec<(String, String)>, usize)>)
    requires
        i <= chars@.len(),
    ensures
        (r matches Some(p) ==> spec_parse_headers(chars@, i as int) == Some(
            (p.0@.map_values(|h: (String, String)| (h.0@, h.1@)), p.1 as int),
        ) && i < p.1 <= chars@.len()),
        (r is None ==> spec_parse_headers(chars@, i as int) is None),
{
    let n = chars.len();
    if i >= n || chars[i] != '{' {
        return None;
    }
    let k = skip_ws(chars, i + 1);
    let mut out: Vec<(String, String)> = Vec::new();
    proof {
        assert(out@.map_values(|h: (String, String)| (h.0@, h.1@)) =~= Seq::<
            (Seq<char>, Seq<char>),
        >::empty());
    }
    if k < n && chars[k] == '}' {
        return Some((out, k + 1));
    }
    let mut j: usize = i + 1;
    loop
        invariant
            i + 1 <= j <= n,
            n == chars@.len(),
            spec_parse_headers(chars@, i as int) == parse_header_members(
                chars@,
                j as int,
                out@.map_values(|h: (String, String)| (h.0@, h.1@)),
            ),
        decreases n - j,
    {
        let ghost acc0 = out@.map_values(|h: (String, String)| (h.0@, h.1@));
        let (key, v) = match parse_key(chars, j) {
            Some(p) => p,
            None => {
                return None;
            },
        };
        let k4: usize;
        if v < n && chars[v] == '"' {
            match parse_string(chars, v + 1) {
                Some((val, k2)) => {
                    out.push((chars_to_string(&key), chars_to_string(&val)));
                    proof {
                        assert(out@.map_values(|h: (String, String)| (h.0@, h.1@)) =~= acc0.push(
                            (key@, val@),
                        ));
                    }
                    k4 = k2;
                },
                None => {
                    return None;
                },
            }
        } else {
            match skip_value(chars, v) {
                Some(k2) => {
                    k4 = k2;
                },
                None => {
                    return None;
                },
            }
        }
        let k5 = skip_ws(chars, k4);
        if k5 < n && chars[k5] == ',' {
            j = k5 + 1;
        } else if k5 < n && chars[k5] == '}' {
            return Some((out, k5 + 1));
        } else {
            return None;
        }
    }
}

/// Read a whole response record at `i`, together with whether the object
/// carries the record tag `type: response`.
pub fn parse_response_record(chars: &Vec<char>, i: usize) -> (r: Option<
    (crate::response::FeroxResponse, bool, usize),
>)
    requires
        i <= chars@.len(),
    ensures
        (r matches Some(p) ==> spec_parse_response_record(chars@, i as int) == Some(
            ((p.0@, p.1), p.2 as int),
        ) && i < p.2 <= chars@.len()),
        (r is None ==> spec_parse_response_record(chars@, i as int) is None),
{
    let n = chars.len();
    if i >= n || chars[i] != '{' {
        return None;
    }
    let k = skip_ws(chars, i + 1);
    let mut data = crate::response::FeroxResponse::new_empty();
    let mut tagged = false;
    proof {
        assert(data@ == default_response_record());
    }
    if k < n && chars[k] == '}' {
        return Some((data, false, k + 1));
    }
    let mut j: usize = i + 1;
    loop
        invariant
            i + 1 <= j <= n,
            n == chars@.len(),
            spec_parse_response_record(chars@, i as int) == parse_response_members(
                chars@,
                j as int,
                data@,
                tagged,
            ),
        decreases n - j,
    {
        let (key, v) = match parse_key(chars, j) {
            Some(p) => p,
            None => {
                return None;
            },
        };
        let k4: usize;
        if chars_eq_lit(&key, "type") && v < n && chars[v] == '"' {
            match parse_string(chars, v + 1) {
                Some((val, k2)) => {
                    if chars_eq_lit(&val, "response") {
                        tagged = true;
                    }
                    k4 = k2;
                },
                None => {
                    return None;
                },
            }
        } else if chars_eq_lit(&key, "url") && v < n && chars[v] == '"' {
            match parse_string(chars, v + 1) {
                Some((val, k2)) => {
                    data.url = chars_to_string(&val);
                    k4 = k2;
                },
                None => {
                    return None;
                },
            }
        } else if chars_eq_lit(&key, "path") && v < n && chars[v] == '"' {
            match parse_string(chars, v + 1) {
                Some((val, k2)) => {
                    data.path = chars_to_string(&val);
                    k4 = k2;
                },
                None => {
                    return None;
                },
            }
        } else if chars_eq_lit(&key, "wildcard") && v < n && (chars[v] == 't' || chars[v] == 'f') {
            match skip_value(chars, v) {
                Some(k2) => {
                    data.wildcard = chars[v] == 't';
                    k4 = k2;
                },
                None => {
                    return None;
                },
            }
        } else if chars_eq_lit(&key, "status") {
            match skip_value(chars, v) {
                Some(k2) => {
                    match parse_uint_field(chars, v) {
                        Some(val) => {
                            if val <= 0xFFFF {
                                data.status = val as u16;
                            }
                        },
                        None => {},
                    }
                    k4 = k2;
                },
                None => {
                    return None;
                },
            }
        } else if chars_eq_lit(&key, "content_length") {
            match skip_value(chars, v) {
                Some(k2) => {
                    match parse_uint_field(chars, v) {
                        Some(val) => {
                            data.content_length = val;
                        },
                        None => {},
                    }
                    k4 = k2;
                },
                None => {
                    return None;
                },
            }
        } else if chars_eq_lit(&key, "line_count") {
            match skip_value(chars, v) {
                Some(k2) => {
                    match parse_uint_field(chars, v) {
                        Some(val) => {
                            data.line_count = val;
                        },
                        None => {},
                    }
                    k4 = k2;
                },
                None => {
                    return None;
                },
            }
        } else if chars_eq_lit(&key, "word_count") {
            match skip_value(chars, v) {
                Some(k2) => {
                    match parse_uint_field(chars, v) {
                        Some(val) => {
                            data.word_count = val;
                        },
                        None => {},
                    }
                    k4 = k2;
                },
                None => {
                    return None;
                },
            }
        } else if chars_eq_lit(&key, "headers") && v < n && chars[v] == '{' {
            match parse_headers(chars, v) {
                Some((hs, k2)) => {
                    data.headers = hs;
                    k4 = k2;
                },
                None => {
                    return None;
                },
            }
        } else {
            match skip_value(chars, v) {
                Some(k2) => {
                    k4 = k2;
                },
                None => {
                    return None;
                },
            }
        }
        let k5 = skip_ws(chars, k4);
        if k5 < n && chars[k5] == ',' {
            j = k5 + 1;
        } else if k5 < n && chars[k5] == '}' {
            return Some((data, tagged, k5 + 1));
        } else {
            return None;
        }
    }
}

/// The value of the unsigned-integer token at `v`, if one stands there and
/// fits 64 bits; its lexical extent is the caller's to skip.
fn parse_uint_field(chars: &Vec<char>, v: usize) -> (r: Option<u64>)
    requires
        v <= chars@.len(),
    ensures
        (r matches Some(val) ==> uint_token(chars@, v as int) == Some(val as nat)),
        (r is None ==> match uint_token(chars@, v as int) {
            Some(val) => val > u64::MAX,
            None => true,
        }),
{
    let n = chars.len();
    if v >= n || !('0' <= chars[v] && chars[v] <= '9') {
        return None;
    }
    let e = crate::parse::digits_end(chars, v);
    let ne = crate::parse::num_end(chars, v);
    if e != ne {
        return None;
    }
    proof {
        crate::parse::lemma_digits_end_digits(chars@, v as int);
    }
    crate::parse::digits_value(chars, v, e)
}

/// Read the elements of the scans array from just after the opening bracket
/// (or a comma): an object element becomes its record, and any other
/// element falls back to the default record rather than costing the array.
pub open spec fn parse_scan_elements(s: Seq<char>, i: int, acc: Seq<ScanRecord>) -> Option<
    (Seq<ScanRecord>, int),
>
    decreases s.len() - i,
{
    let v = spec_skip_ws(s, i);
    let step: Option<(Seq<ScanRecord>, int)> = if 0 <= v < s.len() && s[v] == '{' {
        match spec_parse_scan_record(s, v) {
            Some((rec, k)) => Some((acc.push(rec), k)),
            None => None,
        }
    } else {
        match spec_skip_value(s, v) {
            Some(k) => Some((acc.push(default_scan_record()), k)),
            None => None,
        }
    };
    match step {
        Some((acc2, k4)) => {
            let k5 = spec_skip_ws(s, k4);
            if 0 <= k5 < s.len() && s[k5] == ',' {
                if i < k5 + 1 <= s.len() {
                    parse_scan_elements(s, k5 + 1, acc2)
                } else {
                    None
                }
            } else if 0 <= k5 < s.len() && s[k5] == ']' {
                Some((acc2, k5 + 1))
            } else {
                None
            }
        },
        None => None,
    }
}

/// Read the scans array at `i`.
pub open spec fn spec_parse_scan_array(s: Seq<char>, i: int) -> Option<(Seq<ScanRecord>, int)> {
    if 0 <= i < s.len() && s[i] == '[' {
        let k = spec_skip_ws(s, i + 1);
        if 0 <= k < s.len() && s[k] == ']' {
            Some((Seq::empty(), k + 1))
        } else {
            parse_scan_elements(s, i + 1, Seq::empty())
        }
    } else {
        None
    }
}

/// Read the elements of the responses array from just after the opening
/// bracket (or a comma): an object element tagged as a response record
/// becomes its record, and any other element — an untagged object as much
/// as a bare value — is passed over silently, a best-effort partial
/// recovery.
pub open spec fn parse_response_elements(
    s: Seq<char>,
    i: int,
    acc: Seq<crate::response::ResponseView>,
) -> Option<(Seq<crate::response::ResponseView>, int)>
    decreases s.len() - i,
{
    let v = spec_skip_ws(s, i);
    let step: Option<(Seq<crate::response::ResponseView>, int)> = if 0 <= v < s.len() && s[v]
        == '{' {
        match spec_parse_response_record(s, v) {
            Some(((rec, tagged), k)) => Some(
                (
                    if tagged {
                        acc.push(rec)
                    } else {
                        acc
                    },
                    k,
                ),
            ),
            None => None,
        }
    } else {
        match spec_skip_value(s, v) {
            Some(k) => Some((acc, k)),
            None => None,
        }
    };
    match step {
        Some((acc2, k4)) => {
            let k5 = spec_skip_ws(s, k4);
            if 0 <= k5 < s.len() && s[k5] == ',' {
                if i < k5 + 1 <= s.len() {
                    parse_response_elements(s, k5 + 1, acc2)
                } else {
                    None
                }
            } else if 0 <= k5 < s.len() && s[k5] == ']' {
                Some((acc2, k5 + 1))
            } else {
                None
            }
        },
        None => None,
    }
}

/// Read the responses array at `i`.
pub open spec fn spec_parse_response_array(s: Seq<char>, i: int) -> Option<
    (Seq<crate::response::ResponseView>, int),
> {
    if 0 <= i < s.len() && s[i] == '[' {
        let k = spec_skip_ws(s, i + 1);
        if 0 <= k < s.len() && s[k] == ']' {
            Some((Seq::empty(), k + 1))
        } else {
            parse_response_elements(s, i + 1, Seq::empty())
        }
    } else {
        None
    }
}

/// What a state file holds: the configuration's verbatim text, the scan
/// records, and the response records. A field is `None` when its member is
/// missing — or, for the arrays, not an array, which counts the same as
/// missing.
pub struct StateRecord {
    pub config: Option<Seq<char>>,
    pub scans: Option<Seq<ScanRecord>>,
    pub responses: Option<Seq<crate::response::ResponseView>>,
}

/// A state with nothing in it.
pub open spec fn default_state_record() -> StateRecord {
    StateRecord { config: None, scans: None, responses: None }
}

/// Apply one top-level member: config keeps its value's text verbatim, the
/// two arrays are read as records, and a scans or responses member that is
/// not an array counts as absent, as do unknown members. Later members win.
pub open spec fn state_apply(s: Seq<char>, v: int, key: Seq<char>, st: StateRecord) -> Option<
    (StateRecord, int),
> {
    if key == "config"@ {
        match spec_skip_value(s, v) {
            Some(k) => Some((StateRecord { config: Some(s.subrange(v, k)), ..st }, k)),
            None => None,
        }
    } else if key == "scans"@ {
        if 0 <= v < s.len() && s[v] == '[' {
            match spec_parse_scan_array(s, v) {
                Some((recs, k)) => Some((StateRecord { scans: Some(recs), ..st }, k)),
                None => None,
            }
        } else {
            match spec_skip_value(s, v) {
                Some(k) => Some((StateRecord { scans: None, ..st }, k)),
                None => None,
            }
        }
    } else if key == "responses"@ {
        if 0 <= v < s.len() && s[v] == '[' {
            match spec_parse_response_array(s, v) {
                Some((recs, k)) => Some((StateRecord { responses: Some(recs), ..st }, k)),
                None => None,
            }
        } else {
            match spec_skip_value(s, v) {
                Some(k) => Some((StateRecord { responses: None, ..st }, k)),
                None => None,
            }
        }
    } else {
        match spec_skip_value(s, v) {
            Some(k) => Some((st, k)),
            None => None,
        }
    }
}

/// Read the top-level members of a state file from just after the opening
/// brace, applying each to `st`, until the closing brace.
pub open spec fn parse_state_members(s: Seq<char>, i: int, st: StateRecord) -> Option<
    (StateRecord, int),
>
    decreases s.len() - i,
{
    match spec_parse_key(s, i) {
        Some((key, v)) => match state_apply(s, v, key, st) {
            Some((st2, k4)) => {
                let k5 = spec_skip_ws(s, k4);
                if 0 <= k5 < s.len() && s[k5] == ',' {
                    if i < k5 + 1 <= s.len() {
                        parse_state_members(s, k5 + 1, st2)
                    } else {
                        None
                    }
                } else if 0 <= k5 < s.len() && s[k5] == '}' {
                    Some((st2, k5 + 1))
                } else {
                    None
                }
            },
            None => None,
        },
        None => None,
    }
}

/// What a whole text means as a state file: optional whitespace, one object
/// whose recognised members fill the state, optional whitespace, and
/// nothing more.
pub open spec fn spec_parse_state(s: Seq<char>) -> Option<StateRecord> {
    let i = spec_skip_ws(s, 0);
    if 0 <= i < s.len() && s[i] == '{' {
        let k = spec_skip_ws(s, i + 1);
        let inner: Option<(StateRecord, int)> = if 0 <= k < s.len() && s[k] == '}' {
            Some((default_state_record(), k + 1))
        } else {
            parse_state_members(s, i + 1, default_state_record())
        };
        match inner {
            Some((st, p)) => {
                if spec_skip_ws(s, p) == s.len() {
                    Some(st)
                } else {
                    None
                }
            },
            None => None,
        }
    } else {
        None
    }
}

/// Read the scans array at `i`.
pub fn parse_scan_array(chars: &Vec<char>, i: usize) -> (r: Option<(Vec<ScanRecordData>, usize)>)
    requires
        i <= chars@.len(),
    ensures
        (r matches Some(p) ==> spec_parse_scan_array(chars@, i as int) == Some(
            (p.0@.map_values(|d: ScanRecordData| d@), p.1 as int),
        ) && i < p.1 <= chars@.len()),
        (r is None ==> spec_parse_scan_array(chars@, i as int) is None),
{
    let n = chars.len();
    if i >= n || chars[i] != '[' {
        return None;
    }
    let k = skip_ws(chars, i + 1);
    let mut out: Vec<ScanRecordData> = Vec::new();
    proof {
        assert(out@.map_values(|d: ScanRecordData| d@) =~= Seq::<ScanRecord>::empty());
    }
    if k < n && chars[k] == ']' {
        return Some((out, k + 1));
    }
    let mut j: usize = i + 1;
    loop
        invariant
            i + 1 <= j <= n,
            n == chars@.len(),
            spec_parse_scan_array(chars@, i as int) == parse_scan_elements(
                chars@,
                j as int,
                out@.map_values(|d: ScanRecordData| d@),
            ),
        decreases n - j,
    {
        let ghost acc0 = out@.map_values(|d: ScanRecordData| d@);
        let v = skip_ws(chars, j);
        let k4: usize;
        if v < n && chars[v] == '{' {
            match parse_scan_record(chars, v) {
                Some((rec, k2)) => {
                    out.push(rec);
                    proof {
                        assert(out@.map_values(|d: ScanRecordData| d@) =~= acc0.push(
                            out@.last()@,
                        ));
                    }
                    k4 = k2;
                },
                None => {
                    return None;
                },
            }
        } else {
            match skip_value(chars, v) {
                Some(k2) => {
                    out.push(
                        ScanRecordData {
                            id: None,
                            url: String::new(),
                            kind: ScanType::File,
                            complete: false,
                        },
                    );
                    proof {
                        assert(out@.last()@ == default_scan_record());
                        assert(out@.map_values(|d: ScanRecordData| d@) =~= acc0.push(
                            default_scan_record(),
                        ));
                    }
                    k4 = k2;
                },
                None => {
                    return None;
                },
            }
        }
        let k5 = skip_ws(chars, k4);
        if k5 < n && chars[k5] == ',' {
            j = k5 + 1;
        } else if k5 < n && chars[k5] == ']' {
            return Some((out, k5 + 1));
        } else {
            return None;
        }
    }
}

/// Read the responses array at `i`.
pub fn parse_response_array(chars: &Vec<char>, i: usize) -> (r: Option<
    (Vec<crate::response::FeroxResponse>, usize),
>)
    requires
        i <= chars@.len(),
    ensures
        (r matches Some(p) ==> spec_parse_response_array(chars@, i as int) == Some(
            (p.0@.map_values(|d: crate::response::FeroxResponse| d@), p.1 as int),
        ) && i < p.1 <= chars@.len()),
        (r is None ==> spec_parse_response_array(chars@, i as int) is None),
{
    let n = chars.len();
    if i >= n || chars[i] != '[' {
        return None;
    }
    let k = skip_ws(chars, i + 1);
    let mut out: Vec<crate::response::FeroxResponse> = Vec::new();
    proof {
        assert(out@.map_values(|d: crate::response::FeroxResponse| d@) =~= Seq::<
            crate::response::ResponseView,
        >::empty());
    }
    if k < n && chars[k] == ']' {
        return Some((out, k + 1));
    }
    let mut j: usize = i + 1;
    loop
        invariant
            i + 1 <= j <= n,
            n == chars@.len(),
            spec_parse_response_array(chars@, i as int) == parse_response_elements(
                chars@,
                j as int,
                out@.map_values(|d: crate::response::FeroxResponse| d@),
            ),
        decreases n - j,
    {
        let ghost acc0 = out@.map_values(|d: crate::response::FeroxResponse| d@);
        let v = skip_ws(chars, j);
        let k4: usize;
        if v < n && chars[v] == '{' {
            match parse_response_record(chars, v) {
                Some((rec, tagged, k2)) => {
                    if tagged {
                        out.push(rec);
                        proof {
                            assert(out@.map_values(|d: crate::response::FeroxResponse| d@)
                                =~= acc0.push(out@.last()@));
                        }
                    }
                    k4 = k2;
                },
                None => {
                    return None;
                },
            }
        } else {
            match skip_value(chars, v) {
                Some(k2) => {
                    k4 = k2;
                },
                None => {
                    return None;
                },
            }
        }
        let k5 = skip_ws(chars, k4);
        if k5 < n && chars[k5] == ',' {
            j = k5 + 1;
        } else if k5 < n && chars[k5] == ']' {
            return Some((out, k5 + 1));
        } else {
            return None;
        }
    }
}

/// What a state file holds, carried in executable form.
pub struct StateData {
    pub config: Option<String>,
    pub scans: Option<Vec<ScanRecordData>>,
    pub responses: Option<Vec<crate::response::FeroxResponse>>,
}

impl View for StateData {
    type V = StateRecord;

    open spec fn view(&self) -> StateRecord {
        StateRecord {
            config: match self.config {
                Some(ref c) => Some(c@),
                None => None,
            },
            scans: match self.scans {
                Some(ref v) => Some(v@.map_values(|d: ScanRecordData| d@)),
                None => None,
            },
            responses: match self.responses {
                Some(ref v) => Some(v@.map_values(|d: crate::response::FeroxResponse| d@)),
                None => None,
            },
        }
    }
}

/// Read a whole state file.
pub fn parse_state(chars: &Vec<char>) -> (r: Option<StateData>)
    ensures
        (r matches Some(st) ==> spec_parse_state(chars@) == Some(st@)),
        (r is None ==> spec_parse_state(chars@) is None),
{
    let n = chars.len();
    let i = skip_ws(chars, 0);
    if i >= n || chars[i] != '{' {
        return None;
    }
    let k = skip_ws(chars, i + 1);
    let mut data = StateData { config: None, scans: None, responses: None };
    proof {
        assert(data@ == default_state_record());
    }
    if k < n && chars[k] == '}' {
        if skip_ws(chars, k + 1) != n {
            return None;
        }
        return Some(data);
    } else {
        let mut j: usize = i + 1;
        loop
            invariant
                i + 1 <= j <= n,
                n == chars@.len(),
                i == spec_skip_ws(chars@, 0),
                i < n && chars@[i as int] == '{',
                !(k < n && chars@[k as int] == '}'),
                k == spec_skip_ws(chars@, i + 1 as int),
                parse_state_members(chars@, i + 1 as int, default_state_record())
                    == parse_state_members(chars@, j as int, data@),
            decreases n - j,
        {
            let (key, v) = match parse_key(chars, j) {
                Some(p) => p,
                None => {
                    return None;
                },
            };
            let k4: usize;
            if chars_eq_lit(&key, "config") {
                match skip_value(chars, v) {
                    Some(k2) => {
                        data.config = Some(chars_range_to_string(chars, v, k2));
                        k4 = k2;
                    },
                    None => {
                        return None;
                    },
                }
            } else if chars_eq_lit(&key, "scans") {
                if v < n && chars[v] == '[' {
                    match parse_scan_array(chars, v) {
                        Some((arr, k2)) => {
                            data.scans = Some(arr);
                            k4 = k2;
                        },
                        None => {
                            return None;
                        },
                    }
                } else {
                    match skip_value(chars, v) {
                        Some(k2) => {
                            data.scans = None;
                            k4 = k2;
                        },
                        None => {
                            return None;
                        },
                    }
                }
            } else if chars_eq_lit(&key, "responses") {
                if v < n && chars[v] == '[' {
                    match parse_response_array(chars, v) {
                        Some((arr, k2)) => {
                            data.responses = Some(arr);
                            k4 = k2;
                        },
                        None => {
                            return None;
                        },
                    }
                } else {
                    match skip_value(chars, v) {
                        Some(k2) => {
                            data.responses = None;
                            k4 = k2;
                        },
                        None => {
                            return None;
                        },
                    }
                }
            } else {
                match skip_value(chars, v) {
                    Some(k2) => {
                        k4 = k2;
                    },
                    None => {
                        return None;
                    },
                }
            }
            let k5 = skip_ws(chars, k4);
            if k5 < n && chars[k5] == ',' {
                j = k5 + 1;
            } else if k5 < n && chars[k5] == '}' {
                if skip_ws(chars, k5 + 1) != n {
                    return None;
                }
                return Some(data);
            } else {
                return None;
            }
        }
    }
}

/// Why a checkpoint could not be restored.
#[derive(Debug, Clone, Copy, PartialEq, Eq, Structural)]
pub enum StateError {
    /// The file is not one well-formed state object.
    InvalidJson,
    /// The state object carries no configuration; a run cannot proceed
    /// without one.
    MissingConfig,
}

/// Whether a live scan matches a restored record: the persisted fields
/// carried over, and a record without an id answered by a fresh 32-character
/// one.
pub open spec fn scan_view_ok(rec: ScanRecord, sv: crate::scan::ScanView) -> bool {
    &&& sv.url == rec.url
    &&& sv.kind == rec.kind
    &&& sv.complete == rec.complete
    &&& (match rec.id {
        Some(idv) => sv.id == idv,
        None => sv.id.len() == 32,
    })
}

/// What inserting one scan does to the registry.
pub open spec fn insert_step(
    pre: Seq<crate::scan::ScanView>,
    sv: crate::scan::ScanView,
) -> Seq<crate::scan::ScanView> {
    if crate::registry::contains_url(pre, sv.url) {
        pre
    } else {
        pre.push(sv)
    }
}

/// The registry after restoring the records in order, each inserted with the
/// registry's de-duplication; the ids drawn for id-less records are
/// existentially quantified, being fresh.
pub open spec fn scans_restored(
    pre: Seq<crate::scan::ScanView>,
    recs: Seq<ScanRecord>,
    post: Seq<crate::scan::ScanView>,
) -> bool
    decreases recs.len(),
{
    if recs.len() == 0 {
        post == pre
    } else {
        exists|sv: crate::scan::ScanView|
            scan_view_ok(recs[0], sv) && scans_restored(insert_step(pre, sv), recs.drop_first(), post)
    }
}

/// Restoring extends one record at a time.
pub proof fn lemma_scans_restored_push(
    pre: Seq<crate::scan::ScanView>,
    recs: Seq<ScanRecord>,
    mid: Seq<crate::scan::ScanView>,
    rec: ScanRecord,
    sv: crate::scan::ScanView,
    post: Seq<crate::scan::ScanView>,
)
    requires
        scans_restored(pre, recs, mid),
        scan_view_ok(rec, sv),
        post == insert_step(mid, sv),
    ensures
        scans_restored(pre, recs.push(rec), post),
    decreases recs.len(),
{
    let r2 = recs.push(rec);
    if recs.len() == 0 {
        assert(r2[0] == rec);
        assert(r2.drop_first() =~= Seq::<ScanRecord>::empty());
        assert(scan_view_ok(r2[0], sv) && scans_restored(insert_step(pre, sv), r2.drop_first(), post));
    } else {
        let sv0 = choose|sv0: crate::scan::ScanView|
            scan_view_ok(recs[0], sv0) && scans_restored(
                insert_step(pre, sv0),
                recs.drop_first(),
                mid,
            );
        lemma_scans_restored_push(insert_step(pre, sv0), recs.drop_first(), mid, rec, sv, post);
        assert(r2.drop_first() =~= recs.drop_first().push(rec));
        assert(r2[0] == recs[0]);
        assert(scan_view_ok(r2[0], sv0) && scans_restored(insert_step(pre, sv0), r2.drop_first(), post));
    }
}

/// The response records of a state; none counts as none at all.
pub open spec fn state_responses(st: StateRecord) -> Seq<crate::response::ResponseView> {
    match st.responses {
        Some(rs) => rs,
        None => Seq::empty(),
    }
}

/// The scan records of a state; none counts as none at all.
pub open spec fn state_scans(st: StateRecord) -> Seq<ScanRecord> {
    match st.scans {
        Some(rs) => rs,
        None => Seq::empty(),
    }
}

/// Restore a checkpoint: read the state file's text, put every response
/// record into the cache and every scan record into the registry (the
/// registry's de-duplication applying, and id-less records drawing fresh
/// ids), and hand back the configuration verbatim.
///
/// A text that is not one well-formed state object restores nothing, as does
/// one without a configuration.
pub fn restore_state(
    text: &str,
    registry: &mut crate::registry::FeroxScans,
    cache: &mut crate::response::FeroxResponses,
) -> (r: Result<crate::serialize::Configuration, StateError>)
    ensures
        ({
            match spec_parse_state(text@) {
                None => r == Err::<crate::serialize::Configuration, StateError>(
                    StateError::InvalidJson,
                ) && final(registry)@ == old(registry)@ && final(cache)@ == old(cache)@,
                Some(st) => match st.config {
                    None => r == Err::<crate::serialize::Configuration, StateError>(
                        StateError::MissingConfig,
                    ) && final(registry)@ == old(registry)@ && final(cache)@ == old(cache)@,
                    Some(cfg) => {
                        &&& (r matches Ok(c) && c@ == cfg)
                        &&& final(cache)@ == old(cache)@ + state_responses(st)
                        &&& scans_restored(old(registry)@, state_scans(st), final(registry)@)
                    },
                },
            }
        }),
{
    let chars = str_to_chars(text);
    let st = match parse_state(&chars) {
        Some(st) => st,
        None => {
            return Err(StateError::InvalidJson);
        },
    };
    let ghost gst = st@;
    let StateData { config, scans, responses } = st;
    let cfg = match config {
        Some(c) => c,
        None => {
            return Err(StateError::MissingConfig);
        },
    };
    let ghost rviews = state_responses(gst);
    let mut resp_vec: Vec<crate::response::FeroxResponse> = match responses {
        Some(v) => v,
        None => Vec::new(),
    };
    proof {
        assert(resp_vec@.map_values(|d: crate::response::FeroxResponse| d@) =~= rviews);
    }
    let ghost rtotal = rviews.len();
    proof {
        assert(cache@ =~= old(cache)@ + rviews.subrange(0, 0));
    }
    while resp_vec.len() > 0
        invariant
            resp_vec@.len() <= rtotal == rviews.len(),
            resp_vec@.map_values(|d: crate::response::FeroxResponse| d@) == rviews.subrange(
                rtotal - resp_vec@.len(),
                rtotal as int,
            ),
            cache@ == old(cache)@ + rviews.subrange(0, rtotal - resp_vec@.len()),
        decreases resp_vec@.len(),
    {
        let ghost done = rtotal - resp_vec@.len();
        let ghost before = resp_vec@;
        let r0 = resp_vec.remove(0);
        proof {
            let before_m = before.map_values(|d: crate::response::FeroxResponse| d@);
            let after_m = resp_vec@.map_values(|d: crate::response::FeroxResponse| d@);
            assert(before_m[0] == r0@);
            assert(r0@ == rviews[done]);
            assert(resp_vec@ =~= before.subrange(1, before.len() as int));
            assert forall|k2: int| 0 <= k2 < after_m.len() implies after_m[k2] == rviews[done + 1
                + k2] by {
                assert(resp_vec@[k2] == before[k2 + 1]);
                assert(after_m[k2] == before_m[k2 + 1]);
                assert(before_m[k2 + 1] == rviews.subrange(done, rtotal as int)[k2 + 1]);
            }
            assert(after_m =~= rviews.subrange(done + 1, rtotal as int));
        }
        cache.insert(r0);
        proof {
            assert(cache@ =~= old(cache)@ + rviews.subrange(0, done + 1));
        }
    }
    proof {
        assert(rviews.subrange(0, rtotal as int) =~= rviews);
    }
    let ghost srecs = state_scans(gst);
    let mut scan_vec: Vec<ScanRecordData> = match scans {
        Some(v) => v,
        None => Vec::new(),
    };
    proof {
        assert(scan_vec@.map_values(|d: ScanRecordData| d@) =~= srecs);
    }
    let ghost stotal = srecs.len();
    proof {
        assert(srecs.subrange(0, 0) =~= Seq::<ScanRecord>::empty());
    }
    while scan_vec.len() > 0
        invariant
            scan_vec@.len() <= stotal == srecs.len(),
            scan_vec@.map_values(|d: ScanRecordData| d@) == srecs.subrange(
                stotal - scan_vec@.len(),
                stotal as int,
            ),
            scans_restored(old(registry)@, srecs.subrange(0, stotal - scan_vec@.len()), registry@),
        decreases scan_vec@.len(),
    {
        let ghost done = stotal - scan_vec@.len();
        let ghost before = scan_vec@;
        let d = scan_vec.remove(0);
        proof {
            let before_m = before.map_values(|x: ScanRecordData| x@);
            let after_m = scan_vec@.map_values(|x: ScanRecordData| x@);
            assert(before_m[0] == d@);
            assert(d@ == srecs[done]);
            assert(scan_vec@ =~= before.subrange(1, before.len() as int));
            assert forall|k2: int| 0 <= k2 < after_m.len() implies after_m[k2] == srecs[done + 1
                + k2] by {
                assert(scan_vec@[k2] == before[k2 + 1]);
                assert(after_m[k2] == before_m[k2 + 1]);
                assert(before_m[k2 + 1] == srecs.subrange(done, stotal as int)[k2 + 1]);
            }
            assert(after_m =~= srecs.subrange(done + 1, stotal as int));
        }
        let id = match d.id {
            Some(x) => x,
            None => new_scan_id(),
        };
        let scan = FeroxScan {
            id,
            url: d.url,
            scan_type: d.kind,
            complete: d.complete,
            task: None,
            progress_bar: None,
        };
        proof {
            assert(scan_view_ok(srecs[done], scan@));
        }
        let ghost mid = registry@;
        let ghost sv = scan@;
        registry.insert(scan);
        proof {
            assert(registry@ == insert_step(mid, sv));
            lemma_scans_restored_push(
                old(registry)@,
                srecs.subrange(0, done),
                mid,
                srecs[done],
                sv,
                registry@,
            );
            assert(srecs.subrange(0, done).push(srecs[done]) =~= srecs.subrange(0, done + 1));
        }
    }
    proof {
        assert(srecs.subrange(0, stotal as int) =~= srecs);
    }
    Ok(crate::serialize::Configuration::new(cfg))
}

/// What a whole text means as one response record: optional whitespace, the
/// record, optional whitespace, and nothing more.
pub open spec fn spec_response_from_json(s: Seq<char>) -> Option<crate::response::ResponseView> {
    let i = spec_skip_ws(s, 0);
    match spec_parse_response_record(s, i) {
        Some(((rec, tagged), k)) => {
            if tagged && spec_skip_ws(s, k) == s.len() {
                Some(rec)
            } else {
                None
            }
        },
        None => None,
    }
}

impl crate::response::FeroxResponse {
    /// Read a response back from the JSON text of one record: recognised,
    /// well-typed fields are taken and everything else keeps its zero value.
    /// Nothing is returned when the text is not a single JSON object carrying
    /// the record tag `type: response`.
    pub fn from_json(s: &str) -> (r: Option<crate::response::FeroxResponse>)
        ensures
            (r is Some) == (spec_response_from_json(s@) is Some),
            (r matches Some(resp) ==> spec_response_from_json(s@) == Some(resp@)),
    {
        let chars = str_to_chars(s);
        let i = skip_ws(&chars, 0);
        match parse_response_record(&chars, i) {
            Some((data, tagged, k)) => {
                if !tagged || skip_ws(&chars, k) != chars.len() {
                    return None;
                }
                Some(data)
            },
            None => None,
        }
    }
}

} // verus!
