//! The checkpoint snapshot and its JSON text: one object holding the scans,
//! the configuration, and the cached responses, with every character of the
//! output pinned down.

use vstd::prelude::*;
use vstd::string::StringExecFns;

use crate::json::bool_str;
use crate::json::dec_str;
use crate::json::json_string;
use crate::json::push_bool;
use crate::json::push_json_string;
use crate::json::push_lit;
use crate::json::push_u64;
use crate::response::FeroxResponse;
use crate::response::FeroxResponses;
use crate::response::ResponseView;
use crate::registry::FeroxScans;
use crate::scan::FeroxScan;
use crate::scan::ScanType;
use crate::scan::ScanView;
use crate::text::chars_to_string;

verus! {

/// The configuration of a run.
///
/// Its fields belong to the driver, not to this core: they are carried as the
/// configuration's JSON text and passed through checkpoints verbatim.
#[derive(Debug)]
pub struct Configuration {
    /// The configuration's JSON text, one JSON value.
    pub raw: String,
}

impl View for Configuration {
    type V = Seq<char>;

    open spec fn view(&self) -> Seq<char> {
        self.raw@
    }
}

impl Configuration {
    /// Carry this JSON text as the configuration.
    pub fn new(raw: String) -> (r: Self)
        ensures
            r@ == raw@,
    {
        Configuration { raw }
    }
}

impl Default for Configuration {
    /// An empty configuration object.
    fn default() -> (r: Self)
        ensures
            r@ == "{}"@,
    {
        Configuration { raw: String::from_str("{}") }
    }
}

/// The JSON rendering of a scan kind.
pub open spec fn kind_str(k: ScanType) -> Seq<char> {
    match k {
        ScanType::File => "File"@,
        ScanType::Directory => "Directory"@,
    }
}

/// The JSON record of one scan: exactly the four persisted fields, in the
/// order id, url, scan_type, complete; the task and indicator handles are not
/// persistable and are omitted.
pub open spec fn scan_json(v: ScanView) -> Seq<char> {
    "{\"id\":"@ + json_string(v.id) + ",\"url\":"@ + json_string(v.url) + ",\"scan_type\":"@
        + json_string(kind_str(v.kind)) + ",\"complete\":"@ + bool_str(v.complete) + "}"@
}

/// The comma-joined scan records.
pub open spec fn scans_json_items(views: Seq<ScanView>) -> Seq<char>
    decreases views.len(),
{
    if views.len() == 0 {
        Seq::empty()
    } else if views.len() == 1 {
        scan_json(views[0])
    } else {
        scans_json_items(views.drop_last()) + seq![','] + scan_json(views.last())
    }
}

/// The JSON array of all scan records, in registry order.
pub open spec fn scans_json(views: Seq<ScanView>) -> Seq<char> {
    seq!['['] + scans_json_items(views) + seq![']']
}

/// The JSON text of one header entry.
pub open spec fn header_json(h: (Seq<char>, Seq<char>)) -> Seq<char> {
    json_string(h.0) + seq![':'] + json_string(h.1)
}

/// The comma-joined header entries.
pub open spec fn headers_json_items(hs: Seq<(Seq<char>, Seq<char>)>) -> Seq<char>
    decreases hs.len(),
{
    if hs.len() == 0 {
        Seq::empty()
    } else if hs.len() == 1 {
        header_json(hs[0])
    } else {
        headers_json_items(hs.drop_last()) + seq![','] + header_json(hs.last())
    }
}

/// The JSON object holding a response's headers, in stored order.
pub open spec fn headers_json(hs: Seq<(Seq<char>, Seq<char>)>) -> Seq<char> {
    seq!['{'] + headers_json_items(hs) + seq!['}']
}

/// The JSON record of one cached response.
pub open spec fn response_json(v: ResponseView) -> Seq<char> {
    "{\"type\":\"response\",\"url\":"@ + json_string(v.url) + ",\"path\":"@ + json_string(v.path)
        + ",\"wildcard\":"@ + bool_str(v.wildcard) + ",\"status\":"@ + dec_str(v.status as nat)
        + ",\"content_length\":"@ + dec_str(v.content_length as nat) + ",\"line_count\":"@
        + dec_str(v.line_count as nat) + ",\"word_count\":"@ + dec_str(v.word_count as nat)
        + ",\"headers\":"@ + headers_json(v.headers) + "}"@
}

/// The comma-joined response records.
pub open spec fn responses_json_items(views: Seq<ResponseView>) -> Seq<char>
    decreases views.len(),
{
    if views.len() == 0 {
        Seq::empty()
    } else if views.len() == 1 {
        response_json(views[0])
    } else {
        responses_json_items(views.drop_last()) + seq![','] + response_json(views.last())
    }
}

/// The JSON array of all cached responses, in stored order.
pub open spec fn responses_json(views: Seq<ResponseView>) -> Seq<char> {
    seq!['['] + responses_json_items(views) + seq![']']
}

/// The whole state file: one object with exactly the three fields scans,
/// config, responses, the configuration text standing verbatim.
pub open spec fn state_json(
    scans: Seq<ScanView>,
    config: Seq<char>,
    responses: Seq<ResponseView>,
) -> Seq<char> {
    "{\"scans\":"@ + scans_json(scans) + ",\"config\":"@ + config + ",\"responses\":"@
        + responses_json(responses) + "}"@
}

/// Append the JSON record of one scan.
pub fn push_scan_json(out: &mut Vec<char>, scan: &FeroxScan)
    ensures
        final(out)@ == old(out)@ + scan_json(scan@),
{
    push_lit(out, "{\"id\":");
    push_json_string(out, scan.id.as_str());
    push_lit(out, ",\"url\":");
    push_json_string(out, scan.url.as_str());
    push_lit(out, ",\"scan_type\":");
    match scan.scan_type {
        ScanType::File => push_json_string(out, "File"),
        ScanType::Directory => push_json_string(out, "Directory"),
    }
    push_lit(out, ",\"complete\":");
    push_bool(out, scan.complete);
    push_lit(out, "}");
    proof {
        assert(out@ =~= old(out)@ + scan_json(scan@));
    }
}

/// Append the JSON array of all scan records.
pub fn push_scans_json(out: &mut Vec<char>, scans: &FeroxScans)
    ensures
        final(out)@ == old(out)@ + scans_json(scans@),
{
    out.push('[');
    let n = scans.scans.len();
    let mut i: usize = 0;
    proof {
        assert(scans@.subrange(0, 0) =~= Seq::<ScanView>::empty());
    }
    while i < n
        invariant
            i <= n,
            n == scans@.len(),
            scans@.len() == scans.scans@.len(),
            out@ == old(out)@ + seq!['['] + scans_json_items(scans@.subrange(0, i as int)),
        decreases n - i,
    {
        if i > 0 {
            out.push(',');
        }
        push_scan_json(out, &scans.scans[i]);
        proof {
            let sub = scans@.subrange(0, i + 1 as int);
            assert(sub.last() == scans@[i as int]);
            assert(sub.drop_last() =~= scans@.subrange(0, i as int));
            if i == 0 {
                assert(sub.len() == 1);
                assert(sub[0] == scans@[0]);
            }
            assert(out@ =~= old(out)@ + seq!['['] + scans_json_items(sub));
        }
        i = i + 1;
    }
    out.push(']');
    proof {
        assert(scans@.subrange(0, n as int) =~= scans@);
        assert(out@ =~= old(out)@ + scans_json(scans@));
    }
}

/// Append the JSON object of a response's headers.
fn push_headers_json(out: &mut Vec<char>, headers: &Vec<(String, String)>)
    ensures
        final(out)@ == old(out)@ + headers_json(
            headers@.map_values(|h: (String, String)| (h.0@, h.1@)),
        ),
{
    let ghost hv = headers@.map_values(|h: (String, String)| (h.0@, h.1@));
    out.push('{');
    let n = headers.len();
    let mut i: usize = 0;
    proof {
        assert(hv.subrange(0, 0) =~= Seq::<(Seq<char>, Seq<char>)>::empty());
    }
    while i < n
        invariant
            i <= n,
            n == headers@.len(),
            hv == headers@.map_values(|h: (String, String)| (h.0@, h.1@)),
            hv.len() == n,
            out@ == old(out)@ + seq!['{'] + headers_json_items(hv.subrange(0, i as int)),
        decreases n - i,
    {
        if i > 0 {
            out.push(',');
        }
        push_json_string(out, headers[i].0.as_str());
        out.push(':');
        push_json_string(out, headers[i].1.as_str());
        proof {
            let sub = hv.subrange(0, i + 1 as int);
            assert(hv[i as int] == (headers@[i as int].0@, headers@[i as int].1@));
            assert(sub.last() == hv[i as int]);
            assert(sub.drop_last() =~= hv.subrange(0, i as int));
            if i == 0 {
                assert(sub.len() == 1);
                assert(sub[0] == hv[0]);
            }
            assert(out@ =~= old(out)@ + seq!['{'] + headers_json_items(sub));
        }
        i = i + 1;
    }
    out.push('}');
    proof {
        assert(hv.subrange(0, n as int) =~= hv);
        assert(out@ =~= old(out)@ + headers_json(hv));
    }
}

/// Append the JSON record of one cached response.
pub fn push_response_json(out: &mut Vec<char>, response: &FeroxResponse)
    ensures
        final(out)@ == old(out)@ + response_json(response@),
{
    push_lit(out, "{\"type\":\"response\",\"url\":");
    push_json_string(out, response.url.as_str());
    push_lit(out, ",\"path\":");
    push_json_string(out, response.path.as_str());
    push_lit(out, ",\"wildcard\":");
    push_bool(out, response.wildcard);
    push_lit(out, ",\"status\":");
    push_u64(out, response.status as u64);
    push_lit(out, ",\"content_length\":");
    push_u64(out, response.content_length);
    push_lit(out, ",\"line_count\":");
    push_u64(out, response.line_count);
    push_lit(out, ",\"word_count\":");
    push_u64(out, response.word_count);
    push_lit(out, ",\"headers\":");
    push_headers_json(out, &response.headers);
    push_lit(out, "}");
    proof {
        assert(out@ =~= old(out)@ + response_json(response@));
    }
}

/// Append the JSON array of all cached responses.
pub fn push_responses_json(out: &mut Vec<char>, responses: &FeroxResponses)
    ensures
        final(out)@ == old(out)@ + responses_json(responses@),
{
    out.push('[');
    let n = responses.responses.len();
    let mut i: usize = 0;
    proof {
        assert(responses@.subrange(0, 0) =~= Seq::<ResponseView>::empty());
    }
    while i < n
        invariant
            i <= n,
            n == responses@.len(),
            responses@.len() == responses.responses@.len(),
            out@ == old(out)@ + seq!['['] + responses_json_items(responses@.subrange(0, i as int)),
        decreases n - i,
    {
        if i > 0 {
            out.push(',');
        }
        push_response_json(out, &responses.responses[i]);
        proof {
            let sub = responses@.subrange(0, i + 1 as int);
            assert(sub.last() == responses@[i as int]);
            assert(sub.drop_last() =~= responses@.subrange(0, i as int));
            if i == 0 {
                assert(sub.len() == 1);
                assert(sub[0] == responses@[0]);
            }
            assert(out@ =~= old(out)@ + seq!['['] + responses_json_items(sub));
        }
        i = i + 1;
    }
    out.push(']');
    proof {
        assert(responses@.subrange(0, n as int) =~= responses@);
        assert(out@ =~= old(out)@ + responses_json(responses@));
    }
}

impl FeroxScan {
    /// The JSON record of this scan: id, url, scan_type, complete, in that
    /// order, and nothing else.
    pub fn as_json(&self) -> (r: String)
        ensures
            r@ == scan_json(self@),
    {
        let mut out: Vec<char> = Vec::new();
        push_scan_json(&mut out, self);
        chars_to_string(&out)
    }
}

impl FeroxScans {
    /// The JSON array of all registered scans, in registry order.
    pub fn as_json(&self) -> (r: String)
        ensures
            r@ == scans_json(self@),
    {
        let mut out: Vec<char> = Vec::new();
        push_scans_json(&mut out, self);
        chars_to_string(&out)
    }
}

impl FeroxResponse {
    /// The JSON record of this response.
    pub fn as_json(&self) -> (r: String)
        ensures
            r@ == response_json(self@),
    {
        let mut out: Vec<char> = Vec::new();
        push_response_json(&mut out, self);
        chars_to_string(&out)
    }
}

impl FeroxResponses {
    /// The JSON array of all cached responses, in stored order.
    pub fn as_json(&self) -> (r: String)
        ensures
            r@ == responses_json(self@),
    {
        let mut out: Vec<char> = Vec::new();
        push_responses_json(&mut out, self);
        chars_to_string(&out)
    }
}

/// A point-in-time aggregate of the live registry, configuration, and cache:
/// the serialization boundary for checkpoints. It only borrows the three.
#[derive(Debug)]
pub struct FeroxState<'a> {
    /// The known scans.
    pub scans: &'a FeroxScans,

    /// The running configuration.
    pub config: &'a Configuration,

    /// The known responses.
    pub responses: &'a FeroxResponses,
}

impl<'a> FeroxState<'a> {
    /// The state file's JSON text: one object with the fields scans, config,
    /// responses, the configuration text standing verbatim.
    pub fn as_json(&self) -> (r: String)
        ensures
            r@ == state_json(self.scans@, self.config@, self.responses@),
    {
        let mut out: Vec<char> = Vec::new();
        push_lit(&mut out, "{\"scans\":");
        push_scans_json(&mut out, self.scans);
        push_lit(&mut out, ",\"config\":");
        push_lit(&mut out, self.config.raw.as_str());
        push_lit(&mut out, ",\"responses\":");
        push_responses_json(&mut out, self.responses);
        push_lit(&mut out, "}");
        proof {
            assert(out@ =~= state_json(self.scans@, self.config@, self.responses@));
        }
        chars_to_string(&out)
    }

    /// Relies on std's derived `Debug` formatting: a human-readable dump of
    /// the aggregate, for logs rather than for machines; its exact text is
    /// not pinned down.
    #[verifier::external_body]
    pub fn as_str(&self) -> String {
        format!("{self:?}")
    }
}

} // verus!
