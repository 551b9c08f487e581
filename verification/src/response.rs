//! The response cache: the de-duplicated store of completed probe outcomes,
//! keyed by URL.

use vstd::prelude::*;

verus! {

/// The fields of a cached probe outcome.
pub struct ResponseView {
    pub url: Seq<char>,
    pub path: Seq<char>,
    pub wildcard: bool,
    pub status: u16,
    pub content_length: u64,
    pub line_count: u64,
    pub word_count: u64,
    pub headers: Seq<(Seq<char>, Seq<char>)>,
}

/// One completed probe outcome.
///
/// A cached entry for a URL is a witness that the URL's outcome is already
/// known; whether the stored status or sizes still match reality plays no
/// part in membership.
#[derive(Debug)]
pub struct FeroxResponse {
    /// The probed URL.
    pub url: String,

    /// The path component of the probed URL.
    pub path: String,

    /// Whether the response was judged a wildcard response.
    pub wildcard: bool,

    /// The HTTP status code.
    pub status: u16,

    /// The number of bytes in the response body.
    pub content_length: u64,

    /// The number of lines in the response body.
    pub line_count: u64,

    /// The number of words in the response body.
    pub word_count: u64,

    /// The response headers, in stored order; the order carries no meaning.
    pub headers: Vec<(String, String)>,
}

impl View for FeroxResponse {
    type V = ResponseView;

    open spec fn view(&self) -> ResponseView {
        ResponseView {
            url: self.url@,
            path: self.path@,
            wildcard: self.wildcard,
            status: self.status,
            content_length: self.content_length,
            line_count: self.line_count,
            word_count: self.word_count,
            headers: self.headers@.map_values(|h: (String, String)| (h.0@, h.1@)),
        }
    }
}

impl FeroxResponse {
    /// An empty outcome: every field at its zero value.
    pub fn new_empty() -> (r: Self)
        ensures
            r@.url == Seq::<char>::empty(),
            r@.path == Seq::<char>::empty(),
            !r@.wildcard,
            r@.status == 0,
            r@.content_length == 0,
            r@.line_count == 0,
            r@.word_count == 0,
            r@.headers == Seq::<(Seq<char>, Seq<char>)>::empty(),
    {
        let r = FeroxResponse {
            url: String::new(),
            path: String::new(),
            wildcard: false,
            status: 0,
            content_length: 0,
            line_count: 0,
            word_count: 0,
            headers: Vec::new(),
        };
        proof {
            assert(r@.headers =~= Seq::<(Seq<char>, Seq<char>)>::empty());
        }
        r
    }
}

/// Whether some cached outcome is for exactly this URL.
pub open spec fn contains_response_url(views: Seq<ResponseView>, url: Seq<char>) -> bool {
    exists|i: int| 0 <= i < views.len() && views[i].url == url
}

/// The de-duplicated store of completed probe outcomes.
///
/// Insertion appends without checking; `contains` is the de-duplication test
/// callers run before emitting output, and it matches by URL alone.
#[derive(Debug, Default)]
pub struct FeroxResponses {
    /// The stored outcomes, in insertion order.
    pub responses: Vec<FeroxResponse>,
}

impl View for FeroxResponses {
    type V = Seq<ResponseView>;

    open spec fn view(&self) -> Seq<ResponseView> {
        self.responses@.map_values(|r: FeroxResponse| r@)
    }
}

impl FeroxResponses {
    /// An empty cache.
    pub fn new() -> (r: Self)
        ensures
            r@ == Seq::<ResponseView>::empty(),
    {
        let r = FeroxResponses { responses: Vec::new() };
        proof {
            assert(r@ =~= Seq::<ResponseView>::empty());
        }
        r
    }

    /// Store an outcome. Duplicates are tolerated in storage: nothing is
    /// checked here, the entry is appended as given.
    pub fn insert(&mut self, response: FeroxResponse)
        ensures
            final(self)@ == old(self)@.push(response@),
    {
        let ghost pre = self@;
        let ghost v = response@;
        self.responses.push(response);
        proof {
            assert(self@ =~= pre.push(v));
        }
    }

    /// Whether an outcome for this response's URL is already stored. Only the
    /// URL is compared: a stored entry with a different status or size still
    /// counts.
    pub fn contains(&self, other: &FeroxResponse) -> (r: bool)
        ensures
            r == contains_response_url(self@, other@.url),
    {
        let n = self.responses.len();
        let mut i: usize = 0;
        while i < n
            invariant
                i <= n,
                n == self@.len(),
                self@.len() == self.responses@.len(),
                forall|j: int| 0 <= j < i ==> self@[j].url != other@.url,
            decreases n - i,
        {
            if crate::text::str_eq(self.responses[i].url.as_str(), other.url.as_str()) {
                proof {
                    assert(self@[i as int].url == other@.url);
                }
                return true;
            }
            i = i + 1;
        }
        false
    }
}

} // verus!
