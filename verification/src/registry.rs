//! The scan registry: the ordered, de-duplicated collection of all scans,
//! shared by discovery, display, and checkpointing.

use std::io::Write;
use vstd::prelude::*;

use crate::scan::FeroxScan;
use crate::scan::ScanType;
use crate::scan::ScanView;
use crate::scan::make_progress_bar;
use crate::text::str_eq;

verus! {

/// A run of spaces.
pub open spec fn spaces(n: nat) -> Seq<char>
    decreases n,
{
    if n == 0 {
        Seq::empty()
    } else {
        spaces((n - 1) as nat).push(' ')
    }
}

/// The listing prefix for a registry position: the number right-justified
/// to width three, a colon and a space.
pub open spec fn index_prefix(i: nat) -> Seq<char> {
    let d = crate::json::dec_str(i);
    (if d.len() < 3 {
        spaces((3 - d.len()) as nat)
    } else {
        Seq::empty()
    }) + d + ": "@
}

/// The registry positions of the directory scans, in insertion order.
pub open spec fn dir_positions(views: Seq<ScanView>) -> Seq<int>
    decreases views.len(),
{
    if views.len() == 0 {
        Seq::empty()
    } else if views.last().kind == ScanType::Directory {
        dir_positions(views.drop_last()).push(views.len() - 1)
    } else {
        dir_positions(views.drop_last())
    }
}

/// Whether some registered scan targets exactly this URL.
pub open spec fn contains_url(views: Seq<ScanView>, url: Seq<char>) -> bool {
    exists|i: int| 0 <= i < views.len() && views[i].url == url
}

/// What recording a scan for `url` of kind `kind` does to the registry:
/// appended exactly when the URL was new, untouched otherwise, and `idx` is
/// the position of the first scan registered for the URL.
pub open spec fn add_scan_post(
    pre: Seq<ScanView>,
    post: Seq<ScanView>,
    url: Seq<char>,
    kind: ScanType,
    inserted: bool,
    idx: usize,
) -> bool {
    &&& inserted == !contains_url(pre, url)
    &&& (!inserted ==> post == pre)
    &&& (inserted ==> post.len() == pre.len() + 1 && post.drop_last() == pre && post.last().url
        == url && post.last().kind == kind && !post.last().complete && post.last().id.len() == 32)
    &&& idx < post.len()
    &&& post[idx as int].url == url
    &&& (forall|j: int| 0 <= j < idx ==> post[j].url != url)
}

/// The collection of all scans.
///
/// At most one scan per distinct URL is ever registered through `insert`, and
/// insertion order is preserved: it numbers the interactive listing.
#[derive(Debug, Default)]
pub struct FeroxScans {
    /// The registered scans, in insertion order.
    pub scans: Vec<FeroxScan>,
}

impl View for FeroxScans {
    type V = Seq<ScanView>;

    open spec fn view(&self) -> Seq<ScanView> {
        self.scans@.map_values(|s: FeroxScan| s@)
    }
}

impl FeroxScans {
    /// An empty registry.
    pub fn new() -> (r: Self)
        ensures
            r@ == Seq::<ScanView>::empty(),
    {
        let r = FeroxScans { scans: Vec::new() };
        proof {
            assert(r@ =~= Seq::<ScanView>::empty());
        }
        r
    }

    /// The position of the first scan registered for this URL, if any.
    pub fn position_of_url(&self, url: &str) -> (r: Option<usize>)
        ensures
            (r is Some) == contains_url(self@, url@),
            (r matches Some(i) ==> i < self@.len() && self@[i as int].url == url@ && (forall|
                j: int,
            | 0 <= j < i ==> self@[j].url != url@)),
    {
        let n = self.scans.len();
        let mut i: usize = 0;
        while i < n
            invariant
                i <= n,
                n == self@.len(),
                self@.len() == self.scans@.len(),
                forall|j: int| 0 <= j < i ==> self@[j].url != url@,
        decreases n - i,
        {
            if str_eq(self.scans[i].url.as_str(), url) {
                return Some(i);
            }
            i = i + 1;
        }
        None
    }

    /// Record a scan, unless one for its URL is already present.
    ///
    /// Returns true and appends the scan exactly when no registered scan
    /// shares its URL; otherwise returns false and changes nothing. The
    /// membership check and the push form one critical section, so two
    /// concurrent discoveries of the same URL cannot both be recorded.
    pub fn insert(&mut self, scan: FeroxScan) -> (r: bool)
        ensures
            r == !contains_url(old(self)@, scan@.url),
            r ==> final(self)@ == old(self)@.push(scan@),
            r ==> final(self).scans@ == old(self).scans@.push(scan),
            !r ==> final(self)@ == old(self)@,
            !r ==> final(self).scans@ == old(self).scans@,
    {
        let ghost pre = self@;
        if self.contains(scan.url.as_str()) {
            false
        } else {
            let ghost v = scan@;
            self.scans.push(scan);
            proof {
                assert(self@ =~= pre.push(v));
            }
            true
        }
    }

    /// Whether a scan for exactly this URL is registered.
    pub fn contains(&self, url: &str) -> (r: bool)
        ensures
            r == contains_url(self@, url@),
    {
        self.position_of_url(url).is_some()
    }

    /// The first scan registered for this URL, if any.
    pub fn get_scan_by_url(&self, url: &str) -> (r: Option<&FeroxScan>)
        ensures
            (r is Some) == contains_url(self@, url@),
            (r matches Some(s) ==> exists|i: int|
                0 <= i < self@.len() && self@[i] == s@ && s@.url == url@ && (forall|j: int|
                    0 <= j < i ==> self@[j].url != url@)),
    {
        match self.position_of_url(url) {
            Some(i) => {
                let s = &self.scans[i];
                proof {
                    assert(self@[i as int] == s@);
                }
                Some(s)
            },
            None => None,
        }
    }

    /// Mark the first scan registered for this URL complete and stop its
    /// indicator; returns whether such a scan was found.
    pub fn finish_scan(&mut self, url: &str) -> (r: bool)
        ensures
            r == contains_url(old(self)@, url@),
            !r ==> final(self)@ == old(self)@,
            (r ==> exists|i: int|
                {
                    &&& 0 <= i < old(self)@.len()
                    &&& old(self)@[i].url == url@
                    &&& (forall|j: int| 0 <= j < i ==> old(self)@[j].url != url@)
                    &&& final(self)@ == old(self)@.update(
                        i,
                        ScanView { complete: true, ..old(self)@[i] },
                    )
                }),
    {
        let ghost pre = self@;
        match self.position_of_url(url) {
            Some(i) => {
                let mut s = self.scans.remove(i);
                s.finish();
                self.scans.insert(i, s);
                proof {
                    assert(self@ =~= pre.update(
                        i as int,
                        ScanView { complete: true, ..pre[i as int] },
                    ));
                }
                true
            },
            None => false,
        }
    }

    /// The registry positions of the directory scans, in insertion order:
    /// the numbering of the interactive pause listing. File scans are not
    /// worth stopping and are left out.
    pub fn directory_scan_positions(&self) -> (r: Vec<usize>)
        ensures
            r@.map_values(|u: usize| u as int) == dir_positions(self@),
            forall|k: int| 0 <= k < r@.len() ==> #[trigger] r@[k] < self@.len(),
    {
        let n = self.scans.len();
        let mut out: Vec<usize> = Vec::new();
        proof {
            assert(self@.subrange(0, 0) =~= Seq::<ScanView>::empty());
            assert(out@.map_values(|u: usize| u as int) =~= Seq::<int>::empty());
        }
        let mut i: usize = 0;
        while i < n
            invariant
                i <= n,
                n == self.scans@.len(),
                n == self@.len(),
                out@.map_values(|u: usize| u as int) == dir_positions(self@.subrange(0, i as int)),
                forall|k: int| 0 <= k < out@.len() ==> #[trigger] out@[k] < i,
            decreases n - i,
        {
            let ghost prefix = self@.subrange(0, i as int);
            let ghost prefix1 = self@.subrange(0, i + 1 as int);
            proof {
                assert(prefix1.drop_last() =~= prefix);
                assert(prefix1.last() == self@[i as int]);
            }
            match self.scans[i].scan_type {
                ScanType::Directory => {
                    let ghost before = out@;
                    out.push(i);
                    proof {
                        assert(out@.map_values(|u: usize| u as int) =~= before.map_values(
                            |u: usize| u as int,
                        ).push(i as int));
                    }
                },
                ScanType::File => {},
            }
            i = i + 1;
        }
        proof {
            assert(self@.subrange(0, n as int) =~= self@);
        }
        out
    }

    /// Print the directory scans, numbered by registry position, for the
    /// interactive pause listing: each line is the position's three-column
    /// prefix followed by the scan's status line.
    pub fn display_scans(&self) {
        let positions = self.directory_scan_positions();
        let n = positions.len();
        let mut t: usize = 0;
        while t < n
            invariant
                n == positions@.len(),
                forall|k: int| 0 <= k < positions@.len() ==> #[trigger] positions@[k]
                    < self.scans@.len(),
            decreases n - t,
        {
            let i = positions[t];
            let mut prefix: Vec<char> = Vec::new();
            push_index_prefix(&mut prefix, i);
            let mut line = crate::text::chars_to_string(&prefix);
            let styled = self.scans[i].display_line();
            line.append(styled.as_str());
            print_line(line.as_str());
            t = t + 1;
        }
    }

    /// Create a scan for the URL (with an indicator sized by the request
    /// count when it is a directory scan) and record it; returns whether it
    /// was new, and the position of the first scan registered for the URL.
    fn add_scan(&mut self, url: &str, scan_type: ScanType, num_requests: u64) -> (r: (bool, usize))
        ensures
            add_scan_post(old(self)@, final(self)@, url@, scan_type, r.0, r.1),
            (r.0 ==> final(self).scans@.drop_last() == old(self).scans@),
            (r.0 ==> final(self).scans@.len() == old(self).scans@.len() + 1),
            (r.0 ==> (final(self).scans@.last().progress_bar is Some <==> scan_type
                == ScanType::Directory)),
            (r.0 ==> final(self).scans@.last().task is None),
            !r.0 ==> final(self).scans@ == old(self).scans@,
    {
        let ghost pre = self@;
        let bar = match scan_type {
            ScanType::Directory => Some(make_progress_bar(num_requests)),
            ScanType::File => None,
        };
        let scan = FeroxScan::new(url, scan_type, bar);
        let inserted = self.insert(scan);
        proof {
            if inserted {
                assert(self@[self@.len() - 1].url == url@);
            }
        }
        let idx = match self.position_of_url(url) {
            Some(i) => i,
            None => {
                proof {
                    assert(false);
                }
                0
            },
        };
        proof {
            if inserted {
                assert(self@.drop_last() =~= pre);
                assert(self.scans@.drop_last() =~= old(self).scans@);
            }
        }
        (inserted, idx)
    }

    /// Create and record a directory scan for the URL; returns whether it was
    /// new, and the position of the first scan registered for the URL.
    pub fn add_directory_scan(&mut self, url: &str, num_requests: u64) -> (r: (bool, usize))
        ensures
            add_scan_post(old(self)@, final(self)@, url@, ScanType::Directory, r.0, r.1),
            (r.0 ==> final(self).scans@.drop_last() == old(self).scans@),
            (r.0 ==> final(self).scans@.last().progress_bar is Some),
            !r.0 ==> final(self).scans@ == old(self).scans@,
    {
        self.add_scan(url, ScanType::Directory, num_requests)
    }

    /// Create and record a file scan for the URL; returns whether it was new,
    /// and the position of the first scan registered for the URL.
    pub fn add_file_scan(&mut self, url: &str, num_requests: u64) -> (r: (bool, usize))
        ensures
            add_scan_post(old(self)@, final(self)@, url@, ScanType::File, r.0, r.1),
            (r.0 ==> final(self).scans@.drop_last() == old(self).scans@),
            (r.0 ==> final(self).scans@.last().progress_bar is None),
            !r.0 ==> final(self).scans@ == old(self).scans@,
    {
        self.add_scan(url, ScanType::File, num_requests)
    }
}

/// Append the listing prefix for a registry position.
fn push_index_prefix(out: &mut Vec<char>, i: usize)
    ensures
        final(out)@ == old(out)@ + index_prefix(i as nat),
{
    let mut digits: Vec<char> = Vec::new();
    crate::json::push_u64(&mut digits, i as u64);
    let ghost d = crate::json::dec_str(i as nat);
    if digits.len() == 1 {
        out.push(' ');
        out.push(' ');
        proof {
            assert(spaces(0) == Seq::<char>::empty());
            assert(spaces(1) =~= seq![' ']);
            assert(spaces(2) =~= seq![' ', ' ']);
        }
    } else if digits.len() == 2 {
        out.push(' ');
        proof {
            assert(spaces(0) == Seq::<char>::empty());
            assert(spaces(1) =~= seq![' ']);
        }
    }
    out.append(&mut digits);
    crate::json::push_lit(out, ": ");
    proof {
        assert(out@ =~= old(out)@ + index_prefix(i as nat));
    }
}

/// Relies on std output: writes the given listing line, as it stands, and
/// discards any write error.
#[verifier::external_body]
fn print_line(line: &str) {
    let _ = writeln!(std::io::stdout(), "{line}");
}

} // verus!
