//! One unit of discovery work: a URL being (or having been) probed, with its
//! kind, completion state, and the handles it exclusively owns.

use vstd::prelude::*;
use vstd::string::StringExecFns;

verus! {

/// Marks a scan unit as targeting a likely file or a likely directory.
#[derive(Debug, Clone, Copy, PartialEq, Eq, Structural)]
pub enum ScanType {
    File,
    Directory,
}

impl Default for ScanType {
    /// A scan is assumed to target a file until known otherwise.
    fn default() -> (r: Self)
        ensures
            r == ScanType::File,
    {
        ScanType::File
    }
}

#[verifier::external_type_specification]
#[verifier::external_body]
pub struct ExProgressBar(indicatif::ProgressBar);

#[verifier::external_type_specification]
#[verifier::external_body]
#[verifier::reject_recursive_types(T)]
pub struct ExJoinHandle<T>(tokio::task::JoinHandle<T>);

#[verifier::external_type_specification]
#[verifier::external_body]
pub struct ExJoinError(tokio::task::JoinError);

/// A character the simple id format uses: a lowercase hexadecimal digit.
pub open spec fn is_hex_id_char(c: char) -> bool {
    ('0' <= c && c <= '9') || ('a' <= c && c <= 'f')
}

/// Relies on uuid's `Uuid::new_v4` and its `Simple` formatter: a freshly
/// drawn random identifier rendered as exactly 32 lowercase hexadecimal
/// digits. The value is random, so nothing beyond its shape is promised.
#[verifier::external_body]
pub fn new_scan_id() -> (r: String)
    ensures
        r@.len() == 32,
        forall|k: int| 0 <= k < r@.len() ==> is_hex_id_char(#[trigger] r@[k]),
{
    uuid::Uuid::new_v4().simple().to_string()
}

/// Relies on indicatif's `ProgressBar::new` and `reset_elapsed`: builds a bar
/// whose length is the expected number of requests. The bar is an opaque
/// terminal handle; nothing is promised of it.
#[verifier::external_body]
pub(crate) fn make_progress_bar(length: u64) -> indicatif::ProgressBar {
    let pb = indicatif::ProgressBar::new(length);
    pb.reset_elapsed();
    pb
}

/// Relies on indicatif's `ProgressBar::finish`: marks the bar finished and
/// leaves it at its final position.
#[verifier::external_body]
fn bar_finish(pb: &indicatif::ProgressBar) {
    pb.finish();
}

/// Relies on indicatif's `ProgressBar::clone`: a cloned handle drives the same
/// underlying bar, so the handles stand for the same indicator.
#[verifier::external_body]
fn clone_bar(pb: &indicatif::ProgressBar) -> (r: indicatif::ProgressBar)
    ensures
        r == *pb,
{
    pb.clone()
}

/// The completion marker, left-justified to width ten.
pub open spec fn status_marker(complete: bool) -> Seq<char> {
    if complete {
        "complete  "@
    } else {
        "incomplete"@
    }
}

/// The plain text of a scan's status line: the ten-column completion
/// marker, a space, and the URL.
pub open spec fn spec_status_line(v: ScanView) -> Seq<char> {
    status_marker(v.complete) + seq![' '] + v.url
}

/// Relies on console's `style`: the given text in green, as far as the
/// terminal carries colour; the text itself is the caller's.
#[verifier::external_body]
fn paint_green(text: &str) -> String {
    format!("{}", console::style(text).green())
}

/// Relies on console's `style`: the given text in red, as far as the
/// terminal carries colour; the text itself is the caller's.
#[verifier::external_body]
fn paint_red(text: &str) -> String {
    format!("{}", console::style(text).red())
}

/// The fields of a scan that its contracts speak of; the owned task and
/// indicator handles are opaque and carry no specification.
pub struct ScanView {
    pub id: Seq<char>,
    pub url: Seq<char>,
    pub kind: ScanType,
    pub complete: bool,
}

/// One scan unit.
///
/// Identity is the `id` alone: two scans with the same URL but different ids
/// are distinct. The task handle is advisory (aborting a scan does not stop
/// the underlying work) and, like the indicator, is never persisted.
#[derive(Debug)]
pub struct FeroxScan {
    /// Unique identifier, assigned at creation, immutable thereafter.
    pub id: String,

    /// The URL to be scanned.
    pub url: String,

    /// Whether the unit targets a file or a directory.
    pub scan_type: ScanType,

    /// Whether this scan has completed.
    pub complete: bool,

    /// The spawned task performing this scan, if any; exclusively owned.
    pub task: Option<tokio::task::JoinHandle<()>>,

    /// The progress indicator for this scan, if any; exclusively owned.
    pub progress_bar: Option<indicatif::ProgressBar>,
}

impl View for FeroxScan {
    type V = ScanView;

    open spec fn view(&self) -> ScanView {
        ScanView {
            id: self.id@,
            url: self.url@,
            kind: self.scan_type,
            complete: self.complete,
        }
    }
}

impl Default for FeroxScan {
    /// A scan of nothing: fresh id, empty URL, file kind, incomplete, and no
    /// owned handles.
    fn default() -> (r: Self)
        ensures
            r@.id.len() == 32,
            r@.url == Seq::<char>::empty(),
            r@.kind == ScanType::File,
            !r@.complete,
            r.task is None,
            r.progress_bar is None,
    {
        FeroxScan {
            id: new_scan_id(),
            url: String::new(),
            scan_type: ScanType::File,
            complete: false,
            task: None,
            progress_bar: None,
        }
    }
}

impl FeroxScan {
    /// Create a scan for the given URL with a fresh unique id.
    pub fn new(url: &str, scan_type: ScanType, pb: Option<indicatif::ProgressBar>) -> (r: Self)
        ensures
            r@.id.len() == 32,
            r@.url == url@,
            r@.kind == scan_type,
            !r@.complete,
            r.task is None,
            r.progress_bar == pb,
    {
        FeroxScan {
            id: new_scan_id(),
            url: url.to_owned(),
            scan_type,
            complete: false,
            task: None,
            progress_bar: pb,
        }
    }

    /// Stop a currently running scan, as far as this unit can: the indicator
    /// is finished, while the task handle is advisory only and is left alone.
    pub fn abort(&self) {
        self.stop_progress_bar();
    }

    /// Finish the indicator if one is attached.
    fn stop_progress_bar(&self) {
        if let Some(pb) = &self.progress_bar {
            bar_finish(pb);
        }
    }

    /// Hand out the scan's indicator, creating and attaching one sized by the
    /// current request-count estimate if none exists; after the first call the
    /// attached indicator is returned unchanged.
    pub fn progress_bar(&mut self, num_requests: u64) -> (r: indicatif::ProgressBar)
        ensures
            final(self)@ == old(self)@,
            final(self).progress_bar is Some,
            final(self).task == old(self).task,
            old(self).progress_bar is Some ==> final(self).progress_bar == old(self).progress_bar,
            (r == final(self).progress_bar->0),
    {
        if let Some(pb) = &self.progress_bar {
            clone_bar(pb)
        } else {
            let pb = make_progress_bar(num_requests);
            let handle = clone_bar(&pb);
            self.progress_bar = Some(pb);
            handle
        }
    }

    /// Mark the scan complete and stop its indicator.
    pub fn finish(&mut self)
        ensures
            (final(self)@ == ScanView { complete: true, ..old(self)@ }),
            final(self).task == old(self).task,
            final(self).progress_bar == old(self).progress_bar,
    {
        self.complete = true;
        self.stop_progress_bar();
    }

    /// The plain text of the scan's status line: the completion marker,
    /// left-justified to width ten, a space, and the URL.
    pub fn status_line(&self) -> (r: String)
        ensures
            r@ == spec_status_line(self@),
    {
        let mut out: Vec<char> = Vec::new();
        if self.complete {
            crate::json::push_lit(&mut out, "complete  ");
        } else {
            crate::json::push_lit(&mut out, "incomplete");
        }
        out.push(' ');
        crate::json::push_lit(&mut out, self.url.as_str());
        proof {
            assert(out@ =~= spec_status_line(self@));
        }
        crate::text::chars_to_string(&out)
    }

    /// The status line as shown interactively: the same marker, padding,
    /// space and URL as `status_line`, with the marker coloured by the
    /// completion flag. The colouring depends on the terminal, so only the
    /// structure is stated here.
    pub fn display_line(&self) -> String {
        let mut line = if self.complete {
            paint_green("complete")
        } else {
            paint_red("incomplete")
        };
        if self.complete {
            line.append("   ");
        } else {
            line.append(" ");
        }
        line.append(self.url.as_str());
        line
    }
}

impl PartialEq for FeroxScan {
    /// Two scans are equal exactly when their ids are: the URL and the rest of
    /// the state play no part in identity.
    fn eq(&self, other: &Self) -> (r: bool) {
        self.id == other.id
    }
}

impl vstd::std_specs::cmp::PartialEqSpecImpl for FeroxScan {
    open spec fn obeys_eq_spec() -> bool {
        true
    }

    open spec fn eq_spec(&self, other: &Self) -> bool {
        self.id@ == other.id@
    }
}

} // verus!
