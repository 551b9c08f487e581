use scan_manager::FeroxScan;
use scan_manager::ScanType;

#[test]
/// test that ScanType's default is File
fn default_scantype_is_file() {
    match ScanType::default() {
        ScanType::File => {}
        ScanType::Directory => panic!(),
    }
}

#[test]
/// ensure that PartialEq compares FeroxScan.id fields
fn partial_eq_compares_the_id_field() {
    let url = "http://unknown_url/";
    let scan = FeroxScan::new(url, ScanType::Directory, None);
    let mut scan_two = FeroxScan::new(url, ScanType::Directory, None);

    assert!(!scan.eq(&scan_two));

    scan_two.id = scan.id.clone();

    assert!(scan.eq(&scan_two));
}

#[test]
/// show that a new progress bar is created if one doesn't exist
fn ferox_scan_get_progress_bar_when_none_is_set() {
    let mut scan = FeroxScan::default();

    assert!(scan.progress_bar.is_none()); // no pb exists

    let pb = scan.progress_bar(0);

    assert!(scan.progress_bar.is_some()); // new pb created
    assert!(!pb.is_finished()) // not finished
}

#[test]
/// abort should call stop_progress_bar, marking it as finished
fn abort_stops_progress_bar() {
    let pb = indicatif::ProgressBar::new(1);
    let url = "http://unknown_url/";
    let scan = FeroxScan::new(url, ScanType::Directory, Some(pb));

    assert_eq!(scan.progress_bar.as_ref().unwrap().is_finished(), false);

    scan.abort();

    assert_eq!(scan.progress_bar.as_ref().unwrap().is_finished(), true);
}

#[test]
/// two freshly created scans draw distinct 32-character ids
fn new_scans_draw_distinct_ids() {
    let a = FeroxScan::new("http://a/", ScanType::File, None);
    let b = FeroxScan::new("http://a/", ScanType::File, None);
    assert_eq!(a.id.len(), 32);
    assert_eq!(b.id.len(), 32);
    assert_ne!(a.id, b.id);
}

#[test]
/// finishing a scan marks it complete and leaves the rest alone
fn finish_marks_complete() {
    let mut scan = FeroxScan::new("http://x/", ScanType::Directory, None);
    assert!(!scan.complete);
    scan.finish();
    assert!(scan.complete);
    assert_eq!(scan.url, "http://x/");
}

#[test]
/// the status line is the completion marker left-justified to width ten, a
/// space, and the URL
fn status_line_lays_out_marker_and_url() {
    let mut scan = FeroxScan::new("http://x/", ScanType::Directory, None);
    assert_eq!(scan.status_line(), "incomplete http://x/");
    scan.finish();
    assert_eq!(scan.status_line(), "complete   http://x/");
}
