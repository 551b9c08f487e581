use scan_manager::FeroxScan;
use scan_manager::FeroxScans;
use scan_manager::ScanType;

#[test]
/// add an unknown url to the collection, expect true
fn add_url_to_list_of_scanned_urls_with_unknown_url() {
    let mut urls = FeroxScans::default();
    let url = "http://unknown_url";
    let (result, _idx) = urls.add_directory_scan(url, 0);
    assert_eq!(result, true);
}

#[test]
/// add a known url to the collection, with a trailing slash, expect false
fn add_url_to_list_of_scanned_urls_with_known_url() {
    let mut urls = FeroxScans::default();
    let pb = indicatif::ProgressBar::new(1);
    let url = "http://unknown_url/";
    let scan = FeroxScan::new(url, ScanType::Directory, Some(pb));

    assert_eq!(urls.insert(scan), true);

    let (result, _idx) = urls.add_directory_scan(url, 0);

    assert_eq!(result, false);
}

#[test]
/// add a known url to the collection, without a trailing slash, expect false
fn add_url_to_list_of_scanned_urls_with_known_url_without_slash() {
    let mut urls = FeroxScans::default();
    let url = "http://unknown_url";
    let scan = FeroxScan::new(url, ScanType::File, None);

    assert_eq!(urls.insert(scan), true);

    let (result, _idx) = urls.add_file_scan(url, 0);

    assert_eq!(result, false);
}

#[test]
/// just increasing coverage, no real expectations
fn call_display_scans() {
    let mut urls = FeroxScans::default();
    let pb = indicatif::ProgressBar::new(1);
    let pb_two = indicatif::ProgressBar::new(2);
    let url = "http://unknown_url/";
    let url_two = "http://unknown_url/fa";
    let scan = FeroxScan::new(url, ScanType::Directory, Some(pb));
    let mut scan_two = FeroxScan::new(url_two, ScanType::Directory, Some(pb_two));

    scan_two.finish(); // one complete, one incomplete

    assert_eq!(urls.insert(scan), true);

    urls.display_scans();
}

#[test]
/// inserting a scan for a new URL succeeds and makes the registry contain
/// it; a second scan for the same URL is refused and the size is unchanged
fn insert_deduplicates_by_url() {
    let mut urls = FeroxScans::default();
    let url = "http://target/";
    assert!(!urls.contains(url));

    let first = FeroxScan::new(url, ScanType::Directory, None);
    assert_eq!(urls.insert(first), true);
    assert!(urls.contains(url));
    assert_eq!(urls.scans.len(), 1);

    let second = FeroxScan::new(url, ScanType::Directory, None);
    assert_eq!(urls.insert(second), false);
    assert_eq!(urls.scans.len(), 1);
}

#[test]
/// the first scan registered for a URL is the one handed back
fn get_scan_by_url_finds_the_scan() {
    let mut urls = FeroxScans::default();
    let scan = FeroxScan::new("http://a/", ScanType::File, None);
    let id = scan.id.clone();
    urls.insert(scan);

    assert!(urls.get_scan_by_url("http://b/").is_none());
    let found = urls.get_scan_by_url("http://a/").unwrap();
    assert_eq!(found.id, id);
}

#[test]
/// finishing by URL marks exactly that scan complete
fn finish_scan_marks_by_url() {
    let mut urls = FeroxScans::default();
    urls.insert(FeroxScan::new("http://a/", ScanType::Directory, None));
    urls.insert(FeroxScan::new("http://b/", ScanType::Directory, None));

    assert_eq!(urls.finish_scan("http://missing/"), false);
    assert_eq!(urls.finish_scan("http://b/"), true);
    assert!(!urls.get_scan_by_url("http://a/").unwrap().complete);
    assert!(urls.get_scan_by_url("http://b/").unwrap().complete);
}

#[test]
/// the interactive listing numbers directory scans by registry position and
/// leaves file scans out
fn directory_scan_positions_filter_and_order() {
    let mut urls = FeroxScans::default();
    urls.insert(FeroxScan::new("http://a/", ScanType::Directory, None));
    urls.insert(FeroxScan::new("http://b/file", ScanType::File, None));
    urls.insert(FeroxScan::new("http://c/", ScanType::Directory, None));

    assert_eq!(urls.directory_scan_positions(), vec![0, 2]);
}

#[test]
/// a directory scan is registered with an indicator attached; a file scan
/// without one
fn add_scan_attaches_indicator_by_kind() {
    let mut urls = FeroxScans::default();
    let (added_dir, dir_idx) = urls.add_directory_scan("http://dir/", 7);
    let (added_file, file_idx) = urls.add_file_scan("http://file", 7);
    assert!(added_dir && added_file);
    assert!(urls.scans[dir_idx].progress_bar.is_some());
    assert!(urls.scans[file_idx].progress_bar.is_none());
}
