use scan_manager::Configuration;
use scan_manager::FeroxResponse;
use scan_manager::FeroxResponses;
use scan_manager::FeroxScan;
use scan_manager::FeroxScans;
use scan_manager::ScanType;
use scan_manager::restore::StateError;
use scan_manager::restore::restore_state;

#[test]
/// given a JSON entry representing a FeroxScan, test that it deserializes
/// into the proper type with the right attributes
fn ferox_scan_deserialize() {
    let fs_json = r#"{"id":"057016a14769414aac9a7a62707598cb","url":"https://spiritanimal.com","scan_type":"Directory","complete":true}"#;
    let fs_json_two = r#"{"id":"057016a14769414aac9a7a62707598cb","url":"https://spiritanimal.com","scan_type":"Not Correct","complete":true}"#;

    let fs = FeroxScan::from_json(fs_json).unwrap();
    let fs_two = FeroxScan::from_json(fs_json_two).unwrap();
    assert_eq!(fs.url, "https://spiritanimal.com");

    match fs.scan_type {
        ScanType::Directory => {}
        ScanType::File => {
            panic!();
        }
    }
    match fs_two.scan_type {
        ScanType::Directory => {
            panic!();
        }
        ScanType::File => {}
    }

    match fs.progress_bar {
        None => {}
        Some(_) => {
            panic!();
        }
    }
    assert_eq!(fs.complete, true);
    assert_eq!(fs.id, "057016a14769414aac9a7a62707598cb");
}

#[test]
/// serializing a scan and reading the record back reproduces the four
/// persisted fields exactly
fn scan_round_trips_through_json() {
    let mut scan = FeroxScan::new("http://host/\"x\\y\nz", ScanType::Directory, None);
    scan.finish();
    let text = scan.as_json();
    let back = FeroxScan::from_json(&text).unwrap();
    assert_eq!(back.id, scan.id);
    assert_eq!(back.url, scan.url);
    assert!(matches!(back.scan_type, ScanType::Directory));
    assert_eq!(back.complete, true);
}

#[test]
/// a scan record without an id draws a fresh 32-character one, and missing
/// fields keep their defaults
fn scan_record_defaults_fill_in() {
    let scan = FeroxScan::from_json(r#"{"url":"http://a/"}"#).unwrap();
    assert_eq!(scan.id.len(), 32);
    assert_eq!(scan.url, "http://a/");
    assert!(matches!(scan.scan_type, ScanType::File));
    assert!(!scan.complete);

    // not an object at all
    assert!(FeroxScan::from_json("[1,2,3]").is_none());
    assert!(FeroxScan::from_json("{\"url\": \"x\"").is_none());
}

#[test]
/// a state file that is not one well-formed JSON object restores nothing
fn restore_state_rejects_invalid_json() {
    let mut registry = FeroxScans::default();
    let mut cache = FeroxResponses::default();
    let r = restore_state("{\"scans\": [", &mut registry, &mut cache);
    assert_eq!(r.unwrap_err(), StateError::InvalidJson);
    assert_eq!(registry.scans.len(), 0);
    assert_eq!(cache.responses.len(), 0);

    let r = restore_state("42", &mut registry, &mut cache);
    assert_eq!(r.unwrap_err(), StateError::InvalidJson);
}

#[test]
/// a state file without a configuration cannot be resumed from
fn restore_state_requires_config() {
    let mut registry = FeroxScans::default();
    let mut cache = FeroxResponses::default();
    let r = restore_state(r#"{"scans":[],"responses":[]}"#, &mut registry, &mut cache);
    assert_eq!(r.unwrap_err(), StateError::MissingConfig);
    assert_eq!(registry.scans.len(), 0);
}

#[test]
/// a response element that is not a tagged response record — a bare value,
/// an empty object, an untagged object — is skipped, while the rest are
/// restored
fn restore_state_skips_bad_responses() {
    let mut registry = FeroxScans::default();
    let mut cache = FeroxResponses::default();
    let state = r#"{
        "config": {"threads": 50},
        "responses": [7, {}, {"url":"http://untagged/"}, {"type":"response","url":"http://a/x","path":"/x","wildcard":false,"status":200,"content_length":5,"line_count":1,"word_count":2,"headers":{}}, "nope"]
    }"#;
    let config = restore_state(state, &mut registry, &mut cache).unwrap();
    assert_eq!(config.raw, r#"{"threads": 50}"#);
    assert_eq!(cache.responses.len(), 1);
    assert_eq!(cache.responses[0].url, "http://a/x");
}

#[test]
/// a scan element that is not an object falls back to a default scan, and
/// duplicate URLs are not registered twice
fn restore_state_defaults_bad_scans() {
    let mut registry = FeroxScans::default();
    let mut cache = FeroxResponses::default();
    let state = r#"{
        "config": {},
        "scans": [
            {"id":"00000000000000000000000000000001","url":"http://a/","scan_type":"Directory","complete":true},
            17,
            {"id":"00000000000000000000000000000002","url":"http://a/","scan_type":"File","complete":false}
        ]
    }"#;
    restore_state(state, &mut registry, &mut cache).unwrap();
    // the default scan from `17` has an empty URL; the third entry shares
    // http://a/ with the first and is refused
    assert_eq!(registry.scans.len(), 2);
    assert_eq!(registry.scans[0].url, "http://a/");
    assert!(registry.scans[0].complete);
    assert_eq!(registry.scans[1].url, "");
}

#[test]
/// pass a known serialized scan with 1 scan complete and 1 not. expect the
/// incomplete scan to start and the complete one to not start. expect the
/// responses, scans, and configuration structures to be populated based off
/// the contents of the given state file
fn resume_scan_works() {
    let base = "http://localhost:55555";
    let complete_scan = format!(
        r#"{{"id":"057016a14769414aac9a7a62707598cb","url":"{}/","scan_type":"Directory","complete":true}}"#,
        base
    );
    let incomplete_scan = format!(
        r#"{{"id":"400b2323a16f43468a04ffcbbeba34c6","url":"{}/js","scan_type":"Directory","complete":false}}"#,
        base
    );
    let scans = format!(r#""scans":[{},{}]"#, complete_scan, incomplete_scan);
    let config = format!(
        r#""config": {{"type":"configuration","wordlist":"wordlist","target_url":"{}/","threads":50,"timeout":7,"scan_limit":1}}"#,
        base
    );
    let response = format!(
        r#"{{"type":"response","url":"{}/js/css","path":"/js/css","wildcard":true,"status":301,"content_length":173,"line_count":10,"word_count":16,"headers":{{"server":"nginx/1.16.1"}}}}"#,
        base
    );
    let responses = format!(r#""responses":[{}]"#, response);
    let state_file_contents = format!("{{{},{},{}}}", scans, config, responses);

    let mut registry = FeroxScans::default();
    let mut cache = FeroxResponses::default();
    let restored: Configuration =
        restore_state(&state_file_contents, &mut registry, &mut cache).unwrap();
    assert!(restored.raw.contains("wordlist"));

    // a driver pass over the restored state: every registered directory
    // scan not yet complete is rescanned with the wordlist; a response
    // already cached is requested but its output suppressed
    let wordlist = ["css", "stuff"];
    let mut requested: Vec<String> = Vec::new();
    let mut emitted: Vec<String> = Vec::new();
    let targets = [format!("{}/", base), format!("{}/js", base)];
    for target in &targets {
        let scan = registry.get_scan_by_url(target).unwrap();
        if scan.complete {
            continue;
        }
        for word in &wordlist {
            let url = format!("{}/{}", target.trim_end_matches('/'), word);
            requested.push(url.clone());
            let mut probe = FeroxResponse::from_json(
                r#"{"type":"response","url":"","path":"","wildcard":false,"status":200,"content_length":22,"line_count":1,"word_count":5,"headers":{}}"#,
            )
            .unwrap();
            probe.url = url.clone();
            if !cache.contains(&probe) {
                emitted.push(url.clone());
                cache.insert(probe);
            }
        }
    }

    // nothing under the completed base scan is requested
    assert!(!requested.iter().any(|u| u == &format!("{}/css", base)));
    // the new path is requested exactly once and its output appears
    assert_eq!(
        requested.iter().filter(|u| *u == &format!("{}/js/stuff", base)).count(),
        1
    );
    assert!(emitted.iter().any(|u| u == &format!("{}/js/stuff", base)));
    // the cached path is requested exactly once but its output is suppressed
    assert_eq!(
        requested.iter().filter(|u| *u == &format!("{}/js/css", base)).count(),
        1
    );
    assert!(!emitted.iter().any(|u| u == &format!("{}/js/css", base)));
}

#[test]
/// membership in the cache goes by URL alone: differing status and sizes on
/// an otherwise-matching URL still count as contained
fn cache_contains_matches_url_only() {
    let mut cache = FeroxResponses::default();
    let stored = FeroxResponse::from_json(
        r#"{"type":"response","url":"http://a/x","path":"/x","wildcard":false,"status":200,"content_length":10,"line_count":1,"word_count":2,"headers":{}}"#,
    )
    .unwrap();
    cache.insert(stored);

    let same_url_other_fields = FeroxResponse::from_json(
        r#"{"type":"response","url":"http://a/x","path":"/x","wildcard":true,"status":404,"content_length":999,"line_count":9,"word_count":9,"headers":{"k":"v"}}"#,
    )
    .unwrap();
    let other_url = FeroxResponse::from_json(
        r#"{"type":"response","url":"http://a/y","path":"/y","wildcard":false,"status":200,"content_length":10,"line_count":1,"word_count":2,"headers":{}}"#,
    )
    .unwrap();

    assert!(cache.contains(&same_url_other_fields));
    assert!(!cache.contains(&other_url));
}

#[test]
/// unicode escapes in a record decode to their characters
fn scan_record_decodes_unicode_escapes() {
    let scan = FeroxScan::from_json(r#"{"url":"http://a/\u0041\u00e9\n"}"#).unwrap();
    assert_eq!(scan.url, "http://a/A\u{e9}\n");

    // a lone surrogate is not a character
    assert!(FeroxScan::from_json(r#"{"url":"\ud800"}"#).is_none());
}

#[test]
/// an empty record is a default scan; a duplicated member's later value wins
fn scan_record_duplicates_and_empties() {
    let empty = FeroxScan::from_json("{}").unwrap();
    assert_eq!(empty.id.len(), 32);
    assert_eq!(empty.url, "");
    assert!(matches!(empty.scan_type, ScanType::File));
    assert!(!empty.complete);

    let dup = FeroxScan::from_json(r#"{"url":"http://first/","url":"http://second/"}"#).unwrap();
    assert_eq!(dup.url, "http://second/");

    // an ill-typed member keeps the field's earlier value
    let kept = FeroxScan::from_json(r#"{"url":"http://first/","url":17}"#).unwrap();
    assert_eq!(kept.url, "http://first/");
}

#[test]
/// only a JSON object carrying the record tag reads back as a response
fn response_from_json_requires_the_tag() {
    assert!(FeroxResponse::from_json("{}").is_none());
    assert!(FeroxResponse::from_json(r#"{"url":"http://a/x"}"#).is_none());
    assert!(FeroxResponse::from_json(r#"{"type":"wrong","url":"http://a/x"}"#).is_none());
    let tagged = FeroxResponse::from_json(r#"{"type":"response","url":"http://a/x"}"#).unwrap();
    assert_eq!(tagged.url, "http://a/x");
    assert_eq!(tagged.status, 0);
}
