use scan_manager::Configuration;
use scan_manager::FeroxResponse;
use scan_manager::FeroxResponses;
use scan_manager::FeroxScan;
use scan_manager::FeroxScans;
use scan_manager::FeroxState;
use scan_manager::ScanType;

#[test]
/// given a FeroxScan, test that it serializes into the proper JSON entry
fn ferox_scan_serialize() {
    let fs = FeroxScan::new("https://spiritanimal.com", ScanType::Directory, None);
    let fs_json = format!(
        r#"{{"id":"{}","url":"https://spiritanimal.com","scan_type":"Directory","complete":false}}"#,
        fs.id
    );
    assert_eq!(fs_json, fs.as_json());
}

#[test]
/// given a FeroxScans, test that it serializes into the proper JSON entry
fn ferox_scans_serialize() {
    let ferox_scan = FeroxScan::new("https://spiritanimal.com", ScanType::Directory, None);
    let mut ferox_scans = FeroxScans::default();
    let ferox_scans_json = format!(
        r#"[{{"id":"{}","url":"https://spiritanimal.com","scan_type":"Directory","complete":false}}]"#,
        ferox_scan.id
    );
    ferox_scans.scans.push(ferox_scan);
    assert_eq!(ferox_scans_json, ferox_scans.as_json());
}

#[test]
/// given a FeroxResponses, test that it serializes into the proper JSON entry
fn ferox_responses_serialize() {
    let json_response = r#"{"type":"response","url":"https://nerdcore.com/css","path":"/css","wildcard":true,"status":301,"content_length":173,"line_count":10,"word_count":16,"headers":{"server":"nginx/1.16.1"}}"#;
    let response = FeroxResponse::from_json(json_response).unwrap();

    let mut responses = FeroxResponses::default();
    responses.insert(response);
    // responses has a response now

    // serialized should be a list of responses
    let expected = format!("[{}]", json_response);

    assert_eq!(expected, responses.as_json());
}

#[test]
/// given a FeroxResponse, test that it serializes into the proper JSON entry
fn ferox_response_serialize_and_deserialize() {
    // deserialize
    let json_response = r#"{"type":"response","url":"https://nerdcore.com/css","path":"/css","wildcard":true,"status":301,"content_length":173,"line_count":10,"word_count":16,"headers":{"server":"nginx/1.16.1"}}"#;
    let response = FeroxResponse::from_json(json_response).unwrap();

    assert_eq!(response.url.as_str(), "https://nerdcore.com/css");
    assert_eq!(response.path.as_str(), "/css");
    assert_eq!(response.wildcard, true);
    assert_eq!(response.status, 301);
    assert_eq!(response.content_length, 173);
    assert_eq!(response.line_count, 10);
    assert_eq!(response.word_count, 16);
    assert_eq!(response.headers[0].0, "server");
    assert_eq!(response.headers[0].1, "nginx/1.16.1");

    // serialize
    let new_json = response.as_json();
    assert_eq!(json_response, new_json);
}

#[test]
/// test the snapshot's plain dump and its JSON text
fn feroxstates_feroxserialize_implementation() {
    let ferox_scan = FeroxScan::new("https://spiritanimal.com", ScanType::Directory, None);
    let saved_id = ferox_scan.id.clone();
    let mut scanned_urls = FeroxScans::default();
    scanned_urls.insert(ferox_scan);

    let json_response = r#"{"type":"response","url":"https://nerdcore.com/css","path":"/css","wildcard":true,"status":301,"content_length":173,"line_count":10,"word_count":16,"headers":{"server":"nginx/1.16.1"}}"#;
    let response = FeroxResponse::from_json(json_response).unwrap();
    let mut responses = FeroxResponses::default();
    responses.insert(response);

    let config_raw = r#"{"type":"configuration","wordlist":"words.txt","target_url":"https://spiritanimal.com","threads":50,"timeout":7}"#;
    let config = Configuration::new(config_raw.to_string());

    let ferox_state = FeroxState {
        scans: &scanned_urls,
        responses: &responses,
        config: &config,
    };

    let as_str = ferox_state.as_str();
    assert!(as_str.contains("scans: FeroxScans"));
    assert!(as_str.contains("config: Configuration"));
    assert!(as_str.contains("responses: FeroxResponses"));
    assert!(as_str.contains("nerdcore.com"));
    assert!(as_str.contains("/css"));
    assert!(as_str.contains("https://spiritanimal.com"));

    let json_state = ferox_state.as_json();
    let expected = format!(
        r#"{{"scans":[{{"id":"{}","url":"https://spiritanimal.com","scan_type":"Directory","complete":false}}],"config":{},"responses":[{}]}}"#,
        saved_id, config_raw, json_response
    );
    assert_eq!(expected, json_state);
}

#[test]
/// quotes, backslashes and control characters in a URL come out escaped the
/// way the state format expects
fn scan_json_escapes_special_characters() {
    let mut fs = FeroxScan::new("http://host/a\"b\\c\nd\te\u{1}f", ScanType::File, None);
    fs.id = "0123456789abcdef0123456789abcdef".to_string();
    let expected = r#"{"id":"0123456789abcdef0123456789abcdef","url":"http://host/a\"b\\c\nd\te\u0001f","scan_type":"File","complete":false}"#;
    assert_eq!(expected, fs.as_json());
}
