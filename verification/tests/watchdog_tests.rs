use scan_manager::watchdog::parse_time_limit;
use scan_manager::watchdog::state_file_name;

#[test]
/// each unit letter is worth its seconds, either case
fn time_limit_units_convert_to_seconds() {
    assert_eq!(parse_time_limit("3s"), Some(3));
    assert_eq!(parse_time_limit("10m"), Some(600));
    assert_eq!(parse_time_limit("2h"), Some(7200));
    assert_eq!(parse_time_limit("1d"), Some(86400));
    assert_eq!(parse_time_limit("3S"), Some(3));
    assert_eq!(parse_time_limit("1D"), Some(86400));
}

#[test]
/// a malformed spec is worth nothing
fn time_limit_rejects_malformed_specs() {
    assert_eq!(parse_time_limit(""), None);
    assert_eq!(parse_time_limit("s"), None);
    assert_eq!(parse_time_limit("10"), None);
    assert_eq!(parse_time_limit("10w"), None);
    assert_eq!(parse_time_limit("1 0m"), None);
    assert_eq!(parse_time_limit("10ms"), None);
}

#[test]
/// call the time-limit parser with a numeric portion that's too large to be
/// parsed correctly, expect an immediate soft failure and no limit
fn start_max_time_thread_returns_immediately_with_too_large_input() {
    let now = std::time::Instant::now();
    let delay = std::time::Duration::new(1, 0);

    // pub const MAX: usize = usize::MAX; // 18_446_744_073_709_551_615usize
    let limit = parse_time_limit("18446744073709551616m"); // can't fit in dest u64

    assert_eq!(limit, None);
    assert!(now.elapsed() < delay); // parsing takes well under a second
}

#[test]
/// a product that leaves 64 bits is also a soft failure
fn time_limit_rejects_overflowing_products() {
    assert_eq!(parse_time_limit("18446744073709551615s"), Some(u64::MAX));
    assert_eq!(parse_time_limit("18446744073709551615m"), None);
    assert_eq!(parse_time_limit("307445734561825861h"), None);
}

#[test]
/// the checkpoint file's name slugs the target URL and carries the timestamp
fn state_file_name_slugs_the_target() {
    assert_eq!(
        state_file_name("https://www.target.com/products", 1606947491),
        "ferox-https_www_target_com_products-1606947491.state"
    );
    assert_eq!(state_file_name("", 7), "ferox-stdin-7.state");
    assert_eq!(
        state_file_name("http://10.0.0.1/", 0),
        "ferox-http_10_0_0_1_-0.state"
    );
}
