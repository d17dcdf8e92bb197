use ssroute::stats::{classify_error_str, classify_lower, Stats};

#[test]
fn test_stats_counters() {
    let mut stats = Stats::new_with_filename("test".to_string());

    stats.add_success();
    stats.add_success();
    stats.add_already_exist("10.0.0.1/32 via 10.8.0.1 dev tun0".to_string());
    stats.add_error("network_unreachable");
    stats.add_error("invalid_argument");
    stats.add_error("unknown_kind");

    assert_eq!(stats.success, 2);
    assert_eq!(stats.already_exist, 1);
    assert_eq!(stats.network_unreachable, 1);
    assert_eq!(stats.invalid_argument, 1);
    assert_eq!(stats.unknown_error, 1);

    stats.shutdown();
}

#[test]
fn test_classify_error_str() {
    assert_eq!(classify_error_str("File exists (os error 17)"), "file_exists");
    assert_eq!(classify_error_str("Network is unreachable"), "network_unreachable");
    assert_eq!(classify_error_str("No such device"), "no_such_device");
    assert_eq!(classify_error_str("Operation not permitted"), "operation_not_permitted");
    assert_eq!(classify_error_str("Invalid argument"), "invalid_argument");
    assert_eq!(classify_error_str("No route to host"), "no_route_to_host");
    assert_eq!(classify_error_str("some totally unknown error"), "unknown");
}

#[test]
fn the_first_kind_in_a_message_counts() {
    assert_eq!(classify_lower("invalid argument: file exists"), "file_exists");
    assert_eq!(classify_lower("Invalid argument"), "unknown");
}

#[test]
fn counters_start_at_zero() {
    let stats = Stats::new();
    assert_eq!(stats.success, 0);
    assert_eq!(
        stats.print_stats(),
        "\n========== Statistics ==========\n\
         Successfully added: 0\n\
         Already existed (skipped): 0\n\
         Total processed: 0\n\
         ================================"
    );
}

#[test]
fn report_of_all_counters() {
    let mut stats = Stats::new();
    stats.add_success();
    stats.add_already_exist("10.0.0.0/8".to_string());
    stats.add_error("network_unreachable");
    stats.add_error("operation_not_permitted");
    stats.add_error("invalid_argument");
    stats.add_error("no_route_to_host");
    stats.add_error("no_route_to_host");
    stats.add_error("file_exists");
    assert_eq!(
        stats.print_stats(),
        "\n========== Statistics ==========\n\
         Successfully added: 1\n\
         Already existed (skipped): 1\n\
         Network unreachable: 1\n\
         Operation not permitted: 1\n\
         Invalid argument: 1\n\
         No route to host: 2\n\
         Unknown errors: 1\n\
         Total processed: 8\n\
         ================================"
    );
}
