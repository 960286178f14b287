use query_engine::monitor::{server_status_query, status_from_pairs};

fn pair(k: &str, v: &str) -> (String, String) {
    (k.to_string(), v.to_string())
}

#[test]
fn status_query_text_is_fixed() {
    assert_eq!(
        server_status_query(),
        "SHOW GLOBAL STATUS WHERE Variable_name IN ('Threads_connected', 'Bytes_received', 'Bytes_sent', 'Questions')"
    );
}

#[test]
fn status_extracts_all_four_counters() {
    let pairs = vec![
        pair("Threads_connected", "12"),
        pair("Bytes_received", "3456"),
        pair("Bytes_sent", "7890"),
        pair("Questions", "42"),
    ];
    let s = status_from_pairs(&pairs);
    assert_eq!(s.connections, 12);
    assert_eq!(s.bytes_received, 3456);
    assert_eq!(s.bytes_sent, 7890);
    assert_eq!(s.queries, 42);
}

#[test]
fn status_defaults_missing_counters_to_zero() {
    let pairs = vec![pair("Questions", "5")];
    let s = status_from_pairs(&pairs);
    assert_eq!(s.connections, 0);
    assert_eq!(s.bytes_received, 0);
    assert_eq!(s.bytes_sent, 0);
    assert_eq!(s.queries, 5);
}

#[test]
fn status_last_pair_wins() {
    let pairs = vec![pair("Questions", "5"), pair("Questions", "9")];
    let s = status_from_pairs(&pairs);
    assert_eq!(s.queries, 9);
}

#[test]
fn status_unparsable_counter_is_zero() {
    let pairs = vec![pair("Bytes_sent", "lots"), pair("Threads_connected", "18446744073709551616")];
    let s = status_from_pairs(&pairs);
    assert_eq!(s.bytes_sent, 0);
    assert_eq!(s.connections, 0);
}
