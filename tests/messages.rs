use dgraph_cli::error::{Error, UNAVAILABLE};
use dgraph_cli::latency::convert_and_format_ns;
use dgraph_cli::query::{latency_report, query_report, render_query_result};

#[test]
fn half_a_millisecond() {
    assert_eq!(convert_and_format_ns(500_000), "0.5ms");
}

#[test]
fn one_and_a_half_seconds() {
    assert_eq!(convert_and_format_ns(1_500_000_000), "1.5s");
}

#[test]
fn exactly_one_second_stays_in_milliseconds() {
    assert_eq!(convert_and_format_ns(1_000_000_000), "1000ms");
    assert_eq!(convert_and_format_ns(1_000_000_001), "1.000000001s");
}

#[test]
fn small_and_zero_durations() {
    assert_eq!(convert_and_format_ns(0), "0ms");
    assert_eq!(convert_and_format_ns(123), "0.000123ms");
    assert_eq!(convert_and_format_ns(2_000_000), "2ms");
    assert_eq!(convert_and_format_ns(12_340_000_000), "12.34s");
}

#[test]
fn latency_report_lists_three_durations() {
    assert_eq!(
        latency_report(500_000, 1_500_000_000, 3_000_000),
        "\nLatency:\n\nProcessing: 0.5ms\nParsing: 1.5s\nEncoding: 3ms"
    );
}

#[test]
fn query_result_with_and_without_json_text() {
    assert_eq!(
        render_query_result(Some("{}".to_string()), 1_000_000, 0, 0),
        "{}\n\nLatency:\n\nProcessing: 1ms\nParsing: 0ms\nEncoding: 0ms"
    );
    assert_eq!(
        render_query_result(None, 0, 0, 0),
        "\nLatency:\n\nProcessing: 0ms\nParsing: 0ms\nEncoding: 0ms"
    );
}

#[test]
fn query_report_pretty_prints_json() {
    let out = query_report(b"{\"a\":[1]}", 0, 0, 0).unwrap();
    assert_eq!(
        out,
        "{\n  \"a\": [\n    1\n  ]\n}\n\nLatency:\n\nProcessing: 0ms\nParsing: 0ms\nEncoding: 0ms"
    );
    assert_eq!(query_report(b"{not json", 0, 0, 0), None);
}

#[test]
fn unavailable_server_message() {
    let e = Error::RpcFailure { code: UNAVAILABLE, details: Some("X".to_string()) };
    assert_eq!(e.message(), "Server is unavailable: X");
    let e = Error::RpcFailure { code: UNAVAILABLE, details: None };
    assert_eq!(e.message(), "Server is unavailable.");
}

#[test]
fn other_rpc_failure_message() {
    let e = Error::RpcFailure { code: 2, details: Some("Y".to_string()) };
    assert_eq!(e.message(), "RPC error: Y");
    let e = Error::RpcFailure { code: 3, details: None };
    assert_eq!(e.message(), "RPC error.");
}

#[test]
fn client_and_parsing_failure_messages() {
    assert_eq!(Error::Client("StartTs mismatch".to_string()).message(), "Dgraph error: StartTs mismatch");
    assert_eq!(Error::ParsingFailed.message(), "Parsing of result failed.");
}
