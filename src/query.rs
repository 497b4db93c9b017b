//! The report printed for the answer to a query: its JSON, pretty printed,
//! then the server's latency breakdown.
use vstd::prelude::*;
use crate::latency::{convert_and_format_ns, duration_text};

verus! {

#[verifier::external_type_specification]
#[verifier::external_body]
pub struct ExJsonValue(serde_json::Value);

/// Whether a JSON parser accepts the bytes as one JSON document.
pub uninterp spec fn json_accepts(b: Seq<u8>) -> bool;

/// Relies on `serde_json::from_slice` into a `serde_json::Value`: it succeeds
/// exactly on the bytes of a JSON document, which depends on the bytes alone.
#[verifier::external_body]
fn parse_json(b: &[u8]) -> (r: Option<serde_json::Value>)
    ensures
        r is Some <==> json_accepts(b@),
{
    serde_json::from_slice::<serde_json::Value>(b).ok()
}

/// Relies on `serde_json::to_string_pretty`: the value as indented JSON text.
/// Nothing is stated of that text.
#[verifier::external_body]
fn pretty_json(v: &serde_json::Value) -> (r: Option<String>) {
    serde_json::to_string_pretty(v).ok()
}

/// The latency breakdown as printed after a query's result.
pub open spec fn latency_text(processing: nat, parsing: nat, encoding: nat) -> Seq<char> {
    "\nLatency:\n\nProcessing: "@ + duration_text(processing) + "\nParsing: "@ + duration_text(
        parsing,
    ) + "\nEncoding: "@ + duration_text(encoding)
}

/// The latency breakdown, each duration given in nanoseconds.
pub fn latency_report(processing: u64, parsing: u64, encoding: u64) -> (r: String)
    ensures
        r@ == latency_text(processing as nat, parsing as nat, encoding as nat),
{
    let mut out = String::from_str("\nLatency:\n\nProcessing: ");
    out.append(convert_and_format_ns(processing).as_str());
    out.append("\nParsing: ");
    out.append(convert_and_format_ns(parsing).as_str());
    out.append("\nEncoding: ");
    out.append(convert_and_format_ns(encoding).as_str());
    assert(out@ =~= latency_text(processing as nat, parsing as nat, encoding as nat));
    out
}

/// The report for a query's answer, given its JSON as pretty-printed text (if
/// that could be had) and its latencies in nanoseconds.
pub fn render_query_result(pretty: Option<String>, processing: u64, parsing: u64, encoding: u64) -> (r:
    String)
    ensures
        r@ == match pretty {
            Some(p) => p@ + "\n"@ + latency_text(processing as nat, parsing as nat, encoding as nat),
            None => latency_text(processing as nat, parsing as nat, encoding as nat),
        },
{
    let report = latency_report(processing, parsing, encoding);
    match pretty {
        Some(p) => p.concat("\n").concat(report.as_str()),
        None => report,
    }
}

/// The report for a query's answer: nothing where the answer is not JSON;
/// else its JSON, pretty printed, and the latency breakdown.
pub fn query_report(json: &[u8], processing: u64, parsing: u64, encoding: u64) -> (r: Option<String>)
    ensures
        r is Some <==> json_accepts(json@),
        r matches Some(t) ==> (t@ == latency_text(processing as nat, parsing as nat, encoding as nat)
            || exists|p: Seq<char>|
            t@ == p + "\n"@ + latency_text(processing as nat, parsing as nat, encoding as nat)),
{
    match parse_json(json) {
        Some(v) => {
            let pretty = pretty_json(&v);
            let ghost had = pretty;
            let t = render_query_result(pretty, processing, parsing, encoding);
            proof {
                if had is Some {
                    let p = had->0@;
                    assert(t@ == p + "\n"@ + latency_text(
                        processing as nat,
                        parsing as nat,
                        encoding as nat,
                    ));
                }
            }
            Some(t)
        },
        None => None,
    }
}

} // verus!
