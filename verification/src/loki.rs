//! Direct Loki queries (`/loki/api/v1/query_range`).

use vstd::prelude::*;
use crate::errors::{http_status_error, is_parse_error, DataError};
use crate::grafana::{log_node_with, lowercased_messages, LogNode, LogNodeView};
use crate::health::{analyze_logs_with, strings_view, vec_chars_eq};
use crate::labels::{clone_pairs, lookup_label, pairs_view, url_encode, url_encode_bytes};
use crate::text::{chars_of, decimal, push_decimal, push_str};

verus! {

broadcast use vstd::string::group_string_axioms;

/// Loki client configuration.
#[derive(Clone, Debug)]
pub struct LokiConfig {
    pub base_url: String,
    /// LogQL query
    pub query: String,
    /// Label to use as node ID
    pub id_label: String,
    /// Time range in seconds
    pub range_seconds: u64,
    /// Log patterns that indicate a critical state
    pub critical_patterns: Vec<String>,
    /// Log patterns that indicate a warning
    pub warning_patterns: Vec<String>,
}

impl Default for LokiConfig {
    /// A local Loki at `http://localhost:3100`, query `{job="varlogs"}`, nodes by
    /// `instance`, five minutes back, the usual error and warning patterns.
    fn default() -> (c: LokiConfig)
        ensures
            c.base_url@ == "http://localhost:3100"@,
            c.query@ == "{job=\"varlogs\"}"@,
            c.id_label@ == "instance"@,
            c.range_seconds == 300,
            strings_view(c.critical_patterns@) == seq!["error"@, "fatal"@, "panic"@],
            strings_view(c.warning_patterns@) == seq!["warn"@, "warning"@],
    {
        let analysis = crate::health::LogAnalysisConfig::default();
        LokiConfig {
            base_url: "http://localhost:3100".to_string(),
            query: "{job=\"varlogs\"}".to_string(),
            id_label: "instance".to_string(),
            range_seconds: 300,
            critical_patterns: analysis.critical_patterns,
            warning_patterns: analysis.warning_patterns,
        }
    }
}

/// The query URL for the window ending at `end_ns` (nanoseconds since the epoch) and
/// reaching `range_seconds` back.
pub open spec fn loki_query_url(base_url: Seq<char>, query: Seq<char>, end_ns: nat, range_seconds: nat) -> Seq<
    char,
> {
    base_url + "/loki/api/v1/query_range?query="@ + url_encode_bytes(
        vstd::utf8::encode_utf8(query),
    ) + "&start="@ + decimal((end_ns - range_seconds * 1_000_000_000) as nat) + "&end="@
        + decimal(end_ns)
}

/// The stream node for a label set and its `(timestamp, line)` values: the node
/// `log_node_with` gives for them.
pub open spec fn loki_stream_node(
    labels: Seq<(Seq<char>, Seq<char>)>,
    values: Seq<(Seq<char>, Seq<char>)>,
    id_label: Seq<char>,
    critical: Seq<Seq<char>>,
    warning: Seq<Seq<char>>,
) -> LogNodeView {
    log_node_with(labels, values, id_label, critical, warning)
}

impl LokiConfig {
    /// The `query_range` URL for the window ending at `end_ns` nanoseconds since the epoch.
    pub fn query_url(&self, end_ns: u128) -> (r: String)
        requires
            self.range_seconds * 1_000_000_000 <= end_ns,
        ensures
            r@ == loki_query_url(self.base_url@, self.query@, end_ns as nat, self.range_seconds as nat),
    {
        let start: u128 = end_ns - (self.range_seconds as u128) * 1_000_000_000;
        let mut url = String::new();
        push_str(&mut url, self.base_url.as_str());
        push_str(&mut url, "/loki/api/v1/query_range?query=");
        let enc = url_encode(self.query.as_str());
        push_str(&mut url, enc.as_str());
        push_str(&mut url, "&start=");
        push_decimal(&mut url, start);
        push_str(&mut url, "&end=");
        push_decimal(&mut url, end_ns);
        url
    }

    /// The node a stream stands for: id from the label `id_label` (or `unknown`), health
    /// and counts from analyzing its lines with the configured patterns.
    pub fn stream_node(&self, labels: &Vec<(String, String)>, values: &Vec<(String, String)>) -> (r: LogNode)
        ensures
            r@ == loki_stream_node(
                pairs_view(labels@),
                pairs_view(values@),
                self.id_label@,
                strings_view(self.critical_patterns@),
                strings_view(self.warning_patterns@),
            ),
    {
        let id = match lookup_label(labels, self.id_label.as_str()) {
            Some(v) => v,
            None => "unknown".to_string(),
        };
        let (health, metrics) = analyze_logs_with(
            values.as_slice(),
            &self.critical_patterns,
            &self.warning_patterns,
        );
        assert(crate::health::lowercased_lines(values@) =~= lowercased_messages(pairs_view(values@)));
        LogNode { id, labels: clone_pairs(labels), health, metrics }
    }
}

/// The error a Loki HTTP status gives: `None` on success, else `HTTP <status>`.
pub fn loki_http_error(code: u16, status_text: &str) -> (r: Option<DataError>)
    ensures
        crate::errors::is_success_status(code) ==> r is None,
        !crate::errors::is_success_status(code) ==> crate::errors::is_network_error(
            r,
            "HTTP "@ + status_text@,
        ),
{
    http_status_error(code, status_text, "HTTP ")
}

/// The error a query status field gives: `None` for `success`, else a parse error
/// `<source> status: <status>`.
pub fn query_status_error(source: &str, status: &str) -> (r: Option<DataError>)
    ensures
        status@ == "success"@ ==> r is None,
        status@ != "success"@ ==> is_parse_error(r, source@ + " status: "@ + status@),
{
    if vec_chars_eq(&chars_of(status), &chars_of("success")) {
        None
    } else {
        let mut m = String::new();
        push_str(&mut m, source);
        push_str(&mut m, " status: ");
        push_str(&mut m, status);
        Some(DataError::ParseError(m))
    }
}

} // verus!
