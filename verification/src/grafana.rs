//! Grafana datasource queries (`POST /api/ds/query`): configuration, request pieces, and
//! the handling of the response frames for Prometheus metrics and Loki logs.

use vstd::prelude::*;
use crate::errors::{is_parse_error, DataError};
use crate::health::{
    analyze_logs, error_lines, health_from_counts, lowercased_lines, strings_view, vec_chars_eq,
    warning_lines, LogAnalysisConfig, LogMetrics, NodeHealth,
};
use crate::labels::{json_string_map, lookup, lookup_label, pairs_view, parse_string_map};
use crate::text::{chars_of, decimal, decimal_string, push_decimal, push_str};

verus! {

broadcast use vstd::string::group_string_axioms;

/// Grafana connection configuration, shared by all queries.
#[derive(Clone, Debug)]
pub struct GrafanaConfig {
    pub base_url: String,
    pub api_key: Option<String>,
}

impl Default for GrafanaConfig {
    /// A local Grafana at `http://localhost:3000`, without a key.
    fn default() -> (c: GrafanaConfig)
        ensures
            c.base_url@ == "http://localhost:3000"@,
            c.api_key is None,
    {
        GrafanaConfig { base_url: "http://localhost:3000".to_string(), api_key: None }
    }
}

impl GrafanaConfig {
    /// The datasource query endpoint: `<base_url>/api/ds/query`.
    pub fn query_url(&self) -> (r: String)
        ensures
            r@ == self.base_url@ + "/api/ds/query"@,
    {
        let mut r = String::new();
        push_str(&mut r, self.base_url.as_str());
        push_str(&mut r, "/api/ds/query");
        r
    }

    /// The `Authorization` header value, `Bearer <api_key>`, when a key is set.
    pub fn authorization(&self) -> (r: Option<String>)
        ensures
            self.api_key is None ==> r is None,
            self.api_key matches Some(k) ==> r matches Some(h) && h@ == "Bearer "@ + k@,
    {
        match &self.api_key {
            Some(k) => {
                let mut h = String::new();
                push_str(&mut h, "Bearer ");
                push_str(&mut h, k.as_str());
                Some(h)
            },
            None => None,
        }
    }
}

/// Loki query routed through Grafana's datasource proxy.
#[derive(Clone, Debug)]
pub struct GrafanaLokiQuery {
    pub datasource_uid: String,
    pub query: String,
    pub id_label: String,
    pub range_seconds: u64,
    pub log_analysis: LogAnalysisConfig,
}

impl Default for GrafanaLokiQuery {
    /// Datasource `loki`, query `{job="varlogs"}`, nodes by `service`, five minutes back,
    /// default log analysis.
    fn default() -> (q: GrafanaLokiQuery)
        ensures
            q.datasource_uid@ == "loki"@,
            q.query@ == "{job=\"varlogs\"}"@,
            q.id_label@ == "service"@,
            q.range_seconds == 300,
            strings_view(q.log_analysis.critical_patterns@) == seq!["error"@, "fatal"@, "panic"@],
            strings_view(q.log_analysis.warning_patterns@) == seq!["warn"@, "warning"@],
    {
        GrafanaLokiQuery {
            datasource_uid: "loki".to_string(),
            query: "{job=\"varlogs\"}".to_string(),
            id_label: "service".to_string(),
            range_seconds: 300,
            log_analysis: LogAnalysisConfig::default(),
        }
    }
}

/// One value of a response frame column: a string, or anything else.
#[derive(Clone, Debug)]
pub enum FrameValue {
    Text(String),
    Other,
}

/// The string a frame value holds, if it is one.
pub open spec fn frame_text(v: FrameValue) -> Option<Seq<char>> {
    match v {
        FrameValue::Text(s) => Some(s@),
        FrameValue::Other => None,
    }
}

/// A column of a response frame.
#[derive(Clone, Debug)]
pub struct GrafanaField {
    pub name: String,
    pub labels: Option<Vec<(String, String)>>,
}

/// The columns of a response frame.
#[derive(Clone, Debug)]
pub struct GrafanaSchema {
    pub fields: Vec<GrafanaField>,
}

/// The values of a response frame, column by column.
#[derive(Clone, Debug)]
pub struct GrafanaFrameData {
    pub values: Vec<Vec<FrameValue>>,
}

/// A response frame.
#[derive(Clone, Debug)]
pub struct GrafanaFrame {
    pub schema: GrafanaSchema,
    pub data: GrafanaFrameData,
}

/// The frames answering one query.
#[derive(Clone, Debug)]
pub struct GrafanaQueryResult {
    pub frames: Vec<GrafanaFrame>,
}

/// A datasource query response: the results by query reference id.
#[derive(Clone, Debug)]
pub struct GrafanaQueryResponse {
    pub results: Vec<(String, GrafanaQueryResult)>,
}

/// The index of the first result with reference id `key`.
pub open spec fn result_index(results: Seq<(String, GrafanaQueryResult)>, key: Seq<char>) -> Option<
    int,
>
    decreases results.len(),
{
    if results.len() == 0 {
        None
    } else if results.last().0@ == key && result_index(results.drop_last(), key) is None {
        Some(results.len() - 1)
    } else {
        result_index(results.drop_last(), key)
    }
}

impl GrafanaQueryResponse {
    /// The result of query `A`; a parse error when the response has none.
    pub fn result_a(&self) -> (r: Result<&GrafanaQueryResult, DataError>)
        ensures
            match result_index(self.results@, "A"@) {
                Some(i) => r == Ok::<&GrafanaQueryResult, DataError>(&self.results@[i].1),
                None => is_parse_error(
                    r.err(),
                    "Grafana response missing expected result 'A'"@,
                ),
            },
    {
        let a = chars_of("A");
        let mut i: usize = 0;
        while i < self.results.len()
            invariant
                i <= self.results.len(),
                a@ == "A"@,
                result_index(self.results@.take(i as int), "A"@) is None,
            decreases self.results.len() - i,
        {
            let key = chars_of(self.results[i].0.as_str());
            assert(self.results@.take(i + 1).drop_last() == self.results@.take(i as int));
            if vec_chars_eq(&key, &a) {
                proof {
                    lemma_result_index_prefix(self.results@, i as int + 1);
                }
                return Ok(&self.results[i].1);
            }
            i += 1;
        }
        assert(self.results@.take(self.results.len() as int) == self.results@);
        Err(DataError::ParseError("Grafana response missing expected result 'A'".to_string()))
    }
}

proof fn lemma_result_index_prefix(results: Seq<(String, GrafanaQueryResult)>, n: int)
    requires
        0 < n <= results.len(),
        result_index(results.take(n), "A"@) == Some(n - 1),
    ensures
        result_index(results, "A"@) == Some(n - 1),
    decreases results.len() - n,
{
    if n < results.len() {
        assert(results.drop_last().take(n) == results.take(n));
        lemma_result_index_prefix(results.drop_last(), n);
    } else {
        assert(results.take(n) == results);
    }
}

} // verus!

verus! {

/// The text of a log stream's label column at row `i`: the string, or `{}`.
pub open spec fn label_key(labels: Seq<FrameValue>, i: int) -> Seq<char> {
    match frame_text(labels[i]) {
        Some(t) => t,
        None => "{}"@,
    }
}

/// The log line at row `i`: the string, or empty when absent or not a string.
pub open spec fn line_text(lines: Seq<FrameValue>, i: int) -> Seq<char> {
    if 0 <= i < lines.len() {
        match frame_text(lines[i]) {
            Some(t) => t,
            None => Seq::empty(),
        }
    } else {
        Seq::empty()
    }
}

/// A log entry: the row number in decimal, and the line.
pub open spec fn log_entry(lines: Seq<FrameValue>, i: int) -> (Seq<char>, Seq<char>) {
    (decimal(i as nat), line_text(lines, i))
}

/// Groups of log entries by label text.
pub type LogGroupsView = Seq<(Seq<char>, Seq<(Seq<char>, Seq<char>)>)>;

/// Some group of `g` has label text `key`.
pub open spec fn has_group(g: LogGroupsView, key: Seq<char>) -> bool {
    exists|j: int| 0 <= j < g.len() && (#[trigger] g[j]).0 == key
}

/// The rows `0..n` grouped by label text: groups in order of first appearance, each with
/// its entries in row order.
pub open spec fn grouped(labels: Seq<FrameValue>, lines: Seq<FrameValue>, n: nat) -> LogGroupsView
    decreases n,
{
    if n == 0 {
        Seq::empty()
    } else {
        let g = grouped(labels, lines, (n - 1) as nat);
        let k = label_key(labels, n - 1);
        let e = log_entry(lines, n - 1);
        if has_group(g, k) {
            let j = choose|j: int| 0 <= j < g.len() && (#[trigger] g[j]).0 == k;
            g.update(j, (k, g[j].1.push(e)))
        } else {
            g.push((k, seq![e]))
        }
    }
}

/// No two groups share a label text.
pub open spec fn distinct_keys(g: LogGroupsView) -> bool {
    forall|a: int, b: int| 0 <= a < b < g.len() ==> (#[trigger] g[a]).0 != (#[trigger] g[b]).0
}

proof fn lemma_grouped_distinct_keys(labels: Seq<FrameValue>, lines: Seq<FrameValue>, n: nat)
    ensures
        distinct_keys(grouped(labels, lines, n)),
    decreases n,
{
    if n > 0 {
        lemma_grouped_distinct_keys(labels, lines, (n - 1) as nat);
        let g = grouped(labels, lines, (n - 1) as nat);
        let k = label_key(labels, n - 1);
        if !has_group(g, k) {
            let r = grouped(labels, lines, n);
            assert forall|a: int, b: int| 0 <= a < b < r.len() implies (#[trigger] r[a]).0 != (
            #[trigger] r[b]).0 by {
                if b == g.len() {
                    assert(r[a] == g[a]);
                }
            }
        }
    }
}

/// The views of groups of log entries.
pub open spec fn groups_view(v: Seq<(String, Vec<(String, String)>)>) -> LogGroupsView {
    v.map_values(|g: (String, Vec<(String, String)>)| (g.0@, pairs_view(g.1@)))
}

fn frame_text_or(v: &FrameValue, fallback: &str) -> (r: String)
    ensures
        r@ == match frame_text(*v) {
            Some(t) => t,
            None => fallback@,
        },
{
    match v {
        FrameValue::Text(s) => s.clone(),
        FrameValue::Other => fallback.to_string(),
    }
}

/// The index of the group with label text `key`, if any.
fn find_group(groups: &Vec<(String, Vec<(String, String)>)>, key: &str) -> (r: Option<usize>)
    ensures
        match r {
            Some(j) => j < groups@.len() && groups_view(groups@)[j as int].0 == key@,
            None => forall|t: int|
                0 <= t < groups@.len() ==> (#[trigger] groups_view(groups@)[t]).0 != key@,
        },
{
    let kc = chars_of(key);
    let ghost g = groups_view(groups@);
    let mut j: usize = 0;
    while j < groups.len()
        invariant
            j <= groups.len(),
            g == groups_view(groups@),
            kc@ == key@,
            forall|t: int| 0 <= t < j ==> (#[trigger] g[t]).0 != key@,
        decreases groups.len() - j,
    {
        let gk = chars_of(groups[j].0.as_str());
        if vec_chars_eq(&gk, &kc) {
            return Some(j);
        }
        j += 1;
    }
    None
}

/// Groups the rows of a log frame by their label text (row `i` has label `labels[i]` and
/// line `lines[i]`); each entry is the row number and the line.
pub fn group_log_lines(labels: &Vec<FrameValue>, lines: &Vec<FrameValue>) -> (r: Vec<
    (String, Vec<(String, String)>),
>)
    ensures
        groups_view(r@) == grouped(labels@, lines@, labels@.len() as nat),
{
    let mut groups: Vec<(String, Vec<(String, String)>)> = Vec::new();
    let mut i: usize = 0;
    while i < labels.len()
        invariant
            i <= labels.len(),
            groups_view(groups@) == grouped(labels@, lines@, i as nat),
            distinct_keys(groups_view(groups@)),
        decreases labels.len() - i,
    {
        let key = frame_text_or(&labels[i], "{}");
        let line = if i < lines.len() {
            frame_text_or(&lines[i], "")
        } else {
            String::new()
        };
        let idx = decimal_string(i as u128);
        proof {
            reveal_strlit("");
        }
        let ghost e = (idx@, line@);
        assert(e == log_entry(lines@, i as int));
        assert(key@ == label_key(labels@, i as int));
        let ghost g = groups_view(groups@);
        proof {
            lemma_grouped_distinct_keys(labels@, lines@, i as nat + 1);
        }
        let found = find_group(&groups, key.as_str());
        if let Some(j) = found {
            assert(has_group(g, key@));
            let ghost c = choose|t: int| 0 <= t < g.len() && (#[trigger] g[t]).0 == key@;
            assert(c == j);
            let ghost old_groups = groups@;
            let ghost pushed = (idx, line);
            groups[j].1.push((idx, line));
            assert(groups@.len() == old_groups.len());
            assert(groups@[j as int].0 == old_groups[j as int].0);
            assert(groups@[j as int].1@ == old_groups[j as int].1@.push(pushed));
            assert(forall|t: int| 0 <= t < groups@.len() && t != j ==> groups@[t] == old_groups[t]);
            assert(pairs_view(groups@[j as int].1@) =~= pairs_view(old_groups[j as int].1@).push(e));
            assert(groups_view(groups@) =~= g.update(j as int, (key@, g[j as int].1.push(e))));
        } else {
            assert(!has_group(g, key@));
            let mut entries: Vec<(String, String)> = Vec::new();
            entries.push((idx, line));
            assert(pairs_view(entries@) =~= seq![e]);
            groups.push((key, entries));
            assert(groups_view(groups@) =~= g.push((key@, seq![e])));
        }
        i += 1;
    }
    groups
}

} // verus!

verus! {

/// What a log-derived node is, in terms of views.
pub struct LogNodeView {
    pub id: Seq<char>,
    pub labels: Seq<(Seq<char>, Seq<char>)>,
    pub health: NodeHealth,
    pub log_count: nat,
    pub error_count: nat,
    pub warning_count: nat,
}

/// A node derived from a group of log lines: its id and labels, and the analysis of its
/// lines. (Coordinates are read from the labels by the caller.)
#[derive(Clone, Debug)]
pub struct LogNode {
    pub id: String,
    pub labels: Vec<(String, String)>,
    pub health: NodeHealth,
    pub metrics: LogMetrics,
}

impl View for LogNode {
    type V = LogNodeView;

    open spec fn view(&self) -> LogNodeView {
        LogNodeView {
            id: self.id@,
            labels: pairs_view(self.labels@),
            health: self.health,
            log_count: self.metrics.log_count as nat,
            error_count: self.metrics.error_count as nat,
            warning_count: self.metrics.warning_count as nat,
        }
    }
}

/// The lowercased message of each entry.
pub open spec fn lowercased_messages(entries: Seq<(Seq<char>, Seq<char>)>) -> Seq<Seq<char>> {
    Seq::new(entries.len(), |i: int| crate::health::lowercase(entries[i].1))
}

/// The node for log entries whose label set is `labels`: its id is the label `id_label`
/// (or `unknown`), and its health and counts come from analyzing the entries' lines.
pub open spec fn log_node_with(
    labels: Seq<(Seq<char>, Seq<char>)>,
    entries: Seq<(Seq<char>, Seq<char>)>,
    id_label: Seq<char>,
    critical: Seq<Seq<char>>,
    warning: Seq<Seq<char>>,
) -> LogNodeView {
    let lines = lowercased_messages(entries);
    let errors = error_lines(lines, critical);
    let warnings = warning_lines(lines, critical, warning);
    LogNodeView {
        id: match lookup(labels, id_label) {
            Some(v) => v,
            None => "unknown"@,
        },
        labels,
        health: health_from_counts(errors, warnings),
        log_count: entries.len(),
        error_count: errors,
        warning_count: warnings,
    }
}

/// The node a group of log entries stands for: its labels are read from the group's label
/// text as JSON, and the rest is `log_node_with` those labels.
pub open spec fn log_node_of(
    key: Seq<char>,
    entries: Seq<(Seq<char>, Seq<char>)>,
    id_label: Seq<char>,
    critical: Seq<Seq<char>>,
    warning: Seq<Seq<char>>,
) -> LogNodeView {
    log_node_with(json_string_map(key), entries, id_label, critical, warning)
}

/// The node for each group, in order.
pub open spec fn log_nodes_of(groups: LogGroupsView, q: GrafanaLokiQuery) -> Seq<LogNodeView> {
    groups.map_values(
        |g: (Seq<char>, Seq<(Seq<char>, Seq<char>)>)|
            log_node_of(
                g.0,
                g.1,
                q.id_label@,
                strings_view(q.log_analysis.critical_patterns@),
                strings_view(q.log_analysis.warning_patterns@),
            ),
    )
}

/// The views of nodes.
pub open spec fn log_nodes_view(v: Seq<LogNode>) -> Seq<LogNodeView> {
    v.map_values(|n: LogNode| n@)
}

/// The node for log entries whose label set is `labels` (see `log_node_with`).
pub fn log_node_with_labels(
    labels: Vec<(String, String)>,
    entries: &Vec<(String, String)>,
    id_label: &str,
    analysis: &LogAnalysisConfig,
) -> (r: LogNode)
    ensures
        r@ == log_node_with(
            pairs_view(labels@),
            pairs_view(entries@),
            id_label@,
            strings_view(analysis.critical_patterns@),
            strings_view(analysis.warning_patterns@),
        ),
{
    let id = match lookup_label(&labels, id_label) {
        Some(v) => v,
        None => "unknown".to_string(),
    };
    let (health, metrics) = analyze_logs(entries.as_slice(), analysis);
    assert(crate::health::lowercased_lines(entries@) =~= lowercased_messages(pairs_view(entries@)));
    LogNode { id, labels, health, metrics }
}

/// The node a group of log entries stands for (see `log_node_of`): the group's label
/// text is parsed as JSON, then `log_node_with_labels` builds the node.
pub fn log_node_from_group(
    key: &str,
    entries: &Vec<(String, String)>,
    id_label: &str,
    analysis: &LogAnalysisConfig,
) -> (r: LogNode)
    ensures
        r@ == log_node_of(
            key@,
            pairs_view(entries@),
            id_label@,
            strings_view(analysis.critical_patterns@),
            strings_view(analysis.warning_patterns@),
        ),
{
    let labels = parse_string_map(key);
    log_node_with_labels(labels, entries, id_label, analysis)
}

/// The index of the first field named `name`.
pub open spec fn field_position(fields: Seq<GrafanaField>, name: Seq<char>) -> Option<int>
    decreases fields.len(),
{
    if fields.len() == 0 {
        None
    } else if fields.last().name@ == name && field_position(fields.drop_last(), name) is None {
        Some(fields.len() - 1)
    } else {
        field_position(fields.drop_last(), name)
    }
}

/// The index of the first field named `name`.
pub fn find_field(fields: &Vec<GrafanaField>, name: &str) -> (r: Option<usize>)
    ensures
        match r {
            Some(i) => field_position(fields@, name@) == Some(i as int),
            None => field_position(fields@, name@) is None,
        },
{
    let n = chars_of(name);
    let mut i: usize = 0;
    while i < fields.len()
        invariant
            i <= fields.len(),
            n@ == name@,
            field_position(fields@.take(i as int), name@) is None,
        decreases fields.len() - i,
    {
        let f = chars_of(fields[i].name.as_str());
        assert(fields@.take(i + 1).drop_last() == fields@.take(i as int));
        if vec_chars_eq(&f, &n) {
            proof {
                lemma_field_position_prefix(fields@, name@, i as int + 1);
            }
            return Some(i);
        }
        i += 1;
    }
    assert(fields@.take(fields.len() as int) == fields@);
    None
}

proof fn lemma_field_position_prefix(fields: Seq<GrafanaField>, name: Seq<char>, n: int)
    requires
        0 < n <= fields.len(),
        field_position(fields.take(n), name) == Some(n - 1),
    ensures
        field_position(fields, name) == Some(n - 1),
    decreases fields.len() - n,
{
    if n < fields.len() {
        assert(fields.drop_last().take(n) == fields.take(n));
        lemma_field_position_prefix(fields.drop_last(), name, n);
    } else {
        assert(fields.take(n) == fields);
    }
}

/// The log groups of a Loki frame: rows grouped by the `labels` column, with lines from
/// the `Line` column; none when either column is missing.
pub open spec fn loki_frame_groups(frame: GrafanaFrame) -> LogGroupsView {
    let fields = frame.schema.fields@;
    let values = frame.data.values@;
    match (field_position(fields, "labels"@), field_position(fields, "Line"@)) {
        (Some(a), Some(b)) => if a < values.len() && b < values.len() {
            grouped(values[a]@, values[b]@, values[a]@.len() as nat)
        } else {
            Seq::empty()
        },
        _ => Seq::empty(),
    }
}

/// The log groups of a Loki frame (see `loki_frame_groups`).
pub fn loki_groups_of_frame(frame: &GrafanaFrame) -> (r: Vec<(String, Vec<(String, String)>)>)
    ensures
        groups_view(r@) == loki_frame_groups(*frame),
{
    let labels_idx = find_field(&frame.schema.fields, "labels");
    let line_idx = find_field(&frame.schema.fields, "Line");
    match (labels_idx, line_idx) {
        (Some(a), Some(b)) => {
            if a < frame.data.values.len() && b < frame.data.values.len() {
                group_log_lines(&frame.data.values[a], &frame.data.values[b])
            } else {
                let r: Vec<(String, Vec<(String, String)>)> = Vec::new();
                assert(groups_view(r@) =~= Seq::empty());
                r
            }
        },
        _ => {
            let r: Vec<(String, Vec<(String, String)>)> = Vec::new();
            assert(groups_view(r@) =~= Seq::empty());
            r
        },
    }
}

/// The nodes of each frame in turn.
pub open spec fn loki_result_nodes(frames: Seq<GrafanaFrame>, q: GrafanaLokiQuery) -> Seq<
    LogNodeView,
>
    decreases frames.len(),
{
    if frames.len() == 0 {
        Seq::empty()
    } else {
        loki_result_nodes(frames.drop_last(), q) + log_nodes_of(loki_frame_groups(frames.last()), q)
    }
}

/// The nodes a Loki query result describes: for each frame, one node per distinct label
/// set (see `log_node_of`).
pub fn loki_nodes(result: &GrafanaQueryResult, query: &GrafanaLokiQuery) -> (r: Vec<LogNode>)
    ensures
        log_nodes_view(r@) == loki_result_nodes(result.frames@, *query),
{
    let mut nodes: Vec<LogNode> = Vec::new();
    let mut f: usize = 0;
    while f < result.frames.len()
        invariant
            f <= result.frames.len(),
            log_nodes_view(nodes@) == loki_result_nodes(result.frames@.take(f as int), *query),
        decreases result.frames.len() - f,
    {
        let groups = loki_groups_of_frame(&result.frames[f]);
        let ghost base = nodes@;
        let ghost gv = groups_view(groups@);
        let mut k: usize = 0;
        while k < groups.len()
            invariant
                k <= groups.len(),
                gv == groups_view(groups@),
                nodes@.len() == base.len() + k,
                log_nodes_view(nodes@) == log_nodes_view(base) + log_nodes_of(gv.take(k as int), *query),
            decreases groups.len() - k,
        {
            let node = log_node_from_group(
                groups[k].0.as_str(),
                &groups[k].1,
                query.id_label.as_str(),
                &query.log_analysis,
            );
            let ghost before = nodes@;
            nodes.push(node);
            assert(log_nodes_view(nodes@) =~= log_nodes_view(before).push(node@));
            assert(gv.take(k + 1) =~= gv.take(k as int).push(gv[k as int]));
            assert(log_nodes_of(gv.take(k + 1), *query) =~= log_nodes_of(gv.take(k as int), *query).push(node@));
            k += 1;
        }
        assert(gv.take(groups.len() as int) == gv);
        assert(result.frames@.take(f + 1).drop_last() == result.frames@.take(f as int));
        f += 1;
    }
    assert(result.frames@.take(result.frames.len() as int) == result.frames@);
    nodes
}

} // verus!

verus! {

/// A `Value` column of a metrics frame that carries labels: the column's index, the node
/// id its labels give, and the labels. (The metric value and coordinates are read by
/// the caller.)
#[derive(Clone, Debug)]
pub struct ValueField {
    pub index: usize,
    pub id: String,
    pub labels: Vec<(String, String)>,
}

/// The view of a `ValueField`.
pub open spec fn value_field_view(v: ValueField) -> (nat, Seq<char>, Seq<(Seq<char>, Seq<char>)>) {
    (v.index as nat, v.id@, pairs_view(v.labels@))
}

/// The id of the node for column `i`: its label `id_label`, else `node-<i>`.
pub open spec fn value_node_id(labels: Seq<(Seq<char>, Seq<char>)>, id_label: Seq<char>, i: nat) -> Seq<
    char,
> {
    match lookup(labels, id_label) {
        Some(v) => v,
        None => "node-"@ + decimal(i),
    }
}

/// Among the first `n` columns, those named `Value` that carry labels, in order.
pub open spec fn value_fields(fields: Seq<GrafanaField>, id_label: Seq<char>, n: nat) -> Seq<
    (nat, Seq<char>, Seq<(Seq<char>, Seq<char>)>),
>
    decreases n,
{
    if n == 0 {
        Seq::empty()
    } else {
        let prev = value_fields(fields, id_label, (n - 1) as nat);
        let f = fields[n - 1];
        match f.labels {
            Some(l) => if f.name@ == "Value"@ {
                prev.push(((n - 1) as nat, value_node_id(pairs_view(l@), id_label, (n - 1) as nat), pairs_view(l@)))
            } else {
                prev
            },
            None => prev,
        }
    }
}

/// The labeled `Value` columns of a metrics frame, in order, with the node id each gives.
pub fn value_fields_of_frame(frame: &GrafanaFrame, id_label: &str) -> (r: Vec<ValueField>)
    ensures
        r@.map_values(|v: ValueField| value_field_view(v)) == value_fields(
            frame.schema.fields@,
            id_label@,
            frame.schema.fields@.len() as nat,
        ),
        forall|i: int|
            0 <= i < r@.len() ==> {
                let v = #[trigger] r@[i];
                &&& v.index < frame.schema.fields@.len()
                &&& frame.schema.fields@[v.index as int].name@ == "Value"@
                &&& frame.schema.fields@[v.index as int].labels matches Some(l) && pairs_view(v.labels@)
                    == pairs_view(l@)
            },
{
    let fields = &frame.schema.fields;
    let value = chars_of("Value");
    let mut out: Vec<ValueField> = Vec::new();
    let mut i: usize = 0;
    while i < fields.len()
        invariant
            i <= fields.len(),
            fields == &frame.schema.fields,
            value@ == "Value"@,
            out@.map_values(|v: ValueField| value_field_view(v)) == value_fields(
                fields@,
                id_label@,
                i as nat,
            ),
        decreases fields.len() - i,
    {
        let ghost before = out@;
        match &fields[i].labels {
            Some(l) => {
                let name = chars_of(fields[i].name.as_str());
                if vec_chars_eq(&name, &value) {
                    let id = match lookup_label(l, id_label) {
                        Some(v) => v,
                        None => {
                            let mut s = String::new();
                            push_str(&mut s, "node-");
                            push_decimal(&mut s, i as u128);
                            s
                        },
                    };
                    let vf = ValueField { index: i, id, labels: crate::labels::clone_pairs(l) };
                    out.push(vf);
                    assert(out@.map_values(|v: ValueField| value_field_view(v)) =~= before.map_values(
                        |v: ValueField| value_field_view(v),
                    ).push(value_field_view(vf)));
                }
            },
            None => {},
        }
        i += 1;
    }
    proof {
        law_value_fields_carry_labels(fields@, id_label@, fields@.len() as nat);
        assert forall|j: int| 0 <= j < out@.len() implies {
            let v = #[trigger] out@[j];
            &&& v.index < frame.schema.fields@.len()
            &&& frame.schema.fields@[v.index as int].name@ == "Value"@
            &&& frame.schema.fields@[v.index as int].labels matches Some(l) && pairs_view(v.labels@)
                == pairs_view(l@)
        } by {
            assert(out@.map_values(|v: ValueField| value_field_view(v))[j] == value_field_view(out@[j]));
        }
    }
    out
}

} // verus!

verus! {

/// Law: the nodes of a Loki result are those of each of its frames, in frame order:
/// the nodes of two runs of frames are the nodes of the first run followed by those of
/// the second, and a single frame gives one node per distinct label set it holds.
pub proof fn law_loki_nodes_per_frame(
    a: Seq<GrafanaFrame>,
    b: Seq<GrafanaFrame>,
    f: GrafanaFrame,
    q: GrafanaLokiQuery,
)
    ensures
        loki_result_nodes(a + b, q) == loki_result_nodes(a, q) + loki_result_nodes(b, q),
        loki_result_nodes(seq![f], q) == log_nodes_of(loki_frame_groups(f), q),
        loki_result_nodes(seq![f], q).len() == loki_frame_groups(f).len(),
    decreases b.len(),
{
    if b.len() == 0 {
        assert(a + b =~= a);
        assert(loki_result_nodes(a, q) + loki_result_nodes(b, q) =~= loki_result_nodes(a, q));
    } else {
        law_loki_nodes_per_frame(a, b.drop_last(), f, q);
        assert((a + b).drop_last() =~= a + b.drop_last());
        assert((a + b).last() == b.last());
        let na = loki_result_nodes(a, q);
        let nb = loki_result_nodes(b.drop_last(), q);
        let nl = log_nodes_of(loki_frame_groups(b.last()), q);
        assert(na + nb + nl =~= na + (nb + nl));
    }
    assert(seq![f].drop_last() =~= Seq::<GrafanaFrame>::empty());
    assert(loki_result_nodes(Seq::<GrafanaFrame>::empty(), q) == Seq::<LogNodeView>::empty());
    assert(seq![f].last() == f);
    assert(Seq::<LogNodeView>::empty() + log_nodes_of(loki_frame_groups(f), q) =~= log_nodes_of(
        loki_frame_groups(f),
        q,
    ));
}

/// Law: each value field names a labeled `Value` column and carries that column's labels
/// unchanged, with the id those labels give; and every labeled `Value` column has its
/// field.
pub proof fn law_value_fields_carry_labels(fields: Seq<GrafanaField>, id_label: Seq<char>, n: nat)
    requires
        n <= fields.len(),
    ensures
        forall|i: int|
            0 <= i < value_fields(fields, id_label, n).len() ==> {
                let v = #[trigger] value_fields(fields, id_label, n)[i];
                &&& v.0 < n
                &&& fields[v.0 as int].name@ == "Value"@
                &&& fields[v.0 as int].labels matches Some(l) && v.2 == pairs_view(l@)
                &&& lookup(v.2, id_label) matches Some(x) ==> v.1 == x
            },
        forall|c: int|
            0 <= c < n && fields[c].name@ == "Value"@ && (#[trigger] fields[c].labels) is Some
                ==> exists|i: int|
                0 <= i < value_fields(fields, id_label, n).len() && value_fields(
                    fields,
                    id_label,
                    n,
                )[i].0 == c,
    decreases n,
{
    if n > 0 {
        law_value_fields_carry_labels(fields, id_label, (n - 1) as nat);
        let prev = value_fields(fields, id_label, (n - 1) as nat);
        let cur = value_fields(fields, id_label, n);
        assert forall|i: int| 0 <= i < prev.len() implies cur[i] == prev[i] by {}
        assert forall|c: int|
            0 <= c < n && fields[c].name@ == "Value"@ && (#[trigger] fields[c].labels) is Some
                implies exists|i: int| 0 <= i < cur.len() && cur[i].0 == c by {
            if c < n - 1 {
                let i = choose|i: int| 0 <= i < prev.len() && prev[i].0 == c;
                assert(cur[i] == prev[i]);
            } else {
                assert(cur[cur.len() - 1].0 == c);
            }
        }
    }
}

/// How many entries the groups hold together.
pub open spec fn total_entries(g: LogGroupsView) -> nat
    decreases g.len(),
{
    if g.len() == 0 {
        0
    } else {
        total_entries(g.drop_last()) + g.last().1.len()
    }
}

proof fn lemma_total_after_append(g: LogGroupsView, j: int, k: Seq<char>, e: (Seq<char>, Seq<char>))
    requires
        0 <= j < g.len(),
    ensures
        total_entries(g.update(j, (k, g[j].1.push(e)))) == total_entries(g) + 1,
    decreases g.len(),
{
    let h = g.update(j, (k, g[j].1.push(e)));
    if j == g.len() - 1 {
        assert(h.drop_last() == g.drop_last());
    } else {
        assert(h.drop_last() == g.drop_last().update(j, (k, g.drop_last()[j].1.push(e))));
        lemma_total_after_append(g.drop_last(), j, k, e);
    }
}

/// Law: grouping log rows by label text gives one group per distinct label text, and
/// every row lands in exactly one group: the groups hold as many entries as there are rows.
pub proof fn law_one_group_per_label_set(labels: Seq<FrameValue>, lines: Seq<FrameValue>, n: nat)
    ensures
        distinct_keys(grouped(labels, lines, n)),
        total_entries(grouped(labels, lines, n)) == n,
    decreases n,
{
    lemma_grouped_distinct_keys(labels, lines, n);
    if n > 0 {
        law_one_group_per_label_set(labels, lines, (n - 1) as nat);
        let g = grouped(labels, lines, (n - 1) as nat);
        let k = label_key(labels, n - 1);
        let e = log_entry(lines, n - 1);
        if has_group(g, k) {
            let j = choose|j: int| 0 <= j < g.len() && (#[trigger] g[j]).0 == k;
            lemma_total_after_append(g, j, k, e);
        } else {
            assert(g.push((k, seq![e])).drop_last() == g);
        }
    }
}

} // verus!
