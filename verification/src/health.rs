use vstd::prelude::*;
use crate::text::{chars_of, contains, contains_chars};

verus! {

broadcast use vstd::string::group_string_axioms;

/// Health status for a monitored node.
#[derive(Clone, Copy, PartialEq, Eq, Debug, Structural)]
pub enum NodeHealth {
    Healthy,
    Warning,
    Critical,
}

impl Default for NodeHealth {
    /// A node is healthy until something says otherwise.
    fn default() -> (h: NodeHealth)
        ensures
            h == NodeHealth::Healthy,
    {
        NodeHealth::Healthy
    }
}

/// The views of a sequence of strings.
pub open spec fn strings_view(v: Seq<String>) -> Seq<Seq<char>> {
    v.map_values(|s: String| s@)
}

/// The views of a sequence of character vectors.
pub open spec fn char_vecs_view(v: Seq<Vec<char>>) -> Seq<Seq<char>> {
    v.map_values(|s: Vec<char>| s@)
}

/// Configuration for log-based health analysis: a log line that contains one of the
/// critical patterns counts as an error; otherwise, one that contains a warning
/// pattern counts as a warning.
#[derive(Clone, Debug)]
pub struct LogAnalysisConfig {
    pub critical_patterns: Vec<String>,
    pub warning_patterns: Vec<String>,
}

impl Default for LogAnalysisConfig {
    /// Critical: "error", "fatal", "panic"; warning: "warn", "warning".
    fn default() -> (c: LogAnalysisConfig)
        ensures
            strings_view(c.critical_patterns@) == seq!["error"@, "fatal"@, "panic"@],
            strings_view(c.warning_patterns@) == seq!["warn"@, "warning"@],
    {
        let mut critical_patterns: Vec<String> = Vec::new();
        critical_patterns.push("error".to_string());
        critical_patterns.push("fatal".to_string());
        critical_patterns.push("panic".to_string());
        let mut warning_patterns: Vec<String> = Vec::new();
        warning_patterns.push("warn".to_string());
        warning_patterns.push("warning".to_string());
        let c = LogAnalysisConfig { critical_patterns, warning_patterns };
        assert(strings_view(c.critical_patterns@) == seq!["error"@, "fatal"@, "panic"@]);
        assert(strings_view(c.warning_patterns@) == seq!["warn"@, "warning"@]);
        c
    }
}

/// `line` contains one of `patterns`.
pub open spec fn matches_any(line: Seq<char>, patterns: Seq<Seq<char>>) -> bool {
    exists|k: int| 0 <= k < patterns.len() && contains(line, #[trigger] patterns[k])
}

/// How many of `lines` contain a critical pattern.
pub open spec fn error_lines(lines: Seq<Seq<char>>, critical: Seq<Seq<char>>) -> nat
    decreases lines.len(),
{
    if lines.len() == 0 {
        0
    } else {
        error_lines(lines.drop_last(), critical) + if matches_any(lines.last(), critical) {
            1nat
        } else {
            0nat
        }
    }
}

/// How many of `lines` contain no critical pattern but a warning pattern.
pub open spec fn warning_lines(
    lines: Seq<Seq<char>>,
    critical: Seq<Seq<char>>,
    warning: Seq<Seq<char>>,
) -> nat
    decreases lines.len(),
{
    if lines.len() == 0 {
        0
    } else {
        warning_lines(lines.drop_last(), critical, warning) + if !matches_any(
            lines.last(),
            critical,
        ) && matches_any(lines.last(), warning) {
            1nat
        } else {
            0nat
        }
    }
}

/// Health from the counts: any error makes a node critical, else any warning makes it
/// a warning, else it is healthy.
pub open spec fn health_from_counts(errors: nat, warnings: nat) -> NodeHealth {
    if errors > 0 {
        NodeHealth::Critical
    } else if warnings > 0 {
        NodeHealth::Warning
    } else {
        NodeHealth::Healthy
    }
}

/// The three counts that log analysis reports.
#[derive(Clone, Copy, Debug, PartialEq, Eq, Structural)]
pub struct LogMetrics {
    pub log_count: usize,
    pub error_count: usize,
    pub warning_count: usize,
}

/// The key of each log metric, in the order `LogMetrics::entries` gives them.
pub open spec fn log_metric_keys() -> Seq<Seq<char>> {
    seq!["log_count"@, "error_count"@, "warning_count"@]
}

impl LogMetrics {
    /// The metric named `key` (`log_count`, `error_count` or `warning_count`).
    pub fn get(&self, key: &str) -> (r: Option<usize>)
        ensures
            key@ == "log_count"@ ==> r == Some(self.log_count),
            key@ == "error_count"@ ==> r == Some(self.error_count),
            key@ == "warning_count"@ ==> r == Some(self.warning_count),
            !log_metric_keys().contains(key@) ==> r is None,
    {
        proof {
            reveal_strlit("log_count");
            reveal_strlit("error_count");
            reveal_strlit("warning_count");
            assert("log_count"@.len() == 9);
            assert("error_count"@.len() == 11);
            assert("warning_count"@.len() == 13);
        }
        let k = chars_of(key);
        if vec_chars_eq(&k, &chars_of("log_count")) {
            Some(self.log_count)
        } else if vec_chars_eq(&k, &chars_of("error_count")) {
            Some(self.error_count)
        } else if vec_chars_eq(&k, &chars_of("warning_count")) {
            Some(self.warning_count)
        } else {
            proof {
                if log_metric_keys().contains(key@) {
                    let j = choose|j: int| 0 <= j < 3 && log_metric_keys()[j] == key@;
                    assert(j == 0 || j == 1 || j == 2);
                }
            }
            None
        }
    }

    /// The metrics as `(key, value)` pairs: `log_count`, `error_count`, `warning_count`.
    pub fn entries(&self) -> (r: Vec<(String, usize)>)
        ensures
            r@.len() == 3,
            forall|j: int| 0 <= j < 3 ==> (#[trigger] r@[j]).0@ == log_metric_keys()[j],
            r@[0].1 == self.log_count,
            r@[1].1 == self.error_count,
            r@[2].1 == self.warning_count,
    {
        let mut r: Vec<(String, usize)> = Vec::new();
        r.push(("log_count".to_string(), self.log_count));
        r.push(("error_count".to_string(), self.error_count));
        r.push(("warning_count".to_string(), self.warning_count));
        r
    }
}

/// Whether two character vectors are equal.
pub fn vec_chars_eq(a: &Vec<char>, b: &Vec<char>) -> (r: bool)
    ensures
        r == (a@ == b@),
{
    if a.len() != b.len() {
        return false;
    }
    let mut i: usize = 0;
    while i < a.len()
        invariant
            a.len() == b.len(),
            i <= a.len(),
            forall|j: int| 0 <= j < i ==> a@[j] == b@[j],
        decreases a.len() - i,
    {
        if a[i] != b[i] {
            return false;
        }
        i += 1;
    }
    assert(a@ == b@);
    true
}

/// The character vectors of the given strings.
pub fn chars_of_all(v: &Vec<String>) -> (r: Vec<Vec<char>>)
    ensures
        char_vecs_view(r@) == strings_view(v@),
{
    let mut r: Vec<Vec<char>> = Vec::new();
    let mut i: usize = 0;
    while i < v.len()
        invariant
            i <= v.len(),
            r@.len() == i,
            char_vecs_view(r@) == strings_view(v@).take(i as int),
        decreases v.len() - i,
    {
        let ghost before = r@;
        let c = chars_of(v[i].as_str());
        r.push(c);
        assert(r@ == before.push(c));
        assert(char_vecs_view(r@) =~= strings_view(v@).take(i + 1)) by {
            assert forall|j: int| 0 <= j < i + 1 implies char_vecs_view(r@)[j] == strings_view(
                v@,
            ).take(i + 1)[j] by {
                if j < i {
                    assert(char_vecs_view(before)[j] == strings_view(v@).take(i as int)[j]);
                }
            }
        }
        i += 1;
    }
    assert(strings_view(v@).take(v.len() as int) == strings_view(v@));
    r
}

/// Whether `line` contains one of `patterns`.
pub fn matches_any_exec(line: &Vec<char>, patterns: &Vec<Vec<char>>) -> (r: bool)
    ensures
        r == matches_any(line@, char_vecs_view(patterns@)),
{
    let ghost pv = char_vecs_view(patterns@);
    let mut k: usize = 0;
    while k < patterns.len()
        invariant
            k <= patterns.len(),
            pv == char_vecs_view(patterns@),
            forall|j: int| 0 <= j < k ==> !contains(line@, #[trigger] pv[j]),
        decreases patterns.len() - k,
    {
        if contains_chars(line, &patterns[k]) {
            assert(pv[k as int] == patterns@[k as int]@);
            return true;
        }
        k += 1;
    }
    false
}

} // verus!

verus! {

/// What `str::to_lowercase` gives for `s` (the Unicode lowercase mapping, which is not
/// written out here).
pub uninterp spec fn lowercase(s: Seq<char>) -> Seq<char>;

/// `str::to_lowercase`; its result is `lowercase` of the argument.
#[verifier::external_body]
pub(crate) fn to_lowercase(s: &str) -> (r: String)
    ensures
        r@ == lowercase(s@),
{
    s.to_lowercase()
}

/// The lowercased message of each `(id, message)` log entry.
pub open spec fn lowercased_lines(logs: Seq<(String, String)>) -> Seq<Seq<char>> {
    Seq::new(logs.len(), |i: int| lowercase(logs[i].1@))
}

/// Together, error and warning lines never outnumber the lines.
pub proof fn lemma_line_counts_bounded(
    lines: Seq<Seq<char>>,
    critical: Seq<Seq<char>>,
    warning: Seq<Seq<char>>,
)
    ensures
        error_lines(lines, critical) + warning_lines(lines, critical, warning) <= lines.len(),
    decreases lines.len(),
{
    if lines.len() > 0 {
        lemma_line_counts_bounded(lines.drop_last(), critical, warning);
    }
}

/// The analysis of already lowercased log lines: `log_count` is the number of lines,
/// `error_count` the number containing a critical pattern, `warning_count` the number
/// containing a warning pattern but no critical one, and the health follows from
/// the counts.
pub fn classify_log_lines(
    lines: &Vec<String>,
    critical_patterns: &Vec<String>,
    warning_patterns: &Vec<String>,
) -> (r: (NodeHealth, LogMetrics))
    ensures
        r.1.log_count == lines@.len(),
        r.1.error_count == error_lines(strings_view(lines@), strings_view(critical_patterns@)),
        r.1.warning_count == warning_lines(
            strings_view(lines@),
            strings_view(critical_patterns@),
            strings_view(warning_patterns@),
        ),
        r.0 == health_from_counts(r.1.error_count as nat, r.1.warning_count as nat),
        r.1.error_count + r.1.warning_count <= r.1.log_count,
        r.0 == NodeHealth::Critical <==> r.1.error_count > 0,
        r.0 == NodeHealth::Warning <==> r.1.error_count == 0 && r.1.warning_count > 0,
{
    let critical = chars_of_all(critical_patterns);
    let warning = chars_of_all(warning_patterns);
    let ghost lv = strings_view(lines@);
    let ghost cv = strings_view(critical_patterns@);
    let ghost wv = strings_view(warning_patterns@);
    let mut critical_count: usize = 0;
    let mut warning_count: usize = 0;
    let mut i: usize = 0;
    while i < lines.len()
        invariant
            i <= lines.len(),
            lv == strings_view(lines@),
            char_vecs_view(critical@) == cv,
            char_vecs_view(warning@) == wv,
            critical_count == error_lines(lv.take(i as int), cv),
            warning_count == warning_lines(lv.take(i as int), cv, wv),
            critical_count + warning_count <= i,
        decreases lines.len() - i,
    {
        let line = chars_of(lines[i].as_str());
        assert(lv.take(i + 1).drop_last() == lv.take(i as int));
        assert(lv.take(i + 1).last() == line@);
        if matches_any_exec(&line, &critical) {
            critical_count += 1;
        } else if matches_any_exec(&line, &warning) {
            warning_count += 1;
        }
        i += 1;
    }
    assert(lv.take(lines.len() as int) == lv);
    let health = if critical_count > 0 {
        NodeHealth::Critical
    } else if warning_count > 0 {
        NodeHealth::Warning
    } else {
        NodeHealth::Healthy
    };
    (
        health,
        LogMetrics { log_count: lines.len(), error_count: critical_count, warning_count },
    )
}

/// Analyzes `(id, message)` log entries with the configured patterns: each message is
/// lowercased, then classified as `classify_log_lines` does.
pub fn analyze_logs(logs: &[(String, String)], config: &LogAnalysisConfig) -> (r: (
    NodeHealth,
    LogMetrics,
))
    ensures
        r.1.log_count == logs@.len(),
        r.1.error_count == error_lines(
            lowercased_lines(logs@),
            strings_view(config.critical_patterns@),
        ),
        r.1.warning_count == warning_lines(
            lowercased_lines(logs@),
            strings_view(config.critical_patterns@),
            strings_view(config.warning_patterns@),
        ),
        r.0 == health_from_counts(r.1.error_count as nat, r.1.warning_count as nat),
        r.1.error_count + r.1.warning_count <= r.1.log_count,
        r.0 == NodeHealth::Critical <==> r.1.error_count > 0,
        r.0 == NodeHealth::Warning <==> r.1.error_count == 0 && r.1.warning_count > 0,
{
    analyze_logs_with(logs, &config.critical_patterns, &config.warning_patterns)
}

/// Analyzes `(id, message)` log entries with the given patterns: each message is
/// lowercased, then classified as `classify_log_lines` does.
pub fn analyze_logs_with(
    logs: &[(String, String)],
    critical_patterns: &Vec<String>,
    warning_patterns: &Vec<String>,
) -> (r: (NodeHealth, LogMetrics))
    ensures
        r.1.log_count == logs@.len(),
        r.1.error_count == error_lines(lowercased_lines(logs@), strings_view(critical_patterns@)),
        r.1.warning_count == warning_lines(
            lowercased_lines(logs@),
            strings_view(critical_patterns@),
            strings_view(warning_patterns@),
        ),
        r.0 == health_from_counts(r.1.error_count as nat, r.1.warning_count as nat),
        r.1.error_count + r.1.warning_count <= r.1.log_count,
        r.0 == NodeHealth::Critical <==> r.1.error_count > 0,
        r.0 == NodeHealth::Warning <==> r.1.error_count == 0 && r.1.warning_count > 0,
{
    let mut lines: Vec<String> = Vec::new();
    let mut i: usize = 0;
    while i < logs.len()
        invariant
            i <= logs.len(),
            lines@.len() == i,
            forall|j: int| 0 <= j < i ==> (#[trigger] lines@[j])@ == lowercase(logs@[j].1@),
        decreases logs.len() - i,
    {
        let lower = to_lowercase(logs[i].1.as_str());
        lines.push(lower);
        i += 1;
    }
    assert(strings_view(lines@) =~= lowercased_lines(logs@));
    classify_log_lines(&lines, critical_patterns, warning_patterns)
}

} // verus!

verus! {

/// Some line contains a critical pattern.
pub open spec fn has_error_line(lines: Seq<Seq<char>>, critical: Seq<Seq<char>>) -> bool {
    exists|i: int| 0 <= i < lines.len() && matches_any(#[trigger] lines[i], critical)
}

/// Some line contains a warning pattern and no critical one.
pub open spec fn has_warning_line(
    lines: Seq<Seq<char>>,
    critical: Seq<Seq<char>>,
    warning: Seq<Seq<char>>,
) -> bool {
    exists|i: int|
        0 <= i < lines.len() && !matches_any(#[trigger] lines[i], critical) && matches_any(
            lines[i],
            warning,
        )
}

proof fn lemma_error_lines_positive(lines: Seq<Seq<char>>, critical: Seq<Seq<char>>)
    ensures
        error_lines(lines, critical) > 0 <==> has_error_line(lines, critical),
    decreases lines.len(),
{
    if lines.len() > 0 {
        let init = lines.drop_last();
        lemma_error_lines_positive(init, critical);
        if has_error_line(init, critical) {
            let i = choose|i: int| 0 <= i < init.len() && matches_any(#[trigger] init[i], critical);
            assert(lines[i] == init[i]);
        }
        if has_error_line(lines, critical) && !matches_any(lines.last(), critical) {
            let i = choose|i: int| 0 <= i < lines.len() && matches_any(#[trigger] lines[i], critical);
            assert(init[i] == lines[i]);
        }
        if matches_any(lines.last(), critical) {
            assert(matches_any(lines[lines.len() - 1], critical));
        }
    }
}

proof fn lemma_warning_lines_positive(
    lines: Seq<Seq<char>>,
    critical: Seq<Seq<char>>,
    warning: Seq<Seq<char>>,
)
    ensures
        warning_lines(lines, critical, warning) > 0 <==> has_warning_line(lines, critical, warning),
    decreases lines.len(),
{
    if lines.len() > 0 {
        let init = lines.drop_last();
        let l = lines.last();
        lemma_warning_lines_positive(init, critical, warning);
        if has_warning_line(init, critical, warning) {
            let i = choose|i: int|
                0 <= i < init.len() && !matches_any(#[trigger] init[i], critical) && matches_any(
                    init[i],
                    warning,
                );
            assert(lines[i] == init[i]);
        }
        if has_warning_line(lines, critical, warning) && !(!matches_any(l, critical) && matches_any(
            l,
            warning,
        )) {
            let i = choose|i: int|
                0 <= i < lines.len() && !matches_any(#[trigger] lines[i], critical) && matches_any(
                    lines[i],
                    warning,
                );
            assert(i != lines.len() - 1);
            assert(init[i] == lines[i]);
        }
        if !matches_any(l, critical) && matches_any(l, warning) {
            assert(lines[lines.len() - 1] == l);
        }
    }
}

/// Law: a node is critical exactly when one of its lines contains a critical pattern,
/// however many warnings there are; it is a warning exactly when no line is critical and
/// some line contains a warning pattern; otherwise it is healthy.
pub proof fn law_health_from_lines(
    lines: Seq<Seq<char>>,
    critical: Seq<Seq<char>>,
    warning: Seq<Seq<char>>,
)
    ensures
        ({
            let h = health_from_counts(
                error_lines(lines, critical),
                warning_lines(lines, critical, warning),
            );
            &&& h == NodeHealth::Critical <==> has_error_line(lines, critical)
            &&& h == NodeHealth::Warning <==> !has_error_line(lines, critical) && has_warning_line(
                lines,
                critical,
                warning,
            )
            &&& h == NodeHealth::Healthy <==> !has_error_line(lines, critical) && !has_warning_line(
                lines,
                critical,
                warning,
            )
        }),
{
    lemma_error_lines_positive(lines, critical);
    lemma_warning_lines_positive(lines, critical, warning);
}

} // verus!
