//! Direct Prometheus queries (`/api/v1/query`).

use vstd::prelude::*;
use crate::errors::{http_status_error, is_network_error, is_success_status, DataError};
use crate::health::vec_chars_eq;
use crate::labels::{lookup, lookup_label, pairs_view, url_encode, url_encode_bytes};
use crate::text::{chars_of, push_str};

verus! {

broadcast use vstd::string::group_string_axioms;

/// The instant-query URL: `<base_url>/api/v1/query?query=<encoded query>`.
pub fn prometheus_query_url(base_url: &str, query: &str) -> (r: String)
    ensures
        r@ == base_url@ + "/api/v1/query?query="@ + url_encode_bytes(vstd::utf8::encode_utf8(query@)),
{
    let mut url = String::new();
    push_str(&mut url, base_url);
    push_str(&mut url, "/api/v1/query?query=");
    let enc = url_encode(query);
    push_str(&mut url, enc.as_str());
    url
}

/// The error a Prometheus HTTP status gives: `None` on success, else
/// `Prometheus query failed: HTTP <status>`.
pub fn prometheus_http_error(code: u16, status_text: &str) -> (r: Option<DataError>)
    ensures
        is_success_status(code) ==> r is None,
        !is_success_status(code) ==> is_network_error(
            r,
            "Prometheus query failed: HTTP "@ + status_text@,
        ),
{
    http_status_error(code, status_text, "Prometheus query failed: HTTP ")
}

/// The node id of a metric: its label `id_label`, else `unknown`.
pub fn metric_node_id(metric: &Vec<(String, String)>, id_label: &str) -> (r: String)
    ensures
        r@ == match lookup(pairs_view(metric@), id_label@) {
            Some(v) => v,
            None => "unknown"@,
        },
{
    match lookup_label(metric, id_label) {
        Some(v) => v,
        None => "unknown".to_string(),
    }
}

/// The labels of a metric other than those named `id_label`, in order.
pub open spec fn labels_except(pairs: Seq<(Seq<char>, Seq<char>)>, name: Seq<char>) -> Seq<
    (Seq<char>, Seq<char>),
>
    decreases pairs.len(),
{
    if pairs.len() == 0 {
        Seq::empty()
    } else {
        let rest = labels_except(pairs.drop_last(), name);
        if pairs.last().0 == name {
            rest
        } else {
            rest.push(pairs.last())
        }
    }
}

/// The labels of a metric other than the id label (candidates for extra metrics).
pub fn metric_extra_labels(metric: &Vec<(String, String)>, id_label: &str) -> (r: Vec<(String, String)>)
    ensures
        pairs_view(r@) == labels_except(pairs_view(metric@), id_label@),
{
    let k = chars_of(id_label);
    let ghost mv = pairs_view(metric@);
    let mut out: Vec<(String, String)> = Vec::new();
    let mut i: usize = 0;
    while i < metric.len()
        invariant
            i <= metric.len(),
            k@ == id_label@,
            mv == pairs_view(metric@),
            pairs_view(out@) == labels_except(mv.take(i as int), id_label@),
        decreases metric.len() - i,
    {
        assert(mv.take(i + 1).drop_last() == mv.take(i as int));
        assert(mv.take(i + 1).last() == mv[i as int]);
        let name = chars_of(metric[i].0.as_str());
        if !vec_chars_eq(&name, &k) {
            let ghost before = out@;
            let p = (metric[i].0.clone(), metric[i].1.clone());
            out.push(p);
            assert(pairs_view(out@) =~= pairs_view(before).push((p.0@, p.1@)));
        }
        i += 1;
    }
    assert(mv.take(metric.len() as int) == mv);
    out
}

} // verus!
