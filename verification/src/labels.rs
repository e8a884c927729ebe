//! Label sets of metrics and log streams: `(name, value)` pairs.

use vstd::prelude::*;
use crate::health::vec_chars_eq;
use crate::text::chars_of;

verus! {

/// The views of `(name, value)` pairs.
pub open spec fn pairs_view(v: Seq<(String, String)>) -> Seq<(Seq<char>, Seq<char>)> {
    v.map_values(|p: (String, String)| (p.0@, p.1@))
}

/// The value of the first pair named `key`.
pub open spec fn lookup(pairs: Seq<(Seq<char>, Seq<char>)>, key: Seq<char>) -> Option<Seq<char>>
    decreases pairs.len(),
{
    if pairs.len() == 0 {
        None
    } else if pairs[0].0 == key {
        Some(pairs[0].1)
    } else {
        lookup(pairs.drop_first(), key)
    }
}

/// The value of the label named `key`, if the set has one.
pub fn lookup_label(pairs: &Vec<(String, String)>, key: &str) -> (r: Option<String>)
    ensures
        match r {
            Some(v) => lookup(pairs_view(pairs@), key@) == Some(v@),
            None => lookup(pairs_view(pairs@), key@) is None,
        },
{
    let k = chars_of(key);
    let ghost pv = pairs_view(pairs@);
    let mut i: usize = 0;
    assert(pv.skip(0) == pv);
    while i < pairs.len()
        invariant
            i <= pairs.len(),
            k@ == key@,
            pv == pairs_view(pairs@),
            lookup(pv, key@) == lookup(pv.skip(i as int), key@),
        decreases pairs.len() - i,
    {
        let name = chars_of(pairs[i].0.as_str());
        assert(pv.skip(i as int)[0] == pv[i as int]);
        if vec_chars_eq(&name, &k) {
            return Some(pairs[i].1.clone());
        }
        assert(pv.skip(i as int).drop_first() == pv.skip(i + 1));
        i += 1;
    }
    None
}

/// A copy of a label set.
pub fn clone_pairs(v: &Vec<(String, String)>) -> (r: Vec<(String, String)>)
    ensures
        pairs_view(r@) == pairs_view(v@),
{
    let mut r: Vec<(String, String)> = Vec::new();
    let mut i: usize = 0;
    while i < v.len()
        invariant
            i <= v.len(),
            pairs_view(r@) == pairs_view(v@).take(i as int),
        decreases v.len() - i,
    {
        let ghost before = r@;
        let p = (v[i].0.clone(), v[i].1.clone());
        r.push(p);
        assert(pairs_view(r@) =~= pairs_view(before).push((p.0@, p.1@)));
        i += 1;
        assert(pairs_view(r@) =~= pairs_view(v@).take(i as int));
    }
    assert(pairs_view(v@).take(v.len() as int) == pairs_view(v@));
    r
}

/// The `(name, value)` pairs that `serde_json` reads from `text` as a JSON object of
/// strings, ordered by name; empty when `text` is not such an object. The JSON grammar is
/// not written out here.
pub uninterp spec fn json_string_map(text: Seq<char>) -> Seq<(Seq<char>, Seq<char>)>;

/// `serde_json::from_str` into a map of strings (a `BTreeMap`, so its pairs come ordered
/// by name), or the empty map when the text does not parse. Its result is
/// `json_string_map` of the text.
#[verifier::external_body]
pub(crate) fn parse_string_map(text: &str) -> (r: Vec<(String, String)>)
    ensures
        pairs_view(r@) == json_string_map(text@),
{
    serde_json::from_str::<std::collections::BTreeMap<String, String>>(text).unwrap_or_default().into_iter().collect()
}

} // verus!

verus! {

/// Bytes that URL encoding leaves as they are: ASCII letters, digits, `-`, `.`, `_`, `~`.
pub open spec fn is_url_safe(b: u8) -> bool {
    ||| 48 <= b <= 57
    ||| 65 <= b <= 90
    ||| 97 <= b <= 122
    ||| b == 45
    ||| b == 46
    ||| b == 95
    ||| b == 126
}

/// An uppercase hexadecimal digit.
pub open spec fn hex_digit(d: u8) -> char {
    if d < 10 {
        (48 + d) as char
    } else {
        (55 + d) as char
    }
}

/// The URL encoding of one byte: itself when safe, else `%` and two uppercase hex digits.
pub open spec fn url_encode_byte(b: u8) -> Seq<char> {
    if is_url_safe(b) {
        seq![b as char]
    } else {
        seq!['%', hex_digit(b / 16), hex_digit(b % 16)]
    }
}

/// The URL encoding of bytes, byte by byte.
pub open spec fn url_encode_bytes(bytes: Seq<u8>) -> Seq<char>
    decreases bytes.len(),
{
    if bytes.len() == 0 {
        Seq::empty()
    } else {
        url_encode_bytes(bytes.drop_last()) + url_encode_byte(bytes.last())
    }
}

/// `urlencoding::encode`: percent-encodes every byte of the UTF-8 encoding of `s` except
/// ASCII letters, digits, `-`, `.`, `_` and `~`, with uppercase hex digits.
#[verifier::external_body]
pub(crate) fn url_encode(s: &str) -> (r: String)
    ensures
        r@ == url_encode_bytes(vstd::utf8::encode_utf8(s@)),
{
    urlencoding::encode(s).into_owned()
}

} // verus!
