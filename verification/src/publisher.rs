//! The development publisher's message pieces: titles, timestamps and settings.

use vstd::prelude::*;
use crate::text::{chars_of, decimal, parse_u64, parse_unsigned, push_decimal, push_str};

verus! {

broadcast use vstd::string::group_string_axioms;

/// `n` in decimal, padded with zeros to at least two digits.
pub open spec fn pad2(n: nat) -> Seq<char> {
    if n < 10 {
        seq!['0'] + decimal(n)
    } else {
        decimal(n)
    }
}

/// The rough ISO-8601-like stamp for `t` seconds since the epoch: years of 365 days from
/// 1970, the month as the day of the year divided by 31, plus one, the day always 1,
/// then the time of day.
pub open spec fn iso_stamp(t: nat) -> Seq<char> {
    decimal(1970 + t / 31536000) + "-"@ + pad2(((t % 31536000) / 86400) / 31 + 1) + "-"@ + pad2(
        (t % 86400) / 86400 * 28 + 1,
    ) + "T"@ + pad2((t % 86400) / 3600) + ":"@ + pad2((t % 3600) / 60) + ":"@ + pad2(t % 60)
        + "Z"@
}

fn push_pad2(s: &mut String, n: u64)
    ensures
        final(s)@ == old(s)@ + pad2(n as nat),
{
    if n < 10 {
        push_str(s, "0");
        proof {
            reveal_strlit("0");
        }
    }
    push_decimal(s, n as u128);
    proof {
        if n < 10 {
            assert(final(s)@ =~= old(s)@ + pad2(n as nat));
        }
    }
}

/// The publication stamp for `t` seconds since the epoch (see `iso_stamp`).
pub fn chrono_iso(t: u64) -> (r: String)
    ensures
        r@ == iso_stamp(t as nat),
{
    let mut s = String::new();
    push_decimal(&mut s, 1970 + (t / 31536000) as u128);
    push_str(&mut s, "-");
    push_pad2(&mut s, ((t % 31536000) / 86400) / 31 + 1);
    push_str(&mut s, "-");
    push_pad2(&mut s, (t % 86400) / 86400 * 28 + 1);
    push_str(&mut s, "T");
    push_pad2(&mut s, (t % 86400) / 3600);
    push_str(&mut s, ":");
    push_pad2(&mut s, (t % 3600) / 60);
    push_str(&mut s, ":");
    push_pad2(&mut s, t % 60);
    push_str(&mut s, "Z");
    s
}

/// The title of message number `n`: a template ending in `#` gets the number appended
/// after a space; any other template is used as it is.
pub fn dev_title(template: &str, n: u32) -> (r: String)
    ensures
        template@.len() > 0 && template@.last() == '#' ==> r@ == template@ + " "@ + decimal(
            n as nat,
        ),
        !(template@.len() > 0 && template@.last() == '#') ==> r@ == template@,
{
    let cs = chars_of(template);
    let mut r = String::new();
    push_str(&mut r, template);
    if cs.len() > 0 && cs[cs.len() - 1] == '#' {
        push_str(&mut r, " ");
        push_decimal(&mut r, n as u128);
    }
    r
}

/// The publish interval from its setting: the number when it parses, else 3; at least 1.
pub open spec fn interval_setting(s: Option<String>) -> nat {
    let v = match s {
        Some(t) => match parse_unsigned(t@, u64::MAX as nat) {
            Some(n) => n,
            None => 3,
        },
        None => 3,
    };
    if v >= 1 {
        v
    } else {
        1
    }
}

/// The seconds between published messages, from the `PUBLISH_INTERVAL_SECS` setting.
pub fn publish_interval_secs(setting: Option<String>) -> (r: u64)
    ensures
        r == interval_setting(setting),
{
    let v: u64 = match &setting {
        Some(t) => match parse_u64(t.as_str()) {
            Some(n) => n,
            None => 3,
        },
        None => 3,
    };
    if v >= 1 {
        v
    } else {
        1
    }
}

} // verus!
