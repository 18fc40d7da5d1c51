//! The dates shown next to memories.

use vstd::prelude::*;
use crate::text::{decimal, push_decimal, string_of};

verus! {

/// The UTC calendar date, as `%Y-%m-%d`, that `chrono` gives for `ts`
/// seconds after the Unix epoch; `None` where `ts` is out of its range.
pub uninterp spec fn utc_date_of(ts: i64) -> Option<Seq<char>>;

/// Formats the UTC date of `ts` with `chrono::DateTime::from_timestamp`
/// and `format("%Y-%m-%d")`. The text is named, not stated: it depends on
/// `ts` alone (the date is taken in UTC, not in a local time zone), and
/// there is none where `from_timestamp` finds `ts` out of range.
#[verifier::external_body]
fn utc_date(ts: i64) -> (r: Option<String>)
    ensures
        match r {
            Some(d) => utc_date_of(ts) == Some(d@),
            None => utc_date_of(ts) is None,
        },
{
    match chrono::DateTime::from_timestamp(ts, 0) {
        Some(dt) => Some(dt.format("%Y-%m-%d").to_string()),
        None => None,
    }
}

/// `n` in decimal, with a leading `-` when it is negative.
pub open spec fn signed_decimal(n: int) -> Seq<char> {
    if n < 0 {
        seq!['-'] + decimal((-n) as nat)
    } else {
        decimal(n as nat)
    }
}

/// The date shown for a memory created at `ts` (seconds after the Unix
/// epoch): its UTC date, or `ts` itself in decimal where it has none.
pub fn format_timestamp(ts: i64) -> (r: String)
    ensures
        r@ == match utc_date_of(ts) {
            Some(d) => d,
            None => signed_decimal(ts as int),
        },
{
    match utc_date(ts) {
        Some(d) => d,
        None => {
            let mut out: Vec<char> = Vec::new();
            if ts < 0 {
                out.push('-');
                let m: u64 = ((-(ts + 1)) as u64) + 1;
                assert(m as int == -(ts as int));
                push_decimal(&mut out, m);
            } else {
                push_decimal(&mut out, ts as u64);
            }
            string_of(&out)
        },
    }
}

} // verus!
