//! The age of a commit in words: `just now`, `3 hours ago`, `9 months ago`.

use vstd::prelude::*;
use crate::text::{decimal, push_decimal_u64};

verus! {

/// `count` units ago: `1 day ago`, `2 days ago`.
pub open spec fn ago(count: nat, unit: Seq<char>) -> Seq<char> {
    decimal(count) + seq![' '] + unit + (if count == 1 {
        Seq::empty()
    } else {
        seq!['s']
    }) + seq![' ', 'a', 'g', 'o']
}

/// How long before `now` a time lies, both in seconds since the epoch, in
/// the largest unit that it fills once: minutes of 60 seconds, hours, days,
/// weeks, months of 30 days and years of 365 days. Less than a minute is
/// `just now`; a time after `now` is `in the future`.
pub open spec fn relative_time(timestamp: int, now: int) -> Seq<char> {
    let elapsed = now - timestamp;
    if elapsed < 0 {
        "in the future"@
    } else if elapsed < 60 {
        "just now"@
    } else if elapsed < 3600 {
        ago((elapsed / 60) as nat, "minute"@)
    } else if elapsed < 86400 {
        ago((elapsed / 3600) as nat, "hour"@)
    } else if elapsed < 604800 {
        ago((elapsed / 86400) as nat, "day"@)
    } else if elapsed < 2592000 {
        ago((elapsed / 604800) as nat, "week"@)
    } else if elapsed < 31536000 {
        ago((elapsed / 2592000) as nat, "month"@)
    } else {
        ago((elapsed / 31536000) as nat, "year"@)
    }
}

fn format_ago(count: u64, unit: &str) -> (out: String)
    ensures
        out@ == ago(count as nat, unit@),
{
    let mut out = String::new();
    push_decimal_u64(&mut out, count);
    out.push(' ');
    out.append(unit);
    if count != 1 {
        out.push('s');
    }
    out.push(' ');
    out.push('a');
    out.push('g');
    out.push('o');
    assert(out@ =~= ago(count as nat, unit@));
    out
}

/// The age of a commit made at `timestamp`, as seen at `now`.
pub fn format_relative_time(timestamp: i64, now: i64) -> (out: String)
    ensures
        out@ == relative_time(timestamp as int, now as int),
{
    if now < timestamp {
        return String::from_str("in the future");
    }
    let elapsed: u64 = (now as i128 - timestamp as i128) as u64;
    if elapsed < 60 {
        String::from_str("just now")
    } else if elapsed < 3600 {
        format_ago(elapsed / 60, "minute")
    } else if elapsed < 86400 {
        format_ago(elapsed / 3600, "hour")
    } else if elapsed < 604800 {
        format_ago(elapsed / 86400, "day")
    } else if elapsed < 2592000 {
        format_ago(elapsed / 604800, "week")
    } else if elapsed < 31536000 {
        format_ago(elapsed / 2592000, "month")
    } else {
        format_ago(elapsed / 31536000, "year")
    }
}

} // verus!
