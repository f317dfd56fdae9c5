//! The request history: how long ago an entry was made, as the history list
//! shows it.

use vstd::prelude::*;

use crate::text::{append_str, string_of};

verus! {

/// The decimal digits of a number.
pub open spec fn decimal(n: nat) -> Seq<char>
    decreases n,
{
    if n < 10 {
        seq![((n + 48) as char)]
    } else {
        decimal(n / 10).push(((n % 10) + 48) as char)
    }
}

/// Writes a number in decimal.
pub fn decimal_text(n: u64) -> (r: Vec<char>)
    ensures
        r@ == decimal(n as nat),
    decreases n,
{
    if n < 10 {
        let d: u8 = n as u8;
        let mut r: Vec<char> = Vec::new();
        r.push((d + 48) as char);
        r
    } else {
        let mut r = decimal_text(n / 10);
        let d: u8 = (n % 10) as u8;
        r.push((d + 48) as char);
        r
    }
}

/// What `chrono` writes for the UTC date of a Unix time with the format
/// `%Y-%m-%d`.
pub uninterp spec fn utc_date(ts: i64) -> Seq<char>;

/// `chrono::DateTime::from_timestamp(ts, 0)` formatted with `%Y-%m-%d`; a
/// time outside chrono's range gives an empty text. The result is named by
/// `utc_date`.
#[verifier::external_body]
pub fn format_utc_date(ts: i64) -> (r: String)
    ensures
        r@ == utc_date(ts),
{
    match chrono::DateTime::from_timestamp(ts, 0) {
        Some(d) => d.format("%Y-%m-%d").to_string(),
        None => String::new(),
    }
}

/// How long ago something happened, given the seconds since then: "just
/// now" under a minute, then whole minutes, hours, or days (under a week),
/// and after that the date.
pub open spec fn relative_label(elapsed: int, date: Seq<char>) -> Seq<char> {
    if elapsed < 60 {
        "just now"@
    } else if elapsed / 60 < 60 {
        decimal((elapsed / 60) as nat) + "m ago"@
    } else if elapsed / 3600 < 24 {
        decimal((elapsed / 3600) as nat) + "h ago"@
    } else if elapsed / 86400 < 7 {
        decimal((elapsed / 86400) as nat) + "d ago"@
    } else {
        date
    }
}

/// The label by elapsed time: under a minute "just now"; under an hour the
/// whole minutes; under a day the whole hours; under a week the whole days;
/// from a week on the date.
pub proof fn lemma_relative_label_ranges(e: int, date: Seq<char>)
    ensures
        e < 60 ==> relative_label(e, date) == "just now"@,
        60 <= e < 3600 ==> relative_label(e, date) == decimal((e / 60) as nat) + "m ago"@,
        3600 <= e < 86400 ==> relative_label(e, date) == decimal((e / 3600) as nat) + "h ago"@,
        86400 <= e < 7 * 86400 ==> relative_label(e, date) == decimal((e / 86400) as nat) + "d ago"@,
        7 * 86400 <= e ==> relative_label(e, date) == date,
{
    if e >= 60 {
        assert(e < 3600 ==> e / 60 < 60);
        assert(e >= 3600 ==> e / 60 >= 60);
        assert(e < 86400 ==> e / 3600 < 24);
        assert(e >= 86400 ==> e / 3600 >= 24);
        assert(e < 7 * 86400 ==> e / 86400 < 7);
        assert(e >= 7 * 86400 ==> e / 86400 >= 7);
    }
}

/// How long before `now` an entry made at `created_at` was made (both Unix
/// times in seconds), as the history list shows it.
pub fn format_relative_time(now: i64, created_at: i64) -> (r: String)
    ensures
        r@ == relative_label(now - created_at, utc_date(created_at)),
        now - created_at < 60 ==> r@ == "just now"@,
        60 <= now - created_at < 3600 ==> r@ == decimal(((now - created_at) / 60) as nat) + "m ago"@,
        3600 <= now - created_at < 86400 ==> r@ == decimal(((now - created_at) / 3600) as nat) + "h ago"@,
        86400 <= now - created_at < 7 * 86400 ==> r@ == decimal(((now - created_at) / 86400) as nat) + "d ago"@,
        7 * 86400 <= now - created_at ==> r@ == utc_date(created_at),
{
    proof {
        lemma_relative_label_ranges(now - created_at, utc_date(created_at));
    }
    let elapsed: i128 = now as i128 - created_at as i128;
    if elapsed < 60 {
        return "just now".to_string();
    }
    let e: u64 = elapsed as u64;
    let mut out: Vec<char> = Vec::new();
    if e / 60 < 60 {
        out = decimal_text(e / 60);
        append_str(&mut out, "m ago");
    } else if e / 3600 < 24 {
        out = decimal_text(e / 3600);
        append_str(&mut out, "h ago");
    } else if e / 86400 < 7 {
        out = decimal_text(e / 86400);
        append_str(&mut out, "d ago");
    } else {
        return format_utc_date(created_at);
    }
    string_of(out.as_slice())
}

} // verus!
