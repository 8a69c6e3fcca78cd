//! Wall-clock text for transcript updates.

use vstd::prelude::*;
use crate::chars::string_of;

verus! {

/// The decimal digit character of `d`, for `d < 10`.
pub open spec fn digit(d: int) -> char {
    seq!['0', '1', '2', '3', '4', '5', '6', '7', '8', '9'][d]
}

/// `HH:MM:SS` (UTC) of a time given in seconds since the Unix epoch.
pub open spec fn clock_text(unix_secs: u64) -> Seq<char> {
    let h = ((unix_secs / 3600) % 24) as int;
    let m = ((unix_secs / 60) % 60) as int;
    let s = (unix_secs % 60) as int;
    seq![digit(h / 10), digit(h % 10), ':', digit(m / 10), digit(m % 10), ':', digit(s / 10), digit(s % 10)]
}

fn digit_char(d: u64) -> (c: char)
    requires
        d < 10,
    ensures
        c == digit(d as int),
{
    let digits = ['0', '1', '2', '3', '4', '5', '6', '7', '8', '9'];
    assert(digits@ =~= seq!['0', '1', '2', '3', '4', '5', '6', '7', '8', '9']);
    digits[d as usize]
}

/// Format a Unix time as `HH:MM:SS` (UTC).
pub fn format_clock_time(unix_secs: u64) -> (r: String)
    ensures
        r@ == clock_text(unix_secs),
{
    let h = (unix_secs / 3600) % 24;
    let m = (unix_secs / 60) % 60;
    let s = unix_secs % 60;
    let v = [
        digit_char(h / 10),
        digit_char(h % 10),
        ':',
        digit_char(m / 10),
        digit_char(m % 10),
        ':',
        digit_char(s / 10),
        digit_char(s % 10),
    ];
    let r = string_of(&v);
    assert(r@ =~= clock_text(unix_secs));
    r
}

} // verus!
