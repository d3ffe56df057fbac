//! Presentational formatting of durations and speeds for the progress
//! screen.

use crate::util::fixed::{f64_value, f64_value_of, one_decimal, push_one_decimal};
use crate::util::text::{decimal, decimal_pad2, push_decimal, push_decimal_pad2};
use vstd::prelude::*;

verus! {

/// The text `format_eta` produces for `total_seconds`: `H:MM:SS` when at
/// least one hour remains, `M:SS` otherwise.
pub open spec fn eta_text(total_seconds: nat) -> Seq<char> {
    let h = total_seconds / 3600;
    let m = (total_seconds % 3600) / 60;
    let s = total_seconds % 60;
    if h > 0 {
        decimal(h) + seq![':'] + decimal_pad2(m) + seq![':'] + decimal_pad2(s)
    } else {
        decimal(m) + seq![':'] + decimal_pad2(s)
    }
}

/// Formats a duration in seconds as `H:MM:SS` or `M:SS`.
pub fn format_eta(total_seconds: u64) -> (r: String)
    ensures
        r@ == eta_text(total_seconds as nat),
{
    let h = total_seconds / 3600;
    let m = (total_seconds % 3600) / 60;
    let s = total_seconds % 60;
    proof {
        reveal_strlit(":");
    }
    let mut out = String::new();
    if h > 0 {
        push_decimal(&mut out, h as u128);
        out.append(":");
        push_decimal_pad2(&mut out, m as u128);
        out.append(":");
        push_decimal_pad2(&mut out, s as u128);
    } else {
        push_decimal(&mut out, m as u128);
        out.append(":");
        push_decimal_pad2(&mut out, s as u128);
    }
    out
}

/// The text `format_speed` shows: the double-precision value of the speed
/// in MB/s (1 MB = 1024 * 1024 bytes) with one decimal.
pub open spec fn speed_text(bytes_per_sec: u64) -> Seq<char> {
    one_decimal(f64_value(bytes_per_sec as nat), 0x10_0000) + " MB/s"@
}

/// Formats a write speed, e.g. `12.5 MB/s`.
pub fn format_speed(bytes_per_sec: u64) -> (r: String)
    ensures
        r@ == speed_text(bytes_per_sec),
{
    let mut out = String::new();
    push_one_decimal(&mut out, f64_value_of(bytes_per_sec), 0x10_0000);
    out.append(" MB/s");
    out
}

} // verus!
