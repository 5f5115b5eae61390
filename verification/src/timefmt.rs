//! Calendar arithmetic and the timestamp-derived default file name for
//! camera snapshots, plus the uptime split used by the status report.

use vstd::prelude::*;
use vstd::string::*;

use crate::strutil::{
    append_dec, append_dec_padded, dec_padded, dec_str, pow10, lemma_pow10_positive,
};

verus! {

/// A year is a leap year when it is divisible by 4, except century years,
/// which are leap years only when divisible by 400.
pub open spec fn spec_is_leap(y: int) -> bool {
    y % 4 == 0 && (y % 100 != 0 || y % 400 == 0)
}

pub fn is_leap(y: u64) -> (r: bool)
    ensures
        r == spec_is_leap(y as int),
{
    y % 4 == 0 && (y % 100 != 0 || y % 400 == 0)
}

pub open spec fn year_len(y: int) -> nat {
    if spec_is_leap(y) {
        366
    } else {
        365
    }
}

/// Days from 1970-01-01 up to the first day of year `y`.
pub open spec fn days_before_year(y: int) -> nat
    decreases y,
{
    if y <= 1970 {
        0
    } else {
        days_before_year(y - 1) + year_len(y - 1)
    }
}

/// Length of month `m` (1-based) in year `y`.
pub open spec fn month_len(y: int, m: int) -> nat {
    if m == 1 {
        31
    } else if m == 2 {
        if spec_is_leap(y) {
            29
        } else {
            28
        }
    } else if m == 3 {
        31
    } else if m == 4 {
        30
    } else if m == 5 {
        31
    } else if m == 6 {
        30
    } else if m == 7 {
        31
    } else if m == 8 {
        31
    } else if m == 9 {
        30
    } else if m == 10 {
        31
    } else if m == 11 {
        30
    } else {
        31
    }
}

/// Days from the first day of year `y` up to the first day of month `m`.
pub open spec fn days_before_month(y: int, m: int) -> nat
    decreases m,
{
    if m <= 1 {
        0
    } else {
        days_before_month(y, m - 1) + month_len(y, m - 1)
    }
}

/// The twelve months exactly cover the year.
proof fn lemma_months_sum(y: int)
    ensures
        days_before_month(y, 13) == year_len(y),
{
    reveal_with_fuel(days_before_month, 14);
}

proof fn lemma_days_before_year_lower(y: int)
    requires
        1970 <= y,
    ensures
        days_before_year(y) >= 365 * (y - 1970),
    decreases y,
{
    if y > 1970 {
        lemma_days_before_year_lower(y - 1);
    }
}

/// `(y, mo, d)` is the proleptic-Gregorian date `days` days after
/// 1970-01-01.
pub open spec fn calendar_parts(days: nat, y: int, mo: int, d: int) -> bool {
    &&& 1970 <= y
    &&& 1 <= mo <= 12
    &&& 1 <= d <= month_len(y, mo)
    &&& days_before_year(y) + days_before_month(y, mo) + (d - 1) == days
}

fn month_len_exec(y: u64, m: u64) -> (r: u64)
    requires
        1 <= m <= 12,
    ensures
        r == month_len(y as int, m as int),
{
    if m == 1 {
        31
    } else if m == 2 {
        if is_leap(y) {
            29
        } else {
            28
        }
    } else if m == 3 {
        31
    } else if m == 4 {
        30
    } else if m == 5 {
        31
    } else if m == 6 {
        30
    } else if m == 7 {
        31
    } else if m == 8 {
        31
    } else if m == 9 {
        30
    } else if m == 10 {
        31
    } else if m == 11 {
        30
    } else {
        31
    }
}

/// Converts a count of days since 1970-01-01 to a calendar date.
pub fn days_to_ymd(days: u64) -> (r: (u64, u64, u64))
    ensures
        calendar_parts(days as nat, r.0 as int, r.1 as int, r.2 as int),
{
    let mut y: u64 = 1970;
    let mut d: u64 = days;
    loop
        invariant
            1970 <= y,
            days_before_year(y as int) + d == days,
        ensures
            1970 <= y,
            days_before_year(y as int) + d == days,
            d < year_len(y as int),
        decreases d,
    {
        let yl: u64 = if is_leap(y) {
            366
        } else {
            365
        };
        if d < yl {
            break;
        }
        proof {
            lemma_days_before_year_lower(y as int);
        }
        d = d - yl;
        y = y + 1;
    }
    let ghost dy = d;
    let mut m: u64 = 1;
    loop
        invariant
            1 <= m <= 12,
            1970 <= y,
            days_before_month(y as int, m as int) + d == dy,
            dy < year_len(y as int),
        ensures
            1 <= m <= 12,
            days_before_month(y as int, m as int) + d == dy,
            d < month_len(y as int, m as int),
        decreases 12 - m,
    {
        let ml = month_len_exec(y, m);
        if d < ml {
            break;
        }
        proof {
            lemma_months_sum(y as int);
        }
        d = d - ml;
        m = m + 1;
    }
    (y, m, d + 1)
}

/// Decimal digits of `v`, zero-padded to at least `width` digits, as the
/// standard minimum-width formatting produces.
pub open spec fn dec_min(v: nat, width: nat) -> Seq<char> {
    if v < pow10(width) {
        dec_padded(v, width)
    } else {
        dec_str(v)
    }
}

/// `photo_YYYY-MM-DD_HH-MM-SS.jpg` for the given date and time of day.
pub open spec fn filename_pattern(y: nat, mo: nat, d: nat, h: nat, mi: nat, s: nat) -> Seq<
    char,
> {
    "photo_"@ + dec_min(y, 4) + "-"@ + dec_padded(mo, 2) + "-"@ + dec_padded(d, 2) + "_"@
        + dec_padded(h, 2) + "-"@ + dec_padded(mi, 2) + "-"@ + dec_padded(s, 2) + ".jpg"@
}

/// `out` names the snapshot taken `secs` seconds after the epoch: the date
/// and UTC time of day of that instant, in the fixed photo pattern.
pub open spec fn spec_default_filename(secs: nat, out: Seq<char>) -> bool {
    exists|y: int, mo: int, d: int|
        calendar_parts(secs / 86400, y, mo, d) && out == #[trigger] filename_pattern(
            y as nat,
            mo as nat,
            d as nat,
            secs % 86400 / 3600,
            secs % 86400 % 3600 / 60,
            secs % 60,
        )
}

/// The default output file name for a snapshot taken at unix time `secs`.
pub fn default_filename(secs: u64) -> (r: String)
    ensures
        spec_default_filename(secs as nat, r@),
{
    let days = secs / 86400;
    let day_secs = secs % 86400;
    let h = day_secs / 3600;
    let mi = (day_secs % 3600) / 60;
    let s = day_secs % 60;
    let (y, mo, d) = days_to_ymd(days);

    let mut out = String::from_str("photo_");
    if y < 10000 {
        append_dec_padded(&mut out, y, 4);
    } else {
        append_dec(&mut out, y);
    }
    proof {
        reveal_with_fuel(pow10, 5);
    }
    out.append("-");
    append_dec_padded(&mut out, mo, 2);
    out.append("-");
    append_dec_padded(&mut out, d, 2);
    out.append("_");
    append_dec_padded(&mut out, h, 2);
    out.append("-");
    append_dec_padded(&mut out, mi, 2);
    out.append("-");
    append_dec_padded(&mut out, s, 2);
    out.append(".jpg");
    proof {
        let sn = secs as nat;
        let yi = y as int;
        let moi = mo as int;
        let di = d as int;
        assert(s == sn % 60) by {
            assert(secs % 86400 % 60 == secs % 60) by (nonlinear_arith);
            assert(secs % 86400 % 3600 % 60 == secs % 86400 % 60) by (nonlinear_arith);
        }
        assert(calendar_parts(sn / 86400, yi, moi, di));
        assert(out@ =~= filename_pattern(
            yi as nat,
            moi as nat,
            di as nat,
            sn % 86400 / 3600,
            sn % 86400 % 3600 / 60,
            sn % 60,
        ));
        assert(spec_default_filename(sn, out@));
    }
    out
}

/// Splits an uptime in seconds into whole hours, minutes and seconds.
pub fn split_uptime(u: u64) -> (r: (u64, u64, u64))
    ensures
        r.0 == u / 3600,
        r.1 == (u % 3600) / 60,
        r.2 == u % 60,
{
    (u / 3600, (u % 3600) / 60, u % 60)
}

} // verus!
