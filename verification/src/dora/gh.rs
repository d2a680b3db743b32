//! Timestamp arithmetic for the opt-in `GitHub` enrichment of DORA
//! snapshots: RFC 3339 UTC parsing and proleptic Gregorian day numbers.
use vstd::prelude::*;

use crate::text::{
    before_first, ends_with, find_in, lemma_split_first, parse_i64, parse_i64_chars, slice_range,
    split_by, split_chars, split_once, to_chars, views,
};

verus! {

/// Seconds in one day.
pub const SECONDS_PER_DAY: i64 = 86_400;

/// Whether `year` is a leap year in the proleptic Gregorian calendar.
pub open spec fn leap_year(year: int) -> bool {
    year % 4 == 0 && (year % 100 != 0 || year % 400 == 0)
}

/// Length of `month` in `year`.
pub open spec fn month_len(year: int, month: int) -> int {
    if month == 4 || month == 6 || month == 9 || month == 11 {
        30
    } else if month == 2 {
        if leap_year(year) {
            29
        } else {
            28
        }
    } else {
        31
    }
}

/// Whether `year` is a leap year in the proleptic Gregorian calendar.
pub fn is_leap_year(year: i64) -> (b: bool)
    ensures
        b == leap_year(year as int),
{
    year % 4 == 0 && (year % 100 != 0 || year % 400 == 0)
}

/// Length of `month` in `year` (proleptic Gregorian leap rule).
pub fn days_in_month(year: i64, month: i64) -> (n: i64)
    ensures
        n == month_len(year as int, month as int),
{
    if month == 4 || month == 6 || month == 9 || month == 11 {
        30
    } else if month == 2 {
        if is_leap_year(year) {
            29
        } else {
            28
        }
    } else {
        31
    }
}

/// Integer division rounding toward zero, as Rust's `/` does.
pub open spec fn tdiv(a: int, b: int) -> int {
    if a >= 0 {
        a / b
    } else {
        -((-a) / b)
    }
}

/// Days since 1970-01-01 of a proleptic Gregorian date (Hinnant's
/// `days_from_civil`, with Rust's truncating division).
pub open spec fn civil_days(year: int, month: int, day: int) -> int {
    let y = if month <= 2 {
        year - 1
    } else {
        year
    };
    let era = tdiv(
        if y >= 0 {
            y
        } else {
            y - 399
        },
        400,
    );
    let yoe = y - era * 400;
    let mp = if month > 2 {
        month - 3
    } else {
        month + 9
    };
    let doy = tdiv(153 * mp + 2, 5) + day - 1;
    let doe = yoe * 365 + tdiv(yoe, 4) - tdiv(yoe, 100) + doy;
    era * 146_097 + doe - 719_468
}

/// `x` is representable as an `i64`.
pub open spec fn in_i64(x: int) -> bool {
    i64::MIN <= x <= i64::MAX
}

/// Inputs on which every step of `days_from_civil` stays inside `i64`, that
/// is, the inputs on which it does not overflow.
pub open spec fn civil_fits(year: int, month: int, day: int) -> bool {
    let y = if month <= 2 {
        year - 1
    } else {
        year
    };
    let adj = if y >= 0 {
        y
    } else {
        y - 399
    };
    let era = tdiv(adj, 400);
    let yoe = y - era * 400;
    let mp = if month > 2 {
        month - 3
    } else {
        month + 9
    };
    let q = tdiv(153 * mp + 2, 5);
    let doy = q + day - 1;
    let doe = yoe * 365 + tdiv(yoe, 4) - tdiv(yoe, 100) + doy;
    &&& in_i64(y)
    &&& in_i64(adj)
    &&& in_i64(mp)
    &&& in_i64(153 * mp)
    &&& in_i64(153 * mp + 2)
    &&& in_i64(q + day)
    &&& in_i64(doy)
    &&& in_i64(yoe * 365 + tdiv(yoe, 4) - tdiv(yoe, 100) + doy)
    &&& in_i64(era * 146_097)
    &&& in_i64(era * 146_097 + doe)
    &&& in_i64(era * 146_097 + doe - 719_468)
}

/// Days since 1970-01-01 for a proleptic Gregorian date (Hinnant's
/// `days_from_civil`), exact for every input in range.
pub fn days_from_civil(year: i64, month: i64, day: i64) -> (days: i64)
    requires
        civil_fits(year as int, month as int, day as int),
    ensures
        days == civil_days(year as int, month as int, day as int),
{
    let year = if month <= 2 {
        year - 1
    } else {
        year
    };
    let era = (if year >= 0 {
        year
    } else {
        year - 399
    }) / 400;
    let year_of_era = year - era * 400;
    let month_shift = if month > 2 {
        month - 3
    } else {
        month + 9
    };
    let day_of_year = (153 * month_shift + 2) / 5 + day - 1;
    let day_of_era = year_of_era * 365 + year_of_era / 4 - year_of_era / 100 + day_of_year;
    era * 146_097 + day_of_era - 719_468
}

/// The validated fields `(year, month, day, hour, minute, second)` of a
/// `YYYY-MM-DDTHH:MM:SS[.fff]Z` timestamp.
pub open spec fn rfc3339_fields(v: Seq<char>) -> Option<(int, int, int, int, int, int)> {
    match split_once(v, 'T') {
        None => None,
        Some((date, rest)) => {
            if !ends_with(rest, seq!['Z']) {
                None
            } else {
                let time = before_first(rest.take(rest.len() - 1), seq!['.']);
                let dp = split_by(date, seq!['-']);
                let tp = split_by(time, seq![':']);
                if dp.len() == 3 && tp.len() == 3 && parse_i64(dp[0]) is Some && parse_i64(
                    dp[1],
                ) is Some && parse_i64(dp[2]) is Some && parse_i64(tp[0]) is Some && parse_i64(
                    tp[1],
                ) is Some && parse_i64(tp[2]) is Some {
                    let year = parse_i64(dp[0])->0;
                    let month = parse_i64(dp[1])->0;
                    let day = parse_i64(dp[2])->0;
                    let hour = parse_i64(tp[0])->0;
                    let minute = parse_i64(tp[1])->0;
                    let second = parse_i64(tp[2])->0;
                    if 1 <= month <= 12 && 1 <= day <= month_len(year, month) && 0 <= hour <= 23
                        && 0 <= minute <= 59 && 0 <= second <= 60 {
                        Some((year, month, day, hour, minute, second))
                    } else {
                        None
                    }
                } else {
                    None
                }
            }
        },
    }
}

/// Unix seconds of validated timestamp fields.
pub open spec fn fields_seconds(f: (int, int, int, int, int, int)) -> int {
    civil_days(f.0, f.1, f.2) * 86_400 + f.3 * 3_600 + f.4 * 60 + f.5
}

/// What `parse_rfc3339_utc` answers for `v`.
pub open spec fn rfc3339_seconds(v: Seq<char>) -> Option<int> {
    match rfc3339_fields(v) {
        Some(f) => Some(fields_seconds(f)),
        None => None,
    }
}

/// Timestamps whose conversion stays inside `i64` (every other input
/// converts without overflow or is rejected before any arithmetic).
pub open spec fn rfc3339_fits(v: Seq<char>) -> bool {
    match rfc3339_fields(v) {
        Some(f) => civil_fits(f.0, f.1, f.2) && in_i64(civil_days(f.0, f.1, f.2) * 86_400)
            && in_i64(fields_seconds(f)),
        None => true,
    }
}

/// The validated fields of a `YYYY-MM-DDTHH:MM:SS[.fff]Z` timestamp.
fn timestamp_fields(value: &str) -> (r: Option<(i64, i64, i64, i64, i64, i64)>)
    ensures
        match r {
            Some(f) => rfc3339_fields(value@) == Some(
                (f.0 as int, f.1 as int, f.2 as int, f.3 as int, f.4 as int, f.5 as int),
            ),
            None => rfc3339_fields(value@) is None,
        },
{
    let v = to_chars(value);
    let t_set = vec!['T'];
    proof {
        assert(t_set@ =~= seq!['T']);
    }
    let t = match find_in(&v, 0, &t_set) {
        Some(t) => t,
        None => {
            proof {
                assert(v@.skip(0) =~= v@);
            }
            return None;
        },
    };
    proof {
        assert(v@.skip(0) =~= v@);
    }
    let date = slice_range(&v, 0, t);
    let rest = slice_range(&v, t + 1, v.len());
    proof {
        assert(date@ =~= v@.take(t as int));
        assert(rest@ =~= v@.skip(t + 1));
    }
    if rest.len() == 0 || rest[rest.len() - 1] != 'Z' {
        proof {
            if rest@.len() > 0 {
                assert(rest@.subrange(rest@.len() - 1, rest@.len() as int)[0] == rest@[rest@.len()
                    - 1]);
            }
        }
        return None;
    }
    proof {
        assert(rest@.subrange(rest@.len() - 1, rest@.len() as int) =~= seq!['Z']);
    }
    let time_full = slice_range(&rest, 0, rest.len() - 1);
    let dot = vec!['.'];
    proof {
        assert(dot@ =~= seq!['.']);
    }
    let time_pieces = split_chars(&time_full, &dot);
    proof {
        lemma_split_first(time_full@, dot@);
        assert(time_full@ =~= rest@.take(rest@.len() - 1));
    }
    let time = &time_pieces[0];
    let dash = vec!['-'];
    let colon = vec![':'];
    proof {
        assert(dash@ =~= seq!['-']);
        assert(colon@ =~= seq![':']);
    }
    let dp = split_chars(&date, &dash);
    let tp = split_chars(time, &colon);
    proof {
        assert(views(time_pieces@)[0] == time_pieces@[0]@);
        assert(dp@.len() == views(dp@).len());
        assert(tp@.len() == views(tp@).len());
    }
    if dp.len() != 3 || tp.len() != 3 {
        return None;
    }
    proof {
        assert(views(dp@)[0] == dp@[0]@);
        assert(views(dp@)[1] == dp@[1]@);
        assert(views(dp@)[2] == dp@[2]@);
        assert(views(tp@)[0] == tp@[0]@);
        assert(views(tp@)[1] == tp@[1]@);
        assert(views(tp@)[2] == tp@[2]@);
    }
    let year = match parse_i64_chars(&dp[0]) {
        Some(x) => x,
        None => return None,
    };
    let month = match parse_i64_chars(&dp[1]) {
        Some(x) => x,
        None => return None,
    };
    let day = match parse_i64_chars(&dp[2]) {
        Some(x) => x,
        None => return None,
    };
    let hour = match parse_i64_chars(&tp[0]) {
        Some(x) => x,
        None => return None,
    };
    let minute = match parse_i64_chars(&tp[1]) {
        Some(x) => x,
        None => return None,
    };
    let second = match parse_i64_chars(&tp[2]) {
        Some(x) => x,
        None => return None,
    };
    if month < 1 || month > 12 || day < 1 || day > days_in_month(year, month) {
        return None;
    }
    if hour < 0 || hour > 23 || minute < 0 || minute > 59 || second < 0 || second > 60 {
        return None;
    }
    Some((year, month, day, hour, minute, second))
}


/// Parses `YYYY-MM-DDTHH:MM:SS[.fff]Z` into Unix seconds.
///
/// Deliberately narrow: only UTC `Z`-suffixed timestamps are accepted,
/// fractional seconds are ignored, every component is range-checked on
/// both sides, and the day is checked against the month's real length.
pub fn parse_rfc3339_utc(value: &str) -> (r: Option<i64>)
    requires
        rfc3339_fits(value@),
    ensures
        match r {
            Some(t) => rfc3339_seconds(value@) == Some(t as int),
            None => rfc3339_seconds(value@) is None,
        },
{
    match timestamp_fields(value) {
        None => None,
        Some((year, month, day, hour, minute, second)) => {
            let days = days_from_civil(year, month, day);
            Some(days * SECONDS_PER_DAY + hour * 3_600 + minute * 60 + second)
        },
    }
}

/// Whether every step of `days_from_civil` on this date stays inside `i64`.
pub fn civil_in_range(year: i64, month: i64, day: i64) -> (b: bool)
    ensures
        b == civil_fits(year as int, month as int, day as int),
{
    let lo: i128 = i64::MIN as i128;
    let hi: i128 = i64::MAX as i128;
    let y: i128 = if month <= 2 {
        year as i128 - 1
    } else {
        year as i128
    };
    let adj: i128 = if y >= 0 {
        y
    } else {
        y - 399
    };
    let era: i128 = adj / 400;
    assert(-100_000_000_000_000_000int <= era <= 100_000_000_000_000_000int);
    assert(-40_000_000_000_000_000_000int <= era * 400 <= 40_000_000_000_000_000_000int) by (nonlinear_arith)
        requires
            -100_000_000_000_000_000int <= era <= 100_000_000_000_000_000int,
    ;
    let yoe: i128 = y - era * 400;
    let mp: i128 = if month > 2 {
        month as i128 - 3
    } else {
        month as i128 + 9
    };
    let m153: i128 = 153 * mp;
    let q: i128 = (m153 + 2) / 5;
    let doy: i128 = q + day as i128 - 1;
    assert(-100_000_000_000_000_000_000_000int <= yoe * 365 <= 100_000_000_000_000_000_000_000int) by (nonlinear_arith)
        requires
            -50_000_000_000_000_000_000int <= yoe <= 50_000_000_000_000_000_000int,
    ;
    let doe: i128 = yoe * 365 + yoe / 4 - yoe / 100 + doy;
    assert(-100_000_000_000_000_000_000_000int <= era * 146_097 <= 100_000_000_000_000_000_000_000int) by (nonlinear_arith)
        requires
            -100_000_000_000_000_000int <= era <= 100_000_000_000_000_000int,
    ;
    let e1: i128 = era * 146_097;
    let e2: i128 = e1 + doe;
    let e3: i128 = e2 - 719_468;
    let fits = |x: i128| -> (r: bool)
        ensures
            r == (lo <= x <= hi),
        { lo <= x && x <= hi };
    fits(y) && fits(adj) && fits(mp) && fits(m153) && fits(m153 + 2) && fits(q + day as i128) && fits(doy)
        && fits(doe) && fits(e1) && fits(e2) && fits(e3)
}

/// Whether converting `value` stays inside `i64` (`parse_rfc3339_utc` may
/// be called on exactly these inputs).
pub fn rfc3339_in_range(value: &str) -> (b: bool)
    ensures
        b == rfc3339_fits(value@),
{
    match timestamp_fields(value) {
        None => true,
        Some((year, month, day, hour, minute, second)) => {
            if !civil_in_range(year, month, day) {
                return false;
            }
            let days = days_from_civil(year, month, day) as i128;
            let day_secs: i128 = days * 86_400;
            let total: i128 = day_secs + hour as i128 * 3_600 + minute as i128 * 60 + second as i128;
            let lo: i128 = i64::MIN as i128;
            let hi: i128 = i64::MAX as i128;
            lo <= day_secs && day_secs <= hi && lo <= total && total <= hi
        },
    }
}

} // verus!
