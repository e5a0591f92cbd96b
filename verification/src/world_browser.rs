//! Labels of the world browser: when a world was last played.

use vstd::prelude::*;
use crate::text::{decimal, decimal_string, digits, digits_of, string_from};

verus! {

/// The proleptic Gregorian date `z` days after 1970-01-01, as
/// `(year, month, day)`: Howard Hinnant's `civil_from_days`, over
/// mathematical integers. Days are counted in 400-year eras starting on
/// 1 March, so that the leap day falls at the end of the counted year.
pub open spec fn spec_civil(z: int) -> (int, int, int) {
    let zz = z + 719_468;
    let era = zz / 146_097;
    let doe = zz - era * 146_097;
    let yoe = (doe - doe / 1460 + doe / 36_524 - doe / 146_096) / 365;
    let year = yoe + era * 400;
    let doy = doe - (365 * yoe + yoe / 4 - yoe / 100);
    let mp = (5 * doy + 2) / 153;
    let day = doy - (153 * mp + 2) / 5 + 1;
    let month = if mp < 10 {
        mp + 3
    } else {
        mp - 9
    };
    (if month <= 2 {
        year + 1
    } else {
        year
    }, month, day)
}

/// Days from 1970-01-01 to the proleptic Gregorian date `(y, m, d)`:
/// Howard Hinnant's `days_from_civil`.
pub open spec fn days_from_civil(y: int, m: int, d: int) -> int {
    let yy = if m <= 2 {
        y - 1
    } else {
        y
    };
    let era = yy / 400;
    let yoe = yy - era * 400;
    let mp = if m > 2 {
        m - 3
    } else {
        m + 9
    };
    let doy = (153 * mp + 2) / 5 + d - 1;
    let doe = yoe * 365 + yoe / 4 - yoe / 100 + doy;
    era * 146_097 + doe - 719_468
}

proof fn lemma_era_floor(zz: int)
    requires
        zz < 0,
    ensures
        zz / 146_097 == -((146_096 - zz) / 146_097),
{
    assert(zz / 146_097 == -((146_096 - zz) / 146_097)) by (nonlinear_arith)
        requires
            zz < 0,
    ;
}

/// Days-from-epoch to (year, month, day) — Howard Hinnant's algorithm.
pub fn civil_from_days(z: i64) -> (r: (i64, u32, u32))
    requires
        z <= i64::MAX - 719_468,
    ensures
        (r.0 as int, r.1 as int, r.2 as int) == spec_civil(z as int),
        is_date_of(z as int, (r.0 as int, r.1 as int, r.2 as int)),
{
    proof {
        law_civil_dates_are_real_days(z as int);
    }
    let z = z + 719_468;
    let era: i64 = if z >= 0 {
        z
    } else {
        z - 146_096
    } / 146_097;
    proof {
        if z < 0 {
            lemma_era_floor(z as int);
        }
        assert(era as int == (z as int) / 146_097);
        assert(0 <= z - era * 146_097 < 146_097) by (nonlinear_arith)
            requires
                era as int == (z as int) / 146_097,
        ;
    }
    let doe = (z - era * 146_097) as u64;
    let yoe = (doe - doe / 1460 + doe / 36_524 - doe / 146_096) / 365;
    assert(yoe <= 399) by (nonlinear_arith)
        requires
            doe < 146_097,
            yoe == (doe - doe / 1460 + doe / 36_524 - doe / 146_096) / 365,
    ;
    let year = yoe as i64 + era * 400;
    assert(365 * yoe + yoe / 4 - yoe / 100 <= doe) by (nonlinear_arith)
        requires
            doe < 146_097,
            yoe == (doe - doe / 1460 + doe / 36_524 - doe / 146_096) / 365,
    ;
    let doy = doe - (365 * yoe + yoe / 4 - yoe / 100);
    assert(doy <= 365) by (nonlinear_arith)
        requires
            doe < 146_097,
            yoe == (doe - doe / 1460 + doe / 36_524 - doe / 146_096) / 365,
            doy == doe - (365 * yoe + yoe / 4 - yoe / 100),
    ;
    let mp = (5 * doy + 2) / 153;
    assert((153 * mp + 2) / 5 <= doy) by (nonlinear_arith)
        requires
            mp == (5 * doy + 2) / 153,
    ;
    let day = (doy - (153 * mp + 2) / 5 + 1) as u32;
    let month = if mp < 10 {
        mp + 3
    } else {
        mp - 9
    } as u32;
    (if month <= 2 {
        year + 1
    } else {
        year
    }, month, day)
}

/// `n` in decimal, padded with leading zeros to at least `width` digits.
pub open spec fn zero_padded(n: nat, width: nat) -> Seq<char> {
    let ds = digits(n);
    if ds.len() < width {
        Seq::new((width - ds.len()) as nat, |i: int| '0') + ds
    } else {
        ds
    }
}

/// A date as `YYYY-MM-DD`.
pub open spec fn date_text(y: nat, m: nat, d: nat) -> Seq<char> {
    zero_padded(y, 4) + seq!['-'] + zero_padded(m, 2) + seq!['-'] + zero_padded(d, 2)
}

/// The label for a last-played timestamp (milliseconds since the epoch):
/// the day it falls on as `YYYY-MM-DD`, or `never played` when there is
/// none or it is not after the epoch.
pub open spec fn spec_last_played(ms: Option<i64>) -> Seq<char> {
    match ms {
        Some(t) => if t > 0 {
            let c = spec_civil(t as int / 86_400_000);
            date_text(c.0 as nat, c.1 as nat, c.2 as nat)
        } else {
            "never played"@
        },
        None => "never played"@,
    }
}

fn push_padded(s: &mut String, n: u64, width: usize)
    requires
        width <= 4,
    ensures
        final(s)@ == old(s)@ + zero_padded(n as nat, width as nat),
{
    let ds = digits_of(n);
    let mut k: usize = ds.len();
    let ghost start = s@;
    while k < width
        invariant
            ds@ == digits(n as nat),
            ds@.len() <= k <= width || (ds@.len() > width && k == ds@.len()),
            k >= ds@.len(),
            s@ == start + Seq::new((k - ds@.len()) as nat, |i: int| '0'),
        decreases width - k,
    {
        s.append("0");
        proof {
            reveal_strlit("0");
            assert(start + Seq::new((k + 1 - ds@.len()) as nat, |i: int| '0') =~= start
                + Seq::new((k - ds@.len()) as nat, |i: int| '0') + "0"@);
        }
        k += 1;
    }
    let text = string_from(ds.as_slice());
    s.append(text.as_str());
    proof {
        if ds@.len() < width {
            assert(k == width);
        } else {
            assert(Seq::new((k - ds@.len()) as nat, |i: int| '0') =~= Seq::<char>::empty());
        }
        assert(start + Seq::new((k - ds@.len()) as nat, |i: int| '0') + ds@ =~= start
            + zero_padded(n as nat, width as nat));
    }
}

/// Format an epoch-milliseconds timestamp as `YYYY-MM-DD`.
pub fn format_last_played(ms: Option<i64>) -> (r: String)
    ensures
        r@ == spec_last_played(ms),
{
    match ms {
        Some(t) => {
            if t > 0 {
                let (year, month, day) = civil_from_days(t / 86_400_000);
                let ghost c = spec_civil(t as int / 86_400_000);
                assert(c.0 >= 0) by {
                    assert(t as int / 86_400_000 >= 0);
                    lemma_civil_year_nonneg(t as int / 86_400_000);
                }
                let mut s = String::new();
                push_padded(&mut s, year as u64, 4);
                s.append("-");
                push_padded(&mut s, month as u64, 2);
                s.append("-");
                push_padded(&mut s, day as u64, 2);
                proof {
                    reveal_strlit("-");
                    assert(s@ =~= date_text(c.0 as nat, c.1 as nat, c.2 as nat));
                }
                s
            } else {
                String::from_str("never played")
            }
        },
        None => String::from_str("never played"),
    }
}

proof fn lemma_civil_year_nonneg(z: int)
    requires
        z >= 0,
    ensures
        spec_civil(z).0 >= 0,
{
    let zz = z + 719_468;
    let era = zz / 146_097;
    assert(era >= 4) by (nonlinear_arith)
        requires
            zz >= 719_468,
            era == zz / 146_097,
    ;
    let doe = zz - era * 146_097;
    assert(0 <= doe < 146_097) by (nonlinear_arith)
        requires
            era == zz / 146_097,
            doe == zz - era * 146_097,
            zz >= 0,
    ;
    let yoe = (doe - doe / 1460 + doe / 36_524 - doe / 146_096) / 365;
    assert(yoe >= 0) by (nonlinear_arith)
        requires
            0 <= doe < 146_097,
            yoe == (doe - doe / 1460 + doe / 36_524 - doe / 146_096) / 365,
    ;
}


/// Whether `y` is a leap year of the proleptic Gregorian calendar.
pub open spec fn leap_year(y: int) -> bool {
    y % 4 == 0 && (y % 100 != 0 || y % 400 == 0)
}

/// The number of days of month `m` of year `y`.
pub open spec fn month_days(y: int, m: int) -> int {
    if m == 2 {
        if leap_year(y) {
            29
        } else {
            28
        }
    } else if m == 4 || m == 6 || m == 9 || m == 11 {
        30
    } else {
        31
    }
}

/// Whether `(year, month, day)` is the date of day `z` (days after
/// 1970-01-01): a day of one of the twelve months, whose day count is `z`.
pub open spec fn is_date_of(z: int, c: (int, int, int)) -> bool {
    &&& 1 <= c.1 <= 12
    &&& 1 <= c.2 <= month_days(c.0, c.1)
    &&& days_from_civil(c.0, c.1, c.2) == z
}

/// The date `civil_from_days` gives for a day count is that day's date: a
/// real day of a real month, whose day count is the one given.
pub proof fn law_civil_dates_are_real_days(z: int)
    ensures
        is_date_of(z, spec_civil(z)),
{
    law_civil_date_counts_back(z);
    lemma_civil_day_in_month(z);
}

/// The day of a 400-year era on which its year `k` (counted from March)
/// begins.
spec fn year_start(k: int) -> int {
    365 * k + k / 4 - k / 100
}

/// The year of a 400-year era that day `doe` falls in.
spec fn era_year(doe: int) -> int {
    (doe - doe / 1460 + doe / 36_524 - doe / 146_096) / 365
}

proof fn lemma_year_starts()
    ensures
        forall|k: int| 0 <= k <= 399 ==> #[trigger] era_year(year_start(k)) == k,
{
    assert forall|k: int| 0 <= k <= 399 implies #[trigger] era_year(year_start(k)) == k by {
        let d = 365 * k + k / 4 - k / 100;
        assert((d - d / 1460 + d / 36_524 - d / 146_096) / 365 == k) by (nonlinear_arith)
            requires
                0 <= k <= 399,
                d == 365 * k + k / 4 - k / 100,
        ;
    }
}

proof fn lemma_leap_shift(y: int, e: int)
    ensures
        leap_year(y + e * 400) == leap_year(y),
{
    assert((y + e * 400) % 4 == y % 4 && (y + e * 400) % 100 == y % 100 && (y + e * 400) % 400 == y % 400)
        by (nonlinear_arith);
}

/// The day `civil_from_days` gives is a day of its month.
proof fn lemma_civil_day_in_month(z: int)
    ensures
        spec_civil(z).2 <= month_days(spec_civil(z).0, spec_civil(z).1),
{
    law_civil_date_counts_back(z);
    let zz = z + 719_468;
    let era = zz / 146_097;
    let doe = zz - era * 146_097;
    assert(0 <= doe < 146_097) by (nonlinear_arith)
        requires
            era == zz / 146_097,
            doe == zz - era * 146_097,
    ;
    let yoe = era_year(doe);
    assert(0 <= yoe <= 399) by (nonlinear_arith)
        requires
            0 <= doe < 146_097,
            yoe == (doe - doe / 1460 + doe / 36_524 - doe / 146_096) / 365,
    ;
    let doy = doe - (365 * yoe + yoe / 4 - yoe / 100);
    assert(0 <= doy <= 365) by (nonlinear_arith)
        requires
            0 <= doe < 146_097,
            yoe == (doe - doe / 1460 + doe / 36_524 - doe / 146_096) / 365,
            doy == doe - (365 * yoe + yoe / 4 - yoe / 100),
    ;
    let mp = (5 * doy + 2) / 153;
    if mp == 11 && doy == 365 {
        // Day 29 of February: the next year of the era begins a day later
        // than it would after a common year, so that year is a leap year.
        lemma_year_starts();
        if !leap_year(yoe + 1) {
            assert(doe == year_start(yoe + 1));
            assert(era_year(year_start(yoe + 1)) == yoe + 1);
        }
        lemma_leap_shift(yoe + 1, era);
        assert(spec_civil(z).0 == yoe + era * 400 + 1);
    }
}

/// `civil_from_days` names the date whose day count is the given one: a
/// month from 1 to 12, a day from 1, and `days_from_civil` of the three
/// gives the day count back, for every day count.
pub proof fn law_civil_date_counts_back(z: int)
    ensures
        1 <= spec_civil(z).1 <= 12,
        spec_civil(z).2 >= 1,
        days_from_civil(spec_civil(z).0, spec_civil(z).1, spec_civil(z).2) == z,
{
    let zz = z + 719_468;
    let era = zz / 146_097;
    let doe = zz - era * 146_097;
    assert(0 <= doe < 146_097) by (nonlinear_arith)
        requires
            era == zz / 146_097,
            doe == zz - era * 146_097,
    ;
    let yoe = (doe - doe / 1460 + doe / 36_524 - doe / 146_096) / 365;
    assert(0 <= yoe <= 399) by (nonlinear_arith)
        requires
            0 <= doe < 146_097,
            yoe == (doe - doe / 1460 + doe / 36_524 - doe / 146_096) / 365,
    ;
    let doy = doe - (365 * yoe + yoe / 4 - yoe / 100);
    assert(0 <= doy <= 365) by (nonlinear_arith)
        requires
            0 <= doe < 146_097,
            yoe == (doe - doe / 1460 + doe / 36_524 - doe / 146_096) / 365,
            doy == doe - (365 * yoe + yoe / 4 - yoe / 100),
    ;
    let mp = (5 * doy + 2) / 153;
    assert(0 <= mp <= 11) by (nonlinear_arith)
        requires
            0 <= doy <= 365,
            mp == (5 * doy + 2) / 153,
    ;
    assert((153 * mp + 2) / 5 <= doy) by (nonlinear_arith)
        requires
            mp == (5 * doy + 2) / 153,
            0 <= doy,
    ;
    let yy = yoe + era * 400;
    assert(yy / 400 == era && yy - (yy / 400) * 400 == yoe) by (nonlinear_arith)
        requires
            yy == yoe + era * 400,
            0 <= yoe <= 399,
    ;
}

} // verus!
