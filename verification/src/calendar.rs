//! The proleptic Gregorian calendar, counted from 1 January 1970 (UTC).

use vstd::prelude::*;

verus! {

/// Leap years: divisible by 4, except centuries not divisible by 400.
pub open spec fn is_leap_year(y: nat) -> bool {
    (y % 4 == 0 && y % 100 != 0) || y % 400 == 0
}

pub open spec fn days_in_year(y: nat) -> nat {
    if is_leap_year(y) { 366 } else { 365 }
}

/// Days in month `m` (1 to 12) of year `y`.
pub open spec fn days_in_month(y: nat, m: nat) -> nat {
    if m == 2 {
        if is_leap_year(y) { 29 } else { 28 }
    } else if m == 4 || m == 6 || m == 9 || m == 11 {
        30
    } else {
        31
    }
}

/// Walking year by year from 1 January of `y`: the year that holds the day
/// `days` days later, and that day's index within its year (0 for 1 January).
pub open spec fn year_and_day(days: nat, y: nat) -> (nat, nat)
    decreases days,
{
    if days < days_in_year(y) {
        (y, days)
    } else {
        year_and_day((days - days_in_year(y)) as nat, y + 1)
    }
}

/// Walking month by month from month `m` of year `y`: the month that holds the
/// day `days` days after its first, and that day's index within its month.
pub open spec fn month_and_day(y: nat, days: nat, m: nat) -> (nat, nat)
    decreases days,
{
    if m >= 12 || days < days_in_month(y, m) {
        (m, days)
    } else {
        month_and_day(y, (days - days_in_month(y, m)) as nat, m + 1)
    }
}

/// Year, month (1 to 12) and day of the month (from 1) of the date `days` days
/// after 1 January 1970.
pub open spec fn civil_date(days: nat) -> (nat, nat, nat) {
    let (y, yd) = year_and_day(days, 1970);
    let (m, md) = month_and_day(y, yd, 1);
    (y, m, md + 1)
}

/// Days in the `k` years from the start of year `y`.
pub open spec fn days_in_years(y: nat, k: nat) -> nat
    decreases k,
{
    if k == 0 { 0 } else { days_in_year(y) + days_in_years(y + 1, (k - 1) as nat) }
}

proof fn lemma_walk_skips_years(days: nat, y: nat, k: nat)
    ensures
        year_and_day(days + days_in_years(y, k), y) == year_and_day(days, y + k),
    decreases k,
{
    if k > 0 {
        lemma_walk_skips_years(days, y + 1, (k - 1) as nat);
        assert(days + days_in_years(y, k) >= days_in_year(y));
        assert((days + days_in_years(y, k) - days_in_year(y)) as nat == days + days_in_years(y + 1, (k - 1) as nat));
    }
}

/// Leap years among the years 0 to `n - 1`.
spec fn leaps_before(n: nat) -> int {
    (n + 3) / 4 - (n + 99) / 100 + (n + 399) / 400
}

proof fn lemma_next_multiple(n: nat, d: nat)
    requires
        d > 0,
    ensures
        (n + d) as int / d as int - (n + d - 1) as int / d as int == (if n % d == 0 { 1int } else { 0 }),
{
    let q = n as int / d as int;
    let r = n as int % d as int;
    vstd::arithmetic::div_mod::lemma_fundamental_div_mod(n as int, d as int);
    assert(n + d == (q + 1) * d + r) by (nonlinear_arith)
        requires n == d * q + r;
    vstd::arithmetic::div_mod::lemma_fundamental_div_mod_converse((n + d) as int, d as int, q + 1, r);
    if r == 0 {
        assert(n + d - 1 == q * d + (d - 1)) by (nonlinear_arith)
            requires n + d == (q + 1) * d + r, r == 0;
        vstd::arithmetic::div_mod::lemma_fundamental_div_mod_converse(n + d - 1, d as int, q, d - 1);
    } else {
        vstd::arithmetic::div_mod::lemma_fundamental_div_mod_converse(n + d - 1, d as int, q + 1, r - 1);
    }
}

proof fn lemma_div_add_multiple(x: nat, d: nat, c: nat)
    requires
        d > 0,
    ensures
        (x + c * d) as int / d as int == x as int / d as int + c,
{
    let q = x as int / d as int;
    let r = x as int % d as int;
    vstd::arithmetic::div_mod::lemma_fundamental_div_mod(x as int, d as int);
    assert(x + c * d == (q + c) * d + r) by (nonlinear_arith)
        requires x == d * q + r;
    vstd::arithmetic::div_mod::lemma_fundamental_div_mod_converse((x + c * d) as int, d as int, q + c, r);
}

proof fn lemma_leaps_step(n: nat)
    ensures
        leaps_before(n + 1) == leaps_before(n) + (if is_leap_year(n) { 1int } else { 0 }),
{
    lemma_next_multiple(n, 4);
    lemma_next_multiple(n, 100);
    lemma_next_multiple(n, 400);
}

proof fn lemma_days_in_years_count(y: nat, k: nat)
    ensures
        days_in_years(y, k) == 365 * k + leaps_before(y + k) - leaps_before(y),
    decreases k,
{
    if k > 0 {
        lemma_days_in_years_count(y + 1, (k - 1) as nat);
        lemma_leaps_step(y);
    }
}

/// Every run of 400 years holds 146097 days.
pub proof fn lemma_four_centuries(y: nat)
    ensures
        days_in_years(y, 400) == 146097,
{
    lemma_days_in_years_count(y, 400);
    lemma_div_add_multiple(y + 3, 4, 100);
    lemma_div_add_multiple(y + 99, 100, 4);
    lemma_div_add_multiple(y + 399, 400, 1);
    assert(leaps_before(y + 400) == leaps_before(y) + 97);
}

proof fn lemma_walk_skips_eras(d: nat, era: nat)
    ensures
        year_and_day(d + 146097 * era, 1970) == year_and_day(d, 1970 + 400 * era),
    decreases era,
{
    if era > 0 {
        let e = (era - 1) as nat;
        lemma_walk_skips_eras(d + 146097, e);
        lemma_four_centuries(1970 + 400 * e);
        lemma_walk_skips_years(d, 1970 + 400 * e, 400);
        assert(d + 146097 + 146097 * e == d + 146097 * era);
        assert(1970 + 400 * e + 400 == 1970 + 400 * era);
    }
}

fn year_length(y: u64) -> (r: u64)
    ensures
        r == days_in_year(y as nat),
{
    if (y % 4 == 0 && y % 100 != 0) || y % 400 == 0 { 366 } else { 365 }
}

fn month_length(y: u64, m: u64) -> (r: u64)
    ensures
        r == days_in_month(y as nat, m as nat),
{
    if m == 2 {
        if (y % 4 == 0 && y % 100 != 0) || y % 400 == 0 { 29 } else { 28 }
    } else if m == 4 || m == 6 || m == 9 || m == 11 {
        30
    } else {
        31
    }
}

/// Year, month and day of the month of the date `days` days after 1 January 1970;
/// see `civil_date`.
pub fn civil_from_days(days: u64) -> (r: (u64, u64, u64))
    ensures
        (r.0 as nat, r.1 as nat, r.2 as nat) == civil_date(days as nat),
        1 <= r.1 <= 12,
{
    let era: u64 = days / 146097;
    assert(era * 146097 <= days) by (nonlinear_arith)
        requires era == days / 146097;
    let mut d: u64 = days % 146097;
    let start: u64 = 1970 + 400 * era;
    let mut y: u64 = start;
    proof {
        lemma_walk_skips_eras(d as nat, era as nat);
    }
    while d >= year_length(y)
        invariant
            year_and_day(d as nat, y as nat) == year_and_day(days as nat, 1970),
            start <= y,
            (y - start) * 365 + d < 146097,
            start == 1970 + 400 * era,
            era <= days / 146097,
        decreases d,
    {
        let len = year_length(y);
        d = d - len;
        y = y + 1;
    }
    let ghost yd = d;
    let mut m: u64 = 1;
    while m < 12 && d >= month_length(y, m)
        invariant
            1 <= m <= 12,
            d < 146097,
            month_and_day(y as nat, d as nat, m as nat) == month_and_day(y as nat, yd as nat, 1),
        decreases d,
    {
        let len = month_length(y, m);
        d = d - len;
        m = m + 1;
    }
    (y, m, d + 1)
}

} // verus!
