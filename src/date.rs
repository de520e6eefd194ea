use vstd::prelude::*;

verus! {

/// Number of seconds in a day.
pub const SECONDS_PER_DAY: i64 = 86400;

/// Day number of January 1st, 1970, the Unix epoch.
pub const EPOCH_DAY: i64 = 719163;

/// Day of the week of a day number: 0 for Sunday, 1 for Monday, up to 6 for Saturday.
pub open spec fn weekday_of(day: int) -> int {
    day % 7
}

/// Day on which a timestamp falls, in UTC.
pub open spec fn day_spec(ts: int) -> int {
    ts / (SECONDS_PER_DAY as int) + EPOCH_DAY as int
}

/// Timestamp of the first second of a day, in UTC.
pub open spec fn timestamp_spec(day: int) -> int {
    (day - EPOCH_DAY as int) * (SECONDS_PER_DAY as int)
}

/// Whether chrono's `NaiveDate` can represent a day number.
pub uninterp spec fn chrono_has_day(day: int) -> bool;

/// Relies on chrono's `NaiveDate::from_num_days_from_ce_opt`: it returns `None`
/// exactly for the day numbers outside the range that chrono represents.
#[verifier::external_body]
pub(crate) fn has_day(day: i32) -> (r: bool)
    ensures
        r == chrono_has_day(day as int),
{
    chrono::NaiveDate::from_num_days_from_ce_opt(day).is_some()
}

/// Relies on chrono's `Utc::now`: the current day in UTC, a day that chrono represents.
#[verifier::external_body]
pub(crate) fn today() -> (r: i32)
    ensures
        chrono_has_day(r as int),
{
    chrono::Datelike::num_days_from_ce(&chrono::Utc::now().date_naive())
}

/// The day on which a timestamp falls, in UTC.
pub fn day_of_timestamp(ts: i64) -> (r: i64)
    ensures
        r == day_spec(ts as int),
{
    let d: u64 = SECONDS_PER_DAY as u64;
    if ts >= 0 {
        ((ts as u64) / d) as i64 + EPOCH_DAY
    } else {
        let below: u64 = ((-(ts + 1)) as u64) / d;
        proof {
            lemma_floor_negative(ts as int, SECONDS_PER_DAY as int);
        }
        EPOCH_DAY - 1 - below as i64
    }
}

proof fn lemma_floor_negative(ts: int, d: int)
    requires
        ts < 0,
        d > 0,
    ensures
        ts / d == -1 - (-(ts + 1)) / d,
{
    let k = (-(ts + 1)) / d;
    let r = (-(ts + 1)) % d;
    vstd::arithmetic::div_mod::lemma_fundamental_div_mod(-(ts + 1), d);
    assert(ts == (-1 - k) * d + (d - 1 - r)) by (nonlinear_arith)
        requires
            -(ts + 1) == d * k + r,
    ;
    vstd::arithmetic::div_mod::lemma_fundamental_div_mod_converse(ts, d, -1 - k, d - 1 - r);
}

/// The timestamp of the first second of a day, in UTC.
pub fn timestamp_of_day(day: i32) -> (r: i64)
    ensures
        r == timestamp_spec(day as int),
{
    (day as i64 - EPOCH_DAY) * SECONDS_PER_DAY
}

} // verus!
