use vstd::prelude::*;

verus! {

/// Gregorian leap year (proleptic calendar).
pub open spec fn is_leap_year(y: int) -> bool {
    (y % 4 == 0 && y % 100 != 0) || y % 400 == 0
}

pub open spec fn days_in_month(y: int, m: int) -> int {
    if m == 2 {
        if is_leap_year(y) {
            29
        } else {
            28
        }
    } else if m == 4 || m == 6 || m == 9 || m == 11 {
        30
    } else {
        31
    }
}

/// A day that exists in the proleptic Gregorian calendar.
pub open spec fn is_valid_date(y: int, m: int, d: int) -> bool {
    1 <= m <= 12 && 1 <= d <= days_in_month(y, m)
}

/// A time of day with second precision.
pub open spec fn is_valid_time(h: int, mi: int, s: int) -> bool {
    0 <= h < 24 && 0 <= mi < 60 && 0 <= s < 60
}

/// Days of the year `y` that come before the first day of month `m`.
pub open spec fn days_before_month(y: int, m: int) -> int
    decreases m,
{
    if m <= 1 {
        0
    } else {
        days_before_month(y, m - 1) + days_in_month(y, m - 1)
    }
}

/// Day number of a date, with January 1 of year 1 as day 1.
pub open spec fn days_from_ce(y: int, m: int, d: int) -> int {
    let p = y - 1;
    365 * p + p / 4 - p / 100 + p / 400 + days_before_month(y, m) + d
}

/// A date and time counted in seconds, from the start of the day before day
/// number 1.
pub open spec fn seconds_of(f: (int, int, int, int, int, int)) -> int {
    days_from_ce(f.0, f.1, f.2) * 86400 + f.3 * 3600 + f.4 * 60 + f.5
}

/// The whole days from `then` to `now`, rounded toward zero.
pub open spec fn elapsed_days(
    then: (int, int, int, int, int, int),
    now: (int, int, int, int, int, int),
) -> int {
    let secs = seconds_of(now) - seconds_of(then);
    if secs >= 0 {
        secs / 86400
    } else {
        -((-secs) / 86400)
    }
}

/// Relies on `chrono::NaiveDate::from_ymd_opt`: `None` exactly on an invalid
/// month or day (years 0 to 9999 are in its range).
#[verifier::external_body]
fn date_exists(year: i32, month: u32, day: u32) -> (r: bool)
    requires
        0 <= year <= 9999,
    ensures
        r == is_valid_date(year as int, month as int, day as int),
{
    chrono::NaiveDate::from_ymd_opt(year, month, day).is_some()
}

/// Relies on `chrono::NaiveTime::from_hms_opt`: `None` exactly on an invalid
/// hour, minute or second.
#[verifier::external_body]
fn time_exists(hour: u32, minute: u32, second: u32) -> (r: bool)
    ensures
        r == is_valid_time(hour as int, minute as int, second as int),
{
    chrono::NaiveTime::from_hms_opt(hour, minute, second).is_some()
}

/// Relies on `chrono::Datelike::num_days_from_ce` of a `NaiveDate`: the number
/// of days since January 1 of year 1, that day being day 1.
#[verifier::external_body]
fn day_number(year: i32, month: u32, day: u32) -> (r: i32)
    requires
        0 <= year <= 9999,
        is_valid_date(year as int, month as int, day as int),
    ensures
        r == days_from_ce(year as int, month as int, day as int),
{
    chrono::Datelike::num_days_from_ce(&chrono::NaiveDate::from_ymd_opt(year, month, day).unwrap())
}

/// A local date and time of day with second precision, years 0 to 9999.
#[derive(Clone, Copy, Debug, PartialEq, Eq)]
pub struct LocalDateTime {
    pub(crate) year: i32,
    pub(crate) month: u32,
    pub(crate) day: u32,
    pub(crate) hour: u32,
    pub(crate) minute: u32,
    pub(crate) second: u32,
}

/// The fields of a `LocalDateTime` as plain integers.
pub open spec fn date_fields(
    year: int,
    month: int,
    day: int,
    hour: int,
    minute: int,
    second: int,
) -> (int, int, int, int, int, int) {
    (year, month, day, hour, minute, second)
}

/// Whether six integers form a date and time that `LocalDateTime` can hold.
pub open spec fn fields_valid(f: (int, int, int, int, int, int)) -> bool {
    0 <= f.0 <= 9999 && is_valid_date(f.0, f.1, f.2) && is_valid_time(f.3, f.4, f.5)
}

impl View for LocalDateTime {
    type V = (int, int, int, int, int, int);

    open(crate) spec fn view(&self) -> (int, int, int, int, int, int) {
        (
            self.year as int,
            self.month as int,
            self.day as int,
            self.hour as int,
            self.minute as int,
            self.second as int,
        )
    }
}

impl LocalDateTime {
    #[verifier::type_invariant]
    pub(crate) open spec fn inv(self) -> bool {
        fields_valid(self@)
    }

    /// The date and time of the given fields, if they form one between the
    /// years 0 and 9999.
    pub fn new(year: i32, month: u32, day: u32, hour: u32, minute: u32, second: u32) -> (r: Option<
        LocalDateTime,
    >)
        ensures
            r is Some <==> fields_valid(
                (year as int, month as int, day as int, hour as int, minute as int, second as int),
            ),
            r is Some ==> r->Some_0@ == (
                year as int,
                month as int,
                day as int,
                hour as int,
                minute as int,
                second as int,
            ),
    {
        if year < 0 || year > 9999 {
            return None;
        }
        if !date_exists(year, month, day) || !time_exists(hour, minute, second) {
            return None;
        }
        Some(LocalDateTime { year, month, day, hour, minute, second })
    }

    pub fn year(&self) -> (r: i32)
        ensures
            r == self@.0,
    {
        self.year
    }

    pub fn month(&self) -> (r: u32)
        ensures
            r == self@.1,
    {
        self.month
    }

    pub fn day(&self) -> (r: u32)
        ensures
            r == self@.2,
    {
        self.day
    }

    pub fn hour(&self) -> (r: u32)
        ensures
            r == self@.3,
    {
        self.hour
    }

    pub fn minute(&self) -> (r: u32)
        ensures
            r == self@.4,
    {
        self.minute
    }

    pub fn second(&self) -> (r: u32)
        ensures
            r == self@.5,
    {
        self.second
    }

    /// This date and time in seconds (see `seconds_of`).
    pub fn seconds(&self) -> (r: i64)
        ensures
            r == seconds_of(self@),
            -200_000_000_000_000 < r < 200_000_000_000_000,
    {
        proof {
            use_type_invariant(self);
        }
        let days = day_number(self.year, self.month, self.day) as i64;
        days * 86400 + (self.hour as i64) * 3600 + (self.minute as i64) * 60 + self.second as i64
    }

    /// The whole days from this date and time to `now`, rounded toward zero:
    /// negative when `now` comes first.
    pub fn days_until(&self, now: &LocalDateTime) -> (r: i64)
        ensures
            r == elapsed_days(self@, now@),
    {
        let secs = now.seconds() - self.seconds();
        if secs >= 0 {
            ((secs as u64) / 86400) as i64
        } else {
            -((((-secs) as u64) / 86400) as i64)
        }
    }
}

} // verus!
