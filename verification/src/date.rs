use vstd::prelude::*;
use vstd::std_specs::cmp::PartialOrdSpec;

verus! {

/// A point in time together with its pre-rendered display form.
/// Ordered by the timestamp alone, never by the display string.
/// Immutable once constructed.
#[derive(Debug, Clone)]
pub struct Date {
    pub(crate) ts: i64,
    pub(crate) format: String,
}

/// The timestamp a date-only string parses to under a format pattern:
/// seconds since the epoch at midnight of that day, or `None` when the
/// string does not match the pattern.  The result is a function of the
/// two strings alone.
pub uninterp spec fn spec_date_ts(text: Seq<char>, fmt: Seq<char>) -> Option<i64>;

/// The timestamp a date-and-time string parses to under a format pattern,
/// or `None` when the string does not match the pattern.  The result is a
/// function of the two strings alone.
pub uninterp spec fn spec_date_time_ts(text: Seq<char>, fmt: Seq<char>) -> Option<i64>;

/// The timestamp of midnight on a calendar day, or `None` when the triple
/// is not a valid calendar date.  The result is a function of the triple
/// alone.
pub uninterp spec fn spec_ymd_ts(year: int, month: int, day: int) -> Option<i64>;


/// The timestamp an optional parse produced, or the epoch: a string that
/// does not match its pattern degrades to a default rather than an error.
pub open spec fn spec_date_or_epoch(o: Option<i64>) -> i64 {
    match o {
        Option::Some(t) => t,
        Option::None => 0,
    }
}

/// Relies on chrono's `NaiveDate::parse_from_str`, `NaiveDate::and_time`
/// and `NaiveDateTime::and_utc`: parses a date-only string against a
/// format pattern and pads it to midnight; the timestamp depends on the
/// two strings alone.
#[verifier::external_body]
fn parse_date_ts(text: &str, fmt: &str) -> (r: Option<i64>)
    ensures
        r == spec_date_ts(text@, fmt@),
{
    chrono::NaiveDate::parse_from_str(text, fmt)
        .map(|d| d.and_time(chrono::NaiveTime::MIN).and_utc().timestamp())
        .ok()
}

/// Relies on chrono's `NaiveDateTime::parse_from_str` and
/// `NaiveDateTime::and_utc`: parses a date-and-time string against a
/// format pattern; the timestamp depends on the two strings alone.
#[verifier::external_body]
fn parse_date_time_ts(text: &str, fmt: &str) -> (r: Option<i64>)
    ensures
        r == spec_date_time_ts(text@, fmt@),
{
    chrono::NaiveDateTime::parse_from_str(text, fmt)
        .map(|d| d.and_utc().timestamp())
        .ok()
}

/// Relies on chrono's `NaiveDate::from_ymd_opt`: `None` exactly for
/// invalid or out-of-range calendar dates; the timestamp depends on the
/// triple alone.
#[verifier::external_body]
fn ymd_ts(year: i32, month: u32, day: u32) -> (r: Option<i64>)
    ensures
        r == spec_ymd_ts(year as int, month as int, day as int),
{
    chrono::NaiveDate::from_ymd_opt(year, month, day)
        .map(|d| d.and_time(chrono::NaiveTime::MIN).and_utc().timestamp())
}

/// Relies on chrono's `DateTime::from_timestamp` and `DateTime::format`:
/// renders a timestamp as local wall-clock time.  The result depends on
/// the machine's time zone, so nothing is claimed of it.
#[verifier::external_body]
fn format_ts(ts: i64) -> String {
    chrono::DateTime::from_timestamp(ts, 0)
        .unwrap_or_default()
        .with_timezone(&chrono::Local)
        .format("%Y-%m-%d %H:%M:%S")
        .to_string()
}

/// Relies on chrono's `Local::now` and the `Datelike` accessors, whose
/// documentation bounds the month to 1..=12, the day to 1..=31, and the
/// year to the range of `NaiveDate` (well within a few hundred thousand).
#[verifier::external_body]
pub fn today_ymd() -> (r: (i32, u32, u32))
    ensures
        -400000 < r.0 < 400000,
        1 <= r.1 <= 12,
        1 <= r.2 <= 31,
{
    let now = chrono::Local::now();
    (
        chrono::Datelike::year(&now),
        chrono::Datelike::month(&now),
        chrono::Datelike::day(&now),
    )
}

impl Date {
    /// The timestamp, in seconds since the epoch.
    pub closed spec fn spec_timestamp(self) -> i64 {
        self.ts
    }

    /// The display string.
    pub closed spec fn spec_format(self) -> Seq<char> {
        self.format@
    }

    /// Builds a date from a timestamp, pre-rendering the display string in
    /// local time.
    pub fn from_timestamp(ts: i64) -> (r: Self)
        ensures
            r.spec_timestamp() == ts,
    {
        Date { ts, format: format_ts(ts) }
    }

    /// Builds the date of midnight on a calendar day; an invalid or
    /// out-of-range triple falls back to the epoch.
    pub fn from_ymd(year: i32, month: u32, day: u32) -> (r: Self)
        ensures
            r.spec_timestamp() == spec_date_or_epoch(
                spec_ymd_ts(year as int, month as int, day as int),
            ),
    {
        match ymd_ts(year, month, day) {
            Option::Some(t) => Self::from_timestamp(t),
            Option::None => Self::from_timestamp(0),
        }
    }

    /// Parses a date-only string against a caller-supplied pattern,
    /// padding to midnight.  A string that does not match the pattern
    /// falls back to the epoch rather than propagating an error, since
    /// source markup is unreliable.
    pub fn parse_date(date: &str, format: &str) -> (r: Self)
        ensures
            r.spec_timestamp() == spec_date_or_epoch(spec_date_ts(date@, format@)),
    {
        match parse_date_ts(date, format) {
            Option::Some(t) => Self::from_timestamp(t),
            Option::None => Self::from_timestamp(0),
        }
    }

    /// Parses a date-and-time string against a caller-supplied pattern.
    /// A string that does not match the pattern falls back to the epoch
    /// rather than propagating an error.
    pub fn parse_date_time(date: &str, format: &str) -> (r: Self)
        ensures
            r.spec_timestamp() == spec_date_or_epoch(spec_date_time_ts(date@, format@)),
    {
        match parse_date_time_ts(date, format) {
            Option::Some(t) => Self::from_timestamp(t),
            Option::None => Self::from_timestamp(0),
        }
    }

    /// The timestamp, in seconds since the epoch.
    pub fn timestamp(&self) -> (r: i64)
        ensures
            r == self.spec_timestamp(),
    {
        self.ts
    }

    /// The pre-rendered display string.
    pub fn format(&self) -> (r: &String)
        ensures
            r@ == self.spec_format(),
    {
        &self.format
    }
}

impl PartialEq for Date {
    /// Dates are compared by timestamp alone.
    fn eq(&self, other: &Self) -> (r: bool) {
        self.ts == other.ts
    }
}

impl vstd::std_specs::cmp::PartialEqSpecImpl for Date {
    open spec fn obeys_eq_spec() -> bool {
        true
    }

    open spec fn eq_spec(&self, other: &Self) -> bool {
        self.spec_timestamp() == other.spec_timestamp()
    }
}

impl Eq for Date {}

impl PartialOrd for Date {
    /// Dates are ordered by timestamp alone, never by display string.
    fn partial_cmp(&self, other: &Self) -> (r: Option<core::cmp::Ordering>) {
        if self.ts < other.ts {
            Some(core::cmp::Ordering::Less)
        } else if self.ts == other.ts {
            Some(core::cmp::Ordering::Equal)
        } else {
            Some(core::cmp::Ordering::Greater)
        }
    }
}

impl vstd::std_specs::cmp::PartialOrdSpecImpl for Date {
    open spec fn obeys_partial_cmp_spec() -> bool {
        true
    }

    open spec fn partial_cmp_spec(&self, other: &Self) -> Option<core::cmp::Ordering> {
        if self.spec_timestamp() < other.spec_timestamp() {
            Some(core::cmp::Ordering::Less)
        } else if self.spec_timestamp() == other.spec_timestamp() {
            Some(core::cmp::Ordering::Equal)
        } else {
            Some(core::cmp::Ordering::Greater)
        }
    }
}

/// For all dates, an earlier timestamp orders below a later one under the
/// type's ordering, whatever the display strings hold.
pub proof fn lemma_date_ordering(a: Date, b: Date)
    requires
        a.spec_timestamp() < b.spec_timestamp(),
    ensures
        a.partial_cmp_spec(&b) == Some(core::cmp::Ordering::Less),
{
}

} // verus!
