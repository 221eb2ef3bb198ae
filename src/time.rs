use vstd::prelude::*;
use vstd::arithmetic::div_mod::{lemma_hoist_over_denominator, lemma_mod_multiples_vanish};

verus! {

/// Seconds in seven days: the window of the "due this week" bucket.
pub const SECS_PER_WEEK: i64 = 604800;

/// The first second that chrono can represent: -262143-01-01T00:00:00Z.
pub const MIN_TIMESTAMP: i64 = -8334601228800;

/// The last second that chrono can represent: 262142-12-31T23:59:59Z.
pub const MAX_TIMESTAMP: i64 = 8210266876799;

/// The format under which due dates are read: ISO-8601 with an offset,
/// where `Z` or `UTC` may stand for `+00:00`.
pub const DUE_DATE_FORMAT: &'static str = "%+";

/// The seconds and nanoseconds that chrono accepts as an instant in UTC: the
/// seconds lie in its calendar range, and a nanosecond count of a second or
/// more marks a leap second, which only the last second of a minute can hold.
pub open spec fn valid_instant(secs: int, nanos: int) -> bool {
    &&& MIN_TIMESTAMP <= secs <= MAX_TIMESTAMP
    &&& 0 <= nanos < 2_000_000_000
    &&& nanos >= 1_000_000_000 ==> secs % 60 == 59
}

/// The calendar day (in UTC, counted from 1970-01-01) that holds a timestamp.
pub open spec fn day_of(secs: int) -> int {
    secs / 86400
}

/// What chrono's `DateTime::parse_from_str` gives for a text and a format:
/// the instant as UTC seconds since the epoch and the nanoseconds past that
/// second, or `None` when the text does not parse.
pub uninterp spec fn chrono_parse(text: Seq<char>, format: Seq<char>) -> Option<(i64, u32)>;

/// How chrono displays the UTC instant with these seconds and nanoseconds
/// (`2023-03-01 12:00:00 UTC`).
pub uninterp spec fn chrono_display(secs: i64, nanos: u32) -> Seq<char>;

/// Relies on chrono's `DateTime::parse_from_str`, then `timestamp` and
/// `timestamp_subsec_nanos` of the parsed value: the result depends on the
/// two texts alone.
#[verifier::external_body]
fn parse_with_format(text: &str, format: &str) -> (r: Option<(i64, u32)>)
    ensures
        r == chrono_parse(text@, format@),
{
    match chrono::DateTime::parse_from_str(text, format) {
        Ok(d) => Some((d.timestamp(), d.timestamp_subsec_nanos())),
        Err(_) => None,
    }
}

/// Relies on chrono's `Utc::now`, which builds its value with
/// `DateTime::from_timestamp(secs, subsec_nanos).unwrap()` from the system
/// clock: what it returns is an instant that `from_timestamp` accepted, and
/// the nanoseconds of a system time stay under one second.
#[verifier::external_body]
fn utc_now() -> (r: (i64, u32))
    ensures
        valid_instant(r.0 as int, r.1 as int),
        r.1 < 1_000_000_000,
{
    let now = chrono::Utc::now();
    (now.timestamp(), now.timestamp_subsec_nanos())
}

/// Relies on chrono's `DateTime::from_timestamp`, which returns `Some` exactly
/// on a valid instant, and on the `Display` of `DateTime<Utc>`.
#[verifier::external_body]
fn display_utc(secs: i64, nanos: u32) -> (r: String)
    requires
        valid_instant(secs as int, nanos as int),
    ensures
        r@ == chrono_display(secs, nanos),
{
    match chrono::DateTime::from_timestamp(secs, nanos) {
        Some(d) => d.to_string(),
        None => String::new(),
    }
}

/// An instant in UTC: seconds since 1970-01-01T00:00:00Z and nanoseconds
/// past that second (a leap second counts them from one second up).
#[derive(Clone, Copy, PartialEq, Eq, Debug)]
pub struct Timestamp {
    secs: i64,
    nanos: u32,
}

/// The instant that a due-date text denotes, if it parses as one.
pub open spec fn parsed_instant(text: Seq<char>) -> Option<(i64, u32)> {
    match chrono_parse(text, DUE_DATE_FORMAT@) {
        Some(p) => if valid_instant(p.0 as int, p.1 as int) {
            Some(p)
        } else {
            None
        },
        None => None,
    }
}

/// `a` comes strictly before `b`.
pub open spec fn earlier(a: (i64, u32), b: (i64, u32)) -> bool {
    a.0 < b.0 || (a.0 == b.0 && a.1 < b.1)
}

/// `a` lies between `start` and seven days after it, both ends included.
pub open spec fn within_week(a: (i64, u32), start: (i64, u32)) -> bool {
    &&& !earlier(a, start)
    &&& (a.0 < start.0 + SECS_PER_WEEK || (a.0 == start.0 + SECS_PER_WEEK && a.1 <= start.1))
}

impl View for Timestamp {
    type V = (i64, u32);

    closed spec fn view(&self) -> (i64, u32) {
        (self.secs, self.nanos)
    }
}

impl Timestamp {
    #[verifier::type_invariant]
    spec fn inv(self) -> bool {
        valid_instant(self.secs as int, self.nanos as int)
    }

    /// The timestamp with these parts, if they form a valid instant.
    pub fn from_parts(secs: i64, nanos: u32) -> (r: Option<Timestamp>)
        ensures
            r is Some <==> valid_instant(secs as int, nanos as int),
            r matches Some(t) ==> t@ == (secs, nanos),
    {
        if secs < MIN_TIMESTAMP || secs > MAX_TIMESTAMP || nanos >= 2_000_000_000 {
            return None;
        }
        let shifted = (secs - MIN_TIMESTAMP) as u64;
        proof {
            lemma_mod_multiples_vanish(MIN_TIMESTAMP / 60, shifted as int, 60);
            assert(MIN_TIMESTAMP == 60 * (MIN_TIMESTAMP / 60));
        }
        if nanos >= 1_000_000_000 && shifted % 60 != 59 {
            return None;
        }
        Some(Timestamp { secs, nanos })
    }

    /// Reads a due date: ISO-8601 with an offset (`2023-03-01T12:00:00+02:00`,
    /// `2023-03-01T12:00:00Z`, `2023-03-01 12:00:00 UTC`).
    pub fn parse(text: &str) -> (r: Option<Timestamp>)
        ensures
            r matches Some(t) ==> parsed_instant(text@) == Some(t@),
            r is None ==> parsed_instant(text@) is None,
    {
        match parse_with_format(text, DUE_DATE_FORMAT) {
            Some((secs, nanos)) => Timestamp::from_parts(secs, nanos),
            None => None,
        }
    }

    /// The current instant, from the system clock.
    pub fn now() -> (r: Timestamp)
        ensures
            r@.1 < 1_000_000_000,
    {
        let (secs, nanos) = utc_now();
        Timestamp { secs, nanos }
    }

    pub fn secs(&self) -> (r: i64)
        ensures
            r == self@.0,
    {
        self.secs
    }

    pub fn nanos(&self) -> (r: u32)
        ensures
            r == self@.1,
    {
        self.nanos
    }

    /// The instant as chrono displays it, which reads back through `parse`.
    pub fn to_text(&self) -> (r: String)
        ensures
            r@ == chrono_display(self@.0, self@.1),
    {
        proof {
            use_type_invariant(self);
        }
        display_utc(self.secs, self.nanos)
    }

    /// The calendar day in UTC, counted from 1970-01-01.
    pub fn day(&self) -> (r: i64)
        ensures
            r == day_of(self@.0 as int),
    {
        proof {
            use_type_invariant(self);
        }
        let shifted = (self.secs - MIN_TIMESTAMP) as u64;
        let d = (shifted / 86400) as i64;
        proof {
            lemma_hoist_over_denominator(shifted as int, MIN_TIMESTAMP / 86400, 86400);
            assert(MIN_TIMESTAMP / 86400 * 86400 == MIN_TIMESTAMP);
        }
        d + MIN_TIMESTAMP / 86400
    }

    /// This instant comes strictly before `other`.
    pub fn is_before(&self, other: &Timestamp) -> (r: bool)
        ensures
            r == earlier(self@, other@),
    {
        self.secs < other.secs || (self.secs == other.secs && self.nanos < other.nanos)
    }

    /// This instant lies between `start` and seven days after it, both ends
    /// included.
    pub fn is_within_week_of(&self, start: &Timestamp) -> (r: bool)
        ensures
            r == within_week(self@, start@),
    {
        proof {
            use_type_invariant(start);
        }
        let end = start.secs + SECS_PER_WEEK;
        !self.is_before(start) && (self.secs < end || (self.secs == end && self.nanos
            <= start.nanos))
    }
}

} // verus!
