//! Moments: when a row was made, when a link dies, what the clock reads now.
//!
//! A moment is a count of nanoseconds from the start of 1970, UTC, within the
//! years the `time` crate writes dates for.
use vstd::prelude::*;

verus! {

/// The first nanosecond of the year -9999.
pub const CALENDAR_FIRST: i128 = -377_705_116_800_000_000_000;

/// The last nanosecond of the year 9999.
pub const CALENDAR_LAST: i128 = 253_402_300_799_999_999_999;

pub const NANOS_PER_SECOND: i128 = 1_000_000_000;

/// Whether a count of nanoseconds lies within the calendar.
pub open spec fn in_calendar(nanos: int) -> bool {
    CALENDAR_FIRST <= nanos <= CALENDAR_LAST
}

/// What `time::Date` writes for the day a moment falls on.
pub uninterp spec fn day_name(nanos: int) -> Seq<char>;

/// What `time::OffsetDateTime::format` writes for a moment by RFC 3339, where
/// it can: the years before 0 have no such form.
pub uninterp spec fn rfc3339_name(nanos: int) -> Option<Seq<char>>;

/// `time::OffsetDateTime::now_utc` reads the system clock. Nothing is claimed
/// of what it reads but that it is a moment the crate can hold.
#[verifier::external_body]
fn read_clock() -> (r: i128)
    ensures
        in_calendar(r as int),
{
    time::OffsetDateTime::now_utc().unix_timestamp_nanos()
}

/// `time::OffsetDateTime::checked_add` with a duration of whole seconds: the
/// moment that much later, or nothing past either end of the calendar.
#[verifier::external_body]
fn add_seconds(nanos: i128, seconds: i64) -> (r: Option<i128>)
    requires
        in_calendar(nanos as int),
    ensures
        r == if in_calendar(nanos + seconds * NANOS_PER_SECOND) {
            Some((nanos + seconds * NANOS_PER_SECOND) as i128)
        } else {
            None::<i128>
        },
{
    time::OffsetDateTime::from_unix_timestamp_nanos(nanos).unwrap()
        .checked_add(time::Duration::seconds(seconds))
        .map(|at| at.unix_timestamp_nanos())
}

/// `time::Date`'s `Display`: the text of the day a moment falls on in UTC.
#[verifier::external_body]
fn write_day(nanos: i128) -> (r: String)
    requires
        in_calendar(nanos as int),
    ensures
        r@ == day_name(nanos as int),
{
    time::OffsetDateTime::from_unix_timestamp_nanos(nanos).unwrap().date().to_string()
}

/// `time::OffsetDateTime::format` with the well-known RFC 3339 description.
#[verifier::external_body]
fn write_rfc3339(nanos: i128) -> (r: Option<String>)
    requires
        in_calendar(nanos as int),
    ensures
        crate::text::opt_text(r) == rfc3339_name(nanos as int),
{
    time::OffsetDateTime::from_unix_timestamp_nanos(nanos).unwrap()
        .format(&time::format_description::well_known::Rfc3339).ok()
}

/// A point in time.
#[derive(Clone, Copy, Debug, PartialEq, Eq)]
pub struct Moment {
    nanos: i128,
}

impl View for Moment {
    type V = int;

    closed spec fn view(&self) -> int {
        self.nanos as int
    }
}

impl Moment {
    #[verifier::type_invariant]
    spec fn within_calendar(self) -> bool {
        in_calendar(self.nanos as int)
    }

    /// The moment that many nanoseconds from the start of 1970.
    pub fn from_nanos(nanos: i128) -> (r: Option<Moment>)
        ensures
            match r {
                Some(at) => in_calendar(nanos as int) && at@ == nanos,
                None => !in_calendar(nanos as int),
            },
    {
        if CALENDAR_FIRST <= nanos && nanos <= CALENDAR_LAST {
            Some(Moment { nanos })
        } else {
            None
        }
    }

    /// Nanoseconds from the start of 1970.
    pub fn nanos(&self) -> (r: i128)
        ensures
            r == self@,
            in_calendar(r as int),
    {
        proof {
            use_type_invariant(&*self);
        }
        self.nanos
    }

    /// What the clock reads.
    pub fn now() -> (r: Moment)
        ensures
            in_calendar(r@),
    {
        Moment { nanos: read_clock() }
    }

    /// Whole seconds from the start of 1970, rounded down.
    pub fn unix_seconds(&self) -> (r: i64)
        ensures
            r == self@ / (NANOS_PER_SECOND as int),
            -377_705_116_800 <= r <= 253_402_300_799,
    {
        proof {
            use_type_invariant(&*self);
        }
        if self.nanos >= 0 {
            (self.nanos / NANOS_PER_SECOND) as i64
        } else {
            let up: i128 = (-self.nanos + (NANOS_PER_SECOND - 1)) / NANOS_PER_SECOND;
            (-up) as i64
        }
    }

    /// The moment `seconds` later, or nothing past the end of the calendar.
    pub fn later(&self, seconds: i64) -> (r: Option<Moment>)
        ensures
            match r {
                Some(at) => at@ == self@ + seconds * NANOS_PER_SECOND && in_calendar(at@),
                None => !in_calendar(self@ + seconds * NANOS_PER_SECOND),
            },
    {
        proof {
            use_type_invariant(&*self);
        }
        match add_seconds(self.nanos, seconds) {
            Some(nanos) => Some(Moment { nanos }),
            None => None,
        }
    }

    /// The day the moment falls on, in words.
    pub fn day(&self) -> (r: String)
        ensures
            r@ == day_name(self@),
    {
        proof {
            use_type_invariant(&*self);
        }
        write_day(self.nanos)
    }

    /// The moment by RFC 3339, or a question mark where it has no such form.
    pub fn rfc3339(&self) -> (r: String)
        ensures
            r@ == match rfc3339_name(self@) {
                Some(text) => text,
                None => "?"@,
            },
    {
        proof {
            use_type_invariant(&*self);
        }
        match write_rfc3339(self.nanos) {
            Some(text) => text,
            None => "?".to_owned(),
        }
    }
}

} // verus!
