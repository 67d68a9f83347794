use vstd::prelude::*;

verus! {

/// Seconds since the start of 1970, as the device reports them.
#[derive(Clone, Copy, Debug)]
pub struct Epoch(u32);

impl View for Epoch {
    type V = u32;

    closed spec fn view(&self) -> u32 {
        self.0
    }
}

/// A date and a time of day in the calendar, in UTC.
#[derive(Clone, Copy, Debug, PartialEq, Eq, Structural)]
pub struct CalendarTime {
    pub year: i32,
    pub month: u32,
    pub day: u32,
    pub hour: u32,
    pub minute: u32,
    pub second: u32,
}

/// A date and a time of day as an archive record stores them.
#[derive(Clone, Copy, Debug, PartialEq, Eq, Structural)]
pub struct ArchiveTime {
    pub year: u16,
    pub month: u8,
    pub day: u8,
    pub hour: u8,
    pub minute: u8,
    pub second: u8,
}

/// Year, month, day, hour, minute and second of the moment that lies the
/// given number of seconds after the start of 1970, as chrono computes them.
pub uninterp spec fn calendar_of(secs: u32) -> (int, int, int, int, int, int);

/// The six numbers of a calendar time.
pub open spec fn calendar_fields(t: CalendarTime) -> (int, int, int, int, int, int) {
    (t.year as int, t.month as int, t.day as int, t.hour as int, t.minute as int, t.second as int)
}

/// What an archive record can store: years 1980 to 2107, and a second of 60
/// for a leap second. The fields are year, month, day, hour, minute,
/// second.
pub open spec fn in_archive_range(f: (int, int, int, int, int, int)) -> bool {
    &&& 1980 <= f.0 <= 2107
    &&& 1 <= f.1 <= 12
    &&& 1 <= f.2 <= 31
    &&& 0 <= f.3 <= 23
    &&& 0 <= f.4 <= 59
    &&& 0 <= f.5 <= 60
}

/// The time that stands in for one that an archive record cannot store:
/// the first moment of 1980.
pub open spec fn fallback_time() -> ArchiveTime {
    ArchiveTime { year: 1980, month: 1, day: 1, hour: 0, minute: 0, second: 0 }
}

/// The archive's form of the six fields of a calendar time, or the
/// fallback where the archive cannot store them.
pub open spec fn stamp_of(f: (int, int, int, int, int, int)) -> ArchiveTime {
    if in_archive_range(f) {
        ArchiveTime {
            year: f.0 as u16,
            month: f.1 as u8,
            day: f.2 as u8,
            hour: f.3 as u8,
            minute: f.4 as u8,
            second: f.5 as u8,
        }
    } else {
        fallback_time()
    }
}

/// The archive's form of a calendar time, or the fallback where the
/// archive cannot store it.
pub open spec fn archive_time_of(t: CalendarTime) -> ArchiveTime {
    stamp_of(calendar_fields(t))
}

/// Calls chrono's `NaiveDateTime::from_timestamp` with no nanoseconds and
/// reads the six calendar fields of what it gives. Every 32-bit count of
/// seconds is within the range in which that function returns.
#[verifier::external_body]
#[allow(deprecated)]
fn calendar_from_timestamp(secs: u32) -> (r: CalendarTime)
    ensures
        calendar_fields(r) == calendar_of(secs),
{
    let t = chrono::NaiveDateTime::from_timestamp(i64::from(secs), 0);
    CalendarTime {
        year: chrono::Datelike::year(&t),
        month: chrono::Datelike::month(&t),
        day: chrono::Datelike::day(&t),
        hour: chrono::Timelike::hour(&t),
        minute: chrono::Timelike::minute(&t),
        second: chrono::Timelike::second(&t),
    }
}

/// Calls zip's `DateTime::from_date_and_time`, which accepts exactly the
/// fields that an archive record can store and keeps them as given.
#[verifier::external_body]
fn archive_time_from_fields(
    year: u16,
    month: u8,
    day: u8,
    hour: u8,
    minute: u8,
    second: u8,
) -> (r: Option<ArchiveTime>)
    ensures
        r.is_some() <==> in_archive_range(
            (year as int, month as int, day as int, hour as int, minute as int, second as int),
        ),
        r matches Some(t) ==> t == (ArchiveTime { year, month, day, hour, minute, second }),
{
    match zip::DateTime::from_date_and_time(year, month, day, hour, minute, second) {
        Ok(t) => Some(ArchiveTime {
            year: t.year(),
            month: t.month(),
            day: t.day(),
            hour: t.hour(),
            minute: t.minute(),
            second: t.second(),
        }),
        Err(()) => None,
    }
}

/// Calls zip's `DateTime::default`: the first moment of 1980.
#[verifier::external_body]
fn default_archive_time() -> (r: ArchiveTime)
    ensures
        r == fallback_time(),
{
    let t = zip::DateTime::default();
    ArchiveTime {
        year: t.year(),
        month: t.month(),
        day: t.day(),
        hour: t.hour(),
        minute: t.minute(),
        second: t.second(),
    }
}

impl Epoch {
    /// The moment that many seconds after the start of 1970.
    pub fn from_timestamp(secs: u32) -> (r: Epoch)
        ensures
            r@ == secs,
    {
        Epoch(secs)
    }

    /// The seconds since the start of 1970.
    pub fn timestamp(&self) -> (r: u32)
        ensures
            r == self@,
    {
        self.0
    }

    /// The moment in the calendar.
    pub fn to_date_time(&self) -> (r: CalendarTime)
        ensures
            calendar_fields(r) == calendar_of(self@),
    {
        calendar_from_timestamp(self.0)
    }
}

impl CalendarTime {
    /// Whether an archive record can store this time as it is.
    pub fn fits_archive(&self) -> (r: bool)
        ensures
            r == in_archive_range(calendar_fields(*self)),
    {
        1980 <= self.year && self.year <= 2107 && 1 <= self.month && self.month <= 12 && 1
            <= self.day && self.day <= 31 && self.hour <= 23 && self.minute <= 59 && self.second
            <= 60
    }
}

/// The time to put on an archive record for a calendar time. A time that
/// the archive cannot store is not an error: the fallback takes its place.
pub fn convert_date_time(date_time: &CalendarTime) -> (r: ArchiveTime)
    ensures
        r == archive_time_of(*date_time),
{
    if date_time.year < 0 || date_time.year > 65535 || date_time.month > 255 || date_time.day > 255
        || date_time.hour > 255 || date_time.minute > 255 || date_time.second > 255 {
        return default_archive_time();
    }
    match archive_time_from_fields(
        date_time.year as u16,
        date_time.month as u8,
        date_time.day as u8,
        date_time.hour as u8,
        date_time.minute as u8,
        date_time.second as u8,
    ) {
        Some(t) => t,
        None => default_archive_time(),
    }
}

} // verus!
