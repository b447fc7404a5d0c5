//! Setting a device's clock: the record that each supported device kind
//! expects.

use vstd::prelude::*;

use chrono::{Datelike, Timelike};

use crate::record::SimpleRecord;

verus! {

/// The ways of setting a device's clock.
#[derive(Clone, Copy, Debug, PartialEq, Eq, Structural)]
pub enum TimeImplementation {
    SchneideriEM3xxx,
}

/// Offset of the devices' clocks from UTC, in seconds (UTC+1).
pub const UTC_PLUS_ONE_SECONDS: i32 = 3600;

/// A local date and time as its calendar fields.
#[derive(Clone, Copy, Debug)]
pub struct CalendarTime {
    pub year: i32,
    pub month: u32,
    pub day: u32,
    pub hour: u32,
    pub minute: u32,
    pub second: u32,
}

/// The calendar fields of the instant `timestamp` seconds after the Unix
/// epoch, seen at `offset_seconds` east of UTC, as `chrono` computes them
/// for a `DateTime<FixedOffset>`.
pub uninterp spec fn calendar_in_offset(timestamp: int, offset_seconds: int) -> CalendarTime;

/// The current time at a fixed offset east of UTC, through `chrono`
/// (`Utc::now().with_timezone(..)`): its Unix timestamp and its calendar
/// fields, both read from that one value. The fields are the named calendar
/// of that timestamp at that offset, within the ranges that `chrono`
/// documents; which instant it is depends on the clock and is left unsaid.
#[verifier::external_body]
pub(crate) fn now_with_offset(offset_seconds: i32) -> (r: (i64, CalendarTime))
    requires
        -86_400 < offset_seconds < 86_400,
    ensures
        r.1 == calendar_in_offset(r.0 as int, offset_seconds as int),
        1 <= r.1.month <= 12,
        1 <= r.1.day <= 31,
        r.1.hour < 24,
        r.1.minute < 60,
        r.1.second < 60,
{
    let now = chrono::Utc::now().with_timezone(&chrono::FixedOffset::east_opt(offset_seconds).unwrap());
    let fields = CalendarTime {
        year: now.year(),
        month: now.month(),
        day: now.day(),
        hour: now.hour(),
        minute: now.minute(),
        second: now.second(),
    };
    (now.timestamp(), fields)
}

/// The registers that set the clock of a Schneider iEM3xxx meter: command
/// 1003 at address 5250, a reserved zero, the date and time fields each cut
/// to 16 bits, and a trailing zero.
pub open spec fn schneider_time_values(t: CalendarTime) -> Seq<u16> {
    seq![
        1003u16,
        0u16,
        t.year as u16,
        t.month as u16,
        t.day as u16,
        t.hour as u16,
        t.minute as u16,
        t.second as u16,
        0u16,
    ]
}

/// The clock record for a Schneider iEM3xxx meter at the given time.
pub fn schneider_time_record(t: CalendarTime) -> (r: SimpleRecord)
    ensures
        r.address == 5250,
        r.values@ == schneider_time_values(t),
{
    let values = vec![
        1003u16,
        0u16,
        t.year as u16,
        t.month as u16,
        t.day as u16,
        t.hour as u16,
        t.minute as u16,
        t.second as u16,
        0u16,
    ];
    SimpleRecord { address: 5250, values }
}

/// Sets the clock of Schneider iEM3xxx meters.
#[derive(Debug)]
pub struct SchneideriEM3xxxTime {}

impl SchneideriEM3xxxTime {
    pub fn new() -> (t: Self) {
        SchneideriEM3xxxTime {  }
    }

    /// The clock record for the current time in UTC+1: the record of the
    /// calendar, at one hour east of UTC, of the instant the clock gave.
    pub fn create(&self) -> (r: SimpleRecord)
        ensures
            exists|now: i64|
                r.values@ == schneider_time_values(
                    #[trigger] calendar_in_offset(now as int, UTC_PLUS_ONE_SECONDS as int),
                ),
            r.address == 5250,
            r.values@.len() == 9,
            r.values@[0] == 1003,
            r.values@[1] == 0,
            1 <= r.values@[3] <= 12,
            1 <= r.values@[4] <= 31,
            r.values@[5] < 24,
            r.values@[6] < 60,
            r.values@[7] < 60,
            r.values@[8] == 0,
    {
        let (now, fields) = now_with_offset(UTC_PLUS_ONE_SECONDS);
        let r = schneider_time_record(fields);
        assert(r.values@ == schneider_time_values(calendar_in_offset(now as int, UTC_PLUS_ONE_SECONDS as int)));
        r
    }
}

/// The clock setter for a way of setting clocks.
pub fn implementation_for(implementation: TimeImplementation) -> (t: SchneideriEM3xxxTime) {
    match implementation {
        TimeImplementation::SchneideriEM3xxx => SchneideriEM3xxxTime::new(),
    }
}

} // verus!
