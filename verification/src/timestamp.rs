//! The packed date/time representation of the archive format.
//!
//! A calendar timestamp (year, month, day, hour, minute, second) is
//! packed into two 16-bit words with 2-second resolution.  Encoding
//! validates every field's range; decoding is the exact inverse except
//! for the lost low bit of the seconds.

use crate::ZipError;
use vstd::prelude::*;

verus! {

/// A calendar timestamp as plain numeric fields.
#[derive(Clone, Copy, Debug, PartialEq, Eq, Structural)]
pub struct CalendarTime {
    pub year: u16,
    pub month: u8,
    pub day: u8,
    pub hour: u8,
    pub minute: u8,
    pub second: u8,
}

/// Whether every field lies in the range the packed format can hold:
/// year 1980..=2107, month 1..=12, day 1..=31, hour 0..=23,
/// minute 0..=59, second 0..=59.
pub open spec fn valid_calendar(t: CalendarTime) -> bool {
    &&& 1980 <= t.year <= 2107
    &&& 1 <= t.month <= 12
    &&& 1 <= t.day <= 31
    &&& t.hour <= 23
    &&& t.minute <= 59
    &&& t.second <= 59
}

/// The packed date word: years since 1980 in the high seven bits, then
/// month, then day.
pub open spec fn spec_dos_date(t: CalendarTime) -> u16 {
    (((t.year - 1980) as u16) << 9) | ((t.month as u16) << 5) | (t.day as u16)
}

/// The packed time word: hour in the high five bits, then minute, then
/// seconds divided by two.
pub open spec fn spec_dos_time(t: CalendarTime) -> u16 {
    ((t.hour as u16) << 11) | ((t.minute as u16) << 5) | ((t.second as u16) >> 1)
}

/// The year stored in a packed date word.
pub open spec fn spec_year(dos_date: u16) -> u16 {
    (1980 + (dos_date >> 9)) as u16
}

/// The month stored in a packed date word.
pub open spec fn spec_month(dos_date: u16) -> u8 {
    ((dos_date >> 5) & 0xF) as u8
}

/// The day stored in a packed date word.
pub open spec fn spec_day(dos_date: u16) -> u8 {
    (dos_date & 0x1F) as u8
}

/// The hour stored in a packed time word.
pub open spec fn spec_hour(dos_time: u16) -> u8 {
    (dos_time >> 11) as u8
}

/// The minute stored in a packed time word.
pub open spec fn spec_minute(dos_time: u16) -> u8 {
    ((dos_time >> 5) & 0x3F) as u8
}

/// The (even) second stored in a packed time word.
pub open spec fn spec_second(dos_time: u16) -> u8 {
    ((dos_time & 0x1F) << 1) as u8
}

/// A packed timestamp: the two 16-bit words exactly as they appear in
/// the entry headers.
#[derive(Clone, Copy, Debug, PartialEq, Eq, Structural)]
pub struct PackedTimestamp {
    pub dos_time: u16,
    pub dos_date: u16,
}

/// Packs a calendar timestamp, or fails with
/// [`ZipError::InvalidTimestamp`] when any field is out of range.  The
/// only lossy step is the documented 2-second truncation.
pub fn encode(t: CalendarTime) -> (r: Result<PackedTimestamp, ZipError>)
    ensures
        r is Ok <==> valid_calendar(t),
        valid_calendar(t) ==> r == Ok::<PackedTimestamp, ZipError>(
            PackedTimestamp { dos_time: spec_dos_time(t), dos_date: spec_dos_date(t) },
        ),
        !valid_calendar(t) ==> r == Err::<PackedTimestamp, ZipError>(ZipError::InvalidTimestamp),
{
    if t.year < 1980 || t.year > 2107 || t.month < 1 || t.month > 12 || t.day < 1 || t.day > 31
        || t.hour > 23 || t.minute > 59 || t.second > 59 {
        return Err(ZipError::InvalidTimestamp);
    }
    let date: u16 = (((t.year - 1980) as u16) << 9) | ((t.month as u16) << 5) | (t.day as u16);
    let time: u16 = ((t.hour as u16) << 11) | ((t.minute as u16) << 5) | ((t.second as u16) >> 1);
    Ok(PackedTimestamp { dos_time: time, dos_date: date })
}

/// Unpacks a timestamp into its six calendar fields.
pub fn decode(p: PackedTimestamp) -> (r: CalendarTime)
    ensures
        r.year == spec_year(p.dos_date),
        r.month == spec_month(p.dos_date),
        r.day == spec_day(p.dos_date),
        r.hour == spec_hour(p.dos_time),
        r.minute == spec_minute(p.dos_time),
        r.second == spec_second(p.dos_time),
{
    proof {
        let d = p.dos_date;
        let tm = p.dos_time;
        assert(d >> 9 <= 127) by (bit_vector);
        assert((tm & 0x1F) << 1 <= 62) by (bit_vector);
    }
    CalendarTime {
        year: 1980 + (p.dos_date >> 9),
        month: ((p.dos_date >> 5) & 0xF) as u8,
        day: (p.dos_date & 0x1F) as u8,
        hour: (p.dos_time >> 11) as u8,
        minute: ((p.dos_time >> 5) & 0x3F) as u8,
        second: ((p.dos_time & 0x1F) << 1) as u8,
    }
}

/// Law: for every valid calendar timestamp, decoding the packed form
/// reproduces the original fields, except that the seconds are rounded
/// down to the nearest even value.
pub proof fn lemma_decode_encode(t: CalendarTime)
    requires
        valid_calendar(t),
    ensures
        spec_year(spec_dos_date(t)) == t.year,
        spec_month(spec_dos_date(t)) == t.month,
        spec_day(spec_dos_date(t)) == t.day,
        spec_hour(spec_dos_time(t)) == t.hour,
        spec_minute(spec_dos_time(t)) == t.minute,
        spec_second(spec_dos_time(t)) == t.second - (t.second % 2),
{
    let y = t.year;
    let mo = t.month;
    let dd = t.day;
    let h = t.hour;
    let mi = t.minute;
    let s = t.second;
    assert((1980 + ((((((y - 1980) as u16) << 9) | ((mo as u16) << 5) | (dd as u16)) >> 9)))
        as u16 == y && (((((((y - 1980) as u16) << 9) | ((mo as u16) << 5) | (dd as u16)) >> 5)
        & 0xF) as u8) == mo && ((((((y - 1980) as u16) << 9) | ((mo as u16) << 5) | (
    dd as u16)) & 0x1F) as u8) == dd) by (bit_vector)
        requires
            1980 <= y <= 2107,
            1 <= mo <= 12,
            1 <= dd <= 31,
    ;
    assert(((((((h as u16) << 11) | ((mi as u16) << 5) | ((s as u16) >> 1)) >> 11) as u8) == h)
        && ((((((h as u16) << 11) | ((mi as u16) << 5) | ((s as u16) >> 1)) >> 5) & 0x3F) as u8
        == mi) && (((((((h as u16) << 11) | ((mi as u16) << 5) | ((s as u16) >> 1)) & 0x1F) << 1)
        as u8) == s - (s % 2))) by (bit_vector)
        requires
            h <= 23,
            mi <= 59,
            s <= 59,
    ;
}

} // verus!
