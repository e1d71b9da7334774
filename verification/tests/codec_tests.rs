//! Unit tests for the checksum accumulator and the timestamp codec.

use zip_writer::crc32::Crc32;
use zip_writer::timestamp::{encode, decode, CalendarTime, PackedTimestamp};
use zip_writer::ZipError;

fn crc_of(chunks: &[&[u8]]) -> u32 {
    let mut c = Crc32::new();
    for chunk in chunks {
        c.update(chunk);
    }
    c.finalize()
}

#[test]
fn crc_empty_is_zero() {
    assert_eq!(crc_of(&[]), 0);
    assert_eq!(crc_of(&[b""]), 0);
}

#[test]
fn crc_known_values() {
    // The standard check value of CRC-32.
    assert_eq!(crc_of(&[b"123456789"]), 0xCBF43926);
    assert_eq!(crc_of(&[b"hello"]), 0x3610A686);
}

#[test]
fn crc_chunking_independent() {
    let whole = crc_of(&[b"123456789"]);
    assert_eq!(crc_of(&[b"1", b"23456", b"789"]), whole);
    let mut one_at_a_time = Crc32::new();
    for b in b"123456789" {
        one_at_a_time.update(&[*b]);
    }
    assert_eq!(one_at_a_time.finalize(), whole);
}

#[test]
fn timestamp_round_trip_even_second() {
    let t = CalendarTime { year: 2018, month: 11, day: 17, hour: 10, minute: 38, second: 30 };
    let p = encode(t).unwrap();
    assert_eq!(decode(p), t);
}

#[test]
fn timestamp_round_trip_odd_second_truncates() {
    let t = CalendarTime { year: 2018, month: 11, day: 17, hour: 10, minute: 38, second: 31 };
    let p = encode(t).unwrap();
    let back = decode(p);
    assert_eq!(back.second, 30);
    assert_eq!(CalendarTime { second: 31, ..back }, t);
}

#[test]
fn timestamp_packed_values() {
    let epoch = CalendarTime { year: 1980, month: 1, day: 1, hour: 0, minute: 0, second: 0 };
    assert_eq!(encode(epoch).unwrap(), PackedTimestamp { dos_time: 0, dos_date: 0x21 });
    let t = CalendarTime { year: 2018, month: 11, day: 17, hour: 10, minute: 38, second: 30 };
    // (2018-1980)<<9 | 11<<5 | 17 and 10<<11 | 38<<5 | 30/2
    assert_eq!(encode(t).unwrap(), PackedTimestamp { dos_time: 21711, dos_date: 19825 });
}

#[test]
fn timestamp_range_limits() {
    let ok = CalendarTime { year: 2107, month: 12, day: 31, hour: 23, minute: 59, second: 59 };
    assert!(encode(ok).is_ok());
    let bad = [
        CalendarTime { year: 1900, ..ok },
        CalendarTime { year: 1979, ..ok },
        CalendarTime { year: 2108, ..ok },
        CalendarTime { month: 0, ..ok },
        CalendarTime { month: 13, ..ok },
        CalendarTime { day: 0, ..ok },
        CalendarTime { day: 32, ..ok },
        CalendarTime { hour: 24, ..ok },
        CalendarTime { minute: 60, ..ok },
        CalendarTime { second: 60, ..ok },
    ];
    for t in bad {
        assert_eq!(encode(t), Err(ZipError::InvalidTimestamp));
    }
}
