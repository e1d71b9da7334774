//! End-to-end tests: archives built by the writer are read back with
//! the `zip` crate as an independent, compliant reader.

use std::io::{Cursor, Read};

use zip_writer::timestamp::CalendarTime;
use zip_writer::{FileOptions, ZipError, ZipWriter};

fn parse(bytes: Vec<u8>) -> zip::ZipArchive<Cursor<Vec<u8>>> {
    zip::ZipArchive::new(Cursor::new(bytes)).expect("reader accepts the archive")
}

fn entry_contents(archive: &mut zip::ZipArchive<Cursor<Vec<u8>>>, i: usize) -> (String, u64, u32, Vec<u8>) {
    let mut f = archive.by_index(i).expect("entry is readable");
    let name = f.name().to_string();
    let size = f.size();
    let crc = f.crc32();
    let mut data = Vec::new();
    f.read_to_end(&mut data).expect("payload reads back, checksum verified");
    (name, size, crc, data)
}

#[test]
fn empty_archive_is_recognized() {
    let w = ZipWriter::new();
    let bytes = w.finish().unwrap();
    // Minimal image: a single 22-byte end-of-central-directory record.
    assert_eq!(bytes.len(), 22);
    assert_eq!(&bytes[0..4], b"PK\x05\x06");
    let archive = parse(bytes);
    assert_eq!(archive.len(), 0);
}

#[test]
fn two_entries_round_trip() {
    let mut w = ZipWriter::new();
    w.start_file("a.txt", None).unwrap();
    w.write(b"hello").unwrap();
    // Opening the next entry implicitly closes "a.txt".
    w.start_file("b.txt", None).unwrap();
    w.write(b"world!").unwrap();
    let mut archive = parse(w.finish().unwrap());
    assert_eq!(archive.len(), 2);
    let (name_a, size_a, crc_a, data_a) = entry_contents(&mut archive, 0);
    assert_eq!(name_a, "a.txt");
    assert_eq!(size_a, 5);
    assert_eq!(crc_a, 0x3610A686);
    assert_eq!(data_a, b"hello");
    let (name_b, size_b, _, data_b) = entry_contents(&mut archive, 1);
    assert_eq!(name_b, "b.txt");
    assert_eq!(size_b, 6);
    assert_eq!(data_b, b"world!");
}

#[test]
fn chunked_writes_match_one_call() {
    let mut one = ZipWriter::new();
    one.start_file("data.bin", None).unwrap();
    one.write(b"0123456789").unwrap();
    let mut many = ZipWriter::new();
    many.start_file("data.bin", None).unwrap();
    many.write(b"01").unwrap();
    many.write(b"").unwrap();
    many.write(b"2345678").unwrap();
    many.write(b"9").unwrap();
    assert_eq!(one.finish().unwrap(), many.finish().unwrap());
}

#[test]
fn several_entries_with_payloads() {
    let mut w = ZipWriter::new();
    let mut payloads: Vec<(String, Vec<u8>)> = Vec::new();
    for i in 0..5u32 {
        let name = format!("file-{}.bin", i);
        let data: Vec<u8> = (0..50 * i).map(|j| (i + j) as u8).collect();
        w.start_file(&name, None).unwrap();
        w.write(&data).unwrap();
        payloads.push((name, data));
    }
    let mut archive = parse(w.finish().unwrap());
    assert_eq!(archive.len(), 5);
    for (i, (name, data)) in payloads.iter().enumerate() {
        let (got_name, got_size, _, got_data) = entry_contents(&mut archive, i);
        assert_eq!(&got_name, name);
        assert_eq!(got_size, data.len() as u64);
        assert_eq!(&got_data, data);
    }
}

#[test]
fn empty_entry_has_zero_size_and_empty_crc() {
    let mut w = ZipWriter::new();
    w.start_file("nothing.txt", None).unwrap();
    // Zero bytes in total: one empty chunk.
    w.write(b"").unwrap();
    w.start_file("untouched.txt", None).unwrap();
    // No write call at all.
    let mut archive = parse(w.finish().unwrap());
    assert_eq!(archive.len(), 2);
    for i in 0..2 {
        let (_, size, crc, data) = entry_contents(&mut archive, i);
        assert_eq!(size, 0);
        // CRC-32 of empty input.
        assert_eq!(crc, 0);
        assert_eq!(data, b"");
    }
}

#[test]
fn comment_appears_in_trailer() {
    let mut w = ZipWriter::new();
    w.start_file("a.txt", None).unwrap();
    w.set_comment(String::from("note"));
    let bytes = w.finish().unwrap();
    // The comment is the trailing bytes of the end-of-central-directory record.
    assert_eq!(&bytes[bytes.len() - 4..], b"note");
    let archive = parse(bytes);
    assert_eq!(archive.comment(), b"note");
}

#[test]
fn comment_can_be_replaced() {
    let mut w = ZipWriter::new();
    w.set_comment(String::from("first"));
    w.set_comment(String::from("second"));
    let archive = parse(w.finish().unwrap());
    assert_eq!(archive.comment(), b"second");
}

#[test]
fn explicit_timestamp_is_stamped() {
    let mut w = ZipWriter::new();
    let t = CalendarTime { year: 2018, month: 11, day: 17, hour: 10, minute: 38, second: 31 };
    w.start_file("stamped.txt", Some(FileOptions { last_modified: Some(t) })).unwrap();
    let mut archive = parse(w.finish().unwrap());
    let f = archive.by_index(0).unwrap();
    let dt = f.last_modified().expect("timestamp is present");
    assert_eq!(dt.year(), 2018);
    assert_eq!(dt.month(), 11);
    assert_eq!(dt.day(), 17);
    assert_eq!(dt.hour(), 10);
    assert_eq!(dt.minute(), 38);
    // Odd seconds are truncated to the 2-second resolution.
    assert_eq!(dt.second(), 30);
}

#[test]
fn invalid_timestamp_leaves_writer_unchanged() {
    let mut w = ZipWriter::new();
    w.start_file("a.txt", None).unwrap();
    w.write(b"hello").unwrap();
    let bad = CalendarTime { year: 1900, month: 1, day: 1, hour: 0, minute: 0, second: 0 };
    let r = w.start_file("b.txt", Some(FileOptions { last_modified: Some(bad) }));
    assert_eq!(r, Err(ZipError::InvalidTimestamp));
    // The failed call closed nothing: "a.txt" is still the open entry.
    w.write(b"world").unwrap();
    let mut archive = parse(w.finish().unwrap());
    assert_eq!(archive.len(), 1);
    let (name, size, _, data) = entry_contents(&mut archive, 0);
    assert_eq!(name, "a.txt");
    assert_eq!(size, 10);
    assert_eq!(data, b"helloworld");
}

#[test]
fn name_validation() {
    let mut w = ZipWriter::new();
    assert_eq!(w.start_file("", None), Err(ZipError::InvalidName));
    let long = "n".repeat(65536);
    assert_eq!(w.start_file(&long, None), Err(ZipError::NameTooLong));
    let longest = "n".repeat(65535);
    assert_eq!(w.start_file(&longest, None), Ok(()));
}

#[test]
fn write_without_entry_fails() {
    let mut w = ZipWriter::new();
    assert_eq!(w.write(b"x"), Err(ZipError::NoActiveEntry));
    // The failure left the writer usable.
    w.start_file("a.txt", None).unwrap();
    w.write(b"x").unwrap();
    let mut archive = parse(w.finish().unwrap());
    let (_, size, _, data) = entry_contents(&mut archive, 0);
    assert_eq!(size, 1);
    assert_eq!(data, b"x");
}

#[test]
fn entry_count_limit() {
    let mut w = ZipWriter::new();
    for i in 0..65535u32 {
        let name = format!("{}", i);
        w.start_file(&name, None).unwrap();
    }
    // The entry count field is 16 bits wide: a 65536th entry is refused
    // and the writer is left as it was.
    assert_eq!(w.start_file("one-too-many", None), Err(ZipError::ArchiveTooLarge));
    let archive = parse(w.finish().unwrap());
    assert_eq!(archive.len(), 65535);
}

#[test]
fn duplicate_names_are_allowed() {
    let mut w = ZipWriter::new();
    w.start_file("same.txt", None).unwrap();
    w.write(b"one").unwrap();
    w.start_file("same.txt", None).unwrap();
    w.write(b"two").unwrap();
    // The writer allows duplicate names; this reader tolerates them but
    // indexes entries by name, so the later entry shadows the earlier one.
    let mut archive = parse(w.finish().unwrap());
    assert_eq!(archive.len(), 1);
    let (name0, _, _, data0) = entry_contents(&mut archive, 0);
    assert_eq!(name0, "same.txt");
    assert_eq!(data0, b"two");
}
