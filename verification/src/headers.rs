//! Byte layout of the archive format: local file headers, central
//! directory records and the end-of-central-directory record, each
//! defined as a sequence of little-endian fields, together with the
//! executable emitters proved to produce exactly those bytes.
//!
//! Entries are stored uncompressed (method 0), with no general-purpose
//! flags: the local header's CRC and size fields are written in place
//! once the entry closes, so no data descriptor is ever emitted.

use crate::bytes::{le16, le32, push_bytes, push_u16, push_u32, set_u32_at};
use vstd::prelude::*;

verus! {

/// Signature of a local file header.
pub const LOCAL_HEADER_SIG: u32 = 0x04034b50;

/// Signature of a central directory record.
pub const CENTRAL_HEADER_SIG: u32 = 0x02014b50;

/// Signature of the end-of-central-directory record.
pub const EOCD_SIG: u32 = 0x06054b50;

/// Version needed to extract (2.0), and the version-made-by word.
pub const VERSION_NEEDED: u16 = 20;

/// Mathematical model of one finished entry: what the caller put in
/// (name bytes, timestamp, payload) and what the format derives from it
/// (checksum, size, offset of the local header in the output).
pub struct EntryModel {
    pub name: Seq<u8>,
    pub dos_time: u16,
    pub dos_date: u16,
    pub crc: u32,
    pub size: u32,
    pub offset: u32,
    pub data: Seq<u8>,
}

/// The fixed 14-byte front of a local file header: signature, version
/// needed, flags (none), method (stored), packed time and date.
pub open spec fn local_prefix(dos_time: u16, dos_date: u16) -> Seq<u8> {
    le32(LOCAL_HEADER_SIG) + le16(VERSION_NEEDED) + le16(0) + le16(0) + le16(dos_time) + le16(
        dos_date,
    )
}

/// The tail of a local file header: name length, extra-field length
/// (none) and the name bytes themselves.
pub open spec fn local_suffix(name: Seq<u8>) -> Seq<u8> {
    le16(name.len() as u16) + le16(0) + name
}

/// A whole local file header.  With the stored method the compressed
/// and uncompressed sizes coincide.
pub open spec fn local_header_bytes(
    name: Seq<u8>,
    dos_time: u16,
    dos_date: u16,
    crc: u32,
    size: u32,
) -> Seq<u8> {
    local_prefix(dos_time, dos_date) + le32(crc) + le32(size) + le32(size) + local_suffix(name)
}

/// One local section: the header followed by the raw payload bytes.
pub open spec fn entry_bytes(e: EntryModel) -> Seq<u8> {
    local_header_bytes(e.name, e.dos_time, e.dos_date, e.crc, e.size) + e.data
}

/// All local sections, in the order the entries were opened.
pub open spec fn locals_bytes(entries: Seq<EntryModel>) -> Seq<u8>
    decreases entries.len(),
{
    if entries.len() == 0 {
        Seq::empty()
    } else {
        locals_bytes(entries.drop_last()) + entry_bytes(entries.last())
    }
}

/// One central directory record, a projection of the same fields the
/// entry's local header declares, plus the local header's offset.
pub open spec fn central_header_fields(
    name: Seq<u8>,
    dos_time: u16,
    dos_date: u16,
    crc: u32,
    size: u32,
    offset: u32,
) -> Seq<u8> {
    le32(CENTRAL_HEADER_SIG) + le16(VERSION_NEEDED) + le16(VERSION_NEEDED) + le16(0) + le16(0)
        + le16(dos_time) + le16(dos_date) + le32(crc) + le32(size) + le32(size) + le16(
        name.len() as u16,
    ) + le16(0) + le16(0) + le16(0) + le16(0) + le32(0) + le32(offset) + name
}

/// The central directory record of one finished entry.
pub open spec fn central_header_bytes(e: EntryModel) -> Seq<u8> {
    central_header_fields(e.name, e.dos_time, e.dos_date, e.crc, e.size, e.offset)
}

/// The whole central directory, one record per entry, in order.
pub open spec fn central_bytes(entries: Seq<EntryModel>) -> Seq<u8>
    decreases entries.len(),
{
    if entries.len() == 0 {
        Seq::empty()
    } else {
        central_bytes(entries.drop_last()) + central_header_bytes(entries.last())
    }
}

/// The end-of-central-directory record: entry counts, central directory
/// size and start offset, and the archive comment.
pub open spec fn eocd_bytes(count: u16, cd_size: u32, cd_offset: u32, comment: Seq<u8>) -> Seq<
    u8,
> {
    le32(EOCD_SIG) + le16(0) + le16(0) + le16(count) + le16(count) + le32(cd_size) + le32(
        cd_offset,
    ) + le16(comment.len() as u16) + comment
}

/// The complete archive image for a finished entry list and a comment:
/// every local section, then the central directory, then the
/// end-of-central-directory record describing it.
pub open spec fn archive_bytes(entries: Seq<EntryModel>, comment: Seq<u8>) -> Seq<u8> {
    locals_bytes(entries) + central_bytes(entries) + eocd_bytes(
        entries.len() as u16,
        central_bytes(entries).len() as u32,
        locals_bytes(entries).len() as u32,
        comment,
    )
}

/// Appending one entry extends the local sections by that entry's
/// section.
pub proof fn lemma_locals_push(entries: Seq<EntryModel>, e: EntryModel)
    ensures
        locals_bytes(entries.push(e)) == locals_bytes(entries) + entry_bytes(e),
{
    assert(entries.push(e).drop_last() =~= entries);
    assert(entries.push(e).last() == e);
}

/// Appending one entry extends the central directory by that entry's
/// record.
pub proof fn lemma_central_push(entries: Seq<EntryModel>, e: EntryModel)
    ensures
        central_bytes(entries.push(e)) == central_bytes(entries) + central_header_bytes(e),
{
    assert(entries.push(e).drop_last() =~= entries);
    assert(entries.push(e).last() == e);
}

/// A local header is 30 bytes plus the name, whatever the CRC and size
/// fields hold.
pub proof fn lemma_local_header_len(
    name: Seq<u8>,
    dos_time: u16,
    dos_date: u16,
    crc: u32,
    size: u32,
)
    ensures
        local_header_bytes(name, dos_time, dos_date, crc, size).len() == 30 + name.len(),
        local_prefix(dos_time, dos_date).len() == 14,
{
}

/// Law: an archive with zero entries is the minimal image, a single
/// end-of-central-directory record with entry count 0, an empty central
/// directory, and the comment.
pub proof fn lemma_empty_archive(comment: Seq<u8>)
    ensures
        archive_bytes(Seq::empty(), comment) == eocd_bytes(0, 0, 0, comment),
{
    assert(locals_bytes(Seq::<EntryModel>::empty()) =~= Seq::<u8>::empty());
    assert(central_bytes(Seq::<EntryModel>::empty()) =~= Seq::<u8>::empty());
    assert(archive_bytes(Seq::empty(), comment) =~= eocd_bytes(0, 0, 0, comment));
}

/// Appends a local file header to the sink.
pub fn append_local_header(
    out: &mut Vec<u8>,
    name: &Vec<u8>,
    dos_time: u16,
    dos_date: u16,
    crc: u32,
    size: u32,
)
    requires
        name@.len() <= 0xFFFF,
    ensures
        final(out)@ == old(out)@ + local_header_bytes(name@, dos_time, dos_date, crc, size),
{
    push_u32(out, LOCAL_HEADER_SIG);
    push_u16(out, VERSION_NEEDED);
    push_u16(out, 0);
    push_u16(out, 0);
    push_u16(out, dos_time);
    push_u16(out, dos_date);
    push_u32(out, crc);
    push_u32(out, size);
    push_u32(out, size);
    push_u16(out, name.len() as u16);
    push_u16(out, 0);
    push_bytes(out, name.as_slice());
    proof {
        assert(out@ =~= old(out)@ + local_header_bytes(name@, dos_time, dos_date, crc, size));
    }
}

/// Appends a central directory record to the sink.
pub fn append_central_header(
    out: &mut Vec<u8>,
    name: &Vec<u8>,
    dos_time: u16,
    dos_date: u16,
    crc: u32,
    size: u32,
    offset: u32,
)
    requires
        name@.len() <= 0xFFFF,
    ensures
        final(out)@ == old(out)@ + central_header_fields(
            name@,
            dos_time,
            dos_date,
            crc,
            size,
            offset,
        ),
{
    push_u32(out, CENTRAL_HEADER_SIG);
    push_u16(out, VERSION_NEEDED);
    push_u16(out, VERSION_NEEDED);
    push_u16(out, 0);
    push_u16(out, 0);
    push_u16(out, dos_time);
    push_u16(out, dos_date);
    push_u32(out, crc);
    push_u32(out, size);
    push_u32(out, size);
    push_u16(out, name.len() as u16);
    push_u16(out, 0);
    push_u16(out, 0);
    push_u16(out, 0);
    push_u16(out, 0);
    push_u32(out, 0);
    push_u32(out, offset);
    push_bytes(out, name.as_slice());
    proof {
        assert(out@ =~= old(out)@ + central_header_fields(
            name@,
            dos_time,
            dos_date,
            crc,
            size,
            offset,
        ));
    }
}

/// Appends an end-of-central-directory record to the sink.
pub fn append_eocd(out: &mut Vec<u8>, count: u16, cd_size: u32, cd_offset: u32, comment: &Vec<u8>)
    requires
        comment@.len() <= 0xFFFF,
    ensures
        final(out)@ == old(out)@ + eocd_bytes(count, cd_size, cd_offset, comment@),
{
    push_u32(out, EOCD_SIG);
    push_u16(out, 0);
    push_u16(out, 0);
    push_u16(out, count);
    push_u16(out, count);
    push_u32(out, cd_size);
    push_u32(out, cd_offset);
    push_u16(out, comment.len() as u16);
    push_bytes(out, comment.as_slice());
    proof {
        assert(out@ =~= old(out)@ + eocd_bytes(count, cd_size, cd_offset, comment@));
    }
}

/// Fills in the CRC and the two size fields of the local header that
/// starts at `at`, once the entry's final values are known.  Nothing
/// else in the sink changes.
pub fn patch_local_header(out: &mut Vec<u8>, at: usize, crc: u32, size: u32)
    requires
        at + 26 <= old(out)@.len(),
    ensures
        final(out)@ == old(out)@.subrange(0, at + 14) + le32(crc) + le32(size) + le32(size)
            + old(out)@.subrange(at + 26, old(out)@.len() as int),
{
    let n = out.len();
    proof {
        assert(at + 26 <= n);
    }
    set_u32_at(out, at + 14, crc);
    set_u32_at(out, at + 18, size);
    set_u32_at(out, at + 22, size);
    proof {
        assert(out@ =~= old(out)@.subrange(0, at + 14) + le32(crc) + le32(size) + le32(size)
            + old(out)@.subrange(at + 26, old(out)@.len() as int));
    }
}

} // verus!
