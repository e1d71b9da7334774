//! The archive writer state machine.
//!
//! A [`ZipWriter`] is either idle or has exactly one entry open.
//! Opening an entry writes its local header (with zeroed CRC and size
//! fields) at the current end of the output buffer; writing appends
//! payload bytes and folds them into the running checksum; closing an
//! entry (implicitly, on the next [`ZipWriter::start_file`] or on
//! [`ZipWriter::finish`]) fills the final CRC and sizes into the
//! header in place.  `finish` appends the central directory and the
//! end-of-central-directory record and returns the whole buffer, which
//! is proved to be exactly [`archive_bytes`] of the finished entries
//! and the comment.
//!
//! Policy choices, each stated in the contracts below: a `start_file`
//! while an entry is open first closes that entry with the bytes
//! written so far; duplicate entry names are allowed; a failed
//! `start_file` or `write` leaves the writer exactly as it was.

use crate::bytes::push_bytes;
use crate::crc32::{crc_fold, spec_crc32, Crc32};
use crate::headers::{
    append_central_header, append_eocd, append_local_header, archive_bytes, central_bytes,
    entry_bytes, lemma_central_push, lemma_local_header_len, lemma_locals_push,
    local_header_bytes, local_prefix, local_suffix, locals_bytes, patch_local_header, EntryModel,
};
use crate::timestamp::{
    encode, spec_dos_date, spec_dos_time, valid_calendar, CalendarTime, PackedTimestamp,
};
use crate::ZipError;
use vstd::prelude::*;
use vstd::string::StrSliceExecFns;
use vstd::utf8::encode_utf8;

verus! {

/// The packed form of the fixed default timestamp, 1980-01-01 00:00:00,
/// used when the caller supplies no last-modified time.
pub const DEFAULT_DOS_TIME: u16 = 0;

/// See [`DEFAULT_DOS_TIME`].
pub const DEFAULT_DOS_DATE: u16 = 0x21;

/// Per-entry options: an optional last-modified calendar timestamp.
#[derive(Clone, Copy, Debug)]
pub struct FileOptions {
    pub last_modified: Option<CalendarTime>,
}

/// Whether the options carry a timestamp that fails validation.
pub open spec fn spec_timestamp_bad(options: Option<FileOptions>) -> bool {
    match options {
        Some(o) => match o.last_modified {
            Some(c) => !valid_calendar(c),
            None => false,
        },
        None => false,
    }
}

/// The packed timestamp an entry is stamped with: the caller's value
/// when one is given, else the fixed default.
pub open spec fn spec_effective_timestamp(options: Option<FileOptions>) -> PackedTimestamp {
    match options {
        Some(o) => match o.last_modified {
            Some(c) => PackedTimestamp { dos_time: spec_dos_time(c), dos_date: spec_dos_date(c) },
            None => PackedTimestamp { dos_time: DEFAULT_DOS_TIME, dos_date: DEFAULT_DOS_DATE },
        },
        None => PackedTimestamp { dos_time: DEFAULT_DOS_TIME, dos_date: DEFAULT_DOS_DATE },
    }
}

/// Mathematical model of the entry currently open: its name bytes,
/// timestamp, the offset of its local header, and the payload bytes
/// streamed so far.
pub struct OpenModel {
    pub name: Seq<u8>,
    pub dos_time: u16,
    pub dos_date: u16,
    pub offset: u32,
    pub data: Seq<u8>,
}

/// The finished entry an open entry turns into when it closes: the
/// checksum and size are those of the bytes streamed so far.
pub open spec fn closed_entry(o: OpenModel) -> EntryModel {
    EntryModel {
        name: o.name,
        dos_time: o.dos_time,
        dos_date: o.dos_date,
        crc: spec_crc32(o.data),
        size: o.data.len() as u32,
        offset: o.offset,
        data: o.data,
    }
}

/// A freshly opened entry: no payload bytes yet.
pub open spec fn fresh_open(name: Seq<u8>, ts: PackedTimestamp, offset: u32) -> OpenModel {
    OpenModel { name: name, dos_time: ts.dos_time, dos_date: ts.dos_date, offset: offset, data: Seq::empty() }
}

/// An open entry extended by one written chunk.
pub open spec fn written_open(o: OpenModel, chunk: Seq<u8>) -> OpenModel {
    OpenModel { data: o.data + chunk, ..o }
}

/// Whether a chunk of `n` more bytes still fits the entry's 32-bit
/// size field.
pub open spec fn write_fits(o: Option<OpenModel>, n: nat) -> bool {
    match o {
        Some(om) => om.data.len() + n <= 0xFFFFFFFF,
        None => false,
    }
}

/// Well-formedness of the `i`-th finished entry of a model sequence:
/// name within the format limits, size and checksum those of its
/// payload, and its header offset the length of everything before it.
pub open spec fn entry_wf(models: Seq<EntryModel>, i: int) -> bool
    recommends
        0 <= i < models.len(),
{
    let e = models[i];
    &&& 1 <= e.name.len() <= 0xFFFF
    &&& e.data.len() <= 0xFFFFFFFF
    &&& e.size == e.data.len()
    &&& e.crc == spec_crc32(e.data)
    &&& e.offset == locals_bytes(models.subrange(0, i)).len()
}

/// One finished entry as the writer stores it.
struct EntryRecord {
    name: Vec<u8>,
    dos_time: u16,
    dos_date: u16,
    crc: u32,
    size: u32,
    offset: u32,
    data: Ghost<Seq<u8>>,
}

impl EntryRecord {
    /// The mathematical model of this record.
    spec fn model(self) -> EntryModel {
        EntryModel {
            name: self.name@,
            dos_time: self.dos_time,
            dos_date: self.dos_date,
            crc: self.crc,
            size: self.size,
            offset: self.offset,
            data: self.data@,
        }
    }
}

/// The entry currently being streamed.
struct OpenEntry {
    name: Vec<u8>,
    dos_time: u16,
    dos_date: u16,
    offset: u32,
    size: u32,
    crc: Crc32,
    data: Ghost<Seq<u8>>,
}

/// A streaming, in-memory archive writer.
pub struct ZipWriter {
    out: Vec<u8>,
    entries: Vec<EntryRecord>,
    open: Option<OpenEntry>,
    comment: Vec<u8>,
}

impl ZipWriter {
    /// The finished entries, in the order they were opened.
    pub closed spec fn entries_model(self) -> Seq<EntryModel> {
        self.entries@.map_values(|r: EntryRecord| r.model())
    }

    /// The entry currently open, if any.
    pub closed spec fn open_model(self) -> Option<OpenModel> {
        match self.open {
            Some(o) => Some(
                OpenModel {
                    name: o.name@,
                    dos_time: o.dos_time,
                    dos_date: o.dos_date,
                    offset: o.offset,
                    data: o.data@,
                },
            ),
            None => None,
        }
    }

    /// The stored archive comment bytes.
    pub closed spec fn comment_model(self) -> Seq<u8> {
        self.comment@
    }

    /// The entry list the archive will hold if it is finished now: the
    /// finished entries, plus the open entry closed with the bytes
    /// written so far.
    pub open spec fn final_entries(self) -> Seq<EntryModel> {
        match self.open_model() {
            Some(o) => self.entries_model().push(closed_entry(o)),
            None => self.entries_model(),
        }
    }

    /// The writer's invariant: counts and lengths within the format's
    /// fixed-width fields, every finished entry well formed, and the
    /// output buffer holding exactly the local sections emitted so far
    /// (with the open entry's header still showing the zero
    /// placeholders that closing will fill in).
    pub closed spec fn wf(self) -> bool {
        let models = self.entries_model();
        &&& self.comment@.len() <= 0xFFFF
        &&& models.len() + (if self.open is Some {
            1int
        } else {
            0int
        }) <= 0xFFFF
        &&& (forall|i: int| 0 <= i < models.len() ==> #[trigger] entry_wf(models, i))
        &&& match self.open {
            None => self.out@ == locals_bytes(models),
            Some(o) => {
                &&& 1 <= o.name@.len() <= 0xFFFF
                &&& o.size == o.data@.len()
                &&& o.data@.len() <= 0xFFFFFFFF
                &&& o.crc.folded() == crc_fold(0xFFFFFFFFu32, o.data@)
                &&& o.offset == locals_bytes(models).len()
                &&& self.out@ == locals_bytes(models) + local_header_bytes(
                    o.name@,
                    o.dos_time,
                    o.dos_date,
                    0,
                    0,
                ) + o.data@
            },
        }
    }

    /// Whether there is room to open one more entry: the entry count
    /// and the new header's offset must fit their fields.
    pub open spec fn start_room(self) -> bool {
        &&& self.final_entries().len() < 0xFFFF
        &&& locals_bytes(self.final_entries()).len() <= 0xFFFFFFFF
    }

    /// Whether the finished archive's directory fields would overflow.
    pub open spec fn finish_too_large(self) -> bool {
        ||| locals_bytes(self.final_entries()).len() > 0xFFFFFFFF
        ||| central_bytes(self.final_entries()).len() > 0xFFFFFFFF
    }

    /// A fresh, empty archive writer.
    pub fn new() -> (w: ZipWriter)
        ensures
            w.wf(),
            w.entries_model() == Seq::<EntryModel>::empty(),
            w.open_model() is None,
            w.comment_model() == Seq::<u8>::empty(),
    {
        let w = ZipWriter { out: Vec::new(), entries: Vec::new(), open: None, comment: Vec::new() };
        proof {
            assert(w.entries_model() =~= Seq::<EntryModel>::empty());
            assert(w.out@ =~= locals_bytes(w.entries_model()));
        }
        w
    }

    /// Closes the open entry: fills its final CRC and sizes into the
    /// local header in place and moves it to the finished list.
    fn close_open(&mut self)
        requires
            old(self).wf(),
            old(self).open_model() is Some,
        ensures
            final(self).wf(),
            final(self).open_model() is None,
            final(self).entries_model() == old(self).final_entries(),
            final(self).comment_model() == old(self).comment_model(),
    {
        let o_opt = self.open.take();
        match o_opt {
            Some(o) => {
                let crc = o.crc.finalize();
                let size = o.size;
                let off = o.offset as usize;
                let ghost models = old(self).entries_model();
                let ghost om = OpenModel {
                    name: o.name@,
                    dos_time: o.dos_time,
                    dos_date: o.dos_date,
                    offset: o.offset,
                    data: o.data@,
                };
                let ghost out0 = self.out@;
                proof {
                    lemma_local_header_len(o.name@, o.dos_time, o.dos_date, 0, 0);
                    assert(out0.len() == locals_bytes(models).len() + 30 + o.name@.len()
                        + o.data@.len());
                    assert(off + 26 <= out0.len());
                }
                patch_local_header(&mut self.out, off, crc, size);
                proof {
                    let pre = local_prefix(o.dos_time, o.dos_date);
                    let suf = local_suffix(o.name@);
                    assert(out0.subrange(0, off + 14) =~= locals_bytes(models) + pre);
                    assert(out0.subrange(off + 26, out0.len() as int) =~= suf + o.data@);
                    assert(self.out@ =~= locals_bytes(models) + local_header_bytes(
                        o.name@,
                        o.dos_time,
                        o.dos_date,
                        crc,
                        size,
                    ) + o.data@);
                }
                let rec = EntryRecord {
                    name: o.name,
                    dos_time: o.dos_time,
                    dos_date: o.dos_date,
                    crc: crc,
                    size: size,
                    offset: o.offset,
                    data: Ghost(o.data@),
                };
                proof {
                    assert(rec.model() == closed_entry(om));
                }
                self.entries.push(rec);
                proof {
                    let ce = closed_entry(om);
                    assert(self.entries_model() =~= models.push(ce));
                    lemma_locals_push(models, ce);
                    assert(entry_bytes(ce) =~= local_header_bytes(
                        om.name,
                        om.dos_time,
                        om.dos_date,
                        crc,
                        size,
                    ) + om.data);
                    assert(self.out@ =~= locals_bytes(models.push(ce)));
                    assert forall|i: int| 0 <= i < models.push(ce).len() implies #[trigger] entry_wf(
                        models.push(ce),
                        i,
                    ) by {
                        if i < models.len() {
                            assert(entry_wf(models, i));
                            assert(models.push(ce).subrange(0, i) =~= models.subrange(0, i));
                            assert(models.push(ce)[i] == models[i]);
                        } else {
                            assert(models.push(ce).subrange(0, i) =~= models);
                        }
                    }
                }
            },
            None => {
                proof {
                    assert(false);
                }
            },
        }
    }

    /// Opens a new entry in the archive; bytes written next go to it.
    ///
    /// If an entry is already open it is first closed with the bytes
    /// written so far.  The name must be non-empty and its UTF-8 form
    /// must fit the 16-bit length field; a timestamp in the options is
    /// validated.  On any error the writer is left exactly as it was,
    /// with any open entry still open.
    pub fn start_file(&mut self, name: &str, options: Option<FileOptions>) -> (r: Result<
        (),
        ZipError,
    >)
        requires
            old(self).wf(),
        ensures
            final(self).wf(),
            r == Ok::<(), ZipError>(()) <==> (!spec_timestamp_bad(options) && 1 <= encode_utf8(
                name@,
            ).len() <= 0xFFFF && old(self).start_room()),
            r == Err::<(), ZipError>(ZipError::InvalidTimestamp) <==> spec_timestamp_bad(options),
            r == Err::<(), ZipError>(ZipError::InvalidName) <==> (!spec_timestamp_bad(options)
                && encode_utf8(name@).len() == 0),
            r == Err::<(), ZipError>(ZipError::NameTooLong) <==> (!spec_timestamp_bad(options)
                && encode_utf8(name@).len() > 0xFFFF),
            r == Err::<(), ZipError>(ZipError::ArchiveTooLarge) <==> (!spec_timestamp_bad(options)
                && 1 <= encode_utf8(name@).len() <= 0xFFFF && !old(self).start_room()),
            r is Err ==> *final(self) == *old(self),
            r is Ok ==> final(self).entries_model() == old(self).final_entries(),
            r is Ok ==> final(self).open_model() == Some(
                fresh_open(
                    encode_utf8(name@),
                    spec_effective_timestamp(options),
                    locals_bytes(old(self).final_entries()).len() as u32,
                ),
            ),
            r is Ok ==> final(self).comment_model() == old(self).comment_model(),
    {
        let ts: PackedTimestamp = match options {
            Some(o) => match o.last_modified {
                Some(c) => match encode(c) {
                    Ok(p) => p,
                    Err(e) => {
                        return Err(e);
                    },
                },
                None => PackedTimestamp { dos_time: DEFAULT_DOS_TIME, dos_date: DEFAULT_DOS_DATE },
            },
            None => PackedTimestamp { dos_time: DEFAULT_DOS_TIME, dos_date: DEFAULT_DOS_DATE },
        };
        let nb: Vec<u8> = name.as_bytes_vec();
        if nb.len() == 0 {
            return Err(ZipError::InvalidName);
        }
        if nb.len() > 0xFFFF {
            return Err(ZipError::NameTooLong);
        }
        let n_entries = self.entries.len();
        let n_after: usize = if self.open.is_some() {
            n_entries + 1
        } else {
            n_entries
        };
        proof {
            assert(n_after == old(self).final_entries().len());
            if old(self).open is Some {
                let om = old(self).open_model().unwrap();
                lemma_locals_push(old(self).entries_model(), closed_entry(om));
                lemma_local_header_len(om.name, om.dos_time, om.dos_date, 0, 0);
                lemma_local_header_len(
                    om.name,
                    om.dos_time,
                    om.dos_date,
                    spec_crc32(om.data),
                    om.data.len() as u32,
                );
                assert(entry_bytes(closed_entry(om)).len() == 30 + om.name.len() + om.data.len());
            }
            assert(self.out@.len() == locals_bytes(old(self).final_entries()).len());
        }
        if n_after >= 0xFFFF {
            return Err(ZipError::ArchiveTooLarge);
        }
        if self.out.len() as u64 > 0xFFFF_FFFFu64 {
            return Err(ZipError::ArchiveTooLarge);
        }
        if self.open.is_some() {
            self.close_open();
        }
        let off = self.out.len();
        append_local_header(&mut self.out, &nb, ts.dos_time, ts.dos_date, 0, 0);
        self.open = Some(
            OpenEntry {
                name: nb,
                dos_time: ts.dos_time,
                dos_date: ts.dos_date,
                offset: off as u32,
                size: 0,
                crc: Crc32::new(),
                data: Ghost(Seq::empty()),
            },
        );
        proof {
            let models = old(self).final_entries();
            assert(self.entries_model() == models);
            assert(self.out@ =~= locals_bytes(models) + local_header_bytes(
                encode_utf8(name@),
                ts.dos_time,
                ts.dos_date,
                0,
                0,
            ) + Seq::<u8>::empty());
            assert(self.open_model() == Some(
                fresh_open(encode_utf8(name@), spec_effective_timestamp(options), off as u32),
            ));
        }
        Ok(())
    }

    /// Appends a chunk of payload bytes to the open entry, folding it
    /// into the running checksum and size.  The total behaviour does
    /// not depend on how the payload is split into chunks.  Fails with
    /// [`ZipError::NoActiveEntry`] when no entry is open, and with
    /// [`ZipError::ArchiveTooLarge`] when the entry's total would no
    /// longer fit its 32-bit size field; on error the writer is left
    /// exactly as it was.
    pub fn write(&mut self, data: &[u8]) -> (r: Result<(), ZipError>)
        requires
            old(self).wf(),
        ensures
            final(self).wf(),
            r == Ok::<(), ZipError>(()) <==> write_fits(old(self).open_model(), data@.len()),
            r == Err::<(), ZipError>(ZipError::NoActiveEntry) <==> old(self).open_model() is None,
            r == Err::<(), ZipError>(ZipError::ArchiveTooLarge) <==> (old(self).open_model()
                is Some && !write_fits(old(self).open_model(), data@.len())),
            r is Err ==> *final(self) == *old(self),
            r is Ok ==> final(self).open_model() == Some(
                written_open(old(self).open_model().unwrap(), data@),
            ),
            r is Ok ==> final(self).entries_model() == old(self).entries_model(),
            r is Ok ==> final(self).comment_model() == old(self).comment_model(),
    {
        let o_opt = self.open.take();
        match o_opt {
            None => Err(ZipError::NoActiveEntry),
            Some(mut o) => {
                if data.len() as u64 > 0xFFFF_FFFFu64 - o.size as u64 {
                    self.open = Some(o);
                    return Err(ZipError::ArchiveTooLarge);
                }
                let ghost data0 = o.data@;
                o.crc.update(data);
                o.size = o.size + data.len() as u32;
                o.data = Ghost(data0 + data@);
                push_bytes(&mut self.out, data);
                self.open = Some(o);
                proof {
                    crate::crc32::lemma_crc_fold_concat(0xFFFFFFFFu32, data0, data@);
                    let models = old(self).entries_model();
                    let om0 = old(self).open_model().unwrap();
                    assert(self.out@ =~= locals_bytes(models) + local_header_bytes(
                        om0.name,
                        om0.dos_time,
                        om0.dos_date,
                        0,
                        0,
                    ) + (data0 + data@));
                }
                Ok(())
            },
        }
    }

    /// Stores the archive comment, replacing any previous one; it is
    /// written out by [`ZipWriter::finish`].  The comment is kept as
    /// UTF-8 bytes, truncated to the 16-bit length field of the
    /// end-of-central-directory record.
    pub fn set_comment(&mut self, comment: String)
        requires
            old(self).wf(),
        ensures
            final(self).wf(),
            final(self).comment_model() == (if encode_utf8(comment@).len() <= 0xFFFF {
                encode_utf8(comment@)
            } else {
                encode_utf8(comment@).subrange(0, 0xFFFF)
            }),
            final(self).entries_model() == old(self).entries_model(),
            final(self).open_model() == old(self).open_model(),
    {
        let mut cb: Vec<u8> = comment.as_str().as_bytes_vec();
        if cb.len() > 0xFFFF {
            cb.truncate(0xFFFF);
        }
        self.comment = cb;
    }

    /// Seals the archive: closes any open entry, appends one central
    /// directory record per entry in the order the entries were
    /// opened, then the end-of-central-directory record with the entry
    /// count, the directory's size and start offset, and the comment.
    /// Returns the complete archive image and consumes the writer.
    pub fn finish(self) -> (r: Result<Vec<u8>, ZipError>)
        requires
            self.wf(),
        ensures
            r is Ok <==> !self.finish_too_large(),
            r is Err ==> r == Err::<Vec<u8>, ZipError>(ZipError::ArchiveTooLarge),
            r matches Ok(v) ==> v@ == archive_bytes(self.final_entries(), self.comment_model()),
    {
        let ghost fe = self.final_entries();
        let ghost cm = self.comment_model();
        let mut z = self;
        if z.open.is_some() {
            z.close_open();
        }
        proof {
            assert(z.entries_model() == fe);
            assert(z.out@ == locals_bytes(fe));
        }
        if z.out.len() as u64 > 0xFFFF_FFFFu64 {
            return Err(ZipError::ArchiveTooLarge);
        }
        let cd_start = z.out.len();
        let n = z.entries.len();
        let ghost evec = z.entries@;
        let mut i: usize = 0;
        while i < n
            invariant
                0 <= i <= n,
                n == z.entries@.len(),
                z.entries@ == evec,
                z.comment@ == cm,
                cm.len() <= 0xFFFF,
                n <= 0xFFFF,
                fe == z.entries_model(),
                forall|j: int| 0 <= j < fe.len() ==> #[trigger] entry_wf(fe, j),
                z.out@ == locals_bytes(fe) + central_bytes(fe.subrange(0, i as int)),
            decreases n - i,
        {
            proof {
                assert(entry_wf(fe, i as int));
                assert(fe[i as int] == z.entries@[i as int].model());
            }
            append_central_header(
                &mut z.out,
                &z.entries[i].name,
                z.entries[i].dos_time,
                z.entries[i].dos_date,
                z.entries[i].crc,
                z.entries[i].size,
                z.entries[i].offset,
            );
            proof {
                assert(fe.subrange(0, i + 1) =~= fe.subrange(0, i as int).push(fe[i as int]));
                lemma_central_push(fe.subrange(0, i as int), fe[i as int]);
                assert(z.out@ =~= locals_bytes(fe) + central_bytes(fe.subrange(0, i + 1)));
            }
            i = i + 1;
        }
        proof {
            assert(fe.subrange(0, n as int) =~= fe);
        }
        let cd_end = z.out.len();
        let cd_size = cd_end - cd_start;
        if cd_size as u64 > 0xFFFF_FFFFu64 {
            return Err(ZipError::ArchiveTooLarge);
        }
        let count = n as u16;
        append_eocd(&mut z.out, count, cd_size as u32, cd_start as u32, &z.comment);
        proof {
            assert(z.out@ =~= archive_bytes(fe, cm));
        }
        Ok(z.out)
    }
}

/// The local sections of a prefix of the entry list are a prefix of
/// the whole local-sections image.
pub proof fn lemma_locals_prefix(entries: Seq<EntryModel>, k: int)
    requires
        0 <= k <= entries.len(),
    ensures
        locals_bytes(entries.subrange(0, k)).len() <= locals_bytes(entries).len(),
        locals_bytes(entries).subrange(
            0,
            locals_bytes(entries.subrange(0, k)).len() as int,
        ) == locals_bytes(entries.subrange(0, k)),
    decreases entries.len() - k,
{
    if k == entries.len() {
        assert(entries.subrange(0, k) =~= entries);
        assert(locals_bytes(entries).subrange(0, locals_bytes(entries).len() as int) =~=
            locals_bytes(entries));
    } else {
        lemma_locals_prefix(entries, k + 1);
        assert(entries.subrange(0, k + 1) =~= entries.subrange(0, k).push(entries[k]));
        lemma_locals_push(entries.subrange(0, k), entries[k]);
        let all = locals_bytes(entries);
        let upto_k = locals_bytes(entries.subrange(0, k));
        let upto_k1 = locals_bytes(entries.subrange(0, k + 1));
        assert(upto_k1.subrange(0, upto_k.len() as int) =~= upto_k);
        assert(all.subrange(0, upto_k.len() as int) =~= upto_k1.subrange(
            0,
            upto_k.len() as int,
        ));
    }
}

/// Law: in an archive image, every entry's local section, its header
/// followed by exactly the payload bytes that were written to it,
/// stands at the offset its central directory record declares.  This
/// is what lets a reader that follows the directory extract each of
/// the N entries and get the original bytes back.
pub proof fn lemma_entry_at_offset(entries: Seq<EntryModel>, i: int)
    requires
        0 <= i < entries.len(),
        forall|j: int| 0 <= j < entries.len() ==> #[trigger] entry_wf(entries, j),
    ensures
        entries[i].offset + entry_bytes(entries[i]).len() <= locals_bytes(entries).len(),
        locals_bytes(entries).subrange(
            entries[i].offset as int,
            entries[i].offset + entry_bytes(entries[i]).len(),
        ) == entry_bytes(entries[i]),
{
    lemma_locals_prefix(entries, i);
    lemma_locals_prefix(entries, i + 1);
    assert(entries.subrange(0, i + 1) =~= entries.subrange(0, i).push(entries[i]));
    lemma_locals_push(entries.subrange(0, i), entries[i]);
    let all = locals_bytes(entries);
    let before = locals_bytes(entries.subrange(0, i));
    let upto = locals_bytes(entries.subrange(0, i + 1));
    let section = entry_bytes(entries[i]);
    assert(entry_wf(entries, i));
    assert(upto.subrange(before.len() as int, upto.len() as int) =~= section);
    assert(all.subrange(before.len() as int, upto.len() as int) =~= upto.subrange(
        before.len() as int,
        upto.len() as int,
    ));
}

/// Law: writing a payload in two chunks leaves the open entry exactly
/// as one combined write does, so the archive an entry ends up in does
/// not depend on how its payload was split into chunks.
pub proof fn lemma_write_chunks(o: OpenModel, a: Seq<u8>, b: Seq<u8>)
    ensures
        written_open(written_open(o, a), b) == written_open(o, a + b),
{
    assert((o.data + a) + b =~= o.data + (a + b));
}

/// Law: an entry closed after zero total bytes written has size 0 and
/// the checksum of empty input.
pub proof fn lemma_empty_entry(o: OpenModel)
    requires
        o.data.len() == 0,
    ensures
        closed_entry(o).size == 0,
        closed_entry(o).crc == spec_crc32(Seq::empty()),
{
    assert(o.data =~= Seq::<u8>::empty());
}

} // verus!


