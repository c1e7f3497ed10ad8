//! The NPZ container: named NPY payloads bundled into one in-memory zip
//! archive. The container is a thin state machine — open until `close`,
//! then closed for good — around an archive writer from the `zip` crate;
//! each call into that crate stands behind a trusted wrapper whose
//! contract records the entry names and payload bytes handed over.

use vstd::prelude::*;
use std::io::Write;
use vstd::string::StringExecFns;
use crate::writer::NumpyWriter;

verus! {

/// The archive writer from the `zip` crate over its in-memory buffer,
/// held opaquely: Verus sees nothing inside, and every use of it stands
/// in a trusted wrapper.
#[verifier::external_body]
struct ZipBuffer {
    writer: zip::ZipWriter<std::io::Cursor<Vec<u8>>>,
}

/// Why a container operation failed.
#[derive(Clone, Copy, PartialEq, Eq, Structural, Debug)]
pub enum NpzError {
    /// A write or close was attempted after the container was closed.
    Closed,
    /// The underlying archive writer reported an error.
    Archive,
}

/// The conventional suffix appended to every entry name.
pub open spec fn npy_suffix() -> Seq<char> {
    seq!['.', 'n', 'p', 'y']
}

/// Derives the conventional entry name `<name>.npy`.
fn name_with_npy_suffix(name: &str) -> (r: String)
    ensures
        r@ == name@ + npy_suffix(),
{
    let mut r = String::from_str(name);
    r.append(".npy");
    proof {
        reveal_strlit(".npy");
        assert((".npy")@ =~= npy_suffix());
    }
    r
}

/// The bytes of the finished zip archive, as a function of the entries
/// written: with the stored (uncompressed) method and the crate's constant
/// default metadata, zip::ZipWriter::finish produces them from the entry
/// names and payload bytes alone.
pub uninterp spec fn zip_archive_of(entries: Seq<(Seq<char>, Seq<u8>)>) -> Seq<u8>;

/// An open output archive wrapping zero or more named NPY payloads in a
/// zip container, built in memory. Created open and empty; each `write`
/// appends one named entry; `close` finalizes the archive and hands back
/// its bytes, after which every further call fails with `Closed`. If the
/// container is dropped without an explicit `close`, the archive writer
/// it owns attempts the same finalization itself, discarding any error.
pub struct NpzWriter {
    writer: ZipBuffer,
    closed: bool,
    entries: Ghost<Seq<(Seq<char>, Seq<u8>)>>,
    live: Ghost<bool>,
}

/// Relies on zip::ZipWriter::new: a fresh archive writer over an empty
/// in-memory buffer, holding no entries.
#[verifier::external_body]
fn zip_writer_new() -> ZipBuffer {
    ZipBuffer { writer: zip::ZipWriter::new(std::io::Cursor::new(Vec::new())) }
}

impl NpzWriter {
    /// The entries written so far: each name with its payload bytes.
    pub closed spec fn entries_view(&self) -> Seq<(Seq<char>, Seq<u8>)> {
        self.entries@
    }

    /// Whether the container has been closed.
    pub closed spec fn is_closed(&self) -> bool {
        self.closed
    }

    /// Whether the underlying archive writer is still live: it starts out
    /// live and stays so until an archive operation fails. While live and
    /// open, writes of modest payloads and the final close are owed to
    /// succeed.
    pub closed spec fn is_live(&self) -> bool {
        self.live@
    }

    /// Relies on zip::ZipWriter::start_file: on success a new, empty entry
    /// named `name` is begun and subsequent writes go to it. On a live
    /// writer over the in-memory buffer, with the stored method and no
    /// encryption, it has no failing path, so success is promised then.
    #[verifier::external_body]
    fn zip_start_file(&mut self, name: &str) -> (r: Result<(), NpzError>)
        ensures
            final(self).closed == old(self).closed,
            old(self).live@ ==> r is Ok,
            (match r {
                Ok(_) => final(self).entries@ == old(self).entries@.push((
                    name@,
                    Seq::<u8>::empty(),
                )) && final(self).live@ == old(self).live@,
                Err(e) => e == NpzError::Archive && !final(self).live@,
            }),
    {
        match self.writer.writer.start_file(name, zip::write::FileOptions::default()) {
            Ok(()) => Ok(()),
            Err(_) => Err(NpzError::Archive),
        }
    }

    /// Relies on the std::io::Write impl of zip::ZipWriter (write_all): on
    /// success all of `data` is appended to the entry started last. On a
    /// live writer its only failing path is the guard against entries of
    /// more than 0xffff_ffff bytes, so below that bound success is
    /// promised.
    #[verifier::external_body]
    fn zip_write_bytes(&mut self, data: &Vec<u8>) -> (r: Result<(), NpzError>)
        requires
            old(self).entries@.len() > 0,
        ensures
            final(self).closed == old(self).closed,
            old(self).live@ && old(self).entries@.last().1.len() + data@.len() <= 0xffff_ffff
                ==> r is Ok,
            (match r {
                Ok(_) => final(self).entries@ == old(self).entries@.update(
                    old(self).entries@.len() - 1,
                    (
                        old(self).entries@.last().0,
                        old(self).entries@.last().1 + data@,
                    ),
                ) && final(self).live@ == old(self).live@,
                Err(e) => e == NpzError::Archive && !final(self).live@,
            }),
    {
        match self.writer.writer.write_all(data.as_slice()) {
            Ok(()) => Ok(()),
            Err(_) => Err(NpzError::Archive),
        }
    }

    /// Relies on zip::ZipWriter::finish: on success the entry started last
    /// is completed, the central directory is written, and the underlying
    /// buffer is handed back: one complete zip archive, a function of the
    /// recorded entries alone (`zip_archive_of`). On a live writer over
    /// the in-memory buffer it has no failing path, so success is
    /// promised then.
    #[verifier::external_body]
    fn zip_finish(&mut self) -> (r: Result<Vec<u8>, NpzError>)
        ensures
            final(self).entries@ == old(self).entries@,
            final(self).closed == old(self).closed,
            old(self).live@ ==> r is Ok,
            (match r {
                Ok(b) => !old(self).live@ || b@ == zip_archive_of(old(self).entries@),
                Err(e) => e == NpzError::Archive,
            }),
    {
        match self.writer.writer.finish() {
            Ok(cursor) => Ok(cursor.into_inner()),
            Err(_) => Err(NpzError::Archive),
        }
    }

    /// Opens a fresh container: in the open state, live, with no entries.
    pub fn new() -> (w: NpzWriter)
        ensures
            w.entries_view() == Seq::<(Seq<char>, Seq<u8>)>::empty(),
            !w.is_closed(),
            w.is_live(),
    {
        NpzWriter {
            writer: zip_writer_new(),
            closed: false,
            entries: Ghost(Seq::empty()),
            live: Ghost(true),
        }
    }

    /// Appends one named NPY payload as entry `<name>.npy`. After `close`
    /// this fails with `Closed` and records nothing. On a live, open
    /// container a payload under the archive's 0xffff_ffff-byte entry
    /// bound is owed to succeed; on success the entry record grows by
    /// exactly that name and payload. An archive error is surfaced as
    /// `Archive`, the container stays open, and its output is
    /// unrecoverable.
    pub fn write<T: NumpyWriter>(&mut self, name: &str, t: T) -> (r: Result<(), NpzError>)
        requires
            t.npy_permitted(),
        ensures
            final(self).is_closed() == old(self).is_closed(),
            r == Err::<(), NpzError>(NpzError::Closed) <==> old(self).is_closed(),
            old(self).is_closed() ==> final(self).entries_view() == old(self).entries_view()
                && final(self).is_live() == old(self).is_live(),
            old(self).is_live() && !old(self).is_closed() && t.npy_bytes_spec().len()
                <= 0xffff_ffff ==> r is Ok,
            r is Ok ==> final(self).entries_view() == old(self).entries_view().push(
                (name@ + npy_suffix(), t.npy_bytes_spec()),
            ) && final(self).is_live() == old(self).is_live(),
            r == Err::<(), NpzError>(NpzError::Archive) ==> !final(self).is_live(),
    {
        if self.closed {
            return Err(NpzError::Closed);
        }
        let full_name = name_with_npy_suffix(name);
        match self.zip_start_file(full_name.as_str()) {
            Ok(()) => {},
            Err(e) => {
                return Err(e);
            },
        }
        let mut buf: Vec<u8> = Vec::new();
        t.write_npy(&mut buf);
        match self.zip_write_bytes(&buf) {
            Ok(()) => {},
            Err(e) => {
                return Err(e);
            },
        }
        proof {
            assert(Seq::<u8>::empty() + buf@ =~= buf@);
            assert(self.entries@ =~~= old(self).entries_view().push((
                name@ + npy_suffix(),
                t.npy_bytes_spec(),
            )));
        }
        Ok(())
    }

    /// Finalizes the archive and hands back the complete zip bytes: on a
    /// live, open container it is owed to succeed, and the bytes are the
    /// finished archive of exactly the recorded entries. The container is
    /// closed for good afterwards — even if finalization itself failed —
    /// so every further `write` or `close` fails with `Closed` and
    /// changes nothing.
    pub fn close(&mut self) -> (r: Result<Vec<u8>, NpzError>)
        ensures
            final(self).entries_view() == old(self).entries_view(),
            final(self).is_closed(),
            r == Err::<Vec<u8>, NpzError>(NpzError::Closed) <==> old(self).is_closed(),
            old(self).is_live() && !old(self).is_closed() ==> r is Ok,
            (match r {
                Ok(b) => !old(self).is_live() || b@ == zip_archive_of(old(self).entries_view()),
                Err(_) => true,
            }),
    {
        if self.closed {
            return Err(NpzError::Closed);
        }
        let r = self.zip_finish();
        self.closed = true;
        r
    }
}

} // verus!
