//! A spool store over an append-only byte log, such as a file.
//!
//! The log itself only appends and syncs bytes. The store keeps the intact frames that
//! it knows to be in the log and decides what may still be appended: nothing after
//! damage, and nothing after a write whose end is unknown.
use crate::buffers::held_slice;
use crate::frame::{encodable, written_frame, FrameView, SpoolFrame, SpoolFrameError};
use crate::storage::{
    encoded_frame_bytes, read_log, InMemorySpoolStorage, ScanTail, SpoolError, SpoolStorage,
    ValidFrame,
};
use vstd::prelude::*;

verus! {

/// A handle to an append-only byte log. A failure is described by its text; how much of
/// the bytes was written is then unknown.
pub trait ByteLog: Sized {
    /// Appends the bytes.
    fn append(&self, bytes: &[u8]) -> Result<(), String>;

    /// Makes what was appended durable.
    fn sync(&self) -> Result<(), String>;
}

/// The reason that an answer gives for a failure, if it is one.
pub open spec fn failure_in(answer: Result<(), String>) -> Option<String> {
    match answer {
        Ok(_) => None,
        Err(reason) => Some(reason),
    }
}

/// Whether a log that is handed these bytes may fail in this way, or take them.
pub open spec fn answers_append<L: ByteLog>(
    log: L,
    bytes: Seq<u8>,
    failure: Option<String>,
) -> bool {
    exists|slice: &[u8], answer: Result<(), String>|
        #![trigger call_ensures(L::append, (&log, slice), answer)]
        slice@ == bytes && call_ensures(L::append, (&log, slice), answer) && failure_in(answer)
            == failure
}

/// Whether a log that is asked to sync may fail in this way, or sync.
pub open spec fn answers_sync<L: ByteLog>(log: L, failure: Option<String>) -> bool {
    exists|answer: Result<(), String>|
        #![trigger call_ensures(L::sync, (&log,), answer)]
        call_ensures(L::sync, (&log,), answer) && failure_in(answer) == failure
}

/// What is said once a write has failed.
pub const EARLIER_FAILURE: &'static str = "an earlier write to the log failed";

/// The errors that a store may give: those of its log, that an earlier write failed, that
/// the log is damaged, and that a frame cannot be written down.
pub open spec fn file_failures<L: ByteLog>(log: L, tail: ScanTail) -> Set<SpoolError> {
    Set::new(
        |error: SpoolError|
            match error {
                SpoolError::Io(reason) => {
                    ||| reason@ == EARLIER_FAILURE@
                    ||| exists|bytes: Seq<u8>| #[trigger] answers_append(log, bytes, Some(reason))
                    ||| answers_sync(log, Some(reason))
                },
                SpoolError::Frame(error) => error == SpoolFrameError::Oversized,
                SpoolError::RecoveryRequired => tail != ScanTail::Clean,
                _ => false,
            },
    )
}

/// Hands bytes to a log.
fn hand<L: ByteLog>(log: &L, bytes: &[u8]) -> (answer: Result<(), String>)
    ensures
        answers_append(*log, bytes@, failure_in(answer)),
{
    let answer = log.append(bytes);
    assert(call_ensures(L::append, (log, bytes), answer));
    answer
}

/// Asks a log to sync.
fn ask_sync<L: ByteLog>(log: &L) -> (answer: Result<(), String>)
    ensures
        answers_sync(*log, failure_in(answer)),
{
    let answer = log.sync();
    assert(call_ensures(L::sync, (log,), answer));
    answer
}

/// A spool store over a byte log.
#[derive(Debug)]
pub struct FileSpoolStorage<L> {
    log: L,
    intact: InMemorySpoolStorage,
    tail: ScanTail,
    synced: usize,
    failed: bool,
}

impl<L: ByteLog> FileSpoolStorage<L> {
    /// Whether a write ended in failure.
    pub closed spec fn failed(&self) -> bool {
        self.failed
    }

    /// The log under the store.
    pub closed spec fn under(&self) -> L {
        self.log
    }

    /// Opens a store over a log that contains these bytes.
    pub fn open(log: L, contents: &[u8]) -> (storage: Self)
        ensures
            storage.log() == read_log(contents@).0,
            storage.tail() == read_log(contents@).1,
            storage.synced() == storage.log().len(),
            storage.under() == log,
            !storage.failed(),
    {
        let (intact, tail) = InMemorySpoolStorage::from_log(contents);
        let synced: usize = intact.frame_count();
        FileSpoolStorage { log, intact, tail, synced, failed: false }
    }
}

impl<L: ByteLog> SpoolStorage for FileSpoolStorage<L> {
    closed spec fn log(&self) -> Seq<FrameView> {
        self.intact.log()
    }

    closed spec fn bytes_used(&self) -> nat {
        self.intact.bytes_used()
    }

    closed spec fn tail(&self) -> ScanTail {
        self.tail
    }

    closed spec fn synced(&self) -> nat {
        self.synced as nat
    }

    open spec fn steady(&self) -> bool {
        false
    }

    open spec fn failures(&self) -> Set<SpoolError> {
        file_failures(self.under(), self.tail())
    }

    /// Appends a frame after the intact ones. Damage must be recovered first, and once a
    /// write has failed no other is tried.
    fn append_frame(&mut self, frame: &SpoolFrame) -> (appended: Result<(), SpoolError>)
        ensures
            final(self).under() == old(self).under(),
            final(self).synced() == old(self).synced(),
            final(self).log() == (if appended is Ok {
                old(self).log().push(frame@)
            } else {
                old(self).log()
            }),
            if old(self).tail() != ScanTail::Clean {
                appended == Err::<(), _>(SpoolError::RecoveryRequired) && final(self).failed()
                    == old(self).failed()
            } else if old(self).failed() {
                &&& appended matches Err(SpoolError::Io(reason))
                &&& reason@ == EARLIER_FAILURE@
                &&& final(self).failed()
            } else if !encodable(frame@) {
                appended == Err::<(), _>(SpoolError::Frame(SpoolFrameError::Oversized))
                    && !final(self).failed()
            } else {
                match appended {
                    Ok(_) => answers_append(old(self).under(), written_frame(frame@), None)
                        && !final(self).failed(),
                    Err(SpoolError::Io(reason)) => answers_append(
                        old(self).under(),
                        written_frame(frame@),
                        Some(reason),
                    ) && final(self).failed(),
                    Err(_) => false,
                }
            },
    {
        if self.tail != ScanTail::Clean {
            return Err(SpoolError::RecoveryRequired);
        }
        if self.failed {
            return Err(SpoolError::Io(EARLIER_FAILURE.to_owned()));
        }
        match encoded_frame_bytes(frame) {
            Err(error) => Err(error),
            Ok(encoded) => match hand(&self.log, held_slice(&encoded)) {
                Err(reason) => {
                    self.failed = true;
                    Err(SpoolError::Io(reason))
                },
                Ok(()) => self.intact.append_frame(frame),
            },
        }
    }

    fn sync(&mut self) -> (synced: Result<(), SpoolError>)
        ensures
            final(self).under() == old(self).under(),
            final(self).synced() == (if synced is Ok {
                old(self).log().len()
            } else {
                old(self).synced()
            }),
            if old(self).failed() {
                &&& synced matches Err(SpoolError::Io(reason))
                &&& reason@ == EARLIER_FAILURE@
                &&& final(self).failed()
            } else {
                match synced {
                    Ok(_) => answers_sync(old(self).under(), None) && !final(self).failed(),
                    Err(SpoolError::Io(reason)) => answers_sync(old(self).under(), Some(reason))
                        && final(self).failed(),
                    Err(_) => false,
                }
            },
    {
        if self.failed {
            return Err(SpoolError::Io(EARLIER_FAILURE.to_owned()));
        }
        match ask_sync(&self.log) {
            Err(reason) => {
                self.failed = true;
                Err(SpoolError::Io(reason))
            },
            Ok(()) => {
                self.synced = self.intact.frame_count();
                Ok(())
            },
        }
    }

    fn scan_valid_frames(&self) -> (scanned: Result<(Vec<ValidFrame>, ScanTail), SpoolError>)
        ensures
            scanned is Ok,
    {
        match self.intact.scan_valid_frames() {
            Ok((frames, _)) => Ok((frames, self.tail)),
            Err(error) => Err(error),
        }
    }

    fn used_bytes(&self) -> (used: usize) {
        self.intact.used_bytes()
    }

    fn frame_count(&self) -> (count: usize) {
        self.intact.frame_count()
    }
}

} // verus!
