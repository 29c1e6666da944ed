//! Durable frame logs: what a spool store keeps and gives back.
use crate::buffers::{held, held_slice};
use crate::frame::{
    decode_frame, encodable, encode_frame, read_frame, written_frame, FrameView, SpoolFrame,
    SpoolFrameError,
};
use crate::frame_laws::{law_decode_ignores_what_follows, law_decode_undoes_encode};
use vstd::prelude::*;
use vstd::slice::slice_to_vec;

verus! {

/// Why a cell stopped admitting.
#[derive(Debug, Clone, Copy, PartialEq, Eq, Structural)]
pub enum SpoolPoisonCause {
    /// A durable submission could not be forwarded.
    ForwardFailed,
    /// A forwarded submission got no receipt.
    ReceiptFailed,
    /// A received receipt could not be recorded.
    ProgressFailed,
}

/// Failures at the spool boundary.
#[derive(Debug, PartialEq, Eq)]
pub enum SpoolError {
    /// The store failed; the text is the store's own.
    Io(String),
    /// A frame could not be encoded.
    Frame(SpoolFrameError),
    /// A byte, frame or completion limit would be exceeded.
    CapacityExceeded,
    /// The identity is already known.
    DuplicateIdentity,
    /// The store holds history that must be recovered first.
    RecoveryRequired,
    /// Admission is blocked for the rest of the process lifetime.
    Poisoned {
        /// Why.
        cause: SpoolPoisonCause,
    },
    /// A receipt was received and its progress could not be recorded.
    ProgressFailed,
    /// The completion was abandoned.
    Unavailable,
    /// Forwarding failed; the text is the driver's own.
    Forward(String),
}

/// Limits of one spool cell.
#[derive(Debug, Clone, Copy, PartialEq, Eq, Structural)]
pub struct SpoolConfig {
    pub max_frame_bytes: usize,
    pub max_wal_bytes: usize,
    pub max_frames: usize,
    pub max_inflight_completions: usize,
}

/// A frame that a scan found intact.
#[derive(Debug, PartialEq, Eq)]
pub struct ValidFrame {
    pub frame: SpoolFrame,
}

/// What follows the last intact frame of a log.
#[derive(Debug, Clone, Copy, PartialEq, Eq, Structural)]
pub enum ScanTail {
    /// Nothing.
    Clean,
    /// Bytes that are no frame.
    Damaged(SpoolFrameError),
}

/// Scanned frames by their views.
pub open spec fn frames_view(frames: Seq<ValidFrame>) -> Seq<FrameView> {
    frames.map_values(|valid: ValidFrame| valid.frame@)
}

/// An append-only log of frames.
///
/// An append or a sync that fails leaves the log with or without the frame.
pub trait SpoolStorage: Sized {
    /// The frames that a scan gives back.
    spec fn log(&self) -> Seq<FrameView>;

    /// How many bytes the log takes.
    spec fn bytes_used(&self) -> nat;

    /// What follows the frames.
    spec fn tail(&self) -> ScanTail;

    /// How many of the frames, from the first, were there when the log was opened or have
    /// been synced since.
    spec fn synced(&self) -> nat;

    /// Whether the store fails at nothing but a frame that cannot be written down.
    spec fn steady(&self) -> bool;

    /// The errors that the store may give.
    spec fn failures(&self) -> Set<SpoolError>;

    /// Appends one frame.
    fn append_frame(&mut self, frame: &SpoolFrame) -> (appended: Result<(), SpoolError>)
        ensures
            match appended {
                Ok(()) => final(self).log() == old(self).log().push(frame@)
                    && final(self).bytes_used() == old(self).bytes_used() + written_frame(
                    frame@,
                ).len(),
                Err(_) => {
                    ||| final(self).log() == old(self).log() && final(self).bytes_used() == old(
                        self,
                    ).bytes_used()
                    ||| final(self).log() == old(self).log().push(frame@)
                        && final(self).bytes_used() == old(self).bytes_used() + written_frame(
                        frame@,
                    ).len()
                },
            },
            final(self).tail() == old(self).tail(),
            old(self).synced() <= old(self).log().len() ==> {
                &&& old(self).synced() <= final(self).synced()
                &&& final(self).synced() <= final(self).log().len()
            },
            old(self).steady() ==> {
                &&& final(self).steady()
                &&& appended is Ok <==> encodable(frame@)
                &&& appended matches Err(error) ==> error == SpoolError::Frame(
                    SpoolFrameError::Oversized,
                ) && final(self).log() == old(self).log()
            },
            final(self).failures() == old(self).failures(),
            appended matches Err(error) ==> old(self).failures().contains(error),
    ;

    /// Makes what was appended durable.
    fn sync(&mut self) -> (synced: Result<(), SpoolError>)
        ensures
            final(self).log() == old(self).log(),
            final(self).bytes_used() == old(self).bytes_used(),
            final(self).tail() == old(self).tail(),
            synced is Ok ==> final(self).synced() == final(self).log().len(),
            old(self).synced() <= old(self).log().len() ==> {
                &&& old(self).synced() <= final(self).synced()
                &&& final(self).synced() <= final(self).log().len()
            },
            old(self).steady() ==> final(self).steady() && synced is Ok,
            final(self).failures() == old(self).failures(),
            synced matches Err(error) ==> old(self).failures().contains(error),
    ;

    /// Reads the log back.
    fn scan_valid_frames(&self) -> (scanned: Result<(Vec<ValidFrame>, ScanTail), SpoolError>)
        ensures
            scanned matches Ok((frames, tail)) ==> frames_view(frames@) == self.log() && tail
                == self.tail(),
            self.steady() ==> scanned is Ok,
            scanned matches Err(error) ==> self.failures().contains(error),
    ;

    /// How many bytes the log takes.
    fn used_bytes(&self) -> (used: usize)
        ensures
            used == self.bytes_used(),
    ;

    /// How many frames the log holds.
    fn frame_count(&self) -> (count: usize)
        ensures
            count == self.log().len(),
    ;
}

/// A frame takes some of the bytes, and no more than there are.
pub proof fn lemma_frame_takes_bytes(bytes: Seq<u8>)
    ensures
        read_frame(bytes) matches Ok((frame, consumed)) ==> 14 <= consumed <= bytes.len(),
{
    reveal(read_frame);
}

/// The frames at the start of the bytes, and what comes after them.
pub open spec fn read_log(bytes: Seq<u8>) -> (Seq<FrameView>, ScanTail)
    decreases bytes.len(),
{
    if bytes.len() == 0 {
        (Seq::empty(), ScanTail::Clean)
    } else {
        match read_frame(bytes) {
            Err(error) => (Seq::empty(), ScanTail::Damaged(error)),
            Ok((frame, consumed)) => {
                proof {
                    lemma_frame_takes_bytes(bytes);
                }
                let (frames, tail) = read_log(bytes.skip(consumed as int));
                (seq![frame] + frames, tail)
            },
        }
    }
}

/// A log that ends cleanly is read the same when more is appended to it.
pub proof fn law_log_reads_concatenate(bytes: Seq<u8>, more: Seq<u8>)
    requires
        read_log(bytes).1 == ScanTail::Clean,
    ensures
        read_log(bytes + more).0 == read_log(bytes).0 + read_log(more).0,
        read_log(bytes + more).1 == read_log(more).1,
    decreases bytes.len(),
{
    if bytes.len() == 0 {
        assert(bytes + more =~= more);
        assert(read_log(bytes).0 + read_log(more).0 =~= read_log(more).0);
    } else {
        match read_frame(bytes) {
            Err(_) => {},
            Ok((frame, consumed)) => {
                law_decode_ignores_what_follows(bytes, more);
                lemma_frame_takes_bytes(bytes);
                let rest = bytes.skip(consumed as int);
                law_log_reads_concatenate(rest, more);
                assert((bytes + more).skip(consumed as int) =~= rest + more);
                assert(seq![frame] + (read_log(rest).0 + read_log(more).0) =~= (seq![frame]
                    + read_log(rest).0) + read_log(more).0);
            },
        }
    }
}

/// A log that ends cleanly, with a written frame after it, reads as the log and the frame.
pub proof fn law_appended_frame_is_read_back(bytes: Seq<u8>, frame: FrameView)
    requires
        read_log(bytes).1 == ScanTail::Clean,
        frame.canonical(),
        encodable(frame),
    ensures
        read_log(bytes + written_frame(frame)) == (read_log(bytes).0.push(frame), ScanTail::Clean),
{
    let written = written_frame(frame);
    law_decode_undoes_encode(frame, Seq::empty());
    assert(written + Seq::<u8>::empty() =~= written);
    assert(written.skip(written.len() as int) =~= Seq::<u8>::empty());
    reveal_with_fuel(read_log, 2);
    assert(read_log(written).0 =~= seq![frame]);
    law_log_reads_concatenate(bytes, written);
    assert(read_log(bytes).0 + seq![frame] =~= read_log(bytes).0.push(frame));
}

/// The bytes of the first frame of a log are a log of that frame alone.
proof fn lemma_first_frame_alone(bytes: Seq<u8>)
    requires
        read_frame(bytes) is Ok,
    ensures
        ({
            let (frame, consumed) = read_frame(bytes)->Ok_0;
            read_log(bytes.take(consumed as int)) == (seq![frame], ScanTail::Clean)
        }),
{
    let (frame, consumed) = read_frame(bytes)->Ok_0;
    let alone = bytes.take(consumed as int);
    lemma_frame_takes_bytes(bytes);
    assert(read_frame(alone) == read_frame(bytes)) by {
        reveal(read_frame);
        assert(alone.take(4) =~= bytes.take(4));
        assert(alone.subrange(4, consumed - 4) =~= bytes.subrange(4, consumed - 4));
        assert(alone.subrange(consumed - 4, consumed as int) =~= bytes.subrange(
            consumed - 4,
            consumed as int,
        ));
    }
    assert(alone.skip(consumed as int) =~= Seq::<u8>::empty());
    assert(read_log(alone.skip(consumed as int)).0.len() == 0);
    assert(read_log(alone).0 =~= seq![frame]);
}

/// Reads every intact frame from the start of the bytes.
pub fn scan_log(bytes: &[u8]) -> (scanned: (Vec<ValidFrame>, ScanTail))
    ensures
        (frames_view(scanned.0@), scanned.1) == read_log(bytes@),
{
    let mut frames: Vec<ValidFrame> = Vec::new();
    let mut rest = bytes;
    assert(frames_view(frames@) + read_log(bytes@).0 =~= read_log(bytes@).0);
    while rest.len() > 0
        invariant
            frames_view(frames@) + read_log(rest@).0 == read_log(bytes@).0,
            read_log(rest@).1 == read_log(bytes@).1,
        decreases rest@.len(),
    {
        let ghost before = rest@;
        let ghost done = frames_view(frames@);
        proof {
            lemma_frame_takes_bytes(rest@);
        }
        match decode_frame(rest) {
            Err(error) => {
                assert(frames_view(frames@) + Seq::<FrameView>::empty() =~= frames_view(frames@));
                return (frames, ScanTail::Damaged(error));
            },
            Ok((frame, consumed)) => {
                let ghost found = frame@;
                frames.push(ValidFrame { frame });
                rest = &rest[consumed..rest.len()];
                proof {
                    assert(frames_view(frames@) =~= done.push(found));
                    assert(rest@ == before.skip(consumed as int));
                    assert(done + (seq![found] + read_log(rest@).0) =~= done.push(found)
                        + read_log(rest@).0);
                }
            },
        }
    }
    assert(frames_view(frames@) + Seq::<FrameView>::empty() =~= frames_view(frames@));
    (frames, ScanTail::Clean)
}

/// The encoded form of a frame.
pub fn encoded_frame_bytes(frame: &SpoolFrame) -> (encoded: Result<bytes::Bytes, SpoolError>)
    ensures
        match encoded {
            Ok(bytes) => {
                &&& encodable(frame@)
                &&& frame@.canonical()
                &&& held(bytes) == written_frame(frame@)
            },
            Err(error) => !encodable(frame@) && error == SpoolError::Frame(
                SpoolFrameError::Oversized,
            ),
        },
{
    match encode_frame(frame) {
        Ok(bytes) => Ok(bytes),
        Err(error) => Err(SpoolError::Frame(error)),
    }
}

/// A log kept in memory, in its written form.
#[derive(Debug, PartialEq, Eq)]
pub struct InMemorySpoolStorage {
    bytes: Vec<u8>,
    frames: usize,
}

impl InMemorySpoolStorage {
    #[verifier::type_invariant]
    spec fn intact(self) -> bool {
        &&& read_log(self.bytes@).1 == ScanTail::Clean
        &&& read_log(self.bytes@).0.len() == self.frames
        &&& self.frames * 14 <= self.bytes@.len()
    }

    /// The written log.
    pub closed spec fn written(&self) -> Seq<u8> {
        self.bytes@
    }

    /// An empty log.
    pub fn new() -> (storage: Self)
        ensures
            storage.log() == Seq::<FrameView>::empty(),
            storage.bytes_used() == 0,
    {
        InMemorySpoolStorage { bytes: Vec::new(), frames: 0 }
    }

    /// The intact part of a written log, and what comes after it.
    pub fn from_log(contents: &[u8]) -> (read: (Self, ScanTail))
        ensures
            (read.0.log(), read.1) == read_log(contents@),
    {
        let mut at: usize = 0;
        let mut frames: usize = 0;
        assert(contents@.take(0) =~= Seq::<u8>::empty());
        while at < contents.len()
            invariant
                at <= contents@.len(),
                read_log(contents@.take(at as int)).1 == ScanTail::Clean,
                read_log(contents@.take(at as int)).0.len() == frames,
                frames * 14 <= at,
            decreases contents@.len() - at,
        {
            let rest = &contents[at..contents.len()];
            assert(rest@ =~= contents@.skip(at as int));
            assert(contents@.take(at as int) + rest@ =~= contents@);
            proof {
                lemma_frame_takes_bytes(rest@);
            }
            match decode_frame(rest) {
                Err(error) => {
                    proof {
                        law_log_reads_concatenate(contents@.take(at as int), rest@);
                        assert(read_log(contents@.take(at as int)).0 + Seq::<FrameView>::empty()
                            =~= read_log(contents@.take(at as int)).0);
                    }
                    let bytes = slice_to_vec(&contents[0..at]);
                    assert(bytes@ =~= contents@.take(at as int));
                    return (InMemorySpoolStorage { bytes, frames }, ScanTail::Damaged(error));
                },
                Ok((_, consumed)) => {
                    proof {
                        lemma_first_frame_alone(rest@);
                        law_log_reads_concatenate(
                            contents@.take(at as int),
                            rest@.take(consumed as int),
                        );
                        assert(contents@.take(at as int) + rest@.take(consumed as int)
                            =~= contents@.take(at + consumed));
                    }
                    at += consumed;
                    frames += 1;
                },
            }
        }
        assert(contents@.take(at as int) =~= contents@);
        let bytes = slice_to_vec(contents);
        (InMemorySpoolStorage { bytes, frames }, ScanTail::Clean)
    }
}

impl Default for InMemorySpoolStorage {
    fn default() -> (storage: Self)
        ensures
            storage.log() == Seq::<FrameView>::empty(),
            storage.bytes_used() == 0,
    {
        InMemorySpoolStorage::new()
    }
}

impl SpoolStorage for InMemorySpoolStorage {
    closed spec fn log(&self) -> Seq<FrameView> {
        read_log(self.bytes@).0
    }

    closed spec fn bytes_used(&self) -> nat {
        self.bytes@.len()
    }

    open spec fn tail(&self) -> ScanTail {
        ScanTail::Clean
    }

    open spec fn synced(&self) -> nat {
        self.log().len()
    }

    open spec fn steady(&self) -> bool {
        true
    }

    open spec fn failures(&self) -> Set<SpoolError> {
        set![SpoolError::Frame(SpoolFrameError::Oversized)]
    }

    fn append_frame(&mut self, frame: &SpoolFrame) -> (appended: Result<(), SpoolError>)
        ensures
            appended is Ok <==> encodable(frame@),
            appended is Err ==> final(self).log() == old(self).log(),
            appended matches Err(error) ==> error == SpoolError::Frame(SpoolFrameError::Oversized),
    {
        proof {
            use_type_invariant(&*self);
        }
        match encoded_frame_bytes(frame) {
            Err(error) => Err(error),
            Ok(encoded) => {
                let ghost before = self.bytes@;
                let mut taken = InMemorySpoolStorage::new();
                std::mem::swap(self, &mut taken);
                let frames: usize = taken.frames;
                let mut bytes: Vec<u8> = taken.bytes;
                let length: usize = bytes.len();
                assert(frames < usize::MAX);
                bytes.extend_from_slice(held_slice(&encoded));
                proof {
                    law_appended_frame_is_read_back(before, frame@);
                    assert(bytes@ =~= before + written_frame(frame@));
                }
                *self = InMemorySpoolStorage { bytes, frames: frames + 1 };
                Ok(())
            },
        }
    }

    fn sync(&mut self) -> (synced: Result<(), SpoolError>)
        ensures
            synced is Ok,
            *final(self) == *old(self),
    {
        Ok(())
    }

    fn scan_valid_frames(&self) -> (scanned: Result<(Vec<ValidFrame>, ScanTail), SpoolError>)
        ensures
            scanned is Ok,
    {
        proof {
            use_type_invariant(self);
        }
        let (frames, tail) = scan_log(self.bytes.as_slice());
        Ok((frames, tail))
    }

    fn used_bytes(&self) -> (used: usize) {
        self.bytes.len()
    }

    fn frame_count(&self) -> (count: usize) {
        proof {
            use_type_invariant(self);
        }
        self.frames
    }
}

} // verus!
