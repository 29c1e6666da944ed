//! Spool cell: reserve, write and sync, forward, record progress, give the receipt.
//!
//! The cell decides and accounts. Duplicate identity, lifecycle reservation,
//! completion slot, and append and sync happen in one step
//! ([`SpoolCell::admit_wal_and_queue`]); forwarding and waiting for a receipt
//! happen outside it, and [`SpoolCell::complete_work`] takes in how they ended.
use crate::buffers::held_slice;
use crate::continuity::Receipt;
use crate::frame::{
    encodable, lemma_progress_encodable, written_frame, FrameView, IdentityView, ProgressIdentity, SpoolFrame,
    SpoolFrameError,
};
use crate::ids::{same_identity, JournalId};
use crate::model::{Submission, SubmissionView};
use crate::storage::{
    encoded_frame_bytes, ScanTail, SpoolConfig, SpoolError, SpoolPoisonCause, SpoolStorage,
};
use vstd::prelude::*;

verus! {

/// What a scan found when the cell was opened.
#[derive(Debug, Clone, Copy, PartialEq, Eq, Structural)]
pub struct RecoveryReport {
    /// Intact frames.
    pub frames: usize,
    /// What follows them.
    pub tail: ScanTail,
}

impl RecoveryReport {
    /// Whether the report says anything but a clean, empty store.
    pub open spec fn requires_recovery(self) -> bool {
        self.frames != 0 || self.tail != ScanTail::Clean
    }

    /// Whether submits are forbidden until the history is recovered.
    pub fn recovery_required(&self) -> (required: bool)
        ensures
            required == self.requires_recovery(),
    {
        self.frames != 0 || self.tail != ScanTail::Clean
    }
}

/// Serving, or refusing for recovery or poison.
#[derive(Debug, Clone, Copy, PartialEq, Eq, Structural)]
pub enum SpoolCellState {
    /// Fresh empty spool; submits allowed.
    Serving,
    /// Terminal for this process lifetime; submissions refused.
    Poisoned {
        /// Why admission is blocked.
        cause: SpoolPoisonCause,
    },
    /// Non-empty or corrupt history; submits forbidden.
    RecoveryRequired(RecoveryReport),
}

/// The state in which a cell opens: serving only over a clean and empty store.
pub fn opening_state(report: RecoveryReport) -> (state: SpoolCellState)
    ensures
        state == (if report.frames == 0 && report.tail == ScanTail::Clean {
            SpoolCellState::Serving
        } else {
            SpoolCellState::RecoveryRequired(report)
        }),
{
    if report.recovery_required() {
        SpoolCellState::RecoveryRequired(report)
    } else {
        SpoolCellState::Serving
    }
}

/// A set of identities.
#[derive(Debug, PartialEq, Eq)]
struct KnownIdentities {
    items: Vec<ProgressIdentity>,
}

spec fn known_set(items: Seq<ProgressIdentity>) -> Set<IdentityView> {
    Set::new(|identity: IdentityView| exists|i: int|
        0 <= i < items.len() && (#[trigger] items[i])@ == identity)
}

fn same_progress(left: &ProgressIdentity, right: &ProgressIdentity) -> (same: bool)
    ensures
        same == (left@ == right@),
{
    same_identity(&left.journal_id.bytes, &right.journal_id.bytes) && same_identity(
        &left.producer_id.bytes,
        &right.producer_id.bytes,
    ) && left.producer_epoch == right.producer_epoch && left.sequence == right.sequence
}

impl KnownIdentities {
    spec fn view(&self) -> Set<IdentityView> {
        known_set(self.items@)
    }

    fn new() -> (known: Self)
        ensures
            known@ == Set::<IdentityView>::empty(),
    {
        let known = KnownIdentities { items: Vec::new() };
        assert(known@ =~= Set::<IdentityView>::empty());
        known
    }

    fn contains(&self, identity: &ProgressIdentity) -> (found: bool)
        ensures
            found == self@.contains(identity@),
    {
        let mut at: usize = 0;
        while at < self.items.len()
            invariant
                at <= self.items@.len(),
                forall|i: int| 0 <= i < at ==> (#[trigger] self.items@[i])@ != identity@,
            decreases self.items@.len() - at,
        {
            if same_progress(&self.items[at], identity) {
                assert(self.items@[at as int]@ == identity@);
                return true;
            }
            at += 1;
        }
        false
    }

    fn insert(&mut self, identity: ProgressIdentity)
        ensures
            final(self)@ == old(self)@.insert(identity@),
    {
        let ghost before = self.items@;
        self.items.push(identity);
        proof {
            assert forall|other: IdentityView| #[trigger] known_set(self.items@).contains(other)
                == known_set(before).insert(identity@).contains(other) by {
                if known_set(before).contains(other) {
                    let i = choose|i: int|
                        0 <= i < before.len() && (#[trigger] before[i])@ == other;
                    assert(self.items@[i]@ == other);
                }
                assert(self.items@[before.len() as int]@ == identity@);
                if known_set(self.items@).contains(other) && other != identity@ {
                    let i = choose|i: int|
                        0 <= i < self.items@.len() && (#[trigger] self.items@[i])@ == other;
                    assert(before[i]@ == other);
                }
            }
            assert(self@ =~= known_set(before).insert(identity@));
        }
    }

    fn remove(&mut self, identity: &ProgressIdentity)
        ensures
            final(self)@ == old(self)@.remove(identity@),
    {
        let ghost before = self.items@;
        let mut kept: Vec<ProgressIdentity> = Vec::new();
        let mut at: usize = 0;
        while at < self.items.len()
            invariant
                at <= self.items@.len(),
                self.items@ == before,
                forall|i: int| 0 <= i < kept@.len() ==> (#[trigger] kept@[i])@ != identity@,
                forall|i: int| 0 <= i < kept@.len() ==> before.contains(#[trigger] kept@[i]),
                forall|i: int|
                    0 <= i < at && (#[trigger] before[i])@ != identity@ ==> kept@.contains(
                        before[i],
                    ),
            decreases self.items@.len() - at,
        {
            let item = self.items[at];
            let ghost kept_before = kept@;
            assert(before[at as int] == item);
            if !same_progress(&item, identity) {
                kept.push(item);
                assert(kept@[kept_before.len() as int] == item);
            }
            assert forall|i: int| 0 <= i < at + 1 && (#[trigger] before[i])@
                != identity@ implies kept@.contains(before[i]) by {
                if i < at {
                    let found = kept_before.index_of(before[i]);
                    assert(kept_before[found] == before[i]);
                    assert(kept@[found] == before[i]);
                }
            }
            at += 1;
        }
        self.items = kept;
        proof {
            assert forall|other: IdentityView| #[trigger] known_set(self.items@).contains(other)
                == known_set(before).remove(identity@).contains(other) by {
                if known_set(self.items@).contains(other) {
                    let i = choose|i: int|
                        0 <= i < self.items@.len() && (#[trigger] self.items@[i])@ == other;
                    let found = before.index_of(self.items@[i]);
                    assert(before[found] == self.items@[i]);
                }
                if known_set(before).contains(other) && other != identity@ {
                    let i = choose|i: int|
                        0 <= i < before.len() && (#[trigger] before[i])@ == other;
                    let found = self.items@.index_of(before[i]);
                    assert(self.items@[found] == before[i]);
                }
            }
            assert(self@ =~= known_set(before).remove(identity@));
        }
    }
}

/// What the completer takes in for one admitted submission.
#[derive(Debug, PartialEq, Eq)]
pub enum DriverDelivery {
    /// Admission was abandoned before a durable frame; its bytes are already released.
    Canceled,
    /// A durable frame exists; forwarding failed.
    ForwardFailed(SpoolError),
    /// A durable frame exists; it was forwarded and no receipt came. The text is the driver's.
    ReceiptFailed(String),
    /// A durable frame exists and its receipt came.
    Receipt(Receipt),
}

/// Work that was admitted and is to be completed once.
#[derive(Debug, Clone, Copy, PartialEq, Eq)]
pub struct CompletionWork {
    /// Identity of the submission.
    pub identity: ProgressIdentity,
    /// Bytes reserved for its progress frame.
    pub progress_bytes: usize,
}

/// How an admission ended.
#[derive(Debug, PartialEq, Eq)]
pub enum Admission {
    /// Nothing was queued and nothing was written.
    Refused(SpoolError),
    /// The work was queued and the frame is not known to be durable; the work
    /// is to be completed as [`DriverDelivery::Canceled`].
    Canceled {
        /// The queued work.
        work: CompletionWork,
        /// Why the frame is not durable.
        error: SpoolError,
    },
    /// The frame is durable and the work is queued; the submission can be forwarded.
    Durable(CompletionWork),
}

/// What a cell is, apart from its representation.
pub struct CellView {
    /// Journal that the cell serves.
    pub journal: Seq<u8>,
    /// Limits.
    pub config: SpoolConfig,
    /// Whether the cell admits.
    pub state: SpoolCellState,
    /// Identities that are durable here.
    pub known: Set<IdentityView>,
    /// Bytes set aside for frames still to be written.
    pub reserved_bytes: nat,
    /// Frames still to be written.
    pub reserved_frames: nat,
    /// Completions between admission and the end of their work.
    pub inflight: nat,
    /// Frames in the store.
    pub log: Seq<FrameView>,
    /// Bytes that the store takes.
    pub bytes_used: nat,
    /// How many frames of the store, from the first, are synced.
    pub synced: nat,
    /// What follows the frames in the store.
    pub tail: ScanTail,
    /// The errors that the store may give.
    pub failures: Set<SpoolError>,
}

/// Sum that stops at the largest machine number.
pub open spec fn capped_sum(left: nat, right: nat) -> nat {
    if left + right > usize::MAX {
        usize::MAX as nat
    } else {
        left + right
    }
}

/// Difference that stops at zero.
pub open spec fn floored_difference(left: nat, right: nat) -> nat {
    if left < right {
        0
    } else {
        (left - right) as nat
    }
}

/// The state after a failure of this cause: only a serving cell is poisoned.
pub open spec fn poisoned(state: SpoolCellState, cause: SpoolPoisonCause) -> SpoolCellState {
    match state {
        SpoolCellState::Serving => SpoolCellState::Poisoned { cause },
        _ => state,
    }
}

/// The frame of a submission in a journal.
pub open spec fn submission_frame(journal: Seq<u8>, submission: SubmissionView) -> FrameView {
    FrameView::Submission { journal_id: journal, submission }
}

impl CellView {
    /// Whether the store may give this error.
    pub open spec fn fails_with(self, error: SpoolError) -> bool {
        self.failures.contains(error)
    }

    /// The cell with `bytes` and `frames` more set aside.
    pub open spec fn reserving(self, bytes: nat, frames: nat) -> CellView {
        CellView {
            reserved_bytes: capped_sum(self.reserved_bytes, bytes),
            reserved_frames: capped_sum(self.reserved_frames, frames),
            ..self
        }
    }

    /// The cell with `bytes` and `frames` less set aside.
    pub open spec fn releasing(self, bytes: nat, frames: nat) -> CellView {
        CellView {
            reserved_bytes: floored_difference(self.reserved_bytes, bytes),
            reserved_frames: floored_difference(self.reserved_frames, frames),
            ..self
        }
    }

    /// Whether `bytes` and `frames` more stay within the limits.
    pub open spec fn has_room(self, bytes: nat, frames: nat) -> bool {
        &&& capped_sum(capped_sum(self.bytes_used, self.reserved_bytes), bytes)
            <= self.config.max_wal_bytes
        &&& capped_sum(capped_sum(self.log.len(), self.reserved_frames), frames)
            <= self.config.max_frames
    }

    /// The cell with one completion less in flight.
    pub open spec fn completing(self) -> CellView {
        CellView { inflight: floored_difference(self.inflight, 1), ..self }
    }

    /// The cell after a failure of this cause.
    pub open spec fn poisoning(self, cause: SpoolPoisonCause) -> CellView {
        CellView { state: poisoned(self.state, cause), ..self }
    }

    /// The cell with one more frame in its store.
    pub open spec fn with_frame(self, frame: FrameView) -> CellView {
        CellView {
            log: self.log.push(frame),
            bytes_used: self.bytes_used + written_frame(frame).len(),
            ..self
        }
    }

    /// The cell with this many frames of its store synced.
    pub open spec fn with_synced(self, synced: nat) -> CellView {
        CellView { synced, ..self }
    }

    /// The cell with one more frame in its store, and the whole store synced.
    pub open spec fn stored(self, frame: FrameView) -> CellView {
        self.with_frame(frame).with_synced(self.log.len() + 1)
    }

    /// The identity of a submission in this cell's journal.
    pub open spec fn identity_of(self, submission: SubmissionView) -> IdentityView {
        submission_frame(self.journal, submission).identity()
    }

    /// Bytes of a submission's frame and of its progress frame.
    pub open spec fn lifecycle_bytes(self, submission: SubmissionView) -> nat {
        written_frame(submission_frame(self.journal, submission)).len() + written_frame(
            FrameView::Progress(self.identity_of(submission)),
        ).len()
    }

    /// Why a submission is refused before anything is set aside for it.
    pub open spec fn refusal(self, submission: SubmissionView) -> Option<SpoolError> {
        let frame = submission_frame(self.journal, submission);
        let progress = FrameView::Progress(self.identity_of(submission));
        match self.state {
            SpoolCellState::RecoveryRequired(_) => Some(SpoolError::RecoveryRequired),
            SpoolCellState::Poisoned { cause } => Some(SpoolError::Poisoned { cause }),
            SpoolCellState::Serving => if !encodable(frame) {
                Some(SpoolError::Frame(SpoolFrameError::Oversized))
            } else if written_frame(frame).len() > self.config.max_frame_bytes || written_frame(
                progress,
            ).len() > self.config.max_frame_bytes {
                Some(SpoolError::CapacityExceeded)
            } else if self.known.contains(self.identity_of(submission)) {
                Some(SpoolError::DuplicateIdentity)
            } else if !self.has_room(self.lifecycle_bytes(submission), 2) {
                Some(SpoolError::CapacityExceeded)
            } else {
                None
            },
        }
    }

    /// The cell after a submission's frame became durable: the reservation of its
    /// progress frame stays.
    pub open spec fn admitted(self, submission: SubmissionView) -> CellView {
        let frame = submission_frame(self.journal, submission);
        CellView {
            known: self.known.insert(self.identity_of(submission)),
            inflight: capped_sum(self.inflight, 1),
            ..self.reserving(self.lifecycle_bytes(submission), 2).stored(frame).releasing(
                written_frame(frame).len(),
                1,
            )
        }
    }

    /// The cell after a submission was queued and its frame was not made durable.
    pub open spec fn canceled(self, submission: SubmissionView) -> CellView {
        CellView {
            inflight: capped_sum(self.inflight, 1),
            ..self.reserving(self.lifecycle_bytes(submission), 2).releasing(
                self.lifecycle_bytes(submission),
                2,
            )
        }
    }
}

/// Admission and completion of submissions over one store.
#[derive(Debug)]
pub struct SpoolCell<S: SpoolStorage> {
    journal_id: JournalId,
    config: SpoolConfig,
    storage: S,
    state: SpoolCellState,
    known: KnownIdentities,
    reserved_bytes: usize,
    reserved_frames: usize,
    inflight_completions: usize,
}

impl<S: SpoolStorage> SpoolCell<S> {
    /// Whether the store fails at nothing but a frame that cannot be written down.
    pub closed spec fn steady(&self) -> bool {
        self.storage.steady()
    }
}

impl<S: SpoolStorage> View for SpoolCell<S> {
    type V = CellView;

    closed spec fn view(&self) -> CellView {
        CellView {
            journal: self.journal_id@,
            config: self.config,
            state: self.state,
            known: self.known@,
            reserved_bytes: self.reserved_bytes as nat,
            reserved_frames: self.reserved_frames as nat,
            inflight: self.inflight_completions as nat,
            log: self.storage.log(),
            bytes_used: self.storage.bytes_used(),
            synced: self.storage.synced(),
            tail: self.storage.tail(),
            failures: self.storage.failures(),
        }
    }
}

/// Whether a submission is refused because it carries nothing; `reason` is what
/// the driver says of one.
pub fn refuse_empty(submission: &Submission, reason: String) -> (refused: Option<SpoolError>)
    ensures
        refused == (if submission@.records.len() == 0 {
            Some(SpoolError::Forward(reason))
        } else {
            None
        }),
{
    if submission.records.len() == 0 {
        Some(SpoolError::Forward(reason))
    } else {
        None
    }
}

/// What is reported where a receipt came and the store failed to record it.
pub open spec fn progress_failed(error: SpoolError) -> SpoolError {
    if error is Io || error is CapacityExceeded {
        SpoolError::ProgressFailed
    } else {
        error
    }
}

/// What is reported where a receipt came and the store failed to record it.
pub fn progress_failure(error: SpoolError) -> (reported: SpoolError)
    ensures
        reported == progress_failed(error),
{
    match error {
        SpoolError::Io(_) => SpoolError::ProgressFailed,
        SpoolError::CapacityExceeded => SpoolError::ProgressFailed,
        other => other,
    }
}

/// What the caller is told of an outcome: nothing, where the completion was abandoned.
pub open spec fn told(outcome: Result<Receipt, SpoolError>) -> Option<Result<Receipt, SpoolError>> {
    if outcome is Err && outcome->Err_0 is Unavailable {
        None
    } else {
        Some(outcome)
    }
}

/// What the caller is told of an outcome: nothing, where the completion was abandoned.
pub fn reply_for(outcome: Result<Receipt, SpoolError>) -> (reply: Option<
    Result<Receipt, SpoolError>,
>)
    ensures
        reply == told(outcome),
{
    match outcome {
        Err(SpoolError::Unavailable) => None,
        other => Some(other),
    }
}

impl<S: SpoolStorage> SpoolCell<S> {
    /// Scans the store; the cell serves only over a clean and empty one.
    ///
    /// The limits may have been refused before, which is then passed on; the only other
    /// failure is that the store cannot be scanned.
    pub fn open(
        journal_id: JournalId,
        config: SpoolConfig,
        storage: S,
        limits: Result<(), SpoolError>,
    ) -> (opened: Result<Self, SpoolError>)
        ensures
            limits matches Err(error) ==> opened is Err && opened->Err_0 == error,
            limits is Ok ==> (opened matches Err(error) ==> storage.failures().contains(error)),
            opened matches Ok(cell) ==> {
                &&& cell@.journal == journal_id@
                &&& cell@.config == config
                &&& cell@.log == storage.log()
                &&& cell@.bytes_used == storage.bytes_used()
                &&& cell@.synced == storage.synced()
                &&& cell@.tail == storage.tail()
                &&& cell@.failures == storage.failures()
                &&& cell@.known == Set::<IdentityView>::empty()
                &&& cell@.reserved_bytes == 0
                &&& cell@.reserved_frames == 0
                &&& cell@.inflight == 0
                &&& match cell@.state {
                    SpoolCellState::Serving => storage.log().len() == 0 && storage.tail()
                        == ScanTail::Clean,
                    SpoolCellState::RecoveryRequired(report) => report.frames
                        == storage.log().len() && report.tail == storage.tail()
                        && report.requires_recovery(),
                    SpoolCellState::Poisoned { .. } => false,
                }
            },
            opened matches Ok(cell) ==> cell.steady() == storage.steady(),
            storage.steady() && limits is Ok ==> opened is Ok,
    {
        match limits {
            Err(error) => {
                return Err(error);
            },
            Ok(()) => {},
        }
        let (frames, tail) = match storage.scan_valid_frames() {
            Err(error) => {
                return Err(error);
            },
            Ok(scanned) => scanned,
        };
        let state = opening_state(RecoveryReport { frames: frames.len(), tail });
        Ok(
            SpoolCell {
                journal_id,
                config,
                storage,
                state,
                known: KnownIdentities::new(),
                reserved_bytes: 0,
                reserved_frames: 0,
                inflight_completions: 0,
            },
        )
    }

    /// Snapshot of cell state.
    pub fn state(&self) -> (state: SpoolCellState)
        ensures
            state == self@.state,
    {
        self.state
    }

    /// Recovery report when recovery is required.
    pub fn recovery_report(&self) -> (report: Option<RecoveryReport>)
        ensures
            report == (match self@.state {
                SpoolCellState::RecoveryRequired(report) => Some(report),
                _ => None,
            }),
    {
        match self.state {
            SpoolCellState::RecoveryRequired(report) => Some(report),
            _ => None,
        }
    }

    /// True when submits are allowed.
    pub fn is_serving(&self) -> (serving: bool)
        ensures
            serving == (self@.state == SpoolCellState::Serving),
    {
        match self.state {
            SpoolCellState::Serving => true,
            _ => false,
        }
    }

    fn ensure_serving(&self) -> (serving: Result<(), SpoolError>)
        ensures
            match serving {
                Ok(()) => self@.state == SpoolCellState::Serving,
                Err(error) => match self@.state {
                    SpoolCellState::Serving => false,
                    SpoolCellState::RecoveryRequired(_) => error == SpoolError::RecoveryRequired,
                    SpoolCellState::Poisoned { cause } => error == (SpoolError::Poisoned { cause }),
                },
            },
    {
        match self.state {
            SpoolCellState::Serving => Ok(()),
            SpoolCellState::RecoveryRequired(_) => Err(SpoolError::RecoveryRequired),
            SpoolCellState::Poisoned { cause } => Err(SpoolError::Poisoned { cause }),
        }
    }

    fn reserve(&mut self, bytes: usize, frames: usize) -> (reserved: Result<(), SpoolError>)
        ensures
            match reserved {
                Ok(()) => old(self)@.has_room(bytes as nat, frames as nat) && final(self)@ == old(
                    self,
                )@.reserving(bytes as nat, frames as nat),
                Err(error) => {
                    &&& !old(self)@.has_room(bytes as nat, frames as nat)
                    &&& error == SpoolError::CapacityExceeded
                    &&& final(self)@ == old(self)@
                },
            },
            final(self).steady() == old(self).steady(),
    {
        let next_bytes: usize = self.storage.used_bytes().saturating_add(
            self.reserved_bytes,
        ).saturating_add(bytes);
        let next_frames: usize = self.storage.frame_count().saturating_add(
            self.reserved_frames,
        ).saturating_add(frames);
        if next_bytes > self.config.max_wal_bytes || next_frames > self.config.max_frames {
            return Err(SpoolError::CapacityExceeded);
        }
        self.reserved_bytes = self.reserved_bytes.saturating_add(bytes);
        self.reserved_frames = self.reserved_frames.saturating_add(frames);
        Ok(())
    }

    fn release(&mut self, bytes: usize, frames: usize)
        ensures
            final(self)@ == old(self)@.releasing(bytes as nat, frames as nat),
            final(self).steady() == old(self).steady(),
    {
        self.reserved_bytes = self.reserved_bytes.saturating_sub(bytes);
        self.reserved_frames = self.reserved_frames.saturating_sub(frames);
    }

    fn reserve_completion(&mut self) -> (reserved: Result<(), SpoolError>)
        ensures
            match reserved {
                Ok(()) => old(self)@.inflight < old(self)@.config.max_inflight_completions
                    && final(self)@ == (CellView {
                    inflight: capped_sum(old(self)@.inflight, 1),
                    ..old(self)@
                }),
                Err(error) => {
                    &&& old(self)@.inflight >= old(self)@.config.max_inflight_completions
                    &&& error == SpoolError::CapacityExceeded
                    &&& final(self)@ == old(self)@
                },
            },
            final(self).steady() == old(self).steady(),
    {
        if self.inflight_completions >= self.config.max_inflight_completions {
            return Err(SpoolError::CapacityExceeded);
        }
        self.inflight_completions = self.inflight_completions.saturating_add(1);
        Ok(())
    }

    fn release_completion(&mut self)
        ensures
            final(self)@ == old(self)@.completing(),
            final(self).steady() == old(self).steady(),
    {
        self.inflight_completions = self.inflight_completions.saturating_sub(1);
    }

    /// Blocks admission for this cause; the first cause stays.
    pub fn poison(&mut self, cause: SpoolPoisonCause)
        ensures
            final(self)@ == old(self)@.poisoning(cause),
            final(self).steady() == old(self).steady(),
    {
        match self.state {
            SpoolCellState::Serving => {
                self.state = SpoolCellState::Poisoned { cause };
            },
            _ => {},
        }
    }

    /// Appends a frame and syncs.
    fn persist(&mut self, frame: &SpoolFrame) -> (persisted: Result<(), SpoolError>)
        ensures
            match persisted {
                Ok(()) => final(self)@ == old(self)@.stored(frame@),
                Err(error) => {
                    &&& old(self)@.fails_with(error)
                    &&& final(self)@ == old(self)@.with_synced(final(self)@.synced) || final(self)@
                        == old(self)@.with_frame(frame@).with_synced(final(self)@.synced)
                },
            },
            old(self).steady() && encodable(frame@) ==> final(self).steady() && persisted is Ok,
    {
        match self.storage.append_frame(frame) {
            Err(error) => {
                return Err(error);
            },
            Ok(()) => {},
        }
        self.storage.sync()
    }

    /// Identity, reservation, completion slot, append and sync in one step.
    ///
    /// `queue_accepts` says whether the completion queue took the work. A refused
    /// completion slot leaves the lifecycle reservation in place; a queue that
    /// does not take the work releases it.
    pub fn admit_wal_and_queue(&mut self, submission: Submission, queue_accepts: bool) -> (admission:
        Admission)
        ensures
            match old(self)@.refusal(submission@) {
                Some(refusal) => {
                    &&& admission == Admission::Refused(refusal)
                    &&& final(self)@ == old(self)@
                },
                None => if old(self)@.inflight >= old(self)@.config.max_inflight_completions {
                    &&& admission == Admission::Refused(SpoolError::CapacityExceeded)
                    &&& final(self)@ == old(self)@.reserving(
                        old(self)@.lifecycle_bytes(submission@),
                        2,
                    )
                } else if !queue_accepts {
                    &&& admission == Admission::Refused(SpoolError::CapacityExceeded)
                    &&& final(self)@ == old(self)@.reserving(
                        old(self)@.lifecycle_bytes(submission@),
                        2,
                    ).releasing(old(self)@.lifecycle_bytes(submission@), 2)
                } else {
                    match admission {
                        Admission::Refused(_) => false,
                        Admission::Durable(work) => {
                            &&& work.identity@ == old(self)@.identity_of(submission@)
                            &&& work.progress_bytes == written_frame(
                                FrameView::Progress(work.identity@),
                            ).len()
                            &&& final(self)@ == old(self)@.admitted(submission@)
                        },
                        Admission::Canceled { work, error } => {
                            &&& old(self)@.fails_with(error)
                            &&& work.identity@ == old(self)@.identity_of(submission@)
                            &&& work.progress_bytes == written_frame(
                                FrameView::Progress(work.identity@),
                            ).len()
                            &&& final(self)@ == old(self)@.canceled(submission@).with_synced(
                                final(self)@.synced,
                            ) || final(self)@ == old(self)@.canceled(submission@).with_frame(
                                submission_frame(old(self)@.journal, submission@),
                            ).with_synced(final(self)@.synced)
                        },
                    }
                },
            },
            old(self).steady() ==> final(self).steady() && !(admission is Canceled),
    {
        match self.ensure_serving() {
            Err(error) => {
                return Admission::Refused(error);
            },
            Ok(()) => {},
        }
        let ghost before = self@;
        let ghost batch = submission@;
        let identity = ProgressIdentity {
            journal_id: self.journal_id,
            producer_id: submission.producer_id,
            producer_epoch: submission.producer_epoch,
            sequence: submission.sequence,
        };
        let frame = SpoolFrame::Submission { journal_id: self.journal_id, submission };
        let progress = SpoolFrame::Progress(identity);
        proof {
            lemma_progress_encodable(identity@);
        }
        let encoded: usize = match encoded_frame_bytes(&frame) {
            Err(error) => {
                return Admission::Refused(error);
            },
            Ok(bytes) => held_slice(&bytes).len(),
        };
        let progress_encoded: usize = match encoded_frame_bytes(&progress) {
            Err(error) => {
                return Admission::Refused(error);
            },
            Ok(bytes) => held_slice(&bytes).len(),
        };
        if encoded > self.config.max_frame_bytes || progress_encoded > self.config.max_frame_bytes {
            return Admission::Refused(SpoolError::CapacityExceeded);
        }
        let lifecycle_bytes: usize = encoded + progress_encoded;
        if self.known.contains(&identity) {
            return Admission::Refused(SpoolError::DuplicateIdentity);
        }
        match self.reserve(lifecycle_bytes, 2) {
            Err(error) => {
                return Admission::Refused(error);
            },
            Ok(()) => {},
        }
        match self.reserve_completion() {
            Err(error) => {
                return Admission::Refused(error);
            },
            Ok(()) => {},
        }
        let work = CompletionWork { identity, progress_bytes: progress_encoded };
        if !queue_accepts {
            self.release_completion();
            self.release(lifecycle_bytes, 2);
            return Admission::Refused(SpoolError::CapacityExceeded);
        }
        self.known.insert(identity);
        match self.persist(&frame) {
            Err(error) => {
                self.known.remove(&identity);
                self.release(lifecycle_bytes, 2);
                proof {
                    assert(before.known.insert(identity@).remove(identity@) =~= before.known);
                }
                Admission::Canceled { work, error }
            },
            Ok(()) => {
                self.release(encoded, 1);
                Admission::Durable(work)
            },
        }
    }

    /// Takes in how the work ended, and gives what the caller is told, if anything.
    pub fn complete_work(&mut self, work: CompletionWork, delivery: DriverDelivery) -> (reply:
        Option<Result<Receipt, SpoolError>>)
        ensures
            match delivery {
                DriverDelivery::Canceled => {
                    &&& reply is None
                    &&& final(self)@ == old(self)@.completing()
                },
                DriverDelivery::ForwardFailed(error) => {
                    &&& reply == told(Err(error))
                    &&& final(self)@ == old(self)@.releasing(
                        work.progress_bytes as nat,
                        1,
                    ).poisoning(SpoolPoisonCause::ForwardFailed).completing()
                },
                DriverDelivery::ReceiptFailed(text) => {
                    &&& reply == Some(Err::<Receipt, _>(SpoolError::Forward(text)))
                    &&& final(self)@ == old(self)@.releasing(
                        work.progress_bytes as nat,
                        1,
                    ).poisoning(SpoolPoisonCause::ReceiptFailed).completing()
                },
                DriverDelivery::Receipt(receipt) => {
                    let progress = FrameView::Progress(work.identity@);
                    if reply is Some && reply->0 is Ok {
                        &&& reply->0->Ok_0 == receipt
                        &&& final(self)@ == old(self)@.stored(progress).releasing(
                            work.progress_bytes as nat,
                            1,
                        ).completing()
                    } else {
                        &&& exists|error: SpoolError|
                            #![trigger old(self)@.fails_with(error)]
                            old(self)@.fails_with(error) && reply == told(
                                Err(progress_failed(error)),
                            )
                        &&& final(self)@ == old(self)@.with_synced(final(self)@.synced).releasing(
                            work.progress_bytes as nat,
                            1,
                        ).poisoning(SpoolPoisonCause::ProgressFailed).completing() || final(self)@
                            == old(self)@.with_frame(progress).with_synced(
                            final(self)@.synced,
                        ).releasing(work.progress_bytes as nat, 1).poisoning(
                            SpoolPoisonCause::ProgressFailed,
                        ).completing()
                    }
                },
            },
            old(self).steady() ==> {
                &&& final(self).steady()
                &&& delivery is Receipt ==> reply is Some && reply->0 is Ok
            },
    {
        let outcome: Result<Receipt, SpoolError> = match delivery {
            DriverDelivery::Canceled => Err(SpoolError::Unavailable),
            DriverDelivery::ForwardFailed(error) => {
                self.release(work.progress_bytes, 1);
                self.poison(SpoolPoisonCause::ForwardFailed);
                Err(error)
            },
            DriverDelivery::ReceiptFailed(text) => {
                self.release(work.progress_bytes, 1);
                self.poison(SpoolPoisonCause::ReceiptFailed);
                Err(SpoolError::Forward(text))
            },
            DriverDelivery::Receipt(receipt) => {
                proof {
                    lemma_progress_encodable(work.identity@);
                }
                match self.persist(&SpoolFrame::Progress(work.identity)) {
                    Ok(()) => {
                        self.release(work.progress_bytes, 1);
                        Ok(receipt)
                    },
                    Err(error) => {
                        self.release(work.progress_bytes, 1);
                        self.poison(SpoolPoisonCause::ProgressFailed);
                        Err(progress_failure(error))
                    },
                }
            },
        };
        self.release_completion();
        reply_for(outcome)
    }
}

// Laws.

/// A cell that does not serve stays as it is, whatever fails later: the first
/// cause is the one that is kept.
pub proof fn law_first_poison_cause_is_kept(
    state: SpoolCellState,
    first: SpoolPoisonCause,
    second: SpoolPoisonCause,
)
    ensures
        poisoned(poisoned(state, first), second) == poisoned(state, first),
        poisoned(state, first) != SpoolCellState::Serving,
        state != SpoolCellState::Serving ==> poisoned(state, first) == state,
{
}

/// Only a serving cell admits, and it admits an identity once.
pub proof fn law_only_serving_cells_admit(cell: CellView, submission: SubmissionView)
    ensures
        cell.state != SpoolCellState::Serving ==> cell.refusal(submission) is Some,
        cell.known.contains(cell.identity_of(submission)) ==> cell.refusal(submission) is Some,
        cell.admitted(submission).refusal(submission) is Some,
{
}

/// A receipt is never ahead of the disk: once a submission is admitted, and once its
/// receipt is passed on, the frame that says so is in the store and the store is synced.
pub proof fn law_receipts_rest_on_synced_frames(
    cell: CellView,
    submission: SubmissionView,
    progress: IdentityView,
)
    ensures
        ({
            let admitted = cell.admitted(submission);
            &&& admitted.log.last() == submission_frame(cell.journal, submission)
            &&& admitted.synced == admitted.log.len()
        }),
        ({
            let done = cell.stored(FrameView::Progress(progress));
            &&& done.log.last() == FrameView::Progress(progress)
            &&& done.synced == done.log.len()
        }),
{
}

/// Whether what is stored and what is set aside stay within the limits.
pub open spec fn within_limits(cell: CellView) -> bool {
    &&& cell.bytes_used + cell.reserved_bytes <= cell.config.max_wal_bytes
    &&& cell.log.len() + cell.reserved_frames <= cell.config.max_frames
}

/// Admission keeps the store and its reservations within the limits, whether the
/// frame became durable or not.
pub proof fn law_admission_keeps_limits(cell: CellView, submission: SubmissionView)
    requires
        within_limits(cell),
        cell.refusal(submission) is None,
        cell.config.max_wal_bytes < usize::MAX,
        cell.config.max_frames < usize::MAX,
    ensures
        within_limits(cell.admitted(submission)),
        within_limits(cell.canceled(submission)),
        within_limits(
            cell.canceled(submission).with_frame(submission_frame(cell.journal, submission)),
        ),
{
}

/// What admission sets aside for progress is what completion takes back: after
/// the receipt nothing of the submission is reserved, and the limits still hold.
pub proof fn law_completion_takes_back_the_reservation(
    cell: CellView,
    submission: SubmissionView,
    work: CompletionWork,
)
    requires
        within_limits(cell),
        cell.refusal(submission) is None,
        cell.config.max_wal_bytes < usize::MAX,
        cell.config.max_frames < usize::MAX,
        cell.inflight < cell.config.max_inflight_completions,
        work.identity@ == cell.identity_of(submission),
        work.progress_bytes == written_frame(FrameView::Progress(work.identity@)).len(),
    ensures
        ({
            let done = cell.admitted(submission).stored(
                FrameView::Progress(work.identity@),
            ).releasing(work.progress_bytes as nat, 1).completing();
            &&& done.reserved_bytes == cell.reserved_bytes
            &&& done.reserved_frames == cell.reserved_frames
            &&& done.inflight == cell.inflight
            &&& done.bytes_used == cell.bytes_used + cell.lifecycle_bytes(submission)
            &&& within_limits(done)
        }),
{
}

/// A submission is let in exactly where the cell serves, both of its frames can be written and
/// are small enough, its identity is new, and both fit beside what is stored and set aside.
pub proof fn law_what_fits_is_let_in(cell: CellView, submission: SubmissionView)
    requires
        cell.config.max_wal_bytes < usize::MAX,
        cell.config.max_frames < usize::MAX,
    ensures
        cell.refusal(submission) is None <==> {
            let frame = FrameView::Submission { journal_id: cell.journal, submission };
            let progress = FrameView::Progress(frame.identity());
            let first = written_frame(frame).len();
            let second = written_frame(progress).len();
            &&& cell.state == SpoolCellState::Serving
            &&& encodable(frame)
            &&& first <= cell.config.max_frame_bytes
            &&& second <= cell.config.max_frame_bytes
            &&& !cell.known.contains(frame.identity())
            &&& cell.bytes_used + cell.reserved_bytes + first + second <= cell.config.max_wal_bytes
            &&& cell.log.len() + cell.reserved_frames + 2 <= cell.config.max_frames
        },
{
}

/// A refusal gives its reason, and the reason holds.
pub proof fn law_refusals_hold(cell: CellView, submission: SubmissionView)
    requires
        cell.config.max_wal_bytes < usize::MAX,
        cell.config.max_frames < usize::MAX,
    ensures
        ({
            let frame = FrameView::Submission { journal_id: cell.journal, submission };
            let first = written_frame(frame).len();
            let second = written_frame(FrameView::Progress(frame.identity())).len();
            let serves = cell.state == SpoolCellState::Serving;
            let refused = cell.refusal(submission);
            &&& cell.state is RecoveryRequired <==> refused == Some(SpoolError::RecoveryRequired)
            &&& cell.state matches SpoolCellState::Poisoned { cause } ==> refused == Some(
                SpoolError::Poisoned { cause },
            )
            &&& refused == Some(SpoolError::DuplicateIdentity) ==> serves && cell.known.contains(
                frame.identity(),
            )
            &&& refused == Some(SpoolError::CapacityExceeded) ==> serves && (first
                > cell.config.max_frame_bytes || second > cell.config.max_frame_bytes
                || cell.bytes_used + cell.reserved_bytes + first + second
                > cell.config.max_wal_bytes || cell.log.len() + cell.reserved_frames + 2
                > cell.config.max_frames)
            &&& serves && !encodable(frame) ==> refused == Some(
                SpoolError::Frame(SpoolFrameError::Oversized),
            )
            &&& refused matches Some(SpoolError::Frame(_)) ==> serves && !encodable(frame)
        }),
{
}

/// Admission adds one frame, one identity and one completion, sets aside what the progress
/// frame will take, and leaves the rest as it was.
pub proof fn law_admission_adds_one_of_each(cell: CellView, submission: SubmissionView)
    requires
        within_limits(cell),
        cell.refusal(submission) is None,
        cell.config.max_wal_bytes < usize::MAX,
        cell.config.max_frames < usize::MAX,
        cell.inflight < usize::MAX,
    ensures
        ({
            let after = cell.admitted(submission);
            let frame = FrameView::Submission { journal_id: cell.journal, submission };
            let progress = written_frame(FrameView::Progress(frame.identity())).len();
            &&& after.log == cell.log.push(frame)
            &&& after.bytes_used == cell.bytes_used + written_frame(frame).len()
            &&& after.known == cell.known.insert(frame.identity())
            &&& after.inflight == cell.inflight + 1
            &&& after.reserved_bytes == cell.reserved_bytes + progress
            &&& after.reserved_frames == cell.reserved_frames + 1
            &&& after.state == cell.state
            &&& after.journal == cell.journal
            &&& after.config == cell.config
            &&& after.tail == cell.tail
            &&& after.failures == cell.failures
        }),
{
}

/// A canceled admission leaves nothing behind but a completion to be ended; ending it gives the
/// cell back as it was.
pub proof fn law_a_canceled_admission_leaves_no_trace(cell: CellView, submission: SubmissionView)
    requires
        within_limits(cell),
        cell.refusal(submission) is None,
        cell.config.max_wal_bytes < usize::MAX,
        cell.config.max_frames < usize::MAX,
        cell.inflight < usize::MAX,
    ensures
        cell.canceled(submission).inflight == cell.inflight + 1,
        cell.canceled(submission).completing() == cell,
        cell.reserving(cell.lifecycle_bytes(submission), 2).releasing(
            cell.lifecycle_bytes(submission),
            2,
        ) == cell,
{
}

/// A serving cell that fails is poisoned by that cause, and by nothing but the state does it
/// differ from before.
pub proof fn law_a_failure_poisons_by_its_cause(cell: CellView, cause: SpoolPoisonCause)
    ensures
        cell.state == SpoolCellState::Serving ==> cell.poisoning(cause).state
            == (SpoolCellState::Poisoned { cause }),
        cell.state matches SpoolCellState::RecoveryRequired(report) ==> cell.poisoning(cause).state
            == SpoolCellState::RecoveryRequired(report),
        cell.poisoning(cause) == (CellView { state: cell.poisoning(cause).state, ..cell }),
{
}

/// Every outcome is told as it is, but that of an abandoned completion, of which nothing is.
pub proof fn law_outcomes_are_told_as_they_are(outcome: Result<Receipt, SpoolError>)
    ensures
        told(outcome) is None <==> outcome == Err::<Receipt, _>(SpoolError::Unavailable),
        told(outcome) matches Some(said) ==> said == outcome,
{
}

/// A store that is broken or full keeps a receipt from being recorded; every other failure is
/// reported as it is.
pub proof fn law_only_store_failures_fail_progress(error: SpoolError)
    ensures
        progress_failed(error) == error || progress_failed(error) == SpoolError::ProgressFailed,
        progress_failed(error) == SpoolError::ProgressFailed <==> error is Io
            || error is CapacityExceeded || error is ProgressFailed,
{
}

/// A cell asks for recovery over any store but a clean and empty one.
pub proof fn law_only_clean_and_empty_needs_no_recovery(report: RecoveryReport)
    ensures
        !report.requires_recovery() <==> report == (RecoveryReport {
            frames: 0,
            tail: ScanTail::Clean,
        }),
{
}

/// Admission over whole calls: what does not serve, is known already or does not fit is refused
/// and leaves the cell as it is; what is admitted is in the store, synced, and known.
pub proof fn law_admissions_are_durable_or_refused<S: SpoolStorage>(
    cell: &mut SpoolCell<S>,
    submission: Submission,
    queue_accepts: bool,
    admission: Admission,
)
    requires
        call_ensures(
            SpoolCell::<S>::admit_wal_and_queue,
            (cell, submission, queue_accepts),
            admission,
        ),
    ensures
        old(cell)@.state != SpoolCellState::Serving ==> admission is Refused && final(cell)@
            == old(cell)@,
        old(cell)@.known.contains(
            IdentityView {
                journal_id: old(cell)@.journal,
                producer_id: submission@.producer_id,
                producer_epoch: submission@.producer_epoch,
                sequence: submission@.sequence,
            },
        ) ==> admission is Refused && final(cell)@ == old(cell)@,
        !queue_accepts ==> admission is Refused,
        old(cell)@.inflight >= old(cell)@.config.max_inflight_completions ==> admission is Refused,
        admission matches Admission::Durable(work) ==> {
            &&& old(cell)@.state == SpoolCellState::Serving
            &&& final(cell)@.log == old(cell)@.log.push(
                FrameView::Submission { journal_id: old(cell)@.journal, submission: submission@ },
            )
            &&& final(cell)@.synced == final(cell)@.log.len()
            &&& final(cell)@.known.contains(work.identity@)
            &&& work.identity@.sequence == submission@.sequence
            &&& work.identity@.producer_id == submission@.producer_id
            &&& work.identity@.producer_epoch == submission@.producer_epoch
            &&& work.identity@.journal_id == old(cell)@.journal
        },
        admission matches Admission::Canceled { error, .. } ==> old(cell)@.failures.contains(error),
{
}

/// A cell opens serving exactly over a clean and empty store, with nothing known and nothing
/// set aside; over any other it reports what it found.
pub proof fn law_cells_open_serving_over_nothing<S: SpoolStorage>(
    journal_id: JournalId,
    config: SpoolConfig,
    storage: S,
    limits: Result<(), SpoolError>,
    opened: Result<SpoolCell<S>, SpoolError>,
)
    requires
        call_ensures(SpoolCell::<S>::open, (journal_id, config, storage, limits), opened),
    ensures
        limits matches Err(error) ==> opened is Err && opened->Err_0 == error,
        opened matches Ok(cell) ==> {
            &&& cell@.state == SpoolCellState::Serving <==> storage.log().len() == 0
                && storage.tail() == ScanTail::Clean
            &&& cell@.state matches SpoolCellState::RecoveryRequired(report) ==> report.frames
                == storage.log().len() && report.tail == storage.tail()
            &&& !(cell@.state is Poisoned)
            &&& cell@.log == storage.log()
            &&& cell@.inflight == 0 && cell@.reserved_bytes == 0 && cell@.reserved_frames == 0
        },
{
}

/// An empty submission is refused with the driver's words, and no other is.
pub proof fn law_empty_submissions_are_refused(
    submission: Submission,
    reason: String,
    refused: Option<SpoolError>,
    report: RecoveryReport,
    state: SpoolCellState,
)
    requires
        call_ensures(refuse_empty, (&submission, reason), refused),
        call_ensures(opening_state, (report,), state),
    ensures
        refused is Some <==> submission@.records.len() == 0,
        refused matches Some(error) ==> error == SpoolError::Forward(reason),
        state == SpoolCellState::Serving <==> report.frames == 0 && report.tail == ScanTail::Clean,
        state != SpoolCellState::Serving ==> state == SpoolCellState::RecoveryRequired(report),
{
}

/// Completion over whole calls: a receipt is passed on only once its progress is in the store
/// and synced; whatever fails poisons a serving cell by its own cause, and a canceled one tells
/// nobody anything.
pub proof fn law_completions_record_before_they_tell<S: SpoolStorage>(
    cell: &mut SpoolCell<S>,
    work: CompletionWork,
    delivery: DriverDelivery,
    reply: Option<Result<Receipt, SpoolError>>,
)
    requires
        call_ensures(SpoolCell::<S>::complete_work, (cell, work, delivery), reply),
        old(cell)@.inflight > 0,
    ensures
        final(cell)@.inflight == old(cell)@.inflight - 1,
        delivery is Canceled ==> reply is None && final(cell)@.state == old(cell)@.state,
        reply matches Some(Ok(receipt)) ==> {
            &&& delivery == DriverDelivery::Receipt(receipt)
            &&& final(cell)@.log == old(cell)@.log.push(FrameView::Progress(work.identity@))
            &&& final(cell)@.synced == final(cell)@.log.len()
            &&& final(cell)@.state == old(cell)@.state
        },
        delivery is ForwardFailed && old(cell)@.state == SpoolCellState::Serving
            ==> final(cell)@.state == (SpoolCellState::Poisoned {
            cause: SpoolPoisonCause::ForwardFailed,
        }),
        delivery is ReceiptFailed && old(cell)@.state == SpoolCellState::Serving
            ==> final(cell)@.state == (SpoolCellState::Poisoned {
            cause: SpoolPoisonCause::ReceiptFailed,
        }),
        delivery matches DriverDelivery::ReceiptFailed(text) ==> reply == Some(
            Err::<Receipt, _>(SpoolError::Forward(text)),
        ),
        delivery is Receipt && !(reply is Some && reply->0 is Ok) && old(cell)@.state
            == SpoolCellState::Serving ==> final(cell)@.state == (SpoolCellState::Poisoned {
            cause: SpoolPoisonCause::ProgressFailed,
        }),
{
}

} // verus!
