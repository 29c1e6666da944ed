//! Producer-edge continuity outbox for fleet routing changes.
//!
//! Unlike a spool cell, which stops admitting when forwarding fails, this outbox
//! is the producer's durability boundary: while a route or a Scribe is
//! unavailable, pending work is retained for another attempt. It never silently
//! discards a locally durable admission.
//!
//! - [`ContinuityOutbox::admit_submission`] returns only after the submission frame is
//!   appended and synced.
//! - [`ContinuityOutbox::mark_committed`] appends a progress frame and syncs
//!   before the pending entry is dropped.
//! - Reopening the same store rebuilds pending as the submissions without progress.
use crate::file::{file_failures, ByteLog, FileSpoolStorage};
use crate::frame::{
    encodable, lemma_progress_encodable, written_frame, FrameView, IdentityView, ProgressIdentity, SpoolFrame,
    SpoolFrameError,
};
use crate::id_map::{
    submission_id, ContinuityId, IdMap, IdView,
};
use crate::ids::JournalId;
use crate::model::{Submission, SubmissionView};
use crate::storage::{
    frames_view, read_log, InMemorySpoolStorage, ScanTail, SpoolError, SpoolStorage, ValidFrame,
};
use vstd::prelude::*;

verus! {

/// Evidence of a commit.
#[derive(Debug, Clone, Copy, PartialEq, Eq, Structural)]
pub struct Receipt {
    /// First committed record offset.
    pub first_offset: u64,
    /// Whether the submission had been committed before.
    pub deduplicated: bool,
}

/// One pending outbox entry awaiting Canon commit.
#[derive(Debug, PartialEq, Eq)]
pub struct PendingEntry {
    /// Stable identity.
    pub id: ContinuityId,
    /// Original submission retained for at-least-once retry.
    pub submission: Submission,
}

/// What a pending entry is, apart from its representation.
pub struct PendingView {
    pub id: IdView,
    pub submission: SubmissionView,
}

impl View for PendingEntry {
    type V = PendingView;

    open spec fn view(&self) -> PendingView {
        PendingView { id: self.id@, submission: self.submission@ }
    }
}

impl Clone for PendingEntry {
    fn clone(&self) -> (copy: Self)
        ensures
            copy@ == self@,
    {
        PendingEntry { id: self.id, submission: self.submission.clone() }
    }
}

/// Entries by their views.
pub open spec fn pending_view(entries: Seq<PendingEntry>) -> Seq<PendingView> {
    entries.map_values(|entry: PendingEntry| entry@)
}

/// Snapshot used by rolling-restart proofs.
#[derive(Debug, PartialEq, Eq)]
pub struct ContinuitySnapshot {
    /// Identities accepted into the durable outbox.
    pub local_durable: IdMap<()>,
    /// Identities for which a committed receipt was observed.
    pub committed: IdMap<()>,
    /// Still awaiting successful forward and commit.
    pub pending: usize,
}

/// Failures at the continuity outbox boundary.
#[derive(Debug, PartialEq, Eq)]
pub enum ContinuityError {
    /// Empty submission refused at admission.
    EmptySubmission,
    /// Duplicate identity already locally durable.
    DuplicateIdentity,
    /// Outbox capacity exhausted before admit.
    Full,
    /// Durable store append, sync or open failure.
    Store(SpoolError),
}

// What a log of frames says of an identity.

/// The identity that a progress frame speaks of, without its journal.
pub open spec fn progress_id(identity: IdentityView) -> IdView {
    IdView {
        producer_id: identity.producer_id,
        producer_epoch: identity.producer_epoch,
        sequence: identity.sequence,
    }
}

/// The last submission in the log with this identity.
pub open spec fn logged_submission(log: Seq<FrameView>, id: IdView) -> Option<SubmissionView>
    decreases log.len(),
{
    if log.len() == 0 {
        None
    } else {
        match log.last() {
            FrameView::Submission { submission, .. } => if submission_id(submission) == id {
                Some(submission)
            } else {
                logged_submission(log.drop_last(), id)
            },
            FrameView::Progress(_) => logged_submission(log.drop_last(), id),
        }
    }
}

/// Whether the log records progress for this identity.
pub open spec fn logged_progress(log: Seq<FrameView>, id: IdView) -> bool
    decreases log.len(),
{
    log.len() > 0 && (logged_progress(log.drop_last(), id) || match log.last() {
        FrameView::Submission { .. } => false,
        FrameView::Progress(identity) => progress_id(identity) == id,
    })
}

/// The identities that the log records as committed.
pub open spec fn progressed(log: Seq<FrameView>) -> Set<IdView> {
    Set::new(|id: IdView| logged_progress(log, id))
}

/// The identities that the log records at all.
pub open spec fn recorded(log: Seq<FrameView>) -> Set<IdView> {
    Set::new(|id: IdView| logged_submission(log, id) is Some || logged_progress(log, id))
}

/// The submissions that the log records without progress.
pub open spec fn outstanding(log: Seq<FrameView>) -> Map<IdView, SubmissionView> {
    Map::new(
        |id: IdView| logged_submission(log, id) is Some && !logged_progress(log, id),
        |id: IdView| logged_submission(log, id)->0,
    )
}

/// The identities of the log's submissions, each where it first stands.
pub open spec fn submitted_ids(log: Seq<FrameView>) -> Seq<IdView>
    decreases log.len(),
{
    if log.len() == 0 {
        Seq::empty()
    } else {
        let before = submitted_ids(log.drop_last());
        match log.last() {
            FrameView::Submission { submission, .. } => if logged_submission(
                log.drop_last(),
                submission_id(submission),
            ) is Some {
                before
            } else {
                before.push(submission_id(submission))
            },
            FrameView::Progress(_) => before,
        }
    }
}

/// The entries of those identities that the log records without progress, each with its
/// last submission.
pub open spec fn entries_of(ids: Seq<IdView>, log: Seq<FrameView>) -> Seq<PendingView>
    decreases ids.len(),
{
    if ids.len() == 0 {
        Seq::empty()
    } else {
        let before = entries_of(ids.drop_last(), log);
        if logged_progress(log, ids.last()) {
            before
        } else {
            before.push(
                PendingView { id: ids.last(), submission: logged_submission(log, ids.last())->0 },
            )
        }
    }
}

/// What the log records without progress, first admitted first.
pub open spec fn in_log_order(log: Seq<FrameView>) -> Seq<PendingView> {
    entries_of(submitted_ids(log), log)
}

/// The identities of pending entries.
pub open spec fn pending_ids(pending: Seq<PendingView>) -> Seq<IdView> {
    pending.map_values(|entry: PendingView| entry.id)
}

/// Whether the entries are exactly those of the map, each once.
pub open spec fn lists(pending: Seq<PendingView>, map: Map<IdView, SubmissionView>) -> bool {
    &&& pending_ids(pending).no_duplicates()
    &&& forall|i: int|
        0 <= i < pending.len() ==> map.contains_key((#[trigger] pending[i]).id)
            && map[pending[i].id] == pending[i].submission
    &&& forall|id: IdView| #[trigger] map.contains_key(id) ==> pending_ids(pending).contains(id)
}

/// The journal's own progress identity of a submission.
pub open spec fn journal_progress(journal: Seq<u8>, id: IdView) -> IdentityView {
    IdentityView {
        journal_id: journal,
        producer_id: id.producer_id,
        producer_epoch: id.producer_epoch,
        sequence: id.sequence,
    }
}

fn from_progress(identity: &ProgressIdentity) -> (id: ContinuityId)
    ensures
        id@ == progress_id(identity@),
{
    ContinuityId {
        producer_id: identity.producer_id,
        producer_epoch: identity.producer_epoch,
        sequence: identity.sequence,
    }
}

fn to_progress(id: &ContinuityId, journal_id: JournalId) -> (identity: ProgressIdentity)
    ensures
        identity@ == journal_progress(journal_id@, id@),
{
    ProgressIdentity {
        journal_id,
        producer_id: id.producer_id,
        producer_epoch: id.producer_epoch,
        sequence: id.sequence,
    }
}

/// Pending entries in the order of the log, and the durable and the committed identities.
fn rebuild_indexes(frames: &Vec<ValidFrame>) -> (rebuilt: (
    Vec<PendingEntry>,
    IdMap<()>,
    IdMap<()>,
))
    ensures
        pending_view(rebuilt.0@) == in_log_order(frames_view(frames@)),
        rebuilt.1@.dom() == recorded(frames_view(frames@)),
        rebuilt.2@.dom() == progressed(frames_view(frames@)),
{
    let ghost log = frames_view(frames@);
    let mut submissions: IdMap<Submission> = IdMap::new();
    let mut committed: IdMap<()> = IdMap::new();
    let mut order: Vec<ContinuityId> = Vec::new();
    let mut local_durable: IdMap<()> = IdMap::new();
    let mut at: usize = 0;
    assert(log.take(0) =~= Seq::<FrameView>::empty());
    assert(ids_view(order@) =~= submitted_ids(log.take(0)));
    assert(local_durable@.dom() =~= recorded(log.take(0)));
    assert(committed@.dom() =~= progressed(log.take(0)));
    while at < frames.len()
        invariant
            at <= frames@.len(),
            log == frames_view(frames@),
            ids_view(order@) == submitted_ids(log.take(at as int)),
            forall|id: IdView|
                submissions@.contains_key(id) <==> logged_submission(log.take(at as int), id) is Some,
            forall|id: IdView| #[trigger]
                submissions@.contains_key(id) ==> Some(submissions@[id]@) == logged_submission(
                    log.take(at as int),
                    id,
                ),
            local_durable@.dom() == recorded(log.take(at as int)),
            committed@.dom() == progressed(log.take(at as int)),
        decreases frames@.len() - at,
    {
        let ghost so_far = log.take(at as int);
        let ghost next = log.take(at + 1);
        assert(next.drop_last() =~= so_far);
        assert(next.last() == frames@[at as int].frame@);
        match &frames[at].frame {
            SpoolFrame::Submission { journal_id, submission } => {
                let id = ContinuityId::from_submission(submission);
                if !submissions.contains(&id) {
                    let ghost before = ids_view(order@);
                    order.push(id);
                    assert(ids_view(order@) =~= before.push(id@));
                }
                let copy = submission.clone();
                submissions.insert(id, copy);
                local_durable.insert(id, ());
            },
            SpoolFrame::Progress(identity) => {
                let id = from_progress(identity);
                committed.insert(id, ());
                local_durable.insert(id, ());
            },
        }
        assert(local_durable@.dom() =~= recorded(next));
        assert(committed@.dom() =~= progressed(next));
        at += 1;
    }
    assert(log.take(at as int) =~= log);
    let ghost ids = ids_view(order@);
    let mut pending: Vec<PendingEntry> = Vec::new();
    let mut next: usize = 0;
    assert(ids.take(0) =~= Seq::<IdView>::empty());
    assert(pending_view(pending@) =~= entries_of(ids.take(0), log));
    while next < order.len()
        invariant
            next <= order@.len(),
            ids == ids_view(order@),
            ids == submitted_ids(log),
            forall|id: IdView|
                submissions@.contains_key(id) <==> logged_submission(log, id) is Some,
            forall|id: IdView| #[trigger]
                submissions@.contains_key(id) ==> Some(submissions@[id]@) == logged_submission(
                    log,
                    id,
                ),
            committed@.dom() == progressed(log),
            pending_view(pending@) == entries_of(ids.take(next as int), log),
        decreases order@.len() - next,
    {
        let id = order[next];
        let ghost before = pending_view(pending@);
        assert(ids[next as int] == id@);
        assert(ids.take(next + 1).drop_last() =~= ids.take(next as int));
        assert(ids.take(next + 1).last() == id@);
        assert(committed@.contains_key(id@) == logged_progress(log, id@)) by {
            assert(committed@.dom().contains(id@) == progressed(log).contains(id@));
        }
        if !committed.contains(&id) {
            proof {
                lemma_submitted_ids(log);
                assert(submitted_ids(log).contains(id@));
            }
            if let Some(found) = submissions.get(&id) {
                let submission = found.clone();
                let ghost entry = PendingView { id: id@, submission: submission@ };
                pending.push(PendingEntry { id, submission });
                assert(pending_view(pending@) =~= before.push(entry));
            }
        }
        next += 1;
    }
    assert(ids.take(next as int) =~= ids);
    (pending, local_durable, committed)
}

/// Identities by their views.
spec fn ids_view(ids: Seq<ContinuityId>) -> Seq<IdView> {
    ids.map_values(|id: ContinuityId| id@)
}

/// An identity is listed exactly where the log holds a submission of it, and once.
proof fn lemma_submitted_ids(log: Seq<FrameView>)
    ensures
        forall|id: IdView| #[trigger]
            submitted_ids(log).contains(id) <==> logged_submission(log, id) is Some,
        submitted_ids(log).no_duplicates(),
    decreases log.len(),
{
    if log.len() > 0 {
        let before = submitted_ids(log.drop_last());
        lemma_submitted_ids(log.drop_last());
        if let FrameView::Submission { submission, .. } = log.last() {
            let new = submission_id(submission);
            assert(before.contains(new) <==> logged_submission(log.drop_last(), new) is Some);
            assert forall|id: IdView| #[trigger]
                submitted_ids(log).contains(id) <==> logged_submission(log, id) is Some by {
                assert(before.contains(id) <==> logged_submission(log.drop_last(), id) is Some);
                lemma_push_contains(before, new, id);
            }
        } else {
            assert forall|id: IdView| #[trigger]
                submitted_ids(log).contains(id) <==> logged_submission(log, id) is Some by {
                assert(before.contains(id) <==> logged_submission(log.drop_last(), id) is Some);
            }
        }
    }
}

/// The entries of identities are exactly those without progress, in the order of the
/// identities.
proof fn lemma_entries_of(ids: Seq<IdView>, log: Seq<FrameView>)
    requires
        ids.no_duplicates(),
    ensures
        pending_ids(entries_of(ids, log)).no_duplicates(),
        forall|i: int|
            #![trigger entries_of(ids, log)[i]]
            0 <= i < entries_of(ids, log).len() ==> {
                let entry = entries_of(ids, log)[i];
                &&& ids.contains(entry.id)
                &&& !logged_progress(log, entry.id)
                &&& entry.submission == logged_submission(log, entry.id)->0
            },
        forall|id: IdView|
            ids.contains(id) && !logged_progress(log, id) ==> #[trigger] pending_ids(
                entries_of(ids, log),
            ).contains(id),
    decreases ids.len(),
{
    if ids.len() > 0 {
        let rest = ids.drop_last();
        let last = ids.last();
        let before = entries_of(rest, log);
        let after = entries_of(ids, log);
        lemma_entries_of(rest, log);
        assert(rest.push(last) =~= ids);
        assert forall|i: int| #![trigger after[i]] 0 <= i < after.len() implies {
            &&& ids.contains(after[i].id)
            &&& !logged_progress(log, after[i].id)
            &&& after[i].submission == logged_submission(log, after[i].id)->0
        } by {
            lemma_push_contains(rest, last, after[i].id);
            if i < before.len() {
                assert(after[i] == before[i]);
            }
        }
        assert forall|id: IdView| ids.contains(id) && !logged_progress(log, id) implies #[trigger]
            pending_ids(after).contains(id) by {
            lemma_push_contains(rest, last, id);
            if rest.contains(id) {
                assert(pending_ids(before).contains(id));
            }
            if !logged_progress(log, last) {
                assert(pending_ids(after) =~= pending_ids(before).push(last));
                lemma_push_contains(pending_ids(before), last, id);
            }
        }
        if !logged_progress(log, last) {
            assert(pending_ids(after) =~= pending_ids(before).push(last));
            assert forall|i: int| 0 <= i < pending_ids(before).len() implies pending_ids(before)[i]
                != last by {
                assert(rest.contains(before[i].id));
                let found = rest.index_of(before[i].id);
                assert(ids[found] == before[i].id);
                assert(ids[ids.len() - 1] == last);
            }
        }
    }
}

/// Entries depend on what the log says of their identities alone.
proof fn lemma_entries_agree(ids: Seq<IdView>, log: Seq<FrameView>, other: Seq<FrameView>)
    requires
        forall|i: int|
            #![trigger ids[i]]
            0 <= i < ids.len() ==> logged_progress(log, ids[i]) == logged_progress(other, ids[i])
                && logged_submission(log, ids[i]) == logged_submission(other, ids[i]),
    ensures
        entries_of(ids, log) == entries_of(ids, other),
    decreases ids.len(),
{
    if ids.len() > 0 {
        let rest = ids.drop_last();
        assert forall|i: int| #![trigger rest[i]] 0 <= i < rest.len() implies logged_progress(
            log,
            rest[i],
        ) == logged_progress(other, rest[i]) && logged_submission(log, rest[i])
            == logged_submission(other, rest[i]) by {
            assert(rest[i] == ids[i]);
        }
        lemma_entries_agree(rest, log, other);
        assert(ids.last() == ids[ids.len() - 1]);
    }
}

/// Progress takes the entry of its identity out and leaves the others where they are.
proof fn lemma_entries_after_progress(ids: Seq<IdView>, log: Seq<FrameView>, progress: IdentityView)
    ensures
        entries_of(ids, log.push(FrameView::Progress(progress))) == without(
            entries_of(ids, log),
            progress_id(progress),
        ),
    decreases ids.len(),
{
    let after = log.push(FrameView::Progress(progress));
    assert(after.drop_last() =~= log);
    if ids.len() > 0 {
        let rest = entries_of(ids.drop_last(), log);
        lemma_entries_after_progress(ids.drop_last(), log, progress);
        if !logged_progress(log, ids.last()) {
            assert(entries_of(ids, log).drop_last() =~= rest);
        }
    }
}

proof fn lemma_push_contains<A>(items: Seq<A>, item: A, other: A)
    ensures
        items.push(item).contains(other) <==> items.contains(other) || other == item,
{
    let pushed = items.push(item);
    if items.contains(other) {
        let at = items.index_of(other);
        assert(pushed[at] == other);
    }
    if other == item {
        assert(pushed[items.len() as int] == other);
    }
    if pushed.contains(other) && other != item {
        let at = pushed.index_of(other);
        assert(pushed[at] == other);
        assert(items[at] == other);
    }
}

proof fn lemma_logged_submission_id(log: Seq<FrameView>, id: IdView)
    ensures
        logged_submission(log, id) matches Some(submission) ==> submission_id(submission) == id,
    decreases log.len(),
{
    if log.len() > 0 {
        lemma_logged_submission_id(log.drop_last(), id);
    }
}

/// The entries without the one of `id`, in their order.
pub open spec fn without(pending: Seq<PendingView>, id: IdView) -> Seq<PendingView>
    decreases pending.len(),
{
    if pending.len() == 0 {
        pending
    } else if pending.last().id == id {
        without(pending.drop_last(), id)
    } else {
        without(pending.drop_last(), id).push(pending.last())
    }
}

fn drop_pending(pending: Vec<PendingEntry>, id: &ContinuityId) -> (kept: Vec<PendingEntry>)
    ensures
        pending_view(kept@) == without(pending_view(pending@), id@),
{
    let ghost view = pending_view(pending@);
    let mut kept: Vec<PendingEntry> = Vec::new();
    assert(view.take(0) =~= Seq::<PendingView>::empty());
    assert(pending_view(kept@) =~= view.take(0));
    for entry in entries: pending
        invariant
            view == pending_view(entries.seq()),
            pending_view(kept@) == without(view.take(entries.index() as int), id@),
    {
        let ghost at = entries.index() as int;
        let ghost before = pending_view(kept@);
        let ghost next = entry@;
        proof {
            assert(view.take(at + 1).drop_last() =~= view.take(at));
            assert(view.take(at + 1).last() == next);
        }
        if !entry.id.same(id) {
            kept.push(entry);
            assert(pending_view(kept@) =~= before.push(next));
        }
    }
    assert(view.take(view.len() as int) =~= view);
    kept
}

/// What an outbox is, apart from its representation.
pub struct OutboxView {
    /// Journal that the outbox writes for.
    pub journal: Seq<u8>,
    /// How many entries may be pending where another is admitted.
    pub max_pending: nat,
    /// Frames in the store.
    pub log: Seq<FrameView>,
    /// How many of them, from the first, are synced.
    pub synced: nat,
    /// Entries awaiting commit, first admitted first.
    pub pending: Seq<PendingView>,
    /// Identities accepted.
    pub durable: Set<IdView>,
    /// Identities marked committed.
    pub committed: Set<IdView>,
    /// Receipts kept in this process.
    pub receipts: Map<IdView, Receipt>,
    /// Bytes that the store takes.
    pub bytes_used: nat,
    /// What follows the frames in the store.
    pub tail: ScanTail,
    /// The errors that the store may give.
    pub failures: Set<SpoolError>,
}

impl OutboxView {
    /// Whether every pending entry is durable, and no identity is pending twice.
    pub open spec fn well_formed(self) -> bool {
        &&& self.max_pending >= 1
        &&& pending_ids(self.pending).no_duplicates()
        &&& forall|i: int|
            0 <= i < self.pending.len() ==> self.durable.contains((#[trigger] self.pending[i]).id)
        &&& forall|i: int|
            0 <= i < self.pending.len() ==> (#[trigger] self.pending[i]).id == submission_id(
                self.pending[i].submission,
            )
    }

    /// Whether the outbox says exactly what its store says.
    pub open spec fn in_step(self) -> bool {
        &&& self.pending == in_log_order(self.log)
        &&& self.durable == recorded(self.log)
        &&& self.committed == progressed(self.log)
    }

    /// Whether the store may give this error.
    pub open spec fn fails_with(self, error: SpoolError) -> bool {
        self.failures.contains(error)
    }

    /// The outbox after a submission was admitted.
    pub open spec fn admitted(self, submission: SubmissionView) -> OutboxView {
        OutboxView {
            pending: self.pending.push(PendingView { id: submission_id(submission), submission }),
            durable: self.durable.insert(submission_id(submission)),
            ..self.with_frame(
                FrameView::Submission { journal_id: self.journal, submission },
            ).with_synced(self.log.len() + 1)
        }
    }

    /// The outbox after an identity was marked committed.
    pub open spec fn marked(self, id: IdView) -> OutboxView {
        OutboxView {
            pending: without(self.pending, id),
            committed: self.committed.insert(id),
            ..self.with_frame(
                FrameView::Progress(journal_progress(self.journal, id)),
            ).with_synced(self.log.len() + 1)
        }
    }

    /// The outbox with one more frame in its store that it has not taken into account.
    pub open spec fn with_frame(self, frame: FrameView) -> OutboxView {
        OutboxView {
            log: self.log.push(frame),
            bytes_used: self.bytes_used + written_frame(frame).len(),
            ..self
        }
    }

    /// The outbox with this many frames of its store synced.
    pub open spec fn with_synced(self, synced: nat) -> OutboxView {
        OutboxView { synced, ..self }
    }
}

/// Producer-edge continuity outbox backed by a [`SpoolStorage`] log.
///
/// [`Self::admit_submission`] is the local-durable boundary: it does not return success until
/// append and sync succeed. Temporary forward failures leave the durable
/// submission in place for retry.
#[derive(Debug)]
pub struct ContinuityOutbox<S: SpoolStorage> {
    journal_id: JournalId,
    max_pending: usize,
    storage: S,
    pending: Vec<PendingEntry>,
    local_durable: IdMap<()>,
    committed: IdMap<()>,
    /// Last committed receipt per identity (process-local evidence only).
    receipts: IdMap<Receipt>,
}

impl<S: SpoolStorage> ContinuityOutbox<S> {
    /// Whether the store fails at nothing but a frame that cannot be written down.
    pub closed spec fn steady(&self) -> bool {
        self.storage.steady()
    }
}

impl<S: SpoolStorage> View for ContinuityOutbox<S> {
    type V = OutboxView;

    closed spec fn view(&self) -> OutboxView {
        OutboxView {
            journal: self.journal_id@,
            max_pending: self.max_pending as nat,
            log: self.storage.log(),
            synced: self.storage.synced(),
            pending: pending_view(self.pending@),
            durable: self.local_durable@.dom(),
            committed: self.committed@.dom(),
            receipts: self.receipts@,
            bytes_used: self.storage.bytes_used(),
            tail: self.storage.tail(),
            failures: self.storage.failures(),
        }
    }
}

impl ContinuityOutbox<InMemorySpoolStorage> {
    /// Outbox over an empty store in memory.
    pub fn memory(journal_id: JournalId, max_pending: usize) -> (outbox: Self)
        ensures
            outbox@.journal == journal_id@,
            outbox@.max_pending == (if max_pending == 0 {
                1
            } else {
                max_pending as nat
            }),
            outbox@.log == Seq::<FrameView>::empty(),
            outbox@.synced == 0,
            outbox@.bytes_used == 0,
            outbox@.tail == ScanTail::Clean,
            outbox@.failures == set![SpoolError::Frame(SpoolFrameError::Oversized)],
            outbox@.pending == Seq::<PendingView>::empty(),
            outbox@.durable == Set::<IdView>::empty(),
            outbox@.committed == Set::<IdView>::empty(),
            outbox@.receipts == Map::<IdView, Receipt>::empty(),
            outbox@.well_formed(),
            outbox@.in_step(),
            outbox.steady(),
    {
        let storage = InMemorySpoolStorage::new();
        let outbox = ContinuityOutbox {
            journal_id,
            max_pending: if max_pending == 0 {
                1
            } else {
                max_pending
            },
            storage,
            pending: Vec::new(),
            local_durable: IdMap::new(),
            committed: IdMap::new(),
            receipts: IdMap::new(),
        };
        proof {
            assert(outbox@.pending =~= Seq::<PendingView>::empty());
            assert(outbox@.durable =~= Set::<IdView>::empty());
            assert(outbox@.committed =~= Set::<IdView>::empty());
            assert(recorded(outbox@.log) =~= Set::<IdView>::empty());
            assert(progressed(outbox@.log) =~= Set::<IdView>::empty());
        }
        outbox
    }

    /// Outbox in memory under a journal identity of its own.
    pub fn new(max_pending: usize) -> (outbox: Self)
        ensures
            outbox@.max_pending == (if max_pending == 0 {
                1
            } else {
                max_pending as nat
            }),
            outbox@.journal == seq![
                0x63u8,
                0x6fu8,
                0x6eu8,
                0x74u8,
                0x2du8,
                0x6fu8,
                0x75u8,
                0x74u8,
                0x62u8,
                0x6fu8,
                0x78u8,
                0x2du8,
                0x6au8,
                0x72u8,
                0x6eu8,
                0x6cu8,
            ],
            outbox@.log == Seq::<FrameView>::empty(),
            outbox@.synced == 0,
            outbox@.bytes_used == 0,
            outbox@.tail == ScanTail::Clean,
            outbox@.failures == set![SpoolError::Frame(SpoolFrameError::Oversized)],
            outbox@.pending == Seq::<PendingView>::empty(),
            outbox@.durable == Set::<IdView>::empty(),
            outbox@.committed == Set::<IdView>::empty(),
            outbox@.receipts == Map::<IdView, Receipt>::empty(),
            outbox@.well_formed(),
            outbox@.in_step(),
            outbox.steady(),
    {
        // "cont-outbox-jrnl"
        let journal = JournalId::from_bytes(
            [
                0x63,
                0x6f,
                0x6e,
                0x74,
                0x2d,
                0x6f,
                0x75,
                0x74,
                0x62,
                0x6f,
                0x78,
                0x2d,
                0x6a,
                0x72,
                0x6e,
                0x6c,
            ],
        );
        let outbox = ContinuityOutbox::memory(journal, max_pending);
        assert(outbox@.journal =~= seq![
            0x63u8,
            0x6fu8,
            0x6eu8,
            0x74u8,
            0x2du8,
            0x6fu8,
            0x75u8,
            0x74u8,
            0x62u8,
            0x6fu8,
            0x78u8,
            0x2du8,
            0x6au8,
            0x72u8,
            0x6eu8,
            0x6cu8,
        ]);
        outbox
    }
}

impl<L: ByteLog> ContinuityOutbox<FileSpoolStorage<L>> {
    /// Opens an outbox over a byte log that contains these bytes, and rebuilds what is
    /// pending and what is committed from them.
    pub fn open_file(journal_id: JournalId, max_pending: usize, log: L, contents: &[u8]) -> (outbox:
        Self)
        ensures
            outbox@.journal == journal_id@,
            outbox@.max_pending == (if max_pending == 0 {
                1
            } else {
                max_pending as nat
            }),
            outbox@.log == read_log(contents@).0,
            outbox@.synced == outbox@.log.len(),
            outbox@.tail == read_log(contents@).1,
            outbox@.failures == file_failures(log, read_log(contents@).1),
            outbox@.receipts == Map::<IdView, Receipt>::empty(),
            outbox@.in_step(),
            outbox@.well_formed(),
    {
        let storage = FileSpoolStorage::open(log, contents);
        let (frames, _tail) = storage.scan_valid_frames().unwrap();
        Self::rebuilt(journal_id, max_pending, storage, &frames)
    }
}

impl<S: SpoolStorage> ContinuityOutbox<S> {
    /// Builds an outbox over an existing store, reconstructing pending state.
    ///
    /// The only failure is that the store cannot be scanned.
    pub fn from_storage(journal_id: JournalId, max_pending: usize, storage: S) -> (opened: Result<
        Self,
        ContinuityError,
    >)
        ensures
            match opened {
                Ok(outbox) => {
                    &&& outbox@.journal == journal_id@
                    &&& outbox@.max_pending == (if max_pending == 0 {
                        1
                    } else {
                        max_pending as nat
                    })
                    &&& outbox@.log == storage.log()
                    &&& outbox@.synced == storage.synced()
                    &&& outbox@.bytes_used == storage.bytes_used()
                    &&& outbox@.tail == storage.tail()
                    &&& outbox@.failures == storage.failures()
                    &&& outbox@.receipts == Map::<IdView, Receipt>::empty()
                    &&& outbox@.in_step()
                    &&& outbox@.well_formed()
                    &&& outbox.steady() == storage.steady()
                },
                Err(error) => error is Store && storage.failures().contains(error->Store_0)
                    && !storage.steady(),
            },
    {
        let (frames, _tail) = match storage.scan_valid_frames() {
            Err(error) => {
                return Err(ContinuityError::Store(error));
            },
            Ok(scanned) => scanned,
        };
        Ok(Self::rebuilt(journal_id, max_pending, storage, &frames))
    }

    /// An outbox over a store that contains these frames.
    fn rebuilt(
        journal_id: JournalId,
        max_pending: usize,
        storage: S,
        frames: &Vec<ValidFrame>,
    ) -> (outbox: Self)
        requires
            frames_view(frames@) == storage.log(),
        ensures
            outbox@.journal == journal_id@,
            outbox@.max_pending == (if max_pending == 0 {
                1
            } else {
                max_pending as nat
            }),
            outbox@.log == storage.log(),
            outbox@.synced == storage.synced(),
            outbox@.bytes_used == storage.bytes_used(),
            outbox@.tail == storage.tail(),
            outbox@.failures == storage.failures(),
            outbox@.receipts == Map::<IdView, Receipt>::empty(),
            outbox@.in_step(),
            outbox@.well_formed(),
            outbox.steady() == storage.steady(),
    {
        let (pending, local_durable, committed) = rebuild_indexes(frames);
        proof {
            law_pending_is_outstanding(storage.log());
        }
        ContinuityOutbox {
            journal_id,
            max_pending: if max_pending == 0 {
                1
            } else {
                max_pending
            },
            storage,
            pending,
            local_durable,
            committed,
            receipts: IdMap::new(),
        }
    }

    /// Gives the store back, so that it can be opened again.
    pub fn into_storage(self) -> (storage: S)
        ensures
            storage.log() == self@.log,
            storage.synced() == self@.synced,
            storage.bytes_used() == self@.bytes_used,
            storage.tail() == self@.tail,
            storage.failures() == self@.failures,
            storage.steady() == self.steady(),
    {
        self.storage
    }

    /// Durably admits a submission (append and sync before success).
    ///
    /// Where the store fails, the outbox itself is unchanged and the store may
    /// or may not hold the frame.
    pub fn admit_submission(&mut self, submission: Submission) -> (admitted: Result<
        ContinuityId,
        ContinuityError,
    >)
        ensures
            match admitted {
                Ok(id) => {
                    &&& submission@.records.len() > 0
                    &&& !old(self)@.durable.contains(submission_id(submission@))
                    &&& old(self)@.pending.len() < old(self)@.max_pending
                    &&& id@ == submission_id(submission@)
                    &&& final(self)@ == old(self)@.admitted(submission@)
                },
                Err(ContinuityError::EmptySubmission) => {
                    &&& submission@.records.len() == 0
                    &&& final(self)@ == old(self)@
                },
                Err(ContinuityError::DuplicateIdentity) => {
                    &&& submission@.records.len() > 0
                    &&& old(self)@.durable.contains(submission_id(submission@))
                    &&& final(self)@ == old(self)@
                },
                Err(ContinuityError::Full) => {
                    &&& submission@.records.len() > 0
                    &&& !old(self)@.durable.contains(submission_id(submission@))
                    &&& old(self)@.pending.len() >= old(self)@.max_pending
                    &&& final(self)@ == old(self)@
                },
                Err(ContinuityError::Store(error)) => {
                    &&& old(self)@.fails_with(error)
                    &&& submission@.records.len() > 0
                    &&& !old(self)@.durable.contains(submission_id(submission@))
                    &&& old(self)@.pending.len() < old(self)@.max_pending
                    &&& final(self)@ == old(self)@.with_synced(final(self)@.synced) || final(self)@
                        == old(self)@.with_frame(
                        FrameView::Submission {
                            journal_id: old(self)@.journal,
                            submission: submission@,
                        },
                    ).with_synced(final(self)@.synced)
                },
            },
            old(self)@.well_formed() ==> final(self)@.well_formed(),
            old(self)@.synced <= old(self)@.log.len() ==> old(self)@.synced <= final(self)@.synced
                <= final(self)@.log.len(),
            old(self).steady() ==> {
                &&& final(self).steady()
                &&& admitted matches Err(ContinuityError::Store(error)) ==> error
                    == SpoolError::Frame(SpoolFrameError::Oversized) && !encodable(
                    FrameView::Submission {
                        journal_id: old(self)@.journal,
                        submission: submission@,
                    },
                )
            },
    {
        if submission.records.len() == 0 {
            return Err(ContinuityError::EmptySubmission);
        }
        let id = ContinuityId::from_submission(&submission);
        if self.local_durable.contains(&id) {
            return Err(ContinuityError::DuplicateIdentity);
        }
        if self.pending.len() >= self.max_pending {
            return Err(ContinuityError::Full);
        }
        let ghost before = self@;
        let ghost batch = submission@;
        let frame = SpoolFrame::Submission {
            journal_id: self.journal_id,
            submission: submission.clone(),
        };
        match self.storage.append_frame(&frame) {
            Err(error) => {
                return Err(ContinuityError::Store(error));
            },
            Ok(()) => {},
        }
        match self.storage.sync() {
            Err(error) => {
                return Err(ContinuityError::Store(error));
            },
            Ok(()) => {},
        }
        self.local_durable.insert(id, ());
        self.pending.push(PendingEntry { id, submission });
        proof {
            assert(self@.pending =~= before.pending.push(
                PendingView { id: submission_id(batch), submission: batch },
            ));
            assert(self@.durable =~= before.durable.insert(submission_id(batch)));
            law_admit_keeps_well_formed(before, batch);
        }
        Ok(id)
    }

    /// Peeks the next pending entry without removing it.
    pub fn peek_pending(&self) -> (next: Option<PendingEntry>)
        ensures
            match next {
                Some(entry) => self@.pending.len() > 0 && entry@ == self@.pending[0],
                None => self@.pending.len() == 0,
            },
    {
        if self.pending.len() == 0 {
            None
        } else {
            Some(self.pending[0].clone())
        }
    }

    /// Returns a clone of all pending entries, first admitted first.
    pub fn pending_snapshot(&self) -> (entries: Vec<PendingEntry>)
        ensures
            pending_view(entries@) == self@.pending,
    {
        let entries = self.pending.clone();
        assert(pending_view(entries@) =~= self@.pending);
        entries
    }

    /// Appends progress and syncs, then drops the identity from pending.
    pub fn mark_committed(&mut self, id: ContinuityId) -> (marked: Result<(), ContinuityError>)
        ensures
            match marked {
                Ok(()) => final(self)@ == old(self)@.marked(id@),
                Err(error) => {
                    &&& error is Store && old(self)@.fails_with(error->Store_0)
                    &&& final(self)@ == old(self)@.with_synced(final(self)@.synced) || final(self)@
                        == old(self)@.with_frame(
                        FrameView::Progress(journal_progress(old(self)@.journal, id@)),
                    ).with_synced(final(self)@.synced)
                },
            },
            old(self)@.well_formed() ==> final(self)@.well_formed(),
            old(self)@.synced <= old(self)@.log.len() ==> old(self)@.synced <= final(self)@.synced
                <= final(self)@.log.len(),
            old(self).steady() ==> final(self).steady() && marked is Ok,
    {
        let ghost before = self@;
        let progress = SpoolFrame::Progress(to_progress(&id, self.journal_id));
        proof {
            lemma_progress_encodable(journal_progress(self.journal_id@, id@));
        }
        match self.storage.append_frame(&progress) {
            Err(error) => {
                return Err(ContinuityError::Store(error));
            },
            Ok(()) => {},
        }
        match self.storage.sync() {
            Err(error) => {
                return Err(ContinuityError::Store(error));
            },
            Ok(()) => {},
        }
        self.committed.insert(id, ());
        let mut pending: Vec<PendingEntry> = Vec::new();
        std::mem::swap(&mut pending, &mut self.pending);
        self.pending = drop_pending(pending, &id);
        proof {
            assert(self@.committed =~= before.committed.insert(id@));
            law_mark_keeps_well_formed(before, id@);
        }
        Ok(())
    }

    /// Marks committed, syncs progress, and retains the receipt in-process.
    pub fn mark_committed_with_receipt(&mut self, id: ContinuityId, receipt: Receipt) -> (marked:
        Result<(), ContinuityError>)
        ensures
            match marked {
                Ok(()) => final(self)@ == (OutboxView {
                    receipts: old(self)@.receipts.insert(id@, receipt),
                    ..old(self)@.marked(id@)
                }),
                Err(error) => {
                    &&& error is Store && old(self)@.fails_with(error->Store_0)
                    &&& final(self)@ == old(self)@.with_synced(final(self)@.synced) || final(self)@
                        == old(self)@.with_frame(
                        FrameView::Progress(journal_progress(old(self)@.journal, id@)),
                    ).with_synced(final(self)@.synced)
                },
            },
            old(self)@.well_formed() ==> final(self)@.well_formed(),
            old(self)@.synced <= old(self)@.log.len() ==> old(self)@.synced <= final(self)@.synced
                <= final(self)@.log.len(),
            old(self).steady() ==> final(self).steady() && marked is Ok,
    {
        match self.mark_committed(id) {
            Err(error) => Err(error),
            Ok(()) => {
                self.receipts.insert(id, receipt);
                Ok(())
            },
        }
    }

    /// Whether nothing is pending and every locally durable identity has been marked
    /// committed.
    pub fn fully_drained(&self) -> (drained: bool)
        ensures
            drained == (self@.pending.len() == 0 && self@.durable.subset_of(self@.committed)),
    {
        self.pending.len() == 0 && self.local_durable.ids_are_in(&self.committed)
    }

    /// Current continuity accounting.
    pub fn snapshot(&self) -> (snapshot: ContinuitySnapshot)
        ensures
            snapshot.local_durable@.dom() == self@.durable,
            snapshot.committed@.dom() == self@.committed,
            snapshot.pending == self@.pending.len(),
    {
        ContinuitySnapshot {
            local_durable: self.local_durable.clone(),
            committed: self.committed.clone(),
            pending: self.pending.len(),
        }
    }
}

// Laws.

proof fn lemma_without(pending: Seq<PendingView>, id: IdView)
    ensures
        forall|i: int|
            0 <= i < without(pending, id).len() ==> (#[trigger] without(pending, id)[i]).id != id
                && pending.contains(without(pending, id)[i]),
        forall|i: int|
            0 <= i < pending.len() && (#[trigger] pending[i]).id != id ==> without(
                pending,
                id,
            ).contains(pending[i]),
        pending_ids(pending).no_duplicates() ==> pending_ids(without(pending, id)).no_duplicates(),
    decreases pending.len(),
{
    if pending.len() > 0 {
        let rest = pending.drop_last();
        let last = pending.last();
        let kept = without(rest, id);
        let after = without(pending, id);
        lemma_without(rest, id);
        assert forall|i: int| 0 <= i < after.len() implies (#[trigger] after[i]).id != id
            && pending.contains(after[i]) by {
            if i < kept.len() {
                assert(after[i] == kept[i]);
                let at = rest.index_of(kept[i]);
                assert(rest[at] == kept[i]);
                assert(pending[at] == after[i]);
            } else {
                assert(pending[pending.len() - 1] == after[i]);
            }
        }
        assert forall|i: int| 0 <= i < pending.len() && (#[trigger] pending[i]).id != id implies
            after.contains(pending[i]) by {
            if i < rest.len() {
                assert(rest[i] == pending[i]);
                let at = kept.index_of(rest[i]);
                assert(kept[at] == rest[i]);
                assert(after[at] == rest[i]);
            } else {
                assert(after[after.len() - 1] == pending[i]);
            }
        }
        if pending_ids(pending).no_duplicates() {
            assert(pending_ids(rest) =~= pending_ids(pending).drop_last());
            assert(pending_ids(rest).no_duplicates());
            assert forall|i: int, j: int|
                0 <= i < pending_ids(after).len() && 0 <= j < pending_ids(after).len() && i
                    != j implies pending_ids(after)[i] != pending_ids(after)[j] by {
                if i < kept.len() && j < kept.len() {
                    assert(pending_ids(kept)[i] != pending_ids(kept)[j]);
                } else {
                    let other = if i < kept.len() {
                        i
                    } else {
                        j
                    };
                    let at = rest.index_of(kept[other]);
                    assert(rest[at] == kept[other]);
                    assert(pending_ids(pending)[at] != pending_ids(pending)[pending.len() - 1]);
                }
            }
        }
    }
}

/// Admission keeps an outbox well formed.
pub proof fn law_admit_keeps_well_formed(outbox: OutboxView, submission: SubmissionView)
    requires
        !outbox.durable.contains(submission_id(submission)),
    ensures
        outbox.well_formed() ==> outbox.admitted(submission).well_formed(),
{
    if outbox.well_formed() {
        let after = outbox.admitted(submission);
        assert(pending_ids(after.pending) =~= pending_ids(outbox.pending).push(
            submission_id(submission),
        ));
        assert forall|i: int| 0 <= i < outbox.pending.len() implies pending_ids(outbox.pending)[i]
            != submission_id(submission) by {
            assert(outbox.durable.contains(outbox.pending[i].id));
        }
    }
}

/// Marking an identity committed keeps an outbox well formed.
pub proof fn law_mark_keeps_well_formed(outbox: OutboxView, id: IdView)
    ensures
        outbox.well_formed() ==> outbox.marked(id).well_formed(),
{
    if outbox.well_formed() {
        let after = outbox.marked(id);
        lemma_without(outbox.pending, id);
        assert forall|i: int| 0 <= i < after.pending.len() implies after.durable.contains(
            (#[trigger] after.pending[i]).id,
        ) && after.pending[i].id == submission_id(after.pending[i].submission) by {
            let at = outbox.pending.index_of(after.pending[i]);
            assert(outbox.pending[at] == after.pending[i]);
        }
    }
}

/// What is pending after a reopen is what the log records without progress: each such
/// submission once, under its own identity.
pub proof fn law_pending_is_outstanding(log: Seq<FrameView>)
    ensures
        lists(in_log_order(log), outstanding(log)),
        forall|i: int|
            #![trigger in_log_order(log)[i]]
            0 <= i < in_log_order(log).len() ==> in_log_order(log)[i].id == submission_id(
                in_log_order(log)[i].submission,
            ) && recorded(log).contains(in_log_order(log)[i].id),
{
    let ids = submitted_ids(log);
    let entries = in_log_order(log);
    lemma_submitted_ids(log);
    lemma_entries_of(ids, log);
    assert forall|i: int| #![trigger entries[i]] 0 <= i < entries.len() implies entries[i].id
        == submission_id(entries[i].submission) && recorded(log).contains(entries[i].id)
        && outstanding(log).contains_key(entries[i].id) && outstanding(log)[entries[i].id]
        == entries[i].submission by {
        assert(ids.contains(entries[i].id));
        lemma_logged_submission_id(log, entries[i].id);
    }
    assert forall|id: IdView| #[trigger] outstanding(log).contains_key(id) implies pending_ids(
        entries,
    ).contains(id) by {
        assert(ids.contains(id));
    }
}

/// An admission that succeeds leaves the outbox saying what its store says.
pub proof fn law_admit_keeps_in_step(outbox: OutboxView, submission: SubmissionView)
    requires
        outbox.in_step(),
        !outbox.durable.contains(submission_id(submission)),
    ensures
        outbox.admitted(submission).in_step(),
{
    let id = submission_id(submission);
    let after = outbox.admitted(submission);
    let ids = submitted_ids(outbox.log);
    assert(after.log.drop_last() =~= outbox.log);
    assert(!recorded(outbox.log).contains(id));
    assert(recorded(after.log) =~= outbox.durable.insert(id));
    assert(progressed(after.log) =~= outbox.committed);
    assert(submitted_ids(after.log) == ids.push(id));
    assert(ids.push(id).drop_last() =~= ids);
    lemma_submitted_ids(outbox.log);
    assert forall|i: int| #![trigger ids[i]] 0 <= i < ids.len() implies logged_progress(
        outbox.log,
        ids[i],
    ) == logged_progress(after.log, ids[i]) && logged_submission(outbox.log, ids[i])
        == logged_submission(after.log, ids[i]) by {
        assert(ids.contains(ids[i]));
        assert(ids[i] != id);
    }
    lemma_entries_agree(ids, outbox.log, after.log);
    assert(!logged_progress(after.log, id));
    assert(logged_submission(after.log, id) == Some(submission));
}

/// Marking a durable identity committed leaves the outbox saying what its store says.
pub proof fn law_mark_keeps_in_step(outbox: OutboxView, id: IdView)
    requires
        outbox.in_step(),
        outbox.durable.contains(id),
    ensures
        outbox.marked(id).in_step(),
{
    let after = outbox.marked(id);
    let progress = journal_progress(outbox.journal, id);
    assert(after.log.drop_last() =~= outbox.log);
    assert(recorded(after.log) =~= outbox.durable);
    assert(progressed(after.log) =~= outbox.committed.insert(id));
    lemma_entries_after_progress(submitted_ids(outbox.log), outbox.log, progress);
}

/// Whatever identity is marked, the entries that stay pending stand in the order of the
/// log, as they would after a reopen.
pub proof fn law_mark_keeps_the_log_order(outbox: OutboxView, id: IdView)
    requires
        outbox.pending == in_log_order(outbox.log),
    ensures
        outbox.marked(id).pending == in_log_order(outbox.marked(id).log),
{
    let progress = journal_progress(outbox.journal, id);
    assert(outbox.marked(id).log.drop_last() =~= outbox.log);
    lemma_entries_after_progress(submitted_ids(outbox.log), outbox.log, progress);
}

/// What was admitted is retained: marking one identity committed drops no other
/// pending entry and adds none, and the one marked is gone.
pub proof fn law_mark_drops_only_its_own(outbox: OutboxView, id: IdView, entry: PendingView)
    ensures
        outbox.marked(id).pending.contains(entry) <==> outbox.pending.contains(entry) && entry.id
            != id,
{
    let after = outbox.marked(id);
    lemma_without(outbox.pending, id);
    if outbox.pending.contains(entry) && entry.id != id {
        let at = outbox.pending.index_of(entry);
        assert(outbox.pending[at] == entry);
    }
    if after.pending.contains(entry) {
        let at = after.pending.index_of(entry);
        assert(after.pending[at] == entry);
    }
}

/// Whether what the outbox reports rests on synced frames alone: every identity that it
/// says is durable is recorded, and every one that it says is committed is marked, in the
/// part of the log that is synced.
pub open spec fn rests_on_synced(outbox: OutboxView) -> bool {
    &&& outbox.synced <= outbox.log.len()
    &&& forall|id: IdView| #[trigger]
        outbox.durable.contains(id) ==> recorded(outbox.log.take(outbox.synced as int)).contains(id)
    &&& forall|id: IdView| #[trigger]
        outbox.committed.contains(id) ==> progressed(
            outbox.log.take(outbox.synced as int),
        ).contains(id)
}

proof fn lemma_longer_log_records_more(log: Seq<FrameView>, short: int, long: int, id: IdView)
    requires
        0 <= short <= long <= log.len(),
    ensures
        logged_submission(log.take(short), id) is Some ==> logged_submission(
            log.take(long),
            id,
        ) is Some,
        logged_progress(log.take(short), id) ==> logged_progress(log.take(long), id),
    decreases long - short,
{
    if short < long {
        lemma_longer_log_records_more(log, short, long - 1, id);
        assert(log.take(long).drop_last() =~= log.take(long - 1));
    }
}

/// Nothing is reported before it is durable: an outbox whose reports rest on synced
/// frames still does so after an admission, after a mark, and after a store failure,
/// whether or not the store kept the frame.
pub proof fn law_reports_rest_on_synced_frames(
    outbox: OutboxView,
    submission: SubmissionView,
    id: IdView,
    frame: FrameView,
    synced: nat,
)
    requires
        rests_on_synced(outbox),
        outbox.synced <= synced <= outbox.log.len(),
    ensures
        rests_on_synced(outbox.admitted(submission)),
        rests_on_synced(outbox.marked(id)),
        rests_on_synced(outbox.with_synced(synced)),
        rests_on_synced(outbox.with_frame(frame).with_synced(synced)),
        rests_on_synced(outbox.with_frame(frame).with_synced((outbox.log.len() + 1) as nat)),
{
    lemma_rests_on_longer(outbox, outbox.with_synced(synced));
    lemma_rests_on_longer(outbox, outbox.with_frame(frame).with_synced(synced));
    lemma_rests_on_longer(
        outbox,
        outbox.with_frame(frame).with_synced((outbox.log.len() + 1) as nat),
    );
    let added = FrameView::Submission { journal_id: outbox.journal, submission };
    let stored = outbox.with_frame(added).with_synced((outbox.log.len() + 1) as nat);
    lemma_rests_on_longer(outbox, stored);
    let after = outbox.admitted(submission);
    assert(after.log.take(after.synced as int) =~= after.log);
    assert(stored.log.take(stored.synced as int) =~= stored.log);
    assert(after.log.drop_last() =~= outbox.log);
    assert forall|other: IdView| #[trigger] after.durable.contains(other) implies recorded(
        after.log,
    ).contains(other) by {
        if other != submission_id(submission) {
            assert(stored.durable.contains(other));
        }
    }
    assert forall|other: IdView| #[trigger] after.committed.contains(other) implies progressed(
        after.log,
    ).contains(other) by {
        assert(stored.committed.contains(other));
    }
    let mark = FrameView::Progress(journal_progress(outbox.journal, id));
    let kept = outbox.with_frame(mark).with_synced((outbox.log.len() + 1) as nat);
    lemma_rests_on_longer(outbox, kept);
    let done = outbox.marked(id);
    assert(done.log.take(done.synced as int) =~= done.log);
    assert(kept.log.take(kept.synced as int) =~= kept.log);
    assert(done.log.drop_last() =~= outbox.log);
    assert forall|other: IdView| #[trigger] done.durable.contains(other) implies recorded(
        done.log,
    ).contains(other) by {
        assert(kept.durable.contains(other));
    }
    assert forall|other: IdView| #[trigger] done.committed.contains(other) implies progressed(
        done.log,
    ).contains(other) by {
        if other != id {
            assert(kept.committed.contains(other));
        }
    }
}

proof fn lemma_rests_on_longer(outbox: OutboxView, longer: OutboxView)
    requires
        rests_on_synced(outbox),
        longer.durable == outbox.durable,
        longer.committed == outbox.committed,
        outbox.log.is_prefix_of(longer.log),
        outbox.synced <= longer.synced <= longer.log.len(),
    ensures
        rests_on_synced(longer),
{
    assert(longer.log.take(outbox.synced as int) =~= outbox.log.take(outbox.synced as int));
    assert forall|id: IdView| #[trigger] longer.durable.contains(id) implies recorded(
        longer.log.take(longer.synced as int),
    ).contains(id) by {
        assert(outbox.durable.contains(id));
        lemma_longer_log_records_more(
            longer.log,
            outbox.synced as int,
            longer.synced as int,
            id,
        );
    }
    assert forall|id: IdView| #[trigger] longer.committed.contains(id) implies progressed(
        longer.log.take(longer.synced as int),
    ).contains(id) by {
        assert(outbox.committed.contains(id));
        lemma_longer_log_records_more(
            longer.log,
            outbox.synced as int,
            longer.synced as int,
            id,
        );
    }
}

/// Reopening a store rebuilds what the outbox over it held: two outboxes that both say
/// what the same log says hold the same pending entries in the same order, and the same
/// durable and committed identities.
pub proof fn law_reopen_rebuilds(before: OutboxView, reopened: OutboxView)
    requires
        before.in_step(),
        reopened.in_step(),
        before.log == reopened.log,
    ensures
        before.pending == reopened.pending,
        before.durable == reopened.durable,
        before.committed == reopened.committed,
{
}

/// An outbox that says what its store says is drained exactly when nothing is pending.
pub proof fn law_nothing_pending_is_drained(outbox: OutboxView)
    requires
        outbox.in_step(),
    ensures
        outbox.pending.len() == 0 <==> outbox.durable.subset_of(outbox.committed),
{
    law_pending_is_outstanding(outbox.log);
    if outbox.pending.len() == 0 {
        assert forall|id: IdView| outbox.durable.contains(id) implies outbox.committed.contains(
            id,
        ) by {
            if !logged_progress(outbox.log, id) {
                assert(outstanding(outbox.log).contains_key(id));
                let at = pending_ids(outbox.pending).index_of(id);
                assert(pending_ids(outbox.pending)[at] == id);
            }
        }
    } else {
        let id = outbox.pending[0].id;
        assert(outstanding(outbox.log).contains_key(id));
        assert(outbox.durable.contains(id));
        assert(!outbox.committed.contains(id));
    }
}

/// One more submission in the log is recorded, outstanding where it has no progress, and the one
/// that counts of its identity; nothing else that the log says changes.
pub proof fn law_one_more_submission_is_recorded(
    log: Seq<FrameView>,
    journal_id: Seq<u8>,
    submission: SubmissionView,
    other: IdView,
)
    ensures
        ({
            let id = submission_id(submission);
            let more = log.push(FrameView::Submission { journal_id, submission });
            &&& recorded(more).contains(id)
            &&& logged_submission(more, id) == Some(submission)
            &&& progressed(more).contains(other) == progressed(log).contains(other)
            &&& outstanding(more).contains_key(id) == !progressed(log).contains(id)
            &&& other != id ==> recorded(more).contains(other) == recorded(log).contains(other)
            &&& other != id ==> logged_submission(more, other) == logged_submission(log, other)
        }),
{
    let more = log.push(FrameView::Submission { journal_id, submission });
    assert(more.drop_last() =~= log);
}

/// Progress in the log ends what is outstanding of its identity, in whatever journal it was
/// written, and nothing else.
pub proof fn law_one_more_progress_ends_its_own(
    log: Seq<FrameView>,
    identity: IdentityView,
    other: IdView,
)
    ensures
        ({
            let id = IdView {
                producer_id: identity.producer_id,
                producer_epoch: identity.producer_epoch,
                sequence: identity.sequence,
            };
            let more = log.push(FrameView::Progress(identity));
            &&& progressed(more).contains(id)
            &&& recorded(more).contains(id)
            &&& !outstanding(more).contains_key(id)
            &&& other != id ==> progressed(more).contains(other) == progressed(log).contains(other)
            &&& other != id ==> outstanding(more).contains_key(other) == outstanding(
                log,
            ).contains_key(other)
            &&& logged_submission(more, other) == logged_submission(log, other)
        }),
{
    let more = log.push(FrameView::Progress(identity));
    assert(more.drop_last() =~= log);
}

/// Nothing is said by an empty log.
pub proof fn law_an_empty_log_says_nothing(id: IdView)
    ensures
        !recorded(Seq::empty()).contains(id),
        !progressed(Seq::empty()).contains(id),
        !outstanding(Seq::empty()).contains_key(id),
        in_log_order(Seq::empty()).len() == 0,
{
}

/// Marking what was just admitted leaves pending what was pending before, in its order, with
/// the identity accepted and committed, and the two frames in the store.
pub proof fn law_marking_undoes_the_admission(outbox: OutboxView, submission: SubmissionView)
    requires
        outbox.well_formed(),
        !outbox.durable.contains(submission_id(submission)),
    ensures
        ({
            let id = submission_id(submission);
            let after = outbox.admitted(submission).marked(id);
            &&& after.pending == outbox.pending
            &&& after.durable == outbox.durable.insert(id)
            &&& after.committed == outbox.committed.insert(id)
            &&& after.log.len() == outbox.log.len() + 2
            &&& after.log[outbox.log.len() as int] == (FrameView::Submission {
                journal_id: outbox.journal,
                submission,
            })
            &&& after.log.last() is Progress
            &&& after.log.last()->Progress_0.journal_id == outbox.journal
            &&& after.log.last()->Progress_0.producer_id == submission.producer_id
            &&& after.log.last()->Progress_0.producer_epoch == submission.producer_epoch
            &&& after.log.last()->Progress_0.sequence == submission.sequence
            &&& after.synced == after.log.len()
            &&& after.receipts == outbox.receipts
            &&& after.journal == outbox.journal
            &&& after.max_pending == outbox.max_pending
        }),
{
    let id = submission_id(submission);
    let admitted = outbox.admitted(submission);
    let entry = PendingView { id, submission };
    assert(admitted.pending.drop_last() =~= outbox.pending);
    assert forall|i: int| 0 <= i < outbox.pending.len() implies (#[trigger] outbox.pending[i]).id
        != id by {
        assert(outbox.durable.contains(outbox.pending[i].id));
    }
    lemma_without_none(outbox.pending, id);
}

proof fn lemma_without_none(pending: Seq<PendingView>, id: IdView)
    requires
        forall|i: int| 0 <= i < pending.len() ==> (#[trigger] pending[i]).id != id,
    ensures
        without(pending, id) == pending,
    decreases pending.len(),
{
    if pending.len() > 0 {
        let before = pending.drop_last();
        assert forall|i: int| 0 <= i < before.len() implies (#[trigger] before[i]).id != id by {
            assert(before[i] == pending[i]);
        }
        lemma_without_none(before, id);
        assert(before.push(pending.last()) =~= pending);
    }
}

/// Admission over whole calls: an empty, a known and, where the outbox is full, any submission is
/// refused, in this order, and changes nothing; an admitted one is last in the pending ones, in
/// the store and synced.
pub proof fn law_submissions_are_durable_or_refused<S: SpoolStorage>(
    outbox: &mut ContinuityOutbox<S>,
    submission: Submission,
    admitted: Result<ContinuityId, ContinuityError>,
)
    requires
        call_ensures(ContinuityOutbox::<S>::admit_submission, (outbox, submission), admitted),
    ensures
        ({
            let id = IdView {
                producer_id: submission@.producer_id,
                producer_epoch: submission@.producer_epoch,
                sequence: submission@.sequence,
            };
            let empty = submission@.records.len() == 0;
            let known = old(outbox)@.durable.contains(id);
            let full = old(outbox)@.pending.len() >= old(outbox)@.max_pending;
            &&& empty <==> admitted == Err::<ContinuityId, _>(ContinuityError::EmptySubmission)
            &&& !empty && known <==> admitted == Err::<ContinuityId, _>(
                ContinuityError::DuplicateIdentity,
            )
            &&& !empty && !known && full <==> admitted == Err::<ContinuityId, _>(
                ContinuityError::Full,
            )
            &&& empty || known || full ==> final(outbox)@ == old(outbox)@
            &&& admitted matches Ok(found) ==> {
                &&& found@ == id
                &&& final(outbox)@.pending == old(outbox)@.pending.push(
                    PendingView { id, submission: submission@ },
                )
                &&& final(outbox)@.log == old(outbox)@.log.push(
                    FrameView::Submission {
                        journal_id: old(outbox)@.journal,
                        submission: submission@,
                    },
                )
                &&& final(outbox)@.synced == final(outbox)@.log.len()
                &&& final(outbox)@.durable.contains(id)
                &&& final(outbox)@.committed == old(outbox)@.committed
            }
        }),
{
}

/// Marking over whole calls: progress is in the store and synced before the identity counts as
/// committed and is no longer pending; the receipt is kept with it.
pub proof fn law_marks_are_durable<S: SpoolStorage>(
    outbox: &mut ContinuityOutbox<S>,
    id: ContinuityId,
    receipt: Receipt,
    marked: Result<(), ContinuityError>,
)
    requires
        call_ensures(
            ContinuityOutbox::<S>::mark_committed_with_receipt,
            (outbox, id, receipt),
            marked,
        ),
        old(outbox)@.well_formed(),
    ensures
        marked is Ok ==> {
            &&& final(outbox)@.committed.contains(id@)
            &&& final(outbox)@.log.len() == old(outbox)@.log.len() + 1
            &&& final(outbox)@.log.last() is Progress
            &&& final(outbox)@.log.last()->Progress_0.sequence == id@.sequence
            &&& final(outbox)@.log.last()->Progress_0.producer_id == id@.producer_id
            &&& final(outbox)@.log.last()->Progress_0.producer_epoch == id@.producer_epoch
            &&& final(outbox)@.synced == final(outbox)@.log.len()
            &&& final(outbox)@.receipts.contains_key(id@) && final(outbox)@.receipts[id@] == receipt
            &&& final(outbox)@.durable == old(outbox)@.durable
        },
        marked is Err ==> final(outbox)@.committed == old(outbox)@.committed
            && final(outbox)@.pending == old(outbox)@.pending && final(outbox)@.receipts
            == old(outbox)@.receipts,
{
}

/// The next pending entry is the first admitted; an outbox is drained where nothing is pending
/// and all that it accepted is committed.
pub proof fn law_the_first_admitted_is_next<S: SpoolStorage>(
    outbox: ContinuityOutbox<S>,
    next: Option<PendingEntry>,
    drained: bool,
    id: IdView,
)
    requires
        call_ensures(ContinuityOutbox::<S>::peek_pending, (&outbox,), next),
        call_ensures(ContinuityOutbox::<S>::fully_drained, (&outbox,), drained),
    ensures
        next is None <==> outbox@.pending.len() == 0,
        next matches Some(entry) ==> entry@ == outbox@.pending[0],
        drained ==> outbox@.pending.len() == 0 && (outbox@.durable.contains(id)
            ==> outbox@.committed.contains(id)),
        outbox@.pending.len() == 0 && outbox@.durable == outbox@.committed ==> drained,
{
}

/// An outbox that is opened says what its store says, with room for at least one; a fresh one
/// says nothing.
pub proof fn law_outboxes_open_over_their_store<S: SpoolStorage>(
    journal_id: JournalId,
    max_pending: usize,
    storage: S,
    opened: Result<ContinuityOutbox<S>, ContinuityError>,
)
    requires
        call_ensures(
            ContinuityOutbox::<S>::from_storage,
            (journal_id, max_pending, storage),
            opened,
        ),
    ensures
        opened matches Ok(outbox) ==> {
            &&& outbox@.journal == journal_id@
            &&& outbox@.max_pending >= 1
            &&& max_pending >= 1 ==> outbox@.max_pending == max_pending
            &&& outbox@.log == storage.log()
            &&& outbox@.pending == in_log_order(storage.log())
            &&& outbox@.committed == progressed(storage.log())
            &&& outbox@.durable == recorded(storage.log())
        },
        storage.steady() ==> opened is Ok,
{
}

/// A mark without a receipt is as durable as one with it, and a snapshot counts what there is.
pub proof fn law_marks_and_snapshots_over_whole_calls<S: SpoolStorage>(
    outbox: &mut ContinuityOutbox<S>,
    id: ContinuityId,
    marked: Result<(), ContinuityError>,
    snapshot: ContinuitySnapshot,
)
    requires
        call_ensures(ContinuityOutbox::<S>::mark_committed, (outbox, id), marked),
        call_ensures(ContinuityOutbox::<S>::snapshot, (final(outbox),), snapshot),
    ensures
        marked is Ok ==> snapshot.committed@.dom().contains(id@) && final(outbox)@.log.last()
            is Progress && final(outbox)@.synced == final(outbox)@.log.len(),
        marked is Err ==> snapshot.committed@.dom() == old(outbox)@.committed && snapshot.pending
            == old(outbox)@.pending.len(),
        snapshot.local_durable@.dom() == old(outbox)@.durable,
        snapshot.pending == final(outbox)@.pending.len(),
{
}

} // verus!
