//! Frames, logs, the continuity outbox and the spool cell.
use std::cell::RefCell;
use std::rc::Rc;

use bytes::Bytes;
use scripture_ops::cell::{
    opening_state, progress_failure, refuse_empty, reply_for, Admission, DriverDelivery,
    RecoveryReport, SpoolCell, SpoolCellState,
};
use scripture_ops::continuity::{ContinuityError, ContinuityOutbox, Receipt};
use scripture_ops::file::{ByteLog, FileSpoolStorage};
use scripture_ops::frame::{
    decode_frame, encode_frame, FrameKind, ProgressIdentity, SpoolFrame, SpoolFrameError,
};
use scripture_ops::id_map::ContinuityId;
use scripture_ops::ids::{JournalId, ProducerId};
use scripture_ops::model::{AttributeValue, Attributes, Record, Submission};
use scripture_ops::storage::{
    encoded_frame_bytes, scan_log, InMemorySpoolStorage, ScanTail, SpoolConfig, SpoolError,
    SpoolPoisonCause, SpoolStorage,
};

fn sample_submission() -> SpoolFrame {
    let mut attributes = Attributes::new();
    attributes.insert("k".into(), AttributeValue::I64(7));
    SpoolFrame::Submission {
        journal_id: JournalId::from_bytes(*b"spool-journal!!!"),
        submission: Submission {
            producer_id: ProducerId::from_bytes(*b"spool-producer!!"),
            producer_epoch: 3,
            sequence: 9,
            records: vec![Record::new(attributes, Bytes::from_static(b"payload"))],
        },
    }
}

fn sample_progress() -> SpoolFrame {
    SpoolFrame::Progress(ProgressIdentity {
        journal_id: JournalId::from_bytes(*b"spool-journal!!!"),
        producer_id: ProducerId::from_bytes(*b"spool-producer!!"),
        producer_epoch: 3,
        sequence: 9,
    })
}

#[test]
fn round_trip_submission_and_progress() {
    let frame = sample_submission();
    let encoded = encode_frame(&frame).expect("encode");
    let (decoded, consumed) = decode_frame(&encoded).expect("decode");
    assert_eq!(consumed, encoded.len());
    assert_eq!(decoded, frame);

    let progress = sample_progress();
    let encoded = encode_frame(&progress).expect("encode");
    let (decoded, _) = decode_frame(&encoded).expect("decode");
    assert_eq!(decoded, progress);
}

#[test]
fn crc32c_known_vector_is_castagnoli() {
    const CHECK_VECTOR: &[u8] = b"123456789";
    const CRC32C_CHECK: u32 = 0xE306_9283;
    assert_eq!(crc32c::crc32c(CHECK_VECTOR), CRC32C_CHECK);
    let encoded = encode_frame(&sample_submission()).expect("encode");
    let body_len = u32::from_be_bytes(encoded[0..4].try_into().expect("len")) as usize;
    let body = &encoded[4..4 + body_len];
    let prefix = &body[..body.len() - 4];
    let stored = u32::from_be_bytes(body[body.len() - 4..].try_into().expect("crc"));
    assert_eq!(stored, crc32c::crc32c(prefix));
}

#[test]
fn corrupt_truncated_and_arbitrary_bytes_do_not_panic() {
    let encoded = encode_frame(&sample_submission()).expect("encode");
    assert!(decode_frame(&encoded[..encoded.len().saturating_sub(3)]).is_err());
    let mut bad = encoded.to_vec();
    if let Some(byte) = bad.last_mut() {
        *byte ^= 0xff;
    }
    assert!(matches!(
        decode_frame(&bad),
        Err(SpoolFrameError::ChecksumMismatch)
    ));
    assert!(decode_frame(&[]).is_err());
    assert!(decode_frame(&[0xff; 64]).is_err());
    assert!(decode_frame(b"not a frame at all!!!!!!").is_err());
}

/// A frame around a body whose checksum is right.
fn framed(body: &[u8]) -> Vec<u8> {
    let mut bytes = ((body.len() + 4) as u32).to_be_bytes().to_vec();
    bytes.extend_from_slice(body);
    bytes.extend_from_slice(&crc32c::crc32c(body).to_be_bytes());
    bytes
}

fn body_of(frame: &SpoolFrame) -> Vec<u8> {
    let encoded = encode_frame(frame).expect("encode");
    encoded[4..encoded.len() - 4].to_vec()
}

#[test]
fn each_damage_has_its_name() {
    assert_eq!(decode_frame(&[0, 0]), Err(SpoolFrameError::Truncated));
    let body = body_of(&sample_progress());

    let mut magic = body.clone();
    magic[0] ^= 1;
    assert_eq!(decode_frame(&framed(&magic)), Err(SpoolFrameError::InvalidMagic));

    let mut version = body.clone();
    version[4] = 9;
    assert_eq!(
        decode_frame(&framed(&version)),
        Err(SpoolFrameError::UnsupportedVersion { version: 9 })
    );

    let mut kind = body.clone();
    kind[5] = 7;
    assert_eq!(
        decode_frame(&framed(&kind)),
        Err(SpoolFrameError::UnsupportedKind { kind: 7 })
    );

    let mut longer = body.clone();
    longer.push(0);
    assert_eq!(decode_frame(&framed(&longer)), Err(SpoolFrameError::TrailingBytes));
}

#[test]
fn damaged_attributes_are_told_apart() {
    let mut attributes = Attributes::new();
    attributes.insert("flag".into(), AttributeValue::Bool(true));
    let frame = SpoolFrame::Submission {
        journal_id: JournalId::from_bytes(*b"spool-journal!!!"),
        submission: Submission {
            producer_id: ProducerId::from_bytes(*b"spool-producer!!"),
            producer_epoch: 1,
            sequence: 1,
            records: vec![Record::new(attributes, Bytes::new())],
        },
    };
    let body = body_of(&frame);
    let at = body
        .windows(4)
        .position(|window| window == b"flag")
        .expect("key");

    let mut flag = body.clone();
    flag[at + 9] = 2;
    assert_eq!(
        decode_frame(&framed(&flag)),
        Err(SpoolFrameError::InvalidBool { value: 2 })
    );

    let mut tag = body.clone();
    tag[at + 4] = 200;
    assert_eq!(decode_frame(&framed(&tag)), Err(SpoolFrameError::CorruptPayload));

    let mut text = body.clone();
    text[at] = 0xff;
    assert_eq!(decode_frame(&framed(&text)), Err(SpoolFrameError::InvalidUtf8));
}

#[test]
fn keys_out_of_order_are_not_canonical() {
    let mut attributes = Attributes::new();
    attributes.insert("aa".into(), AttributeValue::Bool(true));
    attributes.insert("bb".into(), AttributeValue::Bool(true));
    let frame = SpoolFrame::Submission {
        journal_id: JournalId::from_bytes(*b"spool-journal!!!"),
        submission: Submission {
            producer_id: ProducerId::from_bytes(*b"spool-producer!!"),
            producer_epoch: 1,
            sequence: 1,
            records: vec![Record::new(attributes, Bytes::new())],
        },
    };
    let mut body = body_of(&frame);
    let at = body.windows(2).position(|window| window == b"bb").expect("key");
    body[at] = b'a';
    body[at + 1] = b'a';
    assert_eq!(
        decode_frame(&framed(&body)),
        Err(SpoolFrameError::NonCanonicalAttributes)
    );
}

#[test]
fn a_frame_says_its_kind_and_identity() {
    assert_eq!(sample_submission().kind(), FrameKind::Submission);
    assert_eq!(sample_progress().kind(), FrameKind::Progress);
    assert_eq!(
        sample_submission().identity().expect("identity").sequence,
        9
    );
}

#[test]
fn attributes_keep_one_value_for_a_key_in_key_order() {
    let mut attributes = Attributes::new();
    attributes.insert("b".into(), AttributeValue::Bool(true));
    attributes.insert("a".into(), AttributeValue::String("x".into()));
    attributes.insert("b".into(), AttributeValue::I64(-1));
    assert_eq!(attributes.len(), 2);
    assert_eq!(attributes.get("b"), Some(&AttributeValue::I64(-1)));
    assert_eq!(attributes.get("a"), Some(&AttributeValue::String("x".into())));
    assert_eq!(attributes.get("c"), None);
}

#[test]
fn a_log_is_read_back_up_to_its_damage() {
    let mut log = encode_frame(&sample_submission()).expect("encode").to_vec();
    log.extend_from_slice(&encoded_frame_bytes(&sample_progress()).expect("encode"));
    let (frames, tail) = scan_log(&log);
    assert_eq!(frames.len(), 2);
    assert_eq!(tail, ScanTail::Clean);
    assert_eq!(frames[1].frame, sample_progress());

    log.extend_from_slice(&[0, 0, 0]);
    let (frames, tail) = scan_log(&log);
    assert_eq!(frames.len(), 2);
    assert_eq!(tail, ScanTail::Damaged(SpoolFrameError::Truncated));
}

#[test]
fn memory_storage_gives_back_what_was_appended() {
    let mut storage = InMemorySpoolStorage::new();
    storage.append_frame(&sample_submission()).expect("append");
    storage.append_frame(&sample_progress()).expect("append");
    storage.sync().expect("sync");
    let (frames, tail) = storage.scan_valid_frames().expect("scan");
    assert_eq!(frames.len(), 2);
    assert_eq!(frames[0].frame, sample_submission());
    assert_eq!(tail, ScanTail::Clean);
    assert_eq!(storage.frame_count(), 2);
    let bytes = encode_frame(&sample_submission()).expect("encode").len()
        + encode_frame(&sample_progress()).expect("encode").len();
    assert_eq!(storage.used_bytes(), bytes);
}

// The continuity outbox.

fn submission(sequence: u64) -> Submission {
    Submission {
        producer_id: ProducerId::from_bytes(*b"cont-producer!!!"),
        producer_epoch: 1,
        sequence,
        records: vec![Record::new(Attributes::new(), Bytes::from_static(b"x"))],
    }
}

fn journal() -> JournalId {
    JournalId::from_bytes(*b"cont-outbox-jrnl")
}

#[test]
fn admit_retains_until_committed() {
    let mut outbox = ContinuityOutbox::memory(journal(), 8);
    let id = outbox.admit_submission(submission(0)).expect("admit");
    assert_eq!(outbox.snapshot().pending, 1);
    outbox.mark_committed(id).expect("commit");
    assert!(outbox.fully_drained());
}

#[test]
fn rejects_duplicate_and_empty() {
    let mut outbox = ContinuityOutbox::memory(journal(), 8);
    outbox.admit_submission(submission(0)).expect("first");
    assert!(matches!(
        outbox.admit_submission(submission(0)),
        Err(ContinuityError::DuplicateIdentity)
    ));
    let empty = Submission {
        producer_id: ProducerId::from_bytes(*b"cont-producer!!!"),
        producer_epoch: 1,
        sequence: 1,
        records: vec![],
    };
    assert!(matches!(
        outbox.admit_submission(empty),
        Err(ContinuityError::EmptySubmission)
    ));
}

#[test]
fn file_outbox_survives_reopen_with_pending_and_progress() {
    let disk: Rc<RefCell<Vec<u8>>> = Rc::default();
    let open = || {
        let log = Disk { bytes: Rc::clone(&disk), ..Disk::default() };
        let contents = disk.borrow().clone();
        ContinuityOutbox::open_file(journal(), 8, log, &contents)
    };
    let id = {
        let mut outbox = open();
        let first = outbox.admit_submission(submission(0)).expect("admit 0");
        let second = outbox.admit_submission(submission(1)).expect("admit 1");
        outbox.mark_committed(first).expect("commit 0");
        assert_eq!(outbox.snapshot().pending, 1);
        second
    };

    let mut reopened = open();
    let snap = reopened.snapshot();
    assert!(snap
        .committed
        .contains(&ContinuityId::from_submission(&submission(0))));
    assert_eq!(snap.pending, 1);
    assert_eq!(reopened.peek_pending().expect("pending").id, id);
    reopened.mark_committed(id).expect("commit 1");
    assert!(reopened.fully_drained());

    let final_open = open();
    assert!(final_open.fully_drained());
    assert_eq!(final_open.snapshot().pending, 0);
}

#[test]
fn an_outbox_is_rebuilt_from_its_store() {
    let mut outbox = ContinuityOutbox::memory(journal(), 8);
    let first = outbox.admit_submission(submission(0)).expect("admit 0");
    outbox.admit_submission(submission(1)).expect("admit 1");
    outbox.mark_committed(first).expect("commit 0");
    let reopened =
        ContinuityOutbox::from_storage(journal(), 8, outbox.into_storage()).expect("reopen");
    assert_eq!(reopened.snapshot().pending, 1);
    assert_eq!(reopened.peek_pending().expect("pending").submission, submission(1));
}

#[test]
fn pending_keeps_the_order_of_admission_over_a_reopen() {
    let sequences = |outbox: &ContinuityOutbox<InMemorySpoolStorage>| -> Vec<u64> {
        outbox
            .pending_snapshot()
            .iter()
            .map(|entry| entry.id.sequence)
            .collect()
    };
    let mut outbox = ContinuityOutbox::memory(journal(), 8);
    outbox.admit_submission(submission(5)).expect("admit 5");
    outbox.admit_submission(submission(1)).expect("admit 1");
    assert_eq!(sequences(&outbox), [5, 1]);
    let reopened =
        ContinuityOutbox::from_storage(journal(), 8, outbox.into_storage()).expect("reopen");
    assert_eq!(sequences(&reopened), [5, 1]);
}

#[test]
fn pending_is_in_log_order_across_producers_and_commits() {
    let of = |producer: &[u8; 16], sequence: u64| Submission {
        producer_id: ProducerId::from_bytes(*producer),
        ..submission(sequence)
    };
    let mut outbox = ContinuityOutbox::memory(journal(), 8);
    outbox.admit_submission(of(b"producer-zzzzzz!", 0)).expect("admit");
    let middle = outbox.admit_submission(of(b"producer-aaaaaa!", 7)).expect("admit");
    outbox.admit_submission(of(b"producer-aaaaaa!", 2)).expect("admit");
    outbox.mark_committed(middle).expect("commit");
    let reopened =
        ContinuityOutbox::from_storage(journal(), 8, outbox.into_storage()).expect("reopen");
    let left: Vec<(ProducerId, u64)> = reopened
        .pending_snapshot()
        .iter()
        .map(|entry| (entry.id.producer_id, entry.id.sequence))
        .collect();
    assert_eq!(
        left,
        [
            (ProducerId::from_bytes(*b"producer-zzzzzz!"), 0),
            (ProducerId::from_bytes(*b"producer-aaaaaa!"), 2),
        ]
    );
}

#[test]
fn a_commit_of_an_unknown_identity_leaves_the_outbox_drained() {
    let mut outbox = ContinuityOutbox::memory(journal(), 8);
    let id = ContinuityId::from_submission(&submission(0));
    outbox.mark_committed(id).expect("commit");
    assert!(outbox.fully_drained());
    outbox.admit_submission(submission(1)).expect("admit");
    assert!(!outbox.fully_drained());
}

#[test]
fn a_full_outbox_refuses_until_something_commits() {
    let mut outbox = ContinuityOutbox::memory(journal(), 1);
    let first = outbox.admit_submission(submission(0)).expect("admit");
    assert!(matches!(
        outbox.admit_submission(submission(1)),
        Err(ContinuityError::Full)
    ));
    let receipt = Receipt { first_offset: 5, deduplicated: false };
    outbox.mark_committed_with_receipt(first, receipt).expect("commit");
    outbox.admit_submission(submission(1)).expect("room again");
    assert_eq!(outbox.pending_snapshot().len(), 1);
    assert_eq!(outbox.pending_snapshot()[0].submission, submission(1));
}

#[test]
fn marking_drops_only_its_own_entry() {
    let mut outbox = ContinuityOutbox::memory(journal(), 8);
    let ids: Vec<ContinuityId> = (0..3)
        .map(|sequence| outbox.admit_submission(submission(sequence)).expect("admit"))
        .collect();
    outbox.mark_committed(ids[1]).expect("commit");
    let left: Vec<u64> = outbox
        .pending_snapshot()
        .iter()
        .map(|entry| entry.id.sequence)
        .collect();
    assert_eq!(left, [0, 2]);
    assert!(!outbox.fully_drained());
}

/// A log in memory that can be made to fail.
#[derive(Debug, Default)]
struct Disk {
    bytes: Rc<RefCell<Vec<u8>>>,
    append_fails: bool,
    sync_fails: bool,
}

impl ByteLog for Disk {
    fn append(&self, bytes: &[u8]) -> Result<(), String> {
        if self.append_fails {
            return Err("disk full".to_owned());
        }
        self.bytes.borrow_mut().extend_from_slice(bytes);
        Ok(())
    }

    fn sync(&self) -> Result<(), String> {
        if self.sync_fails {
            return Err("sync lost".to_owned());
        }
        Ok(())
    }
}

fn broken() -> FileSpoolStorage<Disk> {
    FileSpoolStorage::open(Disk { append_fails: true, ..Disk::default() }, &[])
}

#[test]
fn store_failures_are_reported() {
    let mut outbox = ContinuityOutbox::from_storage(journal(), 8, broken()).expect("open");
    assert_eq!(
        outbox.admit_submission(submission(0)),
        Err(ContinuityError::Store(SpoolError::Io("disk full".to_owned())))
    );
}

#[test]
fn what_was_not_synced_is_not_reported() {
    let storage = FileSpoolStorage::open(Disk { sync_fails: true, ..Disk::default() }, &[]);
    let mut outbox = ContinuityOutbox::from_storage(journal(), 8, storage).expect("open");
    assert_eq!(
        outbox.admit_submission(submission(0)),
        Err(ContinuityError::Store(SpoolError::Io("sync lost".to_owned())))
    );
    let snapshot = outbox.snapshot();
    assert_eq!(snapshot.pending, 0);
    assert_eq!(snapshot.local_durable.len(), 0);
}

#[test]
fn a_log_takes_nothing_after_damage_or_a_failed_write() {
    let mut contents = encode_frame(&sample_submission()).expect("encode").to_vec();
    contents.extend_from_slice(&[1, 2]);
    let mut damaged = FileSpoolStorage::open(Disk::default(), &contents);
    assert_eq!(damaged.frame_count(), 1);
    let (frames, tail) = damaged.scan_valid_frames().expect("scan");
    assert_eq!(frames[0].frame, sample_submission());
    assert_eq!(tail, ScanTail::Damaged(SpoolFrameError::Truncated));
    assert_eq!(damaged.append_frame(&sample_progress()), Err(SpoolError::RecoveryRequired));

    let disk: Rc<RefCell<Vec<u8>>> = Rc::default();
    let log = Disk { bytes: Rc::clone(&disk), sync_fails: true, ..Disk::default() };
    let mut storage = FileSpoolStorage::open(log, &[]);
    storage.append_frame(&sample_progress()).expect("append");
    assert_eq!(storage.sync(), Err(SpoolError::Io("sync lost".to_owned())));
    assert!(matches!(storage.append_frame(&sample_progress()), Err(SpoolError::Io(_))));
    assert_eq!(*disk.borrow(), encode_frame(&sample_progress()).expect("encode").to_vec());
    assert_eq!(storage.used_bytes(), disk.borrow().len());
}

// The spool cell.

fn limits() -> SpoolConfig {
    SpoolConfig {
        max_frame_bytes: 4096,
        max_wal_bytes: 65536,
        max_frames: 64,
        max_inflight_completions: 2,
    }
}

fn cell() -> SpoolCell<InMemorySpoolStorage> {
    SpoolCell::open(journal(), limits(), InMemorySpoolStorage::new(), Ok(())).expect("open")
}

#[test]
fn a_fresh_cell_serves_and_history_must_be_recovered() {
    let fresh = cell();
    assert!(fresh.is_serving());
    assert_eq!(fresh.recovery_report(), None);

    let mut storage = InMemorySpoolStorage::new();
    storage.append_frame(&sample_submission()).expect("append");
    let mut reopened = SpoolCell::open(journal(), limits(), storage, Ok(())).expect("open");
    assert!(!reopened.is_serving());
    let report = reopened.recovery_report().expect("report");
    assert_eq!(report.frames, 1);
    assert!(report.recovery_required());
    assert_eq!(
        reopened.admit_wal_and_queue(submission(0), true),
        Admission::Refused(SpoolError::RecoveryRequired)
    );
    assert_eq!(
        opening_state(RecoveryReport { frames: 0, tail: ScanTail::Clean }),
        SpoolCellState::Serving
    );
}

#[test]
fn limits_that_cannot_be_kept_open_no_cell() {
    let refusal = SpoolError::Io("max_frames must be >= 1".to_owned());
    assert_eq!(
        SpoolCell::open(
            journal(),
            SpoolConfig { max_frames: 0, ..limits() },
            InMemorySpoolStorage::new(),
            Err(SpoolError::Io("max_frames must be >= 1".to_owned())),
        )
        .err(),
        Some(refusal)
    );
}

#[test]
fn a_committed_submission_is_recorded_and_known() {
    let mut cell = cell();
    let work = match cell.admit_wal_and_queue(submission(0), true) {
        Admission::Durable(work) => work,
        other => panic!("not durable: {other:?}"),
    };
    assert_eq!(
        cell.admit_wal_and_queue(submission(0), true),
        Admission::Refused(SpoolError::DuplicateIdentity)
    );
    let receipt = Receipt { first_offset: 41, deduplicated: false };
    assert_eq!(
        cell.complete_work(work, DriverDelivery::Receipt(receipt)),
        Some(Ok(receipt))
    );
    assert!(cell.is_serving());
}

#[test]
fn a_lost_receipt_poisons_the_cell_and_the_first_cause_stays() {
    let mut cell = cell();
    let work = match cell.admit_wal_and_queue(submission(0), true) {
        Admission::Durable(work) => work,
        other => panic!("not durable: {other:?}"),
    };
    cell.complete_work(work, DriverDelivery::ReceiptFailed("gone".to_owned()));
    let cause = SpoolPoisonCause::ReceiptFailed;
    assert_eq!(cell.state(), SpoolCellState::Poisoned { cause });
    cell.poison(SpoolPoisonCause::ForwardFailed);
    assert_eq!(cell.state(), SpoolCellState::Poisoned { cause });
    assert_eq!(
        cell.admit_wal_and_queue(submission(1), true),
        Admission::Refused(SpoolError::Poisoned { cause })
    );
}

#[test]
fn admissions_stay_within_the_limits() {
    let mut cell = cell();
    for sequence in 0..2 {
        assert!(matches!(
            cell.admit_wal_and_queue(submission(sequence), true),
            Admission::Durable(_)
        ));
    }
    assert_eq!(
        cell.admit_wal_and_queue(submission(2), true),
        Admission::Refused(SpoolError::CapacityExceeded)
    );
    let tight = SpoolConfig { max_frame_bytes: 8, ..limits() };
    let mut small =
        SpoolCell::open(journal(), tight, InMemorySpoolStorage::new(), Ok(())).expect("open");
    assert_eq!(
        small.admit_wal_and_queue(submission(0), true),
        Admission::Refused(SpoolError::CapacityExceeded)
    );
}

#[test]
fn a_cancelled_admission_gives_its_room_back() {
    let mut cell = SpoolCell::open(
        journal(),
        SpoolConfig { max_inflight_completions: 1, ..limits() },
        broken(),
        Ok(()),
    )
    .expect("open");
    let later = "an earlier write to the log failed";
    for said in ["disk full", later, later] {
        let work = match cell.admit_wal_and_queue(submission(0), true) {
            Admission::Canceled { work, error } => {
                assert_eq!(error, SpoolError::Io(said.to_owned()));
                work
            }
            other => panic!("not cancelled: {other:?}"),
        };
        cell.complete_work(work, DriverDelivery::Canceled);
        assert!(cell.is_serving());
    }
}

#[test]
fn a_queue_that_is_gone_refuses_before_anything_is_written() {
    let mut cell = cell();
    assert!(matches!(
        cell.admit_wal_and_queue(submission(0), false),
        Admission::Refused(_)
    ));
}

#[test]
fn cell_failures_are_reported_as_the_submitter_sees_them() {
    let empty = Submission { records: vec![], ..submission(0) };
    assert!(refuse_empty(&empty, "empty".to_owned()).is_some());
    assert_eq!(refuse_empty(&submission(0), "empty".to_owned()), None);
    assert_eq!(progress_failure(SpoolError::CapacityExceeded), SpoolError::ProgressFailed);
    let receipt = Receipt { first_offset: 1, deduplicated: true };
    assert_eq!(reply_for(Ok(receipt)), Some(Ok(receipt)));
}

#[test]
fn identities_are_ordered_by_producer_epoch_and_sequence() {
    let id = |epoch: u32, sequence: u64| ContinuityId {
        producer_id: ProducerId::from_bytes(*b"cont-producer!!!"),
        producer_epoch: epoch,
        sequence,
    };
    assert!(id(1, 5).is_before(&id(1, 6)));
    assert!(id(1, 9).is_before(&id(2, 0)));
    assert!(!id(2, 0).is_before(&id(1, 9)));
    assert!(id(2, 0).same(&id(2, 0)));
}
