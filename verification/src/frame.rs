//! Versioned length-delimited spool frames (CRC32C Castagnoli).
//!
//! A frame is a four-byte length and a body. The body is the marker `SSWF`, a
//! version, a kind, a submission identity, the records of a submission, and
//! the CRC32C of all that comes before it. Numbers stand most significant byte
//! first; texts and payloads follow their length.
use crate::buffers::{
    be32, be64, buffer_limit, copy_from_slice, extend_from_slice, filled, filled_slice, freeze,
    from_be32, from_be64, held, held_slice, i64_bits, new_buffer, put_i64, put_u32, put_u64, put_u8,
    read_be32, read_be64,
};
use crate::frame_laws::law_encode_undoes_decode;
use crate::ids::{identity_from_slice, JournalId, ProducerId};
use crate::model::{
    entries_view, keys_ascend, records_view, AttributeSeq, AttributeValue, AttributeView, Attributes,
    Record, RecordView, Submission, SubmissionView,
};
use crate::text::{is_text_before, text_before, text_from_utf8};
use vstd::prelude::*;
use vstd::utf8::{decode_utf8, encode_utf8, valid_utf8};

verus! {

pub const VERSION: u8 = 1;

pub const KIND_SUBMISSION: u8 = 1;

pub const KIND_PROGRESS: u8 = 2;

pub const STRING_TAG: u8 = 1;

pub const I64_TAG: u8 = 2;

pub const BOOL_TAG: u8 = 3;

/// Identity shared by a submission frame and its progress frame.
#[derive(Debug, Clone, Copy, PartialEq, Eq, PartialOrd, Ord, Hash)]
pub struct ProgressIdentity {
    /// Journal the submission targeted.
    pub journal_id: JournalId,
    /// Producer identity.
    pub producer_id: ProducerId,
    /// Producer epoch.
    pub producer_epoch: u32,
    /// Producer sequence.
    pub sequence: u64,
}

/// What a progress identity is, apart from its representation.
pub struct IdentityView {
    pub journal_id: Seq<u8>,
    pub producer_id: Seq<u8>,
    pub producer_epoch: u32,
    pub sequence: u64,
}

impl View for ProgressIdentity {
    type V = IdentityView;

    open spec fn view(&self) -> IdentityView {
        IdentityView {
            journal_id: self.journal_id@,
            producer_id: self.producer_id@,
            producer_epoch: self.producer_epoch,
            sequence: self.sequence,
        }
    }
}

/// Decoded spool frame body (CRC already verified).
#[derive(Debug, PartialEq, Eq)]
pub enum SpoolFrame {
    /// Durable submission identity and records (no placement).
    Submission {
        /// Journal this submission targets.
        journal_id: JournalId,
        /// Unchanged driver submission.
        submission: Submission,
    },
    /// Local evidence that a wrapped committed receipt completed.
    Progress(ProgressIdentity),
}

/// What a frame is, apart from its representation.
pub enum FrameView {
    Submission { journal_id: Seq<u8>, submission: SubmissionView },
    Progress(IdentityView),
}

impl View for SpoolFrame {
    type V = FrameView;

    open spec fn view(&self) -> FrameView {
        match self {
            SpoolFrame::Submission { journal_id, submission } => FrameView::Submission {
                journal_id: journal_id@,
                submission: submission@,
            },
            SpoolFrame::Progress(identity) => FrameView::Progress(identity@),
        }
    }
}

impl FrameView {
    /// The identity that the frame speaks of.
    pub open spec fn identity(self) -> IdentityView {
        match self {
            FrameView::Submission { journal_id, submission } => IdentityView {
                journal_id,
                producer_id: submission.producer_id,
                producer_epoch: submission.producer_epoch,
                sequence: submission.sequence,
            },
            FrameView::Progress(identity) => identity,
        }
    }

    /// Whether the identities have their sixteen bytes and the attribute keys of
    /// every record ascend, as those of every `SpoolFrame` do.
    pub open spec fn canonical(self) -> bool {
        &&& self.identity().journal_id.len() == 16
        &&& self.identity().producer_id.len() == 16
        &&& match self {
            FrameView::Submission { submission, .. } => forall|i: int|
                0 <= i < submission.records.len() ==> keys_ascend(
                    #[trigger] submission.records[i].attributes,
                ),
            FrameView::Progress(_) => true,
        }
    }
}

/// Frame kind discriminator for diagnostics.
#[derive(Debug, Clone, Copy, PartialEq, Eq, Structural)]
pub enum FrameKind {
    /// Submission frame.
    Submission,
    /// Progress evidence frame.
    Progress,
}

impl SpoolFrame {
    /// Frame kind.
    pub fn kind(&self) -> (kind: FrameKind)
        ensures
            kind == (match self@ {
                FrameView::Submission { .. } => FrameKind::Submission,
                FrameView::Progress(_) => FrameKind::Progress,
            }),
    {
        match self {
            SpoolFrame::Submission { .. } => FrameKind::Submission,
            SpoolFrame::Progress(_) => FrameKind::Progress,
        }
    }

    /// The identity that the frame speaks of.
    pub fn identity(&self) -> (identity: Option<ProgressIdentity>)
        ensures
            identity matches Some(identity) && identity@ == self@.identity(),
    {
        match self {
            SpoolFrame::Submission { journal_id, submission } => Some(
                ProgressIdentity {
                    journal_id: *journal_id,
                    producer_id: submission.producer_id,
                    producer_epoch: submission.producer_epoch,
                    sequence: submission.sequence,
                },
            ),
            SpoolFrame::Progress(identity) => Some(*identity),
        }
    }
}

impl Clone for SpoolFrame {
    fn clone(&self) -> (copy: Self)
        ensures
            copy@ == self@,
    {
        match self {
            SpoolFrame::Submission { journal_id, submission } => SpoolFrame::Submission {
                journal_id: *journal_id,
                submission: submission.clone(),
            },
            SpoolFrame::Progress(identity) => SpoolFrame::Progress(*identity),
        }
    }
}

/// Frame codec failures. Decoding arbitrary bytes yields these, never a panic.
#[derive(Debug, Clone, Copy, PartialEq, Eq, Structural)]
pub enum SpoolFrameError {
    /// Input ended before a complete value was available.
    Truncated,
    /// Magic marker was invalid.
    InvalidMagic,
    /// Frame version is not understood.
    UnsupportedVersion {
        /// Observed version.
        version: u8,
    },
    /// Kind tag is not understood.
    UnsupportedKind {
        /// Observed kind.
        kind: u8,
    },
    /// CRC32C mismatch.
    ChecksumMismatch,
    /// Attribute or record body is malformed.
    CorruptPayload,
    /// UTF-8 text was malformed.
    InvalidUtf8,
    /// A bool was not encoded canonically.
    InvalidBool {
        /// Observed byte.
        value: u8,
    },
    /// Attribute keys were duplicated or not canonically ordered.
    NonCanonicalAttributes,
    /// A length or count cannot be represented.
    Oversized,
    /// Bytes remained after the declared value inside a payload section.
    TrailingBytes,
}

/// The CRC32C (Castagnoli) of the bytes, as `crc32c::crc32c` computes it.
pub uninterp spec fn crc32c_of(bytes: Seq<u8>) -> u32;

/// `crc32c::crc32c`: the CRC32C of the bytes; it depends on nothing else.
#[verifier::external_body]
fn crc32c(bytes: &[u8]) -> (sum: u32)
    ensures
        sum == crc32c_of(bytes@),
{
    crc32c::crc32c(bytes)
}

// The written form.

/// The marker at the start of every body.
pub open spec fn magic() -> Seq<u8> {
    seq![0x53u8, 0x53u8, 0x57u8, 0x46u8]
}

/// A length and that many bytes.
pub open spec fn written_bytes(bytes: Seq<u8>) -> Seq<u8> {
    be32(bytes.len() as u32) + bytes
}

/// An attribute value: a tag, a length, the value.
pub open spec fn written_value(value: AttributeView) -> Seq<u8> {
    match value {
        AttributeView::Text(text) => seq![STRING_TAG] + written_bytes(encode_utf8(text)),
        AttributeView::Number(number) => seq![I64_TAG] + (be32(8) + be64(i64_bits(number))),
        AttributeView::Flag(flag) => seq![BOOL_TAG] + (be32(1) + seq![
            if flag {
                1u8
            } else {
                0u8
            },
        ]),
    }
}

/// An attribute: its key, then its value.
#[verifier::opaque]
pub open spec fn written_attribute(entry: (Seq<char>, AttributeView)) -> Seq<u8> {
    written_bytes(encode_utf8(entry.0)) + written_value(entry.1)
}

/// Attributes, one after the other.
pub open spec fn written_attributes(entries: AttributeSeq) -> Seq<u8>
    decreases entries.len(),
{
    if entries.len() == 0 {
        Seq::empty()
    } else {
        written_attribute(entries[0]) + written_attributes(entries.skip(1))
    }
}

/// A record: how many attributes, the attributes, the payload.
#[verifier::opaque]
pub open spec fn written_record(record: RecordView) -> Seq<u8> {
    be32(record.attributes.len() as u32) + (written_attributes(record.attributes) + written_bytes(
        record.payload,
    ))
}

/// Records, one after the other.
pub open spec fn written_records(records: Seq<RecordView>) -> Seq<u8>
    decreases records.len(),
{
    if records.len() == 0 {
        Seq::empty()
    } else {
        written_record(records[0]) + written_records(records.skip(1))
    }
}

/// An identity: journal, producer, epoch, sequence.
pub open spec fn written_identity(identity: IdentityView) -> Seq<u8> {
    identity.journal_id + (identity.producer_id + (be32(identity.producer_epoch) + be64(
        identity.sequence,
    )))
}

/// The part of the body that the checksum covers.
pub open spec fn written_prefix(frame: FrameView) -> Seq<u8> {
    match frame {
        FrameView::Submission { submission, .. } => magic() + (seq![VERSION, KIND_SUBMISSION] + (
        written_identity(frame.identity()) + (be32(submission.records.len() as u32)
            + written_records(submission.records)))),
        FrameView::Progress(identity) => magic() + (seq![VERSION, KIND_PROGRESS]
            + written_identity(identity)),
    }
}

/// The body: what the checksum covers, and the checksum.
pub open spec fn written_body(frame: FrameView) -> Seq<u8> {
    written_prefix(frame) + be32(crc32c_of(written_prefix(frame)))
}

/// The frame as it stands on disk.
pub open spec fn written_frame(frame: FrameView) -> Seq<u8> {
    be32(written_body(frame).len() as u32) + written_body(frame)
}

/// Whether a length can be written.
pub open spec fn length_fits(length: nat) -> bool {
    length <= u32::MAX
}

/// Whether every length in the attribute can be written.
pub open spec fn attribute_fits(entry: (Seq<char>, AttributeView)) -> bool {
    &&& length_fits(encode_utf8(entry.0).len())
    &&& entry.1 matches AttributeView::Text(text) ==> length_fits(encode_utf8(text).len())
}

/// Whether every length in the record can be written.
pub open spec fn record_fits(record: RecordView) -> bool {
    &&& length_fits(record.attributes.len())
    &&& forall|i: int|
        0 <= i < record.attributes.len() ==> attribute_fits(#[trigger] record.attributes[i])
    &&& length_fits(record.payload.len())
}

/// Whether every length in the frame, its own included, can be written.
pub open spec fn frame_fits(frame: FrameView) -> bool {
    &&& match frame {
        FrameView::Submission { submission, .. } => {
            &&& length_fits(submission.records.len())
            &&& forall|i: int|
                0 <= i < submission.records.len() ==> record_fits(#[trigger] submission.records[i])
        },
        FrameView::Progress(_) => true,
    }
    &&& length_fits(written_body(frame).len())
}

// The reading of bytes. Each reader gives the value and the bytes after it, or
// the first thing that is wrong.

/// One byte.
pub open spec fn read_u8(bytes: Seq<u8>) -> Result<(u8, Seq<u8>), SpoolFrameError> {
    if bytes.len() < 1 {
        Err(SpoolFrameError::Truncated)
    } else {
        Ok((bytes[0], bytes.skip(1)))
    }
}

/// A four-byte number.
pub open spec fn read_u32(bytes: Seq<u8>) -> Result<(u32, Seq<u8>), SpoolFrameError> {
    if bytes.len() < 4 {
        Err(SpoolFrameError::Truncated)
    } else {
        Ok((from_be32(bytes.take(4)), bytes.skip(4)))
    }
}

/// An eight-byte signed number.
pub open spec fn read_i64(bytes: Seq<u8>) -> Result<(i64, Seq<u8>), SpoolFrameError> {
    if bytes.len() < 8 {
        Err(SpoolFrameError::Truncated)
    } else {
        Ok((from_be64(bytes.take(8)) as i64, bytes.skip(8)))
    }
}

/// A length and that many bytes.
pub open spec fn read_bytes(bytes: Seq<u8>) -> Result<(Seq<u8>, Seq<u8>), SpoolFrameError> {
    match read_u32(bytes) {
        Err(error) => Err(error),
        Ok((length, rest)) => if rest.len() < length {
            Err(SpoolFrameError::Truncated)
        } else {
            Ok((rest.take(length as int), rest.skip(length as int)))
        },
    }
}

/// A length and that many bytes of UTF-8.
pub open spec fn read_text(bytes: Seq<u8>) -> Result<(Seq<char>, Seq<u8>), SpoolFrameError> {
    match read_bytes(bytes) {
        Err(error) => Err(error),
        Ok((encoded, rest)) => if valid_utf8(encoded) {
            Ok((decode_utf8(encoded), rest))
        } else {
            Err(SpoolFrameError::InvalidUtf8)
        },
    }
}

/// A number after its length, which is eight.
pub open spec fn read_number(bytes: Seq<u8>) -> Result<(AttributeView, Seq<u8>), SpoolFrameError> {
    match read_u32(bytes) {
        Err(error) => Err(error),
        Ok((length, rest)) => if length != 8 {
            Err(SpoolFrameError::CorruptPayload)
        } else {
            match read_i64(rest) {
                Err(error) => Err(error),
                Ok((number, rest)) => Ok((AttributeView::Number(number), rest)),
            }
        },
    }
}

/// A flag after its length, which is one.
pub open spec fn read_flag(bytes: Seq<u8>) -> Result<(AttributeView, Seq<u8>), SpoolFrameError> {
    match read_u32(bytes) {
        Err(error) => Err(error),
        Ok((length, rest)) => if length != 1 {
            Err(SpoolFrameError::CorruptPayload)
        } else {
            match read_u8(rest) {
                Err(error) => Err(error),
                Ok((value, rest)) => if value > 1 {
                    Err(SpoolFrameError::InvalidBool { value })
                } else {
                    Ok((AttributeView::Flag(value == 1), rest))
                },
            }
        },
    }
}

/// An attribute value.
pub open spec fn read_value(bytes: Seq<u8>) -> Result<(AttributeView, Seq<u8>), SpoolFrameError> {
    match read_u8(bytes) {
        Err(error) => Err(error),
        Ok((tag, rest)) => if tag == STRING_TAG {
            match read_text(rest) {
                Err(error) => Err(error),
                Ok((text, rest)) => Ok((AttributeView::Text(text), rest)),
            }
        } else if tag == I64_TAG {
            read_number(rest)
        } else if tag == BOOL_TAG {
            read_flag(rest)
        } else {
            Err(SpoolFrameError::CorruptPayload)
        },
    }
}

/// An attribute whose key comes after `last`.
#[verifier::opaque]
pub open spec fn read_attribute(bytes: Seq<u8>, last: Option<Seq<char>>) -> Result<
    ((Seq<char>, AttributeView), Seq<u8>),
    SpoolFrameError,
> {
    match read_text(bytes) {
        Err(error) => Err(error),
        Ok((key, rest)) => if last matches Some(prior) && !text_before(prior, key) {
            Err(SpoolFrameError::NonCanonicalAttributes)
        } else {
            match read_value(rest) {
                Err(error) => Err(error),
                Ok((value, rest)) => Ok(((key, value), rest)),
            }
        },
    }
}

/// As many attributes as `count` says, the first with a key after `last`.
pub open spec fn read_attributes(bytes: Seq<u8>, count: nat, last: Option<Seq<char>>) -> Result<
    (AttributeSeq, Seq<u8>),
    SpoolFrameError,
>
    decreases count,
{
    if count == 0 {
        Ok((Seq::empty(), bytes))
    } else {
        match read_attribute(bytes, last) {
            Err(error) => Err(error),
            Ok((entry, rest)) => match read_attributes(rest, (count - 1) as nat, Some(entry.0)) {
                Err(error) => Err(error),
                Ok((entries, rest)) => Ok((seq![entry] + entries, rest)),
            },
        }
    }
}

/// A record.
#[verifier::opaque]
pub open spec fn read_record(bytes: Seq<u8>) -> Result<(RecordView, Seq<u8>), SpoolFrameError> {
    match read_u32(bytes) {
        Err(error) => Err(error),
        Ok((count, rest)) => match read_attributes(rest, count as nat, None) {
            Err(error) => Err(error),
            Ok((attributes, rest)) => match read_bytes(rest) {
                Err(error) => Err(error),
                Ok((payload, rest)) => Ok((RecordView { attributes, payload }, rest)),
            },
        },
    }
}

/// As many records as `count` says.
pub open spec fn read_record_list(bytes: Seq<u8>, count: nat) -> Result<
    (Seq<RecordView>, Seq<u8>),
    SpoolFrameError,
>
    decreases count,
{
    if count == 0 {
        Ok((Seq::empty(), bytes))
    } else {
        match read_record(bytes) {
            Err(error) => Err(error),
            Ok((record, rest)) => match read_record_list(rest, (count - 1) as nat) {
                Err(error) => Err(error),
                Ok((records, rest)) => Ok((seq![record] + records, rest)),
            },
        }
    }
}

/// How many records, and that many records, with nothing after them.
pub open spec fn read_records(bytes: Seq<u8>) -> Result<Seq<RecordView>, SpoolFrameError> {
    match read_u32(bytes) {
        Err(error) => Err(error),
        Ok((count, rest)) => match read_record_list(rest, count as nat) {
            Err(error) => Err(error),
            Ok((records, rest)) => if rest.len() > 0 {
                Err(SpoolFrameError::TrailingBytes)
            } else {
                Ok(records)
            },
        },
    }
}

/// The identity in the first forty-four bytes.
pub open spec fn identity_at(payload: Seq<u8>) -> IdentityView {
    IdentityView {
        journal_id: payload.subrange(0, 16),
        producer_id: payload.subrange(16, 32),
        producer_epoch: from_be32(payload.subrange(32, 36)),
        sequence: from_be64(payload.subrange(36, 44)),
    }
}

/// What follows the kind of a submission.
pub open spec fn read_submission(payload: Seq<u8>) -> Result<FrameView, SpoolFrameError> {
    if payload.len() < 44 {
        Err(SpoolFrameError::Truncated)
    } else {
        match read_records(payload.skip(44)) {
            Err(error) => Err(error),
            Ok(records) => Ok(
                FrameView::Submission {
                    journal_id: identity_at(payload).journal_id,
                    submission: SubmissionView {
                        producer_id: identity_at(payload).producer_id,
                        producer_epoch: identity_at(payload).producer_epoch,
                        sequence: identity_at(payload).sequence,
                        records,
                    },
                },
            ),
        }
    }
}

/// What follows the kind of a progress frame.
pub open spec fn read_progress(payload: Seq<u8>) -> Result<IdentityView, SpoolFrameError> {
    if payload.len() < 44 {
        Err(SpoolFrameError::Truncated)
    } else if payload.len() > 44 {
        Err(SpoolFrameError::TrailingBytes)
    } else {
        Ok(identity_at(payload))
    }
}

/// What the checksum covers.
pub open spec fn read_prefix(prefix: Seq<u8>) -> Result<FrameView, SpoolFrameError> {
    if prefix.take(4) != magic() {
        Err(SpoolFrameError::InvalidMagic)
    } else if prefix[4] != VERSION {
        Err(SpoolFrameError::UnsupportedVersion { version: prefix[4] })
    } else if prefix[5] == KIND_SUBMISSION {
        read_submission(prefix.skip(6))
    } else if prefix[5] == KIND_PROGRESS {
        match read_progress(prefix.skip(6)) {
            Err(error) => Err(error),
            Ok(identity) => Ok(FrameView::Progress(identity)),
        }
    } else {
        Err(SpoolFrameError::UnsupportedKind { kind: prefix[5] })
    }
}

/// The frame at the start of the bytes, and how many bytes it takes.
#[verifier::opaque]
pub open spec fn read_frame(bytes: Seq<u8>) -> Result<(FrameView, nat), SpoolFrameError> {
    let total = 4 + from_be32(bytes.take(4));
    if bytes.len() < 4 {
        Err(SpoolFrameError::Truncated)
    } else if total > usize::MAX {
        Err(SpoolFrameError::Oversized)
    } else if bytes.len() < total || total < 14 {
        Err(SpoolFrameError::Truncated)
    } else if crc32c_of(bytes.subrange(4, total - 4)) != from_be32(
        bytes.subrange(total - 4, total),
    ) {
        Err(SpoolFrameError::ChecksumMismatch)
    } else {
        match read_prefix(bytes.subrange(4, total - 4)) {
            Err(error) => Err(error),
            Ok(frame) => Ok((frame, total as nat)),
        }
    }
}

// Decoding.

fn take_u8<'a>(bytes: &'a [u8]) -> (taken: Result<(u8, &'a [u8]), SpoolFrameError>)
    ensures
        match taken {
            Ok((value, rest)) => read_u8(bytes@) == Ok::<_, SpoolFrameError>((value, rest@)),
            Err(error) => read_u8(bytes@) == Err::<(u8, Seq<u8>), _>(error),
        },
{
    if bytes.len() < 1 {
        return Err(SpoolFrameError::Truncated);
    }
    Ok((bytes[0], &bytes[1..bytes.len()]))
}

fn take_u32<'a>(bytes: &'a [u8]) -> (taken: Result<(u32, &'a [u8]), SpoolFrameError>)
    ensures
        match taken {
            Ok((value, rest)) => read_u32(bytes@) == Ok::<_, SpoolFrameError>((value, rest@)),
            Err(error) => read_u32(bytes@) == Err::<(u32, Seq<u8>), _>(error),
        },
{
    if bytes.len() < 4 {
        return Err(SpoolFrameError::Truncated);
    }
    let value: u32 = read_be32(bytes);
    Ok((value, &bytes[4..bytes.len()]))
}

fn take_i64<'a>(bytes: &'a [u8]) -> (taken: Result<(i64, &'a [u8]), SpoolFrameError>)
    ensures
        match taken {
            Ok((value, rest)) => read_i64(bytes@) == Ok::<_, SpoolFrameError>((value, rest@)),
            Err(error) => read_i64(bytes@) == Err::<(i64, Seq<u8>), _>(error),
        },
{
    if bytes.len() < 8 {
        return Err(SpoolFrameError::Truncated);
    }
    let bits: u64 = read_be64(bytes);
    assert(bytes@.take(8).skip(4).take(4) =~= bytes@.skip(4).take(4));
    let value: i64 = #[verifier::truncate]
    (bits as i64);
    Ok((value, &bytes[8..bytes.len()]))
}

fn take_len_bytes<'a>(bytes: &'a [u8]) -> (taken: Result<(&'a [u8], &'a [u8]), SpoolFrameError>)
    ensures
        match taken {
            Ok((value, rest)) => read_bytes(bytes@) == Ok::<_, SpoolFrameError>((value@, rest@)),
            Err(error) => read_bytes(bytes@) == Err::<(Seq<u8>, Seq<u8>), _>(error),
        },
{
    match take_u32(bytes) {
        Err(error) => Err(error),
        Ok((length, rest)) => {
            let length: usize = length as usize;
            if rest.len() < length {
                return Err(SpoolFrameError::Truncated);
            }
            Ok((&rest[0..length], &rest[length..rest.len()]))
        },
    }
}

fn take_text<'a>(bytes: &'a [u8]) -> (taken: Result<(String, &'a [u8]), SpoolFrameError>)
    ensures
        match taken {
            Ok((text, rest)) => read_text(bytes@) == Ok::<_, SpoolFrameError>((text@, rest@)),
            Err(error) => read_text(bytes@) == Err::<(Seq<char>, Seq<u8>), _>(error),
        },
{
    match take_len_bytes(bytes) {
        Err(error) => Err(error),
        Ok((encoded, rest)) => match text_from_utf8(encoded) {
            None => Err(SpoolFrameError::InvalidUtf8),
            Some(text) => Ok((text.to_owned(), rest)),
        },
    }
}

fn take_number<'a>(bytes: &'a [u8]) -> (taken: Result<(AttributeValue, &'a [u8]), SpoolFrameError>)
    ensures
        match taken {
            Ok((value, rest)) => read_number(bytes@) == Ok::<_, SpoolFrameError>((value@, rest@)),
            Err(error) => read_number(bytes@) == Err::<(AttributeView, Seq<u8>), _>(error),
        },
{
    match take_u32(bytes) {
        Err(error) => Err(error),
        Ok((length, rest)) => {
            if length != 8 {
                return Err(SpoolFrameError::CorruptPayload);
            }
            match take_i64(rest) {
                Err(error) => Err(error),
                Ok((number, rest)) => Ok((AttributeValue::I64(number), rest)),
            }
        },
    }
}

fn take_flag<'a>(bytes: &'a [u8]) -> (taken: Result<(AttributeValue, &'a [u8]), SpoolFrameError>)
    ensures
        match taken {
            Ok((value, rest)) => read_flag(bytes@) == Ok::<_, SpoolFrameError>((value@, rest@)),
            Err(error) => read_flag(bytes@) == Err::<(AttributeView, Seq<u8>), _>(error),
        },
{
    match take_u32(bytes) {
        Err(error) => Err(error),
        Ok((length, rest)) => {
            if length != 1 {
                return Err(SpoolFrameError::CorruptPayload);
            }
            match take_u8(rest) {
                Err(error) => Err(error),
                Ok((value, rest)) => {
                    if value > 1 {
                        return Err(SpoolFrameError::InvalidBool { value });
                    }
                    Ok((AttributeValue::Bool(value == 1), rest))
                },
            }
        },
    }
}

fn take_value<'a>(bytes: &'a [u8]) -> (taken: Result<(AttributeValue, &'a [u8]), SpoolFrameError>)
    ensures
        match taken {
            Ok((value, rest)) => read_value(bytes@) == Ok::<_, SpoolFrameError>((value@, rest@)),
            Err(error) => read_value(bytes@) == Err::<(AttributeView, Seq<u8>), _>(error),
        },
{
    match take_u8(bytes) {
        Err(error) => Err(error),
        Ok((tag, rest)) => {
            if tag == STRING_TAG {
                match take_text(rest) {
                    Err(error) => Err(error),
                    Ok((text, rest)) => Ok((AttributeValue::String(text), rest)),
                }
            } else if tag == I64_TAG {
                take_number(rest)
            } else if tag == BOOL_TAG {
                take_flag(rest)
            } else {
                Err(SpoolFrameError::CorruptPayload)
            }
        },
    }
}

/// `entries` in front of what a reader gave.
spec fn after_entries(
    entries: AttributeSeq,
    outcome: Result<(AttributeSeq, Seq<u8>), SpoolFrameError>,
) -> Result<(AttributeSeq, Seq<u8>), SpoolFrameError> {
    match outcome {
        Err(error) => Err(error),
        Ok((more, rest)) => Ok((entries + more, rest)),
    }
}

fn take_attributes<'a>(bytes: &'a [u8], count: u32) -> (taken: Result<
    (Attributes, &'a [u8]),
    SpoolFrameError,
>)
    ensures
        match taken {
            Ok((attributes, rest)) => read_attributes(bytes@, count as nat, None) == Ok::<
                _,
                SpoolFrameError,
            >((attributes@, rest@)),
            Err(error) => read_attributes(bytes@, count as nat, None) == Err::<
                (AttributeSeq, Seq<u8>),
                _,
            >(error),
        },
{
    let mut entries: Vec<(String, AttributeValue)> = Vec::new();
    let mut rest = bytes;
    let mut left: u32 = count;
    let ghost mut last: Option<Seq<char>> = None;
    assert(after_entries(entries_view(entries@), read_attributes(rest@, left as nat, last))
        == read_attributes(bytes@, count as nat, None)) by {
        match read_attributes(bytes@, count as nat, None) {
            Ok((more, _)) => assert(entries_view(entries@) + more =~= more),
            Err(_) => {},
        }
    }
    while left > 0
        invariant
            read_attributes(bytes@, count as nat, None) == after_entries(
                entries_view(entries@),
                read_attributes(rest@, left as nat, last),
            ),
            keys_ascend(entries_view(entries@)),
            entries@.len() == 0 ==> last is None,
            entries@.len() > 0 ==> last == Some(entries_view(entries@).last().0),
        decreases left,
    {
        reveal(read_attribute);
        let ghost done = entries_view(entries@);
        match take_text(rest) {
            Err(error) => {
                return Err(error);
            },
            Ok((key, after_key)) => {
                if entries.len() > 0 && !is_text_before(
                    entries[entries.len() - 1].0.as_str(),
                    key.as_str(),
                ) {
                    return Err(SpoolFrameError::NonCanonicalAttributes);
                }
                match take_value(after_key) {
                    Err(error) => {
                        return Err(error);
                    },
                    Ok((value, after_value)) => {
                        let ghost entry = (key@, value@);
                        assert(read_attribute(rest@, last) == Ok::<_, SpoolFrameError>(
                            (entry, after_value@),
                        ));
                        entries.push((key, value));
                        proof {
                            assert(entries_view(entries@) =~= done.push(entry));
                            let tail = read_attributes(
                                after_value@,
                                (left - 1) as nat,
                                Some(entry.0),
                            );
                            match tail {
                                Ok((more, _)) => {
                                    assert(done + (seq![entry] + more) =~= done.push(entry) + more);
                                },
                                Err(_) => {},
                            }
                            last = Some(entry.0);
                        }
                        rest = after_value;
                        left = left - 1;
                    },
                }
            },
        }
    }
    assert(entries_view(entries@) + AttributeSeq::empty() =~= entries_view(entries@));
    Ok((Attributes::from_ascending(entries), rest))
}

fn take_record<'a>(bytes: &'a [u8]) -> (taken: Result<(Record, &'a [u8]), SpoolFrameError>)
    ensures
        match taken {
            Ok((record, rest)) => read_record(bytes@) == Ok::<_, SpoolFrameError>((record@, rest@)),
            Err(error) => read_record(bytes@) == Err::<(RecordView, Seq<u8>), _>(error),
        },
{
    reveal(read_record);
    match take_u32(bytes) {
        Err(error) => Err(error),
        Ok((count, rest)) => match take_attributes(rest, count) {
            Err(error) => Err(error),
            Ok((attributes, rest)) => match take_len_bytes(rest) {
                Err(error) => Err(error),
                Ok((payload, rest)) => Ok(
                    (Record { attributes, payload: copy_from_slice(payload) }, rest),
                ),
            },
        },
    }
}

/// `records` in front of what a reader gave.
spec fn after_records(
    records: Seq<RecordView>,
    outcome: Result<(Seq<RecordView>, Seq<u8>), SpoolFrameError>,
) -> Result<(Seq<RecordView>, Seq<u8>), SpoolFrameError> {
    match outcome {
        Err(error) => Err(error),
        Ok((more, rest)) => Ok((records + more, rest)),
    }
}

fn decode_records(bytes: &[u8]) -> (decoded: Result<Vec<Record>, SpoolFrameError>)
    ensures
        match decoded {
            Ok(records) => read_records(bytes@) == Ok::<_, SpoolFrameError>(records_view(records@)),
            Err(error) => read_records(bytes@) == Err::<Seq<RecordView>, _>(error),
        },
{
    let (count, first) = match take_u32(bytes) {
        Err(error) => {
            return Err(error);
        },
        Ok((count, first)) => (count, first),
    };
    let mut records: Vec<Record> = Vec::new();
    let mut rest = first;
    let mut left: u32 = count;
    assert(after_records(records_view(records@), read_record_list(rest@, left as nat))
        == read_record_list(first@, count as nat)) by {
        match read_record_list(first@, count as nat) {
            Ok((more, _)) => assert(records_view(records@) + more =~= more),
            Err(_) => {},
        }
    }
    while left > 0
        invariant
            read_u32(bytes@) == Ok::<_, SpoolFrameError>((count, first@)),
            read_record_list(first@, count as nat) == after_records(
                records_view(records@),
                read_record_list(rest@, left as nat),
            ),
        decreases left,
    {
        let ghost done = records_view(records@);
        match take_record(rest) {
            Err(error) => {
                return Err(error);
            },
            Ok((record, after)) => {
                let ghost taken = record@;
                records.push(record);
                proof {
                    assert(records_view(records@) =~= done.push(taken));
                    match read_record_list(after@, (left - 1) as nat) {
                        Ok((more, _)) => {
                            assert(done + (seq![taken] + more) =~= done.push(taken) + more);
                        },
                        Err(_) => {},
                    }
                }
                rest = after;
                left = left - 1;
            },
        }
    }
    assert(records_view(records@) + Seq::<RecordView>::empty() =~= records_view(records@));
    if rest.len() > 0 {
        return Err(SpoolFrameError::TrailingBytes);
    }
    Ok(records)
}

fn id16(bytes: &[u8]) -> (id: Result<[u8; 16], SpoolFrameError>)
    ensures
        match id {
            Ok(id) => bytes@.len() == 16 && id@ == bytes@,
            Err(error) => bytes@.len() != 16 && error == SpoolFrameError::Truncated,
        },
{
    if bytes.len() != 16 {
        return Err(SpoolFrameError::Truncated);
    }
    Ok(identity_from_slice(bytes))
}

fn decode_identity(payload: &[u8]) -> (identity: Result<ProgressIdentity, SpoolFrameError>)
    requires
        payload@.len() >= 44,
    ensures
        identity matches Ok(identity) && identity@ == identity_at(payload@),
{
    let journal = match id16(&payload[0..16]) {
        Err(error) => {
            return Err(error);
        },
        Ok(journal) => journal,
    };
    let producer = match id16(&payload[16..32]) {
        Err(error) => {
            return Err(error);
        },
        Ok(producer) => producer,
    };
    let epoch: u32 = read_be32(&payload[32..36]);
    let sequence: u64 = read_be64(&payload[36..44]);
    Ok(
        ProgressIdentity {
            journal_id: JournalId::from_bytes(journal),
            producer_id: ProducerId::from_bytes(producer),
            producer_epoch: epoch,
            sequence,
        },
    )
}

fn decode_submission(payload: &[u8]) -> (decoded: Result<SpoolFrame, SpoolFrameError>)
    ensures
        match decoded {
            Ok(frame) => read_submission(payload@) == Ok::<_, SpoolFrameError>(frame@),
            Err(error) => read_submission(payload@) == Err::<FrameView, _>(error),
        },
{
    if payload.len() < 16 + 16 + 4 + 8 {
        return Err(SpoolFrameError::Truncated);
    }
    let identity = match decode_identity(payload) {
        Err(error) => {
            return Err(error);
        },
        Ok(identity) => identity,
    };
    match decode_records(&payload[44..payload.len()]) {
        Err(error) => Err(error),
        Ok(records) => Ok(
            SpoolFrame::Submission {
                journal_id: identity.journal_id,
                submission: Submission {
                    producer_id: identity.producer_id,
                    producer_epoch: identity.producer_epoch,
                    sequence: identity.sequence,
                    records,
                },
            },
        ),
    }
}

fn decode_progress(payload: &[u8]) -> (decoded: Result<ProgressIdentity, SpoolFrameError>)
    ensures
        match decoded {
            Ok(identity) => read_progress(payload@) == Ok::<_, SpoolFrameError>(identity@),
            Err(error) => read_progress(payload@) == Err::<IdentityView, _>(error),
        },
{
    if payload.len() < 16 + 16 + 4 + 8 {
        return Err(SpoolFrameError::Truncated);
    }
    if payload.len() > 16 + 16 + 4 + 8 {
        return Err(SpoolFrameError::TrailingBytes);
    }
    decode_identity(payload)
}

fn decode_prefix(prefix: &[u8]) -> (decoded: Result<SpoolFrame, SpoolFrameError>)
    requires
        prefix@.len() >= 6,
    ensures
        match decoded {
            Ok(frame) => read_prefix(prefix@) == Ok::<_, SpoolFrameError>(frame@),
            Err(error) => read_prefix(prefix@) == Err::<FrameView, _>(error),
        },
{
    if prefix[0] != 0x53 || prefix[1] != 0x53 || prefix[2] != 0x57 || prefix[3] != 0x46 {
        proof {
            assert(magic()[0] == 0x53 && magic()[1] == 0x53 && magic()[2] == 0x57 && magic()[3]
                == 0x46);
            assert(forall|i: int| 0 <= i < 4 ==> prefix@.take(4)[i] == prefix@[i]);
        }
        return Err(SpoolFrameError::InvalidMagic);
    }
    assert(prefix@.take(4) =~= magic());
    let version: u8 = prefix[4];
    if version != VERSION {
        return Err(SpoolFrameError::UnsupportedVersion { version });
    }
    let kind: u8 = prefix[5];
    let payload = &prefix[6..prefix.len()];
    if kind == KIND_SUBMISSION {
        decode_submission(payload)
    } else if kind == KIND_PROGRESS {
        match decode_progress(payload) {
            Err(error) => Err(error),
            Ok(identity) => Ok(SpoolFrame::Progress(identity)),
        }
    } else {
        Err(SpoolFrameError::UnsupportedKind { kind })
    }
}

/// Decodes one length-delimited frame starting at `bytes[0]`.
///
/// Returns the frame and how many bytes it takes. Arbitrary input returns a
/// [`SpoolFrameError`]; only the bytes that encoding the frame writes are accepted.
pub fn decode_frame(bytes: &[u8]) -> (decoded: Result<(SpoolFrame, usize), SpoolFrameError>)
    ensures
        match decoded {
            Ok((frame, consumed)) => {
                &&& read_frame(bytes@) == Ok::<_, SpoolFrameError>((frame@, consumed as nat))
                &&& consumed <= bytes@.len()
                &&& consumed == 4 + from_be32(bytes@.take(4))
                &&& bytes@.take(consumed as int) == written_frame(frame@)
            },
            Err(error) => read_frame(bytes@) == Err::<(FrameView, nat), _>(error),
        },
{
    proof {
        law_encode_undoes_decode(bytes@);
    }
    reveal(read_frame);
    if bytes.len() < 4 {
        return Err(SpoolFrameError::Truncated);
    }
    let length: usize = read_be32(bytes) as usize;
    assert(from_be32(bytes@.take(4)) == length);
    let total: usize = match 4usize.checked_add(length) {
        None => {
            return Err(SpoolFrameError::Oversized);
        },
        Some(total) => total,
    };
    if bytes.len() < total {
        return Err(SpoolFrameError::Truncated);
    }
    let body = &bytes[4..total];
    if body.len() < 4 + 1 + 1 + 4 {
        return Err(SpoolFrameError::Truncated);
    }
    let covered: usize = body.len() - 4;
    let prefix = &body[0..covered];
    let expected: u32 = read_be32(&body[covered..body.len()]);
    assert(prefix@ =~= bytes@.subrange(4, total - 4));
    assert(body@.subrange(covered as int, body@.len() as int) =~= bytes@.subrange(
        total - 4,
        total as int,
    ));
    if crc32c(prefix) != expected {
        return Err(SpoolFrameError::ChecksumMismatch);
    }
    match decode_prefix(prefix) {
        Err(error) => Err(error),
        Ok(frame) => Ok((frame, total)),
    }
}

// Encoding.

fn put_u32_len(buffer: &mut bytes::BytesMut, length: usize) -> (put: Result<(), SpoolFrameError>)
    requires
        filled(*old(buffer)).len() + 4 <= buffer_limit(),
    ensures
        match put {
            Ok(()) => length_fits(length as nat) && filled(*final(buffer)) == filled(*old(buffer))
                + be32(length as u32),
            Err(error) => !length_fits(length as nat) && error == SpoolFrameError::Oversized,
        },
{
    match u32::try_from(length) {
        Err(_) => Err(SpoolFrameError::Oversized),
        Ok(length) => {
            put_u32(buffer, length);
            Ok(())
        },
    }
}

fn put_len_bytes(buffer: &mut bytes::BytesMut, value: &[u8]) -> (put: Result<(), SpoolFrameError>)
    requires
        filled(*old(buffer)).len() + written_bytes(value@).len() <= buffer_limit(),
    ensures
        match put {
            Ok(()) => length_fits(value@.len()) && filled(*final(buffer)) == filled(*old(buffer))
                + written_bytes(value@),
            Err(error) => !length_fits(value@.len()) && error == SpoolFrameError::Oversized,
        },
{
    let ghost before = filled(*buffer);
    match put_u32_len(buffer, value.len()) {
        Err(error) => Err(error),
        Ok(()) => {
            extend_from_slice(buffer, value);
            assert(filled(*buffer) =~= before + written_bytes(value@));
            Ok(())
        },
    }
}

fn put_attribute(
    buffer: &mut bytes::BytesMut,
    key: &String,
    value: &AttributeValue,
) -> (put: Result<(), SpoolFrameError>)
    requires
        filled(*old(buffer)).len() + written_attribute((key@, value@)).len() <= buffer_limit(),
    ensures
        match put {
            Ok(()) => attribute_fits((key@, value@)) && filled(*final(buffer)) == filled(
                *old(buffer),
            ) + written_attribute((key@, value@)),
            Err(error) => !attribute_fits((key@, value@)) && error == SpoolFrameError::Oversized,
        },
{
    reveal(written_attribute);
    let ghost before = filled(*buffer);
    let ghost written = written_value(value@);
    match put_len_bytes(buffer, key.as_str().as_bytes()) {
        Err(error) => {
            return Err(error);
        },
        Ok(()) => {},
    }
    let ghost keyed = filled(*buffer);
    assert(keyed + written =~= before + written_attribute((key@, value@)));
    match value {
        AttributeValue::String(text) => {
            put_u8(buffer, STRING_TAG);
            match put_len_bytes(buffer, text.as_str().as_bytes()) {
                Err(error) => {
                    return Err(error);
                },
                Ok(()) => {},
            }
        },
        AttributeValue::I64(number) => {
            put_u8(buffer, I64_TAG);
            put_u32(buffer, 8);
            put_i64(buffer, *number);
        },
        AttributeValue::Bool(flag) => {
            put_u8(buffer, BOOL_TAG);
            put_u32(buffer, 1);
            put_u8(
                buffer,
                if *flag {
                    1
                } else {
                    0
                },
            );
        },
    }
    assert(filled(*buffer) =~= keyed + written);
    Ok(())
}

proof fn lemma_written_attributes_step(entries: AttributeSeq, at: int)
    requires
        0 <= at < entries.len(),
    ensures
        written_attributes(entries.skip(at)) == written_attribute(entries[at]) + written_attributes(
            entries.skip(at + 1),
        ),
{
    assert(entries.skip(at)[0] == entries[at]);
    assert(entries.skip(at).skip(1) =~= entries.skip(at + 1));
}

proof fn lemma_append_piece(so_far: Seq<u8>, piece: Seq<u8>, rest: Seq<u8>)
    ensures
        (so_far + piece) + rest == so_far + (piece + rest),
{
    assert((so_far + piece) + rest =~= so_far + (piece + rest));
}

fn put_attributes(
    buffer: &mut bytes::BytesMut,
    entries: &Vec<(String, AttributeValue)>,
) -> (put: Result<(), SpoolFrameError>)
    requires
        filled(*old(buffer)).len() + written_attributes(entries_view(entries@)).len()
            <= buffer_limit(),
    ensures
        match put {
            Ok(()) => {
                &&& forall|i: int|
                    0 <= i < entries@.len() ==> attribute_fits(
                        #[trigger] entries_view(entries@)[i],
                    )
                &&& filled(*final(buffer)) == filled(*old(buffer)) + written_attributes(
                    entries_view(entries@),
                )
            },
            Err(error) => {
                &&& error == SpoolFrameError::Oversized
                &&& exists|i: int|
                    0 <= i < entries@.len() && !attribute_fits(
                        #[trigger] entries_view(entries@)[i],
                    )
            },
        },
{
    let ghost view = entries_view(entries@);
    let ghost whole = filled(*buffer) + written_attributes(view);
    assert(view.skip(0) =~= view);
    let mut at: usize = 0;
    while at < entries.len()
        invariant
            at <= entries@.len(),
            view == entries_view(entries@),
            filled(*buffer) + written_attributes(view.skip(at as int)) == whole,
            whole.len() <= buffer_limit(),
            forall|i: int| 0 <= i < at ==> attribute_fits(#[trigger] view[i]),
        decreases entries@.len() - at,
    {
        let ghost so_far = filled(*buffer);
        let ghost piece = written_attribute(view[at as int]);
        let ghost rest = written_attributes(view.skip(at + 1));
        proof {
            lemma_written_attributes_step(view, at as int);
            lemma_append_piece(so_far, piece, rest);
        }
        match put_attribute(buffer, &entries[at].0, &entries[at].1) {
            Err(error) => {
                assert(!attribute_fits(view[at as int]));
                return Err(error);
            },
            Ok(()) => {},
        }
        at += 1;
    }
    assert(view.skip(at as int) =~= AttributeSeq::empty());
    assert(filled(*buffer) + Seq::<u8>::empty() =~= filled(*buffer));
    Ok(())
}

fn put_record(buffer: &mut bytes::BytesMut, record: &Record) -> (put: Result<(), SpoolFrameError>)
    requires
        filled(*old(buffer)).len() + written_record(record@).len() <= buffer_limit(),
    ensures
        match put {
            Ok(()) => {
                &&& record_fits(record@)
                &&& keys_ascend(record@.attributes)
                &&& filled(*final(buffer)) == filled(*old(buffer)) + written_record(record@)
            },
            Err(error) => !record_fits(record@) && error == SpoolFrameError::Oversized,
        },
{
    reveal(written_record);
    let ghost before = filled(*buffer);
    let entries = record.attributes.entries();
    match put_u32_len(buffer, entries.len()) {
        Err(error) => {
            return Err(error);
        },
        Ok(()) => {},
    }
    match put_attributes(buffer, entries) {
        Err(error) => {
            return Err(error);
        },
        Ok(()) => {},
    }
    match put_len_bytes(buffer, held_slice(&record.payload)) {
        Err(error) => Err(error),
        Ok(()) => {
            assert(filled(*buffer) =~= before + written_record(record@));
            Ok(())
        },
    }
}

proof fn lemma_written_records_step(records: Seq<RecordView>, at: int)
    requires
        0 <= at < records.len(),
    ensures
        written_records(records.skip(at)) == written_record(records[at]) + written_records(
            records.skip(at + 1),
        ),
{
    assert(records.skip(at)[0] == records[at]);
    assert(records.skip(at).skip(1) =~= records.skip(at + 1));
}

fn encode_records(buffer: &mut bytes::BytesMut, records: &Vec<Record>) -> (put: Result<
    (),
    SpoolFrameError,
>)
    requires
        filled(*old(buffer)).len() + 4 + written_records(records_view(records@)).len()
            <= buffer_limit(),
    ensures
        match put {
            Ok(()) => {
                &&& length_fits(records@.len())
                &&& forall|i: int|
                    0 <= i < records@.len() ==> record_fits(
                        #[trigger] records_view(records@)[i],
                    )
                &&& forall|i: int|
                    0 <= i < records@.len() ==> keys_ascend(
                        #[trigger] records_view(records@)[i].attributes,
                    )
                &&& filled(*final(buffer)) == filled(*old(buffer)) + (be32(records@.len() as u32)
                    + written_records(records_view(records@)))
            },
            Err(error) => {
                &&& error == SpoolFrameError::Oversized
                &&& !length_fits(records@.len()) || exists|i: int|
                    0 <= i < records@.len() && !record_fits(#[trigger] records_view(records@)[i])
            },
        },
{
    let ghost before = filled(*buffer);
    let ghost view = records_view(records@);
    let ghost whole = before + (be32(records@.len() as u32) + written_records(view));
    match put_u32_len(buffer, records.len()) {
        Err(error) => {
            return Err(error);
        },
        Ok(()) => {},
    }
    assert(view.skip(0) =~= view);
    assert(filled(*buffer) + written_records(view.skip(0)) =~= whole);
    let mut at: usize = 0;
    while at < records.len()
        invariant
            at <= records@.len(),
            view == records_view(records@),
            whole == before + (be32(records@.len() as u32) + written_records(view)),
            filled(*buffer) + written_records(view.skip(at as int)) == whole,
            whole.len() <= buffer_limit(),
            forall|i: int| 0 <= i < at ==> record_fits(#[trigger] view[i]),
            forall|i: int| 0 <= i < at ==> keys_ascend(#[trigger] view[i].attributes),
        decreases records@.len() - at,
    {
        let ghost so_far = filled(*buffer);
        let ghost piece = written_record(view[at as int]);
        let ghost rest = written_records(view.skip(at + 1));
        proof {
            lemma_written_records_step(view, at as int);
            lemma_append_piece(so_far, piece, rest);
        }
        match put_record(buffer, &records[at]) {
            Err(error) => {
                assert(!record_fits(view[at as int]));
                return Err(error);
            },
            Ok(()) => {},
        }
        at += 1;
    }
    assert(view.skip(at as int) =~= Seq::<RecordView>::empty());
    assert(filled(*buffer) + Seq::<u8>::empty() =~= filled(*buffer));
    Ok(())
}

fn put_header(buffer: &mut bytes::BytesMut, kind: u8, identity: &ProgressIdentity)
    requires
        filled(*old(buffer)).len() + 50 <= buffer_limit(),
    ensures
        filled(*final(buffer)) == filled(*old(buffer)) + (magic() + (seq![VERSION, kind]
            + written_identity(identity@))),
{
    let ghost before = filled(*buffer);
    let marker: [u8; 4] = [0x53, 0x53, 0x57, 0x46];
    extend_from_slice(buffer, marker.as_slice());
    put_u8(buffer, VERSION);
    put_u8(buffer, kind);
    extend_from_slice(buffer, identity.journal_id.bytes.as_slice());
    extend_from_slice(buffer, identity.producer_id.bytes.as_slice());
    put_u32(buffer, identity.producer_epoch);
    put_u64(buffer, identity.sequence);
    assert(marker@ =~= magic());
    assert(filled(*buffer) =~= before + (magic() + (seq![VERSION, kind] + written_identity(
        identity@,
    ))));
}

// Room: how much of a limit a frame takes.

fn room_after(room: usize, amount: usize) -> (left: Option<usize>)
    ensures
        match left {
            Some(left) => left + amount == room,
            None => amount > room,
        },
{
    if amount <= room {
        Some((room - amount) as usize)
    } else {
        None
    }
}

fn room_after_bytes(room: usize, length: usize) -> (left: Option<usize>)
    ensures
        match left {
            Some(left) => left + 4 + length == room,
            None => 4 + length > room,
        },
{
    match room_after(room, 4) {
        None => None,
        Some(room) => room_after(room, length),
    }
}

fn room_after_attribute(room: usize, key: &String, value: &AttributeValue) -> (left: Option<usize>)
    ensures
        match left {
            Some(left) => left + written_attribute((key@, value@)).len() == room,
            None => written_attribute((key@, value@)).len() > room,
        },
{
    reveal(written_attribute);
    let room = match room_after_bytes(room, key.as_str().as_bytes().len()) {
        None => {
            return None;
        },
        Some(room) => room,
    };
    let room = match room_after(room, 1) {
        None => {
            return None;
        },
        Some(room) => room,
    };
    match value {
        AttributeValue::String(text) => room_after_bytes(room, text.as_str().as_bytes().len()),
        AttributeValue::I64(number) => room_after_bytes(room, 8),
        AttributeValue::Bool(flag) => room_after_bytes(room, 1),
    }
}

fn room_after_attributes(room: usize, entries: &Vec<(String, AttributeValue)>) -> (left: Option<
    usize,
>)
    ensures
        match left {
            Some(left) => left + written_attributes(entries_view(entries@)).len() == room,
            None => written_attributes(entries_view(entries@)).len() > room,
        },
{
    let ghost view = entries_view(entries@);
    assert(view.skip(0) =~= view);
    let mut left: usize = room;
    let mut at: usize = 0;
    while at < entries.len()
        invariant
            at <= entries@.len(),
            view == entries_view(entries@),
            room - left + written_attributes(view.skip(at as int)).len() == written_attributes(
                view,
            ).len(),
            left <= room,
        decreases entries@.len() - at,
    {
        proof {
            lemma_written_attributes_step(view, at as int);
        }
        match room_after_attribute(left, &entries[at].0, &entries[at].1) {
            None => {
                return None;
            },
            Some(rest) => {
                left = rest;
            },
        }
        at += 1;
    }
    assert(view.skip(at as int) =~= AttributeSeq::empty());
    Some(left)
}

fn room_after_record(room: usize, record: &Record) -> (left: Option<usize>)
    ensures
        match left {
            Some(left) => left + written_record(record@).len() == room,
            None => written_record(record@).len() > room,
        },
{
    reveal(written_record);
    let room = match room_after(room, 4) {
        None => {
            return None;
        },
        Some(room) => room,
    };
    match room_after_attributes(room, record.attributes.entries()) {
        None => None,
        Some(room) => room_after_bytes(room, held_slice(&record.payload).len()),
    }
}

fn room_after_records(room: usize, records: &Vec<Record>) -> (left: Option<usize>)
    ensures
        match left {
            Some(left) => left + written_records(records_view(records@)).len() == room,
            None => written_records(records_view(records@)).len() > room,
        },
{
    let ghost view = records_view(records@);
    assert(view.skip(0) =~= view);
    let mut left: usize = room;
    let mut at: usize = 0;
    while at < records.len()
        invariant
            at <= records@.len(),
            view == records_view(records@),
            room - left + written_records(view.skip(at as int)).len() == written_records(
                view,
            ).len(),
            left <= room,
        decreases records@.len() - at,
    {
        proof {
            lemma_written_records_step(view, at as int);
        }
        match room_after_record(left, &records[at]) {
            None => {
                return None;
            },
            Some(rest) => {
                left = rest;
            },
        }
        at += 1;
    }
    assert(view.skip(at as int) =~= Seq::<RecordView>::empty());
    Some(left)
}

/// Whether a buffer can contain the written frame.
fn fits_in_buffer(frame: &SpoolFrame) -> (fits: bool)
    ensures
        fits == (written_frame(frame@).len() <= buffer_limit()),
{
    let limit: usize = isize::MAX as usize / 2;
    match frame {
        SpoolFrame::Submission { submission, .. } => match room_after(limit, 62) {
            None => false,
            Some(room) => room_after_records(room, &submission.records).is_some(),
        },
        SpoolFrame::Progress(_) => true,
    }
}

fn encode_within_buffer(frame: &SpoolFrame) -> (encoded: Result<bytes::Bytes, SpoolFrameError>)
    requires
        written_frame(frame@).len() <= buffer_limit(),
    ensures
        match encoded {
            Ok(bytes) => {
                &&& frame_fits(frame@)
                &&& frame@.canonical()
                &&& held(bytes) == written_frame(frame@)
            },
            Err(error) => !frame_fits(frame@) && error == SpoolFrameError::Oversized,
        },
{
    let mut body = new_buffer();
    let ghost prefix = written_prefix(frame@);
    match frame {
        SpoolFrame::Submission { journal_id, submission } => {
            let identity = ProgressIdentity {
                journal_id: *journal_id,
                producer_id: submission.producer_id,
                producer_epoch: submission.producer_epoch,
                sequence: submission.sequence,
            };
            put_header(&mut body, KIND_SUBMISSION, &identity);
            match encode_records(&mut body, &submission.records) {
                Err(error) => {
                    return Err(error);
                },
                Ok(()) => {},
            }
        },
        SpoolFrame::Progress(identity) => {
            put_header(&mut body, KIND_PROGRESS, identity);
        },
    }
    assert(filled(body) =~= prefix);
    let crc: u32 = crc32c(filled_slice(&body));
    put_u32(&mut body, crc);
    assert(filled(body) =~= written_body(frame@));
    let mut out = new_buffer();
    let body_bytes = filled_slice(&body);
    match put_u32_len(&mut out, body_bytes.len()) {
        Err(error) => Err(error),
        Ok(()) => {
            extend_from_slice(&mut out, body_bytes);
            assert(filled(out) =~= written_frame(frame@));
            Ok(freeze(out))
        },
    }
}

/// Whether a frame can be encoded: its lengths fit their four bytes and a buffer
/// can contain it. On a 64-bit machine the first implies the second.
pub open spec fn encodable(frame: FrameView) -> bool {
    frame_fits(frame) && written_frame(frame).len() <= buffer_limit()
}

/// Encodes one frame to length-delimited durable bytes.
///
/// `Oversized` is returned where a length in the frame exceeds its format.
pub fn encode_frame(frame: &SpoolFrame) -> (encoded: Result<bytes::Bytes, SpoolFrameError>)
    ensures
        match encoded {
            Ok(bytes) => {
                &&& encodable(frame@)
                &&& frame@.canonical()
                &&& held(bytes) == written_frame(frame@)
            },
            Err(error) => !encodable(frame@) && error == SpoolFrameError::Oversized,
        },
{
    if !fits_in_buffer(frame) {
        return Err(SpoolFrameError::Oversized);
    }
    encode_within_buffer(frame)
}

/// A progress frame always fits: it has the same length whatever it says.
pub proof fn lemma_progress_encodable(identity: IdentityView)
    requires
        identity.journal_id.len() == 16,
        identity.producer_id.len() == 16,
    ensures
        encodable(FrameView::Progress(identity)),
        written_frame(FrameView::Progress(identity)).len() == 58,
{
}

} // verus!
