//! What stands where in the bytes of a frame.
use crate::buffers::{be32, be64, from_be32, from_be64, lemma_be32_round_trip};
use crate::frame::{
    crc32c_of, decode_frame, frame_fits, magic, read_attribute, read_bytes, read_frame, read_records, read_text,
    read_value, written_attribute, written_attributes, written_body,
    written_bytes, written_frame, written_identity, written_prefix, written_record,
    written_records, written_value, FrameKind, FrameView, ProgressIdentity, SpoolFrame,
    SpoolFrameError,
};
use crate::model::{AttributeSeq, AttributeView, RecordView};
use crate::text::text_before;
use vstd::prelude::*;
use vstd::utf8::{encode_utf8, valid_utf8};

verus! {

/// The number in four bytes, most significant first.
pub open spec fn four_at(bytes: Seq<u8>, at: int) -> int {
    bytes[at] * 0x100_0000 + bytes[at + 1] * 0x1_0000 + bytes[at + 2] * 0x100 + bytes[at + 3]
}

/// The number in eight bytes, most significant first.
pub open spec fn eight_at(bytes: Seq<u8>, at: int) -> int {
    four_at(bytes, at) * 0x1_0000_0000 + four_at(bytes, at + 4)
}

proof fn lemma_four(value: u32)
    ensures
        be32(value).len() == 4,
        four_at(be32(value), 0) == value,
{
}

proof fn lemma_eight(value: u64)
    ensures
        be64(value).len() == 8,
        eight_at(be64(value), 0) == value,
{
    let high = (value / 0x1_0000_0000) as u32;
    let low = (value % 0x1_0000_0000) as u32;
    let bytes = be64(value);
    lemma_four(high);
    lemma_four(low);
    assert(bytes =~= be32(high) + be32(low));
    assert forall|i: int| 0 <= i < 4 implies bytes[i] == #[trigger] be32(high)[i] && bytes[4 + i]
        == be32(low)[i] by {}
    assert(four_at(bytes, 0) == four_at(be32(high), 0));
    assert(four_at(bytes, 4) == four_at(be32(low), 0));
}

/// Numbers stand with their most significant byte first.
pub proof fn law_numbers_stand_most_significant_first(short: u32, long: u64, bytes: Seq<u8>)
    ensures
        four_at(be32(short), 0) == short,
        eight_at(be64(long), 0) == long,
        from_be32(bytes) == four_at(bytes, 0),
        bytes.len() >= 8 ==> from_be64(bytes) == eight_at(bytes, 0),
{
    lemma_four(short);
    lemma_eight(long);
    if bytes.len() >= 8 {
        let rest = bytes.skip(4);
        assert(rest[0] == bytes[4] && rest[1] == bytes[5] && rest[2] == bytes[6] && rest[3]
            == bytes[7]);
    }
}

/// A frame starts with its length, the marker, the version and its kind; the identity follows,
/// Journal before producer before epoch before sequence; the checksum of all but the length
/// ends it.
pub proof fn law_frames_have_their_layout(frame: FrameView)
    requires
        frame.canonical(),
        frame_fits(frame),
    ensures
        ({
            let bytes = written_frame(frame);
            let end = bytes.len() as int;
            &&& end >= 58
            &&& four_at(bytes, 0) == end - 4
            &&& bytes[4] == 0x53 && bytes[5] == 0x53 && bytes[6] == 0x57 && bytes[7] == 0x46
            &&& bytes[8] == 1
            &&& bytes[9] == (if frame is Submission {
                1u8
            } else {
                2u8
            })
            &&& bytes.subrange(10, 26) == frame.identity().journal_id
            &&& bytes.subrange(26, 42) == frame.identity().producer_id
            &&& four_at(bytes, 42) == frame.identity().producer_epoch
            &&& eight_at(bytes, 46) == frame.identity().sequence
            &&& four_at(bytes, end - 4) == crc32c_of(bytes.subrange(4, end - 4))
            &&& frame is Progress ==> end == 58
            &&& frame matches FrameView::Submission { submission, .. } ==> four_at(bytes, 54)
                == submission.records.len() && bytes.subrange(58, end - 4) == written_records(
                submission.records,
            )
        }),
{
    let bytes = written_frame(frame);
    let prefix = written_prefix(frame);
    let body = written_body(frame);
    let identity = frame.identity();
    let end = bytes.len() as int;
    let sum = crc32c_of(prefix);
    let named = written_identity(identity);
    lemma_four(body.len() as u32);
    lemma_four(sum);
    lemma_four(identity.producer_epoch);
    lemma_eight(identity.sequence);
    assert(named.len() == 44);
    assert(prefix.len() >= 50);
    assert(body.len() == prefix.len() + 4);
    assert(end == 4 + body.len());
    assert forall|i: int| 0 <= i < prefix.len() implies #[trigger] bytes[4 + i] == prefix[i] by {}
    assert forall|i: int| 0 <= i < 4 implies #[trigger] bytes[i] == be32(body.len() as u32)[i] by {}
    assert forall|i: int| 0 <= i < 4 implies #[trigger] bytes[end - 4 + i] == be32(sum)[i] by {}
    lemma_same_four(bytes, end - 4, be32(sum));
    assert(bytes.subrange(4, end - 4) =~= prefix);
    assert forall|i: int| 0 <= i < 44 implies #[trigger] bytes[10 + i] == named[i] by {
        assert(bytes[4 + (6 + i)] == prefix[6 + i]);
    }
    assert(bytes[4] == prefix[0] && bytes[5] == prefix[1] && bytes[6] == prefix[2] && bytes[7]
        == prefix[3] && bytes[8] == prefix[4] && bytes[9] == prefix[5]);
    assert(magic()[0] == 0x53 && magic()[1] == 0x53 && magic()[2] == 0x57 && magic()[3] == 0x46);
    assert forall|i: int| 0 <= i < 16 implies bytes[10 + i] == #[trigger] identity.journal_id[i]
        by {
        assert(bytes[10 + i] == named[i]);
    }
    assert(bytes.subrange(10, 26) =~= identity.journal_id);
    assert forall|i: int| 0 <= i < 16 implies bytes[26 + i] == #[trigger] identity.producer_id[i]
        by {
        assert(bytes[10 + (16 + i)] == named[16 + i]);
    }
    assert(bytes.subrange(26, 42) =~= identity.producer_id);
    assert forall|i: int| 0 <= i < 4 implies #[trigger] bytes[42 + i] == be32(
        identity.producer_epoch,
    )[i] by {
        assert(bytes[10 + (32 + i)] == named[32 + i]);
    }
    lemma_same_four(bytes, 42, be32(identity.producer_epoch));
    assert forall|i: int| 0 <= i < 8 implies #[trigger] bytes[46 + i] == be64(identity.sequence)[i]
        by {
        assert(bytes[10 + (36 + i)] == named[36 + i]);
    }
    lemma_same_eight(bytes, 46, be64(identity.sequence));
    if let FrameView::Submission { submission, .. } = frame {
        let count = be32(submission.records.len() as u32);
        lemma_four(submission.records.len() as u32);
        let records = written_records(submission.records);
        assert(prefix.len() == 54 + records.len());
        assert forall|i: int| 0 <= i < 4 implies #[trigger] bytes[54 + i] == count[i] by {
            assert(bytes[4 + (50 + i)] == prefix[50 + i]);
        }
        lemma_same_four(bytes, 54, count);
        assert forall|i: int| 0 <= i < records.len() implies bytes[58 + i] == #[trigger] records[i]
            by {
            assert(bytes[4 + (54 + i)] == prefix[54 + i]);
        }
        assert(bytes.subrange(58, end - 4) =~= records);
    }
}

proof fn lemma_same_four(bytes: Seq<u8>, at: int, part: Seq<u8>)
    requires
        part.len() == 4,
        forall|i: int| 0 <= i < 4 ==> #[trigger] bytes[at + i] == part[i],
    ensures
        four_at(bytes, at) == four_at(part, 0),
{
    assert(bytes[at + 0] == part[0] && bytes[at + 1] == part[1] && bytes[at + 2] == part[2]
        && bytes[at + 3] == part[3]);
}

proof fn lemma_same_eight(bytes: Seq<u8>, at: int, part: Seq<u8>)
    requires
        part.len() == 8,
        forall|i: int| 0 <= i < 8 ==> #[trigger] bytes[at + i] == part[i],
    ensures
        eight_at(bytes, at) == eight_at(part, 0),
{
    assert(bytes[at + 0] == part[0] && bytes[at + 1] == part[1] && bytes[at + 2] == part[2]
        && bytes[at + 3] == part[3] && bytes[at + 4] == part[4] && bytes[at + 5] == part[5]
        && bytes[at + 6] == part[6] && bytes[at + 7] == part[7]);
}

/// Bytes stand behind their length.
pub proof fn law_bytes_stand_behind_their_length(given: Seq<u8>)
    requires
        given.len() <= u32::MAX,
    ensures
        written_bytes(given).len() == 4 + given.len(),
        four_at(written_bytes(given), 0) == given.len(),
        written_bytes(given).skip(4) == given,
{
    lemma_four(given.len() as u32);
    let count = be32(given.len() as u32);
    let written = written_bytes(given);
    assert(written[0] == count[0] && written[1] == count[1] && written[2] == count[2] && written[3]
        == count[3]);
    assert(written.skip(4) =~= given);
}

/// A value is its tag, a length and the value: one is a text, two a number in eight bytes, three
/// a flag in one.
pub proof fn law_values_stand_behind_their_tag(text: Seq<char>, number: i64, flag: bool)
    requires
        encode_utf8(text).len() <= u32::MAX,
    ensures
        ({
            let written = written_value(AttributeView::Text(text));
            &&& written[0] == 1
            &&& four_at(written, 1) == encode_utf8(text).len()
            &&& written.skip(5) == encode_utf8(text)
        }),
        ({
            let written = written_value(AttributeView::Number(number));
            &&& written.len() == 13
            &&& written[0] == 2
            &&& four_at(written, 1) == 8
            &&& number >= 0 ==> eight_at(written, 5) == number
        }),
        ({
            let written = written_value(AttributeView::Flag(flag));
            &&& written.len() == 6
            &&& written[0] == 3
            &&& four_at(written, 1) == 1
            &&& written[5] == (if flag {
                1u8
            } else {
                0u8
            })
        }),
{
    let written = written_value(AttributeView::Text(text));
    let behind = written_bytes(encode_utf8(text));
    law_bytes_stand_behind_their_length(encode_utf8(text));
    assert(written[1] == behind[0] && written[2] == behind[1] && written[3] == behind[2]
        && written[4] == behind[3]);
    assert(written.skip(5) =~= behind.skip(4));
    let written = written_value(AttributeView::Number(number));
    let bits = crate::buffers::i64_bits(number);
    lemma_four(8);
    lemma_eight(bits);
    assert(written[1] == be32(8)[0] && written[2] == be32(8)[1] && written[3] == be32(8)[2]
        && written[4] == be32(8)[3]);
    assert forall|i: int| 0 <= i < 8 implies #[trigger] written[5 + i] == be64(bits)[i] by {}
    lemma_same_eight(written, 5, be64(bits));
    let written = written_value(AttributeView::Flag(flag));
    lemma_four(1);
    assert(written[1] == be32(1)[0] && written[2] == be32(1)[1] && written[3] == be32(1)[2]
        && written[4] == be32(1)[3]);
}

/// An attribute is its key and then its value, a record how many attributes it has, these, and
/// then its payload; attributes and records follow each other in their order.
pub proof fn law_records_follow_each_other(
    entry: (Seq<char>, AttributeView),
    entries: AttributeSeq,
    record: RecordView,
    records: Seq<RecordView>,
)
    ensures
        written_attribute(entry) == written_bytes(encode_utf8(entry.0)) + written_value(entry.1),
        written_attributes(seq![entry] + entries) == written_attribute(entry) + written_attributes(
            entries,
        ),
        written_record(record) == be32(record.attributes.len() as u32) + written_attributes(
            record.attributes,
        ) + written_bytes(record.payload),
        written_records(seq![record] + records) == written_record(record) + written_records(
            records,
        ),
        written_attributes(Seq::empty()).len() == 0,
        written_records(Seq::empty()).len() == 0,
{
    reveal(written_attribute);
    reveal(written_record);
    assert((seq![entry] + entries).skip(1) =~= entries);
    assert((seq![record] + records).skip(1) =~= records);
    assert(written_record(record) =~= be32(record.attributes.len() as u32) + written_attributes(
        record.attributes,
    ) + written_bytes(record.payload));
}

/// Bytes that are no frame are refused for the first thing that is wrong: their end, the
/// checksum, the marker, the version, the kind.
pub proof fn law_odd_frames_are_refused_by_what_is_wrong(bytes: Seq<u8>)
    requires
        bytes.len() >= 4,
        4 + four_at(bytes, 0) <= usize::MAX,
    ensures
        ({
            let end = 4 + four_at(bytes, 0);
            let read = read_frame(bytes);
            let intact = 14 <= end <= bytes.len() && crc32c_of(bytes.subrange(4, end - 4))
                == four_at(bytes, end - 4);
            let marked = bytes[4] == 0x53 && bytes[5] == 0x53 && bytes[6] == 0x57 && bytes[7]
                == 0x46;
            &&& end > bytes.len() || end < 14 ==> read == Err::<(FrameView, nat), _>(
                SpoolFrameError::Truncated,
            )
            &&& 14 <= end <= bytes.len() && !intact ==> read == Err::<(FrameView, nat), _>(
                SpoolFrameError::ChecksumMismatch,
            )
            &&& intact && !marked ==> read == Err::<(FrameView, nat), _>(
                SpoolFrameError::InvalidMagic,
            )
            &&& intact && marked && bytes[8] != 1 ==> read == Err::<(FrameView, nat), _>(
                SpoolFrameError::UnsupportedVersion { version: bytes[8] },
            )
            &&& intact && marked && bytes[8] == 1 && bytes[9] != 1 && bytes[9] != 2 ==> read
                == Err::<(FrameView, nat), _>(
                SpoolFrameError::UnsupportedKind { kind: bytes[9] },
            )
            &&& intact && marked && bytes[8] == 1 && bytes[9] == 2 ==> (read is Ok <==> end == 58)
        }),
        read_frame(bytes.take(3)) == Err::<(FrameView, nat), _>(SpoolFrameError::Truncated),
{
    reveal(read_frame);
    let end = 4 + four_at(bytes, 0);
    let start = bytes.take(4);
    assert(start[0] == bytes[0] && start[1] == bytes[1] && start[2] == bytes[2] && start[3]
        == bytes[3]);
    assert(from_be32(start) == four_at(bytes, 0));
    if 14 <= end <= bytes.len() {
        let sum = bytes.subrange(end - 4, end);
        assert(sum[0] == bytes[end - 4] && sum[1] == bytes[end - 4 + 1] && sum[2] == bytes[end - 4
            + 2] && sum[3] == bytes[end - 4 + 3]);
        assert(from_be32(sum) == four_at(bytes, end - 4));
        let prefix = bytes.subrange(4, end - 4);
        let mark = prefix.take(4);
        assert(mark[0] == bytes[4] && mark[1] == bytes[5] && mark[2] == bytes[6] && mark[3]
            == bytes[7]);
        assert(magic()[0] == 0x53 && magic()[1] == 0x53 && magic()[2] == 0x57 && magic()[3]
            == 0x46);
        if bytes[4] == 0x53 && bytes[5] == 0x53 && bytes[6] == 0x57 && bytes[7] == 0x46 {
            assert(mark =~= magic());
        }
        assert(prefix[4] == bytes[8] && prefix[5] == bytes[9]);
    }
}

/// Values that are written otherwise than they should be are refused by what is wrong: an unknown
/// tag, a number that is not of eight bytes, a flag that is not of one, or is neither set nor
/// unset.
pub proof fn law_odd_values_are_refused(tag: u8, length: u32, value: u8, rest: Seq<u8>)
    ensures
        tag != 1 && tag != 2 && tag != 3 ==> read_value(seq![tag] + rest) == Err::<
            (AttributeView, Seq<u8>),
            _,
        >(SpoolFrameError::CorruptPayload),
        length != 8 ==> read_value(seq![2u8] + (be32(length) + rest)) == Err::<
            (AttributeView, Seq<u8>),
            _,
        >(SpoolFrameError::CorruptPayload),
        length != 1 ==> read_value(seq![3u8] + (be32(length) + rest)) == Err::<
            (AttributeView, Seq<u8>),
            _,
        >(SpoolFrameError::CorruptPayload),
        value > 1 ==> read_value(seq![3u8] + (be32(1) + (seq![value] + rest))) == Err::<
            (AttributeView, Seq<u8>),
            _,
        >(SpoolFrameError::InvalidBool { value }),
        read_value(Seq::empty()) == Err::<(AttributeView, Seq<u8>), _>(SpoolFrameError::Truncated),
{
    lemma_be32_round_trip(length);
    lemma_be32_round_trip(1);
    assert((seq![tag] + rest)[0] == tag);
    let behind = be32(length) + rest;
    assert((seq![2u8] + behind).skip(1) =~= behind);
    assert((seq![3u8] + behind).skip(1) =~= behind);
    assert(behind.take(4) =~= be32(length));
    let flag = be32(1) + (seq![value] + rest);
    assert((seq![3u8] + flag).skip(1) =~= flag);
    assert(flag.take(4) =~= be32(1));
    assert(flag.skip(4) =~= seq![value] + rest);
}

/// Keys that do not ascend are refused, and so is text that is no UTF-8 and what is left behind
/// the last record.
pub proof fn law_odd_records_are_refused(
    key: Seq<char>,
    last: Seq<char>,
    garbled: Seq<u8>,
    rest: Seq<u8>,
)
    ensures
        encode_utf8(key).len() <= u32::MAX && !text_before(last, key) ==> read_attribute(
            written_bytes(encode_utf8(key)) + rest,
            Some(last),
        ) == Err::<((Seq<char>, AttributeView), Seq<u8>), _>(
            SpoolFrameError::NonCanonicalAttributes,
        ),
        garbled.len() <= u32::MAX && !valid_utf8(garbled) ==> read_text(
            written_bytes(garbled) + rest,
        ) == Err::<(Seq<char>, Seq<u8>), _>(SpoolFrameError::InvalidUtf8),
        rest.len() > 0 ==> read_records(be32(0) + rest) == Err::<Seq<RecordView>, _>(
            SpoolFrameError::TrailingBytes,
        ),
{
    reveal(read_attribute);
    if encode_utf8(key).len() <= u32::MAX {
        lemma_read_written(encode_utf8(key), rest);
        vstd::utf8::encode_utf8_valid_utf8(key);
        vstd::utf8::encode_utf8_decode_utf8(key);
    }
    if garbled.len() <= u32::MAX {
        lemma_read_written(garbled, rest);
    }
    lemma_be32_round_trip(0);
    assert((be32(0) + rest).take(4) =~= be32(0));
    assert((be32(0) + rest).skip(4) =~= rest);
}

proof fn lemma_read_written(given: Seq<u8>, rest: Seq<u8>)
    requires
        given.len() <= u32::MAX,
    ensures
        read_bytes(written_bytes(given) + rest) == Ok::<_, SpoolFrameError>((given, rest)),
{
    let bytes = written_bytes(given) + rest;
    lemma_be32_round_trip(given.len() as u32);
    assert(bytes.take(4) =~= be32(given.len() as u32));
    assert(bytes.skip(4) =~= given + rest);
    assert((given + rest).take(given.len() as int) =~= given);
    assert((given + rest).skip(given.len() as int) =~= rest);
}

/// A frame is of the kind that it is and has the identity that it has; encoding writes it and
/// decoding reads it, over whole calls.
pub proof fn law_frames_over_whole_calls(
    frame: SpoolFrame,
    kind: FrameKind,
    identity: Option<ProgressIdentity>,
    bytes: &[u8],
    decoded: Result<(SpoolFrame, usize), SpoolFrameError>,
)
    requires
        call_ensures(SpoolFrame::kind, (&frame,), kind),
        call_ensures(SpoolFrame::identity, (&frame,), identity),
        call_ensures(decode_frame, (bytes,), decoded),
    ensures
        kind == FrameKind::Submission <==> frame@ is Submission,
        identity is Some && identity->0@ == frame@.identity(),
        decoded matches Ok((found, consumed)) ==> consumed <= bytes@.len() && bytes@.take(
            consumed as int,
        ) == written_frame(found@),
        bytes@.len() < 4 ==> decoded is Err,
{
    if bytes@.len() < 4 {
        reveal(read_frame);
    }
}

} // verus!
