//! What encoding and decoding of spool frames are to each other.
use crate::buffers::{
    be32, be64, buffer_limit, from_be32, from_be64, i64_bits, lemma_be32_round_trip,
    lemma_be64_round_trip, lemma_from_be32_round_trip, lemma_from_be64_round_trip,
    lemma_i64_bits_round_trip,
};
use crate::frame::{
    attribute_fits, crc32c_of, encodable, frame_fits, identity_at, length_fits, magic, read_attribute,
    read_attributes, read_bytes, read_frame, read_i64, read_prefix, read_record, read_record_list,
    read_records, read_text, read_u32, read_u8, read_value, record_fits, written_attribute,
    written_attributes, written_body, written_bytes, written_frame, written_identity,
    written_prefix, written_record, written_records, written_value, FrameView, IdentityView,
    SpoolFrameError, BOOL_TAG, I64_TAG, STRING_TAG,
};
use crate::model::{keys_ascend, AttributeSeq, AttributeView, RecordView};
use crate::text::text_before;
use vstd::prelude::*;
use vstd::utf8::{decode_utf8, encode_utf8, valid_utf8};

verus! {

proof fn lemma_read_u8(value: u8, rest: Seq<u8>)
    ensures
        read_u8(seq![value] + rest) == Ok::<_, SpoolFrameError>((value, rest)),
{
    assert((seq![value] + rest).skip(1) =~= rest);
}

proof fn lemma_read_u32(value: u32, rest: Seq<u8>)
    ensures
        read_u32(be32(value) + rest) == Ok::<_, SpoolFrameError>((value, rest)),
{
    lemma_be32_round_trip(value);
    assert((be32(value) + rest).take(4) =~= be32(value));
    assert((be32(value) + rest).skip(4) =~= rest);
}

proof fn lemma_read_i64(value: i64, rest: Seq<u8>)
    ensures
        read_i64(be64(i64_bits(value)) + rest) == Ok::<_, SpoolFrameError>((value, rest)),
{
    lemma_be64_round_trip(i64_bits(value));
    lemma_i64_bits_round_trip(value, 0);
    assert((be64(i64_bits(value)) + rest).take(8) =~= be64(i64_bits(value)));
    assert((be64(i64_bits(value)) + rest).skip(8) =~= rest);
}

proof fn lemma_read_bytes(bytes: Seq<u8>, rest: Seq<u8>)
    requires
        length_fits(bytes.len()),
    ensures
        read_bytes(written_bytes(bytes) + rest) == Ok::<_, SpoolFrameError>((bytes, rest)),
{
    let length = bytes.len() as u32;
    lemma_read_u32(length, bytes + rest);
    assert(written_bytes(bytes) + rest =~= be32(length) + (bytes + rest));
    assert((bytes + rest).take(length as int) =~= bytes);
    assert((bytes + rest).skip(length as int) =~= rest);
}

proof fn lemma_read_text(text: Seq<char>, rest: Seq<u8>)
    requires
        length_fits(encode_utf8(text).len()),
    ensures
        read_text(written_bytes(encode_utf8(text)) + rest) == Ok::<_, SpoolFrameError>(
            (text, rest),
        ),
{
    broadcast use vstd::utf8::encode_utf8_valid_utf8, vstd::utf8::encode_utf8_decode_utf8;

    lemma_read_bytes(encode_utf8(text), rest);
    assert(valid_utf8(encode_utf8(text)));
    assert(decode_utf8(encode_utf8(text)) == text);
}

proof fn lemma_read_value(value: AttributeView, rest: Seq<u8>)
    requires
        value matches AttributeView::Text(text) ==> length_fits(encode_utf8(text).len()),
    ensures
        read_value(written_value(value) + rest) == Ok::<_, SpoolFrameError>((value, rest)),
{
    match value {
        AttributeView::Text(text) => {
            let tail = written_bytes(encode_utf8(text)) + rest;
            lemma_read_u8(STRING_TAG, tail);
            lemma_read_text(text, rest);
            assert(written_value(value) + rest =~= seq![STRING_TAG] + tail);
        },
        AttributeView::Number(number) => {
            let last = be64(i64_bits(number)) + rest;
            let tail = be32(8) + last;
            lemma_read_u8(I64_TAG, tail);
            lemma_read_u32(8, last);
            lemma_read_i64(number, rest);
            assert(written_value(value) + rest =~= seq![I64_TAG] + tail);
        },
        AttributeView::Flag(flag) => {
            let byte: u8 = if flag {
                1
            } else {
                0
            };
            let last = seq![byte] + rest;
            let tail = be32(1) + last;
            lemma_read_u8(BOOL_TAG, tail);
            lemma_read_u32(1, last);
            lemma_read_u8(byte, rest);
            assert(written_value(value) + rest =~= seq![BOOL_TAG] + tail);
        },
    }
}

proof fn lemma_read_attribute(
    entry: (Seq<char>, AttributeView),
    last: Option<Seq<char>>,
    rest: Seq<u8>,
)
    requires
        attribute_fits(entry),
        last matches Some(prior) ==> text_before(prior, entry.0),
    ensures
        read_attribute(written_attribute(entry) + rest, last) == Ok::<_, SpoolFrameError>(
            (entry, rest),
        ),
{
    reveal(read_attribute);
    reveal(written_attribute);
    let tail = written_value(entry.1) + rest;
    lemma_read_text(entry.0, tail);
    lemma_read_value(entry.1, rest);
    assert(written_attribute(entry) + rest =~= written_bytes(encode_utf8(entry.0)) + tail);
}

proof fn lemma_read_attributes(entries: AttributeSeq, last: Option<Seq<char>>, rest: Seq<u8>)
    requires
        keys_ascend(entries),
        forall|i: int| 0 <= i < entries.len() ==> attribute_fits(#[trigger] entries[i]),
        entries.len() > 0 ==> (last matches Some(prior) ==> text_before(prior, entries[0].0)),
    ensures
        read_attributes(written_attributes(entries) + rest, entries.len(), last) == Ok::<
            _,
            SpoolFrameError,
        >((entries, rest)),
    decreases entries.len(),
{
    if entries.len() == 0 {
        assert(written_attributes(entries) + rest =~= rest);
        assert(entries =~= AttributeSeq::empty());
    } else {
        let more = entries.skip(1);
        let tail = written_attributes(more) + rest;
        assert forall|i: int| 0 < i < more.len() implies text_before(
            #[trigger] more[i - 1].0,
            more[i].0,
        ) by {
            let at = i + 1;
            assert(text_before(entries[at - 1].0, entries[at].0));
        }
        if more.len() > 0 {
            let at = 1int;
            assert(text_before(entries[at - 1].0, entries[at].0));
        }
        lemma_read_attribute(entries[0], last, tail);
        lemma_read_attributes(more, Some(entries[0].0), rest);
        assert(written_attributes(entries) + rest =~= written_attribute(entries[0]) + tail);
        assert(seq![entries[0]] + more =~= entries);
    }
}

proof fn lemma_read_record(record: RecordView, rest: Seq<u8>)
    requires
        keys_ascend(record.attributes),
        record_fits(record),
    ensures
        read_record(written_record(record) + rest) == Ok::<_, SpoolFrameError>((record, rest)),
{
    reveal(read_record);
    reveal(written_record);
    let last = written_bytes(record.payload) + rest;
    let tail = written_attributes(record.attributes) + last;
    lemma_read_u32(record.attributes.len() as u32, tail);
    lemma_read_attributes(record.attributes, None, last);
    lemma_read_bytes(record.payload, rest);
    assert(written_record(record) + rest =~= be32(record.attributes.len() as u32) + tail);
}

proof fn lemma_read_record_list(records: Seq<RecordView>, rest: Seq<u8>)
    requires
        forall|i: int| 0 <= i < records.len() ==> keys_ascend(#[trigger] records[i].attributes),
        forall|i: int| 0 <= i < records.len() ==> record_fits(#[trigger] records[i]),
    ensures
        read_record_list(written_records(records) + rest, records.len()) == Ok::<
            _,
            SpoolFrameError,
        >((records, rest)),
    decreases records.len(),
{
    if records.len() == 0 {
        assert(written_records(records) + rest =~= rest);
        assert(records =~= Seq::<RecordView>::empty());
    } else {
        let more = records.skip(1);
        let tail = written_records(more) + rest;
        assert forall|i: int| 0 <= i < more.len() implies keys_ascend(
            #[trigger] more[i].attributes,
        ) && record_fits(more[i]) by {
            assert(more[i] == records[i + 1]);
            assert(keys_ascend(records[i + 1].attributes));
        }
        assert(keys_ascend(records[0].attributes));
        lemma_read_record(records[0], tail);
        lemma_read_record_list(more, rest);
        assert(written_records(records) + rest =~= written_record(records[0]) + tail);
        assert(seq![records[0]] + more =~= records);
    }
}

proof fn lemma_read_identity(identity: IdentityView, rest: Seq<u8>)
    requires
        identity.journal_id.len() == 16,
        identity.producer_id.len() == 16,
    ensures
        identity_at(written_identity(identity) + rest) == identity,
        written_identity(identity).len() == 44,
        (written_identity(identity) + rest).skip(44) == rest,
{
    let payload = written_identity(identity) + rest;
    lemma_be32_round_trip(identity.producer_epoch);
    lemma_be64_round_trip(identity.sequence);
    assert(payload.subrange(0, 16) =~= identity.journal_id);
    assert(payload.subrange(16, 32) =~= identity.producer_id);
    assert(payload.subrange(32, 36) =~= be32(identity.producer_epoch));
    assert(payload.subrange(36, 44) =~= be64(identity.sequence));
    assert(payload.skip(44) =~= rest);
}

proof fn lemma_read_prefix(frame: FrameView)
    requires
        frame.canonical(),
        frame_fits(frame),
    ensures
        written_prefix(frame).len() >= 50,
        read_prefix(written_prefix(frame)) == Ok::<_, SpoolFrameError>(frame),
{
    let prefix = written_prefix(frame);
    assert(prefix.take(4) =~= magic());
    match frame {
        FrameView::Submission { journal_id, submission } => {
            let records = written_records(submission.records);
            let tail = be32(submission.records.len() as u32) + records;
            lemma_read_identity(frame.identity(), tail);
            assert(prefix.skip(6) =~= written_identity(frame.identity()) + tail);
            lemma_read_u32(submission.records.len() as u32, records);
            lemma_read_record_list(submission.records, Seq::empty());
            assert(records + Seq::<u8>::empty() =~= records);
            assert(read_records(tail) == Ok::<_, SpoolFrameError>(submission.records));
        },
        FrameView::Progress(identity) => {
            lemma_read_identity(identity, Seq::empty());
            assert(prefix.skip(6) =~= written_identity(identity) + Seq::<u8>::empty());
        },
    }
}

/// Decoding what encoding wrote gives the frame back and consumes exactly its
/// bytes, whatever comes after them.
pub proof fn law_decode_undoes_encode(frame: FrameView, rest: Seq<u8>)
    requires
        frame.canonical(),
        frame_fits(frame),
        written_frame(frame).len() <= usize::MAX,
    ensures
        read_frame(written_frame(frame) + rest) == Ok::<_, SpoolFrameError>(
            (frame, written_frame(frame).len()),
        ),
{
    reveal(read_frame);
    let prefix = written_prefix(frame);
    let body = written_body(frame);
    let sum = crc32c_of(prefix);
    let bytes = written_frame(frame) + rest;
    let total = written_frame(frame).len() as int;
    lemma_read_prefix(frame);
    lemma_be32_round_trip(body.len() as u32);
    lemma_be32_round_trip(sum);
    assert(bytes.take(4) =~= be32(body.len() as u32));
    assert(total == 4 + body.len());
    assert(bytes.subrange(4, total - 4) =~= prefix);
    assert(bytes.subrange(total - 4, total) =~= be32(sum));
}

// The other direction: what a reader accepts is what the writer writes.

proof fn lemma_accepted_u32(bytes: Seq<u8>)
    ensures
        read_u32(bytes) matches Ok((value, rest)) ==> bytes == be32(value) + rest,
{
    if bytes.len() >= 4 {
        lemma_from_be32_round_trip(bytes.take(4));
        assert(bytes =~= bytes.take(4) + bytes.skip(4));
    }
}

proof fn lemma_accepted_bytes(bytes: Seq<u8>)
    ensures
        read_bytes(bytes) matches Ok((value, rest)) ==> length_fits(value.len()) && bytes
            == written_bytes(value) + rest,
{
    lemma_accepted_u32(bytes);
    match read_u32(bytes) {
        Ok((length, rest)) => {
            if rest.len() >= length {
                let value = rest.take(length as int);
                assert(rest =~= value + rest.skip(length as int));
                assert(bytes =~= written_bytes(value) + rest.skip(length as int));
            }
        },
        Err(_) => {},
    }
}

proof fn lemma_accepted_text(bytes: Seq<u8>)
    ensures
        read_text(bytes) matches Ok((text, rest)) ==> length_fits(encode_utf8(text).len()) && bytes
            == written_bytes(encode_utf8(text)) + rest,
{
    broadcast use vstd::utf8::decode_utf8_encode_utf8;

    lemma_accepted_bytes(bytes);
}

proof fn lemma_accepted_value(bytes: Seq<u8>)
    ensures
        read_value(bytes) matches Ok((value, rest)) ==> {
            &&& value matches AttributeView::Text(text) ==> length_fits(encode_utf8(text).len())
            &&& bytes == written_value(value) + rest
        },
{
    if bytes.len() >= 1 {
        let tag = bytes[0];
        let after = bytes.skip(1);
        assert(bytes =~= seq![tag] + after);
        if tag == STRING_TAG {
            lemma_accepted_text(after);
            match read_text(after) {
                Ok((text, rest)) => {
                    assert(bytes =~= written_value(AttributeView::Text(text)) + rest);
                },
                Err(_) => {},
            }
        } else if tag == I64_TAG {
            lemma_accepted_u32(after);
            match read_u32(after) {
                Ok((length, last)) => {
                    if length == 8 && last.len() >= 8 {
                        let bits = from_be64(last.take(8));
                        lemma_from_be64_round_trip(last.take(8));
                        lemma_i64_bits_round_trip(0, bits);
                        assert(last =~= last.take(8) + last.skip(8));
                        assert(bytes =~= written_value(AttributeView::Number(bits as i64))
                            + last.skip(8));
                    }
                },
                Err(_) => {},
            }
        } else if tag == BOOL_TAG {
            lemma_accepted_u32(after);
            match read_u32(after) {
                Ok((length, last)) => {
                    if length == 1 && last.len() >= 1 && last[0] <= 1 {
                        assert(last =~= seq![last[0]] + last.skip(1));
                        assert(bytes =~= written_value(AttributeView::Flag(last[0] == 1))
                            + last.skip(1));
                    }
                },
                Err(_) => {},
            }
        }
    }
}

proof fn lemma_accepted_attribute(bytes: Seq<u8>, last: Option<Seq<char>>)
    ensures
        read_attribute(bytes, last) matches Ok((entry, rest)) ==> {
            &&& attribute_fits(entry)
            &&& last matches Some(prior) ==> text_before(prior, entry.0)
            &&& bytes == written_attribute(entry) + rest
        },
{
    reveal(read_attribute);
    reveal(written_attribute);
    lemma_accepted_text(bytes);
    match read_text(bytes) {
        Ok((key, after)) => {
            lemma_accepted_value(after);
            match read_value(after) {
                Ok((value, rest)) => {
                    assert(bytes =~= written_attribute((key, value)) + rest);
                },
                Err(_) => {},
            }
        },
        Err(_) => {},
    }
}

proof fn lemma_accepted_attributes(bytes: Seq<u8>, count: nat, last: Option<Seq<char>>)
    ensures
        read_attributes(bytes, count, last) matches Ok((entries, rest)) ==> {
            &&& entries.len() == count
            &&& keys_ascend(entries)
            &&& forall|i: int| 0 <= i < entries.len() ==> attribute_fits(#[trigger] entries[i])
            &&& entries.len() > 0 ==> (last matches Some(prior) ==> text_before(
                prior,
                entries[0].0,
            ))
            &&& bytes == written_attributes(entries) + rest
        },
    decreases count,
{
    if count == 0 {
        assert(written_attributes(AttributeSeq::empty()) + bytes =~= bytes);
    } else {
        lemma_accepted_attribute(bytes, last);
        match read_attribute(bytes, last) {
            Ok((entry, after)) => {
                lemma_accepted_attributes(after, (count - 1) as nat, Some(entry.0));
                match read_attributes(after, (count - 1) as nat, Some(entry.0)) {
                    Ok((more, rest)) => {
                        let entries = seq![entry] + more;
                        assert(entries.skip(1) =~= more);
                        assert forall|i: int| 0 < i < entries.len() implies text_before(
                            #[trigger] entries[i - 1].0,
                            entries[i].0,
                        ) by {
                            if i > 1 {
                                let at = i - 1;
                                assert(text_before(more[at - 1].0, more[at].0));
                            }
                        }
                        assert forall|i: int| 0 <= i < entries.len() implies attribute_fits(
                            #[trigger] entries[i],
                        ) by {
                            if i > 0 {
                                assert(attribute_fits(more[i - 1]));
                            }
                        }
                        assert(bytes =~= written_attributes(entries) + rest);
                    },
                    Err(_) => {},
                }
            },
            Err(_) => {},
        }
    }
}

proof fn lemma_accepted_record(bytes: Seq<u8>)
    ensures
        read_record(bytes) matches Ok((record, rest)) ==> {
            &&& keys_ascend(record.attributes)
            &&& record_fits(record)
            &&& bytes == written_record(record) + rest
        },
{
    reveal(read_record);
    reveal(written_record);
    lemma_accepted_u32(bytes);
    match read_u32(bytes) {
        Ok((count, after)) => {
            lemma_accepted_attributes(after, count as nat, None);
            match read_attributes(after, count as nat, None) {
                Ok((attributes, last)) => {
                    lemma_accepted_bytes(last);
                    match read_bytes(last) {
                        Ok((payload, rest)) => {
                            assert(bytes =~= written_record(RecordView { attributes, payload })
                                + rest);
                        },
                        Err(_) => {},
                    }
                },
                Err(_) => {},
            }
        },
        Err(_) => {},
    }
}

proof fn lemma_accepted_record_list(bytes: Seq<u8>, count: nat)
    ensures
        read_record_list(bytes, count) matches Ok((records, rest)) ==> {
            &&& records.len() == count
            &&& forall|i: int|
                0 <= i < records.len() ==> keys_ascend(#[trigger] records[i].attributes)
            &&& forall|i: int| 0 <= i < records.len() ==> record_fits(#[trigger] records[i])
            &&& bytes == written_records(records) + rest
        },
    decreases count,
{
    if count == 0 {
        assert(written_records(Seq::<RecordView>::empty()) + bytes =~= bytes);
    } else {
        lemma_accepted_record(bytes);
        match read_record(bytes) {
            Ok((record, after)) => {
                lemma_accepted_record_list(after, (count - 1) as nat);
                match read_record_list(after, (count - 1) as nat) {
                    Ok((more, rest)) => {
                        let records = seq![record] + more;
                        assert(records.skip(1) =~= more);
                        assert forall|i: int| 0 <= i < records.len() implies keys_ascend(
                            #[trigger] records[i].attributes,
                        ) && record_fits(records[i]) by {
                            if i > 0 {
                                assert(records[i] == more[i - 1]);
                                assert(keys_ascend(more[i - 1].attributes));
                            }
                        }
                        assert(bytes =~= written_records(records) + rest);
                    },
                    Err(_) => {},
                }
            },
            Err(_) => {},
        }
    }
}

proof fn lemma_accepted_identity(payload: Seq<u8>)
    requires
        payload.len() >= 44,
    ensures
        written_identity(identity_at(payload)) + payload.skip(44) == payload,
{
    lemma_from_be32_round_trip(payload.subrange(32, 36));
    lemma_from_be64_round_trip(payload.subrange(36, 44));
    assert(written_identity(identity_at(payload)) + payload.skip(44) =~= payload);
}

proof fn lemma_accepted_prefix(prefix: Seq<u8>)
    requires
        prefix.len() >= 6,
    ensures
        read_prefix(prefix) matches Ok(frame) ==> {
            &&& frame.canonical()
            &&& prefix == written_prefix(frame)
            &&& frame matches FrameView::Submission { submission, .. } ==> length_fits(
                submission.records.len(),
            ) && forall|i: int|
                0 <= i < submission.records.len() ==> record_fits(#[trigger] submission.records[i])
        },
{
    let payload = prefix.skip(6);
    assert(prefix =~= prefix.take(4) + (seq![prefix[4], prefix[5]] + payload));
    match read_prefix(prefix) {
        Ok(frame) => {
            lemma_accepted_identity(payload);
            match frame {
                FrameView::Submission { journal_id, submission } => {
                    let tail = payload.skip(44);
                    lemma_accepted_u32(tail);
                    match read_u32(tail) {
                        Ok((count, rest)) => {
                            lemma_accepted_record_list(rest, count as nat);
                            assert(rest =~= written_records(submission.records));
                        },
                        Err(_) => {},
                    }
                    assert(prefix =~= written_prefix(frame));
                },
                FrameView::Progress(identity) => {
                    assert(payload.skip(44) =~= Seq::<u8>::empty());
                    assert(prefix =~= written_prefix(frame));
                },
            }
        },
        Err(_) => {},
    }
}

/// What decoding accepts is exactly what encoding the decoded frame writes: the length
/// that it starts with and as many bytes. Such a frame can be encoded again, on a 64-bit
/// machine always and on a smaller one where the bytes are within the limit of a buffer.
pub proof fn law_encode_undoes_decode(bytes: Seq<u8>)
    ensures
        read_frame(bytes) matches Ok((frame, consumed)) ==> {
            &&& frame.canonical()
            &&& frame_fits(frame)
            &&& consumed == written_frame(frame).len()
            &&& consumed <= bytes.len()
            &&& consumed == 4 + from_be32(bytes.take(4))
            &&& bytes.take(consumed as int) == written_frame(frame)
            &&& usize::MAX > u32::MAX || bytes.len() <= buffer_limit() ==> encodable(frame)
        },
{
    reveal(read_frame);
    match read_frame(bytes) {
        Ok((frame, consumed)) => {
            let total = consumed as int;
            let prefix = bytes.subrange(4, total - 4);
            let sum = bytes.subrange(total - 4, total);
            lemma_accepted_prefix(prefix);
            lemma_from_be32_round_trip(sum);
            lemma_from_be32_round_trip(bytes.take(4));
            assert(written_body(frame) =~= prefix + sum);
            assert(written_body(frame).len() == total - 4);
            assert(bytes.take(total) =~= written_frame(frame));
        },
        Err(_) => {},
    }
}

/// No two byte sequences stand for one frame.
pub proof fn law_frames_have_one_encoding(left: Seq<u8>, right: Seq<u8>)
    requires
        read_frame(left) is Ok,
        read_frame(right) is Ok,
        read_frame(left)->Ok_0.0 == read_frame(right)->Ok_0.0,
    ensures
        read_frame(left)->Ok_0.1 == read_frame(right)->Ok_0.1,
        left.take(read_frame(left)->Ok_0.1 as int) == right.take(
            read_frame(right)->Ok_0.1 as int,
        ),
{
    law_encode_undoes_decode(left);
    law_encode_undoes_decode(right);
}

/// Different frames are written differently, and neither is a prefix of the other.
pub proof fn law_encoding_is_prefix_free(left: FrameView, right: FrameView, rest: Seq<u8>)
    requires
        left.canonical(),
        right.canonical(),
        frame_fits(left),
        frame_fits(right),
        written_frame(left).len() <= usize::MAX,
        written_frame(right).len() <= usize::MAX,
        written_frame(left) + rest == written_frame(right),
    ensures
        left == right,
{
    law_decode_undoes_encode(left, rest);
    law_decode_undoes_encode(right, Seq::empty());
    assert(written_frame(right) + Seq::<u8>::empty() =~= written_frame(right));
}

/// Only the bytes of the frame decide how it is decoded: bytes after it change nothing.
pub proof fn law_decode_ignores_what_follows(bytes: Seq<u8>, rest: Seq<u8>)
    ensures
        read_frame(bytes) is Ok ==> read_frame(bytes + rest) == read_frame(bytes),
{
    reveal(read_frame);
    match read_frame(bytes) {
        Ok((frame, consumed)) => {
            let total = consumed as int;
            assert((bytes + rest).take(4) =~= bytes.take(4));
            assert((bytes + rest).subrange(4, total - 4) =~= bytes.subrange(4, total - 4));
            assert((bytes + rest).subrange(total - 4, total) =~= bytes.subrange(total - 4, total));
        },
        Err(_) => {},
    }
}

/// A frame whose last bytes are missing is reported as truncated, never as
/// another frame.
pub proof fn law_partial_frame_is_truncated(frame: FrameView, kept: int)
    requires
        frame_fits(frame),
        written_frame(frame).len() <= usize::MAX,
        0 <= kept < written_frame(frame).len(),
    ensures
        read_frame(written_frame(frame).take(kept)) == Err::<(FrameView, nat), _>(
            SpoolFrameError::Truncated,
        ),
{
    reveal(read_frame);
    let body = written_body(frame);
    let bytes = written_frame(frame).take(kept);
    lemma_be32_round_trip(body.len() as u32);
    if kept >= 4 {
        assert(bytes.take(4) =~= be32(body.len() as u32));
    }
}

} // verus!
