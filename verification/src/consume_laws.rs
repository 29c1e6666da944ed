//! What holds of printed records, of their summary and of a consuming run.
use crate::config::{assignments_view, AssignmentConfig, AssignmentView, ScriptureConfig};
use crate::consume::{
    assignment_index, capped, chain_end, contiguous_end, corrupt_payload, entry_listing, escaped,
    escaped_bytes, escaped_char, find_assignment, is_control, is_showable, json_char, json_chars,
    json_string, print_record,
    printed_view, read_failure, record_line, record_offset, rendered, room,
    summary_words, ConsumeOptions, ConsumeRun, ConsumeSummary, FrameRecords, OutputFormat, PassEnd,
    PrintedRecord, RecordLineView,
};
use crate::text::{decimal, hex};
use crate::text_laws::{
    differ_behind, lemma_differ_first, lemma_differ_here, lemma_differ_then, lemma_differ_then_four,
    lemma_differ_then_two,
};
use vstd::prelude::*;
use vstd::utf8::{decode_utf8, encode_utf8, valid_utf8};

verus! {

/// Two text lines of records that differ in one thing alone differ only behind its name.
pub proof fn law_text_lines_name_what_they_show(record: RecordLineView, other: RecordLineView)
    ensures
        differ_behind(
            record_line(record, OutputFormat::Text),
            record_line(RecordLineView { canon: other.canon, ..record }, OutputFormat::Text),
            "canon="@,
            record.canon,
            other.canon,
        ),
        differ_behind(
            record_line(record, OutputFormat::Text),
            record_line(RecordLineView { verse: other.verse, ..record }, OutputFormat::Text),
            " verse="@,
            record.verse,
            other.verse,
        ),
        differ_behind(
            record_line(record, OutputFormat::Text),
            record_line(RecordLineView { entry: other.entry, ..record }, OutputFormat::Text),
            " entry="@,
            decimal(record.entry as nat),
            decimal(other.entry as nat),
        ),
        differ_behind(
            record_line(record, OutputFormat::Text),
            record_line(
                RecordLineView { record_offset: other.record_offset, ..record },
                OutputFormat::Text,
            ),
            " record="@,
            decimal(record.record_offset as nat),
            decimal(other.record_offset as nat),
        ),
        differ_behind(
            record_line(record, OutputFormat::Text),
            record_line(RecordLineView { digest: other.digest, ..record }, OutputFormat::Text),
            " digest="@,
            record.digest,
            other.digest,
        ),
{
    let (encoding, shown) = rendered(record.payload);
    lemma_differ_first("canon="@, record.canon, other.canon);
    let one = "canon="@ + record.canon;
    let other_one = "canon="@ + other.canon;
    lemma_differ_then_four(
        one,
        other_one,
        "canon="@,
        record.canon,
        other.canon,
        " verse="@,
        record.verse,
        " entry="@,
        decimal(record.entry as nat),
    );
    let one = one + " verse="@ + record.verse + " entry="@ + decimal(record.entry as nat);
    let other_one = other_one + " verse="@ + record.verse + " entry="@
        + decimal(record.entry as nat);
    lemma_differ_then_four(
        one,
        other_one,
        "canon="@,
        record.canon,
        other.canon,
        " record="@,
        decimal(record.record_offset as nat),
        " bytes="@,
        decimal(record.payload.len()),
    );
    let one = one + " record="@ + decimal(record.record_offset as nat) + " bytes="@
        + decimal(record.payload.len());
    let other_one = other_one + " record="@ + decimal(record.record_offset as nat) + " bytes="@
        + decimal(record.payload.len());
    lemma_differ_then_four(
        one,
        other_one,
        "canon="@,
        record.canon,
        other.canon,
        " digest="@,
        record.digest,
        " payload="@,
        encoding,
    );
    let one = one + " digest="@ + record.digest + " payload="@ + encoding;
    let other_one = other_one + " digest="@ + record.digest + " payload="@ + encoding;
    lemma_differ_then_two(one, other_one, "canon="@, record.canon, other.canon, ":"@, shown);
    let one = one + ":"@ + shown;
    let other_one = other_one + ":"@ + shown;
    lemma_differ_then(one, other_one, "canon="@, record.canon, other.canon, "\n"@);
    lemma_differ_here("canon="@ + record.canon, " verse="@, record.verse, other.verse);
    let one = "canon="@ + record.canon + " verse="@ + record.verse;
    let other_one = "canon="@ + record.canon + " verse="@ + other.verse;
    lemma_differ_then_four(
        one,
        other_one,
        " verse="@,
        record.verse,
        other.verse,
        " entry="@,
        decimal(record.entry as nat),
        " record="@,
        decimal(record.record_offset as nat),
    );
    let one = one + " entry="@ + decimal(record.entry as nat) + " record="@
        + decimal(record.record_offset as nat);
    let other_one = other_one + " entry="@ + decimal(record.entry as nat) + " record="@
        + decimal(record.record_offset as nat);
    lemma_differ_then_four(
        one,
        other_one,
        " verse="@,
        record.verse,
        other.verse,
        " bytes="@,
        decimal(record.payload.len()),
        " digest="@,
        record.digest,
    );
    let one = one + " bytes="@ + decimal(record.payload.len()) + " digest="@ + record.digest;
    let other_one = other_one + " bytes="@ + decimal(record.payload.len()) + " digest="@
        + record.digest;
    lemma_differ_then_four(
        one,
        other_one,
        " verse="@,
        record.verse,
        other.verse,
        " payload="@,
        encoding,
        ":"@,
        shown,
    );
    let one = one + " payload="@ + encoding + ":"@ + shown;
    let other_one = other_one + " payload="@ + encoding + ":"@ + shown;
    lemma_differ_then(one, other_one, " verse="@, record.verse, other.verse, "\n"@);
    lemma_differ_here(
        "canon="@ + record.canon + " verse="@ + record.verse,
        " entry="@,
        decimal(record.entry as nat),
        decimal(other.entry as nat),
    );
    let one = "canon="@ + record.canon + " verse="@ + record.verse + " entry="@
        + decimal(record.entry as nat);
    let other_one = "canon="@ + record.canon + " verse="@ + record.verse + " entry="@
        + decimal(other.entry as nat);
    lemma_differ_then_four(
        one,
        other_one,
        " entry="@,
        decimal(record.entry as nat),
        decimal(other.entry as nat),
        " record="@,
        decimal(record.record_offset as nat),
        " bytes="@,
        decimal(record.payload.len()),
    );
    let one = one + " record="@ + decimal(record.record_offset as nat) + " bytes="@
        + decimal(record.payload.len());
    let other_one = other_one + " record="@ + decimal(record.record_offset as nat) + " bytes="@
        + decimal(record.payload.len());
    lemma_differ_then_four(
        one,
        other_one,
        " entry="@,
        decimal(record.entry as nat),
        decimal(other.entry as nat),
        " digest="@,
        record.digest,
        " payload="@,
        encoding,
    );
    let one = one + " digest="@ + record.digest + " payload="@ + encoding;
    let other_one = other_one + " digest="@ + record.digest + " payload="@ + encoding;
    lemma_differ_then_two(
        one,
        other_one,
        " entry="@,
        decimal(record.entry as nat),
        decimal(other.entry as nat),
        ":"@,
        shown,
    );
    let one = one + ":"@ + shown;
    let other_one = other_one + ":"@ + shown;
    lemma_differ_then(
        one,
        other_one,
        " entry="@,
        decimal(record.entry as nat),
        decimal(other.entry as nat),
        "\n"@,
    );
    lemma_differ_here(
        "canon="@ + record.canon + " verse="@ + record.verse + " entry="@
            + decimal(record.entry as nat),
        " record="@,
        decimal(record.record_offset as nat),
        decimal(other.record_offset as nat),
    );
    let one = "canon="@ + record.canon + " verse="@ + record.verse + " entry="@
        + decimal(record.entry as nat) + " record="@ + decimal(record.record_offset as nat);
    let other_one = "canon="@ + record.canon + " verse="@ + record.verse + " entry="@
        + decimal(record.entry as nat) + " record="@ + decimal(other.record_offset as nat);
    lemma_differ_then_four(
        one,
        other_one,
        " record="@,
        decimal(record.record_offset as nat),
        decimal(other.record_offset as nat),
        " bytes="@,
        decimal(record.payload.len()),
        " digest="@,
        record.digest,
    );
    let one = one + " bytes="@ + decimal(record.payload.len()) + " digest="@ + record.digest;
    let other_one = other_one + " bytes="@ + decimal(record.payload.len()) + " digest="@
        + record.digest;
    lemma_differ_then_four(
        one,
        other_one,
        " record="@,
        decimal(record.record_offset as nat),
        decimal(other.record_offset as nat),
        " payload="@,
        encoding,
        ":"@,
        shown,
    );
    let one = one + " payload="@ + encoding + ":"@ + shown;
    let other_one = other_one + " payload="@ + encoding + ":"@ + shown;
    lemma_differ_then(
        one,
        other_one,
        " record="@,
        decimal(record.record_offset as nat),
        decimal(other.record_offset as nat),
        "\n"@,
    );
    lemma_differ_here(
        "canon="@ + record.canon + " verse="@ + record.verse + " entry="@
            + decimal(record.entry as nat) + " record="@ + decimal(record.record_offset as nat)
            + " bytes="@ + decimal(record.payload.len()),
        " digest="@,
        record.digest,
        other.digest,
    );
    let one = "canon="@ + record.canon + " verse="@ + record.verse + " entry="@
        + decimal(record.entry as nat) + " record="@ + decimal(record.record_offset as nat)
        + " bytes="@ + decimal(record.payload.len()) + " digest="@ + record.digest;
    let other_one = "canon="@ + record.canon + " verse="@ + record.verse + " entry="@
        + decimal(record.entry as nat) + " record="@ + decimal(record.record_offset as nat)
        + " bytes="@ + decimal(record.payload.len()) + " digest="@ + other.digest;
    lemma_differ_then_four(
        one,
        other_one,
        " digest="@,
        record.digest,
        other.digest,
        " payload="@,
        encoding,
        ":"@,
        shown,
    );
    let one = one + " payload="@ + encoding + ":"@ + shown;
    let other_one = other_one + " payload="@ + encoding + ":"@ + shown;
    lemma_differ_then(one, other_one, " digest="@, record.digest, other.digest, "\n"@);
}

/// Two JSON lines of records that differ in one thing alone differ only under its key.
pub proof fn law_json_lines_name_what_they_show(record: RecordLineView, other: RecordLineView)
    ensures
        differ_behind(
            record_line(record, OutputFormat::Jsonl),
            record_line(RecordLineView { canon: other.canon, ..record }, OutputFormat::Jsonl),
            ",\"canon\":"@,
            json_string(record.canon),
            json_string(other.canon),
        ),
        differ_behind(
            record_line(record, OutputFormat::Jsonl),
            record_line(RecordLineView { digest: other.digest, ..record }, OutputFormat::Jsonl),
            ",\"digest\":"@,
            json_string(record.digest),
            json_string(other.digest),
        ),
        differ_behind(
            record_line(record, OutputFormat::Jsonl),
            record_line(RecordLineView { entry: other.entry, ..record }, OutputFormat::Jsonl),
            ",\"entry\":"@,
            decimal(record.entry as nat),
            decimal(other.entry as nat),
        ),
        differ_behind(
            record_line(record, OutputFormat::Jsonl),
            record_line(
                RecordLineView { record_offset: other.record_offset, ..record },
                OutputFormat::Jsonl,
            ),
            ",\"record_offset\":"@,
            decimal(record.record_offset as nat),
            decimal(other.record_offset as nat),
        ),
        differ_behind(
            record_line(record, OutputFormat::Jsonl),
            record_line(RecordLineView { verse: other.verse, ..record }, OutputFormat::Jsonl),
            ",\"verse\":"@,
            json_string(record.verse),
            json_string(other.verse),
        ),
{
    let (encoding, shown) = rendered(record.payload);
    lemma_differ_here(
        "{\"bytes\":"@ + decimal(record.payload.len()),
        ",\"canon\":"@,
        json_string(record.canon),
        json_string(other.canon),
    );
    let one = "{\"bytes\":"@ + decimal(record.payload.len()) + ",\"canon\":"@
        + json_string(record.canon);
    let other_one = "{\"bytes\":"@ + decimal(record.payload.len()) + ",\"canon\":"@
        + json_string(other.canon);
    lemma_differ_then_four(
        one,
        other_one,
        ",\"canon\":"@,
        json_string(record.canon),
        json_string(other.canon),
        ",\"digest\":"@,
        json_string(record.digest),
        ",\"entry\":"@,
        decimal(record.entry as nat),
    );
    let one = one + ",\"digest\":"@ + json_string(record.digest) + ",\"entry\":"@
        + decimal(record.entry as nat);
    let other_one = other_one + ",\"digest\":"@ + json_string(record.digest) + ",\"entry\":"@
        + decimal(record.entry as nat);
    lemma_differ_then_four(
        one,
        other_one,
        ",\"canon\":"@,
        json_string(record.canon),
        json_string(other.canon),
        ",\"payload\":"@,
        json_string(shown),
        ",\"payload_encoding\":"@,
        json_string(encoding),
    );
    let one = one + ",\"payload\":"@ + json_string(shown) + ",\"payload_encoding\":"@
        + json_string(encoding);
    let other_one = other_one + ",\"payload\":"@ + json_string(shown) + ",\"payload_encoding\":"@
        + json_string(encoding);
    lemma_differ_then_four(
        one,
        other_one,
        ",\"canon\":"@,
        json_string(record.canon),
        json_string(other.canon),
        ",\"record_offset\":"@,
        decimal(record.record_offset as nat),
        ",\"verse\":"@,
        json_string(record.verse),
    );
    let one = one + ",\"record_offset\":"@ + decimal(record.record_offset as nat) + ",\"verse\":"@
        + json_string(record.verse);
    let other_one = other_one + ",\"record_offset\":"@ + decimal(record.record_offset as nat)
        + ",\"verse\":"@ + json_string(record.verse);
    lemma_differ_then(
        one,
        other_one,
        ",\"canon\":"@,
        json_string(record.canon),
        json_string(other.canon),
        "}\n"@,
    );
    lemma_differ_here(
        "{\"bytes\":"@ + decimal(record.payload.len()) + ",\"canon\":"@ + json_string(record.canon),
        ",\"digest\":"@,
        json_string(record.digest),
        json_string(other.digest),
    );
    let one = "{\"bytes\":"@ + decimal(record.payload.len()) + ",\"canon\":"@
        + json_string(record.canon) + ",\"digest\":"@ + json_string(record.digest);
    let other_one = "{\"bytes\":"@ + decimal(record.payload.len()) + ",\"canon\":"@
        + json_string(record.canon) + ",\"digest\":"@ + json_string(other.digest);
    lemma_differ_then_four(
        one,
        other_one,
        ",\"digest\":"@,
        json_string(record.digest),
        json_string(other.digest),
        ",\"entry\":"@,
        decimal(record.entry as nat),
        ",\"payload\":"@,
        json_string(shown),
    );
    let one = one + ",\"entry\":"@ + decimal(record.entry as nat) + ",\"payload\":"@
        + json_string(shown);
    let other_one = other_one + ",\"entry\":"@ + decimal(record.entry as nat) + ",\"payload\":"@
        + json_string(shown);
    lemma_differ_then_four(
        one,
        other_one,
        ",\"digest\":"@,
        json_string(record.digest),
        json_string(other.digest),
        ",\"payload_encoding\":"@,
        json_string(encoding),
        ",\"record_offset\":"@,
        decimal(record.record_offset as nat),
    );
    let one = one + ",\"payload_encoding\":"@ + json_string(encoding) + ",\"record_offset\":"@
        + decimal(record.record_offset as nat);
    let other_one = other_one + ",\"payload_encoding\":"@ + json_string(encoding)
        + ",\"record_offset\":"@ + decimal(record.record_offset as nat);
    lemma_differ_then_two(
        one,
        other_one,
        ",\"digest\":"@,
        json_string(record.digest),
        json_string(other.digest),
        ",\"verse\":"@,
        json_string(record.verse),
    );
    let one = one + ",\"verse\":"@ + json_string(record.verse);
    let other_one = other_one + ",\"verse\":"@ + json_string(record.verse);
    lemma_differ_then(
        one,
        other_one,
        ",\"digest\":"@,
        json_string(record.digest),
        json_string(other.digest),
        "}\n"@,
    );
    lemma_differ_here(
        "{\"bytes\":"@ + decimal(record.payload.len()) + ",\"canon\":"@
            + json_string(record.canon) + ",\"digest\":"@ + json_string(record.digest),
        ",\"entry\":"@,
        decimal(record.entry as nat),
        decimal(other.entry as nat),
    );
    let one = "{\"bytes\":"@ + decimal(record.payload.len()) + ",\"canon\":"@
        + json_string(record.canon) + ",\"digest\":"@ + json_string(record.digest)
        + ",\"entry\":"@ + decimal(record.entry as nat);
    let other_one = "{\"bytes\":"@ + decimal(record.payload.len()) + ",\"canon\":"@
        + json_string(record.canon) + ",\"digest\":"@ + json_string(record.digest)
        + ",\"entry\":"@ + decimal(other.entry as nat);
    lemma_differ_then_four(
        one,
        other_one,
        ",\"entry\":"@,
        decimal(record.entry as nat),
        decimal(other.entry as nat),
        ",\"payload\":"@,
        json_string(shown),
        ",\"payload_encoding\":"@,
        json_string(encoding),
    );
    let one = one + ",\"payload\":"@ + json_string(shown) + ",\"payload_encoding\":"@
        + json_string(encoding);
    let other_one = other_one + ",\"payload\":"@ + json_string(shown) + ",\"payload_encoding\":"@
        + json_string(encoding);
    lemma_differ_then_four(
        one,
        other_one,
        ",\"entry\":"@,
        decimal(record.entry as nat),
        decimal(other.entry as nat),
        ",\"record_offset\":"@,
        decimal(record.record_offset as nat),
        ",\"verse\":"@,
        json_string(record.verse),
    );
    let one = one + ",\"record_offset\":"@ + decimal(record.record_offset as nat) + ",\"verse\":"@
        + json_string(record.verse);
    let other_one = other_one + ",\"record_offset\":"@ + decimal(record.record_offset as nat)
        + ",\"verse\":"@ + json_string(record.verse);
    lemma_differ_then(
        one,
        other_one,
        ",\"entry\":"@,
        decimal(record.entry as nat),
        decimal(other.entry as nat),
        "}\n"@,
    );
    lemma_differ_here(
        "{\"bytes\":"@ + decimal(record.payload.len()) + ",\"canon\":"@
            + json_string(record.canon) + ",\"digest\":"@ + json_string(record.digest)
            + ",\"entry\":"@ + decimal(record.entry as nat) + ",\"payload\":"@
            + json_string(shown) + ",\"payload_encoding\":"@ + json_string(encoding),
        ",\"record_offset\":"@,
        decimal(record.record_offset as nat),
        decimal(other.record_offset as nat),
    );
    let one = "{\"bytes\":"@ + decimal(record.payload.len()) + ",\"canon\":"@
        + json_string(record.canon) + ",\"digest\":"@ + json_string(record.digest)
        + ",\"entry\":"@ + decimal(record.entry as nat) + ",\"payload\":"@ + json_string(shown)
        + ",\"payload_encoding\":"@ + json_string(encoding) + ",\"record_offset\":"@
        + decimal(record.record_offset as nat);
    let other_one = "{\"bytes\":"@ + decimal(record.payload.len()) + ",\"canon\":"@
        + json_string(record.canon) + ",\"digest\":"@ + json_string(record.digest)
        + ",\"entry\":"@ + decimal(record.entry as nat) + ",\"payload\":"@ + json_string(shown)
        + ",\"payload_encoding\":"@ + json_string(encoding) + ",\"record_offset\":"@
        + decimal(other.record_offset as nat);
    lemma_differ_then_two(
        one,
        other_one,
        ",\"record_offset\":"@,
        decimal(record.record_offset as nat),
        decimal(other.record_offset as nat),
        ",\"verse\":"@,
        json_string(record.verse),
    );
    let one = one + ",\"verse\":"@ + json_string(record.verse);
    let other_one = other_one + ",\"verse\":"@ + json_string(record.verse);
    lemma_differ_then(
        one,
        other_one,
        ",\"record_offset\":"@,
        decimal(record.record_offset as nat),
        decimal(other.record_offset as nat),
        "}\n"@,
    );
    lemma_differ_here(
        "{\"bytes\":"@ + decimal(record.payload.len()) + ",\"canon\":"@
            + json_string(record.canon) + ",\"digest\":"@ + json_string(record.digest)
            + ",\"entry\":"@ + decimal(record.entry as nat) + ",\"payload\":"@
            + json_string(shown) + ",\"payload_encoding\":"@ + json_string(encoding)
            + ",\"record_offset\":"@ + decimal(record.record_offset as nat),
        ",\"verse\":"@,
        json_string(record.verse),
        json_string(other.verse),
    );
    let one = "{\"bytes\":"@ + decimal(record.payload.len()) + ",\"canon\":"@
        + json_string(record.canon) + ",\"digest\":"@ + json_string(record.digest)
        + ",\"entry\":"@ + decimal(record.entry as nat) + ",\"payload\":"@ + json_string(shown)
        + ",\"payload_encoding\":"@ + json_string(encoding) + ",\"record_offset\":"@
        + decimal(record.record_offset as nat) + ",\"verse\":"@ + json_string(record.verse);
    let other_one = "{\"bytes\":"@ + decimal(record.payload.len()) + ",\"canon\":"@
        + json_string(record.canon) + ",\"digest\":"@ + json_string(record.digest)
        + ",\"entry\":"@ + decimal(record.entry as nat) + ",\"payload\":"@ + json_string(shown)
        + ",\"payload_encoding\":"@ + json_string(encoding) + ",\"record_offset\":"@
        + decimal(record.record_offset as nat) + ",\"verse\":"@ + json_string(other.verse);
    lemma_differ_then(
        one,
        other_one,
        ",\"verse\":"@,
        json_string(record.verse),
        json_string(other.verse),
        "}\n"@,
    );
}

/// A text line ends with its payload, behind the way in which it is shown.
pub proof fn law_text_lines_end_with_their_payload(record: RecordLineView)
    ensures
        ({
            let line = record_line(record, OutputFormat::Text);
            let (encoding, shown) = rendered(record.payload);
            exists|head: Seq<char>| #[trigger]
                (head + (" payload="@ + encoding + ":"@ + shown + "\n"@)) == line
        }),
{
    let line = record_line(record, OutputFormat::Text);
    let (encoding, shown) = rendered(record.payload);
    let head = "canon="@ + record.canon + " verse="@ + record.verse + " entry="@ + decimal(
        record.entry as nat,
    ) + " record="@ + decimal(record.record_offset as nat) + " bytes="@ + decimal(
        record.payload.len(),
    ) + " digest="@ + record.digest;
    assert(head + (" payload="@ + encoding + ":"@ + shown + "\n"@) =~= line);
}

proof fn lemma_plain_is_escaped_as_it_is(text: Seq<char>)
    requires
        forall|i: int|
            0 <= i < text.len() ==> 0x20 <= (#[trigger] text[i]) as u32 <= 0x7e && text[i] != '"'
                && text[i] != '\\',
    ensures
        escaped(text) == text,
    decreases text.len(),
{
    if text.len() > 0 {
        let before = text.drop_last();
        assert forall|i: int| 0 <= i < before.len() implies 0x20 <= (#[trigger] before[i]) as u32
            <= 0x7e && before[i] != '"' && before[i] != '\\' by {
            assert(before[i] == text[i]);
        }
        lemma_plain_is_escaped_as_it_is(before);
        assert(text.last() == text[text.len() - 1]);
        assert(escaped(text) =~= text);
    }
}

/// A payload of printable ASCII without quotes and backslashes is shown as it is, as text.
pub proof fn law_plain_payloads_are_shown_as_they_are(text: Seq<char>)
    requires
        forall|i: int|
            0 <= i < text.len() ==> 0x20 <= (#[trigger] text[i]) as u32 <= 0x7e && text[i] != '"'
                && text[i] != '\\',
    ensures
        rendered(encode_utf8(text)) == ("text"@, text),
{
    lemma_plain_is_escaped_as_it_is(text);
    vstd::utf8::encode_utf8_valid_utf8(text);
    vstd::utf8::encode_utf8_decode_utf8(text);
    assert(is_showable(text)) by {
        assert forall|i: int| 0 <= i < text.len() implies text[i] == '\t' || !is_control(
            #[trigger] text[i],
        ) by {}
    }
}

/// A payload that is no UTF-8 is shown as hex, and so is one with a control other than the tab.
pub proof fn law_other_payloads_are_shown_as_hex(payload: Seq<u8>)
    requires
        !valid_utf8(payload) || exists|i: int|
            0 <= i < decode_utf8(payload).len() && #[trigger] decode_utf8(payload)[i] != '\t' && (
            (decode_utf8(payload)[i] as u32) < 0x20 || 0x7f <= decode_utf8(payload)[i] as u32
                <= 0x9f),
    ensures
        rendered(payload) == ("hex"@, hex(payload)),
{
    if valid_utf8(payload) {
        let text = decode_utf8(payload);
        let i = choose|i: int|
            0 <= i < text.len() && #[trigger] text[i] != '\t' && ((text[i] as u32) < 0x20 || 0x7f
                <= text[i] as u32 <= 0x9f);
        assert(is_control(text[i]));
        assert(!is_showable(text));
    }
}

/// Escaping goes character by character: backslash, quote and tab take a backslash before them.
pub proof fn law_escaping_goes_character_by_character(text: Seq<char>)
    ensures
        escaped(text.push('\\')) == escaped(text) + seq!['\\', '\\'],
        escaped(text.push('"')) == escaped(text) + seq!['\\', '"'],
        escaped(text.push('\t')) == escaped(text) + seq!['\\', 't'],
        escaped(text.push('x')) == escaped(text).push('x'),
{
    reveal_strlit("\\\\");
    reveal_strlit("\\\"");
    reveal_strlit("\\t");
    assert(text.push('\\').drop_last() =~= text);
    assert(text.push('"').drop_last() =~= text);
    assert(text.push('\t').drop_last() =~= text);
    assert(text.push('x').drop_last() =~= text);
    assert(escaped_char('\\') =~= seq!['\\', '\\']);
    assert(escaped_char('"') =~= seq!['\\', '"']);
    assert(escaped_char('\t') =~= seq!['\\', 't']);
    assert(escaped_char('x') =~= seq!['x']);
    assert(escaped(text.push('x')) =~= escaped(text).push('x'));
}

/// Any other character is shown as it is, but for the controls: those are shown by their bytes,
/// each of them as a backslash, an `x` and two hexadecimal digits.
pub proof fn law_controls_are_shown_by_their_bytes(text: Seq<char>, c: char, bytes: Seq<u8>, byte: u8)
    requires
        c != '\\' && c != '"' && c != '\t',
    ensures
        c as u32 <= 0x1f || 0x7f <= c as u32 <= 0x9f ==> escaped(text.push(c)) == escaped(text)
            + escaped_bytes(encode_utf8(seq![c])),
        !(c as u32 <= 0x1f || 0x7f <= c as u32 <= 0x9f) ==> escaped(text.push(c)) == escaped(
            text,
        ).push(c),
        escaped_bytes(bytes.push(byte)) == escaped_bytes(bytes) + seq!['\\', 'x'] + hex(seq![byte]),
        escaped_bytes(Seq::empty()).len() == 0,
{
    reveal_strlit("\\x");
    assert(text.push(c).drop_last() =~= text);
    assert(escaped(text) + seq![c] =~= escaped(text).push(c));
    assert(bytes.push(byte).drop_last() =~= bytes);
    assert("\\x"@ =~= seq!['\\', 'x']);
    assert(escaped_bytes(bytes.push(byte)) =~= escaped_bytes(bytes) + seq!['\\', 'x'] + hex(
        seq![byte],
    ));
}

/// A JSON string stands between quotes and goes character by character: quote and backslash take
/// a backslash before them, the controls below the space are escaped by a letter or by their
/// number, and every other character is written as it is.
pub proof fn law_json_strings_go_character_by_character(text: Seq<char>, c: char)
    ensures
        json_string(text) == seq!['"'] + json_chars(text) + seq!['"'],
        json_chars(Seq::empty()).len() == 0,
        json_chars(text.push('"')) == json_chars(text) + seq!['\\', '"'],
        json_chars(text.push('\\')) == json_chars(text) + seq!['\\', '\\'],
        json_chars(text.push('\n')) == json_chars(text) + seq!['\\', 'n'],
        json_chars(text.push('\r')) == json_chars(text) + seq!['\\', 'r'],
        json_chars(text.push('\t')) == json_chars(text) + seq!['\\', 't'],
        json_chars(text.push('\u{8}')) == json_chars(text) + seq!['\\', 'b'],
        json_chars(text.push('\u{c}')) == json_chars(text) + seq!['\\', 'f'],
        c >= ' ' && c != '"' && c != '\\' ==> json_chars(text.push(c)) == json_chars(text).push(c),
        c < ' ' && c != '\n' && c != '\r' && c != '\t' && c != '\u{8}' && c != '\u{c}' ==> json_chars(
            text.push(c),
        ) == json_chars(text) + seq!['\\', 'u', '0', '0'] + hex(seq![c as u8]),
{
    reveal_strlit("\"");
    reveal_strlit("\\\"");
    reveal_strlit("\\\\");
    reveal_strlit("\\n");
    reveal_strlit("\\r");
    reveal_strlit("\\t");
    reveal_strlit("\\b");
    reveal_strlit("\\f");
    reveal_strlit("\\u00");
    assert("\""@ =~= seq!['"']);
    assert("\\u00"@ =~= seq!['\\', 'u', '0', '0']);
    assert(text.push('"').drop_last() =~= text);
    assert(text.push('\\').drop_last() =~= text);
    assert(text.push('\n').drop_last() =~= text);
    assert(text.push('\r').drop_last() =~= text);
    assert(text.push('\t').drop_last() =~= text);
    assert(text.push('\u{8}').drop_last() =~= text);
    assert(text.push('\u{c}').drop_last() =~= text);
    assert(text.push(c).drop_last() =~= text);
    assert(json_char('"') =~= seq!['\\', '"']);
    assert(json_char('\\') =~= seq!['\\', '\\']);
    assert(json_char('\n') =~= seq!['\\', 'n']);
    assert(json_char('\r') =~= seq!['\\', 'r']);
    assert(json_char('\t') =~= seq!['\\', 't']);
    assert(json_char('\u{8}') =~= seq!['\\', 'b']);
    assert(json_char('\u{c}') =~= seq!['\\', 'f']);
    assert(json_chars(text) + seq![c] =~= json_chars(text).push(c));
    assert(json_chars(text) + ("\\u00"@ + hex(seq![c as u8])) =~= json_chars(text) + "\\u00"@ + hex(
        seq![c as u8],
    ));
}

/// Two summaries that differ in one counter alone differ only behind its name.
pub proof fn law_summaries_name_their_counters(summary: ConsumeSummary, other: ConsumeSummary)
    ensures
        differ_behind(
            summary_words(summary),
            summary_words(ConsumeSummary { entries_scanned: other.entries_scanned, ..summary }),
            "scripture consume: entries_scanned="@,
            decimal(summary.entries_scanned as nat),
            decimal(other.entries_scanned as nat),
        ),
        differ_behind(
            summary_words(summary),
            summary_words(ConsumeSummary { records_printed: other.records_printed, ..summary }),
            " records_printed="@,
            decimal(summary.records_printed as nat),
            decimal(other.records_printed as nat),
        ),
        differ_behind(
            summary_words(summary),
            summary_words(ConsumeSummary { final_cursor: other.final_cursor, ..summary }),
            " final_cursor="@,
            decimal(summary.final_cursor as nat),
            decimal(other.final_cursor as nat),
        ),
        differ_behind(
            summary_words(summary),
            summary_words(ConsumeSummary { elapsed_ms: other.elapsed_ms, ..summary }),
            " elapsed_ms="@,
            decimal(summary.elapsed_ms as nat),
            decimal(other.elapsed_ms as nat),
        ),
{
    let changed = if summary.membership_change {
        "yes"@
    } else {
        "no"@
    };
    lemma_differ_first(
        "scripture consume: entries_scanned="@,
        decimal(summary.entries_scanned as nat),
        decimal(other.entries_scanned as nat),
    );
    let one = "scripture consume: entries_scanned="@ + decimal(summary.entries_scanned as nat);
    let other_one = "scripture consume: entries_scanned="@ + decimal(other.entries_scanned as nat);
    lemma_differ_then_four(
        one,
        other_one,
        "scripture consume: entries_scanned="@,
        decimal(summary.entries_scanned as nat),
        decimal(other.entries_scanned as nat),
        " records_printed="@,
        decimal(summary.records_printed as nat),
        " final_cursor="@,
        decimal(summary.final_cursor as nat),
    );
    let one = one + " records_printed="@ + decimal(summary.records_printed as nat)
        + " final_cursor="@ + decimal(summary.final_cursor as nat);
    let other_one = other_one + " records_printed="@ + decimal(summary.records_printed as nat)
        + " final_cursor="@ + decimal(summary.final_cursor as nat);
    lemma_differ_then_four(
        one,
        other_one,
        "scripture consume: entries_scanned="@,
        decimal(summary.entries_scanned as nat),
        decimal(other.entries_scanned as nat),
        " elapsed_ms="@,
        decimal(summary.elapsed_ms as nat),
        " membership_change="@,
        changed,
    );
    let one = one + " elapsed_ms="@ + decimal(summary.elapsed_ms as nat) + " membership_change="@
        + changed;
    let other_one = other_one + " elapsed_ms="@ + decimal(summary.elapsed_ms as nat)
        + " membership_change="@ + changed;
    lemma_differ_then(
        one,
        other_one,
        "scripture consume: entries_scanned="@,
        decimal(summary.entries_scanned as nat),
        decimal(other.entries_scanned as nat),
        "\n"@,
    );
    lemma_differ_here(
        "scripture consume: entries_scanned="@ + decimal(summary.entries_scanned as nat),
        " records_printed="@,
        decimal(summary.records_printed as nat),
        decimal(other.records_printed as nat),
    );
    let one = "scripture consume: entries_scanned="@ + decimal(summary.entries_scanned as nat)
        + " records_printed="@ + decimal(summary.records_printed as nat);
    let other_one = "scripture consume: entries_scanned="@
        + decimal(summary.entries_scanned as nat) + " records_printed="@
        + decimal(other.records_printed as nat);
    lemma_differ_then_four(
        one,
        other_one,
        " records_printed="@,
        decimal(summary.records_printed as nat),
        decimal(other.records_printed as nat),
        " final_cursor="@,
        decimal(summary.final_cursor as nat),
        " elapsed_ms="@,
        decimal(summary.elapsed_ms as nat),
    );
    let one = one + " final_cursor="@ + decimal(summary.final_cursor as nat) + " elapsed_ms="@
        + decimal(summary.elapsed_ms as nat);
    let other_one = other_one + " final_cursor="@ + decimal(summary.final_cursor as nat)
        + " elapsed_ms="@ + decimal(summary.elapsed_ms as nat);
    lemma_differ_then_two(
        one,
        other_one,
        " records_printed="@,
        decimal(summary.records_printed as nat),
        decimal(other.records_printed as nat),
        " membership_change="@,
        changed,
    );
    let one = one + " membership_change="@ + changed;
    let other_one = other_one + " membership_change="@ + changed;
    lemma_differ_then(
        one,
        other_one,
        " records_printed="@,
        decimal(summary.records_printed as nat),
        decimal(other.records_printed as nat),
        "\n"@,
    );
    lemma_differ_here(
        "scripture consume: entries_scanned="@ + decimal(summary.entries_scanned as nat)
            + " records_printed="@ + decimal(summary.records_printed as nat),
        " final_cursor="@,
        decimal(summary.final_cursor as nat),
        decimal(other.final_cursor as nat),
    );
    let one = "scripture consume: entries_scanned="@ + decimal(summary.entries_scanned as nat)
        + " records_printed="@ + decimal(summary.records_printed as nat) + " final_cursor="@
        + decimal(summary.final_cursor as nat);
    let other_one = "scripture consume: entries_scanned="@
        + decimal(summary.entries_scanned as nat) + " records_printed="@
        + decimal(summary.records_printed as nat) + " final_cursor="@
        + decimal(other.final_cursor as nat);
    lemma_differ_then_four(
        one,
        other_one,
        " final_cursor="@,
        decimal(summary.final_cursor as nat),
        decimal(other.final_cursor as nat),
        " elapsed_ms="@,
        decimal(summary.elapsed_ms as nat),
        " membership_change="@,
        changed,
    );
    let one = one + " elapsed_ms="@ + decimal(summary.elapsed_ms as nat) + " membership_change="@
        + changed;
    let other_one = other_one + " elapsed_ms="@ + decimal(summary.elapsed_ms as nat)
        + " membership_change="@ + changed;
    lemma_differ_then(
        one,
        other_one,
        " final_cursor="@,
        decimal(summary.final_cursor as nat),
        decimal(other.final_cursor as nat),
        "\n"@,
    );
    lemma_differ_here(
        "scripture consume: entries_scanned="@ + decimal(summary.entries_scanned as nat)
            + " records_printed="@ + decimal(summary.records_printed as nat) + " final_cursor="@
            + decimal(summary.final_cursor as nat),
        " elapsed_ms="@,
        decimal(summary.elapsed_ms as nat),
        decimal(other.elapsed_ms as nat),
    );
    let one = "scripture consume: entries_scanned="@ + decimal(summary.entries_scanned as nat)
        + " records_printed="@ + decimal(summary.records_printed as nat) + " final_cursor="@
        + decimal(summary.final_cursor as nat) + " elapsed_ms="@
        + decimal(summary.elapsed_ms as nat);
    let other_one = "scripture consume: entries_scanned="@
        + decimal(summary.entries_scanned as nat) + " records_printed="@
        + decimal(summary.records_printed as nat) + " final_cursor="@
        + decimal(summary.final_cursor as nat) + " elapsed_ms="@
        + decimal(other.elapsed_ms as nat);
    lemma_differ_then_two(
        one,
        other_one,
        " elapsed_ms="@,
        decimal(summary.elapsed_ms as nat),
        decimal(other.elapsed_ms as nat),
        " membership_change="@,
        changed,
    );
    let one = one + " membership_change="@ + changed;
    let other_one = other_one + " membership_change="@ + changed;
    lemma_differ_then(
        one,
        other_one,
        " elapsed_ms="@,
        decimal(summary.elapsed_ms as nat),
        decimal(other.elapsed_ms as nat),
        "\n"@,
    );
}

/// A summary says whether the membership changed, and nothing else goes by that.
pub proof fn law_summaries_say_whether_the_membership_changed(summary: ConsumeSummary)
    ensures
        differ_behind(
            summary_words(ConsumeSummary { membership_change: true, ..summary }),
            summary_words(ConsumeSummary { membership_change: false, ..summary }),
            " membership_change="@,
            "yes"@,
            "no"@,
        ),
{
    let head = "scripture consume: entries_scanned="@ + decimal(summary.entries_scanned as nat)
        + " records_printed="@ + decimal(summary.records_printed as nat) + " final_cursor="@
        + decimal(summary.final_cursor as nat) + " elapsed_ms="@ + decimal(
        summary.elapsed_ms as nat,
    );
    let label = " membership_change="@;
    lemma_differ_here(head, label, "yes"@, "no"@);
    lemma_differ_then(
        head + label + "yes"@,
        head + label + "no"@,
        label,
        "yes"@,
        "no"@,
        "\n"@,
    );
}

/// The assignment that is found is the first of that Canon and that Verse; none is found only
/// where there is none.
pub proof fn law_the_first_assignment_is_found(
    assignments: Seq<AssignmentView>,
    canon: Seq<char>,
    verse: Seq<char>,
)
    ensures
        ({
            let at = assignment_index(assignments, canon, verse) as int;
            &&& at <= assignments.len()
            &&& at < assignments.len() ==> assignments[at].canon == canon && assignments[at].verse
                == verse
            &&& forall|i: int|
                0 <= i < at ==> (#[trigger] assignments[i]).canon != canon || assignments[i].verse
                    != verse
        }),
    decreases assignments.len(),
{
    if assignments.len() > 0 && !(assignments[0].canon == canon && assignments[0].verse == verse) {
        let rest = assignments.skip(1);
        law_the_first_assignment_is_found(rest, canon, verse);
        let at = assignment_index(assignments, canon, verse) as int;
        assert forall|i: int| 0 <= i < at implies (#[trigger] assignments[i]).canon != canon
            || assignments[i].verse != verse by {
            if i > 0 {
                assert(rest[i - 1] == assignments[i]);
            }
        }
        if at < assignments.len() {
            assert(rest[at - 1] == assignments[at]);
        }
    }
}

/// A frame adds its payloads in order, numbered from its base one by one.
pub proof fn law_frames_number_their_records(
    frames: Seq<FrameRecords>,
    frame: FrameRecords,
    at: int,
)
    requires
        0 <= at < frame.payloads@.len(),
        frame.base_offset + frame.payloads@.len() <= u64::MAX,
    ensures
        ({
            let before = entry_listing(frames);
            let after = entry_listing(frames.push(frame));
            &&& after.len() == before.len() + frame.payloads@.len()
            &&& after.take(before.len() as int) == before
            &&& after[before.len() + at].offset == frame.base_offset + at
            &&& after[before.len() + at].payload == frame.payloads@[at]@
        }),
{
    assert(frames.push(frame).drop_last() =~= frames);
    let before = entry_listing(frames);
    assert(entry_listing(frames.push(frame)).take(before.len() as int) =~= before);
}

/// Where the base and the index are no offset together, the position in the entry stands in.
pub proof fn law_offsets_beyond_all_numbers_count_in_the_entry(
    base: u64,
    index: int,
    in_entry: u64,
)
    requires
        0 <= index,
    ensures
        base + index <= u64::MAX ==> record_offset(base, index, in_entry as int) == base + index,
        base + index > u64::MAX ==> record_offset(base, index, in_entry as int) == in_entry,
{
}

/// The room shrinks by what is printed, and is never less than none.
pub proof fn law_room_shrinks_by_what_is_printed(limit: u64, printed: u64, more: u64)
    requires
        printed + more <= limit,
    ensures
        room(Some(limit), printed) == Some(limit - printed),
        room(Some(limit), (printed + more) as u64)->0 + more == room(Some(limit), printed)->0,
        room(Some(limit), limit) == Some(0int),
        room(None, printed) is None,
{
}

/// A capped sum is the sum, or the largest number where the sum is beyond.
pub proof fn law_capped_sums(value: int)
    requires
        0 <= value,
    ensures
        value <= u64::MAX ==> capped(value) == value,
        value > u64::MAX ==> capped(value) == 0xffff_ffff_ffff_ffff,
{
}

/// The last generation decides where a chain ends, whatever stood before it.
pub proof fn law_the_last_generation_ends_the_chain(
    generations: Seq<(u64, u64)>,
    start: u64,
    tail: u64,
)
    ensures
        start + tail <= u64::MAX ==> chain_end(generations.push((start, tail))) == start + tail,
        start + tail > u64::MAX ==> chain_end(generations.push((start, tail))) == u64::MAX,
        chain_end(Seq::empty()) == 0,
{
}

/// A run starts where it was told to, having done nothing, and is refused only for following for
/// no time at all.
pub proof fn law_runs_start_where_they_are_told(
    options: ConsumeOptions,
    begun: Result<ConsumeRun, String>,
)
    requires
        call_ensures(ConsumeRun::begin, (&options,), begun),
    ensures
        begun is Err <==> !options.no_follow && options.seconds == 0,
        begun matches Ok(run) ==> run.cursor == options.from && run.records_printed == 0
            && run.entries_scanned == 0 && run.membership is None && !run.membership_change,
{
}

/// A run goes on while fewer records than asked for are printed and, where it follows, there is
/// time; it reads while there is an entry before the observed end.
pub proof fn law_runs_go_on_while_there_is_more(
    run: ConsumeRun,
    options: ConsumeOptions,
    late: bool,
    end: u64,
    observes: bool,
    reads: bool,
    next: PassEnd,
)
    requires
        call_ensures(ConsumeRun::observes, (&run, &options, late), observes),
        call_ensures(ConsumeRun::reads, (&run, &options, end), reads),
        call_ensures(ConsumeRun::end_pass, (&run, &options), next),
    ensures
        ({
            let enough = options.until_records is Some && run.records_printed
                >= options.until_records->0;
            &&& observes <==> !enough && !(late && !options.no_follow)
            &&& reads <==> !enough && run.cursor < end
            &&& next is Stop <==> options.no_follow
            &&& next is Wait <==> !options.no_follow && !run.advanced
        }),
{
}

/// An entry that is read moves the cursor behind it and counts once; its records are counted as
/// they are printed, and what was observed of the membership stays.
pub proof fn law_entries_are_taken_once(
    run: &mut ConsumeRun,
    options: ConsumeOptions,
    position: u64,
    frames: Vec<FrameRecords>,
    records: Vec<PrintedRecord>,
)
    requires
        call_ensures(ConsumeRun::take_entry, (run, &options, position, &frames), records),
        position < u64::MAX,
        old(run).entries_scanned < u64::MAX,
        old(run).records_printed + records@.len() <= u64::MAX,
    ensures
        final(run).cursor == position + 1,
        final(run).entries_scanned == old(run).entries_scanned + 1,
        final(run).records_printed == old(run).records_printed + records@.len(),
        final(run).advanced <==> old(run).advanced || records@.len() > 0,
        final(run).membership == old(run).membership,
        final(run).membership_change == old(run).membership_change,
        options.until_records is None ==> records@.len() == entry_listing(frames@).len(),
        options.until_records matches Some(limit) ==> (old(run).records_printed <= limit
            ==> final(run).records_printed <= limit),
        forall|i: int|
            0 <= i < records@.len() ==> (#[trigger] records@[i]).offset == entry_listing(
                frames@,
            )[i].offset && records@[i].payload@ == entry_listing(frames@)[i].payload,
{
    let shown = printed_view(records@);
    assert(shown.len() == records@.len());
    assert forall|i: int| 0 <= i < records@.len() implies (#[trigger] records@[i]).offset
        == entry_listing(frames@)[i].offset && records@[i].payload@ == entry_listing(
        frames@,
    )[i].payload by {
        assert(shown[i] == records@[i]@);
    }
}

/// An observation marks a change exactly where one was marked before, there is more than one
/// generation, or the generations are not those of the last observation.
pub proof fn law_changes_of_membership_are_marked(
    run: &mut ConsumeRun,
    generations: Vec<String>,
)
    requires
        call_ensures(ConsumeRun::observed, (run, generations), ()),
    ensures
        generations@.len() > 1 ==> final(run).membership_change,
        old(run).membership_change ==> final(run).membership_change,
        old(run).membership is None && !old(run).membership_change && generations@.len() <= 1
            ==> !final(run).membership_change,
        old(run).membership matches Some(known) ==> (known@.len() != generations@.len()
            ==> final(run).membership_change),
        old(run).membership matches Some(known) ==> (known@ == generations@
            && !old(run).membership_change && generations@.len() <= 1
            ==> !final(run).membership_change),
        final(run).cursor == old(run).cursor,
        final(run).records_printed == old(run).records_printed,
        !final(run).advanced,
{
    if let Some(known) = old(run).membership {
        assert(crate::consume::names_view(known@).len() == known@.len());
        assert(crate::consume::names_view(generations@).len() == generations@.len());
    }
}

/// A summary gives the run's own counts.
pub proof fn law_summaries_give_the_counts(
    run: ConsumeRun,
    elapsed_ms: u64,
    summary: ConsumeSummary,
)
    requires
        call_ensures(ConsumeRun::summary, (&run, elapsed_ms), summary),
    ensures
        summary.entries_scanned == run.entries_scanned,
        summary.records_printed == run.records_printed,
        summary.final_cursor == run.cursor,
        summary.elapsed_ms == elapsed_ms,
        summary.membership_change == run.membership_change,
{
}

/// A printed record stands at its entry and at its offset in it, in the run's own format, with
/// its own payload.
pub proof fn law_records_are_printed_at_their_place(
    options: ConsumeOptions,
    entry: u64,
    other_entry: u64,
    offset: u64,
    other_offset: u64,
    payload: &[u8],
    digest: &str,
    line: String,
    by_entry: String,
    by_offset: String,
)
    requires
        call_ensures(print_record, (&options, entry, offset, payload, digest), line),
        call_ensures(print_record, (&options, other_entry, offset, payload, digest), by_entry),
        call_ensures(print_record, (&options, entry, other_offset, payload, digest), by_offset),
    ensures
        options.format == OutputFormat::Text ==> differ_behind(
            line@,
            by_entry@,
            " entry="@,
            decimal(entry as nat),
            decimal(other_entry as nat),
        ),
        options.format == OutputFormat::Text ==> differ_behind(
            line@,
            by_offset@,
            " record="@,
            decimal(offset as nat),
            decimal(other_offset as nat),
        ),
        options.format == OutputFormat::Jsonl ==> differ_behind(
            line@,
            by_entry@,
            ",\"entry\":"@,
            decimal(entry as nat),
            decimal(other_entry as nat),
        ),
        options.format == OutputFormat::Jsonl ==> differ_behind(
            line@,
            by_offset@,
            ",\"record_offset\":"@,
            decimal(offset as nat),
            decimal(other_offset as nat),
        ),
{
    let record = RecordLineView {
        canon: options.canon@,
        verse: options.verse@,
        entry,
        record_offset: offset,
        payload: payload@,
        digest: digest@,
    };
    let other = RecordLineView { entry: other_entry, record_offset: other_offset, ..record };
    law_text_lines_name_what_they_show(record, other);
    law_json_lines_name_what_they_show(record, other);
}

/// A printed record names the Canon and the Verse that the run was asked for, and the digest.
pub proof fn law_records_are_printed_under_their_names(
    options: ConsumeOptions,
    other: ConsumeOptions,
    entry: u64,
    offset: u64,
    payload: &[u8],
    digest: &str,
    other_digest: &str,
    line: String,
    by_canon: String,
    by_verse: String,
    by_digest: String,
)
    requires
        options.format == OutputFormat::Text,
        call_ensures(print_record, (&options, entry, offset, payload, digest), line),
        call_ensures(
            print_record,
            (&ConsumeOptions { canon: other.canon, ..options }, entry, offset, payload, digest),
            by_canon,
        ),
        call_ensures(
            print_record,
            (&ConsumeOptions { verse: other.verse, ..options }, entry, offset, payload, digest),
            by_verse,
        ),
        call_ensures(print_record, (&options, entry, offset, payload, other_digest), by_digest),
    ensures
        differ_behind(line@, by_canon@, "canon="@, options.canon@, other.canon@),
        differ_behind(line@, by_verse@, " verse="@, options.verse@, other.verse@),
        differ_behind(line@, by_digest@, " digest="@, digest@, other_digest@),
{
    let record = RecordLineView {
        canon: options.canon@,
        verse: options.verse@,
        entry,
        record_offset: offset,
        payload: payload@,
        digest: digest@,
    };
    let changed = RecordLineView {
        canon: other.canon@,
        verse: other.verse@,
        digest: other_digest@,
        ..record
    };
    law_text_lines_name_what_they_show(record, changed);
}

/// Two formats are understood by their names, and no other.
pub proof fn law_two_formats_are_understood(raw: &str, format: Result<OutputFormat, String>)
    requires
        call_ensures(OutputFormat::parse, (raw,), format),
    ensures
        format == Ok::<_, String>(OutputFormat::Text) <==> raw@ == "text"@,
        format == Ok::<_, String>(OutputFormat::Jsonl) <==> raw@ == "jsonl"@,
        format matches Err(message) ==> message@ == "consume: unknown --format "@ + raw@
            + " (expected text|jsonl)"@,
{
    reveal_strlit("text");
    reveal_strlit("jsonl");
    assert("text"@.len() == 4 && "jsonl"@.len() == 5);
}

/// The assignment that is found has the Canon and the Verse that were asked for.
pub proof fn law_found_assignments_are_the_asked_for(
    config: ScriptureConfig,
    canon: &str,
    verse: &str,
    found: Result<AssignmentConfig, String>,
    at: int,
)
    requires
        call_ensures(find_assignment, (&config, canon, verse), found),
    ensures
        found matches Ok(assignment) ==> assignment.canon@ == canon@ && assignment.verse@ == verse@,
        config.scribe is None ==> found is Err,
        config.scribe matches Some(scribe) ==> (0 <= at < scribe.assignments@.len()
            && scribe.assignments@[at].canon@ == canon@ && scribe.assignments@[at].verse@ == verse@
            ==> found is Ok),
{
    if let Some(scribe) = config.scribe {
        let assignments = assignments_view(scribe.assignments@);
        law_the_first_assignment_is_found(assignments, canon@, verse@);
        if 0 <= at < assignments.len() {
            assert(assignments[at] == scribe.assignments@[at]@);
        }
    }
}

/// What cannot be read is named with its entry and the reason.
pub proof fn law_failures_name_their_entry(
    cursor: u64,
    other: u64,
    reason: &str,
    unread: String,
    other_unread: String,
    corrupt: String,
    other_corrupt: String,
    generations: Vec<(u64, u64)>,
    end: u64,
)
    requires
        call_ensures(read_failure, (cursor, reason), unread),
        call_ensures(read_failure, (other, reason), other_unread),
        call_ensures(corrupt_payload, (cursor, reason), corrupt),
        call_ensures(corrupt_payload, (other, reason), other_corrupt),
        call_ensures(contiguous_end, (&generations,), end),
    ensures
        differ_behind(
            unread@,
            other_unread@,
            "consume: failed reading VirtualLog entry "@,
            decimal(cursor as nat),
            decimal(other as nat),
        ),
        differ_behind(
            corrupt@,
            other_corrupt@,
            "consume: corrupt or unresolvable payload at entry "@,
            decimal(cursor as nat),
            decimal(other as nat),
        ),
        generations@.len() == 0 ==> end == 0,
        generations@.len() > 0 && generations@.last().0 + generations@.last().1 <= u64::MAX ==> end
            == generations@.last().0 + generations@.last().1,
{
    let label = "consume: failed reading VirtualLog entry "@;
    let one = decimal(cursor as nat);
    let two = decimal(other as nat);
    lemma_differ_first(label, one, two);
    lemma_differ_then_two(label + one, label + two, label, one, two, ": "@, reason@);
    let label = "consume: corrupt or unresolvable payload at entry "@;
    lemma_differ_first(label, one, two);
    lemma_differ_then_two(label + one, label + two, label, one, two, ": "@, reason@);
}

} // verus!
