//! Debug/demo console consumer.
//!
//! Read-only: no consumer register, checkpoint, acknowledgement, trim, or
//! mutation. After a generation cutover membership is observed again and reading
//! of contiguous committed history goes on. Reading, waiting and printing happen
//! outside; this module decides what is read, what is printed and when to stop.
use crate::config::{assignments_view, AssignmentConfig, AssignmentView, ScriptureConfig};
use crate::text::{
    decimal, hex, hex_encode, law_decimal_digits, law_hex_digits, law_hex_is_injective,
    push_decimal, push_hex, same_text, text_from_utf8,
};
use vstd::prelude::*;
use vstd::utf8::{decode_utf8, encode_utf8, valid_utf8};

verus! {

/// Seconds that a consumer follows where nothing else is asked for.
pub const DEFAULT_SECONDS: u64 = 30;

/// Output encoding for one printed record.
#[derive(Debug, Clone, Copy, PartialEq, Eq, Structural)]
pub enum OutputFormat {
    /// Human-oriented single line per record.
    Text,
    /// One JSON object per record on stdout; progress on stderr.
    Jsonl,
}

impl OutputFormat {
    /// What a name of a format means, or what is said of one that means nothing.
    pub open spec fn named(raw: Seq<char>) -> Result<OutputFormat, Seq<char>> {
        if raw == "text"@ {
            Ok(OutputFormat::Text)
        } else if raw == "jsonl"@ {
            Ok(OutputFormat::Jsonl)
        } else {
            Err("consume: unknown --format "@ + raw + " (expected text|jsonl)"@)
        }
    }

    /// Parses `text` or `jsonl`.
    pub fn parse(raw: &str) -> (format: Result<OutputFormat, String>)
        ensures
            match format {
                Ok(format) => OutputFormat::named(raw@) == Ok::<_, Seq<char>>(format),
                Err(message) => OutputFormat::named(raw@) == Err::<OutputFormat, _>(message@),
            },
    {
        if same_text(raw, "text") {
            Ok(OutputFormat::Text)
        } else if same_text(raw, "jsonl") {
            Ok(OutputFormat::Jsonl)
        } else {
            let mut message = String::new();
            message.append("consume: unknown --format ");
            message.append(raw);
            message.append(" (expected text|jsonl)");
            assert(message@ =~= "consume: unknown --format "@ + raw@ + " (expected text|jsonl)"@);
            Err(message)
        }
    }
}

/// Options for `scripture consume`.
#[derive(Debug, PartialEq, Eq)]
pub struct ConsumeOptions {
    pub canon: String,
    pub verse: String,
    /// First VirtualLog entry position to inspect.
    pub from: u64,
    /// Stop after printing this many logical records (`None` = unbounded).
    pub until_records: Option<u64>,
    /// Upper bound for tailing; must be non-zero unless `no_follow`.
    pub seconds: u64,
    pub format: OutputFormat,
    /// Read only the currently observed contiguous tail and exit.
    pub no_follow: bool,
}

impl ConsumeOptions {
    /// Default demo-friendly seconds bound.
    pub fn default_seconds() -> (seconds: u64)
        ensures
            seconds == 30,
    {
        DEFAULT_SECONDS
    }
}

/// End-of-run counters written to stderr.
#[derive(Debug, Clone, Copy, PartialEq, Eq, Structural)]
pub struct ConsumeSummary {
    pub entries_scanned: u64,
    pub records_printed: u64,
    pub final_cursor: u64,
    pub elapsed_ms: u64,
    pub membership_change: bool,
}

/// The summary in words.
pub open spec fn summary_words(summary: ConsumeSummary) -> Seq<char> {
    "scripture consume: entries_scanned="@ + decimal(summary.entries_scanned as nat)
        + " records_printed="@ + decimal(summary.records_printed as nat) + " final_cursor="@
        + decimal(summary.final_cursor as nat) + " elapsed_ms="@ + decimal(
        summary.elapsed_ms as nat,
    ) + " membership_change="@ + (if summary.membership_change {
        "yes"@
    } else {
        "no"@
    }) + "\n"@
}

/// The summary as it is written.
pub fn write_summary(summary: &ConsumeSummary) -> (text: String)
    ensures
        text@ == summary_words(*summary),
{
    let mut text = String::new();
    text.append("scripture consume: entries_scanned=");
    push_decimal(&mut text, summary.entries_scanned);
    text.append(" records_printed=");
    push_decimal(&mut text, summary.records_printed);
    text.append(" final_cursor=");
    push_decimal(&mut text, summary.final_cursor);
    text.append(" elapsed_ms=");
    push_decimal(&mut text, summary.elapsed_ms);
    text.append(" membership_change=");
    if summary.membership_change {
        text.append("yes");
    } else {
        text.append("no");
    }
    text.append("\n");
    assert(text@ =~= summary_words(*summary));
    text
}

// Assignments.

/// Where the assignment of a Canon/Verse stands, or the length.
pub open spec fn assignment_index(
    assignments: Seq<AssignmentView>,
    canon: Seq<char>,
    verse: Seq<char>,
) -> nat
    decreases assignments.len(),
{
    if assignments.len() == 0 || assignments[0].canon == canon && assignments[0].verse == verse {
        0
    } else {
        1 + assignment_index(assignments.skip(1), canon, verse)
    }
}

/// What is said where no assignment has the Canon/Verse.
pub open spec fn no_assignment(canon: Seq<char>, verse: Seq<char>) -> Seq<char> {
    "no assignment for canon="@ + canon + " verse="@ + verse
}

/// Finds the first assignment of a Canon/Verse.
pub fn find_assignment(config: &ScriptureConfig, canon: &str, verse: &str) -> (found: Result<
    AssignmentConfig,
    String,
>)
    ensures
        match config.scribe {
            None => found matches Err(message) && message@
                == "consume requires scribe.assignments"@,
            Some(scribe) => {
                let assignments = assignments_view(scribe.assignments@);
                let at = assignment_index(assignments, canon@, verse@);
                match found {
                    Ok(assignment) => at < assignments.len() && assignment@
                        == assignments[at as int],
                    Err(message) => at >= assignments.len() && message@ == no_assignment(
                        canon@,
                        verse@,
                    ),
                }
            },
        },
{
    let scribe = match &config.scribe {
        None => {
            return Err("consume requires scribe.assignments".to_owned());
        },
        Some(scribe) => scribe,
    };
    let ghost view = assignments_view(scribe.assignments@);
    let mut at: usize = 0;
    assert(view.skip(0) =~= view);
    while at < scribe.assignments.len()
        invariant
            at <= scribe.assignments@.len(),
            view == assignments_view(scribe.assignments@),
            config.scribe == Some(*scribe),
            at + assignment_index(view.skip(at as int), canon@, verse@) == assignment_index(
                view,
                canon@,
                verse@,
            ),
        decreases scribe.assignments@.len() - at,
    {
        let one = &scribe.assignments[at];
        assert(view.skip(at as int)[0] == one@);
        if same_text(one.canon.as_str(), canon) && same_text(one.verse.as_str(), verse) {
            return Ok(one.clone());
        }
        assert(view.skip(at as int).skip(1) =~= view.skip(at + 1));
        at += 1;
    }
    let mut message = String::new();
    message.append("no assignment for canon=");
    message.append(canon);
    message.append(" verse=");
    message.append(verse);
    assert(message@ =~= no_assignment(canon@, verse@));
    Err(message)
}

// Payloads.

/// Whether the character is a C0 or C1 control.
pub open spec fn is_control(c: char) -> bool {
    c as u32 <= 0x1f || 0x7f <= c as u32 <= 0x9f
}

/// Whether a text can be shown on a terminal: no controls but tabs.
pub open spec fn is_showable(text: Seq<char>) -> bool {
    forall|i: int| 0 <= i < text.len() ==> text[i] == '\t' || !is_control(#[trigger] text[i])
}

/// Each byte as a backslash, an `x` and two hexadecimal digits.
pub open spec fn escaped_bytes(bytes: Seq<u8>) -> Seq<char>
    decreases bytes.len(),
{
    if bytes.len() == 0 {
        Seq::empty()
    } else {
        escaped_bytes(bytes.drop_last()) + ("\\x"@ + hex(seq![bytes.last()]))
    }
}

/// A character as it is shown.
pub open spec fn escaped_char(c: char) -> Seq<char> {
    if c == '\\' {
        "\\\\"@
    } else if c == '\t' {
        "\\t"@
    } else if c == '"' {
        "\\\""@
    } else if is_control(c) {
        escaped_bytes(encode_utf8(seq![c]))
    } else {
        seq![c]
    }
}

/// A text as it is shown.
pub open spec fn escaped(text: Seq<char>) -> Seq<char>
    decreases text.len(),
{
    if text.len() == 0 {
        Seq::empty()
    } else {
        escaped(text.drop_last()) + escaped_char(text.last())
    }
}

fn push_escaped_bytes(out: &mut String, bytes: &[u8])
    ensures
        final(out)@ == old(out)@ + escaped_bytes(bytes@),
{
    let ghost before = out@;
    let mut at: usize = 0;
    assert(out@ =~= before + escaped_bytes(bytes@.take(0)));
    while at < bytes.len()
        invariant
            at <= bytes@.len(),
            out@ == before + escaped_bytes(bytes@.take(at as int)),
        decreases bytes@.len() - at,
    {
        let byte: [u8; 1] = [bytes[at]];
        out.append("\\x");
        push_hex(out, byte.as_slice());
        proof {
            assert(byte@ =~= seq![bytes@[at as int]]);
            assert(bytes@.take(at + 1).drop_last() =~= bytes@.take(at as int));
            assert(out@ =~= before + escaped_bytes(bytes@.take(at + 1)));
        }
        at += 1;
    }
    assert(bytes@.take(at as int) =~= bytes@);
}

/// A text as it is shown: backslash, tab and quote escaped, controls by their bytes.
pub fn escape_text(text: &str) -> (shown: String)
    ensures
        shown@ == escaped(text@),
{
    let mut shown = String::new();
    assert(shown@ =~= escaped(text@.take(0)));
    for c in it: text.chars()
        invariant
            it.seq() == text@,
            shown@ == escaped(text@.take(it.index() as int)),
    {
        let ghost at = it.index() as int;
        let ghost before = shown@;
        if c == '\\' {
            shown.append("\\\\");
        } else if c == '\t' {
            shown.append("\\t");
        } else if c == '"' {
            shown.append("\\\"");
        } else if c as u32 <= 0x1f || (0x7f <= c as u32 && c as u32 <= 0x9f) {
            let mut one = String::new();
            one.push(c);
            assert(one@ =~= seq![c]);
            push_escaped_bytes(&mut shown, one.as_str().as_bytes());
        } else {
            shown.push(c);
        }
        proof {
            assert(shown@ =~= before + escaped_char(c));
            assert(text@.take(at + 1).drop_last() =~= text@.take(at));
        }
    }
    assert(text@.take(text@.len() as int) =~= text@);
    shown
}

/// How payload bytes are shown: as text where they are showable UTF-8, else as hex.
pub open spec fn rendered(payload: Seq<u8>) -> (Seq<char>, Seq<char>) {
    if valid_utf8(payload) && is_showable(decode_utf8(payload)) {
        ("text"@, escaped(decode_utf8(payload)))
    } else {
        ("hex"@, hex(payload))
    }
}

fn showable(text: &str) -> (shown: bool)
    ensures
        shown == is_showable(text@),
{
    let mut fine = true;
    for c in it: text.chars()
        invariant
            it.seq() == text@,
            fine == is_showable(text@.take(it.index() as int)),
    {
        let ghost at = it.index() as int;
        let shown = c == '\t' || !(c as u32 <= 0x1f || (0x7f <= c as u32 && c as u32 <= 0x9f));
        proof {
            let so_far = text@.take(at);
            let next = text@.take(at + 1);
            if is_showable(next) {
                assert forall|i: int| 0 <= i < so_far.len() implies so_far[i] == '\t'
                    || !is_control(#[trigger] so_far[i]) by {
                    assert(next[i] == so_far[i]);
                }
                assert(next[at] == c);
            }
            if is_showable(so_far) && shown {
                assert forall|i: int| 0 <= i < next.len() implies next[i] == '\t' || !is_control(
                    #[trigger] next[i],
                ) by {
                    if i < at {
                        assert(so_far[i] == next[i]);
                    }
                }
            }
        }
        fine = fine && shown;
    }
    assert(text@.take(text@.len() as int) =~= text@);
    fine
}

/// Renders payload bytes safely for terminals.
///
/// Valid UTF-8 without C0/C1 controls (except tab) becomes `text` with escapes
/// for remaining awkward characters. Everything else is labelled `hex`.
pub fn render_payload(payload: &[u8]) -> (shown: (&'static str, String))
    ensures
        (shown.0@, shown.1@) == rendered(payload@),
{
    match text_from_utf8(payload) {
        Some(text) => {
            if showable(text) {
                return ("text", escape_text(text));
            }
            ("hex", hex_encode(payload))
        },
        None => ("hex", hex_encode(payload)),
    }
}

// Records.

/// A character inside a JSON string: quote, backslash and controls below the space are
/// escaped, the common ones by a letter and the others by their number.
pub open spec fn json_char(c: char) -> Seq<char> {
    if c == '"' {
        "\\\""@
    } else if c == '\\' {
        "\\\\"@
    } else if c == '\n' {
        "\\n"@
    } else if c == '\r' {
        "\\r"@
    } else if c == '\t' {
        "\\t"@
    } else if c as u32 == 0x08 {
        "\\b"@
    } else if c as u32 == 0x0c {
        "\\f"@
    } else if (c as u32) < 0x20 {
        "\\u00"@ + hex(seq![c as u8])
    } else {
        seq![c]
    }
}

/// The characters of a text inside a JSON string.
pub open spec fn json_chars(text: Seq<char>) -> Seq<char>
    decreases text.len(),
{
    if text.len() == 0 {
        Seq::empty()
    } else {
        json_chars(text.drop_last()) + json_char(text.last())
    }
}

/// A text as a JSON string.
pub open spec fn json_string(text: Seq<char>) -> Seq<char> {
    "\""@ + json_chars(text) + "\""@
}

/// `serde_json::Value` of a text, displayed: the text between quotes, with quote,
/// backslash and the controls below the space escaped and everything else as it is.
#[verifier::external_body]
fn json_text(text: &str) -> (written: String)
    ensures
        written@ == json_string(text@),
{
    serde_json::Value::from(text).to_string()
}

/// One record as it is to be printed.
pub struct RecordLineView {
    pub canon: Seq<char>,
    pub verse: Seq<char>,
    pub entry: u64,
    pub record_offset: u64,
    pub payload: Seq<u8>,
    pub digest: Seq<char>,
}

/// The printed line of a record.
pub open spec fn record_line(record: RecordLineView, format: OutputFormat) -> Seq<char> {
    let (encoding, shown) = rendered(record.payload);
    match format {
        OutputFormat::Text => "canon="@ + record.canon + " verse="@ + record.verse + " entry="@
            + decimal(record.entry as nat) + " record="@ + decimal(record.record_offset as nat)
            + " bytes="@ + decimal(record.payload.len()) + " digest="@ + record.digest
            + " payload="@ + encoding + ":"@ + shown + "\n"@,
        OutputFormat::Jsonl => "{\"bytes\":"@ + decimal(record.payload.len()) + ",\"canon\":"@
            + json_string(record.canon) + ",\"digest\":"@ + json_string(record.digest)
            + ",\"entry\":"@ + decimal(record.entry as nat) + ",\"payload\":"@ + json_string(shown)
            + ",\"payload_encoding\":"@ + json_string(encoding) + ",\"record_offset\":"@ + decimal(
            record.record_offset as nat,
        ) + ",\"verse\":"@ + json_string(record.verse) + "}\n"@,
    }
}

/// The printed line of a record; `digest` is the digest of the payload in words.
pub fn print_record(
    options: &ConsumeOptions,
    entry: u64,
    record_offset: u64,
    payload: &[u8],
    digest: &str,
) -> (line: String)
    ensures
        line@ == record_line(
            RecordLineView {
                canon: options.canon@,
                verse: options.verse@,
                entry,
                record_offset,
                payload: payload@,
                digest: digest@,
            },
            options.format,
        ),
{
    let ghost record = RecordLineView {
        canon: options.canon@,
        verse: options.verse@,
        entry,
        record_offset,
        payload: payload@,
        digest: digest@,
    };
    let (encoding, shown) = render_payload(payload);
    let mut line = String::new();
    match options.format {
        OutputFormat::Text => {
            line.append("canon=");
            line.append(options.canon.as_str());
            line.append(" verse=");
            line.append(options.verse.as_str());
            line.append(" entry=");
            push_decimal(&mut line, entry);
            line.append(" record=");
            push_decimal(&mut line, record_offset);
            line.append(" bytes=");
            push_decimal(&mut line, payload.len() as u64);
            line.append(" digest=");
            line.append(digest);
            line.append(" payload=");
            line.append(encoding);
            line.append(":");
            line.append(shown.as_str());
            line.append("\n");
        },
        OutputFormat::Jsonl => {
            line.append("{\"bytes\":");
            push_decimal(&mut line, payload.len() as u64);
            line.append(",\"canon\":");
            line.append(json_text(options.canon.as_str()).as_str());
            line.append(",\"digest\":");
            line.append(json_text(digest).as_str());
            line.append(",\"entry\":");
            push_decimal(&mut line, entry);
            line.append(",\"payload\":");
            line.append(json_text(shown.as_str()).as_str());
            line.append(",\"payload_encoding\":");
            line.append(json_text(encoding).as_str());
            line.append(",\"record_offset\":");
            push_decimal(&mut line, record_offset);
            line.append(",\"verse\":");
            line.append(json_text(options.verse.as_str()).as_str());
            line.append("}\n");
        },
    }
    assert(line@ =~= record_line(record, options.format));
    line
}

// The consuming run.

/// The contiguous durable end of a chain of generations, each with its start and
/// the contiguous tail read from it: that of the last one.
pub open spec fn chain_end(generations: Seq<(u64, u64)>) -> u64 {
    if generations.len() == 0 {
        0
    } else if generations.last().0 + generations.last().1 > u64::MAX {
        u64::MAX
    } else {
        (generations.last().0 + generations.last().1) as u64
    }
}

/// The contiguous durable end of a chain of generations.
pub fn contiguous_end(generations: &Vec<(u64, u64)>) -> (end: u64)
    ensures
        end == chain_end(generations@),
{
    if generations.len() == 0 {
        return 0;
    }
    let last = generations[generations.len() - 1];
    last.0.saturating_add(last.1)
}

/// The records of one frame: the offset of the first, and the payloads.
#[derive(Debug, PartialEq, Eq)]
pub struct FrameRecords {
    pub base_offset: u64,
    pub payloads: Vec<Vec<u8>>,
}

/// A record as it is handed on: its offset and its payload.
#[derive(Debug, PartialEq, Eq)]
pub struct PrintedRecord {
    pub offset: u64,
    pub payload: Vec<u8>,
}

/// What a handed-on record is, apart from its representation.
pub struct PrintedView {
    pub offset: u64,
    pub payload: Seq<u8>,
}

impl View for PrintedRecord {
    type V = PrintedView;

    open spec fn view(&self) -> PrintedView {
        PrintedView { offset: self.offset, payload: self.payload@ }
    }
}

/// Handed-on records by their views.
pub open spec fn printed_view(records: Seq<PrintedRecord>) -> Seq<PrintedView> {
    records.map_values(|record: PrintedRecord| record@)
}

/// The offset of the record at `index` in its frame; where that is no offset,
/// its position `in_entry` in the entry.
pub open spec fn record_offset(base: u64, index: int, in_entry: int) -> u64 {
    if base + index <= u64::MAX {
        (base + index) as u64
    } else {
        in_entry as u64
    }
}

/// The first `count` records of a frame whose first record is the `start`-th of
/// its entry.
pub open spec fn frame_listing(frame: FrameRecords, count: int, start: int) -> Seq<PrintedView> {
    Seq::new(
        count as nat,
        |i: int|
            PrintedView {
                offset: record_offset(frame.base_offset, i, start + i),
                payload: frame.payloads@[i]@,
            },
    )
}

/// All records of an entry, in order.
pub open spec fn entry_listing(frames: Seq<FrameRecords>) -> Seq<PrintedView>
    decreases frames.len(),
{
    if frames.len() == 0 {
        Seq::empty()
    } else {
        let before = entry_listing(frames.drop_last());
        before + frame_listing(
            frames.last(),
            frames.last().payloads@.len() as int,
            before.len() as int,
        )
    }
}

/// How many more records may be printed.
pub open spec fn room(until: Option<u64>, printed: u64) -> Option<int> {
    match until {
        None => None,
        Some(limit) => if printed >= limit {
            Some(0int)
        } else {
            Some(limit - printed)
        },
    }
}

/// The records of a listing that are printed.
pub open spec fn within_room(listing: Seq<PrintedView>, room: Option<int>) -> Seq<PrintedView> {
    match room {
        None => listing,
        Some(most) => if listing.len() <= most {
            listing
        } else {
            listing.take(most)
        },
    }
}

/// Sum that stops at the largest number.
pub open spec fn capped(value: int) -> u64 {
    if value > u64::MAX {
        u64::MAX
    } else {
        value as u64
    }
}

/// What a consumer does after a pass over the observed tail.
#[derive(Debug, Clone, Copy, PartialEq, Eq, Structural)]
pub enum PassEnd {
    /// The run is over.
    Stop,
    /// Observe again at once.
    Again,
    /// Observe again after a short wait.
    Wait,
}

/// The state of a consuming run.
#[derive(Debug, PartialEq, Eq)]
pub struct ConsumeRun {
    /// Next entry to read.
    pub cursor: u64,
    pub records_printed: u64,
    pub entries_scanned: u64,
    /// Generations as last observed.
    pub membership: Option<Vec<String>>,
    pub membership_change: bool,
    /// Whether this pass printed anything.
    pub advanced: bool,
}

/// Generation names by their views.
pub open spec fn names_view(names: Seq<String>) -> Seq<Seq<char>> {
    names.map_values(|name: String| name@)
}

fn same_names(left: &Vec<String>, right: &Vec<String>) -> (same: bool)
    ensures
        same == (names_view(left@) == names_view(right@)),
{
    if left.len() != right.len() {
        assert(names_view(left@).len() != names_view(right@).len());
        return false;
    }
    let mut at: usize = 0;
    while at < left.len()
        invariant
            at <= left@.len(),
            left@.len() == right@.len(),
            forall|i: int| 0 <= i < at ==> (#[trigger] left@[i])@ == right@[i]@,
        decreases left@.len() - at,
    {
        if !same_text(left[at].as_str(), right[at].as_str()) {
            assert(names_view(left@)[at as int] != names_view(right@)[at as int]);
            return false;
        }
        at += 1;
    }
    assert(names_view(left@) =~= names_view(right@));
    true
}

impl ConsumeRun {
    /// Starts a run; following for no time at all is refused.
    pub fn begin(options: &ConsumeOptions) -> (run: Result<ConsumeRun, String>)
        ensures
            match run {
                Ok(run) => {
                    &&& options.no_follow || options.seconds != 0
                    &&& run == (ConsumeRun {
                        cursor: options.from,
                        records_printed: 0,
                        entries_scanned: 0,
                        membership: None,
                        membership_change: false,
                        advanced: false,
                    })
                },
                Err(message) => {
                    &&& !options.no_follow && options.seconds == 0
                    &&& message@
                        == "consume: --seconds 0 is rejected (use --no-follow for a bounded one-shot)"@
                },
            },
    {
        if !options.no_follow && options.seconds == 0 {
            return Err(
                "consume: --seconds 0 is rejected (use --no-follow for a bounded one-shot)".to_owned(),
            );
        }
        Ok(
            ConsumeRun {
                cursor: options.from,
                records_printed: 0,
                entries_scanned: 0,
                membership: None,
                membership_change: false,
                advanced: false,
            },
        )
    }

    /// Whether as many records as were asked for are printed.
    pub open spec fn satisfied(&self, options: &ConsumeOptions) -> bool {
        options.until_records matches Some(limit) && self.records_printed >= limit
    }

    fn is_satisfied(&self, options: &ConsumeOptions) -> (satisfied: bool)
        ensures
            satisfied == self.satisfied(options),
    {
        match options.until_records {
            Some(limit) => self.records_printed >= limit,
            None => false,
        }
    }

    /// Whether the tail is to be observed (again); `deadline_passed` says whether
    /// the time for following is over.
    pub fn observes(&self, options: &ConsumeOptions, deadline_passed: bool) -> (observes: bool)
        ensures
            observes == (!self.satisfied(options) && (options.no_follow || !deadline_passed)),
    {
        !self.is_satisfied(options) && (options.no_follow || !deadline_passed)
    }

    /// Takes in the generations that an observation found.
    pub fn observed(&mut self, generations: Vec<String>)
        ensures
            final(self).membership is Some,
            names_view(final(self).membership->0@) == names_view(generations@),
            final(self).membership_change == (old(self).membership_change || generations@.len() > 1
                || old(self).membership is Some && names_view(old(self).membership->0@)
                != names_view(generations@)),
            final(self).cursor == old(self).cursor,
            final(self).records_printed == old(self).records_printed,
            final(self).entries_scanned == old(self).entries_scanned,
            !final(self).advanced,
    {
        let changed = match &self.membership {
            None => false,
            Some(prior) => !same_names(prior, &generations),
        };
        self.membership_change = self.membership_change || changed || generations.len() > 1;
        self.membership = Some(generations);
        self.advanced = false;
    }

    /// Whether the entry at the cursor is to be read, given the observed end.
    pub fn reads(&self, options: &ConsumeOptions, end: u64) -> (reads: bool)
        ensures
            reads == (self.cursor < end && !self.satisfied(options)),
    {
        self.cursor < end && !self.is_satisfied(options)
    }

    /// Takes in an entry that was read, and gives the records to print.
    pub fn take_entry(
        &mut self,
        options: &ConsumeOptions,
        position: u64,
        frames: &Vec<FrameRecords>,
    ) -> (records: Vec<PrintedRecord>)
        ensures
            printed_view(records@) == within_room(
                entry_listing(frames@),
                room(options.until_records, old(self).records_printed),
            ),
            final(self).cursor == capped(position + 1),
            final(self).entries_scanned == capped(old(self).entries_scanned + 1),
            final(self).records_printed == capped(old(self).records_printed + records@.len()),
            final(self).advanced == (old(self).advanced || records@.len() > 0),
            final(self).membership == old(self).membership,
            final(self).membership_change == old(self).membership_change,
    {
        let ghost listing = entry_listing(frames@);
        let ghost space = room(options.until_records, self.records_printed);
        let most: Option<u64> = match options.until_records {
            None => None,
            Some(limit) => Some(limit.saturating_sub(self.records_printed)),
        };
        let mut records: Vec<PrintedRecord> = Vec::new();
        let mut full = false;
        let mut at: usize = 0;
        assert(frames@.take(0) =~= Seq::<FrameRecords>::empty());
        assert(printed_view(records@) =~= within_room(entry_listing(frames@.take(0)), space));
        while at < frames.len()
            invariant
                at <= frames@.len(),
                most is None ==> space is None,
                most matches Some(limit) ==> space == Some(limit as int),
                printed_view(records@) == within_room(
                    entry_listing(frames@.take(at as int)),
                    space,
                ),
                space is None ==> records@.len() == entry_listing(frames@.take(at as int)).len(),
                full ==> most is Some && records@.len() == most->0,
                most matches Some(limit) ==> records@.len() <= limit,
                !full ==> records@.len() == entry_listing(frames@.take(at as int)).len(),
            decreases frames@.len() - at,
        {
            let frame = &frames[at];
            let ghost so_far = entry_listing(frames@.take(at as int));
            let ghost next = entry_listing(frames@.take(at + 1));
            let ghost in_frame = frame_listing(
                *frame,
                frame.payloads@.len() as int,
                so_far.len() as int,
            );
            proof {
                assert(frames@.take(at + 1).drop_last() =~= frames@.take(at as int));
                assert(frames@.take(at + 1).last() == *frame);
                assert(next == so_far + in_frame);
            }
            if full {
                proof {
                    assert(within_room(next, space) =~= within_room(so_far, space));
                }
                at += 1;
                continue;
            }
            let mut index: usize = 0;
            while index < frame.payloads.len() && !full
                invariant
                    index <= frame.payloads@.len(),
                    next == so_far + in_frame,
                    in_frame == frame_listing(
                        *frame,
                        frame.payloads@.len() as int,
                        so_far.len() as int,
                    ),
                    most is None ==> space is None,
                    most matches Some(limit) ==> space == Some(limit as int),
                    !full ==> records@.len() == so_far.len() + index,
                    !full ==> printed_view(records@) == next.take(records@.len() as int),
                    full ==> most is Some && records@.len() == most->0 && most->0 < next.len()
                        && printed_view(records@) == next.take(most->0 as int),
                    most matches Some(limit) ==> records@.len() <= limit,
                decreases
                    frame.payloads@.len() - index,
                    (if full {
                        0int
                    } else {
                        1int
                    }),
            {
                let reached = match most {
                    Some(limit) => records.len() as u64 >= limit,
                    None => false,
                };
                if reached {
                    full = true;
                } else {
                    let in_entry: u64 = records.len() as u64;
                    let offset: u64 = match frame.base_offset.checked_add(index as u64) {
                        Some(offset) => offset,
                        None => in_entry,
                    };
                    let payload = frame.payloads[index].clone();
                    let ghost shown = PrintedView { offset, payload: payload@ };
                    let ghost before = printed_view(records@);
                    records.push(PrintedRecord { offset, payload });
                    proof {
                        assert(frame.payloads@[index as int]@ =~= shown.payload);
                        assert(printed_view(records@) =~= before.push(shown));
                        assert(next[so_far.len() + index] == in_frame[index as int]);
                        assert(next.take(records@.len() as int) =~= next.take(
                            records@.len() - 1,
                        ).push(next[so_far.len() + index]));
                    }
                    index += 1;
                }
            }
            proof {
                if !full {
                    assert(next.take(records@.len() as int) =~= next);
                }
                assert(within_room(next, space) =~= printed_view(records@));
            }
            at += 1;
        }
        assert(frames@.take(at as int) =~= frames@);
        self.cursor = position.saturating_add(1);
        self.entries_scanned = self.entries_scanned.saturating_add(1);
        self.records_printed = self.records_printed.saturating_add(records.len() as u64);
        self.advanced = self.advanced || records.len() > 0;
        records
    }

    /// What follows a pass over the observed tail.
    pub fn end_pass(&self, options: &ConsumeOptions) -> (end: PassEnd)
        ensures
            end == (if options.no_follow {
                PassEnd::Stop
            } else if self.advanced {
                PassEnd::Again
            } else {
                PassEnd::Wait
            }),
    {
        if options.no_follow {
            PassEnd::Stop
        } else if self.advanced {
            PassEnd::Again
        } else {
            PassEnd::Wait
        }
    }

    /// The counters of a run that took this long.
    pub fn summary(&self, elapsed_ms: u64) -> (summary: ConsumeSummary)
        ensures
            summary == (ConsumeSummary {
                entries_scanned: self.entries_scanned,
                records_printed: self.records_printed,
                final_cursor: self.cursor,
                elapsed_ms,
                membership_change: self.membership_change,
            }),
    {
        ConsumeSummary {
            entries_scanned: self.entries_scanned,
            records_printed: self.records_printed,
            final_cursor: self.cursor,
            elapsed_ms,
            membership_change: self.membership_change,
        }
    }
}

/// What is said of an entry that cannot be read.
pub fn read_failure(cursor: u64, reason: &str) -> (message: String)
    ensures
        message@ == "consume: failed reading VirtualLog entry "@ + decimal(cursor as nat) + ": "@
            + reason@,
{
    let mut message = String::new();
    message.append("consume: failed reading VirtualLog entry ");
    push_decimal(&mut message, cursor);
    message.append(": ");
    message.append(reason);
    assert(message@ =~= "consume: failed reading VirtualLog entry "@ + decimal(cursor as nat)
        + ": "@ + reason@);
    message
}

/// What is said of an entry whose payload does not resolve.
pub fn corrupt_payload(position: u64, reason: &str) -> (message: String)
    ensures
        message@ == "consume: corrupt or unresolvable payload at entry "@ + decimal(
            position as nat,
        ) + ": "@ + reason@,
{
    let mut message = String::new();
    message.append("consume: corrupt or unresolvable payload at entry ");
    push_decimal(&mut message, position);
    message.append(": ");
    message.append(reason);
    assert(message@ =~= "consume: corrupt or unresolvable payload at entry "@ + decimal(
        position as nat,
    ) + ": "@ + reason@);
    message
}

// Laws.

proof fn lemma_escaped_bytes_plain(bytes: Seq<u8>, at: int)
    requires
        0 <= at < escaped_bytes(bytes).len(),
    ensures
        !is_control(escaped_bytes(bytes)[at]),
    decreases bytes.len(),
{
    if bytes.len() > 0 {
        let before = escaped_bytes(bytes.drop_last());
        let digits = hex(seq![bytes.last()]);
        reveal_strlit("\\x");
        if at < before.len() {
            lemma_escaped_bytes_plain(bytes.drop_last(), at);
        } else if at < before.len() + 2 {
            assert(escaped_bytes(bytes)[at] == "\\x"@[at - before.len()]);
        } else {
            law_hex_digits(seq![bytes.last()], at - before.len() - 2);
            assert(escaped_bytes(bytes)[at] == digits[at - before.len() - 2]);
        }
    }
}

proof fn lemma_escaped_char_plain(c: char, at: int)
    requires
        0 <= at < escaped_char(c).len(),
    ensures
        !is_control(escaped_char(c)[at]),
{
    reveal_strlit("\\\\");
    reveal_strlit("\\t");
    reveal_strlit("\\\"");
    if c != '\\' && c != '\t' && c != '"' && is_control(c) {
        lemma_escaped_bytes_plain(encode_utf8(seq![c]), at);
    }
}

proof fn lemma_escaped_plain(text: Seq<char>, at: int)
    requires
        0 <= at < escaped(text).len(),
    ensures
        !is_control(escaped(text)[at]),
    decreases text.len(),
{
    if text.len() > 0 {
        let before = escaped(text.drop_last());
        if at < before.len() {
            lemma_escaped_plain(text.drop_last(), at);
        } else {
            lemma_escaped_char_plain(text.last(), at - before.len());
        }
    }
}

/// A rendered payload never holds a control character, whatever the payload.
pub proof fn law_rendering_has_no_controls(payload: Seq<u8>, at: int)
    requires
        0 <= at < rendered(payload).1.len(),
    ensures
        !is_control(rendered(payload).1[at]),
{
    if valid_utf8(payload) && is_showable(decode_utf8(payload)) {
        lemma_escaped_plain(decode_utf8(payload), at);
    } else {
        law_hex_digits(payload, at);
    }
}

proof fn lemma_escaped_first(text: Seq<char>)
    requires
        text.len() > 0,
    ensures
        escaped(text) == escaped_char(text[0]) + escaped(text.skip(1)),
    decreases text.len(),
{
    if text.len() == 1 {
        assert(escaped(text.drop_last()) =~= Seq::<char>::empty());
        assert(escaped(text.skip(1)) =~= Seq::<char>::empty());
        assert(escaped(text) =~= escaped_char(text[0]) + escaped(text.skip(1)));
    } else {
        lemma_escaped_first(text.drop_last());
        assert(text.drop_last().skip(1) =~= text.skip(1).drop_last());
        assert(text.skip(1).last() == text.last());
        assert(text.drop_last()[0] == text[0]);
        assert(escaped(text) =~= escaped_char(text[0]) + escaped(text.skip(1)));
    }
}

proof fn lemma_escaped_injective(left: Seq<char>, right: Seq<char>)
    requires
        is_showable(left),
        is_showable(right),
        escaped(left) == escaped(right),
    ensures
        left == right,
    decreases left.len(),
{
    reveal_strlit("\\\\");
    reveal_strlit("\\t");
    reveal_strlit("\\\"");
    if left.len() > 0 {
        lemma_escaped_first(left);
    }
    if right.len() > 0 {
        lemma_escaped_first(right);
    }
    if left.len() > 0 {
        assert(left[0] == '\t' || !is_control(left[0]));
        assert(1 <= escaped_char(left[0]).len() <= 2);
        assert(escaped(left).len() > 0);
    }
    if right.len() > 0 {
        assert(right[0] == '\t' || !is_control(right[0]));
        assert(1 <= escaped_char(right[0]).len() <= 2);
        assert(escaped(right).len() > 0);
    }
    if left.len() == 0 || right.len() == 0 {
        assert(left =~= right);
    } else {
        let shown = escaped(left);
        let of_left = escaped_char(left[0]);
        let of_right = escaped_char(right[0]);
        assert(shown[0] == of_left[0] && shown[0] == of_right[0]);
        if of_left.len() == 2 {
            assert(shown[1] == of_left[1]);
        }
        if of_right.len() == 2 {
            assert(shown[1] == of_right[1]);
        }
        assert(left[0] == right[0]);
        assert(shown.skip(of_left.len() as int) =~= escaped(left.skip(1)));
        assert(shown.skip(of_left.len() as int) =~= escaped(right.skip(1)));
        assert forall|i: int| 0 <= i < left.len() - 1 implies left.skip(1)[i] == '\t'
            || !is_control(#[trigger] left.skip(1)[i]) by {
            assert(left.skip(1)[i] == left[i + 1]);
        }
        assert forall|i: int| 0 <= i < right.len() - 1 implies right.skip(1)[i] == '\t'
            || !is_control(#[trigger] right.skip(1)[i]) by {
            assert(right.skip(1)[i] == right[i + 1]);
        }
        lemma_escaped_injective(left.skip(1), right.skip(1));
        assert(left =~= seq![left[0]] + left.skip(1));
        assert(right =~= seq![right[0]] + right.skip(1));
    }
}

/// Whether a text holds no line feed.
pub open spec fn on_one_line(text: Seq<char>) -> bool {
    forall|i: int| 0 <= i < text.len() ==> #[trigger] text[i] != '\n'
}

proof fn lemma_one_line_concat(first: Seq<char>, second: Seq<char>)
    requires
        on_one_line(first),
        on_one_line(second),
    ensures
        on_one_line(first + second),
{
    assert forall|i: int| 0 <= i < (first + second).len() implies #[trigger] (first + second)[i]
        != '\n' by {
        if i < first.len() {
            assert((first + second)[i] == first[i]);
        } else {
            assert((first + second)[i] == second[i - first.len()]);
        }
    }
}

proof fn lemma_json_on_one_line(text: Seq<char>)
    ensures
        on_one_line(json_chars(text)),
        on_one_line(json_string(text)),
    decreases text.len(),
{
    reveal_strlit("\"");
    reveal_strlit("\\\"");
    reveal_strlit("\\\\");
    reveal_strlit("\\n");
    reveal_strlit("\\r");
    reveal_strlit("\\t");
    reveal_strlit("\\b");
    reveal_strlit("\\f");
    reveal_strlit("\\u00");
    if text.len() > 0 {
        let c = text.last();
        lemma_json_on_one_line(text.drop_last());
        let number = hex(seq![c as u8]);
        assert(on_one_line(number)) by {
            assert forall|i: int| 0 <= i < number.len() implies #[trigger] number[i] != '\n' by {
                law_hex_digits(seq![c as u8], i);
            }
        }
        lemma_one_line_concat("\\u00"@, number);
        assert(on_one_line(json_char(c)));
        lemma_one_line_concat(json_chars(text.drop_last()), json_char(c));
    }
    lemma_one_line_concat("\""@, json_chars(text));
    lemma_one_line_concat("\""@ + json_chars(text), "\""@);
}

/// One JSON object is one line: the line of a record in that format holds no line feed but
/// its last character.
pub proof fn law_json_records_are_lines(record: RecordLineView)
    ensures
        ({
            let line = record_line(record, OutputFormat::Jsonl);
            &&& line.len() > 0
            &&& line.last() == '\n'
            &&& on_one_line(line.drop_last())
        }),
{
    reveal_strlit("{\"bytes\":");
    reveal_strlit(",\"canon\":");
    reveal_strlit(",\"digest\":");
    reveal_strlit(",\"entry\":");
    reveal_strlit(",\"payload\":");
    reveal_strlit(",\"payload_encoding\":");
    reveal_strlit(",\"record_offset\":");
    reveal_strlit(",\"verse\":");
    reveal_strlit("}\n");
    let (encoding, shown) = rendered(record.payload);
    lemma_json_on_one_line(record.canon);
    lemma_json_on_one_line(record.digest);
    lemma_json_on_one_line(shown);
    lemma_json_on_one_line(encoding);
    lemma_json_on_one_line(record.verse);
    law_decimal_digits(record.payload.len());
    law_decimal_digits(record.entry as nat);
    law_decimal_digits(record.record_offset as nat);
    let s1 = "{\"bytes\":"@ + decimal(record.payload.len());
    let s2 = s1 + ",\"canon\":"@ + json_string(record.canon);
    let s3 = s2 + ",\"digest\":"@ + json_string(record.digest);
    let s4 = s3 + ",\"entry\":"@ + decimal(record.entry as nat);
    let s5 = s4 + ",\"payload\":"@ + json_string(shown);
    let s6 = s5 + ",\"payload_encoding\":"@ + json_string(encoding);
    let s7 = s6 + ",\"record_offset\":"@ + decimal(record.record_offset as nat);
    let s8 = s7 + ",\"verse\":"@ + json_string(record.verse);
    lemma_one_line_concat("{\"bytes\":"@, decimal(record.payload.len()));
    lemma_one_line_concat(s1, ",\"canon\":"@);
    lemma_one_line_concat(s1 + ",\"canon\":"@, json_string(record.canon));
    lemma_one_line_concat(s2, ",\"digest\":"@);
    lemma_one_line_concat(s2 + ",\"digest\":"@, json_string(record.digest));
    lemma_one_line_concat(s3, ",\"entry\":"@);
    lemma_one_line_concat(s3 + ",\"entry\":"@, decimal(record.entry as nat));
    lemma_one_line_concat(s4, ",\"payload\":"@);
    lemma_one_line_concat(s4 + ",\"payload\":"@, json_string(shown));
    lemma_one_line_concat(s5, ",\"payload_encoding\":"@);
    lemma_one_line_concat(s5 + ",\"payload_encoding\":"@, json_string(encoding));
    lemma_one_line_concat(s6, ",\"record_offset\":"@);
    lemma_one_line_concat(
        s6 + ",\"record_offset\":"@,
        decimal(record.record_offset as nat),
    );
    lemma_one_line_concat(s7, ",\"verse\":"@);
    lemma_one_line_concat(s7 + ",\"verse\":"@, json_string(record.verse));
    lemma_one_line_concat(s8, seq!['}']);
    let line = record_line(record, OutputFormat::Jsonl);
    assert(line =~= s8 + "}\n"@);
    assert(line.drop_last() =~= s8 + seq!['}']);
}

/// A record in words is one line where its names and its digest are: whatever the payload
/// is, no line feed of it reaches the terminal.
pub proof fn law_text_records_are_lines(record: RecordLineView)
    requires
        on_one_line(record.canon),
        on_one_line(record.verse),
        on_one_line(record.digest),
    ensures
        ({
            let line = record_line(record, OutputFormat::Text);
            &&& line.len() > 0
            &&& line.last() == '\n'
            &&& on_one_line(line.drop_last())
        }),
{
    reveal_strlit("canon=");
    reveal_strlit(" verse=");
    reveal_strlit(" entry=");
    reveal_strlit(" record=");
    reveal_strlit(" bytes=");
    reveal_strlit(" digest=");
    reveal_strlit(" payload=");
    reveal_strlit(":");
    reveal_strlit("\n");
    reveal_strlit("text");
    reveal_strlit("hex");
    let (encoding, shown) = rendered(record.payload);
    law_decimal_digits(record.payload.len());
    law_decimal_digits(record.entry as nat);
    law_decimal_digits(record.record_offset as nat);
    assert(on_one_line(shown)) by {
        assert forall|i: int| 0 <= i < shown.len() implies #[trigger] shown[i] != '\n' by {
            law_rendering_has_no_controls(record.payload, i);
        }
    }
    let s1 = "canon="@ + record.canon;
    let s2 = s1 + " verse="@ + record.verse;
    let s3 = s2 + " entry="@ + decimal(record.entry as nat);
    let s4 = s3 + " record="@ + decimal(record.record_offset as nat);
    let s5 = s4 + " bytes="@ + decimal(record.payload.len());
    let s6 = s5 + " digest="@ + record.digest;
    let s7 = s6 + " payload="@ + encoding;
    let s8 = s7 + ":"@ + shown;
    lemma_one_line_concat("canon="@, record.canon);
    lemma_one_line_concat(s1, " verse="@);
    lemma_one_line_concat(s1 + " verse="@, record.verse);
    lemma_one_line_concat(s2, " entry="@);
    lemma_one_line_concat(s2 + " entry="@, decimal(record.entry as nat));
    lemma_one_line_concat(s3, " record="@);
    lemma_one_line_concat(s3 + " record="@, decimal(record.record_offset as nat));
    lemma_one_line_concat(s4, " bytes="@);
    lemma_one_line_concat(s4 + " bytes="@, decimal(record.payload.len()));
    lemma_one_line_concat(s5, " digest="@);
    lemma_one_line_concat(s5 + " digest="@, record.digest);
    lemma_one_line_concat(s6, " payload="@);
    lemma_one_line_concat(s6 + " payload="@, encoding);
    lemma_one_line_concat(s7, ":"@);
    lemma_one_line_concat(s7 + ":"@, shown);
    let line = record_line(record, OutputFormat::Text);
    assert(line =~= s8 + "\n"@);
    assert(line.drop_last() =~= s8);
}

/// A payload can be told from how it is shown: no two are shown alike.
pub proof fn law_rendering_is_injective(left: Seq<u8>, right: Seq<u8>)
    ensures
        rendered(left) == rendered(right) <==> left == right,
{
    broadcast use vstd::utf8::decode_utf8_encode_utf8;

    if rendered(left) == rendered(right) {
        reveal_strlit("text");
        reveal_strlit("hex");
        assert("text"@.len() != "hex"@.len());
        if rendered(left).0 == "text"@ {
            lemma_escaped_injective(decode_utf8(left), decode_utf8(right));
            assert(encode_utf8(decode_utf8(left)) == left);
            assert(encode_utf8(decode_utf8(right)) == right);
        } else {
            law_hex_is_injective(left, right);
        }
    }
}

/// A run never prints more records than were asked for.
pub proof fn law_run_prints_no_more_than_asked(
    listing: Seq<PrintedView>,
    limit: u64,
    printed: u64,
)
    requires
        printed <= limit,
    ensures
        printed + within_room(listing, room(Some(limit), printed)).len() <= limit,
        printed + listing.len() >= limit ==> printed + within_room(
            listing,
            room(Some(limit), printed),
        ).len() == limit,
{
}

/// An entry is printed whole where no limit is set, and its records stand in the
/// order in which they were committed.
pub proof fn law_unbounded_run_prints_everything(listing: Seq<PrintedView>, printed: u64)
    ensures
        within_room(listing, room(None, printed)) == listing,
{
}

/// Entries are one stream: reading one after another, across cutovers too, prints what
/// reading their records as one listing would, each record once and in order.
pub proof fn law_entries_print_as_one_stream(
    first: Seq<PrintedView>,
    second: Seq<PrintedView>,
    until: Option<u64>,
    printed: u64,
)
    requires
        printed + first.len() + second.len() <= u64::MAX,
    ensures
        ({
            let head = within_room(first, room(until, printed));
            let after = (printed + head.len()) as u64;
            within_room(first + second, room(until, printed)) == head + within_room(
                second,
                room(until, after),
            )
        }),
{
    let head = within_room(first, room(until, printed));
    let after = (printed + head.len()) as u64;
    let tail = within_room(second, room(until, after));
    assert(within_room(first + second, room(until, printed)) =~= head + tail);
}

} // verus!
