//! A load/failover driver for producers.
//!
//! A lab instrument, not a product surface. It reports throughput alongside the
//! correctness evidence, so a run answers "did anything get lost" and "how fast was
//! it" from the same records. Sending, timing and the arithmetic on times happen
//! outside; this module holds what is sent and what the acknowledgements show.
use crate::numbers::{
    in_order, law_padded_is_injective, lemma_in_order, padded, push_padded, sort,
};
use crate::text::{
    after_prefix, chars_of, decimal, first_word, lemma_word_end, parse_number, parsed_number,
    push_decimal, same_text, strip_prefix, take_word, trimmed_start,
};
use vstd::prelude::*;
use vstd::utf8::encode_utf8;

verus! {

/// Options for one lab run.
#[derive(Debug, PartialEq, Eq)]
pub struct LabOptions {
    pub canon: String,
    pub verse: String,
    pub workers: usize,
    pub per_worker: u64,
    pub payload_bytes: usize,
    pub records_per_submission: usize,
}

/// The first line of a run.
pub fn lab_banner(options: &LabOptions) -> (line: String)
    ensures
        line@ == "scripture produce-lab: canon="@ + options.canon@ + " verse="@ + options.verse@
            + " workers="@ + decimal(options.workers as nat) + " per_worker="@ + decimal(
            options.per_worker as nat,
        ) + " payload_bytes="@ + decimal(options.payload_bytes as nat),
{
    let mut line = String::new();
    line.append("scripture produce-lab: canon=");
    line.append(options.canon.as_str());
    line.append(" verse=");
    line.append(options.verse.as_str());
    line.append(" workers=");
    push_decimal(&mut line, options.workers as u64);
    line.append(" per_worker=");
    push_decimal(&mut line, options.per_worker);
    line.append(" payload_bytes=");
    push_decimal(&mut line, options.payload_bytes as u64);
    assert(line@ =~= "scripture produce-lab: canon="@ + options.canon@ + " verse="@
        + options.verse@ + " workers="@ + decimal(options.workers as nat) + " per_worker="@
        + decimal(options.per_worker as nat) + " payload_bytes="@ + decimal(
        options.payload_bytes as nat,
    ));
    line
}

// Object-store counters.

/// Object-store request counts scraped from a Scribe's `/status`.
#[derive(Debug, Clone, Copy, PartialEq, Eq, Structural)]
pub struct StoreCounters {
    pub data_puts: u64,
    pub data_gets: u64,
    pub authority_puts: u64,
    pub authority_gets: u64,
}

impl Default for StoreCounters {
    fn default() -> (counters: Self)
        ensures
            counters.sum() == 0,
    {
        StoreCounters { data_puts: 0, data_gets: 0, authority_puts: 0, authority_gets: 0 }
    }
}

/// What is left of a count after another, never less than nothing.
pub open spec fn beyond(after: u64, before: u64) -> u64 {
    if after >= before {
        (after - before) as u64
    } else {
        0
    }
}

impl StoreCounters {
    /// All requests together.
    pub open spec fn sum(&self) -> int {
        self.data_puts + self.data_gets + self.authority_puts + self.authority_gets
    }

    /// All requests together; they must fit in a count.
    pub fn total(&self) -> (total: u64)
        requires
            self.sum() <= u64::MAX,
        ensures
            total == self.sum(),
    {
        self.data_puts + self.data_gets + self.authority_puts + self.authority_gets
    }

    /// The requests since earlier counts.
    pub fn delta(self, before: StoreCounters) -> (delta: StoreCounters)
        ensures
            delta == (StoreCounters {
                data_puts: beyond(self.data_puts, before.data_puts),
                data_gets: beyond(self.data_gets, before.data_gets),
                authority_puts: beyond(self.authority_puts, before.authority_puts),
                authority_gets: beyond(self.authority_gets, before.authority_gets),
            }),
    {
        StoreCounters {
            data_puts: self.data_puts.saturating_sub(before.data_puts),
            data_gets: self.data_gets.saturating_sub(before.data_gets),
            authority_puts: self.authority_puts.saturating_sub(before.authority_puts),
            authority_gets: self.authority_gets.saturating_sub(before.authority_gets),
        }
    }
}

/// The number that a word gives for a key, if it starts with the key and a number is
/// all that follows.
pub open spec fn word_field(word: Seq<char>, key: Seq<char>) -> Option<nat> {
    match after_prefix(word, key) {
        Some(rest) => parsed_number(rest, u64::MAX as nat),
        None => None,
    }
}

/// The number that the first word with one gives for a key; nothing counts as zero.
pub open spec fn status_field(body: Seq<char>, key: Seq<char>) -> nat
    decreases body.len(),
{
    let start = trimmed_start(body);
    if start.len() == 0 {
        0
    } else {
        let (word, rest) = first_word(body);
        match word_field(word, key) {
            Some(number) => number,
            None => {
                proof {
                    lemma_word_taken(body);
                }
                status_field(rest, key)
            },
        }
    }
}

proof fn lemma_trimmed_start(text: Seq<char>)
    ensures
        trimmed_start(text).len() <= text.len(),
        trimmed_start(text).len() > 0 ==> !crate::text::is_space(trimmed_start(text)[0]),
    decreases text.len(),
{
    if text.len() > 0 && crate::text::is_space(text[0]) {
        lemma_trimmed_start(text.skip(1));
    }
}

/// Taking a word leaves less.
pub proof fn lemma_word_taken(body: Seq<char>)
    requires
        trimmed_start(body).len() > 0,
    ensures
        first_word(body).1.len() < body.len(),
{
    lemma_trimmed_start(body);
    lemma_word_end(trimmed_start(body));
}

fn read_field(body: &[char], key: &str) -> (number: u64)
    ensures
        number == status_field(body@, key@),
{
    let mut rest = body;
    loop
        invariant
            status_field(rest@, key@) == status_field(body@, key@),
        decreases rest@.len(),
    {
        let start = crate::text::trim_start(rest);
        if start.len() == 0 {
            return 0;
        }
        let (word, after) = take_word(rest);
        proof {
            lemma_word_taken(rest@);
        }
        if let Some(digits) = strip_prefix(word, key) {
            if let Some(number) = parse_number(digits, u64::MAX) {
                return number;
            }
        }
        rest = after;
    }
}

/// The counters that a status body gives.
pub fn counters_from_status(body: &str) -> (counters: StoreCounters)
    ensures
        counters.data_puts == status_field(body@, "store_puts="@),
        counters.data_gets == status_field(body@, "store_gets="@),
        counters.authority_puts == status_field(body@, "authority_puts="@),
        counters.authority_gets == status_field(body@, "authority_gets="@),
{
    let chars = chars_of(body);
    StoreCounters {
        data_puts: read_field(chars.as_slice(), "store_puts="),
        data_gets: read_field(chars.as_slice(), "store_gets="),
        authority_puts: read_field(chars.as_slice(), "authority_puts="),
        authority_gets: read_field(chars.as_slice(), "authority_gets="),
    }
}

// Payloads.

/// The text that attributes a record to its worker and place.
pub open spec fn payload_label(worker: nat, seq: nat) -> Seq<char> {
    "w"@ + padded(worker, 3) + "-s"@ + padded(seq, 8) + "-"@
}

/// Bytes filled up to a length with `x`; longer ones stay.
pub open spec fn filled_up(bytes: Seq<u8>, length: nat) -> Seq<u8> {
    if bytes.len() >= length {
        bytes
    } else {
        bytes + Seq::new((length - bytes.len()) as nat, |i: int| 120u8)
    }
}

/// Fills bytes up to a length with `x`.
pub fn fill_up(bytes: &[u8], length: usize) -> (filled: Vec<u8>)
    ensures
        filled@ == filled_up(bytes@, length as nat),
{
    let mut filled: Vec<u8> = Vec::new();
    let mut at: usize = 0;
    while at < bytes.len()
        invariant
            at <= bytes@.len(),
            filled@ == bytes@.take(at as int),
        decreases bytes@.len() - at,
    {
        filled.push(bytes[at]);
        assert(bytes@.take(at + 1) =~= bytes@.take(at as int).push(bytes@[at as int]));
        at += 1;
    }
    assert(bytes@.take(at as int) =~= bytes@);
    while filled.len() < length
        invariant
            bytes@.len() <= filled@.len(),
            filled@.len() <= length || filled@.len() == bytes@.len(),
            filled@ == bytes@ + Seq::new((filled@.len() - bytes@.len()) as nat, |i: int| 120u8),
        decreases length - filled@.len(),
    {
        let ghost before = filled@;
        filled.push(120u8);
        assert(filled@ =~= bytes@ + Seq::new(
            (filled@.len() - bytes@.len()) as nat,
            |i: int| 120u8,
        ));
    }
    assert(filled@ =~= filled_up(bytes@, length as nat));
    filled
}

/// The payload of a worker's record: it names worker and place, so that a readback
/// can attribute every record, and is filled up to the requested size.
pub fn lab_payload(worker: usize, seq: u64, payload_bytes: usize) -> (payload: Vec<u8>)
    ensures
        payload@ == filled_up(
            encode_utf8(payload_label(worker as nat, seq as nat)),
            payload_bytes as nat,
        ),
{
    let mut label = String::new();
    label.append("w");
    push_padded(&mut label, worker as u64, 3);
    label.append("-s");
    push_padded(&mut label, seq, 8);
    label.append("-");
    assert(label@ =~= payload_label(worker as nat, seq as nat));
    fill_up(label.as_str().as_bytes(), payload_bytes)
}

// Evidence.

/// One committed record, kept so the run can be audited after the fact.
#[derive(Debug, PartialEq, Eq)]
pub struct AckSample {
    pub worker: usize,
    pub seq: u64,
    pub first_offset: u64,
    pub endpoint: String,
}

impl LabOptions {
    /// How many records a worker submits together once it has submitted as many as `seq`:
    /// a full batch, or what is left.
    pub open spec fn batch(&self, seq: u64) -> int {
        let full: int = if self.records_per_submission == 0 {
            1
        } else {
            self.records_per_submission as int
        };
        if full < self.per_worker - seq {
            full
        } else {
            self.per_worker - seq
        }
    }

    /// The payloads that a worker submits together once it has submitted as many as `seq`;
    /// none where that is all of them.
    pub fn next_batch(&self, worker: usize, seq: u64) -> (payloads: Option<Vec<Vec<u8>>>)
        ensures
            payloads is None <==> seq >= self.per_worker,
            payloads matches Some(payloads) ==> {
                &&& payloads@.len() == self.batch(seq)
                &&& 1 <= self.batch(seq) <= self.per_worker - seq
                &&& forall|i: int|
                    0 <= i < payloads@.len() ==> (#[trigger] payloads@[i])@ == filled_up(
                        encode_utf8(payload_label(worker as nat, (seq + i) as nat)),
                        self.payload_bytes as nat,
                    )
            },
    {
        if seq >= self.per_worker {
            return None;
        }
        let full: u64 = if self.records_per_submission == 0 {
            1
        } else {
            self.records_per_submission as u64
        };
        let left: u64 = self.per_worker - seq;
        let count: u64 = if full < left {
            full
        } else {
            left
        };
        let mut payloads: Vec<Vec<u8>> = Vec::new();
        let mut place: u64 = 0;
        while place < count
            invariant
                place <= count,
                seq + count <= u64::MAX,
                payloads@.len() == place,
                forall|i: int|
                    0 <= i < place ==> (#[trigger] payloads@[i])@ == filled_up(
                        encode_utf8(payload_label(worker as nat, (seq + i) as nat)),
                        self.payload_bytes as nat,
                    ),
            decreases count - place,
        {
            payloads.push(lab_payload(worker, seq + place, self.payload_bytes));
            place += 1;
        }
        Some(payloads)
    }
}

/// The offset of a record some places after the first of its submission; offsets end at the
/// greatest count.
pub open spec fn offset_at(first_offset: u64, place: int) -> u64 {
    if first_offset + place > u64::MAX {
        u64::MAX
    } else {
        (first_offset + place) as u64
    }
}

/// The records of a committed submission of a worker: they take consecutive offsets.
pub fn batch_samples(
    worker: usize,
    seq: u64,
    count: usize,
    first_offset: u64,
    endpoint: &str,
) -> (samples: Vec<AckSample>)
    requires
        seq + count <= u64::MAX,
    ensures
        samples@.len() == count,
        forall|i: int|
            0 <= i < count ==> {
                &&& (#[trigger] samples@[i]).worker == worker
                &&& samples@[i].seq == seq + i
                &&& samples@[i].first_offset == offset_at(first_offset, i)
                &&& samples@[i].endpoint@ == endpoint@
            },
{
    let mut samples: Vec<AckSample> = Vec::new();
    let mut place: usize = 0;
    while place < count
        invariant
            place <= count,
            seq + count <= u64::MAX,
            samples@.len() == place,
            forall|i: int|
                0 <= i < place ==> {
                    &&& (#[trigger] samples@[i]).worker == worker
                    &&& samples@[i].seq == seq + i
                    &&& samples@[i].first_offset == offset_at(first_offset, i)
                    &&& samples@[i].endpoint@ == endpoint@
                },
        decreases count - place,
    {
        samples.push(
            AckSample {
                worker,
                seq: seq + place as u64,
                first_offset: first_offset.saturating_add(place as u64),
                endpoint: endpoint.to_owned(),
            },
        );
        place += 1;
    }
    samples
}

/// What is said of a submission that failed.
pub fn send_failure(worker: usize, seq: u64, error: &str) -> (line: String)
    ensures
        line@ == "w"@ + decimal(worker as nat) + " seq="@ + decimal(seq as nat) + ": "@ + error@,
{
    let mut line = String::new();
    line.append("w");
    push_decimal(&mut line, worker as u64);
    line.append(" seq=");
    push_decimal(&mut line, seq);
    line.append(": ");
    line.append(error);
    assert(line@ =~= "w"@ + decimal(worker as nat) + " seq="@ + decimal(seq as nat) + ": "@
        + error@);
    line
}

/// The line of counts.
pub open spec fn counts_words(options: LabOptions, committed: nat, failed: nat) -> Seq<char> {
    "requested="@ + decimal((options.workers * options.per_worker) as nat) + " committed="@
        + decimal(committed) + " failed="@ + decimal(failed)
}

/// How many records were asked for, committed and failed. What was asked for must fit
/// in a count.
pub fn counts_line(options: &LabOptions, committed: usize, failed: usize) -> (line: String)
    requires
        options.workers * options.per_worker <= u64::MAX,
    ensures
        line@ == counts_words(*options, committed as nat, failed as nat),
{
    let mut line = String::new();
    line.append("requested=");
    push_decimal(&mut line, options.workers as u64 * options.per_worker);
    line.append(" committed=");
    push_decimal(&mut line, committed as u64);
    line.append(" failed=");
    push_decimal(&mut line, failed as u64);
    assert(line@ =~= counts_words(*options, committed as nat, failed as nat));
    line
}

/// The offsets of acknowledgements.
pub open spec fn offsets_of(acks: Seq<AckSample>) -> Seq<u64> {
    acks.map_values(|ack: AckSample| ack.first_offset)
}

/// How often an offset follows itself.
pub open spec fn repeats(offsets: Seq<u64>) -> nat
    decreases offsets.len(),
{
    if offsets.len() < 2 {
        0
    } else {
        repeats(offsets.drop_last()) + (if offsets[offsets.len() - 2] == offsets.last() {
            1nat
        } else {
            0nat
        })
    }
}

/// The pairs of neighbours between which offsets are missing.
pub open spec fn gaps(offsets: Seq<u64>) -> Seq<(u64, u64)>
    decreases offsets.len(),
{
    if offsets.len() < 2 {
        Seq::empty()
    } else {
        let before = gaps(offsets.drop_last());
        let left = offsets[offsets.len() - 2];
        let right = offsets.last();
        if right > left + 1 {
            before.push((left, right))
        } else {
            before
        }
    }
}

/// The lines of some gaps.
pub open spec fn gap_lines(gaps: Seq<(u64, u64)>) -> Seq<char>
    decreases gaps.len(),
{
    if gaps.len() == 0 {
        Seq::empty()
    } else {
        gap_lines(gaps.drop_last()) + ("  gap after "@ + decimal(gaps.last().0 as nat) + " -> "@
            + decimal(gaps.last().1 as nat) + "\n"@)
    }
}

/// At most so many of a sequence.
pub open spec fn first_few<T>(items: Seq<T>, most: nat) -> Seq<T> {
    if items.len() <= most {
        items
    } else {
        items.take(most as int)
    }
}

/// The note on gaps.
pub const GAP_NOTE: &'static str = "  note: a gap in ACKED offsets is not necessarily loss. A record the writer\n  committed but could not acknowledge before dying leaves its offset\n  allocated and unacknowledged; the client retries and the payload lands\n  twice. Confirm against the sealed tail before calling it loss.\n";

/// What sorted offsets show.
pub open spec fn correctness_words(offsets: Seq<u64>) -> Seq<char> {
    let missing = gaps(offsets);
    "\n=== correctness evidence ===\n"@ + "duplicate_offsets="@ + decimal(repeats(offsets)) + "\n"@
        + (if offsets.len() == 0 {
        Seq::empty()
    } else {
        "offset_range="@ + decimal(offsets[0] as nat) + ".."@ + decimal(offsets.last() as nat)
            + " contiguous="@ + (if missing.len() == 0 {
            "true"@
        } else {
            "false"@
        }) + " gap_count="@ + decimal(missing.len()) + "\n"@ + gap_lines(first_few(missing, 5))
            + (if missing.len() == 0 {
            Seq::empty()
        } else {
            GAP_NOTE@
        })
    })
}

fn count_repeats(offsets: &Vec<u64>) -> (count: u64)
    ensures
        count == repeats(offsets@),
{
    let mut count: u64 = 0;
    if offsets.len() < 2 {
        return count;
    }
    let mut at: usize = 1;
    while at < offsets.len()
        invariant
            1 <= at <= offsets@.len(),
            count == repeats(offsets@.take(at as int)),
            count <= at,
        decreases offsets@.len() - at,
    {
        assert(offsets@.take(at + 1).drop_last() =~= offsets@.take(at as int));
        if offsets[at - 1] == offsets[at] {
            count += 1;
        }
        at += 1;
    }
    assert(offsets@.take(at as int) =~= offsets@);
    count
}

fn find_gaps(offsets: &Vec<u64>) -> (found: Vec<(u64, u64)>)
    ensures
        found@ == gaps(offsets@),
{
    let mut found: Vec<(u64, u64)> = Vec::new();
    if offsets.len() < 2 {
        return found;
    }
    let mut at: usize = 1;
    while at < offsets.len()
        invariant
            1 <= at <= offsets@.len(),
            found@ == gaps(offsets@.take(at as int)),
        decreases offsets@.len() - at,
    {
        assert(offsets@.take(at + 1).drop_last() =~= offsets@.take(at as int));
        let left: u64 = offsets[at - 1];
        let right: u64 = offsets[at];
        if right > left && right - left > 1 {
            found.push((left, right));
        }
        at += 1;
    }
    assert(offsets@.take(at as int) =~= offsets@);
    found
}

/// The offsets of acknowledgements in ascending order.
pub fn sorted_offsets(acks: &Vec<AckSample>) -> (offsets: Vec<u64>)
    ensures
        offsets@ == in_order(offsets_of(acks@)),
{
    let mut offsets: Vec<u64> = Vec::new();
    let mut at: usize = 0;
    while at < acks.len()
        invariant
            at <= acks@.len(),
            offsets@ == offsets_of(acks@).take(at as int),
        decreases acks@.len() - at,
    {
        offsets.push(acks[at].first_offset);
        assert(offsets_of(acks@).take(at + 1) =~= offsets_of(acks@).take(at as int).push(
            acks@[at as int].first_offset,
        ));
        at += 1;
    }
    assert(offsets_of(acks@).take(at as int) =~= offsets_of(acks@));
    sort(offsets)
}

/// Correctness evidence. Offsets are the log's own opinion of what it accepted, so
/// duplicates or gaps here are stronger than any client count.
pub fn correctness_section(acks: &Vec<AckSample>) -> (text: String)
    ensures
        text@ == correctness_words(in_order(offsets_of(acks@))),
{
    let offsets = sorted_offsets(acks);
    let missing = find_gaps(&offsets);
    let mut text = String::new();
    text.append("\n=== correctness evidence ===\n");
    text.append("duplicate_offsets=");
    push_decimal(&mut text, count_repeats(&offsets));
    text.append("\n");
    if offsets.len() > 0 {
        text.append("offset_range=");
        push_decimal(&mut text, offsets[0]);
        text.append("..");
        push_decimal(&mut text, offsets[offsets.len() - 1]);
        text.append(" contiguous=");
        if missing.len() == 0 {
            text.append("true");
        } else {
            text.append("false");
        }
        text.append(" gap_count=");
        push_decimal(&mut text, missing.len() as u64);
        text.append("\n");
        let ghost head = text@;
        let shown: usize = if missing.len() < 5 {
            missing.len()
        } else {
            5
        };
        let ghost few = first_few(missing@, 5);
        assert(few =~= missing@.take(shown as int));
        let mut at: usize = 0;
        assert(text@ =~= head + gap_lines(few.take(0)));
        while at < shown
            invariant
                at <= shown <= missing@.len(),
                few == missing@.take(shown as int),
                text@ == head + gap_lines(few.take(at as int)),
            decreases shown - at,
        {
            text.append("  gap after ");
            push_decimal(&mut text, missing[at].0);
            text.append(" -> ");
            push_decimal(&mut text, missing[at].1);
            text.append("\n");
            proof {
                assert(few.take(at + 1).drop_last() =~= few.take(at as int));
                assert(few.take(at + 1).last() == missing@[at as int]);
                assert(text@ =~= head + gap_lines(few.take(at + 1)));
            }
            at += 1;
        }
        assert(few.take(at as int) =~= few);
        if missing.len() > 0 {
            text.append(GAP_NOTE);
        }
    }
    assert(text@ =~= correctness_words(offsets@));
    text
}

// Endpoints.

/// The endpoints of acknowledgements in the order in which they first appear, each
/// with how often it does.
pub open spec fn attributed(acks: Seq<AckSample>) -> Seq<(Seq<char>, nat)>
    decreases acks.len(),
{
    if acks.len() == 0 {
        Seq::empty()
    } else {
        credited(attributed(acks.drop_last()), acks.last().endpoint@)
    }
}

/// One more for an endpoint.
pub open spec fn credited(counts: Seq<(Seq<char>, nat)>, endpoint: Seq<char>) -> Seq<
    (Seq<char>, nat),
>
    decreases counts.len(),
{
    if counts.len() == 0 {
        seq![(endpoint, 1nat)]
    } else if counts[0].0 == endpoint {
        counts.update(0, (endpoint, counts[0].1 + 1))
    } else {
        seq![counts[0]] + credited(counts.skip(1), endpoint)
    }
}

/// Counted endpoints by their views.
pub open spec fn counts_view(counts: Seq<(String, u64)>) -> Seq<(Seq<char>, nat)> {
    counts.map_values(|count: (String, u64)| (count.0@, count.1 as nat))
}

/// One more counts for the first place of its endpoint, or opens one.
pub proof fn lemma_credited(counts: Seq<(Seq<char>, nat)>, endpoint: Seq<char>, at: int)
    requires
        0 <= at <= counts.len(),
        forall|i: int| 0 <= i < at ==> (#[trigger] counts[i]).0 != endpoint,
    ensures
        at < counts.len() && counts[at].0 == endpoint ==> credited(counts, endpoint)
            == counts.update(at, (endpoint, counts[at].1 + 1)),
        at == counts.len() ==> credited(counts, endpoint) == counts.push((endpoint, 1nat)),
    decreases counts.len(),
{
    if at == 0 {
        if counts.len() == 0 {
            assert(credited(counts, endpoint) =~= counts.push((endpoint, 1nat)));
        }
    } else {
        let rest = counts.skip(1);
        assert(counts[0].0 != endpoint);
        assert forall|i: int| 0 <= i < at - 1 implies (#[trigger] rest[i]).0 != endpoint by {
            assert(rest[i] == counts[i + 1]);
        }
        lemma_credited(rest, endpoint, at - 1);
        if at < counts.len() && counts[at].0 == endpoint {
            assert(rest[at - 1] == counts[at]);
            assert(credited(counts, endpoint) =~= counts.update(
                at,
                (endpoint, counts[at].1 + 1),
            ));
        }
        if at == counts.len() {
            assert(credited(counts, endpoint) =~= counts.push((endpoint, 1nat)));
        }
    }
}

/// The endpoints of acknowledgements with how often each appears.
pub fn attribute(acks: &Vec<AckSample>) -> (counts: Vec<(String, u64)>)
    ensures
        counts_view(counts@) == attributed(acks@),
{
    let mut counts: Vec<(String, u64)> = Vec::new();
    let mut at: usize = 0;
    assert(counts_view(counts@) =~= attributed(acks@.take(0)));
    while at < acks.len()
        invariant
            at <= acks@.len(),
            counts_view(counts@) == attributed(acks@.take(at as int)),
            forall|i: int| 0 <= i < counts@.len() ==> (#[trigger] counts@[i]).1 <= at,
        decreases acks@.len() - at,
    {
        let endpoint = acks[at].endpoint.as_str();
        let ghost before = counts_view(counts@);
        assert(acks@.take(at + 1).drop_last() =~= acks@.take(at as int));
        assert(acks@.take(at + 1).last() == acks@[at as int]);
        let mut place: usize = 0;
        while place < counts.len() && !same_text(counts[place].0.as_str(), endpoint)
            invariant
                place <= counts@.len(),
                forall|i: int| 0 <= i < place ==> (#[trigger] counts@[i]).0@ != endpoint@,
            ensures
                place <= counts@.len(),
                forall|i: int| 0 <= i < place ==> (#[trigger] counts@[i]).0@ != endpoint@,
                place < counts@.len() ==> counts@[place as int].0@ == endpoint@,
            decreases counts@.len() - place,
        {
            place += 1;
        }
        proof {
            assert forall|i: int| 0 <= i < place implies (#[trigger] before[i]).0
                != endpoint@ by {
                assert(counts@[i].0@ != endpoint@);
            }
            lemma_credited(before, endpoint@, place as int);
        }
        if place < counts.len() {
            let ghost old_counts = counts@;
            let more: u64 = counts[place].1 + 1;
            counts.set(place, (endpoint.to_owned(), more));
            proof {
                assert(before[place as int] == (endpoint@, (more - 1) as nat));
                assert(counts_view(counts@) =~= before.update(
                    place as int,
                    (endpoint@, more as nat),
                ));
            }
        } else {
            counts.push((endpoint.to_owned(), 1));
            assert(counts_view(counts@) =~= before.push((endpoint@, 1nat)));
        }
        at += 1;
    }
    assert(acks@.take(at as int) =~= acks@);
    counts
}

/// The lines of counted endpoints.
pub open spec fn endpoint_lines(counts: Seq<(Seq<char>, nat)>) -> Seq<char>
    decreases counts.len(),
{
    if counts.len() == 0 {
        Seq::empty()
    } else {
        endpoint_lines(counts.drop_last()) + ("  "@ + counts.last().0 + ": "@ + decimal(
            counts.last().1,
        ) + " committed\n"@)
    }
}

/// Which endpoints served a run.
pub open spec fn attribution_words(counts: Seq<(Seq<char>, nat)>) -> Seq<char> {
    "\n=== endpoint attribution ===\n"@ + endpoint_lines(counts) + (if counts.len() > 1 {
        "  (more than one endpoint served this run — a failover occurred)\n"@
    } else {
        Seq::empty()
    })
}

/// Which endpoints served a run: shows whether a failover actually happened.
pub fn attribution_section(acks: &Vec<AckSample>) -> (text: String)
    ensures
        text@ == attribution_words(attributed(acks@)),
{
    let counts = attribute(acks);
    let ghost view = counts_view(counts@);
    let mut text = String::new();
    text.append("\n=== endpoint attribution ===\n");
    let ghost head = text@;
    let mut at: usize = 0;
    assert(text@ =~= head + endpoint_lines(view.take(0)));
    while at < counts.len()
        invariant
            at <= counts@.len(),
            view == counts_view(counts@),
            text@ == head + endpoint_lines(view.take(at as int)),
        decreases counts@.len() - at,
    {
        text.append("  ");
        text.append(counts[at].0.as_str());
        text.append(": ");
        push_decimal(&mut text, counts[at].1);
        text.append(" committed\n");
        proof {
            assert(view.take(at + 1).drop_last() =~= view.take(at as int));
            assert(text@ =~= head + endpoint_lines(view.take(at + 1)));
        }
        at += 1;
    }
    assert(view.take(at as int) =~= view);
    if counts.len() > 1 {
        text.append("  (more than one endpoint served this run — a failover occurred)\n");
    }
    assert(text@ =~= attribution_words(view));
    text
}

// Failures and workers.

/// The lines of some failures.
pub open spec fn failure_lines(failures: Seq<String>) -> Seq<char>
    decreases failures.len(),
{
    if failures.len() == 0 {
        Seq::empty()
    } else {
        failure_lines(failures.drop_last()) + ("  "@ + failures.last()@ + "\n"@)
    }
}

/// The failures of a run: how many, and the first of them.
pub open spec fn failure_words(failures: Seq<String>) -> Seq<char> {
    if failures.len() == 0 {
        Seq::empty()
    } else {
        "\n=== failures ("@ + decimal(failures.len()) + ") ===\n"@ + failure_lines(
            first_few(failures, 10),
        )
    }
}

/// The failures of a run: how many, and the first of them.
pub fn failure_section(failures: &Vec<String>) -> (text: String)
    ensures
        text@ == failure_words(failures@),
{
    let mut text = String::new();
    if failures.len() > 0 {
        text.append("\n=== failures (");
        push_decimal(&mut text, failures.len() as u64);
        text.append(") ===\n");
        let ghost head = text@;
        let shown: usize = if failures.len() < 10 {
            failures.len()
        } else {
            10
        };
        let ghost few = first_few(failures@, 10);
        assert(few =~= failures@.take(shown as int));
        let mut at: usize = 0;
        assert(text@ =~= head + failure_lines(few.take(0)));
        while at < shown
            invariant
                at <= shown <= failures@.len(),
                few == failures@.take(shown as int),
                text@ == head + failure_lines(few.take(at as int)),
            decreases shown - at,
        {
            text.append("  ");
            text.append(failures[at].as_str());
            text.append("\n");
            proof {
                assert(few.take(at + 1).drop_last() =~= few.take(at as int));
                assert(few.take(at + 1).last() == failures@[at as int]);
                assert(text@ =~= head + failure_lines(few.take(at + 1)));
            }
            at += 1;
        }
        assert(few.take(at as int) =~= few);
    }
    assert(text@ =~= failure_words(failures@));
    text
}

/// How many records of a worker were committed, and the highest place among them.
pub open spec fn worker_progress(acks: Seq<AckSample>, worker: nat) -> (nat, Option<u64>)
    decreases acks.len(),
{
    if acks.len() == 0 {
        (0, None)
    } else {
        let (count, highest) = worker_progress(acks.drop_last(), worker);
        let last = acks.last();
        if last.worker as nat != worker {
            (count, highest)
        } else {
            (
                count + 1,
                match highest {
                    Some(seq) if seq >= last.seq => Some(seq),
                    _ => Some(last.seq),
                },
            )
        }
    }
}

fn progress_of(acks: &Vec<AckSample>, worker: usize) -> (progress: (u64, Option<u64>))
    ensures
        progress.0 == worker_progress(acks@, worker as nat).0,
        progress.1 == worker_progress(acks@, worker as nat).1,
{
    let mut count: u64 = 0;
    let mut highest: Option<u64> = None;
    let mut at: usize = 0;
    while at < acks.len()
        invariant
            at <= acks@.len(),
            count == worker_progress(acks@.take(at as int), worker as nat).0,
            highest == worker_progress(acks@.take(at as int), worker as nat).1,
            count <= at,
        decreases acks@.len() - at,
    {
        assert(acks@.take(at + 1).drop_last() =~= acks@.take(at as int));
        let ack = &acks[at];
        if ack.worker == worker {
            count += 1;
            highest =
            match highest {
                Some(seq) => if seq >= ack.seq {
                    Some(seq)
                } else {
                    Some(ack.seq)
                },
                None => Some(ack.seq),
            };
        }
        at += 1;
    }
    assert(acks@.take(at as int) =~= acks@);
    (count, highest)
}

/// The line of a worker.
pub open spec fn worker_line(acks: Seq<AckSample>, worker: nat, per_worker: u64) -> Seq<char> {
    let (count, highest) = worker_progress(acks, worker);
    "  worker "@ + decimal(worker) + ": committed="@ + decimal(count) + "/"@ + decimal(
        per_worker as nat,
    ) + " highest_seq="@ + highest_words(highest) + "\n"@
}

/// The lines of the first workers.
pub open spec fn worker_lines(acks: Seq<AckSample>, workers: nat, per_worker: u64) -> Seq<char>
    decreases workers,
{
    if workers == 0 {
        Seq::empty()
    } else {
        worker_lines(acks, (workers - 1) as nat, per_worker) + worker_line(
            acks,
            (workers - 1) as nat,
            per_worker,
        )
    }
}

/// The highest place, as it is shown.
pub open spec fn highest_words(highest: Option<u64>) -> Seq<char> {
    match highest {
        Some(seq) => "Some("@ + decimal(seq as nat) + ")"@,
        None => "None"@,
    }
}

fn push_worker_line(text: &mut String, acks: &Vec<AckSample>, worker: usize, per_worker: u64)
    ensures
        final(text)@ == old(text)@ + worker_line(acks@, worker as nat, per_worker),
{
    let ghost before = text@;
    let (count, highest) = progress_of(acks, worker);
    text.append("  worker ");
    push_decimal(text, worker as u64);
    text.append(": committed=");
    push_decimal(text, count);
    text.append("/");
    push_decimal(text, per_worker);
    text.append(" highest_seq=");
    let ghost head = text@;
    match highest {
        Some(seq) => {
            text.append("Some(");
            push_decimal(text, seq);
            text.append(")");
        },
        None => {
            text.append("None");
        },
    }
    assert(text@ =~= head + highest_words(highest));
    text.append("\n");
    assert(text@ =~= before + worker_line(acks@, worker as nat, per_worker));
}

/// Per-worker completeness: catches a worker that silently stopped early.
pub fn worker_section(acks: &Vec<AckSample>, options: &LabOptions) -> (text: String)
    ensures
        text@ == "\n=== per-worker ===\n"@ + worker_lines(
            acks@,
            options.workers as nat,
            options.per_worker,
        ),
{
    let mut text = String::new();
    text.append("\n=== per-worker ===\n");
    let ghost head = text@;
    let mut worker: usize = 0;
    assert(text@ =~= head + worker_lines(acks@, 0, options.per_worker));
    while worker < options.workers
        invariant
            worker <= options.workers,
            text@ == head + worker_lines(acks@, worker as nat, options.per_worker),
        decreases options.workers - worker,
    {
        push_worker_line(&mut text, acks, worker, options.per_worker);
        assert(text@ =~= head + worker_lines(acks@, (worker + 1) as nat, options.per_worker));
        worker += 1;
    }
    assert(head =~= "\n=== per-worker ===\n"@);
    text
}

// Laws.

/// Offsets that leave no gap and repeat nothing are the numbers from the first on.
pub proof fn law_no_gap_no_repeat_is_contiguous(offsets: Seq<u64>, at: int)
    requires
        forall|i: int, j: int|
            0 <= i <= j < offsets.len() ==> #[trigger] offsets[i] <= #[trigger] offsets[j],
        gaps(offsets).len() == 0,
        repeats(offsets) == 0,
        0 <= at < offsets.len(),
    ensures
        offsets[at] == offsets[0] + at,
    decreases offsets.len(),
{
    if offsets.len() >= 2 {
        let before = offsets.drop_last();
        assert forall|i: int, j: int| 0 <= i <= j < before.len() implies #[trigger] before[i]
            <= #[trigger] before[j] by {
            assert(offsets[i] <= offsets[j]);
        }
        assert(gaps(before).len() == 0);
        assert(repeats(before) == 0);
        let last = offsets.len() - 1;
        if at < last {
            law_no_gap_no_repeat_is_contiguous(before, at);
        } else {
            law_no_gap_no_repeat_is_contiguous(before, last - 1);
            assert(offsets[last - 1] <= offsets[last]);
        }
    }
}

/// Sorting loses no offset, so that duplicates and gaps are found whatever the order
/// of the acknowledgements.
pub proof fn law_evidence_ignores_the_order(acks: Seq<AckSample>)
    ensures
        in_order(offsets_of(acks)).to_multiset() == offsets_of(acks).to_multiset(),
        in_order(offsets_of(acks)).len() == acks.len(),
{
    lemma_in_order(offsets_of(acks));
}

proof fn lemma_label(worker: nat, seq: nat)
    ensures
        ({
            let label = payload_label(worker, seq);
            let bytes = encode_utf8(label);
            let dash = 1 + padded(worker, 3).len() as int;
            &&& bytes.len() == label.len()
            &&& forall|i: int| 0 <= i < label.len() ==> #[trigger] bytes[i] == label[i] as u8
            &&& forall|i: int| 0 <= i < label.len() ==> '-' <= #[trigger] label[i] <= 'z'
            &&& label.len() == dash + padded(seq, 8).len() + 3
            &&& forall|i: int| 1 <= i < dash ==> #[trigger] label[i] == padded(worker, 3)[i - 1]
            &&& label[dash] == '-'
            &&& forall|i: int|
                dash + 2 <= i < label.len() - 1 ==> #[trigger] label[i] == padded(seq, 8)[i - dash
                    - 2]
            &&& label.last() == '-'
        }),
{
    broadcast use vstd::utf8::is_ascii_chars_encode_utf8;

    reveal_strlit("w");
    reveal_strlit("-s");
    reveal_strlit("-");
    law_padded_is_injective(worker, worker, 3);
    law_padded_is_injective(seq, seq, 8);
    let label = payload_label(worker, seq);
    let dash = 1 + padded(worker, 3).len() as int;
    assert forall|i: int| 0 <= i < label.len() implies '-' <= #[trigger] label[i] <= 'z' by {
        if 1 <= i < dash {
            assert(label[i] == padded(worker, 3)[i - 1]);
        } else if dash + 2 <= i < label.len() - 1 {
            assert(label[i] == padded(seq, 8)[i - dash - 2]);
        }
    }
    assert(vstd::utf8::is_ascii_chars(label));
}

proof fn lemma_shorter_label_differs(left: (nat, nat), right: (nat, nat), length: nat)
    requires
        payload_label(left.0, left.1).len() <= payload_label(right.0, right.1).len(),
        filled_up(encode_utf8(payload_label(left.0, left.1)), length) == filled_up(
            encode_utf8(payload_label(right.0, right.1)),
            length,
        ),
    ensures
        left == right,
{
    let one = payload_label(left.0, left.1);
    let other = payload_label(right.0, right.1);
    let payload = filled_up(encode_utf8(one), length);
    lemma_label(left.0, left.1);
    lemma_label(right.0, right.1);
    law_padded_is_injective(left.0, right.0, 3);
    law_padded_is_injective(right.0, left.0, 3);
    law_padded_is_injective(left.1, right.1, 8);
    law_padded_is_injective(right.1, left.1, 8);
    assert forall|i: int| 0 <= i < one.len() implies one[i] == #[trigger] other[i] by {
        assert(encode_utf8(one)[i] == payload[i]);
        assert(encode_utf8(other)[i] == payload[i]);
        assert(one[i] as u8 == other[i] as u8);
        assert('-' <= one[i] <= 'z' && '-' <= other[i] <= 'z');
    }
    let dash = 1 + padded(left.0, 3).len() as int;
    let other_dash = 1 + padded(right.0, 3).len() as int;
    if dash < other_dash {
        assert(one[dash] == other[dash]);
        assert(other[dash] == padded(right.0, 3)[dash - 1]);
    } else if other_dash < dash {
        assert(one[other_dash] == other[other_dash]);
        assert(one[other_dash] == padded(left.0, 3)[other_dash - 1]);
    }
    assert(padded(left.0, 3) =~= padded(right.0, 3)) by {
        assert forall|i: int| 0 <= i < dash - 1 implies padded(left.0, 3)[i] == padded(
            right.0,
            3,
        )[i] by {
            assert(one[i + 1] == other[i + 1]);
        }
    }
    let end = one.len() - 1;
    assert(one[end] == other[end]);
    if end < other.len() - 1 {
        assert(other[end] == padded(right.1, 8)[end - dash - 2]);
    }
    assert(padded(left.1, 8) =~= padded(right.1, 8)) by {
        assert forall|i: int| 0 <= i < padded(left.1, 8).len() implies padded(left.1, 8)[i]
            == padded(right.1, 8)[i] by {
            assert(one[dash + 2 + i] == other[dash + 2 + i]);
        }
    }
}

/// A readback can attribute every record: no two workers and places have the same payload,
/// whatever the size.
pub proof fn law_payloads_differ(left: (nat, nat), right: (nat, nat), length: nat)
    ensures
        filled_up(encode_utf8(payload_label(left.0, left.1)), length) == filled_up(
            encode_utf8(payload_label(right.0, right.1)),
            length,
        ) <==> left == right,
{
    if filled_up(encode_utf8(payload_label(left.0, left.1)), length) == filled_up(
        encode_utf8(payload_label(right.0, right.1)),
        length,
    ) {
        if payload_label(left.0, left.1).len() <= payload_label(right.0, right.1).len() {
            lemma_shorter_label_differs(left, right, length);
        } else {
            lemma_shorter_label_differs(right, left, length);
        }
    }
}

} // verus!
