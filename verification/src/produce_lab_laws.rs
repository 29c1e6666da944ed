//! What holds of lab payloads, of their batches, and of the evidence that a run shows.
use crate::numbers::padded;
use crate::produce_lab::{
    attributed, batch_samples, counters_from_status, counts_line, lab_payload, payload_label, StoreCounters, attribution_words, beyond, correctness_words, counts_words, endpoint_lines, failure_lines, failure_words, filled_up, first_few, gap_lines, gaps,
    highest_words, lab_banner, lemma_credited, offset_at, repeats, send_failure, status_field,
    worker_line, worker_lines, worker_progress, AckSample, LabOptions, GAP_NOTE,
};
use crate::text::{after_prefix, decimal, is_space, trimmed_start};
use crate::text_laws::{
    all_space, differ_behind, framed, law_a_prefix_and_the_rest_are_the_text,
    law_a_word_is_read_whole, law_numbers_are_read_back, lemma_differ_first, lemma_differ_here,
    lemma_differ_then, lemma_differ_then_four, lemma_differ_then_two,
};
use vstd::prelude::*;
use vstd::utf8::encode_utf8;

verus! {

/// One more offset adds a gap exactly where it leaves out a number after the last, and a repeat
/// exactly where it is the last again.
pub proof fn law_the_next_offset_shows_its_gap(offsets: Seq<u64>, next: u64)
    requires
        offsets.len() > 0,
    ensures
        next > offsets.last() + 1 ==> gaps(offsets.push(next)) == gaps(offsets).push(
            (offsets.last(), next),
        ),
        next <= offsets.last() + 1 ==> gaps(offsets.push(next)) == gaps(offsets),
        repeats(offsets.push(next)) == repeats(offsets) + (if next == offsets.last() {
            1nat
        } else {
            0
        }),
        gaps(seq![next]).len() == 0,
        repeats(seq![next]) == 0,
{
    let more = offsets.push(next);
    assert(more.drop_last() =~= offsets);
    assert(more[more.len() - 2] == offsets.last());
}

/// Each gap, each endpoint, each failure and each worker has one line, in its order.
pub proof fn law_evidence_goes_line_by_line(
    missing: Seq<(u64, u64)>,
    gap: (u64, u64),
    counts: Seq<(Seq<char>, nat)>,
    count: (Seq<char>, nat),
    failures: Seq<String>,
    failure: String,
)
    ensures
        gap_lines(missing.push(gap)) == gap_lines(missing) + ("  gap after "@ + decimal(
            gap.0 as nat,
        ) + " -> "@ + decimal(gap.1 as nat) + "\n"@),
        endpoint_lines(counts.push(count)) == endpoint_lines(counts) + ("  "@ + count.0 + ": "@
            + decimal(count.1) + " committed\n"@),
        failure_lines(failures.push(failure)) == failure_lines(failures) + ("  "@ + failure@
            + "\n"@),
        gap_lines(Seq::empty()).len() == 0,
        endpoint_lines(Seq::empty()).len() == 0,
        failure_lines(Seq::empty()).len() == 0,
{
    assert(missing.push(gap).drop_last() =~= missing);
    assert(counts.push(count).drop_last() =~= counts);
    assert(failures.push(failure).drop_last() =~= failures);
}

/// The lines of more workers go on after those of the fewer, each with its own number.
pub proof fn law_workers_go_line_by_line(acks: Seq<AckSample>, workers: nat, per_worker: u64)
    ensures
        worker_lines(acks, workers + 1, per_worker) == worker_lines(acks, workers, per_worker)
            + worker_line(acks, workers, per_worker),
        worker_lines(acks, 0, per_worker).len() == 0,
{
}

/// At most so many are shown, and they are the first.
pub proof fn law_the_first_few_are_shown<T>(items: Seq<T>, most: nat)
    ensures
        items.len() <= most ==> first_few(items, most) == items,
        items.len() > most ==> first_few(items, most).len() == most,
        forall|i: int|
            0 <= i < first_few(items, most).len() ==> #[trigger] first_few(items, most)[i]
                == items[i],
{
}

/// An acknowledgement counts one more for its own worker, whose highest place it may raise, and
/// changes nothing for another.
pub proof fn law_acks_count_for_their_worker(acks: Seq<AckSample>, ack: AckSample, worker: nat)
    ensures
        ({
            let before = worker_progress(acks, worker);
            let after = worker_progress(acks.push(ack), worker);
            &&& ack.worker != worker ==> after == before
            &&& ack.worker == worker ==> after.0 == before.0 + 1 && after.1 is Some && after.1->0
                >= ack.seq && (before.1 is Some ==> after.1->0 >= before.1->0) && (after.1
                == Some(ack.seq) || after.1 == before.1)
        }),
        worker_progress(Seq::empty(), worker) == (0nat, None::<u64>),
{
    assert(acks.push(ack).drop_last() =~= acks);
}

/// An acknowledgement counts one more for its endpoint, which is listed, last, where it was not
/// before.
pub proof fn law_acks_count_for_their_endpoint(acks: Seq<AckSample>, ack: AckSample, at: int)
    requires
        0 <= at <= attributed(acks).len(),
        forall|i: int|
            0 <= i < at ==> (#[trigger] attributed(acks)[i]).0 != ack.endpoint@,
        at < attributed(acks).len() ==> attributed(acks)[at].0 == ack.endpoint@,
    ensures
        ({
            let before = attributed(acks);
            let after = attributed(acks.push(ack));
            &&& at < before.len() ==> after == before.update(
                at,
                (ack.endpoint@, before[at].1 + 1),
            )
            &&& at == before.len() ==> after == before.push((ack.endpoint@, 1nat))
        }),
        attributed(Seq::empty()).len() == 0,
{
    assert(acks.push(ack).drop_last() =~= acks);
    lemma_credited(attributed(acks), ack.endpoint@, at);
}

/// A run that more than one endpoint served says so, and no other does.
pub proof fn law_failovers_are_pointed_out(counts: Seq<(Seq<char>, nat)>)
    ensures
        ({
            let head = "\n=== endpoint attribution ===\n"@ + endpoint_lines(counts);
            &&& counts.len() > 1 ==> attribution_words(counts) == head
                + "  (more than one endpoint served this run — a failover occurred)\n"@
            &&& counts.len() <= 1 ==> attribution_words(counts) == head
        }),
{
    let head = "\n=== endpoint attribution ===\n"@ + endpoint_lines(counts);
    assert(head + Seq::<char>::empty() =~= head);
}

/// A status gives for a key what the first word says that is the key and a number; words that
/// say nothing of it are passed over, and a status without one gives zero.
pub proof fn law_the_first_number_of_a_key_counts(
    lead: Seq<char>,
    word: Seq<char>,
    rest: Seq<char>,
    key: Seq<char>,
    number: u64,
)
    requires
        all_space(lead),
        word.len() > 0,
        forall|i: int| 0 <= i < word.len() ==> !is_space(#[trigger] word[i]),
        rest.len() > 0 ==> is_space(rest[0]),
    ensures
        word == key + decimal(number as nat) ==> status_field(lead + word + rest, key) == number,
        after_prefix(word, key) is None ==> status_field(lead + word + rest, key) == status_field(
            rest,
            key,
        ),
        status_field(Seq::empty(), key) == 0,
{
    let body = lead + word + rest;
    law_a_word_is_read_whole(lead, word, rest);
    lemma_some_word(lead, word, rest);
    law_a_prefix_and_the_rest_are_the_text(word, key, decimal(number as nat));
    law_numbers_are_read_back(number as nat, u64::MAX as nat);
}

proof fn lemma_some_word(lead: Seq<char>, word: Seq<char>, rest: Seq<char>)
    requires
        all_space(lead),
        word.len() > 0,
        forall|i: int| 0 <= i < word.len() ==> !is_space(#[trigger] word[i]),
    ensures
        trimmed_start(lead + word + rest).len() > 0,
    decreases lead.len(),
{
    let text = lead + word + rest;
    if lead.len() > 0 {
        let less = lead.skip(1);
        assert forall|i: int| 0 <= i < less.len() implies is_space(#[trigger] less[i]) by {
            assert(less[i] == lead[i + 1]);
        }
        lemma_some_word(less, word, rest);
        assert(text.skip(1) =~= less + word + rest);
        assert(text[0] == lead[0]);
    } else {
        assert(text[0] == word[0]);
    }
}

/// A worker's batches are full while enough is left, then what is left; a size of zero is one.
pub proof fn law_batches_cover_what_is_left(options: LabOptions, seq: u64)
    requires
        seq < options.per_worker,
    ensures
        ({
            let batch = options.batch(seq);
            let full = options.records_per_submission as int;
            &&& 1 <= batch <= options.per_worker - seq
            &&& full >= 1 ==> batch <= full
            &&& full >= 1 && full <= options.per_worker - seq ==> batch == full
            &&& full > options.per_worker - seq ==> seq + batch == options.per_worker
            &&& full == 0 ==> batch == 1
        }),
{
}

/// The records of a submission take the offsets from its first on, and none beyond the greatest.
pub proof fn law_offsets_follow_the_first(first_offset: u64, place: int)
    requires
        0 <= place,
    ensures
        first_offset + place <= u64::MAX ==> offset_at(first_offset, place) == first_offset + place,
        first_offset + place > u64::MAX ==> offset_at(first_offset, place) == u64::MAX,
{
}

/// What is left beyond an earlier count gives, with it, the later one; counts that went back
/// leave nothing.
pub proof fn law_deltas_add_up(after: u64, before: u64)
    ensures
        before <= after ==> before + beyond(after, before) == after,
        before > after ==> beyond(after, before) == 0,
{
}

/// Filled-up bytes start with the bytes and have the length, where they are not longer already.
pub proof fn law_filling_up_keeps_the_start(bytes: Seq<u8>, length: nat)
    ensures
        ({
            let filled = filled_up(bytes, length);
            &&& filled.take(bytes.len() as int) == bytes
            &&& bytes.len() <= length ==> filled.len() == length
            &&& bytes.len() > length ==> filled == bytes
            &&& forall|i: int| bytes.len() <= i < filled.len() ==> #[trigger] filled[i] == 0x78
        }),
{
    assert(filled_up(bytes, length).take(bytes.len() as int) =~= bytes);
}

/// The evidence names the first and the last offset, says that they are contiguous exactly where
/// there is no gap, and counts the gaps.
pub proof fn law_evidence_names_the_range(offsets: Seq<u64>, contiguous: Seq<char>)
    requires
        offsets.len() > 0,
        contiguous == (if gaps(offsets).len() == 0 {
            "true"@
        } else {
            "false"@
        }),
    ensures
        exists|head: Seq<char>, tail: Seq<char>| #[trigger]
            framed(
                correctness_words(offsets),
                head,
                "offset_range="@ + decimal(offsets[0] as nat) + ".."@ + decimal(
                    offsets[offsets.len() - 1] as nat,
                ) + " contiguous="@ + contiguous + " gap_count="@ + decimal(gaps(offsets).len()) + "\n"@,
                tail,
            ),
        exists|head: Seq<char>, tail: Seq<char>| #[trigger]
            framed(
                correctness_words(offsets),
                head,
                "duplicate_offsets="@ + decimal(repeats(offsets)) + "\n"@,
                tail,
            ),
{
    let missing = gaps(offsets);
    let words = correctness_words(offsets);
    let title = "\n=== correctness evidence ===\n"@;
    let duplicates = "duplicate_offsets="@ + decimal(repeats(offsets)) + "\n"@;
    let range = "offset_range="@ + decimal(offsets[0] as nat) + ".."@ + decimal(
        offsets[offsets.len() - 1] as nat,
    ) + " contiguous="@ + contiguous + " gap_count="@ + decimal(missing.len()) + "\n"@;
    let lines = gap_lines(first_few(missing, 5));
    let note = if missing.len() == 0 {
        Seq::empty()
    } else {
        GAP_NOTE@
    };
    assert(words =~= title + duplicates + (range + lines + note));
    assert(words =~= (title + duplicates) + range + (lines + note));
    assert(framed(words, title + duplicates, range, lines + note));
    assert(words =~= title + duplicates + (range + lines + note));
    assert(framed(words, title, duplicates, range + lines + note));
}

/// Failures are counted, all of them, and the first ten are shown; without any nothing is said.
pub proof fn law_failures_are_counted_and_shown(failures: Seq<String>)
    ensures
        failures.len() == 0 ==> failure_words(failures).len() == 0,
        0 < failures.len() <= 10 ==> failure_words(failures) == "\n=== failures ("@ + decimal(
            failures.len(),
        ) + ") ===\n"@ + failure_lines(failures),
        failures.len() > 10 ==> failure_words(failures) == "\n=== failures ("@ + decimal(
            failures.len(),
        ) + ") ===\n"@ + failure_lines(failures.take(10)),
{
}

/// Two lines of counts that differ in one count alone differ only behind its name; what was asked
/// for is every worker's share.
pub proof fn law_counts_name_themselves(
    options: LabOptions,
    committed: nat,
    failed: nat,
    other: nat,
)
    ensures
        differ_behind(
            counts_words(options, committed, failed),
            counts_words(options, other, failed),
            " committed="@,
            decimal(committed),
            decimal(other),
        ),
        differ_behind(
            counts_words(options, committed, failed),
            counts_words(options, committed, other),
            " failed="@,
            decimal(failed),
            decimal(other),
        ),
        differ_behind(
            counts_words(options, committed, failed),
            counts_words(LabOptions { workers: 0, ..options }, committed, failed),
            "requested="@,
            decimal((options.workers * options.per_worker) as nat),
            decimal(0),
        ),
{
    lemma_differ_here(
        "requested="@ + decimal((options.workers * options.per_worker) as nat),
        " committed="@,
        decimal(committed),
        decimal(other),
    );
    let one = "requested="@ + decimal((options.workers * options.per_worker) as nat)
        + " committed="@ + decimal(committed);
    let other_one = "requested="@ + decimal((options.workers * options.per_worker) as nat)
        + " committed="@ + decimal(other);
    lemma_differ_then_two(
        one,
        other_one,
        " committed="@,
        decimal(committed),
        decimal(other),
        " failed="@,
        decimal(failed),
    );
    lemma_differ_here(
        "requested="@ + decimal((options.workers * options.per_worker) as nat) + " committed="@
            + decimal(committed),
        " failed="@,
        decimal(failed),
        decimal(other),
    );
    let one = "requested="@ + decimal((options.workers * options.per_worker) as nat)
        + " committed="@ + decimal(committed) + " failed="@ + decimal(failed);
    let other_one = "requested="@ + decimal((options.workers * options.per_worker) as nat)
        + " committed="@ + decimal(committed) + " failed="@ + decimal(other);
    assert(0 * options.per_worker == 0);
    lemma_differ_first(
        "requested="@,
        decimal((options.workers * options.per_worker) as nat),
        decimal(0),
    );
    let one = "requested="@ + decimal((options.workers * options.per_worker) as nat);
    let other_one = "requested="@ + decimal(0);
    lemma_differ_then_four(
        one,
        other_one,
        "requested="@,
        decimal((options.workers * options.per_worker) as nat),
        decimal(0),
        " committed="@,
        decimal(committed),
        " failed="@,
        decimal(failed),
    );
}

/// A worker's line names the worker, how many of its records were committed of how many, and its
/// highest place.
pub proof fn law_worker_lines_name_themselves(
    acks: Seq<AckSample>,
    worker: nat,
    per_worker: u64,
    other: u64,
)
    ensures
        differ_behind(
            worker_line(acks, worker, per_worker),
            worker_line(acks, worker, other),
            "/"@,
            decimal(per_worker as nat),
            decimal(other as nat),
        ),
{
    let (count, highest) = worker_progress(acks, worker);
    lemma_differ_here(
        "  worker "@ + decimal(worker) + ": committed="@ + decimal(count),
        "/"@,
        decimal(per_worker as nat),
        decimal(other as nat),
    );
    let one = "  worker "@ + decimal(worker) + ": committed="@ + decimal(count) + "/"@
        + decimal(per_worker as nat);
    let other_one = "  worker "@ + decimal(worker) + ": committed="@ + decimal(count) + "/"@
        + decimal(other as nat);
    lemma_differ_then_two(
        one,
        other_one,
        "/"@,
        decimal(per_worker as nat),
        decimal(other as nat),
        " highest_seq="@,
        highest_words(highest),
    );
    let one = one + " highest_seq="@ + highest_words(highest);
    let other_one = other_one + " highest_seq="@ + highest_words(highest);
    lemma_differ_then(
        one,
        other_one,
        "/"@,
        decimal(per_worker as nat),
        decimal(other as nat),
        "\n"@,
    );
}

/// A worker's line gives its own count and its own highest place.
pub proof fn law_worker_lines_show_their_progress(
    acks: Seq<AckSample>,
    others: Seq<AckSample>,
    worker: nat,
    per_worker: u64,
)
    requires
        worker_progress(acks, worker).1 == worker_progress(others, worker).1,
    ensures
        differ_behind(
            worker_line(acks, worker, per_worker),
            worker_line(others, worker, per_worker),
            ": committed="@,
            decimal(worker_progress(acks, worker).0),
            decimal(worker_progress(others, worker).0),
        ),
{
    let (count, highest) = worker_progress(acks, worker);
    let other = worker_progress(others, worker).0;
    let head = "  worker "@ + decimal(worker);
    let label = ": committed="@;
    lemma_differ_here(head, label, decimal(count), decimal(other));
    let one = head + label + decimal(count);
    let changed = head + label + decimal(other);
    let total = decimal(per_worker as nat);
    lemma_differ_then_four(
        one,
        changed,
        label,
        decimal(count),
        decimal(other),
        "/"@,
        total,
        " highest_seq="@,
        highest_words(highest),
    );
    lemma_differ_then(
        one + "/"@ + total + " highest_seq="@ + highest_words(highest),
        changed + "/"@ + total + " highest_seq="@ + highest_words(highest),
        label,
        decimal(count),
        decimal(other),
        "\n"@,
    );
}

/// Two runs that differ in one option alone differ, in their first lines, only behind its name.
pub proof fn law_banners_name_their_options(
    options: LabOptions,
    other: LabOptions,
    line: String,
    by_canon: String,
    by_verse: String,
    by_workers: String,
    by_per_worker: String,
    by_payload_bytes: String,
)
    requires
        call_ensures(lab_banner, (&options,), line),
        call_ensures(lab_banner, (&LabOptions { canon: other.canon, ..options },), by_canon),
        call_ensures(lab_banner, (&LabOptions { verse: other.verse, ..options },), by_verse),
        call_ensures(lab_banner, (&LabOptions { workers: other.workers, ..options },), by_workers),
        call_ensures(
            lab_banner,
            (&LabOptions { per_worker: other.per_worker, ..options },),
            by_per_worker,
        ),
        call_ensures(
            lab_banner,
            (&LabOptions { payload_bytes: other.payload_bytes, ..options },),
            by_payload_bytes,
        ),
    ensures
        differ_behind(
            line@,
            by_canon@,
            "scripture produce-lab: canon="@,
            options.canon@,
            other.canon@,
        ),
        differ_behind(
            line@,
            by_verse@,
            " verse="@,
            options.verse@,
            other.verse@,
        ),
        differ_behind(
            line@,
            by_workers@,
            " workers="@,
            decimal(options.workers as nat),
            decimal(other.workers as nat),
        ),
        differ_behind(
            line@,
            by_per_worker@,
            " per_worker="@,
            decimal(options.per_worker as nat),
            decimal(other.per_worker as nat),
        ),
        differ_behind(
            line@,
            by_payload_bytes@,
            " payload_bytes="@,
            decimal(options.payload_bytes as nat),
            decimal(other.payload_bytes as nat),
        ),
{
    lemma_differ_first("scripture produce-lab: canon="@, options.canon@, other.canon@);
    let one = "scripture produce-lab: canon="@ + options.canon@;
    let other_one = "scripture produce-lab: canon="@ + other.canon@;
    lemma_differ_then_four(
        one,
        other_one,
        "scripture produce-lab: canon="@,
        options.canon@,
        other.canon@,
        " verse="@,
        options.verse@,
        " workers="@,
        decimal(options.workers as nat),
    );
    let one = one + " verse="@ + options.verse@ + " workers="@ + decimal(options.workers as nat);
    let other_one = other_one + " verse="@ + options.verse@ + " workers="@
        + decimal(options.workers as nat);
    lemma_differ_then_four(
        one,
        other_one,
        "scripture produce-lab: canon="@,
        options.canon@,
        other.canon@,
        " per_worker="@,
        decimal(options.per_worker as nat),
        " payload_bytes="@,
        decimal(options.payload_bytes as nat),
    );
    lemma_differ_here(
        "scripture produce-lab: canon="@ + options.canon@,
        " verse="@,
        options.verse@,
        other.verse@,
    );
    let one = "scripture produce-lab: canon="@ + options.canon@ + " verse="@ + options.verse@;
    let other_one = "scripture produce-lab: canon="@ + options.canon@ + " verse="@ + other.verse@;
    lemma_differ_then_four(
        one,
        other_one,
        " verse="@,
        options.verse@,
        other.verse@,
        " workers="@,
        decimal(options.workers as nat),
        " per_worker="@,
        decimal(options.per_worker as nat),
    );
    let one = one + " workers="@ + decimal(options.workers as nat) + " per_worker="@
        + decimal(options.per_worker as nat);
    let other_one = other_one + " workers="@ + decimal(options.workers as nat) + " per_worker="@
        + decimal(options.per_worker as nat);
    lemma_differ_then_two(
        one,
        other_one,
        " verse="@,
        options.verse@,
        other.verse@,
        " payload_bytes="@,
        decimal(options.payload_bytes as nat),
    );
    lemma_differ_here(
        "scripture produce-lab: canon="@ + options.canon@ + " verse="@ + options.verse@,
        " workers="@,
        decimal(options.workers as nat),
        decimal(other.workers as nat),
    );
    let one = "scripture produce-lab: canon="@ + options.canon@ + " verse="@ + options.verse@
        + " workers="@ + decimal(options.workers as nat);
    let other_one = "scripture produce-lab: canon="@ + options.canon@ + " verse="@
        + options.verse@ + " workers="@ + decimal(other.workers as nat);
    lemma_differ_then_four(
        one,
        other_one,
        " workers="@,
        decimal(options.workers as nat),
        decimal(other.workers as nat),
        " per_worker="@,
        decimal(options.per_worker as nat),
        " payload_bytes="@,
        decimal(options.payload_bytes as nat),
    );
    lemma_differ_here(
        "scripture produce-lab: canon="@ + options.canon@ + " verse="@ + options.verse@
            + " workers="@ + decimal(options.workers as nat),
        " per_worker="@,
        decimal(options.per_worker as nat),
        decimal(other.per_worker as nat),
    );
    let one = "scripture produce-lab: canon="@ + options.canon@ + " verse="@ + options.verse@
        + " workers="@ + decimal(options.workers as nat) + " per_worker="@
        + decimal(options.per_worker as nat);
    let other_one = "scripture produce-lab: canon="@ + options.canon@ + " verse="@
        + options.verse@ + " workers="@ + decimal(options.workers as nat) + " per_worker="@
        + decimal(other.per_worker as nat);
    lemma_differ_then_two(
        one,
        other_one,
        " per_worker="@,
        decimal(options.per_worker as nat),
        decimal(other.per_worker as nat),
        " payload_bytes="@,
        decimal(options.payload_bytes as nat),
    );
    lemma_differ_here(
        "scripture produce-lab: canon="@ + options.canon@ + " verse="@ + options.verse@
            + " workers="@ + decimal(options.workers as nat) + " per_worker="@
            + decimal(options.per_worker as nat),
        " payload_bytes="@,
        decimal(options.payload_bytes as nat),
        decimal(other.payload_bytes as nat),
    );
    let one = "scripture produce-lab: canon="@ + options.canon@ + " verse="@ + options.verse@
        + " workers="@ + decimal(options.workers as nat) + " per_worker="@
        + decimal(options.per_worker as nat) + " payload_bytes="@
        + decimal(options.payload_bytes as nat);
    let other_one = "scripture produce-lab: canon="@ + options.canon@ + " verse="@
        + options.verse@ + " workers="@ + decimal(options.workers as nat) + " per_worker="@
        + decimal(options.per_worker as nat) + " payload_bytes="@
        + decimal(other.payload_bytes as nat);
}

/// What is said of a failed submission names the worker, the place and the error.
pub proof fn law_failed_sends_name_worker_and_place(
    worker: usize,
    other_worker: usize,
    seq: u64,
    other_seq: u64,
    error: &str,
    other_error: &str,
    line: String,
    by_worker: String,
    by_seq: String,
    by_error: String,
)
    requires
        call_ensures(send_failure, (worker, seq, error), line),
        call_ensures(send_failure, (other_worker, seq, error), by_worker),
        call_ensures(send_failure, (worker, other_seq, error), by_seq),
        call_ensures(send_failure, (worker, seq, other_error), by_error),
    ensures
        differ_behind(
            line@,
            by_worker@,
            "w"@,
            decimal(worker as nat),
            decimal(other_worker as nat),
        ),
        differ_behind(
            line@,
            by_seq@,
            " seq="@,
            decimal(seq as nat),
            decimal(other_seq as nat),
        ),
        differ_behind(
            line@,
            by_error@,
            ": "@,
            error@,
            other_error@,
        ),
{
    lemma_differ_first("w"@, decimal(worker as nat), decimal(other_worker as nat));
    let one = "w"@ + decimal(worker as nat);
    let other_one = "w"@ + decimal(other_worker as nat);
    lemma_differ_then_four(
        one,
        other_one,
        "w"@,
        decimal(worker as nat),
        decimal(other_worker as nat),
        " seq="@,
        decimal(seq as nat),
        ": "@,
        error@,
    );
    lemma_differ_here(
        "w"@ + decimal(worker as nat),
        " seq="@,
        decimal(seq as nat),
        decimal(other_seq as nat),
    );
    let one = "w"@ + decimal(worker as nat) + " seq="@ + decimal(seq as nat);
    let other_one = "w"@ + decimal(worker as nat) + " seq="@ + decimal(other_seq as nat);
    lemma_differ_then_two(
        one,
        other_one,
        " seq="@,
        decimal(seq as nat),
        decimal(other_seq as nat),
        ": "@,
        error@,
    );
    lemma_differ_here(
        "w"@ + decimal(worker as nat) + " seq="@ + decimal(seq as nat),
        ": "@,
        error@,
        other_error@,
    );
    let one = "w"@ + decimal(worker as nat) + " seq="@ + decimal(seq as nat) + ": "@ + error@;
    let other_one = "w"@ + decimal(worker as nat) + " seq="@ + decimal(seq as nat) + ": "@
        + other_error@;
}

/// A worker's batches are numbered on from what it has submitted; after the last there is none.
pub proof fn law_batches_go_on_from_the_last(
    options: LabOptions,
    worker: usize,
    seq: u64,
    payloads: Option<Vec<Vec<u8>>>,
    at: int,
)
    requires
        call_ensures(LabOptions::next_batch, (&options, worker, seq), payloads),
    ensures
        payloads is None <==> seq >= options.per_worker,
        payloads matches Some(found) ==> {
            &&& 1 <= found@.len() <= options.per_worker - seq
            &&& options.records_per_submission >= 1 ==> found@.len()
                <= options.records_per_submission
            &&& 0 <= at < found@.len() ==> found@[at]@ == filled_up(
                encode_utf8(payload_label(worker as nat, (seq + at) as nat)),
                options.payload_bytes as nat,
            )
        },
{
}

/// The records of a committed submission are its worker's, numbered on, at the offsets from the
/// first on, through the endpoint that took them.
pub proof fn law_samples_follow_their_submission(
    worker: usize,
    seq: u64,
    count: usize,
    first_offset: u64,
    endpoint: &str,
    samples: Vec<AckSample>,
    at: int,
)
    requires
        call_ensures(batch_samples, (worker, seq, count, first_offset, endpoint), samples),
        seq + count <= u64::MAX,
        first_offset + count <= u64::MAX,
        0 <= at < count,
    ensures
        samples@.len() == count,
        samples@[at].worker == worker,
        samples@[at].seq == seq + at,
        samples@[at].first_offset == first_offset + at,
        samples@[at].endpoint@ == endpoint@,
{
}

/// Each counter is read by its own key, totals are all of them, and deltas go counter by
/// counter.
pub proof fn law_counters_go_by_their_key(
    body: &str,
    counters: StoreCounters,
    after: StoreCounters,
    before: StoreCounters,
    delta: StoreCounters,
)
    requires
        call_ensures(counters_from_status, (body,), counters),
        call_ensures(StoreCounters::delta, (after, before), delta),
    ensures
        counters.data_puts == status_field(body@, "store_puts="@),
        counters.data_gets == status_field(body@, "store_gets="@),
        counters.authority_puts == status_field(body@, "authority_puts="@),
        counters.authority_gets == status_field(body@, "authority_gets="@),
        before.data_puts <= after.data_puts ==> before.data_puts + delta.data_puts
            == after.data_puts,
        before.data_gets <= after.data_gets ==> before.data_gets + delta.data_gets
            == after.data_gets,
        before.authority_puts <= after.authority_puts ==> before.authority_puts
            + delta.authority_puts == after.authority_puts,
        before.authority_gets <= after.authority_gets ==> before.authority_gets
            + delta.authority_gets == after.authority_gets,
        before.data_puts > after.data_puts ==> delta.data_puts == 0,
{
}

/// A line of counts says what was asked for, committed and failed.
pub proof fn law_counts_over_whole_calls(
    options: LabOptions,
    committed: usize,
    failed: usize,
    other: usize,
    line: String,
    by_committed: String,
    by_failed: String,
)
    requires
        call_ensures(counts_line, (&options, committed, failed), line),
        call_ensures(counts_line, (&options, other, failed), by_committed),
        call_ensures(counts_line, (&options, committed, other), by_failed),
        options.workers * options.per_worker <= u64::MAX,
    ensures
        differ_behind(
            line@,
            by_committed@,
            " committed="@,
            decimal(committed as nat),
            decimal(other as nat),
        ),
        differ_behind(
            line@,
            by_failed@,
            " failed="@,
            decimal(failed as nat),
            decimal(other as nat),
        ),
{
    law_counts_name_themselves(options, committed as nat, failed as nat, other as nat);
}

/// A payload names its worker and its place.
pub proof fn law_payloads_over_whole_calls(
    worker: usize,
    seq: u64,
    length: usize,
    payload: Vec<u8>,
)
    requires
        call_ensures(lab_payload, (worker, seq, length), payload),
    ensures
        ({
            let label = encode_utf8(
                "w"@ + padded(worker as nat, 3) + "-s"@ + padded(seq as nat, 8) + "-"@,
            );
            &&& payload@.len() >= length
            &&& payload@.len() == length || payload@ == label
            &&& payload@.take(label.len() as int) == label
        }),
{
    let label = encode_utf8(
        "w"@ + padded(worker as nat, 3) + "-s"@ + padded(seq as nat, 8) + "-"@,
    );
    law_filling_up_keeps_the_start(label, length as nat);
}

} // verus!
