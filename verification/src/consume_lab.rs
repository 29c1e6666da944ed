//! A tailing reader for measuring throughput out.
//!
//! Lab instrument, paired with the producing one. The point is continuity during a
//! rolling restart: a Verse moving between Scribes must not stall reads. Reading and
//! timing happen outside; this module keeps the counts and says when to stop.
use crate::consume::FrameRecords;
use crate::text::{
    decimal, is_text_before, lemma_bytes_before_asymmetric, lemma_bytes_before_total,
    lemma_bytes_before_transitive, lemma_encode_utf8_injective, push_decimal, same_text,
    text_before,
};
use crate::text_laws::{
    differ_behind, lemma_differ_first, lemma_differ_here, lemma_differ_then,
    lemma_differ_then_four, lemma_differ_then_two,
};
use vstd::prelude::*;
use vstd::utf8::encode_utf8;

verus! {

/// Options for one consume-lab run.
#[derive(Debug, PartialEq, Eq)]
pub struct ConsumeOptions {
    pub canon: String,
    pub verse: String,
    /// Stop after this many seconds.
    pub seconds: u64,
    /// Stop early once this many records have been read (0 = no limit).
    pub until_records: u64,
}

/// The first line of a run.
pub fn lab_banner(options: &ConsumeOptions, store_root: &str) -> (line: String)
    ensures
        line@ == "scripture consume-lab: canon="@ + options.canon@ + " verse="@ + options.verse@
            + " seconds="@ + decimal(options.seconds as nat) + " root="@ + store_root@
            + " (lab alias; prefer `scripture consume` for record output)"@,
{
    let mut line = String::new();
    line.append("scripture consume-lab: canon=");
    line.append(options.canon.as_str());
    line.append(" verse=");
    line.append(options.verse.as_str());
    line.append(" seconds=");
    push_decimal(&mut line, options.seconds);
    line.append(" root=");
    line.append(store_root);
    line.append(" (lab alias; prefer `scripture consume` for record output)");
    assert(line@ =~= "scripture consume-lab: canon="@ + options.canon@ + " verse="@
        + options.verse@ + " seconds="@ + decimal(options.seconds as nat) + " root="@
        + store_root@ + " (lab alias; prefer `scripture consume` for record output)"@);
    line
}

/// Counts by name with more for one of them; names stand in ascending order.
pub open spec fn tallied(counts: Seq<(Seq<char>, nat)>, name: Seq<char>, more: nat) -> Seq<
    (Seq<char>, nat),
>
    decreases counts.len(),
{
    if counts.len() == 0 {
        seq![(name, more)]
    } else if counts[0].0 == name {
        counts.update(0, (name, counts[0].1 + more))
    } else if text_before(name, counts[0].0) {
        seq![(name, more)] + counts
    } else {
        seq![counts[0]] + tallied(counts.skip(1), name, more)
    }
}

/// Counts by their views.
pub open spec fn counts_view(counts: Seq<(String, u64)>) -> Seq<(Seq<char>, nat)> {
    counts.map_values(|count: (String, u64)| (count.0@, count.1 as nat))
}

/// Whether names ascend.
pub open spec fn names_ascend(counts: Seq<(Seq<char>, nat)>) -> bool {
    forall|i: int, j: int|
        0 <= i < j < counts.len() ==> text_before(
            (#[trigger] counts[i]).0,
            (#[trigger] counts[j]).0,
        )
}

/// All counts together.
pub open spec fn total(counts: Seq<(Seq<char>, nat)>) -> nat
    decreases counts.len(),
{
    if counts.len() == 0 {
        0
    } else {
        counts[0].1 + total(counts.skip(1))
    }
}

/// The state of a tailing run.
#[derive(Debug, PartialEq, Eq)]
pub struct LabTail {
    /// Next entry to read.
    pub cursor: u64,
    pub records: u64,
    /// Records read from each generation, by its name.
    pub generations: Vec<(String, u64)>,
    /// When entries were last read, in nanoseconds since the run started.
    pub last_progress: u64,
    /// How long reading stood still, in nanoseconds, where that was over a second.
    pub stalls: Vec<u64>,
}

/// How many records the frames hold.
pub open spec fn records_in(frames: Seq<FrameRecords>) -> nat
    decreases frames.len(),
{
    if frames.len() == 0 {
        0
    } else {
        records_in(frames.drop_last()) + frames.last().payloads@.len()
    }
}

/// How many records the frames hold, where that fits in a count.
pub fn record_count(frames: &Vec<FrameRecords>) -> (count: Option<u64>)
    ensures
        match count {
            Some(count) => count == records_in(frames@),
            None => records_in(frames@) > u64::MAX,
        },
{
    let mut count: u64 = 0;
    let mut at: usize = 0;
    while at < frames.len()
        invariant
            at <= frames@.len(),
            count == records_in(frames@.take(at as int)),
        decreases frames@.len() - at,
    {
        proof {
            assert(frames@.take(at + 1).drop_last() =~= frames@.take(at as int));
            lemma_records_grow(frames@, at + 1);
        }
        match count.checked_add(frames[at].payloads.len() as u64) {
            Some(more) => count = more,
            None => return None,
        }
        at += 1;
    }
    assert(frames@.take(at as int) =~= frames@);
    Some(count)
}

proof fn lemma_records_grow(frames: Seq<FrameRecords>, at: int)
    requires
        0 <= at <= frames.len(),
    ensures
        records_in(frames.take(at)) <= records_in(frames),
    decreases frames.len(),
{
    if at == frames.len() {
        assert(frames.take(at) =~= frames);
    } else {
        lemma_records_grow(frames.drop_last(), at);
        assert(frames.drop_last().take(at) =~= frames.take(at));
    }
}

impl LabTail {
    /// Whether the counts of the generations, which ascend, come to the records read.
    pub open spec fn well_formed(&self) -> bool {
        &&& names_ascend(counts_view(self.generations@))
        &&& total(counts_view(self.generations@)) == self.records
    }

    /// A run that has read nothing.
    pub fn new() -> (tail: Self)
        ensures
            tail.well_formed(),
            tail.cursor == 0,
            tail.records == 0,
            tail.generations@.len() == 0,
            tail.last_progress == 0,
            tail.stalls@.len() == 0,
    {
        LabTail {
            cursor: 0,
            records: 0,
            generations: Vec::new(),
            last_progress: 0,
            stalls: Vec::new(),
        }
    }

    /// Whether as many records as were asked for are read.
    pub fn is_satisfied(&self, options: &ConsumeOptions) -> (satisfied: bool)
        ensures
            satisfied == (options.until_records > 0 && self.records >= options.until_records),
    {
        options.until_records > 0 && self.records >= options.until_records
    }

    /// Whether the log is looked at again: there is time left, and not as many records as
    /// were asked for are read.
    pub fn observes(&self, options: &ConsumeOptions, deadline_passed: bool) -> (observes: bool)
        ensures
            observes == (!deadline_passed && (options.until_records == 0 || self.records
                < options.until_records)),
    {
        !deadline_passed && !self.is_satisfied(options)
    }

    /// Whether an entry is read before an end that was seen.
    pub fn reads(&self, options: &ConsumeOptions, end: u64) -> (reads: bool)
        ensures
            reads == (self.cursor < end && (options.until_records == 0 || self.records
                < options.until_records)),
    {
        self.cursor < end && !self.is_satisfied(options)
    }

    /// Ends a pass over what was seen, which did or did not read entries. A pass that did
    /// ends a stall if the last one that did is over a second ago.
    pub fn end_pass(&mut self, advanced: bool, now: u64)
        ensures
            final(self).cursor == old(self).cursor,
            final(self).records == old(self).records,
            final(self).generations == old(self).generations,
            final(self).last_progress == (if advanced {
                now
            } else {
                old(self).last_progress
            }),
            final(self).stalls@ == (if advanced && now - old(self).last_progress > 1_000_000_000 {
                old(self).stalls@.push((now - old(self).last_progress) as u64)
            } else {
                old(self).stalls@
            }),
    {
        if !advanced {
            return ;
        }
        let gap: u64 = now.saturating_sub(self.last_progress);
        if gap > 1_000_000_000 {
            self.stalls.push(gap);
        }
        self.last_progress = now;
    }

    /// Takes in an entry: its place, its generation and how many records it holds.
    pub fn take_entry(&mut self, position: u64, generation: &str, in_entry: u64)
        requires
            old(self).well_formed(),
            position < u64::MAX,
            old(self).records + in_entry <= u64::MAX,
        ensures
            final(self).well_formed(),
            final(self).cursor == position + 1,
            final(self).records == old(self).records + in_entry,
            counts_view(final(self).generations@) == tallied(
                counts_view(old(self).generations@),
                generation@,
                in_entry as nat,
            ),
            final(self).last_progress == old(self).last_progress,
            final(self).stalls == old(self).stalls,
    {
        let ghost before = counts_view(self.generations@);
        let mut at: usize = 0;
        while at < self.generations.len() && is_text_before(
            self.generations[at].0.as_str(),
            generation,
        )
            invariant
                at <= self.generations@.len(),
                before == counts_view(self.generations@),
                *self == *old(self),
                forall|i: int|
                    0 <= i < at ==> text_before((#[trigger] before[i]).0, generation@),
            ensures
                at <= self.generations@.len(),
                *self == *old(self),
                forall|i: int|
                    0 <= i < at ==> text_before((#[trigger] before[i]).0, generation@),
                at < self.generations@.len() ==> !text_before(before[at as int].0, generation@),
            decreases self.generations@.len() - at,
        {
            at += 1;
        }
        proof {
            law_tally(before, generation@, in_entry as nat);
            lemma_tallied_at(before, generation@, in_entry as nat, at as int);
        }
        if at < self.generations.len() && same_text(
            self.generations[at].0.as_str(),
            generation,
        ) {
            proof {
                lemma_one_of_total(before, at as int);
            }
            let more: u64 = self.generations[at].1 + in_entry;
            self.generations.set(at, (generation.to_owned(), more));
            assert(counts_view(self.generations@) =~= before.update(
                at as int,
                (generation@, (before[at as int].1 + in_entry) as nat),
            ));
        } else {
            self.generations.insert(at, (generation.to_owned(), in_entry));
            assert(counts_view(self.generations@) =~= before.insert(
                at as int,
                (generation@, in_entry as nat),
            ));
        }
        self.records = self.records + in_entry;
        self.cursor = position + 1;
    }
}

proof fn lemma_one_of_total(counts: Seq<(Seq<char>, nat)>, at: int)
    requires
        0 <= at < counts.len(),
    ensures
        counts[at].1 <= total(counts),
    decreases counts.len(),
{
    if at > 0 {
        lemma_one_of_total(counts.skip(1), at - 1);
        assert(counts.skip(1)[at - 1] == counts[at]);
    }
}

proof fn lemma_tallied_at(counts: Seq<(Seq<char>, nat)>, name: Seq<char>, more: nat, at: int)
    requires
        names_ascend(counts),
        0 <= at <= counts.len(),
        forall|i: int| 0 <= i < at ==> text_before((#[trigger] counts[i]).0, name),
        at < counts.len() ==> !text_before(counts[at].0, name),
    ensures
        tallied(counts, name, more) == (if at < counts.len() && counts[at].0 == name {
            counts.update(at, (name, counts[at].1 + more))
        } else {
            counts.insert(at, (name, more))
        }),
    decreases counts.len(),
{
    if at == 0 {
        if counts.len() == 0 {
            assert(tallied(counts, name, more) =~= counts.insert(0, (name, more)));
        } else if counts[0].0 != name {
            lemma_bytes_before_total(encode_utf8(name), encode_utf8(counts[0].0));
            if encode_utf8(name) == encode_utf8(counts[0].0) {
                lemma_encode_utf8_injective(name, counts[0].0);
            }
            assert(tallied(counts, name, more) =~= counts.insert(0, (name, more)));
        }
    } else {
        let rest = counts.skip(1);
        assert(text_before(counts[0].0, name));
        lemma_bytes_before_asymmetric(encode_utf8(counts[0].0), encode_utf8(name));
        assert(counts[0].0 != name);
        assert forall|i: int, j: int| 0 <= i < j < rest.len() implies text_before(
            (#[trigger] rest[i]).0,
            (#[trigger] rest[j]).0,
        ) by {
            assert(text_before(counts[i + 1].0, counts[j + 1].0));
        }
        assert forall|i: int| 0 <= i < at - 1 implies text_before((#[trigger] rest[i]).0, name) by {
            assert(rest[i] == counts[i + 1]);
        }
        if at < counts.len() {
            assert(rest[at - 1] == counts[at]);
        }
        lemma_tallied_at(rest, name, more, at - 1);
        if at < counts.len() && counts[at].0 == name {
            assert(tallied(counts, name, more) =~= counts.update(at, (name, counts[at].1 + more)));
        } else {
            assert(tallied(counts, name, more) =~= counts.insert(at, (name, more)));
        }
    }
}

/// Counting more keeps names ascending and loses no count.
pub proof fn law_tally(counts: Seq<(Seq<char>, nat)>, name: Seq<char>, more: nat)
    requires
        names_ascend(counts),
    ensures
        names_ascend(tallied(counts, name, more)),
        total(tallied(counts, name, more)) == total(counts) + more,
    decreases counts.len(),
{
    let result = tallied(counts, name, more);
    if counts.len() == 0 {
        assert(result.skip(1) =~= Seq::<(Seq<char>, nat)>::empty());
        assert(total(result.skip(1)) == 0);
    } else if counts[0].0 == name {
        assert(result.skip(1) =~= counts.skip(1));
        assert forall|i: int, j: int| 0 <= i < j < result.len() implies text_before(
            (#[trigger] result[i]).0,
            (#[trigger] result[j]).0,
        ) by {
            assert(text_before(counts[i].0, counts[j].0));
        }
    } else if text_before(name, counts[0].0) {
        assert(result.skip(1) =~= counts);
        assert forall|i: int, j: int| 0 <= i < j < result.len() implies text_before(
            (#[trigger] result[i]).0,
            (#[trigger] result[j]).0,
        ) by {
            assert(result[j] == counts[j - 1]);
            if i == 0 {
                if j > 1 {
                    assert(text_before(counts[0].0, counts[j - 1].0));
                    lemma_bytes_before_transitive(
                        encode_utf8(name),
                        encode_utf8(counts[0].0),
                        encode_utf8(counts[j - 1].0),
                    );
                }
            } else {
                assert(result[i] == counts[i - 1]);
            }
        }
    } else {
        let rest = counts.skip(1);
        assert forall|i: int, j: int| 0 <= i < j < rest.len() implies text_before(
            (#[trigger] rest[i]).0,
            (#[trigger] rest[j]).0,
        ) by {
            assert(text_before(counts[i + 1].0, counts[j + 1].0));
        }
        law_tally(rest, name, more);
        lemma_bytes_before_total(encode_utf8(name), encode_utf8(counts[0].0));
        if encode_utf8(name) == encode_utf8(counts[0].0) {
            lemma_encode_utf8_injective(name, counts[0].0);
        }
        assert(text_before(counts[0].0, name));
        let tail = tallied(rest, name, more);
        assert(result.skip(1) =~= tail);
        assert forall|i: int, j: int| 0 <= i < j < result.len() implies text_before(
            (#[trigger] result[i]).0,
            (#[trigger] result[j]).0,
        ) by {
            assert(result[j] == tail[j - 1]);
            if i > 0 {
                assert(result[i] == tail[i - 1]);
            } else {
                lemma_tallied_names(rest, name, more, j - 1);
                if tail[j - 1].0 != name {
                    let place = choose|k: int|
                        0 <= k < rest.len() && (#[trigger] rest[k]).0 == tail[j - 1].0;
                    assert(text_before(counts[0].0, counts[place + 1].0));
                }
            }
        }
    }
}

proof fn lemma_tallied_names(counts: Seq<(Seq<char>, nat)>, name: Seq<char>, more: nat, at: int)
    requires
        0 <= at < tallied(counts, name, more).len(),
    ensures
        tallied(counts, name, more)[at].0 == name || exists|k: int|
            0 <= k < counts.len() && (#[trigger] counts[k]).0 == tallied(counts, name, more)[at].0,
    decreases counts.len(),
{
    let result = tallied(counts, name, more);
    if counts.len() == 0 {
    } else if counts[0].0 == name {
        assert(counts[at].0 == result[at].0);
    } else if text_before(name, counts[0].0) {
        if at > 0 {
            assert(counts[at - 1].0 == result[at].0);
        }
    } else if at == 0 {
        assert(counts[0].0 == result[0].0);
    } else {
        let rest = counts.skip(1);
        lemma_tallied_names(rest, name, more, at - 1);
        assert(result[at] == tallied(rest, name, more)[at - 1]);
        if result[at].0 != name {
            let place = choose|k: int|
                0 <= k < rest.len() && (#[trigger] rest[k]).0 == result[at].0;
            assert(counts[place + 1].0 == result[at].0);
        }
    }
}

// The report.

/// The lines of the generations.
pub open spec fn generation_lines(counts: Seq<(Seq<char>, nat)>) -> Seq<char>
    decreases counts.len(),
{
    if counts.len() == 0 {
        Seq::empty()
    } else {
        generation_lines(counts.drop_last()) + ("  "@ + counts.last().0 + ": "@ + decimal(
            counts.last().1,
        ) + " records\n"@)
    }
}

/// The generations that were read.
pub open spec fn generations_words(counts: Seq<(Seq<char>, nat)>) -> Seq<char> {
    "\n=== generations read ===\n"@ + generation_lines(counts) + (if counts.len() > 1 {
        "  (read spans a cutover)\n"@
    } else {
        Seq::empty()
    })
}

/// The generations that were read, in ascending order of their names.
pub fn generations_section(tail: &LabTail) -> (text: String)
    ensures
        text@ == generations_words(counts_view(tail.generations@)),
{
    let ghost view = counts_view(tail.generations@);
    let mut text = String::new();
    text.append("\n=== generations read ===\n");
    let ghost head = text@;
    let mut at: usize = 0;
    assert(text@ =~= head + generation_lines(view.take(0)));
    while at < tail.generations.len()
        invariant
            at <= tail.generations@.len(),
            view == counts_view(tail.generations@),
            text@ == head + generation_lines(view.take(at as int)),
        decreases tail.generations@.len() - at,
    {
        text.append("  ");
        text.append(tail.generations[at].0.as_str());
        text.append(": ");
        push_decimal(&mut text, tail.generations[at].1);
        text.append(" records\n");
        proof {
            assert(view.take(at + 1).drop_last() =~= view.take(at as int));
            assert(text@ =~= head + generation_lines(view.take(at + 1)));
        }
        at += 1;
    }
    assert(view.take(at as int) =~= view);
    if tail.generations.len() > 1 {
        text.append("  (read spans a cutover)\n");
    }
    assert(text@ =~= generations_words(view));
    text
}

// Laws.

/// A name's count grows by what is counted; a name that was not there stands, with that count,
/// between those before it and those after it.
pub proof fn law_more_counts_for_its_name(
    counts: Seq<(Seq<char>, nat)>,
    name: Seq<char>,
    more: nat,
    at: int,
)
    requires
        names_ascend(counts),
        0 <= at <= counts.len(),
        forall|i: int| 0 <= i < at ==> text_before((#[trigger] counts[i]).0, name),
        at < counts.len() ==> !text_before(counts[at].0, name),
    ensures
        at < counts.len() && counts[at].0 == name ==> tallied(counts, name, more) == counts.update(
            at,
            (name, counts[at].1 + more),
        ),
        at == counts.len() || counts[at].0 != name ==> tallied(counts, name, more)
            == counts.insert(at, (name, more)),
{
    lemma_tallied_at(counts, name, more, at);
}

/// Frames hold what each of them holds.
pub proof fn law_records_add_up(frames: Seq<FrameRecords>, frame: FrameRecords)
    ensures
        records_in(frames.push(frame)) == records_in(frames) + frame.payloads@.len(),
        records_in(Seq::empty()) == 0,
{
    assert(frames.push(frame).drop_last() =~= frames);
}

/// Each generation has one line, with its own count, and a read over several says that it spans
/// a cutover.
pub proof fn law_generations_go_line_by_line(
    counts: Seq<(Seq<char>, nat)>,
    name: Seq<char>,
    count: nat,
)
    ensures
        generation_lines(counts.push((name, count))) == generation_lines(counts) + ("  "@ + name
            + ": "@ + decimal(count) + " records\n"@),
        generation_lines(Seq::empty()).len() == 0,
        counts.len() > 1 ==> generations_words(counts) == "\n=== generations read ===\n"@
            + generation_lines(counts) + "  (read spans a cutover)\n"@,
        counts.len() <= 1 ==> generations_words(counts) == "\n=== generations read ===\n"@
            + generation_lines(counts),
{
    assert(counts.push((name, count)).drop_last() =~= counts);
    let head = "\n=== generations read ===\n"@ + generation_lines(counts);
    assert(head + Seq::<char>::empty() =~= head);
}

/// Two runs that differ in one thing alone differ, in their first lines, only behind its name.
pub proof fn law_banners_name_their_options(
    options: ConsumeOptions,
    other: ConsumeOptions,
    root: &str,
    other_root: &str,
    line: String,
    by_canon: String,
    by_verse: String,
    by_seconds: String,
    by_root: String,
)
    requires
        call_ensures(lab_banner, (&options, root), line),
        call_ensures(
            lab_banner,
            (&ConsumeOptions { canon: other.canon, ..options }, root),
            by_canon,
        ),
        call_ensures(
            lab_banner,
            (&ConsumeOptions { verse: other.verse, ..options }, root),
            by_verse,
        ),
        call_ensures(
            lab_banner,
            (&ConsumeOptions { seconds: other.seconds, ..options }, root),
            by_seconds,
        ),
        call_ensures(lab_banner, (&options, other_root), by_root),
    ensures
        differ_behind(
            line@,
            by_canon@,
            "scripture consume-lab: canon="@,
            options.canon@,
            other.canon@,
        ),
        differ_behind(
            line@,
            by_verse@,
            " verse="@,
            options.verse@,
            other.verse@,
        ),
        differ_behind(
            line@,
            by_seconds@,
            " seconds="@,
            decimal(options.seconds as nat),
            decimal(other.seconds as nat),
        ),
        differ_behind(
            line@,
            by_root@,
            " root="@,
            root@,
            other_root@,
        ),
{
    lemma_differ_first("scripture consume-lab: canon="@, options.canon@, other.canon@);
    let one = "scripture consume-lab: canon="@ + options.canon@;
    let other_one = "scripture consume-lab: canon="@ + other.canon@;
    lemma_differ_then_four(
        one,
        other_one,
        "scripture consume-lab: canon="@,
        options.canon@,
        other.canon@,
        " verse="@,
        options.verse@,
        " seconds="@,
        decimal(options.seconds as nat),
    );
    let one = one + " verse="@ + options.verse@ + " seconds="@ + decimal(options.seconds as nat);
    let other_one = other_one + " verse="@ + options.verse@ + " seconds="@
        + decimal(options.seconds as nat);
    lemma_differ_then_two(
        one,
        other_one,
        "scripture consume-lab: canon="@,
        options.canon@,
        other.canon@,
        " root="@,
        root@,
    );
    let one = one + " root="@ + root@;
    let other_one = other_one + " root="@ + root@;
    lemma_differ_then(
        one,
        other_one,
        "scripture consume-lab: canon="@,
        options.canon@,
        other.canon@,
        " (lab alias; prefer `scripture consume` for record output)"@,
    );
    lemma_differ_here(
        "scripture consume-lab: canon="@ + options.canon@,
        " verse="@,
        options.verse@,
        other.verse@,
    );
    let one = "scripture consume-lab: canon="@ + options.canon@ + " verse="@ + options.verse@;
    let other_one = "scripture consume-lab: canon="@ + options.canon@ + " verse="@ + other.verse@;
    lemma_differ_then_four(
        one,
        other_one,
        " verse="@,
        options.verse@,
        other.verse@,
        " seconds="@,
        decimal(options.seconds as nat),
        " root="@,
        root@,
    );
    let one = one + " seconds="@ + decimal(options.seconds as nat) + " root="@ + root@;
    let other_one = other_one + " seconds="@ + decimal(options.seconds as nat) + " root="@ + root@;
    lemma_differ_then(
        one,
        other_one,
        " verse="@,
        options.verse@,
        other.verse@,
        " (lab alias; prefer `scripture consume` for record output)"@,
    );
    lemma_differ_here(
        "scripture consume-lab: canon="@ + options.canon@ + " verse="@ + options.verse@,
        " seconds="@,
        decimal(options.seconds as nat),
        decimal(other.seconds as nat),
    );
    let one = "scripture consume-lab: canon="@ + options.canon@ + " verse="@ + options.verse@
        + " seconds="@ + decimal(options.seconds as nat);
    let other_one = "scripture consume-lab: canon="@ + options.canon@ + " verse="@
        + options.verse@ + " seconds="@ + decimal(other.seconds as nat);
    lemma_differ_then_two(
        one,
        other_one,
        " seconds="@,
        decimal(options.seconds as nat),
        decimal(other.seconds as nat),
        " root="@,
        root@,
    );
    let one = one + " root="@ + root@;
    let other_one = other_one + " root="@ + root@;
    lemma_differ_then(
        one,
        other_one,
        " seconds="@,
        decimal(options.seconds as nat),
        decimal(other.seconds as nat),
        " (lab alias; prefer `scripture consume` for record output)"@,
    );
    lemma_differ_here(
        "scripture consume-lab: canon="@ + options.canon@ + " verse="@ + options.verse@
            + " seconds="@ + decimal(options.seconds as nat),
        " root="@,
        root@,
        other_root@,
    );
    let one = "scripture consume-lab: canon="@ + options.canon@ + " verse="@ + options.verse@
        + " seconds="@ + decimal(options.seconds as nat) + " root="@ + root@;
    let other_one = "scripture consume-lab: canon="@ + options.canon@ + " verse="@
        + options.verse@ + " seconds="@ + decimal(options.seconds as nat) + " root="@
        + other_root@;
    lemma_differ_then(
        one,
        other_one,
        " root="@,
        root@,
        other_root@,
        " (lab alias; prefer `scripture consume` for record output)"@,
    );
}

/// A tailing run goes on while there is time and fewer records than asked for are read; asked
/// for none, it reads all.
pub proof fn law_tails_go_on_while_there_is_more(
    tail: LabTail,
    options: ConsumeOptions,
    late: bool,
    end: u64,
    observes: bool,
    reads: bool,
)
    requires
        call_ensures(LabTail::observes, (&tail, &options, late), observes),
        call_ensures(LabTail::reads, (&tail, &options, end), reads),
    ensures
        ({
            let enough = options.until_records >= 1 && tail.records >= options.until_records;
            &&& observes <==> !late && !enough
            &&& reads <==> tail.cursor < end && !enough
        }),
{
}

/// Reading that stood still for over a second is a stall of that length, ended by the pass that
/// reads again; a pass that reads nothing ends none.
pub proof fn law_stalls_are_over_a_second(tail: &mut LabTail, advanced: bool, now: u64)
    requires
        call_ensures(LabTail::end_pass, (tail, advanced, now), ()),
        old(tail).last_progress <= now,
    ensures
        ({
            let still = now - old(tail).last_progress;
            &&& advanced && still > 1_000_000_000 ==> final(tail).stalls@
                == old(tail).stalls@.push(still as u64)
            &&& !advanced || still <= 1_000_000_000 ==> final(tail).stalls@ == old(tail).stalls@
            &&& advanced ==> final(tail).last_progress == now
            &&& !advanced ==> final(tail).last_progress == old(tail).last_progress
            &&& final(tail).records == old(tail).records
            &&& final(tail).cursor == old(tail).cursor
        }),
{
}

/// An entry moves the cursor behind it and adds its records.
pub proof fn law_entries_add_their_records(
    tail: &mut LabTail,
    position: u64,
    generation: &str,
    in_entry: u64,
)
    requires
        call_ensures(LabTail::take_entry, (tail, position, generation, in_entry), ()),
        old(tail).well_formed(),
        position < u64::MAX,
        old(tail).records + in_entry <= u64::MAX,
    ensures
        final(tail).cursor == position + 1,
        final(tail).records == old(tail).records + in_entry,
        final(tail).stalls == old(tail).stalls,
        final(tail).last_progress == old(tail).last_progress,
        final(tail).well_formed(),
{
}

} // verus!
