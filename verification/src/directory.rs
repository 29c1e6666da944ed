//! The fleet directory as it is shown to operators.
//!
//! Discovery only. Nothing here decides authority: the printed dispositions are
//! publication-time hints that may be stale in either direction, and a client acting
//! on them must still expect the serving Scribe's authority gate to refuse.
use crate::capability::{DirectoryAssignment, DirectoryRecord};
use crate::text::{decimal, push_decimal};
use vstd::prelude::*;

verus! {

/// A ranked endpoint for one Canon/Verse.
#[derive(Debug, PartialEq, Eq)]
pub struct RankedCandidate {
    pub endpoint: String,
    pub owner_id: String,
    pub disposition: String,
    pub claims_serving: bool,
    pub fresh: bool,
    pub age_ms: u64,
}

/// A truth value in words.
pub open spec fn truth(value: bool) -> Seq<char> {
    if value {
        "true"@
    } else {
        "false"@
    }
}

/// Appends a truth value in words.
pub fn push_truth(text: &mut String, value: bool)
    ensures
        final(text)@ == old(text)@ + truth(value),
{
    if value {
        text.append("true");
    } else {
        text.append("false");
    }
}

/// What is said of an empty directory.
pub open spec fn empty_words(prefix: Seq<char>) -> Seq<char> {
    "scripture: directory empty prefix="@ + prefix + "\n"@
        + "scripture: no node has published; this is distinct from every node having expired\n"@
}

/// How many records are fresh.
pub open spec fn fresh_count(records: Seq<DirectoryRecord>) -> nat
    decreases records.len(),
{
    if records.len() == 0 {
        0
    } else {
        fresh_count(records.drop_last()) + (if records.last().fresh {
            1nat
        } else {
            0nat
        })
    }
}

/// The line of one assignment.
pub open spec fn assignment_line(assignment: DirectoryAssignment) -> Seq<char> {
    "  canon="@ + assignment.canon@ + " verse="@ + assignment.verse@ + " advertise="@
        + assignment.advertise@ + " posture="@ + assignment.posture@ + " disposition="@
        + assignment.disposition@ + " admits_acks="@ + truth(assignment.admits_committed_acks)
        + "\n"@
}

/// The lines of some assignments.
pub open spec fn assignment_lines(assignments: Seq<DirectoryAssignment>) -> Seq<char>
    decreases assignments.len(),
{
    if assignments.len() == 0 {
        Seq::empty()
    } else {
        assignment_lines(assignments.drop_last()) + assignment_line(assignments.last())
    }
}

/// The lines of one node.
pub open spec fn node_lines(record: DirectoryRecord) -> Seq<char> {
    "node owner="@ + record.owner_id@ + " advertise="@ + record.node_advertise@ + " fresh="@
        + truth(record.fresh) + " age_ms="@ + decimal(record.age_ms as nat) + " assignments="@
        + decimal(record.assignments@.len()) + "\n"@ + assignment_lines(record.assignments@)
}

/// The lines of some nodes.
pub open spec fn roster_lines(records: Seq<DirectoryRecord>) -> Seq<char>
    decreases records.len(),
{
    if records.len() == 0 {
        Seq::empty()
    } else {
        roster_lines(records.drop_last()) + node_lines(records.last())
    }
}

/// The roster of a directory.
pub open spec fn roster_words(records: Seq<DirectoryRecord>) -> Seq<char> {
    "scripture: directory nodes="@ + decimal(records.len()) + " fresh="@ + decimal(
        fresh_count(records),
    ) + " stale="@ + decimal((records.len() - fresh_count(records)) as nat) + "\n"@ + roster_lines(
        records,
    )
}

/// The line of a ranked candidate.
pub open spec fn candidate_line(rank: nat, candidate: RankedCandidate) -> Seq<char> {
    "  "@ + decimal(rank) + ". endpoint="@ + candidate.endpoint@ + " owner="@
        + candidate.owner_id@ + " disposition="@ + candidate.disposition@ + " admits_acks="@
        + truth(candidate.claims_serving) + " fresh="@ + truth(candidate.fresh) + " age_ms="@
        + decimal(candidate.age_ms as nat) + "\n"@
}

/// The lines of ranked candidates, numbered from one.
pub open spec fn candidate_lines(candidates: Seq<RankedCandidate>) -> Seq<char>
    decreases candidates.len(),
{
    if candidates.len() == 0 {
        Seq::empty()
    } else {
        candidate_lines(candidates.drop_last()) + candidate_line(
            candidates.len(),
            candidates.last(),
        )
    }
}

/// The candidates of a Canon/Verse, best first.
pub open spec fn ranking_words(
    canon: Seq<char>,
    verse: Seq<char>,
    candidates: Seq<RankedCandidate>,
) -> Seq<char> {
    if candidates.len() == 0 {
        "\nscripture: no directory candidate for canon="@ + canon + " verse="@ + verse + "\n"@
    } else {
        "\nscripture: candidates for canon="@ + canon + " verse="@ + verse + " (best first)\n"@
            + candidate_lines(candidates)
            + "scripture: ranking is a hint; authority is decided by the serving Scribe's gate\n"@
    }
}

#[verifier::rlimit(40)]
fn push_assignment(text: &mut String, assignment: &DirectoryAssignment)
    ensures
        final(text)@ == old(text)@ + assignment_line(*assignment),
{
    let ghost before = text@;
    text.append("  canon=");
    text.append(assignment.canon.as_str());
    text.append(" verse=");
    text.append(assignment.verse.as_str());
    text.append(" advertise=");
    text.append(assignment.advertise.as_str());
    text.append(" posture=");
    text.append(assignment.posture.as_str());
    text.append(" disposition=");
    text.append(assignment.disposition.as_str());
    text.append(" admits_acks=");
    push_truth(text, assignment.admits_committed_acks);
    text.append("\n");
    assert(text@ =~= before + assignment_line(*assignment));
}

#[verifier::rlimit(40)]
fn push_node(text: &mut String, record: &DirectoryRecord)
    ensures
        final(text)@ == old(text)@ + node_lines(*record),
{
    let ghost before = text@;
    text.append("node owner=");
    text.append(record.owner_id.as_str());
    text.append(" advertise=");
    text.append(record.node_advertise.as_str());
    text.append(" fresh=");
    push_truth(text, record.fresh);
    text.append(" age_ms=");
    push_decimal(text, record.age_ms);
    text.append(" assignments=");
    push_decimal(text, record.assignments.len() as u64);
    text.append("\n");
    let ghost head = text@;
    let mut at: usize = 0;
    assert(text@ =~= head + assignment_lines(record.assignments@.take(0)));
    while at < record.assignments.len()
        invariant
            at <= record.assignments@.len(),
            text@ == head + assignment_lines(record.assignments@.take(at as int)),
        decreases record.assignments@.len() - at,
    {
        push_assignment(text, &record.assignments[at]);
        proof {
            assert(record.assignments@.take(at + 1).drop_last() =~= record.assignments@.take(
                at as int,
            ));
            assert(text@ =~= head + assignment_lines(record.assignments@.take(at + 1)));
        }
        at += 1;
    }
    assert(record.assignments@.take(at as int) =~= record.assignments@);
    assert(text@ =~= before + node_lines(*record));
}

fn count_fresh(records: &Vec<DirectoryRecord>) -> (count: usize)
    ensures
        count == fresh_count(records@),
        count <= records@.len(),
{
    let mut count: usize = 0;
    let mut at: usize = 0;
    while at < records.len()
        invariant
            count <= at <= records@.len(),
            count == fresh_count(records@.take(at as int)),
        decreases records@.len() - at,
    {
        assert(records@.take(at + 1).drop_last() =~= records@.take(at as int));
        if records[at].fresh {
            count += 1;
        }
        at += 1;
    }
    assert(records@.take(at as int) =~= records@);
    count
}

/// The roster of a directory: counts, then every node with its assignments.
pub fn print_roster(records: &Vec<DirectoryRecord>) -> (text: String)
    ensures
        text@ == roster_words(records@),
{
    let fresh: usize = count_fresh(records);
    let mut text = String::new();
    text.append("scripture: directory nodes=");
    push_decimal(&mut text, records.len() as u64);
    text.append(" fresh=");
    push_decimal(&mut text, fresh as u64);
    text.append(" stale=");
    push_decimal(&mut text, (records.len() - fresh) as u64);
    text.append("\n");
    let ghost head = text@;
    let mut at: usize = 0;
    assert(text@ =~= head + roster_lines(records@.take(0)));
    while at < records.len()
        invariant
            at <= records@.len(),
            text@ == head + roster_lines(records@.take(at as int)),
        decreases records@.len() - at,
    {
        push_node(&mut text, &records[at]);
        proof {
            assert(records@.take(at + 1).drop_last() =~= records@.take(at as int));
            assert(text@ =~= head + roster_lines(records@.take(at + 1)));
        }
        at += 1;
    }
    assert(records@.take(at as int) =~= records@);
    assert(text@ =~= roster_words(records@));
    text
}

/// The candidates of a Canon/Verse, best first.
pub fn print_ranking(canon: &str, verse: &str, candidates: &Vec<RankedCandidate>) -> (text: String)
    ensures
        text@ == ranking_words(canon@, verse@, candidates@),
{
    let mut text = String::new();
    if candidates.len() == 0 {
        text.append("\nscripture: no directory candidate for canon=");
        text.append(canon);
        text.append(" verse=");
        text.append(verse);
        text.append("\n");
        assert(text@ =~= ranking_words(canon@, verse@, candidates@));
        return text;
    }
    text.append("\nscripture: candidates for canon=");
    text.append(canon);
    text.append(" verse=");
    text.append(verse);
    text.append(" (best first)\n");
    let ghost head = text@;
    let mut at: usize = 0;
    assert(text@ =~= head + candidate_lines(candidates@.take(0)));
    while at < candidates.len()
        invariant
            at <= candidates@.len(),
            text@ == head + candidate_lines(candidates@.take(at as int)),
        decreases candidates@.len() - at,
    {
        push_candidate(&mut text, at as u64 + 1, &candidates[at]);
        proof {
            assert(candidates@.take(at + 1).drop_last() =~= candidates@.take(at as int));
            assert(text@ =~= head + candidate_lines(candidates@.take(at + 1)));
        }
        at += 1;
    }
    assert(candidates@.take(at as int) =~= candidates@);
    text.append("scripture: ranking is a hint; authority is decided by the serving Scribe's gate\n");
    assert(text@ =~= ranking_words(canon@, verse@, candidates@));
    text
}

#[verifier::rlimit(40)]
fn push_candidate(text: &mut String, rank: u64, candidate: &RankedCandidate)
    ensures
        final(text)@ == old(text)@ + candidate_line(rank as nat, *candidate),
{
    let ghost before = text@;
    text.append("  ");
    push_decimal(text, rank);
    text.append(". endpoint=");
    text.append(candidate.endpoint.as_str());
    text.append(" owner=");
    text.append(candidate.owner_id.as_str());
    text.append(" disposition=");
    text.append(candidate.disposition.as_str());
    text.append(" admits_acks=");
    push_truth(text, candidate.claims_serving);
    text.append(" fresh=");
    push_truth(text, candidate.fresh);
    text.append(" age_ms=");
    push_decimal(text, candidate.age_ms);
    text.append("\n");
    assert(text@ =~= before + candidate_line(rank as nat, *candidate));
}

/// What `directory` prints: the roster, and the ranking where one was asked for. An
/// empty directory is told apart from one whose records have all expired.
pub fn directory_report(
    prefix: &str,
    records: &Vec<DirectoryRecord>,
    scope: Option<(&str, &str)>,
    ranked: &Vec<RankedCandidate>,
) -> (text: String)
    ensures
        text@ == (if records@.len() == 0 {
            empty_words(prefix@)
        } else {
            match scope {
                Some((canon, verse)) => roster_words(records@) + ranking_words(
                    canon@,
                    verse@,
                    ranked@,
                ),
                None => roster_words(records@),
            }
        }),
{
    if records.len() == 0 {
        let mut text = String::new();
        text.append("scripture: directory empty prefix=");
        text.append(prefix);
        text.append("\n");
        text.append(
            "scripture: no node has published; this is distinct from every node having expired\n",
        );
        assert(text@ =~= empty_words(prefix@));
        return text;
    }
    let mut text = print_roster(records);
    if let Some((canon, verse)) = scope {
        text.append(print_ranking(canon, verse, ranked).as_str());
    }
    text
}

} // verus!
