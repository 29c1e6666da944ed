//! What holds of the directory as it is shown.
use crate::capability::{DirectoryAssignment, DirectoryRecord};
use crate::directory::{
    assignment_line, assignment_lines, candidate_line, candidate_lines, directory_report,
    fresh_count, node_lines, ranking_words, roster_lines, roster_words, truth, RankedCandidate,
};
use crate::text::decimal;
use crate::text_laws::{
    differ_behind, framed, lemma_differ_first, lemma_differ_here, lemma_differ_then,
    lemma_differ_then_four, lemma_differ_then_two,
};
use vstd::prelude::*;

verus! {

/// Two assignments that differ in one thing alone differ, in their lines, only behind its name.
pub proof fn law_assignment_lines_name_what_they_show(
    assignment: DirectoryAssignment,
    other: DirectoryAssignment,
)
    ensures
        differ_behind(
            assignment_line(assignment),
            assignment_line(DirectoryAssignment { canon: other.canon, ..assignment }),
            "  canon="@,
            assignment.canon@,
            other.canon@,
        ),
        differ_behind(
            assignment_line(assignment),
            assignment_line(DirectoryAssignment { verse: other.verse, ..assignment }),
            " verse="@,
            assignment.verse@,
            other.verse@,
        ),
        differ_behind(
            assignment_line(assignment),
            assignment_line(DirectoryAssignment { advertise: other.advertise, ..assignment }),
            " advertise="@,
            assignment.advertise@,
            other.advertise@,
        ),
        differ_behind(
            assignment_line(assignment),
            assignment_line(DirectoryAssignment { posture: other.posture, ..assignment }),
            " posture="@,
            assignment.posture@,
            other.posture@,
        ),
        differ_behind(
            assignment_line(assignment),
            assignment_line(DirectoryAssignment { disposition: other.disposition, ..assignment }),
            " disposition="@,
            assignment.disposition@,
            other.disposition@,
        ),
        differ_behind(
            assignment_line(assignment),
            assignment_line(DirectoryAssignment { admits_committed_acks: other.admits_committed_acks, ..assignment }),
            " admits_acks="@,
            truth(assignment.admits_committed_acks),
            truth(other.admits_committed_acks),
        ),
{
    lemma_differ_first("  canon="@, assignment.canon@, other.canon@);
    let one = "  canon="@ + assignment.canon@;
    let other_one = "  canon="@ + other.canon@;
    lemma_differ_then_four(
        one,
        other_one,
        "  canon="@,
        assignment.canon@,
        other.canon@,
        " verse="@,
        assignment.verse@,
        " advertise="@,
        assignment.advertise@,
    );
    let one = one + " verse="@ + assignment.verse@ + " advertise="@ + assignment.advertise@;
    let other_one = other_one + " verse="@ + assignment.verse@ + " advertise="@
        + assignment.advertise@;
    lemma_differ_then_four(
        one,
        other_one,
        "  canon="@,
        assignment.canon@,
        other.canon@,
        " posture="@,
        assignment.posture@,
        " disposition="@,
        assignment.disposition@,
    );
    let one = one + " posture="@ + assignment.posture@ + " disposition="@ + assignment.disposition@;
    let other_one = other_one + " posture="@ + assignment.posture@ + " disposition="@
        + assignment.disposition@;
    lemma_differ_then_two(
        one,
        other_one,
        "  canon="@,
        assignment.canon@,
        other.canon@,
        " admits_acks="@,
        truth(assignment.admits_committed_acks),
    );
    let one = one + " admits_acks="@ + truth(assignment.admits_committed_acks);
    let other_one = other_one + " admits_acks="@ + truth(assignment.admits_committed_acks);
    lemma_differ_then(one, other_one, "  canon="@, assignment.canon@, other.canon@, "\n"@);
    lemma_differ_here("  canon="@ + assignment.canon@, " verse="@, assignment.verse@, other.verse@);
    let one = "  canon="@ + assignment.canon@ + " verse="@ + assignment.verse@;
    let other_one = "  canon="@ + assignment.canon@ + " verse="@ + other.verse@;
    lemma_differ_then_four(
        one,
        other_one,
        " verse="@,
        assignment.verse@,
        other.verse@,
        " advertise="@,
        assignment.advertise@,
        " posture="@,
        assignment.posture@,
    );
    let one = one + " advertise="@ + assignment.advertise@ + " posture="@ + assignment.posture@;
    let other_one = other_one + " advertise="@ + assignment.advertise@ + " posture="@
        + assignment.posture@;
    lemma_differ_then_four(
        one,
        other_one,
        " verse="@,
        assignment.verse@,
        other.verse@,
        " disposition="@,
        assignment.disposition@,
        " admits_acks="@,
        truth(assignment.admits_committed_acks),
    );
    let one = one + " disposition="@ + assignment.disposition@ + " admits_acks="@
        + truth(assignment.admits_committed_acks);
    let other_one = other_one + " disposition="@ + assignment.disposition@ + " admits_acks="@
        + truth(assignment.admits_committed_acks);
    lemma_differ_then(one, other_one, " verse="@, assignment.verse@, other.verse@, "\n"@);
    lemma_differ_here(
        "  canon="@ + assignment.canon@ + " verse="@ + assignment.verse@,
        " advertise="@,
        assignment.advertise@,
        other.advertise@,
    );
    let one = "  canon="@ + assignment.canon@ + " verse="@ + assignment.verse@ + " advertise="@
        + assignment.advertise@;
    let other_one = "  canon="@ + assignment.canon@ + " verse="@ + assignment.verse@
        + " advertise="@ + other.advertise@;
    lemma_differ_then_four(
        one,
        other_one,
        " advertise="@,
        assignment.advertise@,
        other.advertise@,
        " posture="@,
        assignment.posture@,
        " disposition="@,
        assignment.disposition@,
    );
    let one = one + " posture="@ + assignment.posture@ + " disposition="@ + assignment.disposition@;
    let other_one = other_one + " posture="@ + assignment.posture@ + " disposition="@
        + assignment.disposition@;
    lemma_differ_then_two(
        one,
        other_one,
        " advertise="@,
        assignment.advertise@,
        other.advertise@,
        " admits_acks="@,
        truth(assignment.admits_committed_acks),
    );
    let one = one + " admits_acks="@ + truth(assignment.admits_committed_acks);
    let other_one = other_one + " admits_acks="@ + truth(assignment.admits_committed_acks);
    lemma_differ_then(
        one,
        other_one,
        " advertise="@,
        assignment.advertise@,
        other.advertise@,
        "\n"@,
    );
    lemma_differ_here(
        "  canon="@ + assignment.canon@ + " verse="@ + assignment.verse@ + " advertise="@
            + assignment.advertise@,
        " posture="@,
        assignment.posture@,
        other.posture@,
    );
    let one = "  canon="@ + assignment.canon@ + " verse="@ + assignment.verse@ + " advertise="@
        + assignment.advertise@ + " posture="@ + assignment.posture@;
    let other_one = "  canon="@ + assignment.canon@ + " verse="@ + assignment.verse@
        + " advertise="@ + assignment.advertise@ + " posture="@ + other.posture@;
    lemma_differ_then_four(
        one,
        other_one,
        " posture="@,
        assignment.posture@,
        other.posture@,
        " disposition="@,
        assignment.disposition@,
        " admits_acks="@,
        truth(assignment.admits_committed_acks),
    );
    let one = one + " disposition="@ + assignment.disposition@ + " admits_acks="@
        + truth(assignment.admits_committed_acks);
    let other_one = other_one + " disposition="@ + assignment.disposition@ + " admits_acks="@
        + truth(assignment.admits_committed_acks);
    lemma_differ_then(one, other_one, " posture="@, assignment.posture@, other.posture@, "\n"@);
    lemma_differ_here(
        "  canon="@ + assignment.canon@ + " verse="@ + assignment.verse@ + " advertise="@
            + assignment.advertise@ + " posture="@ + assignment.posture@,
        " disposition="@,
        assignment.disposition@,
        other.disposition@,
    );
    let one = "  canon="@ + assignment.canon@ + " verse="@ + assignment.verse@ + " advertise="@
        + assignment.advertise@ + " posture="@ + assignment.posture@ + " disposition="@
        + assignment.disposition@;
    let other_one = "  canon="@ + assignment.canon@ + " verse="@ + assignment.verse@
        + " advertise="@ + assignment.advertise@ + " posture="@ + assignment.posture@
        + " disposition="@ + other.disposition@;
    lemma_differ_then_two(
        one,
        other_one,
        " disposition="@,
        assignment.disposition@,
        other.disposition@,
        " admits_acks="@,
        truth(assignment.admits_committed_acks),
    );
    let one = one + " admits_acks="@ + truth(assignment.admits_committed_acks);
    let other_one = other_one + " admits_acks="@ + truth(assignment.admits_committed_acks);
    lemma_differ_then(
        one,
        other_one,
        " disposition="@,
        assignment.disposition@,
        other.disposition@,
        "\n"@,
    );
    lemma_differ_here(
        "  canon="@ + assignment.canon@ + " verse="@ + assignment.verse@ + " advertise="@
            + assignment.advertise@ + " posture="@ + assignment.posture@ + " disposition="@
            + assignment.disposition@,
        " admits_acks="@,
        truth(assignment.admits_committed_acks),
        truth(other.admits_committed_acks),
    );
    let one = "  canon="@ + assignment.canon@ + " verse="@ + assignment.verse@ + " advertise="@
        + assignment.advertise@ + " posture="@ + assignment.posture@ + " disposition="@
        + assignment.disposition@ + " admits_acks="@ + truth(assignment.admits_committed_acks);
    let other_one = "  canon="@ + assignment.canon@ + " verse="@ + assignment.verse@
        + " advertise="@ + assignment.advertise@ + " posture="@ + assignment.posture@
        + " disposition="@ + assignment.disposition@ + " admits_acks="@
        + truth(other.admits_committed_acks);
    lemma_differ_then(
        one,
        other_one,
        " admits_acks="@,
        truth(assignment.admits_committed_acks),
        truth(other.admits_committed_acks),
        "\n"@,
    );
}

/// Two nodes that differ in one thing alone differ, in their lines, only behind its name.
pub proof fn law_node_lines_name_what_they_show(record: DirectoryRecord, other: DirectoryRecord)
    ensures
        differ_behind(
            node_lines(record),
            node_lines(DirectoryRecord { owner_id: other.owner_id, ..record }),
            "node owner="@,
            record.owner_id@,
            other.owner_id@,
        ),
        differ_behind(
            node_lines(record),
            node_lines(DirectoryRecord { node_advertise: other.node_advertise, ..record }),
            " advertise="@,
            record.node_advertise@,
            other.node_advertise@,
        ),
        differ_behind(
            node_lines(record),
            node_lines(DirectoryRecord { fresh: other.fresh, ..record }),
            " fresh="@,
            truth(record.fresh),
            truth(other.fresh),
        ),
        differ_behind(
            node_lines(record),
            node_lines(DirectoryRecord { age_ms: other.age_ms, ..record }),
            " age_ms="@,
            decimal(record.age_ms as nat),
            decimal(other.age_ms as nat),
        ),
{
    lemma_differ_first("node owner="@, record.owner_id@, other.owner_id@);
    let one = "node owner="@ + record.owner_id@;
    let other_one = "node owner="@ + other.owner_id@;
    lemma_differ_then_four(
        one,
        other_one,
        "node owner="@,
        record.owner_id@,
        other.owner_id@,
        " advertise="@,
        record.node_advertise@,
        " fresh="@,
        truth(record.fresh),
    );
    let one = one + " advertise="@ + record.node_advertise@ + " fresh="@ + truth(record.fresh);
    let other_one = other_one + " advertise="@ + record.node_advertise@ + " fresh="@
        + truth(record.fresh);
    lemma_differ_then_four(
        one,
        other_one,
        "node owner="@,
        record.owner_id@,
        other.owner_id@,
        " age_ms="@,
        decimal(record.age_ms as nat),
        " assignments="@,
        decimal(record.assignments@.len()),
    );
    let one = one + " age_ms="@ + decimal(record.age_ms as nat) + " assignments="@
        + decimal(record.assignments@.len());
    let other_one = other_one + " age_ms="@ + decimal(record.age_ms as nat) + " assignments="@
        + decimal(record.assignments@.len());
    lemma_differ_then_two(
        one,
        other_one,
        "node owner="@,
        record.owner_id@,
        other.owner_id@,
        "\n"@,
        assignment_lines(record.assignments@),
    );
    lemma_differ_here(
        "node owner="@ + record.owner_id@,
        " advertise="@,
        record.node_advertise@,
        other.node_advertise@,
    );
    let one = "node owner="@ + record.owner_id@ + " advertise="@ + record.node_advertise@;
    let other_one = "node owner="@ + record.owner_id@ + " advertise="@ + other.node_advertise@;
    lemma_differ_then_four(
        one,
        other_one,
        " advertise="@,
        record.node_advertise@,
        other.node_advertise@,
        " fresh="@,
        truth(record.fresh),
        " age_ms="@,
        decimal(record.age_ms as nat),
    );
    let one = one + " fresh="@ + truth(record.fresh) + " age_ms="@ + decimal(record.age_ms as nat);
    let other_one = other_one + " fresh="@ + truth(record.fresh) + " age_ms="@
        + decimal(record.age_ms as nat);
    lemma_differ_then_four(
        one,
        other_one,
        " advertise="@,
        record.node_advertise@,
        other.node_advertise@,
        " assignments="@,
        decimal(record.assignments@.len()),
        "\n"@,
        assignment_lines(record.assignments@),
    );
    lemma_differ_here(
        "node owner="@ + record.owner_id@ + " advertise="@ + record.node_advertise@,
        " fresh="@,
        truth(record.fresh),
        truth(other.fresh),
    );
    let one = "node owner="@ + record.owner_id@ + " advertise="@ + record.node_advertise@
        + " fresh="@ + truth(record.fresh);
    let other_one = "node owner="@ + record.owner_id@ + " advertise="@ + record.node_advertise@
        + " fresh="@ + truth(other.fresh);
    lemma_differ_then_four(
        one,
        other_one,
        " fresh="@,
        truth(record.fresh),
        truth(other.fresh),
        " age_ms="@,
        decimal(record.age_ms as nat),
        " assignments="@,
        decimal(record.assignments@.len()),
    );
    let one = one + " age_ms="@ + decimal(record.age_ms as nat) + " assignments="@
        + decimal(record.assignments@.len());
    let other_one = other_one + " age_ms="@ + decimal(record.age_ms as nat) + " assignments="@
        + decimal(record.assignments@.len());
    lemma_differ_then_two(
        one,
        other_one,
        " fresh="@,
        truth(record.fresh),
        truth(other.fresh),
        "\n"@,
        assignment_lines(record.assignments@),
    );
    lemma_differ_here(
        "node owner="@ + record.owner_id@ + " advertise="@ + record.node_advertise@ + " fresh="@
            + truth(record.fresh),
        " age_ms="@,
        decimal(record.age_ms as nat),
        decimal(other.age_ms as nat),
    );
    let one = "node owner="@ + record.owner_id@ + " advertise="@ + record.node_advertise@
        + " fresh="@ + truth(record.fresh) + " age_ms="@ + decimal(record.age_ms as nat);
    let other_one = "node owner="@ + record.owner_id@ + " advertise="@ + record.node_advertise@
        + " fresh="@ + truth(record.fresh) + " age_ms="@ + decimal(other.age_ms as nat);
    lemma_differ_then_four(
        one,
        other_one,
        " age_ms="@,
        decimal(record.age_ms as nat),
        decimal(other.age_ms as nat),
        " assignments="@,
        decimal(record.assignments@.len()),
        "\n"@,
        assignment_lines(record.assignments@),
    );
}

/// Two candidates that differ in one thing alone differ, in their lines, only behind its name; each
/// is numbered by its rank.
pub proof fn law_candidate_lines_name_what_they_show(
    candidate: RankedCandidate,
    other: RankedCandidate,
    rank: nat,
    other_rank: nat,
)
    ensures
        differ_behind(
            candidate_line(rank, candidate),
            candidate_line(other_rank, candidate),
            "  "@,
            decimal(rank),
            decimal(other_rank),
        ),
        differ_behind(
            candidate_line(rank, candidate),
            candidate_line(rank, RankedCandidate { endpoint: other.endpoint, ..candidate }),
            ". endpoint="@,
            candidate.endpoint@,
            other.endpoint@,
        ),
        differ_behind(
            candidate_line(rank, candidate),
            candidate_line(rank, RankedCandidate { owner_id: other.owner_id, ..candidate }),
            " owner="@,
            candidate.owner_id@,
            other.owner_id@,
        ),
        differ_behind(
            candidate_line(rank, candidate),
            candidate_line(rank, RankedCandidate { disposition: other.disposition, ..candidate }),
            " disposition="@,
            candidate.disposition@,
            other.disposition@,
        ),
        differ_behind(
            candidate_line(rank, candidate),
            candidate_line(
                rank,
                RankedCandidate { claims_serving: other.claims_serving, ..candidate },
            ),
            " admits_acks="@,
            truth(candidate.claims_serving),
            truth(other.claims_serving),
        ),
        differ_behind(
            candidate_line(rank, candidate),
            candidate_line(rank, RankedCandidate { fresh: other.fresh, ..candidate }),
            " fresh="@,
            truth(candidate.fresh),
            truth(other.fresh),
        ),
        differ_behind(
            candidate_line(rank, candidate),
            candidate_line(rank, RankedCandidate { age_ms: other.age_ms, ..candidate }),
            " age_ms="@,
            decimal(candidate.age_ms as nat),
            decimal(other.age_ms as nat),
        ),
{
    lemma_differ_first("  "@, decimal(rank), decimal(other_rank));
    let one = "  "@ + decimal(rank);
    let other_one = "  "@ + decimal(other_rank);
    lemma_differ_then_four(
        one,
        other_one,
        "  "@,
        decimal(rank),
        decimal(other_rank),
        ". endpoint="@,
        candidate.endpoint@,
        " owner="@,
        candidate.owner_id@,
    );
    let one = one + ". endpoint="@ + candidate.endpoint@ + " owner="@ + candidate.owner_id@;
    let other_one = other_one + ". endpoint="@ + candidate.endpoint@ + " owner="@
        + candidate.owner_id@;
    lemma_differ_then_four(
        one,
        other_one,
        "  "@,
        decimal(rank),
        decimal(other_rank),
        " disposition="@,
        candidate.disposition@,
        " admits_acks="@,
        truth(candidate.claims_serving),
    );
    let one = one + " disposition="@ + candidate.disposition@ + " admits_acks="@
        + truth(candidate.claims_serving);
    let other_one = other_one + " disposition="@ + candidate.disposition@ + " admits_acks="@
        + truth(candidate.claims_serving);
    lemma_differ_then_four(
        one,
        other_one,
        "  "@,
        decimal(rank),
        decimal(other_rank),
        " fresh="@,
        truth(candidate.fresh),
        " age_ms="@,
        decimal(candidate.age_ms as nat),
    );
    let one = one + " fresh="@ + truth(candidate.fresh) + " age_ms="@
        + decimal(candidate.age_ms as nat);
    let other_one = other_one + " fresh="@ + truth(candidate.fresh) + " age_ms="@
        + decimal(candidate.age_ms as nat);
    lemma_differ_then(one, other_one, "  "@, decimal(rank), decimal(other_rank), "\n"@);
    lemma_differ_here("  "@ + decimal(rank), ". endpoint="@, candidate.endpoint@, other.endpoint@);
    let one = "  "@ + decimal(rank) + ". endpoint="@ + candidate.endpoint@;
    let other_one = "  "@ + decimal(rank) + ". endpoint="@ + other.endpoint@;
    lemma_differ_then_four(
        one,
        other_one,
        ". endpoint="@,
        candidate.endpoint@,
        other.endpoint@,
        " owner="@,
        candidate.owner_id@,
        " disposition="@,
        candidate.disposition@,
    );
    let one = one + " owner="@ + candidate.owner_id@ + " disposition="@ + candidate.disposition@;
    let other_one = other_one + " owner="@ + candidate.owner_id@ + " disposition="@
        + candidate.disposition@;
    lemma_differ_then_four(
        one,
        other_one,
        ". endpoint="@,
        candidate.endpoint@,
        other.endpoint@,
        " admits_acks="@,
        truth(candidate.claims_serving),
        " fresh="@,
        truth(candidate.fresh),
    );
    let one = one + " admits_acks="@ + truth(candidate.claims_serving) + " fresh="@
        + truth(candidate.fresh);
    let other_one = other_one + " admits_acks="@ + truth(candidate.claims_serving) + " fresh="@
        + truth(candidate.fresh);
    lemma_differ_then_two(
        one,
        other_one,
        ". endpoint="@,
        candidate.endpoint@,
        other.endpoint@,
        " age_ms="@,
        decimal(candidate.age_ms as nat),
    );
    let one = one + " age_ms="@ + decimal(candidate.age_ms as nat);
    let other_one = other_one + " age_ms="@ + decimal(candidate.age_ms as nat);
    lemma_differ_then(one, other_one, ". endpoint="@, candidate.endpoint@, other.endpoint@, "\n"@);
    lemma_differ_here(
        "  "@ + decimal(rank) + ". endpoint="@ + candidate.endpoint@,
        " owner="@,
        candidate.owner_id@,
        other.owner_id@,
    );
    let one = "  "@ + decimal(rank) + ". endpoint="@ + candidate.endpoint@ + " owner="@
        + candidate.owner_id@;
    let other_one = "  "@ + decimal(rank) + ". endpoint="@ + candidate.endpoint@ + " owner="@
        + other.owner_id@;
    lemma_differ_then_four(
        one,
        other_one,
        " owner="@,
        candidate.owner_id@,
        other.owner_id@,
        " disposition="@,
        candidate.disposition@,
        " admits_acks="@,
        truth(candidate.claims_serving),
    );
    let one = one + " disposition="@ + candidate.disposition@ + " admits_acks="@
        + truth(candidate.claims_serving);
    let other_one = other_one + " disposition="@ + candidate.disposition@ + " admits_acks="@
        + truth(candidate.claims_serving);
    lemma_differ_then_four(
        one,
        other_one,
        " owner="@,
        candidate.owner_id@,
        other.owner_id@,
        " fresh="@,
        truth(candidate.fresh),
        " age_ms="@,
        decimal(candidate.age_ms as nat),
    );
    let one = one + " fresh="@ + truth(candidate.fresh) + " age_ms="@
        + decimal(candidate.age_ms as nat);
    let other_one = other_one + " fresh="@ + truth(candidate.fresh) + " age_ms="@
        + decimal(candidate.age_ms as nat);
    lemma_differ_then(one, other_one, " owner="@, candidate.owner_id@, other.owner_id@, "\n"@);
    lemma_differ_here(
        "  "@ + decimal(rank) + ". endpoint="@ + candidate.endpoint@ + " owner="@
            + candidate.owner_id@,
        " disposition="@,
        candidate.disposition@,
        other.disposition@,
    );
    let one = "  "@ + decimal(rank) + ". endpoint="@ + candidate.endpoint@ + " owner="@
        + candidate.owner_id@ + " disposition="@ + candidate.disposition@;
    let other_one = "  "@ + decimal(rank) + ". endpoint="@ + candidate.endpoint@ + " owner="@
        + candidate.owner_id@ + " disposition="@ + other.disposition@;
    lemma_differ_then_four(
        one,
        other_one,
        " disposition="@,
        candidate.disposition@,
        other.disposition@,
        " admits_acks="@,
        truth(candidate.claims_serving),
        " fresh="@,
        truth(candidate.fresh),
    );
    let one = one + " admits_acks="@ + truth(candidate.claims_serving) + " fresh="@
        + truth(candidate.fresh);
    let other_one = other_one + " admits_acks="@ + truth(candidate.claims_serving) + " fresh="@
        + truth(candidate.fresh);
    lemma_differ_then_two(
        one,
        other_one,
        " disposition="@,
        candidate.disposition@,
        other.disposition@,
        " age_ms="@,
        decimal(candidate.age_ms as nat),
    );
    let one = one + " age_ms="@ + decimal(candidate.age_ms as nat);
    let other_one = other_one + " age_ms="@ + decimal(candidate.age_ms as nat);
    lemma_differ_then(
        one,
        other_one,
        " disposition="@,
        candidate.disposition@,
        other.disposition@,
        "\n"@,
    );
    lemma_differ_here(
        "  "@ + decimal(rank) + ". endpoint="@ + candidate.endpoint@ + " owner="@
            + candidate.owner_id@ + " disposition="@ + candidate.disposition@,
        " admits_acks="@,
        truth(candidate.claims_serving),
        truth(other.claims_serving),
    );
    let one = "  "@ + decimal(rank) + ". endpoint="@ + candidate.endpoint@ + " owner="@
        + candidate.owner_id@ + " disposition="@ + candidate.disposition@ + " admits_acks="@
        + truth(candidate.claims_serving);
    let other_one = "  "@ + decimal(rank) + ". endpoint="@ + candidate.endpoint@ + " owner="@
        + candidate.owner_id@ + " disposition="@ + candidate.disposition@ + " admits_acks="@
        + truth(other.claims_serving);
    lemma_differ_then_four(
        one,
        other_one,
        " admits_acks="@,
        truth(candidate.claims_serving),
        truth(other.claims_serving),
        " fresh="@,
        truth(candidate.fresh),
        " age_ms="@,
        decimal(candidate.age_ms as nat),
    );
    let one = one + " fresh="@ + truth(candidate.fresh) + " age_ms="@
        + decimal(candidate.age_ms as nat);
    let other_one = other_one + " fresh="@ + truth(candidate.fresh) + " age_ms="@
        + decimal(candidate.age_ms as nat);
    lemma_differ_then(
        one,
        other_one,
        " admits_acks="@,
        truth(candidate.claims_serving),
        truth(other.claims_serving),
        "\n"@,
    );
    lemma_differ_here(
        "  "@ + decimal(rank) + ". endpoint="@ + candidate.endpoint@ + " owner="@
            + candidate.owner_id@ + " disposition="@ + candidate.disposition@ + " admits_acks="@
            + truth(candidate.claims_serving),
        " fresh="@,
        truth(candidate.fresh),
        truth(other.fresh),
    );
    let one = "  "@ + decimal(rank) + ". endpoint="@ + candidate.endpoint@ + " owner="@
        + candidate.owner_id@ + " disposition="@ + candidate.disposition@ + " admits_acks="@
        + truth(candidate.claims_serving) + " fresh="@ + truth(candidate.fresh);
    let other_one = "  "@ + decimal(rank) + ". endpoint="@ + candidate.endpoint@ + " owner="@
        + candidate.owner_id@ + " disposition="@ + candidate.disposition@ + " admits_acks="@
        + truth(candidate.claims_serving) + " fresh="@ + truth(other.fresh);
    lemma_differ_then_two(
        one,
        other_one,
        " fresh="@,
        truth(candidate.fresh),
        truth(other.fresh),
        " age_ms="@,
        decimal(candidate.age_ms as nat),
    );
    let one = one + " age_ms="@ + decimal(candidate.age_ms as nat);
    let other_one = other_one + " age_ms="@ + decimal(candidate.age_ms as nat);
    lemma_differ_then(
        one,
        other_one,
        " fresh="@,
        truth(candidate.fresh),
        truth(other.fresh),
        "\n"@,
    );
    lemma_differ_here(
        "  "@ + decimal(rank) + ". endpoint="@ + candidate.endpoint@ + " owner="@
            + candidate.owner_id@ + " disposition="@ + candidate.disposition@ + " admits_acks="@
            + truth(candidate.claims_serving) + " fresh="@ + truth(candidate.fresh),
        " age_ms="@,
        decimal(candidate.age_ms as nat),
        decimal(other.age_ms as nat),
    );
    let one = "  "@ + decimal(rank) + ". endpoint="@ + candidate.endpoint@ + " owner="@
        + candidate.owner_id@ + " disposition="@ + candidate.disposition@ + " admits_acks="@
        + truth(candidate.claims_serving) + " fresh="@ + truth(candidate.fresh) + " age_ms="@
        + decimal(candidate.age_ms as nat);
    let other_one = "  "@ + decimal(rank) + ". endpoint="@ + candidate.endpoint@ + " owner="@
        + candidate.owner_id@ + " disposition="@ + candidate.disposition@ + " admits_acks="@
        + truth(candidate.claims_serving) + " fresh="@ + truth(candidate.fresh) + " age_ms="@
        + decimal(other.age_ms as nat);
    lemma_differ_then(
        one,
        other_one,
        " age_ms="@,
        decimal(candidate.age_ms as nat),
        decimal(other.age_ms as nat),
        "\n"@,
    );
}

/// Truth is told as it is.
pub proof fn law_truth_is_told()
    ensures
        truth(true) == "true"@,
        truth(false) == "false"@,
{
}

/// Each assignment, each node and each candidate has its lines, in its order; candidates are
/// numbered from one.
pub proof fn law_the_directory_goes_line_by_line(
    assignments: Seq<DirectoryAssignment>,
    assignment: DirectoryAssignment,
    records: Seq<DirectoryRecord>,
    record: DirectoryRecord,
    candidates: Seq<RankedCandidate>,
    candidate: RankedCandidate,
)
    ensures
        assignment_lines(assignments.push(assignment)) == assignment_lines(assignments)
            + assignment_line(assignment),
        roster_lines(records.push(record)) == roster_lines(records) + node_lines(record),
        candidate_lines(candidates.push(candidate)) == candidate_lines(candidates)
            + candidate_line(candidates.len() + 1, candidate),
        assignment_lines(Seq::empty()).len() == 0,
        roster_lines(Seq::empty()).len() == 0,
        candidate_lines(Seq::empty()).len() == 0,
{
    assert(assignments.push(assignment).drop_last() =~= assignments);
    assert(records.push(record).drop_last() =~= records);
    assert(candidates.push(candidate).drop_last() =~= candidates);
}

/// A node is counted as fresh exactly where its record is, and fresh and stale ones are all.
pub proof fn law_nodes_are_fresh_or_stale(records: Seq<DirectoryRecord>, record: DirectoryRecord)
    ensures
        fresh_count(records.push(record)) == fresh_count(records) + (if record.fresh {
            1nat
        } else {
            0
        }),
        fresh_count(records) <= records.len(),
        fresh_count(Seq::empty()) == 0,
    decreases records.len(),
{
    assert(records.push(record).drop_last() =~= records);
    if records.len() > 0 {
        law_nodes_are_fresh_or_stale(records.drop_last(), records.last());
    }
}

/// A roster counts its nodes, the fresh and the stale ones, and then lists them.
pub proof fn law_rosters_count_their_nodes(records: Seq<DirectoryRecord>, fresh: nat, stale: nat)
    requires
        fresh == fresh_count(records),
        fresh + stale == records.len(),
    ensures
        roster_words(records) == "scripture: directory nodes="@ + decimal(fresh + stale)
            + " fresh="@ + decimal(fresh) + " stale="@ + decimal(stale) + "\n"@ + roster_lines(
            records,
        ),
{
}

/// A ranking lists its candidates between its title and the hint; without any, it says so by
/// name.
pub proof fn law_rankings_list_their_candidates(
    canon: Seq<char>,
    verse: Seq<char>,
    other: Seq<char>,
    candidates: Seq<RankedCandidate>,
)
    requires
        candidates.len() > 0,
    ensures
        exists|head: Seq<char>, tail: Seq<char>| #[trigger]
            framed(
                ranking_words(canon, verse, candidates),
                head,
                candidate_lines(candidates),
                tail,
            ),
        differ_behind(
            ranking_words(canon, verse, candidates),
            ranking_words(other, verse, candidates),
            "\nscripture: candidates for canon="@,
            canon,
            other,
        ),
        differ_behind(
            ranking_words(canon, verse, candidates),
            ranking_words(canon, other, candidates),
            " verse="@,
            verse,
            other,
        ),
        differ_behind(
            ranking_words(canon, verse, Seq::empty()),
            ranking_words(other, verse, Seq::empty()),
            "\nscripture: no directory candidate for canon="@,
            canon,
            other,
        ),
        differ_behind(
            ranking_words(canon, verse, Seq::empty()),
            ranking_words(canon, other, Seq::empty()),
            " verse="@,
            verse,
            other,
        ),
{
    let title = "\nscripture: candidates for canon="@;
    let best = " (best first)\n"@;
    let lines = candidate_lines(candidates);
    let hint =
        "scripture: ranking is a hint; authority is decided by the serving Scribe's gate\n"@;
    let head = title + canon + " verse="@ + verse + best;
    assert(framed(ranking_words(canon, verse, candidates), head, lines, hint));
    lemma_differ_first(title, canon, other);
    lemma_differ_then_four(
        title + canon,
        title + other,
        title,
        canon,
        other,
        " verse="@,
        verse,
        best,
        lines,
    );
    lemma_differ_then(
        title + canon + " verse="@ + verse + best + lines,
        title + other + " verse="@ + verse + best + lines,
        title,
        canon,
        other,
        hint,
    );
    lemma_differ_here(title + canon, " verse="@, verse, other);
    let one = title + canon + " verse="@ + verse;
    let changed = title + canon + " verse="@ + other;
    lemma_differ_then_two(one, changed, " verse="@, verse, other, best, lines);
    lemma_differ_then(
        one + best + lines,
        changed + best + lines,
        " verse="@,
        verse,
        other,
        hint,
    );
    let title = "\nscripture: no directory candidate for canon="@;
    lemma_differ_first(title, canon, other);
    lemma_differ_then_two(
        title + canon,
        title + other,
        title,
        canon,
        other,
        " verse="@,
        verse,
    );
    lemma_differ_then(
        title + canon + " verse="@ + verse,
        title + other + " verse="@ + verse,
        title,
        canon,
        other,
        "\n"@,
    );
    lemma_differ_here(title + canon, " verse="@, verse, other);
    lemma_differ_then(
        title + canon + " verse="@ + verse,
        title + canon + " verse="@ + other,
        " verse="@,
        verse,
        other,
        "\n"@,
    );
}

/// The report is the roster, with the ranking where one was asked for; an empty directory is
/// told by its prefix.
pub proof fn law_reports_hold_roster_and_ranking(
    prefix: &str,
    other: &str,
    records: Vec<DirectoryRecord>,
    none: Vec<DirectoryRecord>,
    canon: &str,
    verse: &str,
    ranked: Vec<RankedCandidate>,
    whole: String,
    roster: String,
    empty: String,
    other_empty: String,
)
    requires
        records@.len() > 0,
        none@.len() == 0,
        call_ensures(directory_report, (prefix, &records, Some((canon, verse)), &ranked), whole),
        call_ensures(directory_report, (prefix, &records, None, &ranked), roster),
        call_ensures(directory_report, (prefix, &none, None, &ranked), empty),
        call_ensures(directory_report, (other, &none, None, &ranked), other_empty),
    ensures
        roster@ == roster_words(records@),
        whole@ == roster@ + ranking_words(canon@, verse@, ranked@),
        differ_behind(
            empty@,
            other_empty@,
            "scripture: directory empty prefix="@,
            prefix@,
            other@,
        ),
{
    let label = "scripture: directory empty prefix="@;
    lemma_differ_first(label, prefix@, other@);
    lemma_differ_then_two(
        label + prefix@,
        label + other@,
        label,
        prefix@,
        other@,
        "\n"@,
        "scripture: no node has published; this is distinct from every node having expired\n"@,
    );
}

} // verus!
