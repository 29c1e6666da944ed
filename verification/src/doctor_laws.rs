//! What holds of the capability report: its ages, its observations and its sections.
use crate::capability::{CandidateView, CapabilityInputs, ServingNow, VerseInputsView};
use crate::doctor::{
    age_scale, age_tenths, age_words, any_stale, availability_section, availability_sections,
    candidate_lines, canon_section, continuity_section, domain_section, field_line, format_age,
    format_human, fresh_lines, human_report, is_disclosure_of, observation_words,
    render_disclosure, serving_line, CandidateLine,
    CanonHistoryReport, CapabilityReport, Evaluation, FailureDomainReport, LineView,
    ProducerContinuityReport,
    ScribeAvailabilityReport,
};
use crate::text::decimal;
use crate::text_laws::{
    differ_behind, lemma_differ_after, lemma_differ_first, lemma_differ_here, lemma_differ_then,
    lemma_differ_then_four, lemma_differ_then_two,
};
use vstd::prelude::*;

verus! {

/// Halfway between two tenths, the side of the double-precision number that the seconds are
/// decides; where that number is exact, the even tenth is taken.
#[verifier::spinoff_prover]
#[verifier::rlimit(30)]
pub proof fn law_halves_follow_the_double(age_ms: u64, mantissa: int)
    requires
        age_ms < 60_000,
        age_ms % 100 == 50,
        -500 < 1000 * mantissa - age_ms * age_scale(age_ms) < 500,
    ensures
        1000 * mantissa < age_ms * age_scale(age_ms) ==> age_tenths(age_ms) == age_ms / 100,
        1000 * mantissa > age_ms * age_scale(age_ms) ==> age_tenths(age_ms) == age_ms / 100 + 1,
        1000 * mantissa == age_ms * age_scale(age_ms) ==> age_tenths(age_ms) % 2 == 0 && (
        age_tenths(age_ms) == age_ms / 100 || age_tenths(age_ms) == age_ms / 100 + 1),
{
    lemma_nearest(age_ms * age_scale(age_ms), mantissa);
}

proof fn lemma_nearest(scaled: int, mantissa: int)
    requires
        -500 < 1000 * mantissa - scaled < 500,
    ensures
        1000 * mantissa < scaled ==> 0 < scaled % 1000 < 500,
        1000 * mantissa > scaled ==> 500 < scaled % 1000,
        1000 * mantissa == scaled ==> scaled % 1000 == 0,
{
    assert(scaled == 1000 * (scaled / 1000) + scaled % 1000);
}

/// An age is shown in seconds and tenths below a minute, and from there in whole minutes.
pub proof fn law_ages_are_seconds_or_minutes(age_ms: u64, minutes: nat, seconds: nat, tenths: nat)
    ensures
        minutes > 0 && minutes * 60_000 <= age_ms < (minutes + 1) * 60_000 ==> age_words(age_ms)
            == decimal(minutes) + "m ago"@,
        age_ms < 60_000 && tenths < 10 && 10 * seconds + tenths == age_tenths(age_ms) ==> age_words(
            age_ms,
        ) == decimal(seconds) + "."@ + decimal(tenths) + "s ago"@,
{
}

/// A candidate is listed, last, exactly where it is one of the Verse and was heard of lately.
pub proof fn law_fresh_candidates_are_listed(
    candidates: Seq<CandidateView>,
    candidate: CandidateView,
    canon: Seq<char>,
    verse: Seq<char>,
)
    ensures
        ({
            let before = fresh_lines(candidates, canon, verse);
            let after = fresh_lines(candidates.push(candidate), canon, verse);
            let listed = candidate.canon == canon && candidate.verse == verse && candidate.fresh;
            &&& !listed ==> after == before
            &&& listed ==> after == before.push(
                LineView {
                    owner_id: candidate.owner_id,
                    posture: candidate.posture,
                    disposition: candidate.disposition,
                    age_ms: candidate.age_ms,
                    age_display: age_words(candidate.age_ms),
                },
            )
        }),
        fresh_lines(Seq::empty(), canon, verse).len() == 0,
{
    assert(candidates.push(candidate).drop_last() =~= candidates);
}

/// A Verse has expired candidates exactly where one of its own was not heard of lately.
pub proof fn law_expired_candidates_are_noticed(
    candidates: Seq<CandidateView>,
    candidate: CandidateView,
    canon: Seq<char>,
    verse: Seq<char>,
)
    ensures
        any_stale(candidates.push(candidate), canon, verse) <==> any_stale(candidates, canon, verse)
            || (candidate.canon == canon && candidate.verse == verse && !candidate.fresh),
        !any_stale(Seq::empty(), canon, verse),
{
    let more = candidates.push(candidate);
    assert(more[candidates.len() as int] == candidate);
    assert forall|i: int| 0 <= i < candidates.len() implies #[trigger] more[i] == candidates[i] by {}
    if any_stale(candidates, canon, verse) {
        let i = choose|i: int|
            0 <= i < candidates.len() && crate::doctor::is_stale_for(
                #[trigger] candidates[i],
                canon,
                verse,
            );
        assert(crate::doctor::is_stale_for(more[i], canon, verse));
    }
}

/// What is observed of a Verse goes by what the directory holds of it: heartbeats where one of
/// its candidates is fresh, expiry where all that it has are expired, and else that nothing
/// names it, or that nothing was ever published at all.
pub proof fn law_observations_go_by_the_directory(inputs: VerseInputsView)
    ensures
        ({
            let fresh = fresh_lines(inputs.candidates, inputs.canon, inputs.verse).len();
            let stale = any_stale(inputs.candidates, inputs.canon, inputs.verse);
            let words = observation_words(inputs);
            &&& inputs.candidates.len() == 0 && !inputs.fleet_directory_nonempty ==> words
                == "no node has ever published to the fleet directory"@
            &&& fresh > 0 ==> words == "candidates observed heartbeating for "@ + inputs.canon
                + "/"@ + inputs.verse + ": "@ + decimal(fresh)
            &&& fresh == 0 && stale ==> words
                == "every directory record naming this Verse has expired"@
            &&& fresh == 0 && !stale && (inputs.candidates.len() > 0
                || inputs.fleet_directory_nonempty) ==> words
                == "no directory record names this Verse"@
        }),
{
}

/// What is configured is reported: the backend, the storage targets, and the promise of
/// committed history exactly where the target can keep it.
pub proof fn law_configured_storage_is_reported(
    report: CapabilityReport,
    inputs: CapabilityInputs,
    typed: Evaluation,
)
    requires
        is_disclosure_of(report, inputs, typed),
    ensures
        report.canon_history.backend@ == inputs.backend_label@,
        report.canon_history.storage_targets == inputs.independent_storage_targets,
        report.failure_domain_durability.independent_storage_targets
            == inputs.independent_storage_targets,
        report.failure_domain_durability.result@ == typed.failure_domains@,
        !inputs.committed_capable_target ==> report.canon_history.result@ == typed.canon_history@,
        inputs.committed_capable_target ==> report.canon_history.result@
            == "history survives Scribe process restart after a Canon-committed ACK"@,
        inputs.durable_producer_spool_configured ==> report.producer_continuity.result@
            == typed.producer_continuity@,
{
}

/// Every Verse with a verdict is reported, in its order, with its own candidates and writer.
pub proof fn law_every_verse_is_reported(
    report: CapabilityReport,
    inputs: CapabilityInputs,
    typed: Evaluation,
    at: int,
)
    requires
        is_disclosure_of(report, inputs, typed),
        0 <= at < inputs.verses@.len(),
        inputs.verses@.len() <= typed.scribe_recovery@.len(),
    ensures
        report.scribe_availability@.len() == inputs.verses@.len(),
        report.scribe_availability@[at].canon@ == inputs.verses@[at].canon@,
        report.scribe_availability@[at].verse@ == inputs.verses@[at].verse@,
        report.scribe_availability@[at].candidates_observed_heartbeating
            == typed.scribe_recovery@[at].candidates_observed_heartbeating,
{
    assert(crate::doctor::is_availability_of(
        report.scribe_availability@[at],
        inputs.verses@[at]@,
        typed.scribe_recovery@[at],
    ));
}

/// Each candidate and each Verse has its lines, in its order, and whoever serves is named.
pub proof fn law_the_report_goes_line_by_line(
    candidates: Seq<CandidateLine>,
    candidate: CandidateLine,
    reports: Seq<ScribeAvailabilityReport>,
    report: ScribeAvailabilityReport,
)
    ensures
        candidate_lines(candidates.push(candidate)) == candidate_lines(candidates) + ("    "@
            + candidate.owner_id@ + "  "@ + candidate.posture@ + "  last heartbeat "@
            + candidate.age_display@ + "\n"@),
        availability_sections(reports.push(report)) == availability_sections(reports)
            + availability_section(report),
        candidate_lines(Seq::empty()).len() == 0,
        availability_sections(Seq::empty()).len() == 0,
{
    assert(candidates.push(candidate).drop_last() =~= candidates);
    assert(reports.push(report).drop_last() =~= reports);
}

/// Whoever serves is named, with whether they write.
pub proof fn law_the_serving_owner_is_named(serving: ServingNow, other: ServingNow)
    ensures
        differ_behind(
            serving_line(Some(ServingNow { effective_writer: true, ..serving })),
            serving_line(Some(ServingNow { effective_writer: false, ..serving })),
            " (effective_writer="@,
            "true"@,
            "false"@,
        ),
        differ_behind(
            serving_line(Some(serving)),
            serving_line(Some(ServingNow { owner_id: other.owner_id, ..serving })),
            "  serving now: "@,
            serving.owner_id@,
            other.owner_id@,
        ),
{
    let label = " (effective_writer="@;
    let head = "  serving now: "@ + serving.owner_id@;
    lemma_differ_here(head, label, "true"@, "false"@);
    lemma_differ_then(
        head + label + "true"@,
        head + label + "false"@,
        label,
        "true"@,
        "false"@,
        ")\n"@,
    );
    let said = if serving.effective_writer {
        "true"@
    } else {
        "false"@
    };
    let title = "  serving now: "@;
    let owner = serving.owner_id@;
    let changed = other.owner_id@;
    lemma_differ_first(title, owner, changed);
    lemma_differ_then_two(title + owner, title + changed, title, owner, changed, label, said);
    lemma_differ_then(
        title + owner + label + said,
        title + changed + label + said,
        title,
        owner,
        changed,
        ")\n"@,
    );
}

proof fn lemma_field_line(name: Seq<char>, value: Seq<char>, changed: Seq<char>)
    ensures
        differ_behind(field_line(name, value), field_line(name, changed), name, value, changed),
{
    lemma_differ_here("  "@, name, value, changed);
    lemma_differ_then(
        "  "@ + name + value,
        "  "@ + name + changed,
        name,
        value,
        changed,
        "\n"@,
    );
}

/// The Canon history section shows its targets, its evidence and its result, each on its own line.
pub proof fn law_canon_sections_show_their_fields(
    report: CanonHistoryReport,
    other: CanonHistoryReport,
)
    ensures
        differ_behind(
            canon_section(report),
            canon_section(CanonHistoryReport { storage_targets: other.storage_targets, ..report }),
            "storage targets: "@,
            decimal(report.storage_targets as nat),
            decimal(other.storage_targets as nat),
        ),
        differ_behind(
            canon_section(report),
            canon_section(CanonHistoryReport { evidence: other.evidence, ..report }),
            "Evidence: "@,
            report.evidence@,
            other.evidence@,
        ),
        differ_behind(
            canon_section(report),
            canon_section(CanonHistoryReport { result: other.result, ..report }),
            "Result: "@,
            report.result@,
            other.result@,
        ),
{
    let line = field_line("storage targets: "@, decimal(report.storage_targets as nat));
    let new = field_line("storage targets: "@, decimal(other.storage_targets as nat));
    lemma_field_line(
        "storage targets: "@,
        decimal(report.storage_targets as nat),
        decimal(other.storage_targets as nat),
    );
    lemma_differ_after(
        "Canon history durability:\n"@ + field_line(Seq::empty(), report.summary@),
        line,
        new,
        "storage targets: "@,
        decimal(report.storage_targets as nat),
        decimal(other.storage_targets as nat),
    );
    let one = "Canon history durability:\n"@ + field_line(Seq::empty(), report.summary@) + line;
    let changed = "Canon history durability:\n"@ + field_line(Seq::empty(), report.summary@) + new;
    lemma_differ_then_two(
        one,
        changed,
        "storage targets: "@,
        decimal(report.storage_targets as nat),
        decimal(other.storage_targets as nat),
        field_line("Evidence: "@, report.evidence@),
        field_line("Result: "@, report.result@),
    );
    let one = one + field_line("Evidence: "@, report.evidence@)
        + field_line("Result: "@, report.result@);
    let changed = changed + field_line("Evidence: "@, report.evidence@)
        + field_line("Result: "@, report.result@);
    lemma_differ_then(
        one,
        changed,
        "storage targets: "@,
        decimal(report.storage_targets as nat),
        decimal(other.storage_targets as nat),
        "\n"@,
    );
    let line = field_line("Evidence: "@, report.evidence@);
    let new = field_line("Evidence: "@, other.evidence@);
    lemma_field_line("Evidence: "@, report.evidence@, other.evidence@);
    lemma_differ_after(
        "Canon history durability:\n"@ + field_line(Seq::empty(), report.summary@)
            + field_line("storage targets: "@, decimal(report.storage_targets as nat)),
        line,
        new,
        "Evidence: "@,
        report.evidence@,
        other.evidence@,
    );
    let one = "Canon history durability:\n"@ + field_line(Seq::empty(), report.summary@)
        + field_line("storage targets: "@, decimal(report.storage_targets as nat)) + line;
    let changed = "Canon history durability:\n"@ + field_line(Seq::empty(), report.summary@)
        + field_line("storage targets: "@, decimal(report.storage_targets as nat)) + new;
    lemma_differ_then_two(
        one,
        changed,
        "Evidence: "@,
        report.evidence@,
        other.evidence@,
        field_line("Result: "@, report.result@),
        "\n"@,
    );
    let line = field_line("Result: "@, report.result@);
    let new = field_line("Result: "@, other.result@);
    lemma_field_line("Result: "@, report.result@, other.result@);
    lemma_differ_after(
        "Canon history durability:\n"@ + field_line(Seq::empty(), report.summary@)
            + field_line("storage targets: "@, decimal(report.storage_targets as nat))
            + field_line("Evidence: "@, report.evidence@),
        line,
        new,
        "Result: "@,
        report.result@,
        other.result@,
    );
    let one = "Canon history durability:\n"@ + field_line(Seq::empty(), report.summary@)
        + field_line("storage targets: "@, decimal(report.storage_targets as nat))
        + field_line("Evidence: "@, report.evidence@) + line;
    let changed = "Canon history durability:\n"@ + field_line(Seq::empty(), report.summary@)
        + field_line("storage targets: "@, decimal(report.storage_targets as nat))
        + field_line("Evidence: "@, report.evidence@) + new;
    lemma_differ_then(one, changed, "Result: "@, report.result@, other.result@, "\n"@);
}

/// The producer continuity section shows its outbox, its profiles, its evidence and its result.
pub proof fn law_continuity_sections_show_their_fields(
    report: ProducerContinuityReport,
    other: ProducerContinuityReport,
)
    ensures
        differ_behind(
            continuity_section(report),
            continuity_section(ProducerContinuityReport { durable_local_outbox: other.durable_local_outbox, ..report }),
            "durable local outbox: "@,
            report.durable_local_outbox@,
            other.durable_local_outbox@,
        ),
        differ_behind(
            continuity_section(report),
            continuity_section(ProducerContinuityReport { receipt_profiles: other.receipt_profiles, ..report }),
            "receipt profiles: "@,
            report.receipt_profiles@,
            other.receipt_profiles@,
        ),
        differ_behind(
            continuity_section(report),
            continuity_section(ProducerContinuityReport { evidence: other.evidence, ..report }),
            "Evidence: "@,
            report.evidence@,
            other.evidence@,
        ),
        differ_behind(
            continuity_section(report),
            continuity_section(ProducerContinuityReport { result: other.result, ..report }),
            "Result: "@,
            report.result@,
            other.result@,
        ),
{
    let budget = if report.spooled_loss_budget@.len() > 0 {
        field_line("spooled loss budget: "@, report.spooled_loss_budget@)
    } else {
        Seq::empty()
    };
    let line = field_line("durable local outbox: "@, report.durable_local_outbox@);
    let new = field_line("durable local outbox: "@, other.durable_local_outbox@);
    lemma_field_line(
        "durable local outbox: "@,
        report.durable_local_outbox@,
        other.durable_local_outbox@,
    );
    lemma_differ_after(
        "Producer continuity:\n"@,
        line,
        new,
        "durable local outbox: "@,
        report.durable_local_outbox@,
        other.durable_local_outbox@,
    );
    let one = "Producer continuity:\n"@ + line;
    let changed = "Producer continuity:\n"@ + new;
    lemma_differ_then_four(
        one,
        changed,
        "durable local outbox: "@,
        report.durable_local_outbox@,
        other.durable_local_outbox@,
        field_line("receipt profiles: "@, report.receipt_profiles@),
        budget,
        field_line("Evidence: "@, report.evidence@),
        field_line("Result: "@, report.result@),
    );
    let one = one + field_line("receipt profiles: "@, report.receipt_profiles@) + budget
        + field_line("Evidence: "@, report.evidence@) + field_line("Result: "@, report.result@);
    let changed = changed + field_line("receipt profiles: "@, report.receipt_profiles@) + budget
        + field_line("Evidence: "@, report.evidence@) + field_line("Result: "@, report.result@);
    lemma_differ_then(
        one,
        changed,
        "durable local outbox: "@,
        report.durable_local_outbox@,
        other.durable_local_outbox@,
        "\n"@,
    );
    let line = field_line("receipt profiles: "@, report.receipt_profiles@);
    let new = field_line("receipt profiles: "@, other.receipt_profiles@);
    lemma_field_line("receipt profiles: "@, report.receipt_profiles@, other.receipt_profiles@);
    lemma_differ_after(
        "Producer continuity:\n"@
            + field_line("durable local outbox: "@, report.durable_local_outbox@),
        line,
        new,
        "receipt profiles: "@,
        report.receipt_profiles@,
        other.receipt_profiles@,
    );
    let one = "Producer continuity:\n"@
        + field_line("durable local outbox: "@, report.durable_local_outbox@) + line;
    let changed = "Producer continuity:\n"@
        + field_line("durable local outbox: "@, report.durable_local_outbox@) + new;
    lemma_differ_then_four(
        one,
        changed,
        "receipt profiles: "@,
        report.receipt_profiles@,
        other.receipt_profiles@,
        budget,
        field_line("Evidence: "@, report.evidence@),
        field_line("Result: "@, report.result@),
        "\n"@,
    );
    let line = field_line("Evidence: "@, report.evidence@);
    let new = field_line("Evidence: "@, other.evidence@);
    lemma_field_line("Evidence: "@, report.evidence@, other.evidence@);
    lemma_differ_after(
        "Producer continuity:\n"@
            + field_line("durable local outbox: "@, report.durable_local_outbox@)
            + field_line("receipt profiles: "@, report.receipt_profiles@) + budget,
        line,
        new,
        "Evidence: "@,
        report.evidence@,
        other.evidence@,
    );
    let one = "Producer continuity:\n"@
        + field_line("durable local outbox: "@, report.durable_local_outbox@)
        + field_line("receipt profiles: "@, report.receipt_profiles@) + budget + line;
    let changed = "Producer continuity:\n"@
        + field_line("durable local outbox: "@, report.durable_local_outbox@)
        + field_line("receipt profiles: "@, report.receipt_profiles@) + budget + new;
    lemma_differ_then_two(
        one,
        changed,
        "Evidence: "@,
        report.evidence@,
        other.evidence@,
        field_line("Result: "@, report.result@),
        "\n"@,
    );
    let line = field_line("Result: "@, report.result@);
    let new = field_line("Result: "@, other.result@);
    lemma_field_line("Result: "@, report.result@, other.result@);
    lemma_differ_after(
        "Producer continuity:\n"@
            + field_line("durable local outbox: "@, report.durable_local_outbox@)
            + field_line("receipt profiles: "@, report.receipt_profiles@) + budget
            + field_line("Evidence: "@, report.evidence@),
        line,
        new,
        "Result: "@,
        report.result@,
        other.result@,
    );
    let one = "Producer continuity:\n"@
        + field_line("durable local outbox: "@, report.durable_local_outbox@)
        + field_line("receipt profiles: "@, report.receipt_profiles@) + budget
        + field_line("Evidence: "@, report.evidence@) + line;
    let changed = "Producer continuity:\n"@
        + field_line("durable local outbox: "@, report.durable_local_outbox@)
        + field_line("receipt profiles: "@, report.receipt_profiles@) + budget
        + field_line("Evidence: "@, report.evidence@) + new;
    lemma_differ_then(one, changed, "Result: "@, report.result@, other.result@, "\n"@);
}

/// A loss budget has its own line where there is one, between the profiles and the evidence.
pub proof fn law_loss_budgets_have_their_line(report: ProducerContinuityReport, budget: String)
    requires
        report.spooled_loss_budget@.len() == 0,
        budget@.len() > 0,
    ensures
        ({
            let head = "Producer continuity:\n"@ + field_line(
                "durable local outbox: "@,
                report.durable_local_outbox@,
            ) + field_line("receipt profiles: "@, report.receipt_profiles@);
            let tail = field_line("Evidence: "@, report.evidence@) + field_line(
                "Result: "@,
                report.result@,
            ) + "\n"@;
            &&& continuity_section(report) == head + tail
            &&& continuity_section(
                ProducerContinuityReport { spooled_loss_budget: budget, ..report },
            ) == head + field_line("spooled loss budget: "@, budget@) + tail
        }),
{
    let head = "Producer continuity:\n"@ + field_line(
        "durable local outbox: "@,
        report.durable_local_outbox@,
    ) + field_line("receipt profiles: "@, report.receipt_profiles@);
    let tail = field_line("Evidence: "@, report.evidence@) + field_line("Result: "@, report.result@)
        + "\n"@;
    assert(continuity_section(report) =~= head + tail);
    assert(continuity_section(ProducerContinuityReport { spooled_loss_budget: budget, ..report })
        =~= head + field_line("spooled loss budget: "@, budget@) + tail);
}

/// The failure-domain section shows its targets, its evidence and its result.
pub proof fn law_domain_sections_show_their_fields(
    report: FailureDomainReport,
    other: FailureDomainReport,
)
    ensures
        differ_behind(
            domain_section(report),
            domain_section(FailureDomainReport { independent_storage_targets: other.independent_storage_targets, ..report }),
            "configured independent storage targets: "@,
            decimal(report.independent_storage_targets as nat),
            decimal(other.independent_storage_targets as nat),
        ),
        differ_behind(
            domain_section(report),
            domain_section(FailureDomainReport { evidence: other.evidence, ..report }),
            "Evidence: "@,
            report.evidence@,
            other.evidence@,
        ),
        differ_behind(
            domain_section(report),
            domain_section(FailureDomainReport { result: other.result, ..report }),
            "Result: "@,
            report.result@,
            other.result@,
        ),
{
    let line = field_line("configured independent storage targets: "@, decimal(report.independent_storage_targets as nat));
    let new = field_line("configured independent storage targets: "@, decimal(other.independent_storage_targets as nat));
    lemma_field_line(
        "configured independent storage targets: "@,
        decimal(report.independent_storage_targets as nat),
        decimal(other.independent_storage_targets as nat),
    );
    lemma_differ_after(
        "Failure-domain durability:\n"@,
        line,
        new,
        "configured independent storage targets: "@,
        decimal(report.independent_storage_targets as nat),
        decimal(other.independent_storage_targets as nat),
    );
    let one = "Failure-domain durability:\n"@ + line;
    let changed = "Failure-domain durability:\n"@ + new;
    lemma_differ_then_two(
        one,
        changed,
        "configured independent storage targets: "@,
        decimal(report.independent_storage_targets as nat),
        decimal(other.independent_storage_targets as nat),
        field_line("Evidence: "@, report.evidence@),
        field_line("Result: "@, report.result@),
    );
    let line = field_line("Evidence: "@, report.evidence@);
    let new = field_line("Evidence: "@, other.evidence@);
    lemma_field_line("Evidence: "@, report.evidence@, other.evidence@);
    lemma_differ_after(
        "Failure-domain durability:\n"@
            + field_line("configured independent storage targets: "@, decimal(report.independent_storage_targets as nat)),
        line,
        new,
        "Evidence: "@,
        report.evidence@,
        other.evidence@,
    );
    let one = "Failure-domain durability:\n"@
        + field_line("configured independent storage targets: "@, decimal(report.independent_storage_targets as nat))
        + line;
    let changed = "Failure-domain durability:\n"@
        + field_line("configured independent storage targets: "@, decimal(report.independent_storage_targets as nat))
        + new;
    lemma_differ_then(
        one,
        changed,
        "Evidence: "@,
        report.evidence@,
        other.evidence@,
        field_line("Result: "@, report.result@),
    );
    let line = field_line("Result: "@, report.result@);
    let new = field_line("Result: "@, other.result@);
    lemma_field_line("Result: "@, report.result@, other.result@);
    lemma_differ_after(
        "Failure-domain durability:\n"@
            + field_line("configured independent storage targets: "@, decimal(report.independent_storage_targets as nat))
            + field_line("Evidence: "@, report.evidence@),
        line,
        new,
        "Result: "@,
        report.result@,
        other.result@,
    );
    let one = "Failure-domain durability:\n"@
        + field_line("configured independent storage targets: "@, decimal(report.independent_storage_targets as nat))
        + field_line("Evidence: "@, report.evidence@) + line;
    let changed = "Failure-domain durability:\n"@
        + field_line("configured independent storage targets: "@, decimal(report.independent_storage_targets as nat))
        + field_line("Evidence: "@, report.evidence@) + new;
}

/// The section of a Verse shows its evidence and its result.
pub proof fn law_availability_sections_show_their_fields(
    report: ScribeAvailabilityReport,
    other: ScribeAvailabilityReport,
)
    ensures
        differ_behind(
            availability_section(report),
            availability_section(ScribeAvailabilityReport { evidence: other.evidence, ..report }),
            "Evidence: "@,
            report.evidence@,
            other.evidence@,
        ),
        differ_behind(
            availability_section(report),
            availability_section(ScribeAvailabilityReport { result: other.result, ..report }),
            "Result: "@,
            report.result@,
            other.result@,
        ),
{
    let line = field_line("Evidence: "@, report.evidence@);
    let new = field_line("Evidence: "@, other.evidence@);
    lemma_field_line("Evidence: "@, report.evidence@, other.evidence@);
    lemma_differ_after(
        "Scribe availability:\n"@ + field_line(Seq::empty(), report.observation@)
            + candidate_lines(report.candidates@) + serving_line(report.serving_now),
        line,
        new,
        "Evidence: "@,
        report.evidence@,
        other.evidence@,
    );
    let one = "Scribe availability:\n"@ + field_line(Seq::empty(), report.observation@)
        + candidate_lines(report.candidates@) + serving_line(report.serving_now) + line;
    let changed = "Scribe availability:\n"@ + field_line(Seq::empty(), report.observation@)
        + candidate_lines(report.candidates@) + serving_line(report.serving_now) + new;
    lemma_differ_then_two(
        one,
        changed,
        "Evidence: "@,
        report.evidence@,
        other.evidence@,
        field_line("Result: "@, report.result@),
        "\n"@,
    );
    let line = field_line("Result: "@, report.result@);
    let new = field_line("Result: "@, other.result@);
    lemma_field_line("Result: "@, report.result@, other.result@);
    lemma_differ_after(
        "Scribe availability:\n"@ + field_line(Seq::empty(), report.observation@)
            + candidate_lines(report.candidates@) + serving_line(report.serving_now)
            + field_line("Evidence: "@, report.evidence@),
        line,
        new,
        "Result: "@,
        report.result@,
        other.result@,
    );
    let one = "Scribe availability:\n"@ + field_line(Seq::empty(), report.observation@)
        + candidate_lines(report.candidates@) + serving_line(report.serving_now)
        + field_line("Evidence: "@, report.evidence@) + line;
    let changed = "Scribe availability:\n"@ + field_line(Seq::empty(), report.observation@)
        + candidate_lines(report.candidates@) + serving_line(report.serving_now)
        + field_line("Evidence: "@, report.evidence@) + new;
    lemma_differ_then(one, changed, "Result: "@, report.result@, other.result@, "\n"@);
}

/// The report holds its four sections, one after the other.
pub proof fn law_reports_hold_their_sections(report: CapabilityReport)
    ensures
        human_report(report) == "SCRIPTURE CAPABILITY REPORT\n\n"@ + canon_section(
            report.canon_history,
        ) + continuity_section(report.producer_continuity) + availability_sections(
            report.scribe_availability@,
        ) + domain_section(report.failure_domain_durability),
{
    reveal_strlit("SCRIPTURE CAPABILITY REPORT\n\n");
    reveal_strlit("SCRIPTURE CAPABILITY REPORT\n");
    reveal_strlit("\n");
    assert("SCRIPTURE CAPABILITY REPORT\n\n"@ =~= "SCRIPTURE CAPABILITY REPORT\n"@ + "\n"@);
}

/// An age and a report are shown as they are, over whole calls.
pub proof fn law_reports_over_whole_calls(
    age_ms: u64,
    age: String,
    report: CapabilityReport,
    text: String,
    inputs: CapabilityInputs,
    typed: Evaluation,
    rendered: CapabilityReport,
)
    requires
        call_ensures(format_age, (age_ms,), age),
        call_ensures(format_human, (&report,), text),
        call_ensures(render_disclosure, (&inputs, &typed), rendered),
    ensures
        age_ms >= 60_000 ==> age@ == decimal((age_ms / 60_000) as nat) + "m ago"@,
        text@ == human_report(report),
        rendered.canon_history.backend@ == inputs.backend_label@,
        rendered.failure_domain_durability.result@ == typed.failure_domains@,
        rendered.producer_continuity.durable_local_outbox@ == (
        if inputs.durable_producer_spool_configured {
            "CONFIGURED"@
        } else {
            "NOT CONFIGURED"@
        }),
{
    law_configured_storage_is_reported(rendered, inputs, typed);
}

} // verus!
