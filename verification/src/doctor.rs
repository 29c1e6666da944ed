//! Durability/availability capability disclosure.
//!
//! Reports four failure boundaries separately. Whether evidence satisfies a
//! guarantee is said by the shared evaluator; this module renders its verdict and
//! never computes a second one.
use crate::capability::{
    candidates_view, serving_view, CandidateView, CapabilityInputs, ServingNow,
    VerseCapabilityInputs, VerseInputsView,
};
use crate::text::{decimal, push_decimal, same_text};
use vstd::prelude::*;

verus! {

/// Publication TTL used by the multi-assignment heartbeat. It is reported as the
/// evidence window; the directory is soft state and the window is a publication
/// choice.
pub const DIRECTORY_TTL_MS: u64 = 15_000;

/// Output encoding for the capability report.
#[derive(Debug, Clone, Copy, PartialEq, Eq, Structural)]
pub enum DoctorFormat {
    /// Operator-facing multi-line text (default).
    Human,
    /// Same content as structured JSON.
    Json,
}

/// The evaluator's verdict on the recovery of one Verse.
#[derive(Debug, PartialEq, Eq)]
pub struct VerseRecoverySatisfaction {
    pub candidates_observed_heartbeating: u32,
    pub consequence: String,
}

/// The evaluator's verdict.
#[derive(Debug, PartialEq, Eq)]
pub struct Evaluation {
    pub canon_history: String,
    pub producer_continuity: String,
    pub scribe_recovery: Vec<VerseRecoverySatisfaction>,
    pub failure_domains: String,
}

#[derive(Debug, PartialEq, Eq)]
pub struct CapabilityReport {
    pub canon_history: CanonHistoryReport,
    pub producer_continuity: ProducerContinuityReport,
    pub scribe_availability: Vec<ScribeAvailabilityReport>,
    pub failure_domain_durability: FailureDomainReport,
}

#[derive(Debug, PartialEq, Eq)]
pub struct CanonHistoryReport {
    pub backend: String,
    pub storage_targets: u32,
    pub summary: String,
    pub evidence: String,
    pub result: String,
}

#[derive(Debug, PartialEq, Eq)]
pub struct ProducerContinuityReport {
    pub durable_local_outbox: String,
    /// Receipt profiles this node can offer (`committed` always; `spooled` only
    /// with a constructed capability that publishes a loss budget).
    pub receipt_profiles: String,
    /// Loss budget text when `spooled` is available; empty when not offered.
    pub spooled_loss_budget: String,
    pub evidence: String,
    pub result: String,
}

#[derive(Debug, PartialEq, Eq)]
pub struct FailureDomainReport {
    pub independent_storage_targets: u32,
    pub evidence: String,
    pub result: String,
}

#[derive(Debug, PartialEq, Eq)]
pub struct ScribeAvailabilityReport {
    pub canon: String,
    pub verse: String,
    /// Fresh heartbeats only — never a guaranteed cluster size.
    pub candidates_observed_heartbeating: u32,
    pub candidates: Vec<CandidateLine>,
    /// Owner named by the authority root, when Serving.
    pub serving_now: Option<ServingNow>,
    /// Why the candidate count is soft evidence.
    pub evidence: String,
    /// Empty vs expired vs fresh — mutually distinct text.
    pub observation: String,
    /// Recovery verdict of the shared evaluator.
    pub result: String,
}

#[derive(Debug, PartialEq, Eq)]
pub struct CandidateLine {
    pub owner_id: String,
    pub posture: String,
    pub disposition: String,
    pub age_ms: u64,
    pub age_display: String,
}

/// What a candidate line is, apart from its representation.
pub struct LineView {
    pub owner_id: Seq<char>,
    pub posture: Seq<char>,
    pub disposition: Seq<char>,
    pub age_ms: u64,
    pub age_display: Seq<char>,
}

impl View for CandidateLine {
    type V = LineView;

    open spec fn view(&self) -> LineView {
        LineView {
            owner_id: self.owner_id@,
            posture: self.posture@,
            disposition: self.disposition@,
            age_ms: self.age_ms,
            age_display: self.age_display@,
        }
    }
}

/// Candidate lines by their views.
pub open spec fn lines_view(lines: Seq<CandidateLine>) -> Seq<LineView> {
    lines.map_values(|line: CandidateLine| line@)
}

// Ages.

/// The power of two that brings an age of at least 50 ms and less than a minute,
/// taken in seconds, to where whole numbers are the double-precision numbers: from
/// 2^52 on and below 2^53.
pub open spec fn age_scale(age_ms: u64) -> int {
    if age_ms >= 32_000 {
        0x8000_0000_0000
    } else if age_ms >= 16_000 {
        0x1_0000_0000_0000
    } else if age_ms >= 8_000 {
        0x2_0000_0000_0000
    } else if age_ms >= 4_000 {
        0x4_0000_0000_0000
    } else if age_ms >= 2_000 {
        0x8_0000_0000_0000
    } else if age_ms >= 1_000 {
        0x10_0000_0000_0000
    } else if age_ms >= 500 {
        0x20_0000_0000_0000
    } else if age_ms >= 250 {
        0x40_0000_0000_0000
    } else if age_ms >= 125 {
        0x80_0000_0000_0000
    } else {
        0x200_0000_0000_0000
    }
}

/// Seconds of an age below a minute in tenths, rounded to the nearest tenth.
///
/// The seconds are a double-precision number. Halfway between two tenths, the one on
/// the side to which that number was rounded is taken; where it is exact, the even
/// one.
pub open spec fn age_tenths(age_ms: u64) -> int {
    let below = age_ms as int / 100;
    let rest = (age_ms * age_scale(age_ms)) % 1000;
    if age_ms % 100 != 50 {
        (age_ms + 50) / 100
    } else if rest == 0 {
        if below % 2 == 0 {
            below
        } else {
            below + 1
        }
    } else if rest < 500 {
        below
    } else {
        below + 1
    }
}

/// How an age is shown.
pub open spec fn age_words(age_ms: u64) -> Seq<char> {
    if age_ms < 60_000 {
        decimal((age_tenths(age_ms) / 10) as nat) + "."@ + decimal(
            (age_tenths(age_ms) % 10) as nat,
        ) + "s ago"@
    } else {
        decimal((age_ms / 60_000) as nat) + "m ago"@
    }
}

fn scale_of_age(age_ms: u64) -> (scale: u128)
    ensures
        scale == age_scale(age_ms),
        scale <= 0x200_0000_0000_0000,
{
    if age_ms >= 32_000 {
        0x8000_0000_0000
    } else if age_ms >= 16_000 {
        0x1_0000_0000_0000
    } else if age_ms >= 8_000 {
        0x2_0000_0000_0000
    } else if age_ms >= 4_000 {
        0x4_0000_0000_0000
    } else if age_ms >= 2_000 {
        0x8_0000_0000_0000
    } else if age_ms >= 1_000 {
        0x10_0000_0000_0000
    } else if age_ms >= 500 {
        0x20_0000_0000_0000
    } else if age_ms >= 250 {
        0x40_0000_0000_0000
    } else if age_ms >= 125 {
        0x80_0000_0000_0000
    } else {
        0x200_0000_0000_0000
    }
}

fn tenths_of_age(age_ms: u64) -> (tenths: u64)
    requires
        age_ms < 60_000,
    ensures
        tenths == age_tenths(age_ms),
{
    if age_ms % 100 != 50 {
        return (age_ms + 50) / 100;
    }
    let below: u64 = age_ms / 100;
    let scale: u128 = scale_of_age(age_ms);
    assert(age_ms * scale <= 60_000 * 0x200_0000_0000_0000) by (nonlinear_arith)
        requires
            age_ms < 60_000,
            0 <= scale <= 0x200_0000_0000_0000,
    ;
    let rest: u128 = (age_ms as u128 * scale) % 1000;
    if rest == 0 {
        if below % 2 == 0 {
            below
        } else {
            below + 1
        }
    } else if rest < 500 {
        below
    } else {
        below + 1
    }
}

/// How an age is shown: seconds with one decimal below a minute, else whole minutes.
pub fn format_age(age_ms: u64) -> (text: String)
    ensures
        text@ == age_words(age_ms),
{
    let mut text = String::new();
    if age_ms < 60_000 {
        let tenths: u64 = tenths_of_age(age_ms);
        push_decimal(&mut text, tenths / 10);
        text.append(".");
        push_decimal(&mut text, tenths % 10);
        text.append("s ago");
    } else {
        push_decimal(&mut text, age_ms / 60_000);
        text.append("m ago");
    }
    assert(text@ =~= age_words(age_ms));
    text
}

// Availability.

/// Whether a candidate was heard of lately for a Verse.
pub open spec fn is_fresh_for(
    candidate: CandidateView,
    canon: Seq<char>,
    verse: Seq<char>,
) -> bool {
    candidate.canon == canon && candidate.verse == verse && candidate.fresh
}

/// Whether a candidate for a Verse has expired.
pub open spec fn is_stale_for(
    candidate: CandidateView,
    canon: Seq<char>,
    verse: Seq<char>,
) -> bool {
    candidate.canon == canon && candidate.verse == verse && !candidate.fresh
}

/// The line of a candidate.
pub open spec fn line_of(candidate: CandidateView) -> LineView {
    LineView {
        owner_id: candidate.owner_id,
        posture: candidate.posture,
        disposition: candidate.disposition,
        age_ms: candidate.age_ms,
        age_display: age_words(candidate.age_ms),
    }
}

/// The lines of the candidates heard of lately, in order.
pub open spec fn fresh_lines(
    candidates: Seq<CandidateView>,
    canon: Seq<char>,
    verse: Seq<char>,
) -> Seq<LineView>
    decreases candidates.len(),
{
    if candidates.len() == 0 {
        Seq::empty()
    } else {
        let before = fresh_lines(candidates.drop_last(), canon, verse);
        if is_fresh_for(candidates.last(), canon, verse) {
            before.push(line_of(candidates.last()))
        } else {
            before
        }
    }
}

/// Whether any candidate for the Verse has expired.
pub open spec fn any_stale(
    candidates: Seq<CandidateView>,
    canon: Seq<char>,
    verse: Seq<char>,
) -> bool {
    exists|i: int|
        0 <= i < candidates.len() && is_stale_for(#[trigger] candidates[i], canon, verse)
}

/// What the directory shows of a Verse.
pub open spec fn observation_words(inputs: VerseInputsView) -> Seq<char> {
    let fresh = fresh_lines(inputs.candidates, inputs.canon, inputs.verse).len();
    if !inputs.fleet_directory_nonempty && inputs.candidates.len() == 0 {
        "no node has ever published to the fleet directory"@
    } else if fresh == 0 && any_stale(inputs.candidates, inputs.canon, inputs.verse) {
        "every directory record naming this Verse has expired"@
    } else if fresh == 0 {
        "no directory record names this Verse"@
    } else {
        "candidates observed heartbeating for "@ + inputs.canon + "/"@ + inputs.verse + ": "@
            + decimal(fresh)
    }
}

/// Why the candidate count is soft evidence.
pub open spec fn availability_evidence() -> Seq<char> {
    "fleet directory, "@ + decimal((DIRECTORY_TTL_MS / 1000) as nat)
        + "s TTL. A partitioned but healthy Scribe does not appear here, and a dead Scribe can appear for up to one TTL. Recovery eligibility requires fresh ∧ serving_capable (shared evaluator)."@
}

/// Whether a report is what the evidence and the verdict on a Verse come to.
pub open spec fn is_availability_of(
    report: ScribeAvailabilityReport,
    inputs: VerseInputsView,
    recovery: VerseRecoverySatisfaction,
) -> bool {
    &&& report.canon@ == inputs.canon
    &&& report.verse@ == inputs.verse
    &&& report.candidates_observed_heartbeating == recovery.candidates_observed_heartbeating
    &&& lines_view(report.candidates@) == fresh_lines(
        inputs.candidates,
        inputs.canon,
        inputs.verse,
    )
    &&& serving_view(report.serving_now) == inputs.serving_now
    &&& report.evidence@ == availability_evidence()
    &&& report.observation@ == observation_words(inputs)
    &&& report.result@ == recovery.consequence@
}

/// Scribe-availability section: observation from directory evidence; recovery
/// **result** from the shared evaluator only.
///
/// Fresh heartbeats remain soft display evidence. Eligibility is decided solely by
/// the evaluator — never recomputed here.
pub fn scribe_availability_for(
    inputs: &VerseCapabilityInputs,
    recovery: &VerseRecoverySatisfaction,
) -> (report: ScribeAvailabilityReport)
    ensures
        is_availability_of(report, inputs@, *recovery),
{
    let ghost view = candidates_view(inputs.candidates@);
    let mut candidates: Vec<CandidateLine> = Vec::new();
    let mut stale = false;
    let mut at: usize = 0;
    assert(lines_view(candidates@) =~= fresh_lines(view.take(0), inputs.canon@, inputs.verse@));
    while at < inputs.candidates.len()
        invariant
            at <= inputs.candidates@.len(),
            view == candidates_view(inputs.candidates@),
            lines_view(candidates@) == fresh_lines(
                view.take(at as int),
                inputs.canon@,
                inputs.verse@,
            ),
            stale == exists|i: int|
                0 <= i < at && is_stale_for(#[trigger] view[i], inputs.canon@, inputs.verse@),
        decreases inputs.candidates@.len() - at,
    {
        let one = &inputs.candidates[at];
        let ghost before = lines_view(candidates@);
        let ghost was_stale = stale;
        proof {
            assert(view[at as int] == one@);
            assert(view.take(at + 1).drop_last() =~= view.take(at as int));
        }
        if same_text(one.canon.as_str(), inputs.canon.as_str()) && same_text(
            one.verse.as_str(),
            inputs.verse.as_str(),
        ) {
            if one.fresh {
                let line = CandidateLine {
                    owner_id: one.owner_id.clone(),
                    posture: one.posture.clone(),
                    disposition: one.disposition.clone(),
                    age_ms: one.age_ms,
                    age_display: format_age(one.age_ms),
                };
                let ghost shown = line@;
                candidates.push(line);
                assert(lines_view(candidates@) =~= before.push(shown));
                assert(shown == line_of(one@));
            } else {
                stale = true;
                assert(is_stale_for(view[at as int], inputs.canon@, inputs.verse@));
            }
        }
        proof {
            if stale && !was_stale {
                assert(is_stale_for(view[at as int], inputs.canon@, inputs.verse@));
            }
        }
        at += 1;
    }
    assert(view.take(at as int) =~= view);
    assert(stale == any_stale(view, inputs.canon@, inputs.verse@));
    assert(lines_view(candidates@).len() == candidates@.len());
    let mut observation = String::new();
    if !inputs.fleet_directory_nonempty && inputs.candidates.len() == 0 {
        observation.append("no node has ever published to the fleet directory");
    } else if candidates.len() == 0 && stale {
        observation.append("every directory record naming this Verse has expired");
    } else if candidates.len() == 0 {
        observation.append("no directory record names this Verse");
    } else {
        observation.append("candidates observed heartbeating for ");
        observation.append(inputs.canon.as_str());
        observation.append("/");
        observation.append(inputs.verse.as_str());
        observation.append(": ");
        push_decimal(&mut observation, candidates.len() as u64);
    }
    assert(observation@ =~= observation_words(inputs@));
    let mut evidence = String::new();
    evidence.append("fleet directory, ");
    push_decimal(&mut evidence, DIRECTORY_TTL_MS / 1000);
    evidence.append(
        "s TTL. A partitioned but healthy Scribe does not appear here, and a dead Scribe can appear for up to one TTL. Recovery eligibility requires fresh ∧ serving_capable (shared evaluator).",
    );
    assert(evidence@ =~= availability_evidence());
    let serving_now = match &inputs.serving_now {
        Some(serving) => Some(serving.clone()),
        None => None,
    };
    ScribeAvailabilityReport {
        canon: inputs.canon.clone(),
        verse: inputs.verse.clone(),
        candidates_observed_heartbeating: recovery.candidates_observed_heartbeating,
        candidates,
        serving_now,
        evidence,
        observation,
        result: recovery.consequence.clone(),
    }
}

// The report.

/// Whether the Canon history section is what the evidence and the verdict come to.
pub open spec fn is_canon_history_of(
    report: CanonHistoryReport,
    inputs: CapabilityInputs,
    typed: Evaluation,
) -> bool {
    &&& report.backend@ == inputs.backend_label@
    &&& report.storage_targets == inputs.independent_storage_targets
    &&& report.summary@
        == "Canon-committed records: durable on configured object-store target (backend="@
        + inputs.backend_label@ + ")"@
    &&& report.evidence@ == "store.backend + single configured target in YAML"@
    &&& report.result@ == (if inputs.committed_capable_target {
        "history survives Scribe process restart after a Canon-committed ACK"@
    } else {
        typed.canon_history@
    })
}

/// Whether the producer continuity section is what the evidence and the verdict come
/// to.
pub open spec fn is_continuity_of(
    report: ProducerContinuityReport,
    inputs: CapabilityInputs,
    typed: Evaluation,
) -> bool {
    if inputs.durable_producer_spool_configured {
        &&& report.durable_local_outbox@ == "CONFIGURED"@
        &&& report.receipt_profiles@
            == "committed (default); spooled available via configured producer_spool + ProducerOutbox"@
        &&& report.spooled_loss_budget@ == inputs.producer_spool_loss_budget@
        &&& report.evidence@ == "producer_spool config (scribe_id="@
            + inputs.producer_spool_scribe_id@
            + ") + ProducerOutbox; scope=one named Scribe local disk"@
        &&& report.result@ == typed.producer_continuity@
    } else {
        &&& report.durable_local_outbox@ == "NOT CONFIGURED"@
        &&& report.receipt_profiles@
            == "committed (default); spooled available only when producer_spool is configured"@
        &&& report.spooled_loss_budget@ == Seq::<char>::empty()
        &&& report.evidence@
            == "producer_spool absent; ProducerOutbox cannot issue spooled receipts without a validated local spool"@
        &&& report.result@
            == "an ordinary Scribe restart stalls producers for committed-only paths. If spooled were enabled, up to loss_budget of acknowledged data could be lost if this Scribe is destroyed before upload — durability is not availability."@
    }
}

/// Whether a report is what the evidence and the verdict come to.
pub open spec fn is_disclosure_of(
    report: CapabilityReport,
    inputs: CapabilityInputs,
    typed: Evaluation,
) -> bool {
    &&& is_canon_history_of(report.canon_history, inputs, typed)
    &&& is_continuity_of(report.producer_continuity, inputs, typed)
    &&& report.scribe_availability@.len() == (if inputs.verses@.len()
        <= typed.scribe_recovery@.len() {
        inputs.verses@.len()
    } else {
        typed.scribe_recovery@.len()
    })
    &&& forall|i: int|
        0 <= i < report.scribe_availability@.len() ==> is_availability_of(
            #[trigger] report.scribe_availability@[i],
            inputs.verses@[i]@,
            typed.scribe_recovery@[i],
        )
    &&& report.failure_domain_durability.independent_storage_targets
        == inputs.independent_storage_targets
    &&& report.failure_domain_durability.evidence@
        == "store configuration names one backend endpoint/bucket"@
    &&& report.failure_domain_durability.result@ == typed.failure_domains@
}

fn canon_history_of(inputs: &CapabilityInputs, typed: &Evaluation) -> (report: CanonHistoryReport)
    ensures
        is_canon_history_of(report, *inputs, *typed),
{
    let mut summary = String::new();
    summary.append(
        "Canon-committed records: durable on configured object-store target (backend=",
    );
    summary.append(inputs.backend_label.as_str());
    summary.append(")");
    assert(summary@
        =~= "Canon-committed records: durable on configured object-store target (backend="@
        + inputs.backend_label@ + ")"@);
    let result = if inputs.committed_capable_target {
        "history survives Scribe process restart after a Canon-committed ACK".to_owned()
    } else {
        typed.canon_history.clone()
    };
    CanonHistoryReport {
        backend: inputs.backend_label.clone(),
        storage_targets: inputs.independent_storage_targets,
        summary,
        evidence: "store.backend + single configured target in YAML".to_owned(),
        result,
    }
}

fn continuity_of(inputs: &CapabilityInputs, typed: &Evaluation) -> (report:
    ProducerContinuityReport)
    ensures
        is_continuity_of(report, *inputs, *typed),
{
    if inputs.durable_producer_spool_configured {
        let mut evidence = String::new();
        evidence.append("producer_spool config (scribe_id=");
        evidence.append(inputs.producer_spool_scribe_id.as_str());
        evidence.append(") + ProducerOutbox; scope=one named Scribe local disk");
        assert(evidence@ =~= "producer_spool config (scribe_id="@
            + inputs.producer_spool_scribe_id@
            + ") + ProducerOutbox; scope=one named Scribe local disk"@);
        ProducerContinuityReport {
            durable_local_outbox: "CONFIGURED".to_owned(),
            receipt_profiles:
                "committed (default); spooled available via configured producer_spool + ProducerOutbox".to_owned(),
            spooled_loss_budget: inputs.producer_spool_loss_budget.clone(),
            evidence,
            result: typed.producer_continuity.clone(),
        }
    } else {
        let none = String::new();
        assert(none@ =~= Seq::<char>::empty());
        ProducerContinuityReport {
            durable_local_outbox: "NOT CONFIGURED".to_owned(),
            receipt_profiles:
                "committed (default); spooled available only when producer_spool is configured".to_owned(),
            spooled_loss_budget: none,
            evidence:
                "producer_spool absent; ProducerOutbox cannot issue spooled receipts without a validated local spool".to_owned(),
            result:
                "an ordinary Scribe restart stalls producers for committed-only paths. If spooled were enabled, up to loss_budget of acknowledged data could be lost if this Scribe is destroyed before upload — durability is not availability.".to_owned(),
        }
    }
}

/// Renders the evidence and the evaluator's verdict on it.
pub fn render_disclosure(inputs: &CapabilityInputs, typed: &Evaluation) -> (report:
    CapabilityReport)
    ensures
        is_disclosure_of(report, *inputs, *typed),
{
    let mut scribe_availability: Vec<ScribeAvailabilityReport> = Vec::new();
    let mut at: usize = 0;
    while at < inputs.verses.len() && at < typed.scribe_recovery.len()
        invariant
            at <= inputs.verses@.len(),
            at <= typed.scribe_recovery@.len(),
            scribe_availability@.len() == at,
            forall|i: int|
                0 <= i < at ==> is_availability_of(
                    #[trigger] scribe_availability@[i],
                    inputs.verses@[i]@,
                    typed.scribe_recovery@[i],
                ),
        decreases inputs.verses@.len() - at,
    {
        scribe_availability.push(
            scribe_availability_for(&inputs.verses[at], &typed.scribe_recovery[at]),
        );
        at += 1;
    }
    CapabilityReport {
        canon_history: canon_history_of(inputs, typed),
        producer_continuity: continuity_of(inputs, typed),
        scribe_availability,
        failure_domain_durability: FailureDomainReport {
            independent_storage_targets: inputs.independent_storage_targets,
            evidence: "store configuration names one backend endpoint/bucket".to_owned(),
            result: typed.failure_domains.clone(),
        },
    }
}

// The report for people.

/// One `name: value` line, indented.
pub open spec fn field_line(name: Seq<char>, value: Seq<char>) -> Seq<char> {
    "  "@ + name + value + "\n"@
}

/// The lines of the candidates.
pub open spec fn candidate_lines(candidates: Seq<CandidateLine>) -> Seq<char>
    decreases candidates.len(),
{
    if candidates.len() == 0 {
        Seq::empty()
    } else {
        candidate_lines(candidates.drop_last()) + ("    "@ + candidates.last().owner_id@ + "  "@
            + candidates.last().posture@ + "  last heartbeat "@ + candidates.last().age_display@
            + "\n"@)
    }
}

/// Who serves now.
pub open spec fn serving_line(serving: Option<ServingNow>) -> Seq<char> {
    match serving {
        Some(serving) => "  serving now: "@ + serving.owner_id@ + " (effective_writer="@ + (
        if serving.effective_writer {
            "true"@
        } else {
            "false"@
        }) + ")\n"@,
        None => "  serving now: (none — authority root empty or unassigned)\n"@,
    }
}

/// The section of one Verse.
pub open spec fn availability_section(report: ScribeAvailabilityReport) -> Seq<char> {
    "Scribe availability:\n"@ + field_line(Seq::empty(), report.observation@) + candidate_lines(
        report.candidates@,
    ) + serving_line(report.serving_now) + field_line("Evidence: "@, report.evidence@)
        + field_line("Result: "@, report.result@) + "\n"@
}

/// The sections of the Verses.
pub open spec fn availability_sections(reports: Seq<ScribeAvailabilityReport>) -> Seq<char>
    decreases reports.len(),
{
    if reports.len() == 0 {
        Seq::empty()
    } else {
        availability_sections(reports.drop_last()) + availability_section(reports.last())
    }
}

/// The Canon history section.
pub open spec fn canon_section(report: CanonHistoryReport) -> Seq<char> {
    "Canon history durability:\n"@ + field_line(Seq::empty(), report.summary@) + field_line(
        "storage targets: "@,
        decimal(report.storage_targets as nat),
    ) + field_line("Evidence: "@, report.evidence@) + field_line("Result: "@, report.result@)
        + "\n"@
}

/// The producer continuity section.
pub open spec fn continuity_section(report: ProducerContinuityReport) -> Seq<char> {
    "Producer continuity:\n"@ + field_line("durable local outbox: "@, report.durable_local_outbox@)
        + field_line("receipt profiles: "@, report.receipt_profiles@) + (
    if report.spooled_loss_budget@.len() > 0 {
        field_line("spooled loss budget: "@, report.spooled_loss_budget@)
    } else {
        Seq::empty()
    }) + field_line("Evidence: "@, report.evidence@) + field_line("Result: "@, report.result@)
        + "\n"@
}

/// The failure-domain section.
pub open spec fn domain_section(report: FailureDomainReport) -> Seq<char> {
    "Failure-domain durability:\n"@ + field_line(
        "configured independent storage targets: "@,
        decimal(report.independent_storage_targets as nat),
    ) + field_line("Evidence: "@, report.evidence@) + field_line("Result: "@, report.result@)
}

/// The report as it is shown to people.
pub open spec fn human_report(report: CapabilityReport) -> Seq<char> {
    "SCRIPTURE CAPABILITY REPORT\n"@ + "\n"@ + canon_section(report.canon_history)
        + continuity_section(report.producer_continuity) + availability_sections(
        report.scribe_availability@,
    ) + domain_section(report.failure_domain_durability)
}

fn push_field(out: &mut String, name: &str, value: &str)
    ensures
        final(out)@ == old(out)@ + field_line(name@, value@),
{
    let ghost before = out@;
    out.append("  ");
    out.append(name);
    out.append(value);
    out.append("\n");
    assert(out@ =~= before + field_line(name@, value@));
}

fn push_number_field(out: &mut String, name: &str, value: u32)
    ensures
        final(out)@ == old(out)@ + field_line(name@, decimal(value as nat)),
{
    let ghost before = out@;
    out.append("  ");
    out.append(name);
    push_decimal(out, value as u64);
    out.append("\n");
    assert(out@ =~= before + field_line(name@, decimal(value as nat)));
}

fn push_text(out: &mut String, text: &str)
    ensures
        final(out)@ == old(out)@ + field_line(Seq::empty(), text@),
{
    let ghost before = out@;
    out.append("  ");
    out.append(text);
    out.append("\n");
    assert(out@ =~= before + field_line(Seq::empty(), text@));
}

fn push_canon_section(out: &mut String, report: &CanonHistoryReport)
    ensures
        final(out)@ == old(out)@ + canon_section(*report),
{
    let ghost before = out@;
    out.append("Canon history durability:\n");
    push_text(out, report.summary.as_str());
    push_number_field(out, "storage targets: ", report.storage_targets);
    push_field(out, "Evidence: ", report.evidence.as_str());
    push_field(out, "Result: ", report.result.as_str());
    out.append("\n");
    assert(out@ =~= before + canon_section(*report));
}

fn push_continuity_section(out: &mut String, report: &ProducerContinuityReport)
    ensures
        final(out)@ == old(out)@ + continuity_section(*report),
{
    let ghost before = out@;
    out.append("Producer continuity:\n");
    push_field(out, "durable local outbox: ", report.durable_local_outbox.as_str());
    push_field(out, "receipt profiles: ", report.receipt_profiles.as_str());
    if !is_empty(report.spooled_loss_budget.as_str()) {
        push_field(out, "spooled loss budget: ", report.spooled_loss_budget.as_str());
    }
    push_field(out, "Evidence: ", report.evidence.as_str());
    push_field(out, "Result: ", report.result.as_str());
    out.append("\n");
    assert(out@ =~= before + continuity_section(*report));
}

fn is_empty(text: &str) -> (empty: bool)
    ensures
        empty == (text@.len() == 0),
{
    let none = same_text(text, "");
    proof {
        reveal_strlit("");
        assert(none ==> text@.len() == 0);
        if text@.len() == 0 {
            assert(text@ =~= ""@);
        }
    }
    none
}

fn push_availability_section(out: &mut String, report: &ScribeAvailabilityReport)
    ensures
        final(out)@ == old(out)@ + availability_section(*report),
{
    let ghost before = out@;
    out.append("Scribe availability:\n");
    push_text(out, report.observation.as_str());
    let ghost head = out@;
    let mut at: usize = 0;
    assert(out@ =~= head + candidate_lines(report.candidates@.take(0)));
    while at < report.candidates.len()
        invariant
            at <= report.candidates@.len(),
            out@ == head + candidate_lines(report.candidates@.take(at as int)),
        decreases report.candidates@.len() - at,
    {
        let candidate = &report.candidates[at];
        out.append("    ");
        out.append(candidate.owner_id.as_str());
        out.append("  ");
        out.append(candidate.posture.as_str());
        out.append("  last heartbeat ");
        out.append(candidate.age_display.as_str());
        out.append("\n");
        proof {
            assert(report.candidates@.take(at + 1).drop_last() =~= report.candidates@.take(
                at as int,
            ));
            assert(out@ =~= head + candidate_lines(report.candidates@.take(at + 1)));
        }
        at += 1;
    }
    assert(report.candidates@.take(at as int) =~= report.candidates@);
    let ghost listed = out@;
    match &report.serving_now {
        Some(serving) => {
            out.append("  serving now: ");
            out.append(serving.owner_id.as_str());
            out.append(" (effective_writer=");
            if serving.effective_writer {
                out.append("true");
            } else {
                out.append("false");
            }
            out.append(")\n");
        },
        None => {
            out.append("  serving now: (none — authority root empty or unassigned)\n");
        },
    }
    assert(out@ =~= listed + serving_line(report.serving_now));
    push_field(out, "Evidence: ", report.evidence.as_str());
    push_field(out, "Result: ", report.result.as_str());
    out.append("\n");
    assert(out@ =~= before + availability_section(*report));
}

/// The report as it is shown to people.
pub fn format_human(report: &CapabilityReport) -> (text: String)
    ensures
        text@ == human_report(*report),
{
    let mut out = String::new();
    out.append("SCRIPTURE CAPABILITY REPORT\n");
    out.append("\n");
    push_canon_section(&mut out, &report.canon_history);
    push_continuity_section(&mut out, &report.producer_continuity);
    let ghost head = out@;
    let mut at: usize = 0;
    assert(out@ =~= head + availability_sections(report.scribe_availability@.take(0)));
    while at < report.scribe_availability.len()
        invariant
            at <= report.scribe_availability@.len(),
            out@ == head + availability_sections(report.scribe_availability@.take(at as int)),
        decreases report.scribe_availability@.len() - at,
    {
        push_availability_section(&mut out, &report.scribe_availability[at]);
        proof {
            assert(report.scribe_availability@.take(at + 1).drop_last()
                =~= report.scribe_availability@.take(at as int));
            assert(out@ =~= head + availability_sections(
                report.scribe_availability@.take(at + 1),
            ));
        }
        at += 1;
    }
    assert(report.scribe_availability@.take(at as int) =~= report.scribe_availability@);
    let ghost listed = out@;
    let domains = &report.failure_domain_durability;
    out.append("Failure-domain durability:\n");
    push_number_field(
        &mut out,
        "configured independent storage targets: ",
        domains.independent_storage_targets,
    );
    push_field(&mut out, "Evidence: ", domains.evidence.as_str());
    push_field(&mut out, "Result: ", domains.result.as_str());
    assert(out@ =~= listed + domain_section(*domains));
    assert(out@ =~= human_report(*report));
    out
}

// Laws.

/// What is reported of a Verse's recovery is the evaluator's verdict and nothing else,
/// however many heartbeats are seen.
pub proof fn law_verdict_is_the_evaluators(
    report: CapabilityReport,
    inputs: CapabilityInputs,
    typed: Evaluation,
    at: int,
)
    requires
        is_disclosure_of(report, inputs, typed),
        0 <= at < report.scribe_availability@.len(),
    ensures
        report.scribe_availability@[at].result@ == typed.scribe_recovery@[at].consequence@,
{
    assert(is_availability_of(
        report.scribe_availability@[at],
        inputs.verses@[at]@,
        typed.scribe_recovery@[at],
    ));
}

/// A loss budget is published exactly where a durable spool is configured, and it is the
/// configured one.
pub proof fn law_loss_budget_is_the_configured_one(
    report: CapabilityReport,
    inputs: CapabilityInputs,
    typed: Evaluation,
)
    requires
        is_disclosure_of(report, inputs, typed),
    ensures
        report.producer_continuity.spooled_loss_budget@ == (
        if inputs.durable_producer_spool_configured {
            inputs.producer_spool_loss_budget@
        } else {
            Seq::<char>::empty()
        }),
        report.producer_continuity.durable_local_outbox@ == (
        if inputs.durable_producer_spool_configured {
            "CONFIGURED"@
        } else {
            "NOT CONFIGURED"@
        }),
{
}

/// What the directory shows of a Verse, in kind.
pub enum ObservationKind {
    NeverPublished,
    AllExpired,
    NotNamed,
    Heartbeating,
}

/// What the directory shows of a Verse, in kind.
pub open spec fn observation_kind(inputs: VerseInputsView) -> ObservationKind {
    let fresh = fresh_lines(inputs.candidates, inputs.canon, inputs.verse).len();
    if !inputs.fleet_directory_nonempty && inputs.candidates.len() == 0 {
        ObservationKind::NeverPublished
    } else if fresh == 0 && any_stale(inputs.candidates, inputs.canon, inputs.verse) {
        ObservationKind::AllExpired
    } else if fresh == 0 {
        ObservationKind::NotNamed
    } else {
        ObservationKind::Heartbeating
    }
}

/// Observations of different kinds never read the same.
pub proof fn law_observations_are_distinct(left: VerseInputsView, right: VerseInputsView)
    requires
        observation_kind(left) != observation_kind(right),
    ensures
        observation_words(left) != observation_words(right),
{
    lemma_observation_start(left);
    lemma_observation_start(right);
}

proof fn lemma_observation_start(inputs: VerseInputsView)
    ensures
        observation_words(inputs).len() > 3,
        match observation_kind(inputs) {
            ObservationKind::NeverPublished => observation_words(inputs)[0] == 'n'
                && observation_words(inputs)[3] == 'n',
            ObservationKind::AllExpired => observation_words(inputs)[0] == 'e',
            ObservationKind::NotNamed => observation_words(inputs)[0] == 'n'
                && observation_words(inputs)[3] == 'd',
            ObservationKind::Heartbeating => observation_words(inputs)[0] == 'c',
        },
{
    reveal_strlit("no node has ever published to the fleet directory");
    reveal_strlit("every directory record naming this Verse has expired");
    reveal_strlit("no directory record names this Verse");
    reveal_strlit("candidates observed heartbeating for ");
}

/// Seconds are shown to the nearest tenth: never more than half a tenth off.
pub proof fn law_tenths_are_nearest(age_ms: u64)
    requires
        age_ms < 60_000,
    ensures
        age_ms - 50 <= 100 * age_tenths(age_ms) <= age_ms + 50,
{
}

/// An age scaled lies where whole numbers are the double-precision numbers.
pub proof fn law_age_scale(age_ms: u64)
    requires
        50 <= age_ms < 60_000,
        age_ms % 100 == 50,
    ensures
        0x10_0000_0000_0000 * 1000 <= age_ms * age_scale(age_ms) < 0x20_0000_0000_0000 * 1000,
{
    let scale = age_scale(age_ms);
    let age = age_ms as int;
    if age_ms >= 32_000 {
        assert(0x10_0000_0000_0000 * 1000 <= age * 0x8000_0000_0000 < 0x20_0000_0000_0000 * 1000);
    } else if age_ms >= 16_000 {
        assert(0x10_0000_0000_0000 * 1000 <= age * 0x1_0000_0000_0000 < 0x20_0000_0000_0000
            * 1000);
    } else if age_ms >= 8_000 {
        assert(0x10_0000_0000_0000 * 1000 <= age * 0x2_0000_0000_0000 < 0x20_0000_0000_0000
            * 1000);
    } else if age_ms >= 4_000 {
        assert(0x10_0000_0000_0000 * 1000 <= age * 0x4_0000_0000_0000 < 0x20_0000_0000_0000
            * 1000);
    } else if age_ms >= 2_000 {
        assert(0x10_0000_0000_0000 * 1000 <= age * 0x8_0000_0000_0000 < 0x20_0000_0000_0000
            * 1000);
    } else if age_ms >= 1_000 {
        assert(0x10_0000_0000_0000 * 1000 <= age * 0x10_0000_0000_0000 < 0x20_0000_0000_0000
            * 1000);
    } else if age_ms >= 500 {
        assert(0x10_0000_0000_0000 * 1000 <= age * 0x20_0000_0000_0000 < 0x20_0000_0000_0000
            * 1000);
    } else if age_ms >= 250 {
        assert(0x10_0000_0000_0000 * 1000 <= age * 0x40_0000_0000_0000 < 0x20_0000_0000_0000
            * 1000);
    } else if age_ms >= 125 {
        assert(0x10_0000_0000_0000 * 1000 <= age * 0x80_0000_0000_0000 < 0x20_0000_0000_0000
            * 1000);
    } else {
        assert(age_ms == 50);
    }
}

} // verus!
