//! The evidence from which capabilities are derived.
//!
//! Capabilities follow from configuration, the fleet directory and the authority
//! root, never from a replica count or a label. This module gathers that evidence;
//! whether it satisfies a guarantee is decided by the evaluator that it is handed to.
use crate::authority::AuthorityState;
use crate::config::{
    assignments_view, AssignmentConfig, AssignmentView, DeclaredEligibleCandidate, ScriptureConfig,
};
use crate::http::{lossy_text, text_from_utf8_lossy};
use crate::text::{decimal, push_decimal, same_text};
use vstd::prelude::*;

verus! {

/// A node that might take over a Verse.
#[derive(Debug, PartialEq, Eq)]
pub struct RecoveryCandidateEvidence {
    pub owner_id: String,
    pub canon: String,
    pub verse: String,
    pub serving_capable: bool,
    pub fresh: bool,
    pub age_ms: u64,
    pub posture: String,
    pub disposition: String,
}

/// What a candidate is, apart from its representation.
pub struct CandidateView {
    pub owner_id: Seq<char>,
    pub canon: Seq<char>,
    pub verse: Seq<char>,
    pub serving_capable: bool,
    pub fresh: bool,
    pub age_ms: u64,
    pub posture: Seq<char>,
    pub disposition: Seq<char>,
}

impl View for RecoveryCandidateEvidence {
    type V = CandidateView;

    open spec fn view(&self) -> CandidateView {
        CandidateView {
            owner_id: self.owner_id@,
            canon: self.canon@,
            verse: self.verse@,
            serving_capable: self.serving_capable,
            fresh: self.fresh,
            age_ms: self.age_ms,
            posture: self.posture@,
            disposition: self.disposition@,
        }
    }
}

/// Candidates by their views.
pub open spec fn candidates_view(candidates: Seq<RecoveryCandidateEvidence>) -> Seq<CandidateView> {
    candidates.map_values(|candidate: RecoveryCandidateEvidence| candidate@)
}

/// Who may commit to a Verse, as the authority root says.
#[derive(Debug, PartialEq, Eq)]
pub struct ServingNow {
    pub owner_id: String,
    pub effective_writer: bool,
    pub state: String,
}

/// What such a statement is, apart from its representation.
pub struct ServingView {
    pub owner_id: Seq<char>,
    pub effective_writer: bool,
    pub state: Seq<char>,
}

impl View for ServingNow {
    type V = ServingView;

    open spec fn view(&self) -> ServingView {
        ServingView {
            owner_id: self.owner_id@,
            effective_writer: self.effective_writer,
            state: self.state@,
        }
    }
}

impl Clone for ServingNow {
    fn clone(&self) -> (copy: Self)
        ensures
            copy@ == self@,
    {
        ServingNow {
            owner_id: self.owner_id.clone(),
            effective_writer: self.effective_writer,
            state: self.state.clone(),
        }
    }
}

/// An optional statement by its view.
pub open spec fn serving_view(serving: Option<ServingNow>) -> Option<ServingView> {
    match serving {
        Some(serving) => Some(serving@),
        None => None,
    }
}

/// The evidence on one Verse.
#[derive(Debug, PartialEq, Eq)]
pub struct VerseCapabilityInputs {
    pub canon: String,
    pub verse: String,
    pub candidates: Vec<RecoveryCandidateEvidence>,
    pub serving_now: Option<ServingNow>,
    pub candidates_declared_for_static: bool,
    pub fleet_directory_nonempty: bool,
}

/// What the evidence on one Verse is, apart from its representation.
pub struct VerseInputsView {
    pub canon: Seq<char>,
    pub verse: Seq<char>,
    pub candidates: Seq<CandidateView>,
    pub serving_now: Option<ServingView>,
    pub candidates_declared_for_static: bool,
    pub fleet_directory_nonempty: bool,
}

impl View for VerseCapabilityInputs {
    type V = VerseInputsView;

    open spec fn view(&self) -> VerseInputsView {
        VerseInputsView {
            canon: self.canon@,
            verse: self.verse@,
            candidates: candidates_view(self.candidates@),
            serving_now: serving_view(self.serving_now),
            candidates_declared_for_static: self.candidates_declared_for_static,
            fleet_directory_nonempty: self.fleet_directory_nonempty,
        }
    }
}

/// Evidence on Verses by its views.
pub open spec fn verses_view(verses: Seq<VerseCapabilityInputs>) -> Seq<VerseInputsView> {
    verses.map_values(|verse: VerseCapabilityInputs| verse@)
}

/// All evidence on a deployment.
#[derive(Debug, PartialEq, Eq)]
pub struct CapabilityInputs {
    pub backend_label: String,
    pub independent_storage_targets: u32,
    pub committed_capable_target: bool,
    pub durable_producer_spool_configured: bool,
    pub producer_spool_loss_budget: String,
    pub producer_spool_scribe_id: String,
    pub verses: Vec<VerseCapabilityInputs>,
}

// Scopes.

/// A Canon/Verse that the node is configured for.
#[derive(Debug, PartialEq, Eq)]
pub struct VerseScope {
    pub canon: String,
    pub verse: String,
    /// Multi-assignment entry when present; single-assignment uses process root.
    pub assignment: Option<AssignmentConfig>,
}

/// What a scope is, apart from its representation.
pub struct ScopeView {
    pub canon: Seq<char>,
    pub verse: Seq<char>,
    pub assignment: Option<AssignmentView>,
}

impl View for VerseScope {
    type V = ScopeView;

    open spec fn view(&self) -> ScopeView {
        ScopeView {
            canon: self.canon@,
            verse: self.verse@,
            assignment: match self.assignment {
                Some(assignment) => Some(assignment@),
                None => None,
            },
        }
    }
}

/// Scopes by their views.
pub open spec fn scopes_view(scopes: Seq<VerseScope>) -> Seq<ScopeView> {
    scopes.map_values(|scope: VerseScope| scope@)
}

/// The scope of an assignment.
pub open spec fn scope_of(assignment: AssignmentView) -> ScopeView {
    ScopeView {
        canon: assignment.canon,
        verse: assignment.verse,
        assignment: Some(assignment),
    }
}

/// The scopes of a config, if it names any.
pub open spec fn config_scopes(config: ScriptureConfig) -> Option<Seq<ScopeView>> {
    if config.multi() {
        Some(
            assignments_view(config.scribe->0.assignments@).map_values(
                |assignment: AssignmentView| scope_of(assignment),
            ),
        )
    } else {
        match config.verse {
            Some(verse) => Some(
                seq![
                    ScopeView {
                        canon: verse.journal_id@,
                        verse: verse.verse_id@,
                        assignment: None,
                    },
                ],
            ),
            None => None,
        }
    }
}

/// The Verses that the config names.
pub fn verse_scopes(config: &ScriptureConfig) -> (scopes: Result<Vec<VerseScope>, String>)
    ensures
        match scopes {
            Ok(scopes) => config_scopes(*config) == Some(scopes_view(scopes@)),
            Err(message) => config_scopes(*config) is None && message@
                == "doctor requires verse or scribe.assignments"@,
        },
{
    let mut scopes: Vec<VerseScope> = Vec::new();
    if config.is_multi_assignment() {
        if let Some(scribe) = &config.scribe {
            let ghost whole = config_scopes(*config)->0;
            let mut at: usize = 0;
            while at < scribe.assignments.len()
                invariant
                    at <= scribe.assignments@.len(),
                    config.scribe == Some(*scribe),
                    config.multi(),
                    whole == config_scopes(*config)->0,
                    whole.len() == scribe.assignments@.len(),
                    scopes_view(scopes@) == whole.take(at as int),
                decreases scribe.assignments@.len() - at,
            {
                let assignment = &scribe.assignments[at];
                let ghost before = scopes_view(scopes@);
                scopes.push(
                    VerseScope {
                        canon: assignment.canon.clone(),
                        verse: assignment.verse.clone(),
                        assignment: Some(assignment.clone()),
                    },
                );
                proof {
                    assert(whole[at as int] == scope_of(assignment@));
                    assert(scopes_view(scopes@) =~= before.push(scope_of(assignment@)));
                    assert(whole.take(at + 1) =~= whole.take(at as int).push(whole[at as int]));
                }
                at += 1;
            }
            assert(whole.take(at as int) =~= whole);
        }
        return Ok(scopes);
    }
    match &config.verse {
        Some(verse) => {
            scopes.push(
                VerseScope {
                    canon: verse.journal_id.clone(),
                    verse: verse.verse_id.clone(),
                    assignment: None,
                },
            );
            assert(scopes_view(scopes@) =~= config_scopes(*config)->0);
            Ok(scopes)
        },
        None => Err("doctor requires verse or scribe.assignments".to_owned()),
    }
}

// Evidence from the configuration.

/// The declared candidates of a Verse. One declared fresh has no age; one declared
/// stale has the greatest.
pub open spec fn declared_for(
    declared: Seq<DeclaredEligibleCandidate>,
    canon: Seq<char>,
    verse: Seq<char>,
) -> Seq<CandidateView>
    decreases declared.len(),
{
    if declared.len() == 0 {
        Seq::empty()
    } else {
        let before = declared_for(declared.drop_last(), canon, verse);
        let last = declared.last();
        if last.canon@ == canon && last.verse@ == verse {
            before.push(
                CandidateView {
                    owner_id: last.owner_id@,
                    canon,
                    verse,
                    serving_capable: last.serving_capable,
                    fresh: last.fresh,
                    age_ms: if last.fresh {
                        0
                    } else {
                        u64::MAX
                    },
                    posture: Seq::empty(),
                    disposition: Seq::empty(),
                },
            )
        } else {
            before
        }
    }
}

fn declared_candidates(declared: &Vec<DeclaredEligibleCandidate>, canon: &str, verse: &str) -> (found:
    Vec<RecoveryCandidateEvidence>)
    ensures
        candidates_view(found@) == declared_for(declared@, canon@, verse@),
{
    let mut found: Vec<RecoveryCandidateEvidence> = Vec::new();
    let mut at: usize = 0;
    assert(candidates_view(found@) =~= declared_for(declared@.take(0), canon@, verse@));
    while at < declared.len()
        invariant
            at <= declared@.len(),
            candidates_view(found@) == declared_for(declared@.take(at as int), canon@, verse@),
        decreases declared@.len() - at,
    {
        let one = &declared[at];
        let ghost before = candidates_view(found@);
        assert(declared@.take(at + 1).drop_last() =~= declared@.take(at as int));
        if same_text(one.canon.as_str(), canon) && same_text(one.verse.as_str(), verse) {
            let candidate = RecoveryCandidateEvidence {
                owner_id: one.owner_id.clone(),
                canon: one.canon.clone(),
                verse: one.verse.clone(),
                serving_capable: one.serving_capable,
                fresh: one.fresh,
                age_ms: if one.fresh {
                    0
                } else {
                    u64::MAX
                },
                posture: String::new(),
                disposition: String::new(),
            };
            let ghost view = candidate@;
            found.push(candidate);
            proof {
                assert(view.posture =~= Seq::<char>::empty());
                assert(view.disposition =~= Seq::<char>::empty());
                assert(candidates_view(found@) =~= before.push(view));
            }
        }
        at += 1;
    }
    assert(declared@.take(at as int) =~= declared@);
    found
}

/// The declared candidates of a config.
pub open spec fn declared_in(config: ScriptureConfig) -> Seq<DeclaredEligibleCandidate> {
    match config.safety {
        Some(safety) => safety.declared_eligible_candidates@,
        None => Seq::empty(),
    }
}

/// The evidence on one scope that the config alone gives.
pub open spec fn static_verse(
    declared: Seq<DeclaredEligibleCandidate>,
    canon: Seq<char>,
    verse: Seq<char>,
) -> VerseInputsView {
    VerseInputsView {
        canon,
        verse,
        candidates: declared_for(declared, canon, verse),
        serving_now: None,
        candidates_declared_for_static: declared.len() > 0,
        fleet_directory_nonempty: false,
    }
}

/// The evidence on the Verses of a config that the config alone gives.
pub open spec fn static_verses(config: ScriptureConfig) -> Seq<VerseInputsView> {
    let declared = declared_in(config);
    match config_scopes(config) {
        Some(scopes) => scopes.map_values(
            |scope: ScopeView| static_verse(declared, scope.canon, scope.verse),
        ),
        None => Seq::empty(),
    }
}

/// The Verses of a config with their declared candidates.
pub fn verse_scopes_for_static(config: &ScriptureConfig) -> (verses: Vec<VerseCapabilityInputs>)
    ensures
        verses_view(verses@) == static_verses(*config),
{
    let ghost declared = declared_in(*config);
    let mut verses: Vec<VerseCapabilityInputs> = Vec::new();
    let scopes = match verse_scopes(config) {
        Ok(scopes) => scopes,
        Err(_) => {
            assert(verses_view(verses@) =~= static_verses(*config));
            return verses;
        },
    };
    let ghost whole = static_verses(*config);
    let mut at: usize = 0;
    while at < scopes.len()
        invariant
            at <= scopes@.len(),
            config_scopes(*config) == Some(scopes_view(scopes@)),
            declared == declared_in(*config),
            whole == static_verses(*config),
            whole.len() == scopes@.len(),
            verses_view(verses@) == whole.take(at as int),
        decreases scopes@.len() - at,
    {
        let scope = &scopes[at];
        let ghost before = verses_view(verses@);
        let (candidates, any_declared) = match &config.safety {
            Some(safety) => (
                declared_candidates(
                    &safety.declared_eligible_candidates,
                    scope.canon.as_str(),
                    scope.verse.as_str(),
                ),
                safety.declared_eligible_candidates.len() > 0,
            ),
            None => (Vec::new(), false),
        };
        assert(candidates_view(candidates@) =~= declared_for(declared, scope.canon@, scope.verse@));
        let inputs = VerseCapabilityInputs {
            canon: scope.canon.clone(),
            verse: scope.verse.clone(),
            candidates,
            serving_now: None,
            candidates_declared_for_static: any_declared,
            fleet_directory_nonempty: false,
        };
        let ghost view = inputs@;
        verses.push(inputs);
        proof {
            assert(view == static_verse(declared, scope.canon@, scope.verse@));
            assert(scopes_view(scopes@)[at as int] == scope@);
            assert(whole[at as int] == view);
            assert(verses_view(verses@) =~= before.push(view));
            assert(whole.take(at + 1) =~= whole.take(at as int).push(whole[at as int]));
        }
        at += 1;
    }
    assert(whole.take(at as int) =~= whole);
    verses
}

/// How many seconds one disk may lose, and whose disk it is, where a durable spool
/// is described; nothing else is said.
pub open spec fn spool_words(config: ScriptureConfig) -> (Seq<char>, Seq<char>) {
    if config.producer_spool is Some && config.spool_problem() is None {
        (
            decimal(config.producer_spool->0.loss_budget_secs as nat) + "s"@,
            config.producer_spool->0.scribe_id@,
        )
    } else {
        (Seq::empty(), Seq::empty())
    }
}

/// The loss budget and the Scribe of the described spool, in words.
pub fn spool_evidence(config: &ScriptureConfig) -> (words: (String, String))
    ensures
        (words.0@, words.1@) == spool_words(*config),
{
    match config.validated_producer_spool() {
        Ok(Some(spool)) => {
            let mut budget = String::new();
            push_decimal(&mut budget, spool.loss_budget_secs);
            budget.append("s");
            assert(budget@ =~= decimal(spool.loss_budget_secs as nat) + "s"@);
            (budget, spool.scribe_id.clone())
        },
        _ => {
            let none = (String::new(), String::new());
            assert(none.0@ =~= Seq::<char>::empty());
            assert(none.1@ =~= Seq::<char>::empty());
            none
        },
    }
}

/// Gathers the evidence on a deployment around that on its Verses: one storage
/// target, and the producer spool as it is configured.
pub fn capability_inputs(
    config: &ScriptureConfig,
    backend_label: &str,
    verses: Vec<VerseCapabilityInputs>,
) -> (inputs: CapabilityInputs)
    ensures
        inputs.backend_label@ == backend_label@,
        inputs.independent_storage_targets == 1,
        inputs.committed_capable_target,
        inputs.durable_producer_spool_configured == config.spool_mounted(),
        (inputs.producer_spool_loss_budget@, inputs.producer_spool_scribe_id@) == spool_words(
            *config,
        ),
        inputs.verses == verses,
{
    let (producer_spool_loss_budget, producer_spool_scribe_id) = spool_evidence(config);
    CapabilityInputs {
        backend_label: backend_label.to_owned(),
        independent_storage_targets: 1,
        committed_capable_target: true,
        durable_producer_spool_configured: config.durable_producer_spool_configured(),
        producer_spool_loss_budget,
        producer_spool_scribe_id,
        verses,
    }
}

/// The evidence that the config alone gives. `backend_label` is the label of the
/// configured backend, where it is one that is known; else its own name is used.
pub fn static_capability_inputs(config: &ScriptureConfig, backend_label: Option<&str>) -> (inputs:
    CapabilityInputs)
    ensures
        inputs.backend_label@ == (match backend_label {
            Some(label) => label@,
            None => config.store.backend@,
        }),
        inputs.independent_storage_targets == 1,
        inputs.committed_capable_target,
        inputs.durable_producer_spool_configured == config.spool_mounted(),
        (inputs.producer_spool_loss_budget@, inputs.producer_spool_scribe_id@) == spool_words(
            *config,
        ),
        verses_view(inputs.verses@) == static_verses(*config),
{
    let verses = verse_scopes_for_static(config);
    let label = match backend_label {
        Some(label) => label,
        None => config.store.backend.as_str(),
    };
    capability_inputs(config, label, verses)
}

// Evidence from the fleet directory and the authority root.

/// One assignment of a published directory record.
#[derive(Debug, PartialEq, Eq)]
pub struct DirectoryAssignment {
    pub canon: String,
    pub verse: String,
    pub advertise: String,
    pub posture: String,
    pub disposition: String,
    pub admits_committed_acks: bool,
}

/// A published directory record, seen at some moment.
#[derive(Debug, PartialEq, Eq)]
pub struct DirectoryRecord {
    pub owner_id: String,
    pub node_advertise: String,
    /// Whether it had not expired at that moment.
    pub fresh: bool,
    /// Its age at that moment.
    pub age_ms: u64,
    pub assignments: Vec<DirectoryAssignment>,
}

/// The candidates that one record names for a Verse.
pub open spec fn record_candidates(
    record: DirectoryRecord,
    assignments: Seq<DirectoryAssignment>,
    canon: Seq<char>,
    verse: Seq<char>,
) -> Seq<CandidateView>
    decreases assignments.len(),
{
    if assignments.len() == 0 {
        Seq::empty()
    } else {
        let before = record_candidates(record, assignments.drop_last(), canon, verse);
        let last = assignments.last();
        if last.canon@ == canon && last.verse@ == verse {
            before.push(
                CandidateView {
                    owner_id: record.owner_id@,
                    canon,
                    verse,
                    serving_capable: last.admits_committed_acks,
                    fresh: record.fresh,
                    age_ms: record.age_ms,
                    posture: last.posture@,
                    disposition: last.disposition@,
                },
            )
        } else {
            before
        }
    }
}

/// The candidates that the directory names for a Verse.
pub open spec fn directory_candidates(
    records: Seq<DirectoryRecord>,
    canon: Seq<char>,
    verse: Seq<char>,
) -> Seq<CandidateView>
    decreases records.len(),
{
    if records.len() == 0 {
        Seq::empty()
    } else {
        directory_candidates(records.drop_last(), canon, verse) + record_candidates(
            records.last(),
            records.last().assignments@,
            canon,
            verse,
        )
    }
}

/// The candidates that the directory names for a Verse, in the directory's order.
pub fn candidates_from_directory(records: &Vec<DirectoryRecord>, canon: &str, verse: &str) -> (found:
    Vec<RecoveryCandidateEvidence>)
    ensures
        candidates_view(found@) == directory_candidates(records@, canon@, verse@),
{
    let mut found: Vec<RecoveryCandidateEvidence> = Vec::new();
    let mut at: usize = 0;
    assert(candidates_view(found@) =~= directory_candidates(records@.take(0), canon@, verse@));
    while at < records.len()
        invariant
            at <= records@.len(),
            candidates_view(found@) == directory_candidates(
                records@.take(at as int),
                canon@,
                verse@,
            ),
        decreases records@.len() - at,
    {
        let record = &records[at];
        let ghost earlier = candidates_view(found@);
        let mut next: usize = 0;
        assert(candidates_view(found@) =~= earlier + record_candidates(
            *record,
            record.assignments@.take(0),
            canon@,
            verse@,
        ));
        while next < record.assignments.len()
            invariant
                next <= record.assignments@.len(),
                candidates_view(found@) == earlier + record_candidates(
                    *record,
                    record.assignments@.take(next as int),
                    canon@,
                    verse@,
                ),
            decreases record.assignments@.len() - next,
        {
            let assignment = &record.assignments[next];
            let ghost before = candidates_view(found@);
            assert(record.assignments@.take(next + 1).drop_last() =~= record.assignments@.take(
                next as int,
            ));
            if same_text(assignment.canon.as_str(), canon) && same_text(
                assignment.verse.as_str(),
                verse,
            ) {
                let candidate = RecoveryCandidateEvidence {
                    owner_id: record.owner_id.clone(),
                    canon: assignment.canon.clone(),
                    verse: assignment.verse.clone(),
                    serving_capable: assignment.admits_committed_acks,
                    fresh: record.fresh,
                    age_ms: record.age_ms,
                    posture: assignment.posture.clone(),
                    disposition: assignment.disposition.clone(),
                };
                let ghost view = candidate@;
                found.push(candidate);
                proof {
                    assert(candidates_view(found@) =~= before.push(view));
                    assert(candidates_view(found@) =~= earlier + record_candidates(
                        *record,
                        record.assignments@.take(next + 1),
                        canon@,
                        verse@,
                    ));
                }
            }
            next += 1;
        }
        proof {
            assert(record.assignments@.take(next as int) =~= record.assignments@);
            assert(records@.take(at + 1).drop_last() =~= records@.take(at as int));
        }
        at += 1;
    }
    assert(records@.take(at as int) =~= records@);
    found
}

/// The live evidence on one scope.
pub fn live_verse_inputs(
    scope: &VerseScope,
    records: &Vec<DirectoryRecord>,
    serving_now: Option<ServingNow>,
) -> (inputs: VerseCapabilityInputs)
    ensures
        inputs@ == (VerseInputsView {
            canon: scope.canon@,
            verse: scope.verse@,
            candidates: directory_candidates(records@, scope.canon@, scope.verse@),
            serving_now: serving_view(serving_now),
            candidates_declared_for_static: true,
            fleet_directory_nonempty: records@.len() > 0,
        }),
{
    VerseCapabilityInputs {
        canon: scope.canon.clone(),
        verse: scope.verse.clone(),
        candidates: candidates_from_directory(records, scope.canon.as_str(), scope.verse.as_str()),
        serving_now,
        candidates_declared_for_static: true,
        fleet_directory_nonempty: records.len() > 0,
    }
}

/// Who may commit, given the state in the authority root, the owner that it names
/// and whether the root grants that owner effective writership.
pub open spec fn serving_of(state: AuthorityState, owner: Seq<u8>, effective: bool) -> Option<
    ServingView,
> {
    match state {
        AuthorityState::Serving { .. } => Some(
            ServingView {
                owner_id: lossy_text(owner),
                effective_writer: effective,
                state: "Serving"@,
            },
        ),
        AuthorityState::Transitioning { .. } => Some(
            ServingView {
                owner_id: "(transitioning)"@,
                effective_writer: false,
                state: "Transitioning"@,
            },
        ),
        AuthorityState::Unassigned => None,
        AuthorityState::ReconciliationRequired { .. } => Some(
            ServingView {
                owner_id: "(reconciliation-required)"@,
                effective_writer: false,
                state: "ReconciliationRequired"@,
            },
        ),
    }
}

/// Owner identities are sixteen ASCII bytes in product configs.
pub fn owner_display(owner: &[u8]) -> (text: String)
    ensures
        text@ == lossy_text(owner@),
{
    text_from_utf8_lossy(owner)
}

/// Who may commit to a Verse. `root` is the decoded authority root, where there is
/// one; directory dispositions are never asked.
pub fn serving_owner(root: Option<AuthorityState>, owner: &[u8], effective: bool) -> (serving:
    Option<ServingNow>)
    ensures
        serving_view(serving) == (match root {
            Some(state) => serving_of(state, owner@, effective),
            None => None,
        }),
{
    match root {
        Some(AuthorityState::Serving { .. }) => Some(
            ServingNow {
                owner_id: owner_display(owner),
                effective_writer: effective,
                state: "Serving".to_owned(),
            },
        ),
        Some(AuthorityState::Transitioning { .. }) => Some(
            ServingNow {
                owner_id: "(transitioning)".to_owned(),
                effective_writer: false,
                state: "Transitioning".to_owned(),
            },
        ),
        Some(AuthorityState::ReconciliationRequired { .. }) => Some(
            ServingNow {
                owner_id: "(reconciliation-required)".to_owned(),
                effective_writer: false,
                state: "ReconciliationRequired".to_owned(),
            },
        ),
        Some(AuthorityState::Unassigned) => None,
        None => None,
    }
}

// Laws.

/// A Verse is never credited with a candidate of another Verse.
pub proof fn law_candidates_name_the_verse(
    records: Seq<DirectoryRecord>,
    canon: Seq<char>,
    verse: Seq<char>,
    at: int,
)
    requires
        0 <= at < directory_candidates(records, canon, verse).len(),
    ensures
        directory_candidates(records, canon, verse)[at].canon == canon,
        directory_candidates(records, canon, verse)[at].verse == verse,
    decreases records.len(),
{
    if records.len() > 0 {
        let before = directory_candidates(records.drop_last(), canon, verse);
        if at < before.len() {
            law_candidates_name_the_verse(records.drop_last(), canon, verse, at);
        } else {
            lemma_record_candidates_name_the_verse(
                records.last(),
                records.last().assignments@,
                canon,
                verse,
                at - before.len(),
            );
        }
    }
}

proof fn lemma_record_candidates_name_the_verse(
    record: DirectoryRecord,
    assignments: Seq<DirectoryAssignment>,
    canon: Seq<char>,
    verse: Seq<char>,
    at: int,
)
    requires
        0 <= at < record_candidates(record, assignments, canon, verse).len(),
    ensures
        record_candidates(record, assignments, canon, verse)[at].canon == canon,
        record_candidates(record, assignments, canon, verse)[at].verse == verse,
        record_candidates(record, assignments, canon, verse)[at].fresh == record.fresh,
    decreases assignments.len(),
{
    if assignments.len() > 0 {
        let before = record_candidates(record, assignments.drop_last(), canon, verse);
        if at < before.len() {
            lemma_record_candidates_name_the_verse(
                record,
                assignments.drop_last(),
                canon,
                verse,
                at,
            );
        }
    }
}

/// Only a Serving authority root makes anyone an effective writer.
pub proof fn law_only_serving_roots_have_writers(
    state: AuthorityState,
    owner: Seq<u8>,
    effective: bool,
)
    ensures
        serving_of(state, owner, effective) matches Some(serving) && serving.effective_writer
            ==> state is Serving && effective,
{
}

/// Nothing is told of an unassigned root alone; a Serving one is told with its owner and whether
/// that owner is the effective writer, and each other one by what it waits for.
pub proof fn law_roots_are_told_by_their_state(
    state: AuthorityState,
    owner: Seq<u8>,
    effective: bool,
)
    ensures
        ({
            let told = serving_of(state, owner, effective);
            &&& told is None <==> state is Unassigned
            &&& state is Serving ==> told->0.owner_id == lossy_text(owner)
                && told->0.effective_writer == effective && told->0.state == "Serving"@
            &&& state is Transitioning ==> told->0.owner_id == "(transitioning)"@
                && !told->0.effective_writer && told->0.state == "Transitioning"@
            &&& state is ReconciliationRequired ==> told->0.owner_id
                == "(reconciliation-required)"@ && !told->0.effective_writer && told->0.state
                == "ReconciliationRequired"@
        }),
{
}

/// What one more published assignment adds: nothing where it names another Verse, else one
/// candidate, which is capable of serving exactly where the assignment admits committed
/// ACKs, as fresh and as old as its record, and in the assignment's own words.
pub proof fn law_an_assignment_adds_its_candidate(
    records: Seq<DirectoryRecord>,
    record: DirectoryRecord,
    longer: DirectoryRecord,
    assignment: DirectoryAssignment,
    canon: Seq<char>,
    verse: Seq<char>,
)
    requires
        longer.owner_id@ == record.owner_id@,
        longer.fresh == record.fresh,
        longer.age_ms == record.age_ms,
        longer.assignments@ == record.assignments@.push(assignment),
    ensures
        assignment.canon@ != canon || assignment.verse@ != verse ==> directory_candidates(
            records.push(longer),
            canon,
            verse,
        ) == directory_candidates(records.push(record), canon, verse),
        assignment.canon@ == canon && assignment.verse@ == verse ==> ({
            let before = directory_candidates(records.push(record), canon, verse);
            let after = directory_candidates(records.push(longer), canon, verse);
            &&& after.len() == before.len() + 1
            &&& after.drop_last() == before
            &&& after.last().owner_id == record.owner_id@
            &&& after.last().canon == canon
            &&& after.last().verse == verse
            &&& after.last().serving_capable == assignment.admits_committed_acks
            &&& after.last().fresh == record.fresh
            &&& after.last().age_ms == record.age_ms
            &&& after.last().posture == assignment.posture@
            &&& after.last().disposition == assignment.disposition@
        }),
{
    assert(records.push(longer).drop_last() =~= records);
    assert(records.push(record).drop_last() =~= records);
    assert(longer.assignments@.drop_last() =~= record.assignments@);
    lemma_record_by_its_fields(record, longer, record.assignments@, canon, verse);
    let before = directory_candidates(records.push(record), canon, verse);
    let after = directory_candidates(records.push(longer), canon, verse);
    if assignment.canon@ == canon && assignment.verse@ == verse {
        assert(after.drop_last() =~= before);
    } else {
        assert(after =~= before);
    }
}

proof fn lemma_record_by_its_fields(
    one: DirectoryRecord,
    other: DirectoryRecord,
    assignments: Seq<DirectoryAssignment>,
    canon: Seq<char>,
    verse: Seq<char>,
)
    requires
        one.owner_id@ == other.owner_id@,
        one.fresh == other.fresh,
        one.age_ms == other.age_ms,
    ensures
        record_candidates(one, assignments, canon, verse) == record_candidates(
            other,
            assignments,
            canon,
            verse,
        ),
    decreases assignments.len(),
{
    if assignments.len() > 0 {
        lemma_record_by_its_fields(one, other, assignments.drop_last(), canon, verse);
    }
}

/// A record that publishes no assignment adds no candidate, and an empty directory has none.
pub proof fn law_nothing_published_nothing_found(
    records: Seq<DirectoryRecord>,
    record: DirectoryRecord,
    canon: Seq<char>,
    verse: Seq<char>,
)
    requires
        record.assignments@.len() == 0,
    ensures
        directory_candidates(records.push(record), canon, verse) == directory_candidates(
            records,
            canon,
            verse,
        ),
        directory_candidates(Seq::empty(), canon, verse).len() == 0,
{
    assert(records.push(record).drop_last() =~= records);
    assert(directory_candidates(records.push(record), canon, verse) =~= directory_candidates(
        records,
        canon,
        verse,
    ));
}

/// Every candidate has its source: a published record and one of that record's assignments
/// that names the Verse. It is capable of serving only where that assignment admits
/// committed ACKs.
pub proof fn law_candidates_have_a_source(
    records: Seq<DirectoryRecord>,
    canon: Seq<char>,
    verse: Seq<char>,
    at: int,
)
    requires
        0 <= at < directory_candidates(records, canon, verse).len(),
    ensures
        exists|i: int, j: int|
            0 <= i < records.len() && 0 <= j < (#[trigger] records[i]).assignments@.len() && ({
                let found = directory_candidates(records, canon, verse)[at];
                let source = #[trigger] records[i].assignments@[j];
                &&& source.canon@ == canon
                &&& source.verse@ == verse
                &&& found.owner_id == records[i].owner_id@
                &&& found.fresh == records[i].fresh
                &&& found.age_ms == records[i].age_ms
                &&& found.serving_capable == source.admits_committed_acks
                &&& found.posture == source.posture@
                &&& found.disposition == source.disposition@
            }),
    decreases records.len(),
{
    let before = directory_candidates(records.drop_last(), canon, verse);
    if at < before.len() {
        law_candidates_have_a_source(records.drop_last(), canon, verse, at);
        let shorter = records.drop_last();
        let (i, j) = choose|i: int, j: int|
            0 <= i < shorter.len() && 0 <= j < (#[trigger] shorter[i]).assignments@.len() && ({
                let found = directory_candidates(shorter, canon, verse)[at];
                let source = #[trigger] shorter[i].assignments@[j];
                &&& source.canon@ == canon
                &&& source.verse@ == verse
                &&& found.owner_id == shorter[i].owner_id@
                &&& found.fresh == shorter[i].fresh
                &&& found.age_ms == shorter[i].age_ms
                &&& found.serving_capable == source.admits_committed_acks
                &&& found.posture == source.posture@
                &&& found.disposition == source.disposition@
            });
        assert(records[i] == shorter[i]);
        assert(records[i].assignments@[j] == shorter[i].assignments@[j]);
    } else {
        let last = records.len() - 1;
        let j = lemma_record_candidate_source(
            records[last],
            records[last].assignments@,
            canon,
            verse,
            at - before.len(),
        );
        assert(records[last].assignments@[j].canon@ == canon);
    }
}

proof fn lemma_record_candidate_source(
    record: DirectoryRecord,
    assignments: Seq<DirectoryAssignment>,
    canon: Seq<char>,
    verse: Seq<char>,
    at: int,
) -> (j: int)
    requires
        0 <= at < record_candidates(record, assignments, canon, verse).len(),
    ensures
        0 <= j < assignments.len(),
        ({
            let found = record_candidates(record, assignments, canon, verse)[at];
            &&& assignments[j].canon@ == canon
            &&& assignments[j].verse@ == verse
            &&& found.owner_id == record.owner_id@
            &&& found.fresh == record.fresh
            &&& found.age_ms == record.age_ms
            &&& found.serving_capable == assignments[j].admits_committed_acks
            &&& found.posture == assignments[j].posture@
            &&& found.disposition == assignments[j].disposition@
        }),
    decreases assignments.len(),
{
    let before = record_candidates(record, assignments.drop_last(), canon, verse);
    if at < before.len() {
        let j = lemma_record_candidate_source(
            record,
            assignments.drop_last(),
            canon,
            verse,
            at,
        );
        assert(assignments.drop_last()[j] == assignments[j]);
        j
    } else {
        assignments.len() - 1
    }
}

/// What one more declared candidate adds: itself, with the capability and freshness that the
/// operator vouches for, and only to the Verse that it names.
pub proof fn law_a_declaration_adds_its_candidate(
    declared: Seq<DeclaredEligibleCandidate>,
    one: DeclaredEligibleCandidate,
    canon: Seq<char>,
    verse: Seq<char>,
)
    ensures
        ({
            let before = declared_for(declared, canon, verse);
            let after = declared_for(declared.push(one), canon, verse);
            if one.canon@ == canon && one.verse@ == verse {
                &&& after.len() == before.len() + 1
                &&& after.drop_last() == before
                &&& after.last().owner_id == one.owner_id@
                &&& after.last().serving_capable == one.serving_capable
                &&& after.last().fresh == one.fresh
                &&& one.fresh ==> after.last().age_ms == 0
                &&& !one.fresh ==> after.last().age_ms == u64::MAX
                &&& after.last().canon == canon
                &&& after.last().verse == verse
            } else {
                after == before
            }
        }),
        declared_for(Seq::empty(), canon, verse).len() == 0,
{
    assert(declared.push(one).drop_last() =~= declared);
    let before = declared_for(declared, canon, verse);
    let after = declared_for(declared.push(one), canon, verse);
    if one.canon@ == canon && one.verse@ == verse {
        assert(after.drop_last() =~= before);
    }
}

/// Static evidence is on the configured Verses, one each and in their order, and rests on
/// declared candidates alone: it knows no writer and no directory.
pub proof fn law_static_evidence_is_declared(config: ScriptureConfig, at: int)
    requires
        0 <= at < static_verses(config).len(),
    ensures
        config.scribe matches Some(scribe) ==> (scribe.assignments@.len() > 0 ==> {
            &&& static_verses(config).len() == scribe.assignments@.len()
            &&& static_verses(config)[at].canon == scribe.assignments@[at].canon@
            &&& static_verses(config)[at].verse == scribe.assignments@[at].verse@
        }),
        config.scribe is None ==> (config.verse matches Some(verse) && static_verses(config).len()
            == 1 && static_verses(config)[at].canon == verse.journal_id@ && static_verses(
            config,
        )[at].verse == verse.verse_id@),
        static_verses(config)[at].serving_now is None,
        !static_verses(config)[at].fleet_directory_nonempty,
        static_verses(config)[at].candidates_declared_for_static <==> (config.safety matches Some(
            safety,
        ) && safety.declared_eligible_candidates@.len() > 0),
        config.safety is None ==> static_verses(config)[at].candidates.len() == 0,
        config.safety matches Some(safety) ==> static_verses(config)[at].candidates
            == declared_for(
            safety.declared_eligible_candidates@,
            static_verses(config)[at].canon,
            static_verses(config)[at].verse,
        ),
{
}

/// A root says who serves exactly where it is not unassigned. In the Serving state that is
/// its owner, who may write exactly where the root grants it; in any other state nobody may.
pub proof fn law_roots_name_their_writer(state: AuthorityState, owner: Seq<u8>, effective: bool)
    ensures
        serving_of(state, owner, effective) is None <==> state is Unassigned,
        state is Serving ==> serving_of(state, owner, effective)->0.owner_id == lossy_text(owner)
            && serving_of(state, owner, effective)->0.effective_writer == effective
            && serving_of(state, owner, effective)->0.state == "Serving"@,
        state is Transitioning ==> !serving_of(state, owner, effective)->0.effective_writer
            && serving_of(state, owner, effective)->0.state == "Transitioning"@,
        state is ReconciliationRequired ==> !serving_of(
            state,
            owner,
            effective,
        )->0.effective_writer && serving_of(state, owner, effective)->0.state
            == "ReconciliationRequired"@,
{
}

/// The loss budget is that of the described spool in seconds, and the Scribe is the one whose
/// disk it is; a spool that is not sound gives neither.
pub proof fn law_spool_evidence_is_the_described_spool(config: ScriptureConfig)
    ensures
        config.producer_spool matches Some(spool) ==> (config.spool_problem() is None ==> {
            &&& spool_words(config).0 == decimal(spool.loss_budget_secs as nat).push('s')
            &&& spool_words(config).1 == spool.scribe_id@
        }),
        config.producer_spool is None || config.spool_problem() is Some ==> spool_words(
            config,
        ).0.len() == 0 && spool_words(config).1.len() == 0,
{
    reveal_strlit("s");
    if let Some(spool) = config.producer_spool {
        assert(decimal(spool.loss_budget_secs as nat) + "s"@ =~= decimal(
            spool.loss_budget_secs as nat,
        ).push('s'));
    }
}

/// Every assignment is a scope of its own, in its order, or else the single Verse is the only
/// one; a config that names neither has none.
pub proof fn law_scopes_are_the_configs_verses(
    config: ScriptureConfig,
    scopes: Result<Vec<VerseScope>, String>,
    at: int,
)
    requires
        call_ensures(verse_scopes, (&config,), scopes),
    ensures
        ({
            let several = config.scribe is Some && config.scribe->0.assignments@.len() > 0;
            &&& scopes is Ok <==> several || config.verse is Some
            &&& scopes matches Ok(found) ==> (several ==> found@.len()
                == config.scribe->0.assignments@.len()
                    && (0 <= at < found@.len() ==> found@[at].canon@
                == config.scribe->0.assignments@[at].canon@ && found@[at].verse@
                == config.scribe->0.assignments@[at].verse@))
            &&& scopes matches Ok(found) ==> (!several ==> found@.len() == 1 && found@[0].canon@
                == config.verse->0.journal_id@ && found@[0].verse@ == config.verse->0.verse_id@)
        }),
{
    if let Ok(found) = scopes {
        let view = scopes_view(found@);
        assert(view.len() == found@.len());
        if 0 <= at < found@.len() {
            assert(view[at] == found@[at]@);
        }
        if found@.len() > 0 {
            assert(view[0] == found@[0]@);
        }
    }
}

/// The evidence names the one configured target, the spool exactly where it is mounted, and the
/// Verses as they are given.
pub proof fn law_evidence_is_the_configured(
    config: ScriptureConfig,
    label: &str,
    verses: Vec<VerseCapabilityInputs>,
    inputs: CapabilityInputs,
    unnamed: CapabilityInputs,
    named: CapabilityInputs,
)
    requires
        call_ensures(capability_inputs, (&config, label, verses), inputs),
        call_ensures(static_capability_inputs, (&config, None), unnamed),
        call_ensures(static_capability_inputs, (&config, Some(label)), named),
    ensures
        inputs.backend_label@ == label@,
        unnamed.backend_label@ == config.store.backend@,
        named.backend_label@ == label@,
        inputs.independent_storage_targets == 1,
        inputs.committed_capable_target,
        inputs.durable_producer_spool_configured == config.spool_mounted(),
        unnamed.durable_producer_spool_configured == config.spool_mounted(),
        inputs.verses == verses,
{
}

/// Live evidence on a Verse is its own, from the records that were found, and says whether there
/// were any at all.
pub proof fn law_live_evidence_is_of_its_verse(
    scope: VerseScope,
    records: Vec<DirectoryRecord>,
    serving_now: Option<ServingNow>,
    inputs: VerseCapabilityInputs,
)
    requires
        call_ensures(live_verse_inputs, (&scope, &records, serving_now), inputs),
    ensures
        inputs@.canon == scope.canon@,
        inputs@.verse == scope.verse@,
        inputs@.candidates == directory_candidates(records@, scope.canon@, scope.verse@),
        inputs@.fleet_directory_nonempty <==> records@.len() > 0,
        inputs@.serving_now is Some <==> serving_now is Some,
{
}

/// The candidates of a Verse, its writer and its spool, over whole calls: each is of the Canon
/// and the Verse that were asked for.
pub proof fn law_evidence_over_whole_calls(
    records: Vec<DirectoryRecord>,
    canon: &str,
    verse: &str,
    found: Vec<RecoveryCandidateEvidence>,
    at: int,
    state: AuthorityState,
    owner: &[u8],
    effective: bool,
    serving: Option<ServingNow>,
    nobody: Option<ServingNow>,
)
    requires
        call_ensures(candidates_from_directory, (&records, canon, verse), found),
        call_ensures(serving_owner, (Some(state), owner, effective), serving),
        call_ensures(serving_owner, (None, owner, effective), nobody),
        0 <= at < found@.len(),
    ensures
        found@[at].canon@ == canon@,
        found@[at].verse@ == verse@,
        found@.len() == directory_candidates(records@, canon@, verse@).len(),
        nobody is None,
        serving is None <==> state is Unassigned,
        serving matches Some(now) ==> (now.effective_writer <==> state is Serving && effective),
{
    let view = candidates_view(found@);
    assert(view.len() == found@.len());
    assert(view[at] == found@[at]@);
    law_candidates_name_the_verse(records@, canon@, verse@, at);
}

} // verus!
