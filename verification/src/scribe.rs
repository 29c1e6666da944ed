//! Multi-assignment Scribe activation.
//!
//! One independent runtime per assignment; authority is never process-global. Standby
//! is a dormant candidate: no Serving authority, no warm recovery, no committed ACKs
//! until it is promoted by name. Stores, listeners and sessions are outside; this module
//! says which assignment attempts what, which must hold its ingress first, and what is
//! reported.
use crate::authority::AuthorityKey;
use crate::capability::DirectoryAssignment;
use crate::config::{
    assignments_view, AssignmentConfig, AssignmentPosture, AssignmentView, ConfigError,
    ScriptureConfig,
};
use crate::ids::{JournalId, VerseId};
use crate::text::{concat, concat_of, decimal, decimal_text, quote, quoted, same_text, texts_view};
use crate::text_laws::{differ_behind, lemma_differ_in_parts};
use vstd::prelude::*;
use vstd::utf8::encode_utf8;

verus! {

// Budgets.

/// Ceilings of one Scribe.
#[derive(Debug, Clone, Copy, PartialEq, Eq, Structural)]
pub struct ScribeResourceLimits {
    pub max_assignments: usize,
    pub max_pending_bytes: usize,
    pub max_pending_records: usize,
    pub max_concurrent_tasks: usize,
}

/// Ceilings of one assignment.
#[derive(Debug, Clone, Copy, PartialEq, Eq, Structural)]
pub struct AssignmentResourceLimits {
    pub max_pending_bytes: usize,
    pub max_pending_records: usize,
    pub min_pending_bytes_floor: usize,
}

/// Ceilings of one raw-lines ingress.
#[derive(Debug, Clone, Copy, PartialEq, Eq, Structural)]
pub struct RawLinesLimits {
    pub max_line_bytes: usize,
    pub max_pending_records: usize,
    pub max_pending_bytes: usize,
}

/// The greater of two sizes.
pub open spec fn greater(left: int, right: int) -> int {
    if left >= right {
        left
    } else {
        right
    }
}

fn greater_of(left: usize, right: usize) -> (greatest: usize)
    ensures
        greatest == greater(left as int, right as int),
{
    if left >= right {
        left
    } else {
        right
    }
}

/// The ceilings that a config gives its Scribe.
pub fn scribe_limits(config: &ScriptureConfig) -> (limits: Result<ScribeResourceLimits, String>)
    ensures
        match config.scribe {
            Some(scribe) => limits == Ok::<_, String>(
                ScribeResourceLimits {
                    max_assignments: scribe.limits.max_assignments,
                    max_pending_bytes: scribe.limits.max_pending_bytes,
                    max_pending_records: scribe.limits.max_pending_records,
                    max_concurrent_tasks: scribe.limits.max_concurrent_tasks,
                },
            ),
            None => limits matches Err(message) && message@
                == "multi-assignment path requires scribe.assignments"@,
        },
{
    match &config.scribe {
        Some(scribe) => Ok(
            ScribeResourceLimits {
                max_assignments: scribe.limits.max_assignments,
                max_pending_bytes: scribe.limits.max_pending_bytes,
                max_pending_records: scribe.limits.max_pending_records,
                max_concurrent_tasks: scribe.limits.max_concurrent_tasks,
            },
        ),
        None => Err("multi-assignment path requires scribe.assignments".to_owned()),
    }
}

/// Equal share of node pending ceilings, floored at the ingress defaults.
pub fn assignment_budget_for_node(
    limits: &ScribeResourceLimits,
    assignment_count: usize,
    defaults: &RawLinesLimits,
) -> (budget: AssignmentResourceLimits)
    ensures
        budget.max_pending_bytes == greater(
            limits.max_pending_bytes as int / greater(assignment_count as int, 1),
            defaults.max_pending_bytes as int,
        ),
        budget.max_pending_records == greater(
            limits.max_pending_records as int / greater(assignment_count as int, 1),
            defaults.max_pending_records as int,
        ),
        budget.min_pending_bytes_floor == 0,
{
    let count: usize = greater_of(assignment_count, 1);
    AssignmentResourceLimits {
        max_pending_bytes: greater_of(
            limits.max_pending_bytes / count,
            defaults.max_pending_bytes,
        ),
        max_pending_records: greater_of(
            limits.max_pending_records / count,
            defaults.max_pending_records,
        ),
        min_pending_bytes_floor: 0,
    }
}

/// The ceilings of an assignment's ingress: its budget, with room for one line.
pub fn raw_lines_config_from_budget(
    budget: &AssignmentResourceLimits,
    defaults: &RawLinesLimits,
) -> (limits: RawLinesLimits)
    ensures
        limits.max_line_bytes == defaults.max_line_bytes,
        limits.max_pending_records == budget.max_pending_records,
        limits.max_pending_bytes == greater(
            budget.max_pending_bytes as int,
            defaults.max_line_bytes as int,
        ),
{
    RawLinesLimits {
        max_line_bytes: defaults.max_line_bytes,
        max_pending_records: budget.max_pending_records,
        max_pending_bytes: greater_of(budget.max_pending_bytes, defaults.max_line_bytes),
    }
}

/// The authority key of an assignment.
pub fn authority_key(config: &ScriptureConfig, assignment: &AssignmentConfig) -> (key: Result<
    AuthorityKey,
    ConfigError,
>)
    ensures
        match key {
            Ok(key) => config.assignment_runtime_problem(assignment@) is None && key@.journal
                == encode_utf8(assignment@.canon) && key@.verse == encode_utf8(assignment@.verse),
            Err(error) => config.assignment_runtime_problem(assignment@) == Some(error@),
        },
{
    match config.assignment_runtime_config(assignment) {
        Ok(runtime) => Ok(
            AuthorityKey {
                journal_id: JournalId::from_bytes(runtime.journal_id),
                verse_id: VerseId::from_bytes(runtime.verse_id),
            },
        ),
        Err(error) => Err(error),
    }
}

// Activation.

/// What an assignment attempts when its Scribe starts.
#[derive(Debug, Clone, Copy, PartialEq, Eq, Structural)]
pub enum AssignmentAction {
    /// Nothing: it stays a dormant candidate.
    Standby,
    /// Empty to Serving.
    Bootstrap { term: u64 },
    /// Expected to Serving.
    Promote { term: u64 },
}

/// What an assignment attempts: the promoted one its promotion, every other by its
/// posture alone.
pub open spec fn action_of(
    assignment: AssignmentView,
    target: Option<(Seq<char>, u64)>,
    initial_term: u64,
) -> AssignmentAction {
    if target is Some && assignment.id == (target->0).0 {
        AssignmentAction::Promote { term: (target->0).1 }
    } else {
        match assignment.posture {
            AssignmentPosture::Standby => AssignmentAction::Standby,
            AssignmentPosture::BootstrapIfEmpty => AssignmentAction::Bootstrap {
                term: if target is Some {
                    1
                } else {
                    initial_term
                },
            },
        }
    }
}

/// A target by its view.
pub open spec fn target_view(target: Option<(&str, u64)>) -> Option<(Seq<char>, u64)> {
    match target {
        Some((id, term)) => Some((id@, term)),
        None => None,
    }
}

/// Whether an assignment has the id.
pub open spec fn has_assignment(assignments: Seq<AssignmentView>, id: Seq<char>) -> bool {
    exists|i: int| 0 <= i < assignments.len() && (#[trigger] assignments[i]).id == id
}

/// What is said of a target that no assignment is.
pub open spec fn target_missing(id: Seq<char>) -> Seq<char> {
    concat_of(
        seq!["promote --assignment "@, quoted(id), " not found in scribe.assignments"@],
    )
}

/// What each assignment attempts, in the order of the assignments. Without a target all
/// go by posture; with one, it alone is promoted and the others stay what they are.
pub fn activation_plan(
    assignments: &Vec<AssignmentConfig>,
    target: Option<(&str, u64)>,
    initial_term: u64,
) -> (plan: Result<Vec<AssignmentAction>, String>)
    ensures
        match plan {
            Ok(actions) => {
                &&& target matches Some((id, _)) ==> has_assignment(
                    assignments_view(assignments@),
                    id@,
                )
                &&& actions@.len() == assignments@.len()
                &&& forall|i: int|
                    0 <= i < actions@.len() ==> #[trigger] actions@[i] == action_of(
                        assignments@[i]@,
                        target_view(target),
                        initial_term,
                    )
            },
            Err(message) => {
                &&& target is Some
                &&& !has_assignment(assignments_view(assignments@), (target->0).0@)
                &&& message@ == target_missing((target->0).0@)
            },
        },
{
    let mut actions: Vec<AssignmentAction> = Vec::new();
    let mut found = false;
    let mut at: usize = 0;
    while at < assignments.len()
        invariant
            at <= assignments@.len(),
            actions@.len() == at,
            forall|i: int|
                0 <= i < at ==> #[trigger] actions@[i] == action_of(
                    assignments@[i]@,
                    target_view(target),
                    initial_term,
                ),
            found == (target is Some && exists|i: int|
                0 <= i < at && (#[trigger] assignments@[i])@.id == (target->0).0@),
        decreases assignments@.len() - at,
    {
        let assignment = &assignments[at];
        let by_posture = match assignment.posture {
            AssignmentPosture::Standby => AssignmentAction::Standby,
            AssignmentPosture::BootstrapIfEmpty => AssignmentAction::Bootstrap {
                term: if target.is_some() {
                    1
                } else {
                    initial_term
                },
            },
        };
        let action = match target {
            Some((id, term)) => if same_text(assignment.id.as_str(), id) {
                found = true;
                assert(assignments@[at as int]@.id == id@);
                AssignmentAction::Promote { term }
            } else {
                by_posture
            },
            None => by_posture,
        };
        actions.push(action);
        at += 1;
    }
    proof {
        let view = assignments_view(assignments@);
        if target is Some {
            let id = (target->0).0@;
            if found {
                let i = choose|i: int|
                    0 <= i < assignments@.len() && (#[trigger] assignments@[i])@.id == id;
                assert(view[i].id == id);
            }
            if has_assignment(view, id) {
                let i = choose|i: int| 0 <= i < view.len() && (#[trigger] view[i]).id == id;
                assert(assignments@[i]@.id == id);
            }
        }
    }
    if let Some((id, _)) = target {
        if !found {
            let rendered = quote(id);
            let parts = [
                "promote --assignment ",
                rendered.as_str(),
                " not found in scribe.assignments",
            ];
            assert(texts_view(parts@) =~= seq![
                "promote --assignment "@,
                quoted(id@),
                " not found in scribe.assignments"@,
            ]);
            return Err(concat(parts.as_slice()));
        }
    }
    Ok(actions)
}

/// Whether an assignment must hold its ingress before anything is attempted: all that
/// attempt to serve.
pub fn binds_ingress(action: &AssignmentAction) -> (binds: bool)
    ensures
        binds == (*action !is Standby),
{
    match action {
        AssignmentAction::Standby => false,
        _ => true,
    }
}

/// What is said of an ingress that cannot be bound.
pub fn bind_failure(assignment: &AssignmentConfig, error: &str) -> (message: String)
    ensures
        message@ == concat_of(
            seq![
                "assignment id="@,
                assignment.id@,
                " cannot bind ingress "@,
                assignment.ingress.bind@,
                ": "@,
                error@,
            ],
        ),
{
    let parts = [
        "assignment id=",
        assignment.id.as_str(),
        " cannot bind ingress ",
        assignment.ingress.bind.as_str(),
        ": ",
        error,
    ];
    assert(texts_view(parts@) =~= seq![
        "assignment id="@,
        assignment.id@,
        " cannot bind ingress "@,
        assignment.ingress.bind@,
        ": "@,
        error@,
    ]);
    concat(parts.as_slice())
}

/// What an assignment has become.
#[derive(Debug, PartialEq, Eq)]
pub enum Activated {
    Standby,
    Serving,
    FailClosed(String),
}

/// The parts of an activation line that depend on what became of the assignment: the
/// disposition, and what follows the advertised route.
pub open spec fn activated_words(
    bind: Seq<char>,
    action: AssignmentAction,
    activated: Activated,
) -> (Seq<char>, Seq<char>) {
    match activated {
        Activated::Standby => (
            "Standby standby_kind=dormant-candidate"@,
            concat_of(seq![" bind="@, bind]),
        ),
        Activated::Serving => (
            "Serving"@,
            match action {
                AssignmentAction::Promote { term } => concat_of(
                    seq![
                        " bind="@,
                        bind,
                        " action=promote-and-serve candidate_term="@,
                        decimal(term as nat),
                    ],
                ),
                _ => concat_of(seq![" bind="@, bind, " action=bootstrap-and-serve"@]),
            },
        ),
        Activated::FailClosed(reason) => (
            "FailClosed"@,
            match action {
                AssignmentAction::Promote { .. } => concat_of(
                    seq![" action=promote-and-serve reason="@, reason@],
                ),
                _ => concat_of(seq![" reason="@, reason@]),
            },
        ),
    }
}

/// The line that reports an activation.
pub open spec fn activation_words(
    assignment: AssignmentView,
    store_root: Seq<char>,
    action: AssignmentAction,
    activated: Activated,
) -> Seq<char> {
    let (disposition, tail) = activated_words(assignment.bind, action, activated);
    concat_of(
        seq![
            "scripture: assignment id="@,
            assignment.id,
            " disposition="@,
            disposition,
            " canon="@,
            assignment.canon,
            " verse="@,
            assignment.verse,
            " store_root="@,
            store_root,
            " advertise="@,
            assignment.advertise,
            tail,
        ],
    )
}

fn activated_parts(bind: &str, action: &AssignmentAction, activated: &Activated) -> (words: (
    &'static str,
    String,
))
    ensures
        (words.0@, words.1@) == activated_words(bind@, *action, *activated),
{
    match activated {
        Activated::Standby => {
            let parts = [" bind=", bind];
            assert(texts_view(parts@) =~= seq![" bind="@, bind@]);
            ("Standby standby_kind=dormant-candidate", concat(parts.as_slice()))
        },
        Activated::Serving => match action {
            AssignmentAction::Promote { term } => {
                let number = decimal_text(*term);
                let parts = [
                    " bind=",
                    bind,
                    " action=promote-and-serve candidate_term=",
                    number.as_str(),
                ];
                assert(texts_view(parts@) =~= seq![
                    " bind="@,
                    bind@,
                    " action=promote-and-serve candidate_term="@,
                    decimal(*term as nat),
                ]);
                ("Serving", concat(parts.as_slice()))
            },
            _ => {
                let parts = [" bind=", bind, " action=bootstrap-and-serve"];
                assert(texts_view(parts@) =~= seq![
                    " bind="@,
                    bind@,
                    " action=bootstrap-and-serve"@,
                ]);
                ("Serving", concat(parts.as_slice()))
            },
        },
        Activated::FailClosed(reason) => match action {
            AssignmentAction::Promote { .. } => {
                let parts = [" action=promote-and-serve reason=", reason.as_str()];
                assert(texts_view(parts@) =~= seq![
                    " action=promote-and-serve reason="@,
                    reason@,
                ]);
                ("FailClosed", concat(parts.as_slice()))
            },
            _ => {
                let parts = [" reason=", reason.as_str()];
                assert(texts_view(parts@) =~= seq![" reason="@, reason@]);
                ("FailClosed", concat(parts.as_slice()))
            },
        },
    }
}

/// The line that reports an activation.
pub fn activation_line(
    assignment: &AssignmentConfig,
    store_root: &str,
    action: &AssignmentAction,
    activated: &Activated,
) -> (line: String)
    ensures
        line@ == activation_words(assignment@, store_root@, *action, *activated),
{
    let (disposition, tail) = activated_parts(assignment.ingress.bind.as_str(), action, activated);
    let parts = [
        "scripture: assignment id=",
        assignment.id.as_str(),
        " disposition=",
        disposition,
        " canon=",
        assignment.canon.as_str(),
        " verse=",
        assignment.verse.as_str(),
        " store_root=",
        store_root,
        " advertise=",
        assignment.advertise.as_str(),
        tail.as_str(),
    ];
    assert(texts_view(parts@) =~= seq![
        "scripture: assignment id="@,
        assignment.id@,
        " disposition="@,
        disposition@,
        " canon="@,
        assignment.canon@,
        " verse="@,
        assignment.verse@,
        " store_root="@,
        store_root@,
        " advertise="@,
        assignment.advertise@,
        tail@,
    ]);
    concat(parts.as_slice())
}

// Ingress.

/// What is known of an activated assignment when its ingress is to open.
#[derive(Debug, Clone, Copy)]
pub struct IngressEvidence<'a> {
    pub admits_committed_acks: bool,
    /// Its disposition in words.
    pub disposition: &'a str,
    pub is_standby: bool,
    pub has_session: bool,
    /// Whether its listener was bound before authority was attempted.
    pub is_bound: bool,
}

/// What becomes of an assignment's ingress.
#[derive(Debug, PartialEq, Eq)]
pub enum Ingress {
    /// It stays shut; this is said.
    Skip(String),
    /// It is served on the listener that was bound before.
    Serve,
}

/// What is said of an ingress that stays shut.
pub open spec fn skip_words(
    id: Seq<char>,
    disposition: Seq<char>,
    is_standby: bool,
) -> Seq<char> {
    concat_of(
        seq![
            "scripture: assignment id="@,
            id,
            " skips producer ingress disposition="@,
            disposition,
            " standby_kind="@,
            if is_standby {
                "dormant-candidate"@
            } else {
                "n/a"@
            },
        ],
    )
}

/// Whether an ingress decision is what the evidence comes to; without evidence, the
/// assignment was never activated.
pub open spec fn is_ingress_of(
    decision: Result<Ingress, String>,
    id: Seq<char>,
    evidence: Option<IngressEvidence<'_>>,
) -> bool {
    match evidence {
        None => decision matches Err(message) && message@ == concat_of(
            seq!["missing activated assignment "@, id],
        ),
        Some(evidence) => if !evidence.admits_committed_acks {
            decision matches Ok(Ingress::Skip(line)) && line@ == skip_words(
                id,
                evidence.disposition@,
                evidence.is_standby,
            )
        } else if !evidence.has_session {
            decision matches Err(message) && message@ == concat_of(
                seq!["serving assignment "@, id, " missing session"@],
            )
        } else if !evidence.is_bound {
            decision matches Err(message) && message@ == concat_of(
                seq![
                    "serving assignment "@,
                    id,
                    " missing pre-bound ingress (bind must precede authority CAS)"@,
                ],
            )
        } else {
            decision == Ok::<_, String>(Ingress::Serve)
        },
    }
}

/// What becomes of an assignment's ingress: it opens only on a listener that was bound
/// before authority was attempted, and only where committed ACKs are admitted.
pub fn ingress_decision(id: &str, evidence: Option<IngressEvidence<'_>>) -> (decision: Result<
    Ingress,
    String,
>)
    ensures
        is_ingress_of(decision, id@, evidence),
{
    let evidence = match evidence {
        Some(evidence) => evidence,
        None => {
            let parts = ["missing activated assignment ", id];
            assert(texts_view(parts@) =~= seq!["missing activated assignment "@, id@]);
            return Err(concat(parts.as_slice()));
        },
    };
    if !evidence.admits_committed_acks {
        let kind = if evidence.is_standby {
            "dormant-candidate"
        } else {
            "n/a"
        };
        let parts = [
            "scripture: assignment id=",
            id,
            " skips producer ingress disposition=",
            evidence.disposition,
            " standby_kind=",
            kind,
        ];
        assert(texts_view(parts@) =~= seq![
            "scripture: assignment id="@,
            id@,
            " skips producer ingress disposition="@,
            evidence.disposition@,
            " standby_kind="@,
            kind@,
        ]);
        return Ok(Ingress::Skip(concat(parts.as_slice())));
    }
    if !evidence.has_session {
        let parts = ["serving assignment ", id, " missing session"];
        assert(texts_view(parts@) =~= seq!["serving assignment "@, id@, " missing session"@]);
        return Err(concat(parts.as_slice()));
    }
    if !evidence.is_bound {
        let parts = [
            "serving assignment ",
            id,
            " missing pre-bound ingress (bind must precede authority CAS)",
        ];
        assert(texts_view(parts@) =~= seq![
            "serving assignment "@,
            id@,
            " missing pre-bound ingress (bind must precede authority CAS)"@,
        ]);
        return Err(concat(parts.as_slice()));
    }
    Ok(Ingress::Serve)
}

// Heartbeats.

/// What the root shows of an assignment now.
#[derive(Debug, Clone, Copy)]
pub enum AssignmentEvidence<'a> {
    /// The assignment was never activated.
    Unknown,
    /// It has no session; this is its disposition.
    Dormant(&'a str),
    /// It has a session, and is the effective writer or not.
    Session { effective_writer: bool },
}

/// The disposition that is published, and whether committed ACKs are.
pub open spec fn published(evidence: AssignmentEvidence<'_>) -> (Seq<char>, bool) {
    match evidence {
        AssignmentEvidence::Unknown => ("Unknown"@, false),
        AssignmentEvidence::Dormant(disposition) => (disposition@, false),
        AssignmentEvidence::Session { effective_writer } => (
            if effective_writer {
                "Serving"@
            } else {
                "NotEffectiveWriter"@
            },
            effective_writer,
        ),
    }
}

/// The posture in words.
pub open spec fn posture_words(posture: AssignmentPosture) -> Seq<char> {
    match posture {
        AssignmentPosture::BootstrapIfEmpty => "bootstrap-if-empty"@,
        AssignmentPosture::Standby => "standby"@,
    }
}

/// The directory entry of an assignment. It goes by what the root shows now, never by
/// what the assignment started as: a deposed node must not be advertised.
pub fn heartbeat_entry(assignment: &AssignmentConfig, evidence: AssignmentEvidence<'_>) -> (entry:
    DirectoryAssignment)
    ensures
        entry.canon@ == assignment@.canon,
        entry.verse@ == assignment@.verse,
        entry.advertise@ == assignment@.advertise,
        entry.posture@ == posture_words(assignment@.posture),
        entry.disposition@ == published(evidence).0,
        entry.admits_committed_acks == published(evidence).1,
{
    let (disposition, admits) = match evidence {
        AssignmentEvidence::Unknown => ("Unknown", false),
        AssignmentEvidence::Dormant(disposition) => (disposition, false),
        AssignmentEvidence::Session { effective_writer } => (
            if effective_writer {
                "Serving"
            } else {
                "NotEffectiveWriter"
            },
            effective_writer,
        ),
    };
    let posture = match assignment.posture {
        AssignmentPosture::BootstrapIfEmpty => "bootstrap-if-empty",
        AssignmentPosture::Standby => "standby",
    };
    DirectoryAssignment {
        canon: assignment.canon.clone(),
        verse: assignment.verse.clone(),
        advertise: assignment.advertise.clone(),
        posture: posture.to_owned(),
        disposition: disposition.to_owned(),
        admits_committed_acks: admits,
    }
}

/// The directory entry of a single-assignment node, where it has a Verse.
pub fn single_heartbeat_entry(config: &ScriptureConfig, ready: bool) -> (entry: Option<
    DirectoryAssignment,
>)
    ensures
        match config.verse {
            None => entry is None,
            Some(verse) => entry matches Some(entry) && entry.canon@ == verse.journal_id@
                && entry.verse@ == verse.verse_id@ && entry.advertise@ == config.node.advertise@
                && entry.posture@ == "legacy-serve"@ && entry.disposition@ == (if ready {
                "Serving"@
            } else {
                "NotReady"@
            }) && entry.admits_committed_acks == ready,
        },
{
    match &config.verse {
        None => None,
        Some(verse) => Some(
            DirectoryAssignment {
                canon: verse.journal_id.clone(),
                verse: verse.verse_id.clone(),
                advertise: config.node.advertise.clone(),
                posture: "legacy-serve".to_owned(),
                disposition: if ready {
                    "Serving".to_owned()
                } else {
                    "NotReady".to_owned()
                },
                admits_committed_acks: ready,
            },
        ),
    }
}

/// What is said of a promoted assignment, if there is one.
pub open spec fn target_words(target: Option<(Seq<char>, u64)>) -> Seq<char> {
    match target {
        Some((id, term)) => concat_of(
            seq![" target_assignment="@, id, " candidate_term="@, decimal(term as nat)],
        ),
        None => Seq::empty(),
    }
}

/// The line that reports a started multi-assignment Scribe; `target` is the promoted
/// assignment with its term.
pub open spec fn started_words(
    config: ScriptureConfig,
    advertise: Seq<char>,
    backend: Seq<char>,
    target: Option<(Seq<char>, u64)>,
    assignments: nat,
) -> Seq<char> {
    concat_of(
        seq![
            "scripture: ha_mode=serving-authority action="@,
            if target is Some {
                "scribe-targeted-promote"@
            } else {
                "scribe-multi-assignment"@
            },
            " owner="@,
            config.node.owner_id@,
            " advertise="@,
            advertise,
            " backend="@,
            backend,
            target_words(target),
            " assignments="@,
            decimal(assignments),
        ],
    )
}

/// The line that reports a started multi-assignment Scribe.
pub fn started_line(
    config: &ScriptureConfig,
    advertise: &str,
    backend: &str,
    target: Option<(&str, u64)>,
    assignments: usize,
) -> (line: String)
    ensures
        line@ == started_words(
            *config,
            advertise@,
            backend@,
            target_view(target),
            assignments as nat,
        ),
{
    let action = if target.is_some() {
        "scribe-targeted-promote"
    } else {
        "scribe-multi-assignment"
    };
    let named = match target {
        Some((id, term)) => {
            let number = decimal_text(term);
            let parts = [" target_assignment=", id, " candidate_term=", number.as_str()];
            assert(texts_view(parts@) =~= seq![
                " target_assignment="@,
                id@,
                " candidate_term="@,
                decimal(term as nat),
            ]);
            concat(parts.as_slice())
        },
        None => {
            let none = String::new();
            assert(none@ =~= Seq::<char>::empty());
            none
        },
    };
    assert(named@ == target_words(target_view(target)));
    let count = decimal_text(assignments as u64);
    let parts = [
        "scripture: ha_mode=serving-authority action=",
        action,
        " owner=",
        config.node.owner_id.as_str(),
        " advertise=",
        advertise,
        " backend=",
        backend,
        named.as_str(),
        " assignments=",
        count.as_str(),
    ];
    assert(texts_view(parts@) =~= seq![
        "scripture: ha_mode=serving-authority action="@,
        action@,
        " owner="@,
        config.node.owner_id@,
        " advertise="@,
        advertise@,
        " backend="@,
        backend@,
        named@,
        " assignments="@,
        decimal(assignments as nat),
    ]);
    concat(parts.as_slice())
}

// Laws.

/// A targeted promotion promotes the target and nothing else, and changes nothing for a
/// standby sibling.
pub proof fn law_only_the_target_is_promoted(
    assignment: AssignmentView,
    target: (Seq<char>, u64),
    initial_term: u64,
)
    ensures
        action_of(assignment, Some(target), initial_term) is Promote <==> assignment.id
            == target.0,
        assignment.id != target.0 && assignment.posture == AssignmentPosture::Standby ==> action_of(
            assignment,
            Some(target),
            initial_term,
        ) is Standby,
{
}

/// Without a target nothing is promoted, and a standby assignment attempts nothing.
pub proof fn law_standby_attempts_nothing(assignment: AssignmentView, initial_term: u64)
    ensures
        action_of(assignment, None, initial_term) !is Promote,
        action_of(assignment, None, initial_term) is Standby <==> assignment.posture
            == AssignmentPosture::Standby,
{
}

/// The shares of all assignments together never exceed the node's ceiling, unless the
/// defaults lift them.
pub proof fn law_shares_stay_under_the_ceiling(ceiling: int, count: int, floor: int)
    requires
        0 <= ceiling,
        1 <= count,
        floor <= ceiling / count,
    ensures
        count * greater(ceiling / count, floor) <= ceiling,
{
    assert(count * (ceiling / count) <= ceiling) by (nonlinear_arith)
        requires
            0 <= ceiling,
            1 <= count,
    ;
}

/// An assignment is advertised as taking committed ACKs only while the root names it the
/// effective writer.
pub proof fn law_only_effective_writers_are_advertised(evidence: AssignmentEvidence<'_>)
    ensures
        published(evidence).1 ==> evidence == (AssignmentEvidence::Session {
            effective_writer: true,
        }),
{
}

/// No ingress opens without a listener that was bound before authority was attempted.
pub proof fn law_ingress_needs_a_bound_listener(
    decision: Result<Ingress, String>,
    id: Seq<char>,
    evidence: Option<IngressEvidence<'_>>,
)
    requires
        is_ingress_of(decision, id, evidence),
        decision is Ok && decision->Ok_0 is Serve,
    ensures
        evidence is Some && evidence->0.is_bound && evidence->0.has_session
            && evidence->0.admits_committed_acks,
{
}

/// Two activation lines that differ in one thing alone differ only behind its name.
pub proof fn law_activation_lines_name_what_they_show(
    assignment: AssignmentView,
    other: AssignmentView,
    store_root: Seq<char>,
    other_root: Seq<char>,
    action: AssignmentAction,
    activated: Activated,
)
    ensures
        differ_behind(
            activation_words(assignment, store_root, action, activated),
            activation_words(
                AssignmentView { id: other.id, ..assignment },
                store_root,
                action,
                activated,
            ),
            "scripture: assignment id="@,
            assignment.id,
            other.id,
        ),
        differ_behind(
            activation_words(assignment, store_root, action, activated),
            activation_words(
                AssignmentView { canon: other.canon, ..assignment },
                store_root,
                action,
                activated,
            ),
            " canon="@,
            assignment.canon,
            other.canon,
        ),
        differ_behind(
            activation_words(assignment, store_root, action, activated),
            activation_words(
                AssignmentView { verse: other.verse, ..assignment },
                store_root,
                action,
                activated,
            ),
            " verse="@,
            assignment.verse,
            other.verse,
        ),
        differ_behind(
            activation_words(assignment, store_root, action, activated),
            activation_words(assignment, other_root, action, activated),
            " store_root="@,
            store_root,
            other_root,
        ),
        differ_behind(
            activation_words(assignment, store_root, action, activated),
            activation_words(
                AssignmentView { advertise: other.advertise, ..assignment },
                store_root,
                action,
                activated,
            ),
            " advertise="@,
            assignment.advertise,
            other.advertise,
        ),
{
    let (disposition, tail) = activated_words(assignment.bind, action, activated);
    let parts = seq![
        "scripture: assignment id="@,
        assignment.id,
        " disposition="@,
        disposition,
        " canon="@,
        assignment.canon,
        " verse="@,
        assignment.verse,
        " store_root="@,
        store_root,
        " advertise="@,
        assignment.advertise,
        tail,
    ];
    lemma_differ_in_parts(parts, 1, other.id);
    assert(parts.update(1, other.id) =~= seq![
        "scripture: assignment id="@,
        other.id,
        " disposition="@,
        disposition,
        " canon="@,
        assignment.canon,
        " verse="@,
        assignment.verse,
        " store_root="@,
        store_root,
        " advertise="@,
        assignment.advertise,
        tail,
    ]);
    lemma_differ_in_parts(parts, 5, other.canon);
    assert(parts.update(5, other.canon) =~= seq![
        "scripture: assignment id="@,
        assignment.id,
        " disposition="@,
        disposition,
        " canon="@,
        other.canon,
        " verse="@,
        assignment.verse,
        " store_root="@,
        store_root,
        " advertise="@,
        assignment.advertise,
        tail,
    ]);
    lemma_differ_in_parts(parts, 7, other.verse);
    assert(parts.update(7, other.verse) =~= seq![
        "scripture: assignment id="@,
        assignment.id,
        " disposition="@,
        disposition,
        " canon="@,
        assignment.canon,
        " verse="@,
        other.verse,
        " store_root="@,
        store_root,
        " advertise="@,
        assignment.advertise,
        tail,
    ]);
    lemma_differ_in_parts(parts, 9, other_root);
    assert(parts.update(9, other_root) =~= seq![
        "scripture: assignment id="@,
        assignment.id,
        " disposition="@,
        disposition,
        " canon="@,
        assignment.canon,
        " verse="@,
        assignment.verse,
        " store_root="@,
        other_root,
        " advertise="@,
        assignment.advertise,
        tail,
    ]);
    lemma_differ_in_parts(parts, 11, other.advertise);
    assert(parts.update(11, other.advertise) =~= seq![
        "scripture: assignment id="@,
        assignment.id,
        " disposition="@,
        disposition,
        " canon="@,
        assignment.canon,
        " verse="@,
        assignment.verse,
        " store_root="@,
        store_root,
        " advertise="@,
        other.advertise,
        tail,
    ]);
}

/// A line says that the assignment serves, stands by or failed closed; one that failed gives its
/// reason, one that was promoted its term, and one that listens its address.
pub proof fn law_activations_say_what_became_of_them(
    bind: Seq<char>,
    other_bind: Seq<char>,
    action: AssignmentAction,
    reason: String,
    other: String,
    term: u64,
    other_term: u64,
)
    ensures
        activated_words(bind, action, Activated::Serving).0 == "Serving"@,
        activated_words(bind, action, Activated::FailClosed(reason)).0 == "FailClosed"@,
        activated_words(bind, action, Activated::Standby).0
            == "Standby standby_kind=dormant-candidate"@,
        activated_words(bind, action, Activated::Standby).1 == " bind="@ + bind,
        differ_behind(
            activated_words(
                bind,
                AssignmentAction::Promote { term },
                Activated::Serving,
            ).1,
            activated_words(
                bind,
                AssignmentAction::Promote { term: other_term },
                Activated::Serving,
            ).1,
            " action=promote-and-serve candidate_term="@,
            decimal(term as nat),
            decimal(other_term as nat),
        ),
        differ_behind(
            activated_words(bind, action, Activated::Serving).1,
            activated_words(other_bind, action, Activated::Serving).1,
            " bind="@,
            bind,
            other_bind,
        ),
        differ_behind(
            activated_words(
                bind,
                AssignmentAction::Promote { term },
                Activated::FailClosed(reason),
            ).1,
            activated_words(bind, AssignmentAction::Promote { term }, Activated::FailClosed(other)).1,
            " action=promote-and-serve reason="@,
            reason@,
            other@,
        ),
        differ_behind(
            activated_words(
                bind,
                AssignmentAction::Bootstrap { term },
                Activated::FailClosed(reason),
            ).1,
            activated_words(
                bind,
                AssignmentAction::Bootstrap { term },
                Activated::FailClosed(other),
            ).1,
            " reason="@,
            reason@,
            other@,
        ),
{
    let standby = seq![" bind="@, bind];
    assert(standby.drop_last() =~= seq![" bind="@]);
    assert(seq![" bind="@].drop_last() =~= Seq::<Seq<char>>::empty());
    reveal_with_fuel(concat_of, 3);
    assert(concat_of(standby) =~= " bind="@ + bind);
    let label = " action=promote-and-serve candidate_term="@;
    let promoted = seq![" bind="@, bind, label, decimal(term as nat)];
    lemma_differ_in_parts(promoted, 3, decimal(other_term as nat));
    assert(promoted.update(3, decimal(other_term as nat)) =~= seq![
        " bind="@,
        bind,
        label,
        decimal(other_term as nat),
    ]);
    match action {
        AssignmentAction::Promote { term } => {
            let parts = seq![" bind="@, bind, label, decimal(term as nat)];
            lemma_differ_in_parts(parts, 1, other_bind);
            assert(parts.update(1, other_bind) =~= seq![
                " bind="@,
                other_bind,
                label,
                decimal(term as nat),
            ]);
        },
        _ => {
            let parts = seq![" bind="@, bind, " action=bootstrap-and-serve"@];
            lemma_differ_in_parts(parts, 1, other_bind);
            assert(parts.update(1, other_bind) =~= seq![
                " bind="@,
                other_bind,
                " action=bootstrap-and-serve"@,
            ]);
        },
    }
    let parts = seq![" action=promote-and-serve reason="@, reason@];
    lemma_differ_in_parts(parts, 1, other@);
    assert(parts.update(1, other@) =~= seq![" action=promote-and-serve reason="@, other@]);
    let parts = seq![" reason="@, reason@];
    lemma_differ_in_parts(parts, 1, other@);
    assert(parts.update(1, other@) =~= seq![" reason="@, other@]);
}

/// What is said of a shut ingress names the assignment, its disposition and whether it is a dormant
/// candidate.
pub proof fn law_skipped_ingress_says_why(
    id: Seq<char>,
    disposition: Seq<char>,
    other: Seq<char>,
)
    ensures
        differ_behind(
            skip_words(id, disposition, true),
            skip_words(other, disposition, true),
            "scripture: assignment id="@,
            id,
            other,
        ),
        differ_behind(
            skip_words(id, disposition, true),
            skip_words(id, other, true),
            " skips producer ingress disposition="@,
            disposition,
            other,
        ),
        differ_behind(
            skip_words(id, disposition, true),
            skip_words(id, disposition, false),
            " standby_kind="@,
            "dormant-candidate"@,
            "n/a"@,
        ),
{
    let parts = seq![
        "scripture: assignment id="@,
        id,
        " skips producer ingress disposition="@,
        disposition,
        " standby_kind="@,
        "dormant-candidate"@,
    ];
    lemma_differ_in_parts(parts, 1, other);
    assert(parts.update(1, other) =~= seq![
        "scripture: assignment id="@,
        other,
        " skips producer ingress disposition="@,
        disposition,
        " standby_kind="@,
        "dormant-candidate"@,
    ]);
    lemma_differ_in_parts(parts, 3, other);
    assert(parts.update(3, other) =~= seq![
        "scripture: assignment id="@,
        id,
        " skips producer ingress disposition="@,
        other,
        " standby_kind="@,
        "dormant-candidate"@,
    ]);
    lemma_differ_in_parts(parts, 5, "n/a"@);
    assert(parts.update(5, "n/a"@) =~= seq![
        "scripture: assignment id="@,
        id,
        " skips producer ingress disposition="@,
        disposition,
        " standby_kind="@,
        "n/a"@,
    ]);
}

/// Two lines of started Scribes that differ in one thing alone differ only behind its name.
pub proof fn law_started_lines_name_what_they_show(
    config: ScriptureConfig,
    advertise: Seq<char>,
    backend: Seq<char>,
    target: Option<(Seq<char>, u64)>,
    count: nat,
    other: Seq<char>,
    other_count: nat,
)
    ensures
        differ_behind(
            started_words(config, advertise, backend, target, count),
            started_words(config, other, backend, target, count),
            " advertise="@,
            advertise,
            other,
        ),
        differ_behind(
            started_words(config, advertise, backend, target, count),
            started_words(config, advertise, other, target, count),
            " backend="@,
            backend,
            other,
        ),
        differ_behind(
            started_words(config, advertise, backend, target, count),
            started_words(config, advertise, backend, target, other_count),
            " assignments="@,
            decimal(count),
            decimal(other_count),
        ),
{
    let action = if target is Some {
        "scribe-targeted-promote"@
    } else {
        "scribe-multi-assignment"@
    };
    let parts = seq![
        "scripture: ha_mode=serving-authority action="@,
        action,
        " owner="@,
        config.node.owner_id@,
        " advertise="@,
        advertise,
        " backend="@,
        backend,
        target_words(target),
        " assignments="@,
        decimal(count),
    ];
    lemma_differ_in_parts(parts, 5, other);
    assert(parts.update(5, other) =~= seq![
        "scripture: ha_mode=serving-authority action="@,
        action,
        " owner="@,
        config.node.owner_id@,
        " advertise="@,
        other,
        " backend="@,
        backend,
        target_words(target),
        " assignments="@,
        decimal(count),
    ]);
    lemma_differ_in_parts(parts, 7, other);
    assert(parts.update(7, other) =~= seq![
        "scripture: ha_mode=serving-authority action="@,
        action,
        " owner="@,
        config.node.owner_id@,
        " advertise="@,
        advertise,
        " backend="@,
        other,
        target_words(target),
        " assignments="@,
        decimal(count),
    ]);
    lemma_differ_in_parts(parts, 10, decimal(other_count));
    assert(parts.update(10, decimal(other_count)) =~= seq![
        "scripture: ha_mode=serving-authority action="@,
        action,
        " owner="@,
        config.node.owner_id@,
        " advertise="@,
        advertise,
        " backend="@,
        backend,
        target_words(target),
        " assignments="@,
        decimal(other_count),
    ]);
}

/// What is said of a target names it and its term; without a target nothing is said.
pub proof fn law_targets_are_named_with_their_term(
    id: Seq<char>,
    term: u64,
    other: Seq<char>,
    other_term: u64,
)
    ensures
        target_words(None).len() == 0,
        differ_behind(
            target_words(Some((id, term))),
            target_words(Some((other, term))),
            " target_assignment="@,
            id,
            other,
        ),
        differ_behind(
            target_words(Some((id, term))),
            target_words(Some((id, other_term))),
            " candidate_term="@,
            decimal(term as nat),
            decimal(other_term as nat),
        ),
{
    let parts = seq![
        " target_assignment="@,
        id,
        " candidate_term="@,
        decimal(term as nat),
    ];
    lemma_differ_in_parts(parts, 1, other);
    assert(parts.update(1, other) =~= seq![
        " target_assignment="@,
        other,
        " candidate_term="@,
        decimal(term as nat),
    ]);
    lemma_differ_in_parts(parts, 3, decimal(other_term as nat));
    assert(parts.update(3, decimal(other_term as nat)) =~= seq![
        " target_assignment="@,
        id,
        " candidate_term="@,
        decimal(other_term as nat),
    ]);
}

/// The target is promoted at its own term. Every other assignment that bootstraps does so at the
/// first term beside a target, and at the given one without.
pub proof fn law_terms_go_by_the_target(
    assignment: AssignmentView,
    target: (Seq<char>, u64),
    initial_term: u64,
)
    ensures
        assignment.id == target.0 ==> action_of(assignment, Some(target), initial_term) == (
        AssignmentAction::Promote { term: target.1 }),
        assignment.id != target.0 && assignment.posture == AssignmentPosture::BootstrapIfEmpty
            ==> action_of(assignment, Some(target), initial_term) == (AssignmentAction::Bootstrap {
            term: 1,
        }),
        assignment.posture == AssignmentPosture::BootstrapIfEmpty ==> action_of(
            assignment,
            None,
            initial_term,
        ) == (AssignmentAction::Bootstrap { term: initial_term }),
{
}

/// The greater of two is one of them, and neither is above it.
pub proof fn law_greater_is_the_maximum(left: int, right: int)
    ensures
        greater(left, right) == left || greater(left, right) == right,
        greater(left, right) >= left,
        greater(left, right) >= right,
{
}

/// What is published follows what the root shows: an effective writer serves and takes committed
/// ACKs, and nobody else takes them, whatever they are called.
pub proof fn law_heartbeats_follow_the_root(disposition: &str)
    ensures
        published(AssignmentEvidence::Session { effective_writer: true }) == ("Serving"@, true),
        published(AssignmentEvidence::Session { effective_writer: false }) == (
            "NotEffectiveWriter"@,
            false,
        ),
        published(AssignmentEvidence::Dormant(disposition)) == (disposition@, false),
        published(AssignmentEvidence::Unknown) == ("Unknown"@, false),
{
}

/// An ingress opens exactly where committed ACKs are admitted, there is a session and the
/// listener is bound; it stays shut, without an error, exactly where they are not admitted.
pub proof fn law_ingress_opens_where_it_may(
    decision: Result<Ingress, String>,
    id: Seq<char>,
    evidence: Option<IngressEvidence<'_>>,
)
    requires
        is_ingress_of(decision, id, evidence),
    ensures
        decision == Ok::<_, String>(Ingress::Serve) <==> evidence is Some
            && evidence->0.admits_committed_acks && evidence->0.has_session
            && evidence->0.is_bound,
        (decision is Ok && decision->Ok_0 is Skip) <==> evidence is Some
            && !evidence->0.admits_committed_acks,
{
}

/// The ceilings of a Scribe are those of its config.
pub proof fn law_ceilings_are_the_configured(
    config: ScriptureConfig,
    limits: Result<ScribeResourceLimits, String>,
)
    requires
        call_ensures(scribe_limits, (&config,), limits),
    ensures
        limits is Ok <==> config.scribe is Some,
        limits matches Ok(found) ==> {
            let configured = config.scribe->0.limits;
            &&& found.max_assignments == configured.max_assignments
            &&& found.max_pending_bytes == configured.max_pending_bytes
            &&& found.max_pending_records == configured.max_pending_records
            &&& found.max_concurrent_tasks == configured.max_concurrent_tasks
        },
{
}

/// An assignment has an equal share of the node's ceilings, and never less than the defaults;
/// its ingress has, besides, room for one line.
pub proof fn law_budgets_are_equal_shares(
    limits: ScribeResourceLimits,
    count: usize,
    defaults: RawLinesLimits,
    budget: AssignmentResourceLimits,
    ingress: RawLinesLimits,
)
    requires
        call_ensures(assignment_budget_for_node, (&limits, count, &defaults), budget),
        call_ensures(raw_lines_config_from_budget, (&budget, &defaults), ingress),
        count >= 1,
    ensures
        budget.max_pending_bytes >= defaults.max_pending_bytes,
        budget.max_pending_records >= defaults.max_pending_records,
        budget.max_pending_bytes > defaults.max_pending_bytes ==> count * budget.max_pending_bytes
            <= limits.max_pending_bytes < count * (budget.max_pending_bytes + 1),
        budget.max_pending_records > defaults.max_pending_records ==> count
            * budget.max_pending_records <= limits.max_pending_records < count * (
        budget.max_pending_records + 1),
        ingress.max_line_bytes == defaults.max_line_bytes,
        ingress.max_pending_records == budget.max_pending_records,
        ingress.max_pending_bytes >= budget.max_pending_bytes,
        ingress.max_pending_bytes >= defaults.max_line_bytes,
        ingress.max_pending_bytes == budget.max_pending_bytes || ingress.max_pending_bytes
            == defaults.max_line_bytes,
{
    let bytes = limits.max_pending_bytes as int;
    let records = limits.max_pending_records as int;
    let all = count as int;
    assert(all * (bytes / all) <= bytes < all * (bytes / all + 1)) by (nonlinear_arith)
        requires
            all >= 1,
            bytes >= 0,
    ;
    assert(all * (records / all) <= records < all * (records / all + 1)) by (nonlinear_arith)
        requires
            all >= 1,
            records >= 0,
    ;
}

/// A plan has one action for each assignment, and is refused only for a target that none is.
pub proof fn law_plans_cover_the_assignments(
    assignments: Vec<AssignmentConfig>,
    target: Option<(&str, u64)>,
    initial_term: u64,
    plan: Result<Vec<AssignmentAction>, String>,
    at: int,
)
    requires
        call_ensures(activation_plan, (&assignments, target, initial_term), plan),
        0 <= at < assignments@.len(),
    ensures
        target is None ==> plan is Ok,
        target matches Some((id, _)) ==> (assignments@[at].id@ == id@ ==> plan is Ok),
        plan matches Ok(actions) ==> {
            let one = assignments@[at];
            let promoted = target is Some && one.id@ == (target->0).0@;
            &&& actions@.len() == assignments@.len()
            &&& promoted ==> actions@[at] == (AssignmentAction::Promote { term: (target->0).1 })
            &&& !promoted && one.posture == AssignmentPosture::Standby ==> actions@[at] is Standby
            &&& !promoted && one.posture == AssignmentPosture::BootstrapIfEmpty ==> actions@[at]
                is Bootstrap
        },
{
    let view = assignments_view(assignments@);
    assert(view[at] == assignments@[at]@);
}

/// Whoever attempts to serve binds first, and only they do.
pub proof fn law_whoever_serves_binds(action: AssignmentAction, binds: bool)
    requires
        call_ensures(binds_ingress, (&action,), binds),
    ensures
        binds <==> action is Bootstrap || action is Promote,
{
}

/// A heartbeat tells of its own assignment, and of committed ACKs only what the root shows.
pub proof fn law_heartbeats_tell_of_their_assignment(
    assignment: AssignmentConfig,
    evidence: AssignmentEvidence<'_>,
    entry: DirectoryAssignment,
)
    requires
        call_ensures(heartbeat_entry, (&assignment, evidence), entry),
    ensures
        entry.canon@ == assignment.canon@,
        entry.verse@ == assignment.verse@,
        entry.advertise@ == assignment.advertise@,
        entry.admits_committed_acks <==> evidence is Session && evidence->effective_writer,
        assignment.posture == AssignmentPosture::Standby ==> entry.posture@ == "standby"@,
        assignment.posture == AssignmentPosture::BootstrapIfEmpty ==> entry.posture@
            == "bootstrap-if-empty"@,
{
}

/// The heartbeat of a single-assignment node tells of its one Verse at the node's own route.
pub proof fn law_single_heartbeats_tell_of_the_verse(
    config: ScriptureConfig,
    ready: bool,
    entry: Option<DirectoryAssignment>,
)
    requires
        call_ensures(single_heartbeat_entry, (&config, ready), entry),
    ensures
        entry is Some <==> config.verse is Some,
        entry matches Some(found) ==> {
            &&& found.canon@ == config.verse->0.journal_id@
            &&& found.verse@ == config.verse->0.verse_id@
            &&& found.advertise@ == config.node.advertise@
            &&& found.admits_committed_acks == ready
            &&& found.disposition@ == (if ready {
                "Serving"@
            } else {
                "NotReady"@
            })
        },
{
}

/// An authority key is the Canon and then the Verse of its assignment.
pub proof fn law_keys_are_canon_and_verse(
    config: ScriptureConfig,
    assignment: AssignmentConfig,
    key: Result<AuthorityKey, ConfigError>,
)
    requires
        call_ensures(authority_key, (&config, &assignment), key),
    ensures
        key matches Ok(found) ==> found.journal_id@ == encode_utf8(assignment.canon@)
            && found.verse_id@ == encode_utf8(assignment.verse@),
{
}

/// An activation line is of its assignment, its root and what became of it; a started line of
/// its config and its target.
pub proof fn law_scribe_lines_over_whole_calls(
    assignment: AssignmentConfig,
    root: &str,
    other_root: &str,
    action: AssignmentAction,
    activated: Activated,
    line: String,
    changed: String,
    config: ScriptureConfig,
    advertise: &str,
    other: &str,
    backend: &str,
    count: usize,
    started: String,
    by_advertise: String,
    by_backend: String,
)
    requires
        call_ensures(activation_line, (&assignment, root, &action, &activated), line),
        call_ensures(activation_line, (&assignment, other_root, &action, &activated), changed),
        call_ensures(started_line, (&config, advertise, backend, None, count), started),
        call_ensures(started_line, (&config, other, backend, None, count), by_advertise),
        call_ensures(started_line, (&config, advertise, other, None, count), by_backend),
    ensures
        differ_behind(line@, changed@, " store_root="@, root@, other_root@),
        differ_behind(started@, by_advertise@, " advertise="@, advertise@, other@),
        differ_behind(started@, by_backend@, " backend="@, backend@, other@),
{
    law_activation_lines_name_what_they_show(
        assignment@,
        assignment@,
        root@,
        other_root@,
        action,
        activated,
    );
    law_started_lines_name_what_they_show(
        config,
        advertise@,
        backend@,
        None,
        count as nat,
        other@,
        0,
    );
}

/// An ingress opens, over a whole call, exactly where it may; a listener that cannot be bound is
/// named with its assignment, its address and the error.
pub proof fn law_ingress_over_whole_calls(
    id: &str,
    evidence: Option<IngressEvidence<'_>>,
    decision: Result<Ingress, String>,
    assignment: AssignmentConfig,
    error: &str,
    other: &str,
    message: String,
    changed: String,
)
    requires
        call_ensures(ingress_decision, (id, evidence), decision),
        call_ensures(bind_failure, (&assignment, error), message),
        call_ensures(bind_failure, (&assignment, other), changed),
    ensures
        decision == Ok::<_, String>(Ingress::Serve) <==> evidence is Some
            && evidence->0.admits_committed_acks && evidence->0.has_session
            && evidence->0.is_bound,
        differ_behind(message@, changed@, ": "@, error@, other@),
{
    let parts = seq![
        "assignment id="@,
        assignment.id@,
        " cannot bind ingress "@,
        assignment.ingress.bind@,
        ": "@,
        error@,
    ];
    lemma_differ_in_parts(parts, 5, other@);
    assert(parts.update(5, other@) =~= seq![
        "assignment id="@,
        assignment.id@,
        " cannot bind ingress "@,
        assignment.ingress.bind@,
        ": "@,
        other@,
    ]);
}

} // verus!
