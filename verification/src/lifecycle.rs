//! What a process does when it starts: which command is refused for which config, how a
//! node is started, and what is reported.
//!
//! Kubernetes must never grant write ownership from scheduling or restarts; what starts
//! here always goes by evidence in the store. Stores, sockets and runtimes are outside.
use crate::config::{
    assignment_field, assignments_view, endpoint_refusal, fixed_id_problem, is_fixed_id,
    law_valid_single_runs, lemma_valid_assignment, AssignmentView, ConfigError, ConfigProblem, HaMode, ScriptureConfig, TokenRefusals,
};
use crate::config_laws::{
    accepted, climbs, law_sound_identities_run, law_sound_verses_run, lemma_accepted,
    lemma_sixteen_ascii, sixteen_ascii,
};
use crate::text::{
    after_prefix, chars_of, concat, concat_of, decimal, decimal_text, is_blank, strip_prefix,
    texts_view, trimmed,
};
use crate::text_laws::{
    all_space, differ_behind, law_a_prefix_and_the_rest_are_the_text,
    law_trimming_takes_outer_whitespace, lemma_differ_in_parts,
};
use vstd::prelude::*;

verus! {

// Validation.

/// What keeps the first of some assignments from running, if anything does.
pub open spec fn assignments_fault(
    config: ScriptureConfig,
    refusals: TokenRefusals,
    assignments: Seq<AssignmentView>,
) -> Option<ConfigProblem>
    decreases assignments.len(),
{
    if assignments.len() == 0 {
        None
    } else {
        match assignment_fault(config, refusals, assignments[0]) {
            Some(problem) => Some(problem),
            None => assignments_fault(config, refusals, assignments.skip(1)),
        }
    }
}

/// What keeps an assignment from running, if anything does.
pub open spec fn assignment_fault(
    config: ScriptureConfig,
    refusals: TokenRefusals,
    assignment: AssignmentView,
) -> Option<ConfigProblem> {
    if config.assignment_runtime_problem(assignment) is Some {
        config.assignment_runtime_problem(assignment)
    } else {
        match endpoint_refusal(refusals.endpoints@, assignment.advertise) {
            Some(reason) => Some(
                ConfigProblem::Invalid(
                    assignment_field(assignment.id, "advertise"@) + ": "@ + reason,
                ),
            ),
            None => config.store_root_problem(assignment),
        }
    }
}

/// What keeps a node of the config from running, if anything does: its identity, route
/// and store, then each assignment or the single Verse.
pub open spec fn typed_fault(config: ScriptureConfig, refusals: TokenRefusals) -> Option<
    ConfigProblem,
> {
    if !is_fixed_id(config.node.owner_id@) {
        fixed_id_problem("node.owner_id"@, config.node.owner_id@)
    } else {
        match endpoint_refusal(refusals.endpoints@, config.node.advertise@) {
            Some(reason) => Some(ConfigProblem::Invalid("node.advertise: "@ + reason)),
            None => match refusals.backend {
                Some(reason) => Some(ConfigProblem::Invalid(reason@)),
                None => if config.multi() {
                    assignments_fault(
                        config,
                        refusals,
                        assignments_view(config.scribe->0.assignments@),
                    )
                } else {
                    config.verse_runtime_problem()
                },
            },
        }
    }
}

/// Whether a node of the config can run: every identity, route and root that serving or
/// bootstrapping would read.
pub fn check_typed(config: &ScriptureConfig, refusals: &TokenRefusals) -> (checked: Result<
    (),
    ConfigError,
>)
    ensures
        match checked {
            Ok(_) => typed_fault(*config, *refusals) is None,
            Err(error) => typed_fault(*config, *refusals) == Some(error@),
        },
{
    if let Err(error) = config.owner_id() {
        return Err(error);
    }
    if let Err(error) = config.advertise(refusals) {
        return Err(error);
    }
    if let Err(error) = config.backend(refusals) {
        return Err(error);
    }
    if !config.is_multi_assignment() {
        return match config.verse_runtime_config() {
            Ok(_) => Ok(()),
            Err(error) => Err(error),
        };
    }
    if let Some(scribe) = &config.scribe {
        let ghost view = assignments_view(scribe.assignments@);
        let mut at: usize = 0;
        assert(view.skip(0) =~= view);
        while at < scribe.assignments.len()
            invariant
                at <= scribe.assignments@.len(),
                config.scribe == Some(*scribe),
                view == assignments_view(scribe.assignments@),
                typed_fault(*config, *refusals) == assignments_fault(
                    *config,
                    *refusals,
                    view.skip(at as int),
                ),
            decreases scribe.assignments@.len() - at,
        {
            let assignment = &scribe.assignments[at];
            assert(view.skip(at as int)[0] == assignment@);
            assert(view.skip(at as int).skip(1) =~= view.skip(at + 1));
            if let Err(error) = config.assignment_runtime_config(assignment) {
                return Err(error);
            }
            if let Err(error) = config.assignment_advertise(assignment, refusals) {
                return Err(error);
            }
            if let Err(error) = config.assignment_store_root(assignment) {
                return Err(error);
            }
            at += 1;
        }
    }
    Ok(())
}

/// Whether the store's endpoint may be used: profiles of public clouds need HTTPS.
pub fn check_endpoint(needs_https: bool, label: &str, endpoint: &str) -> (checked: Result<
    (),
    String,
>)
    ensures
        match checked {
            Ok(_) => !needs_https || after_prefix(endpoint@, "http://"@) is None,
            Err(message) => needs_https && after_prefix(endpoint@, "http://"@) is Some && message@
                == concat_of(seq![label@, " requires an HTTPS endpoint"@]),
        },
{
    let chars = chars_of(endpoint);
    if needs_https && strip_prefix(chars.as_slice(), "http://").is_some() {
        let parts = [label, " requires an HTTPS endpoint"];
        assert(texts_view(parts@) =~= seq![label@, " requires an HTTPS endpoint"@]);
        return Err(concat(parts.as_slice()));
    }
    Ok(())
}

// Serving.

/// What is said to plain `serve` on a multi-assignment config.
pub const SERVE_MULTI_REFUSAL: &'static str =
    "refusing plain `scripture serve` for scribe.assignments — use `scripture bootstrap --config …` under ha.mode: serving-authority";

/// What is said to plain `serve` under Serving Authority.
pub const SERVE_AUTHORITY_REFUSAL: &'static str =
    "refusing plain `scripture serve` under ha.mode: serving-authority — Holylog open writables cannot cross process exit. Use long-lived `scripture bootstrap --config …` (Empty→Serving) or `scripture promote --config … --candidate-term N` (single-assignment) or `scripture promote --config … --assignment ID --candidate-term N` (multi). Authority is the VirtualLog root fence (no separate authority store).";

/// Why plain `serve` is refused for a config, if it is.
pub open spec fn serve_refusal(config: ScriptureConfig) -> Option<Seq<char>> {
    if config.multi() {
        Some(SERVE_MULTI_REFUSAL@)
    } else if config.ha.mode == HaMode::ServingAuthority {
        Some(SERVE_AUTHORITY_REFUSAL@)
    } else {
        None
    }
}

/// Whether plain `serve` may go on with a config.
pub fn check_serve(config: &ScriptureConfig) -> (checked: Result<(), String>)
    ensures
        match checked {
            Ok(_) => serve_refusal(*config) is None,
            Err(message) => serve_refusal(*config) == Some(message@),
        },
{
    if config.is_multi_assignment() {
        return Err(SERVE_MULTI_REFUSAL.to_owned());
    }
    if config.ha.mode == HaMode::ServingAuthority {
        return Err(SERVE_AUTHORITY_REFUSAL.to_owned());
    }
    Ok(())
}

/// What the membership root shows.
#[derive(Debug, PartialEq, Eq)]
pub enum RootObservation {
    /// Nothing was ever published.
    Uninitialized,
    /// There is a membership.
    Present,
    /// It could not be read.
    Failed(String),
}

/// How a node is started.
#[derive(Debug, Clone, Copy, PartialEq, Eq, Structural)]
pub enum StartAction {
    /// The store is empty: publish the first generation in this process.
    Bootstrap,
    /// Go by what is published.
    StartConfigured,
}

/// The generation that an empty store is bootstrapped with.
pub const FIRST_LOGLET_ID: &'static str = "scripture-gen-01";

/// How a node is started, given what the membership root shows.
pub fn start_action(observation: RootObservation) -> (action: Result<StartAction, String>)
    ensures
        action == (match observation {
            RootObservation::Uninitialized => Ok::<_, String>(StartAction::Bootstrap),
            RootObservation::Present => Ok(StartAction::StartConfigured),
            RootObservation::Failed(error) => Err(error),
        }),
{
    match observation {
        RootObservation::Uninitialized => Ok(StartAction::Bootstrap),
        RootObservation::Present => Ok(StartAction::StartConfigured),
        RootObservation::Failed(error) => Err(error),
    }
}

/// What a node has become after it was started.
#[derive(Debug, Clone, Copy, PartialEq, Eq, Structural)]
pub enum VerseOutcome {
    Serving,
    Standby,
    /// An open generation needs an accepted seal-and-replace decision.
    RecoveryRequired,
    ConflictNeedsInspect,
    StartFailed,
}

/// What is said of probes that nobody could reach.
pub const NO_PROBES: &'static str =
    "RecoveryRequired with no metrics.status_bind: refusing silent wait without probes";

/// What is said while only probes are up.
pub const RECOVERY_NOTICE: &'static str =
    "scripture: RecoveryRequired — probes only; open generation needs an accepted seal-and-replace decision (no ownership invented)";

/// Whether an opened spool may be served from.
pub fn check_spool(is_serving: bool) -> (checked: Result<(), String>)
    ensures
        match checked {
            Ok(_) => is_serving,
            Err(message) => !is_serving && message@
                == "spool opened non-serving after clean inspect (race/corruption); refusing serve"@,
        },
{
    if is_serving {
        Ok(())
    } else {
        Err(
            "spool opened non-serving after clean inspect (race/corruption); refusing serve".to_owned(),
        )
    }
}

/// How a node presents itself in what it reports.
#[derive(Debug, Clone, Copy)]
pub struct NodeWords<'a> {
    pub owner: &'a str,
    pub advertise: &'a str,
    pub bind: &'a str,
    pub backend: &'a str,
    pub prefix: &'a str,
}

/// A node in words.
pub open spec fn node_words(node: NodeWords<'_>) -> Seq<char> {
    concat_of(
        seq![
            " owner="@,
            node.owner@,
            " advertise="@,
            node.advertise@,
            " bind="@,
            node.bind@,
            " backend="@,
            node.backend@,
            " prefix="@,
            node.prefix@,
        ],
    )
}

fn node_text(node: &NodeWords<'_>) -> (text: String)
    ensures
        text@ == node_words(*node),
{
    let parts = [
        " owner=",
        node.owner,
        " advertise=",
        node.advertise,
        " bind=",
        node.bind,
        " backend=",
        node.backend,
        " prefix=",
        node.prefix,
    ];
    assert(texts_view(parts@) =~= seq![
        " owner="@,
        node.owner@,
        " advertise="@,
        node.advertise@,
        " bind="@,
        node.bind@,
        " backend="@,
        node.backend@,
        " prefix="@,
        node.prefix@,
    ]);
    concat(parts.as_slice())
}

/// The line that reports a started legacy node.
pub fn legacy_line(disposition: &str, ready: bool, node: &NodeWords<'_>) -> (line: String)
    ensures
        line@ == concat_of(
            seq![
                "scripture: ha_mode=legacy disposition="@,
                disposition@,
                " ready="@,
                if ready {
                    "true"@
                } else {
                    "false"@
                },
                node_words(*node),
            ],
        ),
{
    let readiness = if ready {
        "true"
    } else {
        "false"
    };
    let words = node_text(node);
    let parts = [
        "scripture: ha_mode=legacy disposition=",
        disposition,
        " ready=",
        readiness,
        words.as_str(),
    ];
    assert(texts_view(parts@) =~= seq![
        "scripture: ha_mode=legacy disposition="@,
        disposition@,
        " ready="@,
        if ready {
                    "true"@
                } else {
                    "false"@
                },
        node_words(*node),
    ]);
    concat(parts.as_slice())
}

/// The line that reports a node under Serving Authority; `action` is what it did.
pub fn authority_line(action: &str, ready: bool, node: &NodeWords<'_>) -> (line: String)
    ensures
        line@ == concat_of(
            seq![
                "scripture: ha_mode=serving-authority action="@,
                action@,
                " ready="@,
                if ready {
                    "true"@
                } else {
                    "false"@
                },
                node_words(*node),
            ],
        ),
{
    let readiness = if ready {
        "true"
    } else {
        "false"
    };
    let words = node_text(node);
    let parts = [
        "scripture: ha_mode=serving-authority action=",
        action,
        " ready=",
        readiness,
        words.as_str(),
    ];
    assert(texts_view(parts@) =~= seq![
        "scripture: ha_mode=serving-authority action="@,
        action@,
        " ready="@,
        if ready {
                    "true"@
                } else {
                    "false"@
                },
        node_words(*node),
    ]);
    concat(parts.as_slice())
}

/// The line that reports a promoted node.
pub fn promoted_line(candidate_term: u64, node: &NodeWords<'_>) -> (line: String)
    ensures
        line@ == concat_of(
            seq![
                "scripture: ha_mode=serving-authority action=promote-and-serve ready=true"@,
                node_words(*node),
                " candidate_term="@,
                decimal(candidate_term as nat),
            ],
        ),
{
    let words = node_text(node);
    let term = decimal_text(candidate_term);
    let parts = [
        "scripture: ha_mode=serving-authority action=promote-and-serve ready=true",
        words.as_str(),
        " candidate_term=",
        term.as_str(),
    ];
    assert(texts_view(parts@) =~= seq![
        "scripture: ha_mode=serving-authority action=promote-and-serve ready=true"@,
        node_words(*node),
        " candidate_term="@,
        decimal(candidate_term as nat),
    ]);
    concat(parts.as_slice())
}

// Bootstrapping.

/// How a node is bootstrapped.
#[derive(Debug, PartialEq, Eq)]
pub enum BootstrapPlan {
    /// Every assignment, in this long-lived process.
    Assignments,
    /// The single Verse, in this long-lived process.
    Authority,
    /// Publish the named generation and exit; no ingress is opened.
    OneShot { loglet_id: String },
}

/// How a node is bootstrapped, or why it is not. Under Serving Authority the process stays
/// and serves; else a generation must be named.
pub fn bootstrap_plan(config: &ScriptureConfig, loglet_id: Option<&str>) -> (plan: Result<
    BootstrapPlan,
    String,
>)
    ensures
        match plan {
            Ok(BootstrapPlan::Assignments) => config.ha.mode == HaMode::ServingAuthority
                && config.multi(),
            Ok(BootstrapPlan::Authority) => config.ha.mode == HaMode::ServingAuthority
                && !config.multi(),
            Ok(BootstrapPlan::OneShot { loglet_id: named }) => config.ha.mode == HaMode::Legacy
                && loglet_id is Some && trimmed(loglet_id->0@).len() > 0 && named@
                == loglet_id->0@,
            Err(message) => config.ha.mode == HaMode::Legacy && (loglet_id is None || trimmed(
                loglet_id->0@,
            ).len() == 0) && message@ == "bootstrap requires a non-empty --loglet-id"@,
        },
{
    match config.ha.mode {
        HaMode::ServingAuthority => if config.is_multi_assignment() {
            Ok(BootstrapPlan::Assignments)
        } else {
            Ok(BootstrapPlan::Authority)
        },
        HaMode::Legacy => match loglet_id {
            Some(id) => if is_blank(id) {
                Err("bootstrap requires a non-empty --loglet-id".to_owned())
            } else {
                Ok(BootstrapPlan::OneShot { loglet_id: id.to_owned() })
            },
            None => Err("bootstrap requires a non-empty --loglet-id".to_owned()),
        },
    }
}

/// What came of publishing a first generation.
#[derive(Debug, PartialEq, Eq)]
pub enum Published {
    Done,
    AlreadyInitialized,
    Failed(String),
}

/// What is said after a first generation was published.
pub open spec fn bootstrap_words(
    owner: Seq<char>,
    advertise: Seq<char>,
    backend: Seq<char>,
    prefix: Seq<char>,
    loglet_id: Seq<char>,
) -> Seq<char> {
    concat_of(
        seq![
            "scripture: bootstrap ok ha_claim=false owner="@,
            owner,
            " advertise="@,
            advertise,
            " backend="@,
            backend,
            " prefix="@,
            prefix,
            " loglet_id="@,
            loglet_id,
            "\nscripture: exiting (no ingress). Start with: scripture serve --config …\n"@,
        ],
    )
}

/// What is said, and whether the command succeeded, after publishing a first generation.
pub fn bootstrap_report(published: Published, node: &NodeWords<'_>, loglet_id: &str) -> (report: Result<
    String,
    String,
>)
    ensures
        match published {
            Published::Done => report matches Ok(text) && text@ == bootstrap_words(
                node.owner@,
                node.advertise@,
                node.backend@,
                node.prefix@,
                loglet_id@,
            ),
            Published::AlreadyInitialized => report matches Err(message) && message@
                == "Canon already initialized; refusing bootstrap (no provision or publish performed)"@,
            Published::Failed(error) => report == Err::<String, _>(error),
        },
{
    match published {
        Published::Done => {
            let parts = [
                "scripture: bootstrap ok ha_claim=false owner=",
                node.owner,
                " advertise=",
                node.advertise,
                " backend=",
                node.backend,
                " prefix=",
                node.prefix,
                " loglet_id=",
                loglet_id,
                "\nscripture: exiting (no ingress). Start with: scripture serve --config …\n",
            ];
            assert(texts_view(parts@) =~= seq![
                "scripture: bootstrap ok ha_claim=false owner="@,
                node.owner@,
                " advertise="@,
                node.advertise@,
                " backend="@,
                node.backend@,
                " prefix="@,
                node.prefix@,
                " loglet_id="@,
                loglet_id@,
                "\nscripture: exiting (no ingress). Start with: scripture serve --config …\n"@,
            ]);
            Ok(concat(parts.as_slice()))
        },
        Published::AlreadyInitialized => Err(
            "Canon already initialized; refusing bootstrap (no provision or publish performed)".to_owned(),
        ),
        Published::Failed(error) => Err(error),
    }
}

// Replacing.

/// Whether a successor is named.
pub fn check_successor(successor_loglet_id: &str) -> (checked: Result<(), String>)
    ensures
        match checked {
            Ok(_) => trimmed(successor_loglet_id@).len() > 0,
            Err(message) => trimmed(successor_loglet_id@).len() == 0 && message@
                == "replace requires a non-empty --successor-loglet-id"@,
        },
{
    if is_blank(successor_loglet_id) {
        return Err("replace requires a non-empty --successor-loglet-id".to_owned());
    }
    Ok(())
}

/// What is said of a process that already holds a runtime.
pub const HOLDS_RUNTIME: &'static str =
    "refusing replace: this process already holds a Verse runtime; use a fresh one-shot process";

/// Why an open generation is not replaced, if it is not.
pub open spec fn replace_refusal(
    holds_runtime: bool,
    outcome: VerseOutcome,
    disposition: Seq<char>,
) -> Option<Seq<char>> {
    if holds_runtime {
        Some(HOLDS_RUNTIME@)
    } else if outcome != VerseOutcome::RecoveryRequired {
        Some(
            concat_of(
                seq![
                    "replace requires RecoveryRequired(MustSealAndReplace); observed disposition="@,
                    disposition,
                ],
            ),
        )
    } else {
        None
    }
}

/// Whether an open generation may be replaced: only out of RecoveryRequired, in a process
/// that holds no runtime.
pub fn check_replace(holds_runtime: bool, outcome: VerseOutcome, disposition: &str) -> (checked: Result<
    (),
    String,
>)
    ensures
        match checked {
            Ok(_) => replace_refusal(holds_runtime, outcome, disposition@) is None,
            Err(message) => replace_refusal(holds_runtime, outcome, disposition@) == Some(
                message@,
            ),
        },
{
    if holds_runtime {
        return Err(HOLDS_RUNTIME.to_owned());
    }
    match outcome {
        VerseOutcome::RecoveryRequired => Ok(()),
        _ => {
            let parts = [
                "replace requires RecoveryRequired(MustSealAndReplace); observed disposition=",
                disposition,
            ];
            assert(texts_view(parts@) =~= seq![
                "replace requires RecoveryRequired(MustSealAndReplace); observed disposition="@,
                disposition@,
            ]);
            Err(concat(parts.as_slice()))
        },
    }
}

/// What came of activating an empty open generation.
#[derive(Debug, PartialEq, Eq)]
pub enum Activation {
    /// The node reached an outcome, in words.
    Reached { outcome: VerseOutcome, disposition: String },
    /// The open generation is not empty.
    NonEmptyTail { tail: u64 },
    /// The node was not where an activation can begin; its disposition as it is shown.
    InvalidDisposition { disposition: String },
    Failed(String),
}

/// Whether a report is what an activation comes to.
pub open spec fn is_replace_report(
    report: Result<String, String>,
    activation: Activation,
    node: NodeWords<'_>,
    successor: Seq<char>,
) -> bool {
    match activation {
        Activation::Reached { outcome, disposition } => if outcome == VerseOutcome::Serving {
            report matches Ok(text) && text@ == concat_of(
                seq![
                    "scripture: replace ok ha_claim=false disposition=Serving owner="@,
                    node.owner@,
                    " advertise="@,
                    node.advertise@,
                    " backend="@,
                    node.backend@,
                    " prefix="@,
                    node.prefix@,
                    " successor_loglet_id="@,
                    successor,
                    "\nscripture: exiting (no ingress); start serve separately\n"@,
                ],
            )
        } else {
            report matches Err(message) && message@ == concat_of(
                seq![
                    "replace did not reach Serving; disposition="@,
                    disposition@,
                    " (candidate remains inspectable if conflicting)"@,
                ],
            )
        },
        Activation::NonEmptyTail { tail } => report matches Err(message) && message@ == concat_of(
            seq![
                "refusing replace: durable open generation is non-empty (tail="@,
                decimal(tail as nat),
                ")"@,
            ],
        ),
        Activation::InvalidDisposition { disposition } => report matches Err(message) && message@
            == concat_of(
            seq![
                "refusing replace: expected RecoveryRequired(MustSealAndReplace), got "@,
                disposition@,
            ],
        ),
        Activation::Failed(error) => report == Err::<String, _>(error),
    }
}

/// What is said, and whether the command succeeded, after activating an empty open
/// generation.
pub fn replace_report(activation: Activation, node: &NodeWords<'_>, successor: &str) -> (report: Result<
    String,
    String,
>)
    ensures
        is_replace_report(report, activation, *node, successor@),
{
    match activation {
        Activation::Reached { outcome, disposition } => {
            if outcome == VerseOutcome::Serving {
                let parts = [
                    "scripture: replace ok ha_claim=false disposition=Serving owner=",
                    node.owner,
                    " advertise=",
                    node.advertise,
                    " backend=",
                    node.backend,
                    " prefix=",
                    node.prefix,
                    " successor_loglet_id=",
                    successor,
                    "\nscripture: exiting (no ingress); start serve separately\n",
                ];
                assert(texts_view(parts@) =~= seq![
                    "scripture: replace ok ha_claim=false disposition=Serving owner="@,
                    node.owner@,
                    " advertise="@,
                    node.advertise@,
                    " backend="@,
                    node.backend@,
                    " prefix="@,
                    node.prefix@,
                    " successor_loglet_id="@,
                    successor@,
                    "\nscripture: exiting (no ingress); start serve separately\n"@,
                ]);
                return Ok(concat(parts.as_slice()));
            }
            let parts = [
                "replace did not reach Serving; disposition=",
                disposition.as_str(),
                " (candidate remains inspectable if conflicting)",
            ];
            assert(texts_view(parts@) =~= seq![
                "replace did not reach Serving; disposition="@,
                disposition@,
                " (candidate remains inspectable if conflicting)"@,
            ]);
            Err(concat(parts.as_slice()))
        },
        Activation::NonEmptyTail { tail } => {
            let number = decimal_text(tail);
            let parts = [
                "refusing replace: durable open generation is non-empty (tail=",
                number.as_str(),
                ")",
            ];
            assert(texts_view(parts@) =~= seq![
                "refusing replace: durable open generation is non-empty (tail="@,
                decimal(tail as nat),
                ")"@,
            ]);
            Err(concat(parts.as_slice()))
        },
        Activation::InvalidDisposition { disposition } => {
            let parts = [
                "refusing replace: expected RecoveryRequired(MustSealAndReplace), got ",
                disposition.as_str(),
            ];
            assert(texts_view(parts@) =~= seq![
                "refusing replace: expected RecoveryRequired(MustSealAndReplace), got "@,
                disposition@,
            ]);
            Err(concat(parts.as_slice()))
        },
        Activation::Failed(error) => Err(error),
    }
}

// Promoting.

/// How a node is promoted.
#[derive(Debug, PartialEq, Eq)]
pub enum PromotePlan {
    /// One assignment of several.
    Assignment { id: String },
    /// The single Verse.
    Single,
}

/// Why a promotion is refused, if it is.
pub open spec fn promote_refusal(config: ScriptureConfig, has_target: bool) -> Option<Seq<char>> {
    if config.ha.mode == HaMode::Legacy {
        Some("promote requires ha.mode: serving-authority"@)
    } else if config.multi() && !has_target {
        Some(
            "multi-assignment promote requires --assignment ID (targeted Verse promote; never process-global)"@,
        )
    } else if !config.multi() && has_target {
        Some("--assignment is only valid with scribe.assignments (multi-assignment config)"@)
    } else {
        None
    }
}

/// How a node is promoted, or why it is not: only under Serving Authority, and never more
/// than one Verse at a time.
pub fn promote_plan(config: &ScriptureConfig, assignment_id: Option<&str>) -> (plan: Result<
    PromotePlan,
    String,
>)
    ensures
        match plan {
            Ok(PromotePlan::Assignment { id }) => promote_refusal(*config, assignment_id is Some)
                is None && config.multi() && assignment_id is Some && id@ == assignment_id->0@,
            Ok(PromotePlan::Single) => promote_refusal(*config, assignment_id is Some) is None
                && !config.multi(),
            Err(message) => promote_refusal(*config, assignment_id is Some) == Some(message@),
        },
{
    if config.ha.mode == HaMode::Legacy {
        return Err("promote requires ha.mode: serving-authority".to_owned());
    }
    if config.is_multi_assignment() {
        match assignment_id {
            Some(id) => Ok(PromotePlan::Assignment { id: id.to_owned() }),
            None => Err(
                "multi-assignment promote requires --assignment ID (targeted Verse promote; never process-global)".to_owned(),
            ),
        }
    } else if assignment_id.is_some() {
        Err(
            "--assignment is only valid with scribe.assignments (multi-assignment config)".to_owned(),
        )
    } else {
        Ok(PromotePlan::Single)
    }
}

/// What a failed promotion was about.
#[derive(Debug, Clone, Copy, PartialEq, Eq, Structural)]
pub enum PromoteFailure {
    /// The outcome of the foundation's transition is unknown.
    FoundationIndeterminate,
    /// The root could not be written or read.
    Root,
    Other,
}

/// Whether a promotion is tried once more with the same expectation: only where a lost
/// reply was deliberately armed, was seen to happen after the write, and explains the
/// failure.
pub fn should_retry_promote_after_reply_loss(
    reply_loss_armed: bool,
    reply_loss_applied: bool,
    failure: PromoteFailure,
) -> (retry: bool)
    ensures
        retry == (reply_loss_armed && reply_loss_applied && failure != PromoteFailure::Other),
{
    reply_loss_armed && reply_loss_applied && failure != PromoteFailure::Other
}

// The fleet lifecycle.

/// Why `scribe run` is refused for a config, if it is.
pub open spec fn scribe_run_refusal(config: ScriptureConfig) -> Option<Seq<char>> {
    if config.multi() {
        Some(
            "scribe run currently targets one Canon/Verse per process; use a single-assignment Serving-Authority config (shared store root across fleet members)"@,
        )
    } else if config.ha.mode != HaMode::ServingAuthority {
        Some("scribe run requires ha.mode: serving-authority"@)
    } else {
        None
    }
}

/// Whether `scribe run` may go on with a config.
pub fn check_scribe_run(config: &ScriptureConfig) -> (checked: Result<(), String>)
    ensures
        match checked {
            Ok(_) => scribe_run_refusal(*config) is None,
            Err(message) => scribe_run_refusal(*config) == Some(message@),
        },
{
    if config.is_multi_assignment() {
        return Err(
            "scribe run currently targets one Canon/Verse per process; use a single-assignment Serving-Authority config (shared store root across fleet members)".to_owned(),
        );
    }
    match config.ha.mode {
        HaMode::ServingAuthority => Ok(()),
        HaMode::Legacy => Err("scribe run requires ha.mode: serving-authority".to_owned()),
    }
}

/// How long a peer may look unreachable before a successor is attempted; never no time at
/// all.
pub fn peer_grace(peer_grace_ms: u64) -> (grace_ms: u64)
    ensures
        grace_ms == (if peer_grace_ms == 0 {
            1
        } else {
            peer_grace_ms
        }),
{
    if peer_grace_ms == 0 {
        1
    } else {
        peer_grace_ms
    }
}

/// The line that reports a joining fleet member.
pub fn joining_line(owner: &str, advertise: &str, bind: &str, peer_grace_ms: u64) -> (line: String)
    ensures
        line@ == concat_of(
            seq![
                "scripture: scribe run owner="@,
                owner@,
                " advertise="@,
                advertise@,
                " bind="@,
                bind@,
                " peer_grace_ms="@,
                decimal(peer_grace_ms as nat),
                " (read-only join until root authorizes Serving)"@,
            ],
        ),
{
    let grace = decimal_text(peer_grace_ms);
    let parts = [
        "scripture: scribe run owner=",
        owner,
        " advertise=",
        advertise,
        " bind=",
        bind,
        " peer_grace_ms=",
        grace.as_str(),
        " (read-only join until root authorizes Serving)",
    ];
    assert(texts_view(parts@) =~= seq![
        "scripture: scribe run owner="@,
        owner@,
        " advertise="@,
        advertise@,
        " bind="@,
        bind@,
        " peer_grace_ms="@,
        decimal(peer_grace_ms as nat),
        " (read-only join until root authorizes Serving)"@,
    ]);
    concat(parts.as_slice())
}

/// Compatibility notice for deprecated operator paths.
pub fn compat_notice(old: &str) -> (line: String)
    ensures
        line@ == concat_of(
            seq![
                "scripture: note: `"@,
                old@,
                "` remains for compatibility; prefer `scripture scribe run --config …` for the normal fleet lifecycle"@,
            ],
        ),
{
    let parts = [
        "scripture: note: `",
        old,
        "` remains for compatibility; prefer `scripture scribe run --config …` for the normal fleet lifecycle",
    ];
    assert(texts_view(parts@) =~= seq![
        "scripture: note: `"@,
        old@,
        "` remains for compatibility; prefer `scripture scribe run --config …` for the normal fleet lifecycle"@,
    ]);
    concat(parts.as_slice())
}

// Standby.

/// Process environment name for the admin promotion bearer token.
pub const ADMIN_TOKEN_ENV: &'static str = "SCRIPTURE_ADMIN_TOKEN";

/// Why a standby cannot take promotions, if it cannot.
pub open spec fn standby_refusal(config: ScriptureConfig, token: Option<&str>) -> Option<
    Seq<char>,
> {
    if config.admin.bind is None {
        Some("admin.bind is required for standby"@)
    } else if token is None {
        Some(
            concat_of(
                seq![
                    ADMIN_TOKEN_ENV@,
                    " must be set in the process environment for admin.bind"@,
                ],
            ),
        )
    } else if trimmed(token->0@).len() == 0 {
        Some(concat_of(seq![ADMIN_TOKEN_ENV@, " must be non-empty"@]))
    } else {
        None
    }
}

/// Whether a standby can take promotions: it needs an admin address and a token that is
/// not blank.
pub fn check_standby(config: &ScriptureConfig, token: Option<&str>) -> (checked: Result<(), String>)
    ensures
        match checked {
            Ok(_) => standby_refusal(*config, token) is None,
            Err(message) => standby_refusal(*config, token) == Some(message@),
        },
{
    if config.admin.bind.is_none() {
        return Err("admin.bind is required for standby".to_owned());
    }
    match token {
        None => {
            let parts = [
                ADMIN_TOKEN_ENV,
                " must be set in the process environment for admin.bind",
            ];
            assert(texts_view(parts@) =~= seq![
                ADMIN_TOKEN_ENV@,
                " must be set in the process environment for admin.bind"@,
            ]);
            Err(concat(parts.as_slice()))
        },
        Some(token) => {
            if is_blank(token) {
                let parts = [ADMIN_TOKEN_ENV, " must be non-empty"];
                assert(texts_view(parts@) =~= seq![ADMIN_TOKEN_ENV@, " must be non-empty"@]);
                return Err(concat(parts.as_slice()));
            }
            Ok(())
        },
    }
}

/// What is said of a producer that a standby turns away.
pub fn standby_refuses(peer: &str) -> (line: String)
    ensures
        line@ == concat_of(
            seq![
                "scripture: refused producer from "@,
                peer@,
                ": standby (not effective writer)"@,
            ],
        ),
{
    let parts = [
        "scripture: refused producer from ",
        peer,
        ": standby (not effective writer)",
    ];
    assert(texts_view(parts@) =~= seq![
        "scripture: refused producer from "@,
        peer@,
        ": standby (not effective writer)"@,
    ]);
    concat(parts.as_slice())
}

/// What is said of a promotion that went through.
pub fn admin_promoted(owner: &str, candidate_term: u64) -> (line: String)
    ensures
        line@ == concat_of(
            seq![
                "scripture: admin promote ok owner="@,
                owner@,
                " candidate_term="@,
                decimal(candidate_term as nat),
            ],
        ),
{
    let term = decimal_text(candidate_term);
    let parts = [
        "scripture: admin promote ok owner=",
        owner,
        " candidate_term=",
        term.as_str(),
    ];
    assert(texts_view(parts@) =~= seq![
        "scripture: admin promote ok owner="@,
        owner@,
        " candidate_term="@,
        decimal(candidate_term as nat),
    ]);
    concat(parts.as_slice())
}

// Laws.

/// A config without problems passes every check of a node that runs it.
pub proof fn law_valid_configs_are_runnable(config: ScriptureConfig, refusals: TokenRefusals)
    requires
        config.problem(refusals) is None,
    ensures
        typed_fault(config, refusals) is None,
{
    if config.multi() {
        let view = assignments_view(config.scribe->0.assignments@);
        assert forall|i: int| 0 <= i < view.len() implies assignment_fault(
            config,
            refusals,
            #[trigger] view[i],
        ) is None by {
            lemma_valid_assignment(&config, refusals, i);
        }
        lemma_no_faults(config, refusals, view);
    } else {
        law_valid_single_runs(&config, refusals);
    }
}

proof fn lemma_no_faults(
    config: ScriptureConfig,
    refusals: TokenRefusals,
    assignments: Seq<AssignmentView>,
)
    requires
        forall|i: int|
            0 <= i < assignments.len() ==> assignment_fault(
                config,
                refusals,
                #[trigger] assignments[i],
            ) is None,
    ensures
        assignments_fault(config, refusals, assignments) is None,
    decreases assignments.len(),
{
    if assignments.len() > 0 {
        let rest = assignments.skip(1);
        assert forall|i: int| 0 <= i < rest.len() implies assignment_fault(
            config,
            refusals,
            #[trigger] rest[i],
        ) is None by {
            assert(rest[i] == assignments[i + 1]);
        }
        assert(assignment_fault(config, refusals, assignments[0]) is None);
        lemma_no_faults(config, refusals, rest);
    }
}

/// The line of a promoted node names its term, and nothing else of it goes by the term.
pub proof fn law_promoted_lines_name_their_term(
    term: u64,
    other: u64,
    node: NodeWords<'_>,
    line: String,
    changed: String,
)
    requires
        call_ensures(promoted_line, (term, &node), line),
        call_ensures(promoted_line, (other, &node), changed),
    ensures
        differ_behind(
            line@,
            changed@,
            " candidate_term="@,
            decimal(term as nat),
            decimal(other as nat),
        ),
{
    let parts = seq![
        "scripture: ha_mode=serving-authority action=promote-and-serve ready=true"@,
        node_words(node),
        " candidate_term="@,
        decimal(term as nat),
    ];
    lemma_differ_in_parts(parts, 3, decimal(other as nat));
    assert(parts.update(3, decimal(other as nat)) =~= seq![
        "scripture: ha_mode=serving-authority action=promote-and-serve ready=true"@,
        node_words(node),
        " candidate_term="@,
        decimal(other as nat),
    ]);
}

/// Two nodes that differ in one thing alone differ, in words, only behind its name.
pub proof fn law_nodes_name_what_they_are(
    node: NodeWords<'_>,
    other: NodeWords<'_>,
)
    ensures
        differ_behind(
            node_words(node),
            node_words(NodeWords { owner: other.owner, ..node }),
            " owner="@,
            node.owner@,
            other.owner@,
        ),
        differ_behind(
            node_words(node),
            node_words(NodeWords { advertise: other.advertise, ..node }),
            " advertise="@,
            node.advertise@,
            other.advertise@,
        ),
        differ_behind(
            node_words(node),
            node_words(NodeWords { bind: other.bind, ..node }),
            " bind="@,
            node.bind@,
            other.bind@,
        ),
        differ_behind(
            node_words(node),
            node_words(NodeWords { backend: other.backend, ..node }),
            " backend="@,
            node.backend@,
            other.backend@,
        ),
        differ_behind(
            node_words(node),
            node_words(NodeWords { prefix: other.prefix, ..node }),
            " prefix="@,
            node.prefix@,
            other.prefix@,
        ),
{
    let parts = seq![
        " owner="@,
        node.owner@,
        " advertise="@,
        node.advertise@,
        " bind="@,
        node.bind@,
        " backend="@,
        node.backend@,
        " prefix="@,
        node.prefix@,
    ];
    lemma_differ_in_parts(parts, 1, other.owner@);
    assert(parts.update(1, other.owner@) =~= seq![
        " owner="@,
        other.owner@,
        " advertise="@,
        node.advertise@,
        " bind="@,
        node.bind@,
        " backend="@,
        node.backend@,
        " prefix="@,
        node.prefix@,
    ]);
    lemma_differ_in_parts(parts, 3, other.advertise@);
    assert(parts.update(3, other.advertise@) =~= seq![
        " owner="@,
        node.owner@,
        " advertise="@,
        other.advertise@,
        " bind="@,
        node.bind@,
        " backend="@,
        node.backend@,
        " prefix="@,
        node.prefix@,
    ]);
    lemma_differ_in_parts(parts, 5, other.bind@);
    assert(parts.update(5, other.bind@) =~= seq![
        " owner="@,
        node.owner@,
        " advertise="@,
        node.advertise@,
        " bind="@,
        other.bind@,
        " backend="@,
        node.backend@,
        " prefix="@,
        node.prefix@,
    ]);
    lemma_differ_in_parts(parts, 7, other.backend@);
    assert(parts.update(7, other.backend@) =~= seq![
        " owner="@,
        node.owner@,
        " advertise="@,
        node.advertise@,
        " bind="@,
        node.bind@,
        " backend="@,
        other.backend@,
        " prefix="@,
        node.prefix@,
    ]);
    lemma_differ_in_parts(parts, 9, other.prefix@);
    assert(parts.update(9, other.prefix@) =~= seq![
        " owner="@,
        node.owner@,
        " advertise="@,
        node.advertise@,
        " bind="@,
        node.bind@,
        " backend="@,
        node.backend@,
        " prefix="@,
        other.prefix@,
    ]);
}

/// Two reports of a bootstrap that differ in one thing alone differ only behind its name.
pub proof fn law_bootstrap_reports_name_what_they_show(
    owner: Seq<char>,
    advertise: Seq<char>,
    backend: Seq<char>,
    prefix: Seq<char>,
    loglet_id: Seq<char>,
    other: Seq<char>,
)
    ensures
        differ_behind(
            bootstrap_words(owner, advertise, backend, prefix, loglet_id),
            bootstrap_words(other, advertise, backend, prefix, loglet_id),
            "scripture: bootstrap ok ha_claim=false owner="@,
            owner,
            other,
        ),
        differ_behind(
            bootstrap_words(owner, advertise, backend, prefix, loglet_id),
            bootstrap_words(owner, other, backend, prefix, loglet_id),
            " advertise="@,
            advertise,
            other,
        ),
        differ_behind(
            bootstrap_words(owner, advertise, backend, prefix, loglet_id),
            bootstrap_words(owner, advertise, other, prefix, loglet_id),
            " backend="@,
            backend,
            other,
        ),
        differ_behind(
            bootstrap_words(owner, advertise, backend, prefix, loglet_id),
            bootstrap_words(owner, advertise, backend, other, loglet_id),
            " prefix="@,
            prefix,
            other,
        ),
        differ_behind(
            bootstrap_words(owner, advertise, backend, prefix, loglet_id),
            bootstrap_words(owner, advertise, backend, prefix, other),
            " loglet_id="@,
            loglet_id,
            other,
        ),
{
    let parts = seq![
        "scripture: bootstrap ok ha_claim=false owner="@,
        owner,
        " advertise="@,
        advertise,
        " backend="@,
        backend,
        " prefix="@,
        prefix,
        " loglet_id="@,
        loglet_id,
        "\nscripture: exiting (no ingress). Start with: scripture serve --config …\n"@,
    ];
    lemma_differ_in_parts(parts, 1, other);
    assert(parts.update(1, other) =~= seq![
        "scripture: bootstrap ok ha_claim=false owner="@,
        other,
        " advertise="@,
        advertise,
        " backend="@,
        backend,
        " prefix="@,
        prefix,
        " loglet_id="@,
        loglet_id,
        "\nscripture: exiting (no ingress). Start with: scripture serve --config …\n"@,
    ]);
    lemma_differ_in_parts(parts, 3, other);
    assert(parts.update(3, other) =~= seq![
        "scripture: bootstrap ok ha_claim=false owner="@,
        owner,
        " advertise="@,
        other,
        " backend="@,
        backend,
        " prefix="@,
        prefix,
        " loglet_id="@,
        loglet_id,
        "\nscripture: exiting (no ingress). Start with: scripture serve --config …\n"@,
    ]);
    lemma_differ_in_parts(parts, 5, other);
    assert(parts.update(5, other) =~= seq![
        "scripture: bootstrap ok ha_claim=false owner="@,
        owner,
        " advertise="@,
        advertise,
        " backend="@,
        other,
        " prefix="@,
        prefix,
        " loglet_id="@,
        loglet_id,
        "\nscripture: exiting (no ingress). Start with: scripture serve --config …\n"@,
    ]);
    lemma_differ_in_parts(parts, 7, other);
    assert(parts.update(7, other) =~= seq![
        "scripture: bootstrap ok ha_claim=false owner="@,
        owner,
        " advertise="@,
        advertise,
        " backend="@,
        backend,
        " prefix="@,
        other,
        " loglet_id="@,
        loglet_id,
        "\nscripture: exiting (no ingress). Start with: scripture serve --config …\n"@,
    ]);
    lemma_differ_in_parts(parts, 9, other);
    assert(parts.update(9, other) =~= seq![
        "scripture: bootstrap ok ha_claim=false owner="@,
        owner,
        " advertise="@,
        advertise,
        " backend="@,
        backend,
        " prefix="@,
        prefix,
        " loglet_id="@,
        other,
        "\nscripture: exiting (no ingress). Start with: scripture serve --config …\n"@,
    ]);
}

/// Two joining members whose lines differ in one thing alone differ only behind its name.
pub proof fn law_joining_lines_name_what_they_show(
    owner: &str,
    advertise: &str,
    bind: &str,
    grace: u64,
    other: &str,
    other_grace: u64,
    line: String,
    by_owner: String,
    by_advertise: String,
    by_bind: String,
    by_grace: String,
)
    requires
        call_ensures(joining_line, (owner, advertise, bind, grace), line),
        call_ensures(joining_line, (other, advertise, bind, grace), by_owner),
        call_ensures(joining_line, (owner, other, bind, grace), by_advertise),
        call_ensures(joining_line, (owner, advertise, other, grace), by_bind),
        call_ensures(joining_line, (owner, advertise, bind, other_grace), by_grace),
    ensures
        differ_behind(
            line@,
            by_owner@,
            "scripture: scribe run owner="@,
            owner@,
            other@,
        ),
        differ_behind(
            line@,
            by_advertise@,
            " advertise="@,
            advertise@,
            other@,
        ),
        differ_behind(
            line@,
            by_bind@,
            " bind="@,
            bind@,
            other@,
        ),
        differ_behind(
            line@,
            by_grace@,
            " peer_grace_ms="@,
            decimal(grace as nat),
            decimal(other_grace as nat),
        ),
{
    let parts = seq![
        "scripture: scribe run owner="@,
        owner@,
        " advertise="@,
        advertise@,
        " bind="@,
        bind@,
        " peer_grace_ms="@,
        decimal(grace as nat),
        " (read-only join until root authorizes Serving)"@,
    ];
    lemma_differ_in_parts(parts, 1, other@);
    assert(parts.update(1, other@) =~= seq![
        "scripture: scribe run owner="@,
        other@,
        " advertise="@,
        advertise@,
        " bind="@,
        bind@,
        " peer_grace_ms="@,
        decimal(grace as nat),
        " (read-only join until root authorizes Serving)"@,
    ]);
    lemma_differ_in_parts(parts, 3, other@);
    assert(parts.update(3, other@) =~= seq![
        "scripture: scribe run owner="@,
        owner@,
        " advertise="@,
        other@,
        " bind="@,
        bind@,
        " peer_grace_ms="@,
        decimal(grace as nat),
        " (read-only join until root authorizes Serving)"@,
    ]);
    lemma_differ_in_parts(parts, 5, other@);
    assert(parts.update(5, other@) =~= seq![
        "scripture: scribe run owner="@,
        owner@,
        " advertise="@,
        advertise@,
        " bind="@,
        other@,
        " peer_grace_ms="@,
        decimal(grace as nat),
        " (read-only join until root authorizes Serving)"@,
    ]);
    lemma_differ_in_parts(parts, 7, decimal(other_grace as nat));
    assert(parts.update(7, decimal(other_grace as nat)) =~= seq![
        "scripture: scribe run owner="@,
        owner@,
        " advertise="@,
        advertise@,
        " bind="@,
        bind@,
        " peer_grace_ms="@,
        decimal(other_grace as nat),
        " (read-only join until root authorizes Serving)"@,
    ]);
}

/// The line of a legacy node says its disposition and whether it is ready, and nothing else goes by these.
pub proof fn law_legacy_lines_say_what_became_of_the_node(
    disposition: &str,
    other: &str,
    node: NodeWords<'_>,
    line: String,
    unready: String,
    changed: String,
)
    requires
        call_ensures(legacy_line, (disposition, true, &node), line),
        call_ensures(legacy_line, (disposition, false, &node), unready),
        call_ensures(legacy_line, (other, true, &node), changed),
    ensures
        differ_behind(
            line@,
            changed@,
            "scripture: ha_mode=legacy disposition="@,
            disposition@,
            other@,
        ),
        differ_behind(
            line@,
            unready@,
            " ready="@,
            "true"@,
            "false"@,
        ),
{
    let parts = seq![
        "scripture: ha_mode=legacy disposition="@,
        disposition@,
        " ready="@,
        "true"@,
        node_words(node),
    ];
    lemma_differ_in_parts(parts, 1, other@);
    assert(parts.update(1, other@) =~= seq![
        "scripture: ha_mode=legacy disposition="@,
        other@,
        " ready="@,
        "true"@,
        node_words(node),
    ]);
    lemma_differ_in_parts(parts, 3, "false"@);
    assert(parts.update(3, "false"@) =~= seq![
        "scripture: ha_mode=legacy disposition="@,
        disposition@,
        " ready="@,
        "false"@,
        node_words(node),
    ]);
}

/// The line of a node under Serving Authority says its action and whether it is ready, and nothing
/// else goes by these.
pub proof fn law_authority_lines_say_what_the_node_did(
    action: &str,
    other: &str,
    node: NodeWords<'_>,
    line: String,
    unready: String,
    changed: String,
)
    requires
        call_ensures(authority_line, (action, true, &node), line),
        call_ensures(authority_line, (action, false, &node), unready),
        call_ensures(authority_line, (other, true, &node), changed),
    ensures
        differ_behind(
            line@,
            changed@,
            "scripture: ha_mode=serving-authority action="@,
            action@,
            other@,
        ),
        differ_behind(
            line@,
            unready@,
            " ready="@,
            "true"@,
            "false"@,
        ),
{
    let parts = seq![
        "scripture: ha_mode=serving-authority action="@,
        action@,
        " ready="@,
        "true"@,
        node_words(node),
    ];
    lemma_differ_in_parts(parts, 1, other@);
    assert(parts.update(1, other@) =~= seq![
        "scripture: ha_mode=serving-authority action="@,
        other@,
        " ready="@,
        "true"@,
        node_words(node),
    ]);
    lemma_differ_in_parts(parts, 3, "false"@);
    assert(parts.update(3, "false"@) =~= seq![
        "scripture: ha_mode=serving-authority action="@,
        action@,
        " ready="@,
        "false"@,
        node_words(node),
    ]);
}

/// What is said of a promotion names the owner and the term, and nothing else goes by these.
pub proof fn law_admin_promotions_name_owner_and_term(
    owner: &str,
    other: &str,
    term: u64,
    other_term: u64,
    line: String,
    by_owner: String,
    by_term: String,
)
    requires
        call_ensures(admin_promoted, (owner, term), line),
        call_ensures(admin_promoted, (other, term), by_owner),
        call_ensures(admin_promoted, (owner, other_term), by_term),
    ensures
        differ_behind(
            line@,
            by_owner@,
            "scripture: admin promote ok owner="@,
            owner@,
            other@,
        ),
        differ_behind(
            line@,
            by_term@,
            " candidate_term="@,
            decimal(term as nat),
            decimal(other_term as nat),
        ),
{
    let parts = seq![
        "scripture: admin promote ok owner="@,
        owner@,
        " candidate_term="@,
        decimal(term as nat),
    ];
    lemma_differ_in_parts(parts, 1, other@);
    assert(parts.update(1, other@) =~= seq![
        "scripture: admin promote ok owner="@,
        other@,
        " candidate_term="@,
        decimal(term as nat),
    ]);
    lemma_differ_in_parts(parts, 3, decimal(other_term as nat));
    assert(parts.update(3, decimal(other_term as nat)) =~= seq![
        "scripture: admin promote ok owner="@,
        owner@,
        " candidate_term="@,
        decimal(other_term as nat),
    ]);
}

/// Each command has its own configs: plain serving is for a single Verse without Serving
/// Authority, the fleet lifecycle for a single Verse under it, and promotion for Serving
/// Authority, with a target exactly where there are several assignments.
pub proof fn law_commands_have_their_configs(config: ScriptureConfig)
    ensures
        ({
            let several = config.scribe is Some && config.scribe->0.assignments@.len() > 0;
            let authority = config.ha.mode == HaMode::ServingAuthority;
            &&& serve_refusal(config) is None <==> !several && !authority
            &&& scribe_run_refusal(config) is None <==> !several && authority
            &&& promote_refusal(config, true) is None <==> several && authority
            &&& promote_refusal(config, false) is None <==> !several && authority
        }),
{
}

/// A command that does not fit its config says what it needs.
pub proof fn law_commands_say_what_they_need(config: ScriptureConfig, target: bool)
    ensures
        ({
            let several = config.scribe is Some && config.scribe->0.assignments@.len() > 0;
            let authority = config.ha.mode == HaMode::ServingAuthority;
            &&& !authority ==> promote_refusal(config, target) == Some(
                "promote requires ha.mode: serving-authority"@,
            )
            &&& authority && several ==> promote_refusal(config, false) == Some(
                "multi-assignment promote requires --assignment ID (targeted Verse promote; never process-global)"@,
            )
            &&& authority && !several ==> promote_refusal(config, true) == Some(
                "--assignment is only valid with scribe.assignments (multi-assignment config)"@,
            )
            &&& several ==> scribe_run_refusal(config) == Some(
                "scribe run currently targets one Canon/Verse per process; use a single-assignment Serving-Authority config (shared store root across fleet members)"@,
            )
            &&& !several && !authority ==> scribe_run_refusal(config) == Some(
                "scribe run requires ha.mode: serving-authority"@,
            )
        }),
{
}

/// A standby takes promotions exactly where it has an admin address and a token that is more
/// than whitespace.
pub proof fn law_standbys_need_address_and_token(config: ScriptureConfig, token: Option<&str>)
    ensures
        standby_refusal(config, token) is None <==> config.admin.bind is Some && token is Some
            && !all_space(token->0@),
        config.admin.bind is None ==> standby_refusal(config, token) == Some(
            "admin.bind is required for standby"@,
        ),
{
    if let Some(given) = token {
        law_trimming_takes_outer_whitespace(given@);
    }
}

/// An open generation is replaced only where recovery is required, by a process that holds no
/// runtime.
pub proof fn law_only_recovery_is_replaced(
    holds_runtime: bool,
    outcome: VerseOutcome,
    disposition: Seq<char>,
)
    ensures
        replace_refusal(holds_runtime, outcome, disposition) is None <==> !holds_runtime && outcome
            == VerseOutcome::RecoveryRequired,
{
}

/// A replacement succeeds exactly where the node reached Serving; each other end fails.
pub proof fn law_replacements_succeed_by_serving(
    report: Result<String, String>,
    activation: Activation,
    node: NodeWords<'_>,
    successor: Seq<char>,
)
    requires
        is_replace_report(report, activation, node, successor),
    ensures
        report is Ok <==> activation is Reached && activation->outcome == VerseOutcome::Serving,
        activation matches Activation::Failed(error) ==> report == Err::<String, _>(error),
{
}

/// A node can run exactly where its own identity, route and store profile are sound and, for
/// each assignment or for the single Verse, so are the four identities, and the assignment's
/// route.
pub proof fn law_sound_nodes_run(config: ScriptureConfig, refusals: TokenRefusals)
    requires
        !climbs(config.store.prefix@),
    ensures
        typed_fault(config, refusals) is None <==> {
            &&& sixteen_ascii(config.node.owner_id@)
            &&& accepted(refusals.endpoints@, config.node.advertise@)
            &&& refusals.backend is None
            &&& if config.scribe is Some && config.scribe->0.assignments@.len() > 0 {
                forall|i: int|
                    0 <= i < config.scribe->0.assignments@.len() ==> runs(
                        #[trigger] assignments_view(config.scribe->0.assignments@)[i],
                        refusals,
                    )
            } else {
                config.verse matches Some(verse) && sixteen_ascii(verse.journal_id@)
                    && sixteen_ascii(verse.verse_id@) && sixteen_ascii(verse.cohort_id@)
                    && sixteen_ascii(verse.writer_id@)
            }
        },
{
    law_sound_verses_run(&config);
    lemma_sixteen_ascii(config.node.owner_id@);
    lemma_accepted(refusals.endpoints@, config.node.advertise@);
    if config.multi() && sixteen_ascii(config.node.owner_id@) {
        lemma_faults(config, refusals, assignments_view(config.scribe->0.assignments@));
    }
}

/// Whether an assignment's identities and route are sound.
pub open spec fn runs(assignment: AssignmentView, refusals: TokenRefusals) -> bool {
    &&& sixteen_ascii(assignment.canon)
    &&& sixteen_ascii(assignment.verse)
    &&& sixteen_ascii(assignment.cohort_id)
    &&& sixteen_ascii(assignment.writer_id)
    &&& accepted(refusals.endpoints@, assignment.advertise)
}

proof fn lemma_faults(
    config: ScriptureConfig,
    refusals: TokenRefusals,
    assignments: Seq<AssignmentView>,
)
    requires
        !climbs(config.store.prefix@),
        sixteen_ascii(config.node.owner_id@),
    ensures
        assignments_fault(config, refusals, assignments) is None <==> forall|i: int|
            0 <= i < assignments.len() ==> runs(#[trigger] assignments[i], refusals),
    decreases assignments.len(),
{
    if assignments.len() > 0 {
        let rest = assignments.skip(1);
        let first = assignments[0];
        lemma_faults(config, refusals, rest);
        law_sound_identities_run(&config, first);
        lemma_accepted(refusals.endpoints@, first.advertise);
        assert(assignment_fault(config, refusals, first) is None <==> runs(first, refusals));
        assert forall|i: int| 0 <= i < rest.len() implies #[trigger] rest[i] == assignments[i
            + 1] by {}
        if forall|i: int| 0 <= i < rest.len() ==> runs(#[trigger] rest[i], refusals) {
            if runs(first, refusals) {
                assert forall|i: int| 0 <= i < assignments.len() implies runs(
                    #[trigger] assignments[i],
                    refusals,
                ) by {
                    if i > 0 {
                        assert(rest[i - 1] == assignments[i]);
                    }
                }
            }
        } else {
            let i = choose|i: int| 0 <= i < rest.len() && !runs(#[trigger] rest[i], refusals);
            assert(!runs(assignments[i + 1], refusals));
        }
    }
}

/// A node bootstraps over an empty root and goes by what is published otherwise; a root that
/// cannot be read stops it with the reason.
pub proof fn law_starts_go_by_the_root(
    error: String,
    empty: Result<StartAction, String>,
    present: Result<StartAction, String>,
    failed: Result<StartAction, String>,
)
    requires
        call_ensures(start_action, (RootObservation::Uninitialized,), empty),
        call_ensures(start_action, (RootObservation::Present,), present),
        call_ensures(start_action, (RootObservation::Failed(error),), failed),
    ensures
        empty == Ok::<_, String>(StartAction::Bootstrap),
        present == Ok::<_, String>(StartAction::StartConfigured),
        failed == Err::<StartAction, _>(error),
{
}

/// Under Serving Authority a bootstrap stays and serves, every assignment where there are some;
/// without it the named generation is published, and one must be named.
pub proof fn law_bootstraps_go_by_the_mode(
    config: ScriptureConfig,
    loglet_id: Option<&str>,
    plan: Result<BootstrapPlan, String>,
)
    requires
        call_ensures(bootstrap_plan, (&config, loglet_id), plan),
    ensures
        ({
            let several = config.scribe is Some && config.scribe->0.assignments@.len() > 0;
            let authority = config.ha.mode == HaMode::ServingAuthority;
            let named = loglet_id is Some && !all_space(loglet_id->0@);
            &&& plan == Ok::<_, String>(BootstrapPlan::Assignments) <==> authority && several
            &&& plan == Ok::<_, String>(BootstrapPlan::Authority) <==> authority && !several
            &&& plan is Err <==> !authority && !named
            &&& plan matches Ok(BootstrapPlan::OneShot { loglet_id: id }) ==> id@ == loglet_id->0@
        }),
{
    if let Some(id) = loglet_id {
        law_trimming_takes_outer_whitespace(id@);
    }
}

/// A bootstrap succeeds exactly where the generation was published now; a failure is passed on.
pub proof fn law_only_published_bootstraps_succeed(
    published: Published,
    node: NodeWords<'_>,
    loglet_id: &str,
    report: Result<String, String>,
)
    requires
        call_ensures(bootstrap_report, (published, &node, loglet_id), report),
    ensures
        report is Ok <==> published is Done,
        published matches Published::Failed(error) ==> report == Err::<String, _>(error),
{
}

/// One Verse is promoted at a time: the named assignment where there are several, and the single
/// Verse where nothing is named.
pub proof fn law_promotions_name_their_verse(
    config: ScriptureConfig,
    id: Option<&str>,
    plan: Result<PromotePlan, String>,
)
    requires
        call_ensures(promote_plan, (&config, id), plan),
    ensures
        ({
            let several = config.scribe is Some && config.scribe->0.assignments@.len() > 0;
            let authority = config.ha.mode == HaMode::ServingAuthority;
            &&& plan is Ok <==> authority && (several <==> id is Some)
            &&& plan matches Ok(PromotePlan::Assignment { id: named }) ==> several && named@
                == id->0@
            &&& plan matches Ok(PromotePlan::Single) ==> !several
        }),
{
}

/// A promotion is tried again only where a lost reply was armed, happened, and explains the
/// failure.
pub proof fn law_only_explained_losses_are_retried(
    armed: bool,
    applied: bool,
    failure: PromoteFailure,
    retry: bool,
)
    requires
        call_ensures(should_retry_promote_after_reply_loss, (armed, applied, failure), retry),
    ensures
        retry <==> armed && applied && (failure == PromoteFailure::FoundationIndeterminate
            || failure == PromoteFailure::Root),
{
}

/// A profile that needs HTTPS refuses a plain endpoint; no other refuses any.
pub proof fn law_plain_endpoints_are_refused(
    needs_https: bool,
    label: &str,
    endpoint: &str,
    rest: Seq<char>,
    checked: Result<(), String>,
)
    requires
        call_ensures(check_endpoint, (needs_https, label, endpoint), checked),
    ensures
        needs_https && endpoint@ == "http://"@ + rest ==> checked is Err,
        !needs_https ==> checked is Ok,
        checked is Err ==> endpoint@.len() >= 7 && endpoint@.take(7) == "http://"@,
{
    reveal_strlit("http://");
    law_a_prefix_and_the_rest_are_the_text(endpoint@, "http://"@, rest);
    if let Some(after) = after_prefix(endpoint@, "http://"@) {
        law_a_prefix_and_the_rest_are_the_text(endpoint@, "http://"@, after);
        assert(endpoint@.take(7) =~= "http://"@);
    }
}

/// A peer is never given no time at all, and a spool or a successor is refused only where it is
/// not serving, or not named.
pub proof fn law_small_checks(
    given: u64,
    grace: u64,
    serving: bool,
    spool: Result<(), String>,
    named: &str,
    successor: Result<(), String>,
)
    requires
        call_ensures(peer_grace, (given,), grace),
        call_ensures(check_spool, (serving,), spool),
        call_ensures(check_successor, (named,), successor),
    ensures
        grace >= 1 && grace >= given && (given >= 1 ==> grace == given) && grace <= given + 1,
        spool is Ok <==> serving,
        successor is Ok <==> !all_space(named@),
{
    law_trimming_takes_outer_whitespace(named@);
}

/// The checks of the commands, over whole calls: each lets through its own configs and no other.
pub proof fn law_checks_over_whole_calls(
    config: ScriptureConfig,
    token: Option<&str>,
    holds: bool,
    outcome: VerseOutcome,
    disposition: &str,
    serve: Result<(), String>,
    run: Result<(), String>,
    standby: Result<(), String>,
    replace: Result<(), String>,
)
    requires
        call_ensures(check_serve, (&config,), serve),
        call_ensures(check_scribe_run, (&config,), run),
        call_ensures(check_standby, (&config, token), standby),
        call_ensures(check_replace, (holds, outcome, disposition), replace),
    ensures
        ({
            let several = config.scribe is Some && config.scribe->0.assignments@.len() > 0;
            let authority = config.ha.mode == HaMode::ServingAuthority;
            &&& serve is Ok <==> !several && !authority
            &&& run is Ok <==> !several && authority
            &&& standby is Ok <==> config.admin.bind is Some && token is Some && !all_space(
                token->0@,
            )
            &&& replace is Ok <==> !holds && outcome == VerseOutcome::RecoveryRequired
        }),
{
    law_commands_have_their_configs(config);
    law_standbys_need_address_and_token(config, token);
}

/// A node is checked over a whole call: its identity, its route, its store profile.
pub proof fn law_typed_checks_over_whole_calls(
    config: ScriptureConfig,
    refusals: TokenRefusals,
    checked: Result<(), ConfigError>,
    activation: Activation,
    node: NodeWords<'_>,
    successor: &str,
    report: Result<String, String>,
)
    requires
        call_ensures(check_typed, (&config, &refusals), checked),
        call_ensures(replace_report, (activation, &node, successor), report),
        !climbs(config.store.prefix@),
    ensures
        checked is Ok ==> sixteen_ascii(config.node.owner_id@) && accepted(
            refusals.endpoints@,
            config.node.advertise@,
        ) && refusals.backend is None,
        config.problem(refusals) is None ==> checked is Ok,
        report is Ok <==> activation is Reached && activation->outcome == VerseOutcome::Serving,
{
    law_sound_nodes_run(config, refusals);
    if config.problem(refusals) is None {
        law_valid_configs_are_runnable(config, refusals);
    }
}

/// What is said of a deprecated path and of a producer that is turned away names them.
pub proof fn law_notices_name_what_they_are_about(
    old_path: &str,
    other: &str,
    line: String,
    changed: String,
)
    requires
        call_ensures(compat_notice, (old_path,), line),
        call_ensures(compat_notice, (other,), changed),
    ensures
        differ_behind(
            line@,
            changed@,
            "scripture: note: `"@,
            old_path@,
            other@,
        ),
{
    let parts = seq![
        "scripture: note: `"@,
        old_path@,
        "` remains for compatibility; prefer `scripture scribe run --config …` for the normal fleet lifecycle"@,
    ];
    lemma_differ_in_parts(parts, 1, other@);
    assert(parts.update(1, other@) =~= seq![
        "scripture: note: `"@,
        other@,
        "` remains for compatibility; prefer `scripture scribe run --config …` for the normal fleet lifecycle"@,
    ]);
}

/// A producer that a standby turns away is named.
pub proof fn law_turned_away_producers_are_named(
    peer: &str,
    other: &str,
    line: String,
    changed: String,
)
    requires
        call_ensures(standby_refuses, (peer,), line),
        call_ensures(standby_refuses, (other,), changed),
    ensures
        differ_behind(
            line@,
            changed@,
            "scripture: refused producer from "@,
            peer@,
            other@,
        ),
{
    let parts = seq![
        "scripture: refused producer from "@,
        peer@,
        ": standby (not effective writer)"@,
    ];
    lemma_differ_in_parts(parts, 1, other@);
    assert(parts.update(1, other@) =~= seq![
        "scripture: refused producer from "@,
        other@,
        ": standby (not effective writer)"@,
    ]);
}

} // verus!
