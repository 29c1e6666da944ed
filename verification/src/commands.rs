//! The `scripture` command line.
//!
//! Which command is asked for, with which options, and what is said where the request
//! makes no sense. Secrets, bootstrap ids and recovery flags are refused on commands
//! that must not take them.
use crate::args::{
    arguments_view, choice_flag, help_flag, lemma_scan_keeps_places, no_values, number_at,
    number_at_or, number_flag, number_or, number_value, on_at, is_on, positive_flag, refused_flag,
    rule_index, scan, scan_of, scanned, size_at_or, size_flag, size_or, switch_flag, text_at, text_flag, text_value,
    values_view, Rule, Scan, ScanView, ValueView,
};
use crate::consume::{ConsumeOptions, OutputFormat, DEFAULT_SECONDS};
use crate::consume_lab::ConsumeOptions as LabConsumeOptions;
use crate::doctor::DoctorFormat;
use crate::produce_lab::LabOptions;
use crate::text::{optional, quote, quoted, same_text};
use vstd::prelude::*;

verus! {

/// Help for the whole command.
pub const HELP: &'static str = "\
Scripture — durable journal process (ha_claim=false)

Usage:
  scripture validate --config /path/to/scripture.yaml
  scripture scribe run --config /path/to/scripture.yaml [--peer-grace-ms N]
  scripture bootstrap --config /path/to/scripture.yaml --loglet-id <ID>
  scripture bootstrap --config /path/to/scripture.yaml [--initial-term N]   # compat
  scripture replace --config /path/to/scripture.yaml --successor-loglet-id <ID>
  scripture promote --config /path/to/scripture.yaml --candidate-term <N>   # compat
  scripture promote --config multi.yaml --assignment <ID> --candidate-term <N>
  scripture serve --config /path/to/scripture.yaml
  scripture directory --config /path/to/scripture.yaml [--canon ID --verse ID]
  scripture doctor --config /path/to/scripture.yaml [--format human|json]
  scripture consume --config /path/to/scripture.yaml --canon ID --verse ID \\
      [--from N] [--until-records N] [--seconds N] [--format text|jsonl] [--no-follow]
  scripture produce-lab --config PATH --canon ID --verse ID [lab options]
  scripture consume-lab --config PATH --canon ID --verse ID [lab options]
validate:  load + validate non-secret YAML; no network; no ownership.
scribe run: normal fleet lifecycle for one Canon/Verse. Same command on every
           member. Observes the durable root; bootstraps if empty; joins as a
           healthy non-writer when another owner Serves; recovers via root CAS
           only after peer unreachability (liveness arms, never grants).
bootstrap: compatibility Empty→Serving / legacy one-shot. Prefer `scribe run`.
replace:   legacy empty open-generation activation; exits; never opens ingress.
promote:   compatibility Expected→Serving. Prefer `scribe run` for fleets.
serve:     long-running legacy Canon path; refused under Serving-Authority mode
           (writables cannot cross process exit — use scribe run).
directory: list fleet-directory records (decision 0014); optional (canon, verse)
           ranking. Discovery only — never authority.
doctor:    durability/availability capability report for the four failure
           boundaries (Canon history, producer continuity, Scribe availability,
           failure-domain durability). Availability is observed heartbeats from
           the fleet directory, not a replica count.
consume:   read-only debug/demo consumer. Prints logical Scripture records from
           a configured Canon/Verse to stdout. Owns no checkpoint; not a durable
           consumer product. Membership is re-observed while following.
           `consume-lab` remains a throughput/stall lab instrument.
produce-lab / consume-lab:
           lab load and continuity instruments (not product subscription APIs).
HA YAML (portable; no secrets):
  ha:
    mode: serving-authority
Fleet members share the Verse store root and differ by node.owner_id / advertise /
listener.bind. Start each with: scripture scribe run --config member.yaml
Multi-assignment YAML (requires Serving Authority; omits top-level listener/verse):
  scribe:
    assignments:
      - id: example
        canon: \"................\"
        verse: \"................\"
        cohort_id: \"................\"
        writer_id: \"................\"
        posture: bootstrap-if-empty   # compatibility; prefer scribe run per Verse
        advertise: \"tcp://10.0.0.1:9000\"
        ingress:
          bind: \"10.0.0.1:9000\"
Authority is membership + Scripture fence on the Holylog VirtualLog root only.
There is no separate ServingAuthorityStore / CRD backend.

Non-secret settings come from the YAML file. Object-store credentials come from
the process environment only:
  rustfs: RUSTFS_ACCESS_KEY / RUSTFS_SECRET_KEY
          (or AWS_ACCESS_KEY_ID / AWS_SECRET_ACCESS_KEY)
  r2:     R2_ACCESS_KEY_ID / R2_SECRET_ACCESS_KEY
Never from ConfigMap, argv, or logs.

Probes (when metrics.status_bind is set):
  /livez   process alive
  /readyz  HTTP 200 only when Serving
  /status  disposition report

This command does not claim unbounded distributed liveness, a public producer
protocol, or Decision 0012 recovery. Peer-grace recovery is a bounded arm.";

/// Help for `scribe run`.
pub const SCRIBE_RUN_HELP: &'static str = "\
scripture scribe run — normal same-Verse fleet lifecycle (no promote/standby)

Usage:
  scripture scribe run --config PATH [--peer-grace-ms N] [--initial-term N]

Every fleet member starts with the same command. The process observes the durable
VirtualLog root, bootstraps when empty, joins as a healthy non-writer when another
owner lawfully Serves, and attempts a lawful successor CAS only after the peer
advertise endpoint looks unreachable for --peer-grace-ms.

Liveness arms recovery; the conditional root remains the authority boundary.
Prefer this over `bootstrap` / `promote` for Serving-Authority fleets.";

/// Help for `consume`.
pub const CONSUME_HELP: &'static str = "\
scripture consume — read-only debug/demo consumer (no checkpoint / not durable)

Usage:
  scripture consume --config PATH --canon ID --verse ID [options]

Required:
  --config PATH          Multi-assignment Scripture YAML
  --canon ID             Canon (journal) id
  --verse ID             Verse id

Options:
  --from OFFSET          First VirtualLog entry position (default 0)
  --until-records N      Exit after printing N logical records (default: unbounded)
  --seconds N            Follow deadline in seconds (default 30; 0 rejected)
  --format text|jsonl    Record output format (default text)
  --no-follow            Read the current contiguous tail once and exit

Examples:
  scripture consume --config scripture.yaml --canon demo --verse events \\
    --from 0 --until-records 5 --no-follow
  scripture consume --config scripture.yaml --canon demo --verse events \\
    --format jsonl --seconds 30

This command does not own consumer progress, acknowledgements, trimming, or HA
subscription semantics. Membership is re-observed while following.";

/// What is said of flags that `bootstrap` must not take.
pub const BOOTSTRAP_REFUSAL: &'static str =
    "secrets and recovery flags must not be passed on argv; use process environment / accepted recovery surface";

/// What is said of flags that `replace` must not take.
pub const REPLACE_REFUSAL: &'static str =
    "secrets, bootstrap ids, and removed recovery flags must not be passed on replace argv";

/// What is said of flags that `promote` must not take.
pub const PROMOTE_REFUSAL: &'static str =
    "secrets and loglet ids must not be passed on promote argv";

/// What a command line comes to.
#[derive(Debug, PartialEq, Eq)]
pub enum Parsed<T> {
    Help,
    Refused(String),
    Run(T),
}

/// Whether a request is refused with a message.
pub open spec fn is_refused<T>(parsed: Parsed<T>, message: Seq<char>) -> bool {
    parsed matches Parsed::Refused(said) && said@ == message
}

/// What is said of flags that a command with nothing but a config must not take.
pub open spec fn config_only_refusal(command: Seq<char>) -> Seq<char> {
    command + " does not accept secrets, bootstrap ids, or recovery flags on argv"@
}

/// The flags of a command with nothing but a config.
pub open spec fn config_only_flags<'a>(refusal: &'a str) -> Seq<Rule<'a>> {
    seq![
        text_flag("--config", "--config requires a value"),
        refused_flag("--access-key", refusal),
        refused_flag("--secret-key", refusal),
        refused_flag("--loglet-id", refusal),
        refused_flag("--successor-loglet-id", refusal),
        refused_flag("--takeover-successor", refusal),
        help_flag("--help"),
        help_flag("-h"),
    ]
}

fn config_only_rules<'a>(refusal: &'a str) -> (rules: Vec<Rule<'a>>)
    ensures
        rules@ == config_only_flags(refusal),
{
    let rules = vec![
        text_flag("--config", "--config requires a value"),
        refused_flag("--access-key", refusal),
        refused_flag("--secret-key", refusal),
        refused_flag("--loglet-id", refusal),
        refused_flag("--successor-loglet-id", refusal),
        refused_flag("--takeover-successor", refusal),
        help_flag("--help"),
        help_flag("-h"),
    ];
    assert(rules@ =~= config_only_flags(refusal));
    rules
}

/// Whether the arguments of a command with nothing but a config come to the config.
pub open spec fn reads_config_only(
    parsed: Parsed<String>,
    scan: ScanView,
    command: Seq<char>,
) -> bool {
    match scan {
        ScanView::Help => parsed is Help,
        ScanView::Refused(message) => is_refused(parsed, message),
        ScanView::Given(values) => match text_value(values, 0) {
            None => is_refused(parsed, command + " requires --config PATH"@),
            Some(config) => parsed matches Parsed::Run(path) && path@ == config,
        },
    }
}

/// Parses the arguments of a command with nothing but a config.
pub fn parse_config_only_args(arguments: &[String], command: &str) -> (parsed: Parsed<String>)
    ensures
        exists|refusal: &str|
            refusal@ == config_only_refusal(command@) && reads_config_only(
                parsed,
                scan_of(
                    arguments_view(arguments@),
                    #[trigger] config_only_flags(refusal),
                    "unknown argument: "@,
                ),
                command@,
            ),
{
    let mut refusal = String::new();
    refusal.append(command);
    refusal.append(" does not accept secrets, bootstrap ids, or recovery flags on argv");
    assert(refusal@ =~= config_only_refusal(command@));
    let said = refusal.as_str();
    let rules = config_only_rules(said);
    proof {
        lemma_scan_keeps_places(
            arguments_view(arguments@),
            config_only_flags(said),
            "unknown argument: "@,
            no_values(config_only_flags(said).len()),
        );
    }
    let ghost whole = scan_of(
        arguments_view(arguments@),
        config_only_flags(said),
        "unknown argument: "@,
    );
    match scan(arguments, &rules, "unknown argument: ") {
        Scan::Help => {
            let parsed = Parsed::Help;
            assert(reads_config_only(parsed, whole, command@));
            parsed
        },
        Scan::Refused(message) => {
            let parsed = Parsed::Refused(message);
            assert(reads_config_only(parsed, whole, command@));
            parsed
        },
        Scan::Given(values) => {
            assert(values_view(values@).len() == values@.len());
            match text_at(&values, 0) {
                Some(config) => {
                    let parsed = Parsed::Run(config);
                    assert(reads_config_only(parsed, whole, command@));
                    parsed
                },
                None => {
                    let mut message = String::new();
                    message.append(command);
                    message.append(" requires --config PATH");
                    assert(message@ =~= command@ + " requires --config PATH"@);
                    let parsed = Parsed::Refused(message);
                    assert(reads_config_only(parsed, whole, command@));
                    parsed
                },
            }
        },
    }
}

/// A request to bootstrap.
#[derive(Debug, PartialEq, Eq)]
pub struct BootstrapRequest {
    pub config: String,
    pub loglet_id: Option<String>,
    pub initial_term: u64,
}

/// The flags of `bootstrap`.
pub open spec fn bootstrap_flags() -> Seq<Rule<'static>> {
    seq![
        text_flag("--config", "--config requires a value"),
        text_flag("--loglet-id", "--loglet-id requires a value"),
        positive_flag(
            "--initial-term",
            "--initial-term requires a value",
            "--initial-term must be a positive integer: ",
            "--initial-term must be non-zero",
        ),
        refused_flag("--access-key", BOOTSTRAP_REFUSAL),
        refused_flag("--secret-key", BOOTSTRAP_REFUSAL),
        refused_flag("--successor-loglet-id", BOOTSTRAP_REFUSAL),
        refused_flag("--takeover-successor", BOOTSTRAP_REFUSAL),
        help_flag("--help"),
        help_flag("-h"),
    ]
}

fn bootstrap_rules() -> (rules: Vec<Rule<'static>>)
    ensures
        rules@ == bootstrap_flags(),
{
    let rules = vec![
        text_flag("--config", "--config requires a value"),
        text_flag("--loglet-id", "--loglet-id requires a value"),
        positive_flag(
            "--initial-term",
            "--initial-term requires a value",
            "--initial-term must be a positive integer: ",
            "--initial-term must be non-zero",
        ),
        refused_flag("--access-key", BOOTSTRAP_REFUSAL),
        refused_flag("--secret-key", BOOTSTRAP_REFUSAL),
        refused_flag("--successor-loglet-id", BOOTSTRAP_REFUSAL),
        refused_flag("--takeover-successor", BOOTSTRAP_REFUSAL),
        help_flag("--help"),
        help_flag("-h"),
    ];
    assert(rules@ =~= bootstrap_flags());
    rules
}

/// Whether `bootstrap` arguments that were passed over come to the request.
pub open spec fn reads_bootstrap(parsed: Parsed<BootstrapRequest>, scan: ScanView) -> bool {
    match scan {
        ScanView::Help => parsed is Help,
        ScanView::Refused(message) => is_refused(parsed, message),
        ScanView::Given(values) => match text_value(values, 0) {
            None => is_refused(parsed, "bootstrap requires --config PATH"@),
            Some(config) => parsed matches Parsed::Run(request) && request.config@ == config
                && optional(request.loglet_id) == text_value(values, 1) && request.initial_term
                == number_or(values, 2, 1),
        },
    }
}

/// Parses the arguments of `bootstrap`.
pub fn parse_bootstrap_args(arguments: &[String]) -> (parsed: Parsed<BootstrapRequest>)
    ensures
        reads_bootstrap(
            parsed,
            scan_of(arguments_view(arguments@), bootstrap_flags(), "unknown argument: "@),
        ),
{
    let rules = bootstrap_rules();
    proof {
        lemma_scan_keeps_places(
            arguments_view(arguments@),
            bootstrap_flags(),
            "unknown argument: "@,
            no_values(bootstrap_flags().len()),
        );
    }
    let values = match scan(arguments, &rules, "unknown argument: ") {
        Scan::Help => {
            return Parsed::Help;
        },
        Scan::Refused(message) => {
            return Parsed::Refused(message);
        },
        Scan::Given(values) => values,
    };
    assert(values_view(values@).len() == values@.len());
    let config = match text_at(&values, 0) {
        Some(config) => config,
        None => {
            return Parsed::Refused("bootstrap requires --config PATH".to_owned());
        },
    };
    Parsed::Run(
        BootstrapRequest {
            config,
            loglet_id: text_at(&values, 1),
            initial_term: number_at_or(&values, 2, 1),
        },
    )
}

/// A request to replace.
#[derive(Debug, PartialEq, Eq)]
pub struct ReplaceRequest {
    pub config: String,
    pub successor: String,
}

/// The flags of `replace`.
pub open spec fn replace_flags() -> Seq<Rule<'static>> {
    seq![
        text_flag("--config", "--config requires a value"),
        text_flag("--successor-loglet-id", "--successor-loglet-id requires a value"),
        refused_flag("--access-key", REPLACE_REFUSAL),
        refused_flag("--secret-key", REPLACE_REFUSAL),
        refused_flag("--loglet-id", REPLACE_REFUSAL),
        refused_flag("--takeover-successor", REPLACE_REFUSAL),
        help_flag("--help"),
        help_flag("-h"),
    ]
}

fn replace_rules() -> (rules: Vec<Rule<'static>>)
    ensures
        rules@ == replace_flags(),
{
    let rules = vec![
        text_flag("--config", "--config requires a value"),
        text_flag("--successor-loglet-id", "--successor-loglet-id requires a value"),
        refused_flag("--access-key", REPLACE_REFUSAL),
        refused_flag("--secret-key", REPLACE_REFUSAL),
        refused_flag("--loglet-id", REPLACE_REFUSAL),
        refused_flag("--takeover-successor", REPLACE_REFUSAL),
        help_flag("--help"),
        help_flag("-h"),
    ];
    assert(rules@ =~= replace_flags());
    rules
}

/// Whether `replace` arguments that were passed over come to the request.
pub open spec fn reads_replace(parsed: Parsed<ReplaceRequest>, scan: ScanView) -> bool {
    match scan {
        ScanView::Help => parsed is Help,
        ScanView::Refused(message) => is_refused(parsed, message),
        ScanView::Given(values) => match (
            text_value(values, 0),
            text_value(values, 1),
        ) {
            (None, _) => is_refused(parsed, "replace requires --config PATH"@),
            (Some(_), None) => is_refused(parsed, "replace requires --successor-loglet-id ID"@),
            (Some(config), Some(successor)) => parsed matches Parsed::Run(request)
                && request.config@ == config && request.successor@ == successor,
        },
    }
}

/// Parses the arguments of `replace`.
pub fn parse_replace_args(arguments: &[String]) -> (parsed: Parsed<ReplaceRequest>)
    ensures
        reads_replace(
            parsed,
            scan_of(arguments_view(arguments@), replace_flags(), "unknown argument: "@),
        ),
{
    let rules = replace_rules();
    proof {
        lemma_scan_keeps_places(
            arguments_view(arguments@),
            replace_flags(),
            "unknown argument: "@,
            no_values(replace_flags().len()),
        );
    }
    let values = match scan(arguments, &rules, "unknown argument: ") {
        Scan::Help => {
            return Parsed::Help;
        },
        Scan::Refused(message) => {
            return Parsed::Refused(message);
        },
        Scan::Given(values) => values,
    };
    assert(values_view(values@).len() == values@.len());
    let config = match text_at(&values, 0) {
        Some(config) => config,
        None => {
            return Parsed::Refused("replace requires --config PATH".to_owned());
        },
    };
    let successor = match text_at(&values, 1) {
        Some(successor) => successor,
        None => {
            return Parsed::Refused("replace requires --successor-loglet-id ID".to_owned());
        },
    };
    Parsed::Run(ReplaceRequest { config, successor })
}

/// A request to promote.
#[derive(Debug, PartialEq, Eq)]
pub struct PromoteCommand {
    pub config: String,
    pub candidate_term: u64,
    pub assignment: Option<String>,
}

/// The flags of `promote`.
pub open spec fn promote_flags() -> Seq<Rule<'static>> {
    seq![
        text_flag("--config", "--config requires a value"),
        number_flag(
            "--candidate-term",
            "--candidate-term requires a value",
            "--candidate-term must be a positive integer: ",
        ),
        text_flag("--assignment", "--assignment requires a value"),
        refused_flag("--access-key", PROMOTE_REFUSAL),
        refused_flag("--secret-key", PROMOTE_REFUSAL),
        refused_flag("--loglet-id", PROMOTE_REFUSAL),
        refused_flag("--successor-loglet-id", PROMOTE_REFUSAL),
        help_flag("--help"),
        help_flag("-h"),
    ]
}

fn promote_rules() -> (rules: Vec<Rule<'static>>)
    ensures
        rules@ == promote_flags(),
{
    let rules = vec![
        text_flag("--config", "--config requires a value"),
        number_flag(
            "--candidate-term",
            "--candidate-term requires a value",
            "--candidate-term must be a positive integer: ",
        ),
        text_flag("--assignment", "--assignment requires a value"),
        refused_flag("--access-key", PROMOTE_REFUSAL),
        refused_flag("--secret-key", PROMOTE_REFUSAL),
        refused_flag("--loglet-id", PROMOTE_REFUSAL),
        refused_flag("--successor-loglet-id", PROMOTE_REFUSAL),
        help_flag("--help"),
        help_flag("-h"),
    ];
    assert(rules@ =~= promote_flags());
    rules
}

/// Whether `promote` arguments that were passed over come to the request.
pub open spec fn reads_promote(parsed: Parsed<PromoteCommand>, scan: ScanView) -> bool {
    match scan {
        ScanView::Help => parsed is Help,
        ScanView::Refused(message) => is_refused(parsed, message),
        ScanView::Given(values) => match (
            text_value(values, 0),
            number_value(values, 1),
        ) {
            (None, _) => is_refused(parsed, "promote requires --config PATH"@),
            (Some(_), None) => is_refused(parsed, "promote requires --candidate-term N"@),
            (Some(config), Some(term)) => parsed matches Parsed::Run(request) && request.config@
                == config && request.candidate_term == term && optional(request.assignment)
                == text_value(values, 2),
        },
    }
}

/// Parses the arguments of `promote`.
pub fn parse_promote_args(arguments: &[String]) -> (parsed: Parsed<PromoteCommand>)
    ensures
        reads_promote(
            parsed,
            scan_of(arguments_view(arguments@), promote_flags(), "unknown argument: "@),
        ),
{
    let rules = promote_rules();
    proof {
        lemma_scan_keeps_places(
            arguments_view(arguments@),
            promote_flags(),
            "unknown argument: "@,
            no_values(promote_flags().len()),
        );
    }
    let values = match scan(arguments, &rules, "unknown argument: ") {
        Scan::Help => {
            return Parsed::Help;
        },
        Scan::Refused(message) => {
            return Parsed::Refused(message);
        },
        Scan::Given(values) => values,
    };
    assert(values_view(values@).len() == values@.len());
    let config = match text_at(&values, 0) {
        Some(config) => config,
        None => {
            return Parsed::Refused("promote requires --config PATH".to_owned());
        },
    };
    let candidate_term: u64 = match number_at(&values, 1) {
        Some(term) => term,
        None => {
            return Parsed::Refused("promote requires --candidate-term N".to_owned());
        },
    };
    Parsed::Run(PromoteCommand { config, candidate_term, assignment: text_at(&values, 2) })
}

/// A request to run a Scribe.
#[derive(Debug, PartialEq, Eq)]
pub struct ScribeRunRequest {
    pub config: String,
    pub peer_grace_ms: u64,
    pub initial_term: u64,
}

/// The flags of `scribe run`.
pub open spec fn scribe_run_flags() -> Seq<Rule<'static>> {
    seq![
        text_flag("--config", "--config requires a path"),
        positive_flag(
            "--peer-grace-ms",
            "--peer-grace-ms requires N",
            "--peer-grace-ms must be an integer: ",
            "--peer-grace-ms must be non-zero",
        ),
        positive_flag(
            "--initial-term",
            "--initial-term requires N",
            "--initial-term must be an integer: ",
            "--initial-term must be non-zero",
        ),
        help_flag("--help"),
        help_flag("-h"),
    ]
}

fn scribe_run_rules() -> (rules: Vec<Rule<'static>>)
    ensures
        rules@ == scribe_run_flags(),
{
    let rules = vec![
        text_flag("--config", "--config requires a path"),
        positive_flag(
            "--peer-grace-ms",
            "--peer-grace-ms requires N",
            "--peer-grace-ms must be an integer: ",
            "--peer-grace-ms must be non-zero",
        ),
        positive_flag(
            "--initial-term",
            "--initial-term requires N",
            "--initial-term must be an integer: ",
            "--initial-term must be non-zero",
        ),
        help_flag("--help"),
        help_flag("-h"),
    ];
    assert(rules@ =~= scribe_run_flags());
    rules
}

/// Whether `scribe run` arguments that were passed over come to the request.
pub open spec fn reads_scribe_run(parsed: Parsed<ScribeRunRequest>, scan: ScanView) -> bool {
    match scan {
        ScanView::Help => parsed is Help,
        ScanView::Refused(message) => is_refused(parsed, message),
        ScanView::Given(values) => match text_value(values, 0) {
            None => is_refused(parsed, "scribe run requires --config"@),
            Some(config) => parsed matches Parsed::Run(request) && request.config@ == config
                && request.peer_grace_ms == number_or(values, 1, 2_000) && request.initial_term
                == number_or(values, 2, 1),
        },
    }
}

/// Parses the arguments of `scribe run`.
pub fn parse_scribe_run_args(arguments: &[String]) -> (parsed: Parsed<ScribeRunRequest>)
    ensures
        reads_scribe_run(
            parsed,
            scan_of(arguments_view(arguments@), scribe_run_flags(), "scribe run: unexpected argument "@),
        ),
{
    let rules = scribe_run_rules();
    proof {
        lemma_scan_keeps_places(
            arguments_view(arguments@),
            scribe_run_flags(),
            "scribe run: unexpected argument "@,
            no_values(scribe_run_flags().len()),
        );
    }
    let values = match scan(arguments, &rules, "scribe run: unexpected argument ") {
        Scan::Help => {
            return Parsed::Help;
        },
        Scan::Refused(message) => {
            return Parsed::Refused(message);
        },
        Scan::Given(values) => values,
    };
    assert(values_view(values@).len() == values@.len());
    let config = match text_at(&values, 0) {
        Some(config) => config,
        None => {
            return Parsed::Refused("scribe run requires --config".to_owned());
        },
    };
    Parsed::Run(
        ScribeRunRequest {
            config,
            peer_grace_ms: number_at_or(&values, 1, 2_000),
            initial_term: number_at_or(&values, 2, 1),
        },
    )
}

/// A request to list the directory.
#[derive(Debug, PartialEq, Eq)]
pub struct DirectoryRequest {
    pub config: String,
    pub canon: Option<String>,
    pub verse: Option<String>,
}

/// The flags of `directory`.
pub open spec fn directory_flags() -> Seq<Rule<'static>> {
    seq![
        text_flag("--config", "--config requires a path"),
        text_flag("--canon", "--canon requires an id"),
        text_flag("--verse", "--verse requires an id"),
        help_flag("--help"),
        help_flag("-h"),
    ]
}

fn directory_rules() -> (rules: Vec<Rule<'static>>)
    ensures
        rules@ == directory_flags(),
{
    let rules = vec![
        text_flag("--config", "--config requires a path"),
        text_flag("--canon", "--canon requires an id"),
        text_flag("--verse", "--verse requires an id"),
        help_flag("--help"),
        help_flag("-h"),
    ];
    assert(rules@ =~= directory_flags());
    rules
}

/// Whether `directory` arguments that were passed over come to the request.
pub open spec fn reads_directory(parsed: Parsed<DirectoryRequest>, scan: ScanView) -> bool {
    match scan {
        ScanView::Help => parsed is Help,
        ScanView::Refused(message) => is_refused(parsed, message),
        ScanView::Given(values) => match text_value(values, 0) {
            None => is_refused(parsed, "directory requires --config"@),
            Some(config) => if text_value(values, 1) is Some != text_value(values, 2) is Some {
                is_refused(parsed, "directory: --canon and --verse must be given together"@)
            } else {
                parsed matches Parsed::Run(request) && request.config@ == config && optional(
                    request.canon,
                ) == text_value(values, 1) && optional(request.verse) == text_value(values, 2)
            },
        },
    }
}

/// Parses the arguments of `directory`.
pub fn parse_directory_args(arguments: &[String]) -> (parsed: Parsed<DirectoryRequest>)
    ensures
        reads_directory(
            parsed,
            scan_of(arguments_view(arguments@), directory_flags(), "directory: unexpected argument "@),
        ),
{
    let rules = directory_rules();
    proof {
        lemma_scan_keeps_places(
            arguments_view(arguments@),
            directory_flags(),
            "directory: unexpected argument "@,
            no_values(directory_flags().len()),
        );
    }
    let values = match scan(arguments, &rules, "directory: unexpected argument ") {
        Scan::Help => {
            return Parsed::Help;
        },
        Scan::Refused(message) => {
            return Parsed::Refused(message);
        },
        Scan::Given(values) => values,
    };
    assert(values_view(values@).len() == values@.len());
    let config = match text_at(&values, 0) {
        Some(config) => config,
        None => {
            return Parsed::Refused("directory requires --config".to_owned());
        },
    };
    let canon = text_at(&values, 1);
    let verse = text_at(&values, 2);
    if canon.is_some() != verse.is_some() {
        return Parsed::Refused(
            "directory: --canon and --verse must be given together".to_owned(),
        );
    }
    Parsed::Run(DirectoryRequest { config, canon, verse })
}

/// A request for the capability report.
#[derive(Debug, PartialEq, Eq)]
pub struct DoctorRequest {
    pub config: String,
    pub format: DoctorFormat,
}

/// The flags of `doctor`.
pub open spec fn doctor_flags() -> Seq<Rule<'static>> {
    seq![
        text_flag("--config", "--config requires a path"),
        choice_flag(
            "--format",
            "--format requires human|json",
            "human",
            "json",
            "doctor: unknown --format ",
            " (expected human|json)",
        ),
        help_flag("--help"),
        help_flag("-h"),
    ]
}

fn doctor_rules() -> (rules: Vec<Rule<'static>>)
    ensures
        rules@ == doctor_flags(),
{
    let rules = vec![
        text_flag("--config", "--config requires a path"),
        choice_flag(
            "--format",
            "--format requires human|json",
            "human",
            "json",
            "doctor: unknown --format ",
            " (expected human|json)",
        ),
        help_flag("--help"),
        help_flag("-h"),
    ];
    assert(rules@ =~= doctor_flags());
    rules
}

/// Whether `doctor` arguments that were passed over come to the request.
pub open spec fn reads_doctor(parsed: Parsed<DoctorRequest>, scan: ScanView) -> bool {
    match scan {
        ScanView::Help => parsed is Help,
        ScanView::Refused(message) => is_refused(parsed, message),
        ScanView::Given(values) => match text_value(values, 0) {
            None => is_refused(parsed, "doctor requires --config"@),
            Some(config) => parsed matches Parsed::Run(request) && request.config@ == config
                && request.format == (if text_value(values, 1) == Some("json"@) {
                DoctorFormat::Json
            } else {
                DoctorFormat::Human
            }),
        },
    }
}

/// Parses the arguments of `doctor`.
pub fn parse_doctor_args(arguments: &[String]) -> (parsed: Parsed<DoctorRequest>)
    ensures
        reads_doctor(
            parsed,
            scan_of(arguments_view(arguments@), doctor_flags(), "doctor: unexpected argument "@),
        ),
{
    let rules = doctor_rules();
    proof {
        lemma_scan_keeps_places(
            arguments_view(arguments@),
            doctor_flags(),
            "doctor: unexpected argument "@,
            no_values(doctor_flags().len()),
        );
    }
    let values = match scan(arguments, &rules, "doctor: unexpected argument ") {
        Scan::Help => {
            return Parsed::Help;
        },
        Scan::Refused(message) => {
            return Parsed::Refused(message);
        },
        Scan::Given(values) => values,
    };
    assert(values_view(values@).len() == values@.len());
    let config = match text_at(&values, 0) {
        Some(config) => config,
        None => {
            return Parsed::Refused("doctor requires --config".to_owned());
        },
    };
    let format = match text_at(&values, 1) {
        Some(format) => if same_text(format.as_str(), "json") {
            DoctorFormat::Json
        } else {
            DoctorFormat::Human
        },
        None => DoctorFormat::Human,
    };
    Parsed::Run(DoctorRequest { config, format })
}

/// A request for a producing lab run.
#[derive(Debug, PartialEq, Eq)]
pub struct ProduceLabRequest {
    pub config: String,
    pub options: LabOptions,
}

/// The flags of `produce-lab`.
pub open spec fn produce_lab_flags() -> Seq<Rule<'static>> {
    seq![
        text_flag("--config", "--config requires a path"),
        text_flag("--canon", "--canon requires an id"),
        text_flag("--verse", "--verse requires an id"),
        size_flag("--workers", "--workers requires N", ""),
        number_flag("--per-worker", "--per-worker requires N", ""),
        size_flag("--payload-bytes", "--payload-bytes requires N", ""),
        size_flag("--records-per-submission", "--records-per-submission requires N", ""),
        help_flag("--help"),
        help_flag("-h"),
    ]
}

fn produce_lab_rules() -> (rules: Vec<Rule<'static>>)
    ensures
        rules@ == produce_lab_flags(),
{
    let rules = vec![
        text_flag("--config", "--config requires a path"),
        text_flag("--canon", "--canon requires an id"),
        text_flag("--verse", "--verse requires an id"),
        size_flag("--workers", "--workers requires N", ""),
        number_flag("--per-worker", "--per-worker requires N", ""),
        size_flag("--payload-bytes", "--payload-bytes requires N", ""),
        size_flag("--records-per-submission", "--records-per-submission requires N", ""),
        help_flag("--help"),
        help_flag("-h"),
    ];
    assert(rules@ =~= produce_lab_flags());
    rules
}

/// Whether `produce-lab` arguments that were passed over come to the request.
pub open spec fn reads_produce_lab(parsed: Parsed<ProduceLabRequest>, scan: ScanView) -> bool {
    match scan {
        ScanView::Help => parsed is Help,
        ScanView::Refused(message) => is_refused(parsed, message),
        ScanView::Given(values) => match (
            text_value(values, 0),
            text_value(values, 1),
            text_value(values, 2),
        ) {
            (None, _, _) => is_refused(parsed, "produce-lab requires --config"@),
            (Some(_), None, _) => is_refused(parsed, "produce-lab requires --canon"@),
            (Some(_), Some(_), None) => is_refused(parsed, "produce-lab requires --verse"@),
            (Some(config), Some(canon), Some(verse)) => parsed matches Parsed::Run(request)
                && request.config@ == config && request.options.canon@ == canon
                && request.options.verse@ == verse && request.options.workers == size_or(
                values,
                3,
                3,
            ) && request.options.per_worker == number_or(values, 4, 200)
                && request.options.payload_bytes == size_or(values, 5, 64)
                && request.options.records_per_submission == size_or(values, 6, 1),
        },
    }
}

/// Parses the arguments of `produce-lab`.
pub fn parse_produce_lab_args(arguments: &[String]) -> (parsed: Parsed<ProduceLabRequest>)
    ensures
        reads_produce_lab(
            parsed,
            scan_of(arguments_view(arguments@), produce_lab_flags(), "produce-lab: unexpected argument "@),
        ),
{
    let rules = produce_lab_rules();
    proof {
        lemma_scan_keeps_places(
            arguments_view(arguments@),
            produce_lab_flags(),
            "produce-lab: unexpected argument "@,
            no_values(produce_lab_flags().len()),
        );
    }
    let values = match scan(arguments, &rules, "produce-lab: unexpected argument ") {
        Scan::Help => {
            return Parsed::Help;
        },
        Scan::Refused(message) => {
            return Parsed::Refused(message);
        },
        Scan::Given(values) => values,
    };
    assert(values_view(values@).len() == values@.len());
    let config = match text_at(&values, 0) {
        Some(config) => config,
        None => {
            return Parsed::Refused("produce-lab requires --config".to_owned());
        },
    };
    let canon = match text_at(&values, 1) {
        Some(canon) => canon,
        None => {
            return Parsed::Refused("produce-lab requires --canon".to_owned());
        },
    };
    let verse = match text_at(&values, 2) {
        Some(verse) => verse,
        None => {
            return Parsed::Refused("produce-lab requires --verse".to_owned());
        },
    };
    Parsed::Run(
        ProduceLabRequest {
            config,
            options: LabOptions {
                canon,
                verse,
                workers: size_at_or(&values, 3, 3),
                per_worker: number_at_or(&values, 4, 200),
                payload_bytes: size_at_or(&values, 5, 64),
                records_per_submission: size_at_or(&values, 6, 1),
            },
        },
    )
}

/// A request to consume.
#[derive(Debug, PartialEq, Eq)]
pub struct ConsumeRequest {
    pub config: String,
    pub options: ConsumeOptions,
}

/// The flags of `consume`.
pub open spec fn consume_flags() -> Seq<Rule<'static>> {
    seq![
        text_flag("--config", "--config requires a path"),
        text_flag("--canon", "--canon requires an id"),
        text_flag("--verse", "--verse requires an id"),
        number_flag("--from", "--from requires OFFSET", "--from must be an integer: "),
        number_flag(
            "--until-records",
            "--until-records requires N",
            "--until-records must be an integer: ",
        ),
        number_flag("--seconds", "--seconds requires N", "--seconds must be an integer: "),
        choice_flag(
            "--format",
            "--format requires text|jsonl",
            "text",
            "jsonl",
            "consume: unknown --format ",
            " (expected text|jsonl)",
        ),
        switch_flag("--no-follow"),
        help_flag("--help"),
        help_flag("-h"),
    ]
}

fn consume_rules() -> (rules: Vec<Rule<'static>>)
    ensures
        rules@ == consume_flags(),
{
    let rules = vec![
        text_flag("--config", "--config requires a path"),
        text_flag("--canon", "--canon requires an id"),
        text_flag("--verse", "--verse requires an id"),
        number_flag("--from", "--from requires OFFSET", "--from must be an integer: "),
        number_flag(
            "--until-records",
            "--until-records requires N",
            "--until-records must be an integer: ",
        ),
        number_flag("--seconds", "--seconds requires N", "--seconds must be an integer: "),
        choice_flag(
            "--format",
            "--format requires text|jsonl",
            "text",
            "jsonl",
            "consume: unknown --format ",
            " (expected text|jsonl)",
        ),
        switch_flag("--no-follow"),
        help_flag("--help"),
        help_flag("-h"),
    ];
    assert(rules@ =~= consume_flags());
    rules
}

/// Whether `consume` arguments that were passed over come to the request.
pub open spec fn reads_consume(parsed: Parsed<ConsumeRequest>, scan: ScanView) -> bool {
    match scan {
        ScanView::Help => parsed is Help,
        ScanView::Refused(message) => is_refused(parsed, message),
        ScanView::Given(values) => if !is_on(values, 7) && number_or(
            values,
            5,
            30,
        ) == 0 {
            is_refused(
                parsed,
                "consume: --seconds 0 is rejected (use --no-follow for a bounded one-shot)"@,
            )
        } else {
            match (text_value(values, 0), text_value(values, 1), text_value(values, 2)) {
                (None, _, _) => is_refused(parsed, "consume requires --config"@),
                (Some(_), None, _) => is_refused(parsed, "consume requires --canon"@),
                (Some(_), Some(_), None) => is_refused(parsed, "consume requires --verse"@),
                (Some(config), Some(canon), Some(verse)) => parsed matches Parsed::Run(request)
                    && request.config@ == config && request.options.canon@ == canon
                    && request.options.verse@ == verse && request.options.from == number_or(
                    values,
                    3,
                    0,
                ) && request.options.until_records == number_value(values, 4)
                    && request.options.seconds == number_or(values, 5, 30)
                    && request.options.format == (if text_value(values, 6) == Some("jsonl"@) {
                    OutputFormat::Jsonl
                } else {
                    OutputFormat::Text
                }) && request.options.no_follow == is_on(values, 7),
            }
        },
    }
}

/// Parses the arguments of `consume`.
pub fn parse_consume_args(arguments: &[String]) -> (parsed: Parsed<ConsumeRequest>)
    ensures
        reads_consume(
            parsed,
            scan_of(arguments_view(arguments@), consume_flags(), "consume: unexpected argument "@),
        ),
{
    let rules = consume_rules();
    proof {
        lemma_scan_keeps_places(
            arguments_view(arguments@),
            consume_flags(),
            "consume: unexpected argument "@,
            no_values(consume_flags().len()),
        );
    }
    let values = match scan(arguments, &rules, "consume: unexpected argument ") {
        Scan::Help => {
            return Parsed::Help;
        },
        Scan::Refused(message) => {
            return Parsed::Refused(message);
        },
        Scan::Given(values) => values,
    };
    assert(values_view(values@).len() == values@.len());
    let no_follow = on_at(&values, 7);
    let seconds: u64 = number_at_or(&values, 5, DEFAULT_SECONDS);
    if !no_follow && seconds == 0 {
        return Parsed::Refused(
            "consume: --seconds 0 is rejected (use --no-follow for a bounded one-shot)".to_owned(),
        );
    }
    let config = match text_at(&values, 0) {
        Some(config) => config,
        None => {
            return Parsed::Refused("consume requires --config".to_owned());
        },
    };
    let canon = match text_at(&values, 1) {
        Some(canon) => canon,
        None => {
            return Parsed::Refused("consume requires --canon".to_owned());
        },
    };
    let verse = match text_at(&values, 2) {
        Some(verse) => verse,
        None => {
            return Parsed::Refused("consume requires --verse".to_owned());
        },
    };
    let format = match text_at(&values, 6) {
        Some(format) => if same_text(format.as_str(), "jsonl") {
            OutputFormat::Jsonl
        } else {
            OutputFormat::Text
        },
        None => OutputFormat::Text,
    };
    Parsed::Run(
        ConsumeRequest {
            config,
            options: ConsumeOptions {
                canon,
                verse,
                from: number_at_or(&values, 3, 0),
                until_records: number_at(&values, 4),
                seconds,
                format,
                no_follow,
            },
        },
    )
}

/// A request for a consuming lab run.
#[derive(Debug, PartialEq, Eq)]
pub struct ConsumeLabRequest {
    pub config: String,
    pub options: LabConsumeOptions,
}

/// The flags of `consume-lab`.
pub open spec fn consume_lab_flags() -> Seq<Rule<'static>> {
    seq![
        text_flag("--config", "--config requires a path"),
        text_flag("--canon", "--canon requires an id"),
        text_flag("--verse", "--verse requires an id"),
        number_flag("--seconds", "--seconds requires N", ""),
        number_flag("--until-records", "--until-records requires N", ""),
        help_flag("--help"),
        help_flag("-h"),
    ]
}

fn consume_lab_rules() -> (rules: Vec<Rule<'static>>)
    ensures
        rules@ == consume_lab_flags(),
{
    let rules = vec![
        text_flag("--config", "--config requires a path"),
        text_flag("--canon", "--canon requires an id"),
        text_flag("--verse", "--verse requires an id"),
        number_flag("--seconds", "--seconds requires N", ""),
        number_flag("--until-records", "--until-records requires N", ""),
        help_flag("--help"),
        help_flag("-h"),
    ];
    assert(rules@ =~= consume_lab_flags());
    rules
}

/// Whether `consume-lab` arguments that were passed over come to the request.
pub open spec fn reads_consume_lab(parsed: Parsed<ConsumeLabRequest>, scan: ScanView) -> bool {
    match scan {
        ScanView::Help => parsed is Help,
        ScanView::Refused(message) => is_refused(parsed, message),
        ScanView::Given(values) => match (
            text_value(values, 0),
            text_value(values, 1),
            text_value(values, 2),
        ) {
            (None, _, _) => is_refused(parsed, "consume-lab requires --config"@),
            (Some(_), None, _) => is_refused(parsed, "consume-lab requires --canon"@),
            (Some(_), Some(_), None) => is_refused(parsed, "consume-lab requires --verse"@),
            (Some(config), Some(canon), Some(verse)) => parsed matches Parsed::Run(request)
                && request.config@ == config && request.options.canon@ == canon
                && request.options.verse@ == verse && request.options.seconds == number_or(
                values,
                3,
                60,
            ) && request.options.until_records == number_or(values, 4, 0),
        },
    }
}

/// Parses the arguments of `consume-lab`.
pub fn parse_consume_lab_args(arguments: &[String]) -> (parsed: Parsed<ConsumeLabRequest>)
    ensures
        reads_consume_lab(
            parsed,
            scan_of(arguments_view(arguments@), consume_lab_flags(), "consume-lab: unexpected argument "@),
        ),
{
    let rules = consume_lab_rules();
    proof {
        lemma_scan_keeps_places(
            arguments_view(arguments@),
            consume_lab_flags(),
            "consume-lab: unexpected argument "@,
            no_values(consume_lab_flags().len()),
        );
    }
    let values = match scan(arguments, &rules, "consume-lab: unexpected argument ") {
        Scan::Help => {
            return Parsed::Help;
        },
        Scan::Refused(message) => {
            return Parsed::Refused(message);
        },
        Scan::Given(values) => values,
    };
    assert(values_view(values@).len() == values@.len());
    let config = match text_at(&values, 0) {
        Some(config) => config,
        None => {
            return Parsed::Refused("consume-lab requires --config".to_owned());
        },
    };
    let canon = match text_at(&values, 1) {
        Some(canon) => canon,
        None => {
            return Parsed::Refused("consume-lab requires --canon".to_owned());
        },
    };
    let verse = match text_at(&values, 2) {
        Some(verse) => verse,
        None => {
            return Parsed::Refused("consume-lab requires --verse".to_owned());
        },
    };
    Parsed::Run(
        ConsumeLabRequest {
            config,
            options: LabConsumeOptions {
                canon,
                verse,
                seconds: number_at_or(&values, 3, 60),
                until_records: number_at_or(&values, 4, 0),
            },
        },
    )
}

// Dispatch.

/// What a command line asks for.
#[derive(Debug, PartialEq, Eq)]
pub enum Request {
    /// No command: help is shown and the request has failed.
    Nothing,
    /// Help on the whole command.
    Help,
    /// Help on `scribe run`.
    ScribeHelp,
    Refused(String),
    Validate(Parsed<String>),
    Serve(Parsed<String>),
    Bootstrap(Parsed<BootstrapRequest>),
    Replace(Parsed<ReplaceRequest>),
    Promote(Parsed<PromoteCommand>),
    ScribeRun(Parsed<ScribeRunRequest>),
    Directory(Parsed<DirectoryRequest>),
    Doctor(Parsed<DoctorRequest>),
    ProduceLab(Parsed<ProduceLabRequest>),
    Consume(Parsed<ConsumeRequest>),
    ConsumeLab(Parsed<ConsumeLabRequest>),
}

/// What is said of a word that is no command.
pub open spec fn unknown_command(command: Seq<char>) -> Seq<char> {
    "unknown command "@ + quoted(command)
        + " (expected validate|bootstrap|replace|promote|scribe|serve|directory|doctor|consume|produce-lab|consume-lab)"@
}

/// Whether a word asks for help.
pub open spec fn asks_for_help(word: Seq<char>) -> bool {
    word == "--help"@ || word == "-h"@ || word == "help"@
}

/// Whether the arguments of a command with nothing but a config come to the config.
pub open spec fn is_config_only(
    parsed: Parsed<String>,
    arguments: Seq<Seq<char>>,
    command: Seq<char>,
) -> bool {
    exists|refusal: &str|
        refusal@ == config_only_refusal(command) && reads_config_only(
            parsed,
            scan_of(
                arguments,
                #[trigger] config_only_flags(refusal),
                "unknown argument: "@,
            ),
            command,
        )
}

/// Whether a request is what the words after `scribe` ask for.
pub open spec fn is_scribe_request(request: Request, words: Seq<Seq<char>>) -> bool {
    if words.len() == 0 {
        request matches Request::Refused(said) && said@ == "scribe requires a subcommand (run)"@
    } else if words[0] == "run"@ {
        request matches Request::ScribeRun(parsed) && reads_scribe_run(
            parsed,
            scan_of(words.skip(1), scribe_run_flags(), "scribe run: unexpected argument "@),
        )
    } else if asks_for_help(words[0]) {
        request is ScribeHelp
    } else {
        request matches Request::Refused(said) && said@ == "unknown scribe subcommand "@ + quoted(
            words[0],
        ) + " (expected run)"@
    }
}

/// Whether a request is what the words ask for.
pub open spec fn is_request(request: Request, words: Seq<Seq<char>>) -> bool {
    let rest = words.skip(1);
    if words.len() == 0 {
        request is Nothing
    } else if words[0] == "validate"@ {
        request matches Request::Validate(parsed) && is_config_only(parsed, rest, "validate"@)
    } else if words[0] == "serve"@ {
        request matches Request::Serve(parsed) && is_config_only(parsed, rest, "serve"@)
    } else if words[0] == "bootstrap"@ {
        request matches Request::Bootstrap(parsed) && reads_bootstrap(
            parsed,
            scan_of(rest, bootstrap_flags(), "unknown argument: "@),
        )
    } else if words[0] == "replace"@ {
        request matches Request::Replace(parsed) && reads_replace(
            parsed,
            scan_of(rest, replace_flags(), "unknown argument: "@),
        )
    } else if words[0] == "promote"@ {
        request matches Request::Promote(parsed) && reads_promote(
            parsed,
            scan_of(rest, promote_flags(), "unknown argument: "@),
        )
    } else if words[0] == "directory"@ {
        request matches Request::Directory(parsed) && reads_directory(
            parsed,
            scan_of(rest, directory_flags(), "directory: unexpected argument "@),
        )
    } else if words[0] == "doctor"@ {
        request matches Request::Doctor(parsed) && reads_doctor(
            parsed,
            scan_of(rest, doctor_flags(), "doctor: unexpected argument "@),
        )
    } else if words[0] == "produce-lab"@ {
        request matches Request::ProduceLab(parsed) && reads_produce_lab(
            parsed,
            scan_of(rest, produce_lab_flags(), "produce-lab: unexpected argument "@),
        )
    } else if words[0] == "consume"@ {
        request matches Request::Consume(parsed) && reads_consume(
            parsed,
            scan_of(rest, consume_flags(), "consume: unexpected argument "@),
        )
    } else if words[0] == "consume-lab"@ {
        request matches Request::ConsumeLab(parsed) && reads_consume_lab(
            parsed,
            scan_of(rest, consume_lab_flags(), "consume-lab: unexpected argument "@),
        )
    } else if words[0] == "scribe"@ {
        is_scribe_request(request, rest)
    } else if asks_for_help(words[0]) {
        request is Help
    } else {
        request matches Request::Refused(said) && said@ == unknown_command(words[0])
    }
}

fn is_help_word(word: &str) -> (help: bool)
    ensures
        help == asks_for_help(word@),
{
    same_text(word, "--help") || same_text(word, "-h") || same_text(word, "help")
}

fn dispatch_scribe(arguments: &[String]) -> (request: Request)
    ensures
        is_scribe_request(request, arguments_view(arguments@)),
{
    if arguments.len() == 0 {
        return Request::Refused("scribe requires a subcommand (run)".to_owned());
    }
    let word = arguments[0].as_str();
    assert(arguments_view(arguments@)[0] == word@);
    let rest = &arguments[1..arguments.len()];
    assert(arguments_view(rest@) =~= arguments_view(arguments@).skip(1));
    if same_text(word, "run") {
        return Request::ScribeRun(parse_scribe_run_args(rest));
    }
    if is_help_word(word) {
        return Request::ScribeHelp;
    }
    let mut message = String::new();
    message.append("unknown scribe subcommand ");
    message.append(quote(word).as_str());
    message.append(" (expected run)");
    assert(message@ =~= "unknown scribe subcommand "@ + quoted(word@) + " (expected run)"@);
    Request::Refused(message)
}

/// What a command line asks for.
pub fn dispatch(arguments: &[String]) -> (request: Request)
    ensures
        is_request(request, arguments_view(arguments@)),
{
    if arguments.len() == 0 {
        return Request::Nothing;
    }
    let word = arguments[0].as_str();
    assert(arguments_view(arguments@)[0] == word@);
    let rest = &arguments[1..arguments.len()];
    assert(arguments_view(rest@) =~= arguments_view(arguments@).skip(1));
    if same_text(word, "validate") {
        return Request::Validate(parse_config_only_args(rest, "validate"));
    }
    if same_text(word, "serve") {
        return Request::Serve(parse_config_only_args(rest, "serve"));
    }
    if same_text(word, "bootstrap") {
        return Request::Bootstrap(parse_bootstrap_args(rest));
    }
    if same_text(word, "replace") {
        return Request::Replace(parse_replace_args(rest));
    }
    if same_text(word, "promote") {
        return Request::Promote(parse_promote_args(rest));
    }
    if same_text(word, "directory") {
        return Request::Directory(parse_directory_args(rest));
    }
    if same_text(word, "doctor") {
        return Request::Doctor(parse_doctor_args(rest));
    }
    if same_text(word, "produce-lab") {
        return Request::ProduceLab(parse_produce_lab_args(rest));
    }
    if same_text(word, "consume") {
        return Request::Consume(parse_consume_args(rest));
    }
    if same_text(word, "consume-lab") {
        return Request::ConsumeLab(parse_consume_lab_args(rest));
    }
    if same_text(word, "scribe") {
        return dispatch_scribe(rest);
    }
    if is_help_word(word) {
        return Request::Help;
    }
    let mut message = String::new();
    message.append("unknown command ");
    message.append(quote(word).as_str());
    message.append(
        " (expected validate|bootstrap|replace|promote|scribe|serve|directory|doctor|consume|produce-lab|consume-lab)",
    );
    assert(message@ =~= unknown_command(word@));
    Request::Refused(message)
}

// Laws.

/// A secret on the command line is refused wherever the pass over the arguments reaches
/// it, whatever stands around it.
pub proof fn law_secrets_are_refused_on_argv(
    arguments: Seq<Seq<char>>,
    unknown: Seq<char>,
    refusal: &str,
    values: Seq<Option<ValueView>>,
)
    requires
        arguments.len() > 0,
        arguments[0] == "--access-key"@ || arguments[0] == "--secret-key"@,
    ensures
        scanned(arguments, config_only_flags(refusal), unknown, values) is Refused,
        scanned(arguments, bootstrap_flags(), unknown, values) is Refused,
        scanned(arguments, replace_flags(), unknown, values) is Refused,
        scanned(arguments, promote_flags(), unknown, values) is Refused,
        scanned(arguments, consume_flags(), unknown, values) is Refused,
        scanned(arguments, scribe_run_flags(), unknown, values) is Refused,
        scanned(arguments, doctor_flags(), unknown, values) is Refused,
        scanned(arguments, directory_flags(), unknown, values) is Refused,
        scanned(arguments, produce_lab_flags(), unknown, values) is Refused,
        scanned(arguments, consume_lab_flags(), unknown, values) is Refused,
{
    reveal_strlit("--access-key");
    reveal_strlit("--assignment");
    reveal_strlit("--candidate-term");
    reveal_strlit("--canon");
    reveal_strlit("--config");
    reveal_strlit("--format");
    reveal_strlit("--from");
    reveal_strlit("--help");
    reveal_strlit("--initial-term");
    reveal_strlit("--loglet-id");
    reveal_strlit("--no-follow");
    reveal_strlit("--payload-bytes");
    reveal_strlit("--peer-grace-ms");
    reveal_strlit("--per-worker");
    reveal_strlit("--records-per-submission");
    reveal_strlit("--seconds");
    reveal_strlit("--secret-key");
    reveal_strlit("--successor-loglet-id");
    reveal_strlit("--takeover-successor");
    reveal_strlit("--until-records");
    reveal_strlit("--verse");
    reveal_strlit("--workers");
    reveal_strlit("-h");
    assert("--per-worker"@[2] == 'p' && "--assignment"@[3] == 's');
    assert("--access-key"@[2] == 'a' && "--access-key"@[3] == 'c' && "--secret-key"@[2] == 's');
    lemma_secret_is_refused(config_only_flags(refusal), arguments, unknown, values);
    lemma_secret_is_refused(bootstrap_flags(), arguments, unknown, values);
    lemma_secret_is_refused(replace_flags(), arguments, unknown, values);
    lemma_secret_is_refused(promote_flags(), arguments, unknown, values);
    lemma_secret_is_refused(consume_flags(), arguments, unknown, values);
    lemma_secret_is_refused(scribe_run_flags(), arguments, unknown, values);
    lemma_secret_is_refused(doctor_flags(), arguments, unknown, values);
    lemma_secret_is_refused(directory_flags(), arguments, unknown, values);
    lemma_secret_is_refused(produce_lab_flags(), arguments, unknown, values);
    lemma_secret_is_refused(consume_lab_flags(), arguments, unknown, values);
}

proof fn lemma_secret_is_refused(
    rules: Seq<Rule<'_>>,
    arguments: Seq<Seq<char>>,
    unknown: Seq<char>,
    values: Seq<Option<ValueView>>,
)
    requires
        arguments.len() > 0,
        forall|i: int|
            0 <= i < rules.len() ==> (#[trigger] rules[i]).kind is Refused || rules[i].flag@
                != arguments[0],
    ensures
        scanned(arguments, rules, unknown, values) is Refused,
{
    lemma_rule_found(rules, arguments[0]);
}

proof fn lemma_rule_found(rules: Seq<Rule<'_>>, flag: Seq<char>)
    ensures
        rule_index(rules, flag) < rules.len() ==> rules[rule_index(rules, flag) as int].flag@
            == flag,
    decreases rules.len(),
{
    if rules.len() > 0 && rules[0].flag@ != flag {
        lemma_rule_found(rules.skip(1), flag);
        let at = rule_index(rules.skip(1), flag) as int;
        if at < rules.skip(1).len() {
            assert(rules.skip(1)[at] == rules[at + 1]);
        }
    }
}

} // verus!
