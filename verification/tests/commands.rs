//! Command lines.
use scripture_ops::args::{
    choice_flag, help_flag, number_flag, positive_flag, refused_flag, scan, scan_with, short_flag,
    size_flag, switch_flag, text_flag, FlagValue, Rule, Scan,
};
use scripture_ops::commands::{
    dispatch, BootstrapRequest, ConsumeLabRequest, ConsumeRequest, DirectoryRequest, DoctorRequest,
    Parsed, ProduceLabRequest, PromoteCommand, ReplaceRequest, Request, ScribeRunRequest,
    BOOTSTRAP_REFUSAL, CONSUME_HELP, HELP, PROMOTE_REFUSAL, REPLACE_REFUSAL, SCRIBE_RUN_HELP,
};
use scripture_ops::consume::{ConsumeOptions, OutputFormat};
use scripture_ops::doctor::DoctorFormat;

fn words(line: &str) -> Vec<String> {
    line.split_whitespace().map(str::to_owned).collect()
}

fn run(line: &str) -> Request {
    dispatch(&words(line))
}

#[test]
fn help_lists_consume_with_read_only_disclaimer() {
    assert_eq!(run("help"), Request::Help);
    assert!(HELP.contains("scripture consume"));
    assert!(HELP.contains("read-only debug/demo consumer"));
    assert!(HELP.contains("produce-lab"));
    assert!(HELP.contains("consume-lab"));
}

#[test]
fn consume_help_exits_zero_with_usage() {
    assert_eq!(run("consume --help"), Request::Consume(Parsed::Help));
    assert!(CONSUME_HELP.contains("--until-records"));
    assert!(CONSUME_HELP.contains("--no-follow"));
    assert!(CONSUME_HELP.contains("no checkpoint"));
}

#[test]
fn consume_rejects_seconds_zero() {
    let asked = run(
        "consume --config missing.yaml --canon demo-canon!!!!!! --verse demo-verse!!!!!! --seconds 0",
    );
    match asked {
        Request::Consume(Parsed::Refused(message)) => {
            assert!(message.contains("--seconds 0 is rejected"), "unexpected: {message}");
        }
        other => panic!("not refused: {other:?}"),
    }
}

#[test]
fn consume_requires_config_canon_verse() {
    match run("consume --canon demo") {
        Request::Consume(Parsed::Refused(message)) => {
            assert!(
                message.contains("requires --config") || message.contains("requires --verse"),
                "unexpected: {message}"
            );
        }
        other => panic!("not refused: {other:?}"),
    }
}

#[test]
fn unknown_command_mentions_consume() {
    match run("not-a-command") {
        Request::Refused(message) => {
            assert!(message.contains("consume"));
            assert!(message.starts_with("unknown command \"not-a-command\""));
        }
        other => panic!("not refused: {other:?}"),
    }
}

#[test]
fn help_lists_scribe_run() {
    assert_eq!(run("help"), Request::Help);
    assert!(HELP.contains("scribe run"));
    assert!(
        HELP.contains("Prefer `scribe run`") || HELP.contains("prefer `scripture scribe run`")
    );
}

#[test]
fn scribe_run_help_exits_zero() {
    assert_eq!(run("scribe run --help"), Request::ScribeRun(Parsed::Help));
    assert!(SCRIBE_RUN_HELP.contains("peer-grace"));
    assert!(
        SCRIBE_RUN_HELP.contains("no promote/standby")
            || SCRIBE_RUN_HELP.contains("lawful successor")
    );
}

#[test]
fn each_command_reads_its_flags() {
    assert_eq!(run(""), Request::Nothing);
    assert_eq!(
        run("validate --config a.yaml"),
        Request::Validate(Parsed::Run("a.yaml".to_owned()))
    );
    assert_eq!(
        run("serve --config a.yaml"),
        Request::Serve(Parsed::Run("a.yaml".to_owned()))
    );
    assert_eq!(
        run("bootstrap --config a.yaml --loglet-id gen-1"),
        Request::Bootstrap(Parsed::Run(BootstrapRequest {
            config: "a.yaml".to_owned(),
            loglet_id: Some("gen-1".to_owned()),
            initial_term: 1,
        }))
    );
    assert_eq!(
        run("replace --config a.yaml --successor-loglet-id gen-2"),
        Request::Replace(Parsed::Run(ReplaceRequest {
            config: "a.yaml".to_owned(),
            successor: "gen-2".to_owned(),
        }))
    );
    assert_eq!(
        run("promote --config a.yaml --candidate-term 4 --assignment x"),
        Request::Promote(Parsed::Run(PromoteCommand {
            config: "a.yaml".to_owned(),
            candidate_term: 4,
            assignment: Some("x".to_owned()),
        }))
    );
    assert_eq!(
        run("scribe run --config a.yaml --peer-grace-ms 250"),
        Request::ScribeRun(Parsed::Run(ScribeRunRequest {
            config: "a.yaml".to_owned(),
            peer_grace_ms: 250,
            initial_term: 1,
        }))
    );
    assert_eq!(
        run("directory --config a.yaml --canon c --verse v"),
        Request::Directory(Parsed::Run(DirectoryRequest {
            config: "a.yaml".to_owned(),
            canon: Some("c".to_owned()),
            verse: Some("v".to_owned()),
        }))
    );
    assert_eq!(
        run("doctor --config a.yaml --format json"),
        Request::Doctor(Parsed::Run(DoctorRequest {
            config: "a.yaml".to_owned(),
            format: DoctorFormat::Json,
        }))
    );
    assert_eq!(
        run("consume --config a.yaml --canon c --verse v --from 3 --no-follow --format jsonl"),
        Request::Consume(Parsed::Run(ConsumeRequest {
            config: "a.yaml".to_owned(),
            options: ConsumeOptions {
                canon: "c".to_owned(),
                verse: "v".to_owned(),
                from: 3,
                until_records: None,
                seconds: 30,
                format: OutputFormat::Jsonl,
                no_follow: true,
            },
        }))
    );
}

#[test]
fn lab_commands_read_their_flags() {
    match run("produce-lab --config a.yaml --canon c --verse v --workers 3") {
        Request::ProduceLab(Parsed::Run(ProduceLabRequest { config, options })) => {
            assert_eq!((config.as_str(), options.workers), ("a.yaml", 3));
        }
        other => panic!("not read: {other:?}"),
    }
    match run("consume-lab --config a.yaml --canon c --verse v --seconds 9") {
        Request::ConsumeLab(Parsed::Run(ConsumeLabRequest { config, options })) => {
            assert_eq!((config.as_str(), options.seconds), ("a.yaml", 9));
        }
        other => panic!("not read: {other:?}"),
    }
}

#[test]
fn missing_and_wrong_flags_are_refused_by_name() {
    let refusal = |line: &str| match run(line) {
        Request::Validate(Parsed::Refused(message))
        | Request::Serve(Parsed::Refused(message)) => message,
        Request::Bootstrap(Parsed::Refused(message)) => message,
        Request::Replace(Parsed::Refused(message)) => message,
        Request::Promote(Parsed::Refused(message)) => message,
        Request::ScribeRun(Parsed::Refused(message)) => message,
        Request::Directory(Parsed::Refused(message)) => message,
        Request::Doctor(Parsed::Refused(message)) => message,
        Request::ProduceLab(Parsed::Refused(message)) => message,
        Request::Refused(message) => message,
        other => panic!("not refused: {other:?}"),
    };
    assert_eq!(refusal("validate"), "validate requires --config PATH");
    assert_eq!(refusal("serve --what"), "unknown argument: --what");
    assert_eq!(
        refusal("bootstrap --config a --initial-term 0"),
        "--initial-term must be non-zero"
    );
    assert_eq!(refusal("replace --config a"), "replace requires --successor-loglet-id ID");
    assert_eq!(refusal("promote --config a"), "promote requires --candidate-term N");
    assert_eq!(refusal("scribe run"), "scribe run requires --config");
    assert_eq!(
        refusal("directory --config a --canon c"),
        "directory: --canon and --verse must be given together"
    );
    assert!(refusal("doctor --config a --format xml").starts_with("doctor: unknown --format "));
    assert_eq!(refusal("produce-lab --config a --canon c"), "produce-lab requires --verse");
    assert!(!refusal("scribe walk").is_empty());
}

#[test]
fn secrets_on_the_command_line_are_refused() {
    let asked = run("bootstrap --config a --access-key SECRET-REDACTED");
    assert_eq!(asked, Request::Bootstrap(Parsed::Refused(BOOTSTRAP_REFUSAL.to_owned())));
    let asked = run("replace --config a --secret-key SECRET-REDACTED");
    assert_eq!(asked, Request::Replace(Parsed::Refused(REPLACE_REFUSAL.to_owned())));
    let asked = run("promote --config a --access-key SECRET-REDACTED");
    assert_eq!(asked, Request::Promote(Parsed::Refused(PROMOTE_REFUSAL.to_owned())));
}

fn rules() -> Vec<Rule<'static>> {
    vec![
        text_flag("--name", "--name needs TEXT"),
        number_flag("--count", "--count needs N", "--count is no number: "),
        positive_flag("--term", "--term needs N", "--term is no number: ", "--term is zero"),
        size_flag("--size", "--size needs N", "--size is no number: "),
        short_flag("--epoch", "--epoch needs N", "--epoch is no number: "),
        choice_flag("--mode", "--mode needs M", "on", "off", "mode ", " is neither"),
        switch_flag("--dry"),
        refused_flag("--secret", "no secrets"),
        help_flag("--help"),
    ]
}

#[test]
fn flags_are_scanned_in_their_places() {
    let given = scan(
        &words("--count 7 --dry --name x --epoch 2 --size 5 --term 1 --mode off"),
        &rules(),
        "unknown: ",
    );
    match given {
        Scan::Given(values) => {
            assert_eq!(values[0], Some(FlagValue::Text("x".to_owned())));
            assert_eq!(values[1], Some(FlagValue::Number(7)));
            assert_eq!(values[2], Some(FlagValue::Number(1)));
            assert_eq!(values[3], Some(FlagValue::Size(5)));
            assert_eq!(values[4], Some(FlagValue::Short(2)));
            assert_eq!(values[5], Some(FlagValue::Text("off".to_owned())));
            assert_eq!(values[6], Some(FlagValue::On));
            assert_eq!(values[7], None);
        }
        other => panic!("not given: {other:?}"),
    }
}

#[test]
fn scans_refuse_what_is_unknown_forbidden_or_wrong() {
    let refused = |line: &str| match scan(&words(line), &rules(), "unknown: ") {
        Scan::Refused(message) => message,
        other => panic!("not refused: {other:?}"),
    };
    assert_eq!(refused("--name x --other"), "unknown: --other");
    assert_eq!(refused("--secret SECRET-REDACTED"), "no secrets");
    assert_eq!(refused("--name"), "--name needs TEXT");
    assert!(refused("--count x").starts_with("--count is no number: "));
    assert_eq!(refused("--term 0"), "--term is zero");
    assert!(refused("--epoch 4294967296").starts_with("--epoch is no number: "));
    assert!(refused("--mode maybe").contains("maybe"));
    assert_eq!(scan(&words("--help --other"), &rules(), "unknown: "), Scan::Help);
    assert_eq!(
        scan_with(&words("--other"), &rules(), "usage", false),
        Scan::Refused("usage".to_owned())
    );
}
