//! Configuration, safety policy and the capability report.
use scripture_ops::capability::{
    candidates_from_directory, live_verse_inputs, owner_display, serving_owner,
    static_capability_inputs, verse_scopes, CapabilityInputs, DirectoryAssignment,
    DirectoryRecord, RecoveryCandidateEvidence, ServingNow, VerseCapabilityInputs,
};
use scripture_ops::authority::AuthorityState;
use scripture_ops::config::{
    assignment_durable_root, default_chunk_policy, default_region, parse_fixed_id, AdminConfig,
    AssignmentConfig, AssignmentPosture, CanonHistoryRequire, ConfigError,
    DeclaredEligibleCandidate, HaConfig, HaMode, ListenerConfig, MetricsConfig, NodeConfig,
    OnDegraded, PathsConfig, ProducerContinuityRequire, ProducerSpoolConfig, SafetyConfig,
    SafetyRequire, ScribeConfig, ScribeLimits, ScribeRecoveryRequire, ScriptureConfig,
    StoreConfig, TokenRefusals, VerseConfig,
};
use scripture_ops::consume::find_assignment;
use scripture_ops::doctor::{
    format_age, format_human, render_disclosure, scribe_availability_for, CanonHistoryReport,
    CapabilityReport, Evaluation, FailureDomainReport, ProducerContinuityReport,
    ScribeAvailabilityReport, VerseRecoverySatisfaction,
};
use scripture_ops::lifecycle::check_typed;
use scripture_ops::policy::{loss_budget_secs, read_on_degraded, require_entry, PolicyWord};
use scripture_ops::preflight::{
    defer_live, emit_warnings, enforce_safety_policy, format_fail_start, format_validate_ok,
    requirements_from_safety, CapabilityCode, CapabilityFinding, RequiredGuarantee,
    SatisfactionKind, WarningCounters,
};
use scripture_ops::wire::{configured_outbox, ConfiguredOutbox};
use serde_yaml::Value;

// Reading a config.

fn text(value: &Value, key: &str) -> String {
    value[key].as_str().expect(key).to_owned()
}

fn optional_text(value: &Value, key: &str) -> Option<String> {
    value.get(key)?.as_str().map(str::to_owned)
}

fn read_limits(value: Option<&Value>) -> ScribeLimits {
    let mut limits = ScribeLimits::default();
    if let Some(most) = value.and_then(|limits| limits.get("max_assignments")) {
        limits.max_assignments = most.as_u64().expect("number") as usize;
    }
    limits
}

fn read_assignment(value: &Value) -> AssignmentConfig {
    AssignmentConfig {
        id: text(value, "id"),
        canon: text(value, "canon"),
        verse: text(value, "verse"),
        cohort_id: text(value, "cohort_id"),
        writer_id: text(value, "writer_id"),
        posture: match value["posture"].as_str() {
            Some("bootstrap-if-empty") => AssignmentPosture::BootstrapIfEmpty,
            _ => AssignmentPosture::Standby,
        },
        ingress: ListenerConfig { bind: text(&value["ingress"], "bind") },
        advertise: text(value, "advertise"),
    }
}

fn read_safety(value: &Value) -> Result<SafetyConfig, String> {
    let mut require = SafetyRequire {
        canon_history: None,
        producer_continuity: None,
        scribe_recovery: None,
        min_storage_failure_domains: None,
    };
    for (key, word) in value["require"].as_mapping().expect("require") {
        let word = match word {
            Value::String(text) => PolicyWord::Text(text),
            Value::Number(number) => PolicyWord::Number(number.as_u64().expect("number")),
            _ => PolicyWord::Other,
        };
        require = require_entry(require, key.as_str().expect("key"), word)?;
    }
    let mut declared = vec![];
    if let Some(candidates) = value.get("declared_eligible_candidates") {
        for one in candidates.as_sequence().expect("candidates") {
            declared.push(DeclaredEligibleCandidate {
                canon: text(one, "canon"),
                verse: text(one, "verse"),
                owner_id: text(one, "owner_id"),
                serving_capable: one["serving_capable"].as_bool().expect("bool"),
                fresh: one["fresh"].as_bool().expect("bool"),
            });
        }
    }
    Ok(SafetyConfig {
        require,
        on_degraded: read_on_degraded(value.get("on_degraded").and_then(Value::as_str))?,
        declared_eligible_candidates: declared,
    })
}

fn read_spool(value: &Value) -> ProducerSpoolConfig {
    ProducerSpoolConfig {
        enabled: value.get("enabled").and_then(Value::as_bool).unwrap_or(false),
        kind: text(value, "kind"),
        path: text(value, "path"),
        max_bytes: value["max_bytes"].as_u64().expect("number"),
        fsync: text(value, "fsync"),
        on_full: text(value, "on_full"),
        loss_budget_secs: loss_budget_secs(&text(value, "loss_budget")).expect("seconds"),
        scribe_id: text(value, "scribe_id"),
    }
}

fn read_config(yaml: &str) -> Result<ScriptureConfig, String> {
    let value: Value = serde_yaml::from_str(yaml).expect("yaml");
    Ok(ScriptureConfig {
        version: value["version"].as_u64().expect("version") as u32,
        node: NodeConfig {
            owner_id: text(&value["node"], "owner_id"),
            advertise: text(&value["node"], "advertise"),
        },
        listener: value
            .get("listener")
            .map(|listener| ListenerConfig { bind: text(listener, "bind") }),
        verse: value.get("verse").map(|verse| VerseConfig {
            journal_id: text(verse, "journal_id"),
            verse_id: text(verse, "verse_id"),
            cohort_id: text(verse, "cohort_id"),
            writer_id: text(verse, "writer_id"),
        }),
        store: StoreConfig {
            backend: text(&value["store"], "backend"),
            endpoint: text(&value["store"], "endpoint"),
            bucket: text(&value["store"], "bucket"),
            region: optional_text(&value["store"], "region").unwrap_or_else(default_region),
            prefix: text(&value["store"], "prefix"),
        },
        paths: PathsConfig { spool_dir: None },
        metrics: MetricsConfig {
            status_bind: value
                .get("metrics")
                .and_then(|metrics| optional_text(metrics, "status_bind")),
        },
        ha: HaConfig {
            mode: match value.get("ha").and_then(|ha| ha["mode"].as_str()) {
                Some("serving-authority") => HaMode::ServingAuthority,
                _ => HaMode::Legacy,
            },
        },
        scribe: value.get("scribe").map(|scribe| ScribeConfig {
            limits: read_limits(scribe.get("limits")),
            assignments: scribe["assignments"]
                .as_sequence()
                .expect("assignments")
                .iter()
                .map(read_assignment)
                .collect(),
        }),
        admin: AdminConfig { bind: None },
        producer_spool: value.get("producer_spool").map(read_spool),
        safety: match value.get("safety") {
            Some(safety) => Some(read_safety(safety)?),
            None => None,
        },
    })
}

/// What the runtime refuses: empty endpoints, and backends other than the two.
fn refusals(config: &ScriptureConfig) -> TokenRefusals {
    let backend = match config.store.backend.as_str() {
        "rustfs" | "r2" => None,
        other => Some(format!("unknown backend {other}")),
    };
    TokenRefusals {
        backend,
        endpoints: vec![(String::new(), "endpoint must not be empty".to_owned())],
    }
}

fn validate(config: &ScriptureConfig) -> Result<(), ConfigError> {
    config.validate(&refusals(config))
}

fn load(yaml: &str) -> ScriptureConfig {
    let config = read_config(yaml).expect("parse");
    validate(&config).expect("valid");
    config
}

fn sample_yaml() -> &'static str {
    r#"
version: 1
node:
  owner_id: "scripture-own-a!"
  advertise: "tcp://scripture-owner:9000"
listener:
  bind: "0.0.0.0:9000"
verse:
  journal_id: "scripture-jrnl!!"
  verse_id: "scripture-verse!"
  cohort_id: "scripture-cohrt!"
  writer_id: "scripture-wrtr!!"
store:
  backend: r2
  endpoint: "https://example.r2.cloudflarestorage.com"
  bucket: "example"
  region: auto
  prefix: "scripture/deployments/example"
metrics:
  status_bind: "127.0.0.1:9100"
"#
}

fn multi_yaml() -> &'static str {
    r#"
version: 1
node:
  owner_id: "scripture-own-a!"
  advertise: "tcp://scripture-owner:9000"
store:
  backend: rustfs
  endpoint: "http://127.0.0.1:9000"
  bucket: "scripture"
  region: us-east-1
  prefix: "scripture/drills/example"
ha:
  mode: serving-authority
metrics:
  status_bind: "127.0.0.1:9100"
scribe:
  limits:
    max_assignments: 4
  assignments:
    - id: telemetry-host-a
      canon: "telemetry-jrnl!!"
      verse: "telemetry-host-a"
      cohort_id: "telemetry-cohrt!"
      writer_id: "telemetry-wrtr!!"
      posture: bootstrap-if-empty
      advertise: "tcp://127.0.0.1:9001"
      ingress:
        bind: "127.0.0.1:9001"
    - id: audit-ingress
      canon: "audit-journal!!!"
      verse: "audit-ingress-0!"
      cohort_id: "audit-cohort!!!!"
      writer_id: "audit-writer!!!!"
      posture: standby
      advertise: "tcp://127.0.0.1:9002"
      ingress:
        bind: "127.0.0.1:9002"
"#
}

fn safety_yaml(rest: &str) -> String {
    r#"
version: 1
node:
  owner_id: "scripture-own-a!"
  advertise: "tcp://10.0.0.1:9000"
listener:
  bind: "0.0.0.0:9000"
verse:
  journal_id: "scripture-jrnl!!"
  verse_id: "scripture-verse!"
  cohort_id: "scripture-cohrt!"
  writer_id: "scripture-wrtr!!"
store:
  backend: r2
  endpoint: "https://example.r2.cloudflarestorage.com"
  bucket: "example"
  region: auto
  prefix: "scripture/deployments/example"
"#
    .to_owned()
        + rest
}

#[test]
fn accepts_valid_config() {
    let config = read_config(sample_yaml()).expect("parse");
    validate(&config).expect("valid");
    assert_eq!(config.node.owner_id.len(), 16);
    assert!(!config.is_multi_assignment());
}

#[test]
fn accepts_multi_assignment_config() {
    let config = read_config(multi_yaml()).expect("parse");
    validate(&config).expect("valid");
    assert!(config.is_multi_assignment());
    let scribe = config.scribe.as_ref().expect("scribe");
    assert_eq!(scribe.assignments.len(), 2);
    let root = config
        .assignment_store_root(&scribe.assignments[0])
        .expect("root");
    let expected = assignment_durable_root(
        "scripture/drills/example",
        b"telemetry-jrnl!!",
        b"telemetry-host-a",
    );
    assert_eq!(root, expected);
    assert!(root.contains("/cv/"));
    assert!(!root.contains("/assignments/"));
}

#[test]
fn rejects_mixed_single_and_multi_shape() {
    let bad = sample_yaml().to_owned()
        + r#"
ha:
  mode: serving-authority
scribe:
  assignments:
    - id: only
      canon: "telemetry-jrnl!!"
      verse: "telemetry-host-a"
      cohort_id: "telemetry-cohrt!"
      writer_id: "telemetry-wrtr!!"
      posture: standby
      advertise: "tcp://127.0.0.1:9001"
      ingress:
        bind: "127.0.0.1:9001"
"#;
    let config = read_config(&bad).expect("parse");
    assert!(validate(&config).is_err());
}

#[test]
fn rejects_bad_version_and_id_length() {
    let mut bad = sample_yaml().replace("version: 1", "version: 99");
    let config = read_config(&bad).expect("parse");
    assert!(matches!(
        validate(&config),
        Err(ConfigError::UnsupportedVersion { found: 99 })
    ));
    bad = sample_yaml().replace("scripture-own-a!", "too-short");
    let config = read_config(&bad).expect("parse");
    assert!(validate(&config).is_err());
}

#[test]
fn rejects_prefix_escape() {
    let bad = sample_yaml().replace("scripture/deployments/example", "scripture/../escape");
    let config = read_config(&bad).expect("parse");
    assert!(validate(&config).is_err());
}

#[test]
fn accepts_serving_authority_ha_mode() {
    let yaml = sample_yaml().to_owned()
        + r#"
ha:
  mode: serving-authority
"#;
    let config = read_config(&yaml).expect("parse");
    validate(&config).expect("valid");
    assert_eq!(config.ha.mode, HaMode::ServingAuthority);
}

#[test]
fn rejects_duplicate_assignment_ids_and_binds() {
    let bad = multi_yaml().replace("bind: \"127.0.0.1:9002\"", "bind: \"127.0.0.1:9001\"");
    let config = read_config(&bad).expect("parse");
    assert!(validate(&config).is_err());
    let bad = multi_yaml().replace("id: audit-ingress", "id: telemetry-host-a");
    let error = validate(&read_config(&bad).expect("parse")).expect_err("dup id");
    assert!(error.message().contains("duplicate assignment id"));
}

#[test]
fn rejects_duplicate_advertise() {
    let bad = multi_yaml().replace(
        "advertise: \"tcp://127.0.0.1:9002\"",
        "advertise: \"tcp://127.0.0.1:9001\"",
    );
    let config = read_config(&bad).expect("parse");
    let err = validate(&config).expect_err("dup advertise");
    assert!(err.message().contains("duplicate assignment advertise"));
}

#[test]
fn rejects_duplicate_canon_verse_even_with_different_ids() {
    let bad = multi_yaml()
        .replace("id: audit-ingress", "id: telemetry-host-a-renamed")
        .replace("canon: \"audit-journal!!!\"", "canon: \"telemetry-jrnl!!\"")
        .replace("verse: \"audit-ingress-0!\"", "verse: \"telemetry-host-a\"");
    let config = read_config(&bad).expect("parse");
    let err = validate(&config).expect_err("dup canon/verse");
    let message = err.message();
    assert!(
        message.contains("duplicate canon/verse"),
        "unexpected error: {message}"
    );
    assert!(message.contains("Canon/Verse-derived") || message.contains("renaming id"));
}

#[test]
fn derived_root_stable_across_assignment_id_rename() {
    let config = read_config(multi_yaml()).expect("parse");
    let a = &config.scribe.as_ref().expect("scribe").assignments[0];
    let root_before = config.assignment_store_root(a).expect("root");
    let mut renamed = a.clone();
    renamed.id = "renamed-display-id".into();
    let root_after = config.assignment_store_root(&renamed).expect("root");
    assert_eq!(root_before, root_after);
}

#[test]
fn rejects_invalid_assignment_advertise() {
    let bad = multi_yaml().replace("advertise: \"tcp://127.0.0.1:9001\"", "advertise: \"\"");
    let config = read_config(&bad).expect("parse");
    let err = validate(&config).expect_err("bad advertise");
    assert!(err.message().contains("advertise"));
}

#[test]
fn roots_are_exact_and_exclusive() {
    let config = load(multi_yaml());
    let assignments = &config.scribe.as_ref().expect("scribe").assignments;
    let roots: Vec<String> = assignments
        .iter()
        .map(|one| config.assignment_store_root(one).expect("root"))
        .collect();
    assert_eq!(
        roots[0],
        "scripture/drills/example/cv/74656c656d657472792d6a726e6c2121/74656c656d657472792d686f73742d61"
    );
    assert!(!roots[0].starts_with(&roots[1]) && !roots[1].starts_with(&roots[0]));
    assert_eq!(
        assignment_durable_root("p/", b"telemetry-jrnl!!", b"telemetry-host-a"),
        "p/cv/74656c656d657472792d6a726e6c2121/74656c656d657472792d686f73742d61"
    );
}

#[test]
fn valid_configs_give_their_settings() {
    let config = load(sample_yaml());
    let refused = refusals(&config);
    assert_eq!(config.advertise(&refused).expect("advertise"), "tcp://scripture-owner:9000");
    assert_eq!(config.backend(&refused).expect("backend"), "r2");
    assert_eq!(config.listener_bind().expect("bind"), "0.0.0.0:9000");
    let runtime = config.verse_runtime_config().expect("runtime");
    assert_eq!(&runtime.journal_id, b"scripture-jrnl!!");
    assert_eq!(&runtime.owner_id, b"scripture-own-a!");
    assert_eq!(runtime.policy, default_chunk_policy());
    assert_eq!(check_typed(&config, &refused), Ok(()));

    let multi = load(multi_yaml());
    let one = &multi.scribe.as_ref().expect("scribe").assignments[1];
    let runtime = multi.assignment_runtime_config(one).expect("runtime");
    assert_eq!(&runtime.verse_id, b"audit-ingress-0!");
    assert_eq!(
        multi.assignment_advertise(one, &refusals(&multi)).expect("advertise"),
        "tcp://127.0.0.1:9002"
    );
    assert!(multi.verse_runtime_config().is_err());
    assert!(multi.listener_bind().is_err());
}

#[test]
fn unknown_backends_and_missing_parts_are_refused() {
    let bad = sample_yaml().replace("backend: r2", "backend: floppy");
    let message = validate(&read_config(&bad).expect("parse")).expect_err("backend").message();
    assert!(message.contains("floppy"), "{message}");
    let bad = multi_yaml().replace("mode: serving-authority", "mode: legacy");
    let message = validate(&read_config(&bad).expect("parse")).expect_err("mode").message();
    assert!(message.contains("requires ha.mode: serving-authority"), "{message}");
    let bad = multi_yaml().replace("max_assignments: 4", "max_assignments: 1");
    assert!(validate(&read_config(&bad).expect("parse")).is_err());
    let mut bad = read_config(multi_yaml()).expect("parse");
    bad.scribe.as_mut().expect("scribe").limits.max_pending_bytes = 0;
    let message = validate(&bad).expect_err("limits").message();
    assert!(message.contains("scribe.limits values must be >= 1"), "{message}");
    assert_eq!(
        parse_fixed_id("node.owner_id", "short").expect_err("short").message(),
        ConfigError::Invalid("node.owner_id must be exactly 16 ASCII bytes (got 5)".to_owned())
            .message()
    );
    assert!(parse_fixed_id("x", "sixteen-bytes-é").is_err());
}

#[test]
fn assignments_are_found_by_canon_and_verse() {
    let config = load(multi_yaml());
    let found = find_assignment(&config, "audit-journal!!!", "audit-ingress-0!").expect("found");
    assert_eq!(found.id, "audit-ingress");
    assert!(find_assignment(&config, "audit-journal!!!", "other-verse!!!!!").is_err());
}

// Safety policy.

fn finding(code: CapabilityCode, kind: SatisfactionKind, line: &str) -> CapabilityFinding {
    CapabilityFinding { code, kind, line: line.to_owned() }
}

fn recovery_finding(kind: SatisfactionKind) -> CapabilityFinding {
    finding(
        CapabilityCode::ScribeRecovery,
        kind,
        "SCRIPTURE_CAP_SCRIBE_RECOVERY scope=scripture-jrnl!!/scripture-verse!: no eligible recovery candidate",
    )
}

#[test]
fn safety_config_fields_for_live_tests() {
    let _ = (
        CanonHistoryRequire::Committed,
        ProducerContinuityRequire::Spooled,
        ScribeRecoveryRequire::Automatic,
        OnDegraded::Warn,
    );
}

#[test]
fn t5_live_warn_emits_ordered_warning_and_succeeds() {
    let config = load(&safety_yaml(
        "safety:\n  require:\n    scribe_recovery: automatic\n  on_degraded: warn\n",
    ));
    let mut counters = WarningCounters::new();
    let before = counters.get(CapabilityCode::ScribeRecovery);
    let findings = vec![recovery_finding(SatisfactionKind::Unsatisfied)];
    let emitted =
        enforce_safety_policy(&findings, &config.safety, &mut counters).expect("warn must succeed");
    assert!(emitted.contains("scripture: warning: SCRIPTURE_CAP_SCRIBE_RECOVERY"));
    assert!(emitted.contains("scripture-jrnl!!/scripture-verse!"));
    assert!(counters.get(CapabilityCode::ScribeRecovery) > before);
}

#[test]
fn t7_validate_static_still_requires_live_preflight() {
    let config = load(&safety_yaml("safety:\n  require:\n    scribe_recovery: automatic\n"));
    let line = "SCRIPTURE_CAP_SCRIBE_RECOVERY scope=a/b: requires live preflight";
    let found = || {
        vec![finding(
            CapabilityCode::ScribeRecovery,
            SatisfactionKind::RequiresLivePreflight,
            line,
        )]
    };
    let mut counters = WarningCounters::new();
    let message = enforce_safety_policy(&found(), &config.safety, &mut counters)
        .expect_err("static must fail");
    assert!(message.contains("SCRIPTURE_CAP_SCRIBE_RECOVERY"));
    assert!(message.contains("live preflight"));
    enforce_safety_policy(&defer_live(found()), &config.safety, &mut counters)
        .expect("startup defers live findings");
}

#[test]
fn t10_omitted_safety_live_noop() {
    let config = load(&safety_yaml(""));
    assert!(config.safety.is_none());
    let mut counters = WarningCounters::new();
    let findings = vec![recovery_finding(SatisfactionKind::Unsatisfied)];
    let emitted =
        enforce_safety_policy(&findings, &config.safety, &mut counters).expect("noop success");
    assert!(emitted.is_empty());
    assert_eq!(counters, WarningCounters::new());
}

#[test]
fn static_inputs_unchanged_for_hermetic_validate() {
    let config = load(&safety_yaml(""));
    let inputs = static_capability_inputs(&config, Some("r2"));
    assert!(!inputs.verses.is_empty());
    assert!(!inputs.verses[0].candidates_declared_for_static);
    let mut counters = WarningCounters::new();
    let emitted = enforce_safety_policy(&vec![], &config.safety, &mut counters).expect("no safety");
    assert!(emitted.is_empty());
}

#[test]
fn t6_on_degraded_warn_emits_ordered_warning_and_succeeds() {
    let config = load(&safety_yaml(
        "safety:\n  require:\n    producer_continuity: spooled\n    scribe_recovery: automatic\n    min_storage_failure_domains: 2\n  on_degraded: warn\n",
    ));
    let findings = vec![
        finding(
            CapabilityCode::ProducerContinuity,
            SatisfactionKind::Unsatisfied,
            "SCRIPTURE_CAP_PRODUCER_CONTINUITY scope=deployment: no spool",
        ),
        recovery_finding(SatisfactionKind::RequiresLivePreflight),
        finding(
            CapabilityCode::StorageFailureDomains,
            SatisfactionKind::Unsatisfied,
            "SCRIPTURE_CAP_STORAGE_FAILURE_DOMAINS scope=deployment: one domain",
        ),
    ];
    let mut counters = WarningCounters::new();
    let emitted =
        enforce_safety_policy(&findings, &config.safety, &mut counters).expect("warn must succeed");
    let lines: Vec<&str> = emitted.lines().collect();
    assert_eq!(lines.len(), 3);
    for line in &lines {
        assert!(line.starts_with("scripture: warning: SCRIPTURE_CAP_"));
        assert!(line.contains("scope="));
    }
    let mut sorted = lines.clone();
    sorted.sort();
    assert_eq!(lines, sorted);
    for code in [
        CapabilityCode::ProducerContinuity,
        CapabilityCode::ScribeRecovery,
        CapabilityCode::StorageFailureDomains,
    ] {
        assert_eq!(counters.get(code), 1);
    }
    assert_eq!(counters.get(CapabilityCode::CanonHistory), 0);
}

#[test]
fn t9_policy_document_validation_rejects_bad_keys_and_values() {
    let refused = |rest: &str| read_config(&safety_yaml(rest)).expect_err("refused");
    let err = refused("safety:\n  require:\n    not_a_real_key: true\n");
    assert!(err.contains("unknown safety.require key 'not_a_real_key'"), "{err}");
    let err = refused("safety:\n  require:\n    canon_history: canon_committed\n");
    assert!(err.contains("canon_committed") && err.contains("committed"), "{err}");
    let err = refused("safety:\n  require:\n    producer_continuity: local_durable\n");
    assert!(err.contains("local_durable") && err.contains("spooled"), "{err}");
    let err = refused(
        "safety:\n  require:\n    canon_history: committed\n  on_degraded: explode\n",
    );
    assert!(err.contains("on_degraded") && err.contains("fail_start"), "{err}");
    let err = refused("safety:\n  require:\n    min_storage_failure_domains: 0\n");
    assert!(err.contains("min_storage_failure_domains must be an integer >= 1"), "{err}");
}

#[test]
fn t10_omitted_safety_preserves_behavior() {
    let config = load(&safety_yaml(""));
    assert!(config.safety.is_none());
    let mut counters = WarningCounters::new();
    let emitted = enforce_safety_policy(&vec![], &config.safety, &mut counters)
        .expect("omitted safety is no-op success");
    assert!(emitted.is_empty());
    let actual = format_validate_ok(&config);
    let baseline = "scripture: validate ok version=1 owner=scripture-own-a! advertise=tcp://10.0.0.1:9000 backend=r2 prefix=scripture/deployments/example";
    assert_eq!(actual, baseline);
    assert!(!actual.contains("safety"));
    assert!(!actual.contains("SCRIPTURE_CAP_"));
    assert!(!actual.contains("warning"));
    assert_eq!(
        format_validate_ok(&load(multi_yaml())),
        "scripture: validate ok version=1 owner=scripture-own-a! advertise=tcp://scripture-owner:9000 backend=rustfs prefix=scripture/drills/example assignments=2"
    );
}

#[test]
fn safety_config_round_trip_fields() {
    let config = load(&safety_yaml(
        r#"
safety:
  require:
    canon_history: committed
    producer_continuity: spooled
    scribe_recovery: automatic
    min_storage_failure_domains: 1
  on_degraded: warn
  declared_eligible_candidates:
    - canon: "scripture-jrnl!!"
      verse: "scripture-verse!"
      owner_id: "node-a!!!!!!!!!!"
      serving_capable: true
      fresh: false
"#,
    ));
    let safety = config.safety.as_ref().expect("safety");
    assert_eq!(safety.on_degraded, OnDegraded::Warn);
    assert_eq!(
        safety.require.canon_history,
        Some(CanonHistoryRequire::Committed)
    );
    assert_eq!(
        safety.require.producer_continuity,
        Some(ProducerContinuityRequire::Spooled)
    );
    assert_eq!(
        safety.require.scribe_recovery,
        Some(ScribeRecoveryRequire::Automatic)
    );
    assert_eq!(safety.require.min_storage_failure_domains, Some(1));
    assert_eq!(
        safety.declared_eligible_candidates,
        vec![DeclaredEligibleCandidate {
            canon: "scripture-jrnl!!".to_owned(),
            verse: "scripture-verse!".to_owned(),
            owner_id: "node-a!!!!!!!!!!".to_owned(),
            serving_capable: true,
            fresh: false,
        }]
    );
    assert_eq!(
        requirements_from_safety(&safety.require),
        vec![
            RequiredGuarantee::CanonHistoryCommitted,
            RequiredGuarantee::ProducerContinuitySpooled,
            RequiredGuarantee::ScribeRecoveryAutomatic,
            RequiredGuarantee::MinStorageFailureDomains(1),
        ]
    );
    let inputs = static_capability_inputs(&config, None);
    let verse = &inputs.verses[0];
    assert!(verse.candidates_declared_for_static);
    assert_eq!(verse.candidates.len(), 1);
    assert_eq!(verse.candidates[0].age_ms, u64::MAX);
}

#[test]
fn policy_words_are_read_or_refused() {
    let none = SafetyRequire {
        canon_history: None,
        producer_continuity: None,
        scribe_recovery: None,
        min_storage_failure_domains: None,
    };
    let one = require_entry(none, "min_storage_failure_domains", PolicyWord::Number(3));
    assert_eq!(one.expect("read").min_storage_failure_domains, Some(3));
    assert_eq!(
        require_entry(none, "scribe_recovery", PolicyWord::Other),
        Err("safety.require.scribe_recovery must be 'automatic', got '?'".to_owned())
    );
    assert_eq!(read_on_degraded(None), Ok(OnDegraded::FailStart));
    assert_eq!(loss_budget_secs("30s"), Ok(30));
    assert!(loss_budget_secs("30").is_err());
    assert!(loss_budget_secs("s").is_err());
}

#[test]
fn refused_starts_list_every_finding() {
    let findings = vec![
        finding(CapabilityCode::CanonHistory, SatisfactionKind::Unsatisfied, "one"),
        finding(CapabilityCode::CanonHistory, SatisfactionKind::Unsatisfied, "two"),
    ];
    assert_eq!(
        format_fail_start(&findings),
        "safety.require preflight failed:\n  one\n  two"
    );
    let mut counters = WarningCounters::new();
    assert_eq!(
        emit_warnings(&findings, &mut counters),
        "scripture: warning: one\nscripture: warning: two\n"
    );
    assert_eq!(counters.get(CapabilityCode::CanonHistory), 2);
    assert_eq!(defer_live(findings).len(), 2);
}

// The capability report.

const SPOOL: &str = r#"
producer_spool:
  enabled: true
  kind: local
  path: ".scripture-producer-spool"
  max_bytes: 1048576
  fsync: every_record
  on_full: reject
  loss_budget: 30s
  scribe_id: "node-a"
"#;

fn evaluation(verses: usize, consequence: &str) -> Evaluation {
    Evaluation {
        canon_history: "committed".to_owned(),
        producer_continuity: "continues".to_owned(),
        scribe_recovery: (0..verses)
            .map(|_| VerseRecoverySatisfaction {
                candidates_observed_heartbeating: 0,
                consequence: consequence.to_owned(),
            })
            .collect(),
        failure_domains: "one domain".to_owned(),
    }
}

#[test]
fn t1_configured_capability_truth() {
    let config = load(&safety_yaml(
        &(SPOOL.to_owned()
            + "safety:\n  require:\n    producer_continuity: spooled\n  on_degraded: fail_start\n"),
    ));
    assert!(config.durable_producer_spool_configured());
    let inputs = static_capability_inputs(&config, Some("r2"));
    assert!(inputs.durable_producer_spool_configured);
    assert_eq!(inputs.producer_spool_loss_budget, "30s");
    assert_eq!(inputs.producer_spool_scribe_id, "node-a");
    let doctor = render_disclosure(&inputs, &evaluation(1, "x"));
    assert_eq!(
        doctor.producer_continuity.durable_local_outbox,
        "CONFIGURED"
    );
    assert_eq!(doctor.producer_continuity.spooled_loss_budget, "30s");
    assert!(doctor.producer_continuity.evidence.contains("node-a"));
    let mut counters = WarningCounters::new();
    enforce_safety_policy(&vec![], &config.safety, &mut counters)
        .expect("safety.require spooled must pass");
}

#[test]
fn t2_missing_invalid_capability_truth() {
    let absent = load(&safety_yaml(""));
    assert!(!absent.durable_producer_spool_configured());
    let inputs = static_capability_inputs(&absent, Some("r2"));
    assert!(!inputs.durable_producer_spool_configured);
    assert!(inputs.producer_spool_loss_budget.is_empty());
    for (from, to) in [
        ("kind: local", "kind: memory"),
        ("loss_budget: 30s", "loss_budget: 0s"),
        ("path: \".scripture-producer-spool\"", "path: \"\""),
        ("max_bytes: 1048576", "max_bytes: 0"),
        ("fsync: every_record", "fsync: never"),
        ("on_full: reject", "on_full: drop"),
        ("scribe_id: \"node-a\"", "scribe_id: \" \""),
    ] {
        let bad = read_config(&safety_yaml(&SPOOL.replace(from, to))).expect("parse");
        assert!(validate(&bad).is_err(), "{to}");
        assert!(!bad.durable_producer_spool_configured(), "{to}");
        assert!(bad.validated_producer_spool().is_err(), "{to}");
    }
    let disabled = load(&safety_yaml(&SPOOL.replace("enabled: true", "enabled: false")));
    let disabled_inputs = static_capability_inputs(&disabled, Some("r2"));
    assert!(!disabled_inputs.durable_producer_spool_configured);
}

#[test]
fn t11_shared_evaluator_anti_drift() {
    let config = load(&safety_yaml(SPOOL));
    let inputs = static_capability_inputs(&config, Some("r2"));
    let typed = evaluation(1, "x");
    let doctor = render_disclosure(&inputs, &typed);
    assert_eq!(
        doctor.producer_continuity.durable_local_outbox,
        "CONFIGURED"
    );
    assert_eq!(
        doctor.producer_continuity.spooled_loss_budget,
        inputs.producer_spool_loss_budget
    );
    assert_eq!(doctor.producer_continuity.result, typed.producer_continuity);
    let absent = static_capability_inputs(&load(&safety_yaml("")), Some("r2"));
    let doctor_abs = render_disclosure(&absent, &evaluation(1, "x"));
    assert_eq!(
        doctor_abs.producer_continuity.durable_local_outbox,
        "NOT CONFIGURED"
    );
    assert!(doctor_abs.producer_continuity.spooled_loss_budget.is_empty());
}

#[test]
fn doctor_publishes_one_disk_loss_budget_bound() {
    let config = load(&safety_yaml(SPOOL));
    let inputs = static_capability_inputs(&config, Some("r2"));
    let doctor = render_disclosure(&inputs, &evaluation(1, "x"));
    assert_eq!(doctor.producer_continuity.spooled_loss_budget, "30s");
    assert!(doctor
        .producer_continuity
        .evidence
        .contains("one named Scribe local disk"));
}

fn verse_inputs(
    candidates: Vec<RecoveryCandidateEvidence>,
    serving: Option<ServingNow>,
) -> VerseCapabilityInputs {
    let fleet_directory_nonempty = !candidates.is_empty();
    VerseCapabilityInputs {
        canon: "telemetry-cnon!!".to_owned(),
        verse: "telemetry-host-a".to_owned(),
        candidates,
        serving_now: serving,
        candidates_declared_for_static: true,
        fleet_directory_nonempty,
    }
}

fn record_candidate(
    owner: &str,
    age_ms: u64,
    fresh: bool,
    posture: &str,
    serving_capable: bool,
) -> RecoveryCandidateEvidence {
    RecoveryCandidateEvidence {
        owner_id: owner.to_owned(),
        canon: "telemetry-cnon!!".to_owned(),
        verse: "telemetry-host-a".to_owned(),
        serving_capable,
        fresh,
        age_ms,
        posture: posture.to_owned(),
        disposition: if serving_capable {
            "Serving".to_owned()
        } else {
            "Standby".to_owned()
        },
    }
}

fn serving_a() -> Option<ServingNow> {
    Some(ServingNow {
        owner_id: "scripture-own-a!".to_owned(),
        effective_writer: true,
        state: "Serving".to_owned(),
    })
}

fn availability_for(
    inputs: VerseCapabilityInputs,
    heartbeating: u32,
    consequence: &str,
) -> ScribeAvailabilityReport {
    scribe_availability_for(
        &inputs,
        &VerseRecoverySatisfaction {
            candidates_observed_heartbeating: heartbeating,
            consequence: consequence.to_owned(),
        },
    )
}

fn human(report: ScribeAvailabilityReport) -> String {
    format_human(&CapabilityReport {
        canon_history: dummy_canon(),
        producer_continuity: dummy_producer(),
        scribe_availability: vec![report],
        failure_domain_durability: dummy_failure(),
    })
}

#[test]
fn empty_directory_differs_from_stale_and_from_fresh() {
    let lost = "no automatic Verse recovery";
    let empty = || availability_for(verse_inputs(vec![], None), 0, lost);
    let stale = || {
        availability_for(
            verse_inputs(
                vec![record_candidate("scripture-own-b!", 99_000, false, "standby", false)],
                None,
            ),
            0,
            lost,
        )
    };
    let fresh_standby = || {
        availability_for(
            verse_inputs(
                vec![record_candidate("scripture-own-b!", 2_400, true, "standby", false)],
                serving_a(),
            ),
            1,
            lost,
        )
    };
    let kept = "one eligible candidate can recover; post-failure redundancy would be exhausted";
    let fresh_serving = || {
        availability_for(
            verse_inputs(
                vec![record_candidate("scripture-own-b!", 2_400, true, "bootstrap-if-empty", true)],
                serving_a(),
            ),
            1,
            kept,
        )
    };

    let empty_text = human(empty());
    assert!(empty_text.contains("no node has ever published"));
    assert!(!empty_text.contains("has expired"));
    assert!(!empty_text.contains("candidates observed heartbeating"));
    assert!(empty().result.contains("no automatic Verse recovery"));

    let stale_text = human(stale());
    assert!(stale_text.contains("every directory record naming this Verse has expired"));
    assert!(!stale_text.contains("no node has ever published"));
    assert!(!stale_text.contains("candidates observed heartbeating"));
    assert!(stale().result.contains("no automatic Verse recovery"));

    let fresh_standby_text = human(fresh_standby());
    assert!(fresh_standby_text
        .contains("candidates observed heartbeating for telemetry-cnon!!/telemetry-host-a: 1"));
    assert!(fresh_standby_text.contains("scripture-own-b!  standby  last heartbeat"));
    assert!(fresh_standby_text.contains("serving now: scripture-own-a! (effective_writer=true)"));
    assert!(fresh_standby().result.contains("no automatic Verse recovery"));
    assert!(!fresh_standby().result.contains("can recover"));
    assert!(!fresh_standby_text.contains("Post-failure redundancy would be exhausted"));

    let fresh_serving_text = human(fresh_serving());
    assert!(fresh_serving_text
        .contains("candidates observed heartbeating for telemetry-cnon!!/telemetry-host-a: 1"));
    assert!(fresh_serving().result.contains("eligible candidate can recover"));
    assert!(fresh_serving()
        .result
        .contains("post-failure redundancy would be exhausted"));

    assert_ne!(empty().observation, stale().observation);
    assert_ne!(stale().observation, fresh_standby().observation);
    assert_ne!(empty().observation, fresh_standby().observation);
    assert_eq!(empty().candidates_observed_heartbeating, 0);
    assert_eq!(stale().candidates_observed_heartbeating, 0);
    assert_eq!(fresh_standby().candidates_observed_heartbeating, 1);
    assert_eq!(fresh_serving().candidates_observed_heartbeating, 1);
    assert_eq!(fresh_standby().result, lost);
}

#[test]
fn producer_continuity_is_explicitly_not_configured() {
    let report = CapabilityReport {
        canon_history: dummy_canon(),
        producer_continuity: ProducerContinuityReport {
            durable_local_outbox: "NOT CONFIGURED".to_owned(),
            receipt_profiles: "committed".to_owned(),
            spooled_loss_budget: String::new(),
            evidence: "no durable producer outbox exists in this codebase yet".to_owned(),
            result: "stalls".to_owned(),
        },
        scribe_availability: vec![],
        failure_domain_durability: dummy_failure(),
    };
    let text = format_human(&report);
    assert!(text.contains("durable local outbox: NOT CONFIGURED"));
}

fn dummy_canon() -> CanonHistoryReport {
    CanonHistoryReport {
        backend: "rustfs".to_owned(),
        storage_targets: 1,
        summary: "durable".to_owned(),
        evidence: "store".to_owned(),
        result: "ok".to_owned(),
    }
}

fn dummy_producer() -> ProducerContinuityReport {
    ProducerContinuityReport {
        durable_local_outbox: "NOT CONFIGURED".to_owned(),
        receipt_profiles: "committed".to_owned(),
        spooled_loss_budget: String::new(),
        evidence: "none".to_owned(),
        result: "stalls".to_owned(),
    }
}

fn dummy_failure() -> FailureDomainReport {
    FailureDomainReport {
        independent_storage_targets: 1,
        evidence: "one".to_owned(),
        result: "one domain".to_owned(),
    }
}

#[test]
fn verdicts_are_passed_on_unchanged() {
    let config = load(multi_yaml());
    let inputs = static_capability_inputs(&config, Some("rustfs"));
    let report = render_disclosure(&inputs, &evaluation(2, "verdict"));
    assert_eq!(
        report.canon_history.result,
        "history survives Scribe process restart after a Canon-committed ACK"
    );
    assert_eq!(report.failure_domain_durability.result, "one domain");
    assert_eq!(report.scribe_availability.len(), 2);
    assert_eq!(report.scribe_availability[1].result, "verdict");
    assert_eq!(report.scribe_availability[1].canon, "audit-journal!!!");
}

#[test]
fn ages_are_shown_to_the_nearest_tenth() {
    for age in 0..60_000u64 {
        assert_eq!(format_age(age), format!("{:.1}s ago", age as f64 / 1000.0));
    }
    assert_eq!(format_age(60_000), "1m ago");
    assert_eq!(format_age(3_599_999), "59m ago");
}

#[test]
fn live_evidence_comes_from_the_directory_and_the_root() {
    let record = |owner: &str, canon: &str, fresh: bool| DirectoryRecord {
        owner_id: owner.to_owned(),
        node_advertise: "tcp://n".to_owned(),
        fresh,
        age_ms: 5,
        assignments: vec![DirectoryAssignment {
            canon: canon.to_owned(),
            verse: "scripture-verse!".to_owned(),
            advertise: "tcp://n".to_owned(),
            posture: "standby".to_owned(),
            disposition: "Standby".to_owned(),
            admits_committed_acks: false,
        }],
    };
    let records = vec![
        record("a", "scripture-jrnl!!", true),
        record("b", "other-journal!!!", true),
        record("c", "scripture-jrnl!!", false),
    ];
    let found = candidates_from_directory(&records, "scripture-jrnl!!", "scripture-verse!");
    let owners: Vec<&str> = found.iter().map(|one| one.owner_id.as_str()).collect();
    assert_eq!(owners, ["a", "c"]);
    let scopes = verse_scopes(&load(&safety_yaml(""))).expect("scopes");
    let inputs = live_verse_inputs(&scopes[0], &records, serving_a());
    assert!(inputs.candidates_declared_for_static && inputs.fleet_directory_nonempty);
    assert_eq!(inputs.candidates.len(), 2);
    assert_eq!(inputs.serving_now, serving_a());
}

#[test]
fn only_serving_roots_have_writers() {
    let serving = serving_owner(
        Some(AuthorityState::Serving { writer_term: 3 }),
        b"scripture-own-a!",
        true,
    )
    .expect("serving");
    assert_eq!(serving.owner_id, "scripture-own-a!");
    assert!(serving.effective_writer);
    let idle = serving_owner(Some(AuthorityState::Unassigned), b"scripture-own-a!", true);
    assert!(idle.is_none() || !idle.expect("state").effective_writer);
    assert_eq!(serving_owner(None, b"", true), None);
    assert_eq!(owner_display(b"scripture-own-a!"), "scripture-own-a!");
    assert_ne!(owner_display(&[0xff; 16]), "");
}

#[test]
fn static_inputs_name_the_backend() {
    let config = load(&safety_yaml(""));
    let named: CapabilityInputs = static_capability_inputs(&config, Some("label"));
    assert_eq!(named.backend_label, "label");
    assert_eq!(static_capability_inputs(&config, None).backend_label, "r2");
    assert_eq!(named.independent_storage_targets, 1);
    assert!(named.committed_capable_target);
}

#[test]
fn the_wire_client_spools_where_a_config_says() {
    let spool = r#"producer_spool:
  enabled: true
  kind: local
  path: "/var/lib/scripture/spool"
  max_bytes: 1048576
  fsync: every_record
  on_full: reject
  loss_budget: 30s
  scribe_id: "scribe-a"
"#;
    let mounted = load(&format!("{}{spool}", sample_yaml()));
    assert_eq!(
        configured_outbox(&mounted),
        Ok(ConfiguredOutbox {
            path: "/var/lib/scripture/spool".to_owned(),
            target: "canon/scripture-jrnl!!/verse/scripture-verse!".to_owned(),
            max_bytes: 1_048_576,
        })
    );
    let none = Err("the configuration mounts no producer_spool".to_owned());
    assert_eq!(configured_outbox(&load(sample_yaml())), none);
    let dormant = spool.replace("enabled: true", "enabled: false");
    assert_eq!(configured_outbox(&load(&format!("{}{dormant}", sample_yaml()))), none);
    assert_eq!(
        configured_outbox(&load(&format!("{}{spool}", multi_yaml()))),
        Err("the configuration has no single Verse".to_owned())
    );
    let mut alone = load(&format!("{}{spool}", multi_yaml()));
    alone.scribe.as_mut().expect("scribe").assignments.truncate(1);
    assert_eq!(
        configured_outbox(&alone).map(|outbox| outbox.target),
        Ok("canon/telemetry-jrnl!!/verse/telemetry-host-a".to_owned())
    );
    let mut broken = load(&format!("{}{spool}", sample_yaml()));
    broken.producer_spool.as_mut().expect("spool").kind = "memory".to_owned();
    assert_eq!(
        configured_outbox(&broken),
        Err("producer_spool.kind must be local".to_owned())
    );
}

#[test]
fn a_prefix_never_stands_for_the_whole_bucket() {
    let refusal = "store.prefix must be a non-empty path without '..'";
    for prefix in ["", "  ", "/", " // ", "a/../b"] {
        let mut config = load(sample_yaml());
        config.store.prefix = prefix.to_owned();
        let said = validate(&config).map_err(|error| error.message());
        assert_eq!(said, Err(refusal.to_owned()), "{prefix:?}");
    }
    let mut config = load(sample_yaml());
    config.store.prefix = "/deployments/".to_owned();
    assert_eq!(validate(&config), Ok(()));
}
