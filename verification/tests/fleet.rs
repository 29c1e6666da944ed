//! Node lifecycle: activation, ingress, start-up plans, campaigns, the directory.
use scripture_ops::activation::{ActivationRun, ActivationStep};
use scripture_ops::campaign::{
    armed_notice, attributed_loglet, campaign_requested, env_flag, env_u64, schedule_step,
    CampaignEnv, DeathStep, DeathWatch, PayloadArming,
};
use scripture_ops::capability::{DirectoryAssignment, DirectoryRecord};
use scripture_ops::config::{
    AdminConfig, AssignmentConfig, AssignmentPosture, HaConfig, HaMode, ListenerConfig,
    MetricsConfig, NodeConfig, PathsConfig, ScribeConfig, ScribeLimits, ScriptureConfig,
    StoreConfig, VerseConfig,
};
use scripture_ops::directory::{directory_report, print_ranking, print_roster, RankedCandidate};
use scripture_ops::lifecycle::{
    admin_promoted, authority_line, bootstrap_plan, bootstrap_report, check_endpoint,
    check_replace, check_scribe_run, check_serve, check_spool, check_standby, check_successor,
    compat_notice, joining_line, legacy_line, peer_grace, promote_plan, promoted_line,
    replace_report, should_retry_promote_after_reply_loss, standby_refuses,
    start_action, Activation, BootstrapPlan, NodeWords, PromoteFailure, PromotePlan, Published,
    RootObservation, StartAction, VerseOutcome, HOLDS_RUNTIME, NO_PROBES,
    SERVE_AUTHORITY_REFUSAL, SERVE_MULTI_REFUSAL,
};
use scripture_ops::scribe::{
    activation_line, activation_plan, assignment_budget_for_node, authority_key, bind_failure,
    binds_ingress, heartbeat_entry, ingress_decision, raw_lines_config_from_budget,
    scribe_limits, single_heartbeat_entry, started_line, Activated, AssignmentAction,
    AssignmentEvidence, Ingress, IngressEvidence, RawLinesLimits, ScribeResourceLimits,
};
use scripture_ops::serving::{
    PromoteEvent, PromoteRun, PromoteStep, ServeEvent, ServeRun, ServeStep,
};

fn assignment(id: &str, posture: AssignmentPosture) -> AssignmentConfig {
    AssignmentConfig {
        id: id.to_owned(),
        canon: "telemetry-jrnl!!".to_owned(),
        verse: "telemetry-host-a".to_owned(),
        cohort_id: "telemetry-cohrt!".to_owned(),
        writer_id: "telemetry-wrtr!!".to_owned(),
        posture,
        ingress: ListenerConfig { bind: "127.0.0.1:9001".to_owned() },
        advertise: "tcp://127.0.0.1:9001".to_owned(),
    }
}

fn config(mode: HaMode, assignments: Vec<AssignmentConfig>) -> ScriptureConfig {
    let multi = !assignments.is_empty();
    ScriptureConfig {
        version: 1,
        node: NodeConfig {
            owner_id: "scripture-own-a!".to_owned(),
            advertise: "tcp://n:9000".to_owned(),
        },
        listener: Some(ListenerConfig { bind: "0.0.0.0:9000".to_owned() }),
        verse: Some(VerseConfig {
            journal_id: "scripture-jrnl!!".to_owned(),
            verse_id: "scripture-verse!".to_owned(),
            cohort_id: "scripture-cohrt!".to_owned(),
            writer_id: "scripture-wrtr!!".to_owned(),
        }),
        store: StoreConfig {
            backend: "rustfs".to_owned(),
            endpoint: "http://127.0.0.1:9000".to_owned(),
            bucket: "b".to_owned(),
            region: "auto".to_owned(),
            prefix: "p".to_owned(),
        },
        paths: PathsConfig { spool_dir: Some("spool".to_owned()) },
        metrics: MetricsConfig { status_bind: None },
        ha: HaConfig { mode },
        scribe: if multi {
            Some(ScribeConfig { limits: ScribeLimits::default(), assignments })
        } else {
            None
        },
        admin: AdminConfig { bind: None },
        producer_spool: None,
        safety: None,
    }
}

fn node() -> NodeWords<'static> {
    NodeWords { owner: "o", advertise: "a", bind: "b", backend: "r2", prefix: "p" }
}

#[test]
fn only_the_targeted_assignment_is_promoted() {
    let assignments = vec![
        assignment("one", AssignmentPosture::BootstrapIfEmpty),
        assignment("two", AssignmentPosture::Standby),
    ];
    assert_eq!(
        activation_plan(&assignments, Some(("two", 5)), 1).expect("plan")[1],
        AssignmentAction::Promote { term: 5 }
    );
    assert!(!matches!(
        activation_plan(&assignments, Some(("two", 5)), 1).expect("plan")[0],
        AssignmentAction::Promote { .. }
    ));
    assert_eq!(
        activation_plan(&assignments, None, 1).expect("plan"),
        [AssignmentAction::Bootstrap { term: 1 }, AssignmentAction::Standby]
    );
    assert!(activation_plan(&assignments, Some(("three", 5)), 1).is_err());
}

#[test]
fn promote_bind_failure_leaves_predecessor_root_unchanged() {
    let one = assignment("telemetry-host-a", AssignmentPosture::Standby);
    let plan = activation_plan(&vec![one.clone()], Some(("telemetry-host-a", 2)), 1).expect("plan");
    let mut run = ActivationRun::new(plan);
    assert_eq!(run.next(), ActivationStep::Bind { at: 0 });
    run.settle(false);
    assert_eq!(run.next(), ActivationStep::Stopped);
    run.settle(true);
    assert_eq!(run.next(), ActivationStep::Stopped);
    let message = bind_failure(&one, "Address already in use (os error 98)");
    assert!(message.contains("cannot bind ingress") || message.contains("Address already in use"));
    assert_eq!(
        message,
        "assignment id=telemetry-host-a cannot bind ingress 127.0.0.1:9001: Address already in use (os error 98)"
    );
}

#[test]
fn every_listener_is_bound_before_any_authority_is_touched() {
    let assignments = vec![
        assignment("one", AssignmentPosture::BootstrapIfEmpty),
        assignment("two", AssignmentPosture::Standby),
        assignment("three", AssignmentPosture::Standby),
    ];
    let plan = activation_plan(&assignments, Some(("three", 7)), 1).expect("plan");
    assert!(binds_ingress(&plan[0]) && !binds_ingress(&plan[1]) && binds_ingress(&plan[2]));
    let mut run = ActivationRun::new(plan);
    let mut steps = vec![];
    while run.next() != ActivationStep::Ready {
        steps.push(run.next());
        run.settle(true);
    }
    assert_eq!(
        steps,
        [
            ActivationStep::Bind { at: 0 },
            ActivationStep::Bind { at: 2 },
            ActivationStep::Activate { at: 0, action: AssignmentAction::Bootstrap { term: 1 } },
            ActivationStep::Activate { at: 1, action: AssignmentAction::Standby },
            ActivationStep::Activate { at: 2, action: AssignmentAction::Promote { term: 7 } },
        ]
    );
}

#[test]
fn ingress_waits_for_a_session_and_a_bound_listener() {
    let evidence = IngressEvidence {
        admits_committed_acks: true,
        disposition: "Serving",
        is_standby: false,
        has_session: true,
        is_bound: true,
    };
    assert_eq!(ingress_decision("one", Some(evidence)), Ok(Ingress::Serve));
    let unbound = IngressEvidence { is_bound: false, ..evidence };
    assert!(ingress_decision("one", Some(unbound))
        .expect_err("unbound")
        .contains("bind must precede authority CAS"));
    let sessionless = IngressEvidence { has_session: false, ..evidence };
    assert_eq!(
        ingress_decision("one", Some(sessionless)),
        Err("serving assignment one missing session".to_owned())
    );
    let standby = IngressEvidence {
        admits_committed_acks: false,
        disposition: "Standby",
        is_standby: true,
        ..evidence
    };
    match ingress_decision("one", Some(standby)).expect("skip") {
        Ingress::Skip(line) => assert!(line.ends_with("standby_kind=dormant-candidate")),
        other => panic!("not skipped: {other:?}"),
    }
    assert_eq!(
        ingress_decision("one", None),
        Err("missing activated assignment one".to_owned())
    );
}

#[test]
fn only_effective_writers_are_advertised() {
    let one = assignment("one", AssignmentPosture::BootstrapIfEmpty);
    let serving = heartbeat_entry(&one, AssignmentEvidence::Session { effective_writer: true });
    assert_eq!((serving.disposition.as_str(), serving.admits_committed_acks), ("Serving", true));
    for evidence in [
        AssignmentEvidence::Unknown,
        AssignmentEvidence::Dormant("Standby"),
        AssignmentEvidence::Session { effective_writer: false },
    ] {
        assert!(!heartbeat_entry(&one, evidence).admits_committed_acks);
    }
    let single = single_heartbeat_entry(&config(HaMode::Legacy, vec![]), true).expect("entry");
    assert_eq!(single.posture, "legacy-serve");
    assert!(single.admits_committed_acks);
}

#[test]
fn budgets_share_the_ceiling() {
    let limits = ScribeResourceLimits {
        max_assignments: 4,
        max_pending_bytes: 1000,
        max_pending_records: 90,
        max_concurrent_tasks: 8,
    };
    let defaults = RawLinesLimits {
        max_line_bytes: 600,
        max_pending_records: 10,
        max_pending_bytes: 100,
    };
    let budget = assignment_budget_for_node(&limits, 2, &defaults);
    assert_eq!((budget.max_pending_bytes, budget.max_pending_records), (500, 45));
    let raw = raw_lines_config_from_budget(&budget, &defaults);
    assert_eq!((raw.max_line_bytes, raw.max_pending_bytes), (600, 600));
    assert_eq!(assignment_budget_for_node(&limits, 0, &defaults).max_pending_bytes, 1000);
    let multi = config(
        HaMode::ServingAuthority,
        vec![assignment("one", AssignmentPosture::Standby)],
    );
    assert_eq!(
        scribe_limits(&multi).expect("limits").max_assignments,
        ScribeLimits::default().max_assignments
    );
    assert!(scribe_limits(&config(HaMode::Legacy, vec![])).is_err());
}

#[test]
fn scribe_lines_have_exact_words() {
    let one = assignment("one", AssignmentPosture::Standby);
    let line = activation_line(&one, "root", &AssignmentAction::Standby, &Activated::Standby);
    assert!(line.starts_with("scripture: assignment id=one disposition="));
    assert!(line.contains(" canon=telemetry-jrnl!! verse=telemetry-host-a store_root=root "));
    let multi = config(HaMode::ServingAuthority, vec![one]);
    assert_eq!(
        started_line(&multi, "a", "rustfs", Some(("one", 3)), 1),
        "scripture: ha_mode=serving-authority action=scribe-targeted-promote owner=scripture-own-a! advertise=a backend=rustfs target_assignment=one candidate_term=3 assignments=1"
    );
    let key = authority_key(&multi, &multi.scribe.as_ref().expect("scribe").assignments[0])
        .expect("key");
    assert_eq!(key.journal_id.as_bytes(), *b"telemetry-jrnl!!");
}

#[test]
fn serve_is_for_legacy_single_configs() {
    assert_eq!(check_serve(&config(HaMode::Legacy, vec![])), Ok(()));
    assert_eq!(
        check_serve(&config(HaMode::ServingAuthority, vec![])),
        Err(SERVE_AUTHORITY_REFUSAL.to_owned())
    );
    let multi = config(
        HaMode::ServingAuthority,
        vec![assignment("one", AssignmentPosture::Standby)],
    );
    assert_eq!(check_serve(&multi), Err(SERVE_MULTI_REFUSAL.to_owned()));
    assert_eq!(check_endpoint(true, "r2", "https://x"), Ok(()));
    assert_eq!(
        check_endpoint(true, "r2", "http://x"),
        Err("r2 requires an HTTPS endpoint".to_owned())
    );
    assert_eq!(check_endpoint(false, "rustfs", "http://x"), Ok(()));
}

fn started(outcome: VerseOutcome) -> ServeEvent {
    ServeEvent::Started { outcome, disposition: "Broken".to_owned() }
}

fn steps_of(config: &ScriptureConfig, events: Vec<ServeEvent>) -> Vec<String> {
    let mut run = ServeRun::new(config);
    let mut steps = vec![format!("{:?}", run.step())];
    for event in events {
        run.settle(event);
        steps.push(format!("{:?}", run.step()));
    }
    steps
}

#[test]
fn serving_opens_the_spool_then_probes_then_ingress() {
    let mut probed = config(HaMode::Legacy, vec![]);
    probed.metrics.status_bind = Some("127.0.0.1:1".to_owned());
    let steps = steps_of(
        &probed,
        vec![
            ServeEvent::Root(RootObservation::Uninitialized),
            started(VerseOutcome::Serving),
            ServeEvent::Done,
            ServeEvent::SpoolOpened { serving: true },
            ServeEvent::Done,
            ServeEvent::Done,
            ServeEvent::Failed("late".to_owned()),
        ],
    );
    assert_eq!(
        steps,
        vec![
            "Observe",
            "Start(Bootstrap)",
            "Announce { probes_only: false }",
            "OpenSpool",
            "BindProbes",
            "BindIngress",
            "Accept",
            "Accept",
        ]
    );
}

#[test]
fn nothing_listens_without_a_clean_start() {
    let legacy = config(HaMode::Legacy, vec![]);
    let present = || ServeEvent::Root(RootObservation::Present);
    for outcome in [VerseOutcome::ConflictNeedsInspect, VerseOutcome::StartFailed] {
        let mut run = ServeRun::new(&legacy);
        run.settle(present());
        assert_eq!(run.step(), &ServeStep::Start(StartAction::StartConfigured));
        run.settle(started(outcome));
        assert_eq!(
            run.step(),
            &ServeStep::Refuse("refusing to listen: disposition=Broken".to_owned())
        );
    }
    let mut silent = ServeRun::new(&legacy);
    silent.settle(present());
    silent.settle(started(VerseOutcome::RecoveryRequired));
    assert_eq!(silent.step(), &ServeStep::Announce { probes_only: true });
    silent.settle(ServeEvent::Done);
    assert_eq!(silent.step(), &ServeStep::Refuse(NO_PROBES.to_owned()));

    let mut probed = config(HaMode::Legacy, vec![]);
    probed.metrics.status_bind = Some("127.0.0.1:1".to_owned());
    let steps = steps_of(
        &probed,
        vec![
            present(),
            started(VerseOutcome::RecoveryRequired),
            ServeEvent::Done,
            ServeEvent::Done,
            ServeEvent::Done,
        ],
    );
    assert_eq!(steps[3..], ["BindProbes", "Park", "Park"]);

    let mut unread = ServeRun::new(&legacy);
    unread.settle(ServeEvent::Root(RootObservation::Failed("no root".to_owned())));
    assert_eq!(unread.step(), &ServeStep::Refuse("no root".to_owned()));

    let mut damaged = ServeRun::new(&legacy);
    damaged.settle(present());
    damaged.settle(started(VerseOutcome::Standby));
    damaged.settle(ServeEvent::Done);
    assert_eq!(damaged.step(), &ServeStep::OpenSpool);
    damaged.settle(ServeEvent::SpoolOpened { serving: false });
    assert!(matches!(damaged.step(), ServeStep::Refuse(_)));
    assert!(check_spool(false).is_err());
    assert_eq!(check_spool(true), Ok(()));
}

#[test]
fn promotions_are_retried_once_after_a_lost_reply() {
    let failed = |failure: PromoteFailure, applied: bool| PromoteEvent::Failed {
        failure,
        message: "root moved".to_owned(),
        reply_loss_armed: true,
        reply_loss_applied: applied,
    };
    let mut run = PromoteRun::new();
    assert!(run.settle(failed(PromoteFailure::Root, true)));
    assert_eq!(run.step(), &PromoteStep::Attempt);
    assert!(!run.settle(failed(PromoteFailure::Root, true)));
    assert_eq!(run.step(), &PromoteStep::Refuse("root moved".to_owned()));
    let mut unlucky = PromoteRun::new();
    assert!(!unlucky.settle(failed(PromoteFailure::FoundationIndeterminate, false)));
    assert_eq!(unlucky.step(), &PromoteStep::Refuse("root moved".to_owned()));
    let mut lucky = PromoteRun::new();
    assert!(!lucky.settle(PromoteEvent::Succeeded));
    assert_eq!(lucky.step(), &PromoteStep::Serve);
}

#[test]
fn bootstraps_are_planned_and_reported() {
    let legacy = config(HaMode::Legacy, vec![]);
    assert_eq!(
        bootstrap_plan(&legacy, Some("gen-1")),
        Ok(BootstrapPlan::OneShot { loglet_id: "gen-1".to_owned() })
    );
    assert!(bootstrap_plan(&legacy, Some(" ")).is_err());
    assert!(bootstrap_plan(&legacy, None).is_err());
    let single = config(HaMode::ServingAuthority, vec![]);
    assert_eq!(bootstrap_plan(&single, None), Ok(BootstrapPlan::Authority));
    let multi = config(
        HaMode::ServingAuthority,
        vec![assignment("one", AssignmentPosture::Standby)],
    );
    assert_eq!(bootstrap_plan(&multi, None), Ok(BootstrapPlan::Assignments));
    let report = bootstrap_report(Published::Done, &node(), "gen-1").expect("report");
    assert!(report.starts_with("scripture: bootstrap ok ha_claim=false owner=o advertise=a"));
    assert!(bootstrap_report(Published::AlreadyInitialized, &node(), "gen-1").is_err());
    assert_eq!(
        bootstrap_report(Published::Failed("x".to_owned()), &node(), "gen-1"),
        Err("x".to_owned())
    );
    assert_eq!(start_action(RootObservation::Uninitialized), Ok(StartAction::Bootstrap));
    assert_eq!(start_action(RootObservation::Present), Ok(StartAction::StartConfigured));
    assert!(start_action(RootObservation::Failed("x".to_owned())).is_err());
}

#[test]
fn replacements_need_a_recovery_and_an_empty_tail() {
    assert_eq!(check_successor("gen-2"), Ok(()));
    assert!(check_successor("  ").is_err());
    assert_eq!(check_replace(false, VerseOutcome::RecoveryRequired, "x"), Ok(()));
    assert_eq!(
        check_replace(true, VerseOutcome::RecoveryRequired, "x"),
        Err(HOLDS_RUNTIME.to_owned())
    );
    assert!(check_replace(false, VerseOutcome::Serving, "Serving").is_err());
    let reached = |outcome| Activation::Reached { outcome, disposition: "d".to_owned() };
    assert!(replace_report(reached(VerseOutcome::Serving), &node(), "gen-2").is_ok());
    assert!(replace_report(reached(VerseOutcome::Standby), &node(), "gen-2").is_err());
    assert_eq!(
        replace_report(Activation::NonEmptyTail { tail: 7 }, &node(), "gen-2"),
        Err("refusing replace: durable open generation is non-empty (tail=7)".to_owned())
    );
    let invalid = Activation::InvalidDisposition { disposition: "Serving".to_owned() };
    assert!(replace_report(invalid, &node(), "gen-2").is_err());
    assert_eq!(
        replace_report(Activation::Failed("x".to_owned()), &node(), "gen-2"),
        Err("x".to_owned())
    );
}

#[test]
fn promotions_are_planned_and_retried_only_after_a_lost_reply() {
    let single = config(HaMode::ServingAuthority, vec![]);
    assert_eq!(promote_plan(&single, None), Ok(PromotePlan::Single));
    assert!(promote_plan(&single, Some("one")).is_err());
    assert!(promote_plan(&config(HaMode::Legacy, vec![]), None).is_err());
    let multi = config(
        HaMode::ServingAuthority,
        vec![assignment("one", AssignmentPosture::Standby)],
    );
    assert_eq!(
        promote_plan(&multi, Some("one")),
        Ok(PromotePlan::Assignment { id: "one".to_owned() })
    );
    assert!(promote_plan(&multi, None).is_err());
    assert!(should_retry_promote_after_reply_loss(true, true, PromoteFailure::Root));
    assert!(!should_retry_promote_after_reply_loss(true, true, PromoteFailure::Other));
    assert!(!should_retry_promote_after_reply_loss(
        true,
        false,
        PromoteFailure::FoundationIndeterminate
    ));
}

#[test]
fn scribe_run_and_standby_are_checked() {
    assert_eq!(check_scribe_run(&config(HaMode::ServingAuthority, vec![])), Ok(()));
    assert!(check_scribe_run(&config(HaMode::Legacy, vec![])).is_err());
    assert_eq!((peer_grace(0), peer_grace(250)), (1, 250));
    let mut standby = config(HaMode::ServingAuthority, vec![]);
    assert!(check_standby(&standby, Some("t")).expect_err("bind").contains("admin.bind"));
    standby.admin.bind = Some("127.0.0.1:1".to_owned());
    assert_eq!(check_standby(&standby, Some("t")), Ok(()));
    assert!(check_standby(&standby, None).is_err());
    assert!(check_standby(&standby, Some(" ")).expect_err("blank").contains("non-empty"));
}

#[test]
fn lifecycle_lines_have_exact_words() {
    assert!(legacy_line("Serving", true, &node())
        .starts_with("scripture: ha_mode=legacy disposition=Serving ready=true"));
    assert!(authority_line("bootstrap-and-serve", false, &node())
        .contains("action=bootstrap-and-serve ready=false"));
    assert!(promoted_line(4, &node()).ends_with(" candidate_term=4"));
    assert_eq!(
        joining_line("o", "a", "b", 9),
        "scripture: scribe run owner=o advertise=a bind=b peer_grace_ms=9 (read-only join until root authorizes Serving)"
    );
    assert!(compat_notice("scripture promote").contains("prefer `scripture scribe run"));
    assert_eq!(
        standby_refuses("p"),
        "scripture: refused producer from p: standby (not effective writer)"
    );
    assert_eq!(
        admin_promoted("o", 2),
        "scripture: admin promote ok owner=o candidate_term=2"
    );
}

#[test]
fn faults_are_armed_after_the_asked_number_of_acks() {
    let nothing = CampaignEnv {
        trace_path: None,
        run_id: None,
        actor_id: None,
        die_after_payload: None,
        die_after_payload_skip: None,
        root_cas_reply_loss: None,
    };
    assert_eq!(campaign_requested(&nothing), None);
    let asked = CampaignEnv {
        die_after_payload: Some("1"),
        die_after_payload_skip: Some("2"),
        ..nothing
    };
    let mut campaign = campaign_requested(&asked).expect("campaign");
    assert_eq!(campaign.run_id, "campaign-run");
    assert!(!campaign.arming.serving());
    assert!(!campaign.arming.committed_ack());
    assert!(campaign.arming.committed_ack());
    assert!(!campaign.arming.committed_ack());
    let mut at_once = PayloadArming { requested: true, after_acks: 0, acks: 0, armed: false };
    assert!(at_once.serving());
    let mut never = PayloadArming { requested: false, after_acks: 0, acks: 0, armed: false };
    assert!(!never.serving() && !never.committed_ack());
}

#[test]
fn a_death_watch_opens_once_a_fault_has_fired() {
    let mut watch = DeathWatch::new();
    assert_eq!(watch.look(0), DeathStep::LookAgain);
    assert_eq!(watch.look(1), DeathStep::OpenGate);
    let mut idle = DeathWatch::new();
    let looks = (0..1000)
        .take_while(|_| idle.look(0) == DeathStep::LookAgain)
        .count();
    assert_eq!(looks, 200);
    assert_eq!(idle.look(1), DeathStep::GiveUp);
}

#[test]
fn campaign_words_are_read_and_written() {
    assert!(env_flag(Some("yes")) && env_flag(Some("TRUE")));
    assert!(!env_flag(Some("0")) && !env_flag(None));
    assert_eq!(env_u64(Some("12")), Some(12));
    assert_eq!(env_u64(Some("x")), None);
    assert_eq!(attributed_loglet(Some("named"), "active"), "named");
    assert_eq!(attributed_loglet(Some(""), "active"), "active");
    assert_eq!(schedule_step("kill", "actor"), "kill:actor");
    assert_eq!(
        armed_notice(3),
        "scripture: campaign-faults armed DieAfterPayload after 3 committed ACK(s)"
    );
}

#[test]
fn an_empty_directory_is_not_an_expired_one() {
    let record = DirectoryRecord {
        owner_id: "scripture-own-a!".to_owned(),
        node_advertise: "tcp://n".to_owned(),
        fresh: false,
        age_ms: 90_000,
        assignments: vec![DirectoryAssignment {
            canon: "c".to_owned(),
            verse: "v".to_owned(),
            advertise: "tcp://n".to_owned(),
            posture: "standby".to_owned(),
            disposition: "Standby".to_owned(),
            admits_committed_acks: false,
        }],
    };
    let empty = directory_report("p", &vec![], None, &vec![]);
    assert_eq!(
        empty,
        "scripture: directory empty prefix=p\nscripture: no node has published; this is distinct from every node having expired\n"
    );
    let records = vec![record];
    assert!(print_roster(&records).starts_with("scripture: directory nodes=1 fresh=0 stale=1\n"));
    let ranked = vec![RankedCandidate {
        endpoint: "tcp://n".to_owned(),
        owner_id: "scripture-own-a!".to_owned(),
        disposition: "Serving".to_owned(),
        claims_serving: true,
        fresh: true,
        age_ms: 3,
    }];
    let ranking = print_ranking("c", "v", &ranked);
    assert!(ranking.starts_with("\nscripture: candidates for canon=c verse=v (best first)\n"));
    assert!(ranking.ends_with("ranking is a hint; authority is decided by the serving Scribe's gate\n"));
    assert_eq!(
        print_ranking("c", "v", &vec![]),
        "\nscripture: no directory candidate for canon=c verse=v\n"
    );
    let report = directory_report("p", &records, Some(("c", "v")), &ranked);
    assert_eq!(report, print_roster(&records) + &ranking);
}
