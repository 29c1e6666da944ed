//! The load producer and the producing lab.
use scripture_ops::connection::{ConnectionRun, LoadStep};
use scripture_ops::load::{
    check_config, encode_record, has_room, parse_args, percentile_us, LoadCommand, LoadConfig,
    LoadCounts, LoadExit, LoadReport, NamedChunkPolicy, Reply, TokenBucket, LOAD_HELP,
};
use scripture_ops::numbers::{push_padded, sort};
use scripture_ops::produce_lab::{
    attribute, attribution_section, batch_samples, correctness_section, counters_from_status,
    counts_line, failure_section, fill_up, lab_banner, lab_payload, send_failure, sorted_offsets,
    worker_section, AckSample, LabOptions, StoreCounters, GAP_NOTE,
};

fn words(line: &str) -> Vec<String> {
    line.split_whitespace().map(str::to_owned).collect()
}

#[test]
fn encode_record_is_deterministic_and_sized() {
    let a = encode_record("run-a", 2, 9, 32);
    let b = encode_record("run-a", 2, 9, 32);
    assert_eq!(a, b);
    assert_eq!(a.len(), 32);
    assert!(a.starts_with(b"run-a|2|9|"));
}

#[test]
fn percentile_handles_empty() {
    assert_eq!(percentile_us(&[], 99), 0);
    assert_eq!(percentile_us(&[10, 20, 30, 40], 50), 20);
}

#[test]
fn percentiles_are_samples() {
    let samples: Vec<u64> = (1..=1000).collect();
    assert_eq!(percentile_us(&samples, 0), 1);
    assert_eq!(percentile_us(&samples, 100), 1000);
    assert_eq!(percentile_us(&samples, 95), 950);
    assert_eq!(percentile_us(&[], 250), 0);
    assert_eq!(percentile_us(&[7, 9], 150), 9);
    assert_eq!(percentile_us(&[7], 255), 7);
}

#[test]
fn records_have_the_length_that_was_asked_for() {
    for length in [1, 5, 10, 11, 64] {
        assert_eq!(encode_record("run-a", 2, 9, length).len(), length);
    }
    assert_eq!(encode_record("run-a", 2, 9, 3), b"run");
}

#[test]
fn load_configs_are_checked() {
    let good = || LoadConfig { run_id: "load-itest".to_owned(), ..LoadConfig::default() };
    assert_eq!(check_config(&good()), Ok(()));
    assert_eq!(
        check_config(&LoadConfig { connections: 0, ..good() }),
        Err("connections must be >= 1".to_owned())
    );
    assert_eq!(
        check_config(&LoadConfig { record_bytes: 0, ..good() }),
        Err("record_bytes must be >= 1".to_owned())
    );
    for run_id in ["", "a|b", "a\nb"] {
        let config = LoadConfig { run_id: run_id.to_owned(), ..good() };
        assert!(check_config(&config).expect_err("run id").starts_with("run_id must be"));
    }
}

#[test]
fn bounded_load_stays_under_its_ceiling() {
    let mut counts = LoadCounts::new();
    while counts.claim(64, 64 * 1024) {
        assert!(counts.count(64, Reply::Line("OK 1".to_owned())));
        counts.release(1, 64);
    }
    assert_eq!(counts.accepted_bytes, 64 * 1024);
    assert_eq!(counts.accepted_bytes, counts.accepted_records * 64);
    assert_eq!(counts.claimed_bytes, 0);
    let mut full = LoadCounts { accepted_bytes: u64::MAX, ..LoadCounts::new() };
    assert!(!full.claim(1, u64::MAX));
    assert!(has_room(0, 1));
    assert!(!has_room(1, 1));
}

#[test]
fn connections_keep_their_window_and_their_ceiling() {
    let config = LoadConfig {
        run_id: "run".to_owned(),
        record_bytes: 16,
        max_bytes: 80,
        ..LoadConfig::default()
    };
    let mut counts = LoadCounts::new();
    let mut run = ConnectionRun::new(3, 2);
    let mut sent = 0;
    loop {
        match run.next(&config, false, &mut counts) {
            LoadStep::Send(record) => {
                assert_eq!(record, encode_record("run", 3, sent, 16));
                sent += 1;
                assert!(run.outstanding <= 2);
            }
            LoadStep::Await => {
                assert!(run.settle(&mut counts, 16, Reply::Line("OK 9".to_owned())));
            }
            LoadStep::Later => panic!("no other connection claims anything"),
            LoadStep::Done => break,
        }
    }
    assert_eq!((sent, counts.accepted_bytes, run.sequence), (5, 80, 5));

    let mut counts = LoadCounts::new();
    let mut refused = ConnectionRun::new(0, 1);
    assert!(matches!(refused.next(&config, false, &mut counts), LoadStep::Send(_)));
    assert_eq!(refused.next(&config, false, &mut counts), LoadStep::Await);
    assert!(!refused.settle(&mut counts, 16, Reply::Line("ERR full".to_owned())));
    assert_eq!(refused.next(&config, false, &mut counts), LoadStep::Done);
    assert_eq!((counts.errors, counts.claimed_bytes), (1, 0));
    assert_eq!(ConnectionRun::new(0, 1).next(&config, true, &mut counts), LoadStep::Done);
}

#[test]
fn connections_share_one_ceiling() {
    let config = LoadConfig {
        run_id: "run".to_owned(),
        connections: 2,
        record_bytes: 16,
        max_bytes: 40,
        ..LoadConfig::default()
    };
    let mut counts = LoadCounts::new();
    let mut one = ConnectionRun::new(0, 4);
    let mut other = ConnectionRun::new(1, 4);
    assert!(matches!(one.next(&config, false, &mut counts), LoadStep::Send(_)));
    assert!(matches!(other.next(&config, false, &mut counts), LoadStep::Send(_)));
    assert_eq!((counts.accepted_bytes, counts.claimed_bytes), (0, 32));
    // Eight bytes are left: neither connection may send another record.
    assert_eq!(one.next(&config, false, &mut counts), LoadStep::Await);
    assert_eq!(other.next(&config, false, &mut counts), LoadStep::Await);
    // A refusal gives its bytes back, and the other connection may take them.
    assert!(!one.settle(&mut counts, 16, Reply::Line("ERR full".to_owned())));
    assert!(matches!(other.next(&config, false, &mut counts), LoadStep::Send(_)));
    for _ in 0..2 {
        assert!(other.settle(&mut counts, 16, Reply::Line("OK 1".to_owned())));
    }
    assert_eq!(other.next(&config, false, &mut counts), LoadStep::Done);
    assert_eq!((counts.accepted_bytes, counts.accepted_records), (32, 2));
    assert_eq!((counts.claimed_bytes, counts.errors), (0, 1));
}

#[test]
fn claims_of_others_keep_a_connection_waiting_and_never_end_it() {
    let config = LoadConfig {
        run_id: "run".to_owned(),
        connections: 2,
        record_bytes: 16,
        max_bytes: 16,
        ..LoadConfig::default()
    };
    let mut counts = LoadCounts::new();
    let mut one = ConnectionRun::new(0, 1);
    let mut other = ConnectionRun::new(1, 1);
    assert!(matches!(one.next(&config, false, &mut counts), LoadStep::Send(_)));
    assert_eq!(other.next(&config, false, &mut counts), LoadStep::Later);
    assert_eq!(other.next(&config, true, &mut counts), LoadStep::Done);
    // The claim comes back unused, and the waiting connection takes it.
    assert!(!one.settle(&mut counts, 16, Reply::TimedOut));
    assert_eq!(one.next(&config, false, &mut counts), LoadStep::Done);
    assert_eq!(
        other.next(&config, false, &mut counts),
        LoadStep::Send(encode_record("run", 1, 0, 16))
    );
    assert!(other.settle(&mut counts, 16, Reply::Line("OK 1".to_owned())));
    assert_eq!(other.next(&config, false, &mut counts), LoadStep::Done);
    assert_eq!((counts.accepted_bytes, counts.accepted_records), (16, 1));
    assert!(counts.full(16, 16) && !counts.full(16, 32));
}

#[test]
fn a_failed_connection_gives_its_claims_back() {
    let config = LoadConfig { record_bytes: 16, max_bytes: 64, ..LoadConfig::default() };
    let mut counts = LoadCounts::new();
    let mut run = ConnectionRun::new(0, 3);
    for _ in 0..3 {
        assert!(matches!(run.next(&config, false, &mut counts), LoadStep::Send(_)));
    }
    assert_eq!(counts.claimed_bytes, 48);
    run.fail(&mut counts, 16);
    assert_eq!((counts.claimed_bytes, counts.transport_failures), (0, 1));
    assert_eq!(run.next(&config, false, &mut counts), LoadStep::Done);
}

#[test]
fn replies_are_counted_by_kind() {
    let mut counts = LoadCounts::new();
    assert!(!counts.count(8, Reply::Line("ERR full".to_owned())));
    assert!(!counts.count(8, Reply::Line("what".to_owned())));
    assert!(!counts.count(8, Reply::Closed));
    assert!(!counts.count(8, Reply::TimedOut));
    counts.connection_failed();
    assert_eq!((counts.errors, counts.transport_failures), (1, 4));
    assert_eq!((counts.accepted_records, counts.accepted_bytes), (0, 0));
    assert!(counts.count(8, Reply::Line("OK 3".to_owned())));
    assert_eq!((counts.accepted_records, counts.accepted_bytes), (1, 8));
}

#[test]
fn grants_are_an_interval_apart() {
    let mut bucket = TokenBucket::new(200, 1_000);
    assert_eq!(bucket.interval, 5_000_000);
    assert_eq!(bucket.wait(1_000), 0);
    assert_eq!(bucket.wait(1_000), 5_000_000);
    assert_eq!(bucket.wait(20_000_000), 0);
    assert_eq!(TokenBucket::new(0, 0).interval, 1_000_000_000);
}

#[test]
fn reports_say_how_a_run_ended() {
    let config = LoadConfig { run_id: "r".to_owned(), ..LoadConfig::default() };
    let counts = LoadCounts { accepted_records: 2, accepted_bytes: 512, ..LoadCounts::new() };
    let report = LoadReport::of(config, counts, vec![40, 10, 30, 20], 1500);
    assert_eq!(
        (report.ack_latency_p50_us, report.ack_latency_p95_us, report.ack_latency_p99_us),
        (20, 30, 30)
    );
    assert_eq!(report.exit(), LoadExit::Done);
    assert_eq!(
        report.summary_line(),
        "scripture-load run_id=r endpoint=127.0.0.1:9000 backend=unspecified chunk_policy=fleet-lab-64kib-phase-one(max_chunk_bytes=65536,max_chunk_records=256,max_inflight_chunks=1) accepted_records=2 accepted_bytes=512 errors=0 transport_failures=0 ack_p50_us=20 ack_p95_us=30 ack_p99_us=30 elapsed_ms=1500"
    );
    let config = LoadConfig::default();
    assert_eq!(LoadReport::of(config, LoadCounts::new(), vec![], 0).exit(), LoadExit::Nothing);
    let broken = LoadCounts { transport_failures: 1, ..LoadCounts::new() };
    assert_eq!(
        LoadReport::of(LoadConfig::default(), broken, vec![], 0).exit(),
        LoadExit::Degraded
    );
    assert_eq!(NamedChunkPolicy::fleet_lab_default().max_chunk_records, 256);
}

#[test]
fn load_flags_are_read() {
    match parse_args(&words("--connections 2 --rate 200 --run-id x --inflight-per-connection 3")) {
        LoadCommand::Run(request) => {
            assert_eq!(request.config.connections, 2);
            assert_eq!(request.config.target_records_per_sec, Some(200));
            assert_eq!(request.config.run_id, "x");
            assert_eq!(request.config.duration_secs, 5);
            assert_eq!(request.inflight_per_connection, 3);
        }
        other => panic!("not read: {other:?}"),
    }
    assert_eq!(parse_args(&words("--help")), LoadCommand::Help);
    assert_eq!(
        parse_args(&words("--what")),
        LoadCommand::Refused("unknown argument: --what".to_owned())
    );
    assert!(LOAD_HELP.contains("--endpoint"));
}

#[test]
fn numbers_are_sorted_and_padded() {
    assert_eq!(sort(vec![3, 1, 2, 1]), [1, 1, 2, 3]);
    let mut text = "n".to_owned();
    push_padded(&mut text, 42, 5);
    push_padded(&mut text, 123456, 3);
    assert_eq!(text, "n00042123456");
}

// The producing lab.

fn options() -> LabOptions {
    LabOptions {
        canon: "c".to_owned(),
        verse: "v".to_owned(),
        workers: 2,
        per_worker: 3,
        payload_bytes: 32,
        records_per_submission: 1,
    }
}

fn sample(worker: usize, seq: u64, first_offset: u64, endpoint: &str) -> AckSample {
    AckSample { worker, seq, first_offset, endpoint: endpoint.to_owned() }
}

#[test]
fn lab_payloads_are_labelled_and_filled() {
    let payload = lab_payload(7, 42, 32);
    assert_eq!(payload.len(), 32);
    assert!(payload.starts_with(b"w007-s00000042-"));
    assert_eq!(fill_up(b"abcdef", 3), b"abcdef");
    assert_eq!(fill_up(b"ab", 6), b"abxxxx");
}

#[test]
fn lab_payloads_of_different_places_differ() {
    assert_ne!(lab_payload(1, 0, 32), lab_payload(0, 1, 32));
    assert_ne!(lab_payload(1000, 1, 8), lab_payload(100, 1, 8));
    assert_ne!(encode_record("run", 1, 12, 16), encode_record("run", 11, 2, 16));
}

#[test]
fn workers_submit_in_batches_until_all_is_sent() {
    let asked = LabOptions { per_worker: 5, records_per_submission: 2, ..options() };
    let mut seq = 0;
    let mut sizes = Vec::new();
    while let Some(payloads) = asked.next_batch(1, seq) {
        for (place, payload) in payloads.iter().enumerate() {
            assert_eq!(*payload, lab_payload(1, seq + place as u64, 32));
        }
        sizes.push(payloads.len());
        seq += payloads.len() as u64;
    }
    assert_eq!((seq, sizes), (5, vec![2, 2, 1]));
    let single = LabOptions { records_per_submission: 0, ..options() };
    assert_eq!(single.next_batch(0, 0).map(|payloads| payloads.len()), Some(1));
    assert_eq!(single.next_batch(0, 3), None);
    assert_eq!(
        batch_samples(1, 4, 2, 9, "a:1"),
        [sample(1, 4, 9, "a:1"), sample(1, 5, 10, "a:1")]
    );
    assert_eq!(batch_samples(1, 4, 2, u64::MAX, "a:1")[1].first_offset, u64::MAX);
    assert_eq!(send_failure(1, 4, "timeout"), "w1 seq=4: timeout");
}

#[test]
fn status_bodies_give_the_counters() {
    let counters = counters_from_status(
        "ready store_puts=4 store_gets=9\nauthority_puts=1 authority_gets=2 other=x\n",
    );
    assert_eq!(
        counters,
        StoreCounters { data_puts: 4, data_gets: 9, authority_puts: 1, authority_gets: 2 }
    );
    assert_eq!(counters.total(), 16);
    assert_eq!(counters_from_status("nothing"), StoreCounters::default());
    let later = StoreCounters { data_puts: 6, ..counters };
    assert_eq!(later.delta(counters).data_puts, 2);
    assert_eq!(counters.delta(later).data_puts, 0);
}

#[test]
fn offsets_without_gap_or_repeat_are_contiguous() {
    let acks = vec![
        sample(0, 0, 12, "a:1"),
        sample(1, 0, 10, "a:1"),
        sample(0, 1, 11, "a:1"),
    ];
    assert_eq!(sorted_offsets(&acks), [10, 11, 12]);
    assert_eq!(
        correctness_section(&acks),
        "\n=== correctness evidence ===\nduplicate_offsets=0\noffset_range=10..12 contiguous=true gap_count=0\n"
    );
    let reversed: Vec<AckSample> = vec![
        sample(0, 1, 11, "a:1"),
        sample(1, 0, 10, "a:1"),
        sample(0, 0, 12, "a:1"),
    ];
    assert_eq!(correctness_section(&reversed), correctness_section(&acks));
}

#[test]
fn gaps_and_repeats_are_shown() {
    let acks = vec![
        sample(0, 0, 1, "a:1"),
        sample(0, 1, 1, "a:1"),
        sample(0, 2, 4, "b:1"),
    ];
    let text = correctness_section(&acks);
    assert!(text.contains("duplicate_offsets=1\n"));
    assert!(text.contains("contiguous=false gap_count=1\n  gap after 1 -> 4\n"));
    assert!(text.ends_with(GAP_NOTE));
    assert_eq!(
        attribute(&acks),
        [("a:1".to_owned(), 2), ("b:1".to_owned(), 1)]
    );
    assert!(attribution_section(&acks).contains("a failover occurred"));
    assert_eq!(
        correctness_section(&vec![]),
        "\n=== correctness evidence ===\nduplicate_offsets=0\n"
    );
}

#[test]
fn lab_sections_have_exact_words() {
    assert_eq!(
        lab_banner(&options()),
        "scripture produce-lab: canon=c verse=v workers=2 per_worker=3 payload_bytes=32"
    );
    assert_eq!(counts_line(&options(), 5, 1), "requested=6 committed=5 failed=1");
    assert_eq!(failure_section(&vec![]), "");
    assert_eq!(
        failure_section(&vec!["timeout".to_owned()]),
        "\n=== failures (1) ===\n  timeout\n"
    );
    let many: Vec<String> = (0..12).map(|at| format!("f{at}")).collect();
    assert!(failure_section(&many).contains("f9"));
    assert!(!failure_section(&many).contains("f10"));
    let acks = vec![sample(0, 0, 1, "a:1"), sample(1, 0, 2, "a:1")];
    let text = worker_section(&acks, &options());
    assert!(text.starts_with("\n=== per-worker ===\n"));
    assert_eq!(text.lines().count(), 4);
}
