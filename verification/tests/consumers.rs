//! The consumers: the printing one and the lab one.
use scripture_ops::consume::{
    contiguous_end, corrupt_payload, escape_text, print_record, read_failure, render_payload,
    write_summary, ConsumeOptions, ConsumeRun, FrameRecords, OutputFormat, PassEnd,
};
use scripture_ops::consume_lab::{
    generations_section, lab_banner, record_count, ConsumeOptions as LabConsumeOptions, LabTail,
};

fn options(format: OutputFormat, until: Option<u64>, from: u64) -> ConsumeOptions {
    ConsumeOptions {
        canon: "consume-demo-j!!".to_owned(),
        verse: "consume-demo-v!!".to_owned(),
        from,
        until_records: until,
        seconds: 5,
        format,
        no_follow: true,
    }
}

/// Entries of one record each, the record's offset that of the entry.
fn entry(position: u64, payload: &[u8]) -> Vec<FrameRecords> {
    vec![FrameRecords { base_offset: position, payloads: vec![payload.to_vec()] }]
}

/// Reads the entries as one pass does, and gives back what is printed.
fn consume(options: &ConsumeOptions, entries: &[&[u8]]) -> (ConsumeRun, String) {
    let mut run = ConsumeRun::begin(options).expect("begin");
    let mut out = String::new();
    run.observed(vec!["gen-1".to_owned()]);
    let end = contiguous_end(&vec![(0, entries.len() as u64)]);
    while run.reads(options, end) {
        let position = run.cursor;
        for record in run.take_entry(options, position, &entry(position, entries[position as usize]))
        {
            out += &print_record(options, position, record.offset, &record.payload, "d1");
        }
    }
    (run, out)
}

#[test]
fn render_payload_prints_safe_utf8_as_text() {
    let (encoding, rendered) = render_payload(b"hello world");
    assert_eq!(encoding, "text");
    assert_eq!(rendered, "hello world");
}

#[test]
fn render_payload_hex_encodes_control_bytes() {
    let (encoding, rendered) = render_payload(&[0x1b, b'[', b'3', b'1', b'm']);
    assert_eq!(encoding, "hex");
    assert_eq!(rendered, "1b5b33316d");
    assert!(!rendered.contains('\u{1b}'));
}

#[test]
fn render_payload_hex_encodes_non_utf8() {
    let (encoding, rendered) = render_payload(&[0xff, 0xfe, 0x00]);
    assert_eq!(encoding, "hex");
    assert_eq!(rendered, "fffe00");
}

#[test]
fn output_format_parse_rejects_unknown() {
    assert!(OutputFormat::parse("yaml").is_err());
    assert_eq!(
        OutputFormat::parse("jsonl").expect("jsonl"),
        OutputFormat::Jsonl
    );
}

#[test]
fn no_follow_text_prints_known_payloads_and_empty_is_success() {
    let asked = options(OutputFormat::Text, None, 0);
    let (empty, out) = consume(&asked, &[]);
    assert_eq!(empty.records_printed, 0);
    assert!(out.is_empty());
    let (run, text) = consume(&asked, &[b"alpha", b"beta"]);
    assert_eq!(run.summary(1).records_printed, 2);
    assert!(text.contains("payload=text:alpha"));
    assert!(text.contains("payload=text:beta"));
    assert!(text.contains("canon=consume-demo-j!!"));
    assert!(text.contains("verse=consume-demo-v!!"));
}

#[test]
fn jsonl_is_one_object_per_record_on_stdout() {
    let (run, text) = consume(
        &options(OutputFormat::Jsonl, None, 0),
        &[b"json-one", &[0xff, 0x00, 0x1b]],
    );
    assert_eq!(run.summary(1).records_printed, 2);
    let lines: Vec<_> = text.lines().collect();
    assert_eq!(lines.len(), 2);
    for line in &lines {
        let value: serde_json::Value = serde_json::from_str(line).expect("json");
        assert!(value.get("digest").is_some());
        assert!(value.get("payload").is_some());
    }
    assert!(lines[0].contains("json-one"));
    assert!(lines[1].contains("\"payload_encoding\":\"hex\""));
    assert!(!text.contains('\u{1b}'));
}

#[test]
fn json_lines_escape_what_they_quote() {
    let mut asked = options(OutputFormat::Jsonl, None, 0);
    asked.canon = "a\"b\\c".to_owned();
    asked.verse = "\n\r\t\u{8}\u{c}\u{1f}\u{7f}\u{e9}".to_owned();
    let line = print_record(&asked, 7, 9, b"say \"hi\"", "d");
    let value: serde_json::Value = serde_json::from_str(&line).expect("json");
    assert_eq!(value["canon"], "a\"b\\c");
    assert_eq!(value["verse"], "\n\r\t\u{8}\u{c}\u{1f}\u{7f}\u{e9}");
    assert!(line.contains("\"verse\":\"\\n\\r\\t\\b\\f\\u001f\u{7f}\u{e9}\""));
    assert_eq!(line.matches('\n').count(), 1);
    assert_eq!(value["payload"], "say \\\"hi\\\"");
    assert_eq!(value["entry"], 7);
    assert_eq!(value["record_offset"], 9);
    assert_eq!(value["bytes"], 8);
}

#[test]
fn from_and_until_records_bound_the_cursor() {
    let (run, text) = consume(
        &options(OutputFormat::Text, Some(2), 1),
        &[b"r0", b"r1", b"r2", b"r3", b"r4"],
    );
    let summary = run.summary(1);
    assert_eq!(summary.records_printed, 2);
    assert!(!text.contains("payload=text:r0"));
    assert!(text.contains("payload=text:r1"));
    assert!(text.contains("payload=text:r2"));
    assert!(!text.contains("payload=text:r3"));
    assert_eq!(summary.final_cursor, 3);
}

#[test]
fn corrupt_entry_fails_closed_with_position() {
    let mapped = corrupt_payload(7, "bad magic");
    assert_eq!(mapped, "consume: corrupt or unresolvable payload at entry 7: bad magic");
    assert!(read_failure(5, "gone").contains('5'));
}

#[test]
fn membership_handoff_records_print_exactly_once() {
    let asked = options(OutputFormat::Text, None, 0);
    let mut run = ConsumeRun::begin(&asked).expect("begin");
    run.observed(vec!["gen-1".to_owned()]);
    let before = run.take_entry(&asked, 0, &entry(0, b"before-cutover"));
    assert!(!run.membership_change);
    run.observed(vec!["gen-1".to_owned(), "gen-2".to_owned()]);
    let after = run.take_entry(&asked, 1, &entry(1, b"after-cutover"));
    let summary = run.summary(3);
    assert_eq!(summary.records_printed, 2);
    assert!(summary.membership_change);
    assert_eq!(before.len(), 1);
    assert_eq!(after[0].payload, b"after-cutover");
}

#[test]
fn an_entry_prints_no_more_than_there_is_room_for() {
    let asked = options(OutputFormat::Text, Some(3), 0);
    let mut run = ConsumeRun::begin(&asked).expect("begin");
    let frames = vec![
        FrameRecords { base_offset: 10, payloads: vec![b"a".to_vec(), b"b".to_vec()] },
        FrameRecords { base_offset: 12, payloads: vec![b"c".to_vec(), b"d".to_vec()] },
    ];
    let printed = run.take_entry(&asked, 0, &frames);
    let offsets: Vec<u64> = printed.iter().map(|record| record.offset).collect();
    assert_eq!(offsets, [10, 11, 12]);
    assert!(!run.observes(&asked, false));
    let mut unbounded = ConsumeRun::begin(&options(OutputFormat::Text, None, 0)).expect("begin");
    let all = unbounded.take_entry(&options(OutputFormat::Text, None, 0), 0, &frames);
    assert_eq!(all.len(), 4);
}

#[test]
fn entries_print_as_one_stream() {
    let asked = options(OutputFormat::Text, Some(3), 0);
    let (_, one_by_one) = consume(&asked, &[b"a", b"b", b"c", b"d"]);
    let mut run = ConsumeRun::begin(&asked).expect("begin");
    let whole = vec![FrameRecords {
        base_offset: 0,
        payloads: vec![b"a".to_vec(), b"b".to_vec(), b"c".to_vec(), b"d".to_vec()],
    }];
    let at_once: Vec<Vec<u8>> = run
        .take_entry(&asked, 0, &whole)
        .into_iter()
        .map(|record| record.payload)
        .collect();
    assert_eq!(at_once, [b"a", b"b", b"c"]);
    let lines: Vec<&str> = one_by_one.lines().collect();
    assert_eq!(lines.len(), 3);
    assert!(lines[2].ends_with("payload=text:c"));
}

#[test]
fn passes_stop_go_on_or_wait() {
    let mut asked = options(OutputFormat::Text, None, 0);
    let mut run = ConsumeRun::begin(&asked).expect("begin");
    assert_eq!(run.end_pass(&asked), PassEnd::Stop);
    asked.no_follow = false;
    assert_eq!(run.end_pass(&asked), PassEnd::Wait);
    run.take_entry(&asked, 0, &entry(0, b"x"));
    assert_eq!(run.end_pass(&asked), PassEnd::Again);
    assert!(!run.observes(&asked, true));
    asked.seconds = 0;
    assert!(ConsumeRun::begin(&asked).expect_err("zero").contains("--seconds 0 is rejected"));
    assert_eq!(ConsumeOptions::default_seconds(), 30);
}

#[test]
fn summaries_and_chains_have_exact_words() {
    let (run, _) = consume(&options(OutputFormat::Text, None, 0), &[b"x"]);
    assert_eq!(
        write_summary(&run.summary(12)),
        "scripture consume: entries_scanned=1 records_printed=1 final_cursor=1 elapsed_ms=12 membership_change=no\n"
    );
    assert_eq!(contiguous_end(&vec![]), 0);
    assert_eq!(contiguous_end(&vec![(0, 4), (4, 3)]), 7);
    assert_eq!(contiguous_end(&vec![(u64::MAX, 4)]), u64::MAX);
    assert!(!escape_text("a\nb").contains('\n'));
    assert_eq!(escape_text("plain"), "plain");
}

#[test]
fn the_lab_tail_keeps_its_stalls() {
    let second = 1_000_000_000;
    let mut tail = LabTail::new();
    tail.end_pass(true, second);
    assert!(tail.stalls.is_empty());
    tail.end_pass(false, 4 * second);
    tail.end_pass(true, 5 * second);
    tail.end_pass(true, 6 * second);
    assert_eq!(tail.stalls, [4 * second]);
    assert_eq!(tail.last_progress, 6 * second);
}

#[test]
fn entries_hold_the_records_of_their_frames() {
    let frame = |count: usize| FrameRecords {
        base_offset: 0,
        payloads: vec![b"x".to_vec(); count],
    };
    assert_eq!(record_count(&vec![]), Some(0));
    assert_eq!(record_count(&vec![frame(2), frame(0), frame(3)]), Some(5));
}

#[test]
fn payloads_are_told_from_how_they_are_shown() {
    let payloads: [&[u8]; 6] = [b"\\t", b"\t", b"6162", b"ab", b"a\"b", &[0xff]];
    for (at, left) in payloads.iter().enumerate() {
        for right in &payloads[at + 1..] {
            assert_ne!(render_payload(left), render_payload(right));
        }
    }
}

#[test]
fn the_lab_tail_counts_by_generation() {
    let asked = LabConsumeOptions {
        canon: "c".to_owned(),
        verse: "v".to_owned(),
        seconds: 5,
        until_records: 6,
    };
    let mut tail = LabTail::new();
    tail.take_entry(0, "gen-1", 2);
    tail.take_entry(1, "gen-2", 3);
    assert!(!tail.is_satisfied(&asked));
    assert!(tail.observes(&asked, false) && !tail.observes(&asked, true));
    assert!(tail.reads(&asked, 3) && !tail.reads(&asked, 2));
    tail.take_entry(2, "gen-1", 1);
    assert!(tail.is_satisfied(&asked));
    assert!(!tail.observes(&asked, false) && !tail.reads(&asked, 9));
    let endless = LabConsumeOptions {
        canon: "c".to_owned(),
        verse: "v".to_owned(),
        seconds: 5,
        until_records: 0,
    };
    assert!(tail.observes(&endless, false) && tail.reads(&endless, 9));
    assert_eq!((tail.cursor, tail.records), (3, 6));
    assert_eq!(
        generations_section(&tail),
        "\n=== generations read ===\n  gen-1: 3 records\n  gen-2: 3 records\n  (read spans a cutover)\n"
    );
    assert_eq!(
        lab_banner(&asked, "root/cv"),
        "scripture consume-lab: canon=c verse=v seconds=5 root=root/cv (lab alias; prefer `scripture consume` for record output)"
    );
}
