//! Producer Wire clients.
use bytes::Bytes;
use scripture_ops::ids::ProducerId;
use scripture_ops::wire::{
    client_verdict, committed_verdict, confirmation, declared_frame_length, flush_target,
    matching_ack, parse_client_args, parse_config, producer_id, reply_outcome, spooled_line,
    vanished, CommittedSubmission, DrainRun, FlushRun, FlushStep, PendingWireSubmission,
    ProducerClientError, ProducerOutboxIdentity, ProducerWireClient, ProducerWireFrame,
    SubmitOutcome, OMPROG_USAGE, WIRE_CLIENT_USAGE,
};

fn pending() -> PendingWireSubmission {
    PendingWireSubmission {
        sequence: 4,
        encoded_submit: Bytes::from_static(b"not inspected here").to_vec(),
    }
}

fn ack(sequence: u64, first_offset: u64, next_offset: u64) -> ProducerWireFrame {
    ProducerWireFrame::Ack { producer_epoch: 1, sequence, first_offset, next_offset }
}

fn refusal() -> ProducerWireFrame {
    ProducerWireFrame::Error {
        producer_epoch: 1,
        sequence: 4,
        code: "Ambiguous".to_owned(),
        message: "lost reply".to_owned(),
    }
}

fn words(line: &str) -> Vec<String> {
    line.split_whitespace().map(str::to_owned).collect()
}

#[test]
fn omprog_only_confirms_a_matching_nonempty_committed_range() {
    assert!(matching_ack(ack(4, 10, 11), &pending()).is_ok());
    assert!(matching_ack(ack(5, 10, 11), &pending()).is_err());
    assert!(matching_ack(ack(4, 11, 11), &pending()).is_err());
    assert!(matching_ack(refusal(), &pending()).is_err());
}

#[test]
fn client_type_keeps_route_separate_from_durable_target_identity() {
    let identity = ProducerOutboxIdentity {
        producer_id: ProducerId::from_bytes(*b"producerclient01"),
        producer_epoch: 1,
        target: "canon/metrics/verse/node-a".into(),
    };
    let mut client = ProducerWireClient::new(identity, "scribe-a:9001".to_owned());
    client.retarget("scribe-b:9001".to_owned());
    assert_eq!(client.endpoint(), "scribe-b:9001");
    assert_eq!(client.identity().target, "canon/metrics/verse/node-a");
}

#[test]
fn committed_outcome_carries_exact_identity_and_range() {
    let outcome = SubmitOutcome::Committed(CommittedSubmission {
        producer_epoch: 3,
        sequence: 7,
        first_offset: 11,
        next_offset: 12,
    });
    assert!(matches!(
        outcome,
        SubmitOutcome::Committed(CommittedSubmission {
            sequence: 7,
            first_offset: 11,
            next_offset: 12,
            ..
        })
    ));
}

#[test]
fn only_a_matching_ack_is_a_commit() {
    assert_eq!(
        reply_outcome(Ok(ack(4, 10, 11)), 1, 4),
        SubmitOutcome::Committed(CommittedSubmission {
            producer_epoch: 1,
            sequence: 4,
            first_offset: 10,
            next_offset: 11,
        })
    );
    let mismatch = SubmitOutcome::Ambiguous {
        message: "Scribe ACK identity/range mismatch".to_owned(),
    };
    assert_eq!(reply_outcome(Ok(ack(5, 10, 11)), 1, 4), mismatch);
    assert_eq!(reply_outcome(Ok(ack(4, 11, 11)), 1, 4), mismatch);
    assert_eq!(reply_outcome(Ok(ack(4, 10, 11)), 2, 4), mismatch);
    assert_eq!(
        reply_outcome(Ok(refusal()), 1, 4),
        SubmitOutcome::Refused {
            code: "Ambiguous".to_owned(),
            message: "lost reply".to_owned(),
        }
    );
    assert!(matches!(
        reply_outcome(Ok(ProducerWireFrame::Other { rendered: "Hello".to_owned() }), 1, 4),
        SubmitOutcome::Ambiguous { .. }
    ));
}

#[test]
fn a_lost_reply_is_ambiguous() {
    assert_eq!(
        reply_outcome(Err("reset by peer".to_owned()), 1, 4),
        SubmitOutcome::Ambiguous { message: "reset by peer".to_owned() }
    );
    assert!(matches!(vanished(), SubmitOutcome::Ambiguous { .. }));
}

#[test]
fn a_flush_goes_in_order_and_stops_where_it_is_refused() {
    let receipt = |sequence: u64| CommittedSubmission {
        producer_epoch: 1,
        sequence,
        first_offset: sequence,
        next_offset: sequence + 1,
    };
    let mut run = FlushRun::new(vec![3, 4, 5], 4);
    assert_eq!(run.next(), Some(3));
    assert_eq!(run.settle(SubmitOutcome::Committed(receipt(3))), FlushStep::Mark(receipt(3)));
    assert_eq!(run.next(), Some(4));
    assert_eq!(
        run.settle(SubmitOutcome::Committed(receipt(4))),
        FlushStep::MarkLast(receipt(4))
    );
    assert_eq!(run.next(), None);

    let mut run = FlushRun::new(vec![3, 4], 4);
    let lost = SubmitOutcome::Ambiguous { message: "lost".to_owned() };
    assert!(matches!(run.settle(lost), FlushStep::Stop(_)));
    assert_eq!(run.next(), None);
    assert_eq!(flush_target(&vec![3, 4]), Some(4));
    assert_eq!(flush_target(&vec![]), None);
}

#[test]
fn frames_longer_than_allowed_are_not_read() {
    assert_eq!(declared_frame_length(&[0, 0, 1, 0], 1024), Some(260));
    assert_eq!(declared_frame_length(&[0, 0, 4, 1], 1024), None);
    assert_eq!(declared_frame_length(&[0, 0, 4, 0], 1024), Some(1028));
}

#[test]
fn omprog_reads_its_flags() {
    let given = parse_config(&words(
        "--scribe h:1 --outbox /spool --target c/v --producer-id producerclient01 --epoch 3",
    ))
    .expect("config");
    assert_eq!((given.scribe.as_str(), given.outbox.as_str()), ("h:1", "/spool"));
    assert_eq!(given.producer_id, ProducerId::from_bytes(*b"producerclient01"));
    assert_eq!(given.epoch, 3);
    let refused = |line: &str| parse_config(&words(line)).expect_err("refused");
    assert_eq!(refused("--scribe h:1"), OMPROG_USAGE);
    assert_eq!(refused("--what"), OMPROG_USAGE);
    assert_eq!(
        refused("--scribe h:1 --outbox /s --target t --producer-id short"),
        "--producer-id must be exactly 16 ASCII bytes"
    );
    assert_eq!(
        refused("--scribe h:1 --outbox /s --target t --producer-id producerclient01 --epoch 0"),
        "--epoch must be nonzero"
    );
    assert_eq!(confirmation(true), "OK\n");
    assert_eq!(confirmation(false), "DEFER_COMMIT\n");
}

#[test]
fn a_drain_stops_at_the_first_that_is_not_confirmed() {
    let pending = |sequence: u64| PendingWireSubmission { sequence, encoded_submit: vec![1] };
    let mut run = DrainRun::new(vec![pending(4), pending(7), pending(5)]);
    assert_eq!(run.next(), Some(&pending(4)));
    assert_eq!(run.settle(Ok(ack(4, 10, 11))), Ok(4));
    assert_eq!(run.next(), Some(&pending(7)));
    assert_eq!(
        run.settle(Ok(ack(5, 10, 11))),
        Err("Scribe ACK identity/range mismatch".to_owned())
    );
    assert_eq!(run.next(), None);
    let mut lost = DrainRun::new(vec![pending(4)]);
    assert_eq!(lost.settle(Err("reset".to_owned())), Err("reset".to_owned()));
    assert_eq!(lost.next(), None);
    assert_eq!(DrainRun::new(vec![]).next(), None);
}

#[test]
fn the_wire_client_reads_its_words() {
    let given = parse_client_args(&words("h 9000 hello producerclient01 2 5")).expect("request");
    assert_eq!((given.host.as_str(), given.port), ("h", 9000));
    assert_eq!(given.payload, "hello");
    assert_eq!((given.epoch, given.sequence), (2, 5));
    assert_eq!(given.outbox, None);
    let spooled = parse_client_args(&words(
        "h 9000 hello producerclient01 2 5 --outbox /spool --target c/v",
    ))
    .expect("request");
    assert_eq!(spooled.outbox, Some(("/spool".to_owned(), "c/v".to_owned())));
    assert_eq!(parse_client_args(&words("h")), Err(WIRE_CLIENT_USAGE.to_owned()));
    assert_eq!(
        parse_client_args(&words("h 9000 hello --outbox")),
        Err("--outbox needs PATH".to_owned())
    );
    assert!(parse_client_args(&words("h 99999 hello")).is_err());
    let configured = parse_client_args(&words(
        "127.0.0.1 9001 hello --config /etc/scripture/scripture.yaml",
    ))
    .expect("request");
    assert_eq!(configured.config.as_deref(), Some("/etc/scripture/scripture.yaml"));
    assert_eq!((configured.outbox, given.config), (None, None));
    assert_eq!(
        parse_client_args(&words("h 9000 hello --config")),
        Err("--config needs PATH".to_owned())
    );
    assert_eq!(
        parse_client_args(&words("h 9000 hello --config c --outbox /spool --target c/v")),
        Err(WIRE_CLIENT_USAGE.to_owned())
    );
    assert!(producer_id("short").is_err());
    assert!(producer_id("sixteen-bytes-é").is_err());
    assert!(producer_id("producerclient01").is_ok());
}

#[test]
fn the_wire_client_prints_its_verdict() {
    assert_eq!(
        client_verdict(ack(4, 10, 11), 1, 4),
        Ok("{\"verdict\":\"ack\",\"epoch\":1,\"sequence\":4,\"first_offset\":10,\"next_offset\":11}"
            .to_owned())
    );
    assert_eq!(
        client_verdict(ack(4, 10, 11), 1, 5),
        Err("Scribe ACK identity mismatch".to_owned())
    );
    assert_eq!(spooled_line(1, 4), "{\"verdict\":\"spooled\",\"epoch\":1,\"sequence\":4}");
    assert_eq!(
        committed_verdict(ack(4, 10, 11), 1, 4),
        Ok("{\"verdict\":\"committed\",\"epoch\":1,\"sequence\":4,\"first_offset\":10,\"next_offset\":11}"
            .to_owned())
    );
    assert_eq!(
        client_verdict(refusal(), 1, 4),
        Err("Scribe error epoch=1 sequence=4 code=Ambiguous: lost reply".to_owned())
    );
    assert_eq!(
        client_verdict(ProducerWireFrame::Other { rendered: "Hello".to_owned() }, 1, 4),
        Err("expected Ack or Error, got Hello".to_owned())
    );
}

#[test]
fn client_errors_have_words() {
    assert!(ProducerClientError::Outbox("full".to_owned()).message().contains("full"));
    assert!(ProducerClientError::Wire("short".to_owned()).message().contains("short"));
}
