//! Producer Wire v1 clients.
//!
//! The durable boundary is the producer's outbox, not a successful TCP write. Every
//! submission is staged before a connection is opened. Uncertainty is reported as such,
//! with the exact bytes retained for retry; it never advances the producer sequence.
//! Connections and the outbox itself are outside; this module says what every reply
//! means and what may be sent next.
use crate::args::{
    arguments_view, lemma_scan_with_keeps_places, no_values, scan_with, scanned_with,
    short_at_or, short_flag, short_or, text_at, text_flag, text_value, values_view, Rule, Scan,
    ScanView,
};
use crate::buffers::{from_be32, read_be32};
use crate::config::{is_fixed_id, ScriptureConfig};
use crate::ids::{identity_from_slice, ProducerId};
use crate::text::{
    decimal, optional, parse_u16, parse_u32, parse_u64, parsed_number, push_decimal, same_text,
    u16_refusal, u32_refusal, u64_refusal,
};
use vstd::prelude::*;
use vstd::utf8::encode_utf8;

verus! {

/// Exact committed result for one native submission.
#[derive(Debug, Clone, Copy, PartialEq, Eq, Structural)]
pub struct CommittedSubmission {
    /// Stable producer epoch.
    pub producer_epoch: u32,
    /// Stable sequence in that epoch.
    pub sequence: u64,
    /// First committed record offset.
    pub first_offset: u64,
    /// Offset after the committed record span.
    pub next_offset: u64,
}

/// An explicit result at the producer boundary.
#[derive(Debug, PartialEq, Eq)]
pub enum SubmitOutcome {
    /// Scribe returned a matching committed receipt.
    Committed(CommittedSubmission),
    /// Scribe explicitly refused the same durable submission.
    Refused {
        /// Name of the machine-readable Scribe reason.
        code: String,
        /// Bounded peer diagnostic.
        message: String,
    },
    /// Transport/reply uncertainty. Exact bytes remain in the outbox.
    Ambiguous {
        /// Bounded local diagnostic; not a negative ACK.
        message: String,
    },
}

/// A decoded reply.
#[derive(Debug, PartialEq, Eq)]
pub enum ProducerWireFrame {
    Ack { producer_epoch: u32, sequence: u64, first_offset: u64, next_offset: u64 },
    Error { producer_epoch: u32, sequence: u64, code: String, message: String },
    /// A frame that is no reply, in the words in which it is shown.
    Other { rendered: String },
}

/// A staged submission that has no committed receipt yet.
#[derive(Debug, PartialEq, Eq)]
pub struct PendingWireSubmission {
    pub sequence: u64,
    pub encoded_submit: Vec<u8>,
}

/// The durable producer identity and the logical target that it is bound to.
#[derive(Debug, PartialEq, Eq)]
pub struct ProducerOutboxIdentity {
    pub producer_id: ProducerId,
    pub producer_epoch: u32,
    pub target: String,
}

/// Construction and local durability failures.
#[derive(Debug, PartialEq, Eq)]
pub enum ProducerClientError {
    /// Outbox could not establish its durable local boundary.
    Outbox(String),
    /// Submission could not be encoded before staging.
    Wire(String),
}

impl ProducerClientError {
    /// What the error says.
    pub open spec fn words(&self) -> Seq<char> {
        match self {
            ProducerClientError::Outbox(source) => "producer outbox: "@ + source@,
            ProducerClientError::Wire(source) => "producer-wire: "@ + source@,
        }
    }

    /// The error in words.
    pub fn message(&self) -> (message: String)
        ensures
            message@ == self.words(),
    {
        let mut message = String::new();
        match self {
            ProducerClientError::Outbox(source) => {
                message.append("producer outbox: ");
                message.append(source.as_str());
            },
            ProducerClientError::Wire(source) => {
                message.append("producer-wire: ");
                message.append(source.as_str());
            },
        }
        assert(message@ =~= self.words());
        message
    }
}

// Frames.

/// How long a whole frame is, given its first four bytes; `None` where it declares more
/// than is allowed.
pub fn declared_frame_length(prefix: &[u8; 4], max_frame_bytes: usize) -> (length: Option<usize>)
    requires
        max_frame_bytes <= usize::MAX - 4,
    ensures
        match length {
            Some(length) => from_be32(prefix@) <= max_frame_bytes && length == from_be32(prefix@)
                + 4,
            None => from_be32(prefix@) > max_frame_bytes,
        },
{
    let declared: u32 = read_be32(prefix.as_slice());
    if declared as u64 > max_frame_bytes as u64 {
        return None;
    }
    Some(declared as usize + 4)
}

// Replies.

/// Whether an acknowledgement is that of a submission: same identity, and at least one
/// record committed.
pub open spec fn acknowledges(frame: ProducerWireFrame, epoch: u32, sequence: u64) -> bool {
    frame matches ProducerWireFrame::Ack {
        producer_epoch,
        sequence: acknowledged,
        first_offset,
        next_offset,
    } && producer_epoch == epoch && acknowledged == sequence && first_offset < next_offset
}

/// Whether an outcome is what a reply to a submission means. Failing to get a reply, and
/// any reply but a refusal and a matching acknowledgement, is uncertainty.
pub open spec fn is_outcome_of(
    outcome: SubmitOutcome,
    reply: Result<ProducerWireFrame, String>,
    epoch: u32,
    sequence: u64,
) -> bool {
    match reply {
        Err(failure) => outcome matches SubmitOutcome::Ambiguous { message } && message@
            == failure@,
        Ok(frame) => match frame {
            ProducerWireFrame::Ack {
                producer_epoch,
                sequence: acknowledged,
                first_offset,
                next_offset,
            } => if acknowledges(frame, epoch, sequence) {
                outcome == SubmitOutcome::Committed(
                    CommittedSubmission {
                        producer_epoch,
                        sequence: acknowledged,
                        first_offset,
                        next_offset,
                    },
                )
            } else {
                outcome matches SubmitOutcome::Ambiguous { message } && message@
                    == "Scribe ACK identity/range mismatch"@
            },
            ProducerWireFrame::Error { code, message, .. } => outcome == (
            SubmitOutcome::Refused { code, message }),
            ProducerWireFrame::Other { rendered } => outcome matches SubmitOutcome::Ambiguous {
                message,
            } && message@ == "expected Producer Wire ACK/Error, received "@ + rendered@,
        },
    }
}

/// What a reply to a submission means.
pub fn reply_outcome(reply: Result<ProducerWireFrame, String>, epoch: u32, sequence: u64) -> (outcome:
    SubmitOutcome)
    ensures
        is_outcome_of(outcome, reply, epoch, sequence),
{
    match reply {
        Err(message) => SubmitOutcome::Ambiguous { message },
        Ok(
            ProducerWireFrame::Ack {
                producer_epoch,
                sequence: acknowledged,
                first_offset,
                next_offset,
            },
        ) => {
            if producer_epoch == epoch && acknowledged == sequence && first_offset < next_offset {
                SubmitOutcome::Committed(
                    CommittedSubmission {
                        producer_epoch,
                        sequence: acknowledged,
                        first_offset,
                        next_offset,
                    },
                )
            } else {
                SubmitOutcome::Ambiguous {
                    message: "Scribe ACK identity/range mismatch".to_owned(),
                }
            }
        },
        Ok(ProducerWireFrame::Error { code, message, .. }) => SubmitOutcome::Refused {
            code,
            message,
        },
        Ok(ProducerWireFrame::Other { rendered }) => {
            let mut message = String::new();
            message.append("expected Producer Wire ACK/Error, received ");
            message.append(rendered.as_str());
            assert(message@ =~= "expected Producer Wire ACK/Error, received "@ + rendered@);
            SubmitOutcome::Ambiguous { message }
        },
    }
}

// Flushing.

/// What to do with an outcome.
#[derive(Debug, PartialEq, Eq)]
pub enum FlushStep {
    /// Checkpoint the receipt as committed, then go on.
    Mark(CommittedSubmission),
    /// Checkpoint the receipt as committed; it is the one that was wanted.
    MarkLast(CommittedSubmission),
    /// Nothing further may be sent; this is the result.
    Stop(SubmitOutcome),
}

/// Sends pending submissions in order until a wanted one is committed.
#[derive(Debug, PartialEq, Eq)]
pub struct FlushRun {
    /// Sequences that were pending when the run began, in order.
    pub pending: Vec<u64>,
    /// How many of them are committed.
    pub committed: usize,
    pub wanted: u64,
    /// Whether nothing further may be sent.
    pub ended: bool,
}

/// What a run is, apart from its representation.
pub struct FlushView {
    pub pending: Seq<u64>,
    pub committed: int,
    pub wanted: u64,
    pub ended: bool,
}

impl View for FlushRun {
    type V = FlushView;

    open spec fn view(&self) -> FlushView {
        FlushView {
            pending: self.pending@,
            committed: self.committed as int,
            wanted: self.wanted,
            ended: self.ended,
        }
    }
}

impl FlushView {
    /// The submission to send now.
    pub open spec fn next(self) -> Option<u64> {
        if !self.ended && self.committed < self.pending.len() {
            Some(self.pending[self.committed])
        } else {
            None
        }
    }

    /// The run after an outcome of the submission that was sent.
    pub open spec fn after(self, outcome: SubmitOutcome) -> FlushView {
        match outcome {
            SubmitOutcome::Committed(receipt) => FlushView {
                committed: self.committed + 1,
                ended: receipt.sequence == self.wanted,
                ..self
            },
            _ => FlushView { ended: true, ..self },
        }
    }

    /// The run after outcomes, one for each submission that was sent.
    pub open spec fn after_all(self, outcomes: Seq<SubmitOutcome>) -> FlushView
        decreases outcomes.len(),
    {
        if outcomes.len() == 0 {
            self
        } else {
            self.after_all(outcomes.drop_last()).after(outcomes.last())
        }
    }
}

impl FlushRun {
    /// Starts a run.
    pub fn new(pending: Vec<u64>, wanted: u64) -> (run: Self)
        ensures
            run@ == (FlushView { pending: pending@, committed: 0, wanted, ended: false }),
    {
        FlushRun { pending, committed: 0, wanted, ended: false }
    }

    /// The submission to send now.
    pub fn next(&self) -> (sequence: Option<u64>)
        ensures
            sequence == self@.next(),
    {
        if !self.ended && self.committed < self.pending.len() {
            Some(self.pending[self.committed])
        } else {
            None
        }
    }

    /// Takes in the outcome of the submission that was sent.
    pub fn settle(&mut self, outcome: SubmitOutcome) -> (step: FlushStep)
        requires
            old(self)@.next() is Some,
        ensures
            final(self)@ == old(self)@.after(outcome),
            step == (match outcome {
                SubmitOutcome::Committed(receipt) => if receipt.sequence == old(self).wanted {
                    FlushStep::MarkLast(receipt)
                } else {
                    FlushStep::Mark(receipt)
                },
                _ => FlushStep::Stop(outcome),
            }),
    {
        let total: usize = self.pending.len();
        assert(self.committed < total);
        match outcome {
            SubmitOutcome::Committed(receipt) => {
                self.committed = self.committed + 1;
                if receipt.sequence == self.wanted {
                    self.ended = true;
                    FlushStep::MarkLast(receipt)
                } else {
                    FlushStep::Mark(receipt)
                }
            },
            outcome => {
                self.ended = true;
                FlushStep::Stop(outcome)
            },
        }
    }
}

/// What a run comes to that has sent everything without the wanted receipt: a
/// contradiction between what was staged and what is pending. Success is not claimed.
pub fn vanished() -> (outcome: SubmitOutcome)
    ensures
        outcome matches SubmitOutcome::Ambiguous { message } && message@
            == "staged submission disappeared before a matching receipt"@,
{
    SubmitOutcome::Ambiguous {
        message: "staged submission disappeared before a matching receipt".to_owned(),
    }
}

/// The submission up to which pending work is flushed: the last.
pub fn flush_target(pending: &Vec<u64>) -> (last: Option<u64>)
    ensures
        last == (if pending@.len() == 0 {
            None
        } else {
            Some(pending@.last())
        }),
{
    if pending.len() == 0 {
        None
    } else {
        Some(pending[pending.len() - 1])
    }
}

/// One producer client bound to one stable producer identity and logical target.
///
/// Routes are mutable (`retarget`), but the target label is not. That makes a route
/// change legal while preventing accidental reuse of a producer transcript for another
/// Canon/Verse.
#[derive(Debug, PartialEq, Eq)]
pub struct ProducerWireClient {
    identity: ProducerOutboxIdentity,
    endpoint: String,
}

impl ProducerWireClient {
    /// The identity that the client is bound to.
    pub closed spec fn bound(&self) -> ProducerOutboxIdentity {
        self.identity
    }

    /// The route of the client.
    pub closed spec fn route(&self) -> Seq<char> {
        self.endpoint@
    }

    /// A client of an identity on a route.
    pub fn new(identity: ProducerOutboxIdentity, endpoint: String) -> (client: Self)
        ensures
            client.bound() == identity,
            client.route() == endpoint@,
    {
        ProducerWireClient { identity, endpoint }
    }

    /// Current mutable Scribe route.
    pub fn endpoint(&self) -> (endpoint: &str)
        ensures
            endpoint@ == self.route(),
    {
        self.endpoint.as_str()
    }

    /// Changes only the Scribe route. Durable identity and target remain fixed.
    pub fn retarget(&mut self, endpoint: String)
        ensures
            final(self).bound() == old(self).bound(),
            final(self).route() == endpoint@,
    {
        self.endpoint = endpoint;
    }

    /// The durable producer identity/target binding.
    pub fn identity(&self) -> (identity: &ProducerOutboxIdentity)
        ensures
            *identity == self.bound(),
    {
        &self.identity
    }

    /// What a reply to one of the client's submissions means.
    pub fn outcome(&self, reply: Result<ProducerWireFrame, String>, sequence: u64) -> (outcome:
        SubmitOutcome)
        ensures
            is_outcome_of(outcome, reply, self.bound().producer_epoch, sequence),
    {
        reply_outcome(reply, self.identity.producer_epoch, sequence)
    }
}

// The rsyslog helper.

/// Whether a frame confirms a pending submission to rsyslog, and what is said where it
/// does not.
pub open spec fn is_match_of(
    matched: Result<(), String>,
    frame: ProducerWireFrame,
    sequence: u64,
) -> bool {
    match frame {
        ProducerWireFrame::Ack { sequence: acknowledged, first_offset, next_offset, .. } => if
        acknowledged == sequence && first_offset < next_offset {
            matched is Ok
        } else {
            matched matches Err(said) && said@ == "Scribe ACK identity/range mismatch"@
        },
        ProducerWireFrame::Error { code, message, .. } => matched matches Err(said) && said@
            == "Scribe refused pending submission: "@ + code@ + ": "@ + message@,
        ProducerWireFrame::Other { rendered } => matched matches Err(said) && said@
            == "expected Ack/Error, received "@ + rendered@,
    }
}

/// Only a matching non-empty committed range confirms a pending submission.
pub fn matching_ack(frame: ProducerWireFrame, pending: &PendingWireSubmission) -> (matched: Result<
    (),
    String,
>)
    ensures
        is_match_of(matched, frame, pending.sequence),
{
    let mut said = String::new();
    match frame {
        ProducerWireFrame::Ack { sequence, first_offset, next_offset, .. } => {
            if sequence == pending.sequence && first_offset < next_offset {
                return Ok(());
            }
            said.append("Scribe ACK identity/range mismatch");
            assert(said@ =~= "Scribe ACK identity/range mismatch"@);
        },
        ProducerWireFrame::Error { code, message, .. } => {
            said.append("Scribe refused pending submission: ");
            said.append(code.as_str());
            said.append(": ");
            said.append(message.as_str());
            assert(said@ =~= "Scribe refused pending submission: "@ + code@ + ": "@ + message@);
        },
        ProducerWireFrame::Other { rendered } => {
            said.append("expected Ack/Error, received ");
            said.append(rendered.as_str());
            assert(said@ =~= "expected Ack/Error, received "@ + rendered@);
        },
    }
    Err(said)
}

/// Forwards pending submissions in order, each only once all before it are confirmed.
#[derive(Debug, PartialEq, Eq)]
pub struct DrainRun {
    /// Submissions that were pending when the run began, in order.
    pub pending: Vec<PendingWireSubmission>,
    /// How many of them are confirmed.
    pub confirmed: usize,
    /// Whether one of them was not, and nothing further may be sent.
    pub ended: bool,
}

impl DrainRun {
    /// Whether a submission is to be sent now.
    pub open spec fn sends(&self) -> bool {
        !self.ended && self.confirmed < self.pending@.len()
    }

    /// Starts a run.
    pub fn new(pending: Vec<PendingWireSubmission>) -> (run: Self)
        ensures
            run == (DrainRun { pending, confirmed: 0, ended: false }),
    {
        DrainRun { pending, confirmed: 0, ended: false }
    }

    /// The submission to send now.
    pub fn next(&self) -> (submission: Option<&PendingWireSubmission>)
        ensures
            match submission {
                Some(submission) => self.sends() && *submission
                    == self.pending@[self.confirmed as int],
                None => !self.sends(),
            },
    {
        if !self.ended && self.confirmed < self.pending.len() {
            Some(&self.pending[self.confirmed])
        } else {
            None
        }
    }

    /// Takes in the reply to the submission that was sent, or why there is none: the
    /// sequence to checkpoint as committed, or why nothing further may be sent.
    pub fn settle(&mut self, reply: Result<ProducerWireFrame, String>) -> (settled: Result<
        u64,
        String,
    >)
        requires
            old(self).sends(),
        ensures
            final(self).pending == old(self).pending,
            match settled {
                Ok(sequence) => {
                    &&& sequence == old(self).pending@[old(self).confirmed as int].sequence
                    &&& reply matches Ok(frame) && is_match_of(Ok(()), frame, sequence)
                    &&& final(self).confirmed == old(self).confirmed + 1
                    &&& !final(self).ended
                },
                Err(said) => {
                    &&& match reply {
                        Ok(frame) => is_match_of(
                            Err(said),
                            frame,
                            old(self).pending@[old(self).confirmed as int].sequence,
                        ),
                        Err(reason) => said == reason,
                    }
                    &&& final(self).confirmed == old(self).confirmed
                    &&& final(self).ended
                },
            },
    {
        let total: usize = self.pending.len();
        assert(self.confirmed < total);
        let matched = match reply {
            Ok(frame) => matching_ack(frame, &self.pending[self.confirmed]),
            Err(reason) => Err(reason),
        };
        match matched {
            Ok(()) => {
                let sequence: u64 = self.pending[self.confirmed].sequence;
                self.confirmed = self.confirmed + 1;
                Ok(sequence)
            },
            Err(said) => {
                self.ended = true;
                Err(said)
            },
        }
    }
}

/// What rsyslog is told of a source line. Any line but `OK` makes it retain and retry the
/// line.
pub fn confirmation(forwarded: bool) -> (line: &'static str)
    ensures
        line@ == (if forwarded {
            "OK\n"@
        } else {
            "DEFER_COMMIT\n"@
        }),
{
    if forwarded {
        "OK\n"
    } else {
        "DEFER_COMMIT\n"
    }
}

/// Options of the rsyslog helper.
#[derive(Debug, PartialEq, Eq)]
pub struct OmprogConfig {
    pub scribe: String,
    pub outbox: String,
    pub target: String,
    pub producer_id: ProducerId,
    pub epoch: u32,
}

/// How the rsyslog helper is called.
pub const OMPROG_USAGE: &'static str =
    "usage: scripture-rsyslog-omprog --scribe HOST:PORT --outbox PATH --target CANON_VERSE_LABEL --producer-id 16_ASCII_BYTES [--epoch N]";

/// The flags of the rsyslog helper.
pub open spec fn omprog_flags() -> Seq<Rule<'static>> {
    seq![
        text_flag("--scribe", OMPROG_USAGE),
        text_flag("--outbox", OMPROG_USAGE),
        text_flag("--target", OMPROG_USAGE),
        text_flag("--producer-id", OMPROG_USAGE),
        short_flag("--epoch", OMPROG_USAGE, ""),
    ]
}

/// What a pass over the rsyslog helper's arguments comes to; one that no flag knows is
/// answered with the usage.
pub open spec fn omprog_scan(arguments: Seq<Seq<char>>) -> ScanView {
    scanned_with(
        arguments,
        omprog_flags(),
        OMPROG_USAGE@,
        false,
        no_values(omprog_flags().len()),
    )
}

/// Whether something is refused with a message.
pub open spec fn is_refusal<T>(parsed: Result<T, String>, message: Seq<char>) -> bool {
    parsed matches Err(said) && said@ == message
}

/// Whether the rsyslog helper's arguments come to its options.
pub open spec fn reads_omprog(parsed: Result<OmprogConfig, String>, scan: ScanView) -> bool {
    match scan {
        ScanView::Help => is_refusal(parsed, OMPROG_USAGE@),
        ScanView::Refused(message) => is_refusal(parsed, message),
        ScanView::Given(values) => match text_value(values, 3) {
            None => is_refusal(parsed, OMPROG_USAGE@),
            Some(id) => if !is_fixed_id(id) {
                is_refusal(parsed, "--producer-id must be exactly 16 ASCII bytes"@)
            } else if short_or(values, 4, 1) == 0 {
                is_refusal(parsed, "--epoch must be nonzero"@)
            } else {
                match (text_value(values, 0), text_value(values, 1), text_value(values, 2)) {
                    (Some(scribe), Some(outbox), Some(target)) => parsed matches Ok(config)
                        && config.scribe@ == scribe && config.outbox@ == outbox && config.target@
                        == target && config.producer_id@ == encode_utf8(id) && config.epoch
                        == short_or(values, 4, 1),
                    _ => is_refusal(parsed, OMPROG_USAGE@),
                }
            },
        },
    }
}

fn fixed_id(raw: &str) -> (id: Option<ProducerId>)
    ensures
        match id {
            Some(id) => is_fixed_id(raw@) && id@ == encode_utf8(raw@),
            None => !is_fixed_id(raw@),
        },
{
    let bytes = raw.as_bytes();
    if bytes.len() != 16 || !raw.is_ascii() {
        return None;
    }
    Some(ProducerId::from_bytes(identity_from_slice(bytes)))
}

/// Parses the arguments of the rsyslog helper.
pub fn parse_config(arguments: &[String]) -> (parsed: Result<OmprogConfig, String>)
    ensures
        reads_omprog(parsed, omprog_scan(arguments_view(arguments@))),
{
    let rules = vec![
        text_flag("--scribe", OMPROG_USAGE),
        text_flag("--outbox", OMPROG_USAGE),
        text_flag("--target", OMPROG_USAGE),
        text_flag("--producer-id", OMPROG_USAGE),
        short_flag("--epoch", OMPROG_USAGE, ""),
    ];
    assert(rules@ =~= omprog_flags());
    proof {
        lemma_scan_with_keeps_places(
            arguments_view(arguments@),
            omprog_flags(),
            OMPROG_USAGE@,
            false,
            no_values(omprog_flags().len()),
        );
    }
    let values = match scan_with(arguments, &rules, OMPROG_USAGE, false) {
        Scan::Help => {
            return Err(OMPROG_USAGE.to_owned());
        },
        Scan::Refused(message) => {
            return Err(message);
        },
        Scan::Given(values) => values,
    };
    assert(values_view(values@).len() == values@.len());
    let raw_id = match text_at(&values, 3) {
        Some(raw) => raw,
        None => {
            return Err(OMPROG_USAGE.to_owned());
        },
    };
    let producer_id = match fixed_id(raw_id.as_str()) {
        Some(id) => id,
        None => {
            return Err("--producer-id must be exactly 16 ASCII bytes".to_owned());
        },
    };
    let epoch: u32 = short_at_or(&values, 4, 1);
    if epoch == 0 {
        return Err("--epoch must be nonzero".to_owned());
    }
    match (text_at(&values, 0), text_at(&values, 1), text_at(&values, 2)) {
        (Some(scribe), Some(outbox), Some(target)) => Ok(
            OmprogConfig { scribe, outbox, target, producer_id, epoch },
        ),
        _ => Err(OMPROG_USAGE.to_owned()),
    }
}

// The one-submission client.

/// How the one-submission client is called.
pub const WIRE_CLIENT_USAGE: &'static str =
    "usage: scripture-producer-wire-client HOST PORT PAYLOAD [PRODUCER_ID EPOCH SEQUENCE] [--outbox PATH --target CANON_VERSE_LABEL]";

/// One submission as it was asked for.
#[derive(Debug, PartialEq, Eq)]
pub struct WireClientRequest {
    pub host: String,
    pub port: u16,
    pub payload: String,
    pub producer_id: ProducerId,
    pub epoch: u32,
    pub sequence: u64,
    /// Where the submission is staged, and for which target, where it is.
    pub outbox: Option<(String, String)>,
    /// The configuration whose producer spool is the outbox, where one is named.
    pub config: Option<String>,
}

/// The arguments of the one-submission client, told apart.
pub struct ClientWords {
    pub positional: Seq<Seq<char>>,
    pub outbox: Option<Seq<char>>,
    pub target: Option<Seq<char>>,
    pub config: Option<Seq<char>>,
}

/// Tells arguments apart: three flags with values, and everything else.
pub open spec fn client_words(arguments: Seq<Seq<char>>, so_far: ClientWords) -> Result<
    ClientWords,
    Seq<char>,
>
    decreases arguments.len(),
{
    if arguments.len() == 0 {
        Ok(so_far)
    } else if arguments[0] == "--outbox"@ {
        if arguments.len() < 2 {
            Err("--outbox needs PATH"@)
        } else {
            client_words(arguments.skip(2), ClientWords { outbox: Some(arguments[1]), ..so_far })
        }
    } else if arguments[0] == "--target"@ {
        if arguments.len() < 2 {
            Err("--target needs CANON_VERSE_LABEL"@)
        } else {
            client_words(arguments.skip(2), ClientWords { target: Some(arguments[1]), ..so_far })
        }
    } else if arguments[0] == "--config"@ {
        if arguments.len() < 2 {
            Err("--config needs PATH"@)
        } else {
            client_words(arguments.skip(2), ClientWords { config: Some(arguments[1]), ..so_far })
        }
    } else {
        client_words(
            arguments.skip(1),
            ClientWords { positional: so_far.positional.push(arguments[0]), ..so_far },
        )
    }
}

/// No words yet.
pub open spec fn no_words() -> ClientWords {
    ClientWords { positional: Seq::empty(), outbox: None, target: None, config: None }
}

/// A positional argument, or another text.
pub open spec fn positional_or(words: ClientWords, at: int, default: Seq<char>) -> Seq<char> {
    if at < words.positional.len() {
        words.positional[at]
    } else {
        default
    }
}

/// What is wrong with the words, if anything is; the first thing is said.
pub open spec fn words_fault(words: ClientWords) -> Option<Seq<char>> {
    let count = words.positional.len();
    if count < 3 || count > 6 || words.outbox is Some != words.target is Some || (words.config
        is Some && words.outbox is Some) {
        Some(WIRE_CLIENT_USAGE@)
    } else if parsed_number(words.positional[1], u16::MAX as nat) is None {
        Some(u16_refusal(words.positional[1]))
    } else if !is_fixed_id(positional_or(words, 3, "producer-rust-01"@)) {
        Some("PRODUCER_ID must be exactly 16 ASCII bytes"@)
    } else if count > 4 && parsed_number(words.positional[4], u32::MAX as nat) is None {
        Some(u32_refusal(words.positional[4]))
    } else if count > 5 && parsed_number(words.positional[5], u64::MAX as nat) is None {
        Some(u64_refusal(words.positional[5]))
    } else if count > 4 && parsed_number(words.positional[4], u32::MAX as nat) == Some(0nat) {
        Some("EPOCH must be nonzero"@)
    } else {
        None
    }
}

/// Whether a request is what the words ask for.
pub open spec fn is_request_of(request: WireClientRequest, words: ClientWords) -> bool {
    &&& request.host@ == words.positional[0]
    &&& parsed_number(words.positional[1], u16::MAX as nat) == Some(request.port as nat)
    &&& request.payload@ == words.positional[2]
    &&& request.producer_id@ == encode_utf8(positional_or(words, 3, "producer-rust-01"@))
    &&& if words.positional.len() > 4 {
        parsed_number(words.positional[4], u32::MAX as nat) == Some(request.epoch as nat)
    } else {
        request.epoch == 1
    }
    &&& if words.positional.len() > 5 {
        parsed_number(words.positional[5], u64::MAX as nat) == Some(request.sequence as nat)
    } else {
        request.sequence == 0
    }
    &&& match request.outbox {
        Some((path, target)) => words.outbox == Some(path@) && words.target == Some(target@),
        None => words.outbox is None && words.target is None,
    }
    &&& optional(request.config) == words.config
}

/// Whether arguments come to a request.
pub open spec fn reads_client(
    parsed: Result<WireClientRequest, String>,
    arguments: Seq<Seq<char>>,
) -> bool {
    match client_words(arguments, no_words()) {
        Err(message) => is_refusal(parsed, message),
        Ok(words) => match words_fault(words) {
            Some(message) => is_refusal(parsed, message),
            None => parsed matches Ok(request) && is_request_of(request, words),
        },
    }
}

/// Reads the identity of a producer.
pub fn producer_id(raw: &str) -> (id: Result<ProducerId, String>)
    ensures
        match id {
            Ok(id) => is_fixed_id(raw@) && id@ == encode_utf8(raw@),
            Err(message) => !is_fixed_id(raw@) && message@
                == "PRODUCER_ID must be exactly 16 ASCII bytes"@,
        },
{
    match fixed_id(raw) {
        Some(id) => Ok(id),
        None => Err("PRODUCER_ID must be exactly 16 ASCII bytes".to_owned()),
    }
}

/// Parses the arguments of the one-submission client.
pub fn parse_client_args(arguments: &[String]) -> (parsed: Result<WireClientRequest, String>)
    ensures
        reads_client(parsed, arguments_view(arguments@)),
{
    let ghost view = arguments_view(arguments@);
    let mut positional: Vec<String> = Vec::new();
    let mut outbox: Option<String> = None;
    let mut target: Option<String> = None;
    let mut config: Option<String> = None;
    let total: usize = arguments.len();
    let mut at: usize = 0;
    assert(view.skip(0) =~= view);
    assert(arguments_view(positional@) =~= Seq::<Seq<char>>::empty());
    while at < total
        invariant
            at <= total,
            total == arguments@.len(),
            view == arguments_view(arguments@),
            client_words(view, no_words()) == client_words(
                view.skip(at as int),
                ClientWords {
                    positional: arguments_view(positional@),
                    outbox: optional(outbox),
                    target: optional(target),
                    config: optional(config),
                },
            ),
        decreases total - at,
    {
        let ghost rest = view.skip(at as int);
        let ghost before = arguments_view(positional@);
        assert(rest[0] == arguments@[at as int]@);
        let word = arguments[at].as_str();
        if same_text(word, "--outbox") {
            if total - at < 2 {
                return Err("--outbox needs PATH".to_owned());
            }
            assert(rest[1] == arguments@[at + 1]@);
            assert(rest.skip(2) =~= view.skip(at + 2));
            outbox = Some(arguments[at + 1].clone());
            at += 2;
        } else if same_text(word, "--target") {
            if total - at < 2 {
                return Err("--target needs CANON_VERSE_LABEL".to_owned());
            }
            assert(rest[1] == arguments@[at + 1]@);
            assert(rest.skip(2) =~= view.skip(at + 2));
            target = Some(arguments[at + 1].clone());
            at += 2;
        } else if same_text(word, "--config") {
            if total - at < 2 {
                return Err("--config needs PATH".to_owned());
            }
            assert(rest[1] == arguments@[at + 1]@);
            assert(rest.skip(2) =~= view.skip(at + 2));
            config = Some(arguments[at + 1].clone());
            at += 2;
        } else {
            positional.push(arguments[at].clone());
            assert(arguments_view(positional@) =~= before.push(rest[0]));
            assert(rest.skip(1) =~= view.skip(at + 1));
            at += 1;
        }
    }
    let ghost words = ClientWords {
        positional: arguments_view(positional@),
        outbox: optional(outbox),
        target: optional(target),
        config: optional(config),
    };
    assert(view.skip(at as int).len() == 0);
    assert(client_words(view, no_words()) == Ok::<_, Seq<char>>(words));
    read_words(positional, outbox, target, config)
}

fn read_words(
    positional: Vec<String>,
    outbox: Option<String>,
    target: Option<String>,
    config: Option<String>,
) -> (parsed: Result<WireClientRequest, String>)
    ensures
        match words_fault(
            ClientWords {
                positional: arguments_view(positional@),
                outbox: optional(outbox),
                target: optional(target),
                config: optional(config),
            },
        ) {
            Some(message) => is_refusal(parsed, message),
            None => parsed matches Ok(request) && is_request_of(
                request,
                ClientWords {
                    positional: arguments_view(positional@),
                    outbox: optional(outbox),
                    target: optional(target),
                    config: optional(config),
                },
            ),
        },
{
    let count: usize = positional.len();
    if count < 3 || count > 6 || outbox.is_some() != target.is_some() || (config.is_some()
        && outbox.is_some()) {
        return Err(WIRE_CLIENT_USAGE.to_owned());
    }
    let port: u16 = match parse_u16(positional[1].as_str()) {
        Ok(port) => port,
        Err(message) => {
            return Err(message);
        },
    };
    let raw_id = if count > 3 {
        positional[3].as_str()
    } else {
        "producer-rust-01"
    };
    let id = match producer_id(raw_id) {
        Ok(id) => id,
        Err(message) => {
            return Err(message);
        },
    };
    let mut epoch: u32 = 1;
    if count > 4 {
        match parse_u32(positional[4].as_str()) {
            Ok(given) => {
                epoch = given;
            },
            Err(message) => {
                return Err(message);
            },
        }
    }
    let mut sequence: u64 = 0;
    if count > 5 {
        match parse_u64(positional[5].as_str()) {
            Ok(given) => {
                sequence = given;
            },
            Err(message) => {
                return Err(message);
            },
        }
    }
    if epoch == 0 {
        return Err("EPOCH must be nonzero".to_owned());
    }
    let staged = match (outbox, target) {
        (Some(path), Some(label)) => Some((path, label)),
        _ => None,
    };
    Ok(
        WireClientRequest {
            host: positional[0].clone(),
            port,
            payload: positional[2].clone(),
            producer_id: id,
            epoch,
            sequence,
            outbox: staged,
            config,
        },
    )
}

/// The outbox that a configuration gives the one-submission client.
#[derive(Debug, PartialEq, Eq)]
pub struct ConfiguredOutbox {
    pub path: String,
    pub target: String,
    pub max_bytes: u64,
}

/// The target label of a Verse.
pub open spec fn target_words(journal: Seq<char>, verse: Seq<char>) -> Seq<char> {
    "canon/"@ + journal + "/verse/"@ + verse
}

/// The one Verse of a configuration, which stands by itself or in the only assignment.
pub open spec fn only_verse(config: ScriptureConfig) -> Option<(Seq<char>, Seq<char>)> {
    match config.scribe {
        Some(scribe) => if scribe.assignments@.len() == 1 {
            Some((scribe.assignments@[0].canon@, scribe.assignments@[0].verse@))
        } else {
            None
        },
        None => match config.verse {
            Some(verse) => Some((verse.journal_id@, verse.verse_id@)),
            None => None,
        },
    }
}

/// Whether an outbox is the mounted producer spool of a configuration, for its one Verse.
pub open spec fn is_outbox_of(outbox: Result<ConfiguredOutbox, String>, config: ScriptureConfig) -> bool {
    match config.producer_spool {
        None => is_refusal(outbox, "the configuration mounts no producer_spool"@),
        Some(spool) => match config.spool_problem() {
            Some(problem) => is_refusal(outbox, problem.words()),
            None => if !spool.enabled {
                is_refusal(outbox, "the configuration mounts no producer_spool"@)
            } else {
                match only_verse(config) {
                    None => is_refusal(outbox, "the configuration has no single Verse"@),
                    Some((journal, verse)) => {
                        &&& outbox matches Ok(given)
                        &&& given.path@ == spool.path@
                        &&& given.target@ == target_words(journal, verse)
                        &&& given.max_bytes == spool.max_bytes
                    },
                }
            },
        },
    }
}

/// The mounted producer spool of a configuration as the outbox of its one Verse.
pub fn configured_outbox(config: &ScriptureConfig) -> (outbox: Result<ConfiguredOutbox, String>)
    ensures
        is_outbox_of(outbox, *config),
{
    let spool = match config.validated_producer_spool() {
        Err(error) => {
            return Err(error.message());
        },
        Ok(None) => {
            return Err("the configuration mounts no producer_spool".to_owned());
        },
        Ok(Some(spool)) => spool,
    };
    if !spool.enabled {
        return Err("the configuration mounts no producer_spool".to_owned());
    }
    let (journal, verse) = match (&config.scribe, &config.verse) {
        (Some(scribe), _) => {
            if scribe.assignments.len() != 1 {
                return Err("the configuration has no single Verse".to_owned());
            }
            (scribe.assignments[0].canon.as_str(), scribe.assignments[0].verse.as_str())
        },
        (None, Some(verse)) => (verse.journal_id.as_str(), verse.verse_id.as_str()),
        (None, None) => {
            return Err("the configuration has no single Verse".to_owned());
        },
    };
    let mut target = String::new();
    target.append("canon/");
    target.append(journal);
    target.append("/verse/");
    target.append(verse);
    assert(target@ =~= target_words(journal@, verse@));
    Ok(ConfiguredOutbox { path: spool.path.clone(), target, max_bytes: spool.max_bytes })
}

/// The line that reports a submission which one local disk holds.
pub fn spooled_line(epoch: u32, sequence: u64) -> (line: String)
    ensures
        line@ == "{\"verdict\":\"spooled\",\"epoch\":"@ + decimal(epoch as nat)
            + ",\"sequence\":"@ + decimal(sequence as nat) + "}"@,
{
    let mut line = String::new();
    line.append("{\"verdict\":\"spooled\",\"epoch\":");
    push_decimal(&mut line, epoch as u64);
    line.append(",\"sequence\":");
    push_decimal(&mut line, sequence);
    line.append("}");
    assert(line@ =~= "{\"verdict\":\"spooled\",\"epoch\":"@ + decimal(epoch as nat)
        + ",\"sequence\":"@ + decimal(sequence as nat) + "}"@);
    line
}

/// The line that reports an acknowledgement, under a word for it.
pub open spec fn ack_words(word: Seq<char>, epoch: nat, sequence: nat, first: nat, next: nat) -> Seq<
    char,
> {
    "{\"verdict\":\""@ + word + "\",\"epoch\":"@ + decimal(epoch) + ",\"sequence\":"@ + decimal(
        sequence,
    ) + ",\"first_offset\":"@ + decimal(first) + ",\"next_offset\":"@ + decimal(next) + "}"@
}

/// Whether a verdict is what a reply to the one submission means.
pub open spec fn is_verdict_of(
    verdict: Result<String, String>,
    word: Seq<char>,
    frame: ProducerWireFrame,
    epoch: u32,
    sequence: u64,
) -> bool {
    match frame {
        ProducerWireFrame::Ack {
            producer_epoch,
            sequence: acknowledged,
            first_offset,
            next_offset,
        } => if producer_epoch == epoch && acknowledged == sequence {
            verdict matches Ok(line) && line@ == ack_words(
                word,
                producer_epoch as nat,
                acknowledged as nat,
                first_offset as nat,
                next_offset as nat,
            )
        } else {
            is_refusal(verdict, "Scribe ACK identity mismatch"@)
        },
        ProducerWireFrame::Error { producer_epoch, sequence: refused, code, message } => is_refusal(
            verdict,
            "Scribe error epoch="@ + decimal(producer_epoch as nat) + " sequence="@ + decimal(
                refused as nat,
            ) + " code="@ + code@ + ": "@ + message@,
        ),
        ProducerWireFrame::Other { rendered } => is_refusal(
            verdict,
            "expected Ack or Error, got "@ + rendered@,
        ),
    }
}

/// What a reply to the one submission means: the line that reports the acknowledgement,
/// or what went wrong.
pub fn client_verdict(frame: ProducerWireFrame, epoch: u32, sequence: u64) -> (verdict: Result<
    String,
    String,
>)
    ensures
        is_verdict_of(verdict, "ack"@, frame, epoch, sequence),
{
    verdict_as("ack", frame, epoch, sequence)
}

/// What a reply to a spooled submission means: the line that reports it as committed, or
/// what went wrong.
pub fn committed_verdict(frame: ProducerWireFrame, epoch: u32, sequence: u64) -> (verdict: Result<
    String,
    String,
>)
    ensures
        is_verdict_of(verdict, "committed"@, frame, epoch, sequence),
{
    verdict_as("committed", frame, epoch, sequence)
}

fn verdict_as(word: &str, frame: ProducerWireFrame, epoch: u32, sequence: u64) -> (verdict: Result<
    String,
    String,
>)
    ensures
        is_verdict_of(verdict, word@, frame, epoch, sequence),
{
    let mut text = String::new();
    match frame {
        ProducerWireFrame::Ack {
            producer_epoch,
            sequence: acknowledged,
            first_offset,
            next_offset,
        } => {
            if producer_epoch == epoch && acknowledged == sequence {
                text.append("{\"verdict\":\"");
                text.append(word);
                text.append("\",\"epoch\":");
                push_decimal(&mut text, producer_epoch as u64);
                text.append(",\"sequence\":");
                push_decimal(&mut text, acknowledged);
                text.append(",\"first_offset\":");
                push_decimal(&mut text, first_offset);
                text.append(",\"next_offset\":");
                push_decimal(&mut text, next_offset);
                text.append("}");
                assert(text@ =~= ack_words(
                    word@,
                    producer_epoch as nat,
                    acknowledged as nat,
                    first_offset as nat,
                    next_offset as nat,
                ));
                return Ok(text);
            }
            text.append("Scribe ACK identity mismatch");
            assert(text@ =~= "Scribe ACK identity mismatch"@);
        },
        ProducerWireFrame::Error { producer_epoch, sequence: refused, code, message } => {
            text.append("Scribe error epoch=");
            push_decimal(&mut text, producer_epoch as u64);
            text.append(" sequence=");
            push_decimal(&mut text, refused);
            text.append(" code=");
            text.append(code.as_str());
            text.append(": ");
            text.append(message.as_str());
            assert(text@ =~= "Scribe error epoch="@ + decimal(producer_epoch as nat)
                + " sequence="@ + decimal(refused as nat) + " code="@ + code@ + ": "@ + message@);
        },
        ProducerWireFrame::Other { rendered } => {
            text.append("expected Ack or Error, got ");
            text.append(rendered.as_str());
            assert(text@ =~= "expected Ack or Error, got "@ + rendered@);
        },
    }
    Err(text)
}

// Laws.

/// Only a matching acknowledgement of at least one record counts as committed, and the
/// receipt is that of the submission.
pub proof fn law_committed_means_acknowledged(
    outcome: SubmitOutcome,
    reply: Result<ProducerWireFrame, String>,
    epoch: u32,
    sequence: u64,
)
    requires
        is_outcome_of(outcome, reply, epoch, sequence),
    ensures
        outcome is Committed <==> reply is Ok && acknowledges(reply->Ok_0, epoch, sequence),
        outcome matches SubmitOutcome::Committed(receipt) ==> receipt.producer_epoch == epoch
            && receipt.sequence == sequence && receipt.first_offset < receipt.next_offset,
{
}

/// No reply, whatever the reason, is never taken for a refusal.
pub proof fn law_lost_replies_are_ambiguous(
    outcome: SubmitOutcome,
    failure: String,
    epoch: u32,
    sequence: u64,
)
    requires
        is_outcome_of(outcome, Err(failure), epoch, sequence),
    ensures
        outcome is Ambiguous,
{
}

/// A run sends pending submissions in order, and never one around another that is not
/// committed: what it sends next has as many before it as outcomes came, and all of them
/// were committed.
pub proof fn law_flush_never_sends_around(run: FlushView, outcomes: Seq<SubmitOutcome>)
    requires
        run.committed == 0,
        !run.ended,
        run.after_all(outcomes).next() is Some,
        forall|i: int|
            0 <= i < outcomes.len() ==> (#[trigger] run.after_all(outcomes.take(i))).next() is Some,
    ensures
        run.after_all(outcomes).next() == Some(run.pending[outcomes.len() as int]),
        forall|i: int| 0 <= i < outcomes.len() ==> (#[trigger] outcomes[i]) is Committed,
        forall|i: int|
            0 <= i < outcomes.len() ==> (#[trigger] outcomes[i])->Committed_0.sequence
                != run.wanted,
{
    lemma_flush_progress(run, outcomes);
}

proof fn lemma_flush_progress(run: FlushView, outcomes: Seq<SubmitOutcome>)
    requires
        run.committed == 0,
        !run.ended,
        !run.after_all(outcomes).ended,
        forall|i: int|
            0 <= i < outcomes.len() ==> !(#[trigger] run.after_all(outcomes.take(i))).ended,
    ensures
        run.after_all(outcomes).committed == outcomes.len(),
        run.after_all(outcomes).pending == run.pending,
        run.after_all(outcomes).wanted == run.wanted,
        forall|i: int| 0 <= i < outcomes.len() ==> (#[trigger] outcomes[i]) is Committed,
        forall|i: int|
            0 <= i < outcomes.len() ==> (#[trigger] outcomes[i])->Committed_0.sequence
                != run.wanted,
    decreases outcomes.len(),
{
    if outcomes.len() > 0 {
        let before = outcomes.drop_last();
        assert(before =~= outcomes.take(outcomes.len() - 1));
        assert(!run.after_all(outcomes.take(outcomes.len() - 1)).ended);
        assert forall|i: int| 0 <= i < before.len() implies !(#[trigger] run.after_all(
            before.take(i),
        )).ended by {
            assert(before.take(i) =~= outcomes.take(i));
        }
        lemma_flush_progress(run, before);
        assert forall|i: int| 0 <= i < outcomes.len() implies (#[trigger] outcomes[i]) is Committed
            && outcomes[i]->Committed_0.sequence != run.wanted by {
            if i < before.len() {
                assert(before[i] == outcomes[i]);
            }
        }
    }
}

/// A submission is committed exactly where the reply is an acknowledgement of its epoch and
/// its sequence over a range that holds at least one offset, however wide, and the receipt
/// then has the offsets of the acknowledgement.
pub proof fn law_every_matching_ack_commits(
    outcome: SubmitOutcome,
    reply: Result<ProducerWireFrame, String>,
    epoch: u32,
    sequence: u64,
)
    requires
        is_outcome_of(outcome, reply, epoch, sequence),
    ensures
        outcome is Committed <==> (reply matches Ok(frame) && frame matches ProducerWireFrame::Ack {
            producer_epoch,
            sequence: acknowledged,
            first_offset,
            next_offset,
        } && producer_epoch == epoch && acknowledged == sequence && first_offset < next_offset),
        outcome matches SubmitOutcome::Committed(receipt) ==> (reply matches Ok(frame)
            && frame matches ProducerWireFrame::Ack { first_offset, next_offset, .. }
            && receipt.producer_epoch == epoch && receipt.sequence == sequence
            && receipt.first_offset == first_offset && receipt.next_offset == next_offset),
{
}

/// A submission counts as refused exactly where the Scribe answers with an error, whatever
/// identity that names, and the refusal has the code and the words of the error.
pub proof fn law_only_errors_refuse(
    outcome: SubmitOutcome,
    reply: Result<ProducerWireFrame, String>,
    epoch: u32,
    sequence: u64,
)
    requires
        is_outcome_of(outcome, reply, epoch, sequence),
    ensures
        outcome is Refused <==> reply is Ok && reply->Ok_0 is Error,
        outcome matches SubmitOutcome::Refused { code, message } ==> (reply matches Ok(frame)
            && frame matches ProducerWireFrame::Error { code: given, message: said, .. } && code
            == given && message == said),
{
}

/// What is uncertain says why: the reason why no reply came, or what came in place of one.
pub proof fn law_uncertainty_says_why(
    outcome: SubmitOutcome,
    reply: Result<ProducerWireFrame, String>,
    epoch: u32,
    sequence: u64,
)
    requires
        is_outcome_of(outcome, reply, epoch, sequence),
    ensures
        reply matches Err(failure) ==> outcome is Ambiguous && outcome->Ambiguous_message@
            == failure@,
        reply matches Ok(frame) ==> (frame matches ProducerWireFrame::Other { rendered } ==> {
            &&& outcome is Ambiguous
            &&& outcome->Ambiguous_message@.len() >= rendered@.len()
            &&& outcome->Ambiguous_message@.skip(
                outcome->Ambiguous_message@.len() - rendered@.len(),
            ) == rendered@
        }),
{
    if let Ok(frame) = reply {
        if let ProducerWireFrame::Other { rendered } = frame {
            let words = "expected Producer Wire ACK/Error, received "@ + rendered@;
            assert(words.skip(words.len() - rendered@.len()) =~= rendered@);
        }
    }
}

/// A flush gets through: where every submission is committed in its turn, the run sends one
/// after the other up to the wanted one, and ends with it and not before.
pub proof fn law_flush_reaches_the_wanted_one(
    run: FlushView,
    outcomes: Seq<SubmitOutcome>,
    wanted_at: int,
)
    requires
        run.committed == 0,
        !run.ended,
        0 <= wanted_at < run.pending.len(),
        run.pending[wanted_at] == run.wanted,
        forall|i: int| 0 <= i < wanted_at ==> #[trigger] run.pending[i] != run.wanted,
        outcomes.len() <= wanted_at + 1,
        forall|i: int|
            0 <= i < outcomes.len() ==> (#[trigger] outcomes[i]) is Committed
                && outcomes[i]->Committed_0.sequence == run.pending[i],
    ensures
        outcomes.len() <= wanted_at ==> run.after_all(outcomes).next() == Some(
            run.pending[outcomes.len() as int],
        ),
        outcomes.len() == wanted_at + 1 ==> run.after_all(outcomes).next() is None,
        run.after_all(outcomes).pending == run.pending,
        run.after_all(outcomes).committed == outcomes.len(),
        run.after_all(outcomes).wanted == run.wanted,
    decreases outcomes.len(),
{
    if outcomes.len() > 0 {
        let before = outcomes.drop_last();
        assert forall|i: int| 0 <= i < before.len() implies (#[trigger] before[i]) is Committed
            && before[i]->Committed_0.sequence == run.pending[i] by {
            assert(before[i] == outcomes[i]);
        }
        law_flush_reaches_the_wanted_one(run, before, wanted_at);
        assert(outcomes.last() == outcomes[outcomes.len() - 1]);
    }
}

/// A submission that was not committed ends the flush: nothing is sent after it, and it
/// stays the one that is not committed.
pub proof fn law_flush_stops_at_what_is_not_committed(run: FlushView, outcome: SubmitOutcome)
    requires
        !(outcome is Committed),
    ensures
        run.after(outcome).next() is None,
        run.after(outcome).committed == run.committed,
{
}

/// A line of rsyslog is confirmed exactly where the reply acknowledges the sequence of its
/// submission over a range that holds at least one offset.
pub proof fn law_every_acked_line_is_confirmed(
    matched: Result<(), String>,
    frame: ProducerWireFrame,
    sequence: u64,
)
    requires
        is_match_of(matched, frame, sequence),
    ensures
        matched is Ok <==> (frame matches ProducerWireFrame::Ack {
            sequence: acknowledged,
            first_offset,
            next_offset,
            ..
        } && acknowledged == sequence && first_offset < next_offset),
{
}

/// The one-submission client succeeds exactly where the reply acknowledges its epoch and
/// sequence, and its line then ends with the offsets of that acknowledgement.
pub proof fn law_verdicts_give_the_acknowledged_range(
    verdict: Result<String, String>,
    word: Seq<char>,
    frame: ProducerWireFrame,
    epoch: u32,
    sequence: u64,
)
    requires
        is_verdict_of(verdict, word, frame, epoch, sequence),
    ensures
        verdict is Ok <==> (frame matches ProducerWireFrame::Ack {
            producer_epoch,
            sequence: acknowledged,
            ..
        } && producer_epoch == epoch && acknowledged == sequence),
        verdict matches Ok(line) ==> ({
            let head = "{\"verdict\":\""@ + word + "\",\"epoch\":"@ + decimal(epoch as nat);
            let tail = ",\"sequence\":"@ + decimal(sequence as nat) + ",\"first_offset\":"@
                + decimal(frame->first_offset as nat) + ",\"next_offset\":"@ + decimal(
                frame->next_offset as nat,
            ) + "}"@;
            &&& line@.take(head.len() as int) == head
            &&& line@.skip(head.len() as int) == tail
        }),
{
    if let Ok(line) = verdict {
        let head = "{\"verdict\":\""@ + word + "\",\"epoch\":"@ + decimal(epoch as nat);
        let tail = ",\"sequence\":"@ + decimal(sequence as nat) + ",\"first_offset\":"@
            + decimal(frame->first_offset as nat) + ",\"next_offset\":"@ + decimal(
            frame->next_offset as nat,
        ) + "}"@;
        assert(line@ =~= head + tail);
        assert(line@.take(head.len() as int) =~= head);
        assert(line@.skip(head.len() as int) =~= tail);
    }
}

proof fn lemma_plain_words(arguments: Seq<Seq<char>>, so_far: ClientWords)
    requires
        forall|i: int|
            #![trigger arguments[i]]
            0 <= i < arguments.len() ==> arguments[i] != "--outbox"@ && arguments[i]
                != "--target"@ && arguments[i] != "--config"@,
    ensures
        client_words(arguments, so_far) == Ok::<_, Seq<char>>(
            ClientWords { positional: so_far.positional + arguments, ..so_far },
        ),
    decreases arguments.len(),
{
    if arguments.len() == 0 {
        assert(so_far.positional + arguments =~= so_far.positional);
    } else {
        let next = ClientWords { positional: so_far.positional.push(arguments[0]), ..so_far };
        assert forall|i: int|
            #![trigger arguments.skip(1)[i]]
            0 <= i < arguments.skip(1).len() implies arguments.skip(1)[i] != "--outbox"@
            && arguments.skip(1)[i] != "--target"@ && arguments.skip(1)[i] != "--config"@ by {
            assert(arguments.skip(1)[i] == arguments[i + 1]);
        }
        lemma_plain_words(arguments.skip(1), next);
        assert(next.positional + arguments.skip(1) =~= so_far.positional + arguments);
    }
}

proof fn lemma_words_then(first: Seq<Seq<char>>, second: Seq<Seq<char>>, so_far: ClientWords)
    requires
        client_words(first, so_far) is Ok,
    ensures
        client_words(first + second, so_far) == client_words(
            second,
            client_words(first, so_far)->Ok_0,
        ),
    decreases first.len(),
{
    if first.len() == 0 {
        assert(first + second =~= second);
    } else {
        let all = first + second;
        assert(all[0] == first[0]);
        if first[0] == "--outbox"@ || first[0] == "--target"@ || first[0] == "--config"@ {
            assert(all[1] == first[1]);
            assert(all.skip(2) =~= first.skip(2) + second);
            let next = if first[0] == "--outbox"@ {
                ClientWords { outbox: Some(first[1]), ..so_far }
            } else if first[0] == "--target"@ {
                ClientWords { target: Some(first[1]), ..so_far }
            } else {
                ClientWords { config: Some(first[1]), ..so_far }
            };
            lemma_words_then(first.skip(2), second, next);
        } else {
            assert(all.skip(1) =~= first.skip(1) + second);
            lemma_words_then(
                first.skip(1),
                second,
                ClientWords { positional: so_far.positional.push(first[0]), ..so_far },
            );
        }
    }
}

/// Arguments without flags are taken by place: host, port, payload, and then, where they are
/// given, identity, epoch and sequence. They are refused exactly where there are too few or
/// too many of them, or one of them is not what it has to be.
pub proof fn law_plain_client_words_go_by_place(
    parsed: Result<WireClientRequest, String>,
    arguments: Seq<Seq<char>>,
)
    requires
        reads_client(parsed, arguments),
        forall|i: int|
            #![trigger arguments[i]]
            0 <= i < arguments.len() ==> arguments[i] != "--outbox"@ && arguments[i]
                != "--target"@ && arguments[i] != "--config"@,
    ensures
        parsed is Ok <==> {
            &&& 3 <= arguments.len() <= 6
            &&& parsed_number(arguments[1], u16::MAX as nat) is Some
            &&& arguments.len() > 3 ==> is_fixed_id(arguments[3])
            &&& arguments.len() > 4 ==> {
                &&& parsed_number(arguments[4], u32::MAX as nat) is Some
                &&& parsed_number(arguments[4], u32::MAX as nat)->0 >= 1
            }
            &&& arguments.len() > 5 ==> parsed_number(arguments[5], u64::MAX as nat) is Some
        },
        parsed matches Ok(request) ==> {
            &&& request.host@ == arguments[0]
            &&& Some(request.port as nat) == parsed_number(arguments[1], u16::MAX as nat)
            &&& request.payload@ == arguments[2]
            &&& request.producer_id@ == encode_utf8(
                if arguments.len() > 3 {
                    arguments[3]
                } else {
                    "producer-rust-01"@
                },
            )
            &&& arguments.len() > 4 ==> Some(request.epoch as nat) == parsed_number(
                arguments[4],
                u32::MAX as nat,
            )
            &&& arguments.len() <= 4 ==> request.epoch == 1
            &&& arguments.len() > 5 ==> Some(request.sequence as nat) == parsed_number(
                arguments[5],
                u64::MAX as nat,
            )
            &&& arguments.len() <= 5 ==> request.sequence == 0
            &&& request.outbox is None
            &&& request.config is None
        },
{
    lemma_plain_words(arguments, no_words());
    assert(no_words().positional + arguments =~= arguments);
    lemma_default_producer();
}

proof fn lemma_default_producer()
    ensures
        is_fixed_id("producer-rust-01"@),
{
    broadcast use vstd::utf8::is_ascii_chars_encode_utf8;

    reveal_strlit("producer-rust-01");
    assert(vstd::utf8::is_ascii_chars("producer-rust-01"@));
}

/// An outbox and its target may follow any arguments that name neither, and are then all
/// that changes; a configuration likewise.
pub proof fn law_client_flags_add_their_values(
    plain: Result<WireClientRequest, String>,
    staged: Result<WireClientRequest, String>,
    configured: Result<WireClientRequest, String>,
    arguments: Seq<Seq<char>>,
    path: Seq<char>,
    target: Seq<char>,
)
    requires
        reads_client(plain, arguments),
        reads_client(staged, arguments + seq!["--outbox"@, path, "--target"@, target]),
        reads_client(configured, arguments + seq!["--config"@, path]),
        plain is Ok,
        plain->Ok_0.outbox is None,
        plain->Ok_0.config is None,
    ensures
        staged matches Ok(request) && request.outbox matches Some((at, label)) && at@ == path
            && label@ == target && request.config is None && request.host@
            == plain->Ok_0.host@ && request.port == plain->Ok_0.port && request.payload@
            == plain->Ok_0.payload@ && request.producer_id@ == plain->Ok_0.producer_id@
            && request.epoch == plain->Ok_0.epoch && request.sequence == plain->Ok_0.sequence,
        configured matches Ok(request) && optional(request.config) == Some(path)
            && request.outbox is None && request.host@ == plain->Ok_0.host@ && request.port
            == plain->Ok_0.port && request.payload@ == plain->Ok_0.payload@
            && request.producer_id@ == plain->Ok_0.producer_id@ && request.epoch
            == plain->Ok_0.epoch && request.sequence == plain->Ok_0.sequence,
{
    reveal_strlit("--outbox");
    reveal_strlit("--target");
    reveal_strlit("--config");
    reveal_with_fuel(client_words, 3);
    assert("--outbox"@[2] == 'o' && "--target"@[2] == 't' && "--config"@[2] == 'c');
    let words = client_words(arguments, no_words())->Ok_0;
    let flags = seq!["--outbox"@, path, "--target"@, target];
    lemma_words_then(arguments, flags, no_words());
    assert(flags.skip(2) =~= seq!["--target"@, target]);
    assert(flags.skip(2).skip(2) =~= Seq::<Seq<char>>::empty());
    assert(client_words(flags, words) == Ok::<_, Seq<char>>(
        ClientWords { outbox: Some(path), target: Some(target), ..words },
    ));
    let named = seq!["--config"@, path];
    lemma_words_then(arguments, named, no_words());
    assert(named.skip(2) =~= Seq::<Seq<char>>::empty());
    assert(client_words(named, words) == Ok::<_, Seq<char>>(
        ClientWords { config: Some(path), ..words },
    ));
}

/// A configuration gives an outbox exactly where it mounts a sound producer spool and has one
/// Verse; the outbox is that spool, and its target names that Verse.
pub proof fn law_configured_outbox_is_the_mounted_spool(
    outbox: Result<ConfiguredOutbox, String>,
    config: ScriptureConfig,
)
    requires
        is_outbox_of(outbox, config),
    ensures
        outbox matches Ok(given) ==> {
            &&& config.producer_spool matches Some(spool) && spool.enabled && given.path@
                == spool.path@ && given.max_bytes == spool.max_bytes
            &&& config.spool_problem() is None
        },
        config.producer_spool matches Some(spool) && spool.enabled && config.spool_problem()
            is None && config.scribe is None && config.verse is Some ==> outbox is Ok,
{
}

} // verus!
