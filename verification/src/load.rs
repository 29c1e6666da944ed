//! Bounded concurrent raw-lines producer for the fleet lab.
//!
//! Deterministic newline-terminated records are sent and `OK` / `ERR`
//! acknowledgements awaited. Connections, clocks and waiting are outside; this module
//! holds what is sent, when it may be sent and what every reply means.
use crate::args::{
    arguments_view, help_flag, lemma_scan_keeps_places, no_values, number_at, number_at_or,
    number_flag, number_or, number_value, scan, scan_of, size_at_or, size_flag, size_or, text_at,
    text_flag, text_value, values_view, FlagValue, Rule, Scan, ScanView, ValueView,
};
use crate::numbers::{in_order, lemma_in_order, sort};
use crate::produce_lab::{fill_up, filled_up};
use crate::text::{
    after_prefix, chars_of, decimal, find_char, law_decimal_digits, law_decimal_is_injective,
    lemma_char_index, lemma_encode_utf8_concat, push_decimal, strip_prefix,
};
use vstd::prelude::*;
use vstd::utf8::encode_utf8;

verus! {

/// Fixed chunk-policy description reported with load results (server-side).
///
/// The producer does not enforce chunking; naming the policy used by the serving node
/// is required for comparable baselines.
#[derive(Debug, PartialEq, Eq)]
pub struct NamedChunkPolicy {
    /// Human-readable label (for example `fleet-lab-64kib`).
    pub name: String,
    /// `max_chunk_bytes` on the serving Verse.
    pub max_chunk_bytes: u64,
    /// `max_chunk_records` on the serving Verse.
    pub max_chunk_records: u64,
    /// `max_inflight_chunks` on the serving Verse.
    pub max_inflight_chunks: u64,
}

impl NamedChunkPolicy {
    /// Default load-facing policy used by the fleet-lab drill docs.
    pub fn fleet_lab_default() -> (policy: Self)
        ensures
            policy.name@ == "fleet-lab-64kib-phase-one"@,
            policy.max_chunk_bytes == 64 * 1024,
            policy.max_chunk_records == 256,
            policy.max_inflight_chunks == 1,
    {
        NamedChunkPolicy {
            name: "fleet-lab-64kib-phase-one".to_owned(),
            max_chunk_bytes: 64 * 1024,
            max_chunk_records: 256,
            max_inflight_chunks: 1,
        }
    }

    /// The policy in words.
    pub open spec fn words(&self) -> Seq<char> {
        self.name@ + "(max_chunk_bytes="@ + decimal(self.max_chunk_bytes as nat)
            + ",max_chunk_records="@ + decimal(self.max_chunk_records as nat)
            + ",max_inflight_chunks="@ + decimal(self.max_inflight_chunks as nat) + ")"@
    }

    /// The policy in words.
    pub fn describe(&self) -> (text: String)
        ensures
            text@ == self.words(),
    {
        let mut text = String::new();
        text.append(self.name.as_str());
        text.append("(max_chunk_bytes=");
        push_decimal(&mut text, self.max_chunk_bytes);
        text.append(",max_chunk_records=");
        push_decimal(&mut text, self.max_chunk_records);
        text.append(",max_inflight_chunks=");
        push_decimal(&mut text, self.max_inflight_chunks);
        text.append(")");
        assert(text@ =~= self.words());
        text
    }
}

/// Configuration for one bounded load run.
#[derive(Debug, PartialEq, Eq)]
pub struct LoadConfig {
    /// TCP endpoint (`host:port`).
    pub endpoint: String,
    /// Concurrent raw-lines connections.
    pub connections: usize,
    /// Payload body size including metadata prefix (bytes).
    pub record_bytes: usize,
    /// Soft wall-clock duration; the run also stops on [`Self::max_bytes`].
    pub duration_secs: u64,
    /// Hard ceiling on accepted payload bytes (excluding newlines).
    pub max_bytes: u64,
    /// Optional target rate across all connections (records/sec). `None` = unbounded.
    pub target_records_per_sec: Option<u64>,
    /// Deterministic run identifier embedded in every payload.
    pub run_id: String,
    /// Per-record ACK wait timeout.
    pub ack_timeout_ms: u64,
    /// Server chunk policy name for the report (not enforced here).
    pub chunk_policy: NamedChunkPolicy,
    /// Backend label for the report (for example `in-memory` or `rustfs`).
    pub backend: String,
}

impl Default for LoadConfig {
    fn default() -> (config: Self)
        ensures
            config.endpoint@ == "127.0.0.1:9000"@,
            config.connections == 4,
            config.record_bytes == 256,
            config.duration_secs == 5,
            config.max_bytes == 8 * 1024 * 1024,
            config.target_records_per_sec is None,
            config.run_id@ == "run-local"@,
            config.ack_timeout_ms == 5000,
            config.chunk_policy.name@ == "fleet-lab-64kib-phase-one"@,
            config.chunk_policy.max_chunk_bytes == 64 * 1024,
            config.chunk_policy.max_chunk_records == 256,
            config.chunk_policy.max_inflight_chunks == 1,
            config.backend@ == "unspecified"@,
    {
        LoadConfig {
            endpoint: "127.0.0.1:9000".to_owned(),
            connections: 4,
            record_bytes: 256,
            duration_secs: 5,
            max_bytes: 8 * 1024 * 1024,
            target_records_per_sec: None,
            run_id: "run-local".to_owned(),
            ack_timeout_ms: 5000,
            chunk_policy: NamedChunkPolicy::fleet_lab_default(),
            backend: "unspecified".to_owned(),
        }
    }
}

/// Whether a run identifier can stand in a record.
pub open spec fn is_run_id(run_id: Seq<char>) -> bool {
    &&& run_id.len() > 0
    &&& forall|i: int| 0 <= i < run_id.len() ==> #[trigger] run_id[i] != '|' && run_id[i] != '\n'
}

/// What is wrong with a configuration, if anything is.
pub open spec fn config_fault(config: LoadConfig) -> Option<Seq<char>> {
    if config.connections == 0 {
        Some("connections must be >= 1"@)
    } else if config.record_bytes == 0 {
        Some("record_bytes must be >= 1"@)
    } else if !is_run_id(config.run_id@) {
        Some("run_id must be non-empty and must not contain '|' or newlines"@)
    } else {
        None
    }
}

fn can_be_run_id(run_id: &str) -> (valid: bool)
    ensures
        valid == is_run_id(run_id@),
{
    let chars = chars_of(run_id);
    let bar: usize = find_char(chars.as_slice(), '|');
    let newline: usize = find_char(chars.as_slice(), '\n');
    proof {
        lemma_char_index(run_id@, '|');
        lemma_char_index(run_id@, '\n');
    }
    chars.len() > 0 && bar == chars.len() && newline == chars.len()
}

/// Whether a run can start with the configuration, and why not.
pub fn check_config(config: &LoadConfig) -> (checked: Result<(), String>)
    ensures
        match checked {
            Ok(_) => config_fault(*config) is None,
            Err(message) => config_fault(*config) == Some(message@),
        },
{
    if config.connections == 0 {
        return Err("connections must be >= 1".to_owned());
    }
    if config.record_bytes == 0 {
        return Err("record_bytes must be >= 1".to_owned());
    }
    if !can_be_run_id(config.run_id.as_str()) {
        return Err("run_id must be non-empty and must not contain '|' or newlines".to_owned());
    }
    Ok(())
}

// Records.

/// The text that names a record.
pub open spec fn record_label(run_id: Seq<char>, connection: nat, sequence: nat) -> Seq<char> {
    run_id + "|"@ + decimal(connection) + "|"@ + decimal(sequence) + "|"@
}

/// A record: its name in bytes, cut or filled up to the length.
pub open spec fn record_of(run_id: Seq<char>, connection: nat, sequence: nat, length: nat) -> Seq<
    u8,
> {
    let label = encode_utf8(record_label(run_id, connection, sequence));
    if label.len() >= length {
        label.take(length as int)
    } else {
        filled_up(label, length)
    }
}

/// Builds one deterministic record payload (without trailing newline).
pub fn encode_record(
    run_id: &str,
    connection_id: usize,
    sequence: u64,
    record_bytes: usize,
) -> (record: Vec<u8>)
    ensures
        record@ == record_of(
            run_id@,
            connection_id as nat,
            sequence as nat,
            record_bytes as nat,
        ),
        record@.len() == record_bytes,
{
    let mut label = String::new();
    label.append(run_id);
    label.append("|");
    push_decimal(&mut label, connection_id as u64);
    label.append("|");
    push_decimal(&mut label, sequence);
    label.append("|");
    assert(label@ =~= record_label(run_id@, connection_id as nat, sequence as nat));
    let bytes = label.as_str().as_bytes();
    if bytes.len() >= record_bytes {
        let cut = fill_up(&bytes[0..record_bytes], record_bytes);
        assert(cut@ =~= bytes@.take(record_bytes as int));
        return cut;
    }
    fill_up(bytes, record_bytes)
}

// Rates.

/// The nanoseconds between two records at a rate.
pub open spec fn rate_interval(records_per_sec: u64) -> u64 {
    if records_per_sec == 0 {
        1_000_000_000
    } else {
        (1_000_000_000int / records_per_sec as int) as u64
    }
}

/// Grants one record every interval. Times are nanoseconds since the run started.
#[derive(Debug, Clone, Copy, PartialEq, Eq, Structural)]
pub struct TokenBucket {
    pub interval: u64,
    /// When the next record may be sent.
    pub next: u64,
}

impl TokenBucket {
    /// A bucket that grants its first record at once.
    pub fn new(records_per_sec: u64, now: u64) -> (bucket: Self)
        ensures
            bucket.interval == rate_interval(records_per_sec),
            bucket.next == now,
    {
        let rate: u64 = if records_per_sec == 0 {
            1
        } else {
            records_per_sec
        };
        TokenBucket { interval: 1_000_000_000 / rate, next: now }
    }

    /// When a record asked for at some time is granted.
    pub open spec fn grant(&self, now: u64) -> int {
        if now < self.next {
            self.next as int
        } else {
            now as int
        }
    }

    /// Takes the next grant: how long to wait for it.
    pub fn wait(&mut self, now: u64) -> (wait: u64)
        requires
            old(self).grant(now) + old(self).interval <= u64::MAX,
        ensures
            now + wait == old(self).grant(now),
            final(self).next == old(self).grant(now) + old(self).interval,
            final(self).interval == old(self).interval,
    {
        let wait: u64 = if now < self.next {
            self.next - now
        } else {
            0
        };
        self.next = now + wait + self.interval;
        wait
    }
}

// Replies.

/// What came back for a record.
#[derive(Debug, PartialEq, Eq)]
pub enum Reply {
    /// The connection was closed.
    Closed,
    /// A line came.
    Line(String),
    /// No line came in time.
    TimedOut,
}

/// Counts shared by the connections of a run. A record's bytes are claimed before it is
/// sent, so that what is accepted and what may still be accepted stay under the ceiling.
#[derive(Debug, Clone, Copy, PartialEq, Eq, Structural)]
pub struct LoadCounts {
    pub accepted_bytes: u64,
    /// The bytes of records that are sent or about to be, and not settled.
    pub claimed_bytes: u64,
    pub accepted_records: u64,
    pub errors: u64,
    pub transport_failures: u64,
}

impl LoadCounts {
    /// The counts of a run that begins.
    pub open spec fn none() -> LoadCounts {
        LoadCounts {
            accepted_bytes: 0,
            claimed_bytes: 0,
            accepted_records: 0,
            errors: 0,
            transport_failures: 0,
        }
    }

    /// Whether the ceiling leaves room for a record of this length.
    pub open spec fn allows(self, record_bytes: usize, max_bytes: u64) -> bool {
        self.accepted_bytes + self.claimed_bytes + record_bytes <= max_bytes
    }

    /// Whether the ceiling leaves no room for a record of this length, even once every claim
    /// is given back.
    pub open spec fn is_full(self, record_bytes: usize, max_bytes: u64) -> bool {
        self.accepted_bytes + record_bytes > max_bytes
    }

    /// The counts once a record of this length is claimed.
    pub open spec fn with_claim(self, record_bytes: usize) -> LoadCounts {
        LoadCounts { claimed_bytes: (self.claimed_bytes + record_bytes) as u64, ..self }
    }

    /// The counts once that many claimed bytes are given back.
    pub open spec fn without_claim(self, bytes: int) -> LoadCounts {
        LoadCounts {
            claimed_bytes: if bytes < self.claimed_bytes {
                (self.claimed_bytes - bytes) as u64
            } else {
                0
            },
            ..self
        }
    }

    /// Nothing counted.
    pub fn new() -> (counts: Self)
        ensures
            counts == LoadCounts::none(),
    {
        LoadCounts {
            accepted_bytes: 0,
            claimed_bytes: 0,
            accepted_records: 0,
            errors: 0,
            transport_failures: 0,
        }
    }

    /// Claims the bytes of a record if the ceiling leaves room for it.
    pub fn claim(&mut self, record_bytes: usize, max_bytes: u64) -> (granted: bool)
        ensures
            granted == old(self).allows(record_bytes, max_bytes),
            *final(self) == (if granted {
                old(self).with_claim(record_bytes)
            } else {
                *old(self)
            }),
    {
        let total: u128 = self.accepted_bytes as u128 + self.claimed_bytes as u128
            + record_bytes as u128;
        if total > max_bytes as u128 {
            return false;
        }
        self.claimed_bytes = self.claimed_bytes + record_bytes as u64;
        true
    }

    /// Whether what was accepted leaves no room for a record.
    pub fn full(&self, record_bytes: usize, max_bytes: u64) -> (full: bool)
        ensures
            full == self.is_full(record_bytes, max_bytes),
    {
        self.accepted_bytes as u128 + record_bytes as u128 > max_bytes as u128
    }

    /// Gives back the claims of that many records.
    pub fn release(&mut self, records: usize, record_bytes: usize)
        ensures
            *final(self) == old(self).without_claim(records * record_bytes),
    {
        proof {
            lemma_product_fits(records, record_bytes);
        }
        let bytes: u128 = records as u128 * record_bytes as u128;
        if bytes < self.claimed_bytes as u128 {
            self.claimed_bytes = self.claimed_bytes - bytes as u64;
        } else {
            self.claimed_bytes = 0;
        }
    }

    /// Counts a connection that failed as a whole.
    pub fn connection_failed(&mut self)
        ensures
            *final(self) == (LoadCounts {
                transport_failures: wrapped(old(self).transport_failures, 1),
                ..*old(self)
            }),
    {
        self.transport_failures = self.transport_failures.wrapping_add(1);
    }

    /// The counts after a reply to a record of this length.
    pub open spec fn counted(self, record_bytes: usize, reply: Reply) -> LoadCounts {
        match reply_kind(reply) {
            ReplyKind::Accepted => LoadCounts {
                accepted_records: wrapped(self.accepted_records, 1),
                accepted_bytes: wrapped(self.accepted_bytes, record_bytes as u64),
                ..self
            },
            ReplyKind::Refused => LoadCounts { errors: wrapped(self.errors, 1), ..self },
            ReplyKind::Broken => LoadCounts {
                transport_failures: wrapped(self.transport_failures, 1),
                ..self
            },
        }
    }

    /// Counts a reply to a record of this length; says whether it accepts.
    pub fn count(&mut self, record_bytes: usize, reply: Reply) -> (accepted: bool)
        ensures
            accepted == (reply_kind(reply) is Accepted),
            *final(self) == old(self).counted(record_bytes, reply),
    {
        if let Reply::Line(line) = &reply {
            let chars = chars_of(line.as_str());
            if strip_prefix(chars.as_slice(), "OK ").is_some() {
                self.accepted_records = self.accepted_records.wrapping_add(1);
                self.accepted_bytes = self.accepted_bytes.wrapping_add(record_bytes as u64);
                return true;
            }
            if strip_prefix(chars.as_slice(), "ERR ").is_some() {
                self.errors = self.errors.wrapping_add(1);
                return false;
            }
        }
        self.transport_failures = self.transport_failures.wrapping_add(1);
        false
    }
}

proof fn lemma_product_fits(left: usize, right: usize)
    ensures
        0 <= left * right <= u128::MAX,
{
    assert(0 <= left * right <= 0xffff_ffff_ffff_ffff * 0xffff_ffff_ffff_ffff) by (nonlinear_arith)
        requires
            0 <= left <= 0xffff_ffff_ffff_ffff,
            0 <= right <= 0xffff_ffff_ffff_ffff,
    ;
}

/// A sum that wraps around.
pub open spec fn wrapped(count: u64, more: u64) -> u64 {
    if count + more > u64::MAX {
        (count + more - 0x1_0000_0000_0000_0000) as u64
    } else {
        (count + more) as u64
    }
}

/// What a reply means.
pub enum ReplyKind {
    Accepted,
    Refused,
    Broken,
}

/// What a reply means: a line that starts with `OK ` accepts, one that starts with
/// `ERR ` refuses; anything else is a failure of the transport.
pub open spec fn reply_kind(reply: Reply) -> ReplyKind {
    match reply {
        Reply::Line(line) => if after_prefix(line@, "OK "@) is Some {
            ReplyKind::Accepted
        } else if after_prefix(line@, "ERR "@) is Some {
            ReplyKind::Refused
        } else {
            ReplyKind::Broken
        },
        _ => ReplyKind::Broken,
    }
}

/// Whether another record may be sent while some are not yet acknowledged.
pub fn has_room(outstanding: usize, inflight_per_connection: usize) -> (room: bool)
    ensures
        room == (outstanding == 0 || outstanding < inflight_per_connection),
{
    outstanding == 0 || outstanding < inflight_per_connection
}

// Reports.

/// The sample at a percentage of sorted samples.
pub open spec fn percentile_of(sorted: Seq<u64>, percent: int) -> u64 {
    if sorted.len() == 0 {
        0
    } else {
        sorted[(percent * (sorted.len() - 1)) / 100]
    }
}

proof fn lemma_rank(last: int, percent: int)
    requires
        0 <= last,
        0 <= percent,
    ensures
        (last / 100) * percent + ((last % 100) * percent) / 100 == (percent * last) / 100,
        0 <= (last / 100) * percent,
        0 <= (last % 100) * percent <= 99 * percent,
{
    let hundreds = last / 100;
    let rest = last % 100;
    assert(percent * last == 100 * (hundreds * percent) + rest * percent) by (nonlinear_arith)
        requires
            last == 100 * hundreds + rest,
    ;
    assert(0 <= rest * percent <= 99 * percent) by (nonlinear_arith)
        requires
            0 <= rest <= 99,
            0 <= percent,
    ;
    assert(0 <= hundreds * percent) by (nonlinear_arith)
        requires
            0 <= hundreds,
            0 <= percent,
    ;
}

proof fn lemma_ranks_ascend(last: int, low: int, high: int)
    requires
        0 <= last,
        0 <= low <= high <= 100,
    ensures
        0 <= (low * last) / 100 <= (high * last) / 100 <= last,
{
    assert(0 <= low * last <= high * last <= 100 * last) by (nonlinear_arith)
        requires
            0 <= last,
            0 <= low <= high <= 100,
    ;
}

/// The sample at a percentage of sorted samples; zero where there is none.
pub fn percentile_us(sorted: &[u64], pct: u8) -> (sample: u64)
    requires
        sorted@.len() > 0 ==> (pct * (sorted@.len() - 1)) / 100 < sorted@.len(),
    ensures
        sample == percentile_of(sorted@, pct as int),
{
    if sorted.len() == 0 {
        return 0;
    }
    let last: usize = sorted.len() - 1;
    let percent: usize = pct as usize;
    proof {
        lemma_rank(last as int, percent as int);
    }
    let rank: usize = (last / 100) * percent + ((last % 100) * percent) / 100;
    sorted[rank]
}

/// Aggregate counters and latency samples from one run.
#[derive(Debug, PartialEq, Eq)]
pub struct LoadReport {
    /// Configured run ID.
    pub run_id: String,
    /// Endpoint targeted.
    pub endpoint: String,
    /// Backend label.
    pub backend: String,
    /// Named chunk policy on the server.
    pub chunk_policy: String,
    /// Records that received `OK`.
    pub accepted_records: u64,
    /// Payload bytes for accepted records (excluding newlines).
    pub accepted_bytes: u64,
    /// `ERR` responses.
    pub errors: u64,
    /// Connect / IO / timeout failures.
    pub transport_failures: u64,
    /// ACK latency percentiles in microseconds.
    pub ack_latency_p50_us: u64,
    /// ACK latency p95.
    pub ack_latency_p95_us: u64,
    /// ACK latency p99.
    pub ack_latency_p99_us: u64,
    /// Wall time of the producer run.
    pub elapsed_ms: u64,
}

impl LoadReport {
    /// The report of a finished run from its counts and latency samples.
    pub fn of(config: LoadConfig, counts: LoadCounts, latencies: Vec<u64>, elapsed_ms: u64) -> (report:
        Self)
        ensures
            report.run_id == config.run_id,
            report.endpoint == config.endpoint,
            report.backend == config.backend,
            report.chunk_policy@ == config.chunk_policy.words(),
            report.accepted_records == counts.accepted_records,
            report.accepted_bytes == counts.accepted_bytes,
            report.errors == counts.errors,
            report.transport_failures == counts.transport_failures,
            report.ack_latency_p50_us == percentile_of(in_order(latencies@), 50),
            report.ack_latency_p95_us == percentile_of(in_order(latencies@), 95),
            report.ack_latency_p99_us == percentile_of(in_order(latencies@), 99),
            report.ack_latency_p50_us <= report.ack_latency_p95_us <= report.ack_latency_p99_us,
            report.elapsed_ms == elapsed_ms,
    {
        let ghost given = latencies@;
        let samples = sort(latencies);
        proof {
            if given.len() > 0 {
                lemma_ranks_ascend(given.len() - 1, 50, 95);
                lemma_ranks_ascend(given.len() - 1, 95, 99);
            }
            law_percentiles_ascend(given, 50, 95);
            law_percentiles_ascend(given, 95, 99);
        }
        LoadReport {
            run_id: config.run_id,
            endpoint: config.endpoint,
            backend: config.backend,
            chunk_policy: config.chunk_policy.describe(),
            accepted_records: counts.accepted_records,
            accepted_bytes: counts.accepted_bytes,
            errors: counts.errors,
            transport_failures: counts.transport_failures,
            ack_latency_p50_us: percentile_us(samples.as_slice(), 50),
            ack_latency_p95_us: percentile_us(samples.as_slice(), 95),
            ack_latency_p99_us: percentile_us(samples.as_slice(), 99),
            elapsed_ms,
        }
    }

    /// The report on one line.
    pub open spec fn words(&self) -> Seq<char> {
        "scripture-load run_id="@ + self.run_id@ + " endpoint="@ + self.endpoint@ + " backend="@
            + self.backend@ + " chunk_policy="@ + self.chunk_policy@ + " accepted_records="@
            + decimal(self.accepted_records as nat) + " accepted_bytes="@ + decimal(
            self.accepted_bytes as nat,
        ) + " errors="@ + decimal(self.errors as nat) + " transport_failures="@ + decimal(
            self.transport_failures as nat,
        ) + " ack_p50_us="@ + decimal(self.ack_latency_p50_us as nat) + " ack_p95_us="@ + decimal(
            self.ack_latency_p95_us as nat,
        ) + " ack_p99_us="@ + decimal(self.ack_latency_p99_us as nat) + " elapsed_ms="@ + decimal(
            self.elapsed_ms as nat,
        )
    }

    /// Formats a single-line summary suitable for CI logs.
    pub fn summary_line(&self) -> (line: String)
        ensures
            line@ == self.words(),
    {
        let mut line = String::new();
        line.append("scripture-load run_id=");
        line.append(self.run_id.as_str());
        line.append(" endpoint=");
        line.append(self.endpoint.as_str());
        line.append(" backend=");
        line.append(self.backend.as_str());
        line.append(" chunk_policy=");
        line.append(self.chunk_policy.as_str());
        line.append(" accepted_records=");
        push_decimal(&mut line, self.accepted_records);
        line.append(" accepted_bytes=");
        push_decimal(&mut line, self.accepted_bytes);
        line.append(" errors=");
        push_decimal(&mut line, self.errors);
        line.append(" transport_failures=");
        push_decimal(&mut line, self.transport_failures);
        line.append(" ack_p50_us=");
        push_decimal(&mut line, self.ack_latency_p50_us);
        line.append(" ack_p95_us=");
        push_decimal(&mut line, self.ack_latency_p95_us);
        line.append(" ack_p99_us=");
        push_decimal(&mut line, self.ack_latency_p99_us);
        line.append(" elapsed_ms=");
        push_decimal(&mut line, self.elapsed_ms);
        assert(line@ =~= self.words());
        line
    }

    /// How a run ends for its caller.
    pub fn exit(&self) -> (exit: LoadExit)
        ensures
            exit == (if self.errors > 0 || self.transport_failures > 0 {
                LoadExit::Degraded
            } else if self.accepted_records == 0 {
                LoadExit::Nothing
            } else {
                LoadExit::Done
            }),
    {
        if self.errors > 0 || self.transport_failures > 0 {
            LoadExit::Degraded
        } else if self.accepted_records == 0 {
            LoadExit::Nothing
        } else {
            LoadExit::Done
        }
    }
}

/// How a run ends for its caller.
#[derive(Debug, Clone, Copy, PartialEq, Eq, Structural)]
pub enum LoadExit {
    /// Records were accepted and nothing failed.
    Done,
    /// Something failed.
    Degraded,
    /// No records were accepted.
    Nothing,
}

// The command line.

/// A run as it was asked for.
#[derive(Debug, PartialEq, Eq)]
pub struct LoadRequest {
    pub config: LoadConfig,
    /// Writes that may wait for their acknowledgement at once.
    pub inflight_per_connection: usize,
}

/// What a command line asks for.
#[derive(Debug, PartialEq, Eq)]
pub enum LoadCommand {
    Help,
    Refused(String),
    Run(LoadRequest),
}

/// Help for the load producer.
pub const LOAD_HELP: &'static str = "usage: scripture-load [options]\n\n--endpoint HOST:PORT          (default 127.0.0.1:9000)\n--connections N               (default 4)\n--record-bytes N              (default 256)\n--duration-secs N             (default 5)\n--max-bytes N                 (default 8388608)\n--rate N                      optional records/sec across connections\n--run-id ID                   deterministic run id (required for drills)\n--ack-timeout-ms N            (default 5000)\n--backend LABEL               reported backend name\n--chunk-policy-name NAME      reported server policy label\n--inflight-per-connection N   pipelined writes before ACK (default 1)\n";

/// The flags of the load producer.
pub open spec fn load_rules() -> Seq<Rule<'static>> {
    seq![
        text_flag("--endpoint", "--endpoint requires a value"),
        size_flag("--connections", "--connections requires a value", ""),
        size_flag("--record-bytes", "--record-bytes requires a value", ""),
        number_flag("--duration-secs", "--duration-secs requires a value", ""),
        number_flag("--max-bytes", "--max-bytes requires a value", ""),
        number_flag("--rate", "--rate requires a value", ""),
        text_flag("--run-id", "--run-id requires a value"),
        number_flag("--ack-timeout-ms", "--ack-timeout-ms requires a value", ""),
        text_flag("--backend", "--backend requires a value"),
        text_flag("--chunk-policy-name", "--chunk-policy-name requires a value"),
        size_flag(
            "--inflight-per-connection",
            "--inflight-per-connection requires a value",
            "",
        ),
        help_flag("--help"),
        help_flag("-h"),
    ]
}

fn rules() -> (rules: Vec<Rule<'static>>)
    ensures
        rules@ == load_rules(),
{
    let rules = vec![
        text_flag("--endpoint", "--endpoint requires a value"),
        size_flag("--connections", "--connections requires a value", ""),
        size_flag("--record-bytes", "--record-bytes requires a value", ""),
        number_flag("--duration-secs", "--duration-secs requires a value", ""),
        number_flag("--max-bytes", "--max-bytes requires a value", ""),
        number_flag("--rate", "--rate requires a value", ""),
        text_flag("--run-id", "--run-id requires a value"),
        number_flag("--ack-timeout-ms", "--ack-timeout-ms requires a value", ""),
        text_flag("--backend", "--backend requires a value"),
        text_flag("--chunk-policy-name", "--chunk-policy-name requires a value"),
        size_flag(
            "--inflight-per-connection",
            "--inflight-per-connection requires a value",
            "",
        ),
        help_flag("--help"),
        help_flag("-h"),
    ];
    assert(rules@ =~= load_rules());
    rules
}

/// A text, or another.
pub open spec fn text_or(text: Option<Seq<char>>, default: Seq<char>) -> Seq<char> {
    match text {
        Some(text) => text,
        None => default,
    }
}

/// Whether a request is what the values of the flags ask for; a flag that is not given
/// leaves its default.
pub open spec fn is_request_of(request: LoadRequest, values: Seq<Option<ValueView>>) -> bool {
    &&& request.config.endpoint@ == text_or(text_value(values, 0), "127.0.0.1:9000"@)
    &&& request.config.connections == size_or(values, 1, 4)
    &&& request.config.record_bytes == size_or(values, 2, 256)
    &&& request.config.duration_secs == number_or(values, 3, 5)
    &&& request.config.max_bytes == number_or(values, 4, 8_388_608)
    &&& request.config.target_records_per_sec == number_value(values, 5)
    &&& request.config.run_id@ == text_or(text_value(values, 6), "run-local"@)
    &&& request.config.ack_timeout_ms == number_or(values, 7, 5000)
    &&& request.config.backend@ == text_or(text_value(values, 8), "unspecified"@)
    &&& request.config.chunk_policy.name@ == text_or(
        text_value(values, 9),
        "fleet-lab-64kib-phase-one"@,
    )
    &&& request.config.chunk_policy.max_chunk_bytes == 64 * 1024
    &&& request.config.chunk_policy.max_chunk_records == 256
    &&& request.config.chunk_policy.max_inflight_chunks == 1
    &&& request.inflight_per_connection == size_or(values, 10, 1)
}

fn given_or(values: &Vec<Option<FlagValue>>, at: usize, default: String) -> (text: String)
    requires
        at < values@.len(),
    ensures
        text@ == text_or(text_value(values_view(values@), at as int), default@),
{
    match text_at(values, at) {
        Some(text) => text,
        None => default,
    }
}

/// What a command line asks for.
pub fn parse_args(arguments: &[String]) -> (command: LoadCommand)
    ensures
        match scan_of(arguments_view(arguments@), load_rules(), "unknown argument: "@) {
            ScanView::Help => command is Help,
            ScanView::Refused(message) => command matches LoadCommand::Refused(said) && said@
                == message,
            ScanView::Given(values) => command matches LoadCommand::Run(request)
                && is_request_of(request, values),
        },
{
    let rules = rules();
    proof {
        lemma_scan_keeps_places(
            arguments_view(arguments@),
            load_rules(),
            "unknown argument: "@,
            no_values(load_rules().len()),
        );
    }
    match scan(arguments, &rules, "unknown argument: ") {
        Scan::Help => LoadCommand::Help,
        Scan::Refused(message) => LoadCommand::Refused(message),
        Scan::Given(values) => {
            assert(values_view(values@).len() == values@.len());
            let default: LoadConfig = Default::default();
            let config = LoadConfig {
                endpoint: given_or(&values, 0, default.endpoint),
                connections: size_at_or(&values, 1, default.connections),
                record_bytes: size_at_or(&values, 2, default.record_bytes),
                duration_secs: number_at_or(&values, 3, default.duration_secs),
                max_bytes: number_at_or(&values, 4, default.max_bytes),
                target_records_per_sec: number_at(&values, 5),
                run_id: given_or(&values, 6, default.run_id),
                ack_timeout_ms: number_at_or(&values, 7, default.ack_timeout_ms),
                chunk_policy: NamedChunkPolicy {
                    name: given_or(&values, 9, default.chunk_policy.name),
                    max_chunk_bytes: default.chunk_policy.max_chunk_bytes,
                    max_chunk_records: default.chunk_policy.max_chunk_records,
                    max_inflight_chunks: default.chunk_policy.max_inflight_chunks,
                },
                backend: given_or(&values, 8, default.backend),
            };
            LoadCommand::Run(
                LoadRequest { config, inflight_per_connection: size_at_or(&values, 10, 1) },
            )
        },
    }
}

// Laws.

/// No two records are granted closer together than the interval of the rate.
pub proof fn law_grants_keep_the_rate(bucket: TokenBucket, now: u64, after: TokenBucket, later: u64)
    requires
        after.next == bucket.grant(now) + bucket.interval,
        after.interval == bucket.interval,
    ensures
        after.grant(later) >= bucket.grant(now) + bucket.interval,
{
}

/// A percentile is one of the samples.
pub proof fn law_percentile_is_a_sample(sorted: Seq<u64>, percent: int)
    requires
        sorted.len() > 0,
        0 <= percent <= 100,
    ensures
        sorted.contains(percentile_of(sorted, percent)),
{
    lemma_ranks_ascend(sorted.len() - 1, percent, percent);
    assert(sorted[(percent * (sorted.len() - 1)) / 100] == percentile_of(sorted, percent));
}

/// A higher percentile of the same samples is no smaller.
pub proof fn law_percentiles_ascend(samples: Seq<u64>, low: int, high: int)
    requires
        0 <= low <= high <= 100,
    ensures
        percentile_of(in_order(samples), low) <= percentile_of(in_order(samples), high),
{
    lemma_in_order(samples);
    if samples.len() > 0 {
        lemma_ranks_ascend(samples.len() - 1, low, high);
    }
}

/// The records of a run have the length that was asked for, whatever their number.
pub proof fn law_records_have_the_length(
    run_id: Seq<char>,
    connection: nat,
    sequence: nat,
    length: nat,
)
    ensures
        record_of(run_id, connection, sequence, length).len() == length,
{
}

/// The part of a record's name that tells it from the others of its run.
pub open spec fn record_place(connection: nat, sequence: nat) -> Seq<char> {
    decimal(connection) + "|"@ + decimal(sequence) + "|"@
}

proof fn lemma_place(run_id: Seq<char>, connection: nat, sequence: nat)
    ensures
        ({
            let place = record_place(connection, sequence);
            let start = encode_utf8(run_id + "|"@);
            let label = encode_utf8(record_label(run_id, connection, sequence));
            let bar = decimal(connection).len() as int;
            &&& label.len() == start.len() + place.len()
            &&& forall|i: int|
                0 <= i < place.len() ==> #[trigger] label[start.len() + i] == place[i] as u8
            &&& forall|i: int| 0 <= i < place.len() ==> '0' <= #[trigger] place[i] <= '|'
            &&& place.len() == bar + decimal(sequence).len() + 2
            &&& forall|i: int| 0 <= i < bar ==> #[trigger] place[i] == decimal(connection)[i]
            &&& place[bar] == '|'
            &&& forall|i: int|
                bar < i < place.len() - 1 ==> #[trigger] place[i] == decimal(sequence)[i - bar - 1]
            &&& place.last() == '|'
        }),
{
    broadcast use vstd::utf8::is_ascii_chars_encode_utf8;

    reveal_strlit("|");
    let place = record_place(connection, sequence);
    law_decimal_digits(connection);
    law_decimal_digits(sequence);
    let bar = decimal(connection).len() as int;
    assert forall|i: int| bar < i < place.len() - 1 implies #[trigger] place[i] == decimal(
        sequence,
    )[i - bar - 1] by {}
    assert forall|i: int| 0 <= i < place.len() implies '0' <= #[trigger] place[i] <= '|' by {
        if i < bar {
            assert(place[i] == decimal(connection)[i]);
        } else if bar < i < place.len() - 1 {
            assert(place[i] == decimal(sequence)[i - bar - 1]);
        }
    }
    assert(vstd::utf8::is_ascii_chars(place));
    assert(record_label(run_id, connection, sequence) =~= (run_id + "|"@) + place);
    lemma_encode_utf8_concat(run_id + "|"@, place);
    let start = encode_utf8(run_id + "|"@);
    let label = encode_utf8(record_label(run_id, connection, sequence));
    assert forall|i: int| 0 <= i < place.len() implies #[trigger] label[start.len() + i]
        == place[i] as u8 by {
        assert(label[start.len() + i] == encode_utf8(place)[i]);
    }
}

proof fn lemma_shorter_name_differs(
    run_id: Seq<char>,
    left: (nat, nat),
    right: (nat, nat),
    length: nat,
)
    requires
        encode_utf8(record_label(run_id, left.0, left.1)).len() <= encode_utf8(
            record_label(run_id, right.0, right.1),
        ).len() <= length,
        record_of(run_id, left.0, left.1, length) == record_of(run_id, right.0, right.1, length),
    ensures
        left == right,
{
    let record = record_of(run_id, left.0, left.1, length);
    let of_left = encode_utf8(record_label(run_id, left.0, left.1));
    let of_right = encode_utf8(record_label(run_id, right.0, right.1));
    let start = encode_utf8(run_id + "|"@).len() as int;
    lemma_place(run_id, left.0, left.1);
    lemma_place(run_id, right.0, right.1);
    law_decimal_digits(left.0);
    law_decimal_digits(left.1);
    law_decimal_digits(right.0);
    law_decimal_digits(right.1);
    let one = record_place(left.0, left.1);
    let other = record_place(right.0, right.1);
    assert forall|i: int| 0 <= i < one.len() implies one[i] == #[trigger] other[i] by {
        assert(of_left[start + i] == record[start + i]);
        assert(of_right[start + i] == record[start + i]);
        assert(one[i] as u8 == other[i] as u8);
        assert('0' <= one[i] <= '|' && '0' <= other[i] <= '|');
    }
    let bar = decimal(left.0).len() as int;
    let other_bar = decimal(right.0).len() as int;
    if bar < other_bar {
        assert(one[bar] == other[bar]);
        assert(other[bar] == decimal(right.0)[bar]);
    } else if other_bar < bar {
        assert(one[other_bar] == other[other_bar]);
        assert(one[other_bar] == decimal(left.0)[other_bar]);
    }
    assert(decimal(left.0) =~= decimal(right.0)) by {
        assert forall|i: int| 0 <= i < bar implies decimal(left.0)[i] == decimal(right.0)[i] by {
            assert(one[i] == other[i]);
        }
    }
    law_decimal_is_injective(left.0, right.0);
    let end = one.len() - 1;
    assert(one[end] == other[end]);
    if end < other.len() - 1 {
        assert(other[end] == decimal(right.1)[end - bar - 1]);
    }
    assert(decimal(left.1) =~= decimal(right.1)) by {
        assert forall|i: int| 0 <= i < decimal(left.1).len() implies decimal(left.1)[i]
            == decimal(right.1)[i] by {
            assert(one[bar + 1 + i] == other[bar + 1 + i]);
        }
    }
    law_decimal_is_injective(left.1, right.1);
}

/// The records of a run differ wherever their names fit in them.
pub proof fn law_records_differ(
    run_id: Seq<char>,
    left: (nat, nat),
    right: (nat, nat),
    length: nat,
)
    requires
        encode_utf8(record_label(run_id, left.0, left.1)).len() <= length,
        encode_utf8(record_label(run_id, right.0, right.1)).len() <= length,
    ensures
        record_of(run_id, left.0, left.1, length) == record_of(run_id, right.0, right.1, length)
            <==> left == right,
{
    if record_of(run_id, left.0, left.1, length) == record_of(run_id, right.0, right.1, length) {
        if encode_utf8(record_label(run_id, left.0, left.1)).len() <= encode_utf8(
            record_label(run_id, right.0, right.1),
        ).len() {
            lemma_shorter_name_differs(run_id, left, right, length);
        } else {
            lemma_shorter_name_differs(run_id, right, left, length);
        }
    }
}

} // verus!
