//! What holds of load records, of their counts and reports, and of the producer's flags.
use crate::args::{
    arguments_view, law_values_are_taken_as_written, lemma_scan_keeps_places, no_values, scan_of,
    ValueView,
};
use crate::commands_laws::lemma_pair;
use crate::load::{
    check_config, config_fault, encode_record, has_room, load_rules, parse_args, percentile_of,
    rate_interval, record_of, reply_kind, wrapped, LoadCommand, LoadConfig, LoadCounts, LoadExit, LoadReport, LoadRequest,
    NamedChunkPolicy, Reply, TokenBucket,
};
use crate::numbers::{in_order, law_order_ascends, lemma_in_order};
use crate::text::{after_prefix, decimal};
use crate::text_laws::{
    differ_behind, law_a_prefix_and_the_rest_are_the_text, lemma_differ_here, lemma_differ_then,
    lemma_differ_then_four, lemma_differ_then_two,
};
use vstd::prelude::*;
use vstd::utf8::encode_utf8;

verus! {

/// Two reports that differ in one name alone differ only behind it.
pub proof fn law_reports_name_their_source(report: LoadReport, other: LoadReport)
    ensures
        differ_behind(
            report.words(),
            (LoadReport { endpoint: other.endpoint, ..report }).words(),
            " endpoint="@,
            report.endpoint@,
            other.endpoint@,
        ),
        differ_behind(
            report.words(),
            (LoadReport { backend: other.backend, ..report }).words(),
            " backend="@,
            report.backend@,
            other.backend@,
        ),
        differ_behind(
            report.words(),
            (LoadReport { chunk_policy: other.chunk_policy, ..report }).words(),
            " chunk_policy="@,
            report.chunk_policy@,
            other.chunk_policy@,
        ),
{
    lemma_differ_here(
        "scripture-load run_id="@ + report.run_id@,
        " endpoint="@,
        report.endpoint@,
        other.endpoint@,
    );
    let one = "scripture-load run_id="@ + report.run_id@ + " endpoint="@ + report.endpoint@;
    let other_one = "scripture-load run_id="@ + report.run_id@ + " endpoint="@ + other.endpoint@;
    lemma_differ_then_four(
        one,
        other_one,
        " endpoint="@,
        report.endpoint@,
        other.endpoint@,
        " backend="@,
        report.backend@,
        " chunk_policy="@,
        report.chunk_policy@,
    );
    let one = one + " backend="@ + report.backend@ + " chunk_policy="@ + report.chunk_policy@;
    let other_one = other_one + " backend="@ + report.backend@ + " chunk_policy="@
        + report.chunk_policy@;
    lemma_differ_then_four(
        one,
        other_one,
        " endpoint="@,
        report.endpoint@,
        other.endpoint@,
        " accepted_records="@,
        decimal(report.accepted_records as nat),
        " accepted_bytes="@,
        decimal(report.accepted_bytes as nat),
    );
    let one = one + " accepted_records="@ + decimal(report.accepted_records as nat)
        + " accepted_bytes="@ + decimal(report.accepted_bytes as nat);
    let other_one = other_one + " accepted_records="@ + decimal(report.accepted_records as nat)
        + " accepted_bytes="@ + decimal(report.accepted_bytes as nat);
    lemma_differ_then_four(
        one,
        other_one,
        " endpoint="@,
        report.endpoint@,
        other.endpoint@,
        " errors="@,
        decimal(report.errors as nat),
        " transport_failures="@,
        decimal(report.transport_failures as nat),
    );
    let one = one + " errors="@ + decimal(report.errors as nat) + " transport_failures="@
        + decimal(report.transport_failures as nat);
    let other_one = other_one + " errors="@ + decimal(report.errors as nat)
        + " transport_failures="@ + decimal(report.transport_failures as nat);
    lemma_differ_then_four(
        one,
        other_one,
        " endpoint="@,
        report.endpoint@,
        other.endpoint@,
        " ack_p50_us="@,
        decimal(report.ack_latency_p50_us as nat),
        " ack_p95_us="@,
        decimal(report.ack_latency_p95_us as nat),
    );
    let one = one + " ack_p50_us="@ + decimal(report.ack_latency_p50_us as nat) + " ack_p95_us="@
        + decimal(report.ack_latency_p95_us as nat);
    let other_one = other_one + " ack_p50_us="@ + decimal(report.ack_latency_p50_us as nat)
        + " ack_p95_us="@ + decimal(report.ack_latency_p95_us as nat);
    lemma_differ_then_four(
        one,
        other_one,
        " endpoint="@,
        report.endpoint@,
        other.endpoint@,
        " ack_p99_us="@,
        decimal(report.ack_latency_p99_us as nat),
        " elapsed_ms="@,
        decimal(report.elapsed_ms as nat),
    );
    lemma_differ_here(
        "scripture-load run_id="@ + report.run_id@ + " endpoint="@ + report.endpoint@,
        " backend="@,
        report.backend@,
        other.backend@,
    );
    let one = "scripture-load run_id="@ + report.run_id@ + " endpoint="@ + report.endpoint@
        + " backend="@ + report.backend@;
    let other_one = "scripture-load run_id="@ + report.run_id@ + " endpoint="@ + report.endpoint@
        + " backend="@ + other.backend@;
    lemma_differ_then_four(
        one,
        other_one,
        " backend="@,
        report.backend@,
        other.backend@,
        " chunk_policy="@,
        report.chunk_policy@,
        " accepted_records="@,
        decimal(report.accepted_records as nat),
    );
    let one = one + " chunk_policy="@ + report.chunk_policy@ + " accepted_records="@
        + decimal(report.accepted_records as nat);
    let other_one = other_one + " chunk_policy="@ + report.chunk_policy@ + " accepted_records="@
        + decimal(report.accepted_records as nat);
    lemma_differ_then_four(
        one,
        other_one,
        " backend="@,
        report.backend@,
        other.backend@,
        " accepted_bytes="@,
        decimal(report.accepted_bytes as nat),
        " errors="@,
        decimal(report.errors as nat),
    );
    let one = one + " accepted_bytes="@ + decimal(report.accepted_bytes as nat) + " errors="@
        + decimal(report.errors as nat);
    let other_one = other_one + " accepted_bytes="@ + decimal(report.accepted_bytes as nat)
        + " errors="@ + decimal(report.errors as nat);
    lemma_differ_then_four(
        one,
        other_one,
        " backend="@,
        report.backend@,
        other.backend@,
        " transport_failures="@,
        decimal(report.transport_failures as nat),
        " ack_p50_us="@,
        decimal(report.ack_latency_p50_us as nat),
    );
    let one = one + " transport_failures="@ + decimal(report.transport_failures as nat)
        + " ack_p50_us="@ + decimal(report.ack_latency_p50_us as nat);
    let other_one = other_one + " transport_failures="@
        + decimal(report.transport_failures as nat) + " ack_p50_us="@
        + decimal(report.ack_latency_p50_us as nat);
    lemma_differ_then_four(
        one,
        other_one,
        " backend="@,
        report.backend@,
        other.backend@,
        " ack_p95_us="@,
        decimal(report.ack_latency_p95_us as nat),
        " ack_p99_us="@,
        decimal(report.ack_latency_p99_us as nat),
    );
    let one = one + " ack_p95_us="@ + decimal(report.ack_latency_p95_us as nat) + " ack_p99_us="@
        + decimal(report.ack_latency_p99_us as nat);
    let other_one = other_one + " ack_p95_us="@ + decimal(report.ack_latency_p95_us as nat)
        + " ack_p99_us="@ + decimal(report.ack_latency_p99_us as nat);
    lemma_differ_then_two(
        one,
        other_one,
        " backend="@,
        report.backend@,
        other.backend@,
        " elapsed_ms="@,
        decimal(report.elapsed_ms as nat),
    );
    lemma_differ_here(
        "scripture-load run_id="@ + report.run_id@ + " endpoint="@ + report.endpoint@
            + " backend="@ + report.backend@,
        " chunk_policy="@,
        report.chunk_policy@,
        other.chunk_policy@,
    );
    let one = "scripture-load run_id="@ + report.run_id@ + " endpoint="@ + report.endpoint@
        + " backend="@ + report.backend@ + " chunk_policy="@ + report.chunk_policy@;
    let other_one = "scripture-load run_id="@ + report.run_id@ + " endpoint="@ + report.endpoint@
        + " backend="@ + report.backend@ + " chunk_policy="@ + other.chunk_policy@;
    lemma_differ_then_four(
        one,
        other_one,
        " chunk_policy="@,
        report.chunk_policy@,
        other.chunk_policy@,
        " accepted_records="@,
        decimal(report.accepted_records as nat),
        " accepted_bytes="@,
        decimal(report.accepted_bytes as nat),
    );
    let one = one + " accepted_records="@ + decimal(report.accepted_records as nat)
        + " accepted_bytes="@ + decimal(report.accepted_bytes as nat);
    let other_one = other_one + " accepted_records="@ + decimal(report.accepted_records as nat)
        + " accepted_bytes="@ + decimal(report.accepted_bytes as nat);
    lemma_differ_then_four(
        one,
        other_one,
        " chunk_policy="@,
        report.chunk_policy@,
        other.chunk_policy@,
        " errors="@,
        decimal(report.errors as nat),
        " transport_failures="@,
        decimal(report.transport_failures as nat),
    );
    let one = one + " errors="@ + decimal(report.errors as nat) + " transport_failures="@
        + decimal(report.transport_failures as nat);
    let other_one = other_one + " errors="@ + decimal(report.errors as nat)
        + " transport_failures="@ + decimal(report.transport_failures as nat);
    lemma_differ_then_four(
        one,
        other_one,
        " chunk_policy="@,
        report.chunk_policy@,
        other.chunk_policy@,
        " ack_p50_us="@,
        decimal(report.ack_latency_p50_us as nat),
        " ack_p95_us="@,
        decimal(report.ack_latency_p95_us as nat),
    );
    let one = one + " ack_p50_us="@ + decimal(report.ack_latency_p50_us as nat) + " ack_p95_us="@
        + decimal(report.ack_latency_p95_us as nat);
    let other_one = other_one + " ack_p50_us="@ + decimal(report.ack_latency_p50_us as nat)
        + " ack_p95_us="@ + decimal(report.ack_latency_p95_us as nat);
    lemma_differ_then_four(
        one,
        other_one,
        " chunk_policy="@,
        report.chunk_policy@,
        other.chunk_policy@,
        " ack_p99_us="@,
        decimal(report.ack_latency_p99_us as nat),
        " elapsed_ms="@,
        decimal(report.elapsed_ms as nat),
    );
}

/// Two reports that differ in one count alone differ only behind its name.
pub proof fn law_reports_name_their_counts(report: LoadReport, other: LoadReport)
    ensures
        differ_behind(
            report.words(),
            (LoadReport { accepted_records: other.accepted_records, ..report }).words(),
            " accepted_records="@,
            decimal(report.accepted_records as nat),
            decimal(other.accepted_records as nat),
        ),
        differ_behind(
            report.words(),
            (LoadReport { accepted_bytes: other.accepted_bytes, ..report }).words(),
            " accepted_bytes="@,
            decimal(report.accepted_bytes as nat),
            decimal(other.accepted_bytes as nat),
        ),
        differ_behind(
            report.words(),
            (LoadReport { errors: other.errors, ..report }).words(),
            " errors="@,
            decimal(report.errors as nat),
            decimal(other.errors as nat),
        ),
        differ_behind(
            report.words(),
            (LoadReport { transport_failures: other.transport_failures, ..report }).words(),
            " transport_failures="@,
            decimal(report.transport_failures as nat),
            decimal(other.transport_failures as nat),
        ),
{
    lemma_differ_here(
        "scripture-load run_id="@ + report.run_id@ + " endpoint="@ + report.endpoint@
            + " backend="@ + report.backend@ + " chunk_policy="@ + report.chunk_policy@,
        " accepted_records="@,
        decimal(report.accepted_records as nat),
        decimal(other.accepted_records as nat),
    );
    let one = "scripture-load run_id="@ + report.run_id@ + " endpoint="@ + report.endpoint@
        + " backend="@ + report.backend@ + " chunk_policy="@ + report.chunk_policy@
        + " accepted_records="@ + decimal(report.accepted_records as nat);
    let other_one = "scripture-load run_id="@ + report.run_id@ + " endpoint="@ + report.endpoint@
        + " backend="@ + report.backend@ + " chunk_policy="@ + report.chunk_policy@
        + " accepted_records="@ + decimal(other.accepted_records as nat);
    lemma_differ_then_four(
        one,
        other_one,
        " accepted_records="@,
        decimal(report.accepted_records as nat),
        decimal(other.accepted_records as nat),
        " accepted_bytes="@,
        decimal(report.accepted_bytes as nat),
        " errors="@,
        decimal(report.errors as nat),
    );
    let one = one + " accepted_bytes="@ + decimal(report.accepted_bytes as nat) + " errors="@
        + decimal(report.errors as nat);
    let other_one = other_one + " accepted_bytes="@ + decimal(report.accepted_bytes as nat)
        + " errors="@ + decimal(report.errors as nat);
    lemma_differ_then_four(
        one,
        other_one,
        " accepted_records="@,
        decimal(report.accepted_records as nat),
        decimal(other.accepted_records as nat),
        " transport_failures="@,
        decimal(report.transport_failures as nat),
        " ack_p50_us="@,
        decimal(report.ack_latency_p50_us as nat),
    );
    let one = one + " transport_failures="@ + decimal(report.transport_failures as nat)
        + " ack_p50_us="@ + decimal(report.ack_latency_p50_us as nat);
    let other_one = other_one + " transport_failures="@
        + decimal(report.transport_failures as nat) + " ack_p50_us="@
        + decimal(report.ack_latency_p50_us as nat);
    lemma_differ_then_four(
        one,
        other_one,
        " accepted_records="@,
        decimal(report.accepted_records as nat),
        decimal(other.accepted_records as nat),
        " ack_p95_us="@,
        decimal(report.ack_latency_p95_us as nat),
        " ack_p99_us="@,
        decimal(report.ack_latency_p99_us as nat),
    );
    let one = one + " ack_p95_us="@ + decimal(report.ack_latency_p95_us as nat) + " ack_p99_us="@
        + decimal(report.ack_latency_p99_us as nat);
    let other_one = other_one + " ack_p95_us="@ + decimal(report.ack_latency_p95_us as nat)
        + " ack_p99_us="@ + decimal(report.ack_latency_p99_us as nat);
    lemma_differ_then_two(
        one,
        other_one,
        " accepted_records="@,
        decimal(report.accepted_records as nat),
        decimal(other.accepted_records as nat),
        " elapsed_ms="@,
        decimal(report.elapsed_ms as nat),
    );
    lemma_differ_here(
        "scripture-load run_id="@ + report.run_id@ + " endpoint="@ + report.endpoint@
            + " backend="@ + report.backend@ + " chunk_policy="@ + report.chunk_policy@
            + " accepted_records="@ + decimal(report.accepted_records as nat),
        " accepted_bytes="@,
        decimal(report.accepted_bytes as nat),
        decimal(other.accepted_bytes as nat),
    );
    let one = "scripture-load run_id="@ + report.run_id@ + " endpoint="@ + report.endpoint@
        + " backend="@ + report.backend@ + " chunk_policy="@ + report.chunk_policy@
        + " accepted_records="@ + decimal(report.accepted_records as nat) + " accepted_bytes="@
        + decimal(report.accepted_bytes as nat);
    let other_one = "scripture-load run_id="@ + report.run_id@ + " endpoint="@ + report.endpoint@
        + " backend="@ + report.backend@ + " chunk_policy="@ + report.chunk_policy@
        + " accepted_records="@ + decimal(report.accepted_records as nat) + " accepted_bytes="@
        + decimal(other.accepted_bytes as nat);
    lemma_differ_then_four(
        one,
        other_one,
        " accepted_bytes="@,
        decimal(report.accepted_bytes as nat),
        decimal(other.accepted_bytes as nat),
        " errors="@,
        decimal(report.errors as nat),
        " transport_failures="@,
        decimal(report.transport_failures as nat),
    );
    let one = one + " errors="@ + decimal(report.errors as nat) + " transport_failures="@
        + decimal(report.transport_failures as nat);
    let other_one = other_one + " errors="@ + decimal(report.errors as nat)
        + " transport_failures="@ + decimal(report.transport_failures as nat);
    lemma_differ_then_four(
        one,
        other_one,
        " accepted_bytes="@,
        decimal(report.accepted_bytes as nat),
        decimal(other.accepted_bytes as nat),
        " ack_p50_us="@,
        decimal(report.ack_latency_p50_us as nat),
        " ack_p95_us="@,
        decimal(report.ack_latency_p95_us as nat),
    );
    let one = one + " ack_p50_us="@ + decimal(report.ack_latency_p50_us as nat) + " ack_p95_us="@
        + decimal(report.ack_latency_p95_us as nat);
    let other_one = other_one + " ack_p50_us="@ + decimal(report.ack_latency_p50_us as nat)
        + " ack_p95_us="@ + decimal(report.ack_latency_p95_us as nat);
    lemma_differ_then_four(
        one,
        other_one,
        " accepted_bytes="@,
        decimal(report.accepted_bytes as nat),
        decimal(other.accepted_bytes as nat),
        " ack_p99_us="@,
        decimal(report.ack_latency_p99_us as nat),
        " elapsed_ms="@,
        decimal(report.elapsed_ms as nat),
    );
    lemma_differ_here(
        "scripture-load run_id="@ + report.run_id@ + " endpoint="@ + report.endpoint@
            + " backend="@ + report.backend@ + " chunk_policy="@ + report.chunk_policy@
            + " accepted_records="@ + decimal(report.accepted_records as nat)
            + " accepted_bytes="@ + decimal(report.accepted_bytes as nat),
        " errors="@,
        decimal(report.errors as nat),
        decimal(other.errors as nat),
    );
    let one = "scripture-load run_id="@ + report.run_id@ + " endpoint="@ + report.endpoint@
        + " backend="@ + report.backend@ + " chunk_policy="@ + report.chunk_policy@
        + " accepted_records="@ + decimal(report.accepted_records as nat) + " accepted_bytes="@
        + decimal(report.accepted_bytes as nat) + " errors="@ + decimal(report.errors as nat);
    let other_one = "scripture-load run_id="@ + report.run_id@ + " endpoint="@ + report.endpoint@
        + " backend="@ + report.backend@ + " chunk_policy="@ + report.chunk_policy@
        + " accepted_records="@ + decimal(report.accepted_records as nat) + " accepted_bytes="@
        + decimal(report.accepted_bytes as nat) + " errors="@ + decimal(other.errors as nat);
    lemma_differ_then_four(
        one,
        other_one,
        " errors="@,
        decimal(report.errors as nat),
        decimal(other.errors as nat),
        " transport_failures="@,
        decimal(report.transport_failures as nat),
        " ack_p50_us="@,
        decimal(report.ack_latency_p50_us as nat),
    );
    let one = one + " transport_failures="@ + decimal(report.transport_failures as nat)
        + " ack_p50_us="@ + decimal(report.ack_latency_p50_us as nat);
    let other_one = other_one + " transport_failures="@
        + decimal(report.transport_failures as nat) + " ack_p50_us="@
        + decimal(report.ack_latency_p50_us as nat);
    lemma_differ_then_four(
        one,
        other_one,
        " errors="@,
        decimal(report.errors as nat),
        decimal(other.errors as nat),
        " ack_p95_us="@,
        decimal(report.ack_latency_p95_us as nat),
        " ack_p99_us="@,
        decimal(report.ack_latency_p99_us as nat),
    );
    let one = one + " ack_p95_us="@ + decimal(report.ack_latency_p95_us as nat) + " ack_p99_us="@
        + decimal(report.ack_latency_p99_us as nat);
    let other_one = other_one + " ack_p95_us="@ + decimal(report.ack_latency_p95_us as nat)
        + " ack_p99_us="@ + decimal(report.ack_latency_p99_us as nat);
    lemma_differ_then_two(
        one,
        other_one,
        " errors="@,
        decimal(report.errors as nat),
        decimal(other.errors as nat),
        " elapsed_ms="@,
        decimal(report.elapsed_ms as nat),
    );
    lemma_differ_here(
        "scripture-load run_id="@ + report.run_id@ + " endpoint="@ + report.endpoint@
            + " backend="@ + report.backend@ + " chunk_policy="@ + report.chunk_policy@
            + " accepted_records="@ + decimal(report.accepted_records as nat)
            + " accepted_bytes="@ + decimal(report.accepted_bytes as nat) + " errors="@
            + decimal(report.errors as nat),
        " transport_failures="@,
        decimal(report.transport_failures as nat),
        decimal(other.transport_failures as nat),
    );
    let one = "scripture-load run_id="@ + report.run_id@ + " endpoint="@ + report.endpoint@
        + " backend="@ + report.backend@ + " chunk_policy="@ + report.chunk_policy@
        + " accepted_records="@ + decimal(report.accepted_records as nat) + " accepted_bytes="@
        + decimal(report.accepted_bytes as nat) + " errors="@ + decimal(report.errors as nat)
        + " transport_failures="@ + decimal(report.transport_failures as nat);
    let other_one = "scripture-load run_id="@ + report.run_id@ + " endpoint="@ + report.endpoint@
        + " backend="@ + report.backend@ + " chunk_policy="@ + report.chunk_policy@
        + " accepted_records="@ + decimal(report.accepted_records as nat) + " accepted_bytes="@
        + decimal(report.accepted_bytes as nat) + " errors="@ + decimal(report.errors as nat)
        + " transport_failures="@ + decimal(other.transport_failures as nat);
    lemma_differ_then_four(
        one,
        other_one,
        " transport_failures="@,
        decimal(report.transport_failures as nat),
        decimal(other.transport_failures as nat),
        " ack_p50_us="@,
        decimal(report.ack_latency_p50_us as nat),
        " ack_p95_us="@,
        decimal(report.ack_latency_p95_us as nat),
    );
    let one = one + " ack_p50_us="@ + decimal(report.ack_latency_p50_us as nat) + " ack_p95_us="@
        + decimal(report.ack_latency_p95_us as nat);
    let other_one = other_one + " ack_p50_us="@ + decimal(report.ack_latency_p50_us as nat)
        + " ack_p95_us="@ + decimal(report.ack_latency_p95_us as nat);
    lemma_differ_then_four(
        one,
        other_one,
        " transport_failures="@,
        decimal(report.transport_failures as nat),
        decimal(other.transport_failures as nat),
        " ack_p99_us="@,
        decimal(report.ack_latency_p99_us as nat),
        " elapsed_ms="@,
        decimal(report.elapsed_ms as nat),
    );
}

/// Two reports that differ in one time alone differ only behind its name.
pub proof fn law_reports_name_their_times(report: LoadReport, other: LoadReport)
    ensures
        differ_behind(
            report.words(),
            (LoadReport { ack_latency_p50_us: other.ack_latency_p50_us, ..report }).words(),
            " ack_p50_us="@,
            decimal(report.ack_latency_p50_us as nat),
            decimal(other.ack_latency_p50_us as nat),
        ),
        differ_behind(
            report.words(),
            (LoadReport { ack_latency_p95_us: other.ack_latency_p95_us, ..report }).words(),
            " ack_p95_us="@,
            decimal(report.ack_latency_p95_us as nat),
            decimal(other.ack_latency_p95_us as nat),
        ),
        differ_behind(
            report.words(),
            (LoadReport { ack_latency_p99_us: other.ack_latency_p99_us, ..report }).words(),
            " ack_p99_us="@,
            decimal(report.ack_latency_p99_us as nat),
            decimal(other.ack_latency_p99_us as nat),
        ),
        differ_behind(
            report.words(),
            (LoadReport { elapsed_ms: other.elapsed_ms, ..report }).words(),
            " elapsed_ms="@,
            decimal(report.elapsed_ms as nat),
            decimal(other.elapsed_ms as nat),
        ),
{
    lemma_differ_here(
        "scripture-load run_id="@ + report.run_id@ + " endpoint="@ + report.endpoint@
            + " backend="@ + report.backend@ + " chunk_policy="@ + report.chunk_policy@
            + " accepted_records="@ + decimal(report.accepted_records as nat)
            + " accepted_bytes="@ + decimal(report.accepted_bytes as nat) + " errors="@
            + decimal(report.errors as nat) + " transport_failures="@
            + decimal(report.transport_failures as nat),
        " ack_p50_us="@,
        decimal(report.ack_latency_p50_us as nat),
        decimal(other.ack_latency_p50_us as nat),
    );
    let one = "scripture-load run_id="@ + report.run_id@ + " endpoint="@ + report.endpoint@
        + " backend="@ + report.backend@ + " chunk_policy="@ + report.chunk_policy@
        + " accepted_records="@ + decimal(report.accepted_records as nat) + " accepted_bytes="@
        + decimal(report.accepted_bytes as nat) + " errors="@ + decimal(report.errors as nat)
        + " transport_failures="@ + decimal(report.transport_failures as nat) + " ack_p50_us="@
        + decimal(report.ack_latency_p50_us as nat);
    let other_one = "scripture-load run_id="@ + report.run_id@ + " endpoint="@ + report.endpoint@
        + " backend="@ + report.backend@ + " chunk_policy="@ + report.chunk_policy@
        + " accepted_records="@ + decimal(report.accepted_records as nat) + " accepted_bytes="@
        + decimal(report.accepted_bytes as nat) + " errors="@ + decimal(report.errors as nat)
        + " transport_failures="@ + decimal(report.transport_failures as nat) + " ack_p50_us="@
        + decimal(other.ack_latency_p50_us as nat);
    lemma_differ_then_four(
        one,
        other_one,
        " ack_p50_us="@,
        decimal(report.ack_latency_p50_us as nat),
        decimal(other.ack_latency_p50_us as nat),
        " ack_p95_us="@,
        decimal(report.ack_latency_p95_us as nat),
        " ack_p99_us="@,
        decimal(report.ack_latency_p99_us as nat),
    );
    let one = one + " ack_p95_us="@ + decimal(report.ack_latency_p95_us as nat) + " ack_p99_us="@
        + decimal(report.ack_latency_p99_us as nat);
    let other_one = other_one + " ack_p95_us="@ + decimal(report.ack_latency_p95_us as nat)
        + " ack_p99_us="@ + decimal(report.ack_latency_p99_us as nat);
    lemma_differ_then_two(
        one,
        other_one,
        " ack_p50_us="@,
        decimal(report.ack_latency_p50_us as nat),
        decimal(other.ack_latency_p50_us as nat),
        " elapsed_ms="@,
        decimal(report.elapsed_ms as nat),
    );
    lemma_differ_here(
        "scripture-load run_id="@ + report.run_id@ + " endpoint="@ + report.endpoint@
            + " backend="@ + report.backend@ + " chunk_policy="@ + report.chunk_policy@
            + " accepted_records="@ + decimal(report.accepted_records as nat)
            + " accepted_bytes="@ + decimal(report.accepted_bytes as nat) + " errors="@
            + decimal(report.errors as nat) + " transport_failures="@
            + decimal(report.transport_failures as nat) + " ack_p50_us="@
            + decimal(report.ack_latency_p50_us as nat),
        " ack_p95_us="@,
        decimal(report.ack_latency_p95_us as nat),
        decimal(other.ack_latency_p95_us as nat),
    );
    let one = "scripture-load run_id="@ + report.run_id@ + " endpoint="@ + report.endpoint@
        + " backend="@ + report.backend@ + " chunk_policy="@ + report.chunk_policy@
        + " accepted_records="@ + decimal(report.accepted_records as nat) + " accepted_bytes="@
        + decimal(report.accepted_bytes as nat) + " errors="@ + decimal(report.errors as nat)
        + " transport_failures="@ + decimal(report.transport_failures as nat) + " ack_p50_us="@
        + decimal(report.ack_latency_p50_us as nat) + " ack_p95_us="@
        + decimal(report.ack_latency_p95_us as nat);
    let other_one = "scripture-load run_id="@ + report.run_id@ + " endpoint="@ + report.endpoint@
        + " backend="@ + report.backend@ + " chunk_policy="@ + report.chunk_policy@
        + " accepted_records="@ + decimal(report.accepted_records as nat) + " accepted_bytes="@
        + decimal(report.accepted_bytes as nat) + " errors="@ + decimal(report.errors as nat)
        + " transport_failures="@ + decimal(report.transport_failures as nat) + " ack_p50_us="@
        + decimal(report.ack_latency_p50_us as nat) + " ack_p95_us="@
        + decimal(other.ack_latency_p95_us as nat);
    lemma_differ_then_four(
        one,
        other_one,
        " ack_p95_us="@,
        decimal(report.ack_latency_p95_us as nat),
        decimal(other.ack_latency_p95_us as nat),
        " ack_p99_us="@,
        decimal(report.ack_latency_p99_us as nat),
        " elapsed_ms="@,
        decimal(report.elapsed_ms as nat),
    );
    lemma_differ_here(
        "scripture-load run_id="@ + report.run_id@ + " endpoint="@ + report.endpoint@
            + " backend="@ + report.backend@ + " chunk_policy="@ + report.chunk_policy@
            + " accepted_records="@ + decimal(report.accepted_records as nat)
            + " accepted_bytes="@ + decimal(report.accepted_bytes as nat) + " errors="@
            + decimal(report.errors as nat) + " transport_failures="@
            + decimal(report.transport_failures as nat) + " ack_p50_us="@
            + decimal(report.ack_latency_p50_us as nat) + " ack_p95_us="@
            + decimal(report.ack_latency_p95_us as nat),
        " ack_p99_us="@,
        decimal(report.ack_latency_p99_us as nat),
        decimal(other.ack_latency_p99_us as nat),
    );
    let one = "scripture-load run_id="@ + report.run_id@ + " endpoint="@ + report.endpoint@
        + " backend="@ + report.backend@ + " chunk_policy="@ + report.chunk_policy@
        + " accepted_records="@ + decimal(report.accepted_records as nat) + " accepted_bytes="@
        + decimal(report.accepted_bytes as nat) + " errors="@ + decimal(report.errors as nat)
        + " transport_failures="@ + decimal(report.transport_failures as nat) + " ack_p50_us="@
        + decimal(report.ack_latency_p50_us as nat) + " ack_p95_us="@
        + decimal(report.ack_latency_p95_us as nat) + " ack_p99_us="@
        + decimal(report.ack_latency_p99_us as nat);
    let other_one = "scripture-load run_id="@ + report.run_id@ + " endpoint="@ + report.endpoint@
        + " backend="@ + report.backend@ + " chunk_policy="@ + report.chunk_policy@
        + " accepted_records="@ + decimal(report.accepted_records as nat) + " accepted_bytes="@
        + decimal(report.accepted_bytes as nat) + " errors="@ + decimal(report.errors as nat)
        + " transport_failures="@ + decimal(report.transport_failures as nat) + " ack_p50_us="@
        + decimal(report.ack_latency_p50_us as nat) + " ack_p95_us="@
        + decimal(report.ack_latency_p95_us as nat) + " ack_p99_us="@
        + decimal(other.ack_latency_p99_us as nat);
    lemma_differ_then_two(
        one,
        other_one,
        " ack_p99_us="@,
        decimal(report.ack_latency_p99_us as nat),
        decimal(other.ack_latency_p99_us as nat),
        " elapsed_ms="@,
        decimal(report.elapsed_ms as nat),
    );
    lemma_differ_here(
        "scripture-load run_id="@ + report.run_id@ + " endpoint="@ + report.endpoint@
            + " backend="@ + report.backend@ + " chunk_policy="@ + report.chunk_policy@
            + " accepted_records="@ + decimal(report.accepted_records as nat)
            + " accepted_bytes="@ + decimal(report.accepted_bytes as nat) + " errors="@
            + decimal(report.errors as nat) + " transport_failures="@
            + decimal(report.transport_failures as nat) + " ack_p50_us="@
            + decimal(report.ack_latency_p50_us as nat) + " ack_p95_us="@
            + decimal(report.ack_latency_p95_us as nat) + " ack_p99_us="@
            + decimal(report.ack_latency_p99_us as nat),
        " elapsed_ms="@,
        decimal(report.elapsed_ms as nat),
        decimal(other.elapsed_ms as nat),
    );
    let one = "scripture-load run_id="@ + report.run_id@ + " endpoint="@ + report.endpoint@
        + " backend="@ + report.backend@ + " chunk_policy="@ + report.chunk_policy@
        + " accepted_records="@ + decimal(report.accepted_records as nat) + " accepted_bytes="@
        + decimal(report.accepted_bytes as nat) + " errors="@ + decimal(report.errors as nat)
        + " transport_failures="@ + decimal(report.transport_failures as nat) + " ack_p50_us="@
        + decimal(report.ack_latency_p50_us as nat) + " ack_p95_us="@
        + decimal(report.ack_latency_p95_us as nat) + " ack_p99_us="@
        + decimal(report.ack_latency_p99_us as nat) + " elapsed_ms="@
        + decimal(report.elapsed_ms as nat);
    let other_one = "scripture-load run_id="@ + report.run_id@ + " endpoint="@ + report.endpoint@
        + " backend="@ + report.backend@ + " chunk_policy="@ + report.chunk_policy@
        + " accepted_records="@ + decimal(report.accepted_records as nat) + " accepted_bytes="@
        + decimal(report.accepted_bytes as nat) + " errors="@ + decimal(report.errors as nat)
        + " transport_failures="@ + decimal(report.transport_failures as nat) + " ack_p50_us="@
        + decimal(report.ack_latency_p50_us as nat) + " ack_p95_us="@
        + decimal(report.ack_latency_p95_us as nat) + " ack_p99_us="@
        + decimal(report.ack_latency_p99_us as nat) + " elapsed_ms="@
        + decimal(other.elapsed_ms as nat);
}

/// A report starts with the run that it is of.
pub proof fn law_reports_start_with_their_run(report: LoadReport)
    ensures
        ({
            let start = "scripture-load run_id="@ + report.run_id@ + " endpoint="@;
            report.words().take(start.len() as int) == start
        }),
{
    let start = "scripture-load run_id="@ + report.run_id@ + " endpoint="@;
    let names = start + report.endpoint@ + " backend="@ + report.backend@ + " chunk_policy="@
        + report.chunk_policy@;
    let counts = names + " accepted_records="@ + decimal(report.accepted_records as nat)
        + " accepted_bytes="@ + decimal(report.accepted_bytes as nat) + " errors="@ + decimal(
        report.errors as nat,
    ) + " transport_failures="@ + decimal(report.transport_failures as nat);
    assert(names.take(start.len() as int) =~= start);
    assert(counts.take(start.len() as int) =~= start);
    assert(report.words().take(start.len() as int) =~= start);
}

/// Two policies that differ in one limit alone differ only behind its name.
pub proof fn law_policies_name_their_limits(policy: NamedChunkPolicy, other: NamedChunkPolicy)
    ensures
        differ_behind(
            policy.words(),
            (NamedChunkPolicy { max_chunk_bytes: other.max_chunk_bytes, ..policy }).words(),
            "(max_chunk_bytes="@,
            decimal(policy.max_chunk_bytes as nat),
            decimal(other.max_chunk_bytes as nat),
        ),
        differ_behind(
            policy.words(),
            (NamedChunkPolicy { max_chunk_records: other.max_chunk_records, ..policy }).words(),
            ",max_chunk_records="@,
            decimal(policy.max_chunk_records as nat),
            decimal(other.max_chunk_records as nat),
        ),
        differ_behind(
            policy.words(),
            (NamedChunkPolicy { max_inflight_chunks: other.max_inflight_chunks, ..policy }).words(),
            ",max_inflight_chunks="@,
            decimal(policy.max_inflight_chunks as nat),
            decimal(other.max_inflight_chunks as nat),
        ),
{
    lemma_differ_here(
        policy.name@,
        "(max_chunk_bytes="@,
        decimal(policy.max_chunk_bytes as nat),
        decimal(other.max_chunk_bytes as nat),
    );
    let one = policy.name@ + "(max_chunk_bytes="@ + decimal(policy.max_chunk_bytes as nat);
    let other_one = policy.name@ + "(max_chunk_bytes="@ + decimal(other.max_chunk_bytes as nat);
    lemma_differ_then_four(
        one,
        other_one,
        "(max_chunk_bytes="@,
        decimal(policy.max_chunk_bytes as nat),
        decimal(other.max_chunk_bytes as nat),
        ",max_chunk_records="@,
        decimal(policy.max_chunk_records as nat),
        ",max_inflight_chunks="@,
        decimal(policy.max_inflight_chunks as nat),
    );
    let one = one + ",max_chunk_records="@ + decimal(policy.max_chunk_records as nat)
        + ",max_inflight_chunks="@ + decimal(policy.max_inflight_chunks as nat);
    let other_one = other_one + ",max_chunk_records="@ + decimal(policy.max_chunk_records as nat)
        + ",max_inflight_chunks="@ + decimal(policy.max_inflight_chunks as nat);
    lemma_differ_then(
        one,
        other_one,
        "(max_chunk_bytes="@,
        decimal(policy.max_chunk_bytes as nat),
        decimal(other.max_chunk_bytes as nat),
        ")"@,
    );
    lemma_differ_here(
        policy.name@ + "(max_chunk_bytes="@ + decimal(policy.max_chunk_bytes as nat),
        ",max_chunk_records="@,
        decimal(policy.max_chunk_records as nat),
        decimal(other.max_chunk_records as nat),
    );
    let one = policy.name@ + "(max_chunk_bytes="@ + decimal(policy.max_chunk_bytes as nat)
        + ",max_chunk_records="@ + decimal(policy.max_chunk_records as nat);
    let other_one = policy.name@ + "(max_chunk_bytes="@ + decimal(policy.max_chunk_bytes as nat)
        + ",max_chunk_records="@ + decimal(other.max_chunk_records as nat);
    lemma_differ_then_two(
        one,
        other_one,
        ",max_chunk_records="@,
        decimal(policy.max_chunk_records as nat),
        decimal(other.max_chunk_records as nat),
        ",max_inflight_chunks="@,
        decimal(policy.max_inflight_chunks as nat),
    );
    let one = one + ",max_inflight_chunks="@ + decimal(policy.max_inflight_chunks as nat);
    let other_one = other_one + ",max_inflight_chunks="@
        + decimal(policy.max_inflight_chunks as nat);
    lemma_differ_then(
        one,
        other_one,
        ",max_chunk_records="@,
        decimal(policy.max_chunk_records as nat),
        decimal(other.max_chunk_records as nat),
        ")"@,
    );
    lemma_differ_here(
        policy.name@ + "(max_chunk_bytes="@ + decimal(policy.max_chunk_bytes as nat)
            + ",max_chunk_records="@ + decimal(policy.max_chunk_records as nat),
        ",max_inflight_chunks="@,
        decimal(policy.max_inflight_chunks as nat),
        decimal(other.max_inflight_chunks as nat),
    );
    let one = policy.name@ + "(max_chunk_bytes="@ + decimal(policy.max_chunk_bytes as nat)
        + ",max_chunk_records="@ + decimal(policy.max_chunk_records as nat)
        + ",max_inflight_chunks="@ + decimal(policy.max_inflight_chunks as nat);
    let other_one = policy.name@ + "(max_chunk_bytes="@ + decimal(policy.max_chunk_bytes as nat)
        + ",max_chunk_records="@ + decimal(policy.max_chunk_records as nat)
        + ",max_inflight_chunks="@ + decimal(other.max_inflight_chunks as nat);
    lemma_differ_then(
        one,
        other_one,
        ",max_inflight_chunks="@,
        decimal(policy.max_inflight_chunks as nat),
        decimal(other.max_inflight_chunks as nat),
        ")"@,
    );
}

/// A record starts with its run, its connection and its number, each ended by a bar; where that
/// does not fit it is as much of it as fits.
pub proof fn law_records_start_with_their_name(
    run_id: Seq<char>,
    connection: nat,
    sequence: nat,
    length: nat,
)
    ensures
        ({
            let name = encode_utf8(
                run_id + "|"@ + decimal(connection) + "|"@ + decimal(sequence) + "|"@,
            );
            let record = record_of(run_id, connection, sequence, length);
            &&& record.len() == length
            &&& name.len() <= length ==> record.take(name.len() as int) == name
            &&& length <= name.len() ==> record == name.take(length as int)
            &&& forall|i: int|
                name.len() <= i < length ==> #[trigger] record[i] == 120u8
        }),
{
    let name = encode_utf8(run_id + "|"@ + decimal(connection) + "|"@ + decimal(sequence) + "|"@);
    let record = record_of(run_id, connection, sequence, length);
    if name.len() <= length {
        assert(record.take(name.len() as int) =~= name);
        if name.len() == length {
            assert(name.take(length as int) =~= name);
        }
    }
}

/// A rate of some records a second leaves just that many intervals in a second; without a rate
/// there is one.
pub proof fn law_intervals_share_the_second(rate: u64)
    ensures
        rate_interval(0) == 1_000_000_000,
        rate > 0 ==> rate * rate_interval(rate) <= 1_000_000_000 < rate * (rate_interval(rate) + 1),
{
    if rate > 0 {
        let second: int = 1_000_000_000;
        let each = second / rate as int;
        assert(rate * each <= second && second < rate * (each + 1) && 0 <= each <= second) by (
        nonlinear_arith)
            requires
                rate > 0,
                second == 1_000_000_000,
                each == second / rate as int,
        ;
    }
}

/// Claims stay under the ceiling, and a claim that is given back leaves the counts as they were.
pub proof fn law_claims_stay_under_the_ceiling(
    counts: LoadCounts,
    record_bytes: usize,
    max_bytes: u64,
)
    requires
        counts.allows(record_bytes, max_bytes),
    ensures
        ({
            let claimed = counts.with_claim(record_bytes);
            &&& claimed.accepted_bytes + claimed.claimed_bytes <= max_bytes
            &&& claimed.claimed_bytes == counts.claimed_bytes + record_bytes
            &&& claimed.without_claim(record_bytes as int) == counts
            &&& !counts.is_full(record_bytes, max_bytes)
        }),
{
}

/// The ceiling is full where even without claims there is no room; without claims, room is just
/// what is not full.
pub proof fn law_full_means_no_room(counts: LoadCounts, record_bytes: usize, max_bytes: u64)
    ensures
        counts.is_full(record_bytes, max_bytes) ==> !counts.allows(record_bytes, max_bytes),
        counts.claimed_bytes == 0 ==> counts.is_full(record_bytes, max_bytes) != counts.allows(
            record_bytes,
            max_bytes,
        ),
        counts.is_full(record_bytes, max_bytes) <==> counts.accepted_bytes + record_bytes
            > max_bytes,
{
}

/// A reply accepts where its line starts with `OK` and a space, refuses where it starts with
/// `ERR` and a space, and every other end is a failure of the transport.
pub proof fn law_replies_mean_what_they_start_with(line: String, rest: Seq<char>)
    ensures
        line@ == "OK "@ + rest ==> reply_kind(Reply::Line(line)) is Accepted,
        line@ == "ERR "@ + rest ==> reply_kind(Reply::Line(line)) is Refused,
        reply_kind(Reply::Line(line)) is Accepted ==> line@.len() >= 3 && line@.take(3) == "OK "@,
        reply_kind(Reply::Line(line)) is Refused ==> line@.len() >= 4 && line@.take(4) == "ERR "@,
        reply_kind(Reply::Closed) is Broken,
        reply_kind(Reply::TimedOut) is Broken,
{
    reveal_strlit("OK ");
    reveal_strlit("ERR ");
    law_a_prefix_and_the_rest_are_the_text(line@, "OK "@, rest);
    law_a_prefix_and_the_rest_are_the_text(line@, "ERR "@, rest);
    if let Some(after) = after_prefix(line@, "OK "@) {
        law_a_prefix_and_the_rest_are_the_text(line@, "OK "@, after);
        assert(line@.take(3) =~= "OK "@);
        assert(line@[0] == 'O');
    }
    if let Some(after) = after_prefix(line@, "ERR "@) {
        law_a_prefix_and_the_rest_are_the_text(line@, "ERR "@, after);
        assert(line@.take(4) =~= "ERR "@);
    }
    if line@ == "ERR "@ + rest {
        assert(line@[0] == 'E');
    }
}

/// A reply counts once and in one place: an accepted record with its bytes, a refusal or a
/// failure.
pub proof fn law_replies_count_once(counts: LoadCounts, record_bytes: usize, reply: Reply)
    requires
        counts.accepted_bytes + record_bytes <= u64::MAX,
        counts.accepted_records < u64::MAX,
        counts.errors < u64::MAX,
        counts.transport_failures < u64::MAX,
    ensures
        ({
            let after = counts.counted(record_bytes, reply);
            let kind = reply_kind(reply);
            &&& after.accepted_records - counts.accepted_records == (if kind is Accepted {
                1int
            } else {
                0
            })
            &&& after.accepted_bytes - counts.accepted_bytes == (if kind is Accepted {
                record_bytes as int
            } else {
                0
            })
            &&& after.errors - counts.errors == (if kind is Refused {
                1int
            } else {
                0
            })
            &&& after.transport_failures - counts.transport_failures == (if kind is Broken {
                1int
            } else {
                0
            })
            &&& after.claimed_bytes == counts.claimed_bytes
        }),
{
}

/// A wrapped sum is the sum where it is a number, and what is left of it beyond all numbers.
pub proof fn law_wrapped_sums(count: u64, more: u64)
    ensures
        wrapped(count, more) as int == (count + more) % 0x1_0000_0000_0000_0000,
{
}

/// A percentile is the sample whose place is the percentage of the way from the first to the
/// last, rounded down: the lowest is the first sample and the highest the last.
pub proof fn law_percentiles_stand_at_their_rank(sorted: Seq<u64>, percent: int, place: int)
    requires
        sorted.len() > 0,
        0 <= percent <= 100,
        100 * place <= percent * (sorted.len() - 1) < 100 * (place + 1),
    ensures
        percentile_of(sorted, percent) == sorted[place],
        percentile_of(sorted, 0) == sorted[0],
        percentile_of(sorted, 100) == sorted.last(),
        percentile_of(Seq::empty(), percent) == 0,
{
    let last = sorted.len() - 1;
    assert(0 * last == 0 && 100 * last / 100 == last);
}

/// A run can start exactly where it has a connection, records of some length, and a name without
/// bars and line ends.
pub proof fn law_sound_runs_start(config: LoadConfig)
    ensures
        config_fault(config) is None <==> config.connections >= 1 && config.record_bytes >= 1
            && config.run_id@.len() >= 1 && !config.run_id@.contains('|')
            && !config.run_id@.contains('\n'),
{
}

/// A run with one thing wrong is told which: its connections, the length of its records or its
/// name.
pub proof fn law_runs_are_told_what_is_wrong(config: LoadConfig)
    ensures
        ({
            let named = config.run_id@.len() >= 1 && !config.run_id@.contains('|')
                && !config.run_id@.contains('\n');
            &&& config.connections == 0 && config.record_bytes >= 1 && named ==> config_fault(config)
                == Some("connections must be >= 1"@)
            &&& config.connections >= 1 && config.record_bytes == 0 && named ==> config_fault(config)
                == Some("record_bytes must be >= 1"@)
            &&& config.connections >= 1 && config.record_bytes >= 1 && !named ==> config_fault(
                config,
            ) == Some("run_id must be non-empty and must not contain '|' or newlines"@)
        }),
{
}

/// A run is done only where something was accepted and nothing failed, and one in which
/// something failed is degraded whatever it accepted.
pub proof fn law_clean_runs_are_done(report: LoadReport, exit: LoadExit)
    requires
        call_ensures(LoadReport::exit, (&report,), exit),
    ensures
        exit == LoadExit::Done <==> report.accepted_records > 0 && report.errors == 0
            && report.transport_failures == 0,
        exit == LoadExit::Degraded <==> report.errors > 0 || report.transport_failures > 0,
{
}

/// A flag behind the arguments of `scripture-load` sets its own field and leaves the others.
#[verifier::spinoff_prover]
#[verifier::rlimit(100)]
pub proof fn law_load_flags_set_their_fields(
    given: &[String],
    more: &[String],
    request: LoadRequest,
    parsed: LoadCommand,
    text: Seq<char>,
    number: u64,
    size: usize,
)
    requires
        call_ensures(parse_args, (given,), LoadCommand::Run(request)),
        call_ensures(parse_args, (more,), parsed),
    ensures
        arguments_view(more@) == arguments_view(given@) + seq!["--endpoint"@, text] ==> (parsed
            matches LoadCommand::Run(now) && now.config.endpoint@ == text
                && now.config.connections == request.config.connections
                && now.config.record_bytes == request.config.record_bytes
                && now.config.duration_secs == request.config.duration_secs
                && now.config.max_bytes == request.config.max_bytes
                && now.config.target_records_per_sec == request.config.target_records_per_sec
                && now.config.run_id@ == request.config.run_id@
                && now.config.ack_timeout_ms == request.config.ack_timeout_ms
                && now.config.backend@ == request.config.backend@
                && now.config.chunk_policy.name@ == request.config.chunk_policy.name@
                && now.inflight_per_connection == request.inflight_per_connection),
        arguments_view(more@) == arguments_view(given@) + seq!["--connections"@, decimal(size as nat)] ==> (parsed
            matches LoadCommand::Run(now) && now.config.connections == size
                && now.config.endpoint@ == request.config.endpoint@
                && now.config.record_bytes == request.config.record_bytes
                && now.config.duration_secs == request.config.duration_secs
                && now.config.max_bytes == request.config.max_bytes
                && now.config.target_records_per_sec == request.config.target_records_per_sec
                && now.config.run_id@ == request.config.run_id@
                && now.config.ack_timeout_ms == request.config.ack_timeout_ms
                && now.config.backend@ == request.config.backend@
                && now.config.chunk_policy.name@ == request.config.chunk_policy.name@
                && now.inflight_per_connection == request.inflight_per_connection),
        arguments_view(more@) == arguments_view(given@) + seq!["--record-bytes"@, decimal(size as nat)] ==> (parsed
            matches LoadCommand::Run(now) && now.config.record_bytes == size
                && now.config.endpoint@ == request.config.endpoint@
                && now.config.connections == request.config.connections
                && now.config.duration_secs == request.config.duration_secs
                && now.config.max_bytes == request.config.max_bytes
                && now.config.target_records_per_sec == request.config.target_records_per_sec
                && now.config.run_id@ == request.config.run_id@
                && now.config.ack_timeout_ms == request.config.ack_timeout_ms
                && now.config.backend@ == request.config.backend@
                && now.config.chunk_policy.name@ == request.config.chunk_policy.name@
                && now.inflight_per_connection == request.inflight_per_connection),
        arguments_view(more@) == arguments_view(given@) + seq!["--duration-secs"@, decimal(number as nat)] ==> (parsed
            matches LoadCommand::Run(now) && now.config.duration_secs == number
                && now.config.endpoint@ == request.config.endpoint@
                && now.config.connections == request.config.connections
                && now.config.record_bytes == request.config.record_bytes
                && now.config.max_bytes == request.config.max_bytes
                && now.config.target_records_per_sec == request.config.target_records_per_sec
                && now.config.run_id@ == request.config.run_id@
                && now.config.ack_timeout_ms == request.config.ack_timeout_ms
                && now.config.backend@ == request.config.backend@
                && now.config.chunk_policy.name@ == request.config.chunk_policy.name@
                && now.inflight_per_connection == request.inflight_per_connection),
        arguments_view(more@) == arguments_view(given@) + seq!["--max-bytes"@, decimal(number as nat)] ==> (parsed
            matches LoadCommand::Run(now) && now.config.max_bytes == number
                && now.config.endpoint@ == request.config.endpoint@
                && now.config.connections == request.config.connections
                && now.config.record_bytes == request.config.record_bytes
                && now.config.duration_secs == request.config.duration_secs
                && now.config.target_records_per_sec == request.config.target_records_per_sec
                && now.config.run_id@ == request.config.run_id@
                && now.config.ack_timeout_ms == request.config.ack_timeout_ms
                && now.config.backend@ == request.config.backend@
                && now.config.chunk_policy.name@ == request.config.chunk_policy.name@
                && now.inflight_per_connection == request.inflight_per_connection),
        arguments_view(more@) == arguments_view(given@) + seq!["--rate"@, decimal(number as nat)] ==> (parsed
            matches LoadCommand::Run(now) && now.config.target_records_per_sec == Some(number)
                && now.config.endpoint@ == request.config.endpoint@
                && now.config.connections == request.config.connections
                && now.config.record_bytes == request.config.record_bytes
                && now.config.duration_secs == request.config.duration_secs
                && now.config.max_bytes == request.config.max_bytes
                && now.config.run_id@ == request.config.run_id@
                && now.config.ack_timeout_ms == request.config.ack_timeout_ms
                && now.config.backend@ == request.config.backend@
                && now.config.chunk_policy.name@ == request.config.chunk_policy.name@
                && now.inflight_per_connection == request.inflight_per_connection),
        arguments_view(more@) == arguments_view(given@) + seq!["--run-id"@, text] ==> (parsed
            matches LoadCommand::Run(now) && now.config.run_id@ == text
                && now.config.endpoint@ == request.config.endpoint@
                && now.config.connections == request.config.connections
                && now.config.record_bytes == request.config.record_bytes
                && now.config.duration_secs == request.config.duration_secs
                && now.config.max_bytes == request.config.max_bytes
                && now.config.target_records_per_sec == request.config.target_records_per_sec
                && now.config.ack_timeout_ms == request.config.ack_timeout_ms
                && now.config.backend@ == request.config.backend@
                && now.config.chunk_policy.name@ == request.config.chunk_policy.name@
                && now.inflight_per_connection == request.inflight_per_connection),
        arguments_view(more@) == arguments_view(given@) + seq!["--ack-timeout-ms"@, decimal(number as nat)] ==> (parsed
            matches LoadCommand::Run(now) && now.config.ack_timeout_ms == number
                && now.config.endpoint@ == request.config.endpoint@
                && now.config.connections == request.config.connections
                && now.config.record_bytes == request.config.record_bytes
                && now.config.duration_secs == request.config.duration_secs
                && now.config.max_bytes == request.config.max_bytes
                && now.config.target_records_per_sec == request.config.target_records_per_sec
                && now.config.run_id@ == request.config.run_id@
                && now.config.backend@ == request.config.backend@
                && now.config.chunk_policy.name@ == request.config.chunk_policy.name@
                && now.inflight_per_connection == request.inflight_per_connection),
        arguments_view(more@) == arguments_view(given@) + seq!["--backend"@, text] ==> (parsed
            matches LoadCommand::Run(now) && now.config.backend@ == text
                && now.config.endpoint@ == request.config.endpoint@
                && now.config.connections == request.config.connections
                && now.config.record_bytes == request.config.record_bytes
                && now.config.duration_secs == request.config.duration_secs
                && now.config.max_bytes == request.config.max_bytes
                && now.config.target_records_per_sec == request.config.target_records_per_sec
                && now.config.run_id@ == request.config.run_id@
                && now.config.ack_timeout_ms == request.config.ack_timeout_ms
                && now.config.chunk_policy.name@ == request.config.chunk_policy.name@
                && now.inflight_per_connection == request.inflight_per_connection),
        arguments_view(more@) == arguments_view(given@) + seq!["--chunk-policy-name"@, text] ==> (parsed
            matches LoadCommand::Run(now) && now.config.chunk_policy.name@ == text
                && now.config.endpoint@ == request.config.endpoint@
                && now.config.connections == request.config.connections
                && now.config.record_bytes == request.config.record_bytes
                && now.config.duration_secs == request.config.duration_secs
                && now.config.max_bytes == request.config.max_bytes
                && now.config.target_records_per_sec == request.config.target_records_per_sec
                && now.config.run_id@ == request.config.run_id@
                && now.config.ack_timeout_ms == request.config.ack_timeout_ms
                && now.config.backend@ == request.config.backend@
                && now.inflight_per_connection == request.inflight_per_connection),
        arguments_view(more@) == arguments_view(given@) + seq!["--inflight-per-connection"@, decimal(size as nat)] ==> (parsed
            matches LoadCommand::Run(now) && now.inflight_per_connection == size
                && now.config.endpoint@ == request.config.endpoint@
                && now.config.connections == request.config.connections
                && now.config.record_bytes == request.config.record_bytes
                && now.config.duration_secs == request.config.duration_secs
                && now.config.max_bytes == request.config.max_bytes
                && now.config.target_records_per_sec == request.config.target_records_per_sec
                && now.config.run_id@ == request.config.run_id@
                && now.config.ack_timeout_ms == request.config.ack_timeout_ms
                && now.config.backend@ == request.config.backend@
                && now.config.chunk_policy.name@ == request.config.chunk_policy.name@),
{
    reveal_strlit("--endpoint");
    reveal_strlit("--connections");
    reveal_strlit("--record-bytes");
    reveal_strlit("--duration-secs");
    reveal_strlit("--max-bytes");
    reveal_strlit("--rate");
    reveal_strlit("--run-id");
    reveal_strlit("--ack-timeout-ms");
    reveal_strlit("--backend");
    reveal_strlit("--chunk-policy-name");
    reveal_strlit("--inflight-per-connection");
    assert("--endpoint"@.len() == 10 && "--connections"@.len() == 13
        && "--record-bytes"@.len() == 14 && "--duration-secs"@.len() == 15
        && "--max-bytes"@.len() == 11 && "--rate"@.len() == 6 && "--run-id"@.len() == 8
        && "--ack-timeout-ms"@.len() == 16 && "--backend"@.len() == 9
        && "--chunk-policy-name"@.len() == 19 && "--inflight-per-connection"@.len() == 25);
    let rules = load_rules();
    let unknown = "unknown argument: "@;
    let arguments = arguments_view(given@);
    lemma_scan_keeps_places(arguments, rules, unknown, no_values(rules.len()));
    let values = scan_of(arguments, rules, unknown)->Given_0;
    if arguments_view(more@) == arguments + seq!["--endpoint"@, text] {
        law_values_are_taken_as_written(rules[0].kind, 0, text);
        lemma_pair(
            arguments,
            "--endpoint"@,
            text,
            ValueView::Text(text),
            rules,
            0,
            unknown,
            values,
        );
    }
    if arguments_view(more@) == arguments + seq!["--connections"@, decimal(size as nat)] {
        law_values_are_taken_as_written(rules[1].kind, size as nat, text);
        lemma_pair(
            arguments,
            "--connections"@,
            decimal(size as nat),
            ValueView::Size(size),
            rules,
            1,
            unknown,
            values,
        );
    }
    if arguments_view(more@) == arguments + seq!["--record-bytes"@, decimal(size as nat)] {
        law_values_are_taken_as_written(rules[2].kind, size as nat, text);
        lemma_pair(
            arguments,
            "--record-bytes"@,
            decimal(size as nat),
            ValueView::Size(size),
            rules,
            2,
            unknown,
            values,
        );
    }
    if arguments_view(more@) == arguments + seq!["--duration-secs"@, decimal(number as nat)] {
        law_values_are_taken_as_written(rules[3].kind, number as nat, text);
        lemma_pair(
            arguments,
            "--duration-secs"@,
            decimal(number as nat),
            ValueView::Number(number),
            rules,
            3,
            unknown,
            values,
        );
    }
    if arguments_view(more@) == arguments + seq!["--max-bytes"@, decimal(number as nat)] {
        law_values_are_taken_as_written(rules[4].kind, number as nat, text);
        lemma_pair(
            arguments,
            "--max-bytes"@,
            decimal(number as nat),
            ValueView::Number(number),
            rules,
            4,
            unknown,
            values,
        );
    }
    if arguments_view(more@) == arguments + seq!["--rate"@, decimal(number as nat)] {
        law_values_are_taken_as_written(rules[5].kind, number as nat, text);
        lemma_pair(
            arguments,
            "--rate"@,
            decimal(number as nat),
            ValueView::Number(number),
            rules,
            5,
            unknown,
            values,
        );
    }
    if arguments_view(more@) == arguments + seq!["--run-id"@, text] {
        law_values_are_taken_as_written(rules[6].kind, 0, text);
        lemma_pair(
            arguments,
            "--run-id"@,
            text,
            ValueView::Text(text),
            rules,
            6,
            unknown,
            values,
        );
    }
    if arguments_view(more@) == arguments + seq!["--ack-timeout-ms"@, decimal(number as nat)] {
        law_values_are_taken_as_written(rules[7].kind, number as nat, text);
        lemma_pair(
            arguments,
            "--ack-timeout-ms"@,
            decimal(number as nat),
            ValueView::Number(number),
            rules,
            7,
            unknown,
            values,
        );
    }
    if arguments_view(more@) == arguments + seq!["--backend"@, text] {
        law_values_are_taken_as_written(rules[8].kind, 0, text);
        lemma_pair(
            arguments,
            "--backend"@,
            text,
            ValueView::Text(text),
            rules,
            8,
            unknown,
            values,
        );
    }
    if arguments_view(more@) == arguments + seq!["--chunk-policy-name"@, text] {
        law_values_are_taken_as_written(rules[9].kind, 0, text);
        lemma_pair(
            arguments,
            "--chunk-policy-name"@,
            text,
            ValueView::Text(text),
            rules,
            9,
            unknown,
            values,
        );
    }
    if arguments_view(more@) == arguments + seq!["--inflight-per-connection"@, decimal(size as nat)] {
        law_values_are_taken_as_written(rules[10].kind, size as nat, text);
        lemma_pair(
            arguments,
            "--inflight-per-connection"@,
            decimal(size as nat),
            ValueView::Size(size),
            rules,
            10,
            unknown,
            values,
        );
    }
}

/// Without flags the producer has its defaults.
#[verifier::spinoff_prover]
#[verifier::rlimit(60)]
pub proof fn law_load_has_its_defaults(given: &[String], parsed: LoadCommand)
    requires
        call_ensures(parse_args, (given,), parsed),
        arguments_view(given@).len() == 0,
    ensures
        parsed matches LoadCommand::Run(now) && now.config.endpoint@ == "127.0.0.1:9000"@
            && now.config.connections == 4 && now.config.record_bytes == 256
            && now.config.duration_secs == 5 && now.config.max_bytes == 8 * 1024 * 1024
            && now.config.target_records_per_sec is None && now.config.run_id@ == "run-local"@
            && now.config.ack_timeout_ms == 5000 && now.config.backend@ == "unspecified"@
            && now.config.chunk_policy.name@ == "fleet-lab-64kib-phase-one"@
            && now.inflight_per_connection == 1,
{
    assert(arguments_view(given@) =~= Seq::<Seq<char>>::empty());
}

/// A bucket grants its first record at once and each further one an interval after the last, or
/// when it is asked for if that is later.
pub proof fn law_buckets_grant_at_their_interval(
    rate: u64,
    start: u64,
    fresh: TokenBucket,
    bucket: &mut TokenBucket,
    now: u64,
    wait: u64,
)
    requires
        call_ensures(TokenBucket::new, (rate, start), fresh),
        call_ensures(TokenBucket::wait, (bucket, now), wait),
        old(bucket).next + old(bucket).interval <= u64::MAX,
        now + old(bucket).interval <= u64::MAX,
    ensures
        fresh.next == start,
        rate > 0 ==> rate * fresh.interval <= 1_000_000_000 < rate * (fresh.interval + 1),
        now < old(bucket).next ==> now + wait == old(bucket).next,
        now >= old(bucket).next ==> wait == 0,
        final(bucket).next == now + wait + old(bucket).interval,
        final(bucket).interval == old(bucket).interval,
{
    law_intervals_share_the_second(rate);
}

/// A claim is granted exactly where accepted and claimed bytes leave room for the record, and is
/// then claimed; giving records back takes their bytes off the claims and nothing else.
pub proof fn law_claims_are_made_and_given_back(
    claiming: &mut LoadCounts,
    releasing: &mut LoadCounts,
    record_bytes: usize,
    max_bytes: u64,
    granted: bool,
    records: usize,
)
    requires
        call_ensures(LoadCounts::claim, (claiming, record_bytes, max_bytes), granted),
        call_ensures(LoadCounts::release, (releasing, records, record_bytes), ()),
        records * record_bytes <= old(releasing).claimed_bytes,
    ensures
        granted <==> old(claiming).accepted_bytes + old(claiming).claimed_bytes + record_bytes
            <= max_bytes,
        granted ==> final(claiming).claimed_bytes == old(claiming).claimed_bytes + record_bytes,
        !granted ==> final(claiming).claimed_bytes == old(claiming).claimed_bytes,
        final(claiming).accepted_bytes == old(claiming).accepted_bytes,
        final(claiming).accepted_records == old(claiming).accepted_records,
        final(releasing).claimed_bytes == old(releasing).claimed_bytes - records * record_bytes,
        final(releasing).accepted_bytes == old(releasing).accepted_bytes,
        final(releasing).errors == old(releasing).errors,
{
}

/// A report gives the counts of its run and the percentiles of its samples, under the run's own
/// names.
pub proof fn law_reports_give_the_counts(
    config: LoadConfig,
    counts: LoadCounts,
    latencies: Vec<u64>,
    elapsed_ms: u64,
    report: LoadReport,
)
    requires
        call_ensures(LoadReport::of, (config, counts, latencies, elapsed_ms), report),
    ensures
        report.run_id@ == config.run_id@,
        report.endpoint@ == config.endpoint@,
        report.backend@ == config.backend@,
        report.accepted_records == counts.accepted_records,
        report.accepted_bytes == counts.accepted_bytes,
        report.errors == counts.errors,
        report.transport_failures == counts.transport_failures,
        report.elapsed_ms == elapsed_ms,
        latencies@.len() == 0 ==> report.ack_latency_p50_us == 0 && report.ack_latency_p99_us == 0,
        latencies@.len() == 1 ==> report.ack_latency_p50_us == latencies@[0]
            && report.ack_latency_p95_us == latencies@[0] && report.ack_latency_p99_us
            == latencies@[0],
{
    lemma_in_order(latencies@);
    if latencies@.len() == 1 {
        law_order_ascends(latencies@, 0);
        assert(in_order(latencies@)[0] == latencies@[0]);
    }
}

/// A connection may send while it has nothing under way, or less than its window.
pub proof fn law_windows_leave_room(outstanding: usize, window: usize, room: bool)
    requires
        call_ensures(has_room, (outstanding, window), room),
    ensures
        room <==> outstanding < window || outstanding == 0,
{
}

/// An encoded record is that of its connection and its number.
pub proof fn law_encoded_records_name_their_place(
    run_id: &str,
    connection: usize,
    sequence: u64,
    length: usize,
    record: Vec<u8>,
)
    requires
        call_ensures(encode_record, (run_id, connection, sequence, length), record),
    ensures
        ({
            let name = encode_utf8(
                run_id@ + "|"@ + decimal(connection as nat) + "|"@ + decimal(sequence as nat)
                    + "|"@,
            );
            &&& record@.len() == length
            &&& name.len() <= length ==> record@.take(name.len() as int) == name
        }),
{
    law_records_start_with_their_name(
        run_id@,
        connection as nat,
        sequence as nat,
        length as nat,
    );
}

/// A reply is counted once over a whole call, and a run is checked by what it needs.
pub proof fn law_counts_over_whole_calls(
    counts: &mut LoadCounts,
    record_bytes: usize,
    reply: Reply,
    accepted: bool,
    config: LoadConfig,
    checked: Result<(), String>,
)
    requires
        call_ensures(LoadCounts::count, (counts, record_bytes, reply), accepted),
        call_ensures(check_config, (&config,), checked),
        old(counts).accepted_bytes + record_bytes <= u64::MAX,
        old(counts).accepted_records < u64::MAX,
        old(counts).errors < u64::MAX,
        old(counts).transport_failures < u64::MAX,
    ensures
        accepted <==> reply_kind(reply) is Accepted,
        accepted ==> final(counts).accepted_records == old(counts).accepted_records + 1
            && final(counts).accepted_bytes == old(counts).accepted_bytes + record_bytes
            && final(counts).errors == old(counts).errors && final(counts).transport_failures
            == old(counts).transport_failures,
        reply_kind(reply) is Refused ==> final(counts).errors == old(counts).errors + 1
            && final(counts).accepted_records == old(counts).accepted_records,
        reply_kind(reply) is Broken ==> final(counts).transport_failures
            == old(counts).transport_failures + 1 && final(counts).accepted_records
            == old(counts).accepted_records,
        checked is Ok <==> config.connections >= 1 && config.record_bytes >= 1
            && config.run_id@.len() >= 1 && !config.run_id@.contains('|')
            && !config.run_id@.contains('\n'),
{
    law_sound_runs_start(config);
}

} // verus!
