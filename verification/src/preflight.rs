//! Static and live `safety.require` gates.
//!
//! The evaluator turns evidence and required guarantees into findings. This module
//! says which guarantees a config requires and what findings come to, before any
//! listener is bound.
use crate::config::{
    CanonHistoryRequire, NodeConfig, OnDegraded, ProducerContinuityRequire, SafetyConfig,
    SafetyRequire, ScribeRecoveryRequire, ScriptureConfig, StoreConfig,
};
use crate::text::{chars_of, decimal, push_chars, push_decimal, trim_end_char, without_trailing};
use crate::text_laws::{
    differ_behind, lemma_differ_first, lemma_differ_here, lemma_differ_then_four,
    lemma_differ_then_two,
};
use vstd::prelude::*;

verus! {

/// A guarantee that must hold.
#[derive(Debug, Clone, Copy, PartialEq, Eq, Structural)]
pub enum RequiredGuarantee {
    CanonHistoryCommitted,
    ProducerContinuitySpooled,
    ScribeRecoveryAutomatic,
    MinStorageFailureDomains(u32),
}

/// Nothing or one guarantee.
pub open spec fn when(wanted: bool, guarantee: RequiredGuarantee) -> Seq<RequiredGuarantee> {
    if wanted {
        seq![guarantee]
    } else {
        Seq::empty()
    }
}

/// The guarantees that a config requires, in a fixed order.
pub open spec fn required_guarantees(require: SafetyRequire) -> Seq<RequiredGuarantee> {
    when(require.canon_history is Some, RequiredGuarantee::CanonHistoryCommitted) + when(
        require.producer_continuity is Some,
        RequiredGuarantee::ProducerContinuitySpooled,
    ) + when(require.scribe_recovery is Some, RequiredGuarantee::ScribeRecoveryAutomatic) + when(
        require.min_storage_failure_domains is Some,
        RequiredGuarantee::MinStorageFailureDomains(require.min_storage_failure_domains->0),
    )
}

/// The guarantees that a config requires.
pub fn requirements_from_safety(require: &SafetyRequire) -> (out: Vec<RequiredGuarantee>)
    ensures
        out@ == required_guarantees(*require),
{
    let mut out: Vec<RequiredGuarantee> = Vec::new();
    if let Some(CanonHistoryRequire::Committed) = require.canon_history {
        out.push(RequiredGuarantee::CanonHistoryCommitted);
    }
    if let Some(ProducerContinuityRequire::Spooled) = require.producer_continuity {
        out.push(RequiredGuarantee::ProducerContinuitySpooled);
    }
    if let Some(ScribeRecoveryRequire::Automatic) = require.scribe_recovery {
        out.push(RequiredGuarantee::ScribeRecoveryAutomatic);
    }
    if let Some(least) = require.min_storage_failure_domains {
        out.push(RequiredGuarantee::MinStorageFailureDomains(least));
    }
    assert(out@ =~= required_guarantees(*require));
    out
}

/// What a finding is about.
#[derive(Debug, Clone, Copy, PartialEq, Eq, Structural)]
pub enum CapabilityCode {
    CanonHistory,
    ProducerContinuity,
    ScribeRecovery,
    StorageFailureDomains,
}

/// How far a guarantee is satisfied.
#[derive(Debug, Clone, Copy, PartialEq, Eq, Structural)]
pub enum SatisfactionKind {
    Satisfied,
    Unsatisfied,
    /// Only live evidence can tell.
    RequiresLivePreflight,
}

/// A required guarantee that the evidence does not show.
#[derive(Debug, PartialEq, Eq)]
pub struct CapabilityFinding {
    pub code: CapabilityCode,
    pub kind: SatisfactionKind,
    /// Code, scope, consequence and remediation, on one line.
    pub line: String,
}

/// Process-local warn-mode emission counts, one for each capability code.
#[derive(Debug, Clone, Copy, PartialEq, Eq, Structural)]
pub struct WarningCounters {
    pub canon_history: u64,
    pub producer_continuity: u64,
    pub scribe_recovery: u64,
    pub storage_failure_domains: u64,
}

impl WarningCounters {
    /// Counters at zero.
    pub fn new() -> (counters: Self)
        ensures
            forall|code: CapabilityCode| counters.count(code) == 0,
    {
        WarningCounters {
            canon_history: 0,
            producer_continuity: 0,
            scribe_recovery: 0,
            storage_failure_domains: 0,
        }
    }

    /// How often a code was warned of.
    pub open spec fn count(&self, code: CapabilityCode) -> u64 {
        match code {
            CapabilityCode::CanonHistory => self.canon_history,
            CapabilityCode::ProducerContinuity => self.producer_continuity,
            CapabilityCode::ScribeRecovery => self.scribe_recovery,
            CapabilityCode::StorageFailureDomains => self.storage_failure_domains,
        }
    }

    /// How often a code was warned of.
    pub fn get(&self, code: CapabilityCode) -> (count: u64)
        ensures
            count == self.count(code),
    {
        match code {
            CapabilityCode::CanonHistory => self.canon_history,
            CapabilityCode::ProducerContinuity => self.producer_continuity,
            CapabilityCode::ScribeRecovery => self.scribe_recovery,
            CapabilityCode::StorageFailureDomains => self.storage_failure_domains,
        }
    }

    /// Counts one warning more; the count wraps around.
    pub fn bump(&mut self, code: CapabilityCode)
        ensures
            forall|other: CapabilityCode|
                final(self).count(other) == bumped(old(self).count(other), other == code),
    {
        match code {
            CapabilityCode::CanonHistory => {
                self.canon_history = self.canon_history.wrapping_add(1);
            },
            CapabilityCode::ProducerContinuity => {
                self.producer_continuity = self.producer_continuity.wrapping_add(1);
            },
            CapabilityCode::ScribeRecovery => {
                self.scribe_recovery = self.scribe_recovery.wrapping_add(1);
            },
            CapabilityCode::StorageFailureDomains => {
                self.storage_failure_domains = self.storage_failure_domains.wrapping_add(1);
            },
        }
    }
}

/// A count, one further where it is counted; it wraps around.
pub open spec fn bumped(count: u64, counted: bool) -> u64 {
    if !counted {
        count
    } else if count == u64::MAX {
        0
    } else {
        (count + 1) as u64
    }
}

/// A count after the findings of a code were counted one by one.
pub open spec fn counted(count: u64, findings: Seq<CapabilityFinding>, code: CapabilityCode) -> u64
    decreases findings.len(),
{
    if findings.len() == 0 {
        count
    } else {
        bumped(counted(count, findings.drop_last(), code), findings.last().code == code)
    }
}

/// The message of a refused start.
pub open spec fn fail_start_words(findings: Seq<CapabilityFinding>) -> Seq<char>
    decreases findings.len(),
{
    if findings.len() == 0 {
        "safety.require preflight failed:"@
    } else {
        fail_start_words(findings.drop_last()) + "\n  "@ + findings.last().line@
    }
}

/// The message of a refused start: one line for each finding.
pub fn format_fail_start(findings: &Vec<CapabilityFinding>) -> (message: String)
    ensures
        message@ == fail_start_words(findings@),
{
    let mut message = String::new();
    message.append("safety.require preflight failed:");
    let mut at: usize = 0;
    assert(message@ =~= fail_start_words(findings@.take(0)));
    while at < findings.len()
        invariant
            at <= findings@.len(),
            message@ == fail_start_words(findings@.take(at as int)),
        decreases findings@.len() - at,
    {
        message.append("\n  ");
        message.append(findings[at].line.as_str());
        assert(findings@.take(at + 1).drop_last() =~= findings@.take(at as int));
        assert(message@ =~= fail_start_words(findings@.take(at + 1)));
        at += 1;
    }
    assert(findings@.take(at as int) =~= findings@);
    message
}

/// The warnings of some findings, one line each.
pub open spec fn warning_words(findings: Seq<CapabilityFinding>) -> Seq<char>
    decreases findings.len(),
{
    if findings.len() == 0 {
        Seq::empty()
    } else {
        warning_words(findings.drop_last()) + "scripture: warning: "@ + findings.last().line@
            + "\n"@
    }
}

/// Writes the warnings of some findings and counts each.
pub fn emit_warnings(findings: &Vec<CapabilityFinding>, counters: &mut WarningCounters) -> (text:
    String)
    ensures
        text@ == warning_words(findings@),
        forall|code: CapabilityCode|
            final(counters).count(code) == counted(old(counters).count(code), findings@, code),
{
    let ghost before = *counters;
    let mut text = String::new();
    let mut at: usize = 0;
    assert(text@ =~= warning_words(findings@.take(0)));
    while at < findings.len()
        invariant
            at <= findings@.len(),
            text@ == warning_words(findings@.take(at as int)),
            forall|code: CapabilityCode|
                #[trigger] counters.count(code) == counted(
                    before.count(code),
                    findings@.take(at as int),
                    code,
                ),
        decreases findings@.len() - at,
    {
        let ghost so_far = *counters;
        counters.bump(findings[at].code);
        text.append("scripture: warning: ");
        text.append(findings[at].line.as_str());
        text.append("\n");
        proof {
            assert(findings@.take(at + 1).drop_last() =~= findings@.take(at as int));
            assert(text@ =~= warning_words(findings@.take(at + 1)));
            assert forall|code: CapabilityCode| #[trigger]
                counters.count(code) == counted(
                    before.count(code),
                    findings@.take(at + 1),
                    code,
                ) by {
                assert(so_far.count(code) == counted(
                    before.count(code),
                    findings@.take(at as int),
                    code,
                ));
            }
        }
        at += 1;
    }
    assert(findings@.take(at as int) =~= findings@);
    text
}

/// Whether any guarantee is required and any finding stands against it.
pub open spec fn is_degraded(safety: SafetyConfig, findings: Seq<CapabilityFinding>) -> bool {
    required_guarantees(safety.require).len() > 0 && findings.len() > 0
}

/// Enforces a safety policy: the warnings to write where the start goes on, or the
/// message with which it is refused. Where no policy is given, nothing is enforced.
pub fn enforce_safety_policy(
    findings: &Vec<CapabilityFinding>,
    safety: &Option<SafetyConfig>,
    counters: &mut WarningCounters,
) -> (verdict: Result<String, String>)
    ensures
        match verdict {
            Err(message) => {
                &&& safety is Some && is_degraded(safety->0, findings@)
                &&& safety->0.on_degraded == OnDegraded::FailStart
                &&& message@ == fail_start_words(findings@)
                &&& *final(counters) == *old(counters)
            },
            Ok(warnings) => if safety is Some && is_degraded(safety->0, findings@) {
                &&& safety->0.on_degraded == OnDegraded::Warn
                &&& warnings@ == warning_words(findings@)
                &&& forall|code: CapabilityCode| #[trigger]
                    final(counters).count(code) == counted(
                        old(counters).count(code),
                        findings@,
                        code,
                    )
            } else {
                &&& warnings@ == Seq::<char>::empty()
                &&& *final(counters) == *old(counters)
            },
        },
{
    match safety {
        Some(safety) => {
            let requirements = requirements_from_safety(&safety.require);
            if requirements.len() == 0 || findings.len() == 0 {
                let none = String::new();
                assert(none@ =~= Seq::<char>::empty());
                return Ok(none);
            }
            match safety.on_degraded {
                OnDegraded::FailStart => Err(format_fail_start(findings)),
                OnDegraded::Warn => Ok(emit_warnings(findings, counters)),
            }
        },
        None => {
            let none = String::new();
            assert(none@ =~= Seq::<char>::empty());
            Ok(none)
        },
    }
}

/// The findings that do not wait for live evidence.
pub open spec fn settled(findings: Seq<CapabilityFinding>) -> Seq<CapabilityFinding>
    decreases findings.len(),
{
    if findings.len() == 0 {
        Seq::empty()
    } else if findings.last().kind == SatisfactionKind::RequiresLivePreflight {
        settled(findings.drop_last())
    } else {
        settled(findings.drop_last()).push(findings.last())
    }
}

/// Leaves out the findings that only live evidence can settle: a start enforces
/// those later, against what it then observes.
pub fn defer_live(findings: Vec<CapabilityFinding>) -> (kept: Vec<CapabilityFinding>)
    ensures
        kept@ == settled(findings@),
{
    let ghost whole = findings@;
    let mut kept: Vec<CapabilityFinding> = Vec::new();
    assert(kept@ =~= settled(whole.take(0)));
    for finding in it: findings
        invariant
            it.seq() == whole,
            kept@ == settled(whole.take(it.index() as int)),
    {
        let ghost at = it.index() as int;
        assert(whole.take(at + 1).drop_last() =~= whole.take(at));
        if finding.kind != SatisfactionKind::RequiresLivePreflight {
            kept.push(finding);
        }
    }
    assert(whole.take(whole.len() as int) =~= whole);
    kept
}

/// The line of a config that passes.
pub open spec fn validate_ok_words(config: ScriptureConfig) -> Seq<char> {
    let line = "scripture: validate ok version="@ + decimal(config.version as nat) + " owner="@
        + config.node.owner_id@ + " advertise="@ + config.node.advertise@ + " backend="@
        + config.store.backend@ + " prefix="@ + without_trailing(config.store.prefix@, '/');
    if config.multi() {
        line + " assignments="@ + decimal(config.scribe->0.assignments@.len())
    } else {
        line
    }
}

/// Exact `validate ok` stderr line.
///
/// When `safety` is omitted, validate emits this line and nothing safety-related.
pub fn format_validate_ok(config: &ScriptureConfig) -> (line: String)
    ensures
        line@ == validate_ok_words(*config),
{
    let mut line = String::new();
    line.append("scripture: validate ok version=");
    push_decimal(&mut line, config.version as u64);
    line.append(" owner=");
    line.append(config.node.owner_id.as_str());
    line.append(" advertise=");
    line.append(config.node.advertise.as_str());
    line.append(" backend=");
    line.append(config.store.backend.as_str());
    line.append(" prefix=");
    let prefix = chars_of(config.store.prefix.as_str());
    push_chars(&mut line, trim_end_char(prefix.as_slice(), '/'));
    if config.is_multi_assignment() {
        if let Some(scribe) = &config.scribe {
            line.append(" assignments=");
            push_decimal(&mut line, scribe.assignments.len() as u64);
        }
    }
    assert(line@ =~= validate_ok_words(*config));
    line
}

// Laws.

/// Where nothing is found, nothing is refused and nothing is warned of; the same
/// where nothing is required.
pub proof fn law_only_degraded_starts_are_touched(
    safety: SafetyConfig,
    findings: Seq<CapabilityFinding>,
)
    requires
        findings.len() == 0 || required_guarantees(safety.require).len() == 0,
    ensures
        !is_degraded(safety, findings),
{
}

/// A finding that evidence has settled is never deferred.
pub proof fn law_settled_findings_are_not_deferred(findings: Seq<CapabilityFinding>, at: int)
    requires
        0 <= at < findings.len(),
        findings[at].kind != SatisfactionKind::RequiresLivePreflight,
    ensures
        settled(findings).contains(findings[at]),
    decreases findings.len(),
{
    let before = settled(findings.drop_last());
    if at == findings.len() - 1 {
        assert(settled(findings)[before.len() as int] == findings[at]);
    } else {
        law_settled_findings_are_not_deferred(findings.drop_last(), at);
        assert(before.contains(findings[at]));
        let place = choose|i: int| 0 <= i < before.len() && before[i] == findings[at];
        assert(settled(findings)[place] == findings[at]);
    }
}

/// Every finding that is left was a finding.
pub proof fn law_deferring_adds_nothing(findings: Seq<CapabilityFinding>, at: int)
    requires
        0 <= at < settled(findings).len(),
    ensures
        findings.contains(settled(findings)[at]),
        settled(findings)[at].kind != SatisfactionKind::RequiresLivePreflight,
    decreases findings.len(),
{
    if findings.len() > 0 {
        let before = settled(findings.drop_last());
        if at < before.len() {
            law_deferring_adds_nothing(findings.drop_last(), at);
            let one = settled(findings)[at];
            let place = choose|i: int|
                0 <= i < findings.drop_last().len() && findings.drop_last()[i] == one;
            assert(findings[place] == one);
        } else {
            assert(findings[findings.len() - 1] == settled(findings)[at]);
        }
    }
}

/// Two configs that differ in one thing alone are reported alike but behind its name.
pub proof fn law_validate_lines_name_what_they_show(config: ScriptureConfig, other: ScriptureConfig)
    requires
        !config.multi(),
    ensures
        differ_behind(
            validate_ok_words(config),
            validate_ok_words(ScriptureConfig { version: other.version, ..config }),
            "scripture: validate ok version="@,
            decimal(config.version as nat),
            decimal(other.version as nat),
        ),
        differ_behind(
            validate_ok_words(config),
            validate_ok_words(
                ScriptureConfig {
                    node: NodeConfig { owner_id: other.node.owner_id, ..config.node },
                    ..config
                },
            ),
            " owner="@,
            config.node.owner_id@,
            other.node.owner_id@,
        ),
        differ_behind(
            validate_ok_words(config),
            validate_ok_words(
                ScriptureConfig {
                    node: NodeConfig { advertise: other.node.advertise, ..config.node },
                    ..config
                },
            ),
            " advertise="@,
            config.node.advertise@,
            other.node.advertise@,
        ),
        differ_behind(
            validate_ok_words(config),
            validate_ok_words(
                ScriptureConfig {
                    store: StoreConfig { backend: other.store.backend, ..config.store },
                    ..config
                },
            ),
            " backend="@,
            config.store.backend@,
            other.store.backend@,
        ),
        differ_behind(
            validate_ok_words(config),
            validate_ok_words(
                ScriptureConfig {
                    store: StoreConfig { prefix: other.store.prefix, ..config.store },
                    ..config
                },
            ),
            " prefix="@,
            without_trailing(config.store.prefix@, '/'),
            without_trailing(other.store.prefix@, '/'),
        ),
{
    lemma_differ_first(
        "scripture: validate ok version="@,
        decimal(config.version as nat),
        decimal(other.version as nat),
    );
    let one = "scripture: validate ok version="@ + decimal(config.version as nat);
    let other_one = "scripture: validate ok version="@ + decimal(other.version as nat);
    lemma_differ_then_four(
        one,
        other_one,
        "scripture: validate ok version="@,
        decimal(config.version as nat),
        decimal(other.version as nat),
        " owner="@,
        config.node.owner_id@,
        " advertise="@,
        config.node.advertise@,
    );
    let one = one + " owner="@ + config.node.owner_id@ + " advertise="@ + config.node.advertise@;
    let other_one = other_one + " owner="@ + config.node.owner_id@ + " advertise="@
        + config.node.advertise@;
    lemma_differ_then_four(
        one,
        other_one,
        "scripture: validate ok version="@,
        decimal(config.version as nat),
        decimal(other.version as nat),
        " backend="@,
        config.store.backend@,
        " prefix="@,
        without_trailing(config.store.prefix@, '/'),
    );
    lemma_differ_here(
        "scripture: validate ok version="@ + decimal(config.version as nat),
        " owner="@,
        config.node.owner_id@,
        other.node.owner_id@,
    );
    let one = "scripture: validate ok version="@ + decimal(config.version as nat) + " owner="@
        + config.node.owner_id@;
    let other_one = "scripture: validate ok version="@ + decimal(config.version as nat)
        + " owner="@ + other.node.owner_id@;
    lemma_differ_then_four(
        one,
        other_one,
        " owner="@,
        config.node.owner_id@,
        other.node.owner_id@,
        " advertise="@,
        config.node.advertise@,
        " backend="@,
        config.store.backend@,
    );
    let one = one + " advertise="@ + config.node.advertise@ + " backend="@ + config.store.backend@;
    let other_one = other_one + " advertise="@ + config.node.advertise@ + " backend="@
        + config.store.backend@;
    lemma_differ_then_two(
        one,
        other_one,
        " owner="@,
        config.node.owner_id@,
        other.node.owner_id@,
        " prefix="@,
        without_trailing(config.store.prefix@, '/'),
    );
    lemma_differ_here(
        "scripture: validate ok version="@ + decimal(config.version as nat) + " owner="@
            + config.node.owner_id@,
        " advertise="@,
        config.node.advertise@,
        other.node.advertise@,
    );
    let one = "scripture: validate ok version="@ + decimal(config.version as nat) + " owner="@
        + config.node.owner_id@ + " advertise="@ + config.node.advertise@;
    let other_one = "scripture: validate ok version="@ + decimal(config.version as nat)
        + " owner="@ + config.node.owner_id@ + " advertise="@ + other.node.advertise@;
    lemma_differ_then_four(
        one,
        other_one,
        " advertise="@,
        config.node.advertise@,
        other.node.advertise@,
        " backend="@,
        config.store.backend@,
        " prefix="@,
        without_trailing(config.store.prefix@, '/'),
    );
    lemma_differ_here(
        "scripture: validate ok version="@ + decimal(config.version as nat) + " owner="@
            + config.node.owner_id@ + " advertise="@ + config.node.advertise@,
        " backend="@,
        config.store.backend@,
        other.store.backend@,
    );
    let one = "scripture: validate ok version="@ + decimal(config.version as nat) + " owner="@
        + config.node.owner_id@ + " advertise="@ + config.node.advertise@ + " backend="@
        + config.store.backend@;
    let other_one = "scripture: validate ok version="@ + decimal(config.version as nat)
        + " owner="@ + config.node.owner_id@ + " advertise="@ + config.node.advertise@
        + " backend="@ + other.store.backend@;
    lemma_differ_then_two(
        one,
        other_one,
        " backend="@,
        config.store.backend@,
        other.store.backend@,
        " prefix="@,
        without_trailing(config.store.prefix@, '/'),
    );
    lemma_differ_here(
        "scripture: validate ok version="@ + decimal(config.version as nat) + " owner="@
            + config.node.owner_id@ + " advertise="@ + config.node.advertise@ + " backend="@
            + config.store.backend@,
        " prefix="@,
        without_trailing(config.store.prefix@, '/'),
        without_trailing(other.store.prefix@, '/'),
    );
    let one = "scripture: validate ok version="@ + decimal(config.version as nat) + " owner="@
        + config.node.owner_id@ + " advertise="@ + config.node.advertise@ + " backend="@
        + config.store.backend@ + " prefix="@ + without_trailing(config.store.prefix@, '/');
    let other_one = "scripture: validate ok version="@ + decimal(config.version as nat)
        + " owner="@ + config.node.owner_id@ + " advertise="@ + config.node.advertise@
        + " backend="@ + config.store.backend@ + " prefix="@
        + without_trailing(other.store.prefix@, '/');
}

/// A config of several assignments is reported with how many there are, behind the same words.
pub proof fn law_validate_lines_count_assignments(config: ScriptureConfig, other: ScriptureConfig)
    requires
        config.multi(),
        other.multi(),
    ensures
        differ_behind(
            validate_ok_words(config),
            validate_ok_words(ScriptureConfig { scribe: other.scribe, ..config }),
            " assignments="@,
            decimal(config.scribe->0.assignments@.len()),
            decimal(other.scribe->0.assignments@.len()),
        ),
{
    lemma_differ_here(
        "scripture: validate ok version="@ + decimal(config.version as nat) + " owner="@
            + config.node.owner_id@ + " advertise="@ + config.node.advertise@ + " backend="@
            + config.store.backend@ + " prefix="@ + without_trailing(config.store.prefix@, '/'),
        " assignments="@,
        decimal(config.scribe->0.assignments@.len()),
        decimal(other.scribe->0.assignments@.len()),
    );
    let one = "scripture: validate ok version="@ + decimal(config.version as nat) + " owner="@
        + config.node.owner_id@ + " advertise="@ + config.node.advertise@ + " backend="@
        + config.store.backend@ + " prefix="@ + without_trailing(config.store.prefix@, '/')
        + " assignments="@ + decimal(config.scribe->0.assignments@.len());
    let other_one = "scripture: validate ok version="@ + decimal(config.version as nat)
        + " owner="@ + config.node.owner_id@ + " advertise="@ + config.node.advertise@
        + " backend="@ + config.store.backend@ + " prefix="@
        + without_trailing(config.store.prefix@, '/') + " assignments="@
        + decimal(other.scribe->0.assignments@.len());
}

/// A guarantee is required exactly where the config asks for it, the number of failure domains
/// as it is given.
pub proof fn law_what_is_asked_for_is_required(require: SafetyRequire, least: u32)
    ensures
        ({
            let required = required_guarantees(require);
            &&& required.contains(RequiredGuarantee::CanonHistoryCommitted)
                <==> require.canon_history is Some
            &&& required.contains(RequiredGuarantee::ProducerContinuitySpooled)
                <==> require.producer_continuity is Some
            &&& required.contains(RequiredGuarantee::ScribeRecoveryAutomatic)
                <==> require.scribe_recovery is Some
            &&& required.contains(RequiredGuarantee::MinStorageFailureDomains(least))
                <==> require.min_storage_failure_domains == Some(least)
            &&& required.len() <= 4
        }),
{
    let canon = when(require.canon_history is Some, RequiredGuarantee::CanonHistoryCommitted);
    let producer = when(
        require.producer_continuity is Some,
        RequiredGuarantee::ProducerContinuitySpooled,
    );
    let scribe = when(
        require.scribe_recovery is Some,
        RequiredGuarantee::ScribeRecoveryAutomatic,
    );
    let domains = when(
        require.min_storage_failure_domains is Some,
        RequiredGuarantee::MinStorageFailureDomains(require.min_storage_failure_domains->0),
    );
    let required = required_guarantees(require);
    assert(required =~= canon + producer + scribe + domains);
    if require.canon_history is Some {
        assert(required[0] == RequiredGuarantee::CanonHistoryCommitted);
    }
    if require.producer_continuity is Some {
        assert(required[canon.len() as int] == RequiredGuarantee::ProducerContinuitySpooled);
    }
    if require.scribe_recovery is Some {
        assert(required[(canon.len() + producer.len()) as int]
            == RequiredGuarantee::ScribeRecoveryAutomatic);
    }
    if require.min_storage_failure_domains is Some {
        assert(required[(canon.len() + producer.len() + scribe.len()) as int]
            == RequiredGuarantee::MinStorageFailureDomains(
            require.min_storage_failure_domains->0,
        ));
    }
}

/// A start is degraded exactly where something is asked for and something was found.
pub proof fn law_degraded_starts_miss_something(
    safety: SafetyConfig,
    findings: Seq<CapabilityFinding>,
)
    ensures
        is_degraded(safety, findings) <==> findings.len() > 0 && (
        safety.require.canon_history is Some || safety.require.producer_continuity is Some
            || safety.require.scribe_recovery is Some
            || safety.require.min_storage_failure_domains is Some),
{
}

/// One more finding counts one more warning of its code and none of another.
pub proof fn law_findings_are_counted_by_code(
    count: u64,
    findings: Seq<CapabilityFinding>,
    finding: CapabilityFinding,
    code: CapabilityCode,
)
    requires
        counted(count, findings, code) < u64::MAX,
    ensures
        counted(count, findings.push(finding), code) == counted(count, findings, code) + (
        if finding.code == code {
            1int
        } else {
            0
        }),
        counted(count, Seq::empty(), code) == count,
{
    assert(findings.push(finding).drop_last() =~= findings);
}

/// One more finding adds one line with its words to the refusal, and one to the warnings.
pub proof fn law_each_finding_has_its_line(
    findings: Seq<CapabilityFinding>,
    finding: CapabilityFinding,
)
    ensures
        fail_start_words(findings.push(finding)) == fail_start_words(findings) + "\n  "@
            + finding.line@,
        warning_words(findings.push(finding)) == warning_words(findings) + "scripture: warning: "@
            + finding.line@ + "\n"@,
        fail_start_words(Seq::empty()) == "safety.require preflight failed:"@,
        warning_words(Seq::empty()).len() == 0,
{
    assert(findings.push(finding).drop_last() =~= findings);
}

/// What is left stands in its order: one more finding is left, last, unless it waits for live
/// evidence.
pub proof fn law_deferring_keeps_the_order(
    findings: Seq<CapabilityFinding>,
    finding: CapabilityFinding,
)
    ensures
        settled(findings.push(finding)) == (if finding.kind
            == SatisfactionKind::RequiresLivePreflight {
            settled(findings)
        } else {
            settled(findings).push(finding)
        }),
{
    assert(findings.push(finding).drop_last() =~= findings);
}

/// A degraded start is refused or warned of as the policy says, with a line for each finding;
/// without a policy, or without a finding, nothing is said and nothing counted.
pub proof fn law_policies_refuse_or_warn(
    findings: Vec<CapabilityFinding>,
    safety: Option<SafetyConfig>,
    counters: &mut WarningCounters,
    verdict: Result<String, String>,
)
    requires
        call_ensures(enforce_safety_policy, (&findings, &safety, counters), verdict),
    ensures
        safety is None ==> verdict is Ok && verdict->Ok_0@.len() == 0,
        findings@.len() == 0 ==> verdict is Ok && verdict->Ok_0@.len() == 0,
        verdict is Err ==> safety is Some && safety->0.on_degraded == OnDegraded::FailStart
            && findings@.len() > 0 && *final(counters) == *old(counters),
        safety matches Some(policy) ==> (findings@.len() > 0 && (
        policy.require.canon_history is Some || policy.require.producer_continuity is Some
            || policy.require.scribe_recovery is Some
            || policy.require.min_storage_failure_domains is Some) ==> {
            &&& verdict is Err <==> policy.on_degraded == OnDegraded::FailStart
            &&& verdict matches Err(message) ==> message@ == fail_start_words(findings@)
            &&& verdict matches Ok(text) ==> text@ == warning_words(findings@)
        }),
{
}

/// What is required, deferred and said of findings, over whole calls.
pub proof fn law_findings_over_whole_calls(
    require: SafetyRequire,
    required: Vec<RequiredGuarantee>,
    findings: Vec<CapabilityFinding>,
    kept: Vec<CapabilityFinding>,
    message: String,
    at: int,
)
    requires
        call_ensures(requirements_from_safety, (&require,), required),
        call_ensures(defer_live, (findings,), kept),
        call_ensures(format_fail_start, (&findings,), message),
        0 <= at < findings@.len(),
    ensures
        required@.contains(RequiredGuarantee::CanonHistoryCommitted)
            <==> require.canon_history is Some,
        required@.contains(RequiredGuarantee::ProducerContinuitySpooled)
            <==> require.producer_continuity is Some,
        required@.contains(RequiredGuarantee::ScribeRecoveryAutomatic)
            <==> require.scribe_recovery is Some,
        findings@[at].kind != SatisfactionKind::RequiresLivePreflight ==> kept@.contains(
            findings@[at],
        ),
        message@ == fail_start_words(findings@),
{
    law_what_is_asked_for_is_required(require, 0);
    if findings@[at].kind != SatisfactionKind::RequiresLivePreflight {
        law_settled_findings_are_not_deferred(findings@, at);
    }
}

} // verus!
