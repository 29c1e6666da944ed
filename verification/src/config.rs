//! Versioned node configuration.
//!
//! Credentials are never present in a configuration. Two shapes are accepted:
//! - Single-assignment: top-level `listener` and `verse`.
//! - Multi-assignment: `scribe.assignments`, one listener and one advertised
//!   route per assignment; top-level `listener` and `verse` are omitted.
use crate::ids::identity_from_slice;
use crate::text::{
    char_index, chars_of, contains_text, decimal, find_char, hex, is_blank, law_hex_is_injective,
    push_decimal, push_hex, quote, quoted, same_text, text_contains, text_of, trim, trim_end_char,
    trimmed, without_trailing,
};
use vstd::prelude::*;
use vstd::utf8::{encode_utf8, is_ascii_chars};

verus! {

/// Supported configuration schema version.
pub const CONFIG_VERSION: u32 = 1;

/// Configuration of one node.
#[derive(Debug, PartialEq, Eq)]
pub struct ScriptureConfig {
    /// Schema version. Must equal [`CONFIG_VERSION`].
    pub version: u32,
    pub node: NodeConfig,
    /// Required for single-assignment configs; omitted when `scribe.assignments` is set.
    pub listener: Option<ListenerConfig>,
    /// Required for single-assignment configs; omitted when `scribe.assignments` is set.
    pub verse: Option<VerseConfig>,
    pub store: StoreConfig,
    pub paths: PathsConfig,
    pub metrics: MetricsConfig,
    /// Serving Authority selection. Default is legacy (Canon-only).
    pub ha: HaConfig,
    /// Multi-assignment Scribe supervisor configuration.
    pub scribe: Option<ScribeConfig>,
    /// Admin promotion surface.
    pub admin: AdminConfig,
    /// Durable local spool in front of the producer path.
    pub producer_spool: Option<ProducerSpoolConfig>,
    /// Required guarantees and what to do where they are not met.
    pub safety: Option<SafetyConfig>,
}

/// Static multi-assignment Scribe layout for this process.
#[derive(Debug, PartialEq, Eq)]
pub struct ScribeConfig {
    /// Node-wide resource bounds shared across assignments.
    pub limits: ScribeLimits,
    /// Independent Canon/Verse assignments hosted by this Scribe.
    pub assignments: Vec<AssignmentConfig>,
}

/// Bounded node-wide controls for a multi-assignment Scribe.
#[derive(Debug, Clone, Copy, PartialEq, Eq, Structural)]
pub struct ScribeLimits {
    /// Hard cap on configured assignments in this process.
    pub max_assignments: usize,
    /// Aggregate admitted-but-unacked payload bytes across all assignments.
    pub max_pending_bytes: usize,
    /// Aggregate admitted-but-unacked records across all assignments.
    pub max_pending_records: usize,
    /// Cap on concurrent ingress connection tasks across all assignments.
    pub max_concurrent_tasks: usize,
}

impl Default for ScribeLimits {
    fn default() -> (limits: Self)
        ensures
            limits == (ScribeLimits {
                max_assignments: 16,
                max_pending_bytes: 4194304,
                max_pending_records: 1024,
                max_concurrent_tasks: 256,
            }),
    {
        ScribeLimits {
            max_assignments: default_max_assignments(),
            max_pending_bytes: default_max_pending_bytes(),
            max_pending_records: default_max_pending_records(),
            max_concurrent_tasks: default_max_concurrent_tasks(),
        }
    }
}

/// Assignments where none are configured.
pub fn default_max_assignments() -> (limit: usize)
    ensures
        limit == 16,
{
    16
}

/// Pending bytes where none are configured.
pub fn default_max_pending_bytes() -> (limit: usize)
    ensures
        limit == 4 * 1024 * 1024,
{
    4 * 1024 * 1024
}

/// Pending records where none are configured.
pub fn default_max_pending_records() -> (limit: usize)
    ensures
        limit == 1024,
{
    1024
}

/// Concurrent tasks where none are configured.
pub fn default_max_concurrent_tasks() -> (limit: usize)
    ensures
        limit == 256,
{
    256
}

/// One independent Canon/Verse assignment hosted by a Scribe.
#[derive(Debug, PartialEq, Eq)]
pub struct AssignmentConfig {
    /// Operator display/handle id (not a durability boundary).
    pub id: String,
    /// Canon identity (logical stream; 16 ASCII bytes).
    pub canon: String,
    /// Verse identity (independent ordering lane; 16 ASCII bytes).
    pub verse: String,
    pub cohort_id: String,
    pub writer_id: String,
    /// Startup posture for this assignment.
    pub posture: AssignmentPosture,
    pub ingress: ListenerConfig,
    /// Advertised owner endpoint published as the writer route for this assignment.
    /// Must be reachable for this Verse; not the process-wide `node.advertise`.
    pub advertise: String,
}

/// What an assignment is, apart from its representation.
pub struct AssignmentView {
    pub id: Seq<char>,
    pub canon: Seq<char>,
    pub verse: Seq<char>,
    pub cohort_id: Seq<char>,
    pub writer_id: Seq<char>,
    pub posture: AssignmentPosture,
    pub bind: Seq<char>,
    pub advertise: Seq<char>,
}

impl View for AssignmentConfig {
    type V = AssignmentView;

    open spec fn view(&self) -> AssignmentView {
        AssignmentView {
            id: self.id@,
            canon: self.canon@,
            verse: self.verse@,
            cohort_id: self.cohort_id@,
            writer_id: self.writer_id@,
            posture: self.posture,
            bind: self.ingress.bind@,
            advertise: self.advertise@,
        }
    }
}

impl Clone for AssignmentConfig {
    fn clone(&self) -> (copy: Self)
        ensures
            copy@ == self@,
    {
        AssignmentConfig {
            id: self.id.clone(),
            canon: self.canon.clone(),
            verse: self.verse.clone(),
            cohort_id: self.cohort_id.clone(),
            writer_id: self.writer_id.clone(),
            posture: self.posture,
            ingress: ListenerConfig { bind: self.ingress.bind.clone() },
            advertise: self.advertise.clone(),
        }
    }
}

/// Assignments by their views.
pub open spec fn assignments_view(assignments: Seq<AssignmentConfig>) -> Seq<AssignmentView> {
    assignments.map_values(|assignment: AssignmentConfig| assignment@)
}

/// Per-assignment startup posture under Serving Authority.
#[derive(Debug, Clone, Copy, PartialEq, Eq, Structural)]
pub enum AssignmentPosture {
    /// Bootstrap from empty to serving in this process when the root is empty.
    BootstrapIfEmpty,
    /// Hold without claiming Serving authority (no committed ACKs).
    Standby,
}

/// Portable control-plane selection (no secrets).
#[derive(Debug, Clone, Copy, PartialEq, Eq, Structural)]
pub struct HaConfig {
    /// `legacy` (default) or `serving-authority`.
    pub mode: HaMode,
}

impl Default for HaConfig {
    fn default() -> (ha: Self)
        ensures
            ha == (HaConfig { mode: HaMode::Legacy }),
    {
        HaConfig { mode: HaMode::Legacy }
    }
}

/// Whether Serving Authority gates the serve path.
#[derive(Debug, Clone, Copy, PartialEq, Eq, Structural)]
pub enum HaMode {
    /// Canon disposition only.
    Legacy,
    /// Require the one-record VirtualLog root Serving fence before committed ACKs.
    ServingAuthority,
}

/// Who this node is.
#[derive(Debug, PartialEq, Eq)]
pub struct NodeConfig {
    /// Exactly 16 ASCII bytes.
    pub owner_id: String,
    /// Advertised owner endpoint published into Canon fences.
    pub advertise: String,
}

/// Where producers connect.
#[derive(Debug, PartialEq, Eq)]
pub struct ListenerConfig {
    pub bind: String,
}

/// The one Canon/Verse of a single-assignment node.
#[derive(Debug, PartialEq, Eq)]
pub struct VerseConfig {
    pub journal_id: String,
    pub verse_id: String,
    pub cohort_id: String,
    pub writer_id: String,
}

/// The object store behind the node.
#[derive(Debug, PartialEq, Eq)]
pub struct StoreConfig {
    /// Durable-store profile: `rustfs` or `r2`.
    pub backend: String,
    pub endpoint: String,
    pub bucket: String,
    pub region: String,
    /// Exclusive object-store root prefix for this deployment (never bucket-wide).
    pub prefix: String,
}

/// Region where none is configured.
pub fn default_region() -> (region: String)
    ensures
        region@ == "auto"@,
{
    "auto".to_owned()
}

/// Local paths.
#[derive(Debug, PartialEq, Eq)]
pub struct PathsConfig {
    pub spool_dir: Option<String>,
}

/// Read-only probes.
#[derive(Debug, PartialEq, Eq)]
pub struct MetricsConfig {
    /// Optional bind for `/livez`, `/readyz`, and `/status` (read-only).
    pub status_bind: Option<String>,
}

/// Admin promotion surface.
#[derive(Debug, PartialEq, Eq)]
pub struct AdminConfig {
    /// Where a standby accepts promotion.
    pub bind: Option<String>,
}

/// Durable local spool in front of the producer path.
#[derive(Debug, PartialEq, Eq)]
pub struct ProducerSpoolConfig {
    /// Whether the spool is mounted; a described spool may lie dormant.
    pub enabled: bool,
    /// `local`; nothing else is durable.
    pub kind: String,
    pub path: String,
    pub max_bytes: u64,
    /// `every_record`.
    pub fsync: String,
    /// `reject`.
    pub on_full: String,
    /// Seconds of acknowledged data that one disk may lose.
    pub loss_budget_secs: u64,
    /// Scribe whose disk this is.
    pub scribe_id: String,
}

/// Required guarantees and what to do where they are not met.
#[derive(Debug, PartialEq, Eq)]
pub struct SafetyConfig {
    pub require: SafetyRequire,
    pub on_degraded: OnDegraded,
    /// Recovery candidates that the operator vouches for.
    pub declared_eligible_candidates: Vec<DeclaredEligibleCandidate>,
}

/// Guarantees that must hold.
#[derive(Debug, Clone, Copy, PartialEq, Eq, Structural)]
pub struct SafetyRequire {
    pub canon_history: Option<CanonHistoryRequire>,
    pub producer_continuity: Option<ProducerContinuityRequire>,
    pub scribe_recovery: Option<ScribeRecoveryRequire>,
    pub min_storage_failure_domains: Option<u32>,
}

/// Required durability of Canon history.
#[derive(Debug, Clone, Copy, PartialEq, Eq, Structural)]
pub enum CanonHistoryRequire {
    /// An acknowledged record is committed.
    Committed,
}

/// Required continuity for producers.
#[derive(Debug, Clone, Copy, PartialEq, Eq, Structural)]
pub enum ProducerContinuityRequire {
    /// A durable spool takes records while no Scribe does.
    Spooled,
}

/// Required recovery of a Scribe.
#[derive(Debug, Clone, Copy, PartialEq, Eq, Structural)]
pub enum ScribeRecoveryRequire {
    /// Another eligible candidate takes over.
    Automatic,
}

/// What to do where a required guarantee is not met.
#[derive(Debug, Clone, Copy, PartialEq, Eq, Structural)]
pub enum OnDegraded {
    /// Refuse to start.
    FailStart,
    /// Start, and say what is missing.
    Warn,
}

/// A recovery candidate that the operator vouches for.
#[derive(Debug, PartialEq, Eq)]
pub struct DeclaredEligibleCandidate {
    pub canon: String,
    pub verse: String,
    pub owner_id: String,
    pub serving_capable: bool,
    pub fresh: bool,
}

/// Why a configuration is refused.
#[derive(Debug, PartialEq, Eq)]
pub enum ConfigError {
    /// The schema version is not the supported one.
    UnsupportedVersion {
        /// Version found.
        found: u32,
    },
    /// A setting is wrong; the text says which and why.
    Invalid(String),
}

/// What a refusal is, apart from its representation.
pub enum ConfigProblem {
    UnsupportedVersion { found: u32 },
    Invalid(Seq<char>),
}

impl View for ConfigError {
    type V = ConfigProblem;

    open spec fn view(&self) -> ConfigProblem {
        match self {
            ConfigError::UnsupportedVersion { found } => ConfigProblem::UnsupportedVersion {
                found: *found,
            },
            ConfigError::Invalid(message) => ConfigProblem::Invalid(message@),
        }
    }
}

impl ConfigProblem {
    /// The refusal in words.
    pub open spec fn words(self) -> Seq<char> {
        match self {
            ConfigProblem::UnsupportedVersion { found } => "unsupported config version "@ + decimal(
                found as nat,
            ) + " (expected 1)"@,
            ConfigProblem::Invalid(message) => message,
        }
    }
}

impl ConfigError {
    /// The refusal in words.
    pub fn message(&self) -> (message: String)
        ensures
            message@ == self@.words(),
    {
        match self {
            ConfigError::UnsupportedVersion { found } => {
                let mut message = String::new();
                message.append("unsupported config version ");
                push_decimal(&mut message, *found as u64);
                message.append(" (expected 1)");
                assert(message@ =~= self@.words());
                message
            },
            ConfigError::Invalid(message) => message.clone(),
        }
    }
}

fn invalid(message: &str) -> (error: ConfigError)
    ensures
        error@ == ConfigProblem::Invalid(message@),
{
    ConfigError::Invalid(message.to_owned())
}

/// What the parsers of store profiles and owner endpoints said of the tokens in
/// a configuration.
#[derive(Debug, PartialEq, Eq)]
pub struct TokenRefusals {
    /// Why `store.backend` names no profile, where it names none.
    pub backend: Option<String>,
    /// Endpoints that are refused, each with the reason.
    pub endpoints: Vec<(String, String)>,
}

/// Why an endpoint is refused, where it is.
pub open spec fn endpoint_refusal(refused: Seq<(String, String)>, endpoint: Seq<char>) -> Option<
    Seq<char>,
>
    decreases refused.len(),
{
    if refused.len() == 0 {
        None
    } else if refused[0].0@ == endpoint {
        Some(refused[0].1@)
    } else {
        endpoint_refusal(refused.skip(1), endpoint)
    }
}

fn refusal_of<'a>(refused: &'a Vec<(String, String)>, endpoint: &str) -> (reason: Option<&'a str>)
    ensures
        match reason {
            Some(reason) => endpoint_refusal(refused@, endpoint@) == Some(reason@),
            None => endpoint_refusal(refused@, endpoint@) is None,
        },
{
    let mut at: usize = 0;
    assert(refused@.skip(0) =~= refused@);
    while at < refused.len()
        invariant
            at <= refused@.len(),
            endpoint_refusal(refused@.skip(at as int), endpoint@) == endpoint_refusal(
                refused@,
                endpoint@,
            ),
        decreases refused@.len() - at,
    {
        assert(refused@.skip(at as int)[0] == refused@[at as int]);
        if same_text(refused[at].0.as_str(), endpoint) {
            return Some(refused[at].1.as_str());
        }
        assert(refused@.skip(at as int).skip(1) =~= refused@.skip(at + 1));
        at += 1;
    }
    None
}

// Fixed identities.

/// Whether a text is a fixed identity: exactly 16 ASCII bytes.
pub open spec fn is_fixed_id(raw: Seq<char>) -> bool {
    encode_utf8(raw).len() == 16 && is_ascii_chars(raw)
}

/// What is said of a field that is no fixed identity.
pub open spec fn fixed_id_refusal(field: Seq<char>, raw: Seq<char>) -> Seq<char> {
    field + " must be exactly 16 ASCII bytes (got "@ + decimal(encode_utf8(raw).len()) + ")"@
}

/// The problem of a field that is to be a fixed identity.
pub open spec fn fixed_id_problem(field: Seq<char>, raw: Seq<char>) -> Option<ConfigProblem> {
    if is_fixed_id(raw) {
        None
    } else {
        Some(ConfigProblem::Invalid(fixed_id_refusal(field, raw)))
    }
}

/// Reads a fixed identity.
pub fn parse_fixed_id(field: &str, raw: &str) -> (id: Result<[u8; 16], ConfigError>)
    ensures
        match id {
            Ok(id) => fixed_id_problem(field@, raw@) is None && id@ == encode_utf8(raw@),
            Err(error) => fixed_id_problem(field@, raw@) == Some(error@),
        },
{
    let bytes = raw.as_bytes();
    if bytes.len() != 16 || !raw.is_ascii() {
        let mut message = field.to_owned();
        message.append(" must be exactly 16 ASCII bytes (got ");
        push_decimal(&mut message, bytes.len() as u64);
        message.append(")");
        assert(message@ =~= fixed_id_refusal(field@, raw@));
        return Err(ConfigError::Invalid(message));
    }
    Ok(identity_from_slice(bytes))
}

// Store roots.

/// The deployment prefix: the configured prefix without surrounding whitespace
/// and without the slashes at its end.
pub open spec fn deployment_prefix(prefix: Seq<char>) -> Seq<char> {
    without_trailing(trimmed(prefix), '/')
}

/// Whether a prefix is no path at all, so that it stands for the whole bucket.
pub fn is_bucket_wide(prefix: &str) -> (wide: bool)
    ensures
        wide == (deployment_prefix(prefix@).len() == 0),
{
    let chars = chars_of(prefix);
    trim_end_char(trim(chars.as_slice()), '/').len() == 0
}

/// The object-store root of a Canon/Verse: it follows from the deployment prefix
/// and the two identities alone.
pub open spec fn durable_root(prefix: Seq<char>, canon: Seq<u8>, verse: Seq<u8>) -> Seq<char> {
    deployment_prefix(prefix) + "/cv/"@ + hex(canon) + "/"@ + hex(verse)
}

/// The object-store root of a Canon/Verse.
pub fn assignment_durable_root(prefix: &str, canon: &[u8; 16], verse: &[u8; 16]) -> (root: String)
    ensures
        root@ == durable_root(prefix@, canon@, verse@),
{
    let chars = chars_of(prefix);
    let mut root = text_of(trim_end_char(trim(chars.as_slice()), '/'));
    root.append("/cv/");
    push_hex(&mut root, canon.as_slice());
    root.append("/");
    push_hex(&mut root, verse.as_slice());
    assert(root@ =~= durable_root(prefix@, canon@, verse@));
    root
}

// Assignments.

/// `assignment[ID].FIELD`
pub open spec fn assignment_field(id: Seq<char>, field: Seq<char>) -> Seq<char> {
    "assignment["@ + id + "]."@ + field
}

fn assignment_field_text(id: &str, field: &str) -> (text: String)
    ensures
        text@ == assignment_field(id@, field@),
{
    let mut text = String::new();
    text.append("assignment[");
    text.append(id);
    text.append("].");
    text.append(field);
    assert(text@ =~= assignment_field(id@, field@));
    text
}

/// Whether an earlier assignment has the same id.
pub open spec fn id_seen(assignments: Seq<AssignmentView>, at: int) -> bool {
    exists|i: int| 0 <= i < at && (#[trigger] assignments[i]).id == assignments[at].id
}

/// Whether an earlier assignment has the same listener.
pub open spec fn bind_seen(assignments: Seq<AssignmentView>, at: int) -> bool {
    exists|i: int| 0 <= i < at && (#[trigger] assignments[i]).bind == assignments[at].bind
}

/// Whether an earlier assignment has the same advertised route.
pub open spec fn advertise_seen(assignments: Seq<AssignmentView>, at: int) -> bool {
    exists|i: int| 0 <= i < at && (#[trigger] assignments[i]).advertise == assignments[at].advertise
}

/// Whether an earlier assignment has the same Canon and Verse.
pub open spec fn key_seen(assignments: Seq<AssignmentView>, at: int) -> bool {
    exists|i: int|
        0 <= i < at && (#[trigger] assignments[i]).canon == assignments[at].canon
            && assignments[i].verse == assignments[at].verse
}

/// Whether a text is a path segment that an assignment can be named by.
pub open spec fn is_assignment_id(id: Seq<char>) -> bool {
    &&& trimmed(id).len() > 0
    &&& char_index(id, '/') == id.len()
    &&& !contains_text(id, ".."@)
}

/// What is wrong with the assignment at `at`, given those before it.
pub open spec fn assignment_problem(
    prefix: Seq<char>,
    assignments: Seq<AssignmentView>,
    at: int,
    refused: Seq<(String, String)>,
) -> Option<ConfigProblem> {
    let one = assignments[at];
    if !is_assignment_id(one.id) {
        Some(
            ConfigProblem::Invalid(
                "assignment id "@ + quoted(one.id)
                    + " must be a non-empty path segment without '/' or '..'"@,
            ),
        )
    } else if id_seen(assignments, at) {
        Some(ConfigProblem::Invalid("duplicate assignment id "@ + quoted(one.id)))
    } else if trimmed(one.bind).len() == 0 {
        Some(
            ConfigProblem::Invalid("assignment "@ + quoted(one.id) + " ingress.bind is required"@),
        )
    } else if bind_seen(assignments, at) {
        Some(
            ConfigProblem::Invalid(
                "duplicate ingress.bind "@ + quoted(one.bind)
                    + " (one listener per assignment)"@,
            ),
        )
    } else if endpoint_refusal(refused, one.advertise) is Some {
        Some(
            ConfigProblem::Invalid(
                assignment_field(one.id, "advertise"@) + ": "@ + endpoint_refusal(
                    refused,
                    one.advertise,
                )->0,
            ),
        )
    } else if advertise_seen(assignments, at) {
        Some(
            ConfigProblem::Invalid(
                "duplicate assignment advertise "@ + quoted(one.advertise)
                    + " (one writer route per assignment)"@,
            ),
        )
    } else if !is_fixed_id(one.canon) {
        fixed_id_problem(assignment_field(one.id, "canon"@), one.canon)
    } else if !is_fixed_id(one.verse) {
        fixed_id_problem(assignment_field(one.id, "verse"@), one.verse)
    } else if !is_fixed_id(one.cohort_id) {
        fixed_id_problem(assignment_field(one.id, "cohort_id"@), one.cohort_id)
    } else if !is_fixed_id(one.writer_id) {
        fixed_id_problem(assignment_field(one.id, "writer_id"@), one.writer_id)
    } else if key_seen(assignments, at) {
        Some(
            ConfigProblem::Invalid(
                "duplicate canon/verse for assignment "@ + quoted(one.id)
                    + " (durable roots are Canon/Verse-derived; renaming id alone does not change the root)"@,
            ),
        )
    } else if contains_text(
        durable_root(prefix, encode_utf8(one.canon), encode_utf8(one.verse)),
        ".."@,
    ) {
        Some(ConfigProblem::Invalid(root_escapes(one.id)))
    } else {
        None
    }
}

/// What is said of an assignment whose store root climbs.
pub open spec fn root_escapes(id: Seq<char>) -> Seq<char> {
    "assignment["@ + id + "] derived store root must not contain '..'"@
}

/// What is wrong with the first assignment, from `at` on, that has a problem.
pub open spec fn assignments_problem(
    prefix: Seq<char>,
    assignments: Seq<AssignmentView>,
    at: int,
    refused: Seq<(String, String)>,
) -> Option<ConfigProblem>
    decreases assignments.len() - at,
{
    if at < 0 || at >= assignments.len() {
        None
    } else {
        match assignment_problem(prefix, assignments, at, refused) {
            Some(problem) => Some(problem),
            None => assignments_problem(prefix, assignments, at + 1, refused),
        }
    }
}

fn root_escapes_error(id: &str) -> (error: ConfigError)
    ensures
        error@ == ConfigProblem::Invalid(root_escapes(id@)),
{
    let mut message = String::new();
    message.append("assignment[");
    message.append(id);
    message.append("] derived store root must not contain '..'");
    assert(message@ =~= root_escapes(id@));
    ConfigError::Invalid(message)
}

fn quoted_error(before: &str, text: &str, after: &str) -> (error: ConfigError)
    ensures
        error@ == ConfigProblem::Invalid(before@ + quoted(text@) + after@),
{
    let mut message = before.to_owned();
    let rendered = quote(text);
    message.append(rendered.as_str());
    message.append(after);
    assert(message@ =~= before@ + quoted(text@) + after@);
    ConfigError::Invalid(message)
}

fn advertise_error(id: &str, reason: &str) -> (error: ConfigError)
    ensures
        error@ == ConfigProblem::Invalid(
            assignment_field(id@, "advertise"@) + ": "@ + reason@,
        ),
{
    let mut message = assignment_field_text(id, "advertise");
    message.append(": ");
    message.append(reason);
    assert(message@ =~= assignment_field(id@, "advertise"@) + ": "@ + reason@);
    ConfigError::Invalid(message)
}

/// Which properties an assignment shares with one before it.
struct Repeats {
    id: bool,
    bind: bool,
    advertise: bool,
    key: bool,
}

fn repeats(assignments: &Vec<AssignmentConfig>, at: usize) -> (found: Repeats)
    requires
        at < assignments@.len(),
    ensures
        found.id == id_seen(assignments_view(assignments@), at as int),
        found.bind == bind_seen(assignments_view(assignments@), at as int),
        found.advertise == advertise_seen(assignments_view(assignments@), at as int),
        found.key == key_seen(assignments_view(assignments@), at as int),
{
    let ghost view = assignments_view(assignments@);
    let mut found = Repeats { id: false, bind: false, advertise: false, key: false };
    let mut i: usize = 0;
    while i < at
        invariant
            i <= at < assignments@.len(),
            view == assignments_view(assignments@),
            found.id == exists|j: int| 0 <= j < i && (#[trigger] view[j]).id == view[at as int].id,
            found.bind == exists|j: int|
                0 <= j < i && (#[trigger] view[j]).bind == view[at as int].bind,
            found.advertise == exists|j: int|
                0 <= j < i && (#[trigger] view[j]).advertise == view[at as int].advertise,
            found.key == exists|j: int|
                0 <= j < i && (#[trigger] view[j]).canon == view[at as int].canon && view[j].verse
                    == view[at as int].verse,
        decreases at - i,
    {
        let one = &assignments[at];
        let other = &assignments[i];
        assert(view[i as int] == other@ && view[at as int] == one@);
        let same_id = same_text(other.id.as_str(), one.id.as_str());
        let same_bind = same_text(other.ingress.bind.as_str(), one.ingress.bind.as_str());
        let same_advertise = same_text(other.advertise.as_str(), one.advertise.as_str());
        let same_key = same_text(other.canon.as_str(), one.canon.as_str()) && same_text(
            other.verse.as_str(),
            one.verse.as_str(),
        );
        found = Repeats {
            id: found.id || same_id,
            bind: found.bind || same_bind,
            advertise: found.advertise || same_advertise,
            key: found.key || same_key,
        };
        i += 1;
    }
    found
}

fn check_assignment(
    prefix: &str,
    assignments: &Vec<AssignmentConfig>,
    at: usize,
    refused: &Vec<(String, String)>,
) -> (checked: Result<(), ConfigError>)
    requires
        at < assignments@.len(),
    ensures
        match checked {
            Ok(()) => assignment_problem(
                prefix@,
                assignments_view(assignments@),
                at as int,
                refused@,
            ) is None,
            Err(error) => assignment_problem(
                prefix@,
                assignments_view(assignments@),
                at as int,
                refused@,
            ) == Some(error@),
        },
{
    let one = &assignments[at];
    let id = one.id.as_str();
    let seen = repeats(assignments, at);
    let id_chars = chars_of(id);
    if is_blank(id) || find_char(id_chars.as_slice(), '/') != id_chars.len() || text_contains(
        id,
        "..",
    ) {
        return Err(
            quoted_error(
                "assignment id ",
                id,
                " must be a non-empty path segment without '/' or '..'",
            ),
        );
    }
    if seen.id {
        let error = quoted_error("duplicate assignment id ", id, "");
        proof {
            reveal_strlit("");
            assert("duplicate assignment id "@ + quoted(id@) + ""@ =~= "duplicate assignment id "@
                + quoted(id@));
        }
        return Err(error);
    }
    if is_blank(one.ingress.bind.as_str()) {
        return Err(quoted_error("assignment ", id, " ingress.bind is required"));
    }
    if seen.bind {
        return Err(
            quoted_error(
                "duplicate ingress.bind ",
                one.ingress.bind.as_str(),
                " (one listener per assignment)",
            ),
        );
    }
    match refusal_of(refused, one.advertise.as_str()) {
        Some(reason) => {
            return Err(advertise_error(id, reason));
        },
        None => {},
    }
    if seen.advertise {
        return Err(
            quoted_error(
                "duplicate assignment advertise ",
                one.advertise.as_str(),
                " (one writer route per assignment)",
            ),
        );
    }
    let canon = match parse_fixed_id(
        assignment_field_text(id, "canon").as_str(),
        one.canon.as_str(),
    ) {
        Err(error) => {
            return Err(error);
        },
        Ok(canon) => canon,
    };
    let verse = match parse_fixed_id(
        assignment_field_text(id, "verse").as_str(),
        one.verse.as_str(),
    ) {
        Err(error) => {
            return Err(error);
        },
        Ok(verse) => verse,
    };
    match parse_fixed_id(
        assignment_field_text(id, "cohort_id").as_str(),
        one.cohort_id.as_str(),
    ) {
        Err(error) => {
            return Err(error);
        },
        Ok(_) => {},
    }
    match parse_fixed_id(
        assignment_field_text(id, "writer_id").as_str(),
        one.writer_id.as_str(),
    ) {
        Err(error) => {
            return Err(error);
        },
        Ok(_) => {},
    }
    if seen.key {
        return Err(
            quoted_error(
                "duplicate canon/verse for assignment ",
                id,
                " (durable roots are Canon/Verse-derived; renaming id alone does not change the root)",
            ),
        );
    }
    let root = assignment_durable_root(prefix, &canon, &verse);
    if text_contains(root.as_str(), "..") {
        return Err(root_escapes_error(id));
    }
    Ok(())
}

// Whole configurations.

impl ScriptureConfig {
    /// Whether this config uses the multi-assignment Scribe shape.
    pub open spec fn multi(&self) -> bool {
        self.scribe is Some && self.scribe->0.assignments@.len() > 0
    }

    /// What is wrong with a single-assignment config.
    pub open spec fn single_problem(&self) -> Option<ConfigProblem> {
        if self.scribe is Some {
            Some(
                ConfigProblem::Invalid("scribe.assignments must be non-empty when scribe is set"@),
            )
        } else {
            match (self.listener, self.verse) {
                (None, _) => Some(
                    ConfigProblem::Invalid(
                        "listener is required for single-assignment config"@,
                    ),
                ),
                (_, None) => Some(
                    ConfigProblem::Invalid("verse is required for single-assignment config"@),
                ),
                (Some(listener), Some(verse)) => if trimmed(listener.bind@).len() == 0 {
                    Some(ConfigProblem::Invalid("listener.bind is required"@))
                } else if !is_fixed_id(verse.journal_id@) {
                    fixed_id_problem("verse.journal_id"@, verse.journal_id@)
                } else if !is_fixed_id(verse.verse_id@) {
                    fixed_id_problem("verse.verse_id"@, verse.verse_id@)
                } else if !is_fixed_id(verse.cohort_id@) {
                    fixed_id_problem("verse.cohort_id"@, verse.cohort_id@)
                } else {
                    fixed_id_problem("verse.writer_id"@, verse.writer_id@)
                },
            }
        }
    }

    /// What is wrong with a multi-assignment config.
    pub open spec fn multi_problem(&self, refused: Seq<(String, String)>) -> Option<ConfigProblem> {
        let scribe = self.scribe->0;
        let limits = scribe.limits;
        if self.listener is Some || self.verse is Some {
            Some(
                ConfigProblem::Invalid(
                    "multi-assignment config must omit top-level listener and verse (use scribe.assignments[].ingress / canon+verse)"@,
                ),
            )
        } else if self.paths.spool_dir is Some {
            Some(
                ConfigProblem::Invalid(
                    "paths.spool_dir is not supported with scribe.assignments (per-assignment spool is out of scope)"@,
                ),
            )
        } else if scribe.assignments@.len() > limits.max_assignments {
            Some(
                ConfigProblem::Invalid(
                    "scribe.assignments length "@ + decimal(scribe.assignments@.len())
                        + " exceeds limits.max_assignments "@ + decimal(
                        limits.max_assignments as nat,
                    ),
                ),
            )
        } else if limits.max_assignments == 0 || limits.max_pending_bytes == 0
            || limits.max_pending_records == 0 || limits.max_concurrent_tasks == 0 {
            Some(ConfigProblem::Invalid("scribe.limits values must be >= 1"@))
        } else if self.ha.mode != HaMode::ServingAuthority {
            Some(
                ConfigProblem::Invalid("scribe.assignments requires ha.mode: serving-authority"@),
            )
        } else {
            assignments_problem(
                self.store.prefix@,
                assignments_view(scribe.assignments@),
                0,
                refused,
            )
        }
    }

    /// What is wrong with the description of the producer spool.
    pub open spec fn spool_problem(&self) -> Option<ConfigProblem> {
        match self.producer_spool {
            None => None,
            Some(spool) => if spool.kind@ != "local"@ {
                Some(ConfigProblem::Invalid("producer_spool.kind must be local"@))
            } else if trimmed(spool.path@).len() == 0 {
                Some(ConfigProblem::Invalid("producer_spool.path is required"@))
            } else if spool.max_bytes == 0 {
                Some(ConfigProblem::Invalid("producer_spool.max_bytes must be >= 1"@))
            } else if spool.fsync@ != "every_record"@ {
                Some(ConfigProblem::Invalid("producer_spool.fsync must be every_record"@))
            } else if spool.on_full@ != "reject"@ {
                Some(ConfigProblem::Invalid("producer_spool.on_full must be reject"@))
            } else if spool.loss_budget_secs == 0 {
                Some(ConfigProblem::Invalid("producer_spool.loss_budget must be >= 1s"@))
            } else if trimmed(spool.scribe_id@).len() == 0 {
                Some(ConfigProblem::Invalid("producer_spool.scribe_id is required"@))
            } else {
                None
            },
        }
    }

    /// What is wrong with the required guarantees.
    pub open spec fn safety_problem(&self) -> Option<ConfigProblem> {
        if self.safety is Some && self.safety->0.require.min_storage_failure_domains == Some(0u32) {
            Some(
                ConfigProblem::Invalid(
                    "safety.require.min_storage_failure_domains must be an integer >= 1"@,
                ),
            )
        } else {
            None
        }
    }

    /// What is wrong with the config, where anything is.
    pub open spec fn problem(&self, refusals: TokenRefusals) -> Option<ConfigProblem> {
        if self.version != CONFIG_VERSION {
            Some(ConfigProblem::UnsupportedVersion { found: self.version })
        } else if refusals.backend is Some {
            Some(ConfigProblem::Invalid(refusals.backend->0@))
        } else if deployment_prefix(self.store.prefix@).len() == 0 || contains_text(
            self.store.prefix@,
            ".."@,
        ) {
            Some(
                ConfigProblem::Invalid("store.prefix must be a non-empty path without '..'"@),
            )
        } else if endpoint_refusal(refusals.endpoints@, self.node.advertise@) is Some {
            Some(
                ConfigProblem::Invalid(
                    "node.advertise: "@ + endpoint_refusal(
                        refusals.endpoints@,
                        self.node.advertise@,
                    )->0,
                ),
            )
        } else if !is_fixed_id(self.node.owner_id@) {
            fixed_id_problem("node.owner_id"@, self.node.owner_id@)
        } else if self.spool_problem() is Some {
            self.spool_problem()
        } else if self.safety_problem() is Some {
            self.safety_problem()
        } else if self.multi() {
            self.multi_problem(refusals.endpoints@)
        } else {
            self.single_problem()
        }
    }

    /// True when this config uses the multi-assignment Scribe shape.
    pub fn is_multi_assignment(&self) -> (multi: bool)
        ensures
            multi == self.multi(),
    {
        match &self.scribe {
            Some(scribe) => scribe.assignments.len() > 0,
            None => false,
        }
    }

    /// Checks the whole config; `refusals` says which tokens their parsers refuse.
    pub fn validate(&self, refusals: &TokenRefusals) -> (checked: Result<(), ConfigError>)
        ensures
            match checked {
                Ok(()) => self.problem(*refusals) is None,
                Err(error) => self.problem(*refusals) == Some(error@),
            },
    {
        if self.version != CONFIG_VERSION {
            return Err(ConfigError::UnsupportedVersion { found: self.version });
        }
        match &refusals.backend {
            Some(reason) => {
                return Err(invalid(reason.as_str()));
            },
            None => {},
        }
        if is_bucket_wide(self.store.prefix.as_str()) || text_contains(
            self.store.prefix.as_str(),
            "..",
        ) {
            return Err(invalid("store.prefix must be a non-empty path without '..'"));
        }
        match self.advertise(refusals) {
            Err(error) => {
                return Err(error);
            },
            Ok(_) => {},
        }
        match parse_fixed_id("node.owner_id", self.node.owner_id.as_str()) {
            Err(error) => {
                return Err(error);
            },
            Ok(_) => {},
        }
        match self.validated_producer_spool() {
            Err(error) => {
                return Err(error);
            },
            Ok(_) => {},
        }
        match self.validate_safety() {
            Err(error) => {
                return Err(error);
            },
            Ok(()) => {},
        }
        if self.is_multi_assignment() {
            self.validate_multi_assignment(&refusals.endpoints)
        } else {
            self.validate_single_assignment()
        }
    }

    fn validate_safety(&self) -> (checked: Result<(), ConfigError>)
        ensures
            match checked {
                Ok(()) => self.safety_problem() is None,
                Err(error) => self.safety_problem() == Some(error@),
            },
    {
        match &self.safety {
            None => Ok(()),
            Some(safety) => match safety.require.min_storage_failure_domains {
                Some(least) => {
                    if least == 0 {
                        return Err(
                            invalid(
                                "safety.require.min_storage_failure_domains must be an integer >= 1",
                            ),
                        );
                    }
                    Ok(())
                },
                None => Ok(()),
            },
        }
    }

    fn validate_single_assignment(&self) -> (checked: Result<(), ConfigError>)
        ensures
            match checked {
                Ok(()) => self.single_problem() is None,
                Err(error) => self.single_problem() == Some(error@),
            },
    {
        if self.scribe.is_some() {
            return Err(invalid("scribe.assignments must be non-empty when scribe is set"));
        }
        let listener = match &self.listener {
            None => {
                return Err(invalid("listener is required for single-assignment config"));
            },
            Some(listener) => listener,
        };
        let verse = match &self.verse {
            None => {
                return Err(invalid("verse is required for single-assignment config"));
            },
            Some(verse) => verse,
        };
        if is_blank(listener.bind.as_str()) {
            return Err(invalid("listener.bind is required"));
        }
        match parse_fixed_id("verse.journal_id", verse.journal_id.as_str()) {
            Err(error) => {
                return Err(error);
            },
            Ok(_) => {},
        }
        match parse_fixed_id("verse.verse_id", verse.verse_id.as_str()) {
            Err(error) => {
                return Err(error);
            },
            Ok(_) => {},
        }
        match parse_fixed_id("verse.cohort_id", verse.cohort_id.as_str()) {
            Err(error) => {
                return Err(error);
            },
            Ok(_) => {},
        }
        match parse_fixed_id("verse.writer_id", verse.writer_id.as_str()) {
            Err(error) => {
                return Err(error);
            },
            Ok(_) => {},
        }
        Ok(())
    }

    fn validate_multi_assignment(&self, refused: &Vec<(String, String)>) -> (checked: Result<
        (),
        ConfigError,
    >)
        requires
            self.multi(),
        ensures
            match checked {
                Ok(()) => self.multi_problem(refused@) is None,
                Err(error) => self.multi_problem(refused@) == Some(error@),
            },
    {
        if self.listener.is_some() || self.verse.is_some() {
            return Err(
                invalid(
                    "multi-assignment config must omit top-level listener and verse (use scribe.assignments[].ingress / canon+verse)",
                ),
            );
        }
        if self.paths.spool_dir.is_some() {
            return Err(
                invalid(
                    "paths.spool_dir is not supported with scribe.assignments (per-assignment spool is out of scope)",
                ),
            );
        }
        let scribe = match &self.scribe {
            None => {
                return Ok(());
            },
            Some(scribe) => scribe,
        };
        let limits = &scribe.limits;
        let count: usize = scribe.assignments.len();
        if count > limits.max_assignments {
            let mut message = String::new();
            message.append("scribe.assignments length ");
            push_decimal(&mut message, count as u64);
            message.append(" exceeds limits.max_assignments ");
            push_decimal(&mut message, limits.max_assignments as u64);
            assert(message@ =~= "scribe.assignments length "@ + decimal(count as nat)
                + " exceeds limits.max_assignments "@ + decimal(limits.max_assignments as nat));
            return Err(ConfigError::Invalid(message));
        }
        if limits.max_assignments == 0 || limits.max_pending_bytes == 0
            || limits.max_pending_records == 0 || limits.max_concurrent_tasks == 0 {
            return Err(invalid("scribe.limits values must be >= 1"));
        }
        match self.ha.mode {
            HaMode::Legacy => {
                return Err(invalid("scribe.assignments requires ha.mode: serving-authority"));
            },
            HaMode::ServingAuthority => {},
        }
        let ghost view = assignments_view(scribe.assignments@);
        let mut at: usize = 0;
        while at < scribe.assignments.len()
            invariant
                at <= scribe.assignments@.len(),
                view == assignments_view(scribe.assignments@),
                assignments_problem(self.store.prefix@, view, at as int, refused@)
                    == assignments_problem(self.store.prefix@, view, 0, refused@),
                scribe == self.scribe->0,
                self.multi_problem(refused@) == assignments_problem(
                    self.store.prefix@,
                    view,
                    0,
                    refused@,
                ),
            decreases scribe.assignments@.len() - at,
        {
            match check_assignment(self.store.prefix.as_str(), &scribe.assignments, at, refused) {
                Err(error) => {
                    return Err(error);
                },
                Ok(()) => {},
            }
            at += 1;
        }
        Ok(())
    }

    /// The described producer spool, where there is one and it is durable.
    pub fn validated_producer_spool(&self) -> (spool: Result<
        Option<&ProducerSpoolConfig>,
        ConfigError,
    >)
        ensures
            match spool {
                Ok(None) => self.producer_spool is None,
                Ok(Some(spool)) => self.producer_spool == Some(*spool) && self.spool_problem()
                    is None,
                Err(error) => self.spool_problem() == Some(error@),
            },
    {
        let spool = match &self.producer_spool {
            None => {
                return Ok(None);
            },
            Some(spool) => spool,
        };
        if !same_text(spool.kind.as_str(), "local") {
            return Err(invalid("producer_spool.kind must be local"));
        }
        if is_blank(spool.path.as_str()) {
            return Err(invalid("producer_spool.path is required"));
        }
        if spool.max_bytes == 0 {
            return Err(invalid("producer_spool.max_bytes must be >= 1"));
        }
        if !same_text(spool.fsync.as_str(), "every_record") {
            return Err(invalid("producer_spool.fsync must be every_record"));
        }
        if !same_text(spool.on_full.as_str(), "reject") {
            return Err(invalid("producer_spool.on_full must be reject"));
        }
        if spool.loss_budget_secs == 0 {
            return Err(invalid("producer_spool.loss_budget must be >= 1s"));
        }
        if is_blank(spool.scribe_id.as_str()) {
            return Err(invalid("producer_spool.scribe_id is required"));
        }
        Ok(Some(spool))
    }

    /// Whether a durable producer spool is mounted.
    pub open spec fn spool_mounted(&self) -> bool {
        self.producer_spool is Some && self.spool_problem() is None
            && self.producer_spool->0.enabled
    }

    /// Whether a durable producer spool is mounted.
    pub fn durable_producer_spool_configured(&self) -> (configured: bool)
        ensures
            configured == self.spool_mounted(),
    {
        match self.validated_producer_spool() {
            Ok(Some(spool)) => spool.enabled,
            _ => false,
        }
    }

    /// The owner identity of this node.
    pub fn owner_id(&self) -> (id: Result<[u8; 16], ConfigError>)
        ensures
            match id {
                Ok(id) => is_fixed_id(self.node.owner_id@) && id@ == encode_utf8(
                    self.node.owner_id@,
                ),
                Err(error) => fixed_id_problem("node.owner_id"@, self.node.owner_id@) == Some(
                    error@,
                ),
            },
    {
        parse_fixed_id("node.owner_id", self.node.owner_id.as_str())
    }

    /// The advertised endpoint of this node.
    pub fn advertise(&self, refusals: &TokenRefusals) -> (endpoint: Result<&str, ConfigError>)
        ensures
            match endpoint {
                Ok(endpoint) => endpoint@ == self.node.advertise@ && endpoint_refusal(
                    refusals.endpoints@,
                    self.node.advertise@,
                ) is None,
                Err(error) => match endpoint_refusal(
                    refusals.endpoints@,
                    self.node.advertise@,
                ) {
                    Some(reason) => error@ == ConfigProblem::Invalid("node.advertise: "@ + reason),
                    None => false,
                },
            },
    {
        match refusal_of(&refusals.endpoints, self.node.advertise.as_str()) {
            None => Ok(self.node.advertise.as_str()),
            Some(reason) => {
                let mut message = String::new();
                message.append("node.advertise: ");
                message.append(reason);
                assert(message@ =~= "node.advertise: "@ + reason@);
                Err(ConfigError::Invalid(message))
            },
        }
    }

    /// The store profile of this node.
    pub fn backend(&self, refusals: &TokenRefusals) -> (backend: Result<&str, ConfigError>)
        ensures
            match backend {
                Ok(backend) => backend@ == self.store.backend@ && refusals.backend is None,
                Err(error) => refusals.backend is Some && error@ == ConfigProblem::Invalid(
                    refusals.backend->0@,
                ),
            },
    {
        match &refusals.backend {
            None => Ok(self.store.backend.as_str()),
            Some(reason) => Err(invalid(reason.as_str())),
        }
    }

    /// What keeps the single assignment from running.
    pub open spec fn verse_runtime_problem(&self) -> Option<ConfigProblem> {
        match self.verse {
            None => Some(
                ConfigProblem::Invalid(
                    "verse_runtime_config requires single-assignment verse section"@,
                ),
            ),
            Some(verse) => if !is_fixed_id(verse.journal_id@) {
                fixed_id_problem("verse.journal_id"@, verse.journal_id@)
            } else if !is_fixed_id(verse.verse_id@) {
                fixed_id_problem("verse.verse_id"@, verse.verse_id@)
            } else if !is_fixed_id(self.node.owner_id@) {
                fixed_id_problem("node.owner_id"@, self.node.owner_id@)
            } else if !is_fixed_id(verse.cohort_id@) {
                fixed_id_problem("verse.cohort_id"@, verse.cohort_id@)
            } else {
                fixed_id_problem("verse.writer_id"@, verse.writer_id@)
            },
        }
    }

    /// Verse runtime config of the single assignment.
    pub fn verse_runtime_config(&self) -> (runtime: Result<VerseRuntimeConfig, ConfigError>)
        ensures
            match runtime {
                Ok(runtime) => {
                    &&& self.verse_runtime_problem() is None
                    &&& runtime.journal_id@ == encode_utf8(self.verse->0.journal_id@)
                    &&& runtime.verse_id@ == encode_utf8(self.verse->0.verse_id@)
                    &&& runtime.owner_id@ == encode_utf8(self.node.owner_id@)
                    &&& runtime.cohort_id@ == encode_utf8(self.verse->0.cohort_id@)
                    &&& runtime.writer_id@ == encode_utf8(self.verse->0.writer_id@)
                    &&& runtime.policy == chunk_policy()
                    &&& runtime.recovery_bound == 8
                    &&& runtime.queue_capacity == 256
                },
                Err(error) => self.verse_runtime_problem() == Some(error@),
            },
    {
        let verse = match &self.verse {
            None => {
                return Err(
                    invalid("verse_runtime_config requires single-assignment verse section"),
                );
            },
            Some(verse) => verse,
        };
        let journal_id = match parse_fixed_id("verse.journal_id", verse.journal_id.as_str()) {
            Err(error) => {
                return Err(error);
            },
            Ok(id) => id,
        };
        let verse_id = match parse_fixed_id("verse.verse_id", verse.verse_id.as_str()) {
            Err(error) => {
                return Err(error);
            },
            Ok(id) => id,
        };
        let owner_id = match self.owner_id() {
            Err(error) => {
                return Err(error);
            },
            Ok(id) => id,
        };
        let cohort_id = match parse_fixed_id("verse.cohort_id", verse.cohort_id.as_str()) {
            Err(error) => {
                return Err(error);
            },
            Ok(id) => id,
        };
        let writer_id = match parse_fixed_id("verse.writer_id", verse.writer_id.as_str()) {
            Err(error) => {
                return Err(error);
            },
            Ok(id) => id,
        };
        Ok(
            VerseRuntimeConfig {
                journal_id,
                verse_id,
                owner_id,
                cohort_id,
                writer_id,
                policy: default_chunk_policy(),
                recovery_bound: 8,
                queue_capacity: 256,
            },
        )
    }

    /// What keeps an assignment from running.
    pub open spec fn assignment_runtime_problem(
        &self,
        assignment: AssignmentView,
    ) -> Option<ConfigProblem> {
        if !is_fixed_id(assignment.canon) {
            fixed_id_problem("canon"@, assignment.canon)
        } else if !is_fixed_id(assignment.verse) {
            fixed_id_problem("verse"@, assignment.verse)
        } else if !is_fixed_id(self.node.owner_id@) {
            fixed_id_problem("node.owner_id"@, self.node.owner_id@)
        } else if !is_fixed_id(assignment.cohort_id) {
            fixed_id_problem("cohort_id"@, assignment.cohort_id)
        } else {
            fixed_id_problem("writer_id"@, assignment.writer_id)
        }
    }

    /// Verse runtime config of one assignment.
    pub fn assignment_runtime_config(&self, assignment: &AssignmentConfig) -> (runtime: Result<
        VerseRuntimeConfig,
        ConfigError,
    >)
        ensures
            match runtime {
                Ok(runtime) => {
                    &&& self.assignment_runtime_problem(assignment@) is None
                    &&& runtime.journal_id@ == encode_utf8(assignment@.canon)
                    &&& runtime.verse_id@ == encode_utf8(assignment@.verse)
                    &&& runtime.owner_id@ == encode_utf8(self.node.owner_id@)
                    &&& runtime.cohort_id@ == encode_utf8(assignment@.cohort_id)
                    &&& runtime.writer_id@ == encode_utf8(assignment@.writer_id)
                    &&& runtime.policy == chunk_policy()
                    &&& runtime.recovery_bound == 8
                    &&& runtime.queue_capacity == 256
                },
                Err(error) => self.assignment_runtime_problem(assignment@) == Some(error@),
            },
    {
        let journal_id = match parse_fixed_id("canon", assignment.canon.as_str()) {
            Err(error) => {
                return Err(error);
            },
            Ok(id) => id,
        };
        let verse_id = match parse_fixed_id("verse", assignment.verse.as_str()) {
            Err(error) => {
                return Err(error);
            },
            Ok(id) => id,
        };
        let owner_id = match self.owner_id() {
            Err(error) => {
                return Err(error);
            },
            Ok(id) => id,
        };
        let cohort_id = match parse_fixed_id("cohort_id", assignment.cohort_id.as_str()) {
            Err(error) => {
                return Err(error);
            },
            Ok(id) => id,
        };
        let writer_id = match parse_fixed_id("writer_id", assignment.writer_id.as_str()) {
            Err(error) => {
                return Err(error);
            },
            Ok(id) => id,
        };
        Ok(
            VerseRuntimeConfig {
                journal_id,
                verse_id,
                owner_id,
                cohort_id,
                writer_id,
                policy: default_chunk_policy(),
                recovery_bound: 8,
                queue_capacity: 256,
            },
        )
    }

    /// Advertised writer route for one assignment (not process-wide `node.advertise`).
    pub fn assignment_advertise<'a>(
        &self,
        assignment: &'a AssignmentConfig,
        refusals: &TokenRefusals,
    ) -> (endpoint: Result<&'a str, ConfigError>)
        ensures
            match endpoint {
                Ok(endpoint) => endpoint@ == assignment@.advertise && endpoint_refusal(
                    refusals.endpoints@,
                    assignment@.advertise,
                ) is None,
                Err(error) => match endpoint_refusal(
                    refusals.endpoints@,
                    assignment@.advertise,
                ) {
                    Some(reason) => error@ == ConfigProblem::Invalid(
                        assignment_field(assignment@.id, "advertise"@) + ": "@ + reason,
                    ),
                    None => false,
                },
            },
    {
        match refusal_of(&refusals.endpoints, assignment.advertise.as_str()) {
            None => Ok(assignment.advertise.as_str()),
            Some(reason) => Err(advertise_error(assignment.id.as_str(), reason)),
        }
    }

    /// What keeps an assignment from having a store root.
    pub open spec fn store_root_problem(&self, assignment: AssignmentView) -> Option<
        ConfigProblem,
    > {
        if !is_fixed_id(assignment.canon) {
            fixed_id_problem("canon"@, assignment.canon)
        } else if !is_fixed_id(assignment.verse) {
            fixed_id_problem("verse"@, assignment.verse)
        } else if contains_text(self.store_root(assignment), ".."@) {
            Some(ConfigProblem::Invalid(root_escapes(assignment.id)))
        } else {
            None
        }
    }

    /// The store root of an assignment.
    pub open spec fn store_root(&self, assignment: AssignmentView) -> Seq<char> {
        durable_root(
            self.store.prefix@,
            encode_utf8(assignment.canon),
            encode_utf8(assignment.verse),
        )
    }

    /// Exclusive object-store root for one assignment (Canon/Verse-derived).
    pub fn assignment_store_root(&self, assignment: &AssignmentConfig) -> (root: Result<
        String,
        ConfigError,
    >)
        ensures
            match root {
                Ok(root) => self.store_root_problem(assignment@) is None && root@
                    == self.store_root(assignment@),
                Err(error) => self.store_root_problem(assignment@) == Some(error@),
            },
    {
        let canon = match parse_fixed_id("canon", assignment.canon.as_str()) {
            Err(error) => {
                return Err(error);
            },
            Ok(id) => id,
        };
        let verse = match parse_fixed_id("verse", assignment.verse.as_str()) {
            Err(error) => {
                return Err(error);
            },
            Ok(id) => id,
        };
        let root = assignment_durable_root(self.store.prefix.as_str(), &canon, &verse);
        if text_contains(root.as_str(), "..") {
            return Err(root_escapes_error(assignment.id.as_str()));
        }
        Ok(root)
    }

    /// Single-assignment listener bind.
    pub fn listener_bind(&self) -> (bind: Result<&str, ConfigError>)
        ensures
            match bind {
                Ok(bind) => self.listener is Some && bind@ == self.listener->0.bind@,
                Err(error) => self.listener is None && error@ == ConfigProblem::Invalid(
                    "listener.bind requires single-assignment listener section"@,
                ),
            },
    {
        match &self.listener {
            Some(listener) => Ok(listener.bind.as_str()),
            None => Err(invalid("listener.bind requires single-assignment listener section")),
        }
    }

    /// The store root of a single-assignment node: its prefix without trailing slashes.
    pub fn single_store_root(&self) -> (root: String)
        ensures
            root@ == without_trailing(self.store.prefix@, '/'),
    {
        let chars = chars_of(self.store.prefix.as_str());
        text_of(trim_end_char(chars.as_slice(), '/'))
    }
}

/// How records are gathered into chunks.
#[derive(Debug, Clone, Copy, PartialEq, Eq, Structural)]
pub struct ChunkPolicy {
    pub max_chunk_bytes: usize,
    pub max_record_bytes: usize,
    pub max_chunk_records: usize,
    pub max_chunk_age_secs: u64,
    pub max_buffered_bytes: usize,
    pub max_inflight_chunks: usize,
    pub max_uncommitted_age_secs: u64,
    pub recovery_scan: u64,
}

/// What runs one Canon/Verse.
#[derive(Debug, Clone, Copy, PartialEq, Eq)]
pub struct VerseRuntimeConfig {
    pub journal_id: [u8; 16],
    pub verse_id: [u8; 16],
    pub owner_id: [u8; 16],
    pub cohort_id: [u8; 16],
    pub writer_id: [u8; 16],
    pub policy: ChunkPolicy,
    pub recovery_bound: u64,
    pub queue_capacity: usize,
}

/// The chunk policy of every assignment.
pub open spec fn chunk_policy() -> ChunkPolicy {
    ChunkPolicy {
        max_chunk_bytes: 262144,
        max_record_bytes: 16384,
        max_chunk_records: 1024,
        max_chunk_age_secs: 60,
        max_buffered_bytes: 524288,
        max_inflight_chunks: 1,
        max_uncommitted_age_secs: 60,
        recovery_scan: 8,
    }
}

/// The chunk policy of every assignment.
///
/// Sized so that submissions of up to a thousand records with modest payloads
/// are not rejected as too large.
pub fn default_chunk_policy() -> (policy: ChunkPolicy)
    ensures
        policy == chunk_policy(),
{
    ChunkPolicy {
        max_chunk_bytes: 256 * 1024,
        max_record_bytes: 16 * 1024,
        max_chunk_records: 1024,
        max_chunk_age_secs: 60,
        max_buffered_bytes: 512 * 1024,
        max_inflight_chunks: 1,
        max_uncommitted_age_secs: 60,
        recovery_scan: 8,
    }
}

// Laws.

/// The store root follows from Canon and Verse: renaming an assignment, or
/// changing anything else of it, does not move it.
pub proof fn law_root_ignores_the_id(
    config: &ScriptureConfig,
    before: AssignmentView,
    after: AssignmentView,
)
    requires
        before.canon == after.canon,
        before.verse == after.verse,
    ensures
        config.store_root(before) == config.store_root(after),
{
}

/// Different Canon/Verse pairs have different store roots.
pub proof fn law_roots_are_exclusive(
    prefix: Seq<char>,
    left: (Seq<u8>, Seq<u8>),
    right: (Seq<u8>, Seq<u8>),
)
    requires
        left.0.len() == 16,
        left.1.len() == 16,
        right.0.len() == 16,
        right.1.len() == 16,
        durable_root(prefix, left.0, left.1) == durable_root(prefix, right.0, right.1),
    ensures
        left == right,
{
    let head = deployment_prefix(prefix) + "/cv/"@;
    let one = durable_root(prefix, left.0, left.1);
    let other = durable_root(prefix, right.0, right.1);
    let start = head.len() as int;
    reveal_strlit("/");
    assert("/"@.len() == 1);
    assert(one.subrange(start, start + 32) =~= hex(left.0));
    assert(other.subrange(start, start + 32) =~= hex(right.0));
    assert(one.subrange(start + 33, start + 65) =~= hex(left.1));
    assert(other.subrange(start + 33, start + 65) =~= hex(right.1));
    law_hex_is_injective(left.0, right.0);
    law_hex_is_injective(left.1, right.1);
}

/// A store root never leaves its deployment prefix.
pub proof fn law_root_stays_under_the_prefix(prefix: Seq<char>, canon: Seq<u8>, verse: Seq<u8>)
    ensures
        ({
            let root = durable_root(prefix, canon, verse);
            let kept = deployment_prefix(prefix);
            &&& root.len() > kept.len()
            &&& root.take(kept.len() as int) == kept
            &&& root[kept.len() as int] == '/'
        }),
{
    let root = durable_root(prefix, canon, verse);
    let kept = deployment_prefix(prefix);
    reveal_strlit("/cv/");
    assert(root.take(kept.len() as int) =~= kept);
    assert(root[kept.len() as int] == "/cv/"@[0]);
}

/// In a config without problems each assignment runs, has a store root, and
/// shares neither id, listener, route nor Canon/Verse with another.
pub proof fn law_valid_assignments_run(
    config: &ScriptureConfig,
    refusals: TokenRefusals,
    left: int,
    right: int,
)
    requires
        config.problem(refusals) is None,
        config.multi(),
        0 <= left < right < config.scribe->0.assignments@.len(),
    ensures
        ({
            let assignments = assignments_view(config.scribe->0.assignments@);
            &&& config.assignment_runtime_problem(assignments[left]) is None
            &&& config.store_root_problem(assignments[left]) is None
            &&& config.assignment_runtime_problem(assignments[right]) is None
            &&& config.store_root_problem(assignments[right]) is None
            &&& assignments[left].id != assignments[right].id
            &&& assignments[left].bind != assignments[right].bind
            &&& assignments[left].advertise != assignments[right].advertise
            &&& assignments[left].canon != assignments[right].canon || assignments[left].verse
                != assignments[right].verse
        }),
{
    let assignments = assignments_view(config.scribe->0.assignments@);
    let prefix = config.store.prefix@;
    let refused = refusals.endpoints@;
    assert(assignments_problem(prefix, assignments, 0, refused) is None);
    lemma_no_problem_at(prefix, assignments, 0, left, refused);
    lemma_no_problem_at(prefix, assignments, 0, right, refused);
    assert(!id_seen(assignments, right));
    assert(!bind_seen(assignments, right));
    assert(!advertise_seen(assignments, right));
    assert(!key_seen(assignments, right));
}

proof fn lemma_no_problem_at(
    prefix: Seq<char>,
    assignments: Seq<AssignmentView>,
    from: int,
    at: int,
    refused: Seq<(String, String)>,
)
    requires
        0 <= from <= at < assignments.len(),
        assignments_problem(prefix, assignments, from, refused) is None,
    ensures
        assignment_problem(prefix, assignments, at, refused) is None,
    decreases at - from,
{
    if from < at {
        lemma_no_problem_at(prefix, assignments, from + 1, at, refused);
    }
}

/// In a config without problems each assignment runs, has a route and a store root.
pub proof fn lemma_valid_assignment(config: &ScriptureConfig, refusals: TokenRefusals, at: int)
    requires
        config.problem(refusals) is None,
        config.multi(),
        0 <= at < config.scribe->0.assignments@.len(),
    ensures
        ({
            let assignment = assignments_view(config.scribe->0.assignments@)[at];
            &&& config.assignment_runtime_problem(assignment) is None
            &&& endpoint_refusal(refusals.endpoints@, assignment.advertise) is None
            &&& config.store_root_problem(assignment) is None
        }),
{
    let assignments = assignments_view(config.scribe->0.assignments@);
    let prefix = config.store.prefix@;
    let refused = refusals.endpoints@;
    assert(assignments_problem(prefix, assignments, 0, refused) is None);
    lemma_no_problem_at(prefix, assignments, 0, at, refused);
}

/// In a single-assignment config without problems the verse runs and the
/// listener is there.
pub proof fn law_valid_single_runs(config: &ScriptureConfig, refusals: TokenRefusals)
    requires
        config.problem(refusals) is None,
        !config.multi(),
    ensures
        config.verse_runtime_problem() is None,
        config.listener is Some,
{
}

} // verus!
