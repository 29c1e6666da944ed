//! The Serving Authority register kept in a Kubernetes custom resource.
//!
//! Kubernetes is a durable conditional register for Serving Authority only. It is
//! not a journal, health, readiness, a Lease, or an election mechanism. Authority
//! is the base64 `spec.record` of a dedicated `ServingAuthority` object; its display
//! fields are copies for people, derived from the record and checked on every read.
//!
//! The API calls are made outside. This module says which object is asked for or
//! written, and what every answer means.
use crate::ids::{same_identity, JournalId, VerseId};
use crate::text::{
    char_index, chars_of, decimal, decimal_text, find_char, hex, hex_encode, law_hex_digits,
    law_decimal_is_injective, law_hex_is_injective, lemma_char_index, optional, push_hex, quote, quoted, same_text,
    text_from_utf8,
};
use crate::text_laws::law_char_index_is_the_first;
use base64::Engine;
use vstd::prelude::*;
use vstd::slice::slice_to_vec;
use vstd::utf8::{decode_utf8, encode_utf8, valid_utf8};

verus! {

/// Domain separation context for Serving Authority object-name digests.
pub const NAME_DOMAIN: &'static str = "scripture.dev/serving-authority/object-name/v1";

/// Canonical `spec.recordFormat` value for v1 payloads.
pub const RECORD_FORMAT_V1: &'static str = "scripture-serving-authority-v1";

// Keys and records.

/// The Journal and Verse that an authority record is about.
#[derive(Debug, Clone, Copy, PartialEq, Eq, Hash)]
pub struct AuthorityKey {
    pub journal_id: JournalId,
    pub verse_id: VerseId,
}

/// What a key is, apart from its representation.
pub struct KeyView {
    pub journal: Seq<u8>,
    pub verse: Seq<u8>,
}

impl View for AuthorityKey {
    type V = KeyView;

    open spec fn view(&self) -> KeyView {
        KeyView { journal: self.journal_id@, verse: self.verse_id@ }
    }
}

impl AuthorityKey {
    /// Whether both keys name the same Journal and Verse.
    pub fn same(&self, other: &AuthorityKey) -> (same: bool)
        ensures
            same == (self@ == other@),
    {
        same_identity(&self.journal_id.bytes, &other.journal_id.bytes) && same_identity(
            &self.verse_id.bytes,
            &other.verse_id.bytes,
        )
    }
}

/// Who may write a Verse.
#[derive(Debug, Clone, Copy, PartialEq, Eq, Structural)]
pub enum AuthorityState {
    Unassigned,
    Transitioning { next_writer_term: u64 },
    Serving { writer_term: u64 },
    ReconciliationRequired { next_writer_term: u64 },
}

/// A decoded canonical authority record, as far as the register reads it.
#[derive(Debug, Clone, Copy, PartialEq, Eq)]
pub struct ServingAuthorityRecord {
    pub key: AuthorityKey,
    pub state: AuthorityState,
}

impl ServingAuthorityRecord {
    /// The record of a key in a state.
    pub fn new(key: AuthorityKey, state: AuthorityState) -> (record: Self)
        ensures
            record == (ServingAuthorityRecord { key, state }),
    {
        ServingAuthorityRecord { key, state }
    }
}

// Object names.

/// What `blake3::derive_key` gives for a context and key material.
pub uninterp spec fn derived_key(context: Seq<char>, material: Seq<u8>) -> Seq<u8>;

/// `blake3::derive_key`: the thirty-two bytes derived from the material in the
/// context, the same whenever both are the same.
#[verifier::external_body]
fn derive_key(context: &str, material: &[u8]) -> (key: [u8; 32])
    ensures
        key@ == derived_key(context@, material@),
{
    blake3::derive_key(context, material)
}

/// The bytes hashed for the object name: Journal, then Verse.
pub open spec fn key_bytes(key: KeyView) -> Seq<u8> {
    key.journal + key.verse
}

/// Fixed authority-key bytes hashed for the object name: Journal, then Verse.
pub fn authority_key_fixed_bytes(key: &AuthorityKey) -> (bytes: [u8; 32])
    ensures
        bytes@ == key_bytes(key@),
{
    let mut bytes: [u8; 32] = [0u8; 32];
    let mut at: usize = 0;
    while at < 16
        invariant
            at <= 16,
            forall|i: int| 0 <= i < at ==> bytes@[i] == key.journal_id.bytes@[i],
            forall|i: int|
                0 <= i < at ==> #[trigger] bytes@[16 + i] == key.verse_id.bytes@[i],
        decreases 16 - at,
    {
        bytes[at] = key.journal_id.bytes[at];
        bytes[16 + at] = key.verse_id.bytes[at];
        at += 1;
    }
    assert forall|i: int| 0 <= i < 32 implies bytes@[i] == key_bytes(key@)[i] by {
        if i >= 16 {
            assert(bytes@[16 + (i - 16)] == key.verse_id.bytes@[i - 16]);
        }
    }
    assert(bytes@ =~= key_bytes(key@));
    bytes
}

/// The object name of a digest: `sa-` and the first twenty bytes in hexadecimal.
pub open spec fn name_of_digest(digest: Seq<u8>) -> Seq<char> {
    "sa-"@ + hex(digest.take(20))
}

/// The object name of a key.
pub open spec fn object_name_of(key: KeyView) -> Seq<char> {
    name_of_digest(derived_key(NAME_DOMAIN@, key_bytes(key)))
}

/// The object name of a digest.
pub fn digest_name(digest: &[u8; 32]) -> (name: String)
    ensures
        name@ == name_of_digest(digest@),
{
    let mut name = String::new();
    name.append("sa-");
    push_hex(&mut name, &digest.as_slice()[0..20]);
    assert(name@ =~= name_of_digest(digest@));
    name
}

/// Derives a DNS-1123 subdomain name uniquely naming one AuthorityKey object.
///
/// Format: `sa-` + lowercase hex of the first 20 digest bytes (43 characters).
pub fn authority_object_name(key: &AuthorityKey) -> (name: String)
    ensures
        name@ == object_name_of(key@),
        is_dns_name(name@),
        name@.len() == 43,
        name@.take(3) == "sa-"@,
        forall|i: int| 3 <= i < 43 ==> is_hex_digit(#[trigger] name@[i]),
{
    let bytes = authority_key_fixed_bytes(key);
    let digest = derive_key(NAME_DOMAIN, bytes.as_slice());
    let name = digest_name(&digest);
    proof {
        law_digest_names_are_dns_names(digest@);
    }
    name
}

/// Whether the character is a lower-case hexadecimal digit.
pub open spec fn is_hex_digit(c: char) -> bool {
    '0' <= c <= '9' || 'a' <= c <= 'f'
}

/// Whether the character is a lower-case letter or a digit.
pub open spec fn is_name_end(c: char) -> bool {
    'a' <= c <= 'z' || '0' <= c <= '9'
}

/// Whether the text is a DNS label (RFC 1123): up to 63 lower-case letters, digits and
/// hyphens, with no hyphen at either end.
pub open spec fn is_dns_label(label: Seq<char>) -> bool {
    &&& 1 <= label.len() <= 63
    &&& is_name_end(label[0])
    &&& is_name_end(label.last())
    &&& forall|i: int|
        0 <= i < label.len() ==> is_name_end(#[trigger] label[i]) || label[i] == '-'
}

/// Whether the text is made of DNS labels with single dots between them.
pub open spec fn is_dotted_labels(name: Seq<char>) -> bool
    decreases name.len(),
{
    let dot = char_index(name, '.');
    if dot >= name.len() {
        is_dns_label(name)
    } else {
        is_dns_label(name.take(dot as int)) && is_dotted_labels(name.skip(dot as int + 1))
    }
}

/// Whether the text is a Kubernetes DNS subdomain (RFC 1123): DNS labels joined by dots,
/// up to 253 characters in all.
pub open spec fn is_dns_name(name: Seq<char>) -> bool {
    name.len() <= 253 && is_dotted_labels(name)
}

fn name_end(c: char) -> (end: bool)
    ensures
        end == is_name_end(c),
{
    ('a' <= c && c <= 'z') || ('0' <= c && c <= '9')
}

fn dns_label(label: &[char]) -> (valid: bool)
    ensures
        valid == is_dns_label(label@),
{
    if label.len() == 0 || label.len() > 63 {
        return false;
    }
    if !name_end(label[0]) || !name_end(label[label.len() - 1]) {
        return false;
    }
    let mut at: usize = 0;
    while at < label.len()
        invariant
            at <= label@.len(),
            forall|i: int|
                0 <= i < at ==> is_name_end(#[trigger] label@[i]) || label@[i] == '-',
        decreases label@.len() - at,
    {
        if !name_end(label[at]) && label[at] != '-' {
            assert(!is_name_end(label@[at as int]));
            return false;
        }
        at += 1;
    }
    true
}

/// Returns true when `name` is a valid Kubernetes DNS subdomain (RFC 1123).
pub fn is_dns1123_subdomain(name: &str) -> (valid: bool)
    ensures
        valid == is_dns_name(name@),
{
    let chars = chars_of(name);
    if chars.len() > 253 {
        return false;
    }
    let mut rest: &[char] = chars.as_slice();
    let mut dot: usize = find_char(rest, '.');
    while dot < rest.len()
        invariant
            dot == char_index(rest@, '.'),
            dot <= rest@.len(),
            is_dotted_labels(rest@) == is_dotted_labels(name@),
            name@.len() <= 253,
        decreases rest@.len(),
    {
        if !dns_label(&rest[0..dot]) {
            assert(rest@.subrange(0, dot as int) =~= rest@.take(dot as int));
            return false;
        }
        assert(rest@.subrange(0, dot as int) =~= rest@.take(dot as int));
        assert(rest@.subrange(dot + 1, rest@.len() as int) =~= rest@.skip(dot + 1));
        rest = &rest[dot + 1..rest.len()];
        dot = find_char(rest, '.');
    }
    dns_label(rest)
}

// The custom resource.

/// Narrow display copies derived from the canonical record.
#[derive(Debug, PartialEq, Eq)]
pub struct ServingAuthorityDisplay {
    /// Journal identity (hex of fixed bytes).
    pub journal: String,
    /// Verse identity (hex of fixed bytes).
    pub verse: String,
    /// Authority state label.
    pub state: String,
    /// Active or next writer term, or empty when unassigned.
    pub writer_term: String,
}

/// What display copies are, apart from their representation.
pub struct DisplayView {
    pub journal: Seq<char>,
    pub verse: Seq<char>,
    pub state: Seq<char>,
    pub writer_term: Seq<char>,
}

impl View for ServingAuthorityDisplay {
    type V = DisplayView;

    open spec fn view(&self) -> DisplayView {
        DisplayView {
            journal: self.journal@,
            verse: self.verse@,
            state: self.state@,
            writer_term: self.writer_term@,
        }
    }
}

/// Spec for one Serving Authority register object.
#[derive(Debug, PartialEq, Eq)]
pub struct ServingAuthoritySpec {
    /// Version of the base64-encoded canonical authority record.
    pub record_format: String,
    /// Base64-encoded canonical record bytes.
    pub record: String,
    /// Advisory copies for kubectl; never authoritative.
    pub display: Option<ServingAuthorityDisplay>,
}

/// One register object with the metadata that the register reads and writes.
#[derive(Debug, PartialEq, Eq)]
pub struct ServingAuthority {
    pub name: Option<String>,
    pub namespace: Option<String>,
    pub resource_version: Option<String>,
    pub spec: ServingAuthoritySpec,
}

/// The state label and writer term of a state.
pub open spec fn state_words(state: AuthorityState) -> (Seq<char>, Seq<char>) {
    match state {
        AuthorityState::Unassigned => ("Unassigned"@, Seq::empty()),
        AuthorityState::Transitioning { next_writer_term } => (
            "Transitioning"@,
            decimal(next_writer_term as nat),
        ),
        AuthorityState::Serving { writer_term } => ("Serving"@, decimal(writer_term as nat)),
        AuthorityState::ReconciliationRequired { next_writer_term } => (
            "ReconciliationRequired"@,
            decimal(next_writer_term as nat),
        ),
    }
}

/// The display copies of a record.
pub open spec fn display_of(record: ServingAuthorityRecord) -> DisplayView {
    DisplayView {
        journal: hex(record.key@.journal),
        verse: hex(record.key@.verse),
        state: state_words(record.state).0,
        writer_term: state_words(record.state).1,
    }
}

/// Builds display fields from a decoded canonical record.
pub fn display_from_record(record: &ServingAuthorityRecord) -> (display: ServingAuthorityDisplay)
    ensures
        display@ == display_of(*record),
{
    let (state, writer_term) = match record.state {
        AuthorityState::Unassigned => ("Unassigned", String::new()),
        AuthorityState::Transitioning { next_writer_term } => (
            "Transitioning",
            decimal_text(next_writer_term),
        ),
        AuthorityState::Serving { writer_term } => ("Serving", decimal_text(writer_term)),
        AuthorityState::ReconciliationRequired { next_writer_term } => (
            "ReconciliationRequired",
            decimal_text(next_writer_term),
        ),
    };
    let display = ServingAuthorityDisplay {
        journal: hex_encode(record.key.journal_id.bytes.as_slice()),
        verse: hex_encode(record.key.verse_id.bytes.as_slice()),
        state: state.to_owned(),
        writer_term,
    };
    assert(display@.writer_term =~= display_of(*record).writer_term);
    display
}

/// Whether two displays say the same.
pub fn displays_agree(a: &ServingAuthorityDisplay, b: &ServingAuthorityDisplay) -> (agree: bool)
    ensures
        agree == (a@ == b@),
{
    same_text(a.journal.as_str(), b.journal.as_str()) && same_text(
        a.verse.as_str(),
        b.verse.as_str(),
    ) && same_text(a.state.as_str(), b.state.as_str()) && same_text(
        a.writer_term.as_str(),
        b.writer_term.as_str(),
    )
}

// Base64.

/// How the standard base64 engine writes some bytes.
pub uninterp spec fn base64_text(bytes: Seq<u8>) -> Seq<char>;

/// What the standard base64 engine reads out of a text, or what its error says.
pub uninterp spec fn base64_bytes(text: Seq<char>) -> Result<Seq<u8>, Seq<char>>;

/// Most bytes that are written in base64: the text must fit in memory.
pub open spec fn base64_limit() -> int {
    isize::MAX / 2
}

/// `Engine::encode` of `base64::engine::general_purpose::STANDARD`: the bytes in
/// base64 with padding, which the same engine reads back as these bytes.
#[verifier::external_body]
fn base64_encode(bytes: &[u8]) -> (text: String)
    requires
        bytes@.len() <= base64_limit(),
    ensures
        text@ == base64_text(bytes@),
        base64_bytes(text@) is Ok && base64_bytes(text@)->Ok_0 == bytes@,
{
    base64::engine::general_purpose::STANDARD.encode(bytes)
}

/// `Engine::decode` of `base64::engine::general_purpose::STANDARD`: the bytes that
/// the text stands for, or its error in words.
#[verifier::external_body]
fn base64_decode(text: &str) -> (bytes: Result<Vec<u8>, String>)
    ensures
        match bytes {
            Ok(bytes) => base64_bytes(text@) is Ok && base64_bytes(text@)->Ok_0 == bytes@,
            Err(error) => base64_bytes(text@) is Err && base64_bytes(text@)->Err_0 == error@,
        },
{
    let decoded = base64::engine::general_purpose::STANDARD.decode(text.as_bytes());
    decoded.map_err(|error| error.to_string())
}

// Errors.

/// Classified Kubernetes register errors before they enter store mapping.
#[derive(Debug, PartialEq, Eq)]
pub enum TransportError {
    /// Object does not exist.
    NotFound,
    /// HTTP 409 create race or stale resourceVersion replace.
    Conflict,
    /// Write dispatch outcome is unknown (timeout/connection loss after send).
    Indeterminate(String),
    /// API refusal, 5xx on read, auth, or other clear failure.
    Unavailable(String),
}

impl TransportError {
    /// What the error says.
    pub open spec fn words(&self) -> Seq<char> {
        match self {
            TransportError::NotFound => "ServingAuthority object not found"@,
            TransportError::Conflict => "ServingAuthority conditional write conflict"@,
            TransportError::Indeterminate(source) => {
                "ServingAuthority write outcome indeterminate: "@ + source@
            },
            TransportError::Unavailable(source) => "ServingAuthority API unavailable: "@ + source@,
        }
    }

    /// The error in words.
    pub fn message(&self) -> (message: String)
        ensures
            message@ == self.words(),
    {
        let mut message = String::new();
        match self {
            TransportError::NotFound => {
                message.append("ServingAuthority object not found");
            },
            TransportError::Conflict => {
                message.append("ServingAuthority conditional write conflict");
            },
            TransportError::Indeterminate(source) => {
                message.append("ServingAuthority write outcome indeterminate: ");
                message.append(source.as_str());
            },
            TransportError::Unavailable(source) => {
                message.append("ServingAuthority API unavailable: ");
                message.append(source.as_str());
            },
        }
        assert(message@ =~= self.words());
        message
    }
}

/// How a failed read is classified: `status` is the API status code where the API
/// answered at all, `source` what the client said.
pub fn map_read_error(status: Option<u16>, source: String) -> (error: TransportError)
    ensures
        error == (if status == Some(404u16) {
            TransportError::NotFound
        } else {
            TransportError::Unavailable(source)
        }),
{
    match status {
        Some(404) => TransportError::NotFound,
        _ => TransportError::Unavailable(source),
    }
}

/// How a failed write is classified.
pub open spec fn write_error(status: Option<u16>, source: String) -> TransportError {
    match status {
        Some(code) => if code == 409 {
            TransportError::Conflict
        } else if 400 <= code < 500 {
            TransportError::Unavailable(source)
        } else {
            TransportError::Indeterminate(source)
        },
        None => TransportError::Indeterminate(source),
    }
}

/// How a failed write is classified. Timeouts, connection resets, and 5xx after
/// dispatch cannot prove whether the write landed.
pub fn map_write_error(status: Option<u16>, source: String) -> (error: TransportError)
    ensures
        error == write_error(status, source),
{
    match status {
        Some(code) => if code == 409 {
            TransportError::Conflict
        } else if 400 <= code && code < 500 {
            TransportError::Unavailable(source)
        } else {
            TransportError::Indeterminate(source)
        },
        None => TransportError::Indeterminate(source),
    }
}

/// Why the register gave no answer.
#[derive(Debug, PartialEq, Eq)]
pub enum ServingAuthorityStoreError {
    /// What is stored, or was to be stored, is not an authority record of the key.
    MalformedPayload { message: String },
    /// A write may or may not have landed.
    Indeterminate(String),
    /// The register could not be asked.
    Unavailable(String),
}

/// What an error is, apart from its representation.
pub enum StoreErrorView {
    MalformedPayload(Seq<char>),
    Indeterminate(Seq<char>),
    Unavailable(Seq<char>),
}

impl View for ServingAuthorityStoreError {
    type V = StoreErrorView;

    open spec fn view(&self) -> StoreErrorView {
        match self {
            ServingAuthorityStoreError::MalformedPayload { message } => {
                StoreErrorView::MalformedPayload(message@)
            },
            ServingAuthorityStoreError::Indeterminate(source) => {
                StoreErrorView::Indeterminate(source@)
            },
            ServingAuthorityStoreError::Unavailable(source) => StoreErrorView::Unavailable(
                source@,
            ),
        }
    }
}

fn malformed(message: &str) -> (error: ServingAuthorityStoreError)
    ensures
        error@ == StoreErrorView::MalformedPayload(message@),
{
    ServingAuthorityStoreError::MalformedPayload { message: message.to_owned() }
}

/// Configuration errors when constructing the Kubernetes store.
#[derive(Debug, PartialEq, Eq)]
pub enum StoreConfigError {
    /// Namespace must be non-empty.
    EmptyNamespace,
    /// Optional object name must be DNS-1123.
    InvalidObjectName { name: String },
    /// Kubernetes client construction failed.
    Client(String),
}

impl StoreConfigError {
    /// What the error says.
    pub open spec fn words(&self) -> Seq<char> {
        match self {
            StoreConfigError::EmptyNamespace => "ha.authority_store.namespace must be non-empty"@,
            StoreConfigError::InvalidObjectName { name } => "ha.authority_store.object_name "@
                + quoted(name@) + " is not a DNS-1123 subdomain"@,
            StoreConfigError::Client(source) => "kubernetes client unavailable: "@ + source@,
        }
    }

    /// The error in words.
    pub fn message(&self) -> (message: String)
        ensures
            message@ == self.words(),
    {
        let mut message = String::new();
        match self {
            StoreConfigError::EmptyNamespace => {
                message.append("ha.authority_store.namespace must be non-empty");
            },
            StoreConfigError::InvalidObjectName { name } => {
                message.append("ha.authority_store.object_name ");
                message.append(quote(name.as_str()).as_str());
                message.append(" is not a DNS-1123 subdomain");
            },
            StoreConfigError::Client(source) => {
                message.append("kubernetes client unavailable: ");
                message.append(source.as_str());
            },
        }
        assert(message@ =~= self.words());
        message
    }
}

// The register.

/// What a conditional write came to.
#[derive(Debug, Clone, Copy, PartialEq, Eq, Structural)]
pub enum CasOutcome {
    Applied,
    Conflict,
}

/// A record as observed, with the version of the object that held it.
#[derive(Debug, PartialEq, Eq)]
pub struct AuthoritySnapshot {
    /// The opaque resourceVersion, byte for byte.
    pub version: Vec<u8>,
    pub record: ServingAuthorityRecord,
}

/// A write to perform.
#[derive(Debug, PartialEq, Eq)]
pub enum AuthorityWrite {
    /// Create the object; it must not exist.
    Create { object: ServingAuthority },
    /// Replace the object of that name; its resourceVersion must be the object's.
    Replace { name: String, object: ServingAuthority },
}

/// A stored object whose metadata and encoding passed, before its record is decoded.
#[derive(Debug, PartialEq, Eq)]
pub struct OpenedObject {
    pub resource_version: String,
    /// The canonical record, still encoded.
    pub record: Vec<u8>,
    pub display: Option<ServingAuthorityDisplay>,
}

/// What an opened object is, apart from its representation.
pub struct OpenedView {
    pub resource_version: Seq<char>,
    pub record: Seq<u8>,
    pub display: Option<DisplayView>,
}

/// An optional display by its view.
pub open spec fn display_view(display: Option<ServingAuthorityDisplay>) -> Option<DisplayView> {
    match display {
        Some(display) => Some(display@),
        None => None,
    }
}

impl View for OpenedObject {
    type V = OpenedView;

    open spec fn view(&self) -> OpenedView {
        OpenedView {
            resource_version: self.resource_version@,
            record: self.record@,
            display: display_view(self.display),
        }
    }
}

/// What is found in an object that should be named `name` in `namespace`.
pub open spec fn opened(object: ServingAuthority, name: Seq<char>, namespace: Seq<char>) -> Result<
    OpenedView,
    Seq<char>,
> {
    if optional(object.name) != Some(name) {
        Err("ServingAuthority metadata.name does not match the requested AuthorityKey"@)
    } else if optional(object.namespace) != Some(namespace) {
        Err("ServingAuthority metadata.namespace does not match the configured namespace"@)
    } else if object.resource_version is None {
        Err("ServingAuthority missing metadata.resourceVersion"@)
    } else if object.spec.record_format@ != RECORD_FORMAT_V1@ {
        Err(
            "unsupported recordFormat "@ + quoted(object.spec.record_format@) + "; expected "@
                + RECORD_FORMAT_V1@,
        )
    } else {
        match base64_bytes(object.spec.record@) {
            Err(error) => Err("invalid base64 record: "@ + error),
            Ok(record) => Ok(
                OpenedView {
                    resource_version: object.resource_version->0@,
                    record,
                    display: display_view(object.spec.display),
                },
            ),
        }
    }
}

/// What is wrong with a decoded record beside the display that came with it, if
/// anything is.
pub open spec fn record_fault(
    record: ServingAuthorityRecord,
    key: KeyView,
    display: Option<DisplayView>,
) -> Option<Seq<char>> {
    if record.key@ != key {
        Some("record AuthorityKey does not match observe/CAS key"@)
    } else if display is None {
        Some("ServingAuthority is missing required derived spec.display"@)
    } else if display->0 != display_of(record) {
        Some("spec.display disagrees with decoded canonical record"@)
    } else {
        None
    }
}

/// What an opened object and its decoded record come to.
pub open spec fn snapshot_of(
    opened: OpenedView,
    decoded: Result<ServingAuthorityRecord, String>,
    key: KeyView,
    snapshot: Result<AuthoritySnapshot, ServingAuthorityStoreError>,
) -> bool {
    match decoded {
        Err(error) => snapshot matches Err(found) && found@ == StoreErrorView::MalformedPayload(
            error@,
        ),
        Ok(record) => match record_fault(record, key, opened.display) {
            Some(fault) => snapshot matches Err(found) && found@
                == StoreErrorView::MalformedPayload(fault),
            None => snapshot matches Ok(snapshot) && snapshot.record == record
                && snapshot.version@ == encode_utf8(opened.resource_version),
        },
    }
}

/// Whether a spec holds a record in its encoded form.
pub open spec fn carries(
    spec: ServingAuthoritySpec,
    record: ServingAuthorityRecord,
    encoded: Seq<u8>,
) -> bool {
    &&& spec.record_format@ == RECORD_FORMAT_V1@
    &&& spec.record@ == base64_text(encoded)
    &&& base64_bytes(spec.record@) == Ok::<_, Seq<char>>(encoded)
    &&& display_view(spec.display) == Some(display_of(record))
}

/// What a failed read means; a missing object is no failure.
pub open spec fn read_failure(error: TransportError) -> StoreErrorView {
    match error {
        TransportError::Indeterminate(source) | TransportError::Unavailable(source) => {
            StoreErrorView::Unavailable(source@)
        },
        _ => StoreErrorView::Unavailable("unexpected conflict on read"@),
    }
}

/// What a failed write means.
pub open spec fn write_failure(error: TransportError) -> Result<CasOutcome, StoreErrorView> {
    match error {
        TransportError::Conflict | TransportError::NotFound => Ok(CasOutcome::Conflict),
        TransportError::Indeterminate(source) => Err(StoreErrorView::Indeterminate(source@)),
        TransportError::Unavailable(source) => Err(StoreErrorView::Unavailable(source@)),
    }
}

/// Durable Kubernetes CRD register for one Scripture authority domain namespace.
#[derive(Debug)]
pub struct KubernetesServingAuthorityStore<T> {
    pub transport: T,
    pub namespace: String,
    /// When set, every key must derive exactly this object name.
    pub object_name_override: Option<String>,
}

impl<T> KubernetesServingAuthorityStore<T> {
    /// A store over a transport.
    pub fn from_transport(
        transport: T,
        namespace: String,
        object_name_override: Option<String>,
    ) -> (store: Result<Self, StoreConfigError>)
        ensures
            match store {
                Ok(store) => {
                    &&& namespace@.len() > 0
                    &&& object_name_override matches Some(name) ==> is_dns_name(name@)
                    &&& store == (KubernetesServingAuthorityStore {
                        transport,
                        namespace,
                        object_name_override,
                    })
                },
                Err(StoreConfigError::EmptyNamespace) => namespace@.len() == 0,
                Err(StoreConfigError::InvalidObjectName { name }) => {
                    &&& namespace@.len() > 0
                    &&& optional(object_name_override) == Some(name@)
                    &&& !is_dns_name(name@)
                },
                Err(StoreConfigError::Client(_)) => false,
            },
    {
        if chars_of(namespace.as_str()).len() == 0 {
            return Err(StoreConfigError::EmptyNamespace);
        }
        if let Some(name) = &object_name_override {
            if !is_dns1123_subdomain(name.as_str()) {
                return Err(StoreConfigError::InvalidObjectName { name: name.clone() });
            }
        }
        Ok(KubernetesServingAuthorityStore { transport, namespace, object_name_override })
    }

    /// The name of a key's object, or what is wrong with the configured one.
    pub open spec fn named(&self, key: KeyView) -> Result<Seq<char>, Seq<char>> {
        let derived = object_name_of(key);
        match self.object_name_override {
            Some(configured) if configured@ != derived => Err(
                "authority_store.object_name "@ + quoted(configured@)
                    + " does not match deterministic name "@ + quoted(derived)
                    + " for AuthorityKey"@,
            ),
            _ => Ok(derived),
        }
    }

    /// The name of a key's object; a configured name must be exactly that.
    pub fn object_name(&self, key: &AuthorityKey) -> (name: Result<
        String,
        ServingAuthorityStoreError,
    >)
        ensures
            match name {
                Ok(name) => self.named(key@) == Ok::<_, Seq<char>>(name@),
                Err(error) => error@ matches StoreErrorView::MalformedPayload(message)
                    && self.named(key@) == Err::<Seq<char>, _>(message),
            },
    {
        let derived = authority_object_name(key);
        match &self.object_name_override {
            None => Ok(derived),
            Some(configured) => {
                if same_text(configured.as_str(), derived.as_str()) {
                    return Ok(derived);
                }
                let mut message = String::new();
                message.append("authority_store.object_name ");
                message.append(quote(configured.as_str()).as_str());
                message.append(" does not match deterministic name ");
                message.append(quote(derived.as_str()).as_str());
                message.append(" for AuthorityKey");
                assert(message@ =~= "authority_store.object_name "@ + quoted(configured@)
                    + " does not match deterministic name "@ + quoted(derived@)
                    + " for AuthorityKey"@);
                Err(ServingAuthorityStoreError::MalformedPayload { message })
            },
        }
    }

    /// The spec that stores a record; `encoded` is its canonical form, or why it has
    /// none.
    pub fn build_spec(record: &ServingAuthorityRecord, encoded: Result<Vec<u8>, String>) -> (spec:
        Result<ServingAuthoritySpec, ServingAuthorityStoreError>)
        requires
            encoded matches Ok(bytes) ==> bytes@.len() <= base64_limit(),
        ensures
            match encoded {
                Ok(bytes) => spec matches Ok(spec) && carries(spec, *record, bytes@),
                Err(error) => spec matches Err(found) && found@
                    == StoreErrorView::MalformedPayload(error@),
            },
    {
        match encoded {
            Ok(bytes) => Ok(
                ServingAuthoritySpec {
                    record_format: RECORD_FORMAT_V1.to_owned(),
                    record: base64_encode(bytes.as_slice()),
                    display: Some(display_from_record(record)),
                },
            ),
            Err(error) => Err(ServingAuthorityStoreError::MalformedPayload { message: error }),
        }
    }

    /// Checks an object's metadata and format, and takes the record out of base64.
    pub fn open_object(&self, expected_name: &str, object: ServingAuthority) -> (found: Result<
        OpenedObject,
        ServingAuthorityStoreError,
    >)
        ensures
            match found {
                Ok(found) => opened(object, expected_name@, self.namespace@) == Ok::<_, Seq<char>>(
                    found@,
                ),
                Err(error) => error@ matches StoreErrorView::MalformedPayload(message) && opened(
                    object,
                    expected_name@,
                    self.namespace@,
                ) == Err::<OpenedView, _>(message),
            },
    {
        let named = match &object.name {
            Some(name) => same_text(name.as_str(), expected_name),
            None => false,
        };
        if !named {
            return Err(
                malformed(
                    "ServingAuthority metadata.name does not match the requested AuthorityKey",
                ),
            );
        }
        let placed = match &object.namespace {
            Some(namespace) => same_text(namespace.as_str(), self.namespace.as_str()),
            None => false,
        };
        if !placed {
            return Err(
                malformed(
                    "ServingAuthority metadata.namespace does not match the configured namespace",
                ),
            );
        }
        let resource_version = match object.resource_version {
            Some(version) => version,
            None => {
                return Err(malformed("ServingAuthority missing metadata.resourceVersion"));
            },
        };
        if !same_text(object.spec.record_format.as_str(), RECORD_FORMAT_V1) {
            let mut message = String::new();
            message.append("unsupported recordFormat ");
            message.append(quote(object.spec.record_format.as_str()).as_str());
            message.append("; expected ");
            message.append(RECORD_FORMAT_V1);
            assert(message@ =~= "unsupported recordFormat "@ + quoted(object.spec.record_format@)
                + "; expected "@ + RECORD_FORMAT_V1@);
            return Err(ServingAuthorityStoreError::MalformedPayload { message });
        }
        match base64_decode(object.spec.record.as_str()) {
            Ok(record) => Ok(
                OpenedObject { resource_version, record, display: object.spec.display },
            ),
            Err(error) => {
                let mut message = String::new();
                message.append("invalid base64 record: ");
                message.append(error.as_str());
                assert(message@ =~= "invalid base64 record: "@ + error@);
                Err(ServingAuthorityStoreError::MalformedPayload { message })
            },
        }
    }

    /// Checks a decoded record against the key and the display that came with it.
    pub fn check_record(
        expected_key: &AuthorityKey,
        found: OpenedObject,
        decoded: Result<ServingAuthorityRecord, String>,
    ) -> (snapshot: Result<AuthoritySnapshot, ServingAuthorityStoreError>)
        ensures
            snapshot_of(found@, decoded, expected_key@, snapshot),
    {
        let record = match decoded {
            Ok(record) => record,
            Err(error) => {
                return Err(ServingAuthorityStoreError::MalformedPayload { message: error });
            },
        };
        if !record.key.same(expected_key) {
            return Err(malformed("record AuthorityKey does not match observe/CAS key"));
        }
        let expected_display = display_from_record(&record);
        match &found.display {
            None => {
                return Err(
                    malformed("ServingAuthority is missing required derived spec.display"),
                );
            },
            Some(display) => {
                if !displays_agree(display, &expected_display) {
                    return Err(
                        malformed("spec.display disagrees with decoded canonical record"),
                    );
                }
            },
        }
        let version = slice_to_vec(found.resource_version.as_str().as_bytes());
        Ok(AuthoritySnapshot { version, record })
    }

    /// Reads an object as the record of a key; `decode` decodes a canonical record.
    pub fn decode_object<F: Fn(&[u8]) -> Result<ServingAuthorityRecord, String>>(
        &self,
        expected_key: &AuthorityKey,
        expected_name: &str,
        object: ServingAuthority,
        decode: &F,
    ) -> (snapshot: Result<AuthoritySnapshot, ServingAuthorityStoreError>)
        requires
            forall|bytes: &[u8]| #[trigger] decode.requires((bytes,)),
        ensures
            match opened(object, expected_name@, self.namespace@) {
                Err(message) => snapshot matches Err(error) && error@
                    == StoreErrorView::MalformedPayload(message),
                Ok(found) => exists|bytes: &[u8], decoded: Result<ServingAuthorityRecord, String>|
                    bytes@ == found.record && #[trigger] decode.ensures((bytes,), decoded)
                        && snapshot_of(found, decoded, expected_key@, snapshot),
            },
    {
        let found = match self.open_object(expected_name, object) {
            Ok(found) => found,
            Err(error) => {
                return Err(error);
            },
        };
        let bytes = found.record.as_slice();
        let decoded = decode(bytes);
        let ghost seen = decoded;
        assert(decode.ensures((bytes,), seen));
        let snapshot = Self::check_record(expected_key, found, decoded);
        snapshot
    }

    /// What an answer to a read of a key's object means.
    pub fn observed<F: Fn(&[u8]) -> Result<ServingAuthorityRecord, String>>(
        &self,
        key: &AuthorityKey,
        name: &str,
        answer: Result<ServingAuthority, TransportError>,
        decode: &F,
    ) -> (snapshot: Result<Option<AuthoritySnapshot>, ServingAuthorityStoreError>)
        requires
            forall|bytes: &[u8]| #[trigger] decode.requires((bytes,)),
        ensures
            match answer {
                Err(TransportError::NotFound) => snapshot == Ok::<_, ServingAuthorityStoreError>(
                    None::<AuthoritySnapshot>,
                ),
                Err(error) => snapshot matches Err(found) && found@ == read_failure(error),
                Ok(object) => match opened(object, name@, self.namespace@) {
                    Err(message) => snapshot matches Err(error) && error@
                        == StoreErrorView::MalformedPayload(message),
                    Ok(found) => exists|
                        bytes: &[u8],
                        decoded: Result<ServingAuthorityRecord, String>,
                    |
                        bytes@ == found.record && #[trigger] decode.ensures((bytes,), decoded)
                            && match snapshot {
                            Ok(snapshot) => snapshot is Some && snapshot_of(
                                found,
                                decoded,
                                key@,
                                Ok(snapshot->0),
                            ),
                            Err(error) => snapshot_of(found, decoded, key@, Err(error)),
                        },
                },
            },
    {
        match answer {
            Ok(object) => match self.decode_object(key, name, object, decode) {
                Ok(snapshot) => Ok(Some(snapshot)),
                Err(error) => Err(error),
            },
            Err(TransportError::NotFound) => Ok(None),
            Err(error) => Err(Self::map_read_transport(error)),
        }
    }

    /// What a failed read means, where the object is not just missing.
    pub fn map_read_transport(error: TransportError) -> (mapped: ServingAuthorityStoreError)
        requires
            error !is NotFound,
        ensures
            mapped@ == read_failure(error),
    {
        match error {
            TransportError::Indeterminate(source) => ServingAuthorityStoreError::Unavailable(
                source,
            ),
            TransportError::Unavailable(source) => ServingAuthorityStoreError::Unavailable(source),
            _ => ServingAuthorityStoreError::Unavailable("unexpected conflict on read".to_owned()),
        }
    }

    /// What a failed write means.
    pub fn map_write_transport(error: TransportError) -> (outcome: Result<
        CasOutcome,
        ServingAuthorityStoreError,
    >)
        ensures
            match outcome {
                Ok(outcome) => write_failure(error) == Ok::<_, StoreErrorView>(outcome),
                Err(found) => write_failure(error) == Err::<CasOutcome, _>(found@),
            },
    {
        match error {
            TransportError::Conflict => Ok(CasOutcome::Conflict),
            TransportError::NotFound => Ok(CasOutcome::Conflict),
            TransportError::Indeterminate(source) => Err(
                ServingAuthorityStoreError::Indeterminate(source),
            ),
            TransportError::Unavailable(source) => Err(
                ServingAuthorityStoreError::Unavailable(source),
            ),
        }
    }

    /// The write that puts a record in place of the expected version, or of nothing;
    /// `encoded` is the record's canonical form, or why it has none.
    pub fn swap_request(
        &self,
        key: &AuthorityKey,
        expected_version: Option<Vec<u8>>,
        next_record: &ServingAuthorityRecord,
        encoded: Result<Vec<u8>, String>,
    ) -> (write: Result<AuthorityWrite, ServingAuthorityStoreError>)
        requires
            encoded matches Ok(bytes) ==> bytes@.len() <= base64_limit(),
        ensures
            match write {
                Err(error) => error@ matches StoreErrorView::MalformedPayload(message)
                    && self.swap_refusal(
                    key@,
                    expected_version,
                    *next_record,
                    encoded,
                ) == Some(message),
                Ok(AuthorityWrite::Create { object }) => {
                    &&& self.swap_refusal(key@, expected_version, *next_record, encoded) is None
                    &&& expected_version is None
                    &&& optional(object.name) == Some(object_name_of(key@))
                    &&& optional(object.namespace) == Some(self.namespace@)
                    &&& object.resource_version is None
                    &&& carries(object.spec, *next_record, encoded->Ok_0@)
                },
                Ok(AuthorityWrite::Replace { name, object }) => {
                    &&& self.swap_refusal(key@, expected_version, *next_record, encoded) is None
                    &&& expected_version is Some
                    &&& name@ == object_name_of(key@)
                    &&& optional(object.name) == Some(object_name_of(key@))
                    &&& optional(object.namespace) == Some(self.namespace@)
                    &&& optional(object.resource_version) == Some(
                        decode_utf8(expected_version->0@),
                    )
                    &&& carries(object.spec, *next_record, encoded->Ok_0@)
                },
            },
    {
        if !next_record.key.same(key) {
            return Err(malformed("cannot CAS record with mismatched AuthorityKey"));
        }
        let name = match self.object_name(key) {
            Ok(name) => name,
            Err(error) => {
                return Err(error);
            },
        };
        let spec = match Self::build_spec(next_record, encoded) {
            Ok(spec) => spec,
            Err(error) => {
                return Err(error);
            },
        };
        let namespace = self.namespace.clone();
        match expected_version {
            None => Ok(
                AuthorityWrite::Create {
                    object: ServingAuthority {
                        name: Some(name),
                        namespace: Some(namespace),
                        resource_version: None,
                        spec,
                    },
                },
            ),
            Some(version) => match text_from_utf8(version.as_slice()) {
                None => Err(malformed("StoreVersion is not valid UTF-8 resourceVersion")),
                Some(resource_version) => Ok(
                    AuthorityWrite::Replace {
                        name: name.clone(),
                        object: ServingAuthority {
                            name: Some(name),
                            namespace: Some(namespace),
                            resource_version: Some(resource_version.to_owned()),
                            spec,
                        },
                    },
                ),
            },
        }
    }

    /// Why a write is not even asked for, if it is not.
    pub open spec fn swap_refusal(
        &self,
        key: KeyView,
        expected_version: Option<Vec<u8>>,
        next_record: ServingAuthorityRecord,
        encoded: Result<Vec<u8>, String>,
    ) -> Option<Seq<char>> {
        if next_record.key@ != key {
            Some("cannot CAS record with mismatched AuthorityKey"@)
        } else if self.named(key) is Err {
            Some(self.named(key)->Err_0)
        } else if encoded is Err {
            Some(encoded->Err_0@)
        } else if expected_version is Some && !valid_utf8(expected_version->0@) {
            Some("StoreVersion is not valid UTF-8 resourceVersion"@)
        } else {
            None
        }
    }

    /// What the answer to a write means.
    pub fn swapped(answer: Result<(), TransportError>) -> (outcome: Result<
        CasOutcome,
        ServingAuthorityStoreError,
    >)
        ensures
            match answer {
                Ok(_) => outcome == Ok::<_, ServingAuthorityStoreError>(CasOutcome::Applied),
                Err(error) => match outcome {
                    Ok(outcome) => write_failure(error) == Ok::<_, StoreErrorView>(outcome),
                    Err(found) => write_failure(error) == Err::<CasOutcome, _>(found@),
                },
            },
    {
        match answer {
            Ok(_) => Ok(CasOutcome::Applied),
            Err(error) => Self::map_write_transport(error),
        }
    }
}

// Laws.

/// The object name of any digest is a DNS-1123 name of 43 characters: `sa-` and forty
/// lower-case hexadecimal digits.
pub proof fn law_digest_names_are_dns_names(digest: Seq<u8>)
    requires
        digest.len() == 32,
    ensures
        is_dns_name(name_of_digest(digest)),
        name_of_digest(digest).len() == 43,
        name_of_digest(digest).take(3) == "sa-"@,
        forall|i: int| 3 <= i < 43 ==> is_hex_digit(#[trigger] name_of_digest(digest)[i]),
{
    reveal_strlit("sa-");
    let name = name_of_digest(digest);
    let digits = hex(digest.take(20));
    assert forall|i: int| 0 <= i < name.len() implies is_name_end(#[trigger] name[i]) || name[i]
        == '-' by {
        if i >= 3 {
            law_hex_digits(digest.take(20), i - 3);
            assert(name[i] == digits[i - 3]);
        }
    }
    law_hex_digits(digest.take(20), 39);
    assert(name.last() == digits[39]);
    assert(name[0] == 's');
    lemma_char_index(name, '.');
    assert(name.take(3) =~= "sa-"@);
    assert forall|i: int| 3 <= i < 43 implies is_hex_digit(#[trigger] name[i]) by {
        law_hex_digits(digest.take(20), i - 3);
        assert(name[i] == digits[i - 3]);
    }
}

/// Two keys share an object name only where the digests of their bytes agree in the
/// first twenty bytes.
pub proof fn law_names_are_as_distinct_as_digests(left: Seq<u8>, right: Seq<u8>)
    requires
        left.len() == 32,
        right.len() == 32,
    ensures
        name_of_digest(left) == name_of_digest(right) <==> left.take(20) == right.take(20),
{
    if name_of_digest(left) == name_of_digest(right) {
        let start = "sa-"@.len() as int;
        assert(hex(left.take(20)) =~= name_of_digest(left).skip(start));
        assert(hex(right.take(20)) =~= name_of_digest(right).skip(start));
        law_hex_is_injective(left.take(20), right.take(20));
    }
}

/// Two different keys hash different bytes.
pub proof fn law_key_bytes_are_injective(left: AuthorityKey, right: AuthorityKey)
    ensures
        key_bytes(left@) == key_bytes(right@) <==> left@ == right@,
{
    if key_bytes(left@) == key_bytes(right@) {
        assert(left@.journal =~= key_bytes(left@).take(16));
        assert(right@.journal =~= key_bytes(right@).take(16));
        assert(left@.verse =~= key_bytes(left@).skip(16));
        assert(right@.verse =~= key_bytes(right@).skip(16));
    }
}

/// An object written for a key is read back as the record that was written, at the
/// version that the object then has, by whoever decodes the record's canonical form
/// to it.
pub proof fn law_observe_returns_what_was_swapped(
    object: ServingAuthority,
    name: Seq<char>,
    namespace: Seq<char>,
    record: ServingAuthorityRecord,
    encoded: Seq<u8>,
)
    requires
        optional(object.name) == Some(name),
        optional(object.namespace) == Some(namespace),
        object.resource_version is Some,
        carries(object.spec, record, encoded),
    ensures
        opened(object, name, namespace) is Ok,
        opened(object, name, namespace)->Ok_0.record == encoded,
        opened(object, name, namespace)->Ok_0.resource_version == object.resource_version->0@,
        record_fault(record, record.key@, opened(object, name, namespace)->Ok_0.display) is None,
{
}

/// A record is never taken for that of another key, whatever the object says.
pub proof fn law_foreign_records_are_refused(
    opened: OpenedView,
    record: ServingAuthorityRecord,
    key: KeyView,
    snapshot: Result<AuthoritySnapshot, ServingAuthorityStoreError>,
)
    requires
        snapshot_of(opened, Ok(record), key, snapshot),
        record.key@ != key,
    ensures
        snapshot is Err,
{
}

/// A write that the API did not clearly refuse is never reported as applied or as a
/// conflict: its outcome is unknown.
pub proof fn law_unknown_writes_stay_unknown(status: Option<u16>, source: String)
    requires
        status matches Some(code) ==> code < 400 || code >= 500,
    ensures
        write_failure(write_error(status, source)) == Err::<CasOutcome, _>(
            StoreErrorView::Indeterminate(source@),
        ),
{
}

/// A conflicting write, and one whose object is gone, is a conflict; a write that the API
/// refused otherwise is none, and the reason is passed on; no failure is ever an applied write.
pub proof fn law_refused_writes_are_told_apart(status: u16, source: String, error: TransportError)
    ensures
        status == 409 ==> write_failure(write_error(Some(status), source)) == Ok::<
            _,
            StoreErrorView,
        >(CasOutcome::Conflict),
        400 <= status < 500 && status != 409 ==> write_failure(write_error(Some(status), source))
            == Err::<CasOutcome, _>(StoreErrorView::Unavailable(source@)),
        write_failure(TransportError::NotFound) == Ok::<_, StoreErrorView>(CasOutcome::Conflict),
        write_failure(error) != Ok::<_, StoreErrorView>(CasOutcome::Applied),
        write_failure(error) is Ok ==> error is Conflict || error is NotFound,
{
}

/// A failed read says nothing of what is stored: it is an unavailable register, for the reason
/// that the client gave.
pub proof fn law_failed_reads_pass_their_reason_on(error: TransportError)
    ensures
        read_failure(error) is Unavailable,
        error matches TransportError::Unavailable(source) ==> read_failure(error)
            == StoreErrorView::Unavailable(source@),
        error matches TransportError::Indeterminate(source) ==> read_failure(error)
            == StoreErrorView::Unavailable(source@),
{
}

/// Names are labels joined by dots: a name is a label, or a label, a dot and a name.
pub proof fn law_names_are_labels_joined_by_dots(label: Seq<char>, rest: Seq<char>)
    requires
        forall|i: int| 0 <= i < label.len() ==> #[trigger] label[i] != '.',
    ensures
        is_dotted_labels(label + seq!['.'] + rest) <==> is_dns_label(label) && is_dotted_labels(
            rest,
        ),
        is_dotted_labels(label) <==> is_dns_label(label),
        is_dns_name(label) <==> is_dns_label(label),
{
    let name = label + seq!['.'] + rest;
    let dot = label.len() as int;
    assert(name[dot] == '.');
    assert forall|i: int| 0 <= i < dot implies #[trigger] name[i] != '.' by {
        assert(name[i] == label[i]);
    }
    law_char_index_is_the_first(name, '.', dot);
    assert(name.take(dot) =~= label);
    assert(name.skip(dot + 1) =~= rest);
    lemma_char_index(label, '.');
}

/// A label of one character is a letter or a digit; one that can grow grows by a letter or a
/// digit, with hyphens only before them, to sixty-three characters and no further.
pub proof fn law_labels_grow_by_letters_and_digits(label: Seq<char>, c: char)
    ensures
        is_dns_label(seq![c]) <==> 'a' <= c <= 'z' || '0' <= c <= '9',
        is_dns_label(label) && label.len() < 63 ==> (is_dns_label(label.push(c)) <==> 'a' <= c
            <= 'z' || '0' <= c <= '9'),
        is_dns_label(label) && label.len() < 62 && ('a' <= c <= 'z' || '0' <= c <= '9')
            ==> is_dns_label(label.push('-').push(c)),
        is_dns_label(label) && label.len() == 63 ==> !is_dns_label(label.push(c)),
        is_dns_label(label) ==> !is_dns_label(seq!['-'] + label) && !is_dns_label(
            label.push('-'),
        ),
        !is_dns_label(Seq::empty()),
{
    if is_dns_label(label) && label.len() < 63 {
        let more = label.push(c);
        assert(more.last() == c);
        assert(more[0] == label[0]);
        if is_name_end(c) {
            assert forall|i: int| 0 <= i < more.len() implies is_name_end(#[trigger] more[i])
                || more[i] == '-' by {
                if i < label.len() {
                    assert(more[i] == label[i]);
                }
            }
        }
    }
    if is_dns_label(label) && label.len() < 62 && is_name_end(c) {
        let more = label.push('-').push(c);
        assert(more.last() == c);
        assert(more[0] == label[0]);
        assert forall|i: int| 0 <= i < more.len() implies is_name_end(#[trigger] more[i])
            || more[i] == '-' by {
            if i < label.len() {
                assert(more[i] == label[i]);
            }
        }
    }
    if is_dns_label(label) {
        assert((seq!['-'] + label)[0] == '-');
        assert(label.push('-').last() == '-');
    }
}

/// Displays tell records apart: two are alike only where key, state and term are.
pub proof fn law_displays_tell_records_apart(
    left: ServingAuthorityRecord,
    right: ServingAuthorityRecord,
)
    ensures
        display_of(left) == display_of(right) <==> left.key@ == right.key@ && left.state
            == right.state,
        left.state matches AuthorityState::Serving { writer_term } ==> display_of(left).state
            == "Serving"@ && display_of(left).writer_term == decimal(writer_term as nat),
        left.state matches AuthorityState::Transitioning { next_writer_term } ==> display_of(
            left,
        ).state == "Transitioning"@ && display_of(left).writer_term == decimal(
            next_writer_term as nat,
        ),
        left.state matches AuthorityState::ReconciliationRequired { next_writer_term }
            ==> display_of(left).state == "ReconciliationRequired"@ && display_of(left).writer_term
            == decimal(next_writer_term as nat),
        left.state is Unassigned ==> display_of(left).state == "Unassigned"@ && display_of(
            left,
        ).writer_term.len() == 0,
        display_of(left).journal == hex(left.key@.journal),
        display_of(left).verse == hex(left.key@.verse),
{
    reveal_strlit("Unassigned");
    reveal_strlit("Transitioning");
    reveal_strlit("Serving");
    reveal_strlit("ReconciliationRequired");
    assert("Unassigned"@.len() == 10);
    assert("Transitioning"@.len() == 13);
    assert("Serving"@.len() == 7);
    assert("ReconciliationRequired"@.len() == 22);
    if display_of(left) == display_of(right) {
        law_hex_is_injective(left.key@.journal, right.key@.journal);
        law_hex_is_injective(left.key@.verse, right.key@.verse);
        match (left.state, right.state) {
            (
                AuthorityState::Serving { writer_term: one },
                AuthorityState::Serving { writer_term: other },
            ) => {
                law_decimal_is_injective(one as nat, other as nat);
            },
            (
                AuthorityState::Transitioning { next_writer_term: one },
                AuthorityState::Transitioning { next_writer_term: other },
            ) => {
                law_decimal_is_injective(one as nat, other as nat);
            },
            (
                AuthorityState::ReconciliationRequired { next_writer_term: one },
                AuthorityState::ReconciliationRequired { next_writer_term: other },
            ) => {
                law_decimal_is_injective(one as nat, other as nat);
            },
            _ => {},
        }
    }
}

/// An object opens exactly where it has the expected name and namespace, a version, the format
/// that is understood and a record in base64.
pub proof fn law_objects_open_when_they_are_the_expected(
    object: ServingAuthority,
    name: Seq<char>,
    namespace: Seq<char>,
)
    ensures
        opened(object, name, namespace) is Ok <==> {
            &&& object.name is Some && object.name->0@ == name
            &&& object.namespace is Some && object.namespace->0@ == namespace
            &&& object.resource_version is Some
            &&& object.spec.record_format@ == "scripture-serving-authority-v1"@
            &&& base64_bytes(object.spec.record@) is Ok
        },
{
}

/// A decoded record is taken exactly where it is the key's own and came with its own display.
pub proof fn law_records_are_taken_with_their_display(
    record: ServingAuthorityRecord,
    key: KeyView,
    display: Option<DisplayView>,
)
    ensures
        record_fault(record, key, display) is None <==> record.key@.journal == key.journal
            && record.key@.verse == key.verse && display == Some(display_of(record)),
{
}

/// An object with one thing wrong is refused for that: its name, its place, its version or the
/// format of its record.
pub proof fn law_odd_objects_are_refused_for_cause(
    object: ServingAuthority,
    name: Seq<char>,
    namespace: Seq<char>,
)
    ensures
        ({
            let own = optional(object.name) == Some(name);
            let placed = optional(object.namespace) == Some(namespace);
            let versioned = object.resource_version is Some;
            let known = object.spec.record_format@ == RECORD_FORMAT_V1@;
            let found = opened(object, name, namespace);
            &&& !own && placed && versioned && known ==> found == Err::<OpenedView, Seq<char>>(
                "ServingAuthority metadata.name does not match the requested AuthorityKey"@,
            )
            &&& own && !placed && versioned && known ==> found == Err::<OpenedView, Seq<char>>(
                "ServingAuthority metadata.namespace does not match the configured namespace"@,
            )
            &&& own && placed && !versioned && known ==> found == Err::<OpenedView, Seq<char>>(
                "ServingAuthority missing metadata.resourceVersion"@,
            )
            &&& own && placed && versioned && !known ==> found == Err::<OpenedView, Seq<char>>(
                "unsupported recordFormat "@ + quoted(object.spec.record_format@) + "; expected "@
                    + RECORD_FORMAT_V1@,
            )
        }),
{
}

/// A record with one thing wrong is refused for that: another's key, no display, or a display
/// that says something else.
pub proof fn law_odd_records_are_refused_for_cause(
    record: ServingAuthorityRecord,
    key: KeyView,
    display: DisplayView,
)
    ensures
        record.key@ != key ==> record_fault(record, key, Some(display_of(record))) == Some(
            "record AuthorityKey does not match observe/CAS key"@,
        ),
        record.key@ == key ==> record_fault(record, key, None) == Some(
            "ServingAuthority is missing required derived spec.display"@,
        ),
        record.key@ == key && display != display_of(record) ==> record_fault(
            record,
            key,
            Some(display),
        ) == Some("spec.display disagrees with decoded canonical record"@),
{
}

/// A swap with one thing wrong is refused for that: another's key, or a version that is no text.
pub proof fn law_odd_swaps_are_refused_for_cause<T>(
    store: KubernetesServingAuthorityStore<T>,
    key: KeyView,
    expected_version: Option<Vec<u8>>,
    next_record: ServingAuthorityRecord,
    encoded: Result<Vec<u8>, String>,
)
    ensures
        ({
            let own = next_record.key@ == key;
            let readable = expected_version matches Some(version) ==> valid_utf8(version@);
            let refusal = store.swap_refusal(key, expected_version, next_record, encoded);
            &&& !own ==> refusal == Some("cannot CAS record with mismatched AuthorityKey"@)
            &&& own && store.object_name_override is None && encoded is Ok && !readable ==> refusal
                == Some("StoreVersion is not valid UTF-8 resourceVersion"@)
        }),
{
}

/// Errors of the transport and of its configuration say what happened, with the source where
/// there is one.
pub proof fn law_errors_say_what_happened(source: String)
    ensures
        TransportError::NotFound.words() == "ServingAuthority object not found"@,
        TransportError::Conflict.words() == "ServingAuthority conditional write conflict"@,
        TransportError::Indeterminate(source).words()
            == "ServingAuthority write outcome indeterminate: "@ + source@,
        TransportError::Unavailable(source).words() == "ServingAuthority API unavailable: "@
            + source@,
        StoreConfigError::EmptyNamespace.words()
            == "ha.authority_store.namespace must be non-empty"@,
        (StoreConfigError::InvalidObjectName { name: source }).words()
            == "ha.authority_store.object_name "@ + quoted(source@)
            + " is not a DNS-1123 subdomain"@,
        StoreConfigError::Client(source).words() == "kubernetes client unavailable: "@ + source@,
{
}

/// A write is asked for exactly where the record is the key's own, the configured name, if any,
/// is the derived one, the record has a canonical form, and the expected version is a text.
pub proof fn law_own_records_are_written<T>(
    store: KubernetesServingAuthorityStore<T>,
    key: KeyView,
    expected_version: Option<Vec<u8>>,
    next_record: ServingAuthorityRecord,
    encoded: Result<Vec<u8>, String>,
)
    ensures
        store.swap_refusal(key, expected_version, next_record, encoded) is None <==> {
            &&& next_record.key@ == key
            &&& store.object_name_override matches Some(configured) ==> configured@
                == object_name_of(key)
            &&& encoded is Ok
            &&& expected_version matches Some(version) ==> valid_utf8(version@)
        },
        store.named(key) matches Ok(name) ==> name == object_name_of(key),
{
}

/// A swap without an expected version creates the key's object, and one with a version replaces
/// just that version; either way the object is the key's own, in the store's namespace, and holds
/// the record.
pub proof fn law_swaps_write_the_keys_object<T>(
    store: KubernetesServingAuthorityStore<T>,
    key: AuthorityKey,
    expected: Option<Vec<u8>>,
    record: ServingAuthorityRecord,
    encoded: Result<Vec<u8>, String>,
    write: Result<AuthorityWrite, ServingAuthorityStoreError>,
)
    requires
        call_ensures(
            KubernetesServingAuthorityStore::<T>::swap_request,
            (&store, &key, expected, &record, encoded),
            write,
        ),
        encoded matches Ok(bytes) ==> bytes@.len() <= base64_limit(),
    ensures
        record.key@ != key@ ==> write is Err,
        encoded is Err ==> write is Err,
        write matches Ok(AuthorityWrite::Create { object }) ==> {
            &&& expected is None
            &&& object.resource_version is None
            &&& object.name is Some && object.name->0@ == object_name_of(key@)
            &&& object.namespace is Some && object.namespace->0@ == store.namespace@
            &&& base64_bytes(object.spec.record@) == Ok::<_, Seq<char>>(encoded->Ok_0@)
            &&& object.spec.record_format@ == "scripture-serving-authority-v1"@
            &&& object.spec.display is Some && object.spec.display->0@ == display_of(record)
        },
        write matches Ok(AuthorityWrite::Replace { name, object }) ==> {
            &&& expected is Some
            &&& object.resource_version is Some && object.resource_version->0@ == decode_utf8(
                expected->0@,
            )
            &&& name@ == object_name_of(key@)
            &&& object.name is Some && object.name->0@ == name@
            &&& object.namespace is Some && object.namespace->0@ == store.namespace@
            &&& base64_bytes(object.spec.record@) == Ok::<_, Seq<char>>(encoded->Ok_0@)
            &&& object.spec.record_format@ == "scripture-serving-authority-v1"@
            &&& object.spec.display is Some && object.spec.display->0@ == display_of(record)
        },
        write matches Err(error) ==> error is MalformedPayload,
{
}

/// A write is applied exactly where it was answered without an error; a missing object is no
/// failure of a read, and every other unanswered read is.
pub proof fn law_answers_are_taken_at_their_word<T>(
    answer: Result<(), TransportError>,
    outcome: Result<CasOutcome, ServingAuthorityStoreError>,
    status: Option<u16>,
    source: String,
    error: TransportError,
)
    requires
        call_ensures(KubernetesServingAuthorityStore::<T>::swapped, (answer,), outcome),
        call_ensures(map_read_error, (status, source), error),
    ensures
        outcome == Ok::<_, ServingAuthorityStoreError>(CasOutcome::Applied) <==> answer is Ok,
        answer matches Err(TransportError::Indeterminate(said)) ==> outcome matches Err(
            ServingAuthorityStoreError::Indeterminate(passed),
        ) && passed@ == said@,
        error == TransportError::NotFound <==> status == Some(404u16),
        error != TransportError::NotFound ==> error == TransportError::Unavailable(source),
{
}

/// A store needs a namespace, and a configured name must be a DNS name; it then holds what it
/// was given.
pub proof fn law_stores_need_a_namespace<T>(
    transport: T,
    namespace: String,
    name: Option<String>,
    store: Result<KubernetesServingAuthorityStore<T>, StoreConfigError>,
)
    requires
        call_ensures(
            KubernetesServingAuthorityStore::<T>::from_transport,
            (transport, namespace, name),
            store,
        ),
    ensures
        store is Ok <==> namespace@.len() > 0 && (name matches Some(given) ==> is_dns_name(given@)),
        store matches Ok(found) ==> found.namespace == namespace && found.object_name_override
            == name && found.transport == transport,
        namespace@.len() == 0 ==> store matches Err(StoreConfigError::EmptyNamespace),
{
}

/// The bytes that name a key's object are the sixteen of its Journal and then those of its Verse,
/// under the context of object names.
pub proof fn law_keys_are_journal_then_verse(key: AuthorityKey)
    ensures
        key_bytes(key@).len() == 32,
        key_bytes(key@).take(16) == key.journal_id@,
        key_bytes(key@).skip(16) == key.verse_id@,
        object_name_of(key@) == "sa-"@ + hex(
            derived_key(
                "scripture.dev/serving-authority/object-name/v1"@,
                key.journal_id@ + key.verse_id@,
            ).take(20),
        ),
{
    assert(key_bytes(key@).take(16) =~= key.journal_id@);
    assert(key_bytes(key@).skip(16) =~= key.verse_id@);
}

/// Failed writes are classified by their status, over whole calls, and a name is the derived one
/// or refused.
pub proof fn law_classes_over_whole_calls<T>(
    status: Option<u16>,
    source: String,
    error: TransportError,
    store: KubernetesServingAuthorityStore<T>,
    key: AuthorityKey,
    name: Result<String, ServingAuthorityStoreError>,
    text: &str,
    valid: bool,
)
    requires
        call_ensures(map_write_error, (status, source), error),
        call_ensures(KubernetesServingAuthorityStore::<T>::object_name, (&store, &key), name),
        call_ensures(is_dns1123_subdomain, (text,), valid),
    ensures
        error is Conflict <==> status == Some(409u16),
        error is Unavailable <==> status is Some && 400 <= status->0 < 500 && status->0 != 409,
        error is Indeterminate <==> status is None || status->0 < 400 || status->0 >= 500,
        name matches Ok(found) ==> found@ == object_name_of(key@),
        store.object_name_override is None ==> name is Ok,
        store.object_name_override matches Some(given) ==> (name is Ok <==> given@
            == object_name_of(key@)),
        valid <==> is_dns_name(text@),
{
}

/// A decoded record is taken exactly where it is the key's own and came with its own display, at
/// the version of its object.
pub proof fn law_records_are_checked_over_whole_calls<T>(
    key: AuthorityKey,
    found: OpenedObject,
    record: ServingAuthorityRecord,
    snapshot: Result<AuthoritySnapshot, ServingAuthorityStoreError>,
    error: String,
    failed: Result<AuthoritySnapshot, ServingAuthorityStoreError>,
)
    requires
        call_ensures(
            KubernetesServingAuthorityStore::<T>::check_record,
            (&key, found, Ok(record)),
            snapshot,
        ),
        call_ensures(
            KubernetesServingAuthorityStore::<T>::check_record,
            (&key, found, Err(error)),
            failed,
        ),
    ensures
        snapshot is Ok <==> record.key@ == key@ && found.display is Some && found.display->0@
            == display_of(record),
        snapshot matches Ok(taken) ==> taken.record == record && taken.version@ == encode_utf8(
            found.resource_version@,
        ),
        failed is Err && failed->Err_0@ == StoreErrorView::MalformedPayload(error@),
{
}

} // verus!
