//! The serving-authority register and the contract of its resource definition.
use std::cell::RefCell;
use std::collections::HashMap;

use base64::engine::general_purpose::STANDARD as BASE64;
use base64::Engine;
use scripture_ops::authority::{
    authority_key_fixed_bytes, authority_object_name, digest_name, display_from_record,
    displays_agree, is_dns1123_subdomain, map_read_error, map_write_error, AuthorityKey,
    AuthoritySnapshot, AuthorityState, AuthorityWrite, CasOutcome,
    KubernetesServingAuthorityStore, ServingAuthority, ServingAuthorityRecord,
    ServingAuthoritySpec, ServingAuthorityStoreError, StoreConfigError, TransportError,
    NAME_DOMAIN, RECORD_FORMAT_V1,
};
use scripture_ops::crd::{assert_checked_in_crd_contract, check_crd, read_crd, CrdFacts};
use scripture_ops::ids::{JournalId, VerseId};

fn key(journal: &[u8; 16], verse: &[u8; 16]) -> AuthorityKey {
    AuthorityKey {
        journal_id: JournalId::from_bytes(*journal),
        verse_id: VerseId::from_bytes(*verse),
    }
}

fn sample_key() -> AuthorityKey {
    key(b"k8s-auth-jrnl!!!", b"k8s-auth-verse!!")
}

fn other_key() -> AuthorityKey {
    key(b"other-journal!!!", b"other-verse!!!!!")
}

fn record(key: AuthorityKey) -> ServingAuthorityRecord {
    ServingAuthorityRecord::new(key, AuthorityState::Unassigned)
}

/// A codec for unassigned records: a marker and the key.
fn encode(record: &ServingAuthorityRecord) -> Result<Vec<u8>, String> {
    let mut bytes = b"record:".to_vec();
    bytes.extend_from_slice(&authority_key_fixed_bytes(&record.key));
    Ok(bytes)
}

fn decode(bytes: &[u8]) -> Result<ServingAuthorityRecord, String> {
    let rest = bytes.strip_prefix(b"record:").ok_or("no marker")?;
    let fixed: [u8; 32] = rest.try_into().map_err(|_| "length".to_owned())?;
    Ok(record(key(
        fixed[..16].try_into().expect("half"),
        fixed[16..].try_into().expect("half"),
    )))
}

type Store = KubernetesServingAuthorityStore<Rows>;

/// Rows by name, as the API server keeps them.
#[derive(Debug, Default)]
struct Rows {
    rows: RefCell<HashMap<String, (ServingAuthorityRecord, String)>>,
    next: RefCell<u64>,
    last_replace: RefCell<Option<String>>,
    /// What the next create is answered, whatever the rows say.
    next_create: RefCell<Option<TransportError>>,
    create_calls: RefCell<usize>,
    replace_calls: RefCell<usize>,
}

fn store() -> Store {
    KubernetesServingAuthorityStore::from_transport(
        Rows::default(),
        "scripture-lab".to_owned(),
        None,
    )
    .expect("store")
}

fn object(name: &str, version: Option<&str>, record: &ServingAuthorityRecord) -> ServingAuthority {
    ServingAuthority {
        name: Some(name.to_owned()),
        namespace: Some("scripture-lab".to_owned()),
        resource_version: version.map(str::to_owned),
        spec: ServingAuthoritySpec {
            record_format: RECORD_FORMAT_V1.to_owned(),
            record: BASE64.encode(encode(record).expect("encode")),
            display: Some(display_from_record(record)),
        },
    }
}

fn observe(
    store: &Store,
    key: AuthorityKey,
) -> Result<Option<AuthoritySnapshot>, ServingAuthorityStoreError> {
    let name = store.object_name(&key)?;
    let answer = match store.transport.rows.borrow().get(&name) {
        None => Err(TransportError::NotFound),
        Some((record, version)) => Ok(object(&name, Some(version), record)),
    };
    store.observed(&key, &name, answer, &decode)
}

fn next_version(store: &Store) -> String {
    *store.transport.next.borrow_mut() += 1;
    store.transport.next.borrow().to_string()
}

fn swap(
    store: &Store,
    key: AuthorityKey,
    expected: Option<Vec<u8>>,
    next: ServingAuthorityRecord,
) -> Result<CasOutcome, ServingAuthorityStoreError> {
    let write = store.swap_request(&key, expected, &next, encode(&next))?;
    let answer = match write {
        AuthorityWrite::Create { object } => {
            *store.transport.create_calls.borrow_mut() += 1;
            let name = object.name.expect("name");
            let forced = store.transport.next_create.borrow_mut().take();
            if let Some(error) = forced {
                Err(error)
            } else if store.transport.rows.borrow().contains_key(&name) {
                Err(TransportError::Conflict)
            } else {
                let version = next_version(store);
                store.transport.rows.borrow_mut().insert(name, (next, version));
                Ok(())
            }
        }
        AuthorityWrite::Replace { name, object } => {
            *store.transport.replace_calls.borrow_mut() += 1;
            *store.transport.last_replace.borrow_mut() = object.resource_version.clone();
            let current = store.transport.rows.borrow().get(&name).map(|row| row.1.clone());
            if current.is_none() || current != object.resource_version {
                Err(TransportError::Conflict)
            } else {
                let version = next_version(store);
                store.transport.rows.borrow_mut().insert(name, (next, version));
                Ok(())
            }
        }
    };
    Store::swapped(answer)
}

#[test]
fn name_changes_with_journal_or_verse_and_is_dns_safe() {
    let a = key(b"journal-aaaa-id!", b"verse-aaaa-id!!!");
    let b = key(b"journal-bbbb-id!", b"verse-aaaa-id!!!");
    let c = key(b"journal-aaaa-id!", b"verse-bbbb-id!!!");
    let na = authority_object_name(&a);
    let nb = authority_object_name(&b);
    let nc = authority_object_name(&c);
    assert_ne!(na, nb);
    assert_ne!(na, nc);
    assert_ne!(nb, nc);
    assert!(is_dns1123_subdomain(&na));
    assert!(na.starts_with("sa-"));
    assert_eq!(na.len(), 43);
    assert_eq!(authority_object_name(&a), na);
}

#[test]
fn names_are_derived_under_the_domain() {
    let digest = blake3::derive_key(NAME_DOMAIN, &authority_key_fixed_bytes(&sample_key()));
    assert_eq!(authority_object_name(&sample_key()), digest_name(&digest));
    assert!(digest_name(&[0xab; 32]).starts_with("sa-abab"));
    assert_ne!(digest_name(&[0xab; 32]), digest_name(&[0xac; 32]));
}

#[test]
fn key_bytes_are_journal_then_verse() {
    let bytes = authority_key_fixed_bytes(&sample_key());
    assert_eq!(&bytes[..16], b"k8s-auth-jrnl!!!");
    assert_eq!(&bytes[16..], b"k8s-auth-verse!!");
    assert!(sample_key().same(&sample_key()));
    assert!(!sample_key().same(&other_key()));
}

#[test]
fn dns_names_are_told_apart() {
    for good in ["a", "sa-0", "a-b--c", "9x", "a.b", "0.a-1.z9"] {
        assert!(is_dns1123_subdomain(good), "{good}");
    }
    for bad in ["", "-a", "a-", "A", "a_b", ".", "a.", ".a", "a..b", "a.-b", "a-.b", "a.B"] {
        assert!(!is_dns1123_subdomain(bad), "{bad}");
    }
    assert!(is_dns1123_subdomain(&"a".repeat(63)));
    assert!(!is_dns1123_subdomain(&"a".repeat(64)));
    let label = "a".repeat(63);
    let longest = format!("{label}.{label}.{label}.{}", "a".repeat(61));
    assert_eq!(longest.len(), 253);
    assert!(is_dns1123_subdomain(&longest));
    assert!(!is_dns1123_subdomain(&format!("{longest}a")));
    assert!(!is_dns1123_subdomain(&format!("a.{}", "a".repeat(64))));
}

#[test]
fn get_404_maps_absent() {
    assert!(observe(&store(), sample_key()).expect("ok").is_none());
}

#[test]
fn create_409_maps_conflict() {
    let store = store();
    *store.transport.next_create.borrow_mut() = Some(TransportError::Conflict);
    assert_eq!(
        swap(&store, sample_key(), None, record(sample_key())).expect("ok"),
        CasOutcome::Conflict
    );
}

#[test]
fn replace_sends_exact_opaque_resource_version_and_stale_conflicts() {
    let store = store();
    let key = sample_key();
    assert_eq!(swap(&store, key, None, record(key)).expect("ok"), CasOutcome::Applied);
    let snap = observe(&store, key).expect("ok").expect("present");
    let stale = b"not-this-rv".to_vec();
    assert_eq!(
        swap(&store, key, Some(stale), record(key)).expect("ok"),
        CasOutcome::Conflict
    );
    assert_eq!(
        store.transport.last_replace.borrow().as_deref(),
        Some("not-this-rv")
    );
    assert_eq!(
        swap(&store, key, Some(snap.version.clone()), record(key)).expect("ok"),
        CasOutcome::Applied
    );
    assert_eq!(
        store.transport.last_replace.borrow().as_deref(),
        Some(std::str::from_utf8(&snap.version).expect("utf8 resourceVersion"))
    );
}

#[test]
fn an_observed_record_is_the_one_that_was_swapped_in() {
    let store = store();
    let key = sample_key();
    swap(&store, key, None, record(key)).expect("ok");
    let snap = observe(&store, key).expect("ok").expect("present");
    assert_eq!(snap.record, record(key));
    assert_eq!(snap.version, b"1");
    assert_eq!(
        swap(&store, key, None, record(key)).expect("ok"),
        CasOutcome::Conflict
    );
}

#[test]
fn malformed_payloads_fail_closed() {
    let key = sample_key();
    let name = authority_object_name(&key);
    let changed = |change: &dyn Fn(&mut ServingAuthority)| {
        let mut object = object(&name, Some("1"), &record(key));
        change(&mut object);
        object
    };
    let cases = [
        changed(&|object| object.spec.record = "%%%not-base64%%%".into()),
        changed(&|object| object.spec.record_format = "wrong-format".into()),
        changed(&|object| object.spec.record = BASE64.encode(b"not-a-scar-record")),
        changed(&|object| object.resource_version = None),
        changed(&|object| object.spec.display = None),
        changed(&|object| {
            if let Some(display) = &mut object.spec.display {
                display.state = "Wrong".into();
            }
        }),
        object(&authority_object_name(&other_key()), Some("1"), &record(other_key())),
        changed(&|object| object.name = Some("sa-wrong-object".into())),
        changed(&|object| object.namespace = Some("wrong-namespace".into())),
        object(&name, Some("1"), &record(other_key())),
    ];
    for object in cases {
        let err = store()
            .observed(&key, &name, Ok(object), &decode)
            .expect_err("malformed");
        assert!(
            matches!(err, ServingAuthorityStoreError::MalformedPayload { .. }),
            "got {err:?}"
        );
    }
    let whole = store()
        .observed(&key, &name, Ok(changed(&|_| {})), &decode)
        .expect("well formed");
    assert_eq!(whole.expect("present").record, record(key));
}

#[test]
fn post_dispatch_timeout_is_indeterminate_without_retry() {
    let store = store();
    *store.transport.next_create.borrow_mut() =
        Some(TransportError::Indeterminate("timeout".to_owned()));
    let err = swap(&store, sample_key(), None, record(sample_key())).expect_err("indeterminate");
    assert!(matches!(err, ServingAuthorityStoreError::Indeterminate(_)));
    assert_eq!(*store.transport.create_calls.borrow(), 1);
    assert_eq!(*store.transport.replace_calls.borrow(), 0);
}

#[test]
fn key_mismatch_rejected_before_transport() {
    let store = store();
    let err = swap(&store, sample_key(), None, record(other_key())).expect_err("mismatch");
    assert!(matches!(err, ServingAuthorityStoreError::MalformedPayload { .. }));
    assert!(store.transport.rows.borrow().is_empty());
    assert_eq!(*store.transport.create_calls.borrow(), 0);
    assert_eq!(*store.transport.replace_calls.borrow(), 0);
}

#[test]
fn versions_that_are_no_text_and_records_that_do_not_encode_are_refused() {
    let store = store();
    let key = sample_key();
    let next = record(key);
    assert!(matches!(
        store.swap_request(&key, Some(vec![0xff]), &next, encode(&next)),
        Err(ServingAuthorityStoreError::MalformedPayload { .. })
    ));
    assert!(matches!(
        store.swap_request(&key, None, &next, Err("no".to_owned())),
        Err(ServingAuthorityStoreError::MalformedPayload { .. })
    ));
    let spec = Store::build_spec(&next, encode(&next)).expect("spec");
    assert_eq!(spec.record, BASE64.encode(encode(&next).expect("encode")));
    assert_eq!(spec.record_format, RECORD_FORMAT_V1);
}

#[test]
fn writes_with_unknown_ends_are_never_called_refused() {
    let text = "status".to_owned();
    assert_eq!(map_read_error(Some(404), text.clone()), TransportError::NotFound);
    assert_eq!(
        map_read_error(Some(500), text.clone()),
        TransportError::Unavailable(text.clone())
    );
    assert_eq!(map_write_error(Some(409), text.clone()), TransportError::Conflict);
    assert_eq!(
        map_write_error(Some(403), text.clone()),
        TransportError::Unavailable(text.clone())
    );
    for status in [Some(500), Some(302), None] {
        assert_eq!(
            map_write_error(status, text.clone()),
            TransportError::Indeterminate(text.clone())
        );
    }
    assert!(matches!(
        Store::map_read_transport(TransportError::Unavailable("down".to_owned())),
        ServingAuthorityStoreError::Unavailable(_)
    ));
    assert!(matches!(
        Store::map_write_transport(TransportError::Unavailable("down".to_owned())),
        Err(ServingAuthorityStoreError::Unavailable(_))
    ));
}

#[test]
fn stores_are_configured_or_refused() {
    let empty = Store::from_transport(Rows::default(), String::new(), None).expect_err("empty");
    assert_eq!(empty, StoreConfigError::EmptyNamespace);
    let named = Store::from_transport(
        Rows::default(),
        "scripture-lab".to_owned(),
        Some("Bad_Name".to_owned()),
    )
    .expect_err("name");
    assert_eq!(named, StoreConfigError::InvalidObjectName { name: "Bad_Name".to_owned() });
    assert!(named.message().contains("Bad_Name"));
    assert_ne!(empty.message(), StoreConfigError::Client("x".to_owned()).message());
    assert!(TransportError::Unavailable("down".to_owned()).message().contains("down"));
}

#[test]
fn displays_show_the_state_and_its_term() {
    let serving = ServingAuthorityRecord::new(
        sample_key(),
        AuthorityState::Serving { writer_term: 12 },
    );
    let display = display_from_record(&serving);
    assert_eq!((display.state.as_str(), display.writer_term.as_str()), ("Serving", "12"));
    assert_eq!(display.journal, "6b38732d617574682d6a726e6c212121");
    let moving = ServingAuthorityRecord::new(
        sample_key(),
        AuthorityState::Transitioning { next_writer_term: 3 },
    );
    assert_eq!(display_from_record(&moving).state, "Transitioning");
    assert!(displays_agree(&display, &display_from_record(&serving)));
    assert!(!displays_agree(&display, &display_from_record(&moving)));
    assert_eq!(display_from_record(&record(sample_key())).writer_term, "");
    let stuck = ServingAuthorityRecord::new(
        sample_key(),
        AuthorityState::ReconciliationRequired { next_writer_term: 4 },
    );
    assert_eq!(display_from_record(&stuck).writer_term, "4");
}

fn definition() -> String {
    r#"
apiVersion: apiextensions.k8s.io/v1
kind: CustomResourceDefinition
spec:
  group: scripture.dev
  names:
    kind: ServingAuthority
  versions:
    - name: v1alpha1
      schema:
        openAPIV3Schema:
          properties:
            spec:
              required: [recordFormat, record, display]
              properties:
                recordFormat:
                  enum: [scripture-serving-authority-v1]
      additionalPrinterColumns:
        - name: State
          jsonPath: .spec.display.state
        - name: Term
          jsonPath: .spec.display.writerTerm
"#
    .to_owned()
}

#[test]
fn a_definition_that_keeps_the_contract_is_accepted() {
    assert_checked_in_crd_contract(&definition()).expect("CRD contract");
}

#[test]
fn each_breach_of_the_contract_is_named() {
    let breach = |from: &str, to: &str| {
        assert_checked_in_crd_contract(&definition().replace(from, to)).expect_err("breach")
    };
    assert_eq!(
        breach("group: scripture.dev", "group: other.dev"),
        "expected group scripture.dev, got \"other.dev\""
    );
    assert_eq!(breach("group:", "grp:"), "missing spec.group");
    assert_eq!(
        breach("kind: ServingAuthority\n", "kind: Other\n"),
        "expected kind ServingAuthority, got \"Other\""
    );
    assert_eq!(breach("versions:", "revisions:"), "missing spec.versions");
    assert_eq!(breach("v1alpha1", "v1"), "missing v1alpha1 version");
    assert!(breach("[recordFormat, record, display]", "[record]").contains("recordFormat"));
    assert!(breach("enum:", "values:").contains("recordFormat enum"));
    assert!(breach("scripture-serving-authority-v1", "v2").contains("recordFormat enum"));
    assert!(breach("additionalPrinterColumns", "columns").contains("additionalPrinterColumns"));
    assert!(breach(".spec.display.state", ".spec.state").contains("printer columns"));
    assert!(assert_checked_in_crd_contract("a: [").is_err());
}

#[test]
fn facts_are_read_from_the_document() {
    let document: serde_yaml::Value = serde_yaml::from_str(&definition()).expect("yaml");
    let facts = read_crd(&document);
    assert_eq!(facts.group.as_deref(), Some("scripture.dev"));
    assert_eq!(facts.kind.as_deref(), Some("ServingAuthority"));
    let version = facts.version.as_ref().expect("version");
    assert_eq!(
        version.columns,
        Some(vec![
            ".spec.display.state".to_owned(),
            ".spec.display.writerTerm".to_owned()
        ])
    );
    assert_eq!(check_crd(&facts), Ok(()));
    let nothing = CrdFacts { group: None, kind: None, has_versions: false, version: None };
    assert_eq!(check_crd(&nothing), Err("missing spec.group".to_owned()));
}
