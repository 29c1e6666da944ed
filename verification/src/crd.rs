//! The custom resource definition of the Serving Authority register, as far as the
//! register depends on it.
use crate::authority::RECORD_FORMAT_V1;
use crate::text::{optional, quote, quoted, same_text, texts_view};
use vstd::prelude::*;

verus! {

// YAML documents.

/// A parsed YAML value.
#[verifier::external_type_specification]
#[verifier::external_body]
pub struct ExYamlValue(serde_yaml::Value);

/// What a YAML value holds, tags left aside: a text, a list, the entries of a mapping
/// whose keys are texts, or something else.
pub enum YamlView {
    Text(Seq<char>),
    List(Seq<YamlView>),
    Mapping(Map<Seq<char>, YamlView>),
    Other,
}

impl YamlView {
    /// What a mapping holds under a key.
    pub open spec fn member(self, key: Seq<char>) -> Option<YamlView> {
        match self {
            YamlView::Mapping(entries) => if entries.dom().contains(key) {
                Some(entries[key])
            } else {
                None
            },
            _ => None,
        }
    }

    /// What is reached by one key after the other.
    pub open spec fn at(self, path: Seq<Seq<char>>) -> Option<YamlView>
        decreases path.len(),
    {
        if path.len() == 0 {
            Some(self)
        } else {
            match self.member(path[0]) {
                Some(next) => next.at(path.skip(1)),
                None => None,
            }
        }
    }

    /// The text that the value is.
    pub open spec fn text(self) -> Option<Seq<char>> {
        match self {
            YamlView::Text(text) => Some(text),
            _ => None,
        }
    }

    /// The list that the value is.
    pub open spec fn list(self) -> Option<Seq<YamlView>> {
        match self {
            YamlView::List(items) => Some(items),
            _ => None,
        }
    }
}

/// What a YAML value holds.
pub uninterp spec fn yaml_content(value: serde_yaml::Value) -> YamlView;

/// What `serde_yaml` reads out of a text, or what its error says.
pub uninterp spec fn yaml_document(text: Seq<char>) -> Result<YamlView, Seq<char>>;

/// `serde_yaml::from_str` for a `serde_yaml::Value`: the one document of the text, or
/// the error in words.
#[verifier::external_body]
fn parse_yaml(text: &str) -> (parsed: Result<serde_yaml::Value, String>)
    ensures
        match parsed {
            Ok(value) => yaml_document(text@) is Ok && yaml_document(text@)->Ok_0 == yaml_content(
                value,
            ),
            Err(error) => yaml_document(text@) is Err && yaml_document(text@)->Err_0 == error@,
        },
{
    serde_yaml::from_str(text).map_err(|error| error.to_string())
}

/// `serde_yaml::Value::get` with a text: what a mapping holds under that key.
#[verifier::external_body]
fn yaml_member<'a>(value: &'a serde_yaml::Value, key: &str) -> (found: Option<
    &'a serde_yaml::Value,
>)
    ensures
        match found {
            Some(found) => yaml_content(*value).member(key@) == Some(yaml_content(*found)),
            None => yaml_content(*value).member(key@) is None,
        },
{
    value.get(key)
}

/// `serde_yaml::Value::as_str`: the text that the value is, if it is one.
#[verifier::external_body]
fn yaml_text<'a>(value: &'a serde_yaml::Value) -> (text: Option<&'a str>)
    ensures
        match text {
            Some(text) => yaml_content(*value).text() == Some(text@),
            None => yaml_content(*value).text() is None,
        },
{
    value.as_str()
}

/// YAML values by what they hold.
pub open spec fn yaml_contents(values: Seq<serde_yaml::Value>) -> Seq<YamlView> {
    values.map_values(|value: serde_yaml::Value| yaml_content(value))
}

/// `serde_yaml::Value::as_sequence`: the list that the value is, if it is one.
#[verifier::external_body]
fn yaml_list<'a>(value: &'a serde_yaml::Value) -> (items: Option<&'a Vec<serde_yaml::Value>>)
    ensures
        match items {
            Some(items) => yaml_content(*value).list() == Some(yaml_contents(items@)),
            None => yaml_content(*value).list() is None,
        },
{
    value.as_sequence()
}

/// What is reached in a value by one key after the other.
fn yaml_get<'a>(value: &'a serde_yaml::Value, path: &[&str]) -> (found: Option<
    &'a serde_yaml::Value,
>)
    ensures
        match found {
            Some(found) => yaml_content(*value).at(texts_view(path@)) == Some(
                yaml_content(*found),
            ),
            None => yaml_content(*value).at(texts_view(path@)) is None,
        },
{
    let ghost keys = texts_view(path@);
    let mut current = value;
    let mut at: usize = 0;
    assert(keys.skip(0) =~= keys);
    while at < path.len()
        invariant
            at <= path@.len(),
            keys == texts_view(path@),
            yaml_content(*current).at(keys.skip(at as int)) == yaml_content(*value).at(keys),
        decreases path@.len() - at,
    {
        assert(keys.skip(at as int)[0] == path@[at as int]@);
        assert(keys.skip(at as int).skip(1) =~= keys.skip(at + 1));
        match yaml_member(current, path[at]) {
            Some(next) => {
                current = next;
            },
            None => {
                return None;
            },
        }
        at += 1;
    }
    Some(current)
}

// What the definition says.

/// The parts of one version of the definition that the register depends on.
#[derive(Debug, PartialEq, Eq)]
pub struct VersionFacts {
    /// Texts under `spec.required` of the schema.
    pub required: Option<Vec<String>>,
    /// Texts that `recordFormat` may be.
    pub formats: Option<Vec<String>>,
    /// JSON paths of the printer columns.
    pub columns: Option<Vec<String>>,
}

/// The parts of the definition that the register depends on.
#[derive(Debug, PartialEq, Eq)]
pub struct CrdFacts {
    pub group: Option<String>,
    pub kind: Option<String>,
    /// Whether any versions are listed.
    pub has_versions: bool,
    /// The first version named `v1alpha1`.
    pub version: Option<VersionFacts>,
}

/// What a version says, apart from its representation.
pub struct VersionFactsView {
    pub required: Option<Seq<Seq<char>>>,
    pub formats: Option<Seq<Seq<char>>>,
    pub columns: Option<Seq<Seq<char>>>,
}

/// What the definition says, apart from its representation.
pub struct CrdFactsView {
    pub group: Option<Seq<char>>,
    pub kind: Option<Seq<char>>,
    pub has_versions: bool,
    pub version: Option<VersionFactsView>,
}

/// Texts by their views.
pub open spec fn strings_view(texts: Seq<String>) -> Seq<Seq<char>> {
    texts.map_values(|text: String| text@)
}

/// An optional list of texts by its view.
pub open spec fn list_view(texts: Option<Vec<String>>) -> Option<Seq<Seq<char>>> {
    match texts {
        Some(texts) => Some(strings_view(texts@)),
        None => None,
    }
}

impl View for VersionFacts {
    type V = VersionFactsView;

    open spec fn view(&self) -> VersionFactsView {
        VersionFactsView {
            required: list_view(self.required),
            formats: list_view(self.formats),
            columns: list_view(self.columns),
        }
    }
}

impl View for CrdFacts {
    type V = CrdFactsView;

    open spec fn view(&self) -> CrdFactsView {
        CrdFactsView {
            group: optional(self.group),
            kind: optional(self.kind),
            has_versions: self.has_versions,
            version: match self.version {
                Some(version) => Some(version@),
                None => None,
            },
        }
    }
}

/// The texts among some values, in order.
pub open spec fn texts_among(values: Seq<YamlView>) -> Seq<Seq<char>>
    decreases values.len(),
{
    if values.len() == 0 {
        Seq::empty()
    } else {
        match values.last().text() {
            Some(text) => texts_among(values.drop_last()).push(text),
            None => texts_among(values.drop_last()),
        }
    }
}

/// The texts under a key of some values, in order.
pub open spec fn members_among(values: Seq<YamlView>, key: Seq<char>) -> Seq<Seq<char>>
    decreases values.len(),
{
    if values.len() == 0 {
        Seq::empty()
    } else {
        match text_under(values.last(), key) {
            Some(text) => members_among(values.drop_last(), key).push(text),
            None => members_among(values.drop_last(), key),
        }
    }
}

/// The text under a key.
pub open spec fn text_under(value: YamlView, key: Seq<char>) -> Option<Seq<char>> {
    match value.member(key) {
        Some(found) => found.text(),
        None => None,
    }
}

/// Where the version of a name stands among the versions, or the length.
pub open spec fn version_index(versions: Seq<YamlView>, name: Seq<char>) -> nat
    decreases versions.len(),
{
    if versions.len() == 0 || text_under(versions[0], "name"@) == Some(name) {
        0
    } else {
        1 + version_index(versions.skip(1), name)
    }
}

/// The text reached by a path.
pub open spec fn text_at(value: YamlView, path: Seq<Seq<char>>) -> Option<Seq<char>> {
    match value.at(path) {
        Some(found) => found.text(),
        None => None,
    }
}

/// The list reached by a path.
pub open spec fn list_at(value: YamlView, path: Seq<Seq<char>>) -> Option<Seq<YamlView>> {
    match value.at(path) {
        Some(found) => found.list(),
        None => None,
    }
}

/// The path to the required fields of `spec` in a version.
pub open spec fn required_path() -> Seq<Seq<char>> {
    seq!["schema"@, "openAPIV3Schema"@, "properties"@, "spec"@, "required"@]
}

/// The path to the values of `recordFormat` in a version.
pub open spec fn formats_path() -> Seq<Seq<char>> {
    seq![
        "schema"@,
        "openAPIV3Schema"@,
        "properties"@,
        "spec"@,
        "properties"@,
        "recordFormat"@,
        "enum"@,
    ]
}

/// What a version says.
pub open spec fn version_facts(version: YamlView) -> VersionFactsView {
    VersionFactsView {
        required: match list_at(version, required_path()) {
            Some(values) => Some(texts_among(values)),
            None => None,
        },
        formats: match list_at(version, formats_path()) {
            Some(values) => Some(texts_among(values)),
            None => None,
        },
        columns: match list_at(version, seq!["additionalPrinterColumns"@]) {
            Some(values) => Some(members_among(values, "jsonPath"@)),
            None => None,
        },
    }
}

/// What a definition says.
pub open spec fn crd_facts(document: YamlView) -> CrdFactsView {
    let versions = list_at(document, seq!["spec"@, "versions"@]);
    CrdFactsView {
        group: text_at(document, seq!["spec"@, "group"@]),
        kind: text_at(document, seq!["spec"@, "names"@, "kind"@]),
        has_versions: versions is Some,
        version: match versions {
            Some(versions) => {
                let at = version_index(versions, "v1alpha1"@);
                if at < versions.len() {
                    Some(version_facts(versions[at as int]))
                } else {
                    None
                }
            },
            None => None,
        },
    }
}

fn texts_in(values: &Vec<serde_yaml::Value>) -> (texts: Vec<String>)
    ensures
        strings_view(texts@) == texts_among(yaml_contents(values@)),
{
    let ghost contents = yaml_contents(values@);
    let mut texts: Vec<String> = Vec::new();
    let mut at: usize = 0;
    assert(strings_view(texts@) =~= texts_among(contents.take(0)));
    while at < values.len()
        invariant
            at <= values@.len(),
            contents == yaml_contents(values@),
            strings_view(texts@) == texts_among(contents.take(at as int)),
        decreases values@.len() - at,
    {
        let ghost before = strings_view(texts@);
        assert(contents.take(at + 1).drop_last() =~= contents.take(at as int));
        if let Some(text) = yaml_text(&values[at]) {
            texts.push(text.to_owned());
            assert(strings_view(texts@) =~= before.push(text@));
        }
        at += 1;
    }
    assert(contents.take(at as int) =~= contents);
    texts
}

fn text_member<'a>(value: &'a serde_yaml::Value, key: &str) -> (text: Option<&'a str>)
    ensures
        match text {
            Some(text) => text_under(yaml_content(*value), key@) == Some(text@),
            None => text_under(yaml_content(*value), key@) is None,
        },
{
    match yaml_member(value, key) {
        Some(found) => yaml_text(found),
        None => None,
    }
}

fn members_in(values: &Vec<serde_yaml::Value>, key: &str) -> (texts: Vec<String>)
    ensures
        strings_view(texts@) == members_among(yaml_contents(values@), key@),
{
    let ghost contents = yaml_contents(values@);
    let mut texts: Vec<String> = Vec::new();
    let mut at: usize = 0;
    assert(strings_view(texts@) =~= members_among(contents.take(0), key@));
    while at < values.len()
        invariant
            at <= values@.len(),
            contents == yaml_contents(values@),
            strings_view(texts@) == members_among(contents.take(at as int), key@),
        decreases values@.len() - at,
    {
        let ghost before = strings_view(texts@);
        assert(contents.take(at + 1).drop_last() =~= contents.take(at as int));
        if let Some(text) = text_member(&values[at], key) {
            texts.push(text.to_owned());
            assert(strings_view(texts@) =~= before.push(text@));
        }
        at += 1;
    }
    assert(contents.take(at as int) =~= contents);
    texts
}

fn read_version(version: &serde_yaml::Value) -> (facts: VersionFacts)
    ensures
        facts@ == version_facts(yaml_content(*version)),
{
    let required_keys = ["schema", "openAPIV3Schema", "properties", "spec", "required"];
    let format_keys = [
        "schema",
        "openAPIV3Schema",
        "properties",
        "spec",
        "properties",
        "recordFormat",
        "enum",
    ];
    let column_keys = ["additionalPrinterColumns"];
    proof {
        assert(texts_view(required_keys@) =~= required_path());
        assert(texts_view(format_keys@) =~= formats_path());
        assert(texts_view(column_keys@) =~= seq!["additionalPrinterColumns"@]);
    }
    let required = match yaml_get(version, required_keys.as_slice()) {
        Some(found) => match yaml_list(found) {
            Some(values) => Some(texts_in(values)),
            None => None,
        },
        None => None,
    };
    let formats = match yaml_get(version, format_keys.as_slice()) {
        Some(found) => match yaml_list(found) {
            Some(values) => Some(texts_in(values)),
            None => None,
        },
        None => None,
    };
    let columns = match yaml_get(version, column_keys.as_slice()) {
        Some(found) => match yaml_list(found) {
            Some(values) => Some(members_in(values, "jsonPath")),
            None => None,
        },
        None => None,
    };
    VersionFacts { required, formats, columns }
}

fn owned_text_at(value: &serde_yaml::Value, path: &[&str]) -> (text: Option<String>)
    ensures
        optional(text) == text_at(yaml_content(*value), texts_view(path@)),
{
    match yaml_get(value, path) {
        Some(found) => match yaml_text(found) {
            Some(text) => Some(text.to_owned()),
            None => None,
        },
        None => None,
    }
}

/// Reads out of a parsed definition what the register depends on.
pub fn read_crd(document: &serde_yaml::Value) -> (facts: CrdFacts)
    ensures
        facts@ == crd_facts(yaml_content(*document)),
{
    let group_keys = ["spec", "group"];
    let kind_keys = ["spec", "names", "kind"];
    let version_keys = ["spec", "versions"];
    proof {
        assert(texts_view(group_keys@) =~= seq!["spec"@, "group"@]);
        assert(texts_view(kind_keys@) =~= seq!["spec"@, "names"@, "kind"@]);
        assert(texts_view(version_keys@) =~= seq!["spec"@, "versions"@]);
    }
    let group = owned_text_at(document, group_keys.as_slice());
    let kind = owned_text_at(document, kind_keys.as_slice());
    let versions = match yaml_get(document, version_keys.as_slice()) {
        Some(found) => yaml_list(found),
        None => None,
    };
    let versions = match versions {
        Some(versions) => versions,
        None => {
            return CrdFacts { group, kind, has_versions: false, version: None };
        },
    };
    let ghost contents = yaml_contents(versions@);
    let mut at: usize = 0;
    assert(contents.skip(0) =~= contents);
    while at < versions.len()
        invariant
            at <= versions@.len(),
            contents == yaml_contents(versions@),
            list_at(yaml_content(*document), seq!["spec"@, "versions"@]) == Some(contents),
            optional(group) == crd_facts(yaml_content(*document)).group,
            optional(kind) == crd_facts(yaml_content(*document)).kind,
            at + version_index(contents.skip(at as int), "v1alpha1"@) == version_index(
                contents,
                "v1alpha1"@,
            ),
        decreases versions@.len() - at,
    {
        assert(contents.skip(at as int)[0] == yaml_content(versions@[at as int]));
        assert(contents.skip(at as int).skip(1) =~= contents.skip(at + 1));
        let named = match text_member(&versions[at], "name") {
            Some(name) => same_text(name, "v1alpha1"),
            None => false,
        };
        if named {
            let version = Some(read_version(&versions[at]));
            return CrdFacts { group, kind, has_versions: true, version };
        }
        at += 1;
    }
    CrdFacts { group, kind, has_versions: true, version: None }
}

// The contract.

/// Texts in quotes, separated by commas.
pub open spec fn joined(texts: Seq<Seq<char>>) -> Seq<char>
    decreases texts.len(),
{
    if texts.len() == 0 {
        Seq::empty()
    } else if texts.len() == 1 {
        quoted(texts[0])
    } else {
        joined(texts.drop_last()) + ", "@ + quoted(texts.last())
    }
}

/// Texts as a list in brackets.
pub open spec fn bracketed(texts: Seq<Seq<char>>) -> Seq<char> {
    "["@ + joined(texts) + "]"@
}

/// What is wrong with one version, if anything is.
pub open spec fn version_fault(facts: VersionFactsView) -> Option<Seq<char>> {
    match facts.required {
        None => Some("missing spec.required"@),
        Some(required) => if !(required.contains("recordFormat"@) && required.contains("record"@)
            && required.contains("display"@)) {
            Some(
                "spec.required must include recordFormat, record, and display, got "@ + bracketed(
                    required,
                ),
            )
        } else {
            match facts.formats {
                None => Some("missing recordFormat enum"@),
                Some(formats) => if !formats.contains(RECORD_FORMAT_V1@) {
                    Some("recordFormat enum must include "@ + quoted(RECORD_FORMAT_V1@))
                } else {
                    match facts.columns {
                        None => Some("missing additionalPrinterColumns"@),
                        Some(columns) => if !(columns.contains(".spec.display.state"@)
                            && columns.contains(".spec.display.writerTerm"@)) {
                            Some(
                                "printer columns must include state and writerTerm display paths, got "@
                                    + bracketed(columns),
                            )
                        } else {
                            None
                        },
                    }
                },
            }
        },
    }
}

/// What is wrong with a definition, if anything is.
pub open spec fn crd_fault(facts: CrdFactsView) -> Option<Seq<char>> {
    if facts.group is None {
        Some("missing spec.group"@)
    } else if facts.group->0 != "scripture.dev"@ {
        Some("expected group scripture.dev, got "@ + quoted(facts.group->0))
    } else if facts.kind is None {
        Some("missing names.kind"@)
    } else if facts.kind->0 != "ServingAuthority"@ {
        Some("expected kind ServingAuthority, got "@ + quoted(facts.kind->0))
    } else if !facts.has_versions {
        Some("missing spec.versions"@)
    } else if facts.version is None {
        Some("missing v1alpha1 version"@)
    } else {
        version_fault(facts.version->0)
    }
}

/// Whether a list holds a text.
fn holds(texts: &Vec<String>, wanted: &str) -> (found: bool)
    ensures
        found == strings_view(texts@).contains(wanted@),
{
    let mut at: usize = 0;
    while at < texts.len()
        invariant
            at <= texts@.len(),
            forall|i: int| 0 <= i < at ==> (#[trigger] texts@[i])@ != wanted@,
        decreases texts@.len() - at,
    {
        if same_text(texts[at].as_str(), wanted) {
            assert(strings_view(texts@)[at as int] == wanted@);
            return true;
        }
        at += 1;
    }
    assert forall|i: int| 0 <= i < strings_view(texts@).len() implies strings_view(texts@)[i]
        != wanted@ by {
        assert(texts@[i]@ != wanted@);
    }
    false
}

fn push_bracketed(out: &mut String, texts: &Vec<String>)
    ensures
        final(out)@ == old(out)@ + bracketed(strings_view(texts@)),
{
    let ghost before = out@;
    let ghost view = strings_view(texts@);
    out.append("[");
    let mut at: usize = 0;
    assert(out@ =~= before + "["@ + joined(view.take(0)));
    while at < texts.len()
        invariant
            at <= texts@.len(),
            view == strings_view(texts@),
            out@ == before + "["@ + joined(view.take(at as int)),
        decreases texts@.len() - at,
    {
        let ghost so_far = out@;
        if at > 0 {
            out.append(", ");
        }
        out.append(quote(texts[at].as_str()).as_str());
        proof {
            assert(view.take(at + 1).drop_last() =~= view.take(at as int));
            assert(view.take(at + 1).last() == texts@[at as int]@);
            assert(out@ =~= before + "["@ + joined(view.take(at + 1)));
        }
        at += 1;
    }
    out.append("]");
    assert(view.take(at as int) =~= view);
    assert(out@ =~= before + bracketed(view));
}

fn check_version(facts: &VersionFacts) -> (verdict: Result<(), String>)
    ensures
        match verdict {
            Ok(_) => version_fault(facts@) is None,
            Err(message) => version_fault(facts@) == Some(message@),
        },
{
    let required = match &facts.required {
        Some(required) => required,
        None => {
            return Err("missing spec.required".to_owned());
        },
    };
    if !holds(required, "recordFormat") || !holds(required, "record") || !holds(
        required,
        "display",
    ) {
        let mut message = String::new();
        message.append("spec.required must include recordFormat, record, and display, got ");
        push_bracketed(&mut message, required);
        assert(message@
            =~= "spec.required must include recordFormat, record, and display, got "@ + bracketed(
            strings_view(required@),
        ));
        return Err(message);
    }
    match &facts.formats {
        Some(formats) => {
            if !holds(formats, RECORD_FORMAT_V1) {
                let mut message = String::new();
                message.append("recordFormat enum must include ");
                message.append(quote(RECORD_FORMAT_V1).as_str());
                assert(message@ =~= "recordFormat enum must include "@ + quoted(RECORD_FORMAT_V1@));
                return Err(message);
            }
        },
        None => {
            return Err("missing recordFormat enum".to_owned());
        },
    }
    match &facts.columns {
        Some(columns) => {
            if !holds(columns, ".spec.display.state") || !holds(
                columns,
                ".spec.display.writerTerm",
            ) {
                let mut message = String::new();
                message.append(
                    "printer columns must include state and writerTerm display paths, got ",
                );
                push_bracketed(&mut message, columns);
                assert(message@
                    =~= "printer columns must include state and writerTerm display paths, got "@
                    + bracketed(strings_view(columns@)));
                return Err(message);
            }
        },
        None => {
            return Err("missing additionalPrinterColumns".to_owned());
        },
    }
    Ok(())
}

/// Whether a definition agrees with the register, and what is wrong where it does not.
pub fn check_crd(facts: &CrdFacts) -> (verdict: Result<(), String>)
    ensures
        match verdict {
            Ok(_) => crd_fault(facts@) is None,
            Err(message) => crd_fault(facts@) == Some(message@),
        },
{
    match &facts.group {
        None => {
            return Err("missing spec.group".to_owned());
        },
        Some(group) => {
            if !same_text(group.as_str(), "scripture.dev") {
                let mut message = String::new();
                message.append("expected group scripture.dev, got ");
                message.append(quote(group.as_str()).as_str());
                assert(message@ =~= "expected group scripture.dev, got "@ + quoted(group@));
                return Err(message);
            }
        },
    }
    match &facts.kind {
        None => {
            return Err("missing names.kind".to_owned());
        },
        Some(kind) => {
            if !same_text(kind.as_str(), "ServingAuthority") {
                let mut message = String::new();
                message.append("expected kind ServingAuthority, got ");
                message.append(quote(kind.as_str()).as_str());
                assert(message@ =~= "expected kind ServingAuthority, got "@ + quoted(kind@));
                return Err(message);
            }
        },
    }
    if !facts.has_versions {
        return Err("missing spec.versions".to_owned());
    }
    match &facts.version {
        None => Err("missing v1alpha1 version".to_owned()),
        Some(version) => check_version(version),
    }
}

/// What is wrong with a definition's text, if anything is.
pub open spec fn crd_text_fault(document: Result<YamlView, Seq<char>>) -> Option<Seq<char>> {
    match document {
        Ok(document) => crd_fault(crd_facts(document)),
        Err(error) => Some("CRD YAML parse: "@ + error),
    }
}

/// Validates that the deployment CRD YAML agrees with the typed adapter contract.
pub fn assert_checked_in_crd_contract(yaml: &str) -> (verdict: Result<(), String>)
    ensures
        match verdict {
            Ok(_) => crd_text_fault(yaml_document(yaml@)) is None,
            Err(message) => crd_text_fault(yaml_document(yaml@)) == Some(message@),
        },
{
    match parse_yaml(yaml) {
        Ok(document) => check_crd(&read_crd(&document)),
        Err(error) => {
            let mut message = String::new();
            message.append("CRD YAML parse: ");
            message.append(error.as_str());
            assert(message@ =~= "CRD YAML parse: "@ + error@);
            Err(message)
        },
    }
}

// Laws.

/// A definition agrees exactly where it is the register's group and kind and has the version
/// whose schema requires, allows and shows what the register writes.
pub proof fn law_agreeing_definitions_pass(facts: CrdFactsView)
    ensures
        crd_fault(facts) is None <==> {
            &&& facts.group == Some("scripture.dev"@)
            &&& facts.kind == Some("ServingAuthority"@)
            &&& facts.has_versions
            &&& facts.version matches Some(version) && {
                &&& version.required matches Some(required) && required.contains("recordFormat"@)
                    && required.contains("record"@) && required.contains("display"@)
                &&& version.formats matches Some(formats) && formats.contains(
                    "scripture-serving-authority-v1"@,
                )
                &&& version.columns matches Some(columns) && columns.contains(
                    ".spec.display.state"@,
                ) && columns.contains(".spec.display.writerTerm"@)
            }
        },
{
}

/// A definition with one thing wrong is told which.
pub proof fn law_definitions_are_told_what_is_wrong(
    good: CrdFactsView,
    text: Seq<char>,
    texts: Seq<Seq<char>>,
)
    requires
        crd_fault(good) is None,
    ensures
        crd_fault(CrdFactsView { group: None, ..good }) == Some("missing spec.group"@),
        text != "scripture.dev"@ ==> crd_fault(CrdFactsView { group: Some(text), ..good }) == Some(
            "expected group scripture.dev, got "@ + quoted(text),
        ),
        crd_fault(CrdFactsView { kind: None, ..good }) == Some("missing names.kind"@),
        text != "ServingAuthority"@ ==> crd_fault(CrdFactsView { kind: Some(text), ..good })
            == Some("expected kind ServingAuthority, got "@ + quoted(text)),
        crd_fault(CrdFactsView { has_versions: false, ..good }) == Some("missing spec.versions"@),
        crd_fault(CrdFactsView { version: None, ..good }) == Some("missing v1alpha1 version"@),
        ({
            let version = good.version->0;
            let told = |odd: VersionFactsView|
                crd_fault(CrdFactsView { version: Some(odd), ..good });
            &&& told(VersionFactsView { required: None, ..version }) == Some(
                "missing spec.required"@,
            )
            &&& !texts.contains("record"@) ==> told(
                VersionFactsView { required: Some(texts), ..version },
            ) == Some(
                "spec.required must include recordFormat, record, and display, got "@ + bracketed(
                    texts,
                ),
            )
            &&& told(VersionFactsView { formats: None, ..version }) == Some(
                "missing recordFormat enum"@,
            )
            &&& !texts.contains(RECORD_FORMAT_V1@) ==> told(
                VersionFactsView { formats: Some(texts), ..version },
            ) == Some("recordFormat enum must include "@ + quoted(RECORD_FORMAT_V1@))
            &&& told(VersionFactsView { columns: None, ..version }) == Some(
                "missing additionalPrinterColumns"@,
            )
            &&& !texts.contains(".spec.display.state"@) ==> told(
                VersionFactsView { columns: Some(texts), ..version },
            ) == Some(
                "printer columns must include state and writerTerm display paths, got "@
                    + bracketed(texts),
            )
        }),
{
}

/// One more value adds its text, last, exactly where it is one, or has one under the key.
pub proof fn law_texts_are_gathered_in_order(
    values: Seq<YamlView>,
    value: YamlView,
    key: Seq<char>,
    text: Seq<char>,
    entries: Map<Seq<char>, YamlView>,
)
    ensures
        texts_among(values.push(YamlView::Text(text))) == texts_among(values).push(text),
        value !is Text ==> texts_among(values.push(value)) == texts_among(values),
        members_among(
            values.push(YamlView::Mapping(entries.insert(key, YamlView::Text(text)))),
            key,
        ) == members_among(values, key).push(text),
        value !is Mapping ==> members_among(values.push(value), key) == members_among(values, key),
        texts_among(Seq::empty()).len() == 0,
        members_among(Seq::empty(), key).len() == 0,
{
    assert(values.push(value).drop_last() =~= values);
    assert(values.push(YamlView::Text(text)).drop_last() =~= values);
    let mapping = YamlView::Mapping(entries.insert(key, YamlView::Text(text)));
    assert(values.push(mapping).drop_last() =~= values);
}

/// The version that counts is the first of its name.
pub proof fn law_the_first_version_of_a_name_counts(versions: Seq<YamlView>, name: Seq<char>)
    ensures
        ({
            let at = version_index(versions, name) as int;
            &&& at <= versions.len()
            &&& at < versions.len() ==> text_under(versions[at], "name"@) == Some(name)
            &&& forall|i: int|
                0 <= i < at ==> text_under(#[trigger] versions[i], "name"@) != Some(name)
        }),
    decreases versions.len(),
{
    if versions.len() > 0 && text_under(versions[0], "name"@) != Some(name) {
        let rest = versions.skip(1);
        law_the_first_version_of_a_name_counts(rest, name);
        let at = version_index(versions, name) as int;
        assert forall|i: int| 0 <= i < at implies text_under(#[trigger] versions[i], "name"@)
            != Some(name) by {
            if i > 0 {
                assert(rest[i - 1] == versions[i]);
            }
        }
        if at < versions.len() {
            assert(rest[at - 1] == versions[at]);
        }
    }
}

/// A path is followed key by key: what a mapping holds under the first key is where the rest
/// goes on, and what is no mapping, or lacks the key, has nothing there.
pub proof fn law_paths_are_followed_key_by_key(
    entries: Map<Seq<char>, YamlView>,
    key: Seq<char>,
    rest: Seq<Seq<char>>,
    value: YamlView,
)
    ensures
        entries.dom().contains(key) ==> YamlView::Mapping(entries).at(seq![key] + rest)
            == entries[key].at(rest),
        !entries.dom().contains(key) ==> YamlView::Mapping(entries).at(seq![key] + rest) is None,
        value !is Mapping ==> value.at(seq![key] + rest) is None,
        value.at(Seq::empty()) == Some(value),
{
    assert((seq![key] + rest).skip(1) =~= rest);
}

/// Texts are listed in their order, quoted and separated.
pub proof fn law_lists_name_their_texts(texts: Seq<Seq<char>>, text: Seq<char>)
    ensures
        texts.len() > 0 ==> joined(texts.push(text)) == joined(texts) + ", "@ + quoted(text),
        joined(seq![text]) == quoted(text),
        joined(Seq::empty()).len() == 0,
{
    assert(texts.push(text).drop_last() =~= texts);
}

/// What the definition says is what stands at its paths: the group, the kind, and of the named
/// version the required fields, the formats and the columns.
pub proof fn law_facts_stand_at_their_paths(document: YamlView, versions: Seq<YamlView>, at: int)
    requires
        list_at(document, seq!["spec"@, "versions"@]) == Some(versions),
        0 <= at < versions.len(),
        text_under(versions[at], "name"@) == Some("v1alpha1"@),
        forall|i: int|
            0 <= i < at ==> text_under(#[trigger] versions[i], "name"@) != Some("v1alpha1"@),
    ensures
        ({
            let facts = crd_facts(document);
            &&& facts.has_versions
            &&& facts.version is Some
            &&& list_at(
                versions[at],
                seq!["schema"@, "openAPIV3Schema"@, "properties"@, "spec"@, "required"@],
            ) matches Some(values) ==> facts.version->0.required == Some(texts_among(values))
            &&& list_at(
                versions[at],
                seq![
                    "schema"@,
                    "openAPIV3Schema"@,
                    "properties"@,
                    "spec"@,
                    "properties"@,
                    "recordFormat"@,
                    "enum"@,
                ],
            ) matches Some(values) ==> facts.version->0.formats == Some(texts_among(values))
            &&& list_at(versions[at], seq!["additionalPrinterColumns"@]) matches Some(values)
                ==> facts.version->0.columns == Some(members_among(values, "jsonPath"@))
            &&& facts.group == text_at(document, seq!["spec"@, "group"@])
            &&& facts.kind == text_at(document, seq!["spec"@, "names"@, "kind"@])
        }),
{
    law_the_first_version_of_a_name_counts(versions, "v1alpha1"@);
}

/// A definition is checked over a whole call.
pub proof fn law_definitions_over_whole_calls(
    facts: CrdFacts,
    verdict: Result<(), String>,
    yaml: &str,
    checked: Result<(), String>,
)
    requires
        call_ensures(check_crd, (&facts,), verdict),
        call_ensures(assert_checked_in_crd_contract, (yaml,), checked),
    ensures
        verdict is Ok ==> facts@.group == Some("scripture.dev"@) && facts@.kind == Some(
            "ServingAuthority"@,
        ) && facts@.has_versions && facts@.version is Some,
        verdict is Ok <==> crd_fault(facts@) is None,
        yaml_document(yaml@) is Err ==> checked is Err,
        yaml_document(yaml@) matches Ok(document) ==> (checked is Ok <==> crd_fault(
            crd_facts(document),
        ) is None),
{
    law_agreeing_definitions_pass(facts@);
}

} // verus!
