//! Records, their attributes, and the submissions that carry them.
use crate::buffers::held;
use crate::ids::ProducerId;
use crate::text::{
    is_text_before, same_text, lemma_bytes_before_asymmetric, lemma_bytes_before_total,
    lemma_bytes_before_transitive, lemma_encode_utf8_injective, text_before,
};
use vstd::prelude::*;
use vstd::utf8::encode_utf8;

verus! {

/// Value of one record attribute.
#[derive(Debug, PartialEq, Eq)]
pub enum AttributeValue {
    String(String),
    I64(i64),
    Bool(bool),
}

/// What an attribute value is, apart from its representation.
pub enum AttributeView {
    Text(Seq<char>),
    Number(i64),
    Flag(bool),
}

impl View for AttributeValue {
    type V = AttributeView;

    open spec fn view(&self) -> AttributeView {
        match self {
            AttributeValue::String(text) => AttributeView::Text(text@),
            AttributeValue::I64(number) => AttributeView::Number(*number),
            AttributeValue::Bool(flag) => AttributeView::Flag(*flag),
        }
    }
}

impl Clone for AttributeValue {
    fn clone(&self) -> (copy: Self)
        ensures
            copy@ == self@,
    {
        match self {
            AttributeValue::String(text) => AttributeValue::String(text.clone()),
            AttributeValue::I64(number) => AttributeValue::I64(*number),
            AttributeValue::Bool(flag) => AttributeValue::Bool(*flag),
        }
    }
}

/// Attributes in the order of their keys.
pub type AttributeSeq = Seq<(Seq<char>, AttributeView)>;

/// Whether each key comes strictly after the one before it.
pub open spec fn keys_ascend(entries: AttributeSeq) -> bool {
    forall|i: int| 0 < i < entries.len() ==> text_before(#[trigger] entries[i - 1].0, entries[i].0)
}

/// Whether some attribute has this key.
pub open spec fn has_key(entries: AttributeSeq, key: Seq<char>) -> bool {
    exists|i: int| 0 <= i < entries.len() && #[trigger] entries[i].0 == key
}

/// Position of the attribute with this key.
pub open spec fn key_index(entries: AttributeSeq, key: Seq<char>) -> int {
    choose|i: int| 0 <= i < entries.len() && #[trigger] entries[i].0 == key
}

/// The attributes as a map from keys to values.
pub open spec fn attribute_map(entries: AttributeSeq) -> Map<Seq<char>, AttributeView> {
    Map::new(|key: Seq<char>| has_key(entries, key), |key: Seq<char>| entries[key_index(entries, key)].1)
}

/// Ascending keys are ascending over any distance, so no two are equal.
pub proof fn lemma_keys_ascend_apart(entries: AttributeSeq, low: int, high: int)
    requires
        keys_ascend(entries),
        0 <= low < high < entries.len(),
    ensures
        text_before(entries[low].0, entries[high].0),
        entries[low].0 != entries[high].0,
    decreases high - low,
{
    assert(text_before(entries[high - 1].0, entries[high].0));
    if low < high - 1 {
        lemma_keys_ascend_apart(entries, low, high - 1);
        lemma_bytes_before_transitive(
            encode_utf8(entries[low].0),
            encode_utf8(entries[high - 1].0),
            encode_utf8(entries[high].0),
        );
    }
    lemma_bytes_before_asymmetric(encode_utf8(entries[low].0), encode_utf8(entries[high].0));
}

/// Attributes of a record: at most one value per key, kept in key order.
#[derive(Debug, PartialEq, Eq)]
pub struct Attributes {
    entries: Vec<(String, AttributeValue)>,
}

/// The attribute entries by their views.
pub open spec fn entries_view(entries: Seq<(String, AttributeValue)>) -> AttributeSeq {
    entries.map_values(|entry: (String, AttributeValue)| (entry.0@, entry.1@))
}

impl View for Attributes {
    type V = AttributeSeq;

    closed spec fn view(&self) -> AttributeSeq {
        entries_view(self.entries@)
    }
}

impl Attributes {
    #[verifier::type_invariant]
    spec fn ordered(self) -> bool {
        keys_ascend(entries_view(self.entries@))
    }

    /// No attributes.
    pub fn new() -> (attributes: Self)
        ensures
            attributes@ == AttributeSeq::empty(),
    {
        let entries: Vec<(String, AttributeValue)> = Vec::new();
        assert(entries_view(entries@) =~= AttributeSeq::empty());
        Attributes { entries }
    }

    /// The attributes of a list whose keys ascend.
    pub(crate) fn from_ascending(entries: Vec<(String, AttributeValue)>) -> (attributes: Self)
        requires
            keys_ascend(entries_view(entries@)),
        ensures
            attributes@ == entries_view(entries@),
    {
        Attributes { entries }
    }

    /// The keys of a record's attributes ascend.
    pub(crate) fn entries(&self) -> (entries: &Vec<(String, AttributeValue)>)
        ensures
            entries_view(entries@) == self@,
            keys_ascend(self@),
    {
        proof {
            use_type_invariant(self);
        }
        &self.entries
    }

    /// How many attributes there are.
    pub fn len(&self) -> (count: usize)
        ensures
            count == self@.len(),
    {
        self.entries.len()
    }

    /// The value under `key`, if there is one.
    pub fn get(&self, key: &str) -> (value: Option<&AttributeValue>)
        ensures
            keys_ascend(self@),
            match value {
                Some(value) => attribute_map(self@).contains_key(key@) && attribute_map(self@)[key@]
                    == value@,
                None => !attribute_map(self@).contains_key(key@),
            },
    {
        proof {
            use_type_invariant(self);
        }
        let mut at: usize = 0;
        while at < self.entries.len()
            invariant
                at <= self.entries@.len(),
                keys_ascend(self@),
                forall|i: int| 0 <= i < at ==> (#[trigger] self@[i]).0 != key@,
            decreases self.entries@.len() - at,
        {
            if same_text(self.entries[at].0.as_str(), key) {
                proof {
                    assert(self@[at as int].0 == key@);
                    let found = key_index(self@, key@);
                    if found < at {
                        lemma_keys_ascend_apart(self@, found, at as int);
                    } else if at < found {
                        lemma_keys_ascend_apart(self@, at as int, found);
                    }
                }
                return Some(&self.entries[at].1);
            }
            assert(self@[at as int].0 != key@);
            at += 1;
        }
        None
    }

    /// Puts `value` under `key`, in place of what was there.
    pub fn insert(&mut self, key: String, value: AttributeValue)
        ensures
            keys_ascend(final(self)@),
            attribute_map(final(self)@) == attribute_map(old(self)@).insert(key@, value@),
    {
        proof {
            use_type_invariant(&*self);
        }
        let ghost before = self@;
        let ghost new_key = key@;
        let ghost new_value = value@;
        let mut entries: Vec<(String, AttributeValue)> = Vec::new();
        std::mem::swap(&mut entries, &mut self.entries);
        let mut at: usize = 0;
        while at < entries.len() && is_text_before(entries[at].0.as_str(), key.as_str())
            invariant
                at <= entries@.len(),
                entries_view(entries@) == before,
                key@ == new_key,
                forall|i: int| 0 <= i < at ==> text_before((#[trigger] before[i]).0, new_key),
            ensures
                at <= entries@.len(),
                entries_view(entries@) == before,
                forall|i: int| 0 <= i < at ==> text_before((#[trigger] before[i]).0, new_key),
                at < entries@.len() ==> !text_before(before[at as int].0, new_key),
            decreases entries@.len() - at,
        {
            assert(before[at as int].0 == entries@[at as int].0@);
            at += 1;
        }
        let replaces = at < entries.len() && same_text(entries[at].0.as_str(), key.as_str());
        if replaces {
            assert(before[at as int].0 == new_key);
            entries.remove(at);
            entries.insert(at, (key, value));
            proof {
                lemma_replaced(before, at as int, new_key, new_value);
                assert(entries_view(entries@) =~= before.update(at as int, (new_key, new_value)));
            }
        } else {
            proof {
                if at < before.len() {
                    assert(before[at as int].0 == entries@[at as int].0@);
                    lemma_bytes_before_total(encode_utf8(before[at as int].0), encode_utf8(new_key));
                    if encode_utf8(before[at as int].0) == encode_utf8(new_key) {
                        lemma_encode_utf8_injective(before[at as int].0, new_key);
                    }
                }
                lemma_inserted(before, at as int, new_key, new_value);
            }
            entries.insert(at, (key, value));
            assert(entries_view(entries@) =~= before.insert(at as int, (new_key, new_value)));
        }
        self.entries = entries;
    }
}

proof fn lemma_replaced(entries: AttributeSeq, at: int, key: Seq<char>, value: AttributeView)
    requires
        keys_ascend(entries),
        0 <= at < entries.len(),
        entries[at].0 == key,
    ensures
        keys_ascend(entries.update(at, (key, value))),
        attribute_map(entries.update(at, (key, value))) == attribute_map(entries).insert(key, value),
{
    let after = entries.update(at, (key, value));
    assert forall|i: int| 0 < i < after.len() implies text_before(
        #[trigger] after[i - 1].0,
        after[i].0,
    ) by {
        assert(text_before(entries[i - 1].0, entries[i].0));
    }
    assert forall|other: Seq<char>| has_key(after, other) == (has_key(entries, other) || other
        == key) by {
        if has_key(entries, other) {
            let i = key_index(entries, other);
            assert(after[i].0 == other);
        }
        if has_key(after, other) {
            let i = key_index(after, other);
            assert(entries[i].0 == other);
        }
        assert(after[at].0 == key);
    }
    assert forall|other: Seq<char>| has_key(after, other) implies #[trigger] attribute_map(
        after,
    )[other] == attribute_map(entries).insert(key, value)[other] by {
        let i = key_index(after, other);
        lemma_key_index(after, i);
        if i != at {
            lemma_key_index(entries, i);
            if other == key {
                lemma_key_index(after, at);
            }
        }
    }
    assert(attribute_map(after) =~= attribute_map(entries).insert(key, value));
}

proof fn lemma_inserted(entries: AttributeSeq, at: int, key: Seq<char>, value: AttributeView)
    requires
        keys_ascend(entries),
        0 <= at <= entries.len(),
        forall|i: int| 0 <= i < at ==> text_before((#[trigger] entries[i]).0, key),
        at < entries.len() ==> text_before(key, entries[at].0),
    ensures
        keys_ascend(entries.insert(at, (key, value))),
        attribute_map(entries.insert(at, (key, value))) == attribute_map(entries).insert(key, value),
{
    let after = entries.insert(at, (key, value));
    assert forall|i: int| 0 < i < after.len() implies text_before(
        #[trigger] after[i - 1].0,
        after[i].0,
    ) by {
        if i < at {
            assert(text_before(entries[i - 1].0, entries[i].0));
        } else if i > at + 1 {
            let shifted = i - 1;
            assert(text_before(entries[shifted - 1].0, entries[shifted].0));
        } else if i == at {
            assert(text_before(entries[i - 1].0, key));
        }
    }
    assert forall|other: Seq<char>| has_key(after, other) == (has_key(entries, other) || other
        == key) by {
        if has_key(entries, other) {
            let i = key_index(entries, other);
            if i < at {
                assert(after[i].0 == other);
            } else {
                assert(after[i + 1].0 == other);
            }
        }
        if has_key(after, other) {
            let i = key_index(after, other);
            if i < at {
                assert(entries[i].0 == other);
            } else if i > at {
                assert(entries[i - 1].0 == other);
            }
        }
        assert(after[at].0 == key);
    }
    assert forall|other: Seq<char>| has_key(after, other) implies #[trigger] attribute_map(
        after,
    )[other] == attribute_map(entries).insert(key, value)[other] by {
        let i = key_index(after, other);
        if i < at {
            lemma_keys_ascend_apart(after, i, at);
            lemma_key_index(entries, i);
        } else if i > at {
            lemma_keys_ascend_apart(after, at, i);
            lemma_key_index(entries, i - 1);
        }
    }
    assert(attribute_map(after) =~= attribute_map(entries).insert(key, value));
}

/// The position of a key is the only one at which it stands.
proof fn lemma_key_index(entries: AttributeSeq, at: int)
    requires
        keys_ascend(entries),
        0 <= at < entries.len(),
    ensures
        has_key(entries, entries[at].0),
        key_index(entries, entries[at].0) == at,
{
    let found = key_index(entries, entries[at].0);
    assert(entries[at].0 == entries[at].0);
    assert(0 <= found < entries.len() && entries[found].0 == entries[at].0);
    if found < at {
        lemma_keys_ascend_apart(entries, found, at);
    } else if at < found {
        lemma_keys_ascend_apart(entries, at, found);
    }
}

impl Clone for Attributes {
    fn clone(&self) -> (copy: Self)
        ensures
            copy@ == self@,
    {
        proof {
            use_type_invariant(self);
        }
        let mut entries: Vec<(String, AttributeValue)> = Vec::new();
        let mut at: usize = 0;
        while at < self.entries.len()
            invariant
                at <= self.entries@.len(),
                entries_view(entries@) == self@.take(at as int),
            decreases self.entries@.len() - at,
        {
            let ghost copied = entries_view(entries@);
            let key = self.entries[at].0.clone();
            let value = self.entries[at].1.clone();
            entries.push((key, value));
            assert(entries_view(entries@) =~= copied.push(self@[at as int]));
            at += 1;
            assert(entries_view(entries@) =~= self@.take(at as int));
        }
        assert(entries_view(entries@) =~= self@);
        Attributes { entries }
    }
}

/// One record: attributes and an opaque payload.
#[derive(Debug, PartialEq, Eq)]
pub struct Record {
    pub attributes: Attributes,
    pub payload: bytes::Bytes,
}

/// What a record is, apart from its representation.
pub struct RecordView {
    pub attributes: AttributeSeq,
    pub payload: Seq<u8>,
}

impl View for Record {
    type V = RecordView;

    open spec fn view(&self) -> RecordView {
        RecordView { attributes: self.attributes@, payload: held(self.payload) }
    }
}

impl Clone for Record {
    fn clone(&self) -> (copy: Self)
        ensures
            copy@ == self@,
    {
        Record { attributes: self.attributes.clone(), payload: self.payload.clone() }
    }
}

impl Record {
    /// Record with these attributes and this payload.
    pub fn new(attributes: Attributes, payload: bytes::Bytes) -> (record: Self)
        ensures
            record@ == (RecordView { attributes: attributes@, payload: held(payload) }),
    {
        Record { attributes, payload }
    }
}

/// Records by their views.
pub open spec fn records_view(records: Seq<Record>) -> Seq<RecordView> {
    records.map_values(|record: Record| record@)
}

/// Producer-originated batch under one identity.
#[derive(Debug, PartialEq, Eq)]
pub struct Submission {
    pub producer_id: ProducerId,
    pub producer_epoch: u32,
    pub sequence: u64,
    pub records: Vec<Record>,
}

/// What a submission is, apart from its representation.
pub struct SubmissionView {
    pub producer_id: Seq<u8>,
    pub producer_epoch: u32,
    pub sequence: u64,
    pub records: Seq<RecordView>,
}

impl View for Submission {
    type V = SubmissionView;

    open spec fn view(&self) -> SubmissionView {
        SubmissionView {
            producer_id: self.producer_id@,
            producer_epoch: self.producer_epoch,
            sequence: self.sequence,
            records: records_view(self.records@),
        }
    }
}

impl Clone for Submission {
    fn clone(&self) -> (copy: Self)
        ensures
            copy@ == self@,
    {
        let records = self.records.clone();
        assert(records_view(records@) =~= records_view(self.records@));
        Submission {
            producer_id: self.producer_id,
            producer_epoch: self.producer_epoch,
            sequence: self.sequence,
            records,
        }
    }
}

} // verus!
