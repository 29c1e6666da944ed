//! Maps keyed by submission identity, kept in identity order.
use crate::ids::{same_identity, ProducerId};
use crate::model::{Submission, SubmissionView};
use crate::text::{
    bytes_before, is_bytes_before, lemma_bytes_before_asymmetric, lemma_bytes_before_total,
    lemma_bytes_before_transitive,
};
use vstd::prelude::*;

verus! {

/// Stable identity for one producer submission in the continuity outbox.
#[derive(Debug, Clone, Copy, PartialEq, Eq, PartialOrd, Ord, Hash)]
pub struct ContinuityId {
    /// Producer that originated the submission.
    pub producer_id: ProducerId,
    /// Producer incarnation.
    pub producer_epoch: u32,
    /// Strictly increasing sequence under `(producer_id, producer_epoch)`.
    pub sequence: u64,
}

/// What a continuity identity is, apart from its representation.
pub struct IdView {
    pub producer_id: Seq<u8>,
    pub producer_epoch: u32,
    pub sequence: u64,
}

impl View for ContinuityId {
    type V = IdView;

    open spec fn view(&self) -> IdView {
        IdView {
            producer_id: self.producer_id@,
            producer_epoch: self.producer_epoch,
            sequence: self.sequence,
        }
    }
}

/// The identity of a submission.
pub open spec fn submission_id(submission: SubmissionView) -> IdView {
    IdView {
        producer_id: submission.producer_id,
        producer_epoch: submission.producer_epoch,
        sequence: submission.sequence,
    }
}

/// The order of identities: producer, then epoch, then sequence.
pub open spec fn id_before(left: IdView, right: IdView) -> bool {
    ||| bytes_before(left.producer_id, right.producer_id)
    ||| left.producer_id == right.producer_id && left.producer_epoch < right.producer_epoch
    ||| left.producer_id == right.producer_id && left.producer_epoch == right.producer_epoch
        && left.sequence < right.sequence
}

/// The order of identities is total.
pub proof fn lemma_id_before_total(left: IdView, right: IdView)
    ensures
        id_before(left, right) || left == right || id_before(right, left),
{
    lemma_bytes_before_total(left.producer_id, right.producer_id);
}

/// No identity comes before itself, and no two come before each other.
pub proof fn lemma_id_before_asymmetric(left: IdView, right: IdView)
    ensures
        id_before(left, right) ==> left != right && !id_before(right, left),
{
    lemma_bytes_before_asymmetric(left.producer_id, right.producer_id);
    lemma_bytes_before_asymmetric(right.producer_id, left.producer_id);
}

/// The order of identities is transitive.
pub proof fn lemma_id_before_transitive(first: IdView, second: IdView, third: IdView)
    requires
        id_before(first, second),
        id_before(second, third),
    ensures
        id_before(first, third),
{
    if bytes_before(first.producer_id, second.producer_id) && bytes_before(
        second.producer_id,
        third.producer_id,
    ) {
        lemma_bytes_before_transitive(first.producer_id, second.producer_id, third.producer_id);
    }
}

impl ContinuityId {
    /// Extracts identity from a submission.
    pub fn from_submission(submission: &Submission) -> (id: Self)
        ensures
            id@ == submission_id(submission@),
    {
        ContinuityId {
            producer_id: submission.producer_id,
            producer_epoch: submission.producer_epoch,
            sequence: submission.sequence,
        }
    }

    /// Whether two identities are the same.
    pub fn same(&self, other: &ContinuityId) -> (same: bool)
        ensures
            same == (self@ == other@),
    {
        same_identity(&self.producer_id.bytes, &other.producer_id.bytes) && self.producer_epoch
            == other.producer_epoch && self.sequence == other.sequence
    }

    /// Whether this identity comes before the other.
    pub fn is_before(&self, other: &ContinuityId) -> (before: bool)
        ensures
            before == id_before(self@, other@),
    {
        is_bytes_before(
            self.producer_id.bytes.as_slice(),
            other.producer_id.bytes.as_slice(),
        ) || same_identity(&self.producer_id.bytes, &other.producer_id.bytes) && (
        self.producer_epoch < other.producer_epoch || self.producer_epoch == other.producer_epoch
            && self.sequence < other.sequence)
    }
}

/// Whether each identity comes before the next.
pub open spec fn ids_ascend(ids: Seq<IdView>) -> bool {
    forall|i: int| 0 < i < ids.len() ==> id_before(#[trigger] ids[i - 1], ids[i])
}

/// Ascending identities ascend over any distance.
pub proof fn lemma_ids_ascend_apart(ids: Seq<IdView>, low: int, high: int)
    requires
        ids_ascend(ids),
        0 <= low < high < ids.len(),
    ensures
        id_before(ids[low], ids[high]),
        ids[low] != ids[high],
    decreases high - low,
{
    assert(id_before(ids[high - 1], ids[high]));
    if low < high - 1 {
        lemma_ids_ascend_apart(ids, low, high - 1);
        lemma_id_before_transitive(ids[low], ids[high - 1], ids[high]);
    }
    lemma_id_before_asymmetric(ids[low], ids[high]);
}

/// Map from identities to values; its entries stand in identity order.
#[derive(Debug, PartialEq, Eq)]
pub struct IdMap<V> {
    entries: Vec<(ContinuityId, V)>,
}

/// The identities of the entries.
pub open spec fn entry_ids<V>(entries: Seq<(ContinuityId, V)>) -> Seq<IdView> {
    entries.map_values(|entry: (ContinuityId, V)| entry.0@)
}

/// The entries as a map.
pub open spec fn entry_map<V>(entries: Seq<(ContinuityId, V)>) -> Map<IdView, V> {
    Map::new(
        |id: IdView| entry_ids(entries).contains(id),
        |id: IdView| entries[entry_ids(entries).index_of(id)].1,
    )
}

impl<V> View for IdMap<V> {
    type V = Map<IdView, V>;

    closed spec fn view(&self) -> Map<IdView, V> {
        entry_map(self.entries@)
    }
}

impl<V> IdMap<V> {
    #[verifier::type_invariant]
    spec fn ordered(self) -> bool {
        ids_ascend(entry_ids(self.entries@))
    }

    /// The identities in order.
    pub closed spec fn ids(&self) -> Seq<IdView> {
        entry_ids(self.entries@)
    }

    /// The entries in order.
    pub closed spec fn listed(&self) -> Seq<(ContinuityId, V)> {
        self.entries@
    }

    /// No entries.
    pub fn new() -> (map: Self)
        ensures
            map@ == Map::<IdView, V>::empty(),
    {
        let entries: Vec<(ContinuityId, V)> = Vec::new();
        assert(entry_map(entries@) =~= Map::<IdView, V>::empty());
        IdMap { entries }
    }

    /// How many entries there are.
    pub fn len(&self) -> (count: usize)
        ensures
            count == self.ids().len(),
    {
        self.entries.len()
    }

    /// The position of the first identity that does not come before `id`.
    fn position(entries: &Vec<(ContinuityId, V)>, id: &ContinuityId) -> (at: usize)
        requires
            ids_ascend(entry_ids(entries@)),
        ensures
            at <= entries@.len(),
            forall|i: int| 0 <= i < at ==> id_before(#[trigger] entry_ids(entries@)[i], id@),
            forall|i: int|
                at <= i < entries@.len() ==> !id_before(#[trigger] entry_ids(entries@)[i], id@),
    {
        let mut low: usize = 0;
        let mut high: usize = entries.len();
        let ghost ids = entry_ids(entries@);
        while low < high
            invariant
                low <= high <= entries@.len(),
                ids == entry_ids(entries@),
                ids_ascend(ids),
                forall|i: int| 0 <= i < low ==> id_before(#[trigger] ids[i], id@),
                forall|i: int| high <= i < ids.len() ==> !id_before(#[trigger] ids[i], id@),
            decreases high - low,
        {
            let middle: usize = low + (high - low) / 2;
            assert(ids[middle as int] == entries@[middle as int].0@);
            if entries[middle].0.is_before(id) {
                assert forall|i: int| 0 <= i < middle + 1 implies id_before(
                    #[trigger] ids[i],
                    id@,
                ) by {
                    if i < middle {
                        lemma_ids_ascend_apart(ids, i, middle as int);
                        lemma_id_before_transitive(ids[i], ids[middle as int], id@);
                    }
                }
                low = middle + 1;
            } else {
                assert forall|i: int| middle <= i < ids.len() implies !id_before(
                    #[trigger] ids[i],
                    id@,
                ) by {
                    if middle < i && id_before(ids[i], id@) {
                        lemma_ids_ascend_apart(ids, middle as int, i);
                        lemma_id_before_transitive(ids[middle as int], ids[i], id@);
                    }
                }
                high = middle;
            }
        }
        low
    }

    /// Where `id` would stand, nothing else with the same identity can be.
    proof fn lemma_position(ids: Seq<IdView>, id: IdView, at: int)
        requires
            ids_ascend(ids),
            0 <= at <= ids.len(),
            forall|i: int| 0 <= i < at ==> id_before(#[trigger] ids[i], id),
            forall|i: int| at <= i < ids.len() ==> !id_before(#[trigger] ids[i], id),
        ensures
            ids.contains(id) <==> at < ids.len() && ids[at] == id,
            ids.contains(id) ==> ids.index_of(id) == at,
            at < ids.len() && ids[at] != id ==> id_before(id, ids[at]),
    {
        if at < ids.len() {
            lemma_id_before_total(ids[at], id);
        }
        if ids.contains(id) {
            let found = ids.index_of(id);
            assert(ids[found] == id);
            lemma_id_before_asymmetric(id, id);
            if found < at {
                assert(id_before(ids[found], id));
            } else if at < found {
                lemma_ids_ascend_apart(ids, at, found);
            }
        }
    }

    /// Whether there is an entry for `id`.
    pub fn contains(&self, id: &ContinuityId) -> (found: bool)
        ensures
            found == self@.contains_key(id@),
    {
        proof {
            use_type_invariant(self);
        }
        let at: usize = Self::position(&self.entries, id);
        proof {
            Self::lemma_position(entry_ids(self.entries@), id@, at as int);
        }
        at < self.entries.len() && self.entries[at].0.same(id)
    }

    /// The value for `id`.
    pub fn get(&self, id: &ContinuityId) -> (value: Option<&V>)
        ensures
            match value {
                Some(value) => self@.contains_key(id@) && self@[id@] == *value,
                None => !self@.contains_key(id@),
            },
    {
        proof {
            use_type_invariant(self);
        }
        let at: usize = Self::position(&self.entries, id);
        proof {
            Self::lemma_position(entry_ids(self.entries@), id@, at as int);
        }
        if at < self.entries.len() && self.entries[at].0.same(id) {
            Some(&self.entries[at].1)
        } else {
            None
        }
    }

    /// The entry at a position.
    pub fn entry(&self, at: usize) -> (entry: &(ContinuityId, V))
        requires
            at < self.ids().len(),
        ensures
            *entry == self.listed()[at as int],
    {
        &self.entries[at]
    }

    /// The listed entries ascend and are the entries of the map.
    pub fn listing(&self) -> (entries: &Vec<(ContinuityId, V)>)
        ensures
            entries@ == self.listed(),
            entry_ids(entries@) == self.ids(),
            ids_ascend(self.ids()),
            forall|i: int|
                0 <= i < entries@.len() ==> self@.contains_key((#[trigger] entries@[i]).0@)
                    && self@[entries@[i].0@] == entries@[i].1,
            forall|id: IdView| self@.contains_key(id) ==> self.ids().contains(id),
    {
        proof {
            use_type_invariant(self);
            assert forall|i: int| 0 <= i < self.entries@.len() implies self@.contains_key(
                (#[trigger] self.entries@[i]).0@,
            ) && self@[self.entries@[i].0@] == self.entries@[i].1 by {
                let ids = entry_ids(self.entries@);
                assert(ids[i] == self.entries@[i].0@);
                let found = ids.index_of(ids[i]);
                assert(ids.contains(ids[i]));
                if found < i {
                    lemma_ids_ascend_apart(ids, found, i);
                } else if i < found {
                    lemma_ids_ascend_apart(ids, i, found);
                }
            }
        }
        &self.entries
    }

    /// Puts `value` under `id`, in place of what was there.
    pub fn insert(&mut self, id: ContinuityId, value: V)
        ensures
            final(self)@ == old(self)@.insert(id@, value),
    {
        proof {
            use_type_invariant(&*self);
        }
        let mut entries: Vec<(ContinuityId, V)> = Vec::new();
        std::mem::swap(&mut entries, &mut self.entries);
        let ghost before = entries@;
        let ghost ids = entry_ids(before);
        let at: usize = Self::position(&entries, &id);
        proof {
            Self::lemma_position(ids, id@, at as int);
        }
        if at < entries.len() && entries[at].0.same(&id) {
            entries.remove(at);
            entries.insert(at, (id, value));
            assert(entries@ =~= before.update(at as int, (id, value)));
            assert(entry_ids(entries@) =~= ids);
            assert(entry_map(entries@) =~= entry_map(before).insert(id@, value)) by {
                assert forall|other: IdView| ids.contains(other) && other != id@ implies #[trigger]
                ids.index_of(other) != at by {
                    assert(ids[ids.index_of(other)] == other);
                }
            }
        } else {
            entries.insert(at, (id, value));
            assert(entries@ =~= before.insert(at as int, (id, value)));
            proof {
                Self::lemma_inserted(before, at as int, id, value);
            }
        }
        self.entries = entries;
    }

    proof fn lemma_inserted(
        before: Seq<(ContinuityId, V)>,
        at: int,
        id: ContinuityId,
        value: V,
    )
        requires
            ids_ascend(entry_ids(before)),
            0 <= at <= before.len(),
            forall|i: int| 0 <= i < at ==> id_before(#[trigger] entry_ids(before)[i], id@),
            at < before.len() ==> id_before(id@, entry_ids(before)[at]),
        ensures
            ids_ascend(entry_ids(before.insert(at, (id, value)))),
            entry_map(before.insert(at, (id, value))) == entry_map(before).insert(id@, value),
    {
        let after = before.insert(at, (id, value));
        let old_ids = entry_ids(before);
        let ids = entry_ids(after);
        assert(ids =~= old_ids.insert(at, id@));
        assert forall|i: int| 0 < i < ids.len() implies id_before(#[trigger] ids[i - 1], ids[i]) by {
            if i < at {
                assert(id_before(old_ids[i - 1], old_ids[i]));
            } else if i > at + 1 {
                let shifted = i - 1;
                assert(id_before(old_ids[shifted - 1], old_ids[shifted]));
            }
        }
        assert forall|other: IdView| ids.contains(other) == (old_ids.contains(other) || other
            == id@) by {
            if old_ids.contains(other) {
                let i = old_ids.index_of(other);
                assert(old_ids[i] == other);
                if i < at {
                    assert(ids[i] == other);
                } else {
                    assert(ids[i + 1] == other);
                }
            }
            if ids.contains(other) {
                let i = ids.index_of(other);
                assert(ids[i] == other);
                if i < at {
                    assert(old_ids[i] == other);
                } else if i > at {
                    assert(old_ids[i - 1] == other);
                }
            }
            assert(ids[at] == id@);
        }
        assert forall|other: IdView| ids.contains(other) implies #[trigger] entry_map(after)[other]
            == entry_map(before).insert(id@, value)[other] by {
            let i = ids.index_of(other);
            assert(ids[i] == other);
            if i < at {
                lemma_ids_ascend_apart(ids, i, at);
                lemma_index_of(old_ids, i);
            } else if i > at {
                lemma_ids_ascend_apart(ids, at, i);
                lemma_index_of(old_ids, i - 1);
            }
        }
        assert(entry_map(after) =~= entry_map(before).insert(id@, value));
    }

    /// Whether every identity of this map is one of the other.
    pub fn ids_are_in<W>(&self, other: &IdMap<W>) -> (within: bool)
        ensures
            within == self@.dom().subset_of(other@.dom()),
    {
        let mine = self.listing();
        let mut at: usize = 0;
        while at < mine.len()
            invariant
                at <= mine@.len(),
                mine@ == self.listed(),
                forall|i: int|
                    0 <= i < mine@.len() ==> self@.contains_key((#[trigger] mine@[i]).0@),
                forall|i: int|
                    0 <= i < at ==> other@.contains_key((#[trigger] mine@[i]).0@),
            decreases mine@.len() - at,
        {
            if !other.contains(&mine[at].0) {
                assert(self@.contains_key(mine@[at as int].0@));
                assert(self@.dom().contains(mine@[at as int].0@));
                return false;
            }
            at += 1;
        }
        proof {
            assert forall|id: IdView| self@.dom().contains(id) implies other@.dom().contains(id) by {
                assert(self@.contains_key(id));
                let found = self.ids().index_of(id);
                assert(self.ids()[found] == id);
                assert(mine@[found].0@ == id);
            }
        }
        true
    }
}

/// In ascending identities an identity stands at one position only.
proof fn lemma_index_of(ids: Seq<IdView>, at: int)
    requires
        ids_ascend(ids),
        0 <= at < ids.len(),
    ensures
        ids.contains(ids[at]),
        ids.index_of(ids[at]) == at,
{
    let found = ids.index_of(ids[at]);
    assert(ids.contains(ids[at]));
    if found < at {
        lemma_ids_ascend_apart(ids, found, at);
    } else if at < found {
        lemma_ids_ascend_apart(ids, at, found);
    }
}

impl<V: Copy> Clone for IdMap<V> {
    fn clone(&self) -> (copy: Self)
        ensures
            copy@ == self@,
    {
        proof {
            use_type_invariant(self);
        }
        let mut entries: Vec<(ContinuityId, V)> = Vec::new();
        let mut at: usize = 0;
        while at < self.entries.len()
            invariant
                at <= self.entries@.len(),
                entries@ == self.entries@.take(at as int),
            decreases self.entries@.len() - at,
        {
            entries.push((self.entries[at].0, self.entries[at].1));
            at += 1;
            assert(entries@ =~= self.entries@.take(at as int));
        }
        assert(entries@ =~= self.entries@);
        IdMap { entries }
    }
}

// Laws.

/// Identities stand by producer first, then by epoch, then by sequence; a smaller later part
/// never outweighs an earlier one.
pub proof fn law_producers_outweigh_epochs_outweigh_sequences(left: IdView, right: IdView)
    ensures
        bytes_before(left.producer_id, right.producer_id) ==> id_before(left, right),
        left.producer_id == right.producer_id && left.producer_epoch < right.producer_epoch
            ==> id_before(left, right),
        left.producer_id == right.producer_id && left.producer_epoch == right.producer_epoch ==> (
        id_before(left, right) <==> left.sequence < right.sequence),
        bytes_before(right.producer_id, left.producer_id) ==> !id_before(left, right),
        left.producer_id == right.producer_id && left.producer_epoch > right.producer_epoch
            ==> !id_before(left, right),
{
    lemma_bytes_before_asymmetric(left.producer_id, right.producer_id);
    lemma_bytes_before_asymmetric(right.producer_id, left.producer_id);
}

/// A submission is known by its producer, its epoch and its sequence, and by nothing else.
pub proof fn law_submissions_are_known_by_three(left: SubmissionView, right: SubmissionView)
    ensures
        submission_id(left) == submission_id(right) <==> left.producer_id == right.producer_id
            && left.producer_epoch == right.producer_epoch && left.sequence == right.sequence,
{
}

} // verus!
