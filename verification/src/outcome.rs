//! What became of each migrated item, and the merged result of a run.

use vstd::prelude::*;
use vstd::seq_lib::to_multiset_build;
use crate::fault::ServiceFault;

verus! {

/// Why an item could not be migrated.
#[derive(Clone, Copy, Debug, PartialEq, Eq, Structural)]
pub enum FailureCause {
    /// Every download attempt failed.
    RateLimited,
    /// The credential may not publish under the target owner.
    CannotPublish,
    /// Every upload attempt failed; the fault is that of the last one.
    UploadFailed(ServiceFault),
    /// The task that worked on the item ended without a result.
    Aborted,
}

/// An item that could not be migrated.
#[derive(Clone, Debug)]
pub struct MigrationFailure {
    /// Position of the item's record in the input.
    pub index: usize,
    /// Correlation token of the item's record.
    pub request_id: Option<String>,
    pub cause: FailureCause,
}

/// The terminal result of one item.
#[derive(Clone, Debug)]
pub enum MigrationOutcome {
    /// The payload was uploaded as the new asset `new_id`.
    Migrated { index: usize, request_id: Option<String>, new_id: String },
    /// The item failed for good.
    Failed(MigrationFailure),
}

/// Whether no two entries have the same key.
pub open spec fn distinct_keys(entries: Seq<(String, String)>) -> bool {
    forall|i: int, j: int|
        0 <= i < j < entries.len() ==> (#[trigger] entries[i]).0@ != (#[trigger] entries[j]).0@
}

/// Whether some entry has the key `key`.
pub open spec fn has_key(entries: Seq<(String, String)>, key: Seq<char>) -> bool {
    exists|i: int| 0 <= i < entries.len() && (#[trigger] entries[i]).0@ == key
}

/// The position of an entry with the key `key`.
pub open spec fn key_position(entries: Seq<(String, String)>, key: Seq<char>) -> int {
    choose|i: int| 0 <= i < entries.len() && (#[trigger] entries[i]).0@ == key
}

/// The map that a list of entries stands for.
pub open spec fn entries_map(entries: Seq<(String, String)>) -> Map<Seq<char>, Seq<char>> {
    Map::new(
        |key: Seq<char>| has_key(entries, key),
        |key: Seq<char>| entries[key_position(entries, key)].1@,
    )
}

/// With distinct keys, the entry at each position is what the map holds for
/// its key.
pub proof fn lemma_entry_is_mapped(entries: Seq<(String, String)>, i: int)
    requires
        distinct_keys(entries),
        0 <= i < entries.len(),
    ensures
        entries_map(entries).dom().contains(entries[i].0@),
        entries_map(entries)[entries[i].0@] == entries[i].1@,
{
    let key = entries[i].0@;
    assert(has_key(entries, key));
    let p = key_position(entries, key);
    assert(0 <= p < entries.len() && entries[p].0@ == key);
    if p < i {
        assert(entries[p].0@ != entries[i].0@);
    } else if i < p {
        assert(entries[i].0@ != entries[p].0@);
    }
}

/// The mapping from the correlation token of each migrated item to the id
/// of the asset that replaces it.
pub struct IdMapping {
    entries: Vec<(String, String)>,
}

impl View for IdMapping {
    type V = Map<Seq<char>, Seq<char>>;

    closed spec fn view(&self) -> Map<Seq<char>, Seq<char>> {
        entries_map(self.entries@)
    }
}

impl IdMapping {
    /// Whether the mapping is well formed: no key is stored twice.
    pub closed spec fn wf(&self) -> bool {
        distinct_keys(self.entries@)
    }

    /// The stored entries, one for each key.
    pub closed spec fn spec_entries(&self) -> Seq<(String, String)> {
        self.entries@
    }

    /// An empty mapping: it stores no entry and maps no key.
    pub fn new() -> (mapping: IdMapping)
        ensures
            mapping.wf(),
            mapping.spec_entries() == Seq::<(String, String)>::empty(),
            mapping@ == Map::<Seq<char>, Seq<char>>::empty(),
    {
        let mapping = IdMapping { entries: Vec::new() };
        proof {
            assert(mapping@ =~= Map::<Seq<char>, Seq<char>>::empty());
        }
        mapping
    }

    /// Maps `key` to `value`, replacing what `key` was mapped to before.
    pub fn insert(&mut self, key: String, value: String)
        requires
            old(self).wf(),
        ensures
            final(self).wf(),
            final(self)@ == old(self)@.insert(key@, value@),
    {
        let ghost before = self.entries@;
        let mut i: usize = 0;
        while i < self.entries.len()
            invariant
                i <= self.entries.len(),
                self.entries@ == before,
                old(self).entries@ == before,
                distinct_keys(before),
                forall|k: int| 0 <= k < i ==> (#[trigger] before[k]).0@ != key@,
            decreases self.entries.len() - i,
        {
            if self.entries[i].0 == key {
                self.entries.set(i, (key, value));
                proof {
                    let after = self.entries@;
                    assert forall|a: int, b: int| 0 <= a < b < after.len() implies (
                    #[trigger] after[a]).0@ != (#[trigger] after[b]).0@ by {
                        assert(before[a].0@ != before[b].0@);
                    }
                    assert forall|k: Seq<char>| has_key(after, k) == has_key(before, k) by {
                        if has_key(after, k) {
                            let p = key_position(after, k);
                            assert(before[p].0@ == k);
                        }
                        if has_key(before, k) {
                            let p = key_position(before, k);
                            assert(after[p].0@ == k);
                        }
                    }
                    assert(has_key(before, key@)) by {
                        assert(before[i as int].0@ == key@);
                    }
                    assert forall|k: Seq<char>| has_key(after, k) implies entries_map(after)[k]
                        == entries_map(before).insert(key@, value@)[k] by {
                        let p = key_position(after, k);
                        lemma_entry_is_mapped(after, p);
                        if p != i {
                            lemma_entry_is_mapped(before, p);
                        }
                    }
                    assert(entries_map(after) =~= entries_map(before).insert(key@, value@));
                }
                return ;
            }
            i = i + 1;
        }
        self.entries.push((key, value));
        proof {
            let after = self.entries@;
            assert forall|a: int, b: int| 0 <= a < b < after.len() implies (#[trigger] after[a]).0@
                != (#[trigger] after[b]).0@ by {
                if b < before.len() {
                    assert(before[a].0@ != before[b].0@);
                } else {
                    assert(before[a].0@ != key@);
                }
            }
            assert forall|k: Seq<char>| has_key(after, k) == (has_key(before, k) || k == key@) by {
                if has_key(after, k) {
                    let p = key_position(after, k);
                    if p < before.len() {
                        assert(before[p].0@ == k);
                    }
                }
                if has_key(before, k) {
                    let p = key_position(before, k);
                    assert(after[p].0@ == k);
                }
                if k == key@ {
                    assert(after[before.len() as int].0@ == k);
                }
            }
            assert forall|k: Seq<char>| has_key(after, k) implies entries_map(after)[k]
                == entries_map(before).insert(key@, value@)[k] by {
                let p = key_position(after, k);
                lemma_entry_is_mapped(after, p);
                if p < before.len() {
                    lemma_entry_is_mapped(before, p);
                }
            }
            assert(entries_map(after) =~= entries_map(before).insert(key@, value@));
        }
    }

    /// What `key` is mapped to, if anything.
    pub fn get(&self, key: &str) -> (value: Option<&String>)
        requires
            self.wf(),
        ensures
            match value {
                Some(v) => self@.dom().contains(key@) && self@[key@] == v@,
                None => !self@.dom().contains(key@),
            },
    {
        let wanted: String = key.to_owned();
        let mut i: usize = 0;
        while i < self.entries.len()
            invariant
                i <= self.entries.len(),
                self.wf(),
                wanted@ == key@,
                forall|k: int| 0 <= k < i ==> (#[trigger] self.entries@[k]).0@ != key@,
            decreases self.entries.len() - i,
        {
            if self.entries[i].0 == wanted {
                proof {
                    lemma_entry_is_mapped(self.entries@, i as int);
                }
                return Some(&self.entries[i].1);
            }
            i = i + 1;
        }
        proof {
            if has_key(self.entries@, key@) {
                let p = key_position(self.entries@, key@);
                assert(self.entries@[p].0@ == key@);
            }
        }
        None
    }

    /// The number of keys.
    pub fn len(&self) -> (n: usize)
        ensures
            n == self.spec_entries().len(),
    {
        self.entries.len()
    }

    /// The entries of the mapping, one for each key, oldest key first.
    pub fn entries(&self) -> (entries: &Vec<(String, String)>)
        ensures
            entries@ == self.spec_entries(),
    {
        &self.entries
    }
}

/// With distinct keys, the stored entries and the map say the same: the
/// map holds a key exactly if an entry has it, with that entry's value.
pub proof fn lemma_entries_agree(mapping: IdMapping)
    requires
        mapping.wf(),
    ensures
        distinct_keys(mapping.spec_entries()),
        mapping@ == entries_map(mapping.spec_entries()),
{
}

/// The merged result of a run: the mapping for the items that were
/// migrated, and the failures of the others in the order they ended.
pub struct MigrationResult {
    pub mapping: IdMapping,
    pub errors: Vec<MigrationFailure>,
}

/// The mapping that a sequence of outcomes adds up to. A migrated item
/// without a correlation token adds nothing; of two migrated items with the
/// same token the later one counts.
pub open spec fn mapping_of(outcomes: Seq<MigrationOutcome>) -> Map<Seq<char>, Seq<char>>
    decreases outcomes.len(),
{
    if outcomes.len() == 0 {
        Map::empty()
    } else {
        let before = mapping_of(outcomes.drop_last());
        match outcomes.last() {
            MigrationOutcome::Migrated { request_id: Some(token), new_id, .. } => before.insert(
                token@,
                new_id@,
            ),
            _ => before,
        }
    }
}

/// The failures among a sequence of outcomes, in their order.
pub open spec fn errors_of(outcomes: Seq<MigrationOutcome>) -> Seq<MigrationFailure>
    decreases outcomes.len(),
{
    if outcomes.len() == 0 {
        Seq::empty()
    } else {
        let before = errors_of(outcomes.drop_last());
        match outcomes.last() {
            MigrationOutcome::Failed(failure) => before.push(failure),
            _ => before,
        }
    }
}

/// Merges the outcomes of a run.
///
/// Each migrated item with a correlation token is entered into the mapping
/// under that token; a migrated item without one is left out. Each failure
/// is appended to the error list. No outcome makes the merge itself fail.
pub fn aggregate(outcomes: Vec<MigrationOutcome>) -> (result: MigrationResult)
    ensures
        result.mapping.wf(),
        result.mapping@ == mapping_of(outcomes@),
        result.errors@ == errors_of(outcomes@),
{
    let ghost all = outcomes@;
    let mut mapping = IdMapping::new();
    let mut errors: Vec<MigrationFailure> = Vec::new();
    proof {
        assert(all.take(0) =~= Seq::<MigrationOutcome>::empty());
    }
    for outcome in it: outcomes
        invariant
            it.seq() == all,
            mapping.wf(),
            mapping@ == mapping_of(all.take(it.index() as int)),
            errors@ == errors_of(all.take(it.index() as int)),
    {
        proof {
            assert(all.take(it.index() + 1).drop_last() =~= all.take(it.index() as int));
            assert(all.take(it.index() + 1).last() == outcome);
        }
        match outcome {
            MigrationOutcome::Migrated { index: _, request_id: Some(token), new_id } => {
                mapping.insert(token, new_id);
            },
            MigrationOutcome::Migrated { index: _, request_id: None, new_id: _ } => {},
            MigrationOutcome::Failed(failure) => {
                errors.push(failure);
            },
        }
    }
    proof {
        assert(all.take(all.len() as int) =~= all);
    }
    MigrationResult { mapping, errors }
}

/// The correlation token under which an outcome enters the mapping, if it
/// enters it at all.
pub open spec fn token_of(outcome: MigrationOutcome) -> Option<Seq<char>> {
    match outcome {
        MigrationOutcome::Migrated { request_id: Some(token), .. } => Some(token@),
        _ => None,
    }
}

/// The new asset id of a migrated item.
pub open spec fn new_id_of(outcome: MigrationOutcome) -> Seq<char> {
    match outcome {
        MigrationOutcome::Migrated { new_id, .. } => new_id@,
        _ => Seq::empty(),
    }
}

/// Whether migrated items that share a correlation token also share the
/// new asset id.
pub open spec fn tokens_agree(outcomes: Seq<MigrationOutcome>) -> bool {
    forall|i: int, j: int|
        0 <= i < outcomes.len() && 0 <= j < outcomes.len() && token_of(#[trigger] outcomes[i])
            is Some && token_of(outcomes[i]) == token_of(#[trigger] outcomes[j]) ==> new_id_of(
            outcomes[i],
        ) == new_id_of(outcomes[j])
}

/// Whether some outcome enters the mapping under `key`.
pub open spec fn enters(outcomes: Seq<MigrationOutcome>, key: Seq<char>) -> bool {
    exists|i: int| 0 <= i < outcomes.len() && token_of(#[trigger] outcomes[i]) == Some(key)
}

/// The keys of the merged mapping are the tokens of the migrated items.
/// Where items that share a token share the new id, the mapping holds that
/// id for the token of each migrated item.
pub proof fn lemma_mapping_members(outcomes: Seq<MigrationOutcome>)
    ensures
        forall|key: Seq<char>| #[trigger]
            mapping_of(outcomes).dom().contains(key) <==> enters(outcomes, key),
        tokens_agree(outcomes) ==> forall|i: int|
            0 <= i < outcomes.len() && token_of(#[trigger] outcomes[i]) is Some ==> mapping_of(
                outcomes,
            )[token_of(outcomes[i])->0] == new_id_of(outcomes[i]),
    decreases outcomes.len(),
{
    if outcomes.len() > 0 {
        let front = outcomes.drop_last();
        let last = outcomes.last();
        lemma_mapping_members(front);
        assert forall|key: Seq<char>| #[trigger]
            mapping_of(outcomes).dom().contains(key) <==> enters(outcomes, key) by {
            if enters(outcomes, key) {
                let i = choose|i: int|
                    0 <= i < outcomes.len() && token_of(#[trigger] outcomes[i]) == Some(key);
                if i < front.len() {
                    assert(token_of(front[i]) == Some(key));
                    assert(enters(front, key));
                    assert(mapping_of(front).dom().contains(key));
                } else {
                    assert(outcomes[i] == last);
                    assert(token_of(last) == Some(key));
                }
                assert(mapping_of(outcomes).dom().contains(key));
            }
            if mapping_of(outcomes).dom().contains(key) {
                if mapping_of(front).dom().contains(key) {
                    assert(enters(front, key));
                    let i = choose|i: int|
                        0 <= i < front.len() && token_of(#[trigger] front[i]) == Some(key);
                    assert(front[i] == outcomes[i]);
                    assert(token_of(outcomes[i]) == Some(key));
                } else {
                    assert(token_of(last) == Some(key));
                    assert(outcomes[outcomes.len() - 1] == last);
                    assert(token_of(outcomes[outcomes.len() - 1]) == Some(key));
                }
                assert(enters(outcomes, key));
            }
        }
        if tokens_agree(outcomes) {
            assert(tokens_agree(front)) by {
                assert forall|i: int, j: int|
                    0 <= i < front.len() && 0 <= j < front.len() && token_of(#[trigger] front[i])
                        is Some && token_of(front[i]) == token_of(
                        #[trigger] front[j],
                    ) implies new_id_of(front[i]) == new_id_of(front[j]) by {
                    assert(front[i] == outcomes[i] && front[j] == outcomes[j]);
                }
            }
            assert forall|i: int|
                0 <= i < outcomes.len() && token_of(
                    #[trigger] outcomes[i],
                ) is Some implies mapping_of(outcomes)[token_of(outcomes[i])->0] == new_id_of(
                outcomes[i],
            ) by {
                let n = outcomes.len() - 1;
                assert(outcomes[n] == last);
                if i < n {
                    assert(front[i] == outcomes[i]);
                }
            }
        }
    }
}

/// The failures of a run are counted as the failed outcomes are.
pub proof fn lemma_errors_count(outcomes: Seq<MigrationOutcome>, failure: MigrationFailure)
    ensures
        errors_of(outcomes).to_multiset().count(failure) == outcomes.to_multiset().count(
            MigrationOutcome::Failed(failure),
        ),
    decreases outcomes.len(),
{
    if outcomes.len() == 0 {
        assert(outcomes =~= Seq::<MigrationOutcome>::empty());
        Seq::<MigrationOutcome>::empty().to_multiset_ensures();
        Seq::<MigrationFailure>::empty().to_multiset_ensures();
        assert(outcomes.to_multiset().len() == 0);
        assert(errors_of(outcomes).to_multiset().len() == 0);
        vstd::multiset::axiom_count_le_len(outcomes.to_multiset(), MigrationOutcome::Failed(failure));
        vstd::multiset::axiom_count_le_len(errors_of(outcomes).to_multiset(), failure);
    } else {
        let front = outcomes.drop_last();
        let last = outcomes.last();
        lemma_errors_count(front, failure);
        assert(outcomes =~= front.push(last));
        to_multiset_build(front, last);
        match last {
            MigrationOutcome::Failed(f) => {
                to_multiset_build(errors_of(front), f);
            },
            _ => {},
        }
    }
}

/// The order in which outcomes arrive does not matter to the failures:
/// two sequences that hold the same outcomes in another order give the same
/// failures, counted with multiplicity.
pub proof fn lemma_errors_order_free(a: Seq<MigrationOutcome>, b: Seq<MigrationOutcome>)
    requires
        a.to_multiset() == b.to_multiset(),
    ensures
        errors_of(a).to_multiset() == errors_of(b).to_multiset(),
{
    assert forall|failure: MigrationFailure|
        errors_of(a).to_multiset().count(failure) == errors_of(b).to_multiset().count(
            failure,
        ) by {
        lemma_errors_count(a, failure);
        lemma_errors_count(b, failure);
    }
    assert(errors_of(a).to_multiset() =~= errors_of(b).to_multiset());
}

/// The order in which outcomes arrive does not matter to the mapping.
///
/// Let `b` hold the outcomes of `a` in another order. Then both give the
/// same mapping, provided that migrated items of `a` that share a
/// correlation token share the new asset id: of two items that disagree,
/// the later one would win, and which one is later depends on the order.
pub proof fn lemma_aggregate_order_free(a: Seq<MigrationOutcome>, b: Seq<MigrationOutcome>)
    requires
        a.to_multiset() == b.to_multiset(),
        tokens_agree(a),
    ensures
        mapping_of(a) == mapping_of(b),
{
    a.to_multiset_ensures();
    b.to_multiset_ensures();
    assert forall|x: MigrationOutcome| a.contains(x) <==> b.contains(x) by {
        assert(a.contains(x) <==> a.to_multiset().count(x) > 0);
        assert(b.contains(x) <==> b.to_multiset().count(x) > 0);
    }
    assert(tokens_agree(b)) by {
        assert forall|i: int, j: int|
            0 <= i < b.len() && 0 <= j < b.len() && token_of(#[trigger] b[i]) is Some && token_of(
                b[i],
            ) == token_of(#[trigger] b[j]) implies new_id_of(b[i]) == new_id_of(b[j]) by {
            assert(b.contains(b[i]) && b.contains(b[j]));
            assert(a.contains(b[i]) && a.contains(b[j]));
            let p = choose|p: int| 0 <= p < a.len() && a[p] == b[i];
            let q = choose|q: int| 0 <= q < a.len() && a[q] == b[j];
            assert(token_of(a[p]) is Some && token_of(a[p]) == token_of(a[q]));
        }
    }
    lemma_mapping_members(a);
    lemma_mapping_members(b);
    assert forall|key: Seq<char>| enters(a, key) <==> enters(b, key) by {
        if enters(a, key) {
            let i = choose|i: int| 0 <= i < a.len() && token_of(#[trigger] a[i]) == Some(key);
            assert(a.contains(a[i]));
            assert(b.contains(a[i]));
            let p = choose|p: int| 0 <= p < b.len() && b[p] == a[i];
            assert(token_of(b[p]) == Some(key));
        }
        if enters(b, key) {
            let i = choose|i: int| 0 <= i < b.len() && token_of(#[trigger] b[i]) == Some(key);
            assert(b.contains(b[i]));
            assert(a.contains(b[i]));
            let p = choose|p: int| 0 <= p < a.len() && a[p] == b[i];
            assert(token_of(a[p]) == Some(key));
        }
    }
    assert forall|key: Seq<char>| mapping_of(a).dom().contains(key) implies mapping_of(a)[key]
        == mapping_of(b)[key] by {
        assert(enters(a, key));
        let i = choose|i: int| 0 <= i < a.len() && token_of(#[trigger] a[i]) == Some(key);
        assert(a.contains(a[i]));
        assert(b.contains(a[i]));
        let p = choose|p: int| 0 <= p < b.len() && b[p] == a[i];
        assert(token_of(b[p]) == Some(key));
        assert(mapping_of(a)[token_of(a[i])->0] == new_id_of(a[i]));
        assert(mapping_of(b)[token_of(b[p])->0] == new_id_of(b[p]));
    }
    assert(mapping_of(a) =~= mapping_of(b));
}

} // verus!
