//! The storage model: the persisted to-do entries in insertion order,
//! together with the next identifier the store will assign.
//!
//! The store assigns identifiers monotonically and never reuses one;
//! deletion by identifier removes the matching entry and is a no-op when
//! no entry matches.

use vstd::prelude::*;

verus! {

/// One to-do item: a storage-assigned identifier and its text.
pub struct TodoEntry {
    pub id: i64,
    pub text: String,
}

/// The mathematical image of one entry.
pub ghost struct EntryModel {
    pub id: int,
    pub text: Seq<char>,
}

impl View for TodoEntry {
    type V = EntryModel;

    open spec fn view(&self) -> EntryModel {
        EntryModel { id: self.id as int, text: self.text@ }
    }
}

/// Every identifier in `s` lies in `[1, bound)`.
pub open spec fn ids_bounded(s: Seq<EntryModel>, bound: int) -> bool {
    forall|i: int| 0 <= i < s.len() ==> 1 <= (#[trigger] s[i]).id < bound
}

/// No two entries of `s` share an identifier.
pub open spec fn ids_distinct(s: Seq<EntryModel>) -> bool {
    forall|i: int, j: int|
        0 <= i < j < s.len() ==> (#[trigger] s[i]).id != (#[trigger] s[j]).id
}

/// The mathematical image of the whole store: the entries in insertion
/// order and the identifier the next added entry will receive.
pub ghost struct StoreModel {
    pub entries: Seq<EntryModel>,
    pub next: int,
}

impl StoreModel {
    /// Identifiers are at least 1, below `next`, and pairwise distinct.
    pub open spec fn wf(self) -> bool {
        &&& 1 <= self.next
        &&& ids_bounded(self.entries, self.next)
        &&& ids_distinct(self.entries)
    }
}

/// What an add does to the model: append one entry holding the given text
/// under the next identifier, and advance the identifier.
pub open spec fn spec_add(s: StoreModel, text: Seq<char>) -> StoreModel {
    StoreModel {
        entries: s.entries.push(EntryModel { id: s.next, text }),
        next: s.next + 1,
    }
}

/// The entries of `s` other than those carrying `id`, in order.
pub open spec fn remove_id(s: Seq<EntryModel>, id: int) -> Seq<EntryModel> {
    s.filter(|e: EntryModel| e.id != id)
}

/// What a delete does to the model: drop every entry whose identifier is
/// the given one, and keep the rest in order.
pub open spec fn spec_delete(s: StoreModel, id: int) -> StoreModel {
    StoreModel { entries: remove_id(s.entries, id), next: s.next }
}

/// An in-memory store with the same contract the persistent table obeys.
pub struct TodoStore {
    entries: Vec<TodoEntry>,
    next_id: i64,
}

impl View for TodoStore {
    type V = StoreModel;

    closed spec fn view(&self) -> StoreModel {
        StoreModel {
            entries: self.entries@.map_values(|e: TodoEntry| e@),
            next: self.next_id as int,
        }
    }
}

impl TodoStore {
    pub open spec fn wf(self) -> bool {
        self@.wf()
    }

    /// An empty store; the first entry added will receive identifier 1.
    pub fn new() -> (s: TodoStore)
        ensures
            s.wf(),
            s@.entries == Seq::<EntryModel>::empty(),
            s@.next == 1,
    {
        let s = TodoStore { entries: Vec::new(), next_id: 1 };
        proof {
            assert(s@.entries =~= Seq::<EntryModel>::empty());
        }
        s
    }

    /// Append one entry holding `text`; the store assigns and returns its
    /// identifier, which no existing entry carries.
    pub fn add(&mut self, text: String) -> (id: i64)
        requires
            old(self).wf(),
            old(self)@.next < i64::MAX,
        ensures
            final(self).wf(),
            final(self)@ == spec_add(old(self)@, text@),
            id as int == old(self)@.next,
    {
        let id = self.next_id;
        let ghost pre = self@;
        let ghost t = text@;
        self.entries.push(TodoEntry { id, text });
        self.next_id = self.next_id + 1;
        proof {
            assert(self@.entries =~= spec_add(pre, t).entries);
        }
        id
    }

    /// Remove the entry with the given identifier if one is present; when
    /// none is, the store is unchanged. Either way the call succeeds.
    pub fn delete(&mut self, id: i64)
        requires
            old(self).wf(),
        ensures
            final(self).wf(),
            final(self)@ == spec_delete(old(self)@, id as int),
    {
        let ghost pre = self@;
        let mut i: usize = 0;
        let ghost mut j: int = 0;
        while i < self.entries.len()
            invariant
                0 <= j <= pre.entries.len(),
                self.next_id == old(self).next_id,
                self@.entries =~= remove_id(pre.entries.take(j), id as int) + pre.entries.skip(j),
                i as int == remove_id(pre.entries.take(j), id as int).len(),
            decreases pre.entries.len() - j,
        {
            proof {
                lemma_remove_id_take_step(pre.entries, id as int, j);
                assert(self@.entries[i as int] == self.entries@[i as int]@);
                assert(self@.entries[i as int] == pre.entries.skip(j)[0]);
                assert(pre.entries.skip(j)[0] == pre.entries[j]);
            }
            if self.entries[i].id == id {
                let ghost before = self@.entries;
                self.entries.remove(i);
                proof {
                    assert(pre.entries[j].id == id as int);
                    assert(self@.entries =~= before.remove(i as int));
                    assert(before.remove(i as int) =~= remove_id(pre.entries.take(j), id as int)
                        + pre.entries.skip(j + 1));
                    assert(self@.entries =~= remove_id(pre.entries.take(j + 1), id as int)
                        + pre.entries.skip(j + 1));
                }
            } else {
                i = i + 1;
                proof {
                    assert(pre.entries[j].id != id as int);
                    assert(remove_id(pre.entries.take(j + 1), id as int) == remove_id(
                        pre.entries.take(j),
                        id as int,
                    ).push(pre.entries[j]));
                    assert(self@.entries =~= remove_id(pre.entries.take(j + 1), id as int)
                        + pre.entries.skip(j + 1));
                }
            }
            proof {
                j = j + 1;
            }
        }
        proof {
            assert(j == pre.entries.len());
            assert(pre.entries.take(j) =~= pre.entries);
            assert(pre.entries.skip(j) =~= Seq::<EntryModel>::empty());
            assert(self@.entries =~= remove_id(pre.entries, id as int));
            assert(self@ == spec_delete(pre, id as int));
            lemma_delete_keeps_wf(pre.entries, id as int, pre.next);
        }
    }

    /// The entries currently persisted, in insertion order: exactly the
    /// store's contents, nothing more and nothing less.
    pub fn list(&self) -> (r: &Vec<TodoEntry>)
        ensures
            r@.map_values(|e: TodoEntry| e@) == self@.entries,
    {
        &self.entries
    }
}

/// Extending a prefix by one element extends its surviving entries by that
/// element when its identifier differs, and leaves them unchanged when not.
proof fn lemma_remove_id_take_step(s: Seq<EntryModel>, id: int, j: int)
    requires
        0 <= j < s.len(),
    ensures
        s[j].id != id ==> remove_id(s.take(j + 1), id) == remove_id(s.take(j), id).push(s[j]),
        s[j].id == id ==> remove_id(s.take(j + 1), id) == remove_id(s.take(j), id),
{
    reveal(Seq::filter);
    assert(s.take(j + 1).drop_last() =~= s.take(j));
    assert(s.take(j + 1).last() == s[j]);
}

/// Removing the entries that carry one identifier keeps every other
/// identifier in range and keeps the remaining identifiers pairwise
/// distinct; each surviving entry already stood in the sequence.
proof fn lemma_delete_keeps_wf(s: Seq<EntryModel>, id: int, bound: int)
    requires
        ids_bounded(s, bound),
        ids_distinct(s),
    ensures
        ids_bounded(remove_id(s, id), bound),
        ids_distinct(remove_id(s, id)),
        forall|i: int|
            0 <= i < remove_id(s, id).len() ==> exists|k: int|
                0 <= k < s.len() && s[k] == #[trigger] remove_id(s, id)[i],
    decreases s.len(),
{
    reveal(Seq::filter);
    let pred = |e: EntryModel| e.id != id;
    if s.len() > 0 {
        let d = s.drop_last();
        assert(ids_bounded(d, bound));
        assert(ids_distinct(d));
        lemma_delete_keeps_wf(d, id, bound);
        let f = remove_id(s, id);
        let fd = remove_id(d, id);
        assert(forall|k: int| 0 <= k < d.len() ==> d[k] == s[k]);
        if pred(s.last()) {
            assert(f == fd.push(s.last()));
            assert forall|i: int, jj: int| 0 <= i < jj < f.len() implies f[i].id != f[jj].id by {
                if jj == f.len() - 1 {
                    let k = choose|k: int| 0 <= k < d.len() && d[k] == f[i];
                    assert(s[k].id != s[s.len() - 1].id);
                }
            }
            assert forall|i: int| 0 <= i < f.len() implies exists|k: int|
                0 <= k < s.len() && #[trigger] s[k] == #[trigger] f[i] by {
                if i == f.len() - 1 {
                    assert(s[s.len() - 1] == f[i]);
                } else {
                    let k = choose|k: int| 0 <= k < d.len() && d[k] == f[i];
                    assert(s[k] == f[i]);
                }
            }
        } else {
            assert(f == fd);
            assert forall|i: int| 0 <= i < f.len() implies exists|k: int|
                0 <= k < s.len() && #[trigger] s[k] == #[trigger] f[i] by {
                let k = choose|k: int| 0 <= k < d.len() && d[k] == f[i];
                assert(s[k] == f[i]);
            }
        }
    }
}


/// The identifiers assigned by adding each text of `texts` in order.
pub open spec fn assigned_ids(s: StoreModel, texts: Seq<Seq<char>>) -> Seq<int>
    decreases texts.len(),
{
    if texts.len() == 0 {
        Seq::empty()
    } else {
        seq![s.next] + assigned_ids(spec_add(s, texts[0]), texts.skip(1))
    }
}

proof fn lemma_assigned_ids_len(s: StoreModel, texts: Seq<Seq<char>>)
    ensures
        assigned_ids(s, texts).len() == texts.len(),
    decreases texts.len(),
{
    if texts.len() > 0 {
        lemma_assigned_ids_len(spec_add(s, texts[0]), texts.skip(1));
    }
}

proof fn lemma_assigned_ids_at(s: StoreModel, texts: Seq<Seq<char>>, k: int)
    requires
        0 <= k < texts.len(),
    ensures
        assigned_ids(s, texts)[k] == s.next + k,
    decreases texts.len(),
{
    lemma_assigned_ids_len(spec_add(s, texts[0]), texts.skip(1));
    if k > 0 {
        lemma_assigned_ids_at(spec_add(s, texts[0]), texts.skip(1), k - 1);
    }
}

/// After an add, the listing is the old listing with exactly one new entry:
/// it holds the given text under an identifier no existing entry carries.
pub proof fn lemma_add_round_trip(s: StoreModel, text: Seq<char>)
    requires
        s.wf(),
    ensures
        spec_add(s, text).entries == s.entries.push(EntryModel { id: s.next, text }),
        spec_add(s, text).entries.last().text == text,
        forall|i: int|
            0 <= i < s.entries.len() ==> (#[trigger] s.entries[i]).id != spec_add(
                s,
                text,
            ).entries.last().id,
{
}

/// Deleting the same identifier twice equals deleting it once: the second
/// call finds nothing to remove and changes nothing.
pub proof fn lemma_delete_idempotent(s: StoreModel, id: int)
    ensures
        spec_delete(spec_delete(s, id), id) == spec_delete(s, id),
{
    lemma_remove_id_no_match(s.entries, id);
    lemma_remove_id_identity(remove_id(s.entries, id), id);
}

/// Sequential adds hand out pairwise distinct identifiers: the k-th add
/// returns the starting identifier plus k.
pub proof fn lemma_sequential_ids_distinct(s: StoreModel, texts: Seq<Seq<char>>)
    ensures
        forall|i: int, j: int|
            #![trigger assigned_ids(s, texts)[i], assigned_ids(s, texts)[j]]
            0 <= i < j < texts.len() ==> assigned_ids(s, texts)[i] != assigned_ids(s, texts)[j],
{
    assert forall|i: int, j: int|
        #![trigger assigned_ids(s, texts)[i], assigned_ids(s, texts)[j]]
        0 <= i < j < texts.len() implies assigned_ids(s, texts)[i] != assigned_ids(
        s,
        texts,
    )[j] by {
        lemma_assigned_ids_at(s, texts, i);
        lemma_assigned_ids_at(s, texts, j);
    }
}

/// No surviving entry of a delete carries the deleted identifier.
proof fn lemma_remove_id_no_match(s: Seq<EntryModel>, id: int)
    ensures
        forall|i: int| 0 <= i < remove_id(s, id).len() ==> (#[trigger] remove_id(s, id)[i]).id
            != id,
    decreases s.len(),
{
    reveal(Seq::filter);
    if s.len() > 0 {
        lemma_remove_id_no_match(s.drop_last(), id);
    }
}

/// Deleting an identifier that no entry carries leaves the entries as they are.
proof fn lemma_remove_id_identity(s: Seq<EntryModel>, id: int)
    requires
        forall|i: int| 0 <= i < s.len() ==> (#[trigger] s[i]).id != id,
    ensures
        remove_id(s, id) == s,
    decreases s.len(),
{
    reveal(Seq::filter);
    if s.len() > 0 {
        lemma_remove_id_identity(s.drop_last(), id);
    }
    assert(remove_id(s, id) =~= s);
}

} // verus!
