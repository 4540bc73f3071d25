//! The in-memory todo store: an ordered sequence of entries whose ids are
//! allocated as one more than the largest id present.
use vstd::prelude::*;

verus! {

/// An entry as it is sent to the store's callers.
pub struct TodolistEntry {
    pub id: u32,
    pub date: u64,
    pub title: String,
}

/// The body of a request that creates an entry.
pub struct CreateEntryData {
    pub title: String,
    pub date: u64,
}

/// The body of a request that renames an entry.
pub struct UpdateEntryData {
    pub title: String,
}

/// The mathematical value of an entry.
pub struct EntryModel {
    pub id: u32,
    pub date: u64,
    pub title: Seq<char>,
}

impl View for TodolistEntry {
    type V = EntryModel;

    open spec fn view(&self) -> EntryModel {
        EntryModel { id: self.id, date: self.date, title: self.title@ }
    }
}

impl TodolistEntry {
    /// A copy of the entry with the same id, date and title.
    pub fn duplicate(&self) -> (r: TodolistEntry)
        ensures
            r@ == self@,
    {
        TodolistEntry { id: self.id, date: self.date, title: self.title.clone() }
    }
}

/// The largest id in `s`, or 0 when `s` is empty.
pub open spec fn max_id(s: Seq<EntryModel>) -> nat
    decreases s.len(),
{
    if s.len() == 0 {
        0
    } else {
        let m = max_id(s.drop_last());
        if s.last().id as nat > m {
            s.last().id as nat
        } else {
            m
        }
    }
}

/// No two entries of `s` share an id.
pub open spec fn ids_unique(s: Seq<EntryModel>) -> bool {
    forall|i: int, j: int| 0 <= i < s.len() && 0 <= j < s.len() && i != j ==> s[i].id != s[j].id
}

/// `s` holds an entry with this id.
pub open spec fn has_id(s: Seq<EntryModel>, id: u32) -> bool {
    exists|k: int| 0 <= k < s.len() && s[k].id == id
}

/// The sequence after an insert: a new entry whose id is one more than the
/// largest id present, appended at the end.
pub open spec fn inserted(s: Seq<EntryModel>, title: Seq<char>, date: u64) -> Seq<EntryModel>
    recommends
        max_id(s) < u32::MAX,
{
    s.push(EntryModel { id: (max_id(s) + 1) as u32, date, title })
}

/// `k` is the position of the first entry of `s` with this id.
pub open spec fn first_with_id(s: Seq<EntryModel>, id: u32, k: int) -> bool {
    0 <= k < s.len() && s[k].id == id && forall|j: int| 0 <= j < k ==> s[j].id != id
}

/// The sequence after an update: the first entry with this id gets the new
/// title; without such an entry the sequence is unchanged.
pub open spec fn updated(s: Seq<EntryModel>, id: u32, title: Seq<char>) -> Seq<EntryModel> {
    if exists|k: int| first_with_id(s, id, k) {
        let k = choose|k: int| first_with_id(s, id, k);
        s.update(k, EntryModel { title, ..s[k] })
    } else {
        s
    }
}

/// The sequence after a delete: every entry with this id is gone, the others
/// keep their order.
pub open spec fn without_id(s: Seq<EntryModel>, id: u32) -> Seq<EntryModel>
    decreases s.len(),
{
    if s.len() == 0 {
        Seq::empty()
    } else {
        let r = without_id(s.drop_last(), id);
        if s.last().id == id {
            r
        } else {
            r.push(s.last())
        }
    }
}


/// Why the store refused an insert.
#[derive(Debug, PartialEq, Eq, Structural)]
pub enum StoreError {
    /// The largest id present is `u32::MAX`, so no larger id is left.
    IdsExhausted,
}

/// The store behind the todo-list routes. Callers that share it across
/// threads hold it under one lock, so the operations are serialized.
pub struct TodoStore {
    entries: Vec<TodolistEntry>,
}

impl View for TodoStore {
    type V = Seq<EntryModel>;

    closed spec fn view(&self) -> Seq<EntryModel> {
        models(self.entries@)
    }
}

/// The values of a sequence of entries.
pub open spec fn models(v: Seq<TodolistEntry>) -> Seq<EntryModel> {
    v.map_values(|e: TodolistEntry| e@)
}

impl TodoStore {
    /// The store is well formed: no two entries share an id.
    pub open spec fn wf(&self) -> bool {
        ids_unique(self@)
    }

    /// An empty store.
    pub fn new() -> (r: TodoStore)
        ensures
            r@ == Seq::<EntryModel>::empty(),
            r.wf(),
    {
        let r = TodoStore { entries: Vec::new() };
        assert(r@ =~= Seq::<EntryModel>::empty());
        r
    }

    /// A copy of the entries, in order.
    pub fn list(&self) -> (r: Vec<TodolistEntry>)
        ensures
            models(r@) == self@,
    {
        let mut out: Vec<TodolistEntry> = Vec::new();
        let mut i: usize = 0;
        while i < self.entries.len()
            invariant
                i <= self.entries.len(),
                out@.len() == i,
                models(out@) == self@.take(i as int),
            decreases self.entries.len() - i,
        {
            let e = self.entries[i].duplicate();
            let ghost prev = out@;
            assert(self@[i as int] == self.entries@[i as int]@);
            out.push(e);
            assert(out@ == prev.push(e));
            assert forall|k: int| 0 <= k < i implies models(out@)[k] == self@[k] by {
                assert(out@[k] == prev[k]);
                assert(models(prev)[k] == self@.take(i as int)[k]);
            }
            i = i + 1;
            assert(models(out@) =~= self@.take(i as int));
        }
        assert(self@.take(i as int) =~= self@);
        out
    }

    /// The largest id present, or 0 when the store is empty.
    pub fn max_entry_id(&self) -> (r: u32)
        ensures
            r as nat == max_id(self@),
    {
        let mut m: u32 = 0;
        let mut i: usize = 0;
        while i < self.entries.len()
            invariant
                i <= self.entries.len(),
                m as nat == max_id(self@.take(i as int)),
            decreases self.entries.len() - i,
        {
            assert(self@.take(i as int + 1).drop_last() =~= self@.take(i as int));
            if self.entries[i].id > m {
                m = self.entries[i].id;
            }
            i = i + 1;
        }
        assert(self@.take(i as int) =~= self@);
        m
    }

    /// Appends an entry whose id is one more than the largest id present
    /// (1 in an empty store) and returns the entries that result. When the
    /// largest id is `u32::MAX` the store is left as it was.
    pub fn insert(&mut self, title: String, date: u64) -> (r: Result<Vec<TodolistEntry>, StoreError>)
        requires
            old(self).wf(),
        ensures
            final(self).wf(),
            max_id(old(self)@) < u32::MAX ==> {
                &&& final(self)@ == inserted(old(self)@, title@, date)
                &&& r is Ok
                &&& models(r->Ok_0@) == final(self)@
            },
            max_id(old(self)@) == u32::MAX ==> {
                &&& final(self)@ == old(self)@
                &&& r == Err::<Vec<TodolistEntry>, StoreError>(StoreError::IdsExhausted)
            },
    {
        let m = self.max_entry_id();
        if m == u32::MAX {
            return Err(StoreError::IdsExhausted);
        }
        proof {
            lemma_ids_at_most_max(self@);
        }
        let entry = TodolistEntry { id: m + 1, date, title };
        self.entries.push(entry);
        assert(self@ =~= inserted(old(self)@, title@, date));
        Ok(self.list())
    }

    /// Gives the first entry with this id the new title and returns the
    /// entries that result. Without such an entry nothing changes.
    pub fn update(&mut self, id: u32, title: String) -> (r: Vec<TodolistEntry>)
        requires
            old(self).wf(),
        ensures
            final(self).wf(),
            final(self)@ == updated(old(self)@, id, title@),
            !has_id(old(self)@, id) ==> final(self)@ == old(self)@,
            models(r@) == final(self)@,
    {
        let mut i: usize = 0;
        while i < self.entries.len()
            invariant
                i <= self.entries.len(),
                self@ == old(self)@,
                ids_unique(old(self)@),
                forall|j: int| 0 <= j < i ==> self@[j].id != id,
            decreases self.entries.len() - i,
        {
            if self.entries[i].id == id {
                let ghost k = i as int;
                assert(first_with_id(self@, id, k));
                let entry = TodolistEntry { id: self.entries[i].id, date: self.entries[i].date, title };
                self.entries.set(i, entry);
                proof {
                    let c = choose|c: int| first_with_id(old(self)@, id, c);
                    assert(first_with_id(old(self)@, id, c));
                    assert(c == k);
                    assert(self@ =~= updated(old(self)@, id, title@));
                    assert forall|a: int| 0 <= a < self@.len() implies self@[a].id == old(self)@[a].id by {
                        if a != k {
                            assert(self@[a] == old(self)@[a]);
                        }
                    }
                    assert forall|a: int, b: int| 0 <= a < self@.len() && 0 <= b < self@.len() && a != b implies self@[a].id != self@[b].id by {
                        assert(self@[a].id == old(self)@[a].id);
                        assert(self@[b].id == old(self)@[b].id);
                    }
                }
                return self.list();
            }
            i = i + 1;
        }
        assert(!exists|k: int| first_with_id(old(self)@, id, k));
        self.list()
    }

    /// Removes every entry with this id and returns the entries that remain.
    pub fn delete(&mut self, id: u32) -> (r: Vec<TodolistEntry>)
        requires
            old(self).wf(),
        ensures
            final(self).wf(),
            final(self)@ == without_id(old(self)@, id),
            !has_id(final(self)@, id),
            models(r@) == final(self)@,
    {
        let mut kept: Vec<TodolistEntry> = Vec::new();
        let mut i: usize = 0;
        while i < self.entries.len()
            invariant
                i <= self.entries.len(),
                models(kept@) == without_id(self@.take(i as int), id),
            decreases self.entries.len() - i,
        {
            assert(self@.take(i as int + 1).drop_last() =~= self@.take(i as int));
            if self.entries[i].id != id {
                kept.push(self.entries[i].duplicate());
                assert(models(kept@) =~= without_id(self@.take(i as int + 1), id));
            }
            i = i + 1;
        }
        assert(self@.take(i as int) =~= self@);
        self.entries = kept;
        proof {
            lemma_without_id_sub(old(self)@, id);
        }
        self.list()
    }
}

/// Every id in `s` is at most `max_id(s)`.
pub proof fn lemma_ids_at_most_max(s: Seq<EntryModel>)
    ensures
        forall|k: int| 0 <= k < s.len() ==> s[k].id as nat <= max_id(s),
    decreases s.len(),
{
    if s.len() > 0 {
        lemma_ids_at_most_max(s.drop_last());
        assert forall|k: int| 0 <= k < s.len() implies s[k].id as nat <= max_id(s) by {
            if k < s.len() - 1 {
                assert(s[k] == s.drop_last()[k]);
            }
        }
    }
}

/// Deleting keeps only entries of `s` whose id differs, in their order, so it
/// keeps ids unique and leaves no entry with the deleted id.
pub proof fn lemma_without_id_sub(s: Seq<EntryModel>, id: u32)
    ensures
        without_id(s, id).len() <= s.len(),
        forall|k: int| 0 <= k < without_id(s, id).len() ==> #[trigger] without_id(s, id)[k].id != id,
        forall|k: int| 0 <= k < without_id(s, id).len() ==> s.contains(#[trigger] without_id(s, id)[k]),
        ids_unique(s) ==> ids_unique(without_id(s, id)),
    decreases s.len(),
{
    if s.len() > 0 {
        let p = s.drop_last();
        lemma_without_id_sub(p, id);
        let r = without_id(p, id);
        assert forall|k: int| 0 <= k < without_id(s, id).len() implies s.contains(#[trigger] without_id(s, id)[k]) by {
            if k < r.len() {
                let e = r[k];
                assert(p.contains(e));
                let j = choose|j: int| 0 <= j < p.len() && p[j] == e;
                assert(s[j] == e);
            } else {
                assert(s[s.len() - 1] == s.last());
            }
        }
        if ids_unique(s) {
            assert(ids_unique(p)) by {
                assert forall|i: int, j: int| 0 <= i < p.len() && 0 <= j < p.len() && i != j implies p[i].id != p[j].id by {
                    assert(p[i] == s[i] && p[j] == s[j]);
                }
            }
            if s.last().id != id {
                let w = without_id(s, id);
                assert forall|i: int, j: int| 0 <= i < w.len() && 0 <= j < w.len() && i != j implies w[i].id != w[j].id by {
                    if i < r.len() && j < r.len() {
                        assert(w[i] == r[i] && w[j] == r[j]);
                    } else if i < r.len() {
                        assert(p.contains(r[i]));
                        let a = choose|a: int| 0 <= a < p.len() && p[a] == r[i];
                        assert(s[a] == r[i]);
                        assert(w[j] == s[s.len() - 1]);
                    } else if j < r.len() {
                        assert(p.contains(r[j]));
                        let a = choose|a: int| 0 <= a < p.len() && p[a] == r[j];
                        assert(s[a] == r[j]);
                        assert(w[i] == s[s.len() - 1]);
                    }
                }
            }
        }
    }
}

/// The sequence after one insert per request, the requests applied one
/// after another in the order given.
pub open spec fn inserted_all(s: Seq<EntryModel>, reqs: Seq<(Seq<char>, u64)>) -> Seq<EntryModel>
    decreases reqs.len(),
{
    if reqs.len() == 0 {
        s
    } else {
        let p = inserted_all(s, reqs.drop_last());
        inserted(p, reqs.last().0, reqs.last().1)
    }
}

/// The sequence after one delete per id, applied in the order given.
pub open spec fn deleted_all(s: Seq<EntryModel>, ids: Seq<u32>) -> Seq<EntryModel>
    decreases ids.len(),
{
    if ids.len() == 0 {
        s
    } else {
        without_id(deleted_all(s, ids.drop_last()), ids.last())
    }
}

/// One insert raises the largest id by one and keeps ids unique.
pub proof fn lemma_inserted(s: Seq<EntryModel>, title: Seq<char>, date: u64)
    requires
        ids_unique(s),
        max_id(s) < u32::MAX,
    ensures
        max_id(inserted(s, title, date)) == max_id(s) + 1,
        ids_unique(inserted(s, title, date)),
{
    let r = inserted(s, title, date);
    assert(r.drop_last() =~= s);
    lemma_ids_at_most_max(s);
    assert forall|i: int, j: int| 0 <= i < r.len() && 0 <= j < r.len() && i != j implies r[i].id != r[j].id by {
        if i < s.len() && j < s.len() {
            assert(r[i] == s[i] && r[j] == s[j]);
        } else if i < s.len() {
            assert(r[i] == s[i]);
        } else {
            assert(r[j] == s[j]);
        }
    }
}

/// Inserts made one at a time, as the store's lock makes concurrent callers
/// do, lose none of the requests: each adds exactly one entry, at the end
/// and in request order, with its own title and date, and every entry gets
/// an id of its own. The earlier entries stay as they were. Whatever order
/// the lock admits the callers in, `reqs` lists them in that order; starting
/// from an empty store the new ids are 1 to N.
pub proof fn lemma_serialized_inserts(s: Seq<EntryModel>, reqs: Seq<(Seq<char>, u64)>)
    requires
        ids_unique(s),
        max_id(s) + reqs.len() <= u32::MAX,
    ensures
        inserted_all(s, reqs).len() == s.len() + reqs.len(),
        ids_unique(inserted_all(s, reqs)),
        max_id(inserted_all(s, reqs)) == max_id(s) + reqs.len(),
        inserted_all(s, reqs).take(s.len() as int) == s,
        forall|k: int| 0 <= k < reqs.len() ==> {
            let e = #[trigger] inserted_all(s, reqs)[s.len() + k];
            &&& e.title == reqs[k].0
            &&& e.date == reqs[k].1
            &&& e.id == max_id(s) + k + 1
        },
        s.len() == 0 ==> forall|k: int| 0 <= k < reqs.len() ==> #[trigger] inserted_all(s, reqs)[k].id == k + 1,
    decreases reqs.len(),
{
    if reqs.len() > 0 {
        let q = reqs.drop_last();
        lemma_serialized_inserts(s, q);
        let p = inserted_all(s, q);
        lemma_inserted(p, reqs.last().0, reqs.last().1);
        let r = inserted_all(s, reqs);
        assert(r == p.push(EntryModel { id: (max_id(p) + 1) as u32, date: reqs.last().1, title: reqs.last().0 }));
        assert(r.take(s.len() as int) =~= p.take(s.len() as int));
        assert forall|k: int| 0 <= k < reqs.len() implies {
            let e = #[trigger] inserted_all(s, reqs)[s.len() + k];
            &&& e.title == reqs[k].0
            &&& e.date == reqs[k].1
            &&& e.id == max_id(s) + k + 1
        } by {
            if k < q.len() {
                assert(r[s.len() + k] == p[s.len() + k]);
                assert(q[k] == reqs[k]);
            }
        }
    }
}

/// Deleting every id that occurs in the store, one id at a time, leaves the
/// store empty, so listing it afterwards gives no entries.
pub proof fn lemma_delete_every_id(s: Seq<EntryModel>, ids: Seq<u32>)
    requires
        forall|k: int| 0 <= k < s.len() ==> ids.contains(#[trigger] s[k].id),
    ensures
        deleted_all(s, ids) == Seq::<EntryModel>::empty(),
{
    lemma_deleted_all_sub(s, ids);
    let r = deleted_all(s, ids);
    if r.len() > 0 {
        assert(s.contains(r[0]));
        let j = choose|j: int| 0 <= j < s.len() && s[j] == r[0];
        assert(ids.contains(s[j].id));
    }
    assert(r =~= Seq::<EntryModel>::empty());
}

/// After deleting a list of ids, what remains came from the store and holds
/// none of those ids.
pub proof fn lemma_deleted_all_sub(s: Seq<EntryModel>, ids: Seq<u32>)
    ensures
        forall|k: int| 0 <= k < deleted_all(s, ids).len() ==> s.contains(#[trigger] deleted_all(s, ids)[k]),
        forall|k: int| 0 <= k < deleted_all(s, ids).len() ==> !ids.contains(#[trigger] deleted_all(s, ids)[k].id),
    decreases ids.len(),
{
    if ids.len() > 0 {
        let q = ids.drop_last();
        lemma_deleted_all_sub(s, q);
        let p = deleted_all(s, q);
        lemma_without_id_sub(p, ids.last());
        let r = deleted_all(s, ids);
        assert forall|k: int| 0 <= k < r.len() implies s.contains(#[trigger] r[k]) && !ids.contains(r[k].id) by {
            assert(p.contains(r[k]));
            let j = choose|j: int| 0 <= j < p.len() && p[j] == r[k];
            assert(s.contains(p[j]));
            if ids.contains(r[k].id) {
                let a = choose|a: int| 0 <= a < ids.len() && ids[a] == r[k].id;
                if a < q.len() {
                    assert(q[a] == ids[a]);
                    assert(q.contains(p[j].id));
                }
            }
        }
    }
}

} // verus!
