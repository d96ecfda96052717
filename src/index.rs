//! The index: one lightweight entry per archived task, newest first,
//! unique by id and bounded in length.

use vstd::prelude::*;

verus! {

/// How many entries the index keeps; older ones fall off the end.
pub const INDEX_CAPACITY: usize = 100;

/// A denormalized projection of one archive file, enough to list and count
/// without opening the file.
#[derive(Debug, PartialEq, Eq)]
pub struct IndexEntry {
    pub id: String,
    pub name: String,
    pub timestamp: String,
    pub file_name: String,
    pub relative_path: String,
    pub total_count: i64,
    pub group_name: String,
    pub year: i32,
    pub month: u32,
}

impl IndexEntry {
    /// A field-by-field copy.
    pub fn duplicate(&self) -> (r: IndexEntry)
        ensures
            r == *self,
    {
        IndexEntry {
            id: self.id.clone(),
            name: self.name.clone(),
            timestamp: self.timestamp.clone(),
            file_name: self.file_name.clone(),
            relative_path: self.relative_path.clone(),
            total_count: self.total_count,
            group_name: self.group_name.clone(),
            year: self.year,
            month: self.month,
        }
    }
}

/// Some entry of `s` carries the id `id`.
pub open spec fn has_id(s: Seq<IndexEntry>, id: Seq<char>) -> bool {
    exists|i: int| 0 <= i < s.len() && #[trigger] s[i].id@ == id
}

/// No two entries of `s` share an id.
pub open spec fn ids_unique(s: Seq<IndexEntry>) -> bool {
    forall|i: int, j: int|
        0 <= i < s.len() && 0 <= j < s.len() && i != j ==> #[trigger] s[i].id@ != #[trigger] s[j].id@
}

/// What every index holds to: unique ids, at most `INDEX_CAPACITY` entries.
pub open spec fn well_formed(s: Seq<IndexEntry>) -> bool {
    ids_unique(s) && s.len() <= INDEX_CAPACITY
}

/// The position of the entry with id `id` (meaningful when `has_id(s, id)`).
pub open spec fn position_of(s: Seq<IndexEntry>, id: Seq<char>) -> int {
    choose|i: int| 0 <= i < s.len() && s[i].id@ == id
}

/// The entry with id `id`, if any.
pub open spec fn lookup(s: Seq<IndexEntry>, id: Seq<char>) -> Option<IndexEntry> {
    if has_id(s, id) {
        Some(s[position_of(s, id)])
    } else {
        None
    }
}

/// The first `INDEX_CAPACITY` entries of `s`.
pub open spec fn keep_recent(s: Seq<IndexEntry>) -> Seq<IndexEntry> {
    if s.len() <= INDEX_CAPACITY {
        s
    } else {
        s.take(INDEX_CAPACITY as int)
    }
}

/// The index after writing `e`: an entry with the same id is replaced where it
/// stands, a new id goes to the front; then the tail past the capacity is cut.
pub open spec fn upserted(s: Seq<IndexEntry>, e: IndexEntry) -> Seq<IndexEntry> {
    if has_id(s, e.id@) {
        keep_recent(s.update(position_of(s, e.id@), e))
    } else {
        keep_recent(seq![e] + s)
    }
}

/// The index without the entry whose id is `id`.
pub open spec fn removed(s: Seq<IndexEntry>, id: Seq<char>) -> Seq<IndexEntry> {
    if has_id(s, id) {
        s.remove(position_of(s, id))
    } else {
        s
    }
}

/// The first entry of each id, in the order of `s`.
pub open spec fn first_occurrences(s: Seq<IndexEntry>) -> Seq<IndexEntry>
    decreases s.len(),
{
    if s.len() == 0 {
        s
    } else {
        let prev = first_occurrences(s.drop_last());
        if has_id(prev, s.last().id@) {
            prev
        } else {
            prev.push(s.last())
        }
    }
}

/// With unique ids, the entry found for an id is the one at its position.
pub proof fn lemma_position_unique(s: Seq<IndexEntry>, i: int)
    requires
        ids_unique(s),
        0 <= i < s.len(),
    ensures
        has_id(s, s[i].id@),
        position_of(s, s[i].id@) == i,
{
    assert(s[i].id@ == s[i].id@);
    let p = position_of(s, s[i].id@);
    assert(0 <= p < s.len() && s[p].id@ == s[i].id@);
}

/// Writing into a well-formed index keeps it well formed.
pub proof fn lemma_upserted_well_formed(s: Seq<IndexEntry>, e: IndexEntry)
    requires
        well_formed(s),
    ensures
        well_formed(upserted(s, e)),
        has_id(upserted(s, e), e.id@),
{
    if has_id(s, e.id@) {
        let p = position_of(s, e.id@);
        let u = s.update(p, e);
        assert forall|a: int, b: int|
            0 <= a < u.len() && 0 <= b < u.len() && a != b implies #[trigger] u[a].id@
            != #[trigger] u[b].id@ by {
            if a != p && b != p {
                assert(s[a].id@ != s[b].id@);
            } else if a == p {
                assert(s[b].id@ != s[a].id@);
            } else {
                assert(s[a].id@ != s[b].id@);
            }
        }
        assert(u =~= keep_recent(u));
        assert(u[p].id@ == e.id@);
    } else {
        let u = seq![e] + s;
        assert forall|a: int, b: int|
            0 <= a < u.len() && 0 <= b < u.len() && a != b implies #[trigger] u[a].id@
            != #[trigger] u[b].id@ by {
            if a == 0 {
                assert(s[b - 1] == u[b]);
            } else if b == 0 {
                assert(s[a - 1] == u[a]);
            } else {
                assert(s[a - 1].id@ != s[b - 1].id@);
            }
        }
        let k = keep_recent(u);
        assert(k[0] == e);
        assert(k[0].id@ == e.id@);
    }
}

/// Deleting an id leaves no entry for it, and the other entries in order.
pub proof fn lemma_remove_forgets(s: Seq<IndexEntry>, id: Seq<char>)
    requires
        well_formed(s),
    ensures
        lookup(removed(s, id), id) is None,
        well_formed(removed(s, id)),
        removed(s, id).len() == if has_id(s, id) {
            (s.len() - 1) as nat
        } else {
            s.len()
        },
{
    if has_id(s, id) {
        let p = position_of(s, id);
        let r = s.remove(p);
        assert forall|k: int| 0 <= k < r.len() implies #[trigger] r[k].id@ != id by {
            if k < p {
                assert(s[k].id@ != s[p].id@);
            } else {
                assert(s[k + 1].id@ != s[p].id@);
            }
        }
        assert forall|a: int, b: int|
            0 <= a < r.len() && 0 <= b < r.len() && a != b implies #[trigger] r[a].id@
            != #[trigger] r[b].id@ by {
            let a2 = if a < p { a } else { a + 1 };
            let b2 = if b < p { b } else { b + 1 };
            assert(s[a2].id@ != s[b2].id@);
        }
    }
}

/// Finds the position of `id` in `v`, scanning from the front.
fn position_in(v: &Vec<IndexEntry>, id: &String) -> (r: Option<usize>)
    ensures
        match r {
            Some(i) => i < v@.len() && v@[i as int].id@ == id@ && has_id(v@, id@),
            None => !has_id(v@, id@),
        },
{
    let mut i: usize = 0;
    while i < v.len()
        invariant
            i <= v@.len(),
            forall|j: int| 0 <= j < i ==> v@[j].id@ != id@,
        decreases v@.len() - i,
    {
        if v[i].id == *id {
            assert(v@[i as int].id@ == id@);
            return Some(i);
        }
        i = i + 1;
    }
    None
}

/// The ordered, id-unique, bounded sequence of index entries.
#[derive(Debug)]
pub struct IndexStore {
    entries: Vec<IndexEntry>,
}

impl View for IndexStore {
    type V = Seq<IndexEntry>;

    closed spec fn view(&self) -> Seq<IndexEntry> {
        self.entries@
    }
}

impl IndexStore {
    #[verifier::type_invariant]
    spec fn inv(&self) -> bool {
        well_formed(self.entries@)
    }

    /// An empty index.
    pub fn new() -> (r: IndexStore)
        ensures
            r@ == Seq::<IndexEntry>::empty(),
    {
        IndexStore { entries: Vec::new() }
    }

    /// The index held by a loaded sequence of entries: the first entry of each
    /// id, and of those the first `INDEX_CAPACITY`.
    pub fn from_entries(v: Vec<IndexEntry>) -> (r: IndexStore)
        ensures
            r@ == keep_recent(first_occurrences(v@)),
            well_formed(r@),
    {
        let mut kept: Vec<IndexEntry> = Vec::new();
        let mut i: usize = 0;
        while i < v.len()
            invariant
                i <= v@.len(),
                kept@ == first_occurrences(v@.take(i as int)),
                ids_unique(kept@),
            decreases v@.len() - i,
        {
            assert(v@.take(i as int + 1).drop_last() =~= v@.take(i as int));
            assert(v@.take(i as int + 1).last() == v@[i as int]);
            match position_in(&kept, &v[i].id) {
                Some(_) => {},
                None => {
                    kept.push(v[i].duplicate());
                },
            }
            i = i + 1;
        }
        assert(v@.take(v@.len() as int) =~= v@);
        kept.truncate(INDEX_CAPACITY);
        proof {
            assert(kept@ =~= keep_recent(first_occurrences(v@)));
        }
        IndexStore { entries: kept }
    }

    /// The number of entries.
    pub fn len(&self) -> (r: usize)
        ensures
            r == self@.len(),
            well_formed(self@),
    {
        proof {
            use_type_invariant(self);
        }
        self.entries.len()
    }

    /// The entries, newest first.
    pub fn entries(&self) -> (r: &Vec<IndexEntry>)
        ensures
            r@ == self@,
    {
        &self.entries
    }

    /// The entry with id `id`, if the index holds one.
    pub fn find(&self, id: &str) -> (r: Option<IndexEntry>)
        ensures
            r == lookup(self@, id@),
    {
        proof {
            use_type_invariant(self);
        }
        let key = String::from_str(id);
        match position_in(&self.entries, &key) {
            Some(i) => {
                proof {
                    lemma_position_unique(self.entries@, i as int);
                }
                Some(self.entries[i].duplicate())
            },
            None => None,
        }
    }

    /// Writes `entry`: replaced in place if its id is present, else put first;
    /// the index is then cut back to `INDEX_CAPACITY` entries.
    pub fn upsert(&mut self, entry: IndexEntry)
        ensures
            final(self)@ == upserted(old(self)@, entry),
            well_formed(final(self)@),
    {
        proof {
            use_type_invariant(&*self);
        }
        let mut entries: Vec<IndexEntry> = Vec::new();
        std::mem::swap(&mut entries, &mut self.entries);
        let ghost before = entries@;
        match position_in(&entries, &entry.id) {
            Some(i) => {
                proof {
                    lemma_position_unique(before, i as int);
                }
                entries.set(i, entry);
            },
            None => {
                entries.insert(0, entry);
                assert(entries@ =~= seq![entry] + before);
                entries.truncate(INDEX_CAPACITY);
            },
        }
        proof {
            assert(entries@ =~= upserted(before, entry));
            lemma_upserted_well_formed(before, entry);
        }
        *self = IndexStore { entries };
    }

    /// Drops the entry with id `id`; an absent id changes nothing.
    pub fn remove(&mut self, id: &str)
        ensures
            final(self)@ == removed(old(self)@, id@),
            !has_id(final(self)@, id@),
            well_formed(final(self)@),
    {
        proof {
            use_type_invariant(&*self);
        }
        let mut entries: Vec<IndexEntry> = Vec::new();
        std::mem::swap(&mut entries, &mut self.entries);
        let ghost before = entries@;
        let key = String::from_str(id);
        match position_in(&entries, &key) {
            Some(i) => {
                proof {
                    lemma_position_unique(before, i as int);
                }
                entries.remove(i);
            },
            None => {},
        }
        proof {
            lemma_remove_forgets(before, id@);
        }
        *self = IndexStore { entries };
    }

    /// Drops every entry.
    pub fn clear(&mut self)
        ensures
            final(self)@ == Seq::<IndexEntry>::empty(),
    {
        *self = IndexStore { entries: Vec::new() };
    }
}

} // verus!
