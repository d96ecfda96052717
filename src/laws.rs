//! Properties of the archive that relate several operations.

use vstd::prelude::*;
use crate::archive::{archive_result, shard_path_of, PreparedArchive};
use crate::index::{
    has_id, ids_unique, keep_recent, lemma_position_unique, lemma_upserted_well_formed, lookup,
    position_of, upserted,
    well_formed, IndexEntry, INDEX_CAPACITY,
};
use crate::record::TaskRecord;
use crate::stats::{months_of, sum_counts, years_of, HistoryStats};

verus! {

/// With unique ids, an entry found at some position is the one looked up.
proof fn lemma_lookup_at(s: Seq<IndexEntry>, i: int)
    requires
        ids_unique(s),
        0 <= i < s.len(),
    ensures
        lookup(s, s[i].id@) == Some(s[i]),
{
    assert(s[i].id@ == s[i].id@);
    let p = position_of(s, s[i].id@);
    assert(s[p].id@ == s[i].id@);
}

/// Round trip: once a record is archived into a well-formed index, looking up
/// its id finds the entry just written, and that entry leads to the very file
/// the record was written to.
pub proof fn law_archive_then_lookup(
    s: Seq<IndexEntry>,
    base: Seq<char>,
    record: TaskRecord,
    p: PreparedArchive,
)
    requires
        well_formed(s),
        archive_result(base, record, Ok(p)),
    ensures
        lookup(upserted(s, p.entry), record.id->0@) == Some(p.entry),
        shard_path_of(base, p.entry.relative_path@) == p.file_path@,
        p.file.record == record,
{
    let e = p.entry;
    lemma_upserted_well_formed(s, e);
    let u = upserted(s, e);
    if has_id(s, e.id@) {
        let q = position_of(s, e.id@);
        assert(u[q] == e);
        lemma_lookup_at(u, q);
    } else {
        assert(u[0] == e);
        lemma_lookup_at(u, 0);
    }
}

/// Writing the same entry twice leaves the index as writing it once did: one
/// entry for its id, and the same length.
pub proof fn law_upsert_idempotent(s: Seq<IndexEntry>, e: IndexEntry)
    requires
        well_formed(s),
    ensures
        upserted(upserted(s, e), e) == upserted(s, e),
        ids_unique(upserted(s, e)),
        has_id(upserted(s, e), e.id@),
{
    lemma_upserted_well_formed(s, e);
    let u = upserted(s, e);
    let q = position_of(u, e.id@);
    assert(u[q].id@ == e.id@);
    let i = if has_id(s, e.id@) { position_of(s, e.id@) } else { 0 };
    assert(u[i] == e);
    assert(u[i].id@ == e.id@);
    assert(q == i);
    assert(u.update(q, e) =~= u);
    assert(keep_recent(u) =~= u);
}

/// Writing an id that the index holds replaces its entry where it stands:
/// every other entry keeps its place.
pub proof fn law_upsert_keeps_position(s: Seq<IndexEntry>, e: IndexEntry, i: int)
    requires
        well_formed(s),
        0 <= i < s.len(),
        s[i].id@ == e.id@,
    ensures
        upserted(s, e).len() == s.len(),
        upserted(s, e)[i] == e,
        forall|j: int| 0 <= j < s.len() && j != i ==> #[trigger] upserted(s, e)[j] == s[j],
{
    assert(has_id(s, e.id@));
    let p = position_of(s, e.id@);
    assert(s[p].id@ == s[i].id@);
    assert(p == i);
    assert(keep_recent(s.update(i, e)) =~= s.update(i, e));
}

/// The entries written one after another into an index, starting from `s`.
pub open spec fn upsert_all(s: Seq<IndexEntry>, es: Seq<IndexEntry>) -> Seq<IndexEntry>
    decreases es.len(),
{
    if es.len() == 0 {
        s
    } else {
        upserted(upsert_all(s, es.drop_last()), es.last())
    }
}

/// Retention: writing entries of distinct ids into an empty index leaves the
/// most recently written ones, newest first, and no more than the capacity.
pub proof fn law_retention(es: Seq<IndexEntry>)
    requires
        ids_unique(es),
    ensures
        upsert_all(Seq::empty(), es) == keep_recent(es.reverse()),
        upsert_all(Seq::empty(), es).len() == if es.len() <= INDEX_CAPACITY {
            es.len()
        } else {
            INDEX_CAPACITY as nat
        },
    decreases es.len(),
{
    if es.len() > 0 {
        let prefix = es.drop_last();
        let e = es.last();
        assert(ids_unique(prefix)) by {
            assert forall|a: int, b: int|
                0 <= a < prefix.len() && 0 <= b < prefix.len() && a != b implies
                #[trigger] prefix[a].id@ != #[trigger] prefix[b].id@ by {
                assert(es[a].id@ != es[b].id@);
            }
        }
        law_retention(prefix);
        let before = keep_recent(prefix.reverse());
        assert(!has_id(before, e.id@)) by {
            if has_id(before, e.id@) {
                let k = choose|k: int| 0 <= k < before.len() && #[trigger] before[k].id@ == e.id@;
                assert(before[k] == prefix[prefix.len() - 1 - k]);
                assert(es[prefix.len() - 1 - k].id@ != es[es.len() - 1].id@);
            }
        }
        let full = seq![e] + prefix.reverse();
        assert(full =~= es.reverse());
        assert(keep_recent(seq![e] + before) =~= keep_recent(full));
    } else {
        assert(es.reverse() =~= Seq::<IndexEntry>::empty());
    }
}

/// The counts over an emptied index are all zero.
pub proof fn law_cleared_stats(st: HistoryStats)
    requires
        st.total_tasks == 0,
        st.total_results == sum_counts(Seq::empty()),
        years_of(st.years@, Seq::empty()),
        months_of(st.months@, Seq::empty()),
    ensures
        st.total_results == 0,
        st.years@.len() == 0,
        st.months@.len() == 0,
{
    if st.years@.len() > 0 {
        assert(st.years@.contains(st.years@[0]));
    }
    if st.months@.len() > 0 {
        let m = st.months@[0];
        assert(m.count == crate::stats::month_count(Seq::empty(), m.year as int, m.month as int));
    }
}

/// Re-archiving an id keeps its place behind the ids archived after it: with
/// `a` then `b` written into an index that held neither id, writing `a2` (the
/// id of `a`) leaves `b` first and `a2` second, followed by what was there.
pub proof fn law_rearchive_keeps_order(
    s: Seq<IndexEntry>,
    a: IndexEntry,
    b: IndexEntry,
    a2: IndexEntry,
)
    requires
        well_formed(s),
        !has_id(s, a.id@),
        !has_id(s, b.id@),
        a.id@ != b.id@,
        a2.id@ == a.id@,
    ensures
        upserted(upserted(upserted(s, a), b), a2) == keep_recent(seq![b, a2] + s),
        upserted(upserted(upserted(s, a), b), a2)[0] == b,
        upserted(upserted(upserted(s, a), b), a2)[1] == a2,
{
    let u1 = upserted(s, a);
    assert(u1 == keep_recent(seq![a] + s));
    lemma_upserted_well_formed(s, a);
    assert(!has_id(u1, b.id@)) by {
        if has_id(u1, b.id@) {
            let k = choose|k: int| 0 <= k < u1.len() && #[trigger] u1[k].id@ == b.id@;
            if k > 0 {
                assert(s[k - 1] == u1[k]);
            }
        }
    }
    let u2 = upserted(u1, b);
    assert(u2 =~= keep_recent(seq![b, a] + s));
    lemma_upserted_well_formed(u1, b);
    assert(u2[1] == a);
    lemma_position_unique(u2, 1);
    assert(u2[1].id@ == a2.id@);
    let u3 = upserted(u2, a2);
    assert(u3 =~= keep_recent(seq![b, a2] + s));
}

} // verus!
