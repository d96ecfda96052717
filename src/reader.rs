//! Reading the archive back through the index: each entry's file, or a summary
//! built from the entry alone when the file is missing or unreadable.

use vstd::prelude::*;
use crate::archive::{shard_path_of, ArchiveRoot};
use crate::error::ArchiveError;
use crate::index::{lookup, removed, IndexEntry, IndexStore};
use crate::record::{member, member_of, parse_document, parsed_json, TaskRecord};
use crate::shard::json_suffix;

verus! {

/// What became of reading one archive file.
#[derive(Debug, PartialEq, Eq)]
pub enum ShardLoad {
    /// The file held a record.
    Loaded(TaskRecord),
    /// There is no file at the path.
    Missing,
    /// The file could not be read; the message says why.
    Unreadable(String),
    /// The file is not an archive file.
    Malformed,
}

/// The record document an archive file's text holds: the member `task-data` of
/// the JSON object the text parses into.
pub open spec fn archive_payload(text: Seq<char>) -> Option<serde_json::Value> {
    match parsed_json(text) {
        Some(doc) => member_of(doc, "task-data"@),
        None => None,
    }
}

/// Decodes the text of an archive file: a JSON object whose member `task-data`
/// is the record.
pub fn decode_archive_file(text: &str) -> (r: ShardLoad)
    ensures
        r is Loaded || r is Malformed,
        r is Loaded <==> archive_payload(text@) is Some,
        r matches ShardLoad::Loaded(rec) ==> rec.document == archive_payload(text@)->0,
{
    match parse_document(text) {
        Some(doc) => match member(&doc, "task-data") {
            Some(data) => ShardLoad::Loaded(TaskRecord::from_document(data)),
            None => ShardLoad::Malformed,
        },
        None => ShardLoad::Malformed,
    }
}

/// A listing built from an index entry alone: no results, not protected.
#[derive(Debug, PartialEq, Eq)]
pub struct FallbackSummary {
    pub id: String,
    pub name: String,
    pub timestamp: String,
    pub total_count: i64,
    pub group_name: String,
    pub file_name: String,
    pub results: Vec<serde_json::Value>,
    pub edit_protected: bool,
    pub edit_password: String,
}

/// `s` is the fallback summary of entry `e`.
pub open spec fn falls_back_to(s: FallbackSummary, e: IndexEntry) -> bool {
    &&& s.id@ == e.id@
    &&& s.name@ == e.name@
    &&& s.timestamp@ == e.timestamp@
    &&& s.total_count == e.total_count
    &&& s.group_name@ == e.group_name@
    &&& s.file_name@ == e.file_name@
    &&& s.results@.len() == 0
    &&& !s.edit_protected
    &&& s.edit_password@.len() == 0
}

/// One item of the listing.
#[derive(Debug, PartialEq, Eq)]
pub enum Summary {
    /// The record, as its archive file holds it.
    Full(TaskRecord),
    /// The index's account of it, when the file could not be had.
    Fallback(FallbackSummary),
}

/// `s` is what the listing shows for entry `e` when reading its file gave `load`.
pub open spec fn summarizes(s: Summary, e: IndexEntry, load: ShardLoad) -> bool {
    match load {
        ShardLoad::Loaded(record) => s == Summary::Full(record),
        _ => s is Fallback && falls_back_to(s->Fallback_0, e),
    }
}

/// The summary of entry `e` without its file.
pub fn fallback_summary(e: &IndexEntry) -> (r: FallbackSummary)
    ensures
        falls_back_to(r, *e),
{
    FallbackSummary {
        id: e.id.clone(),
        name: e.name.clone(),
        timestamp: e.timestamp.clone(),
        total_count: e.total_count,
        group_name: e.group_name.clone(),
        file_name: e.file_name.clone(),
        results: Vec::new(),
        edit_protected: false,
        edit_password: String::new(),
    }
}

/// The listing of the archive, in index order: for each entry, the record its
/// file held (`loads[i]` for the `i`-th entry), or else the entry's fallback.
pub fn reconcile(index: &IndexStore, loads: Vec<ShardLoad>) -> (r: Vec<Summary>)
    requires
        loads@.len() == index@.len(),
    ensures
        r@.len() == index@.len(),
        forall|i: int| 0 <= i < r@.len() ==> summarizes(#[trigger] r@[i], index@[i], loads@[i]),
{
    let entries = index.entries();
    let ghost all = loads@;
    let mut rest = loads;
    let mut r: Vec<Summary> = Vec::new();
    let mut i: usize = 0;
    while i < entries.len()
        invariant
            entries@ == index@,
            all.len() == index@.len(),
            i <= entries@.len(),
            rest@ == all.skip(i as int),
            r@.len() == i,
            forall|k: int| 0 <= k < i ==> summarizes(#[trigger] r@[k], index@[k], all[k]),
        decreases entries@.len() - i,
    {
        let load = rest.remove(0);
        assert(load == all[i as int]);
        let s = match load {
            ShardLoad::Loaded(record) => Summary::Full(record),
            _ => Summary::Fallback(fallback_summary(&entries[i])),
        };
        r.push(s);
        assert(rest@ =~= all.skip(i as int + 1));
        i = i + 1;
    }
    r
}

/// The path of the archive file of the entry with id `id`, if the index has one.
pub fn shard_path_for(root: &ArchiveRoot, index: &IndexStore, id: &str) -> (r: Option<String>)
    ensures
        match lookup(index@, id@) {
            Some(e) => r is Some && r->0@ == shard_path_of(root.base@, e.relative_path@),
            None => r is None,
        },
{
    match index.find(id) {
        Some(e) => Some(root.shard_path(e.relative_path.as_str())),
        None => None,
    }
}

/// The result of looking up one record, given what reading its file gave: the
/// record, or nothing where the file is missing or not an archive file; a file
/// that could not be read is an error.
pub fn lookup_result(load: ShardLoad) -> (r: Result<Option<TaskRecord>, ArchiveError>)
    ensures
        match load {
            ShardLoad::Loaded(record) => r == Ok::<Option<TaskRecord>, ArchiveError>(
                Some(record),
            ),
            ShardLoad::Missing => r == Ok::<Option<TaskRecord>, ArchiveError>(None),
            ShardLoad::Malformed => r == Ok::<Option<TaskRecord>, ArchiveError>(None),
            ShardLoad::Unreadable(m) => r == Err::<Option<TaskRecord>, ArchiveError>(
                ArchiveError::Io(m),
            ),
        },
{
    match load {
        ShardLoad::Loaded(record) => Ok(Some(record)),
        ShardLoad::Missing => Ok(None),
        ShardLoad::Malformed => Ok(None),
        ShardLoad::Unreadable(m) => Err(ArchiveError::Io(m)),
    }
}

/// Whether a file in a shard directory is an archive file: its extension is
/// `json` (a name that is only `.json` has none).
pub fn is_archive_file_name(name: &str) -> (r: bool)
    ensures
        r == (name@.len() > 5 && name@.skip(name@.len() - 5) == json_suffix()),
{
    let n = name.unicode_len();
    if n <= 5 {
        return false;
    }
    let tail = name.substring_char(n - 5, n);
    let suffix = String::from_str(".json");
    proof {
        reveal_strlit(".json");
        assert(".json"@ =~= json_suffix());
    }
    let owned = String::from_str(tail);
    let r = owned == suffix;
    assert(name@.skip(name@.len() - 5) =~= name@.subrange(n - 5, n as int));
    r
}

/// Completes a delete once the attempt on the record's file is over:
/// `removal_error` is why the file could not be deleted, if it could not. The
/// entry leaves the index either way, so the id is no longer found; the failure
/// is then reported.
pub fn finish_delete(index: &mut IndexStore, id: &str, removal_error: Option<String>) -> (r: Result<
    (),
    ArchiveError,
>)
    ensures
        final(index)@ == removed(old(index)@, id@),
        lookup(final(index)@, id@) is None,
        match removal_error {
            Some(m) => r == Err::<(), ArchiveError>(ArchiveError::Io(m)),
            None => r == Ok::<(), ArchiveError>(()),
        },
{
    index.remove(id);
    match removal_error {
        Some(m) => Err(ArchiveError::Io(m)),
        None => Ok(()),
    }
}

} // verus!
