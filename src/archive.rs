//! The storage root, and what archiving one record writes: its archive file
//! and its index entry.

use vstd::prelude::*;
use crate::clock::{has_date_prefix, now_rfc3339, rfc3339_accepts, written_month, written_year};
use crate::error::{ArchiveError, RequiredField};
use crate::index::IndexEntry;
use crate::record::TaskRecord;
use crate::shard::{relative_path_of, resolve_shard, shard_dir, shard_dir_of, shard_file_name_of};

verus! {

pub open spec fn index_file_suffix() -> Seq<char> {
    seq!['/', 'h', 'i', 's', 't', 'o', 'r', 'y', '.', 'j', 's', 'o', 'n']
}

pub open spec fn history_dir_suffix() -> Seq<char> {
    seq!['/', 'h', 'i', 's', 't', 'o', 'r', 'y']
}

/// The index file under storage root `base`.
pub open spec fn index_path_of(base: Seq<char>) -> Seq<char> {
    base + index_file_suffix()
}

/// The directory of the shards under storage root `base`.
pub open spec fn history_dir_of(base: Seq<char>) -> Seq<char> {
    base + history_dir_suffix()
}

/// The file at `relative` (as the index records it) under storage root `base`.
pub open spec fn shard_path_of(base: Seq<char>, relative: Seq<char>) -> Seq<char> {
    history_dir_of(base) + seq!['/'] + relative
}

/// The storage root: the directory that holds the index file and the shards.
#[derive(Debug, PartialEq, Eq)]
pub struct ArchiveRoot {
    pub base: String,
}

impl ArchiveRoot {
    pub fn new(base: &str) -> (r: ArchiveRoot)
        ensures
            r.base@ == base@,
    {
        ArchiveRoot { base: String::from_str(base) }
    }

    /// The path of the index file.
    pub fn index_path(&self) -> (r: String)
        ensures
            r@ == index_path_of(self.base@),
    {
        let mut r = self.base.clone();
        proof {
            reveal_strlit("/history.json");
        }
        r.append("/history.json");
        r
    }

    /// The path of the directory of shards.
    pub fn history_dir(&self) -> (r: String)
        ensures
            r@ == history_dir_of(self.base@),
    {
        let mut r = self.base.clone();
        proof {
            reveal_strlit("/history");
        }
        r.append("/history");
        r
    }

    /// The path of the archive file at `relative` under the directory of shards.
    pub fn shard_path(&self, relative: &str) -> (r: String)
        ensures
            r@ == shard_path_of(self.base@, relative@),
    {
        let mut r = self.history_dir();
        proof {
            reveal_strlit("/");
        }
        r.append("/");
        r.append(relative);
        assert(r@ =~= shard_path_of(self.base@, relative@));
        r
    }
}

/// The name a record without a `name` is archived under.
pub open spec fn placeholder_name() -> Seq<char> {
    seq!['未', '命', '名', '任', '务']
}

/// The group a record without a `group_name` is counted in.
pub open spec fn placeholder_group() -> Seq<char> {
    seq!['未', '知', '小', '组']
}

pub open spec fn name_of(r: TaskRecord) -> Seq<char> {
    match r.name {
        Some(n) => n@,
        None => placeholder_name(),
    }
}

pub open spec fn group_of(r: TaskRecord) -> Seq<char> {
    match r.group_name {
        Some(g) => g@,
        None => placeholder_group(),
    }
}

pub open spec fn count_of(r: TaskRecord) -> i64 {
    match r.total_count {
        Some(c) => c,
        None => 0,
    }
}

/// The record has an id, and it is not empty.
pub open spec fn has_usable_id(r: TaskRecord) -> bool {
    r.id is Some && r.id->0@.len() > 0
}

/// `e` is the index entry of `r`, archived under `timestamp`.
pub open spec fn entry_describes(e: IndexEntry, r: TaskRecord, timestamp: Seq<char>) -> bool {
    &&& e.id@ == r.id->0@
    &&& e.name@ == name_of(r)
    &&& e.timestamp@ == timestamp
    &&& e.year == written_year(timestamp)
    &&& e.month == written_month(timestamp)
    &&& e.file_name@ == shard_file_name_of(name_of(r), r.id->0@)
    &&& e.relative_path@ == relative_path_of(e.year as int, e.month as int, e.file_name@)
    &&& e.total_count == count_of(r)
    &&& e.group_name@ == group_of(r)
}

/// An archive file: the record and where and when it was archived.
#[derive(Debug, PartialEq, Eq)]
pub struct ArchiveFile {
    pub record: TaskRecord,
    pub created_time: String,
    pub year: i32,
    pub month: u32,
}

/// What archiving a record writes, and where: the directory to create, the file
/// to write there, and the entry to put in the index once the file is written.
#[derive(Debug, PartialEq, Eq)]
pub struct PreparedArchive {
    pub shard_dir: String,
    pub file_path: String,
    pub file: ArchiveFile,
    pub entry: IndexEntry,
}

/// What archiving `record` under storage root `base` comes to: the error for a
/// record without an id or a readable timestamp, else the file and entry.
pub open spec fn archive_result(
    base: Seq<char>,
    record: TaskRecord,
    r: Result<PreparedArchive, ArchiveError>,
) -> bool {
    if !has_usable_id(record) {
        r == Err::<PreparedArchive, ArchiveError>(ArchiveError::MissingField(RequiredField::Id))
    } else if record.timestamp is None {
        r == Err::<PreparedArchive, ArchiveError>(
            ArchiveError::MissingField(RequiredField::Timestamp),
        )
    } else if !rfc3339_accepts(record.timestamp->0@) {
        r == Err::<PreparedArchive, ArchiveError>(ArchiveError::MalformedTimestamp)
    } else {
        let ts = record.timestamp->0@;
        &&& r is Ok
        &&& has_date_prefix(ts)
        &&& 1 <= written_month(ts) <= 12
        &&& entry_describes(r->Ok_0.entry, record, ts)
        &&& r->Ok_0.file.record == record
        &&& r->Ok_0.file.year == r->Ok_0.entry.year
        &&& r->Ok_0.file.month == r->Ok_0.entry.month
        &&& r->Ok_0.file_path@ == shard_path_of(base, r->Ok_0.entry.relative_path@)
        &&& r->Ok_0.shard_dir@ == history_dir_of(base) + seq!['/'] + shard_dir_of(
            r->Ok_0.entry.year as int,
            r->Ok_0.entry.month as int,
        )
    }
}

fn text_or(v: &Option<String>, fallback: &str) -> (r: String)
    ensures
        r@ == (match v {
            Some(s) => s@,
            None => fallback@,
        }),
{
    match v {
        Some(s) => s.clone(),
        None => String::from_str(fallback),
    }
}

/// Prepares the archiving of `record` with creation time `created_time`. Nothing
/// is written: on an error, nothing is to be written either.
pub fn prepare_archive(root: &ArchiveRoot, record: TaskRecord, created_time: String) -> (r: Result<
    PreparedArchive,
    ArchiveError,
>)
    ensures
        archive_result(root.base@, record, r),
        r matches Ok(p) ==> p.file.created_time == created_time,
{
    let id = match &record.id {
        Some(id) => id.clone(),
        None => {
            return Err(ArchiveError::MissingField(RequiredField::Id));
        },
    };
    if id.unicode_len() == 0 {
        return Err(ArchiveError::MissingField(RequiredField::Id));
    }
    let timestamp = match &record.timestamp {
        Some(t) => t.clone(),
        None => {
            return Err(ArchiveError::MissingField(RequiredField::Timestamp));
        },
    };
    proof {
        reveal_strlit("未命名任务");
        reveal_strlit("未知小组");
        assert("未命名任务"@ =~= placeholder_name());
        assert("未知小组"@ =~= placeholder_group());
    }
    let name = text_or(&record.name, "未命名任务");
    let group_name = text_or(&record.group_name, "未知小组");
    let location = match resolve_shard(id.as_str(), name.as_str(), timestamp.as_str()) {
        Ok(loc) => loc,
        Err(e) => {
            return Err(e);
        },
    };
    let total_count: i64 = match record.total_count {
        Some(c) => c,
        None => 0,
    };
    let year = location.year;
    let month = location.month;
    let mut dir = root.history_dir();
    proof {
        reveal_strlit("/");
    }
    dir.append("/");
    let sub = shard_dir(year, month);
    dir.append(sub.as_str());
    let file_path = root.shard_path(location.relative_path.as_str());
    let entry = IndexEntry {
        id,
        name,
        timestamp,
        file_name: location.file_name,
        relative_path: location.relative_path,
        total_count,
        group_name,
        year,
        month,
    };
    let file = ArchiveFile { record, created_time, year, month };
    let r = PreparedArchive { shard_dir: dir, file_path, file, entry };
    assert(r.shard_dir@ =~= history_dir_of(root.base@) + seq!['/'] + shard_dir_of(
        year as int,
        month as int,
    ));
    Ok(r)
}

/// Prepares the archiving of `record`, created now.
pub fn prepare_archive_now(root: &ArchiveRoot, record: TaskRecord) -> (r: Result<
    PreparedArchive,
    ArchiveError,
>)
    ensures
        archive_result(root.base@, record, r),
{
    let created_time = now_rfc3339();
    prepare_archive(root, record, created_time)
}

} // verus!
