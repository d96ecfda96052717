//! Where a record is stored: `<year>/<month>/<sanitized name>_<id>.json`
//! under the history directory.

use vstd::prelude::*;
use crate::clock::{
    has_date_prefix, parse_year_month, rfc3339_accepts, written_month, written_year,
};
use crate::error::ArchiveError;
use crate::text::{signed_decimal, signed_decimal_text, two_digit_text, two_digits};

verus! {

/// How many characters of the display name a file name keeps.
pub const NAME_LIMIT: usize = 50;

/// Characters that some file system refuses, and the space.
pub open spec fn is_unsafe_char(c: char) -> bool {
    c == '<' || c == '>' || c == ':' || c == '"' || c == '/' || c == '\\' || c == '|' || c
        == '?' || c == '*' || c == ' '
}

pub open spec fn safe_char(c: char) -> char {
    if is_unsafe_char(c) {
        '_'
    } else {
        c
    }
}

/// The display name with each unsafe character replaced by `_`, cut to
/// `NAME_LIMIT` characters.
pub open spec fn sanitized(name: Seq<char>) -> Seq<char> {
    let safe = name.map_values(|c: char| safe_char(c));
    if safe.len() <= NAME_LIMIT {
        safe
    } else {
        safe.take(NAME_LIMIT as int)
    }
}

pub open spec fn json_suffix() -> Seq<char> {
    seq!['.', 'j', 's', 'o', 'n']
}

/// The archive file name: the sanitized name, `_`, the id, `.json`.
pub open spec fn shard_file_name_of(name: Seq<char>, id: Seq<char>) -> Seq<char> {
    sanitized(name) + seq!['_'] + id + json_suffix()
}

/// The shard directory of a year and month, relative to the history directory.
pub open spec fn shard_dir_of(year: int, month: int) -> Seq<char> {
    signed_decimal(year) + seq!['/'] + two_digits(month as nat)
}

/// A file's path relative to the history directory.
pub open spec fn relative_path_of(year: int, month: int, file_name: Seq<char>) -> Seq<char> {
    shard_dir_of(year, month) + seq!['/'] + file_name
}

fn is_unsafe(c: char) -> (r: bool)
    ensures
        r == is_unsafe_char(c),
{
    c == '<' || c == '>' || c == ':' || c == '"' || c == '/' || c == '\\' || c == '|' || c == '?'
        || c == '*' || c == ' '
}

/// The display name made safe for a file name.
pub fn sanitize_name(name: &str) -> (r: String)
    ensures
        r@ == sanitized(name@),
{
    let n = name.unicode_len();
    let limit: usize = if n <= NAME_LIMIT {
        n
    } else {
        NAME_LIMIT
    };
    let ghost safe = name@.map_values(|c: char| safe_char(c));
    let mut r = String::new();
    let mut i: usize = 0;
    while i < limit
        invariant
            limit <= n == name@.len(),
            safe.len() == name@.len(),
            forall|k: int| 0 <= k < name@.len() ==> #[trigger] safe[k] == safe_char(name@[k]),
            i <= limit,
            r@ == safe.take(i as int),
        decreases limit - i,
    {
        let c = name.get_char(i);
        assert(safe[i as int] == safe_char(c));
        assert(safe.take(i as int + 1) =~= safe.take(i as int).push(safe[i as int]));
        proof {
            reveal_strlit("_");
        }
        if is_unsafe(c) {
            r.append("_");
        } else {
            let piece = name.substring_char(i, i + 1);
            assert(piece@ =~= seq![c]);
            r.append(piece);
        }
        assert(r@ =~= safe.take(i as int + 1));
        i = i + 1;
    }
    assert(r@ =~= sanitized(name@));
    r
}

/// The archive file name of a record with display name `name` and id `id`.
pub fn shard_file_name(name: &str, id: &str) -> (r: String)
    ensures
        r@ == shard_file_name_of(name@, id@),
{
    let mut r = sanitize_name(name);
    proof {
        reveal_strlit("_");
        reveal_strlit(".json");
    }
    r.append("_");
    r.append(id);
    r.append(".json");
    assert(r@ =~= shard_file_name_of(name@, id@));
    r
}

/// Where a record goes: its year and month, and its file's name and relative path.
#[derive(Debug, PartialEq, Eq)]
pub struct ShardLocation {
    pub year: i32,
    pub month: u32,
    pub file_name: String,
    pub relative_path: String,
}

/// The shard directory of `year` and `month`, relative to the history directory.
pub fn shard_dir(year: i32, month: u32) -> (r: String)
    ensures
        r@ == shard_dir_of(year as int, month as int),
{
    let mut r = signed_decimal_text(year as i64);
    proof {
        reveal_strlit("/");
    }
    r.append("/");
    let m = two_digit_text(month as u64);
    r.append(m.as_str());
    assert(r@ =~= shard_dir_of(year as int, month as int));
    r
}

/// The location of a record with id `id` and display name `name` dated in
/// `year` and `month`.
pub fn locate(id: &str, name: &str, year: i32, month: u32) -> (r: ShardLocation)
    ensures
        r.year == year,
        r.month == month,
        r.file_name@ == shard_file_name_of(name@, id@),
        r.relative_path@ == relative_path_of(year as int, month as int, r.file_name@),
{
    let file_name = shard_file_name(name, id);
    let mut relative_path = shard_dir(year, month);
    proof {
        reveal_strlit("/");
    }
    relative_path.append("/");
    relative_path.append(file_name.as_str());
    assert(relative_path@ =~= relative_path_of(year as int, month as int, file_name@));
    ShardLocation { year, month, file_name, relative_path }
}

/// Resolves the shard of a record with id `id`, display name `name` and
/// timestamp `timestamp`. Fails exactly when the timestamp is not RFC 3339.
pub fn resolve_shard(id: &str, name: &str, timestamp: &str) -> (r: Result<ShardLocation, ArchiveError>)
    ensures
        r is Err <==> !rfc3339_accepts(timestamp@),
        r matches Err(e) ==> e == ArchiveError::MalformedTimestamp,
        r matches Ok(loc) ==> {
            &&& has_date_prefix(timestamp@)
            &&& loc.year == written_year(timestamp@)
            &&& loc.month == written_month(timestamp@)
            &&& 1 <= loc.month <= 12
            &&& loc.file_name@ == shard_file_name_of(name@, id@)
            &&& loc.relative_path@ == relative_path_of(
                loc.year as int,
                loc.month as int,
                loc.file_name@,
            )
        },
{
    match parse_year_month(timestamp) {
        None => Err(ArchiveError::MalformedTimestamp),
        Some((year, month)) => Ok(locate(id, name, year, month)),
    }
}

} // verus!
