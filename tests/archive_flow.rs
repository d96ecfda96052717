use history_archive::archive::{prepare_archive, prepare_archive_now, ArchiveRoot};
use history_archive::error::{ArchiveError, RequiredField};
use history_archive::index::IndexStore;
use history_archive::reader::{
    decode_archive_file, finish_delete, is_archive_file_name, lookup_result, reconcile,
    shard_path_for, ShardLoad, Summary,
};
use history_archive::record::TaskRecord;
use history_archive::stats::compute_stats;

fn record(json: &str) -> TaskRecord {
    TaskRecord::from_document(serde_json::from_str(json).unwrap())
}

fn task(id: &str, ts: &str) -> TaskRecord {
    record(&format!(
        r#"{{"id":"{}","name":"Draw {}","timestamp":"{}","total_count":4,"group_name":"Team","results":[1,2],"extra":{{"k":true}}}}"#,
        id, id, ts
    ))
}

fn root() -> ArchiveRoot {
    ArchiveRoot::new("coredata")
}

fn created() -> String {
    "2024-06-01T00:00:00+00:00".to_string()
}

/// Archives `rec` into `store` as the caller would once the file is written.
fn archive_into(store: &mut IndexStore, rec: TaskRecord) -> String {
    let p = prepare_archive(&root(), rec, created()).unwrap();
    store.upsert(p.entry);
    p.file_path
}

fn listed_ids(list: &[Summary]) -> Vec<String> {
    list.iter()
        .map(|s| match s {
            Summary::Full(r) => r.id.clone().unwrap(),
            Summary::Fallback(f) => f.id.clone(),
        })
        .collect()
}

#[test]
fn record_fields_are_read_from_the_document() {
    let r = task("t1", "2024-05-01T08:00:00Z");
    assert_eq!(r.id.as_deref(), Some("t1"));
    assert_eq!(r.name.as_deref(), Some("Draw t1"));
    assert_eq!(r.timestamp.as_deref(), Some("2024-05-01T08:00:00Z"));
    assert_eq!(r.total_count, Some(4));
    assert_eq!(r.group_name.as_deref(), Some("Team"));
    let odd = record(r#"{"id": 5, "total_count": "many"}"#);
    assert_eq!(odd.id, None);
    assert_eq!(odd.total_count, None);
    assert_eq!(odd.name, None);
}

#[test]
fn root_paths() {
    let r = root();
    assert_eq!(r.index_path(), "coredata/history.json");
    assert_eq!(r.history_dir(), "coredata/history");
    assert_eq!(r.shard_path("2024/01/a_b.json"), "coredata/history/2024/01/a_b.json");
}

#[test]
fn prepare_archive_builds_file_and_entry() {
    let p = prepare_archive(&root(), task("t1", "2024-05-01T08:00:00Z"), created()).unwrap();
    assert_eq!(p.shard_dir, "coredata/history/2024/05");
    assert_eq!(p.file_path, "coredata/history/2024/05/Draw_t1_t1.json");
    assert_eq!(p.entry.id, "t1");
    assert_eq!(p.entry.name, "Draw t1");
    assert_eq!(p.entry.timestamp, "2024-05-01T08:00:00Z");
    assert_eq!(p.entry.file_name, "Draw_t1_t1.json");
    assert_eq!(p.entry.relative_path, "2024/05/Draw_t1_t1.json");
    assert_eq!(p.entry.total_count, 4);
    assert_eq!(p.entry.group_name, "Team");
    assert_eq!((p.entry.year, p.entry.month), (2024, 5));
    assert_eq!((p.file.year, p.file.month), (2024, 5));
    assert_eq!(p.file.created_time, created());
    assert_eq!(p.file.record, task("t1", "2024-05-01T08:00:00Z"));
}

#[test]
fn prepare_archive_fills_in_defaults() {
    let rec = record(r#"{"id":"q","timestamp":"2025-02-03T04:05:06Z"}"#);
    let p = prepare_archive(&root(), rec, created()).unwrap();
    assert_eq!(p.entry.name, "未命名任务");
    assert_eq!(p.entry.group_name, "未知小组");
    assert_eq!(p.entry.total_count, 0);
    assert_eq!(p.entry.file_name, "未命名任务_q.json");
    assert_eq!(p.entry.relative_path, "2025/02/未命名任务_q.json");
}

#[test]
fn prepare_archive_without_timestamp_fails() {
    let rec = record(r#"{"id":"x"}"#);
    assert_eq!(
        prepare_archive(&root(), rec, created()).err(),
        Some(ArchiveError::MissingField(RequiredField::Timestamp))
    );
}

#[test]
fn prepare_archive_without_id_fails() {
    let rec = record(r#"{"timestamp":"2024-01-01T00:00:00Z"}"#);
    assert_eq!(
        prepare_archive(&root(), rec, created()).err(),
        Some(ArchiveError::MissingField(RequiredField::Id))
    );
    let empty = record(r#"{"id":"","timestamp":"2024-01-01T00:00:00Z"}"#);
    assert_eq!(
        prepare_archive(&root(), empty, created()).err(),
        Some(ArchiveError::MissingField(RequiredField::Id))
    );
}

#[test]
fn prepare_archive_with_bad_timestamp_fails() {
    let rec = record(r#"{"id":"x","timestamp":"01/02/2024"}"#);
    assert_eq!(
        prepare_archive(&root(), rec, created()).err(),
        Some(ArchiveError::MalformedTimestamp)
    );
}

#[test]
fn malformed_input_leaves_the_index_unchanged() {
    let mut store = IndexStore::new();
    archive_into(&mut store, task("a", "2024-01-01T00:00:00Z"));
    let before: Vec<String> = store.entries().iter().map(|e| e.id.clone()).collect();
    let result = prepare_archive(&root(), record(r#"{"id":"x"}"#), created());
    assert!(result.is_err());
    let after: Vec<String> = store.entries().iter().map(|e| e.id.clone()).collect();
    assert_eq!(before, after);
}

#[test]
fn prepare_archive_now_stamps_a_creation_time() {
    let p = prepare_archive_now(&root(), task("n", "2024-07-07T07:07:07Z")).unwrap();
    assert!(chrono::DateTime::parse_from_rfc3339(&p.file.created_time).is_ok());
}

#[test]
fn archive_then_get_round_trips() {
    let mut store = IndexStore::new();
    archive_into(&mut store, task("other", "2024-01-02T00:00:00Z"));
    let written = archive_into(&mut store, task("t1", "2024-05-01T08:00:00Z"));
    let read_from = shard_path_for(&root(), &store, "t1").unwrap();
    assert_eq!(read_from, written);
    let got = lookup_result(ShardLoad::Loaded(task("t1", "2024-05-01T08:00:00Z"))).unwrap().unwrap();
    assert_eq!(got, task("t1", "2024-05-01T08:00:00Z"));
    assert_eq!(got.document["extra"]["k"], serde_json::Value::Bool(true));
}

#[test]
fn archiving_twice_keeps_one_entry() {
    let mut store = IndexStore::new();
    archive_into(&mut store, task("a", "2024-01-01T00:00:00Z"));
    archive_into(&mut store, task("b", "2024-01-02T00:00:00Z"));
    archive_into(&mut store, task("b", "2024-01-02T00:00:00Z"));
    assert_eq!(store.len(), 2);
    let loads = vec![ShardLoad::Missing, ShardLoad::Missing];
    assert_eq!(reconcile(&store, loads).len(), 2);
}

#[test]
fn rearchiving_keeps_list_position() {
    let mut store = IndexStore::new();
    archive_into(&mut store, task("a", "2024-01-01T00:00:00Z"));
    archive_into(&mut store, task("b", "2024-01-02T00:00:00Z"));
    archive_into(&mut store, task("c", "2024-01-03T00:00:00Z"));
    let changed = record(r#"{"id":"a","name":"renamed","timestamp":"2024-01-01T00:00:00Z","total_count":7}"#);
    archive_into(&mut store, changed);
    let ids: Vec<String> = store.entries().iter().map(|e| e.id.clone()).collect();
    assert_eq!(ids, vec!["c", "b", "a"]);
    assert_eq!(store.entries()[2].name, "renamed");
    assert_eq!(store.entries()[2].total_count, 7);
}

#[test]
fn hundred_fifty_archives_keep_the_last_hundred() {
    let mut store = IndexStore::new();
    for k in 0..150 {
        let ts = format!("2024-01-01T00:{:02}:{:02}Z", k / 60, k % 60);
        archive_into(&mut store, task(&format!("t{}", k), &ts));
    }
    assert_eq!(store.len(), 100);
    let ids: Vec<String> = store.entries().iter().map(|e| e.id.clone()).collect();
    let expected: Vec<String> = (50..150).rev().map(|k| format!("t{}", k)).collect();
    assert_eq!(ids, expected);
}

#[test]
fn delete_forgets_the_id_and_names_its_file() {
    let mut store = IndexStore::new();
    let written = archive_into(&mut store, task("a", "2024-01-01T00:00:00Z"));
    archive_into(&mut store, task("b", "2024-01-02T00:00:00Z"));
    let to_delete = shard_path_for(&root(), &store, "a");
    assert_eq!(to_delete, Some(written));
    store.remove("a");
    assert_eq!(store.find("a"), None);
    assert_eq!(shard_path_for(&root(), &store, "a"), None);
    assert_eq!(store.len(), 1);
}

#[test]
fn delete_of_unknown_id_is_a_no_op() {
    let mut store = IndexStore::new();
    archive_into(&mut store, task("a", "2024-01-01T00:00:00Z"));
    assert_eq!(shard_path_for(&root(), &store, "nope"), None);
    store.remove("nope");
    assert_eq!(store.len(), 1);
}

#[test]
fn clear_empties_listing_and_stats() {
    let mut store = IndexStore::new();
    archive_into(&mut store, task("a", "2024-01-01T00:00:00Z"));
    archive_into(&mut store, task("b", "2024-02-01T00:00:00Z"));
    store.clear();
    assert!(reconcile(&store, Vec::new()).is_empty());
    let stats = compute_stats(&store);
    assert_eq!(stats.total_tasks, 0);
    assert_eq!(stats.total_results, 0);
    assert!(stats.years.is_empty());
    assert!(stats.months.is_empty());
}

#[test]
fn listing_falls_back_to_the_index() {
    let mut store = IndexStore::new();
    archive_into(&mut store, task("gone", "2024-03-01T00:00:00Z"));
    archive_into(&mut store, task("here", "2024-03-02T00:00:00Z"));
    archive_into(&mut store, task("bad", "2024-03-03T00:00:00Z"));
    let loads = vec![
        ShardLoad::Malformed,
        ShardLoad::Loaded(task("here", "2024-03-02T00:00:00Z")),
        ShardLoad::Missing,
    ];
    let list = reconcile(&store, loads);
    assert_eq!(listed_ids(&list), vec!["bad", "here", "gone"]);
    assert_eq!(list[1], Summary::Full(task("here", "2024-03-02T00:00:00Z")));
    match &list[2] {
        Summary::Fallback(f) => {
            assert_eq!(f.id, "gone");
            assert_eq!(f.name, "Draw gone");
            assert_eq!(f.timestamp, "2024-03-01T00:00:00Z");
            assert_eq!(f.total_count, 4);
            assert_eq!(f.group_name, "Team");
            assert_eq!(f.file_name, "Draw_gone_gone.json");
            assert!(f.results.is_empty());
            assert!(!f.edit_protected);
            assert_eq!(f.edit_password, "");
        }
        other => panic!("expected a fallback, got {:?}", other),
    }
    assert!(matches!(list[0], Summary::Fallback(_)));
}

#[test]
fn unreadable_file_on_lookup_is_an_error() {
    assert_eq!(
        lookup_result(ShardLoad::Unreadable("denied".to_string())),
        Err(ArchiveError::Io("denied".to_string()))
    );
    assert_eq!(lookup_result(ShardLoad::Missing), Ok(None));
    assert_eq!(lookup_result(ShardLoad::Malformed), Ok(None));
}

#[test]
fn decode_archive_file_reads_task_data() {
    let text = r#"{"task-data":{"id":"t9","timestamp":"2024-01-01T00:00:00Z","x":[1]},"created-time":"2024-01-01T00:00:00Z","year":2024,"month":1}"#;
    match decode_archive_file(text) {
        ShardLoad::Loaded(r) => {
            assert_eq!(r.id.as_deref(), Some("t9"));
            assert_eq!(r.document["x"][0], serde_json::Value::from(1));
        }
        other => panic!("expected a record, got {:?}", other),
    }
}

#[test]
fn decode_archive_file_rejects_other_text() {
    assert_eq!(decode_archive_file("not json"), ShardLoad::Malformed);
    assert_eq!(decode_archive_file(r#"{"year":2024}"#), ShardLoad::Malformed);
    assert_eq!(decode_archive_file(""), ShardLoad::Malformed);
}

#[test]
fn archive_file_names_have_the_json_extension() {
    assert!(is_archive_file_name("a_b.json"));
    assert!(is_archive_file_name("..json"));
    assert!(!is_archive_file_name(".json"));
    assert!(!is_archive_file_name("a.txt"));
    assert!(!is_archive_file_name("json"));
    assert!(!is_archive_file_name("a.JSON"));
}

#[test]
fn finish_delete_removes_the_entry_and_reports_file_failure() {
    let mut store = IndexStore::new();
    archive_into(&mut store, task("a", "2024-01-01T00:00:00Z"));
    archive_into(&mut store, task("b", "2024-01-02T00:00:00Z"));
    let r = finish_delete(&mut store, "a", Some("busy".to_string()));
    assert_eq!(r, Err(ArchiveError::Io("busy".to_string())));
    assert_eq!(store.find("a"), None);
    assert_eq!(store.len(), 1);
    assert_eq!(finish_delete(&mut store, "b", None), Ok(()));
    assert_eq!(store.len(), 0);
    assert_eq!(finish_delete(&mut store, "zz", None), Ok(()));
}

#[test]
fn decode_archive_file_keeps_the_whole_payload() {
    let text = r#"{"task-data":{"id":"p","name":"N","results":[{"who":"x"}]},"year":2024}"#;
    let expected: serde_json::Value =
        serde_json::from_str(r#"{"id":"p","name":"N","results":[{"who":"x"}]}"#).unwrap();
    assert_eq!(decode_archive_file(text), ShardLoad::Loaded(TaskRecord::from_document(expected)));
    assert_eq!(decode_archive_file("[1,2]"), ShardLoad::Malformed);
}

#[test]
fn rearchive_behind_newer_entries_keeps_order() {
    let mut store = IndexStore::new();
    archive_into(&mut store, task("old", "2023-01-01T00:00:00Z"));
    archive_into(&mut store, task("a", "2024-01-01T00:00:00Z"));
    archive_into(&mut store, task("b", "2024-01-02T00:00:00Z"));
    let a2 = record(r#"{"id":"a","name":"again","timestamp":"2024-01-01T00:00:00Z"}"#);
    archive_into(&mut store, a2);
    let ids: Vec<String> = store.entries().iter().map(|e| e.id.clone()).collect();
    assert_eq!(ids, vec!["b", "a", "old"]);
    assert_eq!(store.entries()[1].name, "again");
}
