use history_archive::error::ArchiveError;
use history_archive::shard::{locate, resolve_shard, sanitize_name, shard_dir, shard_file_name};
use history_archive::text::{decimal_text, signed_decimal_text, two_digit_text};

#[test]
fn sanitize_replaces_unsafe_characters_and_spaces() {
    assert_eq!(sanitize_name("a b<c>:d\"e/f\\g|h?i*j"), "a_b_c__d_e_f_g_h_i_j");
}

#[test]
fn sanitize_keeps_other_characters() {
    assert_eq!(sanitize_name("抽奖-2024.v1"), "抽奖-2024.v1");
}

#[test]
fn sanitize_cuts_to_fifty_characters() {
    let long = "x".repeat(80);
    assert_eq!(sanitize_name(&long), "x".repeat(50));
    let wide = "名".repeat(60);
    assert_eq!(sanitize_name(&wide).chars().count(), 50);
}

#[test]
fn sanitize_of_empty_name_is_empty() {
    assert_eq!(sanitize_name(""), "");
}

#[test]
fn file_name_embeds_name_and_id() {
    assert_eq!(shard_file_name("Spring draw", "t-1"), "Spring_draw_t-1.json");
    assert_eq!(shard_file_name("", "abc"), "_abc.json");
}

#[test]
fn resolve_shard_reads_year_and_month() {
    let loc = resolve_shard("t1", "My Task", "2024-03-15T10:20:30+08:00").unwrap();
    assert_eq!(loc.year, 2024);
    assert_eq!(loc.month, 3);
    assert_eq!(loc.file_name, "My_Task_t1.json");
    assert_eq!(loc.relative_path, "2024/03/My_Task_t1.json");
}

#[test]
fn resolve_shard_keeps_the_written_date_whatever_the_offset() {
    let loc = resolve_shard("t2", "n", "2023-12-31T23:30:00-05:00").unwrap();
    assert_eq!((loc.year, loc.month), (2023, 12));
    assert_eq!(loc.relative_path, "2023/12/n_t2.json");
}

#[test]
fn resolve_shard_rejects_malformed_timestamps() {
    assert_eq!(resolve_shard("t", "n", "yesterday"), Err(ArchiveError::MalformedTimestamp));
    assert_eq!(resolve_shard("t", "n", "2024-13-01T00:00:00Z"), Err(ArchiveError::MalformedTimestamp));
    assert_eq!(resolve_shard("t", "n", "2024-01-01"), Err(ArchiveError::MalformedTimestamp));
    assert_eq!(resolve_shard("t", "n", ""), Err(ArchiveError::MalformedTimestamp));
}

#[test]
fn shard_dir_pads_the_month() {
    assert_eq!(shard_dir(2025, 1), "2025/01");
    assert_eq!(shard_dir(2025, 11), "2025/11");
}

#[test]
fn decimal_rendering() {
    assert_eq!(decimal_text(0), "0");
    assert_eq!(decimal_text(1234567890), "1234567890");
    assert_eq!(decimal_text(u64::MAX), "18446744073709551615");
    assert_eq!(signed_decimal_text(-42), "-42");
    assert_eq!(signed_decimal_text(i64::MIN), "-9223372036854775808");
    assert_eq!(two_digit_text(7), "07");
    assert_eq!(two_digit_text(12), "12");
    assert_eq!(two_digit_text(123), "123");
}

#[test]
fn locate_builds_the_relative_path() {
    let loc = locate("id7", "a/b", 987, 4);
    assert_eq!(loc.file_name, "a_b_id7.json");
    assert_eq!(loc.relative_path, "987/04/a_b_id7.json");
    assert_eq!((loc.year, loc.month), (987, 4));
}
