use shippy::extract::{extract_ids, extract_one};
use shippy::range::CommitRecord;

fn record(message: &str) -> CommitRecord {
    CommitRecord {
        id: git2::Oid::zero(),
        message: message.to_string(),
        author_name: "tester".to_string(),
    }
}

#[test]
fn extract_one_reads_a_merge_reference() {
    assert_eq!(extract_one("Merge branch 'x'\n\nSee merge request team/project!17"), Some(17));
    assert_eq!(extract_one("!5"), Some(5));
    assert_eq!(extract_one("prefix!005 suffix"), Some(5));
}

#[test]
fn extract_one_takes_the_first_marker() {
    assert_eq!(extract_one("see !12 and also !34"), Some(12));
    assert_eq!(extract_one("bang! then !9"), Some(9));
}

#[test]
fn extract_one_reads_the_whole_digit_run() {
    assert_eq!(extract_one("ref !1234x"), Some(1234));
    assert_eq!(extract_one("!18446744073709551615"), Some(u64::MAX));
}

#[test]
fn extract_one_yields_nothing_without_a_marker() {
    assert_eq!(extract_one(""), None);
    assert_eq!(extract_one("a direct push"), None);
    assert_eq!(extract_one("exciting! but no reference"), None);
    assert_eq!(extract_one("trailing bang !"), None);
    assert_eq!(extract_one("!x12"), None);
}

#[test]
fn extract_one_yields_nothing_on_an_oversized_run() {
    assert_eq!(extract_one("!18446744073709551616"), None);
}

#[test]
fn extract_ids_collects_unique_ids_in_first_occurrence_order() {
    let commits = vec![
        record("See merge request a/b!7"),
        record("a direct push"),
        record("See merge request a/b!3"),
        record("See merge request a/b!7"),
        record("See merge request a/b!10"),
    ];
    assert_eq!(extract_ids(&commits), vec![7, 3, 10]);
}

#[test]
fn extract_ids_of_unrecognized_commits_is_empty() {
    let commits = vec![
        record("Initial Commit"),
        record("a direct push"),
        record(""),
    ];
    assert_eq!(extract_ids(&commits), Vec::<u64>::new());
}

#[test]
fn extract_ids_of_no_commits_is_empty() {
    let commits: Vec<CommitRecord> = Vec::new();
    assert_eq!(extract_ids(&commits), Vec::<u64>::new());
}
