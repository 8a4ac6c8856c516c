use shippy::errors::CliError;
use shippy::orchestrate::plan_release;
use shippy::range::{commits_between, resolve_ref};
use shippy::tags::resolve_latest;

fn tmp_repo(name: &str) -> git2::Repository {
    let nanos = std::time::SystemTime::now()
        .duration_since(std::time::UNIX_EPOCH)
        .unwrap()
        .as_nanos();
    let path = format!("/tmp/shippy-test-{}-{}", name, nanos);
    git2::Repository::init(path).unwrap()
}

fn sig() -> git2::Signature<'static> {
    git2::Signature::now("tester", "tester@example.com").unwrap()
}

fn commit_with_message(repo: &git2::Repository, msg: &str) -> git2::Oid {
    let s = sig();
    let tree_id = repo.index().unwrap().write_tree().unwrap();
    let tree = repo.find_tree(tree_id).unwrap();
    match repo.head() {
        Ok(head) => {
            let parent = head.peel_to_commit().unwrap();
            repo.commit(Some("HEAD"), &s, &s, msg, &tree, &[&parent]).unwrap()
        },
        Err(_) => repo.commit(Some("HEAD"), &s, &s, msg, &tree, &[]).unwrap(),
    }
}

fn initial_commit(repo: &git2::Repository) -> git2::Oid {
    commit_with_message(repo, "Initial Commit")
}

fn empty_commit(repo: &git2::Repository) -> git2::Oid {
    commit_with_message(repo, "An empty commit")
}

fn lightweight_tag(repo: &git2::Repository, commit_id: git2::Oid, name: &str) {
    let obj = repo.find_object(commit_id, None).unwrap();
    repo.tag_lightweight(name, &obj, false).unwrap();
}

#[test]
fn find_greatest_tag_returns_error_for_empty_repo() {
    let repo = tmp_repo("empty-repo");

    assert_eq!(
        resolve_latest(&repo, "tag-").unwrap_err().message(),
        "Could not find any tags with prefix: tag-"
    );
}

#[test]
fn find_greatest_tag_returns_error_for_empty_prefix() {
    let repo = tmp_repo("empty-prefix");

    let err = resolve_latest(&repo, "").unwrap_err();
    assert!(matches!(err, CliError::Configuration(_)));
    assert_eq!(
        err.message(),
        "Can't find greatest tag with no prefix, would find all tags."
    );
}

#[test]
fn find_greatest_tag_returns_single_tag_with_matching_prefix() {
    let repo = tmp_repo("single-tag");

    let initial = initial_commit(&repo);
    lightweight_tag(&repo, initial, "tag-123");

    assert_eq!(resolve_latest(&repo, "tag-").unwrap().name, "tag-123");
}

#[test]
fn find_greatest_tag_returns_error_for_tag_with_non_numeric_suffix() {
    let repo = tmp_repo("bad-suffix");

    let initial = initial_commit(&repo);
    lightweight_tag(&repo, initial, "tag-abc");

    assert_eq!(
        resolve_latest(&repo, "tag-").unwrap_err().message(),
        "Could not parse u64 from: abc, in tag: tag-abc"
    );
}

#[test]
fn find_greatest_tag_returns_tag_with_highest_number() {
    let repo = tmp_repo("highest-number");

    let initial = initial_commit(&repo);
    lightweight_tag(&repo, initial, "tag-123");

    let commit_2 = empty_commit(&repo);
    lightweight_tag(&repo, commit_2, "tag-2");
    assert_eq!(resolve_latest(&repo, "tag-").unwrap().name, "tag-123");
}

#[test]
fn find_greatest_tag_ignores_tags_under_other_prefixes() {
    let repo = tmp_repo("other-prefixes");

    let initial = initial_commit(&repo);
    lightweight_tag(&repo, initial, "tag-1");
    lightweight_tag(&repo, initial, "other-99");

    let tag = resolve_latest(&repo, "tag-").unwrap();
    assert_eq!(tag.name, "tag-1");
    assert_eq!(tag.number, 1);
}

#[test]
fn commits_between_gets_no_commits_since_from_is_exclusive() {
    let repo = tmp_repo("empty-range");
    initial_commit(&repo);

    let result = commits_between(&repo, "HEAD", "HEAD").unwrap();

    assert_eq!(result.len(), 0);
}

#[test]
fn commits_between_gets_single_commit() {
    let repo = tmp_repo("single-commit");
    let initial = initial_commit(&repo);
    lightweight_tag(&repo, initial, "base");
    let commit_2 = empty_commit(&repo);

    let result = commits_between(&repo, "HEAD", "base").unwrap();

    assert_eq!(result.len(), 1);
    assert_eq!(result[0].id, commit_2);
}

#[test]
fn commits_between_gets_several_commits_in_order() {
    let repo = tmp_repo("several-commits");
    let initial = initial_commit(&repo);
    lightweight_tag(&repo, initial, "base");
    let commit_2 = empty_commit(&repo);
    let commit_3 = empty_commit(&repo);
    let commit_4 = empty_commit(&repo);

    let result = commits_between(&repo, "HEAD", "base").unwrap();

    assert_eq!(result.len(), 3);
    assert_eq!(result[2].id, commit_2);
    assert_eq!(result[1].id, commit_3);
    assert_eq!(result[0].id, commit_4);
}

#[test]
fn assemble_records_keeps_one_record_per_identity_in_order() {
    let repo = tmp_repo("assemble");
    let c1 = initial_commit(&repo);
    let c2 = commit_with_message(&repo, "See merge request team/project!4");

    let records = shippy::range::assemble_records(&repo, &vec![c2, c1]).unwrap();
    assert_eq!(records.len(), 2);
    assert_eq!(records[0].id, c2);
    assert_eq!(records[0].message, "See merge request team/project!4");
    assert_eq!(records[1].id, c1);
    assert_eq!(records[1].message, "Initial Commit");
    assert_eq!(records[1].author_name, "tester");
}

#[test]
fn can_find_commit_from_ref() {
    let repo = tmp_repo("from-ref");
    let initial = initial_commit(&repo);

    assert_eq!(initial, resolve_ref(&repo, "HEAD").unwrap());
}

#[test]
fn can_find_commit_from_tag() {
    let repo = tmp_repo("from-tag");
    let initial = initial_commit(&repo);
    lightweight_tag(&repo, initial, "tag-123");

    assert_eq!(initial, resolve_ref(&repo, "tag-123").unwrap());
}

#[test]
fn can_find_commit_from_branch() {
    let repo = tmp_repo("from-branch");
    let initial = initial_commit(&repo);
    let commit = repo.find_commit(initial).unwrap();
    repo.branch("a-branch", &commit, false).unwrap();

    assert_eq!(initial, resolve_ref(&repo, "a-branch").unwrap());
}

#[test]
fn unresolvable_name_reports_the_strategies_tried() {
    let repo = tmp_repo("unresolvable");
    initial_commit(&repo);

    let err = commits_between(&repo, "no-such-name", "HEAD").unwrap_err();
    assert!(matches!(err, CliError::RefNotFound(_)));
    assert_eq!(
        err.message(),
        "Could not resolve 'no-such-name': tried reference, tag and branch lookups"
    );
}

#[test]
fn plan_release_collects_ids_since_the_latest_tag() {
    let repo = tmp_repo("plan");
    let initial = initial_commit(&repo);
    lightweight_tag(&repo, initial, "tag-1");
    commit_with_message(&repo, "Merge branch 'a'\n\nSee merge request team/project!12");
    commit_with_message(&repo, "a direct push");
    commit_with_message(&repo, "Merge branch 'b'\n\nSee merge request team/project!7");

    let plan = plan_release(&repo, "tag-", "HEAD").unwrap();
    assert_eq!(plan.tag.name, "tag-1");
    assert_eq!(plan.tag.number, 1);
    assert_eq!(plan.commits.len(), 3);
    // newest first: the ids come out in walk order
    assert_eq!(plan.ids, vec![7, 12]);
}

#[test]
fn plan_release_rejects_an_empty_prefix_before_touching_the_repo() {
    let repo = tmp_repo("plan-empty-prefix");

    let err = plan_release(&repo, "", "HEAD").unwrap_err();
    assert!(matches!(err, CliError::Configuration(_)));
}
