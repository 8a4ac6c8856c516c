use shippy::errors::CliError;
use shippy::fetch::{fetch_on_page, fetch_start, FetchStep, MergeRequest, Project, User};

fn mr(iid: u64, title: &str, author: &str) -> MergeRequest {
    MergeRequest {
        iid,
        title: title.to_string(),
        description: "a description".to_string(),
        author: User { id: 100 + iid, name: author.to_string(), username: author.to_lowercase() },
    }
}

#[test]
fn empty_id_set_needs_no_fetch() {
    // nothing requested: no page is ever asked for, the result is empty
    let ids: Vec<u64> = Vec::new();
    assert!(fetch_start(&ids).is_none());
}

#[test]
fn fetch_start_deduplicates_and_opens_at_page_zero() {
    let st = fetch_start(&vec![2, 1, 2, 1]).unwrap();
    assert_eq!(st.needed, vec![2, 1]);
    assert_eq!(st.found.len(), 0);
    assert_eq!(st.page, 0);
}

#[test]
fn paginated_fetch_resolves_ids_over_two_pages() {
    // ids {1, 2}; the server pages are [{iid:3},{iid:2}] then [{iid:1}]:
    // two page requests happen, records 1 and 2 come back, record 3 stays out
    let st = fetch_start(&vec![1, 2]).unwrap();
    assert_eq!(st.page, 0);

    let page0 = vec![mr(3, "three", "Carol"), mr(2, "two", "Bob")];
    let st = match fetch_on_page(st, page0) {
        FetchStep::Continue(next) => next,
        other => panic!("expected a second page request, got {:?}", other),
    };
    assert_eq!(st.page, 1);
    assert_eq!(st.needed, vec![1]);

    let page1 = vec![mr(1, "one", "Alice")];
    let records = match fetch_on_page(st, page1) {
        FetchStep::Done(records) => records,
        other => panic!("expected the fetch to finish, got {:?}", other),
    };
    assert_eq!(records.len(), 2);
    let iids: Vec<u64> = records.iter().map(|r| r.iid).collect();
    assert!(iids.contains(&1));
    assert!(iids.contains(&2));
    assert!(!iids.contains(&3));
}

#[test]
fn paginated_fetch_fails_when_pages_run_out() {
    // ids {1, 2}; an empty page arrives before both are found
    let st = fetch_start(&vec![1, 2]).unwrap();
    let step = fetch_on_page(st, Vec::new());
    match step {
        FetchStep::Fail(err) => {
            assert!(matches!(err, CliError::NotFound(_)));
            assert_eq!(
                err.message(),
                "Ran out of pages before finding merge requests with iids: 1, 2"
            );
        },
        other => panic!("expected the fetch to fail, got {:?}", other),
    }
}

#[test]
fn paginated_fetch_names_only_outstanding_ids() {
    let st = fetch_start(&vec![1, 2]).unwrap();
    let st = match fetch_on_page(st, vec![mr(2, "two", "Bob")]) {
        FetchStep::Continue(next) => next,
        other => panic!("expected a second page request, got {:?}", other),
    };
    let step = fetch_on_page(st, Vec::new());
    match step {
        FetchStep::Fail(err) => {
            assert_eq!(
                err.message(),
                "Ran out of pages before finding merge requests with iids: 1"
            );
        },
        other => panic!("expected the fetch to fail, got {:?}", other),
    }
}

#[test]
fn shared_page_records_nobody_asked_for_are_dropped() {
    let st = fetch_start(&vec![5]).unwrap();
    let page = vec![mr(4, "four", "Dan"), mr(5, "five", "Eve"), mr(5, "five again", "Eve")];
    let records = match fetch_on_page(st, page) {
        FetchStep::Done(records) => records,
        other => panic!("expected the fetch to finish, got {:?}", other),
    };
    assert_eq!(records.len(), 1);
    assert_eq!(records[0].iid, 5);
    assert_eq!(records[0].title, "five");
}

#[test]
fn merge_request_summary_names_title_and_author() {
    let record = mr(1, "Add the frobnicator", "Alice");
    assert_eq!(record.summary(), "Add the frobnicator by Alice");
}

#[test]
fn project_builds_listing_and_record_urls() {
    let project = Project::new("https://gitlab.com".to_string(), 15148894, "token".to_string());
    assert_eq!(
        project.page_url(0),
        "https://gitlab.com/api/v4/projects/15148894/merge_requests?page=0"
    );
    assert_eq!(
        project.page_url(12),
        "https://gitlab.com/api/v4/projects/15148894/merge_requests?page=12"
    );
    assert_eq!(
        project.record_url(1),
        "https://gitlab.com/api/v4/projects/15148894/merge_requests/1"
    );
    assert_eq!(project.api_token, "token");
}
