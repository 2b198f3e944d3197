use zimcache::article::{
    article_outcome, article_step, requested_title, status_code, ArticleOutcome, ArticleStep,
    FetchEvent,
};
use zimcache::search::{
    browse_titles, cap_results, collate_results, html_mimetype, resolve_search, retry_query,
    BrowseEntry, SearchEntry, RESULT_CAP,
};
use zimcache::store::ActiveDataset;

fn found(title: &str) -> SearchEntry {
    SearchEntry::Found {
        title: String::from(title),
    }
}

#[test]
fn collate_keeps_readable_titles_in_order() {
    let raw = vec![
        found("Alpha"),
        SearchEntry::Unreadable,
        found("Beta"),
        SearchEntry::Unreadable,
        found("Gamma"),
    ];
    let titles = collate_results(&raw);
    assert_eq!(titles, vec!["Alpha", "Beta", "Gamma"]);
}

#[test]
fn cap_preserves_order_and_never_exceeds_fifty() {
    let many: Vec<String> = (0..60).map(|i| format!("t{}", i)).collect();
    let capped = cap_results(many.clone());
    assert_eq!(capped.len(), RESULT_CAP);
    assert_eq!(capped[..], many[..RESULT_CAP]);

    let few: Vec<String> = (0..3).map(|i| format!("t{}", i)).collect();
    assert_eq!(cap_results(few.clone()), few);
}

#[test]
fn zero_results_trigger_one_lowercase_retry() {
    let query = String::from("MiXeD Case");
    let empty: Vec<SearchEntry> = Vec::new();
    assert_eq!(retry_query(&query, &empty), Some(String::from("mixed case")));

    let nonempty = vec![found("Hit")];
    assert_eq!(retry_query(&query, &nonempty), None);

    // Even a first pass of only unreadable entries is final: it was not empty.
    let unreadable_only = vec![SearchEntry::Unreadable];
    assert_eq!(retry_query(&query, &unreadable_only), None);
}

#[test]
fn search_session_uses_retry_results_only_on_empty_first_pass() {
    let first: Vec<SearchEntry> = Vec::new();
    let retried = vec![found("lower hit")];
    assert_eq!(resolve_search(first, retried), vec!["lower hit"]);

    let first = vec![found("first hit")];
    let ignored = vec![found("should not appear")];
    assert_eq!(resolve_search(first, ignored), vec!["first hit"]);
}

#[test]
fn html_mimetype_accepts_prefixed_forms_only() {
    assert!(html_mimetype(&String::from("text/html")));
    assert!(html_mimetype(&String::from("text/html; charset=utf-8")));
    assert!(!html_mimetype(&String::from("text/plain")));
    assert!(!html_mimetype(&String::from("image/png")));
    assert!(!html_mimetype(&String::from("")));
    assert!(!html_mimetype(&String::from("text/htm")));
}

#[test]
fn browse_lists_only_readable_html_entries() {
    let entries = vec![
        BrowseEntry::Entry {
            title: String::from("Article"),
            mimetype: Some(String::from("text/html")),
        },
        BrowseEntry::Entry {
            title: String::from("Styled"),
            mimetype: Some(String::from("text/html; charset=utf-8")),
        },
        BrowseEntry::Entry {
            title: String::from("Plain"),
            mimetype: Some(String::from("text/plain")),
        },
        BrowseEntry::Entry {
            title: String::from("NoType"),
            mimetype: None,
        },
        BrowseEntry::Unreadable,
    ];
    assert_eq!(browse_titles(&entries), vec!["Article", "Styled"]);
}

#[test]
fn requested_title_percent_decodes() {
    assert_eq!(
        requested_title(&String::from("Hello%20World")),
        "Hello World"
    );
    assert_eq!(requested_title(&String::from("Plain")), "Plain");
}

#[test]
fn requested_title_falls_back_on_undecodable_input() {
    // %FF decodes to a byte sequence that is not valid UTF-8.
    assert_eq!(requested_title(&String::from("%FF")), "%FF");
}

#[test]
fn no_dataset_is_answered_with_a_client_error() {
    let active = ActiveDataset::new();
    match article_step(&active) {
        ArticleStep::Respond { outcome } => {
            let code = status_code(&outcome);
            assert!(matches!(outcome, ArticleOutcome::NoDatasetLoaded));
            assert_eq!(code, 400);
            assert!((400..500).contains(&code));
        }
        ArticleStep::Fetch { .. } => panic!("nothing to fetch without a dataset"),
    }
}

#[test]
fn active_dataset_is_fetched_from() {
    let mut active = ActiveDataset::new();
    active.select(String::from("./uploads/aa.zim"));
    match article_step(&active) {
        ArticleStep::Fetch { path } => assert_eq!(path, "./uploads/aa.zim"),
        ArticleStep::Respond { .. } => panic!("an active dataset must be consulted"),
    }
}

#[test]
fn fetch_events_map_to_distinguishable_outcomes() {
    assert!(matches!(
        article_outcome(FetchEvent::OpenFailed),
        ArticleOutcome::ArchiveUnavailable
    ));
    assert!(matches!(
        article_outcome(FetchEvent::EntryMissing),
        ArticleOutcome::NotFound
    ));
    assert!(matches!(
        article_outcome(FetchEvent::ContentUnreadable),
        ArticleOutcome::BodyUnreadable
    ));
    match article_outcome(FetchEvent::Content {
        body: String::from("<p>hi</p>"),
    }) {
        ArticleOutcome::Body { content } => assert_eq!(content, "<p>hi</p>"),
        _ => panic!("content must be returned whole"),
    }
}

#[test]
fn outcome_status_codes_are_exact() {
    assert_eq!(status_code(&ArticleOutcome::NoDatasetLoaded), 400);
    assert_eq!(status_code(&ArticleOutcome::NotFound), 404);
    assert_eq!(status_code(&ArticleOutcome::BodyUnreadable), 404);
    assert_eq!(status_code(&ArticleOutcome::ArchiveUnavailable), 500);
    assert_eq!(
        status_code(&ArticleOutcome::Body {
            content: String::new()
        }),
        200
    );
}
