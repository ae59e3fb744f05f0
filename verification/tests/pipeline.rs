use prnouncer::github::{
    GithubBranch, GithubLabel, GithubPullRequest, GithubRepository, GithubReview, GithubUser,
};
use prnouncer::messages::{build_messages, thread_key, Weekday};
use prnouncer::pipeline::{filter_before_reviews, filter_by_reviews, has_approved, FilterConfig};

fn pull_request(id: u64, author_id: u64, draft: bool, labels: Vec<&str>) -> GithubPullRequest {
    GithubPullRequest {
        id,
        url: format!("https://api.example.com/repos/org/repo/pulls/{}", id),
        html_url: format!("https://example.com/org/repo/pull/{}", id),
        title: format!("change {}", id),
        user: GithubUser {
            id: author_id,
            login: format!("user{}", author_id),
            user_type: "User".to_string(),
        },
        draft,
        number: id,
        head: GithubBranch {
            repo: GithubRepository {
                name: "repo".to_string(),
                visibility: "public".to_string(),
            },
        },
        labels: labels
            .into_iter()
            .map(|name| GithubLabel { name: name.to_string() })
            .collect(),
        created_at: 1_700_000_000,
    }
}

fn review(id: u64, state: &str) -> GithubReview {
    GithubReview { id, state: state.to_string() }
}

fn open_config() -> FilterConfig {
    FilterConfig {
        ignored_users: Vec::new(),
        announced_users: None,
        ignored_labels: Vec::new(),
        show_pr_age: false,
    }
}

#[test]
fn test_draft_pull_request_is_never_included() {
    let prs = vec![pull_request(1, 10, true, vec![])];
    let survivors = filter_before_reviews(prs, &open_config());
    assert_eq!(survivors.len(), 0);
}

#[test]
fn test_ignored_author_is_excluded_even_when_allow_listed() {
    let cfg = FilterConfig {
        ignored_users: vec!["10".to_string()],
        announced_users: Some(vec![10]),
        ignored_labels: Vec::new(),
        show_pr_age: false,
    };
    let prs = vec![pull_request(1, 10, false, vec![])];
    let survivors = filter_before_reviews(prs, &cfg);
    assert_eq!(survivors.len(), 0);
}

#[test]
fn test_allow_list_restricts_when_non_empty() {
    let cfg = FilterConfig {
        ignored_users: Vec::new(),
        announced_users: Some(vec![11]),
        ignored_labels: Vec::new(),
        show_pr_age: false,
    };
    let prs = vec![pull_request(1, 10, false, vec![]), pull_request(2, 11, false, vec![])];
    let survivors = filter_before_reviews(prs, &cfg);
    assert_eq!(survivors.len(), 1);
    assert_eq!(survivors[0].id, 2);
}

#[test]
fn test_allow_list_absent_or_empty_imposes_no_restriction() {
    let prs = vec![pull_request(1, 10, false, vec![])];
    let survivors = filter_before_reviews(prs, &open_config());
    assert_eq!(survivors.len(), 1);

    let cfg = FilterConfig {
        ignored_users: Vec::new(),
        announced_users: Some(Vec::new()),
        ignored_labels: Vec::new(),
        show_pr_age: false,
    };
    let prs = vec![pull_request(1, 10, false, vec![])];
    let survivors = filter_before_reviews(prs, &cfg);
    assert_eq!(survivors.len(), 1);
}

#[test]
fn test_excluded_label_hides_pull_request() {
    let cfg = FilterConfig {
        ignored_users: Vec::new(),
        announced_users: None,
        ignored_labels: vec!["Stale".to_string()],
        show_pr_age: false,
    };
    let prs = vec![
        pull_request(1, 10, false, vec!["bug", "Stale"]),
        pull_request(2, 11, false, vec!["bug"]),
    ];
    let survivors = filter_before_reviews(prs, &cfg);
    assert_eq!(survivors.len(), 1);
    assert_eq!(survivors[0].id, 2);
}

#[test]
fn test_zero_reviews_means_pending() {
    let prs = vec![pull_request(1, 10, false, vec![])];
    let survivors = filter_before_reviews(prs, &open_config());
    let pending = filter_by_reviews(survivors, vec![Vec::new()]);
    assert_eq!(pending.len(), 1);
    assert_eq!(pending[0].id, 1);
}

#[test]
fn test_non_approving_reviews_mean_pending() {
    let reviews = vec![review(1, "CHANGES_REQUESTED"), review(2, "COMMENTED")];
    assert!(!has_approved(&reviews));
    let prs = vec![pull_request(1, 10, false, vec![])];
    let pending = filter_by_reviews(prs, vec![reviews]);
    assert_eq!(pending.len(), 1);
}

#[test]
fn test_approved_review_excludes_even_with_changes_requested() {
    let reviews = vec![review(1, "CHANGES_REQUESTED"), review(2, "APPROVED")];
    assert!(has_approved(&reviews));
    let prs = vec![pull_request(1, 10, false, vec![])];
    let pending = filter_by_reviews(prs, vec![reviews]);
    assert_eq!(pending.len(), 0);
}

#[test]
fn test_end_to_end_one_normal_pull_request() {
    let cfg = FilterConfig {
        ignored_users: vec!["20".to_string()],
        announced_users: None,
        ignored_labels: Vec::new(),
        show_pr_age: false,
    };
    let prs = vec![
        pull_request(1, 10, true, vec![]),
        pull_request(2, 20, false, vec![]),
        pull_request(3, 30, false, vec![]),
    ];
    let survivors = filter_before_reviews(prs, &cfg);
    assert_eq!(survivors.len(), 1);
    assert_eq!(survivors[0].id, 3);

    // the one surviving pull request has no reviews, so it stays pending
    let pending = filter_by_reviews(survivors, vec![Vec::new()]);
    assert_eq!(pending.len(), 1);

    // header plus one line, all sent under one thread key
    let messages = build_messages(&pending, Weekday::Monday, false, 1_700_000_000);
    assert_eq!(messages.len(), 2);
    assert!(messages[0].contains("Monday"));
    assert!(messages[1].contains("change 3"));
    let key = thread_key("2024-01-01");
    let key_again = thread_key("2024-01-01");
    assert_eq!(key, key_again);
    assert_eq!(key, "pr-thread-2024-01-01".to_string());
}

#[test]
fn test_everything_filtered_means_no_messages() {
    let cfg = FilterConfig {
        ignored_users: vec!["10".to_string()],
        announced_users: None,
        ignored_labels: vec!["Stale".to_string()],
        show_pr_age: false,
    };
    let first = vec![pull_request(1, 10, false, vec![])];
    let second = vec![pull_request(2, 30, true, vec![]), pull_request(3, 40, false, vec!["Stale"])];
    let mut pending: Vec<GithubPullRequest> = Vec::new();
    pending.append(&mut filter_by_reviews(filter_before_reviews(first, &cfg), Vec::new()));
    pending.append(&mut filter_by_reviews(filter_before_reviews(second, &cfg), Vec::new()));
    assert_eq!(pending.len(), 0);
    let messages = build_messages(&pending, Weekday::Friday, true, 1_700_000_000);
    assert_eq!(messages.len(), 0);
}

#[test]
fn test_order_is_preserved_across_filtering() {
    let prs = vec![
        pull_request(5, 10, false, vec![]),
        pull_request(3, 11, true, vec![]),
        pull_request(9, 12, false, vec![]),
        pull_request(7, 13, false, vec![]),
    ];
    let survivors = filter_before_reviews(prs, &open_config());
    let ids: Vec<u64> = survivors.iter().map(|pr| pr.id).collect();
    assert_eq!(ids, vec![5, 9, 7]);
    let pending = filter_by_reviews(
        survivors,
        vec![vec![review(1, "APPROVED")], Vec::new(), Vec::new()],
    );
    let ids: Vec<u64> = pending.iter().map(|pr| pr.id).collect();
    assert_eq!(ids, vec![9, 7]);
}
