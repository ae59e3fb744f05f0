use prnouncer::github::{
    GithubBranch, GithubLabel, GithubPullRequest, GithubRepository, GithubUser,
};
use prnouncer::messages::{build_messages, get_age, header_message, make_message, Weekday};

const DAY_SECS: i64 = 86400;

fn sample(user_type: &str) -> GithubPullRequest {
    GithubPullRequest {
        id: 42,
        url: "https://api.example.com/repos/org/tools/pulls/7".to_string(),
        html_url: "https://example.com/org/tools/pull/7".to_string(),
        title: "Fix the frobnicator".to_string(),
        user: GithubUser {
            id: 99,
            login: "octocat".to_string(),
            user_type: user_type.to_string(),
        },
        draft: false,
        number: 7,
        head: GithubBranch {
            repo: GithubRepository {
                name: "tools".to_string(),
                visibility: "private".to_string(),
            },
        },
        labels: vec![GithubLabel { name: "bug".to_string() }],
        created_at: 1_700_000_000,
    }
}

#[test]
fn test_age_zero_whole_days_is_new() {
    assert_eq!(get_age(1_700_000_000, 1_700_000_000), "NEW".to_string());
    assert_eq!(get_age(1_700_000_000 + DAY_SECS - 1, 1_700_000_000), "NEW".to_string());
}

#[test]
fn test_age_exactly_one_day() {
    assert_eq!(get_age(1_700_000_000 + DAY_SECS, 1_700_000_000), "opened 1 day ago".to_string());
    assert_eq!(
        get_age(1_700_000_000 + 2 * DAY_SECS - 1, 1_700_000_000),
        "opened 1 day ago".to_string()
    );
}

#[test]
fn test_age_many_days() {
    assert_eq!(
        get_age(1_700_000_000 + 2 * DAY_SECS, 1_700_000_000),
        "opened 2 days ago".to_string()
    );
    assert_eq!(
        get_age(1_700_000_000 + 30 * DAY_SECS, 1_700_000_000),
        "opened 30 days ago".to_string()
    );
}

#[test]
fn test_message_for_human_author() {
    let pr = sample("User");
    let message = make_message(&pr, false, 1_700_000_000);
    assert_eq!(
        message,
        "<example.com/org/tools/pull/7|tools#7> - Fix the frobnicator \n\n👤 octocat\n".to_string()
    );
}

#[test]
fn test_message_for_bot_author_is_tagged() {
    let pr = sample("Bot");
    let message = make_message(&pr, false, 1_700_000_000);
    assert_eq!(
        message,
        "<example.com/org/tools/pull/7|tools#7> - Fix the frobnicator \n\n🤖 octocat\n".to_string()
    );
}

#[test]
fn test_message_with_age_clause() {
    let pr = sample("User");
    let message = make_message(&pr, true, 1_700_000_000 + 3 * DAY_SECS);
    assert_eq!(
        message,
        "<example.com/org/tools/pull/7|tools#7> - Fix the frobnicator - (_opened 3 days ago_) \n\n👤 octocat\n"
            .to_string()
    );
}

#[test]
fn test_header_message_carries_weekday() {
    let header = header_message(Weekday::Wednesday);
    assert_eq!(
        header,
        "🧵 Wednesday Reviews 🧵\n(PR's can be hidden from this bot by adding the Stale tag)\n--------------------\n\n"
            .to_string()
    );
}

#[test]
fn test_build_messages_header_then_one_per_pull_request() {
    let prs = vec![sample("User"), sample("Bot")];
    let messages = build_messages(&prs, Weekday::Tuesday, false, 1_700_000_000);
    assert_eq!(messages.len(), 3);
    assert!(messages[0].starts_with("🧵 Tuesday Reviews 🧵\n"));
    assert!(messages[1].contains("👤 octocat"));
    assert!(messages[2].contains("🤖 octocat"));
}
