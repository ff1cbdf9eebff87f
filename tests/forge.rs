use repo_digest::forge::{
    commit_search_path, comments_url, commits_to_memories, community_description,
    contributors_path, days_before, decode_readme, format_user_profile, issue_search_path,
    next_page, patch_url, recent_committers, repo_path, CommitRecord, MemoryType, UserProfile,
};
use repo_digest::prompts::commit_request;

#[test]
fn readme_is_decoded_and_labelled() {
    assert_eq!(decode_readme("aGVs\nbG8=\n"), Some("Readme: hello".to_string()));
    assert_eq!(decode_readme("not base64!"), None);
    assert_eq!(decode_readme("/w=="), None);
}

#[test]
fn issue_search_is_url_encoded() {
    let p = issue_search_path("o", "r", Some("alice"), 0, 1, Some("t")).unwrap();
    assert_eq!(
        p,
        "search/issues?q=repo%3Ao%2Fr%20is%3Aissue%20involves%3Aalice%20updated%3A%3E1970-01-01T00%3A00%3A00Z&sort=updated&order=desc&per_page=100&page=1&token=t"
    );
    let p = issue_search_path("o", "ré", None, 86399, 2, None).unwrap();
    assert_eq!(
        p,
        "search/issues?q=repo%3Ao%2Fr%C3%A9%20is%3Aissue%20%20updated%3A%3E1970-01-01T23%3A59%3A59Z&sort=updated&order=desc&per_page=100&page=2"
    );
    assert_eq!(issue_search_path("o", "r", None, i64::MAX, 1, None), None);
}

#[test]
fn commit_search_uses_the_day() {
    let p = commit_search_path("o", "r", Some("bob"), 365 * 86400, 12, None).unwrap();
    assert_eq!(
        p,
        "search/commits?q=repo:o/r%20author:bob%20committer-date:>1971-01-01&sort=committer-date&order=desc&per_page=100&page=12"
    );
    assert_eq!(commit_search_path("o", "r", None, i64::MIN, 1, None), None);
}

#[test]
fn other_paths() {
    assert_eq!(contributors_path("o", "r", 49), "repos/o/r/contributors?per_page=100&page=49");
    assert_eq!(comments_url("https://api/i/1", Some("t")), "https://api/i/1/comments?sort=updated&order=desc&per_page=100&token=t");
    assert_eq!(patch_url("https://site/c/1", Some("t")), "https://site/c/1.patch?token=t");
    assert_eq!(patch_url("https://site/c/1", None), "https://site/c/1.patch");
    assert_eq!(repo_path("o", "r", "readme"), "repos/o/r/readme");
    assert_eq!(community_description("A lib"), "Description: A lib");
}

#[test]
fn window_start() {
    assert_eq!(days_before(1_000_000, 1), 913_600);
    assert_eq!(days_before(i64::MIN + 10, 1), i64::MIN);
}

#[test]
fn paging_decisions() {
    assert_eq!(next_page(1, 2, Some(100), 100, false), Some(2));
    assert_eq!(next_page(2, 2, Some(100), 100, false), None);
    assert_eq!(next_page(1, 49, Some(99), 100, true), None);
    assert_eq!(next_page(1, 2, None, 100, false), Some(2));
    assert_eq!(next_page(1, 49, None, 100, true), None);
}

#[test]
fn commits_without_author_are_skipped() {
    let items = vec![
        CommitRecord { author: Some("alice".to_string()), message: "m1".to_string(), html_url: "u1".to_string() },
        CommitRecord { author: None, message: "m2".to_string(), html_url: "u2".to_string() },
        CommitRecord { author: Some("alice".to_string()), message: "m3".to_string(), html_url: "u3".to_string() },
    ];
    let ms = commits_to_memories(&items);
    assert_eq!(ms.len(), 2);
    assert_eq!(ms[1].memory_type, MemoryType::Commit);
    assert_eq!((ms[1].name.as_str(), ms[1].tag_line.as_str(), ms[1].source_url.as_str()), ("alice", "m3", "u3"));
    assert_eq!(recent_committers(&ms), vec!["alice".to_string()]);
    let r = commit_request(&ms[0], "diff --git a b");
    assert_eq!(r.max_tokens, 128);
    assert!(r.messages[0].content.starts_with("Given a commit patch from user alice, analyze"));
    assert!(r.messages[1].content.starts_with("Analyze the commit patch: diff --git a b, and its description: m1. Summarize"));
}

#[test]
fn profile_text() {
    let u = UserProfile {
        name: Some("Ann".to_string()),
        login: Some("ann".to_string()),
        url: None,
        twitter_username: None,
        bio: Some(String::new()),
        company: Some("Acme".to_string()),
        location: None,
        created_at: Some(0),
        email: Some("a@b.c".to_string()),
    };
    assert_eq!(
        format_user_profile(Some(&u)),
        "USER_profile: \nName: Ann, Login: ann,    Company: Acme,  Created At: 1970-01-01, Email: a@b.c\n"
    );
    assert_eq!(format_user_profile(None), "USER_profile: \n");
}

#[test]
fn search_window_ends_now() {
    let start_today = repo_digest::forge::search_cutoff_seconds(0);
    let start_week = repo_digest::forge::search_cutoff_seconds(7);
    assert!(start_today > 1_600_000_000);
    assert!(start_week <= start_today - 7 * 86400 + 5);
    assert!(start_week >= start_today - 7 * 86400 - 5);
}
