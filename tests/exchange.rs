use repo_digest::chat::{single_turn, ChainAction, ChainOfChat, ChainStage, Role};
use repo_digest::prompts::{
    correlate_user_and_home_project, correlation_chain, correlation_report, issue_chain,
    issue_discussion_text, issue_records_from_reply, readme_excerpt, readme_request,
    repo_overview, watch_list, CommentRecord, IssueRecord, REPORT_FORMAT,
};

fn issue() -> IssueRecord {
    IssueRecord {
        author: "carol".to_string(),
        title: "Crash on start".to_string(),
        body: Some("It   crashes.\n```\ntrace\n```\nPlease fix.".to_string()),
        labels: vec!["bug".to_string(), "urgent".to_string()],
        url: "https://api/issues/7".to_string(),
        html_url: "https://site/issues/7".to_string(),
        number: 7,
    }
}

fn comment(a: &str, b: Option<&str>) -> CommentRecord {
    CommentRecord { author: a.to_string(), body: b.map(|t| t.to_string()) }
}

#[test]
fn single_turn_has_system_then_user() {
    let r = single_turn("sys", "usr", 42);
    assert_eq!(r.max_tokens, 42);
    assert_eq!(r.messages.len(), 2);
    assert_eq!(r.messages[0].role, Role::System);
    assert_eq!(r.messages[0].content, "sys");
    assert_eq!(r.messages[1].role, Role::User);
    assert_eq!(r.messages[1].content, "usr");
}

#[test]
fn chain_carries_the_first_turn_into_the_second() {
    let mut c = ChainOfChat::new("sys", "first", 100, "second", 50, "tag");
    assert_eq!(c.stage, ChainStage::First);
    match c.on_reply(Some("analysis".to_string())) {
        ChainAction::Send(q) => {
            assert_eq!(q.max_tokens, 50);
            let seen: Vec<(Role, String)> =
                q.messages.iter().map(|m| (m.role, m.content.clone())).collect();
            assert_eq!(
                seen,
                vec![
                    (Role::System, "sys".to_string()),
                    (Role::User, "first".to_string()),
                    (Role::Assistant, "analysis".to_string()),
                    (Role::User, "second".to_string()),
                ]
            );
        }
        _ => panic!("expected a second request"),
    }
    match c.on_reply(Some("{}".to_string())) {
        ChainAction::Finish(t) => assert_eq!(t, "{}"),
        _ => panic!("expected the chain to finish"),
    }
    assert_eq!(c.stage, ChainStage::Done);
}

#[test]
fn chain_fails_with_its_tag() {
    let mut c = ChainOfChat::new("sys", "first", 100, "second", 50, "2-step-issue");
    match c.on_reply(None) {
        ChainAction::Fail(t) => assert_eq!(t, "2-step-issue"),
        _ => panic!("expected failure"),
    }
    let mut c = ChainOfChat::new("sys", "first", 100, "second", 50, "tag");
    assert!(matches!(c.on_reply(Some("ok".to_string())), ChainAction::Send(_)));
    match c.on_reply(Some(String::new())) {
        ChainAction::Fail(t) => assert_eq!(t, "tag"),
        _ => panic!("expected failure on an empty reply"),
    }
    assert!(matches!(c.on_reply(Some("late".to_string())), ChainAction::Fail(_)));
}

#[test]
fn discussion_text_squeezes_post_and_comments() {
    let cs = vec![comment("dave", Some("Me   too")), comment("erin", None)];
    let t = issue_discussion_text(&issue(), &cs);
    assert_eq!(
        t,
        "User 'carol', opened an issue titled 'Crash on start', labeled 'bug, urgent', with the following post: 'It   crashes.\n```\ntrace\n```\nPlease fix.'.dave commented: Me   tooerin commented: "
    );
}

#[test]
fn watch_list_prefers_target_then_known_commenters() {
    let cs = vec![comment("dave", None), comment("zed", None), comment("erin", None)];
    let known = vec!["erin".to_string(), "dave".to_string()];
    assert_eq!(watch_list(Some("alice"), &cs, &known), "alice");
    assert_eq!(watch_list(None, &cs, &known), "dave, erin");
    assert_eq!(watch_list(Some(""), &cs, &known), "dave, erin");
    assert_eq!(watch_list(None, &cs, &vec![]), "top contributors, no more than 3,");
}

#[test]
fn issue_chain_names_whom_to_assess() {
    let c = issue_chain(&issue(), &vec![], &vec![], None);
    assert_eq!(c.first.max_tokens, 768);
    assert_eq!(c.second_max_tokens, 384);
    assert_eq!(c.error_tag, "2-step-issue");
    assert!(c.first.messages[1].content.ends_with(
        "assess the contributions of top contributors, no more than 3, in moving the discussion forward or resolving the issue."
    ));
    assert!(c.second_prompt.contains("specifically 'top contributors, no more than 3,'"));
}

#[test]
fn reply_becomes_records_with_the_issue_page() {
    let r = issue_records_from_reply(r#"{"alice":"Found it.","bob":"Fixed it."}"#, "https://site/issues/7");
    assert_eq!(
        r,
        vec![
            ("alice".to_string(), "https://site/issues/7".to_string(), "Found it.".to_string()),
            ("bob".to_string(), "https://site/issues/7".to_string(), "Fixed it.".to_string()),
        ]
    );
    assert!(issue_records_from_reply("nothing", "u").is_empty());
}

#[test]
fn correlation_shares_capacity_among_present_inputs() {
    let long = "x".repeat(20000);
    let c = correlation_chain("alice", None, Some(&long), None, Some("talk"), 3);
    let usr = &c.first.messages[1].content;
    assert!(usr.starts_with("Analyze the activity of alice this week. Commits: "));
    assert!(!usr.contains("Profile:"));
    assert!(!usr.contains("Issues:"));
    let commits_part = usr.split(" Commits: ").nth(1).unwrap().split(" Discussions: ").next().unwrap();
    assert_eq!(commits_part.len(), 3 * (6000 * 4 / 6));
    assert!(usr.contains(" Discussions: talk Trace"));
    assert_eq!((c.first.max_tokens, c.second_max_tokens), (384, 192));
    assert_eq!(c.second_prompt, REPORT_FORMAT);
    let c = correlation_chain("alice", None, None, None, None, 10);
    assert_eq!((c.first.max_tokens, c.second_max_tokens), (512, 256));
    let c = correlation_chain("alice", None, None, None, None, 50);
    assert_eq!((c.first.max_tokens, c.second_max_tokens), (768, 384));
}

#[test]
fn correlation_report_is_none_on_failure() {
    assert_eq!(correlation_report("not json"), None);
    assert_eq!(
        correlation_report(r#"{"impactful":"I","alignment":"A","patterns":"P","synergy":"S","significance":"G"}"#),
        Some("I A P S G".to_string())
    );
}

#[test]
fn home_project_inputs_are_cut() {
    let c = correlate_user_and_home_project(&"h".repeat(7000), "p", "i", "r", "d");
    let usr = &c.first.messages[1].content;
    assert!(usr.contains(&format!("Home project's characteristics: {} Identify", "h".repeat(6000))));
    assert_eq!(c.first.max_tokens, 512);
    assert_eq!(c.second_max_tokens, 256);
    assert_eq!(c.error_tag, "correlate-user-home-summary");
}

#[test]
fn readme_helpers() {
    assert_eq!(readme_excerpt(&"é".repeat(20005)).chars().count(), 20000);
    let r = readme_request("A tool.");
    assert_eq!(r.max_tokens, 256);
    assert!(r.messages[1].content.starts_with("Based on the profile and README provided: A tool., extract"));
    let (name, payload) = repo_overview("o", "r", "desc", Some(String::new()));
    assert_eq!((name.as_str(), payload.as_str()), ("o/r", "desc"));
    let (_, payload) = repo_overview("o", "r", "desc", Some("summary".to_string()));
    assert_eq!(payload, "summary");
}
