use repo_digest::ledger::{fold_commit_results, fold_issue_results, AggregateError, Ledger};
use repo_digest::parse::{parse_issue_summary_from_json, parse_summary_from_raw_json, ParseError};

fn pairs(v: &[(&str, &str)]) -> Vec<(String, String)> {
    v.iter().map(|(a, b)| (a.to_string(), b.to_string())).collect()
}

fn rec(n: &str, l: &str, s: &str) -> (String, String, String) {
    (n.to_string(), l.to_string(), s.to_string())
}

#[test]
fn well_formed_json_gives_its_pairs() {
    let r = parse_issue_summary_from_json(r#"{"a":"x","b":"y"}"#);
    assert_eq!(r, Ok(pairs(&[("a", "x"), ("b", "y")])));
}

#[test]
fn near_json_is_recovered_by_pattern() {
    let r = parse_issue_summary_from_json(r#"foo "a": "x" bar "b": "y" baz"#);
    assert_eq!(r, Ok(pairs(&[("a", "x"), ("b", "y")])));
}

#[test]
fn trailing_comma_and_fencing_are_tolerated() {
    let r = parse_issue_summary_from_json("```json\n{\n  \"alice\": \"Fixed the build.\",\n  \"bob\":\t\"Reviewed.\",\n}\n```");
    assert_eq!(r, Ok(pairs(&[("alice", "Fixed the build."), ("bob", "Reviewed.")])));
}

#[test]
fn garbage_is_an_explicit_failure() {
    assert_eq!(parse_issue_summary_from_json("no pairs here at all"), Err(ParseError::NoFields));
    assert_eq!(parse_issue_summary_from_json(""), Err(ParseError::NoFields));
    assert_eq!(parse_issue_summary_from_json(r#""": "x""#), Err(ParseError::NoFields));
}

#[test]
fn non_string_values_are_skipped() {
    let r = parse_issue_summary_from_json(r#"{"a": 1, "b": "y", "c": null}"#);
    assert_eq!(r, Ok(pairs(&[("b", "y")])));
}

#[test]
fn json_that_is_not_an_object_falls_back_to_pattern() {
    assert_eq!(parse_issue_summary_from_json("[1, 2]"), Err(ParseError::NoFields));
}

#[test]
fn report_from_json_joins_fields_in_order() {
    let r = parse_summary_from_raw_json(
        r#"{"synergy":"S","impactful":"I","alignment":"A","patterns":"P","significance":"G"}"#,
    );
    assert_eq!(r, Ok("I A P S G".to_string()));
}

#[test]
fn report_from_json_skips_missing_and_empty() {
    let r = parse_summary_from_raw_json(r#"{"impactful":"","alignment":"A","patterns":3}"#);
    assert_eq!(r, Ok("A".to_string()));
    assert_eq!(parse_summary_from_raw_json("[1]"), Ok(String::new()));
}

#[test]
fn report_by_pattern_needs_all_five() {
    let text = r#"Here: "impactful": "I", "alignment":  "A", "patterns": "P", "synergy": "S", "significance": "G" trailing"#;
    assert_eq!(parse_summary_from_raw_json(text), Ok("I A P S G".to_string()));
    let missing = r#"Here: "impactful": "I", "alignment": "A", "patterns": "P", "synergy": "S""#;
    assert_eq!(parse_summary_from_raw_json(missing), Err(ParseError::MissingFields));
}

#[test]
fn two_commits_by_one_author_share_an_entry() {
    let mut ledger = Ledger::new();
    fold_commit_results(
        &mut ledger,
        vec![
            Some(rec("alice", "https://f/c/1", "Added the parser.")),
            Some(rec("alice", "https://f/c/2", "Fixed a crash.")),
        ],
    );
    assert_eq!(ledger.len(), 1);
    let (links, summaries) = ledger.get(&"alice".to_string()).unwrap();
    assert_eq!(links, "https://f/c/1\nhttps://f/c/2");
    assert_eq!(summaries, "Added the parser.\nFixed a crash.");
}

#[test]
fn one_failed_item_leaves_the_others() {
    let results = vec![
        Some(vec![rec("a", "u1", "s1")]),
        Some(vec![rec("b", "u2", "s2")]),
        None,
        Some(vec![rec("a", "u4", "s4")]),
        Some(vec![rec("c", "u5", "s5")]),
    ];
    let ledger = fold_issue_results(results).unwrap();
    assert_eq!(ledger.len(), 3);
    assert_eq!(ledger.get(&"a".to_string()), Some(("u1\nu4".to_string(), "s1\ns4".to_string())));
    assert_eq!(ledger.get(&"b".to_string()), Some(("u2".to_string(), "s2".to_string())));
    assert_eq!(ledger.get(&"c".to_string()), Some(("u5".to_string(), "s5".to_string())));
    assert!(ledger.get(&"u3".to_string()).is_none());
    assert_eq!(ledger.entry(0).name, "a");
    assert_eq!(ledger.entry(2).name, "c");
}

#[test]
fn no_items_or_all_failed_is_an_error() {
    let e = fold_issue_results(vec![]).err().unwrap();
    assert_eq!(e, AggregateError::NoEntries);
    assert_eq!(e.message(), "no entries processed");
    assert!(fold_issue_results(vec![None, None, None]).is_err());
    assert!(fold_issue_results(vec![Some(vec![]), None]).is_err());
}

#[test]
fn empty_names_are_not_identities() {
    let mut ledger = Ledger::new();
    ledger.record(String::new(), "u".to_string(), "s".to_string());
    assert!(ledger.is_empty());
}

#[test]
fn logs_stay_parallel_after_many_folds() {
    let mut ledger = Ledger::new();
    let names = ["a", "b", "a", "c", "a", "b"];
    for (i, n) in names.iter().enumerate() {
        ledger.record(n.to_string(), format!("link{}", i), format!("summary {}", i));
    }
    for i in 0..ledger.len() {
        let e = ledger.entry(i);
        assert_eq!(e.links.split('\n').count(), e.summaries.split('\n').count());
    }
    assert_eq!(ledger.get(&"a".to_string()).unwrap().0, "link0\nlink2\nlink4");
}

#[test]
fn multi_line_summaries_keep_the_logs_parallel() {
    let mut ledger = Ledger::new();
    fold_commit_results(
        &mut ledger,
        vec![Some(rec("alice", "u1", "line one\nline two")), Some(rec("alice", "u2\n", "s2"))],
    );
    let (links, summaries) = ledger.get(&"alice".to_string()).unwrap();
    assert_eq!(links, "u1\nu2 ");
    assert_eq!(summaries, "line one line two\ns2");
    assert_eq!(links.split('\n').count(), summaries.split('\n').count());
    let issues = fold_issue_results(vec![Some(vec![rec("bob", "u", "a\nb\nc")])]).unwrap();
    let (l, s) = issues.get(&"bob".to_string()).unwrap();
    assert_eq!(l.split('\n').count(), s.split('\n').count());
}
