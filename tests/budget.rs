use repo_digest::allocate::allocate;
use repo_digest::budget::{squeeze_fit_post_texts, squeeze_fit_remove_quoted, token_budget_plan};

#[test]
fn short_clean_text_comes_back_unchanged() {
    let text = "alpha beta gamma\ndelta\n";
    assert_eq!(squeeze_fit_remove_quoted(text, 10, 70), text);
}

#[test]
fn within_budget_text_is_untouched() {
    assert_eq!(squeeze_fit_remove_quoted("a", 1, 70), "a");
    let text = "  a   b \n\tc\n```\ncode\n```";
    assert_eq!(squeeze_fit_remove_quoted(text, 6, 70), text);
}

#[test]
fn cleaning_joins_words_and_ends_lines() {
    let text = "```\nx y z w\n```\n  a   b \n\tc";
    assert_eq!(squeeze_fit_remove_quoted(text, 3, 70), "a b\nc\n");
}

#[test]
fn over_budget_keeps_head_and_tail() {
    let text = "a b c d e f g h i j\n";
    assert_eq!(squeeze_fit_remove_quoted(text, 4, 50), "a b i j");
    assert_eq!(squeeze_fit_remove_quoted(text, 4, 70), "a b c j");
    assert_eq!(squeeze_fit_remove_quoted(text, 4, 0), "g h i j");
    assert_eq!(squeeze_fit_remove_quoted(text, 4, 100), "a b c d");
}

#[test]
fn split_above_hundred_counts_as_hundred() {
    let text = "a b c d e f\n";
    assert_eq!(squeeze_fit_remove_quoted(text, 3, 250), "a b c");
}

#[test]
fn quoted_blocks_are_removed() {
    let text = "before\n```rust\nlet x = 1;\n```\nafter\n\"\"\"\nquoted\n\"\"\"\nend";
    assert_eq!(squeeze_fit_remove_quoted(text, 3, 70), "before\nafter\nend\n");
}

#[test]
fn words_over_the_limit_are_dropped() {
    let long = "x".repeat(151);
    let edge = "y".repeat(150);
    let text = format!("keep {} {} this\n", long, edge);
    assert_eq!(squeeze_fit_remove_quoted(&text, 3, 70), format!("keep {} this\n", edge));
}

#[test]
fn empty_input_is_empty() {
    assert_eq!(squeeze_fit_remove_quoted("", 10, 70), "");
    assert_eq!(squeeze_fit_remove_quoted("", 0, 70), "");
}

#[test]
fn squeezing_twice_equals_squeezing_once() {
    let text = "  one ```two```\n\nthree   four\n```\nhidden\n```\nfive";
    let once = squeeze_fit_remove_quoted(text, 5, 70);
    assert_eq!(once, "hidden\n");
    assert_eq!(squeeze_fit_remove_quoted(&once, 5, 70), once);
    let words: Vec<String> = (0..30).map(|i| format!("w{}", i)).collect();
    let long = words.join("\n");
    let cut = squeeze_fit_remove_quoted(&long, 8, 50);
    assert_eq!(squeeze_fit_remove_quoted(&cut, 8, 50), cut);
}

#[test]
fn over_budget_word_count_is_the_budget() {
    let words: Vec<String> = (0..50).map(|i| format!("w{}", i)).collect();
    let text = words.join(" ");
    let out = squeeze_fit_remove_quoted(&text, 10, 70);
    let kept: Vec<&str> = out.split_whitespace().collect();
    assert_eq!(kept.len(), 10);
    assert_eq!(kept[..7], ["w0", "w1", "w2", "w3", "w4", "w5", "w6"]);
    assert_eq!(kept[7..], ["w47", "w48", "w49"]);
}

#[test]
fn token_plan_keeps_within_budget() {
    let tokens: Vec<u32> = vec![1, 2, 3];
    assert_eq!(token_budget_plan(&tokens, 3, 70), None);
    let tokens: Vec<u32> = (0..10).collect();
    assert_eq!(token_budget_plan(&tokens, 4, 70), Some(vec![0, 1, 2, 9]));
    assert_eq!(token_budget_plan(&tokens, 4, 0), Some(vec![6, 7, 8, 9]));
}

#[test]
fn token_squeeze_leaves_short_text() {
    assert_eq!(squeeze_fit_post_texts("hello world", 100, 70), "hello world");
}

#[test]
fn token_squeeze_keeps_text_of_exactly_the_budget() {
    let text = "one two three four";
    assert_eq!(squeeze_fit_post_texts(text, 4, 50), text);
}

#[test]
fn token_squeeze_cuts_long_text() {
    let text = "one two three four five six seven eight nine ten eleven twelve";
    let out = squeeze_fit_post_texts(text, 4, 50);
    assert_ne!(out, text);
    assert!(out.starts_with("one two"));
    assert!(out.ends_with("twelve"));
}

#[test]
fn allocation_follows_weights() {
    let plan = allocate(1100, &vec![(1, true), (4, true), (4, false), (2, true)]);
    assert_eq!(plan, vec![Some(157), Some(628), None, Some(314)]);
    let total: u64 = plan.iter().flatten().sum();
    assert!(total <= 1100);
}

#[test]
fn allocation_without_sources_is_empty() {
    assert_eq!(allocate(1000, &vec![(1, false), (4, false)]), vec![None, None]);
    assert_eq!(allocate(1000, &vec![]), Vec::<Option<u64>>::new());
    assert_eq!(allocate(1000, &vec![(0, true)]), vec![None]);
}

#[test]
fn allocation_ratios_hold_within_rounding() {
    let plan = allocate(997, &vec![(3, true), (5, true), (7, true)]);
    let b: Vec<u64> = plan.iter().map(|x| x.unwrap()).collect();
    assert_eq!(b, vec![199, 332, 465]);
    let w = [3u64, 5, 7];
    for i in 0..3 {
        for j in 0..3 {
            assert!(b[i] * w[j] <= b[j] * w[i] + w[i].max(w[j]));
        }
    }
}
