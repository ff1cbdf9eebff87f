//! The prompts of each summarization: what is asked about an issue, a commit, a README, and
//! how the per-category summaries of one contributor are correlated into a report.
use vstd::prelude::*;
use crate::allocate::{active_weight, allocate, budget_of, lemma_present_weight_bound};
use crate::budget::{squeeze_fit_remove_quoted, squeezed};
use crate::chat::{single_turn, ChainOfChat, ChatRequest, Role};
use crate::forge::GitMemory;
use crate::ledger::{record_views, RecordView};
use crate::parse::{
    issue_summary_of, pair_views, parse_issue_summary_from_json, parse_summary_from_raw_json,
    report_of,
};
use crate::text::take_chars;

verus! {

/// One issue as fetched: who opened it, its title, its post, its labels, its API address,
/// its page and its number.
pub struct IssueRecord {
    pub author: String,
    pub title: String,
    pub body: Option<String>,
    pub labels: Vec<String>,
    pub url: String,
    pub html_url: String,
    pub number: u64,
}

/// One comment on an issue: its author and its text, if any.
pub struct CommentRecord {
    pub author: String,
    pub body: Option<String>,
}

/// The longest discussion text, in characters, put into an issue prompt.
pub const ISSUE_TEXT_CHARS: usize = 32000;

/// Texts joined by `", "`.
pub open spec fn comma_joined(ts: Seq<Seq<char>>) -> Seq<char>
    decreases ts.len(),
{
    if ts.len() == 0 {
        Seq::empty()
    } else if ts.len() == 1 {
        ts[0]
    } else {
        comma_joined(ts.drop_last()) + ", "@ + ts.last()
    }
}

pub open spec fn string_views(v: Seq<String>) -> Seq<Seq<char>> {
    v.map_values(|t: String| t@)
}

fn join_comma(ts: &Vec<String>) -> (r: String)
    ensures
        r@ == comma_joined(string_views(ts@)),
{
    let ghost all = string_views(ts@);
    let mut r = String::new();
    let mut k: usize = 0;
    while k < ts.len()
        invariant
            k <= ts.len(),
            all == string_views(ts@),
            r@ == comma_joined(all.take(k as int)),
        decreases ts.len() - k,
    {
        assert(all.take(k + 1).drop_last() =~= all.take(k as int));
        assert(all[k as int] == ts@[k as int]@);
        if k > 0 {
            r.append(", ");
        } else {
            assert(all.take(1) =~= seq![all[0]]);
        }
        r.append(ts[k].as_str());
        proof {
            if k == 0 {
                assert(r@ =~= all.take(1)[0]);
            } else {
                assert(r@ =~= comma_joined(all.take(k as int)) + ", "@ + all[k as int]);
            }
        }
        k = k + 1;
    }
    assert(all.take(ts.len() as int) =~= all);
    r
}

/// The text of the comments: for each, its author, `" commented: "` and its text squeezed
/// to 200 words.
pub open spec fn comments_text(cs: Seq<CommentRecord>) -> Seq<char>
    decreases cs.len(),
{
    if cs.len() == 0 {
        Seq::empty()
    } else {
        let c = cs.last();
        comments_text(cs.drop_last()) + c.author@ + " commented: "@ + match c.body {
            Some(b) => squeezed(b@, 200, 100),
            None => Seq::empty(),
        }
    }
}

/// The opening of an issue's discussion text: who opened it, its title, labels and post,
/// the post squeezed to 400 words with 70% from its beginning.
pub open spec fn issue_opening(issue: IssueRecord) -> Seq<char> {
    "User '"@ + issue.author@ + "', opened an issue titled '"@ + issue.title@ + "', labeled '"@
        + comma_joined(string_views(issue.labels@)) + "', with the following post: '"@
        + match issue.body {
        Some(b) => squeezed(b@, 400, 70),
        None => Seq::empty(),
    } + "'."@
}

/// An issue's discussion text, cut to `ISSUE_TEXT_CHARS` characters.
pub open spec fn issue_text(issue: IssueRecord, comments: Seq<CommentRecord>) -> Seq<char> {
    let t = issue_opening(issue) + comments_text(comments);
    if t.len() <= ISSUE_TEXT_CHARS {
        t
    } else {
        t.take(ISSUE_TEXT_CHARS as int)
    }
}

pub fn issue_discussion_text(issue: &IssueRecord, comments: &Vec<CommentRecord>) -> (r: String)
    ensures
        r@ == issue_text(*issue, comments@),
{
    let mut all = "User '".to_owned();
    all.append(issue.author.as_str());
    all.append("', opened an issue titled '");
    all.append(issue.title.as_str());
    all.append("', labeled '");
    all.append(join_comma(&issue.labels).as_str());
    all.append("', with the following post: '");
    match &issue.body {
        Some(b) => {
            all.append(squeeze_fit_remove_quoted(b.as_str(), 400, 70).as_str());
        },
        None => {},
    }
    all.append("'.");
    assert(all@ =~= issue_opening(*issue));
    let ghost opening = all@;
    let mut k: usize = 0;
    while k < comments.len()
        invariant
            k <= comments.len(),
            all@ == opening + comments_text(comments@.take(k as int)),
        decreases comments.len() - k,
    {
        assert(comments@.take(k + 1).drop_last() =~= comments@.take(k as int));
        let c = &comments[k];
        all.append(c.author.as_str());
        all.append(" commented: ");
        match &c.body {
            Some(b) => {
                all.append(squeeze_fit_remove_quoted(b.as_str(), 200, 100).as_str());
            },
            None => {},
        }
        assert(all@ =~= opening + comments_text(comments@.take(k + 1)));
        k = k + 1;
    }
    assert(comments@.take(comments@.len() as int) =~= comments@);
    take_chars(all.as_str(), ISSUE_TEXT_CHARS)
}

/// The authors of the comments who are known contributors, in comment order.
pub open spec fn known_commenters(cs: Seq<CommentRecord>, contributors: Seq<Seq<char>>) -> Seq<Seq<char>>
    decreases cs.len(),
{
    if cs.len() == 0 {
        Seq::empty()
    } else {
        let prev = known_commenters(cs.drop_last(), contributors);
        if contributors.contains(cs.last().author@) {
            prev.push(cs.last().author@)
        } else {
            prev
        }
    }
}

/// Whom the prompt asks about: the target person when one is given; else the known
/// contributors among the commenters; else the top contributors.
pub open spec fn watch_list_spec(
    target: Option<Seq<char>>,
    cs: Seq<CommentRecord>,
    contributors: Seq<Seq<char>>,
) -> Seq<char> {
    let known = known_commenters(cs, contributors);
    if target matches Some(t) && t.len() > 0 {
        target->0
    } else if known.len() > 0 {
        comma_joined(known)
    } else {
        "top contributors, no more than 3,"@
    }
}

fn contains_name(names: &Vec<String>, name: &String) -> (r: bool)
    ensures
        r == string_views(names@).contains(name@),
{
    let mut k: usize = 0;
    while k < names.len()
        invariant
            k <= names.len(),
            forall|j: int| 0 <= j < k ==> names@[j]@ != name@,
        decreases names.len() - k,
    {
        if names[k] == *name {
            assert(string_views(names@)[k as int] == name@);
            return true;
        }
        k = k + 1;
    }
    assert forall|j: int| 0 <= j < string_views(names@).len() implies string_views(names@)[j]
        != name@ by {
        assert(string_views(names@)[j] == names@[j]@);
    }
    false
}

pub fn watch_list(target: Option<&str>, comments: &Vec<CommentRecord>, contributors: &Vec<String>) -> (r: String)
    ensures
        r@ == watch_list_spec(
            match target {
                Some(t) => Some(t@),
                None => None,
            },
            comments@,
            string_views(contributors@),
        ),
{
    match target {
        Some(t) => {
            if !t.is_empty() {
                return t.to_owned();
            }
        },
        None => {},
    }
    let ghost cv = string_views(contributors@);
    let mut known: Vec<String> = Vec::new();
    let mut k: usize = 0;
    while k < comments.len()
        invariant
            k <= comments.len(),
            cv == string_views(contributors@),
            string_views(known@) == known_commenters(comments@.take(k as int), cv),
        decreases comments.len() - k,
    {
        assert(comments@.take(k + 1).drop_last() =~= comments@.take(k as int));
        let ghost before = known@;
        if contains_name(contributors, &comments[k].author) {
            known.push(comments[k].author.clone());
            assert(string_views(known@) =~= string_views(before).push(comments@[k as int].author@));
        }
        k = k + 1;
    }
    assert(comments@.take(comments@.len() as int) =~= comments@);
    if known.len() > 0 {
        join_comma(&known)
    } else {
        "top contributors, no more than 3,".to_owned()
    }
}

pub const ISSUE_SYSTEM_PROMPT: &'static str = "Analyze the GitHub issues data to identify key problem areas and notable contributions from participants. Focus on specific solutions mentioned, and trace evidence of contributions that led to a solution or consensus. The goal is to map out significant technical contributions and the developmental story behind the issue's resolution.";

pub const ISSUE_SUMMARY_TEMPLATE: &'static str = "', in the discussion's progress or resolution. If a person's contribution is minimal or not present, exclude them from the summary. Present the analysis in a flat JSON structure with a single level of depth, where each key corresponds directly to one multipart sentence that summarises the contributions. Follow this template, substituting 'contributor_name' with the actual name and 'summary' with your analysis of their input. Use real user names, don't use placeholder names like 'user_1' or 'contributor_name_1', skip the 'contrubutor: summary' pair if no user name can be attributed to the contribution.:
        {
        \"contributor_name_1\": \"summary\",
        \"contributor_name_2\": \"summary\",
        ...
        }
For example, if contributor_name_1 raised the issue and contributor_name_2 provided a solution, while contributor_name_3 had no significant contribution, the output should look like this:
{
    \"contributor_name_1\": \"Identified a bug affecting the deployment pipeline.\",
    \"contributor_name_2\": \"Offered a workaround using an alternative deployment strategy.\"
}
Adhere to this format for the summarized analysis.";

/// The first prompt about an issue: the discussion, and whom to assess.
pub open spec fn issue_prompt_1(issue: IssueRecord, text: Seq<char>, watch: Seq<char>) -> Seq<char> {
    "Review the GitHub issue created by '"@ + issue.author@ + "' with the title '"@
        + issue.title@ + "'. Examine the discussions thoroughly: "@ + text
        + ". Extract the essence of the problem, any proposed solutions, and assess the contributions of "@
        + watch + " in moving the discussion forward or resolving the issue."@
}

/// The second prompt about an issue: a per-contributor JSON summary.
pub open spec fn issue_prompt_2(watch: Seq<char>) -> Seq<char> {
    "Summarize the analysis by touching on the following points: the central problem presented in the issue, the primary solutions proposed or accepted, and the significance of key individual's role, specifically '"@
        + watch + ISSUE_SUMMARY_TEMPLATE@
}

/// The two-turn exchange about one issue: an analysis of its discussion, then a flat JSON
/// object from contributor name to a summary of their part, with room for 768 and 384
/// tokens.
pub fn issue_chain(
    issue: &IssueRecord,
    comments: &Vec<CommentRecord>,
    contributors: &Vec<String>,
    target: Option<&str>,
) -> (r: ChainOfChat)
    ensures
        ({
            let watch = watch_list_spec(
                match target {
                    Some(t) => Some(t@),
                    None => None,
                },
                comments@,
                string_views(contributors@),
            );
            &&& r.first.view() == (
                seq![
                    (Role::System, ISSUE_SYSTEM_PROMPT@),
                    (Role::User, issue_prompt_1(*issue, issue_text(*issue, comments@), watch)),
                ],
                768u16,
            )
            &&& r.second_prompt@ == issue_prompt_2(watch)
            &&& r.second_max_tokens == 384
            &&& r.error_tag@ == "2-step-issue"@
        }),
{
    let text = issue_discussion_text(issue, comments);
    let watch = watch_list(target, comments, contributors);
    let mut usr1 = "Review the GitHub issue created by '".to_owned();
    usr1.append(issue.author.as_str());
    usr1.append("' with the title '");
    usr1.append(issue.title.as_str());
    usr1.append("'. Examine the discussions thoroughly: ");
    usr1.append(text.as_str());
    usr1.append(
        ". Extract the essence of the problem, any proposed solutions, and assess the contributions of ",
    );
    usr1.append(watch.as_str());
    usr1.append(" in moving the discussion forward or resolving the issue.");
    let mut usr2 = "Summarize the analysis by touching on the following points: the central problem presented in the issue, the primary solutions proposed or accepted, and the significance of key individual's role, specifically '".to_owned();
    usr2.append(watch.as_str());
    usr2.append(ISSUE_SUMMARY_TEMPLATE);
    ChainOfChat::new(ISSUE_SYSTEM_PROMPT, usr1.as_str(), 768, usr2.as_str(), 384, "2-step-issue")
}

/// Each `(name, summary)` pair as the record `(name, source, summary)`.
pub open spec fn with_source(ps: Seq<(Seq<char>, Seq<char>)>, source: Seq<char>) -> Seq<RecordView>
    decreases ps.len(),
{
    if ps.len() == 0 {
        Seq::empty()
    } else {
        with_source(ps.drop_last(), source).push((ps.last().0, source, ps.last().1))
    }
}

/// The records that an issue's summary reply yields: one `(name, page, summary)` per
/// contributor in the decoded summary, in order; none when the reply cannot be decoded.
pub fn issue_records_from_reply(reply: &str, source_url: &str) -> (r: Vec<(String, String, String)>)
    ensures
        record_views(r@) == match issue_summary_of(reply@) {
            Ok(ps) => with_source(ps, source_url@),
            Err(_) => Seq::empty(),
        },
{
    let mut r: Vec<(String, String, String)> = Vec::new();
    match parse_issue_summary_from_json(reply) {
        Ok(pairs) => {
            let ghost ps = pair_views(pairs@);
            let mut k: usize = 0;
            while k < pairs.len()
                invariant
                    k <= pairs.len(),
                    ps == pair_views(pairs@),
                    record_views(r@) == with_source(ps.take(k as int), source_url@),
                decreases pairs.len() - k,
            {
                let ghost before = r@;
                r.push((pairs[k].0.clone(), source_url.to_owned(), pairs[k].1.clone()));
                assert(ps[k as int] == (pairs@[k as int].0@, pairs@[k as int].1@));
                assert(ps.take(k + 1).drop_last() =~= ps.take(k as int));
                assert(record_views(r@) =~= record_views(before).push(
                    (ps[k as int].0, source_url@, ps[k as int].1),
                ));
                k = k + 1;
            }
            assert(ps.take(pairs@.len() as int) =~= ps);
        },
        Err(_) => {
            assert(record_views(r@) =~= Seq::<RecordView>::empty());
        },
    }
    r
}

/// The first `n` characters of `t`, or all of it when it is shorter.
pub open spec fn cut(t: Seq<char>, n: nat) -> Seq<char> {
    if t.len() <= n {
        t
    } else {
        t.take(n as int)
    }
}

/// The longest patch text, in characters, put into a commit prompt.
pub const PATCH_CHARS: usize = 24000;

pub const COMMIT_SYSTEM_TAIL: &'static str = ", analyze its content. Focus on changes that substantively alter code or functionality. A good analysis prioritizes the commit message for clues on intent and refrains from overstating the impact of minor changes. Aim to provide a balanced, fact-based representation that distinguishes between major and minor contributions to the project. Keep your analysis concise.";

pub const COMMIT_USER_MIDDLE: &'static str = ". Summarize the main changes, but only emphasize modifications that directly affect core functionality. A good summary is fact-based, derived primarily from the commit message, and avoids over-interpretation. It recognizes the difference between minor textual changes and substantial code adjustments. Conclude by evaluating the realistic impact of ";

/// The request that summarizes one commit from its patch, with room for 128 tokens.
pub fn commit_request(commit: &GitMemory, patch: &str) -> (r: ChatRequest)
    ensures
        r.view() == (
            seq![
                (Role::System, "Given a commit patch from user "@ + commit.name@ + COMMIT_SYSTEM_TAIL@),
                (Role::User, "Analyze the commit patch: "@ + cut(patch@, PATCH_CHARS as nat)
                    + ", and its description: "@ + commit.tag_line@ + COMMIT_USER_MIDDLE@
                    + commit.name@
                    + "'s contributions in this commit on the project. Limit the response to 110 tokens."@),
            ],
            128u16,
        ),
{
    let mut sys = "Given a commit patch from user ".to_owned();
    sys.append(commit.name.as_str());
    sys.append(COMMIT_SYSTEM_TAIL);
    let mut usr = "Analyze the commit patch: ".to_owned();
    usr.append(take_chars(patch, PATCH_CHARS).as_str());
    usr.append(", and its description: ");
    usr.append(commit.tag_line.as_str());
    usr.append(COMMIT_USER_MIDDLE);
    usr.append(commit.name.as_str());
    usr.append("'s contributions in this commit on the project. Limit the response to 110 tokens.");
    single_turn(sys.as_str(), usr.as_str(), 128)
}

pub const README_SYSTEM_PROMPT: &'static str = "Your task is to objectively analyze a GitHub profile and the README of their project. Focus on extracting factual information about the features of the project, and its stated objectives. Avoid making judgments or inferring subjective value.";

/// The README text looked at when a repository is checked, in characters.
pub const README_CHARS: usize = 20000;

/// The start of a README that a repository check summarizes.
pub fn readme_excerpt(readme: &str) -> (r: String)
    ensures
        r@ == cut(readme@, README_CHARS as nat),
{
    take_chars(readme, README_CHARS)
}

/// The request that summarizes a README, with room for 256 tokens. A README of more than
/// 48000 bytes is first squeezed to 9000 words, 70% from its beginning.
pub fn readme_request(content: &str) -> (r: ChatRequest)
    ensures
        r.view() == (
            seq![
                (Role::System, README_SYSTEM_PROMPT@),
                (Role::User, "Based on the profile and README provided: "@ + (if content.len() > 48000 {
                    squeezed(content@, 9000, 70)
                } else {
                    content@
                })
                    + ", extract a concise summary detailing this project's factual significance in its domain, their areas of expertise, and the main features and goals of the project. Ensure the insights are objective and under 110 tokens."@),
            ],
            256u16,
        ),
{
    let body = if content.len() > 48000 {
        squeeze_fit_remove_quoted(content, 9000, 70)
    } else {
        content.to_owned()
    };
    let mut usr = "Based on the profile and README provided: ".to_owned();
    usr.append(body.as_str());
    usr.append(
        ", extract a concise summary detailing this project's factual significance in its domain, their areas of expertise, and the main features and goals of the project. Ensure the insights are objective and under 110 tokens.",
    );
    assert(usr@ =~= "Based on the profile and README provided: "@ + body@
        + ", extract a concise summary detailing this project's factual significance in its domain, their areas of expertise, and the main features and goals of the project. Ensure the insights are objective and under 110 tokens."@);
    single_turn(README_SYSTEM_PROMPT, usr.as_str(), 256)
}

/// What a repository check reports: `owner/repo`, and a payload that is the README's
/// summary when there is a non-empty one, else the repository's description.
pub fn repo_overview(owner: &str, repo: &str, description: &str, readme_summary: Option<String>) -> (r: (String, String))
    ensures
        r.0@ == owner@ + "/"@ + repo@,
        r.1@ == match readme_summary {
            Some(t) => if t@.len() > 0 {
                t@
            } else {
                description@
            },
            None => description@,
        },
{
    let mut name = owner.to_owned();
    name.append("/");
    name.append(repo);
    let payload = match readme_summary {
        Some(t) => if t.as_str().is_empty() {
            description.to_owned()
        } else {
            t
        },
        None => description.to_owned(),
    };
    (name, payload)
}

pub const CORRELATION_SYSTEM_PROMPT: &'static str = "You're a GitHub data analysis bot. You're tasked to analyze a GitHub contributor's activity data over the week to detect both key impactful contributions and connections between commits and issues. Highlight specific code changes, resolutions, and improvements.";

pub const REPORT_FORMAT: &'static str = "Summarize the information into a flat JSON structure with just one level of depth. Each key in the JSON should map directly to a single string value describing the contribution or observation in a full sentence or a short paragraph without using nested objects or arrays. If no information is available for a point, provide an empty string as the value.
Please ensure that the JSON output does not include any Markdown formatting, such as code block syntax (\"```\") or escaped characters (like \"\\n\" for new lines). The output should be plain JSON that can be parsed directly without any preprocessing.

Your JSON response should use the following keys with appropriate string values:
{
\"impactful\": \"Provide a single string value summarizing impactful contributions and their interconnections.\",
\"alignment\": \"Provide a single string value explaining how the contributions align with the project's goals.\",
\"patterns\": \"Provide a single string value identifying any recurring patterns or trends in the contributions.\",
\"synergy\": \"Provide a single string value discussing the synergy between individual and collective advancement.\",
\"significance\": \"Provide a single string value commenting on the significance of the contributions.\"
}
Ensure that the JSON is properly formatted, with correct escaping of special characters, and is ready to be parsed by a JSON parser that expects RFC8259-compliant JSON. Avoid adding any non-JSON content or formatting.";

/// The single request that correlates a contributor's commit and issue summaries into the
/// five report fields, with room for 500 tokens.
pub fn correlate_commits_issues_sparse(commits_summary: &str, issues_summary: &str, target_person: &str) -> (r: ChatRequest)
    ensures
        r.view() == (
            seq![
                (Role::System, CORRELATION_SYSTEM_PROMPT@),
                (Role::User, "From "@ + commits_summary@ + ", "@ + issues_summary@
                    + ". Analyze the key technical contributions made by "@ + target_person@
                    + " this week. "@ + REPORT_FORMAT@),
            ],
            500u16,
        ),
{
    let mut usr = "From ".to_owned();
    usr.append(commits_summary);
    usr.append(", ");
    usr.append(issues_summary);
    usr.append(". Analyze the key technical contributions made by ");
    usr.append(target_person);
    usr.append(" this week. ");
    usr.append(REPORT_FORMAT);
    single_turn(CORRELATION_SYSTEM_PROMPT, usr.as_str(), 500)
}

pub const HOME_SYSTEM_PROMPT: &'static str = "First, let's analyze and understand the provided Github data in a step-by-step manner. Begin by evaluating the user's activity based on their most active repositories, languages used, issues they're involved in, and discussions they've participated in. Concurrently, grasp the characteristics and requirements of the home project. Your aim is to identify overlaps or connections between the user's skills or activities and the home project's needs.";

pub const HOME_SECOND_PROMPT: &'static str = "Now, using the insights from your step-by-step analysis, craft a concise bullet-point summary that underscores: - The user's main areas of expertise and interest. - The relevance of their preferred languages or technologies to the home project. - Their potential contributions to the home project, based on their skills and interactions. Ensure the summary is clear, insightful, and remains under 256 tokens. Emphasize any evident alignments between the user's skills and the project's needs.";

/// The first prompt relating a user to a home project, each input cut to its share:
/// 4000 characters of profile, 6000 of repositories, 9000 of issues, 4000 of discussions
/// and 6000 of the home project.
pub open spec fn home_prompt(home: Seq<char>, profile: Seq<char>, issues: Seq<char>, repos: Seq<char>, discussion: Seq<char>) -> Seq<char> {
    "Using a structured approach, analyze the given data: User Profile: "@ + cut(profile, 4000)
        + " Active Repositories: "@ + cut(repos, 6000) + " Issues Involved: "@ + cut(issues, 9000)
        + " Discussions Participated: "@ + cut(discussion, 4000) + " Home project's characteristics: "@
        + cut(home, 6000)
        + " Identify patterns in the user's activity and spot potential synergies with the home project. Pay special attention to the programming languages they use, especially if they align with the home project's requirements. Derive insights from their interactions and the data provided."@
}

/// The two-turn exchange that relates a user to a home project: an analysis, then a short
/// bullet-point summary, with room for 512 and 256 tokens.
pub fn correlate_user_and_home_project(
    home_repo_data: &str,
    user_profile: &str,
    issues_data: &str,
    repos_data: &str,
    discussion_data: &str,
) -> (r: ChainOfChat)
    ensures
        r.first.view() == (
            seq![
                (Role::System, HOME_SYSTEM_PROMPT@),
                (Role::User, home_prompt(home_repo_data@, user_profile@, issues_data@, repos_data@, discussion_data@)),
            ],
            512u16,
        ),
        r.second_prompt@ == HOME_SECOND_PROMPT@,
        r.second_max_tokens == 256,
        r.error_tag@ == "correlate-user-home-summary"@,
{
    let mut usr = "Using a structured approach, analyze the given data: User Profile: ".to_owned();
    usr.append(take_chars(user_profile, 4000).as_str());
    usr.append(" Active Repositories: ");
    usr.append(take_chars(repos_data, 6000).as_str());
    usr.append(" Issues Involved: ");
    usr.append(take_chars(issues_data, 9000).as_str());
    usr.append(" Discussions Participated: ");
    usr.append(take_chars(discussion_data, 4000).as_str());
    usr.append(" Home project's characteristics: ");
    usr.append(take_chars(home_repo_data, 6000).as_str());
    usr.append(
        " Identify patterns in the user's activity and spot potential synergies with the home project. Pay special attention to the programming languages they use, especially if they align with the home project's requirements. Derive insights from their interactions and the data provided.",
    );
    ChainOfChat::new(
        HOME_SYSTEM_PROMPT,
        usr.as_str(),
        512,
        HOME_SECOND_PROMPT,
        256,
        "correlate-user-home-summary",
    )
}

/// The capacity, in tokens, that the correlation stage divides among its inputs.
pub const CORRELATION_CAPACITY_TOKENS: u32 = 6000;

/// Characters allowed per token when a token budget is turned into a length of text.
pub const CHARS_PER_TOKEN: u64 = 3;

/// The inputs of the correlation stage as allocator sources: profile, commits, issues and
/// discussions, weighted 1, 4, 4 and 2, each present when given.
pub open spec fn correlation_sources(
    profile: Option<Seq<char>>,
    commits: Option<Seq<char>>,
    issues: Option<Seq<char>>,
    discussion: Option<Seq<char>>,
) -> Seq<(u32, bool)> {
    seq![(1u32, profile is Some), (4u32, commits is Some), (4u32, issues is Some), (2u32, discussion is Some)]
}

/// One labelled input of the correlation prompt, cut to `CHARS_PER_TOKEN` characters per
/// token of its budget; nothing for an absent input.
pub open spec fn section(label: Seq<char>, text: Option<Seq<char>>, budget: Option<nat>) -> Seq<char> {
    match (text, budget) {
        (Some(t), Some(b)) => " "@ + label + ": "@ + cut(t, (CHARS_PER_TOKEN * b) as nat),
        _ => Seq::empty(),
    }
}

/// The output caps of the two turns by the number of items looked at: fewer than 10,
/// fewer than 50, or more.
pub open spec fn correlation_caps(item_count: nat) -> (u16, u16) {
    if item_count < 10 {
        (384, 192)
    } else if item_count < 50 {
        (512, 256)
    } else {
        (768, 384)
    }
}

/// The first correlation prompt: the target, then each present input in its share.
pub open spec fn correlation_prompt(
    target: Seq<char>,
    profile: Option<Seq<char>>,
    commits: Option<Seq<char>>,
    issues: Option<Seq<char>>,
    discussion: Option<Seq<char>>,
) -> Seq<char> {
    let srcs = correlation_sources(profile, commits, issues, discussion);
    let total = CORRELATION_CAPACITY_TOKENS as nat;
    "Analyze the activity of "@ + target + " this week."@
        + section("Profile"@, profile, budget_of(total, srcs, 0))
        + section("Commits"@, commits, budget_of(total, srcs, 1))
        + section("Issues"@, issues, budget_of(total, srcs, 2))
        + section("Discussions"@, discussion, budget_of(total, srcs, 3))
        + " Trace the connections between the commits, the issues and the discussions, such as a commit that resolves a specific issue, and identify the key technical contributions of "@
        + target + "."@
}

pub open spec fn opt_str(o: Option<&str>) -> Option<Seq<char>> {
    match o {
        Some(t) => Some(t@),
        None => None,
    }
}

fn push_section(out: &mut String, label: &str, text: Option<&str>, budget: Option<u64>)
    requires
        budget matches Some(b) ==> b <= CORRELATION_CAPACITY_TOKENS,
    ensures
        final(out)@ == old(out)@ + section(
            label@,
            opt_str(text),
            match budget {
                Some(b) => Some(b as nat),
                None => None,
            },
        ),
{
    match (text, budget) {
        (Some(t), Some(b)) => {
            out.append(" ");
            out.append(label);
            out.append(": ");
            out.append(take_chars(t, (CHARS_PER_TOKEN * b) as usize).as_str());
        },
        _ => {
            assert(out@ =~= old(out)@ + Seq::<char>::empty());
        },
    }
}

/// The two-turn exchange that correlates a target's summaries into a report. The present
/// inputs share `CORRELATION_CAPACITY_TOKENS` by weight (profile 1, commits 4, issues 4,
/// discussions 2) and each is cut to three characters per token of its share; the first
/// turn asks for the cross-references between them, the second for the five report fields
/// as JSON. The caps of the two turns grow with `item_count`.
pub fn correlation_chain(
    target: &str,
    profile: Option<&str>,
    commits: Option<&str>,
    issues: Option<&str>,
    discussion: Option<&str>,
    item_count: usize,
) -> (r: ChainOfChat)
    ensures
        r.first.view() == (
            seq![
                (Role::System, CORRELATION_SYSTEM_PROMPT@),
                (Role::User, correlation_prompt(target@, opt_str(profile), opt_str(commits), opt_str(issues), opt_str(discussion))),
            ],
            correlation_caps(item_count as nat).0,
        ),
        r.second_prompt@ == REPORT_FORMAT@,
        r.second_max_tokens == correlation_caps(item_count as nat).1,
        r.error_tag@ == "correlate-report"@,
{
    let mut sources: Vec<(u32, bool)> = Vec::new();
    sources.push((1, profile.is_some()));
    sources.push((4, commits.is_some()));
    sources.push((4, issues.is_some()));
    sources.push((2, discussion.is_some()));
    let ghost srcs = correlation_sources(opt_str(profile), opt_str(commits), opt_str(issues), opt_str(discussion));
    assert(sources@ =~= srcs);
    let plan = allocate(CORRELATION_CAPACITY_TOKENS, &sources);
    let ghost total = CORRELATION_CAPACITY_TOKENS as nat;
    proof {
        assert forall|i: int| 0 <= i < 4 implies (#[trigger] budget_of(total, srcs, i)) matches Some(b) ==> b <= total by {
            if budget_of(total, srcs, i) is Some {
                lemma_share_bound(total, srcs, i);
            }
        }
    }
    let mut usr = "Analyze the activity of ".to_owned();
    usr.append(target);
    usr.append(" this week.");
    proof {
        assert(budget_of(total, srcs, 0) matches Some(b) ==> plan@[0] == Some(b as u64));
        assert(budget_of(total, srcs, 1) matches Some(b) ==> plan@[1] == Some(b as u64));
        assert(budget_of(total, srcs, 2) matches Some(b) ==> plan@[2] == Some(b as u64));
        assert(budget_of(total, srcs, 3) matches Some(b) ==> plan@[3] == Some(b as u64));
    }
    push_section(&mut usr, "Profile", profile, plan[0]);
    push_section(&mut usr, "Commits", commits, plan[1]);
    push_section(&mut usr, "Issues", issues, plan[2]);
    push_section(&mut usr, "Discussions", discussion, plan[3]);
    usr.append(
        " Trace the connections between the commits, the issues and the discussions, such as a commit that resolves a specific issue, and identify the key technical contributions of ",
    );
    usr.append(target);
    usr.append(".");
    let (gen1, gen2): (u16, u16) = if item_count < 10 {
        (384, 192)
    } else if item_count < 50 {
        (512, 256)
    } else {
        (768, 384)
    };
    ChainOfChat::new(CORRELATION_SYSTEM_PROMPT, usr.as_str(), gen1, REPORT_FORMAT, gen2, "correlate-report")
}

/// A present source's budget is at most the whole capacity.
proof fn lemma_share_bound(total: nat, srcs: Seq<(u32, bool)>, i: int)
    requires
        0 <= i < srcs.len(),
        budget_of(total, srcs, i) is Some,
    ensures
        budget_of(total, srcs, i)->0 <= total,
{
    let w = active_weight(srcs);
    let wi = srcs[i].0 as nat;
    lemma_present_weight_bound(srcs, i);
    assert(total * wi <= total * w) by (nonlinear_arith)
        requires
            wi <= w,
    ;
    assert(total * wi / w <= total) by (nonlinear_arith)
        requires
            total * wi <= total * w,
            w > 0,
    ;
}

/// The final report from the reply to the correlation chain: its five fields joined, or
/// nothing when the reply cannot be decoded.
pub fn correlation_report(reply: &str) -> (r: Option<String>)
    ensures
        match report_of(reply@) {
            Ok(t) => r matches Some(u) && u@ == t,
            Err(_) => r is None,
        },
{
    match parse_summary_from_raw_json(reply) {
        Ok(t) => Some(t),
        Err(_) => None,
    }
}

} // verus!
