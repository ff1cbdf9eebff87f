//! The source-forge side: the items fetched from it, the paths of the requests made to it,
//! paging through its results, and decoding what it returns.
use vstd::prelude::*;
use vstd::utf8::{decode_utf8, valid_utf8};
use crate::text::{decimal, decimal_of};

verus! {

/// What kind of activity a memory records.
#[derive(Debug, Clone, Copy, PartialEq, Eq, Structural)]
pub enum MemoryType {
    Commit,
    Issue,
    Discussion,
    Meta,
}

/// One unit of fetched activity: who, a one-line description, where it lives, and any text
/// gathered for it.
#[derive(Debug, Clone)]
pub struct GitMemory {
    pub memory_type: MemoryType,
    pub name: String,
    pub tag_line: String,
    pub source_url: String,
    pub payload: String,
}

/// One commit from a commit search: its author's login when the forge knows the author, its
/// message and its page.
pub struct CommitRecord {
    pub author: Option<String>,
    pub message: String,
    pub html_url: String,
}

/// The memories of the commits with a known author, in order: the author's login as name,
/// the message as tag line, the page as source, no payload.
pub fn commits_to_memories(items: &Vec<CommitRecord>) -> (r: Vec<GitMemory>)
    ensures
        r@.len() <= items@.len(),
        forall|i: int|
            0 <= i < r@.len() ==> (#[trigger] r@[i]).memory_type == MemoryType::Commit
                && r@[i].payload@.len() == 0,
        r@.map_values(|m: GitMemory| (m.name@, m.tag_line@, m.source_url@)) == authored(items@),
{
    let mut r: Vec<GitMemory> = Vec::new();
    let mut k: usize = 0;
    while k < items.len()
        invariant
            k <= items.len(),
            r@.len() <= k,
            forall|i: int|
                0 <= i < r@.len() ==> (#[trigger] r@[i]).memory_type == MemoryType::Commit
                    && r@[i].payload@.len() == 0,
            r@.map_values(|m: GitMemory| (m.name@, m.tag_line@, m.source_url@)) == authored(
                items@.take(k as int),
            ),
        decreases items.len() - k,
    {
        assert(items@.take(k + 1).drop_last() =~= items@.take(k as int));
        let c = &items[k];
        let ghost before = r@;
        match &c.author {
            Some(login) => {
                r.push(
                    GitMemory {
                        memory_type: MemoryType::Commit,
                        name: login.clone(),
                        tag_line: c.message.clone(),
                        source_url: c.html_url.clone(),
                        payload: String::new(),
                    },
                );
                assert(r@.map_values(|m: GitMemory| (m.name@, m.tag_line@, m.source_url@))
                    =~= before.map_values(|m: GitMemory| (m.name@, m.tag_line@, m.source_url@)).push(
                    (login@, c.message@, c.html_url@),
                ));
            },
            None => {},
        }
        k = k + 1;
    }
    assert(items@.take(items@.len() as int) =~= items@);
    r
}

/// `(author, message, page)` of each commit with a known author, in order.
pub open spec fn authored(items: Seq<CommitRecord>) -> Seq<(Seq<char>, Seq<char>, Seq<char>)>
    decreases items.len(),
{
    if items.len() == 0 {
        Seq::empty()
    } else {
        let prev = authored(items.drop_last());
        let c = items.last();
        match c.author {
            Some(a) => prev.push((a@, c.message@, c.html_url@)),
            None => prev,
        }
    }
}

/// The names of the memories, each once, in order of first appearance.
pub open spec fn distinct_names(ms: Seq<GitMemory>) -> Seq<Seq<char>>
    decreases ms.len(),
{
    if ms.len() == 0 {
        Seq::empty()
    } else {
        let prev = distinct_names(ms.drop_last());
        if prev.contains(ms.last().name@) {
            prev
        } else {
            prev.push(ms.last().name@)
        }
    }
}

/// The logins of the commits' authors, each once, in order of first appearance.
pub fn recent_committers(memories: &Vec<GitMemory>) -> (r: Vec<String>)
    ensures
        r@.map_values(|t: String| t@) == distinct_names(memories@),
{
    let mut r: Vec<String> = Vec::new();
    let mut k: usize = 0;
    while k < memories.len()
        invariant
            k <= memories.len(),
            r@.map_values(|t: String| t@) == distinct_names(memories@.take(k as int)),
        decreases memories.len() - k,
    {
        assert(memories@.take(k + 1).drop_last() =~= memories@.take(k as int));
        let ghost names = r@.map_values(|t: String| t@);
        let name = &memories[k].name;
        let mut found = false;
        let mut j: usize = 0;
        while j < r.len()
            invariant
                j <= r.len(),
                names == r@.map_values(|t: String| t@),
                found == exists|t: int| 0 <= t < j && names[t] == name@,
            decreases r.len() - j,
        {
            if r[j] == *name {
                found = true;
                assert(names[j as int] == name@);
            }
            j = j + 1;
        }
        assert(found == names.contains(name@));
        if !found {
            r.push(name.clone());
            assert(r@.map_values(|t: String| t@) =~= names.push(name@));
        }
        k = k + 1;
    }
    assert(memories@.take(memories@.len() as int) =~= memories@);
    r
}

/// What a page fetch gave: `Some(n)` items, or `None` for a failed fetch.
/// Decides whether to fetch another page after `page` (numbered from 1), where `last_page`
/// is the last one to fetch and a full page holds `per_page` items. A short page ends the
/// paging; a failed fetch ends it when `stop_on_error`, else is skipped.
pub fn next_page(page: u32, last_page: u32, fetched: Option<usize>, per_page: usize, stop_on_error: bool) -> (r: Option<u32>)
    ensures
        r == if (fetched is None && stop_on_error) || (fetched matches Some(n) && n < per_page)
            || page >= last_page {
            None::<u32>
        } else {
            Some((page + 1) as u32)
        },
{
    let go_on = match fetched {
        None => !stop_on_error,
        Some(n) => n >= per_page,
    };
    if go_on && page < last_page {
        Some(page + 1)
    } else {
        None
    }
}

/// Relies on `base64`'s standard engine (`Engine::decode` on `general_purpose::STANDARD`):
/// the bytes that a base64 text stands for, or `None` when it is not valid base64.
pub uninterp spec fn base64_bytes(s: Seq<char>) -> Option<Seq<u8>>;

/// Relies on `base64::engine::general_purpose::STANDARD.decode`: decodes standard base64.
#[verifier::external_body]
fn base64_decode(s: &str) -> (r: Option<Vec<u8>>)
    ensures
        match r {
            Some(b) => base64_bytes(s@) == Some(b@),
            None => base64_bytes(s@) is None,
        },
{
    base64::Engine::decode(&base64::engine::general_purpose::STANDARD, s).ok()
}

/// Relies on `String::from_utf8`: succeeds exactly on valid UTF-8, with the text it encodes.
#[verifier::external_body]
fn utf8_string(b: Vec<u8>) -> (r: Option<String>)
    ensures
        r is Some <==> valid_utf8(b@),
        r matches Some(t) ==> t@ == decode_utf8(b@),
{
    String::from_utf8(b).ok()
}

/// `s` without its newline characters.
pub open spec fn without_newlines(s: Seq<char>) -> Seq<char>
    decreases s.len(),
{
    if s.len() == 0 {
        s
    } else if s.last() == '\n' {
        without_newlines(s.drop_last())
    } else {
        without_newlines(s.drop_last()).push(s.last())
    }
}

/// The README text carried in a forge response: the content with its line breaks removed,
/// decoded from base64, read as UTF-8 and labelled. `None` when it is not valid base64 or
/// the bytes are not UTF-8.
pub open spec fn readme_text(content: Seq<char>) -> Option<Seq<char>> {
    match base64_bytes(without_newlines(content)) {
        Some(b) => if valid_utf8(b) {
            Some("Readme: "@ + decode_utf8(b))
        } else {
            None
        },
        None => None,
    }
}

/// Decodes a README as the forge sends it (base64 with line breaks) into labelled text.
pub fn decode_readme(content: &str) -> (r: Option<String>)
    ensures
        match readme_text(content@) {
            Some(t) => r matches Some(u) && u@ == t,
            None => r is None,
        },
{
    let mut cleaned = String::new();
    for c in it: content.chars()
        invariant
            it.seq() == content@,
            cleaned@ == without_newlines(it.seq().take(it.index() as int)),
    {
        assert(it.seq().take(it.index() + 1).drop_last() =~= it.seq().take(it.index() as int));
        if c != '\n' {
            cleaned.push(c);
        }
    }
    assert(content@.take(content@.len() as int) =~= content@);
    match base64_decode(cleaned.as_str()) {
        Some(bytes) => match utf8_string(bytes) {
            Some(text) => {
                let mut out = "Readme: ".to_owned();
                out.append(text.as_str());
                Some(out)
            },
            None => None,
        },
        None => None,
    }
}


/// The UTF-8 encoding of a character.
pub open spec fn utf8_of(c: char) -> Seq<u8> {
    let v = c as u32 as nat;
    if v < 0x80 {
        seq![v as u8]
    } else if v < 0x800 {
        seq![(0xC0 + v / 64) as u8, (0x80 + v % 64) as u8]
    } else if v < 0x10000 {
        seq![(0xE0 + v / 4096) as u8, (0x80 + (v / 64) % 64) as u8, (0x80 + v % 64) as u8]
    } else {
        seq![
            (0xF0 + v / 262144) as u8,
            (0x80 + (v / 4096) % 64) as u8,
            (0x80 + (v / 64) % 64) as u8,
            (0x80 + v % 64) as u8,
        ]
    }
}

/// An uppercase hexadecimal digit.
pub open spec fn hex_digit(d: nat) -> char {
    if d < 10 {
        ('0' as u32 + d) as char
    } else {
        ('A' as u32 + d - 10) as char
    }
}

/// Each byte written as `%` and two uppercase hexadecimal digits.
pub open spec fn escaped_bytes(bs: Seq<u8>) -> Seq<char>
    decreases bs.len(),
{
    if bs.len() == 0 {
        Seq::empty()
    } else {
        escaped_bytes(bs.drop_last()) + seq![
            '%',
            hex_digit(bs.last() as nat / 16),
            hex_digit(bs.last() as nat % 16),
        ]
    }
}

/// ASCII letters and digits and `-`, `.`, `_`, `~`: the characters that URL encoding keeps.
pub open spec fn is_unreserved(c: char) -> bool {
    ('0' <= c <= '9') || ('A' <= c <= 'Z') || ('a' <= c <= 'z') || c == '-' || c == '.' || c
        == '_' || c == '~'
}

/// `s` URL-encoded: unreserved characters kept, every byte of the UTF-8 encoding of any
/// other character escaped.
pub open spec fn url_encoded(s: Seq<char>) -> Seq<char>
    decreases s.len(),
{
    if s.len() == 0 {
        Seq::empty()
    } else {
        url_encoded(s.drop_last()) + if is_unreserved(s.last()) {
            seq![s.last()]
        } else {
            escaped_bytes(utf8_of(s.last()))
        }
    }
}

/// Relies on `urlencoding::encode`: percent-encodes every byte of the UTF-8 text except
/// ASCII letters, digits and `-`, `.`, `_`, `~`, with uppercase hexadecimal digits.
#[verifier::external_body]
fn url_encode(s: &str) -> (r: String)
    ensures
        r@ == url_encoded(s@),
{
    urlencoding::encode(s).into_owned()
}

/// The UTC instant `secs` seconds after the Unix epoch, written `YYYY-MM-DDTHH:MM:SSZ`;
/// `None` when it is out of chrono's range.
pub uninterp spec fn utc_instant_text(secs: int) -> Option<Seq<char>>;

/// The UTC calendar day of the instant `secs` seconds after the Unix epoch, written
/// `YYYY-MM-DD`; `None` when it is out of chrono's range.
pub uninterp spec fn utc_date_text(secs: int) -> Option<Seq<char>>;

/// Relies on `chrono::Utc::now` and `DateTime::timestamp`: the current time in whole seconds
/// since the Unix epoch.
#[verifier::external_body]
fn utc_now_seconds() -> (r: i64) {
    chrono::Utc::now().timestamp()
}

/// Relies on `chrono::DateTime::from_timestamp` (`None` out of range) and on formatting it
/// with `%Y-%m-%dT%H:%M:%SZ`.
#[verifier::external_body]
fn format_utc_instant(secs: i64) -> (r: Option<String>)
    ensures
        match r {
            Some(t) => utc_instant_text(secs as int) == Some(t@),
            None => utc_instant_text(secs as int) is None,
        },
{
    chrono::DateTime::from_timestamp(secs, 0).map(|t| t.format("%Y-%m-%dT%H:%M:%SZ").to_string())
}

/// Relies on `chrono::DateTime::from_timestamp` (`None` out of range) and on writing its
/// `date_naive()` with `Display`.
#[verifier::external_body]
fn format_utc_date(secs: i64) -> (r: Option<String>)
    ensures
        match r {
            Some(t) => utc_date_text(secs as int) == Some(t@),
            None => utc_date_text(secs as int) is None,
        },
{
    chrono::DateTime::from_timestamp(secs, 0).map(|t| t.date_naive().to_string())
}

pub const SECONDS_PER_DAY: i64 = 86400;

/// The instant `days` days before `now_secs`, in seconds since the Unix epoch; the earliest
/// representable second when that is earlier still.
pub open spec fn days_before_spec(now_secs: int, days: int) -> int {
    if now_secs - days * 86400 < i64::MIN {
        i64::MIN as int
    } else {
        now_secs - days * 86400
    }
}

pub fn days_before(now_secs: i64, days: u16) -> (r: i64)
    ensures
        r == days_before_spec(now_secs as int, days as int),
{
    let span = (days as i64) * SECONDS_PER_DAY;
    if now_secs < i64::MIN + span {
        i64::MIN
    } else {
        now_secs - span
    }
}

/// The start of a search window of `days` days that ends now: `days_before` of the clock's
/// reading, whatever it was.
pub fn search_cutoff_seconds(days: u16) -> (r: i64)
    ensures
        exists|now: int| r == days_before_spec(now, days as int),
{
    let now = utc_now_seconds();
    let r = days_before(now, days);
    assert(r == days_before_spec(now as int, days as int));
    r
}

/// `"&token=" + t` for a token, nothing without one.
pub open spec fn token_param(token: Option<Seq<char>>) -> Seq<char> {
    match token {
        Some(t) => "&token="@ + t,
        None => Seq::empty(),
    }
}

pub open spec fn opt_view(o: Option<&str>) -> Option<Seq<char>> {
    match o {
        Some(t) => Some(t@),
        None => None,
    }
}

fn token_suffix(lead: &str, token: Option<&str>) -> (r: String)
    ensures
        r@ == match token {
            Some(t) => lead@ + t@,
            None => Seq::empty(),
        },
{
    match token {
        Some(t) => {
            let mut s = lead.to_owned();
            s.append(t);
            s
        },
        None => String::new(),
    }
}

/// The path of a search for the issues of `owner/repo` updated after the instant
/// `cutoff_secs`, optionally involving `user`, for page `page`. `None` when the instant is
/// out of range.
pub open spec fn issue_search_spec(
    owner: Seq<char>,
    repo: Seq<char>,
    user: Option<Seq<char>>,
    cutoff_secs: int,
    page: nat,
    token: Option<Seq<char>>,
) -> Option<Seq<char>> {
    match utc_instant_text(cutoff_secs) {
        Some(instant) => {
            let user_part = match user {
                Some(u) => "involves:"@ + u,
                None => Seq::empty(),
            };
            let query = "repo:"@ + owner + "/"@ + repo + " is:issue "@ + user_part + " updated:>"@
                + instant;
            Some("search/issues?q="@ + url_encoded(query)
                + "&sort=updated&order=desc&per_page=100&page="@ + decimal_of(page)
                + token_param(token))
        },
        None => None,
    }
}

pub fn issue_search_path(
    owner: &str,
    repo: &str,
    user: Option<&str>,
    cutoff_secs: i64,
    page: u32,
    token: Option<&str>,
) -> (r: Option<String>)
    ensures
        match issue_search_spec(owner@, repo@, opt_view(user), cutoff_secs as int, page as nat, opt_view(token)) {
            Some(p) => r matches Some(q) && q@ == p,
            None => r is None,
        },
{
    let instant = match format_utc_instant(cutoff_secs) {
        Some(t) => t,
        None => {
            return None;
        },
    };
    let user_part = token_suffix("involves:", user);
    let mut query = "repo:".to_owned();
    query.append(owner);
    query.append("/");
    query.append(repo);
    query.append(" is:issue ");
    query.append(user_part.as_str());
    query.append(" updated:>");
    query.append(instant.as_str());
    let encoded = url_encode(query.as_str());
    let mut path = "search/issues?q=".to_owned();
    path.append(encoded.as_str());
    path.append("&sort=updated&order=desc&per_page=100&page=");
    path.append(decimal(page).as_str());
    path.append(token_suffix("&token=", token).as_str());
    proof {
        let user_spec = match opt_view(user) {
            Some(u) => "involves:"@ + u,
            None => Seq::<char>::empty(),
        };
        assert(user_part@ == user_spec);
        assert(query@ =~= "repo:"@ + owner@ + "/"@ + repo@ + " is:issue "@ + user_spec
            + " updated:>"@ + instant@);
    }
    Some(path)
}

/// The path of a search for the commits of `owner/repo` committed after the day of the
/// instant `cutoff_secs`, optionally by `user`, for page `page`. `None` when the instant is
/// out of range.
pub open spec fn commit_search_spec(
    owner: Seq<char>,
    repo: Seq<char>,
    user: Option<Seq<char>>,
    cutoff_secs: int,
    page: nat,
    token: Option<Seq<char>>,
) -> Option<Seq<char>> {
    match utc_date_text(cutoff_secs) {
        Some(day) => {
            let author_part = match user {
                Some(u) => "%20author:"@ + u,
                None => Seq::empty(),
            };
            Some("search/commits?q=repo:"@ + owner + "/"@ + repo + author_part
                + "%20committer-date:>"@ + day
                + "&sort=committer-date&order=desc&per_page=100&page="@ + decimal_of(page)
                + token_param(token))
        },
        None => None,
    }
}

pub fn commit_search_path(
    owner: &str,
    repo: &str,
    user: Option<&str>,
    cutoff_secs: i64,
    page: u32,
    token: Option<&str>,
) -> (r: Option<String>)
    ensures
        match commit_search_spec(owner@, repo@, opt_view(user), cutoff_secs as int, page as nat, opt_view(token)) {
            Some(p) => r matches Some(q) && q@ == p,
            None => r is None,
        },
{
    let day = match format_utc_date(cutoff_secs) {
        Some(t) => t,
        None => {
            return None;
        },
    };
    let author_part = token_suffix("%20author:", user);
    let mut path = "search/commits?q=repo:".to_owned();
    path.append(owner);
    path.append("/");
    path.append(repo);
    path.append(author_part.as_str());
    path.append("%20committer-date:>");
    path.append(day.as_str());
    path.append("&sort=committer-date&order=desc&per_page=100&page=");
    path.append(decimal(page).as_str());
    path.append(token_suffix("&token=", token).as_str());
    Some(path)
}

/// The path of page `page` of the contributors of `owner/repo`, a hundred to a page.
pub fn contributors_path(owner: &str, repo: &str, page: u32) -> (r: String)
    ensures
        r@ == "repos/"@ + owner@ + "/"@ + repo@ + "/contributors?per_page=100&page="@
            + decimal_of(page as nat),
{
    let mut path = "repos/".to_owned();
    path.append(owner);
    path.append("/");
    path.append(repo);
    path.append("/contributors?per_page=100&page=");
    path.append(decimal(page).as_str());
    path
}

/// The URL of the comments of an issue, most recently updated first.
pub fn comments_url(issue_url: &str, token: Option<&str>) -> (r: String)
    ensures
        r@ == issue_url@ + "/comments?sort=updated&order=desc&per_page=100"@ + token_param(
            opt_view(token),
        ),
{
    let mut url = issue_url.to_owned();
    url.append("/comments?sort=updated&order=desc&per_page=100");
    url.append(token_suffix("&token=", token).as_str());
    url
}

/// The URL of the patch of a commit, given its page.
pub fn patch_url(source_url: &str, token: Option<&str>) -> (r: String)
    ensures
        r@ == source_url@ + ".patch"@ + match opt_view(token) {
            Some(t) => "?token="@ + t,
            None => Seq::empty(),
        },
{
    let mut url = source_url.to_owned();
    url.append(".patch");
    url.append(token_suffix("?token=", token).as_str());
    url
}

/// A path under a repository: `repos/owner/repo/` and `rest`.
pub fn repo_path(owner: &str, repo: &str, rest: &str) -> (r: String)
    ensures
        r@ == "repos/"@ + owner@ + "/"@ + repo@ + "/"@ + rest@,
{
    let mut path = "repos/".to_owned();
    path.append(owner);
    path.append("/");
    path.append(repo);
    path.append("/");
    path.append(rest);
    path
}

/// A forge user's public profile; `created_at` is in seconds since the Unix epoch.
pub struct UserProfile {
    pub name: Option<String>,
    pub login: Option<String>,
    pub url: Option<String>,
    pub twitter_username: Option<String>,
    pub bio: Option<String>,
    pub company: Option<String>,
    pub location: Option<String>,
    pub created_at: Option<i64>,
    pub email: Option<String>,
}

pub open spec fn string_opt(o: Option<String>) -> Option<Seq<char>> {
    match o {
        Some(t) => Some(t@),
        None => None,
    }
}

/// `label` and the value, then `tail`, for a present value; nothing for an absent one.
pub open spec fn labelled(label: Seq<char>, v: Option<Seq<char>>, tail: Seq<char>) -> Seq<char> {
    match v {
        Some(t) => label + t + tail,
        None => Seq::empty(),
    }
}

/// The profile line: each present field labelled and followed by a comma (the email by
/// nothing), an empty bio and a creation time out of range left out, the nine parts
/// separated by single spaces, then a newline.
pub open spec fn profile_line(u: UserProfile) -> Seq<char> {
    let bio = match u.bio {
        Some(b) => if b@.len() == 0 {
            None
        } else {
            Some(b@)
        },
        None => None,
    };
    let date = match u.created_at {
        Some(secs) => utc_date_text(secs as int),
        None => None,
    };
    labelled("Name: "@, string_opt(u.name), ","@) + " "@ + labelled("Login: "@, string_opt(u.login), ","@)
        + " "@ + labelled("Url: "@, string_opt(u.url), ","@) + " "@ + labelled(
        "Twitter: "@,
        string_opt(u.twitter_username),
        ","@,
    ) + " "@ + labelled("Bio: "@, bio, ","@) + " "@ + labelled(
        "Company: "@,
        string_opt(u.company),
        ","@,
    ) + " "@ + labelled("Location: "@, string_opt(u.location), ","@) + " "@ + labelled(
        "Created At: "@,
        date,
        ","@,
    ) + " "@ + labelled("Email: "@, string_opt(u.email), Seq::empty()) + "\n"@
}

fn push_labelled(out: &mut String, label: &str, v: &Option<String>, tail: &str)
    ensures
        final(out)@ == old(out)@ + labelled(label@, string_opt(*v), tail@),
{
    match v {
        Some(t) => {
            out.append(label);
            out.append(t.as_str());
            out.append(tail);
        },
        None => {
            assert(out@ =~= old(out)@ + Seq::<char>::empty());
        },
    }
}

/// A profile as text: a heading line, then the profile line when there is a profile.
pub fn format_user_profile(user: Option<&UserProfile>) -> (r: String)
    ensures
        r@ == "USER_profile: \n"@ + match user {
            Some(u) => profile_line(*u),
            None => Seq::empty(),
        },
{
    let mut out = "USER_profile: \n".to_owned();
    match user {
        Some(u) => {
            let bio = match &u.bio {
                Some(b) => if b.as_str().is_empty() {
                    None
                } else {
                    Some(b.clone())
                },
                None => None,
            };
            let date = match u.created_at {
                Some(secs) => format_utc_date(secs),
                None => None,
            };
            let mut line = String::new();
            push_labelled(&mut line, "Name: ", &u.name, ",");
            assert(line@ =~= labelled("Name: "@, string_opt(u.name), ","@));
            line.append(" ");
            push_labelled(&mut line, "Login: ", &u.login, ",");
            line.append(" ");
            push_labelled(&mut line, "Url: ", &u.url, ",");
            line.append(" ");
            push_labelled(&mut line, "Twitter: ", &u.twitter_username, ",");
            line.append(" ");
            push_labelled(&mut line, "Bio: ", &bio, ",");
            line.append(" ");
            push_labelled(&mut line, "Company: ", &u.company, ",");
            line.append(" ");
            push_labelled(&mut line, "Location: ", &u.location, ",");
            line.append(" ");
            push_labelled(&mut line, "Created At: ", &date, ",");
            line.append(" ");
            push_labelled(&mut line, "Email: ", &u.email, "");
            line.append("\n");
            proof {
                reveal_strlit("");
                assert(""@ =~= Seq::<char>::empty());
                assert(labelled("Email: "@, string_opt(u.email), ""@) == labelled("Email: "@, string_opt(u.email), Seq::empty()));
            }
            assert(line@ == profile_line(*u));
            out.append(line.as_str());
        },
        None => {
            assert(out@ =~= "USER_profile: \n"@ + Seq::<char>::empty());
        },
    }
    out
}

/// A repository's description, labelled.
pub fn community_description(description: &str) -> (r: String)
    ensures
        r@ == "Description: "@ + description@,
{
    let mut out = "Description: ".to_owned();
    out.append(description);
    out
}

} // verus!
