//! Text budgeting: fitting free text into a word or token budget while keeping
//! its beginning and its end.
use vstd::prelude::*;
use crate::text::{
    are_words, is_ws, lemma_split_join, lemma_split_ws_are_words,
    chars_of, extend_chars, join_words, lemma_join_push, lines_of, push_joined, split_lines,
    split_words, split_ws, string_of, views,
};

verus! {

/// The longest word, in characters, that survives cleaning.
pub const MAX_WORD_CHARS: usize = 150;

/// Whether `l` holds three backticks or three double quotes in a row: a line that opens
/// or closes a quoted block.
pub open spec fn is_fence(l: Seq<char>) -> bool {
    exists|i: int| 0 <= i && i + 2 < l.len() && #[trigger] fence_at(l, i)
}

/// Whether three backticks or three double quotes start at position `i` of `l`.
pub open spec fn fence_at(l: Seq<char>, i: int) -> bool {
    (l[i] == '`' && l[i + 1] == '`' && l[i + 2] == '`') || (l[i] == '"' && l[i + 1] == '"'
        && l[i + 2] == '"')
}

/// The words that cleaning keeps: those of at most `MAX_WORD_CHARS` characters.
pub open spec fn short_words(ws: Seq<Seq<char>>) -> Seq<Seq<char>>
    decreases ws.len(),
{
    if ws.len() == 0 {
        ws
    } else if ws.last().len() <= MAX_WORD_CHARS {
        short_words(ws.drop_last()).push(ws.last())
    } else {
        short_words(ws.drop_last())
    }
}

/// A kept line after cleaning: its short words joined by single spaces, then a newline.
pub open spec fn clean_line(l: Seq<char>) -> Seq<char> {
    join_words(short_words(split_ws(l))).push('\n')
}

/// Whether a quoted block is open after the lines `ls`: an odd number of them are fences.
pub open spec fn fence_open(ls: Seq<Seq<char>>) -> bool
    decreases ls.len(),
{
    if ls.len() == 0 {
        false
    } else if is_fence(ls.last()) {
        !fence_open(ls.drop_last())
    } else {
        fence_open(ls.drop_last())
    }
}

/// The cleaned form of the lines `ls`: fences and the lines between an opening fence and
/// the next one are dropped, every other line is cleaned.
pub open spec fn clean_lines(ls: Seq<Seq<char>>) -> Seq<char>
    decreases ls.len(),
{
    if ls.len() == 0 {
        Seq::empty()
    } else if is_fence(ls.last()) || fence_open(ls.drop_last()) {
        clean_lines(ls.drop_last())
    } else {
        clean_lines(ls.drop_last()) + clean_line(ls.last())
    }
}

pub open spec fn clean_text(s: Seq<char>) -> Seq<char> {
    clean_lines(lines_of(s))
}

/// The share in percent that a split ratio gives to the beginning; above 100 counts as 100.
pub open spec fn clamp_percent(split_percent: nat) -> nat {
    if split_percent > 100 {
        100
    } else {
        split_percent
    }
}

/// How many of `budget` units come from the beginning: `ceil(budget * split / 100)`.
pub open spec fn head_count(budget: nat, split_percent: nat) -> nat {
    (budget * clamp_percent(split_percent) + 99) / 100
}

/// The first `head_count` items and the last `budget - head_count` items of `s`.
pub open spec fn head_and_tail<A>(s: Seq<A>, budget: nat, split_percent: nat) -> Seq<A> {
    let h = head_count(budget, split_percent);
    s.take(h as int) + s.skip(s.len() - (budget - h))
}

/// The text that word budgeting gives: the text itself when it has at most `max_len`
/// words; else its cleaned form when that has at most `max_len` words; else the first and
/// last words of the cleaned form, `max_len` in all, joined by single spaces.
pub open spec fn squeezed(s: Seq<char>, max_len: nat, split_percent: nat) -> Seq<char> {
    if split_ws(s).len() <= max_len {
        s
    } else {
        let body = clean_text(s);
        let ws = split_ws(body);
        if ws.len() > max_len {
            join_words(head_and_tail(ws, max_len, split_percent))
        } else {
            body
        }
    }
}

pub proof fn lemma_head_count_bound(budget: nat, split_percent: nat)
    ensures
        head_count(budget, split_percent) <= budget,
{
    let p = clamp_percent(split_percent);
    assert(budget * p <= budget * 100) by (nonlinear_arith)
        requires
            p <= 100,
    ;
}

/// Word budgeting keeps text that fits: a text of at most `max_len` words comes back
/// unchanged. A longer text whose cleaned form still has more than `max_len` words comes
/// back with exactly `max_len` words: the first `head_count` words of the cleaned text and
/// then its last ones, so that the words in between, as many as the excess over `max_len`,
/// are cut out. Either way the result has at most `max_len` words.
pub proof fn lemma_squeeze_shape(s: Seq<char>, max_len: nat, split_percent: nat)
    ensures
        split_ws(s).len() <= max_len ==> squeezed(s, max_len, split_percent) == s,
        split_ws(s).len() > max_len && split_ws(clean_text(s)).len() > max_len ==> {
            let ws = split_ws(clean_text(s));
            let h = head_count(max_len, split_percent);
            &&& split_ws(squeezed(s, max_len, split_percent)) == ws.take(h as int) + ws.skip(
                ws.len() - (max_len - h),
            )
            &&& split_ws(squeezed(s, max_len, split_percent)).len() == max_len
        },
        split_ws(squeezed(s, max_len, split_percent)).len() <= max_len,
{
    let ws = split_ws(clean_text(s));
    if split_ws(s).len() > max_len && ws.len() > max_len {
        lemma_head_count_bound(max_len, split_percent);
        lemma_split_ws_are_words(clean_text(s));
        let r = head_and_tail(ws, max_len, split_percent);
        let h = head_count(max_len, split_percent);
        let t = max_len - h;
        assert(are_words(r)) by {
            assert forall|i: int| 0 <= i < r.len() implies #[trigger] r[i].len() > 0 && forall|
                j: int,
            | 0 <= j < r[i].len() ==> !is_ws(#[trigger] r[i][j]) by {
                if i < h {
                    assert(r[i] == ws[i]);
                } else {
                    assert(r[i] == ws[ws.len() - t + (i - h)]);
                }
            }
        }
        lemma_split_join(r);
    }
}

/// Word budgeting is idempotent: budgeting its result again changes nothing.
pub proof fn lemma_squeeze_idempotent(s: Seq<char>, max_len: nat, split_percent: nat)
    ensures
        squeezed(squeezed(s, max_len, split_percent), max_len, split_percent) == squeezed(
            s,
            max_len,
            split_percent,
        ),
{
    lemma_squeeze_shape(s, max_len, split_percent);
    lemma_squeeze_shape(squeezed(s, max_len, split_percent), max_len, split_percent);
}

/// Whether the line holds a fence.
fn line_is_fence(l: &Vec<char>) -> (r: bool)
    ensures
        r == is_fence(l@),
{
    let mut i: usize = 0;
    while l.len() >= 3 && i < l.len() - 2
        invariant
            0 <= i <= l.len(),
            forall|j: int| 0 <= j < i && j + 2 < l@.len() ==> !#[trigger] fence_at(l@, j),
        decreases l.len() - i,
    {
        let a = l[i];
        let b = l[i + 1];
        let c = l[i + 2];
        if (a == '`' && b == '`' && c == '`') || (a == '"' && b == '"' && c == '"') {
            assert(fence_at(l@, i as int));
            return true;
        }
        i = i + 1;
    }
    false
}

/// Appends the cleaned form of one kept line to `out`.
fn push_clean_line(out: &mut Vec<char>, l: &Vec<char>)
    ensures
        final(out)@ == old(out)@ + clean_line(l@),
{
    let ws = split_words(l);
    let ghost start = out@;
    let mut first = true;
    let mut k: usize = 0;
    while k < ws.len()
        invariant
            0 <= k <= ws.len(),
            views(ws@) == split_ws(l@),
            first == (short_words(views(ws@).take(k as int)).len() == 0),
            out@ == start + join_words(short_words(views(ws@).take(k as int))),
        decreases ws.len() - k,
    {
        let ghost done = short_words(views(ws@).take(k as int));
        assert(views(ws@).take(k + 1).drop_last() =~= views(ws@).take(k as int));
        assert(views(ws@)[k as int] == ws@[k as int]@);
        if ws[k].len() <= MAX_WORD_CHARS {
            proof {
                lemma_join_push(done, ws@[k as int]@);
            }
            if !first {
                out.push(' ');
            }
            extend_chars(out, &ws[k]);
            proof {
                if first {
                    assert(join_words(done) =~= Seq::<char>::empty());
                    assert(out@ =~= start + join_words(done.push(ws@[k as int]@)));
                } else {
                    assert(out@ =~= start + join_words(done.push(ws@[k as int]@)));
                }
            }
            first = false;
        }
        k = k + 1;
    }
    assert(views(ws@).take(ws@.len() as int) =~= views(ws@));
    out.push('\n');
    assert(out@ =~= start + clean_line(l@));
}

/// The cleaned text: quoted blocks and their fences removed, over-long words dropped,
/// every kept line's words joined by single spaces and ended by a newline.
pub fn clean_chars(s: &Vec<char>) -> (r: Vec<char>)
    ensures
        r@ == clean_text(s@),
{
    let lines = split_lines(s);
    let mut out: Vec<char> = Vec::new();
    let mut inside = false;
    let mut k: usize = 0;
    while k < lines.len()
        invariant
            0 <= k <= lines.len(),
            views(lines@) == lines_of(s@),
            inside == fence_open(views(lines@).take(k as int)),
            out@ == clean_lines(views(lines@).take(k as int)),
        decreases lines.len() - k,
    {
        assert(views(lines@).take(k + 1).drop_last() =~= views(lines@).take(k as int));
        assert(views(lines@)[k as int] == lines@[k as int]@);
        if line_is_fence(&lines[k]) {
            inside = !inside;
        } else if !inside {
            push_clean_line(&mut out, &lines[k]);
        }
        k = k + 1;
    }
    assert(views(lines@).take(lines@.len() as int) =~= views(lines@));
    out
}

/// Fits `inp_str` into `max_len` words. A text within budget comes back unchanged. A
/// longer one is cleaned (see `clean_chars`); when more than `max_len` words remain, the
/// middle is cut out and the first `ceil(max_len * split_percent / 100)` words and enough of
/// the last ones to make up `max_len` are kept, joined by single spaces. A split above 100
/// counts as 100.
pub fn squeeze_fit_remove_quoted(inp_str: &str, max_len: u16, split_percent: u8) -> (r: String)
    ensures
        r@ == squeezed(inp_str@, max_len as nat, split_percent as nat),
{
    let chars = chars_of(inp_str);
    if split_words(&chars).len() <= max_len as usize {
        return inp_str.to_owned();
    }
    let body = clean_chars(&chars);
    let words = split_words(&body);
    let n = words.len();
    if n > max_len as usize {
        let pct: u32 = if split_percent > 100 {
            100
        } else {
            split_percent as u32
        };
        let m = max_len as u32;
        proof {
            lemma_head_count_bound(max_len as nat, split_percent as nat);
            assert(m * pct <= 65535 * 100) by (nonlinear_arith)
                requires
                    m <= 65535,
                    pct <= 100,
            ;
        }
        let h = ((m * pct + 99) / 100) as usize;
        let t = max_len as usize - h;
        let mut out: Vec<char> = Vec::new();
        push_joined(&mut out, &words, 0, h, true, Ghost(Seq::empty()));
        let ghost head = views(words@).subrange(0, h as int);
        assert(Seq::<Seq<char>>::empty() + head =~= head);
        push_joined(&mut out, &words, n - t, n, h == 0, Ghost(head));
        proof {
            let ws = views(words@);
            assert(ws.take(h as int) =~= head);
            assert(ws.skip(ws.len() - t) =~= ws.subrange(n - t, n as int));
        }
        string_of(&out)
    } else {
        string_of(&body)
    }
}


/// The cl100k token ids of a text.
pub uninterp spec fn cl100k_tokens(s: Seq<char>) -> Seq<u32>;

/// The text that a sequence of cl100k token ids decodes to, if it is valid UTF-8.
pub uninterp spec fn cl100k_text(tokens: Seq<u32>) -> Option<Seq<char>>;

#[verifier::external_type_specification]
#[verifier::external_body]
pub struct ExCoreBPE(tiktoken_rs::CoreBPE);

/// The cl100k encoding, loaded.
pub struct Cl100k {
    bpe: &'static tiktoken_rs::CoreBPE,
}

/// Relies on `tiktoken_rs::cl100k_base_singleton`: the cl100k encoding, built once from the
/// data compiled into tiktoken-rs.
#[verifier::external_body]
fn load_cl100k() -> (r: Cl100k) {
    Cl100k { bpe: tiktoken_rs::cl100k_base_singleton() }
}

/// Relies on `CoreBPE::encode_ordinary`: the token ids of the text, special tokens read as
/// ordinary text.
#[verifier::external_body]
fn cl100k_encode(enc: &Cl100k, text: &str) -> (r: Vec<u32>)
    ensures
        r@ == cl100k_tokens(text@),
{
    enc.bpe.encode_ordinary(text)
}

/// Relies on `CoreBPE::decode`: the text of the token ids, failing on an unknown id or on
/// bytes that are not UTF-8.
#[verifier::external_body]
fn cl100k_decode(enc: &Cl100k, tokens: &Vec<u32>) -> (r: Option<String>)
    ensures
        match r {
            Some(t) => cl100k_text(tokens@) == Some(t@),
            None => cl100k_text(tokens@) is None,
        },
{
    enc.bpe.decode(tokens).ok()
}

/// What token budgeting returns when the kept tokens cannot be decoded.
pub open spec fn decode_failure_text() -> Seq<char> {
    "failed to decode tokens"@
}

/// The tokens to keep of an encoded text: `None` when it fits in `max_len` tokens, else its
/// first `ceil(max_len * split_percent / 100)` tokens and its last ones, `max_len` in all.
pub fn token_budget_plan(tokens: &Vec<u32>, max_len: u16, split_percent: u8) -> (r: Option<Vec<u32>>)
    ensures
        tokens@.len() <= max_len ==> r is None,
        tokens@.len() > max_len ==> (r matches Some(k) && k@ == head_and_tail(
            tokens@,
            max_len as nat,
            split_percent as nat,
        )),
{
    let n = tokens.len();
    if n <= max_len as usize {
        return None;
    }
    let pct: u32 = if split_percent > 100 {
        100
    } else {
        split_percent as u32
    };
    let m = max_len as u32;
    proof {
        lemma_head_count_bound(max_len as nat, split_percent as nat);
        assert(m * pct <= 65535 * 100) by (nonlinear_arith)
            requires
                m <= 65535,
                pct <= 100,
        ;
    }
    let h = ((m * pct + 99) / 100) as usize;
    let t = max_len as usize - h;
    let mut kept: Vec<u32> = Vec::new();
    let mut i: usize = 0;
    while i < h
        invariant
            i <= h <= max_len < n == tokens.len(),
            kept@ == tokens@.take(i as int),
        decreases h - i,
    {
        kept.push(tokens[i]);
        i = i + 1;
        assert(kept@ =~= tokens@.take(i as int));
    }
    let mut j: usize = n - t;
    while j < n
        invariant
            h <= n - t <= j <= n == tokens.len(),
            kept@ == tokens@.take(h as int) + tokens@.subrange(n - t, j as int),
        decreases n - j,
    {
        kept.push(tokens[j]);
        j = j + 1;
        assert(kept@ =~= tokens@.take(h as int) + tokens@.subrange(n - t, j as int));
    }
    assert(tokens@.skip(n - t) =~= tokens@.subrange(n - t, n as int));
    Some(kept)
}

/// What token budgeting gives: the text itself when it has at most `max_len` tokens, else
/// its first `ceil(max_len * split_percent / 100)` tokens and enough of its last ones to
/// make up `max_len`, decoded, or the failure text when they do not decode.
pub open spec fn token_squeezed(s: Seq<char>, max_len: nat, split_percent: nat) -> Seq<char> {
    let ts = cl100k_tokens(s);
    if ts.len() <= max_len {
        s
    } else {
        match cl100k_text(head_and_tail(ts, max_len, split_percent)) {
            Some(t) => t,
            None => decode_failure_text(),
        }
    }
}

/// Fits `inp_str` into `max_len` cl100k tokens, as `token_squeezed` says.
pub fn squeeze_fit_post_texts(inp_str: &str, max_len: u16, split_percent: u8) -> (r: String)
    ensures
        r@ == token_squeezed(inp_str@, max_len as nat, split_percent as nat),
{
    let enc = load_cl100k();
    let tokens = cl100k_encode(&enc, inp_str);
    match token_budget_plan(&tokens, max_len, split_percent) {
        None => inp_str.to_owned(),
        Some(kept) => match cl100k_decode(&enc, &kept) {
            Some(t) => t,
            None => "failed to decode tokens".to_owned(),
        },
    }
}

} // verus!
