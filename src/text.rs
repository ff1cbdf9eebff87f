//! Character-level model of text: whitespace, words, lines and joining.
use vstd::prelude::*;

verus! {

/// Appending a character to a `String` extends its character sequence by that character.
pub assume_specification[ String::push ](s: &mut String, ch: char)
    ensures
        final(s)@ == old(s)@.push(ch),
;

/// The characters with the Unicode `White_Space` property.
pub open spec fn is_ws(c: char) -> bool {
    c == '\t' || c == '\n' || c == '\u{0B}' || c == '\u{0C}' || c == '\r' || c == ' '
        || c == '\u{85}' || c == '\u{A0}' || c == '\u{1680}' || ('\u{2000}' <= c && c
        <= '\u{200A}') || c == '\u{2028}' || c == '\u{2029}' || c == '\u{202F}' || c
        == '\u{205F}' || c == '\u{3000}'
}

pub fn is_space(c: char) -> (r: bool)
    ensures
        r == is_ws(c),
{
    c == '\t' || c == '\n' || c == '\u{0B}' || c == '\u{0C}' || c == '\r' || c == ' '
        || c == '\u{85}' || c == '\u{A0}' || c == '\u{1680}' || ('\u{2000}' <= c && c
        <= '\u{200A}') || c == '\u{2028}' || c == '\u{2029}' || c == '\u{202F}' || c
        == '\u{205F}' || c == '\u{3000}'
}

/// The characters of a string slice, in order.
pub fn chars_of(s: &str) -> (r: Vec<char>)
    ensures
        r@ == s@,
{
    let mut r: Vec<char> = Vec::new();
    for c in it: s.chars()
        invariant
            r@ == it.seq().take(it.index() as int),
            it.seq() == s@,
    {
        r.push(c);
    }
    r
}


/// The words of `s`: its maximal runs of characters that are not whitespace, in order.
/// Defined on prefixes so that it follows a left-to-right scan.
pub open spec fn split_ws(s: Seq<char>) -> Seq<Seq<char>>
    decreases s.len(),
{
    if s.len() == 0 {
        Seq::empty()
    } else {
        let prev = split_ws(s.drop_last());
        let c = s.last();
        if is_ws(c) {
            prev
        } else if s.len() >= 2 && !is_ws(s[s.len() - 2]) {
            prev.update(prev.len() - 1, prev.last().push(c))
        } else {
            prev.push(seq![c])
        }
    }
}

/// The pieces of `s` between newline characters; there is always one more piece than newlines.
pub open spec fn pieces(s: Seq<char>) -> Seq<Seq<char>>
    decreases s.len(),
{
    if s.len() == 0 {
        seq![Seq::empty()]
    } else {
        let prev = pieces(s.drop_last());
        let c = s.last();
        if c == '\n' {
            prev.push(Seq::empty())
        } else {
            prev.update(prev.len() - 1, prev.last().push(c))
        }
    }
}

/// The lines of `s`: its pieces between newlines, where a final newline ends the last line
/// instead of starting an empty one.
pub open spec fn lines_of(s: Seq<char>) -> Seq<Seq<char>> {
    let p = pieces(s);
    if p.last().len() == 0 {
        p.drop_last()
    } else {
        p
    }
}

/// Words joined by single spaces.
pub open spec fn join_words(ws: Seq<Seq<char>>) -> Seq<char>
    decreases ws.len(),
{
    if ws.len() == 0 {
        Seq::empty()
    } else if ws.len() == 1 {
        ws[0]
    } else {
        join_words(ws.drop_last()) + seq![' '] + ws.last()
    }
}

/// The number of newline characters in `s`.
pub open spec fn newline_count(s: Seq<char>) -> nat
    decreases s.len(),
{
    if s.len() == 0 {
        0
    } else {
        newline_count(s.drop_last()) + if s.last() == '\n' {
            1nat
        } else {
            0nat
        }
    }
}

/// `s` with each newline replaced by a space.
pub open spec fn one_line(s: Seq<char>) -> Seq<char>
    decreases s.len(),
{
    if s.len() == 0 {
        s
    } else {
        one_line(s.drop_last()).push(
            if s.last() == '\n' {
                ' '
            } else {
                s.last()
            },
        )
    }
}

pub proof fn lemma_one_line_has_no_newline(s: Seq<char>)
    ensures
        newline_count(one_line(s)) == 0,
    decreases s.len(),
{
    if s.len() > 0 {
        lemma_one_line_has_no_newline(s.drop_last());
        let o = one_line(s);
        assert(o.drop_last() =~= one_line(s.drop_last()));
    }
}

/// The text with each newline replaced by a space.
pub fn single_line(s: &str) -> (r: String)
    ensures
        r@ == one_line(s@),
{
    let mut r = String::new();
    for c in it: s.chars()
        invariant
            it.seq() == s@,
            r@ == one_line(it.seq().take(it.index() as int)),
    {
        assert(it.seq().take(it.index() + 1).drop_last() =~= it.seq().take(it.index() as int));
        if c == '\n' {
            r.push(' ');
        } else {
            r.push(c);
        }
    }
    assert(s@.take(s@.len() as int) =~= s@);
    r
}

/// The views of a sequence of character vectors.
pub open spec fn views(v: Seq<Vec<char>>) -> Seq<Seq<char>> {
    v.map_values(|w: Vec<char>| w@)
}

pub proof fn lemma_pieces_len(s: Seq<char>)
    ensures
        pieces(s).len() == newline_count(s) + 1,
    decreases s.len(),
{
    if s.len() > 0 {
        lemma_pieces_len(s.drop_last());
    }
}

/// Whether every item of `ws` is a non-empty run of non-whitespace characters, as words are.
pub open spec fn are_words(ws: Seq<Seq<char>>) -> bool {
    forall|i: int|
        0 <= i < ws.len() ==> #[trigger] ws[i].len() > 0 && forall|j: int|
            0 <= j < ws[i].len() ==> !is_ws(#[trigger] ws[i][j])
}

pub proof fn lemma_split_ws_are_words(s: Seq<char>)
    ensures
        are_words(split_ws(s)),
        s.len() > 0 && !is_ws(s.last()) ==> split_ws(s).len() > 0,
    decreases s.len(),
{
    if s.len() > 0 {
        lemma_split_ws_are_words(s.drop_last());
        let prev = split_ws(s.drop_last());
        let c = s.last();
        if !is_ws(c) && s.len() >= 2 && !is_ws(s[s.len() - 2]) {
            assert(s.drop_last().last() == s[s.len() - 2]);
            let r = prev.update(prev.len() - 1, prev.last().push(c));
            assert forall|i: int| 0 <= i < r.len() implies #[trigger] r[i].len() > 0 && forall|
                j: int,
            | 0 <= j < r[i].len() ==> !is_ws(#[trigger] r[i][j]) by {
                if i == prev.len() - 1 {
                    assert(r[i] == prev[i].push(c));
                    assert forall|j: int| 0 <= j < r[i].len() implies !is_ws(
                        #[trigger] r[i][j],
                    ) by {
                        if j < prev[i].len() {
                            assert(r[i][j] == prev[i][j]);
                        }
                    }
                }
            }
        }
    }
}

/// Splitting `b + w` where `b` is empty or ends in whitespace and `w` is one word.
pub proof fn lemma_split_after_break(b: Seq<char>, w: Seq<char>)
    requires
        b.len() == 0 || is_ws(b.last()),
        are_words(seq![w]),
    ensures
        split_ws(b + w) == split_ws(b).push(w),
    decreases w.len(),
{
    assert(seq![w][0] == w);
    let bw = b + w;
    if w.len() == 1 {
        assert(bw.drop_last() =~= b);
        assert(w =~= seq![w[0]]);
    } else {
        let w1 = w.drop_last();
        assert(are_words(seq![w1])) by {
            assert(seq![w1][0] == w1);
            assert forall|j: int| 0 <= j < w1.len() implies !is_ws(#[trigger] w1[j]) by {
                assert(w1[j] == w[j]);
            }
        }
        lemma_split_after_break(b, w1);
        assert(bw.drop_last() =~= b + w1);
        assert(bw[bw.len() - 2] == w[w.len() - 2]);
        assert(w1.push(w.last()) =~= w);
        assert(split_ws(b).push(w1).update(split_ws(b).len() as int, w1.push(w.last()))
            =~= split_ws(b).push(w));
    }
}

/// Splitting words joined by single spaces gives the words back.
pub proof fn lemma_split_join(ws: Seq<Seq<char>>)
    requires
        are_words(ws),
    ensures
        split_ws(join_words(ws)) == ws,
    decreases ws.len(),
{
    if ws.len() == 1 {
        assert(ws[0] =~= Seq::<char>::empty() + ws[0]);
        assert(seq![ws[0]] =~= ws);
        lemma_split_after_break(Seq::empty(), ws[0]);
        assert(Seq::<Seq<char>>::empty().push(ws[0]) =~= ws);
    } else if ws.len() > 1 {
        let p = ws.drop_last();
        let w = ws.last();
        assert(are_words(p)) by {
            assert forall|i: int| 0 <= i < p.len() implies #[trigger] p[i].len() > 0 && forall|
                j: int,
            | 0 <= j < p[i].len() ==> !is_ws(#[trigger] p[i][j]) by {
                assert(p[i] == ws[i]);
            }
        }
        lemma_split_join(p);
        let a = join_words(p) + seq![' '];
        assert(a.drop_last() =~= join_words(p));
        assert(are_words(seq![w])) by {
            assert(seq![w][0] == ws[ws.len() - 1]);
        }
        lemma_split_after_break(a, w);
        assert(split_ws(a) == split_ws(join_words(p)));
        assert(p.push(w) =~= ws);
    }
}

/// The words of a character vector.
pub fn split_words(s: &Vec<char>) -> (r: Vec<Vec<char>>)
    ensures
        views(r@) == split_ws(s@),
{
    let mut words: Vec<Vec<char>> = Vec::new();
    let mut cur: Vec<char> = Vec::new();
    let mut i: usize = 0;
    while i < s.len()
        invariant
            0 <= i <= s.len(),
            (if cur@.len() > 0 {
                views(words@).push(cur@)
            } else {
                views(words@)
            }) == split_ws(s@.take(i as int)),
            cur@.len() > 0 <==> (i > 0 && !is_ws(s@[i - 1])),
        decreases s.len() - i,
    {
        let c = s[i];
        assert(s@.take(i + 1).drop_last() == s@.take(i as int));
        let ghost w0 = words@;
        let ghost c0 = cur@;
        if is_space(c) {
            if cur.len() > 0 {
                let w = cur;
                cur = Vec::new();
                words.push(w);
                assert(views(words@) =~= views(w0).push(c0));
            }
        } else {
            cur.push(c);
            proof {
                if c0.len() > 0 {
                    assert(views(w0).push(cur@) =~= views(w0).push(c0).update(
                        views(w0).len() as int,
                        c0.push(c),
                    ));
                } else {
                    assert(cur@ =~= seq![c]);
                }
            }
        }
        i = i + 1;
    }
    assert(s@.take(s@.len() as int) == s@);
    if cur.len() > 0 {
        let ghost before = words@;
        words.push(cur);
        assert(views(words@) =~= views(before).push(words@.last()@));
    }
    words
}


/// The lines of a character vector.
pub fn split_lines(s: &Vec<char>) -> (r: Vec<Vec<char>>)
    ensures
        views(r@) == lines_of(s@),
{
    let mut lines: Vec<Vec<char>> = Vec::new();
    let mut cur: Vec<char> = Vec::new();
    let mut i: usize = 0;
    while i < s.len()
        invariant
            0 <= i <= s.len(),
            views(lines@).push(cur@) == pieces(s@.take(i as int)),
        decreases s.len() - i,
    {
        let c = s[i];
        assert(s@.take(i + 1).drop_last() == s@.take(i as int));
        let ghost l0 = lines@;
        let ghost c0 = cur@;
        if c == '\n' {
            let w = cur;
            cur = Vec::new();
            lines.push(w);
            assert(views(lines@).push(cur@) =~= views(l0).push(c0).push(Seq::empty()));
        } else {
            cur.push(c);
            assert(views(lines@).push(cur@) =~= views(l0).push(c0).update(
                views(l0).len() as int,
                c0.push(c),
            ));
        }
        i = i + 1;
    }
    assert(s@.take(s@.len() as int) == s@);
    if cur.len() > 0 {
        let ghost before = lines@;
        lines.push(cur);
        assert(views(lines@) =~= views(before).push(lines@.last()@));
    } else {
        assert(views(lines@) =~= views(lines@).push(cur@).drop_last());
    }
    lines
}

pub proof fn lemma_join_push(ws: Seq<Seq<char>>, w: Seq<char>)
    ensures
        join_words(ws.push(w)) == if ws.len() == 0 {
            w
        } else {
            join_words(ws) + seq![' '] + w
        },
{
    assert(ws.push(w).drop_last() =~= ws);
    if ws.len() == 0 {
        assert(ws.push(w)[0] == w);
    }
}

/// Appends the characters of `w` to `out`.
pub fn extend_chars(out: &mut Vec<char>, w: &Vec<char>)
    ensures
        final(out)@ == old(out)@ + w@,
{
    let ghost start = out@;
    let mut i: usize = 0;
    while i < w.len()
        invariant
            0 <= i <= w.len(),
            out@ == start + w@.take(i as int),
        decreases w.len() - i,
    {
        out.push(w[i]);
        i = i + 1;
        assert(out@ =~= start + w@.take(i as int));
    }
    assert(w@.take(w@.len() as int) =~= w@);
}

/// Appends the words `ws[lo..hi]` to `out`, which holds `prefix` joined, keeping the join.
pub fn push_joined(
    out: &mut Vec<char>,
    ws: &Vec<Vec<char>>,
    lo: usize,
    hi: usize,
    empty_prefix: bool,
    Ghost(prefix): Ghost<Seq<Seq<char>>>,
)
    requires
        old(out)@ == join_words(prefix),
        empty_prefix == (prefix.len() == 0),
        lo <= hi <= ws.len(),
    ensures
        final(out)@ == join_words(prefix + views(ws@).subrange(lo as int, hi as int)),
{
    let mut i: usize = lo;
    while i < hi
        invariant
            lo <= i <= hi <= ws.len(),
            empty_prefix == (prefix.len() == 0),
            out@ == join_words(prefix + views(ws@).subrange(lo as int, i as int)),
        decreases hi - i,
    {
        let ghost done = prefix + views(ws@).subrange(lo as int, i as int);
        assert(done.len() == prefix.len() + (i - lo));
        if !(empty_prefix && i == lo) {
            out.push(' ');
            extend_chars(out, &ws[i]);
            assert(out@ =~= join_words(done) + seq![' '] + ws@[i as int]@);
        } else {
            assert(done.len() == 0);
            assert(join_words(done) =~= Seq::<char>::empty());
            extend_chars(out, &ws[i]);
            assert(out@ =~= ws@[i as int]@);
        }
        proof {
            lemma_join_push(done, ws@[i as int]@);
            assert(views(ws@)[i as int] == ws@[i as int]@);
            assert(prefix + views(ws@).subrange(lo as int, i + 1) =~= done.push(ws@[i as int]@));
        }
        i = i + 1;
    }
}

/// The first `n` characters of `s`, or all of them when it has fewer.
pub fn take_chars(s: &str, n: usize) -> (r: String)
    ensures
        r@ == if s@.len() <= n {
            s@
        } else {
            s@.take(n as int)
        },
{
    let v = chars_of(s);
    if v.len() <= n {
        assert(v@.subrange(0, v@.len() as int) =~= v@);
        string_of_range(&v, 0, v.len())
    } else {
        string_of_range(&v, 0, n)
    }
}

/// The decimal digits of `n`, without leading zeros.
pub open spec fn decimal_of(n: nat) -> Seq<char>
    decreases n,
{
    if n < 10 {
        seq![digit_of(n)]
    } else {
        decimal_of(n / 10).push(digit_of(n % 10))
    }
}

pub open spec fn digit_of(d: nat) -> char {
    if d == 0 { '0' } else if d == 1 { '1' } else if d == 2 { '2' } else if d == 3 { '3' }
    else if d == 4 { '4' } else if d == 5 { '5' } else if d == 6 { '6' } else if d == 7 { '7' }
    else if d == 8 { '8' } else { '9' }
}

fn digit_char(d: u32) -> (r: char)
    requires
        d < 10,
    ensures
        r == digit_of(d as nat),
{
    if d == 0 { '0' } else if d == 1 { '1' } else if d == 2 { '2' } else if d == 3 { '3' }
    else if d == 4 { '4' } else if d == 5 { '5' } else if d == 6 { '6' } else if d == 7 { '7' }
    else if d == 8 { '8' } else { '9' }
}

/// `n` written in decimal.
pub fn decimal(n: u32) -> (r: String)
    ensures
        r@ == decimal_of(n as nat),
    decreases n,
{
    let d = digit_char(n % 10);
    if n < 10 {
        let mut s = String::new();
        s.push(d);
        assert(s@ =~= seq![digit_of(n as nat)]);
        s
    } else {
        let mut s = decimal(n / 10);
        s.push(d);
        s
    }
}

/// A `String` holding the characters `v[lo..hi]`.
pub fn string_of_range(v: &Vec<char>, lo: usize, hi: usize) -> (r: String)
    requires
        lo <= hi <= v.len(),
    ensures
        r@ == v@.subrange(lo as int, hi as int),
{
    let mut r = String::new();
    let mut i: usize = lo;
    while i < hi
        invariant
            lo <= i <= hi <= v.len(),
            r@ == v@.subrange(lo as int, i as int),
        decreases hi - i,
    {
        r.push(v[i]);
        i = i + 1;
        assert(r@ =~= v@.subrange(lo as int, i as int));
    }
    r
}

/// A `String` holding the characters of `v`.
pub fn string_of(v: &Vec<char>) -> (r: String)
    ensures
        r@ == v@,
{
    let mut r = String::new();
    let mut i: usize = 0;
    while i < v.len()
        invariant
            0 <= i <= v.len(),
            r@ == v@.take(i as int),
        decreases v.len() - i,
    {
        r.push(v[i]);
        i = i + 1;
        assert(r@ =~= v@.take(i as int));
    }
    assert(v@.take(v@.len() as int) =~= v@);
    r
}

} // verus!
