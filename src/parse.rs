//! Tolerant decoding of flat `key -> string` objects from chat replies that are meant to
//! be JSON but may not be.
use vstd::prelude::*;
use crate::text::{chars_of, is_space, is_ws, string_of_range};

verus! {

/// What a text holds as JSON: `None` when it is not JSON; `Some(None)` when it is JSON but
/// not an object; else the object's entries in the order of the JSON map, each value given
/// as `Some(text)` when it is a string and as `None` otherwise.
pub uninterp spec fn json_fields_of(s: Seq<char>) -> Option<Option<Seq<(Seq<char>, Option<Seq<char>>)>>>;

pub open spec fn field_views(v: Seq<(String, Option<String>)>) -> Seq<(Seq<char>, Option<Seq<char>>)> {
    v.map_values(|f: (String, Option<String>)| (f.0@, match f.1 { Some(t) => Some(t@), None => None }))
}

/// Relies on `serde_json::from_str::<serde_json::Value>` and `Value::as_str`: parses the
/// text as JSON and, for an object, hands out its entries with string values as text.
#[verifier::external_body]
fn json_fields(input: &str) -> (r: Option<Option<Vec<(String, Option<String>)>>>)
    ensures
        match r {
            None => json_fields_of(input@) is None,
            Some(None) => json_fields_of(input@) == Some(
                None::<Seq<(Seq<char>, Option<Seq<char>>)>>,
            ),
            Some(Some(v)) => json_fields_of(input@) == Some(Some(field_views(v@))),
        },
{
    match serde_json::from_str::<serde_json::Value>(input) {
        Err(_) => None,
        Ok(serde_json::Value::Object(m)) => Some(
            Some(m.into_iter().map(|(k, v)| (k, v.as_str().map(String::from))).collect()),
        ),
        Ok(_) => Some(None),
    }
}

/// Why no summary could be decoded.
#[derive(Debug, Clone, Copy, PartialEq, Eq, Structural)]
pub enum ParseError {
    /// The text is not a JSON object and holds no `"key": "value"` pair.
    NoFields,
    /// The text is not JSON and at least one of the report fields is missing from it.
    MissingFields,
}

/// The position of the first double quote in `s` at or after `j`.
pub open spec fn next_quote(s: Seq<char>, j: int) -> Option<int>
    decreases s.len() - j,
{
    if j < 0 || j >= s.len() {
        None
    } else if s[j] == '"' {
        Some(j)
    } else {
        next_quote(s, j + 1)
    }
}

/// The first position at or after `j` that is not whitespace, or the end of `s`.
pub open spec fn skip_ws(s: Seq<char>, j: int) -> int
    decreases s.len() - j,
{
    if j < 0 || j >= s.len() {
        j
    } else if is_ws(s[j]) {
        skip_ws(s, j + 1)
    } else {
        j
    }
}

/// The quoted value that starts at `j`, after `:` and optional whitespace:
/// `(value, end)` where `end` is just past its closing quote.
pub open spec fn value_after_colon(s: Seq<char>, j: int) -> Option<(Seq<char>, int)> {
    if 0 <= j < s.len() && s[j] == ':' {
        let k = skip_ws(s, j + 1);
        if k < s.len() && s[k] == '"' {
            match next_quote(s, k + 1) {
                Some(q) => Some((s.subrange(k + 1, q), q + 1)),
                None => None,
            }
        } else {
            None
        }
    } else {
        None
    }
}

/// A pair `"key": "value"` with a non-empty key that starts at `i`: `(key, value, end)`.
pub open spec fn pair_at(s: Seq<char>, i: int) -> Option<(Seq<char>, Seq<char>, int)> {
    if 0 <= i < s.len() && s[i] == '"' {
        match next_quote(s, i + 1) {
            Some(q) => if q > i + 1 {
                match value_after_colon(s, q + 1) {
                    Some((v, e)) => Some((s.subrange(i + 1, q), v, e)),
                    None => None,
                }
            } else {
                None
            },
            None => None,
        }
    } else {
        None
    }
}

/// All pairs `"key": "value"` in `s` from position `i` on, found left to right, each search
/// going on after the end of the previous pair.
pub open spec fn pairs_from(s: Seq<char>, i: int) -> Seq<(Seq<char>, Seq<char>)>
    decreases s.len() - i,
{
    if i < 0 || i >= s.len() {
        Seq::empty()
    } else {
        match pair_at(s, i) {
            Some((k, v, e)) => if i < e <= s.len() {
                seq![(k, v)] + pairs_from(s, e)
            } else {
                Seq::empty()
            },
            None => pairs_from(s, i + 1),
        }
    }
}

/// The value of the first `"key": "value"` for the given key at or after position `i`.
pub open spec fn keyed_value_from(s: Seq<char>, key: Seq<char>, i: int) -> Option<Seq<char>>
    decreases s.len() - i,
{
    if i < 0 || i >= s.len() {
        None
    } else {
        match keyed_value_at(s, key, i) {
            Some(v) => Some(v),
            None => keyed_value_from(s, key, i + 1),
        }
    }
}

/// The value of `"key": "value"` for the given key when such a pair starts at `i`.
pub open spec fn keyed_value_at(s: Seq<char>, key: Seq<char>, i: int) -> Option<Seq<char>> {
    let n = key.len();
    if 0 <= i && i + n + 2 <= s.len() && s[i] == '"' && s.subrange(i + 1, i + 1 + n) == key
        && s[i + 1 + n] == '"' {
        match value_after_colon(s, i + n + 2) {
            Some((v, e)) => Some(v),
            None => None,
        }
    } else {
        None
    }
}

pub open spec fn pair_views(v: Seq<(String, String)>) -> Seq<(Seq<char>, Seq<char>)> {
    v.map_values(|p: (String, String)| (p.0@, p.1@))
}

/// The entries of a JSON object whose values are strings, in order.
pub open spec fn string_fields(fs: Seq<(Seq<char>, Option<Seq<char>>)>) -> Seq<(Seq<char>, Seq<char>)>
    decreases fs.len(),
{
    if fs.len() == 0 {
        Seq::empty()
    } else {
        let prev = string_fields(fs.drop_last());
        match fs.last().1 {
            Some(v) => prev.push((fs.last().0, v)),
            None => prev,
        }
    }
}

/// What the open parser gives for `s`: the string entries of a JSON object; for any other
/// text, the `"key": "value"` pairs found in it, or `NoFields` when there are none.
pub open spec fn issue_summary_of(s: Seq<char>) -> Result<Seq<(Seq<char>, Seq<char>)>, ParseError> {
    match json_fields_of(s) {
        Some(Some(fs)) => Ok(string_fields(fs)),
        _ => {
            let ps = pairs_from(s, 0);
            if ps.len() == 0 {
                Err(ParseError::NoFields)
            } else {
                Ok(ps)
            }
        },
    }
}

/// The position of the first double quote at or after `j`.
fn find_quote(s: &Vec<char>, j: usize) -> (r: Option<usize>)
    ensures
        match r {
            Some(q) => next_quote(s@, j as int) == Some(q as int),
            None => next_quote(s@, j as int) is None,
        },
        r matches Some(q) ==> j <= q < s.len(),
{
    let mut k: usize = j;
    while k < s.len()
        invariant
            j <= k,
            next_quote(s@, j as int) == next_quote(s@, k as int),
        decreases s.len() - k,
    {
        if s[k] == '"' {
            return Some(k);
        }
        k = k + 1;
    }
    None
}

/// The first position at or after `j` that is not whitespace.
fn skip_spaces(s: &Vec<char>, j: usize) -> (r: usize)
    requires
        j <= s.len(),
    ensures
        r == skip_ws(s@, j as int),
        j <= r <= s.len(),
{
    let mut k: usize = j;
    while k < s.len() && is_space(s[k])
        invariant
            j <= k <= s.len(),
            skip_ws(s@, j as int) == skip_ws(s@, k as int),
        decreases s.len() - k,
    {
        k = k + 1;
    }
    k
}

/// The quoted value after a colon at `j`, with the position just past its closing quote.
fn value_at(s: &Vec<char>, j: usize) -> (r: Option<(String, usize)>)
    requires
        j <= s.len(),
    ensures
        match value_after_colon(s@, j as int) {
            Some((v, e)) => r matches Some(p) && p.0@ == v && p.1 == e && j < e <= s.len(),
            None => r is None,
        },
{
    if j < s.len() && s[j] == ':' {
        let k = skip_spaces(s, j + 1);
        if k < s.len() && s[k] == '"' {
            match find_quote(s, k + 1) {
                Some(q) => Some((string_of_range(s, k + 1, q), q + 1)),
                None => None,
            }
        } else {
            None
        }
    } else {
        None
    }
}

/// The pair `"key": "value"` that starts at `i`, if any.
fn pair_starting(s: &Vec<char>, i: usize) -> (r: Option<(String, String, usize)>)
    requires
        i < s.len(),
    ensures
        match pair_at(s@, i as int) {
            Some((k, v, e)) => r matches Some(p) && p.0@ == k && p.1@ == v && p.2 == e && i < e
                <= s.len(),
            None => r is None,
        },
{
    if s[i] == '"' {
        match find_quote(s, i + 1) {
            Some(q) => {
                if q > i + 1 {
                    match value_at(s, q + 1) {
                        Some((v, e)) => Some((string_of_range(s, i + 1, q), v, e)),
                        None => None,
                    }
                } else {
                    None
                }
            },
            None => None,
        }
    } else {
        None
    }
}

/// Every `"key": "value"` pair in `s`, left to right.
fn scan_pairs(s: &Vec<char>) -> (r: Vec<(String, String)>)
    ensures
        pair_views(r@) == pairs_from(s@, 0),
{
    let mut r: Vec<(String, String)> = Vec::new();
    let mut i: usize = 0;
    while i < s.len()
        invariant
            i <= s.len(),
            pair_views(r@) + pairs_from(s@, i as int) == pairs_from(s@, 0),
        decreases s.len() - i,
    {
        match pair_starting(s, i) {
            Some((k, v, e)) => {
                let ghost before = r@;
                r.push((k, v));
                assert(pair_views(r@) =~= pair_views(before).push((k@, v@)));
                assert(pair_views(r@) + pairs_from(s@, e as int) =~= pair_views(before) + (
                seq![(k@, v@)] + pairs_from(s@, e as int)));
                i = e;
            },
            None => {
                i = i + 1;
            },
        }
    }
    assert(pair_views(r@) + pairs_from(s@, i as int) =~= pair_views(r@));
    r
}

/// The string entries of parsed JSON fields, in order.
fn keep_string_fields(fs: &Vec<(String, Option<String>)>) -> (r: Vec<(String, String)>)
    ensures
        pair_views(r@) == string_fields(field_views(fs@)),
{
    let mut r: Vec<(String, String)> = Vec::new();
    let ghost all = field_views(fs@);
    let mut k: usize = 0;
    while k < fs.len()
        invariant
            k <= fs.len(),
            all == field_views(fs@),
            pair_views(r@) == string_fields(all.take(k as int)),
        decreases fs.len() - k,
    {
        assert(all.take(k + 1).drop_last() =~= all.take(k as int));
        assert(all[k as int].0 == fs@[k as int].0@);
        let ghost before = r@;
        match &fs[k].1 {
            Some(v) => {
                r.push((fs[k].0.clone(), v.clone()));
                assert(pair_views(r@) =~= pair_views(before).push((all[k as int].0, v@)));
            },
            None => {},
        }
        k = k + 1;
    }
    assert(all.take(fs.len() as int) =~= all);
    r
}

/// Decodes a flat summary `{"name": "text", ...}`. Text that is a JSON object gives its
/// entries whose values are strings, in order; other text gives the `"key": "value"` pairs
/// found in it, left to right, and fails with `NoFields` when there are none.
pub fn parse_issue_summary_from_json(input: &str) -> (r: Result<Vec<(String, String)>, ParseError>)
    ensures
        match issue_summary_of(input@) {
            Ok(ps) => r matches Ok(v) && pair_views(v@) == ps,
            Err(e) => r == Err::<Vec<(String, String)>, ParseError>(e),
        },
{
    match json_fields(input) {
        Some(Some(fs)) => Ok(keep_string_fields(&fs)),
        _ => {
            let s = chars_of(input);
            let ps = scan_pairs(&s);
            if ps.len() == 0 {
                Err(ParseError::NoFields)
            } else {
                Ok(ps)
            }
        },
    }
}


/// The five fields of a correlation report, in the order they are joined.
pub open spec fn report_key(i: int) -> Seq<char> {
    if i == 0 {
        "impactful"@
    } else if i == 1 {
        "alignment"@
    } else if i == 2 {
        "patterns"@
    } else if i == 3 {
        "synergy"@
    } else {
        "significance"@
    }
}

pub const REPORT_FIELDS: usize = 5;

fn report_key_str(i: usize) -> (r: &'static str)
    requires
        i < REPORT_FIELDS,
    ensures
        r@ == report_key(i as int),
{
    if i == 0 {
        "impactful"
    } else if i == 1 {
        "alignment"
    } else if i == 2 {
        "patterns"
    } else if i == 3 {
        "synergy"
    } else {
        "significance"
    }
}

/// The value of the first entry named `key`: `Some(Some(text))` for a string,
/// `Some(None)` for another value, `None` when there is no such entry.
pub open spec fn field_lookup(fs: Seq<(Seq<char>, Option<Seq<char>>)>, key: Seq<char>) -> Option<Option<Seq<char>>>
    decreases fs.len(),
{
    if fs.len() == 0 {
        None
    } else if fs[0].0 == key {
        Some(fs[0].1)
    } else {
        field_lookup(fs.drop_first(), key)
    }
}

/// Texts joined by single spaces, skipping absent ones; no space follows an empty start.
pub open spec fn join_present(vs: Seq<Option<Seq<char>>>) -> Seq<char>
    decreases vs.len(),
{
    if vs.len() == 0 {
        Seq::empty()
    } else {
        let prev = join_present(vs.drop_last());
        match vs.last() {
            Some(v) => if prev.len() == 0 {
                v
            } else {
                prev + seq![' '] + v
            },
            None => prev,
        }
    }
}

/// The string value of each report field in a JSON object, absent when it is not a string.
pub open spec fn object_report_values(fs: Seq<(Seq<char>, Option<Seq<char>>)>) -> Seq<Option<Seq<char>>> {
    Seq::new(
        REPORT_FIELDS as nat,
        |i: int|
            match field_lookup(fs, report_key(i)) {
                Some(Some(v)) => Some(v),
                _ => None,
            },
    )
}

/// The first value found in the text for each report field.
pub open spec fn scanned_report_values(s: Seq<char>) -> Seq<Option<Seq<char>>> {
    Seq::new(REPORT_FIELDS as nat, |i: int| keyed_value_from(s, report_key(i), 0))
}

/// What the report parser gives for `s`. A JSON object gives its string-valued report fields
/// joined by spaces; other JSON gives the empty text; text that is not JSON gives the first
/// value of each field found by pattern, joined, or `MissingFields` when one is not found.
pub open spec fn report_of(s: Seq<char>) -> Result<Seq<char>, ParseError> {
    match json_fields_of(s) {
        Some(Some(fs)) => Ok(join_present(object_report_values(fs))),
        Some(None) => Ok(Seq::empty()),
        None => {
            let vs = scanned_report_values(s);
            if forall|i: int| 0 <= i < REPORT_FIELDS ==> (#[trigger] vs[i]) is Some {
                Ok(join_present(vs))
            } else {
                Err(ParseError::MissingFields)
            }
        },
    }
}

/// Whether `s[i..]` starts with `"key"`, key quoted.
fn quoted_key_at(s: &Vec<char>, key: &Vec<char>, i: usize) -> (r: bool)
    requires
        i < s.len(),
    ensures
        r == (i + key.len() + 2 <= s.len() && s@[i as int] == '"' && s@.subrange(
            i + 1,
            i + 1 + key.len(),
        ) == key@ && s@[i + 1 + key.len()] == '"'),
{
    let n = key.len();
    if n > s.len() - i || s.len() - i - n < 2 || s[i] != '"' || s[i + 1 + n] != '"' {
        return false;
    }
    let mut j: usize = 0;
    while j < n
        invariant
            j <= n == key.len(),
            i + n + 2 <= s.len(),
            forall|t: int| 0 <= t < j ==> s@[i + 1 + t] == key@[t],
        decreases n - j,
    {
        if s[i + 1 + j] != key[j] {
            assert(s@.subrange(i + 1, i + 1 + n)[j as int] != key@[j as int]);
            return false;
        }
        j = j + 1;
    }
    assert(s@.subrange(i + 1, i + 1 + n) =~= key@);
    true
}

/// The value of the first `"key": "value"` pair for `key`.
fn find_keyed_value(s: &Vec<char>, key: &Vec<char>) -> (r: Option<String>)
    ensures
        match keyed_value_from(s@, key@, 0) {
            Some(v) => r matches Some(t) && t@ == v,
            None => r is None,
        },
{
    let mut i: usize = 0;
    while i < s.len()
        invariant
            i <= s.len(),
            keyed_value_from(s@, key@, 0) == keyed_value_from(s@, key@, i as int),
        decreases s.len() - i,
    {
        if quoted_key_at(s, key, i) {
            match value_at(s, i + key.len() + 2) {
                Some((v, _)) => {
                    return Some(v);
                },
                None => {},
            }
        }
        i = i + 1;
    }
    None
}

/// The first entry named `key`, as `field_lookup` gives it.
fn lookup_field(fs: &Vec<(String, Option<String>)>, key: &str) -> (r: Option<Option<String>>)
    ensures
        match field_lookup(field_views(fs@), key@) {
            Some(Some(v)) => r matches Some(Some(t)) && t@ == v,
            Some(None) => r matches Some(None),
            None => r is None,
        },
{
    let key_s = key.to_owned();
    let ghost all = field_views(fs@);
    let mut k: usize = 0;
    assert(all.skip(0) =~= all);
    while k < fs.len()
        invariant
            k <= fs.len(),
            all == field_views(fs@),
            key_s@ == key@,
            field_lookup(all, key@) == field_lookup(all.skip(k as int), key@),
        decreases fs.len() - k,
    {
        assert(all.skip(k as int)[0] == all[k as int]);
        assert(all.skip(k as int).drop_first() =~= all.skip(k + 1));
        if fs[k].0 == key_s {
            return match &fs[k].1 {
                Some(v) => Some(Some(v.clone())),
                None => Some(None),
            };
        }
        k = k + 1;
    }
    None
}

/// Appends `v` to `out`, with a space between when `out` is not empty.
fn push_present(out: &mut String, v: &String)
    ensures
        final(out)@ == if old(out)@.len() == 0 {
            v@
        } else {
            old(out)@ + seq![' '] + v@
        },
{
    if !out.as_str().is_empty() {
        out.push(' ');
    }
    out.append(v.as_str());
    assert(final(out)@ =~= if old(out)@.len() == 0 {
        v@
    } else {
        old(out)@ + seq![' '] + v@
    });
}

/// Decodes the five-field correlation report and joins its fields, in the order
/// `impactful, alignment, patterns, synergy, significance`, by single spaces. A JSON object
/// gives its string-valued fields; other JSON gives the empty text; text that is not JSON
/// is searched for each field by pattern and fails with `MissingFields` unless all five
/// are found.
pub fn parse_summary_from_raw_json(input: &str) -> (r: Result<String, ParseError>)
    ensures
        match report_of(input@) {
            Ok(t) => r matches Ok(v) && v@ == t,
            Err(e) => r == Err::<String, ParseError>(e),
        },
{
    match json_fields(input) {
        Some(Some(fs)) => {
            let ghost vs = object_report_values(field_views(fs@));
            let mut out = String::new();
            let mut i: usize = 0;
            while i < REPORT_FIELDS
                invariant
                    i <= REPORT_FIELDS,
                    vs == object_report_values(field_views(fs@)),
                    out@ == join_present(vs.take(i as int)),
                decreases REPORT_FIELDS - i,
            {
                assert(vs.take(i + 1).drop_last() =~= vs.take(i as int));
                match lookup_field(&fs, report_key_str(i)) {
                    Some(Some(v)) => {
                        push_present(&mut out, &v);
                    },
                    _ => {},
                }
                i = i + 1;
            }
            assert(vs.take(REPORT_FIELDS as int) =~= vs);
            Ok(out)
        },
        Some(None) => Ok(String::new()),
        None => {
            let s = chars_of(input);
            let ghost vs = scanned_report_values(input@);
            let mut out = String::new();
            let mut i: usize = 0;
            while i < REPORT_FIELDS
                invariant
                    i <= REPORT_FIELDS,
                    s@ == input@,
                    json_fields_of(input@) is None,
                    vs == scanned_report_values(input@),
                    out@ == join_present(vs.take(i as int)),
                    forall|j: int| 0 <= j < i ==> (#[trigger] vs[j]) is Some,
                decreases REPORT_FIELDS - i,
            {
                assert(vs.take(i + 1).drop_last() =~= vs.take(i as int));
                let key = chars_of(report_key_str(i));
                match find_keyed_value(&s, &key) {
                    Some(v) => {
                        push_present(&mut out, &v);
                    },
                    None => {
                        assert(vs[i as int] is None);
                        return Err(ParseError::MissingFields);
                    },
                }
                i = i + 1;
            }
            assert(vs.take(REPORT_FIELDS as int) =~= vs);
            Ok(out)
        },
    }
}

} // verus!
