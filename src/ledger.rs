//! Per-contributor ledgers: for each name, a log of source links and a parallel log of
//! summaries, both newline separated, grown by folding `(name, link, summary)` records.
use vstd::prelude::*;
use crate::text::{
    lemma_one_line_has_no_newline, lemma_pieces_len, newline_count, one_line, pieces, single_line,
};

verus! {

/// One contributor's entry: the links and the summaries recorded for the name, each log
/// joined by newlines.
pub struct LedgerEntry {
    pub name: String,
    pub links: String,
    pub summaries: String,
}

/// A `(name, links, summaries)` view of an entry.
pub type EntryView = (Seq<char>, Seq<char>, Seq<char>);

/// A `(name, link, summary)` record.
pub type RecordView = (Seq<char>, Seq<char>, Seq<char>);

impl LedgerEntry {
    pub open spec fn view(&self) -> EntryView {
        (self.name@, self.links@, self.summaries@)
    }
}

/// Entries keyed by name, kept in the order in which each name was first recorded.
pub struct Ledger {
    entries: Vec<LedgerEntry>,
}

/// The position of the entry named `name`.
pub open spec fn entry_index(es: Seq<EntryView>, name: Seq<char>) -> Option<int>
    decreases es.len(),
{
    if es.len() == 0 {
        None
    } else if es.last().0 == name {
        Some(es.len() - 1)
    } else {
        entry_index(es.drop_last(), name)
    }
}

/// Folds one record into the entries. A record with an empty name is not an identity and is
/// left out. The link and the summary are made single-line, each newline becoming a space,
/// so that every log holds one line per record. The first record of a name starts its entry;
/// a later one appends its link and its summary, each after a newline, to the two logs of
/// the entry.
pub open spec fn fold_record(es: Seq<EntryView>, r: RecordView) -> Seq<EntryView> {
    let link = one_line(r.1);
    let summary = one_line(r.2);
    if r.0.len() == 0 {
        es
    } else {
        match entry_index(es, r.0) {
            Some(i) => es.update(
                i,
                (es[i].0, es[i].1 + seq!['\n'] + link, es[i].2 + seq!['\n'] + summary),
            ),
            None => es.push((r.0, link, summary)),
        }
    }
}

/// Folds the records into the entries, in order.
pub open spec fn fold_records(es: Seq<EntryView>, rs: Seq<RecordView>) -> Seq<EntryView>
    decreases rs.len(),
{
    if rs.len() == 0 {
        es
    } else {
        fold_record(fold_records(es, rs.drop_last()), rs.last())
    }
}

pub open spec fn record_views(v: Seq<(String, String, String)>) -> Seq<RecordView> {
    v.map_values(|t: (String, String, String)| (t.0@, t.1@, t.2@))
}

impl View for Ledger {
    type V = Seq<EntryView>;

    closed spec fn view(&self) -> Seq<EntryView> {
        self.entries@.map_values(|e: LedgerEntry| e.view())
    }
}

/// No two entries share a name.
pub open spec fn names_distinct(es: Seq<EntryView>) -> bool {
    forall|i: int, j: int| 0 <= i < j < es.len() ==> es[i].0 != es[j].0
}

impl Ledger {
    pub open spec fn wf(&self) -> bool {
        names_distinct(self@) && logs_parallel(self@)
    }

    pub fn new() -> (r: Ledger)
        ensures
            r@ == Seq::<EntryView>::empty(),
            r.wf(),
    {
        Ledger { entries: Vec::new() }
    }

    /// The number of names in the ledger.
    pub fn len(&self) -> (r: usize)
        ensures
            r == self@.len(),
    {
        self.entries.len()
    }

    pub fn is_empty(&self) -> (r: bool)
        ensures
            r == (self@.len() == 0),
    {
        self.entries.len() == 0
    }

    /// The entry at position `i`, in order of first sighting.
    pub fn entry(&self, i: usize) -> (r: &LedgerEntry)
        requires
            i < self@.len(),
        ensures
            r.view() == self@[i as int],
    {
        &self.entries[i]
    }

    fn find(&self, name: &String) -> (r: Option<usize>)
        ensures
            match r {
                Some(i) => entry_index(self@, name@) == Some(i as int) && i < self@.len()
                    && self@[i as int].0 == name@,
                None => entry_index(self@, name@) is None,
            },
    {
        proof {
            lemma_entry_index_name(self@, name@);
        }
        let mut k: usize = self.entries.len();
        assert(self@.take(k as int) =~= self@);
        while k > 0
            invariant
                k <= self.entries.len(),
                entry_index(self@, name@) == entry_index(self@.take(k as int), name@),
            decreases k,
        {
            assert(self@.take(k as int).drop_last() =~= self@.take(k - 1));
            assert(self@.take(k as int).last() == self@[k - 1]);
            if self.entries[k - 1].name == *name {
                return Some(k - 1);
            }
            k = k - 1;
        }
        None
    }

    /// The links and summaries recorded for `name`.
    pub fn get(&self, name: &String) -> (r: Option<(String, String)>)
        ensures
            match entry_index(self@, name@) {
                Some(i) => r matches Some(p) && p.0@ == self@[i].1 && p.1@ == self@[i].2,
                None => r is None,
            },
    {
        match self.find(name) {
            Some(i) => {
                assert(self@[i as int] == self.entries@[i as int].view());
                Some((self.entries[i].links.clone(), self.entries[i].summaries.clone()))
            },
            None => None,
        }
    }

    /// Records that `name` has the summary `summary` for the item at `link`.
    pub fn record(&mut self, name: String, link: String, summary: String)
        requires
            old(self).wf(),
        ensures
            final(self).wf(),
            final(self)@ == fold_record(old(self)@, (name@, link@, summary@)),
    {
        let ghost old_link = link;
        let ghost old_summary = summary;
        if name.as_str().is_empty() {
            return;
        }
        let link = single_line(link.as_str());
        let summary = single_line(summary.as_str());
        let ghost es = self@;
        proof {
            lemma_fold_record_parallel(es, (name@, old_link@, old_summary@));
        }
        match self.find(&name) {
            Some(i) => {
                let mut links = self.entries[i].links.clone();
                links.push('\n');
                links.append(link.as_str());
                let mut summaries = self.entries[i].summaries.clone();
                summaries.push('\n');
                summaries.append(summary.as_str());
                let ghost e0 = self.entries@;
                assert(es[i as int] == e0[i as int].view());
                self.entries[i] = LedgerEntry { name, links, summaries };
                assert(self.entries@ == e0.update(i as int, self.entries@[i as int]));
                assert(self.entries@[i as int].links@ =~= es[i as int].1 + seq!['\n'] + link@);
                assert(self.entries@[i as int].summaries@ =~= es[i as int].2 + seq!['\n']
                    + summary@);
                proof {
                    lemma_entry_index_name(es, name@);
                    assert(self@ =~= es.update(
                        i as int,
                        (es[i as int].0, es[i as int].1 + seq!['\n'] + link@, es[i as int].2
                            + seq!['\n'] + summary@),
                    ));
                }
            },
            None => {
                self.entries.push(LedgerEntry { name, links: link, summaries: summary });
                proof {
                    lemma_entry_index_absent(es, name@);
                    assert(self@ =~= es.push((name@, link@, summary@)));
                }
            },
        }
    }

    /// Records each of `records`, in order.
    pub fn record_all(&mut self, records: Vec<(String, String, String)>)
        requires
            old(self).wf(),
        ensures
            final(self).wf(),
            final(self)@ == fold_records(old(self)@, record_views(records@)),
    {
        let ghost start = self@;
        let ghost all = records@;
        let ghost rs = record_views(records@);
        let mut rest = records;
        let mut k: usize = 0;
        let n = rest.len();
        while k < n
            invariant
                self.wf(),
                n == rs.len() == all.len(),
                rs == record_views(all),
                k <= n,
                rest@ == all.skip(k as int),
                self@ == fold_records(start, rs.take(k as int)),
            decreases n - k,
        {
            let (name, link, summary) = rest.remove(0);
            assert(all.skip(k as int)[0] == all[k as int]);
            assert(all.skip(k as int).remove(0) =~= all.skip(k + 1));
            assert(rs.take(k + 1).drop_last() =~= rs.take(k as int));
            self.record(name, link, summary);
            k = k + 1;
        }
        assert(rs.take(n as int) =~= rs);
    }
}

/// Why an aggregation produced no report material.
#[derive(Debug, Clone, Copy, PartialEq, Eq, Structural)]
pub enum AggregateError {
    /// Every item failed, or there were none.
    NoEntries,
}

impl AggregateError {
    /// A short description of the error.
    pub fn message(&self) -> (r: String)
        ensures
            r@ == "no entries processed"@,
    {
        match self {
            AggregateError::NoEntries => "no entries processed".to_owned(),
        }
    }
}

/// The records of the items that succeeded, in the order of `results`.
pub open spec fn issue_records(results: Seq<Option<Vec<(String, String, String)>>>) -> Seq<RecordView>
    decreases results.len(),
{
    if results.len() == 0 {
        Seq::empty()
    } else {
        issue_records(results.drop_last()) + match results.last() {
            Some(v) => record_views(v@),
            None => Seq::empty(),
        }
    }
}

/// The records of the commits that succeeded, in the order of `results`.
pub open spec fn commit_records(results: Seq<Option<(String, String, String)>>) -> Seq<RecordView>
    decreases results.len(),
{
    if results.len() == 0 {
        Seq::empty()
    } else {
        commit_records(results.drop_last()) + match results.last() {
            Some(t) => seq![(t.0@, t.1@, t.2@)],
            None => Seq::empty(),
        }
    }
}

proof fn lemma_fold_concat(es: Seq<EntryView>, a: Seq<RecordView>, b: Seq<RecordView>)
    ensures
        fold_records(es, a + b) == fold_records(fold_records(es, a), b),
    decreases b.len(),
{
    if b.len() == 0 {
        assert(a + b =~= a);
    } else {
        lemma_fold_concat(es, a, b.drop_last());
        assert((a + b).drop_last() =~= a + b.drop_last());
        assert((a + b).last() == b.last());
    }
}

/// Folds the per-item results of an aggregation into a new ledger, in the order given (the
/// order in which the items completed). A failed item (`None`) is left out and does not stop
/// the others. The aggregation fails with `NoEntries` exactly when the ledger stays empty,
/// as it does when there are no items or every item failed.
pub fn fold_issue_results(results: Vec<Option<Vec<(String, String, String)>>>) -> (r: Result<
    Ledger,
    AggregateError,
>)
    ensures
        match r {
            Ok(l) => l.wf() && l@ == fold_records(Seq::empty(), issue_records(results@))
                && l@.len() > 0,
            Err(e) => e == AggregateError::NoEntries && fold_records(
                Seq::empty(),
                issue_records(results@),
            ).len() == 0,
        },
        (forall|i: int| 0 <= i < results@.len() ==> #[trigger] results@[i] is None) ==> r is Err,
        (exists|k: int|
            0 <= k < issue_records(results@).len() && (#[trigger] issue_records(results@)[k]).0.len()
                > 0) ==> r is Ok,
{
    let ghost all = results@;
    let mut ledger = Ledger::new();
    let mut rest = results;
    let mut k: usize = 0;
    let n = rest.len();
    while k < n
        invariant
            ledger.wf(),
            n == all.len(),
            k <= n,
            rest@ == all.skip(k as int),
            ledger@ == fold_records(Seq::empty(), issue_records(all.take(k as int))),
            (forall|i: int| 0 <= i < k ==> #[trigger] all[i] is None) ==> ledger@.len() == 0,
        decreases n - k,
    {
        let item = rest.remove(0);
        assert(all.skip(k as int)[0] == all[k as int]);
        assert(all.skip(k as int).remove(0) =~= all.skip(k + 1));
        assert(all.take(k + 1).drop_last() =~= all.take(k as int));
        let ghost before = ledger@;
        match item {
            Some(records) => {
                ledger.record_all(records);
                proof {
                    lemma_fold_concat(
                        Seq::empty(),
                        issue_records(all.take(k as int)),
                        record_views(all[k as int]->0@),
                    );
                }
            },
            None => {
                assert(issue_records(all.take(k + 1)) =~= issue_records(all.take(k as int)));
            },
        }
        k = k + 1;
    }
    assert(all.take(n as int) =~= all);
    proof {
        lemma_fold_grows(Seq::empty(), issue_records(all));
    }
    if ledger.is_empty() {
        Err(AggregateError::NoEntries)
    } else {
        Ok(ledger)
    }
}

/// Folds the per-commit results into `ledger`, in the order given; failed commits (`None`)
/// are left out.
pub fn fold_commit_results(ledger: &mut Ledger, results: Vec<Option<(String, String, String)>>)
    requires
        old(ledger).wf(),
    ensures
        final(ledger).wf(),
        final(ledger)@ == fold_records(old(ledger)@, commit_records(results@)),
{
    let ghost all = results@;
    let ghost start = ledger@;
    let mut rest = results;
    let mut k: usize = 0;
    let n = rest.len();
    while k < n
        invariant
            ledger.wf(),
            n == all.len(),
            k <= n,
            rest@ == all.skip(k as int),
            ledger@ == fold_records(start, commit_records(all.take(k as int))),
        decreases n - k,
    {
        let item = rest.remove(0);
        assert(all.skip(k as int)[0] == all[k as int]);
        assert(all.skip(k as int).remove(0) =~= all.skip(k + 1));
        assert(all.take(k + 1).drop_last() =~= all.take(k as int));
        match item {
            Some((name, link, summary)) => {
                let ghost t = (name@, link@, summary@);
                ledger.record(name, link, summary);
                proof {
                    let prev = commit_records(all.take(k as int));
                    assert(commit_records(all.take(k + 1)) =~= prev.push(t));
                    assert(prev.push(t).drop_last() =~= prev);
                }
            },
            None => {
                assert(commit_records(all.take(k + 1)) =~= commit_records(all.take(k as int)));
            },
        }
        k = k + 1;
    }
    assert(all.take(n as int) =~= all);
}

/// Whether the link log and the summary log of every entry split at newlines into the same
/// number of pieces.
pub open spec fn logs_parallel(es: Seq<EntryView>) -> bool {
    forall|i: int| 0 <= i < es.len() ==> pieces(#[trigger] es[i].1).len() == pieces(es[i].2).len()
}

proof fn lemma_newline_count_concat(a: Seq<char>, b: Seq<char>)
    ensures
        newline_count(a + b) == newline_count(a) + newline_count(b),
    decreases b.len(),
{
    if b.len() == 0 {
        assert(a + b =~= a);
    } else {
        lemma_newline_count_concat(a, b.drop_last());
        assert((a + b).drop_last() =~= a + b.drop_last());
    }
}

/// Folding never removes an entry, and a record with a non-empty name leaves one.
pub proof fn lemma_fold_grows(es: Seq<EntryView>, rs: Seq<RecordView>)
    ensures
        fold_records(es, rs).len() >= es.len(),
        (exists|k: int| 0 <= k < rs.len() && (#[trigger] rs[k]).0.len() > 0) ==> fold_records(
            es,
            rs,
        ).len() > 0,
    decreases rs.len(),
{
    if rs.len() > 0 {
        let p = rs.drop_last();
        let r = rs.last();
        lemma_fold_grows(es, p);
        let prev = fold_records(es, p);
        lemma_entry_index_name(prev, r.0);
        if exists|k: int| 0 <= k < rs.len() && (#[trigger] rs[k]).0.len() > 0 {
            let k = choose|k: int| 0 <= k < rs.len() && (#[trigger] rs[k]).0.len() > 0;
            if k < rs.len() - 1 {
                assert(p[k] == rs[k]);
            }
        }
    }
}

/// A failed item leaves no trace: the records of the results are those of the results
/// without it, so the ledger folded from them is the same.
pub proof fn lemma_failed_item_leaves_no_trace(
    results: Seq<Option<Vec<(String, String, String)>>>,
    i: int,
)
    requires
        0 <= i < results.len(),
        results[i] is None,
    ensures
        issue_records(results) == issue_records(results.remove(i)),
        fold_records(Seq::empty(), issue_records(results)) == fold_records(
            Seq::empty(),
            issue_records(results.remove(i)),
        ),
    decreases results.len(),
{
    if i == results.len() - 1 {
        assert(results.remove(i) =~= results.drop_last());
        assert(issue_records(results) =~= issue_records(results.drop_last()));
    } else {
        lemma_failed_item_leaves_no_trace(results.drop_last(), i);
        assert(results.remove(i).drop_last() =~= results.drop_last().remove(i));
        assert(results.remove(i).last() == results.last());
    }
}

/// A failed commit leaves no trace: the records of the results are those of the results
/// without it.
pub proof fn lemma_failed_commit_leaves_no_trace(results: Seq<Option<(String, String, String)>>, i: int)
    requires
        0 <= i < results.len(),
        results[i] is None,
    ensures
        commit_records(results) == commit_records(results.remove(i)),
    decreases results.len(),
{
    if i == results.len() - 1 {
        assert(results.remove(i) =~= results.drop_last());
        assert(commit_records(results) =~= commit_records(results.drop_last()));
    } else {
        lemma_failed_commit_leaves_no_trace(results.drop_last(), i);
        assert(results.remove(i).drop_last() =~= results.drop_last().remove(i));
        assert(results.remove(i).last() == results.last());
    }
}

proof fn lemma_fold_record_parallel(es: Seq<EntryView>, r: RecordView)
    requires
        logs_parallel(es),
    ensures
        logs_parallel(fold_record(es, r)),
{
    let link = one_line(r.1);
    let summary = one_line(r.2);
    lemma_one_line_has_no_newline(r.1);
    lemma_one_line_has_no_newline(r.2);
    let next = fold_record(es, r);
    assert forall|i: int| 0 <= i < next.len() implies pieces(#[trigger] next[i].1).len()
        == pieces(next[i].2).len() by {
        lemma_pieces_len(next[i].1);
        lemma_pieces_len(next[i].2);
        if r.0.len() > 0 {
            match entry_index(es, r.0) {
                Some(j) => {
                    lemma_entry_index_name(es, r.0);
                    lemma_pieces_len(es[j].1);
                    lemma_pieces_len(es[j].2);
                    if i == j {
                        lemma_newline_count_concat(es[j].1 + seq!['\n'], link);
                        lemma_newline_count_concat(es[j].1, seq!['\n']);
                        lemma_newline_count_concat(es[j].2 + seq!['\n'], summary);
                        lemma_newline_count_concat(es[j].2, seq!['\n']);
                        assert(seq!['\n'].drop_last() =~= Seq::<char>::empty());
                        assert(seq!['\n'].last() == '\n');
                        assert(newline_count(Seq::<char>::empty()) == 0);
                        assert(newline_count(seq!['\n']) == 1);
                    } else {
                        lemma_pieces_len(es[i].1);
                        lemma_pieces_len(es[i].2);
                    }
                },
                None => {
                    if i == es.len() {
                        lemma_pieces_len(link);
                        lemma_pieces_len(summary);
                    }
                },
            }
        }
    }
}

/// The two logs of every entry grow in step: after any sequence of folds, splitting an
/// entry's links at newlines gives as many pieces as splitting its summaries.
pub proof fn lemma_logs_stay_parallel(es: Seq<EntryView>, rs: Seq<RecordView>)
    requires
        logs_parallel(es),
    ensures
        logs_parallel(fold_records(es, rs)),
    decreases rs.len(),
{
    if rs.len() > 0 {
        lemma_logs_stay_parallel(es, rs.drop_last());
        lemma_fold_record_parallel(fold_records(es, rs.drop_last()), rs.last());
    }
}

proof fn lemma_entry_index_name(es: Seq<EntryView>, name: Seq<char>)
    ensures
        entry_index(es, name) matches Some(i) ==> 0 <= i < es.len() && es[i].0 == name,
    decreases es.len(),
{
    if es.len() > 0 && es.last().0 != name {
        lemma_entry_index_name(es.drop_last(), name);
    }
}

proof fn lemma_entry_index_absent(es: Seq<EntryView>, name: Seq<char>)
    ensures
        entry_index(es, name) is None ==> forall|i: int| 0 <= i < es.len() ==> es[i].0 != name,
    decreases es.len(),
{
    if es.len() > 0 && es.last().0 != name {
        lemma_entry_index_absent(es.drop_last(), name);
        assert forall|i: int| 0 <= i < es.len() - 1 implies es[i] == es.drop_last()[i] by {}
    }
}

} // verus!
