//! Scoring search quality against a gold file: which cases are read from it,
//! whether a search found the expected row within the first k results, the
//! tallies, and the Markdown report.
use vstd::prelude::*;

use crate::csv::CsvRecord;
use crate::text::{str_concat, contains, decimal, occurs_in, owned, push_char, str_eq};

verus! {

/// One ranked search result, by the fields that scoring reads.
#[derive(Debug, Clone)]
pub struct SearchResult {
    /// The name of the file that the row comes from.
    pub file_name: String,
    /// The text of the row.
    pub row_text: String,
}

/// The result at rank `j` is the expected one: it comes from `file` and its text holds `sub`.
pub open spec fn is_expected(r: SearchResult, file: Seq<char>, sub: Seq<char>) -> bool {
    r.file_name@ == file && occurs_in(r.row_text@, sub)
}

/// One of the first `k` results is the expected one.
pub open spec fn hit_spec(results: Seq<SearchResult>, file: Seq<char>, sub: Seq<char>, k: int) -> bool {
    exists|j: int| 0 <= j < k && j < results.len() && #[trigger] is_expected(results[j], file, sub)
}

/// Whether one of the first `k` results comes from `expected_file` and holds
/// `expected_substring` in its text.
pub fn hit(results: &[SearchResult], expected_file: &str, expected_substring: &str, k: usize) -> (found: bool)
    ensures
        found == hit_spec(results@, expected_file@, expected_substring@, k as int),
{
    let n = if k < results.len() {
        k
    } else {
        results.len()
    };
    for j in 0..n
        invariant
            n <= k,
            n <= results@.len(),
            forall|l: int|
                0 <= l < j ==> !#[trigger] is_expected(
                    results@[l],
                    expected_file@,
                    expected_substring@,
                ),
    {
        let r = &results[j];
        if str_eq(r.file_name.as_str(), expected_file) && contains(
            r.row_text.as_str(),
            expected_substring,
        ) {
            assert(is_expected(results@[j as int], expected_file@, expected_substring@));
            return true;
        }
    }
    false
}

/// A hit within the first `k1` results is a hit within the first `k2 >= k1`.
pub proof fn law_hit_monotone(
    results: Seq<SearchResult>,
    file: Seq<char>,
    sub: Seq<char>,
    k1: int,
    k2: int,
)
    requires
        k1 <= k2,
    ensures
        hit_spec(results, file, sub, k1) ==> hit_spec(results, file, sub, k2),
{
    if hit_spec(results, file, sub, k1) {
        let j = choose|j: int|
            0 <= j < k1 && j < results.len() && #[trigger] is_expected(results[j], file, sub);
        assert(is_expected(results[j], file, sub));
    }
}

/// `Y` for a hit, `N` for a miss.
pub open spec fn yn_spec(v: bool) -> Seq<char> {
    if v {
        "Y"@
    } else {
        "N"@
    }
}

/// `Y` for a hit, `N` for a miss.
pub fn yn(v: bool) -> (s: &'static str)
    ensures
        s@ == yn_spec(v),
{
    if v {
        "Y"
    } else {
        "N"
    }
}

/// `s` with each `|` written `\|`, so that it stays inside one table cell.
pub open spec fn escape_md_spec(s: Seq<char>) -> Seq<char>
    decreases s.len(),
{
    if s.len() == 0 {
        seq![]
    } else {
        let prev = escape_md_spec(s.drop_last());
        if s.last() == '|' {
            prev + seq!['\\', '|']
        } else {
            prev.push(s.last())
        }
    }
}

/// How many `|` characters `s` holds.
pub open spec fn count_bars(s: Seq<char>) -> nat
    decreases s.len(),
{
    if s.len() == 0 {
        0
    } else {
        count_bars(s.drop_last()) + if s.last() == '|' {
            1nat
        } else {
            0nat
        }
    }
}

/// `s` with each `\|` read back as `|`, taken from the end.
pub open spec fn unescape_md_spec(s: Seq<char>) -> Seq<char>
    decreases s.len(),
{
    if s.len() == 0 {
        seq![]
    } else if s.len() >= 2 && s.last() == '|' && s[s.len() - 2] == '\\' {
        unescape_md_spec(s.subrange(0, s.len() - 2)).push('|')
    } else {
        unescape_md_spec(s.drop_last()).push(s.last())
    }
}

/// Escaping adds one character per `|`, and reading `\|` back as `|` undoes it.
pub proof fn law_escape_md(s: Seq<char>)
    ensures
        escape_md_spec(s).len() == s.len() + count_bars(s),
        unescape_md_spec(escape_md_spec(s)) == s,
    decreases s.len(),
{
    if s.len() > 0 {
        let p = s.drop_last();
        law_escape_md(p);
        let e = escape_md_spec(s);
        let ep = escape_md_spec(p);
        if s.last() == '|' {
            assert(e =~= ep + seq!['\\', '|']);
            assert(e.subrange(0, e.len() - 2) =~= ep);
        } else {
            assert(e =~= ep.push(s.last()));
            assert(e.drop_last() =~= ep);
        }
        assert(p.push(s.last()) =~= s);
    }
}

/// `s` with each `\|` replaced by `|`, matches taken from the start without
/// overlap, as `str::replace` does.
pub open spec fn replace_escaped_bars(s: Seq<char>) -> Seq<char>
    decreases s.len(),
{
    if s.len() >= 2 && s[0] == '\\' && s[1] == '|' {
        seq!['|'] + replace_escaped_bars(s.skip(2))
    } else if s.len() >= 1 {
        seq![s[0]] + replace_escaped_bars(s.skip(1))
    } else {
        seq![]
    }
}

proof fn lemma_escape_concat(a: Seq<char>, b: Seq<char>)
    ensures
        escape_md_spec(a + b) == escape_md_spec(a) + escape_md_spec(b),
    decreases b.len(),
{
    if b.len() == 0 {
        assert(a + b =~= a);
        assert(escape_md_spec(b) =~= seq![]);
        assert(escape_md_spec(a) + escape_md_spec(b) =~= escape_md_spec(a));
    } else {
        let ab = a + b;
        lemma_escape_concat(a, b.drop_last());
        assert(ab.drop_last() =~= a + b.drop_last());
        assert(ab.last() == b.last());
        if b.last() == '|' {
            assert(escape_md_spec(ab) =~= escape_md_spec(a) + escape_md_spec(b));
        } else {
            assert(escape_md_spec(ab) =~= escape_md_spec(a) + escape_md_spec(b));
        }
    }
}

proof fn lemma_escape_front(c: char, r: Seq<char>)
    ensures
        escape_md_spec(seq![c] + r) == (if c == '|' {
            seq!['\\', '|']
        } else {
            seq![c]
        }) + escape_md_spec(r),
{
    lemma_escape_concat(seq![c], r);
    let one = seq![c];
    assert(one.drop_last() =~= seq![]);
    assert(escape_md_spec(seq![]) =~= seq![]);
    if c == '|' {
        assert(escape_md_spec(one) =~= seq!['\\', '|']);
    } else {
        assert(escape_md_spec(one) =~= seq![c]);
    }
}

proof fn lemma_escape_first_not_bar(t: Seq<char>)
    requires
        t.len() > 0,
    ensures
        escape_md_spec(t).len() > 0,
        escape_md_spec(t)[0] != '|',
{
    let r = t.drop_first();
    assert(seq![t[0]] + r =~= t);
    lemma_escape_front(t[0], r);
}

/// Replacing every `\|` of an escaped text by `|` gives the text back, and
/// every `|` of an escaped text comes right after a `\`.
pub proof fn law_escape_md_replace(s: Seq<char>)
    ensures
        replace_escaped_bars(escape_md_spec(s)) == s,
        forall|k: int|
            0 <= k < escape_md_spec(s).len() && #[trigger] escape_md_spec(s)[k] == '|' ==> k >= 1
                && escape_md_spec(s)[k - 1] == '\\',
    decreases s.len(),
{
    lemma_bars_follow_backslash(s);
    if s.len() > 0 {
        let c = s[0];
        let r = s.drop_first();
        assert(seq![c] + r =~= s);
        lemma_escape_front(c, r);
        law_escape_md_replace(r);
        let e = escape_md_spec(s);
        let er = escape_md_spec(r);
        if c == '|' {
            assert(e =~= seq!['\\', '|'] + er);
            assert(e.skip(2) =~= er);
        } else {
            assert(e =~= seq![c] + er);
            if er.len() > 0 {
                lemma_escape_first_not_bar(r);
            }
            assert(e.skip(1) =~= er);
            assert(seq![c] + r =~= s);
        }
    } else {
        assert(escape_md_spec(s) =~= seq![]);
    }
}

proof fn lemma_bars_follow_backslash(s: Seq<char>)
    ensures
        forall|k: int|
            0 <= k < escape_md_spec(s).len() && #[trigger] escape_md_spec(s)[k] == '|' ==> k >= 1
                && escape_md_spec(s)[k - 1] == '\\',
    decreases s.len(),
{
    if s.len() > 0 {
        let p = s.drop_last();
        lemma_bars_follow_backslash(p);
        let e = escape_md_spec(s);
        let ep = escape_md_spec(p);
        assert forall|k: int| 0 <= k < e.len() && #[trigger] e[k] == '|' implies k >= 1 && e[k - 1]
            == '\\' by {
            if k < ep.len() {
                assert(e[k] == ep[k]);
                assert(ep[k] == '|');
                assert(e[k - 1] == ep[k - 1]);
            }
        }
    }
}

/// `s` with each `|` written `\|`.
pub fn escape_md(s: &str) -> (out: String)
    ensures
        out@ == escape_md_spec(s@),
{
    let cs = crate::text::chars_of(s);
    let mut out = String::new();
    let n = cs.len();
    for i in 0..n
        invariant
            n == cs@.len(),
            cs@ == s@,
            out@ == escape_md_spec(s@.take(i as int)),
    {
        assert(s@.take(i + 1).drop_last() =~= s@.take(i as int));
        if cs[i] == '|' {
            push_char(&mut out, '\\');
            push_char(&mut out, '|');
            assert(out@ =~= escape_md_spec(s@.take(i + 1)));
        } else {
            push_char(&mut out, cs[i]);
            assert(out@ =~= escape_md_spec(s@.take(i + 1)));
        }
    }
    assert(s@.take(n as int) =~= s@);
    out
}

/// Why an evaluation cannot run.
#[derive(Debug, Clone)]
pub enum EvalError {
    /// The gold file holds no case.
    EmptyGold,
    /// A case lacks a column that it needs.
    MissingField(String),
}

impl EvalError {
    /// The error's message.
    pub fn message(&self) -> (s: String)
        ensures
            match self {
                EvalError::EmptyGold => s@ == "gold file is empty"@,
                EvalError::MissingField(k) => s@ == "missing field: "@ + k@,
            },
    {
        match self {
            EvalError::EmptyGold => owned("gold file is empty"),
            EvalError::MissingField(k) => str_concat("missing field: ", k.as_str()),
        }
    }
}

/// The value of column `key`, which the record must have.
pub fn required(record: &CsvRecord, key: &str) -> (res: Result<String, EvalError>)
    ensures
        match res {
            Ok(v) => record@.contains_key(key@) && v@ == record@[key@],
            Err(EvalError::MissingField(k)) => !record@.contains_key(key@) && k@ == key@,
            Err(EvalError::EmptyGold) => false,
        },
{
    match record.get(key) {
        Some(v) => Ok(v.clone()),
        None => Err(EvalError::MissingField(owned(key))),
    }
}

/// One case of the gold file.
#[derive(Debug, Clone)]
pub struct EvalCase {
    /// The search keyword.
    pub query: String,
    /// The family that the search is limited to, if any.
    pub family: Option<String>,
    /// The file that the expected row comes from.
    pub expected_file: String,
    /// Text that the expected row holds.
    pub expected_substring: String,
}

/// `EvalCase` with its texts taken as character sequences.
pub struct EvalCaseView {
    pub query: Seq<char>,
    pub family: Option<Seq<char>>,
    pub expected_file: Seq<char>,
    pub expected_substring: Seq<char>,
}

impl View for EvalCase {
    type V = EvalCaseView;

    open spec fn view(&self) -> EvalCaseView {
        EvalCaseView {
            query: self.query@,
            family: crate::config::opt_view(self.family),
            expected_file: self.expected_file@,
            expected_substring: self.expected_substring@,
        }
    }
}

/// The case that a record describes: `query`, `expected_file` and
/// `expected_substring` are needed (checked in this order); an absent or
/// empty `family` means no limit.
pub open spec fn case_of(r: Map<Seq<char>, Seq<char>>) -> Result<EvalCaseView, Seq<char>> {
    if !r.contains_key("query"@) {
        Err("query"@)
    } else if !r.contains_key("expected_file"@) {
        Err("expected_file"@)
    } else if !r.contains_key("expected_substring"@) {
        Err("expected_substring"@)
    } else {
        Ok(
            EvalCaseView {
                query: r["query"@],
                family: if r.contains_key("family"@) && r["family"@].len() > 0 {
                    Some(r["family"@])
                } else {
                    None
                },
                expected_file: r["expected_file"@],
                expected_substring: r["expected_substring"@],
            },
        )
    }
}

/// Reads the case that a record of the gold file describes.
pub fn case_from_record(record: &CsvRecord) -> (res: Result<EvalCase, EvalError>)
    ensures
        match res {
            Ok(c) => case_of(record@) == Ok::<EvalCaseView, Seq<char>>(c@),
            Err(EvalError::MissingField(k)) => case_of(record@) == Err::<EvalCaseView, Seq<char>>(
                k@,
            ),
            Err(EvalError::EmptyGold) => false,
        },
{
    let query = match required(record, "query") {
        Ok(v) => v,
        Err(e) => return Err(e),
    };
    let family = match record.get("family") {
        Some(f) => if f.as_str().is_empty() {
            None
        } else {
            Some(f.clone())
        },
        None => None,
    };
    let expected_file = match required(record, "expected_file") {
        Ok(v) => v,
        Err(e) => return Err(e),
    };
    let expected_substring = match required(record, "expected_substring") {
        Ok(v) => v,
        Err(e) => return Err(e),
    };
    Ok(EvalCase { query, family, expected_file, expected_substring })
}

/// The cases of a gold file, or the first error met reading them.
pub open spec fn cases_of(records: Seq<Map<Seq<char>, Seq<char>>>) -> Result<Seq<EvalCaseView>, EvalErrorView> {
    if records.len() == 0 {
        Err(EvalErrorView::EmptyGold)
    } else {
        cases_from(records)
    }
}

/// `EvalError` with its text taken as a character sequence.
pub enum EvalErrorView {
    EmptyGold,
    MissingField(Seq<char>),
}

impl View for EvalError {
    type V = EvalErrorView;

    open spec fn view(&self) -> EvalErrorView {
        match self {
            EvalError::EmptyGold => EvalErrorView::EmptyGold,
            EvalError::MissingField(k) => EvalErrorView::MissingField(k@),
        }
    }
}

/// The cases of `records` in order, or the error of the first record that is not a case.
pub open spec fn cases_from(records: Seq<Map<Seq<char>, Seq<char>>>) -> Result<Seq<EvalCaseView>, EvalErrorView>
    decreases records.len(),
{
    if records.len() == 0 {
        Ok(seq![])
    } else {
        match cases_from(records.drop_last()) {
            Ok(prev) => match case_of(records.last()) {
                Ok(c) => Ok(prev.push(c)),
                Err(k) => Err(EvalErrorView::MissingField(k)),
            },
            Err(e) => Err(e),
        }
    }
}

/// Once a prefix of the records fails to read as cases, all of them do, with the same error.
proof fn lemma_cases_error_persists(rs: Seq<Map<Seq<char>, Seq<char>>>, k: int)
    requires
        0 <= k <= rs.len(),
        cases_from(rs.take(k)) is Err,
    ensures
        cases_from(rs) == cases_from(rs.take(k)),
    decreases rs.len(),
{
    if rs.len() > k {
        assert(rs.drop_last().take(k) =~= rs.take(k));
        lemma_cases_error_persists(rs.drop_last(), k);
    } else {
        assert(rs.take(k) =~= rs);
    }
}

/// The cases of a gold file's records: an empty file is refused, and so is
/// the first record that lacks a needed column.
pub fn evaluation_cases(records: &Vec<CsvRecord>) -> (res: Result<Vec<EvalCase>, EvalError>)
    ensures
        match res {
            Ok(cases) => cases_of(crate::csv::records_view(records@)) == Ok::<
                Seq<EvalCaseView>,
                EvalErrorView,
            >(cases@.map_values(|c: EvalCase| c@)),
            Err(e) => cases_of(crate::csv::records_view(records@)) == Err::<
                Seq<EvalCaseView>,
                EvalErrorView,
            >(e@),
        },
{
    let ghost rv = crate::csv::records_view(records@);
    if records.len() == 0 {
        return Err(EvalError::EmptyGold);
    }
    let mut cases: Vec<EvalCase> = Vec::new();
    let n = records.len();
    assert(rv.take(0) =~= seq![]);
    assert(cases@.map_values(|c: EvalCase| c@) =~= seq![]);
    for i in 0..n
        invariant
            n == records.len(),
            n > 0,
            rv == crate::csv::records_view(records@),
            cases_from(rv.take(i as int)) == Ok::<Seq<EvalCaseView>, EvalErrorView>(
                cases@.map_values(|c: EvalCase| c@),
            ),
    {
        let ghost prev = cases@.map_values(|c: EvalCase| c@);
        assert(rv.take(i + 1).drop_last() =~= rv.take(i as int));
        assert(rv.take(i + 1).last() == records@[i as int]@);
        match case_from_record(&records[i]) {
            Ok(c) => {
                cases.push(c);
                assert(cases@.map_values(|c: EvalCase| c@) =~= prev.push(c@));
            },
            Err(e) => {
                proof {
                    lemma_cases_error_persists(rv, i + 1);
                }
                return Err(e);
            },
        }
    }
    assert(rv.take(n as int) =~= rv);
    Ok(cases)
}

/// Whether each case hit within the first one, three and five results.
#[derive(Debug, Clone, Copy, PartialEq, Eq)]
pub struct CaseOutcome {
    pub hit1: bool,
    pub hit3: bool,
    pub hit5: bool,
}

/// Scores the results of one case's search.
pub fn score_case(results: &[SearchResult], case: &EvalCase) -> (o: CaseOutcome)
    ensures
        o.hit1 == hit_spec(results@, case.expected_file@, case.expected_substring@, 1),
        o.hit3 == hit_spec(results@, case.expected_file@, case.expected_substring@, 3),
        o.hit5 == hit_spec(results@, case.expected_file@, case.expected_substring@, 5),
        o.hit1 ==> o.hit3,
        o.hit3 ==> o.hit5,
{
    let f = case.expected_file.as_str();
    let s = case.expected_substring.as_str();
    proof {
        law_hit_monotone(results@, case.expected_file@, case.expected_substring@, 1, 3);
        law_hit_monotone(results@, case.expected_file@, case.expected_substring@, 3, 5);
    }
    CaseOutcome { hit1: hit(results, f, s, 1), hit3: hit(results, f, s, 3), hit5: hit(results, f, s, 5) }
}

/// How many of `v` are true.
pub open spec fn count_true(v: Seq<bool>) -> nat
    decreases v.len(),
{
    if v.len() == 0 {
        0
    } else {
        count_true(v.drop_last()) + if v.last() {
            1nat
        } else {
            0nat
        }
    }
}

/// The totals of an evaluation.
#[derive(Debug, Clone, Copy, PartialEq, Eq)]
pub struct EvalTally {
    pub top1: usize,
    pub top3: usize,
    pub top5: usize,
    pub cases: usize,
}

/// The hits of every outcome at one depth.
pub open spec fn hits1(o: Seq<CaseOutcome>) -> Seq<bool> {
    o.map_values(|c: CaseOutcome| c.hit1)
}

/// The hits of every outcome at depth three.
pub open spec fn hits3(o: Seq<CaseOutcome>) -> Seq<bool> {
    o.map_values(|c: CaseOutcome| c.hit3)
}

/// The hits of every outcome at depth five.
pub open spec fn hits5(o: Seq<CaseOutcome>) -> Seq<bool> {
    o.map_values(|c: CaseOutcome| c.hit5)
}

proof fn lemma_count_bounds(o: Seq<CaseOutcome>)
    requires
        forall|i: int| 0 <= i < o.len() ==> (#[trigger] o[i]).hit1 ==> o[i].hit3,
        forall|i: int| 0 <= i < o.len() ==> (#[trigger] o[i]).hit3 ==> o[i].hit5,
    ensures
        count_true(hits1(o)) <= count_true(hits3(o)),
        count_true(hits3(o)) <= count_true(hits5(o)),
        count_true(hits5(o)) <= o.len(),
    decreases o.len(),
{
    if o.len() > 0 {
        let p = o.drop_last();
        assert(hits1(o).drop_last() =~= hits1(p));
        assert(hits3(o).drop_last() =~= hits3(p));
        assert(hits5(o).drop_last() =~= hits5(p));
        assert forall|i: int| 0 <= i < p.len() implies (#[trigger] p[i]).hit1 ==> p[i].hit3 by {
            assert(p[i] == o[i]);
        }
        assert forall|i: int| 0 <= i < p.len() implies (#[trigger] p[i]).hit3 ==> p[i].hit5 by {
            assert(p[i] == o[i]);
        }
        lemma_count_bounds(p);
        assert(o[o.len() - 1] == o.last());
    }
}

/// Adds up the outcomes of all cases.
pub fn tally(outcomes: &Vec<CaseOutcome>) -> (t: EvalTally)
    ensures
        t.cases == outcomes@.len(),
        t.top1 == count_true(hits1(outcomes@)),
        t.top3 == count_true(hits3(outcomes@)),
        t.top5 == count_true(hits5(outcomes@)),
{
    let mut t = EvalTally { top1: 0, top3: 0, top5: 0, cases: 0 };
    let n = outcomes.len();
    for i in 0..n
        invariant
            n == outcomes@.len(),
            t.cases == i,
            t.top1 == count_true(hits1(outcomes@.take(i as int))),
            t.top3 == count_true(hits3(outcomes@.take(i as int))),
            t.top5 == count_true(hits5(outcomes@.take(i as int))),
            t.top1 <= i,
            t.top3 <= i,
            t.top5 <= i,
    {
        let o = outcomes[i];
        let ghost tk = outcomes@.take(i + 1);
        assert(tk.drop_last() =~= outcomes@.take(i as int));
        assert(hits1(tk).drop_last() =~= hits1(outcomes@.take(i as int)));
        assert(hits3(tk).drop_last() =~= hits3(outcomes@.take(i as int)));
        assert(hits5(tk).drop_last() =~= hits5(outcomes@.take(i as int)));
        assert(tk.last() == o);
        if o.hit1 {
            t.top1 = t.top1 + 1;
        }
        if o.hit3 {
            t.top3 = t.top3 + 1;
        }
        if o.hit5 {
            t.top5 = t.top5 + 1;
        }
        t.cases = t.cases + 1;
    }
    assert(outcomes@.take(n as int) =~= outcomes@);
    t
}

/// Over outcomes that `score_case` gives, no more cases hit at depth one than
/// at three, none more at three than at five, and none more at five than there are cases.
pub proof fn law_tally_ordered(outcomes: Seq<CaseOutcome>)
    requires
        forall|i: int| 0 <= i < outcomes.len() ==> (#[trigger] outcomes[i]).hit1 ==> outcomes[i].hit3,
        forall|i: int| 0 <= i < outcomes.len() ==> (#[trigger] outcomes[i]).hit3 ==> outcomes[i].hit5,
    ensures
        count_true(hits1(outcomes)) <= count_true(hits3(outcomes)) <= count_true(hits5(outcomes))
            <= outcomes.len(),
{
    lemma_count_bounds(outcomes);
}

/// The table row of one case in the report.
pub open spec fn report_row_spec(case: EvalCaseView, o: CaseOutcome) -> Seq<char> {
    "| "@ + escape_md_spec(case.query) + " | "@ + yn_spec(o.hit1) + " | "@ + yn_spec(o.hit3)
        + " | "@ + yn_spec(o.hit5) + " | "@ + escape_md_spec(case.expected_file) + " |"@
}

/// The table row of one case in the report.
pub fn report_row(case: &EvalCase, o: CaseOutcome) -> (row: String)
    ensures
        row@ == report_row_spec(case@, o),
{
    let mut row = owned("| ");
    let q = escape_md(case.query.as_str());
    row.append(q.as_str());
    row.append(" | ");
    row.append(yn(o.hit1));
    row.append(" | ");
    row.append(yn(o.hit3));
    row.append(" | ");
    row.append(yn(o.hit5));
    row.append(" | ");
    let f = escape_md(case.expected_file.as_str());
    row.append(f.as_str());
    row.append(" |");
    row
}

/// `prefix` + `percent` + `% (` + hits + `/` + cases + `)`: an accuracy as the
/// report and the console write it, with the percentage already formatted.
pub open spec fn accuracy_spec(prefix: Seq<char>, percent: Seq<char>, hits: usize, cases: usize) -> Seq<char> {
    prefix + percent + "% ("@ + decimal(hits as nat) + "/"@ + decimal(cases as nat) + ")"@
}

/// An accuracy line: `prefix`, the formatted percentage, and the counts.
pub fn accuracy_line(prefix: &str, percent: &str, hits: usize, cases: usize) -> (line: String)
    ensures
        line@ == accuracy_spec(prefix@, percent@, hits, cases),
{
    let mut line = owned(prefix);
    line.append(percent);
    line.append("% (");
    let h = crate::text::usize_to_string(hits);
    line.append(h.as_str());
    line.append("/");
    let c = crate::text::usize_to_string(cases);
    line.append(c.as_str());
    line.append(")");
    line
}

/// The lines of the evaluation report.
pub open spec fn report_lines_spec(
    db_path: Seq<char>,
    gold_path: Seq<char>,
    cases: usize,
    accuracy: Seq<Seq<char>>,
    rows: Seq<Seq<char>>,
) -> Seq<Seq<char>> {
    seq![
        "# Evaluation Report"@,
        Seq::<char>::empty(),
        "- db: "@ + db_path,
        "- gold: "@ + gold_path,
        "- cases: "@ + decimal(cases as nat),
    ] + accuracy + seq![
        Seq::<char>::empty(),
        Seq::<char>::empty(),
        "| Query | Top1 | Top3 | Top5 | Expected File |"@,
        "|---|---:|---:|---:|---|"@,
    ] + rows
}

/// The lines of the evaluation report: the header, the accuracy lines, the
/// table head and the case rows.
pub fn report_lines(
    db_path: &str,
    gold_path: &str,
    cases: usize,
    accuracy: &Vec<String>,
    rows: &Vec<String>,
) -> (lines: Vec<String>)
    ensures
        crate::app::lines_view(lines@) == report_lines_spec(
            db_path@,
            gold_path@,
            cases,
            crate::app::lines_view(accuracy@),
            crate::app::lines_view(rows@),
        ),
{
    let mut lines: Vec<String> = Vec::new();
    lines.push(owned("# Evaluation Report"));
    lines.push(String::new());
    lines.push(str_concat("- db: ", db_path));
    lines.push(str_concat("- gold: ", gold_path));
    let mut c = owned("- cases: ");
    let d = crate::text::usize_to_string(cases);
    c.append(d.as_str());
    lines.push(c);
    let ghost head = crate::app::lines_view(lines@);
    assert(head =~= seq![
        "# Evaluation Report"@,
        Seq::<char>::empty(),
        "- db: "@ + db_path@,
        "- gold: "@ + gold_path@,
        "- cases: "@ + decimal(cases as nat),
    ]);
    let na = accuracy.len();
    for i in 0..na
        invariant
            na == accuracy.len(),
            crate::app::lines_view(lines@) == head + crate::app::lines_view(accuracy@).take(
                i as int,
            ),
    {
        let ghost before = crate::app::lines_view(lines@);
        let item = accuracy[i].clone();
        lines.push(item);
        assert(crate::app::lines_view(lines@) =~= before.push(accuracy@[i as int]@));
        assert(crate::app::lines_view(accuracy@).take(i + 1) =~= crate::app::lines_view(accuracy@).take(
            i as int,
        ).push(accuracy@[i as int]@));
        assert(crate::app::lines_view(lines@) =~= head + crate::app::lines_view(accuracy@).take(
            i + 1,
        ));
    }
    assert(crate::app::lines_view(accuracy@).take(na as int) =~= crate::app::lines_view(
        accuracy@,
    ));
    lines.push(String::new());
    lines.push(String::new());
    lines.push(owned("| Query | Top1 | Top3 | Top5 | Expected File |"));
    lines.push(owned("|---|---:|---:|---:|---|"));
    let ghost mid = crate::app::lines_view(lines@);
    assert(mid =~= head + crate::app::lines_view(accuracy@) + seq![
        Seq::<char>::empty(),
        Seq::<char>::empty(),
        "| Query | Top1 | Top3 | Top5 | Expected File |"@,
        "|---|---:|---:|---:|---|"@,
    ]);
    let nr = rows.len();
    for i in 0..nr
        invariant
            nr == rows.len(),
            crate::app::lines_view(lines@) == mid + crate::app::lines_view(rows@).take(i as int),
    {
        let ghost before = crate::app::lines_view(lines@);
        let item = rows[i].clone();
        lines.push(item);
        assert(crate::app::lines_view(lines@) =~= before.push(rows@[i as int]@));
        assert(crate::app::lines_view(rows@).take(i + 1) =~= crate::app::lines_view(rows@).take(
            i as int,
        ).push(rows@[i as int]@));
        assert(crate::app::lines_view(lines@) =~= mid + crate::app::lines_view(rows@).take(
            i + 1,
        ));
    }
    assert(crate::app::lines_view(rows@).take(nr as int) =~= crate::app::lines_view(rows@));
    assert(crate::app::lines_view(lines@) =~= report_lines_spec(
        db_path@,
        gold_path@,
        cases,
        crate::app::lines_view(accuracy@),
        crate::app::lines_view(rows@),
    ));
    lines
}

/// Lines joined with `\n` between them (`[String]::join("\n")`).
pub open spec fn join_lines_spec(lines: Seq<Seq<char>>) -> Seq<char>
    decreases lines.len(),
{
    if lines.len() == 0 {
        seq![]
    } else if lines.len() == 1 {
        lines[0]
    } else {
        join_lines_spec(lines.drop_last()).push('\n') + lines.last()
    }
}

/// Lines joined with `\n` between them.
pub fn join_lines(lines: &Vec<String>) -> (text: String)
    ensures
        text@ == join_lines_spec(crate::app::lines_view(lines@)),
{
    let ghost lv = crate::app::lines_view(lines@);
    let mut text = String::new();
    let n = lines.len();
    assert(lv.take(0) =~= seq![]);
    for i in 0..n
        invariant
            n == lines.len(),
            lv == crate::app::lines_view(lines@),
            text@ == join_lines_spec(lv.take(i as int)),
    {
        assert(lv.take(i + 1).drop_last() =~= lv.take(i as int));
        if i > 0 {
            push_char(&mut text, '\n');
        } else {
            assert(join_lines_spec(lv.take(0)) =~= seq![]);
        }
        text.append(lines[i].as_str());
        assert(text@ =~= join_lines_spec(lv.take(i + 1)));
    }
    assert(lv.take(n as int) =~= lv);
    text
}


/// How many results the search of each case asks for.
pub const SEARCH_DEPTH: usize = 5;

/// What a case's search asks for.
#[derive(Debug, Clone)]
pub struct SearchRequest {
    /// The keyword searched for.
    pub keyword: String,
    /// The family that the search is limited to, if any.
    pub family: Option<String>,
    /// How many results are asked for.
    pub limit: usize,
}

/// The request stands for the search of `case`: its query, its family (none
/// when the gold file gives none or an empty one), and five results.
pub open spec fn is_request_for(r: SearchRequest, case: EvalCaseView) -> bool {
    &&& r.keyword@ == case.query
    &&& crate::config::opt_view(r.family) == case.family
    &&& r.limit == SEARCH_DEPTH
}

/// The search that scoring `case` needs.
pub fn search_request(case: &EvalCase) -> (r: SearchRequest)
    ensures
        is_request_for(r, case@),
{
    let family = match &case.family {
        Some(f) => Some(f.clone()),
        None => None,
    };
    SearchRequest { keyword: case.query.clone(), family, limit: SEARCH_DEPTH }
}

/// The searches of an evaluation: one per case, in the cases' order.
pub fn search_requests(cases: &Vec<EvalCase>) -> (rs: Vec<SearchRequest>)
    ensures
        rs.len() == cases.len(),
        forall|i: int| 0 <= i < cases.len() ==> is_request_for(#[trigger] rs@[i], cases@[i]@),
{
    let mut rs: Vec<SearchRequest> = Vec::new();
    let n = cases.len();
    for i in 0..n
        invariant
            n == cases.len(),
            rs.len() == i,
            forall|j: int| 0 <= j < i ==> is_request_for(#[trigger] rs@[j], cases@[j]@),
    {
        rs.push(search_request(&cases[i]));
    }
    rs
}

/// A case read from a record takes each needed column as it is, and limits its
/// search to a family exactly when the record has a `family` column that is
/// not empty, to that family; it never carries an empty family.
pub proof fn law_case_of_record(r: Map<Seq<char>, Seq<char>>)
    ensures
        case_of(r) matches Ok(c) ==> {
            &&& r.contains_key("query"@) && c.query == r["query"@]
            &&& r.contains_key("expected_file"@) && c.expected_file == r["expected_file"@]
            &&& r.contains_key("expected_substring"@) && c.expected_substring
                == r["expected_substring"@]
            &&& (c.family is None <==> !(r.contains_key("family"@) && r["family"@].len() > 0))
            &&& (c.family matches Some(f) ==> f == r["family"@] && f.len() > 0)
        },
        case_of(r) is Err <==> !(r.contains_key("query"@) && r.contains_key("expected_file"@)
            && r.contains_key("expected_substring"@)),
{
}

/// The cases of a gold file are its records read one by one, in order: as
/// many cases as records, each the case of its record; the file is refused
/// exactly when it has no record or one of its records is not a case.
pub proof fn law_cases_of_records(records: Seq<Map<Seq<char>, Seq<char>>>)
    ensures
        cases_of(records) matches Ok(cases) ==> {
            &&& cases.len() == records.len()
            &&& records.len() > 0
            &&& forall|i: int|
                0 <= i < records.len() ==> case_of(#[trigger] records[i]) == Ok::<
                    EvalCaseView,
                    Seq<char>,
                >(cases[i])
        },
        cases_of(records) is Err <==> (records.len() == 0 || exists|i: int|
            0 <= i < records.len() && #[trigger] case_of(records[i]) is Err),
{
    lemma_cases_from(records);
}

proof fn lemma_cases_from(records: Seq<Map<Seq<char>, Seq<char>>>)
    ensures
        cases_from(records) matches Ok(cases) ==> {
            &&& cases.len() == records.len()
            &&& forall|i: int|
                0 <= i < records.len() ==> case_of(#[trigger] records[i]) == Ok::<
                    EvalCaseView,
                    Seq<char>,
                >(cases[i])
        },
        cases_from(records) is Err <==> exists|i: int|
            0 <= i < records.len() && #[trigger] case_of(records[i]) is Err,
    decreases records.len(),
{
    if records.len() > 0 {
        let p = records.drop_last();
        lemma_cases_from(p);
        let last = records.len() - 1;
        assert(records.last() == records[last]);
        assert forall|i: int| 0 <= i < p.len() implies p[i] == records[i] by {}
        if cases_from(p) is Err {
            let i = choose|i: int| 0 <= i < p.len() && #[trigger] case_of(p[i]) is Err;
            assert(case_of(records[i]) is Err);
        } else if case_of(records[last]) is Err {
        } else {
            assert forall|i: int| 0 <= i < records.len() implies !(#[trigger] case_of(records[i]) is Err) by {
                if i < p.len() {
                    assert(p[i] == records[i]);
                    assert(!(case_of(p[i]) is Err));
                }
            }
            let prev = cases_from(p)->Ok_0;
            let c = case_of(records[last])->Ok_0;
            assert forall|i: int| 0 <= i < records.len() implies case_of(#[trigger] records[i]) == Ok::<
                EvalCaseView,
                Seq<char>,
            >(prev.push(c)[i]) by {
                if i < p.len() {
                    assert(p[i] == records[i]);
                }
            }
        }
    }
}
} // verus!
