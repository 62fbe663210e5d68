//! CSV text to rows, and rows to header-keyed records.
//!
//! The dialect: fields are separated by `,`; a record ends at `\n`, `\r`
//! or `\r\n`; a field may be quoted with `"`, inside which separators and line
//! ends are plain characters and `""` stands for one `"`. A quote may open
//! anywhere in a field. Rows that hold a single empty field (blank lines) are
//! dropped.
use vstd::prelude::*;

use crate::text::{chars_of, push_char};

verus! {

/// What can go wrong when reading CSV text.
#[derive(Debug, Clone, Copy, PartialEq, Eq)]
pub enum CsvError {
    /// The text ended inside a quoted field.
    UnterminatedQuote,
}

impl CsvError {
    /// The error's message.
    pub fn message(&self) -> (s: String)
        ensures
            s@ == "unterminated quoted field"@,
    {
        crate::text::owned("unterminated quoted field")
    }
}

/// The scanner's state between two characters.
pub struct ScanState {
    /// Rows completed so far.
    pub rows: Seq<Seq<Seq<char>>>,
    /// Fields of the row being read.
    pub row: Seq<Seq<char>>,
    /// Characters of the field being read.
    pub field: Seq<char>,
    /// Whether the scanner is inside a quoted field.
    pub in_quotes: bool,
}

/// The state before the first character.
pub open spec fn start_state() -> ScanState {
    ScanState { rows: seq![], row: seq![], field: seq![], in_quotes: false }
}

/// `st` with `c` appended to the current field.
pub open spec fn add_char(st: ScanState, c: char) -> ScanState {
    ScanState { rows: st.rows, row: st.row, field: st.field.push(c), in_quotes: st.in_quotes }
}

/// `st` with the quote flag set to `q`.
pub open spec fn set_quotes(st: ScanState, q: bool) -> ScanState {
    ScanState { rows: st.rows, row: st.row, field: st.field, in_quotes: q }
}

/// `st` after a field separator.
pub open spec fn end_field(st: ScanState) -> ScanState {
    ScanState { rows: st.rows, row: st.row.push(st.field), field: seq![], in_quotes: st.in_quotes }
}

/// `st` after a line end.
pub open spec fn end_row(st: ScanState) -> ScanState {
    ScanState {
        rows: st.rows.push(st.row.push(st.field)),
        row: seq![],
        field: seq![],
        in_quotes: st.in_quotes,
    }
}

/// The state after reading `s` from position `i` on, starting in `st`.
pub open spec fn scan(s: Seq<char>, i: int, st: ScanState) -> ScanState
    decreases s.len() - i,
{
    if i < 0 || i >= s.len() {
        st
    } else {
        let c = s[i];
        let next_is_quote = i + 1 < s.len() && s[i + 1] == '"';
        let next_is_lf = i + 1 < s.len() && s[i + 1] == '\n';
        if st.in_quotes {
            if c == '"' {
                if next_is_quote {
                    scan(s, i + 2, add_char(st, '"'))
                } else {
                    scan(s, i + 1, set_quotes(st, false))
                }
            } else {
                scan(s, i + 1, add_char(st, c))
            }
        } else if c == '"' {
            scan(s, i + 1, set_quotes(st, true))
        } else if c == ',' {
            scan(s, i + 1, end_field(st))
        } else if c == '\n' {
            scan(s, i + 1, end_row(st))
        } else if c == '\r' {
            if next_is_lf {
                scan(s, i + 2, end_row(st))
            } else {
                scan(s, i + 1, end_row(st))
            }
        } else {
            scan(s, i + 1, add_char(st, c))
        }
    }
}

/// A row made of one empty field: what a blank line reads as.
pub open spec fn is_blank_row(r: Seq<Seq<char>>) -> bool {
    r.len() == 1 && r[0].len() == 0
}

/// `rows` without its blank rows, in order.
pub open spec fn drop_blank_rows(rows: Seq<Seq<Seq<char>>>) -> Seq<Seq<Seq<char>>>
    decreases rows.len(),
{
    if rows.len() == 0 {
        seq![]
    } else {
        let kept = drop_blank_rows(rows.drop_last());
        if is_blank_row(rows.last()) {
            kept
        } else {
            kept.push(rows.last())
        }
    }
}

/// The rows of a CSV text, or the error that reading it meets.
pub open spec fn csv_rows(s: Seq<char>) -> Result<Seq<Seq<Seq<char>>>, CsvError> {
    finish_scan(scan(s, 0, start_state()))
}

/// The rows that the state at the end of the text stands for.
pub open spec fn finish_scan(st: ScanState) -> Result<Seq<Seq<Seq<char>>>, CsvError> {
    if st.in_quotes {
        Err(CsvError::UnterminatedQuote)
    } else if st.field.len() > 0 || st.row.len() > 0 {
        Ok(drop_blank_rows(st.rows.push(st.row.push(st.field))))
    } else {
        Ok(drop_blank_rows(st.rows))
    }
}

/// The rows of a parse result, taken by their characters.
pub open spec fn rows_result_view(r: Result<Vec<Vec<String>>, CsvError>) -> Result<
    Seq<Seq<Seq<char>>>,
    CsvError,
> {
    match r {
        Ok(rows) => Ok(rows.deep_view()),
        Err(e) => Err(e),
    }
}

/// No row that `drop_blank_rows` keeps is blank.
pub proof fn lemma_drop_blank_rows(rows: Seq<Seq<Seq<char>>>)
    ensures
        forall|k: int|
            0 <= k < drop_blank_rows(rows).len() ==> !is_blank_row(
                #[trigger] drop_blank_rows(rows)[k],
            ),
        drop_blank_rows(rows).len() <= rows.len(),
    decreases rows.len(),
{
    if rows.len() > 0 {
        lemma_drop_blank_rows(rows.drop_last());
    }
}

/// Reading CSV text never yields a blank row.
pub proof fn law_no_blank_rows(s: Seq<char>)
    ensures
        csv_rows(s) matches Ok(rows) ==> forall|k: int|
            0 <= k < rows.len() ==> !is_blank_row(#[trigger] rows[k]),
{
    let st = scan(s, 0, start_state());
    lemma_drop_blank_rows(st.rows);
    lemma_drop_blank_rows(st.rows.push(st.row.push(st.field)));
}

/// `f` with each `"` written twice, as inside a quoted field.
pub open spec fn double_quotes(f: Seq<char>) -> Seq<char>
    decreases f.len(),
{
    if f.len() == 0 {
        seq![]
    } else {
        (if f[0] == '"' {
            seq!['"', '"']
        } else {
            seq![f[0]]
        }) + double_quotes(f.drop_first())
    }
}

/// `f` written as a quoted field.
pub open spec fn quote_field(f: Seq<char>) -> Seq<char> {
    seq!['"'] + double_quotes(f) + seq!['"']
}

/// The fields of a row written quoted and separated by commas.
pub open spec fn row_text(r: Seq<Seq<char>>) -> Seq<char>
    decreases r.len(),
{
    if r.len() == 0 {
        seq![]
    } else if r.len() == 1 {
        quote_field(r[0])
    } else {
        quote_field(r[0]) + seq![','] + row_text(r.drop_first())
    }
}

/// Rows written with every field quoted and each row ended by `\n`.
pub open spec fn table_text(rows: Seq<Seq<Seq<char>>>) -> Seq<char>
    decreases rows.len(),
{
    if rows.len() == 0 {
        seq![]
    } else {
        row_text(rows[0]) + seq!['\n'] + table_text(rows.drop_first())
    }
}

/// The state after the rows `done`, at the start of a line.
pub open spec fn between_rows(done: Seq<Seq<Seq<char>>>) -> ScanState {
    ScanState { rows: done, row: seq![], field: seq![], in_quotes: false }
}

/// `st` with `f` appended to the current field.
pub open spec fn add_chars(st: ScanState, f: Seq<char>) -> ScanState {
    ScanState { rows: st.rows, row: st.row, field: st.field + f, in_quotes: st.in_quotes }
}

/// Inside quotes, a doubled body and its closing quote read as the body.
proof fn lemma_scan_quoted_body(s: Seq<char>, i: int, st: ScanState, f: Seq<char>)
    requires
        st.in_quotes,
        0 <= i,
        i + double_quotes(f).len() < s.len(),
        s.subrange(i, i + double_quotes(f).len()) == double_quotes(f),
        s[i + double_quotes(f).len()] == '"',
        i + double_quotes(f).len() + 1 == s.len() || s[i + double_quotes(f).len() + 1] != '"',
    ensures
        scan(s, i, st) == scan(
            s,
            i + double_quotes(f).len() + 1,
            set_quotes(add_chars(st, f), false),
        ),
    decreases f.len(),
{
    let d = double_quotes(f);
    if f.len() == 0 {
        assert(st.field + f =~= st.field);
        assert(add_chars(st, f) == st);
    } else {
        let rest = f.drop_first();
        let dr = double_quotes(rest);
        if f[0] == '"' {
            assert(d =~= seq!['"', '"'] + dr);
            assert(s[i] == d[0]);
            assert(s[i + 1] == d[1]);
            assert(s.subrange(i + 2, i + 2 + dr.len()) =~= dr) by {
                assert forall|k: int| 0 <= k < dr.len() implies s.subrange(i + 2, i + 2 + dr.len())[k]
                    == dr[k] by {
                    assert(s[i + 2 + k] == s.subrange(i, i + d.len())[2 + k]);
                }
            }
            lemma_scan_quoted_body(s, i + 2, add_char(st, '"'), rest);
            assert(add_chars(add_char(st, '"'), rest).field =~= add_chars(st, f).field);
        } else {
            assert(d =~= seq![f[0]] + dr);
            assert(s[i] == d[0]);
            assert(s.subrange(i + 1, i + 1 + dr.len()) =~= dr) by {
                assert forall|k: int| 0 <= k < dr.len() implies s.subrange(i + 1, i + 1 + dr.len())[k]
                    == dr[k] by {
                    assert(s[i + 1 + k] == s.subrange(i, i + d.len())[1 + k]);
                }
            }
            lemma_scan_quoted_body(s, i + 1, add_char(st, f[0]), rest);
            assert(add_chars(add_char(st, f[0]), rest).field =~= add_chars(st, f).field);
        }
    }
}

/// Outside quotes, a quoted field reads as its text added to the current field.
proof fn lemma_scan_quoted_field(s: Seq<char>, i: int, st: ScanState, f: Seq<char>)
    requires
        !st.in_quotes,
        0 <= i,
        i + quote_field(f).len() <= s.len(),
        s.subrange(i, i + quote_field(f).len()) == quote_field(f),
        i + quote_field(f).len() == s.len() || s[i + quote_field(f).len()] != '"',
    ensures
        scan(s, i, st) == scan(s, i + quote_field(f).len(), add_chars(st, f)),
{
    let q = quote_field(f);
    let d = double_quotes(f);
    assert(q.len() == d.len() + 2);
    assert(s[i] == q[0]);
    assert(s.subrange(i + 1, i + 1 + d.len()) =~= d) by {
        assert forall|k: int| 0 <= k < d.len() implies s.subrange(i + 1, i + 1 + d.len())[k]
            == d[k] by {
            assert(s[i + 1 + k] == q[1 + k]);
        }
    }
    assert(s[i + 1 + d.len()] == q[1 + d.len() as int]);
    lemma_scan_quoted_body(s, i + 1, set_quotes(st, true), f);
    assert(set_quotes(add_chars(set_quotes(st, true), f), false) == add_chars(st, f));
}

/// A written row followed by `\n` reads as that row appended to the rows.
proof fn lemma_scan_row(s: Seq<char>, i: int, st: ScanState, r: Seq<Seq<char>>)
    requires
        !st.in_quotes,
        st.field.len() == 0,
        r.len() >= 1,
        0 <= i,
        i + row_text(r).len() < s.len(),
        s.subrange(i, i + row_text(r).len()) == row_text(r),
        s[i + row_text(r).len()] == '\n',
    ensures
        scan(s, i, st) == scan(s, i + row_text(r).len() + 1, between_rows(st.rows.push(st.row + r))),
    decreases r.len(),
{
    let t = row_text(r);
    let q = quote_field(r[0]);
    if r.len() == 1 {
        assert(t == q);
    } else {
        assert(t =~= q + seq![','] + row_text(r.drop_first()));
        assert(s[i + q.len()] == t[q.len() as int]);
    }
    assert(s.subrange(i, i + q.len()) =~= q) by {
        assert forall|k: int| 0 <= k < q.len() implies s.subrange(i, i + q.len())[k] == q[k] by {
            assert(s[i + k] == t[k]);
        }
    }
    lemma_scan_quoted_field(s, i, st, r[0]);
    let st1 = add_chars(st, r[0]);
    assert(st1.field =~= r[0]);
    if r.len() == 1 {
        assert(t == q);
        assert(st.row.push(st1.field) =~= st.row + r);
        assert(end_row(st1) == between_rows(st.rows.push(st.row + r)));
    } else {
        let rest = r.drop_first();
        let tr = row_text(rest);
        assert(t =~= q + seq![','] + tr);
        assert(s[i + q.len()] == ',');
        let st2 = end_field(st1);
        assert(s.subrange(i + q.len() + 1, i + q.len() + 1 + tr.len()) =~= tr) by {
            assert forall|k: int| 0 <= k < tr.len() implies s.subrange(
                i + q.len() + 1,
                i + q.len() + 1 + tr.len(),
            )[k] == tr[k] by {
                assert(s[i + q.len() + 1 + k] == t[q.len() + 1 + k]);
            }
        }
        lemma_scan_row(s, i + q.len() + 1, st2, rest);
        assert(st2.row + rest =~= st.row + r);
    }
}

/// Written rows read as the rows appended to the ones before.
proof fn lemma_scan_table(s: Seq<char>, i: int, done: Seq<Seq<Seq<char>>>, rows: Seq<Seq<Seq<char>>>)
    requires
        forall|k: int| 0 <= k < rows.len() ==> (#[trigger] rows[k]).len() >= 1,
        0 <= i,
        i + table_text(rows).len() == s.len(),
        s.subrange(i, s.len() as int) == table_text(rows),
    ensures
        scan(s, i, between_rows(done)) == between_rows(done + rows),
    decreases rows.len(),
{
    if rows.len() == 0 {
        assert(done + rows =~= done);
    } else {
        let r = rows[0];
        let rt = row_text(r);
        let tt = table_text(rows);
        let rest = rows.drop_first();
        assert(tt =~= rt + seq!['\n'] + table_text(rest));
        assert(s.subrange(i, i + rt.len()) =~= rt) by {
            assert forall|k: int| 0 <= k < rt.len() implies s.subrange(i, i + rt.len())[k] == rt[k] by {
                assert(s[i + k] == tt[k]);
            }
        }
        assert(s[i + rt.len()] == tt[rt.len() as int]);
        let st = between_rows(done);
        lemma_scan_row(s, i, st, r);
        assert(seq![] + r =~= r);
        assert(s.subrange(i + rt.len() + 1, s.len() as int) =~= table_text(rest)) by {
            assert forall|k: int| 0 <= k < table_text(rest).len() implies s.subrange(
                i + rt.len() + 1,
                s.len() as int,
            )[k] == table_text(rest)[k] by {
                assert(s[i + rt.len() + 1 + k] == tt[rt.len() + 1 + k]);
            }
        }
        assert forall|k: int| 0 <= k < rest.len() implies (#[trigger] rest[k]).len() >= 1 by {
            assert(rest[k] == rows[k + 1]);
        }
        lemma_scan_table(s, i + rt.len() + 1, done.push(r), rest);
        assert(done.push(r) + rest =~= done + rows);
    }
}

/// A character that an unquoted field can hold as it is.
pub open spec fn is_plain_char(c: char) -> bool {
    c != '"' && c != ',' && c != '\n' && c != '\r'
}

/// A field that needs no quotes: it holds no quote, comma or line end.
pub open spec fn is_plain_field(f: Seq<char>) -> bool {
    forall|k: int| 0 <= k < f.len() ==> is_plain_char(#[trigger] f[k])
}

/// The fields of a row written as they are, separated by commas.
pub open spec fn plain_row_text(r: Seq<Seq<char>>) -> Seq<char>
    decreases r.len(),
{
    if r.len() == 0 {
        seq![]
    } else if r.len() == 1 {
        r[0]
    } else {
        r[0] + seq![','] + plain_row_text(r.drop_first())
    }
}

/// Rows written with unquoted fields, each row ended by `\n`.
pub open spec fn plain_table_text(rows: Seq<Seq<Seq<char>>>) -> Seq<char>
    decreases rows.len(),
{
    if rows.len() == 0 {
        seq![]
    } else {
        plain_row_text(rows[0]) + seq!['\n'] + plain_table_text(rows.drop_first())
    }
}

/// Outside quotes, an unquoted field reads as its text, character for character.
proof fn lemma_scan_plain_field(s: Seq<char>, i: int, st: ScanState, f: Seq<char>)
    requires
        !st.in_quotes,
        is_plain_field(f),
        0 <= i,
        i + f.len() <= s.len(),
        s.subrange(i, i + f.len()) == f,
    ensures
        scan(s, i, st) == scan(s, i + f.len(), add_chars(st, f)),
    decreases f.len(),
{
    if f.len() == 0 {
        assert(st.field + f =~= st.field);
        assert(add_chars(st, f) == st);
    } else {
        let c = f[0];
        let rest = f.drop_first();
        assert(s[i] == s.subrange(i, i + f.len())[0]);
        assert(is_plain_char(c));
        assert(s.subrange(i + 1, i + 1 + rest.len()) =~= rest) by {
            assert forall|k: int| 0 <= k < rest.len() implies s.subrange(i + 1, i + 1 + rest.len())[k]
                == rest[k] by {
                assert(s[i + 1 + k] == s.subrange(i, i + f.len())[1 + k]);
            }
        }
        assert forall|k: int| 0 <= k < rest.len() implies is_plain_char(#[trigger] rest[k]) by {
            assert(rest[k] == f[k + 1]);
        }
        lemma_scan_plain_field(s, i + 1, add_char(st, c), rest);
        assert(add_chars(add_char(st, c), rest).field =~= add_chars(st, f).field);
    }
}

/// A written row followed by `\n` reads as that row appended to the rows.
proof fn lemma_scan_plain_row(s: Seq<char>, i: int, st: ScanState, r: Seq<Seq<char>>)
    requires
        !st.in_quotes,
        st.field.len() == 0,
        r.len() >= 1,
        forall|k: int| 0 <= k < r.len() ==> is_plain_field(#[trigger] r[k]),
        0 <= i,
        i + plain_row_text(r).len() < s.len(),
        s.subrange(i, i + plain_row_text(r).len()) == plain_row_text(r),
        s[i + plain_row_text(r).len()] == '\n',
    ensures
        scan(s, i, st) == scan(s, i + plain_row_text(r).len() + 1, between_rows(st.rows.push(st.row + r))),
    decreases r.len(),
{
    let t = plain_row_text(r);
    let q = r[0];
    if r.len() == 1 {
        assert(t == q);
    } else {
        assert(t =~= q + seq![','] + plain_row_text(r.drop_first()));
        assert(s[i + q.len()] == t[q.len() as int]);
    }
    assert(s.subrange(i, i + q.len()) =~= q) by {
        assert forall|k: int| 0 <= k < q.len() implies s.subrange(i, i + q.len())[k] == q[k] by {
            assert(s[i + k] == t[k]);
        }
    }
    lemma_scan_plain_field(s, i, st, r[0]);
    let st1 = add_chars(st, r[0]);
    assert(st1.field =~= r[0]);
    if r.len() == 1 {
        assert(t == q);
        assert(st.row.push(st1.field) =~= st.row + r);
        assert(end_row(st1) == between_rows(st.rows.push(st.row + r)));
    } else {
        let rest = r.drop_first();
        let tr = plain_row_text(rest);
        assert(t =~= q + seq![','] + tr);
        assert(s[i + q.len()] == ',');
        let st2 = end_field(st1);
        assert(s.subrange(i + q.len() + 1, i + q.len() + 1 + tr.len()) =~= tr) by {
            assert forall|k: int| 0 <= k < tr.len() implies s.subrange(
                i + q.len() + 1,
                i + q.len() + 1 + tr.len(),
            )[k] == tr[k] by {
                assert(s[i + q.len() + 1 + k] == t[q.len() + 1 + k]);
            }
        }
        assert forall|k: int| 0 <= k < rest.len() implies is_plain_field(#[trigger] rest[k]) by {
            assert(rest[k] == r[k + 1]);
        }
        lemma_scan_plain_row(s, i + q.len() + 1, st2, rest);
        assert(st2.row + rest =~= st.row + r);
    }
}

/// Written rows read as the rows appended to the ones before.
proof fn lemma_scan_plain_table(s: Seq<char>, i: int, done: Seq<Seq<Seq<char>>>, rows: Seq<Seq<Seq<char>>>)
    requires
        forall|k: int| 0 <= k < rows.len() ==> (#[trigger] rows[k]).len() >= 1,
        forall|k: int, l: int| 0 <= k < rows.len() && 0 <= l < rows[k].len() ==> is_plain_field(#[trigger] rows[k][l]),
        0 <= i,
        i + plain_table_text(rows).len() == s.len(),
        s.subrange(i, s.len() as int) == plain_table_text(rows),
    ensures
        scan(s, i, between_rows(done)) == between_rows(done + rows),
    decreases rows.len(),
{
    if rows.len() == 0 {
        assert(done + rows =~= done);
    } else {
        let r = rows[0];
        let rt = plain_row_text(r);
        let tt = plain_table_text(rows);
        let rest = rows.drop_first();
        assert(tt =~= rt + seq!['\n'] + plain_table_text(rest));
        assert(s.subrange(i, i + rt.len()) =~= rt) by {
            assert forall|k: int| 0 <= k < rt.len() implies s.subrange(i, i + rt.len())[k] == rt[k] by {
                assert(s[i + k] == tt[k]);
            }
        }
        assert(s[i + rt.len()] == tt[rt.len() as int]);
        let st = between_rows(done);
        assert forall|l: int| 0 <= l < r.len() implies is_plain_field(#[trigger] r[l]) by {
            assert(is_plain_field(rows[0][l]));
        }
        lemma_scan_plain_row(s, i, st, r);
        assert(seq![] + r =~= r);
        assert(s.subrange(i + rt.len() + 1, s.len() as int) =~= plain_table_text(rest)) by {
            assert forall|k: int| 0 <= k < plain_table_text(rest).len() implies s.subrange(
                i + rt.len() + 1,
                s.len() as int,
            )[k] == plain_table_text(rest)[k] by {
                assert(s[i + rt.len() + 1 + k] == tt[rt.len() + 1 + k]);
            }
        }
        assert forall|k: int| 0 <= k < rest.len() implies (#[trigger] rest[k]).len() >= 1 by {
            assert(rest[k] == rows[k + 1]);
        }
        assert forall|k: int, l: int| 0 <= k < rest.len() && 0 <= l < rest[k].len() implies is_plain_field(#[trigger] rest[k][l]) by {
            assert(rest[k] == rows[k + 1]);
            assert(is_plain_field(rows[k + 1][l]));
        }
        lemma_scan_plain_table(s, i + rt.len() + 1, done.push(r), rest);
        assert(done.push(r) + rest =~= done + rows);
    }
}

proof fn lemma_drop_blank_none(rows: Seq<Seq<Seq<char>>>)
    requires
        forall|k: int| 0 <= k < rows.len() ==> !is_blank_row(#[trigger] rows[k]),
    ensures
        drop_blank_rows(rows) == rows,
    decreases rows.len(),
{
    if rows.len() > 0 {
        let p = rows.drop_last();
        assert forall|k: int| 0 <= k < p.len() implies !is_blank_row(#[trigger] p[k]) by {
            assert(p[k] == rows[k]);
        }
        lemma_drop_blank_none(p);
        assert(!is_blank_row(rows[rows.len() - 1]));
        assert(p.push(rows.last()) =~= rows);
    }
}

/// Rows written with every field quoted, `"` doubled, fields separated by `,`
/// and rows ended by `\n` read back as the same rows, provided that every row
/// has a field and none is a single empty field (a blank line, which reading
/// drops).
pub proof fn law_write_read_roundtrip(rows: Seq<Seq<Seq<char>>>)
    requires
        forall|k: int| 0 <= k < rows.len() ==> (#[trigger] rows[k]).len() >= 1,
        forall|k: int| 0 <= k < rows.len() ==> !is_blank_row(#[trigger] rows[k]),
    ensures
        csv_rows(table_text(rows)) == Ok::<Seq<Seq<Seq<char>>>, CsvError>(rows),
{
    let s = table_text(rows);
    assert(s.subrange(0, s.len() as int) =~= s);
    lemma_scan_table(s, 0, seq![], rows);
    assert(seq![] + rows =~= rows);
    lemma_drop_blank_none(rows);
}

/// Rows whose fields hold no quote, comma or line end, written unquoted with
/// `,` between fields and `\n` after each row, read back as exactly those
/// rows, character for character (spaces and all), provided that every row has
/// a field and none is a single empty field.
pub proof fn law_plain_rows_read_verbatim(rows: Seq<Seq<Seq<char>>>)
    requires
        forall|k: int| 0 <= k < rows.len() ==> (#[trigger] rows[k]).len() >= 1,
        forall|k: int| 0 <= k < rows.len() ==> !is_blank_row(#[trigger] rows[k]),
        forall|k: int, l: int|
            0 <= k < rows.len() && 0 <= l < rows[k].len() ==> is_plain_field(#[trigger] rows[k][l]),
    ensures
        csv_rows(plain_table_text(rows)) == Ok::<Seq<Seq<Seq<char>>>, CsvError>(rows),
{
    let s = plain_table_text(rows);
    assert(s.subrange(0, s.len() as int) =~= s);
    lemma_scan_plain_table(s, 0, seq![], rows);
    assert(seq![] + rows =~= rows);
    lemma_drop_blank_none(rows);
}

/// A non-empty text with no quote, comma or line end, followed by a line end,
/// reads as one row holding that text as its one field.
pub proof fn law_plain_field_read_verbatim(t: Seq<char>)
    requires
        t.len() > 0,
        is_plain_field(t),
    ensures
        csv_rows(t.push('\n')) == Ok::<Seq<Seq<Seq<char>>>, CsvError>(seq![seq![t]]),
{
    let rows = seq![seq![t]];
    assert(plain_row_text(seq![t]) == t);
    assert(plain_table_text(rows.drop_first()) =~= seq![]);
    assert(plain_table_text(rows) =~= t.push('\n'));
    assert(!is_blank_row(rows[0]));
    law_plain_rows_read_verbatim(rows);
}

/// Ending a line outside quotes changes nothing of what a finished text reads as.
proof fn lemma_finish_end_row(t: ScanState)
    requires
        !t.in_quotes,
    ensures
        finish_scan(end_row(t)) == finish_scan(t),
{
    let e = end_row(t);
    assert(e.field.len() == 0 && e.row.len() == 0);
    if !(t.field.len() > 0 || t.row.len() > 0) {
        let r = t.row.push(t.field);
        assert(is_blank_row(r));
        assert(t.rows.push(r).drop_last() =~= t.rows);
    }
}

proof fn lemma_scan_trailing_end(s: Seq<char>, i: int, st: ScanState, e: char)
    requires
        0 <= i <= s.len(),
        e == '\n' || e == '\r',
    ensures
        finish_scan(scan(s.push(e), i, st)) == finish_scan(scan(s, i, st)),
    decreases s.len() - i,
{
    let u = s.push(e);
    assert(u.len() == s.len() + 1);
    assert(u[s.len() as int] == e);
    if i == s.len() {
        assert(scan(s, i, st) == st);
        assert(scan(u, i + 1, add_char(st, e)) == add_char(st, e));
        assert(scan(u, i + 1, end_row(st)) == end_row(st));
        if !st.in_quotes {
            assert(scan(u, i, st) == scan(u, i + 1, end_row(st)));
            lemma_finish_end_row(st);
        } else {
            assert(scan(u, i, st) == scan(u, i + 1, add_char(st, e)));
        }
    } else if i + 1 < s.len() {
        assert(u[i] == s[i]);
        assert(u[i + 1] == s[i + 1]);
        let c = s[i];
        let nq = s[i + 1] == '"';
        let nl = s[i + 1] == '\n';
        if st.in_quotes {
            if c == '"' {
                if nq {
                    lemma_scan_trailing_end(s, i + 2, add_char(st, '"'), e);
                } else {
                    lemma_scan_trailing_end(s, i + 1, set_quotes(st, false), e);
                }
            } else {
                lemma_scan_trailing_end(s, i + 1, add_char(st, c), e);
            }
        } else if c == '"' {
            lemma_scan_trailing_end(s, i + 1, set_quotes(st, true), e);
        } else if c == ',' {
            lemma_scan_trailing_end(s, i + 1, end_field(st), e);
        } else if c == '\n' {
            lemma_scan_trailing_end(s, i + 1, end_row(st), e);
        } else if c == '\r' {
            if nl {
                lemma_scan_trailing_end(s, i + 2, end_row(st), e);
            } else {
                lemma_scan_trailing_end(s, i + 1, end_row(st), e);
            }
        } else {
            lemma_scan_trailing_end(s, i + 1, add_char(st, c), e);
        }
    } else {
        // the last character of `s`
        let c = s[i];
        assert(u[i] == c);
        let j = i + 1;
        if st.in_quotes {
            if c == '"' {
                let t = set_quotes(st, false);
                assert(scan(s, j, t) == t);
                assert(scan(u, j + 1, end_row(t)) == end_row(t));
                assert(scan(u, j, t) == scan(u, j + 1, end_row(t)));
                lemma_finish_end_row(t);
            } else {
                let t = add_char(st, c);
                assert(scan(s, i, st) == scan(s, j, t));
                assert(scan(u, i, st) == scan(u, j, t));
                assert(scan(s, j, t) == t);
                assert(scan(u, j, t) == scan(u, j + 1, add_char(t, e)));
                assert(scan(u, j + 1, add_char(t, e)) == add_char(t, e));
            }
        } else if c == '"' {
            let t = set_quotes(st, true);
            assert(scan(s, i, st) == scan(s, j, t));
            assert(scan(u, i, st) == scan(u, j, t));
            assert(scan(s, j, t) == t);
            assert(scan(u, j, t) == scan(u, j + 1, add_char(t, e)));
            assert(scan(u, j + 1, add_char(t, e)) == add_char(t, e));
        } else if c == '\r' {
            let t = end_row(st);
            assert(scan(s, i, st) == scan(s, j, t));
            assert(scan(s, j, t) == t);
            if e == '\n' {
                assert(scan(u, i, st) == scan(u, j + 1, t));
                assert(scan(u, j + 1, t) == t);
            } else {
                assert(scan(u, i, st) == scan(u, j, t));
                assert(scan(u, j, t) == scan(u, j + 1, end_row(t)));
                assert(scan(u, j + 1, end_row(t)) == end_row(t));
                lemma_finish_end_row(t);
            }
        } else {
            let t = if c == ',' {
                end_field(st)
            } else if c == '\n' {
                end_row(st)
            } else {
                add_char(st, c)
            };
            assert(scan(s, i, st) == scan(s, j, t));
            assert(scan(u, i, st) == scan(u, j, t));
            assert(scan(s, j, t) == t);
            assert(scan(u, j, t) == scan(u, j + 1, end_row(t)));
            assert(scan(u, j + 1, end_row(t)) == end_row(t));
            lemma_finish_end_row(t);
        }
    }
}

/// A line end (`\n`, `\r` or `\r\n`) added after the text changes nothing
/// of what it reads as: the same rows, or the same error.
pub proof fn law_trailing_line_end(s: Seq<char>)
    ensures
        csv_rows(s.push('\n')) == csv_rows(s),
        csv_rows(s.push('\r')) == csv_rows(s),
        csv_rows(s + seq!['\r', '\n']) == csv_rows(s),
{
    lemma_scan_trailing_end(s, 0, start_state(), '\n');
    lemma_scan_trailing_end(s, 0, start_state(), '\r');
    lemma_scan_trailing_end(s.push('\r'), 0, start_state(), '\n');
    assert(s + seq!['\r', '\n'] =~= s.push('\r').push('\n'));
}

/// Written rows read back the same also without the line end after the last row.
pub proof fn law_write_read_roundtrip_unterminated(rows: Seq<Seq<Seq<char>>>)
    requires
        rows.len() >= 1,
        forall|k: int| 0 <= k < rows.len() ==> (#[trigger] rows[k]).len() >= 1,
        forall|k: int| 0 <= k < rows.len() ==> !is_blank_row(#[trigger] rows[k]),
    ensures
        csv_rows(table_text(rows).drop_last()) == Ok::<Seq<Seq<Seq<char>>>, CsvError>(rows),
{
    lemma_table_text_ends_lf(rows);
    let t = table_text(rows);
    assert(t.drop_last().push('\n') =~= t);
    law_trailing_line_end(t.drop_last());
    law_write_read_roundtrip(rows);
}

proof fn lemma_table_text_ends_lf(rows: Seq<Seq<Seq<char>>>)
    requires
        rows.len() >= 1,
    ensures
        table_text(rows).len() >= 1,
        table_text(rows).last() == '\n',
    decreases rows.len(),
{
    let rest = rows.drop_first();
    if rest.len() >= 1 {
        lemma_table_text_ends_lf(rest);
    } else {
        assert(table_text(rest) =~= seq![]);
    }
}

fn take_string(s: &mut String) -> (out: String)
    ensures
        out@ == old(s)@,
        final(s)@ == Seq::<char>::empty(),
{
    let mut out = String::new();
    std::mem::swap(&mut out, s);
    out
}

fn take_row(r: &mut Vec<String>) -> (out: Vec<String>)
    ensures
        out@ == old(r)@,
        final(r)@ == Seq::<String>::empty(),
{
    let mut out: Vec<String> = Vec::new();
    std::mem::swap(&mut out, r);
    out
}

/// Splits CSV text into rows of fields.
pub fn parse_csv(input: &str) -> (res: Result<Vec<Vec<String>>, CsvError>)
    ensures
        rows_result_view(res) == csv_rows(input@),
{
    let cs = chars_of(input);
    let n = cs.len();
    let ghost s = input@;
    let mut rows: Vec<Vec<String>> = Vec::new();
    let mut row: Vec<String> = Vec::new();
    let mut field = String::new();
    let mut in_quotes = false;
    let mut i: usize = 0;
    assert(rows.deep_view() =~= seq![]);
    assert(row.deep_view() =~= seq![]);
    while i < n
        invariant
            cs@ == s,
            n == s.len(),
            i <= n,
            scan(s, 0, start_state()) == scan(
                s,
                i as int,
                ScanState {
                    rows: rows.deep_view(),
                    row: row.deep_view(),
                    field: field@,
                    in_quotes,
                },
            ),
        decreases n - i,
    {
        let ghost st = ScanState {
            rows: rows.deep_view(),
            row: row.deep_view(),
            field: field@,
            in_quotes,
        };
        let c = cs[i];
        let next_quote = i + 1 < n && cs[i + 1] == '"';
        let next_lf = i + 1 < n && cs[i + 1] == '\n';
        if in_quotes {
            if c == '"' {
                if next_quote {
                    push_char(&mut field, '"');
                    i = i + 2;
                } else {
                    in_quotes = false;
                    i = i + 1;
                }
            } else {
                push_char(&mut field, c);
                i = i + 1;
            }
        } else if c == '"' {
            in_quotes = true;
            i = i + 1;
        } else if c == ',' {
            let ghost fv = field@;
            let f = take_string(&mut field);
            row.push(f);
            assert(row.deep_view() =~= st.row.push(fv));
            i = i + 1;
        } else if c == '\n' || c == '\r' {
            let ghost fv = field@;
            let ghost rv = row.deep_view();
            let f = take_string(&mut field);
            row.push(f);
            assert(row.deep_view() =~= rv.push(fv));
            let r = take_row(&mut row);
            let ghost full = r.deep_view();
            assert(full =~= rv.push(fv));
            rows.push(r);
            assert(rows.deep_view() =~= st.rows.push(full));
            assert(row.deep_view() =~= seq![]);
            if c == '\r' && next_lf {
                i = i + 2;
            } else {
                i = i + 1;
            }
        } else {
            push_char(&mut field, c);
            i = i + 1;
        }
    }
    if in_quotes {
        return Err(CsvError::UnterminatedQuote);
    }
    if !field.as_str().is_empty() || row.len() > 0 {
        let ghost fv = field@;
        let ghost rv = row.deep_view();
        let ghost before = rows.deep_view();
        row.push(field);
        assert(row.deep_view() =~= rv.push(fv));
        let ghost full = row.deep_view();
        rows.push(row);
        assert(rows.deep_view() =~= before.push(full));
    }
    let kept = drop_blank(&rows);
    Ok(kept)
}

/// Whether a row reads as a blank line.
fn blank_row(r: &Vec<String>) -> (b: bool)
    ensures
        b == is_blank_row(r.deep_view()),
{
    r.len() == 1 && r[0].as_str().is_empty()
}

/// `rows` without its blank rows.
fn drop_blank(rows: &Vec<Vec<String>>) -> (out: Vec<Vec<String>>)
    ensures
        out.deep_view() == drop_blank_rows(rows.deep_view()),
{
    let mut out: Vec<Vec<String>> = Vec::new();
    let n = rows.len();
    assert(out.deep_view() =~= drop_blank_rows(rows.deep_view().take(0)));
    for i in 0..n
        invariant
            n == rows.len(),
            out.deep_view() == drop_blank_rows(rows.deep_view().take(i as int)),
    {
        let ghost prev = out.deep_view();
        assert(rows.deep_view().take(i + 1).drop_last() =~= rows.deep_view().take(i as int));
        assert(rows.deep_view().take(i + 1).last() == rows[i as int].deep_view());
        if !blank_row(&rows[i]) {
            out.push(rows[i].clone());
            assert(out.deep_view() =~= prev.push(rows[i as int].deep_view()));
        }
    }
    assert(rows.deep_view().take(n as int) =~= rows.deep_view());
    out
}


/// One data row of a CSV file, keyed by the header's column names.
/// A name that occurs twice in the header keeps the later column's value.
#[derive(Debug, Clone)]
pub struct CsvRecord {
    /// `(column name, value)` in column order.
    pub fields: Vec<(String, String)>,
}

/// The map that inserting `pairs` in order into an empty map gives.
pub open spec fn pairs_to_map(pairs: Seq<(Seq<char>, Seq<char>)>) -> Map<Seq<char>, Seq<char>>
    decreases pairs.len(),
{
    if pairs.len() == 0 {
        Map::empty()
    } else {
        pairs_to_map(pairs.drop_last()).insert(pairs.last().0, pairs.last().1)
    }
}

impl View for CsvRecord {
    type V = Map<Seq<char>, Seq<char>>;

    open spec fn view(&self) -> Map<Seq<char>, Seq<char>> {
        pairs_to_map(self.fields.deep_view())
    }
}

/// A key that no pair holds is absent; the last pair that holds a key gives its value.
pub proof fn lemma_pairs_to_map(pairs: Seq<(Seq<char>, Seq<char>)>, key: Seq<char>, j: int)
    requires
        -1 <= j < pairs.len(),
        forall|l: int| j < l < pairs.len() ==> (#[trigger] pairs[l]).0 != key,
        j >= 0 ==> pairs[j].0 == key,
    ensures
        j < 0 ==> !pairs_to_map(pairs).contains_key(key),
        j >= 0 ==> pairs_to_map(pairs).contains_key(key) && pairs_to_map(pairs)[key]
            == pairs[j].1,
    decreases pairs.len(),
{
    if pairs.len() > 0 {
        if j == pairs.len() - 1 {
        } else {
            let p = pairs.drop_last();
            assert forall|l: int| j < l < p.len() implies (#[trigger] p[l]).0 != key by {
                assert(p[l] == pairs[l]);
            }
            lemma_pairs_to_map(p, key, j);
        }
    }
}

/// The keys of `pairs_to_map(pairs)` are the first components of `pairs`.
pub proof fn lemma_pairs_to_map_keys(pairs: Seq<(Seq<char>, Seq<char>)>)
    ensures
        pairs_to_map(pairs).dom() == pairs.map_values(|p: (Seq<char>, Seq<char>)| p.0).to_set(),
    decreases pairs.len(),
{
    let keys = pairs.map_values(|p: (Seq<char>, Seq<char>)| p.0);
    if pairs.len() > 0 {
        let rest = pairs.drop_last();
        lemma_pairs_to_map_keys(rest);
        let rk = rest.map_values(|p: (Seq<char>, Seq<char>)| p.0);
        assert(keys.drop_last() =~= rk);
        assert forall|k: Seq<char>| pairs_to_map(pairs).dom().contains(k) <==> keys.to_set().contains(
            k,
        ) by {
            if keys.to_set().contains(k) {
                let w = choose|w: int| 0 <= w < keys.len() && keys[w] == k;
                if w < keys.len() - 1 {
                    assert(rk[w] == k);
                    assert(rk.to_set().contains(k));
                }
            }
            if pairs_to_map(rest).dom().contains(k) {
                assert(rk.to_set().contains(k));
                let w = choose|w: int| 0 <= w < rk.len() && rk[w] == k;
                assert(keys[w] == k);
            }
            if k == pairs.last().0 {
                assert(keys[keys.len() - 1] == k);
            }
        }
        assert(pairs_to_map(pairs).dom() =~= keys.to_set());
    } else {
        assert(keys.to_set() =~= Set::empty());
    }
}

impl CsvRecord {
    /// The value stored under `key`, as a map lookup would give it.
    pub fn get(&self, key: &str) -> (res: Option<&String>)
        ensures
            match res {
                Some(v) => self@.contains_key(key@) && self@[key@] == v@,
                None => !self@.contains_key(key@),
            },
    {
        let ghost pairs = self.fields.deep_view();
        let mut i = self.fields.len();
        while i > 0
            invariant
                i <= self.fields.len(),
                pairs == self.fields.deep_view(),
                forall|l: int| i <= l < pairs.len() ==> (#[trigger] pairs[l]).0 != key@,
            decreases i,
        {
            i = i - 1;
            if crate::text::str_eq(self.fields[i].0.as_str(), key) {
                proof {
                    lemma_pairs_to_map(pairs, key@, i as int);
                }
                return Some(&self.fields[i].1);
            }
        }
        proof {
            lemma_pairs_to_map(pairs, key@, -1);
        }
        None
    }
}

/// `s` without its leading byte-order marks (`trim_start_matches('\u{feff}')`).
pub open spec fn trim_bom(s: Seq<char>) -> Seq<char>
    decreases s.len(),
{
    if s.len() > 0 && s[0] == '\u{feff}' {
        trim_bom(s.drop_first())
    } else {
        s
    }
}

proof fn lemma_trim_bom(s: Seq<char>, k: int)
    requires
        0 <= k <= s.len(),
        forall|j: int| 0 <= j < k ==> s[j] == '\u{feff}',
        k == s.len() || s[k] != '\u{feff}',
    ensures
        trim_bom(s) == s.skip(k),
    decreases k,
{
    if k == 0 {
        assert(s.skip(0) =~= s);
    } else {
        lemma_trim_bom(s.drop_first(), k - 1);
        assert(s.drop_first().skip(k - 1) =~= s.skip(k));
    }
}

/// A copy of `s` without its leading byte-order marks.
pub fn strip_bom(s: &str) -> (out: String)
    ensures
        out@ == trim_bom(s@),
{
    let cs = chars_of(s);
    let mut k: usize = 0;
    while k < cs.len() && cs[k] == '\u{feff}'
        invariant
            cs@ == s@,
            k <= cs@.len(),
            forall|j: int| 0 <= j < k ==> s@[j] == '\u{feff}',
        decreases cs.len() - k,
    {
        k = k + 1;
    }
    proof {
        lemma_trim_bom(s@, k as int);
    }
    let mut out = String::new();
    let n = cs.len();
    let mut j = k;
    while j < n
        invariant
            cs@ == s@,
            n == cs@.len(),
            k <= j <= n,
            out@ == s@.subrange(k as int, j as int),
        decreases n - j,
    {
        push_char(&mut out, cs[j]);
        assert(s@.subrange(k as int, j as int).push(s@[j as int]) =~= s@.subrange(k as int, j + 1));
        j = j + 1;
    }
    assert(s@.subrange(k as int, n as int) =~= s@.skip(k as int));
    out
}

/// The header row, with byte-order marks taken off its first name.
pub open spec fn header_of(first: Seq<Seq<char>>) -> Seq<Seq<char>> {
    if first.len() > 0 {
        first.update(0, trim_bom(first[0]))
    } else {
        first
    }
}

/// The `(name, value)` pairs of a row under a header of the same length.
pub open spec fn zip_pairs(header: Seq<Seq<char>>, row: Seq<Seq<char>>) -> Seq<(Seq<char>, Seq<char>)> {
    Seq::new(header.len(), |j: int| (header[j], row[j]))
}

/// The records of the data rows `body` under `header`: rows of another length are skipped.
pub open spec fn records_under(header: Seq<Seq<char>>, body: Seq<Seq<Seq<char>>>) -> Seq<Map<Seq<char>, Seq<char>>>
    decreases body.len(),
{
    if body.len() == 0 {
        seq![]
    } else {
        let prev = records_under(header, body.drop_last());
        if body.last().len() == header.len() {
            prev.push(pairs_to_map(zip_pairs(header, body.last())))
        } else {
            prev
        }
    }
}

/// The records that a table of rows holds: the first row names the columns.
pub open spec fn records_of(rows: Seq<Seq<Seq<char>>>) -> Seq<Map<Seq<char>, Seq<char>>> {
    if rows.len() == 0 {
        seq![]
    } else {
        records_under(header_of(rows[0]), rows.drop_first())
    }
}

/// The records of a parse result, taken by their maps.
pub open spec fn records_view(recs: Seq<CsvRecord>) -> Seq<Map<Seq<char>, Seq<char>>> {
    recs.map_values(|r: CsvRecord| r@)
}

fn header_row(first: &Vec<String>) -> (h: Vec<String>)
    ensures
        h.deep_view() == header_of(first.deep_view()),
{
    let mut h: Vec<String> = Vec::new();
    let n = first.len();
    for j in 0..n
        invariant
            n == first.len(),
            h.len() == j,
            forall|l: int| 0 <= l < j ==> (#[trigger] h@[l])@ == header_of(first.deep_view())[l],
    {
        if j == 0 {
            h.push(strip_bom(first[0].as_str()));
        } else {
            h.push(first[j].clone());
        }
    }
    assert(h.deep_view() =~= header_of(first.deep_view()));
    h
}

fn record_of(header: &Vec<String>, row: &Vec<String>) -> (r: CsvRecord)
    requires
        header.len() == row.len(),
    ensures
        r.fields.deep_view() == zip_pairs(header.deep_view(), row.deep_view()),
{
    let mut fields: Vec<(String, String)> = Vec::new();
    let n = header.len();
    for j in 0..n
        invariant
            n == header.len(),
            n == row.len(),
            fields.len() == j,
            forall|l: int|
                0 <= l < j ==> (#[trigger] fields@[l]).deep_view() == zip_pairs(
                    header.deep_view(),
                    row.deep_view(),
                )[l],
    {
        fields.push((header[j].clone(), row[j].clone()));
    }
    assert(fields.deep_view() =~= zip_pairs(header.deep_view(), row.deep_view()));
    CsvRecord { fields }
}

/// The records that the rows of a CSV table hold: the first row names the
/// columns and each later row of the same length gives one record.
pub fn records_from_rows(rows: &Vec<Vec<String>>) -> (recs: Vec<CsvRecord>)
    ensures
        records_view(recs@) == records_of(rows.deep_view()),
{
    let mut recs: Vec<CsvRecord> = Vec::new();
    if rows.len() == 0 {
        assert(records_view(recs@) =~= records_of(rows.deep_view()));
        return recs;
    }
    let header = header_row(&rows[0]);
    let ghost h = header.deep_view();
    let ghost body = rows.deep_view().drop_first();
    let n = rows.len();
    assert(records_view(recs@) =~= records_under(h, body.take(0)));
    for i in 1..n
        invariant
            n == rows.len(),
            n >= 1,
            h == header.deep_view(),
            h == header_of(rows.deep_view()[0]),
            body == rows.deep_view().drop_first(),
            records_view(recs@) == records_under(h, body.take(i - 1)),
    {
        let ghost prev = records_view(recs@);
        assert(body.take(i as int).drop_last() =~= body.take(i - 1));
        assert(body.take(i as int).last() == rows[i as int].deep_view());
        if rows[i].len() == header.len() {
            let r = record_of(&header, &rows[i]);
            recs.push(r);
            assert(records_view(recs@) =~= prev.push(r@));
        }
    }
    assert(body.take(n - 1) =~= body);
    recs
}

/// The records of a CSV text, or the error that reading it meets.
pub open spec fn csv_records(text: Seq<char>) -> Result<Seq<Map<Seq<char>, Seq<char>>>, CsvError> {
    match csv_rows(text) {
        Ok(rows) => Ok(records_of(rows)),
        Err(e) => Err(e),
    }
}

/// Reads the records of a CSV text: the first row names the columns, a
/// leading byte-order mark is dropped from the first name, and data rows whose
/// length differs from the header's are skipped.
pub fn records_from_text(text: &str) -> (res: Result<Vec<CsvRecord>, CsvError>)
    ensures
        match res {
            Ok(recs) => csv_records(text@) == Ok::<_, CsvError>(records_view(recs@)),
            Err(e) => csv_records(text@) == Err::<Seq<Map<Seq<char>, Seq<char>>>, _>(e),
        },
{
    match parse_csv(text) {
        Ok(rows) => Ok(records_from_rows(&rows)),
        Err(e) => Err(e),
    }
}

/// Every record holds exactly the header's column names as keys.
pub proof fn law_records_keys(header: Seq<Seq<char>>, body: Seq<Seq<Seq<char>>>)
    ensures
        forall|k: int|
            0 <= k < records_under(header, body).len() ==> (#[trigger] records_under(
                header,
                body,
            )[k]).dom() == header.to_set(),
        records_under(header, body).len() <= body.len(),
    decreases body.len(),
{
    if body.len() > 0 {
        law_records_keys(header, body.drop_last());
        if body.last().len() == header.len() {
            let z = zip_pairs(header, body.last());
            lemma_pairs_to_map_keys(z);
            assert(z.map_values(|p: (Seq<char>, Seq<char>)| p.0) =~= header);
        }
    }
}

/// Byte-order marks are taken off the front of the first column name, and
/// nothing else: what is left is the name after its leading marks.
pub proof fn law_trim_bom(s: Seq<char>)
    ensures
        trim_bom(s).len() == 0 || trim_bom(s)[0] != '\u{feff}',
        exists|k: int|
            0 <= k <= s.len() && trim_bom(s) == s.skip(k) && forall|j: int|
                0 <= j < k ==> s[j] == '\u{feff}',
    decreases s.len(),
{
    if s.len() > 0 && s[0] == '\u{feff}' {
        law_trim_bom(s.drop_first());
        let k = choose|k: int|
            0 <= k <= s.drop_first().len() && trim_bom(s.drop_first()) == s.drop_first().skip(k)
                && forall|j: int| 0 <= j < k ==> s.drop_first()[j] == '\u{feff}';
        assert(s.drop_first().skip(k) =~= s.skip(k + 1));
        assert forall|j: int| 0 <= j < k + 1 implies s[j] == '\u{feff}' by {
            if j > 0 {
                assert(s[j] == s.drop_first()[j - 1]);
            }
        }
    } else {
        assert(s.skip(0) =~= s);
    }
}

proof fn lemma_record_value(header: Seq<Seq<char>>, row: Seq<Seq<char>>, j: int)
    requires
        row.len() == header.len(),
        forall|a: int, b: int| 0 <= a < b < header.len() ==> header[a] != header[b],
        0 <= j < header.len(),
    ensures
        pairs_to_map(zip_pairs(header, row)).contains_key(header[j]),
        pairs_to_map(zip_pairs(header, row))[header[j]] == row[j],
{
    let z = zip_pairs(header, row);
    assert forall|l: int| j < l < z.len() implies (#[trigger] z[l]).0 != header[j] by {
        assert(z[l].0 == header[l]);
    }
    assert(z[j] == (header[j], row[j]));
    lemma_pairs_to_map(z, header[j], j);
}

/// Under a header whose names are all different, a row of the header's
/// length gives the record that maps each name to the field in its column.
pub proof fn law_record_values(header: Seq<Seq<char>>, row: Seq<Seq<char>>)
    requires
        row.len() == header.len(),
        forall|a: int, b: int| 0 <= a < b < header.len() ==> header[a] != header[b],
    ensures
        forall|j: int|
            0 <= j < header.len() ==> pairs_to_map(zip_pairs(header, row)).contains_key(
                #[trigger] header[j],
            ),
        forall|j: int|
            0 <= j < header.len() ==> pairs_to_map(zip_pairs(header, row))[#[trigger] header[j]]
                == row[j],
{
    assert forall|j: int| 0 <= j < header.len() implies pairs_to_map(
        zip_pairs(header, row),
    ).contains_key(#[trigger] header[j]) && pairs_to_map(zip_pairs(header, row))[header[j]]
        == row[j] by {
        lemma_record_value(header, row, j);
    }
}

/// Data rows of the header's length each give one record, in order; rows of
/// any other length give none.
pub proof fn law_records_rows(header: Seq<Seq<char>>, body: Seq<Seq<Seq<char>>>)
    ensures
        (forall|k: int| 0 <= k < body.len() ==> (#[trigger] body[k]).len() == header.len()) ==> {
            &&& records_under(header, body).len() == body.len()
            &&& forall|k: int|
                0 <= k < body.len() ==> #[trigger] records_under(header, body)[k] == pairs_to_map(
                    zip_pairs(header, body[k]),
                )
        },
        (forall|k: int| 0 <= k < body.len() ==> (#[trigger] body[k]).len() != header.len())
            ==> records_under(header, body).len() == 0,
    decreases body.len(),
{
    if body.len() > 0 {
        let p = body.drop_last();
        law_records_rows(header, p);
        if forall|k: int| 0 <= k < body.len() ==> (#[trigger] body[k]).len() == header.len() {
            assert forall|k: int| 0 <= k < p.len() implies (#[trigger] p[k]).len() == header.len() by {
                assert(p[k] == body[k]);
            }
            assert(body.last() == body[body.len() - 1]);
            assert forall|k: int| 0 <= k < body.len() implies #[trigger] records_under(header, body)[k]
                == pairs_to_map(zip_pairs(header, body[k])) by {
                if k < p.len() {
                    assert(p[k] == body[k]);
                }
            }
        }
        if forall|k: int| 0 <= k < body.len() ==> (#[trigger] body[k]).len() != header.len() {
            assert forall|k: int| 0 <= k < p.len() implies (#[trigger] p[k]).len() != header.len() by {
                assert(p[k] == body[k]);
            }
            assert(body.last() == body[body.len() - 1]);
        }
    }
}
} // verus!
