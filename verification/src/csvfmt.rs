use crate::textutil::{chars_vec, string_from_chars};
use vstd::prelude::*;

verus! {

/// What the csv reader makes of this text: its rows, the header row first,
/// or nothing when the text is not a well-formed CSV document. The outcome
/// depends on the text alone.
pub uninterp spec fn csv_table_of(s: Seq<char>) -> Option<Seq<Seq<Seq<char>>>>;

/// Relies on csv::ReaderBuilder with its default settings (headers on,
/// flexible off): yields the header row and the records; with flexible off
/// every record holds as many fields as the header row, and a record of
/// another width is an error. A parse error yields nothing.
#[verifier::external_body]
fn parse_csv_text(text: &str) -> (r: Option<Vec<Vec<String>>>)
    ensures
        r matches Some(t) ==> csv_table_of(text@) == Some(t.deep_view()),
        r is None <==> csv_table_of(text@) is None,
        r matches Some(t) ==> t.deep_view().len() >= 1 && forall|i: int|
            0 <= i < t.deep_view().len() ==> #[trigger] t.deep_view()[i].len()
                == t.deep_view()[0].len(),
{
    let mut rdr = csv::ReaderBuilder::new().from_reader(text.as_bytes());
    let mut out: Vec<Vec<String>> = Vec::new();
    match rdr.headers() {
        Ok(h) => out.push(h.iter().map(|f| f.to_string()).collect()),
        Err(_) => return None,
    }
    for rec in rdr.records() {
        match rec {
            Ok(rr) => out.push(rr.iter().map(|f| f.to_string()).collect()),
            Err(_) => return None,
        }
    }
    Some(out)
}

/// The width of column `j` over the first `n` rows: the longest cell.
pub open spec fn col_w(all: Seq<Seq<Seq<char>>>, j: int, n: int) -> int
    decreases n,
{
    if n <= 0 {
        0
    } else {
        let prev = col_w(all, j, n - 1);
        let cur = if 0 <= j < all[n - 1].len() {
            all[n - 1][j].len() as int
        } else {
            0
        };
        if cur > prev {
            cur
        } else {
            prev
        }
    }
}

pub proof fn lemma_col_w_nonneg(all: Seq<Seq<Seq<char>>>, j: int, n: int)
    ensures
        col_w(all, j, n) >= 0,
    decreases n,
{
    if n > 0 {
        lemma_col_w_nonneg(all, j, n - 1);
    }
}

/// A run of one repeated character.
pub open spec fn repeat_char(c: char, n: int) -> Seq<char> {
    if n <= 0 {
        Seq::empty()
    } else {
        Seq::new(n as nat, |i: int| c)
    }
}

/// A cell padded with spaces to the column width.
pub open spec fn pad(cell: Seq<char>, w: int) -> Seq<char> {
    cell + repeat_char(' ', w - cell.len())
}

/// The cells of one row from column `j` on, padded and joined by " | ".
pub open spec fn row_cells(row: Seq<Seq<char>>, all: Seq<Seq<Seq<char>>>, j: int) -> Seq<char>
    decreases row.len() - j,
{
    if j < 0 || j >= row.len() {
        Seq::empty()
    } else {
        (if j > 0 {
            seq![' ', '|', ' ']
        } else {
            Seq::<char>::empty()
        }) + pad(row[j], col_w(all, j, all.len() as int)) + row_cells(row, all, j + 1)
    }
}

/// The dash rule under the header: one dash run per column, joined by "-+-".
pub open spec fn dash_cells(all: Seq<Seq<Seq<char>>>, ncols: int, j: int) -> Seq<char>
    decreases ncols - j,
{
    if j < 0 || j >= ncols {
        Seq::empty()
    } else {
        (if j > 0 {
            seq!['-', '+', '-']
        } else {
            Seq::<char>::empty()
        }) + repeat_char('-', col_w(all, j, all.len() as int)) + dash_cells(all, ncols, j + 1)
    }
}

/// The table's rows from `i` on, one line each.
pub open spec fn rows_lines(all: Seq<Seq<Seq<char>>>, i: int) -> Seq<char>
    decreases all.len() - i,
{
    if i < 0 || i >= all.len() {
        Seq::empty()
    } else {
        row_cells(all[i], all, 0) + seq!['\n'] + rows_lines(all, i + 1)
    }
}

/// The whole rendered table: the header line, the dash rule, then every
/// record line, each column padded to the width of its longest cell.
pub open spec fn csv_render_spec(t: Seq<Seq<Seq<char>>>) -> Seq<char>
    recommends
        t.len() >= 1,
{
    row_cells(t[0], t, 0) + seq!['\n'] + dash_cells(t, t[0].len() as int, 0) + seq!['\n']
        + rows_lines(t, 1)
}

/// No row wider than the header row. The reader's records are exactly as
/// wide; a hand-built document may hold shorter records, rendered short.
pub open spec fn rows_within_header(t: Seq<Seq<Seq<char>>>) -> bool {
    forall|i: int| 0 <= i < t.len() ==> #[trigger] t[i].len() <= t[0].len()
}

/// Appends `n` copies of a character.
fn push_repeat(out: &mut Vec<char>, c: char, n: usize)
    ensures
        final (out)@ == old(out)@ + repeat_char(c, n as int),
{
    let mut i: usize = 0;
    while i < n
        invariant
            i <= n,
            out@ == old(out)@ + repeat_char(c, i as int),
        decreases n - i,
    {
        out.push(c);
        i = i + 1;
        assert(out@ =~= old(out)@ + repeat_char(c, i as int));
    }
}

/// Appends the characters of a string.
fn push_str_chars(out: &mut Vec<char>, s: &String)
    ensures
        final (out)@ == old(out)@ + s@,
{
    let cs = chars_vec(s.as_str());
    let mut i: usize = 0;
    while i < cs.len()
        invariant
            i <= cs@.len(),
            cs@ == s@,
            out@ == old(out)@ + cs@.subrange(0, i as int),
        decreases cs@.len() - i,
    {
        out.push(cs[i]);
        i = i + 1;
        assert(out@ =~= old(out)@ + cs@.subrange(0, i as int));
    }
    assert(old(out)@ + cs@.subrange(0, cs@.len() as int) =~= old(out)@ + s@);
}

/// Renders a whole table, header row first; every column is padded to its
/// widest cell, cells are joined by " | ", and a dash rule follows the
/// header line.
pub fn render_table(all: &Vec<Vec<String>>) -> (r: String)
    requires
        all.deep_view().len() >= 1,
        rows_within_header(all.deep_view()),
    ensures
        r@ == csv_render_spec(all.deep_view()),
{
    let ghost dv = all.deep_view();
    let nrows = all.len();
    let ncols = all[0].len();
    proof {
        assert(dv[0] =~= all@[0].deep_view());
        assert(dv.len() == nrows);
        assert forall|i: int, j: int|
            0 <= i < nrows && 0 <= j < dv[i].len() implies #[trigger] dv[i][j]
            == all@[i]@[j]@ by {
            assert(dv[i] =~= all@[i].deep_view());
        }
        assert forall|i: int| 0 <= i < nrows implies #[trigger] dv[i].len()
            == all@[i]@.len() by {
            assert(dv[i] =~= all@[i].deep_view());
        }
    }
    // column widths
    let mut widths: Vec<usize> = Vec::new();
    let mut j: usize = 0;
    while j < ncols
        invariant
            j <= ncols == dv[0].len(),
            nrows == dv.len() >= 1,
            dv == all.deep_view(),
            rows_within_header(dv),
            widths@.len() == j,
            forall|q: int| 0 <= q < j ==> #[trigger] widths@[q] as int == col_w(dv, q, dv.len() as int),
            forall|i: int, q: int|
                0 <= i < nrows && 0 <= q < dv[i].len() ==> #[trigger] dv[i][q] == all@[i]@[q]@,
            forall|i: int| 0 <= i < nrows ==> #[trigger] dv[i].len() == all@[i]@.len(),
        decreases ncols - j,
    {
        let mut w: usize = 0;
        let mut i: usize = 0;
        while i < nrows
            invariant
                i <= nrows == dv.len(),
                j < ncols == dv[0].len(),
                dv == all.deep_view(),
                rows_within_header(dv),
                w as int == col_w(dv, j as int, i as int),
                forall|p: int, q: int|
                    0 <= p < nrows && 0 <= q < dv[p].len() ==> #[trigger] dv[p][q]
                        == all@[p]@[q]@,
                forall|p: int| 0 <= p < nrows ==> #[trigger] dv[p].len() == all@[p]@.len(),
            decreases nrows - i,
        {
            if j < all[i].len() {
                let cell_len = all[i][j].as_str().unicode_len();
                if cell_len > w {
                    w = cell_len;
                }
            }
            i = i + 1;
        }
        widths.push(w);
        j = j + 1;
    }
    // render
    let mut out: Vec<char> = Vec::new();
    emit_row(&mut out, &all[0], &widths, Ghost(dv));
    out.push('\n');
    let mut jj: usize = 0;
    let ghost after_header = out@;
    while jj < ncols
        invariant
            jj <= ncols,
            ncols == dv[0].len(),
            dv == all.deep_view(),
            widths@.len() == ncols,
            forall|q: int| 0 <= q < ncols ==> #[trigger] widths@[q] as int == col_w(dv, q, dv.len() as int),
            out@ + dash_cells(dv, ncols as int, jj as int) == after_header + dash_cells(
                dv,
                ncols as int,
                0,
            ),
        decreases ncols - jj,
    {
        if jj > 0 {
            out.push('-');
            out.push('+');
            out.push('-');
        }
        proof {
            lemma_col_w_nonneg(dv, jj as int, dv.len() as int);
        }
        push_repeat(&mut out, '-', widths[jj]);
        jj = jj + 1;
        proof {
            assert(out@ + dash_cells(dv, ncols as int, jj as int) =~= after_header + dash_cells(
                dv,
                ncols as int,
                0,
            ));
        }
    }
    out.push('\n');
    let mut i: usize = 1;
    while i < nrows
        invariant
            1 <= i <= nrows == dv.len(),
            ncols == dv[0].len(),
            dv == all.deep_view(),
            rows_within_header(dv),
            widths@.len() == ncols,
            forall|q: int| 0 <= q < ncols ==> #[trigger] widths@[q] as int == col_w(dv, q, dv.len() as int),
            out@ + rows_lines(dv, i as int) == csv_render_spec(dv),
        decreases nrows - i,
    {
        proof {
            assert(all@[i as int].deep_view() =~= dv[i as int]);
            assert(dv[i as int].len() <= ncols);
        }
        emit_row(&mut out, &all[i], &widths, Ghost(dv));
        out.push('\n');
        i = i + 1;
    }
    proof {
        assert(out@ =~= csv_render_spec(dv));
    }
    string_from_chars(&out)
}

/// Appends one rendered row: each cell padded to its column width, cells
/// joined by " | ".
fn emit_row(out: &mut Vec<char>, row: &Vec<String>, widths: &Vec<usize>, Ghost(all): Ghost<
    Seq<Seq<Seq<char>>>,
>)
    requires
        row.deep_view().len() <= widths@.len(),
        forall|q: int| 0 <= q < widths@.len() ==> #[trigger] widths@[q] as int == col_w(
            all,
            q,
            all.len() as int,
        ),
    ensures
        final (out)@ == old(out)@ + row_cells(row.deep_view(), all, 0),
{
    let ghost rdv = row.deep_view();
    let n = row.len();
    proof {
        assert(rdv.len() == n);
        assert forall|q: int| 0 <= q < n implies #[trigger] rdv[q] == row@[q]@ by {}
    }
    let mut j: usize = 0;
    while j < n
        invariant
            j <= n == rdv.len() <= widths@.len(),
            rdv == row.deep_view(),
            forall|q: int| 0 <= q < n ==> #[trigger] rdv[q] == row@[q]@,
            forall|q: int| 0 <= q < widths@.len() ==> #[trigger] widths@[q] as int == col_w(
                all,
                q,
                all.len() as int,
            ),
            out@ + row_cells(rdv, all, j as int) == old(out)@ + row_cells(rdv, all, 0),
        decreases n - j,
    {
        if j > 0 {
            out.push(' ');
            out.push('|');
            out.push(' ');
        }
        push_str_chars(out, &row[j]);
        let cell_len = row[j].as_str().unicode_len();
        if cell_len < widths[j] {
            push_repeat(out, ' ', widths[j] - cell_len);
        }
        j = j + 1;
        proof {
            let q = j as int - 1;
            lemma_col_w_nonneg(all, q, all.len() as int);
            assert(pad(rdv[q], col_w(all, q, all.len() as int)) =~= rdv[q] + repeat_char(
                ' ',
                col_w(all, q, all.len() as int) - rdv[q].len(),
            ));
            assert(out@ + row_cells(rdv, all, j as int) =~= old(out)@ + row_cells(rdv, all, 0));
        }
    }
    proof {
        assert(out@ =~= old(out)@ + row_cells(rdv, all, 0));
    }
}

/// A parsed CSV document: the header row and the records under it.
pub struct CsvRecords {
    pub headers: Vec<String>,
    pub records: Vec<Vec<String>>,
}

impl CsvRecords {
    /// The full table the document holds, header row first.
    pub open spec fn table_view(&self) -> Seq<Seq<Seq<char>>> {
        seq![self.headers.deep_view()] + self.records.deep_view()
    }

    /// No record wider than the header row.
    pub open spec fn wf(&self) -> bool {
        rows_within_header(self.table_view())
    }

    /// Renders the document as an aligned table.
    pub fn render(&self) -> (r: String)
        requires
            self.wf(),
        ensures
            r@ == csv_render_spec(self.table_view()),
    {
        let mut all: Vec<Vec<String>> = Vec::new();
        all.push(clone_row(&self.headers));
        let mut i: usize = 0;
        while i < self.records.len()
            invariant
                i <= self.records@.len(),
                all@.len() == i + 1,
                all@[0].deep_view() == self.headers.deep_view(),
                forall|k: int|
                    0 <= k < i ==> #[trigger] all@[k + 1].deep_view()
                        == self.records@[k].deep_view(),
            decreases self.records@.len() - i,
        {
            all.push(clone_row(&self.records[i]));
            i = i + 1;
        }
        proof {
            assert forall|k: int|
                0 <= k < all@.len() implies all.deep_view()[k] == self.table_view()[k] by {
                if k > 0 {
                    assert(all@[(k - 1) + 1].deep_view() == self.records@[k - 1].deep_view());
                }
            }
            assert(all.deep_view() =~= self.table_view());
        }
        render_table(&all)
    }
}

/// Copies one row of cells.
fn clone_row(row: &Vec<String>) -> (r: Vec<String>)
    ensures
        r.deep_view() == row.deep_view(),
{
    let mut out: Vec<String> = Vec::new();
    let mut i: usize = 0;
    while i < row.len()
        invariant
            i <= row@.len(),
            out@.len() == i,
            forall|k: int| 0 <= k < i ==> #[trigger] out@[k]@ == row@[k]@,
        decreases row@.len() - i,
    {
        out.push(row[i].clone());
        i = i + 1;
    }
    proof {
        assert(out.deep_view() =~~= row.deep_view());
    }
    out
}

/// Parses CSV text and renders it as an aligned table, exactly when the
/// csv reader accepts the text.
pub fn parse_as_csv(input: &str) -> (r: Result<String, String>)
    ensures
        r matches Ok(s) ==> csv_table_of(input@) matches Some(t) && s@ == csv_render_spec(t),
        r is Err <==> csv_table_of(input@) is None,
{
    match parse_csv_text(input) {
        Some(t) => Ok(render_table(&t)),
        None => Err(String::from_str("the input is not well-formed CSV")),
    }
}

} // verus!
