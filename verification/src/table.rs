//! Plain-text tables with a border, a header line and left-aligned cells
//! padded to the widest cell of each column, widths counted in bytes.
use vstd::prelude::*;

use crate::text::{byte_len, byte_length, push_char};

verus! {

/// `n` copies of `c`.
pub open spec fn repeated(c: char, n: int) -> Seq<char> {
    Seq::new(n as nat, |i: int| c)
}

/// The dashes and pluses of a border, one run of dashes per column.
pub open spec fn border_body(ws: Seq<int>) -> Seq<char>
    decreases ws.len(),
{
    if ws.len() == 0 {
        Seq::empty()
    } else {
        border_body(ws.drop_last()) + repeated('-', ws.last() + 2) + seq!['+']
    }
}

/// A border line for columns of widths `ws`.
pub open spec fn border_text(ws: Seq<int>) -> Seq<char> {
    seq!['+'] + border_body(ws) + seq!['\n']
}

/// The first `k` cells of a line, each padded to its column width.
pub open spec fn line_body(cells: Seq<Seq<char>>, ws: Seq<int>, k: int) -> Seq<char>
    decreases k,
{
    if k <= 0 {
        Seq::empty()
    } else {
        line_body(cells, ws, k - 1) + seq![' '] + cells[k - 1] + repeated(' ', ws[k - 1] - byte_len(cells[k - 1]) + 1) + seq!['|']
    }
}

/// A table line: as many cells as there are both cells and columns.
pub open spec fn line_text(cells: Seq<Seq<char>>, ws: Seq<int>) -> Seq<char> {
    let k = if cells.len() < ws.len() { cells.len() } else { ws.len() };
    seq!['|'] + line_body(cells, ws, k as int) + seq!['\n']
}

/// The width of column `i`: the widest of its header and its cells.
pub open spec fn column_width(headers: Seq<Seq<char>>, rows: Seq<Seq<Seq<char>>>, i: int) -> int
    decreases rows.len(),
{
    if rows.len() == 0 {
        byte_len(headers[i])
    } else {
        let w = column_width(headers, rows.drop_last(), i);
        let last = rows.last();
        if i < last.len() && byte_len(last[i]) > w {
            byte_len(last[i])
        } else {
            w
        }
    }
}

/// The widths of all columns.
pub open spec fn column_widths(headers: Seq<Seq<char>>, rows: Seq<Seq<Seq<char>>>) -> Seq<int> {
    Seq::new(headers.len(), |i: int| column_width(headers, rows, i))
}

/// The lines of all rows.
pub open spec fn rows_text(rows: Seq<Seq<Seq<char>>>, ws: Seq<int>) -> Seq<char>
    decreases rows.len(),
{
    if rows.len() == 0 {
        Seq::empty()
    } else {
        rows_text(rows.drop_last(), ws) + line_text(rows.last(), ws)
    }
}

/// A table: border, header line, border, one line per row, border.
pub open spec fn table_text(headers: Seq<Seq<char>>, rows: Seq<Seq<Seq<char>>>) -> Seq<char> {
    let ws = column_widths(headers, rows);
    border_text(ws) + line_text(headers, ws) + border_text(ws) + rows_text(rows, ws) + border_text(ws)
}

/// The views of owned cells.
pub open spec fn cell_views(cells: Seq<String>) -> Seq<Seq<char>> {
    cells.map_values(|c: String| c@)
}

/// The views of rows of owned cells.
pub open spec fn row_views(rows: Seq<Vec<String>>) -> Seq<Seq<Seq<char>>> {
    rows.map_values(|r: Vec<String>| cell_views(r@))
}

/// Widths as integers.
pub open spec fn width_views(ws: Seq<usize>) -> Seq<int> {
    ws.map_values(|w: usize| w as int)
}

fn push_repeated(s: &mut String, c: char, n: usize)
    ensures
        final(s)@ == old(s)@ + repeated(c, n as int),
{
    let mut i: usize = 0;
    while i < n
        invariant
            i <= n,
            s@ == old(s)@ + repeated(c, i as int),
        decreases n - i,
    {
        push_char(s, c);
        assert(old(s)@ + repeated(c, i + 1) =~= old(s)@ + repeated(c, i as int) + seq![c]);
        i = i + 1;
    }
}

/// A border line for the given column widths.
pub fn border(widths: &Vec<usize>) -> (r: String)
    requires
        forall|i: int| 0 <= i < widths@.len() ==> #[trigger] widths@[i] <= isize::MAX,
    ensures
        r@ == border_text(width_views(widths@)),
{
    let ghost ws = width_views(widths@);
    let mut line = String::new();
    push_char(&mut line, '+');
    let mut i: usize = 0;
    assert(ws.take(0) =~= Seq::<int>::empty());
    while i < widths.len()
        invariant
            i <= widths.len(),
            ws == width_views(widths@),
            forall|j: int| 0 <= j < widths@.len() ==> #[trigger] widths@[j] <= isize::MAX,
            line@ == seq!['+'] + border_body(ws.take(i as int)),
        decreases widths.len() - i,
    {
        assert(ws.take(i + 1).drop_last() =~= ws.take(i as int));
        assert(ws[i as int] == widths@[i as int] as int);
        push_repeated(&mut line, '-', widths[i] + 2);
        push_char(&mut line, '+');
        assert(line@ =~= seq!['+'] + border_body(ws.take(i + 1)));
        i = i + 1;
    }
    assert(ws.take(widths.len() as int) =~= ws);
    push_char(&mut line, '\n');
    line
}

/// One table line: each cell padded to its column's width.
pub fn table_line(cells: &Vec<String>, widths: &Vec<usize>) -> (r: String)
    requires
        forall|i: int| 0 <= i < cells@.len() && i < widths@.len() ==> byte_len(cells@[i]@) <= #[trigger] widths@[i],
        forall|i: int| 0 <= i < widths@.len() ==> #[trigger] widths@[i] <= isize::MAX,
    ensures
        r@ == line_text(cell_views(cells@), width_views(widths@)),
{
    let ghost cs = cell_views(cells@);
    let ghost ws = width_views(widths@);
    let k = if cells.len() < widths.len() { cells.len() } else { widths.len() };
    let mut line = String::new();
    push_char(&mut line, '|');
    let mut i: usize = 0;
    while i < k
        invariant
            i <= k,
            k <= cells.len(),
            k <= widths.len(),
            cs == cell_views(cells@),
            ws == width_views(widths@),
            forall|j: int| 0 <= j < cells@.len() && j < widths@.len() ==> byte_len(cells@[j]@) <= #[trigger] widths@[j],
            forall|j: int| 0 <= j < widths@.len() ==> #[trigger] widths@[j] <= isize::MAX,
            line@ == seq!['|'] + line_body(cs, ws, i as int),
        decreases k - i,
    {
        let n = byte_length(cells[i].as_str());
        assert(cs[i as int] == cells@[i as int]@);
        assert(ws[i as int] == widths@[i as int] as int);
        assert(byte_len(cells@[i as int]@) <= widths@[i as int]);
        push_char(&mut line, ' ');
        line.append(cells[i].as_str());
        push_repeated(&mut line, ' ', widths[i] - n + 1);
        push_char(&mut line, '|');
        assert(line@ =~= seq!['|'] + line_body(cs, ws, i + 1));
        i = i + 1;
    }
    push_char(&mut line, '\n');
    line
}

/// A table with the given headers and rows; no row may have more cells than
/// there are headers.
pub fn render_table_with_extra(headers: &Vec<String>, rows: &Vec<Vec<String>>) -> (r: String)
    requires
        forall|j: int| 0 <= j < rows@.len() ==> (#[trigger] rows@[j])@.len() <= headers@.len(),
    ensures
        r@ == table_text(cell_views(headers@), row_views(rows@)),
{
    let ghost hs = cell_views(headers@);
    let ghost rs = row_views(rows@);
    let mut widths: Vec<usize> = Vec::new();
    let mut i: usize = 0;
    while i < headers.len()
        invariant
            i <= headers.len(),
            hs == cell_views(headers@),
            widths@.len() == i,
            forall|j: int| 0 <= j < i ==> #[trigger] widths@[j] == column_width(hs, rs.take(0), j) && widths@[j] <= isize::MAX,
        decreases headers.len() - i,
    {
        let n = byte_length(headers[i].as_str());
        assert(hs[i as int] == headers@[i as int]@);
        widths.push(n);
        i = i + 1;
    }
    let mut j: usize = 0;
    while j < rows.len()
        invariant
            j <= rows.len(),
            hs == cell_views(headers@),
            rs == row_views(rows@),
            widths@.len() == headers@.len(),
            forall|q: int| 0 <= q < rows@.len() ==> (#[trigger] rows@[q])@.len() <= headers@.len(),
            forall|c: int| 0 <= c < widths@.len() ==> #[trigger] widths@[c] == column_width(hs, rs.take(j as int), c) && widths@[c] <= isize::MAX,
        decreases rows.len() - j,
    {
        let row = &rows[j];
        assert(rs[j as int] == cell_views(row@));
        assert(rs.take(j + 1).drop_last() =~= rs.take(j as int));
        assert(rs.take(j + 1).last() == rs[j as int]);
        let ghost before = widths@;
        let mut c: usize = 0;
        while c < row.len()
            invariant
                c <= row.len(),
                j < rows.len(),
                rs == row_views(rows@),
                rs.take(j + 1).drop_last() == rs.take(j as int),
                rs.take(j + 1).last() == rs[j as int],
                row.len() <= widths@.len(),
                widths@.len() == headers@.len(),
                rs[j as int] == cell_views(row@),
                forall|q: int| 0 <= q < c ==> #[trigger] widths@[q] == column_width(hs, rs.take(j + 1), q) && widths@[q] <= isize::MAX,
                before.len() == widths@.len(),
                forall|q: int| c <= q < widths@.len() ==> #[trigger] widths@[q] == before[q],
                forall|q: int| 0 <= q < before.len() ==> #[trigger] before[q] == column_width(hs, rs.take(j as int), q) && before[q] <= isize::MAX,
            decreases row.len() - c,
        {
            let n = byte_length(row[c].as_str());
            assert(cell_views(row@)[c as int] == row@[c as int]@);
            proof {
                let t = rs.take(j + 1);
                assert(t.len() > 0);
                assert(column_width(hs, t, c as int) == {
                    let w = column_width(hs, t.drop_last(), c as int);
                    let last = t.last();
                    if (c as int) < last.len() && byte_len(last[c as int]) > w {
                        byte_len(last[c as int])
                    } else {
                        w
                    }
                });
                assert(before[c as int] == column_width(hs, rs.take(j as int), c as int));
            }
            if n > widths[c] {
                widths.set(c, n);
            }
            c = c + 1;
        }
        assert forall|q: int| 0 <= q < widths@.len() implies #[trigger] widths@[q] == column_width(hs, rs.take(j + 1), q) && widths@[q] <= isize::MAX by {
            if q >= row@.len() {
                assert(widths@[q] == before[q]);
            }
        }
        j = j + 1;
    }
    assert(rs.take(rows.len() as int) =~= rs);
    let ghost ws = width_views(widths@);
    assert(ws =~= column_widths(hs, rs));
    proof {
        assert forall|c: int| 0 <= c < headers@.len() implies byte_len(#[trigger] headers@[c]@) <= widths@[c] by {
            lemma_column_width_bounds(hs, rs, c);
            assert(hs[c] == headers@[c]@);
        }
    }
    let mut output = String::new();
    let b = border(&widths);
    output.append(b.as_str());
    output.append(table_line(headers, &widths).as_str());
    output.append(b.as_str());
    let mut j: usize = 0;
    assert(rs.take(0) =~= Seq::<Seq<Seq<char>>>::empty());
    while j < rows.len()
        invariant
            j <= rows.len(),
            hs == cell_views(headers@),
            rs == row_views(rows@),
            ws == width_views(widths@),
            ws == column_widths(hs, rs),
            widths@.len() == headers@.len(),
            forall|q: int| 0 <= q < rows@.len() ==> (#[trigger] rows@[q])@.len() <= headers@.len(),
            forall|c: int| 0 <= c < widths@.len() ==> #[trigger] widths@[c] <= isize::MAX,
            output@ == border_text(ws) + line_text(hs, ws) + border_text(ws) + rows_text(rs.take(j as int), ws),
        decreases rows.len() - j,
    {
        assert(rs[j as int] == cell_views(rows@[j as int]@));
        proof {
            assert forall|c: int| 0 <= c < rows@[j as int]@.len() && c < widths@.len() implies byte_len(rows@[j as int]@[c]@) <= #[trigger] widths@[c] by {
                lemma_column_width_bounds(hs, rs, c);
                lemma_column_width_row(hs, rs, c, j as int);
                assert(rs[j as int][c] == rows@[j as int]@[c]@);
                assert(ws[c] == widths@[c] as int);
                assert(column_widths(hs, rs)[c] == column_width(hs, rs, c));
            }
        }
        let line = table_line(&rows[j], &widths);
        output.append(line.as_str());
        assert(rs.take(j + 1).drop_last() =~= rs.take(j as int));
        assert(rs.take(j + 1).last() == rs[j as int]);
        j = j + 1;
    }
    assert(rs.take(rows.len() as int) =~= rs);
    output.append(b.as_str());
    output
}

proof fn lemma_column_width_bounds(headers: Seq<Seq<char>>, rows: Seq<Seq<Seq<char>>>, i: int)
    ensures
        byte_len(headers[i]) <= column_width(headers, rows, i),
    decreases rows.len(),
{
    if rows.len() > 0 {
        lemma_column_width_bounds(headers, rows.drop_last(), i);
    }
}

proof fn lemma_column_width_row(headers: Seq<Seq<char>>, rows: Seq<Seq<Seq<char>>>, i: int, j: int)
    requires
        0 <= j < rows.len(),
        0 <= i < rows[j].len(),
    ensures
        byte_len(rows[j][i]) <= column_width(headers, rows, i),
    decreases rows.len(),
{
    if j < rows.len() - 1 {
        lemma_column_width_row(headers, rows.drop_last(), i, j);
    }
}

} // verus!
