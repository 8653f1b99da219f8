//! Laying out a grid as aligned, bordered text.

use vstd::prelude::*;

use crate::grid::{Grid, GridView};
use crate::text::{lemma_repeat_len, push_char, push_repeat, repeat};
use crate::theme::Theme;
use vstd::string::*;

verus! {

/// The parts of `segs` with `sep` between each two.
pub open spec fn joined(segs: Seq<Seq<char>>, sep: Seq<char>) -> Seq<char>
    decreases segs.len(),
{
    if segs.len() == 0 {
        Seq::empty()
    } else if segs.len() == 1 {
        segs[0]
    } else {
        joined(segs.drop_last(), sep) + sep + segs.last()
    }
}

/// A line: `left`, the segments separated by `mid`, then `right`.
pub open spec fn framed(segs: Seq<Seq<char>>, left: char, mid: char, right: char) -> Seq<char> {
    seq![left] + joined(segs, seq![mid]) + seq![right]
}

/// The number of columns: the length of the first row.
pub open spec fn column_count(rows: Seq<Seq<Seq<char>>>) -> nat {
    if rows.len() == 0 {
        0
    } else {
        rows[0].len()
    }
}

/// The widest cell of column `j` among the first `k` rows.
pub open spec fn width_upto(rows: Seq<Seq<Seq<char>>>, j: int, k: int) -> nat
    decreases k,
{
    if k <= 0 {
        0
    } else {
        let w = width_upto(rows, j, k - 1);
        let c = rows[k - 1][j].len();
        if c > w {
            c
        } else {
            w
        }
    }
}

/// The width of each column: its widest cell, counted in characters.
pub open spec fn column_widths(rows: Seq<Seq<Seq<char>>>) -> Seq<nat> {
    Seq::new(column_count(rows), |j: int| width_upto(rows, j, rows.len() as int))
}

/// A cell left-aligned in a column of width `w`, with one space each side.
pub open spec fn padded(cell: Seq<char>, w: nat) -> Seq<char> {
    seq![' '] + cell + repeat(' ', (w - cell.len()) as nat) + seq![' ']
}

/// The horizontal fill over each column.
pub open spec fn rule_segs(widths: Seq<nat>, h: char) -> Seq<Seq<char>> {
    Seq::new(widths.len(), |j: int| repeat(h, widths[j] + 2))
}

pub open spec fn top_line(widths: Seq<nat>, t: Theme) -> Seq<char> {
    framed(rule_segs(widths, t.horizontal), t.top_left, t.top_mid, t.top_right)
}

pub open spec fn rule_line(widths: Seq<nat>, t: Theme) -> Seq<char> {
    framed(rule_segs(widths, t.horizontal), t.left_mid, t.cross, t.right_mid)
}

pub open spec fn bottom_line(widths: Seq<nat>, t: Theme) -> Seq<char> {
    framed(rule_segs(widths, t.horizontal), t.bottom_left, t.bottom_mid, t.bottom_right)
}

pub open spec fn row_line(row: Seq<Seq<char>>, widths: Seq<nat>, v: char) -> Seq<char> {
    framed(Seq::new(widths.len(), |j: int| padded(row[j], widths[j])), v, v, v)
}

/// Whether a rule stands right above row `i`: under the first row always,
/// further down only in a theme that rules every row.
pub open spec fn rule_above(i: int, t: Theme) -> bool {
    i == 1 || (i > 1 && t.rule_every_row)
}

/// The lines of the first `k` rows, with the rules between them.
pub open spec fn body_lines(rows: Seq<Seq<Seq<char>>>, widths: Seq<nat>, t: Theme, k: int) -> Seq<Seq<char>>
    decreases k,
{
    if k <= 0 {
        Seq::empty()
    } else {
        let before = body_lines(rows, widths, t, k - 1);
        let before = if rule_above(k - 1, t) {
            before.push(rule_line(widths, t))
        } else {
            before
        };
        before.push(row_line(rows[k - 1], widths, t.vertical))
    }
}

/// The lines of a rendered grid: a top border, the rows with their rules, a
/// bottom border. A grid with no rows or no columns has no lines.
pub open spec fn rendered_lines(g: GridView, t: Theme) -> Seq<Seq<char>> {
    let widths = column_widths(g.rows);
    if g.rows.len() == 0 || column_count(g.rows) == 0 {
        Seq::empty()
    } else {
        seq![top_line(widths, t)] + body_lines(g.rows, widths, t, g.rows.len() as int).push(
            bottom_line(widths, t),
        )
    }
}

/// The rendered text: the lines joined by single newlines, none at the end.
pub open spec fn rendered(g: GridView, t: Theme) -> Seq<char> {
    joined(rendered_lines(g, t), seq!['\n'])
}

proof fn lemma_joined_push(segs: Seq<Seq<char>>, sep: Seq<char>, s: Seq<char>)
    ensures
        joined(segs.push(s), sep) == if segs.len() == 0 {
            s
        } else {
            joined(segs, sep) + sep + s
        },
{
    assert(segs.push(s).drop_last() =~= segs);
}

/// Computes the width of each column.
fn compute_widths(rows: &Vec<Vec<String>>) -> (w: Vec<usize>)
    requires
        rows.deep_view().len() > 0,
        forall|i: int|
            0 <= i < rows.deep_view().len() ==> #[trigger] rows.deep_view()[i].len()
                == rows.deep_view()[0].len(),
    ensures
        w@.map_values(|x: usize| x as nat) == column_widths(rows.deep_view()),
{
    let ghost g = rows.deep_view();
    let n = rows[0].len();
    let mut w: Vec<usize> = Vec::new();
    let mut j: usize = 0;
    while j < n
        invariant
            g == rows.deep_view(),
            g.len() > 0,
            n == g[0].len(),
            forall|i: int| 0 <= i < g.len() ==> #[trigger] g[i].len() == g[0].len(),
            j <= n,
            w@.len() == j,
            forall|c: int| 0 <= c < j ==> #[trigger] w@[c] as nat == width_upto(g, c, g.len() as int),
        decreases n - j,
    {
        let mut m: usize = 0;
        let mut i: usize = 0;
        while i < rows.len()
            invariant
                g == rows.deep_view(),
                n == g[0].len(),
                forall|i: int| 0 <= i < g.len() ==> #[trigger] g[i].len() == g[0].len(),
                j < n,
                i <= g.len(),
                m as nat == width_upto(g, j as int, i as int),
            decreases g.len() - i,
        {
            assert(g[i as int].len() == n);
            assert(g[i as int][j as int] == rows@[i as int]@[j as int]@);
            let c = rows[i][j].as_str().unicode_len();
            if c > m {
                m = c;
            }
            i = i + 1;
        }
        w.push(m);
        j = j + 1;
    }
    assert(w@.map_values(|x: usize| x as nat) =~= column_widths(g));
    w
}

/// Appends a border or rule line over columns of widths `w`.
fn push_rule(out: &mut String, w: &Vec<usize>, h: char, left: char, mid: char, right: char)
    ensures
        final(out)@ == old(out)@ + framed(
            rule_segs(w@.map_values(|x: usize| x as nat), h),
            left,
            mid,
            right,
        ),
{
    let ghost nw = w@.map_values(|x: usize| x as nat);
    let ghost segs = rule_segs(nw, h);
    push_char(out, left);
    let mut j: usize = 0;
    while j < w.len()
        invariant
            nw == w@.map_values(|x: usize| x as nat),
            segs == rule_segs(nw, h),
            j <= w@.len(),
            out@ == old(out)@ + seq![left] + joined(segs.take(j as int), seq![mid]),
        decreases w@.len() - j,
    {
        let ghost before = out@;
        if j > 0 {
            push_char(out, mid);
        }
        push_repeat(out, h, w[j]);
        push_char(out, h);
        push_char(out, h);
        proof {
            let n = w@[j as int] as nat;
            assert(repeat(h, n + 2) == repeat(h, n + 1).push(h));
            assert(repeat(h, n + 1) == repeat(h, n).push(h));
            assert(segs[j as int] == repeat(h, n + 2));
            lemma_joined_push(segs.take(j as int), seq![mid], segs[j as int]);
            assert(segs.take(j as int + 1) =~= segs.take(j as int).push(segs[j as int]));
            if j > 0 {
                assert(out@ =~= before + seq![mid] + segs[j as int]);
            } else {
                assert(out@ =~= before + segs[j as int]);
            }
        }
        j = j + 1;
    }
    push_char(out, right);
    assert(segs.take(w@.len() as int) =~= segs);
    assert(out@ =~= old(out)@ + framed(segs, left, mid, right));
}

/// Appends the line of one row, each cell padded to its column's width.
fn push_row(out: &mut String, row: &Vec<String>, w: &Vec<usize>, v: char)
    requires
        row@.len() == w@.len(),
        forall|j: int| 0 <= j < w@.len() ==> #[trigger] row@[j]@.len() <= w@[j],
    ensures
        final(out)@ == old(out)@ + row_line(
            row.deep_view(),
            w@.map_values(|x: usize| x as nat),
            v,
        ),
{
    let ghost nw = w@.map_values(|x: usize| x as nat);
    let ghost cells = row.deep_view();
    let ghost segs = Seq::new(nw.len(), |j: int| padded(cells[j], nw[j]));
    push_char(out, v);
    let mut j: usize = 0;
    while j < w.len()
        invariant
            nw == w@.map_values(|x: usize| x as nat),
            cells == row.deep_view(),
            segs == Seq::new(nw.len(), |j: int| padded(cells[j], nw[j])),
            row@.len() == w@.len(),
            forall|j: int| 0 <= j < w@.len() ==> #[trigger] row@[j]@.len() <= w@[j],
            j <= w@.len(),
            out@ == old(out)@ + seq![v] + joined(segs.take(j as int), seq![v]),
        decreases w@.len() - j,
    {
        let ghost before = out@;
        if j > 0 {
            push_char(out, v);
        }
        let ghost mid = out@;
        push_char(out, ' ');
        let cell = row[j].as_str();
        out.append(cell);
        let c = cell.unicode_len();
        push_repeat(out, ' ', w[j] - c);
        push_char(out, ' ');
        proof {
            assert(cells[j as int] == row@[j as int]@);
            assert(out@ =~= mid + segs[j as int]);
            lemma_joined_push(segs.take(j as int), seq![v], segs[j as int]);
            assert(segs.take(j as int + 1) =~= segs.take(j as int).push(segs[j as int]));
            if j > 0 {
                assert(out@ =~= before + seq![v] + segs[j as int]);
            } else {
                assert(out@ =~= before + segs[j as int]);
            }
        }
        j = j + 1;
    }
    push_char(out, v);
    assert(segs.take(w@.len() as int) =~= segs);
    assert(out@ =~= old(out)@ + framed(segs, v, v, v));
}

/// No cell of column `j` among the first `k` rows is wider than
/// `width_upto(rows, j, k)`, and for `k > 0` one of them is exactly that wide.
pub proof fn lemma_width_upto(rows: Seq<Seq<Seq<char>>>, j: int, k: int)
    requires
        0 <= k <= rows.len(),
    ensures
        forall|i: int| 0 <= i < k ==> #[trigger] rows[i][j].len() <= width_upto(rows, j, k),
        k > 0 ==> exists|i: int| 0 <= i < k && #[trigger] rows[i][j].len() == width_upto(rows, j, k),
    decreases k,
{
    if k > 0 {
        lemma_width_upto(rows, j, k - 1);
        if k > 1 {
            let i0 = choose|i: int| 0 <= i < k - 1 && #[trigger] rows[i][j].len() == width_upto(rows, j, k - 1);
            if rows[k - 1][j].len() <= width_upto(rows, j, k - 1) {
                assert(rows[i0][j].len() == width_upto(rows, j, k));
            } else {
                assert(rows[k - 1][j].len() == width_upto(rows, j, k));
            }
        } else {
            assert(rows[0][j].len() == width_upto(rows, j, k));
        }
    }
}

/// The width of a line over columns of the given widths: each column takes
/// its width plus two spaces of padding and one glyph to its right, and one
/// glyph stands at the left edge.
pub open spec fn line_width(widths: Seq<nat>) -> nat
    decreases widths.len(),
{
    if widths.len() == 0 {
        1
    } else {
        line_width(widths.drop_last()) + widths.last() + 3
    }
}

proof fn lemma_framed_len(segs: Seq<Seq<char>>, widths: Seq<nat>, l: char, m: char, r: char)
    requires
        segs.len() == widths.len(),
        widths.len() > 0,
        forall|j: int| 0 <= j < segs.len() ==> #[trigger] segs[j].len() == widths[j] + 2,
    ensures
        framed(segs, l, m, r).len() == line_width(widths),
    decreases segs.len(),
{
    if segs.len() > 1 {
        let s0 = segs.drop_last();
        let w0 = widths.drop_last();
        assert forall|j: int| 0 <= j < s0.len() implies #[trigger] s0[j].len() == w0[j] + 2 by {
            assert(s0[j] == segs[j]);
        }
        lemma_framed_len(s0, w0, l, m, r);
        assert(s0.len() == segs.len() - 1);
        assert(segs.last().len() == widths.last() + 2);
        assert(joined(segs, seq![m]) == joined(s0, seq![m]) + seq![m] + segs.last());
        assert(framed(s0, l, m, r).len() == joined(s0, seq![m]).len() + 2);
        assert(line_width(widths) == line_width(w0) + widths.last() + 3);
    } else {
        assert(widths.drop_last().len() == 0);
        assert(line_width(widths.drop_last()) == 1);
        assert(line_width(widths) == line_width(widths.drop_last()) + widths.last() + 3);
        assert(segs[0].len() == widths[0] + 2);
        assert(joined(segs, seq![m]) == segs[0]);
    }
}

proof fn lemma_rule_len(widths: Seq<nat>, h: char, l: char, m: char, r: char)
    requires
        widths.len() > 0,
    ensures
        framed(rule_segs(widths, h), l, m, r).len() == line_width(widths),
{
    let segs = rule_segs(widths, h);
    assert forall|j: int| 0 <= j < segs.len() implies #[trigger] segs[j].len() == widths[j] + 2 by {
        lemma_repeat_len(h, widths[j] + 2);
    }
    lemma_framed_len(segs, widths, l, m, r);
}

proof fn lemma_row_len(row: Seq<Seq<char>>, widths: Seq<nat>, v: char)
    requires
        widths.len() > 0,
        row.len() == widths.len(),
        forall|j: int| 0 <= j < row.len() ==> #[trigger] row[j].len() <= widths[j],
    ensures
        row_line(row, widths, v).len() == line_width(widths),
{
    let segs = Seq::new(widths.len(), |j: int| padded(row[j], widths[j]));
    assert forall|j: int| 0 <= j < segs.len() implies #[trigger] segs[j].len() == widths[j] + 2 by {
        lemma_repeat_len(' ', (widths[j] - row[j].len()) as nat);
    }
    lemma_framed_len(segs, widths, v, v, v);
}

proof fn lemma_body_len(g: GridView, t: Theme, k: int)
    requires
        g.wf(),
        0 <= k <= g.rows.len(),
        column_count(g.rows) > 0,
    ensures
        forall|m: int|
            0 <= m < body_lines(g.rows, column_widths(g.rows), t, k).len()
                ==> #[trigger] body_lines(g.rows, column_widths(g.rows), t, k)[m].len()
                == line_width(column_widths(g.rows)),
    decreases k,
{
    let w = column_widths(g.rows);
    if k > 0 {
        lemma_body_len(g, t, k - 1);
        lemma_rule_len(w, t.horizontal, t.left_mid, t.cross, t.right_mid);
        let row = g.rows[k - 1];
        assert(row.len() == g.rows[0].len());
        assert forall|j: int| 0 <= j < row.len() implies #[trigger] row[j].len() <= w[j] by {
            lemma_width_upto(g.rows, j, g.rows.len() as int);
            assert(g.rows[k - 1][j].len() <= width_upto(g.rows, j, g.rows.len() as int));
        }
        lemma_row_len(row, w, t.vertical);
        let before = body_lines(g.rows, w, t, k - 1);
        let b1 = if rule_above(k - 1, t) {
            before.push(rule_line(w, t))
        } else {
            before
        };
        assert(body_lines(g.rows, w, t, k) == b1.push(row_line(row, w, t.vertical)));
        assert forall|m: int| 0 <= m < b1.len() implies #[trigger] b1[m].len() == line_width(w) by {
            if m < before.len() {
                assert(b1[m] == before[m]);
            }
        }
    }
}

/// Some cell of column `j` is as wide as the column.
pub open spec fn widest_in_column(rows: Seq<Seq<Seq<char>>>, j: int) -> bool {
    exists|i: int| 0 <= i < rows.len() && #[trigger] rows[i][j].len() == column_widths(rows)[j]
}

/// Column alignment: in a grid whose rows all have the same number of cells,
/// every rendered line (borders, rules and rows) has the same width, and the
/// width of each column is that of its widest cell: no cell is wider, and some
/// cell is exactly that wide. Each cell is left-aligned in its column with one
/// space each side (see `padded`).
pub proof fn lemma_aligned(g: GridView, t: Theme)
    requires
        g.wf(),
    ensures
        forall|k: int|
            0 <= k < rendered_lines(g, t).len() ==> #[trigger] rendered_lines(g, t)[k].len()
                == line_width(column_widths(g.rows)),
        forall|i: int, j: int|
            0 <= i < g.rows.len() && 0 <= j < column_count(g.rows)
                ==> #[trigger] g.rows[i][j].len() <= column_widths(g.rows)[j],
        forall|j: int| 0 <= j < column_count(g.rows) ==> #[trigger] widest_in_column(g.rows, j),
{
    let w = column_widths(g.rows);
    assert forall|i: int, j: int|
        0 <= i < g.rows.len() && 0 <= j < column_count(g.rows)
            implies #[trigger] g.rows[i][j].len() <= column_widths(g.rows)[j] by {
        lemma_width_upto(g.rows, j, g.rows.len() as int);
    }
    assert forall|j: int| 0 <= j < column_count(g.rows) implies #[trigger] widest_in_column(g.rows, j) by {
        lemma_width_upto(g.rows, j, g.rows.len() as int);
        assert(column_widths(g.rows)[j] == width_upto(g.rows, j, g.rows.len() as int));
        let i0 = choose|i: int|
            0 <= i < g.rows.len() && #[trigger] g.rows[i][j].len() == width_upto(g.rows, j, g.rows.len() as int);
        assert(g.rows[i0][j].len() == column_widths(g.rows)[j]);
    }
    if g.rows.len() > 0 && column_count(g.rows) > 0 {
        let n = g.rows.len() as int;
        lemma_body_len(g, t, n);
        lemma_rule_len(w, t.horizontal, t.top_left, t.top_mid, t.top_right);
        lemma_rule_len(w, t.horizontal, t.bottom_left, t.bottom_mid, t.bottom_right);
        let body = body_lines(g.rows, w, t, n);
        let lines = rendered_lines(g, t);
        assert forall|k: int| 0 <= k < lines.len() implies #[trigger] lines[k].len() == line_width(w) by {
            if k == 0 {
                assert(lines[k] == top_line(w, t));
            } else if k <= body.len() {
                assert(lines[k] == body[k - 1]);
            } else {
                assert(lines[k] == bottom_line(w, t));
            }
        }
    }
}

/// Renders `grid` under `theme` as one block of text.
pub fn render(grid: &Grid, theme: &Theme) -> (r: String)
    requires
        grid@.wf(),
    ensures
        r@ == rendered(grid@, *theme),
{
    let ghost g = grid@.rows;
    let rows = &grid.rows;
    if rows.len() == 0 || rows[0].len() == 0 {
        assert(rendered_lines(grid@, *theme) =~= Seq::<Seq<char>>::empty());
        return String::new();
    }
    let w = compute_widths(rows);
    let ghost nw = column_widths(g);
    let ghost t = *theme;
    let mut out = String::new();
    push_rule(&mut out, &w, theme.horizontal, theme.top_left, theme.top_mid, theme.top_right);
    assert(out@ =~= joined(seq![top_line(nw, t)] + body_lines(g, nw, t, 0), seq!['\n']));
    let mut i: usize = 0;
    while i < rows.len()
        invariant
            g == rows.deep_view(),
            g == grid@.rows,
            grid@.wf(),
            g.len() > 0,
            t == *theme,
            nw == column_widths(g),
            nw == w@.map_values(|x: usize| x as nat),
            i <= g.len(),
            out@ == joined(seq![top_line(nw, t)] + body_lines(g, nw, t, i as int), seq!['\n']),
        decreases g.len() - i,
    {
        let ghost lines0 = seq![top_line(nw, t)] + body_lines(g, nw, t, i as int);
        let ghost lines1 = lines0;
        if i == 1 || (i > 1 && theme.rule_every_row) {
            push_char(&mut out, '\n');
            push_rule(&mut out, &w, theme.horizontal, theme.left_mid, theme.cross, theme.right_mid);
            proof {
                lines1 = lines0.push(rule_line(nw, t));
                lemma_joined_push(lines0, seq!['\n'], rule_line(nw, t));
                assert(out@ =~= joined(lines1, seq!['\n']));
            }
        }
        proof {
            assert(g[i as int] == rows@[i as int].deep_view());
            assert(g[i as int].len() == g[0].len());
            assert forall|j: int| 0 <= j < w@.len() implies #[trigger] rows@[i as int]@[j]@.len() <= w@[j] by {
                lemma_width_upto(g, j, g.len() as int);
                assert(nw[j] == w@[j] as nat);
                assert(nw[j] == width_upto(g, j, g.len() as int));
                assert(g[i as int][j].len() <= width_upto(g, j, g.len() as int));
                assert(g[i as int][j] == rows@[i as int]@[j]@);
            }
        }
        push_char(&mut out, '\n');
        push_row(&mut out, &rows[i], &w, theme.vertical);
        proof {
            let line = row_line(g[i as int], nw, t.vertical);
            lemma_joined_push(lines1, seq!['\n'], line);
            assert(seq![top_line(nw, t)] + body_lines(g, nw, t, i + 1) =~= lines1.push(line));
            assert(out@ =~= joined(lines1.push(line), seq!['\n']));
        }
        i = i + 1;
    }
    push_char(&mut out, '\n');
    push_rule(&mut out, &w, theme.horizontal, theme.bottom_left, theme.bottom_mid, theme.bottom_right);
    proof {
        let lines = seq![top_line(nw, t)] + body_lines(g, nw, t, g.len() as int);
        lemma_joined_push(lines, seq!['\n'], bottom_line(nw, t));
        assert(rendered_lines(grid@, t) =~= lines.push(bottom_line(nw, t)));
        assert(out@ =~= joined(lines.push(bottom_line(nw, t)), seq!['\n']));
    }
    out
}

/// Whether every row of `grid` has as many cells as the first.
pub fn is_rectangular(grid: &Grid) -> (r: bool)
    ensures
        r == grid@.wf(),
{
    let ghost g = grid@.rows;
    let rows = &grid.rows;
    if rows.len() == 0 {
        return true;
    }
    let n = rows[0].len();
    assert(g[0].len() == rows@[0]@.len());
    let mut i: usize = 0;
    while i < rows.len()
        invariant
            g == rows.deep_view(),
            g == grid@.rows,
            g.len() == rows@.len(),
            g.len() > 0,
            n == g[0].len(),
            i <= g.len(),
            forall|k: int| 0 <= k < i ==> #[trigger] g[k].len() == g[0].len(),
        decreases g.len() - i,
    {
        assert(g[i as int].len() == rows@[i as int]@.len());
        if rows[i].len() != n {
            assert(grid@.rows[i as int].len() != grid@.rows[0].len());
            return false;
        }
        i = i + 1;
    }
    true
}

/// Renders `grid` under `theme`, or rejects it (`None`) when its rows do not
/// all have the same number of cells.
pub fn try_render(grid: &Grid, theme: &Theme) -> (r: Option<String>)
    ensures
        r is Some <==> grid@.wf(),
        r matches Some(text) ==> text@ == rendered(grid@, *theme),
{
    if is_rectangular(grid) {
        Some(render(grid, theme))
    } else {
        None
    }
}

} // verus!
