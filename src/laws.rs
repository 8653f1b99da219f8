//! Properties that relate the builder, the themes and the renderer.

use vstd::prelude::*;

use crate::grid::{grid_of, GridView, Orientation, ValueView};
use crate::render::{
    body_lines, bottom_line, column_count, column_widths, padded, rendered, rendered_lines, row_line, rule_above, top_line, width_upto,
};
use crate::text::repeat;
use crate::theme::{named_theme, theme_for_name, Theme};

verus! {

/// Determinism: two renderings of the same grid under the same theme give the
/// same text.
pub proof fn lemma_render_deterministic(g: GridView, t: Theme, a: Seq<char>, b: Seq<char>)
    requires
        a == rendered(g, t),
        b == rendered(g, t),
    ensures
        a == b,
{
}

/// Orientation: a mapping of `n` pairs gives, vertically, `n` rows of two
/// cells (key, value) and no header; horizontally, a header row of the `n`
/// keys over one row of the `n` values, the `i`-th key above the `i`-th value.
pub proof fn lemma_orientation(pairs: Seq<(Seq<char>, Seq<char>)>)
    ensures
        ({
            let v = grid_of(ValueView::Mapping(pairs), Orientation::Vertical);
            &&& !v.has_header
            &&& v.rows.len() == pairs.len()
            &&& forall|i: int|
                0 <= i < pairs.len() ==> (#[trigger] v.rows[i]).len() == 2 && v.rows[i][0]
                    == pairs[i].0 && v.rows[i][1] == pairs[i].1
        }),
        ({
            let h = grid_of(ValueView::Mapping(pairs), Orientation::Horizontal);
            &&& h.has_header
            &&& h.rows.len() == 2
            &&& h.rows[0].len() == pairs.len()
            &&& h.rows[1].len() == pairs.len()
            &&& forall|i: int|
                0 <= i < pairs.len() ==> #[trigger] h.rows[0][i] == pairs[i].0 && h.rows[1][i]
                    == pairs[i].1
        }),
{
}

/// Theme fallback: under a name that is not a built-in theme, a grid renders
/// exactly as under `ASCII`.
pub proof fn lemma_theme_fallback(g: GridView, name: Seq<char>)
    requires
        named_theme(name) is None,
    ensures
        rendered(g, theme_for_name(name)) == rendered(g, theme_for_name("ASCII"@)),
{
}

/// Scalar path: whatever the orientation, a scalar gives a one-cell grid,
/// rendered as three lines: a top border, the text between two padding spaces
/// and two vertical glyphs, and a bottom border.
pub proof fn lemma_scalar_table(s: Seq<char>, o: Orientation, t: Theme)
    ensures
        grid_of(ValueView::Scalar(s), o) == grid_of(ValueView::Scalar(s), Orientation::Vertical),
        grid_of(ValueView::Scalar(s), o).rows == seq![seq![s]],
        ({
            let lines = rendered_lines(grid_of(ValueView::Scalar(s), o), t);
            &&& lines.len() == 3
            &&& lines[0] == top_line(seq![s.len()], t)
            &&& lines[1] == seq![t.vertical, ' '] + s + seq![' ', t.vertical]
            &&& lines[2] == bottom_line(seq![s.len()], t)
        }),
{
    let g = grid_of(ValueView::Scalar(s), o);
    let w = column_widths(g.rows);
    assert(g.rows[0][0] == s);
    assert(column_count(g.rows) == 1);
    assert(width_upto(g.rows, 0, 0) == 0);
    assert(width_upto(g.rows, 0, 1) == s.len());
    assert(w =~= seq![s.len()]);
    assert(!rule_above(0, t));
    assert(body_lines(g.rows, w, t, 0) =~= Seq::<Seq<char>>::empty());
    let row = row_line(g.rows[0], w, t.vertical);
    assert(body_lines(g.rows, w, t, 1) =~= seq![row]);
    assert(padded(s, s.len()) =~= seq![' '] + s + seq![' ']) by {
        assert(repeat(' ', 0) =~= Seq::<char>::empty());
    }
    let segs = Seq::new(w.len(), |j: int| padded(g.rows[0][j], w[j]));
    assert(segs =~= seq![seq![' '] + s + seq![' ']]);
    assert(row =~= seq![t.vertical, ' '] + s + seq![' ', t.vertical]);
    assert(rendered_lines(g, t) =~= seq![top_line(w, t), row, bottom_line(w, t)]);
}

} // verus!
