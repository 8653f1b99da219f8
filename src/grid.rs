//! Turning a host value into a grid of cells.

use vstd::prelude::*;

use crate::text::same_text;

verus! {

/// A value handed over by the host, with each cell already turned into text
/// by the host's own conversion.
///
/// A mapping holds its (key, value) pairs in the order the host iterates
/// them; that order is kept.
#[derive(Clone, Debug)]
pub enum Value {
    Scalar(String),
    Mapping(Vec<(String, String)>),
}

pub enum ValueView {
    Scalar(Seq<char>),
    Mapping(Seq<(Seq<char>, Seq<char>)>),
}

impl View for Value {
    type V = ValueView;

    open spec fn view(&self) -> ValueView {
        match self {
            Value::Scalar(s) => ValueView::Scalar(s@),
            Value::Mapping(pairs) => ValueView::Mapping(
                pairs@.map_values(|p: (String, String)| (p.0@, p.1@)),
            ),
        }
    }
}

/// Vertical: one row per pair. Horizontal: the keys as a header row over one
/// row of the values.
#[derive(Clone, Copy, Debug, PartialEq, Eq, Structural)]
pub enum Orientation {
    Vertical,
    Horizontal,
}

/// `HORIZONTAL` selects the horizontal layout; any other name the vertical.
pub open spec fn orientation_for_name(name: Seq<char>) -> Orientation {
    if name == "HORIZONTAL"@ {
        Orientation::Horizontal
    } else {
        Orientation::Vertical
    }
}

impl Orientation {
    pub fn from_name(name: &str) -> (r: Orientation)
        ensures
            r == orientation_for_name(name@),
    {
        if same_text(name, "HORIZONTAL") {
            Orientation::Horizontal
        } else {
            Orientation::Vertical
        }
    }
}

/// Rows of cell texts; when `has_header` holds, the first row is a header.
#[derive(Clone, Debug)]
pub struct Grid {
    pub has_header: bool,
    pub rows: Vec<Vec<String>>,
}

pub struct GridView {
    pub has_header: bool,
    pub rows: Seq<Seq<Seq<char>>>,
}

impl GridView {
    /// Every row has as many cells as the first.
    pub open spec fn wf(&self) -> bool {
        forall|i: int| 0 <= i < self.rows.len() ==> #[trigger] self.rows[i].len() == self.rows[0].len()
    }
}

impl View for Grid {
    type V = GridView;

    open spec fn view(&self) -> GridView {
        GridView { has_header: self.has_header, rows: self.rows.deep_view() }
    }
}

/// The grid that a value gives under an orientation.
pub open spec fn grid_of(v: ValueView, o: Orientation) -> GridView {
    match v {
        ValueView::Scalar(s) => GridView { has_header: false, rows: seq![seq![s]] },
        ValueView::Mapping(pairs) => match o {
            Orientation::Vertical => GridView {
                has_header: false,
                rows: Seq::new(pairs.len(), |i: int| seq![pairs[i].0, pairs[i].1]),
            },
            Orientation::Horizontal => GridView {
                has_header: true,
                rows: seq![
                    Seq::new(pairs.len(), |i: int| pairs[i].0),
                    Seq::new(pairs.len(), |i: int| pairs[i].1),
                ],
            },
        },
    }
}

/// Builds the grid of `value` under `orientation`, in the value's own order.
pub fn build_grid(value: &Value, orientation: Orientation) -> (r: Grid)
    ensures
        r@ == grid_of(value@, orientation),
        r@.wf(),
{
    match value {
        Value::Scalar(s) => {
            let mut row: Vec<String> = Vec::new();
            row.push(s.clone());
            assert(row.deep_view() =~= seq![s@]);
            let mut rows: Vec<Vec<String>> = Vec::new();
            rows.push(row);
            let r = Grid { has_header: false, rows };
            assert(r@.rows =~= grid_of(value@, orientation).rows);
            r
        },
        Value::Mapping(pairs) => {
            let ghost pv = pairs@.map_values(|p: (String, String)| (p.0@, p.1@));
            match orientation {
                Orientation::Vertical => {
                    let mut rows: Vec<Vec<String>> = Vec::new();
                    let mut i: usize = 0;
                    while i < pairs.len()
                        invariant
                            i <= pairs@.len(),
                            pv == pairs@.map_values(|p: (String, String)| (p.0@, p.1@)),
                            rows@.len() == i,
                            forall|k: int|
                                0 <= k < i ==> #[trigger] rows@[k].deep_view() == seq![
                                    pv[k].0,
                                    pv[k].1,
                                ],
                        decreases pairs@.len() - i,
                    {
                        let mut row: Vec<String> = Vec::new();
                        row.push(pairs[i].0.clone());
                        row.push(pairs[i].1.clone());
                        assert(row.deep_view() =~= seq![pv[i as int].0, pv[i as int].1]);
                        rows.push(row);
                        i = i + 1;
                    }
                    let r = Grid { has_header: false, rows };
                    assert(r@.rows =~= grid_of(value@, orientation).rows);
                    r
                },
                Orientation::Horizontal => {
                    let mut keys: Vec<String> = Vec::new();
                    let mut vals: Vec<String> = Vec::new();
                    let mut i: usize = 0;
                    while i < pairs.len()
                        invariant
                            i <= pairs@.len(),
                            pv == pairs@.map_values(|p: (String, String)| (p.0@, p.1@)),
                            keys@.len() == i,
                            vals@.len() == i,
                            forall|k: int| 0 <= k < i ==> #[trigger] keys@[k]@ == pv[k].0,
                            forall|k: int| 0 <= k < i ==> #[trigger] vals@[k]@ == pv[k].1,
                        decreases pairs@.len() - i,
                    {
                        keys.push(pairs[i].0.clone());
                        vals.push(pairs[i].1.clone());
                        i = i + 1;
                    }
                    assert(keys.deep_view() =~= Seq::new(pv.len(), |k: int| pv[k].0));
                    assert(vals.deep_view() =~= Seq::new(pv.len(), |k: int| pv[k].1));
                    let mut rows: Vec<Vec<String>> = Vec::new();
                    rows.push(keys);
                    rows.push(vals);
                    let r = Grid { has_header: true, rows };
                    assert(r@.rows =~= grid_of(value@, orientation).rows);
                    r
                },
            }
        },
    }
}

} // verus!
