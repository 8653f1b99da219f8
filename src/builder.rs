//! The configurable table handle and the default text rendering.

use vstd::prelude::*;

use crate::grid::{build_grid, grid_of, orientation_for_name, Orientation, Value};
use crate::render::{render, rendered};
use crate::theme::{ascii_theme, theme_for_name, Theme};
use vstd::string::*;

verus! {

/// The text of `value` under the default configuration: vertical, ASCII.
pub open spec fn default_text(value: crate::grid::ValueView) -> Seq<char> {
    rendered(grid_of(value, Orientation::Vertical), ascii_theme())
}

/// Renders `value` vertically with the ASCII theme.
pub fn format_table(value: &Value) -> (r: String)
    ensures
        r@ == default_text(value@),
{
    let grid = build_grid(value, Orientation::Vertical);
    render(&grid, &Theme::ascii())
}

/// A value with the orientation and theme names it will be rendered under.
/// Names are kept as given and resolved only when rendering.
pub struct TableBuilder {
    pub value: Value,
    pub orientation: String,
    pub theme: String,
}

impl TableBuilder {
    /// The text this configuration renders to.
    pub open spec fn text(&self) -> Seq<char> {
        rendered(
            grid_of(self.value@, orientation_for_name(self.orientation@)),
            theme_for_name(self.theme@),
        )
    }

    /// A builder for `value`, vertical and ASCII.
    pub fn new(value: Value) -> (r: TableBuilder)
        ensures
            r.value@ == value@,
            r.orientation@ == "VERTICAL"@,
            r.theme@ == "ASCII"@,
    {
        TableBuilder {
            value,
            orientation: String::from_str("VERTICAL"),
            theme: String::from_str("ASCII"),
        }
    }

    /// Stores the orientation name, whatever it is.
    pub fn set_orientation(&mut self, name: &str)
        ensures
            final(self).orientation@ == name@,
            final(self).theme@ == old(self).theme@,
            final(self).value@ == old(self).value@,
    {
        self.orientation = String::from_str(name);
    }

    /// Stores the theme name, whatever it is.
    pub fn set_theme(&mut self, name: &str)
        ensures
            final(self).theme@ == name@,
            final(self).orientation@ == old(self).orientation@,
            final(self).value@ == old(self).value@,
    {
        self.theme = String::from_str(name);
    }

    /// Renders the value under the stored names: `HORIZONTAL` or else
    /// vertical; a built-in theme or else ASCII.
    pub fn to_text(&self) -> (r: String)
        ensures
            r@ == self.text(),
    {
        let orientation = Orientation::from_name(self.orientation.as_str());
        let theme = Theme::for_name(self.theme.as_str());
        let grid = build_grid(&self.value, orientation);
        render(&grid, &theme)
    }
}

} // verus!
