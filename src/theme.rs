//! Border themes: the glyphs that frame a table, and where rules are drawn.

use vstd::prelude::*;

use crate::text::same_text;

verus! {

/// The glyphs of a table's frame, and whether a rule is drawn between every
/// two rows (`rule_every_row`) or only under the first row.
#[derive(Clone, Copy, Debug, PartialEq, Eq, Structural)]
pub struct Theme {
    pub horizontal: char,
    pub vertical: char,
    pub top_left: char,
    pub top_mid: char,
    pub top_right: char,
    pub left_mid: char,
    pub cross: char,
    pub right_mid: char,
    pub bottom_left: char,
    pub bottom_mid: char,
    pub bottom_right: char,
    pub rule_every_row: bool,
}

/// Plain `+ - |` borders, a rule between every two rows.
pub open spec fn ascii_theme() -> Theme {
    Theme {
        horizontal: '-',
        vertical: '|',
        top_left: '+',
        top_mid: '+',
        top_right: '+',
        left_mid: '+',
        cross: '+',
        right_mid: '+',
        bottom_left: '+',
        bottom_mid: '+',
        bottom_right: '+',
        rule_every_row: true,
    }
}

/// Box-drawing borders, a rule between every two rows.
pub open spec fn modern_theme() -> Theme {
    Theme {
        horizontal: '─',
        vertical: '│',
        top_left: '┌',
        top_mid: '┬',
        top_right: '┐',
        left_mid: '├',
        cross: '┼',
        right_mid: '┤',
        bottom_left: '└',
        bottom_mid: '┴',
        bottom_right: '┘',
        rule_every_row: true,
    }
}

/// Box-drawing borders with rounded corners, a rule under the first row only.
pub open spec fn rounded_theme() -> Theme {
    Theme {
        horizontal: '─',
        vertical: '│',
        top_left: '╭',
        top_mid: '┬',
        top_right: '╮',
        left_mid: '├',
        cross: '┼',
        right_mid: '┤',
        bottom_left: '╰',
        bottom_mid: '┴',
        bottom_right: '╯',
        rule_every_row: false,
    }
}

/// The built-in theme called `name`, if there is one (exact, case-sensitive).
pub open spec fn named_theme(name: Seq<char>) -> Option<Theme> {
    if name == "ASCII"@ {
        Some(ascii_theme())
    } else if name == "UTF8"@ {
        Some(modern_theme())
    } else if name == "UTF8-ROUNDED"@ {
        Some(rounded_theme())
    } else {
        None
    }
}

/// The theme used for `name`: the built-in one of that name, else ASCII.
pub open spec fn theme_for_name(name: Seq<char>) -> Theme {
    match named_theme(name) {
        Some(t) => t,
        None => ascii_theme(),
    }
}

impl Theme {
    pub fn ascii() -> (r: Theme)
        ensures
            r == ascii_theme(),
    {
        Theme {
            horizontal: '-',
            vertical: '|',
            top_left: '+',
            top_mid: '+',
            top_right: '+',
            left_mid: '+',
            cross: '+',
            right_mid: '+',
            bottom_left: '+',
            bottom_mid: '+',
            bottom_right: '+',
            rule_every_row: true,
        }
    }

    pub fn modern() -> (r: Theme)
        ensures
            r == modern_theme(),
    {
        Theme {
            horizontal: '─',
            vertical: '│',
            top_left: '┌',
            top_mid: '┬',
            top_right: '┐',
            left_mid: '├',
            cross: '┼',
            right_mid: '┤',
            bottom_left: '└',
            bottom_mid: '┴',
            bottom_right: '┘',
            rule_every_row: true,
        }
    }

    pub fn rounded() -> (r: Theme)
        ensures
            r == rounded_theme(),
    {
        Theme {
            horizontal: '─',
            vertical: '│',
            top_left: '╭',
            top_mid: '┬',
            top_right: '╮',
            left_mid: '├',
            cross: '┼',
            right_mid: '┤',
            bottom_left: '╰',
            bottom_mid: '┴',
            bottom_right: '╯',
            rule_every_row: false,
        }
    }

    /// The theme for `name`, falling back to ASCII for an unknown name.
    pub fn for_name(name: &str) -> (r: Theme)
        ensures
            r == theme_for_name(name@),
    {
        match peak_theme(name) {
            Some(t) => t,
            None => Theme::ascii(),
        }
    }
}

/// Looks up a built-in theme by its exact name: `ASCII`, `UTF8` or
/// `UTF8-ROUNDED`.
pub fn peak_theme(name: &str) -> (r: Option<Theme>)
    ensures
        r == named_theme(name@),
{
    if same_text(name, "ASCII") {
        Some(Theme::ascii())
    } else if same_text(name, "UTF8") {
        Some(Theme::modern())
    } else if same_text(name, "UTF8-ROUNDED") {
        Some(Theme::rounded())
    } else {
        None
    }
}

} // verus!
