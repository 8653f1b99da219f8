use lua_tables::builder::{format_table, TableBuilder};
use lua_tables::grid::{build_grid, Grid, Orientation, Value};
use lua_tables::render::{is_rectangular, render, try_render};
use lua_tables::text::same_text;
use lua_tables::theme::{peak_theme, Theme};

fn sample() -> Value {
    let pairs = [
        ("1", "zxczxczxc"),
        ("2", "21313"),
        ("3", "6.14"),
        ("4", "c"),
        ("6", "xxxxxxxxx"),
    ];
    Value::Mapping(
        pairs
            .iter()
            .map(|(k, v)| (k.to_string(), v.to_string()))
            .collect(),
    )
}

const ASCII_VERTICAL: &str = "+---+-----------+\n\
                              | 1 | zxczxczxc |\n\
                              +---+-----------+\n\
                              | 2 | 21313     |\n\
                              +---+-----------+\n\
                              | 3 | 6.14      |\n\
                              +---+-----------+\n\
                              | 4 | c         |\n\
                              +---+-----------+\n\
                              | 6 | xxxxxxxxx |\n\
                              +---+-----------+";

#[test]
fn test_builder() {
    let table = TableBuilder::new(sample());
    assert_eq!(ASCII_VERTICAL, table.to_text());
}

#[test]
fn test_builder_theme_utf8() {
    let mut table = TableBuilder::new(sample());
    table.set_theme("UTF8");
    let expected = "┌───┬───────────┐\n\
                    │ 1 │ zxczxczxc │\n\
                    ├───┼───────────┤\n\
                    │ 2 │ 21313     │\n\
                    ├───┼───────────┤\n\
                    │ 3 │ 6.14      │\n\
                    ├───┼───────────┤\n\
                    │ 4 │ c         │\n\
                    ├───┼───────────┤\n\
                    │ 6 │ xxxxxxxxx │\n\
                    └───┴───────────┘";
    assert_eq!(expected, table.to_text());
}

#[test]
fn test_builder_theme_rounded() {
    let mut table = TableBuilder::new(sample());
    table.set_theme("UTF8-ROUNDED");
    let expected = "╭───┬───────────╮\n\
                    │ 1 │ zxczxczxc │\n\
                    ├───┼───────────┤\n\
                    │ 2 │ 21313     │\n\
                    │ 3 │ 6.14      │\n\
                    │ 4 │ c         │\n\
                    │ 6 │ xxxxxxxxx │\n\
                    ╰───┴───────────╯";
    assert_eq!(expected, table.to_text());
}

#[test]
fn test_builder_orientation() {
    let mut table = TableBuilder::new(sample());
    table.set_theme("UTF8-ROUNDED");
    table.set_orientation("HORIZONTAL");
    let expected = "╭───────────┬───────┬──────┬───┬───────────╮\n\
                    │ 1         │ 2     │ 3    │ 4 │ 6         │\n\
                    ├───────────┼───────┼──────┼───┼───────────┤\n\
                    │ zxczxczxc │ 21313 │ 6.14 │ c │ xxxxxxxxx │\n\
                    ╰───────────┴───────┴──────┴───┴───────────╯";
    assert_eq!(expected, table.to_text());
}

#[test]
fn test_builder_orientation_theme_ascii() {
    let mut table = TableBuilder::new(sample());
    table.set_theme("ASCII");
    table.set_orientation("HORIZONTAL");
    let expected = "+-----------+-------+------+---+-----------+\n\
                    | 1         | 2     | 3    | 4 | 6         |\n\
                    +-----------+-------+------+---+-----------+\n\
                    | zxczxczxc | 21313 | 6.14 | c | xxxxxxxxx |\n\
                    +-----------+-------+------+---+-----------+";
    assert_eq!(expected, table.to_text());
}

#[test]
fn unknown_theme_falls_back_to_ascii() {
    let mut table = TableBuilder::new(sample());
    table.set_theme("NOPE");
    assert_eq!(ASCII_VERTICAL, table.to_text());
    table.set_theme("utf8");
    assert_eq!(ASCII_VERTICAL, table.to_text());
}

#[test]
fn unknown_orientation_is_vertical() {
    let mut table = TableBuilder::new(sample());
    table.set_orientation("SIDEWAYS");
    assert_eq!(ASCII_VERTICAL, table.to_text());
    table.set_orientation("horizontal");
    assert_eq!(ASCII_VERTICAL, table.to_text());
}

#[test]
fn scalar_gives_one_cell() {
    let value = Value::Scalar("42".to_string());
    assert_eq!("+----+\n| 42 |\n+----+", format_table(&value));
    let mut table = TableBuilder::new(value);
    table.set_orientation("HORIZONTAL");
    table.set_theme("UTF8");
    assert_eq!("┌────┐\n│ 42 │\n└────┘", table.to_text());
}

#[test]
fn empty_scalar_still_framed() {
    let value = Value::Scalar(String::new());
    assert_eq!("+--+\n|  |\n+--+", format_table(&value));
}

#[test]
fn empty_mapping_renders_nothing() {
    let value = Value::Mapping(Vec::new());
    assert_eq!("", format_table(&value));
    let mut table = TableBuilder::new(value);
    table.set_orientation("HORIZONTAL");
    assert_eq!("", table.to_text());
}

#[test]
fn format_table_is_vertical_ascii() {
    assert_eq!(ASCII_VERTICAL, format_table(&sample()));
}

#[test]
fn rendering_twice_is_identical() {
    let mut table = TableBuilder::new(sample());
    table.set_theme("UTF8");
    let first = table.to_text();
    let second = table.to_text();
    assert_eq!(first, second);
    let grid = build_grid(&sample(), Orientation::Horizontal);
    assert_eq!(render(&grid, &Theme::rounded()), render(&grid, &Theme::rounded()));
}

#[test]
fn all_lines_have_equal_width() {
    let value = Value::Mapping(vec![
        ("a".to_string(), "längere Zeile".to_string()),
        ("schlüssel".to_string(), "".to_string()),
        ("k".to_string(), "v".to_string()),
    ]);
    for orientation in [Orientation::Vertical, Orientation::Horizontal] {
        let grid = build_grid(&value, orientation);
        for theme in [Theme::ascii(), Theme::modern(), Theme::rounded()] {
            let text = render(&grid, &theme);
            let widths: Vec<usize> = text.split('\n').map(|l| l.chars().count()).collect();
            assert!(widths.iter().all(|w| *w == widths[0]), "{text}");
        }
    }
    let grid = build_grid(&value, Orientation::Vertical);
    let text = render(&grid, &Theme::ascii());
    let expected = "+-----------+---------------+\n\
                    | a         | längere Zeile |\n\
                    +-----------+---------------+\n\
                    | schlüssel |               |\n\
                    +-----------+---------------+\n\
                    | k         | v             |\n\
                    +-----------+---------------+";
    assert_eq!(expected, text);
}

#[test]
fn orientation_transposes_pairs() {
    let vertical = build_grid(&sample(), Orientation::Vertical);
    assert!(!vertical.has_header);
    assert_eq!(vertical.rows.len(), 5);
    assert!(vertical.rows.iter().all(|r| r.len() == 2));
    assert_eq!(vertical.rows[4], vec!["6".to_string(), "xxxxxxxxx".to_string()]);

    let horizontal = build_grid(&sample(), Orientation::Horizontal);
    assert!(horizontal.has_header);
    assert_eq!(horizontal.rows.len(), 2);
    assert_eq!(horizontal.rows[0], vec!["1", "2", "3", "4", "6"]);
    assert_eq!(
        horizontal.rows[1],
        vec!["zxczxczxc", "21313", "6.14", "c", "xxxxxxxxx"]
    );
}

#[test]
fn rule_under_first_row_only_in_rounded() {
    let grid = Grid {
        has_header: false,
        rows: vec![
            vec!["a".to_string()],
            vec!["b".to_string()],
            vec!["c".to_string()],
        ],
    };
    assert_eq!(
        "╭───╮\n│ a │\n├───┤\n│ b │\n│ c │\n╰───╯",
        render(&grid, &Theme::rounded())
    );
    assert_eq!(
        "┌───┐\n│ a │\n├───┤\n│ b │\n├───┤\n│ c │\n└───┘",
        render(&grid, &Theme::modern())
    );
}

#[test]
fn themes_are_looked_up_by_exact_name() {
    assert_eq!(peak_theme("ASCII"), Some(Theme::ascii()));
    assert_eq!(peak_theme("UTF8"), Some(Theme::modern()));
    assert_eq!(peak_theme("UTF8-ROUNDED"), Some(Theme::rounded()));
    assert_eq!(peak_theme("NOPE"), None);
    assert_eq!(peak_theme("ascii"), None);
    assert_eq!(peak_theme(""), None);
    assert_eq!(Theme::for_name("NOPE"), Theme::ascii());
    assert_eq!(Theme::rounded().top_left, '╭');
}

#[test]
fn orientation_names() {
    assert_eq!(Orientation::from_name("HORIZONTAL"), Orientation::Horizontal);
    assert_eq!(Orientation::from_name("VERTICAL"), Orientation::Vertical);
    assert_eq!(Orientation::from_name("HORIZONTALLY"), Orientation::Vertical);
}

#[test]
fn text_comparison() {
    assert!(same_text("UTF8", "UTF8"));
    assert!(!same_text("UTF8", "UTF9"));
    assert!(!same_text("UTF8", "UTF8-ROUNDED"));
    assert!(same_text("", ""));
}

#[test]
fn builder_defaults_and_setters() {
    let mut table = TableBuilder::new(Value::Scalar("x".to_string()));
    assert_eq!(table.orientation, "VERTICAL");
    assert_eq!(table.theme, "ASCII");
    table.set_theme("anything");
    table.set_orientation("else");
    assert_eq!(table.theme, "anything");
    assert_eq!(table.orientation, "else");
}

#[test]
fn ragged_grid_is_rejected() {
    let ragged = Grid {
        has_header: false,
        rows: vec![vec!["a".to_string(), "b".to_string()], vec!["c".to_string()]],
    };
    assert!(!is_rectangular(&ragged));
    assert_eq!(try_render(&ragged, &Theme::ascii()), None);
    let grid = build_grid(&Value::Scalar("42".to_string()), Orientation::Vertical);
    assert!(is_rectangular(&grid));
    assert_eq!(
        try_render(&grid, &Theme::ascii()),
        Some("+----+\n| 42 |\n+----+".to_string())
    );
}
