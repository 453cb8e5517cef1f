use frozen_term::coalesce::{coalesce, Run};
use frozen_term::style::{Format, Rgba, Symbol};
use frozen_term::text_grid::{IndexBound, TextGrid};

fn sym(c: char) -> Symbol {
    Symbol { c, format: Format::default() }
}

fn colored(c: char, red: u8) -> Symbol {
    let mut f = Format::default();
    f.foreground = Some(Rgba { r: red, g: 0, b: 0, a: 255 });
    Symbol { c, format: f }
}

fn run_text(runs: &[Run]) -> String {
    let mut s = String::new();
    for r in runs {
        s.push_str(&r.text);
    }
    s
}

#[test]
fn all_default_screen_is_one_run() {
    let rows = vec![vec![sym('a'), sym('b')], vec![sym('c'), sym('d')]];
    let runs = coalesce(&rows, 2);
    assert_eq!(runs.len(), 1);
    assert_eq!(runs[0].text, "ab\ncd\n");
    assert_eq!(runs[0].format, Format::default());
}

#[test]
fn round_trip_reproduces_the_characters() {
    // arbitrary attribute pattern: stripping the row terminators yields the
    // snapshot's characters in row-major order
    let rows = vec![
        vec![colored('h', 1), colored('i', 1), sym('!')],
        vec![sym('y'), colored('o', 9), colored('u', 9)],
    ];
    let runs = coalesce(&rows, 3);
    let all = run_text(&runs);
    let stripped: String = all.chars().filter(|c| *c != '\n').collect();
    assert_eq!(stripped, "hi!you");
    // terminators keep the line count
    assert_eq!(all.chars().filter(|c| *c == '\n').count(), 2);
}

#[test]
fn round_trip_all_distinct_formats() {
    // every cell has a distinct format: one run per cell plus terminator runs
    let rows = vec![vec![colored('a', 10), colored('b', 20), colored('c', 30)]];
    let runs = coalesce(&rows, 3);
    assert_eq!(runs.len(), 4);
    assert_eq!(runs[0].text, "a");
    assert_eq!(runs[1].text, "b");
    assert_eq!(runs[2].text, "c");
    assert_eq!(runs[3].text, "\n");
    assert_eq!(runs[3].format, Format::default());
    assert_eq!(run_text(&runs), "abc\n");
}

#[test]
fn coalescing_twice_yields_identical_runs() {
    let rows = vec![
        vec![colored('x', 3), sym('y')],
        vec![sym('p'), colored('q', 7)],
    ];
    let first = coalesce(&rows, 2);
    let second = coalesce(&rows, 2);
    assert_eq!(first, second);
}

#[test]
fn adjacent_runs_never_share_a_format() {
    let rows = vec![
        vec![colored('a', 1), colored('b', 1), sym('c')],
        vec![sym('d'), colored('e', 2), colored('f', 2)],
    ];
    let runs = coalesce(&rows, 3);
    for pair in runs.windows(2) {
        assert_ne!(pair[0].format, pair[1].format);
    }
    for r in &runs {
        assert!(!r.text.is_empty());
    }
}

#[test]
fn short_rows_are_padded_to_width() {
    // a row of 1 visible cell in a 4-wide screen gains 3 default spaces
    let rows = vec![vec![colored('x', 5)]];
    let runs = coalesce(&rows, 4);
    assert_eq!(runs.len(), 2);
    assert_eq!(runs[0].text, "x");
    assert_eq!(runs[1].text, "   \n");
    assert_eq!(runs[1].format, Format::default());
}

#[test]
fn empty_row_still_emits_its_terminator() {
    let rows = vec![vec![], vec![]];
    let runs = coalesce(&rows, 2);
    assert_eq!(runs.len(), 1);
    assert_eq!(runs[0].text, "  \n  \n");
}

#[test]
fn terminator_merges_only_into_default_format_runs() {
    // the row ends in a styled run, so the terminator is its own default run
    let rows = vec![vec![colored('a', 4), colored('b', 4)]];
    let runs = coalesce(&rows, 2);
    assert_eq!(runs.len(), 2);
    assert_eq!(runs[0].text, "ab");
    assert_eq!(runs[1].text, "\n");
}

#[test]
fn scenario_grid_with_one_bold_cell() {
    // a 3-row, 5-column grid of '.' default cells with one bold 'X' at (2, 1)
    let mut g = TextGrid::new(5, 3).unwrap();
    g.fill_range(IndexBound::Unbounded, IndexBound::Unbounded, sym('.')).unwrap();
    let mut bold = Format::default();
    bold.bold = true;
    g.set_symbol(2, 1, Symbol { c: 'X', format: bold }).unwrap();

    let runs = coalesce(&g.rows(), g.width());
    assert_eq!(runs.len(), 3);
    // row 1 splits into "..", "X", ".."; rows 0 and 2 merge into the
    // surrounding default runs together with the terminators
    assert_eq!(runs[0].text, ".....\n..");
    assert_eq!(runs[0].format, Format::default());
    assert_eq!(runs[1].text, "X");
    assert_eq!(runs[1].format, bold);
    assert_eq!(runs[2].text, "..\n.....\n");
    assert_eq!(runs[2].format, Format::default());
}

#[test]
fn hidden_cell_renders_as_space_but_keeps_its_format() {
    let red = Rgba { r: 255, g: 0, b: 0, a: 255 };
    let mut f = Format::default();
    f.background = Some(red);
    f.hidden = true;
    let rows = vec![vec![Symbol { c: 'S', format: f }]];
    let runs = coalesce(&rows, 1);
    assert_eq!(runs.len(), 2);
    assert_eq!(runs[0].text, " ");
    assert_eq!(runs[0].format.background, Some(red));
    assert!(runs[0].format.hidden);
    assert_eq!(runs[1].text, "\n");
}
