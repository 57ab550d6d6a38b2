use niri_launcher::vim::{
    add_to_columns, calculate_columns, decide_placement, Placement, Vim, WinColumn, WindowGeometry,
};
use niri_launcher::width::Ratio;

fn win(start: i64, width: i64, tw: i64) -> WindowGeometry {
    WindowGeometry { horizontal_start: start, width, text_wrap_column: tw }
}

fn col(start: i64, end: i64, tw: i64) -> WinColumn {
    WinColumn { start, end, text_wrap_column: tw }
}

#[test]
fn disjoint_windows_each_make_a_column_in_position_order() {
    let wins = vec![win(100, 50, 90), win(0, 40, 80), win(50, 30, 100)];
    let cols = calculate_columns(&wins);
    assert_eq!(cols, vec![col(0, 40, 80), col(50, 80, 100), col(100, 150, 90)]);
}

#[test]
fn windows_with_same_start_merge() {
    let cols = calculate_columns(&vec![win(10, 50, 80), win(10, 30, 100)]);
    assert_eq!(cols, vec![col(10, 40, 100)]);
    let cols = calculate_columns(&vec![win(10, 30, 100), win(10, 50, 80)]);
    assert_eq!(cols, vec![col(10, 40, 100)]);
}

#[test]
fn windows_with_same_end_split_at_narrower_start() {
    let cols = calculate_columns(&vec![win(0, 100, 80), win(60, 40, 90)]);
    assert_eq!(cols, vec![col(0, 60, 80), col(60, 100, 90)]);
}

#[test]
fn reclustering_a_column_set_keeps_it() {
    let wins = vec![win(0, 100, 80), win(60, 40, 90), win(100, 20, 70), win(0, 50, 85)];
    let cols = calculate_columns(&wins);
    let again: Vec<WindowGeometry> =
        cols.iter().map(|c| win(c.start, c.end - c.start, c.text_wrap_column)).collect();
    assert_eq!(calculate_columns(&again), cols);
}

#[test]
fn candidate_starting_inside_a_column_splits_it() {
    let cols = calculate_columns(&vec![win(0, 50, 80), win(30, 40, 90)]);
    assert_eq!(cols, vec![col(0, 30, 80), col(30, 70, 90)]);
}

#[test]
fn candidate_covering_a_column_start_is_trimmed() {
    let cols = calculate_columns(&vec![win(30, 40, 80), win(0, 50, 90)]);
    assert_eq!(cols, vec![col(0, 30, 90), col(30, 70, 80)]);
}

#[test]
fn irregular_overlap_drops_the_candidate() {
    // A window strictly inside a column matches no rule.
    let cols = calculate_columns(&vec![win(0, 100, 80), win(20, 30, 90)]);
    assert_eq!(cols, vec![col(0, 100, 80)]);
}

#[test]
fn no_windows_no_columns() {
    assert_eq!(calculate_columns(&vec![]), vec![]);
}

#[test]
fn placement_rules_in_order() {
    let c = col(10, 20, 80);
    assert_eq!(decide_placement(&c, &col(20, 30, 80)), Placement::Continue);
    assert_eq!(decide_placement(&c, &col(0, 10, 80)), Placement::InsertBefore);
    assert_eq!(decide_placement(&c, &col(10, 15, 80)), Placement::MergeSameStart);
    assert_eq!(decide_placement(&c, &col(15, 20, 80)), Placement::ShareEnd);
    assert_eq!(decide_placement(&c, &col(15, 25, 80)), Placement::SplitAfter);
    assert_eq!(decide_placement(&c, &col(5, 15, 80)), Placement::TrimBefore);
    assert_eq!(decide_placement(&c, &col(12, 18, 80)), Placement::Drop);
}

#[test]
fn add_to_columns_appends_after_all() {
    let mut cols = vec![col(0, 10, 80)];
    add_to_columns(&mut cols, col(10, 20, 90));
    assert_eq!(cols, vec![col(0, 10, 80), col(10, 20, 90)]);
}

#[test]
fn from_window_adds_width() {
    assert_eq!(WinColumn::from_window(&win(7, 13, 72)), col(7, 20, 72));
}

#[test]
fn vim_starts_with_default_koeff() {
    let vim = Vim::new(&vec![win(0, 40, 80), win(40, 40, 100)]);
    assert_eq!(vim.get_num_columns(), 2);
    assert_eq!(vim.get_column_width_koeff(), Ratio { numer: 12, denom: 10 });
    assert_eq!(vim.get_pixels_for_symbol(), Ratio { numer: 80093, denom: 10000 });
    assert_eq!(vim.get_columns(), &vec![col(0, 40, 80), col(40, 80, 100)]);
}

#[test]
fn vim_columns_can_be_edited() {
    let mut vim = Vim::new(&vec![win(0, 40, 80)]);
    vim.get_columns_mut().push(col(40, 90, 70));
    assert_eq!(vim.get_num_columns(), 2);
    assert_eq!(vim.get_current_symbol_width(), 90);
}

#[test]
fn text_wrap_defaults_to_eighty() {
    assert_eq!(niri_launcher::vim::text_wrap_or_default(None), 80);
    assert_eq!(niri_launcher::vim::text_wrap_or_default(Some(100)), 100);
    assert_eq!(niri_launcher::vim::text_wrap_or_default(Some(0)), 0);
}
