use niri_launcher::vim::{Vim, WinColumn, WindowGeometry};
use niri_launcher::width::{
    current_symbol_width, desired_symbol_width, scale_ratio, symbols_to_pixels, Ratio,
};

fn col(start: i64, end: i64, tw: i64) -> WinColumn {
    WinColumn { start, end, text_wrap_column: tw }
}

#[test]
fn desired_width_of_two_columns() {
    let cols = vec![col(0, 50, 80), col(50, 120, 100)];
    assert_eq!(desired_symbol_width(&cols, Ratio { numer: 12, denom: 10 }), 216);
}

#[test]
fn current_width_is_largest_end() {
    let cols = vec![col(0, 50, 80), col(50, 120, 80), col(60, 90, 80)];
    assert_eq!(current_symbol_width(&cols), 120);
}

#[test]
fn widths_of_no_columns_are_zero() {
    assert_eq!(current_symbol_width(&vec![]), 0);
    assert_eq!(desired_symbol_width(&vec![], Ratio { numer: 12, denom: 10 }), 0);
}

#[test]
fn pixel_widths_use_symbol_estimate() {
    // 216 * 8.0093 = 1730.0088
    assert_eq!(symbols_to_pixels(216), 1730);
    // 120 * 8.0093 = 961.116
    assert_eq!(symbols_to_pixels(120), 961);
    assert_eq!(symbols_to_pixels(0), 0);
}

#[test]
fn rounding_goes_half_away_from_zero() {
    let half = Ratio { numer: 1, denom: 2 };
    assert_eq!(scale_ratio(5, half), 3);
    assert_eq!(scale_ratio(-5, half), -3);
    assert_eq!(scale_ratio(4, Ratio { numer: 1, denom: 3 }), 1);
    assert_eq!(scale_ratio(5, Ratio { numer: 1, denom: 3 }), 2);
}

#[test]
fn scaling_saturates() {
    let big = Ratio { numer: u32::MAX, denom: 1 };
    assert_eq!(scale_ratio(i128::MAX, big), i64::MAX);
    assert_eq!(scale_ratio(i128::MIN, big), i64::MIN);
    assert_eq!(scale_ratio(i64::MAX as i128, Ratio { numer: 2, denom: 1 }), i64::MAX);
}

#[test]
fn vim_widths() {
    let wins = vec![
        WindowGeometry { horizontal_start: 0, width: 50, text_wrap_column: 80 },
        WindowGeometry { horizontal_start: 50, width: 70, text_wrap_column: 100 },
    ];
    let mut vim = Vim::new(&wins);
    assert_eq!(vim.get_desired_symbol_width(), 216);
    assert_eq!(vim.get_desired_pixel_width(), 1730);
    assert_eq!(vim.get_current_symbol_width(), 120);
    assert_eq!(vim.get_current_pixel_width(), 961);
    vim.set_column_width_koeff(Ratio { numer: 1, denom: 1 });
    assert_eq!(vim.get_desired_symbol_width(), 180);
}
