//! Tests of the escape-sequence builders and the ANSI code tables.

use libconsolegameengine::terminal::{
    bg_code_of, fg_code_of, push_color_select, push_cursor_move, push_dec, push_reset,
    BackgroundColors, ForegroundColors,
};

fn as_string(v: Vec<char>) -> String {
    v.into_iter().collect()
}

#[test]
fn color_codes_follow_the_ansi_table() {
    assert_eq!(fg_code_of(ForegroundColors::Black), 30);
    assert_eq!(fg_code_of(ForegroundColors::Red), 31);
    assert_eq!(fg_code_of(ForegroundColors::Green), 32);
    assert_eq!(fg_code_of(ForegroundColors::Yellow), 33);
    assert_eq!(fg_code_of(ForegroundColors::Blue), 34);
    assert_eq!(fg_code_of(ForegroundColors::Magenta), 35);
    assert_eq!(fg_code_of(ForegroundColors::Cyan), 36);
    assert_eq!(fg_code_of(ForegroundColors::White), 37);
    assert_eq!(bg_code_of(BackgroundColors::Black), 40);
    assert_eq!(bg_code_of(BackgroundColors::Red), 41);
    assert_eq!(bg_code_of(BackgroundColors::Green), 42);
    assert_eq!(bg_code_of(BackgroundColors::Yellow), 43);
    assert_eq!(bg_code_of(BackgroundColors::Blue), 44);
    assert_eq!(bg_code_of(BackgroundColors::Magenta), 45);
    assert_eq!(bg_code_of(BackgroundColors::Cyan), 46);
    assert_eq!(bg_code_of(BackgroundColors::White), 47);
}

#[test]
fn decimal_digits_are_written_most_significant_first() {
    let mut out: Vec<char> = Vec::new();
    push_dec(&mut out, 0);
    assert_eq!(as_string(out), "0");
    let mut out: Vec<char> = Vec::new();
    push_dec(&mut out, 7);
    push_dec(&mut out, 10);
    push_dec(&mut out, 409);
    assert_eq!(as_string(out), "710409");
    let mut out: Vec<char> = Vec::new();
    push_dec(&mut out, usize::MAX);
    assert_eq!(as_string(out), usize::MAX.to_string());
}

#[test]
fn cursor_move_writes_row_semicolon_column() {
    let mut out: Vec<char> = Vec::new();
    push_cursor_move(&mut out, 24, 80);
    assert_eq!(as_string(out), "\x1b[24;80f");
}

#[test]
fn color_select_writes_background_then_foreground() {
    let mut out: Vec<char> = Vec::new();
    push_color_select(&mut out, BackgroundColors::Magenta, ForegroundColors::Green);
    assert_eq!(as_string(out), "\x1b[45;32m");
}

#[test]
fn reset_clears_all_attributes() {
    let mut out: Vec<char> = Vec::new();
    push_reset(&mut out);
    assert_eq!(as_string(out), "\x1b[0m");
}
