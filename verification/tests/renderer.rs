//! Tests of the renderer: the exact escape sequences a flush emits.

use libconsolegameengine::game_engine::{BlockChars, GameEngine};
use libconsolegameengine::terminal::{BackgroundColors, ForegroundColors};

fn rendered(engine: &mut GameEngine) -> String {
    engine.render().into_iter().collect()
}

#[test]
fn first_render_paints_every_cell() {
    let mut engine = GameEngine::new(2, 2);
    let out = rendered(&mut engine);
    let expected = "\x1b[1;1f\x1b[1;1f\x1b[40;37m \x1b[1;2f\x1b[40;37m \x1b[2;1f\x1b[40;37m \x1b[2;2f\x1b[40;37m \x1b[0m";
    assert_eq!(out, expected);
}

#[test]
fn full_fill_flushes_one_triple_per_cell_then_reset() {
    let mut engine = GameEngine::new(2, 2);
    engine.render();
    // A previously-blank board filled edge to edge: every cell changes, so
    // the flush emits exactly width*height (move, color, glyph) triples and
    // one reset.
    engine.fill(0, 0, 2, 2, BlockChars::Solid, BackgroundColors::Black, ForegroundColors::White);
    let out = rendered(&mut engine);
    let expected = "\x1b[1;1f\x1b[1;1f\x1b[40;37m\u{2588}\x1b[1;2f\x1b[40;37m\u{2588}\x1b[2;1f\x1b[40;37m\u{2588}\x1b[2;2f\x1b[40;37m\u{2588}\x1b[0m";
    assert_eq!(out, expected);
}

#[test]
fn render_of_clean_board_emits_no_cell_output() {
    let mut engine = GameEngine::new(3, 2);
    engine.render();
    let out = rendered(&mut engine);
    assert_eq!(out, "\x1b[1;1f\x1b[0m");
    // And it stays that way: rendering is idempotent on a clean board.
    let again = rendered(&mut engine);
    assert_eq!(again, "\x1b[1;1f\x1b[0m");
}

#[test]
fn render_emits_only_changed_cells_in_row_major_order() {
    let mut engine = GameEngine::new(3, 3);
    engine.render();
    engine.draw_pixel(2, 0, BlockChars::Custom('a'), BackgroundColors::Red, ForegroundColors::Yellow);
    engine.draw_pixel(0, 2, BlockChars::Custom('b'), BackgroundColors::Cyan, ForegroundColors::Magenta);
    let out = rendered(&mut engine);
    let expected = "\x1b[1;1f\x1b[1;3f\x1b[41;33ma\x1b[3;1f\x1b[46;35mb\x1b[0m";
    assert_eq!(out, expected);
    // Writing the same visible state again dirties nothing.
    engine.draw_pixel(2, 0, BlockChars::Custom('a'), BackgroundColors::Red, ForegroundColors::Yellow);
    assert_eq!(rendered(&mut engine), "\x1b[1;1f\x1b[0m");
}

#[test]
fn zero_sized_boards_render_nothing_but_home_and_reset() {
    let mut wide = GameEngine::new(0, 5);
    assert_eq!(wide.width(), 0);
    assert_eq!(rendered(&mut wide), "\x1b[1;1f\x1b[0m");
    let mut tall = GameEngine::new(5, 0);
    assert_eq!(tall.height(), 0);
    assert_eq!(rendered(&mut tall), "\x1b[1;1f\x1b[0m");
}

#[test]
fn render_positions_are_one_based_row_then_column() {
    let mut engine = GameEngine::new(12, 11);
    engine.render();
    engine.draw_pixel(10, 9, BlockChars::DarkShade, BackgroundColors::White, ForegroundColors::Black);
    let out = rendered(&mut engine);
    let expected = "\x1b[1;1f\x1b[10;11f\x1b[47;30m\u{2593}\x1b[0m";
    assert_eq!(out, expected);
}
