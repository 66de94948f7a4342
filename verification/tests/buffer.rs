//! Tests of the frame buffer: construction, drawing primitives, and the
//! dirty-cell bookkeeping.

use libconsolegameengine::game_engine::{BlockChars, GameEngine, Pixel};
use libconsolegameengine::terminal::{BackgroundColors, ForegroundColors};

#[test]
fn new_board_is_fully_dirty_and_blank() {
    let engine = GameEngine::new(4, 3);
    assert_eq!(engine.width(), 4);
    assert_eq!(engine.height(), 3);
    let mut dirty_cells = 0;
    for y in 0..3 {
        for x in 0..4 {
            let p = engine.pixel_at(x, y);
            assert_eq!(p.character, BlockChars::Blank);
            assert_eq!(p.bg_color, BackgroundColors::Black);
            assert_eq!(p.fg_color, ForegroundColors::White);
            if p.dirty {
                dirty_cells += 1;
            }
        }
    }
    assert_eq!(dirty_cells, 12);
}

#[test]
fn draw_pixel_updates_cell_and_marks_dirty() {
    let mut engine = GameEngine::new(3, 2);
    engine.render();
    assert!(!engine.pixel_at(1, 1).dirty);
    engine.draw_pixel(1, 1, BlockChars::Solid, BackgroundColors::Blue, ForegroundColors::Red);
    let p = engine.pixel_at(1, 1);
    assert_eq!(
        p,
        Pixel {
            character: BlockChars::Solid,
            bg_color: BackgroundColors::Blue,
            fg_color: ForegroundColors::Red,
            dirty: true,
        }
    );
    assert!(!engine.pixel_at(0, 0).dirty);
    assert!(!engine.pixel_at(2, 1).dirty);
}

#[test]
fn writing_same_state_twice_marks_dirty_only_once() {
    let mut engine = GameEngine::new(2, 1);
    engine.render();
    engine.draw_pixel(0, 0, BlockChars::Solid, BackgroundColors::Black, ForegroundColors::White);
    assert!(engine.pixel_at(0, 0).dirty);
    engine.render();
    assert!(!engine.pixel_at(0, 0).dirty);
    // The same visible state again: the cell must stay clean.
    engine.draw_pixel(0, 0, BlockChars::Solid, BackgroundColors::Black, ForegroundColors::White);
    assert!(!engine.pixel_at(0, 0).dirty);
}

#[test]
fn fill_touches_exactly_the_rectangle() {
    let mut engine = GameEngine::new(4, 4);
    engine.render();
    engine.fill(1, 1, 2, 2, BlockChars::MediumShaded, BackgroundColors::Green, ForegroundColors::Black);
    for y in 0..4 {
        for x in 0..4 {
            let p = engine.pixel_at(x, y);
            let inside = (1..3).contains(&x) && (1..3).contains(&y);
            assert_eq!(p.dirty, inside);
            if inside {
                assert_eq!(p.character, BlockChars::MediumShaded);
                assert_eq!(p.bg_color, BackgroundColors::Green);
                assert_eq!(p.fg_color, ForegroundColors::Black);
            } else {
                assert_eq!(p.character, BlockChars::Blank);
            }
        }
    }
}

#[test]
fn draw_string_advances_one_column_per_character() {
    let mut engine = GameEngine::new(5, 2);
    engine.render();
    engine.draw_string(1, 1, "hi!", BackgroundColors::Black, ForegroundColors::Cyan);
    assert_eq!(engine.pixel_at(1, 1).character, BlockChars::Custom('h'));
    assert_eq!(engine.pixel_at(2, 1).character, BlockChars::Custom('i'));
    assert_eq!(engine.pixel_at(3, 1).character, BlockChars::Custom('!'));
    assert!(!engine.pixel_at(0, 1).dirty);
    assert!(!engine.pixel_at(4, 1).dirty);
    assert!(!engine.pixel_at(1, 0).dirty);
}

#[test]
fn glyphs_render_as_their_characters() {
    assert_eq!(BlockChars::Blank.to_char(), ' ');
    assert_eq!(BlockChars::Solid.to_char(), '\u{2588}');
    assert_eq!(BlockChars::LightShaded.to_char(), '\u{2591}');
    assert_eq!(BlockChars::MediumShaded.to_char(), '\u{2592}');
    assert_eq!(BlockChars::DarkShade.to_char(), '\u{2593}');
    assert_eq!(BlockChars::Custom('x').to_char(), 'x');
}
