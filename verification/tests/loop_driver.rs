//! Tests of the game loop driver.  The loop touches the real terminal, so
//! these stay on paths that work whether or not the test harness has one:
//! when standard output is not a terminal, acquiring raw mode fails and the
//! loop must abort before any game code runs; when it is one, a declining
//! init or draw step ends the run after restoring the terminal.

use libconsolegameengine::game_engine::{GameEngine, GamePlay};

struct CountingPlay {
    init_answer: bool,
    draw_answer: bool,
    inits: usize,
    draws: usize,
}

impl GamePlay for CountingPlay {
    fn init(&mut self, _engine: &mut GameEngine) -> bool {
        self.inits += 1;
        self.init_answer
    }

    fn draw(&mut self, _engine: &mut GameEngine, _elapsed_micros: u64) -> bool {
        self.draws += 1;
        self.draw_answer
    }
}

#[test]
fn declining_init_never_reaches_draw() {
    let mut play = CountingPlay { init_answer: false, draw_answer: true, inits: 0, draws: 0 };
    let mut engine = GameEngine::new(2, 2);
    let result = engine.begin(&mut play);
    // Whether or not raw mode could be acquired here, the draw step must
    // never have run: a declining init skips the main loop entirely.
    assert_eq!(play.draws, 0);
    assert!(play.inits <= 1);
    if result.is_err() {
        // Raw mode was refused: the loop aborted before any game code.
        assert_eq!(play.inits, 0);
    }
}

#[test]
fn declining_draw_ends_the_loop_after_one_frame() {
    let mut play = CountingPlay { init_answer: true, draw_answer: false, inits: 0, draws: 0 };
    let mut engine = GameEngine::new(2, 2);
    let result = engine.begin(&mut play);
    if result.is_ok() && play.inits == 1 {
        // A full run: exactly one frame was drawn, then the loop ended.
        assert_eq!(play.draws, 1);
    } else {
        // No terminal here: the loop aborted before any game code ran.
        assert_eq!(play.draws, 0);
    }
    // The board survives the run with its dimensions intact.
    assert_eq!(engine.width(), 2);
    assert_eq!(engine.height(), 2);
}
