//! Console game engine for Unix terminals.
//!
//! The library keeps a rectangular board of coloured block characters in
//! memory, tracks which cells changed since the last frame, and emits ANSI
//! escape sequences for exactly those cells.  A game loop driver pairs the
//! terminal's raw mode with a guaranteed restoration step and feeds elapsed
//! time to caller-supplied game logic; a decoder classifies pending keyboard
//! bytes into semantic key events without blocking.

pub mod driver;
pub mod game_engine;
mod sys;
pub mod terminal;
