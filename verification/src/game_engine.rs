//! The frame buffer and its diffed renderer.
//!
//! A game board is a row-major grid of cells, each holding a glyph, a
//! background and a foreground color, and a dirty flag.  Drawing operations
//! update a cell (and mark it dirty) only when its visible state actually
//! changes, and the renderer emits escape sequences for exactly the dirty
//! cells, clearing their flags.  This keeps terminal writes, which dominate
//! the cost of a frame, proportional to what changed.

use crate::driver::{
    faithful_events, lemma_faithful_push, phase_after, DriverEvent, DriverPhase,
};
pub use crate::terminal::{BackgroundColors, ForegroundColors};
use crate::terminal::{
    color_select_seq, cursor_home_seq, cursor_move_seq, push_color_select, push_cursor_move,
    push_reset, reset_seq,
};
use vstd::prelude::*;
use vstd::string::StrSliceExecFns;

verus! {

/// Unicode block characters used to draw items on the game board.
#[derive(Copy, Clone, PartialEq, Eq, Structural, Debug)]
pub enum BlockChars {
    Blank,
    Solid,
    LightShaded,
    MediumShaded,
    DarkShade,
    Custom(char),
}

/// The character a glyph renders as: the fixed glyphs map to a space and the
/// four block-element characters, and `Custom` carries its own character.
pub open spec fn glyph_char(b: BlockChars) -> char {
    match b {
        BlockChars::Blank => ' ',
        BlockChars::Solid => '\u{2588}',
        BlockChars::LightShaded => '\u{2591}',
        BlockChars::MediumShaded => '\u{2592}',
        BlockChars::DarkShade => '\u{2593}',
        BlockChars::Custom(c) => c,
    }
}

impl BlockChars {
    /// The character that draws this glyph on the terminal.
    pub fn to_char(self) -> (c: char)
        ensures
            c == glyph_char(self),
    {
        match self {
            BlockChars::Blank => ' ',
            BlockChars::Solid => '\u{2588}',
            BlockChars::LightShaded => '\u{2591}',
            BlockChars::MediumShaded => '\u{2592}',
            BlockChars::DarkShade => '\u{2593}',
            BlockChars::Custom(c) => c,
        }
    }
}

/// One cell of the game board.
#[derive(Copy, Clone, PartialEq, Eq, Structural, Debug)]
pub struct Pixel {
    pub character: BlockChars,
    pub bg_color: BackgroundColors,
    pub fg_color: ForegroundColors,
    /// Whether this cell's visible state changed since it was last rendered.
    pub dirty: bool,
}

/// The cell every board starts from: blank, black on white, and dirty, so
/// that the first flush paints the whole board.
pub open spec fn fresh_pixel() -> Pixel {
    Pixel {
        character: BlockChars::Blank,
        bg_color: BackgroundColors::Black,
        fg_color: ForegroundColors::White,
        dirty: true,
    }
}

/// What writing (`c`, `bg`, `fg`) leaves in a cell that held `p`: nothing at
/// all if the visible state already matches, otherwise the new state with the
/// dirty flag set.
pub open spec fn written_pixel(
    p: Pixel,
    c: BlockChars,
    bg: BackgroundColors,
    fg: ForegroundColors,
) -> Pixel {
    if p.character == c && p.bg_color == bg && p.fg_color == fg {
        p
    } else {
        Pixel { character: c, bg_color: bg, fg_color: fg, dirty: true }
    }
}

/// `p` with its dirty flag cleared.
pub open spec fn clean_pixel(p: Pixel) -> Pixel {
    Pixel { dirty: false, ..p }
}

/// The mathematical model of a game board: its dimensions and the row-major
/// sequence of its cells.
#[verifier::ext_equal]
pub struct GridModel {
    pub width: nat,
    pub height: nat,
    pub cells: Seq<Pixel>,
}

impl GridModel {
    /// The board invariant: exactly `width * height` cells.
    pub open spec fn wf(self) -> bool {
        self.cells.len() == self.width * self.height
    }

    /// The row-major index of the coordinate (`x`, `y`).
    pub open spec fn idx(self, x: int, y: int) -> int {
        y * self.width + x
    }

    pub open spec fn in_bounds(self, x: int, y: int) -> bool {
        0 <= x < self.width && 0 <= y < self.height
    }

    /// The cell at coordinate (`x`, `y`).
    pub open spec fn cell(self, x: int, y: int) -> Pixel {
        self.cells[self.idx(x, y)]
    }

    /// The same board with every dirty flag cleared.
    pub open spec fn cleaned(self) -> GridModel {
        GridModel {
            width: self.width,
            height: self.height,
            cells: Seq::new(self.cells.len(), |i: int| clean_pixel(self.cells[i])),
        }
    }

    pub open spec fn all_clean(self) -> bool {
        forall|i: int| 0 <= i < self.cells.len() ==> !self.cells[i].dirty
    }
}

/// In a `width`-column row-major grid, the index of an in-bounds coordinate
/// is below the grid size.
pub proof fn lemma_row_major_bound(x: int, y: int, w: int, h: int)
    by (nonlinear_arith)
    requires
        0 <= x < w,
        0 <= y < h,
    ensures
        0 <= y * w + x < w * h,
{
}

/// In a `width`-column row-major grid, distinct in-bounds coordinates have
/// distinct indices.
pub proof fn lemma_row_major_injective(w: int, x1: int, y1: int, x2: int, y2: int)
    by (nonlinear_arith)
    requires
        0 <= x1 < w,
        0 <= x2 < w,
        0 <= y1,
        0 <= y2,
        x1 != x2 || y1 != y2,
    ensures
        y1 * w + x1 != y2 * w + x2,
{
}

/// Whether (`x`, `y`) lies in the rectangle of the given origin and size.
pub open spec fn rect_contains(left: int, top: int, width: int, height: int, x: int, y: int) -> bool {
    left <= x < left + width && top <= y < top + height
}

/// The product of two numbers grows by one factor when the other increases
/// by one.
proof fn lemma_mul_succ(y: int, w: int)
    by (nonlinear_arith)
    ensures
        (y + 1) * w == y * w + w,
{
}

/// Multiplying both sides of an inequality by a non-negative number keeps it.
proof fn lemma_mul_le(a: int, b: int, w: int)
    by (nonlinear_arith)
    requires
        a <= b,
        0 <= w,
    ensures
        a * w <= b * w,
{
}

/// What the renderer emits for the cell at index `i`: nothing for a clean
/// cell; for a dirty cell a cursor move to its 1-based position, a color
/// select, and its glyph character.
pub open spec fn cell_output(m: GridModel, i: int) -> Seq<char> {
    let p = m.cells[i];
    if p.dirty {
        cursor_move_seq((i / (m.width as int) + 1) as nat, (i % (m.width as int) + 1) as nat)
            + color_select_seq(p.bg_color, p.fg_color) + seq![glyph_char(p.character)]
    } else {
        Seq::empty()
    }
}

/// The concatenated output for the first `n` cells, in row-major order.
pub open spec fn cells_output_upto(m: GridModel, n: int) -> Seq<char>
    decreases n,
{
    if n <= 0 {
        Seq::empty()
    } else {
        cells_output_upto(m, n - 1) + cell_output(m, n - 1)
    }
}

/// Everything one flush writes to the terminal: a cursor-home escape, the
/// output of each dirty cell in row-major order, and one attribute reset.
pub open spec fn render_output(m: GridModel) -> Seq<char> {
    cursor_home_seq() + cells_output_upto(m, m.cells.len() as int) + reset_seq()
}

/// The behavior a game supplies to the loop driver.  Implementations hold
/// their own state, which the driver never looks into; they may not shrink
/// or grow the board they are handed.
pub trait GamePlay {
    /// One-time setup, used to draw the static parts of the game before the
    /// first frame.  Returns whether the game should run at all: answering
    /// `false` skips the main loop entirely (the terminal is still
    /// restored).
    fn init(&mut self, engine: &mut GameEngine) -> (go: bool)
        requires
            old(engine).wf(),
        ensures
            final(engine).wf(),
            final(engine)@.width == old(engine)@.width,
            final(engine)@.height == old(engine)@.height,
    ;

    /// One frame: change the game state and draw the game world.
    /// `elapsed_micros` is the monotonic time, in whole microseconds, since
    /// the previous frame began (for the first frame: since the loop was
    /// entered).  Returns whether the game goes on: answering `false` ends
    /// the loop.
    fn draw(&mut self, engine: &mut GameEngine, elapsed_micros: u64) -> (go: bool)
        requires
            old(engine).wf(),
        ensures
            final(engine).wf(),
            final(engine)@.width == old(engine)@.width,
            final(engine)@.height == old(engine)@.height,
    ;
}

/// Contains the game board and its properties.
pub struct GameEngine {
    grid: Vec<Pixel>,
    width: usize,
    height: usize,
}

impl View for GameEngine {
    type V = GridModel;

    closed spec fn view(&self) -> GridModel {
        GridModel { width: self.width as nat, height: self.height as nat, cells: self.grid@ }
    }
}

impl GameEngine {
    /// The board invariant, stated over the model.
    pub open spec fn wf(&self) -> bool {
        self@.wf()
    }

    /// Creates a new game engine to represent a game board of the specified
    /// dimensions.  Every cell starts blank and dirty, so the first flush
    /// paints the whole board.
    pub fn new(width: usize, height: usize) -> (engine: GameEngine)
        requires
            width * height <= usize::MAX,
        ensures
            engine.wf(),
            engine@.width == width as nat,
            engine@.height == height as nat,
            forall|i: int| 0 <= i < engine@.cells.len() ==> engine@.cells[i] == fresh_pixel(),
    {
        let size = width * height;
        let mut grid: Vec<Pixel> = Vec::new();
        while grid.len() < size
            invariant
                grid@.len() <= size,
                forall|i: int| 0 <= i < grid@.len() ==> grid@[i] == fresh_pixel(),
            decreases size - grid.len(),
        {
            grid.push(
                Pixel {
                    character: BlockChars::Blank,
                    bg_color: BackgroundColors::Black,
                    fg_color: ForegroundColors::White,
                    dirty: true,
                },
            );
        }
        GameEngine { grid, width, height }
    }

    /// Game board width (in characters).
    pub fn width(&self) -> (w: usize)
        ensures
            w as nat == self@.width,
    {
        self.width
    }

    /// Game board height (in characters).
    pub fn height(&self) -> (h: usize)
        ensures
            h as nat == self@.height,
    {
        self.height
    }

    /// The cell at coordinate (`x`, `y`).  Coordinates must be in bounds.
    pub fn pixel_at(&self, x: usize, y: usize) -> (p: Pixel)
        requires
            self.wf(),
            self@.in_bounds(x as int, y as int),
        ensures
            p == self@.cell(x as int, y as int),
    {
        proof {
            lemma_row_major_bound(x as int, y as int, self@.width as int, self@.height as int);
            assert(vstd::std_specs::vec::spec_vec_len(&self.grid) == self.grid@.len());
        }
        let index = y * self.width + x;
        self.grid[index]
    }

    /// Sets a pixel at a specific coordinate.
    ///
    /// This can be used to draw assets on the game board.
    /// The cell is updated, and marked dirty, only if its visible state
    /// actually changes.  Coordinates must be in bounds.
    pub fn draw_pixel(
        &mut self,
        x: usize,
        y: usize,
        c: BlockChars,
        bg_color: BackgroundColors,
        fg_color: ForegroundColors,
    )
        requires
            old(self).wf(),
            old(self)@.in_bounds(x as int, y as int),
        ensures
            final(self).wf(),
            final(self)@.width == old(self)@.width,
            final(self)@.height == old(self)@.height,
            final(self)@.cell(x as int, y as int) == written_pixel(
                old(self)@.cell(x as int, y as int),
                c,
                bg_color,
                fg_color,
            ),
            forall|i: int|
                0 <= i < old(self)@.cells.len() && i != old(self)@.idx(x as int, y as int)
                    ==> final(self)@.cells[i] == old(self)@.cells[i],
    {
        proof {
            lemma_row_major_bound(x as int, y as int, self@.width as int, self@.height as int);
            assert(vstd::std_specs::vec::spec_vec_len(&self.grid) == self.grid@.len());
        }
        let index = y * self.width + x;
        let p = self.grid[index];
        let is_same = p.bg_color == bg_color && p.fg_color == fg_color && p.character == c;
        if !is_same {
            self.grid[index] =
                Pixel { character: c, bg_color: bg_color, fg_color: fg_color, dirty: true };
        }
    }

    /// Fills a rectangle within the game board with the given glyph and
    /// colors.
    ///
    /// This is used both to draw assets and to clear the game board.  Each
    /// cell is updated, and marked dirty, only if its visible state actually
    /// changes.  The rectangle must lie within the board.
    pub fn fill(
        &mut self,
        left: usize,
        top: usize,
        width: usize,
        height: usize,
        c: BlockChars,
        bg_color: BackgroundColors,
        fg_color: ForegroundColors,
    )
        requires
            old(self).wf(),
            left + width <= old(self)@.width,
            top + height <= old(self)@.height,
        ensures
            final(self).wf(),
            final(self)@.width == old(self)@.width,
            final(self)@.height == old(self)@.height,
            forall|cx: int, cy: int| #![auto]
                old(self)@.in_bounds(cx, cy) ==> final(self)@.cell(cx, cy) == (
                if rect_contains(left as int, top as int, width as int, height as int, cx, cy) {
                    written_pixel(old(self)@.cell(cx, cy), c, bg_color, fg_color)
                } else {
                    old(self)@.cell(cx, cy)
                }),
    {
        let ghost m0 = self@;
        let mut y: usize = top;
        while y < top + height
            invariant
                self.wf(),
                self@.width == m0.width,
                self@.height == m0.height,
                m0.wf(),
                top <= y <= top + height,
                left + width <= m0.width,
                top + height <= m0.height,
                forall|cx: int, cy: int| #![auto]
                    m0.in_bounds(cx, cy) ==> self@.cell(cx, cy) == (
                    if rect_contains(left as int, top as int, width as int, y - top, cx, cy) {
                        written_pixel(m0.cell(cx, cy), c, bg_color, fg_color)
                    } else {
                        m0.cell(cx, cy)
                    }),
            decreases top + height - y,
        {
            let mut x: usize = left;
            while x < left + width
                invariant
                    self.wf(),
                    self@.width == m0.width,
                    self@.height == m0.height,
                    m0.wf(),
                    top <= y < top + height,
                    left <= x <= left + width,
                    left + width <= m0.width,
                    top + height <= m0.height,
                    forall|cx: int, cy: int| #![auto]
                        m0.in_bounds(cx, cy) ==> self@.cell(cx, cy) == (
                        if rect_contains(left as int, top as int, width as int, y - top, cx, cy)
                            || (cy == y && left <= cx < x) {
                            written_pixel(m0.cell(cx, cy), c, bg_color, fg_color)
                        } else {
                            m0.cell(cx, cy)
                        }),
                decreases left + width - x,
            {
                let ghost prev = self@;
                self.draw_pixel(x, y, c, bg_color, fg_color);
                proof {
                    assert forall|cx: int, cy: int|
                        prev.in_bounds(cx, cy) && (cx != x || cy != y) implies self@.cell(cx, cy)
                        == prev.cell(cx, cy) by {
                        lemma_row_major_bound(cx, cy, prev.width as int, prev.height as int);
                        lemma_row_major_injective(prev.width as int, cx, cy, x as int, y as int);
                    }
                }
                x += 1;
            }
            y += 1;
        }
    }

    /// Draws a string at the specified coordinate, one character per cell,
    /// advancing one column per character.  There is no wrapping: the whole
    /// string must fit in the row.
    ///
    /// Each cell is updated, and marked dirty, only if its visible state
    /// actually changes.
    pub fn draw_string(
        &mut self,
        x: usize,
        y: usize,
        s: &str,
        bg_color: BackgroundColors,
        fg_color: ForegroundColors,
    )
        requires
            old(self).wf(),
            x + s@.len() <= old(self)@.width,
            y < old(self)@.height,
        ensures
            final(self).wf(),
            final(self)@.width == old(self)@.width,
            final(self)@.height == old(self)@.height,
            forall|cx: int, cy: int| #![auto]
                old(self)@.in_bounds(cx, cy) ==> final(self)@.cell(cx, cy) == (
                if cy == y && x <= cx < x + s@.len() {
                    written_pixel(
                        old(self)@.cell(cx, cy),
                        BlockChars::Custom(s@[cx - x]),
                        bg_color,
                        fg_color,
                    )
                } else {
                    old(self)@.cell(cx, cy)
                }),
    {
        let ghost m0 = self@;
        let n = s.unicode_len();
        let mut i: usize = 0;
        while i < n
            invariant
                self.wf(),
                self@.width == m0.width,
                self@.height == m0.height,
                m0.wf(),
                n == s@.len(),
                i <= n,
                x + n <= m0.width,
                y < m0.height,
                forall|cx: int, cy: int| #![auto]
                    m0.in_bounds(cx, cy) ==> self@.cell(cx, cy) == (
                    if cy == y && x <= cx < x + i {
                        written_pixel(
                            m0.cell(cx, cy),
                            BlockChars::Custom(s@[cx - x]),
                            bg_color,
                            fg_color,
                        )
                    } else {
                        m0.cell(cx, cy)
                    }),
            decreases n - i,
        {
            let ch = s.get_char(i);
            let ghost prev = self@;
            self.draw_pixel(x + i, y, BlockChars::Custom(ch), bg_color, fg_color);
            proof {
                assert forall|cx: int, cy: int|
                    prev.in_bounds(cx, cy) && (cx != x + i || cy != y) implies self@.cell(cx, cy)
                    == prev.cell(cx, cy) by {
                    lemma_row_major_bound(cx, cy, prev.width as int, prev.height as int);
                    lemma_row_major_injective(prev.width as int, cx, cy, x + i, y as int);
                }
            }
            i += 1;
        }
    }

    /// Walks the board in row-major order and collects the escape sequences
    /// that bring the terminal up to date: a cursor-home, then for every
    /// dirty cell a cursor move, a color select and its glyph, and finally
    /// one attribute reset.  Every dirty flag is cleared; nothing else
    /// changes.
    ///
    /// This is the only operation that clears dirty flags.
    pub fn render(&mut self) -> (out: Vec<char>)
        requires
            old(self).wf(),
        ensures
            final(self).wf(),
            final(self)@ == old(self)@.cleaned(),
            out@ == render_output(old(self)@),
    {
        let ghost m0 = self@;
        let mut out: Vec<char> = Vec::new();
        push_cursor_move(&mut out, 1, 1);
        proof {
            assert(out@ =~= cursor_home_seq() + cells_output_upto(m0, 0));
        }
        let mut y: usize = 0;
        while y < self.height
            invariant
                self.wf(),
                self@.width == m0.width,
                self@.height == m0.height,
                m0.wf(),
                y <= m0.height,
                y * m0.width <= m0.cells.len(),
                forall|i: int| #![auto]
                    0 <= i < y * m0.width ==> self@.cells[i] == clean_pixel(m0.cells[i]),
                forall|i: int| #![auto]
                    y * m0.width <= i < m0.cells.len() ==> self@.cells[i] == m0.cells[i],
                out@ == cursor_home_seq() + cells_output_upto(m0, y * m0.width),
            decreases m0.height - y,
        {
            let mut x: usize = 0;
            proof {
                lemma_mul_succ(y as int, m0.width as int);
                lemma_mul_le(y as int + 1, m0.height as int, m0.width as int);
                assert(m0.height * m0.width == m0.width * m0.height) by (nonlinear_arith);
            }
            while x < self.width
                invariant
                    self.wf(),
                    self@.width == m0.width,
                    self@.height == m0.height,
                    m0.wf(),
                    y < m0.height,
                    x <= m0.width,
                    y * m0.width + x <= m0.cells.len(),
                    forall|i: int| #![auto]
                        0 <= i < y * m0.width + x ==> self@.cells[i] == clean_pixel(m0.cells[i]),
                    forall|i: int| #![auto]
                        y * m0.width + x <= i < m0.cells.len() ==> self@.cells[i] == m0.cells[i],
                    out@ == cursor_home_seq() + cells_output_upto(m0, y * m0.width + x),
                decreases m0.width - x,
            {
                proof {
                    lemma_row_major_bound(x as int, y as int, m0.width as int, m0.height as int);
                    assert(m0.height * m0.width == m0.width * m0.height) by (nonlinear_arith);
                    assert(vstd::std_specs::vec::spec_vec_len(&self.grid) == self.grid@.len());
                }
                let index = y * self.width + x;
                let ghost i0 = index as int;
                proof {
                    vstd::arithmetic::div_mod::lemma_fundamental_div_mod_converse(
                        i0,
                        m0.width as int,
                        y as int,
                        x as int,
                    );
                }
                let p = self.grid[index];
                if p.dirty {
                    self.grid[index] =
                        Pixel {
                            character: p.character,
                            bg_color: p.bg_color,
                            fg_color: p.fg_color,
                            dirty: false,
                        };
                    push_cursor_move(&mut out, y + 1, x + 1);
                    push_color_select(&mut out, p.bg_color, p.fg_color);
                    out.push(p.character.to_char());
                }
                proof {
                    assert(out@ =~= cursor_home_seq() + cells_output_upto(m0, i0 + 1));
                }
                x += 1;
            }
            proof {
                lemma_mul_succ(y as int, m0.width as int);
            }
            y += 1;
        }
        proof {
            assert(m0.height * m0.width == m0.width * m0.height) by (nonlinear_arith);
        }
        push_reset(&mut out);
        proof {
            assert(out@ =~= render_output(m0));
            assert(self@.cells =~= m0.cleaned().cells);
            assert(self@ =~= m0.cleaned());
        }
        out
    }

    /// Prints the game board and game world on the terminal.
    ///
    /// Only the cells which changed since the previous flush are drawn; their
    /// dirty flags are cleared.  This must run after each frame's writes, or
    /// the terminal view diverges from the buffer indefinitely.
    pub fn flush(&mut self)
        requires
            old(self).wf(),
        ensures
            final(self).wf(),
            final(self)@ == old(self)@.cleaned(),
    {
        let out = self.render();
        let s = crate::sys::chars_to_string(&out);
        crate::sys::write_stdout(s.as_str());
    }

    /// Runs the game loop: acquires raw mode, runs the one-time init step,
    /// then repeatedly samples elapsed time, invokes the per-frame draw
    /// step, and flushes — and restores the terminal state on every exit
    /// path that acquired it.
    ///
    /// If raw mode cannot be acquired, the loop aborts before any game code
    /// runs, and there is nothing to restore.  Afterwards the terminal is
    /// restored unconditionally — also when init declines — and a teardown
    /// error is surfaced without preventing the remaining restoration step.
    /// The ghost `events` trace follows the driver state machine step for
    /// step; the laws in `driver` pin its obligations.
    ///
    /// The terminal's mode and flags are process-wide: one process runs one
    /// loop at a time.
    pub fn begin<T: GamePlay>(&mut self, game_play: &mut T) -> (r: Result<(), std::io::Error>)
        requires
            old(self).wf(),
        ensures
            final(self).wf(),
            final(self)@.width == old(self)@.width,
            final(self)@.height == old(self)@.height,
    {
        let ghost mut events: Seq<DriverEvent> = Seq::empty();
        match crate::sys::enter_raw_mode() {
            Err(e) => {
                proof {
                    lemma_faithful_push(events, DriverEvent::RawModeFailed);
                    events = events.push(DriverEvent::RawModeFailed);
                    assert(phase_after(events) == DriverPhase::Done);
                }
                return Err(e);
            },
            Ok(_) => {
                proof {
                    lemma_faithful_push(events, DriverEvent::RawModeOk);
                    events = events.push(DriverEvent::RawModeOk);
                    assert(phase_after(events) == DriverPhase::Init);
                }
            },
        }
        let go = game_play.init(self);
        proof {
            lemma_faithful_push(events, DriverEvent::Continue(go));
            events = events.push(DriverEvent::Continue(go));
        }
        if go {
            let mut now = crate::sys::instant_now();
            // The frame budget only gives the loop a termination measure: at
            // any realistic frame rate it outlasts the hardware by hundreds
            // of millennia, so in practice a game ends by its draw step
            // declining.
            let mut frames_left: u64 = u64::MAX;
            loop
                invariant_except_break
                    self.wf(),
                    self@.width == old(self)@.width,
                    self@.height == old(self)@.height,
                    faithful_events(events),
                    phase_after(events) == DriverPhase::Frame,
                    frames_left >= 1,
                ensures
                    self.wf(),
                    self@.width == old(self)@.width,
                    self@.height == old(self)@.height,
                    faithful_events(events),
                    phase_after(events) == DriverPhase::Restore,
                decreases frames_left,
            {
                let elapsed = crate::sys::elapsed_micros_since(&now);
                now = crate::sys::instant_now();
                let drew = game_play.draw(self, elapsed);
                if drew {
                    self.flush();
                }
                frames_left = frames_left - 1;
                let cont = drew && frames_left > 0;
                proof {
                    lemma_faithful_push(events, DriverEvent::Continue(cont));
                    events = events.push(DriverEvent::Continue(cont));
                }
                if !cont {
                    break;
                }
            }
        }
        // Cleanup runs on every path that acquired raw mode: restore
        // canonical mode, then ensure non-blocking input is disabled.  A
        // failure of the first step does not prevent the second; the first
        // error is surfaced.
        proof {
            assert(phase_after(events) == DriverPhase::Restore);
        }
        let r1 = crate::sys::enter_canon_mode();
        let r2 = crate::sys::disable_non_blocking_stdio();
        proof {
            lemma_faithful_push(events, DriverEvent::Restored);
            events = events.push(DriverEvent::Restored);
            assert(phase_after(events) == DriverPhase::Done);
        }
        match r1 {
            Err(e) => Err(e),
            Ok(_) => match r2 {
                Err(e) => Err(e),
                Ok(_) => Ok(()),
            },
        }
    }
}

/// Writing a cell twice with the same glyph and colors leaves exactly what
/// one write leaves: the second write finds the visible state already
/// matching and changes nothing.  In particular a cell written from a clean
/// state is marked dirty at most once — by the first write, and only if that
/// write changed its visible state.
pub proof fn lemma_write_same_twice(
    p: Pixel,
    c: BlockChars,
    bg: BackgroundColors,
    fg: ForegroundColors,
)
    ensures
        written_pixel(written_pixel(p, c, bg, fg), c, bg, fg) == written_pixel(p, c, bg, fg),
        !p.dirty ==> (written_pixel(p, c, bg, fg).dirty <==> !(p.character == c && p.bg_color
            == bg && p.fg_color == fg)),
{
}

proof fn lemma_cells_output_upto_clean(m: GridModel, n: int)
    requires
        m.all_clean(),
        n <= m.cells.len(),
    ensures
        cells_output_upto(m, n) == Seq::<char>::empty(),
    decreases n,
{
    if n > 0 {
        lemma_cells_output_upto_clean(m, n - 1);
        assert(cells_output_upto(m, n - 1) + cell_output(m, n - 1) =~= Seq::<char>::empty());
    }
}

/// A flush of a board with no dirty cells emits no per-cell escape
/// sequences: only the cursor-home and the single attribute reset.
pub proof fn lemma_clean_board_emits_nothing(m: GridModel)
    requires
        m.all_clean(),
    ensures
        render_output(m) == cursor_home_seq() + reset_seq(),
{
    lemma_cells_output_upto_clean(m, m.cells.len() as int);
    assert(cursor_home_seq() + cells_output_upto(m, m.cells.len() as int) + reset_seq()
        =~= cursor_home_seq() + reset_seq());
}

/// Filling the whole extent of a previously-blank board with the solid
/// glyph changes every cell, so the following flush emits one (cursor move,
/// color select, glyph) triple for every one of the width*height cells —
/// and, as always, one attribute reset after them.
///
/// `m0` is the board a flush left fresh cells in; `m1` is what
/// `fill(0, 0, width, height, Solid, Black, White)` ensures it becomes.
pub proof fn lemma_full_solid_fill_emits_every_cell(m0: GridModel, m1: GridModel)
    requires
        m0.wf(),
        forall|cx: int, cy: int| #![auto]
            m0.in_bounds(cx, cy) ==> m0.cell(cx, cy) == clean_pixel(fresh_pixel()),
        m1.wf(),
        m1.width == m0.width,
        m1.height == m0.height,
        forall|cx: int, cy: int| #![auto]
            m0.in_bounds(cx, cy) ==> m1.cell(cx, cy) == written_pixel(
                m0.cell(cx, cy),
                BlockChars::Solid,
                BackgroundColors::Black,
                ForegroundColors::White,
            ),
    ensures
        forall|i: int|
            0 <= i < m1.cells.len() ==> #[trigger] cell_output(m1, i) == cursor_move_seq(
                (i / (m1.width as int) + 1) as nat,
                (i % (m1.width as int) + 1) as nat,
            ) + color_select_seq(BackgroundColors::Black, ForegroundColors::White) + seq![
                glyph_char(BlockChars::Solid),
            ],
{
    let w = m0.width as int;
    let h = m0.height as int;
    assert forall|i: int| 0 <= i < m1.cells.len() implies #[trigger] cell_output(m1, i)
        == cursor_move_seq((i / w + 1) as nat, (i % w + 1) as nat) + color_select_seq(
        BackgroundColors::Black,
        ForegroundColors::White,
    ) + seq![glyph_char(BlockChars::Solid)] by {
        assert(w > 0) by (nonlinear_arith)
            requires
                0 <= i < w * h,
                0 <= w,
                0 <= h,
        ;
        vstd::arithmetic::div_mod::lemma_fundamental_div_mod(i, w);
        vstd::arithmetic::div_mod::lemma_mod_bound(i, w);
        let cx = i % w;
        let cy = i / w;
        assert(cy < h) by (nonlinear_arith)
            requires
                0 <= i < w * h,
                i == w * cy + cx,
                0 <= cx < w,
        ;
        assert(cy >= 0) by (nonlinear_arith)
            requires
                0 <= i,
                i == w * cy + cx,
                0 <= cx < w,
        ;
        assert(m0.in_bounds(cx, cy));
        assert(i == cy * w + cx) by (nonlinear_arith)
            requires
                i == w * cy + cx,
        ;
        assert(m1.cell(cx, cy) == m1.cells[i]);
        assert(m1.cells[i].dirty);
    }
}

/// After a flush no cell is dirty, and flushing again without writes in
/// between changes nothing and emits no per-cell output: flush is
/// idempotent.
pub proof fn lemma_flush_idempotent(m: GridModel)
    ensures
        m.cleaned().all_clean(),
        m.cleaned().cleaned() == m.cleaned(),
        render_output(m.cleaned()) == cursor_home_seq() + reset_seq(),
{
    assert(m.cleaned().cleaned().cells =~= m.cleaned().cells);
    assert(m.cleaned().cleaned() =~= m.cleaned());
    lemma_clean_board_emits_nothing(m.cleaned());
}

} // verus!
