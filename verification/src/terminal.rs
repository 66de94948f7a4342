//! Escape-sequence construction and keyboard input decoding.
//!
//! The terminal is driven entirely through ANSI escape sequences: cursor
//! moves, colour selection and attribute reset on the way out, and arrow-key
//! sequences on the way in.  This module defines the exact character
//! sequences as specification functions, verified builders that append them
//! to an output buffer, and the classifier that turns pending input bytes
//! into semantic key events.

use vstd::prelude::*;

verus! {

/// The escape character that starts every ANSI control sequence.
pub const ESC: char = '\x1b';

/// Unix terminal foreground colors, in the standard ANSI order.
#[derive(Copy, Clone, PartialEq, Eq, Structural, Debug)]
pub enum ForegroundColors {
    Black,
    Red,
    Green,
    Yellow,
    Blue,
    Magenta,
    Cyan,
    White,
}

/// Unix terminal background colors, in the standard ANSI order.
#[derive(Copy, Clone, PartialEq, Eq, Structural, Debug)]
pub enum BackgroundColors {
    Black,
    Red,
    Green,
    Yellow,
    Blue,
    Magenta,
    Cyan,
    White,
}

/// The SGR code selecting a foreground color: 30 through 37.
pub open spec fn fg_code(c: ForegroundColors) -> nat {
    match c {
        ForegroundColors::Black => 30,
        ForegroundColors::Red => 31,
        ForegroundColors::Green => 32,
        ForegroundColors::Yellow => 33,
        ForegroundColors::Blue => 34,
        ForegroundColors::Magenta => 35,
        ForegroundColors::Cyan => 36,
        ForegroundColors::White => 37,
    }
}

/// The SGR code selecting a background color: 40 through 47.
pub open spec fn bg_code(c: BackgroundColors) -> nat {
    match c {
        BackgroundColors::Black => 40,
        BackgroundColors::Red => 41,
        BackgroundColors::Green => 42,
        BackgroundColors::Yellow => 43,
        BackgroundColors::Blue => 44,
        BackgroundColors::Magenta => 45,
        BackgroundColors::Cyan => 46,
        BackgroundColors::White => 47,
    }
}

/// The SGR code of a foreground color, as a machine integer.
pub fn fg_code_of(c: ForegroundColors) -> (n: usize)
    ensures
        n as nat == fg_code(c),
{
    match c {
        ForegroundColors::Black => 30,
        ForegroundColors::Red => 31,
        ForegroundColors::Green => 32,
        ForegroundColors::Yellow => 33,
        ForegroundColors::Blue => 34,
        ForegroundColors::Magenta => 35,
        ForegroundColors::Cyan => 36,
        ForegroundColors::White => 37,
    }
}

/// The SGR code of a background color, as a machine integer.
pub fn bg_code_of(c: BackgroundColors) -> (n: usize)
    ensures
        n as nat == bg_code(c),
{
    match c {
        BackgroundColors::Black => 40,
        BackgroundColors::Red => 41,
        BackgroundColors::Green => 42,
        BackgroundColors::Yellow => 43,
        BackgroundColors::Blue => 44,
        BackgroundColors::Magenta => 45,
        BackgroundColors::Cyan => 46,
        BackgroundColors::White => 47,
    }
}

/// The character for a single decimal digit.
pub open spec fn digit_char(d: nat) -> char {
    if d == 0 {
        '0'
    } else if d == 1 {
        '1'
    } else if d == 2 {
        '2'
    } else if d == 3 {
        '3'
    } else if d == 4 {
        '4'
    } else if d == 5 {
        '5'
    } else if d == 6 {
        '6'
    } else if d == 7 {
        '7'
    } else if d == 8 {
        '8'
    } else {
        '9'
    }
}

/// The decimal representation of a number, most significant digit first,
/// with no leading zeros (a lone zero is written "0").
pub open spec fn dec_rep(n: nat) -> Seq<char>
    decreases n,
{
    if n < 10 {
        seq![digit_char(n)]
    } else {
        dec_rep(n / 10).push(digit_char(n % 10))
    }
}

fn digit_char_of(d: usize) -> (c: char)
    requires
        d < 10,
    ensures
        c == digit_char(d as nat),
{
    if d == 0 {
        '0'
    } else if d == 1 {
        '1'
    } else if d == 2 {
        '2'
    } else if d == 3 {
        '3'
    } else if d == 4 {
        '4'
    } else if d == 5 {
        '5'
    } else if d == 6 {
        '6'
    } else if d == 7 {
        '7'
    } else if d == 8 {
        '8'
    } else {
        '9'
    }
}

/// Appends the decimal representation of `n` to `out`.
pub fn push_dec(out: &mut Vec<char>, n: usize)
    ensures
        final(out)@ == old(out)@ + dec_rep(n as nat),
    decreases n,
{
    if n < 10 {
        out.push(digit_char_of(n));
        proof {
            assert(out@ =~= old(out)@ + dec_rep(n as nat));
        }
    } else {
        push_dec(out, n / 10);
        out.push(digit_char_of(n % 10));
        proof {
            assert(out@ =~= old(out)@ + dec_rep(n as nat));
        }
    }
}

/// The escape sequence that moves the cursor to the given 1-based row and
/// column: `ESC [ row ; col f`.
pub open spec fn cursor_move_seq(row: nat, col: nat) -> Seq<char> {
    seq![ESC, '['] + dec_rep(row) + seq![';'] + dec_rep(col) + seq!['f']
}

/// The escape sequence that moves the cursor to the top left corner.
pub open spec fn cursor_home_seq() -> Seq<char> {
    cursor_move_seq(1, 1)
}

/// The escape sequence selecting a background and foreground color:
/// `ESC [ bg ; fg m`.
pub open spec fn color_select_seq(bg: BackgroundColors, fg: ForegroundColors) -> Seq<char> {
    seq![ESC, '['] + dec_rep(bg_code(bg)) + seq![';'] + dec_rep(fg_code(fg)) + seq!['m']
}

/// The escape sequence resetting all terminal attributes: `ESC [ 0 m`.
pub open spec fn reset_seq() -> Seq<char> {
    seq![ESC, '[', '0', 'm']
}

/// Appends the cursor-move escape sequence for the 1-based position
/// (`row`, `col`) to `out`.
pub fn push_cursor_move(out: &mut Vec<char>, row: usize, col: usize)
    ensures
        final(out)@ == old(out)@ + cursor_move_seq(row as nat, col as nat),
{
    out.push(ESC);
    out.push('[');
    push_dec(out, row);
    out.push(';');
    push_dec(out, col);
    out.push('f');
    proof {
        assert(out@ =~= old(out)@ + cursor_move_seq(row as nat, col as nat));
    }
}

/// Appends the color-select escape sequence for (`bg`, `fg`) to `out`.
pub fn push_color_select(out: &mut Vec<char>, bg: BackgroundColors, fg: ForegroundColors)
    ensures
        final(out)@ == old(out)@ + color_select_seq(bg, fg),
{
    out.push(ESC);
    out.push('[');
    push_dec(out, bg_code_of(bg));
    out.push(';');
    push_dec(out, fg_code_of(fg));
    out.push('m');
    proof {
        assert(out@ =~= old(out)@ + color_select_seq(bg, fg));
    }
}

/// Appends the attribute-reset escape sequence to `out`.
pub fn push_reset(out: &mut Vec<char>)
    ensures
        final(out)@ == old(out)@ + reset_seq(),
{
    out.push(ESC);
    out.push('[');
    out.push('0');
    out.push('m');
    proof {
        assert(out@ =~= old(out)@ + reset_seq());
    }
}

/// A semantic keyboard event, decoded from the bytes that one non-blocking
/// poll of the input stream returned.
#[derive(Debug)]
pub enum Keys {
    Left,
    Right,
    Up,
    Down,
    Enter,
    Nothing,
    /// Any non-empty byte sequence that is not one of the recognized keys,
    /// handed through uninterpreted.
    Other(String),
}

impl PartialEq for Keys {
    fn eq(&self, other: &Keys) -> (r: bool) {
        match (self, other) {
            (Keys::Left, Keys::Left) => true,
            (Keys::Right, Keys::Right) => true,
            (Keys::Up, Keys::Up) => true,
            (Keys::Down, Keys::Down) => true,
            (Keys::Enter, Keys::Enter) => true,
            (Keys::Nothing, Keys::Nothing) => true,
            (Keys::Other(a), Keys::Other(b)) => *a == *b,
            _ => false,
        }
    }
}

impl vstd::std_specs::cmp::PartialEqSpecImpl for Keys {
    open spec fn obeys_eq_spec() -> bool {
        true
    }

    open spec fn eq_spec(&self, other: &Keys) -> bool {
        match (self, other) {
            (Keys::Left, Keys::Left) => true,
            (Keys::Right, Keys::Right) => true,
            (Keys::Up, Keys::Up) => true,
            (Keys::Down, Keys::Down) => true,
            (Keys::Enter, Keys::Enter) => true,
            (Keys::Nothing, Keys::Nothing) => true,
            (Keys::Other(a), Keys::Other(b)) => a@ == b@,
            _ => false,
        }
    }
}

/// The byte sequence a terminal sends for the Enter key.
pub open spec fn enter_seq() -> Seq<char> {
    seq!['\n']
}

/// The escape sequence a terminal sends for the up arrow: `ESC [ A`.
pub open spec fn key_up_seq() -> Seq<char> {
    seq![ESC, '[', 'A']
}

/// The escape sequence a terminal sends for the down arrow: `ESC [ B`.
pub open spec fn key_down_seq() -> Seq<char> {
    seq![ESC, '[', 'B']
}

/// The escape sequence a terminal sends for the right arrow: `ESC [ C`.
pub open spec fn key_right_seq() -> Seq<char> {
    seq![ESC, '[', 'C']
}

/// The escape sequence a terminal sends for the left arrow: `ESC [ D`.
pub open spec fn key_left_seq() -> Seq<char> {
    seq![ESC, '[', 'D']
}

/// How one poll's accumulated bytes map to a key event: exactly `"\n"` is
/// Enter, exactly one of the four arrow escape sequences is that arrow, and
/// any other non-empty sequence passes through as `Other`.
///
/// A multi-byte escape sequence split across two polls is classified
/// per poll, so each fragment independently falls into `Other`; this
/// matches what the decoder has always done and is deliberately kept.
pub open spec fn classified(bytes: Seq<char>, k: Keys) -> bool {
    if bytes == enter_seq() {
        k == Keys::Enter
    } else if bytes == key_up_seq() {
        k == Keys::Up
    } else if bytes == key_down_seq() {
        k == Keys::Down
    } else if bytes == key_right_seq() {
        k == Keys::Right
    } else if bytes == key_left_seq() {
        k == Keys::Left
    } else {
        k matches Keys::Other(s) && s@ == bytes
    }
}

/// True of every key event the decoder can produce: an `Other` payload is
/// never empty and never one of the recognized sequences.
pub open spec fn canonical_key(k: Keys) -> bool {
    match k {
        Keys::Other(s) => s@.len() > 0 && s@ != enter_seq() && s@ != key_up_seq() && s@
            != key_down_seq() && s@ != key_right_seq() && s@ != key_left_seq(),
        _ => true,
    }
}

fn str_is(s: &String, lit: &str) -> (r: bool)
    ensures
        r == (s@ == lit@),
{
    let l = String::from_str(lit);
    *s == l
}

/// Classifies the bytes one non-blocking poll returned: `None` (no bytes
/// pending) is `Nothing`; otherwise the table of `classified` decides.
pub fn classify_keybytes(bytes: Option<String>) -> (k: Keys)
    ensures
        match bytes {
            None => k == Keys::Nothing,
            Some(b) => classified(b@, k),
        },
        (bytes matches Some(b) && b@.len() > 0) ==> canonical_key(k) && !(k is Nothing),
{
    match bytes {
        None => Keys::Nothing,
        Some(b) => {
            proof {
                reveal_strlit("\n");
                reveal_strlit("\x1b[A");
                reveal_strlit("\x1b[B");
                reveal_strlit("\x1b[C");
                reveal_strlit("\x1b[D");
                assert("\n"@ =~= enter_seq());
                assert("\x1b[A"@ =~= key_up_seq());
                assert("\x1b[B"@ =~= key_down_seq());
                assert("\x1b[C"@ =~= key_right_seq());
                assert("\x1b[D"@ =~= key_left_seq());
            }
            if str_is(&b, "\n") {
                Keys::Enter
            } else if str_is(&b, "\x1b[A") {
                Keys::Up
            } else if str_is(&b, "\x1b[B") {
                Keys::Down
            } else if str_is(&b, "\x1b[C") {
                Keys::Right
            } else if str_is(&b, "\x1b[D") {
                Keys::Left
            } else {
                Keys::Other(b)
            }
        },
    }
}

/// Drains the bytes currently pending on the input stream, without blocking:
/// `None` when nothing was pending, otherwise the non-empty accumulated
/// bytes.
fn get_keybytes() -> (r: Option<String>)
    ensures
        r matches Some(s) ==> s@.len() > 0,
{
    let mut chars: Vec<char> = Vec::new();
    let mut pending: Option<char> = crate::sys::getchar_nonblocking();
    while pending.is_some() && chars.len() < usize::MAX
        decreases usize::MAX - chars@.len(),
    {
        chars.push(pending.unwrap());
        pending = crate::sys::getchar_nonblocking();
    }
    if chars.len() == 0 {
        None
    } else {
        Some(crate::sys::chars_to_string(&chars))
    }
}

/// Returns the keyboard key pressed since the previous poll, without
/// blocking.
///
/// Setting the non-blocking flag on the input stream has an undesired side
/// effect on some platforms: the input and output streams share their
/// blocking behavior, which can overflow buffered output writes.  To prevent
/// this, the flag is set just before draining pending bytes and cleared
/// again immediately after; only those two mode toggles can fail.
pub fn get_keypress() -> (r: Result<Keys, std::io::Error>)
    ensures
        r matches Ok(k) ==> canonical_key(k),
{
    match crate::sys::enable_non_blocking_stdio() {
        Err(e) => {
            return Err(e);
        },
        Ok(_) => {},
    }
    let bytes = get_keybytes();
    match crate::sys::disable_non_blocking_stdio() {
        Err(e) => {
            return Err(e);
        },
        Ok(_) => {},
    }
    Ok(classify_keybytes(bytes))
}

} // verus!
