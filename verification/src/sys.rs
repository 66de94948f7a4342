//! The system boundary: every call out of the verified library.
//!
//! Each function here is a trusted wrapper around one operation of the `nix`
//! crate or of std: terminal attribute control, the non-blocking flag on the
//! input stream, single-byte reads, writing to the output stream, and the
//! monotonic clock.  Verus believes the stated contracts; everything above
//! this module is verified against them.

use nix::fcntl::{fcntl, FcntlArg, OFlag};
use nix::sys::termios::{tcgetattr, tcsetattr, LocalFlags, SetArg};
use std::io::Write;
use std::time::Instant;
use vstd::prelude::*;

verus! {

/// The I/O error type that terminal-mode and flag operations surface.
#[verifier::external_type_specification]
#[verifier::external_body]
pub struct ExIoError(std::io::Error);

/// An opaque reading of the monotonic clock.
#[verifier::external_type_specification]
#[verifier::external_body]
pub struct ExInstant(Instant);

/// Switches the terminal to raw mode: no line buffering, no local echo.
///
/// Relies on nix::sys::termios::tcgetattr and tcsetattr: reads the output
/// stream's attributes, clears the canonical and echo flags, and applies the
/// result immediately.  Fails with an I/O error if the stream is not a
/// terminal or its attributes cannot be read or set.
#[verifier::external_body]
pub(crate) fn enter_raw_mode() -> Result<(), std::io::Error> {
    let mut t = tcgetattr(std::io::stdout()).map_err(std::io::Error::from)?;
    t.local_flags &= !(LocalFlags::ICANON | LocalFlags::ECHO);
    tcsetattr(std::io::stdout(), SetArg::TCSAFLUSH, &t).map_err(std::io::Error::from)?;
    Ok(())
}

/// Restores canonical (line-buffered) input mode.  Echo is deliberately left
/// as it is, by design.
///
/// Relies on nix::sys::termios::tcgetattr and tcsetattr: reads the output
/// stream's attributes, sets the canonical flag back, and applies the result
/// immediately.
#[verifier::external_body]
pub(crate) fn enter_canon_mode() -> Result<(), std::io::Error> {
    let mut t = tcgetattr(std::io::stdout()).map_err(std::io::Error::from)?;
    t.local_flags |= LocalFlags::ICANON;
    tcsetattr(std::io::stdout(), SetArg::TCSAFLUSH, &t).map_err(std::io::Error::from)?;
    Ok(())
}

/// Makes reads from the input stream non-blocking.
///
/// Relies on nix::fcntl::fcntl with F_SETFL: sets the non-blocking flag on
/// the input stream's descriptor.
#[verifier::external_body]
pub(crate) fn enable_non_blocking_stdio() -> Result<(), std::io::Error> {
    fcntl(std::io::stdin(), FcntlArg::F_SETFL(OFlag::O_NONBLOCK))
        .map_err(std::io::Error::from)?;
    Ok(())
}

/// Makes reads from the input stream blocking again.
///
/// Relies on nix::fcntl::fcntl with F_GETFL and F_SETFL: reads the input
/// stream's flags and writes them back with the non-blocking flag cleared.
#[verifier::external_body]
pub(crate) fn disable_non_blocking_stdio() -> Result<(), std::io::Error> {
    let flags = fcntl(std::io::stdin(), FcntlArg::F_GETFL).map_err(std::io::Error::from)?;
    let cleared = OFlag::from_bits_truncate(flags) & !OFlag::O_NONBLOCK;
    fcntl(std::io::stdin(), FcntlArg::F_SETFL(cleared)).map_err(std::io::Error::from)?;
    Ok(())
}

/// Reads one pending byte from the input stream, or reports that none is
/// available.  What comes back depends on what the user typed, so nothing
/// more can be promised of it.
///
/// Relies on nix::unistd::read: returns one byte when it reads one, and an
/// end-of-input or would-block condition otherwise; either of the latter,
/// and any error, count as "nothing available", as a per-poll drain wants.
#[verifier::external_body]
pub(crate) fn getchar_nonblocking() -> Option<char> {
    let mut buf: [u8; 1] = [0];
    match nix::unistd::read(std::io::stdin(), &mut buf) {
        Ok(1) => Some(buf[0] as char),
        _ => None,
    }
}

/// Builds the string holding exactly the given characters, in order.
///
/// Relies on String's FromIterator over characters: collecting pushes each
/// character in order, so the result's characters are exactly `chars`.
#[verifier::external_body]
pub(crate) fn chars_to_string(chars: &Vec<char>) -> (s: String)
    ensures
        s@ == chars@,
{
    chars.iter().collect()
}

/// Writes the string to the output stream.  Write errors are swallowed:
/// rendering has no failure path of its own, matching the behavior of
/// printing the board.
///
/// Relies on std::io::Write::write_all for the standard output stream.
#[verifier::external_body]
pub(crate) fn write_stdout(s: &str) {
    let _ = std::io::stdout().write_all(s.as_bytes());
}

/// A reading of the monotonic clock.  Its value is opaque: only the distance
/// to a later reading means anything.
///
/// Relies on std::time::Instant::now.
#[verifier::external_body]
pub(crate) fn instant_now() -> Instant {
    Instant::now()
}

/// Whole microseconds of monotonic time since the given reading.  The value
/// depends on the clock, so nothing can be promised of it; the unsigned type
/// already says it is never negative.
///
/// Relies on std::time::Instant::elapsed, which never fails, truncated to
/// whole microseconds.
#[verifier::external_body]
pub(crate) fn elapsed_micros_since(since: &Instant) -> u64 {
    since.elapsed().as_micros() as u64
}

} // verus!
