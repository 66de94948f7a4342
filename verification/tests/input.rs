//! Tests of the input decoder's classification table.

use libconsolegameengine::terminal::{classify_keybytes, Keys};

#[test]
fn no_bytes_classify_as_nothing() {
    assert_eq!(classify_keybytes(None), Keys::Nothing);
}

#[test]
fn newline_classifies_as_enter() {
    assert_eq!(classify_keybytes(Some(String::from("\n"))), Keys::Enter);
}

#[test]
fn arrow_escape_sequences_classify_as_arrows() {
    assert_eq!(classify_keybytes(Some(String::from("\x1b[A"))), Keys::Up);
    assert_eq!(classify_keybytes(Some(String::from("\x1b[B"))), Keys::Down);
    assert_eq!(classify_keybytes(Some(String::from("\x1b[C"))), Keys::Right);
    assert_eq!(classify_keybytes(Some(String::from("\x1b[D"))), Keys::Left);
}

#[test]
fn unrecognized_bytes_pass_through_as_other() {
    assert_eq!(
        classify_keybytes(Some(String::from("q"))),
        Keys::Other(String::from("q"))
    );
    assert_eq!(
        classify_keybytes(Some(String::from("\x1b[Z"))),
        Keys::Other(String::from("\x1b[Z"))
    );
    // A recognized sequence with anything around it is not a match.
    assert_eq!(
        classify_keybytes(Some(String::from("\x1b[A\x1b[A"))),
        Keys::Other(String::from("\x1b[A\x1b[A"))
    );
    // A fragment of an escape sequence delivered on its own also falls into
    // Other: fragments are classified per poll, deliberately.
    assert_eq!(
        classify_keybytes(Some(String::from("\x1b["))),
        Keys::Other(String::from("\x1b["))
    );
}

#[test]
fn key_events_compare_by_content() {
    assert_eq!(Keys::Up, Keys::Up);
    assert_ne!(Keys::Up, Keys::Down);
    assert_ne!(Keys::Nothing, Keys::Enter);
    assert_eq!(Keys::Other(String::from("ab")), Keys::Other(String::from("ab")));
    assert_ne!(Keys::Other(String::from("ab")), Keys::Other(String::from("ba")));
    assert_ne!(Keys::Other(String::from("\n")), Keys::Enter);
}
