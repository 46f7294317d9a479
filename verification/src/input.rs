//! Key events as the matching rules see them, and how a raw key press is
//! turned into one.

use vstd::prelude::*;

verus! {

/// One key event, as the matching rules consume it.
#[derive(Clone, Copy, Debug, PartialEq, Eq, Structural)]
pub enum UserInput {
    /// A plain character key.
    Char(char),
    /// The key that deletes the last typed character.
    Backspace,
    /// The tabulator key.
    Tab,
    /// The request to end the session at once.
    Kill,
}

/// The key of a key press, as far as it matters here.
#[derive(Clone, Copy, Debug, PartialEq, Eq, Structural)]
pub enum Key {
    /// A key that stands for a character.
    Char(char),
    /// The backspace key.
    Backspace,
    /// Any other key.
    Other,
}

/// The modifier keys held with a key, as far as they matter here.
#[derive(Clone, Copy, Debug, PartialEq, Eq, Structural)]
pub enum Modifiers {
    /// No modifier key is held.
    Plain,
    /// The control key is held and no other.
    ControlOnly,
    /// Any other set of modifier keys.
    Other,
}

/// A key press: the key and the modifier keys held with it.
#[derive(Clone, Copy, Debug, PartialEq, Eq, Structural)]
pub struct KeyPress {
    pub key: Key,
    pub modifiers: Modifiers,
}

/// What the terminal delivered when one event was read.
#[derive(Clone, Copy, Debug, PartialEq, Eq, Structural)]
pub enum TerminalEvent {
    /// A key press.
    Key(KeyPress),
    /// Anything else: a resize, a mouse event, a failed read.
    Other,
}

/// Why no key event came out of a read.
#[derive(Clone, Copy, Debug, PartialEq, Eq, Structural)]
pub enum InputError {
    /// The terminal delivered something that is not a key press.
    ReadFailure,
    /// The key press has no meaning here.
    UnsupportedKey,
}

/// The key event that a key press stands for.
///
/// A character alone is that character; control with `c` is the kill
/// signal; backspace is backspace whatever is held with it. Every other
/// press is unsupported.
pub open spec fn decoded(press: KeyPress) -> Result<UserInput, InputError> {
    match press.key {
        Key::Char(c) => match press.modifiers {
            Modifiers::Plain => Ok(UserInput::Char(c)),
            Modifiers::ControlOnly => if c == 'c' {
                Ok(UserInput::Kill)
            } else {
                Err(InputError::UnsupportedKey)
            },
            Modifiers::Other => Err(InputError::UnsupportedKey),
        },
        Key::Backspace => Ok(UserInput::Backspace),
        Key::Other => Err(InputError::UnsupportedKey),
    }
}

/// Turns a key press into a key event, or reports it as unsupported.
pub fn decode_key(press: KeyPress) -> (r: Result<UserInput, InputError>)
    ensures
        r == decoded(press),
{
    match press.key {
        Key::Backspace => Ok(UserInput::Backspace),
        Key::Char(c) => {
            if press.modifiers == Modifiers::Plain {
                Ok(UserInput::Char(c))
            } else if press.modifiers == Modifiers::ControlOnly && c == 'c' {
                Ok(UserInput::Kill)
            } else {
                Err(InputError::UnsupportedKey)
            }
        },
        Key::Other => Err(InputError::UnsupportedKey),
    }
}

/// A key press is refused exactly if it is neither backspace, nor a
/// character alone, nor control with `c`; the error is then
/// `UnsupportedKey`. No key press stands for `Tab`.
pub proof fn lemma_decoded_errors(press: KeyPress)
    ensures
        decoded(press) is Err <==> !(press.key is Backspace) && !(press.key is Char && (
        press.modifiers is Plain || (press.modifiers is ControlOnly && press.key->Char_0
            == 'c'))),
        decoded(press) is Err ==> decoded(press) == Err::<UserInput, InputError>(
            InputError::UnsupportedKey,
        ),
        decoded(press) != Ok::<UserInput, InputError>(UserInput::Tab),
{
}

/// Turns what the terminal delivered into a key event.
///
/// Anything but a key press is a failed read; a key press is decoded by
/// [`decode_key`].
pub fn decode_event(event: TerminalEvent) -> (r: Result<UserInput, InputError>)
    ensures
        r == match event {
            TerminalEvent::Key(press) => decoded(press),
            TerminalEvent::Other => Err(InputError::ReadFailure),
        },
{
    match event {
        TerminalEvent::Key(press) => decode_key(press),
        TerminalEvent::Other => Err(InputError::ReadFailure),
    }
}

} // verus!
