//! The line that is being typed, and the keys that edit it.

use ratatui::crossterm::event::{Event, KeyCode, KeyEvent, KeyModifiers};
use tui_input::backend::crossterm::EventHandler;
use tui_input::{Input, InputRequest};
use vstd::prelude::*;

verus! {

broadcast use vstd::string::group_string_axioms;

#[verifier::external_type_specification]
#[verifier::external_body]
pub struct OutsideInput(tui_input::Input);

/// The text that is being typed.
pub uninterp spec fn input_text(input: tui_input::Input) -> Seq<char>;

/// How many characters stand before the cursor.
pub uninterp spec fn input_cursor(input: tui_input::Input) -> nat;

/// The text that was cut out last, and that can be put in again.
pub uninterp spec fn input_cut(input: tui_input::Input) -> Seq<char>;

/// Whether the last key cut text out, so that what is cut next is added to it.
pub uninterp spec fn input_cutting(input: tui_input::Input) -> bool;

/// How many columns the characters before the cursor take.
pub uninterp spec fn columns_before(text: Seq<char>, cursor: nat) -> nat;

/// What becomes of the line when a key is pressed, and whether anything
/// changed.
pub uninterp spec fn key_typed(
    input: tui_input::Input,
    key: EditKey,
    modifiers: u8,
) -> (tui_input::Input, bool);

/// The bit of the shift key among the modifiers.
pub const SHIFT: u8 = 1;

/// The bit of the control key among the modifiers.
pub const CONTROL: u8 = 2;

/// A key that may edit the line. All keys that never do are alike.
#[derive(Debug, Clone, Copy, PartialEq, Eq, Structural)]
pub enum EditKey {
    Char(char),
    Backspace,
    Delete,
    Left,
    Right,
    Home,
    End,
    Other,
}

/// `Input::default`: nothing is typed and nothing is cut out yet.
pub assume_specification[ <tui_input::Input as Default>::default ]() -> (r: tui_input::Input)
    ensures
        input_text(r) == Seq::<char>::empty(),
        input_cursor(r) == 0,
        input_cut(r) == Seq::<char>::empty(),
        !input_cutting(r),
;

/// `Input::with_value`: the text is replaced, and the cursor stands behind
/// it. What was cut out stays.
pub assume_specification[ tui_input::Input::with_value ](
    input: tui_input::Input,
    value: String,
) -> (r: tui_input::Input)
    ensures
        input_text(r) == value@,
        input_cursor(r) == value@.len(),
        input_cut(r) == input_cut(input),
        input_cutting(r) == input_cutting(input),
;

/// `Input::with_cursor`: the text and what was cut out stay, and the cursor is
/// put somewhere, but not behind the end.
pub assume_specification[ tui_input::Input::with_cursor ](
    input: tui_input::Input,
    cursor: usize,
) -> (r: tui_input::Input)
    ensures
        input_text(r) == input_text(input),
        input_cursor(r) == if cursor < input_text(input).len() {
            cursor as nat
        } else {
            input_text(input).len()
        },
        input_cut(r) == input_cut(input),
        input_cutting(r) == input_cutting(input),
;

/// `Input::reset`: the text is gone, and what was cut out stays.
pub assume_specification[ tui_input::Input::reset ](input: &mut tui_input::Input)
    ensures
        input_text(*final(input)) == Seq::<char>::empty(),
        input_cursor(*final(input)) == 0,
        input_cut(*final(input)) == input_cut(*old(input)),
        input_cutting(*final(input)) == input_cutting(*old(input)),
;

/// `Input::value`: the text.
pub assume_specification[ tui_input::Input::value ](input: &tui_input::Input) -> (r: &str)
    ensures
        r@ == input_text(*input),
;

/// `Input::cursor`: the cursor, which never stands behind the end.
pub assume_specification[ tui_input::Input::cursor ](input: &tui_input::Input) -> (r: usize)
    ensures
        r == input_cursor(*input),
        r <= input_text(*input).len(),
;

/// `Input::visual_cursor`: how many columns the characters before the cursor
/// take, which is a matter of the text and the cursor alone.
pub assume_specification[ tui_input::Input::visual_cursor ](input: &tui_input::Input) -> (r: usize)
    ensures
        r == columns_before(input_text(*input), input_cursor(*input)),
;

/// The text with a character put in at the cursor.
pub open spec fn typed_into(text: Seq<char>, cursor: nat, c: char) -> Seq<char> {
    if cursor < text.len() {
        text.take(cursor as int) + seq![c] + text.skip(cursor as int)
    } else {
        text.push(c)
    }
}

/// `Input::handle` with `InputRequest::InsertChar`: the character is put in
/// at the cursor, which moves behind it. What was cut out stays, and nothing
/// is added to it any more.
#[verifier::external_body]
pub(crate) fn insert_char(input: &mut Input, c: char)
    ensures
        input_text(*final(input)) == typed_into(input_text(*old(input)), input_cursor(*old(input)), c),
        input_cursor(*final(input)) == input_cursor(*old(input)) + 1,
        input_cut(*final(input)) == input_cut(*old(input)),
        !input_cutting(*final(input)),
{
    input.handle(InputRequest::InsertChar(c));
}

/// `EventHandler::handle_event` with a pressed key: a plain character is put
/// in at the cursor, and where nothing is said to have changed, the text and
/// the cursor are as they were. What other keys do goes by words and by
/// characters as a reader sees them, and by what was cut out before; it is
/// given a name.
#[verifier::external_body]
pub(crate) fn press(input: &mut Input, key: EditKey, modifiers: u8) -> (r: bool)
    ensures
        (*final(input), r) == key_typed(*old(input), key, modifiers),
        key matches EditKey::Char(c) ==> (modifiers == 0 || modifiers == SHIFT) ==> r && input_text(
            *final(input),
        ) == typed_into(input_text(*old(input)), input_cursor(*old(input)), c) && input_cursor(
            *final(input),
        ) == input_cursor(*old(input)) + 1,
        !r ==> input_text(*final(input)) == input_text(*old(input)) && input_cursor(*final(input))
            == input_cursor(*old(input)),
{
    let code = match key {
        EditKey::Char(c) => KeyCode::Char(c),
        EditKey::Backspace => KeyCode::Backspace,
        EditKey::Delete => KeyCode::Delete,
        EditKey::Left => KeyCode::Left,
        EditKey::Right => KeyCode::Right,
        EditKey::Home => KeyCode::Home,
        EditKey::End => KeyCode::End,
        EditKey::Other => KeyCode::Null,
    };
    let modifiers = KeyModifiers::from_bits_truncate(modifiers);
    input.handle_event(&Event::Key(KeyEvent::new(code, modifiers))).is_some()
}

} // verus!
