//! A line of text that is typed in, with an optional text to start from.

use crate::tui::common::{line_view, styled, Key, ReadAction, Span, SpanView, Style};
use vstd::prelude::*;

verus! {

/// What a key means to a line of input.
#[derive(Clone, Copy, Debug, PartialEq, Eq, Structural)]
pub enum InputAction {
    Confirm,
    Char(char),
    OtherKey(Key),
}

/// What is to be shown after an action.
#[derive(Clone, Copy, Debug, PartialEq, Eq, Structural)]
pub enum InputEffect {
    /// The line is closed and the text is final.
    Finish,
    /// This character was added and is to be shown.
    Echo(char),
    /// The last character was taken away and is to be wiped out.
    Erase,
    /// Nothing changed.
    Nothing,
}

/// What `key` means to a line of input. No key is passed over.
pub open spec fn input_action(key: Key) -> InputAction {
    match key {
        Key::Enter => InputAction::Confirm,
        Key::Char(c) => InputAction::Char(c),
        _ => InputAction::OtherKey(key),
    }
}

/// Whether `c` can be shown: it is no control character.
pub open spec fn is_printable(c: char) -> bool {
    let code = c as u32;
    !(code < 0x20 || 0x7F <= code <= 0x9F)
}

/// The text after `action`, and what is to be shown. A character that can be shown is
/// added at the end; Backspace takes the last character away, if there is one; Enter
/// closes the line. Everything else leaves the text as it is.
pub open spec fn edited(text: Seq<char>, action: InputAction) -> (Seq<char>, InputEffect) {
    match action {
        InputAction::Confirm => (text, InputEffect::Finish),
        InputAction::Char(c) => if is_printable(c) {
            (text.push(c), InputEffect::Echo(c))
        } else {
            (text, InputEffect::Nothing)
        },
        InputAction::OtherKey(Key::Backspace) => if text.len() > 0 {
            (text.drop_last(), InputEffect::Erase)
        } else {
            (text, InputEffect::Nothing)
        },
        InputAction::OtherKey(_) => (text, InputEffect::Nothing),
    }
}

/// The line that asks `message`.
pub open spec fn input_header(message: Seq<char>) -> Seq<SpanView> {
    seq![
        styled("?"@, Style::Cyan),
        styled(" "@, Style::Plain),
        styled(message, Style::Bold),
        styled(": "@, Style::Plain),
    ]
}

/// The text that a line of input starts from.
pub open spec fn prefilled(prefill: Option<&str>) -> Seq<char> {
    match prefill {
        Some(text) => text@,
        None => Seq::empty(),
    }
}

/// A question that is answered with a line of text.
pub struct Input {
    message: String,
}

impl ReadAction<InputAction> for Input {
    fn match_action(&self, key: Key) -> (action: Option<InputAction>)
        ensures
            action == Some(input_action(key)),
    {
        match key {
            Key::Enter => Some(InputAction::Confirm),
            Key::Char(c) => Some(InputAction::Char(c)),
            key => Some(InputAction::OtherKey(key)),
        }
    }
}

impl Input {
    /// The question that is asked.
    pub closed spec fn message(&self) -> Seq<char> {
        self.message@
    }

    /// A line of input that asks `message`.
    pub fn new(message: String) -> (input: Input)
        ensures
            input.message() == message@,
    {
        Input { message }
    }

    /// The line that asks: a question mark, the question and a colon.
    pub fn format_message(&self) -> (line: Vec<Span>)
        ensures
            line_view(line@) == input_header(self.message()),
    {
        let mut line: Vec<Span> = Vec::new();
        line.push(Span { text: "?".to_owned(), style: Style::Cyan });
        line.push(Span { text: " ".to_owned(), style: Style::Plain });
        line.push(Span { text: self.message.clone(), style: Style::Bold });
        line.push(Span { text: ": ".to_owned(), style: Style::Plain });
        line
    }

    /// The text that the line starts from, which is also what is shown at first: `prefill`,
    /// or nothing.
    pub fn start(&self, prefill: &Option<&str>) -> (text: String)
        ensures
            text@ == prefilled(*prefill),
    {
        match prefill {
            Some(text) => (*text).to_owned(),
            None => String::new(),
        }
    }

    /// Whether `c` can be shown.
    pub fn can_show(c: char) -> (shown: bool)
        ensures
            shown == is_printable(c),
    {
        let code: u32 = c as u32;
        !(code < 0x20 || (0x7F <= code && code <= 0x9F))
    }

    /// Applies `action` to the text `text` that was typed so far, and says what is to be
    /// shown.
    pub fn edit(&self, text: &mut String, action: InputAction) -> (effect: InputEffect)
        ensures
            (final(text)@, effect) == edited(old(text)@, action),
    {
        match action {
            InputAction::Confirm => InputEffect::Finish,
            InputAction::Char(c) => {
                if Input::can_show(c) {
                    text.push(c);
                    InputEffect::Echo(c)
                } else {
                    InputEffect::Nothing
                }
            },
            InputAction::OtherKey(Key::Backspace) => {
                match text.pop() {
                    Some(_) => InputEffect::Erase,
                    None => InputEffect::Nothing,
                }
            },
            InputAction::OtherKey(_) => InputEffect::Nothing,
        }
    }
}

} // verus!
