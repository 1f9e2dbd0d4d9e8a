//! Line input on the terminal, one event at a time.
use vstd::prelude::*;
use crate::text::push_char;

verus! {

/// What the terminal reports while a line is typed.
pub enum TerminalInput {
    /// The Enter key.
    Enter,
    /// The Esc key, which quits the chat.
    Escape,
    /// A key that types a character.
    Char(char),
    /// Any other key.
    OtherKey,
    /// An event that is not a key press (mouse, resize, focus, paste).
    NotAKey,
}

/// Where reading a line stands after one input.
#[derive(Debug, PartialEq, Eq)]
pub enum InputStep {
    /// Keep reading.
    Continue,
    /// The line is complete.
    LineDone,
    /// The user asked to quit: stop reading and leave the chat.
    Quit,
}

/// The terminal of the command-line client.
pub struct Terminal;

impl Terminal {
    /// Takes one input into the line being read. Esc quits; Enter and any
    /// event other than a key complete the line; a character key appends its
    /// character; other keys are ignored.
    pub fn take_input(line: &mut String, input: TerminalInput) -> (step: InputStep)
        ensures
            step is Quit <==> input is Escape,
            step is LineDone <==> (input is Enter || input is NotAKey),
            step is Continue <==> (input is Char || input is OtherKey),
            input matches TerminalInput::Char(c) ==> final(line)@ == old(line)@.push(c),
            !(input is Char) ==> final(line)@ == old(line)@,
    {
        match input {
            TerminalInput::Enter => InputStep::LineDone,
            TerminalInput::Escape => InputStep::Quit,
            TerminalInput::Char(c) => {
                push_char(line, c);
                InputStep::Continue
            },
            TerminalInput::OtherKey => InputStep::Continue,
            TerminalInput::NotAKey => InputStep::LineDone,
        }
    }
}

} // verus!
