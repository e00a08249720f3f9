//! Raw input events and the editing commands they stand for.
use vstd::prelude::*;

verus! {

/// A key as the terminal reports it.
#[derive(Clone, Copy, Debug, PartialEq, Eq, Structural)]
pub enum Key {
    Char(char),
    Left,
    Right,
    Up,
    Down,
    Home,
    End,
    Backspace,
    Enter,
    /// Any key the editor has no use for.
    Other,
}

/// The modifier keys held with a key.
#[derive(Clone, Copy, Debug, PartialEq, Eq, Structural)]
pub enum Modifiers {
    /// No modifier at all.
    Plain,
    /// Control and nothing else.
    Control,
    /// Any other combination.
    Other,
}

/// One raw input event.
#[derive(Clone, Copy, Debug, PartialEq, Eq, Structural)]
pub enum InputEvent {
    Key(Key, Modifiers),
    /// The terminal now has this many columns and rows.
    Resize(u16, u16),
    /// Any other event (mouse, focus, paste).
    Other,
}

#[derive(Clone, Copy, Debug, PartialEq, Eq, Structural)]
pub enum Dir {
    Left,
    Right,
    Up,
    Down,
}

/// What the buffer model is asked to do.
#[derive(Clone, Copy, Debug, PartialEq, Eq, Structural)]
pub enum Command {
    Move(Dir),
    Home,
    End,
    InsertChar(char),
    Backspace,
    Enter,
    Save,
    Quit,
    /// The viewport is now `(width, height)`.
    Resize(usize, usize),
    Ignore,
}

/// The command that an event stands for: Ctrl+Q quits, Ctrl+S saves, any other
/// character key inserts itself whatever the modifiers, and the navigation,
/// Backspace and Enter keys act only without a modifier.
pub open spec fn command_of(ev: InputEvent) -> Command {
    match ev {
        InputEvent::Key(Key::Char(c), m) => {
            if c == 'q' && m == Modifiers::Control {
                Command::Quit
            } else if c == 's' && m == Modifiers::Control {
                Command::Save
            } else {
                Command::InsertChar(c)
            }
        },
        InputEvent::Key(k, Modifiers::Plain) => match k {
            Key::Left => Command::Move(Dir::Left),
            Key::Right => Command::Move(Dir::Right),
            Key::Up => Command::Move(Dir::Up),
            Key::Down => Command::Move(Dir::Down),
            Key::Home => Command::Home,
            Key::End => Command::End,
            Key::Backspace => Command::Backspace,
            Key::Enter => Command::Enter,
            _ => Command::Ignore,
        },
        InputEvent::Resize(w, h) => Command::Resize(w as usize, h as usize),
        _ => Command::Ignore,
    }
}

/// Maps one raw input event to a command.
pub fn command_for(ev: InputEvent) -> (cmd: Command)
    ensures
        cmd == command_of(ev),
{
    match ev {
        InputEvent::Key(Key::Char(c), m) => {
            if c == 'q' && m == Modifiers::Control {
                Command::Quit
            } else if c == 's' && m == Modifiers::Control {
                Command::Save
            } else {
                Command::InsertChar(c)
            }
        },
        InputEvent::Key(k, Modifiers::Plain) => match k {
            Key::Left => Command::Move(Dir::Left),
            Key::Right => Command::Move(Dir::Right),
            Key::Up => Command::Move(Dir::Up),
            Key::Down => Command::Move(Dir::Down),
            Key::Home => Command::Home,
            Key::End => Command::End,
            Key::Backspace => Command::Backspace,
            Key::Enter => Command::Enter,
            _ => Command::Ignore,
        },
        InputEvent::Resize(w, h) => Command::Resize(w as usize, h as usize),
        _ => Command::Ignore,
    }
}

} // verus!
