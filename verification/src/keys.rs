//! Key and mouse events reduced to `Input` and `MouseInput`, the alphabet the
//! state machines speak.
use vstd::prelude::*;
use crate::text::{digit_value, is_digit};

verus! {

/// One normalized keypress.
#[derive(Debug, Clone, Copy, PartialEq, Eq, Structural)]
pub enum Input {
    Enter,
    Esc,
    Tab,
    BackTab,
    Up,
    Down,
    Left,
    Right,
    PageUp,
    PageDown,
    Home,
    End,
    Backspace,
    Delete,
    /// A plain character, with or without Shift.
    Char(char),
    /// Ctrl + a lowercase character.
    Ctrl(char),
}

/// The digit a key stands for.
pub open spec fn digit_of(input: Input) -> Option<u32> {
    match input {
        Input::Char(c) => if is_digit(c) {
            Some(digit_value(c) as u32)
        } else {
            None
        },
        _ => None,
    }
}

impl Input {
    /// The digit this key stands for, if any: on a phone keyboard digits stand
    /// in for the keys it cannot send.
    pub fn digit(self) -> (r: Option<u32>)
        ensures
            r == digit_of(self),
    {
        match self {
            Input::Char(c) => if '0' <= c && c <= '9' {
                Some(c as u32 - '0' as u32)
            } else {
                None
            },
            _ => None,
        }
    }
}

/// Which key a terminal reported.
#[derive(Debug, Clone, Copy, PartialEq, Eq, Structural)]
pub enum KeyCode {
    Enter,
    Esc,
    Tab,
    BackTab,
    Up,
    Down,
    Left,
    Right,
    PageUp,
    PageDown,
    Home,
    End,
    Backspace,
    Delete,
    Char(char),
    /// A function key.
    F(u8),
    Null,
    /// Any other key: a modifier, a lock, a media key.
    Other,
}

/// What of a terminal's key report matters here.
#[derive(Debug, Clone, Copy, PartialEq, Eq, Structural)]
pub struct KeyEvent {
    pub code: KeyCode,
    /// Ctrl was held.
    pub control: bool,
    /// The key went up rather than down.
    pub release: bool,
}

/// The lower case of an ASCII letter; any other character is itself.
pub open spec fn ascii_lower(c: char) -> char {
    if 'A' <= c <= 'Z' {
        (c as u32 + 32) as char
    } else {
        c
    }
}

fn to_ascii_lower(c: char) -> (r: char)
    ensures
        r == ascii_lower(c),
{
    if 'A' <= c && c <= 'Z' {
        (c as u8 + 32) as char
    } else {
        c
    }
}

/// The characters Ctrl turns into Enter: line feed and carriage return.
pub open spec fn is_enter_alias(c: char) -> bool {
    c == 'j' || c == 'J' || c == 'm' || c == 'M'
}

/// What a key event means to the application.
pub open spec fn normalized(ev: KeyEvent) -> Option<Input> {
    if ev.release {
        None
    } else {
        match ev.code {
            KeyCode::Char(c) => if !ev.control {
                Some(Input::Char(c))
            } else if is_enter_alias(c) {
                Some(Input::Enter)
            } else {
                Some(Input::Ctrl(ascii_lower(c)))
            },
            KeyCode::Enter => Some(Input::Enter),
            KeyCode::Esc => Some(Input::Esc),
            KeyCode::Tab => Some(Input::Tab),
            KeyCode::BackTab => Some(Input::BackTab),
            KeyCode::Up => Some(Input::Up),
            KeyCode::Down => Some(Input::Down),
            KeyCode::Left => Some(Input::Left),
            KeyCode::Right => Some(Input::Right),
            KeyCode::PageUp => Some(Input::PageUp),
            KeyCode::PageDown => Some(Input::PageDown),
            KeyCode::Home => Some(Input::Home),
            KeyCode::End => Some(Input::End),
            KeyCode::Backspace => Some(Input::Backspace),
            KeyCode::Delete => Some(Input::Delete),
            KeyCode::F(_) | KeyCode::Null | KeyCode::Other => None,
        }
    }
}

/// `None` for key events the application has no alphabet for: releases (a
/// terminal that reports them would fire every binding twice), function keys
/// and bare modifiers.
///
/// A phone's ssh client never sends Enter as Enter: Ctrl-J and Ctrl-M both
/// mean it.
pub fn normalize(ev: KeyEvent) -> (r: Option<Input>)
    ensures
        r == normalized(ev),
{
    if ev.release {
        return None;
    }
    match ev.code {
        KeyCode::Char(c) => if ev.control {
            if c == 'j' || c == 'J' || c == 'm' || c == 'M' {
                Some(Input::Enter)
            } else {
                Some(Input::Ctrl(to_ascii_lower(c)))
            }
        } else {
            Some(Input::Char(c))
        },
        KeyCode::Enter => Some(Input::Enter),
        KeyCode::Esc => Some(Input::Esc),
        KeyCode::Tab => Some(Input::Tab),
        KeyCode::BackTab => Some(Input::BackTab),
        KeyCode::Up => Some(Input::Up),
        KeyCode::Down => Some(Input::Down),
        KeyCode::Left => Some(Input::Left),
        KeyCode::Right => Some(Input::Right),
        KeyCode::PageUp => Some(Input::PageUp),
        KeyCode::PageDown => Some(Input::PageDown),
        KeyCode::Home => Some(Input::Home),
        KeyCode::End => Some(Input::End),
        KeyCode::Backspace => Some(Input::Backspace),
        KeyCode::Delete => Some(Input::Delete),
        KeyCode::F(_) | KeyCode::Null | KeyCode::Other => None,
    }
}

/// The only mouse gestures the interface reacts to.
#[derive(Debug, Clone, Copy, PartialEq, Eq, Structural)]
pub enum MouseInput {
    /// Left button down, in frame coordinates.
    Click { col: u16, row: u16 },
    ScrollUp,
    ScrollDown,
}

/// Which button a mouse report is about.
#[derive(Debug, Clone, Copy, PartialEq, Eq, Structural)]
pub enum MouseButton {
    Left,
    Right,
    Middle,
}

/// What a mouse report says happened.
#[derive(Debug, Clone, Copy, PartialEq, Eq, Structural)]
pub enum MouseEventKind {
    Down(MouseButton),
    ScrollUp,
    ScrollDown,
    Moved,
    /// A release, a drag, a sideways scroll.
    Other,
}

/// What of a terminal's mouse report matters here.
#[derive(Debug, Clone, Copy, PartialEq, Eq, Structural)]
pub struct MouseEvent {
    pub kind: MouseEventKind,
    pub column: u16,
    pub row: u16,
}

/// What a mouse event means to the application.
pub open spec fn normalized_mouse(ev: MouseEvent) -> Option<MouseInput> {
    match ev.kind {
        MouseEventKind::Down(MouseButton::Left) => Some(
            MouseInput::Click { col: ev.column, row: ev.row },
        ),
        MouseEventKind::ScrollUp => Some(MouseInput::ScrollUp),
        MouseEventKind::ScrollDown => Some(MouseInput::ScrollDown),
        _ => None,
    }
}

/// A left click, a scroll, or nothing of interest.
pub fn normalize_mouse(ev: MouseEvent) -> (r: Option<MouseInput>)
    ensures
        r == normalized_mouse(ev),
{
    match ev.kind {
        MouseEventKind::Down(MouseButton::Left) => Some(
            MouseInput::Click { col: ev.column, row: ev.row },
        ),
        MouseEventKind::ScrollUp => Some(MouseInput::ScrollUp),
        MouseEventKind::ScrollDown => Some(MouseInput::ScrollDown),
        _ => None,
    }
}

/// A key release never reaches the application, whatever the key.
pub proof fn releases_are_dropped(ev: KeyEvent)
    requires
        ev.release,
    ensures
        normalized(ev) is None,
{
}

/// Every way a terminal can send Enter arrives as Enter.
pub proof fn enter_has_three_spellings(c: char)
    requires
        is_enter_alias(c),
    ensures
        normalized((KeyEvent { code: KeyCode::Enter, control: false, release: false }))
            == Some(Input::Enter),
        normalized((KeyEvent { code: KeyCode::Char(c), control: true, release: false }))
            == Some(Input::Enter),
{
}

/// Ctrl with a letter means the same whether or not Shift was held too.
pub proof fn control_keys_ignore_case(c: char)
    ensures
        normalized((KeyEvent { code: KeyCode::Char(c), control: true, release: false }))
            == normalized(
            (KeyEvent { code: KeyCode::Char(ascii_lower(c)), control: true, release: false }),
        ),
{
}

} // verus!
