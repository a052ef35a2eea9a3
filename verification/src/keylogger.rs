//! Names of the keys of the keyboard listener.

use vstd::prelude::*;

verus! {

/// A key as the keyboard listener reports it; keys without a name of their
/// own are `Other`.
#[derive(Debug, Clone, Copy, PartialEq, Eq, Structural)]
pub enum Key {
    KeyA,
    KeyB,
    KeyC,
    KeyD,
    KeyE,
    KeyF,
    KeyG,
    KeyH,
    KeyI,
    KeyJ,
    KeyK,
    KeyL,
    KeyM,
    KeyN,
    KeyO,
    KeyP,
    KeyQ,
    KeyR,
    KeyS,
    KeyT,
    KeyU,
    KeyV,
    KeyW,
    KeyX,
    KeyY,
    KeyZ,
    Num0,
    Num1,
    Num2,
    Num3,
    Num4,
    Num5,
    Num6,
    Num7,
    Num8,
    Num9,
    Comma,
    Dot,
    Slash,
    SemiColon,
    Quote,
    LeftBracket,
    RightBracket,
    BackSlash,
    Minus,
    Equal,
    BackQuote,
    Space,
    Tab,
    Backspace,
    Delete,
    Return,
    Escape,
    ShiftLeft,
    ShiftRight,
    CapsLock,
    ControlLeft,
    ControlRight,
    Alt,
    MetaLeft,
    MetaRight,
    F1,
    F2,
    F3,
    F4,
    F5,
    F6,
    F7,
    F8,
    F9,
    F10,
    F11,
    F12,
    UpArrow,
    DownArrow,
    LeftArrow,
    RightArrow,
    Home,
    End,
    PageUp,
    PageDown,
    Other,
}

/// The name recorded for a key: its character, or a symbol for whitespace,
/// editing, modifier, arrow and page keys, `"?"` for any other key.
pub open spec fn key_name(k: Key) -> Seq<char> {
    match k {
        Key::KeyA => "a"@,
        Key::KeyB => "b"@,
        Key::KeyC => "c"@,
        Key::KeyD => "d"@,
        Key::KeyE => "e"@,
        Key::KeyF => "f"@,
        Key::KeyG => "g"@,
        Key::KeyH => "h"@,
        Key::KeyI => "i"@,
        Key::KeyJ => "j"@,
        Key::KeyK => "k"@,
        Key::KeyL => "l"@,
        Key::KeyM => "m"@,
        Key::KeyN => "n"@,
        Key::KeyO => "o"@,
        Key::KeyP => "p"@,
        Key::KeyQ => "q"@,
        Key::KeyR => "r"@,
        Key::KeyS => "s"@,
        Key::KeyT => "t"@,
        Key::KeyU => "u"@,
        Key::KeyV => "v"@,
        Key::KeyW => "w"@,
        Key::KeyX => "x"@,
        Key::KeyY => "y"@,
        Key::KeyZ => "z"@,
        Key::Num0 => "0"@,
        Key::Num1 => "1"@,
        Key::Num2 => "2"@,
        Key::Num3 => "3"@,
        Key::Num4 => "4"@,
        Key::Num5 => "5"@,
        Key::Num6 => "6"@,
        Key::Num7 => "7"@,
        Key::Num8 => "8"@,
        Key::Num9 => "9"@,
        Key::Comma => ","@,
        Key::Dot => "."@,
        Key::Slash => "/"@,
        Key::SemiColon => ";"@,
        Key::Quote => "'"@,
        Key::LeftBracket => "["@,
        Key::RightBracket => "]"@,
        Key::BackSlash => "\\"@,
        Key::Minus => "-"@,
        Key::Equal => "="@,
        Key::BackQuote => "`"@,
        Key::Space => "␣"@,
        Key::Tab => "⇥"@,
        Key::Backspace => "⌫"@,
        Key::Delete => "⌦"@,
        Key::Return => "⏎"@,
        Key::Escape => "⎋"@,
        Key::ShiftLeft | Key::ShiftRight => "⇧"@,
        Key::CapsLock => "⇪"@,
        Key::ControlLeft | Key::ControlRight => "⌃"@,
        Key::Alt => "⌥"@,
        Key::MetaLeft | Key::MetaRight => "⌘"@,
        Key::F1 => "F1"@,
        Key::F2 => "F2"@,
        Key::F3 => "F3"@,
        Key::F4 => "F4"@,
        Key::F5 => "F5"@,
        Key::F6 => "F6"@,
        Key::F7 => "F7"@,
        Key::F8 => "F8"@,
        Key::F9 => "F9"@,
        Key::F10 => "F10"@,
        Key::F11 => "F11"@,
        Key::F12 => "F12"@,
        Key::UpArrow => "↑"@,
        Key::DownArrow => "↓"@,
        Key::LeftArrow => "←"@,
        Key::RightArrow => "→"@,
        Key::Home => "⇱"@,
        Key::End => "⇲"@,
        Key::PageUp => "⇞"@,
        Key::PageDown => "⇟"@,
        Key::Other => "?"@,
    }
}

/// The name recorded for a key press; every key has one, so every keystroke
/// is counted.
pub fn key_to_name(key: &Key) -> (r: Option<&'static str>)
    ensures
        r matches Some(n) && n@ == key_name(*key),
{
    Some(match key {
        Key::KeyA => "a",
        Key::KeyB => "b",
        Key::KeyC => "c",
        Key::KeyD => "d",
        Key::KeyE => "e",
        Key::KeyF => "f",
        Key::KeyG => "g",
        Key::KeyH => "h",
        Key::KeyI => "i",
        Key::KeyJ => "j",
        Key::KeyK => "k",
        Key::KeyL => "l",
        Key::KeyM => "m",
        Key::KeyN => "n",
        Key::KeyO => "o",
        Key::KeyP => "p",
        Key::KeyQ => "q",
        Key::KeyR => "r",
        Key::KeyS => "s",
        Key::KeyT => "t",
        Key::KeyU => "u",
        Key::KeyV => "v",
        Key::KeyW => "w",
        Key::KeyX => "x",
        Key::KeyY => "y",
        Key::KeyZ => "z",
        Key::Num0 => "0",
        Key::Num1 => "1",
        Key::Num2 => "2",
        Key::Num3 => "3",
        Key::Num4 => "4",
        Key::Num5 => "5",
        Key::Num6 => "6",
        Key::Num7 => "7",
        Key::Num8 => "8",
        Key::Num9 => "9",
        Key::Comma => ",",
        Key::Dot => ".",
        Key::Slash => "/",
        Key::SemiColon => ";",
        Key::Quote => "'",
        Key::LeftBracket => "[",
        Key::RightBracket => "]",
        Key::BackSlash => "\\",
        Key::Minus => "-",
        Key::Equal => "=",
        Key::BackQuote => "`",
        Key::Space => "␣",
        Key::Tab => "⇥",
        Key::Backspace => "⌫",
        Key::Delete => "⌦",
        Key::Return => "⏎",
        Key::Escape => "⎋",
        Key::ShiftLeft | Key::ShiftRight => "⇧",
        Key::CapsLock => "⇪",
        Key::ControlLeft | Key::ControlRight => "⌃",
        Key::Alt => "⌥",
        Key::MetaLeft | Key::MetaRight => "⌘",
        Key::F1 => "F1",
        Key::F2 => "F2",
        Key::F3 => "F3",
        Key::F4 => "F4",
        Key::F5 => "F5",
        Key::F6 => "F6",
        Key::F7 => "F7",
        Key::F8 => "F8",
        Key::F9 => "F9",
        Key::F10 => "F10",
        Key::F11 => "F11",
        Key::F12 => "F12",
        Key::UpArrow => "↑",
        Key::DownArrow => "↓",
        Key::LeftArrow => "←",
        Key::RightArrow => "→",
        Key::Home => "⇱",
        Key::End => "⇲",
        Key::PageUp => "⇞",
        Key::PageDown => "⇟",
        Key::Other => "?",
    })
}


/// What the keyboard listener reports: a key going down, a key coming up,
/// or anything else (mouse moves, buttons, the wheel).
#[derive(Debug, Clone, Copy, PartialEq, Eq, Structural)]
pub enum ListenerEvent {
    KeyPress(Key),
    KeyRelease(Key),
    Other,
}

/// The key name that one listener event adds to the counts, if any: only a
/// key press is counted, and nothing at all while deaf mode is on.
pub open spec fn counted_name(deaf: bool, event: ListenerEvent) -> Option<Seq<char>> {
    if deaf {
        None
    } else {
        match event {
            ListenerEvent::KeyPress(k) => Some(key_name(k)),
            _ => None,
        }
    }
}

/// The listener's decision for one event: the name of the key to count, or
/// `None` when the event is not a key press or deaf mode is on.
pub fn name_to_count(deaf: bool, event: ListenerEvent) -> (r: Option<&'static str>)
    ensures
        r is Some == counted_name(deaf, event) is Some,
        r matches Some(n) ==> counted_name(deaf, event) == Some(n@),
        deaf ==> r is None,
{
    if deaf {
        return None;
    }
    match event {
        ListenerEvent::KeyPress(k) => key_to_name(&k),
        _ => None,
    }
}

} // verus!
