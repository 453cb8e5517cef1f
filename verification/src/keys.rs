//! The key mapping: a closed, finite mapping from platform key events and
//! modifier sets to the terminal engine's key-code vocabulary.

use vstd::prelude::*;

verus! {

/// The named, non-character keys the mapping knows; every other named key is
/// `Other` and produces no action.
#[derive(Debug, Clone, Copy, PartialEq, Eq, Structural)]
pub enum NamedKey {
    Enter,
    Space,
    Backspace,
    Delete,
    ArrowLeft,
    ArrowRight,
    ArrowUp,
    ArrowDown,
    Tab,
    Escape,
    F1,
    F2,
    F3,
    F4,
    F5,
    F6,
    F7,
    F8,
    F9,
    F10,
    F11,
    F12,
    Other,
}

/// A platform key event's identity: a character key, a named key, or one the
/// platform could not identify.
#[derive(Debug, Clone, Copy, PartialEq, Eq, Structural)]
pub enum Key {
    Character(char),
    Named(NamedKey),
    Unidentified,
}

/// The platform's modifier set.
#[derive(Debug, Clone, Copy, PartialEq, Eq, Structural)]
pub struct Modifiers {
    pub shift: bool,
    pub alt: bool,
    pub control: bool,
    pub logo: bool,
}

/// The terminal engine's key vocabulary.
#[derive(Debug, Clone, Copy, PartialEq, Eq, Structural)]
pub enum KeyCode {
    Char(char),
    Enter,
    Backspace,
    Delete,
    LeftArrow,
    RightArrow,
    UpArrow,
    DownArrow,
    Tab,
    Escape,
    Function(u8),
}

/// The terminal engine's modifier bitset: each flag is OR'd in
/// independently.
#[derive(Debug, Clone, Copy, PartialEq, Eq, Structural)]
pub struct KeyModifiers {
    pub shift: bool,
    pub alt: bool,
    pub ctrl: bool,
    pub super_key: bool,
}

/// The engine key a platform key maps to, if any: character keys map
/// directly, Space maps to the space character, the named keys of the closed
/// vocabulary map to their symbolic codes, and anything else has no mapping.
pub open spec fn spec_key_code(key: Key) -> Option<KeyCode> {
    match key {
        Key::Character(c) => Some(KeyCode::Char(c)),
        Key::Named(named) => match named {
            NamedKey::Enter => Some(KeyCode::Enter),
            NamedKey::Space => Some(KeyCode::Char(' ')),
            NamedKey::Backspace => Some(KeyCode::Backspace),
            NamedKey::Delete => Some(KeyCode::Delete),
            NamedKey::ArrowLeft => Some(KeyCode::LeftArrow),
            NamedKey::ArrowRight => Some(KeyCode::RightArrow),
            NamedKey::ArrowUp => Some(KeyCode::UpArrow),
            NamedKey::ArrowDown => Some(KeyCode::DownArrow),
            NamedKey::Tab => Some(KeyCode::Tab),
            NamedKey::Escape => Some(KeyCode::Escape),
            NamedKey::F1 => Some(KeyCode::Function(1)),
            NamedKey::F2 => Some(KeyCode::Function(2)),
            NamedKey::F3 => Some(KeyCode::Function(3)),
            NamedKey::F4 => Some(KeyCode::Function(4)),
            NamedKey::F5 => Some(KeyCode::Function(5)),
            NamedKey::F6 => Some(KeyCode::Function(6)),
            NamedKey::F7 => Some(KeyCode::Function(7)),
            NamedKey::F8 => Some(KeyCode::Function(8)),
            NamedKey::F9 => Some(KeyCode::Function(9)),
            NamedKey::F10 => Some(KeyCode::Function(10)),
            NamedKey::F11 => Some(KeyCode::Function(11)),
            NamedKey::F12 => Some(KeyCode::Function(12)),
            NamedKey::Other => None,
        },
        Key::Unidentified => None,
    }
}

/// The engine modifier set a platform modifier set maps to: shift, alt,
/// control and the platform key each carry over independently.
pub open spec fn spec_modifiers(m: Modifiers) -> KeyModifiers {
    KeyModifiers { shift: m.shift, alt: m.alt, ctrl: m.control, super_key: m.logo }
}

/// Maps a platform key event with its modifiers to the engine's key code and
/// modifier set; unmapped keys produce no action.
pub fn transform_key(key: Key, modifiers: Modifiers) -> (r: Option<(KeyCode, KeyModifiers)>)
    ensures
        match r {
            Some(p) => spec_key_code(key) == Some(p.0) && p.1 == spec_modifiers(modifiers),
            None => spec_key_code(key) is None,
        },
{
    let code: Option<KeyCode> = match key {
        Key::Character(c) => Some(KeyCode::Char(c)),
        Key::Named(named) => match named {
            NamedKey::Enter => Some(KeyCode::Enter),
            NamedKey::Space => Some(KeyCode::Char(' ')),
            NamedKey::Backspace => Some(KeyCode::Backspace),
            NamedKey::Delete => Some(KeyCode::Delete),
            NamedKey::ArrowLeft => Some(KeyCode::LeftArrow),
            NamedKey::ArrowRight => Some(KeyCode::RightArrow),
            NamedKey::ArrowUp => Some(KeyCode::UpArrow),
            NamedKey::ArrowDown => Some(KeyCode::DownArrow),
            NamedKey::Tab => Some(KeyCode::Tab),
            NamedKey::Escape => Some(KeyCode::Escape),
            NamedKey::F1 => Some(KeyCode::Function(1)),
            NamedKey::F2 => Some(KeyCode::Function(2)),
            NamedKey::F3 => Some(KeyCode::Function(3)),
            NamedKey::F4 => Some(KeyCode::Function(4)),
            NamedKey::F5 => Some(KeyCode::Function(5)),
            NamedKey::F6 => Some(KeyCode::Function(6)),
            NamedKey::F7 => Some(KeyCode::Function(7)),
            NamedKey::F8 => Some(KeyCode::Function(8)),
            NamedKey::F9 => Some(KeyCode::Function(9)),
            NamedKey::F10 => Some(KeyCode::Function(10)),
            NamedKey::F11 => Some(KeyCode::Function(11)),
            NamedKey::F12 => Some(KeyCode::Function(12)),
            NamedKey::Other => None,
        },
        Key::Unidentified => None,
    };
    match code {
        Some(c) => Some(
            (
                c,
                KeyModifiers {
                    shift: modifiers.shift,
                    alt: modifiers.alt,
                    ctrl: modifiers.control,
                    super_key: modifiers.logo,
                },
            ),
        ),
        None => None,
    }
}

} // verus!
