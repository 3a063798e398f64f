//! The keyboard.

use vstd::prelude::*;

use crate::text::to_chars;

verus! {

/// A key that was pressed: a named one, or the logical (layout-dependent) character.
pub enum Key {
    Space,
    ArrowLeft,
    ArrowRight,
    Character(String),
    Other,
}

/// What a key does.
pub enum KeyAction {
    PlayPause,
    /// Step the playhead back.
    SeekBack,
    /// Step the playhead on.
    SeekForward,
    AddMarkerAtPlayhead,
    ZoomIn,
    ZoomOut,
    /// Enlarge the amplitude.
    VZoomIn,
    /// Reduce the amplitude.
    VZoomOut,
}

/// Whether a text is a single character.
pub open spec fn is_char(s: Seq<char>, c: char) -> bool {
    s == seq![c]
}

/// What a key does, alone or with shift held. With shift held the +/- keys may report their
/// shifted symbols: "?" (Nordic +), "*" (German +), "_" (shifted -).
pub open spec fn action_of(key: Key, shift: bool) -> Option<KeyAction> {
    match key {
        Key::Space => Some(KeyAction::PlayPause),
        Key::ArrowLeft => Some(KeyAction::SeekBack),
        Key::ArrowRight => Some(KeyAction::SeekForward),
        Key::Character(s) => if is_char(s@, 'm') || is_char(s@, 'M') {
            Some(KeyAction::AddMarkerAtPlayhead)
        } else if is_char(s@, '+') || is_char(s@, '=') {
            Some(
                if shift {
                    KeyAction::VZoomIn
                } else {
                    KeyAction::ZoomIn
                },
            )
        } else if is_char(s@, '?') || is_char(s@, '*') {
            if shift {
                Some(KeyAction::VZoomIn)
            } else {
                None
            }
        } else if is_char(s@, '-') || is_char(s@, '_') {
            Some(
                if shift {
                    KeyAction::VZoomOut
                } else {
                    KeyAction::ZoomOut
                },
            )
        } else {
            None
        },
        Key::Other => None,
    }
}

/// What a key does, alone or with shift held.
pub fn key_action(key: &Key, shift: bool) -> (r: Option<KeyAction>)
    ensures
        r == action_of(*key, shift),
{
    match key {
        Key::Space => Some(KeyAction::PlayPause),
        Key::ArrowLeft => Some(KeyAction::SeekBack),
        Key::ArrowRight => Some(KeyAction::SeekForward),
        Key::Character(s) => {
            let chars = to_chars(s.as_str());
            if chars.len() != 1 {
                return None;
            }
            let c = chars[0];
            assert(chars@ =~= seq![c]);
            assert(forall|d: char| #[trigger] is_char(s@, d) ==> seq![d][0] == c);
            if c == 'm' || c == 'M' {
                Some(KeyAction::AddMarkerAtPlayhead)
            } else if c == '+' || c == '=' {
                if shift {
                    Some(KeyAction::VZoomIn)
                } else {
                    Some(KeyAction::ZoomIn)
                }
            } else if c == '?' || c == '*' {
                if shift {
                    Some(KeyAction::VZoomIn)
                } else {
                    None
                }
            } else if c == '-' || c == '_' {
                if shift {
                    Some(KeyAction::VZoomOut)
                } else {
                    Some(KeyAction::ZoomOut)
                }
            } else {
                None
            }
        },
        Key::Other => None,
    }
}

/// The named keys play and pause, and step back and on, with shift held or not; other named keys
/// do nothing.
pub proof fn named_keys(shift: bool)
    ensures
        action_of(Key::Space, shift) == Some(KeyAction::PlayPause),
        action_of(Key::ArrowLeft, shift) == Some(KeyAction::SeekBack),
        action_of(Key::ArrowRight, shift) == Some(KeyAction::SeekForward),
        action_of(Key::Other, shift) is None,
{
}

/// The letter m adds a marker; plus and minus zoom, and with shift held change the amplitude.
/// The shifted symbols of the plus key count with shift held only.
pub proof fn character_keys(s: String, c: char, shift: bool)
    requires
        s@ == seq![c],
    ensures
        ({
            let action = action_of(Key::Character(s), shift);
            &&& c == 'm' || c == 'M' ==> action == Some(KeyAction::AddMarkerAtPlayhead)
            &&& c == '+' || c == '=' ==> action == Some(
                if shift {
                    KeyAction::VZoomIn
                } else {
                    KeyAction::ZoomIn
                },
            )
            &&& c == '?' || c == '*' ==> action == if shift {
                Some(KeyAction::VZoomIn)
            } else {
                None
            }
            &&& c == '-' || c == '_' ==> action == Some(
                if shift {
                    KeyAction::VZoomOut
                } else {
                    KeyAction::ZoomOut
                },
            )
            &&& !seq!['m', 'M', '+', '=', '?', '*', '-', '_'].contains(c) ==> action is None
        }),
{
    let all = seq!['m', 'M', '+', '=', '?', '*', '-', '_'];
    assert(all[0] == 'm' && all[1] == 'M' && all[2] == '+' && all[3] == '=' && all[4] == '?'
        && all[5] == '*' && all[6] == '-' && all[7] == '_');
    assert forall|d: char| #[trigger] is_char(s@, d) implies d == c by {
        assert(seq![d][0] == d && seq![c][0] == c);
    }
    assert(is_char(s@, c));
}

/// A key that gives more than one character, or none, does nothing.
pub proof fn longer_keys_do_nothing(s: String, shift: bool)
    requires
        s@.len() != 1,
    ensures
        action_of(Key::Character(s), shift) is None,
{
}

} // verus!
