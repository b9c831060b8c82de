//! Remote input: the viewer's mouse and keyboard, as the events that travel
//! to the host. Printable characters travel as text (the viewer's keyboard
//! layout decides them); only keys that produce no character travel as key
//! presses and releases, plus the character key of a shortcut (Ctrl+C).
//! Modifier keys have no events of their own in the window toolkit, so their
//! presses and releases are derived from the change of their state.

use vstd::prelude::*;

verus! {

/// A mouse button as the viewer sees it.
#[derive(Debug, Clone, Copy, PartialEq, Eq, Structural)]
pub enum MouseButton {
    Left,
    Right,
    Middle,
    Back,
    Forward,
}

/// Keys that produce no character. Letters, digits and punctuation are not
/// among them: they travel as text, or as a shortcut's character.
#[derive(Debug, Clone, Copy, PartialEq, Eq, Structural)]
pub enum KeyCode {
    Ctrl,
    Shift,
    Alt,
    Enter,
    Tab,
    Backspace,
    Delete,
    Escape,
    Space,
    Insert,
    Up,
    Down,
    Left,
    Right,
    Home,
    End,
    PageUp,
    PageDown,
    F1,
    F2,
    F3,
    F4,
    F5,
    F6,
    F7,
    F8,
    F9,
    F10,
    F11,
    F12,
}

/// The state of the modifier keys.
#[derive(Debug, Clone, Copy, PartialEq, Eq, Structural)]
pub struct Modifiers {
    pub ctrl: bool,
    pub shift: bool,
    pub alt: bool,
}

/// A key press (`down`) or release that goes to the host.
#[derive(Debug, Clone, Copy, PartialEq, Eq, Structural)]
pub enum KeyEvent {
    /// A key that produces no character.
    Key { k: KeyCode, down: bool },
    /// The character key of a shortcut.
    Char { c: char, down: bool },
}

/// The modifier state after `ev`.
pub open spec fn apply_modifier(m: Modifiers, ev: KeyEvent) -> Modifiers {
    match ev {
        KeyEvent::Key { k: KeyCode::Ctrl, down } => Modifiers { ctrl: down, ..m },
        KeyEvent::Key { k: KeyCode::Shift, down } => Modifiers { shift: down, ..m },
        KeyEvent::Key { k: KeyCode::Alt, down } => Modifiers { alt: down, ..m },
        _ => m,
    }
}

/// The modifier state after the events `evs`, in order.
pub open spec fn apply_modifiers(m: Modifiers, evs: Seq<KeyEvent>) -> Modifiers
    decreases evs.len(),
{
    if evs.len() == 0 {
        m
    } else {
        apply_modifier(apply_modifiers(m, evs.drop_last()), evs.last())
    }
}

/// The events that move the modifier state from `was` to `now`: one for
/// each key that changed, in the order Ctrl, Shift, Alt.
pub open spec fn modifier_events_spec(was: Modifiers, now: Modifiers) -> Seq<KeyEvent> {
    let c = if was.ctrl != now.ctrl {
        seq![KeyEvent::Key { k: KeyCode::Ctrl, down: now.ctrl }]
    } else {
        seq![]
    };
    let s = if was.shift != now.shift {
        seq![KeyEvent::Key { k: KeyCode::Shift, down: now.shift }]
    } else {
        seq![]
    };
    let a = if was.alt != now.alt {
        seq![KeyEvent::Key { k: KeyCode::Alt, down: now.alt }]
    } else {
        seq![]
    };
    c + s + a
}

/// The press and release events that bring the host's modifier keys from
/// `was` to `now`.
pub fn modifier_events(was: Modifiers, now: Modifiers) -> (r: Vec<KeyEvent>)
    ensures
        r@ == modifier_events_spec(was, now),
{
    let mut out: Vec<KeyEvent> = Vec::new();
    if was.ctrl != now.ctrl {
        out.push(KeyEvent::Key { k: KeyCode::Ctrl, down: now.ctrl });
    }
    if was.shift != now.shift {
        out.push(KeyEvent::Key { k: KeyCode::Shift, down: now.shift });
    }
    if was.alt != now.alt {
        out.push(KeyEvent::Key { k: KeyCode::Alt, down: now.alt });
    }
    assert(out@ =~= modifier_events_spec(was, now));
    out
}

/// Replaying the derived events on the host's state `was` gives `now`, and
/// no modifier event is sent for a key that did not change; in particular
/// releasing everything leaves no key held down.
pub proof fn law_modifier_events_reach_the_new_state(was: Modifiers, now: Modifiers)
    ensures
        apply_modifiers(was, modifier_events_spec(was, now)) == now,
        was == now ==> modifier_events_spec(was, now).len() == 0,
        apply_modifiers(was, modifier_events_spec(was, Modifiers { ctrl: false, shift: false, alt: false }))
            == (Modifiers { ctrl: false, shift: false, alt: false }),
{
    let evs = modifier_events_spec(was, now);
    let c = if was.ctrl != now.ctrl {
        seq![KeyEvent::Key { k: KeyCode::Ctrl, down: now.ctrl }]
    } else {
        seq![]
    };
    let s = if was.shift != now.shift {
        seq![KeyEvent::Key { k: KeyCode::Shift, down: now.shift }]
    } else {
        seq![]
    };
    let a = if was.alt != now.alt {
        seq![KeyEvent::Key { k: KeyCode::Alt, down: now.alt }]
    } else {
        seq![]
    };
    lemma_apply_concat(was, c, s);
    lemma_apply_concat(was, c + s, a);
    lemma_apply_short(was, c);
    lemma_apply_short(apply_modifiers(was, c), s);
    lemma_apply_short(apply_modifiers(was, c + s), a);
    let none = Modifiers { ctrl: false, shift: false, alt: false };
    let c2 = if was.ctrl != none.ctrl {
        seq![KeyEvent::Key { k: KeyCode::Ctrl, down: none.ctrl }]
    } else {
        seq![]
    };
    let s2 = if was.shift != none.shift {
        seq![KeyEvent::Key { k: KeyCode::Shift, down: none.shift }]
    } else {
        seq![]
    };
    let a2 = if was.alt != none.alt {
        seq![KeyEvent::Key { k: KeyCode::Alt, down: none.alt }]
    } else {
        seq![]
    };
    lemma_apply_concat(was, c2, s2);
    lemma_apply_concat(was, c2 + s2, a2);
    lemma_apply_short(was, c2);
    lemma_apply_short(apply_modifiers(was, c2), s2);
    lemma_apply_short(apply_modifiers(was, c2 + s2), a2);
}

proof fn lemma_apply_short(m: Modifiers, evs: Seq<KeyEvent>)
    requires
        evs.len() <= 1,
    ensures
        evs.len() == 0 ==> apply_modifiers(m, evs) == m,
        evs.len() == 1 ==> apply_modifiers(m, evs) == apply_modifier(m, evs[0]),
{
    if evs.len() == 1 {
        assert(evs.drop_last() =~= Seq::<KeyEvent>::empty());
        assert(apply_modifiers(m, evs.drop_last()) == m);
        assert(evs.last() == evs[0]);
    }
}

proof fn lemma_apply_concat(m: Modifiers, a: Seq<KeyEvent>, b: Seq<KeyEvent>)
    ensures
        apply_modifiers(m, a + b) == apply_modifiers(apply_modifiers(m, a), b),
    decreases b.len(),
{
    if b.len() == 0 {
        assert(a + b =~= a);
    } else {
        lemma_apply_concat(m, a, b.drop_last());
        assert((a + b).drop_last() =~= a + b.drop_last());
        assert((a + b).last() == b.last());
    }
}

/// What a key press or release in the window sends: nothing for an
/// auto-repeat (the host repeats on its own); the key itself when it
/// produces no character; the character key while Ctrl, Alt or Command is
/// held (a shortcut makes no text event); else nothing, as the character
/// goes as text.
pub open spec fn forward_key_spec(code: Option<KeyCode>, ch: Option<char>, pressed: bool, repeat: bool, shortcut: bool) -> Option<KeyEvent> {
    if repeat {
        None
    } else if code is Some {
        Some(KeyEvent::Key { k: code->0, down: pressed })
    } else if shortcut && ch is Some {
        Some(KeyEvent::Char { c: ch->0, down: pressed })
    } else {
        None
    }
}

/// What a key press or release in the window sends to the host; `code` and
/// `ch` are the key's mapping to a non-character key and to a shortcut
/// character, and `shortcut` tells whether Ctrl, Alt or Command is held.
pub fn forward_key(code: Option<KeyCode>, ch: Option<char>, pressed: bool, repeat: bool, shortcut: bool) -> (r: Option<KeyEvent>)
    ensures
        r == forward_key_spec(code, ch, pressed, repeat, shortcut),
{
    if repeat {
        return None;
    }
    match code {
        Some(k) => Some(KeyEvent::Key { k, down: pressed }),
        None => {
            if shortcut {
                match ch {
                    Some(c) => Some(KeyEvent::Char { c, down: pressed }),
                    None => None,
                }
            } else {
                None
            }
        },
    }
}

/// Every key press that is forwarded has a matching release: a press gives
/// an event that is down, and the release of the same key gives the same
/// event with the key up; a press that gives nothing has a release that
/// gives nothing either.
pub proof fn law_every_forwarded_press_has_its_release(code: Option<KeyCode>, ch: Option<char>, repeat: bool, shortcut: bool)
    ensures
        match forward_key_spec(code, ch, true, repeat, shortcut) {
            Some(KeyEvent::Key { k, down }) => down && forward_key_spec(code, ch, false, repeat, shortcut) == Some(
                KeyEvent::Key { k, down: false },
            ),
            Some(KeyEvent::Char { c, down }) => down && forward_key_spec(code, ch, false, repeat, shortcut)
                == Some(KeyEvent::Char { c, down: false }),
            None => forward_key_spec(code, ch, false, repeat, shortcut) is None,
        },
{
}

/// With Ctrl, Alt or Command held, a character key that is no special key
/// travels as that character, pressed and released alike.
pub proof fn law_shortcut_characters_travel_both_ways(c: char, pressed: bool)
    ensures
        forward_key_spec(None, Some(c), pressed, false, true) == Some(KeyEvent::Char { c, down: pressed }),
{
}

} // verus!
