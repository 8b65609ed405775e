//! The hotkey session: which X events start a target selection and which
//! one ends it, and the character a pressed key stands for.

use vstd::prelude::*;

verus! {

/// The X protocol code of a key-press event.
pub const KEY_PRESS: u8 = 2;

/// The keycode of the hotkey (Ctrl+Space: the space key, grabbed with the
/// control modifier).
pub const HOTKEY_KEYCODE: u8 = 65;

/// What the program is waiting for.
#[derive(Clone, Copy, Debug, PartialEq, Eq, Structural)]
pub enum Phase {
    /// Waiting for the hotkey.
    AwaitingHotkey,
    /// The overlay is shown and the keyboard grabbed: waiting for the key of
    /// the character to look for.
    AwaitingTarget,
}

/// What to do about an event.
#[derive(Clone, Copy, Debug, PartialEq, Eq, Structural)]
pub enum Action {
    /// Nothing.
    Ignore,
    /// Show the overlay window and grab the keyboard.
    BeginSelection,
    /// Release the keyboard, read the character of the pressed key, take
    /// and save the screenshot, and hide the overlay.
    FinishSelection,
}

/// The phase and action that follow an event with the given response type
/// and detail (the keycode, for a key press).
pub open spec fn next_step(phase: Phase, response_type: u8, detail: u8) -> (Phase, Action) {
    if response_type != KEY_PRESS {
        (phase, Action::Ignore)
    } else {
        match phase {
            Phase::AwaitingHotkey => if detail == HOTKEY_KEYCODE {
                (Phase::AwaitingTarget, Action::BeginSelection)
            } else {
                (Phase::AwaitingHotkey, Action::Ignore)
            },
            Phase::AwaitingTarget => (Phase::AwaitingHotkey, Action::FinishSelection),
        }
    }
}

/// Decides what an event means in the current phase.
pub fn step(phase: Phase, response_type: u8, detail: u8) -> (next: (Phase, Action))
    ensures
        next == next_step(phase, response_type, detail),
{
    if response_type != KEY_PRESS {
        return (phase, Action::Ignore);
    }
    match phase {
        Phase::AwaitingHotkey => {
            if detail == HOTKEY_KEYCODE {
                (Phase::AwaitingTarget, Action::BeginSelection)
            } else {
                (Phase::AwaitingHotkey, Action::Ignore)
            }
        },
        Phase::AwaitingTarget => (Phase::AwaitingHotkey, Action::FinishSelection),
    }
}

/// An event other than a key press changes nothing and asks for nothing.
pub proof fn lemma_other_events_ignored(phase: Phase, response_type: u8, detail: u8)
    requires
        response_type != KEY_PRESS,
    ensures
        next_step(phase, response_type, detail) == (phase, Action::Ignore),
{
}

/// While waiting for the hotkey, a selection begins exactly on a press of
/// the hotkey, and nothing else can finish one.
pub proof fn lemma_selection_begins_only_on_hotkey(response_type: u8, detail: u8)
    ensures
        (next_step(Phase::AwaitingHotkey, response_type, detail).1 == Action::BeginSelection)
            <==> (response_type == KEY_PRESS && detail == HOTKEY_KEYCODE),
        next_step(Phase::AwaitingHotkey, response_type, detail).1 != Action::FinishSelection,
        (next_step(Phase::AwaitingHotkey, response_type, detail).0 == Phase::AwaitingTarget)
            <==> (next_step(Phase::AwaitingHotkey, response_type, detail).1
            == Action::BeginSelection),
{
}

/// While waiting for the target, the next key press, whatever its key,
/// finishes the selection and returns to waiting for the hotkey.
pub proof fn lemma_any_key_finishes_selection(detail: u8)
    ensures
        next_step(Phase::AwaitingTarget, KEY_PRESS, detail) == (
            Phase::AwaitingHotkey,
            Action::FinishSelection,
        ),
{
}

/// The byte a key stands for: the first byte of its keysym's name followed
/// by the terminating NUL (so NUL for an empty name).
pub open spec fn name_initial(name: Seq<u8>) -> u8 {
    (name + seq![0u8])[0]
}

/// The character of a pressed key, from the name of its keysym (without the
/// terminating NUL): the name's first byte, or NUL when the name is empty.
pub fn keysym_name_initial(name: &[u8]) -> (byte: u8)
    ensures
        byte == name_initial(name@),
        name@.len() > 0 ==> byte == name@[0],
        name@.len() == 0 ==> byte == 0,
{
    if name.len() > 0 {
        name[0]
    } else {
        0
    }
}

} // verus!
