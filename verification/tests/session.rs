use ainav::screenshot::{screenshot_image, unpack_rgba};
use ainav::session::{keysym_name_initial, step, Action, Phase, HOTKEY_KEYCODE, KEY_PRESS};

#[test]
fn hotkey_begins_selection() {
    assert_eq!(
        step(Phase::AwaitingHotkey, KEY_PRESS, HOTKEY_KEYCODE),
        (Phase::AwaitingTarget, Action::BeginSelection)
    );
    assert_eq!(step(Phase::AwaitingHotkey, 2, 65), (Phase::AwaitingTarget, Action::BeginSelection));
}

#[test]
fn other_keys_are_ignored_while_waiting_for_hotkey() {
    assert_eq!(step(Phase::AwaitingHotkey, KEY_PRESS, 38), (Phase::AwaitingHotkey, Action::Ignore));
}

#[test]
fn any_key_finishes_selection() {
    assert_eq!(step(Phase::AwaitingTarget, KEY_PRESS, 38), (Phase::AwaitingHotkey, Action::FinishSelection));
    assert_eq!(
        step(Phase::AwaitingTarget, KEY_PRESS, HOTKEY_KEYCODE),
        (Phase::AwaitingHotkey, Action::FinishSelection)
    );
}

#[test]
fn non_key_events_change_nothing() {
    for rt in [0u8, 3, 4, 12, 130].iter() {
        assert_eq!(step(Phase::AwaitingHotkey, *rt, HOTKEY_KEYCODE), (Phase::AwaitingHotkey, Action::Ignore));
        assert_eq!(step(Phase::AwaitingTarget, *rt, 38), (Phase::AwaitingTarget, Action::Ignore));
    }
}

#[test]
fn full_session() {
    let events = [(12u8, 0u8), (2, 38), (2, 65), (7, 0), (2, 40), (2, 41)];
    let mut phase = Phase::AwaitingHotkey;
    let mut actions = Vec::new();
    for (rt, detail) in events.iter() {
        let (next, action) = step(phase, *rt, *detail);
        phase = next;
        actions.push(action);
    }
    assert_eq!(
        actions,
        vec![
            Action::Ignore,
            Action::Ignore,
            Action::BeginSelection,
            Action::Ignore,
            Action::FinishSelection,
            Action::Ignore
        ]
    );
    assert_eq!(phase, Phase::AwaitingHotkey);
}

#[test]
fn key_initial_is_first_byte_of_name() {
    assert_eq!(keysym_name_initial(b"a"), b'a');
    assert_eq!(keysym_name_initial(b"space"), b's');
    assert_eq!(keysym_name_initial(b""), 0);
}

#[test]
fn unpack_splits_most_significant_first() {
    assert_eq!(unpack_rgba(0x1122_3344), (0x11, 0x22, 0x33, 0x44));
    assert_eq!(unpack_rgba(0xFF00_00FF), (0xFF, 0, 0, 0xFF));
    assert_eq!(unpack_rgba(0), (0, 0, 0, 0));
}

#[test]
fn unpack_then_pack_is_identity() {
    for p in [0u32, 1, 0xDEAD_BEEF, 0x8000_0001, u32::MAX].iter() {
        let (r, g, b, a) = unpack_rgba(*p);
        let packed = (r as u32) << 24 | (g as u32) << 16 | (b as u32) << 8 | a as u32;
        assert_eq!(packed, *p);
    }
}

#[test]
fn screenshot_image_holds_channels_row_by_row() {
    let pixels = vec![0x0102_0304u32, 0x0506_0708, 0x090A_0B0C, 0x0D0E_0F10, 0, 0];
    let img = screenshot_image(2, 2, &pixels);
    assert_eq!(img.dimensions(), (2, 2));
    assert_eq!(
        img.samples(),
        vec![1u8, 2, 3, 4, 5, 6, 7, 8, 9, 10, 11, 12, 13, 14, 15, 16]
    );
    assert_eq!(img.samples()[12..16], [13u8, 14, 15, 16]);
}
