use pastahandler::config::Snippet;
use pastahandler::hotkeys::parse_combo;
use pastahandler::settings::snippet_table::{
    combo_from, combo_qualifies, is_modifier_key, sync_activity, KeyPress, Modifiers, PromptTone,
    SnippetTable, TableOutput, toggled,
};

fn mods(ctrl: bool, alt: bool, shift: bool) -> Modifiers {
    Modifiers { ctrl, alt, shift }
}

fn press(name: &str, m: Modifiers) -> KeyPress {
    KeyPress { name: name.into(), modifiers: m }
}

fn blank() -> Snippet {
    Snippet { text: "hello".into(), hotkey: String::new(), active: false }
}

/// The property the whole capture feature rests on: combo strings built from
/// the toolkit's key names are accepted by global-hotkey's parser.
#[test]
fn captured_combos_parse_as_hotkeys() {
    let cases = [
        (mods(true, true, false), "2", "ctrl+alt+2"),
        (mods(true, false, false), "A", "ctrl+A"),
        (mods(false, true, true), "F5", "alt+shift+F5"),
        (mods(true, false, false), "Space", "ctrl+Space"),
        (mods(true, false, true), "Minus", "ctrl+shift+Minus"),
    ];
    for (m, key, expected) in cases {
        let combo = combo_from(&m, key);
        assert_eq!(combo, expected);
        assert!(parse_combo(&combo).is_some(), "'{combo}' must parse");
    }
}

#[test]
fn navigation_keys_parse_too() {
    // the toolkit's names for ArrowDown, ArrowUp, Home and Tab
    for key in ["Down", "Up", "Home", "Tab"] {
        let combo = combo_from(&mods(true, true, false), key);
        assert!(parse_combo(&combo).is_some(), "'{combo}' failed to parse");
    }
}

#[test]
fn modifier_presses_are_chord_starts_not_combos() {
    let modifier_keys = [
        "ShiftLeft", "ShiftRight", "ControlLeft", "ControlRight", "AltLeft", "AltRight",
        "SuperLeft", "SuperRight",
    ];
    for key in modifier_keys {
        assert!(is_modifier_key(key), "{key:?} must be skipped by capture");
    }
    for key in ["A", "0", "F5", "Space", "Escape"] {
        assert!(!is_modifier_key(key), "{key:?} must reach normal capture");
    }
}

/// The regression this pins: shift+0 once captured as a hotkey, which made
/// ')' untypeable system-wide. Shift never qualifies a combo on its own.
#[test]
fn shift_alone_never_qualifies() {
    assert!(!combo_qualifies(&mods(false, false, true)), "shift-only is typing");
    assert!(!combo_qualifies(&mods(false, false, false)), "bare keys are typing");
    assert!(combo_qualifies(&mods(true, false, false)));
    assert!(combo_qualifies(&mods(false, true, false)));
    assert!(combo_qualifies(&mods(true, false, true)), "shift may ride along");
}

#[test]
fn capture_walks_through_hints_to_a_combo() {
    let mut table = SnippetTable::new();
    let mut snippet = blank();
    let mut out = TableOutput::new();
    table.arm_capture(0);
    assert_eq!(table.capturing(), Some(0));
    assert_eq!(table.prompt(false), ("press keys\u{2026}", PromptTone::Accent));
    assert_eq!(table.prompt(true), ("waiting for next key\u{2026}", PromptTone::Accent));

    // a bare key is typing, not a combo
    assert!(!table.capture_key(&mut snippet, 0, &press("A", mods(false, false, false)), &mut out));
    assert_eq!(table.prompt(false), ("hold Ctrl or Alt", PromptTone::Danger));
    // holding a modifier clears the hint
    assert!(!table.capture_key(&mut snippet, 0, &press("ControlLeft", mods(true, false, false)), &mut out));
    assert_eq!(table.prompt(true), ("waiting for next key\u{2026}", PromptTone::Accent));
    // a key the parser does not know
    assert!(!table.capture_key(&mut snippet, 0, &press("Questionmark", mods(true, false, false)), &mut out));
    assert_eq!(table.prompt(true), ("unsupported key", PromptTone::Danger));
    assert!(!out.committed);
    assert_eq!(snippet.hotkey, "");

    // a real combo lands, activates the row and ends capture
    assert!(table.capture_key(&mut snippet, 0, &press("2", mods(true, true, false)), &mut out));
    assert_eq!(snippet.hotkey, "ctrl+alt+2");
    assert!(snippet.active, "capture implies intent to use");
    assert_eq!(table.capturing(), None);
    assert!(out.committed);
    assert_eq!(out.just_activated, Some(0));
}

#[test]
fn escape_cancels_capture_without_edits() {
    let mut table = SnippetTable::new();
    let mut snippet = blank();
    let mut out = TableOutput::new();
    table.arm_capture(3);
    assert!(table.capture_key(&mut snippet, 3, &press("Escape", mods(true, false, false)), &mut out));
    assert_eq!(table.capturing(), None);
    assert_eq!(snippet.hotkey, "");
    assert!(!out.committed);
}

#[test]
fn unbound_rows_are_never_active() {
    let mut s = Snippet { text: "x".into(), hotkey: "  ".into(), active: true };
    assert!(!sync_activity(&mut s));
    assert!(!s.active);
    let mut t = Snippet { text: "x".into(), hotkey: "ctrl+F1".into(), active: true };
    assert!(sync_activity(&mut t));
    assert!(t.active);
}

#[test]
fn toggles_and_deletes_are_persisted() {
    let mut out = TableOutput::new();
    out.record_toggle(1, true, false);
    assert!(out.committed);
    assert_eq!(out.just_activated, None);
    out.record_toggle(2, false, true);
    assert_eq!(out.just_activated, Some(2));

    let mut table = SnippetTable::new();
    let mut rows = vec![blank(), blank(), blank()];
    rows[1].text = "middle".into();
    let mut out = TableOutput::new();
    table.finish_frame(&mut rows, Some(1), Some(0), &mut out);
    assert_eq!(rows.len(), 2);
    assert!(rows.iter().all(|r| r.text == "hello"));
    assert!(out.committed);
    assert!(table.delete_tinted(0));
    assert!(!table.delete_tinted(1));
}

#[test]
fn a_disabled_switch_never_flips() {
    assert!(toggled(false, true, true));
    assert!(!toggled(true, true, true));
    assert!(!toggled(false, true, false));
    assert!(toggled(true, false, true));
    assert!(toggled(true, true, false));
}

#[test]
fn an_unbound_row_stays_off_through_its_toggle() {
    let mut s = Snippet { text: "t".into(), hotkey: " ".into(), active: true };
    let can_activate = sync_activity(&mut s);
    assert!(!can_activate);
    s.active = toggled(s.active, true, can_activate);
    assert!(!s.active, "clicking the toggle of an unbound row does nothing");
}
