use pastahandler::config::{Config, Snippet};
use pastahandler::hotkeys::{parse_all, parse_combo, Hotkeys};

fn config_with(hotkeys: &[&str]) -> Config {
    Config {
        snippets: hotkeys
            .iter()
            .enumerate()
            .map(|(i, hk)| Snippet {
                text: format!("text{i}"),
                hotkey: (*hk).into(),
                active: true,
            })
            .collect(),
        ..Default::default()
    }
}

#[test]
fn parse_all_accepts_valid_hotkeys() {
    let config = config_with(&["ctrl+alt+Digit1", "ctrl+shift+KeyQ", "F5"]);
    let parsed = parse_all(&config).expect("valid hotkeys should parse");
    assert_eq!(parsed.len(), 3);
    assert_eq!(parsed[2].1, 2); // indices preserved
}

#[test]
fn parse_all_rejects_garbage_with_context() {
    let config = config_with(&["ctrl+alt+Banana"]);
    let err = parse_all(&config).unwrap_err();
    let msg = err.message();
    assert!(msg.contains("ctrl+alt+Banana"), "error names the combo: {msg}");
    assert!(msg.contains("snippet 1"), "error names the row: {msg}");
}

#[test]
fn parse_all_rejects_duplicates() {
    let config = config_with(&["ctrl+alt+Digit1", "CTRL+ALT+Digit1"]); // case-insensitive dup
    let err = parse_all(&config).unwrap_err();
    assert!(err.message().contains("duplicate"), "{}", err.message());
}

#[test]
fn empty_hotkeys_are_unbound_not_errors() {
    let config = config_with(&["", "ctrl+alt+Digit1", "   "]);
    let parsed = parse_all(&config).expect("empties must be skipped, not rejected");
    assert_eq!(parsed.len(), 1);
    assert_eq!(parsed[0].1, 1); // row index preserved
}

#[test]
fn inactive_snippets_validate_but_do_not_register() {
    let mut config = config_with(&["ctrl+alt+Digit1", "ctrl+alt+Digit2"]);
    config.snippets[1].active = false;
    let parsed = parse_all(&config).expect("inactive valid snippet is fine");
    assert_eq!(parsed.len(), 1);

    // garbage on an INACTIVE snippet still errors — never reaches disk
    config.snippets[1].hotkey = "ctrl+alt+Banana".into();
    assert!(parse_all(&config).is_err());
}

#[test]
fn inactive_duplicate_of_active_combo_is_allowed() {
    let mut config = config_with(&["ctrl+alt+Digit1", "ctrl+alt+Digit1"]);
    config.snippets[1].active = false;
    let parsed = parse_all(&config).expect("parked twin of an active combo is legal");
    assert_eq!(parsed.len(), 1);
    assert_eq!(parsed[0].1, 0);
}

#[test]
fn bad_hotkey_message_is_exact_and_names_the_first_bad_row() {
    let config = config_with(&["ctrl+alt+Digit1", "", "ctrl+Nope"]);
    let err = parse_all(&config).unwrap_err();
    assert_eq!(err.message(), "config error: bad hotkey 'ctrl+Nope' on snippet 3");
}

#[test]
fn duplicate_message_is_exact() {
    let config = config_with(&["alt+F5", "ctrl+F6", "ALT+F5"]);
    let err = parse_all(&config).unwrap_err();
    assert_eq!(err.message(), "config error: duplicate active hotkey 'ALT+F5'");
}

#[test]
fn white_space_of_other_scripts_also_unbinds() {
    // no-break space and ideographic space are white space too
    let config = config_with(&["\u{a0}", "\u{3000} \t", "ctrl+alt+Digit3"]);
    let parsed = parse_all(&config).expect("blank combos are unbound");
    assert_eq!(parsed.len(), 1);
    assert_eq!(parsed[0].1, 2);
}

#[test]
fn parsed_ids_follow_the_combo_not_its_spelling() {
    let a = parse_combo("ctrl+alt+Digit1").expect("parses");
    let b = parse_combo("CTRL+ALT+1").expect("parses");
    let c = parse_combo("ctrl+alt+Digit2").expect("parses");
    assert_eq!(a.id(), b.id());
    assert_ne!(a.id(), c.id());
    assert!(parse_combo("ctrl+alt+Banana").is_none());
    assert!(parse_combo("").is_none());
}

#[test]
fn registration_map_sends_ids_to_rows() {
    let mut hotkeys = Hotkeys::new().expect("manager starts");
    let mut config = config_with(&["ctrl+alt+Digit1", "", "ctrl+alt+Digit2"]);
    config.snippets[2].active = true;
    let map = hotkeys.register_all(&config).expect("registers");
    let id1 = parse_combo("ctrl+alt+Digit1").unwrap().id();
    let id2 = parse_combo("ctrl+alt+Digit2").unwrap().id();
    assert_eq!(map.len(), 2);
    assert_eq!(map.get(&id1), Some(&0));
    assert_eq!(map.get(&id2), Some(&2));
}

#[test]
fn invalid_config_is_rejected_before_registration() {
    let mut hotkeys = Hotkeys::new().expect("manager starts");
    let config = config_with(&["ctrl+alt+Digit1", "ctrl+alt+Digit1"]);
    let err = hotkeys.register_all(&config).unwrap_err();
    assert_eq!(err.message(), "config error: duplicate active hotkey 'ctrl+alt+Digit1'");
}

#[test]
fn registering_the_same_config_twice_gives_the_same_map() {
    let mut hotkeys = Hotkeys::new().expect("manager starts");
    let mut config = config_with(&["ctrl+alt+Digit5", "ctrl+alt+Digit6"]);
    config.snippets[1].active = true;
    let first = hotkeys.register_all(&config).expect("registers");
    let second = hotkeys.register_all(&config).expect("re-registers after releasing");
    assert_eq!(first, second);
    assert_eq!(second.len(), 2);
}
