use pastahandler::clipboard::{RetryPolicy, RetryStep, ATTEMPTS};
use pastahandler::config::{Config, Snippet};
use pastahandler::hotkeys::{parse_combo, Hotkeys};
use pastahandler::resident::Resident;

fn config_of(rows: &[(&str, &str, bool)]) -> Config {
    Config {
        snippets: rows
            .iter()
            .map(|(t, h, a)| Snippet { text: (*t).into(), hotkey: (*h).into(), active: *a })
            .collect(),
        ..Default::default()
    }
}

#[test]
fn hotkey_press_yields_the_bound_text() {
    let mut hotkeys = Hotkeys::new().expect("manager starts");
    let config = config_of(&[("one", "ctrl+alt+Digit1", true), ("two", "ctrl+alt+Digit2", false)]);
    let resident = Resident::start(config, &mut hotkeys).expect("valid config starts");
    let id1 = parse_combo("ctrl+alt+Digit1").unwrap().id();
    let id2 = parse_combo("ctrl+alt+Digit2").unwrap().id();
    assert_eq!(resident.snippet_for(id1, true).map(|s| s.as_str()), Some("one"));
    assert_eq!(resident.snippet_for(id1, false), None, "releases paste nothing");
    assert_eq!(resident.snippet_for(id2, true), None, "inactive rows are not registered");
}

#[test]
fn reload_skips_unchanged_and_swaps_changed_configs() {
    let mut hotkeys = Hotkeys::new().expect("manager starts");
    let rows = [("one", "ctrl+alt+Digit1", true)];
    let mut resident = Resident::start(config_of(&rows), &mut hotkeys).unwrap();
    assert!(!resident.reload(&mut hotkeys, config_of(&rows)).unwrap(), "touched but unchanged");

    let changed = [("uno", "ctrl+alt+Digit3", true)];
    assert!(resident.reload(&mut hotkeys, config_of(&changed)).unwrap());
    let id1 = parse_combo("ctrl+alt+Digit1").unwrap().id();
    let id3 = parse_combo("ctrl+alt+Digit3").unwrap().id();
    assert_eq!(resident.snippet_for(id1, true), None);
    assert_eq!(resident.snippet_for(id3, true).map(|s| s.as_str()), Some("uno"));
}

#[test]
fn corrupt_reload_keeps_the_old_config() {
    let mut hotkeys = Hotkeys::new().expect("manager starts");
    let mut resident =
        Resident::start(config_of(&[("one", "ctrl+alt+Digit1", true)]), &mut hotkeys).unwrap();
    let bad = config_of(&[("x", "ctrl+alt+Banana", true)]);
    let err = resident.reload(&mut hotkeys, bad).unwrap_err();
    assert_eq!(err.message(), "config error: bad hotkey 'ctrl+alt+Banana' on snippet 1");
    let id1 = parse_combo("ctrl+alt+Digit1").unwrap().id();
    assert_eq!(resident.snippet_for(id1, true).map(|s| s.as_str()), Some("one"));
    assert_eq!(resident.config().snippets.len(), 1);
}

#[test]
fn clipboard_writes_are_tried_three_times() {
    let mut policy = RetryPolicy::new();
    assert_eq!(ATTEMPTS, 3);
    assert_eq!(policy.after_attempt(false), RetryStep::PauseThenRetry);
    assert_eq!(policy.after_attempt(false), RetryStep::PauseThenRetry);
    assert!(policy.may_attempt());
    assert_eq!(policy.after_attempt(false), RetryStep::PauseThenGiveUp);
    assert!(!policy.may_attempt());

    let mut lucky = RetryPolicy::new();
    assert_eq!(lucky.after_attempt(false), RetryStep::PauseThenRetry);
    assert_eq!(lucky.after_attempt(true), RetryStep::Done);
}
