use pastahandler::config::{default_active, Config, Snippet};
use pastahandler::theme::Theme;

#[test]
fn first_run_sample_is_one_live_snippet() {
    let c = Config::init();
    assert!(c.open_settings_on_launch);
    assert_eq!(c.snippets.len(), 1);
    assert_eq!(c.snippets[0].text, "https://github.com/Kwuasimoto/PastaHandler");
    assert_eq!(c.snippets[0].hotkey, "ctrl+alt+Digit1");
    assert!(c.snippets[0].active);
    assert!(c.theme.same_as(&Theme::default()));
    assert!(default_active());
}

#[test]
fn config_equality_compares_every_field() {
    let a = Config::init();
    let mut b = Config::init();
    assert!(a.same_as(&b));
    b.snippets[0].active = false;
    assert!(!a.same_as(&b));
    let mut c = Config::init();
    c.snippets.push(Snippet { text: String::new(), hotkey: String::new(), active: false });
    assert!(!a.same_as(&c));
    let d = Config::default();
    assert!(d.snippets.is_empty() && !d.open_settings_on_launch);
}
