use pastahandler::config::{Config, ConfigFile, Snippet, HEADER};
use pastahandler::settings::chrome::CaptionIcon;
use pastahandler::settings::header::HeaderOutput;
use pastahandler::settings::theme_panel::{opacity_from_percent, opacity_percent, ThemePanel};
use pastahandler::settings::theme_window::ThemeWindow;
use pastahandler::settings::{CommitPlan, SettingsApp};
use pastahandler::theme::{presets, Theme};

fn snippet(text: &str, hotkey: &str, active: bool) -> Snippet {
    Snippet { text: text.into(), hotkey: hotkey.into(), active }
}

fn app_with(snippets: Vec<Snippet>) -> SettingsApp {
    let draft = Config { snippets, open_settings_on_launch: false, theme: Theme::default() };
    SettingsApp::new(ConfigFile::new(String::from("pastahandler-test.toml")), draft)
}

#[test]
fn commit_of_valid_draft_plans_a_write_and_clears_error() {
    let mut app = app_with(vec![
        snippet("one", "ctrl+alt+Digit1", true),
        snippet("two", "ctrl+alt+Digit2", true),
    ]);
    app.error = Some("stale error from last time".into());
    match app.commit(None) {
        CommitPlan::Write(note) => {
            assert_eq!(note, None);
            app.commit_written(note, Ok(()));
        }
        CommitPlan::Keep => panic!("a valid draft is written"),
    }
    assert_eq!(app.error, None);
}

#[test]
fn commit_conflict_with_activation_rolls_back_and_still_writes() {
    let mut app = app_with(vec![
        snippet("first", "ctrl+alt+Digit1", true),
        snippet("twin", "ctrl+alt+Digit1", true),
    ]);
    match app.commit(Some(1)) {
        CommitPlan::Write(note) => {
            assert!(!app.draft.snippets[1].active, "conflicting activation must roll back");
            assert!(app.draft.snippets[0].active);
            app.commit_written(note, Ok(()));
        }
        CommitPlan::Keep => panic!("the rolled-back draft is still written"),
    }
    assert_eq!(
        app.error.as_deref(),
        Some("config error: duplicate active hotkey 'ctrl+alt+Digit1' \u{2014} snippet saved inactive")
    );
}

#[test]
fn commit_conflict_without_activation_keeps_the_file() {
    let mut app = app_with(vec![snippet("good", "ctrl+alt+Digit1", true)]);
    app.draft.snippets.push(snippet("twin", "ctrl+alt+Digit1", true));
    assert!(matches!(app.commit(None), CommitPlan::Keep));
    assert_eq!(
        app.error.as_deref(),
        Some("config error: duplicate active hotkey 'ctrl+alt+Digit1'")
    );
    assert_eq!(app.draft.snippets.len(), 2, "the draft itself is not edited");
}

#[test]
fn rollback_that_cannot_help_keeps_the_file() {
    // the conflict is between rows 0 and 2; activating row 1 did not cause it
    let mut app = app_with(vec![
        snippet("a", "ctrl+alt+Digit1", true),
        snippet("b", "ctrl+alt+Digit2", true),
        snippet("c", "ctrl+alt+Digit1", true),
    ]);
    assert!(matches!(app.commit(Some(1)), CommitPlan::Keep));
    assert!(!app.draft.snippets[1].active);
    assert_eq!(
        app.error.as_deref(),
        Some("config error: duplicate active hotkey 'ctrl+alt+Digit1'")
    );
}

#[test]
fn failed_write_shows_its_error() {
    let mut app = app_with(vec![snippet("one", "ctrl+alt+Digit1", true)]);
    match app.commit(None) {
        CommitPlan::Write(note) => app.commit_written(note, Err("file error: disk full".into())),
        CommitPlan::Keep => panic!("valid"),
    }
    assert_eq!(app.error.as_deref(), Some("file error: disk full"));
}

#[test]
fn header_adds_a_blank_inactive_row_and_toggles_the_drawer() {
    let mut app = app_with(vec![]);
    app.apply_header(&HeaderOutput { add_snippet: true, toggle_theme: true });
    assert_eq!(app.draft.snippets.len(), 1);
    assert_eq!(app.draft.snippets[0].text, "");
    assert!(!app.draft.snippets[0].active);
    assert!(app.theme_panel.open);
    app.apply_header(&HeaderOutput::none());
    assert!(app.theme_panel.open);
    assert_eq!(app.draft.snippets.len(), 1);
}

#[test]
fn window_attributes_are_pushed_on_change_only() {
    let mut app = app_with(vec![]);
    assert_eq!(app.outline_to_apply(), Some(true));
    app.applied_outline = Some(true);
    assert_eq!(app.outline_to_apply(), None);
    app.draft.theme.focus_outline = false;
    assert_eq!(app.outline_to_apply(), Some(false));
    assert_eq!(app.blur_to_apply(), Some(true));
    app.applied_blur = Some(true);
    assert_eq!(app.blur_to_apply(), None);
}

#[test]
fn presets_restyle_but_keep_window_settings() {
    let gallery = presets();
    assert_eq!(gallery[0].0, "Default");
    assert_eq!(gallery[1].0, "Sakura");
    let mut t = Theme::default(); // borderless
    t.window_opacity = 100;
    t.blur = true;
    t.row_stripes = false;
    t.background_image = String::from("C:/pictures/desk.png");
    t.apply_palette(&gallery[1].1);
    assert_eq!(t.accent, [178, 88, 118], "the palette comes from the preset");
    assert_eq!(t.palette().accent, gallery[1].1.accent);
    assert!(t.borderless, "the window-border choice is yours to keep");
    assert_eq!(t.window_opacity, 100, "a preset never touches opacity");
    assert!(t.blur);
    assert!(!t.row_stripes);
    assert_eq!(t.background_image, "C:/pictures/desk.png");
}

#[test]
fn opacity_percent_round_trips() {
    assert_eq!(opacity_percent(255), 100);
    assert_eq!(opacity_percent(0), 30);
    assert_eq!(opacity_percent(128), 50);
    assert_eq!(opacity_from_percent(100), 255);
    assert_eq!(opacity_from_percent(30), 77);
    assert_eq!(opacity_from_percent(50), 128);
    for pct in 30..=100u8 {
        assert_eq!(opacity_percent(opacity_from_percent(pct)), pct);
        // the float formulas these integers stand for
        let f = (pct as f32 * 2.55).round().min(255.0) as u8;
        assert_eq!(opacity_from_percent(pct), f);
    }
    for o in 0..=255u8 {
        let f = (o as f32 / 2.55).round().clamp(30.0, 100.0) as u8;
        assert_eq!(opacity_percent(o), f);
    }
}

#[test]
fn panels_start_closed_and_toggle() {
    let mut p = ThemePanel::new();
    assert!(!p.open);
    p.toggle();
    assert!(p.open);
    assert!(!ThemeWindow::new().open);
    assert_eq!(CaptionIcon::for_maximize_button(true), CaptionIcon::Restore);
    assert_eq!(CaptionIcon::for_maximize_button(false), CaptionIcon::Maximize);
}

#[test]
fn config_file_frames_the_text_with_its_header() {
    let file = ConfigFile::new(String::from("x/config.toml"));
    assert_eq!(file.path(), "x/config.toml");
    let text = file.file_text("open_settings_on_launch = true\n");
    assert!(text.starts_with("# PastaHandler config"), "header comment present");
    assert_eq!(text, format!("{HEADER}\nopen_settings_on_launch = true\n"));
}
