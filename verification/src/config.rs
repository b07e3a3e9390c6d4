//! The config domain: snippets, the settings that travel with them, and the
//! file that stores them. The file on disk is also the channel between the
//! resident and settings processes; reading and writing it happen in the
//! binary, which hands this module plain values.

use vstd::prelude::*;
use vstd::string::*;

use crate::text::is_blank;
pub use crate::theme::{Theme, ThemeView};
use crate::theme::default_theme_spec;

verus! {

/// One text to paste and the combo that pastes it.
#[derive(Debug)]
pub struct Snippet {
    pub text: String,
    pub hotkey: String,
    /// Only active snippets register their hotkey.
    pub active: bool,
}

pub struct SnippetView {
    pub text: Seq<char>,
    pub hotkey: Seq<char>,
    pub active: bool,
}

impl View for Snippet {
    type V = SnippetView;

    open spec fn view(&self) -> SnippetView {
        SnippetView { text: self.text@, hotkey: self.hotkey@, active: self.active }
    }
}

/// A snippet with no combo (empty or white space only): never registered.
pub open spec fn is_unbound(s: SnippetView) -> bool {
    is_blank(s.hotkey)
}

#[derive(Debug)]
pub struct Config {
    pub snippets: Vec<Snippet>,
    pub open_settings_on_launch: bool,
    pub theme: Theme,
}

pub struct ConfigView {
    pub snippets: Seq<SnippetView>,
    pub open_settings_on_launch: bool,
    pub theme: ThemeView,
}

impl View for Config {
    type V = ConfigView;

    open spec fn view(&self) -> ConfigView {
        ConfigView {
            snippets: self.snippets@.map_values(|s: Snippet| s@),
            open_settings_on_launch: self.open_settings_on_launch,
            theme: self.theme@,
        }
    }
}

/// Snippets written before the `active` field existed load as active, so
/// old configs keep working after an upgrade.
pub fn default_active() -> (r: bool)
    ensures
        r,
{
    true
}

/// The comment block at the top of every saved config.
pub const HEADER: &'static str = "# PastaHandler config\n# Hotkey format: \"ctrl+alt+Digit1\" \u{2014} modifiers: ctrl, alt, shift, super (case-insensitive)\n# Full list of key names (Digit1, KeyQ, F5, ...):\n# https://docs.rs/global-hotkey/latest/global_hotkey/hotkey/enum.Code.html\n";

/// The sample config seeded on first run.
pub open spec fn init_config_spec() -> ConfigView {
    ConfigView {
        snippets: seq![
            SnippetView {
                text: "https://github.com/Kwuasimoto/PastaHandler"@,
                hotkey: "ctrl+alt+Digit1"@,
                active: true,
            },
        ],
        open_settings_on_launch: true,
        theme: default_theme_spec(),
    }
}

impl Snippet {
    /// Field-by-field equality.
    pub fn same_as(&self, other: &Snippet) -> (r: bool)
        ensures
            r == (self@ == other@),
    {
        let r = self.text == other.text && self.hotkey == other.hotkey && self.active
            == other.active;
        proof {
            if r {
                assert(self@.text =~= other@.text);
                assert(self@.hotkey =~= other@.hotkey);
            }
        }
        r
    }
}

impl Default for Config {
    fn default() -> (r: Self)
        ensures
            r@.snippets.len() == 0,
            !r@.open_settings_on_launch,
            r@.theme == default_theme_spec(),
    {
        Config { snippets: Vec::new(), open_settings_on_launch: false, theme: Theme::default() }
    }
}

impl Config {
    /// The first-run sample: one live snippet, settings opened on launch.
    pub fn init() -> (r: Config)
        ensures
            r@ == init_config_spec(),
    {
        let mut snippets: Vec<Snippet> = Vec::new();
        snippets.push(
            Snippet {
                text: String::from_str("https://github.com/Kwuasimoto/PastaHandler"),
                hotkey: String::from_str("ctrl+alt+Digit1"),
                active: true,
            },
        );
        let r = Config { open_settings_on_launch: true, theme: Theme::default(), snippets };
        assert(r@.snippets =~= init_config_spec().snippets);
        r
    }

    /// Field-by-field equality of two configs (what `==` means for them).
    pub fn same_as(&self, other: &Config) -> (r: bool)
        ensures
            r == (self@ == other@),
    {
        if self.snippets.len() != other.snippets.len() {
            assert(self@.snippets.len() != other@.snippets.len());
            return false;
        }
        let n: usize = self.snippets.len();
        let mut i: usize = 0;
        while i < n
            invariant
                n == self.snippets.len(),
                n == other.snippets.len(),
                0 <= i <= n,
                forall|k: int| 0 <= k < i ==> self@.snippets[k] == other@.snippets[k],
            decreases n - i,
        {
            if !self.snippets[i].same_as(&other.snippets[i]) {
                assert(self@.snippets[i as int] != other@.snippets[i as int]);
                return false;
            }
            i = i + 1;
        }
        let r = self.open_settings_on_launch == other.open_settings_on_launch
            && self.theme.same_as(&other.theme);
        proof {
            if r {
                assert(self@.snippets =~= other@.snippets);
            }
        }
        r
    }
}

/// Where the config lives, and the comment header every save carries. The
/// path is held as text; the binary builds the OS path from it.
pub struct ConfigFile {
    header: String,
    path: String,
}

impl ConfigFile {
    pub closed spec fn header_view(&self) -> Seq<char> {
        self.header@
    }

    pub closed spec fn path_view(&self) -> Seq<char> {
        self.path@
    }

    pub fn new(path: String) -> (r: ConfigFile)
        ensures
            r.header_view() == HEADER@,
            r.path_view() == path@,
    {
        ConfigFile { path, header: String::from_str(HEADER) }
    }

    /// The path given to `new`.
    pub fn path(&self) -> (r: &str)
        ensures
            r@ == self.path_view(),
    {
        self.path.as_str()
    }

    /// The full text a save writes: the header, a blank line, then the
    /// serialized config.
    pub fn file_text(&self, contents: &str) -> (r: String)
        ensures
            r@ == self.header_view() + "\n"@ + contents@,
    {
        let mut r = self.header.clone();
        r.append("\n");
        r.append(contents);
        r
    }
}

} // verus!
