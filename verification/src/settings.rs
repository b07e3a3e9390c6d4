//! The settings process's state and its save path. Every committed edit is
//! validated before it is written, so the resident never sees an invalid
//! config; an activation that caused a conflict is rolled back so the rest
//! of the draft still saves.

pub mod chrome;
pub mod header;
pub mod snippet_table;
pub mod style;
pub mod theme_panel;
pub mod theme_window;

use vstd::prelude::*;
use vstd::string::*;

use crate::config::{Config, ConfigFile, ConfigView, Snippet, SnippetView};
use crate::error::AppError;
use crate::hotkeys::{all_valid, first_violation, parse_all, rejection_message};
use crate::theme::ThemeView;
use self::header::HeaderOutput;
use self::snippet_table::{table_ok, SnippetTable};
use self::theme_panel::ThemePanel;

verus! {

/// What the save path asks of the binary after a commit.
pub enum CommitPlan {
    /// Write the draft to the config file; on success the error line shows
    /// the note (none, or the rollback explanation).
    Write(Option<String>),
    /// Leave the file untouched: its last good state stands.
    Keep,
}

/// The draft's snippets with row `i` switched off.
pub open spec fn deactivated(snips: Seq<SnippetView>, i: int) -> Seq<SnippetView> {
    snips.update(i, SnippetView { active: false, ..snips[i] })
}

/// The user-facing line of a rejected draft (as `AppError::message` renders it).
pub open spec fn conflict_line(snips: Seq<SnippetView>, i: int) -> Seq<char> {
    "config error: "@ + rejection_message(snips, i)
}

/// Rolling back an activation switches that one row off and changes nothing
/// else: the row keeps its text and its combo, and every other row is as it
/// was.
pub proof fn law_rollback_only_switches_off(snips: Seq<SnippetView>, i: int)
    requires
        0 <= i < snips.len(),
    ensures
        deactivated(snips, i).len() == snips.len(),
        deactivated(snips, i)[i].text == snips[i].text,
        deactivated(snips, i)[i].hotkey == snips[i].hotkey,
        !deactivated(snips, i)[i].active,
        forall|j: int| 0 <= j < snips.len() && j != i ==> #[trigger] deactivated(snips, i)[j] == snips[j],
{
}

pub struct SettingsApp {
    pub config_file: ConfigFile,
    pub draft: Config,
    pub error: Option<String>,
    pub theme_panel: ThemePanel,
    pub table: SnippetTable,
    /// Last focus-outline value pushed to the window manager.
    pub applied_outline: Option<bool>,
    /// Last blur value pushed to the window manager.
    pub applied_blur: Option<bool>,
}

fn deactivate(snippets: &mut Vec<Snippet>, i: usize)
    requires
        i < old(snippets)@.len(),
    ensures
        final(snippets)@.map_values(|s: Snippet| s@) == deactivated(
            old(snippets)@.map_values(|s: Snippet| s@),
            i as int,
        ),
{
    let mut s = snippets.remove(i);
    s.active = false;
    snippets.insert(i, s);
    assert(snippets@.map_values(|s: Snippet| s@) =~= deactivated(
        old(snippets)@.map_values(|s: Snippet| s@),
        i as int,
    ));
}

impl SettingsApp {
    pub fn new(config_file: ConfigFile, draft: Config) -> (r: SettingsApp)
        ensures
            r.config_file == config_file,
            r.draft@ == draft@,
            r.error is None,
            !r.theme_panel.open,
            r.table.capturing_row() is None,
            r.applied_outline is None,
            r.applied_blur is None,
    {
        SettingsApp {
            config_file,
            draft,
            error: None,
            theme_panel: ThemePanel::new(),
            table: SnippetTable::new(),
            applied_outline: None,
            applied_blur: None,
        }
    }

    /// The save path, first half: validate, and on a conflict caused by this
    /// commit's activation roll that activation back. Returns whether the
    /// draft is to be written; `commit_written` finishes once it has been.
    pub fn commit(&mut self, just_activated: Option<usize>) -> (plan: CommitPlan)
        requires
            just_activated matches Some(ai) ==> ai < old(self).draft.snippets.len() || all_valid(
                old(self).draft@.snippets,
            ),
        ensures
            final(self).config_file == old(self).config_file,
            final(self).theme_panel == old(self).theme_panel,
            final(self).table == old(self).table,
            final(self).applied_outline == old(self).applied_outline,
            final(self).applied_blur == old(self).applied_blur,
            final(self).draft@.theme == old(self).draft@.theme,
            final(self).draft@.open_settings_on_launch == old(self).draft@.open_settings_on_launch,
            table_ok(old(self).draft@.snippets) ==> table_ok(final(self).draft@.snippets),
            plan is Write ==> all_valid(final(self).draft@.snippets),
            all_valid(old(self).draft@.snippets) ==> (plan matches CommitPlan::Write(None)
                && final(self).draft@ == old(self).draft@ && final(self).error is None),
            !all_valid(old(self).draft@.snippets) ==> exists|i: int|
                first_violation(old(self).draft@.snippets, i) && ({
                    let line = conflict_line(old(self).draft@.snippets, i);
                    match just_activated {
                        None => {
                            &&& plan is Keep
                            &&& final(self).draft@ == old(self).draft@
                            &&& (final(self).error matches Some(e) && e@ == line)
                        },
                        Some(ai) => {
                            let rolled = deactivated(old(self).draft@.snippets, ai as int);
                            &&& final(self).draft@.snippets == rolled
                            &&& if all_valid(rolled) {
                                &&& (plan matches CommitPlan::Write(Some(note)) && note@ == line
                                    + " \u{2014} snippet saved inactive"@)
                                &&& final(self).error == old(self).error
                            } else {
                                &&& plan is Keep
                                &&& (final(self).error matches Some(e) && e@ == line)
                            }
                        },
                    }
                }),
    {
        match parse_all(&self.draft) {
            Ok(_) => {
                self.error = None;
                CommitPlan::Write(None)
            },
            Err(e) => {
                let line = e.message();
                match just_activated {
                    Some(ai) => {
                        deactivate(&mut self.draft.snippets, ai);
                        match parse_all(&self.draft) {
                            Ok(_) => {
                                let mut note = line;
                                note.append(" \u{2014} snippet saved inactive");
                                CommitPlan::Write(Some(note))
                            },
                            Err(_) => {
                                self.error = Some(line);
                                CommitPlan::Keep
                            },
                        }
                    },
                    None => {
                        self.error = Some(line);
                        CommitPlan::Keep
                    },
                }
            },
        }
    }

    /// The save path, second half: the outcome of writing the draft. A
    /// failed write shows its error; a successful one shows the plan's note.
    pub fn commit_written(&mut self, note: Option<String>, written: Result<(), String>)
        ensures
            final(self).config_file == old(self).config_file,
            final(self).theme_panel == old(self).theme_panel,
            final(self).table == old(self).table,
            final(self).applied_outline == old(self).applied_outline,
            final(self).applied_blur == old(self).applied_blur,
            final(self).draft@ == old(self).draft@,
            written matches Err(w) ==> final(self).error == Some(w),
            written is Ok ==> final(self).error == note,
    {
        match written {
            Ok(()) => {
                self.error = note;
            },
            Err(w) => {
                self.error = Some(w);
            },
        }
    }

    /// Applies the header's events: a new blank, inactive snippet (not yet
    /// saved), and the theme drawer toggle.
    pub fn apply_header(&mut self, out: &HeaderOutput)
        ensures
            out.add_snippet ==> final(self).draft@.snippets == old(self).draft@.snippets.push(
                SnippetView { text: Seq::empty(), hotkey: Seq::empty(), active: false },
            ),
            !out.add_snippet ==> final(self).draft@.snippets == old(self).draft@.snippets,
            final(self).draft@.theme == old(self).draft@.theme,
            final(self).draft@.open_settings_on_launch == old(self).draft@.open_settings_on_launch,
            final(self).theme_panel.open == (old(self).theme_panel.open != out.toggle_theme),
            table_ok(old(self).draft@.snippets) ==> table_ok(final(self).draft@.snippets),
            final(self).config_file == old(self).config_file,
            final(self).table == old(self).table,
            final(self).applied_outline == old(self).applied_outline,
            final(self).applied_blur == old(self).applied_blur,
            final(self).error == old(self).error,
    {
        if out.add_snippet {
            self.draft.snippets.push(
                Snippet { text: String::new(), hotkey: String::new(), active: false },
            );
            assert(self.draft@.snippets =~= old(self).draft@.snippets.push(
                SnippetView { text: Seq::empty(), hotkey: Seq::empty(), active: false },
            ));
        }
        if out.toggle_theme {
            self.theme_panel.open = !self.theme_panel.open;
        }
    }

    /// The focus-outline value to push to the window, when it differs from
    /// the last one pushed (apply on change, not per frame).
    pub fn outline_to_apply(&self) -> (r: Option<bool>)
        ensures
            r == (if self.applied_outline == Some(self.draft.theme.focus_outline) {
                None
            } else {
                Some(self.draft.theme.focus_outline)
            }),
    {
        let want = self.draft.theme.focus_outline;
        match self.applied_outline {
            Some(v) => if v == want {
                None
            } else {
                Some(want)
            },
            None => Some(want),
        }
    }

    /// The blur value to push to the window, when it differs from the last
    /// one pushed.
    pub fn blur_to_apply(&self) -> (r: Option<bool>)
        ensures
            r == (if self.applied_blur == Some(self.draft.theme.blur) {
                None
            } else {
                Some(self.draft.theme.blur)
            }),
    {
        let want = self.draft.theme.blur;
        match self.applied_blur {
            Some(v) => if v == want {
                None
            } else {
                Some(want)
            },
            None => Some(want),
        }
    }
}

} // verus!
