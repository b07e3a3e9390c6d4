//! The snippet table's rules: a row without a combo can never be active,
//! and the hotkey capture state machine that turns a key press into a combo.
//! Widgets and painting live in the binary; it hands this module each key
//! press as plain values.

use vstd::prelude::*;
use vstd::string::*;

use crate::config::{is_unbound, Snippet, SnippetView};
use crate::hotkeys::{combo_id, parse_combo};
use crate::text::{is_blank, is_blank_str, is_white_space, same_text};

verus! {

/// The modifier keys held during a key press.
#[derive(Debug, Clone, Copy, PartialEq, Eq, Structural)]
pub struct Modifiers {
    pub ctrl: bool,
    pub alt: bool,
    pub shift: bool,
}

/// One key press seen while a row is capturing: the key's name as the UI
/// toolkit reports it ("2", "A", "F5", "Space", "Escape", "ShiftLeft"), and
/// the modifiers held with it.
pub struct KeyPress {
    pub name: String,
    pub modifiers: Modifiers,
}

/// The names of the modifier keys themselves: during capture such a press
/// means "chord in progress", never "this is the key".
pub open spec fn is_modifier_name(name: Seq<char>) -> bool {
    ||| name == "ShiftLeft"@
    ||| name == "ShiftRight"@
    ||| name == "ControlLeft"@
    ||| name == "ControlRight"@
    ||| name == "AltLeft"@
    ||| name == "AltRight"@
    ||| name == "SuperLeft"@
    ||| name == "SuperRight"@
}

pub fn is_modifier_key(name: &str) -> (r: bool)
    ensures
        r == is_modifier_name(name@),
{
    same_text(name, "ShiftLeft") || same_text(name, "ShiftRight") || same_text(name, "ControlLeft")
        || same_text(name, "ControlRight") || same_text(name, "AltLeft") || same_text(
        name,
        "AltRight",
    ) || same_text(name, "SuperLeft") || same_text(name, "SuperRight")
}

/// What the table reports to the save path after a frame.
#[derive(Debug, Clone, Copy)]
#[must_use]
pub struct TableOutput {
    /// Toggle flip, capture success, text-edit blur, or delete: anything persistable.
    pub committed: bool,
    /// Row activated this frame; feeds the save path's conflict rollback.
    pub just_activated: Option<usize>,
}

/// The tone a capture prompt is drawn in.
#[derive(Debug, Clone, Copy, PartialEq, Eq, Structural)]
pub enum PromptTone {
    Accent,
    Danger,
}

pub struct SnippetTable {
    /// Row currently listening for a hotkey combo, if any.
    capturing: Option<usize>,
    /// Row whose delete button was hovered last frame (drives its red tint).
    hovered_delete: Option<usize>,
    /// Why the last capture key press was rejected; replaces the prompt so
    /// the feedback appears where the user is looking.
    capture_hint: Option<&'static str>,
}

/// Whether a modifier set may anchor a global hotkey. Ctrl or Alt is
/// required; Shift may only ride along (shift plus a printable key is
/// typing, and a registered combo is swallowed system-wide).
pub open spec fn qualifies(m: Modifiers) -> bool {
    m.ctrl || m.alt
}

/// Ctrl or Alt anchors a combo, and Shift never decides: a press qualifies
/// with Ctrl held, with Alt held, never with neither, and adding or dropping
/// Shift leaves the answer as it was.
pub proof fn law_shift_never_decides(m: Modifiers)
    ensures
        qualifies(m) == qualifies((Modifiers { shift: !m.shift, ..m })),
        m.ctrl ==> qualifies(m),
        m.alt ==> qualifies(m),
        !m.ctrl && !m.alt ==> !qualifies(m),
{
}

/// The combo text built from held modifiers and a key name.
pub open spec fn combo_text(m: Modifiers, key: Seq<char>) -> Seq<char> {
    (if m.ctrl {
        "ctrl+"@
    } else {
        Seq::empty()
    }) + (if m.alt {
        "alt+"@
    } else {
        Seq::empty()
    }) + (if m.shift {
        "shift+"@
    } else {
        Seq::empty()
    }) + key
}

pub fn combo_qualifies(modifiers: &Modifiers) -> (r: bool)
    ensures
        r == qualifies(*modifiers),
        r == (modifiers.ctrl || modifiers.alt),
{
    modifiers.ctrl || modifiers.alt
}

/// Builds a combo string from the held modifiers and the key's name; the
/// combo parser accepts the UI toolkit's key names directly.
pub fn combo_from(modifiers: &Modifiers, key: &str) -> (r: String)
    ensures
        r@ == combo_text(*modifiers, key@),
{
    let mut combo = String::new();
    if modifiers.ctrl {
        combo.append("ctrl+");
    }
    if modifiers.alt {
        combo.append("alt+");
    }
    if modifiers.shift {
        combo.append("shift+");
    }
    combo.append(key);
    assert(combo@ =~= combo_text(*modifiers, key@));
    combo
}

/// A row's activity after the table enforces "an unbound snippet can never
/// be active".
pub open spec fn synced(s: SnippetView) -> SnippetView {
    if is_unbound(s) {
        SnippetView { active: false, ..s }
    } else {
        s
    }
}

/// Enforces that an unbound snippet is inactive; returns whether the row
/// may be activated (it has a combo).
pub fn sync_activity(snippet: &mut Snippet) -> (can_activate: bool)
    ensures
        can_activate == !is_unbound(old(snippet)@),
        final(snippet)@ == synced(old(snippet)@),
{
    let can_activate = !is_blank_str(snippet.hotkey.as_str());
    if !can_activate {
        snippet.active = false;
    }
    can_activate
}

/// A row is in order unless it is unbound and active.
pub open spec fn row_ok(s: SnippetView) -> bool {
    !(is_unbound(s) && s.active)
}

/// Every row of the table is in order: no unbound snippet is active.
pub open spec fn table_ok(snips: Seq<SnippetView>) -> bool {
    forall|i: int| 0 <= i < snips.len() ==> row_ok(#[trigger] snips[i])
}

/// An on/off switch after a frame: it flips when clicked, unless disabled.
pub open spec fn switch_after(on: bool, clicked: bool, enabled: bool) -> bool {
    if clicked && enabled {
        !on
    } else {
        on
    }
}

/// The switch rule of the settings toggles.
pub fn toggled(on: bool, clicked: bool, enabled: bool) -> (r: bool)
    ensures
        r == switch_after(on, clicked, enabled),
{
    if clicked && enabled {
        !on
    } else {
        on
    }
}

/// A row's toggle step keeps an unbound row inactive: `sync_activity`
/// switches the row off and reports it may not be activated, and a switch
/// that is not enabled never flips, whatever the click.
pub proof fn law_row_toggle_keeps_unbound_inactive(s: SnippetView, clicked: bool)
    ensures
        row_ok(
            SnippetView {
                active: switch_after(synced(s).active, clicked, !is_unbound(s)),
                ..synced(s)
            },
        ),
{
}

/// A captured combo starts with "ctrl+" or "alt+", so it is never blank.
proof fn lemma_combo_is_bound(m: Modifiers, key: Seq<char>)
    requires
        qualifies(m),
    ensures
        !is_blank(combo_text(m, key)),
{
    reveal_strlit("ctrl+");
    reveal_strlit("alt+");
    let c = combo_text(m, key);
    if m.ctrl {
        assert(c[0] == 'c');
    } else {
        assert(c[0] == 'a');
    }
    assert(!is_white_space(c[0]));
}

impl TableOutput {
    pub fn new() -> (r: TableOutput)
        ensures
            !r.committed,
            r.just_activated is None,
    {
        TableOutput { committed: false, just_activated: None }
    }

    /// A row's toggle changed: persist it, and remember the row when it was
    /// switched on.
    pub fn record_toggle(&mut self, row: usize, was_active: bool, now_active: bool)
        ensures
            final(self).committed,
            final(self).just_activated == (if !was_active && now_active {
                Some(row)
            } else {
                old(self).just_activated
            }),
    {
        self.committed = true;
        if !was_active && now_active {
            self.just_activated = Some(row);
        }
    }
}

impl SnippetTable {
    pub closed spec fn capturing_row(&self) -> Option<usize> {
        self.capturing
    }

    pub closed spec fn hint(&self) -> Option<Seq<char>> {
        match self.capture_hint {
            Some(h) => Some(h@),
            None => None,
        }
    }

    pub closed spec fn hovered_delete_row(&self) -> Option<usize> {
        self.hovered_delete
    }

    pub fn new() -> (r: Self)
        ensures
            r.capturing_row() is None,
            r.hint() is None,
            r.hovered_delete_row() is None,
    {
        SnippetTable { capturing: None, hovered_delete: None, capture_hint: None }
    }

    pub fn capturing(&self) -> (r: Option<usize>)
        ensures
            r == self.capturing_row(),
    {
        self.capturing
    }

    /// Clicking a row's hotkey button arms capture for that row with a
    /// fresh prompt.
    pub fn arm_capture(&mut self, row: usize)
        ensures
            final(self).capturing_row() == Some(row),
            final(self).hint() is None,
            final(self).hovered_delete_row() == old(self).hovered_delete_row(),
    {
        self.capturing = Some(row);
        self.capture_hint = None;
    }

    /// Clicking the button again cancels capture.
    pub fn cancel_capture(&mut self)
        ensures
            final(self).capturing_row() is None,
            final(self).hint() == old(self).hint(),
            final(self).hovered_delete_row() == old(self).hovered_delete_row(),
    {
        self.capturing = None;
    }

    /// The prompt shown in the capturing row's button: the rejection hint
    /// if there is one (in the danger tone), else what to do next.
    pub fn prompt(&self, modifier_held: bool) -> (r: (&'static str, PromptTone))
        ensures
            self.hint() matches Some(h) ==> r.0@ == h && r.1 == PromptTone::Danger,
            self.hint() is None && modifier_held ==> r.0@ == "waiting for next key\u{2026}"@
                && r.1 == PromptTone::Accent,
            self.hint() is None && !modifier_held ==> r.0@ == "press keys\u{2026}"@ && r.1
                == PromptTone::Accent,
    {
        match self.capture_hint {
            Some(hint) => (hint, PromptTone::Danger),
            None => {
                if modifier_held {
                    ("waiting for next key\u{2026}", PromptTone::Accent)
                } else {
                    ("press keys\u{2026}", PromptTone::Accent)
                }
            },
        }
    }

    /// Feeds one key press to the capturing row. Escape cancels; a lone
    /// modifier is a chord in progress; a press without Ctrl or Alt is
    /// rejected ("hold Ctrl or Alt"); a combo the parser accepts becomes the
    /// row's hotkey and activates the row (capture implies intent to use);
    /// any other key is rejected ("unsupported key"). Returns true when the
    /// capture is over (the remaining presses of the frame are skipped).
    pub fn capture_key(
        &mut self,
        snippet: &mut Snippet,
        row: usize,
        key: &KeyPress,
        out: &mut TableOutput,
    ) -> (done: bool)
        ensures
            final(self).hovered_delete_row() == old(self).hovered_delete_row(),
            row_ok(old(snippet)@) ==> row_ok(final(snippet)@),
            key.name@ == "Escape"@ ==> done && final(self).capturing_row() is None && final(snippet)@
                == old(snippet)@ && *final(out) == *old(out) && final(self).hint() == old(self).hint(),
            key.name@ != "Escape"@ && is_modifier_name(key.name@) ==> !done && final(self).hint() is None
                && final(self).capturing_row() == old(self).capturing_row() && final(snippet)@
                == old(snippet)@ && *final(out) == *old(out),
            key.name@ != "Escape"@ && !is_modifier_name(key.name@) && !qualifies(key.modifiers) ==> !done && final(self).hint()
                == Some("hold Ctrl or Alt"@) && final(self).capturing_row() == old(
                self,
            ).capturing_row() && final(snippet)@ == old(snippet)@ && *final(out) == *old(out),
            key.name@ != "Escape"@ && !is_modifier_name(key.name@) && qualifies(key.modifiers) ==> {
                let combo = combo_text(key.modifiers, key.name@);
                if combo_id(combo) is Some {
                    &&& done
                    &&& final(snippet)@ == SnippetView {
                        hotkey: combo,
                        active: true,
                        ..old(snippet)@
                    }
                    &&& final(self).capturing_row() is None
                    &&& final(self).hint() == old(self).hint()
                    &&& final(out).committed
                    &&& final(out).just_activated == Some(row)
                } else {
                    &&& !done
                    &&& final(self).hint() == Some("unsupported key"@)
                    &&& final(self).capturing_row() == old(self).capturing_row()
                    &&& final(snippet)@ == old(snippet)@
                    &&& *final(out) == *old(out)
                }
            },
    {
        if same_text(key.name.as_str(), "Escape") {
            self.capturing = None;
            return true;
        }
        if is_modifier_key(key.name.as_str()) {
            self.capture_hint = None;
            return false;
        }
        if !combo_qualifies(&key.modifiers) {
            self.capture_hint = Some("hold Ctrl or Alt");
            return false;
        }
        let combo = combo_from(&key.modifiers, key.name.as_str());
        proof {
            lemma_combo_is_bound(key.modifiers, key.name@);
        }
        if parse_combo(combo.as_str()).is_some() {
            snippet.hotkey = combo;
            snippet.active = true;
            self.capturing = None;
            out.committed = true;
            out.just_activated = Some(row);
            return true;
        }
        self.capture_hint = Some("unsupported key");
        false
    }

    /// Whether a row's delete icon takes the danger tint (it was hovered
    /// last frame).
    pub fn delete_tinted(&self, row: usize) -> (r: bool)
        ensures
            r == (self.hovered_delete_row() == Some(row)),
    {
        match self.hovered_delete {
            Some(h) => h == row,
            None => false,
        }
    }

    /// Applies the frame's deferred edits: a clicked delete removes that row
    /// and is persisted; the hovered delete button tints next frame.
    pub fn finish_frame(
        &mut self,
        snippets: &mut Vec<Snippet>,
        delete: Option<usize>,
        hovered_now: Option<usize>,
        out: &mut TableOutput,
    )
        requires
            delete matches Some(i) ==> i < old(snippets)@.len(),
        ensures
            final(self).hovered_delete_row() == hovered_now,
            final(self).capturing_row() == old(self).capturing_row(),
            final(self).hint() == old(self).hint(),
            delete matches Some(i) ==> final(snippets)@ == old(snippets)@.remove(i as int)
                && final(out).committed && final(out).just_activated == old(out).just_activated,
            delete is None ==> final(snippets)@ == old(snippets)@ && *final(out) == *old(out),
            table_ok(old(snippets)@.map_values(|s: Snippet| s@)) ==> table_ok(
                final(snippets)@.map_values(|s: Snippet| s@),
            ),
    {
        let ghost before = snippets@.map_values(|s: Snippet| s@);
        match delete {
            Some(i) => {
                snippets.remove(i);
                out.committed = true;
                proof {
                    let after = snippets@.map_values(|s: Snippet| s@);
                    assert forall|k: int| 0 <= k < after.len() implies #[trigger] after[k] == (if k
                        < i {
                        before[k]
                    } else {
                        before[k + 1]
                    }) by {}
                    if table_ok(before) {
                        assert forall|k: int| 0 <= k < after.len() implies row_ok(#[trigger] after[k]) by {
                            if k < i {
                                assert(row_ok(before[k]));
                            } else {
                                assert(row_ok(before[k + 1]));
                            }
                        }
                    }
                }
            },
            None => {
                assert(snippets@.map_values(|s: Snippet| s@) == before);
            },
        }
        self.hovered_delete = hovered_now;
    }
}

} // verus!
