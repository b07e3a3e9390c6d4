//! Parsed combos and the OS listener. Only this module builds a
//! `ParsedHotKey` (through `parse_hotkey`) or calls the listener, so every
//! combo handed to the OS is one that was parsed from text, and every call
//! made to the OS is on record.

use global_hotkey::hotkey::HotKey;
use global_hotkey::GlobalHotKeyManager;
use vstd::prelude::*;

use super::combo_id;

verus! {

#[verifier::external_type_specification]
#[verifier::external_body]
pub struct ExHotKey(HotKey);

#[verifier::external_type_specification]
#[verifier::external_body]
pub struct ExGlobalHotKeyManager(GlobalHotKeyManager);

/// A parsed combo together with its id. Only `parse_hotkey` builds one, so
/// the id is always the one global-hotkey gives the combo it carries.
#[derive(Debug, Clone, Copy)]
pub struct ParsedHotKey {
    hotkey: HotKey,
    id: u32,
}

impl ParsedHotKey {
    /// The combo's id: the value the OS's hotkey events carry.
    pub closed spec fn combo(&self) -> u32 {
        self.id
    }

    pub fn id(&self) -> (r: u32)
        ensures
            r == self.combo(),
    {
        self.id
    }
}

/// `HotKey::from_str` (global-hotkey): parses `text` as a combo such as
/// "ctrl+alt+Digit1" and reads the parsed key's `id` field. Claimed: the
/// result is present exactly when `combo_id` says the text parses, and then
/// carries that id.
#[verifier::external_body]
pub(crate) fn parse_hotkey(text: &str) -> (r: Option<ParsedHotKey>)
    ensures
        r is Some <==> combo_id(text@) is Some,
        r matches Some(p) ==> combo_id(text@) == Some(p.combo()),
{
    match text.parse::<HotKey>() {
        Ok(hotkey) => Some(ParsedHotKey { hotkey, id: hotkey.id }),
        Err(_) => None,
    }
}

/// `GlobalHotKeyManager::new`: starts the platform listener. Nothing is
/// claimed of the outcome (it depends on the OS).
pub assume_specification[ GlobalHotKeyManager::new ]() -> std::result::Result<
    GlobalHotKeyManager,
    global_hotkey::Error,
>;

/// One call made to the OS listener, by the id of the combo handed to it.
pub enum OsCall {
    Register(u32),
    Release(u32),
}

/// The OS listener together with the record of every call made to it.
pub struct OsListener {
    manager: GlobalHotKeyManager,
    calls: Ghost<Seq<OsCall>>,
}

impl OsListener {
    /// Every call made to the listener, in order.
    pub closed spec fn calls(&self) -> Seq<OsCall> {
        self.calls@
    }

    /// Starts the listener; nothing has been asked of it yet.
    pub fn start() -> (r: Result<OsListener, global_hotkey::Error>)
        ensures
            r matches Ok(l) ==> l.calls() == Seq::<OsCall>::empty(),
    {
        match GlobalHotKeyManager::new() {
            Ok(manager) => Ok(OsListener { manager, calls: Ghost(Seq::empty()) }),
            Err(e) => Err(e),
        }
    }

    /// `GlobalHotKeyManager::register` on the parsed combo. Claimed: the call
    /// joins the record. Nothing is claimed of the outcome: another program
    /// may hold the combo.
    #[verifier::external_body]
    pub(crate) fn register(&mut self, p: &ParsedHotKey) -> (r: Result<(), global_hotkey::Error>)
        ensures
            final(self).calls() == old(self).calls().push(OsCall::Register(p.combo())),
    {
        self.manager.register(p.hotkey)
    }

    /// `GlobalHotKeyManager::unregister` on the parsed combo. Claimed: the
    /// call joins the record. Nothing is claimed of the outcome.
    #[verifier::external_body]
    pub(crate) fn release(&mut self, p: &ParsedHotKey) -> (r: Result<(), global_hotkey::Error>)
        ensures
            final(self).calls() == old(self).calls().push(OsCall::Release(p.combo())),
    {
        self.manager.unregister(p.hotkey)
    }
}

} // verus!
