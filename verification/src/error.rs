//! The library's error type. Display text comes from `message()`, which
//! reads as the binary's error lines do.

use vstd::prelude::*;
use vstd::string::*;

verus! {

#[verifier::external_type_specification]
#[verifier::external_body]
pub struct ExHotkeyError(global_hotkey::Error);

#[derive(Debug)]
pub enum AppError {
    /// The OS refused a hotkey operation (global-hotkey's error).
    Hotkey(global_hotkey::Error),
    /// Config-content problems in the user's own data: bad hotkey strings,
    /// duplicate active combos. The message is user-facing.
    Config(String),
    /// The settings window itself failed to launch or run.
    Gui(String),
}

pub type Result<T> = core::result::Result<T, AppError>;

impl AppError {
    /// The user-facing line for this error.
    pub fn message(&self) -> (r: String)
        ensures
            self matches AppError::Config(m) ==> r@ == "config error: "@ + m@,
            self matches AppError::Gui(m) ==> r@ == "settings window error: "@ + m@,
            self matches AppError::Hotkey(e) ==> exists|t: String|
                to_string_from_display_ensures::<global_hotkey::Error>(e, t) && r@
                    == "hotkey error: "@ + t@,
    {
        match self {
            AppError::Config(m) => {
                let mut r = String::from_str("config error: ");
                r.append(m.as_str());
                r
            },
            AppError::Gui(m) => {
                let mut r = String::from_str("settings window error: ");
                r.append(m.as_str());
                r
            },
            AppError::Hotkey(e) => {
                let t = e.to_string();
                let mut r = String::from_str("hotkey error: ");
                r.append(t.as_str());
                r
            },
        }
    }
}

} // verus!
