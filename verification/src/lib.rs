//! Pasta Handler: hotkey-to-clipboard snippets. This crate holds the
//! core rules: the config model, hotkey validation and registration,
//! theme presets, the resident's reload rules, the settings save path and
//! the snippet table's capture rules. The binary around it lives in app/.

pub mod clipboard;
pub mod config;
pub mod error;
pub mod hotkeys;
pub mod logging;
pub mod resident;
pub mod settings;
pub mod text;
pub mod theme;
