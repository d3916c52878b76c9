//! Core logic of a desktop SQL client: the open-script tab manager and the
//! data rules of the settings dialog. The widget toolkit that displays tabs,
//! dialogs and lists lives outside this crate; it drives the manager by
//! sending requests and reacts to the notifications the manager returns.

pub mod scripts;
pub mod settings;
