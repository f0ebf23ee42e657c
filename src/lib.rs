//! A keyboard-driven switcher over a persisted list of project directories:
//! the list's stored form, the session that moves a cursor over it and edits
//! it, and the rules that classify a chosen project and pick its build
//! command.
pub mod detect;
pub mod dispatch;
pub mod project;
pub mod session;
pub mod store;
