//! Verified core of Fennec, a menu-bar writing assistant: the settings, the
//! prompt for each action, the steps of an action, the action menu, the
//! in-app log, the escaping of AppleScript literals, and the decisions of the
//! tap-to-polish helper.
pub mod ai;
pub mod ax;
pub mod config;
pub mod flow;
pub mod log;
pub mod models;
pub mod prompt;
pub mod script;
pub mod session;
pub mod shortcuts;
pub mod tap;
pub mod text;
