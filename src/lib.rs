//! Routing URLs to browsers.
//!
//! A configuration lists browsers and pattern rules. The dispatch engine
//! finds the rules that a URL matches, lets the user order a rule's
//! candidates when there are several, launches them in turn with fallback to
//! the next rule and finally to the default browser, and reports failed
//! launches. The daemon session serves dispatches against one shared
//! configuration and replaces it wholesale on reload; its watcher turns
//! bursts of file events into single reloads.
pub mod text;
pub mod pattern;
pub mod config;
pub mod notify;
pub mod dispatch;
pub mod daemon;
pub mod client;
pub mod dialog;
pub mod cli;
