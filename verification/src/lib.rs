//! A verified navigation engine for a terminal file browser: the
//! session model and its invariant, the viewport controller, the
//! directory loader and filter, the roam path matcher, and the
//! key-event state machine. The terminal and the filesystem stay
//! outside: an event loop performs each requested action and hands the
//! outcome back through the `apply_` functions of `machine`.

pub mod chars;
pub mod entry;
pub mod format;
pub mod listing;
pub mod machine;
pub mod paths;
pub mod scroll;
pub mod state;
