//! User-interface state and text that do not depend on the terminal: the
//! search state and filter, the status line, the file list, popups and the
//! preview pane.
pub mod layout;
pub mod preview_pane;
pub mod search;
pub mod status;
