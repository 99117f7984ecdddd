//! A typing tutor for Inuktitut syllabics on the Canadian `ca(ike)` keyboard
//! layout: the key table, the graded lessons, the practice state machine,
//! its key bindings, the progress file format, and what the screen shows.

pub mod layout;
pub mod lessons;
pub mod app;
pub mod text;
pub mod save;
pub mod controls;
pub mod ui;
