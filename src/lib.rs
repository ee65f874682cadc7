//! Layout geometry for a code-editor view, and the records that persist a
//! workspace's pane layout.

pub mod cursor;
pub mod diff_hunks;
pub mod display;
pub mod frame;
pub mod highlight;
pub mod interaction;
pub mod invisibles;
pub mod line_numbers;
pub mod metrics;
pub mod overlay;
pub mod position;
pub mod scroll;
pub mod selection;
pub mod workspace_model;
