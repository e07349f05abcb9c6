//! Naming and report rendering for a submodule helper tool.
//!
//! Everything here is pure: the caller gathers facts about a repository
//! (submodule names, paths, whether they are initialised, their changes)
//! and the library decides what text is shown, and with what emphasis.
pub mod name;
pub mod report;
pub mod style;
pub mod target;

pub use name::format_name;
pub use report::{
    change_report, classify, condition_word, display_change, display_name, initialized_line,
    listing_line, status_line, Change, Condition, EntryState,
};
pub use style::{Emphasis, Line, Span, Tint};
pub use target::{clone_target, clone_target_from, TargetError};
