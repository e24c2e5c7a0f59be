//! Application state shared by the pages, and the interface texts.

pub mod events;
pub mod state;
pub mod ui_utils;

pub use events::AppEvent;
pub use state::AppState;
pub use ui_utils::{apply_theme, update_ui_strings};
