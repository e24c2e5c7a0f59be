//! User preferences and the application's own autostart entry.

pub mod autostart;
pub mod models;
pub mod storage;
pub mod ui_bridge;

pub use autostart::AppAutostartManager;
pub use models::AppSettings;
pub use storage::SettingsStorage;
