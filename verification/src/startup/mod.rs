//! Applications started with the desktop session (XDG autostart).

pub mod desktop;
pub mod manager;
pub mod models;
pub mod roundtrip;
pub mod scanner;
pub mod ui_bridge;
