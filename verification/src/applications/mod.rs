//! Installed applications: discovery through the package managers and
//! desktop entries, filtering, paging, shortcuts and removal.

pub mod aur;
pub mod desktop_entries;
pub mod dpkg;
pub mod flatpak;
pub mod manager;
pub mod models;
pub mod pacman;
pub mod polkit;
pub mod rpm;
pub mod service;
pub mod snap;
pub mod traits;
pub mod ui_bridge;
