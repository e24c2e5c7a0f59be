//! Verified core of Tidy Cleaner: parsing, formatting, selection and
//! validation logic for a Linux system cleaner and manager.

pub mod text;
pub mod app;
pub mod applications;
pub mod paths;
pub mod settings;
pub mod split;
pub mod numfmt;
pub mod sort;
pub mod cleanup;
pub mod filesystem;
pub mod startup;
pub mod system;
pub mod theme;
pub mod keyed;
pub mod localization;
pub mod logging;
