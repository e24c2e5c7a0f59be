//! Finding and removing files that can safely be deleted.

pub mod analyzer;
pub mod cleaner;
pub mod models;
pub mod rules;
pub mod scanner;
pub mod service;
pub mod ui_bridge;
