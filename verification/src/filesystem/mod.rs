//! Locations of user directories and the rules that keep deletion away
//! from system paths.

pub mod dialog;
pub mod safety;
pub mod xdg;
