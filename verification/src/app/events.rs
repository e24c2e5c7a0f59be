//! Events the interface raises.

use vstd::prelude::*;
use crate::localization::loader::Language;
use crate::theme::ThemeMode;

verus! {

/// Something the user asked for.
#[derive(Debug, Clone, Copy, PartialEq, Eq, Structural)]
pub enum AppEvent {
    Navigate(i32),
    ChangeTheme(ThemeMode),
    ChangeLanguage(Language),
    RefreshData,
    OpenLogs,
}

} // verus!
