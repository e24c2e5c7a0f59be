//! Colour theme selection.

use vstd::prelude::*;
use crate::text::{contains, lowercase, to_lowercase, vec_contains, vec_eq, vec_of};
use crate::system::disks::last_segment;

verus! {

/// The user's theme choice.
#[derive(Debug, Clone, Copy, PartialEq, Eq, Structural)]
pub enum ThemeMode {
    Dark,
    Light,
    System,
}

impl Default for ThemeMode {
    fn default() -> (r: Self)
        ensures
            r == ThemeMode::Dark,
    {
        ThemeMode::Dark
    }
}

/// The number a theme is stored and exchanged as.
pub open spec fn theme_code(m: ThemeMode) -> i32 {
    match m {
        ThemeMode::Dark => 0,
        ThemeMode::Light => 1,
        ThemeMode::System => 2,
    }
}

/// The theme a number stands for; unknown numbers mean `Dark`.
pub open spec fn theme_of_code(v: i32) -> ThemeMode {
    if v == 1 {
        ThemeMode::Light
    } else if v == 2 {
        ThemeMode::System
    } else {
        ThemeMode::Dark
    }
}

/// A hint names a dark scheme (`Some(true)`), a light one (`Some(false)`),
/// or neither, checked on its lowercase form, dark first.
pub open spec fn scheme_hint(s: Seq<char>) -> Option<bool> {
    if contains(lowercase(s), "dark"@) {
        Some(true)
    } else if contains(lowercase(s), "light"@) {
        Some(false)
    } else {
        None
    }
}

impl ThemeMode {
    pub fn to_i32(self) -> (r: i32)
        ensures
            r == theme_code(self),
    {
        match self {
            ThemeMode::Dark => 0,
            ThemeMode::Light => 1,
            ThemeMode::System => 2,
        }
    }

    pub fn from_i32(val: i32) -> (r: Self)
        ensures
            r == theme_of_code(val),
    {
        match val {
            1 => ThemeMode::Light,
            2 => ThemeMode::System,
            _ => ThemeMode::Dark,
        }
    }

    /// Whether the theme is dark; `System` follows what the desktop prefers.
    pub fn is_dark(&self, system_prefers_dark: bool) -> (r: bool)
        ensures
            r == match *self {
                ThemeMode::Dark => true,
                ThemeMode::Light => false,
                ThemeMode::System => system_prefers_dark,
            },
    {
        match self {
            ThemeMode::Dark => true,
            ThemeMode::Light => false,
            ThemeMode::System => system_prefers_dark,
        }
    }

    /// Reads a scheme hint such as `GTK_THEME` or the `color-scheme`
    /// setting: dark if its lowercase form contains "dark", light if it
    /// contains "light", undecided otherwise.
    pub fn scheme_hint(hint: &str) -> (r: Option<bool>)
        ensures
            r == scheme_hint(hint@),
    {
        let lower = vec_of(to_lowercase(hint).as_str());
        if vec_contains(&lower, &vec_of("dark")) {
            Some(true)
        } else if vec_contains(&lower, &vec_of("light")) {
            Some(false)
        } else {
            None
        }
    }

    /// Reads `COLORFGBG` (`"fg;bg"`): a background of `0` means dark;
    /// anything else leaves the question open.
    pub fn colorfgbg_hint(fgbg: &str) -> (r: Option<bool>)
        ensures
            r == (if last_segment(fgbg@, ';') == "0"@ {
                Some(true)
            } else {
                None
            }),
    {
        let v = vec_of(fgbg);
        let mut start = v.len();
        assert(v@.take(v.len() as int) =~= v@);
        assert(v@.subrange(v.len() as int, v.len() as int) =~= seq![]);
        while start > 0 && v[start - 1] != ';'
            invariant
                start <= v.len(),
                last_segment(v@, ';') == last_segment(v@.take(start as int), ';') + v@.subrange(
                    start as int,
                    v.len() as int,
                ),
            decreases start,
        {
            proof {
                let t = v@.take(start as int);
                assert(t.drop_last() =~= v@.take(start - 1));
                assert(last_segment(t.drop_last(), ';').push(t.last()) + v@.subrange(
                    start as int,
                    v.len() as int,
                ) =~= last_segment(t.drop_last(), ';') + v@.subrange(start - 1, v.len() as int));
            }
            start -= 1;
        }
        assert(v@.take(v.len() as int) =~= v@);
        proof {
            assert(last_segment(v@.take(start as int), ';') =~= seq![]);
            assert(last_segment(v@, ';') =~= v@.subrange(start as int, v.len() as int));
        }
        let seg = crate::text::slice_of(&v, start, v.len());
        if vec_eq(&seg, &vec_of("0")) {
            Some(true)
        } else {
            None
        }
    }
}

/// Whether the desktop prefers a dark scheme: the `GTK_THEME` hint, then a
/// `COLORFGBG` background of `0`, then the GNOME `color-scheme` setting
/// (`gsettings` output), each consulted when given and decisive; dark when
/// none decides.
pub open spec fn system_dark(
    gtk_theme: Option<Seq<char>>,
    colorfgbg: Option<Seq<char>>,
    color_scheme: Option<Seq<char>>,
) -> bool {
    let gtk = match gtk_theme {
        Some(t) => scheme_hint(t),
        None => None,
    };
    let fgbg = match colorfgbg {
        Some(c) => if last_segment(c, ';') == "0"@ {
            Some(true)
        } else {
            None
        },
        None => None,
    };
    let scheme = match color_scheme {
        Some(c) => scheme_hint(c),
        None => None,
    };
    match gtk {
        Some(b) => b,
        None => match fgbg {
            Some(b) => b,
            None => match scheme {
                Some(b) => b,
                None => true,
            },
        },
    }
}

/// Decides whether the desktop prefers a dark scheme from its hints: see
/// `system_dark`. `color_scheme` is what `gsettings get
/// org.gnome.desktop.interface color-scheme` printed when it succeeded.
pub fn detect_system_dark(gtk_theme: Option<&str>, colorfgbg: Option<&str>, color_scheme: Option<&str>) -> (r: bool)
    ensures
        r == system_dark(
            crate::filesystem::xdg::opt_view(gtk_theme),
            crate::filesystem::xdg::opt_view(colorfgbg),
            crate::filesystem::xdg::opt_view(color_scheme),
        ),
{
    if let Some(t) = gtk_theme {
        if let Some(b) = ThemeMode::scheme_hint(t) {
            return b;
        }
    }
    if let Some(c) = colorfgbg {
        if let Some(b) = ThemeMode::colorfgbg_hint(c) {
            return b;
        }
    }
    if let Some(c) = color_scheme {
        if let Some(b) = ThemeMode::scheme_hint(c) {
            return b;
        }
    }
    true
}

/// Storing a theme as its number and reading it back gives the same theme.
pub proof fn lemma_theme_code_roundtrip(m: ThemeMode)
    ensures
        theme_of_code(theme_code(m)) == m,
{
}

} // verus!
