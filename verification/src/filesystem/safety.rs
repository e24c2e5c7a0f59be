//! Which paths may be cleaned.

use vstd::prelude::*;
use crate::paths::{path_eq, path_starts_with, same_path, starts_with_path};
use crate::text::{starts_with, vec_eq, vec_of, vec_starts_with};

verus! {

/// Why a path may not be touched.
#[derive(Debug, Clone, PartialEq, Eq)]
pub enum FSError {
    /// The path does not exist.
    NotFound(String),
    /// The path is a critical system path.
    ForbiddenPath(String),
    /// The path lies outside the user's home and the temporary directories.
    OutOfBounds(String),
    /// A file system operation failed, with its message.
    Io(String),
}

/// The mathematical value of an `FSError`.
pub enum FSErrorView {
    NotFound(Seq<char>),
    ForbiddenPath(Seq<char>),
    OutOfBounds(Seq<char>),
    Io(Seq<char>),
}

impl View for FSError {
    type V = FSErrorView;

    open spec fn view(&self) -> FSErrorView {
        match self {
            FSError::NotFound(s) => FSErrorView::NotFound(s@),
            FSError::ForbiddenPath(s) => FSErrorView::ForbiddenPath(s@),
            FSError::OutOfBounds(s) => FSErrorView::OutOfBounds(s@),
            FSError::Io(s) => FSErrorView::Io(s@),
        }
    }
}

/// Critical system roots that are never deleted.
pub open spec fn forbidden_roots() -> Seq<Seq<char>> {
    seq![
        "/"@, "/etc"@, "/usr"@, "/bin"@, "/sbin"@, "/boot"@, "/lib"@, "/lib64"@, "/lib32"@,
        "/root"@, "/dev"@, "/proc"@, "/sys"@, "/run"@, "/var"@, "/opt"@, "/srv"@, "/home"@,
    ]
}

/// Text prefixes of essential system directories.
pub open spec fn forbidden_prefixes() -> Seq<Seq<char>> {
    seq![
        "/etc"@, "/usr"@, "/bin"@, "/sbin"@, "/boot"@, "/lib"@, "/lib64"@, "/dev"@, "/proc"@,
        "/sys"@, "/run"@, "/var"@, "/opt"@, "/srv"@, "/root"@,
    ]
}

/// The message for a path whose owner's home is unknown.
pub open spec fn no_home_message() -> Seq<char> {
    "HOME is not set; refusing deletion"@
}

/// The verdict on a path: `exists` and `canonical` are what the file system
/// said of it (`canonical` is its canonical form or the error message), and
/// `home` the canonical home directory, if `HOME` is set. The path must
/// exist and resolve; its canonical text must not be a forbidden root nor
/// begin with a forbidden prefix; it must not be the home directory itself,
/// and must lie, component-wise, under the home directory, `/tmp` or
/// `/var/tmp`. On success the canonical path is returned.
pub open spec fn safety_verdict(
    path: Seq<char>,
    exists: bool,
    canonical: Result<Seq<char>, Seq<char>>,
    home: Option<Seq<char>>,
) -> Result<Seq<char>, FSErrorView> {
    if !exists {
        Err(FSErrorView::NotFound(path))
    } else {
        match canonical {
            Err(msg) => Err(FSErrorView::Io(msg)),
            Ok(c) => if forbidden_roots().contains(c) {
                Err(FSErrorView::ForbiddenPath(c))
            } else if exists|i: int|
                0 <= i < forbidden_prefixes().len() && starts_with(c, #[trigger] forbidden_prefixes()[i]) {
                Err(FSErrorView::ForbiddenPath(c))
            } else {
                match home {
                    None => Err(FSErrorView::OutOfBounds(no_home_message())),
                    Some(h) => if path_eq(c, h) {
                        Err(FSErrorView::ForbiddenPath(c))
                    } else if path_starts_with(c, h) || path_starts_with(c, "/tmp"@)
                        || path_starts_with(c, "/var/tmp"@) {
                        Ok(c)
                    } else {
                        Err(FSErrorView::OutOfBounds(c))
                    },
                }
            },
        }
    }
}

/// A path is cleared for deletion only when it exists and resolves, and
/// then the cleared path is its canonical form, which is not a system
/// root, does not begin with any system directory's text, is not the home
/// directory and lies, component-wise, under the home directory, `/tmp` or
/// `/var/tmp`. A path that does not exist is refused as not found.
pub proof fn lemma_cleared_paths(
    path: Seq<char>,
    exists: bool,
    canonical: Result<Seq<char>, Seq<char>>,
    home: Option<Seq<char>>,
)
    ensures
        !exists ==> safety_verdict(path, exists, canonical, home) == Err::<Seq<char>, FSErrorView>(
            FSErrorView::NotFound(path),
        ),
        safety_verdict(path, exists, canonical, home) is Ok ==> ({
            let c = safety_verdict(path, exists, canonical, home)->Ok_0;
            &&& exists
            &&& canonical == Ok::<Seq<char>, Seq<char>>(c)
            &&& home is Some
            &&& !path_eq(c, home->0)
            &&& path_starts_with(c, home->0) || path_starts_with(c, "/tmp"@) || path_starts_with(
                c,
                "/var/tmp"@,
            )
            &&& c != "/"@ && c != "/home"@ && c != "/lib32"@
            &&& !starts_with(c, "/etc"@) && !starts_with(c, "/usr"@) && !starts_with(c, "/bin"@)
                && !starts_with(c, "/sbin"@) && !starts_with(c, "/boot"@) && !starts_with(c, "/lib"@)
                && !starts_with(c, "/dev"@) && !starts_with(c, "/proc"@) && !starts_with(c, "/sys"@)
                && !starts_with(c, "/run"@) && !starts_with(c, "/var"@) && !starts_with(c, "/opt"@)
                && !starts_with(c, "/srv"@) && !starts_with(c, "/root"@)
        }),
{
    if safety_verdict(path, exists, canonical, home) is Ok {
        let c = canonical->Ok_0;
        let ps = forbidden_prefixes();
        let rs = forbidden_roots();
        assert(!rs.contains(c));
        assert(rs[0] == "/"@ && rs[17] == "/home"@ && rs[8] == "/lib32"@);
        assert(!(exists|i: int| 0 <= i < ps.len() && starts_with(c, #[trigger] ps[i])));
        assert(ps[0] == "/etc"@ && ps[1] == "/usr"@ && ps[2] == "/bin"@ && ps[3] == "/sbin"@);
        assert(ps[4] == "/boot"@ && ps[5] == "/lib"@ && ps[7] == "/dev"@ && ps[8] == "/proc"@);
        assert(ps[9] == "/sys"@ && ps[10] == "/run"@ && ps[11] == "/var"@ && ps[12] == "/opt"@);
        assert(ps[13] == "/srv"@ && ps[14] == "/root"@);
        assert(!starts_with(c, ps[0]) && !starts_with(c, ps[1]) && !starts_with(c, ps[2]));
        assert(!starts_with(c, ps[3]) && !starts_with(c, ps[4]) && !starts_with(c, ps[5]));
        assert(!starts_with(c, ps[7]) && !starts_with(c, ps[8]) && !starts_with(c, ps[9]));
        assert(!starts_with(c, ps[10]) && !starts_with(c, ps[11]) && !starts_with(c, ps[12]));
        assert(!starts_with(c, ps[13]) && !starts_with(c, ps[14]));
        if c == "/"@ {
            assert(rs.contains(rs[0]));
        }
        if c == "/home"@ {
            assert(rs.contains(rs[17]));
        }
        if c == "/lib32"@ {
            assert(rs.contains(rs[8]));
        }
    }
}

/// The result of a safety check, as values.
pub open spec fn verdict_view(r: Result<String, FSError>) -> Result<Seq<char>, FSErrorView> {
    match r {
        Ok(s) => Ok(s@),
        Err(e) => Err(e@),
    }
}

/// The result of canonicalising a path, as values.
pub open spec fn canonical_view(c: Result<String, String>) -> Result<Seq<char>, Seq<char>> {
    match c {
        Ok(s) => Ok(s@),
        Err(e) => Err(e@),
    }
}

fn roots_list() -> (r: Vec<&'static str>)
    ensures
        r@.len() == forbidden_roots().len(),
        forall|i: int| 0 <= i < r@.len() ==> #[trigger] r@[i]@ == forbidden_roots()[i],
{
    let r = vec![
        "/", "/etc", "/usr", "/bin", "/sbin", "/boot", "/lib", "/lib64", "/lib32", "/root",
        "/dev", "/proc", "/sys", "/run", "/var", "/opt", "/srv", "/home",
    ];
    assert forall|i: int| 0 <= i < r@.len() implies #[trigger] r@[i]@ == forbidden_roots()[i] by {
    }
    r
}

fn prefixes_list() -> (r: Vec<&'static str>)
    ensures
        r@.len() == forbidden_prefixes().len(),
        forall|i: int| 0 <= i < r@.len() ==> #[trigger] r@[i]@ == forbidden_prefixes()[i],
{
    let r = vec![
        "/etc", "/usr", "/bin", "/sbin", "/boot", "/lib", "/lib64", "/dev", "/proc", "/sys",
        "/run", "/var", "/opt", "/srv", "/root",
    ];
    assert forall|i: int| 0 <= i < r@.len() implies #[trigger] r@[i]@
        == forbidden_prefixes()[i] by {
    }
    r
}

/// Checks that a path is safe to inspect or clean: see `safety_verdict`.
pub fn validate_path_safety(
    path: &str,
    exists: bool,
    canonical: Result<String, String>,
    home: Option<String>,
) -> (r: Result<String, FSError>)
    ensures
        verdict_view(r) == safety_verdict(
            path@,
            exists,
            canonical_view(canonical),
            match home {
                Some(h) => Some(h@),
                None => None,
            },
        ),
{
    if !exists {
        return Err(FSError::NotFound(path.to_owned()));
    }
    let c = match canonical {
        Err(msg) => {
            return Err(FSError::Io(msg));
        },
        Ok(c) => c,
    };
    let cv = vec_of(c.as_str());
    let roots = roots_list();
    let mut i: usize = 0;
    while i < roots.len()
        invariant
            i <= roots@.len(),
            exists,
            canonical == Ok::<String, String>(c),
            cv@ == c@,
            roots@.len() == forbidden_roots().len(),
            forall|k: int| 0 <= k < roots@.len() ==> #[trigger] roots@[k]@ == forbidden_roots()[k],
            forall|k: int| 0 <= k < i ==> forbidden_roots()[k] != cv@,
        decreases roots.len() - i,
    {
        if vec_eq(&cv, &vec_of(roots[i])) {
            assert(forbidden_roots()[i as int] == cv@);
            return Err(FSError::ForbiddenPath(c));
        }
        i += 1;
    }
    assert(!forbidden_roots().contains(cv@));
    let prefixes = prefixes_list();
    let mut j: usize = 0;
    while j < prefixes.len()
        invariant
            j <= prefixes@.len(),
            exists,
            canonical == Ok::<String, String>(c),
            cv@ == c@,
            !forbidden_roots().contains(cv@),
            prefixes@.len() == forbidden_prefixes().len(),
            forall|k: int| 0 <= k < prefixes@.len() ==> #[trigger] prefixes@[k]@
                == forbidden_prefixes()[k],
            forall|k: int| 0 <= k < j ==> !starts_with(cv@, #[trigger] forbidden_prefixes()[k]),
        decreases prefixes.len() - j,
    {
        if vec_starts_with(&cv, &vec_of(prefixes[j])) {
            assert(starts_with(cv@, forbidden_prefixes()[j as int]));
            return Err(FSError::ForbiddenPath(c));
        }
        j += 1;
    }
    let h = match home {
        None => {
            return Err(FSError::OutOfBounds("HOME is not set; refusing deletion".to_owned()));
        },
        Some(h) => h,
    };
    if same_path(c.as_str(), h.as_str()) {
        return Err(FSError::ForbiddenPath(c));
    }
    if starts_with_path(c.as_str(), h.as_str()) || starts_with_path(c.as_str(), "/tmp")
        || starts_with_path(c.as_str(), "/var/tmp") {
        Ok(c)
    } else {
        Err(FSError::OutOfBounds(c))
    }
}

/// The directory a file manager opens for a path: a file's parent, or the
/// path itself for a directory (or a file without a parent).
pub open spec fn open_target(path: Seq<char>, is_file: bool, parent: Option<Seq<char>>) -> Seq<char> {
    if is_file {
        match parent {
            Some(p) => p,
            None => path,
        }
    } else {
        path
    }
}

/// Chooses what `xdg-open` is run on for `path`; `parent` is the path's
/// parent as `Path::parent` gives it. A missing path is refused.
pub fn open_in_file_manager(
    path: &str,
    exists: bool,
    is_file: bool,
    parent: Option<String>,
) -> (r: Result<String, FSError>)
    ensures
        match r {
            Ok(t) => exists && t@ == open_target(
                path@,
                is_file,
                match parent {
                    Some(p) => Some(p@),
                    None => None,
                },
            ),
            Err(e) => !exists && e@ == FSErrorView::NotFound(path@),
        },
{
    if !exists {
        return Err(FSError::NotFound(path.to_owned()));
    }
    if is_file {
        match parent {
            Some(p) => Ok(p),
            None => Ok(path.to_owned()),
        }
    } else {
        Ok(path.to_owned())
    }
}

} // verus!
