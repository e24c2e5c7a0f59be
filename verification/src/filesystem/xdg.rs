//! XDG base and user directories, from the environment values and files
//! that define them.

use vstd::prelude::*;
use crate::paths::{join_path, path_join};
use crate::split::{lines, lines_vec, views};
use crate::text::{
    is_ws, slice_of, trim_end, trim_start, starts_with, string_from_chars, trim, trim_vec, vec_eq, vec_of, vec_starts_with,
};

verus! {

/// The text an optional string holds.
pub open spec fn opt_view(o: Option<&str>) -> Option<Seq<char>> {
    match o {
        Some(s) => Some(s@),
        None => None,
    }
}

/// The home directory: `HOME`, or the empty path when it is unset.
pub open spec fn home_of(home_env: Option<Seq<char>>) -> Seq<char> {
    match home_env {
        Some(h) => h,
        None => seq![],
    }
}

/// A base directory: its variable when set and not empty, else `rel`
/// under the home directory.
pub open spec fn base_dir(var: Option<Seq<char>>, home_env: Option<Seq<char>>, rel: Seq<char>) -> Seq<char> {
    match var {
        Some(v) => if v.len() > 0 {
            v
        } else {
            path_join(home_of(home_env), rel)
        },
        None => path_join(home_of(home_env), rel),
    }
}

/// The home directory, from the value of `HOME`.
pub fn home_dir(home_env: Option<&str>) -> (r: String)
    ensures
        r@ == home_of(opt_view(home_env)),
{
    match home_env {
        Some(h) => h.to_owned(),
        None => String::new(),
    }
}

fn base_dir_of(var: Option<&str>, home_env: Option<&str>, rel: &str) -> (r: String)
    ensures
        r@ == base_dir(opt_view(var), opt_view(home_env), rel@),
{
    match var {
        Some(v) => if vec_of(v).len() > 0 {
            return v.to_owned();
        },
        None => {},
    }
    let home = home_dir(home_env);
    join_path(home.as_str(), rel)
}

/// The cache directory: `XDG_CACHE_HOME`, else `~/.cache`.
pub fn get_cache_dir(xdg_cache_home: Option<&str>, home_env: Option<&str>) -> (r: String)
    ensures
        r@ == base_dir(opt_view(xdg_cache_home), opt_view(home_env), ".cache"@),
{
    base_dir_of(xdg_cache_home, home_env, ".cache")
}

/// The configuration directory: `XDG_CONFIG_HOME`, else `~/.config`.
pub fn get_config_dir(xdg_config_home: Option<&str>, home_env: Option<&str>) -> (r: String)
    ensures
        r@ == base_dir(opt_view(xdg_config_home), opt_view(home_env), ".config"@),
{
    base_dir_of(xdg_config_home, home_env, ".config")
}

/// The data directory: `XDG_DATA_HOME`, else `~/.local/share`.
pub fn get_data_dir(xdg_data_home: Option<&str>, home_env: Option<&str>) -> (r: String)
    ensures
        r@ == base_dir(opt_view(xdg_data_home), opt_view(home_env), ".local/share"@),
{
    base_dir_of(xdg_data_home, home_env, ".local/share")
}

/// `s` with every leading copy of `p` removed (`str::trim_start_matches`).
pub open spec fn strip_all_prefix(s: Seq<char>, p: Seq<char>) -> Seq<char>
    decreases s.len(),
{
    if p.len() > 0 && starts_with(s, p) {
        strip_all_prefix(s.skip(p.len() as int), p)
    } else {
        s
    }
}

/// `s` without leading and trailing `"` (`str::trim_matches('"')`).
pub open spec fn trim_quotes(s: Seq<char>) -> Seq<char>
    decreases s.len(),
{
    if s.len() > 0 && s[0] == '"' {
        trim_quotes(s.drop_first())
    } else if s.len() > 0 && s.last() == '"' {
        trim_quotes(s.drop_last())
    } else {
        s
    }
}

/// The directory one line of `user-dirs.dirs` names for the variable
/// `var`: for a line `var=` followed by a quoted value, `$HOME/rel` names
/// `rel` under the home directory and an absolute value names itself.
pub open spec fn user_dir_in_line(line: Seq<char>, var: Seq<char>, home: Seq<char>) -> Option<Seq<char>> {
    let l = trim(line);
    let key = var + "="@;
    if starts_with(l, key) {
        let val = trim_quotes(strip_all_prefix(l, key));
        if starts_with(val, "$HOME/"@) {
            Some(path_join(home, val.skip(6)))
        } else if val.len() > 0 && val[0] == '/' {
            Some(val)
        } else {
            None
        }
    } else {
        None
    }
}

/// The directories the lines of a `user-dirs.dirs` file name for `var`,
/// in order.
pub open spec fn user_dirs_in_lines(ls: Seq<Seq<char>>, var: Seq<char>, home: Seq<char>) -> Seq<Seq<char>>
    decreases ls.len(),
{
    if ls.len() == 0 {
        seq![]
    } else {
        let rest = user_dirs_in_lines(ls.drop_first(), var, home);
        match user_dir_in_line(ls[0], var, home) {
            Some(d) => seq![d] + rest,
            None => rest,
        }
    }
}

/// Candidates for a user directory, in the order they are tried: those the
/// configuration file names, then the `xdg-user-dir` answer (trimmed, when
/// not empty), then the localized folder names under the home directory.
pub open spec fn user_dir_candidates(
    config: Option<Seq<char>>,
    var: Seq<char>,
    tool_output: Option<Seq<char>>,
    home: Seq<char>,
    localized: Seq<Seq<char>>,
) -> Seq<Seq<char>> {
    let from_config = match config {
        Some(c) => user_dirs_in_lines(lines(c), var, home),
        None => seq![],
    };
    let from_tool = match tool_output {
        Some(o) => if trim(o).len() > 0 {
            seq![trim(o)]
        } else {
            seq![]
        },
        None => seq![],
    };
    from_config + from_tool + Seq::new(localized.len(), |i: int| path_join(home, localized[i]))
}

/// The first candidate that exists, or the fallback.
pub open spec fn first_existing(cands: Seq<Seq<char>>, existing: Seq<Seq<char>>, fallback: Seq<char>) -> Seq<char>
    decreases cands.len(),
{
    if cands.len() == 0 {
        fallback
    } else if existing.contains(cands[0]) {
        cands[0]
    } else {
        first_existing(cands.drop_first(), existing, fallback)
    }
}

/// A `user-dirs.dirs` line `var="$HOME/rel"` names `rel` under the home
/// directory: `home/rel` when the home directory is set (and does not end
/// in `/`) and `rel` is relative.
pub proof fn lemma_home_relative_line(var: Seq<char>, rel: Seq<char>, home: Seq<char>)
    requires
        var.len() > 0,
        !is_ws(var[0]),
        var[0] != '"',
        forall|k: int| 0 <= k < rel.len() ==> rel[k] != '"',
    ensures
        user_dir_in_line(var + "=\"$HOME/"@ + rel + "\""@, var, home) == Some(path_join(home, rel)),
        home.len() > 0 && home.last() != '/' && (rel.len() == 0 || rel[0] != '/') ==> path_join(
            home,
            rel,
        ) == home + "/"@ + rel,
{
    reveal_strlit("=\"$HOME/");
    reveal_strlit("\"");
    reveal_strlit("=");
    reveal_strlit("\"$HOME/");
    reveal_strlit("$HOME/");
    reveal_strlit("/");
    let line = var + "=\"$HOME/"@ + rel + "\""@;
    let key = var + "="@;
    assert(line[0] == var[0]);
    assert(line.last() == '"');
    assert(trim_start(line) == line);
    assert(trim_end(line) == line);
    assert(trim(line) == line);
    assert(line.take(key.len() as int) =~= key);
    assert(starts_with(line, key));
    let rest = line.skip(key.len() as int);
    assert(rest =~= "\"$HOME/"@ + rel + "\""@);
    assert(rest[0] == '"');
    assert(!starts_with(rest, key)) by {
        if starts_with(rest, key) {
            assert(rest.take(key.len() as int)[0] == key[0]);
        }
    }
    assert(strip_all_prefix(rest, key) == rest);
    assert(strip_all_prefix(line, key) == rest);
    let u = rest.drop_first();
    let v = u.drop_last();
    assert(v =~= "$HOME/"@ + rel);
    assert(u.len() > 0 && u[0] == '$' && u.last() == '"');
    assert(v.len() > 0 && v[0] == '$' && v.last() != '"');
    assert(trim_quotes(v) == v);
    assert(trim_quotes(u) == v);
    assert(trim_quotes(rest) == v);
    assert(v.take(6) =~= "$HOME/"@);
    assert(v.skip(6) =~= rel);
}

/// With a `user-dirs.dirs` file whose first line is
/// `XDG_DOWNLOAD_DIR="$HOME/rel"` (or the line of any other variable),
/// the directory picked is `home/rel` when it exists.
pub proof fn lemma_home_relative_dir_picked(
    config: Seq<char>,
    var: Seq<char>,
    rel: Seq<char>,
    home: Seq<char>,
    tool_output: Option<Seq<char>>,
    localized: Seq<Seq<char>>,
    existing: Seq<Seq<char>>,
    fallback: Seq<char>,
)
    requires
        var.len() > 0,
        !is_ws(var[0]),
        var[0] != '"',
        forall|k: int| 0 <= k < rel.len() ==> rel[k] != '"',
        lines(config).len() > 0,
        lines(config)[0] == var + "=\"$HOME/"@ + rel + "\""@,
        home.len() > 0,
        home.last() != '/',
        rel.len() == 0 || rel[0] != '/',
        existing.contains(home + "/"@ + rel),
    ensures
        first_existing(
            user_dir_candidates(Some(config), var, tool_output, home, localized),
            existing,
            fallback,
        ) == home + "/"@ + rel,
{
    lemma_home_relative_line(var, rel, home);
    let ls = lines(config);
    let cands = user_dir_candidates(Some(config), var, tool_output, home, localized);
    let from_config = user_dirs_in_lines(ls, var, home);
    assert(from_config[0] == home + "/"@ + rel);
    assert(cands[0] == from_config[0]);
}

/// A base directory is its variable when that is set and not empty, and
/// otherwise `home/rel` (for a home directory that does not end in `/` and
/// a relative `rel`).
pub proof fn lemma_base_dir_choice(var: Option<Seq<char>>, home: Seq<char>, rel: Seq<char>)
    ensures
        var is Some && var->0.len() > 0 ==> base_dir(var, Some(home), rel) == var->0,
        (var is None || var->0.len() == 0) && home.len() > 0 && home.last() != '/' && (rel.len() == 0
            || rel[0] != '/') ==> base_dir(var, Some(home), rel) == home + "/"@ + rel,
{
}

/// With neither a configuration file nor an `xdg-user-dir` answer, the
/// directory picked is the first localized folder under the home directory
/// that exists, else the fallback.
pub proof fn lemma_localized_dir_picked(
    var: Seq<char>,
    home: Seq<char>,
    localized: Seq<Seq<char>>,
    existing: Seq<Seq<char>>,
    fallback: Seq<char>,
    i: int,
)
    requires
        0 <= i < localized.len(),
        existing.contains(path_join(home, localized[i])),
        forall|j: int| 0 <= j < i ==> !existing.contains(path_join(home, #[trigger] localized[j])),
    ensures
        first_existing(user_dir_candidates(None, var, None, home, localized), existing, fallback)
            == path_join(home, localized[i]),
{
    let cands = user_dir_candidates(None, var, None, home, localized);
    assert(cands =~= Seq::new(localized.len(), |j: int| path_join(home, localized[j])));
    lemma_first_existing_at(cands, existing, fallback, i);
}

proof fn lemma_first_existing_at(cands: Seq<Seq<char>>, existing: Seq<Seq<char>>, fallback: Seq<char>, i: int)
    requires
        0 <= i < cands.len(),
        existing.contains(cands[i]),
        forall|j: int| 0 <= j < i ==> !existing.contains(#[trigger] cands[j]),
    ensures
        first_existing(cands, existing, fallback) == cands[i],
    decreases i,
{
    if i > 0 {
        let rest = cands.drop_first();
        assert(!existing.contains(cands[0]));
        assert forall|j: int| 0 <= j < i - 1 implies !existing.contains(#[trigger] rest[j]) by {
            assert(rest[j] == cands[j + 1]);
        }
        assert(rest[i - 1] == cands[i]);
        lemma_first_existing_at(rest, existing, fallback, i - 1);
    }
}

/// Localized names of the downloads folder.
pub open spec fn download_names() -> Seq<Seq<char>> {
    seq!["Загрузки"@, "Downloads"@, "Téléchargements"@, "Descargas"@, "Pobrane"@]
}

/// Localized names of the desktop folder.
pub open spec fn desktop_names() -> Seq<Seq<char>> {
    seq!["Рабочий стол"@, "Desktop"@, "Bureau"@, "Escritorio"@, "Pulpit"@, "Schreibtisch"@]
}

/// `trim_quotes` computed.
fn trim_quotes_vec(s: &Vec<char>) -> (r: Vec<char>)
    ensures
        r@ == trim_quotes(s@),
{
    let mut a: usize = 0;
    let mut b: usize = s.len();
    assert(s@.subrange(0, s@.len() as int) =~= s@);
    while a < b && (s[a] == '"' || s[b - 1] == '"')
        invariant
            a <= b <= s.len(),
            trim_quotes(s@) == trim_quotes(s@.subrange(a as int, b as int)),
        decreases b - a,
    {
        let ghost t = s@.subrange(a as int, b as int);
        if s[a] == '"' {
            assert(t.drop_first() =~= s@.subrange(a + 1, b as int));
            a += 1;
        } else {
            assert(t.drop_last() =~= s@.subrange(a as int, b - 1));
            b -= 1;
        }
    }
    let r = slice_of(s, a, b);
    assert(r@.len() == 0 || (r@[0] != '"' && r@.last() != '"'));
    r
}

/// `strip_all_prefix` computed.
fn strip_all_prefix_vec(s: &Vec<char>, p: &Vec<char>) -> (r: Vec<char>)
    ensures
        r@ == strip_all_prefix(s@, p@),
{
    if p.len() == 0 {
        return s.clone();
    }
    let mut a: usize = 0;
    assert(s@.skip(0) =~= s@);
    loop
        invariant
            a <= s.len(),
            p@.len() > 0,
            strip_all_prefix(s@, p@) == strip_all_prefix(s@.skip(a as int), p@),
        decreases s.len() - a,
    {
        let rest = slice_of(s, a, s.len());
        assert(rest@ =~= s@.skip(a as int));
        if vec_starts_with(&rest, p) {
            assert(rest@.skip(p@.len() as int) =~= s@.skip(a + p@.len()));
            a = a + p.len();
        } else {
            return rest;
        }
    }
}

/// The directory one configuration line names, computed.
fn user_dir_in_line_vec(line: &Vec<char>, key: &Vec<char>, home: &str) -> (r: Option<String>)
    requires
        key@.len() > 0,
        key@.last() == '=',
    ensures
        match r {
            Some(d) => user_dir_in_line(line@, key@.drop_last(), home@) == Some(d@),
            None => user_dir_in_line(line@, key@.drop_last(), home@) is None,
        },
{
    proof {
        reveal_strlit("=");
        assert(key@ =~= key@.drop_last() + "="@);
    }
    let l = trim_vec(line);
    if !vec_starts_with(&l, key) {
        return None;
    }
    let stripped = strip_all_prefix_vec(&l, key);
    let val = trim_quotes_vec(&stripped);
    let home_prefix = vec_of("$HOME/");
    proof {
        reveal_strlit("$HOME/");
    }
    if vec_starts_with(&val, &home_prefix) {
        let rel = slice_of(&val, 6, val.len());
        assert(rel@ =~= val@.skip(6));
        let rel_s = string_from_chars(&rel);
        Some(join_path(home, rel_s.as_str()))
    } else if val.len() > 0 && val[0] == '/' {
        Some(string_from_chars(&val))
    } else {
        None
    }
}

/// Candidates for a user directory: see `user_dir_candidates`. `var` is
/// the variable's name, such as `XDG_DOWNLOAD_DIR`.
pub fn user_dir_candidates_of(
    config: Option<&str>,
    var: &str,
    tool_output: Option<&str>,
    home: &str,
    localized: &Vec<&str>,
) -> (r: Vec<String>)
    ensures
        Seq::new(r@.len(), |i: int| r@[i]@) == user_dir_candidates(
            opt_view(config),
            var@,
            opt_view(tool_output),
            home@,
            Seq::new(localized@.len(), |i: int| localized@[i]@),
        ),
{
    let mut out: Vec<String> = Vec::new();
    let mut key = vec_of(var);
    key.push('=');
    let ghost var_v = var@;
    assert(key@.drop_last() =~= var_v);
    let ghost from_config: Seq<Seq<char>> = match opt_view(config) {
        Some(c) => user_dirs_in_lines(lines(c), var_v, home@),
        None => seq![],
    };
    match config {
        Some(c) => {
            let ls = lines_vec(&vec_of(c));
            let mut i: usize = 0;
            assert(views(ls@).skip(0) =~= views(ls@));
            assert(Seq::new(out@.len(), |k: int| out@[k]@) =~= Seq::<Seq<char>>::empty());
            while i < ls.len()
                invariant
                    i <= ls.len(),
                    key@.len() > 0,
                    key@.last() == '=',
                    key@.drop_last() == var_v,
                    views(ls@) == lines(c@),
                    from_config == user_dirs_in_lines(views(ls@), var_v, home@),
                    from_config == Seq::new(out@.len(), |k: int| out@[k]@) + user_dirs_in_lines(
                        views(ls@).skip(i as int),
                        var_v,
                        home@,
                    ),
                decreases ls.len() - i,
            {
                let ghost before = Seq::new(out@.len(), |k: int| out@[k]@);
                let ghost rest = views(ls@).skip(i as int);
                assert(rest.drop_first() =~= views(ls@).skip(i + 1));
                assert(rest[0] == ls@[i as int]@);
                match user_dir_in_line_vec(&ls[i], &key, home) {
                    Some(d) => {
                        out.push(d);
                        assert(Seq::new(out@.len(), |k: int| out@[k]@) =~= before.push(
                            out@.last()@,
                        ));
                    },
                    None => {},
                }
                i += 1;
            }
            assert(views(ls@).skip(i as int) =~= Seq::<Seq<char>>::empty());
        },
        None => {},
    }
    assert(Seq::new(out@.len(), |k: int| out@[k]@) =~= from_config);
    let ghost after_config = Seq::new(out@.len(), |k: int| out@[k]@);
    match tool_output {
        Some(o) => {
            let t = trim_vec(&vec_of(o));
            if t.len() > 0 {
                out.push(string_from_chars(&t));
            }
        },
        None => {},
    }
    let ghost after_tool = Seq::new(out@.len(), |k: int| out@[k]@);
    let ghost lv = Seq::new(localized@.len(), |i: int| localized@[i]@);
    let mut j: usize = 0;
    while j < localized.len()
        invariant
            j <= localized@.len(),
            lv == Seq::new(localized@.len(), |i: int| localized@[i]@),
            Seq::new(out@.len(), |k: int| out@[k]@) == after_tool + Seq::new(
                j as nat,
                |i: int| path_join(home@, lv[i]),
            ),
        decreases localized.len() - j,
    {
        let ghost before = Seq::new(out@.len(), |k: int| out@[k]@);
        let d = join_path(home, localized[j]);
        out.push(d);
        assert(Seq::new(out@.len(), |k: int| out@[k]@) =~= before.push(d@));
        assert(lv[j as int] == localized@[j as int]@);
        j += 1;
        assert(Seq::new(out@.len(), |k: int| out@[k]@) =~= after_tool + Seq::new(
            j as nat,
            |i: int| path_join(home@, lv[i]),
        ));
    }
    out
}

/// Picks a user directory: the first candidate that exists (`existing`
/// lists the candidates the file system has), else `fallback` under the
/// home directory.
pub fn pick_user_dir(cands: &Vec<String>, existing: &Vec<String>, home: &str, fallback: &str) -> (r: String)
    ensures
        r@ == first_existing(
            Seq::new(cands@.len(), |i: int| cands@[i]@),
            Seq::new(existing@.len(), |i: int| existing@[i]@),
            path_join(home@, fallback@),
        ),
{
    let ghost cs = Seq::new(cands@.len(), |i: int| cands@[i]@);
    let ghost es = Seq::new(existing@.len(), |i: int| existing@[i]@);
    let mut i: usize = 0;
    assert(cs.skip(0) =~= cs);
    while i < cands.len()
        invariant
            i <= cands@.len(),
            cs == Seq::new(cands@.len(), |k: int| cands@[k]@),
            es == Seq::new(existing@.len(), |k: int| existing@[k]@),
            first_existing(cs, es, path_join(home@, fallback@)) == first_existing(
                cs.skip(i as int),
                es,
                path_join(home@, fallback@),
            ),
        decreases cands.len() - i,
    {
        let c = vec_of(cands[i].as_str());
        let mut found = false;
        let mut k: usize = 0;
        while k < existing.len()
            invariant
                k <= existing@.len(),
                es == Seq::new(existing@.len(), |m: int| existing@[m]@),
                found ==> es.contains(c@),
                !found ==> forall|m: int| 0 <= m < k ==> es[m] != c@,
            decreases existing.len() - k,
        {
            if vec_eq(&vec_of(existing[k].as_str()), &c) {
                assert(es[k as int] == c@);
                found = true;
            }
            k += 1;
        }
        assert(cs.skip(i as int)[0] == c@);
        if found {
            return cands[i].clone();
        }
        assert(cs.skip(i as int).drop_first() =~= cs.skip(i + 1));
        i += 1;
    }
    assert(cs.skip(i as int) =~= Seq::<Seq<char>>::empty());
    join_path(home, fallback)
}

/// The downloads folder names tried under the home directory.
pub fn download_folder_names() -> (r: Vec<&'static str>)
    ensures
        Seq::new(r@.len(), |i: int| r@[i]@) == download_names(),
{
    let r = vec!["Загрузки", "Downloads", "Téléchargements", "Descargas", "Pobrane"];
    assert(Seq::new(r@.len(), |i: int| r@[i]@) =~= download_names());
    r
}

/// The desktop folder names tried under the home directory.
pub fn desktop_folder_names() -> (r: Vec<&'static str>)
    ensures
        Seq::new(r@.len(), |i: int| r@[i]@) == desktop_names(),
{
    let r = vec!["Рабочий стол", "Desktop", "Bureau", "Escritorio", "Pulpit", "Schreibtisch"];
    assert(Seq::new(r@.len(), |i: int| r@[i]@) =~= desktop_names());
    r
}

/// The downloads directory: the first existing candidate of
/// `user_dir_candidates` for `XDG_DOWNLOAD_DIR`, else `~/Downloads`.
/// `config` is the content of `~/.config/user-dirs.dirs` and `tool_output`
/// what `xdg-user-dir DOWNLOAD` printed, when they could be had.
pub fn get_user_download_dir(
    home: &str,
    config: Option<&str>,
    tool_output: Option<&str>,
    existing: &Vec<String>,
) -> (r: String)
    ensures
        r@ == first_existing(
            user_dir_candidates(
                opt_view(config),
                "XDG_DOWNLOAD_DIR"@,
                opt_view(tool_output),
                home@,
                download_names(),
            ),
            Seq::new(existing@.len(), |i: int| existing@[i]@),
            path_join(home@, "Downloads"@),
        ),
{
    let names = download_folder_names();
    let cands = user_dir_candidates_of(config, "XDG_DOWNLOAD_DIR", tool_output, home, &names);
    pick_user_dir(&cands, existing, home, "Downloads")
}

/// The desktop directory: the first existing candidate of
/// `user_dir_candidates` for `XDG_DESKTOP_DIR`, else `~/Desktop`.
pub fn get_user_desktop_dir(
    home: &str,
    config: Option<&str>,
    tool_output: Option<&str>,
    existing: &Vec<String>,
) -> (r: String)
    ensures
        r@ == first_existing(
            user_dir_candidates(
                opt_view(config),
                "XDG_DESKTOP_DIR"@,
                opt_view(tool_output),
                home@,
                desktop_names(),
            ),
            Seq::new(existing@.len(), |i: int| existing@[i]@),
            path_join(home@, "Desktop"@),
        ),
{
    let names = desktop_folder_names();
    let cands = user_dir_candidates_of(config, "XDG_DESKTOP_DIR", tool_output, home, &names);
    pick_user_dir(&cands, existing, home, "Desktop")
}

} // verus!
