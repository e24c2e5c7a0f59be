//! Desktop entries (`.desktop` files) of installed applications: reading
//! them, indexing them by the names packages go by, desktop shortcuts and
//! icon lookup.

use vstd::prelude::*;
use crate::applications::models::ApplicationItem;
use crate::keyed::KeyedList;
use crate::paths::{file_name, file_name_of, file_stem, join_path, path_join, stem_of};
use crate::split::{append_str, join, join_vec, lines, lines_vec, push_all, split_once, split_once_vec, views, words, words_vec};
use crate::startup::desktop::{EntryWrite, safe_char, without_field_codes};
use crate::text::{
    alphanumeric, char_is_alphanumeric, eq_ignore_ascii_case, lower_vec, lowercase, starts_with,
    string_from_chars, trim, trim_vec, vec_eq, vec_eq_ignore_ascii_case, vec_of, vec_starts_with,
};

verus! {

/// What a desktop entry says of an application.
#[derive(Debug)]
pub struct DesktopEntryInfo {
    pub name: String,
    pub command: String,
    pub icon: String,
    pub comment: String,
    pub file_path: String,
    pub no_display: bool,
}

impl Clone for DesktopEntryInfo {
    fn clone(&self) -> (r: Self)
        ensures
            r == *self,
    {
        DesktopEntryInfo {
            name: self.name.clone(),
            command: self.command.clone(),
            icon: self.icon.clone(),
            comment: self.comment.clone(),
            file_path: self.file_path.clone(),
            no_display: self.no_display,
        }
    }
}

/// Reads and indexes desktop entries.
pub struct DesktopEntryRegistry;

/// What reading a desktop entry has gathered so far.
pub struct EntryState {
    pub in_entry: bool,
    pub name: Seq<char>,
    pub command: Seq<char>,
    pub icon: Seq<char>,
    pub comment: Seq<char>,
    pub no_display: bool,
}

/// The state before the first line.
pub open spec fn entry_start() -> EntryState {
    EntryState {
        in_entry: false,
        name: seq![],
        command: seq![],
        icon: seq![],
        comment: seq![],
        no_display: false,
    }
}

/// The effect of one `key=value` line: the first `Name`, `Exec` (field
/// codes removed), `Icon` and `Comment` are kept; `NoDisplay` is true when
/// its value is `true` in any case.
pub open spec fn entry_key(st: EntryState, key: Seq<char>, val: Seq<char>) -> EntryState {
    if key == "Name"@ && st.name.len() == 0 {
        EntryState { name: val, ..st }
    } else if key == "Exec"@ && st.command.len() == 0 {
        EntryState { command: join(without_field_codes(words(val)), " "@), ..st }
    } else if key == "Icon"@ && st.icon.len() == 0 {
        EntryState { icon: val, ..st }
    } else if key == "Comment"@ && st.comment.len() == 0 {
        EntryState { comment: val, ..st }
    } else if key == "NoDisplay"@ {
        EntryState { no_display: eq_ignore_ascii_case(val, "true"@), ..st }
    } else {
        st
    }
}

/// The effect of one line, or `None` where reading stops (the section
/// after `[Desktop Entry]`).
pub open spec fn entry_line(st: EntryState, raw: Seq<char>) -> Option<EntryState> {
    let l = trim(raw);
    if l == "[Desktop Entry]"@ {
        Some(EntryState { in_entry: true, ..st })
    } else if starts_with(l, "["@) && st.in_entry {
        None
    } else if !st.in_entry {
        Some(st)
    } else {
        match split_once(l, '=') {
            Some((k, v)) => Some(entry_key(st, trim(k), trim(v))),
            None => Some(st),
        }
    }
}

/// The state after the lines.
pub open spec fn entry_lines_state(st: EntryState, ls: Seq<Seq<char>>) -> EntryState
    decreases ls.len(),
{
    if ls.len() == 0 {
        st
    } else {
        match entry_line(st, ls[0]) {
            Some(next) => entry_lines_state(next, ls.drop_first()),
            None => st,
        }
    }
}

/// What a desktop entry says, as values.
pub struct InfoView {
    pub name: Seq<char>,
    pub command: Seq<char>,
    pub icon: Seq<char>,
    pub comment: Seq<char>,
    pub file_path: Seq<char>,
    pub no_display: bool,
}

/// The values of an entry.
pub open spec fn info_view(i: DesktopEntryInfo) -> InfoView {
    InfoView {
        name: i.name@,
        command: i.command@,
        icon: i.icon@,
        comment: i.comment@,
        file_path: i.file_path@,
        no_display: i.no_display,
    }
}

/// The entry read from the file at `path` with the given content; the
/// name falls back to the file's stem, then to `Unknown App`.
pub open spec fn entry_info(content: Seq<char>, path: Seq<char>) -> InfoView {
    let st = entry_lines_state(entry_start(), lines(content));
    InfoView {
        name: if st.name.len() > 0 {
            st.name
        } else {
            match file_name_of(path) {
                Some(n) => stem_of(n),
                None => "Unknown App"@,
            }
        },
        command: st.command,
        icon: st.icon,
        comment: st.comment,
        file_path: path,
        no_display: st.no_display,
    }
}

/// The index as values.
pub open spec fn index_view(m: Map<Seq<char>, DesktopEntryInfo>) -> Map<Seq<char>, InfoView> {
    m.map_values(|v: DesktopEntryInfo| info_view(v))
}

proof fn lemma_index_view_insert(m: Map<Seq<char>, DesktopEntryInfo>, k: Seq<char>, v: DesktopEntryInfo)
    ensures
        index_view(m.insert(k, v)) == index_view(m).insert(k, info_view(v)),
        index_view(m).dom() == m.dom(),
{
    assert(index_view(m.insert(k, v)) =~= index_view(m).insert(k, info_view(v)));
    assert(index_view(m).dom() =~= m.dom());
}

/// `s` without the characters in `set`.
pub open spec fn strip_chars(s: Seq<char>, set: Seq<char>) -> Seq<char>
    decreases s.len(),
{
    if s.len() == 0 {
        seq![]
    } else if set.contains(s.last()) {
        strip_chars(s.drop_last(), set)
    } else {
        strip_chars(s.drop_last(), set).push(s.last())
    }
}

/// The characters dropped when package names are normalised.
pub open spec fn name_separators() -> Seq<char> {
    seq!['-', '_', '.']
}

/// Reading state, computed.
struct EntryCursor {
    in_entry: bool,
    name: Vec<char>,
    command: Vec<char>,
    icon: Vec<char>,
    comment: Vec<char>,
    no_display: bool,
}

impl View for EntryCursor {
    type V = EntryState;

    closed spec fn view(&self) -> EntryState {
        EntryState {
            in_entry: self.in_entry,
            name: self.name@,
            command: self.command@,
            icon: self.icon@,
            comment: self.comment@,
            no_display: self.no_display,
        }
    }
}

fn drop_codes(ws: &Vec<Vec<char>>) -> (r: Vec<Vec<char>>)
    ensures
        views(r@) == without_field_codes(views(ws@)),
{
    let mut out: Vec<Vec<char>> = Vec::new();
    let mut i: usize = 0;
    while i < ws.len()
        invariant
            i <= ws.len(),
            views(out@) == without_field_codes(views(ws@).take(i as int)),
        decreases ws.len() - i,
    {
        let ghost before = views(out@);
        assert(views(ws@).take(i + 1).drop_last() =~= views(ws@).take(i as int));
        assert(views(ws@).take(i + 1).last() == ws@[i as int]@);
        let w = &ws[i];
        if !(w.len() > 0 && w[0] == '%') {
            out.push(w.clone());
            assert(views(out@) =~= before.push(ws@[i as int]@));
        }
        i += 1;
    }
    assert(views(ws@).take(i as int) =~= views(ws@));
    out
}

fn entry_key_exec(st: &mut EntryCursor, key: &Vec<char>, val: &Vec<char>)
    ensures
        final(st)@ == entry_key(old(st)@, key@, val@),
{
    proof {
        reveal_strlit("Name");
        reveal_strlit("Exec");
        reveal_strlit("Icon");
        reveal_strlit("Comment");
        reveal_strlit("NoDisplay");
    }
    if vec_eq(key, &vec_of("Name")) && st.name.len() == 0 {
        st.name = val.clone();
    } else if vec_eq(key, &vec_of("Exec")) && st.command.len() == 0 {
        let ws = words_vec(val);
        let kept = drop_codes(&ws);
        st.command = join_vec(&kept, &vec_of(" "));
    } else if vec_eq(key, &vec_of("Icon")) && st.icon.len() == 0 {
        st.icon = val.clone();
    } else if vec_eq(key, &vec_of("Comment")) && st.comment.len() == 0 {
        st.comment = val.clone();
    } else if vec_eq(key, &vec_of("NoDisplay")) {
        st.no_display = vec_eq_ignore_ascii_case(val, &vec_of("true"));
    }
}

/// `strip_chars` computed.
pub fn strip_chars_vec(s: &Vec<char>, set: &Vec<char>) -> (r: Vec<char>)
    ensures
        r@ == strip_chars(s@, set@),
{
    let mut out: Vec<char> = Vec::new();
    let mut i: usize = 0;
    while i < s.len()
        invariant
            i <= s.len(),
            out@ == strip_chars(s@.take(i as int), set@),
        decreases s.len() - i,
    {
        assert(s@.take(i + 1).drop_last() =~= s@.take(i as int));
        let c = s[i];
        let mut found = false;
        let mut k: usize = 0;
        while k < set.len()
            invariant
                k <= set.len(),
                found == exists|j: int| 0 <= j < k && set@[j] == c,
            decreases set.len() - k,
        {
            if set[k] == c {
                found = true;
            }
            k += 1;
        }
        if !found {
            out.push(c);
        }
        i += 1;
    }
    assert(s@.take(i as int) =~= s@);
    out
}

/// The characters of `name_separators`.
pub fn separators() -> (r: Vec<char>)
    ensures
        r@ == name_separators(),
{
    let r = vec!['-', '_', '.'];
    assert(r@ =~= name_separators());
    r
}

/// `path` is the icon file found for `icon_name`.
pub open spec fn item_icon_resolved(
    icon_name: Seq<char>,
    home: Seq<char>,
    themes: Seq<Seq<char>>,
    files: Seq<Seq<char>>,
    path: Option<String>,
) -> bool {
    match path {
        Some(p) => resolved_icon(icon_name, home, themes, files) == Some(p@),
        None => resolved_icon(icon_name, home, themes, files) is None,
    }
}

impl DesktopEntryRegistry {
    /// The entry read from the file at `path`, whose text is `content`: see
    /// `entry_info`.
    pub fn parse_desktop_file(content: &str, path: &str) -> (r: DesktopEntryInfo)
        ensures
            info_view(r) == entry_info(content@, path@),
    {
        let ls = lines_vec(&vec_of(content));
        let mut st = EntryCursor {
            in_entry: false,
            name: Vec::new(),
            command: Vec::new(),
            icon: Vec::new(),
            comment: Vec::new(),
            no_display: false,
        };
        let header = vec_of("[Desktop Entry]");
        let open = vec_of("[");
        let ghost all = views(ls@);
        assert(st@ == entry_start());
        assert(all.skip(0) =~= all);
        let mut i: usize = 0;
        while i < ls.len()
            invariant_except_break
                i <= ls.len(),
                all == views(ls@),
                header@ == "[Desktop Entry]"@,
                open@ == "["@,
                entry_lines_state(entry_start(), all) == entry_lines_state(st@, all.skip(i as int)),
            ensures
                entry_lines_state(entry_start(), all) == st@,
            decreases ls.len() - i,
        {
            let ghost rest = all.skip(i as int);
            assert(rest[0] == ls@[i as int]@);
            assert(rest.drop_first() =~= all.skip(i + 1));
            let l = trim_vec(&ls[i]);
            if vec_eq(&l, &header) {
                st.in_entry = true;
            } else if vec_starts_with(&l, &open) && st.in_entry {
                break;
            } else if st.in_entry {
                match split_once_vec(&l, '=') {
                    Some((k, v)) => {
                        let kt = trim_vec(&k);
                        let vt = trim_vec(&v);
                        entry_key_exec(&mut st, &kt, &vt);
                    },
                    None => {},
                }
            }
            i += 1;
            proof {
                if i == ls.len() {
                    assert(all.skip(i as int) =~= Seq::<Seq<char>>::empty());
                }
            }
        }
        let name = if st.name.len() > 0 {
            string_from_chars(&st.name)
        } else {
            match file_name(path) {
                Some(n) => file_stem(n.as_str()),
                None => "Unknown App".to_owned(),
            }
        };
        DesktopEntryInfo {
            name,
            command: string_from_chars(&st.command),
            icon: string_from_chars(&st.icon),
            comment: string_from_chars(&st.comment),
            file_path: path.to_owned(),
            no_display: st.no_display,
        }
    }
}

/// `s` without leading and trailing `c` (`str::trim_matches(c)`).
pub open spec fn trim_char(s: Seq<char>, c: char) -> Seq<char>
    decreases s.len(),
{
    if s.len() > 0 && s[0] == c {
        trim_char(s.drop_first(), c)
    } else if s.len() > 0 && s.last() == c {
        trim_char(s.drop_last(), c)
    } else {
        s
    }
}

/// The program an `Exec` line runs, by file name and in lowercase: its
/// first word without surrounding quotes, or nothing.
pub open spec fn binary_name(command: Seq<char>) -> Seq<char> {
    let ws = words(command);
    if ws.len() == 0 {
        seq![]
    } else {
        match file_name_of(trim_char(trim_char(ws[0], '"'), '\'')) {
            Some(n) => lowercase(n),
            None => seq![],
        }
    }
}

/// The lowercase stem of an entry's file.
pub open spec fn entry_stem(path: Seq<char>) -> Seq<char> {
    match file_name_of(path) {
        Some(n) => lowercase(stem_of(n)),
        None => seq![],
    }
}

/// `m` with `k` set to `v` unless `k` is empty or already set.
pub open spec fn add_if_new(m: Map<Seq<char>, InfoView>, k: Seq<char>, v: InfoView) -> Map<Seq<char>, InfoView> {
    if k.len() > 0 && !m.contains_key(k) {
        m.insert(k, v)
    } else {
        m
    }
}

/// The index with an entry added: under its lowercase stem (replacing any
/// earlier entry), then, where still free, under the stem without
/// separators, under its program's name and that name without separators,
/// and under its lowercase name without spaces and separators.
pub open spec fn index_entry(m: Map<Seq<char>, InfoView>, stem: Seq<char>, info: InfoView) -> Map<Seq<char>, InfoView> {
    let m1 = m.insert(stem, info);
    let m2 = add_if_new(m1, strip_chars(stem, name_separators()), info);
    let b = binary_name(info.command);
    let m3 = if b.len() > 0 && !m2.contains_key(b) {
        add_if_new(m2.insert(b, info), strip_chars(b, name_separators()), info)
    } else {
        m2
    };
    add_if_new(m3, strip_chars(lowercase(info.name), seq![' ', '-', '_', '.']), info)
}

/// The index of the entry files (each a path and its text), read in order;
/// entries marked `NoDisplay` are left out.
pub open spec fn index_files(files: Seq<(Seq<char>, Seq<char>)>) -> Map<Seq<char>, InfoView>
    decreases files.len(),
{
    if files.len() == 0 {
        Map::empty()
    } else {
        let m = index_files(files.drop_last());
        let (path, content) = files.last();
        let info = entry_info(content, path);
        if info.no_display {
            m
        } else {
            index_entry(m, entry_stem(path), info)
        }
    }
}

/// `trim_char` computed.
fn trim_char_vec(s: &Vec<char>, c: char) -> (r: Vec<char>)
    ensures
        r@ == trim_char(s@, c),
{
    let mut a: usize = 0;
    let mut b: usize = s.len();
    assert(s@.subrange(0, s@.len() as int) =~= s@);
    while a < b && (s[a] == c || s[b - 1] == c)
        invariant
            a <= b <= s.len(),
            trim_char(s@, c) == trim_char(s@.subrange(a as int, b as int), c),
        decreases b - a,
    {
        let ghost t = s@.subrange(a as int, b as int);
        if s[a] == c {
            assert(t.drop_first() =~= s@.subrange(a + 1, b as int));
            a += 1;
        } else {
            assert(t.drop_last() =~= s@.subrange(a as int, b - 1));
            b -= 1;
        }
    }
    slice_of_chars(s, a, b)
}

fn slice_of_chars(s: &Vec<char>, a: usize, b: usize) -> (r: Vec<char>)
    requires
        a <= b <= s.len(),
    ensures
        r@ == s@.subrange(a as int, b as int),
{
    crate::text::slice_of(s, a, b)
}

/// `binary_name` computed.
fn binary_name_of(command: &str) -> (r: Vec<char>)
    ensures
        r@ == binary_name(command@),
{
    let ws = words_vec(&vec_of(command));
    if ws.len() == 0 {
        return Vec::new();
    }
    let cleaned = trim_char_vec(&trim_char_vec(&ws[0], '"'), '\'');
    assert(views(ws@)[0] == ws@[0]@);
    let cs = string_from_chars(&cleaned);
    match file_name(cs.as_str()) {
        Some(n) => lower_vec(&vec_of(n.as_str())),
        None => Vec::new(),
    }
}

fn add_if_new_exec(index: &mut KeyedList<DesktopEntryInfo>, k: &Vec<char>, v: &DesktopEntryInfo)
    ensures
        index_view(final(index)@) == add_if_new(index_view(old(index)@), k@, info_view(*v)),
{
    let key = string_from_chars(k);
    proof {
        lemma_index_view_insert(index@, k@, *v);
    }
    if k.len() > 0 && !index.contains_key(key.as_str()) {
        index.insert(key, v.clone());
    }
}

impl DesktopEntryRegistry {
    /// The directories desktop entries are read from, in order; the home
    /// directory defaults to `/home/anonim` when `HOME` is unset.
    pub fn entry_dirs(home_env: Option<&str>) -> (r: Vec<String>)
        ensures
            r@.len() == 4,
            r@[0]@ == "/usr/share/applications"@,
            r@[1]@ == path_join(
                match crate::filesystem::xdg::opt_view(home_env) {
                    Some(h) => h,
                    None => "/home/anonim"@,
                },
                ".local/share/applications"@,
            ),
            r@[2]@ == "/var/lib/flatpak/exports/share/applications"@,
            r@[3]@ == path_join(
                match crate::filesystem::xdg::opt_view(home_env) {
                    Some(h) => h,
                    None => "/home/anonim"@,
                },
                ".local/share/flatpak/exports/share/applications"@,
            ),
    {
        let home = match home_env {
            Some(h) => h.to_owned(),
            None => "/home/anonim".to_owned(),
        };
        let mut r: Vec<String> = Vec::new();
        r.push("/usr/share/applications".to_owned());
        r.push(join_path(home.as_str(), ".local/share/applications"));
        r.push("/var/lib/flatpak/exports/share/applications".to_owned());
        r.push(join_path(home.as_str(), ".local/share/flatpak/exports/share/applications"));
        r
    }

    /// Adds an entry read from the file at `path` to the index: see
    /// `index_entry`.
    pub fn index_entry(index: &mut KeyedList<DesktopEntryInfo>, path: &str, info: DesktopEntryInfo)
        ensures
            index_view(final(index)@) == index_entry(index_view(old(index)@), entry_stem(path@), info_view(info)),
    {
        let stem = match file_name(path) {
            Some(n) => lower_vec(&vec_of(file_stem(n.as_str()).as_str())),
            None => Vec::new(),
        };
        let seps = separators();
        proof {
            lemma_index_view_insert(index@, stem@, info);
        }
        index.insert(string_from_chars(&stem), info.clone());
        add_if_new_exec(index, &strip_chars_vec(&stem, &seps), &info);
        let b = binary_name_of(info.command.as_str());
        let bs = string_from_chars(&b);
        proof {
            lemma_index_view_insert(index@, b@, info);
        }
        if b.len() > 0 && !index.contains_key(bs.as_str()) {
            index.insert(bs, info.clone());
            add_if_new_exec(index, &strip_chars_vec(&b, &seps), &info);
        }
        let mut name_seps = vec![' '];
        name_seps.push('-');
        name_seps.push('_');
        name_seps.push('.');
        assert(name_seps@ =~= seq![' ', '-', '_', '.']);
        let nn = strip_chars_vec(&lower_vec(&vec_of(info.name.as_str())), &name_seps);
        add_if_new_exec(index, &nn, &info);
    }

    /// The index of the entry files, each a path and its text, in the order
    /// they were read: see `index_files`.
    pub fn scan_system_entries(files: &Vec<(String, String)>) -> (r: KeyedList<DesktopEntryInfo>)
        ensures
            index_view(r@) == index_files(Seq::new(files@.len(), |i: int| (files@[i].0@, files@[i].1@))),
    {
        let ghost fs = Seq::new(files@.len(), |i: int| (files@[i].0@, files@[i].1@));
        let mut index: KeyedList<DesktopEntryInfo> = KeyedList::new();
        assert(index_view(index@) =~= Map::<Seq<char>, InfoView>::empty());
        let mut i: usize = 0;
        while i < files.len()
            invariant
                i <= files@.len(),
                fs == Seq::new(files@.len(), |k: int| (files@[k].0@, files@[k].1@)),
                index_view(index@) == index_files(fs.take(i as int)),
            decreases files.len() - i,
        {
            let (path, content) = (&files[i].0, &files[i].1);
            let info = Self::parse_desktop_file(content.as_str(), path.as_str());
            proof {
                let t = fs.take(i + 1);
                assert(t.drop_last() =~= fs.take(i as int));
                assert(t.last() == (path@, content@));
            }
            if !info.no_display {
                Self::index_entry(&mut index, path.as_str(), info);
            }
            i += 1;
        }
        assert(fs.take(i as int) =~= fs);
        index
    }
}

/// The file name of a desktop shortcut: the application's name with
/// unsafe characters replaced, and `.desktop`.
pub open spec fn shortcut_file_name(name: Seq<char>) -> Seq<char> {
    Seq::new(name.len(), |i: int| safe_char(name[i])) + ".desktop"@
}

/// The icon a new shortcut shows: the application's icon, else its icon
/// file, else a generic icon.
pub open spec fn shortcut_icon(app: ApplicationItem) -> Seq<char> {
    if app.icon@.len() > 0 {
        app.icon@
    } else {
        match app.icon_path {
            Some(p) => p@,
            None => "application-x-executable"@,
        }
    }
}

/// The text of a new shortcut for an application without a desktop entry
/// to copy.
pub open spec fn shortcut_content(app: ApplicationItem) -> Seq<char> {
    "[Desktop Entry]\nVersion=1.0\nType=Application\nName="@ + app.name@ + "\nComment="@
        + app.description@ + "\nExec="@ + (match app.exec_cmd {
        Some(e) => e@,
        None => app.package_id@,
    }) + "\nIcon="@ + shortcut_icon(app) + "\nTerminal=false\nStartupNotify=true\nCategories=Utility;\n"@
}

/// One line of a copied desktop entry: an `Icon=` line shows the
/// application's icon when it has one; every line ends with a newline.
pub open spec fn copied_line(line: Seq<char>, icon: Seq<char>) -> Seq<char> {
    if starts_with(line, "Icon="@) && icon.len() > 0 {
        "Icon="@ + icon + "\n"@
    } else {
        line + "\n"@
    }
}

/// The copied lines.
pub open spec fn copied_lines(ls: Seq<Seq<char>>, icon: Seq<char>) -> Seq<char>
    decreases ls.len(),
{
    if ls.len() == 0 {
        seq![]
    } else {
        copied_lines(ls.drop_last(), icon) + copied_line(ls.last(), icon)
    }
}

impl DesktopEntryRegistry {
    /// The shortcut for an application in the desktop directory: named by
    /// `shortcut_file_name`; a copy of the application's desktop entry
    /// (`original`, its text when it could be read) with the icon line
    /// updated, or else `shortcut_content`.
    pub fn create_desktop_shortcut(app: &ApplicationItem, desktop_dir: &str, original: Option<&str>) -> (r: EntryWrite)
        ensures
            r.path@ == path_join(desktop_dir@, shortcut_file_name(app.name@)),
            r.content@ == match original {
                Some(c) => copied_lines(lines(c@), app.icon@),
                None => shortcut_content(*app),
            },
    {
        let name = vec_of(app.name.as_str());
        let mut safe: Vec<char> = Vec::new();
        let mut i: usize = 0;
        while i < name.len()
            invariant
                i <= name.len(),
                safe@ == Seq::new(i as nat, |k: int| safe_char(name@[k])),
            decreases name.len() - i,
        {
            let c = name[i];
            if char_is_alphanumeric(c) || c == '-' || c == '_' {
                safe.push(c);
            } else {
                safe.push('_');
            }
            i += 1;
            assert(safe@ =~= Seq::new(i as nat, |k: int| safe_char(name@[k])));
        }
        append_str(&mut safe, ".desktop");
        let path = join_path(desktop_dir, string_from_chars(&safe).as_str());
        let icon = vec_of(app.icon.as_str());
        let content = match original {
            Some(c) => {
                let ls = lines_vec(&vec_of(c));
                let mut out: Vec<char> = Vec::new();
                let mut k: usize = 0;
                while k < ls.len()
                    invariant
                        k <= ls.len(),
                        icon@ == app.icon@,
                        out@ == copied_lines(views(ls@).take(k as int), app.icon@),
                    decreases ls.len() - k,
                {
                    assert(views(ls@).take(k + 1).drop_last() =~= views(ls@).take(k as int));
                    assert(views(ls@).take(k + 1).last() == ls@[k as int]@);
                    if vec_starts_with(&ls[k], &vec_of("Icon=")) && icon.len() > 0 {
                        append_str(&mut out, "Icon=");
                        push_all(&mut out, &icon);
                        append_str(&mut out, "\n");
                    } else {
                        push_all(&mut out, &ls[k]);
                        append_str(&mut out, "\n");
                    }
                    k += 1;
                }
                assert(views(ls@).take(k as int) =~= views(ls@));
                out
            },
            None => {
                let mut out = vec_of("[Desktop Entry]\nVersion=1.0\nType=Application\nName=");
                append_str(&mut out, app.name.as_str());
                append_str(&mut out, "\nComment=");
                append_str(&mut out, app.description.as_str());
                append_str(&mut out, "\nExec=");
                match &app.exec_cmd {
                    Some(e) => append_str(&mut out, e.as_str()),
                    None => append_str(&mut out, app.package_id.as_str()),
                }
                append_str(&mut out, "\nIcon=");
                if icon.len() > 0 {
                    push_all(&mut out, &icon);
                } else {
                    match &app.icon_path {
                        Some(p) => append_str(&mut out, p.as_str()),
                        None => append_str(&mut out, "application-x-executable"),
                    }
                }
                append_str(&mut out, "\nTerminal=false\nStartupNotify=true\nCategories=Utility;\n");
                out
            },
        };
        EntryWrite { path, content: string_from_chars(&content) }
    }
}

/// Icon sizes searched, in order.
pub open spec fn icon_sizes() -> Seq<Seq<char>> {
    seq!["scalable"@, "64x64"@, "48x48"@, "128x128"@, "256x256"@, "32x32"@, "512x512"@, "apps"@]
}

/// Icon file extensions searched in themes, in order.
pub open spec fn icon_exts() -> Seq<Seq<char>> {
    seq!["svg"@, "png"@, "xpm"@]
}

/// Icon file extensions searched in `/usr/share/pixmaps`, in order.
pub open spec fn pixmap_exts() -> Seq<Seq<char>> {
    seq!["png"@, "svg"@, "xpm"@]
}

/// The icon directories searched, in order.
pub open spec fn icon_roots(home: Seq<char>) -> Seq<Seq<char>> {
    seq![
        "/usr/share/icons"@,
        path_join(home, ".local/share/icons"@),
        "/var/lib/flatpak/exports/share/icons"@,
        path_join(home, ".local/share/flatpak/exports/share/icons"@),
    ]
}

/// `name.ext`.
pub open spec fn icon_file(name: Seq<char>, ext: Seq<char>) -> Seq<char> {
    name + "."@ + ext
}

/// An icon in the `hicolor` theme of a root: `root/hicolor/size/apps/file`.
pub open spec fn hicolor_candidate(root: Seq<char>, size: Seq<char>, name: Seq<char>, ext: Seq<char>) -> Seq<char> {
    path_join(path_join(path_join(path_join(root, "hicolor"@), size), "apps"@), icon_file(name, ext))
}

/// An icon in a theme: `theme/size/apps/file`, or `theme/apps/size/file`.
pub open spec fn theme_candidate(theme: Seq<char>, size: Seq<char>, name: Seq<char>, ext: Seq<char>, alt: bool) -> Seq<char> {
    if alt {
        path_join(path_join(path_join(theme, "apps"@), size), icon_file(name, ext))
    } else {
        path_join(path_join(path_join(theme, size), "apps"@), icon_file(name, ext))
    }
}

/// The files an icon name may be, in the order they are tried: the name
/// itself as a path; for each root, size and extension the `hicolor`
/// icon; for each theme directory (`themes`, the directories found in the
/// roots), size and extension the two theme layouts; then the pixmaps.
pub open spec fn icon_candidates(name: Seq<char>, home: Seq<char>, themes: Seq<Seq<char>>) -> Seq<Seq<char>> {
    seq![name] + Seq::new(
        96,
        |k: int| hicolor_candidate(icon_roots(home)[k / 24], icon_sizes()[(k % 24) / 3], name, icon_exts()[k % 3]),
    ) + Seq::new(
        (themes.len() * 48) as nat,
        |k: int|
            theme_candidate(
                themes[k / 48],
                icon_sizes()[(k % 48) / 6],
                name,
                icon_exts()[(k % 6) / 2],
                k % 2 == 1,
            ),
    ) + Seq::new(3, |k: int| path_join("/usr/share/pixmaps"@, icon_file(name, pixmap_exts()[k])))
}

/// The first candidate that is an existing file.
pub open spec fn first_file(cands: Seq<Seq<char>>, files: Seq<Seq<char>>) -> Option<Seq<char>>
    decreases cands.len(),
{
    if cands.len() == 0 {
        None
    } else if files.contains(cands[0]) {
        Some(cands[0])
    } else {
        first_file(cands.drop_first(), files)
    }
}

/// The icon file of an icon name: the first of `icon_candidates` of the
/// trimmed name that is a file, or none for an empty name.
pub open spec fn resolved_icon(icon_name: Seq<char>, home: Seq<char>, themes: Seq<Seq<char>>, files: Seq<Seq<char>>) -> Option<Seq<char>> {
    let name = trim(icon_name);
    if name.len() == 0 {
        None
    } else {
        first_file(icon_candidates(name, home, themes), files)
    }
}

fn icon_file_of(name: &Vec<char>, ext: &str) -> (r: String)
    ensures
        r@ == icon_file(name@, ext@),
{
    let mut f = name.clone();
    append_str(&mut f, ".");
    append_str(&mut f, ext);
    string_from_chars(&f)
}

fn sizes_list() -> (r: Vec<&'static str>)
    ensures
        r@.len() == 8,
        Seq::new(r@.len(), |i: int| r@[i]@) == icon_sizes(),
{
    let r = vec!["scalable", "64x64", "48x48", "128x128", "256x256", "32x32", "512x512", "apps"];
    assert(Seq::new(r@.len(), |i: int| r@[i]@) =~= icon_sizes());
    r
}

fn exts_list() -> (r: Vec<&'static str>)
    ensures
        r@.len() == 3,
        Seq::new(r@.len(), |i: int| r@[i]@) == icon_exts(),
{
    let r = vec!["svg", "png", "xpm"];
    assert(Seq::new(r@.len(), |i: int| r@[i]@) =~= icon_exts());
    r
}

proof fn lemma_index_split(a: int, b: int, c: int, nb: int, nc: int)
    requires
        0 <= b < nb,
        0 <= c < nc,
        0 <= a,
        nc > 0,
        nb > 0,
    ensures
        (a * (nb * nc) + b * nc + c) / (nb * nc) == a,
        ((a * (nb * nc) + b * nc + c) % (nb * nc)) / nc == b,
        (a * (nb * nc) + b * nc + c) % nc == c,
{
    assert(0 <= b * nc + c < nb * nc) by (nonlinear_arith)
        requires
            0 <= b < nb,
            0 <= c < nc,
    ;
    vstd::arithmetic::div_mod::lemma_fundamental_div_mod_converse(
        a * (nb * nc) + b * nc + c,
        nb * nc,
        a,
        b * nc + c,
    );
    vstd::arithmetic::div_mod::lemma_fundamental_div_mod_converse(b * nc + c, nc, b, c);
    assert((a * (nb * nc) + b * nc + c) % nc == c) by (nonlinear_arith)
        requires
            0 <= c < nc,
            0 <= a,
            0 <= b,
    {
        vstd::arithmetic::div_mod::lemma_fundamental_div_mod_converse(
            a * (nb * nc) + b * nc + c,
            nc,
            a * nb + b,
            c,
        );
    }
}

impl DesktopEntryRegistry {
    /// The candidate files of an icon name, in order: see
    /// `icon_candidates`. The home directory defaults to `/home/anonim`.
    pub fn icon_candidates_of(icon_name: &str, home_env: Option<&str>, themes: &Vec<String>) -> (r: Vec<String>)
        requires
            themes@.len() * 48 + 100 <= usize::MAX,
        ensures
            Seq::new(r@.len(), |i: int| r@[i]@) == icon_candidates(
                trim(icon_name@),
                match crate::filesystem::xdg::opt_view(home_env) {
                    Some(h) => h,
                    None => "/home/anonim"@,
                },
                Seq::new(themes@.len(), |i: int| themes@[i]@),
            ),
    {
        let name = trim_vec(&vec_of(icon_name));
        let home = match home_env {
            Some(h) => h.to_owned(),
            None => "/home/anonim".to_owned(),
        };
        let ghost tv = Seq::new(themes@.len(), |i: int| themes@[i]@);
        let ghost target = icon_candidates(name@, home@, tv);
        let sizes = sizes_list();
        let exts = exts_list();
        let mut roots: Vec<String> = Vec::new();
        roots.push("/usr/share/icons".to_owned());
        roots.push(join_path(home.as_str(), ".local/share/icons"));
        roots.push("/var/lib/flatpak/exports/share/icons".to_owned());
        roots.push(join_path(home.as_str(), ".local/share/flatpak/exports/share/icons"));
        assert(Seq::new(roots@.len(), |i: int| roots@[i]@) =~= icon_roots(home@));
        let mut out: Vec<String> = Vec::new();
        out.push(string_from_chars(&name));
        assert(Seq::new(out@.len(), |i: int| out@[i]@) =~= target.take(1));
        let mut r: usize = 0;
        while r < 4
            invariant
                r <= 4,
                roots@.len() == 4,
                Seq::new(roots@.len(), |i: int| roots@[i]@) == icon_roots(home@),
                sizes@.len() == 8,
                Seq::new(sizes@.len(), |i: int| sizes@[i]@) == icon_sizes(),
                exts@.len() == 3,
                Seq::new(exts@.len(), |i: int| exts@[i]@) == icon_exts(),
                target == icon_candidates(name@, home@, tv),
                out@.len() == 1 + r * 24,
                Seq::new(out@.len(), |i: int| out@[i]@) == target.take(out@.len() as int),
            decreases 4 - r,
        {
            let hicolor = join_path(roots[r].as_str(), "hicolor");
            let mut si: usize = 0;
            while si < 8
                invariant
                    r < 4,
                    si <= 8,
                    roots@.len() == 4,
                    Seq::new(roots@.len(), |i: int| roots@[i]@) == icon_roots(home@),
                    sizes@.len() == 8,
                Seq::new(sizes@.len(), |i: int| sizes@[i]@) == icon_sizes(),
                    exts@.len() == 3,
                Seq::new(exts@.len(), |i: int| exts@[i]@) == icon_exts(),
                    target == icon_candidates(name@, home@, tv),
                    hicolor@ == path_join(roots@[r as int]@, "hicolor"@),
                    out@.len() == 1 + r * 24 + si * 3,
                    Seq::new(out@.len(), |i: int| out@[i]@) == target.take(out@.len() as int),
                decreases 8 - si,
            {
                let size_dir = join_path(hicolor.as_str(), sizes[si]);
                let apps_dir = join_path(size_dir.as_str(), "apps");
                let mut ei: usize = 0;
                while ei < 3
                    invariant
                        r < 4,
                        si < 8,
                        ei <= 3,
                        roots@.len() == 4,
                        Seq::new(roots@.len(), |i: int| roots@[i]@) == icon_roots(home@),
                        sizes@.len() == 8,
                Seq::new(sizes@.len(), |i: int| sizes@[i]@) == icon_sizes(),
                        exts@.len() == 3,
                Seq::new(exts@.len(), |i: int| exts@[i]@) == icon_exts(),
                        target == icon_candidates(name@, home@, tv),
                        apps_dir@ == path_join(path_join(path_join(roots@[r as int]@, "hicolor"@), sizes@[si as int]@), "apps"@),
                        out@.len() == 1 + r * 24 + si * 3 + ei,
                        Seq::new(out@.len(), |i: int| out@[i]@) == target.take(out@.len() as int),
                    decreases 3 - ei,
                {
                    let ghost before = Seq::new(out@.len(), |i: int| out@[i]@);
                    let c = join_path(apps_dir.as_str(), icon_file_of(&name, exts[ei]).as_str());
                    proof {
                        let k = r * 24 + si * 3 + ei;
                        lemma_index_split(r as int, si as int, ei as int, 8, 3);
                        assert(k / 24 == r && (k % 24) / 3 == si && k % 3 == ei);
                        assert(sizes@[si as int]@ == icon_sizes()[si as int]);
                        assert(exts@[ei as int]@ == icon_exts()[ei as int]);
                        assert(roots@[r as int]@ == icon_roots(home@)[r as int]);
                        assert(target[1 + k] == c@);
                    }
                    out.push(c);
                    assert(Seq::new(out@.len(), |i: int| out@[i]@) =~= target.take(out@.len() as int));
                    ei += 1;
                }
                si += 1;
            }
            r += 1;
        }
        let mut t: usize = 0;
        while t < themes.len()
            invariant
                t <= themes@.len(),
                themes@.len() * 48 + 100 <= usize::MAX,
                tv == Seq::new(themes@.len(), |i: int| themes@[i]@),
                sizes@.len() == 8,
                Seq::new(sizes@.len(), |i: int| sizes@[i]@) == icon_sizes(),
                exts@.len() == 3,
                Seq::new(exts@.len(), |i: int| exts@[i]@) == icon_exts(),
                target == icon_candidates(name@, home@, tv),
                out@.len() == 97 + t * 48,
                Seq::new(out@.len(), |i: int| out@[i]@) == target.take(out@.len() as int),
            decreases themes.len() - t,
        {
            let mut si: usize = 0;
            while si < 8
                invariant
                    t < themes@.len(),
                    si <= 8,
                    themes@.len() * 48 + 100 <= usize::MAX,
                    tv == Seq::new(themes@.len(), |i: int| themes@[i]@),
                    sizes@.len() == 8,
                Seq::new(sizes@.len(), |i: int| sizes@[i]@) == icon_sizes(),
                    exts@.len() == 3,
                Seq::new(exts@.len(), |i: int| exts@[i]@) == icon_exts(),
                    target == icon_candidates(name@, home@, tv),
                    out@.len() == 97 + t * 48 + si * 6,
                    Seq::new(out@.len(), |i: int| out@[i]@) == target.take(out@.len() as int),
                decreases 8 - si,
            {
                let size_apps = join_path(join_path(themes[t].as_str(), sizes[si]).as_str(), "apps");
                let apps_size = join_path(join_path(themes[t].as_str(), "apps").as_str(), sizes[si]);
                let mut ei: usize = 0;
                while ei < 3
                    invariant
                        t < themes@.len(),
                        si < 8,
                        ei <= 3,
                        themes@.len() * 48 + 100 <= usize::MAX,
                        tv == Seq::new(themes@.len(), |i: int| themes@[i]@),
                        sizes@.len() == 8,
                Seq::new(sizes@.len(), |i: int| sizes@[i]@) == icon_sizes(),
                        exts@.len() == 3,
                Seq::new(exts@.len(), |i: int| exts@[i]@) == icon_exts(),
                        target == icon_candidates(name@, home@, tv),
                        size_apps@ == path_join(path_join(themes@[t as int]@, sizes@[si as int]@), "apps"@),
                        apps_size@ == path_join(path_join(themes@[t as int]@, "apps"@), sizes@[si as int]@),
                        out@.len() == 97 + t * 48 + si * 6 + ei * 2,
                        Seq::new(out@.len(), |i: int| out@[i]@) == target.take(out@.len() as int),
                    decreases 3 - ei,
                {
                    let file = icon_file_of(&name, exts[ei]);
                    let ghost before = Seq::new(out@.len(), |i: int| out@[i]@);
                    let c1 = join_path(size_apps.as_str(), file.as_str());
                    let c2 = join_path(apps_size.as_str(), file.as_str());
                    proof {
                        let k = t * 48 + si * 6 + ei * 2;
                        lemma_index_split(t as int, si as int, (ei * 2) as int, 8, 6);
                        lemma_index_split(t as int, si as int, (ei * 2 + 1) as int, 8, 6);
                        assert((ei * 2) / 2 == ei && (ei * 2 + 1) / 2 == ei);
                        assert(sizes@[si as int]@ == icon_sizes()[si as int]);
                        assert(exts@[ei as int]@ == icon_exts()[ei as int]);
                        assert(tv[t as int] == themes@[t as int]@);
                        assert(target[97 + k] == c1@);
                        assert(target[97 + k + 1] == c2@);
                    }
                    out.push(c1);
                    out.push(c2);
                    assert(Seq::new(out@.len(), |i: int| out@[i]@) =~= target.take(out@.len() as int));
                    ei += 1;
                }
                si += 1;
            }
            t += 1;
        }
        let pix = vec!["png", "svg", "xpm"];
        let mut p: usize = 0;
        while p < 3
            invariant
                p <= 3,
                pix@.len() == 3,
                tv == Seq::new(themes@.len(), |i: int| themes@[i]@),
                Seq::new(pix@.len(), |i: int| pix@[i]@) == pixmap_exts(),
                target == icon_candidates(name@, home@, tv),
                out@.len() == 97 + themes@.len() * 48 + p,
                Seq::new(out@.len(), |i: int| out@[i]@) == target.take(out@.len() as int),
            decreases 3 - p,
        {
            let c = join_path("/usr/share/pixmaps", icon_file_of(&name, pix[p]).as_str());
            proof {
                assert(pix@[p as int]@ == pixmap_exts()[p as int]);
                assert(target[97 + themes@.len() * 48 + p] == c@);
            }
            out.push(c);
            assert(Seq::new(out@.len(), |i: int| out@[i]@) =~= target.take(out@.len() as int));
            p += 1;
        }
        assert(target.take(out@.len() as int) =~= target);
        out
    }

    /// The items with their icon files: each item's `icon_path` is what
    /// `resolve_icon_path` finds for its icon name, given the theme
    /// directories and the candidate paths that are existing files; every
    /// other field is kept.
    pub fn resolve_item_icons(
        items: Vec<ApplicationItem>,
        home_env: Option<&str>,
        themes: &Vec<String>,
        files: &Vec<String>,
    ) -> (r: Vec<ApplicationItem>)
        requires
            themes@.len() * 48 + 100 <= usize::MAX,
        ensures
            r@.len() == items@.len(),
            forall|i: int| 0 <= i < r@.len() ==> {
                &&& #[trigger] r@[i] == ApplicationItem { icon_path: r@[i].icon_path, ..items@[i] }
                &&& item_icon_resolved(
                    items@[i].icon@,
                    match crate::filesystem::xdg::opt_view(home_env) {
                        Some(h) => h,
                        None => "/home/anonim"@,
                    },
                    Seq::new(themes@.len(), |k: int| themes@[k]@),
                    Seq::new(files@.len(), |k: int| files@[k]@),
                    r@[i].icon_path,
                )
            },
    {
        let ghost home = match crate::filesystem::xdg::opt_view(home_env) {
            Some(h) => h,
            None => "/home/anonim"@,
        };
        let ghost ts = Seq::new(themes@.len(), |k: int| themes@[k]@);
        let ghost fs = Seq::new(files@.len(), |k: int| files@[k]@);
        let mut out: Vec<ApplicationItem> = Vec::new();
        let mut i: usize = 0;
        while i < items.len()
            invariant
                i <= items@.len(),
                themes@.len() * 48 + 100 <= usize::MAX,
                home == match crate::filesystem::xdg::opt_view(home_env) {
                    Some(h) => h,
                    None => "/home/anonim"@,
                },
                ts == Seq::new(themes@.len(), |k: int| themes@[k]@),
                fs == Seq::new(files@.len(), |k: int| files@[k]@),
                out@.len() == i,
                forall|k: int| 0 <= k < i ==> {
                    &&& #[trigger] out@[k] == ApplicationItem { icon_path: out@[k].icon_path, ..items@[k] }
                    &&& item_icon_resolved(items@[k].icon@, home, ts, fs, out@[k].icon_path)
                },
            decreases items.len() - i,
        {
            let mut item = items[i].clone();
            let p = Self::resolve_icon_path(item.icon.as_str(), home_env, themes, files);
            item.icon_path = p;
            out.push(item);
            i += 1;
        }
        out
    }

    /// The icon file of an icon name, given the theme directories found in
    /// the icon roots (in order) and the candidate paths that are existing
    /// files: see `resolved_icon`.
    pub fn resolve_icon_path(icon_name: &str, home_env: Option<&str>, themes: &Vec<String>, files: &Vec<String>) -> (r: Option<String>)
        requires
            themes@.len() * 48 + 100 <= usize::MAX,
        ensures
            match r {
                Some(p) => resolved_icon(
                    icon_name@,
                    match crate::filesystem::xdg::opt_view(home_env) {
                        Some(h) => h,
                        None => "/home/anonim"@,
                    },
                    Seq::new(themes@.len(), |i: int| themes@[i]@),
                    Seq::new(files@.len(), |i: int| files@[i]@),
                ) == Some(p@),
                None => resolved_icon(
                    icon_name@,
                    match crate::filesystem::xdg::opt_view(home_env) {
                        Some(h) => h,
                        None => "/home/anonim"@,
                    },
                    Seq::new(themes@.len(), |i: int| themes@[i]@),
                    Seq::new(files@.len(), |i: int| files@[i]@),
                ) is None,
            },
    {
        if trim_vec(&vec_of(icon_name)).len() == 0 {
            return None;
        }
        let cands = Self::icon_candidates_of(icon_name, home_env, themes);
        let ghost cs = Seq::new(cands@.len(), |i: int| cands@[i]@);
        let ghost fs = Seq::new(files@.len(), |i: int| files@[i]@);
        let ghost res = resolved_icon(
            icon_name@,
            match crate::filesystem::xdg::opt_view(home_env) {
                Some(h) => h,
                None => "/home/anonim"@,
            },
            Seq::new(themes@.len(), |i: int| themes@[i]@),
            fs,
        );
        assert(res == first_file(cs, fs));
        let mut i: usize = 0;
        assert(cs.skip(0) =~= cs);
        while i < cands.len()
            invariant
                i <= cands@.len(),
                res == first_file(cs, fs),
                res == resolved_icon(
                    icon_name@,
                    match crate::filesystem::xdg::opt_view(home_env) {
                        Some(h) => h,
                        None => "/home/anonim"@,
                    },
                    Seq::new(themes@.len(), |i: int| themes@[i]@),
                    Seq::new(files@.len(), |i: int| files@[i]@),
                ),
                cs == Seq::new(cands@.len(), |k: int| cands@[k]@),
                fs == Seq::new(files@.len(), |k: int| files@[k]@),
                first_file(cs, fs) == first_file(cs.skip(i as int), fs),
            decreases cands.len() - i,
        {
            let c = vec_of(cands[i].as_str());
            let mut found = false;
            let mut k: usize = 0;
            while k < files.len()
                invariant
                    k <= files@.len(),
                    fs == Seq::new(files@.len(), |m: int| files@[m]@),
                    found ==> fs.contains(c@),
                    !found ==> forall|m: int| 0 <= m < k ==> fs[m] != c@,
                decreases files.len() - k,
            {
                if vec_eq(&vec_of(files[k].as_str()), &c) {
                    assert(fs[k as int] == c@);
                    found = true;
                }
                k += 1;
            }
            assert(cs.skip(i as int)[0] == c@);
            if found {
                let r = cands[i].clone();
                assert(first_file(cs.skip(i as int), fs) == Some(c@));
                assert(r@ == c@);
                return Some(r);
            }
            assert(cs.skip(i as int).drop_first() =~= cs.skip(i + 1));
            i += 1;
        }
        assert(cs.skip(i as int) =~= Seq::<Seq<char>>::empty());
        None
    }
}

} // verus!
