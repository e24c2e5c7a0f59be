//! Reading, writing and toggling XDG autostart `.desktop` files.

use vstd::prelude::*;
use crate::filesystem::xdg::opt_view;
use crate::paths::{file_name, file_name_of, file_stem, join_path, path_join, stem_of};
use crate::split::{
    append_str, fields_from, fields_vec, join, join_vec, lines, lines_vec, push_all,
    replace_from, replace_vec, split_once, split_once_vec, views, words, words_vec,
};
use crate::startup::models::{CreateStartupRequest, StartupItem, StartupSource, source_code};
use crate::text::{
    alphanumeric, char_is_alphanumeric, contains, eq_ignore_ascii_case, has_control, lowercase,
    lower_vec, slice_of, starts_with, string_from_chars, trim, trim_vec, vec_contains, vec_eq,
    vec_eq_ignore_ascii_case, vec_has_control, vec_of, vec_starts_with,
};

verus! {

/// The file name of the application's own autostart entry.
pub const APP_AUTOSTART_FILE_NAME: &'static str = "tidy-cleaner.desktop";

/// Reads and writes autostart entries.
pub struct DesktopAutostart;

/// Why an autostart request or change was refused.
#[derive(Debug, Clone, Copy, PartialEq, Eq, Structural)]
pub enum StartupError {
    /// The application name is empty.
    EmptyName,
    /// The command is empty.
    EmptyCommand,
    /// A field holds a line break or another control character.
    ControlCharacters,
    /// Neither the user's copy nor the entry's own file exists.
    MissingFile,
    /// No entry has the requested id.
    NotFound,
}

/// What is wrong with a request, if anything: an empty (trimmed) name, an
/// empty command, or a control character in the trimmed name, command or
/// comment, checked in that order.
pub open spec fn request_error(req: CreateStartupRequest) -> Option<StartupError> {
    if trim(req.name@).len() == 0 {
        Some(StartupError::EmptyName)
    } else if trim(req.command@).len() == 0 {
        Some(StartupError::EmptyCommand)
    } else if has_control(trim(req.name@)) || has_control(trim(req.command@)) || has_control(
        trim(req.comment@),
    ) {
        Some(StartupError::ControlCharacters)
    } else {
        None
    }
}

/// The user's autostart directory: `autostart` under `XDG_CONFIG_HOME`
/// (when set and not empty), else under `~/.config`, else under `.config`.
pub open spec fn user_autostart_dir(xdg_config_home: Option<Seq<char>>, home: Option<Seq<char>>) -> Seq<char> {
    let base = match xdg_config_home {
        Some(x) => if x.len() > 0 {
            x
        } else {
            match home {
                Some(h) => path_join(h, ".config"@),
                None => ".config"@,
            }
        },
        None => match home {
            Some(h) => path_join(h, ".config"@),
            None => ".config"@,
        },
    };
    path_join(base, "autostart"@)
}

/// The system autostart directories: `autostart` under each non-empty
/// entry of `XDG_CONFIG_DIRS`, or `/etc/xdg/autostart` when there is none.
pub open spec fn system_autostart_dirs(xdg_config_dirs: Option<Seq<char>>) -> Seq<Seq<char>> {
    let ds = match xdg_config_dirs {
        Some(d) => {
            let fs = fields_from(d, ':', 0);
            Seq::new(fs.len(), |i: int| path_join(fs[i], "autostart"@))
        },
        None => seq![],
    };
    if ds.len() == 0 {
        seq!["/etc/xdg/autostart"@]
    } else {
        ds
    }
}

/// `~/` in a command replaced by the home directory: a leading `~/`, else
/// every `~/`, and nothing when the home directory is unknown (empty).
pub open spec fn expand_home(command: Seq<char>, home: Seq<char>) -> Seq<char> {
    if starts_with(command, "~/"@) {
        if home.len() == 0 {
            command
        } else {
            home + "/"@ + command.skip(2)
        }
    } else if contains(command, "~/"@) {
        if home.len() == 0 {
            command
        } else {
            replace_from(command, "~/"@, home + "/"@, 0)
        }
    } else {
        command
    }
}

/// The command as written to the entry: trimmed, and put in double quotes
/// when it is a single existing path with a space in it (`path_exists`
/// says whether the trimmed command names an existing path).
pub open spec fn quote_command(command: Seq<char>, path_exists: bool) -> Seq<char> {
    let t = trim(command);
    if t.len() == 0 || t[0] == '"' {
        t
    } else if contains(t, " "@) && path_exists {
        "\""@ + t + "\""@
    } else {
        t
    }
}

/// The icon of an entry: the trimmed icon, or `application-x-executable`.
pub open spec fn icon_or_default(icon: Seq<char>) -> Seq<char> {
    if trim(icon).len() == 0 {
        "application-x-executable"@
    } else {
        trim(icon)
    }
}

/// `true` or `false`.
pub open spec fn bool_text(b: bool) -> Seq<char> {
    if b {
        "true"@
    } else {
        "false"@
    }
}

/// The lines of the entry written for a request.
pub open spec fn entry_lines(req: CreateStartupRequest, home: Seq<char>, path_exists: bool) -> Seq<Seq<char>> {
    seq![
        "[Desktop Entry]"@,
        "Type=Application"@,
        "Version=1.0"@,
        "Name="@ + trim(req.name@),
        "Comment="@ + trim(req.comment@),
        "Exec="@ + quote_command(expand_home(trim(req.command@), home), path_exists),
        "Icon="@ + icon_or_default(req.icon@),
        "Terminal="@ + bool_text(req.terminal),
        "StartupNotify=false"@,
        "X-GNOME-Autostart-enabled=true"@,
        "X-KDE-autostart-enabled=true"@,
        "Categories=Utility;"@,
    ]
}

/// The lines, each followed by a newline.
pub open spec fn terminated(ls: Seq<Seq<char>>) -> Seq<char>
    decreases ls.len(),
{
    if ls.len() == 0 {
        seq![]
    } else {
        terminated(ls.drop_last()) + ls.last() + "\n"@
    }
}

/// The text of the entry written for a request.
pub open spec fn desktop_content(req: CreateStartupRequest, home: Seq<char>, path_exists: bool) -> Seq<char> {
    terminated(entry_lines(req, home, path_exists))
}

/// The characters kept in an entry's file name: letters, digits, `-` and
/// `_`; any other becomes `_`.
pub open spec fn safe_char(c: char) -> char {
    if alphanumeric(c) || c == '-' || c == '_' {
        c
    } else {
        '_'
    }
}

/// The file name of a user entry: the name with unsafe characters
/// replaced, lowercased, with `.desktop` appended.
pub open spec fn entry_file_name(name: Seq<char>) -> Seq<char> {
    lowercase(Seq::new(name.len(), |i: int| safe_char(name[i]))) + ".desktop"@
}

/// What parsing has gathered so far.
pub struct ParseState {
    pub in_entry: bool,
    pub name: Seq<char>,
    pub comment: Seq<char>,
    pub command: Seq<char>,
    pub icon: Seq<char>,
    pub terminal: bool,
    pub hidden: bool,
    pub autostart: bool,
}

/// The state before the first line.
pub open spec fn parse_start() -> ParseState {
    ParseState {
        in_entry: false,
        name: seq![],
        comment: seq![],
        command: seq![],
        icon: seq![],
        terminal: false,
        hidden: false,
        autostart: true,
    }
}

/// The words of an `Exec` value without field codes (words that start
/// with `%`).
pub open spec fn without_field_codes(ws: Seq<Seq<char>>) -> Seq<Seq<char>>
    decreases ws.len(),
{
    if ws.len() == 0 {
        seq![]
    } else if ws.last().len() > 0 && ws.last()[0] == '%' {
        without_field_codes(ws.drop_last())
    } else {
        without_field_codes(ws.drop_last()).push(ws.last())
    }
}

/// The effect of one `key=value` line of the `[Desktop Entry]` section:
/// the first `Name`, `Comment`, `Exec` (field codes removed, words joined
/// by single spaces) and `Icon` are kept; `Terminal` and `Hidden` are true
/// when their value is `true` in any case; either autostart switch set to
/// `false` in any case disables the entry.
pub open spec fn apply_key(st: ParseState, key: Seq<char>, val: Seq<char>) -> ParseState {
    if key == "Name"@ && st.name.len() == 0 {
        ParseState { name: val, ..st }
    } else if key == "Comment"@ && st.comment.len() == 0 {
        ParseState { comment: val, ..st }
    } else if key == "Exec"@ && st.command.len() == 0 {
        ParseState { command: join(without_field_codes(words(val)), " "@), ..st }
    } else if key == "Icon"@ && st.icon.len() == 0 {
        ParseState { icon: val, ..st }
    } else if key == "Terminal"@ {
        ParseState { terminal: eq_ignore_ascii_case(val, "true"@), ..st }
    } else if key == "Hidden"@ {
        ParseState { hidden: eq_ignore_ascii_case(val, "true"@), ..st }
    } else if (key == "X-GNOME-Autostart-enabled"@ || key == "X-KDE-autostart-enabled"@)
        && eq_ignore_ascii_case(val, "false"@) {
        ParseState { autostart: false, ..st }
    } else {
        st
    }
}

/// The effect of one line, or `None` when parsing stops: the
/// `[Desktop Entry]` header opens the section, the next section header
/// ends it, and `key=value` lines (trimmed around the line, the key and
/// the value) count inside it.
pub open spec fn parse_line(st: ParseState, raw: Seq<char>) -> Option<ParseState> {
    let l = trim(raw);
    if l == "[Desktop Entry]"@ {
        Some(ParseState { in_entry: true, ..st })
    } else if starts_with(l, "["@) && st.in_entry {
        None
    } else if !st.in_entry {
        Some(st)
    } else {
        match split_once(l, '=') {
            Some((k, v)) => Some(apply_key(st, trim(k), trim(v))),
            None => Some(st),
        }
    }
}

/// The state after the lines, stopping where `parse_line` stops.
pub open spec fn parse_lines(st: ParseState, ls: Seq<Seq<char>>) -> ParseState
    decreases ls.len(),
{
    if ls.len() == 0 {
        st
    } else {
        match parse_line(st, ls[0]) {
            Some(next) => parse_lines(next, ls.drop_first()),
            None => st,
        }
    }
}

/// The entry read from the file at `path` with the given content: the
/// name falls back to the file's stem (or `Unknown Entry`), the file name
/// to `unknown.desktop`; the id is the source's code, `:` and the file
/// name; the entry is enabled unless hidden or switched off.
pub open spec fn parsed_entry_is(item: StartupItem, content: Seq<char>, path: Seq<char>, source: StartupSource) -> bool {
    let st = parse_lines(parse_start(), lines(content));
    let fname = match file_name_of(path) {
        Some(n) => n,
        None => "unknown.desktop"@,
    };
    let name = if st.name.len() > 0 {
        st.name
    } else {
        match file_name_of(path) {
            Some(n) => stem_of(n),
            None => "Unknown Entry"@,
        }
    };
    &&& item.id@ == source_code(source) + ":"@ + fname
    &&& item.file_name@ == fname
    &&& item.name@ == name
    &&& item.comment@ == st.comment
    &&& item.command@ == st.command
    &&& item.icon@ == st.icon
    &&& item.icon_path is None
    &&& item.source == source
    &&& item.enabled == (!st.hidden && st.autostart)
    &&& item.file_path@ == path
    &&& item.is_terminal == st.terminal
}

/// One line of an entry being switched on (`enable`) or off: the `Hidden`
/// and both autostart switches (recognised on the trimmed line) are
/// rewritten; other lines stay as they are.
pub open spec fn toggle_line(line: Seq<char>, enable: bool) -> Seq<char> {
    let t = trim(line);
    if starts_with(t, "Hidden="@) {
        "Hidden="@ + bool_text(!enable)
    } else if starts_with(t, "X-GNOME-Autostart-enabled="@) {
        "X-GNOME-Autostart-enabled="@ + bool_text(enable)
    } else if starts_with(t, "X-KDE-autostart-enabled="@) {
        "X-KDE-autostart-enabled="@ + bool_text(enable)
    } else {
        line
    }
}

/// The line, trimmed, is the `[Desktop Entry]` header.
pub open spec fn is_entry_header(l: Seq<char>) -> bool {
    trim(l) == "[Desktop Entry]"@
}

/// The line, trimmed, opens another section.
pub open spec fn is_other_header(l: Seq<char>) -> bool {
    starts_with(trim(l), "["@) && trim(l) != "[Desktop Entry]"@
}

/// Index of the first `[Desktop Entry]` header at or after `i`, or the
/// number of lines.
pub open spec fn entry_header_from(ls: Seq<Seq<char>>, i: int) -> int
    decreases ls.len() - i,
{
    if i < 0 || i >= ls.len() {
        ls.len() as int
    } else if is_entry_header(ls[i]) {
        i
    } else {
        entry_header_from(ls, i + 1)
    }
}

/// Index of the first header of another section at or after `i`, or the
/// number of lines.
pub open spec fn other_header_from(ls: Seq<Seq<char>>, i: int) -> int
    decreases ls.len() - i,
{
    if i < 0 || i >= ls.len() {
        ls.len() as int
    } else if is_other_header(ls[i]) {
        i
    } else {
        other_header_from(ls, i + 1)
    }
}

/// Where the `[Desktop Entry]` group ends: at the first header of another
/// section after its own header, else after the last line (also when there
/// is no such group).
pub open spec fn group_end(ls: Seq<Seq<char>>) -> int {
    let h = entry_header_from(ls, 0);
    if h >= ls.len() {
        ls.len() as int
    } else {
        other_header_from(ls, h + 1)
    }
}

/// Some line of the `[Desktop Entry]` group, trimmed, starts with `p`.
pub open spec fn group_has(ls: Seq<Seq<char>>, p: Seq<char>) -> bool {
    exists|i: int| entry_header_from(ls, 0) < i < group_end(ls) && starts_with(trim(#[trigger] ls[i]), p)
}

/// The switches a group lacks, in the order `Hidden`, GNOME, KDE.
pub open spec fn missing_switches(ls: Seq<Seq<char>>, enable: bool) -> Seq<Seq<char>> {
    (if group_has(ls, "Hidden="@) {
        seq![]
    } else {
        seq!["Hidden="@ + bool_text(!enable)]
    }) + (if group_has(ls, "X-GNOME-Autostart-enabled="@) {
        seq![]
    } else {
        seq!["X-GNOME-Autostart-enabled="@ + bool_text(enable)]
    }) + (if group_has(ls, "X-KDE-autostart-enabled="@) {
        seq![]
    } else {
        seq!["X-KDE-autostart-enabled="@ + bool_text(enable)]
    })
}

/// The lines of a switched entry: each line rewritten, and the switches the
/// `[Desktop Entry]` group lacks inserted at the end of that group.
pub open spec fn toggled_lines(ls: Seq<Seq<char>>, enable: bool) -> Seq<Seq<char>> {
    let mapped = Seq::new(ls.len(), |i: int| toggle_line(ls[i], enable));
    let e = group_end(ls);
    mapped.take(e) + missing_switches(ls, enable) + mapped.skip(e)
}

/// The text of a switched entry: its lines joined by newlines, with a
/// final newline.
pub open spec fn toggled_content(content: Seq<char>, enable: bool) -> Seq<char> {
    join(toggled_lines(lines(content), enable), "\n"@) + "\n"@
}

/// `trim` of a string slice, as characters.
fn trimmed(s: &str) -> (r: Vec<char>)
    ensures
        r@ == trim(s@),
{
    trim_vec(&vec_of(s))
}

/// `without_field_codes` computed.
fn drop_field_codes(ws: &Vec<Vec<char>>) -> (r: Vec<Vec<char>>)
    ensures
        views(r@) == without_field_codes(views(ws@)),
{
    let mut out: Vec<Vec<char>> = Vec::new();
    let mut i: usize = 0;
    while i < ws.len()
        invariant
            i <= ws.len(),
            views(out@) == without_field_codes(views(ws@).take(i as int)),
        decreases ws.len() - i,
    {
        let ghost before = views(out@);
        assert(views(ws@).take(i + 1).drop_last() =~= views(ws@).take(i as int));
        assert(views(ws@).take(i + 1).last() == ws@[i as int]@);
        let w = &ws[i];
        if !(w.len() > 0 && w[0] == '%') {
            out.push(w.clone());
            assert(views(out@) =~= before.push(ws@[i as int]@));
        }
        i += 1;
    }
    assert(views(ws@).take(i as int) =~= views(ws@));
    out
}

impl DesktopAutostart {
    /// The user's autostart directory, from `XDG_CONFIG_HOME` and `HOME`.
    pub fn get_user_autostart_dir(xdg_config_home: Option<&str>, home: Option<&str>) -> (r: String)
        ensures
            r@ == user_autostart_dir(opt_view(xdg_config_home), opt_view(home)),
    {
        let base = match xdg_config_home {
            Some(x) if vec_of(x).len() > 0 => x.to_owned(),
            _ => match home {
                Some(h) => join_path(h, ".config"),
                None => ".config".to_owned(),
            },
        };
        join_path(base.as_str(), "autostart")
    }

    /// The system autostart directories, from `XDG_CONFIG_DIRS`.
    pub fn get_system_autostart_dirs(xdg_config_dirs: Option<&str>) -> (r: Vec<String>)
        ensures
            Seq::new(r@.len(), |i: int| r@[i]@) == system_autostart_dirs(opt_view(xdg_config_dirs)),
    {
        let mut dirs: Vec<String> = Vec::new();
        let ghost fs: Seq<Seq<char>> = match opt_view(xdg_config_dirs) {
            Some(d) => fields_from(d, ':', 0),
            None => seq![],
        };
        match xdg_config_dirs {
            Some(d) => {
                let parts = fields_vec(&vec_of(d), ':');
                let mut i: usize = 0;
                while i < parts.len()
                    invariant
                        i <= parts.len(),
                        views(parts@) == fs,
                        Seq::new(dirs@.len(), |k: int| dirs@[k]@) == Seq::new(
                            i as nat,
                            |k: int| path_join(fs[k], "autostart"@),
                        ),
                    decreases parts.len() - i,
                {
                    let ghost before = Seq::new(dirs@.len(), |k: int| dirs@[k]@);
                    let p = string_from_chars(&parts[i]);
                    let dir = join_path(p.as_str(), "autostart");
                    dirs.push(dir);
                    assert(Seq::new(dirs@.len(), |k: int| dirs@[k]@) =~= before.push(dir@));
                    i += 1;
                    assert(Seq::new(dirs@.len(), |k: int| dirs@[k]@) =~= Seq::new(
                        i as nat,
                        |k: int| path_join(fs[k], "autostart"@),
                    ));
                }
            },
            None => {},
        }
        if dirs.len() == 0 {
            dirs.push("/etc/xdg/autostart".to_owned());
            assert(Seq::new(dirs@.len(), |k: int| dirs@[k]@) =~= seq!["/etc/xdg/autostart"@]);
        }
        dirs
    }

    /// Checks a request: see `request_error`.
    pub fn validate_request(req: &CreateStartupRequest) -> (r: Result<(), StartupError>)
        ensures
            match r {
                Ok(()) => request_error(*req) is None,
                Err(e) => request_error(*req) == Some(e),
            },
    {
        let name = trimmed(req.name.as_str());
        let command = trimmed(req.command.as_str());
        let comment = trimmed(req.comment.as_str());
        if name.len() == 0 {
            return Err(StartupError::EmptyName);
        }
        if command.len() == 0 {
            return Err(StartupError::EmptyCommand);
        }
        if Self::contains_control_chars(&name) || Self::contains_control_chars(&command)
            || Self::contains_control_chars(&comment) {
            return Err(StartupError::ControlCharacters);
        }
        Ok(())
    }

    fn contains_control_chars(s: &Vec<char>) -> (r: bool)
        ensures
            r == has_control(s@),
    {
        vec_has_control(s)
    }

    /// The command with `~/` expanded against `home`, trimmed: the path
    /// whose existence decides the quoting in `generate_desktop_file_content`.
    pub fn expanded_command(req: &CreateStartupRequest, home: &str) -> (r: String)
        ensures
            r@ == trim(expand_home(trim(req.command@), home@)),
    {
        let c = Self::expand_home_vec(&trimmed(req.command.as_str()), home);
        string_from_chars(&trim_vec(&c))
    }

    fn expand_home_vec(command: &Vec<char>, home: &str) -> (r: Vec<char>)
        ensures
            r@ == expand_home(command@, home@),
    {
        let tilde = vec_of("~/");
        let h = vec_of(home);
        proof {
            reveal_strlit("~/");
        }
        if vec_starts_with(command, &tilde) {
            if h.len() == 0 {
                return command.clone();
            }
            let mut out = h.clone();
            append_str(&mut out, "/");
            let rest = slice_of(command, 2, command.len());
            assert(rest@ =~= command@.skip(2));
            push_all(&mut out, &rest);
            out
        } else if vec_contains(command, &tilde) {
            if h.len() == 0 {
                return command.clone();
            }
            let mut rep = h.clone();
            append_str(&mut rep, "/");
            replace_vec(command, &tilde, &rep)
        } else {
            command.clone()
        }
    }

    fn quote_exec_if_needed(command: &Vec<char>, path_exists: bool) -> (r: Vec<char>)
        ensures
            r@ == quote_command(command@, path_exists),
    {
        let t = trim_vec(command);
        if t.len() == 0 || t[0] == '"' {
            return t;
        }
        if vec_contains(&t, &vec_of(" ")) && path_exists {
            let mut out = vec_of("\"");
            push_all(&mut out, &t);
            append_str(&mut out, "\"");
            return out;
        }
        t
    }

    /// The text of the entry written for a request; `home` is `HOME` (empty
    /// when unset) and `path_exists` whether `expanded_command` names an
    /// existing path.
    pub fn generate_desktop_file_content(req: &CreateStartupRequest, home: &str, path_exists: bool) -> (r: String)
        ensures
            r@ == desktop_content(*req, home@, path_exists),
    {
        let expanded = Self::expand_home_vec(&trimmed(req.command.as_str()), home);
        let command = Self::quote_exec_if_needed(&expanded, path_exists);
        let icon_t = trimmed(req.icon.as_str());
        let icon = if icon_t.len() == 0 {
            vec_of("application-x-executable")
        } else {
            icon_t
        };
        let mut ls: Vec<Vec<char>> = Vec::new();
        ls.push(vec_of("[Desktop Entry]"));
        ls.push(vec_of("Type=Application"));
        ls.push(vec_of("Version=1.0"));
        ls.push(prefixed("Name=", &trimmed(req.name.as_str())));
        ls.push(prefixed("Comment=", &trimmed(req.comment.as_str())));
        ls.push(prefixed("Exec=", &command));
        ls.push(prefixed("Icon=", &icon));
        ls.push(prefixed("Terminal=", &vec_of(if req.terminal { "true" } else { "false" })));
        ls.push(vec_of("StartupNotify=false"));
        ls.push(vec_of("X-GNOME-Autostart-enabled=true"));
        ls.push(vec_of("X-KDE-autostart-enabled=true"));
        ls.push(vec_of("Categories=Utility;"));
        assert(views(ls@) =~= entry_lines(*req, home@, path_exists));
        let out = terminated_vec(&ls);
        string_from_chars(&out)
    }
}

/// `p` followed by `v`.
fn prefixed(p: &str, v: &Vec<char>) -> (r: Vec<char>)
    ensures
        r@ == p@ + v@,
{
    let mut out = vec_of(p);
    push_all(&mut out, v);
    out
}

/// `terminated` computed.
fn terminated_vec(ls: &Vec<Vec<char>>) -> (r: Vec<char>)
    ensures
        r@ == terminated(views(ls@)),
{
    let mut out: Vec<char> = Vec::new();
    let mut i: usize = 0;
    while i < ls.len()
        invariant
            i <= ls.len(),
            out@ == terminated(views(ls@).take(i as int)),
        decreases ls.len() - i,
    {
        push_all(&mut out, &ls[i]);
        append_str(&mut out, "\n");
        assert(views(ls@).take(i + 1).drop_last() =~= views(ls@).take(i as int));
        i += 1;
    }
    assert(views(ls@).take(i as int) =~= views(ls@));
    out
}

/// Parsing state, computed.
struct ParseCursor {
    in_entry: bool,
    name: Vec<char>,
    comment: Vec<char>,
    command: Vec<char>,
    icon: Vec<char>,
    terminal: bool,
    hidden: bool,
    autostart: bool,
}

impl View for ParseCursor {
    type V = ParseState;

    closed spec fn view(&self) -> ParseState {
        ParseState {
            in_entry: self.in_entry,
            name: self.name@,
            comment: self.comment@,
            command: self.command@,
            icon: self.icon@,
            terminal: self.terminal,
            hidden: self.hidden,
            autostart: self.autostart,
        }
    }
}

/// `apply_key` computed.
fn apply_key_exec(st: &mut ParseCursor, key: &Vec<char>, val: &Vec<char>)
    ensures
        final(st)@ == apply_key(old(st)@, key@, val@),
{
    proof {
        reveal_strlit("Name");
        reveal_strlit("Comment");
        reveal_strlit("Exec");
        reveal_strlit("Icon");
        reveal_strlit("Terminal");
        reveal_strlit("Hidden");
        reveal_strlit("X-GNOME-Autostart-enabled");
        reveal_strlit("X-KDE-autostart-enabled");
    }
    if vec_eq(key, &vec_of("Name")) && st.name.len() == 0 {
        st.name = val.clone();
    } else if vec_eq(key, &vec_of("Comment")) && st.comment.len() == 0 {
        st.comment = val.clone();
    } else if vec_eq(key, &vec_of("Exec")) && st.command.len() == 0 {
        let ws = words_vec(val);
        let kept = drop_field_codes(&ws);
        st.command = join_vec(&kept, &vec_of(" "));
    } else if vec_eq(key, &vec_of("Icon")) && st.icon.len() == 0 {
        st.icon = val.clone();
    } else if vec_eq(key, &vec_of("Terminal")) {
        st.terminal = vec_eq_ignore_ascii_case(val, &vec_of("true"));
    } else if vec_eq(key, &vec_of("Hidden")) {
        st.hidden = vec_eq_ignore_ascii_case(val, &vec_of("true"));
    } else if (vec_eq(key, &vec_of("X-GNOME-Autostart-enabled")) || vec_eq(
        key,
        &vec_of("X-KDE-autostart-enabled"),
    )) && vec_eq_ignore_ascii_case(val, &vec_of("false")) {
        st.autostart = false;
    }
}

impl DesktopAutostart {
    /// The entry read from the file at `path`, whose text is `content`
    /// (`source` says which directory it came from): see `parsed_entry_is`.
    pub fn parse_file(content: &str, path: &str, source: StartupSource) -> (r: StartupItem)
        ensures
            parsed_entry_is(r, content@, path@, source),
    {
        let ls = lines_vec(&vec_of(content));
        let mut st = ParseCursor {
            in_entry: false,
            name: Vec::new(),
            comment: Vec::new(),
            command: Vec::new(),
            icon: Vec::new(),
            terminal: false,
            hidden: false,
            autostart: true,
        };
        let header = vec_of("[Desktop Entry]");
        let open = vec_of("[");
        let ghost all = views(ls@);
        assert(st@ == parse_start());
        assert(all.skip(0) =~= all);
        let mut i: usize = 0;
        while i < ls.len()
            invariant_except_break
                i <= ls.len(),
                all == views(ls@),
                header@ == "[Desktop Entry]"@,
                open@ == "["@,
                parse_lines(parse_start(), all) == parse_lines(st@, all.skip(i as int)),
            ensures
                parse_lines(parse_start(), all) == st@,
            decreases ls.len() - i,
        {
            let ghost rest = all.skip(i as int);
            assert(rest[0] == ls@[i as int]@);
            assert(rest.drop_first() =~= all.skip(i + 1));
            let l = trim_vec(&ls[i]);
            if vec_eq(&l, &header) {
                st.in_entry = true;
            } else if vec_starts_with(&l, &open) && st.in_entry {
                break;
            } else if st.in_entry {
                match split_once_vec(&l, '=') {
                    Some((k, v)) => {
                        let kt = trim_vec(&k);
                        let vt = trim_vec(&v);
                        apply_key_exec(&mut st, &kt, &vt);
                    },
                    None => {},
                }
            }
            i += 1;
            proof {
                if i == ls.len() {
                    assert(all.skip(i as int) =~= Seq::<Seq<char>>::empty());
                }
            }
        }
        let fname = match file_name(path) {
            Some(n) => n,
            None => "unknown.desktop".to_owned(),
        };
        let name = if st.name.len() > 0 {
            string_from_chars(&st.name)
        } else {
            match file_name(path) {
                Some(n) => file_stem(n.as_str()),
                None => "Unknown Entry".to_owned(),
            }
        };
        let mut id = vec_of(source.code());
        append_str(&mut id, ":");
        append_str(&mut id, fname.as_str());
        StartupItem {
            id: string_from_chars(&id),
            file_name: fname,
            name,
            comment: string_from_chars(&st.comment),
            command: string_from_chars(&st.command),
            icon: string_from_chars(&st.icon),
            icon_path: None,
            source,
            enabled: !st.hidden && st.autostart,
            file_path: path.to_owned(),
            is_terminal: st.terminal,
        }
    }
}

/// Whether a line is the `[Desktop Entry]` header.
fn entry_header_line(l: &Vec<char>) -> (r: bool)
    ensures
        r == is_entry_header(l@),
{
    vec_eq(&trim_vec(l), &vec_of("[Desktop Entry]"))
}

/// Whether a line opens another section.
fn other_header_line(l: &Vec<char>) -> (r: bool)
    ensures
        r == is_other_header(l@),
{
    let t = trim_vec(l);
    vec_starts_with(&t, &vec_of("[")) && !vec_eq(&t, &vec_of("[Desktop Entry]"))
}

/// The `[Desktop Entry]` group's header and end: see `entry_header_from`
/// and `group_end`.
fn group_bounds(ls: &Vec<Vec<char>>) -> (r: (usize, usize))
    ensures
        r.0 == entry_header_from(views(ls@), 0),
        r.1 == group_end(views(ls@)),
{
    let ghost lv = views(ls@);
    let mut h: usize = 0;
    while h < ls.len() && !entry_header_line(&ls[h])
        invariant
            h <= ls.len(),
            lv == views(ls@),
            entry_header_from(lv, 0) == entry_header_from(lv, h as int),
        decreases ls.len() - h,
    {
        h += 1;
    }
    if h >= ls.len() {
        return (h, ls.len());
    }
    let mut e: usize = h + 1;
    while e < ls.len() && !other_header_line(&ls[e])
        invariant
            h < e <= ls.len(),
            lv == views(ls@),
            other_header_from(lv, h + 1) == other_header_from(lv, e as int),
        decreases ls.len() - e,
    {
        e += 1;
    }
    (h, e)
}

/// Whether a line strictly between `h` and `e`, trimmed, starts with `p`.
fn group_line_starts(ls: &Vec<Vec<char>>, h: usize, e: usize, p: &Vec<char>) -> (r: bool)
    requires
        e <= ls.len(),
    ensures
        r == exists|i: int| h < i < e && starts_with(trim(#[trigger] views(ls@)[i]), p@),
{
    if h >= e {
        return false;
    }
    let mut i: usize = h + 1;
    while i < e
        invariant
            h < i <= e,
            e <= ls.len(),
            forall|k: int| h < k < i ==> !starts_with(trim(#[trigger] views(ls@)[k]), p@),
        decreases e - i,
    {
        if vec_starts_with(&trim_vec(&ls[i]), p) {
            assert(starts_with(trim(views(ls@)[i as int]), p@));
            return true;
        }
        i += 1;
    }
    false
}

proof fn lemma_other_header_bound(ls: Seq<Seq<char>>, i: int)
    requires
        0 <= i,
    ensures
        i <= other_header_from(ls, i) <= ls.len() || (i > ls.len() && other_header_from(ls, i) == ls.len()),
    decreases ls.len() - i,
{
    if i < ls.len() && !is_other_header(ls[i]) {
        lemma_other_header_bound(ls, i + 1);
    }
}

/// `bool_text` computed.
fn bool_text_vec(b: bool) -> (r: Vec<char>)
    ensures
        r@ == bool_text(b),
{
    if b {
        vec_of("true")
    } else {
        vec_of("false")
    }
}

/// `toggle_line` computed.
fn toggle_line_vec(line: &Vec<char>, enable: bool) -> (r: Vec<char>)
    ensures
        r@ == toggle_line(line@, enable),
{
    let t = trim_vec(line);
    if vec_starts_with(&t, &vec_of("Hidden=")) {
        prefixed("Hidden=", &bool_text_vec(!enable))
    } else if vec_starts_with(&t, &vec_of("X-GNOME-Autostart-enabled=")) {
        prefixed("X-GNOME-Autostart-enabled=", &bool_text_vec(enable))
    } else if vec_starts_with(&t, &vec_of("X-KDE-autostart-enabled=")) {
        prefixed("X-KDE-autostart-enabled=", &bool_text_vec(enable))
    } else {
        line.clone()
    }
}

/// The text of an entry switched on or off: see `toggled_content`.
pub fn toggle_content(content: &str, enable: bool) -> (r: String)
    ensures
        r@ == toggled_content(content@, enable),
{
    let ls = lines_vec(&vec_of(content));
    let ghost lv = views(ls@);
    let mut out: Vec<Vec<char>> = Vec::new();
    let mut i: usize = 0;
    while i < ls.len()
        invariant
            i <= ls.len(),
            lv == views(ls@),
            views(out@) == Seq::new(i as nat, |k: int| toggle_line(lv[k], enable)),
        decreases ls.len() - i,
    {
        let ghost before = views(out@);
        let t = toggle_line_vec(&ls[i], enable);
        out.push(t);
        assert(views(out@) =~= before.push(t@));
        i += 1;
        assert(views(out@) =~= Seq::new(i as nat, |k: int| toggle_line(lv[k], enable)));
    }
    let (h, e) = group_bounds(&ls);
    proof {
        if h < ls.len() {
            lemma_other_header_bound(lv, h + 1);
        }
    }
    let mut extra: Vec<Vec<char>> = Vec::new();
    if !group_line_starts(&ls, h, e, &vec_of("Hidden=")) {
        extra.push(prefixed("Hidden=", &bool_text_vec(!enable)));
    }
    if !group_line_starts(&ls, h, e, &vec_of("X-GNOME-Autostart-enabled=")) {
        extra.push(prefixed("X-GNOME-Autostart-enabled=", &bool_text_vec(enable)));
    }
    if !group_line_starts(&ls, h, e, &vec_of("X-KDE-autostart-enabled=")) {
        extra.push(prefixed("X-KDE-autostart-enabled=", &bool_text_vec(enable)));
    }
    assert(views(extra@) =~= missing_switches(lv, enable));
    let ghost ov = views(out@);
    let ghost xv = views(extra@);
    let mut all: Vec<Vec<char>> = Vec::new();
    let mut k: usize = 0;
    while k < e
        invariant
            k <= e <= out@.len(),
            ov == views(out@),
            views(all@) == ov.take(k as int),
        decreases e - k,
    {
        let ghost before = views(all@);
        let t = slice_of(&out[k], 0, out[k].len());
        assert(t@ =~= ov[k as int]);
        all.push(t);
        assert(views(all@) =~= before.push(ov[k as int]));
        assert(views(all@) =~= ov.take(k + 1));
        k += 1;
    }
    let mut m: usize = 0;
    while m < extra.len()
        invariant
            m <= extra@.len(),
            e <= out@.len(),
            xv == views(extra@),
            views(all@) == ov.take(e as int) + xv.take(m as int),
        decreases extra@.len() - m,
    {
        let ghost before = views(all@);
        let t = slice_of(&extra[m], 0, extra[m].len());
        assert(t@ =~= xv[m as int]);
        all.push(t);
        assert(views(all@) =~= before.push(xv[m as int]));
        assert(views(all@) =~= ov.take(e as int) + xv.take(m + 1));
        m += 1;
    }
    assert(xv.take(m as int) =~= xv);
    while k < out.len()
        invariant
            e <= k <= out@.len(),
            ov == views(out@),
            views(all@) == ov.take(e as int) + xv + ov.subrange(e as int, k as int),
        decreases out@.len() - k,
    {
        let ghost before = views(all@);
        let t = slice_of(&out[k], 0, out[k].len());
        assert(t@ =~= ov[k as int]);
        all.push(t);
        assert(views(all@) =~= before.push(ov[k as int]));
        assert(views(all@) =~= ov.take(e as int) + xv + ov.subrange(e as int, k + 1));
        k += 1;
    }
    assert(ov.subrange(e as int, k as int) =~= ov.skip(e as int));
    let out = all;
    assert(views(out@) =~= toggled_lines(lines(content@), enable));
    let mut text = join_vec(&out, &vec_of("\n"));
    append_str(&mut text, "\n");
    string_from_chars(&text)
}

/// The file a user entry for the request is written to: see
/// `entry_file_name`.
pub fn entry_file_name_of(name: &str) -> (r: String)
    ensures
        r@ == entry_file_name(name@),
{
    let v = vec_of(name);
    let mut safe: Vec<char> = Vec::new();
    let mut i: usize = 0;
    while i < v.len()
        invariant
            i <= v.len(),
            safe@ == Seq::new(i as nat, |k: int| safe_char(v@[k])),
        decreases v.len() - i,
    {
        let c = v[i];
        if char_is_alphanumeric(c) || c == '-' || c == '_' {
            safe.push(c);
        } else {
            safe.push('_');
        }
        i += 1;
        assert(safe@ =~= Seq::new(i as nat, |k: int| safe_char(v@[k])));
    }
    let mut out = lower_vec(&safe);
    append_str(&mut out, ".desktop");
    string_from_chars(&out)
}

/// Where and what to write for a new user entry.
#[derive(Debug)]
pub struct EntryWrite {
    /// The file to write.
    pub path: String,
    /// Its text.
    pub content: String,
}

impl DesktopAutostart {
    /// The file and text of a new user entry in `user_dir`: refused as
    /// `validate_request` refuses; otherwise the file is
    /// `entry_file_name` of the name in `user_dir` and the text is
    /// `generate_desktop_file_content`.
    pub fn write_user_autostart_entry(
        req: &CreateStartupRequest,
        user_dir: &str,
        home: &str,
        path_exists: bool,
    ) -> (r: Result<EntryWrite, StartupError>)
        ensures
            match r {
                Ok(w) => request_error(*req) is None && w.path@ == path_join(
                    user_dir@,
                    entry_file_name(req.name@),
                ) && w.content@ == desktop_content(*req, home@, path_exists),
                Err(e) => request_error(*req) == Some(e),
            },
    {
        match Self::validate_request(req) {
            Err(e) => Err(e),
            Ok(()) => {
                let file = entry_file_name_of(req.name.as_str());
                let path = join_path(user_dir, file.as_str());
                let content = Self::generate_desktop_file_content(req, home, path_exists);
                Ok(EntryWrite { path, content })
            },
        }
    }

    /// Where and what to write to switch an entry on or off: the user's
    /// copy of the entry (named as the entry's file, in `user_dir`) is
    /// rewritten by `toggle_content`, starting from the user's copy when it
    /// exists (`user_copy`), else from the entry's own file (`own_file`).
    pub fn toggle_entry(
        item: &StartupItem,
        enable: bool,
        user_dir: &str,
        user_copy: Option<&str>,
        own_file: Option<&str>,
    ) -> (r: Result<EntryWrite, StartupError>)
        ensures
            match r {
                Ok(w) => w.path@ == path_join(user_dir@, item.file_name@) && (match opt_view(
                    user_copy,
                ) {
                    Some(c) => w.content@ == toggled_content(c, enable),
                    None => match opt_view(own_file) {
                        Some(c) => w.content@ == toggled_content(c, enable),
                        None => false,
                    },
                }),
                Err(e) => e == StartupError::MissingFile && user_copy is None && own_file is None,
            },
    {
        let content = match user_copy {
            Some(c) => c,
            None => match own_file {
                Some(c) => c,
                None => {
                    return Err(StartupError::MissingFile);
                },
            },
        };
        let path = join_path(user_dir, item.file_name.as_str());
        Ok(EntryWrite { path, content: toggle_content(content, enable) })
    }

    /// What removing an entry takes: the user's copy (named as the entry's
    /// file, in `user_dir`) is deleted, and a system entry is then switched
    /// off (`true`), since its own file cannot be removed.
    pub fn remove_entry(item: &StartupItem, user_dir: &str) -> (r: (String, bool))
        ensures
            r.0@ == path_join(user_dir@, item.file_name@),
            r.1 == (item.source == StartupSource::System),
    {
        let path = join_path(user_dir, item.file_name.as_str());
        let disable = match item.source {
            StartupSource::System => true,
            StartupSource::User => false,
        };
        (path, disable)
    }
}

} // verus!
