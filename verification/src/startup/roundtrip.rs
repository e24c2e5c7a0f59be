//! Reading back a generated autostart entry gives what was asked for.

use vstd::prelude::*;
use crate::split::{
    find_char_from, join, lemma_find_char_from_bounds, lines, lines_from, replace_from, split_once,
    strip_cr, words,
};
use crate::startup::desktop::{
    ParseState, apply_key, bool_text, desktop_content, entry_lines, expand_home, icon_or_default,
    parse_line, parse_lines, parse_start, parsed_entry_is, quote_command, request_error,
    terminated, toggle_line, toggled_content, toggled_lines, entry_header_from, other_header_from,
    group_end, group_has, is_entry_header, is_other_header, missing_switches,
    without_field_codes,
};
use crate::startup::models::{CreateStartupRequest, StartupItem, StartupSource};
use crate::text::{
    ascii_lower, contains, eq_ignore_ascii_case, has_control, is_control, is_ws, occurs_at, starts_with, trim,
    trim_end, trim_start,
};

verus! {

/// No character of `s` is a control character.
pub open spec fn control_free(s: Seq<char>) -> bool {
    forall|k: int| 0 <= k < s.len() ==> !is_control(#[trigger] s[k])
}

proof fn lemma_control_free(s: Seq<char>)
    ensures
        control_free(s) == !has_control(s),
{
    if has_control(s) {
        let k = choose|k: int| 0 <= k < s.len() && is_control(s[k]);
        assert(!control_free(s));
    }
}

/// Searching from inside the second part of a concatenation finds what the
/// second part has.
proof fn lemma_find_shift(p: Seq<char>, r: Seq<char>, c: char, i: int)
    requires
        0 <= i <= r.len(),
    ensures
        find_char_from(p + r, c, p.len() + i) == p.len() + find_char_from(r, c, i),
    decreases r.len() - i,
{
    if i < r.len() && r[i] != c {
        lemma_find_shift(p, r, c, i + 1);
    }
}

proof fn lemma_find_at(s: Seq<char>, c: char, i: int, j: int)
    requires
        0 <= i <= j <= s.len(),
        forall|k: int| i <= k < j ==> s[k] != c,
        j < s.len() ==> s[j] == c,
    ensures
        find_char_from(s, c, i) == j,
    decreases j - i,
{
    if i < j {
        lemma_find_at(s, c, i + 1, j);
    }
}

/// The lines of the second part of a concatenation, from inside it.
proof fn lemma_lines_shift(p: Seq<char>, r: Seq<char>, i: int)
    requires
        0 <= i,
    ensures
        lines_from(p + r, p.len() + i) == lines_from(r, i),
    decreases r.len() - i,
{
    let s = p + r;
    if i < r.len() {
        lemma_find_shift(p, r, '\n', i);
        lemma_find_char_from_bounds(r, '\n', i);
        let j = find_char_from(r, '\n', i);
        if j < r.len() {
            lemma_lines_shift(p, r, j + 1);
            assert(s.subrange(p.len() + i, p.len() + j) =~= r.subrange(i, j));
        } else {
            assert(s.subrange(p.len() + i, s.len() as int) =~= r.subrange(i, r.len() as int));
        }
    }
}

/// A line without newline or carriage return.
pub open spec fn plain_line(l: Seq<char>) -> bool {
    forall|k: int| 0 <= k < l.len() ==> l[k] != '\n' && l[k] != '\r'
}

proof fn lemma_lines_cons(a: Seq<char>, r: Seq<char>)
    requires
        plain_line(a),
    ensures
        lines(a + "\n"@ + r) == seq![a] + lines(r),
{
    reveal_strlit("\n");
    let p = a + "\n"@;
    let s = p + r;
    assert(a + "\n"@ + r == s);
    lemma_find_at(s, '\n', 0, a.len() as int);
    assert(s.subrange(0, a.len() as int) =~= a);
    assert(strip_cr(a) == a);
    lemma_lines_shift(p, r, 0);
    assert(p.len() + 0 == a.len() + 1);
}

proof fn lemma_terminated_cons(ls: Seq<Seq<char>>)
    requires
        ls.len() > 0,
    ensures
        terminated(ls) == ls[0] + "\n"@ + terminated(ls.drop_first()),
    decreases ls.len(),
{
    if ls.len() == 1 {
        assert(ls.drop_last() =~= Seq::<Seq<char>>::empty());
        assert(ls.drop_first() =~= Seq::<Seq<char>>::empty());
        assert(terminated(ls.drop_first()) =~= Seq::<char>::empty());
        assert(terminated(ls) =~= ls[0] + "\n"@ + terminated(ls.drop_first()));
    } else {
        lemma_terminated_cons(ls.drop_last());
        assert(ls.drop_last().drop_first() =~= ls.drop_first().drop_last());
        assert(ls.drop_first().last() == ls.last());
        assert(terminated(ls) =~= ls[0] + "\n"@ + terminated(ls.drop_first()));
    }
}

/// The lines of newline-terminated plain lines are those lines.
proof fn lemma_lines_terminated(ls: Seq<Seq<char>>)
    requires
        forall|i: int| 0 <= i < ls.len() ==> plain_line(#[trigger] ls[i]),
    ensures
        lines(terminated(ls)) == ls,
    decreases ls.len(),
{
    if ls.len() == 0 {
        assert(lines(Seq::<char>::empty()) =~= Seq::<Seq<char>>::empty());
    } else {
        lemma_terminated_cons(ls);
        assert forall|i: int| 0 <= i < ls.drop_first().len() implies plain_line(
            #[trigger] ls.drop_first()[i],
        ) by {
            assert(ls.drop_first()[i] == ls[i + 1]);
        }
        lemma_lines_terminated(ls.drop_first());
        assert(plain_line(ls[0]));
        lemma_lines_cons(ls[0], terminated(ls.drop_first()));
        assert(seq![ls[0]] + ls.drop_first() =~= ls);
    }
}

proof fn lemma_trim_start_shape(s: Seq<char>)
    ensures
        exists|k: int|
            0 <= k <= s.len() && trim_start(s) == s.skip(k) && (k == s.len() || !is_ws(s[k])),
    decreases s.len(),
{
    if s.len() > 0 && is_ws(s[0]) {
        lemma_trim_start_shape(s.drop_first());
        let k = choose|k: int|
            0 <= k <= s.drop_first().len() && trim_start(s.drop_first()) == s.drop_first().skip(k)
                && (k == s.drop_first().len() || !is_ws(s.drop_first()[k]));
        assert(s.drop_first().skip(k) =~= s.skip(k + 1));
        assert(trim_start(s) == s.skip(k + 1));
    } else {
        assert(s.skip(0) =~= s);
    }
}

proof fn lemma_trim_end_shape(s: Seq<char>)
    ensures
        exists|k: int| 0 <= k <= s.len() && trim_end(s) == s.take(k) && (k == 0 || !is_ws(s[k - 1])),
    decreases s.len(),
{
    if s.len() > 0 && is_ws(s.last()) {
        lemma_trim_end_shape(s.drop_last());
        let k = choose|k: int|
            0 <= k <= s.drop_last().len() && trim_end(s.drop_last()) == s.drop_last().take(k) && (k
                == 0 || !is_ws(s.drop_last()[k - 1]));
        assert(s.drop_last().take(k) =~= s.take(k));
    } else {
        assert(s.take(s.len() as int) =~= s);
    }
}

/// `trim(s)` is a piece of `s` that starts and ends with a non-space.
proof fn lemma_trim_shape(s: Seq<char>)
    ensures
        exists|a: int, b: int| 0 <= a <= b <= s.len() && trim(s) == s.subrange(a, b),
        trim(s).len() == 0 || (!is_ws(trim(s)[0]) && !is_ws(trim(s).last())),
{
    lemma_trim_start_shape(s);
    let a = choose|k: int|
        0 <= k <= s.len() && trim_start(s) == s.skip(k) && (k == s.len() || !is_ws(s[k]));
    let t = s.skip(a);
    lemma_trim_end_shape(t);
    let b = choose|k: int| 0 <= k <= t.len() && trim_end(t) == t.take(k) && (k == 0 || !is_ws(t[k - 1]));
    assert(t.take(b) =~= s.subrange(a, a + b));
    assert(trim(s) == s.subrange(a, a + b));
}

/// A text that starts and ends with a non-space is its own trim.
proof fn lemma_trim_fixed(s: Seq<char>)
    requires
        s.len() == 0 || (!is_ws(s[0]) && !is_ws(s.last())),
    ensures
        trim(s) == s,
{
}

/// Trimming twice is trimming once.
proof fn lemma_trim_idem(s: Seq<char>)
    ensures
        trim(trim(s)) == trim(s),
{
    lemma_trim_shape(s);
    lemma_trim_fixed(trim(s));
}

/// Trimming keeps a text free of control characters.
proof fn lemma_trim_control_free(s: Seq<char>)
    requires
        control_free(s),
    ensures
        control_free(trim(s)),
{
    lemma_trim_shape(s);
    let (a, b) = choose|a: int, b: int| 0 <= a <= b <= s.len() && trim(s) == s.subrange(a, b);
    assert forall|k: int| 0 <= k < trim(s).len() implies !is_control(#[trigger] trim(s)[k]) by {
        assert(trim(s)[k] == s[a + k]);
    }
}

proof fn lemma_replace_control_free(s: Seq<char>, pat: Seq<char>, rep: Seq<char>, i: int)
    requires
        control_free(s),
        control_free(rep),
        0 <= i,
    ensures
        control_free(replace_from(s, pat, rep, i)),
    decreases s.len() - i,
{
    if i >= s.len() || pat.len() == 0 {
    } else if occurs_at(s, pat, i) {
        lemma_replace_control_free(s, pat, rep, i + pat.len());
        let t = replace_from(s, pat, rep, i + pat.len());
        assert forall|k: int| 0 <= k < (rep + t).len() implies !is_control(#[trigger] (rep + t)[k]) by {
            if k < rep.len() {
                assert((rep + t)[k] == rep[k]);
            } else {
                assert((rep + t)[k] == t[k - rep.len()]);
            }
        }
    } else {
        lemma_replace_control_free(s, pat, rep, i + 1);
        let t = replace_from(s, pat, rep, i + 1);
        assert forall|k: int| 0 <= k < (seq![s[i]] + t).len() implies !is_control(
            #[trigger] (seq![s[i]] + t)[k],
        ) by {
            if k > 0 {
                assert((seq![s[i]] + t)[k] == t[k - 1]);
            }
        }
    }
}

proof fn lemma_concat_control_free(a: Seq<char>, b: Seq<char>)
    requires
        control_free(a),
        control_free(b),
    ensures
        control_free(a + b),
{
    assert forall|k: int| 0 <= k < (a + b).len() implies !is_control(#[trigger] (a + b)[k]) by {
        if k < a.len() {
            assert((a + b)[k] == a[k]);
        } else {
            assert((a + b)[k] == b[k - a.len()]);
        }
    }
}

/// The command written to an entry is free of control characters when the
/// request's command and the home directory are.
proof fn lemma_command_control_free(command: Seq<char>, home: Seq<char>, path_exists: bool)
    requires
        control_free(command),
        control_free(home),
    ensures
        control_free(quote_command(expand_home(command, home), path_exists)),
        trim(quote_command(expand_home(command, home), path_exists)) == quote_command(
            expand_home(command, home),
            path_exists,
        ),
{
    reveal_strlit("~/");
    reveal_strlit("/");
    reveal_strlit("\"");
    let hs = home + "/"@;
    lemma_concat_control_free(home, "/"@);
    let x = expand_home(command, home);
    if starts_with(command, "~/"@) && home.len() > 0 {
        assert forall|k: int| 0 <= k < command.skip(2).len() implies !is_control(
            #[trigger] command.skip(2)[k],
        ) by {
            assert(command.skip(2)[k] == command[k + 2]);
        }
        lemma_concat_control_free(hs, command.skip(2));
    } else if contains(command, "~/"@) && home.len() > 0 {
        lemma_replace_control_free(command, "~/"@, hs, 0);
    }
    assert(control_free(x));
    lemma_trim_control_free(x);
    lemma_trim_shape(x);
    let t = trim(x);
    lemma_trim_idem(x);
    if t.len() == 0 || t[0] == '"' {
    } else if contains(t, " "@) && path_exists {
        lemma_concat_control_free("\""@, t);
        lemma_concat_control_free("\""@ + t, "\""@);
        let q = "\""@ + t + "\""@;
        assert(q[0] == '"');
        assert(q.last() == '"');
        lemma_trim_fixed(q);
    }
}

/// A `key=value` line inside the entry section applies the key.
proof fn lemma_parse_key_line(st: ParseState, key: Seq<char>, val: Seq<char>)
    requires
        st.in_entry,
        key.len() > 0,
        !is_ws(key[0]),
        !is_ws(key.last()),
        key[0] != '[',
        forall|k: int| 0 <= k < key.len() ==> key[k] != '=',
        trim(val) == val,
        val.len() == 0 || !is_ws(val.last()),
    ensures
        parse_line(st, key + "="@ + val) == Some(apply_key(st, key, val)),
{
    reveal_strlit("=");
    reveal_strlit("[Desktop Entry]");
    reveal_strlit("[");
    let l = key + "="@ + val;
    assert(l[0] == key[0]);
    if val.len() == 0 {
        assert(l.last() == '=');
    } else {
        assert(l.last() == val.last());
    }
    lemma_trim_fixed(l);
    assert(l != "[Desktop Entry]"@) by {
        assert("[Desktop Entry]"@[0] == '[');
    }
    assert(!starts_with(l, "["@)) by {
        assert(l.subrange(0, 1)[0] != '[');
    }
    lemma_find_at(l, '=', 0, key.len() as int);
    assert(l.take(key.len() as int) =~= key);
    assert(l.skip(key.len() + 1int) =~= val);
    assert(split_once(l, '=') == Some((key, val)));
    lemma_trim_fixed(key);
}

/// The texts a valid request's entry holds: free of control characters,
/// trimmed, not ending in a space.
pub open spec fn entry_text_ok(v: Seq<char>) -> bool {
    control_free(v) && trim(v) == v && (v.len() == 0 || !is_ws(v.last()))
}

proof fn lemma_entry_values(req: CreateStartupRequest, home: Seq<char>, path_exists: bool)
    requires
        request_error(req) is None,
        !has_control(trim(req.icon@)),
        !has_control(home),
    ensures
        entry_text_ok(trim(req.name@)),
        entry_text_ok(trim(req.comment@)),
        entry_text_ok(icon_or_default(req.icon@)),
        entry_text_ok(quote_command(expand_home(trim(req.command@), home), path_exists)),
        entry_text_ok(bool_text(req.terminal)),
{
    reveal_strlit("application-x-executable");
    reveal_strlit("true");
    reveal_strlit("false");
    lemma_control_free(trim(req.name@));
    lemma_control_free(trim(req.comment@));
    lemma_control_free(trim(req.command@));
    lemma_control_free(trim(req.icon@));
    lemma_control_free(home);
    lemma_command_control_free(trim(req.command@), home, path_exists);
    lemma_trim_idem(req.name@);
    lemma_trim_idem(req.comment@);
    lemma_trim_idem(req.icon@);
    lemma_trim_shape(req.name@);
    lemma_trim_shape(req.comment@);
    lemma_trim_shape(req.icon@);
    lemma_trim_shape(quote_command(expand_home(trim(req.command@), home), path_exists));
    let d = "application-x-executable"@;
    lemma_trim_fixed(d);
    assert(control_free(d));
    lemma_trim_fixed(bool_text(req.terminal));
    assert(control_free(bool_text(req.terminal)));
}

proof fn lemma_prefixed_plain(p: Seq<char>, v: Seq<char>)
    requires
        plain_line(p),
        control_free(v),
    ensures
        plain_line(p + v),
{
    assert forall|k: int| 0 <= k < (p + v).len() implies (p + v)[k] != '\n' && (p + v)[k] != '\r' by {
        if k >= p.len() {
            assert((p + v)[k] == v[k - p.len()]);
            assert(!is_control(v[k - p.len()]));
        } else {
            assert((p + v)[k] == p[k]);
        }
    }
}

proof fn lemma_entry_lines_plain(req: CreateStartupRequest, home: Seq<char>, path_exists: bool)
    requires
        entry_text_ok(trim(req.name@)),
        entry_text_ok(trim(req.comment@)),
        entry_text_ok(icon_or_default(req.icon@)),
        entry_text_ok(quote_command(expand_home(trim(req.command@), home), path_exists)),
        entry_text_ok(bool_text(req.terminal)),
    ensures
        forall|i: int| 0 <= i < entry_lines(req, home, path_exists).len() ==> plain_line(
            #[trigger] entry_lines(req, home, path_exists)[i],
        ),
{
    reveal_strlit("[Desktop Entry]");
    reveal_strlit("Type=Application");
    reveal_strlit("Version=1.0");
    reveal_strlit("Name=");
    reveal_strlit("Comment=");
    reveal_strlit("Exec=");
    reveal_strlit("Icon=");
    reveal_strlit("Terminal=");
    reveal_strlit("StartupNotify=false");
    reveal_strlit("X-GNOME-Autostart-enabled=true");
    reveal_strlit("X-KDE-autostart-enabled=true");
    reveal_strlit("Categories=Utility;");
    lemma_prefixed_plain("Name="@, trim(req.name@));
    lemma_prefixed_plain("Comment="@, trim(req.comment@));
    lemma_prefixed_plain("Exec="@, quote_command(expand_home(trim(req.command@), home), path_exists));
    lemma_prefixed_plain("Icon="@, icon_or_default(req.icon@));
    lemma_prefixed_plain("Terminal="@, bool_text(req.terminal));
}

proof fn lemma_fixed_lines(st: ParseState)
    requires
        st.in_entry,
    ensures
        parse_line(st, "Type=Application"@) == Some(st),
        parse_line(st, "Version=1.0"@) == Some(st),
        parse_line(st, "StartupNotify=false"@) == Some(st),
        parse_line(st, "X-GNOME-Autostart-enabled=true"@) == Some(st),
        parse_line(st, "X-KDE-autostart-enabled=true"@) == Some(st),
        parse_line(st, "Categories=Utility;"@) == Some(st),
{
    reveal_strlit("Type=Application");
    reveal_strlit("Version=1.0");
    reveal_strlit("StartupNotify=false");
    reveal_strlit("X-GNOME-Autostart-enabled=true");
    reveal_strlit("X-KDE-autostart-enabled=true");
    reveal_strlit("Categories=Utility;");
    reveal_strlit("=");
    reveal_strlit("Type");
    reveal_strlit("Application");
    reveal_strlit("Version");
    reveal_strlit("1.0");
    reveal_strlit("StartupNotify");
    reveal_strlit("false");
    reveal_strlit("true");
    reveal_strlit("X-GNOME-Autostart-enabled");
    reveal_strlit("X-KDE-autostart-enabled");
    reveal_strlit("Categories");
    reveal_strlit("Utility;");
    reveal_strlit("Name");
    reveal_strlit("Comment");
    reveal_strlit("Exec");
    reveal_strlit("Icon");
    reveal_strlit("Terminal");
    reveal_strlit("Hidden");
    lemma_parse_key_line(st, "Type"@, "Application"@);
    assert("Type=Application"@ =~= "Type"@ + "="@ + "Application"@);
    lemma_parse_key_line(st, "Version"@, "1.0"@);
    assert("Version=1.0"@ =~= "Version"@ + "="@ + "1.0"@);
    lemma_parse_key_line(st, "StartupNotify"@, "false"@);
    assert("StartupNotify=false"@ =~= "StartupNotify"@ + "="@ + "false"@);
    lemma_parse_key_line(st, "X-GNOME-Autostart-enabled"@, "true"@);
    assert("X-GNOME-Autostart-enabled=true"@ =~= "X-GNOME-Autostart-enabled"@ + "="@ + "true"@);
    lemma_parse_key_line(st, "X-KDE-autostart-enabled"@, "true"@);
    assert("X-KDE-autostart-enabled=true"@ =~= "X-KDE-autostart-enabled"@ + "="@ + "true"@);
    lemma_parse_key_line(st, "Categories"@, "Utility;"@);
    assert("Categories=Utility;"@ =~= "Categories"@ + "="@ + "Utility;"@);
    assert(!eq_ignore_ascii_case("true"@, "false"@));
}

proof fn lemma_value_lines(st: ParseState, name: Seq<char>, comment: Seq<char>, cmd: Seq<char>, icon: Seq<char>, term: bool)
    requires
        st.in_entry,
        st.name.len() == 0,
        st.comment.len() == 0,
        st.command.len() == 0,
        st.icon.len() == 0,
        entry_text_ok(name),
        entry_text_ok(comment),
        entry_text_ok(cmd),
        entry_text_ok(icon),
    ensures
        ({
            let s4 = ParseState { name, ..st };
            let s5 = ParseState { comment, ..s4 };
            let s6 = ParseState { command: join(without_field_codes(words(cmd)), " "@), ..s5 };
            let s7 = ParseState { icon, ..s6 };
            let s8 = ParseState { terminal: term, ..s7 };
            &&& parse_line(st, "Name="@ + name) == Some(s4)
            &&& parse_line(s4, "Comment="@ + comment) == Some(s5)
            &&& parse_line(s5, "Exec="@ + cmd) == Some(s6)
            &&& parse_line(s6, "Icon="@ + icon) == Some(s7)
            &&& parse_line(s7, "Terminal="@ + bool_text(term)) == Some(s8)
        }),
{
    reveal_strlit("Name=");
    reveal_strlit("Comment=");
    reveal_strlit("Exec=");
    reveal_strlit("Icon=");
    reveal_strlit("Terminal=");
    reveal_strlit("=");
    reveal_strlit("Name");
    reveal_strlit("Comment");
    reveal_strlit("Exec");
    reveal_strlit("Icon");
    reveal_strlit("Terminal");
    reveal_strlit("true");
    reveal_strlit("false");
    let s4 = ParseState { name, ..st };
    let s5 = ParseState { comment, ..s4 };
    let s6 = ParseState { command: join(without_field_codes(words(cmd)), " "@), ..s5 };
    let s7 = ParseState { icon, ..s6 };
    lemma_parse_key_line(st, "Name"@, name);
    assert("Name="@ + name =~= "Name"@ + "="@ + name);
    lemma_parse_key_line(s4, "Comment"@, comment);
    assert("Comment="@ + comment =~= "Comment"@ + "="@ + comment);
    lemma_parse_key_line(s5, "Exec"@, cmd);
    assert("Exec="@ + cmd =~= "Exec"@ + "="@ + cmd);
    lemma_parse_key_line(s6, "Icon"@, icon);
    assert("Icon="@ + icon =~= "Icon"@ + "="@ + icon);
    let t = bool_text(term);
    lemma_trim_fixed(t);
    lemma_parse_key_line(s7, "Terminal"@, t);
    assert("Terminal="@ + t =~= "Terminal"@ + "="@ + t);
    assert(eq_ignore_ascii_case(t, "true"@) == term);
}

proof fn lemma_parse_step(st: ParseState, ls: Seq<Seq<char>>, next: ParseState)
    requires
        ls.len() > 0,
        parse_line(st, ls[0]) == Some(next),
    ensures
        parse_lines(st, ls) == parse_lines(next, ls.drop_first()),
{
}

/// Writing an entry for a valid request and reading it back gives the
/// request's name, comment and icon (trimmed, the icon defaulted), its
/// terminal flag, an enabled entry, and the command as written, with field
/// codes dropped and words joined by single spaces. The icon (trimmed) and
/// the home directory must be free of control characters, as the request's
/// own fields are.
pub proof fn lemma_generated_entry_reads_back(req: CreateStartupRequest, home: Seq<char>, path_exists: bool)
    requires
        request_error(req) is None,
        !has_control(trim(req.icon@)),
        !has_control(home),
    ensures
        ({
            let st = parse_lines(parse_start(), lines(desktop_content(req, home, path_exists)));
            &&& st.name == trim(req.name@)
            &&& st.comment == trim(req.comment@)
            &&& st.icon == icon_or_default(req.icon@)
            &&& st.terminal == req.terminal
            &&& !st.hidden
            &&& st.autostart
            &&& st.command == join(
                without_field_codes(
                    words(quote_command(expand_home(trim(req.command@), home), path_exists)),
                ),
                " "@,
            )
        }),
{
    let ls = entry_lines(req, home, path_exists);
    let name = trim(req.name@);
    let comment = trim(req.comment@);
    let icon = icon_or_default(req.icon@);
    let cmd = quote_command(expand_home(trim(req.command@), home), path_exists);
    lemma_entry_values(req, home, path_exists);
    lemma_entry_lines_plain(req, home, path_exists);
    lemma_lines_terminated(ls);
    reveal_strlit("[Desktop Entry]");
    let s0 = parse_start();
    let s1 = ParseState { in_entry: true, ..s0 };
    assert(trim("[Desktop Entry]"@) == "[Desktop Entry]"@) by {
        lemma_trim_fixed("[Desktop Entry]"@);
    }
    assert(parse_line(s0, ls[0]) == Some(s1));
    lemma_fixed_lines(s1);
    lemma_value_lines(s1, name, comment, cmd, icon, req.terminal);
    let s4 = ParseState { name, ..s1 };
    let s5 = ParseState { comment, ..s4 };
    let s6 = ParseState { command: join(without_field_codes(words(cmd)), " "@), ..s5 };
    let s7 = ParseState { icon, ..s6 };
    let s8 = ParseState { terminal: req.terminal, ..s7 };
    lemma_fixed_lines(s8);
    let mut t = ls;
    lemma_parse_step(s0, t, s1);
    t = t.drop_first();
    lemma_parse_step(s1, t, s1);
    t = t.drop_first();
    lemma_parse_step(s1, t, s1);
    t = t.drop_first();
    lemma_parse_step(s1, t, s4);
    t = t.drop_first();
    lemma_parse_step(s4, t, s5);
    t = t.drop_first();
    lemma_parse_step(s5, t, s6);
    t = t.drop_first();
    lemma_parse_step(s6, t, s7);
    t = t.drop_first();
    lemma_parse_step(s7, t, s8);
    t = t.drop_first();
    lemma_parse_step(s8, t, s8);
    t = t.drop_first();
    lemma_parse_step(s8, t, s8);
    t = t.drop_first();
    lemma_parse_step(s8, t, s8);
    t = t.drop_first();
    lemma_parse_step(s8, t, s8);
    t = t.drop_first();
    assert(t.len() == 0);
}

/// The entry `DesktopAutostart::parse_file` reads from the text that
/// `generate_desktop_file_content` wrote for a valid request carries the
/// request's name, comment, icon and terminal flag, and is enabled.
pub proof fn lemma_parse_file_of_generated(
    req: CreateStartupRequest,
    home: Seq<char>,
    path_exists: bool,
    item: StartupItem,
    path: Seq<char>,
    source: StartupSource,
)
    requires
        request_error(req) is None,
        !has_control(trim(req.icon@)),
        !has_control(home),
        parsed_entry_is(item, desktop_content(req, home, path_exists), path, source),
    ensures
        item.name@ == trim(req.name@),
        item.comment@ == trim(req.comment@),
        item.icon@ == icon_or_default(req.icon@),
        item.is_terminal == req.terminal,
        item.enabled,
        item.command@ == join(
            without_field_codes(words(quote_command(expand_home(trim(req.command@), home), path_exists))),
            " "@,
        ),
{
    lemma_generated_entry_reads_back(req, home, path_exists);
}

/// A line whose first character is not a space and that differs from `p`
/// at position `j` cannot, trimmed, start with `p`.
proof fn lemma_not_starts(l: Seq<char>, p: Seq<char>, j: int)
    requires
        l.len() > 0,
        !is_ws(l[0]),
        0 <= j < p.len(),
        j < l.len(),
        l[j] != p[j],
    ensures
        !starts_with(trim(l), p),
{
    assert(trim_start(l) == l);
    lemma_trim_end_shape(l);
    let k = choose|k: int| 0 <= k <= l.len() && trim_end(l) == l.take(k) && (k == 0 || !is_ws(l[k - 1]));
    assert(trim(l) == l.take(k));
    if p.len() <= k {
        assert(trim(l).take(p.len() as int)[j] == l[j]);
    }
}

/// A line that starts with neither `H` nor `X` is left as it is by a switch.
proof fn lemma_other_line(l: Seq<char>, enable: bool)
    requires
        l.len() > 0,
        !is_ws(l[0]),
        l[0] != 'H',
        l[0] != 'X',
    ensures
        toggle_line(l, enable) == l,
        !starts_with(trim(l), "Hidden="@),
        !starts_with(trim(l), "X-GNOME-Autostart-enabled="@),
        !starts_with(trim(l), "X-KDE-autostart-enabled="@),
{
    reveal_strlit("Hidden=");
    reveal_strlit("X-GNOME-Autostart-enabled=");
    reveal_strlit("X-KDE-autostart-enabled=");
    lemma_not_starts(l, "Hidden="@, 0);
    lemma_not_starts(l, "X-GNOME-Autostart-enabled="@, 0);
    lemma_not_starts(l, "X-KDE-autostart-enabled="@, 0);
}

/// No header of another section from the `i`-th line on.
proof fn lemma_no_other_header(ls: Seq<Seq<char>>, i: int)
    requires
        0 <= i <= ls.len(),
        forall|j: int| i <= j < ls.len() ==> !is_other_header(#[trigger] ls[j]),
    ensures
        other_header_from(ls, i) == ls.len(),
    decreases ls.len() - i,
{
    if i < ls.len() {
        lemma_no_other_header(ls, i + 1);
    }
}

proof fn lemma_join_terminated(ls: Seq<Seq<char>>)
    requires
        ls.len() > 0,
    ensures
        join(ls, "\n"@) + "\n"@ == terminated(ls),
    decreases ls.len(),
{
    if ls.len() == 1 {
        assert(ls.drop_last() =~= Seq::<Seq<char>>::empty());
        assert(terminated(ls.drop_last()) == Seq::<char>::empty());
        assert(terminated(ls) =~= ls[0] + "\n"@);
    } else {
        lemma_join_terminated(ls.drop_last());
        assert(join(ls, "\n"@) + "\n"@ =~= join(ls.drop_last(), "\n"@) + "\n"@ + ls.last() + "\n"@);
    }
}

/// The lines of a generated entry after switching it on or off.
pub open spec fn switched_lines(req: CreateStartupRequest, home: Seq<char>, path_exists: bool, enable: bool) -> Seq<Seq<char>> {
    let ls = entry_lines(req, home, path_exists);
    ls.take(9) + seq![
        "X-GNOME-Autostart-enabled="@ + bool_text(enable),
        "X-KDE-autostart-enabled="@ + bool_text(enable),
        ls[11],
        "Hidden="@ + bool_text(!enable),
    ]
}

proof fn lemma_switched_lines(req: CreateStartupRequest, home: Seq<char>, path_exists: bool, enable: bool)
    requires
        entry_text_ok(trim(req.name@)),
        entry_text_ok(trim(req.comment@)),
        entry_text_ok(icon_or_default(req.icon@)),
        entry_text_ok(quote_command(expand_home(trim(req.command@), home), path_exists)),
        entry_text_ok(bool_text(req.terminal)),
    ensures
        toggled_lines(entry_lines(req, home, path_exists), enable) == switched_lines(
            req,
            home,
            path_exists,
            enable,
        ),
{
    let ls = entry_lines(req, home, path_exists);
    reveal_strlit("[Desktop Entry]");
    reveal_strlit("Type=Application");
    reveal_strlit("Version=1.0");
    reveal_strlit("Name=");
    reveal_strlit("Comment=");
    reveal_strlit("Exec=");
    reveal_strlit("Icon=");
    reveal_strlit("Terminal=");
    reveal_strlit("StartupNotify=false");
    reveal_strlit("X-GNOME-Autostart-enabled=true");
    reveal_strlit("X-KDE-autostart-enabled=true");
    reveal_strlit("Categories=Utility;");
    reveal_strlit("Hidden=");
    reveal_strlit("X-GNOME-Autostart-enabled=");
    reveal_strlit("X-KDE-autostart-enabled=");
    reveal_strlit("true");
    lemma_other_line(ls[0], enable);
    lemma_other_line(ls[1], enable);
    lemma_other_line(ls[2], enable);
    lemma_other_line(ls[3], enable);
    lemma_other_line(ls[4], enable);
    lemma_other_line(ls[5], enable);
    lemma_other_line(ls[6], enable);
    lemma_other_line(ls[7], enable);
    lemma_other_line(ls[8], enable);
    lemma_other_line(ls[11], enable);
    lemma_not_starts(ls[9], "Hidden="@, 0);
    lemma_not_starts(ls[10], "Hidden="@, 0);
    lemma_not_starts(ls[10], "X-GNOME-Autostart-enabled="@, 2);
    lemma_trim_fixed(ls[9]);
    lemma_trim_fixed(ls[10]);
    assert(starts_with(ls[9], "X-GNOME-Autostart-enabled="@)) by {
        assert(ls[9].subrange(0, 26) =~= "X-GNOME-Autostart-enabled="@);
    }
    assert(starts_with(ls[10], "X-KDE-autostart-enabled="@)) by {
        assert(ls[10].subrange(0, 24) =~= "X-KDE-autostart-enabled="@);
    }
    assert forall|i: int| 0 <= i < ls.len() implies !starts_with(trim(#[trigger] ls[i]), "Hidden="@) by {
        if i == 0 {
        } else if i == 1 {
        } else if i == 2 {
        } else if i == 3 {
        } else if i == 4 {
        } else if i == 5 {
        } else if i == 6 {
        } else if i == 7 {
        } else if i == 8 {
        } else if i == 9 {
        } else if i == 10 {
        } else {
        }
    }
    reveal_strlit("[");
    lemma_trim_fixed(ls[0]);
    assert(is_entry_header(ls[0]));
    assert(entry_header_from(ls, 0) == 0);
    lemma_not_starts(ls[1], "["@, 0);
    lemma_not_starts(ls[2], "["@, 0);
    lemma_not_starts(ls[3], "["@, 0);
    lemma_not_starts(ls[4], "["@, 0);
    lemma_not_starts(ls[5], "["@, 0);
    lemma_not_starts(ls[6], "["@, 0);
    lemma_not_starts(ls[7], "["@, 0);
    lemma_not_starts(ls[8], "["@, 0);
    lemma_not_starts(ls[9], "["@, 0);
    lemma_not_starts(ls[10], "["@, 0);
    lemma_not_starts(ls[11], "["@, 0);
    assert forall|i: int| 1 <= i < ls.len() implies !is_other_header(#[trigger] ls[i]) by {
        if i == 1 {
        } else if i == 2 {
        } else if i == 3 {
        } else if i == 4 {
        } else if i == 5 {
        } else if i == 6 {
        } else if i == 7 {
        } else if i == 8 {
        } else if i == 9 {
        } else if i == 10 {
        } else {
        }
    }
    lemma_no_other_header(ls, 1);
    assert(group_end(ls) == 12);
    assert(!group_has(ls, "Hidden="@));
    assert(group_has(ls, "X-GNOME-Autostart-enabled="@)) by {
        assert(0 < 9 < group_end(ls) && starts_with(trim(ls[9]), "X-GNOME-Autostart-enabled="@));
    }
    assert(group_has(ls, "X-KDE-autostart-enabled="@)) by {
        assert(0 < 10 < group_end(ls) && starts_with(trim(ls[10]), "X-KDE-autostart-enabled="@));
    }
    assert(missing_switches(ls, enable) =~= seq!["Hidden="@ + bool_text(!enable)]);
    let mapped = Seq::new(ls.len(), |i: int| toggle_line(ls[i], enable));
    assert(mapped.take(12) =~= mapped);
    assert(mapped.skip(12) =~= Seq::<Seq<char>>::empty());
    assert(mapped[9] == "X-GNOME-Autostart-enabled="@ + bool_text(enable));
    assert(mapped[10] == "X-KDE-autostart-enabled="@ + bool_text(enable));
    assert(toggled_lines(ls, enable) =~= switched_lines(req, home, path_exists, enable));
}

/// Switching a generated entry on or off and reading it back gives an
/// entry enabled exactly when it was switched on, with the same name,
/// comment, icon, command and terminal flag.
pub proof fn lemma_switched_entry_reads_back(
    req: CreateStartupRequest,
    home: Seq<char>,
    path_exists: bool,
    enable: bool,
)
    requires
        request_error(req) is None,
        !has_control(trim(req.icon@)),
        !has_control(home),
    ensures
        ({
            let st = parse_lines(
                parse_start(),
                lines(toggled_content(desktop_content(req, home, path_exists), enable)),
            );
            &&& st.name == trim(req.name@)
            &&& st.comment == trim(req.comment@)
            &&& st.icon == icon_or_default(req.icon@)
            &&& st.terminal == req.terminal
            &&& st.hidden == !enable
            &&& st.autostart == enable
            &&& st.command == join(
                without_field_codes(
                    words(quote_command(expand_home(trim(req.command@), home), path_exists)),
                ),
                " "@,
            )
        }),
{
    let ls = entry_lines(req, home, path_exists);
    let name = trim(req.name@);
    let comment = trim(req.comment@);
    let icon = icon_or_default(req.icon@);
    let cmd = quote_command(expand_home(trim(req.command@), home), path_exists);
    lemma_entry_values(req, home, path_exists);
    lemma_entry_lines_plain(req, home, path_exists);
    lemma_lines_terminated(ls);
    lemma_switched_lines(req, home, path_exists, enable);
    let sw = switched_lines(req, home, path_exists, enable);
    lemma_join_terminated(sw);
    reveal_strlit("X-GNOME-Autostart-enabled=");
    reveal_strlit("X-KDE-autostart-enabled=");
    reveal_strlit("Hidden=");
    reveal_strlit("true");
    reveal_strlit("false");
    lemma_trim_fixed(bool_text(enable));
    lemma_trim_fixed(bool_text(!enable));
    assert(control_free(bool_text(enable)));
    assert(control_free(bool_text(!enable)));
    lemma_prefixed_plain("X-GNOME-Autostart-enabled="@, bool_text(enable));
    lemma_prefixed_plain("X-KDE-autostart-enabled="@, bool_text(enable));
    lemma_prefixed_plain("Hidden="@, bool_text(!enable));
    assert forall|i: int| 0 <= i < sw.len() implies plain_line(#[trigger] sw[i]) by {
        if i < 9 {
            assert(sw[i] == ls[i]);
        } else if i == 11 {
            assert(sw[i] == ls[11]);
        }
    }
    lemma_lines_terminated(sw);
    reveal_strlit("[Desktop Entry]");
    let s0 = parse_start();
    let s1 = ParseState { in_entry: true, ..s0 };
    assert(trim("[Desktop Entry]"@) == "[Desktop Entry]"@) by {
        lemma_trim_fixed("[Desktop Entry]"@);
    }
    assert(parse_line(s0, sw[0]) == Some(s1));
    lemma_fixed_lines(s1);
    lemma_value_lines(s1, name, comment, cmd, icon, req.terminal);
    let s4 = ParseState { name, ..s1 };
    let s5 = ParseState { comment, ..s4 };
    let s6 = ParseState { command: join(without_field_codes(words(cmd)), " "@), ..s5 };
    let s7 = ParseState { icon, ..s6 };
    let s8 = ParseState { terminal: req.terminal, ..s7 };
    lemma_fixed_lines(s8);
    let s9 = if enable {
        s8
    } else {
        ParseState { autostart: false, ..s8 }
    };
    lemma_switch_lines(s8, enable);
    lemma_fixed_lines(s9);
    let s12 = ParseState { hidden: !enable, ..s9 };
    let mut t = sw;
    lemma_parse_step(s0, t, s1);
    t = t.drop_first();
    lemma_parse_step(s1, t, s1);
    t = t.drop_first();
    lemma_parse_step(s1, t, s1);
    t = t.drop_first();
    lemma_parse_step(s1, t, s4);
    t = t.drop_first();
    lemma_parse_step(s4, t, s5);
    t = t.drop_first();
    lemma_parse_step(s5, t, s6);
    t = t.drop_first();
    lemma_parse_step(s6, t, s7);
    t = t.drop_first();
    lemma_parse_step(s7, t, s8);
    t = t.drop_first();
    lemma_parse_step(s8, t, s8);
    t = t.drop_first();
    lemma_parse_step(s8, t, s9);
    t = t.drop_first();
    lemma_parse_step(s9, t, s9);
    t = t.drop_first();
    lemma_parse_step(s9, t, s9);
    t = t.drop_first();
    lemma_parse_step(s9, t, s12);
    t = t.drop_first();
    assert(t.len() == 0);
}

/// The switch lines' effect while reading.
proof fn lemma_switch_lines(st: ParseState, enable: bool)
    requires
        st.in_entry,
    ensures
        ({
            let s9 = if enable {
                st
            } else {
                ParseState { autostart: false, ..st }
            };
            &&& parse_line(st, "X-GNOME-Autostart-enabled="@ + bool_text(enable)) == Some(s9)
            &&& parse_line(s9, "X-KDE-autostart-enabled="@ + bool_text(enable)) == Some(s9)
            &&& parse_line(s9, "Hidden="@ + bool_text(!enable)) == Some(
                ParseState { hidden: !enable, ..s9 },
            )
        }),
{
    reveal_strlit("X-GNOME-Autostart-enabled=");
    reveal_strlit("X-KDE-autostart-enabled=");
    reveal_strlit("Hidden=");
    reveal_strlit("X-GNOME-Autostart-enabled");
    reveal_strlit("X-KDE-autostart-enabled");
    reveal_strlit("Hidden");
    reveal_strlit("=");
    reveal_strlit("true");
    reveal_strlit("false");
    reveal_strlit("Name");
    reveal_strlit("Comment");
    reveal_strlit("Exec");
    reveal_strlit("Icon");
    reveal_strlit("Terminal");
    let s9 = if enable {
        st
    } else {
        ParseState { autostart: false, ..st }
    };
    let t = bool_text(enable);
    let nt = bool_text(!enable);
    lemma_trim_fixed(t);
    lemma_trim_fixed(nt);
    lemma_parse_key_line(st, "X-GNOME-Autostart-enabled"@, t);
    assert("X-GNOME-Autostart-enabled="@ + t =~= "X-GNOME-Autostart-enabled"@ + "="@ + t);
    lemma_parse_key_line(s9, "X-KDE-autostart-enabled"@, t);
    assert("X-KDE-autostart-enabled="@ + t =~= "X-KDE-autostart-enabled"@ + "="@ + t);
    lemma_parse_key_line(s9, "Hidden"@, nt);
    assert("Hidden="@ + nt =~= "Hidden"@ + "="@ + nt);
    assert(eq_ignore_ascii_case(t, "false"@) == !enable);
    assert(eq_ignore_ascii_case(nt, "true"@) == !enable);
}

/// Where a line's trimmed key is `Hidden` or an autostart switch, the
/// trimmed line starts with that key and `=` (no space before the `=`).
pub open spec fn switch_written_plainly(l: Seq<char>) -> bool {
    match split_once(trim(l), '=') {
        Some((k, v)) => {
            &&& trim(k) == "Hidden"@ ==> starts_with(trim(l), "Hidden="@)
            &&& trim(k) == "X-GNOME-Autostart-enabled"@ ==> starts_with(
                trim(l),
                "X-GNOME-Autostart-enabled="@,
            )
            &&& trim(k) == "X-KDE-autostart-enabled"@ ==> starts_with(trim(l), "X-KDE-autostart-enabled="@)
        },
        None => true,
    }
}

/// One of the three switch lines a switch writes.
pub open spec fn switch_line(l: Seq<char>, enable: bool) -> bool {
    l == "Hidden="@ + bool_text(!enable) || l == "X-GNOME-Autostart-enabled="@ + bool_text(enable) || l
        == "X-KDE-autostart-enabled="@ + bool_text(enable)
}

/// A line a switch leaves as it is: no switch, and keys written plainly.
pub open spec fn kept_line(l: Seq<char>) -> bool {
    &&& !starts_with(trim(l), "Hidden="@)
    &&& !starts_with(trim(l), "X-GNOME-Autostart-enabled="@)
    &&& !starts_with(trim(l), "X-KDE-autostart-enabled="@)
    &&& switch_written_plainly(l)
}

/// Facts about a switch line: it is its own trim, it opens no section,
/// and inside the entry section it applies its key.
proof fn lemma_switch_line_facts(l: Seq<char>, enable: bool, st: ParseState)
    requires
        switch_line(l, enable),
    ensures
        trim(l) == l,
        !is_entry_header(l),
        !is_other_header(l),
        !starts_with(l, "["@),
        plain_line(l),
        st.in_entry && l == "Hidden="@ + bool_text(!enable) ==> parse_line(st, l) == Some(
            apply_key(st, "Hidden"@, bool_text(!enable)),
        ),
        st.in_entry && l == "X-GNOME-Autostart-enabled="@ + bool_text(enable) ==> parse_line(st, l)
            == Some(apply_key(st, "X-GNOME-Autostart-enabled"@, bool_text(enable))),
        st.in_entry && l == "X-KDE-autostart-enabled="@ + bool_text(enable) ==> parse_line(st, l)
            == Some(apply_key(st, "X-KDE-autostart-enabled"@, bool_text(enable))),
        !st.in_entry ==> parse_line(st, l) == Some(st),
{
    reveal_strlit("Hidden=");
    reveal_strlit("X-GNOME-Autostart-enabled=");
    reveal_strlit("X-KDE-autostart-enabled=");
    reveal_strlit("Hidden");
    reveal_strlit("X-GNOME-Autostart-enabled");
    reveal_strlit("X-KDE-autostart-enabled");
    reveal_strlit("=");
    reveal_strlit("true");
    reveal_strlit("false");
    reveal_strlit("[Desktop Entry]");
    reveal_strlit("[");
    let t = bool_text(enable);
    let nt = bool_text(!enable);
    assert(l.len() > 0 && (l[0] == 'H' || l[0] == 'X'));
    assert(l.last() == 'e');
    lemma_trim_fixed(l);
    assert(l != "[Desktop Entry]"@) by {
        assert("[Desktop Entry]"@[0] == '[');
    }
    assert(!starts_with(l, "["@)) by {
        assert(l.subrange(0, 1)[0] != '[');
    }
    assert(control_free(t));
    assert(control_free(nt));
    assert(plain_line("Hidden="@));
    assert(plain_line("X-GNOME-Autostart-enabled="@));
    assert(plain_line("X-KDE-autostart-enabled="@));
    lemma_prefixed_plain("Hidden="@, nt);
    lemma_prefixed_plain("X-GNOME-Autostart-enabled="@, t);
    lemma_prefixed_plain("X-KDE-autostart-enabled="@, t);
    lemma_trim_fixed(t);
    lemma_trim_fixed(nt);
    if st.in_entry {
        assert("Hidden="@ + nt =~= "Hidden"@ + "="@ + nt);
        assert("X-GNOME-Autostart-enabled="@ + t =~= "X-GNOME-Autostart-enabled"@ + "="@ + t);
        assert("X-KDE-autostart-enabled="@ + t =~= "X-KDE-autostart-enabled"@ + "="@ + t);
        lemma_parse_key_line(st, "Hidden"@, nt);
        lemma_parse_key_line(st, "X-GNOME-Autostart-enabled"@, t);
        lemma_parse_key_line(st, "X-KDE-autostart-enabled"@, t);
    }
}

/// A switched line is a switch line or a line the switch kept.
proof fn lemma_toggle_line_class(l: Seq<char>, enable: bool)
    requires
        switch_written_plainly(l),
    ensures
        switch_line(toggle_line(l, enable), enable) || (toggle_line(l, enable) == l && kept_line(l)),
        is_entry_header(l) ==> toggle_line(l, enable) == l,
        starts_with(trim(l), "X-GNOME-Autostart-enabled="@) ==> toggle_line(l, enable)
            == "X-GNOME-Autostart-enabled="@ + bool_text(enable),
{
    reveal_strlit("Hidden=");
    reveal_strlit("X-GNOME-Autostart-enabled=");
    reveal_strlit("X-KDE-autostart-enabled=");
    reveal_strlit("[Desktop Entry]");
    let t = trim(l);
    if starts_with(t, "X-GNOME-Autostart-enabled="@) {
        assert(t.take(26) == "X-GNOME-Autostart-enabled="@);
        assert(t.take(26)[0] == t[0]);
        assert(t[0] == 'X');
        assert(!starts_with(t, "Hidden="@)) by {
            assert(t.take(7)[0] == 'X');
        }
    }
    if is_entry_header(l) {
        assert(!starts_with(t, "Hidden="@)) by {
            assert(t.take(7)[0] == '[');
        }
        assert(!starts_with(t, "X-GNOME-Autostart-enabled="@)) by {
            if t.len() >= 26 {
                assert(t.take(26)[0] == '[');
            }
        }
        assert(!starts_with(t, "X-KDE-autostart-enabled="@)) by {
            if t.len() >= 24 {
                assert(t.take(24)[0] == '[');
            }
        }
    }
}

/// While the entry is enabled, a switch line switching on or a kept line
/// leaves it enabled.
proof fn lemma_line_keeps_enabled(st: ParseState, l: Seq<char>)
    requires
        !st.hidden,
        st.autostart,
        switch_line(l, true) || kept_line(l),
    ensures
        match parse_line(st, l) {
            Some(s2) => !s2.hidden && s2.autostart,
            None => true,
        },
{
    reveal_strlit("Hidden");
    reveal_strlit("X-GNOME-Autostart-enabled");
    reveal_strlit("X-KDE-autostart-enabled");
    reveal_strlit("true");
    reveal_strlit("false");
    reveal_strlit("Name");
    reveal_strlit("Comment");
    reveal_strlit("Exec");
    reveal_strlit("Icon");
    reveal_strlit("Terminal");
    if switch_line(l, true) {
        lemma_switch_line_facts(l, true, st);
        assert(!eq_ignore_ascii_case("false"@, "true"@)) by {
            assert(ascii_lower("false"@[0]) != ascii_lower("true"@[0]));
        }
        assert(!eq_ignore_ascii_case("true"@, "false"@)) by {
            assert(ascii_lower("true"@[0]) != ascii_lower("false"@[0]));
        }
        if st.in_entry {
            if l == "Hidden="@ + bool_text(false) {
                let s2 = apply_key(st, "Hidden"@, "false"@);
                assert(!s2.hidden && s2.autostart);
            } else if l == "X-GNOME-Autostart-enabled="@ + bool_text(true) {
                let k = "X-GNOME-Autostart-enabled"@;
                assert(k.len() == 25);
                assert(k != "Name"@ && k != "Comment"@ && k != "Exec"@ && k != "Icon"@ && k != "Terminal"@ && k != "Hidden"@);
                assert(!((k == "X-GNOME-Autostart-enabled"@ || k == "X-KDE-autostart-enabled"@)
                    && eq_ignore_ascii_case("true"@, "false"@)));
                let s2 = apply_key(st, k, "true"@);
                assert(s2 == st);
            } else {
                let k = "X-KDE-autostart-enabled"@;
                assert(k.len() == 23);
                assert(k != "Name"@ && k != "Comment"@ && k != "Exec"@ && k != "Icon"@ && k != "Terminal"@ && k != "Hidden"@);
                assert(!((k == "X-GNOME-Autostart-enabled"@ || k == "X-KDE-autostart-enabled"@)
                    && eq_ignore_ascii_case("true"@, "false"@)));
                let s2 = apply_key(st, k, "true"@);
                assert(s2 == st);
            }
        }
    } else {
        let t = trim(l);
        match split_once(t, '=') {
            Some((k, v)) => {
                assert(trim(k) != "Hidden"@);
                assert(trim(k) != "X-GNOME-Autostart-enabled"@);
                assert(trim(k) != "X-KDE-autostart-enabled"@);
                let s2 = apply_key(st, trim(k), trim(v));
                assert(!s2.hidden && s2.autostart);
            },
            None => {},
        }
    }
}

/// No line turns the autostart switch back on.
proof fn lemma_autostart_stays_off(st: ParseState, ls: Seq<Seq<char>>)
    requires
        !st.autostart,
    ensures
        !parse_lines(st, ls).autostart,
    decreases ls.len(),
{
    if ls.len() > 0 {
        match parse_line(st, ls[0]) {
            Some(next) => lemma_autostart_stays_off(next, ls.drop_first()),
            None => {},
        }
    }
}

/// Lines that each keep the entry enabled keep it enabled.
proof fn lemma_lines_keep_enabled(st: ParseState, ls: Seq<Seq<char>>)
    requires
        !st.hidden,
        st.autostart,
        forall|i: int| 0 <= i < ls.len() ==> switch_line(#[trigger] ls[i], true) || kept_line(ls[i]),
    ensures
        !parse_lines(st, ls).hidden && parse_lines(st, ls).autostart,
    decreases ls.len(),
{
    if ls.len() > 0 {
        lemma_line_keeps_enabled(st, ls[0]);
        match parse_line(st, ls[0]) {
            Some(next) => {
                assert forall|i: int| 0 <= i < ls.drop_first().len() implies switch_line(
                    #[trigger] ls.drop_first()[i],
                    true,
                ) || kept_line(ls.drop_first()[i]) by {
                    assert(ls.drop_first()[i] == ls[i + 1]);
                }
                lemma_lines_keep_enabled(next, ls.drop_first());
            },
            None => {},
        }
    }
}

proof fn lemma_entry_header_from(ls: Seq<Seq<char>>, i: int)
    requires
        0 <= i <= ls.len(),
    ensures
        i <= entry_header_from(ls, i) <= ls.len(),
        forall|j: int| i <= j < entry_header_from(ls, i) ==> !is_entry_header(#[trigger] ls[j]),
        entry_header_from(ls, i) < ls.len() ==> is_entry_header(ls[entry_header_from(ls, i)]),
    decreases ls.len() - i,
{
    if i < ls.len() && !is_entry_header(ls[i]) {
        lemma_entry_header_from(ls, i + 1);
    }
}

proof fn lemma_other_header_from(ls: Seq<Seq<char>>, i: int)
    requires
        0 <= i <= ls.len(),
    ensures
        i <= other_header_from(ls, i) <= ls.len(),
        forall|j: int| i <= j < other_header_from(ls, i) ==> !is_other_header(#[trigger] ls[j]),
    decreases ls.len() - i,
{
    if i < ls.len() && !is_other_header(ls[i]) {
        lemma_other_header_from(ls, i + 1);
    }
}

/// The line holds no newline.
pub open spec fn no_newline(l: Seq<char>) -> bool {
    forall|k: int| 0 <= k < l.len() ==> l[k] != '\n'
}

/// The lines of a text hold no newlines.
proof fn lemma_lines_no_newline(s: Seq<char>, i: int)
    requires
        0 <= i,
    ensures
        forall|j: int| 0 <= j < lines_from(s, i).len() ==> no_newline(#[trigger] lines_from(s, i)[j]),
    decreases s.len() - i,
{
    if i < s.len() {
        lemma_find_char_from_bounds(s, '\n', i);
        let f = find_char_from(s, '\n', i);
        let piece = s.subrange(i, f);
        assert(no_newline(piece)) by {
            assert forall|k: int| 0 <= k < piece.len() implies piece[k] != '\n' by {
                assert(piece[k] == s[i + k]);
            }
        }
        if f < s.len() {
            lemma_lines_no_newline(s, f + 1);
            assert(no_newline(strip_cr(piece))) by {
                assert forall|k: int| 0 <= k < strip_cr(piece).len() implies strip_cr(piece)[k] != '\n' by {
                    assert(strip_cr(piece)[k] == piece[k]);
                }
            }
            assert forall|j: int| 0 <= j < lines_from(s, i).len() implies no_newline(
                #[trigger] lines_from(s, i)[j],
            ) by {
                if j > 0 {
                    assert(lines_from(s, i)[j] == lines_from(s, f + 1)[j - 1]);
                }
            }
        } else {
            assert(s.subrange(i, s.len() as int) == piece);
        }
    }
}

/// Dropping a trailing whitespace character does not change the trim.
proof fn lemma_trim_drop_last_ws(s: Seq<char>)
    requires
        s.len() > 0,
        is_ws(s.last()),
    ensures
        trim(s.drop_last()) == trim(s),
    decreases s.len(),
{
    if is_ws(s[0]) {
        if s.len() == 1 {
            assert(s.drop_first() =~= Seq::<char>::empty());
            assert(s.drop_last() =~= Seq::<char>::empty());
        } else {
            assert(s.drop_last()[0] == s[0]);
            assert(s.drop_last().drop_first() =~= s.drop_first().drop_last());
            assert(s.drop_first().last() == s.last());
            lemma_trim_drop_last_ws(s.drop_first());
        }
    } else {
        assert(s.len() > 1);
        assert(s.drop_last()[0] == s[0]);
        assert(trim_start(s) == s);
        assert(trim_start(s.drop_last()) == s.drop_last());
    }
}

/// A line's trim does not depend on a trailing carriage return.
proof fn lemma_trim_strip_cr(l: Seq<char>)
    ensures
        trim(strip_cr(l)) == trim(l),
{
    if l.len() > 0 && l.last() == '\r' {
        lemma_trim_drop_last_ws(l);
    }
}

/// Reading lines with a trailing carriage return removed reads the same.
proof fn lemma_parse_lines_strip_cr(st: ParseState, ls: Seq<Seq<char>>)
    ensures
        parse_lines(st, Seq::new(ls.len(), |i: int| strip_cr(ls[i]))) == parse_lines(st, ls),
    decreases ls.len(),
{
    let sl = Seq::new(ls.len(), |i: int| strip_cr(ls[i]));
    if ls.len() > 0 {
        lemma_trim_strip_cr(ls[0]);
        assert(parse_line(st, sl[0]) == parse_line(st, ls[0]));
        let rest = ls.drop_first();
        assert(sl.drop_first() =~= Seq::new(rest.len(), |i: int| strip_cr(rest[i])));
        match parse_line(st, ls[0]) {
            Some(next) => lemma_parse_lines_strip_cr(next, rest),
            None => {},
        }
    }
}

/// The lines of a newline-free line followed by a newline and more text.
proof fn lemma_lines_cons_cr(a: Seq<char>, r: Seq<char>)
    requires
        no_newline(a),
    ensures
        lines(a + "\n"@ + r) == seq![strip_cr(a)] + lines(r),
{
    reveal_strlit("\n");
    let p = a + "\n"@;
    let s = p + r;
    assert(a + "\n"@ + r == s);
    lemma_find_at(s, '\n', 0, a.len() as int);
    assert(s.subrange(0, a.len() as int) =~= a);
    lemma_lines_shift(p, r, 0);
    assert(p.len() + 0 == a.len() + 1);
}

/// Reading back newline-terminated lines gives each line with a trailing
/// carriage return removed.
proof fn lemma_lines_terminated_cr(ls: Seq<Seq<char>>)
    requires
        forall|i: int| 0 <= i < ls.len() ==> no_newline(#[trigger] ls[i]),
    ensures
        lines(terminated(ls)) == Seq::new(ls.len(), |i: int| strip_cr(ls[i])),
    decreases ls.len(),
{
    if ls.len() == 0 {
        assert(lines(Seq::<char>::empty()) =~= Seq::<Seq<char>>::empty());
        assert(Seq::new(ls.len(), |i: int| strip_cr(ls[i])) =~= Seq::<Seq<char>>::empty());
    } else {
        lemma_terminated_cons(ls);
        let rest = ls.drop_first();
        assert forall|i: int| 0 <= i < rest.len() implies no_newline(#[trigger] rest[i]) by {
            assert(rest[i] == ls[i + 1]);
        }
        lemma_lines_terminated_cr(rest);
        assert(no_newline(ls[0]));
        lemma_lines_cons_cr(ls[0], terminated(rest));
        assert(seq![strip_cr(ls[0])] + Seq::new(rest.len(), |i: int| strip_cr(rest[i])) =~= Seq::new(
            ls.len(),
            |i: int| strip_cr(ls[i]),
        ));
    }
}

/// The line that switches the GNOME autostart off.
pub open spec fn gnome_off() -> Seq<char> {
    "X-GNOME-Autostart-enabled="@ + bool_text(false)
}

/// Inside the entry section, reading reaches the switch-off line at `g`
/// and the entry stays switched off.
proof fn lemma_reaches_switch_off_inside(st: ParseState, ls: Seq<Seq<char>>, g: int)
    requires
        st.in_entry,
        0 <= g < ls.len(),
        forall|j: int| 0 <= j < g ==> !is_other_header(#[trigger] ls[j]),
        ls[g] == gnome_off(),
    ensures
        !parse_lines(st, ls).autostart,
    decreases g,
{
    reveal_strlit("Name");
    reveal_strlit("Comment");
    reveal_strlit("Exec");
    reveal_strlit("Icon");
    reveal_strlit("Terminal");
    reveal_strlit("Hidden");
    reveal_strlit("X-GNOME-Autostart-enabled");
    reveal_strlit("false");
    reveal_strlit("[Desktop Entry]");
    reveal_strlit("[");
    if g == 0 {
        lemma_switch_line_facts(ls[0], false, st);
        let k = "X-GNOME-Autostart-enabled"@;
        assert(k.len() == 25);
        assert(k != "Name"@ && k != "Comment"@ && k != "Exec"@ && k != "Icon"@ && k != "Terminal"@ && k
            != "Hidden"@);
        assert(eq_ignore_ascii_case("false"@, "false"@));
        let next = apply_key(st, k, "false"@);
        assert(!next.autostart);
        lemma_autostart_stays_off(next, ls.drop_first());
    } else {
        let l = trim(ls[0]);
        assert(!is_other_header(ls[0]));
        match parse_line(st, ls[0]) {
            Some(next) => {
                assert(next.in_entry);
                assert forall|j: int| 0 <= j < g - 1 implies !is_other_header(#[trigger] ls.drop_first()[j]) by {
                    assert(ls.drop_first()[j] == ls[j + 1]);
                }
                lemma_reaches_switch_off_inside(next, ls.drop_first(), g - 1);
            },
            None => {
                assert(false);
            },
        }
    }
}

/// Before the entry section, reading passes the lines up to its header at
/// `h`, enters it, and reaches the switch-off line at `g`.
proof fn lemma_reaches_switch_off(st: ParseState, ls: Seq<Seq<char>>, h: int, g: int)
    requires
        !st.in_entry,
        0 <= h < g < ls.len(),
        forall|j: int| 0 <= j < h ==> !is_entry_header(#[trigger] ls[j]),
        is_entry_header(ls[h]),
        forall|j: int| h < j < g ==> !is_other_header(#[trigger] ls[j]),
        ls[g] == gnome_off(),
    ensures
        !parse_lines(st, ls).autostart,
    decreases h,
{
    reveal_strlit("[Desktop Entry]");
    let rest = ls.drop_first();
    assert forall|j: int| h - 1 < j < g - 1 implies !is_other_header(#[trigger] rest[j]) by {
        assert(rest[j] == ls[j + 1]);
    }
    if h == 0 {
        let next = ParseState { in_entry: true, ..st };
        assert(parse_line(st, ls[0]) == Some(next));
        assert forall|j: int| 0 <= j < g - 1 implies !is_other_header(#[trigger] rest[j]) by {
            assert(rest[j] == ls[j + 1]);
        }
        assert(rest[g - 1] == ls[g]);
        lemma_reaches_switch_off_inside(next, rest, g - 1);
    } else {
        assert(!is_entry_header(ls[0]));
        assert(parse_line(st, ls[0]) == Some(st));
        assert forall|j: int| 0 <= j < h - 1 implies !is_entry_header(#[trigger] rest[j]) by {
            assert(rest[j] == ls[j + 1]);
        }
        assert(rest[h - 1] == ls[h]);
        assert(rest[g - 1] == ls[g]);
        lemma_reaches_switch_off(st, rest, h - 1, g - 1);
    }
}

/// Switching an entry on or off and reading it back gives an entry that is
/// enabled exactly when it was switched on. This holds of any text that
/// has a `[Desktop Entry]` group and writes its switch keys as
/// `key=value`; the text may have other groups and `\r\n` line ends.
pub proof fn lemma_switched_text_enabled(content: Seq<char>, enable: bool)
    requires
        entry_header_from(lines(content), 0) < lines(content).len(),
        forall|i: int| 0 <= i < lines(content).len() ==> switch_written_plainly(#[trigger] lines(content)[i]),
    ensures
        ({
            let st = parse_lines(parse_start(), lines(toggled_content(content, enable)));
            (!st.hidden && st.autostart) == enable
        }),
{
    let ls = lines(content);
    let n = ls.len() as int;
    let h = entry_header_from(ls, 0);
    let g = group_end(ls);
    let mapped = Seq::new(ls.len(), |i: int| toggle_line(ls[i], enable));
    let m = missing_switches(ls, enable);
    let t = toggled_lines(ls, enable);
    lemma_entry_header_from(ls, 0);
    lemma_other_header_from(ls, h + 1);
    lemma_lines_no_newline(content, 0);
    assert(h < g <= n);
    assert(t == mapped.take(g) + m + mapped.skip(g));
    assert(t.len() == n + m.len());
    assert forall|j: int| 0 <= j < m.len() implies switch_line(#[trigger] m[j], enable) by {}
    assert forall|i: int| 0 <= i < t.len() implies (switch_line(#[trigger] t[i], enable) || kept_line(t[i]))
        && no_newline(t[i]) by {
        if i < g {
            assert(t[i] == mapped[i]);
            lemma_toggle_line_class(ls[i], enable);
        } else if i < g + m.len() {
            assert(t[i] == m[i - g]);
        } else {
            assert(t[i] == mapped[i - m.len()]);
            lemma_toggle_line_class(ls[i - m.len()], enable);
        }
        if switch_line(t[i], enable) {
            lemma_switch_line_facts(t[i], enable, parse_start());
        }
    }
    lemma_join_terminated(t);
    lemma_lines_terminated_cr(t);
    lemma_parse_lines_strip_cr(parse_start(), t);
    assert(lines(toggled_content(content, enable)) == Seq::new(t.len(), |i: int| strip_cr(t[i])));
    if enable {
        lemma_lines_keep_enabled(parse_start(), t);
    } else {
        let gi: int = if group_has(ls, "X-GNOME-Autostart-enabled="@) {
            choose|i: int| h < i < g && starts_with(trim(#[trigger] ls[i]), "X-GNOME-Autostart-enabled="@)
        } else if group_has(ls, "Hidden="@) {
            g
        } else {
            g + 1
        };
        if group_has(ls, "X-GNOME-Autostart-enabled="@) {
            lemma_toggle_line_class(ls[gi], false);
            assert(t[gi] == mapped[gi]);
        } else {
            assert(t[gi] == m[gi - g]);
        }
        assert(t[gi] == gnome_off());
        assert forall|j: int| 0 <= j < h implies !is_entry_header(#[trigger] t[j]) by {
            assert(t[j] == mapped[j]);
            lemma_toggle_line_class(ls[j], false);
            if switch_line(t[j], false) {
                lemma_switch_line_facts(t[j], false, parse_start());
            }
        }
        assert(t[h] == mapped[h]);
        lemma_toggle_line_class(ls[h], false);
        assert forall|j: int| h < j < gi implies !is_other_header(#[trigger] t[j]) by {
            if j < g {
                assert(t[j] == mapped[j]);
                lemma_toggle_line_class(ls[j], false);
            } else {
                assert(t[j] == m[j - g]);
            }
            if switch_line(t[j], false) {
                lemma_switch_line_facts(t[j], false, parse_start());
            }
        }
        lemma_reaches_switch_off(parse_start(), t, h, gi);
    }
}

/// An entry read from a text switched on or off is enabled exactly when it
/// was switched on (see `lemma_switched_text_enabled` for the texts this
/// holds of).
pub proof fn lemma_switched_entry_enabled(
    content: Seq<char>,
    enable: bool,
    item: StartupItem,
    path: Seq<char>,
    source: StartupSource,
)
    requires
        entry_header_from(lines(content), 0) < lines(content).len(),
        forall|i: int| 0 <= i < lines(content).len() ==> switch_written_plainly(#[trigger] lines(content)[i]),
        parsed_entry_is(item, toggled_content(content, enable), path, source),
    ensures
        item.enabled == enable,
{
    lemma_switched_text_enabled(content, enable);
}

} // verus!
