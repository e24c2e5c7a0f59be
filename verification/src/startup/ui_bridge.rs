//! What the startup page shows, and what it fills in when the user picks a
//! program to start.

use vstd::prelude::*;
use crate::localization::{LocalizationService, text_of};
use crate::paths::{file_name, file_name_of, file_stem, stem_of};
use crate::startup::manager::{StartupService, matching_entries};
use crate::startup::models::{StartupItem, StartupSource, source_code};
use crate::text::{to_uppercase, trim, trim_vec, uppercase, vec_of, string_from_chars};

verus! {

/// One autostart entry as the page shows it.
#[derive(Debug)]
pub struct StartupCardRow {
    pub id: String,
    pub name: String,
    pub comment: String,
    pub command: String,
    pub source_name: String,
    pub source_code: String,
    pub icon_path: Option<String>,
    pub enabled: bool,
    pub is_terminal: bool,
}

/// What the page fills in after a file was picked: the command, and the
/// name when the name field was empty.
#[derive(Debug)]
pub struct BrowseSuggestion {
    pub command: String,
    pub name: Option<String>,
}

/// The translation key of a source's label.
pub open spec fn source_key(s: StartupSource) -> Seq<char> {
    match s {
        StartupSource::User => "startup.source_user"@,
        StartupSource::System => "startup.source_system"@,
    }
}

/// How the page shows an entry.
pub open spec fn card_is(row: StartupCardRow, item: StartupItem, loc: LocalizationService) -> bool {
    &&& row.id@ == item.id@
    &&& row.name@ == item.name@
    &&& row.comment@ == item.comment@
    &&& row.command@ == item.command@
    &&& row.source_name@ == text_of(loc, source_key(item.source))
    &&& row.source_code@ == source_code(item.source)
    &&& match item.icon_path {
        Some(p) => row.icon_path matches Some(q) && q@ == p@,
        None => row.icon_path is None,
    }
    &&& row.enabled == item.enabled
    &&& row.is_terminal == item.is_terminal
}

/// The first character uppercased, the rest kept.
pub open spec fn capitalized(s: Seq<char>) -> Seq<char> {
    if s.len() == 0 {
        seq![]
    } else {
        uppercase(seq![s[0]]) + s.drop_first()
    }
}

/// The command that starts a picked file: the file itself when it is
/// executable, else `xdg-open` with the quoted path.
pub open spec fn browse_command(path: Seq<char>, is_executable: bool) -> Seq<char> {
    if is_executable {
        path
    } else {
        "xdg-open \""@ + path + "\""@
    }
}

/// The name suggested for a picked file while the name field is blank: its
/// file stem, capitalized.
pub open spec fn browse_name(path: Seq<char>, name_input: Seq<char>) -> Option<Seq<char>> {
    if trim(name_input).len() == 0 {
        match file_name_of(path) {
            Some(n) => Some(capitalized(stem_of(n))),
            None => None,
        }
    } else {
        None
    }
}

fn card_of(item: &StartupItem, loc: &LocalizationService) -> (r: StartupCardRow)
    ensures
        card_is(r, *item, *loc),
{
    let source_name = match item.source {
        StartupSource::User => loc.t("startup.source_user"),
        StartupSource::System => loc.t("startup.source_system"),
    };
    let icon_path = match &item.icon_path {
        Some(p) => Some(p.clone()),
        None => None,
    };
    StartupCardRow {
        id: item.id.clone(),
        name: item.name.clone(),
        comment: item.comment.clone(),
        command: item.command.clone(),
        source_name,
        source_code: item.source.code().to_owned(),
        icon_path,
        enabled: item.enabled,
        is_terminal: item.is_terminal,
    }
}

/// The cards of the entries that match the search, in order.
pub fn update_startup_ui(service: &StartupService, loc: &LocalizationService) -> (r: Vec<StartupCardRow>)
    ensures
        r@.len() == matching_entries(service.items(), service.query()).len(),
        forall|i: int| 0 <= i < r@.len() ==> card_is(
            #[trigger] r@[i],
            matching_entries(service.items(), service.query())[i],
            *loc,
        ),
{
    let items = service.get_filtered_items();
    let mut rows: Vec<StartupCardRow> = Vec::new();
    let mut i: usize = 0;
    while i < items.len()
        invariant
            i <= items@.len(),
            items@ == matching_entries(service.items(), service.query()),
            rows@.len() == i,
            forall|k: int| 0 <= k < i ==> card_is(#[trigger] rows@[k], items@[k], *loc),
        decreases items.len() - i,
    {
        rows.push(card_of(&items[i], loc));
        i += 1;
    }
    rows
}

/// The first character of a text uppercased, the rest kept.
fn capitalize(s: &str) -> (r: String)
    ensures
        r@ == capitalized(s@),
{
    let v = vec_of(s);
    if v.len() == 0 {
        return String::new();
    }
    let one = vec![v[0]];
    assert(one@ =~= seq![v@[0]]);
    let first = string_from_chars(&one);
    let upper = to_uppercase(first.as_str());
    let mut out = vec_of(upper.as_str());
    assert(out@ =~= uppercase(seq![v@[0]]) + v@.subrange(1, 1));
    let mut i: usize = 1;
    while i < v.len()
        invariant
            1 <= i <= v@.len(),
            out@ == uppercase(seq![v@[0]]) + v@.subrange(1, i as int),
        decreases v.len() - i,
    {
        out.push(v[i]);
        proof {
            assert(out@ =~= uppercase(seq![v@[0]]) + v@.subrange(1, i as int + 1));
        }
        i += 1;
    }
    proof {
        assert(v@.subrange(1, i as int) =~= v@.drop_first());
        assert(seq![v@[0]] =~= seq![s@[0]]);
    }
    string_from_chars(&out)
}

/// What to fill in after the user picked the file at `path`: the command
/// that starts it, and, when the name field holds only spaces, its file
/// stem capitalized as the name.
pub fn browse_suggestion(path: &str, is_executable: bool, name_input: &str) -> (r: BrowseSuggestion)
    ensures
        r.command@ == browse_command(path@, is_executable),
        match browse_name(path@, name_input@) {
            Some(n) => r.name matches Some(m) && m@ == n,
            None => r.name is None,
        },
{
    let command = if is_executable {
        path.to_owned()
    } else {
        let mut c = vec_of("xdg-open \"");
        let p = vec_of(path);
        let mut i: usize = 0;
        let ghost start = c@;
        while i < p.len()
            invariant
                i <= p@.len(),
                c@ == start + p@.take(i as int),
            decreases p.len() - i,
        {
            c.push(p[i]);
            proof {
                assert(c@ =~= start + p@.take(i as int + 1));
            }
            i += 1;
        }
        c.push('"');
        proof {
            reveal_strlit("\"");
            assert(p@.take(i as int) =~= path@);
            assert(c@ =~= "xdg-open \""@ + path@ + "\""@);
        }
        string_from_chars(&c)
    };
    let name = if trim_vec(&vec_of(name_input)).len() == 0 {
        match file_name(path) {
            Some(n) => {
                let stem = file_stem(n.as_str());
                Some(capitalize(stem.as_str()))
            },
            None => None,
        }
    } else {
        None
    };
    BrowseSuggestion { command, name }
}

} // verus!
