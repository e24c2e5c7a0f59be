//! Splitting and joining of character sequences: `str::lines`,
//! `str::split_whitespace`, `str::split_once` and `join`.

use vstd::prelude::*;
use crate::text::{is_ws, char_is_ws, slice_of};

verus! {

/// The views of a sequence of character vectors.
pub open spec fn views(v: Seq<Vec<char>>) -> Seq<Seq<char>> {
    Seq::new(v.len(), |i: int| v[i]@)
}

/// Index of the first `c` at or after `i`, or `s.len()` when there is none.
pub open spec fn find_char_from(s: Seq<char>, c: char, i: int) -> int
    decreases s.len() - i,
{
    if i >= s.len() {
        s.len() as int
    } else if s[i] == c {
        i
    } else {
        find_char_from(s, c, i + 1)
    }
}

/// Index of the first whitespace character at or after `i`, or `s.len()`.
pub open spec fn find_ws_from(s: Seq<char>, i: int) -> int
    decreases s.len() - i,
{
    if i >= s.len() {
        s.len() as int
    } else if is_ws(s[i]) {
        i
    } else {
        find_ws_from(s, i + 1)
    }
}

/// Index of the first non-whitespace character at or after `i`, or `s.len()`.
pub open spec fn skip_ws_from(s: Seq<char>, i: int) -> int
    decreases s.len() - i,
{
    if i >= s.len() {
        s.len() as int
    } else if is_ws(s[i]) {
        skip_ws_from(s, i + 1)
    } else {
        i
    }
}

pub proof fn lemma_find_char_from_bounds(s: Seq<char>, c: char, i: int)
    ensures
        find_char_from(s, c, i) >= i || (i > s.len() && find_char_from(s, c, i) == s.len()),
        find_char_from(s, c, i) <= s.len() || find_char_from(s, c, i) == i,
        0 <= i < s.len() ==> i <= find_char_from(s, c, i) <= s.len(),
        0 <= i && find_char_from(s, c, i) < s.len() ==> s[find_char_from(s, c, i)] == c,
        forall|k: int| 0 <= i <= k < find_char_from(s, c, i) ==> s[k] != c,
    decreases s.len() - i,
{
    if i < s.len() && s[i] != c {
        lemma_find_char_from_bounds(s, c, i + 1);
    }
}

pub proof fn lemma_find_ws_from_bounds(s: Seq<char>, i: int)
    ensures
        0 <= i <= s.len() ==> i <= find_ws_from(s, i) <= s.len(),
        0 <= i && find_ws_from(s, i) < s.len() ==> is_ws(s[find_ws_from(s, i)]),
        forall|k: int| 0 <= i <= k < find_ws_from(s, i) ==> !is_ws(s[k]),
    decreases s.len() - i,
{
    if i < s.len() && !is_ws(s[i]) {
        lemma_find_ws_from_bounds(s, i + 1);
    }
}

pub proof fn lemma_skip_ws_from_bounds(s: Seq<char>, i: int)
    ensures
        0 <= i <= s.len() ==> i <= skip_ws_from(s, i) <= s.len(),
        i > s.len() ==> skip_ws_from(s, i) == s.len(),
        0 <= i && skip_ws_from(s, i) < s.len() ==> !is_ws(s[skip_ws_from(s, i)]),
        forall|k: int| 0 <= i <= k < skip_ws_from(s, i) ==> is_ws(s[k]),
    decreases s.len() - i,
{
    if i < s.len() && is_ws(s[i]) {
        lemma_skip_ws_from_bounds(s, i + 1);
    }
}

/// A line without its trailing carriage return, if it has one.
pub open spec fn strip_cr(l: Seq<char>) -> Seq<char> {
    if l.len() > 0 && l.last() == '\r' {
        l.drop_last()
    } else {
        l
    }
}

/// The lines of `s` from position `i` on, as `str::lines` yields them.
pub open spec fn lines_from(s: Seq<char>, i: int) -> Seq<Seq<char>>
    decreases s.len() - i,
{
    if i < 0 || i >= s.len() {
        seq![]
    } else {
        let j = find_char_from(s, '\n', i);
        if j < s.len() {
            proof {
                lemma_find_char_from_bounds(s, '\n', i);
            }
            seq![strip_cr(s.subrange(i, j))] + lines_from(s, j + 1)
        } else {
            seq![s.subrange(i, s.len() as int)]
        }
    }
}

/// `str::lines`: pieces between newlines, a `\r` before a newline removed,
/// no empty piece after a final newline.
pub open spec fn lines(s: Seq<char>) -> Seq<Seq<char>> {
    lines_from(s, 0)
}

/// The whitespace-separated words of `s` from position `i` on.
pub open spec fn words_from(s: Seq<char>, i: int) -> Seq<Seq<char>>
    decreases s.len() - i,
{
    if i < 0 {
        seq![]
    } else {
        let a = skip_ws_from(s, i);
        if a >= s.len() {
            seq![]
        } else {
            let b = find_ws_from(s, a);
            proof {
                lemma_skip_ws_from_bounds(s, i);
                lemma_find_ws_from_bounds(s, a);
                lemma_find_ws_from_bounds(s, a + 1);
            }
            seq![s.subrange(a, b)] + words_from(s, b)
        }
    }
}

/// `str::split_whitespace`.
pub open spec fn words(s: Seq<char>) -> Seq<Seq<char>> {
    words_from(s, 0)
}

/// `str::split_once` with a character pattern.
pub open spec fn split_once(s: Seq<char>, c: char) -> Option<(Seq<char>, Seq<char>)> {
    let j = find_char_from(s, c, 0);
    if j < s.len() {
        Some((s.take(j), s.skip(j + 1)))
    } else {
        None
    }
}

/// The pieces joined with `sep` between them (`[&str]::join`).
pub open spec fn join(ws: Seq<Seq<char>>, sep: Seq<char>) -> Seq<char>
    decreases ws.len(),
{
    if ws.len() == 0 {
        seq![]
    } else if ws.len() == 1 {
        ws[0]
    } else {
        join(ws.drop_last(), sep) + sep + ws.last()
    }
}

/// `str::lines` on a character vector.
pub fn lines_vec(s: &Vec<char>) -> (r: Vec<Vec<char>>)
    ensures
        views(r@) == lines(s@),
{
    let mut out: Vec<Vec<char>> = Vec::new();
    let mut start: usize = 0;
    let mut i: usize = 0;
    while i < s.len()
        invariant
            start <= i <= s.len(),
            lines(s@) == views(out@) + lines_from(s@, start as int),
            find_char_from(s@, '\n', start as int) == find_char_from(s@, '\n', i as int),
        decreases s.len() - i,
    {
        if s[i] == '\n' {
            let mut line = slice_of(s, start, i);
            let n = line.len();
            if n > 0 && line[n - 1] == '\r' {
                line.pop();
            }
            proof {
                assert(line@ == strip_cr(s@.subrange(start as int, i as int)));
                assert(views(out@.push(line)) =~= views(out@).push(line@));
                assert(lines_from(s@, start as int) == seq![line@] + lines_from(s@, i + 1));
            }
            out.push(line);
            start = i + 1;
        }
        i += 1;
        assert(views(out@) + lines_from(s@, start as int) =~= lines(s@));
    }
    if start < s.len() {
        let line = slice_of(s, start, s.len());
        proof {
            assert(views(out@.push(line)) =~= views(out@).push(line@));
        }
        out.push(line);
    }
    assert(views(out@) =~= lines(s@));
    out
}

/// `str::split_whitespace` on a character vector.
pub fn words_vec(s: &Vec<char>) -> (r: Vec<Vec<char>>)
    ensures
        views(r@) == words(s@),
{
    let mut out: Vec<Vec<char>> = Vec::new();
    let mut i: usize = 0;
    while i < s.len()
        invariant
            i <= s.len(),
            words(s@) == views(out@) + words_from(s@, i as int),
        decreases s.len() - i,
    {
        let mut a = i;
        while a < s.len() && char_is_ws(s[a])
            invariant
                i <= a <= s.len(),
                skip_ws_from(s@, i as int) == skip_ws_from(s@, a as int),
            decreases s.len() - a,
        {
            a += 1;
        }
        if a == s.len() {
            proof {
                lemma_skip_ws_from_bounds(s@, i as int);
                assert(words_from(s@, i as int) =~= seq![]);
                assert(views(out@) + words_from(s@, a as int) =~= views(out@));
            }
            i = a;
        } else {
            let mut b = a;
            while b < s.len() && !char_is_ws(s[b])
                invariant
                    a <= b <= s.len(),
                    find_ws_from(s@, a as int) == find_ws_from(s@, b as int),
                decreases s.len() - b,
            {
                b += 1;
            }
            let w = slice_of(s, a, b);
            proof {
                lemma_skip_ws_from_bounds(s@, i as int);
                assert(words_from(s@, i as int) == seq![w@] + words_from(s@, b as int));
                assert(views(out@.push(w)) =~= views(out@).push(w@));
            }
            out.push(w);
            i = b;
            assert(views(out@) + words_from(s@, i as int) =~= words(s@));
        }
    }
    assert(words_from(s@, i as int) =~= seq![]);
    assert(views(out@) =~= words(s@));
    out
}

/// Position of the first `c` in `s`, or `s.len()`.
pub fn find_char(s: &Vec<char>, c: char) -> (r: usize)
    ensures
        r as int == find_char_from(s@, c, 0),
{
    let mut i: usize = 0;
    while i < s.len() && s[i] != c
        invariant
            i <= s.len(),
            find_char_from(s@, c, 0) == find_char_from(s@, c, i as int),
        decreases s.len() - i,
    {
        i += 1;
    }
    i
}

/// `str::split_once` with a character pattern.
pub fn split_once_vec(s: &Vec<char>, c: char) -> (r: Option<(Vec<char>, Vec<char>)>)
    ensures
        match r {
            Some((a, b)) => split_once(s@, c) == Some((a@, b@)),
            None => split_once(s@, c) is None,
        },
{
    let j = find_char(s, c);
    if j < s.len() {
        let a = slice_of(s, 0, j);
        let b = slice_of(s, j + 1, s.len());
        assert(a@ =~= s@.take(j as int));
        assert(b@ =~= s@.skip(j + 1));
        Some((a, b))
    } else {
        None
    }
}

/// Concatenation of two character vectors.
pub fn concat(a: &Vec<char>, b: &Vec<char>) -> (r: Vec<char>)
    ensures
        r@ == a@ + b@,
{
    let mut out = a.clone();
    let mut i: usize = 0;
    assert(out@ =~= a@ + b@.take(0));
    while i < b.len()
        invariant
            i <= b.len(),
            out@ == a@ + b@.take(i as int),
        decreases b.len() - i,
    {
        out.push(b[i]);
        i += 1;
        assert(out@ =~= a@ + b@.take(i as int));
    }
    assert(b@.take(b.len() as int) =~= b@);
    out
}

/// Appends `b` to `out`.
pub fn push_all(out: &mut Vec<char>, b: &Vec<char>)
    ensures
        final(out)@ == old(out)@ + b@,
{
    let mut i: usize = 0;
    assert(out@ =~= old(out)@ + b@.take(0));
    while i < b.len()
        invariant
            i <= b.len(),
            out@ == old(out)@ + b@.take(i as int),
        decreases b.len() - i,
    {
        out.push(b[i]);
        i += 1;
        assert(out@ =~= old(out)@ + b@.take(i as int));
    }
    assert(b@.take(b.len() as int) =~= b@);
}

/// Appends the characters of `s` to `out`.
pub fn append_str(out: &mut Vec<char>, s: &str)
    ensures
        final(out)@ == old(out)@ + s@,
{
    let v = crate::text::vec_of(s);
    push_all(out, &v);
}

/// `[&str]::join`.
pub fn join_vec(ws: &Vec<Vec<char>>, sep: &Vec<char>) -> (r: Vec<char>)
    ensures
        r@ == join(views(ws@), sep@),
{
    let mut out: Vec<char> = Vec::new();
    let mut i: usize = 0;
    while i < ws.len()
        invariant
            i <= ws.len(),
            out@ == join(views(ws@).take(i as int), sep@),
        decreases ws.len() - i,
    {
        if i > 0 {
            push_all(&mut out, sep);
        }
        push_all(&mut out, &ws[i]);
        proof {
            let t = views(ws@).take(i + 1);
            assert(t.drop_last() =~= views(ws@).take(i as int));
            if i == 0 {
                assert(out@ =~= join(t, sep@));
            }
        }
        i += 1;
    }
    assert(views(ws@).take(ws.len() as int) =~= views(ws@));
    out
}

/// The non-empty pieces of `s` between occurrences of `c`, from position
/// `i` on (`str::split(c)` without its empty pieces).
pub open spec fn fields_from(s: Seq<char>, c: char, i: int) -> Seq<Seq<char>>
    decreases s.len() - i,
{
    if i < 0 || i >= s.len() {
        seq![]
    } else {
        let j = find_char_from(s, c, i);
        proof {
            lemma_find_char_from_bounds(s, c, i);
        }
        let piece = s.subrange(i, j);
        let rest = if j < s.len() {
            fields_from(s, c, j + 1)
        } else {
            seq![]
        };
        if piece.len() == 0 {
            rest
        } else {
            seq![piece] + rest
        }
    }
}

/// `str::replace`: each occurrence of `pat`, left to right and without
/// overlap, from position `i` on, replaced by `rep`.
pub open spec fn replace_from(s: Seq<char>, pat: Seq<char>, rep: Seq<char>, i: int) -> Seq<char>
    decreases s.len() - i,
{
    if i < 0 || i >= s.len() || pat.len() == 0 {
        if 0 <= i <= s.len() {
            s.skip(i)
        } else {
            seq![]
        }
    } else if crate::text::occurs_at(s, pat, i) {
        rep + replace_from(s, pat, rep, i + pat.len())
    } else {
        seq![s[i]] + replace_from(s, pat, rep, i + 1)
    }
}

/// The non-empty pieces of `s` between occurrences of `c`.
pub fn fields_vec(s: &Vec<char>, c: char) -> (r: Vec<Vec<char>>)
    ensures
        views(r@) == fields_from(s@, c, 0),
{
    let mut out: Vec<Vec<char>> = Vec::new();
    let mut start: usize = 0;
    while start < s.len()
        invariant
            start <= s.len(),
            fields_from(s@, c, 0) == views(out@) + fields_from(s@, c, start as int),
        decreases s.len() - start,
    {
        let mut j = start;
        while j < s.len() && s[j] != c
            invariant
                start <= j <= s.len(),
                find_char_from(s@, c, start as int) == find_char_from(s@, c, j as int),
            decreases s.len() - j,
        {
            j += 1;
        }
        let piece = slice_of(s, start, j);
        proof {
            lemma_find_char_from_bounds(s@, c, start as int);
        }
        if piece.len() > 0 {
            proof {
                assert(views(out@.push(piece)) =~= views(out@).push(piece@));
            }
            out.push(piece);
        }
        if j < s.len() {
            start = j + 1;
            assert(views(out@) + fields_from(s@, c, start as int) =~= fields_from(s@, c, 0));
        } else {
            assert(fields_from(s@, c, j + 1) =~= seq![]);
            start = j;
            assert(fields_from(s@, c, start as int) =~= seq![]);
            assert(views(out@) + fields_from(s@, c, start as int) =~= fields_from(s@, c, 0));
        }
    }
    assert(fields_from(s@, c, start as int) =~= seq![]);
    assert(views(out@) =~= fields_from(s@, c, 0));
    out
}

/// `str::replace` on character vectors.
pub fn replace_vec(s: &Vec<char>, pat: &Vec<char>, rep: &Vec<char>) -> (r: Vec<char>)
    ensures
        r@ == replace_from(s@, pat@, rep@, 0),
{
    if pat.len() == 0 {
        assert(s@.skip(0) =~= s@);
        return s.clone();
    }
    let mut out: Vec<char> = Vec::new();
    let mut i: usize = 0;
    while i < s.len()
        invariant
            i <= s.len(),
            pat@.len() > 0,
            replace_from(s@, pat@, rep@, 0) == out@ + replace_from(s@, pat@, rep@, i as int),
        decreases s.len() - i,
    {
        if crate::text::matches_at(s, pat, i) {
            push_all(&mut out, rep);
            i = i + pat.len();
            proof {
                if i > s.len() {
                    assert(false);
                }
            }
        } else {
            out.push(s[i]);
            i += 1;
        }
        assert(replace_from(s@, pat@, rep@, 0) =~= out@ + replace_from(s@, pat@, rep@, i as int));
    }
    assert(s@.skip(i as int) =~= seq![]);
    assert(out@ + replace_from(s@, pat@, rep@, i as int) =~= out@);
    out
}

} // verus!
