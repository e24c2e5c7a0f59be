//! Unix paths held as strings: joining as `PathBuf::join` does and
//! component-wise comparison as `Path::starts_with` and `==` do.

use vstd::prelude::*;
use crate::split::{find_char_from, lemma_find_char_from_bounds, views};
use crate::text::{slice_of, string_from_chars, vec_eq, vec_of};

verus! {

/// `base.join(rel)` for Unix paths: an absolute `rel` replaces `base`;
/// otherwise `rel` is appended, with a `/` between unless `base` is empty
/// or already ends with one.
pub open spec fn path_join(base: Seq<char>, rel: Seq<char>) -> Seq<char> {
    if rel.len() > 0 && rel[0] == '/' {
        rel
    } else if base.len() == 0 {
        rel
    } else if base.last() == '/' {
        base + rel
    } else {
        base + "/"@ + rel
    }
}

/// The pieces of `s` between slashes from position `i` on, without empty
/// pieces and `.` pieces.
pub open spec fn components_from(s: Seq<char>, i: int) -> Seq<Seq<char>>
    decreases s.len() - i,
{
    if i < 0 || i >= s.len() {
        seq![]
    } else {
        let j = find_char_from(s, '/', i);
        proof {
            lemma_find_char_from_bounds(s, '/', i);
        }
        let piece = s.subrange(i, j);
        let rest = if j < s.len() {
            components_from(s, j + 1)
        } else {
            seq![]
        };
        if piece.len() == 0 || piece == "."@ {
            rest
        } else {
            seq![piece] + rest
        }
    }
}

/// The components of a path: the root `/` for an absolute path, then its
/// named pieces, with repeated slashes and `.` pieces dropped.
pub open spec fn components(s: Seq<char>) -> Seq<Seq<char>> {
    if s.len() > 0 && s[0] == '/' {
        seq!["/"@] + components_from(s, 1)
    } else {
        components_from(s, 0)
    }
}

/// `Path::starts_with`: the components of `prefix` begin those of `p`.
pub open spec fn path_starts_with(p: Seq<char>, prefix: Seq<char>) -> bool {
    let a = components(p);
    let b = components(prefix);
    b.len() <= a.len() && a.take(b.len() as int) == b
}

/// `Path` equality: the same components.
pub open spec fn path_eq(p: Seq<char>, q: Seq<char>) -> bool {
    components(p) == components(q)
}

/// `base.join(rel)`.
pub fn join_path(base: &str, rel: &str) -> (r: String)
    ensures
        r@ == path_join(base@, rel@),
{
    let b = vec_of(base);
    let rv = vec_of(rel);
    if rv.len() > 0 && rv[0] == '/' {
        return string_from_chars(&rv);
    }
    if b.len() == 0 {
        return string_from_chars(&rv);
    }
    let mut out = b.clone();
    if b[b.len() - 1] != '/' {
        out.push('/');
    }
    crate::split::push_all(&mut out, &rv);
    proof {
        reveal_strlit("/");
        if b@.last() == '/' {
            assert(out@ =~= b@ + rv@);
        } else {
            assert(out@ =~= b@ + "/"@ + rv@);
        }
    }
    string_from_chars(&out)
}

/// The components of a path, computed.
pub fn components_vec(s: &Vec<char>) -> (r: Vec<Vec<char>>)
    ensures
        views(r@) == components(s@),
{
    let mut out: Vec<Vec<char>> = Vec::new();
    let mut start: usize = 0;
    if s.len() > 0 && s[0] == '/' {
        out.push(vec!['/']);
        start = 1;
        proof {
            reveal_strlit("/");
            assert(out@[0]@ =~= "/"@);
            assert(views(out@) =~= seq!["/"@]);
        }
    }
    proof {
        reveal_strlit(".");
        if start == 0 {
            assert(views(out@) =~= seq![]);
        }
    }
    let ghost head = views(out@);
    assert(components(s@) == head + components_from(s@, start as int));
    while start < s.len()
        invariant
            start <= s.len(),
            components(s@) == views(out@) + components_from(s@, start as int),
        decreases s.len() - start,
    {
        let mut j = start;
        while j < s.len() && s[j] != '/'
            invariant
                start <= j <= s.len(),
                find_char_from(s@, '/', start as int) == find_char_from(s@, '/', j as int),
            decreases s.len() - j,
        {
            j += 1;
        }
        let piece = slice_of(s, start, j);
        let is_dot = piece.len() == 1 && piece[0] == '.';
        proof {
            reveal_strlit(".");
            if is_dot {
                assert(piece@ =~= "."@);
            } else if piece@.len() == 1 {
                assert(piece@[0] != "."@[0]);
            }
            assert(is_dot == (piece@ == "."@));
            lemma_find_char_from_bounds(s@, '/', start as int);
        }
        if piece.len() > 0 && !is_dot {
            proof {
                assert(views(out@.push(piece)) =~= views(out@).push(piece@));
            }
            out.push(piece);
        }
        if j < s.len() {
            start = j + 1;
            assert(views(out@) + components_from(s@, start as int) =~= components(s@));
        } else {
            assert(components_from(s@, j + 1) =~= seq![]);
            start = j;
            assert(components_from(s@, start as int) =~= seq![]);
            assert(views(out@) + components_from(s@, start as int) =~= components(s@));
        }
    }
    assert(components_from(s@, start as int) =~= seq![]);
    assert(views(out@) =~= components(s@));
    out
}

/// `Path::starts_with`.
pub fn starts_with_path(p: &str, prefix: &str) -> (r: bool)
    ensures
        r == path_starts_with(p@, prefix@),
{
    let a = components_vec(&vec_of(p));
    let b = components_vec(&vec_of(prefix));
    if b.len() > a.len() {
        return false;
    }
    let mut i: usize = 0;
    while i < b.len()
        invariant
            b.len() <= a.len(),
            i <= b.len(),
            views(a@) == components(p@),
            views(b@) == components(prefix@),
            forall|k: int| 0 <= k < i ==> views(a@)[k] == views(b@)[k],
        decreases b.len() - i,
    {
        if !vec_eq(&a[i], &b[i]) {
            let ghost ta = views(a@).take(b.len() as int);
            assert(ta[i as int] != views(b@)[i as int]);
            assert(ta != views(b@));
            return false;
        }
        i += 1;
    }
    assert(views(a@).take(b.len() as int) =~= views(b@));
    true
}

/// `Path` equality.
pub fn same_path(p: &str, q: &str) -> (r: bool)
    ensures
        r == path_eq(p@, q@),
{
    let a = components_vec(&vec_of(p));
    let b = components_vec(&vec_of(q));
    if a.len() != b.len() {
        assert(views(a@).len() != views(b@).len());
        return false;
    }
    let mut i: usize = 0;
    while i < b.len()
        invariant
            a.len() == b.len(),
            i <= b.len(),
            views(a@) == components(p@),
            views(b@) == components(q@),
            forall|k: int| 0 <= k < i ==> views(a@)[k] == views(b@)[k],
        decreases b.len() - i,
    {
        if !vec_eq(&a[i], &b[i]) {
            assert(views(a@)[i as int] != views(b@)[i as int]);
            assert(views(a@) != views(b@));
            return false;
        }
        i += 1;
    }
    assert(views(a@) =~= views(b@));
    true
}

/// `Path::file_name`: the last component, unless the path ends in the
/// root or in `..`.
pub open spec fn file_name_of(p: Seq<char>) -> Option<Seq<char>> {
    let c = components(p);
    if c.len() > 0 && c.last() != "/"@ && c.last() != ".."@ {
        Some(c.last())
    } else {
        None
    }
}

/// Index of the last `.` in `s`, or -1.
pub open spec fn last_dot(s: Seq<char>) -> int
    decreases s.len(),
{
    if s.len() == 0 {
        -1
    } else if s.last() == '.' {
        s.len() - 1
    } else {
        last_dot(s.drop_last())
    }
}

/// `Path::file_stem` of a file name: the name without its last `.`
/// extension; a name whose only dot leads it, or without a dot, is its own
/// stem.
pub open spec fn stem_of(name: Seq<char>) -> Seq<char> {
    if last_dot(name) <= 0 {
        name
    } else {
        name.take(last_dot(name))
    }
}

/// `Path::file_name`.
pub fn file_name(p: &str) -> (r: Option<String>)
    ensures
        match r {
            Some(n) => file_name_of(p@) == Some(n@),
            None => file_name_of(p@) is None,
        },
{
    let c = components_vec(&vec_of(p));
    if c.len() == 0 {
        return None;
    }
    let last = &c[c.len() - 1];
    let root = vec!['/'];
    let up = vec!['.', '.'];
    proof {
        reveal_strlit("/");
        reveal_strlit("..");
        assert(root@ =~= "/"@);
        assert(up@ =~= ".."@);
        assert(views(c@).last() == last@);
    }
    if vec_eq(last, &root) || vec_eq(last, &up) {
        None
    } else {
        Some(string_from_chars(last))
    }
}

/// `Path::file_stem` of a file name.
pub fn file_stem(name: &str) -> (r: String)
    ensures
        r@ == stem_of(name@),
{
    let v = vec_of(name);
    let mut i = v.len();
    assert(v@.take(v@.len() as int) =~= v@);
    while i > 0 && v[i - 1] != '.'
        invariant
            i <= v.len(),
            last_dot(v@) == last_dot(v@.take(i as int)),
        decreases i,
    {
        assert(v@.take(i as int).drop_last() =~= v@.take(i - 1));
        i -= 1;
    }
    assert(v@.take(v@.len() as int) =~= v@);
    proof {
        if i > 0 {
            assert(v@.take(i as int).last() == '.');
        } else {
            assert(v@.take(0) =~= Seq::<char>::empty());
        }
    }
    if i <= 1 {
        string_from_chars(&v)
    } else {
        let stem = slice_of(&v, 0, i - 1);
        assert(stem@ =~= v@.take(i - 1));
        string_from_chars(&stem)
    }
}

} // verus!
