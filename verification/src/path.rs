//! Path pieces used by the editor, diff tool, and breadcrumb.

use vstd::prelude::*;

use crate::text::{split_chars, split_on, lemma_split_on_nonempty, str_chars, string_from_chars, views};

verus! {

/// The last `/`-separated part that is neither empty nor `.`, if any.
pub open spec fn last_named_part(parts: Seq<Seq<char>>) -> Option<Seq<char>>
    decreases parts.len(),
{
    if parts.len() == 0 {
        None
    } else if parts.last().len() == 0 || parts.last() == seq!['.'] {
        last_named_part(parts.drop_last())
    } else {
        Some(parts.last())
    }
}

/// What `Path::new(p).file_name()` returns for `p` on Unix: the last
/// component after empty and `.` parts are dropped, unless that is `..`
/// (or there is none: a root or an empty path).
pub open spec fn path_file_name_spec(path: Seq<char>) -> Option<Seq<char>> {
    match last_named_part(split_on(path, '/')) {
        Some(p) => if p == seq!['.', '.'] { None } else { Some(p) },
        None => None,
    }
}

/// `Path::new(path).file_name()` as a string (`None` when the path ends
/// in `..`, is a root, or is empty).
pub fn path_file_name(path: &str) -> (r: Option<String>)
    ensures
        match r {
            Some(s) => path_file_name_spec(path@) == Some(s@),
            None => path_file_name_spec(path@) is None,
        },
{
    let v = str_chars(path);
    let parts = split_chars(v.as_slice(), '/');
    let ghost ps = split_on(v@, '/');
    let mut k: usize = parts.len();
    assert(ps.take(k as int) =~= ps);
    while k > 0
        invariant
            k <= parts@.len(),
            views(parts@) == ps,
            last_named_part(ps) == last_named_part(ps.take(k as int)),
            ps == split_on(path@, '/'),
        decreases k,
    {
        let part = &parts[k - 1];
        assert(part@ == ps[k - 1]);
        assert(ps.take(k as int).last() == ps[k - 1]);
        let dot = part.len() == 1 && part[0] == '.';
        assert(dot == (part@ == seq!['.'])) by {
            if part@.len() == 1 && part@[0] == '.' {
                assert(part@ =~= seq!['.']);
            }
        }
        if part.len() > 0 && !dot {
            let dotdot = part.len() == 2 && part[0] == '.' && part[1] == '.';
            assert(dotdot == (part@ == seq!['.', '.'])) by {
                if part@.len() == 2 && part@[0] == '.' && part@[1] == '.' {
                    assert(part@ =~= seq!['.', '.']);
                }
            }
            assert(last_named_part(ps.take(k as int)) == Some(part@));
            if dotdot {
                return None;
            }
            return Some(string_from_chars(part.as_slice()));
        }
        assert(ps.take(k as int).drop_last() =~= ps.take(k - 1));
        k -= 1;
    }
    None
}

/// `Path::file_name`, or the whole string when it has none.
pub open spec fn file_name_or_self(path: Seq<char>) -> Seq<char> {
    match path_file_name_spec(path) {
        Some(n) => n,
        None => path,
    }
}

/// `Path::file_name`, or the whole string when it has none.
pub fn file_name_or(path: &str) -> (r: String)
    ensures
        r@ == file_name_or_self(path@),
{
    match path_file_name(path) {
        Some(n) => n,
        None => crate::text::owned(path),
    }
}

/// Last `/`-separated piece, or the whole path when that piece is empty.
pub open spec fn base_name_spec(path: Seq<char>) -> Seq<char> {
    let parts = split_on(path, '/');
    if parts.last().len() > 0 {
        parts.last()
    } else {
        path
    }
}

/// `path.rsplit('/').next()` unless empty, else `path`.
pub fn base_name(path: &str) -> (r: String)
    ensures
        r@ == base_name_spec(path@),
{
    let v = str_chars(path);
    let parts = split_chars(v.as_slice(), '/');
    proof {
        lemma_split_on_nonempty(v@, '/');
        assert(parts@[parts@.len() - 1]@ == split_on(v@, '/').last());
    }
    let last = &parts[parts.len() - 1];
    if last.len() > 0 {
        string_from_chars(last.as_slice())
    } else {
        crate::text::owned(path)
    }
}

} // verus!
