use vstd::prelude::*;

use crate::path::{comps, path_pieces, pieces};
use crate::text::{
    contains_text, has_prefix, has_suffix, text_contains, text_ends_with, text_eq, text_starts_with,
};

verus! {

/// The port the development server listens on.
pub const PORT: u16 = 3333;

/// The components of a path written with `/` separators, as
/// `Path::components` gives them on Unix: `/` for the root where the path
/// begins with one, `.` where the path is `.` or begins with `./`, then its
/// pieces.
pub open spec fn path_components(s: Seq<char>) -> Seq<Seq<char>> {
    let lead = if has_prefix(s, "/"@) {
        seq!["/"@]
    } else if s == "."@ || has_prefix(s, "./"@) {
        seq!["."@]
    } else {
        Seq::empty()
    };
    lead + pieces(s)
}

/// `base`'s components are the first components of `path`
/// (`Path::starts_with`).
pub open spec fn path_has_prefix(path: Seq<char>, base: Seq<char>) -> bool {
    let a = path_components(path);
    let b = path_components(base);
    b.len() <= a.len() && a.subrange(0, b.len() as int) == b
}

/// The components of the path `s`.
pub fn path_components_of(s: &str) -> (r: Vec<String>)
    ensures
        comps(r@) == path_components(s@),
{
    let mut r: Vec<String> = Vec::new();
    if text_starts_with(s, "/") {
        r.push("/".to_owned());
    } else if text_eq(s, ".") || text_starts_with(s, "./") {
        r.push(".".to_owned());
    }
    let ghost lead = comps(r@);
    let ps = path_pieces(s);
    let mut i: usize = 0;
    while i < ps.len()
        invariant
            i <= ps.len(),
            comps(r@) == lead + comps(ps@).subrange(0, i as int),
        decreases ps.len() - i,
    {
        let ghost old_r = r@;
        let item = ps[i].clone();
        r.push(item);
        assert(comps(r@) =~= comps(old_r).push(ps@[i as int]@));
        assert(comps(r@) =~= lead + comps(ps@).subrange(0, i + 1));
        i = i + 1;
    }
    assert(comps(ps@).subrange(0, ps.len() as int) =~= comps(ps@));
    proof {
        if has_prefix(s@, "/"@) {
            assert(lead =~= seq!["/"@]);
        } else if s@ == "."@ || has_prefix(s@, "./"@) {
            assert(lead =~= seq!["."@]);
        } else {
            assert(lead =~= Seq::<Seq<char>>::empty());
        }
    }
    r
}

/// Whether the path `path` lies under `base`, component by component
/// (`Path::starts_with`).
pub fn path_starts_with(path: &str, base: &str) -> (r: bool)
    ensures
        r == path_has_prefix(path@, base@),
{
    let a = path_components_of(path);
    let b = path_components_of(base);
    assert(comps(a@).len() == a@.len() && comps(b@).len() == b@.len());
    if b.len() > a.len() {
        return false;
    }
    let mut i: usize = 0;
    while i < b.len()
        invariant
            b.len() <= a.len(),
            i <= b.len(),
            comps(a@) == path_components(path@),
            comps(b@) == path_components(base@),
            comps(a@).len() == a@.len(),
            comps(b@).len() == b@.len(),
            forall|k: int| 0 <= k < i ==> comps(a@)[k] == comps(b@)[k],
        decreases b.len() - i,
    {
        if !text_eq(a[i].as_str(), b[i].as_str()) {
            assert(comps(a@)[i as int] == a@[i as int]@);
            assert(comps(b@)[i as int] == b@[i as int]@);
            assert(comps(a@).subrange(0, b.len() as int)[i as int] != comps(b@)[i as int]);
            return false;
        }
        i = i + 1;
    }
    assert(comps(a@).subrange(0, b.len() as int) =~= comps(b@));
    true
}

/// A changed path that is an editor's temporary file: it ends with `~` or
/// holds `.tmp`.
pub open spec fn is_temporary(path: Seq<char>) -> bool {
    has_suffix(path, "~"@) || contains_text(path, ".tmp"@)
}

/// Whether the server rebuilds for a change of the file at `path`: not for
/// a temporary file, and not for one in the output folder `output_dir` or
/// whose path holds `public`.
pub fn should_handle_change(path: &str, output_dir: &str) -> (r: bool)
    ensures
        r == (!is_temporary(path@) && !(path_has_prefix(path@, output_dir@) || contains_text(
            path@,
            "public"@,
        ))),
{
    if text_ends_with(path, "~") || text_contains(path, ".tmp") {
        return false;
    }
    if path_starts_with(path, output_dir) || text_contains(path, "public") {
        return false;
    }
    true
}

/// Whether the pages are told to reload after a batch of changes: when at
/// least one of the changes was handled without error (`handled[i]` says
/// whether the i-th was).
pub fn should_reload(handled: &Vec<bool>) -> (r: bool)
    ensures
        r == exists|i: int| 0 <= i < handled@.len() && handled@[i],
{
    let mut i: usize = 0;
    while i < handled.len()
        invariant
            i <= handled.len(),
            forall|k: int| 0 <= k < i ==> !handled@[k],
        decreases handled.len() - i,
    {
        if handled[i] {
            return true;
        }
        i = i + 1;
    }
    false
}

} // verus!
