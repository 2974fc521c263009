use vstd::prelude::*;
use vstd::string::*;

use crate::config::opt_text;
use crate::text::text_eq;

verus! {

/// The text of each component in `v`.
pub open spec fn comps(v: Seq<String>) -> Seq<Seq<char>> {
    v.map_values(|s: String| s@)
}

/// The position of the last `c` in `s`, or -1 where there is none.
pub open spec fn last_index_of(s: Seq<char>, c: char) -> int
    decreases s.len(),
{
    if s.len() == 0 {
        -1
    } else if s.last() == c {
        s.len() - 1
    } else {
        last_index_of(s.drop_last(), c)
    }
}

/// The extension of a file name, as `Path::extension` gives it: the text
/// after the last `.`, unless there is no `.`, the only `.` opens the name,
/// or the name is `..`.
pub open spec fn name_extension(name: Seq<char>) -> Option<Seq<char>> {
    let k = last_index_of(name, '.');
    if name == seq!['.', '.'] || k <= 0 {
        None
    } else {
        Some(name.subrange(k + 1, name.len() as int))
    }
}

/// The stem of a file name, as `Path::file_stem` gives it: the name without
/// its extension and the `.` before it.
pub open spec fn name_stem(name: Seq<char>) -> Seq<char> {
    let k = last_index_of(name, '.');
    if name == seq!['.', '.'] || k <= 0 {
        name
    } else {
        name.subrange(0, k)
    }
}

/// `parts` joined with `sep` between each two of them.
pub open spec fn join_text(parts: Seq<Seq<char>>, sep: Seq<char>) -> Seq<char>
    decreases parts.len(),
{
    if parts.len() == 0 {
        Seq::empty()
    } else if parts.len() == 1 {
        parts[0]
    } else {
        join_text(parts.drop_last(), sep) + sep + parts.last()
    }
}

/// The pieces of `s` between the `/` separators, empty ones included.
pub open spec fn segments(s: Seq<char>) -> Seq<Seq<char>>
    decreases s.len(),
{
    if s.len() == 0 {
        seq![Seq::<char>::empty()]
    } else {
        let prev = segments(s.drop_last());
        if s.last() == '/' {
            prev.push(Seq::<char>::empty())
        } else if prev.len() == 0 {
            seq![seq![s.last()]]
        } else {
            prev.update(prev.len() - 1, prev.last().push(s.last()))
        }
    }
}

/// A segment that `Path::components` keeps: neither empty nor `.`.
pub open spec fn is_piece(p: Seq<char>) -> bool {
    p.len() > 0 && p != seq!['.']
}

/// The segments of `segs` that are pieces, in order.
pub open spec fn keep_pieces(segs: Seq<Seq<char>>) -> Seq<Seq<char>>
    decreases segs.len(),
{
    if segs.len() == 0 {
        Seq::empty()
    } else if is_piece(segs.last()) {
        keep_pieces(segs.drop_last()).push(segs.last())
    } else {
        keep_pieces(segs.drop_last())
    }
}

/// The components of a relative path written with `/` separators: its
/// segments without the empty ones and without `.` (a `..` stays, as the
/// parent-directory component).
pub open spec fn pieces(s: Seq<char>) -> Seq<Seq<char>> {
    keep_pieces(segments(s))
}

/// The file name of a path (`Path::file_name`): its last component, unless
/// it has none or the last one is `..`.
pub open spec fn path_file_name(s: Seq<char>) -> Option<Seq<char>> {
    let ps = pieces(s);
    if ps.len() == 0 || ps.last() == seq!['.', '.'] {
        None
    } else {
        Some(ps.last())
    }
}

/// The extension of a path (`Path::extension`).
pub open spec fn path_extension(s: Seq<char>) -> Option<Seq<char>> {
    match path_file_name(s) {
        Some(name) => name_extension(name),
        None => None,
    }
}

proof fn lemma_last_index_bounds(s: Seq<char>, c: char)
    ensures
        -1 <= last_index_of(s, c) < s.len(),
        last_index_of(s, c) >= 0 ==> s[last_index_of(s, c)] == c,
    decreases s.len(),
{
    if s.len() > 0 && s.last() != c {
        lemma_last_index_bounds(s.drop_last(), c);
    }
}

/// The position of the last `c` in `s`.
pub fn last_index_of_char(s: &str, c: char) -> (r: Option<usize>)
    ensures
        match r {
            Some(k) => last_index_of(s@, c) == k as int,
            None => last_index_of(s@, c) == -1,
        },
{
    let n = s.unicode_len();
    let mut j: usize = n;
    assert(s@.subrange(0, n as int) =~= s@);
    while j > 0
        invariant
            n == s@.len(),
            j <= n,
            last_index_of(s@, c) == last_index_of(s@.subrange(0, j as int), c),
        decreases j,
    {
        let ghost t = s@.subrange(0, j as int);
        assert(t.drop_last() =~= s@.subrange(0, j - 1));
        if s.get_char(j - 1) == c {
            return Some(j - 1);
        }
        j = j - 1;
    }
    None
}

/// The extension of the file name `name` (`Path::extension`).
pub fn file_extension(name: &str) -> (r: Option<String>)
    ensures
        opt_text(r) == name_extension(name@),
{
    proof {
        lemma_last_index_bounds(name@, '.');
        reveal_strlit("..");
        assert(".."@ =~= seq!['.', '.']);
    }
    if text_eq(name, "..") {
        return None;
    }
    let n = name.unicode_len();
    match last_index_of_char(name, '.') {
        Some(k) => {
            if k == 0 {
                None
            } else {
                Some(name.substring_char(k + 1, n).to_owned())
            }
        },
        None => None,
    }
}

/// The stem of the file name `name` (`Path::file_stem`).
pub fn file_stem(name: &str) -> (r: String)
    ensures
        r@ == name_stem(name@),
{
    proof {
        lemma_last_index_bounds(name@, '.');
        reveal_strlit("..");
        assert(".."@ =~= seq!['.', '.']);
    }
    if text_eq(name, "..") {
        return name.to_owned();
    }
    match last_index_of_char(name, '.') {
        Some(k) => {
            if k == 0 {
                name.to_owned()
            } else {
                name.substring_char(0, k).to_owned()
            }
        },
        None => name.to_owned(),
    }
}

/// `parts` joined with `sep` between each two of them (`[String]::join`).
pub fn join_texts(parts: &Vec<String>, sep: &str) -> (r: String)
    ensures
        r@ == join_text(comps(parts@), sep@),
{
    let mut r = String::new();
    let ghost all = comps(parts@);
    let mut i: usize = 0;
    while i < parts.len()
        invariant
            i <= parts.len(),
            all == comps(parts@),
            r@ == join_text(all.take(i as int), sep@),
        decreases parts.len() - i,
    {
        assert(all.take(i + 1).drop_last() =~= all.take(i as int));
        assert(all.take(i + 1).last() == parts@[i as int]@);
        if i > 0 {
            r.append(sep);
        } else {
            assert(r@ =~= Seq::<char>::empty());
        }
        r.append(parts[i].as_str());
        i = i + 1;
    }
    assert(all.take(parts.len() as int) =~= all);
    r
}

proof fn lemma_segments_nonempty(s: Seq<char>)
    ensures
        segments(s).len() >= 1,
    decreases s.len(),
{
    if s.len() > 0 {
        lemma_segments_nonempty(s.drop_last());
    }
}

/// The components of the `/`-separated relative path `p`.
pub fn path_pieces(p: &str) -> (r: Vec<String>)
    ensures
        comps(r@) == pieces(p@),
{
    let n = p.unicode_len();
    let mut out: Vec<String> = Vec::new();
    let ghost mut done: Seq<Seq<char>> = Seq::empty();
    let mut start: usize = 0;
    let mut i: usize = 0;
    proof {
        reveal_strlit(".");
        assert(p@.subrange(0, 0) =~= Seq::<char>::empty());
        assert(segments(Seq::<char>::empty()) =~= done.push(p@.subrange(0, 0)));
        assert(comps(out@) =~= keep_pieces(done));
    }
    while i < n
        invariant
            n == p@.len(),
            start <= i <= n,
            segments(p@.subrange(0, i as int)) == done.push(p@.subrange(start as int, i as int)),
            comps(out@) == keep_pieces(done),
        decreases n - i,
    {
        let ghost pre = p@.subrange(0, i as int);
        let ghost cur = p@.subrange(start as int, i as int);
        assert(p@.subrange(0, i + 1).drop_last() =~= pre);
        assert(p@.subrange(0, i + 1).last() == p@[i as int]);
        let c = p.get_char(i);
        proof {
            reveal_strlit(".");
            assert("."@ =~= seq!['.']);
            lemma_segments_nonempty(pre);
        }
        if c == '/' {
            assert(done.push(cur).drop_last() =~= done);
            if i > start && !text_eq(p.substring_char(start, i), ".") {
                let piece = p.substring_char(start, i).to_owned();
                let ghost old_out = out@;
                out.push(piece);
                assert(comps(out@) =~= comps(old_out).push(cur));
            } else {
                assert(!is_piece(cur)) by {
                    if cur.len() > 0 {
                        assert(cur == seq!['.']);
                    }
                }
            }
            proof {
                done = done.push(cur);
            }
            start = i + 1;
            assert(p@.subrange(start as int, i + 1) =~= Seq::<char>::empty());
        } else {
            assert(cur.push(c) =~= p@.subrange(start as int, i + 1));
            assert(done.push(cur).update(done.len() as int, cur.push(c)) =~= done.push(
                p@.subrange(start as int, i + 1),
            ));
        }
        i = i + 1;
    }
    assert(p@.subrange(0, n as int) =~= p@);
    proof {
        reveal_strlit(".");
        assert("."@ =~= seq!['.']);
    }
    let ghost cur = p@.subrange(start as int, n as int);
    assert(done.push(cur).drop_last() =~= done);
    if n > start && !text_eq(p.substring_char(start, n), ".") {
        let piece = p.substring_char(start, n).to_owned();
        let ghost old_out = out@;
        out.push(piece);
        assert(comps(out@) =~= comps(old_out).push(cur));
    } else {
        assert(!is_piece(cur)) by {
            if cur.len() > 0 {
                assert(cur == seq!['.']);
            }
        }
    }
    out
}

/// The file name of the `/`-separated path `p` (`Path::file_name`).
pub fn path_file_name_of(p: &str) -> (r: Option<String>)
    ensures
        opt_text(r) == path_file_name(p@),
{
    let ps = path_pieces(p);
    let k = ps.len();
    if k == 0 {
        return None;
    }
    proof {
        reveal_strlit("..");
        assert(".."@ =~= seq!['.', '.']);
        assert(comps(ps@).last() == ps@[k - 1]@);
    }
    if text_eq(ps[k - 1].as_str(), "..") {
        None
    } else {
        Some(ps[k - 1].clone())
    }
}

} // verus!
