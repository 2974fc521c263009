use vstd::prelude::*;

use crate::site::context::PostContext;
use crate::text::{
    lemma_text_lt_asymmetric, lemma_text_lt_irreflexive, lemma_text_lt_total, lemma_text_lt_transitive, text_less, text_lt,
};

verus! {

/// The date of a post, as its front matter writes it.
pub open spec fn date_of(p: PostContext) -> Seq<char> {
    p.meta.date@
}

/// `s` with `x` put after every post that is dated no earlier than `x`.
pub open spec fn insert_by_date(s: Seq<PostContext>, x: PostContext) -> Seq<PostContext>
    decreases s.len(),
{
    if s.len() == 0 {
        seq![x]
    } else if text_lt(date_of(s.last()), date_of(x)) {
        insert_by_date(s.drop_last(), x).push(s.last())
    } else {
        s.push(x)
    }
}

/// `s` sorted newest first, posts of the same date in their order in `s`
/// (a stable sort that compares dates, later ones first).
pub open spec fn sorted_by_date(s: Seq<PostContext>) -> Seq<PostContext>
    decreases s.len(),
{
    if s.len() == 0 {
        s
    } else {
        insert_by_date(sorted_by_date(s.drop_last()), s.last())
    }
}

/// No post in `s` is dated earlier than a post after it.
pub open spec fn is_newest_first(s: Seq<PostContext>) -> bool {
    forall|i: int, j: int|
        0 <= i < j < s.len() ==> !text_lt(#[trigger] s[i].meta.date@, #[trigger] s[j].meta.date@)
}

proof fn lemma_insert_at(s: Seq<PostContext>, x: PostContext, j: int)
    requires
        0 <= j <= s.len(),
        forall|k: int| j <= k < s.len() ==> text_lt(#[trigger] s[k].meta.date@, x.meta.date@),
        j == 0 || !text_lt(s[j - 1].meta.date@, x.meta.date@),
    ensures
        insert_by_date(s, x) == s.insert(j, x),
    decreases s.len(),
{
    if s.len() == 0 {
        assert(s.insert(0, x) =~= seq![x]);
    } else if j == s.len() {
        assert(s.insert(j, x) =~= s.push(x));
    } else {
        let t = s.drop_last();
        assert(text_lt(s[s.len() - 1].meta.date@, x.meta.date@));
        assert forall|k: int| j <= k < t.len() implies text_lt(#[trigger] t[k].meta.date@, x.meta.date@) by {
            assert(t[k] == s[k]);
        }
        if j > 0 {
            assert(t[j - 1] == s[j - 1]);
        }
        lemma_insert_at(t, x, j);
        assert(t.insert(j, x).push(s.last()) =~= s.insert(j, x));
    }
}

/// The posts sorted newest first; posts of the same date keep their order.
pub fn sort_posts_by_date(posts: Vec<PostContext>) -> (r: Vec<PostContext>)
    ensures
        r@ == sorted_by_date(posts@),
        forall|i: int, j: int|
            0 <= i < j < r@.len() ==> !text_lt(
                #[trigger] r@[i].meta.date@,
                #[trigger] r@[j].meta.date@,
            ),
        r@.to_multiset() == posts@.to_multiset(),
        forall|d: Seq<char>| #[trigger] posts_dated(r@, d) == posts_dated(posts@, d),
{
    let ghost orig = posts@;
    let mut rest = posts;
    let mut out: Vec<PostContext> = Vec::new();
    let ghost mut taken: int = 0;
    assert(orig.skip(0) =~= orig);
    assert(orig.take(0) =~= Seq::<PostContext>::empty());
    while rest.len() > 0
        invariant
            0 <= taken <= orig.len(),
            rest@ == orig.skip(taken),
            out@ == sorted_by_date(orig.take(taken)),
        decreases rest.len(),
    {
        let x = rest.remove(0);
        assert(x == orig[taken]);
        let mut j = out.len();
        let mut stop = false;
        while j > 0 && !stop
            invariant
                j <= out.len(),
                forall|k: int| j <= k < out.len() ==> text_lt(#[trigger] out@[k].meta.date@, x.meta.date@),
                stop ==> j > 0 && !text_lt(out@[j - 1].meta.date@, x.meta.date@),
            decreases j + (if stop { 0int } else { 1int }),
        {
            if text_less(out[j - 1].meta.date.as_str(), x.meta.date.as_str()) {
                j = j - 1;
            } else {
                stop = true;
            }
        }
        proof {
            lemma_insert_at(out@, x, j as int);
            assert(orig.take(taken + 1).drop_last() =~= orig.take(taken));
            assert(orig.take(taken + 1).last() == x);
        }
        out.insert(j, x);
        proof {
            assert(orig.skip(taken).drop_first() =~= orig.skip(taken + 1));
            taken = taken + 1;
        }
    }
    assert(orig.take(orig.len() as int) =~= orig);
    proof {
        lemma_sorted_newest_first(orig);
        lemma_sorted_same_posts(orig);
        assert forall|d: Seq<char>| #[trigger] posts_dated(out@, d) == posts_dated(orig, d) by {
            lemma_sorted_stable(orig, d);
        }
    }
    out
}

proof fn lemma_not_lt_transitive(a: Seq<char>, b: Seq<char>, c: Seq<char>)
    requires
        !text_lt(a, b),
        !text_lt(b, c),
    ensures
        !text_lt(a, c),
{
    lemma_text_lt_total(a, b);
    if text_lt(a, c) {
        if a != b {
            lemma_text_lt_transitive(b, a, c);
        }
    }
}

proof fn lemma_insert_by_date_contents(s: Seq<PostContext>, x: PostContext)
    ensures
        insert_by_date(s, x).to_multiset() == s.to_multiset().insert(x),
        forall|e: PostContext| #[trigger] insert_by_date(s, x).contains(e) ==> e == x || s.contains(e),
    decreases s.len(),
{
    broadcast use vstd::seq_lib::group_to_multiset_ensures;

    if s.len() == 0 {
        assert(seq![x] =~= Seq::<PostContext>::empty().push(x));
        assert(s =~= Seq::<PostContext>::empty());
    } else if text_lt(s.last().meta.date@, x.meta.date@) {
        let t = s.drop_last();
        lemma_insert_by_date_contents(t, x);
        assert(t.push(s.last()) =~= s);
        assert forall|e: PostContext| #[trigger] insert_by_date(s, x).contains(e) implies e == x
            || s.contains(e) by {
            let u = insert_by_date(t, x);
            let k = choose|k: int| 0 <= k < u.push(s.last()).len() && u.push(s.last())[k] == e;
            if k < u.len() {
                assert(u.contains(e));
                if e != x {
                    let m = choose|m: int| 0 <= m < t.len() && t[m] == e;
                    assert(s[m] == e);
                }
            } else {
                assert(s[s.len() - 1] == e);
            }
        }
    } else {
        assert forall|e: PostContext| #[trigger] insert_by_date(s, x).contains(e) implies e == x
            || s.contains(e) by {
            let k = choose|k: int| 0 <= k < s.push(x).len() && s.push(x)[k] == e;
            if k < s.len() {
                assert(s[k] == e);
            }
        }
    }
}

proof fn lemma_insert_keeps_order(s: Seq<PostContext>, x: PostContext)
    requires
        is_newest_first(s),
    ensures
        is_newest_first(insert_by_date(s, x)),
    decreases s.len(),
{
    if s.len() == 0 {
    } else if text_lt(s.last().meta.date@, x.meta.date@) {
        let t = s.drop_last();
        let last = s.last();
        assert forall|i: int, j: int| 0 <= i < j < t.len() implies !text_lt(
            #[trigger] t[i].meta.date@,
            #[trigger] t[j].meta.date@,
        ) by {
            assert(t[i] == s[i] && t[j] == s[j]);
        }
        lemma_insert_keeps_order(t, x);
        lemma_insert_by_date_contents(t, x);
        let u = insert_by_date(t, x);
        let v = u.push(last);
        assert forall|i: int, j: int| 0 <= i < j < v.len() implies !text_lt(
            #[trigger] v[i].meta.date@,
            #[trigger] v[j].meta.date@,
        ) by {
            if j == v.len() - 1 {
                let e = u[i];
                assert(u.contains(e));
                if e == x {
                    lemma_text_lt_asymmetric(last.meta.date@, x.meta.date@);
                } else {
                    let m = choose|m: int| 0 <= m < t.len() && t[m] == e;
                    assert(s[m] == e);
                    assert(!text_lt(s[m].meta.date@, s[s.len() - 1].meta.date@));
                }
            } else {
                assert(v[i] == u[i] && v[j] == u[j]);
            }
        }
    } else {
        let v = s.push(x);
        assert forall|i: int, j: int| 0 <= i < j < v.len() implies !text_lt(
            #[trigger] v[i].meta.date@,
            #[trigger] v[j].meta.date@,
        ) by {
            if j == v.len() - 1 {
                if i < s.len() - 1 {
                    assert(!text_lt(s[i].meta.date@, s[s.len() - 1].meta.date@));
                    lemma_not_lt_transitive(s[i].meta.date@, s.last().meta.date@, x.meta.date@);
                }
            } else {
                assert(v[i] == s[i] && v[j] == s[j]);
            }
        }
    }
}

/// The sorted posts run newest first: no post is dated earlier than one
/// after it.
pub proof fn lemma_sorted_newest_first(s: Seq<PostContext>)
    ensures
        forall|i: int, j: int|
            0 <= i < j < sorted_by_date(s).len() ==> !text_lt(
                #[trigger] sorted_by_date(s)[i].meta.date@,
                #[trigger] sorted_by_date(s)[j].meta.date@,
            ),
    decreases s.len(),
{
    if s.len() > 0 {
        lemma_sorted_newest_first(s.drop_last());
        lemma_insert_keeps_order(sorted_by_date(s.drop_last()), s.last());
    }
}

/// Sorting keeps every post, no more and no fewer times than it was there.
pub proof fn lemma_sorted_same_posts(s: Seq<PostContext>)
    ensures
        sorted_by_date(s).to_multiset() == s.to_multiset(),
    decreases s.len(),
{
    broadcast use vstd::seq_lib::group_to_multiset_ensures;

    if s.len() > 0 {
        lemma_sorted_same_posts(s.drop_last());
        lemma_insert_by_date_contents(sorted_by_date(s.drop_last()), s.last());
        assert(s.drop_last().push(s.last()) =~= s);
    }
}

/// The posts of `s` dated `d`, in their order in `s`.
pub open spec fn posts_dated(s: Seq<PostContext>, d: Seq<char>) -> Seq<PostContext>
    decreases s.len(),
{
    if s.len() == 0 {
        s
    } else if s.last().meta.date@ == d {
        posts_dated(s.drop_last(), d).push(s.last())
    } else {
        posts_dated(s.drop_last(), d)
    }
}

proof fn lemma_insert_keeps_dated(s: Seq<PostContext>, x: PostContext, d: Seq<char>)
    ensures
        posts_dated(insert_by_date(s, x), d) == if x.meta.date@ == d {
            posts_dated(s, d).push(x)
        } else {
            posts_dated(s, d)
        },
    decreases s.len(),
{
    if s.len() == 0 {
        assert(seq![x].drop_last() =~= s);
    } else if text_lt(s.last().meta.date@, x.meta.date@) {
        let t = s.drop_last();
        lemma_insert_keeps_dated(t, x, d);
        assert(insert_by_date(t, x).push(s.last()).drop_last() =~= insert_by_date(t, x));
        if x.meta.date@ == d && s.last().meta.date@ == d {
            lemma_text_lt_irreflexive(d);
        }
    } else {
        assert(s.push(x).drop_last() =~= s);
    }
}

/// Sorting keeps posts of the same date in the order they came in.
pub proof fn lemma_sorted_stable(s: Seq<PostContext>, d: Seq<char>)
    ensures
        posts_dated(sorted_by_date(s), d) == posts_dated(s, d),
    decreases s.len(),
{
    if s.len() > 0 {
        lemma_sorted_stable(s.drop_last(), d);
        lemma_insert_keeps_dated(sorted_by_date(s.drop_last()), s.last(), d);
    }
}

} // verus!
