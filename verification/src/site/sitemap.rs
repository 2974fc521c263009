use vstd::prelude::*;
use vstd::string::*;

use crate::config::SiteConfig;
use crate::site::context::PostContext;
use crate::text::{contains_text, lemma_matches_in_subrange, matches_at, text_contains};

verus! {

/// The opening of a sitemap: the XML declaration and the `urlset` tag.
pub const SITEMAP_HEADER: &'static str = "<?xml version=\"1.0\" encoding=\"UTF-8\"?><urlset xmlns=\"http://www.sitemaps.org/schemas/sitemap/0.9\">";

/// The sitemap entry of a post: its full url and its date.
pub open spec fn sitemap_entry(base_url: Seq<char>, p: PostContext) -> Seq<char> {
    "<url><loc>"@ + base_url + p.url@ + "</loc><lastmod>"@ + p.meta.date@ + "</lastmod></url>"@
}

/// The entries of the posts in `posts` whose url does not contain `404`, in
/// order.
pub open spec fn sitemap_entries(posts: Seq<PostContext>, base_url: Seq<char>) -> Seq<char>
    decreases posts.len(),
{
    if posts.len() == 0 {
        Seq::empty()
    } else if contains_text(posts.last().url@, "404"@) {
        sitemap_entries(posts.drop_last(), base_url)
    } else {
        sitemap_entries(posts.drop_last(), base_url) + sitemap_entry(base_url, posts.last())
    }
}

/// The sitemap of a site whose pages are `posts`.
pub open spec fn sitemap_of(posts: Seq<PostContext>, base_url: Seq<char>) -> Seq<char> {
    SITEMAP_HEADER@ + sitemap_entries(posts, base_url) + "</urlset>"@
}

/// The sitemap of no posts is the opening and the closing tag.
pub proof fn lemma_sitemap_empty(base_url: Seq<char>)
    ensures
        sitemap_of(Seq::<PostContext>::empty(), base_url) == SITEMAP_HEADER@ + "</urlset>"@,
{
    assert(SITEMAP_HEADER@ + Seq::<char>::empty() + "</urlset>"@ =~= SITEMAP_HEADER@ + "</urlset>"@);
}

/// One more post adds its entry just before the closing tag, unless its url
/// contains `404`, in which case the sitemap stays as it was.
pub proof fn lemma_sitemap_push(s: Seq<PostContext>, p: PostContext, base_url: Seq<char>)
    ensures
        sitemap_of(s.push(p), base_url) == if contains_text(p.url@, "404"@) {
            sitemap_of(s, base_url)
        } else {
            sitemap_of(s, base_url).subrange(0, sitemap_of(s, base_url).len() - 9)
                + "<url><loc>"@ + base_url + p.url@ + "</loc><lastmod>"@ + p.meta.date@
                + "</lastmod></url>"@ + "</urlset>"@
        },
{
    reveal_strlit("</urlset>");
    assert(s.push(p).drop_last() =~= s);
    let before = sitemap_of(s, base_url);
    assert(before.subrange(0, before.len() - 9) =~= SITEMAP_HEADER@ + sitemap_entries(s, base_url));
    if !contains_text(p.url@, "404"@) {
        assert(sitemap_of(s.push(p), base_url) =~= before.subrange(0, before.len() - 9)
            + "<url><loc>"@ + base_url + p.url@ + "</loc><lastmod>"@ + p.meta.date@
            + "</lastmod></url>"@ + "</urlset>"@);
    }
}

proof fn lemma_entries_contain(s: Seq<PostContext>, base_url: Seq<char>, i: int)
    requires
        0 <= i < s.len(),
        !contains_text(s[i].url@, "404"@),
    ensures
        contains_text(sitemap_entries(s, base_url), sitemap_entry(base_url, s[i])),
    decreases s.len(),
{
    let e = sitemap_entry(base_url, s[i]);
    let all = sitemap_entries(s, base_url);
    let prev = sitemap_entries(s.drop_last(), base_url);
    if i == s.len() - 1 {
        assert(all =~= prev + e);
        assert(all.subrange(prev.len() as int, (prev.len() + e.len()) as int) =~= e);
        assert(matches_at(all, e, prev.len() as int));
    } else {
        assert(s.drop_last()[i] == s[i]);
        lemma_entries_contain(s.drop_last(), base_url, i);
        let q = choose|q: int| matches_at(prev, e, q);
        if contains_text(s.last().url@, "404"@) {
            assert(matches_at(all, e, q));
        } else {
            let tail = sitemap_entry(base_url, s.last());
            assert(all =~= prev + tail);
            assert(all.subrange(0, prev.len() as int) =~= prev);
            lemma_matches_in_subrange(all, 0, prev.len() as int, e, q);
        }
    }
}

/// The sitemap of the site: one entry for each post, except those whose url
/// contains `404`.
pub fn generate_sitemap(posts: &Vec<PostContext>, config: &SiteConfig) -> (r: String)
    ensures
        r@ == sitemap_of(posts@, config.base_url@),
        forall|i: int|
            0 <= i < posts@.len() && !contains_text(#[trigger] posts@[i].url@, "404"@)
                ==> contains_text(
                r@,
                "<url><loc>"@ + config.base_url@ + posts@[i].url@ + "</loc><lastmod>"@
                    + posts@[i].meta.date@ + "</lastmod></url>"@,
            ),
{
    let mut xml = SITEMAP_HEADER.to_owned();
    let mut i: usize = 0;
    while i < posts.len()
        invariant
            i <= posts.len(),
            xml@ == SITEMAP_HEADER@ + sitemap_entries(posts@.take(i as int), config.base_url@),
        decreases posts.len() - i,
    {
        let post = &posts[i];
        assert(posts@.take(i + 1).drop_last() =~= posts@.take(i as int));
        assert(posts@.take(i + 1).last() == posts@[i as int]);
        if !text_contains(post.url.as_str(), "404") {
            xml.append("<url><loc>");
            xml.append(config.base_url.as_str());
            xml.append(post.url.as_str());
            xml.append("</loc><lastmod>");
            xml.append(post.meta.date.as_str());
            xml.append("</lastmod></url>");
        }
        i = i + 1;
    }
    assert(posts@.take(posts.len() as int) =~= posts@);
    xml.append("</urlset>");
    proof {
        let b = config.base_url@;
        let h = SITEMAP_HEADER@;
        let entries = sitemap_entries(posts@, b);
        assert forall|i: int|
            0 <= i < posts@.len() && !contains_text(#[trigger] posts@[i].url@, "404"@)
                implies contains_text(xml@, sitemap_entry(b, posts@[i])) by {
            lemma_entries_contain(posts@, b, i);
            let e = sitemap_entry(b, posts@[i]);
            let q = choose|q: int| matches_at(entries, e, q);
            assert(xml@.subrange(h.len() as int, (h.len() + entries.len()) as int) =~= entries);
            lemma_matches_in_subrange(xml@, h.len() as int, (h.len() + entries.len()) as int, e, q);
        }
    }
    xml
}

} // verus!
