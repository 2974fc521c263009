use vstd::prelude::*;
use vstd::string::*;

use crate::metadata::PostMetadata;
use crate::path::{
    comps, file_stem, join_text, join_texts, last_index_of, name_stem,
};
use crate::text::{has_suffix, text_ends_with, text_eq};

verus! {

/// `s` without any number of trailing `.md` (`str::trim_end_matches(".md")`).
pub open spec fn strip_md_suffixes(s: Seq<char>) -> Seq<char>
    decreases s.len(),
{
    if s.len() >= 3 && has_suffix(s, ".md"@) {
        strip_md_suffixes(s.subrange(0, s.len() - 3))
    } else {
        s
    }
}

/// The url segments of the page at the path with components `c`: without a
/// leading `content`, without a final `index.md`, and with `.md` taken off
/// the last one.
pub open spec fn url_segments(c: Seq<Seq<char>>) -> Seq<Seq<char>> {
    let c1 = if c.len() > 0 && c[0] == "content"@ {
        c.drop_first()
    } else {
        c
    };
    if c1.len() == 0 {
        c1
    } else if c1.last() == "index.md"@ {
        c1.drop_last()
    } else if has_suffix(c1.last(), ".md"@) {
        c1.update(c1.len() - 1, strip_md_suffixes(c1.last()))
    } else {
        c1
    }
}

/// The url made of `segs`: `/` alone, or the segments between slashes.
pub open spec fn url_of_segments(segs: Seq<Seq<char>>) -> Seq<char> {
    if segs.len() == 0 {
        "/"@
    } else {
        "/"@ + join_text(segs, "/"@) + "/"@
    }
}

/// The url of the page at the path with components `c`.
pub open spec fn path_url(c: Seq<Seq<char>>) -> Seq<char> {
    url_of_segments(url_segments(c))
}

/// A path of components that lies under `content`.
pub open spec fn under_content(c: Seq<Seq<char>>) -> bool {
    c.len() >= 1 && c[0] == "content"@
}

/// The url that the `posts` list gives the Markdown file at `c`, a path
/// under `content`: `/` for `content/index.md`, `/<dir>/` for an `index.md`
/// elsewhere, `/<stem>/` for any other file directly in `content` and
/// `/<dir>/<stem>/` for any other file deeper down, where `<dir>` is the
/// folder of the file below `content`.
pub open spec fn post_url_of(c: Seq<Seq<char>>) -> Seq<char> {
    let rel = c.drop_first();
    let stem = name_stem(rel.last());
    let parent = join_text(rel.drop_last(), "/"@);
    if stem == "index"@ && parent.len() == 0 {
        "/"@
    } else if stem == "index"@ {
        "/"@ + parent + "/"@
    } else if parent.len() == 0 {
        "/"@ + stem + "/"@
    } else {
        "/"@ + parent + "/"@ + stem + "/"@
    }
}

/// The output folder for the source at `c` (a folder where `is_dir`): the
/// same place under `public`, where a file gives a folder named by its stem,
/// and an `index` file the folder that holds it.
pub open spec fn output_folder_of(c: Seq<Seq<char>>, is_dir: bool) -> Seq<Seq<char>> {
    let rel = c.drop_first();
    if is_dir {
        seq!["public"@] + rel
    } else if name_stem(rel.last()) == "index"@ {
        seq!["public"@] + rel.drop_last()
    } else {
        seq!["public"@] + rel.drop_last().push(name_stem(rel.last()))
    }
}

/// The file at `c` lies directly in the content folder itself.
pub open spec fn in_content_root(c: Seq<Seq<char>>) -> bool {
    c.len() == 2 && c[0] == "content"@
}

/// The Markdown file at `c` is `index.md` or `404.md` directly in the content
/// folder: its page goes to the root of the output.
pub open spec fn at_output_root(c: Seq<Seq<char>>) -> bool {
    let name = c.last();
    in_content_root(c) && (name == "index.md"@ || name == "404.md"@)
}

/// Where the page built from the Markdown file at `c` is written.
pub open spec fn markdown_output_of(c: Seq<Seq<char>>) -> Seq<Seq<char>> {
    if at_output_root(c) {
        seq!["public"@, name_stem(c.last()) + ".html"@]
    } else {
        output_folder_of(c, false).push("index.html"@)
    }
}

/// Where the image at `c` is copied: beside the page folder that its own
/// name would give.
pub open spec fn image_output_of(c: Seq<Seq<char>>) -> Seq<Seq<char>> {
    output_folder_of(c, false).drop_last().push(c.last())
}

/// The template for a page: the one its front matter names, else
/// `index.html` for the `index.md` directly in the content folder, else
/// `post.html`.
pub open spec fn template_of(template: Option<String>, c: Seq<Seq<char>>) -> Seq<char> {
    match template {
        Some(t) => t@,
        None => if in_content_root(c) && c.last() == "index.md"@ {
            "index.html"@
        } else {
            "post.html"@
        },
    }
}

/// The script that makes a served page reload when the site changes.
pub open spec fn live_reload_script() -> Seq<char> {
    LIVE_RELOAD_SCRIPT@
}

/// The script that makes a served page reload when the site changes.
pub const LIVE_RELOAD_SCRIPT: &'static str = "
            <script>
                const socket = new WebSocket('ws://' + window.location.host + '/livereload');
                socket.onmessage = (event) => {
                    if (event.data === 'RELOAD') {
                        window.location.reload();
                    }
                };
                socket.onclose = () => console.log('LiveReload connection closed.');
            </script>
        ";

/// Copies of the strings in `v` from position `from` on.
fn copy_from(v: &Vec<String>, from: usize) -> (r: Vec<String>)
    requires
        from <= v.len(),
    ensures
        comps(r@) == comps(v@).subrange(from as int, v.len() as int),
{
    let mut r: Vec<String> = Vec::new();
    let mut i = from;
    while i < v.len()
        invariant
            from <= i <= v.len(),
            comps(r@) == comps(v@).subrange(from as int, i as int),
        decreases v.len() - i,
    {
        let ghost old_r = r@;
        let item = v[i].clone();
        r.push(item);
        assert(r@ == old_r.push(v@[i as int]));
        assert(comps(r@) =~= comps(old_r).push(v@[i as int]@));
        assert(comps(r@) =~= comps(v@).subrange(from as int, i + 1));
        i = i + 1;
    }
    r
}

/// `s` without any number of trailing `.md`.
pub fn trim_md_suffixes(s: &str) -> (r: String)
    ensures
        r@ == strip_md_suffixes(s@),
{
    let mut cur: String = s.to_owned();
    let mut n = cur.as_str().unicode_len();
    while n >= 3 && text_ends_with(cur.as_str(), ".md")
        invariant
            n == cur@.len(),
            strip_md_suffixes(cur@) == strip_md_suffixes(s@),
        decreases n,
    {
        let next = cur.as_str().substring_char(0, n - 3).to_owned();
        cur = next;
        n = n - 3;
    }
    cur
}

/// The url of the page at the path with components `components` (the
/// normal components of the path).
pub fn path_to_url(components: &Vec<String>) -> (r: String)
    ensures
        r@ == path_url(comps(components@)),
{
    let ghost c = comps(components@);
    let drop = components.len() > 0 && text_eq(components[0].as_str(), "content");
    let mut segs = if drop {
        copy_from(components, 1)
    } else {
        copy_from(components, 0)
    };
    assert(c.drop_first() =~= c.subrange(1, c.len() as int));
    assert(c =~= c.subrange(0, c.len() as int));
    let k = segs.len();
    if k > 0 {
        assert(comps(segs@).last() == segs@[k - 1]@);
        if text_eq(segs[k - 1].as_str(), "index.md") {
            let ghost before = segs@;
            segs.pop();
            assert(comps(segs@) =~= comps(before).drop_last());
        } else if text_ends_with(segs[k - 1].as_str(), ".md") {
            let t = trim_md_suffixes(segs[k - 1].as_str());
            let ghost before = segs@;
            segs.set(k - 1, t);
            assert(comps(segs@) =~= comps(before).update(k - 1, strip_md_suffixes(before[k - 1]@)));
        }
    }
    if segs.len() == 0 {
        return "/".to_owned();
    }
    let mut r = "/".to_owned();
    let j = join_texts(&segs, "/");
    r.append(j.as_str());
    r.append("/");
    r
}

/// The url that the `posts` list gives the Markdown file whose path has the
/// components `components`, a file under `content`.
pub fn post_url(components: &Vec<String>) -> (r: String)
    requires
        components.len() >= 2,
        under_content(comps(components@)),
    ensures
        r@ == post_url_of(comps(components@)),
{
    let ghost c = comps(components@);
    let k = components.len();
    let stem = file_stem(components[k - 1].as_str());
    let dirs = copy_between(components, 1, k - 1);
    let parent = join_texts(&dirs, "/");
    proof {
        let rel = c.drop_first();
        assert(rel.last() == components@[k - 1]@);
        assert(rel.drop_last() =~= c.subrange(1, k - 1));
    }
    let is_index = text_eq(stem.as_str(), "index");
    let no_parent = parent.as_str().unicode_len() == 0;
    let mut r = "/".to_owned();
    if is_index && no_parent {
        return r;
    }
    if !no_parent {
        r.append(parent.as_str());
        r.append("/");
    }
    if !is_index {
        r.append(stem.as_str());
        r.append("/");
    }
    r
}

/// Copies of the strings in `v` from position `from` up to `to`.
fn copy_between(v: &Vec<String>, from: usize, to: usize) -> (r: Vec<String>)
    requires
        from <= to <= v.len(),
    ensures
        comps(r@) == comps(v@).subrange(from as int, to as int),
{
    let mut r: Vec<String> = Vec::new();
    let mut i = from;
    while i < to
        invariant
            from <= i <= to,
            to <= v.len(),
            comps(r@) == comps(v@).subrange(from as int, i as int),
        decreases to - i,
    {
        let ghost old_r = r@;
        let item = v[i].clone();
        r.push(item);
        assert(r@ == old_r.push(v@[i as int]));
        assert(comps(r@) =~= comps(old_r).push(v@[i as int]@));
        assert(comps(r@) =~= comps(v@).subrange(from as int, i + 1));
        i = i + 1;
    }
    r
}

/// The output folder for the source whose path has the components
/// `components`, a path under `content` (`is_dir` says whether it is a
/// folder).
pub fn get_output_file_folder(components: &Vec<String>, is_dir: bool) -> (r: Vec<String>)
    requires
        under_content(comps(components@)),
        is_dir || components.len() >= 2,
    ensures
        comps(r@) == output_folder_of(comps(components@), is_dir),
{
    let ghost c = comps(components@);
    let k = components.len();
    let mut r: Vec<String> = Vec::new();
    r.push("public".to_owned());
    let ghost head = comps(r@);
    assert(head =~= seq!["public"@]);
    if is_dir {
        let rest = copy_from(components, 1);
        let ghost rest_c = comps(rest@);
        let mut i: usize = 0;
        while i < rest.len()
            invariant
                i <= rest.len(),
                rest_c == comps(rest@),
                comps(r@) == head + rest_c.subrange(0, i as int),
            decreases rest.len() - i,
        {
            let ghost old_r = r@;
            let item = rest[i].clone();
            r.push(item);
            assert(comps(r@) =~= comps(old_r).push(rest@[i as int]@));
            assert(comps(r@) =~= head + rest_c.subrange(0, i + 1));
            i = i + 1;
        }
        assert(rest_c.subrange(0, rest.len() as int) =~= rest_c);
        assert(c.drop_first() =~= c.subrange(1, k as int));
        return r;
    }
    let stem = file_stem(components[k - 1].as_str());
    let mut i: usize = 1;
    while i < k - 1
        invariant
            1 <= i <= k - 1,
            k == components.len(),
            c == comps(components@),
            comps(r@) == head + c.subrange(1, i as int),
        decreases k - 1 - i,
    {
        let ghost old_r = r@;
        let item = components[i].clone();
        r.push(item);
        assert(comps(r@) =~= comps(old_r).push(components@[i as int]@));
        assert(comps(r@) =~= head + c.subrange(1, i + 1));
        i = i + 1;
    }
    proof {
        let rel = c.drop_first();
        assert(rel.last() == components@[k - 1]@);
        assert(rel.drop_last() =~= c.subrange(1, k - 1));
    }
    if !text_eq(stem.as_str(), "index") {
        let ghost old_r = r@;
        r.push(stem);
        assert(comps(r@) =~= comps(old_r).push(name_stem(components@[k - 1]@)));
    }
    r
}

/// Whether the Markdown file at `components` is `index.md` or `404.md`
/// directly in the content folder.
fn is_at_output_root(components: &Vec<String>) -> (r: bool)
    requires
        components.len() >= 1,
    ensures
        r == at_output_root(comps(components@)),
{
    let ghost c = comps(components@);
    let k = components.len();
    assert(c.last() == components@[k - 1]@);
    let name = components[k - 1].as_str();
    if !(text_eq(name, "index.md") || text_eq(name, "404.md")) {
        return false;
    }
    if k != 2 {
        return false;
    }
    text_eq(components[0].as_str(), "content")
}

/// Where the page built from the Markdown file at `components` is written.
pub fn markdown_output_path(components: &Vec<String>) -> (r: Vec<String>)
    requires
        components.len() >= 2,
        under_content(comps(components@)),
    ensures
        comps(r@) == markdown_output_of(comps(components@)),
{
    let ghost c = comps(components@);
    let k = components.len();
    if is_at_output_root(components) {
        let mut page = file_stem(components[k - 1].as_str());
        page.append(".html");
        let mut r: Vec<String> = Vec::new();
        r.push("public".to_owned());
        r.push(page);
        assert(c.last() == components@[k - 1]@);
        assert(comps(r@) =~= seq!["public"@, name_stem(c.last()) + ".html"@]);
        return r;
    }
    let mut r = get_output_file_folder(components, false);
    let ghost before = comps(r@);
    r.push("index.html".to_owned());
    assert(comps(r@) =~= before.push("index.html"@));
    r
}

/// Where the image at `components`, a file under `content`, is copied.
pub fn image_output_path(components: &Vec<String>) -> (r: Vec<String>)
    requires
        components.len() >= 2,
        under_content(comps(components@)),
    ensures
        comps(r@) == image_output_of(comps(components@)),
{
    let k = components.len();
    let mut r = get_output_file_folder(components, false);
    let ghost folder = comps(r@);
    r.pop();
    assert(comps(r@) =~= folder.drop_last());
    let ghost before = comps(r@);
    let name = components[k - 1].clone();
    r.push(name);
    assert(comps(r@) =~= before.push(comps(components@).last()));
    r
}

/// The template that renders the page from the Markdown file at
/// `components`, whose front matter is `metadata`.
pub fn select_template(metadata: &PostMetadata, components: &Vec<String>) -> (r: String)
    ensures
        r@ == template_of(metadata.template, comps(components@)),
        metadata.template matches Some(t) ==> r@ == t@,
        metadata.template is None ==> r@ == if comps(components@) == seq!["content"@, "index.md"@] {
            "index.html"@
        } else {
            "post.html"@
        },
{
    proof {
        lemma_template_choice(metadata.template, comps(components@));
    }
    let ghost c = comps(components@);
    match metadata.get_template() {
        Some(t) => t.to_owned(),
        None => {
            let k = components.len();
            if k == 2 {
                assert(c.last() == components@[1]@);
                if text_eq(components[1].as_str(), "index.md") && text_eq(
                    components[0].as_str(),
                    "content",
                ) {
                    return "index.html".to_owned();
                }
            }
            "post.html".to_owned()
        },
    }
}

/// The rendered page, with the live-reload script after it while the site is
/// served with watching on.
pub fn with_live_reload(html: String, watch_enabled: bool) -> (r: String)
    ensures
        r@ == (if watch_enabled {
            html@ + live_reload_script()
        } else {
            html@
        }),
{
    let mut html = html;
    if watch_enabled {
        html.append(LIVE_RELOAD_SCRIPT);
    }
    html
}

/// A file name that ends in one `.md` and has text before it.
pub open spec fn is_plain_md_name(name: Seq<char>) -> bool {
    name.len() > 3 && has_suffix(name, ".md"@) && !has_suffix(
        name.subrange(0, name.len() - 3),
        ".md"@,
    )
}

proof fn lemma_plain_md_name(name: Seq<char>)
    requires
        is_plain_md_name(name),
    ensures
        name_stem(name) == name.subrange(0, name.len() - 3),
        strip_md_suffixes(name) == name.subrange(0, name.len() - 3),
        (name == "index.md"@) == (name_stem(name) == "index"@),
        (name == "404.md"@) == (name_stem(name) == "404"@),
{
    reveal_strlit(".md");
    reveal_strlit("index.md");
    reveal_strlit("index");
    reveal_strlit("404.md");
    reveal_strlit("404");
    let n = name.len();
    let x = name.subrange(0, n - 3);
    assert(name.subrange(n - 3, n as int) == ".md"@);
    assert(".md"@ =~= seq!['.', 'm', 'd']);
    assert(name =~= x + ".md"@);
    assert(name[n - 1] == 'd');
    assert(name[n - 2] == 'm');
    assert(name[n - 3] == '.');
    assert(name.drop_last().last() == 'm');
    assert(name.drop_last().drop_last().last() == '.');
    assert(last_index_of(name.drop_last().drop_last(), '.') == n - 3);
    assert(last_index_of(name.drop_last(), '.') == n - 3);
    assert(last_index_of(name, '.') == n - 3);
    assert(name != seq!['.', '.']);
    assert("index.md"@ =~= "index"@ + ".md"@);
    assert("404.md"@ =~= "404"@ + ".md"@);
    if name == "index.md"@ {
        assert(x =~= "index"@);
    }
    if name == "404.md"@ {
        assert(x =~= "404"@);
    }
    assert(strip_md_suffixes(x) == x);
    assert(strip_md_suffixes(name) == strip_md_suffixes(x));
}

/// The page built from a Markdown file is written where its url points: the
/// page whose url is made of the segments `s` is written to
/// `public/<s>/index.html`.  This holds for a file under `content` whose
/// name ends in a single `.md`, except `content/404.md`, which goes to
/// `public/404.html`.
pub proof fn lemma_output_matches_url(c: Seq<Seq<char>>)
    requires
        c.len() >= 2,
        under_content(c),
        is_plain_md_name(c.last()),
        !(c.len() == 2 && c.last() == "404.md"@),
    ensures
        markdown_output_of(c) == seq!["public"@] + url_segments(c) + seq!["index.html"@],
        path_url(c) == url_of_segments(url_segments(c)),
{
    reveal_strlit("index.md");
    reveal_strlit("index.html");
    reveal_strlit("index");
    reveal_strlit(".html");
    lemma_plain_md_name(c.last());
    let n = c.len();
    let rel = c.drop_first();
    let name = c.last();
    assert(rel.last() == name);
    assert(c.drop_last().last() == c[n - 2]);
    if at_output_root(c) {
        assert(n == 2);
        assert(name == "index.md"@);
        assert("index"@ + ".html"@ =~= "index.html"@);
        assert(url_segments(c) =~= Seq::<Seq<char>>::empty());
        assert(markdown_output_of(c) =~= seq!["public"@] + url_segments(c) + seq!["index.html"@]);
    } else if name == "index.md"@ {
        assert(markdown_output_of(c) =~= seq!["public"@] + url_segments(c) + seq!["index.html"@]);
    } else {
        assert(rel.update(rel.len() - 1, strip_md_suffixes(name)) =~= rel.drop_last().push(
            name_stem(name),
        ));
        assert(markdown_output_of(c) =~= seq!["public"@] + url_segments(c) + seq!["index.html"@]);
    }
}

proof fn lemma_join_push(parts: Seq<Seq<char>>, x: Seq<char>, sep: Seq<char>)
    requires
        parts.len() > 0,
    ensures
        join_text(parts.push(x), sep) == join_text(parts, sep) + sep + x,
{
    assert(parts.push(x).drop_last() =~= parts);
}

proof fn lemma_join_nonempty(parts: Seq<Seq<char>>, sep: Seq<char>)
    requires
        parts.len() > 0,
        parts.last().len() > 0,
    ensures
        join_text(parts, sep).len() > 0,
{
}

/// The url that the `posts` list gives a Markdown file is the url of its
/// page, for a file under `content` whose name ends in a single `.md` and
/// whose components are not empty.
pub proof fn lemma_post_url_matches_page_url(c: Seq<Seq<char>>)
    requires
        c.len() >= 2,
        under_content(c),
        is_plain_md_name(c.last()),
        forall|i: int| 0 <= i < c.len() ==> (#[trigger] c[i]).len() > 0,
    ensures
        post_url_of(c) == path_url(c),
{
    reveal_strlit("index.md");
    reveal_strlit("index");
    reveal_strlit("/");
    lemma_plain_md_name(c.last());
    let n = c.len();
    let rel = c.drop_first();
    let name = c.last();
    let dirs = rel.drop_last();
    assert(rel.last() == name);
    if name == "index.md"@ {
        assert(url_segments(c) =~= dirs);
        if n >= 3 {
            assert(dirs.last() == c[n - 2]);
            lemma_join_nonempty(dirs, "/"@);
        } else {
            assert(dirs =~= Seq::<Seq<char>>::empty());
        }
    } else {
        let x = name_stem(name);
        assert(rel.update(rel.len() - 1, strip_md_suffixes(name)) =~= dirs.push(x));
        assert(url_segments(c) =~= dirs.push(x));
        if n >= 3 {
            assert(dirs.last() == c[n - 2]);
            lemma_join_nonempty(dirs, "/"@);
            lemma_join_push(dirs, x, "/"@);
        } else {
            assert(dirs =~= Seq::<Seq<char>>::empty());
            assert(dirs.push(x) =~= seq![x]);
        }
        assert(post_url_of(c) =~= path_url(c));
    }
}

/// A page bundle's images land beside its page: the folder that a bundle is
/// built into is the folder that its `index.md` page is written to, for any
/// bundle under `content`.
pub proof fn lemma_bundle_assets_beside_page(c: Seq<Seq<char>>)
    requires
        under_content(c),
    ensures
        markdown_output_of(c.push("index.md"@)).drop_last() == output_folder_of(c, true),
{
    reveal_strlit("index.md");
    reveal_strlit(".md");
    reveal_strlit("index");
    reveal_strlit("index.html");
    let name = "index.md"@;
    assert(".md"@ =~= seq!['.', 'm', 'd']);
    assert(name.subrange(name.len() - 3, name.len() as int) =~= ".md"@);
    assert(name.subrange(0, name.len() - 3) =~= "index"@);
    lemma_plain_md_name(name);
    let d = c.push(name);
    assert(d.last() == name);
    assert(d.drop_last() =~= c);
    assert(d.drop_first().drop_last() =~= c.drop_first());
    assert(d.drop_first().last() == name);
    if at_output_root(d) {
        assert(c.len() == 1);
        assert(c.drop_first() =~= Seq::<Seq<char>>::empty());
        assert(markdown_output_of(d).drop_last() =~= output_folder_of(c, true));
    } else {
        assert(markdown_output_of(d).drop_last() =~= output_folder_of(c, true));
    }
}

/// The template a page's front matter names always renders it, wherever the
/// page lies; without one, `content/index.md` gets `index.html` and every
/// other page `post.html`.
pub proof fn lemma_template_choice(template: Option<String>, c: Seq<Seq<char>>)
    ensures
        template matches Some(t) ==> template_of(template, c) == t@,
        template is None ==> template_of(template, c) == if c == seq!["content"@, "index.md"@] {
            "index.html"@
        } else {
            "post.html"@
        },
{
    if template is None && in_content_root(c) && c.last() == "index.md"@ {
        assert(c =~= seq!["content"@, "index.md"@]);
    }
}

} // verus!
