use pulldown_cmark::{html, CowStr, Event, Options, Parser, Tag};
use vstd::prelude::*;
use vstd::string::*;

use crate::site::error::BuildError;
use crate::text::{
    contains_text, find_from, has_prefix, lemma_find_from_first, lemma_matches_in_subrange, matches_at,
    text_find_from, text_starts_with,
};

verus! {

/// The HTML that pulldown-cmark renders from the Markdown text `markdown`
/// with the extensions whose flags are set in `options`, after the url of
/// each image that starts with `/` has been given the prefix `base_url`.
pub uninterp spec fn markdown_html(markdown: Seq<char>, base_url: Seq<char>, options: u32) -> Seq<char>;

/// The pulldown-cmark extensions that pages use: tables, footnotes,
/// strikethrough and task lists (`Options::ENABLE_TABLES`,
/// `ENABLE_FOOTNOTES`, `ENABLE_STRIKETHROUGH`, `ENABLE_TASKLISTS`).
pub const MARKDOWN_OPTIONS: u32 = 0x1e;

/// Pages get exactly the four extensions: the flag bits of
/// `ENABLE_TABLES` (bit 1), `ENABLE_FOOTNOTES` (bit 2),
/// `ENABLE_STRIKETHROUGH` (bit 3) and `ENABLE_TASKLISTS` (bit 4) are set,
/// and no other bit.
pub proof fn lemma_markdown_options()
    ensures
        MARKDOWN_OPTIONS & (1u32 << 1u32) != 0,
        MARKDOWN_OPTIONS & (1u32 << 2u32) != 0,
        MARKDOWN_OPTIONS & (1u32 << 3u32) != 0,
        MARKDOWN_OPTIONS & (1u32 << 4u32) != 0,
        MARKDOWN_OPTIONS & !((1u32 << 1u32) | (1u32 << 2u32) | (1u32 << 3u32) | (1u32 << 4u32))
            == 0,
{
    let o = MARKDOWN_OPTIONS;
    assert(o == 0x1e);
    assert(o == 0x1e ==> {
        &&& o & (1u32 << 1u32) != 0
        &&& o & (1u32 << 2u32) != 0
        &&& o & (1u32 << 3u32) != 0
        &&& o & (1u32 << 4u32) != 0
        &&& o & !((1u32 << 1u32) | (1u32 << 2u32) | (1u32 << 3u32) | (1u32 << 4u32)) == 0
    }) by (bit_vector);
}

/// The url of an image: one that starts with `/` gets the prefix `base_url`.
pub fn rebase_image_url(dest_url: &str, base_url: &str) -> (r: String)
    ensures
        r@ == (if has_prefix(dest_url@, "/"@) {
            base_url@ + dest_url@
        } else {
            dest_url@
        }),
{
    if text_starts_with(dest_url, "/") {
        let mut r = base_url.to_owned();
        r.append(dest_url);
        r
    } else {
        dest_url.to_owned()
    }
}

/// Renders `markdown` to HTML with pulldown-cmark: `Parser::new_ext` with the
/// extension flags `options` (`Options::from_bits_truncate`), each image's
/// url passed through [`rebase_image_url`], then `html::push_html`.  The
/// contract only names the result: pulldown-cmark's rendering is a function
/// of the text, the flags and the base url, and is not stated here.
#[verifier::external_body]
fn render_markdown(markdown: &str, base_url: &str, options: u32) -> (r: String)
    ensures
        r@ == markdown_html(markdown@, base_url@, options),
{
    let parser = Parser::new_ext(markdown, Options::from_bits_truncate(options));
    let events = parser.map(|event| match event {
        Event::Start(Tag::Image { link_type, dest_url, title, id }) => {
            let dest_url = CowStr::from(rebase_image_url(&dest_url, base_url));
            Event::Start(Tag::Image { link_type, dest_url, title, id })
        },
        other => other,
    });
    let mut out = String::new();
    html::push_html(&mut out, events);
    out
}

/// Renders the Markdown `markdown_str` to HTML, with the extensions that
/// pages use and images that start with `/` rebased onto `base_url`.
pub fn parse_html(markdown_str: &str, base_url: &str) -> (r: String)
    ensures
        r@ == markdown_html(markdown_str@, base_url@, MARKDOWN_OPTIONS),
{
    render_markdown(markdown_str, base_url, MARKDOWN_OPTIONS)
}

/// The front matter block of a page source: it opens with `---` and a line
/// break at the very start, and closes at the next `---`.
pub open spec fn front_matter_end(raw: Seq<char>) -> Option<int> {
    find_from(raw, "---"@, 3)
}

/// The two parts of a page source: the YAML text of its front matter, and
/// its Markdown body.
pub struct PageParts {
    pub front_matter: String,
    pub body: String,
}

/// The front matter closes at the first `---` after the opening one: the
/// closing marker is there, and the front matter before it holds no `---`;
/// where no marker follows the opening one, there is no front matter end.
pub proof fn lemma_front_matter_closes_at_first_marker(raw: Seq<char>)
    ensures
        front_matter_end(raw) matches Some(k) ==> 3 <= k && matches_at(raw, "---"@, k)
            && !contains_text(raw.subrange(3, k), "---"@),
        front_matter_end(raw) is None ==> forall|j: int|
            3 <= j ==> !#[trigger] matches_at(raw, "---"@, j),
{
    reveal_strlit("---");
    lemma_find_from_first(raw, "---"@, 3);
    if let Some(k) = front_matter_end(raw) {
        if contains_text(raw.subrange(3, k), "---"@) {
            let i = choose|i: int| matches_at(raw.subrange(3, k), "---"@, i);
            lemma_matches_in_subrange(raw, 3, k, "---"@, i);
            assert(!matches_at(raw, "---"@, 3 + i));
        }
    }
}

/// Splits a page source into its front matter and its body, as the source
/// `---`, YAML, `---`, Markdown.
pub fn split_front_matter(raw: &str) -> (r: Result<PageParts, BuildError>)
    ensures
        !has_prefix(raw@, "---\n"@) ==> r matches Err(BuildError::FrontMatterNotFound),
        has_prefix(raw@, "---\n"@) && front_matter_end(raw@) is None ==> r matches Err(
            BuildError::FrontMatterNotClosed,
        ),
        has_prefix(raw@, "---\n"@) && front_matter_end(raw@) is Some ==> r is Ok,
        r matches Ok(parts) ==> {
            &&& front_matter_end(raw@) matches Some(k)
            &&& parts.front_matter@ == raw@.subrange(3, k)
            &&& parts.body@ == raw@.subrange(k + 3, raw@.len() as int)
            &&& raw@ == "---"@ + parts.front_matter@ + "---"@ + parts.body@
        },
        r matches Ok(parts) ==> !contains_text(parts.front_matter@, "---"@),
        has_prefix(raw@, "---\n"@) && (exists|k: int| 3 <= k && #[trigger] matches_at(raw@, "---"@, k))
            ==> r is Ok,
        r matches Err(BuildError::FrontMatterNotClosed) ==> forall|k: int|
            3 <= k ==> !#[trigger] matches_at(raw@, "---"@, k),
{
    if !text_starts_with(raw, "---\n") {
        return Err(BuildError::FrontMatterNotFound);
    }
    let n = raw.unicode_len();
    proof {
        reveal_strlit("---\n");
        reveal_strlit("---");
        lemma_find_from_first(raw@, "---"@, 3);
        lemma_front_matter_closes_at_first_marker(raw@);
    }
    match text_find_from(raw, "---", 3) {
        None => Err(BuildError::FrontMatterNotClosed),
        Some(k) => {
            let front_matter = raw.substring_char(3, k).to_owned();
            let body = raw.substring_char(k + 3, n).to_owned();
            proof {
                assert(raw@.subrange(0, 3) =~= "---"@);
                assert(raw@.subrange(k as int, k + 3) =~= "---"@);
                assert(raw@ =~= "---"@ + front_matter@ + "---"@ + body@);
            }
            Ok(PageParts { front_matter, body })
        },
    }
}

/// A page source taken apart and rendered: the YAML text of its front
/// matter, and the HTML of its body.
pub struct ParsedPage {
    pub front_matter: String,
    pub html: String,
}

/// Takes a page source apart and renders its body, with image urls left as
/// they are.
pub fn parse_page(raw: &str) -> (r: Result<ParsedPage, BuildError>)
    ensures
        !has_prefix(raw@, "---\n"@) ==> r matches Err(BuildError::FrontMatterNotFound),
        has_prefix(raw@, "---\n"@) && front_matter_end(raw@) is None ==> r matches Err(
            BuildError::FrontMatterNotClosed,
        ),
        has_prefix(raw@, "---\n"@) && front_matter_end(raw@) is Some ==> r is Ok,
        r matches Ok(page) ==> {
            &&& front_matter_end(raw@) matches Some(k)
            &&& page.front_matter@ == raw@.subrange(3, k)
            &&& page.html@ == markdown_html(
                raw@.subrange(k + 3, raw@.len() as int),
                ""@,
                MARKDOWN_OPTIONS,
            )
        },
        r matches Ok(page) ==> !contains_text(page.front_matter@, "---"@),
{
    match split_front_matter(raw) {
        Ok(parts) => {
            let html = parse_html(parts.body.as_str(), "");
            Ok(ParsedPage { front_matter: parts.front_matter, html })
        },
        Err(e) => Err(e),
    }
}

} // verus!
