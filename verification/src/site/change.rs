use vstd::prelude::*;

use crate::path::{comps, name_extension, path_extension, path_pieces, pieces};
use crate::text::{contains_text, has_prefix, text_contains, text_eq, text_starts_with};

verus! {

/// What the build does with a file, by its extension.
#[derive(Debug, Clone, Copy, PartialEq, Eq)]
pub enum FileKind {
    Markdown,
    Image,
    Other,
}

/// The image extensions that the build copies.
pub open spec fn is_image_extension(e: Seq<char>) -> bool {
    ||| e == "png"@
    ||| e == "jpg"@
    ||| e == "jpeg"@
    ||| e == "gif"@
    ||| e == "bmp"@
    ||| e == "webp"@
    ||| e == "svg"@
    ||| e == "tiff"@
}

/// The kind of a file whose extension is `ext`: `md` is Markdown, the image
/// extensions are images, anything else (no extension too) is other.
pub open spec fn kind_of_extension(ext: Option<Seq<char>>) -> FileKind {
    match ext {
        Some(e) => if e == "md"@ {
            FileKind::Markdown
        } else if is_image_extension(e) {
            FileKind::Image
        } else {
            FileKind::Other
        },
        None => FileKind::Other,
    }
}

/// Whether `e` is one of the image extensions.
pub fn image_extension(e: &str) -> (r: bool)
    ensures
        r == is_image_extension(e@),
{
    text_eq(e, "png") || text_eq(e, "jpg") || text_eq(e, "jpeg") || text_eq(e, "gif") || text_eq(
        e,
        "bmp",
    ) || text_eq(e, "webp") || text_eq(e, "svg") || text_eq(e, "tiff")
}

/// The kind of the file named `name`.
pub fn file_kind(name: &str) -> (r: FileKind)
    ensures
        r == kind_of_extension(name_extension(name@)),
{
    match crate::path::file_extension(name) {
        Some(e) => {
            if text_eq(e.as_str(), "md") {
                FileKind::Markdown
            } else if image_extension(e.as_str()) {
                FileKind::Image
            } else {
                FileKind::Other
            }
        },
        None => FileKind::Other,
    }
}

/// What the build does with an entry of a content folder.
#[derive(Debug, Clone, Copy, PartialEq, Eq)]
pub enum EntryAction {
    /// Render the Markdown file to a page.
    BuildMarkdown,
    /// Copy the image.
    CopyImage,
    /// Copy the file beside the bundle's page.
    CopyAsset,
    /// Leave the entry alone.
    Skip,
    /// Build the folder as a page bundle.
    BuildBundle,
    /// Build the folder as a page bundle, then build it as a content folder.
    BuildBundleAndFolder,
}

/// The action for an entry of a content folder named `name`: a file by its
/// kind; a folder as a page bundle, and also as a content folder unless it
/// holds an `index.md`; anything else is skipped.
pub open spec fn folder_entry_action_of(name: Seq<char>, is_file: bool, is_dir: bool, has_index: bool) -> EntryAction {
    if is_file {
        match kind_of_extension(name_extension(name)) {
            FileKind::Markdown => EntryAction::BuildMarkdown,
            FileKind::Image => EntryAction::CopyImage,
            FileKind::Other => EntryAction::Skip,
        }
    } else if is_dir {
        if has_index {
            EntryAction::BuildBundle
        } else {
            EntryAction::BuildBundleAndFolder
        }
    } else {
        EntryAction::Skip
    }
}

/// The action for an entry of a content folder.
pub fn folder_entry_action(name: &str, is_file: bool, is_dir: bool, has_index: bool) -> (r: EntryAction)
    ensures
        r == folder_entry_action_of(name@, is_file, is_dir, has_index),
{
    if is_file {
        match file_kind(name) {
            FileKind::Markdown => EntryAction::BuildMarkdown,
            FileKind::Image => EntryAction::CopyImage,
            FileKind::Other => EntryAction::Skip,
        }
    } else if is_dir {
        if has_index {
            EntryAction::BuildBundle
        } else {
            EntryAction::BuildBundleAndFolder
        }
    } else {
        EntryAction::Skip
    }
}

/// The action for an entry of a page bundle: its Markdown files are
/// rendered, every other file (images, data, code) is copied beside the
/// page, and anything that is not a file is skipped.
pub fn bundle_entry_action(name: &str, is_file: bool) -> (r: EntryAction)
    ensures
        r == (if is_file {
            if kind_of_extension(name_extension(name@)) == FileKind::Markdown {
                EntryAction::BuildMarkdown
            } else {
                EntryAction::CopyAsset
            }
        } else {
            EntryAction::Skip
        }),
{
    if is_file {
        match file_kind(name) {
            FileKind::Markdown => EntryAction::BuildMarkdown,
            _ => EntryAction::CopyAsset,
        }
    } else {
        EntryAction::Skip
    }
}

/// What a served site does when a watched file changes.
#[derive(Debug)]
pub enum ChangeAction {
    /// Build the whole site again.
    FullRebuild,
    /// Build the page of the Markdown file with these components.
    BuildMarkdown(Vec<String>),
    /// Build the page bundle (or content folder) with these components.
    BuildBundle(Vec<String>),
    /// Copy the changed static file to the path with these components.
    UpdateStaticAsset(Vec<String>),
    /// Nothing.
    Ignore,
}

/// A [`ChangeAction`] with its paths as component texts.
pub enum ChangeActionView {
    FullRebuild,
    BuildMarkdown(Seq<Seq<char>>),
    BuildBundle(Seq<Seq<char>>),
    UpdateStaticAsset(Seq<Seq<char>>),
    Ignore,
}

impl View for ChangeAction {
    type V = ChangeActionView;

    open spec fn view(&self) -> ChangeActionView {
        match self {
            ChangeAction::FullRebuild => ChangeActionView::FullRebuild,
            ChangeAction::BuildMarkdown(c) => ChangeActionView::BuildMarkdown(comps(c@)),
            ChangeAction::BuildBundle(c) => ChangeActionView::BuildBundle(comps(c@)),
            ChangeAction::UpdateStaticAsset(c) => ChangeActionView::UpdateStaticAsset(comps(c@)),
            ChangeAction::Ignore => ChangeActionView::Ignore,
        }
    }
}

/// The action for a change of the file at the relative path `p`: a change
/// of the config or of a template rebuilds the whole site; a Markdown file
/// directly in `content` is built alone, and one deeper builds its folder as
/// a bundle, as an image under `content` does; a change under `static` is
/// copied to `public`; anything else is left alone.  The tests on `p` are
/// made on its text: `content` and `static` are prefixes of the text.
pub open spec fn change_action_of(p: Seq<char>) -> ChangeActionView {
    if contains_text(p, "config.yaml"@) || contains_text(p, "templates/"@) {
        ChangeActionView::FullRebuild
    } else if has_prefix(p, "content"@) {
        match path_extension(p) {
            Some(e) => if e == "md"@ {
                if pieces(p).drop_last() == seq!["content"@] {
                    ChangeActionView::BuildMarkdown(pieces(p))
                } else {
                    ChangeActionView::BuildBundle(pieces(p).drop_last())
                }
            } else if is_image_extension(e) {
                ChangeActionView::BuildBundle(pieces(p).drop_last())
            } else {
                ChangeActionView::Ignore
            },
            None => ChangeActionView::Ignore,
        }
    } else if has_prefix(p, "static"@) {
        ChangeActionView::UpdateStaticAsset(seq!["public"@] + pieces(p))
    } else {
        ChangeActionView::Ignore
    }
}

/// The action for a change of the file at `path`, a path relative to the
/// site root written with `/` separators.
pub fn plan_file_change(path: &str) -> (r: ChangeAction)
    ensures
        r@ == change_action_of(path@),
{
    if text_contains(path, "config.yaml") || text_contains(path, "templates/") {
        return ChangeAction::FullRebuild;
    }
    if text_starts_with(path, "content") {
        let mut ps = path_pieces(path);
        let k = ps.len();
        let ext = match crate::path::path_file_name_of(path) {
            Some(name) => crate::path::file_extension(name.as_str()),
            None => None,
        };
        match ext {
            Some(e) => {
                let is_md = text_eq(e.as_str(), "md");
                if !is_md && !image_extension(e.as_str()) {
                    return ChangeAction::Ignore;
                }
                assert(k > 0);
                let ghost all = comps(ps@);
                let last = ps.pop();
                assert(comps(ps@) =~= all.drop_last());
                if is_md && ps.len() == 1 && text_eq(ps[0].as_str(), "content") {
                    assert(comps(ps@) =~= seq!["content"@]);
                    match last {
                        Some(l) => ps.push(l),
                        None => {},
                    }
                    assert(comps(ps@) =~= all);
                    return ChangeAction::BuildMarkdown(ps);
                }
                proof {
                    if is_md && comps(ps@) == seq!["content"@] {
                        assert(comps(ps@)[0] == ps@[0]@);
                    }
                }
                ChangeAction::BuildBundle(ps)
            },
            None => ChangeAction::Ignore,
        }
    } else if text_starts_with(path, "static") {
        let ps = path_pieces(path);
        let mut r: Vec<String> = Vec::new();
        r.push("public".to_owned());
        let ghost head = comps(r@);
        assert(head =~= seq!["public"@]);
        let mut i: usize = 0;
        while i < ps.len()
            invariant
                i <= ps.len(),
                comps(r@) == head + comps(ps@).subrange(0, i as int),
            decreases ps.len() - i,
        {
            let ghost old_r = r@;
            let item = ps[i].clone();
            r.push(item);
            assert(comps(r@) =~= comps(old_r).push(ps@[i as int]@));
            assert(comps(r@) =~= head + comps(ps@).subrange(0, i + 1));
            i = i + 1;
        }
        assert(comps(ps@).subrange(0, ps.len() as int) =~= comps(ps@));
        ChangeAction::UpdateStaticAsset(r)
    } else {
        ChangeAction::Ignore
    }
}

} // verus!
