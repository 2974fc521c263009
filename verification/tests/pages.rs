use ducko::site::change::{
    bundle_entry_action, file_kind, folder_entry_action, plan_file_change, ChangeAction,
    EntryAction, FileKind,
};
use ducko::site::page::{parse_html, parse_page, rebase_image_url, split_front_matter};
use ducko::BuildError;

fn parts(p: &str) -> Vec<String> {
    p.split('/').map(|s| s.to_string()).collect()
}

#[test]
fn front_matter_is_split_from_body() {
    let raw = "---\ntitle: \"Hello\"\ndate: \"2026-03-08\"\n---\n# Hello\n";
    let parts = split_front_matter(raw).unwrap();
    assert_eq!(parts.front_matter, "\ntitle: \"Hello\"\ndate: \"2026-03-08\"\n");
    assert_eq!(parts.body, "\n# Hello\n");
    assert_eq!(format!("---{}---{}", parts.front_matter, parts.body), raw);
}

#[test]
fn front_matter_must_open_the_file() {
    assert!(matches!(split_front_matter("title: x\n---\nbody"), Err(BuildError::FrontMatterNotFound)));
    assert!(matches!(split_front_matter("---title\n---\n"), Err(BuildError::FrontMatterNotFound)));
    assert!(matches!(split_front_matter(""), Err(BuildError::FrontMatterNotFound)));
}

#[test]
fn front_matter_must_be_closed() {
    assert!(matches!(split_front_matter("---\ntitle: x\n"), Err(BuildError::FrontMatterNotClosed)));
    assert!(matches!(split_front_matter("---\n"), Err(BuildError::FrontMatterNotClosed)));
}

#[test]
fn closing_marker_may_follow_the_opening_at_once() {
    let parts = split_front_matter("---\n---body").unwrap();
    assert_eq!(parts.front_matter, "\n");
    assert_eq!(parts.body, "body");
}

#[test]
fn markdown_is_rendered_to_html() {
    let html = parse_html("# Hello\n\nSome *text*.\n", "");
    assert_eq!(html, "<h1>Hello</h1>\n<p>Some <em>text</em>.</p>\n");
    let table = parse_html("| a |\n|---|\n| b |\n", "");
    assert!(table.contains("<table>"));
    let struck = parse_html("~~gone~~", "");
    assert!(struck.contains("<del>gone</del>"));
}

#[test]
fn image_urls_are_rebased_when_absolute() {
    assert_eq!(rebase_image_url("/img/a.png", "https://x.org"), "https://x.org/img/a.png");
    assert_eq!(rebase_image_url("sunset.jpg", "https://x.org"), "sunset.jpg");
    let html = parse_html("![alt](/img/a.png)", "/base");
    assert!(html.contains("src=\"/base/img/a.png\""));
    let html = parse_html("![alt](pic.png)", "/base");
    assert!(html.contains("src=\"pic.png\""));
}

#[test]
fn parse_page_gives_front_matter_and_html() {
    let page = parse_page("---\ntitle: \"A\"\n---\n\nHello\n").unwrap();
    assert_eq!(page.front_matter, "\ntitle: \"A\"\n");
    assert_eq!(page.html, "<p>Hello</p>\n");
    assert!(matches!(parse_page("no front matter"), Err(BuildError::FrontMatterNotFound)));
    assert!(matches!(parse_page("---\nopen"), Err(BuildError::FrontMatterNotClosed)));
}

#[test]
fn files_are_sorted_by_extension() {
    assert_eq!(file_kind("post.md"), FileKind::Markdown);
    assert_eq!(file_kind("post.MD"), FileKind::Other);
    for name in ["a.png", "a.jpg", "a.jpeg", "a.gif", "a.bmp", "a.webp", "a.svg", "a.tiff"] {
        assert_eq!(file_kind(name), FileKind::Image);
    }
    assert_eq!(file_kind("data.json"), FileKind::Other);
    assert_eq!(file_kind("Makefile"), FileKind::Other);
}

#[test]
fn folder_entries_are_built_by_kind() {
    assert_eq!(folder_entry_action("a.md", true, false, false), EntryAction::BuildMarkdown);
    assert_eq!(folder_entry_action("a.png", true, false, false), EntryAction::CopyImage);
    assert_eq!(folder_entry_action("a.txt", true, false, false), EntryAction::Skip);
    assert_eq!(folder_entry_action("trip", false, true, true), EntryAction::BuildBundle);
    assert_eq!(folder_entry_action("docs", false, true, false), EntryAction::BuildBundleAndFolder);
    assert_eq!(folder_entry_action("dangling", false, false, false), EntryAction::Skip);
    assert_eq!(bundle_entry_action("index.md", true), EntryAction::BuildMarkdown);
    assert_eq!(bundle_entry_action("sunset.jpg", true), EntryAction::CopyAsset);
    assert_eq!(bundle_entry_action("data.csv", true), EntryAction::CopyAsset);
    assert_eq!(bundle_entry_action("snippet", true), EntryAction::CopyAsset);
    assert_eq!(bundle_entry_action("sub", false), EntryAction::Skip);
}

#[test]
fn changes_are_planned_by_place() {
    assert!(matches!(plan_file_change("config.yaml"), ChangeAction::FullRebuild));
    assert!(matches!(plan_file_change("templates/base.html"), ChangeAction::FullRebuild));
    match plan_file_change("content/hello.md") {
        ChangeAction::BuildMarkdown(p) => assert_eq!(p, parts("content/hello.md")),
        other => panic!("unexpected {:?}", other),
    }
    match plan_file_change("content/posts/trip/index.md") {
        ChangeAction::BuildBundle(p) => assert_eq!(p, parts("content/posts/trip")),
        other => panic!("unexpected {:?}", other),
    }
    match plan_file_change("content/posts/trip/sunset.jpg") {
        ChangeAction::BuildBundle(p) => assert_eq!(p, parts("content/posts/trip")),
        other => panic!("unexpected {:?}", other),
    }
    assert!(matches!(plan_file_change("content/notes.txt"), ChangeAction::Ignore));
    match plan_file_change("static/style.css") {
        ChangeAction::UpdateStaticAsset(p) => assert_eq!(p, parts("public/static/style.css")),
        other => panic!("unexpected {:?}", other),
    }
    assert!(matches!(plan_file_change("README.md"), ChangeAction::Ignore));
}
