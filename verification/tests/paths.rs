use ducko::path::{file_extension, file_stem, join_texts, path_file_name_of, path_pieces};
use ducko::site::output::{
    get_output_file_folder, image_output_path, markdown_output_path, path_to_url, post_url,
    select_template, trim_md_suffixes, with_live_reload, LIVE_RELOAD_SCRIPT,
};
use ducko::PostMetadata;

fn parts(p: &str) -> Vec<String> {
    p.split('/').map(|s| s.to_string()).collect()
}

fn meta(template: Option<&str>) -> PostMetadata {
    PostMetadata {
        title: "T".to_string(),
        date: "2026-03-08".to_string(),
        tags: vec![],
        template: template.map(|t| t.to_string()),
    }
}

#[test]
fn extension_and_stem_follow_path_rules() {
    assert_eq!(file_extension("intro.md"), Some("md".to_string()));
    assert_eq!(file_extension("archive.tar.gz"), Some("gz".to_string()));
    assert_eq!(file_extension(".bashrc"), None);
    assert_eq!(file_extension("README"), None);
    assert_eq!(file_extension("name."), Some("".to_string()));
    assert_eq!(file_stem("intro.md"), "intro");
    assert_eq!(file_stem("archive.tar.gz"), "archive.tar");
    assert_eq!(file_stem(".bashrc"), ".bashrc");
    assert_eq!(file_stem(".."), "..");
}

#[test]
fn pieces_drop_empty_and_dot_segments() {
    assert_eq!(path_pieces("content//docs/./intro.md/"), parts("content/docs/intro.md"));
    assert_eq!(path_pieces("a/../b"), parts("a/../b"));
    assert_eq!(path_pieces(""), Vec::<String>::new());
    assert_eq!(path_file_name_of("posts/hello.md"), Some("hello.md".to_string()));
    assert_eq!(path_file_name_of("posts/.."), None);
    assert_eq!(path_file_name_of("posts/hello/"), Some("hello".to_string()));
}

#[test]
fn join_puts_separator_between() {
    assert_eq!(join_texts(&parts("a/b/c"), "/"), "a/b/c");
    assert_eq!(join_texts(&vec![], "/"), "");
    assert_eq!(join_texts(&vec!["x".to_string()], ", "), "x");
}

#[test]
fn content_file_becomes_url_of_its_folder_path() {
    assert_eq!(path_to_url(&parts("content/docs/intro.md")), "/docs/intro/");
    assert_eq!(path_to_url(&parts("content/index.md")), "/");
    assert_eq!(path_to_url(&parts("content/docs/page-bundles/index.md")), "/docs/page-bundles/");
    assert_eq!(path_to_url(&parts("content/notes.md.md")), "/notes/");
    assert_eq!(path_to_url(&parts("content/image.png")), "/image.png/");
    assert_eq!(path_to_url(&vec![]), "/");
}

#[test]
fn trim_md_removes_every_trailing_md() {
    assert_eq!(trim_md_suffixes("a.md.md"), "a");
    assert_eq!(trim_md_suffixes("a.mdx"), "a.mdx");
    assert_eq!(trim_md_suffixes(".md"), "");
}

#[test]
fn posts_list_urls() {
    assert_eq!(post_url(&parts("content/index.md")), "/");
    assert_eq!(post_url(&parts("content/posts/index.md")), "/posts/");
    assert_eq!(post_url(&parts("content/docs/intro.md")), "/docs/intro/");
    assert_eq!(post_url(&parts("content/hello.md")), "/hello/");
    assert_eq!(post_url(&parts("content/a/b/c.md")), "/a/b/c/");
}

#[test]
fn output_folders_mirror_content() {
    assert_eq!(get_output_file_folder(&parts("content/posts/my-travel"), true), parts("public/posts/my-travel"));
    assert_eq!(get_output_file_folder(&parts("content/docs/intro.md"), false), parts("public/docs/intro"));
    assert_eq!(get_output_file_folder(&parts("content/docs/index.md"), false), parts("public/docs"));
    assert_eq!(get_output_file_folder(&parts("content"), true), parts("public"));
}

#[test]
fn markdown_pages_are_written_to_index_html() {
    assert_eq!(markdown_output_path(&parts("content/posts/my-travel/index.md")), parts("public/posts/my-travel/index.html"));
    assert_eq!(markdown_output_path(&parts("content/docs/intro.md")), parts("public/docs/intro/index.html"));
    assert_eq!(markdown_output_path(&parts("content/index.md")), parts("public/index.html"));
    assert_eq!(markdown_output_path(&parts("content/404.md")), parts("public/404.html"));
    assert_eq!(markdown_output_path(&parts("content/a/404.md")), parts("public/a/404/index.html"));
    assert_eq!(markdown_output_path(&parts("content/sub/content/index.md")), parts("public/sub/content/index.html"));
}

#[test]
fn images_go_beside_their_page_folder() {
    assert_eq!(image_output_path(&parts("content/posts/sunset.jpg")), parts("public/posts/sunset.jpg"));
    assert_eq!(image_output_path(&parts("content/a/index.png")), parts("public/index.png"));
    assert_eq!(image_output_path(&parts("content/index.png")), parts("index.png"));
}

#[test]
fn template_selection_follows_front_matter_then_location() {
    assert_eq!(select_template(&meta(Some("gallery.html")), &parts("content/index.md")), "gallery.html");
    assert_eq!(select_template(&meta(None), &parts("content/index.md")), "index.html");
    assert_eq!(select_template(&meta(None), &parts("content/docs/index.md")), "post.html");
    assert_eq!(select_template(&meta(None), &parts("content/hello.md")), "post.html");
    assert_eq!(select_template(&meta(None), &parts("content/sub/content/index.md")), "post.html");
}

#[test]
fn live_reload_script_only_when_watching() {
    assert_eq!(with_live_reload("<p>x</p>".to_string(), false), "<p>x</p>");
    let served = with_live_reload("<p>x</p>".to_string(), true);
    assert_eq!(served, format!("<p>x</p>{}", LIVE_RELOAD_SCRIPT));
    assert!(served.contains("/livereload"));
}

#[test]
fn page_is_written_where_its_url_points() {
    for p in ["content/index.md", "content/docs/intro.md", "content/docs/page-bundles/index.md", "content/a/b/c.md", "content/a/404.md", "content/sub/content/index.md"] {
        let c = parts(p);
        let url = path_to_url(&c);
        let mut expected = vec!["public".to_string()];
        expected.extend(url.split('/').filter(|s| !s.is_empty()).map(|s| s.to_string()));
        expected.push("index.html".to_string());
        assert_eq!(markdown_output_path(&c), expected, "{p}");
    }
}

#[test]
fn posts_list_url_is_page_url_below_a_folder() {
    for p in ["content/index.md", "content/docs/index.md", "content/docs/intro.md", "content/a/b/c.md", "content/hello.md"] {
        let c = parts(p);
        assert_eq!(post_url(&c), path_to_url(&c), "{p}");
    }
}

#[test]
fn bundle_assets_land_beside_the_page() {
    for p in ["content", "content/posts/my-travel", "content/docs/page-bundles", "content/sub/content"] {
        let c = parts(p);
        let mut page = c.clone();
        page.push("index.md".to_string());
        let mut page_dir = markdown_output_path(&page);
        page_dir.pop();
        assert_eq!(page_dir, get_output_file_folder(&c, true), "{p}");
    }
}
