use ducko::add_page::{
    default_page_content, page_file_name, page_name_from_arg, page_name_from_reply, PageNameError,
};
use ducko::new::{init_report, question, InitError, PromptReply, QUESTION_COUNT};
use ducko::serve::{path_starts_with, should_handle_change, should_reload, PORT};
use ducko::site::posts::sort_posts_by_date;
use ducko::site::sitemap::generate_sitemap;
use ducko::text::{text_contains, text_less, trim};
use ducko::{default_language, PostContext, PostMetadata, SiteConfig, SiteConfigBuilder, CONFIG_PATH};

fn post(title: &str, date: &str, url: &str) -> PostContext {
    PostContext {
        meta: PostMetadata {
            title: title.to_string(),
            date: date.to_string(),
            tags: vec![],
            template: None,
        },
        url: url.to_string(),
    }
}

#[test]
fn builder_defaults_and_setters() {
    let c = SiteConfigBuilder::new().build();
    assert_eq!(c.title, "My blog");
    assert_eq!(c.description, "");
    assert_eq!(c.language_code, "en");
    assert!(c.menu.is_empty() && c.extra.is_empty());
    assert_eq!(c.author.email, None);
    let c = SiteConfigBuilder::new()
        .title("Duck".to_string())
        .description("quacks".to_string())
        .base_url("https://duck.example".to_string())
        .author_name("D".to_string())
        .author_email("d@duck.example".to_string())
        .build();
    assert_eq!(c.title, "Duck");
    assert_eq!(c.description, "quacks");
    assert_eq!(c.base_url, "https://duck.example");
    assert_eq!(c.author.name, "D");
    assert_eq!(c.author.email.as_deref(), Some("d@duck.example"));
    assert_eq!(default_language(), "en");
    assert_eq!(CONFIG_PATH, "config.yaml");
}

#[test]
fn builder_last_write_wins() {
    let c = SiteConfigBuilder::new().title("a".to_string()).title("b".to_string()).build();
    assert_eq!(c.title, "b");
}

#[test]
fn template_of_metadata() {
    let p = post("t", "2026-01-01", "/t/");
    assert_eq!(p.meta.get_template(), None);
    let mut m = p.meta.clone();
    m.template = Some("gallery.html".to_string());
    assert_eq!(m.get_template(), Some("gallery.html"));
}

#[test]
fn posts_are_sorted_newest_first_and_stably() {
    let posts = vec![
        post("a", "2026-03-05", "/a/"),
        post("b", "2026-03-08", "/b/"),
        post("c", "2026-03-06", "/c/"),
        post("d", "2026-03-08", "/d/"),
        post("e", "", "/e/"),
    ];
    let sorted = sort_posts_by_date(posts);
    let titles: Vec<&str> = sorted.iter().map(|p| p.meta.title.as_str()).collect();
    assert_eq!(titles, vec!["b", "d", "c", "a", "e"]);
    assert!(sort_posts_by_date(vec![]).is_empty());
}

#[test]
fn text_order_is_lexicographic() {
    assert!(text_less("2026-03-05", "2026-03-08"));
    assert!(!text_less("2026-03-08", "2026-03-05"));
    assert!(!text_less("abc", "abc"));
    assert!(text_less("ab", "abc"));
    assert!(text_less("", "a"));
    assert!(text_less("Z", "a"));
}

#[test]
fn sitemap_lists_posts_except_404() {
    let mut config = SiteConfig::default();
    config.base_url = "https://x.org".to_string();
    let posts = vec![post("a", "2026-03-05", "/a/"), post("nf", "2026-01-01", "/404/"), post("b", "2026-03-06", "/b/")];
    let xml = generate_sitemap(&posts, &config);
    assert_eq!(
        xml,
        "<?xml version=\"1.0\" encoding=\"UTF-8\"?><urlset xmlns=\"http://www.sitemaps.org/schemas/sitemap/0.9\"><url><loc>https://x.org/a/</loc><lastmod>2026-03-05</lastmod></url><url><loc>https://x.org/b/</loc><lastmod>2026-03-06</lastmod></url></urlset>"
    );
    let empty = generate_sitemap(&vec![], &config);
    assert!(empty.ends_with("0.9\"></urlset>"));
}

#[test]
fn trim_removes_unicode_white_space() {
    assert_eq!(trim("  hello world \t\n"), "hello world");
    assert_eq!(trim("\u{3000}x\u{a0}"), "x");
    assert_eq!(trim(" \t "), "");
    assert_eq!(trim(&trim("  a b  ")), trim("  a b  "));
    assert!(text_contains("a.tmp.b", ".tmp"));
    assert!(text_contains("abc", ""));
}

#[test]
fn questions_fill_the_config() {
    assert_eq!(QUESTION_COUNT, 5);
    assert_eq!(question(0), "Enter the title of your blog: ");
    assert_eq!(question(4), "Author email (Optional): ");
    let mut c = SiteConfig::default();
    c.title = "Default".to_string();
    assert!(c.answer_question(0, PromptReply::Line("  My site ".to_string())).is_ok());
    assert_eq!(c.title, "My site");
    assert!(c.answer_question(1, PromptReply::Line("   ".to_string())).is_ok());
    assert_eq!(c.description, "");
    assert!(c.answer_question(4, PromptReply::Line("me@x.org".to_string())).is_ok());
    assert_eq!(c.author.email.as_deref(), Some("me@x.org"));
    assert!(c.answer_question(3, PromptReply::Line("Me".to_string())).is_ok());
    assert_eq!(c.author.name, "Me");
    assert!(c.answer_question(2, PromptReply::Line("https://x.org".to_string())).is_ok());
    assert_eq!(c.base_url, "https://x.org");
    assert!(matches!(c.answer_question(2, PromptReply::Interrupted), Err(InitError::InitCancelled)));
    assert!(matches!(c.answer_question(2, PromptReply::Eof), Err(InitError::InitCancelled)));
    match c.answer_question(2, PromptReply::Failed("tty".to_string())) {
        Err(InitError::ReadlineError(m)) => assert_eq!(m, "tty"),
        other => panic!("unexpected {:?}", other),
    }
    assert_eq!(c.base_url, "https://x.org");
}

#[test]
fn init_report_mentions_git() {
    let with_git = init_report("blog", "ducko", true);
    assert_eq!(
        with_git,
        "\n\u{2705} Project 'blog' initialized successfully!\nNext steps:\n  cd blog\n  ducko serve --watch\nNext steps: Link this to GitHub to start auto-deploying via Actions!\n"
    );
    let without = init_report("blog", "ducko", false);
    assert!(without.contains("Warning: Git is not detected"));
    assert!(without.ends_with("git commit -m \"first commit\"\n"));
}

#[test]
fn page_names() {
    assert_eq!(page_name_from_arg(Some(" hello ".to_string())), Some(" hello ".to_string()));
    assert_eq!(page_name_from_arg(Some("  ".to_string())), None);
    assert_eq!(page_name_from_arg(None), None);
    assert_eq!(page_name_from_reply(PromptReply::Line("  trip  ".to_string())).unwrap(), "trip");
    assert!(matches!(page_name_from_reply(PromptReply::Line(" ".to_string())), Err(PageNameError::Eof)));
    assert!(matches!(page_name_from_reply(PromptReply::Interrupted), Err(PageNameError::Interrupted)));
    assert!(matches!(page_name_from_reply(PromptReply::Eof), Err(PageNameError::Eof)));
    match page_name_from_reply(PromptReply::Failed("io".to_string())) {
        Err(PageNameError::Failed(m)) => assert_eq!(m, "io"),
        other => panic!("unexpected {:?}", other),
    }
}

#[test]
fn page_file_names_and_content() {
    assert_eq!(page_file_name("hello"), "hello.md");
    assert_eq!(page_file_name("hello.md"), "hello.md");
    assert_eq!(page_file_name("hello.MD"), "hello.MD");
    assert_eq!(page_file_name("hello.txt"), "hello.txt.md");
    assert_eq!(page_file_name("posts/trip"), "posts/trip.md");
    assert_eq!(
        default_page_content("Trip", "2026-03-08"),
        "---\ntitle: \"Trip\"\ndate: \"2026-03-08\"\ntemplate: \"post.html\"\n---\n\n# Trip\n"
    );
}

#[test]
fn serve_skips_temporary_and_output_files() {
    assert_eq!(PORT, 3333);
    assert!(path_starts_with("/site/public/a.html", "/site/public"));
    assert!(!path_starts_with("/site/publicity/a", "/site/public"));
    assert!(!path_starts_with("./a", "a"));
    assert!(should_handle_change("/site/content/a.md", "/site/public"));
    assert!(!should_handle_change("/site/content/a.md~", "/site/public"));
    assert!(!should_handle_change("/site/content/.a.md.tmp.1", "/site/public"));
    assert!(!should_handle_change("/site/public/a.html", "/site/public"));
    assert!(!should_handle_change("/x/public-notes/a.md", "/site/out"));
}

#[test]
fn reload_when_any_change_was_handled() {
    assert!(!should_reload(&vec![]));
    assert!(!should_reload(&vec![false, false]));
    assert!(should_reload(&vec![false, true, false]));
}
