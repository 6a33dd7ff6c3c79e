use homebase::content::load_documents;
use homebase::site::{build_site, BuildError, Layout, PageBuilder, SiteGenerator};
use homebase::feed::{FeedCache, FeedEntry};

fn styles() -> Vec<String> {
    vec!["style.css".to_string(), "extra.css".to_string()]
}

#[test]
fn builder_defaults_slug_to_title() {
    let p = PageBuilder::new(Layout::Page)
        .title("My First Post!".to_string())
        .child("a".to_string())
        .children(vec!["b".to_string(), "c".to_string()])
        .build()
        .unwrap();
    assert_eq!(p.properties.title, "My First Post!");
    assert_eq!(p.properties.slug, "my-first-post");
    assert_eq!(p.content, "a\nb\nc");
    assert_eq!(p.layout, Layout::Page);
}

#[test]
fn builder_keeps_given_slug() {
    let p = PageBuilder::new(Layout::Page).slug("custom".to_string()).title("T".to_string()).build().unwrap();
    assert_eq!(p.properties.slug, "custom");
}

#[test]
fn builder_missing_title() {
    assert_eq!(PageBuilder::new(Layout::Page).build().err(), Some(BuildError::MissingTitle));
}

#[test]
fn index_gets_greeting() {
    let p = PageBuilder::new(Layout::Index).build().unwrap();
    assert_eq!(p.properties.title, "hey ✌🏽");
    assert_eq!(p.properties.slug, "hey");
    assert_eq!(p.content, "");
}

#[test]
fn render_article_page() {
    let mut site = SiteGenerator::new(styles());
    let page = site.new_page(Layout::Page).title("Hello".to_string()).child("<h1>Hi</h1>".to_string()).build().unwrap();
    let html = site.render(&page);
    assert!(html.trim_start().starts_with("<!DOCTYPE html>"));
    assert!(html.contains("<html lang=\"en\">"));
    assert!(html.contains("<title>Hello</title>"));
    assert!(html.contains("<meta name=\"viewport\""));
    assert!(html.contains("<link rel=\"stylesheet\" href=\"style.css\"><link rel=\"stylesheet\" href=\"extra.css\">"));
    assert!(html.contains("<a href=\"index.html\">&larr; Back Home</a>"));
    assert!(html.contains("<h1>Hi</h1>"));
    assert!(html.contains("\n<meta name=\"viewport\""));
}

#[test]
fn container_template_unindents() {
    let site = SiteGenerator::new(Vec::new());
    assert_eq!(site.container_template("x"), "<div class=\"container\">\n    x\n</div>\n");
}

#[test]
fn index_links_pages_without_feed() {
    let mut site = SiteGenerator::new(styles());
    let index = site
        .new_page(Layout::Index)
        .slug("index".to_string())
        .child("<li><a href='a.html'>A</a></li>".to_string())
        .child("<li><a href='b.html'>B</a></li>".to_string())
        .build()
        .unwrap();
    site.add_page(index);
    let a = site.new_page(Layout::Page).title("A".to_string()).build().unwrap();
    site.add_page(a);
    let b = site.new_page(Layout::Page).title("B".to_string()).build().unwrap();
    site.add_page(b);
    assert_eq!(site.page_count(), 3);
    let files = site.render_all();
    assert_eq!(files.len(), 3);
    assert_eq!(files[0].path, "index.html");
    assert!(files[0].html.contains("a.html"));
    assert!(files[0].html.contains("b.html"));
    assert!(!files[0].html.contains("<article>"));
    assert!(!files[0].html.contains("Blue Sky Posts"));
    assert_eq!(files[1].path, "a.html");
    assert_eq!(files[2].path, "b.html");
}

#[test]
fn later_page_with_same_slug_wins() {
    let mut site = SiteGenerator::new(Vec::new());
    let first = site.new_page(Layout::Page).title("First".to_string()).slug("same".to_string()).build().unwrap();
    let other = site.new_page(Layout::Page).title("Other".to_string()).build().unwrap();
    let second = site.new_page(Layout::Page).title("Second".to_string()).slug("same".to_string()).build().unwrap();
    site.add_page(first);
    site.add_page(other);
    site.add_page(second);
    let files = site.render_all();
    assert_eq!(files.len(), 2);
    assert_eq!(files[0].path, "same.html");
    assert!(files[0].html.contains("<title>Second</title>"));
    assert_eq!(files[1].path, "other.html");
}

#[test]
fn end_to_end_one_post_no_feed() {
    let raws = vec!["---\ntitle: \"Hello\"\ndate: \"2024-01-01\"\n---\n# Hi".to_string()];
    let docs = load_documents(&raws).unwrap();
    let feed = FeedCache::new().get_ordered_posts();
    let site = build_site(&docs, &feed, Vec::new());
    let files = site.render_all();
    let paths: Vec<&str> = files.iter().map(|f| f.path.as_str()).collect();
    assert_eq!(paths, vec!["index.html", "hello.html"]);
    assert!(files[0].html.contains("<a href='hello.html'>Hello</a> - 2024-01-01"));
    assert!(!files[0].html.contains("Blue Sky Posts"));
    assert!(files[1].html.contains("Back Home"));
    assert!(files[1].html.contains("<h1>Hi</h1>"));
}

#[test]
fn end_to_end_with_feed() {
    let raws = vec!["---\ntitle: Post\ndate: 2024-01-01\n---\ntext".to_string()];
    let docs = load_documents(&raws).unwrap();
    let mut cache = FeedCache::new();
    cache.update_posts(&vec![FeedEntry {
        is_repost: false,
        is_reply: false,
        embed_type: None,
        uri: Some("at://x".to_string()),
        handle: Some("me".to_string()),
        text: Some("a skeet".to_string()),
        created_at: Some("2024-01-01T10:00:00Z".to_string()),
        image_urls: vec![Some("https://img".to_string())],
    }]);
    let feed = cache.get_ordered_posts();
    let site = build_site(&docs, &feed, styles());
    let files = site.render_all();
    assert_eq!(files.len(), 2);
    let index = &files[0].html;
    assert!(index.contains("Blue Sky Posts"));
    assert!(index.contains("<p>a skeet</p>"));
    assert!(index.contains("<img src=\"https://img\" alt=\"Attachment\">"));
    assert!(index.find("post.html").unwrap() < index.find("a skeet").unwrap());
}

#[test]
fn load_failure_builds_nothing() {
    let raws = vec!["---\ntitle: Hello\n---\n# Hi".to_string()];
    assert!(load_documents(&raws).is_err());
}
