use homebase::markdown::{Markdown, ParseError};
use homebase::slug::slugify;

#[test]
fn slugify_examples() {
    assert_eq!(slugify("Hello, World!"), "hello-world");
    assert_eq!(slugify("  --Foo--  "), "foo");
    assert_eq!(slugify(""), "");
    assert_eq!(slugify("!!!"), "");
    assert_eq!(slugify("Rust 2024: What's New?"), "rust-2024-what-s-new");
}

#[test]
fn slugify_is_idempotent() {
    for s in ["Hello, World!", "  --Foo--  ", "a--b", "ÄÖÜ x", "already-a-slug", "MiXeD 42"] {
        let once = slugify(s);
        assert_eq!(slugify(&once), once);
    }
}

#[test]
fn parse_document_with_front_matter() {
    let raw = "---\ntitle: Hello\ndate: 2024-01-01\n---\n# Hi\nSome text";
    let doc = Markdown::parse_document(raw).unwrap();
    assert_eq!(doc.front_matter.title, "Hello");
    assert_eq!(doc.front_matter.date, "2024-01-01");
    assert_eq!(doc.front_matter.slug, "hello");
    assert_eq!(doc.front_matter.series, None);
    assert_eq!(doc.content, "# Hi\nSome text");
    assert_eq!(doc.html_content, "<h1>Hi</h1>\n<p>Some text</p>\n");
}

#[test]
fn parse_document_without_opening_delimiter() {
    let raw = "title: \"Notes, part 2\"\ndate: \"2024-02-03\"\nslug: notes-2\nseries: notes\n---\nline one\n\nline two\n";
    let doc = Markdown::parse_document(raw).unwrap();
    assert_eq!(doc.front_matter.title, "Notes, part 2");
    assert_eq!(doc.front_matter.slug, "notes-2");
    assert_eq!(doc.front_matter.series.as_deref(), Some("notes"));
    assert_eq!(doc.front_matter.tags, None);
    assert_eq!(doc.html_content, "<p>line one</p>\n<p>line two</p>\n");
}

#[test]
fn parse_is_deterministic() {
    let raw = "---\ntitle: Same\ndate: 2023-05-06\n---\n## Sub\ntext";
    let a = Markdown::parse_document(raw).unwrap();
    let b = Markdown::parse_document(raw).unwrap();
    assert_eq!(a.front_matter.title, b.front_matter.title);
    assert_eq!(a.front_matter.date, b.front_matter.date);
    assert_eq!(a.front_matter.slug, b.front_matter.slug);
    assert_eq!(a.content, b.content);
    assert_eq!(a.html_content, b.html_content);
    assert_eq!(a.html_content, "<h2>Sub</h2>\n<p>text</p>\n");
}

#[test]
fn missing_date_is_invalid_front_matter() {
    let raw = "---\ntitle: Hello\n---\nbody";
    assert_eq!(Markdown::parse_document(raw).unwrap_err(), ParseError::InvalidFrontMatter);
}

#[test]
fn undecodable_front_matter_is_invalid() {
    let raw = "---\ntitle: [unclosed\ndate: 2024-01-01\n---\nbody";
    assert_eq!(Markdown::parse_document(raw).unwrap_err(), ParseError::InvalidFrontMatter);
}

#[test]
fn missing_delimiter_is_malformed() {
    let raw = "title: Hello\ndate: 2024-01-01\nbody without delimiter";
    assert_eq!(Markdown::parse_document(raw).unwrap_err(), ParseError::MalformedDocument);
    assert_eq!(Markdown::parse_document("").unwrap_err(), ParseError::MalformedDocument);
}

#[test]
fn parse_frontmatter_splits() {
    let (fm, body) = Markdown::parse_frontmatter("title: T\ndate: 2020-01-01\n---\nB").unwrap();
    assert_eq!(fm.title, "T");
    assert_eq!(body, "B");
}

#[test]
fn body_html_commonmark() {
    assert_eq!(Markdown::parse("# A\n\nplain *em*"), "<h1>A</h1>\n<p>plain <em>em</em></p>\n");
    assert_eq!(Markdown::parse("~~gone~~"), "<p><del>gone</del></p>\n");
    let table = Markdown::parse("| a | b |\n|---|---|\n| 1 | 2 |\n");
    assert!(table.starts_with("<table>"));
    assert!(table.contains("<td>1</td><td>2</td>") || table.contains("<td>1</td>"));
    assert_eq!(Markdown::parse(""), "");
}

#[test]
fn markdown_holder_reads_document() {
    let m = Markdown::new("---\ntitle: X\ndate: 2021-01-01\n---\nbody".to_string());
    let d = m.document().unwrap();
    assert_eq!(d.front_matter.slug, "x");
    assert_eq!(d.html_content, "<p>body</p>\n");
}

#[test]
fn tags_in_order() {
    let raw = "---\ntitle: Tagged\ndate: 2024-04-04\ntags: [rust, web, \"z a\"]\n---\nx";
    let doc = Markdown::parse_document(raw).unwrap();
    assert_eq!(doc.front_matter.tags, Some(vec!["rust".to_string(), "web".to_string(), "z a".to_string()]));
}

#[test]
fn tags_not_strings_are_ignored() {
    let raw = "---\ntitle: T\ndate: 2024-04-04\ntags: [1, {a: b}]\nseries: 7\n---\nx";
    let doc = Markdown::parse_document(raw).unwrap();
    assert_eq!(doc.front_matter.tags, None);
    assert_eq!(doc.front_matter.series, None);
}
