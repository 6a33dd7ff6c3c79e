use homebase::content::{load_documents, ContentSources, Content, PostsCollection};
use homebase::markdown::ParseError;

fn doc(title: &str, date: &str) -> String {
    format!("---\ntitle: {}\ndate: \"{}\"\n---\nbody of {}", title, date, title)
}

#[test]
fn loaded_documents_latest_first() {
    let raws = vec![doc("Old", "2024-01-01"), doc("New", "2024-06-01")];
    let docs = load_documents(&raws).unwrap();
    assert_eq!(docs.len(), 2);
    assert_eq!(docs[0].front_matter.date, "2024-06-01");
    assert_eq!(docs[1].front_matter.date, "2024-01-01");
}

#[test]
fn same_date_ordered_by_slug() {
    let raws = vec![doc("Zeta", "2024-03-03"), doc("Alpha", "2024-03-03"), doc("Mid", "2023-12-31")];
    let docs = load_documents(&raws).unwrap();
    let slugs: Vec<&str> = docs.iter().map(|d| d.front_matter.slug.as_str()).collect();
    assert_eq!(slugs, vec!["alpha", "zeta", "mid"]);
}

#[test]
fn load_fails_on_missing_date() {
    let raws = vec![doc("Good", "2024-01-01"), "---\ntitle: Bad\n---\nbody".to_string()];
    assert_eq!(load_documents(&raws).unwrap_err(), ParseError::InvalidFrontMatter);
}

#[test]
fn load_of_nothing_is_empty() {
    assert!(load_documents(&Vec::new()).unwrap().is_empty());
}

#[test]
fn posts_collection_sorts() {
    let raws = vec![doc("A", "2020-01-01"), doc("B", "2022-01-01"), doc("C", "2021-01-01")];
    let c = PostsCollection::new(&raws).unwrap();
    let titles: Vec<String> = c.posts().iter().map(|d| d.front_matter.title.clone()).collect();
    assert_eq!(titles, vec!["B", "C", "A"]);
}

#[test]
fn posts_collection_error_leaves_nothing() {
    let raws = vec!["no delimiter".to_string()];
    assert_eq!(PostsCollection::new(&raws).err(), Some(ParseError::MalformedDocument));
}

#[test]
fn content_sources_posts_dir() {
    let s = ContentSources::new("content/posts".to_string());
    assert_eq!(s.posts().src(), "content/posts");
}
