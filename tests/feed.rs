use homebase::feed::{normalize_entries, normalize_entry, render_feed, FeedCache, FeedEntry};

fn entry(uri: &str, text: &str, created_at: &str) -> FeedEntry {
    FeedEntry {
        is_repost: false,
        is_reply: false,
        embed_type: None,
        uri: Some(uri.to_string()),
        handle: Some("someone.example".to_string()),
        text: Some(text.to_string()),
        created_at: Some(created_at.to_string()),
        image_urls: Vec::new(),
    }
}

#[test]
fn plain_entry_is_kept() {
    let p = normalize_entry(&entry("at://1", "hello", "2024-01-01T00:00:00Z")).unwrap();
    assert_eq!(p.uri, "at://1");
    assert_eq!(p.text, "hello");
    assert_eq!(p.handle, "someone.example");
    assert_eq!(p.created_at, 1_704_067_200_000);
    assert!(p.attachments.is_empty());
}

#[test]
fn timestamp_with_offset() {
    let p = normalize_entry(&entry("at://1", "x", "2024-01-01T01:00:00.500+01:00")).unwrap();
    assert_eq!(p.created_at, 1_704_067_200_500);
}

#[test]
fn reply_is_excluded() {
    let mut e = entry("at://1", "re", "2024-01-01T00:00:00Z");
    e.is_reply = true;
    assert!(normalize_entry(&e).is_none());
}

#[test]
fn repost_is_excluded() {
    let mut e = entry("at://1", "rp", "2024-01-01T00:00:00Z");
    e.is_repost = true;
    assert!(normalize_entry(&e).is_none());
}

#[test]
fn quote_is_excluded() {
    let mut e = entry("at://1", "q", "2024-01-01T00:00:00Z");
    e.embed_type = Some("app.bsky.embed.record".to_string());
    assert!(normalize_entry(&e).is_none());
    e.embed_type = Some("app.bsky.embed.images".to_string());
    assert!(normalize_entry(&e).is_some());
}

#[test]
fn bad_or_missing_timestamp_is_dropped() {
    assert!(normalize_entry(&entry("at://1", "t", "yesterday")).is_none());
    let mut e = entry("at://1", "t", "2024-01-01T00:00:00Z");
    e.created_at = None;
    assert!(normalize_entry(&e).is_none());
    let mut e = entry("at://1", "t", "2024-01-01T00:00:00Z");
    e.text = None;
    assert!(normalize_entry(&e).is_none());
}

#[test]
fn image_urls_kept_in_order() {
    let mut e = entry("at://1", "pics", "2024-01-01T00:00:00Z");
    e.embed_type = Some("app.bsky.embed.images#view".to_string());
    e.image_urls = vec![Some("https://img/1".to_string()), None, Some("https://img/2".to_string())];
    let p = normalize_entry(&e).unwrap();
    assert_eq!(p.attachments, vec!["https://img/1".to_string(), "https://img/2".to_string()]);
}

#[test]
fn normalize_keeps_order_and_drops() {
    let mut reply = entry("at://2", "r", "2024-01-02T00:00:00Z");
    reply.is_reply = true;
    let es = vec![entry("at://1", "a", "2024-01-01T00:00:00Z"), reply, entry("at://3", "c", "2024-01-03T00:00:00Z")];
    let ps = normalize_entries(&es);
    let uris: Vec<&str> = ps.iter().map(|p| p.uri.as_str()).collect();
    assert_eq!(uris, vec!["at://1", "at://3"]);
}

#[test]
fn first_seen_wins() {
    let mut cache = FeedCache::new();
    cache.update_posts(&vec![entry("at://1", "first", "2024-01-01T00:00:00Z")]);
    cache.update_posts(&vec![entry("at://1", "second", "2024-02-01T00:00:00Z")]);
    cache.update_posts(&vec![entry("at://1", "first", "2024-01-01T00:00:00Z")]);
    assert_eq!(cache.len(), 1);
    let ps = cache.get_ordered_posts();
    assert_eq!(ps[0].text, "first");
    assert_eq!(ps[0].created_at, 1_704_067_200_000);
}

#[test]
fn duplicates_within_one_batch() {
    let mut cache = FeedCache::new();
    cache.update_posts(&vec![
        entry("at://1", "one", "2024-01-01T00:00:00Z"),
        entry("at://1", "again", "2024-01-05T00:00:00Z"),
        entry("at://2", "two", "2024-01-02T00:00:00Z"),
    ]);
    assert_eq!(cache.len(), 2);
}

#[test]
fn ordered_newest_first() {
    let mut cache = FeedCache::new();
    cache.update_posts(&vec![
        entry("at://a", "mid", "2024-03-01T00:00:00Z"),
        entry("at://b", "old", "2023-01-01T00:00:00Z"),
        entry("at://c", "new", "2025-01-01T00:00:00Z"),
        entry("at://d", "mid too", "2024-03-01T00:00:00Z"),
    ]);
    let texts: Vec<String> = cache.get_ordered_posts().into_iter().map(|p| p.text).collect();
    assert_eq!(texts, vec!["new", "mid", "mid too", "old"]);
}

#[test]
fn render_posts_markup() {
    let mut cache = FeedCache::new();
    let mut e = entry("at://1", "pic", "2024-01-02T00:00:00Z");
    e.image_urls = vec![Some("u1".to_string()), Some("u2".to_string())];
    cache.update_posts(&vec![entry("at://0", "plain", "2024-01-01T00:00:00Z"), e]);
    assert_eq!(
        cache.render_posts(),
        "<article><div><p>pic</p><div class=\"attachments\"><img src=\"u1\" alt=\"Attachment\"><img src=\"u2\" alt=\"Attachment\"></div></div><p>@someone.example</p></article>\n\n<article><div><p>plain</p></div><p>@someone.example</p></article>"
    );
}

#[test]
fn render_empty_feed() {
    assert_eq!(render_feed(&Vec::new()), "");
    assert_eq!(FeedCache::new().render_posts(), "");
}
