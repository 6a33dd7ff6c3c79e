//! Builds a static site from markdown documents with front matter and from
//! the posts of a social feed: documents are read and ordered, feed entries
//! are filtered and merged into a cache, pages are built and rendered to
//! HTML files.

pub mod text;
pub mod slug;
pub mod order;
pub mod markdown;
pub mod content;
pub mod feed;
pub mod site;
