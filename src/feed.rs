use vstd::prelude::*;

use crate::order::{insert_pos, lemma_sort_by_ordered, lemma_sort_by_permutes, sort_by, strict_order};
use crate::text::{copy_string, copy_strings, opt_view, same_text, string_views};

verus! {

/// The instant that an RFC 3339 timestamp names, in milliseconds since the
/// Unix epoch, or nothing where the text is no such timestamp.
pub uninterp spec fn rfc3339_millis(s: Seq<char>) -> Option<int>;

/// Relies on chrono::DateTime::parse_from_rfc3339, read as milliseconds
/// since the Unix epoch by DateTime::timestamp_millis.
#[verifier::external_body]
fn parse_timestamp(s: &str) -> (r: Option<i64>)
    ensures
        match r {
            Some(t) => rfc3339_millis(s@) == Some(t as int),
            None => rfc3339_millis(s@) is None,
        },
{
    chrono::DateTime::parse_from_rfc3339(s).ok().map(|d| d.timestamp_millis())
}

/// The embed type of a post that quotes another post.
pub open spec fn quote_embed() -> Seq<char> {
    "app.bsky.embed.record"@
}

/// One entry of an author feed as it came from the feed service, reduced to
/// the fields that decide whether and how it is kept.
#[derive(Debug, Clone)]
pub struct FeedEntry {
    /// The entry carries a reason: it is a repost.
    pub is_repost: bool,
    /// The post's record answers another post.
    pub is_reply: bool,
    /// The `$type` of the post's embed, if it has one.
    pub embed_type: Option<String>,
    pub uri: Option<String>,
    pub handle: Option<String>,
    pub text: Option<String>,
    pub created_at: Option<String>,
    /// The full-size URL of each image of the embed, in the embed's order,
    /// where the image has one.
    pub image_urls: Vec<Option<String>>,
}

pub struct FeedEntryView {
    pub is_repost: bool,
    pub is_reply: bool,
    pub embed_type: Option<Seq<char>>,
    pub uri: Option<Seq<char>>,
    pub handle: Option<Seq<char>>,
    pub text: Option<Seq<char>>,
    pub created_at: Option<Seq<char>>,
    pub image_urls: Seq<Option<Seq<char>>>,
}

impl View for FeedEntry {
    type V = FeedEntryView;

    open spec fn view(&self) -> FeedEntryView {
        FeedEntryView {
            is_repost: self.is_repost,
            is_reply: self.is_reply,
            embed_type: opt_view(self.embed_type),
            uri: opt_view(self.uri),
            handle: opt_view(self.handle),
            text: opt_view(self.text),
            created_at: opt_view(self.created_at),
            image_urls: self.image_urls@.map_values(|o: Option<String>| opt_view(o)),
        }
    }
}

/// A post of the feed, kept for display.
#[derive(Debug, Clone)]
pub struct FeedPost {
    pub handle: String,
    pub text: String,
    /// Milliseconds since the Unix epoch.
    pub created_at: i64,
    pub uri: String,
    pub attachments: Vec<String>,
}

pub struct FeedPostView {
    pub handle: Seq<char>,
    pub text: Seq<char>,
    pub created_at: int,
    pub uri: Seq<char>,
    pub attachments: Seq<Seq<char>>,
}

impl View for FeedPost {
    type V = FeedPostView;

    open spec fn view(&self) -> FeedPostView {
        FeedPostView {
            handle: self.handle@,
            text: self.text@,
            created_at: self.created_at as int,
            uri: self.uri@,
            attachments: string_views(self.attachments@),
        }
    }
}

/// The URLs that are there, in order.
pub open spec fn present_urls(urls: Seq<Option<Seq<char>>>) -> Seq<Seq<char>>
    decreases urls.len(),
{
    if urls.len() == 0 {
        Seq::empty()
    } else {
        let prev = present_urls(urls.drop_last());
        match urls.last() {
            Some(u) => prev.push(u),
            None => prev,
        }
    }
}

/// The entry is a repost, a reply, or quotes another post.
pub open spec fn is_excluded(e: FeedEntryView) -> bool {
    e.is_repost || e.is_reply || e.embed_type == Some(quote_embed())
}

/// The post that an entry gives: none for a repost, a reply or a quote, nor
/// where a field is missing or the creation time is no timestamp.
pub open spec fn entry_post(e: FeedEntryView) -> Option<FeedPostView> {
    if is_excluded(e) {
        None
    } else if e.uri is None || e.handle is None || e.text is None || e.created_at is None {
        None
    } else {
        match rfc3339_millis(e.created_at->Some_0) {
            None => None,
            Some(t) => Some(
                FeedPostView {
                    handle: e.handle->Some_0,
                    text: e.text->Some_0,
                    created_at: t,
                    uri: e.uri->Some_0,
                    attachments: present_urls(e.image_urls),
                },
            ),
        }
    }
}

/// The posts that a run of entries gives, in the entries' order.
pub open spec fn entries_posts(es: Seq<FeedEntryView>) -> Seq<FeedPostView>
    decreases es.len(),
{
    if es.len() == 0 {
        Seq::empty()
    } else {
        let prev = entries_posts(es.drop_last());
        match entry_post(es.last()) {
            Some(p) => prev.push(p),
            None => prev,
        }
    }
}

pub open spec fn has_uri(posts: Seq<FeedPostView>, uri: Seq<char>) -> bool {
    exists|i: int| 0 <= i < posts.len() && (#[trigger] posts[i]).uri == uri
}

/// No two posts share a URI.
pub open spec fn uris_unique(posts: Seq<FeedPostView>) -> bool {
    forall|i: int, j: int|
        0 <= i < posts.len() && 0 <= j < posts.len() && i != j ==> (#[trigger] posts[i]).uri
            != (#[trigger] posts[j]).uri
}

/// The cache after new posts came: a post whose URI is already there is
/// dropped, the first one seen stays.
pub open spec fn merged(cache: Seq<FeedPostView>, posts: Seq<FeedPostView>) -> Seq<FeedPostView>
    decreases posts.len(),
{
    if posts.len() == 0 {
        cache
    } else {
        let prev = merged(cache, posts.drop_last());
        if has_uri(prev, posts.last().uri) {
            prev
        } else {
            prev.push(posts.last())
        }
    }
}

pub open spec fn post_views(v: Seq<FeedPost>) -> Seq<FeedPostView> {
    v.map_values(|p: FeedPost| p@)
}

pub open spec fn entry_views(v: Seq<FeedEntry>) -> Seq<FeedEntryView> {
    v.map_values(|e: FeedEntry| e@)
}

/// Newest first.
pub open spec fn newest_first(posts: Seq<FeedPostView>) -> bool {
    forall|i: int, j: int|
        0 <= i < j < posts.len() ==> (#[trigger] posts[i]).created_at >= (#[trigger] posts[j]).created_at
}

/// A reply never becomes a post.
pub proof fn lemma_reply_excluded(e: FeedEntryView)
    requires
        e.is_reply,
    ensures
        entry_post(e) is None,
{
}

/// The attachments of a kept post are the entry's image URLs, in the
/// entry's order.
pub proof fn lemma_attachments_in_order(e: FeedEntryView)
    requires
        entry_post(e) is Some,
    ensures
        entry_post(e)->Some_0.attachments == present_urls(e.image_urls),
{
}

/// Merging never changes or moves an entry that the cache holds: the first
/// post seen under a URI stays as it was.
pub proof fn lemma_merge_keeps_existing(cache: Seq<FeedPostView>, posts: Seq<FeedPostView>)
    ensures
        merged(cache, posts).len() >= cache.len(),
        merged(cache, posts).subrange(0, cache.len() as int) == cache,
    decreases posts.len(),
{
    if posts.len() > 0 {
        lemma_merge_keeps_existing(cache, posts.drop_last());
        let prev = merged(cache, posts.drop_last());
        assert(prev.push(posts.last()).subrange(0, cache.len() as int) =~= prev.subrange(
            0,
            cache.len() as int,
        ));
    }
}

/// Merging a post whose URI the cache already holds changes nothing.
pub proof fn lemma_merge_known_uri(cache: Seq<FeedPostView>, p: FeedPostView)
    requires
        has_uri(cache, p.uri),
    ensures
        merged(cache, seq![p]) == cache,
{
    assert(seq![p].drop_last() =~= Seq::<FeedPostView>::empty());
    assert(merged(cache, seq![p].drop_last()) == cache);
}

/// Merging keeps the URIs of the cache unique.
pub proof fn lemma_merge_unique(cache: Seq<FeedPostView>, posts: Seq<FeedPostView>)
    requires
        uris_unique(cache),
    ensures
        uris_unique(merged(cache, posts)),
    decreases posts.len(),
{
    if posts.len() > 0 {
        lemma_merge_unique(cache, posts.drop_last());
        let prev = merged(cache, posts.drop_last());
        let p = posts.last();
        if !has_uri(prev, p.uri) {
            let next = prev.push(p);
            assert forall|i: int, j: int|
                0 <= i < next.len() && 0 <= j < next.len() && i != j implies (#[trigger] next[i]).uri
                != (#[trigger] next[j]).uri by {
                if i == prev.len() {
                    assert(prev[j].uri != p.uri);
                } else if j == prev.len() {
                    assert(prev[i].uri != p.uri);
                }
            }
        }
    }
}

impl FeedPost {
    /// A copy of this post.
    pub fn copy(&self) -> (r: FeedPost)
        ensures
            r@ == self@,
    {
        FeedPost {
            handle: copy_string(&self.handle),
            text: copy_string(&self.text),
            created_at: self.created_at,
            uri: copy_string(&self.uri),
            attachments: copy_strings(&self.attachments),
        }
    }
}

/// The URLs of `urls` that are there, in order.
fn collect_urls(urls: &Vec<Option<String>>) -> (r: Vec<String>)
    ensures
        string_views(r@) == present_urls(urls@.map_values(|o: Option<String>| opt_view(o))),
{
    let ghost all = urls@.map_values(|o: Option<String>| opt_view(o));
    let mut out: Vec<String> = Vec::new();
    let mut i: usize = 0;
    assert(all.subrange(0, 0) =~= Seq::<Option<Seq<char>>>::empty());
    while i < urls.len()
        invariant
            i <= urls@.len(),
            all == urls@.map_values(|o: Option<String>| opt_view(o)),
            string_views(out@) == present_urls(all.subrange(0, i as int)),
        decreases urls@.len() - i,
    {
        assert(all.subrange(0, i + 1).drop_last() =~= all.subrange(0, i as int));
        match &urls[i] {
            Some(u) => {
                out.push(copy_string(u));
            },
            None => {},
        }
        i = i + 1;
        assert(string_views(out@) =~= present_urls(all.subrange(0, i as int)));
    }
    assert(all.subrange(0, i as int) =~= all);
    out
}

/// The post that one feed entry gives, if it is kept.
pub fn normalize_entry(e: &FeedEntry) -> (r: Option<FeedPost>)
    ensures
        match r {
            Some(p) => entry_post(e@) == Some(p@),
            None => entry_post(e@) is None,
        },
{
    if e.is_repost || e.is_reply {
        return None;
    }
    match &e.embed_type {
        Some(t) => {
            if same_text(t.as_str(), "app.bsky.embed.record") {
                return None;
            }
        },
        None => {},
    }
    let (uri, handle, text, created_at) = match (&e.uri, &e.handle, &e.text, &e.created_at) {
        (Some(u), Some(h), Some(t), Some(c)) => (u, h, t, c),
        _ => {
            return None;
        },
    };
    let millis = match parse_timestamp(created_at.as_str()) {
        Some(m) => m,
        None => {
            return None;
        },
    };
    Some(
        FeedPost {
            handle: copy_string(handle),
            text: copy_string(text),
            created_at: millis,
            uri: copy_string(uri),
            attachments: collect_urls(&e.image_urls),
        },
    )
}

/// The posts that `entries` give, in their order.
pub fn normalize_entries(entries: &Vec<FeedEntry>) -> (r: Vec<FeedPost>)
    ensures
        post_views(r@) == entries_posts(entry_views(entries@)),
{
    let ghost es = entry_views(entries@);
    let mut out: Vec<FeedPost> = Vec::new();
    let mut i: usize = 0;
    assert(es.subrange(0, 0) =~= Seq::<FeedEntryView>::empty());
    while i < entries.len()
        invariant
            i <= entries@.len(),
            es == entry_views(entries@),
            post_views(out@) == entries_posts(es.subrange(0, i as int)),
        decreases entries@.len() - i,
    {
        assert(es.subrange(0, i + 1).drop_last() =~= es.subrange(0, i as int));
        match normalize_entry(&entries[i]) {
            Some(p) => {
                out.push(p);
            },
            None => {},
        }
        i = i + 1;
        assert(post_views(out@) =~= entries_posts(es.subrange(0, i as int)));
    }
    assert(es.subrange(0, i as int) =~= es);
    out
}

/// A post comes before another when it was created later.
pub open spec fn newer_than() -> spec_fn(FeedPostView, FeedPostView) -> bool {
    |a: FeedPostView, b: FeedPostView| a.created_at > b.created_at
}

/// The HTML of the images of a post, one after the other.
pub open spec fn images_html(urls: Seq<Seq<char>>) -> Seq<char>
    decreases urls.len(),
{
    if urls.len() == 0 {
        Seq::empty()
    } else {
        images_html(urls.drop_last()) + "<img src=\""@ + urls.last() + "\" alt=\"Attachment\">"@
    }
}

/// The HTML of one post: its text, its images if it has any, its author.
pub open spec fn post_html(p: FeedPostView) -> Seq<char> {
    "<article><div><p>"@ + p.text + "</p>"@ + (if p.attachments.len() > 0 {
        "<div class=\"attachments\">"@ + images_html(p.attachments) + "</div>"@
    } else {
        Seq::empty()
    }) + "</div><p>@"@ + p.handle + "</p></article>"@
}

/// The HTML of posts in the order given, a blank line between each two.
pub open spec fn posts_html(ps: Seq<FeedPostView>) -> Seq<char>
    decreases ps.len(),
{
    if ps.len() == 0 {
        Seq::empty()
    } else if ps.len() == 1 {
        post_html(ps[0])
    } else {
        posts_html(ps.drop_last()) + "\n\n"@ + post_html(ps.last())
    }
}

/// The posts in display order are those of the cache, each as often as it
/// is there, newest first.
pub proof fn lemma_ordered_posts(cache: Seq<FeedPostView>)
    ensures
        newest_first(sort_by(cache, newer_than())),
        sort_by(cache, newer_than()).to_multiset() == cache.to_multiset(),
{
    let lt = newer_than();
    assert(strict_order(lt));
    lemma_sort_by_ordered(cache, lt);
    lemma_sort_by_permutes(cache, lt);
    let s = sort_by(cache, lt);
    assert forall|i: int, j: int| 0 <= i < j < s.len() implies (#[trigger] s[i]).created_at
        >= (#[trigger] s[j]).created_at by {
        assert(!lt(s[j], s[i]));
    }
}

/// Whether a post of `posts` has the URI `uri`.
fn contains_uri(posts: &Vec<FeedPost>, uri: &String) -> (r: bool)
    ensures
        r == has_uri(post_views(posts@), uri@),
{
    let mut i: usize = 0;
    while i < posts.len()
        invariant
            i <= posts@.len(),
            forall|k: int| 0 <= k < i ==> (#[trigger] posts@[k]).uri@ != uri@,
        decreases posts@.len() - i,
    {
        if same_text(posts[i].uri.as_str(), uri.as_str()) {
            assert(post_views(posts@)[i as int].uri == uri@);
            return true;
        }
        i = i + 1;
    }
    assert forall|k: int| 0 <= k < post_views(posts@).len() implies (#[trigger] post_views(
        posts@,
    )[k]).uri != uri@ by {
        assert(posts@[k].uri@ != uri@);
    }
    false
}

/// Appends the HTML of one post to `out`.
fn push_post_html(out: &mut String, p: &FeedPost)
    ensures
        final(out)@ == old(out)@ + post_html(p@),
{
    out.append("<article><div><p>");
    out.append(p.text.as_str());
    out.append("</p>");
    let ghost mid = out@;
    if p.attachments.len() > 0 {
        out.append("<div class=\"attachments\">");
        let ghost start = out@;
        let mut i: usize = 0;
        assert(string_views(p.attachments@).subrange(0, 0) =~= Seq::<Seq<char>>::empty());
        while i < p.attachments.len()
            invariant
                i <= p.attachments@.len(),
                out@ == start + images_html(string_views(p.attachments@).subrange(0, i as int)),
            decreases p.attachments@.len() - i,
        {
            out.append("<img src=\"");
            out.append(p.attachments[i].as_str());
            out.append("\" alt=\"Attachment\">");
            let ghost urls = string_views(p.attachments@).subrange(0, i + 1);
            assert(urls.drop_last() =~= string_views(p.attachments@).subrange(0, i as int));
            assert(urls.last() == p.attachments@[i as int]@);
            i = i + 1;
        }
        assert(string_views(p.attachments@).subrange(0, i as int) =~= string_views(
            p.attachments@,
        ));
        out.append("</div>");
    }
    out.append("</div><p>@");
    out.append(p.handle.as_str());
    out.append("</p></article>");
    assert(final(out)@ =~= old(out)@ + post_html(p@));
}

/// The HTML of `posts` in the order given, a blank line between each two.
pub fn render_feed(posts: &Vec<FeedPost>) -> (r: String)
    ensures
        r@ == posts_html(post_views(posts@)),
{
    let ghost ps = post_views(posts@);
    let mut out = String::new();
    let mut i: usize = 0;
    assert(ps.subrange(0, 0) =~= Seq::<FeedPostView>::empty());
    while i < posts.len()
        invariant
            i <= posts@.len(),
            ps == post_views(posts@),
            out@ == posts_html(ps.subrange(0, i as int)),
        decreases posts@.len() - i,
    {
        if i > 0 {
            out.append("\n\n");
        }
        push_post_html(&mut out, &posts[i]);
        assert(ps.subrange(0, i + 1).drop_last() =~= ps.subrange(0, i as int));
        i = i + 1;
    }
    assert(ps.subrange(0, i as int) =~= ps);
    out
}

/// The posts of the author feed seen so far, at most one under each URI, in
/// the order in which they were first seen.
pub struct FeedCache {
    posts: Vec<FeedPost>,
}

impl View for FeedCache {
    type V = Seq<FeedPostView>;

    closed spec fn view(&self) -> Seq<FeedPostView> {
        post_views(self.posts@)
    }
}

impl FeedCache {
    /// No two posts share a URI.
    pub open spec fn well_formed(&self) -> bool {
        uris_unique(self@)
    }

    pub fn new() -> (r: FeedCache)
        ensures
            r@ == Seq::<FeedPostView>::empty(),
            r.well_formed(),
    {
        let r = FeedCache { posts: Vec::new() };
        assert(r@ =~= Seq::<FeedPostView>::empty());
        r
    }

    /// The number of posts held.
    pub fn len(&self) -> (r: usize)
        ensures
            r == self@.len(),
    {
        self.posts.len()
    }

    /// Takes in the posts that `entries` give; a post whose URI is already
    /// held is dropped, so the first one seen stays.
    pub fn update_posts(&mut self, entries: &Vec<FeedEntry>)
        requires
            old(self).well_formed(),
        ensures
            final(self).well_formed(),
            final(self)@ == merged(old(self)@, entries_posts(entry_views(entries@))),
    {
        let fresh = normalize_entries(entries);
        let ghost start = self@;
        let ghost ps = post_views(fresh@);
        let mut i: usize = 0;
        assert(ps.subrange(0, 0) =~= Seq::<FeedPostView>::empty());
        while i < fresh.len()
            invariant
                i <= fresh@.len(),
                ps == post_views(fresh@),
                self@ == merged(start, ps.subrange(0, i as int)),
            decreases fresh@.len() - i,
        {
            assert(ps.subrange(0, i + 1).drop_last() =~= ps.subrange(0, i as int));
            let p = fresh[i].copy();
            if !contains_uri(&self.posts, &p.uri) {
                self.posts.push(p);
                assert(self@ =~= merged(start, ps.subrange(0, i as int)).push(p@));
            }
            i = i + 1;
        }
        assert(ps.subrange(0, i as int) =~= ps);
        proof {
            lemma_merge_unique(start, ps);
        }
    }

    /// The posts held, newest first; posts made at the same instant keep the
    /// order in which they were first seen.
    pub fn get_ordered_posts(&self) -> (r: Vec<FeedPost>)
        ensures
            post_views(r@) == sort_by(self@, newer_than()),
    {
        let ghost cache = self@;
        let ghost lt = newer_than();
        let mut out: Vec<FeedPost> = Vec::new();
        let mut i: usize = 0;
        assert(cache.take(0) =~= Seq::<FeedPostView>::empty());
        while i < self.posts.len()
            invariant
                i <= self.posts@.len(),
                cache == post_views(self.posts@),
                lt == newer_than(),
                post_views(out@) == sort_by(cache.take(i as int), lt),
            decreases self.posts@.len() - i,
        {
            let x = self.posts[i].copy();
            let ghost sorted = post_views(out@);
            let mut k: usize = 0;
            while k < out.len() && !(x.created_at > out[k].created_at)
                invariant
                    k <= out@.len(),
                    sorted == post_views(out@),
                    lt == newer_than(),
                    insert_pos(sorted, x@, lt, 0) == insert_pos(sorted, x@, lt, k as int),
                decreases out@.len() - k,
            {
                assert(sorted[k as int] == out@[k as int]@);
                assert(!lt(x@, sorted[k as int]));
                k = k + 1;
            }
            out.insert(k, x);
            assert(cache.take(i + 1).drop_last() =~= cache.take(i as int));
            assert(post_views(out@) =~= sorted.insert(k as int, x@));
            i = i + 1;
        }
        assert(cache.take(i as int) =~= cache);
        out
    }

    /// The HTML of the posts held, newest first.
    pub fn render_posts(&self) -> (r: String)
        ensures
            r@ == posts_html(sort_by(self@, newer_than())),
    {
        let posts = self.get_ordered_posts();
        render_feed(&posts)
    }
}

} // verus!
