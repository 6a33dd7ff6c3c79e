use vstd::prelude::*;

use crate::content::doc_views;
use crate::feed::{post_views, posts_html, render_feed, FeedPost, FeedPostView};
use crate::markdown::{DocumentView, ParsedMarkdown};
use crate::slug::{slug_of, slugify};
use crate::text::{copy_string, join_lines, opt_view, push_char, same_text, string_views};

verus! {

/// What `s` becomes with the indentation that its lines after the first
/// share taken away, and a first line break dropped.
pub uninterp spec fn unindented(s: Seq<char>) -> Seq<char>;

/// Relies on unindent::unindent, which removes the spaces that all lines
/// after the first share and depends on the text alone.
#[verifier::external_body]
fn unindent_text(s: &str) -> (r: String)
    ensures
        r@ == unindented(s@),
{
    unindent::unindent(s)
}

/// The title of an index page that was given none.
pub const SITE_GREETING: &'static str = "hey ✌🏽";

pub const HEAD_OPEN: &'static str = "\n                <meta charset=\"UTF-8\">\n                <meta name=\"viewport\" content=\"width=device-width, initial-scale=1.0\">\n                <link rel=\"icon\" href=\"data:image/svg+xml,<svg xmlns=%22http://www.w3.org/2000/svg%22 viewBox=%220 0 100 100%22><text y=%22.9em%22 font-size=%2295%22>✌️</text></svg>\">\n                <title>";
pub const HEAD_MID: &'static str = "</title>\n                ";
pub const HEAD_CLOSE: &'static str = "\n            ";

pub const CONTAINER_OPEN: &'static str = "\n                <div class=\"container\">\n                    ";
pub const CONTAINER_CLOSE: &'static str = "\n                </div>\n            ";

pub const BASE_OPEN: &'static str = "\n                <!DOCTYPE html>\n                <html lang=\"en\">\n                <head>\n                    ";
pub const BASE_MID: &'static str = "\n                </head>\n                <body>\n                    ";
pub const BASE_CLOSE: &'static str = "\n                </body>\n                </html>\n            ";

pub const INDEX_OPEN: &'static str = "\n            <h1 class=\"headline-blue\">";
pub const INDEX_MID: &'static str = "</h1>\n            <ul>\n                ";
pub const INDEX_CLOSE: &'static str = "\n            </ul>\n            ";

pub const ARTICLE_OPEN: &'static str = "\n                <a href=\"index.html\">&larr; Back Home</a>\n                <article>\n                    <h1>";
pub const ARTICLE_MID: &'static str = "</h1>\n                    ";
pub const ARTICLE_CLOSE: &'static str = "\n                </article>\n            ";

/// The template shape of a page.
#[derive(Debug, Clone, Copy, PartialEq, Eq, Structural)]
pub enum Layout {
    /// The listing of all pages and of the feed.
    Index,
    /// One article.
    Page,
}

/// Why a page could not be built.
#[derive(Debug, Clone, Copy, PartialEq, Eq, Structural)]
pub enum BuildError {
    /// An article page was never given a title.
    MissingTitle,
}

#[derive(Debug, Clone)]
pub struct LayoutProperties {
    pub title: String,
    pub slug: String,
}

/// A page ready to be rendered.
#[derive(Debug, Clone)]
pub struct Page {
    pub layout: Layout,
    pub properties: LayoutProperties,
    pub content: String,
}

pub struct PageView {
    pub layout: Layout,
    pub title: Seq<char>,
    pub slug: Seq<char>,
    pub content: Seq<char>,
}

impl View for Page {
    type V = PageView;

    open spec fn view(&self) -> PageView {
        PageView {
            layout: self.layout,
            title: self.properties.title@,
            slug: self.properties.slug@,
            content: self.content@,
        }
    }
}

pub open spec fn page_views(v: Seq<Page>) -> Seq<PageView> {
    v.map_values(|p: Page| p@)
}

/// Collects the parts of a page: a title and a slug, each set at most
/// once in effect, and content fragments in order.
#[derive(Debug, Clone)]
pub struct PageBuilder {
    layout: Layout,
    title: Option<String>,
    slug: Option<String>,
    content: Vec<String>,
}

pub struct PageBuilderView {
    pub layout: Layout,
    pub title: Option<Seq<char>>,
    pub slug: Option<Seq<char>>,
    pub content: Seq<Seq<char>>,
}

impl View for PageBuilder {
    type V = PageBuilderView;

    closed spec fn view(&self) -> PageBuilderView {
        PageBuilderView {
            layout: self.layout,
            title: opt_view(self.title),
            slug: opt_view(self.slug),
            content: string_views(self.content@),
        }
    }
}

/// The page that a builder gives: an index page without a title takes the
/// site greeting, an article page without one fails; a page without a slug
/// takes the slug of its title; the fragments are joined by line breaks.
pub open spec fn built_page(b: PageBuilderView) -> Result<PageView, BuildError> {
    if b.title is None && b.layout == Layout::Page {
        Err(BuildError::MissingTitle)
    } else {
        let title = match b.title {
            Some(t) => t,
            None => SITE_GREETING@,
        };
        Ok(
            PageView {
                layout: b.layout,
                title: title,
                slug: match b.slug {
                    Some(s) => s,
                    None => slug_of(title),
                },
                content: join_lines(b.content),
            },
        )
    }
}

/// The fragments `frags`, with a line break between each two.
fn join_fragments(frags: &Vec<String>) -> (r: String)
    ensures
        r@ == join_lines(string_views(frags@)),
{
    let ghost fs = string_views(frags@);
    let mut s = String::new();
    let mut k: usize = 0;
    assert(fs.subrange(0, 0) =~= Seq::<Seq<char>>::empty());
    while k < frags.len()
        invariant
            k <= frags@.len(),
            fs == string_views(frags@),
            s@ == join_lines(fs.subrange(0, k as int)),
        decreases frags@.len() - k,
    {
        if k > 0 {
            push_char(&mut s, '\n');
        }
        s.append(frags[k].as_str());
        assert(fs.subrange(0, k + 1).drop_last() =~= fs.subrange(0, k as int));
        k = k + 1;
    }
    assert(fs.subrange(0, k as int) =~= fs);
    s
}

impl PageBuilder {
    pub fn new(layout: Layout) -> (r: PageBuilder)
        ensures
            r@ == (PageBuilderView {
                layout: layout,
                title: None,
                slug: None,
                content: Seq::empty(),
            }),
    {
        let r = PageBuilder { layout, title: None, slug: None, content: Vec::new() };
        assert(r@.content =~= Seq::<Seq<char>>::empty());
        r
    }

    /// Sets the title; a later call replaces an earlier one.
    pub fn title(self, title: String) -> (r: PageBuilder)
        ensures
            r@ == (PageBuilderView { title: Some(title@), ..self@ }),
    {
        PageBuilder { title: Some(title), ..self }
    }

    /// Sets the slug; a later call replaces an earlier one.
    pub fn slug(self, slug: String) -> (r: PageBuilder)
        ensures
            r@ == (PageBuilderView { slug: Some(slug@), ..self@ }),
    {
        PageBuilder { slug: Some(slug), ..self }
    }

    /// Adds one content fragment at the end.
    pub fn child(self, content: String) -> (r: PageBuilder)
        ensures
            r@ == (PageBuilderView { content: self@.content.push(content@), ..self@ }),
    {
        let mut b = self;
        let ghost before = b@;
        b.content.push(content);
        assert(b@.content =~= before.content.push(content@));
        b
    }

    /// Adds content fragments at the end, in order.
    pub fn children(self, content: Vec<String>) -> (r: PageBuilder)
        ensures
            r@ == (PageBuilderView { content: self@.content + string_views(content@), ..self@ }),
    {
        let mut b = self;
        let ghost before = b@;
        let mut more = content;
        b.content.append(&mut more);
        assert(b@.content =~= before.content + string_views(content@));
        b
    }

    /// The page collected.
    pub fn build(self) -> (r: Result<Page, BuildError>)
        ensures
            match r {
                Ok(p) => built_page(self@) == Ok::<PageView, BuildError>(p@),
                Err(e) => built_page(self@) == Err::<PageView, BuildError>(e),
            },
    {
        let ghost v = self@;
        let title = match self.title {
            Some(t) => t,
            None => match self.layout {
                Layout::Index => String::from_str(SITE_GREETING),
                Layout::Page => {
                    return Err(BuildError::MissingTitle);
                },
            },
        };
        let slug = match self.slug {
            Some(s) => s,
            None => slugify(title.as_str()),
        };
        let content = join_fragments(&self.content);
        Ok(Page { layout: self.layout, properties: LayoutProperties { title, slug }, content })
    }
}

/// The stylesheet links of the page head, in the order given.
pub open spec fn links_html(styles: Seq<Seq<char>>) -> Seq<char>
    decreases styles.len(),
{
    if styles.len() == 0 {
        Seq::empty()
    } else {
        links_html(styles.drop_last()) + "<link rel=\"stylesheet\" href=\""@ + styles.last()
            + "\">"@
    }
}

pub open spec fn head_raw(title: Seq<char>, links: Seq<char>) -> Seq<char> {
    HEAD_OPEN@ + title + HEAD_MID@ + links + HEAD_CLOSE@
}

pub open spec fn container_raw(content: Seq<char>) -> Seq<char> {
    CONTAINER_OPEN@ + content + CONTAINER_CLOSE@
}

pub open spec fn base_raw(head: Seq<char>, content: Seq<char>) -> Seq<char> {
    BASE_OPEN@ + head + BASE_MID@ + content + BASE_CLOSE@
}

pub open spec fn index_raw(title: Seq<char>, content: Seq<char>) -> Seq<char> {
    INDEX_OPEN@ + title + INDEX_MID@ + content + INDEX_CLOSE@
}

pub open spec fn article_raw(title: Seq<char>, content: Seq<char>) -> Seq<char> {
    ARTICLE_OPEN@ + title + ARTICLE_MID@ + content + ARTICLE_CLOSE@
}

/// The head of a page: character set, viewport, icon, title and stylesheets.
pub open spec fn head_html(p: PageView, styles: Seq<Seq<char>>) -> Seq<char> {
    unindented(head_raw(p.title, links_html(styles)))
}

/// The body of a page, chosen by its layout.
pub open spec fn body_html(p: PageView) -> Seq<char> {
    match p.layout {
        Layout::Index => unindented(index_raw(p.title, p.content)),
        Layout::Page => unindented(article_raw(p.title, p.content)),
    }
}

/// The whole HTML document of a page.
pub open spec fn page_html(p: PageView, styles: Seq<Seq<char>>) -> Seq<char> {
    unindented(base_raw(head_html(p, styles), body_html(p)))
}

/// The path of the file that a page is written to.
pub open spec fn page_path(p: PageView) -> Seq<char> {
    p.slug + ".html"@
}

/// The first entry at or after `k` whose path is `path`, or the number of
/// entries.
pub open spec fn path_index(out: Seq<(Seq<char>, Seq<char>)>, path: Seq<char>, k: int) -> int
    decreases out.len() - k,
{
    if k >= out.len() {
        out.len() as int
    } else if out[k].0 == path {
        k
    } else {
        path_index(out, path, k + 1)
    }
}

/// `out` with the file `f` written: it replaces an earlier file of the same
/// path where it stood, or comes last.
pub open spec fn write_file(out: Seq<(Seq<char>, Seq<char>)>, f: (Seq<char>, Seq<char>)) -> Seq<
    (Seq<char>, Seq<char>),
> {
    let i = path_index(out, f.0, 0);
    if i < out.len() {
        out.update(i, f)
    } else {
        out.push(f)
    }
}

/// The files of a site: one per page, at its slug; of two pages with one
/// slug, the later one wins.
pub open spec fn site_files(pages: Seq<PageView>, styles: Seq<Seq<char>>) -> Seq<
    (Seq<char>, Seq<char>),
>
    decreases pages.len(),
{
    if pages.len() == 0 {
        Seq::empty()
    } else {
        write_file(
            site_files(pages.drop_last(), styles),
            (page_path(pages.last()), page_html(pages.last(), styles)),
        )
    }
}

/// No two files share a path.
pub open spec fn paths_unique(out: Seq<(Seq<char>, Seq<char>)>) -> bool {
    forall|i: int, j: int|
        0 <= i < out.len() && 0 <= j < out.len() && i != j ==> (#[trigger] out[i]).0 != (
        #[trigger] out[j]).0
}

proof fn lemma_path_index(out: Seq<(Seq<char>, Seq<char>)>, path: Seq<char>, k: int)
    requires
        0 <= k <= out.len(),
    ensures
        k <= path_index(out, path, k) <= out.len(),
        forall|m: int| k <= m < path_index(out, path, k) ==> (#[trigger] out[m]).0 != path,
        path_index(out, path, k) < out.len() ==> out[path_index(out, path, k)].0 == path,
    decreases out.len() - k,
{
    if k < out.len() && out[k].0 != path {
        lemma_path_index(out, path, k + 1);
    }
}

/// Each output path is written once: the files of a site have distinct
/// paths, and every page's path is among them, holding the last page
/// written there.
pub proof fn lemma_site_files(pages: Seq<PageView>, styles: Seq<Seq<char>>)
    ensures
        paths_unique(site_files(pages, styles)),
        pages.len() > 0 ==> exists|i: int|
            0 <= i < site_files(pages, styles).len() && #[trigger] site_files(pages, styles)[i]
                == (page_path(pages.last()), page_html(pages.last(), styles)),
    decreases pages.len(),
{
    if pages.len() > 0 {
        lemma_site_files(pages.drop_last(), styles);
        let prev = site_files(pages.drop_last(), styles);
        let f = (page_path(pages.last()), page_html(pages.last(), styles));
        lemma_path_index(prev, f.0, 0);
        let i = path_index(prev, f.0, 0);
        let next = site_files(pages, styles);
        if i < prev.len() {
            assert(next[i] == f);
            assert forall|a: int, b: int|
                0 <= a < next.len() && 0 <= b < next.len() && a != b implies (#[trigger] next[a]).0
                != (#[trigger] next[b]).0 by {
                if a == i {
                    assert(prev[b].0 != prev[i].0);
                } else if b == i {
                    assert(prev[a].0 != prev[i].0);
                } else {
                    assert(prev[a].0 != prev[b].0);
                }
            }
        } else {
            assert(next[prev.len() as int] == f);
        }
    }
}

/// One output file: its path under the output directory, and its HTML.
#[derive(Debug, Clone)]
pub struct OutputFile {
    pub path: String,
    pub html: String,
}

pub open spec fn file_views(v: Seq<OutputFile>) -> Seq<(Seq<char>, Seq<char>)> {
    v.map_values(|f: OutputFile| (f.path@, f.html@))
}

/// Holds the pages of a site and the stylesheets that every page links.
pub struct SiteGenerator {
    pages: Vec<Page>,
    styles: Vec<String>,
}

pub struct SiteView {
    pub pages: Seq<PageView>,
    pub styles: Seq<Seq<char>>,
}

impl View for SiteGenerator {
    type V = SiteView;

    closed spec fn view(&self) -> SiteView {
        SiteView { pages: page_views(self.pages@), styles: string_views(self.styles@) }
    }
}

impl SiteGenerator {
    /// A generator with no page, whose pages link `styles` in that order.
    pub fn new(styles: Vec<String>) -> (r: SiteGenerator)
        ensures
            r@.pages == Seq::<PageView>::empty(),
            r@.styles == string_views(styles@),
    {
        let r = SiteGenerator { pages: Vec::new(), styles };
        assert(r@.pages =~= Seq::<PageView>::empty());
        r
    }

    /// A builder for a new page of the given layout.
    pub fn new_page(&mut self, layout: Layout) -> (r: PageBuilder)
        ensures
            final(self)@ == old(self)@,
            r@ == (PageBuilderView {
                layout: layout,
                title: None,
                slug: None,
                content: Seq::empty(),
            }),
    {
        PageBuilder::new(layout)
    }

    /// Adds a page after those held.
    pub fn add_page(&mut self, page: Page)
        ensures
            final(self)@ == (SiteView { pages: old(self)@.pages.push(page@), ..old(self)@ }),
    {
        let ghost before = self@;
        let ghost pv = page@;
        self.pages.push(page);
        assert(self@.pages =~= before.pages.push(pv));
    }

    /// The number of pages held.
    pub fn page_count(&self) -> (r: usize)
        ensures
            r == self@.pages.len(),
    {
        self.pages.len()
    }

    fn includes_str(&self) -> (r: String)
        ensures
            r@ == links_html(self@.styles),
    {
        let ghost ss = self@.styles;
        let mut out = String::new();
        let mut i: usize = 0;
        assert(ss.subrange(0, 0) =~= Seq::<Seq<char>>::empty());
        while i < self.styles.len()
            invariant
                i <= self.styles@.len(),
                ss == self@.styles,
                out@ == links_html(ss.subrange(0, i as int)),
            decreases self.styles@.len() - i,
        {
            out.append("<link rel=\"stylesheet\" href=\"");
            out.append(self.styles[i].as_str());
            out.append("\">");
            assert(ss.subrange(0, i + 1).drop_last() =~= ss.subrange(0, i as int));
            i = i + 1;
        }
        assert(ss.subrange(0, i as int) =~= ss);
        out
    }

    fn head_template(&self, page: &Page) -> (r: String)
        ensures
            r@ == head_html(page@, self@.styles),
    {
        let mut raw = String::from_str(HEAD_OPEN);
        raw.append(page.properties.title.as_str());
        raw.append(HEAD_MID);
        let links = self.includes_str();
        raw.append(links.as_str());
        raw.append(HEAD_CLOSE);
        assert(raw@ =~= head_raw(page@.title, links_html(self@.styles)));
        unindent_text(raw.as_str())
    }

    /// `content` set in a container block.
    pub fn container_template(&self, content: &str) -> (r: String)
        ensures
            r@ == unindented(container_raw(content@)),
    {
        let mut raw = String::from_str(CONTAINER_OPEN);
        raw.append(content);
        raw.append(CONTAINER_CLOSE);
        assert(raw@ =~= container_raw(content@));
        unindent_text(raw.as_str())
    }

    fn base_template(&self, page: &Page, content: &str) -> (r: String)
        ensures
            r@ == unindented(base_raw(head_html(page@, self@.styles), content@)),
    {
        let head = self.head_template(page);
        let mut raw = String::from_str(BASE_OPEN);
        raw.append(head.as_str());
        raw.append(BASE_MID);
        raw.append(content);
        raw.append(BASE_CLOSE);
        assert(raw@ =~= base_raw(head@, content@));
        unindent_text(raw.as_str())
    }

    fn render_index(&self, page: &Page) -> (r: String)
        ensures
            r@ == unindented(
                base_raw(
                    head_html(page@, self@.styles),
                    unindented(index_raw(page@.title, page@.content)),
                ),
            ),
    {
        let mut raw = String::from_str(INDEX_OPEN);
        raw.append(page.properties.title.as_str());
        raw.append(INDEX_MID);
        raw.append(page.content.as_str());
        raw.append(INDEX_CLOSE);
        assert(raw@ =~= index_raw(page@.title, page@.content));
        let content = unindent_text(raw.as_str());
        self.base_template(page, content.as_str())
    }

    fn render_page(&self, page: &Page) -> (r: String)
        ensures
            r@ == unindented(
                base_raw(
                    head_html(page@, self@.styles),
                    unindented(article_raw(page@.title, page@.content)),
                ),
            ),
    {
        let mut raw = String::from_str(ARTICLE_OPEN);
        raw.append(page.properties.title.as_str());
        raw.append(ARTICLE_MID);
        raw.append(page.content.as_str());
        raw.append(ARTICLE_CLOSE);
        assert(raw@ =~= article_raw(page@.title, page@.content));
        let content = unindent_text(raw.as_str());
        self.base_template(page, content.as_str())
    }

    /// The HTML document of `page`, by its layout.
    pub fn render(&self, page: &Page) -> (r: String)
        ensures
            r@ == page_html(page@, self@.styles),
    {
        match page.layout {
            Layout::Index => self.render_index(page),
            Layout::Page => self.render_page(page),
        }
    }

    /// The files of the site: one per page at `{slug}.html`; where two
    /// pages share a slug, the later one's HTML stands at the earlier one's
    /// place.
    pub fn render_all(&self) -> (r: Vec<OutputFile>)
        ensures
            file_views(r@) == site_files(self@.pages, self@.styles),
    {
        let ghost ps = self@.pages;
        let ghost ss = self@.styles;
        let mut out: Vec<OutputFile> = Vec::new();
        let mut i: usize = 0;
        assert(ps.subrange(0, 0) =~= Seq::<PageView>::empty());
        assert(file_views(out@) =~= Seq::<(Seq<char>, Seq<char>)>::empty());
        while i < self.pages.len()
            invariant
                i <= self.pages@.len(),
                ps == self@.pages,
                ss == self@.styles,
                file_views(out@) == site_files(ps.subrange(0, i as int), ss),
            decreases self.pages@.len() - i,
        {
            let page = &self.pages[i];
            let mut path = copy_string(&page.properties.slug);
            path.append(".html");
            let html = self.render(page);
            let ghost prev = file_views(out@);
            let ghost f = (path@, html@);
            let mut k: usize = 0;
            assert(path_index(prev, path@, 0) == path_index(prev, path@, k as int));
            while k < out.len() && !same_text(out[k].path.as_str(), path.as_str())
                invariant
                    k <= out@.len(),
                    prev == file_views(out@),
                    path_index(prev, path@, 0) == path_index(prev, path@, k as int),
                decreases out@.len() - k,
            {
                k = k + 1;
            }
            if k < out.len() {
                out.set(k, OutputFile { path, html });
                assert(file_views(out@) =~= prev.update(k as int, f));
            } else {
                out.push(OutputFile { path, html });
                assert(file_views(out@) =~= prev.push(f));
            }
            assert(ps.subrange(0, i + 1).drop_last() =~= ps.subrange(0, i as int));
            assert(ps.subrange(0, i + 1).last() == page@);
            i = i + 1;
        }
        assert(ps.subrange(0, i as int) =~= ps);
        out
    }
}

/// The heading that opens the feed section of the index page.
pub const FEED_HEADING: &'static str = "<li><h2>Blue Sky Posts</h2></li>";

/// The slug of the index page.
pub const INDEX_SLUG: &'static str = "index";

/// The index entry of one document: a link to its page, then its date.
pub open spec fn index_item(d: DocumentView) -> Seq<char> {
    "<li><a href='"@ + d.front_matter.slug + ".html'>"@ + d.front_matter.title + "</a> - "@
        + d.front_matter.date + "</li>"@
}

/// The content fragments of the index page: one entry per document, in
/// order, then the feed section where there are feed posts.
pub open spec fn index_fragments_of(docs: Seq<DocumentView>, feed: Seq<FeedPostView>) -> Seq<
    Seq<char>,
> {
    docs.map_values(|d: DocumentView| index_item(d)) + if feed.len() > 0 {
        seq![FEED_HEADING@, posts_html(feed)]
    } else {
        Seq::empty()
    }
}

/// The index page.
pub open spec fn index_page(docs: Seq<DocumentView>, feed: Seq<FeedPostView>) -> PageView {
    PageView {
        layout: Layout::Index,
        title: SITE_GREETING@,
        slug: INDEX_SLUG@,
        content: join_lines(index_fragments_of(docs, feed)),
    }
}

/// The article page of one document.
pub open spec fn content_page(d: DocumentView) -> PageView {
    PageView {
        layout: Layout::Page,
        title: d.front_matter.title,
        slug: d.front_matter.slug,
        content: d.html_content,
    }
}

/// The pages of a site: the index first, then one article per document.
pub open spec fn site_pages(docs: Seq<DocumentView>, feed: Seq<FeedPostView>) -> Seq<PageView> {
    seq![index_page(docs, feed)] + docs.map_values(|d: DocumentView| content_page(d))
}

/// The content fragments of the index page.
pub fn index_fragments(docs: &Vec<ParsedMarkdown>, feed: &Vec<FeedPost>) -> (r: Vec<String>)
    ensures
        string_views(r@) == index_fragments_of(doc_views(docs@), post_views(feed@)),
{
    let ghost ds = doc_views(docs@);
    let mut out: Vec<String> = Vec::new();
    let mut i: usize = 0;
    while i < docs.len()
        invariant
            i <= docs@.len(),
            ds == doc_views(docs@),
            out@.len() == i,
            forall|k: int| 0 <= k < i ==> (#[trigger] out@[k])@ == index_item(ds[k]),
        decreases docs@.len() - i,
    {
        let d = &docs[i].front_matter;
        let mut item = String::from_str("<li><a href='");
        item.append(d.slug.as_str());
        item.append(".html'>");
        item.append(d.title.as_str());
        item.append("</a> - ");
        item.append(d.date.as_str());
        item.append("</li>");
        assert(item@ =~= index_item(ds[i as int]));
        out.push(item);
        i = i + 1;
    }
    let ghost items = string_views(out@);
    assert(items =~= ds.map_values(|d: DocumentView| index_item(d)));
    if feed.len() > 0 {
        out.push(String::from_str(FEED_HEADING));
        out.push(render_feed(feed));
        assert(string_views(out@) =~= items + seq![FEED_HEADING@, posts_html(post_views(feed@))]);
    } else {
        assert(string_views(out@) =~= items + Seq::<Seq<char>>::empty());
    }
    out
}

/// The generator of a whole site: the index page listing `docs` and the
/// `feed` posts in the order given, and an article page per document.
pub fn build_site(docs: &Vec<ParsedMarkdown>, feed: &Vec<FeedPost>, styles: Vec<String>) -> (r:
    SiteGenerator)
    ensures
        r@.pages == site_pages(doc_views(docs@), post_views(feed@)),
        r@.styles == string_views(styles@),
{
    let ghost ds = doc_views(docs@);
    let mut site = SiteGenerator::new(styles);
    let frags = index_fragments(docs, feed);
    let index = site.new_page(Layout::Index).slug(String::from_str(INDEX_SLUG)).children(frags);
    assert(string_views(frags@) == index_fragments_of(ds, post_views(feed@)));
    match index.build() {
        Ok(p) => site.add_page(p),
        Err(_) => {},
    }
    let mut i: usize = 0;
    while i < docs.len()
        invariant
            i <= docs@.len(),
            ds == doc_views(docs@),
            site@.styles == string_views(styles@),
            site@.pages == site_pages(ds, post_views(feed@)).subrange(0, i + 1),
        decreases docs@.len() - i,
    {
        let d = &docs[i];
        let builder = site.new_page(Layout::Page).title(copy_string(&d.front_matter.title)).slug(
            copy_string(&d.front_matter.slug),
        ).child(copy_string(&d.html_content));
        assert(builder@.content =~= seq![d@.html_content]);
        match builder.build() {
            Ok(p) => site.add_page(p),
            Err(_) => {},
        }
        assert(site_pages(ds, post_views(feed@)).subrange(0, i + 2) =~= site_pages(
            ds,
            post_views(feed@),
        ).subrange(0, i + 1).push(content_page(ds[i as int])));
        i = i + 1;
    }
    assert(site_pages(ds, post_views(feed@)).subrange(0, i + 1) =~= site_pages(
        ds,
        post_views(feed@),
    ));
    site
}

} // verus!
