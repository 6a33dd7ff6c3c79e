use vstd::prelude::*;

use crate::markdown::{
    document_of, DocumentView, FrontMatter, Markdown, ParseError, ParsedMarkdown,
};
use crate::order::{
    insert_pos, lemma_sort_by_ordered, lemma_sort_by_permutes, sort_by, strict_order,
};
use crate::text::{
    copy_string, copy_strings, lemma_seq_le_reflexive, lemma_seq_le_total,
    lemma_seq_le_transitive, lex_le, same_text, seq_le,
};

verus! {

/// Why content could not be loaded.
#[derive(Debug, Clone, Copy, PartialEq, Eq, Structural)]
pub enum LoadError {
    /// The content directory or one of its files could not be read.
    SourceUnreadable,
    /// A document could not be read.
    Parse(ParseError),
}

/// A document comes before another when its date is later, or, on the same
/// date, when its slug comes first.
pub open spec fn doc_before() -> spec_fn(DocumentView, DocumentView) -> bool {
    |a: DocumentView, b: DocumentView|
        !seq_le(a.front_matter.date, b.front_matter.date) || (a.front_matter.date
            == b.front_matter.date && !seq_le(b.front_matter.slug, a.front_matter.slug))
}

pub proof fn lemma_doc_before_strict()
    ensures
        strict_order(doc_before()),
{
    let lt = doc_before();
    assert forall|a: DocumentView, b: DocumentView| #[trigger] lt(a, b) implies !lt(b, a) by {
        lemma_seq_le_total(a.front_matter.date, b.front_matter.date);
        lemma_seq_le_total(a.front_matter.slug, b.front_matter.slug);
        lemma_seq_le_reflexive(a.front_matter.date);
    }
    assert forall|a: DocumentView, b: DocumentView, c: DocumentView|
        #[trigger] lt(a, b) && #[trigger] lt(b, c) implies lt(a, c) by {
        let (da, db, dc) = (a.front_matter.date, b.front_matter.date, c.front_matter.date);
        let (sa, sb, sc) = (a.front_matter.slug, b.front_matter.slug, c.front_matter.slug);
        lemma_seq_le_total(da, db);
        lemma_seq_le_total(db, dc);
        lemma_seq_le_total(da, dc);
        lemma_seq_le_total(sa, sb);
        lemma_seq_le_total(sb, sc);
        if seq_le(da, dc) && seq_le(dc, db) {
            lemma_seq_le_transitive(da, dc, db);
        }
        if seq_le(dc, da) && seq_le(da, db) {
            lemma_seq_le_transitive(dc, da, db);
        }
        if seq_le(sc, sa) && seq_le(sa, sb) {
            lemma_seq_le_transitive(sc, sa, sb);
        }
        if da == dc {
            lemma_seq_le_reflexive(da);
        }
    }
}

/// What a run of raw documents reads as, in their order: every document,
/// or the error of the first one that cannot be read.
pub open spec fn documents_of(raws: Seq<Seq<char>>) -> Result<Seq<DocumentView>, ParseError>
    decreases raws.len(),
{
    if raws.len() == 0 {
        Ok(Seq::empty())
    } else {
        match documents_of(raws.drop_last()) {
            Err(e) => Err(e),
            Ok(ds) => match document_of(raws.last()) {
                Err(e) => Err(e),
                Ok(d) => Ok(ds.push(d)),
            },
        }
    }
}

pub open spec fn doc_views(v: Seq<ParsedMarkdown>) -> Seq<DocumentView> {
    v.map_values(|d: ParsedMarkdown| d@)
}

pub open spec fn raw_views(v: Seq<String>) -> Seq<Seq<char>> {
    v.map_values(|s: String| s@)
}

/// Latest date first; on one date, slugs in order.
pub open spec fn latest_first(ds: Seq<DocumentView>) -> bool {
    forall|i: int, j: int|
        0 <= i < j < ds.len() ==> seq_le(
            (#[trigger] ds[j]).front_matter.date,
            (#[trigger] ds[i]).front_matter.date,
        ) && (ds[i].front_matter.date == ds[j].front_matter.date ==> seq_le(
            ds[i].front_matter.slug,
            ds[j].front_matter.slug,
        ))
}

/// Loaded documents come latest first, and none is lost or added.
pub proof fn lemma_loaded_order(ds: Seq<DocumentView>)
    ensures
        latest_first(sort_by(ds, doc_before())),
        sort_by(ds, doc_before()).to_multiset() == ds.to_multiset(),
{
    let lt = doc_before();
    lemma_doc_before_strict();
    lemma_sort_by_ordered(ds, lt);
    lemma_sort_by_permutes(ds, lt);
    let s = sort_by(ds, lt);
    assert forall|i: int, j: int| 0 <= i < j < s.len() implies seq_le(
        (#[trigger] s[j]).front_matter.date,
        (#[trigger] s[i]).front_matter.date,
    ) && (s[i].front_matter.date == s[j].front_matter.date ==> seq_le(
        s[i].front_matter.slug,
        s[j].front_matter.slug,
    )) by {
        assert(!lt(s[j], s[i]));
        lemma_seq_le_total(s[i].front_matter.slug, s[j].front_matter.slug);
    }
}

/// One document that cannot be read makes the whole load fail.
pub proof fn lemma_bad_document_fails_load(raws: Seq<Seq<char>>, i: int)
    requires
        0 <= i < raws.len(),
        document_of(raws[i]) is Err,
    ensures
        documents_of(raws) is Err,
    decreases raws.len(),
{
    if i < raws.len() - 1 {
        lemma_bad_document_fails_load(raws.drop_last(), i);
    }
}

fn copy_front_matter(f: &FrontMatter) -> (r: FrontMatter)
    ensures
        r@ == f@,
{
    FrontMatter {
        title: copy_string(&f.title),
        date: copy_string(&f.date),
        slug: copy_string(&f.slug),
        series: match &f.series {
            Some(s) => Some(copy_string(s)),
            None => None,
        },
        tags: match &f.tags {
            Some(t) => Some(copy_strings(t)),
            None => None,
        },
    }
}

/// A copy of a document.
pub fn copy_document(d: &ParsedMarkdown) -> (r: ParsedMarkdown)
    ensures
        r@ == d@,
{
    ParsedMarkdown {
        front_matter: copy_front_matter(&d.front_matter),
        content: copy_string(&d.content),
        html_content: copy_string(&d.html_content),
    }
}

/// Whether `a` comes before `b`: a later date, or the same date and a slug
/// that comes first.
fn comes_before(a: &ParsedMarkdown, b: &ParsedMarkdown) -> (r: bool)
    ensures
        r == doc_before()(a@, b@),
{
    let ad = a.front_matter.date.as_str();
    let bd = b.front_matter.date.as_str();
    !lex_le(ad, bd) || (same_text(ad, bd) && !lex_le(
        b.front_matter.slug.as_str(),
        a.front_matter.slug.as_str(),
    ))
}

/// `docs` sorted latest first, and by slug on one date.
pub fn sort_documents(docs: &Vec<ParsedMarkdown>) -> (r: Vec<ParsedMarkdown>)
    ensures
        doc_views(r@) == sort_by(doc_views(docs@), doc_before()),
{
    let ghost all = doc_views(docs@);
    let ghost lt = doc_before();
    let mut out: Vec<ParsedMarkdown> = Vec::new();
    let mut i: usize = 0;
    assert(all.take(0) =~= Seq::<DocumentView>::empty());
    while i < docs.len()
        invariant
            i <= docs@.len(),
            all == doc_views(docs@),
            lt == doc_before(),
            doc_views(out@) == sort_by(all.take(i as int), lt),
        decreases docs@.len() - i,
    {
        let x = copy_document(&docs[i]);
        let ghost sorted = doc_views(out@);
        let mut k: usize = 0;
        while k < out.len() && !comes_before(&x, &out[k])
            invariant
                k <= out@.len(),
                sorted == doc_views(out@),
                lt == doc_before(),
                insert_pos(sorted, x@, lt, 0) == insert_pos(sorted, x@, lt, k as int),
            decreases out@.len() - k,
        {
            assert(sorted[k as int] == out@[k as int]@);
            k = k + 1;
        }
        out.insert(k, x);
        assert(all.take(i + 1).drop_last() =~= all.take(i as int));
        assert(doc_views(out@) =~= sorted.insert(k as int, x@));
        i = i + 1;
    }
    assert(all.take(i as int) =~= all);
    out
}

/// Reads each raw document in turn, stopping at the first that cannot be
/// read, and returns the documents latest first.
pub fn load_documents(raws: &Vec<String>) -> (r: Result<Vec<ParsedMarkdown>, ParseError>)
    ensures
        match r {
            Ok(ds) => documents_of(raw_views(raws@)) is Ok && doc_views(ds@) == sort_by(
                documents_of(raw_views(raws@))->Ok_0,
                doc_before(),
            ),
            Err(e) => documents_of(raw_views(raws@)) == Err::<Seq<DocumentView>, ParseError>(e),
        },
{
    let ghost rs = raw_views(raws@);
    let mut docs: Vec<ParsedMarkdown> = Vec::new();
    let mut i: usize = 0;
    assert(rs.subrange(0, 0) =~= Seq::<Seq<char>>::empty());
    assert(doc_views(docs@) =~= Seq::<DocumentView>::empty());
    while i < raws.len()
        invariant
            i <= raws@.len(),
            rs == raw_views(raws@),
            documents_of(rs.subrange(0, i as int)) == Ok::<Seq<DocumentView>, ParseError>(
                doc_views(docs@),
            ),
        decreases raws@.len() - i,
    {
        assert(rs.subrange(0, i + 1).drop_last() =~= rs.subrange(0, i as int));
        assert(rs.subrange(0, i + 1).last() == raws@[i as int]@);
        match Markdown::parse_document(raws[i].as_str()) {
            Ok(d) => {
                let ghost before = doc_views(docs@);
                let ghost dv = d@;
                docs.push(d);
                assert(doc_views(docs@) =~= before.push(dv));
            },
            Err(e) => {
                proof {
                    lemma_prefix_error_stays(rs, i as int + 1);
                }
                return Err(e);
            },
        }
        i = i + 1;
    }
    assert(rs.subrange(0, i as int) =~= rs);
    Ok(sort_documents(&docs))
}

/// Once a prefix of the documents fails, the whole run fails the same way.
proof fn lemma_prefix_error_stays(raws: Seq<Seq<char>>, n: int)
    requires
        0 <= n <= raws.len(),
        documents_of(raws.subrange(0, n)) is Err,
    ensures
        documents_of(raws) == documents_of(raws.subrange(0, n)),
    decreases raws.len() - n,
{
    if n < raws.len() {
        assert(raws.subrange(0, n + 1).drop_last() =~= raws.subrange(0, n));
        lemma_prefix_error_stays(raws, n + 1);
    } else {
        assert(raws.subrange(0, n) =~= raws);
    }
}

/// The documents of the posts directory.
pub struct PostsCollection {
    parsed_posts: Vec<ParsedMarkdown>,
}

impl View for PostsCollection {
    type V = Seq<DocumentView>;

    closed spec fn view(&self) -> Seq<DocumentView> {
        doc_views(self.parsed_posts@)
    }
}

impl PostsCollection {
    /// Reads every raw document; fails on the first that cannot be read.
    pub fn new(raws: &Vec<String>) -> (r: Result<PostsCollection, ParseError>)
        ensures
            match r {
                Ok(c) => documents_of(raw_views(raws@)) is Ok && c@ == sort_by(
                    documents_of(raw_views(raws@))->Ok_0,
                    doc_before(),
                ),
                Err(e) => documents_of(raw_views(raws@)) == Err::<Seq<DocumentView>, ParseError>(
                    e,
                ),
            },
    {
        let mut c = PostsCollection { parsed_posts: Vec::new() };
        match c.parse_posts(raws) {
            Ok(()) => Ok(c),
            Err(e) => Err(e),
        }
    }

    /// Replaces the documents held by those that `raws` give; on a failure
    /// nothing is held.
    pub fn parse_posts(&mut self, raws: &Vec<String>) -> (r: Result<(), ParseError>)
        ensures
            match r {
                Ok(()) => documents_of(raw_views(raws@)) is Ok && final(self)@ == sort_by(
                    documents_of(raw_views(raws@))->Ok_0,
                    doc_before(),
                ),
                Err(e) => documents_of(raw_views(raws@)) == Err::<Seq<DocumentView>, ParseError>(
                    e,
                ) && final(self)@ == Seq::<DocumentView>::empty(),
            },
    {
        match load_documents(raws) {
            Ok(ds) => {
                self.parsed_posts = ds;
                Ok(())
            },
            Err(e) => {
                self.parsed_posts = Vec::new();
                assert(self@ =~= Seq::<DocumentView>::empty());
                Err(e)
            },
        }
    }

    /// The documents held, latest first, and by slug on one date.
    pub fn posts(&self) -> (r: Vec<ParsedMarkdown>)
        ensures
            doc_views(r@) == sort_by(self@, doc_before()),
    {
        sort_documents(&self.parsed_posts)
    }
}

/// A source of content, read from a directory.
pub trait Content {
    /// The directory, as a path.
    spec fn src_view(&self) -> Seq<char>;

    /// The directory that the content is read from.
    fn src(&self) -> (r: &String)
        ensures
            r@ == self.src_view(),
    ;
}

/// The source of the posts.
pub struct Post {
    src: String,
}

impl Post {
    pub fn new(src: String) -> (r: Post)
        ensures
            r.src_view() == src@,
    {
        Post { src }
    }
}

impl Content for Post {
    closed spec fn src_view(&self) -> Seq<char> {
        self.src@
    }

    fn src(&self) -> (r: &String) {
        &self.src
    }
}

/// The sources of content that a site is built from.
pub struct ContentSources {
    posts: Post,
}

impl ContentSources {
    /// Sources whose posts are read from `posts_dir`.
    pub fn new(posts_dir: String) -> (r: ContentSources)
        ensures
            r.posts().src_view() == posts_dir@,
    {
        ContentSources { posts: Post::new(posts_dir) }
    }

    pub closed spec fn posts_spec(&self) -> &Post {
        &self.posts
    }

    /// The source of the posts.
    #[verifier::when_used_as_spec(posts_spec)]
    pub fn posts(&self) -> (r: &Post)
        ensures
            r == self.posts_spec(),
    {
        &self.posts
    }
}

} // verus!
