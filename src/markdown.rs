use vstd::prelude::*;

use crate::slug::{slug_of, slugify};
use crate::text::{
    join_line_range, join_lines, lines_of, opt_view, split_lines, string_views, views,
};

verus! {

#[verifier::external_type_specification]
#[verifier::external_body]
pub struct ExYamlMapping(serde_yaml::Mapping);

#[verifier::external_type_specification]
#[verifier::external_body]
pub struct ExYamlError(serde_yaml::Error);

/// The entries of a YAML mapping whose key and value are both strings.
pub uninterp spec fn string_entries(m: serde_yaml::Mapping) -> Map<Seq<char>, Seq<char>>;

/// The entries of a YAML mapping whose key is a string and whose value is a
/// sequence of strings.
pub uninterp spec fn string_list_entries(m: serde_yaml::Mapping) -> Map<Seq<char>, Seq<Seq<char>>>;

/// What a YAML text decodes to when read as a mapping: the entries of that
/// mapping whose value is a string, and those whose value is a sequence of
/// strings; or nothing where the text is no mapping.
pub uninterp spec fn yaml_fields(text: Seq<char>) -> Option<
    (Map<Seq<char>, Seq<char>>, Map<Seq<char>, Seq<Seq<char>>>),
>;

/// Relies on serde_yaml::from_str: decodes `text` as one YAML mapping.
#[verifier::external_body]
fn decode_mapping(text: &str) -> (r: Result<serde_yaml::Mapping, serde_yaml::Error>)
    ensures
        r is Ok <==> yaml_fields(text@) is Some,
        r is Ok ==> yaml_fields(text@) == Some(
            (string_entries(r->Ok_0), string_list_entries(r->Ok_0)),
        ),
{
    serde_yaml::from_str::<serde_yaml::Mapping>(text)
}

/// Relies on serde_yaml::Mapping::get with a string key: the value stored
/// under `key`, when that value is a string.
#[verifier::external_body]
fn string_entry(m: &serde_yaml::Mapping, key: &str) -> (r: Option<String>)
    ensures
        r is Some <==> string_entries(*m).contains_key(key@),
        r is Some ==> r->Some_0@ == string_entries(*m)[key@],
{
    match m.get(key) {
        Some(serde_yaml::Value::String(s)) => Some(s.clone()),
        _ => None,
    }
}

/// Relies on serde_yaml::Mapping::get with a string key: the value stored
/// under `key`, when that value is a sequence of strings.
#[verifier::external_body]
fn string_list_entry(m: &serde_yaml::Mapping, key: &str) -> (r: Option<Vec<String>>)
    ensures
        r is Some <==> string_list_entries(*m).contains_key(key@),
        r is Some ==> string_views(r->Some_0@) == string_list_entries(*m)[key@],
{
    match m.get(key) {
        Some(serde_yaml::Value::Sequence(items)) => items.iter().map(|v| match v {
            serde_yaml::Value::String(s) => Some(s.clone()),
            _ => None,
        }).collect(),
        _ => None,
    }
}

/// The HTML that CommonMark, with tables and strikethrough, gives for a
/// markdown text.
pub uninterp spec fn commonmark_html(body: Seq<char>) -> Seq<char>;

/// Relies on pulldown_cmark::Parser::new_ext with the table and
/// strikethrough extensions, written out by pulldown_cmark::html::push_html;
/// the HTML depends on the text alone.
#[verifier::external_body]
fn render_commonmark(body: &str) -> (r: String)
    ensures
        r@ == commonmark_html(body@),
{
    let mut options = pulldown_cmark::Options::empty();
    options.insert(pulldown_cmark::Options::ENABLE_TABLES);
    options.insert(pulldown_cmark::Options::ENABLE_STRIKETHROUGH);
    let mut html = String::new();
    pulldown_cmark::html::push_html(&mut html, pulldown_cmark::Parser::new_ext(body, options));
    html
}

/// Why a document could not be read.
#[derive(Debug, Clone, Copy, PartialEq, Eq, Structural)]
pub enum ParseError {
    /// No line `---` closes the front matter.
    MalformedDocument,
    /// The front matter is no mapping, or lacks a title or a date.
    InvalidFrontMatter,
}

/// The metadata block at the head of a document.
#[derive(Debug, Clone)]
pub struct FrontMatter {
    pub title: String,
    pub date: String,
    pub slug: String,
    pub series: Option<String>,
    pub tags: Option<Vec<String>>,
}

pub struct FrontMatterView {
    pub title: Seq<char>,
    pub date: Seq<char>,
    pub slug: Seq<char>,
    pub series: Option<Seq<char>>,
    pub tags: Option<Seq<Seq<char>>>,
}

impl View for FrontMatter {
    type V = FrontMatterView;

    open spec fn view(&self) -> FrontMatterView {
        FrontMatterView {
            title: self.title@,
            date: self.date@,
            slug: self.slug@,
            series: opt_view(self.series),
            tags: match self.tags {
                Some(t) => Some(string_views(t@)),
                None => None,
            },
        }
    }
}

/// A document read from its source: metadata, the markdown body, and the
/// body as HTML.
#[derive(Debug, Clone)]
pub struct ParsedMarkdown {
    pub front_matter: FrontMatter,
    pub content: String,
    pub html_content: String,
}

pub struct DocumentView {
    pub front_matter: FrontMatterView,
    pub content: Seq<char>,
    pub html_content: Seq<char>,
}

impl View for ParsedMarkdown {
    type V = DocumentView;

    open spec fn view(&self) -> DocumentView {
        DocumentView {
            front_matter: self.front_matter@,
            content: self.content@,
            html_content: self.html_content@,
        }
    }
}

/// A line that opens or closes the front matter.
pub open spec fn is_delimiter(line: Seq<char>) -> bool {
    line == "---"@ || line == "---\r"@
}

/// The first delimiter line at or after `i`, or the number of lines where
/// there is none.
pub open spec fn first_delimiter(lines: Seq<Seq<char>>, i: int) -> int
    decreases lines.len() - i,
{
    if i >= lines.len() {
        lines.len() as int
    } else if is_delimiter(lines[i]) {
        i
    } else {
        first_delimiter(lines, i + 1)
    }
}

/// Where the front matter starts: after an opening delimiter, if any.
pub open spec fn front_start(lines: Seq<Seq<char>>) -> int {
    if lines.len() > 0 && is_delimiter(lines[0]) {
        1
    } else {
        0
    }
}

/// A document split into its front matter and its body: the lines before the
/// first delimiter (an opening delimiter on the first line aside), and the
/// lines after it.
pub open spec fn split_document(raw: Seq<char>) -> Option<(Seq<char>, Seq<char>)> {
    let lines = split_lines(raw);
    let start = front_start(lines);
    let k = first_delimiter(lines, start);
    if k >= lines.len() {
        None
    } else {
        Some(
            (
                join_lines(lines.subrange(start, k)),
                join_lines(lines.subrange(k + 1, lines.len() as int)),
            ),
        )
    }
}

/// The front matter that a metadata text gives: title and date are required;
/// the slug is the one given, or else the slug of the title; series and
/// tags count where they are a string and a sequence of strings.
pub open spec fn front_matter_of(text: Seq<char>) -> Option<FrontMatterView> {
    match yaml_fields(text) {
        None => None,
        Some((m, lists)) => if m.contains_key("title"@) && m.contains_key("date"@) {
            Some(
                FrontMatterView {
                    title: m["title"@],
                    date: m["date"@],
                    slug: if m.contains_key("slug"@) {
                        m["slug"@]
                    } else {
                        slug_of(m["title"@])
                    },
                    series: if m.contains_key("series"@) {
                        Some(m["series"@])
                    } else {
                        None
                    },
                    tags: if lists.contains_key("tags"@) {
                        Some(lists["tags"@])
                    } else {
                        None
                    },
                },
            )
        } else {
            None
        },
    }
}

/// What a raw document reads as: its front matter, its body and the body's
/// HTML, or the error that stops it.
pub open spec fn document_of(raw: Seq<char>) -> Result<DocumentView, ParseError> {
    match split_document(raw) {
        None => Err(ParseError::MalformedDocument),
        Some(parts) => match front_matter_of(parts.0) {
            None => Err(ParseError::InvalidFrontMatter),
            Some(f) => Ok(DocumentView { front_matter: f, content: parts.1, html_content: commonmark_html(parts.1) }),
        },
    }
}

/// `r` is what reading `raw` gives.
pub open spec fn parses_to(raw: Seq<char>, r: Result<ParsedMarkdown, ParseError>) -> bool {
    match r {
        Ok(d) => document_of(raw) == Ok::<DocumentView, ParseError>(d@),
        Err(e) => document_of(raw) == Err::<DocumentView, ParseError>(e),
    }
}

/// Reading the same raw text twice gives the same document, or the same error.
pub proof fn lemma_parse_deterministic(
    raw: Seq<char>,
    r1: Result<ParsedMarkdown, ParseError>,
    r2: Result<ParsedMarkdown, ParseError>,
)
    requires
        parses_to(raw, r1),
        parses_to(raw, r2),
    ensures
        r1 is Ok <==> r2 is Ok,
        r1 is Ok ==> r1->Ok_0@ == r2->Ok_0@,
        r1 is Err ==> r1->Err_0 == r2->Err_0,
{
}

/// A markdown document handed over whole, ready to be read.
pub struct Markdown {
    content: String,
}

impl View for Markdown {
    type V = Seq<char>;

    closed spec fn view(&self) -> Seq<char> {
        self.content@
    }
}

impl Markdown {
    pub fn new(content: String) -> (r: Markdown)
        ensures
            r@ == content@,
    {
        Markdown { content }
    }

    /// Reads the document held.
    pub fn document(&self) -> (r: Result<ParsedMarkdown, ParseError>)
        ensures
            parses_to(self@, r),
    {
        Markdown::parse_document(self.content.as_str())
    }

    /// Splits `content` into its front matter, decoded, and its body.
    pub fn parse_frontmatter(content: &str) -> (r: Result<(FrontMatter, String), ParseError>)
        ensures
            match r {
                Ok(p) => split_document(content@) is Some && front_matter_of(
                    split_document(content@)->Some_0.0,
                ) == Some(p.0@) && p.1@ == split_document(content@)->Some_0.1,
                Err(ParseError::MalformedDocument) => split_document(content@) is None,
                Err(ParseError::InvalidFrontMatter) => split_document(content@) is Some
                    && front_matter_of(split_document(content@)->Some_0.0) is None,
            },
    {
        let lines = lines_of(content);
        let ghost ls = split_lines(content@);
        let start: usize = if lines.len() > 0 && is_delimiter_line(&lines[0]) {
            1
        } else {
            0
        };
        let mut k: usize = start;
        assert(first_delimiter(ls, start as int) == first_delimiter(ls, k as int));
        while k < lines.len() && !is_delimiter_line(&lines[k])
            invariant
                start <= k <= lines@.len(),
                views(lines@) == ls,
                first_delimiter(ls, start as int) == first_delimiter(ls, k as int),
            decreases lines@.len() - k,
        {
            k = k + 1;
        }
        if k == lines.len() {
            return Err(ParseError::MalformedDocument);
        }
        let front = join_line_range(&lines, start, k);
        let body = join_line_range(&lines, k + 1, lines.len());
        let mapping = match decode_mapping(front.as_str()) {
            Ok(m) => m,
            Err(_) => {
                return Err(ParseError::InvalidFrontMatter);
            },
        };
        let title = match string_entry(&mapping, "title") {
            Some(t) => t,
            None => {
                return Err(ParseError::InvalidFrontMatter);
            },
        };
        let date = match string_entry(&mapping, "date") {
            Some(d) => d,
            None => {
                return Err(ParseError::InvalidFrontMatter);
            },
        };
        let slug = match string_entry(&mapping, "slug") {
            Some(s) => s,
            None => slugify(title.as_str()),
        };
        let series = string_entry(&mapping, "series");
        let tags = string_list_entry(&mapping, "tags");
        Ok((FrontMatter { title, date, slug, series, tags }, body))
    }

    /// The HTML of a markdown body.
    pub fn parse(content: &str) -> (r: String)
        ensures
            r@ == commonmark_html(content@),
    {
        render_commonmark(content)
    }

    /// Reads a whole document: front matter, body, and the body's HTML.
    pub fn parse_document(raw: &str) -> (r: Result<ParsedMarkdown, ParseError>)
        ensures
            parses_to(raw@, r),
    {
        match Markdown::parse_frontmatter(raw) {
            Ok((front_matter, content)) => {
                let html_content = Markdown::parse(content.as_str());
                Ok(ParsedMarkdown { front_matter, content, html_content })
            },
            Err(e) => Err(e),
        }
    }
}

/// Whether `line` opens or closes the front matter.
fn is_delimiter_line(line: &Vec<char>) -> (r: bool)
    ensures
        r == is_delimiter(line@),
{
    proof {
        reveal_strlit("---");
        reveal_strlit("---\r");
    }
    let n = line.len();
    if n != 3 && n != 4 {
        return false;
    }
    let dashes = line[0] == '-' && line[1] == '-' && line[2] == '-';
    if n == 3 {
        assert(dashes ==> line@ =~= "---"@);
        dashes
    } else {
        assert(dashes && line[3] == '\r' ==> line@ =~= "---\r"@);
        dashes && line[3] == '\r'
    }
}

} // verus!
