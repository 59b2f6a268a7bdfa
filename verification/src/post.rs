use vstd::prelude::*;

use crate::date::{self, date_path_chars, parse_date, PostDate};
use crate::headers::{self, header_lines, header_map, other_lines, Headers};
use crate::highlight::{self, highlighted_html_for, Highlighter};
use crate::invalid_post_error::InvalidPostError;
use crate::slug::{self, slug};
use crate::snippets::{self, code_snippets, Piece, PieceView};
use crate::text::{self, chars_of, remove_all, string_of, trim};

verus! {

// ---------------------------------------------------------------------------
// Rendering the body of a post
// ---------------------------------------------------------------------------

/// What CommonMark rendering, as `pulldown_cmark` does it with no extensions, gives for a
/// Markdown text.
pub uninterp spec fn commonmark_html(markdown: Seq<char>) -> Seq<char>;

/// Calls `pulldown_cmark::Parser::new` and `pulldown_cmark::html::push_html`.
/// Claimed of them: the HTML is a function of the Markdown text alone (named
/// `commonmark_html`); what that HTML is for a given text is left unsaid.
#[verifier::external_body]
fn markdown_to_html(markdown: &str) -> (html: String)
    ensures
        html@ == commonmark_html(markdown@),
{
    let parser = pulldown_cmark::Parser::new(markdown);
    let mut html = String::new();
    pulldown_cmark::html::push_html(&mut html, parser);
    html
}

/// The lines, each followed by a line feed.
pub open spec fn markdown_text(lines: Seq<String>) -> Seq<char>
    decreases lines.len(),
{
    if lines.len() == 0 {
        Seq::empty()
    } else {
        markdown_text(lines.drop_last()) + lines.last()@ + "\n"@
    }
}

/// How a piece is written: text as it is, and a snippet as its trimmed code highlighted as
/// its attributes ask.
pub open spec fn piece_html(h: Highlighter, p: PieceView) -> Seq<char> {
    match p {
        PieceView::Text(t) => t,
        PieceView::Snippet(a, c) => highlight::highlighted(h, a, text::trimmed(c)),
    }
}

/// The pieces written one after the other.
pub open spec fn pieces_html(h: Highlighter, ps: Seq<PieceView>) -> Seq<char>
    decreases ps.len(),
{
    if ps.len() == 0 {
        Seq::empty()
    } else {
        pieces_html(h, ps.drop_last()) + piece_html(h, ps.last())
    }
}

/// `html` with each of its code snippets highlighted and the text around them kept.
pub open spec fn highlight_snippets(h: Highlighter, html: Seq<char>) -> Seq<char> {
    pieces_html(h, snippets::pieces_of(html))
}

/// An HTML text with no code snippet is left as it is when snippets are highlighted.
pub proof fn law_text_without_snippets_is_unchanged(h: Highlighter, html: Seq<char>)
    requires
        snippets::find_snippet(html, 0) is None,
    ensures
        highlight_snippets(h, html) == html,
{
    let ps = snippets::pieces_of(html);
    if html.len() == 0 {
        assert(ps =~= Seq::<PieceView>::empty());
    } else {
        assert(ps =~= seq![PieceView::Text(html)]);
        assert(ps.drop_last() =~= Seq::<PieceView>::empty());
        assert(pieces_html(h, ps.drop_last()) =~= Seq::<char>::empty());
        assert(pieces_html(h, ps) =~= html);
    }
}

/// Each `<pre ...>...</pre>` snippet of `html` written as its attributes ask: the code
/// trimmed, then highlighted, or for attributes that ask for no language, put back in a
/// `<pre>` element with those attributes.
pub fn with_highlighted_code_snippets(html: &String, highlighter: &Highlighter) -> (r: String)
    ensures
        r@ == highlight_snippets(*highlighter, html@),
{
    let pieces = code_snippets(html);
    let ghost ps = pieces@.map_values(|p: Piece| p@);
    let mut r = String::new();
    let mut i: usize = 0;
    while i < pieces.len()
        invariant
            i <= pieces@.len(),
            ps == pieces@.map_values(|p: Piece| p@),
            ps == snippets::pieces_of(html@),
            r@ == pieces_html(*highlighter, ps.take(i as int)),
        decreases pieces@.len() - i,
    {
        let out = match &pieces[i] {
            Piece::Text(t) => t.clone(),
            Piece::Snippet { attributes, code } => {
                let trimmed = string_of(&trim(&chars_of(code.as_str())));
                highlighted_html_for(&trimmed, Some(attributes.clone()), highlighter)
            },
        };
        proof {
            assert(ps[i as int] == pieces@[i as int]@);
            assert(ps.take(i + 1).drop_last() =~= ps.take(i as int));
            assert(ps.take(i + 1).last() == ps[i as int]);
        }
        r.append(out.as_str());
        i = i + 1;
    }
    proof {
        assert(ps.take(ps.len() as int) =~= ps);
    }
    r
}

/// `str::replace(html, "DELIM", "")`: every `DELIM` marker taken out, left to right.
pub fn with_delim_removed(html: String) -> (r: String)
    ensures
        r@ == text::without(html@, "DELIM"@),
{
    let pat = chars_of("DELIM");
    proof {
        reveal_strlit("DELIM");
    }
    string_of(&remove_all(&chars_of(html.as_str()), &pat))
}

/// The HTML of a post body written in Markdown: CommonMark rendering of the body lines, code
/// snippets highlighted, `DELIM` markers removed.
pub open spec fn rendered_markdown(h: Highlighter, body: Seq<String>) -> Seq<char> {
    text::without(highlight_snippets(h, commonmark_html(markdown_text(body))), "DELIM"@)
}

/// The lines after the header block of a post.
pub open spec fn body_lines(lines: Seq<String>) -> Seq<String> {
    lines.skip(headers::header_count(lines) as int)
}

/// Header lines put in front of a post's lines leave its body as it is, and so the HTML
/// rendered from it.
pub proof fn law_leading_header_lines_leave_the_body(
    h: Highlighter,
    hs: Seq<String>,
    lines: Seq<String>,
)
    requires
        forall|i: int| 0 <= i < hs.len() ==> headers::is_header_line(#[trigger] hs[i]@),
    ensures
        body_lines(hs + lines) == body_lines(lines),
        rendered_markdown(h, body_lines(hs + lines)) == rendered_markdown(h, body_lines(lines)),
    decreases hs.len(),
{
    if hs.len() > 0 {
        let t = hs.drop_first();
        assert forall|i: int| 0 <= i < t.len() implies headers::is_header_line(
            #[trigger] t[i]@,
        ) by {
            assert(t[i] == hs[i + 1]);
        }
        law_leading_header_lines_leave_the_body(h, t, lines);
        assert((hs + lines).drop_first() =~= t + lines);
        assert((hs + lines)[0] == hs[0]);
        assert(headers::is_header_line(hs[0]@));
        headers::lemma_header_count(t + lines);
        let k = headers::header_count(t + lines) as int;
        assert(headers::header_count(hs + lines) == 1 + k);
        assert((hs + lines).skip(1 + k) =~= (t + lines).skip(k));
    }
}

/// The Markdown rendered for a post is every body line followed by a line feed, blank lines
/// included, in order; no lines give no text.
pub proof fn law_markdown_is_each_line_and_a_line_feed(lines: Seq<String>, line: String)
    ensures
        markdown_text(Seq::<String>::empty()) == Seq::<char>::empty(),
        markdown_text(lines.push(line)) == markdown_text(lines) + line@ + "\n"@,
{
    assert(lines.push(line).drop_last() =~= lines);
}

fn markdown_of(lines: &Vec<String>) -> (m: String)
    ensures
        m@ == markdown_text(lines@),
{
    let mut m = String::new();
    let mut i: usize = 0;
    while i < lines.len()
        invariant
            i <= lines@.len(),
            m@ == markdown_text(lines@.take(i as int)),
        decreases lines@.len() - i,
    {
        proof {
            assert(lines@.take(i + 1).drop_last() =~= lines@.take(i as int));
        }
        m.append(lines[i].as_str());
        m.append("\n");
        i = i + 1;
    }
    proof {
        assert(lines@.take(lines@.len() as int) =~= lines@);
    }
    m
}

/// The HTML of a post written in Markdown, from all its lines: the lines after the header
/// block, each followed by a line feed, rendered as CommonMark, with code snippets highlighted
/// and `DELIM` markers removed.
pub fn html_from_markdown(lines: &Vec<String>, highlighter: &Highlighter) -> (r: String)
    ensures
        r@ == rendered_markdown(*highlighter, body_lines(lines@)),
{
    let body = other_lines(lines);
    let markdown = markdown_of(&body);
    let html = markdown_to_html(markdown.as_str());
    let highlighted = with_highlighted_code_snippets(&html, highlighter);
    with_delim_removed(highlighted)
}

/// The HTML of a post: the `html_file` it names in an `html` header, or else its body
/// rendered from Markdown. The caller reads the named file, or fails to, beforehand.
pub fn html(
    lines: &Vec<String>,
    header_map: &Headers,
    html_file: Option<Result<String, InvalidPostError>>,
    highlighter: &Highlighter,
) -> (r: Result<String, InvalidPostError>)
    requires
        html_file is Some <==> header_map@.contains_key("html"@),
    ensures
        match html_file {
            Some(read) => r == read,
            None => r matches Ok(h) && h@ == rendered_markdown(*highlighter, body_lines(lines@)),
        },
{
    match html_file {
        Some(read) => read,
        None => Ok(html_from_markdown(lines, highlighter)),
    }
}

// ---------------------------------------------------------------------------
// URLs and paths
// ---------------------------------------------------------------------------

/// `url` without its leading `/`, if it has one.
pub open spec fn without_leading_slash(url: Seq<char>) -> Seq<char> {
    if url.len() > 0 && url[0] == '/' {
        url.drop_first()
    } else {
        url
    }
}

/// Drops one leading `/` from a URL.
pub fn url_without_leading_slash(url: &str) -> (r: String)
    ensures
        r@ == without_leading_slash(url@),
{
    let v = chars_of(url);
    if v.len() > 0 && v[0] == '/' {
        let r = string_of(&text::slice_chars(&v, 1, v.len()));
        proof {
            assert(v@.subrange(1, v@.len() as int) =~= v@.drop_first());
        }
        r
    } else {
        string_of(&v)
    }
}

/// The URL a post gets from its date and title: `year/month/day/slug`.
pub open spec fn url_from_title_and_date_spec(title: Seq<char>, d: PostDate) -> Seq<char> {
    date::date_path(d) + "/"@ + slug::spec_slug(title)
}

/// The URL of a post: its `url` header without a leading `/`, or else the one from its date
/// and title.
pub open spec fn post_url(headers: Map<Seq<char>, Seq<char>>, title: Seq<char>, d: PostDate) -> Seq<
    char,
> {
    if headers.contains_key("url"@) {
        without_leading_slash(headers["url"@])
    } else {
        url_from_title_and_date_spec(title, d)
    }
}

/// `year/month/day` of a date, such as `2018/1/18`.
pub fn url_from_date(date: &PostDate) -> (r: String)
    ensures
        r@ == date::date_path(*date),
{
    string_of(&date_path_chars(date))
}

/// Builds the URL of a post from its date and title.
pub fn url_from_title_and_date(title: &String, date: &PostDate) -> (r: String)
    ensures
        r@ == url_from_title_and_date_spec(title@, *date),
{
    let mut path = url_from_date(date);
    path.append("/");
    let s = slug(title);
    path.append(s.as_str());
    path
}

/// Builds the URL of a post from its headers.
pub fn url_from_headers(header_map: &Headers, title: &String, date: &PostDate) -> (r: String)
    ensures
        r@ == post_url(header_map@, title@, *date),
{
    match header_map.get("url") {
        Some(url) => url_without_leading_slash(url.as_str()),
        None => url_from_title_and_date(title, date),
    }
}

/// Where the character `c` last occurs in `u[lo..hi]`.
pub open spec fn last_index(u: Seq<char>, c: char, lo: int, hi: int) -> Option<int>
    decreases hi - lo,
{
    if hi <= lo {
        None
    } else if u[hi - 1] == c {
        Some(hi - 1)
    } else {
        last_index(u, c, lo, hi - 1)
    }
}

/// Where the components of the path `u` start: after a leading `/`, or after a leading `.`
/// that stands alone as the first component.
pub open spec fn body_start(u: Seq<char>) -> int {
    if u.len() > 0 && u[0] == '/' {
        1
    } else if u.len() > 0 && u[0] == '.' && (u.len() == 1 || u[1] == '/') {
        1
    } else {
        0
    }
}

/// The last component of `u[lo..hi]`, skipping empty and `.` components: the bounds of a
/// name, or `None` when there is none or the last one is `..`.
pub open spec fn last_name(u: Seq<char>, lo: int, hi: int) -> Option<(int, int)>
    decreases hi - lo,
{
    if hi <= lo {
        None
    } else {
        let start = match last_index(u, '/', lo, hi) {
            Some(j) => j + 1,
            None => lo,
        };
        let next = match last_index(u, '/', lo, hi) {
            Some(j) => j,
            None => lo,
        };
        let comp = u.subrange(start, hi);
        if comp.len() == 0 || comp == seq!['.'] {
            if lo <= next < hi {
                last_name(u, lo, next)
            } else {
                None
            }
        } else if comp == seq!['.', '.'] {
            None
        } else {
            Some((start, hi))
        }
    }
}

/// Where the stem of the name `u[s..e]` ends: before its last `.`, unless that `.` starts
/// the name or there is none.
pub open spec fn stem_end(u: Seq<char>, s: int, e: int) -> int {
    match last_index(u, '.', s, e) {
        Some(d) => if d == s {
            e
        } else {
            d
        },
        None => e,
    }
}

/// The path `u` with the extension of its last name set to `html`, as a path of
/// `/`-separated components: the text up to the end of the name's stem, then `.html`; and
/// `u` unchanged when it ends in no name.
pub open spec fn html_path(u: Seq<char>) -> Seq<char> {
    match last_name(u, body_start(u), u.len() as int) {
        Some((s, e)) => u.take(stem_end(u, s, e)) + ".html"@,
        None => u,
    }
}

proof fn lemma_last_index_skip(u: Seq<char>, c: char, lo: int, mid: int, hi: int)
    requires
        lo <= mid <= hi <= u.len(),
        0 <= lo,
        forall|k: int| mid <= k < hi ==> u[k] != c,
    ensures
        last_index(u, c, lo, hi) == last_index(u, c, lo, mid),
    decreases hi - mid,
{
    if hi > mid {
        lemma_last_index_skip(u, c, lo, mid, hi - 1);
    }
}

proof fn lemma_last_index_bounds(u: Seq<char>, c: char, lo: int, hi: int)
    ensures
        last_index(u, c, lo, hi) matches Some(j) ==> lo <= j < hi && u[j] == c,
    decreases hi - lo,
{
    if hi > lo && u[hi - 1] != c {
        lemma_last_index_bounds(u, c, lo, hi - 1);
    }
}

proof fn lemma_last_index_last(u: Seq<char>, c: char, lo: int, hi: int)
    ensures
        match last_index(u, c, lo, hi) {
            Some(j) => forall|k: int| j < k < hi ==> u[k] != c,
            None => forall|k: int| lo <= k < hi ==> u[k] != c,
        },
    decreases hi - lo,
{
    if hi > lo && u[hi - 1] != c {
        lemma_last_index_last(u, c, lo, hi - 1);
    }
}

/// The name that `last_name` finds follows a `/` (or starts the range), holds no `/`, and is
/// neither empty, `.` nor `..`.
proof fn lemma_last_name_shape(u: Seq<char>, lo: int, hi: int)
    requires
        0 <= lo <= hi <= u.len(),
    ensures
        last_name(u, lo, hi) matches Some((s, e)) ==> {
            &&& lo <= s < e <= hi
            &&& (s > lo ==> u[s - 1] == '/')
            &&& forall|k: int| s <= k < e ==> u[k] != '/'
            &&& u.subrange(s, e) != seq!['.']
            &&& u.subrange(s, e) != seq!['.', '.']
        },
    decreases hi - lo,
{
    if hi > lo {
        lemma_last_index_bounds(u, '/', lo, hi);
        lemma_last_index_last(u, '/', lo, hi);
        let next = match last_index(u, '/', lo, hi) {
            Some(j) => j,
            None => lo,
        };
        if lo <= next < hi {
            lemma_last_name_shape(u, lo, next);
        }
    }
}

/// The file path of a post keeps the directories of its URL and the stem of the URL's last
/// name, and gives that name the extension `html`; a URL that ends in no name is kept as it
/// is. Setting the extension of a path that already has `html` changes nothing.
pub proof fn law_html_path_sets_the_extension(u: Seq<char>)
    ensures
        match last_name(u, body_start(u), u.len() as int) {
            Some((s, e)) => {
                let r = html_path(u);
                let m = stem_end(u, s, e);
                &&& s < m <= e
                &&& r.take(m) == u.take(m)
                &&& last_name(r, body_start(r), r.len() as int) == Some((s, r.len() as int))
                &&& stem_end(r, s, r.len() as int) == m
                &&& r.skip(m) == ".html"@
            },
            None => html_path(u) == u,
        },
        html_path(html_path(u)) == html_path(u),
{
    let lo = body_start(u);
    lemma_last_name_shape(u, lo, u.len() as int);
    if let Some((s, e)) = last_name(u, lo, u.len() as int) {
        reveal_strlit(".html");
        lemma_last_index_bounds(u, '.', s, e);
        let m = stem_end(u, s, e);
        let r = html_path(u);
        assert(r == u.take(m) + ".html"@);
        let n = r.len() as int;
        assert(n == m + 5);
        assert(r.take(m) =~= u.take(m));
        assert(r.skip(m) =~= ".html"@);
        assert(body_start(r) == lo);
        // The last `/` of r within its components is the one before the name, if any.
        assert forall|k: int| s <= k < n implies r[k] != '/' by {
            if k < m {
                assert(r[k] == u[k]);
            }
        }
        lemma_last_index_skip(r, '/', lo, s, n);
        if s > lo {
            assert(r[s - 1] == u[s - 1]);
        }
        let comp = r.subrange(s, n);
        assert(comp.len() >= 5);
        assert(comp != seq!['.']);
        assert(comp != seq!['.', '.']);
        assert(last_name(r, lo, n) == Some((s, n)));
        // The last `.` of the name is the one that starts `.html`.
        assert forall|k: int| m + 1 <= k < n implies r[k] != '.' by {
            assert(r[k] == ".html"@[k - m]);
        }
        lemma_last_index_skip(r, '.', s, m + 1, n);
        assert(r[m] == '.');
        assert(last_index(r, '.', s, m + 1) == Some(m));
        assert(stem_end(r, s, n) == m);
        assert(html_path(r) =~= r.take(m) + ".html"@);
    }
}

fn last_index_exec(u: &Vec<char>, c: char, lo: usize, hi: usize) -> (r: Option<usize>)
    requires
        lo <= hi <= u@.len(),
    ensures
        match r {
            Some(j) => last_index(u@, c, lo as int, hi as int) == Some(j as int),
            None => last_index(u@, c, lo as int, hi as int) is None,
        },
{
    let mut i = hi;
    while i > lo
        invariant
            lo <= i <= hi <= u@.len(),
            forall|k: int| i <= k < hi ==> u@[k] != c,
        decreases i,
    {
        if u[i - 1] == c {
            proof {
                lemma_last_index_skip(u@, c, lo as int, i as int, hi as int);
            }
            return Some(i - 1);
        }
        i = i - 1;
    }
    proof {
        lemma_last_index_skip(u@, c, lo as int, lo as int, hi as int);
    }
    None
}

fn last_name_exec(u: &Vec<char>, lo: usize, hi: usize) -> (r: Option<(usize, usize)>)
    requires
        lo <= hi <= u@.len(),
    ensures
        match r {
            Some((s, e)) => last_name(u@, lo as int, hi as int) == Some((s as int, e as int))
                && lo <= s <= e <= hi,
            None => last_name(u@, lo as int, hi as int) is None,
        },
    decreases hi - lo,
{
    if hi <= lo {
        return None;
    }
    let sep = last_index_exec(u, '/', lo, hi);
    proof {
        lemma_last_index_bounds(u@, '/', lo as int, hi as int);
    }
    let (start, next) = match sep {
        Some(j) => (j + 1, j),
        None => (lo, lo),
    };
    let len = hi - start;
    proof {
        assert(u@.subrange(start as int, hi as int).len() == len);
    }
    if len == 0 || (len == 1 && u[start] == '.') {
        proof {
            if len == 1 {
                assert(u@.subrange(start as int, hi as int) =~= seq!['.']);
            }
        }
        if lo <= next && next < hi {
            last_name_exec(u, lo, next)
        } else {
            None
        }
    } else if len == 2 && u[start] == '.' && u[start + 1] == '.' {
        proof {
            assert(u@.subrange(start as int, hi as int) =~= seq!['.', '.']);
        }
        None
    } else {
        proof {
            let comp = u@.subrange(start as int, hi as int);
            if len == 1 {
                assert(comp[0] == u@[start as int]);
                assert(comp != seq!['.']);
            }
            if len == 2 {
                assert(comp[0] == u@[start as int]);
                assert(comp[1] == u@[start + 1]);
                assert(comp != seq!['.', '.']);
            }
        }
        Some((start, hi))
    }
}

/// The file path a post is written to, relative to the output directory: its URL with the
/// extension of the last name set to `html`.
pub fn path_from_url(url: &String) -> (p: String)
    ensures
        p@ == html_path(url@),
{
    let u = chars_of(url.as_str());
    let start: usize = if u.len() > 0 && u[0] == '/' {
        1
    } else if u.len() > 0 && u[0] == '.' && (u.len() == 1 || u[1] == '/') {
        1
    } else {
        0
    };
    match last_name_exec(&u, start, u.len()) {
        Some((s, e)) => {
            let end = match last_index_exec(&u, '.', s, e) {
                Some(d) => if d == s {
                    e
                } else {
                    d
                },
                None => e,
            };
            proof {
                lemma_last_index_bounds(u@, '.', s as int, e as int);
            }
            let mut p = string_of(&text::slice_chars(&u, 0, end));
            p.append(".html");
            proof {
                assert(u@.subrange(0, end as int) =~= u@.take(end as int));
            }
            p
        },
        None => url.clone(),
    }
}

/// The path `u` ends in a name whose extension, the text after its last `.` (a `.` that
/// does not start the name), is `markdown`.
pub open spec fn is_markdown_path(u: Seq<char>) -> bool {
    match last_name(u, body_start(u), u.len() as int) {
        Some((s, e)) => match last_index(u, '.', s, e) {
            Some(d) => d != s && u.subrange(d + 1, e) == "markdown"@,
            None => false,
        },
        None => false,
    }
}

/// Whether the file at `path` is a post: its extension is `markdown`.
pub fn has_markdown_extension(path: &String) -> (b: bool)
    ensures
        b == is_markdown_path(path@),
{
    let u = chars_of(path.as_str());
    let start: usize = if u.len() > 0 && u[0] == '/' {
        1
    } else if u.len() > 0 && u[0] == '.' && (u.len() == 1 || u[1] == '/') {
        1
    } else {
        0
    };
    match last_name_exec(&u, start, u.len()) {
        Some((s, e)) => match last_index_exec(&u, '.', s, e) {
            Some(d) => {
                proof {
                    lemma_last_index_bounds(u@, '.', s as int, e as int);
                }
                if d == s {
                    false
                } else {
                    let ext = text::slice_chars(&u, d + 1, e);
                    text::chars_equal(&ext, &chars_of("markdown"))
                }
            },
            None => false,
        },
        None => false,
    }
}

// ---------------------------------------------------------------------------
// Posts
// ---------------------------------------------------------------------------

/// A blog post, read from a Markdown file with a block of headers at its top.
#[derive(Debug, Clone)]
pub struct Post {
    /// Where the post is written, relative to the output directory.
    pub path: String,
    /// The post's URL, relative to the site.
    pub url: String,
    pub title: String,
    pub date: PostDate,
    pub tag: Option<String>,
    pub headers: Headers,
    /// The post's HTML.
    pub content: String,
}

/// The headers of the post with these lines.
pub open spec fn post_headers(lines: Seq<String>) -> Map<Seq<char>, Seq<char>> {
    headers::headers_of(lines.take(headers::header_count(lines) as int))
}

/// Why the headers of the post with these lines make no post, if they do not.
pub open spec fn header_error(lines: Seq<String>) -> Option<Seq<char>> {
    let h = post_headers(lines);
    if !h.contains_key("title"@) {
        Some("Missing title"@)
    } else if !h.contains_key("date"@) {
        Some("Missing date"@)
    } else if date::spec_parse_date(h["date"@]) is None {
        Some("Invalid date"@)
    } else {
        None
    }
}

/// `p` is the post that these lines describe, with HTML `content`.
pub open spec fn post_from_lines(lines: Seq<String>, content: Seq<char>, p: Post) -> bool {
    let h = post_headers(lines);
    &&& header_error(lines) is None
    &&& p.title@ == h["title"@]
    &&& date::spec_parse_date(h["date"@]) == Some(p.date)
    &&& p.url@ == post_url(h, p.title@, p.date)
    &&& p.path@ == html_path(p.url@)
    &&& match p.tag {
        Some(t) => h.contains_key("tag"@) && t@ == h["tag"@],
        None => !h.contains_key("tag"@),
    }
    &&& p.headers@ == h
    &&& p.content@ == content
}

/// The characters of the first 400 bytes of the UTF-8 encoding of `content`.
pub open spec fn summary_text(content: Seq<char>) -> Seq<char> {
    vstd::utf8::decode_utf8(vstd::utf8::encode_utf8(content).subrange(0, 400))
}

fn date_from_headers(header_map: &Headers, input_path: &String) -> (r: Result<
    PostDate,
    InvalidPostError,
>)
    ensures
        !header_map@.contains_key("date"@) ==> (r matches Err(e) && e@ == (
            Some(input_path@),
            "Missing date"@,
        )),
        header_map@.contains_key("date"@) ==> match date::spec_parse_date(header_map@["date"@]) {
            Some(d) => r == Ok::<PostDate, InvalidPostError>(d),
            None => r matches Err(e) && e@ == (Some(input_path@), "Invalid date"@),
        },
{
    match header_map.get("date") {
        None => Err(InvalidPostError::new_for_path(input_path, "Missing date")),
        Some(date_string) => match parse_date(date_string.as_str()) {
            Some(d) => Ok(d),
            None => Err(InvalidPostError::new_for_path(input_path, "Invalid date")),
        },
    }
}

/// The piece is a snippet that asks to be highlighted in a language.
pub open spec fn asks_for_language(p: PieceView) -> bool {
    match p {
        PieceView::Snippet(a, _) => !(highlight::language_of(a) is Plain),
        PieceView::Text(_) => false,
    }
}

/// A snippet of the HTML asks to be highlighted in a language.
pub open spec fn asks_for_highlighting(html: Seq<char>) -> bool {
    exists|i: int|
        0 <= i < snippets::pieces_of(html).len() && asks_for_language(
            #[trigger] snippets::pieces_of(html)[i],
        )
}

/// Reading the post with these lines highlights code with a syntax: its headers make a
/// post, it has no `html` header, and a snippet of its rendered Markdown asks for a
/// language.
pub open spec fn post_needs_highlighting(lines: Seq<String>) -> bool {
    &&& header_error(lines) is None
    &&& !post_headers(lines).contains_key("html"@)
    &&& asks_for_highlighting(commonmark_html(markdown_text(body_lines(lines))))
}

/// Where no snippet asks for a language, any two highlighters write the same HTML.
pub proof fn law_plain_snippets_need_no_syntaxes(h1: Highlighter, h2: Highlighter, html: Seq<char>)
    requires
        !asks_for_highlighting(html),
    ensures
        highlight_snippets(h1, html) == highlight_snippets(h2, html),
{
    let ps = snippets::pieces_of(html);
    assert forall|i: int| 0 <= i < ps.len() implies piece_html(h1, #[trigger] ps[i]) == piece_html(
        h2,
        ps[i],
    ) by {
        assert(!asks_for_language(ps[i]));
    }
    lemma_pieces_html_agree(h1, h2, ps);
}

proof fn lemma_pieces_html_agree(h1: Highlighter, h2: Highlighter, ps: Seq<PieceView>)
    requires
        forall|i: int| 0 <= i < ps.len() ==> piece_html(h1, #[trigger] ps[i]) == piece_html(h2, ps[i]),
    ensures
        pieces_html(h1, ps) == pieces_html(h2, ps),
    decreases ps.len(),
{
    if ps.len() > 0 {
        let q = ps.drop_last();
        assert forall|i: int| 0 <= i < q.len() implies piece_html(h1, #[trigger] q[i]) == piece_html(
            h2,
            q[i],
        ) by {
            assert(q[i] == ps[i]);
        }
        lemma_pieces_html_agree(h1, h2, q);
        assert(piece_html(h1, ps[ps.len() - 1]) == piece_html(h2, ps[ps.len() - 1]));
    }
}

/// Whether reading the post with these lines highlights code with a syntax, so that the
/// syntax definitions are needed: see `post_needs_highlighting`.
pub fn needs_highlighting(lines: &Vec<String>) -> (b: bool)
    ensures
        b == post_needs_highlighting(lines@),
{
    let header_map = header_map(&header_lines(lines));
    if !header_map.contains_key("title") || header_map.contains_key("html") {
        return false;
    }
    match header_map.get("date") {
        None => {
            return false;
        },
        Some(d) => if parse_date(d.as_str()).is_none() {
            return false;
        },
    }
    let body = other_lines(lines);
    let markdown = markdown_of(&body);
    let html = markdown_to_html(markdown.as_str());
    let pieces = code_snippets(&html);
    let ghost ps = pieces@.map_values(|p: Piece| p@);
    let mut i: usize = 0;
    while i < pieces.len()
        invariant
            i <= pieces@.len(),
            ps == pieces@.map_values(|p: Piece| p@),
            ps == snippets::pieces_of(html@),
            html@ == commonmark_html(markdown_text(body_lines(lines@))),
            header_error(lines@) is None,
            !post_headers(lines@).contains_key("html"@),
            forall|j: int| 0 <= j < i ==> !asks_for_language(#[trigger] ps[j]),
        decreases pieces@.len() - i,
    {
        proof {
            assert(ps[i as int] == pieces@[i as int]@);
        }
        match &pieces[i] {
            Piece::Snippet { attributes, .. } => {
                match highlight::language(attributes) {
                    highlight::Language::Plain => {},
                    _ => {
                        proof {
                            assert(asks_for_language(ps[i as int]));
                        }
                        return true;
                    },
                }
            },
            Piece::Text(_) => {},
        }
        i = i + 1;
    }
    false
}

impl Post {
    /// The post that the lines of the file at `input_path` describe.
    ///
    /// It fails with `Missing title`, `Missing date` or `Invalid date` (in that order of
    /// precedence) about `input_path` when its headers lack a title or a valid `%Y/%m/%d`
    /// date. A post with an `html` header takes its HTML from the file that header names,
    /// which the caller reads beforehand and hands over as `html_file` (failing as that read
    /// failed); any other post is rendered from the Markdown of its body.
    pub fn from(
        input_path: &String,
        lines: &Vec<String>,
        html_file: Option<Result<String, InvalidPostError>>,
        highlighter: &Highlighter,
    ) -> (r: Result<Post, InvalidPostError>)
        requires
            html_file is Some <==> post_headers(lines@).contains_key("html"@),
        ensures
            match header_error(lines@) {
                Some(msg) => r matches Err(e) && e@ == (Some(input_path@), msg),
                None => match html_file {
                    Some(Ok(h)) => r matches Ok(p) && post_from_lines(lines@, h@, p),
                    Some(Err(e)) => r matches Err(e2) && e2 == e,
                    None => r matches Ok(p) && post_from_lines(
                        lines@,
                        rendered_markdown(*highlighter, body_lines(lines@)),
                        p,
                    ),
                },
            },
    {
        let header_lines = header_lines(lines);
        let header_map = header_map(&header_lines);
        let title = match header_map.get("title") {
            Some(t) => t.clone(),
            None => {
                return Err(InvalidPostError::new_for_path(input_path, "Missing title"));
            },
        };
        let date = match date_from_headers(&header_map, input_path) {
            Ok(d) => d,
            Err(e) => {
                return Err(e);
            },
        };
        let url = url_from_headers(&header_map, &title, &date);
        let content = match html(lines, &header_map, html_file, highlighter) {
            Ok(c) => c,
            Err(e) => {
                return Err(e);
            },
        };
        let tag = match header_map.get("tag") {
            Some(t) => Some(t.clone()),
            None => None,
        };
        let path = path_from_url(&url);
        Ok(Post { path, url, title, date, tag, headers: header_map, content })
    }

    /// The first 400 bytes of the post's HTML, which must end on a character boundary.
    pub fn summary(&self) -> (s: String)
        requires
            vstd::utf8::is_char_boundary(vstd::utf8::encode_utf8(self.content@), 400),
        ensures
            s@ == summary_text(self.content@),
            vstd::utf8::encode_utf8(s@) == vstd::utf8::encode_utf8(self.content@).subrange(
                0,
                400,
            ),
            s@ == self.content@.take(s@.len() as int),
    {
        let content = self.content.as_str();
        let (head, _rest) = content.split_at(400);
        proof {
            let bytes = vstd::utf8::encode_utf8(self.content@);
            vstd::utf8::encode_utf8_valid_utf8(self.content@);
            vstd::utf8::encode_utf8_decode_utf8(self.content@);
            vstd::utf8::encode_utf8_decode_utf8(head@);
            vstd::utf8::decode_utf8_split(bytes, 400);
        }
        head.to_owned()
    }
}

} // verus!
