use vstd::prelude::*;

pub mod book_page;
pub mod home_page;
pub mod post;
pub mod rss;

verus! {

// ---------------------------------------------------------------------------
// HTML escaping
// ---------------------------------------------------------------------------

/// How one character is written in HTML text: `&`, `<`, `>` and `"` as entities.
pub open spec fn escaped_char(c: char) -> Seq<char> {
    if c == '&' {
        "&amp;"@
    } else if c == '<' {
        "&lt;"@
    } else if c == '>' {
        "&gt;"@
    } else if c == '"' {
        "&quot;"@
    } else {
        seq![c]
    }
}

/// `s` escaped for HTML text and attribute values.
pub open spec fn html_escaped(s: Seq<char>) -> Seq<char>
    decreases s.len(),
{
    if s.len() == 0 {
        Seq::empty()
    } else {
        html_escaped(s.drop_last()) + escaped_char(s.last())
    }
}

/// Calls `maud::Render::render` on a string slice, which escapes it as maud writes text
/// into its templates. Claimed of it: every `&`, `<`, `>` and `"` becomes `&amp;`, `&lt;`,
/// `&gt;` and `&quot;`, and every other character is kept.
#[verifier::external_body]
pub(crate) fn escape(s: &str) -> (r: String)
    ensures
        r@ == html_escaped(s@),
{
    maud::Render::render(s).into_string()
}

/// Escaped text holds no `<`, `>` or `"`: it cannot open or close a tag or an attribute.
pub proof fn law_escaped_text_has_no_markup(s: Seq<char>)
    ensures
        forall|i: int| 0 <= i < html_escaped(s).len() ==> {
            let c = #[trigger] html_escaped(s)[i];
            c != '<' && c != '>' && c != '"'
        },
    decreases s.len(),
{
    reveal_strlit("&amp;");
    reveal_strlit("&lt;");
    reveal_strlit("&gt;");
    reveal_strlit("&quot;");
    if s.len() > 0 {
        law_escaped_text_has_no_markup(s.drop_last());
        let a = html_escaped(s.drop_last());
        let b = escaped_char(s.last());
        assert forall|i: int| 0 <= i < html_escaped(s).len() implies {
            let c = #[trigger] html_escaped(s)[i];
            c != '<' && c != '>' && c != '"'
        } by {
            if i < a.len() {
                assert(html_escaped(s)[i] == a[i]);
            } else {
                assert(html_escaped(s)[i] == b[i - a.len()]);
            }
        }
    }
}

// ---------------------------------------------------------------------------
// The page around every page of the site
// ---------------------------------------------------------------------------

/// The start of every page, up to the text of its title.
pub const PAGE_HEAD: &'static str = "<!DOCTYPE html><html lang=\"en\"><head><meta charset=\"utf-8\"><title>";

/// What follows the title of a page with its own title.
pub const TITLE_SUFFIX: &'static str = " - Pat Shaughnessy";

/// The title of a page without a title of its own.
pub const SITE_NAME: &'static str = "Pat Shaughnessy";

/// From the end of the title to the start of the content.
pub const PAGE_MIDDLE: &'static str = "</title><meta name=\"description\" content=\"\"><meta name=\"author\" content=\"\"><meta name=\"viewport\" content=\"width=device-width, initial-scale=1\"><link rel=\"stylesheet\" href=\"/assets/css/normalize.css\"><link rel=\"stylesheet\" href=\"/assets/css/skeleton.css\"><link rel=\"alternate\" type=\"application/atom+xml\" title=\"Pat Shaughnessy - Feed\" href=\"http://feeds2.feedburner.com/patshaughnessy\"><link rel=\"icon\" type=\"image/png\" href=\"images/favicon.png\"></head><body><div id=\"banner\"><a href=\"/\"><span id=\"title\">Pat Shaughnessy</span><span id=\"tagline\"> blogger, rubyist, aspiring author</span></a></div><div class=\"container\"><div class=\"row\"><div class=\"one-half column\" style=\"margin-top: 35px\">";

/// The end of every page, after its content.
pub const PAGE_TAIL: &'static str = "<div class=\"row\" id=\"copyright\"><p>Content and UI design &copy; 2022 Pat Shaughnessy</p></div></div></div></div></body></html>";

/// The sidebar up to the links to the book.
pub const SIDEBAR_TOP: &'static str = "<div class=\"two columns\"><div id=\"sidebar\"><img src=\"/assets/images/pat.jpg\"></img><div class=\"header\">Subscribe</div><div class=\"links\"><ul><li><a id=\"feed\" href=\"http://feeds.feedburner.com/patshaughnessy\"><img src=\"/assets/images/feed-icon16x16B.png\"></img></a><a href=\"http://twitter.com/pat_shaughnessy\"><img width=\"20\" height=\"20\" src=\"/assets/images/twitter.svg\"></img></a></li></ul></div><div class=\"header\">Buy my book</div><div class=\"links\"><ul><li><a href=\"/ruby-under-a-microscope\"><img src=\"/assets/images/book-cover.png\"></img></a></li><li id=\"eBook\"><a href=\"/ruby-under-a-microscope\">Ruby Under a Microscope</a></li></ul></div>";

/// The popular articles that end the sidebar.
pub const SIDEBAR_POPULAR: &'static str = "<div class=\"header\">Popular</div><div class=\"links\"><ul><li><a href=\"/2016/11/26/learning-to-read-x86-assembly-language\">Learning to Read x86 Assembly Language</a></li><li><a href=\"/2012/1/4/never-create-ruby-strings-longer-than-23-characters\">Never create Ruby strings longer than 23 characters</a></li><li><a href=\"/2012/3/23/why-you-should-be-excited-about-garbage-collection-in-ruby-2-0\">Why You Should Be Excited About Garbage Collection in Ruby 2.0</a></li><li><a href=\"/2013/4/3/ruby-2-0-works-hard-so-you-can-be-lazy\">Ruby 2.0 Works Hard So You Can Be Lazy</a></li></ul></div><div class=\"header\"><a href=\"/\">More...</a></div></div></div>";

/// What opens the comments section of a page.
pub const COMMENTS_SECTION_OPEN: &'static str = "<section class=\"comments\">";

/// What closes a section.
pub const SECTION_CLOSE: &'static str = "</section>";

/// What closes a table.
pub const TABLE_CLOSE: &'static str = "</table>";

/// What opens a script element, before its attributes.
pub const SCRIPT_OPEN: &'static str = "<script";

/// What closes a script element.
pub const SCRIPT_CLOSE: &'static str = "</script>";

/// The script that loads the comment counts of a page, between `<script` and `</script>`.
pub const COMMENT_COUNT_SCRIPT_BODY: &'static str = " type=\"text/javascript\">(function () {\n        var s = document.createElement('script'); s.async = true;\n        s.type = 'text/javascript';\n        s.src = 'https://' + disqus_shortname + '.disqus.com/count.js';\n        (document.getElementsByTagName('HEAD')[0] || document.getElementsByTagName('BODY')[0]).appendChild(s);\n    }());";

/// The script element that loads the comment counts of a page.
pub open spec fn comment_count_script() -> Seq<char> {
    SCRIPT_OPEN@ + COMMENT_COUNT_SCRIPT_BODY@ + SCRIPT_CLOSE@
}

/// Appends the script element that loads the comment counts of a page.
pub(crate) fn append_comment_count_script(r: &mut String)
    ensures
        final(r)@ == old(r)@ + comment_count_script(),
{
    r.append(SCRIPT_OPEN);
    r.append(COMMENT_COUNT_SCRIPT_BODY);
    r.append(SCRIPT_CLOSE);
}

/// The script that loads comment counts is one `<script>` element.
pub proof fn lemma_comment_count_script_is_a_script()
    ensures
        "<script"@.is_prefix_of(comment_count_script()),
        "</script>"@.is_suffix_of(comment_count_script()),
{
    reveal_strlit("<script");
    reveal_strlit("</script>");
    let s = comment_count_script();
    assert(SCRIPT_OPEN@ =~= s.subrange(0, 7));
    assert(SCRIPT_CLOSE@ =~= s.subrange(s.len() - 9, s.len() as int));
}

/// A whole page: the site's head, a title, and the content as it is.
pub open spec fn page(content: Seq<char>, title: Option<Seq<char>>) -> Seq<char> {
    PAGE_HEAD@ + match title {
        Some(t) => html_escaped(t) + TITLE_SUFFIX@,
        None => SITE_NAME@,
    } + PAGE_MIDDLE@ + content + PAGE_TAIL@
}

/// Puts content into a whole page, titled `title - Pat Shaughnessy` or `Pat Shaughnessy`.
pub fn render(content: String, title: Option<&String>) -> (r: String)
    ensures
        r@ == page(
            content@,
            match title {
                Some(t) => Some(t@),
                None => None,
            },
        ),
{
    let mut r = String::new();
    r.append(PAGE_HEAD);
    match title {
        Some(t) => {
            let e = escape(t.as_str());
            r.append(e.as_str());
            r.append(TITLE_SUFFIX);
        },
        None => {
            r.append(SITE_NAME);
        },
    }
    r.append(PAGE_MIDDLE);
    r.append(content.as_str());
    r.append(PAGE_TAIL);
    r
}

} // verus!
