use vstd::prelude::*;

use crate::layout::{
    self, append_comment_count_script, COMMENTS_SECTION_OPEN, SECTION_CLOSE, TABLE_CLOSE,
};

verus! {

/// The book page up to its table of contents.
pub const BOOK_PAGE_INTRO: &'static str = "<div class=\"nine columns\"><div class=\"container\"><div class=\"row\"><article class=\"book\"><p><i>I've started working on a new edition of Ruby Under a\n                  Microscope that covers Ruby 3.x. I'm working on this in my\n                  spare time, so it will take a while to finish. Leave a comment\n                  or <a href=\"mailto:pat@patshaughnessy.net?subject=Ruby Under a Microscope Update\">drop me a line</a> and I'll email you when it's finished.</i></p><header><h1>Have You Ever Wondered How Ruby Works Internally?</h1></header><section class=\"content\"><div style=\"float: right; margin: 5px 0 0 15px;\"><div id=\"book-tweet\"><a class=\"top-buy-now\" href=\"http://nostarch.com/rum\">Buy Now at NoStarch.com</a></div><a href=\"http://nostarch.com/rum\"><img id=\"book-cover\" src=\"/assets/images/RUM_coverfront.png\"></img></a></div><p></p></section><p>Everyone knows that Ruby is a powerful language. Its dynamic nature allows you to concisely write the code you need to actually solve a problem instead of burying yourself under mountains of boilerplate. You don't have to fight it; you just get to enjoy the ride.</p><p>But how is the magic created? And can you trust it? After all, MRI is written in C - a statically typed, compiled language which is pretty much the antithesis of Ruby. What <span>dark voodoo</span> is breathed into C to enable Ruby's features - closures, metaprogramming, and so much more?</p><h2>Find out with Science!</h2><p>Ruby Under a Microscope will guide you through the internals of some of Ruby's\n                most-used facets. Using experimentation, theory, and two truckloads of diagrams,\n                you'll <span>clearly see how Ruby is implemented</span>.</p><div class=\"diagram\"><img src=\"/assets/images/tokenize.png\"></img><div class=\"caption\">Here's just one of the diagrams out of the two truckloads.</div><div class=\"caption\">Did you think that was a exaggeration? Well, it isn't!</div></div><p>Here's a science fact for you: before they understood the nature of combustion,\n                 Enlightenment chemists believed fire resulted from the release of a negative-weight\n                 particle called \"phlogiston\". Then Antoine-Laurent Lavoisier knocked that theory\n                 on its derri&egrave;re by discovering oxygen and proving how combustion really works.</p><p>This book will offer you the same clarity. Instead of pointing at a Ruby block and\n                 yelling, &quot;Phlogiston!&quot;, you'll be able to lucidly explain how Ruby copies\n                 variables from the stack to the heap in order to allow access to them even after\n                 a function has returned.</p><p>Have no clue what that means? Well, that's exactly why you need to read this book.</p><p>And good news: you don't need to know a lick of C! If you can't tell your pointers\n                 from your pointers to pointers, then have no fear. <span>Ruby Under a Microscope is accessible to anyone</span> with an interest in learning how Ruby works internally.</p><h2>People Already Love It</h2><p>Here's what people are already saying about <span>Ruby Under a Microscope</span>:</p><blockquote><div class=\"pic\"><img src=\"/assets/images/avatars/peter.png\"></img></div><div class=\"content\">Many people have dug into the Ruby source code but few make it back out\n                   and tell the tale as elegantly as Pat does in Ruby Under A Microscope! I\n                   particularly love the diagrams - and there are lots of them - as they\n                   make many opaque implementation topics a lot easier to understand,\n                   especially when coupled with Pat's gentle narrative. This book is a\n                   delight for language implementation geeks and Rubyists with a penchant\n                   for digging into the guts of their tools.<footer>&ndash;<cite>Peter Cooper (<a href=\"https://twitter.com/peterc\">@peterc</a>) &mdash; Editor of Ruby Inside and Ruby Weekly</cite></footer></div></blockquote><blockquote><div class=\"pic\"><img src=\"/assets/images/avatars/xavier.jpg\"></img></div><div class=\"content\">going to proofread a draft of @pat_shaughnessy's &quot;Ruby Under a Microscope&quot;, man this book was missing in the Ruby landscape, awesome content<footer>&ndash;<cite>Xavier Noria (<a href=\"https://twitter.com/fxn\">@fxn</a>) &mdash; Ruby Hero, Ruby on Rails Core Team Member</cite></footer></div></blockquote><blockquote><div class=\"pic\"><img src=\"/assets/images/avatars/santiago.jpg\"></img></div><div class=\"content\">Pat Shaughnessy did a tremendous job writing THE book about Ruby internals. Definitely a must read, you won't find information like this anywhere else.<footer>&ndash;<cite>Santiago Pastorino (<a href=\"https://twitter.com/spastorino\">@spastorino</a>) &mdash; WyeWorks Co-Founder, Ruby on Rails Core Team Member</cite></footer></div></blockquote><blockquote><div class=\"pic\"><img src=\"/assets/images/avatars/vlad.jpg\"></img></div><div class=\"content\">I really enjoyed the book and now know have a far better understanding of both Ruby and CS - thanks. Your writing made very complex topics (at least for me) very accessible and I found the book hard to put down. Diagrams were awesome and already are popping in my head as I code. This is by far one of my top 3 favourite Ruby books written.<footer>&ndash;<cite>Vlad Ivanovic (<a href=\"https://twitter.com/vladiim\">@vladiim</a>) &mdash; Digital Strategist @ MassMedia Sydney.</cite></footer></div></blockquote><blockquote><div class=\"pic\"><img src=\"/assets/images/avatars/deryl.jpg\"></img></div><div class=\"content\">While I'm not usually digging into Ruby Internals, your book was an absolute awesome read. Best $20 I've spent in ages.<footer>&ndash;<cite>David Deryl Downey (<a href=\"https://twitter.com/daviddwdowney\">@daviddwdowney</a>) &mdash; Founder of CyberSpace Technologies Group</cite></footer></div></blockquote><h2>Table of Contents</h2><p></p>";

/// What opens the book's table of contents.
pub const TOC_OPEN: &'static str = "<table id=\"toc\">";

/// The start of a row of the table of contents, before the part's title.
pub const TOC_ROW_OPEN: &'static str = "<tr><td class=\"main\">";

/// What follows the title of a part, before its page.
pub const TOC_ROW_PAGE: &'static str = "</td><td>";

/// What closes a row of the table of contents.
pub const TOC_ROW_CLOSE: &'static str = "</td></tr>";

/// The book page after its table of contents, up to its comments.
pub const BOOK_PAGE_ABOUT: &'static str = "<h2>About Pat</h2><div id=\"mugshot\"><img src=\"/assets/images/pat2.jpeg\"></img></div><p>Pat Shaughnessy writes a blog about Ruby development here on this web site, <a href=\"https://patshaughnessy.net\">patshaughnessy.net</a>. Pat's articles and presentations have been featured multiple times on the Ruby\n                Weekly newsletter, the Ruby5 podcast and the Ruby Show.</p><p>When he's not at the keyboard, Pat enjoys spending time with his wife and\n                two kids. Pat is also a fluent Spanish speaker and travels frequently to\n                Spain to visit his wife's family.</p>";

/// The parts of the book, each with the page it starts on.
pub open spec fn table_of_contents() -> Seq<(Seq<char>, Seq<char>)> {
    seq![
        ("Foreword by Aaron Patterson"@, "xv"@),
        ("Acknowledgments"@, "vi"@),
        ("Introduction"@, "ix"@),
        ("Chapter 1: Tokenization and Parsing"@, "3"@),
        ("Chapter 2: Compilation"@, "31"@),
        ("Chapter 3: How Ruby Executes Your Code"@, "55"@),
        ("Chapter 4: Control Structures and Method Dispatch"@, "83"@),
        ("Chapter 5: Objects and Classes"@, "105"@),
        ("Chapter 6: Method Lookup and Constant Lookup"@, "133"@),
        ("Chapter 7: The Hash Table: The Workhorse of Ruby Internals"@, "167"@),
        ("Chapter 8: How Ruby Borrowed a Decades-Old Idea from Lisp"@, "191"@),
        ("Chapter 9: Metaprogramming"@, "219"@),
        ("Chapter 10: JRuby: Ruby on the JVM"@, "251"@),
        ("Chapter 11: Rubinius: Ruby Implemented with Ruby"@, "273"@),
        ("Chapter 12: Garbage Collection in MRI, JRuby, and Rubinius"@, "295"@),
        ("Index"@, "327"@),
    ]
}

/// The row of a part of the book: its title, then its page.
pub open spec fn toc_row(part: (Seq<char>, Seq<char>)) -> Seq<char> {
    TOC_ROW_OPEN@ + part.0 + TOC_ROW_PAGE@ + part.1 + TOC_ROW_CLOSE@
}

/// The rows of the table of contents, one per part.
pub open spec fn toc_rows() -> Seq<Seq<char>> {
    table_of_contents().map_values(|part: (Seq<char>, Seq<char>)| toc_row(part))
}

/// The book page up to its comments.
pub open spec fn book_page_main() -> Seq<char> {
    BOOK_PAGE_INTRO@ + TOC_OPEN@ + toc_rows().flatten() + TABLE_CLOSE@ + BOOK_PAGE_ABOUT@
}

/// The parts of the book, each with the page it starts on.
fn table_of_contents_parts() -> (v: Vec<(&'static str, &'static str)>)
    ensures
        v@.len() == table_of_contents().len(),
        forall|i: int|
            0 <= i < v@.len() ==> (#[trigger] v@[i].0@, v@[i].1@) == table_of_contents()[i],
{
    let mut v: Vec<(&'static str, &'static str)> = Vec::new();
    v.push(("Foreword by Aaron Patterson", "xv"));
    v.push(("Acknowledgments", "vi"));
    v.push(("Introduction", "ix"));
    v.push(("Chapter 1: Tokenization and Parsing", "3"));
    v.push(("Chapter 2: Compilation", "31"));
    v.push(("Chapter 3: How Ruby Executes Your Code", "55"));
    v.push(("Chapter 4: Control Structures and Method Dispatch", "83"));
    v.push(("Chapter 5: Objects and Classes", "105"));
    v.push(("Chapter 6: Method Lookup and Constant Lookup", "133"));
    v.push(("Chapter 7: The Hash Table: The Workhorse of Ruby Internals", "167"));
    v.push(("Chapter 8: How Ruby Borrowed a Decades-Old Idea from Lisp", "191"));
    v.push(("Chapter 9: Metaprogramming", "219"));
    v.push(("Chapter 10: JRuby: Ruby on the JVM", "251"));
    v.push(("Chapter 11: Rubinius: Ruby Implemented with Ruby", "273"));
    v.push(("Chapter 12: Garbage Collection in MRI, JRuby, and Rubinius", "295"));
    v.push(("Index", "327"));
    v
}

/// Appends the table of contents.
fn append_table_of_contents(r: &mut String)
    ensures
        final(r)@ == old(r)@ + TOC_OPEN@ + toc_rows().flatten() + TABLE_CLOSE@,
{
    let parts = table_of_contents_parts();
    r.append(TOC_OPEN);
    let ghost head = r@;
    let ghost rows = toc_rows();
    let mut i: usize = 0;
    while i < parts.len()
        invariant
            i <= parts@.len(),
            parts@.len() == table_of_contents().len(),
            rows == toc_rows(),
            forall|j: int|
                0 <= j < parts@.len() ==> (#[trigger] parts@[j].0@, parts@[j].1@)
                    == table_of_contents()[j],
            r@ == head + rows.take(i as int).flatten(),
        decreases parts@.len() - i,
    {
        let (title, page) = parts[i];
        let ghost before = r@;
        r.append(TOC_ROW_OPEN);
        r.append(title);
        r.append(TOC_ROW_PAGE);
        r.append(page);
        r.append(TOC_ROW_CLOSE);
        proof {
            assert(rows[i as int] == toc_row(table_of_contents()[i as int]));
            assert(r@ =~= before + rows[i as int]);
            assert(rows.take(i + 1) =~= rows.take(i as int).push(rows[i as int]));
            rows.take(i as int).lemma_flatten_push(rows[i as int]);
        }
        i = i + 1;
    }
    proof {
        assert(rows.take(i as int) =~= rows);
    }
    r.append(TABLE_CLOSE);
}

/// The comment thread of the book page, inside its comments section.
pub const BOOK_PAGE_THREAD: &'static str = "<div id=\"disqus_thread\"><script type=\"text/javascript\">var disqus_identifier = 'https://patshaughnessy.net/ruby-under-a-microscope'; var disqus_shortname = 'patshaughnessy';</script></div><script type=\"text/javascript\" src=\"https://disqus.com/forums/patshaughnessy/embed.js\"></script><noscript><a href=\"https://patshaughnessy.disqus.com/?url=ref\">View the discussion thread.</a></noscript>";

/// The comments section of the book page.
pub open spec fn book_comments() -> Seq<char> {
    COMMENTS_SECTION_OPEN@ + BOOK_PAGE_THREAD@ + SECTION_CLOSE@
}

/// What closes the book page's columns.
pub const BOOK_PAGE_CLOSE: &'static str = "</article></div></div></div>";

/// The book page's table of contents has sixteen rows, one per part of the book in order:
/// each a `<tr>` element with the part's title and the page it starts on. Draft or not, the
/// page starts with the table's surroundings and rows.
pub proof fn law_book_page_table_has_sixteen_rows(draft: bool)
    ensures
        toc_rows().len() == 16,
        forall|i: int|
            0 <= i < 16 ==> #[trigger] toc_rows()[i] == toc_row(table_of_contents()[i]),
        forall|part: (Seq<char>, Seq<char>)|
            "<tr>"@.is_prefix_of(#[trigger] toc_row(part)) && "</tr>"@.is_suffix_of(toc_row(part)),
        book_page_main() == BOOK_PAGE_INTRO@ + "<table id=\"toc\">"@ + toc_rows().flatten()
            + "</table>"@ + BOOK_PAGE_ABOUT@,
        book_page_main().is_prefix_of(book_page(draft)),
{
    reveal_strlit("<tr>");
    reveal_strlit("</tr>");
    reveal_strlit("<tr><td class=\"main\">");
    reveal_strlit("</td></tr>");
    assert forall|part: (Seq<char>, Seq<char>)|
        "<tr>"@.is_prefix_of(#[trigger] toc_row(part)) && "</tr>"@.is_suffix_of(toc_row(part)) by {
        let r = toc_row(part);
        assert("<tr>"@ =~= r.subrange(0, 4));
        assert("</tr>"@ =~= r.subrange(r.len() - 5, r.len() as int));
    }
    let b = book_page(draft);
    assert(book_page_main() =~= b.subrange(0, book_page_main().len() as int));
}

/// The book page's content; in draft mode without comments.
pub open spec fn book_page(draft: bool) -> Seq<char> {
    book_page_main() + (if draft {
        Seq::empty()
    } else {
        book_comments()
    }) + BOOK_PAGE_CLOSE@ + (if draft {
        Seq::empty()
    } else {
        layout::comment_count_script()
    })
}

/// A draft of the book page is the published page without its comments section and the
/// script that counts comments: the published page has the section, a
/// `<section class="comments">` element, just before the columns close, and the script, a
/// `<script>` element, after them.
pub proof fn law_draft_book_page_leaves_out_the_comments()
    ensures
        book_page(true) == book_page_main() + BOOK_PAGE_CLOSE@,
        book_page(false) == book_page_main() + book_comments() + BOOK_PAGE_CLOSE@
            + layout::comment_count_script(),
        BOOK_PAGE_CLOSE@ == "</article></div></div></div>"@,
        "<section class=\"comments\">"@.is_prefix_of(book_comments()),
        "</section>"@.is_suffix_of(book_comments()),
        "<script"@.is_prefix_of(layout::comment_count_script()),
        "</script>"@.is_suffix_of(layout::comment_count_script()),
{
    assert(book_page(true) =~= book_page_main() + BOOK_PAGE_CLOSE@);
    assert(book_page(false) =~= book_page_main() + book_comments() + BOOK_PAGE_CLOSE@
        + layout::comment_count_script());
    reveal_strlit("<section class=\"comments\">");
    reveal_strlit("</section>");
    let c = book_comments();
    assert(COMMENTS_SECTION_OPEN@ =~= c.subrange(0, 26));
    assert(SECTION_CLOSE@ =~= c.subrange(c.len() - 10, c.len() as int));
    layout::lemma_comment_count_script_is_a_script();
}

/// The content of the page about the book; drafts leave out the comment thread and the
/// script that counts comments.
pub fn render(draft: bool) -> (r: String)
    ensures
        r@ == book_page(draft),
{
    let mut r = String::new();
    r.append(BOOK_PAGE_INTRO);
    append_table_of_contents(&mut r);
    r.append(BOOK_PAGE_ABOUT);
    if !draft {
        r.append(COMMENTS_SECTION_OPEN);
        r.append(BOOK_PAGE_THREAD);
        r.append(SECTION_CLOSE);
    }
    r.append(BOOK_PAGE_CLOSE);
    if !draft {
        append_comment_count_script(&mut r);
    }
    proof {
        assert(r@ =~= book_page(draft));
    }
    r
}

} // verus!
