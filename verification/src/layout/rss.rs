use vstd::prelude::*;

use crate::date::{self, rfc3339_chars};
use crate::layout::{self, escape};
use crate::post::{self, Post};
use crate::text::string_of;

verus! {

/// The feed up to the time it was updated.
pub const FEED_HEAD: &'static str = "<feed xmlns=\"http://www.w3.org/2005/Atom\"><title>Pat Shaughnessy</title><id>http://patshaughnessy.net</id><updated>";

/// What follows the time the feed was updated, up to its entries.
pub const FEED_AUTHOR: &'static str = "</updated><author><name>Pat Shaughnessy</name></author>";

/// What closes the feed.
pub const FEED_END: &'static str = "</feed>";

/// The address of the site, which post URLs are relative to.
pub const SITE_URL: &'static str = "http://patshaughnessy.net/";

/// The start of an entry, up to its title.
pub const ENTRY_OPEN: &'static str = "<entry><title>";

/// What follows the title of an entry, up to its link.
pub const ENTRY_LINK: &'static str = "</title><link href=\"";

/// What follows the link of an entry, up to its id.
pub const ENTRY_ID: &'static str = "\" rel=\"alternate\"></link><id href=\"";

/// What follows the id of an entry, up to when it was published.
pub const ENTRY_PUBLISHED: &'static str = "\" rel=\"alternate\"></id><published>";

/// What follows when an entry was published, up to when it was updated.
pub const ENTRY_UPDATED: &'static str = "</published><updated>";

/// What follows when an entry was updated, up to its category.
pub const ENTRY_CATEGORY: &'static str = "</updated><category>";

/// What follows the category of an entry, up to its summary.
pub const ENTRY_SUMMARY: &'static str = "</category><author><name>Pat Shaughnessy</name></author><summary type=\"html\">";

/// What follows the summary of an entry, up to its content.
pub const ENTRY_CONTENT: &'static str = "</summary><content type=\"html\">";

/// What closes an entry.
pub const ENTRY_CLOSE: &'static str = "</content></entry>";

/// The feed entry of a post.
pub open spec fn entry(p: Post) -> Seq<char> {
    let url = layout::html_escaped(SITE_URL@ + p.url@);
    let when = layout::html_escaped(date::rfc3339_midnight(p.date));
    ENTRY_OPEN@ + layout::html_escaped(p.title@) + ENTRY_LINK@ + url + ENTRY_ID@ + url
        + ENTRY_PUBLISHED@ + when + ENTRY_UPDATED@ + when + ENTRY_CATEGORY@ + match p.tag {
        Some(t) => layout::html_escaped(t@),
        None => Seq::empty(),
    } + ENTRY_SUMMARY@ + layout::html_escaped(post::summary_text(p.content@)) + ENTRY_CONTENT@
        + layout::html_escaped(p.content@) + ENTRY_CLOSE@
}

/// A feed entry starts with the post's escaped title and ends with its summary, the first
/// 400 bytes of its HTML, and then its whole HTML, each escaped.
pub proof fn law_entry_carries_the_summary_and_the_whole_content(p: Post)
    ensures
        (ENTRY_OPEN@ + layout::html_escaped(p.title@) + ENTRY_LINK@).is_prefix_of(entry(p)),
        (ENTRY_SUMMARY@ + layout::html_escaped(post::summary_text(p.content@)) + ENTRY_CONTENT@
            + layout::html_escaped(p.content@) + ENTRY_CLOSE@).is_suffix_of(entry(p)),
{
    let e = entry(p);
    let head = ENTRY_OPEN@ + layout::html_escaped(p.title@) + ENTRY_LINK@;
    let tail = ENTRY_SUMMARY@ + layout::html_escaped(post::summary_text(p.content@))
        + ENTRY_CONTENT@ + layout::html_escaped(p.content@) + ENTRY_CLOSE@;
    assert(head =~= e.subrange(0, head.len() as int));
    assert(tail =~= e.subrange(e.len() - tail.len(), e.len() as int));
}

/// The entries of the posts, one after the other.
pub open spec fn entries(s: Seq<Post>) -> Seq<char>
    decreases s.len(),
{
    if s.len() == 0 {
        Seq::empty()
    } else {
        entries(s.drop_last()) + entry(s.last())
    }
}

/// The posts that the feed lists: the first ten.
pub open spec fn feed_posts(s: Seq<Post>) -> Seq<Post> {
    if s.len() <= 10 {
        s
    } else {
        s.take(10)
    }
}

/// The Atom feed of the posts, updated at `now`.
pub open spec fn feed(posts: Seq<Post>, now: Seq<char>) -> Seq<char> {
    FEED_HEAD@ + layout::html_escaped(now) + FEED_AUTHOR@ + entries(feed_posts(posts)) + FEED_END@
}

/// The summary of every post in the feed ends on a character boundary.
pub open spec fn summaries_fit(posts: Seq<Post>) -> bool {
    forall|i: int|
        0 <= i < feed_posts(posts).len() ==> vstd::utf8::is_char_boundary(
            vstd::utf8::encode_utf8(#[trigger] feed_posts(posts)[i].content@),
            400,
        )
}

fn append_escaped(r: &mut String, s: &String)
    ensures
        final(r)@ == old(r)@ + layout::html_escaped(s@),
{
    let e = escape(s.as_str());
    r.append(e.as_str());
}

/// Appends the feed entry of a post.
fn write_entry(r: &mut String, p: &Post)
    requires
        vstd::utf8::is_char_boundary(vstd::utf8::encode_utf8(p.content@), 400),
    ensures
        final(r)@ == old(r)@ + entry(*p),
{
    let ghost before = r@;
    let mut absolute_url = String::new();
    absolute_url.append(SITE_URL);
    absolute_url.append(p.url.as_str());
    let when = string_of(&rfc3339_chars(&p.date));
    r.append(ENTRY_OPEN);
    append_escaped(r, &p.title);
    r.append(ENTRY_LINK);
    append_escaped(r, &absolute_url);
    r.append(ENTRY_ID);
    append_escaped(r, &absolute_url);
    r.append(ENTRY_PUBLISHED);
    append_escaped(r, &when);
    r.append(ENTRY_UPDATED);
    append_escaped(r, &when);
    r.append(ENTRY_CATEGORY);
    match &p.tag {
        Some(t) => append_escaped(r, t),
        None => {},
    }
    r.append(ENTRY_SUMMARY);
    let summary = p.summary();
    append_escaped(r, &summary);
    r.append(ENTRY_CONTENT);
    append_escaped(r, &p.content);
    r.append(ENTRY_CLOSE);
    proof {
        assert(r@ =~= before + entry(*p));
    }
}

/// An Atom feed of the first ten posts, each with its title, link, date, tag, summary and
/// HTML; `now` is the time, as written, that the feed says it was updated.
pub fn render_updated_at(all_posts: &Vec<Post>, now: &String) -> (r: String)
    requires
        summaries_fit(all_posts@),
    ensures
        r@ == feed(all_posts@, now@),
{
    let mut r = String::new();
    r.append(FEED_HEAD);
    append_escaped(&mut r, now);
    r.append(FEED_AUTHOR);
    let ghost head = r@;
    let n = if all_posts.len() <= 10 {
        all_posts.len()
    } else {
        10
    };
    let ghost fp = feed_posts(all_posts@);
    let mut i: usize = 0;
    while i < n
        invariant
            i <= n,
            n == fp.len(),
            fp == feed_posts(all_posts@),
            summaries_fit(all_posts@),
            r@ == head + entries(fp.take(i as int)),
        decreases n - i,
    {
        let p = &all_posts[i];
        proof {
            assert(fp[i as int] == *p);
            assert(fp.take(i + 1).drop_last() =~= fp.take(i as int));
            assert(fp.take(i + 1).last() == *p);
        }
        write_entry(&mut r, p);
        i = i + 1;
    }
    r.append(FEED_END);
    proof {
        assert(fp.take(n as int) =~= fp);
    }
    r
}

/// An Atom feed of the first ten posts, updated `now_secs` seconds after the Unix epoch,
/// the time written as chrono writes it in RFC 3339 to the second; `None` where chrono
/// finds no such time.
pub fn render(all_posts: &Vec<Post>, now_secs: i64) -> (r: Option<String>)
    requires
        summaries_fit(all_posts@),
    ensures
        match date::chrono_rfc3339_secs(now_secs) {
            Some(now) => r matches Some(f) && f@ == feed(all_posts@, now),
            None => r is None,
        },
        -1_000_000_000_000 <= now_secs <= 1_000_000_000_000 ==> r is Some,
{
    match date::rfc3339_of_secs(now_secs) {
        Some(now) => Some(render_updated_at(all_posts, &now)),
        None => None,
    }
}

/// The feed lists at most ten posts.
pub proof fn law_feed_lists_at_most_ten_posts(posts: Seq<Post>)
    ensures
        feed_posts(posts).len() <= 10,
        forall|i: int| 0 <= i < feed_posts(posts).len() ==> #[trigger] feed_posts(posts)[i] == posts[i],
{
}

} // verus!
