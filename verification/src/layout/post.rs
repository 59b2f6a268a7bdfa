use vstd::prelude::*;

use crate::date::{self, long_date_chars};
use crate::layout::{
    self, append_comment_count_script, escape, COMMENTS_SECTION_OPEN, SECTION_CLOSE,
    SIDEBAR_POPULAR, SIDEBAR_TOP,
};
use crate::post::Post;
use crate::text::string_of;

verus! {

/// The post page up to the post's title.
pub const POST_HEAD: &'static str = "<div class=\"ten columns\"><div class=\"container\"><div class=\"row\"><article class=\"post\"><header><h1>";

/// What follows the title, up to the date.
pub const POST_TITLE_END: &'static str = "</h1><div class=\"metadata\">";

/// What follows the date, up to the post's URL in the comments link.
pub const POST_DATE_END: &'static str = "&nbsp;&mdash;&nbsp;<a href=\"#disqus_thread\" data-disqus-identifier=\"https://patshaughnessy.net/";

/// What follows the URL in the comments link, up to the content.
pub const POST_URL_END: &'static str = "\">&nbsp; Comments and &nbsp; Reactions</a></div></header><section class=\"content\">";

/// What follows the content.
pub const POST_CONTENT_END: &'static str = "</section>";

/// The comment thread inside the comments section, up to the thread's identifier.
pub const DISQUS_THREAD_OPEN: &'static str = "<div id=\"disqus_thread\"><script type=\"text/javascript\">";

/// What the identifier of a post's comment thread starts with, before the post's URL.
pub const DISQUS_IDENTIFIER: &'static str = "var disqus_identifier = 'https://patshaughnessy.net/";

/// What follows the URL in the identifier of the comment thread.
pub const DISQUS_SHORTNAME: &'static str = "'; var disqus_shortname = 'patshaughnessy';";

/// What follows the identifier in the comment thread, up to the title.
pub const DISQUS_TITLE: &'static str = " var disqus_title = '";

/// What follows the title in the comment thread, up to the end of the comments section.
pub const COMMENTS_THREAD_CLOSE: &'static str = "';</script></div><script type=\"text/javascript\" src=\"https://disqus.com/forums/patshaughnessy/embed.js\"></script><noscript><a href=\"https://patshaughnessy.disqus.com/?url=ref\">View the discussion thread.</a></noscript>";

/// The heading of the related posts, before the tag.
pub const MORE_ON: &'static str = "<div class=\"header\">More on ";

/// What follows the tag, up to the related posts.
pub const MORE_ON_LIST: &'static str = "</div><div class=\"links\"><ul>";

/// The start of a related post's item, before its URL.
pub const ITEM_OPEN: &'static str = "<li><a href=\"/";

/// What follows the URL of a related post.
pub const ITEM_URL_END: &'static str = "\">";

/// What follows the title of a related post.
pub const ITEM_CLOSE: &'static str = "</a></li>";

/// What closes the list of related posts.
pub const MORE_ON_END: &'static str = "</ul></div>";

/// What closes the article of a post page.
pub const ARTICLE_CLOSE: &'static str = "</article></div></div></div>";

/// The tag of a post, by its text.
pub open spec fn tag_of(p: Post) -> Option<Seq<char>> {
    match p.tag {
        Some(t) => Some(t@),
        None => None,
    }
}

/// `p` is listed beside `post`: it has the same tag (or `post` has none) and was published
/// on another day.
pub open spec fn is_related(p: Post, post: Post) -> bool {
    (tag_of(p) == tag_of(post) || post.tag is None) && p.date != post.date
}

/// The posts of `all` listed beside `post`, in order.
pub open spec fn related(all: Seq<Post>, post: Post) -> Seq<Post>
    decreases all.len(),
{
    if all.len() == 0 {
        all
    } else if is_related(all.last(), post) {
        related(all.drop_last(), post).push(all.last())
    } else {
        related(all.drop_last(), post)
    }
}

/// The first four posts of `s`, or all of them when there are fewer.
pub open spec fn first_four(s: Seq<Post>) -> Seq<Post> {
    if s.len() <= 4 {
        s
    } else {
        s.take(4)
    }
}

/// The item that links to a related post.
pub open spec fn link_item(p: Post) -> Seq<char> {
    ITEM_OPEN@ + layout::html_escaped(p.url@) + ITEM_URL_END@ + layout::html_escaped(p.title@)
        + ITEM_CLOSE@
}

/// The items of the posts, one after the other.
pub open spec fn link_items(s: Seq<Post>) -> Seq<char>
    decreases s.len(),
{
    if s.len() == 0 {
        Seq::empty()
    } else {
        link_items(s.drop_last()) + link_item(s.last())
    }
}

/// A post's page up to its comments: its title, date, link to the comments, and HTML.
pub open spec fn post_page_head(post: Post) -> Seq<char> {
    POST_HEAD@ + layout::html_escaped(post.title@) + POST_TITLE_END@ + layout::html_escaped(
        date::long_date(post.date),
    ) + POST_DATE_END@ + layout::html_escaped(post.url@) + POST_URL_END@ + post.content@
        + POST_CONTENT_END@
}

/// The comments section of a post's page, whose thread is identified by the post's URL.
pub open spec fn comment_thread(post: Post) -> Seq<char> {
    COMMENTS_SECTION_OPEN@ + DISQUS_THREAD_OPEN@ + DISQUS_IDENTIFIER@ + layout::html_escaped(
        post.url@,
    ) + DISQUS_SHORTNAME@ + DISQUS_TITLE@ + layout::html_escaped(post.title@)
        + COMMENTS_THREAD_CLOSE@ + SECTION_CLOSE@
}

/// A post's page after its comments: the end of the article and the sidebar, with the
/// related posts where the post has a tag.
pub open spec fn post_page_tail(post: Post, all: Seq<Post>) -> Seq<char> {
    ARTICLE_CLOSE@ + SIDEBAR_TOP@ + match post.tag {
        Some(t) => MORE_ON@ + layout::html_escaped(t@) + MORE_ON_LIST@ + link_items(
            first_four(related(all, post)),
        ) + MORE_ON_END@,
        None => Seq::empty(),
    } + SIDEBAR_POPULAR@
}

/// The content of a post's page; drafts leave out the comment thread and the comment count.
pub open spec fn post_page(post: Post, all: Seq<Post>, draft: bool) -> Seq<char> {
    post_page_head(post) + (if draft {
        Seq::empty()
    } else {
        comment_thread(post)
    }) + post_page_tail(post, all) + (if draft {
        Seq::empty()
    } else {
        layout::comment_count_script()
    })
}

/// A draft of a post's page is the published page without its comments section and the
/// script that counts comments. The section is a `<section class="comments">` element that
/// opens the comment thread and identifies it by the post's URL on the site; the script is a
/// `<script>` element at the end of the page.
pub proof fn law_draft_post_page_leaves_out_the_comments(post: Post, all: Seq<Post>)
    ensures
        post_page(post, all, true) == post_page_head(post) + post_page_tail(post, all),
        post_page(post, all, false) == post_page_head(post) + comment_thread(post)
            + post_page_tail(post, all) + layout::comment_count_script(),
        comment_thread(post) == "<section class=\"comments\"><div id=\"disqus_thread\">"@
            + "<script type=\"text/javascript\">"@
            + "var disqus_identifier = 'https://patshaughnessy.net/"@ + layout::html_escaped(
            post.url@,
        ) + "'; var disqus_shortname = 'patshaughnessy';"@ + DISQUS_TITLE@
            + layout::html_escaped(post.title@) + COMMENTS_THREAD_CLOSE@ + "</section>"@,
        "<script"@.is_prefix_of(layout::comment_count_script()),
        "</script>"@.is_suffix_of(layout::comment_count_script()),
{
    assert(post_page(post, all, true) =~= post_page_head(post) + post_page_tail(post, all));
    assert(post_page(post, all, false) =~= post_page_head(post) + comment_thread(post)
        + post_page_tail(post, all) + layout::comment_count_script());
    reveal_strlit("<section class=\"comments\"><div id=\"disqus_thread\">");
    reveal_strlit("<section class=\"comments\">");
    reveal_strlit("<div id=\"disqus_thread\">");
    reveal_strlit("<script type=\"text/javascript\">");
    reveal_strlit("<div id=\"disqus_thread\"><script type=\"text/javascript\">");
    assert(COMMENTS_SECTION_OPEN@ + DISQUS_THREAD_OPEN@ =~= "<section class=\"comments\"><div id=\"disqus_thread\">"@
        + "<script type=\"text/javascript\">"@);
    layout::lemma_comment_count_script_is_a_script();
}

fn related_to(p: &Post, post: &Post) -> (b: bool)
    ensures
        b == is_related(*p, *post),
{
    let same_tag = match (&p.tag, &post.tag) {
        (Some(a), Some(b)) => a.eq(b),
        (None, None) => true,
        _ => false,
    };
    (same_tag || post.tag.is_none()) && p.date != post.date
}

fn append_escaped(r: &mut String, s: &String)
    ensures
        final(r)@ == old(r)@ + layout::html_escaped(s@),
{
    let e = escape(s.as_str());
    r.append(e.as_str());
}

/// The items of the first four posts of `all_posts` listed beside `post`.
fn recent_items(post: &Post, all_posts: &Vec<Post>) -> (r: String)
    ensures
        r@ == link_items(first_four(related(all_posts@, *post))),
{
    let mut r = String::new();
    let mut count: usize = 0;
    let mut i: usize = 0;
    while i < all_posts.len()
        invariant
            i <= all_posts@.len(),
            count <= 4,
            count == first_four(related(all_posts@.take(i as int), *post)).len(),
            r@ == link_items(first_four(related(all_posts@.take(i as int), *post))),
        decreases all_posts@.len() - i,
    {
        let p = &all_posts[i];
        let ghost prev = related(all_posts@.take(i as int), *post);
        proof {
            assert(all_posts@.take(i + 1).drop_last() =~= all_posts@.take(i as int));
            assert(all_posts@.take(i + 1).last() == *p);
        }
        if related_to(p, post) {
            if count < 4 {
                let ghost before = r@;
                r.append(ITEM_OPEN);
                append_escaped(&mut r, &p.url);
                r.append(ITEM_URL_END);
                append_escaped(&mut r, &p.title);
                r.append(ITEM_CLOSE);
                proof {
                    let next = prev.push(*p);
                    assert(first_four(next) =~= first_four(prev).push(*p));
                    assert(first_four(next).drop_last() =~= first_four(prev));
                    assert(r@ =~= before + link_item(*p));
                }
                count = count + 1;
            } else {
                proof {
                    let next = prev.push(*p);
                    assert(first_four(next) =~= first_four(prev));
                }
            }
        }
        i = i + 1;
    }
    proof {
        assert(all_posts@.take(all_posts@.len() as int) =~= all_posts@);
    }
    r
}

/// Appends the part of a post's page before its comments.
fn append_head(r: &mut String, post: &Post)
    ensures
        final(r)@ == old(r)@ + post_page_head(*post),
{
    let ghost before = r@;
    let date_string = string_of(&long_date_chars(&post.date));
    r.append(POST_HEAD);
    append_escaped(r, &post.title);
    r.append(POST_TITLE_END);
    append_escaped(r, &date_string);
    r.append(POST_DATE_END);
    append_escaped(r, &post.url);
    r.append(POST_URL_END);
    r.append(post.content.as_str());
    r.append(POST_CONTENT_END);
    proof {
        assert(r@ =~= before + post_page_head(*post));
    }
}

/// Appends the comments section of a post's page.
fn append_comment_thread(r: &mut String, post: &Post)
    ensures
        final(r)@ == old(r)@ + comment_thread(*post),
{
    let ghost before = r@;
    r.append(COMMENTS_SECTION_OPEN);
    r.append(DISQUS_THREAD_OPEN);
    r.append(DISQUS_IDENTIFIER);
    append_escaped(r, &post.url);
    r.append(DISQUS_SHORTNAME);
    r.append(DISQUS_TITLE);
    append_escaped(r, &post.title);
    r.append(COMMENTS_THREAD_CLOSE);
    r.append(SECTION_CLOSE);
    proof {
        assert(r@ =~= before + comment_thread(*post));
    }
}

/// The content of a post's page: its title, date, HTML, comment thread, and a sidebar that
/// lists up to four other posts with the same tag. Drafts leave out the comment thread and
/// the comment count.
pub fn render(post: &Post, all_posts: &Vec<Post>, draft: bool) -> (r: String)
    ensures
        r@ == post_page(*post, all_posts@, draft),
{
    let mut r = String::new();
    append_head(&mut r, post);
    if !draft {
        append_comment_thread(&mut r, post);
    }
    let ghost after_comments = r@;
    r.append(ARTICLE_CLOSE);
    r.append(SIDEBAR_TOP);
    match &post.tag {
        Some(t) => {
            r.append(MORE_ON);
            append_escaped(&mut r, t);
            r.append(MORE_ON_LIST);
            let items = recent_items(post, all_posts);
            r.append(items.as_str());
            r.append(MORE_ON_END);
        },
        None => {},
    }
    r.append(SIDEBAR_POPULAR);
    proof {
        assert(r@ =~= after_comments + post_page_tail(*post, all_posts@));
    }
    if !draft {
        append_comment_count_script(&mut r);
    }
    proof {
        assert(r@ =~= post_page(*post, all_posts@, draft));
    }
    r
}

proof fn lemma_related(all: Seq<Post>, post: Post)
    ensures
        forall|i: int| 0 <= i < related(all, post).len() ==> is_related(
            #[trigger] related(all, post)[i],
            post,
        ),
    decreases all.len(),
{
    if all.len() > 0 {
        lemma_related(all.drop_last(), post);
        let prev = related(all.drop_last(), post);
        if is_related(all.last(), post) {
            assert forall|i: int| 0 <= i < related(all, post).len() implies is_related(
                #[trigger] related(all, post)[i],
                post,
            ) by {
                if i < prev.len() {
                    assert(related(all, post)[i] == prev[i]);
                }
            }
        }
    }
}

/// The sidebar of a post page lists at most four posts, each with the post's tag (when it
/// has one) and published on another day than the post.
/// The related posts of a post are exactly the posts, in their order, that have the post's
/// tag (any post, when it has none) and were published on another day, earlier or later.
pub proof fn law_related_posts_share_the_tag_on_another_day(all: Seq<Post>, post: Post)
    ensures
        related(all, post) == all.filter(
            |p: Post| (tag_of(p) == tag_of(post) || post.tag is None) && p.date != post.date,
        ),
    decreases all.len(),
{
    reveal(Seq::filter);
    if all.len() > 0 {
        law_related_posts_share_the_tag_on_another_day(all.drop_last(), post);
    }
}

pub proof fn law_at_most_four_related_posts(all: Seq<Post>, post: Post)
    ensures
        first_four(related(all, post)).len() <= 4,
        forall|i: int| 0 <= i < first_four(related(all, post)).len() ==> {
            let p = #[trigger] first_four(related(all, post))[i];
            &&& p.date != post.date
            &&& post.tag is Some ==> tag_of(p) == tag_of(post)
        },
{
    lemma_related(all, post);
    let r = related(all, post);
    assert forall|i: int| 0 <= i < first_four(r).len() implies {
        let p = #[trigger] first_four(r)[i];
        &&& p.date != post.date
        &&& post.tag is Some ==> tag_of(p) == tag_of(post)
    } by {
        assert(first_four(r)[i] == r[i]);
    }
}

} // verus!
