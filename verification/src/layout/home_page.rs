use vstd::prelude::*;

use crate::layout::{self, escape, SIDEBAR_POPULAR, SIDEBAR_TOP, TABLE_CLOSE};
use crate::post::Post;
use crate::post_link::{self, PostLink};

verus! {

/// The home page up to its table of articles.
pub const HOME_HEAD: &'static str = "<div class=\"ten columns\"><div class=\"container\"><div class=\"row\"><article class=\"post\"><header><h1>All Articles</h1></header><section class=\"content\">";

/// What opens the table of articles.
pub const ARCHIVE_TABLE_OPEN: &'static str = "<table id=\"archive-table\">";

/// The start of a row of the table of articles.
pub const ROW_OPEN: &'static str = "<tr><td id=\"date\">";

/// What follows the month of a row; the empty `else` element ends every date cell.
pub const ROW_DATE_END: &'static str = "<else></else></td><td><a href=\"";

/// What follows the URL of an article.
pub const ROW_LINK_END: &'static str = "\">";

/// What follows the title of an article.
pub const ROW_CLOSE: &'static str = "</a></td></tr>";

/// What follows the table of articles.
pub const HOME_TABLE_END: &'static str = "</section></article></div></div></div>";

/// The table row of an archive link: its month (if any), then its title linked to its URL.
pub open spec fn row(l: (Option<Seq<char>>, Seq<char>, Seq<char>)) -> Seq<char> {
    ROW_OPEN@ + match l.0 {
        Some(d) => layout::html_escaped(d),
        None => Seq::empty(),
    } + ROW_DATE_END@ + layout::html_escaped(l.1) + ROW_LINK_END@ + layout::html_escaped(l.2)
        + ROW_CLOSE@
}

/// The rows of the links, one after the other.
pub open spec fn rows(ls: Seq<(Option<Seq<char>>, Seq<char>, Seq<char>)>) -> Seq<char>
    decreases ls.len(),
{
    if ls.len() == 0 {
        Seq::empty()
    } else {
        rows(ls.drop_last()) + row(ls.last())
    }
}

/// The content of the home page: a table with a row per post, newest first as given.
pub open spec fn home_page(posts: Seq<Post>) -> Seq<char> {
    HOME_HEAD@ + ARCHIVE_TABLE_OPEN@ + rows(post_link::links_of(posts)) + TABLE_CLOSE@
        + HOME_TABLE_END@ + SIDEBAR_TOP@ + SIDEBAR_POPULAR@
}

/// The rows of the table of articles, one per post in the posts' order.
pub open spec fn archive_rows(posts: Seq<Post>) -> Seq<Seq<char>> {
    post_link::links_of(posts).map_values(|l: (Option<Seq<char>>, Seq<char>, Seq<char>)| row(l))
}

proof fn lemma_rows_flatten(ls: Seq<(Option<Seq<char>>, Seq<char>, Seq<char>)>)
    ensures
        rows(ls) == ls.map_values(|l: (Option<Seq<char>>, Seq<char>, Seq<char>)| row(l)).flatten(),
    decreases ls.len(),
{
    let f = |l: (Option<Seq<char>>, Seq<char>, Seq<char>)| row(l);
    let m = ls.map_values(f);
    if ls.len() > 0 {
        lemma_rows_flatten(ls.drop_last());
        assert(m.drop_last() =~= ls.drop_last().map_values(f));
        m.lemma_flatten_and_flatten_alt_are_equivalent();
        ls.drop_last().map_values(f).lemma_flatten_and_flatten_alt_are_equivalent();
    } else {
        assert(m =~= Seq::<Seq<char>>::empty());
    }
}

/// The home page's table of articles has exactly one row per post, in the posts' order:
/// each row is a `<tr>` element with the post's month heading (where the month changes) and
/// its title linked to its URL.
pub proof fn law_one_archive_row_per_post(posts: Seq<Post>)
    ensures
        home_page(posts) == HOME_HEAD@ + "<table id=\"archive-table\">"@ + archive_rows(
            posts,
        ).flatten() + "</table>"@ + HOME_TABLE_END@ + SIDEBAR_TOP@ + SIDEBAR_POPULAR@,
        archive_rows(posts).len() == posts.len(),
        forall|i: int|
            0 <= i < posts.len() ==> #[trigger] archive_rows(posts)[i] == row(
                (post_link::link_date(posts, i), posts[i].url@, posts[i].title@),
            ),
        forall|l: (Option<Seq<char>>, Seq<char>, Seq<char>)|
            "<tr>"@.is_prefix_of(#[trigger] row(l)) && "</tr>"@.is_suffix_of(row(l)),
{
    lemma_rows_flatten(post_link::links_of(posts));
    reveal_strlit("<tr>");
    reveal_strlit("</tr>");
    reveal_strlit("<tr><td id=\"date\">");
    reveal_strlit("</a></td></tr>");
    assert forall|l: (Option<Seq<char>>, Seq<char>, Seq<char>)|
        "<tr>"@.is_prefix_of(#[trigger] row(l)) && "</tr>"@.is_suffix_of(row(l)) by {
        let r = row(l);
        assert("<tr>"@ =~= r.subrange(0, 4));
        assert("</tr>"@ =~= r.subrange(r.len() - 5, r.len() as int));
    }
}

/// The content of the home page, the archive of all posts.
pub fn render(all_posts: &Vec<Post>) -> (r: String)
    ensures
        r@ == home_page(all_posts@),
{
    let links = PostLink::all_from(all_posts);
    let ghost ls = links@.map_values(|l: PostLink| l@);
    let mut r = String::new();
    r.append(HOME_HEAD);
    r.append(ARCHIVE_TABLE_OPEN);
    let mut i: usize = 0;
    while i < links.len()
        invariant
            i <= links@.len(),
            ls == links@.map_values(|l: PostLink| l@),
            ls == post_link::links_of(all_posts@),
            r@ == HOME_HEAD@ + ARCHIVE_TABLE_OPEN@ + rows(ls.take(i as int)),
        decreases links@.len() - i,
    {
        let link = &links[i];
        let ghost before = r@;
        r.append(ROW_OPEN);
        match &link.date_string {
            Some(d) => {
                let e = escape(d.as_str());
                r.append(e.as_str());
            },
            None => {},
        }
        r.append(ROW_DATE_END);
        let u = escape(link.url.as_str());
        r.append(u.as_str());
        r.append(ROW_LINK_END);
        let t = escape(link.title.as_str());
        r.append(t.as_str());
        r.append(ROW_CLOSE);
        proof {
            assert(ls.take(i + 1).drop_last() =~= ls.take(i as int));
            assert(ls.take(i + 1).last() == link@);
            assert(r@ =~= before + row(link@));
        }
        i = i + 1;
    }
    r.append(TABLE_CLOSE);
    r.append(HOME_TABLE_END);
    r.append(SIDEBAR_TOP);
    r.append(SIDEBAR_POPULAR);
    proof {
        assert(ls.take(ls.len() as int) =~= ls);
        assert(r@ =~= home_page(all_posts@));
    }
    r
}

} // verus!
