use vstd::prelude::*;

use crate::date::{self, is_before, PostDate};
use crate::layout::{self, home_page, post as post_layout, rss};
use crate::post::Post;

verus! {

// ---------------------------------------------------------------------------
// Ordering the posts of the site
// ---------------------------------------------------------------------------

/// The posts of `s` published on day `d`, in their order in `s`.
pub open spec fn posts_on(s: Seq<Post>, d: PostDate) -> Seq<Post>
    decreases s.len(),
{
    if s.len() == 0 {
        s
    } else if s.last().date == d {
        posts_on(s.drop_last(), d).push(s.last())
    } else {
        posts_on(s.drop_last(), d)
    }
}

/// No post of `s` comes after a newer one.
pub open spec fn newest_first(s: Seq<Post>) -> bool {
    forall|i: int, j: int| 0 <= i < j < s.len() ==> !date::date_before(s[i].date, s[j].date)
}

pub proof fn lemma_posts_on_add(a: Seq<Post>, b: Seq<Post>, d: PostDate)
    ensures
        posts_on(a + b, d) == posts_on(a, d) + posts_on(b, d),
    decreases b.len(),
{
    if b.len() == 0 {
        assert(a + b =~= a);
        assert(posts_on(a, d) + posts_on(b, d) =~= posts_on(a, d));
    } else {
        assert((a + b).drop_last() =~= a + b.drop_last());
        assert((a + b).last() == b.last());
        lemma_posts_on_add(a, b.drop_last(), d);
        if b.last().date == d {
            assert(posts_on(a, d) + posts_on(b.drop_last(), d).push(b.last()) =~= (posts_on(a, d)
                + posts_on(b.drop_last(), d)).push(b.last()));
        }
    }
}

proof fn lemma_posts_on_none(s: Seq<Post>, d: PostDate)
    requires
        forall|i: int| 0 <= i < s.len() ==> (#[trigger] s[i]).date != d,
    ensures
        posts_on(s, d) == Seq::<Post>::empty(),
    decreases s.len(),
{
    if s.len() > 0 {
        assert forall|i: int| 0 <= i < s.drop_last().len() implies (
        #[trigger] s.drop_last()[i]).date != d by {
            assert(s.drop_last()[i] == s[i]);
        }
        lemma_posts_on_none(s.drop_last(), d);
        assert(s.last() == s[s.len() - 1]);
    }
}

proof fn lemma_posts_on_one(x: Post, d: PostDate)
    ensures
        posts_on(seq![x], d) == (if x.date == d {
            seq![x]
        } else {
            Seq::<Post>::empty()
        }),
{
    assert(seq![x].drop_last() =~= Seq::<Post>::empty());
    assert(posts_on(Seq::<Post>::empty(), d) =~= Seq::<Post>::empty());
    if x.date == d {
        assert(Seq::<Post>::empty().push(x) =~= seq![x]);
    }
}

/// The posts, newest first; posts of the same day keep their order.
pub fn sort_newest_first(posts: Vec<Post>) -> (r: Vec<Post>)
    ensures
        r@.len() == posts@.len(),
        newest_first(r@),
        forall|d: PostDate| #[trigger] posts_on(r@, d) == posts_on(posts@, d),
{
    let ghost orig = posts@;
    let mut input = posts;
    let mut res: Vec<Post> = Vec::new();
    let ghost mut done: int = 0;
    proof {
        assert(orig.skip(0) =~= orig);
        assert forall|d: PostDate| #[trigger] posts_on(res@, d) == posts_on(orig.take(0), d) by {
            assert(orig.take(0) =~= Seq::<Post>::empty());
        }
    }
    while input.len() > 0
        invariant
            0 <= done <= orig.len(),
            input@ == orig.skip(done),
            res@.len() == done,
            newest_first(res@),
            forall|d: PostDate| #[trigger] posts_on(res@, d) == posts_on(orig.take(done), d),
        decreases input@.len(),
    {
        let x = input.remove(0);
        let mut k: usize = 0;
        while k < res.len() && !is_before(&res[k].date, &x.date)
            invariant
                k <= res@.len(),
                forall|j: int| 0 <= j < k ==> !date::date_before(
                    (#[trigger] res@[j]).date,
                    x.date,
                ),
            decreases res@.len() - k,
        {
            k = k + 1;
        }
        let ghost old_res = res@;
        proof {
            assert forall|j: int| k <= j < old_res.len() implies date::date_before(
                (#[trigger] old_res[j]).date,
                x.date,
            ) by {
                if j > k {
                    assert(!date::date_before(old_res[k as int].date, old_res[j].date));
                }
            }
        }
        res.insert(k, x);
        proof {
            let a = old_res.take(k as int);
            let b = old_res.skip(k as int);
            assert(old_res =~= a + b);
            assert(res@ =~= a + seq![x] + b);
            assert(orig.take(done + 1) =~= orig.take(done) + seq![x]) by {
                assert(orig.skip(done)[0] == orig[done]);
            }
            assert forall|d: PostDate| #[trigger] posts_on(res@, d) == posts_on(
                orig.take(done + 1),
                d,
            ) by {
                lemma_posts_on_add(a + seq![x], b, d);
                lemma_posts_on_add(a, seq![x], d);
                lemma_posts_on_add(a, b, d);
                lemma_posts_on_add(orig.take(done), seq![x], d);
                lemma_posts_on_one(x, d);
                if x.date == d {
                    assert forall|i: int| 0 <= i < b.len() implies (#[trigger] b[i]).date != d by {
                        assert(b[i] == old_res[k + i]);
                    }
                    lemma_posts_on_none(b, d);
                    assert(posts_on(a, d) + posts_on(b, d) =~= posts_on(a, d));
                    assert(posts_on(a, d) + seq![x] + posts_on(b, d) =~= posts_on(a, d) + seq![x]);
                } else {
                    assert(posts_on(a, d) + Seq::<Post>::empty() =~= posts_on(a, d));
                }
            }
            assert forall|i: int, j: int| 0 <= i < j < res@.len() implies !date::date_before(
                res@[i].date,
                res@[j].date,
            ) by {
                if j < k {
                    assert(res@[i] == old_res[i] && res@[j] == old_res[j]);
                } else if j == k {
                    assert(res@[i] == old_res[i]);
                } else if i < k {
                    assert(res@[i] == old_res[i] && res@[j] == old_res[j - 1]);
                    assert(!date::date_before(old_res[i].date, old_res[j - 1].date));
                } else if i == k {
                    assert(res@[j] == old_res[j - 1]);
                } else {
                    assert(res@[i] == old_res[i - 1] && res@[j] == old_res[j - 1]);
                }
            }
            assert(input@ =~= orig.skip(done + 1));
            done = done + 1;
        }
    }
    proof {
        assert(orig.take(done) =~= orig);
    }
    res
}

/// Sorting keeps every post: the sorted posts are the same posts, counted with multiplicity.
pub proof fn law_sorting_keeps_the_posts(posts: Seq<Post>, sorted: Seq<Post>)
    requires
        forall|d: PostDate| #[trigger] posts_on(sorted, d) == posts_on(posts, d),
    ensures
        sorted.to_multiset() == posts.to_multiset(),
{
    assert forall|p: Post| sorted.to_multiset().count(p) == posts.to_multiset().count(p) by {
        lemma_count_in_day(sorted, p);
        lemma_count_in_day(posts, p);
    }
    assert(sorted.to_multiset() =~= posts.to_multiset());
}

proof fn lemma_count_in_day(s: Seq<Post>, p: Post)
    ensures
        s.to_multiset().count(p) == posts_on(s, p.date).to_multiset().count(p),
    decreases s.len(),
{
    broadcast use vstd::seq_lib::group_seq_properties;
    broadcast use vstd::multiset::group_multiset_axioms;

    if s.len() > 0 {
        lemma_count_in_day(s.drop_last(), p);
        assert(s =~= s.drop_last().push(s.last()));
        if s.last().date == p.date {
        } else {
            assert(s.last() != p);
        }
    }
}

// ---------------------------------------------------------------------------
// The pages of the site
// ---------------------------------------------------------------------------

/// The whole page of a post, titled with the post's title.
pub fn post_document(post: &Post, all_posts: &Vec<Post>, draft: bool) -> (r: String)
    ensures
        r@ == layout::page(post_layout::post_page(*post, all_posts@, draft), Some(post.title@)),
{
    let content = post_layout::render(post, all_posts, draft);
    layout::render(content, Some(&post.title))
}

/// The whole home page, with the archive of all posts.
pub fn home_document(all_posts: &Vec<Post>) -> (r: String)
    ensures
        r@ == layout::page(home_page::home_page(all_posts@), None),
{
    let content = home_page::render(all_posts);
    layout::render(content, None)
}

/// The XML declaration that starts the feed document.
pub const XML_DECLARATION: &'static str = "<?xml version=\"1.0\" encoding=\"UTF-8\"?>";

/// The feed document: the XML declaration, then the Atom feed of the posts updated at the
/// time written `now`.
pub fn feed_document_updated_at(all_posts: &Vec<Post>, now: &String) -> (r: String)
    requires
        rss::summaries_fit(all_posts@),
    ensures
        r@ == XML_DECLARATION@ + rss::feed(all_posts@, now@),
{
    let mut r = String::new();
    r.append(XML_DECLARATION);
    let feed = rss::render_updated_at(all_posts, now);
    r.append(feed.as_str());
    r
}

/// The feed document, updated `now_secs` seconds after the Unix epoch: the XML declaration,
/// then the Atom feed with that time as chrono writes it; `None` where chrono finds no such
/// time.
pub fn feed_document(all_posts: &Vec<Post>, now_secs: i64) -> (r: Option<String>)
    requires
        rss::summaries_fit(all_posts@),
    ensures
        match date::chrono_rfc3339_secs(now_secs) {
            Some(now) => r matches Some(d) && d@ == XML_DECLARATION@ + rss::feed(all_posts@, now),
            None => r is None,
        },
        -1_000_000_000_000 <= now_secs <= 1_000_000_000_000 ==> r is Some,
{
    match rss::render(all_posts, now_secs) {
        Some(feed) => {
            let mut r = String::new();
            r.append(XML_DECLARATION);
            r.append(feed.as_str());
            Some(r)
        },
        None => None,
    }
}

} // verus!
