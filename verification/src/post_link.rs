use vstd::prelude::*;

use crate::date::{self, month_and_year_chars};
use crate::post::Post;
use crate::text::{chars_equal, string_of};

verus! {

/// A line of the archive: a post's title and URL, headed by the month it was published in
/// when that month differs from the month of the post before it.
#[derive(Debug, Clone)]
pub struct PostLink {
    pub date_string: Option<String>,
    pub url: String,
    pub title: String,
}

impl View for PostLink {
    type V = (Option<Seq<char>>, Seq<char>, Seq<char>);

    open spec fn view(&self) -> (Option<Seq<char>>, Seq<char>, Seq<char>) {
        (
            match self.date_string {
                Some(d) => Some(d@),
                None => None,
            },
            self.url@,
            self.title@,
        )
    }
}

/// Two links are equal when their month, URL and title are.
impl PartialEq for PostLink {
    fn eq(&self, other: &Self) -> (r: bool) {
        let same_date = match (&self.date_string, &other.date_string) {
            (Some(a), Some(b)) => a.eq(b),
            (None, None) => true,
            _ => false,
        };
        same_date && self.url.eq(&other.url) && self.title.eq(&other.title)
    }
}

impl vstd::std_specs::cmp::PartialEqSpecImpl for PostLink {
    open spec fn obeys_eq_spec() -> bool {
        true
    }

    open spec fn eq_spec(&self, other: &Self) -> bool {
        self@ == other@
    }
}

impl Eq for PostLink {
}

/// The month heading of the `i`-th link: the post's `%B %Y`, unless the post before it has
/// the same one.
pub open spec fn link_date(posts: Seq<Post>, i: int) -> Option<Seq<char>> {
    if i == 0 || date::month_and_year(posts[i - 1].date) != date::month_and_year(posts[i].date) {
        Some(date::month_and_year(posts[i].date))
    } else {
        None
    }
}

/// The archive links of the posts, one per post, in order.
pub open spec fn links_of(posts: Seq<Post>) -> Seq<(Option<Seq<char>>, Seq<char>, Seq<char>)> {
    Seq::new(posts.len(), |i: int| (link_date(posts, i), posts[i].url@, posts[i].title@))
}

impl PostLink {
    /// One link per post, in order; a link carries its post's month and year (`%B %Y`) only
    /// where the post before it was published in another month.
    pub fn all_from(posts: &Vec<Post>) -> (r: Vec<PostLink>)
        ensures
            r@.map_values(|l: PostLink| l@) == links_of(posts@),
    {
        let mut r: Vec<PostLink> = Vec::new();
        let mut last: Option<Vec<char>> = None;
        let mut i: usize = 0;
        while i < posts.len()
            invariant
                i <= posts@.len(),
                r@.len() == i,
                forall|j: int| 0 <= j < i ==> (#[trigger] r@[j])@ == links_of(posts@)[j],
                i == 0 <==> last is None,
                last matches Some(l) ==> l@ == date::month_and_year(posts@[i - 1].date),
            decreases posts@.len() - i,
        {
            let p = &posts[i];
            let date_string = month_and_year_chars(&p.date);
            let same = match &last {
                Some(l) => chars_equal(l, &date_string),
                None => false,
            };
            let link = if same {
                PostLink { date_string: None, url: p.url.clone(), title: p.title.clone() }
            } else {
                PostLink {
                    date_string: Some(string_of(&date_string)),
                    url: p.url.clone(),
                    title: p.title.clone(),
                }
            };
            r.push(link);
            last = Some(date_string);
            i = i + 1;
        }
        proof {
            assert(r@.map_values(|l: PostLink| l@) =~= links_of(posts@));
        }
        r
    }
}

/// The first link carries its month; any other link carries its month exactly when its post
/// was published in another month, or another year, than the post before it.
pub proof fn law_month_heads_a_link_when_the_month_changes(posts: Seq<Post>, i: int)
    requires
        0 <= i < posts.len(),
        1 <= posts[i].date.month <= 12,
        i > 0 ==> 1 <= posts[i - 1].date.month <= 12,
    ensures
        i == 0 ==> links_of(posts)[i].0 == Some(date::month_and_year(posts[i].date)),
        i > 0 ==> (links_of(posts)[i].0 is None <==> (posts[i - 1].date.year == posts[i].date.year
            && posts[i - 1].date.month == posts[i].date.month)),
{
    if i > 0 {
        date::law_month_and_year_names_the_month(posts[i - 1].date, posts[i].date);
    }
}

} // verus!
