use vstd::prelude::*;

use crate::post::Post;

verus! {

/// A placeholder feed page, whatever the posts.
pub fn render(_all_posts: &Vec<Post>) -> (r: String)
    ensures
        r@ == "<body>to do</body>"@,
{
    let mut r = String::new();
    r.append("<body>to do</body>");
    r
}

} // verus!
