//! A static blog generator's library: posts read from Markdown files with a block of
//! headers, and the HTML pages and Atom feed of the site built from them.

use vstd::prelude::*;

/// Characters, whitespace, substrings and decimal numbers.
pub mod text;
/// Post dates: parsing, order and the ways they are written.
pub mod date;
/// Errors about posts that cannot be read.
pub mod invalid_post_error;
/// The header block at the top of a post.
pub mod headers;
/// Slugs of post titles.
pub mod slug;
/// Code snippets in HTML.
pub mod snippets;
/// Syntax highlighting of code snippets.
pub mod highlight;
/// Posts.
pub mod post;
/// How posts compare.
pub mod post_order;
/// The order of the posts on the site, and its whole pages.
pub mod site;
/// The links of the archive.
pub mod post_link;
/// The pages of the site.
pub mod layout;
/// A placeholder feed page.
pub mod rss_layout;

verus! {

} // verus!
