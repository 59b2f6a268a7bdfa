use blog::date::PostDate;
use blog::headers::Headers;
use blog::layout::{self, book_page, home_page, rss};
use blog::post::Post;
use blog::rss_layout;
use blog::site::{feed_document, feed_document_updated_at, home_document, post_document};

fn post(title: &str, url: &str, date: (i32, u32, u32), tag: Option<&str>, content: &str) -> Post {
    Post {
        path: format!("{}.html", url),
        url: url.to_string(),
        title: title.to_string(),
        date: PostDate { year: date.0, month: date.1, day: date.2 },
        tag: tag.map(|t| t.to_string()),
        headers: Headers::new(),
        content: content.to_string(),
    }
}

#[test]
fn titles_are_escaped() {
    let page = layout::render(String::new(), Some(&"a & b < c > d \"e\" 'f' é".to_string()));
    assert!(page.contains("<title>a &amp; b &lt; c &gt; d &quot;e&quot; 'f' é - Pat Shaughnessy</title>"));
}

#[test]
fn pages_carry_their_title() {
    let page = layout::render("<p>x</p>".to_string(), Some(&"A <b>".to_string()));
    assert!(page.starts_with("<!DOCTYPE html><html lang=\"en\"><head><meta charset=\"utf-8\"><title>A &lt;b&gt; - Pat Shaughnessy</title>"));
    assert!(page.contains("style=\"margin-top: 35px\"><p>x</p><div class=\"row\" id=\"copyright\">"));
    assert!(page.ends_with("</body></html>"));
    let page = layout::render(String::new(), None);
    assert!(page.contains("<title>Pat Shaughnessy</title>"));
}

#[test]
fn the_home_page_lists_every_post_with_its_month() {
    let posts = vec![
        post("First & best", "2018/1/18/first", (2018, 1, 18), None, ""),
        post("Second", "2018/1/2/second", (2018, 1, 2), None, ""),
        post("Third", "2017/12/3/third", (2017, 12, 3), None, ""),
    ];
    let html = home_page::render(&posts);
    assert!(html.starts_with("<div class=\"ten columns\"><div class=\"container\"><div class=\"row\"><article class=\"post\"><header><h1>All Articles</h1></header><section class=\"content\"><table id=\"archive-table\">"));
    assert!(html.contains("<tr><td id=\"date\">January 2018<else></else></td><td><a href=\"2018/1/18/first\">First &amp; best</a></td></tr><tr><td id=\"date\"><else></else></td><td><a href=\"2018/1/2/second\">Second</a></td></tr><tr><td id=\"date\">December 2017<else></else></td>"));
    assert_eq!(html.matches("<tr>").count(), 3);
    let doc = home_document(&posts);
    assert!(doc.contains("<title>Pat Shaughnessy</title>"));
    assert!(doc.contains(&html));
}

#[test]
fn a_post_page_lists_up_to_four_related_posts() {
    let main = post("Main", "main", (2020, 5, 5), Some("Ruby"), "<p>Body</p>");
    let mut all = vec![main.clone()];
    for i in 1..=6 {
        all.push(post(&format!("R{}", i), &format!("r{}", i), (2020, 4, i), Some("Ruby"), ""));
    }
    all.push(post("Other", "other", (2020, 3, 1), Some("Rust"), ""));
    all.push(post("Same day", "same", (2020, 5, 5), Some("Ruby"), ""));
    let html = blog::layout::post::render(&main, &all, false);
    assert!(html.contains("<div class=\"header\">More on Ruby</div><div class=\"links\"><ul><li><a href=\"/r1\">R1</a></li><li><a href=\"/r2\">R2</a></li><li><a href=\"/r3\">R3</a></li><li><a href=\"/r4\">R4</a></li></ul></div>"));
    assert!(!html.contains("/r5"));
    assert!(!html.contains("/other"));
    assert!(!html.contains("/same"));
    assert!(html.contains("<h1>Main</h1><div class=\"metadata\">May 5th 2020&nbsp;&mdash;&nbsp;<a href=\"#disqus_thread\" data-disqus-identifier=\"https://patshaughnessy.net/main\">"));
    assert!(html.contains("<section class=\"content\"><p>Body</p></section><section class=\"comments\">"));
    assert!(html.contains("var disqus_title = 'Main';</script>"));
    assert!(html.ends_with("</script>"));
    let draft = blog::layout::post::render(&main, &all, true);
    assert!(!draft.contains("disqus_title"));
    assert!(draft.ends_with("<a href=\"/\">More...</a></div></div></div>"));
    let doc = post_document(&main, &all, false);
    assert!(doc.contains("<title>Main - Pat Shaughnessy</title>"));
}

#[test]
fn a_post_without_tag_lists_no_related_posts() {
    let main = post("Main", "main", (2020, 5, 5), None, "");
    let all = vec![main.clone(), post("X", "x", (2020, 1, 1), None, "")];
    let html = blog::layout::post::render(&main, &all, true);
    assert!(!html.contains("More on"));
}

#[test]
fn the_feed_lists_ten_posts() {
    let mut posts = Vec::new();
    for i in 1..=12u32 {
        posts.push(post(&format!("T{}", i), &format!("u{}", i), (2019, 1, i), if i == 1 { Some("Rust") } else { None }, &"x".repeat(400 + i as usize)));
    }
    let feed = rss::render_updated_at(&posts, &"2020-01-01T00:00:00Z".to_string());
    assert!(feed.starts_with("<feed xmlns=\"http://www.w3.org/2005/Atom\"><title>Pat Shaughnessy</title><id>http://patshaughnessy.net</id><updated>2020-01-01T00:00:00Z</updated><author><name>Pat Shaughnessy</name></author><entry><title>T1</title><link href=\"http://patshaughnessy.net/u1\" rel=\"alternate\"></link><id href=\"http://patshaughnessy.net/u1\" rel=\"alternate\"></id><published>2019-01-01T00:00:00Z</published><updated>2019-01-01T00:00:00Z</updated><category>Rust</category><author><name>Pat Shaughnessy</name></author><summary type=\"html\">"));
    assert_eq!(feed.matches("<entry>").count(), 10);
    assert!(feed.contains(&format!("<summary type=\"html\">{}</summary>", "x".repeat(400))));
    assert!(feed.contains("<category></category>"));
    assert!(feed.ends_with("</content></entry></feed>"));
    let doc = feed_document_updated_at(&posts, &"now".to_string());
    assert!(doc.starts_with("<?xml version=\"1.0\" encoding=\"UTF-8\"?><feed "));
}

#[test]
fn the_feed_is_updated_at_the_time_given_in_seconds() {
    let posts = vec![post("T", "u", (2019, 1, 1), None, &"x".repeat(400))];
    let feed = rss::render(&posts, 1577836800).unwrap();
    assert_eq!(feed, rss::render_updated_at(&posts, &"2020-01-01T00:00:00Z".to_string()));
    let feed = rss::render(&posts, 1577836799).unwrap();
    assert!(feed.contains("<updated>2019-12-31T23:59:59Z</updated><author>"));
    let feed = rss::render(&posts, -1).unwrap();
    assert!(feed.contains("<updated>1969-12-31T23:59:59Z</updated><author>"));
    let doc = feed_document(&posts, 0).unwrap();
    assert!(doc.starts_with("<?xml version=\"1.0\" encoding=\"UTF-8\"?><feed xmlns=\"http://www.w3.org/2005/Atom\"><title>Pat Shaughnessy</title><id>http://patshaughnessy.net</id><updated>1970-01-01T00:00:00Z</updated>"));
    assert!(rss::render(&posts, i64::MAX).is_none());
    assert!(feed_document(&posts, i64::MIN).is_none());
}

#[test]
fn a_draft_post_page_is_the_page_without_its_comments() {
    let main = post("Main <1>", "2020/5/5/main", (2020, 5, 5), Some("Ruby"), "<p>Body</p>");
    let all = vec![main.clone(), post("R", "r", (2020, 4, 1), Some("Ruby"), "")];
    let page = blog::layout::post::render(&main, &all, false);
    let draft = blog::layout::post::render(&main, &all, true);
    let start = page.find("<section class=\"comments\">").unwrap();
    let end = page[start..].find("</section>").unwrap() + start + "</section>".len();
    let thread = &page[start..end];
    assert!(thread.starts_with("<section class=\"comments\"><div id=\"disqus_thread\">"));
    assert!(thread.contains("var disqus_identifier = 'https://patshaughnessy.net/2020/5/5/main'; var disqus_shortname = 'patshaughnessy';"));
    assert!(thread.contains("var disqus_title = 'Main &lt;1&gt;';"));
    let script = page.rfind("<script").unwrap();
    assert!(page.ends_with("</script>"));
    assert_eq!(format!("{}{}", &page[..start], &page[end..script]), draft);
    assert!(!draft.contains("<section class=\"comments\">"));
    assert!(!draft.contains("<script"));
}

#[test]
fn the_book_page_leaves_comments_out_of_drafts() {
    let page = book_page::render(false);
    let draft = book_page::render(true);
    assert!(page.starts_with("<div class=\"nine columns\">"));
    assert!(page.contains("<section class=\"comments\">"));
    assert!(!draft.contains("<section class=\"comments\">"));
    assert!(page.contains("&quot;phlogiston&quot;") || page.contains("\"phlogiston\""));
    assert!(page.contains("&quot;Phlogiston!&quot;"));
    assert!(draft.ends_with("</article></div></div></div>"));
    assert!(page.len() > draft.len());
}

#[test]
fn a_draft_book_page_is_the_page_without_its_comments() {
    let page = book_page::render(false);
    let draft = book_page::render(true);
    let close = "</article></div></div></div>";
    let start = page.find("<section class=\"comments\">").unwrap();
    let end = page.find(close).unwrap();
    let thread = &page[start..end];
    assert!(thread.ends_with("</section>"));
    assert!(thread.contains("var disqus_identifier = 'https://patshaughnessy.net/ruby-under-a-microscope';"));
    let script = &page[end + close.len()..];
    assert!(script.starts_with("<script"));
    assert!(script.ends_with("</script>"));
    assert_eq!(format!("{}{}", &page[..start], close), draft);
    assert_eq!(page.matches("<tr>").count(), 16);
    assert_eq!(draft.matches("<tr>").count(), 16);
}

#[test]
fn the_feed_placeholder_says_to_do() {
    assert_eq!(rss_layout::render(&vec![]), "<body>to do</body>");
}

#[test]
fn the_home_page_has_one_row_per_post_in_order() {
    let posts = vec![
        post("A <1>", "a&b", (2018, 1, 18), None, ""),
        post("B", "b", (2018, 1, 2), None, ""),
        post("C", "c", (2017, 12, 3), None, ""),
        post("D", "d", (2016, 12, 3), None, ""),
    ];
    let html = home_page::render(&posts);
    let start = html.find("<table id=\"archive-table\">").unwrap() + "<table id=\"archive-table\">".len();
    let end = html.find("</table>").unwrap();
    let rows: Vec<&str> = html[start..end].split_inclusive("</tr>").collect();
    assert_eq!(rows.len(), posts.len());
    assert_eq!(rows[0], "<tr><td id=\"date\">January 2018<else></else></td><td><a href=\"a&amp;b\">A &lt;1&gt;</a></td></tr>");
    assert_eq!(rows[1], "<tr><td id=\"date\"><else></else></td><td><a href=\"b\">B</a></td></tr>");
    assert!(rows[2].contains("December 2017") && rows[2].contains(">C</a>"));
    assert!(rows[3].contains("December 2016") && rows[3].contains(">D</a>"));
    assert_eq!(home_page::render(&vec![]).matches("<tr>").count(), 0);
}
