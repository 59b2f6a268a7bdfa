use blog::date::PostDate;
use blog::headers::Headers;
use blog::post::Post;
use blog::post_link::PostLink;

fn post(title: &str, url: &str, year: i32, month: u32, day: u32) -> Post {
    Post {
        path: format!("{}.html", url),
        url: url.to_string(),
        title: title.to_string(),
        date: PostDate { year, month, day },
        tag: None,
        headers: Headers::new(),
        content: String::new(),
    }
}

fn learning_rust() -> Post {
    post("Learning Rust: If Let vs. Match", "2018/1/18/learning-rust-if-let-vs--match", 2018, 1, 18)
}

fn paperclip() -> Post {
    post("Database storage for Paperclip rewritten to use a single table", "paperclip-database-storage", 2009, 4, 14)
}

#[test]
fn it_returns_an_empty_array_of_links() {
    let no_posts: &Vec<Post> = &[].to_vec();
    assert_eq!(PostLink::all_from(no_posts), [].to_vec());
}

#[test]
fn it_returns_a_valid_array_of_links() {
    let posts = [learning_rust(), paperclip()].to_vec();
    let links = PostLink::all_from(&posts);
    assert_eq!(links.len(), 2);
    let link = &links[0];
    assert_eq!(link.date_string, Some("January 2018".to_string()));
    let link = &links[1];
    assert_eq!(link.date_string, Some("April 2009".to_string()));
}

#[test]
fn it_returns_links_without_repeated_months() {
    let post = learning_rust();
    let mut post2 = paperclip();
    post2.date = post.date;
    let posts = [post, post2].to_vec();
    let links = PostLink::all_from(&posts);
    assert_eq!(links.len(), 2);
    let link = &links[0];
    assert_eq!(link.date_string, Some("January 2018".to_string()));
    let link = &links[1];
    assert_eq!(link.date_string, None);
}

#[test]
fn a_month_heads_again_after_another_month() {
    let posts = vec![
        post("a", "a", 2018, 1, 30),
        post("b", "b", 2018, 1, 2),
        post("c", "c", 2017, 12, 31),
        post("d", "d", 2017, 1, 31),
        post("e", "e", 2017, 1, 1),
    ];
    let links = PostLink::all_from(&posts);
    let dates: Vec<Option<String>> = links.iter().map(|l| l.date_string.clone()).collect();
    assert_eq!(dates, vec![
        Some("January 2018".to_string()),
        None,
        Some("December 2017".to_string()),
        Some("January 2017".to_string()),
        None,
    ]);
    assert_eq!(links[2].url, "c");
    assert_eq!(links[2].title, "c");
    assert!(links[0] == links[0].clone());
    assert!(links[0] != links[1]);
}
