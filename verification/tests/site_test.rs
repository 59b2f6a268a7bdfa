use blog::date::PostDate;
use blog::headers::Headers;
use blog::post::Post;
use blog::site::sort_newest_first;

fn post(title: &str, date: (i32, u32, u32)) -> Post {
    Post {
        path: String::new(),
        url: title.to_string(),
        title: title.to_string(),
        date: PostDate { year: date.0, month: date.1, day: date.2 },
        tag: None,
        headers: Headers::new(),
        content: String::new(),
    }
}

#[test]
fn posts_are_sorted_newest_first_keeping_same_day_order() {
    let posts = vec![
        post("a", (2017, 5, 1)),
        post("b", (2019, 1, 1)),
        post("c", (2017, 5, 1)),
        post("d", (2018, 12, 31)),
        post("e", (2019, 1, 1)),
    ];
    let sorted = sort_newest_first(posts);
    let titles: Vec<&str> = sorted.iter().map(|p| p.title.as_str()).collect();
    assert_eq!(titles, vec!["b", "e", "d", "a", "c"]);
    assert_eq!(sort_newest_first(vec![]).len(), 0);
}
