use blog::date::PostDate;
use blog::headers::{header_lines, header_map, is_header, other_lines, parse_header_line, Headers};
use blog::highlight::Highlighter;
use blog::invalid_post_error::InvalidPostError;
use blog::post::{has_markdown_extension, html, html_from_markdown, needs_highlighting, path_from_url, url_from_title_and_date, url_without_leading_slash, with_delim_removed, Post};
use blog::slug::slug;
use chrono::{DateTime, Datelike};
use syntect::highlighting::ThemeSet;
use syntect::highlighting::Theme;
use syntect::parsing::{SyntaxSet, SyntaxSetBuilder};

fn highlighter() -> Highlighter {
    let syntaxes = SyntaxSet::load_defaults_newlines();
    let theme = ThemeSet::load_defaults().themes["InspiredGitHub"].clone();
    Highlighter::for_posts(syntaxes, theme).unwrap()
}

fn lines(text: &str) -> Vec<String> {
    text.lines().map(|l| l.to_string()).collect()
}

fn input_path() -> String {
    "tests/2018-01-18-learning-rust-if-let-vs-match.markdown".to_string()
}

fn input_lines() -> Vec<String> {
    lines("title: \"Learning Rust: If Let vs. Match\"\ndate: 2018/01/18\ntag: Rust\n\nSome *Markdown* text.\n\n```\nlet x = 1;\n```\n")
}

fn input_path2() -> String {
    "tests/2009-04-14-database-storage-for-paperclip-rewritten-to-use-a-single-table.markdown".to_string()
}

fn input_lines2() -> Vec<String> {
    lines("title: \"Database storage for Paperclip rewritten to use a single table\"\ndate: 2009/04/14\nurl: /paperclip-database-storage\n\nThe post.\n")
}

#[test]
fn it_parses_the_title() {
    let post = Post::from(&input_path(), &input_lines(), None, &highlighter()).unwrap();
    assert_eq!(post.title, "Learning Rust: If Let vs. Match");
}

#[test]
fn it_parses_the_date() {
    let post = Post::from(&input_path(), &input_lines(), None, &highlighter()).unwrap();
    let expected = DateTime::parse_from_rfc3339("2018-01-18T00:00:00+00:00").unwrap();
    assert_eq!(post.date.year, expected.year());
    assert_eq!(post.date.month, expected.month());
    assert_eq!(post.date.day, expected.day());
}

#[test]
fn it_calculates_an_output_path_and_directory() {
    let post = Post::from(&input_path(), &input_lines(), None, &highlighter()).unwrap();
    assert_eq!(post.path, "2018/1/18/learning-rust-if-let-vs--match.html");
    assert_eq!(post.url, "2018/1/18/learning-rust-if-let-vs--match");
}

#[test]
fn it_overrides_the_path_when_url_is_specified() {
    let post = Post::from(&input_path2(), &input_lines2(), None, &highlighter()).unwrap();
    assert_eq!(post.path, "paperclip-database-storage.html");
    assert_eq!(post.url, "paperclip-database-storage");
}

#[test]
fn it_returns_an_error_for_an_unexpected_filename() {
    let post = Post::from(&"tests/invalid.markdown".to_string(), &lines("This is not a post.\n"), None, &highlighter());
    assert!(post.is_err(), "Post should be invalid");
}

#[test]
fn missing_title_is_reported_with_the_path() {
    let e = Post::from(&"a.markdown".to_string(), &lines("date: 2018/01/18\n\nBody\n"), None, &highlighter()).unwrap_err();
    assert_eq!(e.message(), "Missing title in a.markdown");
    assert_eq!(e.description(), "Missing title");
    assert_eq!(e.path(), Some(&"a.markdown".to_string()));
}

#[test]
fn missing_date_is_reported_with_the_path() {
    let e = Post::from(&"a.markdown".to_string(), &lines("title: A\n\nBody\n"), None, &highlighter()).unwrap_err();
    assert_eq!(e.message(), "Missing date in a.markdown");
}

#[test]
fn invalid_date_is_reported_with_the_path() {
    let e = Post::from(&"a.markdown".to_string(), &lines("title: A\ndate: 2018-01-18\n\nBody\n"), None, &highlighter()).unwrap_err();
    assert_eq!(e.message(), "Invalid date in a.markdown");
    let e = Post::from(&"a.markdown".to_string(), &lines("title: A\ndate: 2018/02/30\n\nBody\n"), None, &highlighter()).unwrap_err();
    assert_eq!(e.message(), "Invalid date in a.markdown");
}

#[test]
fn a_missing_title_takes_precedence_over_a_missing_date() {
    let e = Post::from(&"a.markdown".to_string(), &lines("tag: x\n\nBody\n"), None, &highlighter()).unwrap_err();
    assert_eq!(e.description(), "Missing title");
}

#[test]
fn it_renders_markdown_bodies_to_html() {
    let post = Post::from(&input_path(), &input_lines(), None, &highlighter()).unwrap();
    assert_eq!(post.content, "<p>Some <em>Markdown</em> text.</p>\n<pre><code>let x = 1;\n</code></pre>\n");
    assert_eq!(post.tag, Some("Rust".to_string()));
    assert_eq!(post.headers.get("tag"), Some(&"Rust".to_string()));
}

#[test]
fn it_takes_html_from_the_named_file() {
    let ls = lines("title: T\ndate: 2010/02/20\nhtml: legacy.html\n\nignored\n");
    let post = Post::from(&"p.markdown".to_string(), &ls, Some(Ok("<p>legacy</p>".to_string())), &highlighter()).unwrap();
    assert_eq!(post.content, "<p>legacy</p>");
    let e = Post::from(&"p.markdown".to_string(), &ls, Some(Err(InvalidPostError::new_for_path(&"legacy.html".to_string(), "Unable to read html source file"))), &highlighter()).unwrap_err();
    assert_eq!(e.message(), "Unable to read html source file in legacy.html");
}

#[test]
fn html_renders_the_body_when_no_file_is_named() {
    let ls = lines("title: T\ndate: 2010/02/20\n\n# Heading\n");
    let hm = header_map(&header_lines(&ls));
    let h = html(&ls, &hm, None, &highlighter()).unwrap();
    assert_eq!(h, "<h1>Heading</h1>\n");
}

#[test]
fn summary_is_the_first_400_bytes() {
    let mut post = Post::from(&input_path(), &input_lines(), None, &highlighter()).unwrap();
    post.content = format!("{}{}", "é".repeat(200), "tail");
    assert_eq!(post.summary(), "é".repeat(200));
    post.content = "a".repeat(500);
    assert_eq!(post.summary(), "a".repeat(400));
}

#[test]
fn posts_compare_by_date() {
    let a = Post::from(&input_path(), &input_lines(), None, &highlighter()).unwrap();
    let mut b = Post::from(&input_path2(), &input_lines2(), None, &highlighter()).unwrap();
    assert!(a != b);
    assert!(b < a);
    b.date = a.date;
    assert!(a == b);
}

#[test]
fn header_lines_and_other_lines_split_the_post() {
    let ls = lines("title: A\n\ndate: 2001/1/1\nBody: starts here\nnot a header\ntag: late\n");
    let h = header_lines(&ls);
    let o = other_lines(&ls);
    assert_eq!(h, lines("title: A\n\ndate: 2001/1/1"));
    assert_eq!(o, lines("Body: starts here\nnot a header\ntag: late"));
    let mut all = h.clone();
    all.extend(o);
    assert_eq!(all, ls);
}

#[test]
fn is_header_accepts_blank_and_key_lines() {
    assert!(is_header(&"   ".to_string()));
    assert!(is_header(&"".to_string()));
    assert!(is_header(&"date:".to_string()));
    assert!(!is_header(&"Date: x".to_string()));
    assert!(!is_header(&":x".to_string()));
    assert!(!is_header(&"text".to_string()));
}

#[test]
fn header_lines_parse_quoted_and_plain_values() {
    assert_eq!(parse_header_line(&"title: \"A \\\"b\\\" c\"".to_string()), Some(("title".to_string(), "A \\".to_string())));
    assert_eq!(parse_header_line(&"title:   \"Quoted\" rest".to_string()), Some(("title".to_string(), "Quoted".to_string())));
    assert_eq!(parse_header_line(&"title: \"unclosed".to_string()), Some(("title".to_string(), "\"unclosed".to_string())));
    assert_eq!(parse_header_line(&"date: 2018/01/18 ".to_string()), Some(("date".to_string(), "2018/01/18 ".to_string())));
    assert_eq!(parse_header_line(&"date:2018".to_string()), None);
    assert_eq!(parse_header_line(&"Date: 2018".to_string()), None);
    assert_eq!(parse_header_line(&"date: a\nb".to_string()), None);
    assert_eq!(parse_header_line(&"date: \"a\nb\"".to_string()), Some(("date".to_string(), "a\nb".to_string())));
}

#[test]
fn later_headers_override_earlier_ones() {
    let hm = header_map(&lines("title: One\ntag: a\ntitle: Two\n\n"));
    assert_eq!(hm.get("title"), Some(&"Two".to_string()));
    assert_eq!(hm.get("tag"), Some(&"a".to_string()));
    assert_eq!(hm.get("date"), None);
    assert!(hm.contains_key("tag"));
    let mut h = Headers::new();
    h.insert("k".to_string(), "v".to_string());
    h.insert("k".to_string(), "w".to_string());
    assert_eq!(h.get("k"), Some(&"w".to_string()));
}

#[test]
fn slugs_follow_the_title() {
    assert_eq!(slug(&"Learning Rust: If Let vs. Match".to_string()), "learning-rust-if-let-vs--match");
    assert_eq!(slug(&"Ruby & Rails".to_string()), "ruby-and-rails");
    assert_eq!(slug(&"Tabs\t\tand  spaces".to_string()), "tabs-and-spaces");
    assert_eq!(slug(&"Ünïcode Über_Title 2.0".to_string()), "ncode-ber_title-2-0");
    assert_eq!(slug(&"".to_string()), "");
}

#[test]
fn urls_come_from_the_header_or_the_date_and_title() {
    assert_eq!(url_without_leading_slash("/a/b"), "a/b");
    assert_eq!(url_without_leading_slash("//a"), "/a");
    assert_eq!(url_without_leading_slash("a"), "a");
    assert_eq!(url_without_leading_slash(""), "");
    let d = PostDate { year: 2009, month: 4, day: 14 };
    assert_eq!(url_from_title_and_date(&"Hello World".to_string(), &d), "2009/4/14/hello-world");
    let d = PostDate { year: -44, month: 3, day: 15 };
    assert_eq!(url_from_title_and_date(&"Ides".to_string(), &d), "-44/3/15/ides");
}

#[test]
fn paths_end_in_html() {
    assert_eq!(path_from_url(&"a/b".to_string()), "a/b.html");
    assert_eq!(path_from_url(&"a/b.txt".to_string()), "a/b.html");
    assert_eq!(path_from_url(&"".to_string()), "");
}

#[test]
fn paths_agree_with_pathbuf_set_extension() {
    for url in ["", "a", "a/b", "a/b.txt", "a.b.c", ".hidden", ".hidden.md", "a/b/", "a/b//", "a/./", "a/.",
        "/", "/a", "//a.x", ".", "./", "./a", "..", "a/..", "a/../b", "a.", "a/b.c/", "x/.y.z", "a//b", "./.", "../a.b"] {
        let mut p = std::path::PathBuf::from(url);
        p.set_extension("html");
        assert_eq!(path_from_url(&url.to_string()), p.to_string_lossy(), "url {:?}", url);
    }
}

#[test]
fn delim_markers_are_removed_left_to_right() {
    assert_eq!(with_delim_removed("aDELIMbDELIM".to_string()), "ab");
    assert_eq!(with_delim_removed("DDELIMELIM".to_string()), "DELIM");
    assert_eq!(with_delim_removed("DELI".to_string()), "DELI");
}

#[test]
fn errors_display_their_path() {
    let e = InvalidPostError::new_for_path(&"x/y.markdown".to_string(), "Missing date");
    assert_eq!(e.message(), "Missing date in x/y.markdown");
    let e = InvalidPostError::new("TBD IO Error");
    assert_eq!(e.message(), "TBD IO Error");
    assert_eq!(e.path(), None);
}

#[test]
fn markdown_files_are_recognised_like_path_extension() {
    for path in ["a.markdown", "dir/2018-01-18-post.markdown", "a.md", "a.markdown.bak", ".markdown", "a/.markdown",
        "a.markdown/", "markdown", "a.MARKDOWN", "", "x/..", "a.b.markdown"] {
        let expected = std::path::Path::new(path).extension().map_or(false, |e| e == "markdown");
        assert_eq!(has_markdown_extension(&path.to_string()), expected, "path {:?}", path);
    }
}

fn plain_highlighter() -> Highlighter {
    let mut builder = SyntaxSetBuilder::new();
    builder.add_plain_text_syntax();
    let syntaxes = builder.build();
    Highlighter::new(syntaxes, Theme::default(), "txt", "txt", "txt").unwrap()
}

#[test]
fn paths_keep_their_html_extension() {
    for url in ["", "a", "a/b", "a/b.txt", "a.b.c", ".hidden", "a/b/", "/", "/a", "..", "a/..", "./a", "2013/4/3/ruby-2.0"] {
        let once = path_from_url(&url.to_string());
        assert_eq!(path_from_url(&once), once, "url {:?}", url);
    }
    assert_eq!(path_from_url(&"2013/4/3/ruby-2.0".to_string()), "2013/4/3/ruby-2.html");
    assert_eq!(path_from_url(&"a/..".to_string()), "a/..");
}

#[test]
fn leading_header_lines_leave_the_html_alone() {
    let body = lines("# Heading\n\nText: not a header\n");
    let mut with_headers = lines("title: T\n\ndate: 2010/02/20\n");
    with_headers.extend(body.clone());
    let a = html(&with_headers, &header_map(&header_lines(&with_headers)), None, &highlighter()).unwrap();
    let b = html(&body, &header_map(&header_lines(&body)), None, &highlighter()).unwrap();
    assert_eq!(a, b);
    assert_eq!(a, "<h1>Heading</h1>\n<p>Text: not a header</p>\n");
}

#[test]
fn only_language_snippets_need_highlighting() {
    assert!(needs_highlighting(&lines("title: T\ndate: 2010/02/20\n\n<pre class=\"ruby\">puts 1</pre>\n")));
    assert!(needs_highlighting(&lines("title: T\ndate: 2010/02/20\n\n    code\n\n<pre type=\"c\">x</pre>\n")));
    assert!(!needs_highlighting(&lines("title: T\ndate: 2010/02/20\n\n    code\n")));
    assert!(!needs_highlighting(&lines("title: T\ndate: 2010/02/20\nhtml: a.html\n\n<pre class=\"ruby\">puts 1</pre>\n")));
    assert!(!needs_highlighting(&lines("date: 2010/02/20\n\n<pre class=\"ruby\">puts 1</pre>\n")));
    assert!(!needs_highlighting(&lines("title: T\ndate: 2010-02-20\n\n<pre class=\"ruby\">puts 1</pre>\n")));
}

#[test]
fn posts_without_language_snippets_need_no_syntaxes() {
    let ls = lines("title: T\ndate: 2010/02/20\n\n    x < y\n\n<pre class=\"q\">\n a \n</pre>\n");
    assert!(!needs_highlighting(&ls));
    let a = Post::from(&"t.markdown".to_string(), &ls, None, &highlighter()).unwrap();
    let b = Post::from(&"t.markdown".to_string(), &ls, None, &plain_highlighter()).unwrap();
    assert_eq!(a.content, b.content);
    assert_eq!(a.content, "<pre><code>x &lt; y\n</code></pre>\n<pre class=\"q\">a</pre>\n");
}

#[test]
fn a_parse_int_error_becomes_an_invalid_post_error() {
    let e: InvalidPostError = "12x".parse::<i32>().unwrap_err().into();
    assert_eq!(e.message(), "Unable to parse integer");
    assert_eq!(e.path(), None);
}

#[test]
fn markdown_bodies_lose_their_delim_markers() {
    assert_eq!(html_from_markdown(&lines("aDELIMb"), &highlighter()), "<p>ab</p>\n");
    assert_eq!(html_from_markdown(&lines("title: T\n\n# A\n"), &highlighter()), "<h1>A</h1>\n");
}

#[test]
fn an_io_error_becomes_an_invalid_post_error() {
    let e = InvalidPostError::from(std::io::Error::new(std::io::ErrorKind::NotFound, "gone"));
    assert_eq!(e.message(), "TBD IO Error");
    assert_eq!(e.path(), None);
}
