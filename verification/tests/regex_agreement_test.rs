use blog::headers::{is_header, parse_header_line};
use blog::slug::slug;
use blog::snippets::{code_snippets, Piece};
use regex::{Regex, RegexBuilder};

fn samples() -> Vec<&'static str> {
    vec![
        "", " ", "title: \"Quoted\"", "title:   \"Quoted\" and more", "title: \"unclosed", "date: 2018/01/18",
        "date:2018", "Date: x", "tag: Ruby ", "url: /a/b", "x: \u{3000}wide space", "x:\tTab", "x: \"\"",
        "html: file.html", "key only:", "ab1: c", "a: b\nc", "a:\n b", "a: \"b\nc\"", ":", "a:", "é: x",
        "Learning Rust: If Let vs. Match", "Ruby & Rails 2.0", "  Spaced\t\ttitle  ", "Über ünïcode_name-1",
        "a.b.c", "..", "x&y&z", "Tabs\u{a0}and\u{2003}more",
    ]
}

#[test]
fn header_lines_parse_as_the_header_patterns_say() {
    let quoted = Regex::new("^([a-z]+):\\s+\"([^\"]*)\"").unwrap();
    let plain = Regex::new("^([a-z]+):\\s+(.*)$").unwrap();
    for line in samples() {
        let expected = if let Some(c) = quoted.captures(line) {
            Some((c[1].to_string(), c[2].to_string()))
        } else if let Some(c) = plain.captures(line) {
            Some((c[1].to_string(), c[2].to_string()))
        } else {
            None
        };
        assert_eq!(parse_header_line(&line.to_string()), expected, "line {:?}", line);
    }
}

#[test]
fn header_lines_are_recognised_as_the_header_pattern_says() {
    let is_key = Regex::new("^[a-z]+:").unwrap();
    for line in samples() {
        let expected = line.trim().is_empty() || is_key.is_match(line);
        assert_eq!(is_header(&line.to_string()), expected, "line {:?}", line);
    }
}

#[test]
fn slugs_are_what_the_slug_patterns_make() {
    let ampersands = Regex::new(r"&").unwrap();
    let whitespace = Regex::new(r"(\s+)|\.").unwrap();
    let other = Regex::new(r"[^_a-z0-9\-]").unwrap();
    for title in samples() {
        let t = title.to_ascii_lowercase();
        let t = ampersands.replace_all(&t, "and");
        let t = whitespace.replace_all(&t, "-");
        let t = other.replace_all(&t, "");
        assert_eq!(slug(&title.to_string()), t.to_string(), "title {:?}", title);
    }
}

#[test]
fn snippets_are_found_as_the_snippet_pattern_finds_them() {
    let snippet = RegexBuilder::new("<pre([^>]*)>(.*?)</pre>").dot_matches_new_line(true).build().unwrap();
    let texts = [
        "", "plain", "<pre>a</pre>", "x<pre class=\"q\">\n a \n</pre>y<pre>b</pre>", "<pre>a", "<pre x>",
        "<pre><pre>a</pre></pre>", "<pre</pre>>x</pre>", "<pre>1</pre>2</pre>", "a<pre>b<pre c>d</pre>e",
        "<p>é</p><pre type=\"ruby\">def f\nend</pre>", "<pre>>x</pre>", "<PRE>x</PRE>",
    ];
    for text in texts {
        let expected = snippet.replace_all(text, |c: &regex::Captures| {
            format!("[{}|{}]", &c[1], &c[2])
        });
        let mut got = String::new();
        for piece in code_snippets(&text.to_string()) {
            match piece {
                Piece::Text(t) => got.push_str(&t),
                Piece::Snippet { attributes, code } => got.push_str(&format!("[{}|{}]", attributes, code)),
            }
        }
        assert_eq!(got, expected, "text {:?}", text);
    }
}
