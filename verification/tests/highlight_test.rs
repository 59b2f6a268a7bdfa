use blog::highlight::{highlighted_html_for, highlighted_html_for_language, highlighted_or_plain, language, Highlighter, Language};
use blog::post::with_highlighted_code_snippets;
use blog::snippets::{code_snippets, Piece};
use syntect::highlighting::ThemeSet;
use syntect::html::highlighted_html_for_string;
use syntect::parsing::SyntaxSet;

fn highlighter() -> Highlighter {
    let syntaxes = SyntaxSet::load_defaults_newlines();
    let theme = ThemeSet::load_defaults().themes["InspiredGitHub"].clone();
    Highlighter::for_posts(syntaxes, theme).unwrap()
}

#[test]
fn snippets_without_attributes_are_returned_unchanged() {
    let h = highlighter();
    assert_eq!(highlighted_html_for(&"x < y".to_string(), None, &h), "x < y");
}

#[test]
fn snippets_without_a_language_keep_their_pre_element() {
    let h = highlighter();
    assert_eq!(highlighted_html_for(&"code".to_string(), Some(" class=\"x\"".to_string()), &h), "<pre class=\"x\">code</pre>");
    assert_eq!(highlighted_html_for_language(&"code".to_string(), "".to_string(), &h), "<pre>code</pre>");
}

#[test]
fn snippets_in_a_language_are_highlighted() {
    let h = highlighter();
    let out = highlighted_html_for_language(&"def f; end".to_string(), " type=\"ruby\"".to_string(), &h);
    assert!(out.starts_with("<pre style="));
    assert!(out.contains("<span"));
    assert!(!out.contains("type=\"ruby\""));
}

#[test]
fn attributes_choose_the_language() {
    assert!(matches!(language(&" lang=\"ruby\"".to_string()), Language::Ruby));
    assert!(matches!(language(&" lang=\"rust\" ruby".to_string()), Language::Ruby));
    assert!(matches!(language(&" lang=\"rust\"".to_string()), Language::Rust));
    assert!(matches!(language(&" type=\"c\"".to_string()), Language::C));
    assert!(matches!(language(&" type=\"cpp\"".to_string()), Language::Plain));
}

#[test]
fn html_is_cut_into_text_and_snippets() {
    let pieces = code_snippets(&"a<pre x>b</pre>c<pre>d</pre><pre".to_string());
    assert_eq!(pieces.len(), 5);
    assert!(matches!(&pieces[0], Piece::Text(t) if t == "a"));
    assert!(matches!(&pieces[1], Piece::Snippet { attributes, code } if attributes == " x" && code == "b"));
    assert!(matches!(&pieces[2], Piece::Text(t) if t == "c"));
    assert!(matches!(&pieces[3], Piece::Snippet { attributes, code } if attributes == "" && code == "d"));
    assert!(matches!(&pieces[4], Piece::Text(t) if t == "<pre"));
    assert_eq!(code_snippets(&"".to_string()).len(), 0);
    let lazy = code_snippets(&"<pre>1</pre>2</pre>".to_string());
    assert!(matches!(&lazy[0], Piece::Snippet { code, .. } if code == "1"));
    assert!(matches!(&lazy[1], Piece::Text(t) if t == "2</pre>"));
}

#[test]
fn code_snippets_are_trimmed_and_rewritten() {
    let h = highlighter();
    let out = with_highlighted_code_snippets(&"<p>x</p><pre class=\"q\">\n  code  \n</pre><p>y</p>".to_string(), &h);
    assert_eq!(out, "<p>x</p><pre class=\"q\">code</pre><p>y</p>");
    let plain = "<p>no snippets here</p>".to_string();
    assert_eq!(with_highlighted_code_snippets(&plain, &h), plain);
}

fn syntect(code: &str, extension: &str) -> String {
    let syntaxes = SyntaxSet::load_defaults_newlines();
    let syntax = syntaxes.find_syntax_by_extension(extension).unwrap();
    let theme = ThemeSet::load_defaults().themes["InspiredGitHub"].clone();
    highlighted_html_for_string(code, &syntaxes, syntax, &theme).unwrap()
}

#[test]
fn each_language_is_highlighted_with_its_syntax() {
    let h = highlighter();
    let code = "fn main() { let x = 1; }".to_string();
    let ruby = highlighted_html_for_language(&code, " class=\"ruby\"".to_string(), &h);
    let rust = highlighted_html_for_language(&code, " class=\"rust\"".to_string(), &h);
    let c = highlighted_html_for_language(&code, " type=\"c\"".to_string(), &h);
    assert_eq!(ruby, syntect(&code, "rb"));
    assert_eq!(rust, syntect(&code, "rs"));
    assert_eq!(c, syntect(&code, "c"));
    assert_ne!(ruby, rust);
    let both = highlighted_html_for_language(&code, " rust ruby".to_string(), &h);
    assert_eq!(both, ruby);
    assert_eq!(highlighted_html_for(&code, Some(" lang=\"rust\"".to_string()), &h), rust);
}

#[test]
fn a_failed_highlighting_falls_back_to_the_plain_snippet() {
    let snippet = "x".to_string();
    let attributes = " class=\"ruby\"".to_string();
    assert_eq!(highlighted_or_plain(None, &snippet, &attributes), "<pre class=\"ruby\">x</pre>");
    assert_eq!(highlighted_or_plain(Some("<pre>y</pre>".to_string()), &snippet, &attributes), "<pre>y</pre>");
}

#[test]
fn language_snippets_are_replaced_by_their_highlighting() {
    let h = highlighter();
    let html = "<p>a</p><pre class=\"ruby\">\n  puts 1\n</pre><p>b</p><pre lang=\"rust\">let x = 1;</pre>".to_string();
    let out = with_highlighted_code_snippets(&html, &h);
    assert_eq!(out, format!("<p>a</p>{}<p>b</p>{}", syntect("puts 1", "rb"), syntect("let x = 1;", "rs")));
}

#[test]
fn a_highlighter_needs_each_syntax_in_its_set() {
    let theme = ThemeSet::load_defaults().themes["InspiredGitHub"].clone();
    assert!(Highlighter::for_posts(SyntaxSet::load_defaults_newlines(), theme.clone()).is_some());
    assert!(Highlighter::new(SyntaxSet::load_defaults_newlines(), theme.clone(), "rb", "rs", "nope").is_none());
    let mut builder = syntect::parsing::SyntaxSetBuilder::new();
    builder.add_plain_text_syntax();
    assert!(Highlighter::for_posts(builder.build(), theme.clone()).is_none());
    let h = Highlighter::new(SyntaxSet::load_defaults_newlines(), theme, "RB", "rs", "c").unwrap();
    assert_eq!(
        highlighted_html_for_language(&"puts 1".to_string(), " class=\"ruby\"".to_string(), &h),
        syntect("puts 1", "rb"),
    );
}
