use vstd::prelude::*;

use syntect::highlighting::Theme;
use syntect::parsing::{SyntaxReference, SyntaxSet};

use crate::text::{self, chars_of, contains};

verus! {

#[verifier::external_type_specification]
#[verifier::external_body]
pub struct ExSyntaxSet(SyntaxSet);

#[verifier::external_type_specification]
#[verifier::external_body]
pub struct ExSyntaxReference(SyntaxReference);

#[verifier::external_type_specification]
#[verifier::external_body]
pub struct ExTheme(Theme);

/// The syntax definitions and the colour theme that code snippets are highlighted with:
/// the syntaxes of Ruby, Rust and C, out of one syntax set.
pub struct Highlighter {
    syntaxes: SyntaxSet,
    theme: Theme,
    ruby: SyntaxReference,
    rust: SyntaxReference,
    c: SyntaxReference,
}

impl Highlighter {
    /// The syntax set the highlighter reads syntaxes from.
    pub closed spec fn syntax_set(&self) -> SyntaxSet {
        self.syntaxes
    }

    /// The colour theme of highlighted code.
    pub closed spec fn colour_theme(&self) -> Theme {
        self.theme
    }

    /// The syntax that Ruby snippets are highlighted with.
    pub closed spec fn ruby_syntax(&self) -> SyntaxReference {
        self.ruby
    }

    /// The syntax that Rust snippets are highlighted with.
    pub closed spec fn rust_syntax(&self) -> SyntaxReference {
        self.rust
    }

    /// The syntax that C snippets are highlighted with.
    pub closed spec fn c_syntax(&self) -> SyntaxReference {
        self.c
    }

    /// Each of the highlighter's syntaxes is one of its syntax set's, as syntect needs: it
    /// finds a syntax's rules in the set by index.
    #[verifier::type_invariant]
    spec fn syntaxes_belong_to_the_set(self) -> bool {
        &&& belongs_to(self.ruby, self.syntaxes)
        &&& belongs_to(self.rust, self.syntaxes)
        &&& belongs_to(self.c, self.syntaxes)
    }

    /// A highlighter from a syntax set and a theme, with the syntaxes the set has for the given
    /// file extensions of Ruby, Rust and C code; `None` where the set has no syntax for one of
    /// them.
    pub fn new(
        syntaxes: SyntaxSet,
        theme: Theme,
        ruby_extension: &str,
        rust_extension: &str,
        c_extension: &str,
    ) -> (h: Option<Highlighter>)
        ensures
            match (
                syntect_syntax_for_extension(syntaxes, ruby_extension@),
                syntect_syntax_for_extension(syntaxes, rust_extension@),
                syntect_syntax_for_extension(syntaxes, c_extension@),
            ) {
                (Some(ruby), Some(rust), Some(c)) => (h matches Some(x) && x.syntax_set()
                    == syntaxes && x.colour_theme() == theme && x.ruby_syntax() == ruby
                    && x.rust_syntax() == rust && x.c_syntax() == c),
                _ => h is None,
            },
    {
        let ruby = syntax_for_extension(&syntaxes, ruby_extension);
        let rust = syntax_for_extension(&syntaxes, rust_extension);
        let c = syntax_for_extension(&syntaxes, c_extension);
        match (ruby, rust, c) {
            (Some(ruby), Some(rust), Some(c)) => Some(Highlighter { syntaxes, theme, ruby, rust, c }),
            _ => None,
        }
    }

    /// The highlighter of posts: the syntaxes of a set for the extensions `rb`, `rs` and `c`,
    /// and a theme; `None` where the set has no syntax for one of them.
    pub fn for_posts(syntaxes: SyntaxSet, theme: Theme) -> (h: Option<Highlighter>)
        ensures
            match (
                syntect_syntax_for_extension(syntaxes, "rb"@),
                syntect_syntax_for_extension(syntaxes, "rs"@),
                syntect_syntax_for_extension(syntaxes, "c"@),
            ) {
                (Some(ruby), Some(rust), Some(c)) => (h matches Some(x) && x.syntax_set()
                    == syntaxes && x.colour_theme() == theme && x.ruby_syntax() == ruby
                    && x.rust_syntax() == rust && x.c_syntax() == c),
                _ => h is None,
            },
    {
        Highlighter::new(syntaxes, theme, "rb", "rs", "c")
    }
}

/// What `syntect::parsing::SyntaxSet::find_syntax_by_extension` finds in a syntax set for a
/// file extension: the last syntax of the set that lists the extension, or `None`.
pub uninterp spec fn syntect_syntax_for_extension(
    syntaxes: SyntaxSet,
    extension: Seq<char>,
) -> Option<SyntaxReference>;

/// The syntax is one of the set's: the set gives it for some file extension.
pub open spec fn belongs_to(syntax: SyntaxReference, syntaxes: SyntaxSet) -> bool {
    exists|extension: Seq<char>|
        #[trigger] syntect_syntax_for_extension(syntaxes, extension) == Some(syntax)
}

/// Calls `syntect::parsing::SyntaxSet::find_syntax_by_extension` and clones the syntax it
/// finds. Claimed of it: the result is a function of the set and the extension (named
/// `syntect_syntax_for_extension`); which syntax that is, is left unsaid.
#[verifier::external_body]
fn syntax_for_extension(syntaxes: &SyntaxSet, extension: &str) -> (r: Option<SyntaxReference>)
    ensures
        r == syntect_syntax_for_extension(*syntaxes, extension@),
{
    syntaxes.find_syntax_by_extension(extension).cloned()
}

/// What `syntect::html::highlighted_html_for_string` gives for a code text highlighted with a
/// syntax of a syntax set and a theme: the HTML, or `None` where syntect reports an error.
pub uninterp spec fn syntect_highlighted(
    code: Seq<char>,
    syntaxes: SyntaxSet,
    syntax: SyntaxReference,
    theme: Theme,
) -> Option<Seq<char>>;

/// Calls `syntect::html::highlighted_html_for_string`, which writes `code` as a `<pre>`
/// element of coloured `<span>`s. Claimed of it: its result, the HTML or an error, is a
/// function of the code, the syntax set, the syntax and the theme (named
/// `syntect_highlighted`); what that HTML is for given values is left unsaid. syntect looks
/// the syntax's rules up in the set by index and may panic on a syntax of another set, so
/// the syntax must be one of the set's.
#[verifier::external_body]
fn syntect_html(
    code: &str,
    syntaxes: &SyntaxSet,
    syntax: &SyntaxReference,
    theme: &Theme,
) -> (r: Option<String>)
    requires
        belongs_to(*syntax, *syntaxes),
    ensures
        match r {
            Some(s) => syntect_highlighted(code@, *syntaxes, *syntax, *theme) == Some(s@),
            None => syntect_highlighted(code@, *syntaxes, *syntax, *theme) is None,
        },
{
    syntect::html::highlighted_html_for_string(code, syntaxes, syntax, theme).ok()
}

/// The language that the attributes of a `<pre>` element ask to be highlighted as.
pub enum Language {
    Ruby,
    Rust,
    C,
    Plain,
}

/// `ruby` anywhere in the attributes asks for Ruby, else `rust` for Rust, else `type="c"` for
/// C; any other attributes ask for no highlighting.
pub open spec fn language_of(attributes: Seq<char>) -> Language {
    if text::has_substring(attributes, "ruby"@) {
        Language::Ruby
    } else if text::has_substring(attributes, "rust"@) {
        Language::Rust
    } else if text::has_substring(attributes, "type=\"c\""@) {
        Language::C
    } else {
        Language::Plain
    }
}

/// A `<pre>` element with the given attributes around the snippet, unchanged.
pub open spec fn plain_pre(attributes: Seq<char>, snippet: Seq<char>) -> Seq<char> {
    "<pre"@ + attributes + ">"@ + snippet + "</pre>"@
}

/// Which language the attributes ask for.
pub fn language(attributes: &String) -> (l: Language)
    ensures
        l == language_of(attributes@),
{
    let a = chars_of(attributes.as_str());
    if contains(&a, &chars_of("ruby")) {
        Language::Ruby
    } else if contains(&a, &chars_of("rust")) {
        Language::Rust
    } else if contains(&a, &chars_of("type=\"c\"")) {
        Language::C
    } else {
        Language::Plain
    }
}

fn plain_pre_string(snippet: &String, attributes: &String) -> (r: String)
    ensures
        r@ == plain_pre(attributes@, snippet@),
{
    let mut r = String::new();
    r.append("<pre");
    r.append(attributes.as_str());
    r.append(">");
    r.append(snippet.as_str());
    r.append("</pre>");
    r
}

/// The snippet highlighted with one syntax of the highlighter: syntect's HTML, or the plain
/// `<pre>` element where syntect fails.
pub open spec fn highlighted_with(
    h: Highlighter,
    syntax: SyntaxReference,
    attributes: Seq<char>,
    snippet: Seq<char>,
) -> Seq<char> {
    match syntect_highlighted(snippet, h.syntax_set(), syntax, h.colour_theme()) {
        Some(html) => html,
        None => plain_pre(attributes, snippet),
    }
}

/// The HTML of a snippet whose `<pre>` element has these attributes: highlighted with the
/// Ruby, Rust or C syntax as the attributes ask, or plain.
pub open spec fn highlighted(h: Highlighter, attributes: Seq<char>, snippet: Seq<char>) -> Seq<
    char,
> {
    match language_of(attributes) {
        Language::Ruby => highlighted_with(h, h.ruby_syntax(), attributes, snippet),
        Language::Rust => highlighted_with(h, h.rust_syntax(), attributes, snippet),
        Language::C => highlighted_with(h, h.c_syntax(), attributes, snippet),
        Language::Plain => plain_pre(attributes, snippet),
    }
}

/// What a snippet becomes once syntect has been asked to highlight it: syntect's HTML, or,
/// where syntect reported an error, the snippet in a `<pre>` element with its attributes.
pub fn highlighted_or_plain(highlighted: Option<String>, snippet: &String, attributes: &String) -> (r:
    String)
    ensures
        r@ == match highlighted {
            Some(html) => html@,
            None => plain_pre(attributes@, snippet@),
        },
{
    match highlighted {
        Some(html) => html,
        None => plain_pre_string(snippet, attributes),
    }
}

/// A code snippet as HTML: highlighted when `lang` names attributes that ask for a language,
/// and given back unchanged when there are no attributes.
pub fn highlighted_html_for(snippet: &String, lang: Option<String>, highlighter: &Highlighter) -> (r:
    String)
    ensures
        r@ == match lang {
            Some(a) => highlighted(*highlighter, a@, snippet@),
            None => snippet@,
        },
{
    match lang {
        Some(lang) => highlighted_html_for_language(snippet, lang, highlighter),
        None => snippet.clone(),
    }
}

/// A code snippet as HTML, highlighted with the Ruby syntax when its `<pre>` attributes hold
/// `ruby`, else the Rust syntax when they hold `rust`, else the C syntax when they hold
/// `type="c"`; with attributes that ask for none of these, a `<pre>` element with those
/// attributes around the snippet. Where syntect reports an error, the snippet is given in
/// that plain form too.
pub fn highlighted_html_for_language(
    snippet: &String,
    attributes: String,
    highlighter: &Highlighter,
) -> (r: String)
    ensures
        r@ == highlighted(*highlighter, attributes@, snippet@),
{
    proof {
        use_type_invariant(highlighter);
    }
    let syntax = match language(&attributes) {
        Language::Ruby => &highlighter.ruby,
        Language::Rust => &highlighter.rust,
        Language::C => &highlighter.c,
        Language::Plain => {
            return plain_pre_string(snippet, &attributes);
        },
    };
    let result = syntect_html(snippet.as_str(), &highlighter.syntaxes, syntax, &highlighter.theme);
    highlighted_or_plain(result, snippet, &attributes)
}

} // verus!
