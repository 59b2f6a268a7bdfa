# blog

The library behind a static blog generator. Posts are Markdown files that start with a
block of `key: value` headers (`title`, `date`, `url`, `tag`, `html`); the library reads
them into posts and writes the site's pages: one per post, the home page with the archive
of all posts, the page of the book, and an Atom feed.

The library is verified with Verus: each public function has a contract, and the laws that
hold across functions (the header block and the body split a post, header lines in front of
a post leave its body alone, a slug holds only slug characters, code snippets are cut out
of HTML without loss, HTML without snippets is kept as it is, posts whose snippets ask for
no language need no syntax definitions, a post's file path keeps the URL's directories and
stem and gets the extension `html` once, posts are sorted newest first and stably, a month
heads the archive exactly where it changes, the archive has one row per post in order, the
book's table of contents has sixteen rows, a draft page is the published page without its
comments, the sidebar lists at most four related posts, the feed at most ten) are proof
functions named `law_...`.

Three outside computations stand behind named results that the contracts speak of: what
pulldown-cmark renders from Markdown, what syntect makes of a snippet with a syntax and a
theme, and how chrono writes a time and reads a date. The contracts say where each result
goes and what the library does with it; what the outside crate computes for given values
is theirs. A highlighter only holds syntaxes that its syntax set gives for a file
extension, since syntect looks a syntax's rules up in its own set.

- `src/` — the verified library.
- `tests/` — its tests.
- `app/main.rs` — the command line program: reads the input directory, loads the syntax
  definitions and theme the first time a post needs them, reads the clock, writes the
  output files.
