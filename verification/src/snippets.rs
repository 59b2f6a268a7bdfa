use vstd::prelude::*;

use crate::headers;
use crate::text::{self, chars_of, occurs_at_exec, slice_chars, string_of};

verus! {

/// Where `pat` first occurs in `s` at position `i` or later.
pub open spec fn find_from(s: Seq<char>, pat: Seq<char>, i: int) -> Option<int>
    decreases s.len() + 1 - i,
{
    if i < 0 || i > s.len() {
        None
    } else if text::occurs_at(s, pat, i) {
        Some(i)
    } else {
        find_from(s, pat, i + 1)
    }
}

pub proof fn lemma_find_from(s: Seq<char>, pat: Seq<char>, i: int)
    requires
        0 <= i,
    ensures
        match find_from(s, pat, i) {
            Some(j) => i <= j && text::occurs_at(s, pat, j) && forall|l: int|
                i <= l < j ==> !#[trigger] text::occurs_at(s, pat, l),
            None => forall|l: int| i <= l ==> !#[trigger] text::occurs_at(s, pat, l),
        },
    decreases s.len() + 1 - i,
{
    if i > s.len() {
        assert forall|l: int| i <= l implies !#[trigger] text::occurs_at(s, pat, l) by {}
    } else if !text::occurs_at(s, pat, i) {
        lemma_find_from(s, pat, i + 1);
    }
}

/// A code snippet starts `s`: `<pre`, its attributes up to the first `>`, and its code up to
/// the first `</pre>` after that. Gives the positions of that `>` and of that `</pre>`.
pub open spec fn snippet_at(s: Seq<char>) -> Option<(int, int)> {
    if s.len() >= 4 && s.take(4) == "<pre"@ {
        let a = headers::run_without(s.skip(4), '>');
        let k: int = 4 + a as int;
        if k < s.len() {
            match find_from(s, "</pre>"@, k + 1) {
                Some(m) => Some((k, m)),
                None => None,
            }
        } else {
            None
        }
    } else {
        None
    }
}

/// The first position at `i` or later where a code snippet starts.
pub open spec fn find_snippet(s: Seq<char>, i: int) -> Option<int>
    decreases s.len() + 1 - i,
{
    if i < 0 || i >= s.len() {
        None
    } else if snippet_at(s.skip(i)) is Some {
        Some(i)
    } else {
        find_snippet(s, i + 1)
    }
}

/// A piece of an HTML text: plain text, or a code snippet with its attributes and its code.
pub enum PieceView {
    Text(Seq<char>),
    Snippet(Seq<char>, Seq<char>),
}

proof fn lemma_snippet_at(s: Seq<char>)
    ensures
        snippet_at(s) matches Some((k, m)) ==> 4 <= k < m && m + 6 <= s.len() && text::occurs_at(
            s,
            "</pre>"@,
            m,
        ),
{
    if s.len() >= 4 && s.take(4) == "<pre"@ {
        headers::lemma_run_without(s.skip(4), '>');
        let k: int = 4 + headers::run_without(s.skip(4), '>') as int;
        if k < s.len() {
            lemma_find_from(s, "</pre>"@, k + 1);
            reveal_strlit("</pre>");
        }
    }
}

proof fn lemma_find_snippet(s: Seq<char>, i: int)
    requires
        0 <= i,
    ensures
        match find_snippet(s, i) {
            Some(j) => i <= j < s.len() && snippet_at(s.skip(j)) is Some && forall|l: int|
                i <= l < j ==> !(#[trigger] snippet_at(s.skip(l)) is Some),
            None => forall|l: int|
                i <= l < s.len() ==> !(#[trigger] snippet_at(s.skip(l)) is Some),
        },
    decreases s.len() + 1 - i,
{
    if i >= s.len() {
    } else if !(snippet_at(s.skip(i)) is Some) {
        lemma_find_snippet(s, i + 1);
    }
}

/// `s` cut into plain text and code snippets, from left to right; each snippet is taken at
/// the first place one starts, and the text between snippets is kept whole.
pub open spec fn pieces_of(s: Seq<char>) -> Seq<PieceView>
    decreases s.len(),
{
    match find_snippet(s, 0) {
        None => if s.len() == 0 {
            Seq::empty()
        } else {
            seq![PieceView::Text(s)]
        },
        Some(i) => {
            let t = s.skip(i);
            match snippet_at(t) {
                Some((k, m)) => {
                    let head = if i > 0 {
                        seq![PieceView::Text(s.take(i))]
                    } else {
                        Seq::empty()
                    };
                    if 0 <= i && 4 <= k <= m && i + m + 6 <= s.len() {
                        head + seq![PieceView::Snippet(t.subrange(4, k), t.subrange(k + 1, m))]
                            + pieces_of(s.skip(i + m + 6))
                    } else {
                        Seq::empty()
                    }
                },
                None => Seq::empty(),
            }
        },
    }
}

/// The text a piece was cut from.
pub open spec fn piece_source(p: PieceView) -> Seq<char> {
    match p {
        PieceView::Text(t) => t,
        PieceView::Snippet(a, c) => "<pre"@ + a + ">"@ + c + "</pre>"@,
    }
}

/// The sources of a sequence of pieces, one after the other.
pub open spec fn sources(ps: Seq<PieceView>) -> Seq<char>
    decreases ps.len(),
{
    if ps.len() == 0 {
        Seq::empty()
    } else {
        piece_source(ps[0]) + sources(ps.drop_first())
    }
}

proof fn lemma_sources_add(a: Seq<PieceView>, b: Seq<PieceView>)
    ensures
        sources(a + b) == sources(a) + sources(b),
    decreases a.len(),
{
    if a.len() == 0 {
        assert(a + b =~= b);
    } else {
        assert((a + b).drop_first() =~= a.drop_first() + b);
        lemma_sources_add(a.drop_first(), b);
        assert(sources(a) + sources(b) =~= piece_source(a[0]) + (sources(a.drop_first()) + sources(b)));
    }
}

/// Cutting a text into pieces loses nothing: the pieces' sources give back the text.
pub proof fn law_pieces_give_back_the_text(s: Seq<char>)
    ensures
        sources(pieces_of(s)) == s,
    decreases s.len(),
{
    lemma_find_snippet(s, 0);
    assert(sources(Seq::<PieceView>::empty()) =~= Seq::<char>::empty());
    match find_snippet(s, 0) {
        None => {
            if s.len() == 0 {
            } else {
                assert(seq![PieceView::Text(s)].drop_first() =~= Seq::<PieceView>::empty());
                assert(sources(seq![PieceView::Text(s)]) =~= s);
            }
        },
        Some(i) => {
            let t = s.skip(i);
            lemma_snippet_at(t);
            let (k, m) = snippet_at(t).unwrap();
            reveal_strlit("<pre");
            reveal_strlit(">");
            reveal_strlit("</pre>");
            let head: Seq<PieceView> = if i > 0 {
                seq![PieceView::Text(s.take(i))]
            } else {
                Seq::empty()
            };
            let snip = seq![PieceView::Snippet(t.subrange(4, k), t.subrange(k + 1, m))];
            let rest = s.skip(i + m + 6);
            law_pieces_give_back_the_text(rest);
            lemma_sources_add(head + snip, pieces_of(rest));
            lemma_sources_add(head, snip);
            if i > 0 {
                assert(head.drop_first() =~= Seq::<PieceView>::empty());
            }
            assert(sources(head) =~= s.take(i));
            assert(snip.drop_first() =~= Seq::<PieceView>::empty());
            assert(sources(snip) =~= piece_source(snip[0]));
            assert(t.take(4) =~= "<pre"@);
            assert(t[k] == '>') by {
                headers::lemma_run_without(t.skip(4), '>');
                assert(t.skip(4)[k - 4] == t[k]);
            }
            assert(t.subrange(m, m + 6) =~= "</pre>"@);
            assert(piece_source(snip[0]) =~= t.subrange(0, m + 6));
            assert(s =~= s.take(i) + t.subrange(0, m + 6) + rest);
        },
    }
}

/// A piece of an HTML text: plain text, or a code snippet.
#[derive(Debug)]
pub enum Piece {
    Text(String),
    Snippet { attributes: String, code: String },
}

impl View for Piece {
    type V = PieceView;

    open spec fn view(&self) -> PieceView {
        match self {
            Piece::Text(t) => PieceView::Text(t@),
            Piece::Snippet { attributes, code } => PieceView::Snippet(attributes@, code@),
        }
    }
}

/// The `>` that ends the opening tag of a snippet at `i`, and the `</pre>` that closes it.
fn snippet_at_exec(v: &Vec<char>, i: usize, open: &Vec<char>, close: &Vec<char>) -> (r: Option<
    (usize, usize),
>)
    requires
        i <= v@.len(),
        open@ == "<pre"@,
        close@ == "</pre>"@,
    ensures
        match r {
            Some((k, m)) => snippet_at(v@.skip(i as int)) == Some(((k - i) as int, (m - i) as int))
                && i <= k && i <= m,
            None => snippet_at(v@.skip(i as int)) is None,
        },
{
    let ghost t = v@.skip(i as int);
    let len = v.len();
    proof {
        reveal_strlit("<pre");
        reveal_strlit("</pre>");
    }
    if !occurs_at_exec(v, open, i) {
        proof {
            if t.len() >= 4 {
                assert(t.take(4) =~= v@.subrange(i as int, i + 4));
            }
        }
        return None;
    }
    proof {
        assert(t.take(4) =~= v@.subrange(i as int, i + 4));
    }
    let mut k = i + 4;
    while k < v.len() && v[k] != '>'
        invariant
            i + 4 <= k <= v@.len(),
            forall|j: int| i + 4 <= j < k ==> #[trigger] v@[j] != '>',
        decreases v@.len() - k,
    {
        k = k + 1;
    }
    proof {
        let u = t.skip(4);
        assert forall|j: int| 0 <= j < k - i - 4 implies #[trigger] u[j] != '>' by {
            assert(u[j] == v@[i + 4 + j]);
        }
        if k < v@.len() {
            assert(u[k - i - 4] == v@[k as int]);
        }
        headers::lemma_run_without_unique(u, '>', k - i - 4);
    }
    if k >= v.len() {
        return None;
    }
    let mut m = k + 1;
    while m < v.len() && !occurs_at_exec(v, close, m)
        invariant
            k + 1 <= m <= v@.len(),
            forall|j: int| k + 1 <= j < m ==> !#[trigger] text::occurs_at(v@, close@, j),
        decreases v@.len() - m,
    {
        m = m + 1;
    }
    proof {
        assert forall|j: int| k - i + 1 <= j < m - i implies !#[trigger] text::occurs_at(
            t,
            "</pre>"@,
            j,
        ) by {
            if j + 6 <= t.len() {
                assert(t.subrange(j, j + 6) =~= v@.subrange(i + j, i + j + 6));
            }
            assert(text::occurs_at(v@, close@, i + j) == text::occurs_at(t, "</pre>"@, j));
        }
        lemma_find_from(t, "</pre>"@, k - i + 1);
    }
    if m < v.len() {
        proof {
            assert(t.subrange(m - i, m - i + 6) =~= v@.subrange(m as int, m + 6));
            assert(text::occurs_at(t, "</pre>"@, m - i));
        }
        Some((k, m))
    } else {
        proof {
            reveal_strlit("</pre>");
            assert forall|j: int| m - i <= j implies !#[trigger] text::occurs_at(t, "</pre>"@, j) by {
            }
        }
        None
    }
}

/// Cuts an HTML text into plain text and `<pre ...>...</pre>` code snippets.
pub fn code_snippets(html: &String) -> (r: Vec<Piece>)
    ensures
        r@.map_values(|p: Piece| p@) == pieces_of(html@),
{
    let v = chars_of(html.as_str());
    let open = chars_of("<pre");
    let close = chars_of("</pre>");
    let mut r: Vec<Piece> = Vec::new();
    let mut start: usize = 0;
    let mut i: usize = 0;
    proof {
        assert(v@.skip(0) =~= v@);
    }
    while i < v.len()
        invariant
            start <= i <= v@.len(),
            open@ == "<pre"@,
            close@ == "</pre>"@,
            pieces_of(v@) == r@.map_values(|p: Piece| p@) + pieces_of(v@.skip(start as int)),
            find_snippet(v@.skip(start as int), 0) == find_snippet(v@.skip(start as int), (i - start) as int),
        decreases v@.len() - i,
    {
        match snippet_at_exec(&v, i, &open, &close) {
            None => {
                proof {
                    let s = v@.skip(start as int);
                    assert(s.skip(i - start) =~= v@.skip(i as int));
                }
                i = i + 1;
            },
            Some((k, m)) => {
                let ghost s = v@.skip(start as int);
                let ghost rmap = r@.map_values(|p: Piece| p@);
                proof {
                    assert(s.skip(i - start) =~= v@.skip(i as int));
                    lemma_snippet_at(v@.skip(i as int));
                }
                if i > start {
                    r.push(Piece::Text(string_of(&slice_chars(&v, start, i))));
                }
                let attributes = string_of(&slice_chars(&v, i + 4, k));
                let code = string_of(&slice_chars(&v, k + 1, m));
                r.push(Piece::Snippet { attributes, code });
                proof {
                    let t = s.skip(i - start);
                    let ii = (i - start) as int;
                    assert(find_snippet(s, 0) == Some(ii));
                    assert(t.subrange(4, (k - i) as int) =~= v@.subrange(i + 4, k as int));
                    assert(t.subrange((k - i) + 1, (m - i) as int) =~= v@.subrange(k + 1, m as int));
                    assert(s.skip(ii + (m - i) + 6) =~= v@.skip(m + 6));
                    if i > start {
                        assert(s.take(ii) =~= v@.subrange(start as int, i as int));
                    }
                    assert(r@.map_values(|p: Piece| p@) =~= rmap + (if i > start {
                        seq![PieceView::Text(s.take(ii))]
                    } else {
                        Seq::empty()
                    }) + seq![PieceView::Snippet(t.subrange(4, (k - i) as int), t.subrange((k - i) + 1, (m - i) as int))]);
                }
                start = m + 6;
                i = m + 6;
            },
        }
    }
    proof {
        let s = v@.skip(start as int);
        lemma_find_snippet(s, (i - start) as int);
    }
    if start < v.len() {
        let ghost rmap = r@.map_values(|p: Piece| p@);
        r.push(Piece::Text(string_of(&slice_chars(&v, start, v.len()))));
        proof {
            let s = v@.skip(start as int);
            assert(s =~= v@.subrange(start as int, v@.len() as int));
            assert(r@.map_values(|p: Piece| p@) =~= rmap + seq![PieceView::Text(s)]);
        }
    } else {
        proof {
            assert(r@.map_values(|p: Piece| p@) + pieces_of(v@.skip(start as int)) =~= r@.map_values(|p: Piece| p@));
        }
    }
    r
}

} // verus!
