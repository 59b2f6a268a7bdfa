use vstd::prelude::*;

use crate::text::{self, chars_of, is_whitespace, string_of};

verus! {

/// `c` with `A`-`Z` mapped to `a`-`z` (`char::to_ascii_lowercase`).
pub open spec fn ascii_lower(c: char) -> char {
    if 'A' <= c && c <= 'Z' {
        ((c as u32) + 32) as char
    } else {
        c
    }
}

/// A character that may stand in a slug: `_`, `a`-`z`, `0`-`9` or `-`.
pub open spec fn is_slug_char(c: char) -> bool {
    c == '_' || ('a' <= c && c <= 'z') || ('0' <= c && c <= '9') || c == '-'
}

/// `s` with its ASCII capitals made small.
pub open spec fn lowered(s: Seq<char>) -> Seq<char>
    decreases s.len(),
{
    if s.len() == 0 {
        s
    } else {
        lowered(s.drop_last()).push(ascii_lower(s.last()))
    }
}

/// `s` with every `&` written out as `and`.
pub open spec fn ampersands_spelled(s: Seq<char>) -> Seq<char>
    decreases s.len(),
{
    if s.len() == 0 {
        s
    } else if s.last() == '&' {
        ampersands_spelled(s.drop_last()) + "and"@
    } else {
        ampersands_spelled(s.drop_last()).push(s.last())
    }
}

/// `s` with each maximal run of whitespace, and each `.`, replaced by one `-`.
pub open spec fn spaces_dashed(s: Seq<char>) -> Seq<char>
    decreases s.len(),
{
    if s.len() == 0 {
        s
    } else if text::is_ws(s.last()) {
        if s.len() >= 2 && text::is_ws(s[s.len() - 2]) {
            spaces_dashed(s.drop_last())
        } else {
            spaces_dashed(s.drop_last()).push('-')
        }
    } else if s.last() == '.' {
        spaces_dashed(s.drop_last()).push('-')
    } else {
        spaces_dashed(s.drop_last()).push(s.last())
    }
}

/// The characters of `s` that may stand in a slug, in order.
pub open spec fn slug_chars_kept(s: Seq<char>) -> Seq<char>
    decreases s.len(),
{
    if s.len() == 0 {
        s
    } else if is_slug_char(s.last()) {
        slug_chars_kept(s.drop_last()).push(s.last())
    } else {
        slug_chars_kept(s.drop_last())
    }
}

/// The slug of a title, the last part of a post's default URL.
pub open spec fn spec_slug(title: Seq<char>) -> Seq<char> {
    slug_chars_kept(spaces_dashed(ampersands_spelled(lowered(title))))
}

fn to_ascii_lower(c: char) -> (r: char)
    ensures
        r == ascii_lower(c),
{
    if 'A' <= c && c <= 'Z' {
        let b = (c as u32 + 32) as u8;
        b as char
    } else {
        c
    }
}

fn lower_all(v: &Vec<char>) -> (r: Vec<char>)
    ensures
        r@ == lowered(v@),
{
    let mut r: Vec<char> = Vec::new();
    let mut i: usize = 0;
    while i < v.len()
        invariant
            i <= v@.len(),
            r@ == lowered(v@.take(i as int)),
        decreases v@.len() - i,
    {
        proof {
            assert(v@.take(i + 1).drop_last() =~= v@.take(i as int));
        }
        r.push(to_ascii_lower(v[i]));
        i = i + 1;
    }
    proof {
        assert(v@.take(v@.len() as int) =~= v@);
    }
    r
}

fn spell_ampersands(v: &Vec<char>) -> (r: Vec<char>)
    ensures
        r@ == ampersands_spelled(v@),
{
    let mut r: Vec<char> = Vec::new();
    let mut i: usize = 0;
    while i < v.len()
        invariant
            i <= v@.len(),
            r@ == ampersands_spelled(v@.take(i as int)),
        decreases v@.len() - i,
    {
        proof {
            assert(v@.take(i + 1).drop_last() =~= v@.take(i as int));
        }
        if v[i] == '&' {
            proof {
                reveal_strlit("and");
            }
            let ghost before = r@;
            r.push('a');
            r.push('n');
            r.push('d');
            proof {
                assert(r@ =~= before + "and"@);
            }
        } else {
            r.push(v[i]);
        }
        i = i + 1;
    }
    proof {
        assert(v@.take(v@.len() as int) =~= v@);
    }
    r
}

fn dash_spaces(v: &Vec<char>) -> (r: Vec<char>)
    ensures
        r@ == spaces_dashed(v@),
{
    let mut r: Vec<char> = Vec::new();
    let mut i: usize = 0;
    while i < v.len()
        invariant
            i <= v@.len(),
            r@ == spaces_dashed(v@.take(i as int)),
        decreases v@.len() - i,
    {
        proof {
            assert(v@.take(i + 1).drop_last() =~= v@.take(i as int));
        }
        let c = v[i];
        if is_whitespace(c) {
            if i >= 1 && is_whitespace(v[i - 1]) {
            } else {
                r.push('-');
            }
        } else if c == '.' {
            r.push('-');
        } else {
            r.push(c);
        }
        i = i + 1;
    }
    proof {
        assert(v@.take(v@.len() as int) =~= v@);
    }
    r
}

fn keep_slug_chars(v: &Vec<char>) -> (r: Vec<char>)
    ensures
        r@ == slug_chars_kept(v@),
{
    let mut r: Vec<char> = Vec::new();
    let mut i: usize = 0;
    while i < v.len()
        invariant
            i <= v@.len(),
            r@ == slug_chars_kept(v@.take(i as int)),
        decreases v@.len() - i,
    {
        proof {
            assert(v@.take(i + 1).drop_last() =~= v@.take(i as int));
        }
        let c = v[i];
        if c == '_' || ('a' <= c && c <= 'z') || ('0' <= c && c <= '9') || c == '-' {
            r.push(c);
        }
        i = i + 1;
    }
    proof {
        assert(v@.take(v@.len() as int) =~= v@);
    }
    r
}

/// The slug of a title: ASCII capitals made small, `&` spelled `and`, each run of whitespace
/// and each `.` made a `-`, and every character that is not `_`, `a`-`z`, `0`-`9` or `-`
/// dropped.
pub fn slug(title: &String) -> (s: String)
    ensures
        s@ == spec_slug(title@),
{
    let v = chars_of(title.as_str());
    let v = lower_all(&v);
    let v = spell_ampersands(&v);
    let v = dash_spaces(&v);
    let v = keep_slug_chars(&v);
    string_of(&v)
}

proof fn lemma_kept_chars_are_slug_chars(s: Seq<char>)
    ensures
        forall|i: int| 0 <= i < slug_chars_kept(s).len() ==> is_slug_char(
            #[trigger] slug_chars_kept(s)[i],
        ),
    decreases s.len(),
{
    if s.len() > 0 {
        lemma_kept_chars_are_slug_chars(s.drop_last());
        let k = slug_chars_kept(s.drop_last());
        if is_slug_char(s.last()) {
            assert forall|i: int| 0 <= i < slug_chars_kept(s).len() implies is_slug_char(
                #[trigger] slug_chars_kept(s)[i],
            ) by {
                if i < k.len() {
                    assert(slug_chars_kept(s)[i] == k[i]);
                }
            }
        }
    }
}

/// A slug holds nothing but `_`, `a`-`z`, `0`-`9` and `-`.
pub proof fn law_slug_has_only_slug_chars(title: Seq<char>)
    ensures
        forall|i: int| 0 <= i < spec_slug(title).len() ==> is_slug_char(
            #[trigger] spec_slug(title)[i],
        ),
{
    lemma_kept_chars_are_slug_chars(spaces_dashed(ampersands_spelled(lowered(title))));
}

/// `c` is `_`, a small ASCII letter, an ASCII digit or `-`.
spec fn plain_slug_char(c: char) -> bool {
    ||| 'a' <= c && c <= 'z'
    ||| '0' <= c && c <= '9'
    ||| c == '_'
    ||| c == '-'
}

proof fn lemma_slug_steps_keep_plain_text(s: Seq<char>)
    requires
        forall|i: int| 0 <= i < s.len() ==> plain_slug_char(#[trigger] s[i]),
    ensures
        lowered(s) == s,
        ampersands_spelled(s) == s,
        spaces_dashed(s) == s,
        slug_chars_kept(s) == s,
    decreases s.len(),
{
    if s.len() > 0 {
        let t = s.drop_last();
        assert forall|i: int| 0 <= i < t.len() implies plain_slug_char(#[trigger] t[i]) by {
            assert(t[i] == s[i]);
        }
        lemma_slug_steps_keep_plain_text(t);
        assert(plain_slug_char(s[s.len() - 1]));
        assert(t.push(s.last()) =~= s);
    }
}

/// A title made only of `_`, small ASCII letters, ASCII digits and `-` is its own slug:
/// every such character is kept, in order, and nothing is added.
pub proof fn law_slug_keeps_slug_text(title: Seq<char>)
    requires
        forall|i: int|
            0 <= i < title.len() ==> {
                let c = #[trigger] title[i];
                ||| 'a' <= c && c <= 'z'
                ||| '0' <= c && c <= '9'
                ||| c == '_'
                ||| c == '-'
            },
    ensures
        spec_slug(title) == title,
{
    assert forall|i: int| 0 <= i < title.len() implies plain_slug_char(#[trigger] title[i]) by {}
    lemma_slug_steps_keep_plain_text(title);
}

} // verus!
