use vstd::prelude::*;

use crate::text::{self, chars_of, lower_run_from, slice_chars, string_of, trim, ws_run_from};

verus! {

// ---------------------------------------------------------------------------
// One header line
// ---------------------------------------------------------------------------

/// Length of the longest prefix of `s` without the character `c`.
pub open spec fn run_without(s: Seq<char>, c: char) -> nat
    decreases s.len(),
{
    if s.len() > 0 && s[0] != c {
        1 + run_without(s.drop_first(), c)
    } else {
        0
    }
}

pub proof fn lemma_run_without(s: Seq<char>, c: char)
    ensures
        run_without(s, c) <= s.len(),
        forall|j: int| 0 <= j < run_without(s, c) ==> #[trigger] s[j] != c,
        run_without(s, c) < s.len() ==> s[run_without(s, c) as int] == c,
    decreases s.len(),
{
    if s.len() > 0 && s[0] != c {
        lemma_run_without(s.drop_first(), c);
        assert forall|j: int| 0 <= j < run_without(s, c) implies #[trigger] s[j] != c by {
            if j > 0 {
                assert(s[j] == s.drop_first()[j - 1]);
            }
        }
    }
}

pub proof fn lemma_run_without_unique(s: Seq<char>, c: char, n: int)
    requires
        0 <= n <= s.len(),
        forall|j: int| 0 <= j < n ==> #[trigger] s[j] != c,
        n < s.len() ==> s[n] == c,
    ensures
        run_without(s, c) == n,
    decreases s.len(),
{
    if n > 0 {
        assert(s[0] != c);
        assert forall|j: int| 0 <= j < n - 1 implies #[trigger] s.drop_first()[j] != c by {
            assert(s.drop_first()[j] == s[j + 1]);
        }
        lemma_run_without_unique(s.drop_first(), c, n - 1);
    }
}

/// Number of characters of `v` from `from` on before the first `c` (or the end).
fn run_without_from(v: &Vec<char>, from: usize, c: char) -> (n: usize)
    requires
        from <= v@.len(),
    ensures
        n == run_without(v@.skip(from as int), c),
        from + n <= v@.len(),
{
    let mut i = from;
    while i < v.len() && v[i] != c
        invariant
            from <= i <= v@.len(),
            forall|j: int| from <= j < i ==> #[trigger] v@[j] != c,
        decreases v@.len() - i,
    {
        i = i + 1;
    }
    proof {
        let t = v@.skip(from as int);
        assert forall|j: int| 0 <= j < i - from implies #[trigger] t[j] != c by {
            assert(t[j] == v@[from + j]);
        }
        lemma_run_without_unique(t, c, i - from);
    }
    i - from
}

/// The key and value a header line sets, or `None` for a line that sets none.
///
/// A header line is a key of letters `a`-`z`, a colon, whitespace, and the value: either the
/// text between the first two double quotes that follow, or, when there are not two of them,
/// all the rest of the line, which must then hold no line feed.
pub open spec fn parse_header(line: Seq<char>) -> Option<(Seq<char>, Seq<char>)> {
    let n = text::lower_run(line);
    if n == 0 || n >= line.len() || line[n as int] != ':' {
        None
    } else {
        let rest = line.skip(n + 1 as int);
        let w = text::ws_run(rest);
        if w == 0 {
            None
        } else {
            let key = line.take(n as int);
            let after = rest.skip(w as int);
            let inner = after.drop_first();
            if after.len() > 0 && after[0] == '"' && run_without(inner, '"') < inner.len() {
                Some((key, inner.take(run_without(inner, '"') as int)))
            } else if run_without(after, '\n') == after.len() {
                Some((key, after))
            } else {
                None
            }
        }
    }
}

/// The key and value that a header line sets, if it sets one.
pub fn parse_header_line(line: &String) -> (r: Option<(String, String)>)
    ensures
        match r {
            Some((k, v)) => parse_header(line@) == Some((k@, v@)),
            None => parse_header(line@) is None,
        },
{
    let v = chars_of(line.as_str());
    let n = lower_run_from(&v, 0);
    proof {
        assert(v@.skip(0) =~= v@);
    }
    if n == 0 || n >= v.len() || v[n] != ':' {
        return None;
    }
    let w = ws_run_from(&v, n + 1);
    if w == 0 {
        return None;
    }
    let key = string_of(&slice_chars(&v, 0, n));
    let start = n + 1 + w;
    let ghost rest = v@.skip(n + 1);
    let ghost after = rest.skip(w as int);
    proof {
        assert(after =~= v@.skip(start as int));
        assert(v@.take(n as int) =~= v@.subrange(0, n as int));
    }
    if start < v.len() && v[start] == '"' {
        let q = run_without_from(&v, start + 1, '"');
        proof {
            assert(after.drop_first() =~= v@.skip(start + 1));
        }
        if start + 1 + q < v.len() {
            let value = string_of(&slice_chars(&v, start + 1, start + 1 + q));
            proof {
                assert(after.drop_first().take(q as int) =~= v@.subrange(
                    start + 1,
                    start + 1 + q,
                ));
            }
            return Some((key, value));
        }
    }
    let e = run_without_from(&v, start, '\n');
    if start + e == v.len() {
        let value = string_of(&slice_chars(&v, start, v.len()));
        proof {
            assert(after =~= v@.subrange(start as int, v@.len() as int));
        }
        Some((key, value))
    } else {
        None
    }
}

// ---------------------------------------------------------------------------
// The header block of a post
// ---------------------------------------------------------------------------

/// A line of the header block: blank, or starting with a key of letters `a`-`z` and a colon.
pub open spec fn is_header_line(line: Seq<char>) -> bool {
    let n = text::lower_run(line);
    ||| text::trimmed(line).len() == 0
    ||| (n > 0 && n < line.len() && line[n as int] == ':')
}

/// Whether `line` belongs to the header block.
pub fn is_header(line: &String) -> (b: bool)
    ensures
        b == is_header_line(line@),
{
    let v = chars_of(line.as_str());
    let t = trim(&v);
    if t.len() == 0 {
        return true;
    }
    let n = lower_run_from(&v, 0);
    proof {
        assert(v@.skip(0) =~= v@);
    }
    n > 0 && n < v.len() && v[n] == ':'
}

/// Number of lines at the start of `lines` that are header lines.
pub open spec fn header_count(lines: Seq<String>) -> nat
    decreases lines.len(),
{
    if lines.len() > 0 && is_header_line(lines[0]@) {
        1 + header_count(lines.drop_first())
    } else {
        0
    }
}

pub proof fn lemma_header_count(lines: Seq<String>)
    ensures
        header_count(lines) <= lines.len(),
        forall|j: int| 0 <= j < header_count(lines) ==> is_header_line(#[trigger] lines[j]@),
        header_count(lines) < lines.len() ==> !is_header_line(lines[header_count(lines) as int]@),
    decreases lines.len(),
{
    if lines.len() > 0 && is_header_line(lines[0]@) {
        lemma_header_count(lines.drop_first());
        assert forall|j: int| 0 <= j < header_count(lines) implies is_header_line(
            #[trigger] lines[j]@,
        ) by {
            if j > 0 {
                assert(lines[j] == lines.drop_first()[j - 1]);
            }
        }
    }
}

proof fn lemma_header_count_unique(lines: Seq<String>, n: int)
    requires
        0 <= n <= lines.len(),
        forall|j: int| 0 <= j < n ==> is_header_line(#[trigger] lines[j]@),
        n < lines.len() ==> !is_header_line(lines[n]@),
    ensures
        header_count(lines) == n,
    decreases lines.len(),
{
    if n > 0 {
        assert(is_header_line(lines[0]@));
        assert forall|j: int| 0 <= j < n - 1 implies is_header_line(
            #[trigger] lines.drop_first()[j]@,
        ) by {
            assert(lines.drop_first()[j] == lines[j + 1]);
        }
        lemma_header_count_unique(lines.drop_first(), n - 1);
    }
}

/// Number of header lines at the start of `lines`.
fn count_header_lines(lines: &Vec<String>) -> (n: usize)
    ensures
        n == header_count(lines@),
{
    let mut i: usize = 0;
    while i < lines.len() && is_header(&lines[i])
        invariant
            i <= lines@.len(),
            forall|j: int| 0 <= j < i ==> is_header_line(#[trigger] lines@[j]@),
        decreases lines@.len() - i,
    {
        i = i + 1;
    }
    proof {
        lemma_header_count_unique(lines@, i as int);
    }
    i
}

/// Copies of the lines `lines[lo..hi]`.
fn copy_lines(lines: &Vec<String>, lo: usize, hi: usize) -> (r: Vec<String>)
    requires
        lo <= hi <= lines@.len(),
    ensures
        r@ == lines@.subrange(lo as int, hi as int),
{
    let mut r: Vec<String> = Vec::new();
    let mut i = lo;
    while i < hi
        invariant
            lo <= i <= hi <= lines@.len(),
            r@ == lines@.subrange(lo as int, i as int),
        decreases hi - i,
    {
        r.push(lines[i].clone());
        proof {
            assert(lines@.subrange(lo as int, i + 1) =~= lines@.subrange(lo as int, i as int).push(
                lines@[i as int],
            ));
        }
        i = i + 1;
    }
    r
}

/// The header block: the lines up to the first line that is not a header line.
pub fn header_lines(lines: &Vec<String>) -> (r: Vec<String>)
    ensures
        r@ == lines@.take(header_count(lines@) as int),
{
    let n = count_header_lines(lines);
    proof {
        lemma_header_count(lines@);
    }
    copy_lines(lines, 0, n)
}

/// The body: the lines from the first line that is not a header line on.
pub fn other_lines(lines: &Vec<String>) -> (r: Vec<String>)
    ensures
        r@ == lines@.skip(header_count(lines@) as int),
{
    let n = count_header_lines(lines);
    proof {
        lemma_header_count(lines@);
    }
    copy_lines(lines, n, lines.len())
}

/// Every post splits into its header block followed by its body.
pub proof fn law_header_and_body_split_the_lines(lines: Seq<String>)
    ensures
        lines.take(header_count(lines) as int) + lines.skip(header_count(lines) as int) =~= lines,
{
    lemma_header_count(lines);
}

// ---------------------------------------------------------------------------
// The headers of a post
// ---------------------------------------------------------------------------

/// The map that inserting the pairs of `s` in order builds: a later key replaces an earlier one.
pub open spec fn pairs_map(s: Seq<(String, String)>) -> Map<Seq<char>, Seq<char>>
    decreases s.len(),
{
    if s.len() == 0 {
        Map::empty()
    } else {
        pairs_map(s.drop_last()).insert(s.last().0@, s.last().1@)
    }
}

/// The headers that the lines set, a later line overriding an earlier one with the same key.
pub open spec fn headers_of(lines: Seq<String>) -> Map<Seq<char>, Seq<char>>
    decreases lines.len(),
{
    if lines.len() == 0 {
        Map::empty()
    } else {
        match parse_header(lines.last()@) {
            Some((k, v)) => headers_of(lines.drop_last()).insert(k, v),
            None => headers_of(lines.drop_last()),
        }
    }
}

/// The headers of a post, looked up by key.
#[derive(Debug, Clone)]
pub struct Headers {
    entries: Vec<(String, String)>,
}

impl View for Headers {
    type V = Map<Seq<char>, Seq<char>>;

    closed spec fn view(&self) -> Map<Seq<char>, Seq<char>> {
        pairs_map(self.entries@)
    }
}

proof fn lemma_pairs_map_tail(s: Seq<(String, String)>, m: int, k: Seq<char>)
    requires
        0 <= m <= s.len(),
        forall|j: int| m <= j < s.len() ==> (#[trigger] s[j]).0@ != k,
    ensures
        pairs_map(s).contains_key(k) == pairs_map(s.take(m)).contains_key(k),
        pairs_map(s).contains_key(k) ==> pairs_map(s)[k] == pairs_map(s.take(m))[k],
    decreases s.len(),
{
    if s.len() > m {
        assert(s.drop_last().take(m) =~= s.take(m));
        assert forall|j: int| m <= j < s.drop_last().len() implies (
        #[trigger] s.drop_last()[j]).0@ != k by {
            assert(s.drop_last()[j] == s[j]);
        }
        lemma_pairs_map_tail(s.drop_last(), m, k);
        assert(s.last() == s[s.len() - 1]);
    } else {
        assert(s.take(m) =~= s);
    }
}

impl Headers {
    /// No headers.
    pub fn new() -> (h: Headers)
        ensures
            h@ == Map::<Seq<char>, Seq<char>>::empty(),
    {
        Headers { entries: Vec::new() }
    }

    /// Sets `key` to `value`, replacing any earlier value.
    pub fn insert(&mut self, key: String, value: String)
        ensures
            final(self)@ == old(self)@.insert(key@, value@),
    {
        let ghost old_entries = self.entries@;
        self.entries.push((key, value));
        proof {
            assert(self.entries@.drop_last() =~= old_entries);
        }
    }

    /// The value of `key`, if it is set.
    pub fn get(&self, key: &str) -> (r: Option<&String>)
        ensures
            match r {
                Some(v) => self@.contains_key(key@) && self@[key@] == v@,
                None => !self@.contains_key(key@),
            },
    {
        let k = key.to_owned();
        let mut i = self.entries.len();
        while i > 0
            invariant
                i <= self.entries@.len(),
                k@ == key@,
                forall|j: int| i <= j < self.entries@.len() ==> (
                #[trigger] self.entries@[j]).0@ != key@,
            decreases i,
        {
            if self.entries[i - 1].0 == k {
                proof {
                    let s = self.entries@;
                    lemma_pairs_map_tail(s, i as int, key@);
                    assert(s.take(i as int).drop_last() =~= s.take(i - 1));
                    assert(s.take(i as int).last() == s[i - 1]);
                }
                return Some(&self.entries[i - 1].1);
            }
            i = i - 1;
        }
        proof {
            lemma_pairs_map_tail(self.entries@, 0, key@);
            assert(self.entries@.take(0) =~= Seq::<(String, String)>::empty());
        }
        None
    }

    /// Whether `key` is set.
    pub fn contains_key(&self, key: &str) -> (b: bool)
        ensures
            b == self@.contains_key(key@),
    {
        self.get(key).is_some()
    }
}

/// The headers that the header lines set.
pub fn header_map(header_lines: &Vec<String>) -> (h: Headers)
    ensures
        h@ == headers_of(header_lines@),
{
    let mut h = Headers::new();
    let mut i: usize = 0;
    while i < header_lines.len()
        invariant
            i <= header_lines@.len(),
            h@ == headers_of(header_lines@.take(i as int)),
        decreases header_lines@.len() - i,
    {
        proof {
            assert(header_lines@.take(i + 1).drop_last() =~= header_lines@.take(i as int));
            assert(header_lines@.take(i + 1).last() == header_lines@[i as int]);
        }
        match parse_header_line(&header_lines[i]) {
            Some((k, v)) => {
                h.insert(k, v);
            },
            None => {},
        }
        i = i + 1;
    }
    proof {
        assert(header_lines@.take(header_lines@.len() as int) =~= header_lines@);
    }
    h
}

} // verus!
