use vstd::prelude::*;

verus! {

// ---------------------------------------------------------------------------
// Character classes
// ---------------------------------------------------------------------------

/// Unicode `White_Space` code points: the set matched by `\s` and by `char::is_whitespace`.
pub open spec fn is_ws(c: char) -> bool {
    ||| ('\u{9}' <= c && c <= '\u{d}')
    ||| c == ' '
    ||| c == '\u{85}'
    ||| c == '\u{a0}'
    ||| c == '\u{1680}'
    ||| ('\u{2000}' <= c && c <= '\u{200a}')
    ||| c == '\u{2028}'
    ||| c == '\u{2029}'
    ||| c == '\u{202f}'
    ||| c == '\u{205f}'
    ||| c == '\u{3000}'
}

/// `a` through `z`.
pub open spec fn is_lower(c: char) -> bool {
    'a' <= c && c <= 'z'
}

pub fn is_whitespace(c: char) -> (b: bool)
    ensures
        b == is_ws(c),
{
    ('\u{9}' <= c && c <= '\u{d}') || c == ' ' || c == '\u{85}' || c == '\u{a0}' || c == '\u{1680}'
        || ('\u{2000}' <= c && c <= '\u{200a}') || c == '\u{2028}' || c == '\u{2029}' || c
        == '\u{202f}' || c == '\u{205f}' || c == '\u{3000}'
}

// ---------------------------------------------------------------------------
// Runs of characters at the ends of a sequence
// ---------------------------------------------------------------------------

/// Length of the longest prefix of `s` made of whitespace.
pub open spec fn ws_run(s: Seq<char>) -> nat
    decreases s.len(),
{
    if s.len() > 0 && is_ws(s[0]) {
        1 + ws_run(s.drop_first())
    } else {
        0
    }
}

/// Length of the longest suffix of `s` made of whitespace.
pub open spec fn ws_run_back(s: Seq<char>) -> nat
    decreases s.len(),
{
    if s.len() > 0 && is_ws(s.last()) {
        1 + ws_run_back(s.drop_last())
    } else {
        0
    }
}

/// Length of the longest prefix of `s` made of `a`-`z`.
pub open spec fn lower_run(s: Seq<char>) -> nat
    decreases s.len(),
{
    if s.len() > 0 && is_lower(s[0]) {
        1 + lower_run(s.drop_first())
    } else {
        0
    }
}

pub proof fn lemma_ws_run_unique(s: Seq<char>, n: int)
    requires
        0 <= n <= s.len(),
        forall|j: int| 0 <= j < n ==> is_ws(#[trigger] s[j]),
        n < s.len() ==> !is_ws(s[n]),
    ensures
        ws_run(s) == n,
    decreases s.len(),
{
    if n > 0 {
        assert(is_ws(s[0]));
        assert forall|j: int| 0 <= j < n - 1 implies is_ws(#[trigger] s.drop_first()[j]) by {
            assert(s.drop_first()[j] == s[j + 1]);
        }
        lemma_ws_run_unique(s.drop_first(), n - 1);
    }
}

pub proof fn lemma_ws_run_back_unique(s: Seq<char>, n: int)
    requires
        0 <= n <= s.len(),
        forall|j: int| s.len() - n <= j < s.len() ==> is_ws(#[trigger] s[j]),
        n < s.len() ==> !is_ws(s[s.len() - n - 1]),
    ensures
        ws_run_back(s) == n,
    decreases s.len(),
{
    if n > 0 {
        assert(is_ws(s[s.len() - 1]));
        assert forall|j: int| s.len() - 1 - (n - 1) <= j < s.len() - 1 implies is_ws(
            #[trigger] s.drop_last()[j],
        ) by {
            assert(s.drop_last()[j] == s[j]);
        }
        lemma_ws_run_back_unique(s.drop_last(), n - 1);
    }
}

pub proof fn lemma_lower_run_unique(s: Seq<char>, n: int)
    requires
        0 <= n <= s.len(),
        forall|j: int| 0 <= j < n ==> is_lower(#[trigger] s[j]),
        n < s.len() ==> !is_lower(s[n]),
    ensures
        lower_run(s) == n,
    decreases s.len(),
{
    if n > 0 {
        assert(is_lower(s[0]));
        assert forall|j: int| 0 <= j < n - 1 implies is_lower(#[trigger] s.drop_first()[j]) by {
            assert(s.drop_first()[j] == s[j + 1]);
        }
        lemma_lower_run_unique(s.drop_first(), n - 1);
    }
}

/// Number of leading whitespace characters of `v` from position `from` on.
pub fn ws_run_from(v: &Vec<char>, from: usize) -> (n: usize)
    requires
        from <= v@.len(),
    ensures
        n == ws_run(v@.skip(from as int)),
        from + n <= v@.len(),
{
    let mut i = from;
    while i < v.len() && is_whitespace(v[i])
        invariant
            from <= i <= v@.len(),
            forall|j: int| from <= j < i ==> is_ws(#[trigger] v@[j]),
        decreases v@.len() - i,
    {
        i = i + 1;
    }
    proof {
        let t = v@.skip(from as int);
        assert forall|j: int| 0 <= j < i - from implies is_ws(#[trigger] t[j]) by {
            assert(t[j] == v@[from + j]);
        }
        lemma_ws_run_unique(t, i - from);
    }
    i - from
}

/// Number of leading `a`-`z` characters of `v` from position `from` on.
pub fn lower_run_from(v: &Vec<char>, from: usize) -> (n: usize)
    requires
        from <= v@.len(),
    ensures
        n == lower_run(v@.skip(from as int)),
        from + n <= v@.len(),
{
    let mut i = from;
    while i < v.len() && 'a' <= v[i] && v[i] <= 'z'
        invariant
            from <= i <= v@.len(),
            forall|j: int| from <= j < i ==> is_lower(#[trigger] v@[j]),
        decreases v@.len() - i,
    {
        i = i + 1;
    }
    proof {
        let t = v@.skip(from as int);
        assert forall|j: int| 0 <= j < i - from implies is_lower(#[trigger] t[j]) by {
            assert(t[j] == v@[from + j]);
        }
        lemma_lower_run_unique(t, i - from);
    }
    i - from
}

// ---------------------------------------------------------------------------
// Trimming
// ---------------------------------------------------------------------------

/// `s` without its leading and trailing whitespace (what `str::trim` keeps).
pub open spec fn trimmed(s: Seq<char>) -> Seq<char> {
    let t = s.skip(ws_run(s) as int);
    t.take(t.len() - ws_run_back(t))
}

/// `str::trim`: the characters of `v` without leading and trailing whitespace.
pub fn trim(v: &Vec<char>) -> (r: Vec<char>)
    ensures
        r@ == trimmed(v@),
{
    let a = ws_run_from(v, 0);
    let mut e = v.len();
    while e > a && is_whitespace(v[e - 1])
        invariant
            a <= e <= v@.len(),
            forall|j: int| e <= j < v@.len() ==> is_ws(#[trigger] v@[j]),
        decreases e,
    {
        e = e - 1;
    }
    proof {
        assert(v@.skip(0) =~= v@);
        let t = v@.skip(a as int);
        assert forall|j: int| t.len() - (v@.len() - e) <= j < t.len() implies is_ws(
            #[trigger] t[j],
        ) by {
            assert(t[j] == v@[a + j]);
        }
        if v@.len() - e < t.len() {
            assert(t[t.len() - (v@.len() - e) - 1] == v@[e - 1]);
        }
        lemma_ws_run_back_unique(t, v@.len() - e);
    }
    let r = slice_chars(v, a, e);
    proof {
        let t = v@.skip(a as int);
        assert(r@ =~= t.take(t.len() - ws_run_back(t)));
    }
    r
}

// ---------------------------------------------------------------------------
// Building character vectors and strings
// ---------------------------------------------------------------------------

/// The characters of a string, in order.
pub fn chars_of(s: &str) -> (v: Vec<char>)
    ensures
        v@ == s@,
{
    let mut v: Vec<char> = Vec::new();
    for c in it: s.chars()
        invariant
            v@ == it.seq().take(it.index() as int),
    {
        v.push(c);
    }
    v
}

/// The characters of `v` from `lo` up to `hi`.
pub fn slice_chars(v: &Vec<char>, lo: usize, hi: usize) -> (r: Vec<char>)
    requires
        lo <= hi <= v@.len(),
    ensures
        r@ == v@.subrange(lo as int, hi as int),
{
    let mut r: Vec<char> = Vec::new();
    let mut i = lo;
    while i < hi
        invariant
            lo <= i <= hi <= v@.len(),
            r@ == v@.subrange(lo as int, i as int),
        decreases hi - i,
    {
        r.push(v[i]);
        proof {
            assert(v@.subrange(lo as int, i + 1) =~= v@.subrange(lo as int, i as int).push(v@[i as int]));
        }
        i = i + 1;
    }
    r
}

/// Appends the characters of `src` to `dst`.
pub fn extend_chars(dst: &mut Vec<char>, src: &Vec<char>)
    ensures
        final(dst)@ == old(dst)@ + src@,
{
    let mut i: usize = 0;
    while i < src.len()
        invariant
            i <= src@.len(),
            dst@ == old(dst)@ + src@.take(i as int),
        decreases src@.len() - i,
    {
        dst.push(src[i]);
        proof {
            assert(src@.take(i + 1) =~= src@.take(i as int).push(src@[i as int]));
        }
        i = i + 1;
    }
    proof {
        assert(src@.take(src@.len() as int) =~= src@);
    }
}

/// Appends the characters of a string to `dst`.
pub fn extend_str(dst: &mut Vec<char>, s: &str)
    ensures
        final(dst)@ == old(dst)@ + s@,
{
    let v = chars_of(s);
    extend_chars(dst, &v);
}

/// `String::push`: appends one character to the string.
#[verifier::external_body]
pub(crate) fn push_char(s: &mut String, c: char)
    ensures
        final(s)@ == old(s)@.push(c),
{
    s.push(c);
}

/// The string made of the characters of `v`.
pub fn string_of(v: &Vec<char>) -> (s: String)
    ensures
        s@ == v@,
{
    let mut s = String::new();
    let mut i: usize = 0;
    while i < v.len()
        invariant
            i <= v@.len(),
            s@ == v@.take(i as int),
        decreases v@.len() - i,
    {
        push_char(&mut s, v[i]);
        proof {
            assert(v@.take(i + 1) =~= v@.take(i as int).push(v@[i as int]));
        }
        i = i + 1;
    }
    proof {
        assert(v@.take(v@.len() as int) =~= v@);
    }
    s
}

// ---------------------------------------------------------------------------
// Substrings
// ---------------------------------------------------------------------------

/// `pat` occurs in `s` starting at position `i`.
pub open spec fn occurs_at(s: Seq<char>, pat: Seq<char>, i: int) -> bool {
    0 <= i && i + pat.len() <= s.len() && s.subrange(i, i + pat.len()) == pat
}

/// `pat` occurs somewhere in `s` (what `str::contains` answers).
pub open spec fn has_substring(s: Seq<char>, pat: Seq<char>) -> bool {
    exists|i: int| #[trigger] occurs_at(s, pat, i)
}

/// Whether `pat` occurs in `v` at position `i`.
pub fn occurs_at_exec(v: &Vec<char>, pat: &Vec<char>, i: usize) -> (b: bool)
    ensures
        b == occurs_at(v@, pat@, i as int),
{
    if i > v.len() || pat.len() > v.len() - i {
        return false;
    }
    let mut k: usize = 0;
    while k < pat.len()
        invariant
            i + pat@.len() <= v.len(),
            k <= pat@.len(),
            forall|j: int| 0 <= j < k ==> v@[i + j] == pat@[j],
        decreases pat@.len() - k,
    {
        if v[i + k] != pat[k] {
            proof {
                assert(v@.subrange(i as int, i + pat@.len())[k as int] != pat@[k as int]);
            }
            return false;
        }
        k = k + 1;
    }
    proof {
        assert(v@.subrange(i as int, i + pat@.len()) =~= pat@);
    }
    true
}

/// `str::contains`: whether `pat` occurs in `v`.
pub fn contains(v: &Vec<char>, pat: &Vec<char>) -> (b: bool)
    ensures
        b == has_substring(v@, pat@),
{
    let mut i: usize = 0;
    while i < v.len()
        invariant
            i <= v@.len(),
            forall|j: int| 0 <= j < i ==> !#[trigger] occurs_at(v@, pat@, j),
        decreases v@.len() - i,
    {
        if occurs_at_exec(v, pat, i) {
            return true;
        }
        i = i + 1;
    }
    if occurs_at_exec(v, pat, i) {
        return true;
    }
    proof {
        assert forall|j: int| !#[trigger] occurs_at(v@, pat@, j) by {
            if j > v@.len() {
                assert(!(j + pat@.len() <= v@.len()));
            }
        }
    }
    false
}

/// `s` with every occurrence of `pat` removed, occurrences taken left to right without
/// overlap (what `str::replace(s, pat, "")` gives for a non-empty `pat`).
pub open spec fn without(s: Seq<char>, pat: Seq<char>) -> Seq<char>
    decreases s.len(),
{
    if pat.len() == 0 || s.len() < pat.len() {
        s
    } else if s.take(pat.len() as int) == pat {
        without(s.skip(pat.len() as int), pat)
    } else {
        seq![s[0]] + without(s.drop_first(), pat)
    }
}

/// Removes every occurrence of `pat` from `v`, left to right.
pub fn remove_all(v: &Vec<char>, pat: &Vec<char>) -> (r: Vec<char>)
    requires
        pat@.len() > 0,
    ensures
        r@ == without(v@, pat@),
{
    let mut r: Vec<char> = Vec::new();
    let mut i: usize = 0;
    let n = pat.len();
    proof {
        assert(v@.skip(0) =~= v@);
    }
    while i < v.len()
        invariant
            i <= v@.len(),
            n == pat@.len() > 0,
            without(v@, pat@) == r@ + without(v@.skip(i as int), pat@),
        decreases v@.len() - i,
    {
        let t = Ghost(v@.skip(i as int));
        if occurs_at_exec(v, pat, i) {
            proof {
                assert(t@.take(n as int) =~= v@.subrange(i as int, i + n));
                assert(t@.skip(n as int) =~= v@.skip(i + n));
            }
            i = i + n;
        } else {
            proof {
                if t@.len() >= n {
                    assert(t@.take(n as int) =~= v@.subrange(i as int, i + n));
                } else {
                    assert(without(t@.drop_first(), pat@) == t@.drop_first());
                    assert(t@ =~= seq![t@[0]] + t@.drop_first());
                }
                assert(t@.drop_first() =~= v@.skip(i + 1));
                assert(r@.push(v@[i as int]) =~= r@ + seq![t@[0]]);
            }
            r.push(v[i]);
            i = i + 1;
        }
    }
    proof {
        assert(v@.skip(i as int).len() == 0);
        assert(r@ + v@.skip(i as int) =~= r@);
    }
    r
}

// ---------------------------------------------------------------------------
// Decimal numbers
// ---------------------------------------------------------------------------

/// The decimal digit for `d` in `0..10`.
pub open spec fn digit_char(d: int) -> char {
    if d == 0 {
        '0'
    } else if d == 1 {
        '1'
    } else if d == 2 {
        '2'
    } else if d == 3 {
        '3'
    } else if d == 4 {
        '4'
    } else if d == 5 {
        '5'
    } else if d == 6 {
        '6'
    } else if d == 7 {
        '7'
    } else if d == 8 {
        '8'
    } else {
        '9'
    }
}

/// The decimal representation of `n`, without leading zeros.
pub open spec fn decimal(n: nat) -> Seq<char>
    decreases n,
{
    if n < 10 {
        seq![digit_char(n as int)]
    } else {
        decimal(n / 10).push(digit_char((n % 10) as int))
    }
}

/// The decimal representation of `n`, with a leading `-` when it is negative.
pub open spec fn signed_decimal(n: int) -> Seq<char> {
    if n < 0 {
        seq!['-'] + decimal((-n) as nat)
    } else {
        decimal(n as nat)
    }
}

/// `n` written with at least `width` digits, zeros on the left.
pub open spec fn zero_padded(n: nat, width: nat) -> Seq<char> {
    let d = decimal(n);
    if d.len() < width {
        Seq::new((width - d.len()) as nat, |i: int| '0') + d
    } else {
        d
    }
}

pub fn digit(d: u64) -> (c: char)
    requires
        d < 10,
    ensures
        c == digit_char(d as int),
{
    if d == 0 {
        '0'
    } else if d == 1 {
        '1'
    } else if d == 2 {
        '2'
    } else if d == 3 {
        '3'
    } else if d == 4 {
        '4'
    } else if d == 5 {
        '5'
    } else if d == 6 {
        '6'
    } else if d == 7 {
        '7'
    } else if d == 8 {
        '8'
    } else {
        '9'
    }
}

/// `n.to_string()` for an unsigned integer.
pub fn decimal_chars(n: u64) -> (v: Vec<char>)
    ensures
        v@ == decimal(n as nat),
    decreases n,
{
    if n < 10 {
        let mut v: Vec<char> = Vec::new();
        v.push(digit(n));
        proof {
            assert(v@ =~= seq![digit_char(n as int)]);
        }
        v
    } else {
        let mut v = decimal_chars(n / 10);
        v.push(digit(n % 10));
        v
    }
}

/// `n.to_string()` for a signed integer.
pub fn signed_decimal_chars(n: i64) -> (v: Vec<char>)
    ensures
        v@ == signed_decimal(n as int),
{
    if n < 0 {
        let m: u64 = if n == i64::MIN {
            9223372036854775808u64
        } else {
            (-n) as u64
        };
        let mut v: Vec<char> = Vec::new();
        v.push('-');
        let d = decimal_chars(m);
        extend_chars(&mut v, &d);
        proof {
            assert(v@ =~= seq!['-'] + decimal((-n) as nat));
        }
        v
    } else {
        decimal_chars(n as u64)
    }
}

/// `n` with at least `width` digits, zeros on the left (`format!("{:0width$}", n)`).
pub fn zero_padded_chars(n: u64, width: usize) -> (v: Vec<char>)
    ensures
        v@ == zero_padded(n as nat, width as nat),
{
    let d = decimal_chars(n);
    if d.len() < width {
        let mut v: Vec<char> = Vec::new();
        let k = width - d.len();
        let mut i: usize = 0;
        while i < k
            invariant
                i <= k,
                v@ == Seq::new(i as nat, |j: int| '0'),
            decreases k - i,
        {
            v.push('0');
            proof {
                assert(v@ =~= Seq::new((i + 1) as nat, |j: int| '0'));
            }
            i = i + 1;
        }
        extend_chars(&mut v, &d);
        v
    } else {
        d
    }
}

/// Whether two character vectors hold the same characters.
pub fn chars_equal(a: &Vec<char>, b: &Vec<char>) -> (r: bool)
    ensures
        r == (a@ == b@),
{
    if a.len() != b.len() {
        return false;
    }
    let mut i: usize = 0;
    while i < a.len()
        invariant
            a@.len() == b@.len(),
            i <= a@.len(),
            forall|j: int| 0 <= j < i ==> a@[j] == b@[j],
        decreases a@.len() - i,
    {
        if a[i] != b[i] {
            return false;
        }
        i = i + 1;
    }
    proof {
        assert(a@ =~= b@);
    }
    true
}

} // verus!
