//! Character-level text operations with exact specifications over `Seq<char>`.
use vstd::prelude::*;

verus! {

/// `String::push`: appends one character.
#[verifier::external_body]
pub(crate) fn push_char(s: &mut String, c: char)
    ensures
        final(s)@ == old(s)@.push(c),
{
    s.push(c);
}

/// The characters of `s`, in order.
pub fn chars_of(s: &str) -> (v: Vec<char>)
    ensures
        v@ == s@,
{
    let mut v: Vec<char> = Vec::new();
    for c in it: s.chars()
        invariant
            v@ == it.seq().take(it.index()),
    {
        v.push(c);
    }
    v
}

/// Appends the characters `v[from..to]` to `out`.
pub fn push_chars(out: &mut String, v: &Vec<char>, from: usize, to: usize)
    requires
        from <= to <= v.len(),
    ensures
        final(out)@ == old(out)@ + v@.subrange(from as int, to as int),
{
    let mut i = from;
    while i < to
        invariant
            from <= i <= to <= v.len(),
            out@ == old(out)@ + v@.subrange(from as int, i as int),
        decreases to - i,
    {
        push_char(out, v[i]);
        assert(v@.subrange(from as int, i + 1) == v@.subrange(from as int, i as int).push(v@[i as int]));
        i += 1;
    }
}

/// A string holding the characters `v[from..to]`.
pub fn string_of(v: &Vec<char>, from: usize, to: usize) -> (s: String)
    requires
        from <= to <= v.len(),
    ensures
        s@ == v@.subrange(from as int, to as int),
{
    let mut s = String::new();
    push_chars(&mut s, v, from, to);
    s
}

/// The predicate "is not `c`".
pub open spec fn is_not(c: char) -> spec_fn(char) -> bool {
    |x: char| x != c
}

/// `s` with every occurrence of `c` removed.
pub open spec fn without_char(s: Seq<char>, c: char) -> Seq<char> {
    s.filter(is_not(c))
}

/// Removes every occurrence of `c` from `s` (what `str::replace(c, "")` computes).
pub fn remove_char(s: &str, c: char) -> (r: String)
    ensures
        r@ == without_char(s@, c),
{
    let v = chars_of(s);
    let mut r = String::new();
    let mut i: usize = 0;
    while i < v.len()
        invariant
            i <= v.len(),
            v@ == s@,
            r@ == without_char(v@.take(i as int), c),
        decreases v.len() - i,
    {
        proof {
            assert(v@.take(i + 1) == v@.take(i as int).push(v@[i as int]));
            v@.take(i as int).lemma_filter_push(v@[i as int], is_not(c));
        }
        if v[i] != c {
            push_char(&mut r, v[i]);
        }
        i += 1;
    }
    assert(v@.take(v.len() as int) == v@);
    r
}

/// `pat` occurs in `s` starting at index `i`.
pub open spec fn occurs_at(s: Seq<char>, pat: Seq<char>, i: int) -> bool {
    0 <= i && i + pat.len() <= s.len() && s.subrange(i, i + pat.len()) == pat
}

/// `pat` occurs somewhere in `s`.
pub open spec fn contains_text(s: Seq<char>, pat: Seq<char>) -> bool {
    exists|i: int| occurs_at(s, pat, i)
}

/// `s` ends with `suffix`.
pub open spec fn ends_with_text(s: Seq<char>, suffix: Seq<char>) -> bool {
    suffix.len() <= s.len() && s.skip(s.len() - suffix.len()) == suffix
}

/// Whether `pat` occurs in `v` at index `i`.
fn matches_at(v: &Vec<char>, pat: &Vec<char>, i: usize) -> (r: bool)
    ensures
        r == occurs_at(v@, pat@, i as int),
{
    if pat.len() > v.len() || i > v.len() - pat.len() {
        return false;
    }
    let mut j: usize = 0;
    while j < pat.len()
        invariant
            i + pat.len() <= v.len(),
            j <= pat.len(),
            forall|k: int| 0 <= k < j ==> v@[i + k] == pat@[k],
        decreases pat.len() - j,
    {
        if v[i + j] != pat[j] {
            assert(v@.subrange(i as int, i + pat.len())[j as int] != pat@[j as int]);
            return false;
        }
        j += 1;
    }
    assert(v@.subrange(i as int, i + pat.len()) =~= pat@);
    true
}

/// Whether `pat` occurs in `s` (what `str::contains` computes for a string pattern).
pub fn contains_str(s: &str, pat: &str) -> (r: bool)
    ensures
        r == contains_text(s@, pat@),
{
    let v = chars_of(s);
    let p = chars_of(pat);
    if p.len() > v.len() {
        return false;
    }
    let last = v.len() - p.len();
    let mut i: usize = 0;
    loop
        invariant
            v@ == s@,
            p@ == pat@,
            last == v.len() - p.len(),
            i <= last,
            forall|k: int| 0 <= k < i ==> !occurs_at(v@, p@, k),
        decreases last - i,
    {
        if matches_at(&v, &p, i) {
            return true;
        }
        if i == last {
            assert forall|k: int| occurs_at(v@, p@, k) implies k <= last by {}
            return false;
        }
        i += 1;
    }
}

/// Whether `s` ends with `suffix` (what `str::ends_with` computes for a string pattern).
pub fn ends_with_str(s: &str, suffix: &str) -> (r: bool)
    ensures
        r == ends_with_text(s@, suffix@),
{
    let v = chars_of(s);
    let p = chars_of(suffix);
    if p.len() > v.len() {
        return false;
    }
    let r = matches_at(&v, &p, v.len() - p.len());
    proof {
        let n = v.len() - p.len();
        assert(v@.subrange(n as int, n + p.len()) == v@.skip(n as int));
    }
    r
}

/// `s` with every occurrence of `pat` removed, scanning left to right and taking
/// the leftmost, non-overlapping occurrences (what `str::replace(pat, "")` computes).
pub open spec fn remove_all(s: Seq<char>, pat: Seq<char>) -> Seq<char>
    recommends
        pat.len() > 0,
    decreases s.len(),
{
    if s.len() == 0 || pat.len() == 0 {
        s
    } else if occurs_at(s, pat, 0) {
        remove_all(s.skip(pat.len() as int), pat)
    } else {
        seq![s[0]] + remove_all(s.drop_first(), pat)
    }
}

/// Removes every occurrence of the non-empty pattern `pat` from `s`.
pub fn remove_all_str(s: &str, pat: &str) -> (r: String)
    requires
        pat@.len() > 0,
    ensures
        r@ == remove_all(s@, pat@),
{
    let v = chars_of(s);
    let p = chars_of(pat);
    let mut r = String::new();
    let mut i: usize = 0;
    assert(v@.skip(0) == v@);
    assert(r@ + remove_all(v@, p@) == remove_all(v@, p@));
    while i < v.len()
        invariant
            v@ == s@,
            p@ == pat@,
            p.len() > 0,
            i <= v.len(),
            r@ + remove_all(v@.skip(i as int), p@) == remove_all(v@, p@),
        decreases v.len() - i,
    {
        let ghost rest = v@.skip(i as int);
        if matches_at(&v, &p, i) {
            proof {
                assert(rest.subrange(0, p@.len() as int) == v@.subrange(i as int, i + p.len()));
                assert(rest.skip(p@.len() as int) == v@.skip(i + p.len()));
            }
            i += p.len();
        } else {
            proof {
                if occurs_at(rest, p@, 0) {
                    assert(rest.subrange(0, p@.len() as int) == v@.subrange(i as int, i + p.len()));
                }
                assert(rest.drop_first() == v@.skip(i + 1));
                assert(r@.push(v@[i as int]) + remove_all(rest.drop_first(), p@) == r@ + (seq![
                    rest[0],
                ] + remove_all(rest.drop_first(), p@)));
            }
            push_char(&mut r, v[i]);
            i += 1;
        }
    }
    proof {
        assert(v@.skip(i as int).len() == 0);
        assert(r@ + remove_all(v@.skip(i as int), p@) == r@);
    }
    r
}

/// The Unicode `White_Space` property, which `char::is_whitespace` tests.
pub open spec fn is_ws(c: char) -> bool {
    let u = c as u32;
    ||| 0x09 <= u <= 0x0d
    ||| u == 0x20
    ||| u == 0x85
    ||| u == 0xa0
    ||| u == 0x1680
    ||| 0x2000 <= u <= 0x200a
    ||| u == 0x2028
    ||| u == 0x2029
    ||| u == 0x202f
    ||| u == 0x205f
    ||| u == 0x3000
}

/// Whether `c` is a Unicode white-space character.
pub fn is_whitespace(c: char) -> (r: bool)
    ensures
        r == is_ws(c),
{
    ('\u{9}' <= c && c <= '\u{d}') || c == ' ' || c == '\u{85}' || c == '\u{a0}' || c
        == '\u{1680}' || ('\u{2000}' <= c && c <= '\u{200a}') || c == '\u{2028}' || c
        == '\u{2029}' || c == '\u{202f}' || c == '\u{205f}' || c == '\u{3000}'
}

/// `s` without its leading white space.
pub open spec fn trim_start(s: Seq<char>) -> Seq<char>
    decreases s.len(),
{
    if s.len() > 0 && is_ws(s[0]) {
        trim_start(s.drop_first())
    } else {
        s
    }
}

/// `s` without its trailing white space.
pub open spec fn trim_end(s: Seq<char>) -> Seq<char>
    decreases s.len(),
{
    if s.len() > 0 && is_ws(s.last()) {
        trim_end(s.drop_last())
    } else {
        s
    }
}

/// `s` without leading and trailing white space (what `str::trim` computes).
pub open spec fn trim(s: Seq<char>) -> Seq<char> {
    trim_end(trim_start(s))
}

proof fn lemma_trim_start_skip(s: Seq<char>, a: int)
    requires
        0 <= a <= s.len(),
        forall|k: int| 0 <= k < a ==> is_ws(#[trigger] s[k]),
        a == s.len() || !is_ws(s[a]),
    ensures
        trim_start(s) == s.skip(a),
    decreases a,
{
    if a == 0 {
        assert(s.skip(0) == s);
    } else {
        let t = s.drop_first();
        assert forall|k: int| 0 <= k < a - 1 implies is_ws(#[trigger] t[k]) by {
            assert(t[k] == s[k + 1]);
        }
        if a < s.len() {
            assert(t[a - 1] == s[a]);
        }
        lemma_trim_start_skip(t, a - 1);
        assert(t.skip(a - 1) == s.skip(a));
    }
}

proof fn lemma_trim_end_take(s: Seq<char>, b: int)
    requires
        0 <= b <= s.len(),
        forall|k: int| b <= k < s.len() ==> is_ws(#[trigger] s[k]),
        b == 0 || !is_ws(s[b - 1]),
    ensures
        trim_end(s) == s.take(b),
    decreases s.len() - b,
{
    if b == s.len() {
        assert(s.take(b) == s);
    } else {
        let t = s.drop_last();
        assert forall|k: int| b <= k < t.len() implies is_ws(#[trigger] t[k]) by {
            assert(t[k] == s[k]);
        }
        if b > 0 {
            assert(t[b - 1] == s[b - 1]);
        }
        lemma_trim_end_take(t, b);
        assert(t.take(b) == s.take(b));
    }
}

/// `s` without leading and trailing white space.
pub fn trim_str(s: &str) -> (r: String)
    ensures
        r@ == trim(s@),
{
    let v = chars_of(s);
    let mut a: usize = 0;
    while a < v.len() && is_whitespace(v[a])
        invariant
            a <= v.len(),
            forall|k: int| 0 <= k < a ==> is_ws(#[trigger] v@[k]),
        decreases v.len() - a,
    {
        a += 1;
    }
    let mut b: usize = v.len();
    while b > a && is_whitespace(v[b - 1])
        invariant
            a <= b <= v.len(),
            forall|k: int| b <= k < v.len() ==> is_ws(#[trigger] v@[k]),
        decreases b,
    {
        b -= 1;
    }
    proof {
        lemma_trim_start_skip(v@, a as int);
        let t = v@.skip(a as int);
        assert forall|k: int| b - a <= k < t.len() implies is_ws(#[trigger] t[k]) by {
            assert(t[k] == v@[k + a]);
        }
        if b > a {
            assert(t[b - a - 1] == v@[b - 1]);
        }
        lemma_trim_end_take(t, b - a);
        assert(t.take(b - a) == v@.subrange(a as int, b as int));
    }
    string_of(&v, a, b)
}

/// `trim` removes exactly the white space around a text that neither begins nor ends
/// with white space: `trim(p + d + q) == d` for white space `p` and `q`.
pub proof fn law_trim_strips_surrounding_space(p: Seq<char>, d: Seq<char>, q: Seq<char>)
    requires
        forall|k: int| 0 <= k < p.len() ==> is_ws(#[trigger] p[k]),
        forall|k: int| 0 <= k < q.len() ==> is_ws(#[trigger] q[k]),
        d.len() > 0 ==> !is_ws(d[0]) && !is_ws(d.last()),
    ensures
        trim(p + d + q) == d,
{
    let s = p + d + q;
    if d.len() == 0 {
        assert forall|k: int| 0 <= k < s.len() implies is_ws(#[trigger] s[k]) by {
            if k < p.len() {
                assert(s[k] == p[k]);
            } else {
                assert(s[k] == q[k - p.len()]);
            }
        }
        lemma_trim_start_skip(s, s.len() as int);
        assert(s.skip(s.len() as int) =~= d);
    } else {
        assert forall|k: int| 0 <= k < p.len() implies is_ws(#[trigger] s[k]) by {
            assert(s[k] == p[k]);
        }
        assert(s[p.len() as int] == d[0]);
        lemma_trim_start_skip(s, p.len() as int);
        let t = d + q;
        assert(s.skip(p.len() as int) =~= t);
        assert forall|k: int| d.len() <= k < t.len() implies is_ws(#[trigger] t[k]) by {
            assert(t[k] == q[k - d.len()]);
        }
        assert(t[d.len() - 1] == d.last());
        lemma_trim_end_take(t, d.len() as int);
        assert(t.take(d.len() as int) =~= d);
    }
}

/// Index `i` of `s` begins a white-space separated word.
pub open spec fn is_word_start(s: Seq<char>, i: int) -> bool {
    0 <= i < s.len() && !is_ws(s[i]) && (i == 0 || is_ws(s[i - 1]))
}

/// The index at which the `k`-th (counting from 0) word that begins at or after `from` begins.
pub open spec fn nth_word_start(s: Seq<char>, from: int, k: nat) -> Option<int>
    decreases s.len() - from,
{
    if from < 0 || from >= s.len() {
        None
    } else if is_word_start(s, from) {
        if k == 0 {
            Some(from)
        } else {
            nth_word_start(s, from + 1, (k - 1) as nat)
        }
    } else {
        nth_word_start(s, from + 1, k)
    }
}

/// The end of the run of non-white-space characters that begins at `i`.
pub open spec fn word_end(s: Seq<char>, i: int) -> int
    decreases s.len() - i,
{
    if i < 0 || i >= s.len() || is_ws(s[i]) {
        i
    } else {
        word_end(s, i + 1)
    }
}

/// The `k`-th white-space separated word of `s`, counting from 0
/// (what `str::split_whitespace().nth(k)` yields).
pub open spec fn nth_word(s: Seq<char>, k: nat) -> Option<Seq<char>> {
    match nth_word_start(s, 0, k) {
        Some(i) => Some(s.subrange(i, word_end(s, i))),
        None => None,
    }
}

proof fn lemma_word_end_bounds(s: Seq<char>, i: int)
    requires
        0 <= i <= s.len(),
    ensures
        i <= word_end(s, i) <= s.len(),
    decreases s.len() - i,
{
    if i < s.len() && !is_ws(s[i]) {
        lemma_word_end_bounds(s, i + 1);
    }
}

/// The `k`-th white-space separated word of `s`, counting from 0.
pub fn nth_word_str(s: &str, k: usize) -> (r: Option<String>)
    ensures
        r matches Some(w) ==> nth_word(s@, k as nat) == Some(w@),
        r is None ==> nth_word(s@, k as nat) is None,
{
    let v = chars_of(s);
    let mut i: usize = 0;
    let mut left: usize = k;
    while i < v.len()
        invariant
            v@ == s@,
            i <= v.len(),
            left <= k,
            nth_word_start(v@, 0, k as nat) == nth_word_start(v@, i as int, left as nat),
        decreases v.len() - i,
    {
        let starts = !is_whitespace(v[i]) && (i == 0 || is_whitespace(v[i - 1]));
        if starts {
            if left == 0 {
                let mut j = i;
                while j < v.len() && !is_whitespace(v[j])
                    invariant
                        i <= j <= v.len(),
                        word_end(v@, i as int) == word_end(v@, j as int),
                    decreases v.len() - j,
                {
                    j += 1;
                }
                return Some(string_of(&v, i, j));
            }
            left -= 1;
        }
        i += 1;
    }
    None
}

proof fn lemma_nth_word_start_is_start(s: Seq<char>, from: int, k: nat)
    requires
        nth_word_start(s, from, k) is Some,
    ensures
        is_word_start(s, nth_word_start(s, from, k)->0),
    decreases s.len() - from,
{
    if 0 <= from < s.len() {
        if is_word_start(s, from) {
            if k > 0 {
                lemma_nth_word_start_is_start(s, from + 1, (k - 1) as nat);
            }
        } else {
            lemma_nth_word_start_is_start(s, from + 1, k);
        }
    }
}

proof fn lemma_word_end_run(s: Seq<char>, i: int)
    requires
        0 <= i <= s.len(),
    ensures
        i <= word_end(s, i) <= s.len(),
        forall|j: int| i <= j < word_end(s, i) ==> !is_ws(#[trigger] s[j]),
        word_end(s, i) == s.len() || is_ws(s[word_end(s, i)]),
    decreases s.len() - i,
{
    if i < s.len() && !is_ws(s[i]) {
        lemma_word_end_run(s, i + 1);
    }
}

proof fn lemma_first_word_start(s: Seq<char>, from: int)
    requires
        0 <= from,
    ensures
        nth_word_start(s, from, 0) matches Some(i) ==> from <= i && forall|m: int|
            from <= m < i ==> !is_word_start(s, m),
        nth_word_start(s, from, 0) is None ==> forall|m: int| from <= m ==> !is_word_start(s, m),
    decreases s.len() - from,
{
    if from < s.len() && !is_word_start(s, from) {
        lemma_first_word_start(s, from + 1);
    }
}

proof fn lemma_next_word_start(s: Seq<char>, from: int, k: nat)
    requires
        0 <= from,
    ensures
        nth_word_start(s, from, k + 1) == (match nth_word_start(s, from, k) {
            Some(i) => nth_word_start(s, i + 1, 0),
            None => None,
        }),
    decreases s.len() - from,
{
    if from < s.len() {
        if is_word_start(s, from) {
            if k > 0 {
                lemma_next_word_start(s, from + 1, (k - 1) as nat);
            }
        } else {
            lemma_next_word_start(s, from + 1, k);
        }
    }
}

/// Words are counted from the start of `s`, each once and in order: word 0 is the first
/// word that begins in `s`; word `k + 1` is the first that begins after word `k`; and
/// where there is no word `k`, there is no word `k + 1`.
pub proof fn law_words_counted_in_order(s: Seq<char>, k: nat)
    ensures
        nth_word_start(s, 0, 0) matches Some(i) ==> forall|m: int|
            0 <= m < i ==> !is_word_start(s, m),
        nth_word_start(s, 0, 0) is None ==> forall|m: int| 0 <= m ==> !is_word_start(s, m),
        nth_word_start(s, 0, k) matches Some(i) ==> (nth_word_start(s, 0, k + 1) matches Some(j)
            ==> i < j && forall|m: int| i < m < j ==> !is_word_start(s, m)),
        nth_word_start(s, 0, k) matches Some(i) ==> (nth_word_start(s, 0, k + 1) is None
            ==> forall|m: int| i < m ==> !is_word_start(s, m)),
        nth_word_start(s, 0, k) is None ==> nth_word_start(s, 0, k + 1) is None,
{
    lemma_first_word_start(s, 0);
    lemma_next_word_start(s, 0, k);
    if let Some(i) = nth_word_start(s, 0, k) {
        lemma_nth_word_start_is_start(s, 0, k);
        lemma_first_word_start(s, i + 1);
    }
}

/// Each word that `nth_word` yields is a whole run of non-white-space characters of `s`:
/// it is not empty, holds no white space (no line break either), and stands in `s`
/// with white space or an end of `s` on each side.
pub proof fn law_words_are_whole_runs(s: Seq<char>, k: nat, w: Seq<char>)
    requires
        nth_word(s, k) == Some(w),
    ensures
        w.len() > 0,
        forall|j: int| 0 <= j < w.len() ==> !is_ws(#[trigger] w[j]),
        exists|i: int|
            #![trigger occurs_at(s, w, i)]
            occurs_at(s, w, i) && (i == 0 || is_ws(s[i - 1])) && (i + w.len() == s.len()
                || is_ws(s[i + w.len()])),
{
    lemma_nth_word_start_is_start(s, 0, k);
    let i = nth_word_start(s, 0, k)->0;
    lemma_word_end_run(s, i);
    lemma_word_end_run(s, i + 1);
    let e = word_end(s, i);
    assert(w == s.subrange(i, e));
    assert forall|j: int| 0 <= j < w.len() implies !is_ws(#[trigger] w[j]) by {
        assert(w[j] == s[i + j]);
    }
    assert(occurs_at(s, w, i));
}

/// The decimal digit for `d`, `0 <= d < 10`.
pub open spec fn digit_char(d: int) -> char {
    (d + 48) as char
}

/// The decimal representation of `n`, without leading zeros.
pub open spec fn decimal(n: nat) -> Seq<char>
    decreases n,
{
    if n < 10 {
        seq![digit_char(n as int)]
    } else {
        decimal(n / 10).push(digit_char((n % 10) as int))
    }
}

/// The decimal representation of `n`, with a leading `-` when negative
/// (what `to_string` gives for a signed integer).
pub open spec fn signed_decimal(n: int) -> Seq<char> {
    if n < 0 {
        seq!['-'] + decimal((-n) as nat)
    } else {
        decimal(n as nat)
    }
}

fn digit(d: u64) -> (c: char)
    requires
        d < 10,
    ensures
        c == digit_char(d as int),
{
    ((d as u8) + 48u8) as char
}

/// Appends the decimal representation of `n` to `out`.
pub fn push_decimal(out: &mut String, n: u64)
    ensures
        final(out)@ == old(out)@ + decimal(n as nat),
    decreases n,
{
    if n >= 10 {
        push_decimal(out, n / 10);
    }
    push_char(out, digit(n % 10));
    proof {
        if n < 10 {
            assert(n % 10 == n);
        }
    }
}

/// The decimal representation of an unsigned integer.
pub fn u64_to_text(n: u64) -> (r: String)
    ensures
        r@ == decimal(n as nat),
{
    let mut r = String::new();
    push_decimal(&mut r, n);
    r
}

/// The decimal representation of a signed integer.
pub fn i64_to_text(n: i64) -> (r: String)
    ensures
        r@ == signed_decimal(n as int),
{
    let mut r = String::new();
    if n < 0 {
        push_char(&mut r, '-');
        let m: i128 = -(n as i128);
        push_decimal(&mut r, m as u64);
    } else {
        push_decimal(&mut r, n as u64);
    }
    r
}


/// `c` is an ASCII decimal digit.
pub open spec fn is_digit(c: char) -> bool {
    '0' <= c <= '9'
}

/// The number that the decimal digits `s` spell (0 for no digits).
pub open spec fn digits_value(s: Seq<char>) -> int
    decreases s.len(),
{
    if s.len() == 0 {
        0
    } else {
        digits_value(s.drop_last()) * 10 + (s.last() as int - 48)
    }
}

/// Every character of `s` is a decimal digit.
pub open spec fn all_digits(s: Seq<char>) -> bool {
    forall|i: int| 0 <= i < s.len() ==> is_digit(#[trigger] s[i])
}

/// `s` begins with a sign character.
pub open spec fn has_sign(s: Seq<char>) -> bool {
    s.len() > 0 && (s[0] == '-' || s[0] == '+')
}

/// The integer that `s` spells: an optional `+` or `-`, then one or more
/// decimal digits and nothing else; `None` when `s` has another form.
pub open spec fn integer_text(s: Seq<char>) -> Option<int> {
    let body = if has_sign(s) {
        s.drop_first()
    } else {
        s
    };
    if body.len() > 0 && all_digits(body) {
        if s.len() > 0 && s[0] == '-' {
            Some(-digits_value(body))
        } else {
            Some(digits_value(body))
        }
    } else {
        None
    }
}

/// What `s.parse::<i8>()` accepts: the integer that `s` spells, when it lies in `i8`'s range.
pub open spec fn parse_i8_text(s: Seq<char>) -> Option<i8> {
    match integer_text(s) {
        Some(v) => if -128 <= v <= 127 {
            Some(v as i8)
        } else {
            None
        },
        None => None,
    }
}

proof fn lemma_digits_value_monotone(s: Seq<char>, j: int)
    requires
        0 <= j <= s.len(),
        all_digits(s),
    ensures
        digits_value(s.take(j)) <= digits_value(s),
        0 <= digits_value(s),
    decreases s.len(),
{
    if s.len() == 0 {
        assert(s.take(j) == s);
    } else if j == s.len() {
        assert(s.take(j) == s);
        lemma_digits_value_monotone(s.drop_last(), j - 1);
    } else {
        let t = s.drop_last();
        assert(t.take(j) == s.take(j));
        lemma_digits_value_monotone(t, j);
    }
}

/// Parses `s` as an `i8`, as `str::parse::<i8>` does.
pub fn parse_i8(s: &str) -> (r: Option<i8>)
    ensures
        r == parse_i8_text(s@),
{
    let v = chars_of(s);
    let negative = v.len() > 0 && v[0] == '-';
    let signed = v.len() > 0 && (v[0] == '-' || v[0] == '+');
    let start: usize = if signed { 1 } else { 0 };
    let ghost body = if has_sign(v@) { v@.drop_first() } else { v@ };
    assert(body == v@.skip(start as int));
    if start >= v.len() {
        return None;
    }
    let mut value: i32 = 0;
    let mut i: usize = start;
    while i < v.len()
        invariant
            v@ == s@,
            start <= i <= v.len(),
            body == v@.skip(start as int),
            body == (if has_sign(v@) { v@.drop_first() } else { v@ }),
            negative == (v@.len() > 0 && v@[0] == '-'),
            0 <= value <= 128,
            value == digits_value(body.take(i - start)),
            forall|k: int| 0 <= k < i - start ==> is_digit(#[trigger] body[k]),
        decreases v.len() - i,
    {
        let c = v[i];
        if !('0' <= c && c <= '9') {
            assert(!is_digit(body[i - start]));
            return None;
        }
        let d: i32 = (c as u32 - 48) as i32;
        proof {
            assert(body.take(i - start + 1).drop_last() == body.take(i - start));
            assert(body.take(i - start + 1).last() == c);
        }
        value = value * 10 + d;
        if value > 128 {
            proof {
                if all_digits(body) {
                    lemma_digits_value_monotone(body, i - start + 1);
                }
            }
            return None;
        }
        i += 1;
    }
    assert(body.take(i - start) == body);
    if negative {
        Some((-value) as i8)
    } else if value <= 127 {
        Some(value as i8)
    } else {
        None
    }
}

/// The decimal representation of `n` is a non-empty run of digits that spells `n`.
pub proof fn law_decimal_spells_number(n: nat)
    ensures
        decimal(n).len() > 0,
        all_digits(decimal(n)),
        digits_value(decimal(n)) == n,
    decreases n,
{
    if n >= 10 {
        law_decimal_spells_number(n / 10);
        let d = decimal(n);
        assert(d.drop_last() =~= decimal(n / 10));
        assert(d.last() == digit_char((n % 10) as int));
        let r = (n % 10) as int;
        assert(0 <= r < 10);
        assert(digit_char(r) as int == r + 48);
        assert(n == (n / 10) * 10 + r);
        assert forall|i: int| 0 <= i < d.len() implies is_digit(#[trigger] d[i]) by {
            if i < d.len() - 1 {
                assert(d[i] == decimal(n / 10)[i]);
            }
        }
    } else {
        let d = decimal(n);
        assert(d.drop_last() =~= Seq::<char>::empty());
        assert(digit_char(n as int) as int == n + 48);
        assert(digits_value(d) == digits_value(d.drop_last()) * 10 + (d.last() as int - 48));
    }
}

/// The decimal representation of `n` neither begins nor ends with white space.
pub proof fn lemma_signed_decimal_ends(n: int)
    ensures
        signed_decimal(n).len() > 0,
        !is_ws(signed_decimal(n)[0]),
        !is_ws(signed_decimal(n).last()),
{
    let m: nat = if n < 0 { (-n) as nat } else { n as nat };
    law_decimal_spells_number(m);
    let d = decimal(m);
    assert(is_digit(d[0]));
    assert(is_digit(d.last()));
    if n < 0 {
        let s = seq!['-'] + d;
        assert(s[0] == '-');
        assert(s.last() == d.last());
    }
}

/// The decimal representation of any integer reads back as that integer.
pub proof fn law_integer_text_reads_decimal(n: int)
    ensures
        integer_text(signed_decimal(n)) == Some(n),
{
    if n < 0 {
        let m: nat = (-n) as nat;
        law_decimal_spells_number(m);
        let d = decimal(m);
        let s = seq!['-'] + d;
        assert(s == signed_decimal(n));
        assert(has_sign(s));
        assert(s.drop_first() =~= d);
        assert(integer_text(s) == Some(-digits_value(d)));
    } else {
        law_decimal_spells_number(n as nat);
        let d = decimal(n as nat);
        assert(is_digit(d[0]));
        assert(!has_sign(d));
        assert(integer_text(d) == Some(digits_value(d)));
    }
}

/// What `to_string` writes for an `i8`, `str::parse::<i8>` reads back as the same number;
/// the decimal representation of an integer outside `i8`'s range it refuses.
pub proof fn law_parse_i8_reads_decimal(n: int)
    ensures
        -128 <= n <= 127 ==> parse_i8_text(signed_decimal(n)) == Some(n as i8),
        !(-128 <= n <= 127) ==> parse_i8_text(signed_decimal(n)) is None,
{
    law_integer_text_reads_decimal(n);
}


/// Lexicographic order by code point, which is the order of `String`'s `Ord`
/// (UTF-8 preserves the order of code points, and `String` compares bytes).
pub open spec fn lex_le(a: Seq<char>, b: Seq<char>) -> bool
    decreases a.len(),
{
    if a.len() == 0 {
        true
    } else if b.len() == 0 {
        false
    } else if a[0] != b[0] {
        a[0] < b[0]
    } else {
        lex_le(a.drop_first(), b.drop_first())
    }
}

/// The character sequences that the strings of `s` hold.
pub open spec fn views(s: Seq<String>) -> Seq<Seq<char>> {
    s.map_values(|t: String| t@)
}

/// `s` is in ascending lexicographic order.
pub open spec fn lex_sorted(s: Seq<Seq<char>>) -> bool {
    forall|i: int, j: int| 0 <= i < j < s.len() ==> lex_le(#[trigger] s[i], #[trigger] s[j])
}

/// `lex_le` is total.
pub proof fn lemma_lex_total(a: Seq<char>, b: Seq<char>)
    ensures
        lex_le(a, b) || lex_le(b, a),
    decreases a.len(),
{
    if a.len() > 0 && b.len() > 0 && a[0] == b[0] {
        lemma_lex_total(a.drop_first(), b.drop_first());
    }
}

/// `lex_le` is transitive.
pub proof fn lemma_lex_transitive(a: Seq<char>, b: Seq<char>, c: Seq<char>)
    requires
        lex_le(a, b),
        lex_le(b, c),
    ensures
        lex_le(a, c),
    decreases a.len(),
{
    if a.len() > 0 && b.len() > 0 && c.len() > 0 && a[0] == b[0] && b[0] == c[0] {
        lemma_lex_transitive(a.drop_first(), b.drop_first(), c.drop_first());
    }
}

/// A proper prefix sorts first: `a` comes no later than `a + b`, and when `b` is not
/// empty, `a + b` comes strictly after `a` (`"gruvbox"` before `"gruvbox-light"`).
pub proof fn law_prefix_sorts_first(a: Seq<char>, b: Seq<char>)
    ensures
        lex_le(a, a + b),
        b.len() > 0 ==> !lex_le(a + b, a),
    decreases a.len(),
{
    if a.len() == 0 {
        assert(a + b =~= b);
    } else {
        assert((a + b).drop_first() =~= a.drop_first() + b);
        assert((a + b)[0] == a[0]);
        law_prefix_sorts_first(a.drop_first(), b);
    }
}

/// The first character at which two texts differ decides their order: when `a` and `b`
/// agree before index `k` and `a[k] < b[k]`, `a` comes strictly before `b`.
pub proof fn law_first_difference_decides(a: Seq<char>, b: Seq<char>, k: int)
    requires
        0 <= k < a.len(),
        k < b.len(),
        a.take(k) == b.take(k),
        a[k] < b[k],
    ensures
        lex_le(a, b),
        !lex_le(b, a),
    decreases k,
{
    if k > 0 {
        assert(a.take(k)[0] == a[0]);
        assert(b.take(k)[0] == b[0]);
        assert(a.drop_first().take(k - 1) =~= a.take(k).drop_first());
        assert(b.drop_first().take(k - 1) =~= b.take(k).drop_first());
        law_first_difference_decides(a.drop_first(), b.drop_first(), k - 1);
    }
}

/// Two texts that each come no later than the other are the same text.
pub proof fn law_lex_antisymmetric(a: Seq<char>, b: Seq<char>)
    requires
        lex_le(a, b),
        lex_le(b, a),
    ensures
        a == b,
    decreases a.len(),
{
    if a.len() == 0 {
        assert(b.len() == 0);
        assert(a =~= b);
    } else {
        law_lex_antisymmetric(a.drop_first(), b.drop_first());
        assert forall|i: int| 0 <= i < a.len() implies a[i] == b[i] by {
            if i > 0 {
                assert(a[i] == a.drop_first()[i - 1]);
                assert(b[i] == b.drop_first()[i - 1]);
            }
        }
        assert(a =~= b);
    }
}

/// There is only one ascending arrangement of a collection of texts: two sequences that
/// are sorted by `lex_le` and hold the same texts equally often are the same sequence.
/// So what `sort_texts` yields is what any sort by this order yields.
pub proof fn law_sorted_arrangement_is_unique(s: Seq<Seq<char>>, t: Seq<Seq<char>>)
    requires
        lex_sorted(s),
        lex_sorted(t),
        s.to_multiset() == t.to_multiset(),
    ensures
        s == t,
    decreases s.len(),
{
    broadcast use vstd::seq_lib::group_to_multiset_ensures;

    assert(s.len() == s.to_multiset().len() && t.len() == t.to_multiset().len());
    if s.len() == 0 {
        assert(s =~= t);
    } else {
        assert(s.contains(s[0]));
        assert(t.to_multiset().count(s[0]) > 0);
        assert(t.contains(s[0]));
        assert(t.contains(t[0]));
        assert(s.to_multiset().count(t[0]) > 0);
        assert(s.contains(t[0]));
        if s[0] != t[0] {
            let j = choose|j: int| 0 <= j < t.len() && t[j] == s[0];
            let k = choose|k: int| 0 <= k < s.len() && s[k] == t[0];
            assert(j > 0 && k > 0);
            assert(lex_le(t[0], t[j]));
            assert(lex_le(s[0], s[k]));
            law_lex_antisymmetric(s[0], t[0]);
        }
        let s1 = s.drop_first();
        let t1 = t.drop_first();
        assert(s.remove(0) =~= s1);
        assert(t.remove(0) =~= t1);
        assert(s1.to_multiset() == s.to_multiset().remove(s[0]));
        assert(t1.to_multiset() == t.to_multiset().remove(t[0]));
        assert forall|a: int, b: int| 0 <= a < b < s1.len() implies lex_le(
            #[trigger] s1[a],
            #[trigger] s1[b],
        ) by {
            assert(s1[a] == s[a + 1] && s1[b] == s[b + 1]);
        }
        assert forall|a: int, b: int| 0 <= a < b < t1.len() implies lex_le(
            #[trigger] t1[a],
            #[trigger] t1[b],
        ) by {
            assert(t1[a] == t[a + 1] && t1[b] == t[b + 1]);
        }
        law_sorted_arrangement_is_unique(s1, t1);
        assert forall|i: int| 0 <= i < s.len() implies s[i] == t[i] by {
            if i > 0 {
                assert(s[i] == s1[i - 1] && t[i] == t1[i - 1]);
            }
        }
        assert(s =~= t);
    }
}

/// Whether `a` comes no later than `b` in lexicographic order.
pub fn text_le(a: &Vec<char>, b: &Vec<char>) -> (r: bool)
    ensures
        r == lex_le(a@, b@),
{
    let mut i: usize = 0;
    assert(a@.skip(0) == a@ && b@.skip(0) == b@);
    while i < a.len() && i < b.len() && a[i] == b[i]
        invariant
            i <= a.len(),
            i <= b.len(),
            lex_le(a@, b@) == lex_le(a@.skip(i as int), b@.skip(i as int)),
        decreases a.len() - i,
    {
        proof {
            let (x, y) = (a@.skip(i as int), b@.skip(i as int));
            assert(x.drop_first() == a@.skip(i + 1));
            assert(y.drop_first() == b@.skip(i + 1));
        }
        i += 1;
    }
    proof {
        let (x, y) = (a@.skip(i as int), b@.skip(i as int));
        if i < a.len() {
            assert(x[0] == a@[i as int]);
        }
        if i < b.len() {
            assert(y[0] == b@[i as int]);
        }
    }
    if i == a.len() {
        true
    } else if i == b.len() {
        false
    } else {
        a[i] < b[i]
    }
}

/// The strings of `v` in ascending lexicographic order (what `sort` on a
/// `Vec<String>` yields): sorted, and holding the same strings as often as `v`.
pub fn sort_texts(v: &Vec<String>) -> (r: Vec<String>)
    ensures
        lex_sorted(views(r@)),
        views(r@).to_multiset() == views(v@).to_multiset(),
{
    let mut keys: Vec<Vec<char>> = Vec::new();
    let ghost kv = Seq::<Seq<char>>::empty();
    let mut i: usize = 0;
    assert(views(v@.take(0)) =~= Seq::<Seq<char>>::empty());
    assert(kv =~= keys@.map_values(|k: Vec<char>| k@));
    while i < v.len()
        invariant
            i <= v.len(),
            kv == keys@.map_values(|k: Vec<char>| k@),
            lex_sorted(kv),
            kv.to_multiset() == views(v@.take(i as int)).to_multiset(),
        decreases v.len() - i,
    {
        let x = chars_of(v[i].as_str());
        let mut p: usize = 0;
        while p < keys.len() && text_le(&keys[p], &x)
            invariant
                p <= keys.len(),
                kv == keys@.map_values(|k: Vec<char>| k@),
                forall|q: int| 0 <= q < p ==> lex_le(#[trigger] kv[q], x@),
            decreases keys.len() - p,
        {
            p += 1;
        }
        proof {
            assert forall|q: int| p <= q < kv.len() implies lex_le(x@, #[trigger] kv[q]) by {
                assert(!lex_le(kv[p as int], x@));
                if p < q {
                    assert(lex_le(kv[p as int], kv[q]));
                }
                if lex_le(kv[q], x@) {
                    if p < q {
                        lemma_lex_transitive(kv[p as int], kv[q], x@);
                    }
                }
                lemma_lex_total(kv[q], x@);
            }
        }
        let ghost old_kv = kv;
        keys.insert(p, x);
        proof {
            kv = old_kv.insert(p as int, x@);
            assert(kv =~= keys@.map_values(|k: Vec<char>| k@));
            old_kv.insert_ensures(p as int, x@);
            assert forall|a: int, b: int| 0 <= a < b < kv.len() implies lex_le(
                #[trigger] kv[a],
                #[trigger] kv[b],
            ) by {
                if b < p {
                } else if b == p {
                } else if a < p {
                    lemma_lex_transitive(kv[a], x@, kv[b]);
                } else if a == p {
                } else {
                    assert(kv[a] == old_kv[a - 1]);
                    assert(kv[b] == old_kv[b - 1]);
                }
            }
            vstd::seq_lib::to_multiset_insert(old_kv, p as int, x@);
            assert(views(v@.take(i + 1)) =~= views(v@.take(i as int)).push(x@));
            vstd::seq_lib::to_multiset_build(views(v@.take(i as int)), x@);
        }
        i += 1;
    }
    let mut r: Vec<String> = Vec::new();
    let mut j: usize = 0;
    while j < keys.len()
        invariant
            j <= keys.len(),
            kv == keys@.map_values(|k: Vec<char>| k@),
            r@.len() == j,
            forall|k: int| 0 <= k < j ==> (#[trigger] r@[k])@ == kv[k],
        decreases keys.len() - j,
    {
        let s = string_of(&keys[j], 0, keys[j].len());
        proof {
            assert(keys[j as int]@.subrange(0, keys[j as int]@.len() as int) == keys[j as int]@);
        }
        r.push(s);
        j += 1;
    }
    assert(views(r@) =~= kv);
    assert(v@.take(v.len() as int) == v@);
    r
}


/// Whether `a` and `b` hold the same characters.
pub fn same_text(a: &str, b: &str) -> (r: bool)
    ensures
        r == (a@ == b@),
{
    let x = chars_of(a);
    let y = chars_of(b);
    if x.len() != y.len() {
        return false;
    }
    let mut i: usize = 0;
    while i < x.len()
        invariant
            x@ == a@,
            y@ == b@,
            x.len() == y.len(),
            i <= x.len(),
            forall|k: int| 0 <= k < i ==> x@[k] == y@[k],
        decreases x.len() - i,
    {
        if x[i] != y[i] {
            assert(a@[i as int] != b@[i as int]);
            return false;
        }
        i += 1;
    }
    assert(x@ =~= y@);
    true
}

} // verus!
