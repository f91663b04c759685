//! Character-level text helpers: whitespace trimming, substring search,
//! splitting and decimal numbers, each with a specification over `Seq<char>`.

use vstd::prelude::*;

verus! {

/// Whether `c` has the Unicode `White_Space` property (what `char::is_whitespace` tests).
pub open spec fn is_white_space(c: char) -> bool {
    ||| ('\u{9}' <= c && c <= '\u{d}')
    ||| c == ' '
    ||| c == '\u{85}'
    ||| c == '\u{a0}'
    ||| c == '\u{1680}'
    ||| ('\u{2000}' <= c && c <= '\u{200a}')
    ||| c == '\u{2028}'
    ||| c == '\u{2029}'
    ||| c == '\u{202f}'
    ||| c == '\u{205f}'
    ||| c == '\u{3000}'
}

/// `s` without its leading white space.
pub open spec fn trim_start(s: Seq<char>) -> Seq<char>
    decreases s.len(),
{
    if s.len() > 0 && is_white_space(s[0]) {
        trim_start(s.drop_first())
    } else {
        s
    }
}

/// `s` without its trailing white space.
pub open spec fn trim_end(s: Seq<char>) -> Seq<char>
    decreases s.len(),
{
    if s.len() > 0 && is_white_space(s.last()) {
        trim_end(s.drop_last())
    } else {
        s
    }
}

/// `s` without leading and trailing white space (what `str::trim` returns).
pub open spec fn trim(s: Seq<char>) -> Seq<char> {
    trim_end(trim_start(s))
}

/// Tests a character for white space.
pub fn char_is_white_space(c: char) -> (r: bool)
    ensures
        r == is_white_space(c),
{
    ('\u{9}' <= c && c <= '\u{d}') || c == ' ' || c == '\u{85}' || c == '\u{a0}' || c == '\u{1680}'
        || ('\u{2000}' <= c && c <= '\u{200a}') || c == '\u{2028}' || c == '\u{2029}' || c
        == '\u{202f}' || c == '\u{205f}' || c == '\u{3000}'
}

/// The characters of `s`, in order.
pub fn chars_of(s: &str) -> (r: Vec<char>)
    ensures
        r@ == s@,
{
    let mut r: Vec<char> = Vec::new();
    for c in it: s.chars()
        invariant
            r@ == it.seq().take(it.index() as int),
    {
        r.push(c);
    }
    r
}


/// The characters `cs[start..end]` as a `String` (`String::from_iter`).
#[verifier::external_body]
pub fn string_from_chars(cs: &[char], start: usize, end: usize) -> (r: String)
    requires
        start <= end <= cs@.len(),
    ensures
        r@ == cs@.subrange(start as int, end as int),
{
    String::from_iter(&cs[start..end])
}

/// The characters `cs` as a `String`.
pub fn string_of_chars(cs: &[char]) -> (r: String)
    ensures
        r@ == cs@,
{
    assert(cs@.subrange(0, cs@.len() as int) =~= cs@);
    string_from_chars(cs, 0, cs.len())
}

/// Leading white space of `s` has length `k`: then trimming the start drops exactly `k` characters.
pub proof fn lemma_trim_start_at(s: Seq<char>, k: int)
    requires
        0 <= k <= s.len(),
        forall|j: int| 0 <= j < k ==> is_white_space(#[trigger] s[j]),
        k == s.len() || !is_white_space(s[k]),
    ensures
        trim_start(s) == s.subrange(k, s.len() as int),
    decreases k,
{
    if k == 0 {
        assert(s.subrange(0, s.len() as int) =~= s);
    } else {
        assert(is_white_space(s[0]));
        let t = s.drop_first();
        assert forall|j: int| 0 <= j < k - 1 implies is_white_space(#[trigger] t[j]) by {
            assert(t[j] == s[j + 1]);
        }
        lemma_trim_start_at(t, k - 1);
        assert(t.subrange(k - 1, t.len() as int) =~= s.subrange(k, s.len() as int));
    }
}

/// Trailing white space of `s` starts at `k`: then trimming the end keeps exactly `s[..k]`.
pub proof fn lemma_trim_end_at(s: Seq<char>, k: int)
    requires
        0 <= k <= s.len(),
        forall|j: int| k <= j < s.len() ==> is_white_space(#[trigger] s[j]),
        k == 0 || !is_white_space(s[k - 1]),
    ensures
        trim_end(s) == s.subrange(0, k),
    decreases s.len() - k,
{
    if k == s.len() {
        assert(s.subrange(0, k) =~= s);
    } else {
        assert(is_white_space(s.last()));
        let t = s.drop_last();
        assert forall|j: int| k <= j < t.len() implies is_white_space(#[trigger] t[j]) by {
            assert(t[j] == s[j]);
        }
        lemma_trim_end_at(t, k);
        assert(t.subrange(0, k) =~= s.subrange(0, k));
    }
}

/// The bounds `(a, b)` such that `cs[a..b]` is `cs[lo..hi]` with white space trimmed on both sides.
pub fn trim_bounds(cs: &[char], lo: usize, hi: usize) -> (r: (usize, usize))
    requires
        lo <= hi <= cs@.len(),
    ensures
        lo <= r.0 <= r.1 <= hi,
        cs@.subrange(r.0 as int, r.1 as int) == trim(cs@.subrange(lo as int, hi as int)),
{
    let ghost s = cs@.subrange(lo as int, hi as int);
    let mut a = lo;
    while a < hi && char_is_white_space(cs[a])
        invariant
            lo <= a <= hi <= cs@.len(),
            s == cs@.subrange(lo as int, hi as int),
            forall|j: int| lo <= j < a ==> is_white_space(#[trigger] cs@[j]),
        decreases hi - a,
    {
        a = a + 1;
    }
    proof {
        assert forall|j: int| 0 <= j < a - lo implies is_white_space(#[trigger] s[j]) by {
            assert(s[j] == cs@[lo + j]);
        }
        lemma_trim_start_at(s, a - lo);
    }
    let ghost t = cs@.subrange(a as int, hi as int);
    assert(trim_start(s) =~= t);
    let mut b = hi;
    while b > a && char_is_white_space(cs[b - 1])
        invariant
            lo <= a <= b <= hi <= cs@.len(),
            t == cs@.subrange(a as int, hi as int),
            forall|j: int| b <= j < hi ==> is_white_space(#[trigger] cs@[j]),
        decreases b - a,
    {
        b = b - 1;
    }
    proof {
        assert forall|j: int| b - a <= j < t.len() implies is_white_space(#[trigger] t[j]) by {
            assert(t[j] == cs@[a + j]);
        }
        lemma_trim_end_at(t, b - a);
        assert(t.subrange(0, b - a) =~= cs@.subrange(a as int, b as int));
    }
    (a, b)
}

/// `str::trim`, as an owned `String`.
pub fn trim_string(s: &str) -> (r: String)
    ensures
        r@ == trim(s@),
{
    let cs = chars_of(s);
    let (a, b) = trim_bounds(cs.as_slice(), 0, cs.len());
    assert(cs@.subrange(0, cs@.len() as int) =~= s@);
    string_from_chars(cs.as_slice(), a, b)
}


/// `p` occurs in `s` starting at index `i`.
pub open spec fn occurs_at<A>(s: Seq<A>, p: Seq<A>, i: int) -> bool {
    0 <= i && i + p.len() <= s.len() && s.subrange(i, i + p.len()) == p
}

/// The first index `>= i` at which `p` occurs in `s`.
pub open spec fn find_from<A>(s: Seq<A>, p: Seq<A>, i: int) -> Option<int>
    decreases s.len() + 1 - i,
{
    if i < 0 || i + p.len() > s.len() {
        None
    } else if occurs_at(s, p, i) {
        Some(i)
    } else {
        find_from(s, p, i + 1)
    }
}

/// The first index at which `p` occurs in `s` (what `str::find` gives, counted in characters).
pub open spec fn find<A>(s: Seq<A>, p: Seq<A>) -> Option<int> {
    find_from(s, p, 0)
}

/// `s` contains `p` (what `str::contains` tests).
pub open spec fn contains<A>(s: Seq<A>, p: Seq<A>) -> bool {
    find(s, p) is Some
}

/// The last index `<= i` at which `p` occurs in `s`.
pub open spec fn rfind_upto<A>(s: Seq<A>, p: Seq<A>, i: int) -> Option<int>
    decreases i + 1,
{
    if i < 0 {
        None
    } else if occurs_at(s, p, i) {
        Some(i)
    } else {
        rfind_upto(s, p, i - 1)
    }
}

/// The last index at which `p` occurs in `s`.
pub open spec fn rfind<A>(s: Seq<A>, p: Seq<A>) -> Option<int> {
    rfind_upto(s, p, s.len() - p.len())
}

/// What `find_from` returns is an occurrence, and none lies before it.
pub proof fn lemma_find_from<A>(s: Seq<A>, p: Seq<A>, i: int)
    requires
        0 <= i,
    ensures
        find_from(s, p, i) matches Some(k) ==> i <= k && occurs_at(s, p, k) && forall|j: int|
            i <= j < k ==> !#[trigger] occurs_at(s, p, j),
        find_from(s, p, i) is None ==> forall|j: int| i <= j ==> !#[trigger] occurs_at(s, p, j),
    decreases s.len() + 1 - i,
{
    if i + p.len() > s.len() {
    } else if occurs_at(s, p, i) {
    } else {
        lemma_find_from(s, p, i + 1);
    }
}

/// What `rfind_upto` returns is an occurrence, and none lies after it (up to `i`).
pub proof fn lemma_rfind_upto<A>(s: Seq<A>, p: Seq<A>, i: int)
    ensures
        rfind_upto(s, p, i) matches Some(k) ==> 0 <= k <= i && occurs_at(s, p, k) && forall|
            j: int,
        | k < j <= i ==> !#[trigger] occurs_at(s, p, j),
        rfind_upto(s, p, i) is None ==> forall|j: int| j <= i ==> !#[trigger] occurs_at(s, p, j),
    decreases i + 1,
{
    if i >= 0 && !occurs_at(s, p, i) {
        lemma_rfind_upto(s, p, i - 1);
    }
}

/// Whether `p` occurs in `s` at index `i`.
pub fn matches_at(s: &[char], p: &[char], i: usize) -> (r: bool)
    requires
        i <= s@.len(),
    ensures
        r == occurs_at(s@, p@, i as int),
{
    if p.len() > s.len() - i {
        return false;
    }
    let mut j: usize = 0;
    while j < p.len()
        invariant
            j <= p@.len(),
            s@.len() == s.len(),
            i + p@.len() <= s@.len(),
                forall|k: int| 0 <= k < j ==> s@[i + k] == p@[k],
        decreases p@.len() - j,
    {
        assert(i + j < s@.len());
        if s[i + j] != p[j] {
            assert(s@.subrange(i as int, i + p@.len())[j as int] == s@[i + j]);
            return false;
        }
        j = j + 1;
    }
    assert(s@.subrange(i as int, i + p@.len()) =~= p@);
    true
}

/// The first occurrence of `p` in `s` (counted in elements).
pub fn find_in(s: &[char], p: &[char]) -> (r: Option<usize>)
    ensures
        r matches Some(k) ==> find(s@, p@) == Some(k as int),
        r is None ==> find(s@, p@) is None,
{
    if p.len() > s.len() {
        return None;
    }
    let mut i: usize = 0;
    loop
        invariant
            p@.len() <= s@.len(),
            s@.len() == s.len(),
            p@.len() == p.len(),
            i <= s@.len() - p@.len(),
            find_from(s@, p@, i as int) == find(s@, p@),
        decreases s@.len() - p@.len() - i,
    {
        if matches_at(s, p, i) {
            return Some(i);
        }
        if i == s.len() - p.len() {
            assert(find_from(s@, p@, i + 1) is None);
            return None;
        }
        i = i + 1;
    }
}

/// The last occurrence of `p` in `s` (counted in elements).
pub fn rfind_in(s: &[char], p: &[char]) -> (r: Option<usize>)
    requires
    ensures
        r matches Some(k) ==> rfind(s@, p@) == Some(k as int),
        r is None ==> rfind(s@, p@) is None,
{
    if p.len() > s.len() {
        return None;
    }
    let mut i: usize = s.len() - p.len();
    loop
        invariant
            p@.len() <= s@.len(),
            i <= s@.len() - p@.len(),
            rfind_upto(s@, p@, i as int) == rfind(s@, p@),
            decreases i,
    {
        if matches_at(s, p, i) {
            return Some(i);
        }
        if i == 0 {
            assert(rfind_upto(s@, p@, -1) is None);
            return None;
        }
        i = i - 1;
    }
}


/// The characters `s[a..b]` as a new vector.
pub fn subvec(s: &[char], a: usize, b: usize) -> (r: Vec<char>)
    requires
        a <= b <= s@.len(),
    ensures
        r@ == s@.subrange(a as int, b as int),
{
    let mut r: Vec<char> = Vec::new();
    let mut i = a;
    while i < b
        invariant
            a <= i <= b <= s@.len(),
            r@ == s@.subrange(a as int, i as int),
        decreases b - i,
    {
        r.push(s[i]);
        i = i + 1;
        assert(r@ =~= s@.subrange(a as int, i as int));
    }
    r
}

/// The first index of `c` in `s`.
pub fn find_char(s: &[char], c: char) -> (r: Option<usize>)
    ensures
        r matches Some(k) ==> find(s@, seq![c]) == Some(k as int),
        r is None ==> find(s@, seq![c]) is None,
{
    let p = vec![c];
    assert(p@ =~= seq![c]);
    find_in(s, p.as_slice())
}

/// A character in `'0'..='9'`.
pub open spec fn is_ascii_digit(c: char) -> bool {
    '0' <= c && c <= '9'
}

/// Every character of `s` is an ASCII digit.
pub open spec fn all_ascii_digits(s: Seq<char>) -> bool {
    forall|i: int| 0 <= i < s.len() ==> is_ascii_digit(#[trigger] s[i])
}

/// The value of the decimal numeral `s` (when all its characters are digits).
pub open spec fn decimal_value(s: Seq<char>) -> int
    decreases s.len(),
{
    if s.len() == 0 {
        0
    } else {
        decimal_value(s.drop_last()) * 10 + (s.last() as int - '0' as int)
    }
}

/// The digits that `u32::from_str` reads: `s` without one leading `+`.
pub open spec fn unsigned_digits(s: Seq<char>) -> Seq<char> {
    if s.len() > 0 && s[0] == '+' {
        s.drop_first()
    } else {
        s
    }
}

/// What `s.parse::<u32>()` gives: an optional `+`, then one or more decimal digits whose value
/// fits in a `u32`.
pub open spec fn parse_u32(s: Seq<char>) -> Option<u32> {
    let d = unsigned_digits(s);
    if d.len() > 0 && all_ascii_digits(d) && decimal_value(d) <= u32::MAX {
        Some(decimal_value(d) as u32)
    } else {
        None
    }
}

/// The decimal numeral `s` as a `u32` (`str::parse::<u32>`), `None` when it is not one.
pub fn parse_u32_chars(s: &[char]) -> (r: Option<u32>)
    ensures
        r == parse_u32(s@),
{
    let start: usize = if s.len() > 0 && s[0] == '+' {
        1
    } else {
        0
    };
    let ghost d = unsigned_digits(s@);
    assert(d =~= s@.subrange(start as int, s@.len() as int));
    if start == s.len() {
        return None;
    }
    let mut i = start;
    let mut v: u64 = 0;
    while i < s.len()
        invariant
            start <= i <= s@.len(),
            s@.len() == s.len(),
            d == s@.subrange(start as int, s@.len() as int),
            d == unsigned_digits(s@),
            forall|j: int| start <= j < i ==> is_ascii_digit(#[trigger] s@[j]),
            decimal_value(s@.subrange(start as int, i as int)) >= 0,
            v == if decimal_value(s@.subrange(start as int, i as int)) <= u32::MAX {
                decimal_value(s@.subrange(start as int, i as int))
            } else {
                u32::MAX + 1
            },
        decreases s@.len() - i,
    {
        let c = s[i];
        if !('0' <= c && c <= '9') {
            assert(d[i - start] == c);
            assert(!is_ascii_digit(d[i - start]));
            assert(!all_ascii_digits(d));
            return None;
        }
        let ghost prev = s@.subrange(start as int, i as int);
        let ghost next = s@.subrange(start as int, i + 1);
        assert(next.drop_last() =~= prev);
        let dg = (c as u32 - '0' as u32) as u64;
        assert(decimal_value(next) == decimal_value(prev) * 10 + dg);
        if v <= 0xFFFF_FFFF {
            v = v * 10 + dg;
            if v > 0xFFFF_FFFF {
                v = 0x1_0000_0000;
            }
        } else {
            assert(decimal_value(prev) * 10 >= decimal_value(prev)) by (nonlinear_arith)
                requires
                    decimal_value(prev) >= 0,
            ;
        }
        i = i + 1;
    }
    assert(s@.subrange(start as int, i as int) == d);
    assert(all_ascii_digits(d)) by {
        assert forall|j: int| 0 <= j < d.len() implies is_ascii_digit(#[trigger] d[j]) by {
            assert(d[j] == s@[start + j]);
        }
    }
    if v > 0xFFFF_FFFF {
        None
    } else {
        Some(v as u32)
    }
}


/// `s` split around its first `c` (what `str::split_once` gives for a character pattern).
pub open spec fn split_once(s: Seq<char>, c: char) -> Option<(Seq<char>, Seq<char>)> {
    match find(s, seq![c]) {
        Some(i) => Some((s.subrange(0, i), s.subrange(i + 1, s.len() as int))),
        None => None,
    }
}

/// Splits `s` around its first `c`.
pub fn split_once_chars(s: &[char], c: char) -> (r: Option<(Vec<char>, Vec<char>)>)
    ensures
        r matches Some(p) ==> split_once(s@, c) == Some((p.0@, p.1@)),
        r is None ==> split_once(s@, c) is None,
{
    match find_char(s, c) {
        Some(i) => {
            proof {
                lemma_find_from(s@, seq![c], 0);
                assert(s@.len() == s.len());
            }
            Some((subvec(s, 0, i), subvec(s, i + 1, s.len())))
        },
        None => None,
    }
}


/// What `str::to_lowercase` returns for `s` (Unicode lowercase mapping).
pub uninterp spec fn lowercase_of(s: Seq<char>) -> Seq<char>;

/// `str::to_lowercase`.
#[verifier::external_body]
pub fn to_lowercase(s: &str) -> (r: String)
    ensures
        r@ == lowercase_of(s@),
{
    s.to_lowercase()
}

/// `s` cut before the first occurrence of `p` and trimmed, or `s` itself when `p` does not occur.
pub open spec fn cut_at(s: Seq<char>, p: Seq<char>) -> Seq<char> {
    match find(s, p) {
        Some(i) => trim(s.subrange(0, i)),
        None => s,
    }
}

/// Trimming never lengthens a text.
pub proof fn lemma_trim_len(s: Seq<char>)
    ensures
        trim_start(s).len() <= s.len(),
        trim_end(s).len() <= s.len(),
        trim(s).len() <= s.len(),
{
    lemma_trim_start_len(s);
    lemma_trim_end_len(s);
    lemma_trim_end_len(trim_start(s));
}

proof fn lemma_trim_start_len(s: Seq<char>)
    ensures
        trim_start(s).len() <= s.len(),
    decreases s.len(),
{
    if s.len() > 0 && is_white_space(s[0]) {
        lemma_trim_start_len(s.drop_first());
    }
}

proof fn lemma_trim_end_len(s: Seq<char>)
    ensures
        trim_end(s).len() <= s.len(),
    decreases s.len(),
{
    if s.len() > 0 && is_white_space(s.last()) {
        lemma_trim_end_len(s.drop_last());
    }
}

/// Cutting never lengthens a text.
pub proof fn lemma_cut_at_len(s: Seq<char>, p: Seq<char>)
    ensures
        cut_at(s, p).len() <= s.len(),
{
    lemma_find_from(s, p, 0);
    if let Some(i) = find(s, p) {
        lemma_trim_len(s.subrange(0, i));
    }
}

/// Cuts `s` before the first occurrence of `p` and trims it; see [`cut_at`].
pub fn cut_at_chars(s: Vec<char>, p: &[char]) -> (r: Vec<char>)
    ensures
        r@ == cut_at(s@, p@),
{
    match find_in(s.as_slice(), p) {
        Some(i) => {
            proof {
                lemma_find_from(s@, p@, 0);
            }
            let (a, b) = trim_bounds(s.as_slice(), 0, i);
            subvec(s.as_slice(), a, b)
        },
        None => s,
    }
}

/// The characters of a string literal, as a vector.
pub fn literal_chars(s: &str) -> (r: Vec<char>)
    ensures
        r@ == s@,
{
    chars_of(s)
}

/// Whether `a` contains `b`.
pub fn contains_chars(a: &[char], b: &[char]) -> (r: bool)
    ensures
        r == contains(a@, b@),
{
    find_in(a, b).is_some()
}

/// `s` split at every `c` (what `str::split` gives for a character pattern), empty pieces
/// included.
pub open spec fn split_at_char(s: Seq<char>, c: char) -> Seq<Seq<char>>
    decreases s.len(),
{
    match find(s, seq![c]) {
        None => seq![s],
        Some(i) => {
            proof {
                lemma_find_from(s, seq![c], 0);
            }
            seq![s.subrange(0, i)] + split_at_char(s.subrange(i + 1, s.len() as int), c)
        },
    }
}

/// Splits `s` at every `c`.
pub fn split_chars(s: &[char], c: char) -> (r: Vec<Vec<char>>)
    ensures
        r.deep_view() == split_at_char(s@, c),
{
    let mut out: Vec<Vec<char>> = Vec::new();
    let mut rest = subvec(s, 0, s.len());
    assert(rest@ =~= s@);
    assert(out.deep_view() =~= seq![]);
    loop
        invariant
            out.deep_view() + split_at_char(rest@, c) == split_at_char(s@, c),
        decreases rest@.len(),
    {
        match find_char(rest.as_slice(), c) {
            None => {
                let ghost before = out.deep_view();
                assert(rest.deep_view() =~= rest@);
                out.push(rest);
                assert(out.deep_view() =~= before + seq![rest@]);
                return out;
            },
            Some(i) => {
                proof {
                    lemma_find_from(rest@, seq![c], 0);
                }
                assert(i < rest@.len());
                assert(rest@.len() == rest.len());
                let head = subvec(rest.as_slice(), 0, i);
                let tail = subvec(rest.as_slice(), i + 1, rest.len());
                let ghost before = out.deep_view();
                assert(head.deep_view() =~= head@);
                out.push(head);
                assert(out.deep_view() =~= before + seq![head@]);
                assert(before + split_at_char(rest@, c) =~= out.deep_view() + split_at_char(
                    tail@,
                    c,
                ));
                rest = tail;
            },
        }
    }
}

/// The non-empty words of `parts` joined by single spaces (what
/// `parts.filter(non-empty).join(" ")` gives).
pub open spec fn join_words(parts: Seq<Seq<char>>) -> Seq<char>
    decreases parts.len(),
{
    if parts.len() == 0 {
        seq![]
    } else {
        let init = join_words(parts.drop_last());
        let x = parts.last();
        if x.len() == 0 {
            init
        } else if init.len() == 0 {
            x
        } else {
            init + seq![' '] + x
        }
    }
}

/// Joins the non-empty words of `parts` by single spaces.
pub fn join_words_chars(parts: &Vec<Vec<char>>) -> (r: Vec<char>)
    ensures
        r@ == join_words(parts.deep_view()),
{
    let mut r: Vec<char> = Vec::new();
    let mut i: usize = 0;
    while i < parts.len()
        invariant
            i <= parts@.len(),
            r@ == join_words(parts.deep_view().take(i as int)),
        decreases parts@.len() - i,
    {
        let x = &parts[i];
        assert(parts.deep_view().take(i + 1).drop_last() =~= parts.deep_view().take(i as int));
        assert(parts.deep_view().take(i + 1).last() == x@);
        if x.len() > 0 {
            if r.len() > 0 {
                r.push(' ');
            }
            let mut j: usize = 0;
            let ghost base = r@;
            while j < x.len()
                invariant
                    j <= x@.len(),
                    r@ == base + x@.take(j as int),
                decreases x@.len() - j,
            {
                r.push(x[j]);
                j = j + 1;
                assert(r@ =~= base + x@.take(j as int));
            }
            assert(x@.take(x@.len() as int) =~= x@);
            assert(base.len() == 0 ==> base + x@ =~= x@);
        }
        i = i + 1;
    }
    assert(parts.deep_view().take(parts@.len() as int) =~= parts.deep_view());
    r
}


/// Whether `a` and `b` hold the same characters.
pub fn chars_eq(a: &[char], b: &[char]) -> (r: bool)
    ensures
        r == (a@ == b@),
{
    if a.len() != b.len() {
        return false;
    }
    let mut j: usize = 0;
    while j < a.len()
        invariant
            j <= a@.len(),
            a@.len() == b@.len(),
            forall|k: int| 0 <= k < j ==> a@[k] == b@[k],
        decreases a@.len() - j,
    {
        if a[j] != b[j] {
            return false;
        }
        j = j + 1;
    }
    assert(a@ =~= b@);
    true
}

/// The characters of `str::to_lowercase(s)`.
pub fn lowercase_chars(s: &str) -> (r: Vec<char>)
    ensures
        r@ == lowercase_of(s@),
{
    let l = to_lowercase(s);
    chars_of(l.as_str())
}

/// Appends the characters of `s` to `cs`.
pub fn push_str_chars(cs: &mut Vec<char>, s: &str)
    ensures
        final(cs)@ == old(cs)@ + s@,
{
    let t = chars_of(s);
    let ghost base = cs@;
    let mut j: usize = 0;
    while j < t.len()
        invariant
            j <= t@.len(),
            t@ == s@,
            cs@ == base + t@.take(j as int),
        decreases t@.len() - j,
    {
        cs.push(t[j]);
        j = j + 1;
        assert(cs@ =~= base + t@.take(j as int));
    }
    assert(t@.take(t@.len() as int) =~= t@);
}

/// `a` followed by `b`.
pub fn concat_str(a: &str, b: &str) -> (r: String)
    ensures
        r@ == a@ + b@,
{
    let mut cs = chars_of(a);
    push_str_chars(&mut cs, b);
    string_of_chars(&cs)
}

/// Whether `s` reads exactly `lit`.
pub fn str_eq(s: &str, lit: &str) -> (r: bool)
    ensures
        r == (s@ == lit@),
{
    let a = chars_of(s);
    let b = chars_of(lit);
    chars_eq(&a, &b)
}

/// `parts` joined by `sep` (what `parts.join(sep)` gives).
pub open spec fn join_sep(parts: Seq<Seq<char>>, sep: Seq<char>) -> Seq<char>
    decreases parts.len(),
{
    if parts.len() == 0 {
        seq![]
    } else if parts.len() == 1 {
        parts[0]
    } else {
        join_sep(parts.drop_last(), sep) + sep + parts.last()
    }
}

/// Joins `parts` by `sep`.
pub fn join_strings(parts: &[String], sep: &str) -> (r: String)
    ensures
        r@ == join_sep(parts.deep_view(), sep@),
{
    let mut cs: Vec<char> = Vec::new();
    let mut i: usize = 0;
    while i < parts.len()
        invariant
            i <= parts@.len(),
            cs@ == join_sep(parts.deep_view().take(i as int), sep@),
        decreases parts@.len() - i,
    {
        let ghost before = cs@;
        assert(parts.deep_view().take(i + 1).drop_last() =~= parts.deep_view().take(i as int));
        assert(parts.deep_view().take(i + 1).last() == parts[i as int]@);
        if i > 0 {
            push_str_chars(&mut cs, sep);
        }
        push_str_chars(&mut cs, parts[i].as_str());
        proof {
            if i == 0 {
                assert(cs@ =~= parts.deep_view().take(1)[0]);
            }
        }
        i = i + 1;
    }
    assert(parts.deep_view().take(i as int) =~= parts.deep_view());
    string_of_chars(&cs)
}

/// The code of `c` with ASCII upper case letters made lower case.
pub open spec fn ascii_lower(c: char) -> int {
    if 'A' <= c && c <= 'Z' {
        (c as u32) + 32
    } else {
        c as u32 as int
    }
}

/// `s` and `t` are equal ignoring ASCII case (`str::eq_ignore_ascii_case`), where `t` is lower
/// case ASCII.
pub open spec fn eq_ignore_ascii_case(s: Seq<char>, t: Seq<char>) -> bool {
    s.len() == t.len() && forall|i: int|
        0 <= i < s.len() ==> ascii_lower(#[trigger] s[i]) == t[i] as u32 as int
}

/// Whether `s` equals `t` ignoring ASCII case, for a lower case ASCII `t`.
pub fn eq_ignore_case(s: &[char], t: &[char]) -> (r: bool)
    ensures
        r == eq_ignore_ascii_case(s@, t@),
{
    if s.len() != t.len() {
        return false;
    }
    let mut i: usize = 0;
    while i < s.len()
        invariant
            i <= s@.len(),
            s@.len() == t@.len(),
            forall|j: int| 0 <= j < i ==> ascii_lower(#[trigger] s@[j]) == t@[j] as u32 as int,
        decreases s@.len() - i,
    {
        let c = s[i];
        let code: u32 = c as u32;
        let lower: u32 = if 'A' <= c && c <= 'Z' {
            code + 32
        } else {
            code
        };
        if lower != t[i] as u32 {
            return false;
        }
        i = i + 1;
    }
    true
}

/// The pieces of `parts`, each trimmed, the empty ones dropped.
pub open spec fn trimmed_nonempty(parts: Seq<Seq<char>>) -> Seq<Seq<char>>
    decreases parts.len(),
{
    if parts.len() == 0 {
        seq![]
    } else {
        let prev = trimmed_nonempty(parts.drop_last());
        let t = trim(parts.last());
        if t.len() == 0 {
            prev
        } else {
            prev.push(t)
        }
    }
}

/// The pieces of `parts`, trimmed, the empty ones dropped, as strings.
pub fn trimmed_nonempty_strings(parts: &Vec<Vec<char>>) -> (r: Vec<String>)
    ensures
        r.deep_view() == trimmed_nonempty(parts.deep_view()),
{
    let mut out: Vec<String> = Vec::new();
    let mut k: usize = 0;
    while k < parts.len()
        invariant
            k <= parts@.len(),
            out.deep_view() == trimmed_nonempty(parts.deep_view().take(k as int)),
        decreases parts@.len() - k,
    {
        assert(parts.deep_view().take(k + 1).drop_last() =~= parts.deep_view().take(k as int));
        assert(parts.deep_view().take(k + 1).last() == parts[k as int]@);
        let p = &parts[k];
        let (a, b) = trim_bounds(p.as_slice(), 0, p.len());
        assert(p@.subrange(0, p@.len() as int) =~= p@);
        if a < b {
            let t = string_from_chars(p.as_slice(), a, b);
            let ghost before = out.deep_view();
            out.push(t);
            assert(out.deep_view() =~= before.push(t@));
        }
        k = k + 1;
    }
    assert(parts.deep_view().take(k as int) =~= parts.deep_view());
    out
}

/// The decimal digit character of `d < 10`.
pub open spec fn digit_char(d: nat) -> char {
    ((48 + d) as u8) as char
}

/// The decimal numeral of `n`, without leading zeros.
pub open spec fn decimal(n: nat) -> Seq<char>
    decreases n,
{
    if n < 10 {
        seq![digit_char(n)]
    } else {
        decimal(n / 10).push(digit_char(n % 10))
    }
}

/// The decimal numeral of `v`, with a `-` when negative.
pub open spec fn signed_decimal(v: int) -> Seq<char> {
    if v < 0 {
        seq!['-'] + decimal((-v) as nat)
    } else {
        decimal(v as nat)
    }
}

/// Appends the decimal numeral of `n` to `cs`.
pub fn push_decimal(cs: &mut Vec<char>, n: u64)
    ensures
        final(cs)@ == old(cs)@ + decimal(n as nat),
    decreases n,
{
    if n >= 10 {
        push_decimal(cs, n / 10);
    }
    let d: u8 = (n % 10) as u8;
    let c = (48u8 + d) as char;
    let ghost before = cs@;
    cs.push(c);
    proof {
        if n >= 10 {
            assert(cs@ =~= old(cs)@ + decimal((n / 10) as nat).push(digit_char((n % 10) as nat)));
        } else {
            assert(cs@ =~= old(cs)@ + seq![digit_char(n as nat)]);
        }
    }
}

/// Appends the decimal numeral of `v` to `cs`, with a `-` when negative.
pub fn push_signed_decimal(cs: &mut Vec<char>, v: i64)
    requires
        v > i64::MIN,
    ensures
        final(cs)@ == old(cs)@ + signed_decimal(v as int),
{
    if v < 0 {
        cs.push('-');
        let ghost mid = cs@;
        push_decimal(cs, (-v) as u64);
        assert(cs@ =~= old(cs)@ + (seq!['-'] + decimal((-v) as nat)));
    } else {
        push_decimal(cs, v as u64);
    }
}

} // verus!
