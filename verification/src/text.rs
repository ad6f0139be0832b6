//! Character-sequence model of the `str` operations the parsers rely on
//! (`trim`, `trim_end_matches`, `strip_prefix`, `split_once`, `lines`,
//! `split_whitespace`, ...), each given as a spec function over `Seq<char>`
//! together with an executable counterpart over `Vec<char>`.
use vstd::prelude::*;
use vstd::string::StringExecFns;

verus! {

/// Unicode `White_Space` property, the set `char::is_whitespace` tests.
pub open spec fn is_ws(c: char) -> bool {
    ('\u{9}' <= c && c <= '\u{d}') || c == ' ' || c == '\u{85}' || c == '\u{a0}' || c
        == '\u{1680}' || ('\u{2000}' <= c && c <= '\u{200a}') || c == '\u{2028}' || c
        == '\u{2029}' || c == '\u{202f}' || c == '\u{205f}' || c == '\u{3000}'
}

pub fn is_ws_exec(c: char) -> (b: bool)
    ensures
        b == is_ws(c),
{
    ('\u{9}' <= c && c <= '\u{d}') || c == ' ' || c == '\u{85}' || c == '\u{a0}' || c
        == '\u{1680}' || ('\u{2000}' <= c && c <= '\u{200a}') || c == '\u{2028}' || c
        == '\u{2029}' || c == '\u{202f}' || c == '\u{205f}' || c == '\u{3000}'
}

/// A class of characters that a trim or a search looks for.
#[derive(Clone, Copy)]
pub enum CharClass {
    Whitespace,
    Exactly(char),
    LineBreak,
    PathSeparator,
}

pub open spec fn in_class(k: CharClass, c: char) -> bool {
    match k {
        CharClass::Whitespace => is_ws(c),
        CharClass::Exactly(x) => c == x,
        CharClass::LineBreak => c == '\n' || c == '\r',
        CharClass::PathSeparator => c == '/' || c == '\\',
    }
}

pub fn in_class_exec(k: CharClass, c: char) -> (b: bool)
    ensures
        b == in_class(k, c),
{
    match k {
        CharClass::Whitespace => is_ws_exec(c),
        CharClass::Exactly(x) => c == x,
        CharClass::LineBreak => c == '\n' || c == '\r',
        CharClass::PathSeparator => c == '/' || c == '\\',
    }
}

/// Index of the first character of `s` in class `k`.
pub open spec fn first_in(s: Seq<char>, k: CharClass) -> Option<int>
    decreases s.len(),
{
    if s.len() == 0 {
        None
    } else if in_class(k, s[0]) {
        Some(0)
    } else {
        match first_in(s.drop_first(), k) {
            Some(i) => Some(i + 1),
            None => None,
        }
    }
}

pub proof fn lemma_first_in(s: Seq<char>, k: CharClass)
    ensures
        first_in(s, k) matches Some(i) ==> {
            &&& 0 <= i < s.len()
            &&& in_class(k, s[i])
            &&& forall|j: int| 0 <= j < i ==> !in_class(k, #[trigger] s[j])
        },
        first_in(s, k) is None ==> forall|j: int| 0 <= j < s.len() ==> !in_class(k, #[trigger] s[j]),
    decreases s.len(),
{
    if s.len() > 0 {
        lemma_first_in(s.drop_first(), k);
        assert forall|j: int| 1 <= j < s.len() implies s[j] == s.drop_first()[j - 1] by {}
    }
}

pub proof fn lemma_first_in_at(s: Seq<char>, k: CharClass, i: int)
    requires
        0 <= i <= s.len(),
        forall|j: int| 0 <= j < i ==> !in_class(k, #[trigger] s[j]),
        i < s.len() ==> in_class(k, s[i]),
    ensures
        i < s.len() ==> first_in(s, k) == Some(i),
        i == s.len() ==> first_in(s, k) is None,
    decreases i,
{
    if i > 0 {
        let t = s.drop_first();
        assert forall|j: int| 0 <= j < i - 1 implies !in_class(k, #[trigger] t[j]) by {
            assert(t[j] == s[j + 1]);
        }
        if i < s.len() {
            assert(t[i - 1] == s[i]);
        }
        lemma_first_in_at(t, k, i - 1);
    }
}

/// `s` with every leading character of class `k` removed.
pub open spec fn trim_start_in(s: Seq<char>, k: CharClass) -> Seq<char>
    decreases s.len(),
{
    if s.len() > 0 && in_class(k, s[0]) {
        trim_start_in(s.drop_first(), k)
    } else {
        s
    }
}

/// `s` with every trailing character of class `k` removed.
pub open spec fn trim_end_in(s: Seq<char>, k: CharClass) -> Seq<char>
    decreases s.len(),
{
    if s.len() > 0 && in_class(k, s.last()) {
        trim_end_in(s.drop_last(), k)
    } else {
        s
    }
}

/// `str::trim`.
pub open spec fn trim(s: Seq<char>) -> Seq<char> {
    trim_end_in(trim_start_in(s, CharClass::Whitespace), CharClass::Whitespace)
}

/// `str::trim_end_matches` with a non-empty string pattern.
pub open spec fn trim_end_seq(s: Seq<char>, p: Seq<char>) -> Seq<char>
    recommends
        p.len() > 0,
    decreases s.len(),
{
    if p.len() > 0 && p.is_suffix_of(s) {
        trim_end_seq(s.subrange(0, s.len() - p.len()), p)
    } else {
        s
    }
}

/// `str::trim_start_matches` with a non-empty string pattern.
pub open spec fn trim_start_seq(s: Seq<char>, p: Seq<char>) -> Seq<char>
    recommends
        p.len() > 0,
    decreases s.len(),
{
    if p.len() > 0 && p.is_prefix_of(s) {
        trim_start_seq(s.skip(p.len() as int), p)
    } else {
        s
    }
}

/// `str::strip_prefix`.
pub open spec fn strip_prefix(s: Seq<char>, p: Seq<char>) -> Option<Seq<char>> {
    if p.is_prefix_of(s) {
        Some(s.skip(p.len() as int))
    } else {
        None
    }
}

/// `str::split_once` with a single-character delimiter.
pub open spec fn split_once(s: Seq<char>, c: char) -> Option<(Seq<char>, Seq<char>)> {
    match first_in(s, CharClass::Exactly(c)) {
        Some(i) => Some((s.take(i), s.skip(i + 1))),
        None => None,
    }
}

/// Copies a `&str` into a vector of its characters.
pub fn to_chars(s: &str) -> (v: Vec<char>)
    ensures
        v@ == s@,
{
    let n = s.unicode_len();
    let mut v: Vec<char> = Vec::new();
    let mut i: usize = 0;
    while i < n
        invariant
            n == s@.len(),
            i <= n,
            v@ == s@.take(i as int),
        decreases n - i,
    {
        v.push(s.get_char(i));
        assert(s@.take(i + 1) =~= s@.take(i as int).push(s@[i as int]));
        i += 1;
    }
    assert(s@.take(n as int) =~= s@);
    v
}

/// Calls `String::from_iter` on the characters of a slice. Claimed: the
/// string holds exactly those characters, in order.
#[verifier::external_body]
pub(crate) fn from_chars(cs: &[char]) -> (s: String)
    ensures
        s@ == cs@,
{
    String::from_iter(cs.iter())
}

/// Copy of `s[a..b]`.
pub fn slice_of(s: &[char], a: usize, b: usize) -> (v: Vec<char>)
    requires
        a <= b <= s@.len(),
    ensures
        v@ == s@.subrange(a as int, b as int),
{
    let mut v: Vec<char> = Vec::new();
    let mut i = a;
    while i < b
        invariant
            a <= i <= b,
            b <= s@.len(),
            v@ == s@.subrange(a as int, i as int),
        decreases b - i,
    {
        v.push(s[i]);
        assert(s@.subrange(a as int, i + 1) =~= s@.subrange(a as int, i as int).push(s@[i as int]));
        i += 1;
    }
    v
}

/// Position of the first character of class `k` at or after `from`.
pub fn find_in(s: &[char], k: CharClass, from: usize) -> (r: Option<usize>)
    requires
        from <= s@.len(),
    ensures
        r matches Some(i) ==> first_in(s@.skip(from as int), k) == Some(i - from) && from <= i
            < s@.len(),
        r is None ==> first_in(s@.skip(from as int), k) is None,
{
    let mut i = from;
    while i < s.len()
        invariant
            from <= i <= s@.len(),
            forall|j: int| from <= j < i ==> !in_class(k, #[trigger] s@[j]),
        decreases s@.len() - i,
    {
        if in_class_exec(k, s[i]) {
            proof {
                let t = s@.skip(from as int);
                assert forall|j: int| 0 <= j < i - from implies !in_class(k, #[trigger] t[j]) by {
                    assert(t[j] == s@[j + from]);
                }
                assert(t[i - from] == s@[i as int]);
                lemma_first_in_at(t, k, i - from);
            }
            return Some(i);
        }
        i += 1;
    }
    proof {
        let t = s@.skip(from as int);
        assert forall|j: int| 0 <= j < t.len() implies !in_class(k, #[trigger] t[j]) by {
            assert(t[j] == s@[j + from]);
        }
        lemma_first_in_at(t, k, t.len() as int);
    }
    None
}

/// `s` without its leading characters of class `k`.
pub fn trim_start_class(s: &[char], k: CharClass) -> (v: Vec<char>)
    ensures
        v@ == trim_start_in(s@, k),
{
    let mut i: usize = 0;
    assert(s@.skip(0) =~= s@);
    while i < s.len() && in_class_exec(k, s[i])
        invariant
            i <= s@.len(),
            trim_start_in(s@.skip(i as int), k) == trim_start_in(s@, k),
        decreases s@.len() - i,
    {
        assert(s@.skip(i as int).drop_first() =~= s@.skip(i + 1));
        i += 1;
    }
    assert(s@.skip(0) =~= s@);
    let v = slice_of(s, i, s.len());
    assert(v@ =~= s@.skip(i as int));
    v
}

/// `s` without its trailing characters of class `k`.
pub fn trim_end_class(s: &[char], k: CharClass) -> (v: Vec<char>)
    ensures
        v@ == trim_end_in(s@, k),
{
    let mut j: usize = s.len();
    assert(s@.take(j as int) =~= s@);
    while j > 0 && in_class_exec(k, s[j - 1])
        invariant
            j <= s@.len(),
            trim_end_in(s@.take(j as int), k) == trim_end_in(s@, k),
        decreases j,
    {
        assert(s@.take(j as int).drop_last() =~= s@.take(j - 1));
        j -= 1;
    }
    let v = slice_of(s, 0, j);
    assert(v@ =~= s@.take(j as int));
    v
}

/// `str::trim` over characters.
pub fn trim_chars(s: &[char]) -> (v: Vec<char>)
    ensures
        v@ == trim(s@),
{
    let a = trim_start_class(s, CharClass::Whitespace);
    trim_end_class(&a, CharClass::Whitespace)
}

/// Whether `p` is a prefix of `s[from..]`.
pub fn has_prefix_at(s: &[char], from: usize, p: &[char]) -> (b: bool)
    requires
        from <= s@.len(),
    ensures
        b == p@.is_prefix_of(s@.skip(from as int)),
{
    let n = s.len();
    if p.len() > n - from {
        return false;
    }
    let mut i: usize = 0;
    while i < p.len()
        invariant
            n == s@.len(),
            from + p@.len() <= s@.len(),
            i <= p@.len(),
            forall|j: int| 0 <= j < i ==> p@[j] == s@[from + j],
        decreases p@.len() - i,
    {
        if p[i] != s[from + i] {
            assert(s@.skip(from as int)[i as int] == s@[from + i]);
            return false;
        }
        i += 1;
    }
    assert forall|j: int| 0 <= j < p@.len() implies p@[j] == s@.skip(from as int)[j] by {
        assert(s@.skip(from as int)[j] == s@[from + j]);
    }
    true
}

/// Whether `p` is a suffix of `s[..end]`.
pub fn has_suffix_before(s: &[char], end: usize, p: &[char]) -> (b: bool)
    requires
        end <= s@.len(),
    ensures
        b == p@.is_suffix_of(s@.take(end as int)),
{
    if p.len() > end {
        return false;
    }
    let start = end - p.len();
    let mut i: usize = 0;
    while i < p.len()
        invariant
            start + p@.len() == end,
            end <= s@.len(),
            i <= p@.len(),
            forall|j: int| 0 <= j < i ==> p@[j] == s@[start + j],
        decreases p@.len() - i,
    {
        if p[i] != s[start + i] {
            assert(s@.take(end as int)[start + i] == s@[start + i]);
            return false;
        }
        i += 1;
    }
    true
}

/// `str::strip_prefix` over characters.
pub fn strip_prefix_chars(s: &[char], p: &[char]) -> (r: Option<Vec<char>>)
    ensures
        r matches Some(v) ==> strip_prefix(s@, p@) == Some(v@),
        r is None ==> strip_prefix(s@, p@) is None,
{
    assert(s@.skip(0) =~= s@);
    if has_prefix_at(s, 0, p) {
        let v = slice_of(s, p.len(), s.len());
        assert(v@ =~= s@.skip(p@.len() as int));
        Some(v)
    } else {
        None
    }
}

/// `str::trim_end_matches` with a non-empty string pattern.
pub fn trim_end_seq_chars(s: &[char], p: &[char]) -> (v: Vec<char>)
    requires
        p@.len() > 0,
    ensures
        v@ == trim_end_seq(s@, p@),
{
    let mut j: usize = s.len();
    assert(s@.take(j as int) =~= s@);
    while has_suffix_before(s, j, p)
        invariant
            j <= s@.len(),
            p@.len() > 0,
            trim_end_seq(s@.take(j as int), p@) == trim_end_seq(s@, p@),
        decreases j,
    {
        assert(s@.take(j as int).subrange(0, j - p@.len()) =~= s@.take(j - p@.len()));
        j -= p.len();
    }
    let v = slice_of(s, 0, j);
    assert(v@ =~= s@.take(j as int));
    v
}

/// `str::trim_start_matches` with a non-empty string pattern.
pub fn trim_start_seq_chars(s: &[char], p: &[char]) -> (v: Vec<char>)
    requires
        p@.len() > 0,
    ensures
        v@ == trim_start_seq(s@, p@),
{
    let mut i: usize = 0;
    let n = s.len();
    assert(s@.skip(0) =~= s@);
    while has_prefix_at(s, i, p)
        invariant
            n == s@.len(),
            i <= s@.len(),
            p@.len() > 0,
            trim_start_seq(s@.skip(i as int), p@) == trim_start_seq(s@, p@),
        decreases s@.len() - i,
    {
        assert(s@.skip(i as int).skip(p@.len() as int) =~= s@.skip(i + p@.len()));
        i += p.len();
    }
    let v = slice_of(s, i, s.len());
    assert(v@ =~= s@.skip(i as int));
    v
}

/// `str::split_once` with a single-character delimiter.
pub fn split_once_chars(s: &[char], c: char) -> (r: Option<(Vec<char>, Vec<char>)>)
    ensures
        r matches Some((a, b)) ==> split_once(s@, c) == Some((a@, b@)),
        r is None ==> split_once(s@, c) is None,
{
    assert(s@.skip(0) =~= s@);
    let n = s.len();
    match find_in(s, CharClass::Exactly(c), 0) {
        Some(i) => {
            let a = slice_of(s, 0, i);
            let b = slice_of(s, i + 1, n);
            assert(a@ =~= s@.take(i as int));
            assert(b@ =~= s@.skip(i + 1));
            Some((a, b))
        },
        None => None,
    }
}

/// Equality of two character sequences.
pub fn chars_eq(a: &[char], b: &[char]) -> (r: bool)
    ensures
        r == (a@ == b@),
{
    if a.len() != b.len() {
        return false;
    }
    let mut i: usize = 0;
    while i < a.len()
        invariant
            a@.len() == b@.len(),
            i <= a@.len(),
            forall|j: int| 0 <= j < i ==> a@[j] == b@[j],
        decreases a@.len() - i,
    {
        if a[i] != b[i] {
            return false;
        }
        i += 1;
    }
    assert(a@ =~= b@);
    true
}

/// Equality of a character sequence with a string.
pub fn eq_str(a: &[char], b: &str) -> (r: bool)
    ensures
        r == (a@ == b@),
{
    let bv = to_chars(b);
    chars_eq(a, &bv)
}

/// Equality of two strings.
pub fn str_eq(a: &str, b: &str) -> (r: bool)
    ensures
        r == (a@ == b@),
{
    let av = to_chars(a);
    eq_str(&av, b)
}

/// `s` followed by `t`.
pub fn concat_chars(s: &[char], t: &[char]) -> (v: Vec<char>)
    ensures
        v@ == s@ + t@,
{
    let mut v = slice_of(s, 0, s.len());
    assert(v@ =~= s@);
    let mut i: usize = 0;
    while i < t.len()
        invariant
            i <= t@.len(),
            v@ == s@ + t@.take(i as int),
        decreases t@.len() - i,
    {
        v.push(t[i]);
        assert(t@.take(i + 1) =~= t@.take(i as int).push(t@[i as int]));
        assert(s@ + t@.take(i + 1) =~= (s@ + t@.take(i as int)).push(t@[i as int]));
        i += 1;
    }
    assert(t@.take(t@.len() as int) =~= t@);
    v
}

/// Whether `c` occurs in `s`.
pub fn contains_char(s: &[char], c: char) -> (b: bool)
    ensures
        b == s@.contains(c),
{
    let mut i: usize = 0;
    while i < s.len()
        invariant
            i <= s@.len(),
            forall|j: int| 0 <= j < i ==> s@[j] != c,
        decreases s@.len() - i,
    {
        if s[i] == c {
            assert(s@[i as int] == c);
            return true;
        }
        i += 1;
    }
    false
}

/// An owned copy of `s`.
pub fn string_of(s: &str) -> (r: String)
    ensures
        r@ == s@,
{
    s.to_string()
}

/// `a` followed by `b`, as a new string.
pub fn concat_str(a: &str, b: &str) -> (r: String)
    ensures
        r@ == a@ + b@,
{
    let x = a.to_string();
    x.concat(b)
}

pub open spec fn is_digit(c: char) -> bool {
    '0' <= c && c <= '9'
}

pub open spec fn digit_value(c: char) -> int {
    (c as int) - ('0' as int)
}

/// The number a run of decimal digits spells.
pub open spec fn digits_value(s: Seq<char>) -> int
    decreases s.len(),
{
    if s.len() == 0 {
        0
    } else {
        digits_value(s.drop_last()) * 10 + digit_value(s.last())
    }
}

pub open spec fn all_digits(d: Seq<char>) -> bool {
    forall|i: int| 0 <= i < d.len() ==> is_digit(#[trigger] d[i])
}

/// The digits of a number with its optional leading sign removed.
pub open spec fn unsigned_part(s: Seq<char>) -> Seq<char> {
    if s.len() > 0 && (s[0] == '-' || s[0] == '+') {
        s.drop_first()
    } else {
        s
    }
}

/// `str::parse::<i64>`: an optional `+` or `-`, then one or more decimal
/// digits, the value within `i64`'s range.
pub open spec fn parse_i64(s: Seq<char>) -> Option<i64> {
    let digits = unsigned_part(s);
    let v = if s.len() > 0 && s[0] == '-' {
        -digits_value(digits)
    } else {
        digits_value(digits)
    };
    if digits.len() > 0 && all_digits(digits) && i64::MIN <= v <= i64::MAX {
        Some(v as i64)
    } else {
        None
    }
}

proof fn lemma_digits_value_nonneg(s: Seq<char>)
    requires
        forall|i: int| 0 <= i < s.len() ==> is_digit(#[trigger] s[i]),
    ensures
        digits_value(s) >= 0,
    decreases s.len(),
{
    if s.len() > 0 {
        assert forall|i: int| 0 <= i < s.drop_last().len() implies is_digit(
            #[trigger] s.drop_last()[i],
        ) by {
            assert(s.drop_last()[i] == s[i]);
        }
        lemma_digits_value_nonneg(s.drop_last());
    }
}

/// `str::parse::<i64>` over characters.
pub fn parse_i64_chars(s: &[char]) -> (r: Option<i64>)
    ensures
        r == parse_i64(s@),
{
    let n = s.len();
    let neg = n > 0 && s[0] == '-';
    let start: usize = if n > 0 && (s[0] == '-' || s[0] == '+') {
        1
    } else {
        0
    };
    let ghost digits = s@.skip(start as int);
    assert(digits =~= unsigned_part(s@));
    if start == n {
        return None;
    }
    // Accumulated magnitude; past `limit` only the fact of overflow matters.
    let limit: u64 = 9223372036854775808;
    let mut acc: u64 = 0;
    let mut over = false;
    let mut i = start;
    while i < n
        invariant
            n == s@.len(),
            start <= i <= n,
            digits == s@.skip(start as int),
            digits == unsigned_part(s@),
            neg == (s@.len() > 0 && s@[0] == '-'),
            forall|j: int| start <= j < i ==> is_digit(#[trigger] s@[j]),
            !over ==> acc as int == digits_value(digits.take(i - start)),
            !over ==> acc <= limit,
            over ==> digits_value(digits.take(i - start)) > limit,
            limit == 9223372036854775808u64,
        decreases n - i,
    {
        let c = s[i];
        if !('0' <= c && c <= '9') {
            assert(digits[i - start] == s@[i as int]);
            assert(!is_digit(digits[i - start]));
            assert(digits.len() > 0);
            assert(!all_digits(digits));
            return None;
        }
        let d = (c as u64) - ('0' as u64);
        proof {
            assert(digits.take(i + 1 - start).drop_last() =~= digits.take(i - start));
            assert(digits.take(i + 1 - start).last() == c);
            assert forall|j: int| 0 <= j < digits.take(i - start).len() implies is_digit(
                #[trigger] digits.take(i - start)[j],
            ) by {
                assert(digits.take(i - start)[j] == s@[j + start]);
            }
            lemma_digits_value_nonneg(digits.take(i - start));
        }
        if !over {
            if acc > (limit - d) / 10 {
                over = true;
            } else {
                acc = acc * 10 + d;
            }
        }
        i += 1;
    }
    proof {
        assert(digits.take(n - start) =~= digits);
        assert forall|j: int| 0 <= j < digits.len() implies is_digit(#[trigger] digits[j]) by {
            assert(digits[j] == s@[j + start]);
        }
    }
    if over {
        return None;
    }
    if neg {
        if acc == limit {
            Some(-9223372036854775807i64 - 1)
        } else {
            Some(-(acc as i64))
        }
    } else {
        if acc == limit {
            None
        } else {
            Some(acc as i64)
        }
    }
}

/// Splitting `a` + `c` + `b` at its first `c` gives back `a` and `b` when
/// `a` has no `c`.
pub proof fn lemma_split_once_concat(a: Seq<char>, c: char, b: Seq<char>)
    requires
        !a.contains(c),
    ensures
        split_once(a + seq![c] + b, c) == Some((a, b)),
{
    let s = a + seq![c] + b;
    assert forall|j: int| 0 <= j < a.len() implies !in_class(CharClass::Exactly(c), #[trigger] s[j]) by {
        assert(s[j] == a[j]);
    }
    assert(s[a.len() as int] == c);
    lemma_first_in_at(s, CharClass::Exactly(c), a.len() as int);
    assert(s.take(a.len() as int) =~= a);
    assert(s.skip(a.len() as int + 1) =~= b);
}

/// Whatever `split_once` splits off, joined back around the delimiter, is
/// the string split, and the first part has no delimiter.
pub proof fn lemma_split_once_rejoin(s: Seq<char>, c: char)
    ensures
        split_once(s, c) matches Some((a, b)) ==> s == a + seq![c] + b && !a.contains(c),
{
    lemma_first_in(s, CharClass::Exactly(c));
    if let Some(i) = first_in(s, CharClass::Exactly(c)) {
        assert(s =~= s.take(i) + seq![c] + s.skip(i + 1));
        assert forall|j: int| 0 <= j < s.take(i).len() implies s.take(i)[j] != c by {
            assert(s.take(i)[j] == s[j]);
        }
    }
}

/// `s` cut at every character of class `k` (the characters themselves
/// dropped), as `str::split` does: `n` delimiters give `n + 1` pieces.
pub open spec fn pieces(s: Seq<char>, k: CharClass) -> Seq<Seq<char>>
    decreases s.len(),
{
    match first_in(s, k) {
        None => seq![s],
        Some(i) => {
            proof {
                lemma_first_in(s, k);
            }
            seq![s.take(i)] + pieces(s.skip(i + 1), k)
        },
    }
}

pub open spec fn views(v: Seq<Vec<char>>) -> Seq<Seq<char>> {
    v.map_values(|x: Vec<char>| x@)
}

/// `str::split` at characters of class `k`.
pub fn split_pieces(s: &[char], k: CharClass) -> (out: Vec<Vec<char>>)
    ensures
        views(out@) == pieces(s@, k),
{
    let n = s.len();
    let mut out: Vec<Vec<char>> = Vec::new();
    let mut start: usize = 0;
    assert(s@.skip(0) =~= s@);
    loop
        invariant
            n == s@.len(),
            start <= n,
            views(out@) + pieces(s@.skip(start as int), k) == pieces(s@, k),
        decreases n - start,
    {
        let ghost rest = s@.skip(start as int);
        match find_in(s, k, start) {
            Some(i) => {
                let piece = slice_of(s, start, i);
                proof {
                    assert(piece@ =~= rest.take(i - start));
                    assert(rest.skip(i - start + 1) =~= s@.skip(i + 1));
                    assert(pieces(rest, k) == seq![rest.take(i - start)] + pieces(
                        rest.skip(i - start + 1),
                        k,
                    ));
                }
                let ghost prev = views(out@);
                out.push(piece);
                proof {
                    assert(views(out@) =~= prev.push(piece@));
                    assert(prev.push(piece@) + pieces(s@.skip(i + 1), k) =~= prev + (seq![piece@]
                        + pieces(s@.skip(i + 1), k)));
                }
                start = i + 1;
            },
            None => {
                let piece = slice_of(s, start, n);
                assert(piece@ =~= rest);
                let ghost prev = views(out@);
                out.push(piece);
                assert(views(out@) =~= prev.push(piece@));
                assert(prev + pieces(rest, k) =~= prev.push(piece@));
                return out;
            },
        }
    }
}

/// No piece holds a character of the class it was cut at.
pub proof fn lemma_pieces_free_of(s: Seq<char>, k: CharClass)
    ensures
        forall|i: int, j: int|
            0 <= i < pieces(s, k).len() && 0 <= j < pieces(s, k)[i].len() ==> !in_class(
                k,
                #[trigger] pieces(s, k)[i][j],
            ),
    decreases s.len(),
{
    lemma_first_in(s, k);
    match first_in(s, k) {
        None => {},
        Some(f) => {
            lemma_pieces_free_of(s.skip(f + 1), k);
            let rest = pieces(s.skip(f + 1), k);
            assert(pieces(s, k) == seq![s.take(f)] + rest);
            assert forall|i: int, j: int|
                0 <= i < pieces(s, k).len() && 0 <= j < pieces(s, k)[i].len() implies !in_class(
                k,
                #[trigger] pieces(s, k)[i][j],
            ) by {
                if i == 0 {
                    assert(pieces(s, k)[i][j] == s[j]);
                } else {
                    assert(pieces(s, k)[i] == rest[i - 1]);
                }
            }
        },
    }
}

pub proof fn lemma_pieces_nonempty(s: Seq<char>, k: CharClass)
    ensures
        pieces(s, k).len() >= 1,
{
}

/// A line with the `\r` of a `\r\n` ending removed.
pub open spec fn strip_cr(l: Seq<char>) -> Seq<char> {
    if l.len() > 0 && l.last() == '\r' {
        l.drop_last()
    } else {
        l
    }
}

/// `str::lines`: split at `\n`, each terminated line losing a `\r` before
/// its `\n`, an empty final piece (a trailing line ending) not counted.
pub open spec fn lines(s: Seq<char>) -> Seq<Seq<char>> {
    let p = pieces(s, CharClass::Exactly('\n'));
    let terminated = p.drop_last().map_values(|l: Seq<char>| strip_cr(l));
    if p.last().len() > 0 {
        terminated.push(p.last())
    } else {
        terminated
    }
}

fn strip_cr_vec(l: Vec<char>) -> (r: Vec<char>)
    ensures
        r@ == strip_cr(l@),
{
    let mut l = l;
    if l.len() > 0 && l[l.len() - 1] == '\r' {
        l.pop();
    }
    l
}

/// `str::lines` over characters.
pub fn lines_of(s: &[char]) -> (out: Vec<Vec<char>>)
    ensures
        views(out@) == lines(s@),
{
    let p = split_pieces(s, CharClass::Exactly('\n'));
    proof {
        lemma_pieces_nonempty(s@, CharClass::Exactly('\n'));
    }
    let ghost pv = pieces(s@, CharClass::Exactly('\n'));
    let n = p.len();
    let mut out: Vec<Vec<char>> = Vec::new();
    let mut i: usize = 0;
    while i + 1 < n
        invariant
            n == p@.len(),
            n >= 1,
            views(p@) == pv,
            i + 1 <= n,
            views(out@) == pv.take(i as int).map_values(|l: Seq<char>| strip_cr(l)),
        decreases n - i,
    {
        let ghost prev = views(out@);
        let line = strip_cr_vec(p[i].clone());
        assert(p@[i as int]@ == pv[i as int]);
        out.push(line);
        assert(views(out@) =~= prev.push(line@));
        assert(pv.take(i + 1).map_values(|l: Seq<char>| strip_cr(l)) =~= pv.take(i as int).map_values(
            |l: Seq<char>| strip_cr(l),
        ).push(strip_cr(pv[i as int])));
        i += 1;
    }
    assert(pv.take(i as int) =~= pv.drop_last());
    assert(p@[n - 1]@ == pv.last());
    if p[n - 1].len() > 0 {
        let ghost prev = views(out@);
        out.push(p[n - 1].clone());
        assert(views(out@) =~= prev.push(pv.last()));
    }
    out
}

/// `str::split_whitespace`: the non-empty runs between whitespace.
pub open spec fn words(s: Seq<char>) -> Seq<Seq<char>> {
    pieces(s, CharClass::Whitespace).filter(|w: Seq<char>| w.len() > 0)
}

/// `str::split_whitespace` over characters.
pub fn words_of(s: &[char]) -> (out: Vec<Vec<char>>)
    ensures
        views(out@) == words(s@),
{
    let p = split_pieces(s, CharClass::Whitespace);
    let ghost pv = pieces(s@, CharClass::Whitespace);
    let mut out: Vec<Vec<char>> = Vec::new();
    let mut i: usize = 0;
    while i < p.len()
        invariant
            views(p@) == pv,
            i <= p@.len(),
            views(out@) == pv.take(i as int).filter(|w: Seq<char>| w.len() > 0),
        decreases p@.len() - i,
    {
        assert(pv.take(i + 1) =~= pv.take(i as int).push(pv[i as int]));
        proof {
            pv.take(i as int).lemma_filter_push(pv[i as int], |w: Seq<char>| w.len() > 0);
        }
        assert(p@[i as int]@ == pv[i as int]);
        if p[i].len() > 0 {
            let ghost prev = views(out@);
            out.push(p[i].clone());
            assert(views(out@) =~= prev.push(pv[i as int]));
        }
        i += 1;
    }
    assert(pv.take(p@.len() as int) =~= pv);
    out
}

/// `items` joined with `sep` between consecutive items (`slice::join`).
pub open spec fn join(items: Seq<Seq<char>>, sep: Seq<char>) -> Seq<char>
    decreases items.len(),
{
    if items.len() == 0 {
        Seq::empty()
    } else if items.len() == 1 {
        items[0]
    } else {
        join(items.drop_last(), sep) + sep + items.last()
    }
}

/// `slice::join` over character vectors.
pub fn join_chars(items: &Vec<Vec<char>>, sep: &[char]) -> (r: Vec<char>)
    ensures
        r@ == join(views(items@), sep@),
{
    let mut r: Vec<char> = Vec::new();
    let mut i: usize = 0;
    while i < items.len()
        invariant
            i <= items@.len(),
            r@ == join(views(items@).take(i as int), sep@),
        decreases items@.len() - i,
    {
        let ghost iv = views(items@);
        assert(iv.take(i + 1).drop_last() =~= iv.take(i as int));
        assert(items@[i as int]@ == iv[i as int]);
        if i == 0 {
            r = slice_of(&items[i], 0, items[i].len());
            assert(r@ =~= iv[0]);
        } else {
            r = concat_chars(&concat_chars(&r, sep), &items[i]);
        }
        i += 1;
    }
    assert(views(items@).take(items@.len() as int) =~= views(items@));
    r
}

/// The character of a decimal digit.
pub open spec fn digit_char(d: int) -> char {
    if d == 0 {
        '0'
    } else if d == 1 {
        '1'
    } else if d == 2 {
        '2'
    } else if d == 3 {
        '3'
    } else if d == 4 {
        '4'
    } else if d == 5 {
        '5'
    } else if d == 6 {
        '6'
    } else if d == 7 {
        '7'
    } else if d == 8 {
        '8'
    } else {
        '9'
    }
}

/// The decimal text of a natural number, most significant digit first, as
/// integers display.
pub open spec fn decimal(n: nat) -> Seq<char>
    decreases n,
{
    if n < 10 {
        seq![digit_char(n as int)]
    } else {
        decimal(n / 10).push(digit_char((n % 10) as int))
    }
}

fn digit_char_exec(d: u64) -> (c: char)
    requires
        d < 10,
    ensures
        c == digit_char(d as int),
{
    if d == 0 {
        '0'
    } else if d == 1 {
        '1'
    } else if d == 2 {
        '2'
    } else if d == 3 {
        '3'
    } else if d == 4 {
        '4'
    } else if d == 5 {
        '5'
    } else if d == 6 {
        '6'
    } else if d == 7 {
        '7'
    } else if d == 8 {
        '8'
    } else {
        '9'
    }
}

fn decimal_chars(n: u64) -> (r: Vec<char>)
    ensures
        r@ == decimal(n as nat),
    decreases n,
{
    if n < 10 {
        let mut v: Vec<char> = Vec::new();
        v.push(digit_char_exec(n));
        v
    } else {
        let mut v = decimal_chars(n / 10);
        v.push(digit_char_exec(n % 10));
        v
    }
}

/// `n.to_string()` for an unsigned number.
pub fn decimal_of(n: u64) -> (r: String)
    ensures
        r@ == decimal(n as nat),
{
    from_chars(&decimal_chars(n))
}

} // verus!
