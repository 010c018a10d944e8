//! Character-level text utilities with exact specifications.
//!
//! Strings are viewed as sequences of Unicode scalar values (`Seq<char>`).
//! The specifications follow the documented behaviour of the corresponding
//! `str` methods of the standard library (`trim`, `lines`, `split`,
//! `split_whitespace`, `replace`, `parse`, integer `Display`).

use vstd::prelude::*;

verus! {

broadcast use vstd::string::group_string_axioms;

// ---------------------------------------------------------------------------
// Specifications
// ---------------------------------------------------------------------------

/// The Unicode `White_Space` property, which `char::is_whitespace` tests.
pub open spec fn is_ws(c: char) -> bool {
    let u = c as u32;
    ||| 0x09 <= u <= 0x0d
    ||| u == 0x20
    ||| u == 0x85
    ||| u == 0xa0
    ||| u == 0x1680
    ||| 0x2000 <= u <= 0x200a
    ||| u == 0x2028
    ||| u == 0x2029
    ||| u == 0x202f
    ||| u == 0x205f
    ||| u == 0x3000
}

/// `s` with leading white space removed (`str::trim_start`).
pub open spec fn trim_start(s: Seq<char>) -> Seq<char>
    decreases s.len(),
{
    if s.len() > 0 && is_ws(s[0]) {
        trim_start(s.drop_first())
    } else {
        s
    }
}

/// `s` with trailing white space removed (`str::trim_end`).
pub open spec fn trim_end(s: Seq<char>) -> Seq<char>
    decreases s.len(),
{
    if s.len() > 0 && is_ws(s.last()) {
        trim_end(s.drop_last())
    } else {
        s
    }
}

/// `s` with leading and trailing white space removed (`str::trim`).
pub open spec fn trim(s: Seq<char>) -> Seq<char> {
    trim_end(trim_start(s))
}

/// `true` iff `pat` occurs in `s` starting at position `i`.
pub open spec fn occurs_at(s: Seq<char>, pat: Seq<char>, i: int) -> bool {
    0 <= i && i + pat.len() <= s.len() && s.subrange(i, i + pat.len()) == pat
}

/// `str::contains` for a string pattern.
pub open spec fn contains(s: Seq<char>, pat: Seq<char>) -> bool {
    exists|i: int| #[trigger] occurs_at(s, pat, i)
}

/// Index of the first occurrence of `pat` in `s` at or after `i`.
pub open spec fn first_occ_from(s: Seq<char>, pat: Seq<char>, i: int) -> Option<int>
    decreases s.len() + 1 - i,
{
    if i < 0 || i > s.len() {
        None
    } else if occurs_at(s, pat, i) {
        Some(i)
    } else {
        first_occ_from(s, pat, i + 1)
    }
}

/// Index of the first occurrence of `pat` in `s` (`str::find`).
pub open spec fn first_occ(s: Seq<char>, pat: Seq<char>) -> Option<int> {
    first_occ_from(s, pat, 0)
}

/// The text before the first occurrence of `pat` (the first item of
/// `str::split(pat)`); all of `s` when `pat` does not occur.
pub open spec fn before_first(s: Seq<char>, pat: Seq<char>) -> Seq<char> {
    match first_occ(s, pat) {
        Some(i) => s.take(i),
        None => s,
    }
}

/// The second item of `str::split(pat)` (`split(pat).nth(1)`), when `pat`
/// occurs: the text after the first occurrence up to the next one.
pub open spec fn second_piece(s: Seq<char>, pat: Seq<char>) -> Option<Seq<char>> {
    match first_occ(s, pat) {
        Some(i) => Some(before_first(s.skip(i + pat.len()), pat)),
        None => None,
    }
}

/// The number of bytes of `c` in UTF-8.
pub open spec fn utf8_width(c: char) -> nat {
    let u = c as u32;
    if u < 0x80 {
        1
    } else if u < 0x800 {
        2
    } else if u < 0x10000 {
        3
    } else {
        4
    }
}

/// The number of bytes of `s` in UTF-8 (`str::len`).
pub open spec fn byte_len(s: Seq<char>) -> nat
    decreases s.len(),
{
    if s.len() == 0 {
        0
    } else {
        byte_len(s.drop_last()) + utf8_width(s.last())
    }
}

/// The number of leading characters of `s` that fill exactly `n` bytes,
/// searching from `k` characters on; `None` when byte `n` falls inside a
/// character or beyond the end.
pub open spec fn boundary_from(s: Seq<char>, n: int, k: int) -> Option<int>
    decreases s.len() + 1 - k,
{
    if k < 0 || k > s.len() {
        None
    } else if byte_len(s.take(k)) == n {
        Some(k)
    } else if byte_len(s.take(k)) > n {
        None
    } else {
        boundary_from(s, n, k + 1)
    }
}

/// The number of characters before byte offset `n` of `s`, when `n` is a
/// character boundary (`str::is_char_boundary`).
pub open spec fn boundary(s: Seq<char>, n: int) -> Option<int> {
    boundary_from(s, n, 0)
}

/// `str::starts_with` for a string pattern.
pub open spec fn starts_with(s: Seq<char>, pat: Seq<char>) -> bool {
    occurs_at(s, pat, 0)
}

/// `str::ends_with` for a string pattern.
pub open spec fn ends_with(s: Seq<char>, pat: Seq<char>) -> bool {
    pat.len() <= s.len() && occurs_at(s, pat, s.len() - pat.len())
}

/// A line without its `"\r"` terminator, if it has one.
pub open spec fn strip_cr(line: Seq<char>) -> Seq<char> {
    if line.len() > 0 && line.last() == '\r' {
        line.drop_last()
    } else {
        line
    }
}

/// Left-to-right reading of `s` for `str::lines`: the lines completed so far
/// (each ended by `'\n'`, with a `"\r\n"` ending removed) and the unfinished
/// current line.
pub open spec fn lines_state(s: Seq<char>) -> (Seq<Seq<char>>, Seq<char>)
    decreases s.len(),
{
    if s.len() == 0 {
        (Seq::empty(), Seq::empty())
    } else {
        let (done, cur) = lines_state(s.drop_last());
        if s.last() == '\n' {
            (done.push(strip_cr(cur)), Seq::empty())
        } else {
            (done, cur.push(s.last()))
        }
    }
}

/// `str::lines`: the lines of `s`; a final line terminator is optional, and a
/// last unterminated line is kept as it is.
pub open spec fn lines(s: Seq<char>) -> Seq<Seq<char>> {
    let (done, cur) = lines_state(s);
    if cur.len() == 0 {
        done
    } else {
        done.push(cur)
    }
}

/// Left-to-right reading of `s` for `str::split` on the character `sep`.
pub open spec fn split_state(s: Seq<char>, sep: char) -> (Seq<Seq<char>>, Seq<char>)
    decreases s.len(),
{
    if s.len() == 0 {
        (Seq::empty(), Seq::empty())
    } else {
        let (done, cur) = split_state(s.drop_last(), sep);
        if s.last() == sep {
            (done.push(cur), Seq::empty())
        } else {
            (done, cur.push(s.last()))
        }
    }
}

/// `str::split(sep)`: the pieces between separators, empty pieces included.
pub open spec fn split(s: Seq<char>, sep: char) -> Seq<Seq<char>> {
    let (done, cur) = split_state(s, sep);
    done.push(cur)
}

/// Left-to-right reading of `s` for `str::split_whitespace`.
pub open spec fn words_state(s: Seq<char>) -> (Seq<Seq<char>>, Seq<char>)
    decreases s.len(),
{
    if s.len() == 0 {
        (Seq::empty(), Seq::empty())
    } else {
        let (done, cur) = words_state(s.drop_last());
        if is_ws(s.last()) {
            if cur.len() > 0 {
                (done.push(cur), Seq::empty())
            } else {
                (done, cur)
            }
        } else {
            (done, cur.push(s.last()))
        }
    }
}

/// `str::split_whitespace`: the maximal runs of non-white-space characters.
pub open spec fn words(s: Seq<char>) -> Seq<Seq<char>> {
    let (done, cur) = words_state(s);
    if cur.len() > 0 {
        done.push(cur)
    } else {
        done
    }
}

/// `[T]::join(sep)` on strings.
pub open spec fn join(parts: Seq<Seq<char>>, sep: Seq<char>) -> Seq<char>
    decreases parts.len(),
{
    if parts.len() == 0 {
        Seq::empty()
    } else if parts.len() == 1 {
        parts[0]
    } else {
        join(parts.drop_last(), sep) + sep + parts.last()
    }
}

/// `str::replace(from, to)` for a non-empty pattern: every non-overlapping
/// occurrence, taken from left to right, is replaced.
pub open spec fn replace_all(s: Seq<char>, from: Seq<char>, to: Seq<char>) -> Seq<char>
    decreases s.len(),
{
    if from.len() == 0 || s.len() == 0 {
        s
    } else if starts_with(s, from) {
        to + replace_all(s.skip(from.len() as int), from, to)
    } else {
        seq![s[0]] + replace_all(s.drop_first(), from, to)
    }
}

/// `true` for the ASCII digits `'0'..='9'`.
pub open spec fn is_digit(c: char) -> bool {
    '0' <= c <= '9'
}

/// The value of an ASCII digit.
pub open spec fn digit_value(c: char) -> int {
    (c as u32) - ('0' as u32)
}

/// The ASCII digit for `d` in `0..10`.
pub open spec fn digit_char(d: int) -> char {
    ((d + ('0' as u32)) as u32) as char
}

/// `true` iff `s` is a non-empty run of ASCII digits.
pub open spec fn all_digits(s: Seq<char>) -> bool {
    s.len() > 0 && forall|i: int| 0 <= i < s.len() ==> is_digit(#[trigger] s[i])
}

/// The number written by the ASCII digits `s` (most significant first).
pub open spec fn digits_value(s: Seq<char>) -> nat
    decreases s.len(),
{
    if s.len() == 0 {
        0
    } else {
        (digits_value(s.drop_last()) * 10 + digit_value(s.last())) as nat
    }
}

/// The digits of `s` after an optional leading `'+'`.
pub open spec fn unsigned_body(s: Seq<char>) -> Seq<char> {
    if s.len() > 0 && s[0] == '+' {
        s.drop_first()
    } else {
        s
    }
}

/// `s.parse::<u32>()` succeeds: an optional `'+'`, at least one ASCII digit,
/// nothing else, and a value that fits in `u32`.
pub open spec fn parses_as_u32(s: Seq<char>) -> bool {
    all_digits(unsigned_body(s)) && digits_value(unsigned_body(s)) <= u32::MAX
}

/// The digits of `s` after an optional leading sign.
pub open spec fn signed_body(s: Seq<char>) -> Seq<char> {
    if s.len() > 0 && (s[0] == '-' || s[0] == '+') {
        s.drop_first()
    } else {
        s
    }
}

/// The number that `s.parse::<i64>()` reads, if it succeeds: an optional
/// sign, at least one ASCII digit, nothing else, and a value in range.
pub open spec fn parse_i64_spec(s: Seq<char>) -> Option<int> {
    let neg = s.len() > 0 && s[0] == '-';
    let body = signed_body(s);
    let v: int = if neg {
        -digits_value(body)
    } else {
        digits_value(body) as int
    };
    if all_digits(body) && i64::MIN <= v <= i64::MAX {
        Some(v)
    } else {
        None
    }
}

/// The decimal digits of `n` (integer `Display`).
pub open spec fn dec(n: nat) -> Seq<char>
    decreases n,
{
    if n < 10 {
        seq![digit_char(n as int)]
    } else {
        dec(n / 10).push(digit_char((n % 10) as int))
    }
}

/// Signed decimal text of `n` (integer `Display`).
pub open spec fn idec(n: int) -> Seq<char> {
    if n < 0 {
        seq!['-'] + dec((-n) as nat)
    } else {
        dec(n as nat)
    }
}

/// `format!("{:02}", n)`: the decimal text of `n`, padded with zeros after
/// the sign to a width of two.
pub open spec fn pad2(n: int) -> Seq<char> {
    if 0 <= n < 10 {
        seq!['0'] + dec(n as nat)
    } else {
        idec(n)
    }
}

/// Division that rounds toward zero, as Rust's integer `/` does.
pub open spec fn tdiv(a: int, b: int) -> int
    recommends
        b != 0,
{
    if a >= 0 {
        if b > 0 { a / b } else { -(a / (-b)) }
    } else {
        if b > 0 { -((-a) / b) } else { (-a) / (-b) }
    }
}

/// Remainder that takes the sign of the dividend, as Rust's integer `%` does.
pub open spec fn trem(a: int, b: int) -> int
    recommends
        b != 0,
{
    a - b * tdiv(a, b)
}

// ---------------------------------------------------------------------------
// Conversions between `str`/`String` and `Vec<char>`
// ---------------------------------------------------------------------------

/// Appends one character to a `String` (std `String::push`).
#[verifier::external_body]
pub(crate) fn push_char(s: &mut String, c: char)
    ensures
        final(s)@ == old(s)@.push(c),
{
    s.push(c)
}

/// The characters of `s`, in order.
pub fn chars_of(s: &str) -> (v: Vec<char>)
    ensures
        v@ == s@,
{
    let mut v: Vec<char> = Vec::new();
    for c in it: s.chars()
        invariant
            v@ == it.seq().take(it.index() as int),
            it.seq() == s@,
    {
        v.push(c);
    }
    v
}

/// A `String` holding exactly the characters of `v`.
pub fn string_of(v: &[char]) -> (s: String)
    ensures
        s@ == v@,
{
    let mut s = String::new();
    let mut i: usize = 0;
    while i < v.len()
        invariant
            i <= v@.len(),
            s@ == v@.take(i as int),
        decreases v@.len() - i,
    {
        push_char(&mut s, v[i]);
        assert(v@.take(i as int).push(v@[i as int]) =~= v@.take(i + 1));
        i += 1;
    }
    assert(v@.take(v@.len() as int) =~= v@);
    s
}

/// Appends the characters of `v` to `s`.
pub fn append_chars(s: &mut String, v: &[char])
    ensures
        final(s)@ == old(s)@ + v@,
{
    let mut i: usize = 0;
    while i < v.len()
        invariant
            i <= v@.len(),
            s@ == old(s)@ + v@.take(i as int),
        decreases v@.len() - i,
    {
        push_char(s, v[i]);
        assert(v@.take(i as int).push(v@[i as int]) =~= v@.take(i + 1));
        i += 1;
    }
    assert(v@.take(v@.len() as int) =~= v@);
}

/// Appends `t` to `s`.
pub fn append_str(s: &mut String, t: &str)
    ensures
        final(s)@ == old(s)@ + t@,
{
    let v = chars_of(t);
    append_chars(s, v.as_slice());
}

/// A fresh `String` equal to `t`.
pub fn owned(t: &str) -> (s: String)
    ensures
        s@ == t@,
{
    let v = chars_of(t);
    string_of(v.as_slice())
}

/// Concatenation of two strings.
pub fn concat2(a: &str, b: &str) -> (s: String)
    ensures
        s@ == a@ + b@,
{
    let mut s = owned(a);
    append_str(&mut s, b);
    s
}

/// Appends the characters of `w` to `v`.
pub fn extend_chars(v: &mut Vec<char>, w: &[char])
    ensures
        final(v)@ == old(v)@ + w@,
{
    let mut i: usize = 0;
    while i < w.len()
        invariant
            i <= w@.len(),
            v@ == old(v)@ + w@.take(i as int),
        decreases w@.len() - i,
    {
        v.push(w[i]);
        assert(w@.take(i as int).push(w@[i as int]) =~= w@.take(i + 1));
        i += 1;
    }
    assert(w@.take(w@.len() as int) =~= w@);
}

/// Appends the characters of `t` to `v`.
pub fn extend_str(v: &mut Vec<char>, t: &str)
    ensures
        final(v)@ == old(v)@ + t@,
{
    let w = chars_of(t);
    extend_chars(v, w.as_slice());
}

// ---------------------------------------------------------------------------
// Comparisons and searching
// ---------------------------------------------------------------------------

/// `true` iff the two character sequences are equal.
pub fn seq_eq(a: &[char], b: &[char]) -> (r: bool)
    ensures
        r == (a@ == b@),
{
    if a.len() != b.len() {
        return false;
    }
    let mut i: usize = 0;
    while i < a.len()
        invariant
            a@.len() == b@.len(),
            i <= a@.len(),
            forall|k: int| 0 <= k < i ==> a@[k] == b@[k],
        decreases a@.len() - i,
    {
        if a[i] != b[i] {
            return false;
        }
        i += 1;
    }
    assert(a@ =~= b@);
    true
}

/// `true` iff the two strings are equal.
pub fn str_eq(a: &str, b: &str) -> (r: bool)
    ensures
        r == (a@ == b@),
{
    let x = chars_of(a);
    let y = chars_of(b);
    seq_eq(x.as_slice(), y.as_slice())
}

/// `true` iff `pat` occurs in `s` at position `i`.
pub fn occurs_at_exec(s: &[char], pat: &[char], i: usize) -> (r: bool)
    ensures
        r == occurs_at(s@, pat@, i as int),
{
    if i > s.len() || pat.len() > s.len() - i {
        return false;
    }
    let n = s.len();
    let mut k: usize = 0;
    while k < pat.len()
        invariant
            n == s@.len(),
            i + pat@.len() <= s@.len(),
            i <= s@.len(),
            k <= pat@.len(),
            forall|j: int| 0 <= j < k ==> s@[i + j] == pat@[j],
        decreases pat@.len() - k,
    {
        assert(i + k < s@.len());
        if s[i + k] != pat[k] {
            assert(s@.subrange(i as int, i + pat@.len())[k as int] != pat@[k as int]);
            return false;
        }
        k += 1;
    }
    assert(s@.subrange(i as int, i + pat@.len()) =~= pat@);
    true
}

/// `str::starts_with`.
pub fn starts_with_exec(s: &[char], pat: &[char]) -> (r: bool)
    ensures
        r == starts_with(s@, pat@),
{
    occurs_at_exec(s, pat, 0)
}

/// `str::ends_with`.
pub fn ends_with_exec(s: &[char], pat: &[char]) -> (r: bool)
    ensures
        r == ends_with(s@, pat@),
{
    if pat.len() > s.len() {
        false
    } else {
        occurs_at_exec(s, pat, s.len() - pat.len())
    }
}

/// `str::contains`.
pub fn contains_exec(s: &[char], pat: &[char]) -> (r: bool)
    ensures
        r == contains(s@, pat@),
{
    let mut i: usize = 0;
    loop
        invariant
            i <= s@.len(),
            forall|j: int| 0 <= j < i ==> !#[trigger] occurs_at(s@, pat@, j),
        decreases s@.len() - i,
    {
        if occurs_at_exec(s, pat, i) {
            return true;
        }
        if i == s.len() {
            assert forall|j: int| !#[trigger] occurs_at(s@, pat@, j) by {
                if 0 <= j <= i {
                } else {
                }
            }
            return false;
        }
        i += 1;
    }
}

/// `str::find` for a non-empty string pattern.
pub fn find_exec(s: &[char], pat: &[char]) -> (r: Option<usize>)
    ensures
        match r {
            Some(i) => first_occ(s@, pat@) == Some(i as int),
            None => first_occ(s@, pat@) is None,
        },
{
    let mut i: usize = 0;
    loop
        invariant
            i <= s@.len(),
            first_occ(s@, pat@) == first_occ_from(s@, pat@, i as int),
        decreases s@.len() - i,
    {
        if occurs_at_exec(s, pat, i) {
            return Some(i);
        }
        if i == s.len() {
            assert(first_occ_from(s@, pat@, i + 1) is None);
            return None;
        }
        i += 1;
    }
}

/// A copy of `s[a..b]`.
pub fn sub_chars(s: &[char], a: usize, b: usize) -> (r: Vec<char>)
    requires
        a <= b <= s@.len(),
    ensures
        r@ == s@.subrange(a as int, b as int),
{
    let mut r: Vec<char> = Vec::new();
    let mut i: usize = a;
    while i < b
        invariant
            a <= i <= b <= s@.len(),
            r@ == s@.subrange(a as int, i as int),
        decreases b - i,
    {
        r.push(s[i]);
        assert(s@.subrange(a as int, i as int).push(s@[i as int]) =~= s@.subrange(a as int, i + 1));
        i += 1;
    }
    r
}

/// The text before the first occurrence of `pat` (`split(pat).next()`).
pub fn before_first_exec(s: &[char], pat: &[char]) -> (r: Vec<char>)
    ensures
        r@ == before_first(s@, pat@),
{
    proof {
        lemma_first_occ(s@, pat@);
    }
    match find_exec(s, pat) {
        Some(i) => sub_chars(s, 0, i),
        None => sub_chars(s, 0, s.len()),
    }
}

/// `split(pat).nth(1)`.
pub fn second_piece_exec(s: &[char], pat: &[char]) -> (r: Option<Vec<char>>)
    ensures
        match r {
            Some(v) => second_piece(s@, pat@) == Some(v@),
            None => second_piece(s@, pat@) is None,
        },
{
    proof {
        lemma_first_occ(s@, pat@);
    }
    match find_exec(s, pat) {
        Some(i) => {
            let n = s.len();
            assert(i + pat@.len() <= n);
            let rest = sub_chars(s, i + pat.len(), n);
            assert(rest@ =~= s@.skip(i + pat@.len()));
            Some(before_first_exec(rest.as_slice(), pat))
        },
        None => None,
    }
}

proof fn lemma_first_occ_from_found(s: Seq<char>, pat: Seq<char>, i: int, k: int)
    requires
        first_occ_from(s, pat, i) == Some(k),
    ensures
        occurs_at(s, pat, k),
        i <= k,
        forall|j: int| i <= j < k ==> !#[trigger] occurs_at(s, pat, j),
    decreases s.len() + 1 - i,
{
    if i < 0 || i > s.len() {
    } else if occurs_at(s, pat, i) {
    } else {
        lemma_first_occ_from_found(s, pat, i + 1, k);
    }
}

/// A pattern that occurs has a first occurrence.
pub proof fn lemma_contains_first_occ(s: Seq<char>, pat: Seq<char>)
    ensures
        contains(s, pat) ==> first_occ(s, pat) is Some,
{
    if contains(s, pat) {
        let i = choose|i: int| occurs_at(s, pat, i);
        lemma_first_occ_from_reaches(s, pat, 0, i);
    }
}

proof fn lemma_first_occ_from_reaches(s: Seq<char>, pat: Seq<char>, k: int, i: int)
    requires
        0 <= k <= i,
        occurs_at(s, pat, i),
    ensures
        first_occ_from(s, pat, k) is Some,
    decreases i - k,
{
    if !occurs_at(s, pat, k) {
        lemma_first_occ_from_reaches(s, pat, k + 1, i);
    }
}

/// Facts about a found first occurrence.
pub proof fn lemma_first_occ(s: Seq<char>, pat: Seq<char>)
    ensures
        first_occ(s, pat) matches Some(k) ==> {
            &&& occurs_at(s, pat, k)
            &&& forall|j: int| 0 <= j < k ==> !#[trigger] occurs_at(s, pat, j)
        },
{
    if let Some(k) = first_occ(s, pat) {
        lemma_first_occ_from_found(s, pat, 0, k);
    }
}

/// The UTF-8 width of a character (`char::len_utf8`).
pub fn utf8_width_exec(c: char) -> (r: usize)
    ensures
        r == utf8_width(c),
{
    let u = c as u32;
    if u < 0x80 {
        1
    } else if u < 0x800 {
        2
    } else if u < 0x10000 {
        3
    } else {
        4
    }
}

proof fn lemma_byte_len_push(s: Seq<char>, k: int)
    requires
        0 <= k < s.len(),
    ensures
        byte_len(s.take(k + 1)) == byte_len(s.take(k)) + utf8_width(s[k]),
{
    assert(s.take(k + 1).drop_last() =~= s.take(k));
}

pub proof fn lemma_byte_len_mono(s: Seq<char>, k: int, j: int)
    requires
        0 <= k <= j <= s.len(),
    ensures
        byte_len(s.take(k)) + (j - k) <= byte_len(s.take(j)),
    decreases j - k,
{
    if k < j {
        lemma_byte_len_mono(s, k, j - 1);
        lemma_byte_len_push(s, j - 1);
    }
}

/// Character count before byte offset `n` (at most `usize::MAX`), or `None`
/// when `n` is not a character boundary of `s`.
pub fn boundary_exec(s: &[char], n: usize) -> (r: Option<usize>)
    ensures
        match r {
            Some(k) => boundary(s@, n as int) == Some(k as int),
            None => boundary(s@, n as int) is None,
        },
{
    let mut k: usize = 0;
    let mut b: usize = 0;
    assert(s@.take(0) =~= Seq::<char>::empty());
    loop
        invariant
            k <= s@.len(),
            b == byte_len(s@.take(k as int)),
            b <= n,
            boundary(s@, n as int) == boundary_from(s@, n as int, k as int),
        decreases s@.len() - k,
    {
        if b == n {
            return Some(k);
        }
        if k == s.len() {
            assert(boundary_from(s@, n as int, k + 1) is None);
            return None;
        }
        let w = utf8_width_exec(s[k]);
        proof {
            lemma_byte_len_push(s@, k as int);
        }
        if w > n - b {
            assert(boundary_from(s@, n as int, k + 1) is None) by {
                lemma_boundary_from_past(s@, n as int, k + 1);
            }
            return None;
        }
        b = b + w;
        k += 1;
    }
}

proof fn lemma_boundary_from_past(s: Seq<char>, n: int, k: int)
    requires
        0 <= k <= s.len(),
        byte_len(s.take(k)) > n,
    ensures
        boundary_from(s, n, k) is None,
{
}

proof fn lemma_boundary_found(s: Seq<char>, n: int, k: int, j: int)
    requires
        boundary_from(s, n, k) == Some(j),
    ensures
        0 <= j <= s.len(),
        byte_len(s.take(j)) == n,
    decreases s.len() + 1 - k,
{
    if k < 0 || k > s.len() {
    } else if byte_len(s.take(k)) == n {
    } else if byte_len(s.take(k)) > n {
    } else {
        lemma_boundary_found(s, n, k + 1, j);
    }
}

/// A prefix is no longer (in bytes) than the whole.
pub proof fn lemma_byte_len_le_whole(s: Seq<char>, j: int)
    requires
        0 <= j <= s.len(),
    ensures
        byte_len(s.take(j)) <= byte_len(s),
{
    lemma_byte_len_mono(s, j, s.len() as int);
    assert(s.take(s.len() as int) =~= s);
}

/// Facts about a found boundary.
pub proof fn lemma_boundary(s: Seq<char>, n: int)
    ensures
        boundary(s, n) matches Some(j) ==> 0 <= j <= s.len() && byte_len(s.take(j)) == n,
{
    if let Some(j) = boundary(s, n) {
        lemma_boundary_found(s, n, 0, j);
    }
}

/// The byte length of the whole of `s` is a boundary.
pub proof fn lemma_boundary_whole(s: Seq<char>)
    ensures
        boundary(s, byte_len(s) as int) == Some(s.len() as int),
{
    lemma_boundary_whole_from(s, 0);
}

proof fn lemma_boundary_whole_from(s: Seq<char>, k: int)
    requires
        0 <= k <= s.len(),
    ensures
        boundary_from(s, byte_len(s) as int, k) == Some(s.len() as int),
    decreases s.len() - k,
{
    assert(s.take(s.len() as int) =~= s);
    if k < s.len() {
        lemma_byte_len_mono(s, k, s.len() as int);
        lemma_boundary_whole_from(s, k + 1);
    }
}

// ---------------------------------------------------------------------------
// White space
// ---------------------------------------------------------------------------

/// `char::is_whitespace`.
pub fn is_ws_exec(c: char) -> (r: bool)
    ensures
        r == is_ws(c),
{
    let u = c as u32;
    (0x09 <= u && u <= 0x0d) || u == 0x20 || u == 0x85 || u == 0xa0 || u == 0x1680 || (0x2000
        <= u && u <= 0x200a) || u == 0x2028 || u == 0x2029 || u == 0x202f || u == 0x205f || u
        == 0x3000
}

proof fn lemma_trim_start_skip(s: Seq<char>, i: int)
    requires
        0 <= i <= s.len(),
        forall|k: int| 0 <= k < i ==> is_ws(#[trigger] s[k]),
    ensures
        trim_start(s) == trim_start(s.skip(i)),
    decreases i,
{
    if i > 0 {
        assert(s.drop_first().skip(i - 1) =~= s.skip(i));
        lemma_trim_start_skip(s.drop_first(), i - 1);
    } else {
        assert(s.skip(0) =~= s);
    }
}

proof fn lemma_trim_end_take(s: Seq<char>, j: int)
    requires
        0 <= j <= s.len(),
        forall|k: int| j <= k < s.len() ==> is_ws(#[trigger] s[k]),
    ensures
        trim_end(s) == trim_end(s.take(j)),
    decreases s.len() - j,
{
    if j < s.len() {
        assert(s.drop_last().take(j) =~= s.take(j));
        lemma_trim_end_take(s.drop_last(), j);
    } else {
        assert(s.take(j) =~= s);
    }
}

/// `trim_start(s)` is a suffix of `s`.
pub proof fn lemma_trim_start_suffix(s: Seq<char>)
    ensures
        trim_start(s).len() <= s.len(),
        trim_start(s) == s.skip(s.len() - trim_start(s).len()),
    decreases s.len(),
{
    if s.len() > 0 && is_ws(s[0]) {
        lemma_trim_start_suffix(s.drop_first());
        let t = trim_start(s.drop_first());
        assert(s.drop_first().skip(s.drop_first().len() - t.len()) =~= s.skip(s.len() - t.len()));
    } else {
        assert(s.skip(0) =~= s);
    }
}

/// `trim_end(s)` is a prefix of `s`.
pub proof fn lemma_trim_end_prefix(s: Seq<char>)
    ensures
        trim_end(s).len() <= s.len(),
        trim_end(s) == s.take(trim_end(s).len() as int),
    decreases s.len(),
{
    if s.len() > 0 && is_ws(s.last()) {
        lemma_trim_end_prefix(s.drop_last());
        let t = trim_end(s.drop_last());
        assert(s.drop_last().take(t.len() as int) =~= s.take(t.len() as int));
    } else {
        assert(s.take(s.len() as int) =~= s);
    }
}

/// A pattern found in the trimmed text is found in the text.
pub proof fn lemma_contains_trim(s: Seq<char>, pat: Seq<char>)
    ensures
        contains(trim(s), pat) ==> contains(s, pat),
{
    lemma_trim_start_suffix(s);
    let st = trim_start(s);
    lemma_trim_end_prefix(st);
    let a = s.len() - st.len();
    if contains(trim(s), pat) {
        let i = choose|i: int| occurs_at(trim(s), pat, i);
        let t = trim(s);
        assert(t == st.take(t.len() as int));
        assert forall|k: int| 0 <= k < pat.len() implies s[a + i + k] == pat[k] by {
            assert(t.subrange(i, i + pat.len())[k] == pat[k]);
            assert(t[i + k] == st[i + k]);
            assert(st[i + k] == s[a + i + k]);
        }
        assert(s.subrange(a + i, a + i + pat.len()) =~= pat);
        assert(occurs_at(s, pat, a + i));
    }
}

/// Splitting text joined by a separator gives the pieces of each side.
pub proof fn lemma_split_concat(x: Seq<char>, sep: char, b: Seq<char>)
    ensures
        split(x.push(sep) + b, sep) == split(x, sep) + split(b, sep),
{
    lemma_split_state_concat(x, sep, b);
    let sb = split_state(b, sep);
    assert(split(x, sep) + sb.0.push(sb.1) =~= (split(x, sep) + sb.0).push(sb.1));
}

proof fn lemma_split_state_concat(x: Seq<char>, sep: char, b: Seq<char>)
    ensures
        split_state(x.push(sep) + b, sep) == (
            split(x, sep) + split_state(b, sep).0,
            split_state(b, sep).1,
        ),
    decreases b.len(),
{
    if b.len() == 0 {
        assert(x.push(sep) + b =~= x.push(sep));
        assert(x.push(sep).drop_last() =~= x);
        assert(split(x, sep) + Seq::<Seq<char>>::empty() =~= split(x, sep));
    } else {
        let y = x.push(sep) + b;
        assert(y.drop_last() =~= x.push(sep) + b.drop_last());
        assert(y.last() == b.last());
        lemma_split_state_concat(x, sep, b.drop_last());
        let (d, c) = split_state(b.drop_last(), sep);
        if b.last() == sep {
            assert((split(x, sep) + d).push(c) =~= split(x, sep) + d.push(c));
        }
    }
}

/// Text without the separator is a single piece.
pub proof fn lemma_split_single(a: Seq<char>, sep: char)
    requires
        forall|i: int| 0 <= i < a.len() ==> a[i] != sep,
    ensures
        split(a, sep) == seq![a],
    decreases a.len(),
{
    lemma_split_state_single(a, sep);
}

proof fn lemma_split_state_single(a: Seq<char>, sep: char)
    requires
        forall|i: int| 0 <= i < a.len() ==> a[i] != sep,
    ensures
        split_state(a, sep) == (Seq::<Seq<char>>::empty(), a),
    decreases a.len(),
{
    if a.len() > 0 {
        lemma_split_state_single(a.drop_last(), sep);
        assert(a.drop_last().push(a.last()) =~= a);
    }
}

/// The trimmed end of `s` keeps every character up to a non-white-space one.
pub proof fn lemma_trim_end_keeps(s: Seq<char>, k: int)
    requires
        0 <= k < s.len(),
        !is_ws(s[k]),
    ensures
        trim_end(s).len() > k,
    decreases s.len(),
{
    if is_ws(s.last()) {
        lemma_trim_end_keeps(s.drop_last(), k);
    }
}

proof fn lemma_trim_start_first(s: Seq<char>)
    ensures
        trim_start(s).len() > 0 ==> !is_ws(trim_start(s)[0]),
    decreases s.len(),
{
    if s.len() > 0 && is_ws(s[0]) {
        lemma_trim_start_first(s.drop_first());
    }
}

proof fn lemma_trim_end_last(s: Seq<char>)
    ensures
        trim_end(s).len() > 0 ==> !is_ws(trim_end(s).last()),
    decreases s.len(),
{
    if s.len() > 0 && is_ws(s.last()) {
        lemma_trim_end_last(s.drop_last());
    }
}

/// Trimming twice is trimming once; trimmed text starts and ends with a
/// character that is not white space.
pub proof fn lemma_trim_idempotent(s: Seq<char>)
    ensures
        trim(trim(s)) == trim(s),
        trim(s).len() > 0 ==> !is_ws(trim(s)[0]) && !is_ws(trim(s).last()),
{
    let st = trim_start(s);
    let t = trim_end(st);
    lemma_trim_start_first(s);
    lemma_trim_end_prefix(st);
    lemma_trim_end_last(st);
    if t.len() > 0 {
        assert(t[0] == st[0]);
        assert(trim_start(t) == t);
        assert(trim_end(t) == t);
    } else {
        assert(trim_start(t) == t);
        assert(trim_end(t) == t);
    }
}

/// A character absent from `s` is absent from `trim(s)`.
pub proof fn lemma_trim_keeps_absent(s: Seq<char>, c: char)
    requires
        forall|i: int| 0 <= i < s.len() ==> s[i] != c,
    ensures
        forall|i: int| 0 <= i < trim(s).len() ==> trim(s)[i] != c,
{
    lemma_trim_start_suffix(s);
    let st = trim_start(s);
    lemma_trim_end_prefix(st);
    assert forall|i: int| 0 <= i < trim(s).len() implies trim(s)[i] != c by {
        assert(trim(s)[i] == st[i]);
        assert(st[i] == s[s.len() - st.len() + i]);
    }
}

proof fn lemma_lines_state_no_newline(s: Seq<char>)
    ensures
        forall|k: int, i: int|
            0 <= k < lines_state(s).0.len() && 0 <= i < lines_state(s).0[k].len()
                ==> #[trigger] lines_state(s).0[k][i] != '\n',
        forall|i: int| 0 <= i < lines_state(s).1.len() ==> #[trigger] lines_state(s).1[i] != '\n',
    decreases s.len(),
{
    if s.len() > 0 {
        lemma_lines_state_no_newline(s.drop_last());
        let (done, cur) = lines_state(s.drop_last());
        if s.last() == '\n' {
            let c = strip_cr(cur);
            assert forall|i: int| 0 <= i < c.len() implies c[i] != '\n' by {
                assert(c[i] == cur[i]);
            }
            assert forall|k: int, i: int|
                0 <= k < done.push(c).len() && 0 <= i < done.push(c)[k].len() implies #[trigger] done.push(
                c,
            )[k][i] != '\n' by {
                if k < done.len() {
                    assert(done.push(c)[k] == done[k]);
                }
            }
        } else {
            assert forall|i: int| 0 <= i < cur.push(s.last()).len() implies #[trigger] cur.push(
                s.last(),
            )[i] != '\n' by {
                if i < cur.len() {
                    assert(cur.push(s.last())[i] == cur[i]);
                }
            }
        }
    }
}

/// No line of `s` holds a line feed.
pub proof fn lemma_lines_no_newline(s: Seq<char>)
    ensures
        forall|k: int, i: int|
            0 <= k < lines(s).len() && 0 <= i < lines(s)[k].len() ==> #[trigger] lines(s)[k][i]
                != '\n',
{
    lemma_lines_state_no_newline(s);
    let (done, cur) = lines_state(s);
    if cur.len() > 0 {
        assert forall|k: int, i: int|
            0 <= k < done.push(cur).len() && 0 <= i < done.push(cur)[k].len() implies #[trigger] done.push(
            cur,
        )[k][i] != '\n' by {
            if k < done.len() {
                assert(done.push(cur)[k] == done[k]);
            }
        }
    }
}

proof fn lemma_lines_state_append(p: Seq<char>, y: Seq<char>)
    requires
        forall|i: int| 0 <= i < y.len() ==> y[i] != '\n',
    ensures
        lines_state(p + y) == (lines_state(p).0, lines_state(p).1 + y),
    decreases y.len(),
{
    if y.len() == 0 {
        assert(p + y =~= p);
        assert(lines_state(p).1 + y =~= lines_state(p).1);
    } else {
        assert((p + y).drop_last() =~= p + y.drop_last());
        assert((p + y).last() == y.last());
        lemma_lines_state_append(p, y.drop_last());
        assert((lines_state(p).1 + y.drop_last()).push(y.last()) =~= lines_state(p).1 + y);
    }
}

proof fn lemma_lines_state_of_join(parts: Seq<Seq<char>>)
    requires
        parts.len() > 0,
        forall|k: int, i: int|
            0 <= k < parts.len() && 0 <= i < parts[k].len() ==> #[trigger] parts[k][i] != '\n',
        forall|k: int|
            0 <= k < parts.len() ==> #[trigger] parts[k].len() > 0 && parts[k].last() != '\r',
    ensures
        lines_state(join(parts, seq!['\n'])) == (parts.drop_last(), parts.last()),
    decreases parts.len(),
{
    let last = parts.last();
    assert(forall|i: int| 0 <= i < last.len() ==> last[i] != '\n') by {
        assert forall|i: int| 0 <= i < last.len() implies last[i] != '\n' by {
            assert(parts[parts.len() - 1][i] != '\n');
        }
    }
    if parts.len() == 1 {
        lemma_lines_state_append(Seq::empty(), last);
        assert(Seq::<char>::empty() + last =~= last);
        assert(Seq::<char>::empty() + last =~= parts[0]);
        assert(parts.drop_last() =~= Seq::<Seq<char>>::empty());
    } else {
        let p = parts.drop_last();
        assert forall|k: int, i: int| 0 <= k < p.len() && 0 <= i < p[k].len() implies #[trigger] p[k][i]
            != '\n' by {
            assert(p[k] == parts[k]);
        }
        assert forall|k: int| 0 <= k < p.len() implies #[trigger] p[k].len() > 0 && p[k].last()
            != '\r' by {
            assert(p[k] == parts[k]);
        }
        lemma_lines_state_of_join(p);
        let x = join(p, seq!['\n']);
        assert(join(parts, seq!['\n']) =~= x.push('\n') + last);
        assert(x.push('\n').drop_last() =~= x);
        let plast = p.last();
        assert(plast == parts[parts.len() - 2]);
        assert(strip_cr(plast) == plast);
        assert(lines_state(x.push('\n')) == (p.drop_last().push(plast), Seq::<char>::empty()));
        assert(p.drop_last().push(plast) =~= p);
        lemma_lines_state_append(x.push('\n'), last);
        assert(Seq::<char>::empty() + last =~= last);
    }
}

/// Non-empty lines without line feeds that do not end in a carriage return
/// are read back by `lines` from their join with `\n`.
pub proof fn lemma_lines_of_join(parts: Seq<Seq<char>>)
    requires
        forall|k: int, i: int|
            0 <= k < parts.len() && 0 <= i < parts[k].len() ==> #[trigger] parts[k][i] != '\n',
        forall|k: int|
            0 <= k < parts.len() ==> #[trigger] parts[k].len() > 0 && parts[k].last() != '\r',
    ensures
        lines(join(parts, seq!['\n'])) == parts,
{
    if parts.len() == 0 {
        assert(lines_state(Seq::<char>::empty()) == (Seq::<Seq<char>>::empty(), Seq::<char>::empty()));
    } else {
        lemma_lines_state_of_join(parts);
        assert(parts.last().len() > 0) by {
            assert(parts[parts.len() - 1].len() > 0);
        }
        assert(parts.drop_last().push(parts.last()) =~= parts);
    }
}

/// `str::trim` on a character sequence.
pub fn trim_chars(s: &[char]) -> (r: Vec<char>)
    ensures
        r@ == trim(s@),
{
    let mut a: usize = 0;
    while a < s.len() && is_ws_exec(s[a])
        invariant
            a <= s@.len(),
            forall|k: int| 0 <= k < a ==> is_ws(#[trigger] s@[k]),
        decreases s@.len() - a,
    {
        a += 1;
    }
    proof {
        lemma_trim_start_skip(s@, a as int);
    }
    let ghost t = s@.skip(a as int);
    assert(trim_start(t) == t);
    let mut b: usize = s.len();
    while b > a && is_ws_exec(s[b - 1])
        invariant
            a <= b <= s@.len(),
            t == s@.skip(a as int),
            forall|k: int| b - a <= k < t.len() ==> is_ws(#[trigger] t[k]),
        decreases b,
    {
        b -= 1;
    }
    proof {
        lemma_trim_end_take(t, (b - a) as int);
    }
    let mut r: Vec<char> = Vec::new();
    let mut i: usize = a;
    while i < b
        invariant
            a <= i <= b <= s@.len(),
            r@ == s@.subrange(a as int, i as int),
        decreases b - i,
    {
        r.push(s[i]);
        assert(s@.subrange(a as int, i as int).push(s@[i as int]) =~= s@.subrange(
            a as int,
            i + 1,
        ));
        i += 1;
    }
    assert(t.take(b - a) =~= s@.subrange(a as int, b as int));
    r
}

// ---------------------------------------------------------------------------
// Splitting and joining
// ---------------------------------------------------------------------------

/// The character sequences held by a vector of character vectors.
pub open spec fn views(v: Seq<Vec<char>>) -> Seq<Seq<char>> {
    v.map_values(|x: Vec<char>| x@)
}

/// The character sequences held by a vector of strings.
pub open spec fn string_views(v: Seq<String>) -> Seq<Seq<char>> {
    v.map_values(|x: String| x@)
}

/// `str::lines`.
pub fn lines_exec(s: &[char]) -> (r: Vec<Vec<char>>)
    ensures
        views(r@) == lines(s@),
{
    let mut done: Vec<Vec<char>> = Vec::new();
    let mut cur: Vec<char> = Vec::new();
    let mut i: usize = 0;
    while i < s.len()
        invariant
            i <= s@.len(),
            (views(done@), cur@) == lines_state(s@.take(i as int)),
        decreases s@.len() - i,
    {
        assert(s@.take(i + 1).drop_last() =~= s@.take(i as int));
        if s[i] == '\n' {
            if cur.len() > 0 && cur[cur.len() - 1] == '\r' {
                cur.pop();
            }
            let line = cur;
            done.push(line);
            cur = Vec::new();
            assert(views(done@) =~= lines_state(s@.take(i + 1)).0);
        } else {
            cur.push(s[i]);
        }
        i += 1;
    }
    assert(s@.take(s@.len() as int) =~= s@);
    if cur.len() > 0 {
        done.push(cur);
        assert(views(done@) =~= lines(s@));
    }
    done
}

/// `str::split` on one separator character.
pub fn split_exec(s: &[char], sep: char) -> (r: Vec<Vec<char>>)
    ensures
        views(r@) == split(s@, sep),
{
    let mut done: Vec<Vec<char>> = Vec::new();
    let mut cur: Vec<char> = Vec::new();
    let mut i: usize = 0;
    while i < s.len()
        invariant
            i <= s@.len(),
            (views(done@), cur@) == split_state(s@.take(i as int), sep),
        decreases s@.len() - i,
    {
        assert(s@.take(i + 1).drop_last() =~= s@.take(i as int));
        if s[i] == sep {
            let piece = cur;
            done.push(piece);
            cur = Vec::new();
            assert(views(done@) =~= split_state(s@.take(i + 1), sep).0);
        } else {
            cur.push(s[i]);
        }
        i += 1;
    }
    assert(s@.take(s@.len() as int) =~= s@);
    done.push(cur);
    assert(views(done@) =~= split(s@, sep));
    done
}

/// `str::split_whitespace`.
pub fn words_exec(s: &[char]) -> (r: Vec<Vec<char>>)
    ensures
        views(r@) == words(s@),
{
    let mut done: Vec<Vec<char>> = Vec::new();
    let mut cur: Vec<char> = Vec::new();
    let mut i: usize = 0;
    while i < s.len()
        invariant
            i <= s@.len(),
            (views(done@), cur@) == words_state(s@.take(i as int)),
        decreases s@.len() - i,
    {
        assert(s@.take(i + 1).drop_last() =~= s@.take(i as int));
        if is_ws_exec(s[i]) {
            if cur.len() > 0 {
                let w = cur;
                done.push(w);
                cur = Vec::new();
                assert(views(done@) =~= words_state(s@.take(i + 1)).0);
            }
        } else {
            cur.push(s[i]);
        }
        i += 1;
    }
    assert(s@.take(s@.len() as int) =~= s@);
    if cur.len() > 0 {
        done.push(cur);
        assert(views(done@) =~= words(s@));
    }
    done
}

/// `[String]::join(sep)` on character vectors.
pub fn join_exec(parts: &Vec<Vec<char>>, sep: &[char]) -> (r: Vec<char>)
    ensures
        r@ == join(views(parts@), sep@),
{
    let mut r: Vec<char> = Vec::new();
    let mut i: usize = 0;
    while i < parts.len()
        invariant
            i <= parts@.len(),
            r@ == join(views(parts@).take(i as int), sep@),
        decreases parts@.len() - i,
    {
        let ghost before = r@;
        assert(views(parts@).take(i + 1).drop_last() =~= views(parts@).take(i as int));
        if i > 0 {
            let mut k: usize = 0;
            while k < sep.len()
                invariant
                    k <= sep@.len(),
                    r@ == before + sep@.take(k as int),
                decreases sep@.len() - k,
            {
                r.push(sep[k]);
                assert(sep@.take(k as int).push(sep@[k as int]) =~= sep@.take(k + 1));
                k += 1;
            }
            assert(sep@.take(sep@.len() as int) =~= sep@);
        }
        let ghost mid = r@;
        let part = &parts[i];
        let mut k: usize = 0;
        while k < part.len()
            invariant
                k <= part@.len(),
                r@ == mid + part@.take(k as int),
            decreases part@.len() - k,
        {
            r.push(part[k]);
            assert(part@.take(k as int).push(part@[k as int]) =~= part@.take(k + 1));
            k += 1;
        }
        assert(part@.take(part@.len() as int) =~= part@);
        if i == 0 {
            assert(r@ =~= join(views(parts@).take(1), sep@));
        } else {
            assert(r@ =~= join(views(parts@).take(i + 1), sep@));
        }
        i += 1;
    }
    assert(views(parts@).take(parts@.len() as int) =~= views(parts@));
    r
}

/// `str::replace(from, to)` for a non-empty pattern.
pub fn replace_all_exec(s: &[char], from: &[char], to: &[char]) -> (r: Vec<char>)
    requires
        from@.len() > 0,
    ensures
        r@ == replace_all(s@, from@, to@),
{
    let mut r: Vec<char> = Vec::new();
    let mut i: usize = 0;
    assert(s@.skip(0) =~= s@);
    assert(r@ + replace_all(s@, from@, to@) =~= replace_all(s@, from@, to@));
    while i < s.len()
        invariant
            i <= s@.len(),
            from@.len() > 0,
            r@ + replace_all(s@.skip(i as int), from@, to@) == replace_all(s@, from@, to@),
        decreases s@.len() - i,
    {
        let ghost rest = s@.skip(i as int);
        if occurs_at_exec(s, from, i) {
            assert(rest.subrange(0, from@.len() as int) =~= s@.subrange(
                i as int,
                i + from@.len(),
            ));
            assert(rest.skip(from@.len() as int) =~= s@.skip(i + from@.len()));
            let ghost before = r@;
            let mut k: usize = 0;
            while k < to.len()
                invariant
                    k <= to@.len(),
                    r@ == before + to@.take(k as int),
                decreases to@.len() - k,
            {
                r.push(to[k]);
                assert(to@.take(k as int).push(to@[k as int]) =~= to@.take(k + 1));
                k += 1;
            }
            assert(to@.take(to@.len() as int) =~= to@);
            assert(r@ + replace_all(s@.skip(i + from@.len()), from@, to@) =~= before + (to@
                + replace_all(rest.skip(from@.len() as int), from@, to@)));
            i = i + from.len();
        } else {
            assert(!starts_with(rest, from@)) by {
                if starts_with(rest, from@) {
                    assert(rest.subrange(0, from@.len() as int) =~= s@.subrange(
                        i as int,
                        i + from@.len(),
                    ));
                }
            }
            assert(rest.drop_first() =~= s@.skip(i + 1));
            let ghost before = r@;
            r.push(s[i]);
            assert(r@ + replace_all(s@.skip(i + 1), from@, to@) =~= before + (seq![rest[0]]
                + replace_all(rest.drop_first(), from@, to@)));
            i += 1;
        }
    }
    assert(s@.skip(s@.len() as int) =~= Seq::<char>::empty());
    assert(r@ + Seq::<char>::empty() =~= r@);
    r
}

// ---------------------------------------------------------------------------
// Numbers
// ---------------------------------------------------------------------------

proof fn lemma_digits_value_push(s: Seq<char>, c: char)
    requires
        is_digit(c),
    ensures
        digits_value(s.push(c)) == digits_value(s) * 10 + digit_value(c),
{
    assert(s.push(c).drop_last() =~= s);
}

/// `s.parse::<u32>().is_ok()`.
pub fn parses_as_u32_exec(s: &[char]) -> (r: bool)
    ensures
        r == parses_as_u32(s@),
{
    let start: usize = if s.len() > 0 && s[0] == '+' { 1 } else { 0 };
    let ghost body = unsigned_body(s@);
    assert(body =~= s@.skip(start as int));
    if start >= s.len() {
        return false;
    }
    let mut v: u64 = 0;
    let mut i: usize = start;
    while i < s.len()
        invariant
            start <= i <= s@.len(),
            body == unsigned_body(s@),
            body =~= s@.skip(start as int),
            forall|k: int| 0 <= k < i - start ==> is_digit(#[trigger] body[k]),
            v == digits_value(body.take(i - start)),
            v <= u32::MAX,
        decreases s@.len() - i,
    {
        let c = s[i];
        if !('0' <= c && c <= '9') {
            assert(!is_digit(body[i - start]));
            return false;
        }
        let d = (c as u32 - '0' as u32) as u64;
        proof {
            lemma_digits_value_push(body.take(i - start), c);
            assert(body.take(i - start).push(c) =~= body.take(i - start + 1));
        }
        v = v * 10 + d;
        if v > 0xffff_ffff {
            proof {
                lemma_digits_value_prefix_le(body, i - start + 1);
            }
            return false;
        }
        i += 1;
    }
    assert(body.take(i - start) =~= body);
    true
}

proof fn lemma_digits_value_prefix_le(s: Seq<char>, n: int)
    requires
        0 <= n <= s.len(),
        forall|k: int| 0 <= k < s.len() ==> is_digit(#[trigger] s[k]) || true,
    ensures
        all_digits(s) ==> digits_value(s.take(n)) <= digits_value(s),
    decreases s.len() - n,
{
    if n < s.len() {
        lemma_digits_value_prefix_le(s.drop_last(), n);
        assert(s.drop_last().take(n) =~= s.take(n));
        if all_digits(s) {
            assert forall|k: int| 0 <= k < s.drop_last().len() implies is_digit(
                #[trigger] s.drop_last()[k],
            ) by {
                assert(s.drop_last()[k] == s[k]);
            }
            assert(is_digit(s[s.len() - 1]));
        }
    } else {
        assert(s.take(n) =~= s);
    }
}

/// `s.parse::<i64>().ok()`.
pub fn parse_i64_exec(s: &[char]) -> (r: Option<i64>)
    ensures
        r matches Some(v) ==> parse_i64_spec(s@) == Some(v as int),
        r is None ==> parse_i64_spec(s@) is None,
{
    let neg = s.len() > 0 && s[0] == '-';
    let start: usize = if s.len() > 0 && (s[0] == '-' || s[0] == '+') { 1 } else { 0 };
    let ghost body = s@.skip(start as int);
    assert(body =~= signed_body(s@));
    if start >= s.len() {
        return None;
    }
    // Accumulate the magnitude; it may reach 2^63 for i64::MIN.
    let mut v: u64 = 0;
    let mut i: usize = start;
    while i < s.len()
        invariant
            start <= i <= s@.len(),
            body == signed_body(s@),
            neg == (s@.len() > 0 && s@[0] == '-'),
            body =~= s@.skip(start as int),
            forall|k: int| 0 <= k < i - start ==> is_digit(#[trigger] body[k]),
            v == digits_value(body.take(i - start)),
            v <= 0x8000_0000_0000_0000u64,
        decreases s@.len() - i,
    {
        let c = s[i];
        if !('0' <= c && c <= '9') {
            assert(!is_digit(body[i - start]));
            return None;
        }
        let d = (c as u32 - '0' as u32) as u64;
        proof {
            lemma_digits_value_push(body.take(i - start), c);
            assert(body.take(i - start).push(c) =~= body.take(i - start + 1));
        }
        if v > 0x0ccc_cccc_cccc_cccc || v * 10 + d > 0x8000_0000_0000_0000u64 {
            proof {
                lemma_digits_value_prefix_le(body, i - start + 1);
            }
            return None;
        }
        v = v * 10 + d;
        i += 1;
    }
    assert(body.take(i - start) =~= body);
    if neg {
        if v == 0x8000_0000_0000_0000u64 {
            Some(i64::MIN)
        } else {
            Some(-(v as i64))
        }
    } else {
        if v > 0x7fff_ffff_ffff_ffffu64 {
            None
        } else {
            Some(v as i64)
        }
    }
}

proof fn lemma_dec_len(n: nat)
    ensures
        dec(n).len() >= 1,
    decreases n,
{
    if n >= 10 {
        lemma_dec_len(n / 10);
    }
}

/// Decimal text of an unsigned number.
pub fn dec_u64(n: u64) -> (r: Vec<char>)
    ensures
        r@ == dec(n as nat),
    decreases n,
{
    if n < 10 {
        let mut r: Vec<char> = Vec::new();
        r.push(((n as u32) + ('0' as u32)) as u8 as char);
        assert(r@ =~= dec(n as nat));
        r
    } else {
        let mut r = dec_u64(n / 10);
        r.push((((n % 10) as u32) + ('0' as u32)) as u8 as char);
        r
    }
}

/// Decimal text of a signed number.
pub fn dec_i64(n: i64) -> (r: Vec<char>)
    ensures
        r@ == idec(n as int),
{
    if n < 0 {
        let m: u64 = if n == i64::MIN { 0x8000_0000_0000_0000u64 } else { (-n) as u64 };
        let d = dec_u64(m);
        let mut r: Vec<char> = Vec::new();
        r.push('-');
        let mut k: usize = 0;
        while k < d.len()
            invariant
                k <= d@.len(),
                r@ == seq!['-'] + d@.take(k as int),
            decreases d@.len() - k,
        {
            r.push(d[k]);
            assert(d@.take(k as int).push(d@[k as int]) =~= d@.take(k + 1));
            k += 1;
        }
        assert(d@.take(d@.len() as int) =~= d@);
        r
    } else {
        dec_u64(n as u64)
    }
}

/// `format!("{:02}", n)`.
pub fn pad2_i64(n: i64) -> (r: Vec<char>)
    ensures
        r@ == pad2(n as int),
{
    if 0 <= n && n < 10 {
        let mut r: Vec<char> = Vec::new();
        r.push('0');
        r.push(((n as u32) + ('0' as u32)) as u8 as char);
        assert(r@ =~= pad2(n as int));
        r
    } else {
        dec_i64(n)
    }
}

} // verus!
