//! Character-level helpers shared by the validators and the command
//! palette : Unicode white space, ASCII lower-casing and sub-sequence
//! search, all over the `Seq<char>` view of strings.

use vstd::prelude::*;
use vstd::utf8::encode_utf8;

verus! {

/// `c` has the Unicode `White_Space` property (what `char::is_whitespace` tests).
pub open spec fn is_ws(c: char) -> bool {
    let v = c as u32;
    ||| 0x09 <= v <= 0x0D
    ||| v == 0x20
    ||| v == 0x85
    ||| v == 0xA0
    ||| v == 0x1680
    ||| 0x2000 <= v <= 0x200A
    ||| v == 0x2028
    ||| v == 0x2029
    ||| v == 0x202F
    ||| v == 0x205F
    ||| v == 0x3000
}

/// ASCII lower-casing of one character : `A..=Z` map to `a..=z`, all else is kept.
pub open spec fn ascii_lower(c: char) -> char {
    if 'A' <= c && c <= 'Z' {
        ((c as u32) + 32) as char
    } else {
        c
    }
}

/// ASCII lower-casing of a whole sequence of characters.
pub open spec fn lower_seq(s: Seq<char>) -> Seq<char> {
    Seq::new(s.len(), |i: int| ascii_lower(s[i]))
}

/// Every character of `s` is white space, i.e. `s.trim()` is empty.
pub open spec fn all_ws(s: Seq<char>) -> bool {
    forall|i: int| 0 <= i < s.len() ==> is_ws(#[trigger] s[i])
}

/// The byte length `str::len` reports for a text : its UTF-8 size.
pub open spec fn byte_len(s: Seq<char>) -> usize {
    encode_utf8(s).len() as usize
}

/// `q` occurs in `t` starting at position `i`.
pub open spec fn occurs_at(t: Seq<char>, q: Seq<char>, i: int) -> bool {
    &&& 0 <= i
    &&& i + q.len() <= t.len()
    &&& t.subrange(i, i + q.len()) == q
}

/// `q` is a sub-string of `t`.
pub open spec fn contains_seq(t: Seq<char>, q: Seq<char>) -> bool {
    exists|i: int| occurs_at(t, q, i)
}

/// `t` starts with `q`.
pub open spec fn starts_with_seq(t: Seq<char>, q: Seq<char>) -> bool {
    occurs_at(t, q, 0)
}

/// `q` occurs in `t` at position `i`, and `i` is the start of `t` or
/// follows a white-space character.
pub open spec fn word_start_at(t: Seq<char>, q: Seq<char>, i: int) -> bool {
    occurs_at(t, q, i) && (i == 0 || is_ws(t[i - 1]))
}

/// The non-empty `q` is a prefix of one of the white-space separated
/// words of `t`.
pub open spec fn word_prefix_seq(t: Seq<char>, q: Seq<char>) -> bool {
    &&& q.len() > 0
    &&& forall|k: int| 0 <= k < q.len() ==> !is_ws(#[trigger] q[k])
    &&& exists|i: int| word_start_at(t, q, i)
}

/// Whether `c` is white space (what `char::is_whitespace` tests).
pub(crate) fn char_is_whitespace(c: char) -> (r: bool)
    ensures
        r == is_ws(c),
{
    let v = c as u32;
    (0x09 <= v && v <= 0x0D) || v == 0x20 || v == 0x85 || v == 0xA0 || v == 0x1680 || (0x2000
        <= v && v <= 0x200A) || v == 0x2028 || v == 0x2029 || v == 0x202F || v == 0x205F || v
        == 0x3000
}

/// ASCII lower-casing of one character (what `char::to_ascii_lowercase`
/// does) : `A..=Z` map to `a..=z`, all else is kept.
pub(crate) fn char_to_ascii_lowercase(c: char) -> (r: char)
    ensures
        r == ascii_lower(c),
{
    if 'A' <= c && c <= 'Z' {
        let b = c as u8;
        assert(b as u32 == c as u32);
        ((b + 32) as u8) as char
    } else {
        c
    }
}

/// `true` iff `s` is empty or made of white space only (`s.trim().is_empty()`).
pub fn is_blank(s: &str) -> (r: bool)
    ensures
        r == all_ws(s@),
{
    let n = s.unicode_len();
    let mut i: usize = 0;
    while i < n
        invariant
            n == s@.len(),
            i <= n,
            forall|j: int| 0 <= j < i ==> is_ws(#[trigger] s@[j]),
        decreases n - i,
    {
        let c = s.get_char(i);
        if !char_is_whitespace(c) {
            return false;
        }
        i = i + 1;
    }
    true
}

/// `true` iff `s` holds the character `c`.
pub fn has_char(s: &str, c: char) -> (r: bool)
    ensures
        r == s@.contains(c),
{
    let n = s.unicode_len();
    let mut i: usize = 0;
    while i < n
        invariant
            n == s@.len(),
            i <= n,
            forall|j: int| 0 <= j < i ==> s@[j] != c,
        decreases n - i,
    {
        if s.get_char(i) == c {
            assert(s@[i as int] == c);
            return true;
        }
        i = i + 1;
    }
    false
}

/// The characters of `s`, ASCII lower-cased.
pub fn lower_chars(s: &str) -> (r: Vec<char>)
    ensures
        r@ == lower_seq(s@),
{
    let n = s.unicode_len();
    let mut out: Vec<char> = Vec::new();
    let mut i: usize = 0;
    while i < n
        invariant
            n == s@.len(),
            i <= n,
            out@.len() == i,
            forall|j: int| 0 <= j < i ==> out@[j] == ascii_lower(s@[j]),
        decreases n - i,
    {
        let c = s.get_char(i);
        out.push(char_to_ascii_lowercase(c));
        i = i + 1;
    }
    assert(out@ =~= lower_seq(s@));
    out
}

/// Whether `q` occurs in `t` at position `i`.
pub fn occurs_at_exec(t: &Vec<char>, q: &Vec<char>, i: usize) -> (r: bool)
    ensures
        r == occurs_at(t@, q@, i as int),
{
    if i > t.len() || q.len() > t.len() - i {
        return false;
    }
    let n = t.len();
    let mut k: usize = 0;
    while k < q.len()
        invariant
            n == t@.len(),
            i as int + q@.len() <= n,
            k <= q@.len(),
            forall|j: int| 0 <= j < k ==> t@[i + j] == q@[j],
        decreases q@.len() - k,
    {
        assert(i + k < n);
        if t[i + k] != q[k] {
            assert(t@.subrange(i as int, i + q@.len())[k as int] != q@[k as int]);
            return false;
        }
        k = k + 1;
    }
    assert(t@.subrange(i as int, i + q@.len()) =~= q@);
    true
}

/// Whether `q` is a sub-string of `t`.
pub fn contains_exec(t: &Vec<char>, q: &Vec<char>) -> (r: bool)
    ensures
        r == contains_seq(t@, q@),
{
    if q.len() > t.len() {
        assert forall|i: int| !occurs_at(t@, q@, i) by {}
        return false;
    }
    let last = t.len() - q.len();
    let mut i: usize = 0;
    while i <= last
        invariant
            last == t@.len() - q@.len(),
            forall|j: int| 0 <= j < i ==> !occurs_at(t@, q@, j),
        decreases last + 1 - i,
    {
        if occurs_at_exec(t, q, i) {
            return true;
        }
        if i == last {
            assert forall|j: int| !occurs_at(t@, q@, j) by {}
            return false;
        }
        i = i + 1;
    }
    assert forall|j: int| !occurs_at(t@, q@, j) by {}
    false
}

/// Whether the non-empty `q` starts one of the white-space separated words of `t`.
pub fn word_prefix_exec(t: &Vec<char>, q: &Vec<char>) -> (r: bool)
    ensures
        r == word_prefix_seq(t@, q@),
{
    if q.len() == 0 {
        return false;
    }
    if q.len() > t.len() {
        assert forall|i: int| !word_start_at(t@, q@, i) by {}
        return false;
    }
    let mut k: usize = 0;
    while k < q.len()
        invariant
            k <= q@.len(),
            forall|j: int| 0 <= j < k ==> !is_ws(#[trigger] q@[j]),
        decreases q@.len() - k,
    {
        if char_is_whitespace(q[k]) {
            return false;
        }
        k = k + 1;
    }
    let last = t.len() - q.len();
    let mut i: usize = 0;
    while i <= last
        invariant
            last == t@.len() - q@.len(),
            q@.len() > 0,
            forall|j: int| 0 <= j < q@.len() ==> !is_ws(#[trigger] q@[j]),
            forall|j: int| 0 <= j < i ==> !#[trigger] word_start_at(t@, q@, j),
        decreases last + 1 - i,
    {
        let at_start = if i == 0 {
            true
        } else {
            char_is_whitespace(t[i - 1])
        };
        if at_start && occurs_at_exec(t, q, i) {
            assert(word_start_at(t@, q@, i as int));
            return true;
        }
        if i == last {
            assert forall|j: int| !word_start_at(t@, q@, j) by {}
            return false;
        }
        i = i + 1;
    }
    false
}

/// Unicode lower-case mapping of a text, as `str::to_lowercase` computes it.
pub uninterp spec fn lowercase(s: Seq<char>) -> Seq<char>;

/// Every character of `s` is ASCII.
pub open spec fn all_ascii(s: Seq<char>) -> bool {
    forall|i: int| 0 <= i < s.len() ==> (#[trigger] s[i] as u32) < 128
}

/// Unicode lower-casing of a text.
///
/// Calls `str::to_lowercase`. The Unicode case tables take pages, so the
/// contract names the result [`lowercase`], a function of the text alone,
/// and states only what the mapping does to ASCII text : `A..=Z` become
/// `a..=z` and every other ASCII character is kept.
#[verifier::external_body]
pub(crate) fn to_lowercase(s: &str) -> (r: String)
    ensures
        r@ == lowercase(s@),
        all_ascii(s@) ==> r@ == lower_seq(s@),
{
    s.to_lowercase()
}

/// Whether two texts are equal.
pub fn str_equals(a: &str, b: &str) -> (r: bool)
    ensures
        r == (a@ == b@),
{
    let n = a.unicode_len();
    if n != b.unicode_len() {
        return false;
    }
    let mut i: usize = 0;
    while i < n
        invariant
            n == a@.len(),
            n == b@.len(),
            i <= n,
            forall|j: int| 0 <= j < i ==> a@[j] == b@[j],
        decreases n - i,
    {
        if a.get_char(i) != b.get_char(i) {
            return false;
        }
        i = i + 1;
    }
    assert(a@ =~= b@);
    true
}

/// Number of leading white-space characters of `s`.
pub open spec fn leading_ws(s: Seq<char>) -> nat
    decreases s.len(),
{
    if s.len() > 0 && is_ws(s[0]) {
        1 + leading_ws(s.drop_first())
    } else {
        0
    }
}

/// `s` without its trailing white-space characters.
pub open spec fn trim_end_seq(s: Seq<char>) -> Seq<char>
    decreases s.len(),
{
    if s.len() > 0 && is_ws(s.last()) {
        trim_end_seq(s.drop_last())
    } else {
        s
    }
}

/// `s` without its leading and trailing white space (what `str::trim` returns).
pub open spec fn trim_seq(s: Seq<char>) -> Seq<char> {
    trim_end_seq(s.skip(leading_ws(s) as int))
}

/// `s` without leading and trailing white space (what `str::trim`
/// returns).
pub(crate) fn trim(s: &str) -> (r: &str)
    ensures
        r@ == trim_seq(s@),
{
    let n = s.unicode_len();
    let mut a: usize = 0;
    assert(s@.skip(0) =~= s@);
    while a < n && char_is_whitespace(s.get_char(a))
        invariant
            a <= n,
            n == s@.len(),
            leading_ws(s@) == a + leading_ws(s@.skip(a as int)),
        decreases n - a,
    {
        assert(s@.skip(a as int).drop_first() =~= s@.skip(a + 1));
        a = a + 1;
    }
    assert(leading_ws(s@) == a);
    let mut b: usize = n;
    assert(s@.skip(a as int) =~= s@.subrange(a as int, n as int));
    while b > a && char_is_whitespace(s.get_char(b - 1))
        invariant
            a <= b <= n,
            n == s@.len(),
            trim_end_seq(s@.subrange(a as int, n as int)) == trim_end_seq(
                s@.subrange(a as int, b as int),
            ),
        decreases b - a,
    {
        assert(s@.subrange(a as int, b as int).drop_last() =~= s@.subrange(a as int, b - 1));
        b = b - 1;
    }
    s.substring_char(a, b)
}

/// Whether `s` starts with `prefix`.
pub fn str_starts_with(s: &str, prefix: &str) -> (r: bool)
    ensures
        r == (prefix@.len() <= s@.len() && s@.subrange(0, prefix@.len() as int) == prefix@),
{
    let n = prefix.unicode_len();
    if n > s.unicode_len() {
        return false;
    }
    let mut i: usize = 0;
    while i < n
        invariant
            n == prefix@.len(),
            n <= s@.len(),
            i <= n,
            forall|j: int| 0 <= j < i ==> s@[j] == prefix@[j],
        decreases n - i,
    {
        if s.get_char(i) != prefix.get_char(i) {
            assert(s@.subrange(0, n as int)[i as int] != prefix@[i as int]);
            return false;
        }
        i = i + 1;
    }
    assert(s@.subrange(0, n as int) =~= prefix@);
    true
}

} // verus!
