//! Text helpers shared by the library: whitespace trimming, string equality
//! and decimal rendering of integers.

use vstd::prelude::*;

verus! {

/// Unicode `White_Space` property, the definition `str::trim` and
/// `char::is_whitespace` use.
pub open spec fn is_white_space(c: char) -> bool {
    ||| ('\u{9}' <= c && c <= '\u{D}')
    ||| c == ' '
    ||| c == '\u{85}'
    ||| c == '\u{A0}'
    ||| c == '\u{1680}'
    ||| ('\u{2000}' <= c && c <= '\u{200A}')
    ||| c == '\u{2028}'
    ||| c == '\u{2029}'
    ||| c == '\u{202F}'
    ||| c == '\u{205F}'
    ||| c == '\u{3000}'
}

/// Every character of `s` is whitespace (in particular, the empty string).
pub open spec fn is_blank(s: Seq<char>) -> bool {
    forall|i: int| 0 <= i < s.len() ==> is_white_space(#[trigger] s[i])
}

/// `t` is `s` with its maximal leading and trailing whitespace removed.
pub open spec fn is_trim_of(s: Seq<char>, t: Seq<char>) -> bool {
    exists|a: int, b: int|
        {
            &&& 0 <= a <= b <= s.len()
            &&& t == s.subrange(a, b)
            &&& forall|i: int| 0 <= i < a ==> is_white_space(#[trigger] s[i])
            &&& forall|i: int| b <= i < s.len() ==> is_white_space(#[trigger] s[i])
            &&& a < b ==> !is_white_space(s[a]) && !is_white_space(s[b - 1])
        }
}

/// `s` trimmed: the one `t` with [`is_trim_of`]`(s, t)`.
pub open spec fn trimmed(s: Seq<char>) -> Seq<char> {
    choose|t: Seq<char>| is_trim_of(s, t)
}

/// A string has one trim: any `t` with `is_trim_of(s, t)` is [`trimmed`]`(s)`.
pub proof fn lemma_trim_is_unique(s: Seq<char>, t: Seq<char>)
    requires
        is_trim_of(s, t),
    ensures
        t == trimmed(s),
{
    let u = trimmed(s);
    assert(is_trim_of(s, u));
    let (a, b) = choose|a: int, b: int|
        {
            &&& 0 <= a <= b <= s.len()
            &&& t == s.subrange(a, b)
            &&& forall|i: int| 0 <= i < a ==> is_white_space(#[trigger] s[i])
            &&& forall|i: int| b <= i < s.len() ==> is_white_space(#[trigger] s[i])
            &&& a < b ==> !is_white_space(s[a]) && !is_white_space(s[b - 1])
        };
    let (c, d) = choose|a: int, b: int|
        {
            &&& 0 <= a <= b <= s.len()
            &&& u == s.subrange(a, b)
            &&& forall|i: int| 0 <= i < a ==> is_white_space(#[trigger] s[i])
            &&& forall|i: int| b <= i < s.len() ==> is_white_space(#[trigger] s[i])
            &&& a < b ==> !is_white_space(s[a]) && !is_white_space(s[b - 1])
        };
    if a < b && c < d {
        if a < c {
            assert(is_white_space(s[a]));
        }
        if c < a {
            assert(is_white_space(s[c]));
        }
        if b < d {
            assert(is_white_space(s[d - 1]));
        }
        if d < b {
            assert(is_white_space(s[b - 1]));
        }
        assert(a == c && b == d);
    } else if a < b {
        assert(c == d);
        if a < c {
            assert(is_white_space(s[a]));
        } else {
            assert(a >= d);
            assert(is_white_space(s[a]));
        }
    } else if c < d {
        assert(a == b);
        if c < a {
            assert(is_white_space(s[c]));
        } else {
            assert(is_white_space(s[c]));
        }
    } else {
        assert(t =~= u);
    }
}

/// `str::trim`: the string slice without leading and trailing whitespace,
/// whitespace being the Unicode `White_Space` property.
#[verifier::external_body]
pub(crate) fn trim(s: &str) -> (t: &str)
    ensures
        is_trim_of(s@, t@),
{
    s.trim()
}

/// Whether the string consists only of whitespace (`s.trim().is_empty()`).
pub fn is_blank_str(s: &str) -> (b: bool)
    ensures
        b == is_blank(s@),
{
    let t = trim(s);
    let b = t.is_empty();
    proof {
        let (x, y) = choose|a: int, b: int|
            {
                &&& 0 <= a <= b <= s@.len()
                &&& t@ == s@.subrange(a, b)
                &&& forall|i: int| 0 <= i < a ==> is_white_space(#[trigger] s@[i])
                &&& forall|i: int| b <= i < s@.len() ==> is_white_space(#[trigger] s@[i])
                &&& a < b ==> !is_white_space(s@[a]) && !is_white_space(s@[b - 1])
            };
        if b {
            assert(t@.len() == 0);
            assert(x == y);
            assert forall|i: int| 0 <= i < s@.len() implies is_white_space(#[trigger] s@[i]) by {
                if i < x {
                } else {
                }
            }
        } else {
            assert(x < y);
            assert(!is_white_space(s@[x]));
        }
    }
    b
}

/// `str` equality: the two slices hold the same characters.
#[verifier::external_body]
pub(crate) fn str_equal(a: &str, b: &str) -> (r: bool)
    ensures
        r == (a@ == b@),
{
    a == b
}

/// The ASCII digit for `d` (0 ≤ d < 10).
pub open spec fn digit_char(d: nat) -> char {
    (48 + d) as char
}

/// The decimal representation of a natural number, most significant digit
/// first, without leading zeros (`"0"` for zero).
pub open spec fn decimal(n: nat) -> Seq<char>
    decreases n,
{
    if n < 10 {
        seq![digit_char(n)]
    } else {
        decimal(n / 10) + seq![digit_char(n % 10)]
    }
}

/// The decimal representation of an integer, with a leading `-` when negative.
pub open spec fn signed_decimal(x: int) -> Seq<char> {
    if x < 0 {
        seq!['-'] + decimal((-x) as nat)
    } else {
        decimal(x as nat)
    }
}

/// `u64::to_string`: the decimal representation of `n`.
#[verifier::external_body]
pub(crate) fn render_u64(n: u64) -> (s: String)
    ensures
        s@ == decimal(n as nat),
{
    n.to_string()
}

/// `i64::to_string`: the decimal representation of `x`, `-` first when negative.
#[verifier::external_body]
pub(crate) fn render_i64(x: i64) -> (s: String)
    ensures
        s@ == signed_decimal(x as int),
{
    x.to_string()
}

/// Decimal rendering of a `usize`.
pub fn render_usize(n: usize) -> (s: String)
    ensures
        s@ == decimal(n as nat),
{
    render_u64(n as u64)
}

/// Decimal rendering of an `i32`.
pub fn render_i32(x: i32) -> (s: String)
    ensures
        s@ == signed_decimal(x as int),
{
    render_i64(x as i64)
}

/// Concatenation of an owned string and a slice.
pub fn join(a: String, b: &str) -> (s: String)
    ensures
        s@ == a@ + b@,
{
    a.concat(b)
}

/// An owned copy of a string slice.
pub fn owned(a: &str) -> (s: String)
    ensures
        s@ == a@,
{
    a.to_owned()
}

/// `str::chars`, collected into a vector.
#[verifier::external_body]
pub(crate) fn chars_of(s: &str) -> (v: Vec<char>)
    ensures
        v@ == s@,
{
    s.chars().collect()
}

/// `String: FromIterator<char>` over a slice of characters.
#[verifier::external_body]
pub(crate) fn string_of(chars: &[char]) -> (s: String)
    ensures
        s@ == chars@,
{
    chars.iter().collect()
}

} // verus!
