//! Per-frame output paths: `{step}`, `{step:0N}` (zero-padded to `N`
//! digits) and `{time}` expand in a path template; any other `{...}` is kept
//! as written, and an unclosed `{` ends the expansion.
//!
//! The time is formatted by the caller and handed in as text.

use crate::text::{chars_of, decimal, render_u64, string_of};
use vstd::prelude::*;

verus! {

// ─── Decimal widths ─────────────────────────────────────────────────────────

/// Whether `c` is an ASCII digit.
pub open spec fn is_digit(c: char) -> bool {
    '0' <= c && c <= '9'
}

/// The value of a string of ASCII digits, most significant first.
pub open spec fn digits_value(s: Seq<char>) -> int
    decreases s.len(),
{
    if s.len() == 0 {
        0
    } else {
        digits_value(s.drop_last()) * 10 + (s.last() as int - '0' as int)
    }
}

/// `s` without one leading `+`, if it has one.
pub open spec fn unsigned_body(s: Seq<char>) -> Seq<char> {
    if s.len() > 0 && s[0] == '+' {
        s.subrange(1, s.len() as int)
    } else {
        s
    }
}

/// Whether every character of `s` is an ASCII digit.
pub open spec fn all_digits(s: Seq<char>) -> bool {
    forall|i: int| 0 <= i < s.len() ==> is_digit(#[trigger] s[i])
}

/// What std's `usize::from_str` gives `s`: an optional leading `+`, then one
/// or more ASCII digits whose value fits in `usize`.
pub open spec fn parsed_usize(s: Seq<char>) -> Option<usize> {
    let body = unsigned_body(s);
    if body.len() > 0 && all_digits(body) && digits_value(body) <= usize::MAX {
        Some(digits_value(body) as usize)
    } else {
        None
    }
}

proof fn lemma_digits_value_grows(s: Seq<char>, k: int)
    requires
        0 <= k <= s.len(),
        forall|i: int| 0 <= i < s.len() ==> is_digit(#[trigger] s[i]),
    ensures
        digits_value(s) >= digits_value(s.subrange(0, k)),
        digits_value(s.subrange(0, k)) >= 0,
    decreases s.len(),
{
    if s.len() == k {
        assert(s.subrange(0, k) =~= s);
        if s.len() > 0 {
            lemma_digits_value_grows(s.drop_last(), 0);
        }
    } else {
        let d = s.drop_last();
        assert forall|i: int| 0 <= i < d.len() implies is_digit(#[trigger] d[i]) by {
            assert(d[i] == s[i]);
        }
        lemma_digits_value_grows(d, k);
        assert(d.subrange(0, k) =~= s.subrange(0, k));
        lemma_digits_value_grows(d, d.len() as int);
        assert(d.subrange(0, d.len() as int) =~= d);
        assert(is_digit(s.last()));
    }
}

/// Parse `chars[from..]` as std's `usize::from_str` would.
fn parse_usize_chars(chars: &[char], from: usize) -> (r: Option<usize>)
    requires
        from <= chars@.len(),
    ensures
        r == parsed_usize(chars@.subrange(from as int, chars@.len() as int)),
{
    let ghost s = chars@.subrange(from as int, chars@.len() as int);
    let n = chars.len();
    let mut i = from;
    if i < n && chars[i] == '+' {
        i = i + 1;
    }
    let ghost body = chars@.subrange(i as int, n as int);
    assert(body =~= unsigned_body(s));
    if i == n {
        assert(body.len() == 0);
        return None;
    }
    let start = i;
    let mut acc: usize = 0;
    while i < n
        invariant
            start <= i <= n,
            n == chars@.len(),
            start < n,
            from <= start,
            s == chars@.subrange(from as int, n as int),
            body == chars@.subrange(start as int, n as int),
            body == unsigned_body(s),
            forall|j: int| start <= j < i ==> is_digit(#[trigger] chars@[j]),
            acc as int == digits_value(chars@.subrange(start as int, i as int)),
        decreases n - i,
    {
        let c = chars[i];
        let ghost prefix = chars@.subrange(start as int, i + 1);
        assert(prefix.drop_last() =~= chars@.subrange(start as int, i as int));
        if !('0' <= c && c <= '9') {
            assert(body[i - start] == c);
            assert(!is_digit(body[i - start]));
            assert(!all_digits(body));
            return None;
        }
        let d = (c as u32 - '0' as u32) as usize;
        let next = match acc.checked_mul(10) {
            Some(m) => m.checked_add(d),
            None => None,
        };
        match next {
            Some(v) => {
                acc = v;
            },
            None => {
                proof {
                    assert(digits_value(prefix) > usize::MAX);
                    if all_digits(body) {
                        lemma_digits_value_grows(body, i + 1 - start);
                        assert(body.subrange(0, i + 1 - start) =~= prefix);
                    }
                }
                return None;
            },
        }
        i = i + 1;
    }
    assert(chars@.subrange(start as int, n as int) =~= body);
    assert forall|j: int| 0 <= j < body.len() implies is_digit(#[trigger] body[j]) by {
        assert(body[j] == chars@[start + j]);
    }
    assert(all_digits(body));
    Some(acc)
}

// ─── Templates ──────────────────────────────────────────────────────────────

/// `digits` left-padded with zeros to `width` characters.
pub open spec fn zero_padded(digits: Seq<char>, width: nat) -> Seq<char> {
    if digits.len() >= width {
        digits
    } else {
        Seq::new((width - digits.len()) as nat, |i: int| '0') + digits
    }
}

/// The expansion of placeholder `spec` (the text between braces): `step:0N`
/// is the step zero-padded to `N` digits, `step` the step, `time` the time
/// text; anything else has none.
pub open spec fn placeholder_value(spec: Seq<char>, step: u64, time_text: Seq<char>) -> Option<Seq<char>> {
    if spec.len() >= 6 && spec.subrange(0, 6) == seq!['s', 't', 'e', 'p', ':', '0'] {
        match parsed_usize(spec.subrange(6, spec.len() as int)) {
            Some(w) => Some(zero_padded(decimal(step as nat), w as nat)),
            None => None,
        }
    } else if spec == seq!['s', 't', 'e', 'p'] {
        Some(decimal(step as nat))
    } else if spec == seq!['t', 'i', 'm', 'e'] {
        Some(time_text)
    } else {
        None
    }
}

/// What placeholder `spec` becomes: its expansion, or itself in braces.
pub open spec fn expanded(spec: Seq<char>, step: u64, time_text: Seq<char>) -> Seq<char> {
    match placeholder_value(spec, step, time_text) {
        Some(v) => v,
        None => seq!['{'] + spec + seq!['}'],
    }
}

/// The first position at or after `from` where `s` holds `c`.
pub open spec fn find_char(s: Seq<char>, c: char, from: int) -> Option<int>
    decreases s.len() - from,
{
    if from < 0 || from >= s.len() {
        None
    } else if s[from] == c {
        Some(from)
    } else {
        find_char(s, c, from + 1)
    }
}

pub proof fn lemma_find_char(s: Seq<char>, c: char, from: int)
    requires
        0 <= from,
    ensures
        match find_char(s, c, from) {
            Some(k) => from <= k < s.len() && s[k] == c && forall|j: int|
                from <= j < k ==> s[j] != c,
            None => forall|j: int| from <= j < s.len() ==> s[j] != c,
        },
    decreases s.len() - from,
{
    if from < s.len() && s[from] != c {
        lemma_find_char(s, c, from + 1);
    }
}

/// The expansion of `t[i..]`: text up to the next `{` is kept; a `{` without
/// a later `}` keeps the rest as written; a placeholder is expanded.
pub open spec fn resolved_from(t: Seq<char>, i: int, step: u64, time_text: Seq<char>) -> Seq<char>
    decreases t.len() - i,
{
    if i < 0 || i > t.len() {
        Seq::empty()
    } else {
        match find_char(t, '{', i) {
            None => t.subrange(i, t.len() as int),
            Some(open) => match find_char(t, '}', open + 1) {
                None => t.subrange(i, t.len() as int),
                Some(close) => {
                    proof {
                        lemma_find_char(t, '{', i);
                        lemma_find_char(t, '}', open + 1);
                    }
                    t.subrange(i, open) + expanded(t.subrange(open + 1, close), step, time_text)
                        + resolved_from(t, close + 1, step, time_text)
                },
            },
        }
    }
}

/// The first position at or after `from` where `chars` holds `c`.
fn find_in(chars: &Vec<char>, c: char, from: usize) -> (r: Option<usize>)
    ensures
        match r {
            Some(k) => find_char(chars@, c, from as int) == Some(k as int),
            None => find_char(chars@, c, from as int) is None,
        },
{
    let mut i = from;
    while i < chars.len()
        invariant
            from <= i,
            find_char(chars@, c, from as int) == find_char(chars@, c, i as int),
        decreases chars.len() - i,
    {
        if chars[i] == c {
            return Some(i);
        }
        i = i + 1;
    }
    None
}

/// Append `chars[from..to]` to `out`.
fn append_range(out: &mut Vec<char>, chars: &Vec<char>, from: usize, to: usize)
    requires
        from <= to <= chars@.len(),
    ensures
        final(out)@ == old(out)@ + chars@.subrange(from as int, to as int),
{
    let ghost start = out@;
    let mut i = from;
    while i < to
        invariant
            from <= i <= to <= chars@.len(),
            out@ == start + chars@.subrange(from as int, i as int),
        decreases to - i,
    {
        out.push(chars[i]);
        assert(chars@.subrange(from as int, i + 1) =~= chars@.subrange(from as int, i as int).push(chars@[i as int]));
        i = i + 1;
    }
}

/// Whether `chars[from..to]` spells `word`.
pub(crate) fn spells(chars: &Vec<char>, from: usize, to: usize, word: &[char]) -> (r: bool)
    requires
        from <= to <= chars@.len(),
    ensures
        r == (chars@.subrange(from as int, to as int) == word@),
{
    if to - from != word.len() {
        return false;
    }
    let mut i: usize = 0;
    while i < word.len()
        invariant
            from <= to <= chars@.len(),
            to - from == word@.len(),
            0 <= i <= word@.len(),
            forall|j: int| 0 <= j < i ==> chars@[from + j] == word@[j],
        decreases word.len() - i,
    {
        if chars[from + i] != word[i] {
            assert(chars@.subrange(from as int, to as int)[i as int] != word@[i as int]);
            return false;
        }
        i = i + 1;
    }
    assert(chars@.subrange(from as int, to as int) =~= word@);
    true
}

/// Append placeholder `chars[from..to]`, expanded, to `out`.
fn append_expanded(
    out: &mut Vec<char>,
    chars: &Vec<char>,
    from: usize,
    to: usize,
    step: u64,
    time_text: &Vec<char>,
)
    requires
        from <= to <= chars@.len(),
    ensures
        final(out)@ == old(out)@ + expanded(chars@.subrange(from as int, to as int), step, time_text@),
{
    let ghost spec = chars@.subrange(from as int, to as int);
    let step_prefix: [char; 6] = ['s', 't', 'e', 'p', ':', '0'];
    let step_word: [char; 4] = ['s', 't', 'e', 'p'];
    let time_word: [char; 4] = ['t', 'i', 'm', 'e'];
    assert(step_prefix@ == seq!['s', 't', 'e', 'p', ':', '0']);
    assert(step_word@ == seq!['s', 't', 'e', 'p']);
    assert(time_word@ == seq!['t', 'i', 'm', 'e']);
    if to - from >= 6 && spells(chars, from, from + 6, &step_prefix) {
        assert(spec.subrange(0, 6) =~= chars@.subrange(from as int, from + 6));
        let tail = vstd::slice::slice_subrange(chars.as_slice(), from, to);
        assert(tail@ =~= spec);
        let width = parse_usize_chars(tail, 6);
        match width {
            Some(w) => {
                let digits_text = render_u64(step);
                let digits = chars_of(digits_text.as_str());
                let mut k: usize = digits.len();
                while k < w
                    invariant
                        digits.len() <= k,
                        k <= w || k == digits.len(),
                        out@ == old(out)@ + Seq::new((k - digits@.len()) as nat, |i: int| '0'),
                    decreases w - k,
                {
                    let ghost before = out@;
                    out.push('0');
                    assert(Seq::new((k + 1 - digits@.len()) as nat, |i: int| '0') =~= Seq::new(
                        (k - digits@.len()) as nat,
                        |i: int| '0',
                    ).push('0'));
                    k = k + 1;
                }
                let ghost padded = out@;
                let end = digits.len();
                append_range(out, &digits, 0, end);
                proof {
                    assert(digits@.subrange(0, end as int) =~= digits@);
                    if digits@.len() >= w {
                        assert(Seq::new(0, |i: int| '0') =~= Seq::<char>::empty());
                        assert(padded =~= old(out)@);
                    }
                    assert(out@ =~= old(out)@ + zero_padded(decimal(step as nat), w as nat));
                }
            },
            None => {
                out.push('{');
                append_range(out, chars, from, to);
                out.push('}');
                assert(out@ =~= old(out)@ + (seq!['{'] + spec + seq!['}']));
            },
        }
    } else if spells(chars, from, to, &step_word) {
        proof {
            if spec.len() >= 6 {
                assert(spec.len() == 4);
            }
        }
        let digits_text = render_u64(step);
        let digits = chars_of(digits_text.as_str());
        let end = digits.len();
        append_range(out, &digits, 0, end);
        assert(digits@.subrange(0, end as int) =~= digits@);
    } else if spells(chars, from, to, &time_word) {
        let end = time_text.len();
        append_range(out, time_text, 0, end);
        assert(time_text@.subrange(0, end as int) =~= time_text@);
    } else {
        proof {
            if spec.len() >= 6 && spec.subrange(0, 6) == seq!['s', 't', 'e', 'p', ':', '0'] {
                assert(spec.subrange(0, 6) =~= chars@.subrange(from as int, from + 6));
            }
        }
        out.push('{');
        append_range(out, chars, from, to);
        out.push('}');
        assert(out@ =~= old(out)@ + (seq!['{'] + spec + seq!['}']));
    }
}

/// Expand the placeholders of `template` for `step`, with `time_text` the
/// rendered simulation time.
pub fn resolve_path(template: &str, step: u64, time_text: &str) -> (r: String)
    ensures
        r@ == resolved_from(template@, 0, step, time_text@),
{
    let t = chars_of(template);
    let time_chars = chars_of(time_text);
    let n = t.len();
    let mut out: Vec<char> = Vec::new();
    let mut i: usize = 0;
    loop
        invariant_except_break
            i <= n,
            n == t@.len(),
            out@ + resolved_from(t@, i as int, step, time_chars@) == resolved_from(t@, 0, step, time_chars@),
        ensures
            out@ == resolved_from(t@, 0, step, time_chars@),
        decreases n - i,
    {
        proof {
            lemma_find_char(t@, '{', i as int);
        }
        match find_in(&t, '{', i) {
            None => {
                let ghost before = out@;
                append_range(&mut out, &t, i, n);
                assert(out@ =~= before + resolved_from(t@, i as int, step, time_chars@));
                break;
            },
            Some(open) => {
                proof {
                    lemma_find_char(t@, '}', open + 1);
                }
                match find_in(&t, '}', open + 1) {
                    None => {
                        let ghost before = out@;
                        append_range(&mut out, &t, i, n);
                        assert(out@ =~= before + resolved_from(t@, i as int, step, time_chars@));
                        break;
                    },
                    Some(close) => {
                        let ghost before = out@;
                        append_range(&mut out, &t, i, open);
                        append_expanded(&mut out, &t, open + 1, close, step, &time_chars);
                        assert(out@ + resolved_from(t@, close + 1, step, time_chars@) =~= before
                            + resolved_from(t@, i as int, step, time_chars@));
                        i = close + 1;
                    },
                }
            },
        }
    }
    string_of(out.as_slice())
}

} // verus!
