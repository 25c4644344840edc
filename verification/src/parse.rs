//! The input parser: free-form text to a color, trying the HEX, `rgb(...)`
//! and `hsl(...)` grammars in that order.
//!
//! Numeric fields follow one fixed shape: an optional sign, at least one
//! decimal digit, then an optional fraction introduced by `.`. The integer
//! part saturates at 999999; fractional digits beyond the carried precision
//! (three for hue, two for percentages) are read and ignored. Percentages
//! clamp into `[0%, 100%]`, so no out-of-range saturation or lightness can
//! reach the color model.

use vstd::prelude::*;
use vstd::string::StrSliceExecFns;

use crate::color::CasColor;
use crate::color::hsl_color;
use crate::color::spec_hex_parse;

verus! {

/// The ASCII whitespace the parser trims around the input and its fields.
pub open spec fn is_space(c: char) -> bool {
    c == ' ' || c == '\t' || c == '\n' || c == '\r'
}

/// Whether `c` is a decimal digit.
pub open spec fn is_digit(c: char) -> bool {
    '0' <= c && c <= '9'
}

/// The numeric value of a decimal digit character.
pub open spec fn digit_val(c: char) -> int {
    c as int - '0' as int
}

/// `cs` without its leading whitespace.
pub open spec fn trim_front(cs: Seq<char>) -> Seq<char>
    decreases cs.len(),
{
    if cs.len() > 0 && is_space(cs[0]) {
        trim_front(cs.skip(1))
    } else {
        cs
    }
}

/// `cs` without its trailing whitespace.
pub open spec fn trim_back(cs: Seq<char>) -> Seq<char>
    decreases cs.len(),
{
    if cs.len() > 0 && is_space(cs[cs.len() - 1]) {
        trim_back(cs.take(cs.len() - 1))
    } else {
        cs
    }
}

/// `cs` without leading and trailing whitespace.
pub open spec fn trim_spec(cs: Seq<char>) -> Seq<char> {
    trim_back(trim_front(cs))
}

/// `cs` without its trailing `%` signs.
pub open spec fn strip_percents(cs: Seq<char>) -> Seq<char>
    decreases cs.len(),
{
    if cs.len() > 0 && cs[cs.len() - 1] == '%' {
        strip_percents(cs.take(cs.len() - 1))
    } else {
        cs
    }
}

/// Helper for the induction: dropping leading whitespace one character at a
/// time reaches the first non-space index.
proof fn lemma_trim_front_skip(cs: Seq<char>, k: int)
    requires
        0 <= k <= cs.len(),
        forall|i: int| 0 <= i < k ==> is_space(#[trigger] cs[i]),
        k < cs.len() ==> !is_space(cs[k]),
    ensures
        trim_front(cs) == cs.skip(k),
    decreases k,
{
    if k == 0 {
        assert(cs.skip(0) =~= cs);
    } else {
        assert(is_space(cs[0]));
        lemma_trim_front_skip(cs.skip(1), k - 1);
        assert(cs.skip(1).skip(k - 1) =~= cs.skip(k));
    }
}

/// Helper for the induction: dropping trailing whitespace one character at a
/// time reaches the last non-space index.
proof fn lemma_trim_back_take(cs: Seq<char>, k: int)
    requires
        0 <= k <= cs.len(),
        forall|i: int| k <= i < cs.len() ==> is_space(#[trigger] cs[i]),
        k > 0 ==> !is_space(cs[k - 1]),
    ensures
        trim_back(cs) == cs.take(k),
    decreases cs.len() - k,
{
    if k == cs.len() {
        if cs.len() == 0 {
            assert(cs.take(0) =~= cs);
        } else if is_space(cs[cs.len() - 1]) {
            lemma_trim_back_take(cs.take(cs.len() - 1), k - 1);
            assert(cs.take(cs.len() - 1).take(k - 1) =~= cs.take(k - 1));
        } else {
            assert(cs.take(k) =~= cs);
        }
    } else {
        assert(is_space(cs[cs.len() - 1]));
        lemma_trim_back_take(cs.take(cs.len() - 1), k);
        assert(cs.take(cs.len() - 1).take(k) =~= cs.take(k));
    }
}

/// Same induction for trailing `%` signs.
proof fn lemma_strip_percents_take(cs: Seq<char>, k: int)
    requires
        0 <= k <= cs.len(),
        forall|i: int| k <= i < cs.len() ==> #[trigger] cs[i] == '%',
        k > 0 ==> cs[k - 1] != '%',
    ensures
        strip_percents(cs) == cs.take(k),
    decreases cs.len() - k,
{
    if k == cs.len() {
        if cs.len() == 0 {
            assert(cs.take(0) =~= cs);
        } else if cs[cs.len() - 1] == '%' {
            lemma_strip_percents_take(cs.take(cs.len() - 1), k - 1);
            assert(cs.take(cs.len() - 1).take(k - 1) =~= cs.take(k - 1));
        } else {
            assert(cs.take(k) =~= cs);
        }
    } else {
        assert(cs[cs.len() - 1] == '%');
        lemma_strip_percents_take(cs.take(cs.len() - 1), k);
        assert(cs.take(cs.len() - 1).take(k) =~= cs.take(k));
    }
}

/// The value of a digit string read left to right, saturating at 999999.
pub open spec fn clamped_dec_val(cs: Seq<char>) -> int
    decreases cs.len(),
{
    if cs.len() == 0 {
        0
    } else {
        let p = clamped_dec_val(cs.take(cs.len() - 1));
        let v = p * 10 + digit_val(cs[cs.len() - 1]);
        if v > 999999 {
            999999
        } else {
            v
        }
    }
}

/// Whether every character of `cs` is a decimal digit.
pub open spec fn all_digits(cs: Seq<char>) -> bool {
    forall|i: int| 0 <= i < cs.len() ==> is_digit(#[trigger] cs[i])
}

/// The first `k` fractional digits of `fr` as one `k`-digit number, padded
/// with zeros on the right when `fr` is shorter.
pub open spec fn frac_scaled(fr: Seq<char>, k: nat) -> int
    decreases k,
{
    if k == 0 {
        0
    } else {
        frac_scaled(fr, (k - 1) as nat) * 10 + if fr.len() >= k {
            digit_val(fr[k - 1])
        } else {
            0
        }
    }
}

/// The position of the first `ch` in `cs` at or after `i`, or the length of
/// `cs` when there is none.
pub open spec fn find_from(cs: Seq<char>, ch: char, i: int) -> int
    decreases cs.len() - i,
{
    if i < 0 || i >= cs.len() {
        cs.len() as int
    } else if cs[i] == ch {
        i
    } else {
        find_from(cs, ch, i + 1)
    }
}

/// Helper for the induction: a scan that saw no `ch` before `p` and stops at
/// `p` computes `find_from`.
proof fn lemma_find_from(cs: Seq<char>, ch: char, start: int, p: int)
    requires
        0 <= start <= p <= cs.len(),
        forall|i: int| start <= i < p ==> #[trigger] cs[i] != ch,
        p < cs.len() ==> cs[p] == ch,
    ensures
        find_from(cs, ch, start) == p,
    decreases p - start,
{
    if start < p {
        lemma_find_from(cs, ch, start + 1, p);
    }
}

/// How many leading sign characters a numeric field has (one or none) and
/// whether the sign is negative.
pub open spec fn sign_len(cs: Seq<char>) -> int {
    if cs.len() > 0 && (cs[0] == '-' || cs[0] == '+') {
        1
    } else {
        0
    }
}

pub open spec fn sign_neg(cs: Seq<char>) -> bool {
    cs.len() > 0 && cs[0] == '-'
}

/// The accepted shape of a numeric field: an optional sign, at least one
/// decimal digit, then optionally `.` and fractional digits. The result is
/// the sign, the integer part saturated at 999999, and the fractional digit
/// string.
pub open spec fn spec_parse_number(cs: Seq<char>) -> Option<(bool, int, Seq<char>)> {
    let sl = sign_len(cs);
    let dot = find_from(cs, '.', sl);
    let ip = cs.subrange(sl, dot);
    let fr = if dot == cs.len() {
        Seq::<char>::empty()
    } else {
        cs.subrange(dot + 1, cs.len() as int)
    };
    if ip.len() >= 1 && all_digits(ip) && all_digits(fr) {
        Some((sign_neg(cs), clamped_dec_val(ip), fr))
    } else {
        None
    }
}

/// A hue field in millidegrees: sign times integer part and the first three
/// fractional digits.
pub open spec fn spec_parse_hue_milli(cs: Seq<char>) -> Option<int> {
    match spec_parse_number(cs) {
        Some((neg, iv, fr)) => Some(
            if neg {
                -(iv * 1000 + frac_scaled(fr, 3))
            } else {
                iv * 1000 + frac_scaled(fr, 3)
            },
        ),
        None => None,
    }
}

/// A percentage field in `1/10200` units, truncated to two fractional
/// digits of the percentage and clamped into `[0, 10200]`.
pub open spec fn spec_parse_percent_units(cs: Seq<char>) -> Option<int> {
    match spec_parse_number(cs) {
        Some((neg, iv, fr)) => Some(
            if neg {
                0
            } else {
                let u = (iv * 100 + frac_scaled(fr, 2)) * 102 / 100;
                if u > 10200 {
                    10200
                } else {
                    u
                }
            },
        ),
        None => None,
    }
}

/// An 8-bit channel field: an optional `+`, then digits, value at most 255.
pub open spec fn spec_parse_u8(cs: Seq<char>) -> Option<u8> {
    let body = if cs.len() > 0 && cs[0] == '+' {
        cs.skip(1)
    } else {
        cs
    };
    if body.len() >= 1 && all_digits(body) && clamped_dec_val(body) <= 255 {
        Some(clamped_dec_val(body) as u8)
    } else {
        None
    }
}

/// Whether `c` is an ASCII space character.
fn is_space_exec(c: char) -> (r: bool)
    ensures
        r == is_space(c),
{
    c == ' ' || c == '\t' || c == '\n' || c == '\r'
}

/// A copy of `s` without leading and trailing ASCII whitespace.
fn trim_exec<'a>(s: &'a str) -> (r: &'a str)
    ensures
        r@ == trim_spec(s@),
{
    let n = s.unicode_len();
    let mut lo: usize = 0;
    while lo < n && is_space_exec(s.get_char(lo))
        invariant
            0 <= lo <= n,
            n == s@.len(),
            forall|i: int| 0 <= i < lo ==> is_space(#[trigger] s@[i]),
        decreases n - lo,
    {
        lo += 1;
    }
    let mut hi: usize = n;
    while hi > lo && is_space_exec(s.get_char(hi - 1))
        invariant
            lo <= hi <= n,
            n == s@.len(),
            forall|i: int| 0 <= i < lo ==> is_space(#[trigger] s@[i]),
            lo < n ==> !is_space(s@[lo as int]),
            forall|i: int| hi <= i < n ==> is_space(#[trigger] s@[i]),
        decreases hi,
    {
        hi -= 1;
    }
    let r = s.substring_char(lo, hi);
    proof {
        lemma_trim_front_skip(s@, lo as int);
        let t = s@.skip(lo as int);
        assert(forall|i: int|
            hi - lo <= i < t.len() ==> is_space(#[trigger] t[i]) || !(0 <= i + lo < n));
        if hi > lo {
            assert(!is_space(t[hi - lo - 1]));
        }
        lemma_trim_back_take(t, hi - lo);
        assert(t.take(hi - lo) =~= s@.subrange(lo as int, hi as int));
    }
    r
}

/// The position of the first `ch` in `s` at or after `start`, or the length
/// of `s` when there is none.
fn find_char_exec(s: &str, ch: char, start: usize) -> (r: usize)
    requires
        start <= s@.len(),
    ensures
        r == find_from(s@, ch, start as int),
        start <= r <= s@.len(),
        r < s@.len() ==> s@[r as int] == ch,
        forall|i: int| start <= i < r ==> #[trigger] s@[i] != ch,
{
    let n = s.unicode_len();
    let mut p = start;
    while p < n && s.get_char(p) != ch
        invariant
            start <= p <= n,
            n == s@.len(),
            forall|i: int| start <= i < p ==> #[trigger] s@[i] != ch,
        decreases n - p,
    {
        p += 1;
    }
    proof {
        lemma_find_from(s@, ch, start as int, p as int);
    }
    p
}

/// The numeric value of a decimal digit character, or `None` when the
/// character is not one.
fn digit_value(c: char) -> (v: Option<u32>)
    ensures
        match v {
            Some(d) => is_digit(c) && d == digit_val(c) && d <= 9,
            None => !is_digit(c),
        },
{
    if '0' <= c && c <= '9' {
        Some(c as u32 - '0' as u32)
    } else {
        None
    }
}

/// Reads a numeric field: the sign, the saturated integer part, and the
/// fractional digits scaled to two and to three places.
fn parse_number(f: &str) -> (r: Option<(bool, u32, u32, u32)>)
    ensures
        match r {
            Some(p) => {
                &&& spec_parse_number(f@) is Some
                &&& {
                    let (neg, iv, fr) = spec_parse_number(f@).unwrap();
                    &&& p.0 == neg
                    &&& p.1 == iv
                    &&& p.2 == frac_scaled(fr, 2)
                    &&& p.3 == frac_scaled(fr, 3)
                    &&& p.1 <= 999999
                    &&& p.2 <= 99
                    &&& p.3 <= 999
                }
            },
            None => spec_parse_number(f@) is None,
        },
{
    let n = f.unicode_len();
    let start: usize = if n > 0 && (f.get_char(0) == '-' || f.get_char(0) == '+') {
        1
    } else {
        0
    };
    let neg = n > 0 && f.get_char(0) == '-';
    let dot = find_char_exec(f, '.', start);
    let ghost ip = f@.subrange(start as int, dot as int);
    if dot == start {
        return None;
    }

    let mut acc: u32 = 0;
    let mut i = start;
    while i < dot
        invariant
            start <= i <= dot <= n,
            n == f@.len(),
            start == sign_len(f@),
            dot == find_from(f@, '.', start as int),
            ip == f@.subrange(start as int, dot as int),
            forall|j: int| start <= j < i ==> is_digit(#[trigger] f@[j]),
            acc == clamped_dec_val(f@.subrange(start as int, i as int)),
            acc <= 999999,
        decreases dot - i,
    {
        let c = f.get_char(i);
        match digit_value(c) {
            Some(d) => {
                let ghost pre = f@.subrange(start as int, i as int);
                acc = acc * 10 + d;
                if acc > 999999 {
                    acc = 999999;
                }
                proof {
                    let cur = f@.subrange(start as int, i + 1);
                    assert(cur.take(cur.len() - 1) =~= pre);
                    assert(cur[cur.len() - 1] == c);
                }
            },
            None => {
                proof {
                    assert(ip[i - start] == f@[i as int]);
                }
                return None;
            },
        }
        i += 1;
    }
    proof {
        assert(ip =~= f@.subrange(start as int, dot as int));
        assert(forall|j: int| 0 <= j < ip.len() ==> is_digit(#[trigger] ip[j]));
    }

    let ghost fr = if dot == n {
        Seq::<char>::empty()
    } else {
        f@.subrange(dot + 1, n as int)
    };
    let mut j: usize = if dot < n {
        dot + 1
    } else {
        n
    };
    while j < n
        invariant
            dot < j <= n || (dot == n && j == n),
            n == f@.len(),
            start == sign_len(f@),
            dot == find_from(f@, '.', start as int),
            ip == f@.subrange(start as int, dot as int),
            ip.len() >= 1,
            all_digits(ip),
            fr == if dot == n {
                Seq::<char>::empty()
            } else {
                f@.subrange(dot + 1, n as int)
            },
            forall|k: int| dot < k < j ==> is_digit(#[trigger] f@[k]),
        decreases n - j,
    {
        let c = f.get_char(j);
        match digit_value(c) {
            Some(_) => {},
            None => {
                proof {
                    assert(fr[j - dot - 1] == f@[j as int]);
                }
                return None;
            },
        }
        j += 1;
    }
    proof {
        assert(forall|k: int| 0 <= k < fr.len() ==> is_digit(#[trigger] fr[k]));
    }

    let frlen: usize = if dot < n {
        n - dot - 1
    } else {
        0
    };
    let d0: u32 = if frlen >= 1 {
        match digit_value(f.get_char(dot + 1)) {
            Some(d) => d,
            None => 0,
        }
    } else {
        0
    };
    let d1: u32 = if frlen >= 2 {
        match digit_value(f.get_char(dot + 2)) {
            Some(d) => d,
            None => 0,
        }
    } else {
        0
    };
    let d2: u32 = if frlen >= 3 {
        match digit_value(f.get_char(dot + 3)) {
            Some(d) => d,
            None => 0,
        }
    } else {
        0
    };
    let f2: u32 = d0 * 10 + d1;
    let f3: u32 = d0 * 100 + d1 * 10 + d2;
    proof {
        assert(fr.len() == frlen);
        if frlen >= 1 {
            assert(fr[0] == f@[dot + 1]);
        }
        if frlen >= 2 {
            assert(fr[1] == f@[dot + 2]);
        }
        if frlen >= 3 {
            assert(fr[2] == f@[dot + 3]);
        }
        assert(frac_scaled(fr, 0) == 0);
        assert(frac_scaled(fr, 1) == d0);
        assert(frac_scaled(fr, 2) == d0 * 10 + d1);
        assert(frac_scaled(fr, 3) == d0 * 100 + d1 * 10 + d2);
    }
    Some((neg, acc, f2, f3))
}

/// Reads one `rgb(...)` field: digits with an optional `+`, at most 255.
fn parse_u8_field(f: &str) -> (r: Option<u8>)
    ensures
        r == spec_parse_u8(f@),
{
    let n = f.unicode_len();
    let start: usize = if n > 0 && f.get_char(0) == '+' {
        1
    } else {
        0
    };
    let ghost body = if f@.len() > 0 && f@[0] == '+' {
        f@.skip(1)
    } else {
        f@
    };
    if n == start {
        return None;
    }
    let mut acc: u32 = 0;
    let mut i = start;
    while i < n
        invariant
            start <= i <= n,
            n == f@.len(),
            start == 0 || start == 1,
            body == if f@.len() > 0 && f@[0] == '+' {
                f@.skip(1)
            } else {
                f@
            },
            start == 1 <==> (f@.len() > 0 && f@[0] == '+'),
            forall|j: int| start <= j < i ==> is_digit(#[trigger] f@[j]),
            acc == clamped_dec_val(f@.subrange(start as int, i as int)),
            acc <= 999999,
        decreases n - i,
    {
        let c = f.get_char(i);
        match digit_value(c) {
            Some(d) => {
                let ghost pre = f@.subrange(start as int, i as int);
                acc = acc * 10 + d;
                if acc > 999999 {
                    acc = 999999;
                }
                proof {
                    let cur = f@.subrange(start as int, i + 1);
                    assert(cur.take(cur.len() - 1) =~= pre);
                    assert(cur[cur.len() - 1] == c);
                }
            },
            None => {
                proof {
                    assert(body[i - start] == f@[i as int]);
                }
                return None;
            },
        }
        i += 1;
    }
    proof {
        assert(body =~= f@.subrange(start as int, n as int));
        assert(forall|j: int| 0 <= j < body.len() ==> is_digit(#[trigger] body[j]));
    }
    if acc <= 255 {
        Some(acc as u8)
    } else {
        None
    }
}

/// The three comma-separated fields of a `rgb(...)` or `hsl(...)` interior:
/// exactly two commas, split at them.
pub open spec fn split3(cs: Seq<char>) -> Option<(Seq<char>, Seq<char>, Seq<char>)> {
    let i = find_from(cs, ',', 0);
    if i == cs.len() {
        None
    } else {
        let j = find_from(cs, ',', i + 1);
        if j == cs.len() {
            None
        } else {
            let k = find_from(cs, ',', j + 1);
            if k != cs.len() {
                None
            } else {
                Some((cs.subrange(0, i), cs.subrange(i + 1, j), cs.subrange(j + 1, cs.len() as int)))
            }
        }
    }
}

/// Whether `t` has the `rgb(` ... `)` frame.
pub open spec fn rgb_shape(t: Seq<char>) -> bool {
    t.len() >= 5 && t[0] == 'r' && t[1] == 'g' && t[2] == 'b' && t[3] == '(' && t[t.len() - 1]
        == ')'
}

/// Whether `t` has the `hsl(` ... `)` frame.
pub open spec fn hsl_shape(t: Seq<char>) -> bool {
    t.len() >= 5 && t[0] == 'h' && t[1] == 's' && t[2] == 'l' && t[3] == '(' && t[t.len() - 1]
        == ')'
}

/// The `rgb(...)` interior: three trimmed 8-bit fields.
pub open spec fn spec_parse_rgb_body(ins: Seq<char>) -> Option<CasColor> {
    match split3(ins) {
        Some(fs) => match (
            spec_parse_u8(trim_spec(fs.0)),
            spec_parse_u8(trim_spec(fs.1)),
            spec_parse_u8(trim_spec(fs.2)),
        ) {
            (Some(r), Some(g), Some(b)) => Some(CasColor { r, g, b }),
            _ => None,
        },
        None => None,
    }
}

/// The `hsl(...)` interior: a hue field and two percentage fields, each
/// trimmed and with trailing `%` signs dropped.
pub open spec fn spec_parse_hsl_body(ins: Seq<char>) -> Option<CasColor> {
    match split3(ins) {
        Some(fs) => {
            let f0 = strip_percents(trim_spec(fs.0));
            let f1 = strip_percents(trim_spec(fs.1));
            let f2 = strip_percents(trim_spec(fs.2));
            match (
                spec_parse_hue_milli(f0),
                spec_parse_percent_units(f1),
                spec_parse_percent_units(f2),
            ) {
                (Some(h), Some(s), Some(l)) => Some(hsl_color(h, s, l)),
                _ => None,
            }
        },
        None => None,
    }
}

/// The full dispatch over a trimmed input: a `#` of the right length goes to
/// the hex grammar and stops there; otherwise the `rgb(` frame, then the
/// `hsl(` frame; anything else fails.
pub open spec fn spec_parse_color(t: Seq<char>) -> Option<CasColor> {
    if t.len() > 0 && t[0] == '#' && (t.len() == 7 || t.len() == 4) {
        spec_hex_parse(t)
    } else if rgb_shape(t) {
        spec_parse_rgb_body(t.subrange(4, t.len() - 1))
    } else if hsl_shape(t) {
        spec_parse_hsl_body(t.subrange(4, t.len() - 1))
    } else {
        None
    }
}

/// A copy of `s` without trailing `%` signs.
fn strip_percents_exec<'a>(s: &'a str) -> (r: &'a str)
    ensures
        r@ == strip_percents(s@),
{
    let n = s.unicode_len();
    let mut k = n;
    while k > 0 && s.get_char(k - 1) == '%'
        invariant
            0 <= k <= n,
            n == s@.len(),
            forall|i: int| k <= i < n ==> #[trigger] s@[i] == '%',
        decreases k,
    {
        k -= 1;
    }
    let r = s.substring_char(0, k);
    proof {
        lemma_strip_percents_take(s@, k as int);
        assert(s@.take(k as int) =~= s@.subrange(0, k as int));
    }
    r
}

/// Splits an interior at its two commas; any other comma count fails.
fn split_fields<'a>(s: &'a str) -> (r: Option<(&'a str, &'a str, &'a str)>)
    ensures
        match r {
            Some(f) => split3(s@) == Some((f.0@, f.1@, f.2@)),
            None => split3(s@) is None,
        },
{
    let n = s.unicode_len();
    let i = find_char_exec(s, ',', 0);
    if i == n {
        return None;
    }
    let j = find_char_exec(s, ',', i + 1);
    if j == n {
        return None;
    }
    let k = find_char_exec(s, ',', j + 1);
    if k != n {
        return None;
    }
    let f0 = s.substring_char(0, i);
    let f1 = s.substring_char(i + 1, j);
    let f2 = s.substring_char(j + 1, n);
    Some((f0, f1, f2))
}

/// Reads a hue field into millidegrees.
fn parse_hue_field(f: &str) -> (r: Option<i64>)
    ensures
        match r {
            Some(h) => spec_parse_hue_milli(f@) == Some(h as int),
            None => spec_parse_hue_milli(f@) is None,
        },
{
    match parse_number(f) {
        Some(p) => {
            let mag: i64 = (p.1 as i64) * 1000 + (p.3 as i64);
            if p.0 {
                Some(-mag)
            } else {
                Some(mag)
            }
        },
        None => None,
    }
}

/// Reads a percentage field into `1/10200` units, clamped into
/// `[0, 10200]`.
fn parse_percent_field(f: &str) -> (r: Option<u32>)
    ensures
        match r {
            Some(u) => spec_parse_percent_units(f@) == Some(u as int) && u <= 10200,
            None => spec_parse_percent_units(f@) is None,
        },
{
    match parse_number(f) {
        Some(p) => {
            if p.0 {
                Some(0)
            } else {
                let u: u64 = ((p.1 as u64) * 100 + (p.2 as u64)) * 102 / 100;
                if u > 10200 {
                    Some(10200)
                } else {
                    Some(u as u32)
                }
            }
        },
        None => None,
    }
}

/// Parses the interior of `rgb(...)`.
fn parse_rgb_fields(ins: &str) -> (r: Option<CasColor>)
    ensures
        r == spec_parse_rgb_body(ins@),
{
    match split_fields(ins) {
        Some(f) => {
            let r0 = parse_u8_field(trim_exec(f.0));
            let r1 = parse_u8_field(trim_exec(f.1));
            let r2 = parse_u8_field(trim_exec(f.2));
            match (r0, r1, r2) {
                (Some(a), Some(b), Some(c)) => Some(CasColor::from_rgb(a, b, c)),
                _ => None,
            }
        },
        None => None,
    }
}

/// Parses the interior of `hsl(...)`.
fn parse_hsl_fields(ins: &str) -> (r: Option<CasColor>)
    ensures
        r == spec_parse_hsl_body(ins@),
{
    match split_fields(ins) {
        Some(f) => {
            let h = parse_hue_field(strip_percents_exec(trim_exec(f.0)));
            let s = parse_percent_field(strip_percents_exec(trim_exec(f.1)));
            let l = parse_percent_field(strip_percents_exec(trim_exec(f.2)));
            match (h, s, l) {
                (Some(hv), Some(sv), Some(lv)) => Some(CasColor::from_hsl(hv, sv, lv)),
                _ => None,
            }
        },
        None => None,
    }
}

/// Parses free-form color text: leading and trailing whitespace is ignored,
/// then the HEX, `rgb(...)` and `hsl(...)` grammars are tried in that order.
/// A `#` of plausible length commits to the hex grammar: its failure is
/// final, it never falls through to the other grammars.
pub fn parse_color_input(input: &str) -> (res: Option<CasColor>)
    ensures
        res == spec_parse_color(trim_spec(input@)),
{
    let t = trim_exec(input);
    let n = t.unicode_len();
    if n > 0 && t.get_char(0) == '#' && (n == 7 || n == 4) {
        match CasColor::from_hex(t) {
            Ok(c) => Some(c),
            Err(_) => None,
        }
    } else if n >= 5 && t.get_char(0) == 'r' && t.get_char(1) == 'g' && t.get_char(2) == 'b'
        && t.get_char(3) == '(' && t.get_char(n - 1) == ')' {
        parse_rgb_fields(t.substring_char(4, n - 1))
    } else if n >= 5 && t.get_char(0) == 'h' && t.get_char(1) == 's' && t.get_char(2) == 'l'
        && t.get_char(3) == '(' && t.get_char(n - 1) == ')' {
        parse_hsl_fields(t.substring_char(4, n - 1))
    } else {
        None
    }
}

} // verus!
