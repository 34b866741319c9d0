//! How PHP spells a finite float (printf's `%.14G` with an upper-case `E`),
//! worked out from the value's scientific text with 14 significant digits,
//! as Rust's `{:.13E}` formatting gives it (e.g. `3.0000000000000E-1`).
use vstd::prelude::*;

use crate::text::{append_signed_decimal, dec_signed, find_char, first_index, push_char, substring};
use crate::types::coerce::{digits_number, is_digit, is_sign};

verus! {

/// `s` without the copies of `c` at its end.
pub open spec fn strip_trailing(s: Seq<char>, c: char) -> Seq<char>
    decreases s.len(),
{
    if s.len() > 0 && s.last() == c {
        strip_trailing(s.drop_last(), c)
    } else {
        s
    }
}

/// `t` without a leading sign.
pub open spec fn unsigned_part(t: Seq<char>) -> Seq<char> {
    if t.len() > 0 && is_sign(t[0]) {
        t.subrange(1, t.len() as int)
    } else {
        t
    }
}

/// Whether every character of `d` is a decimal digit.
pub open spec fn all_digits(d: Seq<char>) -> bool {
    forall|i: int| 0 <= i < d.len() ==> is_digit(#[trigger] d[i])
}

/// The integer an optionally signed run of decimal digits spells; `None` for
/// any other text (the empty text and a bare sign included).
pub open spec fn int_text_value(t: Seq<char>) -> Option<int> {
    let d = unsigned_part(t);
    if d.len() > 0 && all_digits(d) {
        let v = digits_number(d) as int;
        Some(if t[0] == '-' { -v } else { v })
    } else {
        None
    }
}

/// What parsing `t` as an `i32` gives: its value when it spells one in range.
pub open spec fn i32_of_text(t: Seq<char>) -> Option<i32> {
    match int_text_value(t) {
        Some(v) => if i32::MIN <= v <= i32::MAX {
            Some(v as i32)
        } else {
            None
        },
        None => None,
    }
}

/// The exponent of a scientific text whose `E` is at `e`; 0 when it does not
/// parse.
pub open spec fn exponent_of(sci: Seq<char>, e: int) -> int {
    match i32_of_text(sci.subrange(e + 1, sci.len() as int)) {
        Some(v) => v as int,
        None => 0,
    }
}

/// The mantissa as PHP shows it: trailing zeros and a trailing point
/// removed, and `.0` added when no point is left.
pub open spec fn php_mantissa(m: Seq<char>) -> Seq<char> {
    let t = strip_trailing(strip_trailing(m, '0'), '.');
    if t.contains('.') && t.len() > 0 && t.last() == '.' {
        t + seq!['0']
    } else if !t.contains('.') {
        t + seq!['.', '0']
    } else {
        t
    }
}

/// The digits of `m`, in order, without any other character.
pub open spec fn digits_of(m: Seq<char>) -> Seq<char>
    decreases m.len(),
{
    if m.len() == 0 {
        m
    } else if is_digit(m.last()) {
        digits_of(m.drop_last()).push(m.last())
    } else {
        digits_of(m.drop_last())
    }
}

/// The unsigned decimal text of the significant digits `d` (the first one
/// before the point) scaled by ten to the power `x`: the digits before the
/// point (padded with zeros when `d` is short), the point, and the rest.
pub open spec fn scaled_digits(d: Seq<char>, x: int) -> Seq<char> {
    if x >= 0 {
        Seq::new((x + 1) as nat, |i: int| if i < d.len() { d[i] } else { '0' }) + seq!['.'] + (
        if d.len() > x + 1 {
            d.subrange(x + 1, d.len() as int)
        } else {
            Seq::empty()
        })
    } else {
        seq!['0', '.'] + Seq::new((-x - 1) as nat, |i: int| '0') + d
    }
}

/// The plain decimal spelling of the scientific mantissa `m` with exponent
/// `x`: its sign, its digits moved by `x` places, and no trailing zeros after
/// the point (nor the point itself when nothing follows it).
pub open spec fn decimal_spelling(m: Seq<char>, x: int) -> Seq<char> {
    let sign: Seq<char> = if m.len() > 0 && m[0] == '-' { seq!['-'] } else { Seq::empty() };
    strip_trailing(strip_trailing(sign + scaled_digits(digits_of(m), x), '0'), '.')
}

/// PHP's spelling of a finite float whose scientific text with 14
/// significant digits is `sci`: scientific notation (`1.0E+14`, `1.0E-5`)
/// when the exponent is at least 14 or at most -5, else plain decimal
/// notation of the same 14 digits without trailing zeros after the point
/// (`0.3`, `42`, `0.0001`).
pub open spec fn php_float_spelling(sci: Seq<char>) -> Seq<char> {
    match first_index(sci, 'E') {
        None => sci,
        Some(e) => {
            let exp = exponent_of(sci, e);
            if exp >= 14 || exp <= -5 {
                php_mantissa(sci.subrange(0, e)) + (if exp >= 0 {
                    seq!['E', '+']
                } else {
                    seq!['E']
                }) + dec_signed(exp)
            } else {
                decimal_spelling(sci.subrange(0, e), exp)
            }
        },
    }
}

/// The length of `s` once the copies of `c` at its end are removed.
fn stripped_len(s: &str, c: char) -> (r: usize)
    ensures
        r <= s@.len(),
        strip_trailing(s@, c) == s@.subrange(0, r as int),
{
    let mut j: usize = s.unicode_len();
    assert(s@.subrange(0, j as int) =~= s@);
    while j > 0 && s.get_char(j - 1) == c
        invariant
            j <= s@.len(),
            strip_trailing(s@, c) == strip_trailing(s@.subrange(0, j as int), c),
        decreases j,
    {
        assert(s@.subrange(0, j as int).drop_last() =~= s@.subrange(0, j - 1));
        j = j - 1;
    }
    j
}

/// `s` without the copies of `c` at its end.
fn strip_trailing_str(s: &str, c: char) -> (r: String)
    ensures
        r@ == strip_trailing(s@, c),
{
    let j = stripped_len(s, c);
    substring(s, 0, j)
}

/// Parses `s` as an `i32`: an optional sign and at least one decimal digit,
/// in range.
pub fn parse_i32(s: &str) -> (r: Option<i32>)
    ensures
        r == i32_of_text(s@),
{
    let n = s.unicode_len();
    if n == 0 {
        return None;
    }
    let first = s.get_char(0);
    let signed = first == '-' || first == '+';
    let negative = first == '-';
    let start: usize = if signed { 1 } else { 0 };
    let ghost d = unsigned_part(s@);
    assert(d =~= s@.subrange(start as int, n as int));
    if start == n {
        return None;
    }
    let mut acc: u64 = 0;
    let mut i: usize = start;
    assert(d.subrange(0, 0) =~= Seq::<char>::empty());
    while i < n
        invariant
            n == s@.len(),
            start <= i <= n,
            d == s@.subrange(start as int, n as int),
            d == unsigned_part(s@),
            forall|k: int| 0 <= k < i - start ==> is_digit(#[trigger] d[k]),
            acc <= 0x1_0000_0000u64,
            acc == 0x1_0000_0000u64 || acc == digits_number(d.subrange(0, i - start)),
            acc == 0x1_0000_0000u64 ==> digits_number(d.subrange(0, i - start)) >= 0x1_0000_0000,
        decreases n - i,
    {
        let c = s.get_char(i);
        assert(d[i - start] == c);
        if !('0' <= c && c <= '9') {
            assert(!is_digit(d[i - start]));
            assert(!all_digits(d));
            return None;
        }
        let digit: u64 = (c as u32 - '0' as u32) as u64;
        let ghost prev = d.subrange(0, i - start);
        let ghost next_d = d.subrange(0, i - start + 1);
        assert(next_d.drop_last() =~= prev);
        assert(next_d.last() == c);
        assert(digits_number(next_d) == digits_number(prev) * 10 + digit);
        if acc == 0x1_0000_0000u64 {
            assert(digits_number(next_d) >= 0x1_0000_0000) by (nonlinear_arith)
                requires
                    digits_number(prev) >= 0x1_0000_0000,
                    digits_number(next_d) == digits_number(prev) * 10 + digit,
            ;
        } else {
            let v = acc * 10 + digit;
            if v >= 0x1_0000_0000u64 {
                acc = 0x1_0000_0000u64;
            } else {
                acc = v;
            }
        }
        i = i + 1;
    }
    assert(d.subrange(0, n - start) =~= d);
    if negative {
        if acc > 0x8000_0000u64 {
            None
        } else {
            Some((0 - (acc as i64)) as i32)
        }
    } else {
        if acc > 0x7FFF_FFFFu64 {
            None
        } else {
            Some(acc as i32)
        }
    }
}

/// Whether `s` holds a `.`.
fn has_point(s: &str) -> (r: bool)
    ensures
        r == s@.contains('.'),
{
    match find_char(s, '.') {
        Some(_) => true,
        None => {
            assert(!s@.contains('.')) by {
                if s@.contains('.') {
                    let k = choose|k: int| 0 <= k < s@.len() && s@[k] == '.';
                    assert(exists|i: int| 0 <= i < s@.len() && s@[i] == '.');
                }
            }
            false
        },
    }
}

/// The mantissa `m` as PHP shows it (see [`php_mantissa`]).
fn php_mantissa_str(m: &str) -> (r: String)
    ensures
        r@ == php_mantissa(m@),
{
    let no_zeros = strip_trailing_str(m, '0');
    let mut mantissa = strip_trailing_str(no_zeros.as_str(), '.');
    let point = has_point(mantissa.as_str());
    let len = mantissa.as_str().unicode_len();
    if point && len > 0 && mantissa.as_str().get_char(len - 1) == '.' {
        push_char(&mut mantissa, '0');
    } else if !point {
        push_char(&mut mantissa, '.');
        push_char(&mut mantissa, '0');
    }
    mantissa
}

/// The scientific spelling: the mantissa, `E`, a `+` for a non-negative
/// exponent, and the exponent.
fn scientific(mantissa: &str, exp: i32) -> (r: String)
    ensures
        r@ == php_mantissa(mantissa@) + (if exp >= 0 {
            seq!['E', '+']
        } else {
            seq!['E']
        }) + dec_signed(exp as int),
{
    let mut out = php_mantissa_str(mantissa);
    let ghost m = out@;
    push_char(&mut out, 'E');
    if exp >= 0 {
        push_char(&mut out, '+');
    }
    append_signed_decimal(&mut out, exp as i64);
    proof {
        if exp >= 0 {
            assert(out@ =~= m + seq!['E', '+'] + dec_signed(exp as int));
        } else {
            assert(out@ =~= m + seq!['E'] + dec_signed(exp as int));
        }
    }
    out
}

/// The digits of `m` (see [`digits_of`]).
fn digits_str(m: &str) -> (r: String)
    ensures
        r@ == digits_of(m@),
{
    let n = m.unicode_len();
    let mut out = String::new();
    let mut i: usize = 0;
    assert(m@.subrange(0, 0) =~= Seq::<char>::empty());
    while i < n
        invariant
            n == m@.len(),
            i <= n,
            out@ == digits_of(m@.subrange(0, i as int)),
        decreases n - i,
    {
        let c = m.get_char(i);
        assert(m@.subrange(0, i + 1).drop_last() =~= m@.subrange(0, i as int));
        if '0' <= c && c <= '9' {
            push_char(&mut out, c);
        }
        i = i + 1;
    }
    assert(m@.subrange(0, n as int) =~= m@);
    out
}

/// Appends `k` zeros to `out`.
fn push_zeros(out: &mut String, k: usize)
    ensures
        final(out)@ == old(out)@ + Seq::new(k as nat, |i: int| '0'),
{
    let mut j: usize = 0;
    while j < k
        invariant
            j <= k,
            out@ == old(out)@ + Seq::new(j as nat, |i: int| '0'),
        decreases k - j,
    {
        push_char(out, '0');
        assert(out@ =~= old(out)@ + Seq::new((j + 1) as nat, |i: int| '0'));
        j = j + 1;
    }
}

/// Appends the characters `from..to` of `d` to `out`.
fn push_range(out: &mut String, d: &str, from: usize, to: usize)
    requires
        from <= to <= d@.len(),
    ensures
        final(out)@ == old(out)@ + d@.subrange(from as int, to as int),
{
    let mut j: usize = from;
    while j < to
        invariant
            from <= j <= to <= d@.len(),
            out@ == old(out)@ + d@.subrange(from as int, j as int),
        decreases to - j,
    {
        push_char(out, d.get_char(j));
        assert(out@ =~= old(out)@ + d@.subrange(from as int, j + 1));
        j = j + 1;
    }
}

/// The plain decimal spelling of the mantissa `m` with exponent `x` (see
/// [`decimal_spelling`]).
#[verifier::rlimit(40)]
#[verifier::spinoff_prover]
fn decimal_text(m: &str, x: i32) -> (r: String)
    requires
        -4 <= x <= 13,
    ensures
        r@ == decimal_spelling(m@, x as int),
{
    let digits = digits_str(m);
    let d = digits.as_str();
    let dl = d.unicode_len();
    let mut raw = String::new();
    let n = m.unicode_len();
    let negative = n > 0 && m.get_char(0) == '-';
    if negative {
        push_char(&mut raw, '-');
    }
    let ghost sign = raw@;
    if x >= 0 {
        let k: usize = (x + 1) as usize;
        let whole: usize = if dl < k { dl } else { k };
        push_range(&mut raw, d, 0, whole);
        push_zeros(&mut raw, k - whole);
        assert(raw@ =~= sign + Seq::new(k as nat, |i: int| if i < d@.len() { d@[i] } else { '0' }));
        push_char(&mut raw, '.');
        if dl > k {
            push_range(&mut raw, d, k, dl);
        } else {
            assert(raw@ =~= raw@ + Seq::<char>::empty());
        }
        assert(raw@ =~= sign + scaled_digits(d@, x as int));
    } else {
        push_char(&mut raw, '0');
        push_char(&mut raw, '.');
        let k: usize = (-x - 1) as usize;
        push_zeros(&mut raw, k);
        push_range(&mut raw, d, 0, dl);
        assert(d@.subrange(0, dl as int) =~= d@);
        assert(raw@ =~= sign + scaled_digits(d@, x as int));
    }
    let no_zeros = strip_trailing_str(raw.as_str(), '0');
    strip_trailing_str(no_zeros.as_str(), '.')
}

/// PHP's spelling of a finite float, from its scientific text with 14
/// significant digits (Rust's `{:.13E}`); see [`php_float_spelling`].
pub fn php_float_text(sci: &str) -> (r: String)
    ensures
        r@ == php_float_spelling(sci@),
{
    let e = match find_char(sci, 'E') {
        Some(e) => e,
        None => return String::from_str(sci),
    };
    let n = sci.unicode_len();
    let exp_text = substring(sci, e + 1, n);
    let exp: i32 = match parse_i32(exp_text.as_str()) {
        Some(v) => v,
        None => 0,
    };
    assert(exp as int == exponent_of(sci@, e as int));
    let mantissa_part = substring(sci, 0, e);
    if exp >= 14 || exp <= -5 {
        scientific(mantissa_part.as_str(), exp)
    } else {
        decimal_text(mantissa_part.as_str(), exp)
    }
}

proof fn lemma_strip_trailing(s: Seq<char>, c: char)
    ensures
        strip_trailing(s, c).len() <= s.len(),
        strip_trailing(s, c) == s.subrange(0, strip_trailing(s, c).len() as int),
        strip_trailing(s, c).len() > 0 ==> strip_trailing(s, c).last() != c,
        forall|k: int| strip_trailing(s, c).len() <= k < s.len() ==> s[k] == c,
    decreases s.len(),
{
    if s.len() > 0 && s.last() == c {
        let t = s.drop_last();
        lemma_strip_trailing(t, c);
        assert(t.subrange(0, strip_trailing(t, c).len() as int) =~= s.subrange(0, strip_trailing(t, c).len() as int));
        assert forall|k: int| strip_trailing(s, c).len() <= k < s.len() implies s[k] == c by {
            if k < t.len() {
                assert(s[k] == t[k]);
            }
        }
    } else {
        assert(s.subrange(0, s.len() as int) =~= s);
    }
}

proof fn lemma_digits_of(m: Seq<char>)
    ensures
        forall|k: int| 0 <= k < digits_of(m).len() ==> is_digit(#[trigger] digits_of(m)[k]),
    decreases m.len(),
{
    if m.len() > 0 {
        let prev = digits_of(m.drop_last());
        lemma_digits_of(m.drop_last());
        assert forall|k: int| 0 <= k < digits_of(m).len() implies is_digit(#[trigger] digits_of(m)[k]) by {
            if k < prev.len() {
                assert(digits_of(m)[k] == prev[k]);
            }
        }
    }
}

/// The point of `sign + scaled_digits(d, x)` stands at `p`, and no other
/// character of it is a point.
proof fn lemma_one_point(sign: Seq<char>, d: Seq<char>, x: int) -> (p: int)
    requires
        -4 <= x <= 13,
        forall|k: int| 0 <= k < sign.len() ==> sign[k] != '.',
        forall|k: int| 0 <= k < d.len() ==> is_digit(#[trigger] d[k]),
    ensures
        0 <= p < (sign + scaled_digits(d, x)).len(),
        (sign + scaled_digits(d, x))[p] == '.',
        forall|k: int| 0 <= k < (sign + scaled_digits(d, x)).len() && k != p ==> (sign + scaled_digits(
            d,
            x,
        ))[k] != '.',
{
    let raw = sign + scaled_digits(d, x);
    if x >= 0 {
        let p: int = sign.len() + x + 1;
        assert forall|k: int| 0 <= k < raw.len() && k != p implies raw[k] != '.' by {
            if k >= sign.len() && k < p {
                let i = k - sign.len();
                if i < d.len() {
                    assert(is_digit(d[i]));
                }
            } else if k > p {
                assert(raw[k] == d[x + 1 + (k - p - 1)]);
                assert(is_digit(d[x + 1 + (k - p - 1)]));
            }
        }
        p
    } else {
        let p: int = sign.len() + 1int;
        assert forall|k: int| 0 <= k < raw.len() && k != p implies raw[k] != '.' by {
            if k >= sign.len() + 2 + (-x - 1) {
                let i = k - sign.len() - 2 - (-x - 1);
                assert(raw[k] == d[i]);
                assert(is_digit(d[i]));
            }
        }
        p
    }
}

/// A float spelled in plain decimal notation never ends in its point, and
/// shows no zero after its point at the end.
pub proof fn law_decimal_spelling_has_no_trailing_zeros(m: Seq<char>, x: int)
    requires
        -4 <= x <= 13,
    ensures
        decimal_spelling(m, x).len() > 0 ==> decimal_spelling(m, x).last() != '.',
        decimal_spelling(m, x).len() > 0 && decimal_spelling(m, x).contains('.') ==> decimal_spelling(
            m,
            x,
        ).last() != '0',
{
    let sign: Seq<char> = if m.len() > 0 && m[0] == '-' { seq!['-'] } else { Seq::empty() };
    let d = digits_of(m);
    lemma_digits_of(m);
    let raw = sign + scaled_digits(d, x);
    let p = lemma_one_point(sign, d, x);
    let a = strip_trailing(raw, '0');
    lemma_strip_trailing(raw, '0');
    let r = strip_trailing(a, '.');
    lemma_strip_trailing(a, '.');
    assert(a.len() > p) by {
        if a.len() <= p {
            assert(raw[p] == '0');
        }
    }
    assert(a[p] == '.');
    if a.last() == '.' {
        assert(a.len() - 1 == p);
        assert(r.len() <= p) by {
            if r.len() > p {
                assert(r[p] == a[p]);
            }
        }
        assert(!r.contains('.')) by {
            if r.contains('.') {
                let k = choose|k: int| 0 <= k < r.len() && r[k] == '.';
                assert(a[k] == '.');
                assert(raw[k] == '.');
            }
        }
    } else {
        assert(r == a) by {
            assert(a.subrange(0, a.len() as int) =~= a);
        }
    }
}

} // verus!
