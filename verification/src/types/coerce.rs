//! PHP's integer coercion: of strings (the leading numeric part) and of
//! doubles (truncation toward zero), and of any value to an integer; the
//! numeric text a string's float value is read from; and PHP's string
//! coercion of any value.
use vstd::arithmetic::power2::{lemma2_to64, lemma2_to64_rest, lemma_pow2_pos, pow2};
use vstd::prelude::*;

use crate::text::{append_signed_decimal, dec, dec_signed, digit_char, first_non_space, is_space, lemma_first_non_space, trim_start};
use crate::types::zval::{Zval, ZvalView};

verus! {

/// Whether `c` is an ASCII digit.
pub open spec fn is_digit(c: char) -> bool {
    '0' <= c <= '9'
}

/// The value of a digit character.
pub open spec fn digit_value(c: char) -> nat {
    (c as u32 - '0' as u32) as nat
}

/// Index of the first character at or after `i` that is not an ASCII digit.
pub open spec fn digits_end(t: Seq<char>, i: int) -> int
    decreases t.len() - i,
{
    if i >= t.len() {
        t.len() as int
    } else if is_digit(t[i]) {
        digits_end(t, i + 1)
    } else {
        i
    }
}

/// The number the digits `d` spell.
pub open spec fn digits_number(d: Seq<char>) -> nat
    decreases d.len(),
{
    if d.len() == 0 {
        0
    } else {
        digits_number(d.drop_last()) * 10 + digit_value(d.last())
    }
}

/// `v` clamped into the `i64` range.
pub open spec fn clamp_i64(v: int) -> i64 {
    if v < i64::MIN {
        i64::MIN
    } else if v > i64::MAX {
        i64::MAX
    } else {
        v as i64
    }
}

/// PHP's integer value of a string: after leading whitespace, an optional
/// sign and the digits that follow it, saturated to the `i64` range; 0 when
/// there are no digits.
pub open spec fn long_of_text(s: Seq<char>) -> i64 {
    let t = trim_start(s);
    let signed = t.len() > 0 && (t[0] == '-' || t[0] == '+');
    let start: int = if signed { 1 } else { 0 };
    let end = digits_end(t, start);
    if end == start {
        0
    } else {
        let n = digits_number(t.subrange(start, end)) as int;
        clamp_i64(if signed && t[0] == '-' { -n } else { n })
    }
}

/// The largest magnitude tracked while reading digits; anything above
/// saturates either way.
pub open spec fn cap() -> nat {
    0x8000_0000_0000_0001
}

/// `n` capped at [`cap`].
pub open spec fn capped(n: nat) -> nat {
    if n > cap() { cap() } else { n }
}

proof fn lemma_capped_step(n: nat, d: nat)
    requires
        d < 10,
    ensures
        capped(capped(n) * 10 + d) == capped(n * 10 + d),
{
    if n > cap() {
        assert(n * 10 + d > cap()) by (nonlinear_arith)
            requires
                n > cap(),
        ;
        assert(capped(n) * 10 + d > cap());
    }
}

/// PHP's integer value of a string (see [`long_of_text`]).
pub fn parse_long_from_str(s: &str) -> (r: i64)
    ensures
        r == long_of_text(s@),
{
    let n = s.unicode_len();
    let mut a: usize = 0;
    while a < n && crate::text::char_is_space(s.get_char(a))
        invariant
            n == s@.len(),
            a <= n,
            first_non_space(s@, 0) == first_non_space(s@, a as int),
        decreases n - a,
    {
        a = a + 1;
    }
    proof {
        lemma_first_non_space(s@, a as int);
    }
    let ghost t = trim_start(s@);
    assert(t =~= s@.subrange(a as int, n as int));
    if a == n {
        return 0;
    }
    let first = s.get_char(a);
    let negative = first == '-';
    let signed = first == '-' || first == '+';
    let start: usize = if signed { a + 1 } else { a };
    let ghost st: int = if signed { 1 } else { 0 };
    let mut i: usize = start;
    let mut acc: u64 = 0;
    assert(t.subrange(st, st) =~= Seq::<char>::empty());
    while i < n && '0' <= s.get_char(i) && s.get_char(i) <= '9'
        invariant
            n == s@.len(),
            a <= start <= i <= n,
            start - a == st,
            t == s@.subrange(a as int, n as int),
            digits_end(t, st) == digits_end(t, i - a),
            acc == capped(digits_number(t.subrange(st, i - a))),
        decreases n - i,
    {
        let c = s.get_char(i);
        let d: u64 = (c as u32 - '0' as u32) as u64;
        proof {
            let prev = t.subrange(st, i - a);
            assert(t.subrange(st, i - a + 1).drop_last() =~= prev);
            assert(t.subrange(st, i - a + 1).last() == c);
            lemma_capped_step(digits_number(prev), d as nat);
        }
        let next: u64 = if acc > 0x8000_0000_0000_0001u64 / 10 {
            0x8000_0000_0000_0001u64
        } else {
            let v = acc * 10 + d;
            if v > 0x8000_0000_0000_0001u64 { 0x8000_0000_0000_0001u64 } else { v }
        };
        assert(next == capped((acc * 10 + d) as nat));
        acc = next;
        i = i + 1;
    }
    assert(digits_end(t, i - a) == i - a);
    if i == start {
        return 0;
    }
    let ghost num = digits_number(t.subrange(st, i - a)) as int;
    if negative {
        if acc >= 0x8000_0000_0000_0000u64 {
            i64::MIN
        } else {
            -(acc as i64)
        }
    } else {
        if acc > 0x7FFF_FFFF_FFFF_FFFFu64 {
            i64::MAX
        } else {
            acc as i64
        }
    }
}

proof fn lemma_dec_is_digits(n: nat)
    ensures
        dec(n).len() >= 1,
        forall|i: int| 0 <= i < dec(n).len() ==> is_digit(#[trigger] dec(n)[i]),
        digits_number(dec(n)) == n,
    decreases n,
{
    if n < 10 {
        assert(digit_value(digit_char(n)) == n);
        assert(seq![digit_char(n)].drop_last() =~= Seq::<char>::empty());
        assert(digits_number(seq![digit_char(n)]) == digits_number(Seq::<char>::empty()) * 10 + digit_value(digit_char(n)));
    } else {
        lemma_dec_is_digits(n / 10);
        let d = dec(n / 10);
        assert(dec(n) == d.push(digit_char(n % 10)));
        assert(dec(n).drop_last() =~= d);
        assert(digit_value(digit_char(n % 10)) == n % 10);
        assert(forall|i: int| 0 <= i < d.len() ==> dec(n)[i] == d[i]);
        assert(digits_number(dec(n)) == digits_number(d) * 10 + digit_value(digit_char(n % 10)));
        assert((n / 10) * 10 + n % 10 == n) by (nonlinear_arith);
    }
}

proof fn lemma_digits_end_all(t: Seq<char>, i: int)
    requires
        0 <= i <= t.len(),
        forall|j: int| i <= j < t.len() ==> is_digit(#[trigger] t[j]),
    ensures
        digits_end(t, i) == t.len(),
    decreases t.len() - i,
{
    if i < t.len() {
        lemma_digits_end_all(t, i + 1);
    }
}

/// Reading the decimal spelling of an integer gives the integer back.
pub proof fn law_parse_long_reads_decimal(n: i64)
    ensures
        long_of_text(dec_signed(n as int)) == n,
{
    let t = dec_signed(n as int);
    if n < 0 {
        let m = (-(n as int)) as nat;
        lemma_dec_is_digits(m);
        assert(t == seq!['-'] + dec(m));
        assert(!is_space(t[0]));
        assert(first_non_space(t, 0) == 0);
        assert(trim_start(t) =~= t);
        assert forall|j: int| 1 <= j < t.len() implies is_digit(#[trigger] t[j]) by {
            assert(t[j] == dec(m)[j - 1]);
        }
        lemma_digits_end_all(t, 1);
        assert(t.subrange(1, t.len() as int) =~= dec(m));
    } else {
        let m = n as nat;
        lemma_dec_is_digits(m);
        assert(t == dec(m));
        assert(is_digit(t[0]));
        assert(!is_space(t[0]));
        assert(first_non_space(t, 0) == 0);
        assert(trim_start(t) =~= t);
        lemma_digits_end_all(t, 0);
        assert(t.subrange(0, t.len() as int) =~= t);
    }
}

/// The sign bit of a double's bits.
pub open spec fn double_negative(b: u64) -> bool {
    b >= 0x8000_0000_0000_0000
}

/// The biased exponent of a double's bits.
pub open spec fn double_exponent(b: u64) -> nat {
    ((b / 0x10_0000_0000_0000) % 0x800) as nat
}

/// The fraction of a double's bits.
pub open spec fn double_fraction(b: u64) -> nat {
    (b % 0x10_0000_0000_0000) as nat
}

/// The magnitude of a finite double, truncated toward zero.
pub open spec fn truncated_magnitude(b: u64) -> nat {
    let e = double_exponent(b);
    let m = double_fraction(b) + pow2(52);
    if e == 0 {
        0
    } else if e >= 1075 {
        m * pow2((e - 1075) as nat)
    } else {
        m / pow2((1075 - e) as nat)
    }
}

/// What casting the double with bits `b` to `i64` gives: truncation toward
/// zero, saturated to the `i64` range, 0 for NaN.
pub open spec fn long_of_double(b: u64) -> i64 {
    if double_exponent(b) == 0x7FF {
        if double_fraction(b) != 0 {
            0
        } else if double_negative(b) {
            i64::MIN
        } else {
            i64::MAX
        }
    } else {
        let m = truncated_magnitude(b) as int;
        clamp_i64(if double_negative(b) { -m } else { m })
    }
}

/// Casts the double with bits `bits` to an integer: truncation toward zero,
/// saturating, NaN to 0.
pub fn double_to_long(bits: u64) -> (r: i64)
    ensures
        r == long_of_double(bits),
{
    let exp: u64 = (bits >> 52) & 0x7FF;
    let frac: u64 = bits & 0xF_FFFF_FFFF_FFFF;
    let negative = bits >= 0x8000_0000_0000_0000u64;
    assert(exp == (bits / 0x10_0000_0000_0000) % 0x800) by (bit_vector)
        requires
            exp == (bits >> 52) & 0x7FF,
    ;
    assert(frac == bits % 0x10_0000_0000_0000) by (bit_vector)
        requires
            frac == bits & 0xF_FFFF_FFFF_FFFF,
    ;
    if exp == 0x7FF {
        return if frac != 0 {
            0
        } else if negative {
            i64::MIN
        } else {
            i64::MAX
        };
    }
    if exp == 0 {
        return 0;
    }
    let m: u64 = frac + 0x10_0000_0000_0000u64;
    proof {
        lemma2_to64();
        lemma2_to64_rest();
        assert(pow2(52) == 0x10_0000_0000_0000);
    }
    if exp >= 1075 {
        let k: u64 = exp - 1075;
        if k >= 11 {
            proof {
                lemma_pow2_pos((k - 11) as nat);
                vstd::arithmetic::power2::lemma_pow2_adds(11, (k - 11) as nat);
                assert(pow2(11) == 2048);
                assert(m * pow2(k as nat) >= 0x10_0000_0000_0000 * 2048) by (nonlinear_arith)
                    requires
                        m >= 0x10_0000_0000_0000,
                        pow2(k as nat) == pow2(11) * pow2((k - 11) as nat),
                        pow2(11) == 2048,
                        pow2((k - 11) as nat) >= 1,
                ;
            }
            return if negative { i64::MIN } else { i64::MAX };
        }
        proof {
            vstd::bits::lemma_u64_pow2_no_overflow(k as nat);
            assert(pow2(10) == 1024);
            if k < 10 {
                vstd::arithmetic::power2::lemma_pow2_strictly_increases(k as nat, 10);
            }
            assert(m * pow2(k as nat) < 0x20_0000_0000_0000 * 1024) by (nonlinear_arith)
                requires
                    m < 0x20_0000_0000_0000,
                    pow2(k as nat) <= 1024,
            ;
            vstd::bits::lemma_u64_shl_is_mul(m, k);
        }
        let mag: u64 = m << k;
        assert(mag < 0x8000_0000_0000_0000u64);
        if negative {
            -(mag as i64)
        } else {
            mag as i64
        }
    } else {
        let k: u64 = 1075 - exp;
        if k >= 64 {
            proof {
                lemma_pow2_pos((k - 64) as nat);
                vstd::arithmetic::power2::lemma_pow2_adds(64, (k - 64) as nat);
                assert(pow2(64) == 0x1_0000_0000_0000_0000);
                assert(pow2(k as nat) >= 0x1_0000_0000_0000_0000) by (nonlinear_arith)
                    requires
                        pow2(k as nat) == pow2(64) * pow2((k - 64) as nat),
                        pow2(64) == 0x1_0000_0000_0000_0000,
                        pow2((k - 64) as nat) >= 1,
                ;
                assert((m as nat) / pow2(k as nat) == 0) by (nonlinear_arith)
                    requires
                        m < pow2(k as nat),
                ;
            }
            return 0;
        }
        proof {
            vstd::bits::lemma_u64_shr_is_div(m, k);
        }
        let mag: u64 = m >> k;
        assert(mag <= m);
        if negative {
            -(mag as i64)
        } else {
            mag as i64
        }
    }
}

/// The number of leading bytes of `b` below 0x80, from index `i` on.
pub open spec fn ascii_run(b: Seq<u8>, i: int) -> int
    decreases b.len() - i,
{
    if i < 0 || i >= b.len() || b[i] >= 0x80 {
        i
    } else {
        ascii_run(b, i + 1)
    }
}

/// The characters of the ASCII bytes that open `b`, up to its first byte of
/// 0x80 or above.
pub open spec fn ascii_text(b: Seq<u8>) -> Seq<char> {
    Seq::new(ascii_run(b, 0) as nat, |k: int| b[k] as char)
}

proof fn lemma_ascii_run(b: Seq<u8>, i: int)
    requires
        0 <= i <= b.len(),
    ensures
        i <= ascii_run(b, i) <= b.len(),
        forall|k: int| i <= k < ascii_run(b, i) ==> b[k] < 0x80,
        ascii_run(b, i) < b.len() ==> b[ascii_run(b, i)] >= 0x80,
    decreases b.len() - i,
{
    if i < b.len() && b[i] < 0x80 {
        lemma_ascii_run(b, i + 1);
    }
}

/// The text of the ASCII bytes that open `b` (see [`ascii_text`]). For a
/// string that is not valid UTF-8 this is the part PHP's numeric rules can
/// read, since a number, its sign and the whitespace before it are ASCII.
pub fn ascii_prefix_text(b: &[u8]) -> (r: String)
    ensures
        r@ == ascii_text(b@),
{
    let mut out = String::new();
    let mut i: usize = 0;
    proof {
        lemma_ascii_run(b@, 0);
    }
    while i < b.len() && b[i] < 0x80
        invariant
            0 <= i <= b@.len(),
            ascii_run(b@, 0) == ascii_run(b@, i as int),
            out@ == ascii_text(b@).subrange(0, i as int),
            i <= ascii_run(b@, 0),
        decreases b.len() - i,
    {
        proof {
            lemma_ascii_run(b@, i as int);
        }
        let c: char = b[i] as char;
        crate::text::push_char(&mut out, c);
        assert(out@ =~= ascii_text(b@).subrange(0, i + 1));
        i = i + 1;
    }
    proof {
        lemma_ascii_run(b@, i as int);
    }
    assert(out@ =~= ascii_text(b@));
    out
}

/// PHP's integer value of a zval: integers as they are, booleans as 0 or 1,
/// null as 0, doubles truncated, strings by their leading number (read from
/// the ASCII bytes that open a string that is not valid UTF-8); `None` for
/// arrays, resources and objects.
pub open spec fn long_coercion(v: ZvalView) -> Option<i64> {
    match v {
        ZvalView::Long(n) => Some(n),
        ZvalView::True => Some(1),
        ZvalView::False => Some(0),
        ZvalView::Null => Some(0),
        ZvalView::Double(b) => Some(long_of_double(b)),
        ZvalView::Str(bytes) => if vstd::utf8::valid_utf8(bytes) {
            Some(long_of_text(vstd::utf8::decode_utf8(bytes)))
        } else {
            Some(long_of_text(ascii_text(bytes)))
        },
        _ => None,
    }
}

impl Zval {
    /// Coerces the value to an integer following PHP's rules (see
    /// [`long_coercion`]).
    pub fn coerce_to_long(&self) -> (r: Option<i64>)
        ensures
            r == long_coercion(self@),
    {
        match self {
            Zval::Long(n) => Some(*n),
            Zval::True => Some(1),
            Zval::False => Some(0),
            Zval::Null => Some(0),
            Zval::Double(b) => Some(double_to_long(*b)),
            Zval::String(s) => match s.as_str() {
                Some(t) => Some(parse_long_from_str(t)),
                None => {
                    let t = ascii_prefix_text(s.as_bytes());
                    Some(parse_long_from_str(t.as_str()))
                },
            },
            _ => None,
        }
    }
}

/// Whether `c` is a sign.
pub open spec fn is_sign(c: char) -> bool {
    c == '-' || c == '+'
}

/// Where the exponent digits that follow an `e` or `E` at `i` in `t` start:
/// past the letter and an optional sign after it.
pub open spec fn exponent_digits_start(t: Seq<char>, i: int) -> int {
    if i + 1 < t.len() && is_sign(t[i + 1]) {
        i + 2
    } else {
        i + 1
    }
}

/// Where the numeric text that starts at `i` in `t` ends: digits anywhere,
/// one `.` before any exponent, and one exponent once a digit has been seen:
/// an `e` or `E`, an optional sign and at least one digit. An `e` that no
/// digit follows is not part of the number.
pub open spec fn number_end(t: Seq<char>, i: int, dot: bool, exp: bool, digits: bool) -> int
    decreases t.len() - i,
{
    if i < 0 || i >= t.len() {
        i
    } else if is_digit(t[i]) {
        number_end(t, i + 1, dot, exp, true)
    } else if t[i] == '.' && !dot && !exp {
        number_end(t, i + 1, true, exp, digits)
    } else if (t[i] == 'e' || t[i] == 'E') && !exp && digits {
        let j = exponent_digits_start(t, i);
        if j < t.len() && is_digit(t[j]) {
            number_end(t, j, dot, true, digits)
        } else {
            i
        }
    } else {
        i
    }
}

/// The text PHP reads a string's float value from: after leading
/// whitespace, an optional sign and the numeric text that follows it (see
/// [`number_end`]). Parsing it as a float gives the value; text that does not
/// parse (such as `""` or `"-"`) stands for 0.
pub open spec fn double_text(s: Seq<char>) -> Seq<char> {
    let t = trim_start(s);
    let start: int = if t.len() > 0 && is_sign(t[0]) { 1 } else { 0 };
    t.subrange(0, number_end(t, start, false, false, false))
}

/// The numeric text of `s` that PHP reads its float value from (see
/// [`double_text`]).
pub fn double_prefix(s: &str) -> (r: String)
    ensures
        r@ == double_text(s@),
{
    let n = s.unicode_len();
    let mut a: usize = 0;
    while a < n && crate::text::char_is_space(s.get_char(a))
        invariant
            n == s@.len(),
            a <= n,
            first_non_space(s@, 0) == first_non_space(s@, a as int),
        decreases n - a,
    {
        a = a + 1;
    }
    proof {
        lemma_first_non_space(s@, a as int);
    }
    let ghost t = trim_start(s@);
    assert(t =~= s@.subrange(a as int, n as int));
    let mut i: usize = a;
    if a < n && (s.get_char(a) == '-' || s.get_char(a) == '+') {
        i = a + 1;
    }
    let ghost start: int = (i - a) as int;
    let mut dot = false;
    let mut exp = false;
    let mut digits = false;
    loop
        invariant
            n == s@.len(),
            a <= i <= n,
            t == s@.subrange(a as int, n as int),
            number_end(t, start, false, false, false) == number_end(t, i - a, dot, exp, digits),
        ensures
            a <= i <= n,
            number_end(t, start, false, false, false) == i - a,
        decreases n - i,
    {
        if i >= n {
            break;
        }
        let c = s.get_char(i);
        assert(t[i - a] == c);
        if '0' <= c && c <= '9' {
            digits = true;
            i = i + 1;
        } else if c == '.' && !dot && !exp {
            dot = true;
            i = i + 1;
        } else if (c == 'e' || c == 'E') && !exp && digits {
            let mut j: usize = i + 1;
            if i + 1 < n && (s.get_char(i + 1) == '-' || s.get_char(i + 1) == '+') {
                assert(t[i + 1 - a] == s@[i + 1]);
                j = i + 2;
            }
            assert(j - a == exponent_digits_start(t, i - a));
            if j < n && '0' <= s.get_char(j) && s.get_char(j) <= '9' {
                assert(t[j - a] == s@[j as int]);
                exp = true;
                i = j;
            } else {
                assert(j < n ==> t[j - a] == s@[j as int]);
                break;
            }
        } else {
            break;
        }
    }
    crate::text::substring(s, a, i)
}

/// Whether the double with bits `b` is a NaN.
pub open spec fn double_is_nan(b: u64) -> bool {
    double_exponent(b) == 0x7FF && double_fraction(b) != 0
}

/// Whether the double with bits `b` is an infinity.
pub open spec fn double_is_infinite(b: u64) -> bool {
    double_exponent(b) == 0x7FF && double_fraction(b) == 0
}

/// PHP's string value of a zval. A string gives its text (`None` when its
/// bytes are not UTF-8), `true` gives `"1"`, `false` and `null` give `""`, an
/// integer its decimal spelling, a NaN `"NAN"`, an infinity `"INF"` or
/// `"-INF"`. A finite double gives `double_text`, the text that PHP's float
/// formatting gives for it, and an object gives `object_text`, what its
/// `__toString` returned; everything else gives `None`.
pub open spec fn string_coercion(
    v: ZvalView,
    double_text: Option<Seq<char>>,
    object_text: Option<Seq<char>>,
) -> Option<Seq<char>> {
    match v {
        ZvalView::Str(bytes) => if vstd::utf8::valid_utf8(bytes) {
            Some(vstd::utf8::decode_utf8(bytes))
        } else {
            None
        },
        ZvalView::True => Some(seq!['1']),
        ZvalView::False | ZvalView::Null => Some(Seq::empty()),
        ZvalView::Long(n) => Some(dec_signed(n as int)),
        ZvalView::Double(b) => if double_is_nan(b) {
            Some(seq!['N', 'A', 'N'])
        } else if double_is_infinite(b) {
            if double_negative(b) {
                Some(seq!['-', 'I', 'N', 'F'])
            } else {
                Some(seq!['I', 'N', 'F'])
            }
        } else {
            double_text
        },
        ZvalView::Object(_) => object_text,
        _ => None,
    }
}

/// The text of an optional string.
pub open spec fn opt_text(s: Option<String>) -> Option<Seq<char>> {
    match s {
        Some(t) => Some(t@),
        None => None,
    }
}

impl Zval {
    /// Coerces the value to a string following PHP's rules (see
    /// [`string_coercion`]). The library holds no floating point and runs no
    /// PHP code: the caller formats a finite double (`double_text`) and calls
    /// an object's `__toString` (`object_text`); each is used only for a value
    /// of that kind.
    pub fn coerce_to_string(&self, double_text: Option<String>, object_text: Option<String>) -> (r:
        Option<String>)
        ensures
            opt_text(r) == string_coercion(self@, opt_text(double_text), opt_text(object_text)),
    {
        proof {
            reveal_strlit("1");
            reveal_strlit("NAN");
            reveal_strlit("INF");
            reveal_strlit("-INF");
        }
        if let Some(s) = self.str() {
            return Some(String::from_str(s));
        }
        if let Some(b) = self.bool() {
            return Some(if b {
                String::from_str("1")
            } else {
                String::new()
            });
        }
        if self.is_null() {
            return Some(String::new());
        }
        if let Some(l) = self.long() {
            let mut out = String::new();
            append_signed_decimal(&mut out, l);
            assert(out@ =~= dec_signed(l as int));
            return Some(out);
        }
        match self {
            Zval::Double(b) => {
                let bits: u64 = *b;
                let exp: u64 = (bits >> 52) & 0x7FF;
                let frac: u64 = bits & 0xF_FFFF_FFFF_FFFF;
                assert(exp == (bits / 0x10_0000_0000_0000) % 0x800) by (bit_vector)
                    requires
                        exp == (bits >> 52) & 0x7FF,
                ;
                assert(frac == bits % 0x10_0000_0000_0000) by (bit_vector)
                    requires
                        frac == bits & 0xF_FFFF_FFFF_FFFF,
                ;
                if exp == 0x7FF {
                    if frac != 0 {
                        return Some(String::from_str("NAN"));
                    }
                    return Some(if bits >= 0x8000_0000_0000_0000u64 {
                        String::from_str("-INF")
                    } else {
                        String::from_str("INF")
                    });
                }
                return double_text;
            },
            Zval::Object(_) => {
                return object_text;
            },
            _ => {},
        }
        None
    }
}

} // verus!
