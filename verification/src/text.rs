//! Character-level helpers shared by the formatting and parsing code.
use vstd::prelude::*;

verus! {

/// Joins `parts` with `sep` between consecutive parts.
pub open spec fn seq_join(parts: Seq<Seq<char>>, sep: Seq<char>) -> Seq<char>
    decreases parts.len(),
{
    if parts.len() == 0 {
        Seq::empty()
    } else if parts.len() == 1 {
        parts[0]
    } else {
        seq_join(parts.drop_last(), sep) + sep + parts.last()
    }
}

/// The character views of a vector of strings.
pub open spec fn views(v: Seq<String>) -> Seq<Seq<char>> {
    v.map_values(|s: String| s@)
}

/// Whitespace as `char::is_whitespace` defines it (the Unicode `White_Space` property).
pub open spec fn is_space(c: char) -> bool {
    let u = c as u32;
    (0x9 <= u && u <= 0xD) || u == 0x20 || u == 0x85 || u == 0xA0 || u == 0x1680 || (0x2000 <= u
        && u <= 0x200A) || u == 0x2028 || u == 0x2029 || u == 0x202F || u == 0x205F || u == 0x3000
}

/// Whitespace as `u8::is_ascii_whitespace` defines it.
pub open spec fn is_ascii_space(b: u8) -> bool {
    b == 0x20 || b == 0x09 || b == 0x0A || b == 0x0C || b == 0x0D
}

/// Index of the first character of `s` at or after `from` that is not whitespace
/// (`s.len()` when there is none).
pub open spec fn first_non_space(s: Seq<char>, from: int) -> int
    decreases s.len() - from,
{
    if from >= s.len() {
        s.len() as int
    } else if is_space(s[from]) {
        first_non_space(s, from + 1)
    } else {
        from
    }
}

/// Length of `s` once trailing whitespace is removed.
pub open spec fn end_non_space(s: Seq<char>, to: int) -> int
    decreases to,
{
    if to <= 0 {
        0
    } else if is_space(s[to - 1]) {
        end_non_space(s, to - 1)
    } else {
        to
    }
}

/// `s` with leading whitespace removed.
pub open spec fn trim_start(s: Seq<char>) -> Seq<char> {
    s.subrange(first_non_space(s, 0), s.len() as int)
}

/// `s` with trailing whitespace removed.
pub open spec fn trim_end(s: Seq<char>) -> Seq<char> {
    s.subrange(0, end_non_space(s, s.len() as int))
}

/// `s` with leading and trailing whitespace removed.
pub open spec fn trim(s: Seq<char>) -> Seq<char> {
    trim_end(trim_start(s))
}

pub proof fn lemma_first_non_space(s: Seq<char>, from: int)
    requires
        0 <= from <= s.len(),
    ensures
        from <= first_non_space(s, from) <= s.len(),
        forall|k: int| from <= k < first_non_space(s, from) ==> is_space(#[trigger] s[k]),
        first_non_space(s, from) < s.len() ==> !is_space(s[first_non_space(s, from)]),
    decreases s.len() - from,
{
    if from < s.len() && is_space(s[from]) {
        lemma_first_non_space(s, from + 1);
    }
}

pub proof fn lemma_end_non_space(s: Seq<char>, to: int)
    requires
        0 <= to <= s.len(),
    ensures
        0 <= end_non_space(s, to) <= to,
        forall|k: int| end_non_space(s, to) <= k < to ==> is_space(#[trigger] s[k]),
        end_non_space(s, to) > 0 ==> !is_space(s[end_non_space(s, to) - 1]),
    decreases to,
{
    if to > 0 && is_space(s[to - 1]) {
        lemma_end_non_space(s, to - 1);
    }
}

/// Appends one character to a string (`String::push`).
#[verifier::external_body]
pub fn push_char(s: &mut String, c: char)
    ensures
        final(s)@ == old(s)@.push(c),
{
    s.push(c);
}

/// Whether `c` is whitespace (`char::is_whitespace`).
pub fn char_is_space(c: char) -> (r: bool)
    ensures
        r == is_space(c),
{
    let u = c as u32;
    (0x9 <= u && u <= 0xD) || u == 0x20 || u == 0x85 || u == 0xA0 || u == 0x1680 || (0x2000 <= u
        && u <= 0x200A) || u == 0x2028 || u == 0x2029 || u == 0x202F || u == 0x205F || u == 0x3000
}

/// Copies the characters `from..to` of `s` into a new string.
pub fn substring(s: &str, from: usize, to: usize) -> (r: String)
    requires
        from <= to <= s@.len(),
    ensures
        r@ == s@.subrange(from as int, to as int),
{
    String::from_str(s.substring_char(from, to))
}

/// Returns `s` without leading and trailing whitespace, as a new string.
pub fn trimmed(s: &str) -> (r: String)
    ensures
        r@ == trim(s@),
{
    String::from_str(trim_str(s))
}

/// The part of `s` without leading and trailing whitespace.
pub fn trim_str(s: &str) -> (r: &str)
    ensures
        r@ == trim(s@),
{
    let n = s.unicode_len();
    let mut i: usize = 0;
    while i < n && char_is_space(s.get_char(i))
        invariant
            n == s@.len(),
            i <= n,
            first_non_space(s@, 0) == first_non_space(s@, i as int),
        decreases n - i,
    {
        i = i + 1;
    }
    proof {
        lemma_first_non_space(s@, i as int);
    }
    let ghost t = s@.subrange(i as int, n as int);
    assert(trim_start(s@) =~= t);
    let mut j: usize = n;
    while j > i && char_is_space(s.get_char(j - 1))
        invariant
            n == s@.len(),
            i <= j <= n,
            t == s@.subrange(i as int, n as int),
            end_non_space(t, t.len() as int) == end_non_space(t, (j - i) as int),
        decreases j,
    {
        assert(t[(j - i) - 1] == s@[j - 1]);
        j = j - 1;
    }
    assert(end_non_space(t, (j - i) as int) == (j - i)) by {
        if j > i {
            assert(t[(j - i) - 1] == s@[j - 1]);
        }
    }
    assert(trim(s@) =~= s@.subrange(i as int, j as int));
    s.substring_char(i, j)
}

/// Appends `parts[0] + sep + parts[1] + ...` to `out`.
pub fn append_joined(out: &mut String, parts: &Vec<String>, sep: &str)
    ensures
        final(out)@ == old(out)@ + seq_join(views(parts@), sep@),
{
    let ghost start = out@;
    let ghost pv = views(parts@);
    let mut i: usize = 0;
    assert(seq_join(pv.take(0), sep@) =~= Seq::<char>::empty());
    assert(out@ =~= start + seq_join(pv.take(0), sep@));
    while i < parts.len()
        invariant
            pv == views(parts@),
            pv.len() == parts@.len(),
            i <= parts.len(),
            out@ == start + seq_join(pv.take(i as int), sep@),
        decreases parts.len() - i,
    {
        assert(pv.take(i + 1).drop_last() =~= pv.take(i as int));
        assert(pv[i as int] == parts@[i as int]@);
        if i != 0 {
            out.append(sep);
        }
        out.append(parts[i].as_str());
        i = i + 1;
    }
    assert(pv.take(parts.len() as int) =~= pv);
}

/// Index of the first `c` in `s`.
pub open spec fn first_index(s: Seq<char>, c: char) -> Option<int> {
    if exists|i: int| 0 <= i < s.len() && s[i] == c {
        Some(choose|i: int| 0 <= i < s.len() && s[i] == c && forall|j: int| 0 <= j < i ==> s[j] != c)
    } else {
        None
    }
}

/// Index of the last `c` in `s`.
pub open spec fn last_index(s: Seq<char>, c: char) -> Option<int>
    decreases s.len(),
{
    if s.len() == 0 {
        None
    } else if s.last() == c {
        Some(s.len() - 1)
    } else {
        last_index(s.drop_last(), c)
    }
}

/// Whether `p` occurs in `s` at `i`.
pub open spec fn occurs_at(s: Seq<char>, p: Seq<char>, i: int) -> bool {
    0 <= i && i + p.len() <= s.len() && s.subrange(i, i + p.len()) == p
}

/// Index of the first occurrence of `p` in `s`.
pub open spec fn first_match(s: Seq<char>, p: Seq<char>) -> Option<int> {
    if exists|i: int| occurs_at(s, p, i) {
        Some(choose|i: int| occurs_at(s, p, i) && forall|j: int| 0 <= j < i ==> !occurs_at(s, p, j))
    } else {
        None
    }
}

/// Whether `s` starts with `p`.
pub open spec fn starts_with(s: Seq<char>, p: Seq<char>) -> bool {
    p.len() <= s.len() && s.subrange(0, p.len() as int) == p
}

/// What [`last_index`] finds.
pub proof fn lemma_last_index(s: Seq<char>, c: char)
    ensures
        match last_index(s, c) {
            Some(i) => 0 <= i < s.len() && s[i] == c && forall|j: int| i < j < s.len() ==> s[j] != c,
            None => forall|j: int| 0 <= j < s.len() ==> s[j] != c,
        },
    decreases s.len(),
{
    if s.len() > 0 && s.last() != c {
        lemma_last_index(s.drop_last(), c);
        assert forall|j: int| 0 <= j < s.len() - 1 implies s.drop_last()[j] == s[j] by {}
    }
}

proof fn lemma_last_index_prefix(s: Seq<char>, c: char, k: int)
    requires
        0 <= k <= s.len(),
        forall|j: int| k <= j < s.len() ==> s[j] != c,
    ensures
        last_index(s, c) == last_index(s.take(k), c),
    decreases s.len() - k,
{
    if k < s.len() {
        assert(s.drop_last().take(k) =~= s.take(k));
        lemma_last_index_prefix(s.drop_last(), c, k);
    } else {
        assert(s.take(k) =~= s);
    }
}

/// The first occurrence of `c` in `s`.
pub fn find_char(s: &str, c: char) -> (r: Option<usize>)
    ensures
        match r {
            Some(i) => first_index(s@, c) == Some(i as int) && i < s@.len() && s@[i as int] == c,
            None => first_index(s@, c) is None,
        },
{
    let n = s.unicode_len();
    let mut i: usize = 0;
    while i < n
        invariant
            n == s@.len(),
            i <= n,
            forall|j: int| 0 <= j < i ==> s@[j] != c,
        decreases n - i,
    {
        if s.get_char(i) == c {
            assert(first_index(s@, c) == Some(i as int)) by {
                assert(0 <= i < s@.len() && s@[i as int] == c && forall|j: int| 0 <= j < i ==> s@[j] != c);
                let k = choose|k: int| 0 <= k < s@.len() && s@[k] == c && forall|j: int| 0 <= j < k ==> s@[j] != c;
                if k < i {
                    assert(s@[k] != c);
                }
                if k > i {
                    assert(s@[i as int] != c);
                }
            }
            return Some(i);
        }
        i = i + 1;
    }
    None
}

/// The last occurrence of `c` in `s`.
pub fn rfind_char(s: &str, c: char) -> (r: Option<usize>)
    ensures
        match r {
            Some(i) => last_index(s@, c) == Some(i as int) && i < s@.len() && s@[i as int] == c,
            None => last_index(s@, c) is None,
        },
{
    let n = s.unicode_len();
    let mut i: usize = n;
    while i > 0
        invariant
            n == s@.len(),
            i <= n,
            forall|j: int| i <= j < n ==> s@[j] != c,
        decreases i,
    {
        if s.get_char(i - 1) == c {
            let k0 = i - 1;
            proof {
                lemma_last_index_prefix(s@, c, i as int);
                assert(s@.take(i as int).last() == c);
            }
            return Some(k0);
        }
        i = i - 1;
    }
    proof {
        lemma_last_index_prefix(s@, c, 0);
    }
    None
}

/// Whether `p` occurs in `s` at `i`.
fn matches_at(s: &str, p: &str, i: usize) -> (r: bool)
    requires
        i <= s@.len(),
    ensures
        r == occurs_at(s@, p@, i as int),
{
    let n = s.unicode_len();
    let m = p.unicode_len();
    if m > n - i {
        return false;
    }
    let mut k: usize = 0;
    while k < m
        invariant
            n == s@.len(),
            m == p@.len(),
            i + m <= n,
            k <= m,
            forall|j: int| 0 <= j < k ==> s@[i + j] == p@[j],
        decreases m - k,
    {
        if s.get_char(i + k) != p.get_char(k) {
            assert(s@.subrange(i as int, i + m)[k as int] != p@[k as int]);
            return false;
        }
        k = k + 1;
    }
    assert(s@.subrange(i as int, i + m) =~= p@);
    true
}

proof fn lemma_first_match_at(s: Seq<char>, p: Seq<char>, i: int)
    requires
        occurs_at(s, p, i),
        forall|j: int| 0 <= j < i ==> !occurs_at(s, p, j),
    ensures
        first_match(s, p) == Some(i),
{
    let k = choose|k: int| occurs_at(s, p, k) && forall|j: int| 0 <= j < k ==> !occurs_at(s, p, j);
    if k < i {
        assert(!occurs_at(s, p, k));
    }
    if k > i {
        assert(!occurs_at(s, p, i));
    }
}

/// The first occurrence of `p` in `s`.
pub fn find_str(s: &str, p: &str) -> (r: Option<usize>)
    ensures
        match r {
            Some(i) => first_match(s@, p@) == Some(i as int) && occurs_at(s@, p@, i as int),
            None => first_match(s@, p@) is None,
        },
{
    let n = s.unicode_len();
    let m = p.unicode_len();
    if m > n {
        assert forall|j: int| !occurs_at(s@, p@, j) by {}
        return None;
    }
    let mut i: usize = 0;
    loop
        invariant
            n == s@.len(),
            m == p@.len(),
            m <= n,
            i <= n - m,
            forall|j: int| 0 <= j < i ==> !occurs_at(s@, p@, j),
        ensures
            forall|j: int| !occurs_at(s@, p@, j),
        decreases n - m - i,
    {
        if matches_at(s, p, i) {
            proof {
                lemma_first_match_at(s@, p@, i as int);
            }
            return Some(i);
        }
        if i == n - m {
            assert forall|j: int| !occurs_at(s@, p@, j) by {
                if j > i {
                    assert(!(j + p@.len() <= s@.len()));
                }
            }
            break;
        }
        i = i + 1;
    }
    None
}

/// Whether `s` starts with `p`.
pub fn has_prefix(s: &str, p: &str) -> (r: bool)
    ensures
        r == starts_with(s@, p@),
{
    let r = matches_at(s, p, 0);
    assert(occurs_at(s@, p@, 0) == starts_with(s@, p@));
    r
}

/// `s` without the prefix `p`, when it starts with it.
pub fn strip_prefix<'a>(s: &'a str, p: &str) -> (r: Option<&'a str>)
    ensures
        match r {
            Some(t) => starts_with(s@, p@) && t@ == s@.subrange(p@.len() as int, s@.len() as int),
            None => !starts_with(s@, p@),
        },
{
    if has_prefix(s, p) {
        let m = p.unicode_len();
        Some(s.substring_char(m, s.unicode_len()))
    } else {
        None
    }
}

/// Joining two lists is joining each, with one separator between them when
/// both are non-empty.
pub proof fn lemma_join_concat(a: Seq<Seq<char>>, b: Seq<Seq<char>>, sep: Seq<char>)
    ensures
        seq_join(a + b, sep) == seq_join(a, sep) + (if a.len() > 0 && b.len() > 0 {
            sep
        } else {
            Seq::empty()
        }) + seq_join(b, sep),
    decreases b.len(),
{
    if b.len() == 0 {
        assert(a + b =~= a);
        assert(seq_join(a, sep) + Seq::<char>::empty() + Seq::<char>::empty() =~= seq_join(a, sep));
    } else {
        lemma_join_concat(a, b.drop_last(), sep);
        assert((a + b).drop_last() =~= a + b.drop_last());
        if a.len() == 0 {
            assert(a + b =~= b);
            assert(Seq::<char>::empty() + Seq::<char>::empty() + seq_join(b, sep) =~= seq_join(b, sep));
        } else if b.len() == 1 {
            assert(b.drop_last() =~= Seq::<Seq<char>>::empty());
            assert(a + b.drop_last() =~= a);
            assert(seq_join(a + b, sep) =~= seq_join(a, sep) + sep + b[0]);
        } else {
            assert(seq_join(a + b, sep) =~= seq_join(a + b.drop_last(), sep) + sep + b.last());
        }
    }
}

/// The decimal digit character for `d < 10`.
pub open spec fn digit_char(d: nat) -> char {
    ((d + 48) as u32) as char
}

/// Decimal spelling of a natural number, without leading zeros.
pub open spec fn dec(n: nat) -> Seq<char>
    decreases n,
{
    if n < 10 {
        seq![digit_char(n)]
    } else {
        dec(n / 10).push(digit_char(n % 10))
    }
}

/// Decimal spelling of an integer, with a leading `-` for negative values.
pub open spec fn dec_signed(n: int) -> Seq<char> {
    if n < 0 {
        seq!['-'] + dec((-n) as nat)
    } else {
        dec(n as nat)
    }
}

/// Appends the decimal spelling of `n`.
pub fn append_decimal(out: &mut String, n: u64)
    ensures
        final(out)@ == old(out)@ + dec(n as nat),
    decreases n,
{
    if n >= 10 {
        append_decimal(out, n / 10);
    }
    let d = n % 10;
    let ch = if d == 0 {
        '0'
    } else if d == 1 {
        '1'
    } else if d == 2 {
        '2'
    } else if d == 3 {
        '3'
    } else if d == 4 {
        '4'
    } else if d == 5 {
        '5'
    } else if d == 6 {
        '6'
    } else if d == 7 {
        '7'
    } else if d == 8 {
        '8'
    } else {
        '9'
    };
    assert(ch == digit_char(d as nat));
    push_char(out, ch);
    assert(out@ =~= old(out)@ + dec(n as nat));
}

/// Appends the decimal spelling of a signed integer.
pub fn append_signed_decimal(out: &mut String, n: i64)
    ensures
        final(out)@ == old(out)@ + dec_signed(n as int),
{
    if n < 0 {
        push_char(out, '-');
        let m: u64 = if n == i64::MIN {
            0x8000_0000_0000_0000u64
        } else {
            (-n) as u64
        };
        append_decimal(out, m);
        assert(out@ =~= old(out)@ + dec_signed(n as int));
    } else {
        append_decimal(out, n as u64);
    }
}

/// The decimal spelling of `n` as a new string.
pub fn decimal(n: u64) -> (r: String)
    ensures
        r@ == dec(n as nat),
{
    let mut s = String::new();
    append_decimal(&mut s, n);
    assert(s@ =~= dec(n as nat));
    s
}

} // verus!
