//! Character-level helpers shared by the lexer and the value parsers.
//!
//! Every helper works on a slice of `char`s and is specified over the
//! slice's view (`Seq<char>`).
use vstd::prelude::*;
use vstd::slice::slice_subrange;

verus! {

broadcast use vstd::seq_lib::group_seq_properties;

/// The Unicode `White_Space` property (the set that `char::is_whitespace` reports).
pub open spec fn is_ws(c: char) -> bool {
    let u = c as u32;
    (9 <= u && u <= 13) || u == 32 || u == 0x85 || u == 0xA0 || u == 0x1680 || (0x2000 <= u
        && u <= 0x200A) || u == 0x2028 || u == 0x2029 || u == 0x202F || u == 0x205F || u == 0x3000
}

pub fn is_whitespace(c: char) -> (r: bool)
    ensures
        r == is_ws(c),
{
    let u = c as u32;
    (9 <= u && u <= 13) || u == 32 || u == 0x85 || u == 0xA0 || u == 0x1680 || (0x2000 <= u
        && u <= 0x200A) || u == 0x2028 || u == 0x2029 || u == 0x202F || u == 0x205F || u == 0x3000
}

pub open spec fn is_digit(c: char) -> bool {
    '0' <= c && c <= '9'
}

pub open spec fn is_alpha(c: char) -> bool {
    ('a' <= c && c <= 'z') || ('A' <= c && c <= 'Z')
}

/// ASCII letters, digits, `-` and `_`: the characters of a CSS identifier.
pub open spec fn is_ident_char(c: char) -> bool {
    is_alpha(c) || is_digit(c) || c == '-' || c == '_'
}

pub fn char_is_digit(c: char) -> (r: bool)
    ensures
        r == is_digit(c),
{
    '0' <= c && c <= '9'
}

pub fn char_is_alpha(c: char) -> (r: bool)
    ensures
        r == is_alpha(c),
{
    ('a' <= c && c <= 'z') || ('A' <= c && c <= 'Z')
}

pub fn char_is_ident(c: char) -> (r: bool)
    ensures
        r == is_ident_char(c),
{
    char_is_alpha(c) || char_is_digit(c) || c == '-' || c == '_'
}

// ---------------------------------------------------------------------------
// Conversions between `&str`, `String` and `char` slices
// ---------------------------------------------------------------------------

/// The characters of `s`, in order.
pub fn chars_of(s: &str) -> (v: Vec<char>)
    ensures
        v@ == s@,
{
    let n = s.unicode_len();
    let mut v: Vec<char> = Vec::new();
    let mut i: usize = 0;
    while i < n
        invariant
            n == s@.len(),
            i <= n,
            v@ == s@.take(i as int),
        decreases n - i,
    {
        v.push(s.get_char(i));
        i = i + 1;
    }
    v
}

/// `FromIterator<&char> for String`: the string made of the characters `cs`.
#[verifier::external_body]
pub fn string_from_chars(cs: &[char]) -> (r: String)
    ensures
        r@ == cs@,
{
    cs.iter().collect()
}

// ---------------------------------------------------------------------------
// Trimming
// ---------------------------------------------------------------------------

pub open spec fn trim_start(s: Seq<char>) -> Seq<char>
    decreases s.len(),
{
    if s.len() > 0 && is_ws(s[0]) {
        trim_start(s.drop_first())
    } else {
        s
    }
}

pub open spec fn trim_end(s: Seq<char>) -> Seq<char>
    decreases s.len(),
{
    if s.len() > 0 && is_ws(s.last()) {
        trim_end(s.drop_last())
    } else {
        s
    }
}

pub open spec fn trim(s: Seq<char>) -> Seq<char> {
    trim_end(trim_start(s))
}

pub fn trim_start_slice(s: &[char]) -> (r: &[char])
    ensures
        r@ == trim_start(s@),
{
    let n = s.len();
    let mut i: usize = 0;
    while i < n && is_whitespace(s[i])
        invariant
            n == s@.len(),
            i <= n,
            trim_start(s@) == trim_start(s@.skip(i as int)),
        decreases n - i,
    {
        assert(s@.skip(i as int).drop_first() =~= s@.skip(i + 1));
        i = i + 1;
    }
    slice_subrange(s, i, n)
}

pub fn trim_end_slice(s: &[char]) -> (r: &[char])
    ensures
        r@ == trim_end(s@),
{
    let mut j: usize = s.len();
    while j > 0 && is_whitespace(s[j - 1])
        invariant
            j <= s@.len(),
            trim_end(s@) == trim_end(s@.take(j as int)),
        decreases j,
    {
        assert(s@.take(j as int).drop_last() =~= s@.take(j - 1));
        j = j - 1;
    }
    slice_subrange(s, 0, j)
}

pub fn trim_slice(s: &[char]) -> (r: &[char])
    ensures
        r@ == trim(s@),
{
    trim_end_slice(trim_start_slice(s))
}

/// Trimming removes whitespace only from the ends: a trimmed sequence is a
/// contiguous piece of the sequence.
pub proof fn lemma_trim_end_is_prefix(s: Seq<char>)
    ensures
        trim_end(s).len() <= s.len(),
        trim_end(s) == s.take(trim_end(s).len() as int),
        trim_end(s).len() > 0 ==> !is_ws(trim_end(s).last()),
    decreases s.len(),
{
    if s.len() > 0 && is_ws(s.last()) {
        lemma_trim_end_is_prefix(s.drop_last());
        assert(s.drop_last().take(trim_end(s).len() as int) =~= s.take(trim_end(s).len() as int));
    } else {
        assert(s.take(s.len() as int) =~= s);
    }
}

pub proof fn lemma_trim_start_is_suffix(s: Seq<char>)
    ensures
        trim_start(s).len() <= s.len(),
        trim_start(s) == s.skip(s.len() - trim_start(s).len()),
        trim_start(s).len() > 0 ==> !is_ws(trim_start(s)[0]),
    decreases s.len(),
{
    if s.len() > 0 && is_ws(s[0]) {
        lemma_trim_start_is_suffix(s.drop_first());
        assert(s.drop_first().skip(s.drop_first().len() - trim_start(s).len()) =~= s.skip(
            s.len() - trim_start(s).len(),
        ));
    } else {
        assert(s.skip(0) =~= s);
    }
}

// ---------------------------------------------------------------------------
// Prefixes, suffixes, equality with literals
// ---------------------------------------------------------------------------

pub open spec fn starts_with(s: Seq<char>, p: Seq<char>) -> bool {
    p.len() <= s.len() && s.take(p.len() as int) == p
}

pub open spec fn ends_with(s: Seq<char>, p: Seq<char>) -> bool {
    p.len() <= s.len() && s.skip(s.len() - p.len()) == p
}

/// `s` with the prefix `p` removed, where `s` starts with `p`.
pub open spec fn strip_prefix(s: Seq<char>, p: Seq<char>) -> Option<Seq<char>> {
    if starts_with(s, p) {
        Some(s.skip(p.len() as int))
    } else {
        None
    }
}

/// `s` with the suffix `p` removed, where `s` ends with `p`.
pub open spec fn strip_suffix(s: Seq<char>, p: Seq<char>) -> Option<Seq<char>> {
    if ends_with(s, p) {
        Some(s.take(s.len() - p.len()))
    } else {
        None
    }
}

/// Whether `s[at..]` begins with the characters of `p`.
pub fn matches_at(s: &[char], at: usize, p: &str) -> (r: bool)
    requires
        at <= s@.len(),
    ensures
        r == (at + p@.len() <= s@.len() && s@.subrange(at as int, at + p@.len()) == p@),
{
    let m = p.unicode_len();
    if m > s.len() - at {
        return false;
    }
    let mut k: usize = 0;
    while k < m
        invariant
            m == p@.len(),
            at + m <= s@.len(),
            s@.len() == s.len(),
            k <= m,
            forall|t: int| 0 <= t < k ==> s@[at + t] == p@[t],
        decreases m - k,
    {
        if s[at + k] != p.get_char(k) {
            assert(s@.subrange(at as int, at + m)[k as int] != p@[k as int]);
            return false;
        }
        k = k + 1;
    }
    assert(s@.subrange(at as int, at + m) =~= p@);
    true
}

pub fn slice_starts_with(s: &[char], p: &str) -> (r: bool)
    ensures
        r == starts_with(s@, p@),
{
    matches_at(s, 0, p)
}

pub fn slice_ends_with(s: &[char], p: &str) -> (r: bool)
    ensures
        r == ends_with(s@, p@),
{
    let m = p.unicode_len();
    if m > s.len() {
        return false;
    }
    matches_at(s, s.len() - m, p)
}

pub fn slice_eq(s: &[char], p: &str) -> (r: bool)
    ensures
        r == (s@ == p@),
{
    if s.len() != p.unicode_len() {
        return false;
    }
    let r = matches_at(s, 0, p);
    assert(s@.subrange(0, s@.len() as int) =~= s@);
    r
}

pub fn slice_strip_prefix<'a>(s: &'a [char], p: &str) -> (r: Option<&'a [char]>)
    ensures
        r matches Some(t) ==> strip_prefix(s@, p@) == Some(t@),
        r is None ==> strip_prefix(s@, p@) is None,
{
    if slice_starts_with(s, p) {
        Some(slice_subrange(s, p.unicode_len(), s.len()))
    } else {
        None
    }
}

pub fn slice_strip_suffix<'a>(s: &'a [char], p: &str) -> (r: Option<&'a [char]>)
    ensures
        r matches Some(t) ==> strip_suffix(s@, p@) == Some(t@),
        r is None ==> strip_suffix(s@, p@) is None,
{
    if slice_ends_with(s, p) {
        Some(slice_subrange(s, 0, s.len() - p.unicode_len()))
    } else {
        None
    }
}

// ---------------------------------------------------------------------------
// Searching
// ---------------------------------------------------------------------------

/// Index of the first `c` in `s` at or after `i`, or `s.len()` if there is none.
pub open spec fn index_from(s: Seq<char>, c: char, i: int) -> int
    decreases s.len() - i,
{
    if i < 0 || i >= s.len() {
        s.len() as int
    } else if s[i] == c {
        i
    } else {
        index_from(s, c, i + 1)
    }
}

/// Position of the first `c` in `s` (what `str::find` with a `char` pattern reports).
pub open spec fn find(s: Seq<char>, c: char) -> Option<int> {
    if index_from(s, c, 0) < s.len() {
        Some(index_from(s, c, 0))
    } else {
        None
    }
}

pub proof fn lemma_index_from(s: Seq<char>, c: char, i: int)
    requires
        0 <= i <= s.len(),
    ensures
        i <= index_from(s, c, i) <= s.len(),
        index_from(s, c, i) < s.len() ==> s[index_from(s, c, i)] == c,
        forall|k: int| i <= k < index_from(s, c, i) ==> s[k] != c,
    decreases s.len() - i,
{
    if i < s.len() && s[i] != c {
        lemma_index_from(s, c, i + 1);
    }
}

/// `find` reports the first occurrence.
pub proof fn lemma_find_first(s: Seq<char>, c: char, k: int)
    requires
        0 <= k < s.len(),
        s[k] == c,
        forall|t: int| 0 <= t < k ==> s[t] != c,
    ensures
        find(s, c) == Some(k),
{
    lemma_index_from(s, c, 0);
}

/// `find` reports nothing where `c` does not occur.
pub proof fn lemma_find_none(s: Seq<char>, c: char)
    requires
        forall|t: int| 0 <= t < s.len() ==> s[t] != c,
    ensures
        find(s, c) is None,
{
    lemma_index_from(s, c, 0);
}

/// The pieces of `s` between occurrences of `c` (what `str::split` with a
/// `char` pattern yields).
pub open spec fn split_on(s: Seq<char>, c: char) -> Seq<Seq<char>>
    decreases s.len(),
{
    proof {
        lemma_index_from(s, c, 0);
    }
    match find(s, c) {
        Some(k) => seq![s.take(k)] + split_on(s.skip(k + 1), c),
        None => seq![s],
    }
}

/// The piece `cs[a..b]` with whitespace trimmed from both ends, as a range.
pub fn trim_range(cs: &[char], a: usize, b: usize) -> (r: (usize, usize))
    requires
        a <= b <= cs@.len(),
    ensures
        a <= r.0 <= r.1 <= b,
        cs@.subrange(r.0 as int, r.1 as int) == trim(cs@.subrange(a as int, b as int)),
{
    let mut i = a;
    while i < b && is_whitespace(cs[i])
        invariant
            a <= i <= b <= cs@.len(),
            trim_start(cs@.subrange(a as int, b as int)) == trim_start(
                cs@.subrange(i as int, b as int),
            ),
        decreases b - i,
    {
        assert(cs@.subrange(i as int, b as int).drop_first() =~= cs@.subrange(i + 1, b as int));
        i = i + 1;
    }
    assert(trim_start(cs@.subrange(i as int, b as int)) == cs@.subrange(i as int, b as int));
    let mut j = b;
    while j > i && is_whitespace(cs[j - 1])
        invariant
            a <= i <= j <= b <= cs@.len(),
            trim_end(cs@.subrange(i as int, b as int)) == trim_end(cs@.subrange(i as int, j as int)),
        decreases j,
    {
        assert(cs@.subrange(i as int, j as int).drop_last() =~= cs@.subrange(i as int, j - 1));
        j = j - 1;
    }
    (i, j)
}

pub fn slice_find(s: &[char], c: char) -> (r: Option<usize>)
    ensures
        r matches Some(k) ==> find(s@, c) == Some(k as int),
        r is None ==> find(s@, c) is None,
{
    let n = s.len();
    let mut i: usize = 0;
    while i < n
        invariant
            n == s@.len(),
            i <= n,
            index_from(s@, c, 0) == index_from(s@, c, i as int),
        decreases n - i,
    {
        if s[i] == c {
            return Some(i);
        }
        i = i + 1;
    }
    None
}

// ---------------------------------------------------------------------------
// Integers: what `str::parse` accepts for the integer types
// ---------------------------------------------------------------------------

pub open spec fn all_digits(s: Seq<char>) -> bool {
    forall|i: int| 0 <= i < s.len() ==> is_digit(s[i])
}

pub open spec fn digit_value(c: char) -> nat {
    ((c as int) - ('0' as int)) as nat
}

/// The number that the decimal digits `s` denote.
pub open spec fn digits_value(s: Seq<char>) -> nat
    decreases s.len(),
{
    if s.len() == 0 {
        0
    } else {
        digits_value(s.drop_last()) * 10 + digit_value(s.last())
    }
}

/// The value of an unsigned integer literal: an optional `+` then one or more
/// ASCII digits, no larger than `max`.
pub open spec fn parse_unsigned(s: Seq<char>, max: nat) -> Option<nat> {
    let d = if s.len() > 0 && s[0] == '+' {
        s.drop_first()
    } else {
        s
    };
    if d.len() > 0 && all_digits(d) && digits_value(d) <= max {
        Some(digits_value(d))
    } else {
        None
    }
}

/// The value of a signed integer literal: an optional `+` or `-` then one or
/// more ASCII digits, within `[min, max]`.
pub open spec fn parse_signed(s: Seq<char>, min: int, max: int) -> Option<int> {
    let neg = s.len() > 0 && s[0] == '-';
    let d = if s.len() > 0 && (s[0] == '+' || s[0] == '-') {
        s.drop_first()
    } else {
        s
    };
    let v: int = if neg {
        -digits_value(d)
    } else {
        digits_value(d) as int
    };
    if d.len() > 0 && all_digits(d) && min <= v && v <= max {
        Some(v)
    } else {
        None
    }
}

/// `digits` read as a number, or `None` where a character is not a digit,
/// `digits` is empty, or the number exceeds `u64::MAX`.
pub fn digits_to_u64(d: &[char]) -> (r: Option<u64>)
    ensures
        r matches Some(v) ==> d@.len() > 0 && all_digits(d@) && v == digits_value(d@),
        r is None ==> !(d@.len() > 0 && all_digits(d@) && digits_value(d@) <= u64::MAX),
{
    let n = d.len();
    if n == 0 {
        return None;
    }
    let mut v: u64 = 0;
    let mut over = false;
    let mut i: usize = 0;
    while i < n
        invariant
            n == d@.len(),
            i <= n,
            all_digits(d@.take(i as int)),
            over ==> digits_value(d@.take(i as int)) > u64::MAX,
            !over ==> v == digits_value(d@.take(i as int)),
        decreases n - i,
    {
        let c = d[i];
        if !char_is_digit(c) {
            assert(!all_digits(d@));
            return None;
        }
        assert(d@.take(i + 1).drop_last() =~= d@.take(i as int));
        assert(d@.take(i + 1).last() == c);
        let dv = (c as u32 - '0' as u32) as u64;
        assert(dv == digit_value(c));
        if !over {
            if v > (u64::MAX - dv) / 10 {
                over = true;
            } else {
                v = v * 10 + dv;
            }
        }
        i = i + 1;
    }
    assert(d@.take(n as int) =~= d@);
    if over {
        None
    } else {
        Some(v)
    }
}

/// `str::parse::<u64>`.
pub fn parse_u64_chars(s: &[char]) -> (r: Option<u64>)
    ensures
        r matches Some(v) ==> parse_unsigned(s@, u64::MAX as nat) == Some(v as nat),
        r is None ==> parse_unsigned(s@, u64::MAX as nat) is None,
{
    let d = if s.len() > 0 && s[0] == '+' {
        slice_subrange(s, 1, s.len())
    } else {
        s
    };
    assert(s@.len() > 0 && s@[0] == '+' ==> d@ =~= s@.drop_first());
    digits_to_u64(d)
}

/// `str::parse::<u32>`.
pub fn parse_u32_chars(s: &[char]) -> (r: Option<u32>)
    ensures
        r matches Some(v) ==> parse_unsigned(s@, u32::MAX as nat) == Some(v as nat),
        r is None ==> parse_unsigned(s@, u32::MAX as nat) is None,
{
    match parse_u64_chars(s) {
        Some(v) => {
            if v <= u32::MAX as u64 {
                Some(v as u32)
            } else {
                None
            }
        },
        None => None,
    }
}

/// `str::parse::<i32>`.
pub fn parse_i32_chars(s: &[char]) -> (r: Option<i32>)
    ensures
        r matches Some(v) ==> parse_signed(s@, i32::MIN as int, i32::MAX as int) == Some(
            v as int,
        ),
        r is None ==> parse_signed(s@, i32::MIN as int, i32::MAX as int) is None,
{
    let neg = s.len() > 0 && s[0] == '-';
    let d = if s.len() > 0 && (s[0] == '+' || s[0] == '-') {
        slice_subrange(s, 1, s.len())
    } else {
        s
    };
    assert(s@.len() > 0 && (s@[0] == '+' || s@[0] == '-') ==> d@ =~= s@.drop_first());
    match digits_to_u64(d) {
        Some(v) => {
            if neg {
                if v <= 2147483648 {
                    Some((0 - (v as i64)) as i32)
                } else {
                    None
                }
            } else {
                if v <= 2147483647 {
                    Some(v as i32)
                } else {
                    None
                }
            }
        },
        None => None,
    }
}

// ---------------------------------------------------------------------------
// Floating-point literals: what `str::parse::<f32>` accepts
// ---------------------------------------------------------------------------

/// `c` equals the lowercase ASCII letter or symbol `l`, ignoring ASCII case.
pub open spec fn ci_char(c: char, l: char) -> bool {
    c == l || ('a' <= l && l <= 'z' && (c as u32) + 32 == (l as u32))
}

pub open spec fn ci_eq(s: Seq<char>, lit: Seq<char>) -> bool {
    s.len() == lit.len() && forall|i: int| 0 <= i < s.len() ==> ci_char(s[i], lit[i])
}

pub open spec fn count_char(s: Seq<char>, c: char) -> nat
    decreases s.len(),
{
    if s.len() == 0 {
        0
    } else {
        count_char(s.drop_last(), c) + if s.last() == c {
            1nat
        } else {
            0nat
        }
    }
}

/// `Digit+ | Digit+ '.' Digit* | Digit* '.' Digit+`: digits with at most one
/// point and at least one digit.
pub open spec fn is_mantissa(m: Seq<char>) -> bool {
    &&& forall|i: int| 0 <= i < m.len() ==> is_digit(m[i]) || m[i] == '.'
    &&& count_char(m, '.') <= 1
    &&& count_char(m, '.') < m.len()
}

/// Position of the first `e` or `E` at or after `i` (or `s.len()`).
pub open spec fn exp_index(s: Seq<char>, i: int) -> int
    decreases s.len() - i,
{
    if i < 0 || i >= s.len() {
        s.len() as int
    } else if s[i] == 'e' || s[i] == 'E' {
        i
    } else {
        exp_index(s, i + 1)
    }
}

/// `Sign? Digit+`.
pub open spec fn is_exponent_digits(x: Seq<char>) -> bool {
    let d = if x.len() > 0 && (x[0] == '+' || x[0] == '-') {
        x.drop_first()
    } else {
        x
    };
    d.len() > 0 && all_digits(d)
}

/// A decimal number: mantissa, then optionally `e` and the exponent.
pub open spec fn is_decimal(b: Seq<char>) -> bool {
    let k = exp_index(b, 0);
    is_mantissa(b.take(k)) && (k == b.len() || is_exponent_digits(b.skip(k + 1)))
}

/// The grammar of `f32::from_str` (letters in any ASCII case):
/// `Sign? ('inf' | 'infinity' | 'nan' | Number)`.
pub open spec fn is_float_literal(s: Seq<char>) -> bool {
    let b = if s.len() > 0 && (s[0] == '+' || s[0] == '-') {
        s.drop_first()
    } else {
        s
    };
    ci_eq(b, seq!['i', 'n', 'f']) || ci_eq(b, seq!['i', 'n', 'f', 'i', 'n', 'i', 't', 'y'])
        || ci_eq(b, seq!['n', 'a', 'n']) || is_decimal(b)
}

fn ci_char_exec(c: char, l: char) -> (r: bool)
    ensures
        r == ci_char(c, l),
{
    c == l || ('a' <= l && l <= 'z' && (c as u32) + 32 == (l as u32))
}

fn is_mantissa_exec(m: &[char]) -> (r: bool)
    ensures
        r == is_mantissa(m@),
{
    let n = m.len();
    let mut dots: usize = 0;
    let mut i: usize = 0;
    while i < n
        invariant
            n == m@.len(),
            i <= n,
            dots == count_char(m@.take(i as int), '.'),
            dots <= 1,
            forall|t: int| 0 <= t < i ==> is_digit(m@[t]) || m@[t] == '.',
        decreases n - i,
    {
        let c = m[i];
        assert(m@.take(i + 1).drop_last() =~= m@.take(i as int));
        if c == '.' {
            if dots == 1 {
                proof {
                    lemma_count_prefix(m@, i + 1, '.');
                }
                return false;
            }
            dots = dots + 1;
        } else if !char_is_digit(c) {
            return false;
        }
        i = i + 1;
    }
    assert(m@.take(n as int) =~= m@);
    dots < n
}

/// Counting in a prefix never exceeds counting in the whole.
pub proof fn lemma_count_prefix(s: Seq<char>, k: int, c: char)
    requires
        0 <= k <= s.len(),
    ensures
        count_char(s.take(k), c) <= count_char(s, c),
    decreases s.len() - k,
{
    if k < s.len() {
        lemma_count_prefix(s, k + 1, c);
        assert(s.take(k + 1).drop_last() =~= s.take(k));
        assert(count_char(s.take(k + 1), c) >= count_char(s.take(k + 1).drop_last(), c));
    } else {
        assert(s.take(k) =~= s);
    }
}

fn is_exponent_digits_exec(x: &[char]) -> (r: bool)
    ensures
        r == is_exponent_digits(x@),
{
    let d = if x.len() > 0 && (x[0] == '+' || x[0] == '-') {
        slice_subrange(x, 1, x.len())
    } else {
        x
    };
    assert(x@.len() > 0 && (x@[0] == '+' || x@[0] == '-') ==> d@ =~= x@.drop_first());
    assert(d@ == (if x@.len() > 0 && (x@[0] == '+' || x@[0] == '-') {
        x@.drop_first()
    } else {
        x@
    }));
    nonempty_digits(d)
}

/// `d` is one or more ASCII digits.
pub fn nonempty_digits(d: &[char]) -> (r: bool)
    ensures
        r == (d@.len() > 0 && all_digits(d@)),
{
    let n = d.len();
    if n == 0 {
        return false;
    }
    let mut i: usize = 0;
    while i < n
        invariant
            n == d@.len(),
            i <= n,
            forall|t: int| 0 <= t < i ==> is_digit(d@[t]),
        decreases n - i,
    {
        if !char_is_digit(d[i]) {
            assert(!all_digits(d@));
            return false;
        }
        i = i + 1;
    }
    true
}

/// `inf`, `infinity` or `nan`, in any ASCII case.
fn is_special_word(b: &[char]) -> (r: bool)
    ensures
        r == (ci_eq(b@, seq!['i', 'n', 'f']) || ci_eq(b@, seq!['i', 'n', 'f', 'i', 'n', 'i', 't', 'y'])
            || ci_eq(b@, seq!['n', 'a', 'n'])),
{
    let n = b.len();
    let inf = n >= 3 && ci_char_exec(b[0], 'i') && ci_char_exec(b[1], 'n') && ci_char_exec(b[2], 'f');
    let r = (n == 3 && inf) || (n == 8 && inf && ci_char_exec(b[3], 'i') && ci_char_exec(b[4], 'n')
        && ci_char_exec(b[5], 'i') && ci_char_exec(b[6], 't') && ci_char_exec(b[7], 'y')) || (n == 3
        && ci_char_exec(b[0], 'n') && ci_char_exec(b[1], 'a') && ci_char_exec(b[2], 'n'));
    assert(ci_eq(b@, seq!['i', 'n', 'f']) ==> ci_char(b@[0], 'i') && ci_char(b@[1], 'n') && ci_char(b@[2], 'f'));
    assert(ci_eq(b@, seq!['n', 'a', 'n']) ==> ci_char(b@[0], 'n') && ci_char(b@[1], 'a') && ci_char(b@[2], 'n'));
    assert(ci_eq(b@, seq!['i', 'n', 'f', 'i', 'n', 'i', 't', 'y']) ==> ci_char(b@[0], 'i') && ci_char(b@[1], 'n')
        && ci_char(b@[2], 'f') && ci_char(b@[3], 'i') && ci_char(b@[4], 'n') && ci_char(b@[5], 'i')
        && ci_char(b@[6], 't') && ci_char(b@[7], 'y'));
    r
}

/// Whether `str::parse::<f32>` accepts `s`.
pub fn float_literal(s: &[char]) -> (r: bool)
    ensures
        r == is_float_literal(s@),
{
    let b = if s.len() > 0 && (s[0] == '+' || s[0] == '-') {
        slice_subrange(s, 1, s.len())
    } else {
        s
    };
    assert(s@.len() > 0 && (s@[0] == '+' || s@[0] == '-') ==> b@ =~= s@.drop_first());
    if is_special_word(b) {
        return true;
    }
    let n = b.len();
    let mut k: usize = 0;
    while k < n && b[k] != 'e' && b[k] != 'E'
        invariant
            n == b@.len(),
            k <= n,
            exp_index(b@, 0) == exp_index(b@, k as int),
        decreases n - k,
    {
        k = k + 1;
    }
    if !is_mantissa_exec(slice_subrange(b, 0, k)) {
        return false;
    }
    if k == n {
        return true;
    }
    is_exponent_digits_exec(slice_subrange(b, k + 1, n))
}

} // verus!

verus! {

// ---------------------------------------------------------------------------
// Whitespace-separated words
// ---------------------------------------------------------------------------

/// First position at or after `i` that is not whitespace (or the end).
pub open spec fn skip_ws(s: Seq<char>, i: int) -> int
    decreases s.len() - i,
{
    if 0 <= i < s.len() && is_ws(s[i]) {
        skip_ws(s, i + 1)
    } else {
        i
    }
}

/// First position at or after `i` that is whitespace (or the end).
pub open spec fn word_end(s: Seq<char>, i: int) -> int
    decreases s.len() - i,
{
    if 0 <= i < s.len() && !is_ws(s[i]) {
        word_end(s, i + 1)
    } else {
        i
    }
}

pub proof fn lemma_word_scanners(s: Seq<char>, i: int)
    requires
        0 <= i <= s.len(),
    ensures
        i <= skip_ws(s, i) <= s.len(),
        i <= word_end(s, i) <= s.len(),
        i < s.len() && !is_ws(s[i]) ==> word_end(s, i) > i,
        skip_ws(s, i) < s.len() ==> !is_ws(s[skip_ws(s, i)]),
        word_end(s, i) < s.len() ==> is_ws(s[word_end(s, i)]),
    decreases s.len() - i,
{
    if i < s.len() {
        lemma_word_scanners(s, i + 1);
    }
}

/// The words of `s` from position `i`: its maximal runs of non-whitespace
/// characters (what `str::split_whitespace` yields).
pub open spec fn words_from(s: Seq<char>, i: int) -> Seq<Seq<char>>
    decreases s.len() - i,
{
    if i < 0 || i > s.len() {
        seq![]
    } else {
        let a = skip_ws(s, i);
        proof {
            lemma_word_scanners(s, i);
            if a < s.len() {
                lemma_word_scanners(s, a);
            }
        }
        if a >= s.len() {
            seq![]
        } else {
            let b = word_end(s, a);
            seq![s.subrange(a, b)] + words_from(s, b)
        }
    }
}

pub open spec fn words(s: Seq<char>) -> Seq<Seq<char>> {
    words_from(s, 0)
}

/// `str::split_whitespace`, collected.
pub fn split_whitespace<'a>(s: &'a str) -> (r: Vec<&'a str>)
    ensures
        r@.map_values(|w: &'a str| w@) == words(s@),
{
    let chars = chars_of(s);
    let cs = chars.as_slice();
    let n = cs.len();
    let mut out: Vec<&'a str> = Vec::new();
    let mut i: usize = 0;
    while i < n
        invariant
            cs@ == s@,
            n == cs@.len(),
            i <= n,
            out@.map_values(|w: &'a str| w@) + words_from(cs@, i as int) == words(cs@),
        decreases n - i,
    {
        proof {
            lemma_word_scanners(cs@, i as int);
        }
        let mut a = i;
        while a < n && is_whitespace(cs[a])
            invariant
                n == cs@.len(),
                i <= a <= n,
                skip_ws(cs@, a as int) == skip_ws(cs@, i as int),
            decreases n - a,
        {
            a = a + 1;
        }
        if a == n {
            assert(words_from(cs@, i as int) =~= Seq::<Seq<char>>::empty());
            i = n;
        } else {
            proof {
                lemma_word_scanners(cs@, a as int);
            }
            let mut b = a;
            while b < n && !is_whitespace(cs[b])
                invariant
                    n == cs@.len(),
                    a <= b <= n,
                    word_end(cs@, b as int) == word_end(cs@, a as int),
                decreases n - b,
            {
                b = b + 1;
            }
            let ghost before = out@;
            out.push(s.substring_char(a, b));
            assert(out@.map_values(|w: &'a str| w@) =~= before.map_values(|w: &'a str| w@).push(
                cs@.subrange(a as int, b as int),
            ));
            assert(words_from(cs@, i as int) == seq![cs@.subrange(a as int, b as int)] + words_from(
                cs@,
                b as int,
            ));
            i = b;
        }
    }
    assert(words_from(cs@, n as int) =~= Seq::<Seq<char>>::empty());
    out
}

} // verus!

verus! {

pub proof fn lemma_trim_len(x: Seq<char>)
    ensures
        trim_end(x).len() <= x.len(),
        trim_start(x).len() <= x.len(),
        trim(x).len() <= x.len(),
{
    lemma_trim_end_is_prefix(x);
    lemma_trim_start_is_suffix(x);
    lemma_trim_end_is_prefix(trim_start(x));
}

/// Every piece that `split_on` yields is no longer than the text.
pub proof fn lemma_split_on_len(s: Seq<char>, c: char)
    ensures
        forall|i: int| 0 <= i < split_on(s, c).len() ==> (#[trigger] split_on(s, c)[i]).len() <= s.len(),
        split_on(s, c).len() >= 1,
    decreases s.len(),
{
    lemma_index_from(s, c, 0);
    match find(s, c) {
        Some(k) => {
            lemma_split_on_len(s.skip(k + 1), c);
        },
        None => {},
    }
}

} // verus!

verus! {

proof fn lemma_split_step(s: Seq<char>, c: char, start: int, j: int)
    requires
        0 <= start <= j < s.len(),
        s[j] == c,
        forall|t: int| start <= t < j ==> s[t] != c,
    ensures
        split_on(s.subrange(start, s.len() as int), c) == seq![s.subrange(start, j)] + split_on(
            s.subrange(j + 1, s.len() as int),
            c,
        ),
{
    let piece = s.subrange(start, s.len() as int);
    lemma_find_first(piece, c, j - start);
    assert(piece.skip(j - start + 1) =~= s.subrange(j + 1, s.len() as int));
    assert(piece.take(j - start) =~= s.subrange(start, j));
}

proof fn lemma_split_last(s: Seq<char>, c: char, start: int)
    requires
        0 <= start <= s.len(),
        forall|t: int| start <= t < s.len() ==> s[t] != c,
    ensures
        split_on(s.subrange(start, s.len() as int), c) == seq![s.subrange(start, s.len() as int)],
{
    let piece = s.subrange(start, s.len() as int);
    lemma_find_none(piece, c);
}

/// `str::split` with a `char` pattern, on a slice of characters.
pub fn split_char<'a>(cs: &'a [char], c: char) -> (r: Vec<&'a [char]>)
    ensures
        r@.map_values(|p: &'a [char]| p@) == split_on(cs@, c),
{
    let n = cs.len();
    let ghost s = cs@;
    let mut out: Vec<&'a [char]> = Vec::new();
    let mut start: usize = 0;
    let mut j: usize = 0;
    assert(s.subrange(0, n as int) =~= s);
    while j <= n
        invariant_except_break
            start <= j <= n,
            forall|t: int| start <= t < j ==> s[t] != c,
            out@.map_values(|p: &'a [char]| p@) + split_on(s.subrange(start as int, n as int), c)
                == split_on(s, c),
        invariant
            s == cs@,
            n == s.len(),
        ensures
            out@.map_values(|p: &'a [char]| p@) == split_on(s, c),
        decreases n + 1 - j,
    {
        let ghost before = out@;
        if j == n || cs[j] == c {
            let piece = slice_subrange(cs, start, j);
            out.push(piece);
            assert(out@.map_values(|p: &'a [char]| p@) =~= before.map_values(|p: &'a [char]| p@).push(
                s.subrange(start as int, j as int),
            ));
            if j == n {
                proof {
                    lemma_split_last(s, c, start as int);
                }
                break ;
            }
            proof {
                lemma_split_step(s, c, start as int, j as int);
            }
            start = j + 1;
        }
        j = j + 1;
    }
    out
}

// ---------------------------------------------------------------------------
// Trimming a given character, finding a piece of text
// ---------------------------------------------------------------------------

/// `s` with all trailing `c` removed.
pub open spec fn trim_end_char(s: Seq<char>, c: char) -> Seq<char>
    decreases s.len(),
{
    if s.len() > 0 && s.last() == c {
        trim_end_char(s.drop_last(), c)
    } else {
        s
    }
}

/// `str::trim_matches` with a `char`: every leading and trailing `c` removed.
pub open spec fn trim_matches(s: Seq<char>, c: char) -> Seq<char> {
    trim_end_char(crate::selector::trim_start_char(s, c), c)
}

fn trim_start_char_slice(s: &[char], c: char) -> (r: &[char])
    ensures
        r@ == crate::selector::trim_start_char(s@, c),
{
    let n = s.len();
    let mut i: usize = 0;
    while i < n && s[i] == c
        invariant
            i <= n,
            n == s@.len(),
            crate::selector::trim_start_char(s@, c) == crate::selector::trim_start_char(
                s@.skip(i as int),
                c,
            ),
        decreases n - i,
    {
        assert(s@.skip(i as int).drop_first() =~= s@.skip(i + 1));
        i = i + 1;
    }
    slice_subrange(s, i, n)
}

fn trim_end_char_slice(s: &[char], c: char) -> (r: &[char])
    ensures
        r@ == trim_end_char(s@, c),
{
    let mut j: usize = s.len();
    assert(s@.take(j as int) =~= s@);
    while j > 0 && s[j - 1] == c
        invariant
            j <= s@.len(),
            trim_end_char(s@, c) == trim_end_char(s@.take(j as int), c),
        decreases j,
    {
        assert(s@.take(j as int).drop_last() =~= s@.take(j - 1));
        j = j - 1;
    }
    slice_subrange(s, 0, j)
}

pub fn trim_matches_slice(s: &[char], c: char) -> (r: &[char])
    ensures
        r@ == trim_matches(s@, c),
{
    trim_end_char_slice(trim_start_char_slice(s, c), c)
}

/// The first position at or after `i` where the text `p` occurs in `s`.
pub open spec fn find_seq_from(s: Seq<char>, p: Seq<char>, i: int) -> Option<int>
    decreases s.len() + 1 - i,
{
    if i < 0 || i + p.len() > s.len() {
        None
    } else if s.subrange(i, i + p.len()) == p {
        Some(i)
    } else {
        find_seq_from(s, p, i + 1)
    }
}

/// `str::find` with a text pattern: the first position where `p` occurs.
pub open spec fn find_seq(s: Seq<char>, p: Seq<char>) -> Option<int> {
    find_seq_from(s, p, 0)
}

pub proof fn lemma_find_seq_from(s: Seq<char>, p: Seq<char>, i: int)
    requires
        0 <= i,
    ensures
        find_seq_from(s, p, i) matches Some(k) ==> i <= k && k + p.len() <= s.len()
            && s.subrange(k, k + p.len()) == p,
    decreases s.len() + 1 - i,
{
    if i + p.len() <= s.len() && s.subrange(i, i + p.len()) != p {
        lemma_find_seq_from(s, p, i + 1);
    }
}

pub fn slice_find_seq(s: &[char], p: &str) -> (r: Option<usize>)
    ensures
        match r {
            Some(k) => find_seq(s@, p@) == Some(k as int),
            None => find_seq(s@, p@) is None,
        },
{
    let n = s.len();
    let m = p.unicode_len();
    if m == 0 {
        assert(s@.subrange(0, 0) =~= p@);
        return Some(0);
    }
    let mut i: usize = 0;
    while i < n && m <= n - i
        invariant
            n == s@.len(),
            m == p@.len(),
            m > 0,
            i <= n,
            find_seq(s@, p@) == find_seq_from(s@, p@, i as int),
        decreases n - i,
    {
        if matches_at(s, i, p) {
            return Some(i);
        }
        i = i + 1;
    }
    None
}

/// Whether two character slices hold the same characters.
pub fn chars_eq(a: &[char], b: &[char]) -> (r: bool)
    ensures
        r == (a@ == b@),
{
    if a.len() != b.len() {
        return false;
    }
    let mut i: usize = 0;
    while i < a.len()
        invariant
            i <= a@.len(),
            a@.len() == b@.len(),
            forall|k: int| 0 <= k < i ==> a@[k] == b@[k],
        decreases a@.len() - i,
    {
        if a[i] != b[i] {
            return false;
        }
        i = i + 1;
    }
    assert(a@ =~= b@);
    true
}

// ---------------------------------------------------------------------------
// Building text
// ---------------------------------------------------------------------------

/// The character of a decimal digit.
pub open spec fn digit_char(d: nat) -> char {
    if d == 0 {
        '0'
    } else if d == 1 {
        '1'
    } else if d == 2 {
        '2'
    } else if d == 3 {
        '3'
    } else if d == 4 {
        '4'
    } else if d == 5 {
        '5'
    } else if d == 6 {
        '6'
    } else if d == 7 {
        '7'
    } else if d == 8 {
        '8'
    } else {
        '9'
    }
}

/// The decimal digits of a number, without leading zeros.
pub open spec fn decimal(n: nat) -> Seq<char>
    decreases n,
{
    if n < 10 {
        seq![digit_char(n)]
    } else {
        decimal(n / 10).push(digit_char(n % 10))
    }
}

fn digit_char_exec(d: usize) -> (r: char)
    requires
        d < 10,
    ensures
        r == digit_char(d as nat),
{
    if d == 0 {
        '0'
    } else if d == 1 {
        '1'
    } else if d == 2 {
        '2'
    } else if d == 3 {
        '3'
    } else if d == 4 {
        '4'
    } else if d == 5 {
        '5'
    } else if d == 6 {
        '6'
    } else if d == 7 {
        '7'
    } else if d == 8 {
        '8'
    } else {
        '9'
    }
}

/// Appends the decimal digits of `n`.
pub fn push_decimal(out: &mut Vec<char>, n: usize)
    ensures
        final(out)@ == old(out)@ + decimal(n as nat),
    decreases n,
{
    if n >= 10 {
        push_decimal(out, n / 10);
    }
    out.push(digit_char_exec(n % 10));
}

/// Appends the characters of `s`.
pub fn push_str(out: &mut Vec<char>, s: &str)
    ensures
        final(out)@ == old(out)@ + s@,
{
    let n = s.unicode_len();
    let ghost start = out@;
    let mut i: usize = 0;
    while i < n
        invariant
            n == s@.len(),
            i <= n,
            out@ == start + s@.take(i as int),
        decreases n - i,
    {
        out.push(s.get_char(i));
        assert(s@.take(i + 1) =~= s@.take(i as int).push(s@[i as int]));
        i = i + 1;
    }
    assert(s@.take(n as int) =~= s@);
}

} // verus!
