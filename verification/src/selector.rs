//! Selectors: specificity, pseudo-classes and the selector of a rule.
use vstd::prelude::*;
use vstd::slice::slice_subrange;

use crate::lexer::str_is;
use crate::text::{
    char_is_alpha, char_is_ident, chars_of, find, index_from, is_alpha, is_ident_char, is_ws,
    parse_u32_chars, parse_unsigned, slice_find, slice_strip_prefix, slice_strip_suffix,
    slice_starts_with, starts_with, string_from_chars, strip_prefix, strip_suffix, trim,
    trim_slice,
};

verus! {

broadcast use vstd::seq_lib::group_seq_properties;

// ---------------------------------------------------------------------------
// Specificity
// ---------------------------------------------------------------------------

/// CSS specificity as `(id, class, element)`; the derived order compares the
/// three counts lexicographically, which is the cascade order.
#[derive(Clone, Copy, Debug, Default, PartialEq, Eq, Structural, PartialOrd, Ord)]
pub struct Specificity(
    pub u32,  // id selectors (#foo)
    pub u32,  // class / attr / pseudo-class (.foo, [attr], :hover)
    pub u32,  // element selectors (div, span) and pseudo-elements (::before)
);

/// End of the CSS identifier (`[a-zA-Z0-9_-]*`) that starts at `i`.
pub open spec fn ident_end(s: Seq<char>, i: int) -> int
    decreases s.len() - i,
{
    if 0 <= i < s.len() && is_ident_char(s[i]) {
        ident_end(s, i + 1)
    } else {
        i
    }
}

/// Position after the `)` that closes `depth` open parentheses, reading from `i`
/// (or the end of the text).
pub open spec fn paren_close(s: Seq<char>, i: int, depth: nat) -> int
    decreases s.len() - i,
{
    if i < 0 || i >= s.len() || depth == 0 {
        i
    } else if s[i] == '(' {
        paren_close(s, i + 1, depth + 1)
    } else if s[i] == ')' {
        paren_close(s, i + 1, (depth - 1) as nat)
    } else {
        paren_close(s, i + 1, depth)
    }
}

pub proof fn lemma_selector_scanners(s: Seq<char>, i: int, depth: nat)
    requires
        0 <= i <= s.len(),
    ensures
        i <= ident_end(s, i) <= s.len(),
        i < s.len() && is_ident_char(s[i]) ==> ident_end(s, i) > i,
        i <= paren_close(s, i, depth) <= s.len(),
        i <= index_from(s, ']', i) <= s.len(),
    decreases s.len() - i,
{
    if i < s.len() {
        lemma_selector_scanners(s, i + 1, depth + 1);
        lemma_selector_scanners(s, i + 1, depth);
        if depth > 0 {
            lemma_selector_scanners(s, i + 1, (depth - 1) as nat);
        }
    }
}

/// The `(id, class, element)` counts of the selector text `s` from position `i`.
pub open spec fn counts_from(s: Seq<char>, i: int) -> (nat, nat, nat)
    decreases s.len() - i,
{
    if i < 0 || i >= s.len() {
        (0, 0, 0)
    } else {
        let c = s[i];
        proof {
            lemma_selector_scanners(s, i + 1, 1);
            lemma_selector_scanners(s, i, 1);
            if i + 2 <= s.len() {
                lemma_selector_scanners(s, i + 2, 1);
            }
        }
        if c == '#' {
            let r = counts_from(s, ident_end(s, i + 1));
            (r.0 + 1, r.1, r.2)
        } else if c == '.' {
            let r = counts_from(s, ident_end(s, i + 1));
            (r.0, r.1 + 1, r.2)
        } else if c == '[' {
            let j = index_from(s, ']', i);
            let r = counts_from(
                s,
                if j < s.len() {
                    j + 1
                } else {
                    j
                },
            );
            (r.0, r.1 + 1, r.2)
        } else if c == ':' {
            let dbl = i + 1 < s.len() && s[i + 1] == ':';
            let k = if dbl {
                i + 2
            } else {
                i + 1
            };
            let k2 = ident_end(s, k);
            proof {
                lemma_selector_scanners(s, k, 1);
                if k2 + 1 <= s.len() {
                    lemma_selector_scanners(s, k2 + 1, 1);
                }
            }
            let k3 = if k2 < s.len() && s[k2] == '(' {
                paren_close(s, k2 + 1, 1)
            } else {
                k2
            };
            let r = counts_from(s, k3);
            if dbl {
                (r.0, r.1, r.2 + 1)
            } else {
                (r.0, r.1 + 1, r.2)
            }
        } else if c == '*' || c == ' ' || c == '>' || c == '+' || c == '~' || c == ',' {
            counts_from(s, i + 1)
        } else if is_alpha(c) {
            let r = counts_from(s, ident_end(s, i));
            (r.0, r.1, r.2 + 1)
        } else {
            counts_from(s, i + 1)
        }
    }
}

/// Every count comes from at least one character of the text.
pub proof fn lemma_counts_bound(s: Seq<char>, i: int)
    requires
        0 <= i <= s.len(),
    ensures
        ({
            let r = counts_from(s, i);
            r.0 + r.1 + r.2 <= s.len() - i
        }),
    decreases s.len() - i,
{
    if i < s.len() {
        let c = s[i];
        lemma_selector_scanners(s, i + 1, 1);
        lemma_selector_scanners(s, i, 1);
        if c == '#' || c == '.' {
            lemma_counts_bound(s, ident_end(s, i + 1));
        } else if c == '[' {
            let j = index_from(s, ']', i);
            lemma_counts_bound(
                s,
                if j < s.len() {
                    j + 1
                } else {
                    j
                },
            );
        } else if c == ':' {
            let dbl = i + 1 < s.len() && s[i + 1] == ':';
            let k = if dbl {
                i + 2
            } else {
                i + 1
            };
            lemma_selector_scanners(s, k, 1);
            let k2 = ident_end(s, k);
            if k2 + 1 <= s.len() {
                lemma_selector_scanners(s, k2 + 1, 1);
            }
            let k3 = if k2 < s.len() && s[k2] == '(' {
                paren_close(s, k2 + 1, 1)
            } else {
                k2
            };
            lemma_counts_bound(s, k3);
        } else if c == '*' || c == ' ' || c == '>' || c == '+' || c == '~' || c == ',' {
            lemma_counts_bound(s, i + 1);
        } else if is_alpha(c) {
            lemma_counts_bound(s, ident_end(s, i));
        } else {
            lemma_counts_bound(s, i + 1);
        }
    }
}

/// The specificity of a single selector text.
pub open spec fn specificity_of(s: Seq<char>) -> Specificity {
    let r = counts_from(s, 0);
    Specificity(r.0 as u32, r.1 as u32, r.2 as u32)
}

// ---------------------------------------------------------------------------
// Specificity of a descendant selector
// ---------------------------------------------------------------------------

/// The counts of two selectors added up.
pub open spec fn add_counts(x: (nat, nat, nat), y: (nat, nat, nat)) -> (nat, nat, nat) {
    (x.0 + y.0, x.1 + y.1, x.2 + y.2)
}

/// A selector text without attribute selectors or functional pseudo-classes.
pub open spec fn plain_selector(s: Seq<char>) -> bool {
    forall|i: int| 0 <= i < s.len() ==> (#[trigger] s[i]) != '[' && s[i] != '('
}

/// An identifier in a text that follows a prefix ends where it ends in the
/// text alone.
proof fn lemma_ident_end_shift(p: Seq<char>, b: Seq<char>, j: int)
    requires
        0 <= j <= b.len(),
    ensures
        ident_end(p + b, p.len() + j) == p.len() + ident_end(b, j),
    decreases b.len() - j,
{
    if j < b.len() {
        assert((p + b)[p.len() + j] == b[j]);
        lemma_ident_end_shift(p, b, j + 1);
    }
}

/// An identifier in a prefix that a non-identifier character follows ends
/// where it ends in the prefix alone.
proof fn lemma_ident_end_prefix(a: Seq<char>, t: Seq<char>, i: int)
    requires
        0 <= i <= a.len(),
        t.len() > 0,
        !is_ident_char(t[0]),
    ensures
        ident_end(a + t, i) == ident_end(a, i),
    decreases a.len() - i,
{
    if i < a.len() {
        assert((a + t)[i] == a[i]);
        lemma_ident_end_prefix(a, t, i + 1);
    } else {
        assert((a + t)[i] == t[0]);
    }
}

/// Reading a plain selector that follows a prefix gives its own counts.
proof fn lemma_counts_shift(p: Seq<char>, b: Seq<char>, j: int)
    requires
        0 <= j <= b.len(),
        plain_selector(b),
    ensures
        counts_from(p + b, p.len() + j) == counts_from(b, j),
    decreases b.len() - j,
{
    let s = p + b;
    let i = p.len() + j;
    if j < b.len() {
        let c = b[j];
        assert(s[i] == c);
        lemma_selector_scanners(b, j + 1, 1);
        lemma_selector_scanners(b, j, 1);
        if c == '#' || c == '.' {
            lemma_ident_end_shift(p, b, j + 1);
            lemma_counts_shift(p, b, ident_end(b, j + 1));
        } else if c == ':' {
            let dbl = j + 1 < b.len() && b[j + 1] == ':';
            if j + 1 < b.len() {
                assert(s[i + 1] == b[j + 1]);
            }
            let k = if dbl {
                j + 2
            } else {
                j + 1
            };
            lemma_selector_scanners(b, k, 1);
            lemma_ident_end_shift(p, b, k);
            let k2 = ident_end(b, k);
            if k2 < b.len() {
                assert(s[p.len() + k2] == b[k2]);
            }
            lemma_counts_shift(p, b, k2);
        } else if c == '*' || c == ' ' || c == '>' || c == '+' || c == '~' || c == ',' {
            lemma_counts_shift(p, b, j + 1);
        } else if is_alpha(c) {
            lemma_ident_end_shift(p, b, j);
            lemma_counts_shift(p, b, ident_end(b, j));
        } else {
            lemma_counts_shift(p, b, j + 1);
        }
    }
}

/// Reading a plain selector that a space and more text follow: its counts, and
/// then those of what comes after it.
proof fn lemma_counts_prefix(a: Seq<char>, b: Seq<char>, i: int)
    requires
        0 <= i <= a.len(),
        plain_selector(a),
    ensures
        counts_from(a + seq![' '] + b, i) == add_counts(
            counts_from(a, i),
            counts_from(a + seq![' '] + b, a.len() as int),
        ),
    decreases a.len() - i,
{
    let t = seq![' '] + b;
    let s = a + seq![' '] + b;
    assert(s =~= a + t);
    assert(t[0] == ' ');
    if i < a.len() {
        let c = a[i];
        assert(s[i] == c);
        lemma_selector_scanners(a, i + 1, 1);
        lemma_selector_scanners(a, i, 1);
        if c == '#' || c == '.' {
            lemma_ident_end_prefix(a, t, i + 1);
            lemma_counts_prefix(a, b, ident_end(a, i + 1));
        } else if c == ':' {
            let dbl = i + 1 < a.len() && a[i + 1] == ':';
            if i + 1 < a.len() {
                assert(s[i + 1] == a[i + 1]);
            } else {
                assert(s[i + 1] == ' ');
            }
            let k = if dbl {
                i + 2
            } else {
                i + 1
            };
            lemma_selector_scanners(a, k, 1);
            lemma_ident_end_prefix(a, t, k);
            let k2 = ident_end(a, k);
            if k2 < a.len() {
                assert(s[k2] == a[k2]);
            } else {
                assert(s[k2] == ' ');
            }
            lemma_counts_prefix(a, b, k2);
        } else if c == '*' || c == ' ' || c == '>' || c == '+' || c == '~' || c == ',' {
            lemma_counts_prefix(a, b, i + 1);
        } else if is_alpha(c) {
            lemma_ident_end_prefix(a, t, i);
            lemma_counts_prefix(a, b, ident_end(a, i));
        } else {
            lemma_counts_prefix(a, b, i + 1);
        }
    }
}

/// Specificity adds up over a descendant selector: the specificity of `a b`
/// is the sum of those of `a` and `b`, for selectors without attribute
/// selectors and functional pseudo-classes.
pub proof fn law_specificity_adds(a: Seq<char>, b: Seq<char>)
    requires
        plain_selector(a),
        plain_selector(b),
        a.len() + b.len() + 1 < u32::MAX,
    ensures
        ({
            let x = specificity_of(a);
            let y = specificity_of(b);
            specificity_of(a + seq![' '] + b) == Specificity(
                (x.0 + y.0) as u32,
                (x.1 + y.1) as u32,
                (x.2 + y.2) as u32,
            )
        }),
{
    let s = a + seq![' '] + b;
    lemma_counts_prefix(a, b, 0);
    assert(s[a.len() as int] == ' ');
    lemma_counts_shift(a + seq![' '], b, 0);
    assert((a + seq![' ']) + b =~= s);
    assert(counts_from(s, a.len() as int) == counts_from(s, a.len() + 1int));
    lemma_counts_bound(a, 0);
    lemma_counts_bound(b, 0);
    lemma_counts_bound(s, 0);
}

// ---------------------------------------------------------------------------
// Combinators
// ---------------------------------------------------------------------------

/// Combinators (` `, `>`, `+`, `~`, `,`) and the universal selector `*`.
pub open spec fn is_combinator(c: char) -> bool {
    c == ' ' || c == '>' || c == '+' || c == '~' || c == ',' || c == '*'
}

/// The selector text with every combinator and `*` written as a space.
pub open spec fn spaced(s: Seq<char>) -> Seq<char> {
    s.map_values(|c: char| if is_combinator(c) { ' ' } else { c })
}

proof fn lemma_spaced_scanners(s: Seq<char>, i: int, depth: nat)
    requires
        0 <= i <= s.len(),
    ensures
        ident_end(spaced(s), i) == ident_end(s, i),
        index_from(spaced(s), ']', i) == index_from(s, ']', i),
        paren_close(spaced(s), i, depth) == paren_close(s, i, depth),
    decreases s.len() - i,
{
    let t = spaced(s);
    if i < s.len() {
        assert(t[i] == if is_combinator(s[i]) { ' ' } else { s[i] });
        lemma_spaced_scanners(s, i + 1, depth + 1);
        lemma_spaced_scanners(s, i + 1, depth);
        if depth > 0 {
            lemma_spaced_scanners(s, i + 1, (depth - 1) as nat);
        }
    }
}

proof fn lemma_spaced_counts(s: Seq<char>, i: int)
    requires
        0 <= i <= s.len(),
    ensures
        counts_from(spaced(s), i) == counts_from(s, i),
    decreases s.len() - i,
{
    let t = spaced(s);
    if i < s.len() {
        let c = s[i];
        assert(t[i] == if is_combinator(c) { ' ' } else { c });
        lemma_selector_scanners(s, i + 1, 1);
        lemma_selector_scanners(s, i, 1);
        lemma_spaced_scanners(s, i + 1, 1);
        lemma_spaced_scanners(s, i, 1);
        if c == '#' || c == '.' {
            lemma_spaced_counts(s, ident_end(s, i + 1));
        } else if c == '[' {
            let j = index_from(s, ']', i);
            lemma_spaced_counts(
                s,
                if j < s.len() {
                    j + 1
                } else {
                    j
                },
            );
        } else if c == ':' {
            let dbl = i + 1 < s.len() && s[i + 1] == ':';
            if i + 1 < s.len() {
                assert(t[i + 1] == if is_combinator(s[i + 1]) { ' ' } else { s[i + 1] });
            }
            let k = if dbl {
                i + 2
            } else {
                i + 1
            };
            lemma_selector_scanners(s, k, 1);
            lemma_spaced_scanners(s, k, 1);
            let k2 = ident_end(s, k);
            if k2 < s.len() {
                assert(t[k2] == if is_combinator(s[k2]) { ' ' } else { s[k2] });
            }
            if k2 + 1 <= s.len() {
                lemma_selector_scanners(s, k2 + 1, 1);
                lemma_spaced_scanners(s, k2 + 1, 1);
            }
            let k3 = if k2 < s.len() && s[k2] == '(' {
                paren_close(s, k2 + 1, 1)
            } else {
                k2
            };
            lemma_spaced_counts(s, k3);
        } else if is_combinator(c) {
            lemma_spaced_counts(s, i + 1);
        } else if is_alpha(c) {
            lemma_spaced_counts(s, ident_end(s, i));
        } else {
            lemma_spaced_counts(s, i + 1);
        }
    }
}

/// Combinators and `*` add nothing to specificity: a selector has the
/// specificity of the same text with each of them written as a space, so
/// `a > b`, `a + b`, `a ~ b` and `a b` all have that of `a b`.
pub proof fn law_combinators_count_nothing(s: Seq<char>)
    ensures
        specificity_of(spaced(s)) == specificity_of(s),
{
    lemma_spaced_counts(s, 0);
}

// ---------------------------------------------------------------------------
// Simple selectors
// ---------------------------------------------------------------------------

/// A CSS identifier: identifier characters only.
pub open spec fn is_ident(n: Seq<char>) -> bool {
    forall|i: int| 0 <= i < n.len() ==> is_ident_char(#[trigger] n[i])
}

proof fn lemma_ident_end_all(s: Seq<char>, i: int)
    requires
        0 <= i <= s.len(),
        forall|j: int| i <= j < s.len() ==> is_ident_char(#[trigger] s[j]),
    ensures
        ident_end(s, i) == s.len(),
    decreases s.len() - i,
{
    if i < s.len() {
        lemma_ident_end_all(s, i + 1);
    }
}

/// Each simple selector counts once, in its own column: `#name` is an id,
/// `.name`, `:name` and `[attribute]` are classes, `::name` and an element
/// name are elements.
pub proof fn law_simple_selectors(n: Seq<char>, attr: Seq<char>)
    requires
        is_ident(n),
        forall|i: int| 0 <= i < attr.len() ==> #[trigger] attr[i] != ']',
    ensures
        specificity_of(seq!['#'] + n) == Specificity(1, 0, 0),
        specificity_of(seq!['.'] + n) == Specificity(0, 1, 0),
        specificity_of(seq![':'] + n) == Specificity(0, 1, 0),
        specificity_of(seq![':', ':'] + n) == Specificity(0, 0, 1),
        n.len() > 0 && is_alpha(n[0]) ==> specificity_of(n) == Specificity(0, 0, 1),
        specificity_of(seq!['['] + attr + seq![']']) == Specificity(0, 1, 0),
{
    let s1 = seq!['#'] + n;
    let s2 = seq!['.'] + n;
    let s3 = seq![':'] + n;
    let s4 = seq![':', ':'] + n;
    assert forall|j: int| 1 <= j < s1.len() implies is_ident_char(#[trigger] s1[j]) by {
        assert(s1[j] == n[j - 1]);
    }
    assert forall|j: int| 1 <= j < s2.len() implies is_ident_char(#[trigger] s2[j]) by {
        assert(s2[j] == n[j - 1]);
    }
    assert forall|j: int| 1 <= j < s3.len() implies is_ident_char(#[trigger] s3[j]) by {
        assert(s3[j] == n[j - 1]);
    }
    assert forall|j: int| 2 <= j < s4.len() implies is_ident_char(#[trigger] s4[j]) by {
        assert(s4[j] == n[j - 2]);
    }
    lemma_ident_end_all(s1, 1);
    lemma_ident_end_all(s2, 1);
    lemma_ident_end_all(s3, 1);
    lemma_ident_end_all(s4, 2);
    lemma_ident_end_all(n, 0);
    assert(s1[0] == '#');
    assert(s2[0] == '.');
    assert(s3[0] == ':');
    if s3.len() > 1 {
        assert(s3[1] == n[0]);
    }
    assert(s4[0] == ':' && s4[1] == ':');
    let s5 = seq!['['] + attr + seq![']'];
    assert(s5[0] == '[');
    assert forall|j: int| 0 <= j < attr.len() implies #[trigger] s5[j + 1] != ']' by {
        assert(s5[j + 1] == attr[j]);
    }
    lemma_index_to_bracket(s5, 0);
    assert(s5[s5.len() - 1] == ']');
    assert(counts_from(s1, s1.len() as int) == (0nat, 0nat, 0nat));
    assert(counts_from(s1, 0) == (1nat, 0nat, 0nat));
    assert(counts_from(s2, s2.len() as int) == (0nat, 0nat, 0nat));
    assert(counts_from(s2, 0) == (0nat, 1nat, 0nat));
    assert(counts_from(s3, s3.len() as int) == (0nat, 0nat, 0nat));
    assert(counts_from(s3, 0) == (0nat, 1nat, 0nat));
    assert(counts_from(s4, s4.len() as int) == (0nat, 0nat, 0nat));
    assert(counts_from(s4, 0) == (0nat, 0nat, 1nat));
    assert(counts_from(s5, s5.len() as int) == (0nat, 0nat, 0nat));
    assert(counts_from(s5, 0) == (0nat, 1nat, 0nat));
    if n.len() > 0 && is_alpha(n[0]) {
        assert(counts_from(n, n.len() as int) == (0nat, 0nat, 0nat));
        assert(counts_from(n, 0) == (0nat, 0nat, 1nat));
    }
}

proof fn lemma_index_to_bracket(s: Seq<char>, i: int)
    requires
        0 <= i < s.len(),
        s[s.len() - 1] == ']',
        s[0] == '[',
        forall|j: int| 0 <= j < s.len() - 2 ==> #[trigger] s[j + 1] != ']',
    ensures
        index_from(s, ']', i) == s.len() - 1,
    decreases s.len() - i,
{
    if i < s.len() - 1 {
        if i > 0 {
            assert(s[(i - 1) + 1] != ']');
        }
        lemma_index_to_bracket(s, i + 1);
    }
}

fn skip_ident(b: &[char], i: usize) -> (r: usize)
    requires
        i <= b@.len(),
    ensures
        r == ident_end(b@, i as int),
{
    let mut j = i;
    while j < b.len() && char_is_ident(b[j])
        invariant
            i <= j <= b@.len(),
            ident_end(b@, j as int) == ident_end(b@, i as int),
        decreases b@.len() - j,
    {
        j = j + 1;
    }
    j
}

fn skip_to_bracket(b: &[char], i: usize) -> (r: usize)
    requires
        i <= b@.len(),
    ensures
        r == index_from(b@, ']', i as int),
{
    let mut j = i;
    while j < b.len() && b[j] != ']'
        invariant
            i <= j <= b@.len(),
            index_from(b@, ']', j as int) == index_from(b@, ']', i as int),
        decreases b@.len() - j,
    {
        j = j + 1;
    }
    j
}

fn skip_parens(b: &[char], i: usize) -> (r: usize)
    requires
        i <= b@.len(),
        b@.len() < u32::MAX,
    ensures
        r == paren_close(b@, i as int, 1),
{
    let mut depth: u32 = 1;
    let mut j = i;
    while j < b.len() && depth > 0
        invariant
            i <= j <= b@.len(),
            b@.len() < u32::MAX,
            depth <= j - i + 1,
            paren_close(b@, j as int, depth as nat) == paren_close(b@, i as int, 1),
        decreases b@.len() - j,
    {
        if b[j] == '(' {
            depth = depth + 1;
        } else if b[j] == ')' {
            depth = depth - 1;
        }
        j = j + 1;
    }
    j
}

impl Specificity {
    /// Compute specificity from a single selector string (no comma-separated list).
    pub fn from_selector(s: &str) -> (r: Self)
        requires
            s@.len() < u32::MAX,
        ensures
            r == specificity_of(s@),
    {
        let mut id: u32 = 0;
        let mut class: u32 = 0;
        let mut element: u32 = 0;
        let chars = chars_of(s);
        let bytes = chars.as_slice();
        let ghost b = bytes@;
        let ghost total = counts_from(b, 0);
        let n = bytes.len();
        let mut i: usize = 0;
        while i < n
            invariant
                b == bytes@,
                n == b.len(),
                n < u32::MAX,
                i <= n,
                id + class + element <= i,
                ({
                    let r = counts_from(b, i as int);
                    &&& id + r.0 == total.0
                    &&& class + r.1 == total.1
                    &&& element + r.2 == total.2
                }),
            decreases n - i,
        {
            proof {
                lemma_selector_scanners(b, i + 1, 1);
                lemma_selector_scanners(b, i as int, 1);
            }
            let c = bytes[i];
            if c == '#' {
                id = id + 1;
                i = skip_ident(bytes, i + 1);
            } else if c == '.' {
                class = class + 1;
                i = skip_ident(bytes, i + 1);
            } else if c == '[' {
                class = class + 1;
                i = skip_to_bracket(bytes, i);
                if i < n {
                    i = i + 1;
                }
            } else if c == ':' {
                let dbl = i + 1 < n && bytes[i + 1] == ':';
                if dbl {
                    element = element + 1;
                    i = i + 2;
                } else {
                    class = class + 1;
                    i = i + 1;
                }
                proof {
                    lemma_selector_scanners(b, i as int, 1);
                }
                i = skip_ident(bytes, i);
                if i < n && bytes[i] == '(' {
                    proof {
                        lemma_selector_scanners(b, i + 1, 1);
                    }
                    i = skip_parens(bytes, i + 1);
                }
            } else if c == '*' || c == ' ' || c == '>' || c == '+' || c == '~' || c == ',' {
                i = i + 1;
            } else if char_is_alpha(c) {
                element = element + 1;
                i = skip_ident(bytes, i);
            } else {
                i = i + 1;
            }
        }
        Specificity(id, class, element)
    }
}

// ---------------------------------------------------------------------------
// PseudoClass
// ---------------------------------------------------------------------------

#[derive(Clone, Debug, PartialEq)]
pub enum PseudoClass {
    // Interaction
    Hover,
    Active,
    ActiveHover,
    Focus,
    FocusHover,
    FocusVisible,
    FocusWithin,
    // State
    Disabled,
    DisabledHover,
    Enabled,
    Checked,
    Indeterminate,
    // Tree-structural
    FirstChild,
    LastChild,
    OnlyChild,
    FirstOfType,
    LastOfType,
    OnlyOfType,
    NthChild(u32, u32), // an+b coefficients
    NthLastChild(u32, u32),
    // Content
    Empty,
    Root,
    // Not / functional
    Not(String), // serialized argument for simplicity
    // Pseudo-elements
    Placeholder,
    Selection,
    Before,
    After,
    FirstLine,
    FirstLetter,
    // Misc
    Any, // :is() / :where() simplified
    Link,
    Visited,
    Target,
}

/// The content of a pseudo-class.
pub enum PseudoView {
    Hover,
    Active,
    ActiveHover,
    Focus,
    FocusHover,
    FocusVisible,
    FocusWithin,
    Disabled,
    DisabledHover,
    Enabled,
    Checked,
    Indeterminate,
    FirstChild,
    LastChild,
    OnlyChild,
    FirstOfType,
    LastOfType,
    OnlyOfType,
    NthChild(u32, u32),
    NthLastChild(u32, u32),
    Empty,
    Root,
    Not(Seq<char>),
    Placeholder,
    Selection,
    Before,
    After,
    FirstLine,
    FirstLetter,
    Any,
    Link,
    Visited,
    Target,
}

impl View for PseudoClass {
    type V = PseudoView;

    open spec fn view(&self) -> PseudoView {
        match *self {
            PseudoClass::Hover => PseudoView::Hover,
            PseudoClass::Active => PseudoView::Active,
            PseudoClass::ActiveHover => PseudoView::ActiveHover,
            PseudoClass::Focus => PseudoView::Focus,
            PseudoClass::FocusHover => PseudoView::FocusHover,
            PseudoClass::FocusVisible => PseudoView::FocusVisible,
            PseudoClass::FocusWithin => PseudoView::FocusWithin,
            PseudoClass::Disabled => PseudoView::Disabled,
            PseudoClass::DisabledHover => PseudoView::DisabledHover,
            PseudoClass::Enabled => PseudoView::Enabled,
            PseudoClass::Checked => PseudoView::Checked,
            PseudoClass::Indeterminate => PseudoView::Indeterminate,
            PseudoClass::FirstChild => PseudoView::FirstChild,
            PseudoClass::LastChild => PseudoView::LastChild,
            PseudoClass::OnlyChild => PseudoView::OnlyChild,
            PseudoClass::FirstOfType => PseudoView::FirstOfType,
            PseudoClass::LastOfType => PseudoView::LastOfType,
            PseudoClass::OnlyOfType => PseudoView::OnlyOfType,
            PseudoClass::NthChild(a, b) => PseudoView::NthChild(a, b),
            PseudoClass::NthLastChild(a, b) => PseudoView::NthLastChild(a, b),
            PseudoClass::Empty => PseudoView::Empty,
            PseudoClass::Root => PseudoView::Root,
            PseudoClass::Not(s) => PseudoView::Not(s@),
            PseudoClass::Placeholder => PseudoView::Placeholder,
            PseudoClass::Selection => PseudoView::Selection,
            PseudoClass::Before => PseudoView::Before,
            PseudoClass::After => PseudoView::After,
            PseudoClass::FirstLine => PseudoView::FirstLine,
            PseudoClass::FirstLetter => PseudoView::FirstLetter,
            PseudoClass::Any => PseudoView::Any,
            PseudoClass::Link => PseudoView::Link,
            PseudoClass::Visited => PseudoView::Visited,
            PseudoClass::Target => PseudoView::Target,
        }
    }
}

/// Whether two pseudo-classes are the same (`==`).
pub fn pseudo_eq(x: &PseudoClass, y: &PseudoClass) -> (r: bool)
    ensures
        r == (x@ == y@),
{
    match (x, y) {
            (PseudoClass::Hover, PseudoClass::Hover) => true,
            (PseudoClass::Active, PseudoClass::Active) => true,
            (PseudoClass::ActiveHover, PseudoClass::ActiveHover) => true,
            (PseudoClass::Focus, PseudoClass::Focus) => true,
            (PseudoClass::FocusHover, PseudoClass::FocusHover) => true,
            (PseudoClass::FocusVisible, PseudoClass::FocusVisible) => true,
            (PseudoClass::FocusWithin, PseudoClass::FocusWithin) => true,
            (PseudoClass::Disabled, PseudoClass::Disabled) => true,
            (PseudoClass::DisabledHover, PseudoClass::DisabledHover) => true,
            (PseudoClass::Enabled, PseudoClass::Enabled) => true,
            (PseudoClass::Checked, PseudoClass::Checked) => true,
            (PseudoClass::Indeterminate, PseudoClass::Indeterminate) => true,
            (PseudoClass::FirstChild, PseudoClass::FirstChild) => true,
            (PseudoClass::LastChild, PseudoClass::LastChild) => true,
            (PseudoClass::OnlyChild, PseudoClass::OnlyChild) => true,
            (PseudoClass::FirstOfType, PseudoClass::FirstOfType) => true,
            (PseudoClass::LastOfType, PseudoClass::LastOfType) => true,
            (PseudoClass::OnlyOfType, PseudoClass::OnlyOfType) => true,
            (PseudoClass::NthChild(a1, b1), PseudoClass::NthChild(a2, b2)) => *a1 == *a2 && *b1 == *b2,
            (PseudoClass::NthLastChild(a1, b1), PseudoClass::NthLastChild(a2, b2)) => *a1 == *a2 && *b1 == *b2,
            (PseudoClass::Empty, PseudoClass::Empty) => true,
            (PseudoClass::Root, PseudoClass::Root) => true,
            (PseudoClass::Not(x), PseudoClass::Not(y)) => str_is(x.as_str(), y.as_str()),
            (PseudoClass::Placeholder, PseudoClass::Placeholder) => true,
            (PseudoClass::Selection, PseudoClass::Selection) => true,
            (PseudoClass::Before, PseudoClass::Before) => true,
            (PseudoClass::After, PseudoClass::After) => true,
            (PseudoClass::FirstLine, PseudoClass::FirstLine) => true,
            (PseudoClass::FirstLetter, PseudoClass::FirstLetter) => true,
            (PseudoClass::Any, PseudoClass::Any) => true,
            (PseudoClass::Link, PseudoClass::Link) => true,
            (PseudoClass::Visited, PseudoClass::Visited) => true,
            (PseudoClass::Target, PseudoClass::Target) => true,
        _ => false,
    }
}

/// Whether two optional pseudo-classes are the same.
pub fn opt_pseudo_eq(x: &Option<PseudoClass>, y: &Option<PseudoClass>) -> (r: bool)
    ensures
        r == (opt_pseudo_view(*x) == opt_pseudo_view(*y)),
{
    match (x, y) {
        (Some(a), Some(b)) => pseudo_eq(a, b),
        (None, None) => true,
        _ => false,
    }
}

pub open spec fn opt_pseudo_view(p: Option<PseudoClass>) -> Option<PseudoView> {
    match p {
        Some(q) => Some(q@),
        None => None,
    }
}

/// `s` with all leading `c` removed (`str::trim_start_matches` with a `char`).
pub open spec fn trim_start_char(s: Seq<char>, c: char) -> Seq<char>
    decreases s.len(),
{
    if s.len() > 0 && s[0] == c {
        trim_start_char(s.drop_first(), c)
    } else {
        s
    }
}

/// The `a` of `an+b` notation (2 for `odd`/`even`, 0 for a plain `b`).
pub open spec fn nth_a(s: Seq<char>) -> u32 {
    let t = trim(s);
    if t == "odd"@ || t == "even"@ {
        2
    } else {
        match find(t, 'n') {
            Some(k) => match parse_unsigned(trim(t.take(k)), u32::MAX as nat) {
                Some(v) => v as u32,
                None => 1,
            },
            None => 0,
        }
    }
}

/// The `b` of `an+b` notation.
pub open spec fn nth_b(s: Seq<char>) -> u32 {
    let t = trim(s);
    if t == "odd"@ {
        1
    } else if t == "even"@ {
        0
    } else {
        let digits = match find(t, 'n') {
            Some(k) => trim_start_char(trim(t.skip(k + 1)), '+'),
            None => t,
        };
        match parse_unsigned(digits, u32::MAX as nat) {
            Some(v) => v as u32,
            None => 0,
        }
    }
}

fn u32_or(s: &[char], default: u32) -> (r: u32)
    ensures
        r == match parse_unsigned(s@, u32::MAX as nat) {
            Some(v) => v as u32,
            None => default,
        },
{
    match parse_u32_chars(s) {
        Some(v) => v,
        None => default,
    }
}

/// Parse `a` from `an+b` notation (returns 0 for a plain `b`)
fn parse_nth_a(s: &[char]) -> (r: u32)
    ensures
        r == nth_a(s@),
{
    let t = trim_slice(s);
    if slice_is(t, "odd") {
        return 2;
    }
    if slice_is(t, "even") {
        return 2;
    }
    match slice_find(t, 'n') {
        Some(n_pos) => u32_or(trim_slice(slice_subrange(t, 0, n_pos)), 1),
        None => 0,
    }
}

/// Parse `b` from `an+b` notation
fn parse_nth_b(s: &[char]) -> (r: u32)
    ensures
        r == nth_b(s@),
{
    let t = trim_slice(s);
    if slice_is(t, "odd") {
        return 1;
    }
    if slice_is(t, "even") {
        return 0;
    }
    match slice_find(t, 'n') {
        Some(n_pos) => {
            let tl = t.len();
            assert(n_pos < tl);
            let rest = trim_slice(slice_subrange(t, n_pos + 1, tl));
            u32_or(trim_start_plus(rest), 0)
        },
        None => u32_or(t, 0),
    }
}

fn trim_start_plus(s: &[char]) -> (r: &[char])
    ensures
        r@ == trim_start_char(s@, '+'),
{
    let mut i: usize = 0;
    while i < s.len() && s[i] == '+'
        invariant
            i <= s@.len(),
            trim_start_char(s@, '+') == trim_start_char(s@.skip(i as int), '+'),
        decreases s@.len() - i,
    {
        assert(s@.skip(i as int).drop_first() =~= s@.skip(i + 1));
        i = i + 1;
    }
    slice_subrange(s, i, s.len())
}

/// Whether the characters `s` are those of `lit`.
pub fn slice_is(s: &[char], lit: &str) -> (r: bool)
    ensures
        r == (s@ == lit@),
{
    crate::text::slice_eq(s, lit)
}

/// The pseudo-classes that take an argument.
pub open spec fn parse_functional_spec(s: Seq<char>) -> Option<PseudoView> {
    if strip_prefix(s, ":nth-child("@) is Some && strip_suffix(
        strip_prefix(s, ":nth-child("@).unwrap(),
        ")"@,
    ) is Some {
        let arg = strip_suffix(strip_prefix(s, ":nth-child("@).unwrap(), ")"@).unwrap();
        Some(PseudoView::NthChild(nth_a(arg), nth_b(arg)))
    } else if strip_prefix(s, ":nth-last-child("@) is Some && strip_suffix(
        strip_prefix(s, ":nth-last-child("@).unwrap(),
        ")"@,
    ) is Some {
        let arg = strip_suffix(strip_prefix(s, ":nth-last-child("@).unwrap(), ")"@).unwrap();
        Some(PseudoView::NthLastChild(nth_a(arg), nth_b(arg)))
    } else if strip_prefix(s, ":not("@) is Some && strip_suffix(
        strip_prefix(s, ":not("@).unwrap(),
        ")"@,
    ) is Some {
        Some(PseudoView::Not(strip_suffix(strip_prefix(s, ":not("@).unwrap(), ")"@).unwrap()))
    } else if starts_with(s, ":is("@) || starts_with(s, ":where("@) {
        Some(PseudoView::Any)
    } else {
        None
    }
}

/// What `PseudoClass::parse_str` gives for the text `s`.
pub open spec fn parse_pseudo(s: Seq<char>) -> Option<PseudoView> {
    if s == ":hover"@ {
        Some(PseudoView::Hover)
    } else if s == ":focus"@ {
        Some(PseudoView::Focus)
    } else if s == ":focus:hover"@ {
        Some(PseudoView::FocusHover)
    } else if s == ":focus-visible"@ {
        Some(PseudoView::FocusVisible)
    } else if s == ":focus-within"@ {
        Some(PseudoView::FocusWithin)
    } else if s == ":active"@ {
        Some(PseudoView::Active)
    } else if s == ":active:hover"@ {
        Some(PseudoView::ActiveHover)
    } else if s == ":disabled"@ {
        Some(PseudoView::Disabled)
    } else if s == ":disabled:hover"@ {
        Some(PseudoView::DisabledHover)
    } else if s == ":enabled"@ {
        Some(PseudoView::Enabled)
    } else if s == ":checked"@ {
        Some(PseudoView::Checked)
    } else if s == ":indeterminate"@ {
        Some(PseudoView::Indeterminate)
    } else if s == ":first-child"@ {
        Some(PseudoView::FirstChild)
    } else if s == ":last-child"@ {
        Some(PseudoView::LastChild)
    } else if s == ":only-child"@ {
        Some(PseudoView::OnlyChild)
    } else if s == ":first-of-type"@ {
        Some(PseudoView::FirstOfType)
    } else if s == ":last-of-type"@ {
        Some(PseudoView::LastOfType)
    } else if s == ":only-of-type"@ {
        Some(PseudoView::OnlyOfType)
    } else if s == ":empty"@ {
        Some(PseudoView::Empty)
    } else if s == ":root"@ {
        Some(PseudoView::Root)
    } else if s == ":link"@ {
        Some(PseudoView::Link)
    } else if s == ":visited"@ {
        Some(PseudoView::Visited)
    } else if s == ":target"@ {
        Some(PseudoView::Target)
    } else if s == "::placeholder"@ {
        Some(PseudoView::Placeholder)
    } else if s == "::selection"@ {
        Some(PseudoView::Selection)
    } else if s == "::before"@ {
        Some(PseudoView::Before)
    } else if s == "::after"@ {
        Some(PseudoView::After)
    } else if s == "::first-line"@ {
        Some(PseudoView::FirstLine)
    } else if s == "::first-letter"@ {
        Some(PseudoView::FirstLetter)
    } else {
        parse_functional_spec(s)
    }
}

// ---------------------------------------------------------------------------
// Pseudo-class names
// ---------------------------------------------------------------------------

/// The name that each pseudo-class or pseudo-element without an argument is
/// written with.
pub open spec fn pseudo_name(p: PseudoView) -> Option<Seq<char>> {
    match p {
        PseudoView::Hover => Some(":hover"@),
        PseudoView::Focus => Some(":focus"@),
        PseudoView::FocusHover => Some(":focus:hover"@),
        PseudoView::FocusVisible => Some(":focus-visible"@),
        PseudoView::FocusWithin => Some(":focus-within"@),
        PseudoView::Active => Some(":active"@),
        PseudoView::ActiveHover => Some(":active:hover"@),
        PseudoView::Disabled => Some(":disabled"@),
        PseudoView::DisabledHover => Some(":disabled:hover"@),
        PseudoView::Enabled => Some(":enabled"@),
        PseudoView::Checked => Some(":checked"@),
        PseudoView::Indeterminate => Some(":indeterminate"@),
        PseudoView::FirstChild => Some(":first-child"@),
        PseudoView::LastChild => Some(":last-child"@),
        PseudoView::OnlyChild => Some(":only-child"@),
        PseudoView::FirstOfType => Some(":first-of-type"@),
        PseudoView::LastOfType => Some(":last-of-type"@),
        PseudoView::OnlyOfType => Some(":only-of-type"@),
        PseudoView::Empty => Some(":empty"@),
        PseudoView::Root => Some(":root"@),
        PseudoView::Link => Some(":link"@),
        PseudoView::Visited => Some(":visited"@),
        PseudoView::Target => Some(":target"@),
        PseudoView::Placeholder => Some("::placeholder"@),
        PseudoView::Selection => Some("::selection"@),
        PseudoView::Before => Some("::before"@),
        PseudoView::After => Some("::after"@),
        PseudoView::FirstLine => Some("::first-line"@),
        PseudoView::FirstLetter => Some("::first-letter"@),
        _ => None,
    }
}

/// Each pseudo-class name is read as its own pseudo-class, and a pseudo-class
/// without an argument is read from its name and from no other text.
pub proof fn law_pseudo_names(s: Seq<char>, p: PseudoView)
    ensures
        pseudo_name(p) is Some ==> (parse_pseudo(s) == Some(p) <==> pseudo_name(p) == Some(s)),
{
    if parse_pseudo(s) == Some(p) && pseudo_name(p) is Some {
        assert(pseudo_name(p) == Some(s));
    }
    reveal_strlit(":hover");
    reveal_strlit(":focus");
    reveal_strlit(":focus:hover");
    reveal_strlit(":focus-visible");
    reveal_strlit(":focus-within");
    reveal_strlit(":active");
    reveal_strlit(":active:hover");
    reveal_strlit(":disabled");
    reveal_strlit(":disabled:hover");
    reveal_strlit(":enabled");
    reveal_strlit(":checked");
    reveal_strlit(":indeterminate");
    reveal_strlit(":first-child");
    reveal_strlit(":last-child");
    reveal_strlit(":only-child");
    reveal_strlit(":first-of-type");
    reveal_strlit(":last-of-type");
    reveal_strlit(":only-of-type");
    reveal_strlit(":empty");
    reveal_strlit(":root");
    reveal_strlit(":link");
    reveal_strlit(":visited");
    reveal_strlit(":target");
    reveal_strlit("::placeholder");
    reveal_strlit("::selection");
    reveal_strlit("::before");
    reveal_strlit("::after");
    reveal_strlit("::first-line");
    reveal_strlit("::first-letter");
    assert(":hover"@.len() == 6);
    assert(":focus"@.len() == 6);
    assert(":focus:hover"@.len() == 12);
    assert(":focus-visible"@.len() == 14);
    assert(":focus-within"@.len() == 13);
    assert(":active"@.len() == 7);
    assert(":active:hover"@.len() == 13);
    assert(":disabled"@.len() == 9);
    assert(":disabled:hover"@.len() == 15);
    assert(":enabled"@.len() == 8);
    assert(":checked"@.len() == 8);
    assert(":indeterminate"@.len() == 14);
    assert(":first-child"@.len() == 12);
    assert(":last-child"@.len() == 11);
    assert(":only-child"@.len() == 11);
    assert(":first-of-type"@.len() == 14);
    assert(":last-of-type"@.len() == 13);
    assert(":only-of-type"@.len() == 13);
    assert(":empty"@.len() == 6);
    assert(":root"@.len() == 5);
    assert(":link"@.len() == 5);
    assert(":visited"@.len() == 8);
    assert(":target"@.len() == 7);
    assert("::placeholder"@.len() == 13);
    assert("::selection"@.len() == 11);
    assert("::before"@.len() == 8);
    assert("::after"@.len() == 7);
    assert("::first-line"@.len() == 12);
    assert("::first-letter"@.len() == 14);
    assert(":hover"@[1] != ":focus"@[1]);
    assert(":hover"@[1] != ":empty"@[1]);
    assert(":focus"@[1] != ":empty"@[1]);
    assert(":focus:hover"@[2] != ":first-child"@[2]);
    assert(":focus:hover"@[1] != "::first-line"@[1]);
    assert(":focus-visible"@[1] != ":indeterminate"@[1]);
    assert(":focus-visible"@[2] != ":first-of-type"@[2]);
    assert(":focus-visible"@[1] != "::first-letter"@[1]);
    assert(":focus-within"@[1] != ":active:hover"@[1]);
    assert(":focus-within"@[1] != ":last-of-type"@[1]);
    assert(":focus-within"@[1] != ":only-of-type"@[1]);
    assert(":focus-within"@[1] != "::placeholder"@[1]);
    assert(":active"@[1] != ":target"@[1]);
    assert(":active"@[1] != "::after"@[1]);
    assert(":active:hover"@[1] != ":last-of-type"@[1]);
    assert(":active:hover"@[1] != ":only-of-type"@[1]);
    assert(":active:hover"@[1] != "::placeholder"@[1]);
    assert(":enabled"@[1] != ":checked"@[1]);
    assert(":enabled"@[1] != ":visited"@[1]);
    assert(":enabled"@[1] != "::before"@[1]);
    assert(":checked"@[1] != ":visited"@[1]);
    assert(":checked"@[1] != "::before"@[1]);
    assert(":indeterminate"@[1] != ":first-of-type"@[1]);
    assert(":indeterminate"@[1] != "::first-letter"@[1]);
    assert(":first-child"@[1] != "::first-line"@[1]);
    assert(":last-child"@[1] != ":only-child"@[1]);
    assert(":last-child"@[1] != "::selection"@[1]);
    assert(":only-child"@[1] != "::selection"@[1]);
    assert(":first-of-type"@[1] != "::first-letter"@[1]);
    assert(":last-of-type"@[1] != ":only-of-type"@[1]);
    assert(":last-of-type"@[1] != "::placeholder"@[1]);
    assert(":only-of-type"@[1] != "::placeholder"@[1]);
    assert(":root"@[1] != ":link"@[1]);
    assert(":visited"@[1] != "::before"@[1]);
    assert(":target"@[1] != "::after"@[1]);
    assert(parse_pseudo(":hover"@) == Some(PseudoView::Hover));
    assert(parse_pseudo(":focus"@) == Some(PseudoView::Focus));
    assert(parse_pseudo(":focus:hover"@) == Some(PseudoView::FocusHover));
    assert(parse_pseudo(":focus-visible"@) == Some(PseudoView::FocusVisible));
    assert(parse_pseudo(":focus-within"@) == Some(PseudoView::FocusWithin));
    assert(parse_pseudo(":active"@) == Some(PseudoView::Active));
    assert(parse_pseudo(":active:hover"@) == Some(PseudoView::ActiveHover));
    assert(parse_pseudo(":disabled"@) == Some(PseudoView::Disabled));
    assert(parse_pseudo(":disabled:hover"@) == Some(PseudoView::DisabledHover));
    assert(parse_pseudo(":enabled"@) == Some(PseudoView::Enabled));
    assert(parse_pseudo(":checked"@) == Some(PseudoView::Checked));
    assert(parse_pseudo(":indeterminate"@) == Some(PseudoView::Indeterminate));
    assert(parse_pseudo(":first-child"@) == Some(PseudoView::FirstChild));
    assert(parse_pseudo(":last-child"@) == Some(PseudoView::LastChild));
    assert(parse_pseudo(":only-child"@) == Some(PseudoView::OnlyChild));
    assert(parse_pseudo(":first-of-type"@) == Some(PseudoView::FirstOfType));
    assert(parse_pseudo(":last-of-type"@) == Some(PseudoView::LastOfType));
    assert(parse_pseudo(":only-of-type"@) == Some(PseudoView::OnlyOfType));
    assert(parse_pseudo(":empty"@) == Some(PseudoView::Empty));
    assert(parse_pseudo(":root"@) == Some(PseudoView::Root));
    assert(parse_pseudo(":link"@) == Some(PseudoView::Link));
    assert(parse_pseudo(":visited"@) == Some(PseudoView::Visited));
    assert(parse_pseudo(":target"@) == Some(PseudoView::Target));
    assert(parse_pseudo("::placeholder"@) == Some(PseudoView::Placeholder));
    assert(parse_pseudo("::selection"@) == Some(PseudoView::Selection));
    assert(parse_pseudo("::before"@) == Some(PseudoView::Before));
    assert(parse_pseudo("::after"@) == Some(PseudoView::After));
    assert(parse_pseudo("::first-line"@) == Some(PseudoView::FirstLine));
    assert(parse_pseudo("::first-letter"@) == Some(PseudoView::FirstLetter));
}

/// The argument of a call written `prefix` ... `)`.
pub open spec fn argument_of(s: Seq<char>, prefix: Seq<char>) -> Option<Seq<char>> {
    match strip_prefix(s, prefix) {
        Some(rest) => strip_suffix(rest, ")"@),
        None => None,
    }
}

/// The functional pseudo-classes are read from their own names: `:nth-child`
/// and `:nth-last-child` hold the `an+b` of their argument, `:not` holds its
/// argument, and `:is` and `:where` match any.
pub proof fn law_functional_pseudo(s: Seq<char>)
    ensures
        parse_pseudo(s) matches Some(PseudoView::NthChild(a, b)) ==> (argument_of(
            s,
            ":nth-child("@,
        ) matches Some(arg) && a == nth_a(arg) && b == nth_b(arg)),
        parse_pseudo(s) matches Some(PseudoView::NthLastChild(a, b)) ==> (argument_of(
            s,
            ":nth-last-child("@,
        ) matches Some(arg) && a == nth_a(arg) && b == nth_b(arg)),
        parse_pseudo(s) matches Some(PseudoView::Not(x)) ==> argument_of(s, ":not("@) == Some(x),
        parse_pseudo(s) == Some(PseudoView::Any) ==> (starts_with(s, ":is("@) || starts_with(
            s,
            ":where("@,
        )),
{
}

/// The argument of `prefix(...)`: `s` without `prefix` and the final `)`.
fn call_argument<'a>(s: &'a [char], prefix: &str) -> (r: Option<&'a [char]>)
    ensures
        r matches Some(a) ==> strip_prefix(s@, prefix@) is Some && strip_suffix(
            strip_prefix(s@, prefix@).unwrap(),
            ")"@,
        ) == Some(a@),
        r is None ==> !(strip_prefix(s@, prefix@) is Some && strip_suffix(
            strip_prefix(s@, prefix@).unwrap(),
            ")"@,
        ) is Some),
{
    match slice_strip_prefix(s, prefix) {
        Some(rest) => slice_strip_suffix(rest, ")"),
        None => None,
    }
}

impl PseudoClass {
    pub fn parse_str(s: &str) -> (r: Option<Self>)
        ensures
            opt_pseudo_view(r) == parse_pseudo(s@),
    {
        // Exact matches first (fast path)
        if str_is(s, ":hover") {
            Some(PseudoClass::Hover)
        } else if str_is(s, ":focus") {
            Some(PseudoClass::Focus)
        } else if str_is(s, ":focus:hover") {
            Some(PseudoClass::FocusHover)
        } else if str_is(s, ":focus-visible") {
            Some(PseudoClass::FocusVisible)
        } else if str_is(s, ":focus-within") {
            Some(PseudoClass::FocusWithin)
        } else if str_is(s, ":active") {
            Some(PseudoClass::Active)
        } else if str_is(s, ":active:hover") {
            Some(PseudoClass::ActiveHover)
        } else if str_is(s, ":disabled") {
            Some(PseudoClass::Disabled)
        } else if str_is(s, ":disabled:hover") {
            Some(PseudoClass::DisabledHover)
        } else if str_is(s, ":enabled") {
            Some(PseudoClass::Enabled)
        } else if str_is(s, ":checked") {
            Some(PseudoClass::Checked)
        } else if str_is(s, ":indeterminate") {
            Some(PseudoClass::Indeterminate)
        } else if str_is(s, ":first-child") {
            Some(PseudoClass::FirstChild)
        } else if str_is(s, ":last-child") {
            Some(PseudoClass::LastChild)
        } else if str_is(s, ":only-child") {
            Some(PseudoClass::OnlyChild)
        } else if str_is(s, ":first-of-type") {
            Some(PseudoClass::FirstOfType)
        } else if str_is(s, ":last-of-type") {
            Some(PseudoClass::LastOfType)
        } else if str_is(s, ":only-of-type") {
            Some(PseudoClass::OnlyOfType)
        } else if str_is(s, ":empty") {
            Some(PseudoClass::Empty)
        } else if str_is(s, ":root") {
            Some(PseudoClass::Root)
        } else if str_is(s, ":link") {
            Some(PseudoClass::Link)
        } else if str_is(s, ":visited") {
            Some(PseudoClass::Visited)
        } else if str_is(s, ":target") {
            Some(PseudoClass::Target)
        } else if str_is(s, "::placeholder") {
            Some(PseudoClass::Placeholder)
        } else if str_is(s, "::selection") {
            Some(PseudoClass::Selection)
        } else if str_is(s, "::before") {
            Some(PseudoClass::Before)
        } else if str_is(s, "::after") {
            Some(PseudoClass::After)
        } else if str_is(s, "::first-line") {
            Some(PseudoClass::FirstLine)
        } else if str_is(s, "::first-letter") {
            Some(PseudoClass::FirstLetter)
        } else {
            Self::parse_functional(s)
        }
    }

    fn parse_functional(s: &str) -> (r: Option<Self>)
        ensures
            opt_pseudo_view(r) == parse_functional_spec(s@),
    {
        let chars = chars_of(s);
        let cs = chars.as_slice();
        if let Some(arg) = call_argument(cs, ":nth-child(") {
            return Some(PseudoClass::NthChild(parse_nth_a(arg), parse_nth_b(arg)));
        }
        if let Some(arg) = call_argument(cs, ":nth-last-child(") {
            return Some(PseudoClass::NthLastChild(parse_nth_a(arg), parse_nth_b(arg)));
        }
        if let Some(arg) = call_argument(cs, ":not(") {
            return Some(PseudoClass::Not(string_from_chars(arg)));
        }
        if slice_starts_with(cs, ":is(") || slice_starts_with(cs, ":where(") {
            return Some(PseudoClass::Any);
        }
        None
    }
}

// ---------------------------------------------------------------------------
// Selector
// ---------------------------------------------------------------------------

#[derive(Clone, Debug, PartialEq)]
pub struct Selector {
    pub selector: String,
    pub pseudo_class: Option<PseudoClass>,
    pub specificity: Specificity,
}

/// The content of a selector.
pub struct SelectorView {
    pub selector: Seq<char>,
    pub pseudo_class: Option<PseudoView>,
    pub specificity: Specificity,
}

impl View for Selector {
    type V = SelectorView;

    open spec fn view(&self) -> SelectorView {
        SelectorView {
            selector: self.selector@,
            pseudo_class: opt_pseudo_view(self.pseudo_class),
            specificity: self.specificity,
        }
    }
}

/// The selector that a single selector text denotes: `:root` as such; a text
/// that starts with `::` as a pseudo-element on an empty base; otherwise the
/// text before the first `:` as base and the rest as pseudo-class.
pub open spec fn selector_of(v: Seq<char>) -> SelectorView {
    if v == ":root"@ {
        SelectorView { selector: v, pseudo_class: None, specificity: Specificity(0, 0, 0) }
    } else if starts_with(v, "::"@) {
        SelectorView {
            selector: Seq::empty(),
            pseudo_class: parse_pseudo(v),
            specificity: specificity_of(v),
        }
    } else {
        match find(v, ':') {
            Some(k) => SelectorView {
                selector: v.take(k),
                pseudo_class: parse_pseudo(v.skip(k)),
                specificity: specificity_of(v),
            },
            None => SelectorView { selector: v, pseudo_class: None, specificity: specificity_of(v) },
        }
    }
}

fn split_value(value: &str) -> (r: Selector)
    requires
        value@.len() < u32::MAX,
        !starts_with(value@, "::"@),
        value@ != ":root"@,
    ensures
        r@ == selector_of(value@),
{
    let chars = chars_of(value);
    let cs = chars.as_slice();
    if let Some(colon_col) = slice_find(cs, ':') {
        let base = string_from_chars(slice_subrange(cs, 0, colon_col));
        let pseudo_str = value.substring_char(colon_col, cs.len());
        let pseudo = PseudoClass::parse_str(pseudo_str);
        Selector {
            specificity: Specificity::from_selector(value),
            selector: base,
            pseudo_class: pseudo,
        }
    } else {
        Selector {
            specificity: Specificity::from_selector(value),
            selector: value.to_owned(),
            pseudo_class: None,
        }
    }
}

fn split_double_colon(value: &str) -> (r: Selector)
    requires
        value@.len() < u32::MAX,
        starts_with(value@, "::"@),
        value@ != ":root"@,
    ensures
        r@ == selector_of(value@),
{
    // `::placeholder`, `::selection:hover`, etc.: the pseudo-element is the
    // selector here, on an empty base.
    Selector {
        specificity: Specificity::from_selector(value),
        selector: String::new(),
        pseudo_class: PseudoClass::parse_str(value),
    }
}

impl Selector {
    /// The selector that a single selector text denotes.
    pub fn parse(value: &str) -> (r: Self)
        requires
            value@.len() < u32::MAX,
        ensures
            r@ == selector_of(value@),
    {
        if str_is(value, ":root") {
            return Selector {
                specificity: Specificity(0, 0, 0),
                selector: value.to_owned(),
                pseudo_class: None,
            };
        }
        let chars = chars_of(value);
        if slice_starts_with(chars.as_slice(), "::") {
            return split_double_colon(value);
        }
        split_value(value)
    }
}

/// A copy of a pseudo-class, with the same content.
pub fn copy_pseudo(p: &PseudoClass) -> (r: PseudoClass)
    ensures
        r@ == p@,
{
    match p {
        PseudoClass::Hover => PseudoClass::Hover,
        PseudoClass::Active => PseudoClass::Active,
        PseudoClass::ActiveHover => PseudoClass::ActiveHover,
        PseudoClass::Focus => PseudoClass::Focus,
        PseudoClass::FocusHover => PseudoClass::FocusHover,
        PseudoClass::FocusVisible => PseudoClass::FocusVisible,
        PseudoClass::FocusWithin => PseudoClass::FocusWithin,
        PseudoClass::Disabled => PseudoClass::Disabled,
        PseudoClass::DisabledHover => PseudoClass::DisabledHover,
        PseudoClass::Enabled => PseudoClass::Enabled,
        PseudoClass::Checked => PseudoClass::Checked,
        PseudoClass::Indeterminate => PseudoClass::Indeterminate,
        PseudoClass::FirstChild => PseudoClass::FirstChild,
        PseudoClass::LastChild => PseudoClass::LastChild,
        PseudoClass::OnlyChild => PseudoClass::OnlyChild,
        PseudoClass::FirstOfType => PseudoClass::FirstOfType,
        PseudoClass::LastOfType => PseudoClass::LastOfType,
        PseudoClass::OnlyOfType => PseudoClass::OnlyOfType,
        PseudoClass::NthChild(a, b) => PseudoClass::NthChild(*a, *b),
        PseudoClass::NthLastChild(a, b) => PseudoClass::NthLastChild(*a, *b),
        PseudoClass::Empty => PseudoClass::Empty,
        PseudoClass::Root => PseudoClass::Root,
        PseudoClass::Not(s) => PseudoClass::Not(s.clone()),
        PseudoClass::Placeholder => PseudoClass::Placeholder,
        PseudoClass::Selection => PseudoClass::Selection,
        PseudoClass::Before => PseudoClass::Before,
        PseudoClass::After => PseudoClass::After,
        PseudoClass::FirstLine => PseudoClass::FirstLine,
        PseudoClass::FirstLetter => PseudoClass::FirstLetter,
        PseudoClass::Any => PseudoClass::Any,
        PseudoClass::Link => PseudoClass::Link,
        PseudoClass::Visited => PseudoClass::Visited,
        PseudoClass::Target => PseudoClass::Target,
    }
}

/// A copy of a selector, with the same content.
pub fn copy_selector(s: &Selector) -> (r: Selector)
    ensures
        r@ == s@,
{
    Selector {
        selector: s.selector.clone(),
        pseudo_class: match &s.pseudo_class {
            Some(p) => Some(copy_pseudo(p)),
            None => None,
        },
        specificity: s.specificity,
    }
}

/// The selector for a class name: a name that already starts with `.`, `#`
/// or `:` is used as it is, any other gets a `.` in front.
pub fn to_selector(name: &str) -> (r: String)
    ensures
        r@ == if name@.len() > 0 && (name@[0] == '.' || name@[0] == '#' || name@[0] == ':') {
            name@
        } else {
            seq!['.'] + name@
        },
{
    let cs = chars_of(name);
    if cs.len() > 0 && (cs[0] == '.' || cs[0] == '#' || cs[0] == ':') {
        return name.to_string();
    }
    let mut out: Vec<char> = Vec::new();
    out.push('.');
    let mut i: usize = 0;
    while i < cs.len()
        invariant
            i <= cs@.len(),
            out@ == seq!['.'] + cs@.take(i as int),
        decreases cs@.len() - i,
    {
        out.push(cs[i]);
        assert(cs@.take(i + 1) =~= cs@.take(i as int).push(cs@[i as int]));
        i = i + 1;
    }
    assert(cs@.take(i as int) =~= cs@);
    string_from_chars(out.as_slice())
}

} // verus!
