//! Lengths: units, `calc()`, `min()`, `max()` and `clamp()`.
use vstd::prelude::*;
use vstd::slice::slice_subrange;

use crate::text::{
    chars_of, find, is_float_literal, lemma_split_on_len, lemma_trim_len, slice_find,
    slice_starts_with, slice_strip_prefix, slice_strip_suffix, split_char, split_on, starts_with,
    strip_prefix, strip_suffix, trim, trim_end_slice, trim_slice,
};
use crate::units::{lemma_lens_of_push, lens_of, Calc, CalcExpr, Len, Number, PxPct};
use crate::values::{number_before, number_of};

verus! {

broadcast use vstd::seq_lib::group_seq_properties;

/// Texts this long can have their parentheses counted in an `i32`.
pub open spec fn fits_depth(s: Seq<char>) -> bool {
    s.len() < 0x4000_0000
}

/// `)` minus `(` in `s[j..]`: the nesting that a right-to-left scan has seen
/// when it reaches position `j - 1`.
pub open spec fn pdepth(s: Seq<char>, j: int) -> int
    decreases s.len() - j,
{
    if j < 0 || j >= s.len() {
        0
    } else {
        pdepth(s, j + 1) + if s[j] == ')' {
            1int
        } else if s[j] == '(' {
            -1int
        } else {
            0int
        }
    }
}

pub proof fn lemma_pdepth_bound(s: Seq<char>, j: int)
    requires
        0 <= j <= s.len(),
    ensures
        -(s.len() - j) <= pdepth(s, j) <= s.len() - j,
    decreases s.len() - j,
{
    if j < s.len() {
        lemma_pdepth_bound(s, j + 1);
    }
}

/// A `+`, or a `-` after a space, outside parentheses and not first.
pub open spec fn additive_at(s: Seq<char>, j: int) -> bool {
    0 < j < s.len() && pdepth(s, j + 1) == 0 && (s[j] == '+' || (s[j] == '-' && s[j - 1] == ' '))
}

/// The rightmost additive operator at or before `j`.
pub open spec fn last_additive(s: Seq<char>, j: int) -> Option<int>
    decreases j + 1,
{
    if j < 0 {
        None
    } else if additive_at(s, j) {
        Some(j)
    } else {
        last_additive(s, j - 1)
    }
}

/// A `*` or `/` where the nesting, counted on from `d0`, is zero.
pub open spec fn mult_at(s: Seq<char>, j: int, d0: int) -> bool {
    0 <= j < s.len() && d0 + pdepth(s, j + 1) == 0 && (s[j] == '*' || s[j] == '/')
}

/// The rightmost multiplicative operator at or before `j`.
pub open spec fn last_mult(s: Seq<char>, j: int, d0: int) -> Option<int>
    decreases j + 1,
{
    if j < 0 {
        None
    } else if mult_at(s, j, d0) {
        Some(j)
    } else {
        last_mult(s, j - 1, d0)
    }
}

pub proof fn lemma_last_found(s: Seq<char>, j: int, d0: int)
    requires
        j < s.len(),
    ensures
        last_additive(s, j) matches Some(k) ==> 0 < k <= j && additive_at(s, k),
        last_mult(s, j, d0) matches Some(k) ==> 0 <= k <= j && mult_at(s, k, d0),
    decreases j + 1,
{
    if j >= 0 {
        lemma_last_found(s, j - 1, d0);
    }
}

/// The length that a text denotes, as `parse_px_pct` reads it: `0`, a number
/// with a unit, or a `calc()`, `min()`, `max()` or `clamp()` function.
pub open spec fn len_text(s0: Seq<char>) -> Option<Len>
    decreases s0.len(), 1int, 0int,
{
    let s = trim(s0);
    proof {
        lemma_trim_len(s0);
    }
    if s == "0"@ {
        Some(Len::Zero)
    } else if strip_suffix(s, "px"@) is Some {
        match number_before(s, "px"@) {
            Some(n) => Some(Len::Px(n)),
            None => None,
        }
    } else if strip_suffix(s, "%"@) is Some {
        match number_before(s, "%"@) {
            Some(n) => Some(Len::Pct(n)),
            None => None,
        }
    } else if strip_suffix(s, "rem"@) is Some {
        match number_before(s, "rem"@) {
            Some(n) => Some(Len::Rem(n)),
            None => None,
        }
    } else if strip_suffix(s, "em"@) is Some {
        match number_before(s, "em"@) {
            Some(n) => Some(Len::Em(n)),
            None => None,
        }
    } else if strip_suffix(s, "ch"@) is Some {
        match number_before(s, "ch"@) {
            Some(n) => Some(Len::Ch(n)),
            None => None,
        }
    } else if strip_suffix(s, "ex"@) is Some {
        match number_before(s, "ex"@) {
            Some(n) => Some(Len::Ex(n)),
            None => None,
        }
    } else if strip_suffix(s, "vmin"@) is Some {
        match number_before(s, "vmin"@) {
            Some(n) => Some(Len::Vmin(n)),
            None => None,
        }
    } else if strip_suffix(s, "vmax"@) is Some {
        match number_before(s, "vmax"@) {
            Some(n) => Some(Len::Vmax(n)),
            None => None,
        }
    } else if strip_suffix(s, "svh"@) is Some {
        match number_before(s, "svh"@) {
            Some(n) => Some(Len::Svh(n)),
            None => None,
        }
    } else if strip_suffix(s, "dvh"@) is Some {
        match number_before(s, "dvh"@) {
            Some(n) => Some(Len::Dvh(n)),
            None => None,
        }
    } else if strip_suffix(s, "vw"@) is Some {
        match number_before(s, "vw"@) {
            Some(n) => Some(Len::Vw(n)),
            None => None,
        }
    } else if strip_suffix(s, "vh"@) is Some {
        match number_before(s, "vh"@) {
            Some(n) => Some(Len::Vh(n)),
            None => None,
        }
    } else if starts_with(s, "calc("@) {
        match calc_text(s) {
            Some(e) => Some(Len::Calc(Box::new(e))),
            None => None,
        }
    } else if starts_with(s, "min("@) || starts_with(s, "max("@) {
        min_max_text(s)
    } else if starts_with(s, "clamp("@) {
        clamp_text(s)
    } else {
        None
    }
}

/// `calc(expr)`.
pub open spec fn calc_text(s: Seq<char>) -> Option<Calc>
    decreases s.len(), 0int, 0int,
{
    match strip_prefix(s, "calc("@) {
        None => None,
        Some(a) => match strip_suffix(a, ")"@) {
            None => None,
            Some(inner) => {
                proof {
                    reveal_strlit("calc(");
                    reveal_strlit(")");
                    lemma_trim_len(inner);
                }
                calc_expr_text(trim(inner))
            },
        },
    }
}

/// A `calc()` expression: split at the rightmost `+`/`-` outside parentheses,
/// else at the rightmost `*`/`/` (whose right side is a number), else a length.
pub open spec fn calc_expr_text(s: Seq<char>) -> Option<Calc>
    decreases s.len(), 2int, 0int,
{
    let n = s.len() as int;
    proof {
        lemma_last_found(s, n - 1, pdepth(s, 0));
    }
    match last_additive(s, n - 1) {
        Some(j) => {
            proof {
                lemma_trim_len(s.take(j));
                lemma_trim_len(s.skip(j + 1));
            }
            match (calc_expr_text(trim(s.take(j))), calc_expr_text(trim(s.skip(j + 1)))) {
                (Some(l), Some(r)) => Some(
                    if s[j] == '+' {
                        Calc::Add(Box::new(l), Box::new(r))
                    } else {
                        Calc::Sub(Box::new(l), Box::new(r))
                    },
                ),
                _ => None,
            }
        },
        None => match last_mult(s, n - 1, pdepth(s, 0)) {
            Some(j) => {
                proof {
                    lemma_trim_len(s.take(j));
                }
                match calc_expr_text(trim(s.take(j))) {
                    Some(l) => {
                        let rhs = trim(s.skip(j + 1));
                        if is_float_literal(rhs) {
                            Some(
                                if s[j] == '*' {
                                    Calc::Mul(Box::new(l), rhs)
                                } else {
                                    Calc::Div(Box::new(l), rhs)
                                },
                            )
                        } else {
                            None
                        }
                    },
                    None => None,
                }
            },
            None => match len_text(s) {
                Some(v) => Some(Calc::Value(Box::new(v))),
                None => None,
            },
        },
    }
}

/// Every argument, trimmed, as a length (`None` where one is not); `n` bounds
/// the arguments' lengths.
pub open spec fn lens_all(args: Seq<Seq<char>>, n: nat) -> Option<Seq<Len>>
    decreases n, 3int, args.len(),
{
    if args.len() == 0 {
        Some(seq![])
    } else {
        let a = trim(args[0]);
        proof {
            lemma_trim_len(args[0]);
        }
        if a.len() > n {
            None
        } else {
            match len_text(a) {
                None => None,
                Some(v) => match lens_all(args.drop_first(), n) {
                    Some(rest) => Some(seq![v] + rest),
                    None => None,
                },
            }
        }
    }
}

/// `min(a, b, ...)` or `max(a, b, ...)`: every argument must be a length.
pub open spec fn min_max_text(s: Seq<char>) -> Option<Len>
    decreases s.len(), 0int, 0int,
{
    let is_min = starts_with(s, "min("@);
    let prefix = if is_min {
        "min("@
    } else {
        "max("@
    };
    match strip_prefix(s, prefix) {
        None => None,
        Some(a) => match strip_suffix(a, ")"@) {
            None => None,
            Some(inner) => {
                proof {
                    reveal_strlit("min(");
                    reveal_strlit("max(");
                    reveal_strlit(")");
                }
                match lens_all(split_on(inner, ','), inner.len()) {
                    Some(v) => Some(
                        if is_min {
                            Len::Min(v)
                        } else {
                            Len::Max(v)
                        },
                    ),
                    None => None,
                }
            },
        },
    }
}

/// `clamp(min, value, max)`: the text up to the first comma, up to the second,
/// and the rest, each a length.
pub open spec fn clamp_text(s: Seq<char>) -> Option<Len>
    decreases s.len(), 0int, 0int,
{
    match strip_prefix(s, "clamp("@) {
        None => None,
        Some(a) => match strip_suffix(a, ")"@) {
            None => None,
            Some(inner) => match find(inner, ',') {
                None => None,
                Some(k1) => {
                    let rest = inner.skip(k1 + 1);
                    match find(rest, ',') {
                        None => None,
                        Some(k2) => {
                            proof {
                                reveal_strlit("clamp(");
                                reveal_strlit(")");
                                crate::text::lemma_index_from(inner, ',', 0);
                                crate::text::lemma_index_from(rest, ',', 0);
                                lemma_trim_len(inner.take(k1));
                                lemma_trim_len(rest.take(k2));
                                lemma_trim_len(rest.skip(k2 + 1));
                            }
                            match (
                                len_text(trim(inner.take(k1))),
                                len_text(trim(rest.take(k2))),
                                len_text(trim(rest.skip(k2 + 1))),
                            ) {
                                (Some(x), Some(y), Some(z)) => Some(
                                    Len::Clamp(Box::new(x), Box::new(y), Box::new(z)),
                                ),
                                _ => None,
                            }
                        },
                    }
                },
            },
        },
    }
}

pub open spec fn opt_len(r: Option<PxPct>) -> Option<Len> {
    match r {
        Some(p) => Some(p@),
        None => None,
    }
}

pub open spec fn opt_calc(r: Option<CalcExpr>) -> Option<Calc> {
    match r {
        Some(p) => Some(p@),
        None => None,
    }
}

/// Parse any CSS length/percentage value including modern units.
/// Note: `rem` is checked before `em`, and `vmin`/`vmax` before `vw`/`vh`.
pub fn parse_px_pct(s: &str) -> (r: Option<PxPct>)
    requires
        fits_depth(s@),
    ensures
        opt_len(r) == len_text(s@),
{
    let cs = chars_of(s);
    px_pct_chars(cs.as_slice())
}

pub fn px_pct_chars(s0: &[char]) -> (r: Option<PxPct>)
    requires
        fits_depth(s0@),
    ensures
        opt_len(r) == len_text(s0@),
    decreases s0@.len(), 1int, 0int,
{
    let s = trim_slice(s0);
    proof {
        lemma_trim_len(s0@);
    }
    if crate::selector::slice_is(s, "0") {
        return Some(PxPct::Zero);
    }
    if let Some(v) = slice_strip_suffix(s, "px") {
        return match number_of(trim_end_slice(v)) {
            Some(n) => Some(PxPct::Px(n)),
            None => None,
        };
    }
    if let Some(v) = slice_strip_suffix(s, "%") {
        return match number_of(trim_end_slice(v)) {
            Some(n) => Some(PxPct::Pct(n)),
            None => None,
        };
    }
    if let Some(v) = slice_strip_suffix(s, "rem") {
        return match number_of(trim_end_slice(v)) {
            Some(n) => Some(PxPct::Rem(n)),
            None => None,
        };
    }
    if let Some(v) = slice_strip_suffix(s, "em") {
        return match number_of(trim_end_slice(v)) {
            Some(n) => Some(PxPct::Em(n)),
            None => None,
        };
    }
    if let Some(v) = slice_strip_suffix(s, "ch") {
        return match number_of(trim_end_slice(v)) {
            Some(n) => Some(PxPct::Ch(n)),
            None => None,
        };
    }
    if let Some(v) = slice_strip_suffix(s, "ex") {
        return match number_of(trim_end_slice(v)) {
            Some(n) => Some(PxPct::Ex(n)),
            None => None,
        };
    }
    if let Some(v) = slice_strip_suffix(s, "vmin") {
        return match number_of(trim_end_slice(v)) {
            Some(n) => Some(PxPct::Vmin(n)),
            None => None,
        };
    }
    if let Some(v) = slice_strip_suffix(s, "vmax") {
        return match number_of(trim_end_slice(v)) {
            Some(n) => Some(PxPct::Vmax(n)),
            None => None,
        };
    }
    if let Some(v) = slice_strip_suffix(s, "svh") {
        return match number_of(trim_end_slice(v)) {
            Some(n) => Some(PxPct::Svh(n)),
            None => None,
        };
    }
    if let Some(v) = slice_strip_suffix(s, "dvh") {
        return match number_of(trim_end_slice(v)) {
            Some(n) => Some(PxPct::Dvh(n)),
            None => None,
        };
    }
    if let Some(v) = slice_strip_suffix(s, "vw") {
        return match number_of(trim_end_slice(v)) {
            Some(n) => Some(PxPct::Vw(n)),
            None => None,
        };
    }
    if let Some(v) = slice_strip_suffix(s, "vh") {
        return match number_of(trim_end_slice(v)) {
            Some(n) => Some(PxPct::Vh(n)),
            None => None,
        };
    }
    if slice_starts_with(s, "calc(") {
        return match calc_chars(s) {
            Some(e) => Some(PxPct::Calc(Box::new(e))),
            None => None,
        };
    }
    if slice_starts_with(s, "min(") || slice_starts_with(s, "max(") {
        return min_max_chars(s);
    }
    if slice_starts_with(s, "clamp(") {
        return clamp_chars(s);
    }
    None
}

/// Parse `calc(expr)` — simple recursive descent supporting +, -, *, /
pub fn parse_calc(s: &str) -> (r: Option<CalcExpr>)
    requires
        fits_depth(s@),
    ensures
        opt_calc(r) == calc_text(s@),
{
    let cs = chars_of(s);
    calc_chars(cs.as_slice())
}

fn calc_chars(s: &[char]) -> (r: Option<CalcExpr>)
    requires
        fits_depth(s@),
    ensures
        opt_calc(r) == calc_text(s@),
    decreases s@.len(), 0int, 0int,
{
    proof {
        reveal_strlit("calc(");
        reveal_strlit(")");
    }
    let a = match slice_strip_prefix(s, "calc(") {
        Some(a) => a,
        None => return None,
    };
    let inner = match slice_strip_suffix(a, ")") {
        Some(i) => i,
        None => return None,
    };
    proof {
        lemma_trim_len(inner@);
    }
    calc_expr_chars(trim_slice(inner))
}

fn calc_expr_chars(s: &[char]) -> (r: Option<CalcExpr>)
    requires
        fits_depth(s@),
    ensures
        opt_calc(r) == calc_expr_text(s@),
    decreases s@.len(), 2int, 0int,
{
    let n = s.len();
    let ghost sv = s@;
    proof {
        lemma_last_found(sv, n - 1, pdepth(sv, 0));
    }
    // Try to split on + or - (lowest precedence), scanning from the right.
    let mut depth: i32 = 0;
    let mut i: usize = n;
    while i > 0
        invariant
            sv == s@,
            n == sv.len(),
            fits_depth(sv),
            i <= n,
            depth == pdepth(sv, i as int),
            last_additive(sv, n - 1) == last_additive(sv, i - 1),
        decreases i,
    {
        proof {
            lemma_pdepth_bound(sv, i as int);
        }
        let k = i - 1;
        let c = s[k];
        if c == ')' {
            depth = depth + 1;
        } else if c == '(' {
            depth = depth - 1;
        } else if (c == '+' && depth == 0 && k > 0) || (c == '-' && depth == 0 && k > 0 && s[k
            - 1] == ' ') {
            assert(additive_at(sv, k as int));
            proof {
                lemma_trim_len(sv.take(k as int));
                lemma_trim_len(sv.skip(k + 1));
            }
            let lhs = match calc_expr_chars(trim_slice(slice_subrange(s, 0, k))) {
                Some(l) => l,
                None => return None,
            };
            let rhs = match calc_expr_chars(trim_slice(slice_subrange(s, k + 1, n))) {
                Some(r) => r,
                None => return None,
            };
            if c == '+' {
                return Some(CalcExpr::Add(Box::new(lhs), Box::new(rhs)));
            } else {
                return Some(CalcExpr::Sub(Box::new(lhs), Box::new(rhs)));
            }
        }
        i = k;
    }
    assert(last_additive(sv, n - 1) is None);
    // Try to split on * or /, with the nesting counted on.
    let ghost d0 = pdepth(sv, 0);
    let mut j: usize = n;
    while j > 0
        invariant
            sv == s@,
            n == sv.len(),
            fits_depth(sv),
            j <= n,
            d0 == pdepth(sv, 0),
            last_additive(sv, n - 1) is None,
            depth == d0 + pdepth(sv, j as int),
            last_mult(sv, n - 1, d0) == last_mult(sv, j - 1, d0),
        decreases j,
    {
        proof {
            lemma_pdepth_bound(sv, j as int);
            lemma_pdepth_bound(sv, 0);
        }
        let k = j - 1;
        let c = s[k];
        if c == ')' {
            depth = depth + 1;
        } else if c == '(' {
            depth = depth - 1;
        } else if (c == '*' || c == '/') && depth == 0 {
            assert(mult_at(sv, k as int, d0));
            proof {
                lemma_trim_len(sv.take(k as int));
            }
            let lhs = match calc_expr_chars(trim_slice(slice_subrange(s, 0, k))) {
                Some(l) => l,
                None => return None,
            };
            let rhs = match number_of(trim_slice(slice_subrange(s, k + 1, n))) {
                Some(r) => r,
                None => return None,
            };
            if c == '*' {
                return Some(CalcExpr::Mul(Box::new(lhs), rhs));
            } else {
                return Some(CalcExpr::Div(Box::new(lhs), rhs));
            }
        }
        j = k;
    }
    // Base case: a length value
    match px_pct_chars(s) {
        Some(v) => Some(CalcExpr::Value(Box::new(v))),
        None => None,
    }
}

fn min_max_chars(s: &[char]) -> (r: Option<PxPct>)
    requires
        fits_depth(s@),
        starts_with(s@, "min("@) || starts_with(s@, "max("@),
    ensures
        opt_len(r) == min_max_text(s@),
    decreases s@.len(), 0int, 0int,
{
    proof {
        reveal_strlit("min(");
        reveal_strlit("max(");
        reveal_strlit(")");
    }
    let is_min = slice_starts_with(s, "min(");
    let a = match slice_strip_prefix(s, if is_min {
        "min("
    } else {
        "max("
    }) {
        Some(a) => a,
        None => return None,
    };
    let inner = match slice_strip_suffix(a, ")") {
        Some(i) => i,
        None => return None,
    };
    let pieces = split_char(inner, ',');
    let ghost args = split_on(inner@, ',');
    let ghost n = inner@.len();
    proof {
        lemma_split_on_len(inner@, ',');
    }
    let mut out: Vec<PxPct> = Vec::new();
    let mut k: usize = 0;
    assert(min_max_text(s@) == match lens_all(args, n) {
        Some(v) => Some(
            if is_min {
                Len::Min(v)
            } else {
                Len::Max(v)
            },
        ),
        None => None,
    });
    while k < pieces.len()
        invariant
            min_max_text(s@) == match lens_all(args, n) {
                Some(v) => Some(
                    if is_min {
                        Len::Min(v)
                    } else {
                        Len::Max(v)
                    },
                ),
                None => None,
            },
            pieces@.map_values(|p: &[char]| p@) == args,
            args == split_on(inner@, ','),
            n == inner@.len(),
            n < s@.len(),
            fits_depth(s@),
            forall|i: int| 0 <= i < args.len() ==> (#[trigger] args[i]).len() <= n,
            k <= pieces@.len(),
            lens_all(args, n) == match lens_all(args.skip(k as int), n) {
                Some(rest) => Some(lens_of(out@) + rest),
                None => None,
            },
        decreases pieces@.len() - k,
    {
        let piece = pieces[k];
        assert(piece@ == args[k as int]);
        let t = trim_slice(piece);
        proof {
            lemma_trim_len(piece@);
            assert(args.skip(k as int)[0] == args[k as int]);
            assert(args.skip(k as int).drop_first() =~= args.skip(k + 1));
        }
        match px_pct_chars(t) {
            Some(v) => {
                let ghost before = out@;
                out.push(v);
                proof {
                    lemma_lens_of_push(before, v);
                    match lens_all(args.skip(k + 1), n) {
                        Some(rest) => {
                            assert(lens_of(before) + (seq![v@] + rest) =~= lens_of(out@) + rest);
                        },
                        None => {},
                    }
                }
            },
            None => {
                assert(trim(args.skip(k as int)[0]) == t@);
                assert(lens_all(args.skip(k as int), n) is None);
                return None;
            },
        }
        k = k + 1;
    }
    assert(args.skip(pieces@.len() as int) =~= Seq::<Seq<char>>::empty());
    assert(lens_of(out@) + Seq::<Len>::empty() =~= lens_of(out@));
    if is_min {
        Some(PxPct::Min(out))
    } else {
        Some(PxPct::Max(out))
    }
}

fn clamp_chars(s: &[char]) -> (r: Option<PxPct>)
    requires
        fits_depth(s@),
    ensures
        opt_len(r) == clamp_text(s@),
    decreases s@.len(), 0int, 0int,
{
    proof {
        reveal_strlit("clamp(");
        reveal_strlit(")");
    }
    let a = match slice_strip_prefix(s, "clamp(") {
        Some(a) => a,
        None => return None,
    };
    let inner = match slice_strip_suffix(a, ")") {
        Some(i) => i,
        None => return None,
    };
    let il = inner.len();
    let k1 = match slice_find(inner, ',') {
        Some(k) => k,
        None => return None,
    };
    let rest = slice_subrange(inner, k1 + 1, il);
    let rl = rest.len();
    let k2 = match slice_find(rest, ',') {
        Some(k) => k,
        None => return None,
    };
    let p1 = trim_slice(slice_subrange(inner, 0, k1));
    let p2 = trim_slice(slice_subrange(rest, 0, k2));
    let p3 = trim_slice(slice_subrange(rest, k2 + 1, rl));
    proof {
        lemma_trim_len(inner@.take(k1 as int));
        lemma_trim_len(rest@.take(k2 as int));
        lemma_trim_len(rest@.skip(k2 + 1));
    }
    let min = match px_pct_chars(p1) {
        Some(v) => v,
        None => return None,
    };
    let val = match px_pct_chars(p2) {
        Some(v) => v,
        None => return None,
    };
    let max = match px_pct_chars(p3) {
        Some(v) => v,
        None => return None,
    };
    Some(PxPct::Clamp(Box::new(min), Box::new(val), Box::new(max)))
}

// ---------------------------------------------------------------------------
// Units
// ---------------------------------------------------------------------------

/// The unit that a length with a number is written with.
pub open spec fn len_unit(l: Len) -> Option<Seq<char>> {
    match l {
        Len::Px(_) => Some("px"@),
        Len::Pct(_) => Some("%"@),
        Len::Em(_) => Some("em"@),
        Len::Rem(_) => Some("rem"@),
        Len::Ch(_) => Some("ch"@),
        Len::Ex(_) => Some("ex"@),
        Len::Vw(_) => Some("vw"@),
        Len::Vh(_) => Some("vh"@),
        Len::Vmin(_) => Some("vmin"@),
        Len::Vmax(_) => Some("vmax"@),
        Len::Svh(_) => Some("svh"@),
        Len::Dvh(_) => Some("dvh"@),
        _ => None,
    }
}

/// The number of a length with a unit.
pub open spec fn len_number(l: Len) -> Option<Seq<char>> {
    match l {
        Len::Px(n) | Len::Pct(n) | Len::Em(n) | Len::Rem(n) | Len::Ch(n) | Len::Ex(n) | Len::Vw(n)
        | Len::Vh(n) | Len::Vmin(n) | Len::Vmax(n) | Len::Svh(n) | Len::Dvh(n) => Some(n),
        _ => None,
    }
}

/// A length keeps the unit it was written with: a length with a unit is read
/// from a text that ends with that unit, and its number is the number in
/// front of it; `Zero` is read from `0` alone.
pub proof fn law_length_unit(s: Seq<char>)
    ensures
        len_text(s) matches Some(l) ==> match (len_unit(l), len_number(l)) {
            (Some(u), Some(n)) => number_before(trim(s), u) == Some(n),
            _ => true,
        },
        len_text(s) == Some(Len::Zero) ==> trim(s) == "0"@,
{
}

} // verus!
