//! Transforms, filters and background images.
//!
//! Angles and amounts are kept as written (a number and its unit); turning
//! them into degrees or fractions is floating-point work left to the caller.
use vstd::prelude::*;
use vstd::slice::slice_subrange;

use csscolorparser::Color;

use crate::color::css_color;
use crate::length::{fits_depth, len_text, opt_len, px_pct_chars};
use crate::selector::slice_is;
use crate::text::{
    chars_of, find, is_float_literal, lemma_index_from, lemma_split_on_len, lemma_trim_len,
    slice_find, slice_starts_with, slice_strip_prefix, slice_strip_suffix, split_char, split_on,
    starts_with, string_from_chars, strip_prefix, strip_suffix, trim, trim_matches,
    trim_matches_slice, trim_slice, trim_start, trim_start_slice,
};
use crate::units::{copy_px_pct, zero_text, BoxShadow, Len, Number, Px, PxPct};
use crate::values::number_of;

verus! {

broadcast use vstd::seq_lib::group_seq_properties;

// ---------------------------------------------------------------------------
// Angles
// ---------------------------------------------------------------------------

/// An angle as written: degrees, turns (360 degrees each) or radians.
#[derive(Clone, Debug, PartialEq)]
pub enum Angle {
    Deg(Number),
    Turn(Number),
    Rad(Number),
}

pub enum AngleView {
    Deg(Seq<char>),
    Turn(Seq<char>),
    Rad(Seq<char>),
}

impl View for Angle {
    type V = AngleView;

    open spec fn view(&self) -> AngleView {
        match *self {
            Angle::Deg(n) => AngleView::Deg(n@),
            Angle::Turn(n) => AngleView::Turn(n@),
            Angle::Rad(n) => AngleView::Rad(n@),
        }
    }
}

pub open spec fn opt_angle(a: Option<Angle>) -> Option<AngleView> {
    match a {
        Some(x) => Some(x@),
        None => None,
    }
}

/// The number in front of a unit, trimmed, where it reads as a number.
pub open spec fn unit_number(s: Seq<char>, unit: Seq<char>) -> Option<Seq<char>> {
    match strip_suffix(s, unit) {
        Some(v) => if is_float_literal(trim(v)) {
            Some(trim(v))
        } else {
            None
        },
        None => None,
    }
}

/// A CSS angle like `45deg`, `0.5turn`, `1rad`; a plain number is in degrees.
pub open spec fn angle_text(s: Seq<char>) -> Option<AngleView> {
    if strip_suffix(s, "deg"@) is Some {
        match unit_number(s, "deg"@) {
            Some(n) => Some(AngleView::Deg(n)),
            None => None,
        }
    } else if strip_suffix(s, "turn"@) is Some {
        match unit_number(s, "turn"@) {
            Some(n) => Some(AngleView::Turn(n)),
            None => None,
        }
    } else if strip_suffix(s, "rad"@) is Some {
        match unit_number(s, "rad"@) {
            Some(n) => Some(AngleView::Rad(n)),
            None => None,
        }
    } else if is_float_literal(s) {
        Some(AngleView::Deg(s))
    } else {
        None
    }
}

fn unit_number_exec(s: &[char], unit: &str) -> (r: Option<Number>)
    ensures
        match r {
            Some(n) => unit_number(s@, unit@) == Some(n@),
            None => unit_number(s@, unit@) is None,
        },
{
    match slice_strip_suffix(s, unit) {
        Some(v) => number_of(trim_slice(v)),
        None => None,
    }
}

fn angle_chars(s: &[char]) -> (r: Option<Angle>)
    ensures
        opt_angle(r) == angle_text(s@),
{
    if slice_strip_suffix(s, "deg").is_some() {
        return match unit_number_exec(s, "deg") {
            Some(n) => Some(Angle::Deg(n)),
            None => None,
        };
    }
    if slice_strip_suffix(s, "turn").is_some() {
        return match unit_number_exec(s, "turn") {
            Some(n) => Some(Angle::Turn(n)),
            None => None,
        };
    }
    if slice_strip_suffix(s, "rad").is_some() {
        return match unit_number_exec(s, "rad") {
            Some(n) => Some(Angle::Rad(n)),
            None => None,
        };
    }
    match number_of(s) {
        Some(n) => Some(Angle::Deg(n)),
        None => None,
    }
}

// ---------------------------------------------------------------------------
// Function calls
// ---------------------------------------------------------------------------

/// A call `name(args)`, after trimming: the name (trimmed) and the text
/// between the first `(` and a final `)`.
pub open spec fn call_parts(s: Seq<char>) -> Option<(Seq<char>, Seq<char>)> {
    let t = trim(s);
    match find(t, '(') {
        Some(k) => match strip_suffix(t.skip(k + 1), ")"@) {
            Some(args) => Some((trim(t.take(k)), args)),
            None => None,
        },
        None => None,
    }
}

/// The comma-separated arguments of a call, each trimmed.
pub open spec fn args_of(args: Seq<char>) -> Seq<Seq<char>> {
    split_on(args, ',').map_values(|a: Seq<char>| trim(a))
}

pub proof fn lemma_call_parts(s: Seq<char>)
    ensures
        call_parts(s) matches Some((name, args)) ==> args.len() < s.len() && name.len() < s.len(),
{
    let t = trim(s);
    lemma_trim_len(s);
    lemma_index_from(t, '(', 0);
    if let Some(k) = find(t, '(') {
        lemma_trim_len(t.take(k));
        reveal_strlit(")");
    }
}

pub proof fn lemma_args_of(args: Seq<char>)
    ensures
        args_of(args).len() >= 1,
        forall|i: int| 0 <= i < args_of(args).len() ==> (#[trigger] args_of(args)[i]).len() <= args.len(),
{
    lemma_split_on_len(args, ',');
    assert forall|i: int| 0 <= i < args_of(args).len() implies (#[trigger] args_of(args)[i]).len()
        <= args.len() by {
        lemma_trim_len(split_on(args, ',')[i]);
    }
}

/// The trimmed name and arguments of a call, as character vectors.
fn call_parts_exec(s: &[char]) -> (r: Option<(Vec<char>, Vec<Vec<char>>)>)
    ensures
        match r {
            Some((name, args)) => call_parts(s@) matches Some((n, a)) && name@ == n && args@.map_values(
                |x: Vec<char>| x@,
            ) == args_of(a),
            None => call_parts(s@) is None,
        },
{
    let t = trim_slice(s);
    let k = match slice_find(t, '(') {
        Some(k) => k,
        None => return None,
    };
    proof {
        lemma_index_from(t@, '(', 0);
    }
    assert(k < t@.len());
    assert(k < t.len());
    let after = slice_subrange(t, k + 1, t.len());
    let args = match slice_strip_suffix(after, ")") {
        Some(a) => a,
        None => return None,
    };
    let name = trim_slice(slice_subrange(t, 0, k));
    assert(t@.take(k as int) =~= t@.subrange(0, k as int));
    assert(t@.skip(k + 1) =~= after@);
    let pieces = split_char(args, ',');
    let ghost sp = split_on(args@, ',');
    let mut out: Vec<Vec<char>> = Vec::new();
    let mut i: usize = 0;
    while i < pieces.len()
        invariant
            i <= pieces@.len(),
            pieces@.map_values(|p: &[char]| p@) == sp,
            out@.len() == i,
            forall|j: int| 0 <= j < i ==> (#[trigger] out@[j])@ == trim(sp[j]),
        decreases pieces@.len() - i,
    {
        assert(pieces@[i as int]@ == sp[i as int]);
        out.push(vstd::slice::slice_to_vec(trim_slice(pieces[i])));
        i = i + 1;
    }
    assert(out@.map_values(|x: Vec<char>| x@) =~= args_of(args@));
    Some((vstd::slice::slice_to_vec(name), out))
}

// ---------------------------------------------------------------------------
// Transform
// ---------------------------------------------------------------------------

#[derive(Clone, Debug, PartialEq)]
pub enum TransformFunction {
    Translate(PxPct, PxPct),
    TranslateX(PxPct),
    TranslateY(PxPct),
    TranslateZ(PxPct),
    Scale(Number, Number),
    ScaleX(Number),
    ScaleY(Number),
    Rotate(Angle),
    RotateX(Angle),
    RotateY(Angle),
    RotateZ(Angle),
    SkewX(Angle),
    SkewY(Angle),
    Matrix(Number, Number, Number, Number, Number, Number),
    Perspective(Px),
}

pub enum TransformView {
    Translate(Len, Len),
    TranslateX(Len),
    TranslateY(Len),
    TranslateZ(Len),
    Scale(Seq<char>, Seq<char>),
    ScaleX(Seq<char>),
    ScaleY(Seq<char>),
    Rotate(AngleView),
    RotateX(AngleView),
    RotateY(AngleView),
    RotateZ(AngleView),
    SkewX(AngleView),
    SkewY(AngleView),
    Matrix(Seq<char>, Seq<char>, Seq<char>, Seq<char>, Seq<char>, Seq<char>),
    Perspective(Seq<char>),
}

impl View for TransformFunction {
    type V = TransformView;

    open spec fn view(&self) -> TransformView {
        match *self {
            TransformFunction::Translate(x, y) => TransformView::Translate(x@, y@),
            TransformFunction::TranslateX(x) => TransformView::TranslateX(x@),
            TransformFunction::TranslateY(x) => TransformView::TranslateY(x@),
            TransformFunction::TranslateZ(x) => TransformView::TranslateZ(x@),
            TransformFunction::Scale(x, y) => TransformView::Scale(x@, y@),
            TransformFunction::ScaleX(x) => TransformView::ScaleX(x@),
            TransformFunction::ScaleY(x) => TransformView::ScaleY(x@),
            TransformFunction::Rotate(a) => TransformView::Rotate(a@),
            TransformFunction::RotateX(a) => TransformView::RotateX(a@),
            TransformFunction::RotateY(a) => TransformView::RotateY(a@),
            TransformFunction::RotateZ(a) => TransformView::RotateZ(a@),
            TransformFunction::SkewX(a) => TransformView::SkewX(a@),
            TransformFunction::SkewY(a) => TransformView::SkewY(a@),
            TransformFunction::Matrix(a, b, c, d, e, f) => TransformView::Matrix(
                a@,
                b@,
                c@,
                d@,
                e@,
                f@,
            ),
            TransformFunction::Perspective(p) => TransformView::Perspective(p.0@),
        }
    }
}

#[derive(Clone, Debug, PartialEq, Default)]
pub struct Transform(pub Vec<TransformFunction>);

pub open spec fn num(s: Seq<char>) -> Option<Seq<char>> {
    if is_float_literal(s) {
        Some(s)
    } else {
        None
    }
}

/// The rotations and skews, by name.
pub open spec fn angle_fn(name: Seq<char>, a: AngleView) -> Option<TransformView> {
    if name == "rotate"@ {
        Some(TransformView::Rotate(a))
    } else if name == "rotateX"@ || name == "rotatex"@ {
        Some(TransformView::RotateX(a))
    } else if name == "rotateY"@ || name == "rotatey"@ {
        Some(TransformView::RotateY(a))
    } else if name == "rotateZ"@ || name == "rotatez"@ {
        Some(TransformView::RotateZ(a))
    } else if name == "skewX"@ || name == "skewx"@ {
        Some(TransformView::SkewX(a))
    } else if name == "skewY"@ || name == "skewy"@ {
        Some(TransformView::SkewY(a))
    } else {
        None
    }
}

pub open spec fn is_angle_fn(name: Seq<char>) -> bool {
    name == "rotate"@ || name == "rotateX"@ || name == "rotatex"@ || name == "rotateY"@ || name
        == "rotatey"@ || name == "rotateZ"@ || name == "rotatez"@ || name == "skewX"@ || name
        == "skewx"@ || name == "skewY"@ || name == "skewy"@
}

/// A single transform function like `translateX(10px)`.
pub open spec fn transform_fn_text(s: Seq<char>) -> Option<TransformView> {
    match call_parts(s) {
        None => None,
        Some((name, args)) => {
            let a = args_of(args);
            if name == "translate"@ {
                match len_text(a[0]) {
                    Some(x) => Some(
                        TransformView::Translate(
                            x,
                            if a.len() > 1 && len_text(a[1]) is Some {
                                len_text(a[1]).unwrap()
                            } else {
                                Len::Px(zero_text())
                            },
                        ),
                    ),
                    None => None,
                }
            } else if name == "translateX"@ || name == "translatex"@ {
                match len_text(a[0]) {
                    Some(x) => Some(TransformView::TranslateX(x)),
                    None => None,
                }
            } else if name == "translateY"@ || name == "translatey"@ {
                match len_text(a[0]) {
                    Some(x) => Some(TransformView::TranslateY(x)),
                    None => None,
                }
            } else if name == "translateZ"@ || name == "translatez"@ {
                match len_text(a[0]) {
                    Some(x) => Some(TransformView::TranslateZ(x)),
                    None => None,
                }
            } else if name == "scale"@ {
                match num(a[0]) {
                    Some(x) => Some(
                        TransformView::Scale(
                            x,
                            if a.len() > 1 && num(a[1]) is Some {
                                a[1]
                            } else {
                                x
                            },
                        ),
                    ),
                    None => None,
                }
            } else if name == "scaleX"@ || name == "scalex"@ {
                match num(a[0]) {
                    Some(x) => Some(TransformView::ScaleX(x)),
                    None => None,
                }
            } else if name == "scaleY"@ || name == "scaley"@ {
                match num(a[0]) {
                    Some(x) => Some(TransformView::ScaleY(x)),
                    None => None,
                }
            } else if is_angle_fn(name) {
                match angle_text(a[0]) {
                    Some(x) => angle_fn(name, x),
                    None => None,
                }
            } else if name == "perspective"@ {
                match crate::values::number_before(a[0], "px"@) {
                    Some(x) => Some(TransformView::Perspective(x)),
                    None => None,
                }
            } else if name == "matrix"@ && a.len() == 6 {
                if forall|i: int| 0 <= i < 6 ==> is_float_literal(#[trigger] a[i]) {
                    Some(TransformView::Matrix(a[0], a[1], a[2], a[3], a[4], a[5]))
                } else {
                    None
                }
            } else {
                None
            }
        },
    }
}

pub open spec fn opt_transform(r: Option<TransformFunction>) -> Option<TransformView> {
    match r {
        Some(t) => Some(t@),
        None => None,
    }
}

fn angle_fn_exec(name: &[char], a: Angle) -> (r: Option<TransformFunction>)
    ensures
        opt_transform(r) == angle_fn(name@, a@),
{
    if slice_is(name, "rotate") {
        Some(TransformFunction::Rotate(a))
    } else if slice_is(name, "rotateX") || slice_is(name, "rotatex") {
        Some(TransformFunction::RotateX(a))
    } else if slice_is(name, "rotateY") || slice_is(name, "rotatey") {
        Some(TransformFunction::RotateY(a))
    } else if slice_is(name, "rotateZ") || slice_is(name, "rotatez") {
        Some(TransformFunction::RotateZ(a))
    } else if slice_is(name, "skewX") || slice_is(name, "skewx") {
        Some(TransformFunction::SkewX(a))
    } else if slice_is(name, "skewY") || slice_is(name, "skewy") {
        Some(TransformFunction::SkewY(a))
    } else {
        None
    }
}

fn is_angle_fn_exec(name: &[char]) -> (r: bool)
    ensures
        r == is_angle_fn(name@),
{
    slice_is(name, "rotate") || slice_is(name, "rotateX") || slice_is(name, "rotatex") || slice_is(
        name,
        "rotateY",
    ) || slice_is(name, "rotatey") || slice_is(name, "rotateZ") || slice_is(name, "rotatez")
        || slice_is(name, "skewX") || slice_is(name, "skewx") || slice_is(name, "skewY")
        || slice_is(name, "skewy")
}

fn number_lit(text: &str) -> (r: Number)
    ensures
        r@ == text@,
{
    Number(text.to_string())
}

/// Parse a single CSS function call like `translateX(10px)`.
fn parse_transform_function(s: &[char]) -> (r: Option<TransformFunction>)
    requires
        fits_depth(s@),
    ensures
        opt_transform(r) == transform_fn_text(s@),
{
    proof {
        lemma_call_parts(s@);
    }
    let (name, a) = match call_parts_exec(s) {
        Some(p) => p,
        None => return None,
    };
    let ghost args = call_parts(s@).unwrap().1;
    proof {
        lemma_args_of(args);
        assert(a@.len() == args_of(args).len());
        assert forall|i: int| 0 <= i < a@.len() implies fits_depth(#[trigger] a@[i]@) by {
            assert(a@[i]@ == args_of(args)[i]);
        }
    }
    let ghost av = args_of(args);
    assert(a@[0]@ == av[0]);
    let n = name.as_slice();
    let first = a[0].as_slice();
    if slice_is(n, "translate") {
        let x = match px_pct_chars(first) {
            Some(x) => x,
            None => return None,
        };
        let y = if a.len() > 1 {
            assert(a@[1]@ == av[1]);
            match px_pct_chars(a[1].as_slice()) {
                Some(y) => y,
                None => PxPct::Px(crate::units::zero()),
            }
        } else {
            PxPct::Px(crate::units::zero())
        };
        return Some(TransformFunction::Translate(x, y));
    }
    if slice_is(n, "translateX") || slice_is(n, "translatex") {
        return match px_pct_chars(first) {
            Some(x) => Some(TransformFunction::TranslateX(x)),
            None => None,
        };
    }
    if slice_is(n, "translateY") || slice_is(n, "translatey") {
        return match px_pct_chars(first) {
            Some(x) => Some(TransformFunction::TranslateY(x)),
            None => None,
        };
    }
    if slice_is(n, "translateZ") || slice_is(n, "translatez") {
        return match px_pct_chars(first) {
            Some(x) => Some(TransformFunction::TranslateZ(x)),
            None => None,
        };
    }
    if slice_is(n, "scale") {
        let sx = match number_of(first) {
            Some(x) => x,
            None => return None,
        };
        let sy = if a.len() > 1 {
            assert(a@[1]@ == av[1]);
            match number_of(a[1].as_slice()) {
                Some(y) => y,
                None => crate::units::copy_number(&sx),
            }
        } else {
            crate::units::copy_number(&sx)
        };
        return Some(TransformFunction::Scale(sx, sy));
    }
    if slice_is(n, "scaleX") || slice_is(n, "scalex") {
        return match number_of(first) {
            Some(x) => Some(TransformFunction::ScaleX(x)),
            None => None,
        };
    }
    if slice_is(n, "scaleY") || slice_is(n, "scaley") {
        return match number_of(first) {
            Some(x) => Some(TransformFunction::ScaleY(x)),
            None => None,
        };
    }
    if is_angle_fn_exec(n) {
        return match angle_chars(first) {
            Some(x) => angle_fn_exec(n, x),
            None => None,
        };
    }
    if slice_is(n, "perspective") {
        let t = string_from_chars(first);
        return match crate::values::parse_px(t.as_str()) {
            Some(p) => Some(TransformFunction::Perspective(p)),
            None => None,
        };
    }
    if slice_is(n, "matrix") && a.len() == 6 {
        let mut vals: Vec<Number> = Vec::new();
        let mut i: usize = 0;
        assert(transform_fn_text(s@) == if forall|j: int| 0 <= j < 6 ==> is_float_literal(
            #[trigger] av[j],
        ) {
            Some(TransformView::Matrix(av[0], av[1], av[2], av[3], av[4], av[5]))
        } else {
            None
        });
        while i < 6
            invariant
                transform_fn_text(s@) == if forall|j: int| 0 <= j < 6 ==> is_float_literal(
                    #[trigger] av[j],
                ) {
                    Some(TransformView::Matrix(av[0], av[1], av[2], av[3], av[4], av[5]))
                } else {
                    None
                },
                i <= 6,
                a@.len() == 6,
                av == args_of(args),
                a@.map_values(|x: Vec<char>| x@) == av,
                vals@.len() == i,
                forall|j: int| 0 <= j < i ==> is_float_literal(#[trigger] av[j]) && vals@[j]@ == av[j],
            decreases 6 - i,
        {
            assert(a@[i as int]@ == av[i as int]);
            match number_of(a[i].as_slice()) {
                Some(v) => vals.push(v),
                None => {
                    assert(!is_float_literal(av[i as int]));
                    assert(!(forall|j: int| 0 <= j < 6 ==> is_float_literal(#[trigger] av[j])));
                    return None;
                },
            }
            i = i + 1;
        }
        let f = vals.pop().unwrap();
        let e = vals.pop().unwrap();
        let d = vals.pop().unwrap();
        let c = vals.pop().unwrap();
        let b = vals.pop().unwrap();
        let a0 = vals.pop().unwrap();
        return Some(TransformFunction::Matrix(a0, b, c, d, e, f));
    }
    None
}

/// The function calls of a transform or filter list from `rest`: each call
/// ends at the next `)`; a call that does not read is skipped; a list with a
/// call that has no `)` is rejected.
pub open spec fn calls_from<T>(rest: Seq<char>, read: spec_fn(Seq<char>) -> Option<T>) -> Option<
    Seq<T>,
>
    decreases rest.len(),
{
    if rest.len() == 0 {
        Some(seq![])
    } else {
        proof {
            lemma_index_from(rest, ')', 0);
            crate::text::lemma_trim_start_is_suffix(rest.skip(find(rest, ')').unwrap_or(0) + 1));
        }
        match find(rest, ')') {
            None => None,
            Some(k) => {
                let f = read(trim(rest.take(k + 1)));
                match calls_from(trim_start(rest.skip(k + 1)), read) {
                    None => None,
                    Some(tail) => Some(
                        match f {
                            Some(x) => seq![x] + tail,
                            None => tail,
                        },
                    ),
                }
            },
        }
    }
}

/// `transform`: `none`, or a list of function calls with at least one that
/// reads.
pub open spec fn transform_text(s: Seq<char>) -> Option<Seq<TransformView>> {
    if s == "none"@ {
        Some(seq![])
    } else {
        match calls_from(trim(s), |x: Seq<char>| transform_fn_text(x)) {
            Some(fs) => if fs.len() == 0 {
                None
            } else {
                Some(fs)
            },
            None => None,
        }
    }
}

/// One call read from the front of a list.
pub proof fn lemma_calls_step<T>(rest: Seq<char>, read: spec_fn(Seq<char>) -> Option<T>, k: int)
    requires
        rest.len() > 0,
        find(rest, ')') == Some(k),
    ensures
        calls_from(rest, read) == match calls_from(trim_start(rest.skip(k + 1)), read) {
            Some(tail) => Some(
                match read(trim(rest.take(k + 1))) {
                    Some(x) => seq![x] + tail,
                    None => tail,
                },
            ),
            None => None::<Seq<T>>,
        },
{
}

pub proof fn lemma_trim_start_len(x: Seq<char>)
    ensures
        trim_start(x).len() <= x.len(),
{
    lemma_trim_len(x);
}

pub fn parse_transform(s: &str) -> (r: Option<Transform>)
    requires
        fits_depth(s@),
    ensures
        match r {
            Some(t) => transform_text(s@) == Some(t.0@.map_values(|f: TransformFunction| f@)),
            None => transform_text(s@) is None,
        },
{
    let ghost read = |x: Seq<char>| transform_fn_text(x);
    if crate::lexer::str_is(s, "none") {
        let t = Transform(Vec::new());
        assert(t.0@.map_values(|f: TransformFunction| f@) =~= seq![]);
        return Some(t);
    }
    let cs = chars_of(s);
    let mut rest = trim_slice(cs.as_slice());
    proof {
        lemma_trim_len(s@);
    }
    let mut funcs: Vec<TransformFunction> = Vec::new();
    let ghost start = rest@;
    while rest.len() > 0
        invariant
            rest@.len() <= s@.len(),
            fits_depth(s@),
            s@ != "none"@,
            start == trim(s@),
            read == (|x: Seq<char>| transform_fn_text(x)),
            calls_from(start, read) == match calls_from(rest@, read) {
                Some(t) => Some(funcs@.map_values(|f: TransformFunction| f@) + t),
                None => None::<Seq<TransformView>>,
            },
        decreases rest@.len(),
    {
        proof {
            lemma_index_from(rest@, ')', 0);
        }
        let k = match slice_find(rest, ')') {
            Some(k) => k,
            None => {
                assert(calls_from(rest@, read) is None);
                return None;
            },
        };
        assert(k < rest.len());
        let piece = trim_slice(slice_subrange(rest, 0, k + 1));
        assert(rest@.take(k + 1) =~= rest@.subrange(0, k + 1));
        proof {
            lemma_trim_len(rest@.take(k + 1));
        }
        let next = trim_start_slice(slice_subrange(rest, k + 1, rest.len()));
        assert(rest@.skip(k + 1) =~= rest@.subrange(k + 1, rest@.len() as int));
        proof {
            lemma_trim_start_len(rest@.skip(k + 1));
            lemma_calls_step(rest@, read, k as int);
        }
        let ghost before = funcs@.map_values(|f: TransformFunction| f@);
        let parsed = parse_transform_function(piece);
        assert(read(piece@) == opt_transform(parsed));
        if let Some(f) = parsed {
            let ghost fv = f@;
            funcs.push(f);
            assert(funcs@.map_values(|f: TransformFunction| f@) =~= before.push(fv));
            proof {
                if let Some(t) = calls_from(next@, read) {
                    assert(before + (seq![fv] + t) =~= before.push(fv) + t);
                }
            }
        }
        rest = next;
    }
    assert(funcs@.map_values(|f: TransformFunction| f@) + seq![] =~= funcs@.map_values(
        |f: TransformFunction| f@,
    ));
    if funcs.len() == 0 {
        None
    } else {
        Some(Transform(funcs))
    }
}

// ---------------------------------------------------------------------------
// Filter
// ---------------------------------------------------------------------------

/// An amount as written: a percentage (`50%` is a half) or a plain number.
#[derive(Clone, Debug, PartialEq)]
pub enum FilterAmount {
    Percent(Number),
    Plain(Number),
}

pub enum AmountView {
    Percent(Seq<char>),
    Plain(Seq<char>),
}

impl View for FilterAmount {
    type V = AmountView;

    open spec fn view(&self) -> AmountView {
        match *self {
            FilterAmount::Percent(n) => AmountView::Percent(n@),
            FilterAmount::Plain(n) => AmountView::Plain(n@),
        }
    }
}

#[derive(Clone, Debug, PartialEq)]
pub enum FilterFunction {
    Blur(Px),
    Brightness(FilterAmount),
    Contrast(FilterAmount),
    Grayscale(FilterAmount),
    HueRotate(Angle),
    Invert(FilterAmount),
    Opacity(FilterAmount),
    Saturate(FilterAmount),
    Sepia(FilterAmount),
    DropShadow(BoxShadow),
}

pub enum FilterView {
    Blur(Seq<char>),
    Brightness(AmountView),
    Contrast(AmountView),
    Grayscale(AmountView),
    HueRotate(AngleView),
    Invert(AmountView),
    Opacity(AmountView),
    Saturate(AmountView),
    Sepia(AmountView),
    DropShadow(crate::units::BoxShadowView),
}

impl View for FilterFunction {
    type V = FilterView;

    open spec fn view(&self) -> FilterView {
        match *self {
            FilterFunction::Blur(p) => FilterView::Blur(p.0@),
            FilterFunction::Brightness(a) => FilterView::Brightness(a@),
            FilterFunction::Contrast(a) => FilterView::Contrast(a@),
            FilterFunction::Grayscale(a) => FilterView::Grayscale(a@),
            FilterFunction::HueRotate(a) => FilterView::HueRotate(a@),
            FilterFunction::Invert(a) => FilterView::Invert(a@),
            FilterFunction::Opacity(a) => FilterView::Opacity(a@),
            FilterFunction::Saturate(a) => FilterView::Saturate(a@),
            FilterFunction::Sepia(a) => FilterView::Sepia(a@),
            FilterFunction::DropShadow(b) => FilterView::DropShadow(b@),
        }
    }
}

#[derive(Clone, Debug, PartialEq, Default)]
pub struct Filter(pub Vec<FilterFunction>);

/// A filter amount: a number with `%`, or a plain number (not trimmed).
pub open spec fn amount_text(s: Seq<char>) -> Option<AmountView> {
    match strip_suffix(s, "%"@) {
        Some(v) => if is_float_literal(v) {
            Some(AmountView::Percent(v))
        } else {
            None
        },
        None => if is_float_literal(s) {
            Some(AmountView::Plain(s))
        } else {
            None
        },
    }
}

/// The filters that take an amount, by name.
pub open spec fn amount_fn(name: Seq<char>, a: AmountView) -> Option<FilterView> {
    if name == "brightness"@ {
        Some(FilterView::Brightness(a))
    } else if name == "contrast"@ {
        Some(FilterView::Contrast(a))
    } else if name == "grayscale"@ {
        Some(FilterView::Grayscale(a))
    } else if name == "invert"@ {
        Some(FilterView::Invert(a))
    } else if name == "opacity"@ {
        Some(FilterView::Opacity(a))
    } else if name == "saturate"@ {
        Some(FilterView::Saturate(a))
    } else if name == "sepia"@ {
        Some(FilterView::Sepia(a))
    } else {
        None
    }
}

pub open spec fn is_amount_fn(name: Seq<char>) -> bool {
    name == "brightness"@ || name == "contrast"@ || name == "grayscale"@ || name == "invert"@
        || name == "opacity"@ || name == "saturate"@ || name == "sepia"@
}

/// A single filter function like `blur(4px)`; its argument is trimmed.
pub open spec fn filter_fn_text(s: Seq<char>) -> Option<FilterView> {
    match call_parts(s) {
        None => None,
        Some((name, args)) => {
            let arg = trim(args);
            if name == "blur"@ {
                match crate::values::number_before(arg, "px"@) {
                    Some(x) => Some(FilterView::Blur(x)),
                    None => None,
                }
            } else if name == "hue-rotate"@ {
                match angle_text(arg) {
                    Some(x) => Some(FilterView::HueRotate(x)),
                    None => None,
                }
            } else if is_amount_fn(name) {
                match amount_text(arg) {
                    Some(x) => amount_fn(name, x),
                    None => None,
                }
            } else {
                None
            }
        },
    }
}

pub open spec fn opt_filter(r: Option<FilterFunction>) -> Option<FilterView> {
    match r {
        Some(t) => Some(t@),
        None => None,
    }
}

fn amount_chars(s: &[char]) -> (r: Option<FilterAmount>)
    ensures
        match r {
            Some(a) => amount_text(s@) == Some(a@),
            None => amount_text(s@) is None,
        },
{
    match slice_strip_suffix(s, "%") {
        Some(v) => match number_of(v) {
            Some(n) => Some(FilterAmount::Percent(n)),
            None => None,
        },
        None => match number_of(s) {
            Some(n) => Some(FilterAmount::Plain(n)),
            None => None,
        },
    }
}

fn amount_fn_exec(name: &[char], a: FilterAmount) -> (r: Option<FilterFunction>)
    ensures
        opt_filter(r) == amount_fn(name@, a@),
{
    if slice_is(name, "brightness") {
        Some(FilterFunction::Brightness(a))
    } else if slice_is(name, "contrast") {
        Some(FilterFunction::Contrast(a))
    } else if slice_is(name, "grayscale") {
        Some(FilterFunction::Grayscale(a))
    } else if slice_is(name, "invert") {
        Some(FilterFunction::Invert(a))
    } else if slice_is(name, "opacity") {
        Some(FilterFunction::Opacity(a))
    } else if slice_is(name, "saturate") {
        Some(FilterFunction::Saturate(a))
    } else if slice_is(name, "sepia") {
        Some(FilterFunction::Sepia(a))
    } else {
        None
    }
}

/// The trimmed name and the trimmed text between the parentheses of a call.
fn call_name_arg(s: &[char]) -> (r: Option<(&[char], &[char])>)
    ensures
        match r {
            Some((name, arg)) => call_parts(s@) matches Some((n, a)) && name@ == n && arg@ == trim(a),
            None => call_parts(s@) is None,
        },
{
    let t = trim_slice(s);
    let k = match slice_find(t, '(') {
        Some(k) => k,
        None => return None,
    };
    proof {
        lemma_index_from(t@, '(', 0);
    }
    assert(k < t.len());
    let after = slice_subrange(t, k + 1, t.len());
    let args = match slice_strip_suffix(after, ")") {
        Some(a) => a,
        None => return None,
    };
    assert(t@.take(k as int) =~= t@.subrange(0, k as int));
    assert(t@.skip(k + 1) =~= after@);
    Some((trim_slice(slice_subrange(t, 0, k)), trim_slice(args)))
}

/// Parse a single filter function like `blur(4px)`.
fn parse_filter_function(s: &[char]) -> (r: Option<FilterFunction>)
    ensures
        opt_filter(r) == filter_fn_text(s@),
{
    let (name, arg) = match call_name_arg(s) {
        Some(p) => p,
        None => return None,
    };
    if slice_is(name, "blur") {
        let t = string_from_chars(arg);
        return match crate::values::parse_px(t.as_str()) {
            Some(p) => Some(FilterFunction::Blur(p)),
            None => None,
        };
    }
    if slice_is(name, "hue-rotate") {
        return match angle_chars(arg) {
            Some(a) => Some(FilterFunction::HueRotate(a)),
            None => None,
        };
    }
    if slice_is(name, "brightness") || slice_is(name, "contrast") || slice_is(name, "grayscale")
        || slice_is(name, "invert") || slice_is(name, "opacity") || slice_is(name, "saturate")
        || slice_is(name, "sepia") {
        return match amount_chars(arg) {
            Some(a) => amount_fn_exec(name, a),
            None => None,
        };
    }
    None
}

/// `filter`: `none`, or a list of function calls with at least one that reads.
pub open spec fn filter_text(s: Seq<char>) -> Option<Seq<FilterView>> {
    if s == "none"@ {
        Some(seq![])
    } else {
        match calls_from(trim(s), |x: Seq<char>| filter_fn_text(x)) {
            Some(fs) => if fs.len() == 0 {
                None
            } else {
                Some(fs)
            },
            None => None,
        }
    }
}

pub fn parse_filter(s: &str) -> (r: Option<Filter>)
    ensures
        match r {
            Some(t) => filter_text(s@) == Some(t.0@.map_values(|f: FilterFunction| f@)),
            None => filter_text(s@) is None,
        },
{
    let ghost read = |x: Seq<char>| filter_fn_text(x);
    if crate::lexer::str_is(s, "none") {
        let t = Filter(Vec::new());
        assert(t.0@.map_values(|f: FilterFunction| f@) =~= seq![]);
        return Some(t);
    }
    let cs = chars_of(s);
    let mut rest = trim_slice(cs.as_slice());
    let mut funcs: Vec<FilterFunction> = Vec::new();
    let ghost start = rest@;
    while rest.len() > 0
        invariant
            s@ != "none"@,
            start == trim(s@),
            read == (|x: Seq<char>| filter_fn_text(x)),
            calls_from(start, read) == match calls_from(rest@, read) {
                Some(t) => Some(funcs@.map_values(|f: FilterFunction| f@) + t),
                None => None::<Seq<FilterView>>,
            },
        decreases rest@.len(),
    {
        proof {
            lemma_index_from(rest@, ')', 0);
        }
        let k = match slice_find(rest, ')') {
            Some(k) => k,
            None => {
                assert(calls_from(rest@, read) is None);
                return None;
            },
        };
        assert(k < rest.len());
        let piece = trim_slice(slice_subrange(rest, 0, k + 1));
        assert(rest@.take(k + 1) =~= rest@.subrange(0, k + 1));
        let next = trim_start_slice(slice_subrange(rest, k + 1, rest.len()));
        assert(rest@.skip(k + 1) =~= rest@.subrange(k + 1, rest@.len() as int));
        proof {
            lemma_trim_start_len(rest@.skip(k + 1));
            lemma_calls_step(rest@, read, k as int);
        }
        let ghost before = funcs@.map_values(|f: FilterFunction| f@);
        let parsed = parse_filter_function(piece);
        assert(read(piece@) == opt_filter(parsed));
        if let Some(f) = parsed {
            let ghost fv = f@;
            funcs.push(f);
            assert(funcs@.map_values(|f: FilterFunction| f@) =~= before.push(fv));
            proof {
                if let Some(t) = calls_from(next@, read) {
                    assert(before + (seq![fv] + t) =~= before.push(fv) + t);
                }
            }
        }
        rest = next;
    }
    assert(funcs@.map_values(|f: FilterFunction| f@) + seq![] =~= funcs@.map_values(
        |f: FilterFunction| f@,
    ));
    if funcs.len() == 0 {
        None
    } else {
        Some(Filter(funcs))
    }
}

// ---------------------------------------------------------------------------
// Background images
// ---------------------------------------------------------------------------

#[derive(Debug, PartialEq)]
pub struct LinearGradient {
    pub angle: Angle,
    pub stops: Vec<(Color, Option<PxPct>)>,
}

pub struct GradientView {
    pub angle: AngleView,
    pub stops: Seq<(Color, Option<Len>)>,
}

impl View for LinearGradient {
    type V = GradientView;

    open spec fn view(&self) -> GradientView {
        GradientView {
            angle: self.angle@,
            stops: self.stops@.map_values(|s: (Color, Option<PxPct>)| (s.0, opt_len(s.1))),
        }
    }
}

impl Clone for LinearGradient {
    fn clone(&self) -> (r: Self) {
        let mut stops: Vec<(Color, Option<PxPct>)> = Vec::new();
        for i in 0..self.stops.len() {
            let c = self.stops[i].0;
            let p = match &self.stops[i].1 {
                Some(x) => Some(copy_px_pct(x)),
                None => None,
            };
            stops.push((c, p));
        }
        LinearGradient { angle: self.angle.clone(), stops }
    }
}

#[derive(Clone, Debug, PartialEq, Default)]
pub enum BackgroundImage {
    #[default]
    NoneValue,
    Url(String),
    LinearGradient(LinearGradient),
}

pub enum ImageView {
    NoneValue,
    Url(Seq<char>),
    LinearGradient(GradientView),
}

impl View for BackgroundImage {
    type V = ImageView;

    open spec fn view(&self) -> ImageView {
        match *self {
            BackgroundImage::NoneValue => ImageView::NoneValue,
            BackgroundImage::Url(u) => ImageView::Url(u@),
            BackgroundImage::LinearGradient(g) => ImageView::LinearGradient(g@),
        }
    }
}

pub open spec fn deg(text: Seq<char>) -> AngleView {
    AngleView::Deg(text)
}

/// The direction of a gradient from its first part: an angle (180 degrees
/// where it does not read), a `to <side>` keyword, or else 180 degrees.
pub open spec fn gradient_angle(first: Seq<char>) -> AngleView {
    if crate::text::ends_with(first, "deg"@) || crate::text::ends_with(first, "turn"@)
        || crate::text::ends_with(first, "rad"@) {
        match angle_text(first) {
            Some(a) => a,
            None => deg("180"@),
        }
    } else if starts_with(first, "to "@) {
        if first == "to bottom"@ {
            deg("180"@)
        } else if first == "to top"@ {
            deg("0"@)
        } else if first == "to right"@ {
            deg("90"@)
        } else if first == "to left"@ {
            deg("270"@)
        } else {
            deg("180"@)
        }
    } else {
        deg("180"@)
    }
}

/// A color stop: a color, then after the first space an optional position.
pub open spec fn stop_text(stop: Seq<char>) -> Option<(Color, Option<Len>)> {
    let st = trim(stop);
    let (c, pos) = match find(st, ' ') {
        Some(k) => (st.take(k), match len_text(st.skip(k + 1)) {
            Some(l) => Some(l),
            None => None,
        }),
        None => (st, None),
    };
    match css_color(c) {
        Some(color) => Some((color, pos)),
        None => None,
    }
}

/// `linear-gradient(first, stops...)`: the first part gives the direction
/// (and is no stop), the comma-separated rest the color stops, all of which
/// must read.
pub open spec fn gradient_text(s: Seq<char>) -> Option<GradientView> {
    match strip_prefix(s, "linear-gradient("@) {
        None => None,
        Some(a) => match strip_suffix(a, ")"@) {
            None => None,
            Some(inner) => {
                let (first, rest) = match find(inner, ',') {
                    Some(k) => (trim(inner.take(k)), trim(inner.skip(k + 1))),
                    None => (trim(inner), Seq::<char>::empty()),
                };
                gradient_parts(first, rest)
            },
        },
    }
}

/// The color stops of a gradient, where all of them read.
pub open spec fn stops_text(parts: Seq<Seq<char>>) -> Option<Seq<(Color, Option<Len>)>> {
    if forall|i: int| 0 <= i < parts.len() ==> (#[trigger] stop_text(parts[i])) is Some {
        Some(Seq::new(parts.len(), |i: int| stop_text(parts[i]).unwrap()))
    } else {
        None
    }
}

/// A gradient from its first part and the text of its stops.
pub open spec fn gradient_parts(first: Seq<char>, rest: Seq<char>) -> Option<GradientView> {
    match stops_text(split_on(rest, ',')) {
        Some(st) => Some(GradientView { angle: gradient_angle(first), stops: st }),
        None => None,
    }
}

/// `background-image`, trimmed: `none`, `url(...)` (quotes and whitespace
/// removed) or a linear gradient.
pub open spec fn background_image_text(s0: Seq<char>) -> Option<ImageView> {
    let s = trim(s0);
    if s == "none"@ {
        Some(ImageView::NoneValue)
    } else if strip_prefix(s, "url("@) is Some && strip_suffix(strip_prefix(s, "url("@).unwrap(), ")"@) is Some {
        Some(ImageView::Url(crate::at_rules::unquote(strip_suffix(strip_prefix(s, "url("@).unwrap(), ")"@).unwrap())))
    } else if starts_with(s, "linear-gradient("@) {
        match gradient_text(s) {
            Some(g) => Some(ImageView::LinearGradient(g)),
            None => None,
        }
    } else {
        None
    }
}

fn deg_lit(text: &str) -> (r: Angle)
    ensures
        r@ == deg(text@),
{
    Angle::Deg(number_lit(text))
}

fn gradient_angle_exec(first: &[char]) -> (r: Angle)
    ensures
        r@ == gradient_angle(first@),
{
    if crate::text::slice_ends_with(first, "deg") || crate::text::slice_ends_with(first, "turn")
        || crate::text::slice_ends_with(first, "rad") {
        match angle_chars(first) {
            Some(a) => a,
            None => deg_lit("180"),
        }
    } else if slice_starts_with(first, "to ") {
        if slice_is(first, "to bottom") {
            deg_lit("180")
        } else if slice_is(first, "to top") {
            deg_lit("0")
        } else if slice_is(first, "to right") {
            deg_lit("90")
        } else if slice_is(first, "to left") {
            deg_lit("270")
        } else {
            deg_lit("180")
        }
    } else {
        deg_lit("180")
    }
}

fn stop_exec(stop: &[char]) -> (r: Option<(Color, Option<PxPct>)>)
    requires
        fits_depth(stop@),
    ensures
        match r {
            Some(x) => stop_text(stop@) == Some((x.0, opt_len(x.1))),
            None => stop_text(stop@) is None,
        },
{
    let st = trim_slice(stop);
    proof {
        lemma_trim_len(stop@);
        lemma_index_from(st@, ' ', 0);
    }
    let (c, pos) = match slice_find(st, ' ') {
        Some(k) => {
            assert(k < st.len());
            assert(st@.take(k as int) =~= st@.subrange(0, k as int));
            assert(st@.skip(k + 1) =~= st@.subrange(k + 1, st@.len() as int));
            (slice_subrange(st, 0, k), px_pct_chars(slice_subrange(st, k + 1, st.len())))
        },
        None => (st, None),
    };
    let t = string_from_chars(c);
    match crate::values::parse_color(t.as_str()) {
        Some(color) => Some((color, pos)),
        None => None,
    }
}

fn parse_linear_gradient(s: &[char]) -> (r: Option<LinearGradient>)
    requires
        fits_depth(s@),
    ensures
        match r {
            Some(g) => gradient_text(s@) == Some(g@),
            None => gradient_text(s@) is None,
        },
{
    let a = match slice_strip_prefix(s, "linear-gradient(") {
        Some(a) => a,
        None => return None,
    };
    let inner = match slice_strip_suffix(a, ")") {
        Some(i) => i,
        None => return None,
    };
    proof {
        lemma_index_from(inner@, ',', 0);
    }
    let (first, rest) = match slice_find(inner, ',') {
        Some(k) => {
            assert(k < inner.len());
            assert(inner@.take(k as int) =~= inner@.subrange(0, k as int));
            assert(inner@.skip(k + 1) =~= inner@.subrange(k + 1, inner@.len() as int));
            (
                trim_slice(slice_subrange(inner, 0, k)),
                trim_slice(slice_subrange(inner, k + 1, inner.len())),
            )
        },
        None => (trim_slice(inner), slice_subrange(inner, 0, 0)),
    };
    proof {
        lemma_trim_len(inner@.skip(find(inner@, ',').unwrap_or(0) + 1));
        lemma_trim_len(inner@);
        assert(rest@.len() <= s@.len());
        match find(inner@, ',') {
            Some(k) => {
                assert(first@ == trim(inner@.take(k)));
                assert(rest@ == trim(inner@.skip(k + 1)));
            },
            None => {
                assert(first@ == trim(inner@));
                assert(rest@ =~= Seq::<char>::empty());
            },
        }
    }
    let parts = split_char(rest, ',');
    let ghost ps = split_on(rest@, ',');
    proof {
        lemma_split_on_len(rest@, ',');
        assert(parts@.len() == ps.len());
    }
    let mut stops: Vec<(Color, Option<PxPct>)> = Vec::new();
    let mut i: usize = 0;
    assert(gradient_text(s@) == gradient_parts(first@, rest@));
    while i < parts.len()
        invariant
            gradient_text(s@) == gradient_parts(first@, rest@),
            ps == split_on(rest@, ','),
            i <= parts@.len(),
            parts@.map_values(|p: &[char]| p@) == ps,
            forall|j: int| 0 <= j < ps.len() ==> (#[trigger] ps[j]).len() <= rest@.len(),
            rest@.len() <= s@.len(),
            fits_depth(s@),
            stops@.len() == i,
            forall|j: int| 0 <= j < i ==> (#[trigger] stop_text(ps[j])) == Some(
                (stops@[j].0, opt_len(stops@[j].1)),
            ),
        decreases parts@.len() - i,
    {
        assert(parts@[i as int]@ == ps[i as int]);
        match stop_exec(parts[i]) {
            Some(x) => stops.push(x),
            None => {
                assert(stop_text(ps[i as int]) is None);
                return None;
            },
        }
        i = i + 1;
    }
    let angle = gradient_angle_exec(first);
    let g = LinearGradient { angle, stops };
    assert(g@.stops =~= stops_text(ps).unwrap());
    Some(g)
}

pub fn parse_background_image(s: &str) -> (r: Option<BackgroundImage>)
    requires
        fits_depth(s@),
    ensures
        match r {
            Some(b) => background_image_text(s@) == Some(b@),
            None => background_image_text(s@) is None,
        },
{
    let cs = chars_of(s);
    let t = trim_slice(cs.as_slice());
    proof {
        lemma_trim_len(s@);
    }
    if slice_is(t, "none") {
        return Some(BackgroundImage::NoneValue);
    }
    if let Some(a) = slice_strip_prefix(t, "url(") {
        if let Some(u) = slice_strip_suffix(a, ")") {
            let url = trim_matches_slice(trim_matches_slice(trim_slice(u), '"'), '\'');
            return Some(BackgroundImage::Url(string_from_chars(url)));
        }
    }
    if slice_starts_with(t, "linear-gradient(") {
        return match parse_linear_gradient(t) {
            Some(g) => Some(BackgroundImage::LinearGradient(g)),
            None => None,
        };
    }
    None
}

// ---------------------------------------------------------------------------
// Laws: units and function names
// ---------------------------------------------------------------------------

/// An angle keeps the unit it was written with: degrees are read from a
/// `deg` suffix or a plain number, turns from `turn`, radians from `rad`, and
/// the number is the text in front of the unit, trimmed.
pub proof fn law_angle_unit(s: Seq<char>)
    ensures
        angle_text(s) matches Some(AngleView::Deg(n)) ==> (strip_suffix(s, "deg"@) matches Some(p)
            && trim(p) == n) || (strip_suffix(s, "deg"@) is None && s == n),
        angle_text(s) matches Some(AngleView::Turn(n)) ==> strip_suffix(s, "turn"@) matches Some(p)
            && trim(p) == n,
        angle_text(s) matches Some(AngleView::Rad(n)) ==> strip_suffix(s, "rad"@) matches Some(p)
            && trim(p) == n,
{
}

/// The names that each transform function is written with.
pub open spec fn transform_named(t: TransformView, name: Seq<char>) -> bool {
    match t {
        TransformView::Translate(..) => name == "translate"@,
        TransformView::TranslateX(..) => name == "translateX"@ || name == "translatex"@,
        TransformView::TranslateY(..) => name == "translateY"@ || name == "translatey"@,
        TransformView::TranslateZ(..) => name == "translateZ"@ || name == "translatez"@,
        TransformView::Scale(..) => name == "scale"@,
        TransformView::ScaleX(..) => name == "scaleX"@ || name == "scalex"@,
        TransformView::ScaleY(..) => name == "scaleY"@ || name == "scaley"@,
        TransformView::Rotate(..) => name == "rotate"@,
        TransformView::RotateX(..) => name == "rotateX"@ || name == "rotatex"@,
        TransformView::RotateY(..) => name == "rotateY"@ || name == "rotatey"@,
        TransformView::RotateZ(..) => name == "rotateZ"@ || name == "rotatez"@,
        TransformView::SkewX(..) => name == "skewX"@ || name == "skewx"@,
        TransformView::SkewY(..) => name == "skewY"@ || name == "skewy"@,
        TransformView::Matrix(..) => name == "matrix"@,
        TransformView::Perspective(..) => name == "perspective"@,
    }
}

/// A transform function is the one that its name says, and a rotation or
/// skew holds the angle that its first argument reads as.
pub proof fn law_transform_function_name(s: Seq<char>)
    ensures
        transform_fn_text(s) matches Some(t) ==> (call_parts(s) matches Some(p) && transform_named(
            t,
            p.0,
        )),
        transform_fn_text(s) matches Some(t) ==> match t {
            TransformView::Rotate(a) | TransformView::RotateX(a) | TransformView::RotateY(a)
            | TransformView::RotateZ(a) | TransformView::SkewX(a) | TransformView::SkewY(a) => (
            call_parts(s) matches Some(p) && angle_text(args_of(p.1)[0]) == Some(a)),
            TransformView::TranslateX(x) | TransformView::TranslateY(x)
            | TransformView::TranslateZ(x) => (call_parts(s) matches Some(p) && len_text(
                args_of(p.1)[0],
            ) == Some(x)),
            _ => true,
        },
{
}

/// The name that each filter function is written with.
pub open spec fn filter_named(f: FilterView, name: Seq<char>) -> bool {
    match f {
        FilterView::Blur(..) => name == "blur"@,
        FilterView::Brightness(..) => name == "brightness"@,
        FilterView::Contrast(..) => name == "contrast"@,
        FilterView::Grayscale(..) => name == "grayscale"@,
        FilterView::HueRotate(..) => name == "hue-rotate"@,
        FilterView::Invert(..) => name == "invert"@,
        FilterView::Opacity(..) => name == "opacity"@,
        FilterView::Saturate(..) => name == "saturate"@,
        FilterView::Sepia(..) => name == "sepia"@,
        FilterView::DropShadow(..) => name == "drop-shadow"@,
    }
}

/// A filter function is the one that its name says, and a filter that takes
/// an amount holds the amount that its argument reads as.
pub proof fn law_filter_function_name(s: Seq<char>)
    ensures
        filter_fn_text(s) matches Some(f) ==> (call_parts(s) matches Some(p) && filter_named(
            f,
            p.0,
        )),
        filter_fn_text(s) matches Some(f) ==> match f {
            FilterView::Brightness(a) | FilterView::Contrast(a) | FilterView::Grayscale(a)
            | FilterView::Invert(a) | FilterView::Opacity(a) | FilterView::Saturate(a)
            | FilterView::Sepia(a) => (call_parts(s) matches Some(p) && amount_text(trim(p.1))
                == Some(a)),
            FilterView::HueRotate(a) => (call_parts(s) matches Some(p) && angle_text(trim(p.1))
                == Some(a)),
            _ => true,
        },
{
}

/// A filter amount keeps its form: a percentage is read from a `%` suffix,
/// a plain amount from a text without one.
pub proof fn law_amount_form(s: Seq<char>)
    ensures
        amount_text(s) matches Some(AmountView::Percent(n)) ==> strip_suffix(s, "%"@) == Some(n),
        amount_text(s) matches Some(AmountView::Plain(n)) ==> strip_suffix(s, "%"@) is None && n
            == s,
{
}

} // verus!
