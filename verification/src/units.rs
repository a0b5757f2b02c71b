//! The value types of CSS declarations.
//!
//! Numbers are kept as the text that was written (`Number`), which the float
//! parser of the standard library accepts; turning them into `f32` values is
//! left to the caller.
use vstd::prelude::*;

use csscolorparser::Color;

verus! {

broadcast use vstd::seq_lib::group_seq_properties;

/// A number as written in CSS text, in a form that `str::parse::<f32>` accepts.
#[derive(Clone, Debug, PartialEq)]
pub struct Number(pub String);

impl View for Number {
    type V = Seq<char>;

    open spec fn view(&self) -> Seq<char> {
        self.0@
    }
}

impl Number {
    /// The text of the number.
    pub fn as_str(&self) -> (r: &str)
        ensures
            r@ == self@,
    {
        self.0.as_str()
    }
}

/// Used for automatically computed values
#[derive(Debug, Clone, Copy, PartialEq, Eq, Structural)]
pub struct Auto;

/// A pixel value
#[derive(Debug, Clone, PartialEq)]
pub struct Px(pub Number);

/// A percent value
#[derive(Debug, Clone, PartialEq)]
pub struct Pct(pub Number);

/// CSS length value supporting all modern units.
///
/// Relative units (`Em`, `Rem`, `Vw`, `Vh`, etc.) cannot be resolved to pixels
/// at parse time — the consumer must resolve them with knowledge of the current
/// font-size and viewport dimensions.
#[derive(Debug, PartialEq)]
pub enum PxPct {
    // Absolute
    Px(Number),
    // Relative to parent
    Pct(Number),
    // Font-relative
    Em(Number),
    Rem(Number),
    Ch(Number),
    Ex(Number),
    // Viewport-relative
    Vw(Number),
    Vh(Number),
    Vmin(Number),
    Vmax(Number),
    Svh(Number),
    Dvh(Number),
    // CSS functions
    Calc(Box<CalcExpr>),
    Min(Vec<PxPct>),
    Max(Vec<PxPct>),
    Clamp(Box<PxPct>, Box<PxPct>, Box<PxPct>),
    /// Explicit zero — always 0px regardless of unit
    Zero,
}

/// Simple expression tree for `calc()`.
#[derive(Debug, PartialEq)]
pub enum CalcExpr {
    Value(Box<PxPct>),
    Add(Box<CalcExpr>, Box<CalcExpr>),
    Sub(Box<CalcExpr>, Box<CalcExpr>),
    Mul(Box<CalcExpr>, Number),
    Div(Box<CalcExpr>, Number),
}

#[derive(Debug, PartialEq)]
pub enum PxPctAuto {
    Px(Number),
    Pct(Number),
    // Font-relative
    Em(Number),
    Rem(Number),
    // Viewport-relative
    Vw(Number),
    Vh(Number),
    Vmin(Number),
    Vmax(Number),
    // CSS functions
    Calc(Box<CalcExpr>),
    Min(Vec<PxPct>),
    Max(Vec<PxPct>),
    Auto,
    Zero,
}

/// The content of a length: numbers as their texts.
pub enum Len {
    Px(Seq<char>),
    Pct(Seq<char>),
    Em(Seq<char>),
    Rem(Seq<char>),
    Ch(Seq<char>),
    Ex(Seq<char>),
    Vw(Seq<char>),
    Vh(Seq<char>),
    Vmin(Seq<char>),
    Vmax(Seq<char>),
    Svh(Seq<char>),
    Dvh(Seq<char>),
    Calc(Box<Calc>),
    Min(Seq<Len>),
    Max(Seq<Len>),
    Clamp(Box<Len>, Box<Len>, Box<Len>),
    Zero,
}

/// The content of a `calc()` expression.
pub enum Calc {
    Value(Box<Len>),
    Add(Box<Calc>, Box<Calc>),
    Sub(Box<Calc>, Box<Calc>),
    Mul(Box<Calc>, Seq<char>),
    Div(Box<Calc>, Seq<char>),
}

/// The content of a length that may be `auto`.
pub enum LenAuto {
    Px(Seq<char>),
    Pct(Seq<char>),
    Em(Seq<char>),
    Rem(Seq<char>),
    Vw(Seq<char>),
    Vh(Seq<char>),
    Vmin(Seq<char>),
    Vmax(Seq<char>),
    Calc(Box<Calc>),
    Min(Seq<Len>),
    Max(Seq<Len>),
    Auto,
    Zero,
}

pub open spec fn len_of(p: PxPct) -> Len
    decreases p,
{
    match p {
        PxPct::Px(n) => Len::Px(n@),
        PxPct::Pct(n) => Len::Pct(n@),
        PxPct::Em(n) => Len::Em(n@),
        PxPct::Rem(n) => Len::Rem(n@),
        PxPct::Ch(n) => Len::Ch(n@),
        PxPct::Ex(n) => Len::Ex(n@),
        PxPct::Vw(n) => Len::Vw(n@),
        PxPct::Vh(n) => Len::Vh(n@),
        PxPct::Vmin(n) => Len::Vmin(n@),
        PxPct::Vmax(n) => Len::Vmax(n@),
        PxPct::Svh(n) => Len::Svh(n@),
        PxPct::Dvh(n) => Len::Dvh(n@),
        PxPct::Calc(c) => Len::Calc(Box::new(calc_of(*c))),
        PxPct::Min(v) => Len::Min(lens_of(v@)),
        PxPct::Max(v) => Len::Max(lens_of(v@)),
        PxPct::Clamp(a, b, c) => Len::Clamp(
            Box::new(len_of(*a)),
            Box::new(len_of(*b)),
            Box::new(len_of(*c)),
        ),
        PxPct::Zero => Len::Zero,
    }
}

pub open spec fn lens_of(s: Seq<PxPct>) -> Seq<Len>
    decreases s,
{
    if s.len() == 0 {
        seq![]
    } else {
        lens_of(s.drop_last()).push(len_of(s.last()))
    }
}

pub open spec fn calc_of(c: CalcExpr) -> Calc
    decreases c,
{
    match c {
        CalcExpr::Value(p) => Calc::Value(Box::new(len_of(*p))),
        CalcExpr::Add(a, b) => Calc::Add(Box::new(calc_of(*a)), Box::new(calc_of(*b))),
        CalcExpr::Sub(a, b) => Calc::Sub(Box::new(calc_of(*a)), Box::new(calc_of(*b))),
        CalcExpr::Mul(a, n) => Calc::Mul(Box::new(calc_of(*a)), n@),
        CalcExpr::Div(a, n) => Calc::Div(Box::new(calc_of(*a)), n@),
    }
}

impl View for PxPct {
    type V = Len;

    open spec fn view(&self) -> Len {
        len_of(*self)
    }
}

impl View for CalcExpr {
    type V = Calc;

    open spec fn view(&self) -> Calc {
        calc_of(*self)
    }
}

impl View for PxPctAuto {
    type V = LenAuto;

    open spec fn view(&self) -> LenAuto {
        match *self {
            PxPctAuto::Px(n) => LenAuto::Px(n@),
            PxPctAuto::Pct(n) => LenAuto::Pct(n@),
            PxPctAuto::Em(n) => LenAuto::Em(n@),
            PxPctAuto::Rem(n) => LenAuto::Rem(n@),
            PxPctAuto::Vw(n) => LenAuto::Vw(n@),
            PxPctAuto::Vh(n) => LenAuto::Vh(n@),
            PxPctAuto::Vmin(n) => LenAuto::Vmin(n@),
            PxPctAuto::Vmax(n) => LenAuto::Vmax(n@),
            PxPctAuto::Calc(c) => LenAuto::Calc(Box::new(calc_of(*c))),
            PxPctAuto::Min(v) => LenAuto::Min(lens_of(v@)),
            PxPctAuto::Max(v) => LenAuto::Max(lens_of(v@)),
            PxPctAuto::Auto => LenAuto::Auto,
            PxPctAuto::Zero => LenAuto::Zero,
        }
    }
}

pub proof fn lemma_lens_of_push(s: Seq<PxPct>, x: PxPct)
    ensures
        lens_of(s.push(x)) == lens_of(s).push(len_of(x)),
{
    assert(s.push(x).drop_last() =~= s);
}

pub proof fn lemma_lens_of_len(s: Seq<PxPct>)
    ensures
        lens_of(s).len() == s.len(),
        forall|i: int| 0 <= i < s.len() ==> lens_of(s)[i] == len_of(#[trigger] s[i]),
    decreases s.len(),
{
    if s.len() > 0 {
        lemma_lens_of_len(s.drop_last());
        assert forall|i: int| 0 <= i < s.len() implies lens_of(s)[i] == len_of(#[trigger] s[i]) by {
            if i < s.len() - 1 {
                assert(s.drop_last()[i] == s[i]);
            }
        }
    }
}

/// The length that may be `auto` made from a length, where the unit has such a
/// form: `ch`, `ex`, `svh`, `dvh` and `clamp()` lengths become zero.
pub open spec fn len_auto_of(l: Len) -> LenAuto {
    match l {
        Len::Px(n) => LenAuto::Px(n),
        Len::Pct(n) => LenAuto::Pct(n),
        Len::Em(n) => LenAuto::Em(n),
        Len::Rem(n) => LenAuto::Rem(n),
        Len::Vw(n) => LenAuto::Vw(n),
        Len::Vh(n) => LenAuto::Vh(n),
        Len::Vmin(n) => LenAuto::Vmin(n),
        Len::Vmax(n) => LenAuto::Vmax(n),
        Len::Calc(e) => LenAuto::Calc(e),
        Len::Min(v) => LenAuto::Min(v),
        Len::Max(v) => LenAuto::Max(v),
        Len::Zero => LenAuto::Zero,
        _ => LenAuto::Zero,
    }
}

impl PxPctAuto {
    /// `From<PxPct> for PxPctAuto`.
    pub fn from_px_pct(value: PxPct) -> (r: Self)
        ensures
            r@ == len_auto_of(value@),
    {
        match value {
            PxPct::Pct(pct) => PxPctAuto::Pct(pct),
            PxPct::Px(px) => PxPctAuto::Px(px),
            PxPct::Em(v) => PxPctAuto::Em(v),
            PxPct::Rem(v) => PxPctAuto::Rem(v),
            PxPct::Vw(v) => PxPctAuto::Vw(v),
            PxPct::Vh(v) => PxPctAuto::Vh(v),
            PxPct::Vmin(v) => PxPctAuto::Vmin(v),
            PxPct::Vmax(v) => PxPctAuto::Vmax(v),
            PxPct::Calc(e) => PxPctAuto::Calc(e),
            PxPct::Min(v) => PxPctAuto::Min(v),
            PxPct::Max(v) => PxPctAuto::Max(v),
            PxPct::Zero => PxPctAuto::Zero,
            // Ch/Ex/Svh/Dvh/Clamp have no PxPctAuto equivalent
            _ => PxPctAuto::Zero,
        }
    }
}

/// A copy of a number.
pub fn copy_number(n: &Number) -> (r: Number)
    ensures
        r@ == n@,
{
    Number(n.0.clone())
}

/// A copy of a length.
pub fn copy_px_pct(p: &PxPct) -> (r: PxPct)
    ensures
        r@ == p@,
    decreases p,
{
    match p {
        PxPct::Px(n) => PxPct::Px(copy_number(n)),
        PxPct::Pct(n) => PxPct::Pct(copy_number(n)),
        PxPct::Em(n) => PxPct::Em(copy_number(n)),
        PxPct::Rem(n) => PxPct::Rem(copy_number(n)),
        PxPct::Ch(n) => PxPct::Ch(copy_number(n)),
        PxPct::Ex(n) => PxPct::Ex(copy_number(n)),
        PxPct::Vw(n) => PxPct::Vw(copy_number(n)),
        PxPct::Vh(n) => PxPct::Vh(copy_number(n)),
        PxPct::Vmin(n) => PxPct::Vmin(copy_number(n)),
        PxPct::Vmax(n) => PxPct::Vmax(copy_number(n)),
        PxPct::Svh(n) => PxPct::Svh(copy_number(n)),
        PxPct::Dvh(n) => PxPct::Dvh(copy_number(n)),
        PxPct::Calc(c) => PxPct::Calc(Box::new(copy_calc(c))),
        PxPct::Min(v) => PxPct::Min(copy_px_pcts(v)),
        PxPct::Max(v) => PxPct::Max(copy_px_pcts(v)),
        PxPct::Clamp(a, b, c) => PxPct::Clamp(
            Box::new(copy_px_pct(a)),
            Box::new(copy_px_pct(b)),
            Box::new(copy_px_pct(c)),
        ),
        PxPct::Zero => PxPct::Zero,
    }
}

pub fn copy_px_pcts(v: &Vec<PxPct>) -> (r: Vec<PxPct>)
    ensures
        lens_of(r@) == lens_of(v@),
    decreases v,
{
    let mut r: Vec<PxPct> = Vec::new();
    let mut i: usize = 0;
    while i < v.len()
        invariant
            i <= v@.len(),
            lens_of(r@) == lens_of(v@.take(i as int)),
        decreases v@.len() - i,
    {
        assert(decreases_to!(v => v@[i as int]));
        let x = copy_px_pct(&v[i]);
        proof {
            lemma_lens_of_push(r@, x);
            lemma_lens_of_push(v@.take(i as int), v@[i as int]);
            assert(v@.take(i + 1) =~= v@.take(i as int).push(v@[i as int]));
        }
        r.push(x);
        i = i + 1;
    }
    assert(v@.take(v@.len() as int) =~= v@);
    r
}

pub fn copy_calc(c: &CalcExpr) -> (r: CalcExpr)
    ensures
        r@ == c@,
    decreases c,
{
    match c {
        CalcExpr::Value(p) => CalcExpr::Value(Box::new(copy_px_pct(p))),
        CalcExpr::Add(a, b) => CalcExpr::Add(Box::new(copy_calc(a)), Box::new(copy_calc(b))),
        CalcExpr::Sub(a, b) => CalcExpr::Sub(Box::new(copy_calc(a)), Box::new(copy_calc(b))),
        CalcExpr::Mul(a, n) => CalcExpr::Mul(Box::new(copy_calc(a)), copy_number(n)),
        CalcExpr::Div(a, n) => CalcExpr::Div(Box::new(copy_calc(a)), copy_number(n)),
    }
}

impl Clone for PxPct {
    fn clone(&self) -> (r: Self)
        ensures
            r@ == self@,
    {
        copy_px_pct(self)
    }
}

impl Clone for CalcExpr {
    fn clone(&self) -> (r: Self)
        ensures
            r@ == self@,
    {
        copy_calc(self)
    }
}

impl Clone for PxPctAuto {
    fn clone(&self) -> (r: Self)
        ensures
            r@ == self@,
    {
        match self {
            PxPctAuto::Px(n) => PxPctAuto::Px(copy_number(n)),
            PxPctAuto::Pct(n) => PxPctAuto::Pct(copy_number(n)),
            PxPctAuto::Em(n) => PxPctAuto::Em(copy_number(n)),
            PxPctAuto::Rem(n) => PxPctAuto::Rem(copy_number(n)),
            PxPctAuto::Vw(n) => PxPctAuto::Vw(copy_number(n)),
            PxPctAuto::Vh(n) => PxPctAuto::Vh(copy_number(n)),
            PxPctAuto::Vmin(n) => PxPctAuto::Vmin(copy_number(n)),
            PxPctAuto::Vmax(n) => PxPctAuto::Vmax(copy_number(n)),
            PxPctAuto::Calc(c) => PxPctAuto::Calc(Box::new(copy_calc(c))),
            PxPctAuto::Min(v) => PxPctAuto::Min(copy_px_pcts(v)),
            PxPctAuto::Max(v) => PxPctAuto::Max(copy_px_pcts(v)),
            PxPctAuto::Auto => PxPctAuto::Auto,
            PxPctAuto::Zero => PxPctAuto::Zero,
        }
    }
}

#[derive(Debug, Clone, Copy, PartialEq, Eq, Structural)]
pub enum Display {
    Block,
    Flex,
    Grid,
    NoneValue,
}

#[derive(Debug, Clone, Copy, PartialEq, Eq, Structural)]
pub enum JustifyContent {
    Start,
    End,
    FlexStart,
    FlexEnd,
    Center,
    Stretch,
    SpaceBetween,
    SpaceEvenly,
    SpaceAround,
}

#[derive(Debug, Clone, Copy, PartialEq, Eq, Structural)]
pub enum AlignItems {
    Center,
    Start,
    End,
    FlexStart,
    FlexEnd,
    Baseline,
    Stretch,
}

#[derive(Debug, Clone, Copy, PartialEq, Eq, Structural)]
pub enum AlignContent {
    Center,
    Start,
    End,
    FlexStart,
    FlexEnd,
    Stretch,
    SpaceBetween,
    SpaceEvenly,
    SpaceAround,
}

#[derive(Debug, Clone, Copy, PartialEq, Eq, Structural)]
pub enum Position {
    Absolute,
    Relative,
}

#[derive(Debug, Clone, Copy, PartialEq, Eq, Structural)]
pub enum FlexDirection {
    Row,
    Column,
    RowReverse,
    ColumnReverse,
}

#[derive(Debug, Clone, Copy, PartialEq, Eq, Structural)]
pub enum FlexWrap {
    Wrap,
    NoWrap,
    WrapReverse,
}

#[derive(Debug, Clone, Copy, PartialEq, Eq, Structural)]
pub enum CursorIcon {
    Default,
    PointingHand,
    Text,
    ResizeColumn,
    ResizeRow,
    ResizeWest,
    ResizeEast,
    ResizeSouth,
    ResizeNorth,
    ResizeNorthWest,
    ResizeNorthEast,
    ResizeSouthWest,
    ResizeSouthEast,
    ResizeNeSw,
    ResizeNwSe,
}

#[derive(Debug, Clone, Copy, PartialEq, Eq, Structural)]
pub enum TextStyle {
    Normal,
    Italic,
    Oblique,
}

#[derive(Debug, Clone, Copy, PartialEq, Eq, Structural)]
pub enum TextOverflow {
    Clip,
    Ellipsis,
    Wrap,
}

#[derive(Debug, Clone, Copy, PartialEq, Eq, Structural)]
pub enum Visibility {
    Visible,
    Hidden,
    Collapse,
}

#[derive(Debug, Clone, Copy, PartialEq, Eq, Structural)]
pub enum PointerEvents {
    NoneValue,
    Auto,
    All,
}

#[derive(Debug, Clone, Copy, PartialEq, Eq, Structural)]
pub enum OverflowAxis {
    Visible,
    Hidden,
    Scroll,
    Auto,
    Clip,
}

#[derive(Debug, Clone, Copy, PartialEq, Eq, Structural)]
pub enum TextAlign {
    Left,
    Right,
    Center,
    Justify,
    Start,
    End,
}

#[derive(Debug, Clone, Copy, PartialEq, Eq, Structural)]
pub enum TextTransform {
    NoneValue,
    Uppercase,
    Lowercase,
    Capitalize,
}

#[derive(Debug, Clone, Copy, PartialEq, Eq, Structural)]
pub enum WhiteSpace {
    Normal,
    Nowrap,
    Pre,
    PreWrap,
    PreLine,
    BreakSpaces,
}

#[derive(Debug, Clone, Copy, PartialEq, Eq, Structural)]
pub enum WordBreak {
    Normal,
    BreakAll,
    KeepAll,
    BreakWord,
}

#[derive(Debug, Clone, Copy, PartialEq, Eq, Structural)]
pub enum BoxSizing {
    ContentBox,
    BorderBox,
}

#[derive(Debug, Clone, Copy, PartialEq, Eq, Structural)]
pub enum ObjectFit {
    Fill,
    Contain,
    Cover,
    NoneValue,
    ScaleDown,
}

#[derive(Debug, Clone, Copy, PartialEq, Eq, Structural)]
pub enum BackgroundRepeat {
    Repeat,
    RepeatX,
    RepeatY,
    NoRepeat,
    Space,
    Round,
}

/// A font weight, from 100 (thin) to 900.
#[derive(Debug, Clone, Copy, PartialEq, Eq, Structural)]
pub struct Weight(pub u16);

/// Both axes for the `overflow` shorthand
#[derive(Debug, Clone, Copy, PartialEq, Eq, Structural)]
pub struct OverflowAxes {
    pub x: OverflowAxis,
    pub y: OverflowAxis,
}

#[derive(Debug, Clone, Copy, PartialEq, Eq, Structural)]
pub enum TextDecorationLine {
    NoneValue,
    Underline,
    Overline,
    LineThrough,
}

#[derive(Debug, Clone, Copy, PartialEq, Eq, Structural)]
pub enum GridPlacement {
    Auto,
    Line(i32),
    Span(u32),
    LineSpan(i32, u32),
}

#[derive(Debug, Clone, Copy, PartialEq, Eq, Structural)]
pub enum StepPosition {
    Start,
    End,
    Both,
    NoneValue,
}

/// Linear easing: the output equals the input.
#[derive(Debug, Clone, Copy, Default)]
pub struct Linear;


#[derive(Debug, PartialEq)]
pub struct BorderDef {
    pub width: Option<PxPct>,
    pub color: Option<Color>,
}

pub struct BorderDefView {
    pub width: Option<Len>,
    pub color: Option<Color>,
}

impl View for BorderDef {
    type V = BorderDefView;

    open spec fn view(&self) -> BorderDefView {
        BorderDefView {
            width: match self.width {
                Some(w) => Some(w@),
                None => None,
            },
            color: self.color,
        }
    }
}

#[derive(Debug, PartialEq)]
pub struct BoxShadow {
    pub blur_radius: PxPct,
    pub color: Color,
    pub spread: PxPct,
    pub h_offset: PxPct,
    pub v_offset: PxPct,
}

pub struct BoxShadowView {
    pub blur_radius: Len,
    pub color: Color,
    pub spread: Len,
    pub h_offset: Len,
    pub v_offset: Len,
}

impl Clone for BorderDef {
    fn clone(&self) -> (r: Self)
        ensures
            r@ == self@,
    {
        BorderDef {
            width: match &self.width {
                Some(w) => Some(copy_px_pct(w)),
                None => None,
            },
            color: self.color,
        }
    }
}

impl View for BoxShadow {
    type V = BoxShadowView;

    open spec fn view(&self) -> BoxShadowView {
        BoxShadowView {
            blur_radius: self.blur_radius@,
            color: self.color,
            spread: self.spread@,
            h_offset: self.h_offset@,
            v_offset: self.v_offset@,
        }
    }
}

/// The text of the number zero.
pub open spec fn zero_text() -> Seq<char> {
    seq!['0']
}

/// The shadow that the parts of `box-shadow` start from: no offset, blur or
/// spread, and opaque black.
pub open spec fn default_shadow() -> BoxShadowView {
    BoxShadowView {
        blur_radius: Len::Px(zero_text()),
        color: crate::color::rgba8(0, 0, 0, 255),
        spread: Len::Px(zero_text()),
        h_offset: Len::Px(zero_text()),
        v_offset: Len::Px(zero_text()),
    }
}

/// The number zero.
pub fn zero() -> (r: Number)
    ensures
        r@ == zero_text(),
{
    proof {
        reveal_strlit("0");
    }
    Number(String::from_str("0"))
}

impl Default for BoxShadow {
    fn default() -> (r: Self)
        ensures
            r@ == default_shadow(),
    {
        Self {
            blur_radius: PxPct::Px(zero()),
            color: crate::color::color_from_rgba8(0, 0, 0, 255),
            spread: PxPct::Px(zero()),
            h_offset: PxPct::Px(zero()),
            v_offset: PxPct::Px(zero()),
        }
    }
}

impl Clone for BoxShadow {
    fn clone(&self) -> (r: Self)
        ensures
            r@ == self@,
    {
        BoxShadow {
            blur_radius: copy_px_pct(&self.blur_radius),
            color: self.color,
            spread: copy_px_pct(&self.spread),
            h_offset: copy_px_pct(&self.h_offset),
            v_offset: copy_px_pct(&self.v_offset),
        }
    }
}

impl Clone for TextDecoration {
    fn clone(&self) -> (r: Self)
        ensures
            r.line == self.line,
            r.color == self.color,
    {
        TextDecoration { line: self.line, color: self.color }
    }
}

#[derive(Debug, PartialEq)]
pub struct TextDecoration {
    pub line: TextDecorationLine,
    pub color: Option<Color>,
}

#[derive(Clone, Debug, PartialEq)]
pub enum BackgroundSize {
    Cover,
    Contain,
    Auto,
    Length(PxPct, PxPct),
}

pub enum BackgroundSizeView {
    Cover,
    Contain,
    Auto,
    Length(Len, Len),
}

impl View for BackgroundSize {
    type V = BackgroundSizeView;

    open spec fn view(&self) -> BackgroundSizeView {
        match *self {
            BackgroundSize::Cover => BackgroundSizeView::Cover,
            BackgroundSize::Contain => BackgroundSizeView::Contain,
            BackgroundSize::Auto => BackgroundSizeView::Auto,
            BackgroundSize::Length(w, h) => BackgroundSizeView::Length(w@, h@),
        }
    }
}

#[derive(Debug, PartialEq)]
pub enum TrackSize {
    Px(Number),
    Pct(Number),
    Fr(Number),
    Auto,
    MinMax(Box<TrackSize>, Box<TrackSize>),
    MinContent,
    MaxContent,
    FitContent(PxPct),
}

pub enum Track {
    Px(Seq<char>),
    Pct(Seq<char>),
    Fr(Seq<char>),
    Auto,
    MinMax(Box<Track>, Box<Track>),
    MinContent,
    MaxContent,
    FitContent(Len),
}

pub open spec fn track_of(t: TrackSize) -> Track
    decreases t,
{
    match t {
        TrackSize::Px(n) => Track::Px(n@),
        TrackSize::Pct(n) => Track::Pct(n@),
        TrackSize::Fr(n) => Track::Fr(n@),
        TrackSize::Auto => Track::Auto,
        TrackSize::MinMax(a, b) => Track::MinMax(Box::new(track_of(*a)), Box::new(track_of(*b))),
        TrackSize::MinContent => Track::MinContent,
        TrackSize::MaxContent => Track::MaxContent,
        TrackSize::FitContent(p) => Track::FitContent(p@),
    }
}

impl View for TrackSize {
    type V = Track;

    open spec fn view(&self) -> Track {
        track_of(*self)
    }
}

impl Clone for TrackSize {
    fn clone(&self) -> (r: Self)
        ensures
            r@ == self@,
        decreases self,
    {
        match self {
            TrackSize::Px(n) => TrackSize::Px(copy_number(n)),
            TrackSize::Pct(n) => TrackSize::Pct(copy_number(n)),
            TrackSize::Fr(n) => TrackSize::Fr(copy_number(n)),
            TrackSize::Auto => TrackSize::Auto,
            TrackSize::MinMax(a, b) => TrackSize::MinMax(
                Box::new((**a).clone()),
                Box::new((**b).clone()),
            ),
            TrackSize::MinContent => TrackSize::MinContent,
            TrackSize::MaxContent => TrackSize::MaxContent,
            TrackSize::FitContent(p) => TrackSize::FitContent(copy_px_pct(p)),
        }
    }
}

#[derive(Clone, Debug, PartialEq, Default)]
pub struct TrackList(pub Vec<TrackSize>);

pub open spec fn tracks_of(s: Seq<TrackSize>) -> Seq<Track> {
    s.map_values(|t: TrackSize| t@)
}

impl Default for TextDecoration {
    /// No line and no color.
    fn default() -> (r: Self)
        ensures
            r.line == TextDecorationLine::NoneValue,
            r.color is None,
    {
        Self { line: TextDecorationLine::NoneValue, color: None }
    }
}

impl Default for BackgroundSize {
    fn default() -> (r: Self)
        ensures
            r@ == BackgroundSizeView::Auto,
    {
        Self::Auto
    }
}

impl Default for BackgroundRepeat {
    fn default() -> (r: Self)
        ensures
            r == BackgroundRepeat::Repeat,
    {
        Self::Repeat
    }
}

} // verus!
