//! A CSS declaration: a property and its parsed value.
use std::borrow::Cow;

use vstd::prelude::*;

use csscolorparser::Color;

use crate::color::css_color;
use crate::length::{fits_depth, len_text, opt_len, parse_px_pct};
use crate::lexer::str_is;
use crate::parser::cow_str;
use crate::shorthand::{
    border_text, box_shadow_text, gap_text, len_auto_text, parse_border, parse_box_shadow,
    parse_gap, parse_pxpctauto, shadow_safe,
};
use crate::text::{is_float_literal, parse_signed};
use crate::units::{
    copy_number, copy_px_pct, AlignContent, AlignItems, BorderDef, BorderDefView, BoxShadow,
    BoxShadowView, CursorIcon, Display, FlexDirection, FlexWrap, JustifyContent, Len, LenAuto,
    Number, Position, Px, PxPct, PxPctAuto, TextOverflow, TextStyle, Weight,
};
use crate::values::{
    align_content_of, align_items_of, cursor_style_of, display_of, flex_direction_of,
    flex_wrap_of, font_style_of, font_weight_of, justify_content_of, number_before, parse_align_content,
    parse_align_items, parse_color, parse_cursor_style, parse_display, parse_f32,
    parse_flex_direction, parse_flex_wrap, parse_font_style, parse_font_weight, parse_i32,
    parse_justify_content, parse_position, parse_px, parse_text_overflow, parse_user_select,
    position_of, text_overflow_of, to_owned, user_select_of,
};

verus! {

/// A declaration. Numbers are kept as their text (`Number`).
#[derive(Debug, Default)]
pub enum Declaration {
    #[default]
    NoneValue,
    Display(Display),
    Position(Position),
    Width(PxPctAuto),
    Height(PxPctAuto),
    MinWidth(PxPctAuto),
    MinHeight(PxPctAuto),
    MaxWidth(PxPctAuto),
    MaxHeight(PxPctAuto),
    FlexDirection(FlexDirection),
    FlexWrap(FlexWrap),
    FlexGrow(Number),
    FlexShrink(Number),
    FlexBasis(PxPctAuto),
    JustifyContent(JustifyContent),
    JustifySelf(AlignItems),
    AlignItems(AlignItems),
    AlignContent(AlignContent),
    AlignSelf(AlignItems),
    Border(BorderDef),
    BorderWidth(Px),
    BorderLeft(Px),
    BorderTop(Px),
    BorderRight(Px),
    BorderBottom(Px),
    BorderRadius(PxPct),
    OutlineColor(Color),
    Outline(Px),
    BorderColor(Color),
    Padding(PxPct),
    PaddingLeft(PxPct),
    PaddingTop(PxPct),
    PaddingRight(PxPct),
    PaddingBottom(PxPct),
    Margin(PxPctAuto),
    MarginLeft(PxPctAuto),
    MarginTop(PxPctAuto),
    MarginRight(PxPctAuto),
    MarginBottom(PxPctAuto),
    InsetLeft(PxPctAuto),
    InsetTop(PxPctAuto),
    InsetRight(PxPctAuto),
    InsetBottom(PxPctAuto),
    ZIndex(i32),
    Cursor(CursorIcon),
    Color(Color),
    BackgroundColor(Color),
    BoxShadow(BoxShadow),
    FontSize(Px),
    FontFamily(String),
    FontWeight(Weight),
    FontStyle(TextStyle),
    CursorColor(Color),
    TextWrap(TextOverflow),
    LineHeight(Number),
    AspectRatio(Number),
    ColGap(PxPct),
    RowGap(PxPct),
    Gap((PxPct, Option<PxPct>)),
    UserSelect(bool),
}

/// The content of a declaration.
pub enum DeclView {
    NoneValue,
    Display(Display),
    Position(Position),
    Width(LenAuto),
    Height(LenAuto),
    MinWidth(LenAuto),
    MinHeight(LenAuto),
    MaxWidth(LenAuto),
    MaxHeight(LenAuto),
    FlexDirection(FlexDirection),
    FlexWrap(FlexWrap),
    FlexGrow(Seq<char>),
    FlexShrink(Seq<char>),
    FlexBasis(LenAuto),
    JustifyContent(JustifyContent),
    JustifySelf(AlignItems),
    AlignItems(AlignItems),
    AlignContent(AlignContent),
    AlignSelf(AlignItems),
    Border(BorderDefView),
    BorderWidth(Seq<char>),
    BorderLeft(Seq<char>),
    BorderTop(Seq<char>),
    BorderRight(Seq<char>),
    BorderBottom(Seq<char>),
    BorderRadius(Len),
    OutlineColor(Color),
    Outline(Seq<char>),
    BorderColor(Color),
    Padding(Len),
    PaddingLeft(Len),
    PaddingTop(Len),
    PaddingRight(Len),
    PaddingBottom(Len),
    Margin(LenAuto),
    MarginLeft(LenAuto),
    MarginTop(LenAuto),
    MarginRight(LenAuto),
    MarginBottom(LenAuto),
    InsetLeft(LenAuto),
    InsetTop(LenAuto),
    InsetRight(LenAuto),
    InsetBottom(LenAuto),
    ZIndex(int),
    Cursor(CursorIcon),
    Color(Color),
    BackgroundColor(Color),
    BoxShadow(BoxShadowView),
    FontSize(Seq<char>),
    FontFamily(Seq<char>),
    FontWeight(Weight),
    FontStyle(TextStyle),
    CursorColor(Color),
    TextWrap(TextOverflow),
    LineHeight(Seq<char>),
    AspectRatio(Seq<char>),
    ColGap(Len),
    RowGap(Len),
    Gap(Len, Option<Len>),
    UserSelect(bool),
}

impl View for Declaration {
    type V = DeclView;

    open spec fn view(&self) -> DeclView {
        match *self {
            Declaration::NoneValue => DeclView::NoneValue,
            Declaration::Display(x) => DeclView::Display(x),
            Declaration::Position(x) => DeclView::Position(x),
            Declaration::Width(x) => DeclView::Width(x@),
            Declaration::Height(x) => DeclView::Height(x@),
            Declaration::MinWidth(x) => DeclView::MinWidth(x@),
            Declaration::MinHeight(x) => DeclView::MinHeight(x@),
            Declaration::MaxWidth(x) => DeclView::MaxWidth(x@),
            Declaration::MaxHeight(x) => DeclView::MaxHeight(x@),
            Declaration::FlexDirection(x) => DeclView::FlexDirection(x),
            Declaration::FlexWrap(x) => DeclView::FlexWrap(x),
            Declaration::FlexGrow(x) => DeclView::FlexGrow(x@),
            Declaration::FlexShrink(x) => DeclView::FlexShrink(x@),
            Declaration::FlexBasis(x) => DeclView::FlexBasis(x@),
            Declaration::JustifyContent(x) => DeclView::JustifyContent(x),
            Declaration::JustifySelf(x) => DeclView::JustifySelf(x),
            Declaration::AlignItems(x) => DeclView::AlignItems(x),
            Declaration::AlignContent(x) => DeclView::AlignContent(x),
            Declaration::AlignSelf(x) => DeclView::AlignSelf(x),
            Declaration::Border(x) => DeclView::Border(x@),
            Declaration::BorderWidth(x) => DeclView::BorderWidth(x.0@),
            Declaration::BorderLeft(x) => DeclView::BorderLeft(x.0@),
            Declaration::BorderTop(x) => DeclView::BorderTop(x.0@),
            Declaration::BorderRight(x) => DeclView::BorderRight(x.0@),
            Declaration::BorderBottom(x) => DeclView::BorderBottom(x.0@),
            Declaration::BorderRadius(x) => DeclView::BorderRadius(x@),
            Declaration::OutlineColor(x) => DeclView::OutlineColor(x),
            Declaration::Outline(x) => DeclView::Outline(x.0@),
            Declaration::BorderColor(x) => DeclView::BorderColor(x),
            Declaration::Padding(x) => DeclView::Padding(x@),
            Declaration::PaddingLeft(x) => DeclView::PaddingLeft(x@),
            Declaration::PaddingTop(x) => DeclView::PaddingTop(x@),
            Declaration::PaddingRight(x) => DeclView::PaddingRight(x@),
            Declaration::PaddingBottom(x) => DeclView::PaddingBottom(x@),
            Declaration::Margin(x) => DeclView::Margin(x@),
            Declaration::MarginLeft(x) => DeclView::MarginLeft(x@),
            Declaration::MarginTop(x) => DeclView::MarginTop(x@),
            Declaration::MarginRight(x) => DeclView::MarginRight(x@),
            Declaration::MarginBottom(x) => DeclView::MarginBottom(x@),
            Declaration::InsetLeft(x) => DeclView::InsetLeft(x@),
            Declaration::InsetTop(x) => DeclView::InsetTop(x@),
            Declaration::InsetRight(x) => DeclView::InsetRight(x@),
            Declaration::InsetBottom(x) => DeclView::InsetBottom(x@),
            Declaration::ZIndex(x) => DeclView::ZIndex(x as int),
            Declaration::Cursor(x) => DeclView::Cursor(x),
            Declaration::Color(x) => DeclView::Color(x),
            Declaration::BackgroundColor(x) => DeclView::BackgroundColor(x),
            Declaration::BoxShadow(x) => DeclView::BoxShadow(x@),
            Declaration::FontSize(x) => DeclView::FontSize(x.0@),
            Declaration::FontFamily(x) => DeclView::FontFamily(x@),
            Declaration::FontWeight(x) => DeclView::FontWeight(x),
            Declaration::FontStyle(x) => DeclView::FontStyle(x),
            Declaration::CursorColor(x) => DeclView::CursorColor(x),
            Declaration::TextWrap(x) => DeclView::TextWrap(x),
            Declaration::LineHeight(x) => DeclView::LineHeight(x@),
            Declaration::AspectRatio(x) => DeclView::AspectRatio(x@),
            Declaration::ColGap(x) => DeclView::ColGap(x@),
            Declaration::RowGap(x) => DeclView::RowGap(x@),
            Declaration::Gap(x) => DeclView::Gap(x.0@, opt_len(x.1)),
            Declaration::UserSelect(x) => DeclView::UserSelect(x),
        }
    }
}

/// What `str::parse::<f32>` accepts, kept as text.
pub open spec fn number_text(v: Seq<char>) -> Option<Seq<char>> {
    if is_float_literal(v) {
        Some(v)
    } else {
        None
    }
}

/// The values that can be parsed without a panic, and whose nesting fits the
/// counters of the length parser: a `box-shadow` value must not put a part
/// boundary inside a character (see `shadow_safe`).
pub open spec fn decl_safe(k: Seq<char>, v: Seq<char>) -> bool {
    &&& fits_depth(v)
    &&& (k == "box-shadow"@ ==> shadow_safe(v))
}

/// The kind of a declaration: its variant, numbered in declaration order.
pub open spec fn decl_kind(d: DeclView) -> nat {
    match d {
        DeclView::NoneValue => 0,
        DeclView::Display(..) => 1,
        DeclView::Position(..) => 2,
        DeclView::Width(..) => 3,
        DeclView::Height(..) => 4,
        DeclView::MinWidth(..) => 5,
        DeclView::MinHeight(..) => 6,
        DeclView::MaxWidth(..) => 7,
        DeclView::MaxHeight(..) => 8,
        DeclView::FlexDirection(..) => 9,
        DeclView::FlexWrap(..) => 10,
        DeclView::FlexGrow(..) => 11,
        DeclView::FlexShrink(..) => 12,
        DeclView::FlexBasis(..) => 13,
        DeclView::JustifyContent(..) => 14,
        DeclView::JustifySelf(..) => 15,
        DeclView::AlignItems(..) => 16,
        DeclView::AlignContent(..) => 17,
        DeclView::AlignSelf(..) => 18,
        DeclView::Border(..) => 19,
        DeclView::BorderWidth(..) => 20,
        DeclView::BorderLeft(..) => 21,
        DeclView::BorderTop(..) => 22,
        DeclView::BorderRight(..) => 23,
        DeclView::BorderBottom(..) => 24,
        DeclView::BorderRadius(..) => 25,
        DeclView::OutlineColor(..) => 26,
        DeclView::Outline(..) => 27,
        DeclView::BorderColor(..) => 28,
        DeclView::Padding(..) => 29,
        DeclView::PaddingLeft(..) => 30,
        DeclView::PaddingTop(..) => 31,
        DeclView::PaddingRight(..) => 32,
        DeclView::PaddingBottom(..) => 33,
        DeclView::Margin(..) => 34,
        DeclView::MarginLeft(..) => 35,
        DeclView::MarginTop(..) => 36,
        DeclView::MarginRight(..) => 37,
        DeclView::MarginBottom(..) => 38,
        DeclView::InsetLeft(..) => 39,
        DeclView::InsetTop(..) => 40,
        DeclView::InsetRight(..) => 41,
        DeclView::InsetBottom(..) => 42,
        DeclView::ZIndex(..) => 43,
        DeclView::Cursor(..) => 44,
        DeclView::Color(..) => 45,
        DeclView::BackgroundColor(..) => 46,
        DeclView::BoxShadow(..) => 47,
        DeclView::FontSize(..) => 48,
        DeclView::FontFamily(..) => 49,
        DeclView::FontWeight(..) => 50,
        DeclView::FontStyle(..) => 51,
        DeclView::CursorColor(..) => 52,
        DeclView::TextWrap(..) => 53,
        DeclView::LineHeight(..) => 54,
        DeclView::AspectRatio(..) => 55,
        DeclView::ColGap(..) => 56,
        DeclView::RowGap(..) => 57,
        DeclView::Gap(..) => 58,
        DeclView::UserSelect(..) => 59,
    }
}

/// The declarations of properties display to flex-wrap: `None` where the
/// property is not one of these, `Some(None)` where its value is rejected.
pub open spec fn decl_group_0(k: Seq<char>, v: Seq<char>) -> Option<Option<DeclView>> {
    if k == "display"@ {
        Some(
            match display_of(v) {
                Some(x) => Some(DeclView::Display(x)),
                None => None,
            },
        )
    } else if k == "position"@ {
        Some(
            match position_of(v) {
                Some(x) => Some(DeclView::Position(x)),
                None => None,
            },
        )
    } else if k == "width"@ {
        Some(
            match len_auto_text(v) {
                Some(x) => Some(DeclView::Width(x)),
                None => None,
            },
        )
    } else if k == "height"@ {
        Some(
            match len_auto_text(v) {
                Some(x) => Some(DeclView::Height(x)),
                None => None,
            },
        )
    } else if k == "min-width"@ {
        Some(
            match len_auto_text(v) {
                Some(x) => Some(DeclView::MinWidth(x)),
                None => None,
            },
        )
    } else if k == "min-height"@ {
        Some(
            match len_auto_text(v) {
                Some(x) => Some(DeclView::MinHeight(x)),
                None => None,
            },
        )
    } else if k == "max-width"@ {
        Some(
            match len_auto_text(v) {
                Some(x) => Some(DeclView::MaxWidth(x)),
                None => None,
            },
        )
    } else if k == "max-height"@ {
        Some(
            match len_auto_text(v) {
                Some(x) => Some(DeclView::MaxHeight(x)),
                None => None,
            },
        )
    } else if k == "flex-direction"@ {
        Some(
            match flex_direction_of(v) {
                Some(x) => Some(DeclView::FlexDirection(x)),
                None => None,
            },
        )
    } else if k == "flex-wrap"@ {
        Some(
            match flex_wrap_of(v) {
                Some(x) => Some(DeclView::FlexWrap(x)),
                None => None,
            },
        )
    } else {
        None
    }
}

/// The declarations of properties flex-grow to border-width: `None` where the
/// property is not one of these, `Some(None)` where its value is rejected.
pub open spec fn decl_group_1(k: Seq<char>, v: Seq<char>) -> Option<Option<DeclView>> {
    if k == "flex-grow"@ {
        Some(
            match number_text(v) {
                Some(x) => Some(DeclView::FlexGrow(x)),
                None => None,
            },
        )
    } else if k == "flex-shrink"@ {
        Some(
            match number_text(v) {
                Some(x) => Some(DeclView::FlexShrink(x)),
                None => None,
            },
        )
    } else if k == "flex-basis"@ {
        Some(
            match len_auto_text(v) {
                Some(x) => Some(DeclView::FlexBasis(x)),
                None => None,
            },
        )
    } else if k == "justify-content"@ {
        Some(
            match justify_content_of(v) {
                Some(x) => Some(DeclView::JustifyContent(x)),
                None => None,
            },
        )
    } else if k == "justify-self"@ {
        Some(
            match align_items_of(v) {
                Some(x) => Some(DeclView::JustifySelf(x)),
                None => None,
            },
        )
    } else if k == "align-items"@ {
        Some(
            match align_items_of(v) {
                Some(x) => Some(DeclView::AlignItems(x)),
                None => None,
            },
        )
    } else if k == "align-content"@ {
        Some(
            match align_content_of(v) {
                Some(x) => Some(DeclView::AlignContent(x)),
                None => None,
            },
        )
    } else if k == "align-self"@ {
        Some(
            match align_items_of(v) {
                Some(x) => Some(DeclView::AlignSelf(x)),
                None => None,
            },
        )
    } else if k == "border"@ {
        Some(
            match border_text(v) {
                Some(x) => Some(DeclView::Border(x)),
                None => None,
            },
        )
    } else if k == "border-width"@ {
        Some(
            match number_before(v, "px"@) {
                Some(x) => Some(DeclView::BorderWidth(x)),
                None => None,
            },
        )
    } else {
        None
    }
}

/// The declarations of properties border-left to padding-left: `None` where the
/// property is not one of these, `Some(None)` where its value is rejected.
pub open spec fn decl_group_2(k: Seq<char>, v: Seq<char>) -> Option<Option<DeclView>> {
    if k == "border-left"@ {
        Some(
            match number_before(v, "px"@) {
                Some(x) => Some(DeclView::BorderLeft(x)),
                None => None,
            },
        )
    } else if k == "border-top"@ {
        Some(
            match number_before(v, "px"@) {
                Some(x) => Some(DeclView::BorderTop(x)),
                None => None,
            },
        )
    } else if k == "border-right"@ {
        Some(
            match number_before(v, "px"@) {
                Some(x) => Some(DeclView::BorderRight(x)),
                None => None,
            },
        )
    } else if k == "border-bottom"@ {
        Some(
            match number_before(v, "px"@) {
                Some(x) => Some(DeclView::BorderBottom(x)),
                None => None,
            },
        )
    } else if k == "border-radius"@ {
        Some(
            match len_text(v) {
                Some(x) => Some(DeclView::BorderRadius(x)),
                None => None,
            },
        )
    } else if k == "outline-color"@ {
        Some(
            match css_color(v) {
                Some(x) => Some(DeclView::OutlineColor(x)),
                None => None,
            },
        )
    } else if k == "outline"@ {
        Some(
            match number_before(v, "px"@) {
                Some(x) => Some(DeclView::Outline(x)),
                None => None,
            },
        )
    } else if k == "border-color"@ {
        Some(
            match css_color(v) {
                Some(x) => Some(DeclView::BorderColor(x)),
                None => None,
            },
        )
    } else if k == "padding"@ {
        Some(
            match len_text(v) {
                Some(x) => Some(DeclView::Padding(x)),
                None => None,
            },
        )
    } else if k == "padding-left"@ {
        Some(
            match len_text(v) {
                Some(x) => Some(DeclView::PaddingLeft(x)),
                None => None,
            },
        )
    } else {
        None
    }
}

/// The declarations of properties padding-top to top: `None` where the
/// property is not one of these, `Some(None)` where its value is rejected.
pub open spec fn decl_group_3(k: Seq<char>, v: Seq<char>) -> Option<Option<DeclView>> {
    if k == "padding-top"@ {
        Some(
            match len_text(v) {
                Some(x) => Some(DeclView::PaddingTop(x)),
                None => None,
            },
        )
    } else if k == "padding-right"@ {
        Some(
            match len_text(v) {
                Some(x) => Some(DeclView::PaddingRight(x)),
                None => None,
            },
        )
    } else if k == "padding-bottom"@ {
        Some(
            match len_text(v) {
                Some(x) => Some(DeclView::PaddingBottom(x)),
                None => None,
            },
        )
    } else if k == "margin"@ {
        Some(
            match len_auto_text(v) {
                Some(x) => Some(DeclView::Margin(x)),
                None => None,
            },
        )
    } else if k == "margin-left"@ {
        Some(
            match len_auto_text(v) {
                Some(x) => Some(DeclView::MarginLeft(x)),
                None => None,
            },
        )
    } else if k == "margin-top"@ {
        Some(
            match len_auto_text(v) {
                Some(x) => Some(DeclView::MarginTop(x)),
                None => None,
            },
        )
    } else if k == "margin-right"@ {
        Some(
            match len_auto_text(v) {
                Some(x) => Some(DeclView::MarginRight(x)),
                None => None,
            },
        )
    } else if k == "margin-bottom"@ {
        Some(
            match len_auto_text(v) {
                Some(x) => Some(DeclView::MarginBottom(x)),
                None => None,
            },
        )
    } else if k == "left"@ {
        Some(
            match len_auto_text(v) {
                Some(x) => Some(DeclView::InsetLeft(x)),
                None => None,
            },
        )
    } else if k == "top"@ {
        Some(
            match len_auto_text(v) {
                Some(x) => Some(DeclView::InsetTop(x)),
                None => None,
            },
        )
    } else {
        None
    }
}

/// The declarations of properties right to font-weight: `None` where the
/// property is not one of these, `Some(None)` where its value is rejected.
pub open spec fn decl_group_4(k: Seq<char>, v: Seq<char>) -> Option<Option<DeclView>> {
    if k == "right"@ {
        Some(
            match len_auto_text(v) {
                Some(x) => Some(DeclView::InsetRight(x)),
                None => None,
            },
        )
    } else if k == "bottom"@ {
        Some(
            match len_auto_text(v) {
                Some(x) => Some(DeclView::InsetBottom(x)),
                None => None,
            },
        )
    } else if k == "z-index"@ {
        Some(
            match parse_signed(v, i32::MIN as int, i32::MAX as int) {
                Some(x) => Some(DeclView::ZIndex(x)),
                None => None,
            },
        )
    } else if k == "cursor"@ {
        Some(
            match cursor_style_of(v) {
                Some(x) => Some(DeclView::Cursor(x)),
                None => None,
            },
        )
    } else if k == "color"@ {
        Some(
            match css_color(v) {
                Some(x) => Some(DeclView::Color(x)),
                None => None,
            },
        )
    } else if k == "background-color"@ {
        Some(
            match css_color(v) {
                Some(x) => Some(DeclView::BackgroundColor(x)),
                None => None,
            },
        )
    } else if k == "box-shadow"@ {
        Some(
            match box_shadow_text(v) {
                Some(x) => Some(DeclView::BoxShadow(x)),
                None => None,
            },
        )
    } else if k == "font-size"@ {
        Some(
            match number_before(v, "px"@) {
                Some(x) => Some(DeclView::FontSize(x)),
                None => None,
            },
        )
    } else if k == "font-family"@ {
        Some(
            match Some(v) {
                Some(x) => Some(DeclView::FontFamily(x)),
                None => None,
            },
        )
    } else if k == "font-weight"@ {
        Some(
            match font_weight_of(v) {
                Some(x) => Some(DeclView::FontWeight(x)),
                None => None,
            },
        )
    } else {
        None
    }
}

/// The declarations of properties font-style to user-select: `None` where the
/// property is not one of these, `Some(None)` where its value is rejected.
pub open spec fn decl_group_5(k: Seq<char>, v: Seq<char>) -> Option<Option<DeclView>> {
    if k == "font-style"@ {
        Some(
            match font_style_of(v) {
                Some(x) => Some(DeclView::FontStyle(x)),
                None => None,
            },
        )
    } else if k == "caret-color"@ {
        Some(
            match css_color(v) {
                Some(x) => Some(DeclView::CursorColor(x)),
                None => None,
            },
        )
    } else if k == "text-wrap"@ {
        Some(
            match text_overflow_of(v) {
                Some(x) => Some(DeclView::TextWrap(x)),
                None => None,
            },
        )
    } else if k == "line-height"@ {
        Some(
            match number_text(v) {
                Some(x) => Some(DeclView::LineHeight(x)),
                None => None,
            },
        )
    } else if k == "aspect-ratio"@ {
        Some(
            match number_text(v) {
                Some(x) => Some(DeclView::AspectRatio(x)),
                None => None,
            },
        )
    } else if k == "column-gap"@ {
        Some(
            match len_text(v) {
                Some(x) => Some(DeclView::ColGap(x)),
                None => None,
            },
        )
    } else if k == "row-gap"@ {
        Some(
            match len_text(v) {
                Some(x) => Some(DeclView::RowGap(x)),
                None => None,
            },
        )
    } else if k == "gap"@ {
        Some(
            match gap_text(v) {
                Some(x) => Some(DeclView::Gap(x.0, x.1)),
                None => None,
            },
        )
    } else if k == "user-select"@ {
        Some(
            match user_select_of(v) {
                Some(x) => Some(DeclView::UserSelect(x)),
                None => None,
            },
        )
    } else {
        None
    }
}

/// The declaration that a property and its value make, if the property is
/// known and the value is accepted.
pub open spec fn decl_text(k: Seq<char>, v: Seq<char>) -> Option<DeclView> {
    if decl_group_0(k, v) is Some {
        decl_group_0(k, v).unwrap()
    } else if decl_group_1(k, v) is Some {
        decl_group_1(k, v).unwrap()
    } else if decl_group_2(k, v) is Some {
        decl_group_2(k, v).unwrap()
    } else if decl_group_3(k, v) is Some {
        decl_group_3(k, v).unwrap()
    } else if decl_group_4(k, v) is Some {
        decl_group_4(k, v).unwrap()
    } else if decl_group_5(k, v) is Some {
        decl_group_5(k, v).unwrap()
    } else {
        None
    }
}

/// The property that each kind of declaration is written with.
pub open spec fn property_of(d: DeclView) -> Seq<char> {
    match d {
        DeclView::Display(..) => "display"@,
        DeclView::Position(..) => "position"@,
        DeclView::Width(..) => "width"@,
        DeclView::Height(..) => "height"@,
        DeclView::MinWidth(..) => "min-width"@,
        DeclView::MinHeight(..) => "min-height"@,
        DeclView::MaxWidth(..) => "max-width"@,
        DeclView::MaxHeight(..) => "max-height"@,
        DeclView::FlexDirection(..) => "flex-direction"@,
        DeclView::FlexWrap(..) => "flex-wrap"@,
        DeclView::FlexGrow(..) => "flex-grow"@,
        DeclView::FlexShrink(..) => "flex-shrink"@,
        DeclView::FlexBasis(..) => "flex-basis"@,
        DeclView::JustifyContent(..) => "justify-content"@,
        DeclView::JustifySelf(..) => "justify-self"@,
        DeclView::AlignItems(..) => "align-items"@,
        DeclView::AlignContent(..) => "align-content"@,
        DeclView::AlignSelf(..) => "align-self"@,
        DeclView::Border(..) => "border"@,
        DeclView::BorderWidth(..) => "border-width"@,
        DeclView::BorderLeft(..) => "border-left"@,
        DeclView::BorderTop(..) => "border-top"@,
        DeclView::BorderRight(..) => "border-right"@,
        DeclView::BorderBottom(..) => "border-bottom"@,
        DeclView::BorderRadius(..) => "border-radius"@,
        DeclView::OutlineColor(..) => "outline-color"@,
        DeclView::Outline(..) => "outline"@,
        DeclView::BorderColor(..) => "border-color"@,
        DeclView::Padding(..) => "padding"@,
        DeclView::PaddingLeft(..) => "padding-left"@,
        DeclView::PaddingTop(..) => "padding-top"@,
        DeclView::PaddingRight(..) => "padding-right"@,
        DeclView::PaddingBottom(..) => "padding-bottom"@,
        DeclView::Margin(..) => "margin"@,
        DeclView::MarginLeft(..) => "margin-left"@,
        DeclView::MarginTop(..) => "margin-top"@,
        DeclView::MarginRight(..) => "margin-right"@,
        DeclView::MarginBottom(..) => "margin-bottom"@,
        DeclView::InsetLeft(..) => "left"@,
        DeclView::InsetTop(..) => "top"@,
        DeclView::InsetRight(..) => "right"@,
        DeclView::InsetBottom(..) => "bottom"@,
        DeclView::ZIndex(..) => "z-index"@,
        DeclView::Cursor(..) => "cursor"@,
        DeclView::Color(..) => "color"@,
        DeclView::BackgroundColor(..) => "background-color"@,
        DeclView::BoxShadow(..) => "box-shadow"@,
        DeclView::FontSize(..) => "font-size"@,
        DeclView::FontFamily(..) => "font-family"@,
        DeclView::FontWeight(..) => "font-weight"@,
        DeclView::FontStyle(..) => "font-style"@,
        DeclView::CursorColor(..) => "caret-color"@,
        DeclView::TextWrap(..) => "text-wrap"@,
        DeclView::LineHeight(..) => "line-height"@,
        DeclView::AspectRatio(..) => "aspect-ratio"@,
        DeclView::ColGap(..) => "column-gap"@,
        DeclView::RowGap(..) => "row-gap"@,
        DeclView::Gap(..) => "gap"@,
        DeclView::UserSelect(..) => "user-select"@,
        DeclView::NoneValue => Seq::empty(),
    }
}

/// A declaration is read only from its own property: whatever the value, the
/// property of the declaration that a pair gives is the pair's property.
pub proof fn law_declaration_property(k: Seq<char>, v: Seq<char>)
    ensures
        decl_text(k, v) matches Some(d) ==> k == property_of(d),
{
    if decl_group_0(k, v) is Some {
        assert(decl_group_0(k, v).unwrap() matches Some(d) ==> k == property_of(d));
    } else if decl_group_1(k, v) is Some {
        assert(decl_group_1(k, v).unwrap() matches Some(d) ==> k == property_of(d));
    } else if decl_group_2(k, v) is Some {
        assert(decl_group_2(k, v).unwrap() matches Some(d) ==> k == property_of(d));
    } else if decl_group_3(k, v) is Some {
        assert(decl_group_3(k, v).unwrap() matches Some(d) ==> k == property_of(d));
    } else if decl_group_4(k, v) is Some {
        assert(decl_group_4(k, v).unwrap() matches Some(d) ==> k == property_of(d));
    } else if decl_group_5(k, v) is Some {
        assert(decl_group_5(k, v).unwrap() matches Some(d) ==> k == property_of(d));
    }
}

/// Whether a declaration holds what its value text reads as, with the value
/// reader of its kind.
pub open spec fn value_read(d: DeclView, v: Seq<char>) -> bool {
    match d {
        DeclView::Display(x) => display_of(v) == Some(x),
        DeclView::Position(x) => position_of(v) == Some(x),
        DeclView::Width(x) => len_auto_text(v) == Some(x),
        DeclView::Height(x) => len_auto_text(v) == Some(x),
        DeclView::MinWidth(x) => len_auto_text(v) == Some(x),
        DeclView::MinHeight(x) => len_auto_text(v) == Some(x),
        DeclView::MaxWidth(x) => len_auto_text(v) == Some(x),
        DeclView::MaxHeight(x) => len_auto_text(v) == Some(x),
        DeclView::FlexDirection(x) => flex_direction_of(v) == Some(x),
        DeclView::FlexWrap(x) => flex_wrap_of(v) == Some(x),
        DeclView::FlexGrow(x) => number_text(v) == Some(x),
        DeclView::FlexShrink(x) => number_text(v) == Some(x),
        DeclView::FlexBasis(x) => len_auto_text(v) == Some(x),
        DeclView::JustifyContent(x) => justify_content_of(v) == Some(x),
        DeclView::JustifySelf(x) => align_items_of(v) == Some(x),
        DeclView::AlignItems(x) => align_items_of(v) == Some(x),
        DeclView::AlignContent(x) => align_content_of(v) == Some(x),
        DeclView::AlignSelf(x) => align_items_of(v) == Some(x),
        DeclView::Border(x) => border_text(v) == Some(x),
        DeclView::BorderWidth(x) => number_before(v, "px"@) == Some(x),
        DeclView::BorderLeft(x) => number_before(v, "px"@) == Some(x),
        DeclView::BorderTop(x) => number_before(v, "px"@) == Some(x),
        DeclView::BorderRight(x) => number_before(v, "px"@) == Some(x),
        DeclView::BorderBottom(x) => number_before(v, "px"@) == Some(x),
        DeclView::BorderRadius(x) => len_text(v) == Some(x),
        DeclView::OutlineColor(x) => css_color(v) == Some(x),
        DeclView::Outline(x) => number_before(v, "px"@) == Some(x),
        DeclView::BorderColor(x) => css_color(v) == Some(x),
        DeclView::Padding(x) => len_text(v) == Some(x),
        DeclView::PaddingLeft(x) => len_text(v) == Some(x),
        DeclView::PaddingTop(x) => len_text(v) == Some(x),
        DeclView::PaddingRight(x) => len_text(v) == Some(x),
        DeclView::PaddingBottom(x) => len_text(v) == Some(x),
        DeclView::Margin(x) => len_auto_text(v) == Some(x),
        DeclView::MarginLeft(x) => len_auto_text(v) == Some(x),
        DeclView::MarginTop(x) => len_auto_text(v) == Some(x),
        DeclView::MarginRight(x) => len_auto_text(v) == Some(x),
        DeclView::MarginBottom(x) => len_auto_text(v) == Some(x),
        DeclView::InsetLeft(x) => len_auto_text(v) == Some(x),
        DeclView::InsetTop(x) => len_auto_text(v) == Some(x),
        DeclView::InsetRight(x) => len_auto_text(v) == Some(x),
        DeclView::InsetBottom(x) => len_auto_text(v) == Some(x),
        DeclView::ZIndex(x) => parse_signed(v, i32::MIN as int, i32::MAX as int) == Some(x),
        DeclView::Cursor(x) => cursor_style_of(v) == Some(x),
        DeclView::Color(x) => css_color(v) == Some(x),
        DeclView::BackgroundColor(x) => css_color(v) == Some(x),
        DeclView::BoxShadow(x) => box_shadow_text(v) == Some(x),
        DeclView::FontSize(x) => number_before(v, "px"@) == Some(x),
        DeclView::FontFamily(x) => x == v,
        DeclView::FontWeight(x) => font_weight_of(v) == Some(x),
        DeclView::FontStyle(x) => font_style_of(v) == Some(x),
        DeclView::CursorColor(x) => css_color(v) == Some(x),
        DeclView::TextWrap(x) => text_overflow_of(v) == Some(x),
        DeclView::LineHeight(x) => number_text(v) == Some(x),
        DeclView::AspectRatio(x) => number_text(v) == Some(x),
        DeclView::ColGap(x) => len_text(v) == Some(x),
        DeclView::RowGap(x) => len_text(v) == Some(x),
        DeclView::Gap(a, b) => gap_text(v) == Some((a, b)),
        DeclView::UserSelect(x) => user_select_of(v) == Some(x),
        DeclView::NoneValue => false,
    }
}

/// A declaration holds what its value text reads as: each kind of declaration
/// reads its value with its own reader (a keyword, a length, a color, a
/// number), whatever the property.
pub proof fn law_declaration_value(k: Seq<char>, v: Seq<char>)
    ensures
        decl_text(k, v) matches Some(d) ==> value_read(d, v),
{
    lemma_group_0_values(k, v);
    lemma_group_1_values(k, v);
    lemma_group_2_values(k, v);
    lemma_group_3_values(k, v);
    lemma_group_4_values(k, v);
    lemma_group_5_values(k, v);
}

proof fn lemma_group_0_values(k: Seq<char>, v: Seq<char>)
    ensures
        decl_group_0(k, v) matches Some(Some(d)) ==> value_read(d, v),
{
}

proof fn lemma_group_1_values(k: Seq<char>, v: Seq<char>)
    ensures
        decl_group_1(k, v) matches Some(Some(d)) ==> value_read(d, v),
{
}

proof fn lemma_group_2_values(k: Seq<char>, v: Seq<char>)
    ensures
        decl_group_2(k, v) matches Some(Some(d)) ==> value_read(d, v),
{
}

proof fn lemma_group_3_values(k: Seq<char>, v: Seq<char>)
    ensures
        decl_group_3(k, v) matches Some(Some(d)) ==> value_read(d, v),
{
}

proof fn lemma_group_4_values(k: Seq<char>, v: Seq<char>)
    ensures
        decl_group_4(k, v) matches Some(Some(d)) ==> value_read(d, v),
{
}

proof fn lemma_group_5_values(k: Seq<char>, v: Seq<char>)
    ensures
        decl_group_5(k, v) matches Some(Some(d)) ==> value_read(d, v),
{
}

pub open spec fn opt_decl(r: Option<Declaration>) -> Option<DeclView> {
    match r {
        Some(d) => Some(d@),
        None => None,
    }
}

fn decl_group_0_exec(k: &str, v: &str) -> (r: Option<Option<Declaration>>)
    requires
        decl_safe(k@, v@),
    ensures
        match r {
            Some(d) => decl_group_0(k@, v@) == Some(opt_decl(d)),
            None => decl_group_0(k@, v@) is None,
        },
{
    if str_is(k, "display") {
        return Some(
            match parse_display(v) {
                Some(x) => Some(Declaration::Display(x)),
                None => None,
            },
        );
    }
    if str_is(k, "position") {
        return Some(
            match parse_position(v) {
                Some(x) => Some(Declaration::Position(x)),
                None => None,
            },
        );
    }
    if str_is(k, "width") {
        return Some(
            match parse_pxpctauto(v) {
                Some(x) => Some(Declaration::Width(x)),
                None => None,
            },
        );
    }
    if str_is(k, "height") {
        return Some(
            match parse_pxpctauto(v) {
                Some(x) => Some(Declaration::Height(x)),
                None => None,
            },
        );
    }
    if str_is(k, "min-width") {
        return Some(
            match parse_pxpctauto(v) {
                Some(x) => Some(Declaration::MinWidth(x)),
                None => None,
            },
        );
    }
    if str_is(k, "min-height") {
        return Some(
            match parse_pxpctauto(v) {
                Some(x) => Some(Declaration::MinHeight(x)),
                None => None,
            },
        );
    }
    if str_is(k, "max-width") {
        return Some(
            match parse_pxpctauto(v) {
                Some(x) => Some(Declaration::MaxWidth(x)),
                None => None,
            },
        );
    }
    if str_is(k, "max-height") {
        return Some(
            match parse_pxpctauto(v) {
                Some(x) => Some(Declaration::MaxHeight(x)),
                None => None,
            },
        );
    }
    if str_is(k, "flex-direction") {
        return Some(
            match parse_flex_direction(v) {
                Some(x) => Some(Declaration::FlexDirection(x)),
                None => None,
            },
        );
    }
    if str_is(k, "flex-wrap") {
        return Some(
            match parse_flex_wrap(v) {
                Some(x) => Some(Declaration::FlexWrap(x)),
                None => None,
            },
        );
    }
    None
}

fn decl_group_1_exec(k: &str, v: &str) -> (r: Option<Option<Declaration>>)
    requires
        decl_safe(k@, v@),
    ensures
        match r {
            Some(d) => decl_group_1(k@, v@) == Some(opt_decl(d)),
            None => decl_group_1(k@, v@) is None,
        },
{
    if str_is(k, "flex-grow") {
        return Some(
            match parse_f32(v) {
                Some(x) => Some(Declaration::FlexGrow(x)),
                None => None,
            },
        );
    }
    if str_is(k, "flex-shrink") {
        return Some(
            match parse_f32(v) {
                Some(x) => Some(Declaration::FlexShrink(x)),
                None => None,
            },
        );
    }
    if str_is(k, "flex-basis") {
        return Some(
            match parse_pxpctauto(v) {
                Some(x) => Some(Declaration::FlexBasis(x)),
                None => None,
            },
        );
    }
    if str_is(k, "justify-content") {
        return Some(
            match parse_justify_content(v) {
                Some(x) => Some(Declaration::JustifyContent(x)),
                None => None,
            },
        );
    }
    if str_is(k, "justify-self") {
        return Some(
            match parse_align_items(v) {
                Some(x) => Some(Declaration::JustifySelf(x)),
                None => None,
            },
        );
    }
    if str_is(k, "align-items") {
        return Some(
            match parse_align_items(v) {
                Some(x) => Some(Declaration::AlignItems(x)),
                None => None,
            },
        );
    }
    if str_is(k, "align-content") {
        return Some(
            match parse_align_content(v) {
                Some(x) => Some(Declaration::AlignContent(x)),
                None => None,
            },
        );
    }
    if str_is(k, "align-self") {
        return Some(
            match parse_align_items(v) {
                Some(x) => Some(Declaration::AlignSelf(x)),
                None => None,
            },
        );
    }
    if str_is(k, "border") {
        return Some(
            match parse_border(v) {
                Some(x) => Some(Declaration::Border(x)),
                None => None,
            },
        );
    }
    if str_is(k, "border-width") {
        return Some(
            match parse_px(v) {
                Some(x) => Some(Declaration::BorderWidth(x)),
                None => None,
            },
        );
    }
    None
}

fn decl_group_2_exec(k: &str, v: &str) -> (r: Option<Option<Declaration>>)
    requires
        decl_safe(k@, v@),
    ensures
        match r {
            Some(d) => decl_group_2(k@, v@) == Some(opt_decl(d)),
            None => decl_group_2(k@, v@) is None,
        },
{
    if str_is(k, "border-left") {
        return Some(
            match parse_px(v) {
                Some(x) => Some(Declaration::BorderLeft(x)),
                None => None,
            },
        );
    }
    if str_is(k, "border-top") {
        return Some(
            match parse_px(v) {
                Some(x) => Some(Declaration::BorderTop(x)),
                None => None,
            },
        );
    }
    if str_is(k, "border-right") {
        return Some(
            match parse_px(v) {
                Some(x) => Some(Declaration::BorderRight(x)),
                None => None,
            },
        );
    }
    if str_is(k, "border-bottom") {
        return Some(
            match parse_px(v) {
                Some(x) => Some(Declaration::BorderBottom(x)),
                None => None,
            },
        );
    }
    if str_is(k, "border-radius") {
        return Some(
            match parse_px_pct(v) {
                Some(x) => Some(Declaration::BorderRadius(x)),
                None => None,
            },
        );
    }
    if str_is(k, "outline-color") {
        return Some(
            match parse_color(v) {
                Some(x) => Some(Declaration::OutlineColor(x)),
                None => None,
            },
        );
    }
    if str_is(k, "outline") {
        return Some(
            match parse_px(v) {
                Some(x) => Some(Declaration::Outline(x)),
                None => None,
            },
        );
    }
    if str_is(k, "border-color") {
        return Some(
            match parse_color(v) {
                Some(x) => Some(Declaration::BorderColor(x)),
                None => None,
            },
        );
    }
    if str_is(k, "padding") {
        return Some(
            match parse_px_pct(v) {
                Some(x) => Some(Declaration::Padding(x)),
                None => None,
            },
        );
    }
    if str_is(k, "padding-left") {
        return Some(
            match parse_px_pct(v) {
                Some(x) => Some(Declaration::PaddingLeft(x)),
                None => None,
            },
        );
    }
    None
}

fn decl_group_3_exec(k: &str, v: &str) -> (r: Option<Option<Declaration>>)
    requires
        decl_safe(k@, v@),
    ensures
        match r {
            Some(d) => decl_group_3(k@, v@) == Some(opt_decl(d)),
            None => decl_group_3(k@, v@) is None,
        },
{
    if str_is(k, "padding-top") {
        return Some(
            match parse_px_pct(v) {
                Some(x) => Some(Declaration::PaddingTop(x)),
                None => None,
            },
        );
    }
    if str_is(k, "padding-right") {
        return Some(
            match parse_px_pct(v) {
                Some(x) => Some(Declaration::PaddingRight(x)),
                None => None,
            },
        );
    }
    if str_is(k, "padding-bottom") {
        return Some(
            match parse_px_pct(v) {
                Some(x) => Some(Declaration::PaddingBottom(x)),
                None => None,
            },
        );
    }
    if str_is(k, "margin") {
        return Some(
            match parse_pxpctauto(v) {
                Some(x) => Some(Declaration::Margin(x)),
                None => None,
            },
        );
    }
    if str_is(k, "margin-left") {
        return Some(
            match parse_pxpctauto(v) {
                Some(x) => Some(Declaration::MarginLeft(x)),
                None => None,
            },
        );
    }
    if str_is(k, "margin-top") {
        return Some(
            match parse_pxpctauto(v) {
                Some(x) => Some(Declaration::MarginTop(x)),
                None => None,
            },
        );
    }
    if str_is(k, "margin-right") {
        return Some(
            match parse_pxpctauto(v) {
                Some(x) => Some(Declaration::MarginRight(x)),
                None => None,
            },
        );
    }
    if str_is(k, "margin-bottom") {
        return Some(
            match parse_pxpctauto(v) {
                Some(x) => Some(Declaration::MarginBottom(x)),
                None => None,
            },
        );
    }
    if str_is(k, "left") {
        return Some(
            match parse_pxpctauto(v) {
                Some(x) => Some(Declaration::InsetLeft(x)),
                None => None,
            },
        );
    }
    if str_is(k, "top") {
        return Some(
            match parse_pxpctauto(v) {
                Some(x) => Some(Declaration::InsetTop(x)),
                None => None,
            },
        );
    }
    None
}

fn decl_group_4_exec(k: &str, v: &str) -> (r: Option<Option<Declaration>>)
    requires
        decl_safe(k@, v@),
    ensures
        match r {
            Some(d) => decl_group_4(k@, v@) == Some(opt_decl(d)),
            None => decl_group_4(k@, v@) is None,
        },
{
    if str_is(k, "right") {
        return Some(
            match parse_pxpctauto(v) {
                Some(x) => Some(Declaration::InsetRight(x)),
                None => None,
            },
        );
    }
    if str_is(k, "bottom") {
        return Some(
            match parse_pxpctauto(v) {
                Some(x) => Some(Declaration::InsetBottom(x)),
                None => None,
            },
        );
    }
    if str_is(k, "z-index") {
        return Some(
            match parse_i32(v) {
                Some(x) => Some(Declaration::ZIndex(x)),
                None => None,
            },
        );
    }
    if str_is(k, "cursor") {
        return Some(
            match parse_cursor_style(v) {
                Some(x) => Some(Declaration::Cursor(x)),
                None => None,
            },
        );
    }
    if str_is(k, "color") {
        return Some(
            match parse_color(v) {
                Some(x) => Some(Declaration::Color(x)),
                None => None,
            },
        );
    }
    if str_is(k, "background-color") {
        return Some(
            match parse_color(v) {
                Some(x) => Some(Declaration::BackgroundColor(x)),
                None => None,
            },
        );
    }
    if str_is(k, "box-shadow") {
        return Some(
            match parse_box_shadow(v) {
                Some(x) => Some(Declaration::BoxShadow(x)),
                None => None,
            },
        );
    }
    if str_is(k, "font-size") {
        return Some(
            match parse_px(v) {
                Some(x) => Some(Declaration::FontSize(x)),
                None => None,
            },
        );
    }
    if str_is(k, "font-family") {
        return Some(
            match to_owned(v) {
                Some(x) => Some(Declaration::FontFamily(x)),
                None => None,
            },
        );
    }
    if str_is(k, "font-weight") {
        return Some(
            match parse_font_weight(v) {
                Some(x) => Some(Declaration::FontWeight(x)),
                None => None,
            },
        );
    }
    None
}

fn decl_group_5_exec(k: &str, v: &str) -> (r: Option<Option<Declaration>>)
    requires
        decl_safe(k@, v@),
    ensures
        match r {
            Some(d) => decl_group_5(k@, v@) == Some(opt_decl(d)),
            None => decl_group_5(k@, v@) is None,
        },
{
    if str_is(k, "font-style") {
        return Some(
            match parse_font_style(v) {
                Some(x) => Some(Declaration::FontStyle(x)),
                None => None,
            },
        );
    }
    if str_is(k, "caret-color") {
        return Some(
            match parse_color(v) {
                Some(x) => Some(Declaration::CursorColor(x)),
                None => None,
            },
        );
    }
    if str_is(k, "text-wrap") {
        return Some(
            match parse_text_overflow(v) {
                Some(x) => Some(Declaration::TextWrap(x)),
                None => None,
            },
        );
    }
    if str_is(k, "line-height") {
        return Some(
            match parse_f32(v) {
                Some(x) => Some(Declaration::LineHeight(x)),
                None => None,
            },
        );
    }
    if str_is(k, "aspect-ratio") {
        return Some(
            match parse_f32(v) {
                Some(x) => Some(Declaration::AspectRatio(x)),
                None => None,
            },
        );
    }
    if str_is(k, "column-gap") {
        return Some(
            match parse_px_pct(v) {
                Some(x) => Some(Declaration::ColGap(x)),
                None => None,
            },
        );
    }
    if str_is(k, "row-gap") {
        return Some(
            match parse_px_pct(v) {
                Some(x) => Some(Declaration::RowGap(x)),
                None => None,
            },
        );
    }
    if str_is(k, "gap") {
        return Some(
            match parse_gap(v) {
                Some(x) => Some(Declaration::Gap(x)),
                None => None,
            },
        );
    }
    if str_is(k, "user-select") {
        return Some(
            match parse_user_select(v) {
                Some(x) => Some(Declaration::UserSelect(x)),
                None => None,
            },
        );
    }
    None
}

pub(crate) fn decl_from(k: &str, v: &str) -> (r: Option<Declaration>)
    requires
        decl_safe(k@, v@),
    ensures
        opt_decl(r) == decl_text(k@, v@),
{
    if let Some(d) = decl_group_0_exec(k, v) {
        return d;
    }
    if let Some(d) = decl_group_1_exec(k, v) {
        return d;
    }
    if let Some(d) = decl_group_2_exec(k, v) {
        return d;
    }
    if let Some(d) = decl_group_3_exec(k, v) {
        return d;
    }
    if let Some(d) = decl_group_4_exec(k, v) {
        return d;
    }
    if let Some(d) = decl_group_5_exec(k, v) {
        return d;
    }
    None
}

impl Declaration {
    /// The declaration for a (property, value) pair; `None` where the property
    /// is unknown or the value is rejected.
    pub fn from_cow(pair: (&Cow<'_, str>, &Cow<'_, str>)) -> (r: Option<Self>)
        requires
            decl_safe(pair.0@, pair.1@),
        ensures
            opt_decl(r) == decl_text(pair.0@, pair.1@),
    {
        decl_from(cow_str(pair.0), cow_str(pair.1))
    }

    /// The number of this declaration's kind, as `decl_kind` gives it.
    pub fn kind(&self) -> (r: u8)
        ensures
            r == decl_kind(self@),
    {
        match self {
            Declaration::NoneValue => 0,
            Declaration::Display(..) => 1,
            Declaration::Position(..) => 2,
            Declaration::Width(..) => 3,
            Declaration::Height(..) => 4,
            Declaration::MinWidth(..) => 5,
            Declaration::MinHeight(..) => 6,
            Declaration::MaxWidth(..) => 7,
            Declaration::MaxHeight(..) => 8,
            Declaration::FlexDirection(..) => 9,
            Declaration::FlexWrap(..) => 10,
            Declaration::FlexGrow(..) => 11,
            Declaration::FlexShrink(..) => 12,
            Declaration::FlexBasis(..) => 13,
            Declaration::JustifyContent(..) => 14,
            Declaration::JustifySelf(..) => 15,
            Declaration::AlignItems(..) => 16,
            Declaration::AlignContent(..) => 17,
            Declaration::AlignSelf(..) => 18,
            Declaration::Border(..) => 19,
            Declaration::BorderWidth(..) => 20,
            Declaration::BorderLeft(..) => 21,
            Declaration::BorderTop(..) => 22,
            Declaration::BorderRight(..) => 23,
            Declaration::BorderBottom(..) => 24,
            Declaration::BorderRadius(..) => 25,
            Declaration::OutlineColor(..) => 26,
            Declaration::Outline(..) => 27,
            Declaration::BorderColor(..) => 28,
            Declaration::Padding(..) => 29,
            Declaration::PaddingLeft(..) => 30,
            Declaration::PaddingTop(..) => 31,
            Declaration::PaddingRight(..) => 32,
            Declaration::PaddingBottom(..) => 33,
            Declaration::Margin(..) => 34,
            Declaration::MarginLeft(..) => 35,
            Declaration::MarginTop(..) => 36,
            Declaration::MarginRight(..) => 37,
            Declaration::MarginBottom(..) => 38,
            Declaration::InsetLeft(..) => 39,
            Declaration::InsetTop(..) => 40,
            Declaration::InsetRight(..) => 41,
            Declaration::InsetBottom(..) => 42,
            Declaration::ZIndex(..) => 43,
            Declaration::Cursor(..) => 44,
            Declaration::Color(..) => 45,
            Declaration::BackgroundColor(..) => 46,
            Declaration::BoxShadow(..) => 47,
            Declaration::FontSize(..) => 48,
            Declaration::FontFamily(..) => 49,
            Declaration::FontWeight(..) => 50,
            Declaration::FontStyle(..) => 51,
            Declaration::CursorColor(..) => 52,
            Declaration::TextWrap(..) => 53,
            Declaration::LineHeight(..) => 54,
            Declaration::AspectRatio(..) => 55,
            Declaration::ColGap(..) => 56,
            Declaration::RowGap(..) => 57,
            Declaration::Gap(..) => 58,
            Declaration::UserSelect(..) => 59,
        }
    }
}

fn copy_px_pct_auto(p: &PxPctAuto) -> (r: PxPctAuto)
    ensures
        r@ == p@,
{
    match p {
        PxPctAuto::Px(n) => PxPctAuto::Px(copy_number(n)),
        PxPctAuto::Pct(n) => PxPctAuto::Pct(copy_number(n)),
        PxPctAuto::Em(n) => PxPctAuto::Em(copy_number(n)),
        PxPctAuto::Rem(n) => PxPctAuto::Rem(copy_number(n)),
        PxPctAuto::Vw(n) => PxPctAuto::Vw(copy_number(n)),
        PxPctAuto::Vh(n) => PxPctAuto::Vh(copy_number(n)),
        PxPctAuto::Vmin(n) => PxPctAuto::Vmin(copy_number(n)),
        PxPctAuto::Vmax(n) => PxPctAuto::Vmax(copy_number(n)),
        PxPctAuto::Calc(c) => PxPctAuto::Calc(Box::new(crate::units::copy_calc(c))),
        PxPctAuto::Min(v) => PxPctAuto::Min(crate::units::copy_px_pcts(v)),
        PxPctAuto::Max(v) => PxPctAuto::Max(crate::units::copy_px_pcts(v)),
        PxPctAuto::Auto => PxPctAuto::Auto,
        PxPctAuto::Zero => PxPctAuto::Zero,
    }
}

fn copy_opt_px_pct(p: &Option<PxPct>) -> (r: Option<PxPct>)
    ensures
        opt_len(r) == opt_len(*p),
{
    match p {
        Some(x) => Some(copy_px_pct(x)),
        None => None,
    }
}

impl Clone for Declaration {
    fn clone(&self) -> (r: Self)
        ensures
            r@ == self@,
    {
        copy_decl(self)
    }
}

/// A copy of a declaration, with the same content.
pub fn copy_decl(d: &Declaration) -> (r: Declaration)
    ensures
        r@ == d@,
{
    match d {
        Declaration::NoneValue => Declaration::NoneValue,
        Declaration::Display(x) => Declaration::Display(*x),
        Declaration::Position(x) => Declaration::Position(*x),
        Declaration::Width(x) => Declaration::Width(copy_px_pct_auto(x)),
        Declaration::Height(x) => Declaration::Height(copy_px_pct_auto(x)),
        Declaration::MinWidth(x) => Declaration::MinWidth(copy_px_pct_auto(x)),
        Declaration::MinHeight(x) => Declaration::MinHeight(copy_px_pct_auto(x)),
        Declaration::MaxWidth(x) => Declaration::MaxWidth(copy_px_pct_auto(x)),
        Declaration::MaxHeight(x) => Declaration::MaxHeight(copy_px_pct_auto(x)),
        Declaration::FlexDirection(x) => Declaration::FlexDirection(*x),
        Declaration::FlexWrap(x) => Declaration::FlexWrap(*x),
        Declaration::FlexGrow(x) => Declaration::FlexGrow(copy_number(x)),
        Declaration::FlexShrink(x) => Declaration::FlexShrink(copy_number(x)),
        Declaration::FlexBasis(x) => Declaration::FlexBasis(copy_px_pct_auto(x)),
        Declaration::JustifyContent(x) => Declaration::JustifyContent(*x),
        Declaration::JustifySelf(x) => Declaration::JustifySelf(*x),
        Declaration::AlignItems(x) => Declaration::AlignItems(*x),
        Declaration::AlignContent(x) => Declaration::AlignContent(*x),
        Declaration::AlignSelf(x) => Declaration::AlignSelf(*x),
        Declaration::Border(x) => Declaration::Border(BorderDef { width: copy_opt_px_pct(&x.width), color: x.color }),
        Declaration::BorderWidth(x) => Declaration::BorderWidth(Px(copy_number(&x.0))),
        Declaration::BorderLeft(x) => Declaration::BorderLeft(Px(copy_number(&x.0))),
        Declaration::BorderTop(x) => Declaration::BorderTop(Px(copy_number(&x.0))),
        Declaration::BorderRight(x) => Declaration::BorderRight(Px(copy_number(&x.0))),
        Declaration::BorderBottom(x) => Declaration::BorderBottom(Px(copy_number(&x.0))),
        Declaration::BorderRadius(x) => Declaration::BorderRadius(copy_px_pct(x)),
        Declaration::OutlineColor(x) => Declaration::OutlineColor(*x),
        Declaration::Outline(x) => Declaration::Outline(Px(copy_number(&x.0))),
        Declaration::BorderColor(x) => Declaration::BorderColor(*x),
        Declaration::Padding(x) => Declaration::Padding(copy_px_pct(x)),
        Declaration::PaddingLeft(x) => Declaration::PaddingLeft(copy_px_pct(x)),
        Declaration::PaddingTop(x) => Declaration::PaddingTop(copy_px_pct(x)),
        Declaration::PaddingRight(x) => Declaration::PaddingRight(copy_px_pct(x)),
        Declaration::PaddingBottom(x) => Declaration::PaddingBottom(copy_px_pct(x)),
        Declaration::Margin(x) => Declaration::Margin(copy_px_pct_auto(x)),
        Declaration::MarginLeft(x) => Declaration::MarginLeft(copy_px_pct_auto(x)),
        Declaration::MarginTop(x) => Declaration::MarginTop(copy_px_pct_auto(x)),
        Declaration::MarginRight(x) => Declaration::MarginRight(copy_px_pct_auto(x)),
        Declaration::MarginBottom(x) => Declaration::MarginBottom(copy_px_pct_auto(x)),
        Declaration::InsetLeft(x) => Declaration::InsetLeft(copy_px_pct_auto(x)),
        Declaration::InsetTop(x) => Declaration::InsetTop(copy_px_pct_auto(x)),
        Declaration::InsetRight(x) => Declaration::InsetRight(copy_px_pct_auto(x)),
        Declaration::InsetBottom(x) => Declaration::InsetBottom(copy_px_pct_auto(x)),
        Declaration::ZIndex(x) => Declaration::ZIndex(*x),
        Declaration::Cursor(x) => Declaration::Cursor(*x),
        Declaration::Color(x) => Declaration::Color(*x),
        Declaration::BackgroundColor(x) => Declaration::BackgroundColor(*x),
        Declaration::BoxShadow(x) => Declaration::BoxShadow(BoxShadow { blur_radius: copy_px_pct(&x.blur_radius), color: x.color, spread: copy_px_pct(&x.spread), h_offset: copy_px_pct(&x.h_offset), v_offset: copy_px_pct(&x.v_offset) }),
        Declaration::FontSize(x) => Declaration::FontSize(Px(copy_number(&x.0))),
        Declaration::FontFamily(x) => Declaration::FontFamily(x.clone()),
        Declaration::FontWeight(x) => Declaration::FontWeight(*x),
        Declaration::FontStyle(x) => Declaration::FontStyle(*x),
        Declaration::CursorColor(x) => Declaration::CursorColor(*x),
        Declaration::TextWrap(x) => Declaration::TextWrap(*x),
        Declaration::LineHeight(x) => Declaration::LineHeight(copy_number(x)),
        Declaration::AspectRatio(x) => Declaration::AspectRatio(copy_number(x)),
        Declaration::ColGap(x) => Declaration::ColGap(copy_px_pct(x)),
        Declaration::RowGap(x) => Declaration::RowGap(copy_px_pct(x)),
        Declaration::Gap(x) => Declaration::Gap((copy_px_pct(&x.0), copy_opt_px_pct(&x.1))),
        Declaration::UserSelect(x) => Declaration::UserSelect(*x),
    }
}

/// Whether a (property, value) pair can be read without a panic (see
/// `decl_safe`).
pub fn is_decl_safe(k: &str, v: &str) -> (r: bool)
    ensures
        r == decl_safe(k@, v@),
{
    if v.unicode_len() >= 0x4000_0000 {
        return false;
    }
    if str_is(k, "box-shadow") {
        let cs = crate::text::chars_of(v);
        return crate::shorthand::is_shadow_safe(cs.as_slice());
    }
    true
}

/// A copy of a list of declarations.
pub fn copy_decls(v: &Vec<Declaration>) -> (r: Vec<Declaration>)
    ensures
        r@.len() == v@.len(),
        forall|i: int| 0 <= i < v@.len() ==> (#[trigger] r@[i])@ == v@[i]@,
{
    let mut r: Vec<Declaration> = Vec::new();
    let mut i: usize = 0;
    while i < v.len()
        invariant
            i <= v@.len(),
            r@.len() == i,
            forall|j: int| 0 <= j < i ==> (#[trigger] r@[j])@ == v@[j]@,
        decreases v@.len() - i,
    {
        r.push(copy_decl(&v[i]));
        i = i + 1;
    }
    r
}

} // verus!
