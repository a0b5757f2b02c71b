//! Parsers for the values of CSS declarations.
use vstd::prelude::*;
use vstd::slice::slice_subrange;

use crate::color::{css_color, parse_css_color};
use crate::lexer::str_is;
use crate::text::{
    chars_of, float_literal, is_float_literal, parse_i32_chars, parse_signed, parse_u32_chars,
    parse_unsigned, slice_strip_prefix, slice_strip_suffix, split_whitespace, string_from_chars,
    strip_prefix, strip_suffix, trim, trim_end, trim_end_slice, trim_slice, words,
};
use crate::units::{
    AlignContent, AlignItems, BackgroundRepeat, BoxSizing, CursorIcon, Display, FlexDirection,
    FlexWrap, GridPlacement, JustifyContent, Number, ObjectFit, OverflowAxes, OverflowAxis,
    PointerEvents, Position, Px, Pct, TextAlign, TextOverflow, TextStyle, TextTransform,
    Visibility, Weight, WhiteSpace, WordBreak,
};

verus! {

broadcast use vstd::seq_lib::group_seq_properties;

/// The `display` keyword that `s` is.
pub open spec fn display_of(s: Seq<char>) -> Option<Display> {
    if s == "block"@ {
        Some(Display::Block)
    } else if s == "flex"@ {
        Some(Display::Flex)
    } else if s == "grid"@ {
        Some(Display::Grid)
    } else if s == "none"@ {
        Some(Display::NoneValue)
    } else {
        None
    }
}

pub fn parse_display(s: &str) -> (r: Option<Display>)
    ensures
        r == display_of(s@),
{
    if str_is(s, "block") {
        Some(Display::Block)
    } else if str_is(s, "flex") {
        Some(Display::Flex)
    } else if str_is(s, "grid") {
        Some(Display::Grid)
    } else if str_is(s, "none") {
        Some(Display::NoneValue)
    } else {
        None
    }
}

/// The `justify-content` keyword that `s` is.
pub open spec fn justify_content_of(s: Seq<char>) -> Option<JustifyContent> {
    if s == "start"@ {
        Some(JustifyContent::Start)
    } else if s == "end"@ {
        Some(JustifyContent::End)
    } else if s == "flex-start"@ {
        Some(JustifyContent::FlexStart)
    } else if s == "flex-end"@ {
        Some(JustifyContent::FlexEnd)
    } else if s == "center"@ {
        Some(JustifyContent::Center)
    } else if s == "stretch"@ {
        Some(JustifyContent::Stretch)
    } else if s == "space-between"@ {
        Some(JustifyContent::SpaceBetween)
    } else if s == "space-evenly"@ {
        Some(JustifyContent::SpaceEvenly)
    } else if s == "space-around"@ {
        Some(JustifyContent::SpaceAround)
    } else {
        None
    }
}

pub fn parse_justify_content(s: &str) -> (r: Option<JustifyContent>)
    ensures
        r == justify_content_of(s@),
{
    if str_is(s, "start") {
        Some(JustifyContent::Start)
    } else if str_is(s, "end") {
        Some(JustifyContent::End)
    } else if str_is(s, "flex-start") {
        Some(JustifyContent::FlexStart)
    } else if str_is(s, "flex-end") {
        Some(JustifyContent::FlexEnd)
    } else if str_is(s, "center") {
        Some(JustifyContent::Center)
    } else if str_is(s, "stretch") {
        Some(JustifyContent::Stretch)
    } else if str_is(s, "space-between") {
        Some(JustifyContent::SpaceBetween)
    } else if str_is(s, "space-evenly") {
        Some(JustifyContent::SpaceEvenly)
    } else if str_is(s, "space-around") {
        Some(JustifyContent::SpaceAround)
    } else {
        None
    }
}

/// The `align-items` keyword that `s` is.
pub open spec fn align_items_of(s: Seq<char>) -> Option<AlignItems> {
    if s == "center"@ {
        Some(AlignItems::Center)
    } else if s == "start"@ {
        Some(AlignItems::Start)
    } else if s == "end"@ {
        Some(AlignItems::End)
    } else if s == "flex-start"@ {
        Some(AlignItems::FlexStart)
    } else if s == "flex-end"@ {
        Some(AlignItems::FlexEnd)
    } else if s == "baseline"@ {
        Some(AlignItems::Baseline)
    } else if s == "stretch"@ {
        Some(AlignItems::Stretch)
    } else {
        None
    }
}

pub fn parse_align_items(s: &str) -> (r: Option<AlignItems>)
    ensures
        r == align_items_of(s@),
{
    if str_is(s, "center") {
        Some(AlignItems::Center)
    } else if str_is(s, "start") {
        Some(AlignItems::Start)
    } else if str_is(s, "end") {
        Some(AlignItems::End)
    } else if str_is(s, "flex-start") {
        Some(AlignItems::FlexStart)
    } else if str_is(s, "flex-end") {
        Some(AlignItems::FlexEnd)
    } else if str_is(s, "baseline") {
        Some(AlignItems::Baseline)
    } else if str_is(s, "stretch") {
        Some(AlignItems::Stretch)
    } else {
        None
    }
}

/// The `align-content` keyword that `s` is.
pub open spec fn align_content_of(s: Seq<char>) -> Option<AlignContent> {
    if s == "center"@ {
        Some(AlignContent::Center)
    } else if s == "start"@ {
        Some(AlignContent::Start)
    } else if s == "end"@ {
        Some(AlignContent::End)
    } else if s == "flex-start"@ {
        Some(AlignContent::FlexStart)
    } else if s == "flex-end"@ {
        Some(AlignContent::FlexEnd)
    } else if s == "stretch"@ {
        Some(AlignContent::Stretch)
    } else if s == "space-between"@ {
        Some(AlignContent::SpaceBetween)
    } else if s == "space-evenly"@ {
        Some(AlignContent::SpaceEvenly)
    } else if s == "space-around"@ {
        Some(AlignContent::SpaceAround)
    } else {
        None
    }
}

pub fn parse_align_content(s: &str) -> (r: Option<AlignContent>)
    ensures
        r == align_content_of(s@),
{
    if str_is(s, "center") {
        Some(AlignContent::Center)
    } else if str_is(s, "start") {
        Some(AlignContent::Start)
    } else if str_is(s, "end") {
        Some(AlignContent::End)
    } else if str_is(s, "flex-start") {
        Some(AlignContent::FlexStart)
    } else if str_is(s, "flex-end") {
        Some(AlignContent::FlexEnd)
    } else if str_is(s, "stretch") {
        Some(AlignContent::Stretch)
    } else if str_is(s, "space-between") {
        Some(AlignContent::SpaceBetween)
    } else if str_is(s, "space-evenly") {
        Some(AlignContent::SpaceEvenly)
    } else if str_is(s, "space-around") {
        Some(AlignContent::SpaceAround)
    } else {
        None
    }
}

/// The `position` keyword that `s` is.
pub open spec fn position_of(s: Seq<char>) -> Option<Position> {
    if s == "absolute"@ {
        Some(Position::Absolute)
    } else if s == "relative"@ {
        Some(Position::Relative)
    } else {
        None
    }
}

pub fn parse_position(s: &str) -> (r: Option<Position>)
    ensures
        r == position_of(s@),
{
    if str_is(s, "absolute") {
        Some(Position::Absolute)
    } else if str_is(s, "relative") {
        Some(Position::Relative)
    } else {
        None
    }
}

/// The `flex-direction` keyword that `s` is.
pub open spec fn flex_direction_of(s: Seq<char>) -> Option<FlexDirection> {
    if s == "row"@ {
        Some(FlexDirection::Row)
    } else if s == "column"@ {
        Some(FlexDirection::Column)
    } else if s == "row-reverse"@ {
        Some(FlexDirection::RowReverse)
    } else if s == "column-reverse"@ {
        Some(FlexDirection::ColumnReverse)
    } else {
        None
    }
}

pub fn parse_flex_direction(s: &str) -> (r: Option<FlexDirection>)
    ensures
        r == flex_direction_of(s@),
{
    if str_is(s, "row") {
        Some(FlexDirection::Row)
    } else if str_is(s, "column") {
        Some(FlexDirection::Column)
    } else if str_is(s, "row-reverse") {
        Some(FlexDirection::RowReverse)
    } else if str_is(s, "column-reverse") {
        Some(FlexDirection::ColumnReverse)
    } else {
        None
    }
}

/// The `flex-wrap` keyword that `s` is.
pub open spec fn flex_wrap_of(s: Seq<char>) -> Option<FlexWrap> {
    if s == "wrap"@ {
        Some(FlexWrap::Wrap)
    } else if s == "no-wrap"@ {
        Some(FlexWrap::NoWrap)
    } else if s == "wrap-reverse"@ {
        Some(FlexWrap::WrapReverse)
    } else {
        None
    }
}

pub fn parse_flex_wrap(s: &str) -> (r: Option<FlexWrap>)
    ensures
        r == flex_wrap_of(s@),
{
    if str_is(s, "wrap") {
        Some(FlexWrap::Wrap)
    } else if str_is(s, "no-wrap") {
        Some(FlexWrap::NoWrap)
    } else if str_is(s, "wrap-reverse") {
        Some(FlexWrap::WrapReverse)
    } else {
        None
    }
}

/// The `cursor-style` keyword that `s` is.
pub open spec fn cursor_style_of(s: Seq<char>) -> Option<CursorIcon> {
    if s == "default"@ {
        Some(CursorIcon::Default)
    } else if s == "pointer"@ {
        Some(CursorIcon::PointingHand)
    } else if s == "text"@ {
        Some(CursorIcon::Text)
    } else if s == "col-resize"@ {
        Some(CursorIcon::ResizeColumn)
    } else if s == "row-resize"@ {
        Some(CursorIcon::ResizeRow)
    } else if s == "w-resize"@ {
        Some(CursorIcon::ResizeWest)
    } else if s == "e-resize"@ {
        Some(CursorIcon::ResizeEast)
    } else if s == "s-resize"@ {
        Some(CursorIcon::ResizeSouth)
    } else if s == "n-resize"@ {
        Some(CursorIcon::ResizeNorth)
    } else if s == "nw-resize"@ {
        Some(CursorIcon::ResizeNorthWest)
    } else if s == "ne-resize"@ {
        Some(CursorIcon::ResizeNorthEast)
    } else if s == "sw-resize"@ {
        Some(CursorIcon::ResizeSouthWest)
    } else if s == "se-resize"@ {
        Some(CursorIcon::ResizeSouthEast)
    } else if s == "nesw-resize"@ {
        Some(CursorIcon::ResizeNeSw)
    } else if s == "nwse-resize"@ {
        Some(CursorIcon::ResizeNwSe)
    } else {
        None
    }
}

pub fn parse_cursor_style(s: &str) -> (r: Option<CursorIcon>)
    ensures
        r == cursor_style_of(s@),
{
    if str_is(s, "default") {
        Some(CursorIcon::Default)
    } else if str_is(s, "pointer") {
        Some(CursorIcon::PointingHand)
    } else if str_is(s, "text") {
        Some(CursorIcon::Text)
    } else if str_is(s, "col-resize") {
        Some(CursorIcon::ResizeColumn)
    } else if str_is(s, "row-resize") {
        Some(CursorIcon::ResizeRow)
    } else if str_is(s, "w-resize") {
        Some(CursorIcon::ResizeWest)
    } else if str_is(s, "e-resize") {
        Some(CursorIcon::ResizeEast)
    } else if str_is(s, "s-resize") {
        Some(CursorIcon::ResizeSouth)
    } else if str_is(s, "n-resize") {
        Some(CursorIcon::ResizeNorth)
    } else if str_is(s, "nw-resize") {
        Some(CursorIcon::ResizeNorthWest)
    } else if str_is(s, "ne-resize") {
        Some(CursorIcon::ResizeNorthEast)
    } else if str_is(s, "sw-resize") {
        Some(CursorIcon::ResizeSouthWest)
    } else if str_is(s, "se-resize") {
        Some(CursorIcon::ResizeSouthEast)
    } else if str_is(s, "nesw-resize") {
        Some(CursorIcon::ResizeNeSw)
    } else if str_is(s, "nwse-resize") {
        Some(CursorIcon::ResizeNwSe)
    } else {
        None
    }
}

/// The `font-weight` keyword that `s` is.
pub open spec fn font_weight_of(s: Seq<char>) -> Option<Weight> {
    if s == "100"@ || s == "thin"@ {
        Some(Weight(100))
    } else if s == "200"@ {
        Some(Weight(200))
    } else if s == "300"@ {
        Some(Weight(300))
    } else if s == "400"@ || s == "normal"@ {
        Some(Weight(400))
    } else if s == "500"@ {
        Some(Weight(500))
    } else if s == "600"@ {
        Some(Weight(600))
    } else if s == "700"@ || s == "bold"@ {
        Some(Weight(700))
    } else if s == "800"@ {
        Some(Weight(800))
    } else if s == "900"@ {
        Some(Weight(900))
    } else {
        None
    }
}

pub fn parse_font_weight(s: &str) -> (r: Option<Weight>)
    ensures
        r == font_weight_of(s@),
{
    if str_is(s, "100") || str_is(s, "thin") {
        Some(Weight(100))
    } else if str_is(s, "200") {
        Some(Weight(200))
    } else if str_is(s, "300") {
        Some(Weight(300))
    } else if str_is(s, "400") || str_is(s, "normal") {
        Some(Weight(400))
    } else if str_is(s, "500") {
        Some(Weight(500))
    } else if str_is(s, "600") {
        Some(Weight(600))
    } else if str_is(s, "700") || str_is(s, "bold") {
        Some(Weight(700))
    } else if str_is(s, "800") {
        Some(Weight(800))
    } else if str_is(s, "900") {
        Some(Weight(900))
    } else {
        None
    }
}

/// The `font-style` keyword that `s` is.
pub open spec fn font_style_of(s: Seq<char>) -> Option<TextStyle> {
    if s == "normal"@ {
        Some(TextStyle::Normal)
    } else if s == "italic"@ {
        Some(TextStyle::Italic)
    } else if s == "oblique"@ {
        Some(TextStyle::Oblique)
    } else {
        None
    }
}

pub fn parse_font_style(s: &str) -> (r: Option<TextStyle>)
    ensures
        r == font_style_of(s@),
{
    if str_is(s, "normal") {
        Some(TextStyle::Normal)
    } else if str_is(s, "italic") {
        Some(TextStyle::Italic)
    } else if str_is(s, "oblique") {
        Some(TextStyle::Oblique)
    } else {
        None
    }
}

/// The `text-overflow` keyword that `s` is.
pub open spec fn text_overflow_of(s: Seq<char>) -> Option<TextOverflow> {
    if s == "clip"@ {
        Some(TextOverflow::Clip)
    } else if s == "ellipsis"@ {
        Some(TextOverflow::Ellipsis)
    } else if s == "wrap"@ {
        Some(TextOverflow::Wrap)
    } else {
        None
    }
}

pub fn parse_text_overflow(s: &str) -> (r: Option<TextOverflow>)
    ensures
        r == text_overflow_of(s@),
{
    if str_is(s, "clip") {
        Some(TextOverflow::Clip)
    } else if str_is(s, "ellipsis") {
        Some(TextOverflow::Ellipsis)
    } else if str_is(s, "wrap") {
        Some(TextOverflow::Wrap)
    } else {
        None
    }
}

/// The `user-select` keyword that `s` is.
pub open spec fn user_select_of(s: Seq<char>) -> Option<bool> {
    if s == "none"@ {
        Some(false)
    } else if s == "auto"@ {
        Some(true)
    } else {
        None
    }
}

pub fn parse_user_select(s: &str) -> (r: Option<bool>)
    ensures
        r == user_select_of(s@),
{
    if str_is(s, "none") {
        Some(false)
    } else if str_is(s, "auto") {
        Some(true)
    } else {
        None
    }
}

/// The `visibility` keyword that `s` is.
pub open spec fn visibility_of(s: Seq<char>) -> Option<Visibility> {
    if s == "visible"@ {
        Some(Visibility::Visible)
    } else if s == "hidden"@ {
        Some(Visibility::Hidden)
    } else if s == "collapse"@ {
        Some(Visibility::Collapse)
    } else {
        None
    }
}

pub fn parse_visibility(s: &str) -> (r: Option<Visibility>)
    ensures
        r == visibility_of(s@),
{
    if str_is(s, "visible") {
        Some(Visibility::Visible)
    } else if str_is(s, "hidden") {
        Some(Visibility::Hidden)
    } else if str_is(s, "collapse") {
        Some(Visibility::Collapse)
    } else {
        None
    }
}

/// The `pointer-events` keyword that `s` is.
pub open spec fn pointer_events_of(s: Seq<char>) -> Option<PointerEvents> {
    if s == "none"@ {
        Some(PointerEvents::NoneValue)
    } else if s == "auto"@ {
        Some(PointerEvents::Auto)
    } else if s == "all"@ {
        Some(PointerEvents::All)
    } else {
        None
    }
}

pub fn parse_pointer_events(s: &str) -> (r: Option<PointerEvents>)
    ensures
        r == pointer_events_of(s@),
{
    if str_is(s, "none") {
        Some(PointerEvents::NoneValue)
    } else if str_is(s, "auto") {
        Some(PointerEvents::Auto)
    } else if str_is(s, "all") {
        Some(PointerEvents::All)
    } else {
        None
    }
}

/// The `overflow-axis` keyword that `s` is.
pub open spec fn overflow_axis_of(s: Seq<char>) -> Option<OverflowAxis> {
    if s == "visible"@ {
        Some(OverflowAxis::Visible)
    } else if s == "hidden"@ {
        Some(OverflowAxis::Hidden)
    } else if s == "scroll"@ {
        Some(OverflowAxis::Scroll)
    } else if s == "auto"@ {
        Some(OverflowAxis::Auto)
    } else if s == "clip"@ {
        Some(OverflowAxis::Clip)
    } else {
        None
    }
}

pub fn parse_overflow_axis(s: &str) -> (r: Option<OverflowAxis>)
    ensures
        r == overflow_axis_of(s@),
{
    if str_is(s, "visible") {
        Some(OverflowAxis::Visible)
    } else if str_is(s, "hidden") {
        Some(OverflowAxis::Hidden)
    } else if str_is(s, "scroll") {
        Some(OverflowAxis::Scroll)
    } else if str_is(s, "auto") {
        Some(OverflowAxis::Auto)
    } else if str_is(s, "clip") {
        Some(OverflowAxis::Clip)
    } else {
        None
    }
}

/// The `text-align` keyword that `s` is.
pub open spec fn text_align_of(s: Seq<char>) -> Option<TextAlign> {
    if s == "left"@ {
        Some(TextAlign::Left)
    } else if s == "right"@ {
        Some(TextAlign::Right)
    } else if s == "center"@ {
        Some(TextAlign::Center)
    } else if s == "justify"@ {
        Some(TextAlign::Justify)
    } else if s == "start"@ {
        Some(TextAlign::Start)
    } else if s == "end"@ {
        Some(TextAlign::End)
    } else {
        None
    }
}

pub fn parse_text_align(s: &str) -> (r: Option<TextAlign>)
    ensures
        r == text_align_of(s@),
{
    if str_is(s, "left") {
        Some(TextAlign::Left)
    } else if str_is(s, "right") {
        Some(TextAlign::Right)
    } else if str_is(s, "center") {
        Some(TextAlign::Center)
    } else if str_is(s, "justify") {
        Some(TextAlign::Justify)
    } else if str_is(s, "start") {
        Some(TextAlign::Start)
    } else if str_is(s, "end") {
        Some(TextAlign::End)
    } else {
        None
    }
}

/// The `text-transform` keyword that `s` is.
pub open spec fn text_transform_of(s: Seq<char>) -> Option<TextTransform> {
    if s == "none"@ {
        Some(TextTransform::NoneValue)
    } else if s == "uppercase"@ {
        Some(TextTransform::Uppercase)
    } else if s == "lowercase"@ {
        Some(TextTransform::Lowercase)
    } else if s == "capitalize"@ {
        Some(TextTransform::Capitalize)
    } else {
        None
    }
}

pub fn parse_text_transform(s: &str) -> (r: Option<TextTransform>)
    ensures
        r == text_transform_of(s@),
{
    if str_is(s, "none") {
        Some(TextTransform::NoneValue)
    } else if str_is(s, "uppercase") {
        Some(TextTransform::Uppercase)
    } else if str_is(s, "lowercase") {
        Some(TextTransform::Lowercase)
    } else if str_is(s, "capitalize") {
        Some(TextTransform::Capitalize)
    } else {
        None
    }
}

/// The `white-space` keyword that `s` is.
pub open spec fn white_space_of(s: Seq<char>) -> Option<WhiteSpace> {
    if s == "normal"@ {
        Some(WhiteSpace::Normal)
    } else if s == "nowrap"@ || s == "no-wrap"@ {
        Some(WhiteSpace::Nowrap)
    } else if s == "pre"@ {
        Some(WhiteSpace::Pre)
    } else if s == "pre-wrap"@ {
        Some(WhiteSpace::PreWrap)
    } else if s == "pre-line"@ {
        Some(WhiteSpace::PreLine)
    } else if s == "break-spaces"@ {
        Some(WhiteSpace::BreakSpaces)
    } else {
        None
    }
}

pub fn parse_white_space(s: &str) -> (r: Option<WhiteSpace>)
    ensures
        r == white_space_of(s@),
{
    if str_is(s, "normal") {
        Some(WhiteSpace::Normal)
    } else if str_is(s, "nowrap") || str_is(s, "no-wrap") {
        Some(WhiteSpace::Nowrap)
    } else if str_is(s, "pre") {
        Some(WhiteSpace::Pre)
    } else if str_is(s, "pre-wrap") {
        Some(WhiteSpace::PreWrap)
    } else if str_is(s, "pre-line") {
        Some(WhiteSpace::PreLine)
    } else if str_is(s, "break-spaces") {
        Some(WhiteSpace::BreakSpaces)
    } else {
        None
    }
}

/// The `word-break` keyword that `s` is.
pub open spec fn word_break_of(s: Seq<char>) -> Option<WordBreak> {
    if s == "normal"@ {
        Some(WordBreak::Normal)
    } else if s == "break-all"@ {
        Some(WordBreak::BreakAll)
    } else if s == "keep-all"@ {
        Some(WordBreak::KeepAll)
    } else if s == "break-word"@ {
        Some(WordBreak::BreakWord)
    } else {
        None
    }
}

pub fn parse_word_break(s: &str) -> (r: Option<WordBreak>)
    ensures
        r == word_break_of(s@),
{
    if str_is(s, "normal") {
        Some(WordBreak::Normal)
    } else if str_is(s, "break-all") {
        Some(WordBreak::BreakAll)
    } else if str_is(s, "keep-all") {
        Some(WordBreak::KeepAll)
    } else if str_is(s, "break-word") {
        Some(WordBreak::BreakWord)
    } else {
        None
    }
}

/// The `box-sizing` keyword that `s` is.
pub open spec fn box_sizing_of(s: Seq<char>) -> Option<BoxSizing> {
    if s == "content-box"@ {
        Some(BoxSizing::ContentBox)
    } else if s == "border-box"@ {
        Some(BoxSizing::BorderBox)
    } else {
        None
    }
}

pub fn parse_box_sizing(s: &str) -> (r: Option<BoxSizing>)
    ensures
        r == box_sizing_of(s@),
{
    if str_is(s, "content-box") {
        Some(BoxSizing::ContentBox)
    } else if str_is(s, "border-box") {
        Some(BoxSizing::BorderBox)
    } else {
        None
    }
}

/// The `object-fit` keyword that `s` is.
pub open spec fn object_fit_of(s: Seq<char>) -> Option<ObjectFit> {
    if s == "fill"@ {
        Some(ObjectFit::Fill)
    } else if s == "contain"@ {
        Some(ObjectFit::Contain)
    } else if s == "cover"@ {
        Some(ObjectFit::Cover)
    } else if s == "none"@ {
        Some(ObjectFit::NoneValue)
    } else if s == "scale-down"@ {
        Some(ObjectFit::ScaleDown)
    } else {
        None
    }
}

pub fn parse_object_fit(s: &str) -> (r: Option<ObjectFit>)
    ensures
        r == object_fit_of(s@),
{
    if str_is(s, "fill") {
        Some(ObjectFit::Fill)
    } else if str_is(s, "contain") {
        Some(ObjectFit::Contain)
    } else if str_is(s, "cover") {
        Some(ObjectFit::Cover)
    } else if str_is(s, "none") {
        Some(ObjectFit::NoneValue)
    } else if str_is(s, "scale-down") {
        Some(ObjectFit::ScaleDown)
    } else {
        None
    }
}

/// The `background-repeat` keyword that `s` is.
pub open spec fn background_repeat_of(s: Seq<char>) -> Option<BackgroundRepeat> {
    if s == "repeat"@ {
        Some(BackgroundRepeat::Repeat)
    } else if s == "repeat-x"@ {
        Some(BackgroundRepeat::RepeatX)
    } else if s == "repeat-y"@ {
        Some(BackgroundRepeat::RepeatY)
    } else if s == "no-repeat"@ {
        Some(BackgroundRepeat::NoRepeat)
    } else if s == "space"@ {
        Some(BackgroundRepeat::Space)
    } else if s == "round"@ {
        Some(BackgroundRepeat::Round)
    } else {
        None
    }
}

pub fn parse_background_repeat(s: &str) -> (r: Option<BackgroundRepeat>)
    ensures
        r == background_repeat_of(s@),
{
    if str_is(s, "repeat") {
        Some(BackgroundRepeat::Repeat)
    } else if str_is(s, "repeat-x") {
        Some(BackgroundRepeat::RepeatX)
    } else if str_is(s, "repeat-y") {
        Some(BackgroundRepeat::RepeatY)
    } else if str_is(s, "no-repeat") {
        Some(BackgroundRepeat::NoRepeat)
    } else if str_is(s, "space") {
        Some(BackgroundRepeat::Space)
    } else if str_is(s, "round") {
        Some(BackgroundRepeat::Round)
    } else {
        None
    }
}


pub fn parse_i32(s: &str) -> (r: Option<i32>)
    ensures
        r matches Some(v) ==> parse_signed(s@, i32::MIN as int, i32::MAX as int) == Some(v as int),
        r is None ==> parse_signed(s@, i32::MIN as int, i32::MAX as int) is None,
{
    let cs = chars_of(s);
    parse_i32_chars(cs.as_slice())
}

pub fn to_owned(s: &str) -> (r: Option<String>)
    ensures
        r matches Some(t) && t@ == s@,
{
    Some(s.to_owned())
}

/// A number: `Some` exactly where `str::parse::<f32>` accepts the text.
pub fn parse_f32(s: &str) -> (r: Option<Number>)
    ensures
        r is Some <==> is_float_literal(s@),
        r matches Some(n) ==> n@ == s@,
{
    let cs = chars_of(s);
    if float_literal(cs.as_slice()) {
        Some(Number(s.to_owned()))
    } else {
        None
    }
}

/// A number from characters that the float parser accepts.
pub fn number_of(cs: &[char]) -> (r: Option<Number>)
    ensures
        r is Some <==> is_float_literal(cs@),
        r matches Some(n) ==> n@ == cs@,
{
    if float_literal(cs) {
        Some(Number(string_from_chars(cs)))
    } else {
        None
    }
}

/// A color, as `csscolorparser` reads the text.
pub fn parse_color(s: &str) -> (r: Option<csscolorparser::Color>)
    ensures
        r == css_color(s@),
{
    parse_css_color(s)
}

/// The number in front of `suffix`: the text before it, with whitespace
/// trimmed from its end, where the float parser accepts that text.
pub open spec fn number_before(s: Seq<char>, suffix: Seq<char>) -> Option<Seq<char>> {
    match strip_suffix(s, suffix) {
        Some(p) => if is_float_literal(trim_end(p)) {
            Some(trim_end(p))
        } else {
            None
        },
        None => None,
    }
}

fn number_before_exec(cs: &[char], suffix: &str) -> (r: Option<Number>)
    ensures
        match r {
            Some(n) => number_before(cs@, suffix@) == Some(n@),
            None => number_before(cs@, suffix@) is None,
        },
{
    match slice_strip_suffix(cs, suffix) {
        Some(p) => number_of(trim_end_slice(p)),
        None => None,
    }
}

pub fn parse_px(s: &str) -> (r: Option<Px>)
    ensures
        match r {
            Some(p) => number_before(s@, "px"@) == Some(p.0@),
            None => number_before(s@, "px"@) is None,
        },
{
    let cs = chars_of(s);
    match number_before_exec(cs.as_slice(), "px") {
        Some(n) => Some(Px(n)),
        None => None,
    }
}

pub fn parse_pct(s: &str) -> (r: Option<Pct>)
    ensures
        match r {
            Some(p) => number_before(s@, "%"@) == Some(p.0@),
            None => number_before(s@, "%"@) is None,
        },
{
    let cs = chars_of(s);
    match number_before_exec(cs.as_slice(), "%") {
        Some(n) => Some(Pct(n)),
        None => None,
    }
}

/// The two overflow axes: the first word, and the second where it is an
/// overflow keyword (else the first again).
pub open spec fn overflow_shorthand_of(s: Seq<char>) -> Option<OverflowAxes> {
    let w = words(s);
    if w.len() == 0 {
        None
    } else {
        match overflow_axis_of(w[0]) {
            None => None,
            Some(first) => {
                let second = if w.len() > 1 {
                    match overflow_axis_of(w[1]) {
                        Some(a) => a,
                        None => first,
                    }
                } else {
                    first
                };
                Some(OverflowAxes { x: first, y: second })
            },
        }
    }
}

pub fn parse_overflow_shorthand(s: &str) -> (r: Option<OverflowAxes>)
    ensures
        r == overflow_shorthand_of(s@),
{
    let parts = split_whitespace(s);
    proof {
        assert(parts@.len() == words(s@).len());
    }
    if parts.len() == 0 {
        return None;
    }
    assert(parts@[0]@ == words(s@)[0]);
    let first = parse_overflow_axis(parts[0])?;
    let second = if parts.len() > 1 {
        assert(parts@[1]@ == words(s@)[1]);
        match parse_overflow_axis(parts[1]) {
            Some(a) => a,
            None => first,
        }
    } else {
        first
    };
    Some(OverflowAxes { x: first, y: second })
}

/// A grid line: `auto`, `span <n>`, `<line> / span <n>`, or a line number.
pub open spec fn grid_line_of(s0: Seq<char>) -> Option<GridPlacement> {
    let s = trim(s0);
    if s == "auto"@ {
        Some(GridPlacement::Auto)
    } else if strip_prefix(s, "span "@) is Some {
        match parse_unsigned(trim(strip_prefix(s, "span "@).unwrap()), u32::MAX as nat) {
            Some(v) => Some(GridPlacement::Span(v as u32)),
            None => None,
        }
    } else if crate::text::find(s, '/') is Some {
        let k = crate::text::find(s, '/').unwrap();
        match parse_signed(trim(s.take(k)), i32::MIN as int, i32::MAX as int) {
            None => None,
            Some(line) => {
                let span_str = trim(s.skip(k + 1));
                match strip_prefix(span_str, "span "@) {
                    Some(n) => match parse_unsigned(trim(n), u32::MAX as nat) {
                        Some(v) => Some(GridPlacement::LineSpan(line as i32, v as u32)),
                        None => None,
                    },
                    None => match parse_signed(s, i32::MIN as int, i32::MAX as int) {
                        Some(v) => Some(GridPlacement::Line(v as i32)),
                        None => None,
                    },
                }
            },
        }
    } else {
        match parse_signed(s, i32::MIN as int, i32::MAX as int) {
            Some(v) => Some(GridPlacement::Line(v as i32)),
            None => None,
        }
    }
}

pub fn parse_grid_line(s: &str) -> (r: Option<GridPlacement>)
    ensures
        r == grid_line_of(s@),
{
    let chars = chars_of(s);
    let t = trim_slice(chars.as_slice());
    if crate::selector::slice_is(t, "auto") {
        return Some(GridPlacement::Auto);
    }
    if let Some(span_str) = slice_strip_prefix(t, "span ") {
        return match parse_u32_chars(trim_slice(span_str)) {
            Some(v) => Some(GridPlacement::Span(v)),
            None => None,
        };
    }
    if let Some(k) = crate::text::slice_find(t, '/') {
        let tl = t.len();
        let line = match parse_i32_chars(trim_slice(slice_subrange(t, 0, k))) {
            Some(v) => v,
            None => return None,
        };
        let span_str = trim_slice(slice_subrange(t, k + 1, tl));
        if let Some(n) = slice_strip_prefix(span_str, "span ") {
            return match parse_u32_chars(trim_slice(n)) {
                Some(v) => Some(GridPlacement::LineSpan(line, v)),
                None => None,
            };
        }
    }
    match parse_i32_chars(t) {
        Some(v) => Some(GridPlacement::Line(v)),
        None => None,
    }
}

// ---------------------------------------------------------------------------
// Keyword laws
// ---------------------------------------------------------------------------

/// The keywords that name each value: `display` is written as one of these.
pub open spec fn names_display(s: Seq<char>, v: Display) -> bool {
    ||| v == Display::Block && (s == "block"@)
    ||| v == Display::Flex && (s == "flex"@)
    ||| v == Display::Grid && (s == "grid"@)
    ||| v == Display::NoneValue && (s == "none"@)
}

/// Reading a `display` keyword gives exactly the value that the
/// keyword names: a text gives a value if and only if it is a keyword for it.
pub proof fn law_display_keywords(s: Seq<char>, v: Display)
    ensures
        display_of(s) == Some(v) <==> names_display(s, v),
{
    if display_of(s) == Some(v) {
        assert(names_display(s, v));
    }
    reveal_strlit("block");
    reveal_strlit("flex");
    reveal_strlit("grid");
    reveal_strlit("none");
    assert("block"@.len() == 5);
    assert("flex"@.len() == 4);
    assert("grid"@.len() == 4);
    assert("none"@.len() == 4);
    assert("flex"@[0] != "grid"@[0]);
    assert("flex"@[0] != "none"@[0]);
    assert("grid"@[0] != "none"@[0]);
    assert(display_of("block"@) == Some(Display::Block));
    assert(display_of("flex"@) == Some(Display::Flex));
    assert(display_of("grid"@) == Some(Display::Grid));
    assert(display_of("none"@) == Some(Display::NoneValue));
}

/// The keywords that name each value: `justify-content` is written as one of these.
pub open spec fn names_justify_content(s: Seq<char>, v: JustifyContent) -> bool {
    ||| v == JustifyContent::Start && (s == "start"@)
    ||| v == JustifyContent::End && (s == "end"@)
    ||| v == JustifyContent::FlexStart && (s == "flex-start"@)
    ||| v == JustifyContent::FlexEnd && (s == "flex-end"@)
    ||| v == JustifyContent::Center && (s == "center"@)
    ||| v == JustifyContent::Stretch && (s == "stretch"@)
    ||| v == JustifyContent::SpaceBetween && (s == "space-between"@)
    ||| v == JustifyContent::SpaceEvenly && (s == "space-evenly"@)
    ||| v == JustifyContent::SpaceAround && (s == "space-around"@)
}

/// Reading a `justify-content` keyword gives exactly the value that the
/// keyword names: a text gives a value if and only if it is a keyword for it.
pub proof fn law_justify_content_keywords(s: Seq<char>, v: JustifyContent)
    ensures
        justify_content_of(s) == Some(v) <==> names_justify_content(s, v),
{
    if justify_content_of(s) == Some(v) {
        assert(names_justify_content(s, v));
    }
    reveal_strlit("start");
    reveal_strlit("end");
    reveal_strlit("flex-start");
    reveal_strlit("flex-end");
    reveal_strlit("center");
    reveal_strlit("stretch");
    reveal_strlit("space-between");
    reveal_strlit("space-evenly");
    reveal_strlit("space-around");
    assert("start"@.len() == 5);
    assert("end"@.len() == 3);
    assert("flex-start"@.len() == 10);
    assert("flex-end"@.len() == 8);
    assert("center"@.len() == 6);
    assert("stretch"@.len() == 7);
    assert("space-between"@.len() == 13);
    assert("space-evenly"@.len() == 12);
    assert("space-around"@.len() == 12);
    assert("space-evenly"@[6] != "space-around"@[6]);
    assert(justify_content_of("start"@) == Some(JustifyContent::Start));
    assert(justify_content_of("end"@) == Some(JustifyContent::End));
    assert(justify_content_of("flex-start"@) == Some(JustifyContent::FlexStart));
    assert(justify_content_of("flex-end"@) == Some(JustifyContent::FlexEnd));
    assert(justify_content_of("center"@) == Some(JustifyContent::Center));
    assert(justify_content_of("stretch"@) == Some(JustifyContent::Stretch));
    assert(justify_content_of("space-between"@) == Some(JustifyContent::SpaceBetween));
    assert(justify_content_of("space-evenly"@) == Some(JustifyContent::SpaceEvenly));
    assert(justify_content_of("space-around"@) == Some(JustifyContent::SpaceAround));
}

/// The keywords that name each value: `align-items` is written as one of these.
pub open spec fn names_align_items(s: Seq<char>, v: AlignItems) -> bool {
    ||| v == AlignItems::Center && (s == "center"@)
    ||| v == AlignItems::Start && (s == "start"@)
    ||| v == AlignItems::End && (s == "end"@)
    ||| v == AlignItems::FlexStart && (s == "flex-start"@)
    ||| v == AlignItems::FlexEnd && (s == "flex-end"@)
    ||| v == AlignItems::Baseline && (s == "baseline"@)
    ||| v == AlignItems::Stretch && (s == "stretch"@)
}

/// Reading a `align-items` keyword gives exactly the value that the
/// keyword names: a text gives a value if and only if it is a keyword for it.
pub proof fn law_align_items_keywords(s: Seq<char>, v: AlignItems)
    ensures
        align_items_of(s) == Some(v) <==> names_align_items(s, v),
{
    if align_items_of(s) == Some(v) {
        assert(names_align_items(s, v));
    }
    reveal_strlit("center");
    reveal_strlit("start");
    reveal_strlit("end");
    reveal_strlit("flex-start");
    reveal_strlit("flex-end");
    reveal_strlit("baseline");
    reveal_strlit("stretch");
    assert("center"@.len() == 6);
    assert("start"@.len() == 5);
    assert("end"@.len() == 3);
    assert("flex-start"@.len() == 10);
    assert("flex-end"@.len() == 8);
    assert("baseline"@.len() == 8);
    assert("stretch"@.len() == 7);
    assert("flex-end"@[0] != "baseline"@[0]);
    assert(align_items_of("center"@) == Some(AlignItems::Center));
    assert(align_items_of("start"@) == Some(AlignItems::Start));
    assert(align_items_of("end"@) == Some(AlignItems::End));
    assert(align_items_of("flex-start"@) == Some(AlignItems::FlexStart));
    assert(align_items_of("flex-end"@) == Some(AlignItems::FlexEnd));
    assert(align_items_of("baseline"@) == Some(AlignItems::Baseline));
    assert(align_items_of("stretch"@) == Some(AlignItems::Stretch));
}

/// The keywords that name each value: `align-content` is written as one of these.
pub open spec fn names_align_content(s: Seq<char>, v: AlignContent) -> bool {
    ||| v == AlignContent::Center && (s == "center"@)
    ||| v == AlignContent::Start && (s == "start"@)
    ||| v == AlignContent::End && (s == "end"@)
    ||| v == AlignContent::FlexStart && (s == "flex-start"@)
    ||| v == AlignContent::FlexEnd && (s == "flex-end"@)
    ||| v == AlignContent::Stretch && (s == "stretch"@)
    ||| v == AlignContent::SpaceBetween && (s == "space-between"@)
    ||| v == AlignContent::SpaceEvenly && (s == "space-evenly"@)
    ||| v == AlignContent::SpaceAround && (s == "space-around"@)
}

/// Reading a `align-content` keyword gives exactly the value that the
/// keyword names: a text gives a value if and only if it is a keyword for it.
pub proof fn law_align_content_keywords(s: Seq<char>, v: AlignContent)
    ensures
        align_content_of(s) == Some(v) <==> names_align_content(s, v),
{
    if align_content_of(s) == Some(v) {
        assert(names_align_content(s, v));
    }
    reveal_strlit("center");
    reveal_strlit("start");
    reveal_strlit("end");
    reveal_strlit("flex-start");
    reveal_strlit("flex-end");
    reveal_strlit("stretch");
    reveal_strlit("space-between");
    reveal_strlit("space-evenly");
    reveal_strlit("space-around");
    assert("center"@.len() == 6);
    assert("start"@.len() == 5);
    assert("end"@.len() == 3);
    assert("flex-start"@.len() == 10);
    assert("flex-end"@.len() == 8);
    assert("stretch"@.len() == 7);
    assert("space-between"@.len() == 13);
    assert("space-evenly"@.len() == 12);
    assert("space-around"@.len() == 12);
    assert("space-evenly"@[6] != "space-around"@[6]);
    assert(align_content_of("center"@) == Some(AlignContent::Center));
    assert(align_content_of("start"@) == Some(AlignContent::Start));
    assert(align_content_of("end"@) == Some(AlignContent::End));
    assert(align_content_of("flex-start"@) == Some(AlignContent::FlexStart));
    assert(align_content_of("flex-end"@) == Some(AlignContent::FlexEnd));
    assert(align_content_of("stretch"@) == Some(AlignContent::Stretch));
    assert(align_content_of("space-between"@) == Some(AlignContent::SpaceBetween));
    assert(align_content_of("space-evenly"@) == Some(AlignContent::SpaceEvenly));
    assert(align_content_of("space-around"@) == Some(AlignContent::SpaceAround));
}

/// The keywords that name each value: `position` is written as one of these.
pub open spec fn names_position(s: Seq<char>, v: Position) -> bool {
    ||| v == Position::Absolute && (s == "absolute"@)
    ||| v == Position::Relative && (s == "relative"@)
}

/// Reading a `position` keyword gives exactly the value that the
/// keyword names: a text gives a value if and only if it is a keyword for it.
pub proof fn law_position_keywords(s: Seq<char>, v: Position)
    ensures
        position_of(s) == Some(v) <==> names_position(s, v),
{
    if position_of(s) == Some(v) {
        assert(names_position(s, v));
    }
    reveal_strlit("absolute");
    reveal_strlit("relative");
    assert("absolute"@.len() == 8);
    assert("relative"@.len() == 8);
    assert("absolute"@[0] != "relative"@[0]);
    assert(position_of("absolute"@) == Some(Position::Absolute));
    assert(position_of("relative"@) == Some(Position::Relative));
}

/// The keywords that name each value: `flex-direction` is written as one of these.
pub open spec fn names_flex_direction(s: Seq<char>, v: FlexDirection) -> bool {
    ||| v == FlexDirection::Row && (s == "row"@)
    ||| v == FlexDirection::Column && (s == "column"@)
    ||| v == FlexDirection::RowReverse && (s == "row-reverse"@)
    ||| v == FlexDirection::ColumnReverse && (s == "column-reverse"@)
}

/// Reading a `flex-direction` keyword gives exactly the value that the
/// keyword names: a text gives a value if and only if it is a keyword for it.
pub proof fn law_flex_direction_keywords(s: Seq<char>, v: FlexDirection)
    ensures
        flex_direction_of(s) == Some(v) <==> names_flex_direction(s, v),
{
    if flex_direction_of(s) == Some(v) {
        assert(names_flex_direction(s, v));
    }
    reveal_strlit("row");
    reveal_strlit("column");
    reveal_strlit("row-reverse");
    reveal_strlit("column-reverse");
    assert("row"@.len() == 3);
    assert("column"@.len() == 6);
    assert("row-reverse"@.len() == 11);
    assert("column-reverse"@.len() == 14);
    assert(flex_direction_of("row"@) == Some(FlexDirection::Row));
    assert(flex_direction_of("column"@) == Some(FlexDirection::Column));
    assert(flex_direction_of("row-reverse"@) == Some(FlexDirection::RowReverse));
    assert(flex_direction_of("column-reverse"@) == Some(FlexDirection::ColumnReverse));
}

/// The keywords that name each value: `flex-wrap` is written as one of these.
pub open spec fn names_flex_wrap(s: Seq<char>, v: FlexWrap) -> bool {
    ||| v == FlexWrap::Wrap && (s == "wrap"@)
    ||| v == FlexWrap::NoWrap && (s == "no-wrap"@)
    ||| v == FlexWrap::WrapReverse && (s == "wrap-reverse"@)
}

/// Reading a `flex-wrap` keyword gives exactly the value that the
/// keyword names: a text gives a value if and only if it is a keyword for it.
pub proof fn law_flex_wrap_keywords(s: Seq<char>, v: FlexWrap)
    ensures
        flex_wrap_of(s) == Some(v) <==> names_flex_wrap(s, v),
{
    if flex_wrap_of(s) == Some(v) {
        assert(names_flex_wrap(s, v));
    }
    reveal_strlit("wrap");
    reveal_strlit("no-wrap");
    reveal_strlit("wrap-reverse");
    assert("wrap"@.len() == 4);
    assert("no-wrap"@.len() == 7);
    assert("wrap-reverse"@.len() == 12);
    assert(flex_wrap_of("wrap"@) == Some(FlexWrap::Wrap));
    assert(flex_wrap_of("no-wrap"@) == Some(FlexWrap::NoWrap));
    assert(flex_wrap_of("wrap-reverse"@) == Some(FlexWrap::WrapReverse));
}

/// The keywords that name each value: `cursor-style` is written as one of these.
pub open spec fn names_cursor_style(s: Seq<char>, v: CursorIcon) -> bool {
    ||| v == CursorIcon::Default && (s == "default"@)
    ||| v == CursorIcon::PointingHand && (s == "pointer"@)
    ||| v == CursorIcon::Text && (s == "text"@)
    ||| v == CursorIcon::ResizeColumn && (s == "col-resize"@)
    ||| v == CursorIcon::ResizeRow && (s == "row-resize"@)
    ||| v == CursorIcon::ResizeWest && (s == "w-resize"@)
    ||| v == CursorIcon::ResizeEast && (s == "e-resize"@)
    ||| v == CursorIcon::ResizeSouth && (s == "s-resize"@)
    ||| v == CursorIcon::ResizeNorth && (s == "n-resize"@)
    ||| v == CursorIcon::ResizeNorthWest && (s == "nw-resize"@)
    ||| v == CursorIcon::ResizeNorthEast && (s == "ne-resize"@)
    ||| v == CursorIcon::ResizeSouthWest && (s == "sw-resize"@)
    ||| v == CursorIcon::ResizeSouthEast && (s == "se-resize"@)
    ||| v == CursorIcon::ResizeNeSw && (s == "nesw-resize"@)
    ||| v == CursorIcon::ResizeNwSe && (s == "nwse-resize"@)
}

/// Reading a `cursor-style` keyword gives exactly the value that the
/// keyword names: a text gives a value if and only if it is a keyword for it.
pub proof fn law_cursor_style_keywords(s: Seq<char>, v: CursorIcon)
    ensures
        cursor_style_of(s) == Some(v) <==> names_cursor_style(s, v),
{
    if cursor_style_of(s) == Some(v) {
        assert(names_cursor_style(s, v));
    }
    reveal_strlit("default");
    reveal_strlit("pointer");
    reveal_strlit("text");
    reveal_strlit("col-resize");
    reveal_strlit("row-resize");
    reveal_strlit("w-resize");
    reveal_strlit("e-resize");
    reveal_strlit("s-resize");
    reveal_strlit("n-resize");
    reveal_strlit("nw-resize");
    reveal_strlit("ne-resize");
    reveal_strlit("sw-resize");
    reveal_strlit("se-resize");
    reveal_strlit("nesw-resize");
    reveal_strlit("nwse-resize");
    assert("default"@.len() == 7);
    assert("pointer"@.len() == 7);
    assert("text"@.len() == 4);
    assert("col-resize"@.len() == 10);
    assert("row-resize"@.len() == 10);
    assert("w-resize"@.len() == 8);
    assert("e-resize"@.len() == 8);
    assert("s-resize"@.len() == 8);
    assert("n-resize"@.len() == 8);
    assert("nw-resize"@.len() == 9);
    assert("ne-resize"@.len() == 9);
    assert("sw-resize"@.len() == 9);
    assert("se-resize"@.len() == 9);
    assert("nesw-resize"@.len() == 11);
    assert("nwse-resize"@.len() == 11);
    assert("default"@[0] != "pointer"@[0]);
    assert("col-resize"@[0] != "row-resize"@[0]);
    assert("w-resize"@[0] != "e-resize"@[0]);
    assert("w-resize"@[0] != "s-resize"@[0]);
    assert("w-resize"@[0] != "n-resize"@[0]);
    assert("e-resize"@[0] != "s-resize"@[0]);
    assert("e-resize"@[0] != "n-resize"@[0]);
    assert("s-resize"@[0] != "n-resize"@[0]);
    assert("nw-resize"@[1] != "ne-resize"@[1]);
    assert("nw-resize"@[0] != "sw-resize"@[0]);
    assert("nw-resize"@[0] != "se-resize"@[0]);
    assert("ne-resize"@[0] != "sw-resize"@[0]);
    assert("ne-resize"@[0] != "se-resize"@[0]);
    assert("sw-resize"@[1] != "se-resize"@[1]);
    assert("nesw-resize"@[1] != "nwse-resize"@[1]);
    assert(cursor_style_of("default"@) == Some(CursorIcon::Default));
    assert(cursor_style_of("pointer"@) == Some(CursorIcon::PointingHand));
    assert(cursor_style_of("text"@) == Some(CursorIcon::Text));
    assert(cursor_style_of("col-resize"@) == Some(CursorIcon::ResizeColumn));
    assert(cursor_style_of("row-resize"@) == Some(CursorIcon::ResizeRow));
    assert(cursor_style_of("w-resize"@) == Some(CursorIcon::ResizeWest));
    assert(cursor_style_of("e-resize"@) == Some(CursorIcon::ResizeEast));
    assert(cursor_style_of("s-resize"@) == Some(CursorIcon::ResizeSouth));
    assert(cursor_style_of("n-resize"@) == Some(CursorIcon::ResizeNorth));
    assert(cursor_style_of("nw-resize"@) == Some(CursorIcon::ResizeNorthWest));
    assert(cursor_style_of("ne-resize"@) == Some(CursorIcon::ResizeNorthEast));
    assert(cursor_style_of("sw-resize"@) == Some(CursorIcon::ResizeSouthWest));
    assert(cursor_style_of("se-resize"@) == Some(CursorIcon::ResizeSouthEast));
    assert(cursor_style_of("nesw-resize"@) == Some(CursorIcon::ResizeNeSw));
    assert(cursor_style_of("nwse-resize"@) == Some(CursorIcon::ResizeNwSe));
}

/// The keywords that name each value: `font-weight` is written as one of these.
pub open spec fn names_font_weight(s: Seq<char>, v: Weight) -> bool {
    ||| v == Weight(100) && (s == "100"@ || s == "thin"@)
    ||| v == Weight(200) && (s == "200"@)
    ||| v == Weight(300) && (s == "300"@)
    ||| v == Weight(400) && (s == "400"@ || s == "normal"@)
    ||| v == Weight(500) && (s == "500"@)
    ||| v == Weight(600) && (s == "600"@)
    ||| v == Weight(700) && (s == "700"@ || s == "bold"@)
    ||| v == Weight(800) && (s == "800"@)
    ||| v == Weight(900) && (s == "900"@)
}

/// Reading a `font-weight` keyword gives exactly the value that the
/// keyword names: a text gives a value if and only if it is a keyword for it.
pub proof fn law_font_weight_keywords(s: Seq<char>, v: Weight)
    ensures
        font_weight_of(s) == Some(v) <==> names_font_weight(s, v),
{
    if font_weight_of(s) == Some(v) {
        assert(names_font_weight(s, v));
    }
    reveal_strlit("100");
    reveal_strlit("thin");
    reveal_strlit("200");
    reveal_strlit("300");
    reveal_strlit("400");
    reveal_strlit("normal");
    reveal_strlit("500");
    reveal_strlit("600");
    reveal_strlit("700");
    reveal_strlit("bold");
    reveal_strlit("800");
    reveal_strlit("900");
    assert("100"@.len() == 3);
    assert("thin"@.len() == 4);
    assert("200"@.len() == 3);
    assert("300"@.len() == 3);
    assert("400"@.len() == 3);
    assert("normal"@.len() == 6);
    assert("500"@.len() == 3);
    assert("600"@.len() == 3);
    assert("700"@.len() == 3);
    assert("bold"@.len() == 4);
    assert("800"@.len() == 3);
    assert("900"@.len() == 3);
    assert("100"@[0] != "200"@[0]);
    assert("100"@[0] != "300"@[0]);
    assert("100"@[0] != "400"@[0]);
    assert("100"@[0] != "500"@[0]);
    assert("100"@[0] != "600"@[0]);
    assert("100"@[0] != "700"@[0]);
    assert("100"@[0] != "800"@[0]);
    assert("100"@[0] != "900"@[0]);
    assert("thin"@[0] != "bold"@[0]);
    assert("200"@[0] != "300"@[0]);
    assert("200"@[0] != "400"@[0]);
    assert("200"@[0] != "500"@[0]);
    assert("200"@[0] != "600"@[0]);
    assert("200"@[0] != "700"@[0]);
    assert("200"@[0] != "800"@[0]);
    assert("200"@[0] != "900"@[0]);
    assert("300"@[0] != "400"@[0]);
    assert("300"@[0] != "500"@[0]);
    assert("300"@[0] != "600"@[0]);
    assert("300"@[0] != "700"@[0]);
    assert("300"@[0] != "800"@[0]);
    assert("300"@[0] != "900"@[0]);
    assert("400"@[0] != "500"@[0]);
    assert("400"@[0] != "600"@[0]);
    assert("400"@[0] != "700"@[0]);
    assert("400"@[0] != "800"@[0]);
    assert("400"@[0] != "900"@[0]);
    assert("500"@[0] != "600"@[0]);
    assert("500"@[0] != "700"@[0]);
    assert("500"@[0] != "800"@[0]);
    assert("500"@[0] != "900"@[0]);
    assert("600"@[0] != "700"@[0]);
    assert("600"@[0] != "800"@[0]);
    assert("600"@[0] != "900"@[0]);
    assert("700"@[0] != "800"@[0]);
    assert("700"@[0] != "900"@[0]);
    assert("800"@[0] != "900"@[0]);
    assert(font_weight_of("100"@) == Some(Weight(100)));
    assert(font_weight_of("thin"@) == Some(Weight(100)));
    assert(font_weight_of("200"@) == Some(Weight(200)));
    assert(font_weight_of("300"@) == Some(Weight(300)));
    assert(font_weight_of("400"@) == Some(Weight(400)));
    assert(font_weight_of("normal"@) == Some(Weight(400)));
    assert(font_weight_of("500"@) == Some(Weight(500)));
    assert(font_weight_of("600"@) == Some(Weight(600)));
    assert(font_weight_of("700"@) == Some(Weight(700)));
    assert(font_weight_of("bold"@) == Some(Weight(700)));
    assert(font_weight_of("800"@) == Some(Weight(800)));
    assert(font_weight_of("900"@) == Some(Weight(900)));
}

/// The keywords that name each value: `font-style` is written as one of these.
pub open spec fn names_font_style(s: Seq<char>, v: TextStyle) -> bool {
    ||| v == TextStyle::Normal && (s == "normal"@)
    ||| v == TextStyle::Italic && (s == "italic"@)
    ||| v == TextStyle::Oblique && (s == "oblique"@)
}

/// Reading a `font-style` keyword gives exactly the value that the
/// keyword names: a text gives a value if and only if it is a keyword for it.
pub proof fn law_font_style_keywords(s: Seq<char>, v: TextStyle)
    ensures
        font_style_of(s) == Some(v) <==> names_font_style(s, v),
{
    if font_style_of(s) == Some(v) {
        assert(names_font_style(s, v));
    }
    reveal_strlit("normal");
    reveal_strlit("italic");
    reveal_strlit("oblique");
    assert("normal"@.len() == 6);
    assert("italic"@.len() == 6);
    assert("oblique"@.len() == 7);
    assert("normal"@[0] != "italic"@[0]);
    assert(font_style_of("normal"@) == Some(TextStyle::Normal));
    assert(font_style_of("italic"@) == Some(TextStyle::Italic));
    assert(font_style_of("oblique"@) == Some(TextStyle::Oblique));
}

/// The keywords that name each value: `text-overflow` is written as one of these.
pub open spec fn names_text_overflow(s: Seq<char>, v: TextOverflow) -> bool {
    ||| v == TextOverflow::Clip && (s == "clip"@)
    ||| v == TextOverflow::Ellipsis && (s == "ellipsis"@)
    ||| v == TextOverflow::Wrap && (s == "wrap"@)
}

/// Reading a `text-overflow` keyword gives exactly the value that the
/// keyword names: a text gives a value if and only if it is a keyword for it.
pub proof fn law_text_overflow_keywords(s: Seq<char>, v: TextOverflow)
    ensures
        text_overflow_of(s) == Some(v) <==> names_text_overflow(s, v),
{
    if text_overflow_of(s) == Some(v) {
        assert(names_text_overflow(s, v));
    }
    reveal_strlit("clip");
    reveal_strlit("ellipsis");
    reveal_strlit("wrap");
    assert("clip"@.len() == 4);
    assert("ellipsis"@.len() == 8);
    assert("wrap"@.len() == 4);
    assert("clip"@[0] != "wrap"@[0]);
    assert(text_overflow_of("clip"@) == Some(TextOverflow::Clip));
    assert(text_overflow_of("ellipsis"@) == Some(TextOverflow::Ellipsis));
    assert(text_overflow_of("wrap"@) == Some(TextOverflow::Wrap));
}

/// The keywords that name each value: `user-select` is written as one of these.
pub open spec fn names_user_select(s: Seq<char>, v: bool) -> bool {
    ||| v == false && (s == "none"@)
    ||| v == true && (s == "auto"@)
}

/// Reading a `user-select` keyword gives exactly the value that the
/// keyword names: a text gives a value if and only if it is a keyword for it.
pub proof fn law_user_select_keywords(s: Seq<char>, v: bool)
    ensures
        user_select_of(s) == Some(v) <==> names_user_select(s, v),
{
    if user_select_of(s) == Some(v) {
        assert(names_user_select(s, v));
    }
    reveal_strlit("none");
    reveal_strlit("auto");
    assert("none"@.len() == 4);
    assert("auto"@.len() == 4);
    assert("none"@[0] != "auto"@[0]);
    assert(user_select_of("none"@) == Some(false));
    assert(user_select_of("auto"@) == Some(true));
}

/// The keywords that name each value: `visibility` is written as one of these.
pub open spec fn names_visibility(s: Seq<char>, v: Visibility) -> bool {
    ||| v == Visibility::Visible && (s == "visible"@)
    ||| v == Visibility::Hidden && (s == "hidden"@)
    ||| v == Visibility::Collapse && (s == "collapse"@)
}

/// Reading a `visibility` keyword gives exactly the value that the
/// keyword names: a text gives a value if and only if it is a keyword for it.
pub proof fn law_visibility_keywords(s: Seq<char>, v: Visibility)
    ensures
        visibility_of(s) == Some(v) <==> names_visibility(s, v),
{
    if visibility_of(s) == Some(v) {
        assert(names_visibility(s, v));
    }
    reveal_strlit("visible");
    reveal_strlit("hidden");
    reveal_strlit("collapse");
    assert("visible"@.len() == 7);
    assert("hidden"@.len() == 6);
    assert("collapse"@.len() == 8);
    assert(visibility_of("visible"@) == Some(Visibility::Visible));
    assert(visibility_of("hidden"@) == Some(Visibility::Hidden));
    assert(visibility_of("collapse"@) == Some(Visibility::Collapse));
}

/// The keywords that name each value: `pointer-events` is written as one of these.
pub open spec fn names_pointer_events(s: Seq<char>, v: PointerEvents) -> bool {
    ||| v == PointerEvents::NoneValue && (s == "none"@)
    ||| v == PointerEvents::Auto && (s == "auto"@)
    ||| v == PointerEvents::All && (s == "all"@)
}

/// Reading a `pointer-events` keyword gives exactly the value that the
/// keyword names: a text gives a value if and only if it is a keyword for it.
pub proof fn law_pointer_events_keywords(s: Seq<char>, v: PointerEvents)
    ensures
        pointer_events_of(s) == Some(v) <==> names_pointer_events(s, v),
{
    if pointer_events_of(s) == Some(v) {
        assert(names_pointer_events(s, v));
    }
    reveal_strlit("none");
    reveal_strlit("auto");
    reveal_strlit("all");
    assert("none"@.len() == 4);
    assert("auto"@.len() == 4);
    assert("all"@.len() == 3);
    assert("none"@[0] != "auto"@[0]);
    assert(pointer_events_of("none"@) == Some(PointerEvents::NoneValue));
    assert(pointer_events_of("auto"@) == Some(PointerEvents::Auto));
    assert(pointer_events_of("all"@) == Some(PointerEvents::All));
}

/// The keywords that name each value: `overflow-axis` is written as one of these.
pub open spec fn names_overflow_axis(s: Seq<char>, v: OverflowAxis) -> bool {
    ||| v == OverflowAxis::Visible && (s == "visible"@)
    ||| v == OverflowAxis::Hidden && (s == "hidden"@)
    ||| v == OverflowAxis::Scroll && (s == "scroll"@)
    ||| v == OverflowAxis::Auto && (s == "auto"@)
    ||| v == OverflowAxis::Clip && (s == "clip"@)
}

/// Reading a `overflow-axis` keyword gives exactly the value that the
/// keyword names: a text gives a value if and only if it is a keyword for it.
pub proof fn law_overflow_axis_keywords(s: Seq<char>, v: OverflowAxis)
    ensures
        overflow_axis_of(s) == Some(v) <==> names_overflow_axis(s, v),
{
    if overflow_axis_of(s) == Some(v) {
        assert(names_overflow_axis(s, v));
    }
    reveal_strlit("visible");
    reveal_strlit("hidden");
    reveal_strlit("scroll");
    reveal_strlit("auto");
    reveal_strlit("clip");
    assert("visible"@.len() == 7);
    assert("hidden"@.len() == 6);
    assert("scroll"@.len() == 6);
    assert("auto"@.len() == 4);
    assert("clip"@.len() == 4);
    assert("hidden"@[0] != "scroll"@[0]);
    assert("auto"@[0] != "clip"@[0]);
    assert(overflow_axis_of("visible"@) == Some(OverflowAxis::Visible));
    assert(overflow_axis_of("hidden"@) == Some(OverflowAxis::Hidden));
    assert(overflow_axis_of("scroll"@) == Some(OverflowAxis::Scroll));
    assert(overflow_axis_of("auto"@) == Some(OverflowAxis::Auto));
    assert(overflow_axis_of("clip"@) == Some(OverflowAxis::Clip));
}

/// The keywords that name each value: `text-align` is written as one of these.
pub open spec fn names_text_align(s: Seq<char>, v: TextAlign) -> bool {
    ||| v == TextAlign::Left && (s == "left"@)
    ||| v == TextAlign::Right && (s == "right"@)
    ||| v == TextAlign::Center && (s == "center"@)
    ||| v == TextAlign::Justify && (s == "justify"@)
    ||| v == TextAlign::Start && (s == "start"@)
    ||| v == TextAlign::End && (s == "end"@)
}

/// Reading a `text-align` keyword gives exactly the value that the
/// keyword names: a text gives a value if and only if it is a keyword for it.
pub proof fn law_text_align_keywords(s: Seq<char>, v: TextAlign)
    ensures
        text_align_of(s) == Some(v) <==> names_text_align(s, v),
{
    if text_align_of(s) == Some(v) {
        assert(names_text_align(s, v));
    }
    reveal_strlit("left");
    reveal_strlit("right");
    reveal_strlit("center");
    reveal_strlit("justify");
    reveal_strlit("start");
    reveal_strlit("end");
    assert("left"@.len() == 4);
    assert("right"@.len() == 5);
    assert("center"@.len() == 6);
    assert("justify"@.len() == 7);
    assert("start"@.len() == 5);
    assert("end"@.len() == 3);
    assert("right"@[0] != "start"@[0]);
    assert(text_align_of("left"@) == Some(TextAlign::Left));
    assert(text_align_of("right"@) == Some(TextAlign::Right));
    assert(text_align_of("center"@) == Some(TextAlign::Center));
    assert(text_align_of("justify"@) == Some(TextAlign::Justify));
    assert(text_align_of("start"@) == Some(TextAlign::Start));
    assert(text_align_of("end"@) == Some(TextAlign::End));
}

/// The keywords that name each value: `text-transform` is written as one of these.
pub open spec fn names_text_transform(s: Seq<char>, v: TextTransform) -> bool {
    ||| v == TextTransform::NoneValue && (s == "none"@)
    ||| v == TextTransform::Uppercase && (s == "uppercase"@)
    ||| v == TextTransform::Lowercase && (s == "lowercase"@)
    ||| v == TextTransform::Capitalize && (s == "capitalize"@)
}

/// Reading a `text-transform` keyword gives exactly the value that the
/// keyword names: a text gives a value if and only if it is a keyword for it.
pub proof fn law_text_transform_keywords(s: Seq<char>, v: TextTransform)
    ensures
        text_transform_of(s) == Some(v) <==> names_text_transform(s, v),
{
    if text_transform_of(s) == Some(v) {
        assert(names_text_transform(s, v));
    }
    reveal_strlit("none");
    reveal_strlit("uppercase");
    reveal_strlit("lowercase");
    reveal_strlit("capitalize");
    assert("none"@.len() == 4);
    assert("uppercase"@.len() == 9);
    assert("lowercase"@.len() == 9);
    assert("capitalize"@.len() == 10);
    assert("uppercase"@[0] != "lowercase"@[0]);
    assert(text_transform_of("none"@) == Some(TextTransform::NoneValue));
    assert(text_transform_of("uppercase"@) == Some(TextTransform::Uppercase));
    assert(text_transform_of("lowercase"@) == Some(TextTransform::Lowercase));
    assert(text_transform_of("capitalize"@) == Some(TextTransform::Capitalize));
}

/// The keywords that name each value: `white-space` is written as one of these.
pub open spec fn names_white_space(s: Seq<char>, v: WhiteSpace) -> bool {
    ||| v == WhiteSpace::Normal && (s == "normal"@)
    ||| v == WhiteSpace::Nowrap && (s == "nowrap"@ || s == "no-wrap"@)
    ||| v == WhiteSpace::Pre && (s == "pre"@)
    ||| v == WhiteSpace::PreWrap && (s == "pre-wrap"@)
    ||| v == WhiteSpace::PreLine && (s == "pre-line"@)
    ||| v == WhiteSpace::BreakSpaces && (s == "break-spaces"@)
}

/// Reading a `white-space` keyword gives exactly the value that the
/// keyword names: a text gives a value if and only if it is a keyword for it.
pub proof fn law_white_space_keywords(s: Seq<char>, v: WhiteSpace)
    ensures
        white_space_of(s) == Some(v) <==> names_white_space(s, v),
{
    if white_space_of(s) == Some(v) {
        assert(names_white_space(s, v));
    }
    reveal_strlit("normal");
    reveal_strlit("nowrap");
    reveal_strlit("no-wrap");
    reveal_strlit("pre");
    reveal_strlit("pre-wrap");
    reveal_strlit("pre-line");
    reveal_strlit("break-spaces");
    assert("normal"@.len() == 6);
    assert("nowrap"@.len() == 6);
    assert("no-wrap"@.len() == 7);
    assert("pre"@.len() == 3);
    assert("pre-wrap"@.len() == 8);
    assert("pre-line"@.len() == 8);
    assert("break-spaces"@.len() == 12);
    assert("normal"@[2] != "nowrap"@[2]);
    assert("pre-wrap"@[4] != "pre-line"@[4]);
    assert(white_space_of("normal"@) == Some(WhiteSpace::Normal));
    assert(white_space_of("nowrap"@) == Some(WhiteSpace::Nowrap));
    assert(white_space_of("no-wrap"@) == Some(WhiteSpace::Nowrap));
    assert(white_space_of("pre"@) == Some(WhiteSpace::Pre));
    assert(white_space_of("pre-wrap"@) == Some(WhiteSpace::PreWrap));
    assert(white_space_of("pre-line"@) == Some(WhiteSpace::PreLine));
    assert(white_space_of("break-spaces"@) == Some(WhiteSpace::BreakSpaces));
}

/// The keywords that name each value: `word-break` is written as one of these.
pub open spec fn names_word_break(s: Seq<char>, v: WordBreak) -> bool {
    ||| v == WordBreak::Normal && (s == "normal"@)
    ||| v == WordBreak::BreakAll && (s == "break-all"@)
    ||| v == WordBreak::KeepAll && (s == "keep-all"@)
    ||| v == WordBreak::BreakWord && (s == "break-word"@)
}

/// Reading a `word-break` keyword gives exactly the value that the
/// keyword names: a text gives a value if and only if it is a keyword for it.
pub proof fn law_word_break_keywords(s: Seq<char>, v: WordBreak)
    ensures
        word_break_of(s) == Some(v) <==> names_word_break(s, v),
{
    if word_break_of(s) == Some(v) {
        assert(names_word_break(s, v));
    }
    reveal_strlit("normal");
    reveal_strlit("break-all");
    reveal_strlit("keep-all");
    reveal_strlit("break-word");
    assert("normal"@.len() == 6);
    assert("break-all"@.len() == 9);
    assert("keep-all"@.len() == 8);
    assert("break-word"@.len() == 10);
    assert(word_break_of("normal"@) == Some(WordBreak::Normal));
    assert(word_break_of("break-all"@) == Some(WordBreak::BreakAll));
    assert(word_break_of("keep-all"@) == Some(WordBreak::KeepAll));
    assert(word_break_of("break-word"@) == Some(WordBreak::BreakWord));
}

/// The keywords that name each value: `box-sizing` is written as one of these.
pub open spec fn names_box_sizing(s: Seq<char>, v: BoxSizing) -> bool {
    ||| v == BoxSizing::ContentBox && (s == "content-box"@)
    ||| v == BoxSizing::BorderBox && (s == "border-box"@)
}

/// Reading a `box-sizing` keyword gives exactly the value that the
/// keyword names: a text gives a value if and only if it is a keyword for it.
pub proof fn law_box_sizing_keywords(s: Seq<char>, v: BoxSizing)
    ensures
        box_sizing_of(s) == Some(v) <==> names_box_sizing(s, v),
{
    if box_sizing_of(s) == Some(v) {
        assert(names_box_sizing(s, v));
    }
    reveal_strlit("content-box");
    reveal_strlit("border-box");
    assert("content-box"@.len() == 11);
    assert("border-box"@.len() == 10);
    assert(box_sizing_of("content-box"@) == Some(BoxSizing::ContentBox));
    assert(box_sizing_of("border-box"@) == Some(BoxSizing::BorderBox));
}

/// The keywords that name each value: `object-fit` is written as one of these.
pub open spec fn names_object_fit(s: Seq<char>, v: ObjectFit) -> bool {
    ||| v == ObjectFit::Fill && (s == "fill"@)
    ||| v == ObjectFit::Contain && (s == "contain"@)
    ||| v == ObjectFit::Cover && (s == "cover"@)
    ||| v == ObjectFit::NoneValue && (s == "none"@)
    ||| v == ObjectFit::ScaleDown && (s == "scale-down"@)
}

/// Reading a `object-fit` keyword gives exactly the value that the
/// keyword names: a text gives a value if and only if it is a keyword for it.
pub proof fn law_object_fit_keywords(s: Seq<char>, v: ObjectFit)
    ensures
        object_fit_of(s) == Some(v) <==> names_object_fit(s, v),
{
    if object_fit_of(s) == Some(v) {
        assert(names_object_fit(s, v));
    }
    reveal_strlit("fill");
    reveal_strlit("contain");
    reveal_strlit("cover");
    reveal_strlit("none");
    reveal_strlit("scale-down");
    assert("fill"@.len() == 4);
    assert("contain"@.len() == 7);
    assert("cover"@.len() == 5);
    assert("none"@.len() == 4);
    assert("scale-down"@.len() == 10);
    assert("fill"@[0] != "none"@[0]);
    assert(object_fit_of("fill"@) == Some(ObjectFit::Fill));
    assert(object_fit_of("contain"@) == Some(ObjectFit::Contain));
    assert(object_fit_of("cover"@) == Some(ObjectFit::Cover));
    assert(object_fit_of("none"@) == Some(ObjectFit::NoneValue));
    assert(object_fit_of("scale-down"@) == Some(ObjectFit::ScaleDown));
}

/// The keywords that name each value: `background-repeat` is written as one of these.
pub open spec fn names_background_repeat(s: Seq<char>, v: BackgroundRepeat) -> bool {
    ||| v == BackgroundRepeat::Repeat && (s == "repeat"@)
    ||| v == BackgroundRepeat::RepeatX && (s == "repeat-x"@)
    ||| v == BackgroundRepeat::RepeatY && (s == "repeat-y"@)
    ||| v == BackgroundRepeat::NoRepeat && (s == "no-repeat"@)
    ||| v == BackgroundRepeat::Space && (s == "space"@)
    ||| v == BackgroundRepeat::Round && (s == "round"@)
}

/// Reading a `background-repeat` keyword gives exactly the value that the
/// keyword names: a text gives a value if and only if it is a keyword for it.
pub proof fn law_background_repeat_keywords(s: Seq<char>, v: BackgroundRepeat)
    ensures
        background_repeat_of(s) == Some(v) <==> names_background_repeat(s, v),
{
    if background_repeat_of(s) == Some(v) {
        assert(names_background_repeat(s, v));
    }
    reveal_strlit("repeat");
    reveal_strlit("repeat-x");
    reveal_strlit("repeat-y");
    reveal_strlit("no-repeat");
    reveal_strlit("space");
    reveal_strlit("round");
    assert("repeat"@.len() == 6);
    assert("repeat-x"@.len() == 8);
    assert("repeat-y"@.len() == 8);
    assert("no-repeat"@.len() == 9);
    assert("space"@.len() == 5);
    assert("round"@.len() == 5);
    assert("repeat-x"@[7] != "repeat-y"@[7]);
    assert("space"@[0] != "round"@[0]);
    assert(background_repeat_of("repeat"@) == Some(BackgroundRepeat::Repeat));
    assert(background_repeat_of("repeat-x"@) == Some(BackgroundRepeat::RepeatX));
    assert(background_repeat_of("repeat-y"@) == Some(BackgroundRepeat::RepeatY));
    assert(background_repeat_of("no-repeat"@) == Some(BackgroundRepeat::NoRepeat));
    assert(background_repeat_of("space"@) == Some(BackgroundRepeat::Space));
    assert(background_repeat_of("round"@) == Some(BackgroundRepeat::Round));
}

/// Grid lines: `auto` is read from `auto` alone, a span from `span <n>`, a
/// line from a signed number, and a line with a span from `<line> / span <n>`.
pub proof fn law_grid_line_forms(s: Seq<char>)
    ensures
        grid_line_of(s) == Some(GridPlacement::Auto) <==> trim(s) == "auto"@,
        grid_line_of(s) matches Some(GridPlacement::Span(n)) ==> (strip_prefix(trim(s), "span "@)
            matches Some(rest) && parse_unsigned(trim(rest), u32::MAX as nat) == Some(n as nat)),
        grid_line_of(s) matches Some(GridPlacement::Line(v)) ==> parse_signed(
            trim(s),
            i32::MIN as int,
            i32::MAX as int,
        ) == Some(v as int),
        grid_line_of(s) matches Some(GridPlacement::LineSpan(l, n)) ==> match crate::text::find(
            trim(s),
            '/',
        ) {
            Some(k) => parse_signed(trim(trim(s).take(k)), i32::MIN as int, i32::MAX as int)
                == Some(l as int) && match strip_prefix(trim(trim(s).skip(k + 1)), "span "@) {
                Some(m) => parse_unsigned(trim(m), u32::MAX as nat) == Some(n as nat),
                None => false,
            },
            None => false,
        },
{
    reveal_strlit("auto");
    reveal_strlit("span ");
    assert("auto"@.len() == 4);
    assert("span "@.len() == 5);
}

} // verus!
