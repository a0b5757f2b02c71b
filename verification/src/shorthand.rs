//! Parsers for values made of several parts: gaps, borders, shadows, text
//! decoration, backgrounds and grid tracks.
use vstd::prelude::*;
use vstd::slice::slice_subrange;

use csscolorparser::Color;

use crate::color::css_color;
use crate::length::{fits_depth, len_text, opt_len, parse_px_pct, px_pct_chars};
use crate::lexer::str_is;
use crate::text::{
    chars_of, ends_with, find, is_float_literal, is_ws, lemma_trim_len, slice_find, slice_starts_with,
    slice_strip_prefix, slice_strip_suffix, split_whitespace, starts_with, strip_prefix,
    strip_suffix, trim, trim_slice, words,
};
use crate::units::{
    copy_px_pct, default_shadow, len_auto_of, zero, BackgroundSize, BackgroundSizeView,
    BorderDef, BorderDefView, BoxShadow, BoxShadowView, Len, LenAuto, Number, PxPct, PxPctAuto,
    TextDecoration, TextDecorationLine, Track, TrackList, TrackSize, tracks_of,
};
use crate::values::{number_of, parse_color};

verus! {

broadcast use vstd::seq_lib::group_seq_properties;

/// Every word of `s` is short enough for length parsing.
pub proof fn lemma_words_fit(s: Seq<char>, i: int)
    requires
        0 <= i <= s.len(),
    ensures
        forall|k: int|
            0 <= k < crate::text::words_from(s, i).len() ==> (#[trigger] crate::text::words_from(
                s,
                i,
            )[k]).len() <= s.len(),
    decreases s.len() - i,
{
    crate::text::lemma_word_scanners(s, i);
    let a = crate::text::skip_ws(s, i);
    if a < s.len() {
        crate::text::lemma_word_scanners(s, a);
        let b = crate::text::word_end(s, a);
        lemma_words_fit(s, b);
        let w = crate::text::words_from(s, i);
        assert(w == seq![s.subrange(a, b)] + crate::text::words_from(s, b));
        assert forall|k: int| 0 <= k < w.len() implies (#[trigger] w[k]).len() <= s.len() by {
            if k > 0 {
                assert(w[k] == crate::text::words_from(s, b)[k - 1]);
            }
        }
    }
}

// ---------------------------------------------------------------------------
// Lengths that may be `auto`, gaps
// ---------------------------------------------------------------------------

pub open spec fn len_auto_text(s: Seq<char>) -> Option<LenAuto> {
    if s == "auto"@ {
        Some(LenAuto::Auto)
    } else {
        match len_text(s) {
            Some(l) => Some(len_auto_of(l)),
            None => None,
        }
    }
}

pub fn parse_pxpctauto(s: &str) -> (r: Option<PxPctAuto>)
    requires
        fits_depth(s@),
    ensures
        match r {
            Some(p) => len_auto_text(s@) == Some(p@),
            None => len_auto_text(s@) is None,
        },
{
    if str_is(s, "auto") {
        return Some(PxPctAuto::Auto);
    }
    match parse_px_pct(s) {
        Some(p) => Some(PxPctAuto::from_px_pct(p)),
        None => None,
    }
}

/// `gap`: a row gap (required) then a second word that must be present, whose
/// length is the column gap where it is one.
pub open spec fn gap_text(s: Seq<char>) -> Option<(Len, Option<Len>)> {
    let w = words(s);
    if w.len() == 0 {
        None
    } else {
        match len_text(w[0]) {
            None => None,
            Some(row) => if w.len() < 2 {
                None
            } else {
                Some((row, len_text(w[1])))
            },
        }
    }
}

pub fn parse_gap(s: &str) -> (r: Option<(PxPct, Option<PxPct>)>)
    requires
        fits_depth(s@),
    ensures
        match r {
            Some(g) => gap_text(s@) == Some((g.0@, opt_len(g.1))),
            None => gap_text(s@) is None,
        },
{
    let st = split_whitespace(s);
    proof {
        lemma_words_fit(s@, 0);
        assert(st@.len() == words(s@).len());
    }
    if st.len() == 0 {
        return None;
    }
    assert(st@[0]@ == words(s@)[0]);
    let row_px_pct = match parse_px_pct(st[0]) {
        Some(p) => p,
        None => return None,
    };
    if st.len() < 2 {
        return None;
    }
    assert(st@[1]@ == words(s@)[1]);
    let col_px_pct = parse_px_pct(st[1]);
    Some((row_px_pct, col_px_pct))
}

// ---------------------------------------------------------------------------
// Border
// ---------------------------------------------------------------------------

/// One word of `border`: a length sets the width, else a color sets the color,
/// else the value is rejected.
pub open spec fn border_word(b: BorderDefView, w: Seq<char>) -> Option<BorderDefView> {
    match len_text(w) {
        Some(px) => Some(BorderDefView { width: Some(px), ..b }),
        None => match css_color(w) {
            Some(c) => Some(BorderDefView { color: Some(c), ..b }),
            None => None,
        },
    }
}

/// `border`: its first two words, applied in order (further words are ignored).
pub open spec fn border_text(s: Seq<char>) -> Option<BorderDefView> {
    let w = words(s);
    let empty = BorderDefView { width: None, color: None };
    if w.len() == 0 {
        None
    } else if w.len() == 1 {
        border_word(empty, w[0])
    } else {
        match border_word(empty, w[0]) {
            Some(b) => border_word(b, w[1]),
            None => None,
        }
    }
}

fn border_apply(b: &mut BorderDef, val: &str) -> (ok: bool)
    requires
        fits_depth(val@),
    ensures
        match border_word(old(b)@, val@) {
            Some(nb) => ok && final(b)@ == nb,
            None => !ok,
        },
{
    if let Some(px) = parse_px_pct(val) {
        b.width = Some(px);
        return true;
    } else if let Some(color) = parse_color(val) {
        b.color = Some(color);
        return true;
    }
    false
}

pub fn parse_border(s: &str) -> (r: Option<BorderDef>)
    requires
        fits_depth(s@),
    ensures
        match r {
            Some(b) => border_text(s@) == Some(b@),
            None => border_text(s@) is None,
        },
{
    let parts = split_whitespace(s);
    proof {
        lemma_words_fit(s@, 0);
        assert(parts@.len() == words(s@).len());
    }
    let mut retval = BorderDef { width: None, color: None };
    if parts.len() == 0 {
        return None;
    }
    assert(parts@[0]@ == words(s@)[0]);
    if !border_apply(&mut retval, parts[0]) {
        return None;
    }
    if parts.len() >= 2 {
        assert(parts@[1]@ == words(s@)[1]);
        if !border_apply(&mut retval, parts[1]) {
            return None;
        }
    }
    Some(retval)
}

// ---------------------------------------------------------------------------
// Box shadow
// ---------------------------------------------------------------------------

/// Whether `char::is_alphabetic` holds of a character (the Unicode
/// `Alphabetic` property).
pub uninterp spec fn alphabetic(c: char) -> bool;

/// `char::is_alphabetic`. Its result is named, not described.
#[verifier::external_body]
fn is_alphabetic(c: char) -> (r: bool)
    ensures
        r == alphabetic(c),
{
    c.is_alphabetic()
}

/// The parts of a `box-shadow` value, scanning from position `i` with the
/// current part starting at `start`: whitespace ends a part; a letter right
/// after whitespace starts the last part, which takes the rest of the text.
pub open spec fn shadow_scan(s: Seq<char>, i: int, start: int, after_ws: bool) -> Seq<Seq<char>>
    decreases s.len() - i,
{
    if i < 0 || i >= s.len() {
        seq![s.subrange(start, s.len() as int)]
    } else if is_ws(s[i]) {
        seq![s.subrange(start, i)] + shadow_scan(s, i + 1, i + 1, true)
    } else if after_ws && alphabetic(s[i]) {
        seq![s.subrange(start, s.len() as int)]
    } else {
        shadow_scan(s, i + 1, start, false)
    }
}

/// The parts of a `box-shadow` value.
pub open spec fn shadow_parts(s: Seq<char>) -> Seq<Seq<char>> {
    shadow_scan(s, 0, 0, false)
}

/// The text positions count bytes: a part boundary after whitespace that is
/// not ASCII falls inside that character and cannot be sliced there. This holds
/// where no such whitespace comes before the scan stops.
pub open spec fn shadow_scan_safe(s: Seq<char>, i: int, after_ws: bool) -> bool
    decreases s.len() - i,
{
    if i < 0 || i >= s.len() {
        true
    } else if is_ws(s[i]) {
        (s[i] as u32) < 128 && shadow_scan_safe(s, i + 1, true)
    } else if after_ws && alphabetic(s[i]) {
        true
    } else {
        shadow_scan_safe(s, i + 1, false)
    }
}

pub open spec fn shadow_safe(s: Seq<char>) -> bool {
    shadow_scan_safe(s, 0, false)
}

/// `<h> <v>`.
pub open spec fn shadow2(a: Seq<char>, b: Seq<char>) -> Option<BoxShadowView> {
    match (len_text(a), len_text(b)) {
        (Some(h), Some(v)) => Some(BoxShadowView { h_offset: h, v_offset: v, ..default_shadow() }),
        _ => None,
    }
}

/// `<h> <v> <color>`, else `<color> <h> <v>`, else `<h> <v> <blur>`.
pub open spec fn shadow3(a: Seq<char>, b: Seq<char>, c: Seq<char>) -> Option<BoxShadowView> {
    if len_text(a) is Some && len_text(b) is Some && css_color(c) is Some {
        Some(
            BoxShadowView {
                color: css_color(c).unwrap(),
                h_offset: len_text(a).unwrap(),
                v_offset: len_text(b).unwrap(),
                ..default_shadow()
            },
        )
    } else if css_color(a) is Some && len_text(b) is Some && len_text(c) is Some {
        Some(
            BoxShadowView {
                color: css_color(a).unwrap(),
                h_offset: len_text(b).unwrap(),
                v_offset: len_text(c).unwrap(),
                ..default_shadow()
            },
        )
    } else if len_text(a) is Some && len_text(b) is Some && len_text(c) is Some {
        Some(
            BoxShadowView {
                blur_radius: len_text(c).unwrap(),
                h_offset: len_text(a).unwrap(),
                v_offset: len_text(b).unwrap(),
                ..default_shadow()
            },
        )
    } else {
        None
    }
}

/// `<h> <v> <blur> <color>`, else `<color> <h> <v> <blur>`, else
/// `<h> <v> <blur> <spread>`.
pub open spec fn shadow4(a: Seq<char>, b: Seq<char>, c: Seq<char>, d: Seq<char>) -> Option<
    BoxShadowView,
> {
    if len_text(a) is Some && len_text(b) is Some && len_text(c) is Some && css_color(d) is Some {
        Some(
            BoxShadowView {
                color: css_color(d).unwrap(),
                blur_radius: len_text(c).unwrap(),
                h_offset: len_text(a).unwrap(),
                v_offset: len_text(b).unwrap(),
                ..default_shadow()
            },
        )
    } else if css_color(a) is Some && len_text(b) is Some && len_text(c) is Some && len_text(
        d,
    ) is Some {
        Some(
            BoxShadowView {
                color: css_color(a).unwrap(),
                blur_radius: len_text(d).unwrap(),
                h_offset: len_text(b).unwrap(),
                v_offset: len_text(c).unwrap(),
                ..default_shadow()
            },
        )
    } else if len_text(a) is Some && len_text(b) is Some && len_text(c) is Some && len_text(
        d,
    ) is Some {
        Some(
            BoxShadowView {
                spread: len_text(d).unwrap(),
                blur_radius: len_text(c).unwrap(),
                h_offset: len_text(a).unwrap(),
                v_offset: len_text(b).unwrap(),
                ..default_shadow()
            },
        )
    } else {
        None
    }
}

/// `<h> <v> <blur> <spread> <color>`, else `<color> <h> <v> <blur> <spread>`.
pub open spec fn shadow5(
    a: Seq<char>,
    b: Seq<char>,
    c: Seq<char>,
    d: Seq<char>,
    e: Seq<char>,
) -> Option<BoxShadowView> {
    if len_text(a) is Some && len_text(b) is Some && len_text(c) is Some && len_text(d) is Some
        && css_color(e) is Some {
        Some(
            BoxShadowView {
                color: css_color(e).unwrap(),
                spread: len_text(d).unwrap(),
                blur_radius: len_text(c).unwrap(),
                h_offset: len_text(a).unwrap(),
                v_offset: len_text(b).unwrap(),
            },
        )
    } else if css_color(a) is Some && len_text(b) is Some && len_text(c) is Some && len_text(
        d,
    ) is Some && len_text(e) is Some {
        Some(
            BoxShadowView {
                color: css_color(a).unwrap(),
                spread: len_text(e).unwrap(),
                blur_radius: len_text(d).unwrap(),
                h_offset: len_text(b).unwrap(),
                v_offset: len_text(c).unwrap(),
            },
        )
    } else {
        None
    }
}

/// A `box-shadow` value: `none` gives no shadow; two to five parts are read as
/// the forms above.
pub open spec fn box_shadow_text(s: Seq<char>) -> Option<BoxShadowView> {
    let p = shadow_parts(s);
    if p.len() == 1 && p[0] == "none"@ {
        None
    } else if p.len() == 2 {
        shadow2(p[0], p[1])
    } else if p.len() == 3 {
        shadow3(p[0], p[1], p[2])
    } else if p.len() == 4 {
        shadow4(p[0], p[1], p[2], p[3])
    } else if p.len() == 5 {
        shadow5(p[0], p[1], p[2], p[3], p[4])
    } else {
        None
    }
}

pub open spec fn opt_shadow(r: Option<BoxShadow>) -> Option<BoxShadowView> {
    match r {
        Some(b) => Some(b@),
        None => None,
    }
}

/// Every part of a shadow is a piece of its text, so no longer than it.
proof fn lemma_shadow_parts_len(s: Seq<char>, i: int, start: int, after_ws: bool)
    requires
        0 <= start <= i <= s.len(),
    ensures
        forall|k: int|
            0 <= k < shadow_scan(s, i, start, after_ws).len() ==> (#[trigger] shadow_scan(
                s,
                i,
                start,
                after_ws,
            )[k]).len() <= s.len(),
    decreases s.len() - i,
{
    if i < s.len() {
        if is_ws(s[i]) {
            lemma_shadow_parts_len(s, i + 1, i + 1, true);
            let w = shadow_scan(s, i, start, after_ws);
            let rest = shadow_scan(s, i + 1, i + 1, true);
            assert(w == seq![s.subrange(start, i)] + rest);
            assert forall|k: int| 0 <= k < w.len() implies (#[trigger] w[k]).len() <= s.len() by {
                if k > 0 {
                    assert(w[k] == rest[k - 1]);
                }
            }
        } else if !(after_ws && alphabetic(s[i])) {
            lemma_shadow_parts_len(s, i + 1, start, false);
            assert(shadow_scan(s, i, start, after_ws) == shadow_scan(s, i + 1, start, false));
        } else {
            assert(shadow_scan(s, i, start, after_ws)[0] == s.subrange(start, s.len() as int));
        }
    } else {
        assert(shadow_scan(s, i, start, after_ws)[0] == s.subrange(start, s.len() as int));
    }
}

fn split_shadow<'a>(s: &'a [char]) -> (r: Vec<&'a [char]>)
    requires
        shadow_safe(s@),
    ensures
        r@.map_values(|p: &'a [char]| p@) == shadow_parts(s@),
{
    let n = s.len();
    let mut parts: Vec<&'a [char]> = Vec::new();
    let mut start: usize = 0;
    let mut after_wp = false;
    let mut i: usize = 0;
    while i < n
        invariant_except_break
            start <= i <= n,
            parts@.map_values(|p: &'a [char]| p@) + shadow_scan(s@, i as int, start as int, after_wp)
                == shadow_parts(s@),
        invariant
            n == s@.len(),
        ensures
            start <= n,
            parts@.map_values(|p: &'a [char]| p@) + seq![s@.subrange(start as int, n as int)]
                == shadow_parts(s@),
        decreases n - i,
    {
        let c = s[i];
        let ghost before = parts@;
        if crate::text::is_whitespace(c) {
            parts.push(slice_subrange(s, start, i));
            assert(parts@.map_values(|p: &'a [char]| p@) =~= before.map_values(|p: &'a [char]| p@).push(
                s@.subrange(start as int, i as int),
            ));
            after_wp = true;
            start = i + 1;
        } else if after_wp && is_alphabetic(c) {
            break ;
        } else {
            after_wp = false;
        }
        i = i + 1;
    }
    let ghost before = parts@;
    parts.push(slice_subrange(s, start, n));
    assert(parts@.map_values(|p: &'a [char]| p@) =~= before.map_values(|p: &'a [char]| p@).push(
        s@.subrange(start as int, n as int),
    ));
    parts
}

fn lt(s: &[char]) -> (r: Option<PxPct>)
    requires
        fits_depth(s@),
    ensures
        opt_len(r) == len_text(s@),
{
    px_pct_chars(s)
}

fn col(s: &[char]) -> (r: Option<csscolorparser::Color>)
    ensures
        r == css_color(s@),
{
    let t = crate::text::string_from_chars(s);
    parse_color(t.as_str())
}

fn parse_box_shadow_2(a: &[char], b: &[char]) -> (r: Option<BoxShadow>)
    requires
        fits_depth(a@),
        fits_depth(b@),
    ensures
        opt_shadow(r) == shadow2(a@, b@),
{
    if let (Some(h_offset), Some(v_offset)) = (lt(a), lt(b)) {
        let d = BoxShadow::default();
        return Some(BoxShadow { h_offset, v_offset, ..d });
    }
    None
}

fn parse_box_shadow_3(a: &[char], b: &[char], c: &[char]) -> (r: Option<BoxShadow>)
    requires
        fits_depth(a@),
        fits_depth(b@),
        fits_depth(c@),
    ensures
        opt_shadow(r) == shadow3(a@, b@, c@),
{
    // <h_offset> <v_offset> <color>
    if let (Some(h_offset), Some(v_offset), Some(color)) = (lt(a), lt(b), col(c)) {
        let d = BoxShadow::default();
        return Some(BoxShadow { color, h_offset, v_offset, ..d });
    }
    // <color> <h_offset> <v_offset>
    if let (Some(color), Some(h_offset), Some(v_offset)) = (col(a), lt(b), lt(c)) {
        let d = BoxShadow::default();
        return Some(BoxShadow { color, h_offset, v_offset, ..d });
    }
    // <h_offset> <v_offset> <blur>
    if let (Some(h_offset), Some(v_offset), Some(blur_radius)) = (lt(a), lt(b), lt(c)) {
        let d = BoxShadow::default();
        return Some(BoxShadow { blur_radius, h_offset, v_offset, ..d });
    }
    None
}

fn parse_box_shadow_4(a: &[char], b: &[char], c: &[char], d: &[char]) -> (r: Option<BoxShadow>)
    requires
        fits_depth(a@),
        fits_depth(b@),
        fits_depth(c@),
        fits_depth(d@),
    ensures
        opt_shadow(r) == shadow4(a@, b@, c@, d@),
{
    // <h_offset> <v_offset> <blur_radius> <color>
    if let (Some(h_offset), Some(v_offset), Some(blur_radius), Some(color)) = (
        lt(a),
        lt(b),
        lt(c),
        col(d),
    ) {
        let z = BoxShadow::default();
        return Some(BoxShadow { color, blur_radius, h_offset, v_offset, ..z });
    }
    // <color> <h_offset> <v_offset> <blur_radius>
    if let (Some(color), Some(h_offset), Some(v_offset), Some(blur_radius)) = (
        col(a),
        lt(b),
        lt(c),
        lt(d),
    ) {
        let z = BoxShadow::default();
        return Some(BoxShadow { color, blur_radius, h_offset, v_offset, ..z });
    }
    // <h_offset> <v_offset> <blur_radius> <blur_spread>
    if let (Some(h_offset), Some(v_offset), Some(blur_radius), Some(spread)) = (
        lt(a),
        lt(b),
        lt(c),
        lt(d),
    ) {
        let z = BoxShadow::default();
        return Some(BoxShadow { spread, blur_radius, h_offset, v_offset, ..z });
    }
    None
}

fn box_shadow_5(
    a: &[char],
    b: &[char],
    c: &[char],
    d: &[char],
    e: &[char],
) -> (r: Option<BoxShadow>)
    requires
        fits_depth(a@),
        fits_depth(b@),
        fits_depth(c@),
        fits_depth(d@),
        fits_depth(e@),
    ensures
        opt_shadow(r) == shadow5(a@, b@, c@, d@, e@),
{
    // <h_offset> <v_offset> <blur_radius> <blur_spread> <color>
    if let (Some(h_offset), Some(v_offset), Some(blur_radius), Some(spread), Some(color)) = (
        lt(a),
        lt(b),
        lt(c),
        lt(d),
        col(e),
    ) {
        return Some(BoxShadow { color, spread, blur_radius, h_offset, v_offset });
    }
    // <color> <h_offset> <v_offset> <blur_radius> <blur_spread>
    if let (Some(color), Some(h_offset), Some(v_offset), Some(blur_radius), Some(spread)) = (
        col(a),
        lt(b),
        lt(c),
        lt(d),
        lt(e),
    ) {
        return Some(BoxShadow { color, spread, blur_radius, h_offset, v_offset });
    }
    None
}

/// A shadow from five parts: `<h> <v> <blur> <spread> <color>`, else
/// `<color> <h> <v> <blur> <spread>`.
pub fn parse_box_shadow_5(parts: [&str; 5]) -> (r: Option<BoxShadow>)
    requires
        forall|i: int| 0 <= i < 5 ==> fits_depth(#[trigger] parts@[i]@),
    ensures
        opt_shadow(r) == shadow5(parts@[0]@, parts@[1]@, parts@[2]@, parts@[3]@, parts@[4]@),
{
    assert(fits_depth(parts@[0]@) && fits_depth(parts@[1]@) && fits_depth(parts@[2]@));
    assert(fits_depth(parts@[3]@) && fits_depth(parts@[4]@));
    let a = chars_of(parts[0]);
    let b = chars_of(parts[1]);
    let c = chars_of(parts[2]);
    let d = chars_of(parts[3]);
    let e = chars_of(parts[4]);
    box_shadow_5(a.as_slice(), b.as_slice(), c.as_slice(), d.as_slice(), e.as_slice())
}

pub fn parse_box_shadow(s: &str) -> (r: Option<BoxShadow>)
    requires
        fits_depth(s@),
        shadow_safe(s@),
    ensures
        opt_shadow(r) == box_shadow_text(s@),
{
    let chars = chars_of(s);
    let parts = split_shadow(chars.as_slice());
    let ghost p = shadow_parts(s@);
    proof {
        lemma_shadow_parts_len(s@, 0, 0, false);
        assert(parts@.len() == p.len());
        assert forall|k: int| 0 <= k < parts@.len() implies #[trigger] parts@[k]@ == p[k] by {}
    }
    let n = parts.len();
    if n == 1 && crate::selector::slice_is(parts[0], "none") {
        None
    } else if n == 2 {
        parse_box_shadow_2(parts[0], parts[1])
    } else if n == 3 {
        parse_box_shadow_3(parts[0], parts[1], parts[2])
    } else if n == 4 {
        parse_box_shadow_4(parts[0], parts[1], parts[2], parts[3])
    } else if n == 5 {
        box_shadow_5(parts[0], parts[1], parts[2], parts[3], parts[4])
    } else {
        None
    }
}

// ---------------------------------------------------------------------------
// Text decoration
// ---------------------------------------------------------------------------

/// The line style that a word of `text-decoration` names.
pub open spec fn decoration_line(w: Seq<char>) -> Option<TextDecorationLine> {
    if w == "underline"@ {
        Some(TextDecorationLine::Underline)
    } else if w == "overline"@ {
        Some(TextDecorationLine::Overline)
    } else if w == "line-through"@ {
        Some(TextDecorationLine::LineThrough)
    } else {
        None
    }
}

/// The decoration after the first `n` words: a line word sets the line, else
/// a color sets the color, else the word is skipped.
pub open spec fn decoration_upto(w: Seq<Seq<char>>, n: int) -> (TextDecorationLine, Option<
    Color,
>)
    decreases n,
{
    if n <= 0 {
        (TextDecorationLine::NoneValue, None)
    } else {
        let prev = decoration_upto(w, n - 1);
        match decoration_line(w[n - 1]) {
            Some(l) => (l, prev.1),
            None => match css_color(w[n - 1]) {
                Some(c) => (prev.0, Some(c)),
                None => prev,
            },
        }
    }
}

/// `text-decoration`: `none`, or its words read in order.
pub open spec fn text_decoration_text(s: Seq<char>) -> (TextDecorationLine, Option<Color>) {
    if s == "none"@ {
        (TextDecorationLine::NoneValue, None)
    } else {
        decoration_upto(words(s), words(s).len() as int)
    }
}

fn decoration_word(w: &str) -> (r: Option<TextDecorationLine>)
    ensures
        r == decoration_line(w@),
{
    if str_is(w, "underline") {
        Some(TextDecorationLine::Underline)
    } else if str_is(w, "overline") {
        Some(TextDecorationLine::Overline)
    } else if str_is(w, "line-through") {
        Some(TextDecorationLine::LineThrough)
    } else {
        None
    }
}

pub fn parse_text_decoration(s: &str) -> (r: Option<TextDecoration>)
    ensures
        r matches Some(d) && (d.line, d.color) == text_decoration_text(s@),
{
    if str_is(s, "none") {
        return Some(TextDecoration { line: TextDecorationLine::NoneValue, color: None });
    }
    let parts = split_whitespace(s);
    let ghost w = words(s@);
    proof {
        assert(parts@.len() == w.len());
    }
    let mut line = TextDecorationLine::NoneValue;
    let mut color: Option<Color> = None;
    let mut i: usize = 0;
    while i < parts.len()
        invariant
            i <= parts@.len(),
            parts@.len() == w.len(),
            parts@.map_values(|x: &str| x@) == w,
            w == words(s@),
            (line, color) == decoration_upto(w, i as int),
        decreases parts@.len() - i,
    {
        let part = parts[i];
        assert(part@ == w[i as int]);
        if let Some(l) = decoration_word(part) {
            line = l;
        } else if let Some(c) = parse_color(part) {
            color = Some(c);
        }
        i = i + 1;
    }
    Some(TextDecoration { line, color })
}

// ---------------------------------------------------------------------------
// Background size and position
// ---------------------------------------------------------------------------

/// `background-size`: a keyword, or a width and a height, the height being
/// the width again where the second word is missing or is no length.
pub open spec fn background_size_text(s: Seq<char>) -> Option<BackgroundSizeView> {
    if s == "cover"@ {
        Some(BackgroundSizeView::Cover)
    } else if s == "contain"@ {
        Some(BackgroundSizeView::Contain)
    } else if s == "auto"@ {
        Some(BackgroundSizeView::Auto)
    } else {
        let w = words(s);
        if w.len() == 0 {
            None
        } else {
            match len_text(w[0]) {
                None => None,
                Some(x) => Some(
                    BackgroundSizeView::Length(
                        x,
                        if w.len() >= 2 && len_text(w[1]) is Some {
                            len_text(w[1]).unwrap()
                        } else {
                            x
                        },
                    ),
                ),
            }
        }
    }
}

pub fn parse_background_size(s: &str) -> (r: Option<BackgroundSize>)
    requires
        fits_depth(s@),
    ensures
        match r {
            Some(b) => background_size_text(s@) == Some(b@),
            None => background_size_text(s@) is None,
        },
{
    if str_is(s, "cover") {
        return Some(BackgroundSize::Cover);
    } else if str_is(s, "contain") {
        return Some(BackgroundSize::Contain);
    } else if str_is(s, "auto") {
        return Some(BackgroundSize::Auto);
    }
    let parts = split_whitespace(s);
    proof {
        lemma_words_fit(s@, 0);
        assert(parts@.len() == words(s@).len());
    }
    if parts.len() == 0 {
        return None;
    }
    assert(parts@[0]@ == words(s@)[0]);
    let w = match parse_px_pct(parts[0]) {
        Some(p) => p,
        None => return None,
    };
    let h = if parts.len() >= 2 {
        assert(parts@[1]@ == words(s@)[1]);
        match parse_px_pct(parts[1]) {
            Some(p) => p,
            None => copy_px_pct(&w),
        }
    } else {
        copy_px_pct(&w)
    };
    Some(BackgroundSize::Length(w, h))
}

/// A percentage whose number is the given text.
fn pct_of(text: &str) -> (r: PxPct)
    ensures
        r@ == Len::Pct(text@),
{
    PxPct::Pct(Number(text.to_string()))
}

/// A word of `background-position`: a side or `center` as a percentage, else
/// a length.
pub open spec fn position_word(v: Seq<char>) -> Option<Len> {
    if v == "left"@ || v == "top"@ {
        Some(Len::Pct("0"@))
    } else if v == "right"@ || v == "bottom"@ {
        Some(Len::Pct("100"@))
    } else if v == "center"@ {
        Some(Len::Pct("50"@))
    } else {
        len_text(v)
    }
}

fn position_word_exec(v: &str) -> (r: Option<PxPct>)
    requires
        fits_depth(v@),
    ensures
        opt_len(r) == position_word(v@),
{
    if str_is(v, "left") || str_is(v, "top") {
        Some(pct_of("0"))
    } else if str_is(v, "right") || str_is(v, "bottom") {
        Some(pct_of("100"))
    } else if str_is(v, "center") {
        Some(pct_of("50"))
    } else {
        parse_px_pct(v)
    }
}

/// `background-position`: `x` then `y`, `y` being `x` again where the second
/// word is missing or unreadable.
pub open spec fn background_position_text(s: Seq<char>) -> Option<(Len, Len)> {
    let w = words(s);
    if w.len() == 0 {
        None
    } else {
        match position_word(w[0]) {
            None => None,
            Some(x) => Some(
                (
                    x,
                    if w.len() >= 2 && position_word(w[1]) is Some {
                        position_word(w[1]).unwrap()
                    } else {
                        x
                    },
                ),
            ),
        }
    }
}

pub fn parse_background_position(s: &str) -> (r: Option<(PxPct, PxPct)>)
    requires
        fits_depth(s@),
    ensures
        match r {
            Some(p) => background_position_text(s@) == Some((p.0@, p.1@)),
            None => background_position_text(s@) is None,
        },
{
    let parts = split_whitespace(s);
    proof {
        lemma_words_fit(s@, 0);
        assert(parts@.len() == words(s@).len());
    }
    if parts.len() == 0 {
        return None;
    }
    assert(parts@[0]@ == words(s@)[0]);
    let x = match position_word_exec(parts[0]) {
        Some(p) => p,
        None => return None,
    };
    let y = if parts.len() >= 2 {
        assert(parts@[1]@ == words(s@)[1]);
        match position_word_exec(parts[1]) {
            Some(p) => p,
            None => copy_px_pct(&x),
        }
    } else {
        copy_px_pct(&x)
    };
    Some((x, y))
}

// ---------------------------------------------------------------------------
// Grid tracks
// ---------------------------------------------------------------------------

/// The number in front of `suffix`, trimmed, where the float parser accepts it.
pub open spec fn track_number(t: Seq<char>, suffix: Seq<char>) -> Option<Seq<char>> {
    match strip_suffix(t, suffix) {
        Some(p) => if is_float_literal(trim(p)) {
            Some(trim(p))
        } else {
            None
        },
        None => None,
    }
}

/// A track size: a keyword, a number of `fr`, `%` or `px`, `minmax(a, b)` or
/// `fit-content(length)`, after trimming.
pub open spec fn track_text(s: Seq<char>) -> Option<Track>
    decreases s.len(),
{
    let t = trim(s);
    if t == "auto"@ {
        Some(Track::Auto)
    } else if t == "min-content"@ {
        Some(Track::MinContent)
    } else if t == "max-content"@ {
        Some(Track::MaxContent)
    } else if ends_with(t, "fr"@) {
        match track_number(t, "fr"@) {
            Some(n) => Some(Track::Fr(n)),
            None => None,
        }
    } else if ends_with(t, "%"@) {
        match track_number(t, "%"@) {
            Some(n) => Some(Track::Pct(n)),
            None => None,
        }
    } else if ends_with(t, "px"@) {
        match track_number(t, "px"@) {
            Some(n) => Some(Track::Px(n)),
            None => None,
        }
    } else if starts_with(t, "minmax("@) {
        match strip_suffix(t.skip("minmax("@.len() as int), ")"@) {
            None => None,
            Some(inner) => {
                proof {
                    reveal_strlit("minmax(");
                    reveal_strlit(")");
                    lemma_trim_len(s);
                    crate::text::lemma_index_from(inner, ',', 0);
                }
                match find(inner, ',') {
                    None => None,
                    Some(k) => match (track_text(inner.take(k)), track_text(inner.skip(k + 1))) {
                        (Some(a), Some(b)) => Some(Track::MinMax(Box::new(a), Box::new(b))),
                        _ => None,
                    },
                }
            },
        }
    } else if starts_with(t, "fit-content("@) {
        match strip_suffix(t.skip("fit-content("@.len() as int), ")"@) {
            None => None,
            Some(inner) => match len_text(inner) {
                Some(l) => Some(Track::FitContent(l)),
                None => None,
            },
        }
    } else {
        None
    }
}

pub open spec fn opt_track(r: Option<TrackSize>) -> Option<Track> {
    match r {
        Some(t) => Some(t@),
        None => None,
    }
}

fn track_number_exec(t: &[char], suffix: &str) -> (r: Option<Number>)
    ensures
        match r {
            Some(n) => track_number(t@, suffix@) == Some(n@),
            None => track_number(t@, suffix@) is None,
        },
{
    match slice_strip_suffix(t, suffix) {
        Some(p) => crate::values::number_of(trim_slice(p)),
        None => None,
    }
}

fn track_chars(s: &[char]) -> (r: Option<TrackSize>)
    requires
        fits_depth(s@),
    ensures
        opt_track(r) == track_text(s@),
    decreases s@.len(),
{
    let t = trim_slice(s);
    proof {
        lemma_trim_len(s@);
        reveal_strlit("minmax(");
        reveal_strlit("fit-content(");
        reveal_strlit(")");
    }
    if crate::selector::slice_is(t, "auto") {
        return Some(TrackSize::Auto);
    }
    if crate::selector::slice_is(t, "min-content") {
        return Some(TrackSize::MinContent);
    }
    if crate::selector::slice_is(t, "max-content") {
        return Some(TrackSize::MaxContent);
    }
    if crate::text::slice_ends_with(t, "fr") {
        return match track_number_exec(t, "fr") {
            Some(n) => Some(TrackSize::Fr(n)),
            None => None,
        };
    }
    if crate::text::slice_ends_with(t, "%") {
        return match track_number_exec(t, "%") {
            Some(n) => Some(TrackSize::Pct(n)),
            None => None,
        };
    }
    if crate::text::slice_ends_with(t, "px") {
        return match track_number_exec(t, "px") {
            Some(n) => Some(TrackSize::Px(n)),
            None => None,
        };
    }
    if slice_starts_with(t, "minmax(") {
        let rest = match slice_strip_prefix(t, "minmax(") {
            Some(r) => r,
            None => return None,
        };
        let inner = match slice_strip_suffix(rest, ")") {
            Some(r) => r,
            None => return None,
        };
        proof {
            crate::text::lemma_index_from(inner@, ',', 0);
        }
        let k = match slice_find(inner, ',') {
            Some(k) => k,
            None => return None,
        };
        let min = match track_chars(slice_subrange(inner, 0, k)) {
            Some(m) => m,
            None => return None,
        };
        let max = match track_chars(slice_subrange(inner, k + 1, inner.len())) {
            Some(m) => m,
            None => return None,
        };
        return Some(TrackSize::MinMax(Box::new(min), Box::new(max)));
    }
    if slice_starts_with(t, "fit-content(") {
        let rest = match slice_strip_prefix(t, "fit-content(") {
            Some(r) => r,
            None => return None,
        };
        let inner = match slice_strip_suffix(rest, ")") {
            Some(r) => r,
            None => return None,
        };
        return match px_pct_chars(inner) {
            Some(v) => Some(TrackSize::FitContent(v)),
            None => None,
        };
    }
    None
}

pub fn parse_track_size(s: &str) -> (r: Option<TrackSize>)
    requires
        fits_depth(s@),
    ensures
        opt_track(r) == track_text(s@),
{
    let cs = chars_of(s);
    track_chars(cs.as_slice())
}

/// `grid-template-*`: `none` is no track; else each word must be a track size.
pub open spec fn track_list_text(s: Seq<char>) -> Option<Seq<Track>> {
    let w = words(s);
    if s == "none"@ {
        Some(seq![])
    } else if forall|k: int| 0 <= k < w.len() ==> (#[trigger] track_text(w[k])) is Some {
        Some(Seq::new(w.len(), |k: int| track_text(w[k]).unwrap()))
    } else {
        None
    }
}

pub fn parse_track_list(s: &str) -> (r: Option<TrackList>)
    requires
        fits_depth(s@),
    ensures
        match r {
            Some(l) => track_list_text(s@) == Some(tracks_of(l.0@)),
            None => track_list_text(s@) is None,
        },
{
    if str_is(s, "none") {
        let r = TrackList(Vec::new());
        assert(tracks_of(r.0@) =~= seq![]);
        return Some(r);
    }
    let parts = split_whitespace(s);
    let ghost w = words(s@);
    proof {
        lemma_words_fit(s@, 0);
        assert(parts@.len() == w.len());
    }
    let mut out: Vec<TrackSize> = Vec::new();
    let mut i: usize = 0;
    while i < parts.len()
        invariant
            i <= parts@.len(),
            parts@.len() == w.len(),
            parts@.map_values(|x: &str| x@) == w,
            w == words(s@),
            s@ != "none"@,
            forall|k: int| 0 <= k < w.len() ==> (#[trigger] w[k]).len() <= s@.len(),
            fits_depth(s@),
            out@.len() == i,
            forall|k: int| 0 <= k < i ==> (#[trigger] track_text(w[k])) == Some(out@[k]@),
        decreases parts@.len() - i,
    {
        let part = parts[i];
        assert(part@ == w[i as int]);
        match parse_track_size(part) {
            Some(t) => out.push(t),
            None => {
                assert(track_text(w[i as int]) is None);
                return None;
            },
        }
        i = i + 1;
    }
    let r = TrackList(out);
    assert(tracks_of(r.0@) =~= Seq::new(w.len(), |k: int| track_text(w[k]).unwrap()));
    Some(r)
}

/// Whether a `box-shadow` value can be split into parts (see `shadow_safe`).
pub fn is_shadow_safe(s: &[char]) -> (r: bool)
    ensures
        r == shadow_safe(s@),
{
    let n = s.len();
    let mut after_ws = false;
    let mut i: usize = 0;
    while i < n
        invariant
            i <= n,
            n == s@.len(),
            shadow_safe(s@) == shadow_scan_safe(s@, i as int, after_ws),
        decreases n - i,
    {
        let c = s[i];
        if crate::text::is_whitespace(c) {
            if (c as u32) >= 128 {
                return false;
            }
            after_ws = true;
        } else if after_ws && is_alphabetic(c) {
            return true;
        } else {
            after_ws = false;
        }
        i = i + 1;
    }
    true
}

// ---------------------------------------------------------------------------
// Laws: keywords and units
// ---------------------------------------------------------------------------

/// The word that each line style of `text-decoration` is written with.
pub open spec fn decoration_word_of(l: TextDecorationLine) -> Seq<char> {
    match l {
        TextDecorationLine::NoneValue => "none"@,
        TextDecorationLine::Underline => "underline"@,
        TextDecorationLine::Overline => "overline"@,
        TextDecorationLine::LineThrough => "line-through"@,
    }
}

/// A word of `text-decoration` names a line style exactly when it is that
/// style's word (`none` clears the whole value instead).
pub proof fn law_decoration_words(w: Seq<char>, l: TextDecorationLine)
    ensures
        l != TextDecorationLine::NoneValue ==> (decoration_line(w) == Some(l) <==> w
            == decoration_word_of(l)),
        decoration_line(w) != Some(TextDecorationLine::NoneValue),
{
    reveal_strlit("underline");
    reveal_strlit("overline");
    reveal_strlit("line-through");
    assert("underline"@.len() == 9);
    assert("overline"@.len() == 8);
    assert("line-through"@.len() == 12);
}

/// The `background-size` keywords: `cover`, `contain` and `auto` are read
/// from their own words, and a size of two lengths from lengths.
pub proof fn law_background_size_keywords(s: Seq<char>)
    ensures
        background_size_text(s) == Some(BackgroundSizeView::Cover) <==> s == "cover"@,
        background_size_text(s) == Some(BackgroundSizeView::Contain) <==> s == "contain"@,
        background_size_text(s) == Some(BackgroundSizeView::Auto) <==> s == "auto"@,
        background_size_text(s) matches Some(BackgroundSizeView::Length(x, _)) ==> (words(s).len()
            > 0 && len_text(words(s)[0]) == Some(x)),
{
    reveal_strlit("cover");
    reveal_strlit("contain");
    reveal_strlit("auto");
    assert("cover"@.len() == 5);
    assert("contain"@.len() == 7);
    assert("auto"@.len() == 4);
}

/// The sides of `background-position`: `left` and `top` are at the start
/// (`0%`), `right` and `bottom` at the end (`100%`), `center` halfway (`50%`);
/// any other word is a length.
pub proof fn law_position_words(v: Seq<char>)
    ensures
        (v == "left"@ || v == "top"@) ==> position_word(v) == Some(Len::Pct("0"@)),
        (v == "right"@ || v == "bottom"@) ==> position_word(v) == Some(Len::Pct("100"@)),
        v == "center"@ ==> position_word(v) == Some(Len::Pct("50"@)),
        !(v == "left"@ || v == "top"@ || v == "right"@ || v == "bottom"@ || v == "center"@)
            ==> position_word(v) == len_text(v),
{
    reveal_strlit("left");
    reveal_strlit("top");
    reveal_strlit("right");
    reveal_strlit("bottom");
    reveal_strlit("center");
    assert("left"@.len() == 4);
    assert("top"@.len() == 3);
    assert("right"@.len() == 5);
    assert("bottom"@.len() == 6);
    assert("center"@.len() == 6);
    assert("bottom"@[0] != "center"@[0]);
}

/// A track keeps the unit it was written with: `fr`, `%` and `px` tracks are
/// read from texts that end with that unit, with the number in front of it.
pub proof fn law_track_units(s: Seq<char>)
    ensures
        track_text(s) matches Some(Track::Fr(n)) ==> track_number(trim(s), "fr"@) == Some(n),
        track_text(s) matches Some(Track::Pct(n)) ==> track_number(trim(s), "%"@) == Some(n),
        track_text(s) matches Some(Track::Px(n)) ==> track_number(trim(s), "px"@) == Some(n),
        track_text(s) == Some(Track::Auto) <==> trim(s) == "auto"@,
        track_text(s) == Some(Track::MinContent) <==> trim(s) == "min-content"@,
        track_text(s) == Some(Track::MaxContent) <==> trim(s) == "max-content"@,
{
    reveal_strlit("auto");
    reveal_strlit("min-content");
    reveal_strlit("max-content");
    assert("auto"@.len() == 4);
    assert("min-content"@.len() == 11);
    assert("max-content"@.len() == 11);
    assert("min-content"@[1] != "max-content"@[1]);
}

// ---------------------------------------------------------------------------
// Box shadows: lengths in order
// ---------------------------------------------------------------------------

/// The lengths among the parts, in order.
pub open spec fn lengths_of(p: Seq<Seq<char>>) -> Seq<Len>
    decreases p.len(),
{
    if p.len() == 0 {
        seq![]
    } else {
        lengths_of(p.drop_last()) + match len_text(p.last()) {
            Some(l) => seq![l],
            None => seq![],
        }
    }
}

/// The colors among the parts, in order.
pub open spec fn colors_of(p: Seq<Seq<char>>) -> Seq<Color>
    decreases p.len(),
{
    if p.len() == 0 {
        seq![]
    } else {
        colors_of(p.drop_last()) + match css_color(p.last()) {
            Some(c) => seq![c],
            None => seq![],
        }
    }
}

/// The `k`-th length of a shadow, or zero where there are fewer.
pub open spec fn length_or_zero(ls: Seq<Len>, k: int) -> Len {
    if k < ls.len() {
        ls[k]
    } else {
        Len::Px(crate::units::zero_text())
    }
}

/// A box shadow takes its lengths in the order written: the first is the
/// horizontal offset, the second the vertical one, then the blur and the
/// spread (zero where not written); its color is the part that is a color
/// (black where there is none). This holds where no part reads both as a
/// length and as a color.
pub proof fn law_shadow_lengths_in_order(s: Seq<char>)
    requires
        forall|i: int|
            0 <= i < shadow_parts(s).len() ==> !(len_text(#[trigger] shadow_parts(s)[i]) is Some
                && css_color(shadow_parts(s)[i]) is Some),
    ensures
        box_shadow_text(s) matches Some(b) ==> ({
            let ls = lengths_of(shadow_parts(s));
            let cs = colors_of(shadow_parts(s));
            &&& ls.len() >= 2
            &&& b.h_offset == ls[0]
            &&& b.v_offset == ls[1]
            &&& b.blur_radius == length_or_zero(ls, 2)
            &&& b.spread == length_or_zero(ls, 3)
            &&& b.color == if cs.len() > 0 {
                cs[0]
            } else {
                default_shadow().color
            }
        }),
{
    let p = shadow_parts(s);
    if box_shadow_text(s) is Some {
        reveal_with_fuel(lengths_of, 6);
        reveal_with_fuel(colors_of, 6);
        assert(p.len() >= 2 && p.len() <= 5);
        let p1 = p.take(1);
        let p2 = p.take(2);
        assert(p1.drop_last() =~= Seq::<Seq<char>>::empty());
        assert(p2.drop_last() =~= p1);
        assert(p1.last() == p[0]);
        assert(p2.last() == p[1]);
        if p.len() == 2 {
            assert(p =~= p2);
        } else {
            let p3 = p.take(3);
            assert(p3.drop_last() =~= p2);
            assert(p3.last() == p[2]);
            if p.len() == 3 {
                assert(p =~= p3);
            } else {
                let p4 = p.take(4);
                assert(p4.drop_last() =~= p3);
                assert(p4.last() == p[3]);
                if p.len() == 4 {
                    assert(p =~= p4);
                } else {
                    assert(p.drop_last() =~= p4);
                }
            }
        }
        assert(!(len_text(p[0]) is Some && css_color(p[0]) is Some));
        assert(!(len_text(p[1]) is Some && css_color(p[1]) is Some));
        if p.len() > 2 {
            assert(!(len_text(p[2]) is Some && css_color(p[2]) is Some));
        }
        if p.len() > 3 {
            assert(!(len_text(p[3]) is Some && css_color(p[3]) is Some));
        }
        if p.len() > 4 {
            assert(!(len_text(p[4]) is Some && css_color(p[4]) is Some));
        }
    }
}

} // verus!
