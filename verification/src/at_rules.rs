//! Parsed representation of CSS at-rules: media queries, `@font-face` and
//! `@import`.
//!
//! Media queries are stored as structured data; evaluating them against a
//! viewport is left to the caller.
use vstd::prelude::*;
use vstd::slice::slice_subrange;

use crate::length::{fits_depth, len_text, opt_len, px_pct_chars};
use crate::selector::slice_is;
use crate::text::{
    chars_of, ends_with, find, find_seq, lemma_find_seq_from, lemma_index_from, lemma_trim_len,
    slice_find, slice_find_seq, slice_starts_with, slice_strip_prefix, split_char, split_on,
    starts_with, string_from_chars, trim, trim_matches, trim_matches_slice, trim_slice,
    trim_start, trim_start_slice,
};
use crate::units::{copy_px_pct, Len, PxPct, TextStyle, Weight};
use crate::values::{font_style_of, font_weight_of, parse_font_style, parse_font_weight};

verus! {

broadcast use vstd::seq_lib::group_seq_properties;

// ---------------------------------------------------------------------------
// MediaQuery
// ---------------------------------------------------------------------------

#[derive(Debug, Clone, Copy, PartialEq, Eq, Structural)]
pub enum Orientation {
    Portrait,
    Landscape,
}

#[derive(Debug, Clone, Copy, PartialEq, Eq, Structural)]
pub enum ColorScheme {
    Light,
    Dark,
}

#[derive(Debug, PartialEq)]
pub enum MediaFeature {
    MaxWidth(PxPct),
    MinWidth(PxPct),
    MaxHeight(PxPct),
    MinHeight(PxPct),
    Width(PxPct),
    Height(PxPct),
    Orientation(Orientation),
    PrefersColorScheme(ColorScheme),
    PrefersReducedMotion,
    HoverCapable,
    /// Unknown or unsupported feature — stored raw for future use
    Unknown(String),
}

#[derive(Debug, PartialEq)]
pub enum MediaQuery {
    All,
    Screen,
    Print,
    Feature(MediaFeature),
    Not(Box<MediaQuery>),
    And(Box<MediaQuery>, Box<MediaQuery>),
    Or(Box<MediaQuery>, Box<MediaQuery>),
}

/// The content of a media feature.
pub enum FeatureView {
    MaxWidth(Len),
    MinWidth(Len),
    MaxHeight(Len),
    MinHeight(Len),
    Width(Len),
    Height(Len),
    Orientation(Orientation),
    PrefersColorScheme(ColorScheme),
    PrefersReducedMotion,
    HoverCapable,
    Unknown(Seq<char>),
}

/// The content of a media query.
pub enum QueryView {
    All,
    Screen,
    Print,
    Feature(FeatureView),
    Not(Box<QueryView>),
    And(Box<QueryView>, Box<QueryView>),
    Or(Box<QueryView>, Box<QueryView>),
}

impl View for MediaFeature {
    type V = FeatureView;

    open spec fn view(&self) -> FeatureView {
        match *self {
            MediaFeature::MaxWidth(v) => FeatureView::MaxWidth(v@),
            MediaFeature::MinWidth(v) => FeatureView::MinWidth(v@),
            MediaFeature::MaxHeight(v) => FeatureView::MaxHeight(v@),
            MediaFeature::MinHeight(v) => FeatureView::MinHeight(v@),
            MediaFeature::Width(v) => FeatureView::Width(v@),
            MediaFeature::Height(v) => FeatureView::Height(v@),
            MediaFeature::Orientation(o) => FeatureView::Orientation(o),
            MediaFeature::PrefersColorScheme(c) => FeatureView::PrefersColorScheme(c),
            MediaFeature::PrefersReducedMotion => FeatureView::PrefersReducedMotion,
            MediaFeature::HoverCapable => FeatureView::HoverCapable,
            MediaFeature::Unknown(s) => FeatureView::Unknown(s@),
        }
    }
}

pub open spec fn query_of(q: MediaQuery) -> QueryView
    decreases q,
{
    match q {
        MediaQuery::All => QueryView::All,
        MediaQuery::Screen => QueryView::Screen,
        MediaQuery::Print => QueryView::Print,
        MediaQuery::Feature(f) => QueryView::Feature(f@),
        MediaQuery::Not(a) => QueryView::Not(Box::new(query_of(*a))),
        MediaQuery::And(a, b) => QueryView::And(Box::new(query_of(*a)), Box::new(query_of(*b))),
        MediaQuery::Or(a, b) => QueryView::Or(Box::new(query_of(*a)), Box::new(query_of(*b))),
    }
}

impl View for MediaQuery {
    type V = QueryView;

    open spec fn view(&self) -> QueryView {
        query_of(*self)
    }
}

// ---------------------------------------------------------------------------
// Media features follow their names
// ---------------------------------------------------------------------------

/// The feature name that each kind of feature is written with.
pub open spec fn feature_name(f: FeatureView) -> Option<Seq<char>> {
    match f {
        FeatureView::MaxWidth(_) => Some("max-width"@),
        FeatureView::MinWidth(_) => Some("min-width"@),
        FeatureView::MaxHeight(_) => Some("max-height"@),
        FeatureView::MinHeight(_) => Some("min-height"@),
        FeatureView::Width(_) => Some("width"@),
        FeatureView::Height(_) => Some("height"@),
        FeatureView::Orientation(_) => Some("orientation"@),
        FeatureView::PrefersColorScheme(_) => Some("prefers-color-scheme"@),
        _ => None,
    }
}

/// The length that a length feature holds.
pub open spec fn feature_len(f: FeatureView) -> Option<Len> {
    match f {
        FeatureView::MaxWidth(l) => Some(l),
        FeatureView::MinWidth(l) => Some(l),
        FeatureView::MaxHeight(l) => Some(l),
        FeatureView::MinHeight(l) => Some(l),
        FeatureView::Width(l) => Some(l),
        FeatureView::Height(l) => Some(l),
        _ => None,
    }
}

/// The names of the features whose value is a length.
pub open spec fn is_length_feature_name(n: Seq<char>) -> bool {
    n == "max-width"@ || n == "min-width"@ || n == "max-height"@ || n == "min-height"@
        || n == "width"@ || n == "height"@
}

/// The keyword of each orientation.
pub open spec fn orientation_word(o: Orientation) -> Seq<char> {
    match o {
        Orientation::Portrait => "portrait"@,
        Orientation::Landscape => "landscape"@,
    }
}

/// The keyword of each color scheme.
pub open spec fn scheme_word(c: ColorScheme) -> Seq<char> {
    match c {
        ColorScheme::Dark => "dark"@,
        ColorScheme::Light => "light"@,
    }
}

/// The name and the value of a `name: value` feature text, each trimmed.
pub open spec fn feature_parts(s: Seq<char>) -> Option<(Seq<char>, Seq<char>)> {
    let t = trim(s);
    match find(t, ':') {
        Some(i) => Some((trim(t.take(i)), trim(t.skip(i + 1)))),
        None => None,
    }
}

/// A media feature is the one that its name says: a feature of a given kind
/// is read only from a text with that kind's name, a length feature holds the
/// length that its value reads as, and an orientation or color scheme holds
/// the keyword of its value. Conversely, a length feature name with a value
/// that reads as a length gives that feature with that length.
pub proof fn law_feature_follows_name(s: Seq<char>)
    ensures
        feature_name(feature_text(s)) matches Some(n) ==> (feature_parts(s) matches Some(
            parts,
        ) && parts.0 == n),
        feature_len(feature_text(s)) matches Some(l) ==> (feature_parts(s) matches Some(parts)
            && len_text(parts.1) == Some(l)),
        feature_text(s) matches FeatureView::Orientation(o) ==> (feature_parts(s) matches Some(
            parts,
        ) && parts.1 == orientation_word(o)),
        feature_text(s) matches FeatureView::PrefersColorScheme(c) ==> (feature_parts(s) matches Some(
            parts,
        ) && parts.1 == scheme_word(c)),
        match feature_parts(s) {
            Some(parts) => is_length_feature_name(parts.0) && len_text(parts.1) is Some
                ==> feature_name(feature_text(s)) == Some(parts.0) && feature_len(feature_text(s))
                == len_text(parts.1),
            None => true,
        },
{
    reveal_strlit("max-width");
    reveal_strlit("min-width");
    reveal_strlit("max-height");
    reveal_strlit("min-height");
    reveal_strlit("width");
    reveal_strlit("height");
    reveal_strlit("orientation");
    reveal_strlit("prefers-color-scheme");
    reveal_strlit("prefers-reduced-motion");
    reveal_strlit("portrait");
    reveal_strlit("landscape");
    reveal_strlit("dark");
    reveal_strlit("light");
    assert("max-width"@.len() == 9);
    assert("min-width"@.len() == 9);
    assert("max-height"@.len() == 10);
    assert("min-height"@.len() == 10);
    assert("width"@.len() == 5);
    assert("height"@.len() == 6);
    assert("orientation"@.len() == 11);
    assert("prefers-color-scheme"@.len() == 20);
    assert("prefers-reduced-motion"@.len() == 22);
    assert("max-width"@[1] != "min-width"@[1]);
    assert("max-height"@[1] != "min-height"@[1]);
}

/// The features of a query, from left to right.
pub open spec fn query_features(q: QueryView) -> Seq<FeatureView>
    decreases q,
{
    match q {
        QueryView::Feature(f) => seq![f],
        QueryView::Not(a) => query_features(*a),
        QueryView::And(a, b) => query_features(*a) + query_features(*b),
        QueryView::Or(a, b) => query_features(*a) + query_features(*b),
        _ => seq![],
    }
}

/// Whether a query holds, given whether the output is a screen and, for each
/// of its features from left to right, whether that feature holds.
pub open spec fn query_holds(q: QueryView, screen: bool, results: Seq<bool>) -> bool
    decreases q,
{
    match q {
        QueryView::All => true,
        QueryView::Screen => screen,
        QueryView::Print => !screen,
        QueryView::Feature(_) => results[0],
        QueryView::Not(a) => !query_holds(*a, screen, results),
        QueryView::And(a, b) => {
            let n = query_features(*a).len() as int;
            query_holds(*a, screen, results.take(n)) && query_holds(*b, screen, results.skip(n))
        },
        QueryView::Or(a, b) => {
            let n = query_features(*a).len() as int;
            query_holds(*a, screen, results.take(n)) || query_holds(*b, screen, results.skip(n))
        },
    }
}

impl MediaQuery {
    /// The number of features of the query.
    pub fn feature_count(&self) -> (r: usize)
        requires
            query_features(self@).len() <= usize::MAX,
        ensures
            r == query_features(self@).len(),
        decreases self,
    {
        match self {
            MediaQuery::Feature(_) => 1,
            MediaQuery::Not(a) => a.feature_count(),
            MediaQuery::And(a, b) => a.feature_count() + b.feature_count(),
            MediaQuery::Or(a, b) => a.feature_count() + b.feature_count(),
            _ => 0,
        }
    }

    /// The features of the query, from left to right, each to be evaluated
    /// for `holds`.
    pub fn features(&self) -> (r: Vec<&MediaFeature>)
        ensures
            r@.map_values(|f: &MediaFeature| f@) == query_features(self@),
        decreases self,
    {
        match self {
            MediaQuery::Feature(f) => {
                let r = vec![f];
                assert(r@.map_values(|f: &MediaFeature| f@) =~= seq![f@]);
                r
            },
            MediaQuery::Not(a) => a.features(),
            MediaQuery::And(a, b) | MediaQuery::Or(a, b) => {
                let mut x = a.features();
                let mut y = b.features();
                let ghost xv = x@;
                let ghost yv = y@;
                x.append(&mut y);
                assert(x@.map_values(|f: &MediaFeature| f@) =~= xv.map_values(
                    |f: &MediaFeature| f@,
                ) + yv.map_values(|f: &MediaFeature| f@));
                x
            },
            _ => {
                let r: Vec<&MediaFeature> = Vec::new();
                assert(r@.map_values(|f: &MediaFeature| f@) =~= Seq::<FeatureView>::empty());
                r
            },
        }
    }

    /// Whether the query holds, given whether the output is a screen and, for
    /// each of its features from left to right (see `features`), whether that
    /// feature holds: `not`, `and` and `or` combine what their parts give.
    pub fn holds(&self, is_screen: bool, results: &[bool]) -> (r: bool)
        requires
            results@.len() == query_features(self@).len(),
        ensures
            r == query_holds(self@, is_screen, results@),
        decreases self,
    {
        match self {
            MediaQuery::All => true,
            MediaQuery::Screen => is_screen,
            MediaQuery::Print => !is_screen,
            MediaQuery::Feature(_) => results[0],
            MediaQuery::Not(a) => !a.holds(is_screen, results),
            MediaQuery::And(a, b) => {
                let total = results.len();
                assert(query_features(self@) == query_features(a@) + query_features(b@));
                assert(query_features(a@).len() <= total);
                let n = a.feature_count();
                let left = slice_subrange(results, 0, n);
                let right = slice_subrange(results, n, total);
                assert(left@ =~= results@.take(n as int));
                assert(right@ =~= results@.skip(n as int));
                a.holds(is_screen, left) && b.holds(is_screen, right)
            },
            MediaQuery::Or(a, b) => {
                let total = results.len();
                assert(query_features(self@) == query_features(a@) + query_features(b@));
                assert(query_features(a@).len() <= total);
                let n = a.feature_count();
                let left = slice_subrange(results, 0, n);
                let right = slice_subrange(results, n, total);
                assert(left@ =~= results@.take(n as int));
                assert(right@ =~= results@.skip(n as int));
                a.holds(is_screen, left) || b.holds(is_screen, right)
            },
        }
    }
}

impl Clone for MediaFeature {
    fn clone(&self) -> (r: Self)
        ensures
            r@ == self@,
    {
        match self {
            MediaFeature::MaxWidth(v) => MediaFeature::MaxWidth(copy_px_pct(v)),
            MediaFeature::MinWidth(v) => MediaFeature::MinWidth(copy_px_pct(v)),
            MediaFeature::MaxHeight(v) => MediaFeature::MaxHeight(copy_px_pct(v)),
            MediaFeature::MinHeight(v) => MediaFeature::MinHeight(copy_px_pct(v)),
            MediaFeature::Width(v) => MediaFeature::Width(copy_px_pct(v)),
            MediaFeature::Height(v) => MediaFeature::Height(copy_px_pct(v)),
            MediaFeature::Orientation(o) => MediaFeature::Orientation(*o),
            MediaFeature::PrefersColorScheme(c) => MediaFeature::PrefersColorScheme(*c),
            MediaFeature::PrefersReducedMotion => MediaFeature::PrefersReducedMotion,
            MediaFeature::HoverCapable => MediaFeature::HoverCapable,
            MediaFeature::Unknown(t) => MediaFeature::Unknown(t.clone()),
        }
    }
}

impl Clone for MediaQuery {
    fn clone(&self) -> (r: Self)
        ensures
            r@ == self@,
        decreases self,
    {
        match self {
            MediaQuery::All => MediaQuery::All,
            MediaQuery::Screen => MediaQuery::Screen,
            MediaQuery::Print => MediaQuery::Print,
            MediaQuery::Feature(f) => MediaQuery::Feature(f.clone()),
            MediaQuery::Not(a) => MediaQuery::Not(Box::new((**a).clone())),
            MediaQuery::And(a, b) => MediaQuery::And(
                Box::new((**a).clone()),
                Box::new((**b).clone()),
            ),
            MediaQuery::Or(a, b) => MediaQuery::Or(
                Box::new((**a).clone()),
                Box::new((**b).clone()),
            ),
        }
    }
}

/// A media feature whose value is a length, or the raw text where the value
/// is not one.
pub open spec fn length_feature(
    value: Seq<char>,
    raw: Seq<char>,
    make: spec_fn(Len) -> FeatureView,
) -> FeatureView {
    match len_text(value) {
        Some(l) => make(l),
        None => FeatureView::Unknown(raw),
    }
}

/// A media feature: `name: value` or a bare name, after trimming.
pub open spec fn feature_text(s: Seq<char>) -> FeatureView {
    let t = trim(s);
    match find(t, ':') {
        Some(idx) => {
            let name = trim(t.take(idx));
            let value = trim(t.skip(idx + 1));
            if name == "max-width"@ {
                length_feature(value, t, |l: Len| FeatureView::MaxWidth(l))
            } else if name == "min-width"@ {
                length_feature(value, t, |l: Len| FeatureView::MinWidth(l))
            } else if name == "max-height"@ {
                length_feature(value, t, |l: Len| FeatureView::MaxHeight(l))
            } else if name == "min-height"@ {
                length_feature(value, t, |l: Len| FeatureView::MinHeight(l))
            } else if name == "width"@ {
                length_feature(value, t, |l: Len| FeatureView::Width(l))
            } else if name == "height"@ {
                length_feature(value, t, |l: Len| FeatureView::Height(l))
            } else if name == "orientation"@ {
                if value == "portrait"@ {
                    FeatureView::Orientation(Orientation::Portrait)
                } else if value == "landscape"@ {
                    FeatureView::Orientation(Orientation::Landscape)
                } else {
                    FeatureView::Unknown(t)
                }
            } else if name == "prefers-color-scheme"@ {
                if value == "dark"@ {
                    FeatureView::PrefersColorScheme(ColorScheme::Dark)
                } else if value == "light"@ {
                    FeatureView::PrefersColorScheme(ColorScheme::Light)
                } else {
                    FeatureView::Unknown(t)
                }
            } else if name == "prefers-reduced-motion"@ {
                FeatureView::PrefersReducedMotion
            } else {
                FeatureView::Unknown(t)
            }
        },
        None => if t == "hover"@ {
            FeatureView::HoverCapable
        } else if t == "prefers-reduced-motion"@ {
            FeatureView::PrefersReducedMotion
        } else {
            FeatureView::Unknown(t)
        },
    }
}

/// A media query, after trimming: empty or `all`, `screen`, `print`,
/// `not q`, `a, b` (split at the first comma), `a and b` (split at the first
/// ` and `), `(feature)`, and any other text as an unknown feature.
pub open spec fn media_text(s: Seq<char>) -> QueryView
    decreases s.len(),
{
    let t = trim(s);
    proof {
        lemma_trim_len(s);
        lemma_index_from(t, ',', 0);
        lemma_find_seq_from(t, " and "@, 0);
        reveal_strlit("not ");
        reveal_strlit(" and ");
    }
    if t.len() == 0 || t == "all"@ {
        QueryView::All
    } else if t == "screen"@ {
        QueryView::Screen
    } else if t == "print"@ {
        QueryView::Print
    } else if starts_with(t, "not "@) {
        QueryView::Not(Box::new(media_text(t.skip(4))))
    } else if find(t, ',') is Some {
        let k = find(t, ',').unwrap();
        QueryView::Or(Box::new(media_text(t.take(k))), Box::new(media_text(t.skip(k + 1))))
    } else if find_seq(t, " and "@) is Some {
        let k = find_seq(t, " and "@).unwrap();
        QueryView::And(Box::new(media_text(t.take(k))), Box::new(media_text(t.skip(k + 5))))
    } else if starts_with(t, "("@) && ends_with(t.skip(1), ")"@) {
        QueryView::Feature(feature_text(t.subrange(1, t.len() - 1)))
    } else {
        QueryView::Feature(FeatureView::Unknown(t))
    }
}

fn length_feature_exec(value: &[char], raw: &[char], kind: u8) -> (r: MediaFeature)
    requires
        fits_depth(value@),
        kind < 6,
    ensures
        r@ == length_feature(
            value@,
            raw@,
            if kind == 0 {
                |l: Len| FeatureView::MaxWidth(l)
            } else if kind == 1 {
                |l: Len| FeatureView::MinWidth(l)
            } else if kind == 2 {
                |l: Len| FeatureView::MaxHeight(l)
            } else if kind == 3 {
                |l: Len| FeatureView::MinHeight(l)
            } else if kind == 4 {
                |l: Len| FeatureView::Width(l)
            } else {
                |l: Len| FeatureView::Height(l)
            },
        ),
{
    match px_pct_chars(value) {
        Some(v) => if kind == 0 {
            MediaFeature::MaxWidth(v)
        } else if kind == 1 {
            MediaFeature::MinWidth(v)
        } else if kind == 2 {
            MediaFeature::MaxHeight(v)
        } else if kind == 3 {
            MediaFeature::MinHeight(v)
        } else if kind == 4 {
            MediaFeature::Width(v)
        } else {
            MediaFeature::Height(v)
        },
        None => MediaFeature::Unknown(string_from_chars(raw)),
    }
}

fn feature_chars(s: &[char]) -> (r: MediaFeature)
    requires
        fits_depth(s@),
    ensures
        r@ == feature_text(s@),
{
    let t = trim_slice(s);
    proof {
        lemma_trim_len(s@);
    }
    match slice_find(t, ':') {
        Some(idx) => {
            proof {
                lemma_index_from(t@, ':', 0);
            }
            let name = trim_slice(slice_subrange(t, 0, idx));
            let value = trim_slice(slice_subrange(t, idx + 1, t.len()));
            proof {
                assert(t@.take(idx as int) =~= t@.subrange(0, idx as int));
                assert(t@.skip(idx + 1) =~= t@.subrange(idx + 1, t@.len() as int));
                lemma_trim_len(t@.skip(idx + 1));
            }
            if slice_is(name, "max-width") {
                length_feature_exec(value, t, 0)
            } else if slice_is(name, "min-width") {
                length_feature_exec(value, t, 1)
            } else if slice_is(name, "max-height") {
                length_feature_exec(value, t, 2)
            } else if slice_is(name, "min-height") {
                length_feature_exec(value, t, 3)
            } else if slice_is(name, "width") {
                length_feature_exec(value, t, 4)
            } else if slice_is(name, "height") {
                length_feature_exec(value, t, 5)
            } else if slice_is(name, "orientation") {
                if slice_is(value, "portrait") {
                    MediaFeature::Orientation(Orientation::Portrait)
                } else if slice_is(value, "landscape") {
                    MediaFeature::Orientation(Orientation::Landscape)
                } else {
                    MediaFeature::Unknown(string_from_chars(t))
                }
            } else if slice_is(name, "prefers-color-scheme") {
                if slice_is(value, "dark") {
                    MediaFeature::PrefersColorScheme(ColorScheme::Dark)
                } else if slice_is(value, "light") {
                    MediaFeature::PrefersColorScheme(ColorScheme::Light)
                } else {
                    MediaFeature::Unknown(string_from_chars(t))
                }
            } else if slice_is(name, "prefers-reduced-motion") {
                MediaFeature::PrefersReducedMotion
            } else {
                MediaFeature::Unknown(string_from_chars(t))
            }
        },
        None => if slice_is(t, "hover") {
            MediaFeature::HoverCapable
        } else if slice_is(t, "prefers-reduced-motion") {
            MediaFeature::PrefersReducedMotion
        } else {
            MediaFeature::Unknown(string_from_chars(t))
        },
    }
}

fn query_chars(s: &[char]) -> (r: MediaQuery)
    requires
        fits_depth(s@),
    ensures
        r@ == media_text(s@),
    decreases s@.len(),
{
    let t = trim_slice(s);
    proof {
        lemma_trim_len(s@);
        lemma_index_from(t@, ',', 0);
        lemma_find_seq_from(t@, " and "@, 0);
        reveal_strlit("not ");
        reveal_strlit(" and ");
        reveal_strlit("(");
        reveal_strlit(")");
    }
    if t.len() == 0 || slice_is(t, "all") {
        return MediaQuery::All;
    }
    if slice_is(t, "screen") {
        return MediaQuery::Screen;
    }
    if slice_is(t, "print") {
        return MediaQuery::Print;
    }
    if slice_starts_with(t, "not ") {
        let rest = slice_subrange(t, 4, t.len());
        return MediaQuery::Not(Box::new(query_chars(rest)));
    }
    if let Some(k) = slice_find(t, ',') {
        let lhs = query_chars(slice_subrange(t, 0, k));
        let rhs = query_chars(slice_subrange(t, k + 1, t.len()));
        return MediaQuery::Or(Box::new(lhs), Box::new(rhs));
    }
    if let Some(k) = slice_find_seq(t, " and ") {
        let lhs = query_chars(slice_subrange(t, 0, k));
        let rhs = query_chars(slice_subrange(t, k + 5, t.len()));
        return MediaQuery::And(Box::new(lhs), Box::new(rhs));
    }
    if slice_starts_with(t, "(") && crate::text::slice_ends_with(slice_subrange(t, 1, t.len()), ")") {
        let inner = slice_subrange(t, 1, t.len() - 1);
        return MediaQuery::Feature(feature_chars(inner));
    }
    MediaQuery::Feature(MediaFeature::Unknown(string_from_chars(t)))
}

/// Parse an `@media` prelude string into a `MediaQuery`.
pub fn parse_media_query(prelude: &str) -> (r: MediaQuery)
    requires
        fits_depth(prelude@),
    ensures
        r@ == media_text(prelude@),
{
    let cs = chars_of(prelude);
    query_chars(cs.as_slice())
}

// ---------------------------------------------------------------------------
// FontFace
// ---------------------------------------------------------------------------

#[derive(Clone, Debug, PartialEq)]
pub enum FontSource {
    Url(String),
    Local(String),
}

/// The content of a font source.
pub enum SourceView {
    Url(Seq<char>),
    Local(Seq<char>),
}

impl View for FontSource {
    type V = SourceView;

    open spec fn view(&self) -> SourceView {
        match *self {
            FontSource::Url(s) => SourceView::Url(s@),
            FontSource::Local(s) => SourceView::Local(s@),
        }
    }
}

#[derive(Clone, Debug)]
pub struct FontFace {
    pub family: String,
    pub src: Vec<FontSource>,
    pub weight: Option<Weight>,
    pub style: Option<TextStyle>,
}

/// The content of a `@font-face` rule; `family` is `None` until a
/// `font-family` declaration is seen.
pub struct FaceView {
    pub family: Option<Seq<char>>,
    pub src: Seq<SourceView>,
    pub weight: Option<Weight>,
    pub style: Option<TextStyle>,
}

impl View for FontFace {
    type V = FaceView;

    open spec fn view(&self) -> FaceView {
        FaceView {
            family: Some(self.family@),
            src: self.src@.map_values(|f: FontSource| f@),
            weight: self.weight,
            style: self.style,
        }
    }
}

/// A name as written, without surrounding whitespace and quotes.
pub open spec fn unquote(s: Seq<char>) -> Seq<char> {
    trim_matches(trim_matches(trim(s), '"'), '\'')
}

/// The text before the first `)` (all of it where there is none).
pub open spec fn before_paren(s: Seq<char>) -> Seq<char> {
    match find(s, ')') {
        Some(k) => s.take(k),
        None => s,
    }
}

/// The source that one comma-separated part of `src` names, if any.
pub open spec fn source_part(part: Seq<char>) -> Option<SourceView> {
    let p = trim(part);
    if starts_with(p, "url("@) {
        Some(SourceView::Url(unquote(before_paren(p.skip("url("@.len() as int)))))
    } else if starts_with(p, "local("@) {
        Some(SourceView::Local(unquote(before_paren(p.skip("local("@.len() as int)))))
    } else {
        None
    }
}

/// The sources of the first `n` parts, in order.
pub open spec fn sources_upto(parts: Seq<Seq<char>>, n: int) -> Seq<SourceView>
    decreases n,
{
    if n <= 0 {
        seq![]
    } else {
        match source_part(parts[n - 1]) {
            Some(x) => sources_upto(parts, n - 1).push(x),
            None => sources_upto(parts, n - 1),
        }
    }
}

/// The sources that a `src` value lists.
pub open spec fn sources_of(value: Seq<char>) -> Seq<SourceView> {
    sources_upto(split_on(value, ','), split_on(value, ',').len() as int)
}

/// The font face after the first `n` declarations: `font-family` sets the
/// family, `src` adds sources, `font-weight` and `font-style` set (or clear)
/// those fields; other properties are ignored.
pub open spec fn face_upto(decls: Seq<(Seq<char>, Seq<char>)>, n: int) -> FaceView
    decreases n,
{
    if n <= 0 {
        FaceView { family: None, src: seq![], weight: None, style: None }
    } else {
        let f = face_upto(decls, n - 1);
        let (prop, value) = decls[n - 1];
        if prop == "font-family"@ {
            FaceView { family: Some(trim_matches(trim_matches(value, '"'), '\'')), ..f }
        } else if prop == "src"@ {
            FaceView { src: f.src + sources_of(value), ..f }
        } else if prop == "font-weight"@ {
            FaceView { weight: font_weight_of(value), ..f }
        } else if prop == "font-style"@ {
            FaceView { style: font_style_of(value), ..f }
        } else {
            f
        }
    }
}

/// A `@font-face` rule: present where a family was given.
pub open spec fn font_face_of(decls: Seq<(Seq<char>, Seq<char>)>) -> Option<FaceView> {
    let f = face_upto(decls, decls.len() as int);
    if f.family is Some {
        Some(f)
    } else {
        None
    }
}

pub open spec fn pair_views(d: Seq<(String, String)>) -> Seq<(Seq<char>, Seq<char>)> {
    d.map_values(|p: (String, String)| (p.0@, p.1@))
}

fn unquote_exec(s: &[char]) -> (r: String)
    ensures
        r@ == unquote(s@),
{
    string_from_chars(trim_matches_slice(trim_matches_slice(trim_slice(s), '"'), '\''))
}

fn before_paren_exec(s: &[char]) -> (r: &[char])
    ensures
        r@ == before_paren(s@),
{
    match slice_find(s, ')') {
        Some(k) => {
            proof {
                lemma_index_from(s@, ')', 0);
            }
            slice_subrange(s, 0, k)
        },
        None => s,
    }
}

fn source_part_exec(part: &[char]) -> (r: Option<FontSource>)
    ensures
        match r {
            Some(x) => source_part(part@) == Some(x@),
            None => source_part(part@) is None,
        },
{
    let p = trim_slice(part);
    if let Some(rest) = slice_strip_prefix(p, "url(") {
        Some(FontSource::Url(unquote_exec(before_paren_exec(rest))))
    } else if let Some(rest) = slice_strip_prefix(p, "local(") {
        Some(FontSource::Local(unquote_exec(before_paren_exec(rest))))
    } else {
        None
    }
}

/// Parse `@font-face` block declarations into a `FontFace` struct.
pub fn parse_font_face(declarations: &[(String, String)]) -> (r: Option<FontFace>)
    ensures
        match r {
            Some(f) => font_face_of(pair_views(declarations@)) == Some(f@),
            None => font_face_of(pair_views(declarations@)) is None,
        },
{
    let ghost d = pair_views(declarations@);
    let mut family: Option<String> = None;
    let mut src: Vec<FontSource> = Vec::new();
    let mut weight: Option<Weight> = None;
    let mut style: Option<TextStyle> = None;
    let mut i: usize = 0;
    while i < declarations.len()
        invariant
            i <= declarations@.len(),
            d == pair_views(declarations@),
            ({
                let f = face_upto(d, i as int);
                &&& f.family == (match family {
                    Some(x) => Some(x@),
                    None => None,
                })
                &&& f.src == src@.map_values(|x: FontSource| x@)
                &&& f.weight == weight
                &&& f.style == style
            }),
        decreases declarations@.len() - i,
    {
        let prop = declarations[i].0.as_str();
        let value = declarations[i].1.as_str();
        assert(d[i as int] == (prop@, value@));
        let ghost before = src@;
        if crate::lexer::str_is(prop, "font-family") {
            let vc = chars_of(value);
            family = Some(
                string_from_chars(trim_matches_slice(trim_matches_slice(vc.as_slice(), '"'), '\'')),
            );
        } else if crate::lexer::str_is(prop, "src") {
            let vc = chars_of(value);
            let parts = split_char(vc.as_slice(), ',');
            let ghost ps = split_on(value@, ',');
            proof {
                assert(parts@.len() == ps.len());
            }
            let mut j: usize = 0;
            while j < parts.len()
                invariant
                    j <= parts@.len(),
                    parts@.len() == ps.len(),
                    parts@.map_values(|x: &[char]| x@) == ps,
                    src@.map_values(|x: FontSource| x@) == before.map_values(|x: FontSource| x@)
                        + sources_upto(ps, j as int),
                decreases parts@.len() - j,
            {
                assert(parts@[j as int]@ == ps[j as int]);
                let ghost mid = src@;
                if let Some(x) = source_part_exec(parts[j]) {
                    src.push(x);
                    assert(src@.map_values(|x: FontSource| x@) =~= mid.map_values(
                        |x: FontSource| x@,
                    ).push(x@));
                }
                j = j + 1;
            }
        } else if crate::lexer::str_is(prop, "font-weight") {
            weight = parse_font_weight(value);
        } else if crate::lexer::str_is(prop, "font-style") {
            style = parse_font_style(value);
        }
        i = i + 1;
    }
    match family {
        Some(family) => Some(FontFace { family, src, weight, style }),
        None => None,
    }
}

// ---------------------------------------------------------------------------
// ImportRule
// ---------------------------------------------------------------------------

/// A parsed `@import` rule.
///
/// ```css
/// @import "base.css";
/// @import url("mobile.css") (max-width: 768px);
/// @import "print.css" print;
/// ```
///
/// The library does not fetch URLs: the caller loads their content and hands
/// it to `StyleSheet::absorb_import`.
#[derive(Clone, Debug)]
pub struct ImportRule {
    /// The URL or path exactly as written in the stylesheet.
    pub url: String,
    /// Optional media condition. When `None` the import is unconditional.
    pub media: Option<MediaQuery>,
}

/// The content of an `@import` rule.
pub struct ImportView {
    pub url: Seq<char>,
    pub media: Option<QueryView>,
}

impl View for ImportRule {
    type V = ImportView;

    open spec fn view(&self) -> ImportView {
        ImportView {
            url: self.url@,
            media: match self.media {
                Some(q) => Some(q@),
                None => None,
            },
        }
    }
}

/// The URL of an `@import` prelude and the text after it: `url(...)` (quotes
/// and whitespace removed), or a string in double or single quotes.
pub open spec fn import_url_text(s: Seq<char>) -> Option<(Seq<char>, Seq<char>)> {
    if starts_with(s, "url("@) {
        let after = s.skip("url("@.len() as int);
        match find(after, ')') {
            Some(close) => Some((unquote(after.take(close)), trim_start(after.skip(close + 1)))),
            None => None,
        }
    } else if starts_with(s, "\""@) {
        let inner = s.skip(1);
        match find(inner, '"') {
            Some(end) => Some((inner.take(end), trim_start(inner.skip(end + 1)))),
            None => None,
        }
    } else if starts_with(s, "'"@) {
        let inner = s.skip(1);
        match find(inner, '\'') {
            Some(end) => Some((inner.take(end), trim_start(inner.skip(end + 1)))),
            None => None,
        }
    } else {
        None
    }
}

/// An `@import` prelude: its URL, and the media query after it where there is
/// any text left.
pub open spec fn import_rule_text(prelude: Seq<char>) -> Option<ImportView> {
    match import_url_text(trim(prelude)) {
        Some((url, rest)) => Some(
            ImportView {
                url,
                media: if trim(rest).len() == 0 {
                    None
                } else {
                    Some(media_text(trim(rest)))
                },
            },
        ),
        None => None,
    }
}

fn quoted_exec(inner: &[char], q: char) -> (r: Option<(String, &[char])>)
    ensures
        match r {
            Some((url, rest)) => find(inner@, q) is Some && url@ == inner@.take(
                find(inner@, q).unwrap(),
            ) && rest@ == trim_start(inner@.skip(find(inner@, q).unwrap() + 1)) && rest@.len()
                <= inner@.len(),
            None => find(inner@, q) is None,
        },
{
    match slice_find(inner, q) {
        Some(end) => {
            proof {
                lemma_index_from(inner@, q, 0);
            }
            assert(end < inner@.len());
            assert(end < inner.len());
            let url = string_from_chars(slice_subrange(inner, 0, end));
            let rest = trim_start_slice(slice_subrange(inner, end + 1, inner.len()));
            proof {
                lemma_trim_len(inner@.skip(end + 1));
            }
            Some((url, rest))
        },
        None => None,
    }
}

/// Extract the URL string and the remaining text (media condition) from an
/// `@import` prelude.
fn extract_import_url(s: &[char]) -> (r: Option<(String, &[char])>)
    ensures
        match r {
            Some((url, rest)) => import_url_text(s@) == Some((url@, rest@)) && rest@.len()
                <= s@.len(),
            None => import_url_text(s@) is None,
        },
{
    proof {
        reveal_strlit("\"");
        reveal_strlit("'");
    }
    if let Some(after) = slice_strip_prefix(s, "url(") {
        match slice_find(after, ')') {
            Some(close) => {
                proof {
                    lemma_index_from(after@, ')', 0);
                }
                assert(close < after@.len());
                assert(close < after.len());
                let url = unquote_exec(slice_subrange(after, 0, close));
                let rest = trim_start_slice(slice_subrange(after, close + 1, after.len()));
                proof {
                    lemma_trim_len(after@.skip(close + 1));
                }
                Some((url, rest))
            },
            None => None,
        }
    } else if slice_starts_with(s, "\"") {
        quoted_exec(slice_subrange(s, 1, s.len()), '"')
    } else if slice_starts_with(s, "'") {
        quoted_exec(slice_subrange(s, 1, s.len()), '\'')
    } else {
        None
    }
}

/// Parse an `@import` prelude (the text between `@import` and `;`).
///
/// Returns `None` if the prelude is not a valid `@import` declaration.
pub fn parse_import_rule(prelude: &str) -> (r: Option<ImportRule>)
    requires
        fits_depth(prelude@),
    ensures
        match r {
            Some(ir) => import_rule_text(prelude@) == Some(ir@),
            None => import_rule_text(prelude@) is None,
        },
{
    let cs = chars_of(prelude);
    let t = trim_slice(cs.as_slice());
    proof {
        lemma_trim_len(prelude@);
    }
    match extract_import_url(t) {
        Some((url, rest)) => {
            let rt = trim_slice(rest);
            proof {
                lemma_trim_len(rest@);
            }
            let media = if rt.len() == 0 {
                None
            } else {
                Some(query_chars(rt))
            };
            Some(ImportRule { url, media })
        },
        None => None,
    }
}

// ---------------------------------------------------------------------------
// Media query keywords
// ---------------------------------------------------------------------------

/// The media types are read from their keywords: `screen` only from
/// `screen`, `print` only from `print`, and every media from `all` or from
/// nothing; `not`, `,` and `and` are read from where they are written.
pub proof fn law_media_keywords(s: Seq<char>)
    ensures
        media_text(s) == QueryView::Screen <==> trim(s) == "screen"@,
        media_text(s) == QueryView::Print <==> trim(s) == "print"@,
        media_text(s) == QueryView::All <==> (trim(s).len() == 0 || trim(s) == "all"@),
        media_text(s) is Not ==> starts_with(trim(s), "not "@),
        media_text(s) is Or ==> find(trim(s), ',') is Some,
        media_text(s) is And ==> find_seq(trim(s), " and "@) is Some,
{
    reveal_strlit("all");
    reveal_strlit("screen");
    reveal_strlit("print");
    assert("all"@.len() == 3);
    assert("screen"@.len() == 6);
    assert("print"@.len() == 5);
}

// ---------------------------------------------------------------------------
// Font faces: the last declaration of each descriptor wins
// ---------------------------------------------------------------------------

/// The value of the last of the first `n` declarations of `prop`.
pub open spec fn last_value(decls: Seq<(Seq<char>, Seq<char>)>, prop: Seq<char>, n: int) -> Option<
    Seq<char>,
>
    decreases n,
{
    if n <= 0 {
        None
    } else if decls[n - 1].0 == prop {
        Some(decls[n - 1].1)
    } else {
        last_value(decls, prop, n - 1)
    }
}

/// Each descriptor of a `@font-face` rule is read from the last declaration
/// of its own name: `font-weight` sets the weight, `font-style` the style and
/// `font-family` the family, whatever other declarations say.
pub proof fn law_font_face_descriptors(decls: Seq<(Seq<char>, Seq<char>)>, n: int)
    requires
        0 <= n <= decls.len(),
    ensures
        face_upto(decls, n).weight == match last_value(decls, "font-weight"@, n) {
            Some(v) => font_weight_of(v),
            None => None,
        },
        face_upto(decls, n).style == match last_value(decls, "font-style"@, n) {
            Some(v) => font_style_of(v),
            None => None,
        },
        face_upto(decls, n).family == match last_value(decls, "font-family"@, n) {
            Some(v) => Some(trim_matches(trim_matches(v, '"'), '\'')),
            None => None,
        },
    decreases n,
{
    reveal_strlit("font-family");
    reveal_strlit("font-weight");
    reveal_strlit("font-style");
    reveal_strlit("src");
    assert("font-family"@.len() == 11);
    assert("font-weight"@.len() == 11);
    assert("font-style"@.len() == 10);
    assert("src"@.len() == 3);
    assert("font-family"@[5] != "font-weight"@[5]);
    if n > 0 {
        law_font_face_descriptors(decls, n - 1);
    }
}

} // verus!
