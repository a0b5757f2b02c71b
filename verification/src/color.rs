//! Colors, as `csscolorparser` reads them.
use vstd::prelude::*;

verus! {

#[verifier::external_type_specification]
#[verifier::external_body]
pub struct ExColor(csscolorparser::Color);

/// What `csscolorparser::parse` gives for a text: its color, or `None` where it
/// reports an error. The result depends on the text alone.
pub uninterp spec fn css_color(s: Seq<char>) -> Option<csscolorparser::Color>;

/// `csscolorparser::parse`, with its error turned into `None`. Nothing more is
/// claimed of which texts it accepts or of the color it gives.
#[verifier::external_body]
pub(crate) fn parse_css_color(s: &str) -> (r: Option<csscolorparser::Color>)
    ensures
        r == css_color(s@),
{
    csscolorparser::parse(s).ok()
}

/// The color that `Color::from_rgba8` builds from four channel bytes.
pub uninterp spec fn rgba8(r: u8, g: u8, b: u8, a: u8) -> csscolorparser::Color;

/// `csscolorparser::Color::from_rgba8`: the result is named, not described.
#[verifier::external_body]
pub(crate) fn color_from_rgba8(r: u8, g: u8, b: u8, a: u8) -> (c: csscolorparser::Color)
    ensures
        c == rgba8(r, g, b, a),
{
    csscolorparser::Color::from_rgba8(r, g, b, a)
}

} // verus!
