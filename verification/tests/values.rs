use csscolorparser::Color;

use cssengine::at_rules::{parse_font_face, parse_import_rule, parse_media_query, FontSource, MediaFeature, MediaQuery, Orientation, ColorScheme};
use cssengine::declaration::Declaration;
use cssengine::shorthand::{
    parse_background_position, parse_background_size, parse_border, parse_box_shadow,
    parse_box_shadow_5, parse_gap, parse_text_decoration, parse_track_list, parse_track_size,
};
use cssengine::units::{
    BackgroundSize, BorderDef, Number, PxPct, TextDecorationLine, TrackSize,
};
use std::borrow::Cow;

fn px(t: &str) -> PxPct {
    PxPct::Px(Number(t.to_string()))
}

fn pct(t: &str) -> PxPct {
    PxPct::Pct(Number(t.to_string()))
}

#[test]
fn border() {
    let v = parse_border("10px").unwrap();
    assert!(v == BorderDef { width: Some(px("10")), color: None });
    let v = parse_border("10px red").unwrap();
    assert!(v == BorderDef { width: Some(px("10")), color: Some(Color::new(1.0, 0.0, 0.0, 1.0)) });
    let v = parse_border("red").unwrap();
    assert!(v == BorderDef { width: None, color: Some(Color::new(1.0, 0.0, 0.0, 1.0)) });
}

#[test]
fn box_shadow_5() {
    let v = parse_box_shadow_5(["4px", "8px", "10px", "15px", "black"]).unwrap();
    assert!(v.h_offset == px("4"));
    assert!(v.v_offset == px("8"));
    assert!(v.blur_radius == px("10"));
    assert!(v.spread == px("15"));
    assert!(v.color == Color::new(0.0, 0.0, 0.0, 1.0));
    let v = parse_box_shadow_5(["green", "4px", "8px", "10px", "15px"]).unwrap();
    println!("{v:?}");
    assert!(v.h_offset == px("4"));
    assert!(v.v_offset == px("8"));
    assert!(v.blur_radius == px("10"));
    assert!(v.spread == px("15"));
    assert!(v.color == Color::from_rgba8(0, 128, 0, 255));
}

#[test]
fn box_shadow_forms() {
    assert!(parse_box_shadow("none").is_none());
    let v = parse_box_shadow("1px 2px").unwrap();
    assert!(v.h_offset == px("1") && v.v_offset == px("2"));
    assert!(v.blur_radius == px("0") && v.color == Color::from_rgba8(0, 0, 0, 255));
    let v = parse_box_shadow("1px 2px red").unwrap();
    assert!(v.color == Color::new(1.0, 0.0, 0.0, 1.0));
    let v = parse_box_shadow("1px 2px 3px").unwrap();
    assert!(v.blur_radius == px("3"));
    let v = parse_box_shadow("1px 2px 3px 4px").unwrap();
    assert!(v.spread == px("4"));
    assert!(parse_box_shadow("1px").is_none());
    // A color name after whitespace takes the rest of the text.
    let v = parse_box_shadow("1px 2px rgb(1, 2, 3)").unwrap();
    assert!(v.color == Color::from_rgba8(1, 2, 3, 255));
}

#[test]
fn gap_needs_two_words() {
    assert_eq!(parse_gap("10px 20%"), Some((px("10"), Some(pct("20")))));
    assert_eq!(parse_gap("10px x"), Some((px("10"), None)));
    assert_eq!(parse_gap("10px"), None);
    assert_eq!(parse_gap("x 10px"), None);
}

#[test]
fn text_decoration_words() {
    let d = parse_text_decoration("underline red").unwrap();
    assert_eq!(d.line, TextDecorationLine::Underline);
    assert_eq!(d.color, Some(Color::new(1.0, 0.0, 0.0, 1.0)));
    let d = parse_text_decoration("none").unwrap();
    assert_eq!(d.line, TextDecorationLine::NoneValue);
    assert!(d.color.is_none());
    let d = parse_text_decoration("bogus line-through").unwrap();
    assert_eq!(d.line, TextDecorationLine::LineThrough);
}

#[test]
fn background_size_and_position() {
    assert_eq!(parse_background_size("cover"), Some(BackgroundSize::Cover));
    assert_eq!(parse_background_size("10px"), Some(BackgroundSize::Length(px("10"), px("10"))));
    assert_eq!(parse_background_size("10px 50%"), Some(BackgroundSize::Length(px("10"), pct("50"))));
    assert_eq!(parse_background_size("nope"), None);
    assert_eq!(parse_background_position("left top"), Some((pct("0"), pct("0"))));
    assert_eq!(parse_background_position("center"), Some((pct("50"), pct("50"))));
    assert_eq!(parse_background_position("right 5px"), Some((pct("100"), px("5"))));
    assert_eq!(parse_background_position(""), None);
}

#[test]
fn track_sizes() {
    assert_eq!(parse_track_size(" auto "), Some(TrackSize::Auto));
    assert_eq!(parse_track_size("1fr"), Some(TrackSize::Fr(Number("1".to_string()))));
    assert_eq!(parse_track_size("12px"), Some(TrackSize::Px(Number("12".to_string()))));
    assert_eq!(
        parse_track_size("minmax(10px, 1fr)"),
        Some(TrackSize::MinMax(
            Box::new(TrackSize::Px(Number("10".to_string()))),
            Box::new(TrackSize::Fr(Number("1".to_string())))
        ))
    );
    assert_eq!(parse_track_size("minmax(10px)"), None);
    assert_eq!(parse_track_size("fit-content(50%)"), Some(TrackSize::FitContent(pct("50"))));
    assert_eq!(parse_track_size("xfr"), None);
    assert_eq!(parse_track_list("none").unwrap().0.len(), 0);
    assert_eq!(parse_track_list("1fr 2fr auto").unwrap().0.len(), 3);
    assert!(parse_track_list("1fr bogus").is_none());
}

#[test]
fn media_queries_parse() {
    assert_eq!(parse_media_query(""), MediaQuery::All);
    assert_eq!(parse_media_query(" screen "), MediaQuery::Screen);
    assert_eq!(
        parse_media_query("not print"),
        MediaQuery::Not(Box::new(MediaQuery::Print))
    );
    assert_eq!(
        parse_media_query("screen, print"),
        MediaQuery::Or(Box::new(MediaQuery::Screen), Box::new(MediaQuery::Print))
    );
    assert_eq!(
        parse_media_query("(orientation: portrait)"),
        MediaQuery::Feature(MediaFeature::Orientation(Orientation::Portrait))
    );
    assert_eq!(
        parse_media_query("(prefers-color-scheme: dark)"),
        MediaQuery::Feature(MediaFeature::PrefersColorScheme(ColorScheme::Dark))
    );
    assert_eq!(parse_media_query("(hover)"), MediaQuery::Feature(MediaFeature::HoverCapable));
    assert_eq!(
        parse_media_query("(max-width: wide)"),
        MediaQuery::Feature(MediaFeature::Unknown("max-width: wide".to_string()))
    );
    assert_eq!(
        parse_media_query("tv"),
        MediaQuery::Feature(MediaFeature::Unknown("tv".to_string()))
    );
}

#[test]
fn import_rule_forms() {
    let r = parse_import_rule(" url( \"a.css\" ) screen ").unwrap();
    assert_eq!(r.url, "a.css");
    assert_eq!(r.media, Some(MediaQuery::Screen));
    let r = parse_import_rule("'b.css'").unwrap();
    assert_eq!(r.url, "b.css");
    assert!(r.media.is_none());
    assert!(parse_import_rule("b.css").is_none());
    assert!(parse_import_rule("\"unclosed").is_none());
}

#[test]
fn font_face_fields() {
    let decls = vec![
        ("font-family".to_string(), "'Inter'".to_string()),
        ("src".to_string(), "url(\"/a.woff2\") format(\"woff2\"), local(Inter)".to_string()),
        ("font-weight".to_string(), "bold".to_string()),
    ];
    let f = parse_font_face(&decls).unwrap();
    assert_eq!(f.family, "Inter");
    assert_eq!(f.src, vec![FontSource::Url("/a.woff2".to_string()), FontSource::Local("Inter".to_string())]);
    assert!(f.weight.is_some());
    assert!(parse_font_face(&[("src".to_string(), "url(x)".to_string())]).is_none());
}

#[test]
fn declarations_from_pairs() {
    let k = Cow::Borrowed("margin");
    let v = Cow::Borrowed("auto");
    assert!(matches!(Declaration::from_cow((&k, &v)), Some(Declaration::Margin(_))));
    let k = Cow::Borrowed("z-index");
    let v = Cow::Borrowed("-3");
    assert!(matches!(Declaration::from_cow((&k, &v)), Some(Declaration::ZIndex(-3))));
    let k = Cow::Borrowed("flex-grow");
    let v = Cow::Borrowed("1.5");
    assert!(matches!(Declaration::from_cow((&k, &v)), Some(Declaration::FlexGrow(n)) if n.0 == "1.5"));
    let k = Cow::Borrowed("opacity");
    assert!(Declaration::from_cow((&k, &v)).is_none());
    let k = Cow::Borrowed("width");
    let v = Cow::Borrowed("wide");
    assert!(Declaration::from_cow((&k, &v)).is_none());
    let k = Cow::Borrowed("color");
    let v = Cow::Borrowed("red");
    let d = Declaration::from_cow((&k, &v)).unwrap();
    let k2 = Cow::Borrowed("background-color");
    let d2 = Declaration::from_cow((&k2, &v)).unwrap();
    assert_ne!(d.kind(), d2.kind());
}

#[test]
fn media_query_combines_feature_results() {
    let q = parse_media_query("screen and (max-width: 768px)");
    assert_eq!(q.features().len(), 1);
    assert_eq!(q.feature_count(), 1);
    assert!(q.holds(true, &[true]));
    assert!(!q.holds(false, &[true]));
    assert!(!q.holds(true, &[false]));
    let q = parse_media_query("not (max-width: 600px)");
    assert!(q.holds(true, &[false]));
    assert!(!q.holds(true, &[true]));
    let q = parse_media_query("(prefers-color-scheme: dark)");
    assert!(matches!(
        q.features()[0],
        MediaFeature::PrefersColorScheme(ColorScheme::Dark)
    ));
    assert!(q.holds(true, &[true]));
    assert!(!parse_media_query("print").holds(true, &[]));
}

/// A viewport for the media-query tests: features are read as `f32` here,
/// and the library combines the results.
struct Viewport {
    width: f32,
    height: f32,
    is_screen: bool,
    prefers_dark: bool,
}

impl Default for Viewport {
    fn default() -> Self {
        Viewport { width: 1920.0, height: 1080.0, is_screen: true, prefers_dark: false }
    }
}

fn px_of(v: &PxPct) -> f32 {
    match v {
        PxPct::Px(n) => n.0.parse::<f32>().unwrap(),
        _ => panic!("only pixel lengths are used here"),
    }
}

fn feature_holds(f: &MediaFeature, vp: &Viewport) -> bool {
    match f {
        MediaFeature::MaxWidth(v) => vp.width <= px_of(v),
        MediaFeature::MinWidth(v) => vp.width >= px_of(v),
        MediaFeature::MaxHeight(v) => vp.height <= px_of(v),
        MediaFeature::MinHeight(v) => vp.height >= px_of(v),
        MediaFeature::PrefersColorScheme(ColorScheme::Dark) => vp.prefers_dark,
        MediaFeature::PrefersColorScheme(ColorScheme::Light) => !vp.prefers_dark,
        _ => false,
    }
}

fn query_matches(q: &MediaQuery, vp: &Viewport) -> bool {
    let results: Vec<bool> = q.features().into_iter().map(|f| feature_holds(f, vp)).collect();
    q.holds(vp.is_screen, &results)
}

#[test]
fn media_query_max_width() {
    let q = parse_media_query("(max-width: 600px)");
    let ctx_small = Viewport { width: 400.0, ..Default::default() };
    let ctx_large = Viewport { width: 800.0, ..Default::default() };
    assert!(query_matches(&q, &ctx_small), "400px should match max-width: 600px");
    assert!(!query_matches(&q, &ctx_large), "800px should NOT match max-width: 600px");
}

#[test]
fn media_query_and() {
    let q = parse_media_query("screen and (max-width: 768px)");
    let ctx = Viewport { width: 600.0, is_screen: true, ..Default::default() };
    assert!(query_matches(&q, &ctx));
    let print_ctx = Viewport { width: 600.0, is_screen: false, ..Default::default() };
    assert!(!query_matches(&q, &print_ctx));
}

#[test]
fn media_query_not() {
    let q = parse_media_query("not (max-width: 600px)");
    let ctx_large = Viewport { width: 800.0, ..Default::default() };
    assert!(query_matches(&q, &ctx_large));
}

#[test]
fn media_query_prefers_dark() {
    let q = parse_media_query("(prefers-color-scheme: dark)");
    let dark_ctx = Viewport { prefers_dark: true, ..Default::default() };
    let light_ctx = Viewport { prefers_dark: false, ..Default::default() };
    assert!(query_matches(&q, &dark_ctx));
    assert!(!query_matches(&q, &light_ctx));
}
