use csscolorparser::Color;

use cssengine::effects::{
    parse_background_image, parse_filter, parse_transform, Angle, BackgroundImage, FilterAmount,
    FilterFunction, TransformFunction,
};
use cssengine::units::{Number, Px, PxPct};

fn n(t: &str) -> Number {
    Number(t.to_string())
}

#[test]
fn transform_functions() {
    let t = parse_transform("translate(10px) rotate(0.5turn) scale(2)").unwrap();
    assert_eq!(
        t.0,
        vec![
            TransformFunction::Translate(PxPct::Px(n("10")), PxPct::Px(n("0"))),
            TransformFunction::Rotate(Angle::Turn(n("0.5"))),
            TransformFunction::Scale(n("2"), n("2")),
        ]
    );
    let t = parse_transform("matrix(1, 0, 0, 1, 5, 6) skewX(1rad) perspective(100px)").unwrap();
    assert_eq!(
        t.0,
        vec![
            TransformFunction::Matrix(n("1"), n("0"), n("0"), n("1"), n("5"), n("6")),
            TransformFunction::SkewX(Angle::Rad(n("1"))),
            TransformFunction::Perspective(Px(n("100"))),
        ]
    );
    assert_eq!(parse_transform("none").unwrap().0.len(), 0);
    assert!(parse_transform("bogus(1px)").is_none());
    assert!(parse_transform("rotate(45deg").is_none());
    // An unreadable call is skipped when another one reads.
    assert_eq!(parse_transform("bogus(1) rotate(45)").unwrap().0, vec![TransformFunction::Rotate(Angle::Deg(n("45")))]);
}

#[test]
fn filter_functions() {
    let f = parse_filter("blur(4px) brightness(50%) hue-rotate(90deg) opacity(0.3)").unwrap();
    assert_eq!(
        f.0,
        vec![
            FilterFunction::Blur(Px(n("4"))),
            FilterFunction::Brightness(FilterAmount::Percent(n("50"))),
            FilterFunction::HueRotate(Angle::Deg(n("90"))),
            FilterFunction::Opacity(FilterAmount::Plain(n("0.3"))),
        ]
    );
    assert_eq!(parse_filter("none").unwrap().0.len(), 0);
    assert!(parse_filter("glow(1)").is_none());
}

#[test]
fn background_images() {
    assert_eq!(parse_background_image(" none "), Some(BackgroundImage::NoneValue));
    assert_eq!(
        parse_background_image("url( 'a.png' )"),
        Some(BackgroundImage::Url("a.png".to_string()))
    );
    match parse_background_image("linear-gradient(to right, red, blue 50%)").unwrap() {
        BackgroundImage::LinearGradient(g) => {
            assert_eq!(g.angle, Angle::Deg(n("90")));
            assert_eq!(g.stops.len(), 2);
            assert_eq!(g.stops[0], (Color::new(1.0, 0.0, 0.0, 1.0), None));
            assert_eq!(g.stops[1], (Color::new(0.0, 0.0, 1.0, 1.0), Some(PxPct::Pct(n("50")))));
        }
        other => panic!("unexpected {other:?}"),
    }
    // The first part is the direction, never a stop.
    match parse_background_image("linear-gradient(red, blue)").unwrap() {
        BackgroundImage::LinearGradient(g) => {
            assert_eq!(g.angle, Angle::Deg(n("180")));
            assert_eq!(g.stops.len(), 1);
        }
        other => panic!("unexpected {other:?}"),
    }
    assert!(parse_background_image("linear-gradient(45deg, nocolor)").is_none());
    assert!(parse_background_image("image.png").is_none());
}
