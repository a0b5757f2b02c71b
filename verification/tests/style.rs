use cssengine::at_rules::{MediaFeature, MediaQuery};
use cssengine::declaration::Declaration;
use cssengine::selector::PseudoClass;
use cssengine::style::{StopOffset, StyleSheet};
use cssengine::units::{Number, PxPct, PxPctAuto};

fn offset_value(at: &StopOffset) -> f32 {
    match at {
        StopOffset::Percent(n) => n.0.parse::<f32>().unwrap() / 100.0,
        StopOffset::Fraction(n) => n.0.parse::<f32>().unwrap(),
    }
}

fn color_of(decls: &[Declaration]) -> Option<csscolorparser::Color> {
    decls.iter().find_map(|d| match d {
        Declaration::Color(c) => Some(*c),
        _ => None,
    })
}

#[test]
fn media_rule_stored() {
    let css = "@media (max-width: 600px) { .btn { color: blue; } }";
    let ss = StyleSheet::from_css(css);
    assert_eq!(ss.media_rules().len(), 1, "expected one @media rule");
    let mr = &ss.media_rules()[0];
    assert!(!mr.rules.is_empty(), "media rule should have inner rules");
}

#[test]
fn get_styles_does_not_return_media_rules() {
    let css = "@media (max-width: 600px) { .btn { color: blue; } }";
    let ss = StyleSheet::from_css(css);
    let styles = ss.get_styles(".btn");
    assert!(styles.is_empty(), "get_styles should not include @media rules");
}

#[test]
fn get_styles_with_media_applies_when_matches() {
    let css = ".btn { color: red; } @media (max-width: 600px) { .btn { color: blue; } }";
    let ss = StyleSheet::from_css(css);

    // A 400px wide viewport satisfies `max-width: 600px`; an 800px one does not.
    let small_styles = ss.get_styles_with_media(".btn", &[true]);
    let large_styles = ss.get_styles_with_media(".btn", &[false]);

    let small_color = small_styles
        .as_slice()
        .iter()
        .find(|(ps, _)| ps.is_none())
        .and_then(|(_, decls)| color_of(decls));
    assert!(small_color.is_some(), "should have color for small viewport");
    let c = small_color.unwrap();
    assert!((c.b - 1.0).abs() < 0.01, "color should be blue (b≈1.0), got {c:?}");

    let large_color = large_styles
        .as_slice()
        .iter()
        .find(|(ps, _)| ps.is_none())
        .and_then(|(_, decls)| color_of(decls));
    if let Some(c) = large_color {
        assert!((c.r - 1.0).abs() < 0.01, "color should be red (r≈1.0), got {c:?}");
    }
}

#[test]
fn keyframes_stored() {
    let css = "@keyframes fadeIn { from { opacity: 0; } to { opacity: 1; } }";
    let ss = StyleSheet::from_css(css);
    let kf = ss.keyframes().iter().find(|k| k.name == "fadeIn");
    assert!(kf.is_some(), "fadeIn keyframes should be stored");
    let kf = kf.unwrap();
    assert_eq!(kf.stops.len(), 2);
    assert!(offset_value(&kf.stops[0].at).abs() < 0.01);
    assert!((offset_value(&kf.stops[1].at) - 1.0).abs() < 0.01);
}

#[test]
fn font_face_stored() {
    let css = r#"@font-face { font-family: "MyFont"; src: url("/fonts/myfont.woff2"); }"#;
    let ss = StyleSheet::from_css(css);
    assert_eq!(ss.font_faces().len(), 1);
    assert_eq!(ss.font_faces()[0].family, "MyFont");
}

#[test]
fn selector_exact_match_no_false_positives() {
    let css = ".btn { color: red; } .btn-group { color: blue; }";
    let ss = StyleSheet::from_css(css);
    let styles = ss.get_styles(".btn");
    assert_eq!(styles.len(), 1, "only one pseudo-class group expected");
    assert_eq!(styles.as_slice()[0].1.len(), 1, "exactly one declaration for .btn");
}

#[test]
fn merge_stylesheets() {
    let mut ss1 = StyleSheet::from_css(".a { color: red; }");
    let ss2 = StyleSheet::from_css(".b { color: blue; }");
    ss1.merge(ss2);

    assert!(!ss1.get_styles(".a").is_empty());
    assert!(!ss1.get_styles(".b").is_empty());
}

#[test]
fn add_css_adds_rules() {
    let mut ss = StyleSheet::from_css(".a { color: red; }");
    ss.add_css(".b { color: blue; }");
    assert!(!ss.get_styles(".b").is_empty());
}

#[test]
fn remove_selector_works() {
    let mut ss = StyleSheet::from_css(".a { color: red; } .b { color: blue; }");
    let removed = ss.remove_selector(".a");
    assert!(removed);
    assert!(ss.get_styles(".a").is_empty());
    assert!(!ss.get_styles(".b").is_empty());
}

#[test]
fn declarations_for_iterator() {
    let ss = StyleSheet::from_css(".btn { color: red; font-size: 16px; }");
    let count = ss.declarations_for(".btn").len();
    assert_eq!(count, 2);
}

#[test]
fn end_to_end() {
    let css = r#"
            :root { --brand: #4f46e5; }
            .btn { color: var(--brand); opacity: 1; }
            .btn:hover { opacity: 0.9; }
            @keyframes fadeIn {
                from { opacity: 0; }
                to   { opacity: 1; }
            }
            @media (max-width: 768px) {
                .btn { width: 100%; }
            }
        "#;
    let ss = StyleSheet::from_css(css);

    let decls = ss.get_styles(".btn");
    assert!(!decls.is_empty(), "should have .btn styles");

    let media = ss.media_rules();
    assert_eq!(media.len(), 1, "one @media rule");

    let anim = ss.keyframes().iter().find(|k| k.name == "fadeIn");
    assert!(anim.is_some(), "@keyframes fadeIn should be stored");
}

// ---------------------------------------------------------------------------
// Further scenarios
// ---------------------------------------------------------------------------

#[test]
fn later_rule_wins_on_equal_specificity() {
    let ss = StyleSheet::from_css(".a { color: red; } .a { color: blue; }");
    let styles = ss.get_styles(".a");
    assert_eq!(styles.len(), 1);
    assert_eq!(styles.as_slice()[0].1.len(), 1);
    let c = color_of(&styles.as_slice()[0].1).unwrap();
    assert!((c.b - 1.0).abs() < 0.01);
}

#[test]
fn higher_specificity_wins_over_source_order() {
    let ss = StyleSheet::from_css("#x { color: red; } .a { color: blue; }");
    let styles = ss.get_styles("#x .a");
    assert_eq!(styles.len(), 1);
    let c = color_of(&styles.as_slice()[0].1).unwrap();
    assert!((c.r - 1.0).abs() < 0.01 && c.b < 0.01);
}

#[test]
fn pseudo_classes_form_groups() {
    let ss = StyleSheet::from_css(".b { color: red; } .b:hover { color: blue; }");
    let styles = ss.get_styles(".b");
    assert_eq!(styles.len(), 2);
    assert_eq!(styles.as_slice()[0].0, None);
    assert_eq!(styles.as_slice()[1].0, Some(PseudoClass::Hover));
}

#[test]
fn cascade_keeps_other_properties() {
    let ss = StyleSheet::from_css(".a { color: red; width: 10px; } .a { color: blue; }");
    let styles = ss.get_styles(".a");
    assert_eq!(styles.as_slice()[0].1.len(), 2);
    assert!(matches!(
        &styles.as_slice()[0].1[1],
        Declaration::Width(PxPctAuto::Px(n)) if n.0 == "10"
    ));
}

#[test]
fn source_indices_follow_media_rules() {
    let ss = StyleSheet::from_css("@media print { .p { color: red; } } .a, .b { color: red; }");
    let idx: Vec<usize> = ss.rules().iter().map(|r| r.1).collect();
    assert_eq!(idx, vec![1, 2]);
    assert_eq!(ss.media_rules()[0].rules[0].1, 0);
    assert_eq!(ss.media_rules()[0].query, MediaQuery::Print);
}

#[test]
fn import_rules_are_collected() {
    let ss = StyleSheet::from_css(r#"@import "base.css"; @import url('m.css') (max-width: 10px); .a { color: red; }"#);
    let imports = ss.import_rules();
    assert_eq!(imports.len(), 2);
    assert_eq!(imports[0].url, "base.css");
    assert!(imports[0].media.is_none());
    assert_eq!(imports[1].url, "m.css");
    assert_eq!(
        imports[1].media,
        Some(MediaQuery::Feature(MediaFeature::MaxWidth(PxPct::Px(Number("10".to_string())))))
    );
    assert_eq!(ss.rules().len(), 1);
}

#[test]
fn absorb_unconditional_import_merges() {
    let mut ss = StyleSheet::from_css(r#"@import "base.css"; .a { color: blue; }"#);
    let imports = ss.take_import_rules();
    assert!(ss.import_rules().is_empty());
    for rule in imports {
        let sub = StyleSheet::from_css(".root { color: red; }");
        ss.absorb_import(rule, Some(sub));
    }
    assert!(!ss.get_styles(".root").is_empty());
    assert!(ss.import_rules().is_empty());
}

#[test]
fn absorb_conditional_import_makes_media_rule() {
    let mut ss = StyleSheet::from_css(r#"@import "m.css" print; .a { color: blue; }"#);
    let imports = ss.take_import_rules();
    for rule in imports {
        ss.absorb_import(rule, Some(StyleSheet::from_css(".m { color: red; }")));
    }
    assert!(ss.get_styles(".m").is_empty());
    assert_eq!(ss.media_rules().len(), 1);
    assert_eq!(ss.media_rules()[0].query, MediaQuery::Print);
    assert!(!ss.get_styles_with_media(".m", &[true]).is_empty());
}

#[test]
fn absorb_unloaded_import_stays() {
    let mut ss = StyleSheet::from_css(r#"@import "x.css";"#);
    let imports = ss.take_import_rules();
    for rule in imports {
        ss.absorb_import(rule, None);
    }
    assert_eq!(ss.import_rules().len(), 1);
    assert_eq!(ss.import_rules()[0].url, "x.css");
}

#[test]
fn keyframes_replace_by_name_on_merge() {
    let mut a = StyleSheet::from_css("@keyframes k { from { opacity: 0; } }");
    a.merge(StyleSheet::from_css("@keyframes k { from { opacity: 0; } to { opacity: 1; } }"));
    assert_eq!(a.keyframes().len(), 1);
    assert_eq!(a.keyframes()[0].stops.len(), 2);
}

#[test]
fn keyframe_percent_offsets() {
    let ss = StyleSheet::from_css("@keyframes k { 50% { width: 1px; } x { width: 2px; } }");
    let k = &ss.keyframes()[0];
    assert_eq!(k.stops.len(), 2);
    assert!((offset_value(&k.stops[0].at) - 0.5).abs() < 1e-6);
    assert!(offset_value(&k.stops[1].at).abs() < 1e-6);
    assert_eq!(k.stops[0].declarations.len(), 1);
}

#[test]
fn unsafe_box_shadow_is_refused() {
    // A no-break space between the parts of a shadow.
    assert!(StyleSheet::try_from_css(".a { box-shadow: 1px\u{a0}2px; }").is_none());
    assert!(StyleSheet::try_from_css(".a { box-shadow: 1px 2px; }").is_some());
}

#[test]
fn media_query_is_parsed_in_rules() {
    let ss = StyleSheet::from_css("@media screen and (max-width: 768px) { .a { color: red; } }");
    match &ss.media_rules()[0].query {
        MediaQuery::And(a, b) => {
            assert_eq!(**a, MediaQuery::Screen);
            assert_eq!(
                **b,
                MediaQuery::Feature(MediaFeature::MaxWidth(PxPct::Px(Number("768".to_string()))))
            );
        }
        q => panic!("unexpected {q:?}"),
    }
}

#[test]
fn remove_selector_reports_absence() {
    let mut ss = StyleSheet::from_css(".a { color: red; }");
    assert!(!ss.remove_selector(".zzz"));
    assert_eq!(ss.rules().len(), 1);
}

#[test]
fn empty_sheet_has_nothing() {
    let ss = StyleSheet::new();
    assert!(ss.rules().is_empty());
    assert!(ss.get_styles(".a").is_empty());
    let d = StyleSheet::default();
    assert!(d.media_rules().is_empty());
}

#[test]
fn merging_an_empty_sheet_changes_nothing() {
    let mut ss = StyleSheet::from_css(".a { color: red; } @media print { .b { color: red; } }");
    ss.merge(StyleSheet::new());
    assert_eq!(ss.rules().len(), 1);
    assert_eq!(ss.rules()[0].1, 1);
    assert_eq!(ss.media_rules().len(), 1);
}

#[test]
fn merged_rules_come_later() {
    let mut a = StyleSheet::from_css(".a { color: red; } .b { color: red; }");
    a.merge(StyleSheet::from_css(".a { color: blue; }"));
    let idx: Vec<usize> = a.rules().iter().map(|r| r.1).collect();
    assert_eq!(idx, vec![0, 1, 2]);
    let c = color_of(&a.get_styles(".a").as_slice()[0].1).unwrap();
    assert!((c.b - 1.0).abs() < 0.01);
}

#[test]
fn base_declarations_skip_pseudo_classes() {
    let ss = StyleSheet::from_css(".b { color: red; width: 1px; } .b:hover { color: blue; }");
    let decls = ss.base_declarations(".b");
    assert_eq!(decls.len(), 2);
    assert!(matches!(decls[1], Declaration::Width(_)));
    assert!(ss.base_declarations(".none").is_empty());
}

#[test]
fn variables_substituted_in_sheet() {
    let ss = StyleSheet::from_css(":root { --w: 5px; } .a { width: var(--w); }");
    let decls = ss.declarations_for(".a");
    assert_eq!(decls.len(), 1);
    assert!(matches!(decls[0], Declaration::Width(PxPctAuto::Px(n)) if n.0 == "5"));
    // The `:root` rule keeps no variable definitions.
    assert!(ss.declarations_for(":root").is_empty());
}

#[test]
fn later_declaration_in_one_rule_wins() {
    let ss = StyleSheet::from_css(".a { color: red; color: blue; }");
    let styles = ss.get_styles(".a");
    assert_eq!(styles.len(), 1);
    assert_eq!(styles.as_slice()[0].1.len(), 1);
    let c = color_of(&styles.as_slice()[0].1).unwrap();
    assert!((c.b - 1.0).abs() < 0.01 && c.r < 0.01);
}

#[test]
fn merged_rules_win_after_media_rules() {
    let mut ss = StyleSheet::from_css(
        "@media print { .m { color: red; } .n { color: red; } } .a { color: red; }",
    );
    assert_eq!(ss.rules()[0].1, 2);
    assert_eq!(ss.next_source_index(), Some(3));
    ss.merge(StyleSheet::from_css(".a { color: blue; }"));
    assert_eq!(ss.rules()[1].1, 3);
    let styles = ss.get_styles(".a");
    assert_eq!(styles.len(), 1);
    assert_eq!(styles.as_slice()[0].1.len(), 1);
    let c = color_of(&styles.as_slice()[0].1).unwrap();
    assert!((c.b - 1.0).abs() < 0.01 && c.r < 0.01);
}
