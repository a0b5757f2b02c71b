use std::borrow::Cow;

use cssengine::parser::{get_var_name, replace_vars, Rule};
use cssengine::selector::{Selector, Specificity};
use cssengine::{analyze, css_to_rules};

#[test]
fn replace_vars_ok() {
    let rules = vec![
        Rule {
            selectors: vec![Selector {
                selector: ":root".to_owned(),
                pseudo_class: None,
                specificity: Specificity::default(),
            }],
            properties: vec![Cow::Borrowed("--main-color")],
            values: vec![Cow::Borrowed("blue")],
        },
        Rule {
            selectors: vec![Selector {
                selector: ".button".to_owned(),
                pseudo_class: None,
                specificity: Specificity(0, 1, 0),
            }],
            properties: vec![Cow::Borrowed("background-color")],
            values: vec![Cow::Borrowed("var(--main-color)")],
        },
    ];

    let updated_rules = replace_vars(rules);
    assert_eq!(updated_rules[1].values[0], Cow::Borrowed("blue"));
}

#[test]
fn var_fallback_syntax() {
    assert_eq!(get_var_name("var(--main-color, red)"), "--main-color");
    assert_eq!(get_var_name("var(--main-color)"), "--main-color");
}

#[test]
fn css_to_rules_groups_declarations() {
    let rules = css_to_rules(".a, .b { color: red; width: 10px; } #c { }").unwrap();
    assert_eq!(rules.len(), 2);
    assert_eq!(rules[0].selectors.len(), 2);
    assert_eq!(rules[0].selectors[1].selector, ".b");
    assert_eq!(rules[0].properties, vec![Cow::Borrowed("color"), Cow::Borrowed("width")]);
    assert_eq!(rules[0].values, vec![Cow::Borrowed("red"), Cow::Borrowed("10px")]);
    assert!(rules[1].properties.is_empty());
}

#[test]
fn css_to_rules_substitutes_root_variables() {
    let rules = css_to_rules(":root { --c: blue; x: y; } .b { color: var(--c, red); }").unwrap();
    assert_eq!(rules[0].properties, vec![Cow::Borrowed("x")]);
    assert_eq!(rules[1].values[0], "blue");
}

#[test]
fn unknown_variable_is_kept() {
    let rules = css_to_rules(":root { --c: blue; } .b { color: var(--d); }").unwrap();
    assert_eq!(rules[1].values[0], "var(--d)");
}

#[test]
fn analyze_reports_errors() {
    assert!(analyze(".a { color: red; }").is_ok());
    let errors = analyze(".a { color: red;; }").unwrap_err();
    assert_eq!(errors.len(), 1);
    assert_eq!(errors[0].error, "Expected property or } after ;");
    let errors = css_to_rules(".a { color: red; } .b").err().unwrap();
    assert_eq!(errors[0].error, "Expected { after selector");
}

#[test]
fn undefined_variable_uses_fallback() {
    let rules = vec![
        Rule {
            selectors: vec![Selector {
                selector: ":root".to_owned(),
                pseudo_class: None,
                specificity: Specificity::default(),
            }],
            properties: vec![Cow::Borrowed("--a")],
            values: vec![Cow::Borrowed("blue")],
        },
        Rule {
            selectors: vec![Selector {
                selector: ".b".to_owned(),
                pseudo_class: None,
                specificity: Specificity(0, 1, 0),
            }],
            properties: vec![Cow::Borrowed("color"), Cow::Borrowed("width")],
            values: vec![Cow::Borrowed("var(--missing, red)"), Cow::Borrowed("var(--a, 2px)")],
        },
    ];
    let updated = replace_vars(rules);
    assert_eq!(updated[1].values[0], "red");
    assert_eq!(updated[1].values[1], "blue");
}

#[test]
fn fallback_applies_without_root_rule() {
    let rules = css_to_rules(".b { color: var(--x,  green ); width: var(--y); }").unwrap();
    assert_eq!(rules[0].values[0], "green");
    assert_eq!(rules[0].values[1], "var(--y)");
}
