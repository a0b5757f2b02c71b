use cssengine::selector::{PseudoClass, Selector, Specificity};

#[test]
fn specificity_basic() {
    assert_eq!(Specificity::from_selector("#id"), Specificity(1, 0, 0));
    assert_eq!(Specificity::from_selector(".class"), Specificity(0, 1, 0));
    assert_eq!(Specificity::from_selector("div"), Specificity(0, 0, 1));
    assert_eq!(Specificity::from_selector("*"), Specificity(0, 0, 0));
    assert_eq!(Specificity::from_selector("#id .class div"), Specificity(1, 1, 1));
}

#[test]
fn specificity_ordering() {
    let id = Specificity(1, 0, 0);
    let class = Specificity(0, 1, 0);
    let element = Specificity(0, 0, 1);
    assert!(id > class);
    assert!(class > element);
    assert!(id > element);
}

#[test]
fn pseudo_class_parsing() {
    assert_eq!(PseudoClass::parse_str(":hover"), Some(PseudoClass::Hover));
    assert_eq!(PseudoClass::parse_str(":first-child"), Some(PseudoClass::FirstChild));
    assert_eq!(PseudoClass::parse_str(":checked"), Some(PseudoClass::Checked));
    assert_eq!(PseudoClass::parse_str(":nth-child(2n+1)"), Some(PseudoClass::NthChild(2, 1)));
    assert!(PseudoClass::parse_str(":unknown-pseudo").is_none());
}

#[test]
fn specificity_of_attributes_and_pseudo() {
    assert_eq!(Specificity::from_selector("a[href]:hover::before"), Specificity(0, 2, 2));
    assert_eq!(Specificity::from_selector("li:nth-child(2n+1)"), Specificity(0, 1, 1));
}

#[test]
fn nth_forms() {
    assert_eq!(PseudoClass::parse_str(":nth-child(odd)"), Some(PseudoClass::NthChild(2, 1)));
    assert_eq!(PseudoClass::parse_str(":nth-child(even)"), Some(PseudoClass::NthChild(2, 0)));
    assert_eq!(PseudoClass::parse_str(":nth-last-child(3)"), Some(PseudoClass::NthLastChild(0, 3)));
    assert_eq!(PseudoClass::parse_str(":nth-child(n+4)"), Some(PseudoClass::NthChild(1, 4)));
    assert_eq!(PseudoClass::parse_str(":not(.a)"), Some(PseudoClass::Not(".a".to_string())));
    assert_eq!(PseudoClass::parse_str(":is(.a, .b)"), Some(PseudoClass::Any));
}

#[test]
fn selector_splitting() {
    let s = Selector::parse(".btn:hover");
    assert_eq!(s.selector, ".btn");
    assert_eq!(s.pseudo_class, Some(PseudoClass::Hover));
    assert_eq!(s.specificity, Specificity(0, 2, 0));
    let r = Selector::parse(":root");
    assert_eq!(r.selector, ":root");
    assert_eq!(r.pseudo_class, None);
    assert_eq!(r.specificity, Specificity(0, 0, 0));
    let p = Selector::parse("::placeholder");
    assert_eq!(p.selector, "");
    assert_eq!(p.pseudo_class, Some(PseudoClass::Placeholder));
}

#[test]
fn specificity_adds_over_descendants() {
    let x = Specificity::from_selector("div.card:hover");
    let y = Specificity::from_selector("#main::before");
    let z = Specificity::from_selector("div.card:hover #main::before");
    assert_eq!(z, Specificity(x.0 + y.0, x.1 + y.1, x.2 + y.2));
    assert_eq!(z, Specificity(1, 2, 2));
}
