use cssengine::analyzer::{Span, SyntaxError};
use cssengine::selector::to_selector;
use cssengine::{DurationUnitExt, ParseError};

#[test]
fn error_messages() {
    let e = ParseError::new("bad value", "12q");
    assert_eq!(e.message(), "bad value: 12q");
    let s = SyntaxError { span: Span { line: 12, col: 7 }, error: "Expected ;", value: "red", hint: None };
    assert_eq!(s.message(), "error: Expected ;\n 12:7 | red");
    let s = SyntaxError { span: Span { line: 0, col: 105 }, error: "E", value: "v", hint: Some("add it") };
    assert_eq!(s.message(), "error: E\n 0:105 | v\n  hint: add it");
}

#[test]
fn class_names_as_selectors() {
    assert_eq!(to_selector("card"), ".card");
    assert_eq!(to_selector(".card"), ".card");
    assert_eq!(to_selector("#main"), "#main");
    assert_eq!(to_selector(":hover"), ":hover");
    assert_eq!(to_selector(""), ".");
}

#[test]
fn durations_from_counts() {
    assert_eq!(5u64.seconds(), std::time::Duration::from_secs(5));
    assert_eq!(5u64.minutes(), std::time::Duration::from_secs(5));
    assert_eq!(250u64.millis(), std::time::Duration::from_millis(250));
}
