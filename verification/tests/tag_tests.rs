use imgui_book::tags::ExampleError;
use imgui_book::tags::ExampleTags;
use imgui_book::tags::tags_from_string;

fn parse(s: &str) -> Result<Option<ExampleTags>, ExampleError> {
    tags_from_string(String::from(s))
}

#[test]
fn marker_with_flags_and_hide_shorthand() {
    let t = parse("imgui-example,no_run,hide").unwrap().unwrap();
    assert_eq!(t.no_run, true);
    assert_eq!(t.hide_code, true);
    assert_eq!(t.hide_output, true);
    assert_eq!(t.ignore, false);
    assert_eq!(t.should_panic, false);
    assert_eq!(t.name, None);
}

#[test]
fn other_language_is_not_eligible() {
    assert!(parse("other-lang").unwrap().is_none());
}

#[test]
fn unknown_token_is_an_error() {
    match parse("imgui-example,bogus") {
        Err(ExampleError::UnknownTag { token }) => assert_eq!(token, "bogus"),
        _ => panic!("an unknown token must be a fatal parse error"),
    }
}

#[test]
fn bare_marker_gives_defaults() {
    let t = parse("imgui-example").unwrap().unwrap();
    assert_eq!(t.ignore, false);
    assert_eq!(t.no_run, false);
    assert_eq!(t.should_panic, false);
    assert_eq!(t.hide_code, false);
    assert_eq!(t.hide_output, false);
    assert_eq!(t.name, None);
}

#[test]
fn every_plain_flag_sets_its_field() {
    let t = parse("imgui-example,ignore,no_run,should_panic,hide_code,hide_output")
        .unwrap()
        .unwrap();
    assert!(t.ignore && t.no_run && t.should_panic && t.hide_code && t.hide_output);
}

#[test]
fn name_token_sets_the_display_name() {
    let t = parse("imgui-example,name=demo widget").unwrap().unwrap();
    assert_eq!(t.name, Some(String::from("demo widget")));
}

#[test]
fn repeated_flag_is_a_no_op() {
    let t = parse("imgui-example,no_run,no_run").unwrap().unwrap();
    assert_eq!(t.no_run, true);
    assert_eq!(t.ignore, false);
}

#[test]
fn empty_info_string_is_not_eligible() {
    assert!(parse("").unwrap().is_none());
}

#[test]
fn tags_equality_is_field_for_field() {
    let a = parse("imgui-example,hide,name=x").unwrap().unwrap();
    let b = parse("imgui-example,hide_code,hide_output,name=x").unwrap().unwrap();
    assert_eq!(a, b);
    let c = parse("imgui-example,hide").unwrap().unwrap();
    assert!(a != c);
}
