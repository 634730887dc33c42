use imgui_book::registry::load;
use imgui_book::registry::save;
use imgui_book::snippet::ExampleSnippet;
use imgui_book::tags::ExampleTags;

fn tags(ignore: bool, hide_code: bool, name: Option<&str>) -> ExampleTags {
    ExampleTags {
        ignore,
        no_run: false,
        should_panic: false,
        hide_code,
        hide_output: false,
        name: name.map(String::from),
    }
}

fn snippet(ident: &str, code: &str, t: ExampleTags) -> ExampleSnippet {
    ExampleSnippet { ident: String::from(ident), code: String::from(code), tags: t }
}

#[test]
fn round_trip_recovers_every_field() {
    let reg = vec![
        snippet("chapter_md_10_42", "let ui = 1;\n", tags(false, true, Some("demo"))),
        snippet("chapter_md_50_99", "ui.text(\"hi\");\n", tags(true, false, None)),
    ];
    let text = save(&reg);
    let back = load(text.as_str()).expect("a saved registry must load");
    assert_eq!(back, reg);
}

#[test]
fn round_trip_of_the_empty_registry() {
    let reg: Vec<ExampleSnippet> = Vec::new();
    let back = load(save(&reg).as_str()).expect("a saved registry must load");
    assert_eq!(back.len(), 0);
}

#[test]
fn round_trip_keeps_newlines_and_separators_in_fields() {
    let reg = vec![snippet("a_b_c", "line one\nline two,with:colons\n", tags(false, false, None))];
    let back = load(save(&reg).as_str()).unwrap();
    assert_eq!(back, reg);
}

#[test]
fn empty_text_does_not_load() {
    assert!(load("").is_none());
}

#[test]
fn garbage_does_not_load() {
    assert!(load("registry:not a count").is_none());
    assert!(load("something else entirely").is_none());
}

#[test]
fn trailing_text_does_not_load() {
    let reg = vec![snippet("x", "y", tags(false, false, None))];
    let mut text = save(&reg);
    text.push(' ');
    assert!(load(text.as_str()).is_none());
}

#[test]
fn wrong_count_does_not_load() {
    let reg = vec![snippet("x", "y", tags(false, false, None))];
    let text = save(&reg);
    // The count field follows the "registry:" marker, least significant
    // digit first.
    let mut chars: Vec<char> = text.chars().collect();
    assert_eq!(chars[9], '1');
    chars[9] = '2';
    let text2: String = chars.into_iter().collect();
    assert!(load(&text2).is_none());
}

#[test]
fn transport_text_is_self_describing() {
    let reg = vec![snippet("x", "y", tags(false, false, None))];
    let text = save(&reg);
    assert!(text.starts_with("registry:"));
    assert!(text.contains("snippet:"));
    assert!(text.contains("ident:"));
    assert!(text.contains("code:"));
    assert!(text.contains("tags:"));
}

#[test]
fn output_filename_appends_the_image_suffix() {
    let s = snippet("intro_md_3_9", "", tags(false, false, None));
    assert_eq!(s.output_filename(), "intro_md_3_9.png");
}
