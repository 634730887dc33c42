use imgui_book::fingerprint::fingerprint;
use imgui_book::harness::dispatch_source;
use imgui_book::harness::generate_all_source;
use imgui_book::harness::harness_source;
use imgui_book::harness::invoke_line;
use imgui_book::harness::module_source;
use imgui_book::scan::scan;
use imgui_book::scan::DocEvent;
use imgui_book::scan::EventKind;
use imgui_book::snippet::ExampleSnippet;
use imgui_book::tags::ExampleError;
use imgui_book::text::clean_code;
use imgui_book::weave::get_relative_img_url;
use imgui_book::weave::weave;
use imgui_book::weave::OutEvent;

fn ev(kind: EventKind, start: usize, end: usize) -> DocEvent {
    DocEvent { kind, start, end }
}

fn code_start(info: &str) -> EventKind {
    EventKind::CodeStart { info: String::from(info) }
}

fn text(t: &str) -> EventKind {
    EventKind::Text { text: String::from(t) }
}

#[test]
fn fingerprint_is_deterministic_and_distinguishes_offsets() {
    let a = fingerprint("guide/intro.md", 10, 25);
    let b = fingerprint("guide/intro.md", 10, 25);
    assert_eq!(a, b);
    assert!(fingerprint("guide/intro.md", 10, 26) != a);
    assert!(fingerprint("guide/intro.md", 11, 25) != a);
    assert!(fingerprint("guide/other.md", 10, 25) != a);
}

#[test]
fn fingerprint_sanitizes_the_path() {
    assert_eq!(fingerprint("guide/intro.md", 10, 25), "guide_intro_md_10_25");
    assert_eq!(fingerprint("ch 1.md", 0, 7), "ch___md_0_7");
}

#[test]
fn hidden_line_marker_is_stripped() {
    assert_eq!(clean_code("# let x = 1;"), "let x = 1;\n");
    assert_eq!(clean_code("let x = 1;"), "let x = 1;\n");
}

#[test]
fn cleaning_joins_lines_with_single_newlines() {
    assert_eq!(clean_code("# hidden\nshown\n"), "hidden\nshown\n");
    assert_eq!(clean_code("#    spaced\n"), "spaced\n");
    assert_eq!(clean_code("## doubled\n"), "# doubled\n");
    assert_eq!(clean_code(""), "");
}

#[test]
fn scanner_yields_one_snippet_per_eligible_region() {
    let events = vec![
        ev(EventKind::Other, 0, 4),
        ev(code_start("imgui-example,name=first"), 5, 40),
        ev(text("# use it;\nui.text(\"a\");"), 8, 30),
        ev(EventKind::CodeEnd, 5, 40),
        ev(code_start("rust"), 45, 60),
        ev(text("not ours"), 48, 55),
        ev(EventKind::CodeEnd, 45, 60),
    ];
    let snips = scan(&events, "guide/intro.md").unwrap();
    assert_eq!(snips.len(), 1);
    assert_eq!(snips[0].ident, "guide_intro_md_5_40");
    assert_eq!(snips[0].code, "use it;\nui.text(\"a\");\n");
    assert_eq!(snips[0].tags.name, Some(String::from("first")));
}

#[test]
fn scanner_records_ignored_regions_too() {
    let events = vec![
        ev(code_start("imgui-example,ignore"), 0, 20),
        ev(text("zzz"), 3, 10),
        ev(EventKind::CodeEnd, 0, 20),
    ];
    let snips = scan(&events, "a.md").unwrap();
    assert_eq!(snips.len(), 1);
    assert!(snips[0].tags.ignore);
}

#[test]
fn scanning_twice_yields_identical_snippets() {
    let events = vec![
        ev(code_start("imgui-example"), 0, 20),
        ev(text("# x\ny"), 3, 10),
        ev(EventKind::CodeEnd, 0, 20),
        ev(EventKind::Other, 21, 22),
    ];
    let first = scan(&events, "doc.md").unwrap();
    let second = scan(&events, "doc.md").unwrap();
    assert_eq!(first, second);
}

#[test]
fn second_text_payload_is_fatal() {
    let events = vec![
        ev(code_start("imgui-example"), 0, 20),
        ev(text("one"), 1, 5),
        ev(text("two"), 6, 9),
        ev(EventKind::CodeEnd, 0, 20),
    ];
    assert!(matches!(scan(&events, "a.md"), Err(ExampleError::ExtraText)));
}

#[test]
fn region_without_text_is_fatal() {
    let events = vec![ev(code_start("imgui-example"), 0, 20), ev(EventKind::CodeEnd, 0, 20)];
    assert!(matches!(scan(&events, "a.md"), Err(ExampleError::MissingText)));
}

#[test]
fn unknown_tag_stops_the_scan() {
    let events = vec![ev(code_start("imgui-example,bogus"), 0, 20)];
    match scan(&events, "a.md") {
        Err(ExampleError::UnknownTag { token }) => assert_eq!(token, "bogus"),
        _ => panic!("an unknown tag must abort the pass"),
    }
}

fn one_block_doc() -> Vec<DocEvent> {
    vec![
        ev(code_start("imgui-example"), 0, 30),
        ev(text("# setup();\nui.button(\"ok\");"), 3, 27),
        ev(EventKind::CodeEnd, 0, 30),
    ]
}

#[test]
fn weaving_a_match_emits_code_link_and_image_in_order() {
    let events = one_block_doc();
    let reg = scan(&events, "intro.md").unwrap();
    let woven = weave(&events, "intro.md", &reg, &String::from("../_generated")).unwrap();
    let out = &woven.events;
    assert_eq!(out.len(), 8);
    assert!(matches!(&out[0], OutEvent::CodeStart { info } if info == "rust"));
    assert!(
        matches!(&out[1], OutEvent::Text { text } if text == "setup();\nui.button(\"ok\");\n\n")
    );
    assert!(matches!(&out[2], OutEvent::CodeEnd { info } if info == "rust"));
    assert!(
        matches!(&out[3], OutEvent::Html { html } if html == "[intro_md_0_30]: ../_generated/intro_md_0_30.png")
    );
    assert!(matches!(&out[4], OutEvent::ParagraphStart));
    assert!(
        matches!(&out[5], OutEvent::ImageStart { url } if url == "../_generated/intro_md_0_30.png")
    );
    assert!(
        matches!(&out[6], OutEvent::ImageEnd { url } if url == "../_generated/intro_md_0_30.png")
    );
    assert!(matches!(&out[7], OutEvent::ParagraphEnd));
    assert_eq!(woven.invocations, vec![String::from("intro_md_0_30")]);
}

#[test]
fn weaving_honours_the_hide_flags() {
    let events = vec![
        ev(code_start("imgui-example,hide"), 0, 30),
        ev(text("x();"), 3, 27),
        ev(EventKind::CodeEnd, 0, 30),
    ];
    let reg = scan(&events, "a.md").unwrap();
    let woven = weave(&events, "a.md", &reg, &String::from("../_generated")).unwrap();
    assert_eq!(woven.events.len(), 1);
    assert!(matches!(&woven.events[0], OutEvent::Html { .. }));
    assert_eq!(woven.invocations.len(), 1);
}

#[test]
fn ignored_region_still_weaves_by_its_registry_entry() {
    // An ignored region is recorded in the registry, so the weaver matches
    // it and substitutes its content like any other; its invocation reaches
    // a dispatcher arm that calls nothing, so no artifact is produced.
    let events = vec![
        ev(code_start("imgui-example,ignore"), 0, 30),
        ev(text("x();"), 3, 27),
        ev(EventKind::CodeEnd, 0, 30),
    ];
    let reg = scan(&events, "a.md").unwrap();
    let woven = weave(&events, "a.md", &reg, &String::from("_generated")).unwrap();
    assert_eq!(woven.events.len(), 8);
    assert_eq!(woven.invocations, vec![String::from("a_md_0_30")]);
}

#[test]
fn unmatched_region_is_dropped_silently() {
    let events = one_block_doc();
    let empty_reg: Vec<ExampleSnippet> = Vec::new();
    let woven = weave(&events, "intro.md", &empty_reg, &String::from("_generated")).unwrap();
    assert_eq!(woven.events.len(), 0);
    assert_eq!(woven.invocations.len(), 0);
}

#[test]
fn ignored_region_gets_no_harness_and_no_artifact() {
    let events = vec![
        ev(code_start("imgui-example,ignore"), 0, 30),
        ev(text("x();"), 3, 27),
        ev(EventKind::CodeEnd, 0, 30),
    ];
    let reg = scan(&events, "a.md").unwrap();
    assert_eq!(harness_source(&reg[0]), "");
    assert_eq!(invoke_line(&reg[0]), "");
    let dispatch = dispatch_source(&reg);
    assert!(dispatch.contains("\"a_md_0_30\" =>"));
    assert!(!dispatch.contains("imgui_example_a_md_0_30(directory);"));
    let all = generate_all_source(&reg);
    assert!(!all.contains("imgui_example_"));
}

#[test]
fn harness_source_substitutes_identifier_and_code() {
    let events = one_block_doc();
    let reg = scan(&events, "intro.md").unwrap();
    let src = harness_source(&reg[0]);
    assert!(src.starts_with("\nfn imgui_example_intro_md_0_30(directory: &std::path::PathBuf) {"));
    assert!(src.contains("setup();\nui.button(\"ok\");\n"));
    assert!(src.contains("format!(\"intro_md_0_30.png\")"));
    assert!(src.contains("for _frame in 0..2"));
}

#[test]
fn dispatcher_matches_each_identifier() {
    let events = one_block_doc();
    let reg = scan(&events, "intro.md").unwrap();
    let dispatch = dispatch_source(&reg);
    assert!(dispatch.contains("\"intro_md_0_30\" => {\n            imgui_example_intro_md_0_30(directory);\n        },"));
    assert!(dispatch.contains("_ => panic!(\"invoke of unknown identifier\")"));
}

#[test]
fn two_eligible_blocks_and_one_other_block_end_to_end() {
    let events = vec![
        ev(code_start("imgui-example"), 0, 20),
        ev(text("a();"), 2, 18),
        ev(EventKind::CodeEnd, 0, 20),
        ev(code_start("python"), 21, 40),
        ev(text("print()"), 23, 38),
        ev(EventKind::CodeEnd, 21, 40),
        ev(code_start("imgui-example"), 41, 60),
        ev(text("b();"), 43, 58),
        ev(EventKind::CodeEnd, 41, 60),
    ];
    let reg = scan(&events, "two.md").unwrap();
    assert_eq!(reg.len(), 2);
    assert_eq!(reg[0].ident, "two_md_0_20");
    assert_eq!(reg[1].ident, "two_md_41_60");

    let module = module_source(&reg);
    assert_eq!(module.matches("\nfn imgui_example_").count(), 2);

    let woven = weave(&events, "two.md", &reg, &String::from("_generated")).unwrap();
    assert_eq!(woven.invocations.len(), 2);
    assert_eq!(woven.invocations[0], "two_md_0_20");
    assert_eq!(woven.invocations[1], "two_md_41_60");
    // The ineligible block passes through by index, byte for byte.
    let passthrough: Vec<usize> = woven
        .events
        .iter()
        .filter_map(|e| match e {
            OutEvent::Passthrough { index } => Some(*index),
            _ => None,
        })
        .collect();
    assert_eq!(passthrough, vec![3, 4, 5]);
}

#[test]
fn relative_image_url_climbs_one_step_per_component() {
    assert_eq!(get_relative_img_url("guide/intro.md"), "../../_generated");
    assert_eq!(get_relative_img_url("intro.md"), "../_generated");
    assert_eq!(get_relative_img_url(""), "_generated");
}
