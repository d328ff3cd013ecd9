use scope_arena::document::{
    create_element_in_head, create_link, create_meta, create_script, create_style,
    format_attributes, format_string_for_js, set_title,
};

#[test]
fn strings_are_quoted_and_escaped() {
    assert_eq!(format_string_for_js(""), "\"\"");
    assert_eq!(format_string_for_js("plain"), "\"plain\"");
    assert_eq!(format_string_for_js("a\\b"), "\"a\\\\b\"");
    assert_eq!(format_string_for_js("line\nbreak"), "\"line\\nbreak\"");
    assert_eq!(format_string_for_js("cr\rhere"), "\"cr\\rhere\"");
    assert_eq!(format_string_for_js("say \"hi\""), "\"say \\\"hi\\\"\"");
    assert_eq!(format_string_for_js("\\n"), "\"\\\\n\"");
    assert_eq!(format_string_for_js("tab\tstays"), "\"tab\tstays\"");
    assert_eq!(format_string_for_js("größe ✓"), "\"größe ✓\"");
}

#[test]
fn escaping_matches_chained_replacement() {
    let inputs = ["", "\\", "\\\\n\r\"", "a\"b\\c\nd\re", "\"\"", "\n\n", "no escapes at all"];
    for input in inputs {
        let escaped = input
            .replace('\\', "\\\\")
            .replace('\n', "\\n")
            .replace('\r', "\\r")
            .replace('"', "\\\"");
        assert_eq!(format_string_for_js(input), format!("\"{}\"", escaped));
    }
}

#[test]
fn attributes_become_an_array_of_pairs() {
    assert_eq!(format_attributes(&[]), "[]");
    assert_eq!(format_attributes(&[("name", "viewport".to_string())]), "[[\"name\", \"viewport\"]]");
    assert_eq!(
        format_attributes(&[("rel", "stylesheet".to_string()), ("href", "a\"b.css".to_string())]),
        "[[\"rel\", \"stylesheet\"],[\"href\", \"a\\\"b.css\"]]"
    );
    assert_eq!(
        format_attributes(&[
            ("a", "1".to_string()),
            ("b", "2".to_string()),
            ("c", ",".to_string()),
        ]),
        "[[\"a\", \"1\"],[\"b\", \"2\"],[\"c\", \",\"]]"
    );
}

#[test]
fn head_element_script_calls_the_helper() {
    assert_eq!(
        create_element_in_head("helpers()", "meta", &[("charset", "utf-8".to_string())], None),
        "helpers();window.createElementInHead(\"meta\", [[\"charset\", \"utf-8\"]], null);"
    );
    assert_eq!(
        create_element_in_head("", "script", &[], Some("let a = \"b\";\n".to_string())),
        ";window.createElementInHead(\"script\", [], \"let a = \\\"b\\\";\\n\");"
    );
}

#[test]
fn title_script_uses_debug_quotes() {
    assert_eq!(set_title("Home"), "document.title = \"Home\";");
    assert_eq!(set_title("a \"b\"\n"), "document.title = \"a \\\"b\\\"\\n\";");
}

#[test]
fn meta_and_link_scripts_have_no_children() {
    assert_eq!(
        create_meta("h", &[("name", "description".to_string())]),
        "h;window.createElementInHead(\"meta\", [[\"name\", \"description\"]], null);"
    );
    assert_eq!(
        create_link("h", &[("rel", "icon".to_string())]),
        "h;window.createElementInHead(\"link\", [[\"rel\", \"icon\"]], null);"
    );
}

#[test]
fn script_is_inline_or_by_source_or_nothing() {
    let attributes = [("defer", "true".to_string())];
    assert_eq!(
        create_script("h", &attributes, &None, Some("run()".to_string())),
        Some("h;window.createElementInHead(\"script\", [[\"defer\", \"true\"]], \"run()\");".to_string())
    );
    assert_eq!(
        create_script("h", &attributes, &Some("a.js".to_string()), Some("run()".to_string())),
        Some("h;window.createElementInHead(\"script\", [[\"defer\", \"true\"]], \"run()\");".to_string())
    );
    assert_eq!(
        create_script("h", &attributes, &Some("a.js".to_string()), None),
        Some("h;window.createElementInHead(\"script\", [[\"defer\", \"true\"]], null);".to_string())
    );
    assert_eq!(create_script("h", &attributes, &None, None), None);
}

#[test]
fn style_is_inline_or_a_css_link_or_nothing() {
    let attributes = vec![("media", "print".to_string())];
    assert_eq!(
        create_style("h", attributes.clone(), &None, Some("a{}".to_string())),
        Some("h;window.createElementInHead(\"style\", [[\"media\", \"print\"]], \"a{}\");".to_string())
    );
    assert_eq!(
        create_style("h", attributes.clone(), &Some("a.css".to_string()), None),
        Some(
            "h;window.createElementInHead(\"link\", [[\"media\", \"print\"],[\"type\", \"text/css\"]], null);"
                .to_string()
        )
    );
    assert_eq!(create_style("h", attributes, &None, None), None);
}
