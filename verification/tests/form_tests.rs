use kb_port::form::{
    clean_translated, extract_args, extract_string_value, extract_translated, parse_args,
    parse_depends, parse_field, parse_js, parse_option, parse_tab, read_form, split_args,
    try_parse_js, FieldType, ParseEvent,
};

fn strings(v: &[&str]) -> Vec<String> {
    v.iter().map(|s| s.to_string()).collect()
}

#[test]
fn split_args_keeps_bracketed_commas() {
    let got = split_args("\"a\", _(\"B, c\"), [1, 2]");
    assert_eq!(got, strings(&["\"a\"", "_(\"B, c\")", "[1, 2]"]));
}

#[test]
fn split_args_keeps_inner_empty_pieces() {
    assert_eq!(split_args("a,,b"), strings(&["a", "", "b"]));
}

#[test]
fn split_args_drops_blank_last_piece() {
    assert_eq!(split_args("a, "), strings(&["a"]));
    assert_eq!(split_args(""), Vec::<String>::new());
    assert_eq!(split_args(" , "), strings(&[""]));
}

#[test]
fn split_args_trims_every_argument() {
    assert_eq!(split_args("  x ,\ty\t, z"), strings(&["x", "y", "z"]));
}

#[test]
fn split_args_unbalanced_closing_bracket() {
    // After a stray `)` the nesting is negative and commas no longer split.
    assert_eq!(split_args("a), b, c"), strings(&["a), b, c"]));
}

#[test]
fn extract_args_between_outer_parens() {
    let got = extract_args("s.tab(\"general\", _(\"General Settings\"));");
    assert_eq!(got, Some(strings(&["\"general\"", "_(\"General Settings\")"])));
}

#[test]
fn extract_args_without_parens() {
    assert_eq!(extract_args("no parens here"), None);
    assert_eq!(extract_args("only ( open"), None);
    assert_eq!(extract_args("only ) close"), None);
}

#[test]
fn clean_translated_forms() {
    assert_eq!(clean_translated("_(\"Hello\")"), "Hello");
    assert_eq!(clean_translated("  \"quoted\"  "), "quoted");
    assert_eq!(clean_translated("'single'"), "single");
    assert_eq!(clean_translated("\"'both'\""), "both");
    assert_eq!(clean_translated("plain"), "plain");
}

#[test]
fn extract_translated_forms() {
    assert_eq!(extract_translated("o.description = _(\"Some text\");"), "Some text");
    assert_eq!(extract_translated("o.description = \"nothing\";"), "");
    assert_eq!(extract_translated("_(\"unterminated"), "");
}

#[test]
fn extract_string_value_forms() {
    // Quotes come off only where they end the value; the `;` is taken off last.
    assert_eq!(extract_string_value("o.datatype = \"uinteger\";"), "uinteger\"");
    assert_eq!(extract_string_value("o.default = '5';"), "5'");
    assert_eq!(extract_string_value("o.default = \"5\""), "5");
    assert_eq!(extract_string_value("o.default = 0;"), "0");
    assert_eq!(extract_string_value("o.default"), "");
}

#[test]
fn parse_tab_reads_id_and_label() {
    let t = parse_tab("s.tab(\"general\", _(\"General Settings\"));").unwrap();
    assert_eq!(t.id, "general");
    assert_eq!(t.label, "General Settings");
}

#[test]
fn parse_tab_needs_two_args() {
    assert!(parse_tab("s.tab(\"general\");").is_none());
    assert!(parse_tab("s.tab").is_none());
}

#[test]
fn parse_field_flag_with_label() {
    let f = parse_field("o = s.taboption(\"general\", form.Flag, \"enabled\", _(\"Enable\"));").unwrap();
    assert_eq!(f.tab, "general");
    assert!(matches!(f.field_type, FieldType::Flag));
    assert_eq!(f.name, "enabled");
    assert_eq!(f.label, "Enable");
    assert_eq!(f.description, "");
    assert_eq!(f.datatype, "");
    assert_eq!(f.default, "");
    assert!(f.options.is_empty());
    assert!(f.depends.is_empty());
}

#[test]
fn parse_field_kinds() {
    let v = parse_field("s.taboption(\"t\", form.Value, \"n\")").unwrap();
    assert!(matches!(v.field_type, FieldType::Value));
    assert_eq!(v.label, "");
    let l = parse_field("s.taboption(\"t\", form.ListValue, \"n\")").unwrap();
    assert!(matches!(l.field_type, FieldType::ListValue));
    let x = parse_field("s.taboption(\"t\", form.TextValue, \"n\")").unwrap();
    assert!(matches!(x.field_type, FieldType::TextValue));
    let u = parse_field("s.taboption(\"t\", form.DynamicList, \"n\")").unwrap();
    match u.field_type {
        FieldType::Unknown(s) => assert_eq!(s, "form.DynamicList"),
        _ => panic!("expected an unknown kind"),
    }
}

#[test]
fn parse_field_errors() {
    match parse_field("s.option(form.Value, \"x\")") {
        Err(e) => assert_eq!(e, "too few args"),
        Ok(_) => panic!("expected an error"),
    }
    match parse_field("s.option(") {
        Err(e) => assert_eq!(e, "no args"),
        Ok(_) => panic!("expected an error"),
    }
}

#[test]
fn parse_option_with_and_without_label() {
    assert_eq!(
        parse_option("o.value(\"cake\", _(\"Cake\"));"),
        Some(("cake".to_string(), "Cake".to_string()))
    );
    assert_eq!(parse_option("o.value(\"fq_codel\");"), Some(("fq_codel".to_string(), "fq_codel".to_string())));
    assert_eq!(parse_option("o.value();"), None);
}

#[test]
fn parse_depends_pair() {
    assert_eq!(
        parse_depends("o.depends(\"enabled\", \"1\");"),
        Some(("enabled".to_string(), "1".to_string()))
    );
    assert_eq!(parse_depends("o.depends(\"enabled\");"), None);
}

const SAMPLE: &str = "'use strict';\n\
    return view.extend({\n\
    \ts.tab(\"general\", _(\"General\"));\n\
    \ts.tab(\"advanced\", _(\"Advanced\"));\n\
    \to = s.taboption(\"general\", form.Flag, \"enabled\", _(\"Enable\"));\n\
    \to.default = '0';\n\
    \to = s.taboption(\"general\", form.ListValue, \"qdisc\", _(\"Queue\"));\n\
    \to.value(\"cake\", _(\"Cake\"));\n\
    \to.value(\"fq_codel\");\n\
    \to.depends(\"enabled\", \"1\");\n\
    \to.description = _(\"Queueing discipline\");\n\
    \to = s.option(form.Value);\n\
    \to.default = 'lost';\n\
    \to = s.taboption(\"advanced\", form.Value, \"overhead\", _(\"Overhead\"));\n\
    \to.datatype = \"integer\";\n\
    })\r\n";

#[test]
fn parse_js_collects_tabs_fields_and_warnings() {
    let r = parse_js(SAMPLE, "sqm.js");
    assert_eq!(r.package_name, "sqm");
    assert_eq!(r.tabs.len(), 2);
    assert_eq!(r.tabs[0].id, "general");
    assert_eq!(r.tabs[1].label, "Advanced");
    assert_eq!(r.fields.len(), 3);
    let f0 = &r.fields[0];
    assert_eq!(f0.name, "enabled");
    assert_eq!(f0.default, "0'");
    let f1 = &r.fields[1];
    assert_eq!(f1.name, "qdisc");
    assert_eq!(
        f1.options,
        vec![("cake".to_string(), "Cake".to_string()), ("fq_codel".to_string(), "fq_codel".to_string())]
    );
    assert_eq!(f1.depends, vec![("enabled".to_string(), "1".to_string())]);
    assert_eq!(f1.description, "Queueing discipline");
    let f2 = &r.fields[2];
    assert_eq!(f2.name, "overhead");
    assert_eq!(f2.tab, "advanced");
    assert_eq!(f2.datatype, "integer\"");
    assert_eq!(f2.default, "");
    assert_eq!(r.warnings, vec!["\u{26a0}\u{fe0f}  o = s.option(form.Value);: too few args".to_string()]);
    assert_eq!(r.events.len(), 4);
    match &r.events[2] {
        ParseEvent::Rejected { line } => assert_eq!(line, "o = s.option(form.Value);"),
        _ => panic!("expected a rejected line"),
    }
    match &r.events[3] {
        ParseEvent::Accepted { field_type, name } => {
            assert!(matches!(field_type, FieldType::Value));
            assert_eq!(name, "overhead");
        },
        _ => panic!("expected an accepted field"),
    }
}

#[test]
fn parse_js_package_name_is_file_stem() {
    assert_eq!(parse_js("", "luci.app.js").package_name, "luci.app");
    assert_eq!(parse_js("", ".hidden").package_name, ".hidden");
    assert_eq!(parse_js("", "noext").package_name, "noext");
    assert_eq!(parse_js("", "dir/file.js").package_name, "file");
    assert_eq!(parse_js("", "view/admin/sqm.js").package_name, "sqm");
    assert_eq!(parse_js("", "").package_name, "");
    assert_eq!(parse_js("", "view/sqm.js/").package_name, "sqm");
    assert_eq!(parse_js("", "view/sqm.js/./").package_name, "sqm");
}

#[test]
fn parse_js_lines_before_any_field_are_ignored() {
    let r = parse_js("o.value(\"x\");\no.default = 1;\n", "x.js");
    assert!(r.fields.is_empty());
    assert!(r.warnings.is_empty());
    assert!(r.events.is_empty());
}

#[test]
fn try_parse_js_refuses_reversed_parens() {
    // The last `)` comes before the first `(`: the line would be sliced out of order.
    assert!(try_parse_js("a) s.option(", "x.js").is_none());
    // `_(")` as a label slices out of order too.
    assert!(try_parse_js("s.tab(\"a\", _(\"))", "x.js").is_none());
    assert!(try_parse_js("s.tab(\"a\", \"b\")", "x.js").is_some());
}

#[test]
fn read_form_uses_the_given_name() {
    let r = read_form("s.tab(\"a\", \"A\")", "pkg".to_string()).unwrap();
    assert_eq!(r.package_name, "pkg");
    assert_eq!(r.tabs.len(), 1);
}

#[test]
fn parse_args_defaults() {
    let a = parse_args(&strings(&["kb-port"]));
    assert_eq!(a.input, "");
    assert_eq!(a.output, "/tmp/kb-out");
    assert!(!a.scan);
}

#[test]
fn parse_args_options() {
    let a = parse_args(&strings(&["kb-port", "--scan", "a.js", "--output", "/out"]));
    assert_eq!(a.input, "a.js");
    assert_eq!(a.output, "/out");
    assert!(a.scan);
    let b = parse_args(&strings(&["kb-port", "first.js", "second.js"]));
    assert_eq!(b.input, "first.js");
    let c = parse_args(&strings(&["kb-port", "first.js", "--input", "other.js"]));
    assert_eq!(c.input, "other.js");
    let d = parse_args(&strings(&["kb-port", "--output"]));
    assert_eq!(d.output, "/tmp/kb-out");
}
