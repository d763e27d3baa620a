use kb_port::html::{generate_field_html, generate_html};
use kb_port::form::{Field, FieldType, ParseResult, Tab};
use kb_port::rustgen::{capitalize, generate_rust};

fn field(tab: &str, field_type: FieldType, name: &str, label: &str) -> Field {
    Field {
        tab: tab.to_string(),
        field_type,
        name: name.to_string(),
        label: label.to_string(),
        description: String::new(),
        datatype: String::new(),
        default: String::new(),
        options: Vec::new(),
        depends: Vec::new(),
    }
}

const ROW_ENABLED: &str = "              <div class=\"cbi-value\" id=\"row_enabled\">\n";
const FIELD_OPEN: &str = "                <div class=\"cbi-value-field\">\n";
const FIELD_CLOSE: &str = "                </div>\n              </div>\n\n";

fn flag_html() -> String {
    [
        ROW_ENABLED,
        "                <label class=\"cbi-value-title\">Enable</label>\n",
        FIELD_OPEN,
        "                  <input type=\"checkbox\" name=\"enabled\" value=\"1\" {% if config.enabled == \"1\" %}checked{% endif %}>\n",
        FIELD_CLOSE,
    ]
    .concat()
}

#[test]
fn field_html_flag() {
    let f = field("general", FieldType::Flag, "enabled", "Enable");
    assert_eq!(generate_field_html(&f), flag_html());
}

#[test]
fn field_html_number_value_with_description() {
    let mut f = field("general", FieldType::Value, "port", "Port");
    f.datatype = "uinteger".to_string();
    f.description = "Listen port".to_string();
    let want = [
        "              <div class=\"cbi-value\" id=\"row_port\">\n",
        "                <label class=\"cbi-value-title\">Port</label>\n",
        FIELD_OPEN,
        "                  <input class=\"cbi-input-text\" type=\"number\" name=\"port\" value=\"{{ config.port }}\" min=\"0\">\n",
        "                  <div class=\"cbi-value-description\">Listen port</div>\n",
        FIELD_CLOSE,
    ]
    .concat();
    assert_eq!(generate_field_html(&f), want);
}

#[test]
fn field_html_text_value() {
    let mut f = field("general", FieldType::Value, "host", "Host");
    f.datatype = "hostname".to_string();
    let want = [
        "              <div class=\"cbi-value\" id=\"row_host\">\n",
        "                <label class=\"cbi-value-title\">Host</label>\n",
        FIELD_OPEN,
        "                  <input class=\"cbi-input-text\" type=\"text\" name=\"host\" value=\"{{ config.host }}\">\n",
        FIELD_CLOSE,
    ]
    .concat();
    assert_eq!(generate_field_html(&f), want);
}

#[test]
fn field_html_list_value() {
    let mut f = field("general", FieldType::ListValue, "qdisc", "Queue");
    f.options.push(("cake".to_string(), "Cake".to_string()));
    f.options.push(("fq".to_string(), "FQ".to_string()));
    let want = [
        "              <div class=\"cbi-value\" id=\"row_qdisc\">\n",
        "                <label class=\"cbi-value-title\">Queue</label>\n",
        FIELD_OPEN,
        "                  <select class=\"cbi-input-select\" name=\"qdisc\">\n",
        "                    <option value=\"cake\" {% if config.qdisc == \"cake\" %}selected{% endif %}>Cake</option>\n",
        "                    <option value=\"fq\" {% if config.qdisc == \"fq\" %}selected{% endif %}>FQ</option>\n",
        "                  </select>\n",
        FIELD_CLOSE,
    ]
    .concat();
    assert_eq!(generate_field_html(&f), want);
}

#[test]
fn field_html_textarea_and_unknown() {
    let f = field("t", FieldType::TextValue, "notes", "Notes");
    let want = [
        "              <div class=\"cbi-value\" id=\"row_notes\">\n",
        "                <label class=\"cbi-value-title\">Notes</label>\n",
        FIELD_OPEN,
        "                  <textarea class=\"cbi-input-textarea\" name=\"notes\">{{ config.notes }}</textarea>\n",
        FIELD_CLOSE,
    ]
    .concat();
    assert_eq!(generate_field_html(&f), want);
    let u = field("t", FieldType::Unknown("form.X".to_string()), "n", "");
    let want_u = [
        "              <div class=\"cbi-value\" id=\"row_n\">\n",
        "                <label class=\"cbi-value-title\"></label>\n",
        FIELD_OPEN,
        "                  <!-- TODO: unknown type form.X for n -->\n",
        FIELD_CLOSE,
    ]
    .concat();
    assert_eq!(generate_field_html(&u), want_u);
}

fn head(pkg: &str) -> String {
    [
        "<!DOCTYPE html>\n<html lang=\"en\">\n<head>\n",
        "  <meta charset=\"UTF-8\">\n",
        "  <title>",
        pkg,
        " - LuCI</title>\n",
        "  <link rel=\"stylesheet\" href=\"/luci-static/bootstrap/cascade.css\">\n",
        "</head>\n<body class=\"logged-in\">\n\n",
        "<div id=\"maincontent\" class=\"container-fluid\">\n",
        "  <div id=\"content\">\n",
        "    <form class=\"cbi-map\" method=\"POST\" action=\"/cgi-bin/luci/admin/network/",
        pkg,
        "\">\n\n",
    ]
    .concat()
}

fn actions(pkg: &str) -> String {
    [
        "      <div class=\"cbi-page-actions\">\n",
        "        <input class=\"btn btn-primary\" type=\"submit\" value=\"Save &amp; Apply\">\n",
        "        <a class=\"btn btn-default\" href=\"/cgi-bin/luci/admin/network/",
        pkg,
        "\">Cancel</a>\n",
        "      </div>\n\n    </form>\n  </div>\n</div>\n\n",
    ]
    .concat()
}

const TAIL: &str = "<script src=\"/luci-static/bootstrap/luci.js\"></script>\n</body>\n</html>\n";

#[test]
fn html_without_tabs_has_one_plain_section() {
    let r = ParseResult {
        package_name: "demo".to_string(),
        tabs: Vec::new(),
        fields: vec![field("whatever", FieldType::Flag, "enabled", "Enable")],
        warnings: Vec::new(),
        events: Vec::new(),
    };
    let want = [
        head("demo"),
        "      <div class=\"cbi-section\">\n        <div class=\"cbi-section-node\">\n\n".to_string(),
        flag_html(),
        "        </div>\n      </div>\n\n".to_string(),
        actions("demo"),
        TAIL.to_string(),
    ]
    .concat();
    assert_eq!(generate_html(&r), want);
}

#[test]
fn html_with_tabs_and_dependencies() {
    let mut note = field("advanced", FieldType::TextValue, "note", "Note");
    note.depends.push(("enabled".to_string(), "1".to_string()));
    let r = ParseResult {
        package_name: "demo".to_string(),
        tabs: vec![
            Tab { id: "general".to_string(), label: "General".to_string() },
            Tab { id: "advanced".to_string(), label: "Advanced".to_string() },
        ],
        fields: vec![field("general", FieldType::Flag, "enabled", "Enable"), note],
        warnings: Vec::new(),
        events: Vec::new(),
    };
    let note_html = [
        "              <div class=\"cbi-value\" id=\"row_note\">\n",
        "                <label class=\"cbi-value-title\">Note</label>\n",
        FIELD_OPEN,
        "                  <textarea class=\"cbi-input-textarea\" name=\"note\">{{ config.note }}</textarea>\n",
        FIELD_CLOSE,
    ]
    .concat();
    let want = [
        head("demo"),
        "      <ul class=\"nav nav-tabs\">\n".to_string(),
        "        <li class=\"active\"><a href=\"#general\" data-toggle=\"tab\">General</a></li>\n".to_string(),
        "        <li><a href=\"#advanced\" data-toggle=\"tab\">Advanced</a></li>\n".to_string(),
        "      </ul>\n\n      <div class=\"tab-content\">\n\n".to_string(),
        "        <div class=\"tab-pane active\" id=\"general\">\n          <div class=\"cbi-section\">\n            <div class=\"cbi-section-node\">\n\n".to_string(),
        flag_html(),
        "            </div>\n          </div>\n        </div>\n\n".to_string(),
        "        <div class=\"tab-pane\" id=\"advanced\">\n          <div class=\"cbi-section\">\n            <div class=\"cbi-section-node\">\n\n".to_string(),
        note_html,
        "            </div>\n          </div>\n        </div>\n\n".to_string(),
        "      </div>\n\n".to_string(),
        actions("demo"),
        "<script>\nfunction kb_toggle() {\n".to_string(),
        "  var el = document.getElementById('row_note');\n  var dep = document.querySelector('[name=\"enabled\"]');\n  if (dep && el) {\n    var val = dep.type === 'checkbox' ? (dep.checked ? '1' : '0') : dep.value;\n    el.style.display = val === '1' ? '' : 'none';\n  }\n".to_string(),
        "}\ndocument.querySelectorAll('input,select').forEach(function(el) { el.addEventListener('change', kb_toggle); });\nkb_toggle();\n</script>\n".to_string(),
        TAIL.to_string(),
    ]
    .concat();
    assert_eq!(generate_html(&r), want);
}

#[test]
fn html_default_tab_shows_every_field() {
    let r = ParseResult {
        package_name: "p".to_string(),
        tabs: vec![Tab { id: "__default__".to_string(), label: "All".to_string() }],
        fields: vec![field("other", FieldType::Flag, "enabled", "Enable")],
        warnings: Vec::new(),
        events: Vec::new(),
    };
    assert!(generate_html(&r).contains(&flag_html()));
}

#[test]
fn capitalize_first_character() {
    assert_eq!(capitalize("sqm"), "Sqm");
    assert_eq!(capitalize(""), "");
    assert_eq!(capitalize("1abc"), "1abc");
    assert_eq!(capitalize("\u{e9}t\u{e9}"), "\u{c9}t\u{e9}");
    assert_eq!(capitalize("\u{df}x"), "SSx");
}

#[test]
fn rust_module_for_a_small_form() {
    let mut enabled = field("g", FieldType::Flag, "enabled", "Enable");
    enabled.default = "0".to_string();
    let mut port = field("g", FieldType::Value, "port", "Port");
    port.default = "80".to_string();
    let unknown = field("g", FieldType::Unknown("form.X".to_string()), "x", "");
    let r = ParseResult {
        package_name: "demo".to_string(),
        tabs: Vec::new(),
        fields: vec![enabled, port, unknown],
        warnings: Vec::new(),
        events: Vec::new(),
    };
    let want = [
        "use anyhow::Result;\n",
        "use askama::Template;\n\n",
        "#[derive(Template)]\n#[template(path = \"demo/index.html\")]\n",
        "pub struct DemoTemplate {\n    pub config: DemoConfig,\n}\n\n",
        "#[derive(serde::Serialize, serde::Deserialize, Debug)]\n",
        "pub struct DemoConfig {\n",
        "    pub enabled: String,\n",
        "    pub port: String,\n",
        "}\n\n",
        "#[derive(serde::Deserialize, Debug)]\n",
        "pub struct DemoForm {\n",
        "    pub enabled: Option<String>,\n",
        "    pub port: String,\n",
        "}\n\n",
        "pub fn read_demo_config() -> DemoConfig {\n    DemoConfig {\n",
        "        enabled: uci_get(\"demo.@demo[0].enabled\", \"0\"),\n",
        "        port: uci_get(\"demo.@demo[0].port\", \"80\"),\n",
        "    }\n}\n\n",
        "pub fn write_demo_config(form: &DemoForm) -> Result<()> {\n",
        "    uci_set(\"demo.@demo[0].enabled\", if form.enabled.is_some() { \"1\" } else { \"0\" })?;\n",
        "    uci_set(\"demo.@demo[0].port\", &form.port)?;\n",
        "\n    // TODO: service restart for demo\n",
        "    std::process::Command::new(\"uci\").args([\"commit\", \"demo\"]).status()?;\n",
        "    Ok(())\n}\n\n",
        "fn uci_get(key: &str, default: &str) -> String {\n",
        "    std::process::Command::new(\"uci\").args([\"get\", key]).output()\n",
        "        .map(|o| { let s = String::from_utf8_lossy(&o.stdout).trim().to_string(); if s.is_empty() { default.to_string() } else { s } })\n",
        "        .unwrap_or_else(|_| default.to_string())\n}\n\n",
        "fn uci_set(key: &str, value: &str) -> Result<()> {\n",
        "    std::process::Command::new(\"uci\").args([\"set\", &format!(\"{}={}\", key, value)]).status()?;\n",
        "    Ok(())\n}\n",
    ]
    .concat();
    assert_eq!(generate_rust(&r), want);
}
