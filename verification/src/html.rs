//! The HTML form template generated from a read form description.
use vstd::prelude::*;
use crate::form::{Field, FieldKind, FieldType, FieldV, ParseResult, ParseResultV, Tab, TabV};
use crate::form;
use crate::text;
use crate::text::{chars_of, contains_str, eq_str};

verus! {

// ---------------------------------------------------------------------------
// The text of one field
// ---------------------------------------------------------------------------

/// One `<option>` of a select box for the field `name`.
pub open spec fn option_html(name: Seq<char>, o: (Seq<char>, Seq<char>)) -> Seq<char> {
    "                    <option value=\""@ + o.0 + "\" {% if config."@ + name + " == \""@ + o.0
        + "\" %}selected{% endif %}>"@ + o.1 + "</option>\n"@
}

/// Whether a value field takes numbers, judged by its datatype.
pub open spec fn is_number(datatype: Seq<char>) -> bool {
    text::contains(datatype, "uinteger"@) || text::contains(datatype, "integer"@)
}

/// The input element of a field, by its kind.
pub open spec fn widget_html(f: FieldV) -> Seq<char> {
    match f.kind {
        FieldKind::Flag => "                  <input type=\"checkbox\" name=\""@ + f.name
            + "\" value=\"1\" {% if config."@ + f.name + " == \"1\" %}checked{% endif %}>\n"@,
        FieldKind::Value => "                  <input class=\"cbi-input-text\" type=\""@ + (if is_number(
            f.datatype,
        ) {
            "number"@
        } else {
            "text"@
        }) + "\" name=\""@ + f.name + "\" value=\"{{ config."@ + f.name + " }}\""@ + (if is_number(
            f.datatype,
        ) {
            " min=\"0\""@
        } else {
            Seq::empty()
        }) + ">\n"@,
        FieldKind::ListValue => "                  <select class=\"cbi-input-select\" name=\""@ + f.name
            + "\">\n"@ + text::concat_map(f.options, |o: (Seq<char>, Seq<char>)| option_html(f.name, o))
            + "                  </select>\n"@,
        FieldKind::TextValue => "                  <textarea class=\"cbi-input-textarea\" name=\""@
            + f.name + "\">{{ config."@ + f.name + " }}</textarea>\n"@,
        FieldKind::Unknown(t) => "                  <!-- TODO: unknown type "@ + t + " for "@ + f.name
            + " -->\n"@,
    }
}

/// The block of one field: title, input element, optional description.
pub open spec fn field_html(f: FieldV) -> Seq<char> {
    "              <div class=\"cbi-value\" id=\"row_"@ + f.name + "\">\n"@
        + "                <label class=\"cbi-value-title\">"@ + f.label + "</label>\n"@
        + "                <div class=\"cbi-value-field\">\n"@ + widget_html(f) + (if f.description.len()
        > 0 {
        "                  <div class=\"cbi-value-description\">"@ + f.description + "</div>\n"@
    } else {
        Seq::empty()
    }) + "                </div>\n              </div>\n\n"@
}

/// Appends one `<option>` line.
fn push_option_html(html: &mut String, name: &String, val: &String, label: &String)
    ensures
        final(html)@ == old(html)@ + option_html(name@, (val@, label@)),
{
    html.append("                    <option value=\"");
    html.append(val.as_str());
    html.append("\" {% if config.");
    html.append(name.as_str());
    html.append(" == \"");
    html.append(val.as_str());
    html.append("\" %}selected{% endif %}>");
    html.append(label.as_str());
    html.append("</option>\n");
}

/// Appends the input element of a field.
fn push_widget_html(html: &mut String, field: &Field)
    ensures
        final(html)@ == old(html)@ + widget_html(field@),
{
    match &field.field_type {
        FieldType::Flag => {
            html.append("                  <input type=\"checkbox\" name=\"");
            html.append(field.name.as_str());
            html.append("\" value=\"1\" {% if config.");
            html.append(field.name.as_str());
            html.append(" == \"1\" %}checked{% endif %}>\n");
        },
        FieldType::Value => {
            let dt = chars_of(field.datatype.as_str());
            let number = contains_str(&dt, "uinteger") || contains_str(&dt, "integer");
            html.append("                  <input class=\"cbi-input-text\" type=\"");
            if number {
                html.append("number");
            } else {
                html.append("text");
            }
            html.append("\" name=\"");
            html.append(field.name.as_str());
            html.append("\" value=\"{{ config.");
            html.append(field.name.as_str());
            html.append(" }}\"");
            if number {
                html.append(" min=\"0\"");
            }
            html.append(">\n");
        },
        FieldType::ListValue => {
            html.append("                  <select class=\"cbi-input-select\" name=\"");
            html.append(field.name.as_str());
            html.append("\">\n");
            let ghost pre = html@;
            let ghost ov = form::pair_views(field.options@);
            let ghost g = |o: (Seq<char>, Seq<char>)| option_html(field.name@, o);
            assert(ov.take(0) =~= Seq::<(Seq<char>, Seq<char>)>::empty());
            for i in 0..field.options.len()
                invariant
                    ov == form::pair_views(field.options@),
                    g == (|o: (Seq<char>, Seq<char>)| option_html(field.name@, o)),
                    html@ == pre + text::concat_map(ov.take(i as int), g),
            {
                let (val, label) = &field.options[i];
                push_option_html(html, &field.name, val, label);
                proof {
                    text::lemma_concat_map_step(ov, i as int, g);
                }
            }
            assert(ov.take(field.options.len() as int) =~= ov);
            html.append("                  </select>\n");
        },
        FieldType::TextValue => {
            html.append("                  <textarea class=\"cbi-input-textarea\" name=\"");
            html.append(field.name.as_str());
            html.append("\">{{ config.");
            html.append(field.name.as_str());
            html.append(" }}</textarea>\n");
        },
        FieldType::Unknown(t) => {
            html.append("                  <!-- TODO: unknown type ");
            html.append(t.as_str());
            html.append(" for ");
            html.append(field.name.as_str());
            html.append(" -->\n");
        },
    }
}

/// The HTML block of one field.
pub fn generate_field_html(field: &Field) -> (res: String)
    ensures
        res@ == field_html(field@),
{
    let mut html = String::new();
    html.append("              <div class=\"cbi-value\" id=\"row_");
    html.append(field.name.as_str());
    html.append("\">\n");
    html.append("                <label class=\"cbi-value-title\">");
    html.append(field.label.as_str());
    html.append("</label>\n");
    html.append("                <div class=\"cbi-value-field\">\n");
    push_widget_html(&mut html, field);
    if !field.description.as_str().is_empty() {
        html.append("                  <div class=\"cbi-value-description\">");
        html.append(field.description.as_str());
        html.append("</div>\n");
    }
    html.append("                </div>\n              </div>\n\n");
    html
}


// ---------------------------------------------------------------------------
// The whole page
// ---------------------------------------------------------------------------

/// The document head and the opening of the form, for the package `pkg`.
pub open spec fn page_head(pkg: Seq<char>) -> Seq<char> {
    "<!DOCTYPE html>\n<html lang=\"en\">\n<head>\n"@ + "  <meta charset=\"UTF-8\">\n"@ + "  <title>"@
        + pkg + " - LuCI</title>\n"@
        + "  <link rel=\"stylesheet\" href=\"/luci-static/bootstrap/cascade.css\">\n"@
        + "</head>\n<body class=\"logged-in\">\n\n"@
        + "<div id=\"maincontent\" class=\"container-fluid\">\n"@ + "  <div id=\"content\">\n"@
        + "    <form class=\"cbi-map\" method=\"POST\" action=\"/cgi-bin/luci/admin/network/"@ + pkg
        + "\">\n\n"@
}

/// One tab header; the first one is marked active.
pub open spec fn tab_li(first: bool, t: TabV) -> Seq<char> {
    "        <li"@ + (if first {
        " class=\"active\""@
    } else {
        Seq::empty()
    }) + "><a href=\"#"@ + t.id + "\" data-toggle=\"tab\">"@ + t.label + "</a></li>\n"@
}

/// The tab headers in order.
pub open spec fn tab_items(ts: Seq<TabV>) -> Seq<char>
    decreases ts.len(),
{
    if ts.len() == 0 {
        Seq::empty()
    } else {
        tab_items(ts.drop_last()) + tab_li(ts.len() == 1, ts.last())
    }
}

/// The tab bar, present only when there are tabs.
pub open spec fn tab_nav(ts: Seq<TabV>) -> Seq<char> {
    if ts.len() > 0 {
        "      <ul class=\"nav nav-tabs\">\n"@ + tab_items(ts)
            + "      </ul>\n\n      <div class=\"tab-content\">\n\n"@
    } else {
        Seq::empty()
    }
}

/// The fields shown in the section `id`: those of that tab, or all of them
/// in the section `__default__`.
pub open spec fn section_fields(id: Seq<char>, fields: Seq<FieldV>) -> Seq<char> {
    text::concat_map(
        fields,
        |f: FieldV|
            if f.tab == id || id == "__default__"@ {
                field_html(f)
            } else {
                Seq::empty()
            },
    )
}

/// One section: a plain one when there are no tabs, else a tab pane.
pub open spec fn section_html(first: bool, id: Seq<char>, plain: bool, fields: Seq<FieldV>) -> Seq<
    char,
> {
    (if plain {
        "      <div class=\"cbi-section\">\n        <div class=\"cbi-section-node\">\n\n"@
    } else {
        "        <div class=\"tab-pane"@ + (if first {
            " active"@
        } else {
            Seq::empty()
        }) + "\" id=\""@ + id
            + "\">\n          <div class=\"cbi-section\">\n            <div class=\"cbi-section-node\">\n\n"@
    }) + section_fields(id, fields) + (if plain {
        "        </div>\n      </div>\n\n"@
    } else {
        "            </div>\n          </div>\n        </div>\n\n"@
    })
}

/// The sections for the given ids, in order.
pub open spec fn sections(ids: Seq<Seq<char>>, plain: bool, fields: Seq<FieldV>) -> Seq<char>
    decreases ids.len(),
{
    if ids.len() == 0 {
        Seq::empty()
    } else {
        sections(ids.drop_last(), plain, fields) + section_html(
            ids.len() == 1,
            ids.last(),
            plain,
            fields,
        )
    }
}

/// The section ids: the tab ids, or `__default__` alone when there are no tabs.
pub open spec fn section_ids(ts: Seq<TabV>) -> Seq<Seq<char>> {
    if ts.len() == 0 {
        seq!["__default__"@]
    } else {
        ts.map_values(|t: TabV| t.id)
    }
}

/// The buttons and the end of the form.
pub open spec fn page_actions(pkg: Seq<char>) -> Seq<char> {
    "      <div class=\"cbi-page-actions\">\n"@
        + "        <input class=\"btn btn-primary\" type=\"submit\" value=\"Save &amp; Apply\">\n"@
        + "        <a class=\"btn btn-default\" href=\"/cgi-bin/luci/admin/network/"@ + pkg
        + "\">Cancel</a>\n"@ + "      </div>\n\n    </form>\n  </div>\n</div>\n\n"@
}

/// The script lines that show the row of `name` only when `d.0` has the value `d.1`.
pub open spec fn dep_js(name: Seq<char>, d: (Seq<char>, Seq<char>)) -> Seq<char> {
    "  var el = document.getElementById('row_"@ + name
        + "');\n  var dep = document.querySelector('[name=\""@ + d.0
        + "\"]');\n  if (dep && el) {\n    var val = dep.type === 'checkbox' ? (dep.checked ? '1' : '0') : dep.value;\n    el.style.display = val === '"@
        + d.1 + "' ? '' : 'none';\n  }\n"@
}

/// The script lines of all dependencies of one field.
pub open spec fn field_deps_js(f: FieldV) -> Seq<char> {
    text::concat_map(f.depends, |d: (Seq<char>, Seq<char>)| dep_js(f.name, d))
}

/// Some field has a dependency.
pub open spec fn has_depends(fs: Seq<FieldV>) -> bool {
    exists|i: int| 0 <= i < fs.len() && fs[i].depends.len() > 0
}

/// The toggling script, present only when some field has a dependency.
pub open spec fn script_html(fs: Seq<FieldV>) -> Seq<char> {
    if has_depends(fs) {
        "<script>\nfunction kb_toggle() {\n"@ + text::concat_map(fs, |f: FieldV| field_deps_js(f))
            + "}\ndocument.querySelectorAll('input,select').forEach(function(el) { el.addEventListener('change', kb_toggle); });\nkb_toggle();\n</script>\n"@
    } else {
        Seq::empty()
    }
}

/// The whole page for a read form description.
pub open spec fn html_spec(r: ParseResultV) -> Seq<char> {
    page_head(r.package_name) + tab_nav(r.tabs) + sections(
        section_ids(r.tabs),
        r.tabs.len() == 0,
        r.fields,
    ) + (if r.tabs.len() > 0 {
        "      </div>\n\n"@
    } else {
        Seq::empty()
    }) + page_actions(r.package_name) + script_html(r.fields)
        + "<script src=\"/luci-static/bootstrap/luci.js\"></script>\n</body>\n</html>\n"@
}

proof fn lemma_tab_items_step(ts: Seq<TabV>, i: int)
    requires
        0 <= i < ts.len(),
    ensures
        tab_items(ts.take(i + 1)) == tab_items(ts.take(i)) + tab_li(i == 0, ts[i]),
{
    assert(ts.take(i + 1).drop_last() =~= ts.take(i));
}

proof fn lemma_sections_step(ids: Seq<Seq<char>>, i: int, plain: bool, fields: Seq<FieldV>)
    requires
        0 <= i < ids.len(),
    ensures
        sections(ids.take(i + 1), plain, fields) == sections(ids.take(i), plain, fields)
            + section_html(i == 0, ids[i], plain, fields),
{
    assert(ids.take(i + 1).drop_last() =~= ids.take(i));
}

/// Appends one section with the fields it shows.
fn push_section(html: &mut String, first: bool, id: &String, plain: bool, fields: &Vec<Field>)
    ensures
        final(html)@ == old(html)@ + section_html(
            first,
            id@,
            plain,
            form::field_views(fields@),
        ),
{
    if plain {
        html.append("      <div class=\"cbi-section\">\n        <div class=\"cbi-section-node\">\n\n");
    } else {
        html.append("        <div class=\"tab-pane");
        if first {
            html.append(" active");
        }
        html.append("\" id=\"");
        html.append(id.as_str());
        html.append("\">\n          <div class=\"cbi-section\">\n            <div class=\"cbi-section-node\">\n\n");
    }
    let ghost pre = html@;
    let ghost fv = form::field_views(fields@);
    let ghost g = |f: FieldV|
        if f.tab == id@ || id@ == "__default__"@ {
            field_html(f)
        } else {
            Seq::<char>::empty()
        };
    let is_default = eq_str(&chars_of(id.as_str()), "__default__");
    assert(fv.take(0) =~= Seq::<FieldV>::empty());
    for i in 0..fields.len()
        invariant
            fv == form::field_views(fields@),
            g == (|f: FieldV|
                if f.tab == id@ || id@ == "__default__"@ {
                    field_html(f)
                } else {
                    Seq::<char>::empty()
                }),
            is_default == (id@ == "__default__"@),
            html@ == pre + text::concat_map(fv.take(i as int), g),
    {
        if fields[i].tab == *id || is_default {
            let part = generate_field_html(&fields[i]);
            html.append(part.as_str());
        }
        proof {
            text::lemma_concat_map_step(fv, i as int, g);
        }
    }
    assert(fv.take(fields.len() as int) =~= fv);
    if plain {
        html.append("        </div>\n      </div>\n\n");
    } else {
        html.append("            </div>\n          </div>\n        </div>\n\n");
    }
}

/// Appends the script lines of one field's dependencies.
fn push_field_deps(html: &mut String, field: &Field)
    ensures
        final(html)@ == old(html)@ + field_deps_js(field@),
{
    let ghost pre = html@;
    let ghost dv = form::pair_views(field.depends@);
    let ghost g = |d: (Seq<char>, Seq<char>)| dep_js(field.name@, d);
    assert(dv.take(0) =~= Seq::<(Seq<char>, Seq<char>)>::empty());
    for j in 0..field.depends.len()
        invariant
            dv == form::pair_views(field.depends@),
            g == (|d: (Seq<char>, Seq<char>)| dep_js(field.name@, d)),
            html@ == pre + text::concat_map(dv.take(j as int), g),
    {
        let (dep_field, dep_val) = &field.depends[j];
        html.append("  var el = document.getElementById('row_");
        html.append(field.name.as_str());
        html.append("');\n  var dep = document.querySelector('[name=\"");
        html.append(dep_field.as_str());
        html.append("\"]');\n  if (dep && el) {\n    var val = dep.type === 'checkbox' ? (dep.checked ? '1' : '0') : dep.value;\n    el.style.display = val === '");
        html.append(dep_val.as_str());
        html.append("' ? '' : 'none';\n  }\n");
        proof {
            text::lemma_concat_map_step(dv, j as int, g);
        }
    }
    assert(dv.take(field.depends.len() as int) =~= dv);
}

fn push_page_head(html: &mut String, pkg: &String)
    ensures
        final(html)@ == old(html)@ + page_head(pkg@),
{
    let ghost h0 = html@;
    html.append("<!DOCTYPE html>\n<html lang=\"en\">\n<head>\n");
    html.append("  <meta charset=\"UTF-8\">\n");
    html.append("  <title>");
    html.append(pkg.as_str());
    html.append(" - LuCI</title>\n");
    html.append("  <link rel=\"stylesheet\" href=\"/luci-static/bootstrap/cascade.css\">\n");
    html.append("</head>\n<body class=\"logged-in\">\n\n");
    html.append("<div id=\"maincontent\" class=\"container-fluid\">\n");
    html.append("  <div id=\"content\">\n");
    html.append("    <form class=\"cbi-map\" method=\"POST\" action=\"/cgi-bin/luci/admin/network/");
    html.append(pkg.as_str());
    html.append("\">\n\n");
    assert(html@ =~= h0 + page_head(pkg@));
}

fn push_tab_nav(html: &mut String, tabs: &Vec<Tab>)
    ensures
        final(html)@ == old(html)@ + tab_nav(form::tab_views(tabs@)),
{
    let ghost h0 = html@;
    let ghost tv = form::tab_views(tabs@);
    if tabs.len() == 0 {
        assert(html@ =~= h0 + tab_nav(tv));
        return;
    }
    html.append("      <ul class=\"nav nav-tabs\">\n");
    let ghost pre = html@;
    assert(tv.take(0) =~= Seq::<TabV>::empty());
    for i in 0..tabs.len()
        invariant
            tv == form::tab_views(tabs@),
            html@ == pre + tab_items(tv.take(i as int)),
    {
        let tab = &tabs[i];
        html.append("        <li");
        if i == 0 {
            html.append(" class=\"active\"");
        }
        html.append("><a href=\"#");
        html.append(tab.id.as_str());
        html.append("\" data-toggle=\"tab\">");
        html.append(tab.label.as_str());
        html.append("</a></li>\n");
        proof {
            lemma_tab_items_step(tv, i as int);
        }
    }
    assert(tv.take(tabs.len() as int) =~= tv);
    html.append("      </ul>\n\n      <div class=\"tab-content\">\n\n");
    assert(html@ =~= h0 + tab_nav(tv));
}

fn section_ids_of(tabs: &Vec<Tab>) -> (res: Vec<String>)
    ensures
        text::views(res@) == section_ids(form::tab_views(tabs@)),
{
    let ghost tv = form::tab_views(tabs@);
    let mut tab_ids: Vec<String> = Vec::new();
    if tabs.len() == 0 {
        tab_ids.push(String::from_str("__default__"));
        assert(text::views(tab_ids@) =~= seq!["__default__"@]);
        return tab_ids;
    }
    for i in 0..tabs.len()
        invariant
            tv == form::tab_views(tabs@),
            text::views(tab_ids@) == tv.take(i as int).map_values(|t: TabV| t.id),
    {
        let ghost old_ids = text::views(tab_ids@);
        tab_ids.push(tabs[i].id.clone());
        assert(text::views(tab_ids@) =~= old_ids.push(tv[i as int].id));
        assert(tv.take(i + 1).map_values(|t: TabV| t.id) =~= tv.take(i as int).map_values(
            |t: TabV| t.id,
        ).push(tv[i as int].id));
    }
    assert(tv.take(tabs.len() as int) =~= tv);
    tab_ids
}

fn push_sections(html: &mut String, ids: &Vec<String>, plain: bool, fields: &Vec<Field>)
    ensures
        final(html)@ == old(html)@ + sections(text::views(ids@), plain, form::field_views(fields@)),
{
    let ghost iv = text::views(ids@);
    let ghost fv = form::field_views(fields@);
    let ghost pre = html@;
    assert(iv.take(0) =~= Seq::<Seq<char>>::empty());
    for i in 0..ids.len()
        invariant
            iv == text::views(ids@),
            fv == form::field_views(fields@),
            html@ == pre + sections(iv.take(i as int), plain, fv),
    {
        push_section(html, i == 0, &ids[i], plain, fields);
        proof {
            lemma_sections_step(iv, i as int, plain, fv);
        }
    }
    assert(iv.take(ids.len() as int) =~= iv);
}

fn push_page_actions(html: &mut String, pkg: &String)
    ensures
        final(html)@ == old(html)@ + page_actions(pkg@),
{
    let ghost h0 = html@;
    html.append("      <div class=\"cbi-page-actions\">\n");
    html.append("        <input class=\"btn btn-primary\" type=\"submit\" value=\"Save &amp; Apply\">\n");
    html.append("        <a class=\"btn btn-default\" href=\"/cgi-bin/luci/admin/network/");
    html.append(pkg.as_str());
    html.append("\">Cancel</a>\n");
    html.append("      </div>\n\n    </form>\n  </div>\n</div>\n\n");
    assert(html@ =~= h0 + page_actions(pkg@));
}

/// Whether some field has a dependency.
fn any_depends(fields: &Vec<Field>) -> (res: bool)
    ensures
        res == has_depends(form::field_views(fields@)),
{
    let ghost fv = form::field_views(fields@);
    for i in 0..fields.len()
        invariant
            fv == form::field_views(fields@),
            forall|k: int| 0 <= k < i ==> fv[k].depends.len() == 0,
    {
        assert(fv[i as int].depends.len() == fields@[i as int].depends@.len());
        if fields[i].depends.len() > 0 {
            return true;
        }
    }
    false
}

fn push_script(html: &mut String, fields: &Vec<Field>)
    ensures
        final(html)@ == old(html)@ + script_html(form::field_views(fields@)),
{
    let ghost h0 = html@;
    let ghost fv = form::field_views(fields@);
    if !any_depends(fields) {
        assert(html@ =~= h0 + script_html(fv));
        return;
    }
    html.append("<script>\nfunction kb_toggle() {\n");
    let ghost pre = html@;
    let ghost g = |f: FieldV| field_deps_js(f);
    assert(fv.take(0) =~= Seq::<FieldV>::empty());
    for i in 0..fields.len()
        invariant
            fv == form::field_views(fields@),
            g == (|f: FieldV| field_deps_js(f)),
            html@ == pre + text::concat_map(fv.take(i as int), g),
    {
        push_field_deps(html, &fields[i]);
        proof {
            text::lemma_concat_map_step(fv, i as int, g);
        }
    }
    assert(fv.take(fields.len() as int) =~= fv);
    html.append("}\ndocument.querySelectorAll('input,select').forEach(function(el) { el.addEventListener('change', kb_toggle); });\nkb_toggle();\n</script>\n");
    assert(html@ =~= h0 + script_html(fv));
}

/// The HTML template page for a read form description.
pub fn generate_html(result: &ParseResult) -> (res: String)
    ensures
        res@ == html_spec(result@),
{
    let ghost r = result@;
    let mut html = String::new();
    push_page_head(&mut html, &result.package_name);
    push_tab_nav(&mut html, &result.tabs);
    let tab_ids = section_ids_of(&result.tabs);
    let no_tabs = result.tabs.len() == 0;
    push_sections(&mut html, &tab_ids, no_tabs, &result.fields);
    let ghost h3 = html@;
    if !no_tabs {
        html.append("      </div>\n\n");
    }
    let ghost h4 = html@;
    push_page_actions(&mut html, &result.package_name);
    push_script(&mut html, &result.fields);
    html.append("<script src=\"/luci-static/bootstrap/luci.js\"></script>\n</body>\n</html>\n");
    assert(h4 =~= h3 + (if r.tabs.len() > 0 {
        "      </div>\n\n"@
    } else {
        Seq::<char>::empty()
    }));
    assert(html@ =~= html_spec(r));
    html
}


// ---------------------------------------------------------------------------
// Laws
// ---------------------------------------------------------------------------

/// Without tabs the page has one plain section, and it shows every field in order.
pub proof fn lemma_no_tabs_shows_all(r: ParseResultV)
    requires
        r.tabs.len() == 0,
    ensures
        sections(section_ids(r.tabs), true, r.fields) == "      <div class=\"cbi-section\">\n        <div class=\"cbi-section-node\">\n\n"@
            + text::concat_map(r.fields, |f: FieldV| field_html(f))
            + "        </div>\n      </div>\n\n"@,
{
    let ids = section_ids(r.tabs);
    assert(ids.drop_last() =~= Seq::<Seq<char>>::empty());
    let id = ids.last();
    assert(id == "__default__"@);
    assert((|f: FieldV|
        if f.tab == id || id == "__default__"@ {
            field_html(f)
        } else {
            Seq::<char>::empty()
        }) =~= (|f: FieldV| field_html(f)));
    assert(section_fields(id, r.fields) == text::concat_map(r.fields, |f: FieldV| field_html(f)));
    assert(sections(ids.drop_last(), true, r.fields) == Seq::<char>::empty());
    assert(Seq::<char>::empty() + section_html(true, id, true, r.fields) =~= section_html(
        true,
        id,
        true,
        r.fields,
    ));
}

/// In the pane of a tab, a field shows only if it belongs to that tab (or the
/// tab is `__default__`).
pub proof fn lemma_section_filters_by_tab(id: Seq<char>, fields: Seq<FieldV>)
    requires
        id != "__default__"@,
    ensures
        section_fields(id, fields) == text::concat_map(
            fields.filter(|f: FieldV| f.tab == id),
            |f: FieldV| field_html(f),
        ),
    decreases fields.len(),
{
    reveal_with_fuel(Seq::<_>::filter, 1);
    if fields.len() > 0 {
        let d = fields.drop_last();
        lemma_section_filters_by_tab(id, d);
        let fl = fields.filter(|f: FieldV| f.tab == id);
        let dl = d.filter(|f: FieldV| f.tab == id);
        if fields.last().tab == id {
            assert(fl == dl.push(fields.last()));
            assert(fl.drop_last() =~= dl);
        } else {
            assert(fl == dl);
        }
    }
}


/// A datatype that names `uinteger` also names `integer`.
proof fn lemma_uinteger_has_integer(s: Seq<char>)
    ensures
        text::contains(s, "uinteger"@) ==> text::contains(s, "integer"@),
{
    reveal_strlit("uinteger");
    reveal_strlit("integer");
    if text::contains(s, "uinteger"@) {
        text::lemma_find_from_some(s, "uinteger"@, 0);
        text::lemma_find_from_some(s, "integer"@, 0);
        let i = text::find(s, "uinteger"@)->0;
        assert forall|k: int| 0 <= k < 7 implies s.subrange(i + 1, i + 8)[k] == "integer"@[k] by {
            assert(s.subrange(i, i + 8)[k + 1] == "uinteger"@[k + 1]);
        }
        assert(s.subrange(i + 1, i + 8) =~= "integer"@);
        assert(text::occurs_at(s, "integer"@, i + 1));
    }
}

/// A value field whose datatype names `integer` (so also `uinteger`) is a
/// number box with `min="0"`; any other value field is a text box without it.
pub proof fn lemma_integer_fields_are_number_boxes(f: FieldV)
    requires
        f.kind is Value,
    ensures
        text::contains(f.datatype, "integer"@) ==> widget_html(f)
            == "                  <input class=\"cbi-input-text\" type=\""@ + "number"@ + "\" name=\""@
            + f.name + "\" value=\"{{ config."@ + f.name + " }}\""@ + " min=\"0\""@ + ">\n"@,
        !text::contains(f.datatype, "integer"@) ==> widget_html(f)
            == "                  <input class=\"cbi-input-text\" type=\""@ + "text"@ + "\" name=\""@
            + f.name + "\" value=\"{{ config."@ + f.name + " }}\""@ + ">\n"@,
{
    lemma_uinteger_has_integer(f.datatype);
    if !text::contains(f.datatype, "integer"@) {
        assert(widget_html(f) =~= "                  <input class=\"cbi-input-text\" type=\""@
            + "text"@ + "\" name=\""@ + f.name + "\" value=\"{{ config."@ + f.name + " }}\""@
            + Seq::<char>::empty() + ">\n"@);
    }
}


/// The input element of each kind of field: a check box for a flag, a select
/// box with one option per declared choice for a list, a text area for a text
/// field, and a comment naming the unknown kind otherwise; every one carries
/// the field's name.
pub proof fn lemma_widget_by_kind(f: FieldV)
    ensures
        f.kind is Flag ==> widget_html(f) == "                  <input type=\"checkbox\" name=\""@
            + f.name + "\" value=\"1\" {% if config."@ + f.name
            + " == \"1\" %}checked{% endif %}>\n"@,
        f.kind is ListValue ==> widget_html(f)
            == "                  <select class=\"cbi-input-select\" name=\""@ + f.name + "\">\n"@
            + text::concat_map(
            f.options,
            |o: (Seq<char>, Seq<char>)|
                "                    <option value=\""@ + o.0 + "\" {% if config."@ + f.name
                    + " == \""@ + o.0 + "\" %}selected{% endif %}>"@ + o.1 + "</option>\n"@,
        ) + "                  </select>\n"@,
        f.kind is TextValue ==> widget_html(f)
            == "                  <textarea class=\"cbi-input-textarea\" name=\""@ + f.name
            + "\">{{ config."@ + f.name + " }}</textarea>\n"@,
        f.kind is Unknown ==> widget_html(f) == "                  <!-- TODO: unknown type "@
            + f.kind->Unknown_0 + " for "@ + f.name + " -->\n"@,
{
    if f.kind is ListValue {
        assert((|o: (Seq<char>, Seq<char>)| option_html(f.name, o)) =~= (|o: (Seq<char>, Seq<char>)|
            "                    <option value=\""@ + o.0 + "\" {% if config."@ + f.name
                + " == \""@ + o.0 + "\" %}selected{% endif %}>"@ + o.1 + "</option>\n"@));
    }
}

} // verus!
