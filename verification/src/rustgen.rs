//! The Rust module generated from a read form description: the config and
//! form structs, and the functions that read and write them through `uci`.
use vstd::prelude::*;
use crate::form::{Field, FieldKind, FieldType, FieldV, ParseResult, ParseResultV};
use crate::form;
use crate::text;
use crate::text::chars_of;

verus! {

// ---------------------------------------------------------------------------
// Capitalizing
// ---------------------------------------------------------------------------

/// The upper-case mapping that `char::to_uppercase` yields for a character.
pub uninterp spec fn char_upper(c: char) -> Seq<char>;

/// The upper-case mapping of an ASCII character: letters `a`..`z` become
/// `A`..`Z`, every other ASCII character stays.
pub open spec fn ascii_upper(c: char) -> Seq<char> {
    if 'a' <= c && c <= 'z' {
        seq![((c as u32) - 32) as char]
    } else {
        seq![c]
    }
}

/// `char::to_uppercase`, collected into a string. Stated: the result is the
/// named mapping, and for an ASCII character the ASCII upper case. Left
/// unsaid: the Unicode case tables for other characters.
#[verifier::external_body]
fn to_upper(c: char) -> (res: String)
    ensures
        res@ == char_upper(c),
        (c as u32) < 128 ==> res@ == ascii_upper(c),
{
    c.to_uppercase().collect::<String>()
}

/// `s` with its first character upper-cased.
pub open spec fn capitalize_spec(s: Seq<char>) -> Seq<char> {
    if s.len() == 0 {
        Seq::empty()
    } else {
        char_upper(s[0]) + s.drop_first()
    }
}

/// The text with its first character in upper case.
pub fn capitalize(s: &str) -> (res: String)
    ensures
        res@ == capitalize_spec(s@),
        s@.len() > 0 && (s@[0] as u32) < 128 ==> res@ == ascii_upper(s@[0]) + s@.drop_first(),
{
    let v = chars_of(s);
    if v.len() == 0 {
        return String::new();
    }
    let mut res = to_upper(v[0]);
    let rest = text::slice_of(&v, 1, v.len());
    assert(rest@ =~= s@.drop_first());
    text::push_chars(&mut res, &rest);
    res
}

// ---------------------------------------------------------------------------
// The generated text
// ---------------------------------------------------------------------------

/// A field that the config and form structs have: any kind but an unknown one.
pub open spec fn is_known(f: FieldV) -> bool {
    !(f.kind is Unknown)
}

/// The field's line in the config struct.
pub open spec fn config_line(f: FieldV) -> Seq<char> {
    if is_known(f) {
        "    pub "@ + f.name + ": String,\n"@
    } else {
        Seq::empty()
    }
}

/// The field's line in the form struct: a flag is optional, as an unchecked
/// box is not submitted.
pub open spec fn form_line(f: FieldV) -> Seq<char> {
    if !is_known(f) {
        Seq::empty()
    } else if f.kind is Flag {
        "    pub "@ + f.name + ": Option<String>,\n"@
    } else {
        "    pub "@ + f.name + ": String,\n"@
    }
}

/// The `uci` key of a field: `pkg.@pkg[0].name`.
pub open spec fn uci_key(pkg: Seq<char>, name: Seq<char>) -> Seq<char> {
    pkg + ".@"@ + pkg + "[0]."@ + name
}

/// The field's line in the reading function, with its default.
pub open spec fn read_line(pkg: Seq<char>, f: FieldV) -> Seq<char> {
    if is_known(f) {
        "        "@ + f.name + ": uci_get(\""@ + pkg + ".@"@ + pkg + "[0]."@ + f.name + "\", \""@
            + f.default + "\"),\n"@
    } else {
        Seq::empty()
    }
}

/// The field's line in the writing function: a flag is written as `1` or `0`.
pub open spec fn write_line(pkg: Seq<char>, f: FieldV) -> Seq<char> {
    if !is_known(f) {
        Seq::empty()
    } else if f.kind is Flag {
        "    uci_set(\""@ + pkg + ".@"@ + pkg + "[0]."@ + f.name + "\", if form."@ + f.name
            + ".is_some() { \"1\" } else { \"0\" })?;\n"@
    } else {
        "    uci_set(\""@ + pkg + ".@"@ + pkg + "[0]."@ + f.name + "\", &form."@ + f.name
            + ")?;\n"@
    }
}

/// The two `uci` helper functions at the end of the module.
pub open spec fn uci_helpers() -> Seq<char> {
    "fn uci_get(key: &str, default: &str) -> String {\n"@
        + "    std::process::Command::new(\"uci\").args([\"get\", key]).output()\n"@
        + "        .map(|o| { let s = String::from_utf8_lossy(&o.stdout).trim().to_string(); if s.is_empty() { default.to_string() } else { s } })\n"@
        + "        .unwrap_or_else(|_| default.to_string())\n}\n\n"@
        + "fn uci_set(key: &str, value: &str) -> Result<()> {\n"@
        + "    std::process::Command::new(\"uci\").args([\"set\", &format!(\"{}={}\", key, value)]).status()?;\n"@
        + "    Ok(())\n}\n"@
}

/// The generated module for a read form description.
pub open spec fn rust_spec(r: ParseResultV) -> Seq<char> {
    let pkg = r.package_name;
    let cap = capitalize_spec(pkg);
    let fs = r.fields;
    "use anyhow::Result;\n"@ + "use askama::Template;\n\n"@
        + "#[derive(Template)]\n#[template(path = \""@ + pkg + "/index.html\")]\n"@
        + "pub struct "@ + cap + "Template {\n    pub config: "@ + cap + "Config,\n}\n\n"@
        + "#[derive(serde::Serialize, serde::Deserialize, Debug)]\n"@ + "pub struct "@ + cap
        + "Config {\n"@ + text::concat_map(fs, |f: FieldV| config_line(f)) + "}\n\n"@
        + "#[derive(serde::Deserialize, Debug)]\n"@ + "pub struct "@ + cap + "Form {\n"@
        + text::concat_map(fs, |f: FieldV| form_line(f)) + "}\n\n"@ + "pub fn read_"@ + pkg
        + "_config() -> "@ + cap + "Config {\n    "@ + cap + "Config {\n"@ + text::concat_map(
        fs,
        |f: FieldV| read_line(pkg, f),
    ) + "    }\n}\n\n"@ + "pub fn write_"@ + pkg + "_config(form: &"@ + cap
        + "Form) -> Result<()> {\n"@ + text::concat_map(fs, |f: FieldV| write_line(pkg, f))
        + "\n    // TODO: service restart for "@ + pkg + "\n"@
        + "    std::process::Command::new(\"uci\").args([\"commit\", \""@ + pkg
        + "\"]).status()?;\n"@ + "    Ok(())\n}\n\n"@ + uci_helpers()
}

/// Which of the per-field parts to write.
enum Part {
    Config,
    Form,
    Read,
    Write,
}

spec fn part_line(part: Part, pkg: Seq<char>, f: FieldV) -> Seq<char> {
    match part {
        Part::Config => config_line(f),
        Part::Form => form_line(f),
        Part::Read => read_line(pkg, f),
        Part::Write => write_line(pkg, f),
    }
}

fn push_part_line(rs: &mut String, part: &Part, pkg: &String, field: &Field)
    ensures
        final(rs)@ == old(rs)@ + part_line(*part, pkg@, field@),
{
    let ghost r0 = rs@;
    let known = match &field.field_type {
        FieldType::Unknown(_) => false,
        _ => true,
    };
    if !known {
        assert(rs@ =~= r0 + part_line(*part, pkg@, field@));
        return;
    }
    let flag = match &field.field_type {
        FieldType::Flag => true,
        _ => false,
    };
    match part {
        Part::Config => {
            rs.append("    pub ");
            rs.append(field.name.as_str());
            rs.append(": String,\n");
        },
        Part::Form => {
            rs.append("    pub ");
            rs.append(field.name.as_str());
            if flag {
                rs.append(": Option<String>,\n");
            } else {
                rs.append(": String,\n");
            }
        },
        Part::Read => {
            rs.append("        ");
            rs.append(field.name.as_str());
            rs.append(": uci_get(\"");
            rs.append(pkg.as_str());
            rs.append(".@");
            rs.append(pkg.as_str());
            rs.append("[0].");
            rs.append(field.name.as_str());
            rs.append("\", \"");
            rs.append(field.default.as_str());
            rs.append("\"),\n");
        },
        Part::Write => {
            rs.append("    uci_set(\"");
            rs.append(pkg.as_str());
            rs.append(".@");
            rs.append(pkg.as_str());
            rs.append("[0].");
            rs.append(field.name.as_str());
            if flag {
                rs.append("\", if form.");
                rs.append(field.name.as_str());
                rs.append(".is_some() { \"1\" } else { \"0\" })?;\n");
            } else {
                rs.append("\", &form.");
                rs.append(field.name.as_str());
                rs.append(")?;\n");
            }
        },
    }
    assert(rs@ =~= r0 + part_line(*part, pkg@, field@));
}

fn push_part(rs: &mut String, part: Part, pkg: &String, fields: &Vec<Field>)
    ensures
        final(rs)@ == old(rs)@ + text::concat_map(
            form::field_views(fields@),
            |f: FieldV| part_line(part, pkg@, f),
        ),
{
    let ghost fv = form::field_views(fields@);
    let ghost g = |f: FieldV| part_line(part, pkg@, f);
    let ghost pre = rs@;
    assert(fv.take(0) =~= Seq::<FieldV>::empty());
    for i in 0..fields.len()
        invariant
            fv == form::field_views(fields@),
            g == (|f: FieldV| part_line(part, pkg@, f)),
            rs@ == pre + text::concat_map(fv.take(i as int), g),
    {
        push_part_line(rs, &part, pkg, &fields[i]);
        proof {
            text::lemma_concat_map_step(fv, i as int, g);
        }
    }
    assert(fv.take(fields.len() as int) =~= fv);
}

/// The Rust module (config and form structs, `uci` reading and writing) for a
/// read form description.
#[verifier::rlimit(40)]
pub fn generate_rust(result: &ParseResult) -> (res: String)
    ensures
        res@ == rust_spec(result@),
{
    let ghost r = result@;
    let pkg = &result.package_name;
    let cap = capitalize(pkg.as_str());
    let mut rs = String::new();
    rs.append("use anyhow::Result;\n");
    rs.append("use askama::Template;\n\n");
    rs.append("#[derive(Template)]\n#[template(path = \"");
    rs.append(pkg.as_str());
    rs.append("/index.html\")]\n");
    rs.append("pub struct ");
    rs.append(cap.as_str());
    rs.append("Template {\n    pub config: ");
    rs.append(cap.as_str());
    rs.append("Config,\n}\n\n");
    rs.append("#[derive(serde::Serialize, serde::Deserialize, Debug)]\n");
    rs.append("pub struct ");
    rs.append(cap.as_str());
    rs.append("Config {\n");
    push_part(&mut rs, Part::Config, pkg, &result.fields);
    rs.append("}\n\n");
    rs.append("#[derive(serde::Deserialize, Debug)]\n");
    rs.append("pub struct ");
    rs.append(cap.as_str());
    rs.append("Form {\n");
    push_part(&mut rs, Part::Form, pkg, &result.fields);
    rs.append("}\n\n");
    rs.append("pub fn read_");
    rs.append(pkg.as_str());
    rs.append("_config() -> ");
    rs.append(cap.as_str());
    rs.append("Config {\n    ");
    rs.append(cap.as_str());
    rs.append("Config {\n");
    push_part(&mut rs, Part::Read, pkg, &result.fields);
    rs.append("    }\n}\n\n");
    rs.append("pub fn write_");
    rs.append(pkg.as_str());
    rs.append("_config(form: &");
    rs.append(cap.as_str());
    rs.append("Form) -> Result<()> {\n");
    push_part(&mut rs, Part::Write, pkg, &result.fields);
    rs.append("\n    // TODO: service restart for ");
    rs.append(pkg.as_str());
    rs.append("\n");
    rs.append("    std::process::Command::new(\"uci\").args([\"commit\", \"");
    rs.append(pkg.as_str());
    rs.append("\"]).status()?;\n");
    rs.append("    Ok(())\n}\n\n");
    rs.append("fn uci_get(key: &str, default: &str) -> String {\n");
    rs.append("    std::process::Command::new(\"uci\").args([\"get\", key]).output()\n");
    rs.append("        .map(|o| { let s = String::from_utf8_lossy(&o.stdout).trim().to_string(); if s.is_empty() { default.to_string() } else { s } })\n");
    rs.append("        .unwrap_or_else(|_| default.to_string())\n}\n\n");
    rs.append("fn uci_set(key: &str, value: &str) -> Result<()> {\n");
    rs.append("    std::process::Command::new(\"uci\").args([\"set\", &format!(\"{}={}\", key, value)]).status()?;\n");
    rs.append("    Ok(())\n}\n");
    proof {
        let fs = r.fields;
        let p = r.package_name;
        assert(text::concat_map(fs, |f: FieldV| part_line(Part::Config, p, f)) == text::concat_map(
            fs,
            |f: FieldV| config_line(f),
        )) by {
            assert((|f: FieldV| part_line(Part::Config, p, f)) =~= (|f: FieldV| config_line(f)));
        }
        assert(text::concat_map(fs, |f: FieldV| part_line(Part::Form, p, f)) == text::concat_map(
            fs,
            |f: FieldV| form_line(f),
        )) by {
            assert((|f: FieldV| part_line(Part::Form, p, f)) =~= (|f: FieldV| form_line(f)));
        }
        assert(text::concat_map(fs, |f: FieldV| part_line(Part::Read, p, f)) == text::concat_map(
            fs,
            |f: FieldV| read_line(p, f),
        )) by {
            assert((|f: FieldV| part_line(Part::Read, p, f)) =~= (|f: FieldV| read_line(p, f)));
        }
        assert(text::concat_map(fs, |f: FieldV| part_line(Part::Write, p, f)) == text::concat_map(
            fs,
            |f: FieldV| write_line(p, f),
        )) by {
            assert((|f: FieldV| part_line(Part::Write, p, f)) =~= (|f: FieldV| write_line(p, f)));
        }
    }
    assert(rs@ =~= rust_spec(r));
    rs
}


// ---------------------------------------------------------------------------
// Laws
// ---------------------------------------------------------------------------

/// For every field the generated module handles, the line that reads it and
/// the line that writes it name the same `uci` key, `pkg.@pkg[0].name`.
pub proof fn lemma_read_write_same_key(pkg: Seq<char>, f: FieldV)
    requires
        is_known(f),
    ensures
        text::occurs_at(read_line(pkg, f), uci_key(pkg, f.name), (8 + f.name.len() + 11) as int),
        text::occurs_at(write_line(pkg, f), uci_key(pkg, f.name), 13),
{
    reveal_strlit("        ");
    reveal_strlit(": uci_get(\"");
    reveal_strlit("    uci_set(\"");
    let key = uci_key(pkg, f.name);
    let r = read_line(pkg, f);
    let a: int = (8 + f.name.len() + 11) as int;
    assert(r.subrange(a, a + key.len() as int) =~= key);
    let w = write_line(pkg, f);
    assert(w.subrange(13, 13 + key.len() as int) =~= key);
}

/// Only the fields of a known kind get a line in the config struct.
pub proof fn lemma_unknown_fields_left_out(pkg: Seq<char>, f: FieldV)
    requires
        !is_known(f),
    ensures
        config_line(f).len() == 0,
        form_line(f).len() == 0,
        read_line(pkg, f).len() == 0,
        write_line(pkg, f).len() == 0,
{
}


/// Only a check box is optional in the form struct and written as `1`/`0`;
/// every other known field (value, list or text) is a `String` in both
/// structs and is written with the submitted text itself.
pub proof fn lemma_only_flags_are_optional(pkg: Seq<char>, f: FieldV)
    requires
        is_known(f),
    ensures
        config_line(f) == "    pub "@ + f.name + ": String,\n"@,
        f.kind is Flag ==> form_line(f) == "    pub "@ + f.name + ": Option<String>,\n"@,
        f.kind is Flag ==> write_line(pkg, f) == "    uci_set(\""@ + pkg + ".@"@ + pkg + "[0]."@
            + f.name + "\", if form."@ + f.name + ".is_some() { \"1\" } else { \"0\" })?;\n"@,
        !(f.kind is Flag) ==> form_line(f) == "    pub "@ + f.name + ": String,\n"@,
        !(f.kind is Flag) ==> write_line(pkg, f) == "    uci_set(\""@ + pkg + ".@"@ + pkg
            + "[0]."@ + f.name + "\", &form."@ + f.name + ")?;\n"@,
{
}

} // verus!
