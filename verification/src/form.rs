//! Reading a LuCI JavaScript form description: tabs, fields and their options.
//!
//! The model of each value is a record of character sequences; every
//! executable function states its result over those models.
use vstd::prelude::*;
use crate::text;
use crate::text::{
    chars_of, ends_with_chars, find_char, find_str, rfind_char_exec, slice_of, starts_with_str, eq_str, contains_str, lines_of,
    string_of, strip, strip_end_chars, trim_chars, Pat,
};

verus! {

// ---------------------------------------------------------------------------
// Data and its models
// ---------------------------------------------------------------------------

/// The widget kind named in the second argument of `s.option(..)`.
#[derive(Debug, Clone)]
pub enum FieldType {
    Flag,
    Value,
    ListValue,
    TextValue,
    Unknown(String),
}

pub enum FieldKind {
    Flag,
    Value,
    ListValue,
    TextValue,
    Unknown(Seq<char>),
}

impl View for FieldType {
    type V = FieldKind;

    open spec fn view(&self) -> FieldKind {
        match self {
            FieldType::Flag => FieldKind::Flag,
            FieldType::Value => FieldKind::Value,
            FieldType::ListValue => FieldKind::ListValue,
            FieldType::TextValue => FieldKind::TextValue,
            FieldType::Unknown(s) => FieldKind::Unknown(s@),
        }
    }
}

/// One form field with what the lines after it added.
#[derive(Debug, Clone)]
pub struct Field {
    pub tab: String,
    pub field_type: FieldType,
    pub name: String,
    pub label: String,
    pub description: String,
    pub datatype: String,
    pub default: String,
    pub options: Vec<(String, String)>,
    pub depends: Vec<(String, String)>,
}

pub struct FieldV {
    pub tab: Seq<char>,
    pub kind: FieldKind,
    pub name: Seq<char>,
    pub label: Seq<char>,
    pub description: Seq<char>,
    pub datatype: Seq<char>,
    pub default: Seq<char>,
    pub options: Seq<(Seq<char>, Seq<char>)>,
    pub depends: Seq<(Seq<char>, Seq<char>)>,
}

/// The views of a sequence of string pairs.
pub open spec fn pair_views(v: Seq<(String, String)>) -> Seq<(Seq<char>, Seq<char>)> {
    v.map_values(|p: (String, String)| (p.0@, p.1@))
}

impl View for Field {
    type V = FieldV;

    open spec fn view(&self) -> FieldV {
        FieldV {
            tab: self.tab@,
            kind: self.field_type@,
            name: self.name@,
            label: self.label@,
            description: self.description@,
            datatype: self.datatype@,
            default: self.default@,
            options: pair_views(self.options@),
            depends: pair_views(self.depends@),
        }
    }
}

/// A tab declared by `s.tab(..)`.
#[derive(Debug)]
pub struct Tab {
    pub id: String,
    pub label: String,
}

pub struct TabV {
    pub id: Seq<char>,
    pub label: Seq<char>,
}

impl View for Tab {
    type V = TabV;

    open spec fn view(&self) -> TabV {
        TabV { id: self.id@, label: self.label@ }
    }
}

// ---------------------------------------------------------------------------
// Splitting an argument list
// ---------------------------------------------------------------------------

/// How a character changes the bracket nesting.
pub open spec fn bracket_step(c: char) -> int {
    if c == '(' || c == '[' {
        1
    } else if c == ')' || c == ']' {
        -1
    } else {
        0
    }
}

/// Opening minus closing brackets in `s`.
pub open spec fn nesting(s: Seq<char>) -> int
    decreases s.len(),
{
    if s.len() == 0 {
        0
    } else {
        nesting(s.drop_last()) + bracket_step(s.last())
    }
}

/// `s` cut at each comma outside brackets (a comma where the nesting before it is 0).
/// There is always at least one piece.
pub open spec fn top_pieces(s: Seq<char>) -> Seq<Seq<char>>
    decreases s.len(),
{
    if s.len() == 0 {
        seq![Seq::<char>::empty()]
    } else {
        let t = s.drop_last();
        let c = s.last();
        let p = top_pieces(t);
        if c == ',' && nesting(t) == 0 {
            p.push(Seq::<char>::empty())
        } else {
            p.update(p.len() - 1, p.last().push(c))
        }
    }
}

/// The arguments: each top-level piece trimmed, the last one left out when it is blank.
pub open spec fn split_args_spec(s: Seq<char>) -> Seq<Seq<char>> {
    let p = top_pieces(s);
    let done = p.drop_last().map_values(|x: Seq<char>| text::trim(x));
    if text::trim(p.last()).len() > 0 {
        done.push(text::trim(p.last()))
    } else {
        done
    }
}

proof fn lemma_top_pieces_nonempty(s: Seq<char>)
    ensures
        top_pieces(s).len() >= 1,
    decreases s.len(),
{
    if s.len() > 0 {
        lemma_top_pieces_nonempty(s.drop_last());
    }
}

proof fn lemma_nesting_bound(s: Seq<char>)
    ensures
        -s.len() <= nesting(s) <= s.len(),
    decreases s.len(),
{
    if s.len() > 0 {
        lemma_nesting_bound(s.drop_last());
    }
}

/// Splits an argument list at the commas outside brackets, trimming each argument.
pub fn split_args(s: &str) -> (res: Vec<String>)
    ensures
        text::views(res@) == split_args_spec(s@),
{
    let v = chars_of(s);
    let mut args: Vec<String> = Vec::new();
    let mut depth: i128 = 0;
    let mut current: Vec<char> = Vec::new();
    assert(v@.take(0) =~= Seq::<char>::empty());
    for i in 0..v.len()
        invariant
            v@ == s@,
            text::views(args@) == top_pieces(v@.take(i as int)).drop_last().map_values(
                |x: Seq<char>| text::trim(x),
            ),
            current@ == top_pieces(v@.take(i as int)).last(),
            depth == nesting(v@.take(i as int)),
            i <= v@.len(),
    {
        let ch = v[i];
        let ghost p = v@.take(i as int);
        let ghost q = v@.take(i + 1);
        assert(q.drop_last() =~= p);
        assert(q.last() == ch);
        proof {
            lemma_top_pieces_nonempty(p);
            lemma_nesting_bound(p);
        }
        let ghost old_views = text::views(args@);
        if ch == '(' || ch == '[' {
            depth = depth + 1;
            current.push(ch);
        } else if ch == ')' || ch == ']' {
            depth = depth - 1;
            current.push(ch);
        } else if ch == ',' && depth == 0 {
            let t = trim_chars(&current);
            args.push(string_of(&t));
            current = Vec::new();
            assert(text::views(args@) =~= old_views.push(t@));
        } else {
            current.push(ch);
        }
        proof {
            let tp = top_pieces(p);
            let tq = top_pieces(q);
            if ch == ',' && nesting(p) == 0 {
                assert(tq.drop_last() =~= tp);
                assert(tq.drop_last().map_values(|x: Seq<char>| text::trim(x)) =~= tp.map_values(
                    |x: Seq<char>| text::trim(x),
                ));
                assert(tp.map_values(|x: Seq<char>| text::trim(x)) =~= tp.drop_last().map_values(
                    |x: Seq<char>| text::trim(x),
                ).push(text::trim(tp.last())));
            } else {
                assert(tq.drop_last() =~= tp.drop_last());
            }
        }
    }
    assert(v@.take(v@.len() as int) =~= v@);
    let t = trim_chars(&current);
    if t.len() > 0 {
        let ghost old_views = text::views(args@);
        args.push(string_of(&t));
        assert(text::views(args@) =~= old_views.push(t@));
    }
    args
}

// ---------------------------------------------------------------------------
// Pieces of a line
// ---------------------------------------------------------------------------

/// Whether the last `)` of the line comes before its first `(`; slicing the
/// text between them is then impossible.
pub open spec fn parens_reversed(line: Seq<char>) -> bool {
    match (text::find(line, seq!['(']), text::rfind_char(line, ')')) {
        (Some(a), Some(b)) => b <= a,
        _ => false,
    }
}

/// The arguments between the first `(` and the last `)`.
pub open spec fn extract_args_spec(line: Seq<char>) -> Option<Seq<Seq<char>>> {
    match (text::find(line, seq!['(']), text::rfind_char(line, ')')) {
        (Some(a), Some(b)) => Some(split_args_spec(line.subrange(a + 1, b))),
        _ => None,
    }
}

proof fn lemma_rfind_char(s: Seq<char>, c: char)
    ensures
        text::rfind_char(s, c) matches Some(i) ==> 0 <= i < s.len() && s[i] == c,
    decreases s.len(),
{
    if s.len() > 0 && s.last() != c {
        lemma_rfind_char(s.drop_last(), c);
    }
}

/// The split arguments between the first `(` and the last `)` of a line.
pub fn extract_args(line: &str) -> (res: Option<Vec<String>>)
    requires
        !parens_reversed(line@),
    ensures
        res matches Some(v) ==> extract_args_spec(line@) == Some(text::views(v@)),
        res is None ==> extract_args_spec(line@) is None,
{
    let v = chars_of(line);
    proof {
        lemma_rfind_char(v@, ')');
    }
    let start = match find_char(&v, '(') {
        Some(a) => a,
        None => return None,
    };
    let end = match rfind_char_exec(&v, ')') {
        Some(b) => b,
        None => return None,
    };
    let inner = slice_of(&v, start + 1, end);
    let inner_s = string_of(&inner);
    Some(split_args(inner_s.as_str()))
}

/// The only text for which `clean_translated` slices out of order: `_(")`.
pub open spec fn clean_reversed(s: Seq<char>) -> bool {
    let t = text::trim(s);
    text::starts_with(t, "_(\""@) && text::ends_with(t, "\")"@) && t.len() < 5
}

/// A label with its `_("..")` wrapper, or else its quotes, taken off.
pub open spec fn clean_translated_spec(s: Seq<char>) -> Seq<char> {
    let t = text::trim(s);
    if text::starts_with(t, "_(\""@) && text::ends_with(t, "\")"@) {
        t.subrange(3, t.len() - 2)
    } else {
        text::strip_both(text::strip_both(t, Pat::Ch('"')), Pat::Ch('\''))
    }
}

/// Takes a label out of `_("..")`, or strips quotes around it.
pub fn clean_translated(s: &str) -> (res: String)
    requires
        !clean_reversed(s@),
    ensures
        res@ == clean_translated_spec(s@),
{
    let v = chars_of(s);
    let t = trim_chars(&v);
    if starts_with_str(&t, "_(\"") && ends_with_chars(&t, &chars_of("\")")) {
        let inner = slice_of(&t, 3, t.len() - 2);
        return string_of(&inner);
    }
    let a = strip(&t, Pat::Ch('"'));
    let b = strip(&a, Pat::Ch('\''));
    string_of(&b)
}

/// The text inside the first `_("` up to the next `"`, or empty.
pub open spec fn extract_translated_spec(line: Seq<char>) -> Seq<char> {
    match text::find(line, "_(\""@) {
        Some(start) => match text::find(line.skip(start + 3), seq!['"']) {
            Some(end) => line.subrange(start + 3, start + 3 + end),
            None => Seq::<char>::empty(),
        },
        None => Seq::<char>::empty(),
    }
}

/// Takes the first translated text `_("..")` out of a line.
pub fn extract_translated(line: &str) -> (res: String)
    ensures
        res@ == extract_translated_spec(line@),
{
    let v = chars_of(line);
    let n = v.len();
    if let Some(start) = find_str(&v, "_(\"") {
        proof {
            reveal_strlit("_(\"");
        }
        assert("_(\""@.len() == 3);
        assert(text::occurs_at(v@, "_(\""@, start as int));
        let rest = slice_of(&v, start + 3, n);
        assert(rest@ =~= v@.skip(start + 3));
        if let Some(end) = find_char(&rest, '"') {
            let out = slice_of(&v, start + 3, start + 3 + end);
            return string_of(&out);
        }
    }
    String::new()
}

/// The value after the first `=`: trimmed, quotes taken off, then trailing `;`.
pub open spec fn extract_string_value_spec(line: Seq<char>) -> Seq<char> {
    match text::find(line, seq!['=']) {
        Some(pos) => text::strip_end(
            text::strip_both(text::strip_both(text::trim(line.skip(pos + 1)), Pat::Ch('"')), Pat::Ch('\'')),
            Pat::Ch(';'),
        ),
        None => Seq::<char>::empty(),
    }
}

/// The assigned value of a line such as `o.default = "x";`.
pub fn extract_string_value(line: &str) -> (res: String)
    ensures
        res@ == extract_string_value_spec(line@),
{
    let v = chars_of(line);
    let n = v.len();
    if let Some(pos) = find_char(&v, '=') {
        let rest = slice_of(&v, pos + 1, n);
        assert(rest@ =~= v@.skip(pos + 1));
        let a = trim_chars(&rest);
        let b = strip(&a, Pat::Ch('"'));
        let c = strip(&b, Pat::Ch('\''));
        let d = strip_end_chars(&c, Pat::Ch(';'));
        return string_of(&d);
    }
    String::new()
}


// ---------------------------------------------------------------------------
// One declaration line
// ---------------------------------------------------------------------------

/// Where reading a `s.tab(..)` line would slice out of order.
pub open spec fn tab_reversed(line: Seq<char>) -> bool {
    ||| parens_reversed(line)
    ||| (extract_args_spec(line) matches Some(a) && a.len() >= 2 && clean_reversed(a[1]))
}

/// A tab from its first two arguments: the id without quotes and the cleaned label.
pub open spec fn parse_tab_spec(line: Seq<char>) -> Option<TabV> {
    match extract_args_spec(line) {
        Some(a) => if a.len() < 2 {
            None
        } else {
            Some(TabV { id: text::strip_both(a[0], Pat::Ch('"')), label: clean_translated_spec(a[1]) })
        },
        None => None,
    }
}

/// Reads `s.tab("id", _("Label"))`.
pub fn parse_tab(line: &str) -> (res: Option<Tab>)
    requires
        !tab_reversed(line@),
    ensures
        res matches Some(t) ==> parse_tab_spec(line@) == Some(t@),
        res is None ==> parse_tab_spec(line@) is None,
{
    let args = match extract_args(line) {
        Some(a) => a,
        None => return None,
    };
    if args.len() < 2 {
        return None;
    }
    let id = string_of(&strip(&chars_of(args[0].as_str()), Pat::Ch('"')));
    let label = clean_translated(args[1].as_str());
    Some(Tab { id, label })
}

/// Where reading a field declaration would slice out of order.
pub open spec fn field_reversed(line: Seq<char>) -> bool {
    ||| parens_reversed(line)
    ||| (extract_args_spec(line) matches Some(a) && a.len() > 3 && clean_reversed(a[3]))
}

/// The widget kind named by a trimmed type argument.
pub open spec fn kind_of(t: Seq<char>) -> FieldKind {
    if t == "form.Flag"@ {
        FieldKind::Flag
    } else if t == "form.Value"@ {
        FieldKind::Value
    } else if t == "form.ListValue"@ {
        FieldKind::ListValue
    } else if t == "form.TextValue"@ {
        FieldKind::TextValue
    } else {
        FieldKind::Unknown(t)
    }
}

/// A field from `(tab, type, name[, label])`, with nothing added yet.
pub open spec fn parse_field_spec(line: Seq<char>) -> Result<FieldV, Seq<char>> {
    match extract_args_spec(line) {
        None => Err("no args"@),
        Some(a) => if a.len() < 3 {
            Err("too few args"@)
        } else {
            Ok(
                FieldV {
                    tab: text::strip_both(a[0], Pat::Ch('"')),
                    kind: kind_of(text::trim(a[1])),
                    name: text::strip_both(a[2], Pat::Ch('"')),
                    label: if a.len() > 3 {
                        clean_translated_spec(a[3])
                    } else {
                        Seq::<char>::empty()
                    },
                    description: Seq::<char>::empty(),
                    datatype: Seq::<char>::empty(),
                    default: Seq::<char>::empty(),
                    options: Seq::<(Seq<char>, Seq<char>)>::empty(),
                    depends: Seq::<(Seq<char>, Seq<char>)>::empty(),
                },
            )
        },
    }
}

fn field_type_of(t: &[char]) -> (res: FieldType)
    ensures
        res@ == kind_of(t@),
{
    if eq_str(t, "form.Flag") {
        FieldType::Flag
    } else if eq_str(t, "form.Value") {
        FieldType::Value
    } else if eq_str(t, "form.ListValue") {
        FieldType::ListValue
    } else if eq_str(t, "form.TextValue") {
        FieldType::TextValue
    } else {
        FieldType::Unknown(string_of(t))
    }
}

/// Reads `s.taboption("tab", form.Kind, "name", _("Label"))` or `s.option(..)`.
pub fn parse_field(line: &str) -> (res: Result<Field, String>)
    requires
        !field_reversed(line@),
    ensures
        res matches Ok(f) ==> parse_field_spec(line@) == Ok::<FieldV, Seq<char>>(f@),
        res matches Err(e) ==> parse_field_spec(line@) == Err::<FieldV, Seq<char>>(e@),
{
    let args = match extract_args(line) {
        Some(a) => a,
        None => return Err(String::from_str("no args")),
    };
    if args.len() < 3 {
        return Err(String::from_str("too few args"));
    }
    let tab = string_of(&strip(&chars_of(args[0].as_str()), Pat::Ch('"')));
    let type_str = trim_chars(&chars_of(args[1].as_str()));
    let name = string_of(&strip(&chars_of(args[2].as_str()), Pat::Ch('"')));
    let label = if args.len() > 3 {
        clean_translated(args[3].as_str())
    } else {
        String::new()
    };
    let field_type = field_type_of(&type_str);
    let f = Field {
        tab,
        field_type,
        name,
        label,
        description: String::new(),
        datatype: String::new(),
        default: String::new(),
        options: Vec::new(),
        depends: Vec::new(),
    };
    assert(pair_views(f.options@) =~= Seq::<(Seq<char>, Seq<char>)>::empty());
    assert(pair_views(f.depends@) =~= Seq::<(Seq<char>, Seq<char>)>::empty());
    Ok(f)
}

/// Where reading an `o.value(..)` line would slice out of order.
pub open spec fn option_reversed(line: Seq<char>) -> bool {
    ||| parens_reversed(line)
    ||| (extract_args_spec(line) matches Some(a) && a.len() >= 2 && clean_reversed(a[1]))
}

/// A choice `(value, label)`; the label defaults to the value.
pub open spec fn parse_option_spec(line: Seq<char>) -> Option<(Seq<char>, Seq<char>)> {
    match extract_args_spec(line) {
        Some(a) => if a.len() == 0 {
            None
        } else {
            let val = text::strip_both(a[0], Pat::Ch('"'));
            Some((val, if a.len() >= 2 { clean_translated_spec(a[1]) } else { val }))
        },
        None => None,
    }
}

/// Reads `o.value("val", _("Label"))`.
pub fn parse_option(line: &str) -> (res: Option<(String, String)>)
    requires
        !option_reversed(line@),
    ensures
        res matches Some(p) ==> parse_option_spec(line@) == Some((p.0@, p.1@)),
        res is None ==> parse_option_spec(line@) is None,
{
    let args = match extract_args(line) {
        Some(a) => a,
        None => return None,
    };
    if args.len() == 0 {
        return None;
    }
    let val = string_of(&strip(&chars_of(args[0].as_str()), Pat::Ch('"')));
    let label = if args.len() >= 2 {
        clean_translated(args[1].as_str())
    } else {
        val.clone()
    };
    Some((val, label))
}

/// A dependency `(field, value)` from the first two arguments, quotes taken off.
pub open spec fn parse_depends_spec(line: Seq<char>) -> Option<(Seq<char>, Seq<char>)> {
    match extract_args_spec(line) {
        Some(a) => if a.len() < 2 {
            None
        } else {
            Some((text::strip_both(a[0], Pat::Ch('"')), text::strip_both(a[1], Pat::Ch('"'))))
        },
        None => None,
    }
}

/// Reads `o.depends("field", "value")`.
pub fn parse_depends(line: &str) -> (res: Option<(String, String)>)
    requires
        !parens_reversed(line@),
    ensures
        res matches Some(p) ==> parse_depends_spec(line@) == Some((p.0@, p.1@)),
        res is None ==> parse_depends_spec(line@) is None,
{
    let args = match extract_args(line) {
        Some(a) => a,
        None => return None,
    };
    if args.len() < 2 {
        return None;
    }
    let f = string_of(&strip(&chars_of(args[0].as_str()), Pat::Ch('"')));
    let v = string_of(&strip(&chars_of(args[1].as_str()), Pat::Ch('"')));
    Some((f, v))
}


// ---------------------------------------------------------------------------
// A whole form description
// ---------------------------------------------------------------------------

/// What reading a declaration line reported.
#[derive(Debug)]
pub enum ParseEvent {
    /// A field declaration was read.
    Accepted { field_type: FieldType, name: String },
    /// A field declaration could not be read; the line is given.
    Rejected { line: String },
}

pub enum EventV {
    Accepted(FieldKind, Seq<char>),
    Rejected(Seq<char>),
}

impl View for ParseEvent {
    type V = EventV;

    open spec fn view(&self) -> EventV {
        match self {
            ParseEvent::Accepted { field_type, name } => EventV::Accepted(field_type@, name@),
            ParseEvent::Rejected { line } => EventV::Rejected(line@),
        }
    }
}

/// Everything read from one form description.
#[derive(Debug)]
pub struct ParseResult {
    pub package_name: String,
    pub tabs: Vec<Tab>,
    pub fields: Vec<Field>,
    pub warnings: Vec<String>,
    /// One entry per field declaration line, in order.
    pub events: Vec<ParseEvent>,
}

#[verifier::ext_equal]
pub struct ParseResultV {
    pub package_name: Seq<char>,
    pub tabs: Seq<TabV>,
    pub fields: Seq<FieldV>,
    pub warnings: Seq<Seq<char>>,
    pub events: Seq<EventV>,
}

pub open spec fn tab_views(v: Seq<Tab>) -> Seq<TabV> {
    v.map_values(|t: Tab| t@)
}

pub open spec fn field_views(v: Seq<Field>) -> Seq<FieldV> {
    v.map_values(|f: Field| f@)
}

pub open spec fn event_views(v: Seq<ParseEvent>) -> Seq<EventV> {
    v.map_values(|e: ParseEvent| e@)
}

impl View for ParseResult {
    type V = ParseResultV;

    open spec fn view(&self) -> ParseResultV {
        ParseResultV {
            package_name: self.package_name@,
            tabs: tab_views(self.tabs@),
            fields: field_views(self.fields@),
            warnings: text::views(self.warnings@),
            events: event_views(self.events@),
        }
    }
}

/// The reader's state after some lines: what it has collected, and the field
/// that the following `o.*` lines add to.
#[verifier::ext_equal]
pub struct JsState {
    pub tabs: Seq<TabV>,
    pub fields: Seq<FieldV>,
    pub warnings: Seq<Seq<char>>,
    pub events: Seq<EventV>,
    pub current: Option<FieldV>,
}

pub open spec fn js_init() -> JsState {
    JsState {
        tabs: Seq::empty(),
        fields: Seq::empty(),
        warnings: Seq::empty(),
        events: Seq::empty(),
        current: None,
    }
}

/// A line that declares a field.
pub open spec fn is_field_line(line: Seq<char>) -> bool {
    text::contains(line, "s.taboption("@) || text::contains(line, "s.option("@)
}

/// What an `o.*` line adds to the field it follows.
pub open spec fn field_step(f: FieldV, line: Seq<char>) -> FieldV {
    if text::starts_with(line, "o.value("@) {
        match parse_option_spec(line) {
            Some(p) => FieldV { options: f.options.push(p), ..f },
            None => f,
        }
    } else if text::starts_with(line, "o.depends("@) {
        match parse_depends_spec(line) {
            Some(p) => FieldV { depends: f.depends.push(p), ..f },
            None => f,
        }
    } else if text::starts_with(line, "o.datatype"@) {
        FieldV { datatype: extract_string_value_spec(line), ..f }
    } else if text::starts_with(line, "o.default"@) {
        FieldV { default: extract_string_value_spec(line), ..f }
    } else if text::starts_with(line, "o.description"@) {
        FieldV { description: extract_translated_spec(line), ..f }
    } else {
        f
    }
}

/// The warning for a field declaration that could not be read.
pub open spec fn warning_text(line: Seq<char>, e: Seq<char>) -> Seq<char> {
    "\u{26a0}\u{fe0f}  "@ + line + ": "@ + e
}

/// One (trimmed) line of the reader.
pub open spec fn js_step(st: JsState, line: Seq<char>) -> JsState {
    if text::starts_with(line, "s.tab("@) {
        match parse_tab_spec(line) {
            Some(t) => JsState { tabs: st.tabs.push(t), ..st },
            None => st,
        }
    } else if is_field_line(line) {
        let fields = match st.current {
            Some(f) => st.fields.push(f),
            None => st.fields,
        };
        match parse_field_spec(line) {
            Ok(f) => JsState {
                fields,
                events: st.events.push(EventV::Accepted(f.kind, f.name)),
                current: Some(f),
                ..st
            },
            Err(e) => JsState {
                fields,
                warnings: st.warnings.push(warning_text(line, e)),
                events: st.events.push(EventV::Rejected(line)),
                current: None,
                ..st
            },
        }
    } else {
        match st.current {
            Some(f) => JsState { current: Some(field_step(f, line)), ..st },
            None => st,
        }
    }
}

/// Whether the reader would slice out of order on this (trimmed) line.
pub open spec fn step_reversed(st: JsState, line: Seq<char>) -> bool {
    if text::starts_with(line, "s.tab("@) {
        tab_reversed(line)
    } else if is_field_line(line) {
        field_reversed(line)
    } else if st.current is Some && text::starts_with(line, "o.value("@) {
        option_reversed(line)
    } else if st.current is Some && text::starts_with(line, "o.depends("@) {
        parens_reversed(line)
    } else {
        false
    }
}

/// The state after the given lines, each trimmed first.
pub open spec fn js_run(ls: Seq<Seq<char>>) -> JsState
    decreases ls.len(),
{
    if ls.len() == 0 {
        js_init()
    } else {
        js_step(js_run(ls.drop_last()), text::trim(ls.last()))
    }
}

/// No line slices out of order.
pub open spec fn js_ok(ls: Seq<Seq<char>>) -> bool
    decreases ls.len(),
{
    if ls.len() == 0 {
        true
    } else {
        js_ok(ls.drop_last()) && !step_reversed(js_run(ls.drop_last()), text::trim(ls.last()))
    }
}

/// The form read from `content` under the given package name; the field
/// still open at the end is kept.
pub open spec fn form_spec(content: Seq<char>, package_name: Seq<char>) -> ParseResultV {
    let st = js_run(text::lines(content));
    ParseResultV {
        package_name,
        tabs: st.tabs,
        fields: match st.current {
            Some(f) => st.fields.push(f),
            None => st.fields,
        },
        warnings: st.warnings,
        events: st.events,
    }
}

/// Reading `content` never slices out of order.
pub open spec fn form_ok(content: Seq<char>) -> bool {
    js_ok(text::lines(content))
}

proof fn lemma_js_ok_prefix(ls: Seq<Seq<char>>, j: int)
    requires
        js_ok(ls),
        0 <= j <= ls.len(),
    ensures
        js_ok(ls.take(j)),
    decreases ls.len(),
{
    if j < ls.len() {
        assert(ls.drop_last().take(j) =~= ls.take(j));
        lemma_js_ok_prefix(ls.drop_last(), j);
    } else {
        assert(ls.take(j) =~= ls);
    }
}

fn clone_field_type(t: &FieldType) -> (res: FieldType)
    ensures
        res@ == t@,
{
    match t {
        FieldType::Flag => FieldType::Flag,
        FieldType::Value => FieldType::Value,
        FieldType::ListValue => FieldType::ListValue,
        FieldType::TextValue => FieldType::TextValue,
        FieldType::Unknown(s) => FieldType::Unknown(s.clone()),
    }
}

/// Whether a `s.tab(..)` line would slice out of order.
pub fn tab_line_reversed(line: &str) -> (res: bool)
    ensures
        res == tab_reversed(line@),
{
    if parens_reversed_exec(line) {
        return true;
    }
    match extract_args(line) {
        Some(a) => a.len() >= 2 && clean_reversed_exec(a[1].as_str()),
        None => false,
    }
}

/// Whether a field declaration line would slice out of order.
pub fn field_line_reversed(line: &str) -> (res: bool)
    ensures
        res == field_reversed(line@),
{
    if parens_reversed_exec(line) {
        return true;
    }
    match extract_args(line) {
        Some(a) => a.len() > 3 && clean_reversed_exec(a[3].as_str()),
        None => false,
    }
}

/// Whether an `o.value(..)` line would slice out of order.
pub fn option_line_reversed(line: &str) -> (res: bool)
    ensures
        res == option_reversed(line@),
{
    if parens_reversed_exec(line) {
        return true;
    }
    match extract_args(line) {
        Some(a) => a.len() >= 2 && clean_reversed_exec(a[1].as_str()),
        None => false,
    }
}

/// Whether the last `)` of a line comes before its first `(`.
pub fn parens_reversed_exec(line: &str) -> (res: bool)
    ensures
        res == parens_reversed(line@),
{
    let v = chars_of(line);
    match (find_char(&v, '('), rfind_char_exec(&v, ')')) {
        (Some(a), Some(b)) => b <= a,
        _ => false,
    }
}

/// Whether `clean_translated` would slice out of order on `s`.
pub fn clean_reversed_exec(s: &str) -> (res: bool)
    ensures
        res == clean_reversed(s@),
{
    let t = trim_chars(&chars_of(s));
    starts_with_str(&t, "_(\"") && ends_with_chars(&t, &chars_of("\")")) && t.len() < 5
}

/// The reader's state held in executable values.
pub open spec fn state_of(
    tabs: Seq<Tab>,
    fields: Seq<Field>,
    warnings: Seq<String>,
    events: Seq<ParseEvent>,
    current: Option<Field>,
) -> JsState {
    JsState {
        tabs: tab_views(tabs),
        fields: field_views(fields),
        warnings: text::views(warnings),
        events: event_views(events),
        current: match current {
            Some(f) => Some(f@),
            None => None,
        },
    }
}

/// Adds what an `o.*` line says to a field.
fn apply_field_line(f: &mut Field, line: &str)
    requires
        !(text::starts_with(line@, "o.value("@) && option_reversed(line@)),
        !(!text::starts_with(line@, "o.value("@) && text::starts_with(line@, "o.depends("@)
            && parens_reversed(line@)),
    ensures
        final(f)@ == field_step(old(f)@, line@),
{
    let v = chars_of(line);
    if starts_with_str(&v, "o.value(") {
        if let Some(p) = parse_option(line) {
            let ghost old_opts = pair_views(f.options@);
            f.options.push(p);
            assert(pair_views(f.options@) =~= old_opts.push((p.0@, p.1@)));
        }
    } else if starts_with_str(&v, "o.depends(") {
        if let Some(p) = parse_depends(line) {
            let ghost old_deps = pair_views(f.depends@);
            f.depends.push(p);
            assert(pair_views(f.depends@) =~= old_deps.push((p.0@, p.1@)));
        }
    } else if starts_with_str(&v, "o.datatype") {
        f.datatype = extract_string_value(line);
    } else if starts_with_str(&v, "o.default") {
        f.default = extract_string_value(line);
    } else if starts_with_str(&v, "o.description") {
        f.description = extract_translated(line);
    }
}

/// Reads a form description under the given package name. `None` exactly when
/// some line would be sliced out of order.
pub fn read_form(content: &str, package_name: String) -> (res: Option<ParseResult>)
    ensures
        res is Some <==> form_ok(content@),
        res matches Some(r) ==> r@ == form_spec(content@, package_name@),
{
    let chars = chars_of(content);
    let ls = lines_of(&chars);
    let ghost lv = ls@.map_values(|l: Vec<char>| l@);
    let mut tabs: Vec<Tab> = Vec::new();
    let mut fields: Vec<Field> = Vec::new();
    let mut warnings: Vec<String> = Vec::new();
    let mut events: Vec<ParseEvent> = Vec::new();
    let mut current: Option<Field> = None;
    assert(lv.take(0) =~= Seq::<Seq<char>>::empty());
    assert(state_of(tabs@, fields@, warnings@, events@, current) =~= js_init());
    for i in 0..ls.len()
        invariant
            lv == ls@.map_values(|l: Vec<char>| l@),
            lv == text::lines(content@),
            js_ok(lv.take(i as int)),
            state_of(tabs@, fields@, warnings@, events@, current) == js_run(lv.take(i as int)),
    {
        let line_v = trim_chars(&ls[i]);
        let line = string_of(&line_v);
        let ghost st = js_run(lv.take(i as int));
        proof {
            assert(lv.take(i + 1).drop_last() =~= lv.take(i as int));
            assert(lv.take(i + 1).last() == ls@[i as int]@);
        }
        let ghost next = js_step(st, line@);
        if starts_with_str(&line_v, "s.tab(") {
            if tab_line_reversed(line.as_str()) {
                proof {
                    if js_ok(lv) {
                        lemma_js_ok_prefix(lv, i + 1);
                    }
                }
                return None;
            }
            if let Some(tab) = parse_tab(line.as_str()) {
                let ghost old_tabs = tab_views(tabs@);
                tabs.push(tab);
                assert(tab_views(tabs@) =~= old_tabs.push(tab@));
            }
        } else if contains_str(&line_v, "s.taboption(") || contains_str(&line_v, "s.option(") {
            if field_line_reversed(line.as_str()) {
                proof {
                    if js_ok(lv) {
                        lemma_js_ok_prefix(lv, i + 1);
                    }
                }
                return None;
            }
            let prev = current;
            current = None;
            if let Some(existing) = prev {
                let ghost old_fields = field_views(fields@);
                fields.push(existing);
                assert(field_views(fields@) =~= old_fields.push(existing@));
            }
            match parse_field(line.as_str()) {
                Ok(field) => {
                    let ghost old_events = event_views(events@);
                    let ev = ParseEvent::Accepted {
                        field_type: clone_field_type(&field.field_type),
                        name: field.name.clone(),
                    };
                    events.push(ev);
                    assert(event_views(events@) =~= old_events.push(ev@));
                    current = Some(field);
                },
                Err(e) => {
                    let ghost old_events = event_views(events@);
                    let ghost old_warnings = text::views(warnings@);
                    let mut w = String::from_str("\u{26a0}\u{fe0f}  ");
                    w.append(line.as_str());
                    w.append(": ");
                    w.append(e.as_str());
                    warnings.push(w);
                    assert(text::views(warnings@) =~= old_warnings.push(w@));
                    let ev = ParseEvent::Rejected { line: line.clone() };
                    events.push(ev);
                    assert(event_views(events@) =~= old_events.push(ev@));
                },
            }
        } else {
            let prev = current;
            current = None;
            if let Some(mut field) = prev {
                let is_value = starts_with_str(&line_v, "o.value(");
                if is_value && option_line_reversed(line.as_str()) {
                    proof {
                        if js_ok(lv) {
                            lemma_js_ok_prefix(lv, i + 1);
                        }
                    }
                    return None;
                }
                if !is_value && starts_with_str(&line_v, "o.depends(") && parens_reversed_exec(
                    line.as_str(),
                ) {
                    proof {
                        if js_ok(lv) {
                            lemma_js_ok_prefix(lv, i + 1);
                        }
                    }
                    return None;
                }
                apply_field_line(&mut field, line.as_str());
                current = Some(field);
            }
        }
        assert(state_of(tabs@, fields@, warnings@, events@, current) =~= next);
    }
    assert(lv.take(ls.len() as int) =~= lv);
    if let Some(last) = current {
        let ghost old_fields = field_views(fields@);
        fields.push(last);
        assert(field_views(fields@) =~= old_fields.push(last@));
    }
    Some(ParseResult { package_name, tabs, fields, warnings, events })
}


// ---------------------------------------------------------------------------
// The package name and the entry points
// ---------------------------------------------------------------------------

/// A single file name: not empty, without a path separator or a `:` (which
/// can start a drive prefix), not `.` or `..`.
pub open spec fn is_plain_name(s: Seq<char>) -> bool {
    &&& s.len() > 0
    &&& !s.contains('/')
    &&& !s.contains('\\')
    &&& !s.contains(':')
    &&& s != seq!['.']
    &&& s != seq!['.', '.']
}

/// The part of a path after its last `/` (the whole path when it has none).
pub open spec fn last_part(s: Seq<char>) -> Seq<char> {
    match text::rfind_char(s, '/') {
        Some(k) => s.skip(k + 1),
        None => s,
    }
}

/// A path that every platform splits only at `/`: no `\`, no `:` and no
/// leading `//`, so that it has no drive, UNC or verbatim prefix.
pub open spec fn is_portable_path(s: Seq<char>) -> bool {
    &&& !s.contains('\\')
    &&& !s.contains(':')
    &&& !text::starts_with(s, seq!['/', '/'])
}

/// A path without its trailing separators and trailing `/.` parts, which
/// path normalisation drops (`a/b/` and `a/b/.` name the same file as `a/b`).
pub open spec fn strip_trailing(s: Seq<char>) -> Seq<char>
    decreases s.len(),
{
    if s.len() > 0 && s.last() == '/' {
        strip_trailing(s.drop_last())
    } else if s.len() >= 2 && s.last() == '.' && s[s.len() - 2] == '/' {
        strip_trailing(s.drop_last())
    } else {
        s
    }
}

/// The file name a path ends in: its last part after normalisation.
pub open spec fn final_name(path: Seq<char>) -> Seq<char> {
    last_part(strip_trailing(path))
}

/// Whether the stem of a path is the same on every platform: the path is
/// portable and the file name it ends in is a plain file name.
pub open spec fn has_known_stem(path: Seq<char>) -> bool {
    is_portable_path(path) && is_plain_name(final_name(path))
}

/// The stem of a plain file name: the part before its last `.`, unless that
/// `.` is the first character or there is none, in which case the whole name.
pub open spec fn name_stem(s: Seq<char>) -> Seq<char> {
    match text::rfind_char(s, '.') {
        Some(k) => if k > 0 {
            s.take(k)
        } else {
            s
        },
        None => s,
    }
}

/// `std::path::Path::file_stem` of a path given as text, turned back into text
/// (lossless here, as the path came from a `&str`). Stated: no stem for empty
/// text; for a path without `\`, `:` or a leading `//`, whose last part after
/// dropping trailing `/` and `/.` is a plain file name, the documented stem of
/// that part. Left unsaid: other paths (with a `\`, a `:`, a leading `//`, or
/// ending in `..` or naming only `.`), whose reading depends on the platform
/// or on how `..` is resolved.
#[verifier::external_body]
fn file_stem(path: &str) -> (res: Option<String>)
    ensures
        path@.len() == 0 ==> res is None,
        has_known_stem(path@) ==> res is Some && res.unwrap()@ == name_stem(final_name(path@)),
{
    match std::path::Path::new(path).file_stem() {
        Some(stem) => Some(stem.to_string_lossy().into_owned()),
        None => None,
    }
}

/// Reads a form description; the package name is the stem of `filename`.
/// `None` exactly when some line would be sliced out of order.
pub fn try_parse_js(content: &str, filename: &str) -> (res: Option<ParseResult>)
    ensures
        res is Some <==> form_ok(content@),
        res matches Some(r) ==> {
            &&& r@ == form_spec(content@, r.package_name@)
            &&& has_known_stem(filename@) ==> r.package_name@ == name_stem(final_name(filename@))
            &&& filename@.len() == 0 ==> r.package_name@.len() == 0
        },
{
    let package_name = match file_stem(filename) {
        Some(s) => s,
        None => String::new(),
    };
    read_form(content, package_name)
}

/// Reads a form description; the package name is the stem of `filename`.
pub fn parse_js(content: &str, filename: &str) -> (res: ParseResult)
    requires
        form_ok(content@),
    ensures
        res@ == form_spec(content@, res.package_name@),
        has_known_stem(filename@) ==> res.package_name@ == name_stem(final_name(filename@)),
        filename@.len() == 0 ==> res.package_name@.len() == 0,
{
    match try_parse_js(content, filename) {
        Some(r) => r,
        None => {
            assert(false);
            ParseResult {
                package_name: String::new(),
                tabs: Vec::new(),
                fields: Vec::new(),
                warnings: Vec::new(),
                events: Vec::new(),
            }
        },
    }
}

// ---------------------------------------------------------------------------
// Command line
// ---------------------------------------------------------------------------

/// The command line of `kb-port`.
#[derive(Debug)]
pub struct Args {
    pub input: String,
    pub output: String,
    pub scan: bool,
}

#[verifier::ext_equal]
pub struct ArgsV {
    pub input: Seq<char>,
    pub output: Seq<char>,
    pub scan: bool,
}

impl View for Args {
    type V = ArgsV;

    open spec fn view(&self) -> ArgsV {
        ArgsV { input: self.input@, output: self.output@, scan: self.scan }
    }
}

/// The options read from `args[i..]` on top of `st`: `--scan [file]`,
/// `--input file`, `--output dir`; any other word is the input unless one is set.
pub open spec fn args_from(args: Seq<Seq<char>>, i: int, st: ArgsV) -> ArgsV
    decreases args.len() + 1 - i,
{
    if i < 0 || i >= args.len() {
        st
    } else if args[i] == "--scan"@ {
        let next = if i + 1 < args.len() { args[i + 1] } else { st.input };
        args_from(args, i + 2, ArgsV { scan: true, input: next, ..st })
    } else if args[i] == "--input"@ {
        let next = if i + 1 < args.len() { args[i + 1] } else { st.input };
        args_from(args, i + 2, ArgsV { input: next, ..st })
    } else if args[i] == "--output"@ {
        let next = if i + 1 < args.len() { args[i + 1] } else { st.output };
        args_from(args, i + 2, ArgsV { output: next, ..st })
    } else {
        let next = if st.input.len() == 0 { args[i] } else { st.input };
        args_from(args, i + 1, ArgsV { input: next, ..st })
    }
}

/// The options of a whole command line; the first word is the program.
pub open spec fn parse_args_spec(args: Seq<Seq<char>>) -> ArgsV {
    args_from(args, 1, ArgsV { input: Seq::empty(), output: "/tmp/kb-out"@, scan: false })
}

/// Reads the command line (program name first).
pub fn parse_args(args: &Vec<String>) -> (res: Args)
    ensures
        res@ == parse_args_spec(text::views(args@)),
{
    let ghost av = text::views(args@);
    let mut input = String::new();
    let mut output = String::from_str("/tmp/kb-out");
    let mut scan = false;
    let n = args.len();
    if n == 0 {
        return Args { input, output, scan };
    }
    let mut i: usize = 1;
    while i < n
        invariant
            1 <= i <= n == args@.len(),
            av == text::views(args@),
            parse_args_spec(av) == args_from(
                av,
                i as int,
                ArgsV { input: input@, output: output@, scan },
            ),
        decreases n - i,
    {
        let a = chars_of(args[i].as_str());
        assert(av[i as int] == a@);
        let ghost st = ArgsV { input: input@, output: output@, scan };
        let ghost i0 = i as int;
        if eq_str(&a, "--scan") {
            assert(av[i0] == "--scan"@);
            assert(args_from(av, i0, st) == args_from(
                av,
                i0 + 2,
                ArgsV { scan: true, input: if i0 + 1 < av.len() { av[i0 + 1] } else { st.input }, ..st },
            ));
            scan = true;
            if i + 1 < n {
                input = args[i + 1].clone();
                assert(input@ == av[i + 1]);
                i = i + 2;
            } else {
                i = n;
            }
            assert(args_from(av, i0, st) == args_from(av, i as int, ArgsV { input: input@, output: output@, scan }));
        } else if eq_str(&a, "--input") {
            assert(av[i0] == "--input"@);
            assert(args_from(av, i0, st) == args_from(
                av,
                i0 + 2,
                ArgsV { input: if i0 + 1 < av.len() { av[i0 + 1] } else { st.input }, ..st },
            ));
            if i + 1 < n {
                input = args[i + 1].clone();
                assert(input@ == av[i + 1]);
                i = i + 2;
            } else {
                i = n;
            }
            assert(args_from(av, i0, st) == args_from(av, i as int, ArgsV { input: input@, output: output@, scan }));
        } else if eq_str(&a, "--output") {
            assert(av[i0] == "--output"@);
            assert(args_from(av, i0, st) == args_from(
                av,
                i0 + 2,
                ArgsV { output: if i0 + 1 < av.len() { av[i0 + 1] } else { st.output }, ..st },
            ));
            if i + 1 < n {
                output = args[i + 1].clone();
                assert(output@ == av[i + 1]);
                i = i + 2;
            } else {
                i = n;
            }
            assert(args_from(av, i0, st) == args_from(av, i as int, ArgsV { input: input@, output: output@, scan }));
        } else {
            assert(av[i0] != "--scan"@ && av[i0] != "--input"@ && av[i0] != "--output"@);
            if input.as_str().is_empty() {
                input = args[i].clone();
            }
            i = i + 1;
            assert(args_from(av, i0, st) == args_from(av, i as int, ArgsV { input: input@, output: output@, scan }));
        }
    }
    Args { input, output, scan }
}


// ---------------------------------------------------------------------------
// Laws
// ---------------------------------------------------------------------------

/// Every argument that `split_args` gives is trimmed.
pub proof fn lemma_split_args_trimmed(s: Seq<char>)
    ensures
        forall|i: int|
            0 <= i < split_args_spec(s).len() ==> text::trim(#[trigger] split_args_spec(s)[i])
                == split_args_spec(s)[i],
{
    let p = top_pieces(s);
    lemma_top_pieces_nonempty(s);
    let done = p.drop_last().map_values(|x: Seq<char>| text::trim(x));
    assert forall|i: int| 0 <= i < split_args_spec(s).len() implies text::trim(
        #[trigger] split_args_spec(s)[i],
    ) == split_args_spec(s)[i] by {
        if i < done.len() {
            text::lemma_strip_both_idem(p[i], Pat::Ws);
        } else {
            text::lemma_strip_both_idem(p.last(), Pat::Ws);
        }
    }
}

/// The fields read so far, with the one still open.
pub open spec fn open_fields(st: JsState) -> Seq<FieldV> {
    match st.current {
        Some(f) => st.fields.push(f),
        None => st.fields,
    }
}

/// The kind and name of each accepted declaration, in order.
pub open spec fn accepted(evs: Seq<EventV>) -> Seq<(FieldKind, Seq<char>)>
    decreases evs.len(),
{
    if evs.len() == 0 {
        Seq::empty()
    } else {
        match evs.last() {
            EventV::Accepted(k, n) => accepted(evs.drop_last()).push((k, n)),
            EventV::Rejected(_) => accepted(evs.drop_last()),
        }
    }
}

/// The number of rejected declarations.
pub open spec fn rejected_count(evs: Seq<EventV>) -> nat
    decreases evs.len(),
{
    if evs.len() == 0 {
        0
    } else {
        match evs.last() {
            EventV::Accepted(_, _) => rejected_count(evs.drop_last()),
            EventV::Rejected(_) => rejected_count(evs.drop_last()) + 1,
        }
    }
}

/// The kind and name of each field.
pub open spec fn kinds_and_names(fs: Seq<FieldV>) -> Seq<(FieldKind, Seq<char>)> {
    fs.map_values(|f: FieldV| (f.kind, f.name))
}

proof fn lemma_js_run_events(ls: Seq<Seq<char>>)
    ensures
        accepted(js_run(ls).events) == kinds_and_names(open_fields(js_run(ls))),
        rejected_count(js_run(ls).events) == js_run(ls).warnings.len(),
    decreases ls.len(),
{
    if ls.len() == 0 {
        assert(kinds_and_names(open_fields(js_init())) =~= Seq::<(FieldKind, Seq<char>)>::empty());
    } else {
        let d = ls.drop_last();
        lemma_js_run_events(d);
        let st = js_run(d);
        let line = text::trim(ls.last());
        let nx = js_step(st, line);
        assert(nx == js_run(ls));
        if text::starts_with(line, "s.tab("@) {
        } else if is_field_line(line) {
            let fields = open_fields(st);
            match parse_field_spec(line) {
                Ok(f) => {
                    assert(nx.events.drop_last() =~= st.events);
                    assert(open_fields(nx) =~= fields.push(f));
                    assert(kinds_and_names(fields.push(f)) =~= kinds_and_names(fields).push(
                        (f.kind, f.name),
                    ));
                },
                Err(e) => {
                    assert(nx.events.drop_last() =~= st.events);
                    assert(open_fields(nx) =~= fields);
                },
            }
        } else {
            match st.current {
                Some(f) => {
                    let g = field_step(f, line);
                    assert(g.kind == f.kind && g.name == f.name);
                    assert(kinds_and_names(open_fields(nx)) =~= kinds_and_names(open_fields(st)));
                },
                None => {},
            }
        }
    }
}

/// Each field declaration line gives one event, in order: the accepted ones
/// are, in kind and name, exactly the fields of the result, and there are as
/// many rejected ones as warnings.
pub proof fn lemma_events_match_fields(content: Seq<char>, package_name: Seq<char>)
    ensures
        accepted(form_spec(content, package_name).events) == kinds_and_names(
            form_spec(content, package_name).fields,
        ),
        rejected_count(form_spec(content, package_name).events) == form_spec(
            content,
            package_name,
        ).warnings.len(),
{
    let ls = text::lines(content);
    lemma_js_run_events(ls);
    assert(form_spec(content, package_name).fields == open_fields(js_run(ls)));
}


/// A line that is neither a tab nor a field declaration, read while a field
/// is open: a readable `o.value(..)` line appends its choice to the field's
/// options, a readable `o.depends(..)` line appends its pair to the field's
/// dependencies; nothing else of the field changes, and the collected tabs,
/// fields, warnings and events stay as they were.
pub proof fn lemma_option_lines_append(st: JsState, line: Seq<char>)
    requires
        st.current is Some,
        !text::starts_with(line, "s.tab("@),
        !is_field_line(line),
    ensures
        ({
            let f = st.current->0;
            let nx = js_step(st, line);
            &&& nx.tabs == st.tabs && nx.fields == st.fields && nx.warnings == st.warnings
                && nx.events == st.events
            &&& nx.current is Some
            &&& nx.current->0.name == f.name && nx.current->0.kind == f.kind
                && nx.current->0.tab == f.tab && nx.current->0.label == f.label
            &&& (text::starts_with(line, "o.value("@) && parse_option_spec(line) is Some) ==> {
                &&& nx.current->0.options == f.options.push(parse_option_spec(line)->0)
                &&& nx.current->0.depends == f.depends
            }
            &&& (text::starts_with(line, "o.depends("@) && parse_depends_spec(line) is Some) ==> {
                &&& nx.current->0.depends == f.depends.push(parse_depends_spec(line)->0)
                &&& nx.current->0.options == f.options
            }
        }),
{
    reveal_strlit("o.value(");
    reveal_strlit("o.depends(");
    if text::starts_with(line, "o.value("@) && text::starts_with(line, "o.depends("@) {
        assert(line[2] == "o.value("@[2]);
        assert(line[2] == "o.depends("@[2]);
    }
}

} // verus!
