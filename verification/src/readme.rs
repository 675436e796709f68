//! The reference of the configuration in the readme: made from the documentation of the
//! configuration's types and put between two markers.

use crate::text::{chars_of, concat, concat3, contains, decimal, decimal_text, find_from, is_ascii_upper, join, joined, occurs, occurs_at, ascii_lowered, ascii_upper, owned, same_text, slice_from, slice_of, text_of, to_ascii_lower, trim, trimmed};
use vstd::prelude::*;
use vstd::string::*;

verus! {

/// A field: its name where it has one, the lines of its documentation, the last part of its
/// type's name, and the same of the elements where the type is a list.
#[derive(Debug, PartialEq, Eq)]
pub struct FieldDoc {
    pub name: Option<String>,
    pub doc: Vec<String>,
    pub type_path: Option<String>,
    pub element_name: Option<String>,
}

#[verifier::ext_equal]
pub struct FieldDocV {
    pub name: Option<Seq<char>>,
    pub doc: Seq<Seq<char>>,
    pub type_path: Option<Seq<char>>,
    pub element_name: Option<Seq<char>>,
}

impl DeepView for FieldDoc {
    type V = FieldDocV;

    open spec fn deep_view(&self) -> FieldDocV {
        FieldDocV {
            name: self.name.deep_view(),
            doc: self.doc.deep_view(),
            type_path: self.type_path.deep_view(),
            element_name: self.element_name.deep_view(),
        }
    }
}

/// A struct; its fields where they have names.
#[derive(Debug, PartialEq, Eq)]
pub struct StructDoc {
    pub name: String,
    pub doc: Vec<String>,
    pub fields: Option<Vec<FieldDoc>>,
}

#[verifier::ext_equal]
pub struct StructDocV {
    pub name: Seq<char>,
    pub doc: Seq<Seq<char>>,
    pub fields: Option<Seq<FieldDocV>>,
}

impl DeepView for StructDoc {
    type V = StructDocV;

    open spec fn deep_view(&self) -> StructDocV {
        StructDocV {
            name: self.name@,
            doc: self.doc.deep_view(),
            fields: self.fields.deep_view(),
        }
    }
}

#[derive(Debug, PartialEq, Eq)]
pub enum VariantFields {
    Unit,
    /// The documentation of each field.
    Unnamed(Vec<Vec<String>>),
    Named(Vec<FieldDoc>),
}

#[verifier::ext_equal]
pub enum VariantFieldsV {
    Unit,
    Unnamed(Seq<Seq<Seq<char>>>),
    Named(Seq<FieldDocV>),
}

impl DeepView for VariantFields {
    type V = VariantFieldsV;

    open spec fn deep_view(&self) -> VariantFieldsV {
        match self {
            VariantFields::Unit => VariantFieldsV::Unit,
            VariantFields::Unnamed(docs) => VariantFieldsV::Unnamed(docs.deep_view()),
            VariantFields::Named(fields) => VariantFieldsV::Named(fields.deep_view()),
        }
    }
}

#[derive(Debug, PartialEq, Eq)]
pub struct VariantDoc {
    pub name: String,
    pub doc: Vec<String>,
    pub fields: VariantFields,
}

#[verifier::ext_equal]
pub struct VariantDocV {
    pub name: Seq<char>,
    pub doc: Seq<Seq<char>>,
    pub fields: VariantFieldsV,
}

impl DeepView for VariantDoc {
    type V = VariantDocV;

    open spec fn deep_view(&self) -> VariantDocV {
        VariantDocV {
            name: self.name@,
            doc: self.doc.deep_view(),
            fields: self.fields.deep_view(),
        }
    }
}

#[derive(Debug, PartialEq, Eq)]
pub struct EnumDoc {
    pub name: String,
    pub doc: Vec<String>,
    pub variants: Vec<VariantDoc>,
}

#[verifier::ext_equal]
pub struct EnumDocV {
    pub name: Seq<char>,
    pub doc: Seq<Seq<char>>,
    pub variants: Seq<VariantDocV>,
}

impl DeepView for EnumDoc {
    type V = EnumDocV;

    open spec fn deep_view(&self) -> EnumDocV {
        EnumDocV {
            name: self.name@,
            doc: self.doc.deep_view(),
            variants: self.variants.deep_view(),
        }
    }
}

/// The types of the configuration, in the order in which they were read.
#[derive(Debug, PartialEq, Eq)]
pub struct ConfigModel {
    pub structs: Vec<StructDoc>,
    pub enums: Vec<EnumDoc>,
}

#[verifier::ext_equal]
pub struct ConfigModelV {
    pub structs: Seq<StructDocV>,
    pub enums: Seq<EnumDocV>,
}

impl DeepView for ConfigModel {
    type V = ConfigModelV;

    open spec fn deep_view(&self) -> ConfigModelV {
        ConfigModelV { structs: self.structs.deep_view(), enums: self.enums.deep_view() }
    }
}

/// What a default value is: a text, a list or a table with a number of entries, or something
/// else.
#[derive(Debug, Clone, Copy, PartialEq, Eq, Structural)]
pub enum ValueShape {
    Text,
    List(usize),
    Table(usize),
    Other,
}

/// A default value as it is written in a configuration: the contents of a text, or the
/// whole of another value.
#[derive(Debug, PartialEq, Eq)]
pub struct DefaultValue {
    pub written: String,
    pub shape: ValueShape,
}

#[verifier::ext_equal]
pub struct DefaultValueV {
    pub written: Seq<char>,
    pub shape: ValueShape,
}

impl DeepView for DefaultValue {
    type V = DefaultValueV;

    open spec fn deep_view(&self) -> DefaultValueV {
        DefaultValueV { written: self.written@, shape: self.shape }
    }
}

/// Whether a value is a list or a table without entries.
pub open spec fn empty_composite(shape: ValueShape) -> bool {
    shape == ValueShape::List(0) || shape == ValueShape::Table(0)
}

/// Whether a value is a list or a table without entries.
pub fn is_empty_composite(value: &DefaultValue) -> (answer: bool)
    ensures
        answer == empty_composite(value.shape),
{
    match value.shape {
        ValueShape::List(count) => count == 0,
        ValueShape::Table(count) => count == 0,
        _ => false,
    }
}

/// The default of one setting, with the entries of a table.
#[derive(Debug, PartialEq, Eq)]
pub struct SettingDefault {
    pub name: String,
    pub value: DefaultValue,
    pub entries: Vec<(String, DefaultValue)>,
}

#[verifier::ext_equal]
pub struct SettingDefaultV {
    pub name: Seq<char>,
    pub value: DefaultValueV,
    pub entries: Seq<(Seq<char>, DefaultValueV)>,
}

impl DeepView for SettingDefault {
    type V = SettingDefaultV;

    open spec fn deep_view(&self) -> SettingDefaultV {
        SettingDefaultV {
            name: self.name@,
            value: self.value.deep_view(),
            entries: self.entries.deep_view(),
        }
    }
}

/// A piece of the reference, or what keeps it from being made.
pub open spec fn view_of(result: Result<String, String>) -> Result<Seq<char>, Seq<char>> {
    match result {
        Ok(text) => Ok(text@),
        Err(message) => Err(message@),
    }
}

/// One piece behind the other; the first failure counts.
pub open spec fn behind(
    first: Result<Seq<char>, Seq<char>>,
    second: Result<Seq<char>, Seq<char>>,
) -> Result<Seq<char>, Seq<char>> {
    match (first, second) {
        (Ok(left), Ok(right)) => Ok(left + right),
        (Err(message), _) => Err(message),
        (_, Err(message)) => Err(message),
    }
}

/// The documentation of an item: its lines without white space around them.
pub open spec fn doc_text(lines: Seq<Seq<char>>) -> Seq<char> {
    joined(lines.map_values(|line: Seq<char>| trimmed(line)), "\n"@)
}

/// The documentation of an item.
pub fn extract_doc(lines: &Vec<String>) -> (text: String)
    ensures
        text@ == doc_text(lines.deep_view()),
{
    let mut all: Vec<String> = Vec::new();
    let mut i: usize = 0;
    while i < lines.len()
        invariant
            i <= lines.len(),
            all@.len() == i,
            forall|k: int| 0 <= k < i ==> (#[trigger] all@[k])@ == trimmed(lines@[k]@),
        decreases lines.len() - i,
    {
        all.push(trim(lines[i].as_str()));
        i = i + 1;
    }
    assert(all.deep_view() =~= lines.deep_view().map_values(|line: Seq<char>| trimmed(line)));
    join(&all, "\n")
}

/// The documentation of an item that must have one.
pub open spec fn needed_doc(lines: Seq<Seq<char>>, item: Seq<char>) -> Result<Seq<char>, Seq<char>> {
    if doc_text(lines).len() == 0 {
        Err("missing user-facing doc comment on "@ + item)
    } else {
        Ok(doc_text(lines))
    }
}

/// The documentation of an item that must have one.
pub fn required_doc(lines: &Vec<String>, item: &str) -> (doc: Result<String, String>)
    ensures
        view_of(doc) == needed_doc(lines.deep_view(), item@),
{
    let doc = extract_doc(lines);
    if doc.as_str().is_empty() {
        Err(concat("missing user-facing doc comment on ", item))
    } else {
        Ok(doc)
    }
}

pub open spec fn paragraph(doc: Seq<char>) -> Seq<char> {
    doc + "\n\n"@
}

/// Appends a paragraph.
pub fn push_doc(output: &mut String, doc: &str)
    ensures
        final(output)@ == old(output)@ + paragraph(doc@),
{
    output.push_str(doc);
    output.push_str("\n\n");
    assert(output@ =~= old(output)@ + paragraph(doc@));
}

/// Appends a paragraph unless it says the same as one before it.
pub fn push_distinct_doc(output: &mut String, first: &str, second: &str)
    ensures
        final(output)@ == if first@ == second@ {
            old(output)@
        } else {
            old(output)@ + paragraph(second@)
        },
{
    if !same_text(first, second) {
        push_doc(output, second);
    }
}

/// A text with every occurrence of a character replaced.
pub open spec fn replaced(text: Seq<char>, old_char: char, new_text: Seq<char>) -> Seq<char>
    decreases text.len(),
{
    if text.len() == 0 {
        Seq::empty()
    } else {
        let before = replaced(text.drop_last(), old_char, new_text);
        if text.last() == old_char {
            before + new_text
        } else {
            before.push(text.last())
        }
    }
}

fn replace_char(text: &str, old_char: char, new_text: &str) -> (result: String)
    ensures
        result@ == replaced(text@, old_char, new_text@),
{
    let chars = chars_of(text);
    let mut result = String::new();
    let mut i: usize = 0;
    assert(result@ =~= replaced(chars@.take(0), old_char, new_text@));
    while i < chars.len()
        invariant
            i <= chars.len(),
            result@ == replaced(chars@.take(i as int), old_char, new_text@),
        decreases chars.len() - i,
    {
        assert(chars@.take(i + 1).drop_last() =~= chars@.take(i as int));
        if chars[i] == old_char {
            result.push_str(new_text);
        } else {
            result.push(chars[i]);
        }
        i = i + 1;
    }
    assert(chars@.take(i as int) =~= chars@);
    result
}

/// A text without carriage returns.
pub fn normalize_line_endings(input: &str) -> (text: String)
    ensures
        text@ == replaced(input@, '\r', Seq::empty()),
{
    let none = String::new();
    assert(none@ =~= Seq::empty());
    replace_char(input, '\r', none.as_str())
}

/// A name in capitals as it is written in a configuration.
pub open spec fn snake(name: Seq<char>) -> Seq<char>
    decreases name.len(),
{
    if name.len() == 0 {
        Seq::empty()
    } else {
        let before = snake(name.drop_last());
        let lead = if ascii_upper(name.last()) && name.len() > 1 {
            before.push('_')
        } else {
            before
        };
        lead.push(ascii_lowered(name.last()))
    }
}

/// A name in capitals as it is written in a configuration.
pub fn snake_case(name: &str) -> (output: String)
    ensures
        output@ == snake(name@),
{
    let chars = chars_of(name);
    let mut output = String::new();
    let mut i: usize = 0;
    assert(output@ =~= snake(chars@.take(0)));
    while i < chars.len()
        invariant
            i <= chars.len(),
            output@ == snake(chars@.take(i as int)),
        decreases chars.len() - i,
    {
        assert(chars@.take(i + 1).drop_last() =~= chars@.take(i as int));
        if is_ascii_upper(chars[i]) && i > 0 {
            output.push('_');
        }
        output.push(to_ascii_lower(chars[i]));
        i = i + 1;
    }
    assert(chars@.take(i as int) =~= chars@);
    output
}

/// An example for a setting; only some have one.
pub open spec fn example_of(name: Seq<char>) -> Seq<char> {
    if name == "search_dirs"@ {
        "Example:\n\n```toml\ninclude_non_git = false\nsearch_dirs = [\n  \"~/Code\",\n  { path = \"~/Work\", depth = 2, include_non_git = true },\n]\n```\n\n"@
    } else if name == "on_open"@ {
        "Example:\n\n```toml\n[on_open]\npanes = [\n  { command = \"hx\", direction = \"right\" },\n]\n```\n\n"@
    } else {
        Seq::empty()
    }
}

/// Appends the example for a setting.
pub fn render_curated_example(docs: &mut String, name: &str)
    ensures
        final(docs)@ == old(docs)@ + example_of(name@),
{
    if same_text(name, "search_dirs") {
        docs.push_str(
            "Example:\n\n```toml\ninclude_non_git = false\nsearch_dirs = [\n  \"~/Code\",\n  { path = \"~/Work\", depth = 2, include_non_git = true },\n]\n```\n\n",
        );
    } else if same_text(name, "on_open") {
        docs.push_str(
            "Example:\n\n```toml\n[on_open]\npanes = [\n  { command = \"hx\", direction = \"right\" },\n]\n```\n\n",
        );
    }
    assert(docs@ =~= old(docs)@ + example_of(name@));
}

/// The struct of some name that was read last.
pub open spec fn struct_named(structs: Seq<StructDocV>, name: Seq<char>) -> Option<StructDocV>
    decreases structs.len(),
{
    if structs.len() == 0 {
        None
    } else if structs.last().name == name {
        Some(structs.last())
    } else {
        struct_named(structs.drop_last(), name)
    }
}

fn find_struct<'a>(structs: &'a Vec<StructDoc>, name: &str) -> (found: Option<&'a StructDoc>)
    ensures
        found.deep_view() == struct_named(structs.deep_view(), name@),
{
    let ghost all = structs.deep_view();
    let mut i: usize = structs.len();
    assert(all.take(i as int) =~= all);
    while i > 0
        invariant
            i <= structs.len(),
            all == structs.deep_view(),
            struct_named(all, name@) == struct_named(all.take(i as int), name@),
        decreases i,
    {
        assert(all.take(i as int).last() == structs@[i - 1].deep_view());
        assert(all.take(i as int).drop_last() =~= all.take(i - 1));
        if same_text(structs[i - 1].name.as_str(), name) {
            return Some(&structs[i - 1]);
        }
        i = i - 1;
    }
    None
}

/// The enum of some name that was read last.
pub open spec fn enum_named(enums: Seq<EnumDocV>, name: Seq<char>) -> Option<EnumDocV>
    decreases enums.len(),
{
    if enums.len() == 0 {
        None
    } else if enums.last().name == name {
        Some(enums.last())
    } else {
        enum_named(enums.drop_last(), name)
    }
}

fn find_enum<'a>(enums: &'a Vec<EnumDoc>, name: &str) -> (found: Option<&'a EnumDoc>)
    ensures
        found.deep_view() == enum_named(enums.deep_view(), name@),
{
    let ghost all = enums.deep_view();
    let mut i: usize = enums.len();
    assert(all.take(i as int) =~= all);
    while i > 0
        invariant
            i <= enums.len(),
            all == enums.deep_view(),
            enum_named(all, name@) == enum_named(all.take(i as int), name@),
        decreases i,
    {
        assert(all.take(i as int).last() == enums@[i - 1].deep_view());
        assert(all.take(i as int).drop_last() =~= all.take(i - 1));
        if same_text(enums[i - 1].name.as_str(), name) {
            return Some(&enums[i - 1]);
        }
        i = i - 1;
    }
    None
}

/// The default of some name.
pub open spec fn entry_named(entries: Seq<(Seq<char>, DefaultValueV)>, name: Seq<char>) -> Option<
    DefaultValueV,
>
    decreases entries.len(),
{
    if entries.len() == 0 {
        None
    } else if entries.last().0 == name {
        Some(entries.last().1)
    } else {
        entry_named(entries.drop_last(), name)
    }
}

fn find_entry<'a>(entries: &'a Vec<(String, DefaultValue)>, name: &str) -> (found: Option<
    &'a DefaultValue,
>)
    ensures
        found.deep_view() == entry_named(entries.deep_view(), name@),
{
    let ghost all = entries.deep_view();
    let mut i: usize = entries.len();
    assert(all.take(i as int) =~= all);
    while i > 0
        invariant
            i <= entries.len(),
            all == entries.deep_view(),
            entry_named(all, name@) == entry_named(all.take(i as int), name@),
        decreases i,
    {
        assert(all.take(i as int).last() == entries@[i - 1].deep_view());
        assert(all.take(i as int).drop_last() =~= all.take(i - 1));
        if same_text(entries[i - 1].0.as_str(), name) {
            return Some(&entries[i - 1].1);
        }
        i = i - 1;
    }
    None
}

/// The default of some setting.
pub open spec fn default_named(defaults: Seq<SettingDefaultV>, name: Seq<char>) -> Option<
    SettingDefaultV,
>
    decreases defaults.len(),
{
    if defaults.len() == 0 {
        None
    } else if defaults.last().name == name {
        Some(defaults.last())
    } else {
        default_named(defaults.drop_last(), name)
    }
}

fn find_default<'a>(defaults: &'a Vec<SettingDefault>, name: &str) -> (found: Option<
    &'a SettingDefault,
>)
    ensures
        found.deep_view() == default_named(defaults.deep_view(), name@),
{
    let ghost all = defaults.deep_view();
    let mut i: usize = defaults.len();
    assert(all.take(i as int) =~= all);
    while i > 0
        invariant
            i <= defaults.len(),
            all == defaults.deep_view(),
            default_named(all, name@) == default_named(all.take(i as int), name@),
        decreases i,
    {
        assert(all.take(i as int).last() == defaults@[i - 1].deep_view());
        assert(all.take(i as int).drop_last() =~= all.take(i - 1));
        if same_text(defaults[i - 1].name.as_str(), name) {
            return Some(&defaults[i - 1]);
        }
        i = i - 1;
    }
    None
}

/// A value as it is written in a configuration.
pub open spec fn formatted(value: DefaultValueV) -> Seq<char> {
    if value.shape == ValueShape::Text {
        "\""@ + replaced(value.written, '"', "\\\""@) + "\""@
    } else {
        value.written
    }
}

/// A value as it is written in a configuration.
pub fn format_toml_value(value: &DefaultValue) -> (text: String)
    ensures
        text@ == formatted(value.deep_view()),
{
    if value.shape == ValueShape::Text {
        concat3("\"", replace_char(value.written.as_str(), '"', "\\\"").as_str(), "\"")
    } else {
        value.written.clone()
    }
}

/// What the reference says of a default: nothing of one that is empty.
pub open spec fn default_line(default: Option<DefaultValueV>) -> Seq<char> {
    match default {
        Some(value) => if empty_composite(value.shape) {
            Seq::empty()
        } else {
            "Default: `"@ + formatted(value) + "`\n\n"@
        },
        None => Seq::empty(),
    }
}

fn render_default(default: Option<&DefaultValue>) -> (text: String)
    ensures
        text@ == default_line(default.deep_view()),
{
    if let Some(value) = default {
        if !is_empty_composite(value) {
            return concat3("Default: `", format_toml_value(value).as_str(), "`\n\n");
        }
    }
    let none = String::new();
    assert(none@ =~= Seq::empty());
    none
}

/// The name of a field that must have one.
pub open spec fn field_name_of(field: FieldDocV) -> Result<Seq<char>, Seq<char>> {
    match field.name {
        Some(name) => Ok(name),
        None => Err("expected a named field"@),
    }
}

fn field_name(field: &FieldDoc) -> (name: Result<String, String>)
    ensures
        view_of(name) == field_name_of(field.deep_view()),
{
    match &field.name {
        Some(name) => Ok(name.clone()),
        None => Err(owned("expected a named field")),
    }
}

/// The line of a named field in a list, and of all fields from one on.
pub open spec fn listed_fields(
    fields: Seq<FieldDocV>,
    from: int,
    lead: Seq<char>,
    owner: Seq<char>,
) -> Result<Seq<char>, Seq<char>>
    decreases fields.len() - from,
{
    if from < 0 || from >= fields.len() {
        Ok(Seq::empty())
    } else {
        match field_name_of(fields[from]) {
            Err(message) => Err(message),
            Ok(name) => match needed_doc(fields[from].doc, owner + "::"@ + name) {
                Err(message) => Err(message),
                Ok(prose) => behind(
                    Ok(lead + name + "` — "@ + replaced(prose, '\n', " "@) + "\n"@),
                    listed_fields(fields, from + 1, lead, owner),
                ),
            },
        }
    }
}

fn list_fields(fields: &Vec<FieldDoc>, from: usize, lead: &str, owner: &str) -> (text: Result<
    String,
    String,
>)
    requires
        from <= fields@.len(),
    ensures
        view_of(text) == listed_fields(fields.deep_view(), from as int, lead@, owner@),
    decreases fields@.len() - from,
{
    if from == fields.len() {
        let none = String::new();
        assert(none@ =~= Seq::empty());
        return Ok(none);
    }
    assert(fields.deep_view()[from as int] == fields@[from as int].deep_view());
    let name = match field_name(&fields[from]) {
        Ok(name) => name,
        Err(message) => return Err(message),
    };
    let item = concat3(owner, "::", name.as_str());
    let prose = match required_doc(&fields[from].doc, item.as_str()) {
        Ok(prose) => prose,
        Err(message) => return Err(message),
    };
    let mut line = concat3(lead, name.as_str(), "` — ");
    line.push_str(replace_char(prose.as_str(), '\n', " ").as_str());
    line.push_str("\n");
    match list_fields(fields, from + 1, lead, owner) {
        Ok(rest) => Ok(concat(line.as_str(), rest.as_str())),
        Err(message) => Err(message),
    }
}

/// The lines of the unnamed fields of a variant.
pub open spec fn listed_docs(docs: Seq<Seq<Seq<char>>>, from: int, owner: Seq<char>) -> Result<
    Seq<char>,
    Seq<char>,
>
    decreases docs.len() - from,
{
    if from < 0 || from >= docs.len() {
        Ok(Seq::empty())
    } else {
        match needed_doc(docs[from], owner + " field "@ + decimal(from as nat)) {
            Err(message) => Err(message),
            Ok(prose) => behind(
                Ok("  - "@ + replaced(prose, '\n', " "@) + "\n"@),
                listed_docs(docs, from + 1, owner),
            ),
        }
    }
}

fn list_docs(docs: &Vec<Vec<String>>, from: usize, owner: &str) -> (text: Result<String, String>)
    requires
        from <= docs@.len(),
    ensures
        view_of(text) == listed_docs(docs.deep_view(), from as int, owner@),
    decreases docs@.len() - from,
{
    if from == docs.len() {
        let none = String::new();
        assert(none@ =~= Seq::empty());
        return Ok(none);
    }
    assert(docs.deep_view()[from as int] == docs@[from as int].deep_view());
    let item = concat3(owner, " field ", decimal_text(from as u64).as_str());
    let prose = match required_doc(&docs[from], item.as_str()) {
        Ok(prose) => prose,
        Err(message) => return Err(message),
    };
    let line = concat3("  - ", replace_char(prose.as_str(), '\n', " ").as_str(), "\n");
    match list_docs(docs, from + 1, owner) {
        Ok(rest) => Ok(concat(line.as_str(), rest.as_str())),
        Err(message) => Err(message),
    }
}

/// The lines of one form that a value can have.
pub open spec fn variant_lines(variant: VariantDocV, element: Seq<char>) -> Result<
    Seq<char>,
    Seq<char>,
> {
    let item = element + "::"@ + variant.name;
    match needed_doc(variant.doc, item) {
        Err(message) => Err(message),
        Ok(doc) => {
            let head = "- "@ + doc + "\n"@;
            match variant.fields {
                VariantFieldsV::Unit => Ok(head),
                VariantFieldsV::Unnamed(docs) => behind(Ok(head), listed_docs(docs, 0, item)),
                VariantFieldsV::Named(fields) => behind(
                    Ok(head),
                    listed_fields(fields, 0, "  - `"@, item),
                ),
            }
        },
    }
}

fn render_variant(variant: &VariantDoc, element: &str) -> (text: Result<String, String>)
    ensures
        view_of(text) == variant_lines(variant.deep_view(), element@),
{
    let item = concat3(element, "::", variant.name.as_str());
    let doc = match required_doc(&variant.doc, item.as_str()) {
        Ok(doc) => doc,
        Err(message) => return Err(message),
    };
    let head = concat3("- ", doc.as_str(), "\n");
    let rest = match &variant.fields {
        VariantFields::Unit => return Ok(head),
        VariantFields::Unnamed(docs) => list_docs(docs, 0, item.as_str()),
        VariantFields::Named(fields) => list_fields(fields, 0, "  - `", item.as_str()),
    };
    match rest {
        Ok(rest) => Ok(concat(head.as_str(), rest.as_str())),
        Err(message) => Err(message),
    }
}

/// The lines of all forms that a value can have, from one on.
pub open spec fn variants_lines(variants: Seq<VariantDocV>, from: int, element: Seq<char>) -> Result<
    Seq<char>,
    Seq<char>,
>
    decreases variants.len() - from,
{
    if from < 0 || from >= variants.len() {
        Ok(Seq::empty())
    } else {
        behind(
            variant_lines(variants[from], element),
            variants_lines(variants, from + 1, element),
        )
    }
}

fn render_variants(variants: &Vec<VariantDoc>, from: usize, element: &str) -> (text: Result<
    String,
    String,
>)
    requires
        from <= variants@.len(),
    ensures
        view_of(text) == variants_lines(variants.deep_view(), from as int, element@),
    decreases variants@.len() - from,
{
    if from == variants.len() {
        let none = String::new();
        assert(none@ =~= Seq::empty());
        return Ok(none);
    }
    assert(variants.deep_view()[from as int] == variants@[from as int].deep_view());
    let first = match render_variant(&variants[from], element) {
        Ok(text) => text,
        Err(message) => return Err(message),
    };
    match render_variants(variants, from + 1, element) {
        Ok(rest) => Ok(concat(first.as_str(), rest.as_str())),
        Err(message) => Err(message),
    }
}

/// The fields of a struct that must have names.
pub open spec fn named_fields_of(item: StructDocV) -> Result<Seq<FieldDocV>, Seq<char>> {
    match item.fields {
        Some(fields) => Ok(fields),
        None => Err(item.name + " must use named fields"@),
    }
}

/// What the elements of a list look like; nothing for a setting that is no list.
pub open spec fn collection_schema(field: FieldDocV, model: ConfigModelV) -> Result<
    Seq<char>,
    Seq<char>,
> {
    match field.element_name {
        None => Ok(Seq::empty()),
        Some(element) => match struct_named(model.structs, element) {
            Some(item) => match needed_doc(item.doc, element) {
                Err(message) => Err(message),
                Ok(doc) => match named_fields_of(item) {
                    Err(message) => Err(message),
                    Ok(fields) => behind(
                        behind(
                            Ok(paragraph(doc) + "Each entry is an inline table with:\n\n"@),
                            listed_fields(fields, 0, "- `"@, element),
                        ),
                        Ok("\n"@),
                    ),
                },
            },
            None => match enum_named(model.enums, element) {
                Some(item) => match needed_doc(item.doc, element) {
                    Err(message) => Err(message),
                    Ok(doc) => behind(
                        behind(
                            Ok(paragraph(doc) + "Accepted forms:\n\n"@),
                            variants_lines(item.variants, 0, element),
                        ),
                        Ok("\n"@),
                    ),
                },
                None => Ok(Seq::empty()),
            },
        },
    }
}

fn framed(head: &str, body: Result<String, String>) -> (text: Result<String, String>)
    ensures
        view_of(text) == behind(behind(Ok(head@), view_of(body)), Ok("\n"@)),
{
    match body {
        Ok(body) => Ok(concat3(head, body.as_str(), "\n")),
        Err(message) => Err(message),
    }
}

/// What the elements of a list look like.
pub fn render_collection_schema(field: &FieldDoc, model: &ConfigModel) -> (text: Result<
    String,
    String,
>)
    ensures
        view_of(text) == collection_schema(field.deep_view(), model.deep_view()),
{
    let none = String::new();
    assert(none@ =~= Seq::empty());
    let element = match &field.element_name {
        Some(element) => element.as_str(),
        None => return Ok(none),
    };
    match find_struct(&model.structs, element) {
        Some(item) => {
            let doc = match required_doc(&item.doc, element) {
                Ok(doc) => doc,
                Err(message) => return Err(message),
            };
            let mut head = String::new();
            push_doc(&mut head, doc.as_str());
            head.push_str("Each entry is an inline table with:\n\n");
            assert(head@ =~= paragraph(doc@) + "Each entry is an inline table with:\n\n"@);
            match &item.fields {
                Some(fields) => framed(head.as_str(), list_fields(fields, 0, "- `", element)),
                None => Err(concat(item.name.as_str(), " must use named fields")),
            }
        },
        None => match find_enum(&model.enums, element) {
            Some(item) => {
                let doc = match required_doc(&item.doc, element) {
                    Ok(doc) => doc,
                    Err(message) => return Err(message),
                };
                let mut head = String::new();
                push_doc(&mut head, doc.as_str());
                head.push_str("Accepted forms:\n\n");
                assert(head@ =~= paragraph(doc@) + "Accepted forms:\n\n"@);
                framed(head.as_str(), render_variants(&item.variants, 0, element))
            },
            None => Ok(none),
        },
    }
}

/// A setting of its own: its name, what it means, what its elements are and its default.
pub open spec fn setting_lines(
    field: FieldDocV,
    name: Seq<char>,
    doc: Seq<char>,
    example: Seq<char>,
    default: Option<DefaultValueV>,
    model: ConfigModelV,
) -> Result<Seq<char>, Seq<char>> {
    behind(
        behind(
            Ok("#### `"@ + name + "`\n\n"@ + paragraph(doc) + example),
            collection_schema(field, model),
        ),
        Ok(default_line(default)),
    )
}

fn render_setting(
    field: &FieldDoc,
    name: &str,
    doc: &str,
    with_example: bool,
    default: Option<&DefaultValue>,
    model: &ConfigModel,
) -> (text: Result<String, String>)
    ensures
        view_of(text) == setting_lines(
            field.deep_view(),
            name@,
            doc@,
            if with_example {
                example_of(name@)
            } else {
                Seq::empty()
            },
            default.deep_view(),
            model.deep_view(),
        ),
{
    let mut docs = concat3("#### `", name, "`\n\n");
    push_doc(&mut docs, doc);
    let ghost head = docs@;
    assert(head + Seq::<char>::empty() =~= head);
    if with_example {
        render_curated_example(&mut docs, name);
    }
    match render_collection_schema(field, model) {
        Ok(schema) => {
            docs.push_str(schema.as_str());
            docs.push_str(render_default(default).as_str());
            Ok(docs)
        },
        Err(message) => Err(message),
    }
}

/// The settings of a table, from one on.
pub open spec fn struct_field_lines(
    fields: Seq<FieldDocV>,
    from: int,
    owner: Seq<char>,
    model: ConfigModelV,
    defaults: Seq<(Seq<char>, DefaultValueV)>,
) -> Result<Seq<char>, Seq<char>>
    decreases fields.len() - from,
{
    if from < 0 || from >= fields.len() {
        Ok(Seq::empty())
    } else {
        match field_name_of(fields[from]) {
            Err(message) => Err(message),
            Ok(name) => match needed_doc(fields[from].doc, owner + "::"@ + name) {
                Err(message) => Err(message),
                Ok(doc) => behind(
                    setting_lines(
                        fields[from],
                        name,
                        doc,
                        Seq::empty(),
                        entry_named(defaults, name),
                        model,
                    ),
                    struct_field_lines(fields, from + 1, owner, model, defaults),
                ),
            },
        }
    }
}

fn render_struct_fields(
    fields: &Vec<FieldDoc>,
    from: usize,
    owner: &str,
    model: &ConfigModel,
    defaults: &Vec<(String, DefaultValue)>,
) -> (text: Result<String, String>)
    requires
        from <= fields@.len(),
    ensures
        view_of(text) == struct_field_lines(
            fields.deep_view(),
            from as int,
            owner@,
            model.deep_view(),
            defaults.deep_view(),
        ),
    decreases fields@.len() - from,
{
    if from == fields.len() {
        let none = String::new();
        assert(none@ =~= Seq::empty());
        return Ok(none);
    }
    let field = &fields[from];
    assert(fields.deep_view()[from as int] == field.deep_view());
    let name = match field_name(field) {
        Ok(name) => name,
        Err(message) => return Err(message),
    };
    let item = concat3(owner, "::", name.as_str());
    let doc = match required_doc(&field.doc, item.as_str()) {
        Ok(doc) => doc,
        Err(message) => return Err(message),
    };
    let default = find_entry(defaults, name.as_str());
    let first = match render_setting(field, name.as_str(), doc.as_str(), false, default, model) {
        Ok(text) => text,
        Err(message) => return Err(message),
    };
    match render_struct_fields(fields, from + 1, owner, model, defaults) {
        Ok(rest) => Ok(concat(first.as_str(), rest.as_str())),
        Err(message) => Err(message),
    }
}

/// What the reference says of the keys.
pub open spec fn keys_lines(default_keys: Seq<char>) -> Seq<char> {
    "Assign a key to `\"noop\"` to unbind an inherited mapping.\n\n"@
        + "Write chords with lowercase `ctrl+`, `alt+`, and `shift+` modifiers followed by a character or a named key such as `enter`, `esc`, `tab`, `backspace`, `delete`, an arrow, `home`, `end`, `pageup`, `pagedown`, or `space`.\n\n"@
        + "Defaults:\n\n"@ + default_keys + "\n"@
}

fn render_keys(default_keys: &str) -> (text: String)
    ensures
        text@ == keys_lines(default_keys@),
{
    let mut docs = owned("Assign a key to `\"noop\"` to unbind an inherited mapping.\n\n");
    docs.push_str(
        "Write chords with lowercase `ctrl+`, `alt+`, and `shift+` modifiers followed by a character or a named key such as `enter`, `esc`, `tab`, `backspace`, `delete`, an arrow, `home`, `end`, `pageup`, `pagedown`, or `space`.\n\n",
    );
    docs.push_str("Defaults:\n\n");
    docs.push_str(default_keys);
    docs.push_str("\n");
    docs
}

/// The names of colours as they are written in a configuration.
pub open spec fn color_names(variants: Seq<VariantDocV>) -> Seq<Seq<char>> {
    variants.map_values(|variant: VariantDocV| "`"@ + snake(variant.name) + "`"@)
}

fn colors_of(variants: &Vec<VariantDoc>) -> (names: Vec<String>)
    ensures
        names.deep_view() == color_names(variants.deep_view()),
{
    let mut names: Vec<String> = Vec::new();
    let mut i: usize = 0;
    while i < variants.len()
        invariant
            i <= variants.len(),
            names@.len() == i,
            forall|k: int|
                0 <= k < i ==> (#[trigger] names@[k])@ == "`"@ + snake(variants@[k].name@) + "`"@,
        decreases variants.len() - i,
    {
        names.push(concat3("`", snake_case(variants[i].name.as_str()).as_str(), "`"));
        i = i + 1;
    }
    assert(names.deep_view() =~= color_names(variants.deep_view()));
    names
}

/// The default colours, from one field on.
pub open spec fn theme_field_lines(
    fields: Seq<FieldDocV>,
    from: int,
    defaults: Seq<(Seq<char>, DefaultValueV)>,
) -> Result<Seq<char>, Seq<char>>
    decreases fields.len() - from,
{
    if from < 0 || from >= fields.len() {
        Ok(Seq::empty())
    } else {
        match field_name_of(fields[from]) {
            Err(message) => Err(message),
            Ok(name) => match entry_named(defaults, name) {
                None => Err("ThemeConfig::"@ + name + " is missing from Config::default()"@),
                Some(value) => behind(
                    Ok(name + " = "@ + formatted(value) + "\n"@),
                    theme_field_lines(fields, from + 1, defaults),
                ),
            },
        }
    }
}

fn render_theme_fields(
    fields: &Vec<FieldDoc>,
    from: usize,
    defaults: &Vec<(String, DefaultValue)>,
) -> (text: Result<String, String>)
    requires
        from <= fields@.len(),
    ensures
        view_of(text) == theme_field_lines(
            fields.deep_view(),
            from as int,
            defaults.deep_view(),
        ),
    decreases fields@.len() - from,
{
    if from == fields.len() {
        let none = String::new();
        assert(none@ =~= Seq::empty());
        return Ok(none);
    }
    assert(fields.deep_view()[from as int] == fields@[from as int].deep_view());
    let name = match field_name(&fields[from]) {
        Ok(name) => name,
        Err(message) => return Err(message),
    };
    let value = match find_entry(defaults, name.as_str()) {
        Some(value) => value,
        None => return Err(
            concat3("ThemeConfig::", name.as_str(), " is missing from Config::default()"),
        ),
    };
    let head = concat3(name.as_str(), " = ", format_toml_value(value).as_str());
    let line = concat(head.as_str(), "\n");
    match render_theme_fields(fields, from + 1, defaults) {
        Ok(rest) => Ok(concat(line.as_str(), rest.as_str())),
        Err(message) => Err(message),
    }
}

/// What the reference says of the colours.
pub open spec fn theme_lines(
    theme: StructDocV,
    model: ConfigModelV,
    defaults: Seq<(Seq<char>, DefaultValueV)>,
) -> Result<Seq<char>, Seq<char>> {
    match enum_named(model.enums, "ThemeColor"@) {
        None => Err("ThemeColor enum not found in the config module"@),
        Some(colors) => match named_fields_of(theme) {
            Err(message) => Err(message),
            Ok(fields) => behind(
                behind(
                    Ok(
                        "Colors use the terminal's ANSI palette and can be "@ + joined(
                            color_names(colors.variants),
                            ", "@,
                        ) + ".\n\n"@ + "Defaults:\n\n```toml\n[theme]\n"@,
                    ),
                    theme_field_lines(fields, 0, defaults),
                ),
                Ok("```\n\n"@),
            ),
        },
    }
}

fn render_theme(
    theme: &StructDoc,
    model: &ConfigModel,
    defaults: &Vec<(String, DefaultValue)>,
) -> (text: Result<String, String>)
    ensures
        view_of(text) == theme_lines(theme.deep_view(), model.deep_view(), defaults.deep_view()),
{
    let colors = match find_enum(&model.enums, "ThemeColor") {
        Some(colors) => colors,
        None => return Err(owned("ThemeColor enum not found in the config module")),
    };
    let fields = match &theme.fields {
        Some(fields) => fields,
        None => return Err(concat(theme.name.as_str(), " must use named fields")),
    };
    let names = colors_of(&colors.variants);
    let mut docs = concat3(
        "Colors use the terminal's ANSI palette and can be ",
        join(&names, ", ").as_str(),
        ".\n\n",
    );
    docs.push_str("Defaults:\n\n```toml\n[theme]\n");
    match render_theme_fields(fields, 0, defaults) {
        Ok(lines) => {
            docs.push_str(lines.as_str());
            docs.push_str("```\n\n");
            Ok(docs)
        },
        Err(message) => Err(message),
    }
}

/// The entries of a default that is a table.
pub open spec fn entries_of(default: Option<SettingDefaultV>) -> Seq<(Seq<char>, DefaultValueV)> {
    match default {
        Some(default) => default.entries,
        None => Seq::empty(),
    }
}

/// A table of the configuration.
pub open spec fn table_lines(
    name: Seq<char>,
    field_doc: Seq<char>,
    type_path: Seq<char>,
    nested: StructDocV,
    model: ConfigModelV,
    defaults: Seq<(Seq<char>, DefaultValueV)>,
    default_keys: Seq<char>,
) -> Result<Seq<char>, Seq<char>> {
    let head = "### `["@ + name + "]`\n\n"@ + paragraph(field_doc);
    if type_path == "ThemeConfig"@ {
        behind(Ok(head), theme_lines(nested, model, defaults))
    } else if type_path == "KeysConfig"@ {
        Ok(head + keys_lines(default_keys))
    } else {
        match needed_doc(nested.doc, type_path) {
            Err(message) => Err(message),
            Ok(doc) => {
                let described = if doc == field_doc {
                    head
                } else {
                    head + paragraph(doc)
                };
                match named_fields_of(nested) {
                    Err(message) => Err(message),
                    Ok(fields) => behind(
                        Ok(described + example_of(name)),
                        struct_field_lines(fields, 0, nested.name, model, defaults),
                    ),
                }
            },
        }
    }
}

fn render_table(
    name: &str,
    field_doc: &str,
    type_path: &str,
    nested: &StructDoc,
    model: &ConfigModel,
    defaults: &Vec<(String, DefaultValue)>,
    default_keys: &str,
) -> (text: Result<String, String>)
    ensures
        view_of(text) == table_lines(
            name@,
            field_doc@,
            type_path@,
            nested.deep_view(),
            model.deep_view(),
            defaults.deep_view(),
            default_keys@,
        ),
{
    let mut docs = concat3("### `[", name, "]`\n\n");
    push_doc(&mut docs, field_doc);
    if same_text(type_path, "ThemeConfig") {
        return match render_theme(nested, model, defaults) {
            Ok(theme) => Ok(concat(docs.as_str(), theme.as_str())),
            Err(message) => Err(message),
        };
    }
    if same_text(type_path, "KeysConfig") {
        docs.push_str(render_keys(default_keys).as_str());
        return Ok(docs);
    }
    let doc = match required_doc(&nested.doc, type_path) {
        Ok(doc) => doc,
        Err(message) => return Err(message),
    };
    push_distinct_doc(&mut docs, field_doc, doc.as_str());
    render_curated_example(&mut docs, name);
    let fields = match &nested.fields {
        Some(fields) => fields,
        None => return Err(concat(nested.name.as_str(), " must use named fields")),
    };
    match render_struct_fields(fields, 0, nested.name.as_str(), model, defaults) {
        Ok(rest) => Ok(concat(docs.as_str(), rest.as_str())),
        Err(message) => Err(message),
    }
}

/// What the reference says of one field of the configuration.
pub open spec fn config_field_lines(
    field: FieldDocV,
    model: ConfigModelV,
    defaults: Seq<SettingDefaultV>,
    default_keys: Seq<char>,
) -> Result<Seq<char>, Seq<char>> {
    match field_name_of(field) {
        Err(message) => Err(message),
        Ok(name) => match needed_doc(field.doc, "Config::"@ + name) {
            Err(message) => Err(message),
            Ok(doc) => {
                let default = default_named(defaults, name);
                let nested = match field.type_path {
                    Some(type_path) => struct_named(model.structs, type_path),
                    None => None,
                };
                match nested {
                    Some(nested) => table_lines(
                        name,
                        doc,
                        field.type_path->0,
                        nested,
                        model,
                        entries_of(default),
                        default_keys,
                    ),
                    None => setting_lines(
                        field,
                        name,
                        doc,
                        example_of(name),
                        match default {
                            Some(default) => Some(default.value),
                            None => None,
                        },
                        model,
                    ),
                }
            },
        },
    }
}

/// What the reference says of one field of the configuration.
pub fn render_config_field(
    field: &FieldDoc,
    model: &ConfigModel,
    defaults: &Vec<SettingDefault>,
    default_keys: &str,
) -> (text: Result<String, String>)
    ensures
        view_of(text) == config_field_lines(
            field.deep_view(),
            model.deep_view(),
            defaults.deep_view(),
            default_keys@,
        ),
{
    let name = match field_name(field) {
        Ok(name) => name,
        Err(message) => return Err(message),
    };
    let item = concat("Config::", name.as_str());
    let doc = match required_doc(&field.doc, item.as_str()) {
        Ok(doc) => doc,
        Err(message) => return Err(message),
    };
    let default = find_default(defaults, name.as_str());
    if let Some(type_path) = &field.type_path {
        if let Some(nested) = find_struct(&model.structs, type_path.as_str()) {
            let none: Vec<(String, DefaultValue)> = Vec::new();
            assert(none.deep_view() =~= Seq::empty());
            let entries = match default {
                Some(default) => &default.entries,
                None => &none,
            };
            return render_table(
                name.as_str(),
                doc.as_str(),
                type_path.as_str(),
                nested,
                model,
                entries,
                default_keys,
            );
        }
    }
    let value = match default {
        Some(default) => Some(&default.value),
        None => None,
    };
    render_setting(field, name.as_str(), doc.as_str(), true, value, model)
}

/// What the reference says of the fields of the configuration, from one on.
pub open spec fn config_fields_lines(
    fields: Seq<FieldDocV>,
    from: int,
    model: ConfigModelV,
    defaults: Seq<SettingDefaultV>,
    default_keys: Seq<char>,
) -> Result<Seq<char>, Seq<char>>
    decreases fields.len() - from,
{
    if from < 0 || from >= fields.len() {
        Ok(Seq::empty())
    } else {
        behind(
            config_field_lines(fields[from], model, defaults, default_keys),
            config_fields_lines(fields, from + 1, model, defaults, default_keys),
        )
    }
}

fn render_config_fields(
    fields: &Vec<FieldDoc>,
    from: usize,
    model: &ConfigModel,
    defaults: &Vec<SettingDefault>,
    default_keys: &str,
) -> (text: Result<String, String>)
    requires
        from <= fields@.len(),
    ensures
        view_of(text) == config_fields_lines(
            fields.deep_view(),
            from as int,
            model.deep_view(),
            defaults.deep_view(),
            default_keys@,
        ),
    decreases fields@.len() - from,
{
    if from == fields.len() {
        let none = String::new();
        assert(none@ =~= Seq::empty());
        return Ok(none);
    }
    assert(fields.deep_view()[from as int] == fields@[from as int].deep_view());
    let first = match render_config_field(&fields[from], model, defaults, default_keys) {
        Ok(text) => text,
        Err(message) => return Err(message),
    };
    match render_config_fields(fields, from + 1, model, defaults, default_keys) {
        Ok(rest) => Ok(concat(first.as_str(), rest.as_str())),
        Err(message) => Err(message),
    }
}

/// The reference of the configuration.
pub open spec fn reference_of(
    model: ConfigModelV,
    defaults: Seq<SettingDefaultV>,
    default_keys: Seq<char>,
) -> Result<Seq<char>, Seq<char>> {
    match struct_named(model.structs, "Config"@) {
        None => Err("Config struct not found in the config module"@),
        Some(config) => match needed_doc(config.doc, "Config"@) {
            Err(message) => Err(message),
            Ok(doc) => match named_fields_of(config) {
                Err(message) => Err(message),
                Ok(fields) => behind(
                    Ok(paragraph(doc)),
                    config_fields_lines(fields, 0, model, defaults, default_keys),
                ),
            },
        },
    }
}

/// Makes the reference of the configuration.
pub fn config_reference(
    model: &ConfigModel,
    defaults: &Vec<SettingDefault>,
    default_keys: &str,
) -> (text: Result<String, String>)
    ensures
        view_of(text) == reference_of(model.deep_view(), defaults.deep_view(), default_keys@),
{
    let config = match find_struct(&model.structs, "Config") {
        Some(config) => config,
        None => return Err(owned("Config struct not found in the config module")),
    };
    let doc = match required_doc(&config.doc, "Config") {
        Ok(doc) => doc,
        Err(message) => return Err(message),
    };
    let fields = match &config.fields {
        Some(fields) => fields,
        None => return Err(concat(config.name.as_str(), " must use named fields")),
    };
    let mut docs = String::new();
    push_doc(&mut docs, doc.as_str());
    assert(docs@ =~= paragraph(doc@));
    match render_config_fields(fields, 0, model, defaults, default_keys) {
        Ok(rest) => Ok(concat(docs.as_str(), rest.as_str())),
        Err(message) => Err(message),
    }
}

/// Where a text first stands in another one, from a position on.
pub open spec fn first_from(text: Seq<char>, needle: Seq<char>, from: int) -> Option<int>
    decreases text.len() + 1 - from,
{
    if from < 0 || from > text.len() {
        None
    } else if occurs_at(text, needle, from) {
        Some(from)
    } else {
        first_from(text, needle, from + 1)
    }
}

proof fn lemma_first_from(text: Seq<char>, needle: Seq<char>, from: int, found: Option<int>)
    requires
        0 <= from <= text.len() + 1,
        found matches Some(at) ==> from <= at && occurs_at(text, needle, at) && (forall|i: int|
            from <= i < at ==> !occurs_at(text, needle, i)),
        found is None ==> forall|i: int| from <= i ==> !occurs_at(text, needle, i),
    ensures
        first_from(text, needle, from) == found,
    decreases text.len() + 1 - from,
{
    if from <= text.len() && !occurs_at(text, needle, from) {
        lemma_first_from(text, needle, from + 1, found);
    }
}

/// What stands before and behind the first occurrence of a text.
pub open spec fn split_at_first(text: Seq<char>, needle: Seq<char>) -> Option<
    (Seq<char>, Seq<char>),
> {
    match first_from(text, needle, 0) {
        Some(at) => Some((text.take(at), text.skip(at + needle.len()))),
        None => None,
    }
}

/// Splits a text at the first occurrence of another one.
pub fn split_once(text: &str, needle: &str) -> (parts: Option<(String, String)>)
    ensures
        parts.deep_view() == split_at_first(text@, needle@),
{
    let chars = chars_of(text);
    let pattern = chars_of(needle);
    let found = find_from(&chars, &pattern, 0);
    proof {
        let at = match found {
            Some(at) => Some(at as int),
            None => None,
        };
        lemma_first_from(text@, needle@, 0, at);
    }
    match found {
        Some(at) => {
            let count: usize = chars.len();
            assert(occurs_at(chars@, pattern@, at as int));
            assert(at + pattern@.len() <= count);
            let before = text_of(slice_of(&chars, 0, at));
            let after = text_of(slice_from(&chars, at + pattern.len()));
            assert(before@ =~= text@.take(at as int));
            Some((before, after))
        },
        None => None,
    }
}

/// A readme with what stands between the markers replaced. Each marker must be there once,
/// the end behind the start.
pub open spec fn with_section(readme: Seq<char>, docs: Seq<char>) -> Result<Seq<char>, Seq<char>> {
    let start = "<!-- CONFIG:START -->"@;
    let end = "<!-- CONFIG:END -->"@;
    match split_at_first(readme, start) {
        None => Err("README is missing the config start marker"@),
        Some((before, remainder)) => if occurs(before, end) || occurs(remainder, start) {
            Err("README config markers are duplicated or out of order"@)
        } else {
            match split_at_first(remainder, end) {
                None => Err("README is missing the config end marker"@),
                Some((_, after)) => if occurs(after, end) {
                    Err("README config markers are duplicated"@)
                } else {
                    Ok(before + start + "\n"@ + docs + end + after)
                },
            }
        },
    }
}

/// Puts the reference between the markers of a readme.
pub fn replace_generated_section(readme: &str, docs: &str) -> (text: Result<String, String>)
    ensures
        view_of(text) == with_section(readme@, docs@),
{
    let (before, remainder) = match split_once(readme, "<!-- CONFIG:START -->") {
        Some(parts) => parts,
        None => return Err(owned("README is missing the config start marker")),
    };
    if contains(before.as_str(), "<!-- CONFIG:END -->") || contains(
        remainder.as_str(),
        "<!-- CONFIG:START -->",
    ) {
        return Err(owned("README config markers are duplicated or out of order"));
    }
    let (_, after) = match split_once(remainder.as_str(), "<!-- CONFIG:END -->") {
        Some(parts) => parts,
        None => return Err(owned("README is missing the config end marker")),
    };
    if contains(after.as_str(), "<!-- CONFIG:END -->") {
        return Err(owned("README config markers are duplicated"));
    }
    let mut text = concat3(before.as_str(), "<!-- CONFIG:START -->", "\n");
    text.push_str(docs);
    text.push_str("<!-- CONFIG:END -->");
    text.push_str(after.as_str());
    Ok(text)
}

/// A readme with a fresh reference.
pub open spec fn with_reference(
    readme: Seq<char>,
    model: ConfigModelV,
    defaults: Seq<SettingDefaultV>,
    default_keys: Seq<char>,
) -> Result<Seq<char>, Seq<char>> {
    match reference_of(model, defaults, default_keys) {
        Err(message) => Err(message),
        Ok(docs) => with_section(readme, docs),
    }
}

/// Puts a fresh reference into a readme.
pub fn generate_config_reference(
    readme: &str,
    model: &ConfigModel,
    defaults: &Vec<SettingDefault>,
    default_keys: &str,
) -> (text: Result<String, String>)
    ensures
        view_of(text) == with_reference(
            readme@,
            model.deep_view(),
            defaults.deep_view(),
            default_keys@,
        ),
{
    match config_reference(model, defaults, default_keys) {
        Ok(docs) => replace_generated_section(readme, docs.as_str()),
        Err(message) => Err(message),
    }
}

/// A readme with the list of keys between their markers replaced.
pub open spec fn with_keys(readme: Seq<char>, default_keys: Seq<char>) -> Result<
    Seq<char>,
    Seq<char>,
> {
    let start = "<!-- KEYS:START -->"@;
    let end = "<!-- KEYS:END -->"@;
    match split_at_first(readme, start) {
        None => Err("missing keys start marker"@),
        Some((before, remainder)) => match split_at_first(remainder, end) {
            None => Err("missing keys end marker"@),
            Some((_, after)) => Ok(before + start + "\n"@ + default_keys + end + after),
        },
    }
}

/// Puts the list of keys between the markers of a readme.
pub fn replace_keys_section(readme: &str, default_keys: &str) -> (text: Result<String, String>)
    ensures
        view_of(text) == with_keys(readme@, default_keys@),
{
    let (before, remainder) = match split_once(readme, "<!-- KEYS:START -->") {
        Some(parts) => parts,
        None => return Err(owned("missing keys start marker")),
    };
    let (_, after) = match split_once(remainder.as_str(), "<!-- KEYS:END -->") {
        Some(parts) => parts,
        None => return Err(owned("missing keys end marker")),
    };
    let mut text = concat3(before.as_str(), "<!-- KEYS:START -->", "\n");
    text.push_str(default_keys);
    text.push_str("<!-- KEYS:END -->");
    text.push_str(after.as_str());
    Ok(text)
}

/// What is to be done with a readme.
#[derive(Debug, Clone, Copy, PartialEq, Eq, Structural)]
pub enum ReadmeStep {
    UpToDate,
    OutOfDate,
    Write,
}

/// Whether a readme is written: not when it is only looked at, and not when it would not change.
pub fn readme_step(raw: &str, generated: &str, check: bool) -> (step: ReadmeStep)
    ensures
        step == if generated@ == replaced(raw@, '\r', Seq::empty()) && (check || generated@
            == raw@) {
            ReadmeStep::UpToDate
        } else if check {
            ReadmeStep::OutOfDate
        } else {
            ReadmeStep::Write
        },
{
    let current = normalize_line_endings(raw);
    if same_text(generated, current.as_str()) && (check || same_text(generated, raw)) {
        ReadmeStep::UpToDate
    } else if check {
        ReadmeStep::OutOfDate
    } else {
        ReadmeStep::Write
    }
}

/// The arguments of the task from one on, and whether the readme is only to be looked at.
pub open spec fn check_asked(arguments: Seq<Seq<char>>, from: int, check: bool) -> Result<
    bool,
    Seq<char>,
>
    decreases arguments.len() - from,
{
    if from < 0 || from >= arguments.len() {
        Ok(check)
    } else if arguments[from] == "--check"@ && !check {
        check_asked(arguments, from + 1, true)
    } else {
        Err(
            "unexpected argument '"@ + arguments[from]
                + "'; usage: cargo xtask readme [--check]"@,
        )
    }
}

/// Whether the readme is only to be looked at, as the arguments of the task say.
pub open spec fn task_of(arguments: Seq<Seq<char>>) -> Result<bool, Seq<char>> {
    if arguments.len() == 0 {
        Err("usage: cargo xtask readme [--check]"@)
    } else if arguments[0] != "readme"@ {
        Err("unknown xtask '"@ + arguments[0] + "'; expected 'readme'"@)
    } else {
        check_asked(arguments, 1, false)
    }
}

/// Reads the arguments of the task: whether the readme is only to be looked at.
pub fn parse_task(arguments: &Vec<String>) -> (task: Result<bool, String>)
    ensures
        match task {
            Ok(check) => task_of(arguments.deep_view()) == Ok::<bool, Seq<char>>(check),
            Err(message) => task_of(arguments.deep_view()) == Err::<bool, Seq<char>>(message@),
        },
{
    let ghost all = arguments.deep_view();
    if arguments.len() == 0 {
        return Err(owned("usage: cargo xtask readme [--check]"));
    }
    assert(all[0] == arguments@[0]@);
    if !same_text(arguments[0].as_str(), "readme") {
        return Err(
            concat3("unknown xtask '", arguments[0].as_str(), "'; expected 'readme'"),
        );
    }
    let mut check = false;
    let mut i: usize = 1;
    while i < arguments.len()
        invariant
            1 <= i <= arguments.len(),
            all == arguments.deep_view(),
            task_of(all) == check_asked(all, i as int, check),
        decreases arguments.len() - i,
    {
        assert(all[i as int] == arguments@[i as int]@);
        if same_text(arguments[i].as_str(), "--check") && !check {
            check = true;
        } else {
            return Err(
                concat3(
                    "unexpected argument '",
                    arguments[i].as_str(),
                    "'; usage: cargo xtask readme [--check]",
                ),
            );
        }
        i = i + 1;
    }
    Ok(check)
}

proof fn lemma_first_found(text: Seq<char>, needle: Seq<char>, from: int)
    requires
        0 <= from,
    ensures
        first_from(text, needle, from) matches Some(at) ==> from <= at && occurs_at(
            text,
            needle,
            at,
        ) && (forall|i: int| from <= i < at ==> !occurs_at(text, needle, i)),
    decreases text.len() + 1 - from,
{
    if from <= text.len() && !occurs_at(text, needle, from) {
        lemma_first_found(text, needle, from + 1);
    }
}

/// Where a text stands inside of a longer one, its characters are there.
proof fn lemma_occurrence(text: Seq<char>, needle: Seq<char>, at: int, k: int)
    requires
        occurs_at(text, needle, at),
        0 <= k < needle.len(),
    ensures
        text[at + k] == needle[k],
{
    assert(text.subrange(at, at + needle.len())[k] == text[at + k]);
}

/// An occurrence in one text is one in another text that holds the same characters there.
proof fn lemma_moved_occurrence(
    text: Seq<char>,
    other: Seq<char>,
    needle: Seq<char>,
    at: int,
    shift: int,
)
    requires
        occurs_at(text, needle, at),
        0 <= at + shift,
        at + shift + needle.len() <= other.len(),
        forall|k: int| 0 <= k < needle.len() ==> text[at + k] == #[trigger] other[at + k + shift],
    ensures
        occurs_at(other, needle, at + shift),
{
    assert forall|k: int| 0 <= k < needle.len() implies other.subrange(
        at + shift,
        at + shift + needle.len(),
    )[k] == needle[k] by {
        lemma_occurrence(text, needle, at, k);
        assert(other[at + k + shift] == text[at + k]);
    }
    assert(other.subrange(at + shift, at + shift + needle.len()) =~= needle);
}

/// A marker begins with a character that it does not hold again.
spec fn is_marker(marker: Seq<char>) -> bool {
    &&& marker.len() > 0
    &&& marker[0] == '<'
    &&& forall|k: int| 1 <= k < marker.len() ==> (#[trigger] marker[k]) != '<'
}

/// A section with a line break in front of it, the end marker and what follows.
spec fn new_rest(docs: Seq<char>, end: Seq<char>, after: Seq<char>) -> Seq<char> {
    seq!['\n'] + docs + end + after
}

proof fn lemma_start_stays(readme: Seq<char>, start: Seq<char>, at: int, rest: Seq<char>)
    requires
        first_from(readme, start, 0) == Some(at),
    ensures
        split_at_first(readme.take(at) + start + rest, start) == Some((readme.take(at), rest)),
        0 <= at,
        at + start.len() <= readme.len(),
{
    let before = readme.take(at);
    let text = before + start + rest;
    lemma_first_found(readme, start, 0);
    assert forall|i: int| 0 <= i < at implies !occurs_at(text, start, i) by {
        if occurs_at(text, start, i) {
            assert forall|k: int| 0 <= k < start.len() implies text[i + k] == #[trigger] readme[i
                + k + 0] by {
                if i + k >= at {
                    lemma_occurrence(readme, start, at, i + k - at);
                }
            }
            lemma_moved_occurrence(text, readme, start, i, 0);
        }
    }
    assert(text.subrange(at, at + start.len()) =~= start);
    lemma_first_from(text, start, 0, Some(at));
    assert(text.take(at) =~= before);
    assert(text.skip(at + start.len()) =~= rest);
}

/// A marker that stands across the end marker's first character would hold that character
/// twice.
proof fn lemma_no_marker_before_end(
    docs: Seq<char>,
    end: Seq<char>,
    after: Seq<char>,
    marker: Seq<char>,
    at: int,
)
    requires
        is_marker(end),
        is_marker(marker),
        !occurs(docs, marker),
        at < 1 + docs.len(),
    ensures
        !occurs_at(new_rest(docs, end, after), marker, at),
{
    let rest = new_rest(docs, end, after);
    let gap = 1 + docs.len() as int;
    if occurs_at(rest, marker, at) {
        lemma_occurrence(rest, marker, at, 0);
        assert(rest[0] == '\n');
        assert(at > 0);
        if at + marker.len() > gap {
            lemma_occurrence(rest, marker, at, gap - at);
            assert(rest[gap] == end[0]);
        } else {
            assert forall|k: int| 0 <= k < marker.len() implies rest[at + k] == #[trigger] docs[at
                + k + (-1)] by {}
            lemma_moved_occurrence(rest, docs, marker, at, -1);
            assert(occurs(docs, marker));
        }
    }
}

proof fn lemma_no_second_start(
    docs: Seq<char>,
    start: Seq<char>,
    end: Seq<char>,
    remainder: Seq<char>,
    place: int,
)
    requires
        is_marker(start),
        is_marker(end),
        !occurs(docs, start),
        occurs_at(remainder, end, place),
        !occurs(remainder, start),
    ensures
        !occurs(new_rest(docs, end, remainder.skip(place + end.len())), start),
{
    let after = remainder.skip(place + end.len());
    let rest = new_rest(docs, end, after);
    let gap = 1 + docs.len() as int;
    assert forall|j: int| !occurs_at(rest, start, j) by {
        if j < gap {
            lemma_no_marker_before_end(docs, end, after, start, j);
        } else if occurs_at(rest, start, j) {
            let shift = place - gap;
            assert forall|k: int| 0 <= k < start.len() implies rest[j + k] == #[trigger] remainder[j
                + k + shift] by {
                if j + k < gap + end.len() {
                    lemma_occurrence(remainder, end, place, j + k - gap);
                    assert(rest[j + k] == end[j + k - gap]);
                } else {
                    assert(rest[j + k] == after[j + k - gap - end.len()]);
                }
            }
            lemma_moved_occurrence(rest, remainder, start, j, shift);
            assert(occurs(remainder, start));
        }
    }
}

proof fn lemma_end_stays(docs: Seq<char>, end: Seq<char>, after: Seq<char>)
    requires
        is_marker(end),
        !occurs(docs, end),
    ensures
        split_at_first(new_rest(docs, end, after), end) == Some((seq!['\n'] + docs, after)),
{
    let rest = new_rest(docs, end, after);
    let gap = 1 + docs.len() as int;
    assert forall|i: int| 0 <= i < gap implies !occurs_at(rest, end, i) by {
        lemma_no_marker_before_end(docs, end, after, end, i);
    }
    assert(rest.subrange(gap, gap + end.len()) =~= end);
    lemma_first_from(rest, end, 0, Some(gap));
    assert(rest.take(gap) =~= seq!['\n'] + docs);
    assert(rest.skip(gap + end.len()) =~= after);
}

/// A section that holds no marker can be replaced again: the result is the same as if it had
/// never been there. So a readme that was just written is up to date.
pub proof fn lemma_section_is_replaced_whole(
    readme: Seq<char>,
    docs: Seq<char>,
    again: Seq<char>,
)
    requires
        with_section(readme, docs) is Ok,
        !occurs(docs, "<!-- CONFIG:START -->"@),
        !occurs(docs, "<!-- CONFIG:END -->"@),
    ensures
        with_section(with_section(readme, docs)->Ok_0, again) == with_section(readme, again),
{
    let start = "<!-- CONFIG:START -->"@;
    let end = "<!-- CONFIG:END -->"@;
    let text = with_section(readme, docs)->Ok_0;
    reveal_strlit("<!-- CONFIG:START -->");
    reveal_strlit("<!-- CONFIG:END -->");
    reveal_strlit("\n");
    assert(is_marker(start));
    assert(is_marker(end));
    let at = first_from(readme, start, 0)->0;
    let before = readme.take(at);
    let remainder = readme.skip(at + start.len());
    lemma_first_found(remainder, end, 0);
    let place = first_from(remainder, end, 0)->0;
    let after = remainder.skip(place + end.len());
    let rest = new_rest(docs, end, after);
    assert("\n"@ =~= seq!['\n']);
    assert(text =~= before + start + rest);
    lemma_start_stays(readme, start, at, rest);
    lemma_no_second_start(docs, start, end, remainder, place);
    lemma_end_stays(docs, end, after);
}

} // verus!
