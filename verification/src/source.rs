//! Reading the types of the configuration out of their source text.

use crate::readme::{enum_named, struct_named, ConfigModel, ConfigModelV, EnumDoc, EnumDocV, FieldDoc, FieldDocV, StructDoc, StructDocV, VariantDoc, VariantDocV, VariantFields, VariantFieldsV};
use crate::text::{copy_optional_text, copy_texts, owned, same_text};
use syn::{Expr, ExprLit, Fields, GenericArgument, Item, Lit, Meta, MetaNameValue, PathArguments, Type};
use vstd::prelude::*;
use vstd::string::*;

verus! {

/// The names that an item of a source text gives.
#[derive(Debug, PartialEq, Eq)]
pub enum SourceItem {
    Struct(String),
    /// An enum with its variants.
    Enum(String, Vec<String>),
    /// A module, and whether its contents stand in the same text.
    Module(String, bool),
    Other,
}

#[verifier::ext_equal]
pub enum SourceItemV {
    Struct(Seq<char>),
    Enum(Seq<char>, Seq<Seq<char>>),
    Module(Seq<char>, bool),
    Other,
}

impl DeepView for SourceItem {
    type V = SourceItemV;

    open spec fn deep_view(&self) -> SourceItemV {
        match self {
            SourceItem::Struct(name) => SourceItemV::Struct(name@),
            SourceItem::Enum(name, variants) => SourceItemV::Enum(name@, variants.deep_view()),
            SourceItem::Module(name, inline) => SourceItemV::Module(name@, *inline),
            SourceItem::Other => SourceItemV::Other,
        }
    }
}

/// The names of the fields of a struct or a variant.
#[derive(Debug, PartialEq, Eq)]
pub struct SourceFields {
    /// Whether the fields stand in braces.
    pub named: bool,
    pub names: Vec<Option<String>>,
}

#[verifier::ext_equal]
pub struct SourceFieldsV {
    pub named: bool,
    pub names: Seq<Option<Seq<char>>>,
}

impl DeepView for SourceFields {
    type V = SourceFieldsV;

    open spec fn deep_view(&self) -> SourceFieldsV {
        SourceFieldsV { named: self.named, names: self.names.deep_view() }
    }
}

/// An attribute: its name where that is a single word, and the text that it is set to.
#[derive(Debug, PartialEq, Eq)]
pub struct SourceAttribute {
    pub name: Option<String>,
    pub text: Option<String>,
}

#[verifier::ext_equal]
pub struct SourceAttributeV {
    pub name: Option<Seq<char>>,
    pub text: Option<Seq<char>>,
}

impl DeepView for SourceAttribute {
    type V = SourceAttributeV;

    open spec fn deep_view(&self) -> SourceAttributeV {
        SourceAttributeV { name: self.name.deep_view(), text: self.text.deep_view() }
    }
}

/// A part of the path that names a type, with its arguments in angle brackets: each by the
/// parts of its own path, none where it is no such path.
#[derive(Debug, PartialEq, Eq)]
pub struct SourceSegment {
    pub name: String,
    pub arguments: Vec<Vec<String>>,
}

#[verifier::ext_equal]
pub struct SourceSegmentV {
    pub name: Seq<char>,
    pub arguments: Seq<Seq<Seq<char>>>,
}

impl DeepView for SourceSegment {
    type V = SourceSegmentV;

    open spec fn deep_view(&self) -> SourceSegmentV {
        SourceSegmentV { name: self.name@, arguments: self.arguments.deep_view() }
    }
}

/// The outcome of parsing, taken by its contents.
pub open spec fn parsed<T: DeepView>(result: Result<T, String>) -> Result<T::V, Seq<char>> {
    match result {
        Ok(value) => Ok(value.deep_view()),
        Err(message) => Err(message@),
    }
}

/// The items that `syn` finds in a source text, or what it says against the text.
pub uninterp spec fn source_items(text: Seq<char>) -> Result<Seq<SourceItemV>, Seq<char>>;

/// Calls `syn::parse_file` and reads the names of the items. They, and the message of an
/// error, depend on the text alone. A text that is nested deeper than the stack allows is not
/// answered.
#[verifier::external_body]
pub(crate) fn parse_items(text: &str) -> (items: Result<Vec<SourceItem>, String>)
    ensures
        parsed(items) == source_items(text@),
{
    let read = |item: &Item| match item {
        Item::Struct(one) => SourceItem::Struct(one.ident.to_string()),
        Item::Enum(one) => SourceItem::Enum(
            one.ident.to_string(),
            one.variants.iter().map(|part| part.ident.to_string()).collect(),
        ),
        Item::Mod(one) => SourceItem::Module(one.ident.to_string(), one.content.is_some()),
        _ => SourceItem::Other,
    };
    match syn::parse_file(text) {
        Ok(file) => Ok(file.items.iter().map(read).collect()),
        Err(error) => Err(error.to_string()),
    }
}

/// The fields that `syn` finds in a struct, or in a variant of an enum.
pub uninterp spec fn source_fields(
    text: Seq<char>,
    item: usize,
    variant: Option<usize>,
) -> Option<SourceFieldsV>;

/// Calls `syn::parse_file` and reads the names of the fields of one struct or variant. They
/// depend on the text and the place alone. A text that is nested deeper than the stack allows
/// is not answered.
#[verifier::external_body]
pub(crate) fn parse_fields(text: &str, item: usize, variant: Option<usize>) -> (fields: Option<
    SourceFields,
>)
    ensures
        fields.deep_view() == source_fields(text@, item, variant),
{
    let file = syn::parse_file(text).ok()?;
    let fields = match (file.items.get(item)?, variant) {
        (Item::Struct(one), None) => &one.fields,
        (Item::Enum(one), Some(at)) => &one.variants.iter().nth(at)?.fields,
        _ => return None,
    };
    let names = fields.iter().map(|one| one.ident.as_ref().map(|name| name.to_string())).collect();
    Some(SourceFields { named: matches!(fields, Fields::Named(_)), names })
}

/// The attributes that `syn` finds on a struct, an enum, or a variant of an enum.
pub uninterp spec fn source_attributes(
    text: Seq<char>,
    item: usize,
    variant: Option<usize>,
) -> Option<Seq<SourceAttributeV>>;

/// Calls `syn::parse_file` and reads the attributes of one struct, enum or variant. They
/// depend on the text and the place alone. A text that is nested deeper than the stack allows
/// is not answered.
#[verifier::external_body]
pub(crate) fn parse_attributes(text: &str, item: usize, variant: Option<usize>) -> (attributes:
    Option<Vec<SourceAttribute>>)
    ensures
        attributes.deep_view() == source_attributes(text@, item, variant),
{
    let file = syn::parse_file(text).ok()?;
    let list = match (file.items.get(item)?, variant) {
        (Item::Struct(one), None) => &one.attrs,
        (Item::Enum(one), None) => &one.attrs,
        (Item::Enum(one), Some(at)) => &one.variants.iter().nth(at)?.attrs,
        _ => return None,
    };
    Some(list.iter().map(|one| SourceAttribute {
        name: one.path().get_ident().map(ToString::to_string),
        text: match &one.meta {
            Meta::NameValue(MetaNameValue { value: Expr::Lit(ExprLit { lit: Lit::Str(text), .. }), .. }) => Some(text.value()),
            _ => None,
        },
    }).collect())
}

/// The attributes that `syn` finds on a field of a struct, or of a variant of an enum.
pub uninterp spec fn field_attributes(
    text: Seq<char>,
    item: usize,
    variant: Option<usize>,
    field: usize,
) -> Option<Seq<SourceAttributeV>>;

/// Calls `syn::parse_file` and reads the attributes of one field. They depend on the text and
/// the place alone. A text that is nested deeper than the stack allows is not answered.
#[verifier::external_body]
pub(crate) fn parse_field_attributes(
    text: &str,
    item: usize,
    variant: Option<usize>,
    field: usize,
) -> (attributes: Option<Vec<SourceAttribute>>)
    ensures
        attributes.deep_view() == field_attributes(text@, item, variant, field),
{
    let file = syn::parse_file(text).ok()?;
    let fields = match (file.items.get(item)?, variant) {
        (Item::Struct(one), None) => &one.fields,
        (Item::Enum(one), Some(at)) => &one.variants.iter().nth(at)?.fields,
        _ => return None,
    };
    Some(fields.iter().nth(field)?.attrs.iter().map(|one| SourceAttribute {
        name: one.path().get_ident().map(ToString::to_string),
        text: match &one.meta {
            Meta::NameValue(MetaNameValue { value: Expr::Lit(ExprLit { lit: Lit::Str(text), .. }), .. }) => Some(text.value()),
            _ => None,
        },
    }).collect())
}

/// The type that `syn` finds on a field of a struct, as the parts of its path; none where it
/// is no path.
pub uninterp spec fn field_type(text: Seq<char>, item: usize, field: usize) -> Option<
    Seq<SourceSegmentV>,
>;

/// Calls `syn::parse_file` and reads the type of one field of a struct. It depends on the
/// text and the place alone. A text that is nested deeper than the stack allows is not
/// answered.
#[verifier::external_body]
pub(crate) fn parse_type(text: &str, item: usize, field: usize) -> (segments: Option<
    Vec<SourceSegment>,
>)
    ensures
        segments.deep_view() == field_type(text@, item, field),
{
    let file = syn::parse_file(text).ok()?;
    let Item::Struct(one) = file.items.get(item)? else { return None };
    let Type::Path(found) = &one.fields.iter().nth(field)?.ty else { return None };
    Some(found.path.segments.iter().map(|part| SourceSegment {
        name: part.ident.to_string(),
        arguments: match &part.arguments {
            PathArguments::AngleBracketed(list) => list.args.iter().map(|one| match one {
                GenericArgument::Type(Type::Path(inner)) => inner.path.segments.iter().map(|part| part.ident.to_string()).collect(),
                _ => vec![],
            }).collect(),
            _ => vec![],
        },
    }).collect())
}

/// A field with what stands on it.
#[derive(Debug, PartialEq, Eq)]
pub struct SourceField {
    pub name: Option<String>,
    pub attributes: Vec<SourceAttribute>,
    /// The parts of the path that names its type.
    pub segments: Option<Vec<SourceSegment>>,
}

#[verifier::ext_equal]
pub struct SourceFieldV {
    pub name: Option<Seq<char>>,
    pub attributes: Seq<SourceAttributeV>,
    pub segments: Option<Seq<SourceSegmentV>>,
}

impl DeepView for SourceField {
    type V = SourceFieldV;

    open spec fn deep_view(&self) -> SourceFieldV {
        SourceFieldV {
            name: self.name.deep_view(),
            attributes: self.attributes.deep_view(),
            segments: self.segments.deep_view(),
        }
    }
}

/// A struct or a variant with what stands on it and in it.
#[derive(Debug, PartialEq, Eq)]
pub struct SourceBody {
    pub name: String,
    pub attributes: Vec<SourceAttribute>,
    /// Whether the fields stand in braces.
    pub named: bool,
    pub fields: Vec<SourceField>,
}

#[verifier::ext_equal]
pub struct SourceBodyV {
    pub name: Seq<char>,
    pub attributes: Seq<SourceAttributeV>,
    pub named: bool,
    pub fields: Seq<SourceFieldV>,
}

impl DeepView for SourceBody {
    type V = SourceBodyV;

    open spec fn deep_view(&self) -> SourceBodyV {
        SourceBodyV {
            name: self.name@,
            attributes: self.attributes.deep_view(),
            named: self.named,
            fields: self.fields.deep_view(),
        }
    }
}

/// An item with all that is read of it.
#[derive(Debug, PartialEq, Eq)]
pub enum Declaration {
    Struct(SourceBody),
    Enum(String, Vec<SourceAttribute>, Vec<SourceBody>),
    /// A module, and whether its contents stand in the same text.
    Module(String, bool),
    Other,
}

#[verifier::ext_equal]
pub enum DeclarationV {
    Struct(SourceBodyV),
    Enum(Seq<char>, Seq<SourceAttributeV>, Seq<SourceBodyV>),
    Module(Seq<char>, bool),
    Other,
}

impl DeepView for Declaration {
    type V = DeclarationV;

    open spec fn deep_view(&self) -> DeclarationV {
        match self {
            Declaration::Struct(body) => DeclarationV::Struct(body.deep_view()),
            Declaration::Enum(name, attributes, variants) => DeclarationV::Enum(
                name@,
                attributes.deep_view(),
                variants.deep_view(),
            ),
            Declaration::Module(name, inline) => DeclarationV::Module(name@, *inline),
            Declaration::Other => DeclarationV::Other,
        }
    }
}

pub open spec fn or_none<T>(found: Option<Seq<T>>) -> Seq<T> {
    match found {
        Some(items) => items,
        None => Seq::empty(),
    }
}

fn unwrap_or_none<T: DeepView>(found: Option<Vec<T>>) -> (items: Vec<T>)
    ensures
        items.deep_view() == or_none(found.deep_view()),
{
    match found {
        Some(items) => items,
        None => {
            let none: Vec<T> = Vec::new();
            assert(none.deep_view() =~= Seq::empty());
            none
        },
    }
}

/// A field of a struct or a variant; the type of a variant's field is not read.
pub open spec fn field_in(
    text: Seq<char>,
    item: usize,
    variant: Option<usize>,
    field: usize,
    name: Option<Seq<char>>,
) -> SourceFieldV {
    SourceFieldV {
        name,
        attributes: or_none(field_attributes(text, item, variant, field)),
        segments: match variant {
            None => field_type(text, item, field),
            Some(_) => None,
        },
    }
}

/// A struct, or a variant of an enum.
pub open spec fn body_in(
    text: Seq<char>,
    item: usize,
    variant: Option<usize>,
    name: Seq<char>,
) -> SourceBodyV {
    let found = source_fields(text, item, variant);
    SourceBodyV {
        name,
        attributes: or_none(source_attributes(text, item, variant)),
        named: found is Some && found->0.named,
        fields: match found {
            Some(fields) => fields.names.map(
                |k: int, name: Option<Seq<char>>|
                    field_in(text, item, variant, k as usize, name),
            ),
            None => Seq::empty(),
        },
    }
}

/// An item of a source text with all that is read of it.
pub open spec fn declaration_in(text: Seq<char>, item: usize, names: SourceItemV) -> DeclarationV {
    match names {
        SourceItemV::Struct(name) => DeclarationV::Struct(body_in(text, item, None, name)),
        SourceItemV::Enum(name, variants) => DeclarationV::Enum(
            name,
            or_none(source_attributes(text, item, None)),
            variants.map(|k: int, name: Seq<char>| body_in(text, item, Some(k as usize), name)),
        ),
        SourceItemV::Module(name, inline) => DeclarationV::Module(name, inline),
        SourceItemV::Other => DeclarationV::Other,
    }
}

/// The items of a source text, or what is wrong with the text.
pub open spec fn declarations_in(text: Seq<char>) -> Result<Seq<DeclarationV>, Seq<char>> {
    match source_items(text) {
        Ok(items) => Ok(
            items.map(|k: int, names: SourceItemV| declaration_in(text, k as usize, names)),
        ),
        Err(message) => Err(message),
    }
}

fn read_body(text: &str, item: usize, variant: Option<usize>, name: String) -> (body: SourceBody)
    ensures
        body.deep_view() == body_in(text@, item, variant, name@),
{
    let ghost wanted = body_in(text@, item, variant, name@);
    let attributes = unwrap_or_none(parse_attributes(text, item, variant));
    let mut fields: Vec<SourceField> = Vec::new();
    let named = match parse_fields(text, item, variant) {
        None => {
            assert(fields.deep_view() =~= wanted.fields);
            false
        },
        Some(found) => {
            let mut k: usize = 0;
            while k < found.names.len()
                invariant
                    k <= found.names.len(),
                    Some(found.deep_view()) == source_fields(text@, item, variant),
                    wanted == body_in(text@, item, variant, name@),
                    fields@.len() == k,
                    forall|j: int|
                        0 <= j < k ==> (#[trigger] fields@[j]).deep_view() == wanted.fields[j],
                decreases found.names.len() - k,
            {
                let segments = match variant {
                    None => parse_type(text, item, k),
                    Some(_) => None,
                };
                let field = SourceField {
                    name: copy_optional_text(&found.names[k]),
                    attributes: unwrap_or_none(parse_field_attributes(text, item, variant, k)),
                    segments,
                };
                assert(found.names.deep_view()[k as int] == found.names@[k as int].deep_view());
                assert(field.deep_view() == wanted.fields[k as int]);
                fields.push(field);
                k = k + 1;
            }
            assert(fields.deep_view() =~= wanted.fields);
            found.named
        },
    };
    SourceBody { name, attributes, named, fields }
}

fn read_variants(text: &str, item: usize, names: Vec<String>) -> (variants: Vec<SourceBody>)
    ensures
        variants.deep_view() == names.deep_view().map(
            |k: int, name: Seq<char>| body_in(text@, item, Some(k as usize), name),
        ),
{
    let mut variants: Vec<SourceBody> = Vec::new();
    let mut k: usize = 0;
    while k < names.len()
        invariant
            k <= names.len(),
            variants@.len() == k,
            forall|j: int|
                0 <= j < k ==> (#[trigger] variants@[j]).deep_view() == body_in(
                    text@,
                    item,
                    Some(j as usize),
                    names@[j]@,
                ),
        decreases names.len() - k,
    {
        variants.push(read_body(text, item, Some(k), names[k].clone()));
        k = k + 1;
    }
    assert(variants.deep_view() =~= names.deep_view().map(
        |k: int, name: Seq<char>| body_in(text@, item, Some(k as usize), name),
    ));
    variants
}

/// Reads the items of a source text.
pub fn read_source(text: &str) -> (items: Result<Vec<Declaration>, String>)
    ensures
        parsed(items) == declarations_in(text@),
{
    let names = match parse_items(text) {
        Ok(names) => names,
        Err(message) => {
            return Err(message);
        },
    };
    let ghost wanted = declarations_in(text@)->Ok_0;
    let mut items: Vec<Declaration> = Vec::new();
    let mut k: usize = 0;
    while k < names.len()
        invariant
            k <= names.len(),
            source_items(text@) == Ok::<Seq<SourceItemV>, Seq<char>>(names.deep_view()),
            wanted == declarations_in(text@)->Ok_0,
            items@.len() == k,
            forall|j: int| 0 <= j < k ==> (#[trigger] items@[j]).deep_view() == wanted[j],
        decreases names.len() - k,
    {
        let item = match &names[k] {
            SourceItem::Struct(name) => Declaration::Struct(read_body(text, k, None, name.clone())),
            SourceItem::Enum(name, variants) => Declaration::Enum(
                name.clone(),
                unwrap_or_none(parse_attributes(text, k, None)),
                read_variants(text, k, copy_texts(variants)),
            ),
            SourceItem::Module(name, inline) => Declaration::Module(name.clone(), *inline),
            SourceItem::Other => Declaration::Other,
        };
        assert(names.deep_view()[k as int] == names@[k as int].deep_view());
        assert(item.deep_view() == wanted[k as int]);
        items.push(item);
        k = k + 1;
    }
    assert(items.deep_view() =~= wanted);
    Ok(items)
}

/// The lines of the documentation among attributes.
pub open spec fn doc_lines_of(attributes: Seq<SourceAttributeV>) -> Seq<Seq<char>>
    decreases attributes.len(),
{
    if attributes.len() == 0 {
        Seq::empty()
    } else {
        let before = doc_lines_of(attributes.drop_last());
        let last = attributes.last();
        if last.name == Some("doc"@) && last.text is Some {
            before.push(last.text->0)
        } else {
            before
        }
    }
}

/// Picks the lines of the documentation out of attributes.
#[verifier::loop_isolation(false)]
pub fn doc_lines(attributes: &Vec<SourceAttribute>) -> (lines: Vec<String>)
    ensures
        lines.deep_view() == doc_lines_of(attributes.deep_view()),
{
    let ghost all = attributes.deep_view();
    let mut lines: Vec<String> = Vec::new();
    let mut i: usize = 0;
    assert(lines.deep_view() =~= doc_lines_of(all.take(0)));
    while i < attributes.len()
        invariant
            i <= attributes.len(),
            lines.deep_view() == doc_lines_of(all.take(i as int)),
        decreases attributes.len() - i,
    {
        let ghost before = lines.deep_view();
        proof {
            assert(all.take(i + 1).drop_last() =~= all.take(i as int));
            assert(all.take(i + 1).last() == attributes@[i as int].deep_view());
        }
        let is_doc = match &attributes[i].name {
            Some(name) => same_text(name.as_str(), "doc"),
            None => false,
        };
        if is_doc {
            match &attributes[i].text {
                Some(text) => {
                    let line = text.clone();
                    let ghost added = line@;
                    lines.push(line);
                    assert(lines.deep_view() =~= before.push(added));
                },
                None => {},
            }
        }
        i = i + 1;
    }
    assert(all.take(all.len() as int) =~= all);
    lines
}

/// The last part of the path that names a type.
pub open spec fn last_name(segments: Option<Seq<SourceSegmentV>>) -> Option<Seq<char>> {
    match segments {
        Some(parts) => if parts.len() > 0 {
            Some(parts.last().name)
        } else {
            None
        },
        None => None,
    }
}

/// The last part of the path that names the elements, where a type is a list of them.
pub open spec fn element_of(segments: Option<Seq<SourceSegmentV>>) -> Option<Seq<char>> {
    if last_name(segments) == Some("Vec"@) {
        let arguments = segments->0.last().arguments;
        if arguments.len() > 0 && arguments[0].len() > 0 {
            Some(arguments[0].last())
        } else {
            None
        }
    } else {
        None
    }
}

/// The last part of the path that names a type.
pub fn find_last_name(segments: &Option<Vec<SourceSegment>>) -> (name: Option<String>)
    ensures
        name.deep_view() == last_name(segments.deep_view()),
{
    match segments {
        Some(parts) => if parts.len() > 0 {
            assert(parts.deep_view().last() == parts@[parts@.len() - 1].deep_view());
            Some(parts[parts.len() - 1].name.clone())
        } else {
            None
        },
        None => None,
    }
}

/// The last part of the path that names the elements, where a type is a list of them.
pub fn find_element(segments: &Option<Vec<SourceSegment>>) -> (name: Option<String>)
    ensures
        name.deep_view() == element_of(segments.deep_view()),
{
    let parts = match segments {
        Some(parts) => parts,
        None => {
            return None;
        },
    };
    if parts.len() == 0 {
        return None;
    }
    let last = &parts[parts.len() - 1];
    assert(parts.deep_view().last() == parts@[parts@.len() - 1].deep_view());
    if !same_text(last.name.as_str(), "Vec") || last.arguments.len() == 0 {
        return None;
    }
    let first = &last.arguments[0];
    assert(last.arguments.deep_view()[0] == first.deep_view());
    if first.len() == 0 {
        return None;
    }
    assert(first.deep_view().last() == first@[first@.len() - 1]@);
    Some(first[first.len() - 1].clone())
}

pub open spec fn documented_field(field: SourceFieldV) -> FieldDocV {
    FieldDocV {
        name: field.name,
        doc: doc_lines_of(field.attributes),
        type_path: last_name(field.segments),
        element_name: element_of(field.segments),
    }
}

pub open spec fn documented_fields(fields: Seq<SourceFieldV>) -> Seq<FieldDocV> {
    fields.map_values(|field: SourceFieldV| documented_field(field))
}

/// What the reference needs of a struct.
pub open spec fn documented_struct(body: SourceBodyV) -> StructDocV {
    StructDocV {
        name: body.name,
        doc: doc_lines_of(body.attributes),
        fields: if body.named {
            Some(documented_fields(body.fields))
        } else {
            None
        },
    }
}

/// What the reference needs of a variant.
pub open spec fn documented_variant(body: SourceBodyV) -> VariantDocV {
    VariantDocV {
        name: body.name,
        doc: doc_lines_of(body.attributes),
        fields: if body.named {
            VariantFieldsV::Named(documented_fields(body.fields))
        } else if body.fields.len() == 0 {
            VariantFieldsV::Unit
        } else {
            VariantFieldsV::Unnamed(
                body.fields.map_values(|field: SourceFieldV| doc_lines_of(field.attributes)),
            )
        },
    }
}

/// What the reference needs of an enum.
pub open spec fn documented_enum(
    name: Seq<char>,
    attributes: Seq<SourceAttributeV>,
    variants: Seq<SourceBodyV>,
) -> EnumDocV {
    EnumDocV {
        name,
        doc: doc_lines_of(attributes),
        variants: variants.map_values(|body: SourceBodyV| documented_variant(body)),
    }
}

fn document_fields(fields: &Vec<SourceField>) -> (docs: Vec<FieldDoc>)
    ensures
        docs.deep_view() == documented_fields(fields.deep_view()),
{
    let mut docs: Vec<FieldDoc> = Vec::new();
    let mut i: usize = 0;
    while i < fields.len()
        invariant
            i <= fields.len(),
            docs@.len() == i,
            forall|k: int|
                0 <= k < i ==> (#[trigger] docs@[k]).deep_view() == documented_field(
                    fields@[k].deep_view(),
                ),
        decreases fields.len() - i,
    {
        let field = &fields[i];
        docs.push(
            FieldDoc {
                name: copy_optional_text(&field.name),
                doc: doc_lines(&field.attributes),
                type_path: find_last_name(&field.segments),
                element_name: find_element(&field.segments),
            },
        );
        i = i + 1;
    }
    assert(docs.deep_view() =~= documented_fields(fields.deep_view()));
    docs
}

/// Picks what the reference needs out of a struct.
pub fn document_struct(body: &SourceBody) -> (doc: StructDoc)
    ensures
        doc.deep_view() == documented_struct(body.deep_view()),
{
    StructDoc {
        name: body.name.clone(),
        doc: doc_lines(&body.attributes),
        fields: if body.named {
            Some(document_fields(&body.fields))
        } else {
            None
        },
    }
}

fn document_variant(body: &SourceBody) -> (doc: VariantDoc)
    ensures
        doc.deep_view() == documented_variant(body.deep_view()),
{
    let fields = if body.named {
        VariantFields::Named(document_fields(&body.fields))
    } else if body.fields.len() == 0 {
        VariantFields::Unit
    } else {
        let mut docs: Vec<Vec<String>> = Vec::new();
        let mut i: usize = 0;
        while i < body.fields.len()
            invariant
                i <= body.fields.len(),
                docs@.len() == i,
                forall|k: int|
                    0 <= k < i ==> (#[trigger] docs@[k]).deep_view() == doc_lines_of(
                        body.fields@[k].attributes.deep_view(),
                    ),
            decreases body.fields.len() - i,
        {
            docs.push(doc_lines(&body.fields[i].attributes));
            i = i + 1;
        }
        assert(docs.deep_view() =~= body.deep_view().fields.map_values(
            |field: SourceFieldV| doc_lines_of(field.attributes),
        ));
        VariantFields::Unnamed(docs)
    };
    VariantDoc { name: body.name.clone(), doc: doc_lines(&body.attributes), fields }
}

/// Picks what the reference needs out of an enum.
pub fn document_enum(
    name: &str,
    attributes: &Vec<SourceAttribute>,
    variants: &Vec<SourceBody>,
) -> (doc: EnumDoc)
    ensures
        doc.deep_view() == documented_enum(name@, attributes.deep_view(), variants.deep_view()),
{
    let mut docs: Vec<VariantDoc> = Vec::new();
    let mut i: usize = 0;
    while i < variants.len()
        invariant
            i <= variants.len(),
            docs@.len() == i,
            forall|k: int|
                0 <= k < i ==> (#[trigger] docs@[k]).deep_view() == documented_variant(
                    variants@[k].deep_view(),
                ),
        decreases variants.len() - i,
    {
        docs.push(document_variant(&variants[i]));
        i = i + 1;
    }
    assert(docs.deep_view() =~= variants.deep_view().map_values(
        |body: SourceBodyV| documented_variant(body),
    ));
    EnumDoc { name: owned(name), doc: doc_lines(attributes), variants: docs }
}

/// Sources that are being read: the types that were found, and for each source that is open
/// the items that are left, the next one last.
#[derive(Debug, PartialEq, Eq)]
pub struct SourceWalk {
    pub model: ConfigModel,
    pub open: Vec<Vec<Declaration>>,
}

#[verifier::ext_equal]
pub struct SourceWalkV {
    pub model: ConfigModelV,
    pub open: Seq<Seq<DeclarationV>>,
}

impl DeepView for SourceWalk {
    type V = SourceWalkV;

    open spec fn deep_view(&self) -> SourceWalkV {
        SourceWalkV { model: self.model.deep_view(), open: self.open.deep_view() }
    }
}

/// A module whose contents stand elsewhere.
#[derive(Debug, PartialEq, Eq)]
pub struct OuterModule {
    pub name: String,
    /// How many sources are open, the one that names the module included.
    pub depth: usize,
}

impl SourceWalkV {
    /// Nothing read yet.
    pub open spec fn fresh() -> SourceWalkV {
        SourceWalkV {
            model: ConfigModelV { structs: Seq::empty(), enums: Seq::empty() },
            open: Seq::empty(),
        }
    }

    /// A source opened, whose items come before what is left of the others.
    pub open spec fn entered(self, items: Seq<DeclarationV>) -> SourceWalkV {
        SourceWalkV { open: self.open.push(items.reverse()), ..self }
    }

    /// The next item of the source that was opened last taken off.
    pub open spec fn past_item(self) -> SourceWalkV {
        SourceWalkV {
            open: self.open.drop_last().push(self.open.last().drop_last()),
            ..self
        }
    }

    /// One more struct; of two with one name the later one counts.
    pub open spec fn with_struct(self, doc: StructDocV) -> SourceWalkV {
        SourceWalkV {
            model: ConfigModelV { structs: self.model.structs.push(doc), ..self.model },
            ..self
        }
    }

    /// One more enum; of two with one name the later one counts.
    pub open spec fn with_enum(self, doc: EnumDocV) -> SourceWalkV {
        SourceWalkV {
            model: ConfigModelV { enums: self.model.enums.push(doc), ..self.model },
            ..self
        }
    }

    /// Items taken in up to the next module whose contents stand elsewhere, or to the end.
    pub open spec fn advanced(self) -> (SourceWalkV, Option<(Seq<char>, nat)>)
        decreases self.open.len(), self.open.last().len(),
    {
        if self.open.len() == 0 {
            (self, None)
        } else if self.open.last().len() == 0 {
            SourceWalkV { open: self.open.drop_last(), ..self }.advanced()
        } else {
            let past = self.past_item();
            match self.open.last().last() {
                DeclarationV::Struct(body) => past.with_struct(
                    documented_struct(body),
                ).advanced(),
                DeclarationV::Enum(name, attributes, variants) => past.with_enum(
                    documented_enum(name, attributes, variants),
                ).advanced(),
                DeclarationV::Module(name, inline) => if inline {
                    past.advanced()
                } else {
                    (past, Some((name, self.open.len())))
                },
                DeclarationV::Other => past.advanced(),
            }
        }
    }
}

impl SourceWalk {
    pub fn new() -> (walk: SourceWalk)
        ensures
            walk.deep_view() == SourceWalkV::fresh(),
    {
        let walk = SourceWalk {
            model: ConfigModel { structs: Vec::new(), enums: Vec::new() },
            open: Vec::new(),
        };
        assert(walk.deep_view() =~= SourceWalkV::fresh());
        walk
    }

    /// Opens a source, given by its items.
    pub fn enter(&mut self, items: Vec<Declaration>)
        ensures
            final(self).deep_view() == old(self).deep_view().entered(items.deep_view()),
    {
        let ghost start = self.deep_view();
        let ghost all = items.deep_view();
        let mut items = items;
        let mut left: Vec<Declaration> = Vec::new();
        assert(left.deep_view() =~= all.skip(all.len() as int).reverse());
        while items.len() > 0
            invariant
                items@.len() <= all.len(),
                items.deep_view() == all.take(items@.len() as int),
                left.deep_view() == all.skip(items@.len() as int).reverse(),
            decreases items.len(),
        {
            let ghost count = items@.len() as int;
            let ghost before = left.deep_view();
            let ghost held = items.deep_view();
            match items.pop() {
                Some(item) => {
                    assert(held.last() == item.deep_view());
                    assert(items.deep_view() =~= held.drop_last());
                    assert(items.deep_view() =~= all.take(count - 1));
                    let ghost added = item.deep_view();
                    left.push(item);
                    assert(left.deep_view() =~= before.push(added));
                    assert(left.deep_view() =~= all.skip(count - 1).reverse());
                },
                None => {},
            }
        }
        assert(all.skip(0) =~= all);
        self.open.push(left);
        assert(self.deep_view() =~= start.entered(all));
    }

    /// Takes items in up to the next module whose contents stand elsewhere, or to the end.
    pub fn next_module(&mut self) -> (module: Option<OuterModule>)
        ensures
            final(self).deep_view() == old(self).deep_view().advanced().0,
            match old(self).deep_view().advanced().1 {
                Some((name, depth)) => module is Some && module->0.name@ == name
                    && module->0.depth == depth,
                None => module is None,
            },
    {
        let ghost start = self.deep_view();
        while self.open.len() > 0
            invariant
                start == old(self).deep_view(),
                self.deep_view().advanced() == start.advanced(),
            decreases self.open@.len(), self.open@.last()@.len(),
        {
            let ghost now = self.deep_view();
            let depth: usize = self.open.len();
            let mut items: Vec<Declaration> = match self.open.pop() {
                Some(items) => items,
                None => Vec::new(),
            };
            let ghost rest = self.open.deep_view();
            assert(now.open.last() == items.deep_view());
            assert(rest =~= now.open.drop_last());
            let ghost held = items.deep_view();
            match items.pop() {
                None => {
                    assert(held.len() == 0);
                    assert(self.deep_view() =~= (SourceWalkV { open: now.open.drop_last(), ..now }));
                },
                Some(item) => {
                    assert(held.last() == item.deep_view());
                    assert(items.deep_view() =~= held.drop_last());
                    self.open.push(items);
                    assert(self.deep_view() =~= now.past_item());
                    let ghost past = self.deep_view();
                    match item {
                        Declaration::Struct(body) => {
                            let doc = document_struct(&body);
                            let ghost added = doc.deep_view();
                            self.model.structs.push(doc);
                            assert(self.deep_view() =~= past.with_struct(added));
                        },
                        Declaration::Enum(name, attributes, variants) => {
                            let doc = document_enum(name.as_str(), &attributes, &variants);
                            let ghost added = doc.deep_view();
                            self.model.enums.push(doc);
                            assert(self.deep_view() =~= past.with_enum(added));
                        },
                        Declaration::Module(name, inline) => {
                            if !inline {
                                return Some(OuterModule { name, depth });
                            }
                        },
                        Declaration::Other => {},
                    }
                },
            }
        }
        assert(self.open.deep_view().len() == 0);
        None
    }
}

/// A source is read whole before what follows its module: opening it changes nothing of
/// what is left of the other sources.
pub proof fn lemma_entering_keeps_the_rest(walk: SourceWalkV, items: Seq<DeclarationV>)
    ensures
        walk.entered(items).open.drop_last() == walk.open,
        walk.entered(items).model == walk.model,
{
    assert(walk.entered(items).open.drop_last() =~= walk.open);
}

/// Of two structs, or two enums, with one name, the one that was read later counts.
pub proof fn lemma_later_item_counts(walk: SourceWalkV, item: StructDocV, choice: EnumDocV)
    ensures
        struct_named(walk.with_struct(item).model.structs, item.name) == Some(item),
        enum_named(walk.with_enum(choice).model.enums, choice.name) == Some(choice),
        forall|name: Seq<char>|
            name != item.name ==> #[trigger] struct_named(
                walk.with_struct(item).model.structs,
                name,
            ) == struct_named(walk.model.structs, name),
        forall|name: Seq<char>|
            name != choice.name ==> #[trigger] enum_named(
                walk.with_enum(choice).model.enums,
                name,
            ) == enum_named(walk.model.enums, name),
{
    assert(walk.with_struct(item).model.structs.drop_last() =~= walk.model.structs);
    assert(walk.with_enum(choice).model.enums.drop_last() =~= walk.model.enums);
}

} // verus!
