use herdr_kiosk::readme::VariantFields;
use herdr_kiosk::source::{
    doc_lines, document_enum, document_struct, find_element, find_last_name, read_source,
    Declaration, OuterModule, SourceAttribute, SourceBody, SourceField, SourceSegment, SourceWalk,
};

const SOURCE: &str = r#"
/// The settings.
#[derive(Debug)]
/// All of them.
pub struct Config {
    /// Where to look.
    pub dirs: Vec<config::Entry>,
    #[doc = "How many."]
    count: std::num::NonZeroU8,
    pair: (u8, u8),
}

struct Wrapped(u8);

/// A place.
pub enum Entry {
    /// Just a path.
    Simple(
        /// The path.
        String,
    ),
    /// More.
    Rich {
        /// Its path.
        path: String,
    },
    Nothing,
}

pub mod keys;

mod inner {
    struct Hidden;
}

fn helper() {}
"#;

fn attribute(name: &str, text: Option<&str>) -> SourceAttribute {
    SourceAttribute {
        name: Some(name.into()),
        text: text.map(Into::into),
    }
}

fn segment(name: &str, arguments: Vec<Vec<String>>) -> SourceSegment {
    SourceSegment {
        name: name.into(),
        arguments,
    }
}

#[test]
fn items_are_read_with_what_stands_on_them() {
    let items = read_source(SOURCE).unwrap();
    assert_eq!(items.len(), 6);
    let Declaration::Struct(config) = &items[0] else {
        panic!("no struct")
    };
    assert_eq!(config.name, "Config");
    assert!(config.named);
    assert_eq!(
        config.attributes,
        [
            attribute("doc", Some(" The settings.")),
            attribute("derive", None),
            attribute("doc", Some(" All of them.")),
        ]
    );
    assert_eq!(config.fields[0].name.as_deref(), Some("dirs"));
    assert_eq!(
        config.fields[0].segments,
        Some(vec![segment(
            "Vec",
            vec![vec!["config".into(), "Entry".into()]]
        )])
    );
    assert_eq!(config.fields[1].attributes, [attribute("doc", Some("How many."))]);
    assert_eq!(
        find_last_name(&config.fields[1].segments).as_deref(),
        Some("NonZeroU8")
    );
    assert_eq!(config.fields[2].segments, None);
    assert!(matches!(&items[1], Declaration::Struct(body) if !body.named && body.fields.len() == 1));
    let Declaration::Enum(name, attributes, variants) = &items[2] else {
        panic!("no enum")
    };
    assert_eq!(name, "Entry");
    assert_eq!(doc_lines(attributes), [" A place."]);
    assert_eq!(variants.len(), 3);
    assert_eq!(
        variants[0].fields[0].attributes,
        [attribute("doc", Some(" The path."))]
    );
    assert_eq!(items[3], Declaration::Module("keys".into(), false));
    assert_eq!(items[4], Declaration::Module("inner".into(), true));
    assert_eq!(items[5], Declaration::Other);
    assert!(read_source("struct {").is_err());
}

#[test]
fn only_lists_have_elements() {
    let list = Some(vec![segment("Vec", vec![vec!["Entry".into()]])]);
    assert_eq!(find_element(&list).as_deref(), Some("Entry"));
    let other = Some(vec![segment("Option", vec![vec!["Entry".into()]])]);
    assert_eq!(find_element(&other), None);
    assert_eq!(find_element(&Some(vec![segment("Vec", Vec::new())])), None);
    assert_eq!(find_element(&Some(vec![segment("Vec", vec![Vec::new()])])), None);
    assert_eq!(find_element(&None), None);
    assert_eq!(find_last_name(&list).as_deref(), Some("Vec"));
    assert_eq!(find_last_name(&None), None);
}

#[test]
fn only_texts_of_doc_attributes_are_documentation() {
    assert_eq!(
        doc_lines(&vec![
            attribute("doc", Some("one")),
            attribute("doc", None),
            attribute("path", Some("two")),
            SourceAttribute {
                name: None,
                text: Some("three".into()),
            },
            attribute("doc", Some("four")),
        ]),
        ["one", "four"]
    );
}

fn body(name: &str, named: bool, fields: &[&str]) -> SourceBody {
    SourceBody {
        name: name.into(),
        attributes: vec![attribute("doc", Some(name))],
        named,
        fields: fields
            .iter()
            .map(|field| SourceField {
                name: named.then(|| field.to_string()),
                attributes: vec![attribute("doc", Some(field))],
                segments: None,
            })
            .collect(),
    }
}

#[test]
fn declarations_become_documentation() {
    let doc = document_struct(&body("Config", true, &["dirs"]));
    assert_eq!(doc.doc, ["Config"]);
    assert_eq!(doc.fields.unwrap()[0].name.as_deref(), Some("dirs"));
    assert!(document_struct(&body("Wrapped", false, &["0"])).fields.is_none());
    let doc = document_enum(
        "Entry",
        &Vec::new(),
        &vec![
            body("Simple", false, &["path"]),
            body("Rich", true, &["path"]),
            body("Nothing", false, &[]),
        ],
    );
    assert_eq!(
        doc.variants[0].fields,
        VariantFields::Unnamed(vec![vec!["path".into()]])
    );
    assert!(matches!(&doc.variants[1].fields, VariantFields::Named(fields) if fields.len() == 1));
    assert_eq!(doc.variants[2].fields, VariantFields::Unit);
}

#[test]
fn modules_are_read_where_they_are_named() {
    let mut walk = SourceWalk::new();
    walk.enter(read_source("struct A; mod one; mod here { mod no; } struct C; mod two;").unwrap());
    assert_eq!(
        walk.next_module(),
        Some(OuterModule {
            name: "one".into(),
            depth: 1
        })
    );
    walk.enter(read_source("struct B; mod inner;").unwrap());
    assert_eq!(
        walk.next_module(),
        Some(OuterModule {
            name: "inner".into(),
            depth: 2
        })
    );
    assert_eq!(
        walk.next_module(),
        Some(OuterModule {
            name: "two".into(),
            depth: 1
        })
    );
    assert_eq!(walk.next_module(), None);
    let names: Vec<_> = walk.model.structs.iter().map(|doc| doc.name.as_str()).collect();
    assert_eq!(names, ["A", "B", "C"]);
}
