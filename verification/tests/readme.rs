use herdr_kiosk::readme::{
    config_reference, is_empty_composite, normalize_line_endings, parse_task, readme_step, replace_generated_section,
    replace_keys_section, snake_case, ConfigModel, DefaultValue, EnumDoc, FieldDoc, ReadmeStep,
    SettingDefault, StructDoc, ValueShape, VariantDoc, VariantFields,
};

#[test]
fn replaces_only_the_marked_section() {
    let input = "before\n<!-- CONFIG:START -->\nstale\n<!-- CONFIG:END -->\nafter\n";
    assert_eq!(
        replace_generated_section(input, "fresh\n").unwrap(),
        "before\n<!-- CONFIG:START -->\nfresh\n<!-- CONFIG:END -->\nafter\n"
    );
}

#[test]
fn formats_rust_names_as_serde_snake_case() {
    assert_eq!(snake_case("DarkGray"), "dark_gray");
}

#[test]
fn normalizes_crlf_line_endings() {
    assert_eq!(
        normalize_line_endings("first\r\nsecond\r\n"),
        "first\nsecond\n"
    );
}

#[test]
fn a_written_section_can_be_replaced_again() {
    let input = "a <!-- CONFIG:START --> b <!-- CONFIG:END --> c";
    let once = replace_generated_section(input, "one\n").unwrap();
    let twice = replace_generated_section(&once, "two\n").unwrap();
    assert_eq!(twice, replace_generated_section(input, "two\n").unwrap());
    assert_eq!(readme_step(&twice, &twice, false), ReadmeStep::UpToDate);
    assert_eq!(readme_step(&once, &twice, true), ReadmeStep::OutOfDate);
    assert_eq!(readme_step(&once, &twice, false), ReadmeStep::Write);
    assert_eq!(readme_step("x\r\n", "x\n", false), ReadmeStep::Write);
    assert_eq!(readme_step("x\r\n", "x\n", true), ReadmeStep::UpToDate);
}

#[test]
fn misplaced_markers_are_refused() {
    let start = "<!-- CONFIG:START -->";
    let end = "<!-- CONFIG:END -->";
    assert_eq!(
        replace_generated_section("nothing", "").unwrap_err(),
        "README is missing the config start marker"
    );
    assert_eq!(
        replace_generated_section(start, "").unwrap_err(),
        "README is missing the config end marker"
    );
    for text in [
        format!("{end}{start}{end}"),
        format!("{start}{start}{end}"),
    ] {
        assert_eq!(
            replace_generated_section(&text, "").unwrap_err(),
            "README config markers are duplicated or out of order"
        );
    }
    assert_eq!(
        replace_generated_section(&format!("{start}{end}{end}"), "").unwrap_err(),
        "README config markers are duplicated"
    );
    assert_eq!(
        replace_keys_section("<!-- KEYS:START -->old<!-- KEYS:END -->", "new").unwrap(),
        "<!-- KEYS:START -->\nnew<!-- KEYS:END -->"
    );
    assert_eq!(
        replace_keys_section("", "new").unwrap_err(),
        "missing keys start marker"
    );
    assert_eq!(
        replace_keys_section("<!-- KEYS:START -->", "new").unwrap_err(),
        "missing keys end marker"
    );
}

#[test]
fn task_arguments_are_checked() {
    let words = |text: &str| -> Vec<String> { text.split(' ').map(Into::into).collect() };
    assert_eq!(parse_task(&words("readme")), Ok(false));
    assert_eq!(parse_task(&words("readme --check")), Ok(true));
    assert_eq!(
        parse_task(&Vec::new()),
        Err("usage: cargo xtask readme [--check]".into())
    );
    assert_eq!(
        parse_task(&words("build")),
        Err("unknown xtask 'build'; expected 'readme'".into())
    );
    assert_eq!(
        parse_task(&words("readme --check --check")),
        Err("unexpected argument '--check'; usage: cargo xtask readme [--check]".into())
    );
}

fn field(name: &str, doc: &str, kind: &str, element: Option<&str>) -> FieldDoc {
    FieldDoc {
        name: Some(name.into()),
        doc: vec![doc.into()],
        type_path: Some(kind.into()),
        element_name: element.map(Into::into),
    }
}

fn text_value(text: &str) -> DefaultValue {
    DefaultValue {
        written: text.into(),
        shape: ValueShape::Text,
    }
}

fn model() -> ConfigModel {
    ConfigModel {
        structs: vec![
            StructDoc {
                name: "Config".into(),
                doc: vec![" The configuration.".into()],
                fields: Some(vec![
                    field("search_dirs", "Where to look.", "Vec", Some("SearchDirEntry")),
                    field("theme", "Colors.", "ThemeConfig", None),
                ]),
            },
            StructDoc {
                name: "ThemeConfig".into(),
                doc: vec!["The theme.".into()],
                fields: Some(vec![field("accent", "Accent.", "ThemeColor", None)]),
            },
        ],
        enums: vec![
            EnumDoc {
                name: "SearchDirEntry".into(),
                doc: vec!["A directory.".into()],
                variants: vec![
                    VariantDoc {
                        name: "Simple".into(),
                        doc: vec!["A path.".into()],
                        fields: VariantFields::Unnamed(vec![vec!["The".into(), "path.".into()]]),
                    },
                    VariantDoc {
                        name: "Rich".into(),
                        doc: vec!["A table.".into()],
                        fields: VariantFields::Named(vec![field("path", "Its path.", "String", None)]),
                    },
                ],
            },
            EnumDoc {
                name: "ThemeColor".into(),
                doc: vec!["A color.".into()],
                variants: vec![
                    VariantDoc {
                        name: "Red".into(),
                        doc: vec![],
                        fields: VariantFields::Unit,
                    },
                    VariantDoc {
                        name: "DarkGray".into(),
                        doc: vec![],
                        fields: VariantFields::Unit,
                    },
                ],
            },
        ],
    }
}

#[test]
fn the_reference_is_made_from_the_documented_types() {
    let defaults = vec![
        SettingDefault {
            name: "search_dirs".into(),
            value: DefaultValue {
                written: "[]".into(),
                shape: ValueShape::List(0),
            },
            entries: Vec::new(),
        },
        SettingDefault {
            name: "theme".into(),
            value: DefaultValue {
                written: "{ accent = \"red\" }".into(),
                shape: ValueShape::Table(1),
            },
            entries: vec![("accent".into(), text_value("red"))],
        },
    ];
    assert_eq!(
        config_reference(&model(), &defaults, "KEYS").unwrap(),
        "The configuration.\n\n#### `search_dirs`\n\nWhere to look.\n\nExample:\n\n```toml\ninclude_non_git = false\nsearch_dirs = [\n  \"~/Code\",\n  { path = \"~/Work\", depth = 2, include_non_git = true },\n]\n```\n\nA directory.\n\nAccepted forms:\n\n- A path.\n  - The path.\n- A table.\n  - `path` — Its path.\n\n### `[theme]`\n\nColors.\n\nColors use the terminal's ANSI palette and can be `red`, `dark_gray`.\n\nDefaults:\n\n```toml\n[theme]\naccent = \"red\"\n```\n\n"
    );
}

#[test]
fn undocumented_items_are_refused() {
    let mut undocumented = model();
    undocumented.structs[0].doc = Vec::new();
    assert_eq!(
        config_reference(&undocumented, &Vec::new(), "").unwrap_err(),
        "missing user-facing doc comment on Config"
    );
    let mut tuple = model();
    tuple.structs[0].fields = None;
    assert_eq!(
        config_reference(&tuple, &Vec::new(), "").unwrap_err(),
        "Config must use named fields"
    );
    assert_eq!(
        config_reference(&model(), &Vec::new(), "").unwrap_err(),
        "ThemeConfig::accent is missing from Config::default()"
    );
    let mut colorless = model();
    colorless.enums.pop();
    assert_eq!(
        config_reference(&colorless, &Vec::new(), "").unwrap_err(),
        "ThemeColor enum not found in the config module"
    );
    let empty = ConfigModel {
        structs: Vec::new(),
        enums: Vec::new(),
    };
    assert_eq!(
        config_reference(&empty, &Vec::new(), "").unwrap_err(),
        "Config struct not found in the config module"
    );
}

#[test]
fn only_lists_and_tables_without_entries_are_empty() {
    let value = |shape: ValueShape| DefaultValue {
        written: String::new(),
        shape,
    };
    assert!(is_empty_composite(&value(ValueShape::List(0))));
    assert!(is_empty_composite(&value(ValueShape::Table(0))));
    assert!(!is_empty_composite(&value(ValueShape::List(1))));
    assert!(!is_empty_composite(&value(ValueShape::Text)));
    assert!(!is_empty_composite(&value(ValueShape::Other)));
}
