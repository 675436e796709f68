use herdr_kiosk::display::sanitize;
use herdr_kiosk::order::Rank;
use herdr_kiosk::path::{
    compare_paths, components, display, equivalent, is_key_within, is_windows_drive_root, starts_with, strip_windows_verbatim_prefix, windows_path_key, Component, PathBuf, PathRules,
};

#[test]
fn controls_are_rendered_as_visible_escapes() {
    assert_eq!(
        sanitize("repo\nname\t\u{1b}").as_str(),
        "repo\\nname\\t\\u{1b}"
    );
    assert_eq!(sanitize("plain").as_str(), "plain");
}

#[test]
fn sanitized_text_is_left_alone_by_a_second_pass() {
    let once = sanitize("a\u{7f}b\u{85}\r");
    assert_eq!(once.as_str(), "a\\u{7f}b\\u{85}\\r");
    assert_eq!(sanitize(once.as_str()), once);
}

#[test]
fn windows_keys_ignore_verbatim_prefix_case_and_separator_style() {
    assert_eq!(
        windows_path_key(r"\\?\C:\Users\Tom\Repo\"),
        windows_path_key("c:/users/tom/repo")
    );
    assert_eq!(
        windows_path_key(r"\\?\UNC\Server\Share\Repo"),
        windows_path_key(r"\\server\share\repo")
    );
    assert_eq!(windows_path_key("ÄB/"), "äb");
    assert!(is_windows_drive_root("c:/"));
    assert!(!is_windows_drive_root("c:"));
}

#[test]
fn windows_display_hides_only_the_verbatim_prefix() {
    assert_eq!(
        strip_windows_verbatim_prefix(r"\\?\C:\Users\Tom"),
        r"C:\Users\Tom"
    );
    assert_eq!(
        strip_windows_verbatim_prefix(r"\\?\UNC\Server\Share"),
        r"\\Server\Share"
    );
}

#[test]
fn paths_are_split_joined_and_shown() {
    let path = PathBuf::new("/a//b/./c/");
    assert_eq!(
        components(&path, PathRules::Unix),
        vec![
            Component::Root,
            Component::Named(b"a".to_vec()),
            Component::Named(b"b".to_vec()),
            Component::Named(b"c".to_vec()),
        ]
    );
    assert!(equivalent(&path, &PathBuf::new("/a/b/c"), PathRules::Unix));
    assert_eq!(path.file_name(PathRules::Unix), Some(b"c".to_vec()));
    assert_eq!(path.parent(PathRules::Unix), Some(PathBuf::new("/a/b")));
    assert_eq!(PathBuf::new("/").parent(PathRules::Unix), None);
    assert!(starts_with(&path, &PathBuf::new("/a/b"), PathRules::Unix));
    assert!(!starts_with(&PathBuf::new("/ab"), &PathBuf::new("/a"), PathRules::Unix));
    assert_eq!(
        PathBuf::new("/a").join(&PathBuf::new("b/c"), PathRules::Unix),
        PathBuf::new("/a/b/c")
    );
    assert_eq!(
        PathBuf::new("/a").join(&PathBuf::new("/b"), PathRules::Unix),
        PathBuf::new("/b")
    );
    assert_eq!(display(&PathBuf::from_bytes(b"/a\xff"), PathRules::Unix), "/a\u{fffd}");
}

#[test]
fn the_rules_of_the_host_decide_what_one_place_is() {
    let verbatim = PathBuf::new(r"\\?\C:\Repo\");
    let plain = PathBuf::new("c:/repo");
    assert!(equivalent(&verbatim, &plain, PathRules::Windows));
    assert!(!equivalent(&verbatim, &plain, PathRules::Unix));
    let inner = PathBuf::new(r"C:\Repo\src");
    assert!(starts_with(&inner, &plain, PathRules::Windows));
    assert!(starts_with(&verbatim, &plain, PathRules::Windows));
    assert!(!starts_with(&inner, &plain, PathRules::Unix));
    assert!(!starts_with(&PathBuf::new("c:/repository"), &plain, PathRules::Windows));
    assert_eq!(display(&verbatim, PathRules::Windows), r"C:\Repo\");
    assert_eq!(display(&verbatim, PathRules::Unix), r"\\?\C:\Repo\");
    assert_eq!(
        display(&PathBuf::new(r"\\?\UNC\server\share"), PathRules::Windows),
        r"\\server\share"
    );
    assert!(is_key_within("c:/", "c:/"));
    assert!(is_key_within("c:/a", "c:/"));
    assert!(!is_key_within("c:/ab", "c:/a"));
    assert!(!is_key_within("c:", "c:/a"));
}

#[test]
fn texts_convert_to_paths() {
    let path: PathBuf = "/a/b".into();
    assert_eq!(path.bytes, b"/a/b");
}

fn windows(text: &str) -> Vec<String> {
    components(&PathBuf::new(text), PathRules::Windows)
        .iter()
        .map(|part| match part {
            Component::Prefix(prefix) => format!(
                "{:?}({},{})",
                prefix.kind,
                String::from_utf8_lossy(&prefix.first),
                String::from_utf8_lossy(&prefix.second)
            ),
            Component::Root => "ROOT".into(),
            Component::Current => ".".into(),
            Component::Parent => "..".into(),
            Component::Named(name) => String::from_utf8_lossy(name).into_owned(),
        })
        .collect()
}

#[test]
fn windows_paths_have_prefixes_and_two_separators() {
    for (text, expected) in [
        (r"c:\a/.\b\", vec!["Drive(C,)", "ROOT", "a", "b"]),
        (r"c:a\..", vec!["Drive(C,)", "a", ".."]),
        (r"C:.\a", vec!["Drive(C,)", "a"]),
        (r".\a", vec![".", "a"]),
        (r"\a", vec!["ROOT", "a"]),
        (r"\\server\share\a", vec!["Share(server,share)", "ROOT", "a"]),
        (r"//server/share", vec!["Share(server,share)", "ROOT"]),
        (r"\\server", vec!["ROOT", "server"]),
        (r"\\.\COM1\a", vec!["Device(COM1,)", "ROOT", "a"]),
        (r"\\?\C:\a\.\b/c", vec!["VerbatimDrive(C,)", "ROOT", "a", ".", "b/c"]),
        (r"\\?\UNC\s\h\a", vec!["VerbatimShare(s,h)", "ROOT", "a"]),
        (r"\\?\pipe\a", vec!["Verbatim(pipe,)", "ROOT", "a"]),
        (r"\\?\pipe", vec!["Verbatim(pipe,)"]),
        (r"//?/pipe/a", vec!["Share(?,pipe)", "ROOT", "a"]),
        ("", vec![]),
    ] {
        assert_eq!(windows(text), expected, "{text}");
    }
}

#[test]
fn windows_paths_are_absolute_with_a_prefix_and_a_root() {
    for (text, expected) in [
        (r"C:\a", true),
        ("c:/a", true),
        ("C:a", false),
        (r"\a", false),
        ("/a", false),
        ("a", false),
        (r"\\server\share", true),
        (r"\\?\C:", true),
        (r"\\.\COM1", true),
    ] {
        assert_eq!(PathBuf::new(text).is_absolute(PathRules::Windows), expected, "{text}");
    }
    assert!(PathBuf::new("/a").is_absolute(PathRules::Unix));
    assert!(!PathBuf::new(r"C:\a").is_absolute(PathRules::Unix));
}

#[test]
fn windows_paths_have_parents_and_names() {
    for (text, parent, name) in [
        (r"C:\a\b", Some(r"C:\a"), Some("b")),
        (r"C:\a\\b\.\", Some(r"C:\a"), Some("b")),
        (r"C:\a", Some(r"C:\"), Some("a")),
        (r"C:\", None, None),
        ("C:", None, None),
        ("C:a", Some("C:"), Some("a")),
        (r"C:.\a", Some("C:."), Some("a")),
        (r"\\server\share\a", Some(r"\\server\share\"), Some("a")),
        (r"\\server\share", None, None),
        (r"a\b", Some("a"), Some("b")),
        ("a", Some(""), Some("a")),
        (r"a\..", Some("a"), None),
        (".", Some(""), None),
    ] {
        let path = PathBuf::new(text);
        let rules = PathRules::Windows;
        assert_eq!(
            path.parent(rules).map(|found| String::from_utf8(found.bytes).unwrap()).as_deref(),
            parent,
            "{text}"
        );
        assert_eq!(
            path.file_name(rules).map(|found| String::from_utf8(found).unwrap()).as_deref(),
            name,
            "{text}"
        );
    }
}

#[test]
fn windows_paths_are_joined_with_backslashes() {
    for (base, rest, expected) in [
        (r"C:\a", "b", r"C:\a\b"),
        (r"C:\a\", "b", r"C:\a\b"),
        ("c:/a/", "b", "c:/a/b"),
        ("C:", "b", "C:b"),
        (r"C:\a", r"\b", r"C:\b"),
        (r"C:\a", r"D:b", "D:b"),
        (r"C:\a", r"\\s\h\b", r"\\s\h\b"),
        (r"\\?\C:\a", r"..\b/./c", r"\\?\C:\b\c"),
        (r"\\?\C:\a", r"\b", r"\\?\C:\b"),
        (r"\\?\C:", "b", r"\\?\C:\b"),
        (r"\\?\pipe\x", "../..", r"\\?\pipe\"),
        ("", "b", "b"),
        ("a", "", r"a\"),
    ] {
        let joined = PathBuf::new(base).join(&PathBuf::new(rest), PathRules::Windows);
        assert_eq!(String::from_utf8(joined.bytes).unwrap(), expected, "{base} {rest}");
    }
    let renamed = PathBuf::new(r"C:\a\b.toml").with_file_name(
        &PathBuf::new("c.toml"),
        PathRules::Windows,
    );
    assert_eq!(renamed.bytes, br"C:\a\c.toml");
}

#[test]
fn windows_paths_are_ordered_by_their_components() {
    let rules = PathRules::Windows;
    let compare = |left: &str, right: &str| {
        compare_paths(&PathBuf::new(left), &PathBuf::new(right), rules)
    };
    assert_eq!(compare(r"c:\a\b", "C:/a//b"), Rank::Equal);
    assert_eq!(compare(r"C:\b", r"D:\a"), Rank::Less);
    assert_eq!(compare(r"\\s\h\a", r"C:\a"), Rank::Less);
    assert_eq!(compare(r"C:\a", "C:a"), Rank::Less);
    assert_eq!(compare(r"C:\a.b", r"C:\a\b"), Rank::Greater);
}
