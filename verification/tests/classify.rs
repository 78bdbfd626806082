use site_files::{FileFormat, FileInfo, FileInfoError, FileKind, FileLocale};

#[test]
fn simple_page_without_locale() {
    let info = FileInfo::new("pages/about.html").unwrap();
    assert!(matches!(info.kind(), FileKind::Page));
    assert_eq!(info.path(), "pages/about.html");
    assert!(info.directory().is_none());
    assert_eq!(info.name(), "about");
    assert!(info.locale().is_none());
    assert!(matches!(info.format(), FileFormat::Html));
}

#[test]
fn extension_matching_is_case_insensitive() {
    let a = FileInfo::new("Layouts/x.MD").unwrap();
    let b = FileInfo::new("layouts/x.md").unwrap();
    assert!(matches!(a.format(), FileFormat::Markdown));
    assert!(matches!(b.format(), FileFormat::Markdown));
    assert!(matches!(a.kind(), FileKind::Layout));
    assert!(matches!(b.kind(), FileKind::Layout));
}

#[test]
fn root_matching_is_case_insensitive() {
    let info = FileInfo::new("PAGES/x.md").unwrap();
    assert!(matches!(info.kind(), FileKind::Page));
    assert_eq!(info.path(), "PAGES/x.md");
}

#[test]
fn unknown_extension_fails_with_the_token() {
    match FileInfo::new("pages/about.xyz") {
        Err(FileInfoError::UnexpectedFileFormat(t)) => assert_eq!(t, "xyz"),
        _ => panic!("expected an unrecognized-format error"),
    }
}

#[test]
fn locale_suffix_is_carried_verbatim() {
    let info = FileInfo::new("includes/widgets/nav.en-US.html").unwrap();
    assert!(matches!(info.kind(), FileKind::Include));
    assert_eq!(info.directory(), Some("widgets"));
    assert_eq!(info.name(), "nav");
    assert_eq!(info.locale().unwrap().as_str(), ".en-US");
    assert!(matches!(info.format(), FileFormat::Html));
}

#[test]
fn multi_group_locale() {
    let info = FileInfo::new("pages/x.en.GB-x.y_z.md").unwrap();
    assert_eq!(info.name(), "x");
    assert_eq!(info.locale().unwrap().as_str(), ".en.GB-x.y_z");
    assert!(matches!(info.format(), FileFormat::Markdown));
}

#[test]
fn nested_directories_form_one_range() {
    let info = FileInfo::new("pages/a/b/c.md").unwrap();
    assert_eq!(info.directory(), Some("a/b"));
    assert_eq!(info.name(), "c");
}

#[test]
fn backslash_separators_are_accepted() {
    let info = FileInfo::new("pages\\sub\\x.json").unwrap();
    assert_eq!(info.directory(), Some("sub"));
    assert_eq!(info.name(), "x");
    assert!(matches!(info.format(), FileFormat::Json));
}

#[test]
fn accessors_rebuild_the_original_path() {
    let path = "includes/a/b.en.md";
    let info = FileInfo::new(path).unwrap();
    let rebuilt = format!(
        "includes/{}/{}{}.md",
        info.directory().unwrap(),
        info.name(),
        info.locale().unwrap().as_str(),
    );
    assert_eq!(rebuilt, path);
    assert_eq!(info.path(), path);
}

#[test]
fn nonmatching_paths_fail_with_the_path() {
    for bad in [
        "",
        "about.html",
        "posts/x.md",
        "pages//x.md",
        "pages/.md",
        "pages/x",
        "pages/x.",
        "pages/x..md",
        "pages/x.en US.md",
        "pages/x.md/",
        "foo/pages/x.md",
        "pagesextra/x.md",
    ] {
        match FileInfo::new(bad) {
            Err(FileInfoError::UnexpectedFilePath(p)) => assert_eq!(p, bad),
            _ => panic!("expected an unrecognized-path error"),
        }
    }
}

#[test]
fn later_dot_groups_win_the_extension() {
    // The group before the last dot reads as a locale, the extension is
    // what follows the last dot, and it names no format here.
    match FileInfo::new("pages/archive.tar.gz") {
        Err(FileInfoError::UnexpectedFileFormat(t)) => assert_eq!(t, "gz"),
        _ => panic!("expected an unrecognized-format error"),
    }
}

#[test]
fn kind_tokens_classify() {
    assert!(matches!(FileKind::from_str("includes"), Ok(FileKind::Include)));
    assert!(matches!(FileKind::from_str("layouts"), Ok(FileKind::Layout)));
    assert!(matches!(FileKind::from_str("pages"), Ok(FileKind::Page)));
    assert!(matches!(FileKind::from_str("Includes"), Ok(FileKind::Include)));
    assert!(matches!(FileKind::from_str("LAYOUTS"), Ok(FileKind::Layout)));
    match FileKind::from_str("posts") {
        Err(FileInfoError::UnexpectedFileKind(t)) => assert_eq!(t, "posts"),
        _ => panic!("expected an unrecognized-kind error"),
    }
}

#[test]
fn format_tokens_classify() {
    for ext in ["html", "htm", "xhtml", "xml"] {
        assert!(matches!(FileFormat::from_str(ext), Ok(FileFormat::Html)));
    }
    for ext in ["yaml", "yml"] {
        assert!(matches!(FileFormat::from_str(ext), Ok(FileFormat::Yaml)));
    }
    assert!(matches!(FileFormat::from_str("json"), Ok(FileFormat::Json)));
    assert!(matches!(FileFormat::from_str("rhai"), Ok(FileFormat::Rhai)));
    for ext in ["md", "markdown", "mdown", "mkdn", "mdwn", "mdtxt", "mdtext", "text", "rmd"] {
        assert!(matches!(FileFormat::from_str(ext), Ok(FileFormat::Markdown)));
    }
    assert!(matches!(FileFormat::from_str("sh"), Ok(FileFormat::Bash)));
    assert!(matches!(FileFormat::from_str("HTML"), Ok(FileFormat::Html)));
    assert!(matches!(FileFormat::from_str("Yml"), Ok(FileFormat::Yaml)));
    match FileFormat::from_str("docx") {
        Err(FileInfoError::UnexpectedFileFormat(t)) => assert_eq!(t, "docx"),
        _ => panic!("expected an unrecognized-format error"),
    }
}

#[test]
fn every_format_reaches_through_a_full_path() {
    assert!(matches!(FileInfo::new("includes/x.sh").unwrap().format(), FileFormat::Bash));
    assert!(matches!(FileInfo::new("layouts/site.yml").unwrap().format(), FileFormat::Yaml));
    assert!(matches!(FileInfo::new("pages/data.json").unwrap().format(), FileFormat::Json));
    assert!(matches!(FileInfo::new("pages/logic.rhai").unwrap().format(), FileFormat::Rhai));
    assert!(matches!(FileInfo::new("pages/doc.xhtml").unwrap().format(), FileFormat::Html));
    assert!(matches!(FileInfo::new("pages/notes.mdtext").unwrap().format(), FileFormat::Markdown));
}

#[test]
fn error_messages_name_the_offender() {
    match FileInfo::new("pages/about.xyz") {
        Err(e) => assert_eq!(e.message(), "unexpected file format: xyz"),
        _ => panic!("expected an unrecognized-format error"),
    }
    match FileInfo::new("nope") {
        Err(e) => assert_eq!(e.message(), "unexpected file path: nope"),
        _ => panic!("expected an unrecognized-path error"),
    }
    match FileKind::from_str("posts") {
        Err(e) => assert_eq!(e.message(), "unexpected raw kind posts"),
        _ => panic!("expected an unrecognized-kind error"),
    }
    assert_eq!(FileInfoError::InvalidPath.message(), "invalid file path");
}

#[test]
fn locale_wrapper_is_verbatim() {
    let l = FileLocale::from_str(".en-US");
    assert_eq!(l.as_str(), ".en-US");
}

#[test]
fn name_may_hold_spaces_and_odd_characters() {
    let info = FileInfo::new("pages/my page (draft).html").unwrap();
    assert_eq!(info.name(), "my page (draft)");
}

#[test]
fn directory_segments_may_hold_dots() {
    let info = FileInfo::new("layouts/v1.2/base.html").unwrap();
    assert_eq!(info.directory(), Some("v1.2"));
    assert_eq!(info.name(), "base");
}
