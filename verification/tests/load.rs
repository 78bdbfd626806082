use site_files::{File, FileFormat, FileInfo, FileKind, Meta};

#[test]
fn loaded_file_keeps_its_parts() {
    let info = FileInfo::new("pages/about.md").unwrap();
    let content = vec![35u8, 32, 104, 105, 10];
    let file = File::new(info, None, content.clone());
    assert!(matches!(file.info().kind(), FileKind::Page));
    assert!(matches!(file.info().format(), FileFormat::Markdown));
    assert_eq!(file.info().name(), "about");
    assert!(file.meta().is_none());
    assert_eq!(file.content(), &content[..]);
}

#[test]
fn metadata_block_is_carried_opaquely() {
    let info = FileInfo::new("includes/head.html").unwrap();
    let block = vec![116u8, 105, 116, 108, 101];
    let file = File::new(info, Some(Meta::new(block.clone())), vec![1u8, 2, 3]);
    assert_eq!(file.meta().unwrap().bytes(), &block[..]);
    assert_eq!(file.content(), &[1u8, 2, 3][..]);
}

#[test]
fn meta_bytes_round_trip() {
    let m = Meta::new(vec![]);
    assert_eq!(m.bytes(), &[] as &[u8]);
    let m2 = Meta::new(vec![255u8, 0, 42]);
    assert_eq!(m2.bytes(), &[255u8, 0, 42][..]);
}
