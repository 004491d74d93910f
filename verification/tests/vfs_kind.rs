use boulder::vfs::kind::Kind;

#[test]
fn clone_drop_symlink() {
    let kind = Kind::symlink("/test/thing".into());
    let kind2 = kind.clone();
    drop(kind);
    drop(kind2);
}

#[test]
fn clone_drop_regular() {
    let kind = Kind::REGULAR;
    let kind2 = kind.clone();
    drop(kind);
    drop(kind2);
}

#[test]
fn kind_queries() {
    let link = Kind::symlink("/usr/bin/python3".to_owned());
    assert!(link.is_symlink());
    assert!(!link.is_regular());
    assert_eq!(link.as_symlink().map(|s| s.as_str()), Some("/usr/bin/python3"));
    assert!(Kind::REGULAR.is_regular());
    assert!(Kind::DIRECTORY.is_directory());
    assert_eq!(Kind::REGULAR.as_symlink(), None);
    assert_eq!(Kind::default(), Kind::DIRECTORY);
}
