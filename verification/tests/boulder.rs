use boulder::draft::File;
use boulder::package::{
    binary, cmake, compressible, ignore_blocked, include_any, pkg_config, pkg_config_dep_kind,
    pkg_config_requires, python_metadata, Decision, PathInfo, ProviderKind,
};
use boulder::paths::{decimal_string, path_join, Id, Mapping, Paths};
use boulder::profile;
use boulder::stone_recipe::from_str;
use boulder::upstream::{is_valid_commit_hash, ParseHashError, Stored, StoredGit, StoredPlain};
use boulder::vfs;

#[test]
fn test_file_depth() {
    let extract_root = "/tmp/test".to_owned();

    let file = File {
        path: "/tmp/test/some_archive/meson.build".to_owned(),
        extract_root,
    };

    assert_eq!(file.depth(), 0);
}

#[test]
fn file_depth_and_name() {
    let file = File {
        path: "/tmp/test/some_archive/src/lib/mod.c".to_owned(),
        extract_root: "/tmp/test".to_owned(),
    };
    assert_eq!(file.depth(), 2);
    assert_eq!(file.file_name(), "mod.c");
    let outside = File {
        path: "/elsewhere/a/b/c".to_owned(),
        extract_root: "/tmp/test".to_owned(),
    };
    assert_eq!(outside.depth(), 3);
    let root = File {
        path: "/".to_owned(),
        extract_root: "/tmp".to_owned(),
    };
    assert_eq!(root.file_name(), "");
    assert_eq!(root.depth(), 0);
}

#[test]
fn vfs_paths() {
    assert_eq!(vfs::join("/usr", "bin"), "/usr/bin");
    assert_eq!(vfs::join("/usr/", "bin"), "/usr/bin");
    assert_eq!(vfs::join("/usr", "/bin"), "/bin");
    assert_eq!(vfs::file_name("/usr/bin/moss").as_deref(), Some("moss"));
    assert_eq!(vfs::file_name("/usr/bin/").as_deref(), Some("bin"));
    assert_eq!(vfs::parent("/usr/bin/moss").as_deref(), Some("/usr/bin"));
    assert_eq!(vfs::parent("/usr").as_deref(), Some("/"));
    assert_eq!(vfs::parent("usr"), None);
    assert_eq!(vfs::components("/usr//bin/"), vec!["/", "usr", "bin"]);
    assert_eq!(vfs::components("a/b"), vec!["a", "b"]);
    assert_eq!(vfs::path_components("./a/./b/../c"), vec![".", "a", "b", "..", "c"]);
}

fn recipe() -> boulder::stone_recipe::recipe::Recipe {
    from_str("name: nano\nversion: 8.0\nrelease: 12\nhomepage: h\nlicense: GPL\n").unwrap()
}

#[test]
fn build_paths() {
    let id = Id::new(&recipe());
    assert_eq!(id.as_str(), "nano-8.0-12");
    let paths = Paths::new(
        id,
        "/var/cache/boulder".to_owned(),
        "/mason".to_owned(),
        "/home/me/nano".to_owned(),
        "/home/me/out".to_owned(),
    );
    let rootfs = paths.rootfs();
    assert_eq!(rootfs.host, "/var/cache/boulder/root/nano-8.0-12");
    assert_eq!(rootfs.guest, "/");
    assert_eq!(paths.artefacts().host, "/var/cache/boulder/artefacts/nano-8.0-12");
    assert_eq!(paths.artefacts().guest, "/mason/artefacts");
    assert_eq!(paths.build().guest, "/mason/build");
    assert_eq!(paths.ccache().host, "/var/cache/boulder/ccache");
    assert_eq!(paths.sccache().guest, "/mason/sccache");
    assert_eq!(paths.upstreams().guest, "/mason/sourcedir");
    assert_eq!(paths.recipe().host, "/home/me/nano");
    assert_eq!(paths.recipe().guest, "/mason/recipe");
    assert_eq!(paths.install().host, "/var/cache/boulder/root/nano-8.0-12/mason/install");
    assert_eq!(paths.output_dir(), "/home/me/out");
    let mapping = Mapping {
        host: String::new(),
        guest: "/mason/build".to_owned(),
    };
    assert_eq!(
        paths.guest_host_path(&mapping),
        "/var/cache/boulder/root/nano-8.0-12/mason/build"
    );
}

#[test]
fn joins_and_numbers() {
    assert_eq!(path_join("", "a"), "a");
    assert_eq!(path_join("a", ""), "a/");
    assert_eq!(path_join("a/", "b"), "a/b");
    assert_eq!(path_join("a", "/b"), "/b");
    assert_eq!(decimal_string(0), "0");
    assert_eq!(decimal_string(1234567890), "1234567890");
    assert_eq!(decimal_string(u64::MAX), u64::MAX.to_string());
}

#[test]
fn profile_ids() {
    assert_eq!(profile::Id::new("local repo/x86-64").as_str(), "local_repo_x86-64");
    assert_eq!(profile::Id::new("ünïcode").as_str(), "ünïcode");
    assert_eq!(profile::Id::new("default x86/64").as_str(), "default_x86_64");
    let once = profile::Id::new("a b/c");
    assert_eq!(profile::Id::new(once.as_str()).as_str(), once.as_str());
}

#[test]
fn analysis_handlers() {
    let info = |p: &str| PathInfo {
        path: format!("/tmp/install{p}"),
        target_path: p.to_owned(),
    };
    assert_eq!(include_any(&info("/etc/x")), Decision::IncludeFile);
    assert_eq!(
        ignore_blocked(&info("/etc/x")),
        Decision::IgnoreFile {
            reason: "non /usr/ file".to_owned()
        }
    );
    assert_eq!(
        ignore_blocked(&info("/usrx/bin/a")),
        Decision::IgnoreFile {
            reason: "non /usr/ file".to_owned()
        }
    );
    assert_eq!(
        ignore_blocked(&info("/usr/lib/libfoo.la")),
        Decision::IgnoreFile {
            reason: "libtool file".to_owned()
        }
    );
    assert_eq!(
        ignore_blocked(&info("/usr/lib32/libfoo.la")),
        Decision::IgnoreFile {
            reason: "libtool file".to_owned()
        }
    );
    assert_eq!(ignore_blocked(&info("/usr/share/foo.la")), Decision::NextHandler);
    assert_eq!(ignore_blocked(&info("/usr/lib/libfoo.so")), Decision::NextHandler);
    assert_eq!(info("/usr/lib/libfoo.so").file_name(), "libfoo.so");
}

#[test]
fn hashes() {
    assert_eq!(boulder::upstream::Hash::from_str("abcd"), Err(ParseHashError::TooShort("abcd".to_owned())));
    assert_eq!(boulder::upstream::Hash::from_str("abcde").unwrap().as_str(), "abcde");
    assert!(boulder::upstream::Hash::from_str("ääa").is_ok());
    assert_eq!(
        boulder::upstream::Hash::try_from("a".to_owned()).unwrap_err().to_string(),
        "hash too short: a"
    );
    assert!(is_valid_commit_hash("85f8339d9c11caa203d79e6b10fd928a388d6466"));
    assert!(is_valid_commit_hash(&"a".repeat(64)));
    assert!(!is_valid_commit_hash(&"a".repeat(41)));
    assert!(!is_valid_commit_hash("v1.0.0"));
}

#[test]
fn stored_upstreams() {
    let plain = Stored::Plain(StoredPlain {
        name: "a.tar".to_owned(),
        path: "/x/a.tar".to_owned(),
        was_cached: true,
    });
    let git = Stored::Git(StoredGit {
        name: "repo".to_owned(),
        was_cached: false,
        path: "/x/repo".to_owned(),
        commit: "abc".to_owned(),
    });
    assert!(plain.was_cached());
    assert!(!git.was_cached());
}

#[test]
fn profile_maps_merge_and_list_in_order() {
    use_profile_maps();
}

fn use_profile_maps() {
    let a = profile::ProfileMap::with(vec![
        (profile::Id::new("local"), 1u32),
        (profile::Id::new("default-x86_64"), 2u32),
    ]);
    let b = profile::ProfileMap::with(vec![(profile::Id::new("local"), 10u32), (profile::Id::new("a b"), 3u32)]);
    assert!(!a.is_empty());
    assert!(profile::ProfileMap::<u32>::new().is_empty());
    assert_eq!(a.get(&profile::Id::new("local")), Some(&1));
    let merged = a.merge(b);
    assert_eq!(merged.get(&profile::Id::new("local")), Some(&10));
    assert_eq!(merged.get(&profile::Id::new("a_b")), Some(&3));
    let listed: Vec<(String, u32)> = merged.iter().into_iter().map(|(k, v)| (k, *v)).collect();
    assert_eq!(
        listed,
        vec![
            ("a_b".to_owned(), 3),
            ("default-x86_64".to_owned(), 2),
            ("local".to_owned(), 10)
        ]
    );
    let mut m = merged;
    m.add(profile::Id::new("local"), 11);
    assert_eq!(m.get(&profile::Id::new("local")), Some(&11));
}

#[test]
fn providers_of_files() {
    let info = |p: &str| PathInfo { path: format!("/tmp/install{p}"), target_path: p.to_owned() };
    let b = binary(&info("/usr/bin/nano")).unwrap();
    assert_eq!((b.kind, b.name.as_str()), (ProviderKind::Binary, "nano"));
    let b = binary(&info("/usr/sbin/init")).unwrap();
    assert_eq!(b.kind, ProviderKind::SystemBinary);
    assert!(binary(&info("/usr/binx/nano")).is_none());
    let p = pkg_config(&info("/usr/lib32/pkgconfig/zlib.pc")).unwrap();
    assert_eq!((p.kind, p.name.as_str()), (ProviderKind::PkgConfig32, "zlib"));
    let p = pkg_config(&info("/usr/share/pkgconfig/foo.pc")).unwrap();
    assert_eq!(p.kind, ProviderKind::PkgConfig);
    assert!(pkg_config(&info("/usr/lib/zlib.pc")).is_none());
    assert_eq!(pkg_config_dep_kind(true, false, true), ProviderKind::PkgConfig32);
    assert_eq!(pkg_config_dep_kind(false, true, true), ProviderKind::PkgConfig);
    assert_eq!(pkg_config_requires("glib-2.0 >= 2.0\n\nzlib\n"), vec!["glib-2.0".to_owned(), "zlib".to_owned()]);
    let c = cmake(&info("/usr/lib/cmake/Foo/FooConfig.cmake")).unwrap();
    assert_eq!((c.kind, c.name.as_str()), (ProviderKind::CMake, "Foo"));
    assert_eq!(cmake(&info("/usr/lib/cmake/bar-config.cmake")).unwrap().name, "bar");
    assert!(cmake(&info("/usr/lib/cmake/Foo-Config.cmake")).is_none());
    assert!(python_metadata(&info("/usr/lib/python3.12/site-packages/foo-1.0.dist-info/METADATA")));
    assert!(!python_metadata(&info("/usr/lib/python3.12/site-packages/foo/METADATA")));
    assert!(compressible(&info("/usr/share/man/man1/nano.1")));
    assert!(!compressible(&info("/usr/share/man/man9/x.9")));
    assert!(compressible(&info("/usr/share/info/nano.info")));
    assert!(!compressible(&info("/usr/share/doc/nano.1")));
}
