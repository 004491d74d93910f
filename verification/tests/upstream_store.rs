use boulder::stone_recipe::upstream::Upstream as Entry;
use boulder::upstream::sources::{hex_encode, Git, Plain, Upstream};
use sha2::{Digest, Sha256};

const HASH: &str = "c17f43fc0e37336b33ee50a209c701d5beb808adc2d9f089ca831b40539c9ac4";

#[test]
fn hex_encoding_is_lowercase_pairs() {
    assert_eq!(hex_encode(&vec![0x00, 0x0f, 0xa5, 0xff]), "000fa5ff");
    assert_eq!(hex_encode(&vec![]), "");
    let bytes: Vec<u8> = (0..=255).collect();
    assert_eq!(hex_encode(&bytes), hex::encode(&bytes));
}

#[test]
fn plain_archive_paths() {
    let url = "https://example.com/releases/foo-1.0.tar.xz";
    let plain = Plain {
        url: url.to_owned(),
        hash: boulder::upstream::Hash::from_str(HASH).unwrap(),
        rename: None,
    };
    let digest = Sha256::digest(format!("{url}{HASH}").as_bytes());
    let h = hex::encode(digest);
    let rel = format!("{}/{}/{}", &h[..5], &h[59..], h);
    assert_eq!(plain.file_path(), rel);
    assert_eq!(plain.stored_path("/var/cache/upstreams/fetched"), format!("/var/cache/upstreams/fetched/{rel}"));
    assert_eq!(plain.name(), "foo-1.0.tar.xz");
    let renamed = Plain {
        rename: Some("foo.tar.xz".to_owned()),
        ..plain.clone()
    };
    assert_eq!(renamed.name(), "foo.tar.xz");
    // the path changes with the hash
    let other = Plain {
        hash: boulder::upstream::Hash::from_str("0000011111").unwrap(),
        ..plain
    };
    assert_ne!(other.file_path(), rel);
}

#[test]
fn git_repository_paths() {
    let git = Git {
        url: "https://github.com/serpent-os/moss.git".to_owned(),
        commit: "0123456789abcdef0123456789abcdef01234567".to_owned(),
    };
    assert_eq!(git.name(), "moss.git");
    assert_eq!(git.directory_name(), "github.com..serpent-os.moss.git");
    assert_eq!(git.stored_path("/store/git"), "/store/git/github.com..serpent-os.moss.git");
    let local = Git {
        url: "file:///srv/repos/thing".to_owned(),
        commit: String::new(),
    };
    assert_eq!(local.directory_name(), ".srv.repos.thing");
}

#[test]
fn upstreams_from_recipe_entries() {
    let plain = Upstream::from_recipe_upstream(Entry::Plain {
        uri: "https://example.com/foo.tar.xz".to_owned(),
        hash: HASH.to_owned(),
        rename: None,
        strip_dirs: None,
        unpack: true,
        unpack_dir: None,
    })
    .unwrap();
    assert_eq!(plain.name(), "foo.tar.xz");
    assert!(matches!(plain, Upstream::Plain(ref p) if p.hash.as_str() == HASH));
    let git = Upstream::from_recipe_upstream(Entry::Git {
        uri: "https://github.com/org/repo".to_owned(),
        ref_id: "0123456789abcdef0123456789abcdef01234567".to_owned(),
        clone_dir: None,
        staging: true,
    })
    .unwrap();
    assert_eq!(git.name(), "repo");
    let short = Upstream::from_recipe_upstream(Entry::Plain {
        uri: "https://example.com/foo.tar.xz".to_owned(),
        hash: "abc".to_owned(),
        rename: None,
        strip_dirs: None,
        unpack: true,
        unpack_dir: None,
    });
    assert!(matches!(short, Err(boulder::upstream::ParseHashError::TooShort(ref t)) if t == "abc"));
}
