use boulder::stone_recipe::decode::Error;
use boulder::stone_recipe::from_slice;
use boulder::stone_recipe::from_str;
use boulder::stone_recipe::recipe::PathKind;
use boulder::stone_recipe::upstream::{is_valid_sha1, Upstream};

#[test]
fn reject_git_tag() {
    let input = r#"
name: test-pkg
version: 1.0.0
release: 1
license: MIT
homepage: https://example.com
upstreams:
    - git|https://github.com/example/repo : v1.0.0
"#;
    let result = from_str(input);
    assert!(result.is_err());
    let err_msg = result.unwrap_err().to_string();
    assert!(err_msg.contains("Using git tags or branches in upstreams is disallowed for reproducibility."));
    assert!(err_msg.contains("Please use the full 40-character commit SHA instead of 'v1.0.0'."));
}

#[test]
fn accept_git_sha() {
    let input = r#"
name: test-pkg
version: 1.0.0
release: 1
license: MIT
homepage: https://example.com
upstreams:
    - git|https://github.com/example/repo : 85f8339d9c11caa203d79e6b10fd928a388d6466
"#;
    let result = from_str(input);
    assert!(result.is_ok());
}

const FULL: &str = r#"
name: nano
version: 8.0
release: 12
homepage: https://www.nano-editor.org
license:
    - GPL-3.0-or-later
    - GFDL-1.2
summary: GNU Text Editor
description: |
    The GNU Text Editor
builddeps:
    - pkgconfig(ncursesw)
setup: |
    %configure
build: |
    %make
strip: no
networking: yes
emul32: true
upstreams:
    - https://www.nano-editor.org/dist/v8/nano-8.0.tar.xz : c17f43fc0e37336b33ee50a209c701d5beb808adc2d9f089ca831b40539c9ac4
    - git|https://github.com/example/repo:
        ref: 85f8339d9c11caa203d79e6b10fd928a388d6466
        clonedir: repo
        staging: false
    - https://example.com/a.tar.gz:
        hash: abcdef
        stripdirs: 2
        unpack: off
paths:
    - /usr/bin/nano
    - /usr/bin/rnano : symlink
packages:
    - "%(name)-docs":
        summary: Documentation
        paths:
            - /usr/share/doc
profiles:
    - aarch64:
        build: make arm
tuning:
    - lto
"#;

#[test]
fn full_recipe_reads_every_part() {
    let recipe = from_str(FULL).unwrap();
    assert_eq!(recipe.source.name, "nano");
    assert_eq!(recipe.source.version, "8.0");
    assert_eq!(recipe.source.release, 12);
    assert_eq!(recipe.source.license, vec!["GPL-3.0-or-later", "GFDL-1.2"]);
    assert_eq!(recipe.package.summary.as_deref(), Some("GNU Text Editor"));
    assert_eq!(recipe.build.build_deps, vec!["pkgconfig(ncursesw)"]);
    assert_eq!(recipe.build.setup.as_deref(), Some("%configure\n"));
    assert!(!recipe.options.strip);
    assert!(recipe.options.networking);
    assert!(!recipe.options.cspgo);
    assert!(recipe.emul32);
    assert!(!recipe.mold);
    assert_eq!(recipe.upstreams.len(), 3);
    match &recipe.upstreams[0] {
        Upstream::Plain { uri, hash, unpack, .. } => {
            assert_eq!(uri, "https://www.nano-editor.org/dist/v8/nano-8.0.tar.xz");
            assert_eq!(hash, "c17f43fc0e37336b33ee50a209c701d5beb808adc2d9f089ca831b40539c9ac4");
            assert!(*unpack);
        }
        _ => panic!("expected a plain upstream"),
    }
    match &recipe.upstreams[1] {
        Upstream::Git { uri, ref_id, clone_dir, staging } => {
            assert_eq!(uri, "https://github.com/example/repo");
            assert_eq!(ref_id, "85f8339d9c11caa203d79e6b10fd928a388d6466");
            assert_eq!(clone_dir.as_deref(), Some("repo"));
            assert!(!*staging);
        }
        _ => panic!("expected a git upstream"),
    }
    match &recipe.upstreams[2] {
        Upstream::Plain { uri, hash, strip_dirs, unpack, .. } => {
            assert_eq!(uri, "https://example.com/a.tar.gz");
            assert_eq!(hash, "abcdef");
            assert_eq!(*strip_dirs, Some(2));
            assert!(!*unpack);
        }
        _ => panic!("expected a plain upstream"),
    }
    assert_eq!(recipe.package.paths.len(), 2);
    assert_eq!(recipe.package.paths[0].kind, PathKind::Any);
    assert_eq!(recipe.package.paths[1].path, "/usr/bin/rnano");
    assert_eq!(recipe.package.paths[1].kind, PathKind::Symlink);
    assert_eq!(recipe.sub_packages.len(), 1);
    assert_eq!(recipe.sub_packages[0].key, "%(name)-docs");
    assert_eq!(recipe.sub_packages[0].value.paths[0].path, "/usr/share/doc");
    assert_eq!(recipe.profiles.len(), 1);
    assert_eq!(recipe.profiles[0].key, "aarch64");
    assert_eq!(recipe.profiles[0].value.build.as_deref(), Some("make arm"));
    assert_eq!(recipe.tuning.len(), 1);
}

#[test]
fn recipe_from_bytes() {
    let recipe = from_slice(FULL.as_bytes()).unwrap();
    assert_eq!(recipe.source.homepage, "https://www.nano-editor.org");
}

#[test]
fn upstream_url_is_normalized() {
    let input = "name: a\nversion: 1\nrelease: 1\nhomepage: h\nlicense: MIT\nupstreams:\n    - HTTPS://Example.com : abcdef\n";
    let recipe = from_str(input).unwrap();
    assert_eq!(recipe.source.version, "1");
    match &recipe.upstreams[0] {
        Upstream::Plain { uri, .. } => assert_eq!(uri, "https://example.com/"),
        _ => panic!("expected a plain upstream"),
    }
}

#[test]
fn missing_name_is_reported() {
    let input = "version: 1\nrelease: 1\nhomepage: h\nlicense: MIT\n";
    assert_eq!(from_str(input).unwrap_err(), Error::MissingField("name".to_owned()));
}

#[test]
fn invalid_boolean_is_reported() {
    let input = "name: a\nversion: 1\nrelease: 1\nhomepage: h\nlicense: MIT\nmold: maybe\n";
    let err = from_str(input).unwrap_err();
    assert_eq!(err, Error::InvalidBoolean("mold".to_owned()));
    assert!(err.to_string().contains("invalid boolean: expected true or false"));
}

#[test]
fn negative_release_is_refused() {
    let input = "name: a\nversion: 1\nrelease: -1\nhomepage: h\nlicense: MIT\n";
    assert_eq!(from_str(input).unwrap_err(), Error::InvalidType("release".to_owned()));
}

#[test]
fn git_payload_needs_git_uri() {
    let input = "name: a\nversion: 1\nrelease: 1\nhomepage: h\nlicense: MIT\nupstreams:\n    - https://example.com/r:\n        ref: 85f8339d9c11caa203d79e6b10fd928a388d6466\n";
    let err = from_str(input).unwrap_err();
    assert_eq!(err, Error::GitPayloadWithoutGitUri);
    assert_eq!(err.to_string(), "found git payload but missing 'git|' prefixed URI");
}

#[test]
fn plain_payload_refused_for_git_uri() {
    let input = "name: a\nversion: 1\nrelease: 1\nhomepage: h\nlicense: MIT\nupstreams:\n    - git|https://example.com/r:\n        hash: abc\n";
    assert_eq!(from_str(input).unwrap_err(), Error::GitUriWithPlainPayload);
}

#[test]
fn empty_upstream_is_refused() {
    let input = "name: a\nversion: 1\nrelease: 1\nhomepage: h\nlicense: MIT\nupstreams:\n    - {}\n";
    assert_eq!(from_str(input).unwrap_err(), Error::MissingUpstreamEntry);
}

#[test]
fn bad_uri_is_refused() {
    let input = "name: a\nversion: 1\nrelease: 1\nhomepage: h\nlicense: MIT\nupstreams:\n    - not a url : abc\n";
    assert!(matches!(from_str(input).unwrap_err(), Error::InvalidUri(_)));
}

#[test]
fn unknown_path_kind_is_refused() {
    let input = "name: a\nversion: 1\nrelease: 1\nhomepage: h\nlicense: MIT\npaths:\n    - /usr/bin/a : binary\n";
    assert_eq!(from_str(input).unwrap_err(), Error::InvalidPathKind("binary".to_owned()));
}

#[test]
fn broken_yaml_is_a_syntax_error() {
    assert!(matches!(from_str("name: [a").unwrap_err(), Error::Syntax(_)));
}

#[test]
fn sha1_check() {
    assert!(is_valid_sha1("85f8339d9c11caa203d79e6b10fd928a388d6466"));
    assert!(is_valid_sha1("85F8339D9C11CAA203D79E6B10FD928A388D6466"));
    assert!(!is_valid_sha1("85f8339d9c11caa203d79e6b10fd928a388d646"));
    assert!(!is_valid_sha1("v1.0.0"));
    assert!(!is_valid_sha1("85f8339d9c11caa203d79e6b10fd928a388d646g"));
}

const BOULDER_STONE: &str = r#"
name        : boulder
version     : 0.1.0
release     : 3
homepage    : https://github.com/serpent-os/moss
upstreams   :
    - git|https://github.com/serpent-os/moss.git : 0123456789abcdef0123456789abcdef01234567
summary     : Package build tool
description : |
    Builds packages from stone recipes.
license     : MPL-2.0
builddeps   :
    - binary(cargo)
    - pkgconfig(dbus-1)
build       : |
    %cargo_fetch
    %cargo_build
install     : |
    %cargo_install boulder
tuning      :
    - optimize: speed
    - lto: thin
"#;

const LLVM_STONE: &str = r#"
name        : llvm
version     : 18.1.8
release     : 40
homepage    : https://www.llvm.org
upstreams   :
    - https://github.com/llvm/llvm-project/releases/download/llvmorg-18.1.8/llvm-project-18.1.8.src.tar.xz : 0b58557a6d32ceee97c8d533a59b9212d87e0fc4d2833924eb6c611247db2f2a
summary     : LLVM compiler toolchain
description : |
    Low Level Virtual Machine
license     :
    - Apache-2.0 WITH LLVM-exception
emul32      : true
builddeps   :
    - binary(cmake)
    - binary(ninja)
setup       : |
    %cmake_ninja -DLLVM_ENABLE_PROJECTS="clang;lld"
build       : |
    %ninja_build
install     : |
    %ninja_install
profiles    :
    - emul32:
        setup: |
            %cmake_ninja -DLLVM_LIBDIR_SUFFIX=32
packages    :
    - "%(name)-devel":
        summary: Development files for LLVM
        paths:
            - /usr/include
            - /usr/lib/cmake
    - "clang":
        summary: Clang compiler
        rundeps:
            - "%(name)-devel"
        paths:
            - /usr/bin/clang*
"#;

#[test]
fn lib_deserialize() {
    let inputs = [BOULDER_STONE.as_bytes(), LLVM_STONE.as_bytes()];

    for input in inputs {
        let recipe = from_slice(input).unwrap();
        assert!(!recipe.source.name.is_empty());
    }
}

#[test]
fn tagged_values_read_without_their_tags() {
    let input = "\nname: !custom test-pkg\nversion: 1.0.0\nrelease: 1\nlicense: MIT\nhomepage: https://example.com\n";
    let r = from_str(input).unwrap();
    assert_eq!(r.source.name, "test-pkg");
}

#[test]
fn broken_bytes_are_a_syntax_error() {
    assert!(matches!(from_slice(b"name: [unclosed"), Err(Error::Syntax(_))));
}
