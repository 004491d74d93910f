use boulder::stone_recipe::decode::Error;
use boulder::builder::tuning::default_tuning_groups;
use boulder::stone_recipe::macros::{from_slice, BuiltinDefinition};
use boulder::stone_recipe::recipe::KeyValue;

const MACROS: &str = r#"
actions:
  - cmake:
      description: Perform cmake with the default options
      example: "%cmake ."
      command: |
        cmake -G Ninja
      dependencies:
        - binary(cmake)
        - binary(ninja)
  - make:
      description: Run make
      command: make
definitions:
  - name: foo
  - libdir: "%(prefix)/lib"
flags:
  - harden:
      c: "-fstack-protector"
tuning:
  - optimize:
      default: speed
  - harden: {}
defaultTuningGroups:
  - base
  - optimize
"#;

#[test]
fn macros_read_every_part() {
    let m = from_slice(MACROS.as_bytes()).unwrap();
    assert_eq!(m.actions.len(), 2);
    assert_eq!(m.actions[0].key, "cmake");
    assert_eq!(m.actions[0].value.description, "Perform cmake with the default options");
    assert_eq!(m.actions[0].value.example.as_deref(), Some("%cmake ."));
    assert_eq!(m.actions[0].value.command, "cmake -G Ninja\n");
    assert_eq!(m.actions[0].value.dependencies, vec!["binary(cmake)", "binary(ninja)"]);
    assert_eq!(m.actions[1].key, "make");
    assert_eq!(m.actions[1].value.example, None);
    assert!(m.actions[1].value.dependencies.is_empty());
    let defs: Vec<(&str, &str)> = m
        .definitions
        .iter()
        .map(|kv| (kv.key.as_str(), kv.value.as_str()))
        .collect();
    assert_eq!(defs, vec![("name", "foo"), ("libdir", "%(prefix)/lib")]);
    assert_eq!(m.flags.len(), 1);
    assert_eq!(m.tuning.len(), 2);
    assert!(m.packages.is_empty());
    assert_eq!(m.default_tuning_groups, vec!["base", "optimize"]);
}

#[test]
fn macros_empty_document_parts() {
    let m = from_slice(b"definitions: []\n").unwrap();
    assert!(m.actions.is_empty());
    assert!(m.definitions.is_empty());
    assert!(m.default_tuning_groups.is_empty());
}

#[test]
fn macros_reject_non_text_definition() {
    let r = from_slice(b"definitions:\n  - name: [1, 2]\n");
    assert_eq!(r.unwrap_err(), Error::InvalidType("definitions".to_owned()));
}

#[test]
fn macros_action_needs_command() {
    let r = from_slice(b"actions:\n  - make:\n      description: Run make\n");
    assert_eq!(r.unwrap_err(), Error::MissingField("command".to_owned()));
}

#[test]
fn macros_flags_must_be_a_list() {
    let r = from_slice(b"flags: 3\n");
    assert_eq!(r.unwrap_err(), Error::InvalidType("flags".to_owned()));
}

#[test]
fn builtin_definition_details() {
    assert_eq!(BuiltinDefinition::Jobs.name(), "jobs");
    let d = BuiltinDefinition::PkgDir.details();
    assert_eq!(d.name, "pkgdir");
    assert_eq!(d.example, "%patch %(pkgdir)/some.patch");
    assert_eq!(
        BuiltinDefinition::SourceDateEpoch.details().description,
        "The canonical timestamp for when a recipe was built."
    );
}

const BASE_MACROS: &str = r#"
actions:
  - configure:
      description: Perform ./configure with the default options
      example: "%configure --with-some-option"
      command: |
        test -x ./configure || ( echo "%%configure: The ./configure script could not be found" ; exit 1 )
        ./configure %(options_configure)
      dependencies:
        - autoconf
        - automake
  - make:
      description: Perform a make
      command: |
        make %(options_make)
definitions:
  - prefix: /usr
  - bindir: "%(prefix)/bin"
  - options_configure: --prefix="%(prefix)"
flags:
  - omit-frame-pointer:
      c: -fno-omit-frame-pointer
      cxx: -fno-omit-frame-pointer
tuning:
  - base:
      enabled: [omit-frame-pointer]
defaultTuningGroups:
  - base
"#;

const CMAKE_MACROS: &str = r#"
actions:
  - cmake:
      description: Perform cmake with the default options
      command: |
        cmake %(options_cmake)
      dependencies:
        - binary(cmake)
  - cmake_build:
      description: Build the cmake project
      command: |
        ninja -v -j "%(jobs)" -C "%(builddir)"
definitions:
  - builddir: serpent_builddir
"#;

#[test]
fn macros_deserialize() {
    let inputs = [BASE_MACROS.as_bytes(), CMAKE_MACROS.as_bytes()];

    for input in inputs {
        let macros = from_slice(input).unwrap();
        assert!(!macros.actions.is_empty());
    }
}

#[test]
fn default_tuning_groups_fall_back_to_base() {
    let archs = vec![
        KeyValue {
            key: "base".to_owned(),
            value: from_slice(b"defaultTuningGroups: [base, optimize]\n").unwrap(),
        },
        KeyValue {
            key: "x86_64".to_owned(),
            value: from_slice(b"definitions: []\n").unwrap(),
        },
        KeyValue {
            key: "aarch64".to_owned(),
            value: from_slice(b"defaultTuningGroups: [lto]\n").unwrap(),
        },
    ];
    assert_eq!(default_tuning_groups("x86_64", &archs), &["base", "optimize"]);
    assert_eq!(default_tuning_groups("aarch64", &archs), &["lto"]);
    assert_eq!(default_tuning_groups("riscv64", &archs), &["base", "optimize"]);
    let bare = vec![KeyValue {
        key: "x86_64".to_owned(),
        value: from_slice(b"definitions: []\n").unwrap(),
    }];
    assert!(default_tuning_groups("riscv64", &bare).is_empty());
    assert!(default_tuning_groups("x86_64", &bare).is_empty());
}
