use boulder::cli::replace_aliases;
use boulder::draft::licenses::{builddeps, format_licenses};

fn args(v: &[&str]) -> Vec<String> {
    v.iter().map(|s| s.to_string()).collect()
}

#[test]
fn aliases_are_expanded() {
    assert_eq!(
        replace_aliases(args(&["boulder", "bump", "stone.yaml"])),
        args(&["boulder", "recipe", "bump", "stone.yaml"])
    );
    assert_eq!(replace_aliases(args(&["boulder", "up"])), args(&["boulder", "recipe", "update"]));
    assert_eq!(
        replace_aliases(args(&["boulder", "-v", "macros"])),
        args(&["boulder", "-v", "recipe", "macros"])
    );
}

#[test]
fn alias_after_recipe_is_kept() {
    assert_eq!(
        replace_aliases(args(&["boulder", "recipe", "bump"])),
        args(&["boulder", "recipe", "bump"])
    );
    // `bump` names the inner subcommand, so `new` is tried next
    assert_eq!(
        replace_aliases(args(&["boulder", "recipe", "bump", "new"])),
        args(&["boulder", "recipe", "bump", "recipe", "new"])
    );
    assert_eq!(replace_aliases(args(&["boulder", "build"])), args(&["boulder", "build"]));
}

#[test]
fn only_the_first_alias_is_expanded() {
    assert_eq!(
        replace_aliases(args(&["boulder", "macros", "bump"])),
        args(&["boulder", "macros", "recipe", "bump"])
    );
}

#[test]
fn licenses_are_sorted_with_only_variants_last() {
    assert_eq!(
        format_licenses(args(&["MIT", "GPL-2.0-only", "Apache-2.0"])),
        "\n    - Apache-2.0\n    - MIT\n    - GPL-2.0-only"
    );
    assert_eq!(
        format_licenses(args(&["GPL-3.0-only", "GPL-3.0-or-later"])),
        "\n    - GPL-3.0-or-later\n    - GPL-3.0-only"
    );
    assert_eq!(format_licenses(args(&["BSD-3-Clause"])), "\n    - BSD-3-Clause");
}

#[test]
fn no_licenses_asks_for_an_update() {
    assert_eq!(format_licenses(vec![]), "UPDATE LICENSE");
}

#[test]
fn build_dependencies_are_sorted() {
    assert_eq!(
        builddeps(args(&["pkgconfig(zlib)", "binary(meson)", "binary(cmake)"])),
        "builddeps   :\n    - binary(cmake)\n    - binary(meson)\n    - pkgconfig(zlib)\n"
    );
    assert_eq!(builddeps(vec![]), "");
}
