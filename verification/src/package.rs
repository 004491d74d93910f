//! Deciding which files of an install tree go into packages.

use vstd::prelude::*;
use crate::draft::spec_path_file_name;
use crate::text::{chars_of, contains_sub, has_sub, lines, lines_of, range_equals, string_of, words, words_of};
use crate::vfs::{path_components, std_components};

verus! {

/// A file of the install tree: where it is on the host, and the path it will have on the
/// target system.
#[derive(Debug, Clone)]
pub struct PathInfo {
    /// Where the file is on the host, in the install tree.
    pub path: String,
    /// Where the file will be on the target system.
    pub target_path: String,
}

/// What a handler decided about a file.
#[derive(Debug, Clone, PartialEq, Eq)]
pub enum Decision {
    /// Leave the file to the next handler.
    NextHandler,
    /// Leave the file out of every package, for the given reason.
    IgnoreFile { reason: String },
    /// Put the file into a package.
    IncludeFile,
}

/// Whether `path` starts with the components of `base`, as `Path::starts_with` does.
pub open spec fn path_starts_with(path: Seq<char>, base: Seq<char>) -> bool {
    let pc = std_components(path);
    let bc = std_components(base);
    bc.len() <= pc.len() && pc.subrange(0, bc.len() as int) == bc
}

/// Whether `path` starts with the components of `base`.
pub fn starts_with_path(path: &str, base: &str) -> (b: bool)
    ensures
        b == path_starts_with(path@, base@),
{
    let pc = path_components(path);
    let bc = path_components(base);
    let ghost pv = pc@.map_values(|s: String| s@);
    let ghost bv = bc@.map_values(|s: String| s@);
    if bc.len() > pc.len() {
        return false;
    }
    let mut i: usize = 0;
    while i < bc.len()
        invariant
            pv == pc@.map_values(|s: String| s@),
            bv == bc@.map_values(|s: String| s@),
            pv == std_components(path@),
            bv == std_components(base@),
            bc@.len() <= pc@.len(),
            i <= bc@.len(),
            pv.subrange(0, i as int) == bv.subrange(0, i as int),
        decreases bc@.len() - i,
    {
        assert(pv[i as int] == pc@[i as int]@);
        assert(bv[i as int] == bc@[i as int]@);
        if !crate::text::str_eq(pc[i].as_str(), bc[i].as_str()) {
            assert(pv.subrange(0, bv.len() as int)[i as int] != bv[i as int]);
            return false;
        }
        assert(pv.subrange(0, i + 1) =~= pv.subrange(0, i as int).push(pv[i as int]));
        assert(bv.subrange(0, i + 1) =~= bv.subrange(0, i as int).push(bv[i as int]));
        i += 1;
    }
    assert(bv.subrange(0, bv.len() as int) =~= bv);
    true
}

impl PathInfo {
    /// The file name of the target path.
    pub fn file_name(&self) -> (s: String)
        ensures
            s@ == spec_path_file_name(self.target_path@),
    {
        let f = crate::draft::File { path: self.target_path.clone(), extract_root: String::new() };
        f.file_name()
    }
}

/// Every file goes into a package.
pub fn include_any(_info: &PathInfo) -> (d: Decision)
    ensures
        d == Decision::IncludeFile,
{
    Decision::IncludeFile
}

/// The decision of [`ignore_blocked`]: files outside `/usr` are ignored, and so are
/// libtool archives (`.la`) under `/usr/lib` or `/usr/lib32`; the rest goes on to the
/// next handler.
pub open spec fn spec_ignore_blocked(target: Seq<char>) -> Option<Seq<char>> {
    if !path_starts_with(target, "/usr"@) {
        Some("non /usr/ file"@)
    } else if spec_path_file_name(target).len() >= 3 && spec_path_file_name(target).subrange(
        spec_path_file_name(target).len() - 3,
        spec_path_file_name(target).len() as int,
    ) == ".la"@ && (path_starts_with(target, "/usr/lib"@) || path_starts_with(
        target,
        "/usr/lib32"@,
    )) {
        Some("libtool file"@)
    } else {
        None
    }
}

/// Ignores files that must not be packaged: those outside `/usr`, and libtool
/// archives in the library directories.
pub fn ignore_blocked(info: &PathInfo) -> (d: Decision)
    ensures
        match spec_ignore_blocked(info.target_path@) {
            Some(reason) => d matches Decision::IgnoreFile { reason: r } && r@ == reason,
            None => d == Decision::NextHandler,
        },
{
    if !starts_with_path(info.target_path.as_str(), "/usr") {
        return Decision::IgnoreFile { reason: "non /usr/ file".to_owned() };
    }
    let name = crate::text::chars_of(info.file_name().as_str());
    let la = crate::text::chars_of(".la");
    proof {
        reveal_strlit(".la");
    }
    let n = name.len();
    let is_la = n >= 3 && crate::text::range_equals(&name, n - 3, n, &la);
    if is_la && (starts_with_path(info.target_path.as_str(), "/usr/lib") || starts_with_path(
        info.target_path.as_str(),
        "/usr/lib32",
    )) {
        return Decision::IgnoreFile { reason: "libtool file".to_owned() };
    }
    Decision::NextHandler
}

/// The kind of a capability that a package provides, or that it depends on.
#[derive(Debug, Clone, Copy, PartialEq, Eq, Structural)]
pub enum ProviderKind {
    Binary,
    SystemBinary,
    PkgConfig,
    PkgConfig32,
    CMake,
    Python,
}

/// A capability that a package provides.
#[derive(Debug, Clone)]
pub struct Provider {
    pub kind: ProviderKind,
    pub name: String,
}

/// Whether `s` ends with `suffix`.
pub open spec fn ends_with(s: Seq<char>, suffix: Seq<char>) -> bool {
    suffix.len() <= s.len() && s.subrange(s.len() - suffix.len(), s.len() as int) == suffix
}

/// Whether `s` ends with `suffix`.
fn ends_with_str(s: &Vec<char>, suffix: &str) -> (b: bool)
    ensures
        b == ends_with(s@, suffix@),
{
    let x = chars_of(suffix);
    if x.len() > s.len() {
        return false;
    }
    range_equals(s, s.len() - x.len(), s.len(), &x)
}

/// Whether `name` is one of the components of `path`.
pub open spec fn has_component(path: Seq<char>, name: Seq<char>) -> bool {
    std_components(path).contains(name)
}

/// Whether `name` is one of the components of `path`.
fn component_in(path: &str, name: &str) -> (b: bool)
    ensures
        b == has_component(path@, name@),
{
    let cs = path_components(path);
    let ghost cv = cs@.map_values(|c: String| c@);
    let mut i: usize = 0;
    while i < cs.len()
        invariant
            i <= cs@.len(),
            cv == cs@.map_values(|c: String| c@),
            cv == std_components(path@),
            forall|j: int| 0 <= j < i ==> cv[j] != name@,
        decreases cs@.len() - i,
    {
        assert(cv[i as int] == cs@[i as int]@);
        if crate::text::str_eq(cs[i].as_str(), name) {
            return true;
        }
        i += 1;
    }
    false
}

/// The binary that a file provides: a program in `/usr/bin`, or a system program in
/// `/usr/sbin`, by its file name.
pub open spec fn spec_binary(target: Seq<char>) -> Option<(ProviderKind, Seq<char>)> {
    if path_starts_with(target, "/usr/bin"@) {
        Some((ProviderKind::Binary, spec_path_file_name(target)))
    } else if path_starts_with(target, "/usr/sbin"@) {
        Some((ProviderKind::SystemBinary, spec_path_file_name(target)))
    } else {
        None
    }
}

/// The binary that a file provides, if it is a program.
pub fn binary(info: &PathInfo) -> (r: Option<Provider>)
    ensures
        match spec_binary(info.target_path@) {
            Some((k, n)) => r matches Some(p) && p.kind == k && p.name@ == n,
            None => r is None,
        },
{
    if starts_with_path(info.target_path.as_str(), "/usr/bin") {
        Some(Provider { kind: ProviderKind::Binary, name: info.file_name() })
    } else if starts_with_path(info.target_path.as_str(), "/usr/sbin") {
        Some(Provider { kind: ProviderKind::SystemBinary, name: info.file_name() })
    } else {
        None
    }
}

/// The pkg-config module that a file provides: a `.pc` file under a `pkgconfig`
/// directory, named without the extension; a 32-bit one under a `lib32` directory.
pub open spec fn spec_pkg_config(target: Seq<char>) -> Option<(ProviderKind, Seq<char>)> {
    let name = spec_path_file_name(target);
    if has_component(target, "pkgconfig"@) && ends_with(name, ".pc"@) {
        Some(
            (
                if has_component(target, "lib32"@) {
                    ProviderKind::PkgConfig32
                } else {
                    ProviderKind::PkgConfig
                },
                name.subrange(0, name.len() - 3),
            ),
        )
    } else {
        None
    }
}

/// The pkg-config module that a file provides, if it is one.
pub fn pkg_config(info: &PathInfo) -> (r: Option<Provider>)
    ensures
        match spec_pkg_config(info.target_path@) {
            Some((k, n)) => r matches Some(p) && p.kind == k && p.name@ == n,
            None => r is None,
        },
{
    let name = chars_of(info.file_name().as_str());
    proof {
        reveal_strlit(".pc");
    }
    if !component_in(info.target_path.as_str(), "pkgconfig") || !ends_with_str(&name, ".pc") {
        return None;
    }
    let kind = if component_in(info.target_path.as_str(), "lib32") {
        ProviderKind::PkgConfig32
    } else {
        ProviderKind::PkgConfig
    };
    let base = crate::text::string_of_range(&name, 0, name.len() - 3);
    Some(Provider { kind, name: base })
}

/// The kind of a pkg-config module that a 32-bit module depends on: 32-bit where the
/// module is found beside it or among the 32-bit modules.
pub open spec fn spec_pkg_config_dep_kind(emul32: bool, beside: bool, in_lib32: bool) -> ProviderKind {
    if emul32 && (beside || in_lib32) {
        ProviderKind::PkgConfig32
    } else {
        ProviderKind::PkgConfig
    }
}

/// The kind of a pkg-config module that a module depends on.
pub fn pkg_config_dep_kind(emul32: bool, beside: bool, in_lib32: bool) -> (k: ProviderKind)
    ensures
        k == spec_pkg_config_dep_kind(emul32, beside, in_lib32),
{
    if emul32 && (beside || in_lib32) {
        ProviderKind::PkgConfig32
    } else {
        ProviderKind::PkgConfig
    }
}

/// The modules that the output of `pkg-config --print-requires` names: the first word
/// of each line that has one, in order.
pub open spec fn first_words(ls: Seq<Seq<char>>) -> Seq<Seq<char>>
    decreases ls.len(),
{
    if ls.len() == 0 {
        Seq::empty()
    } else {
        let rest = first_words(ls.drop_last());
        let ws = words_of(ls.last());
        if ws.len() > 0 {
            rest.push(ws[0])
        } else {
            rest
        }
    }
}

/// The modules that the output of `pkg-config --print-requires` names, in order.
pub fn pkg_config_requires(output: &str) -> (r: Vec<String>)
    ensures
        r@.map_values(|s: String| s@) == first_words(lines_of(output@)),
{
    let cs = chars_of(output);
    let ls = lines(&cs);
    let ghost lv = ls@.map_values(|l: Vec<char>| l@);
    let mut out: Vec<String> = Vec::new();
    let mut i: usize = 0;
    assert(lv.take(0) =~= Seq::<Seq<char>>::empty());
    while i < ls.len()
        invariant
            i <= ls@.len(),
            lv == ls@.map_values(|l: Vec<char>| l@),
            lv == lines_of(cs@),
            out@.map_values(|s: String| s@) == first_words(lv.take(i as int)),
        decreases ls@.len() - i,
    {
        assert(lv.take(i + 1).drop_last() =~= lv.take(i as int));
        assert(lv.take(i + 1).last() == ls@[i as int]@);
        let ws = words(&ls[i]);
        if ws.len() > 0 {
            let ghost before = out@.map_values(|s: String| s@);
            let w = string_of(ws[0].as_slice());
            out.push(w);
            assert(ws@.map_values(|w: Vec<char>| w@)[0] == ws@[0]@);
            assert(out@.map_values(|s: String| s@) =~= before.push(ws@[0]@));
        }
        i += 1;
    }
    assert(lv.take(i as int) =~= lv);
    out
}

/// The CMake package that a file provides: a `Config.cmake` or `-config.cmake` file
/// (but not a `-Config.cmake` one), named without that ending.
pub open spec fn spec_cmake(name: Seq<char>) -> Option<Seq<char>> {
    if (!ends_with(name, "Config.cmake"@) && !ends_with(name, "-config.cmake"@)) || ends_with(
        name,
        "-Config.cmake"@,
    ) {
        None
    } else if ends_with(name, "Config.cmake"@) {
        Some(name.subrange(0, name.len() - 12))
    } else {
        Some(name.subrange(0, name.len() - 13))
    }
}

/// The CMake package that a file provides, if it is one.
pub fn cmake(info: &PathInfo) -> (r: Option<Provider>)
    ensures
        match spec_cmake(spec_path_file_name(info.target_path@)) {
            Some(n) => r matches Some(p) && p.kind == ProviderKind::CMake && p.name@ == n,
            None => r is None,
        },
{
    let name = chars_of(info.file_name().as_str());
    proof {
        reveal_strlit("Config.cmake");
        reveal_strlit("-config.cmake");
    }
    let upper = ends_with_str(&name, "Config.cmake");
    let lower = ends_with_str(&name, "-config.cmake");
    if (!upper && !lower) || ends_with_str(&name, "-Config.cmake") {
        return None;
    }
    let cut = if upper {
        12
    } else {
        13
    };
    let base = crate::text::string_of_range(&name, 0, name.len() - cut);
    Some(Provider { kind: ProviderKind::CMake, name: base })
}

/// The file name of the host path of a file.
fn host_file_name(info: &PathInfo) -> (s: String)
    ensures
        s@ == spec_path_file_name(info.path@),
{
    let f = crate::draft::File { path: info.path.clone(), extract_root: String::new() };
    f.file_name()
}

/// Whether a file holds the metadata of a Python package: by its host path, a `METADATA`
/// file in a `.dist-info` directory, or a `PKG-INFO` file in an `.egg-info` one.
pub open spec fn spec_python_metadata(path: Seq<char>) -> bool {
    (has_sub(path, ".dist-info"@) && ends_with(spec_path_file_name(path), "METADATA"@)) || (has_sub(
        path,
        ".egg-info"@,
    ) && ends_with(spec_path_file_name(path), "PKG-INFO"@))
}

/// Whether a file holds the metadata of a Python package.
pub fn python_metadata(info: &PathInfo) -> (b: bool)
    ensures
        b == spec_python_metadata(info.path@),
{
    let path = chars_of(info.path.as_str());
    let name = chars_of(host_file_name(info).as_str());
    let dist = chars_of(".dist-info");
    let egg = chars_of(".egg-info");
    (contains_sub(&path, &dist) && ends_with_str(&name, "METADATA")) || (contains_sub(&path, &egg)
        && ends_with_str(&name, "PKG-INFO"))
}

/// Whether a file is a manual page or an info page, which packages hold compressed: by
/// its host path, a file under a `man` directory whose name ends in a section digit
/// from 1 to 8, or an `.info` file under an `info` directory.
pub open spec fn spec_compressible(path: Seq<char>) -> bool {
    let name = spec_path_file_name(path);
    (has_component(path, "man"@) && name.len() > 0 && '1' <= name.last() < '9') || (has_component(
        path,
        "info"@,
    ) && ends_with(name, ".info"@))
}

/// Whether a file is a manual page or an info page.
pub fn compressible(info: &PathInfo) -> (b: bool)
    ensures
        b == spec_compressible(info.path@),
{
    let name = chars_of(host_file_name(info).as_str());
    let man = component_in(info.path.as_str(), "man") && name.len() > 0 && '1' <= name[name.len() - 1]
        && name[name.len() - 1] < '9';
    man || (component_in(info.path.as_str(), "info") && ends_with_str(&name, ".info"))
}

/// A file under a `man` directory whose name ends in any section digit from `1` to `8`
/// is compressed.
pub proof fn law_man_pages_compressible(path: Seq<char>)
    requires
        has_component(path, "man"@),
        spec_path_file_name(path).len() > 0,
        '1' <= spec_path_file_name(path).last() <= '8',
    ensures
        spec_compressible(path),
{
}

/// A file under an `info` directory whose name ends in `.info` is compressed.
pub proof fn law_info_pages_compressible(path: Seq<char>)
    requires
        has_component(path, "info"@),
        ends_with(spec_path_file_name(path), ".info"@),
    ensures
        spec_compressible(path),
{
}

/// A file under neither a `man` nor an `info` directory is never compressed, nor is
/// one under a `man` directory alone whose name does not end in a section digit from
/// `1` to `8`.
pub proof fn law_other_files_uncompressed(path: Seq<char>)
    ensures
        !has_component(path, "man"@) && !has_component(path, "info"@) ==> !spec_compressible(path),
        !has_component(path, "info"@) && (spec_path_file_name(path).len() == 0 || !('1'
            <= spec_path_file_name(path).last() <= '8')) ==> !spec_compressible(path),
{
}

} // verus!
