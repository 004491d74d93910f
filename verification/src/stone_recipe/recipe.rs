//! The parts of a recipe, and how they are read from its YAML document.

use vstd::prelude::*;
use crate::names::{lex_lt, names_lt};
use crate::stone_recipe::decode::{
    agrees, bool_field, d_all, d_bool_field, d_force_text, d_list_text, d_opt_text, d_req_text,
    d_single_or_list, d_unsigned_field, field, force_text, lookup, truthy, lemma_d_all_step, list_text, opt_text,
    req_text, single_or_list, unsigned_field, Error, ErrorView,
};
use crate::stone_recipe::upstream::{d_upstream, upstream, Upstream, UpstreamView};
use crate::stone_recipe::yaml::Yaml;
use crate::text::str_eq;

verus! {

/// A named value: an entry of a single-entry mapping.
#[derive(Debug, Clone)]
pub struct KeyValue<T> {
    pub key: String,
    pub value: T,
}

/// The mathematical value of a [`KeyValue`].
pub struct KeyValueView<V> {
    pub key: Seq<char>,
    pub value: V,
}

impl<T: DeepView> DeepView for KeyValue<T> {
    type V = KeyValueView<T::V>;

    open spec fn deep_view(&self) -> KeyValueView<T::V> {
        KeyValueView { key: self.key@, value: self.value.deep_view() }
    }
}

/// What a recipe builds.
#[derive(Debug, Clone)]
pub struct Source {
    pub name: String,
    pub version: String,
    pub release: u64,
    pub homepage: String,
    pub license: Vec<String>,
}

/// The mathematical value of a [`Source`].
pub struct SourceView {
    pub name: Seq<char>,
    pub version: Seq<char>,
    pub release: u64,
    pub homepage: Seq<char>,
    pub license: Seq<Seq<char>>,
}

impl DeepView for Source {
    type V = SourceView;

    open spec fn deep_view(&self) -> SourceView {
        SourceView {
            name: self.name@,
            version: self.version@,
            release: self.release,
            homepage: self.homepage@,
            license: self.license.deep_view(),
        }
    }
}

/// The build steps of a recipe or of one of its profiles.
#[derive(Debug, Clone)]
pub struct Build {
    pub setup: Option<String>,
    pub build: Option<String>,
    pub install: Option<String>,
    pub check: Option<String>,
    pub workload: Option<String>,
    pub environment: Option<String>,
    pub build_deps: Vec<String>,
    pub check_deps: Vec<String>,
}

/// The mathematical value of a [`Build`].
pub struct BuildView {
    pub setup: Option<Seq<char>>,
    pub build: Option<Seq<char>>,
    pub install: Option<Seq<char>>,
    pub check: Option<Seq<char>>,
    pub workload: Option<Seq<char>>,
    pub environment: Option<Seq<char>>,
    pub build_deps: Seq<Seq<char>>,
    pub check_deps: Seq<Seq<char>>,
}

impl DeepView for Build {
    type V = BuildView;

    open spec fn deep_view(&self) -> BuildView {
        BuildView {
            setup: self.setup.deep_view(),
            build: self.build.deep_view(),
            install: self.install.deep_view(),
            check: self.check.deep_view(),
            workload: self.workload.deep_view(),
            environment: self.environment.deep_view(),
            build_deps: self.build_deps.deep_view(),
            check_deps: self.check_deps.deep_view(),
        }
    }
}

/// The options of a build.
#[derive(Debug, Clone)]
pub struct Options {
    pub toolchain: Option<String>,
    pub cspgo: bool,
    pub samplepgo: bool,
    pub strip: bool,
    pub networking: bool,
    pub compressman: bool,
}

/// The mathematical value of [`Options`].
pub struct OptionsView {
    pub toolchain: Option<Seq<char>>,
    pub cspgo: bool,
    pub samplepgo: bool,
    pub strip: bool,
    pub networking: bool,
    pub compressman: bool,
}

impl DeepView for Options {
    type V = OptionsView;

    open spec fn deep_view(&self) -> OptionsView {
        OptionsView {
            toolchain: self.toolchain.deep_view(),
            cspgo: self.cspgo,
            samplepgo: self.samplepgo,
            strip: self.strip,
            networking: self.networking,
            compressman: self.compressman,
        }
    }
}

/// The kind of file that a package path stands for.
#[derive(Debug, Clone, Copy, PartialEq, Eq, Structural)]
pub enum PathKind {
    Any,
    Exe,
    Symlink,
    Special,
}

impl Default for PathKind {
    fn default() -> (k: Self)
        ensures
            k == PathKind::Any,
    {
        PathKind::Any
    }
}

/// A path of a package, with the kind of file it stands for.
#[derive(Debug, Clone, PartialEq, Eq)]
pub struct Path {
    pub path: String,
    pub kind: PathKind,
}

/// The mathematical value of a [`Path`].
pub struct PathView {
    pub path: Seq<char>,
    pub kind: PathKind,
}

impl DeepView for Path {
    type V = PathView;

    open spec fn deep_view(&self) -> PathView {
        PathView { path: self.path@, kind: self.kind }
    }
}

/// A package that a recipe produces.
#[derive(Debug, Clone)]
pub struct Package {
    pub summary: Option<String>,
    pub description: Option<String>,
    pub run_deps: Vec<String>,
    pub paths: Vec<Path>,
    pub conflicts: Vec<String>,
}

/// The mathematical value of a [`Package`].
pub struct PackageView {
    pub summary: Option<Seq<char>>,
    pub description: Option<Seq<char>>,
    pub run_deps: Seq<Seq<char>>,
    pub paths: Seq<PathView>,
    pub conflicts: Seq<Seq<char>>,
}

impl DeepView for Package {
    type V = PackageView;

    open spec fn deep_view(&self) -> PackageView {
        PackageView {
            summary: self.summary.deep_view(),
            description: self.description.deep_view(),
            run_deps: self.run_deps.deep_view(),
            paths: self.paths.deep_view(),
            conflicts: self.conflicts.deep_view(),
        }
    }
}

/// A stone recipe.
#[derive(Debug)]
pub struct Recipe {
    pub source: Source,
    pub build: Build,
    pub package: Package,
    pub options: Options,
    pub profiles: Vec<KeyValue<Build>>,
    pub sub_packages: Vec<KeyValue<Package>>,
    pub upstreams: Vec<Upstream>,
    pub architectures: Vec<String>,
    /// The tuning entries, as they stand in the document.
    pub tuning: Vec<Yaml>,
    pub emul32: bool,
    pub mold: bool,
}

/// The mathematical value of a [`Recipe`].
pub struct RecipeView {
    pub source: SourceView,
    pub build: BuildView,
    pub package: PackageView,
    pub options: OptionsView,
    pub profiles: Seq<KeyValueView<BuildView>>,
    pub sub_packages: Seq<KeyValueView<PackageView>>,
    pub upstreams: Seq<UpstreamView>,
    pub architectures: Seq<Seq<char>>,
    pub tuning: Seq<Yaml>,
    pub emul32: bool,
    pub mold: bool,
}

impl DeepView for Recipe {
    type V = RecipeView;

    open spec fn deep_view(&self) -> RecipeView {
        RecipeView {
            source: self.source.deep_view(),
            build: self.build.deep_view(),
            package: self.package.deep_view(),
            options: self.options.deep_view(),
            profiles: self.profiles.deep_view(),
            sub_packages: self.sub_packages.deep_view(),
            upstreams: self.upstreams.deep_view(),
            architectures: self.architectures.deep_view(),
            tuning: self.tuning@,
            emul32: self.emul32,
            mold: self.mold,
        }
    }
}

/// The source fields of a recipe mapping.
pub open spec fn d_source(es: Seq<(Yaml, Yaml)>) -> Result<SourceView, ErrorView> {
    let name = d_req_text(es, "name"@);
    let version = d_force_text(es, "version"@);
    let release = d_unsigned_field(es, "release"@);
    let homepage = d_req_text(es, "homepage"@);
    let license = d_single_or_list(es, "license"@);
    if name is Err {
        Err(name->Err_0)
    } else if version is Err {
        Err(version->Err_0)
    } else if release is Err {
        Err(release->Err_0)
    } else if homepage is Err {
        Err(homepage->Err_0)
    } else if license is Err {
        Err(license->Err_0)
    } else {
        Ok(
            SourceView {
                name: name->Ok_0,
                version: version->Ok_0,
                release: release->Ok_0,
                homepage: homepage->Ok_0,
                license: license->Ok_0,
            },
        )
    }
}

/// Reads the source fields of a recipe mapping.
pub fn source(es: &Vec<(Yaml, Yaml)>) -> (r: Result<Source, Error>)
    ensures
        agrees(r, d_source(es@)),
{
    let name = match req_text(es, "name") {
        Ok(v) => v,
        Err(e) => return Err(e),
    };
    let version = match force_text(es, "version") {
        Ok(v) => v,
        Err(e) => return Err(e),
    };
    let release = match unsigned_field(es, "release") {
        Ok(v) => v,
        Err(e) => return Err(e),
    };
    let homepage = match req_text(es, "homepage") {
        Ok(v) => v,
        Err(e) => return Err(e),
    };
    let license = match single_or_list(es, "license") {
        Ok(v) => v,
        Err(e) => return Err(e),
    };
    Ok(Source { name, version, release, homepage, license })
}

/// The build fields of a mapping.
pub open spec fn d_build(es: Seq<(Yaml, Yaml)>) -> Result<BuildView, ErrorView> {
    let setup = d_opt_text(es, "setup"@);
    let build = d_opt_text(es, "build"@);
    let install = d_opt_text(es, "install"@);
    let check = d_opt_text(es, "check"@);
    let workload = d_opt_text(es, "workload"@);
    let environment = d_opt_text(es, "environment"@);
    let build_deps = d_list_text(es, "builddeps"@);
    let check_deps = d_list_text(es, "checkdeps"@);
    if setup is Err {
        Err(setup->Err_0)
    } else if build is Err {
        Err(build->Err_0)
    } else if install is Err {
        Err(install->Err_0)
    } else if check is Err {
        Err(check->Err_0)
    } else if workload is Err {
        Err(workload->Err_0)
    } else if environment is Err {
        Err(environment->Err_0)
    } else if build_deps is Err {
        Err(build_deps->Err_0)
    } else if check_deps is Err {
        Err(check_deps->Err_0)
    } else {
        Ok(
            BuildView {
                setup: setup->Ok_0,
                build: build->Ok_0,
                install: install->Ok_0,
                check: check->Ok_0,
                workload: workload->Ok_0,
                environment: environment->Ok_0,
                build_deps: build_deps->Ok_0,
                check_deps: check_deps->Ok_0,
            },
        )
    }
}

/// Reads the build fields of a mapping.
pub fn build(es: &Vec<(Yaml, Yaml)>) -> (r: Result<Build, Error>)
    ensures
        agrees(r, d_build(es@)),
{
    let setup = match opt_text(es, "setup") {
        Ok(v) => v,
        Err(e) => return Err(e),
    };
    let build = match opt_text(es, "build") {
        Ok(v) => v,
        Err(e) => return Err(e),
    };
    let install = match opt_text(es, "install") {
        Ok(v) => v,
        Err(e) => return Err(e),
    };
    let check = match opt_text(es, "check") {
        Ok(v) => v,
        Err(e) => return Err(e),
    };
    let workload = match opt_text(es, "workload") {
        Ok(v) => v,
        Err(e) => return Err(e),
    };
    let environment = match opt_text(es, "environment") {
        Ok(v) => v,
        Err(e) => return Err(e),
    };
    let build_deps = match list_text(es, "builddeps") {
        Ok(v) => v,
        Err(e) => return Err(e),
    };
    let check_deps = match list_text(es, "checkdeps") {
        Ok(v) => v,
        Err(e) => return Err(e),
    };
    Ok(Build { setup, build, install, check, workload, environment, build_deps, check_deps })
}

/// The option fields of a recipe mapping; `strip` is on unless stated otherwise, the
/// others off.
pub open spec fn d_options(es: Seq<(Yaml, Yaml)>) -> Result<OptionsView, ErrorView> {
    let toolchain = d_opt_text(es, "toolchain"@);
    let cspgo = d_bool_field(es, "cspgo"@, false);
    let samplepgo = d_bool_field(es, "samplepgo"@, false);
    let strip = d_bool_field(es, "strip"@, true);
    let networking = d_bool_field(es, "networking"@, false);
    let compressman = d_bool_field(es, "compressman"@, false);
    if toolchain is Err {
        Err(toolchain->Err_0)
    } else if cspgo is Err {
        Err(cspgo->Err_0)
    } else if samplepgo is Err {
        Err(samplepgo->Err_0)
    } else if strip is Err {
        Err(strip->Err_0)
    } else if networking is Err {
        Err(networking->Err_0)
    } else if compressman is Err {
        Err(compressman->Err_0)
    } else {
        Ok(
            OptionsView {
                toolchain: toolchain->Ok_0,
                cspgo: cspgo->Ok_0,
                samplepgo: samplepgo->Ok_0,
                strip: strip->Ok_0,
                networking: networking->Ok_0,
                compressman: compressman->Ok_0,
            },
        )
    }
}

/// Reads the option fields of a recipe mapping.
pub fn options(es: &Vec<(Yaml, Yaml)>) -> (r: Result<Options, Error>)
    ensures
        agrees(r, d_options(es@)),
{
    let toolchain = match opt_text(es, "toolchain") {
        Ok(v) => v,
        Err(e) => return Err(e),
    };
    let cspgo = match bool_field(es, "cspgo", false) {
        Ok(v) => v,
        Err(e) => return Err(e),
    };
    let samplepgo = match bool_field(es, "samplepgo", false) {
        Ok(v) => v,
        Err(e) => return Err(e),
    };
    let strip = match bool_field(es, "strip", crate::stone_recipe::default_true()) {
        Ok(v) => v,
        Err(e) => return Err(e),
    };
    let networking = match bool_field(es, "networking", false) {
        Ok(v) => v,
        Err(e) => return Err(e),
    };
    let compressman = match bool_field(es, "compressman", false) {
        Ok(v) => v,
        Err(e) => return Err(e),
    };
    Ok(Options { toolchain, cspgo, samplepgo, strip, networking, compressman })
}

/// When the options of a recipe read, each is the value given under its own key: a boolean
/// option is the boolean written there, as a boolean or as a spelling of one, and where
/// the key is absent `strip` is on and `compressman`, `cspgo`, `samplepgo` and
/// `networking` are off; the toolchain is the text written under `toolchain`, and none
/// where that key is absent or null.
pub proof fn law_option_keys(es: Seq<(Yaml, Yaml)>)
    requires
        d_options(es) is Ok,
    ensures
        ({
            let o = d_options(es)->Ok_0;
            &&& lookup(es, "compressman"@) is None ==> !o.compressman
            &&& lookup(es, "compressman"@) matches Some(Yaml::Bool(b)) ==> o.compressman == b
            &&& lookup(es, "compressman"@) matches Some(Yaml::Str(t)) ==> (o.compressman <==> truthy(t@))
            &&& lookup(es, "cspgo"@) is None ==> !o.cspgo
            &&& lookup(es, "cspgo"@) matches Some(Yaml::Bool(b)) ==> o.cspgo == b
            &&& lookup(es, "cspgo"@) matches Some(Yaml::Str(t)) ==> (o.cspgo <==> truthy(t@))
            &&& lookup(es, "samplepgo"@) is None ==> !o.samplepgo
            &&& lookup(es, "samplepgo"@) matches Some(Yaml::Bool(b)) ==> o.samplepgo == b
            &&& lookup(es, "samplepgo"@) matches Some(Yaml::Str(t)) ==> (o.samplepgo <==> truthy(t@))
            &&& lookup(es, "networking"@) is None ==> !o.networking
            &&& lookup(es, "networking"@) matches Some(Yaml::Bool(b)) ==> o.networking == b
            &&& lookup(es, "networking"@) matches Some(Yaml::Str(t)) ==> (o.networking <==> truthy(t@))
            &&& lookup(es, "strip"@) is None ==> o.strip
            &&& lookup(es, "strip"@) matches Some(Yaml::Bool(b)) ==> o.strip == b
            &&& lookup(es, "strip"@) matches Some(Yaml::Str(t)) ==> (o.strip <==> truthy(t@))
            &&& (lookup(es, "toolchain"@) is None || lookup(es, "toolchain"@) == Some(Yaml::Null)) ==> o.toolchain is None
            &&& lookup(es, "toolchain"@) matches Some(Yaml::Str(t)) ==> o.toolchain == Some(t@)
        }),
{
}

/// The path kind that a name stands for: its lowercase spelling.
pub open spec fn d_path_kind(s: Seq<char>) -> Result<PathKind, ErrorView> {
    if s == "any"@ {
        Ok(PathKind::Any)
    } else if s == "exe"@ {
        Ok(PathKind::Exe)
    } else if s == "symlink"@ {
        Ok(PathKind::Symlink)
    } else if s == "special"@ {
        Ok(PathKind::Special)
    } else {
        Err(ErrorView::InvalidPathKind(s))
    }
}

impl PathKind {
    /// The path kind of the given name.
    pub fn from_name(s: &str) -> (r: Result<PathKind, Error>)
        ensures
            match r {
                Ok(k) => d_path_kind(s@) == Ok::<PathKind, ErrorView>(k),
                Err(e) => d_path_kind(s@) == Err::<PathKind, ErrorView>(e@),
            },
    {
        if str_eq(s, "any") {
            Ok(PathKind::Any)
        } else if str_eq(s, "exe") {
            Ok(PathKind::Exe)
        } else if str_eq(s, "symlink") {
            Ok(PathKind::Symlink)
        } else if str_eq(s, "special") {
            Ok(PathKind::Special)
        } else {
            Err(Error::InvalidPathKind(s.to_owned()))
        }
    }
}

/// An entry of a path mapping: the path, and the kind that its value names.
pub open spec fn d_path_entry(e: (Yaml, Yaml)) -> Result<PathView, ErrorView> {
    match (e.0, e.1) {
        (Yaml::Str(p), Yaml::Str(k)) => match d_path_kind(k@) {
            Ok(kind) => Ok(PathView { path: p@, kind }),
            Err(err) => Err(err),
        },
        _ => Err(ErrorView::InvalidType("paths"@)),
    }
}

/// [`d_path_entry`] as a function value.
pub open spec fn path_entry_decoder() -> spec_fn((Yaml, Yaml)) -> Result<PathView, ErrorView> {
    |e: (Yaml, Yaml)| d_path_entry(e)
}

/// The path that comes first, a later one replacing an earlier one with the same path.
pub open spec fn first_path(ps: Seq<PathView>) -> Option<PathView>
    decreases ps.len(),
{
    if ps.len() == 0 {
        None
    } else {
        match first_path(ps.drop_last()) {
            None => Some(ps.last()),
            Some(b) => if lex_lt(b.path, ps.last().path) {
                Some(b)
            } else {
                Some(ps.last())
            },
        }
    }
}

/// A package path: a path alone, of any kind, or a mapping from the path to its kind,
/// whose first path counts.
pub open spec fn d_path(y: Yaml) -> Result<PathView, ErrorView> {
    match y {
        Yaml::Str(s) => Ok(PathView { path: s@, kind: PathKind::Any }),
        Yaml::Mapping(es) => match d_all(es@, path_entry_decoder()) {
            Err(e) => Err(e),
            Ok(ps) => match first_path(ps) {
                None => Err(ErrorView::MissingPathEntry),
                Some(p) => Ok(p),
            },
        },
        _ => Err(ErrorView::InvalidType("paths"@)),
    }
}

/// Reads a package path.
pub fn path(y: &Yaml) -> (r: Result<Path, Error>)
    ensures
        agrees(r, d_path(*y)),
{
    let es = match y {
        Yaml::Str(s) => return Ok(Path { path: s.clone(), kind: PathKind::Any }),
        Yaml::Mapping(es) => es,
        _ => return Err(Error::InvalidType("paths".to_owned())),
    };
    let ghost f = path_entry_decoder();
    let mut best: Option<Path> = None;
    let ghost mut done: Seq<PathView> = Seq::empty();
    let mut i: usize = 0;
    assert(es@.take(0) =~= Seq::<(Yaml, Yaml)>::empty());
    while i < es.len()
        invariant
            i <= es@.len(),
            f == path_entry_decoder(),
            *y is Mapping,
            (*y)->Mapping_0@ == es@,
            d_all(es@.take(i as int), f) == Ok::<Seq<PathView>, ErrorView>(done),
            match best {
                None => first_path(done) is None,
                Some(b) => first_path(done) == Some(b.deep_view()),
            },
        decreases es@.len() - i,
    {
        proof {
            lemma_d_all_step(es@, i as int, f, done);
        }
        assert(f(es@[i as int]) == d_path_entry(es@[i as int]));
        let p = match (&es[i].0, &es[i].1) {
            (Yaml::Str(p), Yaml::Str(k)) => match PathKind::from_name(k.as_str()) {
                Ok(kind) => Path { path: p.clone(), kind },
                Err(e) => return Err(e),
            },
            _ => return Err(Error::InvalidType("paths".to_owned())),
        };
        proof {
            assert(done.push(p.deep_view()).drop_last() =~= done);
        }
        best = match best {
            None => Some(p),
            Some(b) => if names_lt(b.path.as_str(), p.path.as_str()) {
                Some(b)
            } else {
                Some(p)
            },
        };
        proof {
            done = done.push(p.deep_view());
        }
        i += 1;
    }
    assert(es@.take(i as int) =~= es@);
    match best {
        None => Err(Error::MissingPathEntry),
        Some(p) => Ok(p),
    }
}

/// [`d_path`] as a function value.
pub open spec fn path_decoder() -> spec_fn(Yaml) -> Result<PathView, ErrorView> {
    |y: Yaml| d_path(y)
}

/// The package paths field of a mapping: empty when absent.
pub open spec fn d_paths(es: Seq<(Yaml, Yaml)>) -> Result<Seq<PathView>, ErrorView> {
    match crate::stone_recipe::decode::lookup(es, "paths"@) {
        None => Ok(Seq::empty()),
        Some(Yaml::Sequence(items)) => d_all(items@, path_decoder()),
        Some(_) => Err(ErrorView::InvalidType("paths"@)),
    }
}

/// Reads the package paths field of a mapping.
pub fn paths(es: &Vec<(Yaml, Yaml)>) -> (r: Result<Vec<Path>, Error>)
    ensures
        agrees(r, d_paths(es@)),
{
    let items = match field(es, "paths") {
        None => {
            let v: Vec<Path> = Vec::new();
            assert(v.deep_view() =~= Seq::<PathView>::empty());
            return Ok(v);
        },
        Some(Yaml::Sequence(items)) => items,
        Some(_) => return Err(Error::InvalidType("paths".to_owned())),
    };
    let ghost f = path_decoder();
    let mut out: Vec<Path> = Vec::new();
    let mut i: usize = 0;
    assert(items@.take(0) =~= Seq::<Yaml>::empty());
    assert(out.deep_view() =~= Seq::<PathView>::empty());
    while i < items.len()
        invariant
            i <= items@.len(),
            f == path_decoder(),
            crate::stone_recipe::decode::lookup(es@, "paths"@) == Some(Yaml::Sequence(*items)),
            d_all(items@.take(i as int), f) == Ok::<Seq<PathView>, ErrorView>(out.deep_view()),
        decreases items@.len() - i,
    {
        proof {
            lemma_d_all_step(items@, i as int, f, out.deep_view());
        }
        assert(f(items@[i as int]) == d_path(items@[i as int]));
        let p = match path(&items[i]) {
            Ok(p) => p,
            Err(e) => return Err(e),
        };
        let ghost before = out.deep_view();
        out.push(p);
        assert(out.deep_view() =~= before.push(p.deep_view()));
        i += 1;
    }
    assert(items@.take(i as int) =~= items@);
    Ok(out)
}

/// The package fields of a mapping.
pub open spec fn d_package(es: Seq<(Yaml, Yaml)>) -> Result<PackageView, ErrorView> {
    let summary = d_opt_text(es, "summary"@);
    let description = d_opt_text(es, "description"@);
    let run_deps = d_list_text(es, "rundeps"@);
    let paths = d_paths(es);
    let conflicts = d_list_text(es, "conflicts"@);
    if summary is Err {
        Err(summary->Err_0)
    } else if description is Err {
        Err(description->Err_0)
    } else if run_deps is Err {
        Err(run_deps->Err_0)
    } else if paths is Err {
        Err(paths->Err_0)
    } else if conflicts is Err {
        Err(conflicts->Err_0)
    } else {
        Ok(
            PackageView {
                summary: summary->Ok_0,
                description: description->Ok_0,
                run_deps: run_deps->Ok_0,
                paths: paths->Ok_0,
                conflicts: conflicts->Ok_0,
            },
        )
    }
}

/// Reads the package fields of a mapping.
pub fn package(es: &Vec<(Yaml, Yaml)>) -> (r: Result<Package, Error>)
    ensures
        agrees(r, d_package(es@)),
{
    let summary = match opt_text(es, "summary") {
        Ok(v) => v,
        Err(e) => return Err(e),
    };
    let description = match opt_text(es, "description") {
        Ok(v) => v,
        Err(e) => return Err(e),
    };
    let run_deps = match list_text(es, "rundeps") {
        Ok(v) => v,
        Err(e) => return Err(e),
    };
    let paths = match paths(es) {
        Ok(v) => v,
        Err(e) => return Err(e),
    };
    let conflicts = match list_text(es, "conflicts") {
        Ok(v) => v,
        Err(e) => return Err(e),
    };
    Ok(Package { summary, description, run_deps, paths, conflicts })
}

/// An entry of a single-entry mapping: its name, and its value decoded by `f` (no
/// value reads as an empty mapping).
pub open spec fn d_kv_entry<V>(
    e: (Yaml, Yaml),
    ctx: Seq<char>,
    f: spec_fn(Seq<(Yaml, Yaml)>) -> Result<V, ErrorView>,
) -> Result<KeyValueView<V>, ErrorView> {
    match e.0 {
        Yaml::Str(k) => {
            let v = match e.1 {
                Yaml::Mapping(ves) => f(ves@),
                Yaml::Null => f(Seq::empty()),
                _ => Err(ErrorView::InvalidType(ctx)),
            };
            match v {
                Ok(x) => Ok(KeyValueView { key: k@, value: x }),
                Err(err) => Err(err),
            }
        },
        _ => Err(ErrorView::InvalidType(ctx)),
    }
}

/// The entry with the first name, a later one replacing an earlier one of the same name.
pub open spec fn first_kv<V>(kvs: Seq<KeyValueView<V>>) -> Option<KeyValueView<V>>
    decreases kvs.len(),
{
    if kvs.len() == 0 {
        None
    } else {
        match first_kv(kvs.drop_last()) {
            None => Some(kvs.last()),
            Some(b) => if lex_lt(b.key, kvs.last().key) {
                Some(b)
            } else {
                Some(kvs.last())
            },
        }
    }
}

/// An item of a list of single-entry mappings: its entry with the first name; none
/// when the mapping is empty.
pub open spec fn d_kv_item<V>(
    y: Yaml,
    ctx: Seq<char>,
    f: spec_fn(Seq<(Yaml, Yaml)>) -> Result<V, ErrorView>,
) -> Result<Option<KeyValueView<V>>, ErrorView> {
    match y {
        Yaml::Mapping(es) => match d_all(es@, |e: (Yaml, Yaml)| d_kv_entry(e, ctx, f)) {
            Err(e) => Err(e),
            Ok(kvs) => Ok(first_kv(kvs)),
        },
        _ => Err(ErrorView::InvalidType(ctx)),
    }
}

/// The values that are present, in order.
pub open spec fn somes<T>(xs: Seq<Option<T>>) -> Seq<T>
    decreases xs.len(),
{
    if xs.len() == 0 {
        Seq::empty()
    } else {
        match xs.last() {
            Some(x) => somes(xs.drop_last()).push(x),
            None => somes(xs.drop_last()),
        }
    }
}

/// The list of single-entry mappings in the field `key`, their values decoded by `f`:
/// empty when absent.
pub open spec fn d_kv_list<V>(
    es: Seq<(Yaml, Yaml)>,
    key: Seq<char>,
    f: spec_fn(Seq<(Yaml, Yaml)>) -> Result<V, ErrorView>,
) -> Result<Seq<KeyValueView<V>>, ErrorView> {
    match crate::stone_recipe::decode::lookup(es, key) {
        None => Ok(Seq::empty()),
        Some(Yaml::Sequence(items)) => match d_all(items@, |y: Yaml| d_kv_item(y, key, f)) {
            Err(e) => Err(e),
            Ok(opts) => Ok(somes(opts)),
        },
        Some(_) => Err(ErrorView::InvalidType(key)),
    }
}

/// [`d_build`] as a function value.
pub open spec fn build_decoder() -> spec_fn(Seq<(Yaml, Yaml)>) -> Result<BuildView, ErrorView> {
    |es: Seq<(Yaml, Yaml)>| d_build(es)
}

/// [`d_package`] as a function value.
pub open spec fn package_decoder() -> spec_fn(Seq<(Yaml, Yaml)>) -> Result<PackageView, ErrorView> {
    |es: Seq<(Yaml, Yaml)>| d_package(es)
}

/// Reads an item of the profiles: its build with the first name.
fn profile_item(y: &Yaml) -> (r: Result<Option<KeyValue<Build>>, Error>)
    ensures
        agrees(r, d_kv_item(*y, "profiles"@, build_decoder())),
{
    let ghost f = build_decoder();
    let ghost g = |e: (Yaml, Yaml)| d_kv_entry(e, "profiles"@, f);
    let es = match y {
        Yaml::Mapping(es) => es,
        _ => return Err(Error::InvalidType("profiles".to_owned())),
    };
    let mut best: Option<KeyValue<Build>> = None;
    let ghost mut done: Seq<KeyValueView<BuildView>> = Seq::empty();
    let mut i: usize = 0;
    assert(es@.take(0) =~= Seq::<(Yaml, Yaml)>::empty());
    while i < es.len()
        invariant
            i <= es@.len(),
            f == build_decoder(),
            g == (|e: (Yaml, Yaml)| d_kv_entry(e, "profiles"@, f)),
            *y is Mapping,
            (*y)->Mapping_0@ == es@,
            d_all(es@.take(i as int), g) == Ok::<Seq<KeyValueView<BuildView>>, ErrorView>(done),
            best.deep_view() == first_kv(done),
        decreases es@.len() - i,
    {
        proof {
            lemma_d_all_step(es@, i as int, g, done);
        }
        assert(g(es@[i as int]) == d_kv_entry(es@[i as int], "profiles"@, f));
        let key = match &es[i].0 {
            Yaml::Str(k) => k,
            _ => return Err(Error::InvalidType("profiles".to_owned())),
        };
        let value = match &es[i].1 {
            Yaml::Mapping(ves) => build(ves),
            Yaml::Null => {
                let empty: Vec<(Yaml, Yaml)> = Vec::new();
                assert(empty@ =~= Seq::<(Yaml, Yaml)>::empty());
                build(&empty)
            },
            _ => Err(Error::InvalidType("profiles".to_owned())),
        };
        let kv = match value {
            Ok(b) => KeyValue { key: key.clone(), value: b },
            Err(e) => return Err(e),
        };
        proof {
            assert(done.push(kv.deep_view()).drop_last() =~= done);
        }
        best = match best {
            None => Some(kv),
            Some(b) => if names_lt(b.key.as_str(), kv.key.as_str()) {
                Some(b)
            } else {
                Some(kv)
            },
        };
        proof {
            done = done.push(kv.deep_view());
        }
        i += 1;
    }
    assert(es@.take(i as int) =~= es@);
    Ok(best)
}

/// Reads an item of the sub-packages: its package with the first name.
fn package_item(y: &Yaml) -> (r: Result<Option<KeyValue<Package>>, Error>)
    ensures
        agrees(r, d_kv_item(*y, "packages"@, package_decoder())),
{
    let ghost f = package_decoder();
    let ghost g = |e: (Yaml, Yaml)| d_kv_entry(e, "packages"@, f);
    let es = match y {
        Yaml::Mapping(es) => es,
        _ => return Err(Error::InvalidType("packages".to_owned())),
    };
    let mut best: Option<KeyValue<Package>> = None;
    let ghost mut done: Seq<KeyValueView<PackageView>> = Seq::empty();
    let mut i: usize = 0;
    assert(es@.take(0) =~= Seq::<(Yaml, Yaml)>::empty());
    while i < es.len()
        invariant
            i <= es@.len(),
            f == package_decoder(),
            g == (|e: (Yaml, Yaml)| d_kv_entry(e, "packages"@, f)),
            *y is Mapping,
            (*y)->Mapping_0@ == es@,
            d_all(es@.take(i as int), g) == Ok::<Seq<KeyValueView<PackageView>>, ErrorView>(done),
            best.deep_view() == first_kv(done),
        decreases es@.len() - i,
    {
        proof {
            lemma_d_all_step(es@, i as int, g, done);
        }
        assert(g(es@[i as int]) == d_kv_entry(es@[i as int], "packages"@, f));
        let key = match &es[i].0 {
            Yaml::Str(k) => k,
            _ => return Err(Error::InvalidType("packages".to_owned())),
        };
        let value = match &es[i].1 {
            Yaml::Mapping(ves) => package(ves),
            Yaml::Null => {
                let empty: Vec<(Yaml, Yaml)> = Vec::new();
                assert(empty@ =~= Seq::<(Yaml, Yaml)>::empty());
                package(&empty)
            },
            _ => Err(Error::InvalidType("packages".to_owned())),
        };
        let kv = match value {
            Ok(b) => KeyValue { key: key.clone(), value: b },
            Err(e) => return Err(e),
        };
        proof {
            assert(done.push(kv.deep_view()).drop_last() =~= done);
        }
        best = match best {
            None => Some(kv),
            Some(b) => if names_lt(b.key.as_str(), kv.key.as_str()) {
                Some(b)
            } else {
                Some(kv)
            },
        };
        proof {
            done = done.push(kv.deep_view());
        }
        i += 1;
    }
    assert(es@.take(i as int) =~= es@);
    Ok(best)
}

/// Reads the profiles of a recipe mapping.
pub fn profiles(es: &Vec<(Yaml, Yaml)>) -> (r: Result<Vec<KeyValue<Build>>, Error>)
    ensures
        agrees(r, d_kv_list(es@, "profiles"@, build_decoder())),
{
    let items = match field(es, "profiles") {
        None => {
            let v: Vec<KeyValue<Build>> = Vec::new();
            assert(v.deep_view() =~= Seq::<KeyValueView<BuildView>>::empty());
            return Ok(v);
        },
        Some(Yaml::Sequence(items)) => items,
        Some(_) => return Err(Error::InvalidType("profiles".to_owned())),
    };
    let ghost f = build_decoder();
    let ghost g = |y: Yaml| d_kv_item(y, "profiles"@, f);
    let mut out: Vec<KeyValue<Build>> = Vec::new();
    let ghost mut opts: Seq<Option<KeyValueView<BuildView>>> = Seq::empty();
    let mut i: usize = 0;
    assert(items@.take(0) =~= Seq::<Yaml>::empty());
    assert(out.deep_view() =~= Seq::<KeyValueView<BuildView>>::empty());
    while i < items.len()
        invariant
            i <= items@.len(),
            f == build_decoder(),
            g == (|y: Yaml| d_kv_item(y, "profiles"@, f)),
            crate::stone_recipe::decode::lookup(es@, "profiles"@) == Some(Yaml::Sequence(*items)),
            d_all(items@.take(i as int), g) == Ok::<
                Seq<Option<KeyValueView<BuildView>>>,
                ErrorView,
            >(opts),
            out.deep_view() == somes(opts),
        decreases items@.len() - i,
    {
        proof {
            lemma_d_all_step(items@, i as int, g, opts);
        }
        assert(g(items@[i as int]) == d_kv_item(items@[i as int], "profiles"@, f));
        let item = match profile_item(&items[i]) {
            Ok(x) => x,
            Err(e) => return Err(e),
        };
        let ghost iv = item.deep_view();
        assert(opts.push(iv).drop_last() =~= opts);
        match item {
            Some(kv) => {
                let ghost before = out.deep_view();
                out.push(kv);
                assert(out.deep_view() =~= before.push(kv.deep_view()));
            },
            None => {},
        }
        proof {
            opts = opts.push(iv);
        }
        i += 1;
    }
    assert(items@.take(i as int) =~= items@);
    Ok(out)
}

/// Reads the sub-packages of a recipe mapping.
pub fn sub_packages(es: &Vec<(Yaml, Yaml)>) -> (r: Result<Vec<KeyValue<Package>>, Error>)
    ensures
        agrees(r, d_kv_list(es@, "packages"@, package_decoder())),
{
    let items = match field(es, "packages") {
        None => {
            let v: Vec<KeyValue<Package>> = Vec::new();
            assert(v.deep_view() =~= Seq::<KeyValueView<PackageView>>::empty());
            return Ok(v);
        },
        Some(Yaml::Sequence(items)) => items,
        Some(_) => return Err(Error::InvalidType("packages".to_owned())),
    };
    let ghost f = package_decoder();
    let ghost g = |y: Yaml| d_kv_item(y, "packages"@, f);
    let mut out: Vec<KeyValue<Package>> = Vec::new();
    let ghost mut opts: Seq<Option<KeyValueView<PackageView>>> = Seq::empty();
    let mut i: usize = 0;
    assert(items@.take(0) =~= Seq::<Yaml>::empty());
    assert(out.deep_view() =~= Seq::<KeyValueView<PackageView>>::empty());
    while i < items.len()
        invariant
            i <= items@.len(),
            f == package_decoder(),
            g == (|y: Yaml| d_kv_item(y, "packages"@, f)),
            crate::stone_recipe::decode::lookup(es@, "packages"@) == Some(Yaml::Sequence(*items)),
            d_all(items@.take(i as int), g) == Ok::<
                Seq<Option<KeyValueView<PackageView>>>,
                ErrorView,
            >(opts),
            out.deep_view() == somes(opts),
        decreases items@.len() - i,
    {
        proof {
            lemma_d_all_step(items@, i as int, g, opts);
        }
        assert(g(items@[i as int]) == d_kv_item(items@[i as int], "packages"@, f));
        let item = match package_item(&items[i]) {
            Ok(x) => x,
            Err(e) => return Err(e),
        };
        let ghost iv = item.deep_view();
        assert(opts.push(iv).drop_last() =~= opts);
        match item {
            Some(kv) => {
                let ghost before = out.deep_view();
                out.push(kv);
                assert(out.deep_view() =~= before.push(kv.deep_view()));
            },
            None => {},
        }
        proof {
            opts = opts.push(iv);
        }
        i += 1;
    }
    assert(items@.take(i as int) =~= items@);
    Ok(out)
}

/// [`d_upstream`] as a function value.
pub open spec fn upstream_decoder() -> spec_fn(Yaml) -> Result<UpstreamView, ErrorView> {
    |y: Yaml| d_upstream(y)
}

/// The upstreams of a recipe mapping: none when absent.
pub open spec fn d_upstreams(es: Seq<(Yaml, Yaml)>) -> Result<Seq<UpstreamView>, ErrorView> {
    match crate::stone_recipe::decode::lookup(es, "upstreams"@) {
        None => Ok(Seq::empty()),
        Some(Yaml::Sequence(items)) => d_all(items@, upstream_decoder()),
        Some(_) => Err(ErrorView::InvalidType("upstreams"@)),
    }
}

/// Reads the upstreams of a recipe mapping.
pub fn upstreams(es: &Vec<(Yaml, Yaml)>) -> (r: Result<Vec<Upstream>, Error>)
    ensures
        agrees(r, d_upstreams(es@)),
{
    let items = match field(es, "upstreams") {
        None => {
            let v: Vec<Upstream> = Vec::new();
            assert(v.deep_view() =~= Seq::<UpstreamView>::empty());
            return Ok(v);
        },
        Some(Yaml::Sequence(items)) => items,
        Some(_) => return Err(Error::InvalidType("upstreams".to_owned())),
    };
    let ghost f = upstream_decoder();
    let mut out: Vec<Upstream> = Vec::new();
    let mut i: usize = 0;
    assert(items@.take(0) =~= Seq::<Yaml>::empty());
    assert(out.deep_view() =~= Seq::<UpstreamView>::empty());
    while i < items.len()
        invariant
            i <= items@.len(),
            f == upstream_decoder(),
            crate::stone_recipe::decode::lookup(es@, "upstreams"@) == Some(Yaml::Sequence(*items)),
            d_all(items@.take(i as int), f) == Ok::<Seq<UpstreamView>, ErrorView>(out.deep_view()),
        decreases items@.len() - i,
    {
        proof {
            lemma_d_all_step(items@, i as int, f, out.deep_view());
        }
        assert(f(items@[i as int]) == d_upstream(items@[i as int]));
        let u = match upstream(&items[i]) {
            Ok(u) => u,
            Err(e) => return Err(e),
        };
        let ghost before = out.deep_view();
        out.push(u);
        assert(out.deep_view() =~= before.push(u.deep_view()));
        i += 1;
    }
    assert(items@.take(i as int) =~= items@);
    Ok(out)
}

/// The tuning entries of a recipe mapping, as they stand: none when absent.
pub open spec fn d_tuning(es: Seq<(Yaml, Yaml)>) -> Result<Seq<Yaml>, ErrorView> {
    match crate::stone_recipe::decode::lookup(es, "tuning"@) {
        None => Ok(Seq::empty()),
        Some(Yaml::Sequence(items)) => Ok(items@),
        Some(_) => Err(ErrorView::InvalidType("tuning"@)),
    }
}

/// Removing an entry of one key leaves the fields of the other keys as they were.
proof fn lemma_lookup_remove(es: Seq<(Yaml, Yaml)>, i: int, key: Seq<char>, k: Seq<char>)
    requires
        0 <= i < es.len(),
        es[i].0 matches Yaml::Str(s) && s@ == key,
        k != key,
    ensures
        crate::stone_recipe::decode::lookup(es.remove(i), k) == crate::stone_recipe::decode::lookup(es, k),
    decreases i,
{
    if i == 0 {
        assert(es.remove(0) =~= es.drop_first());
    } else {
        assert(es.remove(i).drop_first() =~= es.drop_first().remove(i - 1));
        assert(es.remove(i)[0] == es[0]);
        lemma_lookup_remove(es.drop_first(), i - 1, key, k);
    }
}

/// Moves the value of the field `key` out of the entries; the other fields stay.
pub(crate) fn take_field(es: &mut Vec<(Yaml, Yaml)>, key: &str) -> (r: Option<Yaml>)
    ensures
        r == crate::stone_recipe::decode::lookup(old(es)@, key@),
        forall|k: Seq<char>|
            k != key@ ==> #[trigger] crate::stone_recipe::decode::lookup(final(es)@, k)
                == crate::stone_recipe::decode::lookup(old(es)@, k),
{
    let mut i: usize = 0;
    assert(old(es)@.skip(0) =~= old(es)@);
    while i < es.len()
        invariant
            i <= es@.len(),
            es@ == old(es)@,
            crate::stone_recipe::decode::lookup(es@, key@) == crate::stone_recipe::decode::lookup(
                es@.skip(i as int),
                key@,
            ),
        decreases es@.len() - i,
    {
        assert(es@.skip(i as int)[0] == es@[i as int]);
        assert(es@.skip(i as int).drop_first() =~= es@.skip(i + 1));
        let found = match &es[i].0 {
            Yaml::Str(k) => str_eq(k.as_str(), key),
            _ => false,
        };
        if found {
            let ghost before = es@;
            let (_, v) = es.remove(i);
            proof {
                assert forall|k: Seq<char>| k != key@ implies #[trigger] crate::stone_recipe::decode::lookup(
                    es@,
                    k,
                ) == crate::stone_recipe::decode::lookup(before, k) by {
                    lemma_lookup_remove(before, i as int, key@, k);
                }
            }
            return Some(v);
        }
        i += 1;
    }
    assert(es@.skip(i as int) =~= Seq::<(Yaml, Yaml)>::empty());
    None
}

/// A recipe: a mapping holding its source, build, package and option fields, and its
/// profiles, sub-packages, upstreams, architectures, tuning and two more switches.
pub open spec fn d_recipe(y: Yaml) -> Result<RecipeView, ErrorView> {
    match y {
        Yaml::Mapping(m) => {
            let es = m@;
            let source = d_source(es);
            let build = d_build(es);
            let package = d_package(es);
            let options = d_options(es);
            let profiles = d_kv_list(es, "profiles"@, build_decoder());
            let sub_packages = d_kv_list(es, "packages"@, package_decoder());
            let upstreams = d_upstreams(es);
            let architectures = d_list_text(es, "architectures"@);
            let tuning = d_tuning(es);
            let emul32 = d_bool_field(es, "emul32"@, false);
            let mold = d_bool_field(es, "mold"@, false);
            if source is Err {
                Err(source->Err_0)
            } else if build is Err {
                Err(build->Err_0)
            } else if package is Err {
                Err(package->Err_0)
            } else if options is Err {
                Err(options->Err_0)
            } else if profiles is Err {
                Err(profiles->Err_0)
            } else if sub_packages is Err {
                Err(sub_packages->Err_0)
            } else if upstreams is Err {
                Err(upstreams->Err_0)
            } else if architectures is Err {
                Err(architectures->Err_0)
            } else if tuning is Err {
                Err(tuning->Err_0)
            } else if emul32 is Err {
                Err(emul32->Err_0)
            } else if mold is Err {
                Err(mold->Err_0)
            } else {
                Ok(
                    RecipeView {
                        source: source->Ok_0,
                        build: build->Ok_0,
                        package: package->Ok_0,
                        options: options->Ok_0,
                        profiles: profiles->Ok_0,
                        sub_packages: sub_packages->Ok_0,
                        upstreams: upstreams->Ok_0,
                        architectures: architectures->Ok_0,
                        tuning: tuning->Ok_0,
                        emul32: emul32->Ok_0,
                        mold: mold->Ok_0,
                    },
                )
            }
        },
        _ => Err(ErrorView::InvalidType("recipe"@)),
    }
}

/// Reads a recipe from its YAML document.
pub fn recipe(y: Yaml) -> (r: Result<Recipe, Error>)
    ensures
        agrees(r, d_recipe(y)),
{
    let mut es = match y {
        Yaml::Mapping(es) => es,
        _ => return Err(Error::InvalidType("recipe".to_owned())),
    };
    let ghost es0 = es@;
    let source = match source(&es) {
        Ok(v) => v,
        Err(e) => return Err(e),
    };
    let build = match build(&es) {
        Ok(v) => v,
        Err(e) => return Err(e),
    };
    let package = match package(&es) {
        Ok(v) => v,
        Err(e) => return Err(e),
    };
    let options = match options(&es) {
        Ok(v) => v,
        Err(e) => return Err(e),
    };
    let profiles = match profiles(&es) {
        Ok(v) => v,
        Err(e) => return Err(e),
    };
    let sub_packages = match sub_packages(&es) {
        Ok(v) => v,
        Err(e) => return Err(e),
    };
    let upstreams = match upstreams(&es) {
        Ok(v) => v,
        Err(e) => return Err(e),
    };
    let architectures = match list_text(&es, "architectures") {
        Ok(v) => v,
        Err(e) => return Err(e),
    };
    match field(&es, "tuning") {
        None => {},
        Some(Yaml::Sequence(_)) => {},
        Some(_) => return Err(Error::InvalidType("tuning".to_owned())),
    }
    let emul32 = match bool_field(&es, "emul32", false) {
        Ok(v) => v,
        Err(e) => return Err(e),
    };
    let mold = match bool_field(&es, "mold", false) {
        Ok(v) => v,
        Err(e) => return Err(e),
    };
    let tuning = match take_field(&mut es, "tuning") {
        Some(Yaml::Sequence(items)) => items,
        _ => Vec::new(),
    };
    assert(tuning@ == d_tuning(es0)->Ok_0);
    Ok(
        Recipe {
            source,
            build,
            package,
            options,
            profiles,
            sub_packages,
            upstreams,
            architectures,
            tuning,
            emul32,
            mold,
        },
    )
}

} // verus!
