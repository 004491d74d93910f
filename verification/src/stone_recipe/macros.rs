//! Macro files: actions, definitions, tuning flags and groups, and packages that recipes
//! build on.

use vstd::prelude::*;
use crate::names::names_lt;
use crate::stone_recipe::decode::{
    agrees, d_all, d_list_text, d_opt_text, d_req_text, d_text, field, lemma_d_all_step, list_text,
    opt_text, read_outcome, req_text, text, Error, ErrorView,
};
use crate::stone_recipe::recipe::{
    d_kv_list, first_kv, package_decoder, somes, sub_packages, take_field, KeyValue, KeyValueView,
    Package, PackageView,
};
use crate::stone_recipe::yaml::{document_bytes, yaml_bytes, DocumentError, Yaml};

verus! {

/// An action that recipes call: what it does, an example, the command it stands for, and
/// the packages it needs.
#[derive(Debug, Clone)]
pub struct Action {
    pub description: String,
    pub example: Option<String>,
    pub command: String,
    pub dependencies: Vec<String>,
}

/// The mathematical value of an [`Action`].
pub struct ActionView {
    pub description: Seq<char>,
    pub example: Option<Seq<char>>,
    pub command: Seq<char>,
    pub dependencies: Seq<Seq<char>>,
}

impl DeepView for Action {
    type V = ActionView;

    open spec fn deep_view(&self) -> ActionView {
        ActionView {
            description: self.description@,
            example: self.example.deep_view(),
            command: self.command@,
            dependencies: self.dependencies.deep_view(),
        }
    }
}

/// The contents of a macro file.
#[derive(Debug)]
pub struct Macros {
    pub actions: Vec<KeyValue<Action>>,
    pub definitions: Vec<KeyValue<String>>,
    /// Tuning flags: the items of the list, as they stand in the file.
    pub flags: Vec<Yaml>,
    /// Tuning groups: the items of the list, as they stand in the file.
    pub tuning: Vec<Yaml>,
    pub packages: Vec<KeyValue<Package>>,
    pub default_tuning_groups: Vec<String>,
}

/// The mathematical value of [`Macros`].
pub struct MacrosView {
    pub actions: Seq<KeyValueView<ActionView>>,
    pub definitions: Seq<KeyValueView<Seq<char>>>,
    pub flags: Seq<Yaml>,
    pub tuning: Seq<Yaml>,
    pub packages: Seq<KeyValueView<PackageView>>,
    pub default_tuning_groups: Seq<Seq<char>>,
}

impl DeepView for Macros {
    type V = MacrosView;

    open spec fn deep_view(&self) -> MacrosView {
        MacrosView {
            actions: self.actions.deep_view(),
            definitions: self.definitions.deep_view(),
            flags: self.flags@,
            tuning: self.tuning@,
            packages: self.packages.deep_view(),
            default_tuning_groups: self.default_tuning_groups.deep_view(),
        }
    }
}

/// An entry of a single-entry mapping: its name, and its value decoded by `f`.
pub open spec fn d_named<V>(e: (Yaml, Yaml), ctx: Seq<char>, f: spec_fn(Yaml) -> Result<V, ErrorView>) -> Result<
    KeyValueView<V>,
    ErrorView,
> {
    match e.0 {
        Yaml::Str(k) => match f(e.1) {
            Ok(x) => Ok(KeyValueView { key: k@, value: x }),
            Err(err) => Err(err),
        },
        _ => Err(ErrorView::InvalidType(ctx)),
    }
}

/// An item of a list of single-entry mappings: its entry with the first name, every
/// entry decoded by `f`; none when the mapping is empty.
pub open spec fn d_named_item<V>(y: Yaml, ctx: Seq<char>, f: spec_fn(Yaml) -> Result<V, ErrorView>) -> Result<
    Option<KeyValueView<V>>,
    ErrorView,
> {
    match y {
        Yaml::Mapping(es) => match d_all(es@, |e: (Yaml, Yaml)| d_named(e, ctx, f)) {
            Err(e) => Err(e),
            Ok(kvs) => Ok(first_kv(kvs)),
        },
        _ => Err(ErrorView::InvalidType(ctx)),
    }
}

/// The list of single-entry mappings in the field `key`, their values decoded by `f`:
/// empty when absent.
pub open spec fn d_named_list<V>(es: Seq<(Yaml, Yaml)>, key: Seq<char>, f: spec_fn(Yaml) -> Result<V, ErrorView>) -> Result<
    Seq<KeyValueView<V>>,
    ErrorView,
> {
    match crate::stone_recipe::decode::lookup(es, key) {
        None => Ok(Seq::empty()),
        Some(Yaml::Sequence(items)) => match d_all(items@, |y: Yaml| d_named_item(y, key, f)) {
            Err(e) => Err(e),
            Ok(opts) => Ok(somes(opts)),
        },
        Some(_) => Err(ErrorView::InvalidType(key)),
    }
}

/// Reads an item of a list of single-entry mappings, every entry's value read by `dec`.
fn named_item<V: DeepView, F: Fn(&Yaml) -> Result<V, Error>>(
    y: &Yaml,
    ctx: &str,
    dec: &F,
    Ghost(f): Ghost<spec_fn(Yaml) -> Result<V::V, ErrorView>>,
) -> (r: Result<Option<KeyValue<V>>, Error>)
    requires
        forall|v: &Yaml| #[trigger] dec.requires((v,)),
        forall|v: &Yaml, out: Result<V, Error>| #[trigger] dec.ensures((v,), out) ==> agrees(out, f(*v)),
    ensures
        agrees(r, d_named_item(*y, ctx@, f)),
{
    let ghost g = |e: (Yaml, Yaml)| d_named(e, ctx@, f);
    let es = match y {
        Yaml::Mapping(es) => es,
        _ => return Err(Error::InvalidType(ctx.to_owned())),
    };
    let mut best: Option<KeyValue<V>> = None;
    let ghost mut done: Seq<KeyValueView<V::V>> = Seq::empty();
    let mut i: usize = 0;
    assert(es@.take(0) =~= Seq::<(Yaml, Yaml)>::empty());
    while i < es.len()
        invariant
            i <= es@.len(),
            g == (|e: (Yaml, Yaml)| d_named(e, ctx@, f)),
            *y is Mapping,
            (*y)->Mapping_0@ == es@,
            forall|v: &Yaml| #[trigger] dec.requires((v,)),
            forall|v: &Yaml, out: Result<V, Error>| #[trigger] dec.ensures((v,), out) ==> agrees(out, f(*v)),
            d_all(es@.take(i as int), g) == Ok::<Seq<KeyValueView<V::V>>, ErrorView>(done),
            best.deep_view() == first_kv(done),
        decreases es@.len() - i,
    {
        proof {
            lemma_d_all_step(es@, i as int, g, done);
        }
        assert(g(es@[i as int]) == d_named(es@[i as int], ctx@, f));
        let key = match &es[i].0 {
            Yaml::Str(k) => k,
            _ => return Err(Error::InvalidType(ctx.to_owned())),
        };
        let value = dec(&es[i].1);
        let kv = match value {
            Ok(b) => KeyValue { key: key.clone(), value: b },
            Err(e) => return Err(e),
        };
        proof {
            assert(done.push(kv.deep_view()).drop_last() =~= done);
        }
        best = match best {
            None => Some(kv),
            Some(b) => if names_lt(b.key.as_str(), kv.key.as_str()) {
                Some(b)
            } else {
                Some(kv)
            },
        };
        proof {
            done = done.push(kv.deep_view());
        }
        i += 1;
    }
    assert(es@.take(i as int) =~= es@);
    Ok(best)
}

/// Reads the list of single-entry mappings in the field `key`, every value read by `dec`.
fn named_list<V: DeepView, F: Fn(&Yaml) -> Result<V, Error>>(
    es: &Vec<(Yaml, Yaml)>,
    key: &str,
    dec: &F,
    Ghost(f): Ghost<spec_fn(Yaml) -> Result<V::V, ErrorView>>,
) -> (r: Result<Vec<KeyValue<V>>, Error>)
    requires
        forall|v: &Yaml| #[trigger] dec.requires((v,)),
        forall|v: &Yaml, out: Result<V, Error>| #[trigger] dec.ensures((v,), out) ==> agrees(out, f(*v)),
    ensures
        agrees(r, d_named_list(es@, key@, f)),
{
    let items = match field(es, key) {
        None => {
            let v: Vec<KeyValue<V>> = Vec::new();
            assert(v.deep_view() =~= Seq::<KeyValueView<V::V>>::empty());
            return Ok(v);
        },
        Some(Yaml::Sequence(items)) => items,
        Some(_) => return Err(Error::InvalidType(key.to_owned())),
    };
    let ghost g = |y: Yaml| d_named_item(y, key@, f);
    let mut out: Vec<KeyValue<V>> = Vec::new();
    let ghost mut opts: Seq<Option<KeyValueView<V::V>>> = Seq::empty();
    let mut i: usize = 0;
    assert(items@.take(0) =~= Seq::<Yaml>::empty());
    assert(out.deep_view() =~= Seq::<KeyValueView<V::V>>::empty());
    while i < items.len()
        invariant
            i <= items@.len(),
            g == (|y: Yaml| d_named_item(y, key@, f)),
            forall|v: &Yaml| #[trigger] dec.requires((v,)),
            forall|v: &Yaml, out: Result<V, Error>| #[trigger] dec.ensures((v,), out) ==> agrees(out, f(*v)),
            crate::stone_recipe::decode::lookup(es@, key@) == Some(Yaml::Sequence(*items)),
            d_all(items@.take(i as int), g) == Ok::<Seq<Option<KeyValueView<V::V>>>, ErrorView>(opts),
            out.deep_view() == somes(opts),
        decreases items@.len() - i,
    {
        proof {
            lemma_d_all_step(items@, i as int, g, opts);
        }
        assert(g(items@[i as int]) == d_named_item(items@[i as int], key@, f));
        let item = match named_item(&items[i], key, dec, Ghost(f)) {
            Ok(x) => x,
            Err(e) => return Err(e),
        };
        let ghost iv = item.deep_view();
        assert(opts.push(iv).drop_last() =~= opts);
        match item {
            Some(kv) => {
                let ghost before = out.deep_view();
                out.push(kv);
                assert(out.deep_view() =~= before.push(kv.deep_view()));
            },
            None => {},
        }
        proof {
            opts = opts.push(iv);
        }
        i += 1;
    }
    assert(items@.take(i as int) =~= items@);
    Ok(out)
}

/// An action: a mapping with its description and command, and maybe an example and the
/// packages it needs.
pub open spec fn d_action(es: Seq<(Yaml, Yaml)>) -> Result<ActionView, ErrorView> {
    let description = d_req_text(es, "description"@);
    let example = d_opt_text(es, "example"@);
    let command = d_req_text(es, "command"@);
    let dependencies = d_list_text(es, "dependencies"@);
    if description is Err {
        Err(description->Err_0)
    } else if example is Err {
        Err(example->Err_0)
    } else if command is Err {
        Err(command->Err_0)
    } else if dependencies is Err {
        Err(dependencies->Err_0)
    } else {
        Ok(
            ActionView {
                description: description->Ok_0,
                example: example->Ok_0,
                command: command->Ok_0,
                dependencies: dependencies->Ok_0,
            },
        )
    }
}

/// Reads an action from its mapping.
pub fn action(es: &Vec<(Yaml, Yaml)>) -> (r: Result<Action, Error>)
    ensures
        agrees(r, d_action(es@)),
{
    let description = match req_text(es, "description") {
        Ok(v) => v,
        Err(e) => return Err(e),
    };
    let example = match opt_text(es, "example") {
        Ok(v) => v,
        Err(e) => return Err(e),
    };
    let command = match req_text(es, "command") {
        Ok(v) => v,
        Err(e) => return Err(e),
    };
    let dependencies = match list_text(es, "dependencies") {
        Ok(v) => v,
        Err(e) => return Err(e),
    };
    Ok(Action { description, example, command, dependencies })
}

/// The value of an action entry: its mapping (no value reads as an empty one).
pub open spec fn d_action_value(y: Yaml) -> Result<ActionView, ErrorView> {
    match y {
        Yaml::Mapping(es) => d_action(es@),
        Yaml::Null => d_action(Seq::empty()),
        _ => Err(ErrorView::InvalidType("actions"@)),
    }
}

/// Reads the value of an action entry.
fn action_value(y: &Yaml) -> (r: Result<Action, Error>)
    ensures
        agrees(r, d_action_value(*y)),
{
    match y {
        Yaml::Mapping(es) => action(es),
        Yaml::Null => {
            let empty: Vec<(Yaml, Yaml)> = Vec::new();
            assert(empty@ =~= Seq::<(Yaml, Yaml)>::empty());
            action(&empty)
        },
        _ => Err(Error::InvalidType("actions".to_owned())),
    }
}

/// The items of the list in the field `key`, as they stand: none when absent.
pub open spec fn d_items(es: Seq<(Yaml, Yaml)>, key: Seq<char>) -> Result<Seq<Yaml>, ErrorView> {
    match crate::stone_recipe::decode::lookup(es, key) {
        None => Ok(Seq::empty()),
        Some(Yaml::Sequence(items)) => Ok(items@),
        Some(_) => Err(ErrorView::InvalidType(key)),
    }
}

/// The contents of a macro file: a mapping of actions, definitions, tuning flags and
/// groups, packages and the default tuning groups, each empty when absent.
pub open spec fn d_macros(y: Yaml) -> Result<MacrosView, ErrorView> {
    match y {
        Yaml::Mapping(m) => {
            let es = m@;
            let actions = d_named_list(es, "actions"@, |v: Yaml| d_action_value(v));
            let definitions = d_named_list(es, "definitions"@, |v: Yaml| d_text(v, "definitions"@));
            let flags = d_items(es, "flags"@);
            let tuning = d_items(es, "tuning"@);
            let packages = d_kv_list(es, "packages"@, package_decoder());
            let groups = d_list_text(es, "defaultTuningGroups"@);
            if actions is Err {
                Err(actions->Err_0)
            } else if definitions is Err {
                Err(definitions->Err_0)
            } else if flags is Err {
                Err(flags->Err_0)
            } else if tuning is Err {
                Err(tuning->Err_0)
            } else if packages is Err {
                Err(packages->Err_0)
            } else if groups is Err {
                Err(groups->Err_0)
            } else {
                Ok(
                    MacrosView {
                        actions: actions->Ok_0,
                        definitions: definitions->Ok_0,
                        flags: flags->Ok_0,
                        tuning: tuning->Ok_0,
                        packages: packages->Ok_0,
                        default_tuning_groups: groups->Ok_0,
                    },
                )
            }
        },
        _ => Err(ErrorView::InvalidType("macros"@)),
    }
}

/// Checks that the field `key`, where present, is a list.
fn check_items(es: &Vec<(Yaml, Yaml)>, key: &str) -> (r: Result<(), Error>)
    ensures
        match r {
            Ok(()) => d_items(es@, key@) is Ok,
            Err(e) => d_items(es@, key@) == Err::<Seq<Yaml>, ErrorView>(e@),
        },
{
    match field(es, key) {
        None => Ok(()),
        Some(Yaml::Sequence(_)) => Ok(()),
        Some(_) => Err(Error::InvalidType(key.to_owned())),
    }
}

/// Reads the contents of a macro file from its YAML document.
pub fn macros(y: Yaml) -> (r: Result<Macros, Error>)
    ensures
        agrees(r, d_macros(y)),
{
    let mut es = match y {
        Yaml::Mapping(es) => es,
        _ => return Err(Error::InvalidType("macros".to_owned())),
    };
    let ghost es0 = es@;
    let dec_action = |v: &Yaml| -> (r: Result<Action, Error>)
        ensures
            agrees(r, d_action_value(*v)),
        { action_value(v) };
    let actions = match named_list(&es, "actions", &dec_action, Ghost(|v: Yaml| d_action_value(v))) {
        Ok(v) => v,
        Err(e) => return Err(e),
    };
    let dec_text = |v: &Yaml| -> (r: Result<String, Error>)
        ensures
            agrees(r, d_text(*v, "definitions"@)),
        { text(v, "definitions") };
    let definitions = match named_list(&es, "definitions", &dec_text, Ghost(|v: Yaml| d_text(v, "definitions"@))) {
        Ok(v) => v,
        Err(e) => return Err(e),
    };
    match check_items(&es, "flags") {
        Ok(()) => {},
        Err(e) => return Err(e),
    }
    match check_items(&es, "tuning") {
        Ok(()) => {},
        Err(e) => return Err(e),
    }
    let packages = match sub_packages(&es) {
        Ok(v) => v,
        Err(e) => return Err(e),
    };
    let default_tuning_groups = match list_text(&es, "defaultTuningGroups") {
        Ok(v) => v,
        Err(e) => return Err(e),
    };
    let flags = match take_field(&mut es, "flags") {
        Some(Yaml::Sequence(items)) => items,
        _ => Vec::new(),
    };
    let tuning = match take_field(&mut es, "tuning") {
        Some(Yaml::Sequence(items)) => items,
        _ => Vec::new(),
    };
    proof {
        assert("flags"@ != "tuning"@) by {
            reveal_strlit("flags");
            reveal_strlit("tuning");
            assert("flags"@.len() == 5);
            assert("tuning"@.len() == 6);
        }
    }
    assert(flags@ == d_items(es0, "flags"@)->Ok_0);
    assert(tuning@ == d_items(es0, "tuning"@)->Ok_0);
    Ok(Macros { actions, definitions, flags, tuning, packages, default_tuning_groups })
}

/// Reads the contents of a macro file from its YAML text, given as bytes: the parser's
/// message where the bytes are not YAML, `TooDeep` where they nest deeper than the reader
/// allows, else the contents that [`d_macros`] reads from the parsed document.
pub fn from_slice(bytes: &[u8]) -> (r: Result<Macros, Error>)
    ensures
        read_outcome(yaml_bytes(bytes@), r, |y: Yaml| d_macros(y)),
{
    match document_bytes(bytes) {
        Ok(y) => {
            let r = macros(y);
            assert((|y: Yaml| d_macros(y))(y) == d_macros(y));
            r
        },
        Err(DocumentError::Syntax(m)) => Err(Error::Syntax(m)),
        Err(DocumentError::TooDeep) => Err(Error::TooDeep),
    }
}

/// What a built-in definition stands for, and how it is used.
pub struct DefinitionDetails<'a> {
    pub name: &'a str,
    pub description: &'a str,
    pub example: &'a str,
}

/// The definitions that every recipe can use.
#[derive(Debug, Clone, Copy, PartialEq, Eq, Structural)]
pub enum BuiltinDefinition {
    Name,
    Version,
    Release,
    Jobs,
    PkgDir,
    SourceDir,
    InstallRoot,
    BuildRoot,
    WorkDir,
    CompilerCache,
    SCompilerCache,
    SourceDateEpoch,
    RustcWrapper,
    CompilerC,
    CompilerCxx,
    CompilerObjC,
    CompilerObjCxx,
    CompilerCpp,
    CompilerObjCpp,
    CompilerObjCxxCpp,
    CompilerD,
    CompilerAr,
    CompilerObjcopy,
    CompilerNm,
    CompilerRanlib,
    CompilerStrip,
    CompilerPath,
    CompilerLd,
    PgoStage,
    PgoDir,
    CFlags,
    CxxFlags,
    FFlags,
    LdFlags,
    DFlags,
    RustFlags,
}

/// The name of a built-in definition.
pub open spec fn spec_definition_name(d: BuiltinDefinition) -> Seq<char> {
    match d {
        BuiltinDefinition::Name => "name"@,
        BuiltinDefinition::Version => "version"@,
        BuiltinDefinition::Release => "release"@,
        BuiltinDefinition::Jobs => "jobs"@,
        BuiltinDefinition::PkgDir => "pkgdir"@,
        BuiltinDefinition::SourceDir => "sourcedir"@,
        BuiltinDefinition::InstallRoot => "installroot"@,
        BuiltinDefinition::BuildRoot => "buildroot"@,
        BuiltinDefinition::WorkDir => "workdir"@,
        BuiltinDefinition::CompilerCache => "compiler_cache"@,
        BuiltinDefinition::SCompilerCache => "scompiler_cache"@,
        BuiltinDefinition::SourceDateEpoch => "sourcedateepoch"@,
        BuiltinDefinition::RustcWrapper => "rustc_wrapper"@,
        BuiltinDefinition::CompilerC => "compiler_c"@,
        BuiltinDefinition::CompilerCxx => "compiler_cxx"@,
        BuiltinDefinition::CompilerObjC => "compiler_objc"@,
        BuiltinDefinition::CompilerObjCxx => "compiler_objcxx"@,
        BuiltinDefinition::CompilerCpp => "compiler_cpp"@,
        BuiltinDefinition::CompilerObjCpp => "compiler_objcpp"@,
        BuiltinDefinition::CompilerObjCxxCpp => "compiler_objcxxcpp"@,
        BuiltinDefinition::CompilerD => "compiler_d"@,
        BuiltinDefinition::CompilerAr => "compiler_ar"@,
        BuiltinDefinition::CompilerObjcopy => "compiler_objcopy"@,
        BuiltinDefinition::CompilerNm => "compiler_nm"@,
        BuiltinDefinition::CompilerRanlib => "compiler_ranlib"@,
        BuiltinDefinition::CompilerStrip => "compiler_strip"@,
        BuiltinDefinition::CompilerPath => "compiler_path"@,
        BuiltinDefinition::CompilerLd => "compiler_ld"@,
        BuiltinDefinition::PgoStage => "pgo_stage"@,
        BuiltinDefinition::PgoDir => "pgo_dir"@,
        BuiltinDefinition::CFlags => "cflags"@,
        BuiltinDefinition::CxxFlags => "cxxflags"@,
        BuiltinDefinition::FFlags => "fflags"@,
        BuiltinDefinition::LdFlags => "ldflags"@,
        BuiltinDefinition::DFlags => "dflags"@,
        BuiltinDefinition::RustFlags => "rustflags"@,
    }
}

/// What a built-in definition stands for.
pub open spec fn spec_definition_description(d: BuiltinDefinition) -> Seq<char> {
    match d {
        BuiltinDefinition::Name => "The name of the main package built from the recipe."@,
        BuiltinDefinition::Version => "The version of the package. Is considered string metadata."@,
        BuiltinDefinition::Release => "The source release version of the recipe. Monotonically increasing integer used in place of version for comparisons."@,
        BuiltinDefinition::Jobs => "The amount of parallel build jobs invoked. Defaults to $(nproc). Included by default in supported build action macros."@,
        BuiltinDefinition::PkgDir => "The ./pkg directory next to recipes used for holding package-specific additional files such as patches."@,
        BuiltinDefinition::SourceDir => "The base directory into which each recipe upstream URI is unpacked as separate subdirectories."@,
        BuiltinDefinition::InstallRoot => "The directory that is the root of the file tree that gets analysed for inclusion in .stones"@,
        BuiltinDefinition::BuildRoot => "The directory that is the root of the file tree for the build process."@,
        BuiltinDefinition::WorkDir => "Each recipe phase starts in this directory and actions are implicitly run in this directory unless changed."@,
        BuiltinDefinition::CompilerCache => "Used when defining the %(ccachedir) location of ccache artefacts in the build container namespace."@,
        BuiltinDefinition::SCompilerCache => "Used when defining the %(sccachedir) location of sccache artefacts in the build container namespace."@,
        BuiltinDefinition::SourceDateEpoch => "The canonical timestamp for when a recipe was built."@,
        BuiltinDefinition::RustcWrapper => "Wrapper for the Rust compiler used by default in a build profile."@,
        BuiltinDefinition::CompilerC => "The C compiler used by default in a build profile."@,
        BuiltinDefinition::CompilerCxx => "The C++ compiler used by default in a build profile."@,
        BuiltinDefinition::CompilerObjC => "The Objective C compiler used by default in a build profile."@,
        BuiltinDefinition::CompilerObjCxx => "The Objective C++ compiler used by default in a build profile."@,
        BuiltinDefinition::CompilerCpp => "The C preprocessor used by default in a build profile."@,
        BuiltinDefinition::CompilerObjCpp => "The Objective C preprocessor used by default in a build profile."@,
        BuiltinDefinition::CompilerObjCxxCpp => "The Objective C++ preprocessor used by default in a build profile."@,
        BuiltinDefinition::CompilerD => "The DLang compiler used by default in a build profile."@,
        BuiltinDefinition::CompilerAr => "The ar ELF object archive tool used by default in a build profile."@,
        BuiltinDefinition::CompilerObjcopy => "The objcopy ELF object copy tool used by default in a build profile."@,
        BuiltinDefinition::CompilerNm => "The nm tool used to decode (demangle) low-level symbol names into user-level names by default in a build profile."@,
        BuiltinDefinition::CompilerRanlib => "The ranlib tool used to generate indices for statically linked object archives by default in a build profile."@,
        BuiltinDefinition::CompilerStrip => "The strip tool used to remove debugging symbols from ELF objects by default in a build profile."@,
        BuiltinDefinition::CompilerPath => "The default ${PATH} when invoking compilers."@,
        BuiltinDefinition::CompilerLd => "The ld linker tool used to link ELF object files into executables or libraries by default in a build profile."@,
        BuiltinDefinition::PgoStage => "Used to define the actions and flags in a PGO stage by default in a build profile."@,
        BuiltinDefinition::PgoDir => "Used to define the dir used for the build and analysis of instrumented Profile Guided Optimisation runs by default in a build profile."@,
        BuiltinDefinition::CFlags => "Defines the default C Compiler (CFLAGS) environment variable flags in a build profile."@,
        BuiltinDefinition::CxxFlags => "Defines the default C++ Compiler (CXXFLAGS) environment variable flags in a build profile."@,
        BuiltinDefinition::FFlags => "Defines the default FORTRAN Compiler (FFLAGS) environment variable flags in a build profile."@,
        BuiltinDefinition::LdFlags => "Defines the default linker (LDFLAGS) environment variable flags in a build profile."@,
        BuiltinDefinition::DFlags => "Defines the default DLang Compiler (DFLAGS) environment variable flags in a build profile."@,
        BuiltinDefinition::RustFlags => "Defines the default Rust Compiler (RUSTFLAGS) environment variable flags in a build profile."@,
    }
}

/// An example of the use of a built-in definition.
pub open spec fn spec_definition_example(d: BuiltinDefinition) -> Seq<char> {
    match d {
        BuiltinDefinition::Name => "%(name)"@,
        BuiltinDefinition::Version => "%(version)"@,
        BuiltinDefinition::Release => "%(release)"@,
        BuiltinDefinition::Jobs => "make -j%(jobs)"@,
        BuiltinDefinition::PkgDir => "%patch %(pkgdir)/some.patch"@,
        BuiltinDefinition::SourceDir => "%(sourcedir)"@,
        BuiltinDefinition::InstallRoot => "%install_file %(pkgdir)/a_file %(installroot)%(datadir)/%(name)/"@,
        BuiltinDefinition::BuildRoot => "%(buildroot)"@,
        BuiltinDefinition::WorkDir => "%(workdir)"@,
        BuiltinDefinition::CompilerCache => "(only used when defining boulder build profiles)"@,
        BuiltinDefinition::SCompilerCache => "(only used when defining boulder build profiles)"@,
        BuiltinDefinition::SourceDateEpoch => "Automatically defined and exported as ${SOURCE_DATE_EPOCH} by boulder."@,
        BuiltinDefinition::RustcWrapper => "(only used when defining boulder build profiles)"@,
        BuiltinDefinition::CompilerC => "(only used when defining boulder build profiles)"@,
        BuiltinDefinition::CompilerCxx => "(only used when defining boulder build profiles)"@,
        BuiltinDefinition::CompilerObjC => "(only used when defining boulder build profiles)"@,
        BuiltinDefinition::CompilerObjCxx => "(only used when defining boulder build profiles)"@,
        BuiltinDefinition::CompilerCpp => "(only used when defining boulder build profiles)"@,
        BuiltinDefinition::CompilerObjCpp => "(only used when defining boulder build profiles)"@,
        BuiltinDefinition::CompilerObjCxxCpp => "(only used when defining boulder build profiles)"@,
        BuiltinDefinition::CompilerD => "(only used when defining boulder build profiles)"@,
        BuiltinDefinition::CompilerAr => "(only used when defining boulder build profiles)"@,
        BuiltinDefinition::CompilerObjcopy => "(only used when defining boulder build profiles)"@,
        BuiltinDefinition::CompilerNm => "(only used when defining boulder build profiles)"@,
        BuiltinDefinition::CompilerRanlib => "(only used when defining boulder build profiles)"@,
        BuiltinDefinition::CompilerStrip => "(only used when defining boulder build profiles)"@,
        BuiltinDefinition::CompilerPath => "(only used when defining boulder build profiles)"@,
        BuiltinDefinition::CompilerLd => "(only used when defining boulder build profiles)"@,
        BuiltinDefinition::PgoStage => "(only used when defining boulder build profiles)"@,
        BuiltinDefinition::PgoDir => "(only used when defining boulder build profiles)"@,
        BuiltinDefinition::CFlags => "(only used when defining boulder build profiles)"@,
        BuiltinDefinition::CxxFlags => "(only used when defining boulder build profiles)"@,
        BuiltinDefinition::FFlags => "(only used when defining boulder build profiles)"@,
        BuiltinDefinition::LdFlags => "(only used when defining boulder build profiles)"@,
        BuiltinDefinition::DFlags => "(only used when defining boulder build profiles)"@,
        BuiltinDefinition::RustFlags => "(only used when defining boulder build profiles)"@,
    }
}

impl BuiltinDefinition {
    /// The name of the definition.
    pub fn name(&self) -> (n: &str)
        ensures
            n@ == spec_definition_name(*self),
    {
        match self {
            BuiltinDefinition::Name => "name",
            BuiltinDefinition::Version => "version",
            BuiltinDefinition::Release => "release",
            BuiltinDefinition::Jobs => "jobs",
            BuiltinDefinition::PkgDir => "pkgdir",
            BuiltinDefinition::SourceDir => "sourcedir",
            BuiltinDefinition::InstallRoot => "installroot",
            BuiltinDefinition::BuildRoot => "buildroot",
            BuiltinDefinition::WorkDir => "workdir",
            BuiltinDefinition::CompilerCache => "compiler_cache",
            BuiltinDefinition::SCompilerCache => "scompiler_cache",
            BuiltinDefinition::SourceDateEpoch => "sourcedateepoch",
            BuiltinDefinition::RustcWrapper => "rustc_wrapper",
            BuiltinDefinition::CompilerC => "compiler_c",
            BuiltinDefinition::CompilerCxx => "compiler_cxx",
            BuiltinDefinition::CompilerObjC => "compiler_objc",
            BuiltinDefinition::CompilerObjCxx => "compiler_objcxx",
            BuiltinDefinition::CompilerCpp => "compiler_cpp",
            BuiltinDefinition::CompilerObjCpp => "compiler_objcpp",
            BuiltinDefinition::CompilerObjCxxCpp => "compiler_objcxxcpp",
            BuiltinDefinition::CompilerD => "compiler_d",
            BuiltinDefinition::CompilerAr => "compiler_ar",
            BuiltinDefinition::CompilerObjcopy => "compiler_objcopy",
            BuiltinDefinition::CompilerNm => "compiler_nm",
            BuiltinDefinition::CompilerRanlib => "compiler_ranlib",
            BuiltinDefinition::CompilerStrip => "compiler_strip",
            BuiltinDefinition::CompilerPath => "compiler_path",
            BuiltinDefinition::CompilerLd => "compiler_ld",
            BuiltinDefinition::PgoStage => "pgo_stage",
            BuiltinDefinition::PgoDir => "pgo_dir",
            BuiltinDefinition::CFlags => "cflags",
            BuiltinDefinition::CxxFlags => "cxxflags",
            BuiltinDefinition::FFlags => "fflags",
            BuiltinDefinition::LdFlags => "ldflags",
            BuiltinDefinition::DFlags => "dflags",
            BuiltinDefinition::RustFlags => "rustflags",
        }
    }

    /// The name, description and an example of the definition.
    pub fn details(&self) -> (d: DefinitionDetails<'static>)
        ensures
            d.name@ == spec_definition_name(*self),
            d.description@ == spec_definition_description(*self),
            d.example@ == spec_definition_example(*self),
    {
        match self {
            BuiltinDefinition::Name => DefinitionDetails {
                name: "name",
                description: "The name of the main package built from the recipe.",
                example: "%(name)",
            },
            BuiltinDefinition::Version => DefinitionDetails {
                name: "version",
                description: "The version of the package. Is considered string metadata.",
                example: "%(version)",
            },
            BuiltinDefinition::Release => DefinitionDetails {
                name: "release",
                description: "The source release version of the recipe. Monotonically increasing integer used in place of version for comparisons.",
                example: "%(release)",
            },
            BuiltinDefinition::Jobs => DefinitionDetails {
                name: "jobs",
                description: "The amount of parallel build jobs invoked. Defaults to $(nproc). Included by default in supported build action macros.",
                example: "make -j%(jobs)",
            },
            BuiltinDefinition::PkgDir => DefinitionDetails {
                name: "pkgdir",
                description: "The ./pkg directory next to recipes used for holding package-specific additional files such as patches.",
                example: "%patch %(pkgdir)/some.patch",
            },
            BuiltinDefinition::SourceDir => DefinitionDetails {
                name: "sourcedir",
                description: "The base directory into which each recipe upstream URI is unpacked as separate subdirectories.",
                example: "%(sourcedir)",
            },
            BuiltinDefinition::InstallRoot => DefinitionDetails {
                name: "installroot",
                description: "The directory that is the root of the file tree that gets analysed for inclusion in .stones",
                example: "%install_file %(pkgdir)/a_file %(installroot)%(datadir)/%(name)/",
            },
            BuiltinDefinition::BuildRoot => DefinitionDetails {
                name: "buildroot",
                description: "The directory that is the root of the file tree for the build process.",
                example: "%(buildroot)",
            },
            BuiltinDefinition::WorkDir => DefinitionDetails {
                name: "workdir",
                description: "Each recipe phase starts in this directory and actions are implicitly run in this directory unless changed.",
                example: "%(workdir)",
            },
            BuiltinDefinition::CompilerCache => DefinitionDetails {
                name: "compiler_cache",
                description: "Used when defining the %(ccachedir) location of ccache artefacts in the build container namespace.",
                example: "(only used when defining boulder build profiles)",
            },
            BuiltinDefinition::SCompilerCache => DefinitionDetails {
                name: "scompiler_cache",
                description: "Used when defining the %(sccachedir) location of sccache artefacts in the build container namespace.",
                example: "(only used when defining boulder build profiles)",
            },
            BuiltinDefinition::SourceDateEpoch => DefinitionDetails {
                name: "sourcedateepoch",
                description: "The canonical timestamp for when a recipe was built.",
                example: "Automatically defined and exported as ${SOURCE_DATE_EPOCH} by boulder.",
            },
            BuiltinDefinition::RustcWrapper => DefinitionDetails {
                name: "rustc_wrapper",
                description: "Wrapper for the Rust compiler used by default in a build profile.",
                example: "(only used when defining boulder build profiles)",
            },
            BuiltinDefinition::CompilerC => DefinitionDetails {
                name: "compiler_c",
                description: "The C compiler used by default in a build profile.",
                example: "(only used when defining boulder build profiles)",
            },
            BuiltinDefinition::CompilerCxx => DefinitionDetails {
                name: "compiler_cxx",
                description: "The C++ compiler used by default in a build profile.",
                example: "(only used when defining boulder build profiles)",
            },
            BuiltinDefinition::CompilerObjC => DefinitionDetails {
                name: "compiler_objc",
                description: "The Objective C compiler used by default in a build profile.",
                example: "(only used when defining boulder build profiles)",
            },
            BuiltinDefinition::CompilerObjCxx => DefinitionDetails {
                name: "compiler_objcxx",
                description: "The Objective C++ compiler used by default in a build profile.",
                example: "(only used when defining boulder build profiles)",
            },
            BuiltinDefinition::CompilerCpp => DefinitionDetails {
                name: "compiler_cpp",
                description: "The C preprocessor used by default in a build profile.",
                example: "(only used when defining boulder build profiles)",
            },
            BuiltinDefinition::CompilerObjCpp => DefinitionDetails {
                name: "compiler_objcpp",
                description: "The Objective C preprocessor used by default in a build profile.",
                example: "(only used when defining boulder build profiles)",
            },
            BuiltinDefinition::CompilerObjCxxCpp => DefinitionDetails {
                name: "compiler_objcxxcpp",
                description: "The Objective C++ preprocessor used by default in a build profile.",
                example: "(only used when defining boulder build profiles)",
            },
            BuiltinDefinition::CompilerD => DefinitionDetails {
                name: "compiler_d",
                description: "The DLang compiler used by default in a build profile.",
                example: "(only used when defining boulder build profiles)",
            },
            BuiltinDefinition::CompilerAr => DefinitionDetails {
                name: "compiler_ar",
                description: "The ar ELF object archive tool used by default in a build profile.",
                example: "(only used when defining boulder build profiles)",
            },
            BuiltinDefinition::CompilerObjcopy => DefinitionDetails {
                name: "compiler_objcopy",
                description: "The objcopy ELF object copy tool used by default in a build profile.",
                example: "(only used when defining boulder build profiles)",
            },
            BuiltinDefinition::CompilerNm => DefinitionDetails {
                name: "compiler_nm",
                description: "The nm tool used to decode (demangle) low-level symbol names into user-level names by default in a build profile.",
                example: "(only used when defining boulder build profiles)",
            },
            BuiltinDefinition::CompilerRanlib => DefinitionDetails {
                name: "compiler_ranlib",
                description: "The ranlib tool used to generate indices for statically linked object archives by default in a build profile.",
                example: "(only used when defining boulder build profiles)",
            },
            BuiltinDefinition::CompilerStrip => DefinitionDetails {
                name: "compiler_strip",
                description: "The strip tool used to remove debugging symbols from ELF objects by default in a build profile.",
                example: "(only used when defining boulder build profiles)",
            },
            BuiltinDefinition::CompilerPath => DefinitionDetails {
                name: "compiler_path",
                description: "The default ${PATH} when invoking compilers.",
                example: "(only used when defining boulder build profiles)",
            },
            BuiltinDefinition::CompilerLd => DefinitionDetails {
                name: "compiler_ld",
                description: "The ld linker tool used to link ELF object files into executables or libraries by default in a build profile.",
                example: "(only used when defining boulder build profiles)",
            },
            BuiltinDefinition::PgoStage => DefinitionDetails {
                name: "pgo_stage",
                description: "Used to define the actions and flags in a PGO stage by default in a build profile.",
                example: "(only used when defining boulder build profiles)",
            },
            BuiltinDefinition::PgoDir => DefinitionDetails {
                name: "pgo_dir",
                description: "Used to define the dir used for the build and analysis of instrumented Profile Guided Optimisation runs by default in a build profile.",
                example: "(only used when defining boulder build profiles)",
            },
            BuiltinDefinition::CFlags => DefinitionDetails {
                name: "cflags",
                description: "Defines the default C Compiler (CFLAGS) environment variable flags in a build profile.",
                example: "(only used when defining boulder build profiles)",
            },
            BuiltinDefinition::CxxFlags => DefinitionDetails {
                name: "cxxflags",
                description: "Defines the default C++ Compiler (CXXFLAGS) environment variable flags in a build profile.",
                example: "(only used when defining boulder build profiles)",
            },
            BuiltinDefinition::FFlags => DefinitionDetails {
                name: "fflags",
                description: "Defines the default FORTRAN Compiler (FFLAGS) environment variable flags in a build profile.",
                example: "(only used when defining boulder build profiles)",
            },
            BuiltinDefinition::LdFlags => DefinitionDetails {
                name: "ldflags",
                description: "Defines the default linker (LDFLAGS) environment variable flags in a build profile.",
                example: "(only used when defining boulder build profiles)",
            },
            BuiltinDefinition::DFlags => DefinitionDetails {
                name: "dflags",
                description: "Defines the default DLang Compiler (DFLAGS) environment variable flags in a build profile.",
                example: "(only used when defining boulder build profiles)",
            },
            BuiltinDefinition::RustFlags => DefinitionDetails {
                name: "rustflags",
                description: "Defines the default Rust Compiler (RUSTFLAGS) environment variable flags in a build profile.",
                example: "(only used when defining boulder build profiles)",
            },
        }
    }
}

} // verus!
