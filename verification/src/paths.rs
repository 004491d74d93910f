//! Where a build keeps its files, on the host and inside the build container.

use vstd::prelude::*;
use crate::stone_recipe::recipe::Recipe;
use crate::text::chars_of;

verus! {

/// `a` joined with `b` as `PathBuf::join` does on Unix: `b` when it is absolute or `a`
/// is empty, else `b` after `a` and a separator, unless `a` already ends with one.
pub open spec fn spec_path_join(a: Seq<char>, b: Seq<char>) -> Seq<char> {
    if (b.len() > 0 && b[0] == '/') || a.len() == 0 {
        b
    } else if a.last() == '/' {
        a + b
    } else {
        a + seq!['/'] + b
    }
}

/// Joins two paths as `PathBuf::join` does on Unix.
pub fn path_join(a: &str, b: &str) -> (r: String)
    ensures
        r@ == spec_path_join(a@, b@),
{
    let acs = chars_of(a);
    let bcs = chars_of(b);
    if (bcs.len() > 0 && bcs[0] == '/') || acs.len() == 0 {
        return b.to_owned();
    }
    let mut r = a.to_owned();
    if acs[acs.len() - 1] != '/' {
        r.push('/');
    }
    r.push_str(b);
    assert(r@ =~= spec_path_join(a@, b@));
    r
}

/// The decimal digit `d`.
pub open spec fn digit(d: nat) -> char {
    if d == 0 {
        '0'
    } else if d == 1 {
        '1'
    } else if d == 2 {
        '2'
    } else if d == 3 {
        '3'
    } else if d == 4 {
        '4'
    } else if d == 5 {
        '5'
    } else if d == 6 {
        '6'
    } else if d == 7 {
        '7'
    } else if d == 8 {
        '8'
    } else {
        '9'
    }
}

/// The decimal digits of `n`, most significant first, without leading zeros.
pub open spec fn spec_decimal(n: nat) -> Seq<char>
    decreases n,
{
    if n < 10 {
        seq![digit(n)]
    } else {
        spec_decimal(n / 10).push(digit(n % 10))
    }
}

fn digit_char(d: u64) -> (c: char)
    requires
        d < 10,
    ensures
        c == digit(d as nat),
{
    match d {
        0 => '0',
        1 => '1',
        2 => '2',
        3 => '3',
        4 => '4',
        5 => '5',
        6 => '6',
        7 => '7',
        8 => '8',
        _ => '9',
    }
}

/// The decimal text of `n`.
pub fn decimal_string(n: u64) -> (s: String)
    ensures
        s@ == spec_decimal(n as nat),
{
    let mut rest = n;
    let mut rev: Vec<char> = Vec::new();
    let ghost mut suffix: Seq<char> = Seq::empty();
    while rest >= 10
        invariant
            spec_decimal(n as nat) == spec_decimal(rest as nat) + suffix,
            rev@ == suffix.reverse(),
        decreases rest,
    {
        let d = rest % 10;
        rev.push(digit_char(d));
        proof {
            assert(spec_decimal(rest as nat) == spec_decimal((rest / 10) as nat).push(
                digit((rest % 10) as nat),
            ));
            assert(spec_decimal((rest / 10) as nat).push(digit((rest % 10) as nat)) + suffix
                =~= spec_decimal((rest / 10) as nat) + (seq![digit(d as nat)] + suffix));
            assert((seq![digit(d as nat)] + suffix).reverse() =~= suffix.reverse().push(
                digit(d as nat),
            ));
            suffix = seq![digit(d as nat)] + suffix;
        }
        rest = rest / 10;
    }
    rev.push(digit_char(rest));
    proof {
        assert(spec_decimal(n as nat) =~= seq![digit(rest as nat)] + suffix);
        assert((seq![digit(rest as nat)] + suffix).reverse() =~= suffix.reverse().push(
            digit(rest as nat),
        ));
        suffix = seq![digit(rest as nat)] + suffix;
    }
    let mut s = String::new();
    let mut i = rev.len();
    while i > 0
        invariant
            i <= rev@.len(),
            rev@ == suffix.reverse(),
            spec_decimal(n as nat) == suffix,
            s@ == suffix.subrange(0, rev@.len() - i),
        decreases i,
    {
        i -= 1;
        s.push(rev[i]);
        assert(s@ =~= suffix.subrange(0, rev@.len() - i));
    }
    assert(suffix.subrange(0, rev@.len() as int) =~= suffix);
    s
}

/// The identity of a build: `name-version-release` of its recipe.
#[derive(Debug, Clone)]
pub struct Id(String);

/// The identity of the recipe with the given source fields.
pub open spec fn spec_id(name: Seq<char>, version: Seq<char>, release: u64) -> Seq<char> {
    name + seq!['-'] + version + seq!['-'] + spec_decimal(release as nat)
}

impl Id {
    /// The identity text.
    pub closed spec fn spec_text(&self) -> Seq<char> {
        self.0@
    }

    /// The identity of a build of `recipe`.
    pub fn new(recipe: &Recipe) -> (id: Self)
        ensures
            id.spec_text() == spec_id(
                recipe.source.name@,
                recipe.source.version@,
                recipe.source.release,
            ),
    {
        let mut s = recipe.source.name.clone();
        s.push('-');
        s.push_str(recipe.source.version.as_str());
        s.push('-');
        s.push_str(decimal_string(recipe.source.release).as_str());
        assert(s@ =~= spec_id(recipe.source.name@, recipe.source.version@, recipe.source.release));
        Id(s)
    }

    /// The identity text.
    pub fn as_str(&self) -> (s: &str)
        ensures
            s@ == self.spec_text(),
    {
        self.0.as_str()
    }
}

/// A directory as the host sees it and as the build container sees it.
#[derive(Debug, Clone)]
pub struct Mapping {
    pub host: String,
    pub guest: String,
}

/// The directories of a build.
#[derive(Debug, Clone)]
pub struct Paths {
    id: Id,
    host_root: String,
    guest_root: String,
    recipe_dir: String,
    output_dir: String,
}

/// The path with its leading separators left out.
pub open spec fn strip_root(p: Seq<char>) -> Seq<char>
    decreases p.len(),
{
    if p.len() > 0 && p[0] == '/' {
        strip_root(p.drop_first())
    } else {
        p
    }
}

impl Paths {
    /// The identity of the build.
    pub closed spec fn spec_id(&self) -> Seq<char> {
        self.id.0@
    }

    /// The root of the host directories.
    pub closed spec fn spec_host_root(&self) -> Seq<char> {
        self.host_root@
    }

    /// The root of the container directories.
    pub closed spec fn spec_guest_root(&self) -> Seq<char> {
        self.guest_root@
    }

    /// The directory of the recipe.
    pub closed spec fn spec_recipe_dir(&self) -> Seq<char> {
        self.recipe_dir@
    }

    /// The directory that artefacts are synced to.
    pub closed spec fn spec_output_dir(&self) -> Seq<char> {
        self.output_dir@
    }

    /// The directories of the build `id`: `host_root` and `recipe_dir` as the host
    /// resolved them, `guest_root` and `output_dir` as given.
    pub fn new(id: Id, host_root: String, guest_root: String, recipe_dir: String, output_dir: String) -> (p: Self)
        ensures
            p.spec_id() == id.spec_text(),
            p.spec_host_root() == host_root@,
            p.spec_guest_root() == guest_root@,
            p.spec_recipe_dir() == recipe_dir@,
            p.spec_output_dir() == output_dir@,
    {
        Paths { id, host_root, guest_root, recipe_dir, output_dir }
    }

    /// The root filesystem of the build: `host_root/root/id` on the host, `/` inside.
    pub fn rootfs(&self) -> (m: Mapping)
        ensures
            m.host@ == spec_path_join(spec_path_join(self.spec_host_root(), "root"@), self.spec_id()),
            m.guest@ == "/"@,
    {
        let host = path_join(path_join(self.host_root.as_str(), "root").as_str(), self.id.0.as_str());
        Mapping { host, guest: "/".to_owned() }
    }

    /// The artefacts directory: `host_root/artefacts/id`, `guest_root/artefacts`.
    pub fn artefacts(&self) -> (m: Mapping)
        ensures
            m.host@ == spec_path_join(spec_path_join(self.spec_host_root(), "artefacts"@), self.spec_id()),
            m.guest@ == spec_path_join(self.spec_guest_root(), "artefacts"@),
    {
        let host = path_join(path_join(self.host_root.as_str(), "artefacts").as_str(), self.id.0.as_str());
        Mapping { host, guest: path_join(self.guest_root.as_str(), "artefacts") }
    }

    /// The build directory: `host_root/build/id`, `guest_root/build`.
    pub fn build(&self) -> (m: Mapping)
        ensures
            m.host@ == spec_path_join(spec_path_join(self.spec_host_root(), "build"@), self.spec_id()),
            m.guest@ == spec_path_join(self.spec_guest_root(), "build"@),
    {
        let host = path_join(path_join(self.host_root.as_str(), "build").as_str(), self.id.0.as_str());
        Mapping { host, guest: path_join(self.guest_root.as_str(), "build") }
    }

    /// The compiler cache: `host_root/ccache`, `guest_root/ccache`.
    pub fn ccache(&self) -> (m: Mapping)
        ensures
            m.host@ == spec_path_join(self.spec_host_root(), "ccache"@),
            m.guest@ == spec_path_join(self.spec_guest_root(), "ccache"@),
    {
        Mapping {
            host: path_join(self.host_root.as_str(), "ccache"),
            guest: path_join(self.guest_root.as_str(), "ccache"),
        }
    }

    /// The rust compiler cache: `host_root/sccache`, `guest_root/sccache`.
    pub fn sccache(&self) -> (m: Mapping)
        ensures
            m.host@ == spec_path_join(self.spec_host_root(), "sccache"@),
            m.guest@ == spec_path_join(self.spec_guest_root(), "sccache"@),
    {
        Mapping {
            host: path_join(self.host_root.as_str(), "sccache"),
            guest: path_join(self.guest_root.as_str(), "sccache"),
        }
    }

    /// The upstreams: `host_root/upstreams`, `guest_root/sourcedir`.
    pub fn upstreams(&self) -> (m: Mapping)
        ensures
            m.host@ == spec_path_join(self.spec_host_root(), "upstreams"@),
            m.guest@ == spec_path_join(self.spec_guest_root(), "sourcedir"@),
    {
        Mapping {
            host: path_join(self.host_root.as_str(), "upstreams"),
            guest: path_join(self.guest_root.as_str(), "sourcedir"),
        }
    }

    /// The recipe directory: as the host resolved it, `guest_root/recipe`.
    pub fn recipe(&self) -> (m: Mapping)
        ensures
            m.host@ == self.spec_recipe_dir(),
            m.guest@ == spec_path_join(self.spec_guest_root(), "recipe"@),
    {
        Mapping { host: self.recipe_dir.clone(), guest: path_join(self.guest_root.as_str(), "recipe") }
    }

    /// The install directory: `mason/install` under the root filesystem on the host,
    /// `guest_root/install`.
    pub fn install(&self) -> (m: Mapping)
        ensures
            m.host@ == spec_path_join(
                spec_path_join(
                    spec_path_join(spec_path_join(self.spec_host_root(), "root"@), self.spec_id()),
                    "mason"@,
                ),
                "install"@,
            ),
            m.guest@ == spec_path_join(self.spec_guest_root(), "install"@),
    {
        let root = self.rootfs().host;
        let host = path_join(path_join(root.as_str(), "mason").as_str(), "install");
        Mapping { host, guest: path_join(self.guest_root.as_str(), "install") }
    }

    /// For the provided [`Mapping`], the guest path as it lives on the host: the guest
    /// path, taken relative to `/`, under the root filesystem. For example, with the
    /// host root filesystem at `/var/cache/boulder/root/test`, the guest path
    /// `/mason/build` lives at `/var/cache/boulder/root/test/mason/build`.
    pub fn guest_host_path(&self, mapping: &Mapping) -> (p: String)
        ensures
            p@ == spec_path_join(
                spec_path_join(spec_path_join(self.spec_host_root(), "root"@), self.spec_id()),
                strip_root(mapping.guest@),
            ),
    {
        let cs = chars_of(mapping.guest.as_str());
        let mut k: usize = 0;
        assert(cs@.subrange(0, cs@.len() as int) =~= cs@);
        while k < cs.len() && cs[k] == '/'
            invariant
                k <= cs@.len(),
                strip_root(cs@) == strip_root(cs@.subrange(k as int, cs@.len() as int)),
            decreases cs@.len() - k,
        {
            assert(cs@.subrange(k as int, cs@.len() as int).drop_first() =~= cs@.subrange(
                k + 1,
                cs@.len() as int,
            ));
            k += 1;
        }
        assert(cs@.subrange(0, cs@.len() as int) =~= cs@);
        let relative = crate::text::string_of_range(&cs, k, cs.len());
        path_join(self.rootfs().host.as_str(), relative.as_str())
    }

    /// The output directory used for artefact syncing.
    pub fn output_dir(&self) -> (d: &String)
        ensures
            d@ == self.spec_output_dir(),
    {
        &self.output_dir
    }
}

} // verus!
