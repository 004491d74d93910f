//! The command line: short aliases for the recipe subcommands.

use vstd::prelude::*;
use crate::text::{
    chars_of, contains_sub, has_sub, lines, lines_of, range_equals, str_eq, words, words_of,
};

verus! {

/// The aliases, each with the arguments it stands for, in the order they are tried.
pub open spec fn alias_table() -> Seq<(Seq<char>, Seq<Seq<char>>)> {
    seq![
        ("bump"@, seq!["recipe"@, "bump"@]),
        ("new"@, seq!["recipe"@, "new"@]),
        ("macros"@, seq!["recipe"@, "macros"@]),
        ("up"@, seq!["recipe"@, "update"@]),
    ]
}

/// The position of the first argument equal to `a`.
pub open spec fn first_pos(args: Seq<Seq<char>>, a: Seq<char>) -> Option<int>
    decreases args.len(),
{
    if args.len() == 0 {
        None
    } else if args.last() == a && first_pos(args.drop_last(), a) is None {
        Some(args.len() - 1)
    } else {
        first_pos(args.drop_last(), a)
    }
}

/// The arguments with the aliases from the `k`th on replaced: the first of them that
/// occurs, at its first occurrence, by what it stands for, unless the argument before it
/// is already the first of those (the alias then names the inner subcommand itself).
pub open spec fn spec_replace_aliases(args: Seq<Seq<char>>, k: int) -> Seq<Seq<char>>
    decreases 4 - k,
{
    if k < 0 || k >= 4 {
        args
    } else {
        let (alias, rep) = alias_table()[k];
        match first_pos(args, alias) {
            None => spec_replace_aliases(args, k + 1),
            Some(p) => if p > 0 && args[p - 1] == rep[0] {
                spec_replace_aliases(args, k + 1)
            } else {
                args.take(p) + rep + args.skip(p + 1)
            },
        }
    }
}

/// The position of the first argument equal to `a`.
fn position(args: &Vec<String>, a: &str) -> (r: Option<usize>)
    ensures
        match r {
            Some(p) => first_pos(args.deep_view(), a@) == Some(p as int) && p < args@.len(),
            None => first_pos(args.deep_view(), a@) is None,
        },
{
    let ghost v = args.deep_view();
    let mut i: usize = 0;
    while i < args.len()
        invariant
            i <= args@.len(),
            v == args.deep_view(),
            forall|j: int| 0 <= j < i ==> v[j] != a@,
        decreases args@.len() - i,
    {
        if str_eq(args[i].as_str(), a) {
            proof {
                assert(v[i as int] == args@[i as int]@);
                lemma_first_pos_at(v, a@, i as int);
            }
            return Some(i);
        }
        assert(v[i as int] == args@[i as int]@);
        i += 1;
    }
    proof {
        lemma_first_pos_none(v, a@);
    }
    None
}

/// Where `a` first stands at `i`, that is its first position.
proof fn lemma_first_pos_at(v: Seq<Seq<char>>, a: Seq<char>, i: int)
    requires
        0 <= i < v.len(),
        v[i] == a,
        forall|j: int| 0 <= j < i ==> v[j] != a,
    ensures
        first_pos(v, a) == Some(i),
    decreases v.len(),
{
    if i < v.len() - 1 {
        lemma_first_pos_at(v.drop_last(), a, i);
    } else {
        assert forall|j: int| 0 <= j < v.drop_last().len() implies v.drop_last()[j] != a by {
            assert(v.drop_last()[j] == v[j]);
        }
        lemma_first_pos_none(v.drop_last(), a);
    }
}

/// Where `a` does not stand, it has no position.
proof fn lemma_first_pos_none(v: Seq<Seq<char>>, a: Seq<char>)
    requires
        forall|j: int| 0 <= j < v.len() ==> v[j] != a,
    ensures
        first_pos(v, a) is None,
    decreases v.len(),
{
    if v.len() > 0 {
        lemma_first_pos_none(v.drop_last(), a);
    }
}

/// The arguments an alias stands for.
fn replacement(k: usize) -> (r: Vec<String>)
    requires
        k < 4,
    ensures
        r.deep_view() == alias_table()[k as int].1,
{
    let second = if k == 0 {
        "bump"
    } else if k == 1 {
        "new"
    } else if k == 2 {
        "macros"
    } else {
        "update"
    };
    let r = vec!["recipe".to_owned(), second.to_owned()];
    assert(r.deep_view() =~= alias_table()[k as int].1);
    r
}

/// The command line arguments with the first alias that occurs replaced by the
/// arguments it stands for: `bump`, `new`, `macros` and `up` for `recipe bump`, `recipe
/// new`, `recipe macros` and `recipe update`, tried in that order; an alias that follows
/// `recipe` is left as it stands.
pub fn replace_aliases(args: Vec<String>) -> (r: Vec<String>)
    ensures
        r.deep_view() == spec_replace_aliases(args.deep_view(), 0),
{
    let ghost v = args.deep_view();
    let mut k: usize = 0;
    while k < 4
        invariant
            k <= 4,
            v == args.deep_view(),
            spec_replace_aliases(v, 0) == spec_replace_aliases(v, k as int),
        decreases 4 - k,
    {
        let alias = if k == 0 {
            "bump"
        } else if k == 1 {
            "new"
        } else if k == 2 {
            "macros"
        } else {
            "up"
        };
        assert(alias@ == alias_table()[k as int].0);
        let rep = replacement(k);
        match position(&args, alias) {
            None => {},
            Some(p) => {
                let escape = p > 0 && str_eq(args[p - 1].as_str(), rep[0].as_str());
                proof {
                    assert(rep.deep_view()[0] == rep@[0]@);
                    if p > 0 {
                        assert(v[p - 1] == args@[p - 1]@);
                    }
                }
                if !escape {
                    let mut out: Vec<String> = Vec::new();
                    let mut i: usize = 0;
                    while i < p
                        invariant
                            i <= p < args@.len(),
                            out.deep_view() == args.deep_view().take(i as int),
                        decreases p - i,
                    {
                        let ghost before = out.deep_view();
                        let c = args[i].clone();
                        out.push(c);
                        assert(out.deep_view() =~= before.push(c@));
                        assert(args.deep_view()[i as int] == args@[i as int]@);
                        i += 1;
                        assert(out.deep_view() =~= args.deep_view().take(i as int));
                    }
                    let ghost before = out.deep_view();
                    let r0 = rep[0].clone();
                    let r1 = rep[1].clone();
                    out.push(r0);
                    out.push(r1);
                    assert(rep.deep_view() =~= seq![r0@, r1@]);
                    assert(out.deep_view() =~= before + rep.deep_view());
                    assert(p < args.len());
                    let mut i: usize = p + 1;
                    let ghost head = out.deep_view();
                    while i < args.len()
                        invariant
                            p < i <= args@.len(),
                            head == args.deep_view().take(p as int) + rep.deep_view(),
                            out.deep_view() == head + args.deep_view().subrange(p + 1, i as int),
                        decreases args@.len() - i,
                    {
                        let ghost before = out.deep_view();
                        let c = args[i].clone();
                        out.push(c);
                        assert(out.deep_view() =~= before.push(c@));
                        assert(args.deep_view()[i as int] == args@[i as int]@);
                        i += 1;
                        assert(out.deep_view() =~= head + args.deep_view().subrange(p + 1, i as int));
                    }
                    assert(out.deep_view() =~= v.take(p as int) + alias_table()[k as int].1 + v.skip(p + 1));
                    return out;
                }
            },
        }
        k += 1;
    }
    args
}

/// The subcommands of the command line.
#[derive(Debug, Clone, Copy, PartialEq, Eq, Structural)]
pub enum SubcommandKind {
    Build,
    Chroot,
    Profile,
    Recipe,
    Version,
}

/// Why the repository flags cannot be used as given.
#[derive(Debug, Clone, Copy, PartialEq, Eq, Structural)]
pub enum FlagError {
    /// `--mv-to-repo` with a subcommand other than `build` or `recipe`.
    MoveOutsideBuild,
    /// `--re-index` with a subcommand other than `build` or `recipe`, without `--mv-to-repo`.
    ReindexOutsideBuild,
    /// `--mv-to-repo` and `--re-index` with a subcommand other than `build` or `recipe`.
    BothOutsideBuild,
}

/// Whether the subcommand builds packages, and so may move them to a repository.
pub open spec fn builds(sub: Option<SubcommandKind>) -> bool {
    sub == Some(SubcommandKind::Build) || sub == Some(SubcommandKind::Recipe)
}

/// Checks the repository flags against the subcommand: they are only for `build` and
/// `recipe`, whatever their combination; with any other subcommand, or none, each
/// combination that sets a flag is refused.
pub fn check_repo_flags(sub: Option<SubcommandKind>, mv_to_repo: bool, re_index: bool) -> (r: Result<(), FlagError>)
    ensures
        r is Ok <==> builds(sub) || (!mv_to_repo && !re_index),
        r == Err::<(), FlagError>(FlagError::MoveOutsideBuild) <==> !builds(sub) && mv_to_repo && !re_index,
        r == Err::<(), FlagError>(FlagError::ReindexOutsideBuild) <==> !builds(sub) && !mv_to_repo && re_index,
        r == Err::<(), FlagError>(FlagError::BothOutsideBuild) <==> !builds(sub) && mv_to_repo && re_index,
{
    match sub {
        Some(SubcommandKind::Build) | Some(SubcommandKind::Recipe) => Ok(()),
        _ => {
            if mv_to_repo && !re_index {
                Err(FlagError::MoveOutsideBuild)
            } else if !mv_to_repo && re_index {
                Err(FlagError::ReindexOutsideBuild)
            } else if mv_to_repo && re_index {
                Err(FlagError::BothOutsideBuild)
            } else {
                Ok(())
            }
        },
    }
}

/// The last word that holds `//`.
pub open spec fn last_uri(ws: Seq<Seq<char>>) -> Option<Seq<char>>
    decreases ws.len(),
{
    if ws.len() == 0 {
        None
    } else if has_sub(ws.last(), "//"@) {
        Some(ws.last())
    } else {
        last_uri(ws.drop_last())
    }
}

/// `s` from position `i` on, with every occurrence of `pat` taken out, from the left.
pub open spec fn remove_all_from(s: Seq<char>, pat: Seq<char>, i: int) -> Seq<char>
    decreases s.len() - i,
{
    if i >= s.len() {
        Seq::empty()
    } else if pat.len() > 0 && i + pat.len() <= s.len() && s.subrange(i, i + pat.len()) == pat {
        remove_all_from(s, pat, i + pat.len())
    } else {
        seq![s[i]] + remove_all_from(s, pat, i + 1)
    }
}

/// The URI that a line of the repository listing gives: its last word that holds `//`,
/// without `file://` where it is a local path.
pub open spec fn line_uri(line: Seq<char>) -> Option<Seq<char>> {
    match last_uri(words_of(line)) {
        None => None,
        Some(u) => Some(
            if has_sub(u, "file:///"@) {
                remove_all_from(u, "file://"@, 0)
            } else {
                u
            },
        ),
    }
}

/// The URI of `repo` among the lines `ls`: that of the last line that names it; `None`
/// where a line that names it gives no URI.
pub open spec fn repo_uri_in(ls: Seq<Seq<char>>, repo: Seq<char>) -> Option<Option<Seq<char>>>
    decreases ls.len(),
{
    if ls.len() == 0 {
        Some(None)
    } else {
        match repo_uri_in(ls.drop_last(), repo) {
            None => None,
            Some(prev) => if has_sub(ls.last(), repo) {
                match line_uri(ls.last()) {
                    None => None,
                    Some(u) => Some(Some(u)),
                }
            } else {
                Some(prev)
            },
        }
    }
}

/// The repository listing names the repository on a line that gives no URI.
#[derive(Debug, Clone, Copy, PartialEq, Eq, Structural)]
pub enum RepoListError {
    LineWithoutUri,
}

/// `cs` with every occurrence of `pat`, which is not empty, taken out from the left.
fn remove_all(cs: &Vec<char>, pat: &Vec<char>) -> (v: Vec<char>)
    requires
        pat@.len() > 0,
    ensures
        v@ == remove_all_from(cs@, pat@, 0),
{
    let mut v: Vec<char> = Vec::new();
    let mut i: usize = 0;
    while i < cs.len()
        invariant
            i <= cs@.len(),
            pat@.len() > 0,
            remove_all_from(cs@, pat@, 0) == v@ + remove_all_from(cs@, pat@, i as int),
        decreases cs@.len() - i,
    {
        if pat.len() <= cs.len() - i && range_equals(cs, i, i + pat.len(), pat) {
            i += pat.len();
        } else {
            let ghost before = v@;
            v.push(cs[i]);
            assert(v@ + remove_all_from(cs@, pat@, i + 1) =~= before + (seq![cs@[i as int]] + remove_all_from(
                cs@,
                pat@,
                i + 1,
            )));
            i += 1;
        }
    }
    assert(v@ + remove_all_from(cs@, pat@, i as int) =~= v@);
    v
}

/// The URI that a line of the repository listing gives.
fn uri_of_line(line: &Vec<char>) -> (r: Option<Vec<char>>)
    ensures
        r matches Some(u) ==> line_uri(line@) == Some(u@),
        r is None ==> line_uri(line@) is None,
{
    let ws = words(line);
    let ghost wv = ws@.map_values(|w: Vec<char>| w@);
    let slashes = chars_of("//");
    let mut k: usize = ws.len();
    assert(wv.take(k as int) =~= wv);
    while k > 0
        invariant
            k <= ws@.len(),
            wv == ws@.map_values(|w: Vec<char>| w@),
            wv == words_of(line@),
            slashes@ == "//"@,
            last_uri(wv) == last_uri(wv.take(k as int)),
        decreases k,
    {
        assert(wv.take(k as int).last() == ws@[k - 1]@);
        assert(wv.take(k as int).drop_last() =~= wv.take(k - 1));
        if contains_sub(&ws[k - 1], &slashes) {
            let u = &ws[k - 1];
            let local = chars_of("file:///");
            let scheme = chars_of("file://");
            proof {
                reveal_strlit("file://");
            }
            if contains_sub(u, &local) {
                return Some(remove_all(u, &scheme));
            }
            let mut copy: Vec<char> = Vec::new();
            let mut j: usize = 0;
            while j < u.len()
                invariant
                    j <= u@.len(),
                    copy@ == u@.take(j as int),
                decreases u@.len() - j,
            {
                copy.push(u[j]);
                j += 1;
                assert(copy@ =~= u@.take(j as int));
            }
            assert(u@.take(j as int) =~= u@);
            return Some(copy);
        }
        k -= 1;
    }
    assert(wv.take(0) =~= Seq::<Seq<char>>::empty());
    None
}

/// The URI under which the repository listing of the package manager registers `repo`:
/// that of the last line naming it, its last word that holds `//`, without `file://`
/// where it is a local path; `None` where no line names it, and an error where a line
/// that names it gives no URI.
pub fn repo_uri(repo: &str, listing: &str) -> (r: Result<Option<String>, RepoListError>)
    ensures
        match repo_uri_in(lines_of(listing@), repo@) {
            None => r == Err::<Option<String>, RepoListError>(RepoListError::LineWithoutUri),
            Some(u) => r matches Ok(x) && x.deep_view() == u,
        },
{
    let cs = chars_of(listing);
    let name = chars_of(repo);
    let ls = lines(&cs);
    let ghost lv = ls@.map_values(|l: Vec<char>| l@);
    let mut found: Option<Vec<char>> = None;
    let mut i: usize = 0;
    assert(lv.take(0) =~= Seq::<Seq<char>>::empty());
    while i < ls.len()
        invariant
            i <= ls@.len(),
            lv == ls@.map_values(|l: Vec<char>| l@),
            lv == lines_of(cs@),
            name@ == repo@,
            cs@ == listing@,
            repo_uri_in(lv.take(i as int), repo@) == Some(
                match found {
                    Some(u) => Some(u@),
                    None => None::<Seq<char>>,
                },
            ),
        decreases ls@.len() - i,
    {
        assert(lv.take(i + 1).drop_last() =~= lv.take(i as int));
        assert(lv.take(i + 1).last() == ls@[i as int]@);
        if contains_sub(&ls[i], &name) {
            match uri_of_line(&ls[i]) {
                Some(u) => {
                    found = Some(u);
                },
                None => {
                    proof {
                        lemma_repo_uri_none(lv, repo@, i + 1);
                    }
                    return Err(RepoListError::LineWithoutUri);
                },
            }
        }
        i += 1;
    }
    assert(lv.take(i as int) =~= lv);
    match found {
        Some(u) => {
            let s = crate::text::string_of(u.as_slice());
            Ok(Some(s))
        },
        None => Ok(None),
    }
}

/// Once a line that names the repository gives no URI, no later line changes that.
proof fn lemma_repo_uri_none(ls: Seq<Seq<char>>, repo: Seq<char>, k: int)
    requires
        0 <= k <= ls.len(),
        repo_uri_in(ls.take(k), repo) is None,
    ensures
        repo_uri_in(ls, repo) is None,
    decreases ls.len() - k,
{
    if k < ls.len() {
        assert(ls.take(k + 1).drop_last() =~= ls.take(k));
        lemma_repo_uri_none(ls, repo, k + 1);
    } else {
        assert(ls.take(k) =~= ls);
    }
}

/// The first position from `i` on where `pat` stands in `s`.
pub open spec fn first_at(s: Seq<char>, pat: Seq<char>, i: int) -> Option<int>
    decreases s.len() + 1 - i,
{
    if i < 0 || i + pat.len() > s.len() {
        None
    } else if s.subrange(i, i + pat.len()) == pat {
        Some(i)
    } else {
        first_at(s, pat, i + 1)
    }
}

/// `s` with the first occurrence of `pat` taken out, as `replacen(pat, "", 1)` gives it.
pub open spec fn remove_first(s: Seq<char>, pat: Seq<char>) -> Seq<char> {
    match first_at(s, pat, 0) {
        Some(p) => s.take(p) + s.skip(p + pat.len()),
        None => s,
    }
}

/// `cs` with the first occurrence of `pat` taken out.
fn remove_first_of(cs: &Vec<char>, pat: &Vec<char>) -> (v: Vec<char>)
    ensures
        v@ == remove_first(cs@, pat@),
{
    let n = pat.len();
    let total = cs.len();
    if n > total {
        return crate::text::string_chars(cs, 0, total);
    }
    let mut i: usize = 0;
    loop
        invariant
            n == pat@.len(),
            total == cs@.len(),
            n <= total,
            i <= total - n,
            first_at(cs@, pat@, 0) == first_at(cs@, pat@, i as int),
        decreases total - n - i,
    {
        if range_equals(cs, i, i + n, pat) {
            let mut v = crate::text::string_chars(cs, 0, i);
            let tail = crate::text::string_chars(cs, i + n, total);
            let ghost head = v@;
            let mut k: usize = 0;
            while k < tail.len()
                invariant
                    k <= tail@.len(),
                    v@ == head + tail@.take(k as int),
                decreases tail@.len() - k,
            {
                v.push(tail[k]);
                k += 1;
                assert(v@ =~= head + tail@.take(k as int));
            }
            assert(tail@.take(k as int) =~= tail@);
            assert(v@ =~= cs@.take(i as int) + cs@.skip(i + n));
            return v;
        }
        if i == total - n {
            assert(first_at(cs@, pat@, i + 1) is None);
            let v = crate::text::string_chars(cs, 0, total);
            assert(v@ =~= cs@);
            return v;
        }
        i += 1;
    }
}

/// The directory of a repository that built packages are moved to: its index URI
/// without `file://` where it has one, and without `stone.index`.
pub open spec fn spec_repo_dir(uri: Seq<char>) -> Seq<char> {
    if has_sub(uri, "file://"@) {
        remove_first(remove_first(uri, "file://"@), "stone.index"@)
    } else {
        remove_first(uri, "stone.index"@)
    }
}

/// The directory of a repository that built packages are moved to.
pub fn repo_dir(uri: &str) -> (d: String)
    ensures
        d@ == spec_repo_dir(uri@),
{
    let cs = chars_of(uri);
    let scheme = chars_of("file://");
    let index = chars_of("stone.index");
    let v = if contains_sub(&cs, &scheme) {
        let w = remove_first_of(&cs, &scheme);
        remove_first_of(&w, &index)
    } else {
        remove_first_of(&cs, &index)
    };
    crate::text::string_of(v.as_slice())
}

/// The position of the last `.` among the first `i` characters of `s`.
pub open spec fn last_dot(s: Seq<char>, i: int) -> Option<int>
    decreases i,
{
    if i <= 0 || i > s.len() {
        None
    } else if s[i - 1] == '.' {
        Some(i - 1)
    } else {
        last_dot(s, i - 1)
    }
}

/// The extension of a file name, as `Path::extension` gives it: what follows its last
/// `.`; none where it has no `.`, or its only one starts it.
pub open spec fn spec_extension(name: Seq<char>) -> Option<Seq<char>> {
    match last_dot(name, name.len() as int) {
        None => None,
        Some(p) => if p == 0 {
            None
        } else {
            Some(name.skip(p + 1))
        },
    }
}

/// The extension of a file name, as `Path::extension` gives it.
pub fn extension(name: &str) -> (r: Option<String>)
    ensures
        r.deep_view() == spec_extension(name@),
{
    let cs = chars_of(name);
    let mut i = cs.len();
    while i > 0 && cs[i - 1] != '.'
        invariant
            i <= cs@.len(),
            cs@ == name@,
            last_dot(cs@, cs@.len() as int) == last_dot(cs@, i as int),
        decreases i,
    {
        i -= 1;
    }
    if i <= 1 {
        return None;
    }
    Some(crate::text::string_of_range(&cs, i, cs.len()))
}

/// The built packages among the files of a directory, each with where it moves to in
/// the repository directory `dir`, in order: the regular files with the extension
/// `stone`.
pub open spec fn spec_moves(dir: Seq<char>, files: Seq<(Seq<char>, bool)>) -> Seq<(Seq<char>, Seq<char>)>
    decreases files.len(),
{
    if files.len() == 0 {
        Seq::empty()
    } else {
        let rest = spec_moves(dir, files.drop_last());
        let (name, is_file) = files.last();
        if is_file && spec_extension(name) == Some("stone"@) {
            rest.push((name, crate::paths::spec_path_join(dir, name)))
        } else {
            rest
        }
    }
}

/// The repository that built packages are to move to has no path.
#[derive(Debug, Clone, Copy, PartialEq, Eq, Structural)]
pub enum MoveError {
    NoRepoPath,
}

/// What moving built packages to a repository does, given the repository's index URI
/// and the files of the current directory (each name, and whether it is a regular file):
/// the repository directory, and each package moved there, by its name; an error where
/// the repository has no path, nothing moving.
pub fn plan_move(repo_uri: &Option<String>, files: &Vec<(String, bool)>) -> (r: Result<
    (String, Vec<(String, String)>),
    MoveError,
>)
    ensures
        match repo_uri {
            None => r == Err::<(String, Vec<(String, String)>), MoveError>(MoveError::NoRepoPath),
            Some(u) => r matches Ok((d, mv)) && d@ == spec_repo_dir(u@) && mv@.map_values(
                |m: (String, String)| (m.0@, m.1@),
            ) == spec_moves(d@, files@.map_values(|f: (String, bool)| (f.0@, f.1))),
        },
{
    let uri = match repo_uri {
        None => return Err(MoveError::NoRepoPath),
        Some(u) => u,
    };
    let dir = repo_dir(uri.as_str());
    let ghost fv = files@.map_values(|f: (String, bool)| (f.0@, f.1));
    let mut mv: Vec<(String, String)> = Vec::new();
    let mut i: usize = 0;
    assert(fv.take(0) =~= Seq::<(Seq<char>, bool)>::empty());
    while i < files.len()
        invariant
            i <= files@.len(),
            fv == files@.map_values(|f: (String, bool)| (f.0@, f.1)),
            mv@.map_values(|m: (String, String)| (m.0@, m.1@)) == spec_moves(dir@, fv.take(i as int)),
        decreases files@.len() - i,
    {
        assert(fv.take(i + 1).drop_last() =~= fv.take(i as int));
        assert(fv.take(i + 1).last() == (files@[i as int].0@, files@[i as int].1));
        let (name, is_file) = &files[i];
        if *is_file {
            let ext = extension(name.as_str());
            let stone = match &ext {
                Some(e) => crate::text::str_eq(e.as_str(), "stone"),
                None => false,
            };
            if stone {
                let ghost before = mv@.map_values(|m: (String, String)| (m.0@, m.1@));
                let dest = crate::paths::path_join(dir.as_str(), name.as_str());
                mv.push((name.clone(), dest));
                assert(mv@.map_values(|m: (String, String)| (m.0@, m.1@)) =~= before.push(
                    (name@, crate::paths::spec_path_join(dir@, name@)),
                ));
            }
        }
        i += 1;
    }
    assert(fv.take(i as int) =~= fv);
    Ok((dir, mv))
}

} // verus!
