//! Pinning the git upstreams of a recipe to commits: which refs need resolving, and
//! what is written back in their place.

use vstd::prelude::*;
use crate::stone_recipe::upstream::{is_hex, Upstream, UpstreamView};
use crate::text::{chars_of, string_of, words, words_of};

verus! {

/// Whether `s` is a full git commit hash: 40 (SHA-1) or 64 (SHA-256) hexadecimal digits.
pub open spec fn spec_is_commit_hash(s: Seq<char>) -> bool {
    (s.len() == 40 || s.len() == 64) && forall|i: int| 0 <= i < s.len() ==> is_hex(#[trigger] s[i])
}

/// Whether `s` is a full git commit hash.
pub fn is_valid_commit_hash(s: &str) -> (b: bool)
    ensures
        b == spec_is_commit_hash(s@),
{
    let cs = chars_of(s);
    if cs.len() != 40 && cs.len() != 64 {
        return false;
    }
    let mut i: usize = 0;
    while i < cs.len()
        invariant
            cs@ == s@,
            i <= cs@.len(),
            forall|k: int| 0 <= k < i ==> is_hex(#[trigger] cs@[k]),
        decreases cs@.len() - i,
    {
        let c = cs[i];
        if !(('0' <= c && c <= '9') || ('a' <= c && c <= 'f') || ('A' <= c && c <= 'F')) {
            return false;
        }
        i += 1;
    }
    true
}

/// The positions of the git upstreams whose ref is not a full commit hash, in order.
pub open spec fn unpinned(us: Seq<UpstreamView>) -> Seq<int>
    decreases us.len(),
{
    if us.len() == 0 {
        Seq::empty()
    } else {
        let rest = unpinned(us.drop_last());
        match us.last() {
            UpstreamView::Git { ref_id, .. } => if spec_is_commit_hash(ref_id) {
                rest
            } else {
                rest.push(us.len() - 1)
            },
            _ => rest,
        }
    }
}

/// The positions of the git upstreams whose ref must be resolved to a commit, in order.
pub fn refs_to_resolve(us: &Vec<Upstream>) -> (r: Vec<usize>)
    ensures
        r@.map_values(|i: usize| i as int) == unpinned(us.deep_view()),
{
    let ghost uv = us.deep_view();
    let mut r: Vec<usize> = Vec::new();
    let mut i: usize = 0;
    assert(uv.take(0) =~= Seq::<UpstreamView>::empty());
    while i < us.len()
        invariant
            i <= us@.len(),
            uv == us.deep_view(),
            r@.map_values(|i: usize| i as int) == unpinned(uv.take(i as int)),
        decreases us@.len() - i,
    {
        assert(uv.take(i + 1).drop_last() =~= uv.take(i as int));
        assert(uv.take(i + 1).last() == us@[i as int].deep_view());
        if let Upstream::Git { ref_id, .. } = &us[i] {
            if !is_valid_commit_hash(ref_id.as_str()) {
                let ghost before = r@.map_values(|i: usize| i as int);
                r.push(i);
                assert(r@.map_values(|i: usize| i as int) =~= before.push(i as int));
            }
        }
        i += 1;
    }
    assert(uv.take(i as int) =~= uv);
    r
}

/// The refs that `git ls-remote` is asked about for a ref: the tag, then the branch.
pub open spec fn spec_remote_refs(ref_id: Seq<char>) -> Seq<Seq<char>> {
    seq!["refs/tags/"@ + ref_id, "refs/heads/"@ + ref_id]
}

/// The refs that `git ls-remote` is asked about for a ref.
pub fn remote_refs(ref_id: &str) -> (r: Vec<String>)
    ensures
        r@.map_values(|s: String| s@) == spec_remote_refs(ref_id@),
{
    let mut tag = "refs/tags/".to_owned();
    tag.push_str(ref_id);
    let mut head = "refs/heads/".to_owned();
    head.push_str(ref_id);
    let r = vec![tag, head];
    assert(r@.map_values(|s: String| s@) =~= spec_remote_refs(ref_id@));
    r
}

/// The commit that the output of `git ls-remote` names: its first word, the hash of the
/// first ref listed; `None` where it lists nothing.
pub fn listed_commit(output: &str) -> (r: Option<String>)
    ensures
        match r {
            Some(h) => words_of(output@).len() > 0 && h@ == words_of(output@)[0],
            None => words_of(output@).len() == 0,
        },
{
    let cs = chars_of(output);
    let ws = words(&cs);
    if ws.len() == 0 {
        None
    } else {
        assert(ws@.map_values(|w: Vec<char>| w@)[0] == ws@[0]@);
        Some(string_of(ws[0].as_slice()))
    }
}

/// The key of a git upstream in a recipe: its URI after `git|`.
pub open spec fn spec_git_key(uri: Seq<char>) -> Seq<char> {
    "git|"@ + uri
}

/// The key of a git upstream in a recipe.
pub fn git_key(uri: &str) -> (k: String)
    ensures
        k@ == spec_git_key(uri@),
{
    let mut k = "git|".to_owned();
    k.push_str(uri);
    k
}

/// What a resolved ref is written back as: the commit, with the ref it stood for in a
/// comment.
pub open spec fn spec_pinned_value(commit: Seq<char>, original: Seq<char>) -> Seq<char> {
    commit + " # "@ + original
}

/// What a resolved ref is written back as.
pub fn pinned_value(commit: &str, original: &str) -> (v: String)
    ensures
        v@ == spec_pinned_value(commit@, original@),
{
    let mut v = commit.to_owned();
    v.push_str(" # ");
    v.push_str(original);
    v
}

} // verus!
