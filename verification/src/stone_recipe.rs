//! Stone recipes: the YAML files that describe how a package is built.

pub mod yaml;
pub mod decode;
pub mod upstream;
pub mod recipe;
pub mod macros;

use vstd::prelude::*;
use crate::stone_recipe::decode::{d_all, read_outcome, Error};
use crate::stone_recipe::recipe::{d_recipe, upstream_decoder, Recipe};
use crate::stone_recipe::upstream::{d_upstream, spec_is_valid_sha1, UpstreamView};
use crate::stone_recipe::yaml::{document, document_bytes, document_outcome, yaml_bytes, yaml_text, DocumentError, Yaml};

verus! {

/// The default value of boolean recipe options that are enabled unless stated otherwise.
pub fn default_true() -> (b: bool)
    ensures
        b,
{
    true
}

/// Whether every git upstream names a full commit hash.
pub open spec fn git_refs_pinned(us: Seq<UpstreamView>) -> bool {
    forall|k: int|
        0 <= k < us.len() ==> (#[trigger] us[k] matches UpstreamView::Git { ref_id, .. }
            ==> spec_is_valid_sha1(ref_id))
}

proof fn lemma_upstream_pinned(y: Yaml)
    ensures
        d_upstream(y) matches Ok(UpstreamView::Git { ref_id, .. }) ==> spec_is_valid_sha1(ref_id),
{
}

proof fn lemma_upstreams_pinned(items: Seq<Yaml>)
    ensures
        d_all(items, upstream_decoder()) matches Ok(us) ==> git_refs_pinned(us),
    decreases items.len(),
{
    if items.len() > 0 {
        lemma_upstreams_pinned(items.drop_last());
        lemma_upstream_pinned(items.last());
        if let Ok(us) = d_all(items, upstream_decoder()) {
            let prev = d_all(items.drop_last(), upstream_decoder())->Ok_0;
            assert(us == prev.push(d_upstream(items.last())->Ok_0));
            assert forall|k: int| 0 <= k < us.len() implies (#[trigger] us[k] matches UpstreamView::Git {
                ref_id,
                ..
            } ==> spec_is_valid_sha1(ref_id)) by {
                if k < prev.len() {
                    assert(us[k] == prev[k]);
                }
            }
        }
    }
}

/// Git upstreams are pinned for reproducibility: in every recipe that is read
/// successfully, each git upstream names a full 40-digit commit hash, never a tag or
/// a branch.
pub proof fn law_git_upstreams_pinned(doc: Yaml)
    ensures
        d_recipe(doc) matches Ok(r) ==> git_refs_pinned(r.upstreams),
{
    if let Yaml::Mapping(m) = doc {
        if let Some(Yaml::Sequence(items)) = crate::stone_recipe::decode::lookup(
            m@,
            "upstreams"@,
        ) {
            lemma_upstreams_pinned(items@);
        }
    }
}

/// The recipe read from a parsed document, or the reason the document could not be
/// parsed.
fn recipe_of(doc: Result<Yaml, DocumentError>, parsed: Ghost<Result<crate::stone_recipe::yaml::ValueView, Seq<char>>>) -> (r: Result<Recipe, Error>)
    requires
        document_outcome(parsed@, doc),
    ensures
        read_outcome(parsed@, r, |y: Yaml| d_recipe(y)),
        r matches Ok(rec) ==> git_refs_pinned(rec.deep_view().upstreams),
{
    match doc {
        Ok(y) => {
            let r = crate::stone_recipe::recipe::recipe(y);
            proof {
                law_git_upstreams_pinned(y);
                assert((|y: Yaml| d_recipe(y))(y) == d_recipe(y));
            }
            r
        },
        Err(DocumentError::Syntax(m)) => Err(Error::Syntax(m)),
        Err(DocumentError::TooDeep) => Err(Error::TooDeep),
    }
}

/// Reads a recipe from its YAML text: the parser's message where the text is not YAML,
/// `TooDeep` where it nests deeper than the reader allows, else the recipe that
/// [`d_recipe`] reads from the parsed document; its git upstreams are pinned to commits.
pub fn from_str(s: &str) -> (r: Result<Recipe, Error>)
    ensures
        read_outcome(yaml_text(s@), r, |y: Yaml| d_recipe(y)),
        r matches Ok(rec) ==> git_refs_pinned(rec.deep_view().upstreams),
{
    let doc = document(s);
    recipe_of(doc, Ghost(yaml_text(s@)))
}

/// Reads a recipe from its YAML text, given as bytes: the parser's message where the
/// bytes are not YAML, `TooDeep` where they nest deeper than the reader allows, else the
/// recipe that [`d_recipe`] reads from the parsed document; its git upstreams are
/// pinned to commits.
pub fn from_slice(bytes: &[u8]) -> (r: Result<Recipe, Error>)
    ensures
        read_outcome(yaml_bytes(bytes@), r, |y: Yaml| d_recipe(y)),
        r matches Ok(rec) ==> git_refs_pinned(rec.deep_view().upstreams),
{
    let doc = document_bytes(bytes);
    recipe_of(doc, Ghost(yaml_bytes(bytes@)))
}

} // verus!
