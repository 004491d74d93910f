//! Drafting a new recipe from its upstreams.

pub mod licenses;

use vstd::prelude::*;
use crate::vfs::{path_components, std_components, is_dot};

verus! {

/// Whether to ask before going on with more than one upstream.
#[derive(Debug, Clone, Copy, PartialEq, Eq, Structural)]
pub enum Confirmation {
    Ask,
    DoNotAsk,
}

/// A drafted recipe, with the monitoring configuration of its project.
#[derive(Debug, Clone)]
pub struct Draft {
    pub stone: String,
    pub monitoring: String,
}

/// A file of an extracted upstream archive.
#[derive(Debug, Clone)]
pub struct File {
    pub path: String,
    pub extract_root: String,
}

/// The components of `path` after those of `base`, when `base` is a prefix of it;
/// all of them otherwise: `Path::strip_prefix(base).unwrap_or(path)`, counted.
pub open spec fn relative_count(path: Seq<char>, base: Seq<char>) -> nat {
    let pc = std_components(path);
    let bc = std_components(base);
    if bc.len() <= pc.len() && pc.subrange(0, bc.len() as int) == bc {
        (pc.len() - bc.len()) as nat
    } else {
        pc.len()
    }
}

/// The depth of a file below the root of its archive: the components of its path
/// relative to the extraction root, less two, so that files directly in the top
/// folder of the archive are at depth 0.
pub open spec fn spec_depth(path: Seq<char>, base: Seq<char>) -> nat {
    let n = relative_count(path, base);
    if n >= 2 {
        (n - 2) as nat
    } else {
        0
    }
}

/// The file name of a path: its last component when that is a name (not the root,
/// `.` or `..`), empty otherwise.
pub open spec fn spec_path_file_name(path: Seq<char>) -> Seq<char> {
    let c = std_components(path);
    if c.len() > 0 && c.last() != seq!['/'] && !is_dot(c.last()) && c.last() != seq!['.', '.'] {
        c.last()
    } else {
        Seq::empty()
    }
}

impl File {
    /// The depth of this file relative to its extracted archive.
    pub fn depth(&self) -> (d: usize)
        ensures
            d == spec_depth(self.path@, self.extract_root@),
    {
        let pc = path_components(self.path.as_str());
        let bc = path_components(self.extract_root.as_str());
        let ghost pv = pc@.map_values(|s: String| s@);
        let ghost bv = bc@.map_values(|s: String| s@);
        let mut prefix = bc.len() <= pc.len();
        let mut i: usize = 0;
        while prefix && i < bc.len()
            invariant
                pv == pc@.map_values(|s: String| s@),
                bv == bc@.map_values(|s: String| s@),
                prefix ==> bc@.len() <= pc@.len(),
                i <= bc@.len(),
                prefix ==> pv.subrange(0, i as int) == bv.subrange(0, i as int),
                !prefix ==> !(bv.len() <= pv.len() && pv.subrange(0, bv.len() as int) == bv),
            decreases (bc@.len() - i) + (if prefix {
                1int
            } else {
                0int
            }),
        {
            if !crate::text::str_eq(pc[i].as_str(), bc[i].as_str()) {
                assert(pv.subrange(0, bv.len() as int)[i as int] != bv[i as int]);
                prefix = false;
            } else {
                assert(pv.subrange(0, i + 1) =~= pv.subrange(0, i as int).push(pv[i as int]));
                assert(bv.subrange(0, i + 1) =~= bv.subrange(0, i as int).push(bv[i as int]));
                i += 1;
            }
        }
        if prefix {
            assert(bv.subrange(0, bv.len() as int) =~= bv);
        }
        let n = if prefix {
            pc.len() - bc.len()
        } else {
            pc.len()
        };
        if n >= 2 {
            n - 2
        } else {
            0
        }
    }

    /// The file name of this file; empty when its path ends in no name.
    pub fn file_name(&self) -> (s: String)
        ensures
            s@ == spec_path_file_name(self.path@),
    {
        let pc = path_components(self.path.as_str());
        let ghost pv = pc@.map_values(|s: String| s@);
        if pc.len() == 0 {
            return String::new();
        }
        let last = &pc[pc.len() - 1];
        assert(last@ == pv.last());
        let lcs = crate::text::chars_of(last.as_str());
        let is_name = !(lcs.len() == 1 && lcs[0] == '/') && !(lcs.len() == 1 && lcs[0] == '.')
            && !(lcs.len() == 2 && lcs[0] == '.' && lcs[1] == '.');
        proof {
            if lcs@ == seq!['/'] || lcs@ == seq!['.', '.'] {
                assert(!is_name);
            }
            if !is_name {
                assert(lcs@ =~= seq!['/'] || is_dot(lcs@) || lcs@ =~= seq!['.', '.']);
            }
        }
        if is_name {
            last.clone()
        } else {
            String::new()
        }
    }
}

} // verus!
