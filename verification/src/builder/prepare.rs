//! The script of the prepare phase: unpacking each upstream into the build tree.

use vstd::prelude::*;
use crate::paths::{decimal_string, spec_decimal};
use crate::stone_recipe::upstream::{Upstream, UpstreamView};
use crate::util::{spec_uri_file_name, uri_file_name};

verus! {

/// The prepare lines for one upstream: an archive to unpack is extracted into its unpack
/// directory (by default its name, itself by default the file name of its URL), dropping
/// its leading directories (one by default); a git repository is copied into its clone
/// directory (by default the file name of its URL). An archive not to unpack gets none.
pub open spec fn upstream_prepare(u: UpstreamView) -> Seq<char> {
    match u {
        UpstreamView::Plain { uri, rename, strip_dirs, unpack, unpack_dir, .. } => if !unpack {
            Seq::empty()
        } else {
            let name = match rename {
                Some(r) => r,
                None => spec_uri_file_name(uri),
            };
            let dir = match unpack_dir {
                Some(d) => d,
                None => name,
            };
            let strip = match strip_dirs {
                Some(n) => n as nat,
                None => 1nat,
            };
            "mkdir -p "@ + dir + "\n"@ + "bsdtar-static xf \"%(sourcedir)/"@ + name + "\" -C \""@ + dir
                + "\" --strip-components="@ + spec_decimal(strip)
                + " --no-same-owner || (echo \"Failed to extract archive\"; exit 1);\n"@
        },
        UpstreamView::Git { uri, clone_dir, .. } => {
            let source = spec_uri_file_name(uri);
            let target = match clone_dir {
                Some(d) => d,
                None => source,
            };
            "mkdir -p "@ + target + "\n"@ + "cp -Ra --no-preserve=ownership \"%(sourcedir)/"@ + source
                + "/.\" \""@ + target + "\"\n"@
        },
    }
}

/// The prepare lines of the upstreams, in order.
pub open spec fn prepare_text(ups: Seq<UpstreamView>) -> Seq<char>
    decreases ups.len(),
{
    if ups.len() == 0 {
        Seq::empty()
    } else {
        prepare_text(ups.drop_last()) + upstream_prepare(ups.last())
    }
}

/// Appends the prepare lines of one upstream.
fn push_upstream_prepare(s: &mut String, u: &Upstream)
    ensures
        final(s)@ == old(s)@ + upstream_prepare(u.deep_view()),
{
    match u {
        Upstream::Plain { uri, rename, strip_dirs, unpack, unpack_dir, .. } => {
            if !*unpack {
                assert(s@ =~= old(s)@ + upstream_prepare(u.deep_view()));
                return;
            }
            let name = match rename {
                Some(r) => r.clone(),
                None => uri_file_name(uri.as_str()),
            };
            let dir = match unpack_dir {
                Some(d) => d.clone(),
                None => name.clone(),
            };
            let strip: u64 = match strip_dirs {
                Some(n) => *n as u64,
                None => 1,
            };
            let digits = decimal_string(strip);
            s.push_str("mkdir -p ");
            s.push_str(dir.as_str());
            s.push_str("\n");
            s.push_str("bsdtar-static xf \"%(sourcedir)/");
            s.push_str(name.as_str());
            s.push_str("\" -C \"");
            s.push_str(dir.as_str());
            s.push_str("\" --strip-components=");
            s.push_str(digits.as_str());
            s.push_str(" --no-same-owner || (echo \"Failed to extract archive\"; exit 1);\n");
        },
        Upstream::Git { uri, clone_dir, .. } => {
            let source = uri_file_name(uri.as_str());
            let target = match clone_dir {
                Some(d) => d.clone(),
                None => source.clone(),
            };
            s.push_str("mkdir -p ");
            s.push_str(target.as_str());
            s.push_str("\n");
            s.push_str("cp -Ra --no-preserve=ownership \"%(sourcedir)/");
            s.push_str(source.as_str());
            s.push_str("/.\" \"");
            s.push_str(target.as_str());
            s.push_str("\"\n");
        },
    }
    assert(s@ =~= old(s)@ + upstream_prepare(u.deep_view()));
}

/// The script of the prepare phase: the lines of each upstream in turn.
pub fn prepare_script(upstreams: &Vec<Upstream>) -> (s: String)
    ensures
        s@ == prepare_text(upstreams.deep_view()),
{
    let mut s = String::new();
    let mut i: usize = 0;
    assert(upstreams.deep_view().take(0) =~= Seq::<UpstreamView>::empty());
    while i < upstreams.len()
        invariant
            i <= upstreams@.len(),
            s@ == prepare_text(upstreams.deep_view().take(i as int)),
        decreases upstreams@.len() - i,
    {
        push_upstream_prepare(&mut s, &upstreams[i]);
        assert(upstreams.deep_view().take(i + 1).drop_last() =~= upstreams.deep_view().take(i as int));
        assert(upstreams.deep_view()[i as int] == upstreams@[i as int].deep_view());
        i += 1;
    }
    assert(upstreams.deep_view().take(i as int) =~= upstreams.deep_view());
    s
}

} // verus!
