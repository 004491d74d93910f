//! The upstreams of a recipe: where its sources come from.

use vstd::prelude::*;
use crate::names::lex_lt;
use crate::stone_recipe::decode::{
    agrees, d_all, d_bool_field, d_opt_byte, d_opt_text, d_req_text, lemma_d_all_step, bool_field,
    opt_byte, opt_text, req_text, Error, ErrorView,
};
use crate::stone_recipe::yaml::Yaml;
use crate::text::chars_of;

verus! {

/// An upstream of a recipe.
#[derive(Debug, Clone, PartialEq, Eq)]
pub enum Upstream {
    /// An archive, checked against its hash.
    Plain {
        uri: String,
        hash: String,
        rename: Option<String>,
        strip_dirs: Option<u8>,
        unpack: bool,
        unpack_dir: Option<String>,
    },
    /// A git repository, at a commit.
    Git { uri: String, ref_id: String, clone_dir: Option<String>, staging: bool },
}

/// The mathematical value of an [`Upstream`].
pub enum UpstreamView {
    Plain {
        uri: Seq<char>,
        hash: Seq<char>,
        rename: Option<Seq<char>>,
        strip_dirs: Option<u8>,
        unpack: bool,
        unpack_dir: Option<Seq<char>>,
    },
    Git { uri: Seq<char>, ref_id: Seq<char>, clone_dir: Option<Seq<char>>, staging: bool },
}

impl DeepView for Upstream {
    type V = UpstreamView;

    open spec fn deep_view(&self) -> UpstreamView {
        match self {
            Upstream::Plain { uri, hash, rename, strip_dirs, unpack, unpack_dir } =>
                UpstreamView::Plain {
                uri: uri@,
                hash: hash@,
                rename: rename.deep_view(),
                strip_dirs: *strip_dirs,
                unpack: *unpack,
                unpack_dir: unpack_dir.deep_view(),
            },
            Upstream::Git { uri, ref_id, clone_dir, staging } => UpstreamView::Git {
                uri: uri@,
                ref_id: ref_id@,
                clone_dir: clone_dir.deep_view(),
                staging: *staging,
            },
        }
    }
}

/// The serialization of the URL that a text parses into, or the parser's message.
pub uninterp spec fn parsed_url(text: Seq<char>) -> Result<Seq<char>, Seq<char>>;

/// `url::Url::parse`: the serialization of the parsed URL (`Url::as_str`), or the
/// `Display` text of the parse error; the contract names the outcome `parsed_url`.
#[verifier::external_body]
fn parse_url(text: &str) -> (r: Result<String, String>)
    ensures
        match r {
            Ok(u) => parsed_url(text@) == Ok::<Seq<char>, Seq<char>>(u@),
            Err(e) => parsed_url(text@) == Err::<Seq<char>, Seq<char>>(e@),
        },
{
    match url::Url::parse(text) {
        Ok(u) => Ok(u.as_str().to_owned()),
        Err(e) => Err(e.to_string()),
    }
}

/// Whether `git|` stands at position `p` of `s`.
pub open spec fn git_marker_at(s: Seq<char>, p: int) -> bool {
    0 <= p && p + 4 <= s.len() && s[p] == 'g' && s[p + 1] == 'i' && s[p + 2] == 't' && s[p + 3]
        == '|'
}

/// The first position, from `p` on, where `git|` stands in `s`.
pub open spec fn find_marker(s: Seq<char>, p: int) -> Option<int>
    decreases s.len() - p,
{
    if p < 0 || p + 4 > s.len() {
        None
    } else if git_marker_at(s, p) {
        Some(p)
    } else {
        find_marker(s, p + 1)
    }
}

/// The URI of an upstream, by kind: a git repository when `git|` is in its key.
pub enum Uri {
    Plain(String),
    Git(String),
}

/// The mathematical value of a [`Uri`].
pub enum UriView {
    Plain(Seq<char>),
    Git(Seq<char>),
}

impl View for Uri {
    type V = UriView;

    open spec fn view(&self) -> UriView {
        match self {
            Uri::Plain(u) => UriView::Plain(u@),
            Uri::Git(u) => UriView::Git(u@),
        }
    }
}

/// The URI of the upstream key `key`: what follows the first `git|` in it is the URL of
/// a git repository; without `git|`, the whole key is the URL of an archive.
pub open spec fn d_uri(key: Seq<char>) -> Result<UriView, ErrorView> {
    match find_marker(key, 0) {
        Some(p) => match parsed_url(key.subrange(p + 4, key.len() as int)) {
            Ok(u) => Ok(UriView::Git(u)),
            Err(m) => Err(ErrorView::InvalidUri(m)),
        },
        None => match parsed_url(key) {
            Ok(u) => Ok(UriView::Plain(u)),
            Err(m) => Err(ErrorView::InvalidUri(m)),
        },
    }
}

/// The first position where `git|` stands in `cs`.
fn marker_position(cs: &Vec<char>) -> (r: Option<usize>)
    ensures
        match r {
            Some(p) => find_marker(cs@, 0) == Some(p as int) && p + 4 <= cs@.len(),
            None => find_marker(cs@, 0) is None,
        },
{
    let mut p: usize = 0;
    while p < cs.len() && cs.len() - p >= 4
        invariant
            find_marker(cs@, 0) == find_marker(cs@, p as int),
            p <= cs@.len(),
        decreases cs@.len() - p,
    {
        if cs[p] == 'g' && cs[p + 1] == 'i' && cs[p + 2] == 't' && cs[p + 3] == '|' {
            return Some(p);
        }
        p += 1;
    }
    None
}

/// Reads the URI of an upstream key.
fn uri(key: &str) -> (r: Result<Uri, Error>)
    ensures
        match r {
            Ok(u) => d_uri(key@) == Ok::<UriView, ErrorView>(u@),
            Err(e) => d_uri(key@) == Err::<UriView, ErrorView>(e@),
        },
{
    let cs = chars_of(key);
    match marker_position(&cs) {
        Some(p) => {
            let n = cs.len();
            let rest = crate::text::string_of_range(&cs, p + 4, n);
            match parse_url(rest.as_str()) {
                Ok(u) => Ok(Uri::Git(u)),
                Err(m) => Err(Error::InvalidUri(m)),
            }
        },
        None => match parse_url(key) {
            Ok(u) => Ok(Uri::Plain(u)),
            Err(m) => Err(Error::InvalidUri(m)),
        },
    }
}

/// The payload of an upstream entry: a hash or a ref given alone, or the fields of a
/// plain or a git upstream.
pub enum Payload {
    Text(String),
    Plain {
        hash: String,
        rename: Option<String>,
        strip_dirs: Option<u8>,
        unpack: bool,
        unpack_dir: Option<String>,
    },
    Git { ref_id: String, clone_dir: Option<String>, staging: bool },
}

/// The mathematical value of a [`Payload`].
pub enum PayloadView {
    Text(Seq<char>),
    Plain {
        hash: Seq<char>,
        rename: Option<Seq<char>>,
        strip_dirs: Option<u8>,
        unpack: bool,
        unpack_dir: Option<Seq<char>>,
    },
    Git { ref_id: Seq<char>, clone_dir: Option<Seq<char>>, staging: bool },
}

impl DeepView for Payload {
    type V = PayloadView;

    open spec fn deep_view(&self) -> PayloadView {
        match self {
            Payload::Text(t) => PayloadView::Text(t@),
            Payload::Plain { hash, rename, strip_dirs, unpack, unpack_dir } => PayloadView::Plain {
                hash: hash@,
                rename: rename.deep_view(),
                strip_dirs: *strip_dirs,
                unpack: *unpack,
                unpack_dir: unpack_dir.deep_view(),
            },
            Payload::Git { ref_id, clone_dir, staging } => PayloadView::Git {
                ref_id: ref_id@,
                clone_dir: clone_dir.deep_view(),
                staging: *staging,
            },
        }
    }
}

/// The payload of an upstream entry. A mapping is read as the fields of a plain
/// upstream (`hash`, `rename`, `stripdirs`, `unpack`, `unpackdir`) when it has them, else
/// as those of a git upstream (`ref`, `clonedir`, `staging`).
pub open spec fn d_payload(v: Yaml) -> Result<PayloadView, ErrorView> {
    match v {
        Yaml::Str(s) => Ok(PayloadView::Text(s@)),
        Yaml::Mapping(es) => {
            let hash = d_req_text(es@, "hash"@);
            let rename = d_opt_text(es@, "rename"@);
            let strip = d_opt_byte(es@, "stripdirs"@);
            let unpack = d_bool_field(es@, "unpack"@, true);
            let unpack_dir = d_opt_text(es@, "unpackdir"@);
            let ref_id = d_req_text(es@, "ref"@);
            let clone_dir = d_opt_text(es@, "clonedir"@);
            let staging = d_bool_field(es@, "staging"@, true);
            if hash is Ok && rename is Ok && strip is Ok && unpack is Ok && unpack_dir is Ok {
                Ok(
                    PayloadView::Plain {
                        hash: hash->Ok_0,
                        rename: rename->Ok_0,
                        strip_dirs: strip->Ok_0,
                        unpack: unpack->Ok_0,
                        unpack_dir: unpack_dir->Ok_0,
                    },
                )
            } else if ref_id is Ok && clone_dir is Ok && staging is Ok {
                Ok(
                    PayloadView::Git {
                        ref_id: ref_id->Ok_0,
                        clone_dir: clone_dir->Ok_0,
                        staging: staging->Ok_0,
                    },
                )
            } else {
                Err(ErrorView::UnmatchedUpstream)
            }
        },
        _ => Err(ErrorView::UnmatchedUpstream),
    }
}

/// Reads the payload of an upstream entry.
fn payload(v: &Yaml) -> (r: Result<Payload, Error>)
    ensures
        agrees(r, d_payload(*v)),
{
    match v {
        Yaml::Str(s) => Ok(Payload::Text(s.clone())),
        Yaml::Mapping(es) => {
            let hash = req_text(es, "hash");
            let rename = opt_text(es, "rename");
            let strip = opt_byte(es, "stripdirs");
            let unpack = bool_field(es, "unpack", true);
            let unpack_dir = opt_text(es, "unpackdir");
            match (hash, rename, strip, unpack, unpack_dir) {
                (Ok(hash), Ok(rename), Ok(strip_dirs), Ok(unpack), Ok(unpack_dir)) => {
                    return Ok(Payload::Plain { hash, rename, strip_dirs, unpack, unpack_dir });
                },
                _ => {},
            }
            let ref_id = req_text(es, "ref");
            let clone_dir = opt_text(es, "clonedir");
            let staging = bool_field(es, "staging", true);
            match (ref_id, clone_dir, staging) {
                (Ok(ref_id), Ok(clone_dir), Ok(staging)) => Ok(
                    Payload::Git { ref_id, clone_dir, staging },
                ),
                _ => Err(Error::UnmatchedUpstream),
            }
        },
        _ => Err(Error::UnmatchedUpstream),
    }
}

/// An entry of an upstream mapping: the URI of its key and its payload.
pub open spec fn d_entry(e: (Yaml, Yaml)) -> Result<(UriView, PayloadView), ErrorView> {
    match e.0 {
        Yaml::Str(k) => match d_uri(k@) {
            Err(err) => Err(err),
            Ok(u) => match d_payload(e.1) {
                Err(err) => Err(err),
                Ok(p) => Ok((u, p)),
            },
        },
        _ => Err(ErrorView::InvalidType("upstreams"@)),
    }
}

/// [`d_entry`] as a function value.
pub open spec fn entry_decoder() -> spec_fn((Yaml, Yaml)) -> Result<(UriView, PayloadView), ErrorView> {
    |e: (Yaml, Yaml)| d_entry(e)
}

/// Whether URI `a` comes before URI `b`: archives before git repositories, and by
/// their URLs within a kind.
pub open spec fn uri_lt(a: UriView, b: UriView) -> bool {
    match (a, b) {
        (UriView::Plain(x), UriView::Plain(y)) => lex_lt(x, y),
        (UriView::Git(x), UriView::Git(y)) => lex_lt(x, y),
        (UriView::Plain(_), UriView::Git(_)) => true,
        (UriView::Git(_), UriView::Plain(_)) => false,
    }
}

/// The entry with the first URI, a later entry replacing an earlier one with the
/// same URI.
pub open spec fn select(es: Seq<(UriView, PayloadView)>) -> Option<(UriView, PayloadView)>
    decreases es.len(),
{
    if es.len() == 0 {
        None
    } else {
        match select(es.drop_last()) {
            None => Some(es.last()),
            Some(b) => if uri_lt(b.0, es.last().0) {
                Some(b)
            } else {
                Some(es.last())
            },
        }
    }
}

/// Whether a character is a hexadecimal digit.
pub open spec fn is_hex(c: char) -> bool {
    ('0' <= c <= '9') || ('a' <= c <= 'f') || ('A' <= c <= 'F')
}

/// Whether `s` is a full SHA-1 commit hash: 40 hexadecimal digits.
pub open spec fn spec_is_valid_sha1(s: Seq<char>) -> bool {
    s.len() == 40 && forall|i: int| 0 <= i < s.len() ==> is_hex(#[trigger] s[i])
}

/// Whether `s` is a full SHA-1 commit hash: 40 hexadecimal digits.
pub fn is_valid_sha1(s: &str) -> (b: bool)
    ensures
        b == spec_is_valid_sha1(s@),
{
    let cs = chars_of(s);
    if cs.len() != 40 {
        return false;
    }
    let mut i: usize = 0;
    while i < cs.len()
        invariant
            cs@ == s@,
            i <= cs@.len(),
            forall|k: int| 0 <= k < i ==> is_hex(#[trigger] cs@[k]),
        decreases cs@.len() - i,
    {
        let c = cs[i];
        if !(('0' <= c && c <= '9') || ('a' <= c && c <= 'f') || ('A' <= c && c <= 'F')) {
            return false;
        }
        i += 1;
    }
    true
}

/// The upstream that a URI and a payload describe. The ref of a git upstream must be
/// a full commit hash, since tags and branches move.
pub open spec fn d_combine(u: UriView, p: PayloadView) -> Result<UpstreamView, ErrorView> {
    match (u, p) {
        (UriView::Plain(uri), PayloadView::Text(hash)) => Ok(
            UpstreamView::Plain {
                uri,
                hash,
                rename: None,
                strip_dirs: None,
                unpack: true,
                unpack_dir: None,
            },
        ),
        (UriView::Git(uri), PayloadView::Text(ref_id)) => if spec_is_valid_sha1(ref_id) {
            Ok(UpstreamView::Git { uri, ref_id, clone_dir: None, staging: true })
        } else {
            Err(ErrorView::GitRefNotCommit(ref_id))
        },
        (
            UriView::Plain(uri),
            PayloadView::Plain { hash, rename, strip_dirs, unpack, unpack_dir },
        ) => Ok(UpstreamView::Plain { uri, hash, rename, strip_dirs, unpack, unpack_dir }),
        (UriView::Git(uri), PayloadView::Git { ref_id, clone_dir, staging }) => if spec_is_valid_sha1(
            ref_id,
        ) {
            Ok(UpstreamView::Git { uri, ref_id, clone_dir, staging })
        } else {
            Err(ErrorView::GitRefNotCommit(ref_id))
        },
        (UriView::Plain(_), PayloadView::Git { .. }) => Err(ErrorView::GitPayloadWithoutGitUri),
        (UriView::Git(_), PayloadView::Plain { .. }) => Err(ErrorView::GitUriWithPlainPayload),
    }
}

/// An upstream of a recipe: a mapping whose entry with the first URI describes it.
pub open spec fn d_upstream(y: Yaml) -> Result<UpstreamView, ErrorView> {
    match y {
        Yaml::Mapping(es) => match d_all(es@, entry_decoder()) {
            Err(e) => Err(e),
            Ok(entries) => match select(entries) {
                None => Err(ErrorView::MissingUpstreamEntry),
                Some((u, p)) => d_combine(u, p),
            },
        },
        _ => Err(ErrorView::InvalidType("upstreams"@)),
    }
}

/// Whether `a` comes before `b`.
fn uri_before(a: &Uri, b: &Uri) -> (r: bool)
    ensures
        r == uri_lt(a@, b@),
{
    match (a, b) {
        (Uri::Plain(x), Uri::Plain(y)) => crate::names::names_lt(x.as_str(), y.as_str()),
        (Uri::Git(x), Uri::Git(y)) => crate::names::names_lt(x.as_str(), y.as_str()),
        (Uri::Plain(_), Uri::Git(_)) => true,
        (Uri::Git(_), Uri::Plain(_)) => false,
    }
}

/// An upstream written as a single entry reads as its URI and payload say: a git
/// upstream is read only with a full commit hash; a git payload under a URI without
/// `git|`, or a plain payload under one with it, is refused; and a plain URI with a bare
/// hash is an archive that is unpacked, neither renamed nor stripped.
pub proof fn law_upstream_entry(y: Yaml)
    requires
        y matches Yaml::Mapping(es) && es@.len() == 1,
    ensures
        d_upstream(y) matches Ok(UpstreamView::Git { ref_id, .. }) ==> spec_is_valid_sha1(ref_id),
        d_entry(y->Mapping_0@[0]) matches Err(err) ==> d_upstream(y) == Err::<UpstreamView, ErrorView>(err),
        d_entry(y->Mapping_0@[0]) matches Ok((UriView::Plain(_), PayloadView::Git { .. }))
            ==> d_upstream(y) == Err::<UpstreamView, ErrorView>(ErrorView::GitPayloadWithoutGitUri),
        d_entry(y->Mapping_0@[0]) matches Ok((UriView::Git(_), PayloadView::Plain { .. }))
            ==> d_upstream(y) == Err::<UpstreamView, ErrorView>(ErrorView::GitUriWithPlainPayload),
        d_entry(y->Mapping_0@[0]) matches Ok((UriView::Plain(uri), PayloadView::Text(hash)))
            ==> d_upstream(y) == Ok::<UpstreamView, ErrorView>(
            UpstreamView::Plain { uri, hash, rename: None, strip_dirs: None, unpack: true, unpack_dir: None },
        ),
        d_entry(y->Mapping_0@[0]) matches Ok((UriView::Git(uri), PayloadView::Text(r)))
            ==> d_upstream(y) == if spec_is_valid_sha1(r) {
            Ok::<UpstreamView, ErrorView>(UpstreamView::Git { uri, ref_id: r, clone_dir: None, staging: true })
        } else {
            Err::<UpstreamView, ErrorView>(ErrorView::GitRefNotCommit(r))
        },
{
    let es = y->Mapping_0@;
    let f = entry_decoder();
    assert(es.drop_last() =~= Seq::<(Yaml, Yaml)>::empty());
    assert(d_all(es.drop_last(), f) == Ok::<Seq<(UriView, PayloadView)>, ErrorView>(Seq::empty()));
    assert(f(es.last()) == d_entry(es[0]));
    if let Ok(x) = d_entry(es[0]) {
        let xs = Seq::<(UriView, PayloadView)>::empty().push(x);
        assert(d_all(es, f) == Ok::<Seq<(UriView, PayloadView)>, ErrorView>(xs));
        assert(xs.drop_last() =~= Seq::<(UriView, PayloadView)>::empty());
        assert(select(xs.drop_last()) is None);
        assert(xs.last() == x);
        assert(select(xs) == Some(x));
    }
}

/// The view of a URI and a payload.
pub open spec fn entry_view(e: (Uri, Payload)) -> (UriView, PayloadView) {
    (e.0@, e.1.deep_view())
}

/// Reads an upstream of a recipe.
pub fn upstream(y: &Yaml) -> (r: Result<Upstream, Error>)
    ensures
        agrees(r, d_upstream(*y)),
{
    let es = match y {
        Yaml::Mapping(es) => es,
        _ => return Err(Error::InvalidType("upstreams".to_owned())),
    };
    let ghost f = entry_decoder();
    let mut best: Option<(Uri, Payload)> = None;
    let ghost mut done: Seq<(UriView, PayloadView)> = Seq::empty();
    let mut i: usize = 0;
    assert(es@.take(0) =~= Seq::<(Yaml, Yaml)>::empty());
    while i < es.len()
        invariant
            i <= es@.len(),
            f == entry_decoder(),
            *y is Mapping,
            (*y)->Mapping_0@ == es@,
            d_all(es@.take(i as int), f) == Ok::<Seq<(UriView, PayloadView)>, ErrorView>(done),
            match best {
                None => select(done) is None,
                Some(b) => select(done) == Some(entry_view(b)),
            },
        decreases es@.len() - i,
    {
        proof {
            lemma_d_all_step(es@, i as int, f, done);
        }
        let (k, v) = &es[i];
        assert(f(es@[i as int]) == d_entry(es@[i as int]));
        let ks = match k {
            Yaml::Str(ks) => ks,
            _ => {
                return Err(Error::InvalidType("upstreams".to_owned()));
            },
        };
        let u = match uri(ks.as_str()) {
            Ok(u) => u,
            Err(e) => return Err(e),
        };
        let p = match payload(v) {
            Ok(p) => p,
            Err(e) => return Err(e),
        };
        let ghost ev = (u@, p.deep_view());
        assert(f(es@[i as int]) == Ok::<(UriView, PayloadView), ErrorView>(ev));
        proof {
            assert(done.push(ev).drop_last() =~= done);
        }
        best = match best {
            None => Some((u, p)),
            Some(b) => if uri_before(&b.0, &u) {
                Some(b)
            } else {
                Some((u, p))
            },
        };
        proof {
            done = done.push(ev);
        }
        i += 1;
    }
    assert(es@.take(i as int) =~= es@);
    match best {
        None => Err(Error::MissingUpstreamEntry),
        Some((u, p)) => match (u, p) {
            (Uri::Plain(uri), Payload::Text(hash)) => Ok(
                Upstream::Plain {
                    uri,
                    hash,
                    rename: None,
                    strip_dirs: None,
                    unpack: crate::stone_recipe::default_true(),
                    unpack_dir: None,
                },
            ),
            (Uri::Git(uri), Payload::Text(ref_id)) => {
                if !is_valid_sha1(ref_id.as_str()) {
                    return Err(Error::GitRefNotCommit(ref_id));
                }
                Ok(
                    Upstream::Git {
                        uri,
                        ref_id,
                        clone_dir: None,
                        staging: crate::stone_recipe::default_true(),
                    },
                )
            },
            (Uri::Plain(uri), Payload::Plain { hash, rename, strip_dirs, unpack, unpack_dir }) => Ok(
                Upstream::Plain { uri, hash, rename, strip_dirs, unpack, unpack_dir },
            ),
            (Uri::Git(uri), Payload::Git { ref_id, clone_dir, staging }) => {
                if !is_valid_sha1(ref_id.as_str()) {
                    return Err(Error::GitRefNotCommit(ref_id));
                }
                Ok(Upstream::Git { uri, ref_id, clone_dir, staging })
            },
            (Uri::Plain(_), Payload::Git { .. }) => Err(Error::GitPayloadWithoutGitUri),
            (Uri::Git(_), Payload::Plain { .. }) => Err(Error::GitUriWithPlainPayload),
        },
    }
}

} // verus!
