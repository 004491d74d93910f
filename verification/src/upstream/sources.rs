//! Where upstream archives and repositories are kept in the upstream storage.

use vstd::prelude::*;
use crate::erofs::bytes::{hex_char, hex_digit, push_utf8, utf8};
use crate::paths::{path_join, spec_path_join};
use crate::triggers::{replace, replace_all};
use crate::util::{parsed_url_host, parsed_url_path, spec_uri_file_name, uri_file_name, url_host, url_path};

verus! {

/// The SHA-256 digest of the bytes.
pub uninterp spec fn sha256(bytes: Seq<u8>) -> Seq<u8>;

/// `<sha2::Sha256 as sha2::Digest>::digest`: the contract names the digest `sha256` of
/// the bytes; it is 32 bytes long, the output size of `Sha256`.
#[verifier::external_body]
fn sha256_digest(bytes: &[u8]) -> (d: Vec<u8>)
    ensures
        d@ == sha256(bytes@),
        d@.len() == 32,
{
    <sha2::Sha256 as sha2::Digest>::digest(bytes).to_vec()
}

/// The bytes written in lowercase hexadecimal, two digits each.
pub open spec fn hex_text(b: Seq<u8>) -> Seq<char>
    decreases b.len(),
{
    if b.len() == 0 {
        Seq::empty()
    } else {
        hex_text(b.drop_last()) + seq![hex_digit((b.last() / 16) as nat), hex_digit((b.last() % 16) as nat)]
    }
}

/// The bytes written in lowercase hexadecimal, two digits each: `hex::encode`.
pub fn hex_encode(b: &Vec<u8>) -> (s: String)
    ensures
        s@ == hex_text(b@),
        s@.len() == 2 * b@.len(),
{
    let mut s = String::new();
    let mut i: usize = 0;
    assert(b@.take(0) =~= Seq::<u8>::empty());
    while i < b.len()
        invariant
            i <= b@.len(),
            s@ == hex_text(b@.take(i as int)),
            s@.len() == 2 * i,
        decreases b@.len() - i,
    {
        let hi = (b[i] / 16) as u128;
        let lo = (b[i] % 16) as u128;
        s.push(hex_char(hi));
        s.push(hex_char(lo));
        assert(b@.take(i + 1).drop_last() =~= b@.take(i as int));
        i += 1;
        assert(s@ =~= hex_text(b@.take(i as int)));
    }
    assert(b@.take(i as int) =~= b@);
    s
}

/// An upstream archive: where it is fetched from, the SHA-256 hash it must have, and the
/// name it is stored under where that is not the file name of its URL.
#[derive(Debug, Clone)]
pub struct Plain {
    pub url: String,
    pub hash: crate::upstream::Hash,
    pub rename: Option<String>,
}

/// The path of an archive in the storage, relative to it: the hexadecimal SHA-256 of its
/// URL followed by its hash, under directories named by the first and the last five
/// digits of it.
pub open spec fn archive_path(url: Seq<char>, hash: Seq<char>) -> Seq<char> {
    let h = hex_text(sha256(utf8(url) + utf8(hash)));
    spec_path_join(spec_path_join(h.subrange(0, 5), h.subrange(59, 64)), h)
}

impl Plain {
    /// The name of the archive: its new name, or else the file name of its URL.
    pub fn name(&self) -> (n: String)
        ensures
            n@ == match self.rename {
                Some(r) => r@,
                None => spec_uri_file_name(self.url@),
            },
    {
        match &self.rename {
            Some(r) => r.clone(),
            None => uri_file_name(self.url.as_str()),
        }
    }

    /// The path of the archive in the storage, relative to it; it changes with the URL
    /// and with the hash.
    pub fn file_path(&self) -> (p: String)
        ensures
            p@ == archive_path(self.url@, self.hash.spec_text()),
    {
        let mut bytes: Vec<u8> = Vec::new();
        push_utf8(&mut bytes, self.url.as_str());
        push_utf8(&mut bytes, self.hash.as_str());
        assert(bytes@ =~= utf8(self.url@) + utf8(self.hash.spec_text()));
        let digest = sha256_digest(bytes.as_slice());
        let h = hex_encode(&digest);
        let cs = crate::text::chars_of(h.as_str());
        let first = crate::text::string_of_range(&cs, 0, 5);
        let last = crate::text::string_of_range(&cs, 59, 64);
        let dirs = path_join(first.as_str(), last.as_str());
        path_join(dirs.as_str(), h.as_str())
    }

    /// The path of the archive under the storage directory.
    pub fn stored_path(&self, storage_dir: &str) -> (p: String)
        ensures
            p@ == spec_path_join(storage_dir@, archive_path(self.url@, self.hash.spec_text())),
    {
        let f = self.file_path();
        path_join(storage_dir, f.as_str())
    }
}

/// An upstream git repository: where it is cloned from, and the commit to build.
#[derive(Debug, Clone)]
pub struct Git {
    pub url: String,
    pub commit: String,
}

/// The directory of a repository in the storage: the host of its URL and a `.`, then the
/// path of the URL with each `/` made a `.`.
pub open spec fn repo_dir_name(url: Seq<char>) -> Seq<char> {
    let host = match url_host(url) {
        Some(h) => h + seq!['.'],
        None => Seq::empty(),
    };
    let path = match url_path(url) {
        Some(p) => p,
        None => Seq::empty(),
    };
    host + replace_all(path, seq!['/'], seq!['.'])
}

impl Git {
    /// The name of the repository: the file name of its URL.
    pub fn name(&self) -> (n: String)
        ensures
            n@ == spec_uri_file_name(self.url@),
    {
        uri_file_name(self.url.as_str())
    }

    /// The directory of the repository in the storage, unique to its host and path.
    pub fn directory_name(&self) -> (d: String)
        ensures
            d@ == repo_dir_name(self.url@),
    {
        let mut name = String::new();
        match parsed_url_host(self.url.as_str()) {
            Some(h) => {
                name.push_str(h.as_str());
                name.push('.');
                assert(name@ =~= h@ + seq!['.']);
            },
            None => {
                assert(name@ =~= Seq::<char>::empty());
            },
        }
        let ghost host = name@;
        let path = match parsed_url_path(self.url.as_str()) {
            Some(p) => p,
            None => String::new(),
        };
        proof {
            reveal_strlit("/");
            reveal_strlit(".");
            assert("/"@ =~= seq!['/']);
            assert("."@ =~= seq!['.']);
        }
        let dots = replace(path.as_str(), "/", ".");
        name.push_str(dots.as_str());
        assert(name@ =~= host + dots@);
        assert(name@ =~= repo_dir_name(self.url@));
        name
    }

    /// The path of the repository under the storage directory.
    pub fn stored_path(&self, storage_dir: &str) -> (p: String)
        ensures
            p@ == spec_path_join(storage_dir@, repo_dir_name(self.url@)),
    {
        let d = self.directory_name();
        path_join(storage_dir, d.as_str())
    }
}

/// A place to get source code from: an archive, or a git repository.
#[derive(Debug, Clone)]
pub enum Upstream {
    Plain(Plain),
    Git(Git),
}

impl Upstream {
    /// The upstream of a recipe's upstream entry: an archive with its URL, hash and new
    /// name, or a repository with its URL and commit; an archive's hash must be at least 5
    /// bytes long.
    pub fn from_recipe_upstream(u: crate::stone_recipe::upstream::Upstream) -> (r: Result<Self, crate::upstream::ParseHashError>)
        ensures
            match u.deep_view() {
                crate::stone_recipe::upstream::UpstreamView::Plain { uri, hash, rename, .. } => match r {
                    Ok(Upstream::Plain(p)) => crate::upstream::utf8_len(hash) >= 5 && p.url@ == uri
                        && p.hash.spec_text() == hash && p.rename.deep_view() == rename,
                    Err(crate::upstream::ParseHashError::TooShort(t)) => crate::upstream::utf8_len(hash) < 5
                        && t@ == hash,
                    _ => false,
                },
                crate::stone_recipe::upstream::UpstreamView::Git { uri, ref_id, .. } => match r {
                    Ok(Upstream::Git(g)) => g.url@ == uri && g.commit@ == ref_id,
                    _ => false,
                },
            },
    {
        match u {
            crate::stone_recipe::upstream::Upstream::Plain { uri, hash, rename, .. } => {
                match crate::upstream::Hash::try_from(hash) {
                    Ok(h) => Ok(Upstream::Plain(Plain { url: uri, hash: h, rename })),
                    Err(e) => Err(e),
                }
            },
            crate::stone_recipe::upstream::Upstream::Git { uri, ref_id, .. } => Ok(
                Upstream::Git(Git { url: uri, commit: ref_id }),
            ),
        }
    }

    /// The name of the upstream, for messages and paths that need not be unique.
    pub fn name(&self) -> (n: String)
        ensures
            n@ == match self {
                Upstream::Plain(p) => match p.rename {
                    Some(r) => r@,
                    None => spec_uri_file_name(p.url@),
                },
                Upstream::Git(g) => spec_uri_file_name(g.url@),
            },
    {
        match self {
            Upstream::Plain(p) => p.name(),
            Upstream::Git(g) => g.name(),
        }
    }
}

} // verus!
