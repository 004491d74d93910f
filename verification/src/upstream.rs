//! Upstreams as they are stored and shared for a build.

pub mod sources;

use vstd::prelude::*;

verus! {

/// The number of bytes of the UTF-8 encoding of a character.
pub open spec fn utf8_width(c: char) -> nat {
    if (c as u32) < 0x80 {
        1
    } else if (c as u32) < 0x800 {
        2
    } else if (c as u32) < 0x10000 {
        3
    } else {
        4
    }
}

/// The number of bytes of the UTF-8 encoding of a text: what `str::len` returns.
pub open spec fn utf8_len(s: Seq<char>) -> nat
    decreases s.len(),
{
    if s.len() == 0 {
        0
    } else {
        utf8_len(s.drop_last()) + utf8_width(s.last())
    }
}

/// The length of `s` in bytes, as `str::len` returns it; saturates at `usize::MAX`.
pub fn byte_len(s: &str) -> (n: usize)
    ensures
        n == if utf8_len(s@) <= usize::MAX {
            utf8_len(s@)
        } else {
            usize::MAX as nat
        },
{
    let cs = crate::text::chars_of(s);
    let mut n: usize = 0;
    let mut i: usize = 0;
    while i < cs.len()
        invariant
            i <= cs@.len(),
            cs@ == s@,
            n == if utf8_len(cs@.take(i as int)) <= usize::MAX {
                utf8_len(cs@.take(i as int))
            } else {
                usize::MAX as nat
            },
        decreases cs@.len() - i,
    {
        let c = cs[i];
        let w: usize = if (c as u32) < 0x80 {
            1
        } else if (c as u32) < 0x800 {
            2
        } else if (c as u32) < 0x10000 {
            3
        } else {
            4
        };
        assert(cs@.take(i + 1).drop_last() =~= cs@.take(i as int));
        n = n.saturating_add(w);
        i += 1;
    }
    assert(cs@.take(i as int) =~= cs@);
    n
}

/// A hexadecimal SHA256 hash of an archive.
#[derive(Debug, Clone, PartialEq, Eq)]
pub struct Hash(String);

/// Why a [`Hash`] is invalid.
#[derive(Debug, Clone, PartialEq, Eq)]
pub enum ParseHashError {
    /// Shorter than 5 bytes.
    TooShort(String),
}

impl ParseHashError {
    /// The message of this error: `hash too short: ` and the hash.
    pub fn to_string(&self) -> (m: String)
        ensures
            m@ == match self {
                ParseHashError::TooShort(s) => "hash too short: "@ + s@,
            },
    {
        match self {
            ParseHashError::TooShort(s) => {
                let mut m = "hash too short: ".to_owned();
                m.push_str(s.as_str());
                m
            },
        }
    }
}

impl Hash {
    /// The hash text.
    pub closed spec fn spec_text(&self) -> Seq<char> {
        self.0@
    }

    /// The hash written `s`; it must be at least 5 bytes long.
    pub fn from_str(s: &str) -> (r: Result<Self, ParseHashError>)
        ensures
            match r {
                Ok(h) => utf8_len(s@) >= 5 && h.spec_text() == s@,
                Err(ParseHashError::TooShort(t)) => utf8_len(s@) < 5 && t@ == s@,
            },
    {
        if byte_len(s) < 5 {
            return Err(ParseHashError::TooShort(s.to_owned()));
        }
        Ok(Hash(s.to_owned()))
    }

    /// The hash written `value`; it must be at least 5 bytes long.
    pub fn try_from(value: String) -> (r: Result<Self, ParseHashError>)
        ensures
            match r {
                Ok(h) => utf8_len(value@) >= 5 && h.spec_text() == value@,
                Err(ParseHashError::TooShort(t)) => utf8_len(value@) < 5 && t@ == value@,
            },
    {
        if byte_len(value.as_str()) < 5 {
            return Err(ParseHashError::TooShort(value));
        }
        Ok(Hash(value))
    }

    /// The hash text.
    pub fn as_str(&self) -> (s: &str)
        ensures
            s@ == self.spec_text(),
    {
        self.0.as_str()
    }
}

/// A source archive after it was stored.
#[derive(Debug, Clone)]
pub struct StoredPlain {
    /// Name of the upstream.
    pub name: String,
    /// Path of the source archive after it was stored.
    pub path: String,
    /// Whether the source archive was already stored with a valid hash.
    pub was_cached: bool,
}

/// A git repository after it was stored.
#[derive(Debug, Clone)]
pub struct StoredGit {
    /// Name of the upstream.
    pub name: String,
    /// Whether the stored repository existed and held the commit already.
    pub was_cached: bool,
    /// Path of the stored repository.
    pub path: String,
    /// The commit that the upstream names.
    pub commit: String,
}

/// An upstream after it was stored.
#[derive(Debug, Clone)]
pub enum Stored {
    Plain(StoredPlain),
    Git(StoredGit),
}

impl Stored {
    /// Whether the upstream did not need to be written when it was stored, because
    /// the content was already there and valid.
    pub fn was_cached(&self) -> (b: bool)
        ensures
            b == match self {
                Stored::Plain(p) => p.was_cached,
                Stored::Git(g) => g.was_cached,
            },
    {
        match self {
            Stored::Plain(plain) => plain.was_cached,
            Stored::Git(git) => git.was_cached,
        }
    }
}

/// A source archive shared for a build.
#[derive(Debug, Clone)]
pub struct SharedPlain {
    /// Path of the source archive after it was shared.
    pub path: String,
}

/// A git worktree shared for a build.
#[derive(Debug, Clone)]
pub struct SharedGit {
    /// Path of the worktree.
    pub path: String,
}

/// An upstream shared for a build.
#[derive(Debug, Clone)]
pub enum Shared {
    Plain(SharedPlain),
    Git(SharedGit),
}

/// Whether `s` is a git commit hash: 40 (SHA-1) or 64 (SHA-256) hexadecimal digits.
pub open spec fn spec_is_valid_commit_hash(s: Seq<char>) -> bool {
    (utf8_len(s) == 40 || utf8_len(s) == 64) && forall|i: int|
        0 <= i < s.len() ==> crate::stone_recipe::upstream::is_hex(#[trigger] s[i])
}

/// Whether `s` is a git commit hash: 40 (SHA-1) or 64 (SHA-256) hexadecimal digits.
pub fn is_valid_commit_hash(s: &str) -> (b: bool)
    ensures
        b == spec_is_valid_commit_hash(s@),
{
    let n = byte_len(s);
    if n != 40 && n != 64 {
        return false;
    }
    let cs = crate::text::chars_of(s);
    let mut i: usize = 0;
    while i < cs.len()
        invariant
            cs@ == s@,
            i <= cs@.len(),
            forall|k: int| 0 <= k < i ==> crate::stone_recipe::upstream::is_hex(#[trigger] cs@[k]),
        decreases cs@.len() - i,
    {
        let c = cs[i];
        if !(('0' <= c && c <= '9') || ('a' <= c && c <= 'f') || ('A' <= c && c <= 'F')) {
            return false;
        }
        i += 1;
    }
    true
}

} // verus!
