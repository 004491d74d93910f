//! The kind of a node of a file tree.

use vstd::prelude::*;

verus! {

/// The kind of a node of a file tree: a regular file, a directory, or a symlink with its
/// target.
#[derive(Debug, Clone, PartialEq, Eq)]
pub enum Kind {
    Regular,
    Directory,
    Symlink(String),
}

impl Kind {
    /// Regular path
    pub const REGULAR: Kind = Kind::Regular;

    /// Directory (parenting node)
    pub const DIRECTORY: Kind = Kind::Directory;

    /// A symlink to `target`.
    pub fn symlink(target: String) -> (k: Kind)
        ensures
            k matches Kind::Symlink(t) && t@ == target@,
    {
        Kind::Symlink(target)
    }

    /// Whether this is a regular file.
    pub fn is_regular(&self) -> (b: bool)
        ensures
            b == (*self is Regular),
    {
        match self {
            Kind::Regular => true,
            _ => false,
        }
    }

    /// Whether this is a directory.
    pub fn is_directory(&self) -> (b: bool)
        ensures
            b == (*self is Directory),
    {
        match self {
            Kind::Directory => true,
            _ => false,
        }
    }

    /// Whether this is a symlink.
    pub fn is_symlink(&self) -> (b: bool)
        ensures
            b == (*self is Symlink),
    {
        match self {
            Kind::Symlink(_) => true,
            _ => false,
        }
    }

    /// The target of a symlink; none for another kind.
    pub fn as_symlink(&self) -> (r: Option<&String>)
        ensures
            match self {
                Kind::Symlink(t) => r matches Some(x) && x@ == t@,
                _ => r is None,
            },
    {
        match self {
            Kind::Symlink(t) => Some(t),
            _ => None,
        }
    }
}

impl Default for Kind {
    fn default() -> (k: Self)
        ensures
            k is Directory,
    {
        Kind::Directory
    }
}

} // verus!
