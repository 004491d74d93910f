//! EROFS meta-only images of a tree of files whose contents live in a
//! content-addressed store.

pub mod bytes;
pub mod layout;
pub mod place;
pub mod image;
pub mod laws;

use crate::erofs::image::{spec_image, write_inodes};
use crate::erofs::layout::{build_inodes, inode_count, inodes_wf, tree_at, Inode};
use crate::erofs::place::{layout_error, layout_of, layout_ok, redirect_paths, sorted_paths, texts, Layout};

use vstd::prelude::*;

verus! {

/// The namespace that extended attributes get written to.
#[derive(Debug, Clone, Copy, PartialEq, Eq, Structural)]
pub enum XattrNamespace {
    /// User extended attributes (`user.*`)
    User,
    /// Trusted extended attributes (`trusted.*`)
    Trusted,
}

impl XattrNamespace {
    /// The index of the namespace in the image.
    pub open spec fn spec_index(self) -> u8 {
        match self {
            XattrNamespace::User => 1u8,
            XattrNamespace::Trusted => 4u8,
        }
    }

    /// The index of the namespace in the image.
    pub fn index(&self) -> (b: u8)
        ensures
            b == self.spec_index(),
    {
        match self {
            XattrNamespace::User => 1,
            XattrNamespace::Trusted => 4,
        }
    }
}

impl Default for XattrNamespace {
    fn default() -> (n: Self)
        ensures
            n == XattrNamespace::Trusted,
    {
        XattrNamespace::Trusted
    }
}

/// The kind of a file of the tree, with what the image needs of it.
#[derive(Debug, Clone, PartialEq, Eq)]
pub enum LayoutFile {
    /// A directory.
    Directory(String),
    /// A regular file, by the hash of its content, and its name.
    Regular(u128, String),
    /// A symlink: its source, and its name.
    Symlink(String, String),
    CharacterDevice(String),
    BlockDevice(String),
    Fifo(String),
    Socket(String),
    Unknown(String),
}

/// A file of the tree with its ownership and permissions.
#[derive(Debug, Clone, PartialEq, Eq)]
pub struct LayoutRecord {
    pub uid: u32,
    pub gid: u32,
    pub mode: u32,
    pub file: LayoutFile,
}

/// A node of the tree: a file, its name in its directory, and the files it holds.
#[derive(Debug, PartialEq, Eq)]
pub struct Element {
    pub name: String,
    pub record: LayoutRecord,
    pub children: Vec<Element>,
}

/// Why an image could not be written.
#[derive(Debug, Clone, PartialEq, Eq)]
pub enum Error {
    /// The size of the stored content at this path was not given.
    MissingCasSize(String),
    /// An inode does not fit in a metadata block.
    InodeTooLarge,
    /// A directory entry, with its name, does not fit in a block.
    NameTooLong,
    /// The image needs more blocks, inodes or bytes than its fields can hold.
    TooLarge,
}

/// A writer of EROFS meta-only images.
#[derive(Debug, Clone, Copy, PartialEq, Eq, Structural)]
pub struct MetaImageWriter {
    xattr_namespace: XattrNamespace,
}

impl MetaImageWriter {
    /// The namespace that the writer puts extended attributes in.
    pub closed spec fn namespace(&self) -> XattrNamespace {
        self.xattr_namespace
    }

    /// A writer with the default namespace, [`XattrNamespace::Trusted`].
    pub fn new() -> (w: Self)
        ensures
            w.namespace() == XattrNamespace::Trusted,
    {
        MetaImageWriter { xattr_namespace: XattrNamespace::default() }
    }

    /// This writer, putting extended attributes in `xattr_namespace`.
    pub fn with_xattr_namespace(self, xattr_namespace: XattrNamespace) -> (w: Self)
        ensures
            w.namespace() == xattr_namespace,
    {
        MetaImageWriter { xattr_namespace }
    }

    /// The namespace of this writer.
    pub fn xattr_namespace(&self) -> (n: XattrNamespace)
        ensures
            n == self.namespace(),
    {
        self.xattr_namespace
    }

    /// The stored-content paths of the regular files of the tree, sorted, each once: those
    /// whose sizes [`MetaImageWriter::write`] needs.
    pub fn content_paths(&self, tree: &Element) -> (v: Vec<String>)
        ensures
            exists|s: Seq<Inode>| #[trigger] built(*tree, s) && texts(v@) == sorted_paths(s),
    {
        let mut inodes: Vec<Inode> = Vec::new();
        build_inodes(tree, &mut inodes, None);
        let v = redirect_paths(&inodes);
        proof {
            let q = sorted_paths(inodes@);
            crate::names::lemma_strictly_sorted_unique(q, texts(v@));
            assert(built(*tree, inodes@));
        }
        v
    }

    /// Appends to `out` the meta-only image of the tree whose root is `tree`: one inode per
    /// directory, regular file and symlink, numbered depth first; each regular file given
    /// the size of its stored content from `cas_sizes` (by the path of the content) and
    /// redirected to it through extended attributes in this writer's namespace. Or says
    /// why no image can be made, and appends nothing.
    pub fn write(self, tree: &Element, cas_sizes: &Vec<(String, u64)>, out: &mut Vec<u8>) -> (r: Result<(), Error>)
        ensures
            exists|s: Seq<Inode>| #[trigger] built(*tree, s) && match r {
                Ok(()) => layout_ok(s, cas_sizes@) && exists|l: Layout|
                    layout_of(s, cas_sizes@, l) && final(out)@ == old(out)@ + spec_image(
                        self.namespace().spec_index(),
                        s,
                        l,
                    ),
                Err(e) => layout_error(s, cas_sizes@, e) && final(out)@ == old(out)@,
            },
    {
        let mut inodes: Vec<Inode> = Vec::new();
        build_inodes(tree, &mut inodes, None);
        let r = write_inodes(out, self.xattr_namespace.index(), &inodes, cas_sizes);
        assert(built(*tree, inodes@));
        r
    }
}

impl Default for MetaImageWriter {
    fn default() -> (w: Self)
        ensures
            w.namespace() == XattrNamespace::Trusted,
    {
        MetaImageWriter::new()
    }
}

/// Whether `s` are the inodes of the tree whose root is `e`: one per directory, regular
/// file and symlink, numbered depth first from the root's, which is first; each the inode
/// of its file, a directory's entries naming `.`, `..` (the root's naming itself) and each
/// of its children with an inode, at the numbers they get.
pub open spec fn built(e: Element, s: Seq<Inode>) -> bool {
    &&& inodes_wf(s)
    &&& s.len() == inode_count(e)
    &&& tree_at(e, s, 0, 0)
}

} // verus!
