//! Inodes of an image, and where each of its parts lands.

use vstd::prelude::*;
use crate::erofs::bytes::{cas_path, spec_cas_path, utf8, utf8_len};
use crate::erofs::{Element, LayoutFile};
use crate::names::{lex_lt, names_lt};

verus! {

/// The size of a block.
pub const BLOCK_SIZE: u64 = 4096;
/// Inodes are placed on slots of this size.
pub const SLOT_SIZE: u64 = 32;
/// The size of a directory entry record.
pub const DIRENT_SIZE: u64 = 12;

/// Directory mode bits.
pub const ST_IFDIR: u16 = 0o040000;
/// Regular file mode bits.
pub const ST_IFREG: u16 = 0o100000;
/// Symlink mode bits.
pub const ST_IFLNK: u16 = 0o120000;

/// The type of a directory entry.
#[derive(Debug, Clone, Copy, PartialEq, Eq, Structural)]
pub enum DirentFileType {
    Unknown,
    RegFile,
    Dir,
    Chrdev,
    Blkdev,
    Fifo,
    Sock,
    Symlink,
}

impl DirentFileType {
    /// The code of the type in the image.
    pub fn code(&self) -> (c: u8)
        ensures
            c == spec_file_type_code(*self),
    {
        match self {
            DirentFileType::Unknown => 0,
            DirentFileType::RegFile => 1,
            DirentFileType::Dir => 2,
            DirentFileType::Chrdev => 3,
            DirentFileType::Blkdev => 4,
            DirentFileType::Fifo => 5,
            DirentFileType::Sock => 6,
            DirentFileType::Symlink => 7,
        }
    }
}

/// The code of a directory entry type in the image.
pub open spec fn spec_file_type_code(t: DirentFileType) -> u8 {
    match t {
        DirentFileType::Unknown => 0,
        DirentFileType::RegFile => 1,
        DirentFileType::Dir => 2,
        DirentFileType::Chrdev => 3,
        DirentFileType::Blkdev => 4,
        DirentFileType::Fifo => 5,
        DirentFileType::Sock => 6,
        DirentFileType::Symlink => 7,
    }
}

/// The directory entry type of a file.
pub open spec fn spec_dirent_file_type(f: LayoutFile) -> DirentFileType {
    match f {
        LayoutFile::Directory(_) => DirentFileType::Dir,
        LayoutFile::Regular(..) => DirentFileType::RegFile,
        LayoutFile::Symlink(..) => DirentFileType::Symlink,
        LayoutFile::CharacterDevice(_) => DirentFileType::Chrdev,
        LayoutFile::BlockDevice(_) => DirentFileType::Blkdev,
        LayoutFile::Fifo(_) => DirentFileType::Fifo,
        LayoutFile::Socket(_) => DirentFileType::Sock,
        LayoutFile::Unknown(_) => DirentFileType::Unknown,
    }
}

/// The directory entry type of a file.
pub fn dirent_file_type(f: &LayoutFile) -> (t: DirentFileType)
    ensures
        t == spec_dirent_file_type(*f),
{
    match f {
        LayoutFile::Directory(_) => DirentFileType::Dir,
        LayoutFile::Regular(..) => DirentFileType::RegFile,
        LayoutFile::Symlink(..) => DirentFileType::Symlink,
        LayoutFile::CharacterDevice(_) => DirentFileType::Chrdev,
        LayoutFile::BlockDevice(_) => DirentFileType::Blkdev,
        LayoutFile::Fifo(_) => DirentFileType::Fifo,
        LayoutFile::Socket(_) => DirentFileType::Sock,
        LayoutFile::Unknown(_) => DirentFileType::Unknown,
    }
}

/// An entry of a directory.
#[derive(Debug, Clone)]
pub struct Dirent {
    pub name: String,
    pub child_ino: u64,
    pub file_type: DirentFileType,
}

/// What an inode holds, by kind.
#[derive(Debug, Clone)]
pub enum InodeKind {
    Dir { children: Vec<Dirent>, num_hardlinks: u32 },
    Reg { cas_path: String },
    Symlink { source: String },
}

/// An inode of the image.
#[derive(Debug, Clone)]
pub struct Inode {
    pub ino: u64,
    pub mode: u16,
    pub uid: u32,
    pub gid: u32,
    pub kind: InodeKind,
}

/// The size of an inode, inline data and inline extended attributes included: a
/// 64-byte inode, with 20 bytes of shared attribute references for a regular file,
/// or the symlink source inline.
pub open spec fn spec_inode_size(k: InodeKind) -> nat {
    match k {
        InodeKind::Dir { .. } => 64,
        InodeKind::Reg { .. } => 64 + (12 + 4 * 2),
        InodeKind::Symlink { source } => 64 + utf8(source@).len(),
    }
}

/// The size of an inode rounded up to whole slots.
pub open spec fn spec_aligned_size(k: InodeKind) -> nat {
    ((spec_inode_size(k) + 31) / 32 * 32) as nat
}

impl Inode {
    /// The size of this inode, aligned to the slot boundary.
    pub fn aligned_size(&self) -> (n: u128)
        ensures
            n == spec_aligned_size(self.kind),
    {
        let size: u128 = match &self.kind {
            InodeKind::Dir { .. } => 64,
            InodeKind::Reg { .. } => 64 + (12 + 4 * 2),
            InodeKind::Symlink { source } => 64 + utf8_len(source.as_str()),
        };
        assert(size == spec_inode_size(self.kind));
        (size + 31) / 32 * 32
    }
}

/// Whether the names of the entries never decrease.
pub open spec fn dirents_sorted(ds: Seq<Dirent>) -> bool {
    forall|i: int, j: int| 0 <= i < j < ds.len() ==> !lex_lt(ds[j].name@, ds[i].name@)
}

/// The number of entries that are directories.
pub open spec fn count_dirs(ds: Seq<Dirent>) -> nat
    decreases ds.len(),
{
    if ds.len() == 0 {
        0
    } else {
        count_dirs(ds.drop_last()) + if ds.last().file_type == DirentFileType::Dir {
            1nat
        } else {
            0nat
        }
    }
}

/// Whether every inode is numbered by its position, and every directory entry names an
/// inode of the list.
pub open spec fn inodes_wf(s: Seq<Inode>) -> bool {
    forall|i: int|
        0 <= i < s.len() ==> (#[trigger] s[i]).ino == i && (s[i].kind matches InodeKind::Dir {
            children,
            ..
        } ==> forall|d: int| 0 <= d < children@.len() ==> #[trigger] children@[d].child_ino < s.len())
}

/// The mode of the inode of a file.
pub open spec fn spec_mode(e: Element) -> u16 {
    match e.record.file {
        LayoutFile::Directory(_) => ST_IFDIR | ((e.record.mode & 0o7777) as u16),
        LayoutFile::Regular(..) => ST_IFREG | ((e.record.mode & 0xFFFF) as u16),
        _ => ST_IFLNK | ((e.record.mode & 0xFFFF) as u16),
    }
}

/// Whether `n` is the inode of the file `e`: with its mode, owner and group; for a
/// directory, entries sorted by name and as many links as entries that are directories;
/// for a regular file, the path of its stored content; for a symlink, its source.
pub open spec fn inode_for(e: Element, n: Inode) -> bool {
    &&& n.mode == spec_mode(e)
    &&& n.uid == e.record.uid
    &&& n.gid == e.record.gid
    &&& match e.record.file {
        LayoutFile::Directory(_) => n.kind matches InodeKind::Dir { children, num_hardlinks } && dirents_sorted(
            children@,
        ) && num_hardlinks == count_dirs(children@) as u32,
        LayoutFile::Regular(id, _) => n.kind matches InodeKind::Reg { cas_path } && cas_path@ == spec_cas_path(id),
        LayoutFile::Symlink(source, _) => n.kind matches InodeKind::Symlink { source: s } && s@ == source@,
        _ => false,
    }
}

/// Whether a file gets an inode: directories, regular files and symlinks do.
pub open spec fn has_inode(f: LayoutFile) -> bool {
    f is Directory || f is Regular || f is Symlink
}

/// What a directory entry says: its name, the number of its inode, and its type.
pub open spec fn dview(d: Dirent) -> (Seq<char>, int, DirentFileType) {
    (d.name@, d.child_ino as int, d.file_type)
}

/// What the entries of a directory inode say; nothing for another inode.
pub open spec fn entry_views(k: InodeKind) -> Seq<(Seq<char>, int, DirentFileType)> {
    match k {
        InodeKind::Dir { children, .. } => children@.map_values(|e: Dirent| dview(e)),
        _ => Seq::empty(),
    }
}

/// The number of inodes of a tree of files: one for each directory, regular file and
/// symlink, a directory counting those below it.
pub open spec fn inode_count(e: Element) -> nat
    decreases e, 1nat, 0int,
{
    match e.record.file {
        LayoutFile::Directory(_) => 1 + count_upto(e, e.children@.len() as int),
        LayoutFile::Regular(..) => 1,
        LayoutFile::Symlink(..) => 1,
        _ => 0,
    }
}

/// The number of inodes of the first `k` children of a directory and what is below them.
pub open spec fn count_upto(e: Element, k: int) -> nat
    decreases e, 0nat, k,
{
    if k <= 0 || k > e.children@.len() {
        0
    } else {
        proof {
            assert(decreases_to!(e => e.children));
            assert(decreases_to!(e.children => e.children@));
            assert(decreases_to!(e.children@ => e.children@[k - 1]));
        }
        count_upto(e, k - 1) + inode_count(e.children@[k - 1])
    }
}

/// The entries of the first `k` children of the directory `e`, whose inode is `ino`:
/// each child that gets an inode, with the number of its inode.
pub open spec fn child_entries(e: Element, ino: int, k: int) -> Seq<(Seq<char>, int, DirentFileType)>
    decreases k,
{
    if k <= 0 {
        Seq::empty()
    } else {
        let c = e.children@[k - 1];
        child_entries(e, ino, k - 1) + if has_inode(c.record.file) {
            seq![(c.name@, ino + 1 + count_upto(e, k - 1), spec_dirent_file_type(c.record.file))]
        } else {
            Seq::empty()
        }
    }
}

/// The entries of the directory `e` whose inode is `ino` and whose parent's is `up`: `.`,
/// `..`, and each of its children that gets an inode.
pub open spec fn dir_entries(e: Element, ino: int, up: int) -> Seq<(Seq<char>, int, DirentFileType)> {
    seq![("."@, ino, DirentFileType::Dir), (".."@, up, DirentFileType::Dir)] + child_entries(
        e,
        ino,
        e.children@.len() as int,
    )
}

/// Whether the inodes of `s` from position `base` on are those of the tree whose root is
/// `e`, numbered depth first from `base`, the root's parent having the number `up`: the
/// inode of each file that gets one, a directory's entries naming `.`, `..` and each of
/// its children with an inode, at the numbers they get.
pub open spec fn tree_at(e: Element, s: Seq<Inode>, base: int, up: int) -> bool
    decreases e, 1nat, 0int,
{
    if !has_inode(e.record.file) {
        true
    } else {
        &&& 0 <= base < s.len()
        &&& inode_for(e, s[base])
        &&& e.record.file is Directory ==> entry_views(s[base].kind).to_multiset() == dir_entries(
            e,
            base,
            up,
        ).to_multiset() && children_at(e, s, base, e.children@.len() as int)
    }
}

/// Whether the inodes of the first `k` children of the directory `e`, whose inode is at
/// `base`, and of what is below them, follow it in `s`, depth first.
pub open spec fn children_at(e: Element, s: Seq<Inode>, base: int, k: int) -> bool
    decreases e, 0nat, k,
{
    if k <= 0 || k > e.children@.len() {
        true
    } else {
        proof {
            assert(decreases_to!(e => e.children));
            assert(decreases_to!(e.children => e.children@));
            assert(decreases_to!(e.children@ => e.children@[k - 1]));
        }
        children_at(e, s, base, k - 1) && tree_at(e.children@[k - 1], s, base + 1 + count_upto(e, k - 1), base)
    }
}

/// A tree's inodes depend only on the positions that the tree takes.
proof fn lemma_tree_frame(e: Element, s1: Seq<Inode>, s2: Seq<Inode>, base: int, up: int)
    requires
        0 <= base,
        base + inode_count(e) <= s1.len(),
        base + inode_count(e) <= s2.len(),
        forall|i: int| base <= i < base + inode_count(e) ==> s1[i] == s2[i],
    ensures
        tree_at(e, s1, base, up) == tree_at(e, s2, base, up),
    decreases e, 1nat, 0int,
{
    if has_inode(e.record.file) {
        assert(s1[base] == s2[base]);
        if e.record.file is Directory {
            lemma_children_frame(e, s1, s2, base, e.children@.len() as int);
        }
    }
}

/// The inodes of a directory's first children depend only on the positions they take.
proof fn lemma_children_frame(e: Element, s1: Seq<Inode>, s2: Seq<Inode>, base: int, k: int)
    requires
        0 <= base,
        0 <= k <= e.children@.len(),
        base + 1 + count_upto(e, k) <= s1.len(),
        base + 1 + count_upto(e, k) <= s2.len(),
        forall|i: int| base + 1 <= i < base + 1 + count_upto(e, k) ==> s1[i] == s2[i],
    ensures
        children_at(e, s1, base, k) == children_at(e, s2, base, k),
    decreases e, 0nat, k,
{
    if k > 0 {
        assert(decreases_to!(e => e.children));
        assert(decreases_to!(e.children => e.children@));
        assert(decreases_to!(e.children@ => e.children@[k - 1]));
        lemma_children_frame(e, s1, s2, base, k - 1);
        lemma_tree_frame(e.children@[k - 1], s1, s2, base + 1 + count_upto(e, k - 1), base);
    }
}

/// Inserts `d` after the entries whose names do not come after its own.
fn insert_dirent(ds: &mut Vec<Dirent>, d: Dirent)
    requires
        dirents_sorted(old(ds)@),
    ensures
        dirents_sorted(final(ds)@),
        final(ds)@.len() == old(ds)@.len() + 1,
        count_dirs(final(ds)@) == count_dirs(old(ds)@) + if d.file_type == DirentFileType::Dir {
            1nat
        } else {
            0nat
        },
        forall|k: int| 0 <= k < old(ds)@.len() ==> #[trigger] final(ds)@.contains(old(ds)@[k]),
        final(ds)@.contains(d),
        final(ds)@.map_values(|e: Dirent| dview(e)).to_multiset() == old(ds)@.map_values(
            |e: Dirent| dview(e),
        ).to_multiset().insert(dview(d)),
        forall|k: int| 0 <= k < final(ds)@.len() ==> #[trigger] final(ds)@[k] == d || old(ds)@.contains(final(ds)@[k]),
{
    let ghost s = ds@;
    let mut i = ds.len();
    while i > 0 && names_lt(d.name.as_str(), ds[i - 1].name.as_str())
        invariant
            ds@ == s,
            i <= s.len(),
            forall|j: int| i <= j < s.len() ==> lex_lt(d.name@, s[j].name@),
        decreases i,
    {
        i -= 1;
    }
    proof {
        if i > 0 {
            crate::names::lemma_lex_total(d.name@, s[i - 1].name@);
        }
        assert forall|j: int| 0 <= j < i implies !lex_lt(d.name@, s[j].name@) by {
            if j < i - 1 && lex_lt(d.name@, s[j].name@) {
                crate::names::lemma_lex_total(s[j].name@, s[i - 1].name@);
                if lex_lt(s[j].name@, s[i - 1].name@) {
                    crate::names::lemma_lex_trans(d.name@, s[j].name@, s[i - 1].name@);
                }
            }
        }
    }
    let ghost dd = d;
    ds.insert(i, d);
    proof {
        let n = ds@;
        assert(n =~= s.insert(i as int, dd));
        assert forall|a: int, b: int| 0 <= a < b < n.len() implies !lex_lt(n[b].name@, n[a].name@) by {
            if a == i {
                crate::names::lemma_lex_total(dd.name@, s[b - 1].name@);
            } else if a < i && b > i {
                assert(!lex_lt(s[b - 1].name@, s[a].name@));
            } else if a > i {
                assert(!lex_lt(s[b - 1].name@, s[a - 1].name@));
            } else if b == i {
            } else {
                assert(!lex_lt(s[b].name@, s[a].name@));
            }
        }
        lemma_count_dirs_insert(s, i as int, dd);
        assert forall|k: int| 0 <= k < s.len() implies #[trigger] n.contains(s[k]) by {
            if k < i {
                assert(n[k] == s[k]);
            } else {
                assert(n[k + 1] == s[k]);
            }
        }
        assert(n[i as int] == dd);
        assert(n.map_values(|e: Dirent| dview(e)) =~= s.map_values(|e: Dirent| dview(e)).insert(
            i as int,
            dview(dd),
        ));
        vstd::seq_lib::to_multiset_insert(s.map_values(|e: Dirent| dview(e)), i as int, dview(dd));
        assert forall|k: int| 0 <= k < n.len() implies #[trigger] n[k] == dd || s.contains(n[k]) by {
            if k < i {
                assert(s[k] == n[k]);
            } else if k > i {
                assert(s[k - 1] == n[k]);
            }
        }
    }
}

proof fn lemma_count_dirs_insert(s: Seq<Dirent>, i: int, d: Dirent)
    requires
        0 <= i <= s.len(),
    ensures
        count_dirs(s.insert(i, d)) == count_dirs(s) + if d.file_type == DirentFileType::Dir {
            1nat
        } else {
            0nat
        },
    decreases s.len(),
{
    if i == s.len() {
        assert(s.insert(i, d) =~= s.push(d));
        assert(s.push(d).drop_last() =~= s);
    } else {
        lemma_count_dirs_insert(s.drop_last(), i, d);
        assert(s.insert(i, d).drop_last() =~= s.drop_last().insert(i, d));
        assert(s.insert(i, d).last() == s.last());
    }
}

/// Counts the entries that are directories.
fn dir_count(ds: &Vec<Dirent>) -> (n: usize)
    ensures
        n == count_dirs(ds@),
{
    let mut n: usize = 0;
    let mut i: usize = 0;
    assert(ds@.take(0) =~= Seq::<Dirent>::empty());
    while i < ds.len()
        invariant
            i <= ds@.len(),
            n == count_dirs(ds@.take(i as int)),
            n <= i,
        decreases ds@.len() - i,
    {
        assert(ds@.take(i + 1).drop_last() =~= ds@.take(i as int));
        if ds[i].file_type == DirentFileType::Dir {
            n += 1;
        }
        i += 1;
    }
    assert(ds@.take(i as int) =~= ds@);
    n
}

/// Appends the inodes of `element` and of everything below it to `inodes`, in
/// depth-first order, each numbered by its position; returns the number of the
/// element's inode, or none for a file that gets no inode. A directory's entries are
/// `.`, `..` (its parent, or itself at the root) and its children with inodes, sorted by
/// name; it has as many links as entries that are directories.
pub fn build_inodes(element: &Element, inodes: &mut Vec<Inode>, parent_ino: Option<u64>) -> (r: Option<u64>)
    requires
        inodes_wf(old(inodes)@),
        parent_ino matches Some(p) ==> p < old(inodes)@.len(),
    ensures
        inodes_wf(final(inodes)@),
        final(inodes)@.len() >= old(inodes)@.len(),
        final(inodes)@.subrange(0, old(inodes)@.len() as int) == old(inodes)@,
        final(inodes)@.len() == old(inodes)@.len() + inode_count(*element),
        tree_at(
            *element,
            final(inodes)@,
            old(inodes)@.len() as int,
            match parent_ino {
                Some(p) => p as int,
                None => old(inodes)@.len() as int,
            },
        ),
        match r {
            None => !has_inode(element.record.file) && final(inodes)@ == old(inodes)@,
            Some(ino) => has_inode(element.record.file) && ino == old(inodes)@.len() && ino
                < final(inodes)@.len() && inode_for(*element, final(inodes)@[ino as int]) && (
                element.record.file is Directory ==> entry_views(final(inodes)@[ino as int].kind).to_multiset()
                    == dir_entries(
                    *element,
                    ino as int,
                    match parent_ino {
                        Some(p) => p as int,
                        None => ino as int,
                    },
                ).to_multiset()),
        },
    decreases element,
{
    let ghost start = inodes@;
    let ino = inodes.len() as u64;
    match &element.record.file {
        LayoutFile::Directory(_) => {
            let mode = ST_IFDIR | ((element.record.mode & 0o7777) as u16);
            inodes.push(
                Inode {
                    ino,
                    mode,
                    uid: element.record.uid,
                    gid: element.record.gid,
                    kind: InodeKind::Dir { children: Vec::new(), num_hardlinks: 0 },
                },
            );
            let mut children: Vec<Dirent> = Vec::new();
            insert_dirent(&mut children, Dirent { name: ".".to_owned(), child_ino: ino, file_type: DirentFileType::Dir });
            let up = match parent_ino {
                Some(p) => p,
                None => ino,
            };
            insert_dirent(&mut children, Dirent { name: "..".to_owned(), child_ino: up, file_type: DirentFileType::Dir });
            let ghost dots = seq![("."@, ino as int, DirentFileType::Dir), (".."@, up as int, DirentFileType::Dir)];
            proof {
                vstd::seq_lib::to_multiset_build(Seq::<(Seq<char>, int, DirentFileType)>::empty(), dots[0]);
                vstd::seq_lib::to_multiset_build(seq![dots[0]], dots[1]);
                assert(seq![dots[0]] =~= Seq::<(Seq<char>, int, DirentFileType)>::empty().push(dots[0]));
                assert(dots =~= seq![dots[0]].push(dots[1]));
                assert(Seq::<Dirent>::empty().map_values(|e: Dirent| dview(e)) =~= Seq::<(Seq<char>, int, DirentFileType)>::empty());
                assert(dots + child_entries(*element, ino as int, 0) =~= dots);
            }
            let mut i: usize = 0;
            while i < element.children.len()
                invariant
                    i <= element.children@.len(),
                    inodes_wf(inodes@),
                    inodes@.len() > ino,
                    ino == start.len(),
                    inodes@.subrange(0, start.len() as int) == start,
                    inodes@[ino as int].mode == mode,
                    inodes@[ino as int].uid == element.record.uid,
                    inodes@[ino as int].gid == element.record.gid,
                    inodes@[ino as int].kind matches InodeKind::Dir { .. },
                    dirents_sorted(children@),
                    forall|d: int| 0 <= d < children@.len() ==> #[trigger] children@[d].child_ino
                        < inodes@.len(),
                    inodes@.len() == start.len() + 1 + count_upto(*element, i as int),
                    dots == seq![("."@, ino as int, DirentFileType::Dir), (".."@, up as int, DirentFileType::Dir)],
                    children@.map_values(|e: Dirent| dview(e)).to_multiset() == (dots + child_entries(
                        *element,
                        ino as int,
                        i as int,
                    )).to_multiset(),
                    children_at(*element, inodes@, ino as int, i as int),
                decreases element.children@.len() - i,
            {
                let child = &element.children[i];
                proof {
                    assert(decreases_to!(element => element.children));
                    assert(decreases_to!(element.children => element.children@));
                    assert(decreases_to!(element.children@ => element.children@[i as int]));
                }
                let ghost before = inodes@;
                let ghost ce = child_entries(*element, ino as int, i as int);
                assert(count_upto(*element, i + 1) == count_upto(*element, i as int) + inode_count(element.children@[i as int]));
                let r = build_inodes(child, inodes, Some(ino));
                proof {
                    lemma_children_frame(*element, before, inodes@, ino as int, i as int);
                    assert(children_at(*element, inodes@, ino as int, i + 1));
                }
                match r {
                    Some(nid) => {
                        let d = Dirent {
                            name: child.name.clone(),
                            child_ino: nid,
                            file_type: dirent_file_type(&child.record.file),
                        };
                        let ghost cbefore = children@;
                        insert_dirent(&mut children, d);
                        proof {
                            assert(inodes@.subrange(0, start.len() as int) =~= before.subrange(
                                0,
                                start.len() as int,
                            ));
                            assert(inodes@[ino as int] == before[ino as int]) by {
                                assert(inodes@.subrange(0, before.len() as int)[ino as int]
                                    == before[ino as int]);
                            }
                            assert forall|k: int| 0 <= k < children@.len() implies #[trigger] children@[k].child_ino
                                < inodes@.len() by {
                                if children@[k] != d {
                                    let m = choose|m: int| 0 <= m < cbefore.len() && cbefore[m] == children@[k];
                                    assert(cbefore[m].child_ino < before.len());
                                }
                            }
                            let x = (child.name@, ino + 1 + count_upto(*element, i as int), spec_dirent_file_type(child.record.file));
                            assert(dview(d) == x);
                            assert(child_entries(*element, ino as int, i + 1) =~= ce.push(x));
                            assert(dots + ce.push(x) =~= (dots + ce).push(x));
                            vstd::seq_lib::to_multiset_build(dots + ce, x);
                        }
                    },
                    None => {
                        assert(child_entries(*element, ino as int, i + 1) =~= ce);
                    },
                }
                i += 1;
            }
            let n = dir_count(&children) as u32;
            let ghost before = inodes@;
            inodes.set(
                ino as usize,
                Inode {
                    ino,
                    mode,
                    uid: element.record.uid,
                    gid: element.record.gid,
                    kind: InodeKind::Dir { children, num_hardlinks: n },
                },
            );
            proof {
                assert(inodes@.subrange(0, start.len() as int) =~= before.subrange(
                    0,
                    start.len() as int,
                ));
                lemma_children_frame(*element, before, inodes@, ino as int, element.children@.len() as int);
            }
            Some(ino)
        },
        LayoutFile::Regular(id, _) => {
            let mode = ST_IFREG | ((element.record.mode & 0xFFFF) as u16);
            inodes.push(
                Inode {
                    ino,
                    mode,
                    uid: element.record.uid,
                    gid: element.record.gid,
                    kind: InodeKind::Reg { cas_path: cas_path(*id) },
                },
            );
            assert(inodes@.subrange(0, start.len() as int) =~= start);
            Some(ino)
        },
        LayoutFile::Symlink(source, _) => {
            let mode = ST_IFLNK | ((element.record.mode & 0xFFFF) as u16);
            inodes.push(
                Inode {
                    ino,
                    mode,
                    uid: element.record.uid,
                    gid: element.record.gid,
                    kind: InodeKind::Symlink { source: source.clone() },
                },
            );
            assert(inodes@.subrange(0, start.len() as int) =~= start);
            Some(ino)
        },
        _ => {
            assert(inodes@.subrange(0, start.len() as int) =~= start);
            None
        },
    }
}

} // verus!
