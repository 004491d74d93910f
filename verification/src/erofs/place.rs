//! Where each part of an image goes: inode slots in the metadata area, shared extended
//! attributes for the stored contents, and blocks of directory entries.

use vstd::prelude::*;
use crate::erofs::bytes::{spec_xattr_entry_size, utf8, utf8_len};
use crate::erofs::layout::{spec_aligned_size, Dirent, Inode, InodeKind};
use crate::erofs::Error;
use crate::names::{strictly_sorted, NameSet};

verus! {

/// Where an inode of `size` bytes starts when the area so far ends at `cursor`: there,
/// or at the next block when it does not fit in what is left of the current one.
pub open spec fn place(cursor: nat, size: nat) -> nat {
    if cursor % 4096 + size > 4096 {
        (cursor + (4096 - cursor % 4096)) as nat
    } else {
        cursor
    }
}

/// The slot-aligned sizes of the inodes.
pub open spec fn aligned_sizes(s: Seq<Inode>) -> Seq<nat> {
    s.map_values(|i: Inode| spec_aligned_size(i.kind))
}

/// The end of a metadata area that holds inodes of these sizes, each placed after the
/// previous one.
pub open spec fn meta_end(sizes: Seq<nat>) -> nat
    decreases sizes.len(),
{
    if sizes.len() == 0 {
        0
    } else {
        place(meta_end(sizes.drop_last()), sizes.last()) + sizes.last()
    }
}

/// The offset of the `i`th inode in the metadata area.
pub open spec fn inode_offset(s: Seq<Inode>, i: int) -> nat {
    place(meta_end(aligned_sizes(s).take(i)), aligned_sizes(s)[i])
}

/// The stored-content path of a regular file's inode.
pub open spec fn reg_path(k: InodeKind) -> Option<Seq<char>> {
    match k {
        InodeKind::Reg { cas_path } => Some(cas_path@),
        _ => None,
    }
}

/// The stored-content paths of the regular files.
pub open spec fn cas_paths(s: Seq<Inode>) -> Set<Seq<char>> {
    Set::new(|p: Seq<char>| exists|i: int| 0 <= i < s.len() && reg_path(#[trigger] s[i].kind) == Some(p))
}

/// The size given for a stored-content path: the first entry with that path.
pub open spec fn size_of(sizes: Seq<(String, u64)>, p: Seq<char>) -> Option<u64>
    decreases sizes.len(),
{
    if sizes.len() == 0 {
        None
    } else if sizes[0].0@ == p {
        Some(sizes[0].1)
    } else {
        size_of(sizes.drop_first(), p)
    }
}

/// The path of the first regular file whose size is not given.
pub open spec fn first_missing(s: Seq<Inode>, sizes: Seq<(String, u64)>) -> Option<Seq<char>>
    decreases s.len(),
{
    if s.len() == 0 {
        None
    } else {
        match first_missing(s.drop_last(), sizes) {
            Some(p) => Some(p),
            None => match reg_path(s.last().kind) {
                Some(p) => if size_of(sizes, p) is None {
                    Some(p)
                } else {
                    None
                },
                None => None,
            },
        }
    }
}

/// Whether every inode fits in a block.
pub open spec fn inodes_fit(s: Seq<Inode>) -> bool {
    forall|i: int| 0 <= i < s.len() ==> spec_aligned_size(#[trigger] s[i].kind) <= 4096
}

/// The entries of a directory inode; none for another inode.
pub open spec fn entries(k: InodeKind) -> Seq<Dirent> {
    match k {
        InodeKind::Dir { children, .. } => children@,
        _ => Seq::empty(),
    }
}

/// Whether every directory entry, with its name, fits in a block.
pub open spec fn names_fit(s: Seq<Inode>) -> bool {
    forall|i: int, j: int|
        0 <= i < s.len() && 0 <= j < entries(s[i].kind).len() ==> 12 + utf8(
            (#[trigger] entries(s[i].kind)[j]).name@,
        ).len() <= 4096
}

/// The size given for `p`.
pub fn find_size(sizes: &Vec<(String, u64)>, p: &str) -> (r: Option<u64>)
    ensures
        r == size_of(sizes@, p@),
{
    let mut i: usize = 0;
    assert(sizes@.skip(0) =~= sizes@);
    while i < sizes.len()
        invariant
            i <= sizes@.len(),
            size_of(sizes@, p@) == size_of(sizes@.skip(i as int), p@),
        decreases sizes@.len() - i,
    {
        assert(sizes@.skip(i as int).drop_first() =~= sizes@.skip(i + 1));
        if crate::text::str_eq(sizes[i].0.as_str(), p) {
            return Some(sizes[i].1);
        }
        i += 1;
    }
    None
}

/// The path of the first regular file whose size is not given.
pub fn missing_size(inodes: &Vec<Inode>, sizes: &Vec<(String, u64)>) -> (r: Option<String>)
    ensures
        match r {
            Some(p) => first_missing(inodes@, sizes@) == Some(p@),
            None => first_missing(inodes@, sizes@) is None,
        },
{
    let mut i: usize = 0;
    assert(inodes@.take(0) =~= Seq::<Inode>::empty());
    while i < inodes.len()
        invariant
            i <= inodes@.len(),
            first_missing(inodes@.take(i as int), sizes@) is None,
        decreases inodes@.len() - i,
    {
        assert(inodes@.take(i + 1).drop_last() =~= inodes@.take(i as int));
        if let InodeKind::Reg { cas_path } = &inodes[i].kind {
            if find_size(sizes, cas_path.as_str()).is_none() {
                proof {
                    lemma_first_missing_prefix(inodes@, sizes@, i + 1);
                }
                return Some(cas_path.clone());
            }
        }
        i += 1;
    }
    assert(inodes@.take(i as int) =~= inodes@);
    None
}

/// Where a prefix of the inodes has a regular file without a size, the first such is
/// the first of the whole list.
proof fn lemma_first_missing_prefix(s: Seq<Inode>, sizes: Seq<(String, u64)>, k: int)
    requires
        0 <= k <= s.len(),
        first_missing(s.take(k), sizes) is Some,
    ensures
        first_missing(s, sizes) == first_missing(s.take(k), sizes),
    decreases s.len(),
{
    if k == s.len() {
        assert(s.take(k) =~= s);
    } else {
        assert(s.drop_last().take(k) =~= s.take(k));
        lemma_first_missing_prefix(s.drop_last(), sizes, k);
    }
}

/// Whether every inode fits in a block.
pub fn all_inodes_fit(inodes: &Vec<Inode>) -> (b: bool)
    ensures
        b == inodes_fit(inodes@),
{
    let mut i: usize = 0;
    while i < inodes.len()
        invariant
            i <= inodes@.len(),
            forall|k: int| 0 <= k < i ==> spec_aligned_size(#[trigger] inodes@[k].kind) <= 4096,
        decreases inodes@.len() - i,
    {
        if inodes[i].aligned_size() > 4096 {
            return false;
        }
        i += 1;
    }
    true
}

/// Whether every directory entry, with its name, fits in a block.
pub fn all_names_fit(inodes: &Vec<Inode>) -> (b: bool)
    ensures
        b == names_fit(inodes@),
{
    let mut i: usize = 0;
    while i < inodes.len()
        invariant
            i <= inodes@.len(),
            forall|a: int, j: int|
                0 <= a < i && 0 <= j < entries(inodes@[a].kind).len() ==> 12 + utf8(
                    (#[trigger] entries(inodes@[a].kind)[j]).name@,
                ).len() <= 4096,
        decreases inodes@.len() - i,
    {
        if let InodeKind::Dir { children, .. } = &inodes[i].kind {
            let mut j: usize = 0;
            while j < children.len()
                invariant
                    i < inodes@.len(),
                    j <= children@.len(),
                    entries(inodes@[i as int].kind) == children@,
                    forall|a: int, k: int|
                        0 <= a < i && 0 <= k < entries(inodes@[a].kind).len() ==> 12 + utf8(
                            (#[trigger] entries(inodes@[a].kind)[k]).name@,
                        ).len() <= 4096,
                    forall|k: int| 0 <= k < j ==> 12 + utf8((#[trigger] children@[k]).name@).len() <= 4096,
                decreases children@.len() - j,
            {
                if utf8_len(children[j].name.as_str()) > 4096 - 12 {
                    return false;
                }
                j += 1;
            }
        }
        i += 1;
    }
    true
}

/// A prefix of the inodes ends no later than the whole list.
pub proof fn lemma_meta_end_prefix(x: Seq<nat>, k: int)
    requires
        0 <= k <= x.len(),
    ensures
        meta_end(x.take(k)) <= meta_end(x),
    decreases x.len(),
{
    if k == x.len() {
        assert(x.take(k) =~= x);
    } else {
        assert(x.drop_last().take(k) =~= x.take(k));
        lemma_meta_end_prefix(x.drop_last(), k);
    }
}

/// The offset of each inode in the metadata area, and where the area ends.
pub fn placements(inodes: &Vec<Inode>) -> (r: (Vec<u128>, u128))
    requires
        inodes_fit(inodes@),
    ensures
        r.0@.len() == inodes@.len(),
        forall|i: int| 0 <= i < inodes@.len() ==> #[trigger] r.0@[i] == inode_offset(inodes@, i),
        r.1 == meta_end(aligned_sizes(inodes@)),
        r.1 <= 8192 * inodes@.len(),
{
    let ghost sizes = aligned_sizes(inodes@);
    let mut offsets: Vec<u128> = Vec::new();
    let mut cursor: u128 = 0;
    let mut i: usize = 0;
    assert(sizes.take(0) =~= Seq::<nat>::empty());
    while i < inodes.len()
        invariant
            i <= inodes@.len(),
            sizes == aligned_sizes(inodes@),
            inodes_fit(inodes@),
            cursor == meta_end(sizes.take(i as int)),
            cursor <= 8192 * i,
            offsets@.len() == i,
            forall|k: int| 0 <= k < i ==> #[trigger] offsets@[k] == inode_offset(inodes@, k),
        decreases inodes@.len() - i,
    {
        let a = inodes[i].aligned_size();
        assert(a == sizes[i as int]);
        assert(a <= 4096);
        let start = if cursor % 4096 + a > 4096 {
            cursor + (4096 - cursor % 4096)
        } else {
            cursor
        };
        assert(start == place(cursor as nat, a as nat));
        offsets.push(start);
        assert(sizes.take(i + 1).drop_last() =~= sizes.take(i as int));
        cursor = start + a;
        i += 1;
    }
    assert(sizes.take(i as int) =~= sizes);
    (offsets, cursor)
}

/// The bytes a directory entry takes in a block: its record and its name.
pub open spec fn entry_len(d: Dirent) -> nat {
    12 + utf8(d.name@).len()
}

/// The bytes the entries from `a` up to `b` take.
pub open spec fn run(ds: Seq<Dirent>, a: int, b: int) -> nat
    decreases b - a,
{
    if b <= a {
        0
    } else {
        run(ds, a, b - 1) + entry_len(ds[b - 1])
    }
}

/// Where the block of entries that starts at `start` ends, its end being at least `k`:
/// after the last entry, or before the first entry that would not fit in the block.
pub open spec fn block_end(ds: Seq<Dirent>, start: int, k: int) -> int
    decreases ds.len() - k,
{
    if k >= ds.len() || run(ds, start, k + 1) > 4096 {
        k
    } else {
        block_end(ds, start, k + 1)
    }
}

/// A block ends no earlier than where the search for its end starts.
pub proof fn lemma_block_end_ge(ds: Seq<Dirent>, start: int, k: int)
    ensures
        block_end(ds, start, k) >= k,
        k <= ds.len() ==> block_end(ds, start, k) <= ds.len(),
    decreases ds.len() - k,
{
    if !(k >= ds.len() || run(ds, start, k + 1) > 4096) {
        lemma_block_end_ge(ds, start, k + 1);
    }
}

/// The entries from `start` on, packed into blocks: each block holds the entries from its
/// start up to its end, and holds as many as fit, and at least one.
pub open spec fn pack_from(ds: Seq<Dirent>, start: int) -> Seq<(int, int)>
    decreases ds.len() - start,
{
    if start < 0 || start >= ds.len() {
        Seq::empty()
    } else {
        proof {
            lemma_block_end_ge(ds, start, start + 1);
        }
        let e = block_end(ds, start, start + 1);
        seq![(start, e)] + pack_from(ds, e)
    }
}

/// The ranges as pairs of integers.
pub open spec fn ranges(v: Seq<(usize, usize)>) -> Seq<(int, int)> {
    v.map_values(|p: (usize, usize)| (p.0 as int, p.1 as int))
}

/// Packs the entries of a directory into as few blocks as the order allows: each
/// block, given as the range of entries it holds, ends where the next entry would not fit.
pub fn pack_dirent(ds: &Vec<Dirent>) -> (blocks: Vec<(usize, usize)>)
    ensures
        ranges(blocks@) == pack_from(ds@, 0),
{
    let mut blocks: Vec<(usize, usize)> = Vec::new();
    let mut start: usize = 0;
    let mut running: u128 = 0;
    let mut i: usize = 0;
    assert(ranges(blocks@) + pack_from(ds@, 0) =~= pack_from(ds@, 0));
    while i < ds.len()
        invariant
            start <= i <= ds@.len(),
            start == i || i < ds@.len(),
            start == i || block_end(ds@, start as int, start + 1) == block_end(ds@, start as int, i + 1),
            running == run(ds@, start as int, i as int),
            running <= 4096,
            ranges(blocks@) + pack_from(ds@, start as int) == pack_from(ds@, 0),
        decreases ds@.len() - i,
    {
        let n = utf8_len(ds[i].name.as_str());
        running = running + 12 + n;
        assert(running == run(ds@, start as int, i + 1));
        let is_full = if i + 1 == ds.len() {
            true
        } else {
            let m = utf8_len(ds[i + 1].name.as_str());
            running + 12 + m > 4096
        };
        assert(is_full == (i + 1 >= ds@.len() || run(ds@, start as int, i + 2) > 4096));
        if is_full {
            assert(block_end(ds@, start as int, start + 1) == i + 1);
            let ghost before = blocks@;
            blocks.push((start, i + 1));
            assert(ranges(blocks@) =~= ranges(before).push((start as int, i + 1)));
            assert(pack_from(ds@, start as int) == seq![(start as int, i + 1)] + pack_from(ds@, i + 1));
            assert(ranges(blocks@) + pack_from(ds@, i + 1) =~= ranges(before) + pack_from(ds@, start as int));
            start = i + 1;
            running = 0;
        }
        i += 1;
    }
    assert(ranges(blocks@) + pack_from(ds@, start as int) =~= ranges(blocks@));
    blocks
}

/// The names as sequences of characters.
pub open spec fn texts(v: Seq<String>) -> Seq<Seq<char>> {
    v.map_values(|s: String| s@)
}

/// The stored-content paths of the regular files, sorted, each once.
pub fn redirect_paths(inodes: &Vec<Inode>) -> (v: Vec<String>)
    ensures
        strictly_sorted(texts(v@)),
        texts(v@).to_set() == cas_paths(inodes@),
{
    let mut set = NameSet::new();
    let mut i: usize = 0;
    assert(set.spec_set() =~= cas_paths(inodes@.take(0)));
    while i < inodes.len()
        invariant
            i <= inodes@.len(),
            set.spec_set() == cas_paths(inodes@.take(i as int)),
        decreases inodes@.len() - i,
    {
        let ghost before = set.spec_set();
        let ghost t = inodes@.take(i + 1);
        assert(forall|k: int| 0 <= k < i ==> #[trigger] t[k] == inodes@.take(i as int)[k]);
        if let InodeKind::Reg { cas_path } = &inodes[i].kind {
            set.insert(cas_path.clone());
            assert(set.spec_set() =~= cas_paths(t)) by {
                assert(reg_path(t[i as int].kind) == Some(cas_path@));
                assert forall|p: Seq<char>| cas_paths(t).contains(p) implies #[trigger] set.spec_set().contains(p) by {
                    let k = choose|k: int| 0 <= k < t.len() && reg_path(#[trigger] t[k].kind) == Some(p);
                    if k < i {
                        assert(inodes@.take(i as int)[k] == t[k]);
                    }
                }
            }
        } else {
            assert(set.spec_set() =~= cas_paths(t)) by {
                assert forall|p: Seq<char>| cas_paths(t).contains(p) implies #[trigger] set.spec_set().contains(p) by {
                    let k = choose|k: int| 0 <= k < t.len() && reg_path(#[trigger] t[k].kind) == Some(p);
                    assert(k != i);
                    assert(inodes@.take(i as int)[k] == t[k]);
                }
            }
        }
        i += 1;
    }
    assert(inodes@.take(i as int) =~= inodes@);
    let v = set.to_vec();
    v
}

/// Where no regular file lacks a size, every stored-content path has one.
pub proof fn lemma_sizes_given(s: Seq<Inode>, sizes: Seq<(String, u64)>, p: Seq<char>)
    requires
        first_missing(s, sizes) is None,
        cas_paths(s).contains(p),
    ensures
        size_of(sizes, p) is Some,
    decreases s.len(),
{
    let k = choose|k: int| 0 <= k < s.len() && reg_path(#[trigger] s[k].kind) == Some(p);
    if k < s.len() - 1 {
        assert(s.drop_last()[k] == s[k]);
        assert(cas_paths(s.drop_last()).contains(p));
        lemma_sizes_given(s.drop_last(), sizes, p);
    }
}

/// The size of the shared attribute area: the metacopy entry, then a redirect entry
/// for each path.
pub open spec fn xattr_area(paths: Seq<Seq<char>>) -> nat
    decreases paths.len(),
{
    if paths.len() == 0 {
        spec_xattr_entry_size(16, 0)
    } else {
        xattr_area(paths.drop_last()) + spec_xattr_entry_size(16, utf8(paths.last()).len())
    }
}

/// The area of a prefix of the paths is no larger than the whole one.
pub proof fn lemma_xattr_area_prefix(x: Seq<Seq<char>>, k: int)
    requires
        0 <= k <= x.len(),
    ensures
        xattr_area(x.take(k)) <= xattr_area(x),
    decreases x.len(),
{
    if k == x.len() {
        assert(x.take(k) =~= x);
    } else {
        assert(x.drop_last().take(k) =~= x.take(k));
        lemma_xattr_area_prefix(x.drop_last(), k);
    }
}

/// The offset, in units of 4 bytes, of each path's redirect entry in the shared
/// attribute area, and the size of the area; none where the area is larger than 128 bits
/// can count.
pub fn redirect_offsets(paths: &Vec<String>) -> (r: Option<(Vec<u128>, u128)>)
    ensures
        match r {
            Some((offs, end)) => offs@.len() == paths@.len() && end == xattr_area(texts(paths@))
                && forall|k: int| 0 <= k < paths@.len() ==> #[trigger] offs@[k] == xattr_area(
                texts(paths@).take(k)) / 4,
            None => xattr_area(texts(paths@)) > u128::MAX,
        },
{
    let ghost ps = texts(paths@);
    let mut offs: Vec<u128> = Vec::new();
    let mut area: u128 = 20;
    let mut i: usize = 0;
    assert(ps.take(0) =~= Seq::<Seq<char>>::empty());
    while i < paths.len()
        invariant
            i <= paths@.len(),
            ps == texts(paths@),
            area == xattr_area(ps.take(i as int)),
            offs@.len() == i,
            forall|k: int| 0 <= k < i ==> #[trigger] offs@[k] == xattr_area(ps.take(k)) / 4,
        decreases paths@.len() - i,
    {
        offs.push(area / 4);
        let n = utf8_len(paths[i].as_str());
        assert(ps.take(i + 1).drop_last() =~= ps.take(i as int));
        assert(ps[i as int] == paths@[i as int]@);
        let size = 4 + 16 + n;
        let entry = if size % 4 == 0 {
            size
        } else {
            size + (4 - size % 4)
        };
        assert(entry == spec_xattr_entry_size(16, utf8(ps[i as int]).len()));
        match area.checked_add(entry) {
            Some(a) => {
                area = a;
            },
            None => {
                proof {
                    lemma_xattr_area_prefix(ps, i + 1);
                }
                return None;
            },
        }
        i += 1;
    }
    assert(ps.take(i as int) =~= ps);
    Some((offs, area))
}

/// The stored-content paths of the regular files, sorted, each once.
pub open spec fn sorted_paths(s: Seq<Inode>) -> Seq<Seq<char>> {
    choose|q: Seq<Seq<char>>| strictly_sorted(q) && q.to_set() == cas_paths(s)
}

/// The number of blocks that hold `n` bytes.
pub open spec fn blocks_for(n: nat) -> nat {
    (n + 4095) / 4096
}

/// The first block of the metadata area: after the superblock and the shared
/// attribute area.
pub open spec fn spec_meta_blkaddr(s: Seq<Inode>) -> nat {
    1 + blocks_for(xattr_area(sorted_paths(s)))
}

/// The number of blocks of the metadata area.
pub open spec fn spec_meta_blocks(s: Seq<Inode>) -> nat {
    blocks_for(meta_end(aligned_sizes(s)))
}

/// The number of blocks of directory entries of the inodes before the `i`th.
pub open spec fn dir_blocks_before(s: Seq<Inode>, i: int) -> nat
    decreases i,
{
    if i <= 0 {
        0
    } else {
        dir_blocks_before(s, i - 1) + pack_from(entries(s[i - 1].kind), 0).len()
    }
}

/// The number of blocks of the image: superblock, shared attributes, metadata, then
/// the directory entries of each directory in turn.
pub open spec fn spec_total_blocks(s: Seq<Inode>) -> nat {
    spec_meta_blkaddr(s) + spec_meta_blocks(s) + dir_blocks_before(s, s.len() as int)
}

/// Whether the image needs more blocks, or a larger attribute area, than its 32-bit
/// fields can count.
pub open spec fn too_large(s: Seq<Inode>) -> bool {
    spec_total_blocks(s) > u32::MAX || xattr_area(sorted_paths(s)) / 4 > u32::MAX
}

/// The blocks of directory entries grow with the inodes.
pub proof fn lemma_dir_blocks_before_mono(s: Seq<Inode>, i: int, j: int)
    requires
        i <= j,
    ensures
        dir_blocks_before(s, i) <= dir_blocks_before(s, j),
    decreases j - i,
{
    if i < j {
        lemma_dir_blocks_before_mono(s, i, j - 1);
    }
}

/// The first block of the `i`th inode's directory entries, where those of the first
/// directory start at `base`; 0 for an inode that is no directory.
pub open spec fn dir_addr(s: Seq<Inode>, base: nat, i: int) -> nat {
    if s[i].kind is Dir {
        base + dir_blocks_before(s, i)
    } else {
        0
    }
}

/// The directory entry blocks of each inode, and the first block of each directory's
/// entries counting from `base`; with the block after the last; none where that is past
/// what 32 bits count.
pub fn dir_layout(inodes: &Vec<Inode>, base: u32) -> (r: Option<(Vec<Vec<(usize, usize)>>, Vec<u32>, u32)>)
    ensures
        match r {
            Some((blocks, addrs, end)) => {
                &&& blocks@.len() == inodes@.len()
                &&& addrs@.len() == inodes@.len()
                &&& end == base + dir_blocks_before(inodes@, inodes@.len() as int)
                &&& forall|i: int|
                    0 <= i < inodes@.len() ==> ranges(#[trigger] blocks@[i]@) =~= pack_from(
                        entries(inodes@[i].kind),
                        0,
                    )
                &&& forall|i: int|
                    0 <= i < inodes@.len() ==> #[trigger] addrs@[i] == dir_addr(inodes@, base as nat, i)
            },
            None => base + dir_blocks_before(inodes@, inodes@.len() as int) > u32::MAX,
        },
{
    let mut blocks: Vec<Vec<(usize, usize)>> = Vec::new();
    let mut addrs: Vec<u32> = Vec::new();
    let mut cursor: u32 = base;
    let mut i: usize = 0;
    while i < inodes.len()
        invariant
            i <= inodes@.len(),
            cursor == base + dir_blocks_before(inodes@, i as int),
            blocks@.len() == i,
            addrs@.len() == i,
            forall|k: int|
                0 <= k < i ==> ranges(#[trigger] blocks@[k]@) =~= pack_from(entries(inodes@[k].kind), 0),
            forall|k: int| 0 <= k < i ==> #[trigger] addrs@[k] == dir_addr(inodes@, base as nat, k),
        decreases inodes@.len() - i,
    {
        let ghost ob = blocks@;
        let ghost oa = addrs@;
        let ghost oc = cursor;
        match &inodes[i].kind {
            InodeKind::Dir { children, .. } => {
                let packed = pack_dirent(children);
                assert(ranges(packed@).len() == packed@.len());
                if packed.len() as u64 > (u32::MAX - cursor) as u64 {
                    proof {
                        lemma_dir_blocks_before_mono(inodes@, i + 1, inodes@.len() as int);
                    }
                    return None;
                }
                addrs.push(cursor);
                cursor = cursor + packed.len() as u32;
                blocks.push(packed);
            },
            _ => {
                let empty: Vec<(usize, usize)> = Vec::new();
                assert(ranges(empty@) =~= pack_from(entries(inodes@[i as int].kind), 0));
                addrs.push(0);
                blocks.push(empty);
            },
        }
        proof {
            assert forall|k: int| 0 <= k < i + 1 implies ranges(#[trigger] blocks@[k]@) =~= pack_from(
                entries(inodes@[k].kind),
                0,
            ) by {
                if k < i {
                    assert(blocks@[k] == ob[k]);
                }
            }
            assert forall|k: int| 0 <= k < i + 1 implies #[trigger] addrs@[k] == dir_addr(inodes@, base as nat, k) by {
                if k < i {
                    assert(addrs@[k] == oa[k]);
                }
            }
        }
        i += 1;
    }
    Some((blocks, addrs, cursor))
}

/// Where each part of an image goes.
pub struct Layout {
    /// The number of each inode in the image: its offset in the metadata area, in slots.
    pub nids: Vec<u64>,
    /// The stored-content paths, sorted, each once.
    pub paths: Vec<String>,
    /// The offset of each path's redirect entry in the shared attribute area, in units
    /// of 4 bytes.
    pub offsets: Vec<u32>,
    /// The size of each path's stored content.
    pub sizes: Vec<u64>,
    /// The metadata area's offset of each inode.
    pub inode_offsets: Vec<u128>,
    /// Each inode's directory entries packed into blocks, as ranges of entries; none for
    /// an inode that is no directory.
    pub dir_blocks: Vec<Vec<(usize, usize)>>,
    /// The first block of each directory's entries; 0 for an inode that is no directory.
    pub dir_blkaddr: Vec<u32>,
    /// The first block of the shared attribute area.
    pub xattr_blkaddr: u32,
    /// The first block of the metadata area.
    pub meta_blkaddr: u32,
    /// The number of blocks of the metadata area.
    pub meta_blocks: u32,
    /// The number of blocks of the image.
    pub total_blocks: u32,
}

/// Whether `l` places the parts of the image of the inodes `s`, with the stored-content
/// sizes `sizes`.
pub open spec fn layout_of(s: Seq<Inode>, sizes: Seq<(String, u64)>, l: Layout) -> bool {
    &&& l.nids@.len() == s.len()
    &&& l.inode_offsets@.len() == s.len()
    &&& forall|i: int| 0 <= i < s.len() ==> #[trigger] l.inode_offsets@[i] == inode_offset(s, i)
    &&& forall|i: int| 0 <= i < s.len() ==> #[trigger] l.nids@[i] == inode_offset(s, i) / 32
    &&& texts(l.paths@) == sorted_paths(s)
    &&& strictly_sorted(texts(l.paths@))
    &&& texts(l.paths@).to_set() == cas_paths(s)
    &&& l.offsets@.len() == l.paths@.len()
    &&& l.sizes@.len() == l.paths@.len()
    &&& forall|k: int| 0 <= k < l.paths@.len() ==> #[trigger] l.offsets@[k] == xattr_area(
        sorted_paths(s).take(k),
    ) / 4
    &&& forall|k: int| 0 <= k < l.paths@.len() ==> size_of(sizes, l.paths@[k]@) == Some(
        #[trigger] l.sizes@[k],
    )
    &&& l.dir_blocks@.len() == s.len()
    &&& l.dir_blkaddr@.len() == s.len()
    &&& forall|i: int| 0 <= i < s.len() ==> ranges(#[trigger] l.dir_blocks@[i]@) =~= pack_from(entries(s[i].kind), 0)
    &&& forall|i: int| 0 <= i < s.len() ==> #[trigger] l.dir_blkaddr@[i] == dir_addr(
        s,
        spec_meta_blkaddr(s) + spec_meta_blocks(s),
        i,
    )
    &&& l.xattr_blkaddr == 1
    &&& l.meta_blkaddr == spec_meta_blkaddr(s)
    &&& l.meta_blocks == spec_meta_blocks(s)
    &&& l.total_blocks == spec_total_blocks(s)
}

/// An inode ends within the metadata area.
pub proof fn lemma_inode_within(s: Seq<Inode>, i: int)
    requires
        0 <= i < s.len(),
    ensures
        inode_offset(s, i) + aligned_sizes(s)[i] <= meta_end(aligned_sizes(s)),
{
    let x = aligned_sizes(s);
    assert(x.take(i + 1).drop_last() =~= x.take(i));
    lemma_meta_end_prefix(x, i + 1);
}

/// Whether the image of the inodes `s` can be laid out with the stored-content sizes
/// `sizes`: every regular file has a size, every inode and every directory entry fits in a
/// block, and the image is no larger than its fields can describe.
pub open spec fn layout_ok(s: Seq<Inode>, sizes: Seq<(String, u64)>) -> bool {
    &&& first_missing(s, sizes) is None
    &&& inodes_fit(s)
    &&& names_fit(s)
    &&& !too_large(s)
}

/// Whether `e` says why the image of the inodes `s` cannot be laid out: the first
/// regular file without a size, else an inode that does not fit in a block, else a
/// directory entry that does not, else an image too large.
pub open spec fn layout_error(s: Seq<Inode>, sizes: Seq<(String, u64)>, e: Error) -> bool {
    match e {
        Error::MissingCasSize(p) => first_missing(s, sizes) == Some(p@),
        Error::InodeTooLarge => first_missing(s, sizes) is None && !inodes_fit(s),
        Error::NameTooLong => first_missing(s, sizes) is None && inodes_fit(s) && !names_fit(s),
        Error::TooLarge => first_missing(s, sizes) is None && inodes_fit(s) && names_fit(s) && too_large(s),
    }
}

/// Places the parts of the image of the inodes, with the sizes of the stored contents;
/// or says why no image can be made.
pub fn compute_layout(inodes: &Vec<Inode>, cas_sizes: &Vec<(String, u64)>) -> (r: Result<Layout, Error>)
    ensures
        match r {
            Ok(l) => layout_ok(inodes@, cas_sizes@) && layout_of(inodes@, cas_sizes@, l),
            Err(e) => layout_error(inodes@, cas_sizes@, e),
        },
{
    let ghost s = inodes@;
    if let Some(p) = missing_size(inodes, cas_sizes) {
        return Err(Error::MissingCasSize(p));
    }
    if !all_inodes_fit(inodes) {
        return Err(Error::InodeTooLarge);
    }
    if !all_names_fit(inodes) {
        return Err(Error::NameTooLong);
    }
    let (inode_offsets, end) = placements(inodes);
    assert(inodes@.len() == inodes.len());
    assert(end <= 8192 * (usize::MAX as int));
    let paths = redirect_paths(inodes);
    proof {
        let q = choose|q: Seq<Seq<char>>| strictly_sorted(q) && q.to_set() == cas_paths(s);
        assert(strictly_sorted(texts(paths@)) && texts(paths@).to_set() == cas_paths(s));
        crate::names::lemma_strictly_sorted_unique(q, texts(paths@));
        assert(texts(paths@) == sorted_paths(s));
    }
    let (offs, area) = match redirect_offsets(&paths) {
        Some(x) => x,
        None => {
            return Err(Error::TooLarge);
        },
    };
    if area / 4 > u32::MAX as u128 {
        return Err(Error::TooLarge);
    }
    let xattr_blocks = (area + 4095) / 4096;
    let meta_blocks = (end + 4095) / 4096;
    if 1 + xattr_blocks + meta_blocks > u32::MAX as u128 {
        assert(spec_total_blocks(s) > u32::MAX);
        return Err(Error::TooLarge);
    }
    let meta_blkaddr = (1 + xattr_blocks) as u32;
    let meta_blocks = meta_blocks as u32;
    let (dir_blocks, dir_blkaddr, total_blocks) = match dir_layout(inodes, meta_blkaddr + meta_blocks) {
        Some(x) => x,
        None => {
            return Err(Error::TooLarge);
        },
    };
    let mut nids: Vec<u64> = Vec::new();
    let mut i: usize = 0;
    while i < inode_offsets.len()
        invariant
            i <= inode_offsets@.len(),
            inode_offsets@.len() == s.len(),
            s == inodes@,
            end == meta_end(aligned_sizes(s)),
            (end + 4095) / 4096 <= u32::MAX,
            forall|k: int| 0 <= k < s.len() ==> #[trigger] inode_offsets@[k] == inode_offset(s, k),
            nids@.len() == i,
            forall|k: int| 0 <= k < i ==> #[trigger] nids@[k] == inode_offset(s, k) / 32,
        decreases inode_offsets@.len() - i,
    {
        proof {
            lemma_inode_within(s, i as int);
        }
        nids.push((inode_offsets[i] / 32) as u64);
        i += 1;
    }
    let mut offsets: Vec<u32> = Vec::new();
    let mut sizes: Vec<u64> = Vec::new();
    let mut k: usize = 0;
    while k < paths.len()
        invariant
            k <= paths@.len(),
            offs@.len() == paths@.len(),
            s == inodes@,
            texts(paths@) == sorted_paths(s),
            texts(paths@).to_set() == cas_paths(s),
            first_missing(s, cas_sizes@) is None,
            area == xattr_area(texts(paths@)),
            area / 4 <= u32::MAX,
            forall|j: int| 0 <= j < paths@.len() ==> #[trigger] offs@[j] == xattr_area(
                texts(paths@).take(j),
            ) / 4,
            offsets@.len() == k,
            sizes@.len() == k,
            forall|j: int| 0 <= j < k ==> #[trigger] offsets@[j] == xattr_area(sorted_paths(s).take(j)) / 4,
            forall|j: int| 0 <= j < k ==> size_of(cas_sizes@, paths@[j]@) == Some(#[trigger] sizes@[j]),
        decreases paths@.len() - k,
    {
        proof {
            lemma_xattr_area_prefix(texts(paths@), k as int);
            assert(texts(paths@)[k as int] == paths@[k as int]@);
            assert(texts(paths@).to_set().contains(paths@[k as int]@));
            lemma_sizes_given(s, cas_sizes@, paths@[k as int]@);
        }
        offsets.push(offs[k] as u32);
        let size = match find_size(cas_sizes, paths[k].as_str()) {
            Some(n) => n,
            None => 0,
        };
        sizes.push(size);
        k += 1;
    }
    let l = Layout {
        nids,
        paths,
        offsets,
        sizes,
        inode_offsets,
        dir_blocks,
        dir_blkaddr,
        xattr_blkaddr: 1,
        meta_blkaddr,
        meta_blocks,
        total_blocks,
    };
    assert(l.meta_blkaddr == spec_meta_blkaddr(s));
    assert(l.meta_blocks == spec_meta_blocks(s));
    assert forall|i: int| 0 <= i < s.len() implies #[trigger] l.dir_blkaddr@[i] == dir_addr(
        s,
        spec_meta_blkaddr(s) + spec_meta_blocks(s),
        i,
    ) by {
    }
    Ok(l)
}

} // verus!
