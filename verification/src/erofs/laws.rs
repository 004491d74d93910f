//! What holds of every image: it fills exactly the blocks its superblock counts, and
//! each part starts where the layout says.

use vstd::prelude::*;
use crate::erofs::bytes::{padding, utf8};
use crate::erofs::image::{
    dir_area, dir_blocks_bytes, dirent_block, inode_bytes, lemma_inode_bytes_len, lemma_run_names,
    meta_area, meta_blocks, metacopy_name, records, redirect_entries,
    shared_xattrs, spec_image, superblock_block, writable, xattr_entry,
};
use crate::erofs::layout::{Dirent, Inode};
use crate::erofs::place::{
    aligned_sizes, blocks_for, dir_blocks_before, entries, entry_len, inode_offset, meta_end, names_fit,
    pack_from, ranges, run, sorted_paths, texts, xattr_area, Layout,
};

verus! {

/// Bytes padded to whole blocks fill that many blocks.
pub proof fn lemma_block_padding(x: nat)
    ensures
        x + padding(x, 4096) == blocks_for(x) * 4096,
{
}

/// The shared attribute area holds the entries that the layout counts, in whole blocks.
pub proof fn lemma_redirect_entries_len(ns: u8, paths: Seq<Seq<char>>)
    ensures
        xattr_entry(ns, metacopy_name(), Seq::empty()).len() + redirect_entries(ns, paths).len()
            == xattr_area(paths),
    decreases paths.len(),
{
    if paths.len() > 0 {
        lemma_redirect_entries_len(ns, paths.drop_last());
    }
}

/// The metadata area ends where the placement of its inodes ends.
pub proof fn lemma_meta_area_len(s: Seq<Inode>, l: Layout, n: int)
    requires
        0 <= n <= s.len(),
    ensures
        meta_area(s, l, n).len() == meta_end(aligned_sizes(s).take(n)),
    decreases n,
{
    if n > 0 {
        lemma_meta_area_len(s, l, n - 1);
        lemma_inode_bytes_len(s, l, n - 1);
        assert(aligned_sizes(s).take(n).drop_last() =~= aligned_sizes(s).take(n - 1));
    } else {
        assert(aligned_sizes(s).take(0) =~= Seq::<nat>::empty());
    }
}

/// The records of a block take 12 bytes each.
proof fn lemma_records_len(ds: Seq<Dirent>, a: int, k: int, b: int, nids: Seq<u64>)
    requires
        a <= k,
    ensures
        records(ds, a, k, b, nids).len() == 12 * (k - a),
    decreases k - a,
{
    if k > a {
        lemma_records_len(ds, a, k - 1, b, nids);
    }
}

/// A block of entries that fit takes exactly one block.
proof fn lemma_dirent_block_len(ds: Seq<Dirent>, a: int, b: int, nids: Seq<u64>)
    requires
        a < b,
        run(ds, a, b) <= 4096,
    ensures
        dirent_block(ds, a, b, nids).len() == 4096,
{
    lemma_records_len(ds, a, b, b, nids);
    lemma_run_names(ds, a, b);
}

/// Blocks of entries that fit take one block each.
proof fn lemma_dir_blocks_bytes_len(ds: Seq<Dirent>, blocks: Seq<(usize, usize)>, nids: Seq<u64>)
    requires
        forall|j: int|
            0 <= j < blocks.len() ==> (#[trigger] blocks[j]).0 < blocks[j].1 && run(
                ds,
                blocks[j].0 as int,
                blocks[j].1 as int,
            ) <= 4096,
    ensures
        dir_blocks_bytes(ds, blocks, nids).len() == 4096 * blocks.len(),
    decreases blocks.len(),
{
    if blocks.len() > 0 {
        let k = blocks.len() - 1;
        assert(blocks[k].0 < blocks[k].1);
        lemma_dirent_block_len(ds, blocks[k].0 as int, blocks[k].1 as int, nids);
        assert forall|j: int| 0 <= j < blocks.drop_last().len() implies (#[trigger] blocks.drop_last()[j]).0
            < blocks.drop_last()[j].1 && run(
            ds,
            blocks.drop_last()[j].0 as int,
            blocks.drop_last()[j].1 as int,
        ) <= 4096 by {
            assert(blocks.drop_last()[j] == blocks[j]);
        }
        lemma_dir_blocks_bytes_len(ds, blocks.drop_last(), nids);
    }
}

/// The packed blocks of a directory whose entries fit in a block each are blocks of
/// entries that fit.
proof fn lemma_packed_fit(ds: Seq<Dirent>, blocks: Seq<(usize, usize)>)
    requires
        ranges(blocks) =~= pack_from(ds, 0),
        forall|j: int| 0 <= j < ds.len() ==> entry_len(#[trigger] ds[j]) <= 4096,
    ensures
        forall|j: int|
            0 <= j < blocks.len() ==> (#[trigger] blocks[j]).0 < blocks[j].1 && run(
                ds,
                blocks[j].0 as int,
                blocks[j].1 as int,
            ) <= 4096,
{
    assert forall|j: int| 0 <= j < blocks.len() implies (#[trigger] blocks[j]).0 < blocks[j].1 && run(
        ds,
        blocks[j].0 as int,
        blocks[j].1 as int,
    ) <= 4096 by {
        assert(ranges(blocks)[j] == (blocks[j].0 as int, blocks[j].1 as int));
        crate::erofs::image::lemma_pack_valid(ds, 0, j);
        let a = blocks[j].0 as int;
        if blocks[j].1 as int == a + 1 {
            assert(run(ds, a, a) == 0);
            assert(entry_len(ds[a]) <= 4096);
        }
    }
}

/// The directory entry area takes one block per packed block.
proof fn lemma_dir_area_len(s: Seq<Inode>, l: Layout, n: int)
    requires
        0 <= n <= s.len(),
        l.dir_blocks@.len() == s.len(),
        forall|i: int| 0 <= i < s.len() ==> ranges(#[trigger] l.dir_blocks@[i]@) =~= pack_from(entries(s[i].kind), 0),
        names_fit(s),
    ensures
        dir_area(s, l, n).len() == 4096 * dir_blocks_before(s, n),
    decreases n,
{
    if n > 0 {
        lemma_dir_area_len(s, l, n - 1);
        let ds = entries(s[n - 1].kind);
        let blocks = l.dir_blocks@[n - 1]@;
        assert forall|j: int| 0 <= j < ds.len() implies entry_len(#[trigger] ds[j]) <= 4096 by {
            assert(12 + utf8(entries(s[n - 1].kind)[j].name@).len() <= 4096);
        }
        lemma_packed_fit(ds, blocks);
        lemma_dir_blocks_bytes_len(ds, blocks, l.nids@);
        assert(ranges(blocks).len() == blocks.len());
    }
}

/// An image fills exactly the number of blocks that its superblock counts: the
/// superblock's block, the shared attribute blocks, the metadata blocks and the directory
/// entry blocks each take whole blocks, as the layout places them.
pub proof fn law_image_fills_its_blocks(ns: u8, s: Seq<Inode>, sizes: Seq<(String, u64)>, l: Layout)
    requires
        writable(s, sizes, l),
    ensures
        spec_image(ns, s, l).len() == 4096 * l.total_blocks,
{
    let p = texts(l.paths@);
    lemma_redirect_entries_len(ns, p);
    lemma_block_padding(xattr_area(p));
    assert(shared_xattrs(ns, p).len() == blocks_for(xattr_area(sorted_paths(s))) * 4096);
    lemma_meta_area_len(s, l, s.len() as int);
    assert(aligned_sizes(s).take(s.len() as int) =~= aligned_sizes(s));
    lemma_block_padding(meta_end(aligned_sizes(s)));
    lemma_dir_area_len(s, l, s.len() as int);
    assert(superblock_block(s.len() as u64, l.total_blocks, l.meta_blkaddr, l.xattr_blkaddr).len() == 4096);
}

/// Every inode starts on a slot boundary.
proof fn lemma_meta_end_slots(x: Seq<nat>)
    requires
        forall|j: int| 0 <= j < x.len() ==> (#[trigger] x[j]) % 32 == 0,
    ensures
        meta_end(x) % 32 == 0,
    decreases x.len(),
{
    if x.len() > 0 {
        lemma_meta_end_slots(x.drop_last());
    }
}

/// A metadata area with more inodes begins with one with fewer.
proof fn lemma_meta_area_prefix(s: Seq<Inode>, l: Layout, k: int, n: int)
    requires
        0 <= k <= n,
    ensures
        meta_area(s, l, k).len() <= meta_area(s, l, n).len(),
        meta_area(s, l, n).subrange(0, meta_area(s, l, k).len() as int) == meta_area(s, l, k),
    decreases n - k,
{
    if k < n {
        lemma_meta_area_prefix(s, l, k, n - 1);
        let m = meta_area(s, l, n - 1);
        let a = meta_area(s, l, n);
        assert(a.subrange(0, m.len() as int) =~= m);
        assert(a.subrange(0, meta_area(s, l, k).len() as int) =~= m.subrange(
            0,
            meta_area(s, l, k).len() as int,
        ));
    }
}

/// Each inode's bytes stand in the image where its number points: in the metadata area,
/// whose first block the superblock gives, at 32 bytes per number.
#[verifier::rlimit(50)]
#[verifier::spinoff_prover]
pub proof fn law_inode_at_its_nid(ns: u8, s: Seq<Inode>, sizes: Seq<(String, u64)>, l: Layout, i: int)
    requires
        writable(s, sizes, l),
        0 <= i < s.len(),
    ensures
        spec_image(ns, s, l).subrange(
            4096 * l.meta_blkaddr + 32 * l.nids@[i],
            4096 * l.meta_blkaddr + 32 * l.nids@[i] + inode_bytes(s, l, i).len(),
        ) == inode_bytes(s, l, i),
{
    let x = aligned_sizes(s);
    assert forall|j: int| 0 <= j < x.len() implies (#[trigger] x[j]) % 32 == 0 by {
        let z = crate::erofs::layout::spec_inode_size(s[j].kind);
        assert(((z + 31) / 32 * 32) % 32 == 0);
    }
    let t = x.take(i);
    assert forall|j: int| 0 <= j < t.len() implies (#[trigger] t[j]) % 32 == 0 by {
        assert(t[j] == x[j]);
    }
    lemma_meta_end_slots(t);
    assert(x[i] % 32 == 0);
    let off = inode_offset(s, i);
    assert(off % 32 == 0);
    assert(l.nids@[i] == off / 32);
    lemma_meta_area_len(s, l, i);
    lemma_meta_area_len(s, l, i + 1);
    lemma_inode_bytes_len(s, l, i);
    let b = inode_bytes(s, l, i);
    let m1 = meta_area(s, l, i + 1);
    assert(m1.subrange(off as int, (off + b.len()) as int) =~= b);
    lemma_meta_area_prefix(s, l, i + 1, s.len() as int);
    let m = meta_area(s, l, s.len() as int);
    let mb = meta_blocks(s, l);
    assert(mb.subrange(off as int, (off + b.len()) as int) =~= b) by {
        assert(mb.subrange(0, m.len() as int) =~= m);
        assert(m.subrange(0, m1.len() as int) == m1);
        assert(m1.len() == off + b.len()) by {
            assert(x.take(i + 1).drop_last() =~= t);
        }
    }
    let p = texts(l.paths@);
    lemma_redirect_entries_len(ns, p);
    lemma_block_padding(xattr_area(p));
    let sb = superblock_block(s.len() as u64, l.total_blocks, l.meta_blkaddr, l.xattr_blkaddr);
    let head = sb + shared_xattrs(ns, p);
    assert(head.len() == 4096 * l.meta_blkaddr);
    let img = spec_image(ns, s, l);
    assert(img =~= head + mb + dir_area(s, l, s.len() as int));
    assert(img.subrange((head.len() + off) as int, (head.len() + off + b.len()) as int) =~= mb.subrange(
        off as int,
        (off + b.len()) as int,
    ));
}

} // verus!
