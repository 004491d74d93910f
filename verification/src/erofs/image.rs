//! The bytes of an image: superblock, shared extended attributes, inodes and
//! directory entry blocks.

use vstd::prelude::*;
use crate::erofs::bytes::{le16, le32, le64, padding, pad_to, push_u16, push_u32, push_u64, push_utf8, push_zeros, utf8};
use crate::erofs::layout::{inodes_wf, spec_aligned_size, spec_file_type_code, Dirent, DirentFileType, Inode, InodeKind};
use crate::erofs::place::{
    block_end, cas_paths, compute_layout, dir_blocks_before, layout_error, layout_ok, lemma_block_end_ge, place, run, entries, inodes_fit, layout_of, names_fit, pack_from, ranges, reg_path,
    texts, too_large, Layout,
};
use crate::erofs::Error;
use crate::names::strictly_sorted;

verus! {

/// `n` zero bytes.
pub open spec fn zeros(n: nat) -> Seq<u8> {
    Seq::new(n, |i: int| 0u8)
}

/// What the CRC-32C (Castagnoli, the `CRC_32_ISCSI` algorithm of the crc crate) of the
/// bytes is.
pub uninterp spec fn crc32c(bytes: Seq<u8>) -> u32;

/// Calls `crc::Crc::<u32>::new(&crc::CRC_32_ISCSI).checksum`: its result is named
/// [`crc32c`] of the bytes and nothing more is claimed of it.
#[verifier::external_body]
fn crc32c_checksum(bytes: &[u8]) -> (c: u32)
    ensures
        c == crc32c(bytes@),
{
    crc::Crc::<u32>::new(&crc::CRC_32_ISCSI).checksum(bytes)
}

/// Reads `crc::CRC_32_ISCSI.xorout`, the value that the algorithm XORs into its result;
/// crc-catalog defines it as `0xffffffff`.
#[verifier::external_body]
fn crc32c_xorout() -> (x: u32)
    ensures
        x == 0xffff_ffffu32,
{
    crc::CRC_32_ISCSI.xorout
}

/// The superblock's magic number.
pub const SUPER_MAGIC_V1: u32 = 0xE0F5_E1E2;

/// The superblock: magic, checksum, the superblock checksum feature, 4096-byte blocks,
/// the number of inodes, of blocks, and the first blocks of the metadata and shared
/// attribute areas; zero elsewhere, 3072 bytes in all.
pub open spec fn superblock_fields(inos: u64, blocks: u32, meta_blkaddr: u32, xattr_blkaddr: u32, checksum: u32) -> Seq<u8> {
    le32(SUPER_MAGIC_V1) + le32(checksum) + le32(1) + seq![12u8, 0u8, 0u8, 0u8] + le64(inos) + zeros(12)
        + le32(blocks) + le32(meta_blkaddr) + le32(xattr_blkaddr) + zeros(3024)
}

/// The checksum of a superblock: the CRC-32C of it with a zero checksum field, without
/// the algorithm's final XOR.
pub open spec fn superblock_checksum(inos: u64, blocks: u32, meta_blkaddr: u32, xattr_blkaddr: u32) -> u32 {
    crc32c(superblock_fields(inos, blocks, meta_blkaddr, xattr_blkaddr, 0)) ^ 0xffff_ffffu32
}

/// The first block of an image: 1024 zero bytes, then the superblock with its checksum.
pub open spec fn superblock_block(inos: u64, blocks: u32, meta_blkaddr: u32, xattr_blkaddr: u32) -> Seq<u8> {
    zeros(1024) + superblock_fields(
        inos,
        blocks,
        meta_blkaddr,
        xattr_blkaddr,
        superblock_checksum(inos, blocks, meta_blkaddr, xattr_blkaddr),
    )
}

/// The superblock with the given checksum.
pub fn superblock(inos: u64, blocks: u32, meta_blkaddr: u32, xattr_blkaddr: u32, checksum: u32) -> (v: Vec<u8>)
    ensures
        v@ == superblock_fields(inos, blocks, meta_blkaddr, xattr_blkaddr, checksum),
{
    let mut v: Vec<u8> = Vec::new();
    push_u32(&mut v, SUPER_MAGIC_V1);
    push_u32(&mut v, checksum);
    push_u32(&mut v, 1);
    v.push(12);
    v.push(0);
    v.push(0);
    v.push(0);
    push_u64(&mut v, inos);
    push_zeros(&mut v, 12);
    push_u32(&mut v, blocks);
    push_u32(&mut v, meta_blkaddr);
    push_u32(&mut v, xattr_blkaddr);
    push_zeros(&mut v, 3024);
    assert(v@ =~= superblock_fields(inos, blocks, meta_blkaddr, xattr_blkaddr, checksum));
    v
}

/// Appends the first block of an image.
pub fn write_superblock(out: &mut Vec<u8>, inos: u64, blocks: u32, meta_blkaddr: u32, xattr_blkaddr: u32)
    ensures
        final(out)@ == old(out)@ + superblock_block(inos, blocks, meta_blkaddr, xattr_blkaddr),
{
    let unsummed = superblock(inos, blocks, meta_blkaddr, xattr_blkaddr, 0);
    let checksum = crc32c_checksum(unsummed.as_slice()) ^ crc32c_xorout();
    let sb = superblock(inos, blocks, meta_blkaddr, xattr_blkaddr, checksum);
    push_zeros(out, 1024);
    let mut k: usize = 0;
    let ghost start = out@;
    while k < sb.len()
        invariant
            k <= sb@.len(),
            out@ == start + sb@.take(k as int),
        decreases sb@.len() - k,
    {
        out.push(sb[k]);
        k += 1;
        assert(out@ =~= start + sb@.take(k as int));
    }
    assert(sb@.take(k as int) =~= sb@);
    assert(out@ =~= old(out)@ + superblock_block(inos, blocks, meta_blkaddr, xattr_blkaddr));
}

/// Appends `bytes` to `out`.
pub fn push_bytes(out: &mut Vec<u8>, bytes: &Vec<u8>)
    ensures
        final(out)@ == old(out)@ + bytes@,
{
    let mut k: usize = 0;
    while k < bytes.len()
        invariant
            k <= bytes@.len(),
            out@ == old(out)@ + bytes@.take(k as int),
        decreases bytes@.len() - k,
    {
        out.push(bytes[k]);
        k += 1;
        assert(out@ =~= old(out)@ + bytes@.take(k as int));
    }
    assert(bytes@.take(k as int) =~= bytes@);
}

/// The name suffix of the attribute that marks a file as metadata only.
pub open spec fn metacopy_name() -> Seq<u8> {
    seq![111u8, 118, 101, 114, 108, 97, 121, 46, 109, 101, 116, 97, 99, 111, 112, 121]
}

/// The name suffix of the attribute that redirects a file to its stored content.
pub open spec fn redirect_name() -> Seq<u8> {
    seq![111u8, 118, 101, 114, 108, 97, 121, 46, 114, 101, 100, 105, 114, 101, 99, 116]
}

/// `overlay.metacopy`, or `overlay.redirect`, in ASCII.
fn overlay_name(redirect: bool) -> (v: Vec<u8>)
    ensures
        v@ == if redirect {
            redirect_name()
        } else {
            metacopy_name()
        },
{
    let v = if redirect {
        vec![111u8, 118, 101, 114, 108, 97, 121, 46, 114, 101, 100, 105, 114, 101, 99, 116]
    } else {
        vec![111u8, 118, 101, 114, 108, 97, 121, 46, 109, 101, 116, 97, 99, 111, 112, 121]
    };
    assert(v@ =~= if redirect {
        redirect_name()
    } else {
        metacopy_name()
    });
    v
}

/// An extended attribute entry: the suffix's length, the namespace, the value's length,
/// the suffix and the value, padded to 4 bytes.
pub open spec fn xattr_entry(ns: u8, suffix: Seq<u8>, value: Seq<u8>) -> Seq<u8> {
    let body = seq![suffix.len() as u8, ns] + le16(value.len() as u16) + suffix + value;
    body + zeros(padding(body.len(), 4))
}

/// Appends an extended attribute entry.
pub fn write_xattr_entry(out: &mut Vec<u8>, ns: u8, suffix: &Vec<u8>, value: &Vec<u8>)
    ensures
        final(out)@ == old(out)@ + xattr_entry(ns, suffix@, value@),
{
    let start = out.len();
    out.push(suffix.len() as u8);
    out.push(ns);
    push_u16(out, value.len() as u16);
    push_bytes(out, suffix);
    push_bytes(out, value);
    let ghost body = seq![suffix@.len() as u8, ns] + le16(value@.len() as u16) + suffix@ + value@;
    assert(out@ =~= old(out)@ + body);
    pad_to(out, start, 4);
    assert(out@ =~= old(out)@ + xattr_entry(ns, suffix@, value@));
}

/// The redirect entries of the paths, one after another.
pub open spec fn redirect_entries(ns: u8, paths: Seq<Seq<char>>) -> Seq<u8>
    decreases paths.len(),
{
    if paths.len() == 0 {
        Seq::empty()
    } else {
        redirect_entries(ns, paths.drop_last()) + xattr_entry(ns, redirect_name(), utf8(paths.last()))
    }
}

/// The shared attribute area: the metacopy entry, then a redirect entry for each path,
/// padded to whole blocks.
pub open spec fn shared_xattrs(ns: u8, paths: Seq<Seq<char>>) -> Seq<u8> {
    let body = xattr_entry(ns, metacopy_name(), Seq::empty()) + redirect_entries(ns, paths);
    body + zeros(padding(body.len(), 4096))
}

/// Appends the shared attribute area.
pub fn write_shared_xattrs(out: &mut Vec<u8>, ns: u8, paths: &Vec<String>)
    ensures
        final(out)@ == old(out)@ + shared_xattrs(ns, crate::erofs::place::texts(paths@)),
{
    let ghost ps = crate::erofs::place::texts(paths@);
    let start = out.len();
    let metacopy = overlay_name(false);
    let redirect = overlay_name(true);
    let empty: Vec<u8> = Vec::new();
    write_xattr_entry(out, ns, &metacopy, &empty);
    let ghost head = out@;
    let mut i: usize = 0;
    assert(ps.take(0) =~= Seq::<Seq<char>>::empty());
    assert(out@ =~= head + redirect_entries(ns, ps.take(0)));
    while i < paths.len()
        invariant
            i <= paths@.len(),
            ps == crate::erofs::place::texts(paths@),
            redirect@ == redirect_name(),
            out@ == head + redirect_entries(ns, ps.take(i as int)),
        decreases paths@.len() - i,
    {
        let mut value: Vec<u8> = Vec::new();
        push_utf8(&mut value, paths[i].as_str());
        write_xattr_entry(out, ns, &redirect, &value);
        assert(ps.take(i + 1).drop_last() =~= ps.take(i as int));
        assert(ps[i as int] == paths@[i as int]@);
        assert(value@ =~= utf8(ps[i as int]));
        i += 1;
        assert(out@ =~= head + redirect_entries(ns, ps.take(i as int)));
    }
    assert(ps.take(i as int) =~= ps);
    assert(empty@ =~= Seq::<u8>::empty());
    pad_to(out, start, 4096);
    assert(out@ =~= old(out)@ + shared_xattrs(ns, ps));
}

/// The index of a stored-content path among those of the layout.
pub open spec fn path_index(l: Layout, p: Seq<char>) -> int {
    choose|k: int| 0 <= k < l.paths@.len() && l.paths@[k]@ == p
}

/// The fields of an extended (64-byte) inode.
pub open spec fn inode_fields(
    format: u16,
    xattr_icount: u16,
    mode: u16,
    size: u64,
    startblk: u32,
    ino: u32,
    uid: u32,
    gid: u32,
    nlink: u32,
) -> Seq<u8> {
    le16(format) + le16(xattr_icount) + le16(mode) + le16(0) + le64(size) + le32(startblk) + le32(ino)
        + le32(uid) + le32(gid) + le64(0) + le32(0) + le32(nlink) + zeros(16)
}

/// The `i`th inode and what it holds inline: a directory's entries are in blocks of
/// their own; a regular file shares the metacopy attribute and its content's redirect
/// attribute, and takes its size from the content; a symlink holds its source inline.
pub open spec fn inode_body(s: Seq<Inode>, l: Layout, i: int) -> Seq<u8> {
    let n = s[i];
    match n.kind {
        InodeKind::Dir { num_hardlinks, .. } => inode_fields(
            1,
            0,
            n.mode,
            (l.dir_blocks@[i]@.len() * 4096) as u64,
            l.dir_blkaddr@[i],
            n.ino as u32,
            n.uid,
            n.gid,
            num_hardlinks,
        ),
        InodeKind::Reg { cas_path } => {
            let k = path_index(l, cas_path@);
            inode_fields(1, 3, n.mode, l.sizes@[k], 0, n.ino as u32, n.uid, n.gid, 1) + le32(0) + seq![2u8]
                + zeros(7) + le32(0) + le32(l.offsets@[k])
        },
        InodeKind::Symlink { source } => inode_fields(
            5,
            0,
            n.mode,
            utf8(source@).len() as u64,
            0,
            n.ino as u32,
            n.uid,
            n.gid,
            1,
        ) + utf8(source@),
    }
}

/// The `i`th inode, padded to whole slots.
pub open spec fn inode_bytes(s: Seq<Inode>, l: Layout, i: int) -> Seq<u8> {
    let b = inode_body(s, l, i);
    b + zeros(padding(b.len(), 32))
}

/// Whether the image of `s` can be written with layout `l`.
pub open spec fn writable(s: Seq<Inode>, sizes: Seq<(String, u64)>, l: Layout) -> bool {
    &&& layout_of(s, sizes, l)
    &&& inodes_fit(s)
    &&& names_fit(s)
    &&& !too_large(s)
}

/// Where the layout's paths hold `p`, its index there.
fn find_path(l: &Layout, p: &str) -> (k: usize)
    requires
        exists|j: int| 0 <= j < l.paths@.len() && l.paths@[j]@ == p@,
        strictly_sorted(texts(l.paths@)),
    ensures
        k == path_index(*l, p@),
        k < l.paths@.len(),
{
    let mut k: usize = 0;
    while k < l.paths.len()
        invariant
            k <= l.paths@.len(),
            forall|j: int| 0 <= j < k ==> l.paths@[j]@ != p@,
            strictly_sorted(texts(l.paths@)),
            exists|j: int| 0 <= j < l.paths@.len() && l.paths@[j]@ == p@,
        decreases l.paths@.len() - k,
    {
        if crate::text::str_eq(l.paths[k].as_str(), p) {
            proof {
                let c = path_index(*l, p@);
                assert(0 <= c < l.paths@.len() && l.paths@[c]@ == p@);
                assert(texts(l.paths@)[c] == l.paths@[c]@);
                assert(texts(l.paths@)[k as int] == l.paths@[k as int]@);
                crate::names::lemma_lex_total(p@, p@);
                if c < k {
                    assert(crate::names::lex_lt(texts(l.paths@)[c], texts(l.paths@)[k as int]));
                } else if c > k {
                    assert(crate::names::lex_lt(texts(l.paths@)[k as int], texts(l.paths@)[c]));
                }
            }
            return k;
        }
        k += 1;
    }
    k
}

/// Appends the fields of an extended inode.
fn write_inode_fields(
    out: &mut Vec<u8>,
    format: u16,
    xattr_icount: u16,
    mode: u16,
    size: u64,
    startblk: u32,
    ino: u32,
    uid: u32,
    gid: u32,
    nlink: u32,
)
    ensures
        final(out)@ == old(out)@ + inode_fields(format, xattr_icount, mode, size, startblk, ino, uid, gid, nlink),
{
    push_u16(out, format);
    push_u16(out, xattr_icount);
    push_u16(out, mode);
    push_u16(out, 0);
    push_u64(out, size);
    push_u32(out, startblk);
    push_u32(out, ino);
    push_u32(out, uid);
    push_u32(out, gid);
    push_u64(out, 0);
    push_u32(out, 0);
    push_u32(out, nlink);
    push_zeros(out, 16);
    assert(out@ =~= old(out)@ + inode_fields(format, xattr_icount, mode, size, startblk, ino, uid, gid, nlink));
}

/// The blocks of a directory's entries are among those of the image.
proof fn lemma_dir_blocks_bounded(s: Seq<Inode>, i: int)
    requires
        0 <= i < s.len(),
    ensures
        pack_from(entries(s[i].kind), 0).len() <= dir_blocks_before(s, s.len() as int),
{
    crate::erofs::place::lemma_dir_blocks_before_mono(s, i + 1, s.len() as int);
}

/// Appends the `i`th inode and what it holds inline, unpadded: the caller pads it to
/// its slot.
pub fn write_inode(out: &mut Vec<u8>, inodes: &Vec<Inode>, sizes: &Vec<(String, u64)>, l: &Layout, i: usize)
    requires
        writable(inodes@, sizes@, *l),
        i < inodes@.len(),
    ensures
        final(out)@ == old(out)@ + inode_body(inodes@, *l, i as int),
{
    let n = &inodes[i];
    match &n.kind {
        InodeKind::Dir { num_hardlinks, .. } => {
            proof {
                lemma_dir_blocks_bounded(inodes@, i as int);
                assert(ranges(l.dir_blocks@[i as int]@).len() == l.dir_blocks@[i as int]@.len());
            }
            let size = l.dir_blocks[i].len() as u64 * 4096;
            write_inode_fields(out, 1, 0, n.mode, size, l.dir_blkaddr[i], n.ino as u32, n.uid, n.gid, *num_hardlinks);
        },
        InodeKind::Reg { cas_path } => {
            proof {
                assert(reg_path(inodes@[i as int].kind) == Some(cas_path@));
                assert(cas_paths(inodes@).contains(cas_path@));
                assert(texts(l.paths@).to_set().contains(cas_path@));
                let j = choose|j: int| 0 <= j < texts(l.paths@).len() && texts(l.paths@)[j] == cas_path@;
                assert(l.paths@[j]@ == cas_path@);
            }
            let k = find_path(l, cas_path.as_str());
            write_inode_fields(out, 1, 3, n.mode, l.sizes[k], 0, n.ino as u32, n.uid, n.gid, 1);
            push_u32(out, 0);
            out.push(2);
            push_zeros(out, 7);
            push_u32(out, 0);
            push_u32(out, l.offsets[k]);
        },
        InodeKind::Symlink { source } => {
            let len = crate::erofs::bytes::utf8_len(source.as_str());
            proof {
                assert(spec_aligned_size(inodes@[i as int].kind) <= 4096);
            }
            write_inode_fields(out, 5, 0, n.mode, len as u64, 0, n.ino as u32, n.uid, n.gid, 1);
            push_utf8(out, source.as_str());
        },
    }
    assert(out@ =~= old(out)@ + inode_body(inodes@, *l, i as int));
}

/// A size padded to whole slots.
pub proof fn lemma_slot_padding(x: nat)
    ensures
        x + padding(x, 32) == (x + 31) / 32 * 32,
{
}

/// An inode takes as many bytes as its slot-aligned size.
pub proof fn lemma_inode_bytes_len(s: Seq<Inode>, l: Layout, i: int)
    requires
        0 <= i < s.len(),
    ensures
        inode_bytes(s, l, i).len() == spec_aligned_size(s[i].kind),
{
    let b = inode_body(s, l, i);
    assert(b.len() == crate::erofs::layout::spec_inode_size(s[i].kind));
    lemma_slot_padding(b.len());
}

/// The metadata area that holds the first `n` inodes: each after the previous one, or at
/// the start of the next block when it does not fit in what is left of the current one.
pub open spec fn meta_area(s: Seq<Inode>, l: Layout, n: int) -> Seq<u8>
    decreases n,
{
    if n <= 0 {
        Seq::empty()
    } else {
        let prev = meta_area(s, l, n - 1);
        let b = inode_bytes(s, l, n - 1);
        prev + zeros((place(prev.len(), b.len()) - prev.len()) as nat) + b
    }
}

/// The metadata area with all the inodes, padded to whole blocks.
pub open spec fn meta_blocks(s: Seq<Inode>, l: Layout) -> Seq<u8> {
    let a = meta_area(s, l, s.len() as int);
    a + zeros(padding(a.len(), 4096))
}

/// Appends the metadata area.
#[verifier::rlimit(40)]
#[verifier::spinoff_prover]
pub fn write_meta(out: &mut Vec<u8>, inodes: &Vec<Inode>, sizes: &Vec<(String, u64)>, l: &Layout)
    requires
        writable(inodes@, sizes@, *l),
    ensures
        final(out)@ == old(out)@ + meta_blocks(inodes@, *l),
{
    let start = out.len();
    let mut i: usize = 0;
    while i < inodes.len()
        invariant
            i <= inodes@.len(),
            writable(inodes@, sizes@, *l),
            start == old(out)@.len(),
            out@ == old(out)@ + meta_area(inodes@, *l, i as int),
        decreases inodes@.len() - i,
    {
        let a = inodes[i].aligned_size();
        proof {
            lemma_inode_bytes_len(inodes@, *l, i as int);
            assert(a <= 4096);
        }
        let cur = out.len() - start;
        if (cur % 4096) as u128 + a > 4096 {
            push_zeros(out, 4096 - cur % 4096);
        }
        let slot_start = out.len();
        write_inode(out, inodes, sizes, l, i);
        pad_to(out, slot_start, 32);
        i += 1;
        assert(out@ =~= old(out)@ + meta_area(inodes@, *l, i as int));
    }
    pad_to(out, start, 4096);
    assert(out@ =~= old(out)@ + meta_blocks(inodes@, *l));
}

/// The names of the entries from `a` up to `b`, one after another.
pub open spec fn names_bytes(ds: Seq<Dirent>, a: int, b: int) -> Seq<u8>
    decreases b - a,
{
    if b <= a {
        Seq::empty()
    } else {
        names_bytes(ds, a, b - 1) + utf8(ds[b - 1].name@)
    }
}

/// The record of a directory entry: the number of its inode, the offset of its name in
/// the block, and its type.
pub open spec fn dirent_record(nid: u64, nameoff: u16, t: DirentFileType) -> Seq<u8> {
    le64(nid) + le16(nameoff) + seq![spec_file_type_code(t), 0u8]
}

/// The records of the entries from `a` up to `k` of the block of entries `a` up to `b`,
/// whose names follow all its records.
pub open spec fn records(ds: Seq<Dirent>, a: int, k: int, b: int, nids: Seq<u64>) -> Seq<u8>
    decreases k - a,
{
    if k <= a {
        Seq::empty()
    } else {
        records(ds, a, k - 1, b, nids) + dirent_record(
            nids[ds[k - 1].child_ino as int],
            (12 * (b - a) + names_bytes(ds, a, k - 1).len()) as u16,
            ds[k - 1].file_type,
        )
    }
}

/// The entries from `a` up to `b` as a block holds them: their records, then their names.
pub open spec fn dirent_body(ds: Seq<Dirent>, a: int, b: int, nids: Seq<u64>) -> Seq<u8> {
    records(ds, a, b, b, nids) + names_bytes(ds, a, b)
}

/// The block of the entries from `a` up to `b`: their records, then their names, padded
/// to a whole block.
pub open spec fn dirent_block(ds: Seq<Dirent>, a: int, b: int, nids: Seq<u64>) -> Seq<u8> {
    let body = dirent_body(ds, a, b, nids);
    body + zeros(padding(body.len(), 4096))
}

/// The entries from `a` up to `k` take a record each and their names.
pub proof fn lemma_run_names(ds: Seq<Dirent>, a: int, k: int)
    requires
        a <= k,
    ensures
        run(ds, a, k) == 12 * (k - a) + names_bytes(ds, a, k).len(),
    decreases k - a,
{
    if k > a {
        lemma_run_names(ds, a, k - 1);
    }
}

/// A run of entries takes no more than a longer one.
pub proof fn lemma_run_mono(ds: Seq<Dirent>, a: int, k: int, b: int)
    requires
        a <= k <= b,
    ensures
        run(ds, a, k) <= run(ds, a, b),
    decreases b - k,
{
    if k < b {
        lemma_run_mono(ds, a, k, b - 1);
    }
}

/// Appends the records and then the names of the entries from `a` up to `b`, which fit
/// in a block, unpadded: the caller pads them to the block.
pub fn write_dirent_block(out: &mut Vec<u8>, ds: &Vec<Dirent>, a: usize, b: usize, nids: &Vec<u64>)
    requires
        a <= b <= ds@.len(),
        run(ds@, a as int, b as int) <= 4096,
        forall|k: int| a <= k < b ==> (#[trigger] ds@[k]).child_ino < nids@.len(),
    ensures
        final(out)@ == old(out)@ + dirent_body(ds@, a as int, b as int, nids@),
{
    let count = (b - a) as u128;
    let mut names_len: u128 = 0;
    let mut k: usize = a;
    while k < b
        invariant
            a <= k <= b <= ds@.len(),
            count == b - a,
            forall|j: int| a <= j < b ==> (#[trigger] ds@[j]).child_ino < nids@.len(),
            names_len == names_bytes(ds@, a as int, k as int).len(),
            run(ds@, a as int, b as int) <= 4096,
            out@ == old(out)@ + records(ds@, a as int, k as int, b as int, nids@),
        decreases b - k,
    {
        let d = &ds[k];
        proof {
            lemma_run_names(ds@, a as int, k as int);
            lemma_run_names(ds@, a as int, k + 1);
            lemma_run_names(ds@, a as int, b as int);
            lemma_run_mono(ds@, a as int, k + 1, b as int);
        }
        let nameoff = (12 * count + names_len) as u16;
        let ghost before = out@;
        let ci = d.child_ino;
        assert(ci == ds@[k as int].child_ino);
        assert(ci < nids.len());
        let idx = ci as usize;
        assert(idx == ci);
        let nid = nids[idx];
        push_u64(out, nid);
        push_u16(out, nameoff);
        out.push(d.file_type.code());
        out.push(0);
        assert(out@ =~= before + dirent_record(nid, nameoff, d.file_type));
        assert(nameoff == (12 * (b - a) + names_bytes(ds@, a as int, k as int).len()) as u16);
        assert(nid == nids@[ds@[k as int].child_ino as int]);
        let n = crate::erofs::bytes::utf8_len(d.name.as_str());
        names_len = names_len + n;
        k += 1;
        assert(out@ =~= old(out)@ + records(ds@, a as int, k as int, b as int, nids@));
    }
    let ghost mid = out@;
    let mut k: usize = a;
    while k < b
        invariant
            a <= k <= b <= ds@.len(),
            out@ == mid + names_bytes(ds@, a as int, k as int),
        decreases b - k,
    {
        push_utf8(out, ds[k].name.as_str());
        k += 1;
        assert(out@ =~= mid + names_bytes(ds@, a as int, k as int));
    }
    assert(out@ =~= old(out)@ + dirent_body(ds@, a as int, b as int, nids@));
}

/// The blocks of a directory's entries, one after another.
pub open spec fn dir_blocks_bytes(ds: Seq<Dirent>, blocks: Seq<(usize, usize)>, nids: Seq<u64>) -> Seq<u8>
    decreases blocks.len(),
{
    if blocks.len() == 0 {
        Seq::empty()
    } else {
        dir_blocks_bytes(ds, blocks.drop_last(), nids) + dirent_block(
            ds,
            blocks.last().0 as int,
            blocks.last().1 as int,
            nids,
        )
    }
}

/// The blocks of the entries of the directories among the first `n` inodes, in turn.
pub open spec fn dir_area(s: Seq<Inode>, l: Layout, n: int) -> Seq<u8>
    decreases n,
{
    if n <= 0 {
        Seq::empty()
    } else {
        dir_area(s, l, n - 1) + dir_blocks_bytes(entries(s[n - 1].kind), l.dir_blocks@[n - 1]@, l.nids@)
    }
}

/// A block grows while its entries fit.
proof fn lemma_block_end_fits(ds: Seq<Dirent>, start: int, k: int)
    requires
        start < k,
        k == start + 1 || run(ds, start, k) <= 4096,
    ensures
        block_end(ds, start, k) == start + 1 || run(ds, start, block_end(ds, start, k)) <= 4096,
    decreases ds.len() - k,
{
    if !(k >= ds.len() || run(ds, start, k + 1) > 4096) {
        lemma_block_end_fits(ds, start, k + 1);
    }
}

/// Each packed block is a non-empty range of the entries that fits in a block, or holds a
/// single entry.
pub proof fn lemma_pack_valid(ds: Seq<Dirent>, start: int, k: int)
    requires
        0 <= start,
        0 <= k < pack_from(ds, start).len(),
    ensures
        start <= pack_from(ds, start)[k].0 < pack_from(ds, start)[k].1 <= ds.len(),
        pack_from(ds, start)[k].1 == pack_from(ds, start)[k].0 + 1 || run(
            ds,
            pack_from(ds, start)[k].0,
            pack_from(ds, start)[k].1,
        ) <= 4096,
    decreases ds.len() - start,
{
    let e = block_end(ds, start, start + 1);
    lemma_block_end_ge(ds, start, start + 1);
    lemma_block_end_fits(ds, start, start + 1);
    if k > 0 {
        lemma_pack_valid(ds, e, k - 1);
    }
}

/// Appends the blocks of the entries of every directory.
pub fn write_dir_blocks(out: &mut Vec<u8>, inodes: &Vec<Inode>, sizes: &Vec<(String, u64)>, l: &Layout)
    requires
        writable(inodes@, sizes@, *l),
        inodes_wf(inodes@),
    ensures
        final(out)@ == old(out)@ + dir_area(inodes@, *l, inodes@.len() as int),
{
    let mut i: usize = 0;
    while i < inodes.len()
        invariant
            i <= inodes@.len(),
            writable(inodes@, sizes@, *l),
            inodes_wf(inodes@),
            out@ == old(out)@ + dir_area(inodes@, *l, i as int),
        decreases inodes@.len() - i,
    {
        if let InodeKind::Dir { children, .. } = &inodes[i].kind {
            let blocks = &l.dir_blocks[i];
            let ghost mid = out@;
            let ghost ds = children@;
            let mut j: usize = 0;
            assert(blocks@.take(0) =~= Seq::<(usize, usize)>::empty());
            while j < blocks.len()
                invariant
                    i < inodes@.len(),
                    j <= blocks@.len(),
                    writable(inodes@, sizes@, *l),
                    inodes_wf(inodes@),
                    ds == children@,
                    ds == entries(inodes@[i as int].kind),
                    *blocks == l.dir_blocks@[i as int],
                    out@ == mid + dir_blocks_bytes(ds, blocks@.take(j as int), l.nids@),
                decreases blocks@.len() - j,
            {
                let (a, b) = blocks[j];
                proof {
                    assert(ranges(blocks@) =~= pack_from(ds, 0));
                    assert(ranges(blocks@)[j as int] == (a as int, b as int));
                    lemma_pack_valid(ds, 0, j as int);
                    if b == a + 1 {
                        assert(12 + utf8(entries(inodes@[i as int].kind)[a as int].name@).len() <= 4096);
                        assert(run(ds, a as int, a as int) == 0);
                        assert(run(ds, a as int, b as int) == crate::erofs::place::entry_len(ds[a as int]));
                    }
                    assert forall|k: int| a <= k < b implies (#[trigger] children@[k]).child_ino < l.nids@.len() by {
                        assert(inodes@[i as int].kind matches InodeKind::Dir { children: c, .. } && c@ == ds);
                    }
                }
                let block_start = out.len();
                write_dirent_block(out, children, a, b, &l.nids);
                pad_to(out, block_start, 4096);
                assert(blocks@.take(j + 1).drop_last() =~= blocks@.take(j as int));
                j += 1;
                assert(out@ =~= mid + dir_blocks_bytes(ds, blocks@.take(j as int), l.nids@));
            }
            assert(blocks@.take(j as int) =~= blocks@);
        } else {
            proof {
                assert(ranges(l.dir_blocks@[i as int]@) =~= pack_from(entries(inodes@[i as int].kind), 0));
                assert(l.dir_blocks@[i as int]@.len() == 0);
            }
        }
        i += 1;
        assert(out@ =~= old(out)@ + dir_area(inodes@, *l, i as int));
    }
}

/// The image of the inodes `s` with the layout `l`: the superblock's block, the shared
/// attribute area, the metadata area and the directory entry blocks, in that order.
pub open spec fn spec_image(ns: u8, s: Seq<Inode>, l: Layout) -> Seq<u8> {
    superblock_block(s.len() as u64, l.total_blocks, l.meta_blkaddr, l.xattr_blkaddr) + shared_xattrs(
        ns,
        texts(l.paths@),
    ) + meta_blocks(s, l) + dir_area(s, l, s.len() as int)
}

/// Appends the image of the inodes, placed by a layout of them.
pub fn write_layout(out: &mut Vec<u8>, ns: u8, inodes: &Vec<Inode>, sizes: &Vec<(String, u64)>, l: &Layout)
    requires
        writable(inodes@, sizes@, *l),
        inodes_wf(inodes@),
    ensures
        final(out)@ == old(out)@ + spec_image(ns, inodes@, *l),
{
    write_superblock(out, inodes.len() as u64, l.total_blocks, l.meta_blkaddr, l.xattr_blkaddr);
    write_shared_xattrs(out, ns, &l.paths);
    write_meta(out, inodes, sizes, l);
    write_dir_blocks(out, inodes, sizes, l);
    assert(out@ =~= old(out)@ + spec_image(ns, inodes@, *l));
}

/// Appends the image of the inodes, its extended attributes in the namespace `ns`, with
/// the sizes of the stored contents; or says why no image can be made, and appends
/// nothing.
pub fn write_inodes(out: &mut Vec<u8>, ns: u8, inodes: &Vec<Inode>, cas_sizes: &Vec<(String, u64)>) -> (r: Result<(), Error>)
    requires
        inodes_wf(inodes@),
    ensures
        match r {
            Ok(()) => layout_ok(inodes@, cas_sizes@) && exists|l: Layout|
                layout_of(inodes@, cas_sizes@, l) && final(out)@ == old(out)@ + spec_image(ns, inodes@, l),
            Err(e) => layout_error(inodes@, cas_sizes@, e) && final(out)@ == old(out)@,
        },
{
    match compute_layout(inodes, cas_sizes) {
        Ok(l) => {
            write_layout(out, ns, inodes, cas_sizes, &l);
            Ok(())
        },
        Err(e) => Err(e),
    }
}

} // verus!
