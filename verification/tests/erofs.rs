use boulder::erofs::image::{write_dirent_block, write_inode};
use boulder::erofs::layout::{Dirent, DirentFileType, Inode, InodeKind};
use boulder::erofs::place::compute_layout;
use boulder::erofs::bytes::{cas_path, xattr_entry_size};
use boulder::erofs::{Element, Error, LayoutFile, LayoutRecord, MetaImageWriter, XattrNamespace};
use boulder::stone_payload::Compression;

fn dir(name: &str, mode: u32, children: Vec<Element>) -> Element {
    Element {
        name: name.to_owned(),
        record: LayoutRecord {
            uid: 0,
            gid: 0,
            mode,
            file: LayoutFile::Directory(name.to_owned()),
        },
        children,
    }
}

fn leaf(name: &str, mode: u32, file: LayoutFile) -> Element {
    Element {
        name: name.to_owned(),
        record: LayoutRecord {
            uid: 1000,
            gid: 100,
            mode,
            file,
        },
        children: vec![],
    }
}

fn u16_at(b: &[u8], at: usize) -> u16 {
    u16::from_le_bytes([b[at], b[at + 1]])
}

fn u32_at(b: &[u8], at: usize) -> u32 {
    u32::from_le_bytes([b[at], b[at + 1], b[at + 2], b[at + 3]])
}

fn u64_at(b: &[u8], at: usize) -> u64 {
    u64::from_le_bytes([
        b[at],
        b[at + 1],
        b[at + 2],
        b[at + 3],
        b[at + 4],
        b[at + 5],
        b[at + 6],
        b[at + 7],
    ])
}

fn sample_tree() -> Element {
    dir(
        "/",
        0o755,
        vec![
            dir("bin", 0o755, vec![]),
            leaf("hello", 0o644, LayoutFile::Regular(0xabcdef0123, "hello".to_owned())),
            leaf(
                "link",
                0o777,
                LayoutFile::Symlink("hello".to_owned(), "link".to_owned()),
            ),
            leaf("pipe", 0o644, LayoutFile::Fifo("pipe".to_owned())),
        ],
    )
}

#[test]
fn erofs_writer_namespaces() {
    assert_eq!(MetaImageWriter::new().xattr_namespace(), XattrNamespace::Trusted);
    let w = MetaImageWriter::new().with_xattr_namespace(XattrNamespace::User);
    assert_eq!(w.xattr_namespace(), XattrNamespace::User);
    assert_eq!(XattrNamespace::User.index(), 1);
    assert_eq!(XattrNamespace::Trusted.index(), 4);
    assert_eq!(XattrNamespace::default(), XattrNamespace::Trusted);
}

#[test]
fn erofs_cas_paths() {
    assert_eq!(cas_path(0x0123456789abcdef), "/12/34/56/123456789abcdef");
    assert_eq!(cas_path(0xabcdef0123), "/ab/cd/ef/abcdef0123");
    assert_eq!(cas_path(0xab), "/ab");
    assert_eq!(cas_path(5), "/05");
}

#[test]
fn erofs_xattr_entry_sizes() {
    assert_eq!(xattr_entry_size(16, 0), 20);
    assert_eq!(xattr_entry_size(16, 20), 40);
    assert_eq!(xattr_entry_size(16, 25), 48);
}

#[test]
fn erofs_root_only_image() {
    let tree = dir("/", 0o755, vec![]);
    let mut out = Vec::new();
    let r = MetaImageWriter::new().write(&tree, &vec![], &mut out);
    assert_eq!(r, Ok(()));
    // superblock, shared attributes, metadata, the root's entries
    assert_eq!(out.len(), 4 * 4096);
    assert!(out[..1024].iter().all(|b| *b == 0));
    assert_eq!(u32_at(&out, 1024), 0xE0F5_E1E2);
    assert_eq!(u32_at(&out, 1024 + 8), 1);
    assert_eq!(out[1024 + 12], 12);
    assert_eq!(u64_at(&out, 1024 + 16), 1);
    assert_eq!(u32_at(&out, 1024 + 36), 4);
    assert_eq!(u32_at(&out, 1024 + 40), 2);
    assert_eq!(u32_at(&out, 1024 + 44), 1);
    // the metacopy entry
    assert_eq!(&out[4096..4100], &[16, 4, 0, 0]);
    assert_eq!(&out[4100..4116], b"overlay.metacopy");
    assert!(out[4116..8192].iter().all(|b| *b == 0));
    // the root inode
    assert_eq!(u16_at(&out, 8192), 1);
    assert_eq!(u16_at(&out, 8194), 0);
    assert_eq!(u16_at(&out, 8196), 0o40755);
    assert_eq!(u64_at(&out, 8192 + 8), 4096);
    assert_eq!(u32_at(&out, 8192 + 16), 3);
    assert_eq!(u32_at(&out, 8192 + 20), 0);
    assert_eq!(u32_at(&out, 8192 + 44), 2);
    // its entries: `.` and `..`, both itself
    let d = 3 * 4096;
    assert_eq!(u64_at(&out, d), 0);
    assert_eq!(u16_at(&out, d + 8), 24);
    assert_eq!(out[d + 10], 2);
    assert_eq!(u64_at(&out, d + 12), 0);
    assert_eq!(u16_at(&out, d + 20), 25);
    assert_eq!(&out[d + 24..d + 27], b"...");
}

#[test]
fn erofs_superblock_checksum() {
    let tree = dir("/", 0o755, vec![]);
    let mut out = Vec::new();
    MetaImageWriter::new().write(&tree, &vec![], &mut out).unwrap();
    let mut sb = out[1024..4096].to_vec();
    let stored = u32_at(&sb, 4);
    sb[4..8].copy_from_slice(&[0, 0, 0, 0]);
    let crc = crc::Crc::<u32>::new(&crc::CRC_32_ISCSI);
    assert_eq!(stored, crc.checksum(&sb) ^ 0xffff_ffff);
    assert_ne!(stored, 0);
}

#[test]
fn erofs_image_with_files() {
    let tree = sample_tree();
    let w = MetaImageWriter::new().with_xattr_namespace(XattrNamespace::User);
    assert_eq!(w.content_paths(&tree), vec!["/ab/cd/ef/abcdef0123".to_owned()]);
    let sizes = vec![("/ab/cd/ef/abcdef0123".to_owned(), 1234u64)];
    let mut out = vec![7u8];
    w.write(&tree, &sizes, &mut out).unwrap();
    assert_eq!(out[0], 7);
    let img = &out[1..];
    assert_eq!(img.len(), 5 * 4096);
    assert_eq!(u64_at(img, 1024 + 16), 4);
    assert_eq!(u32_at(img, 1024 + 36), 5);
    assert_eq!(u32_at(img, 1024 + 40), 2);
    // the redirect entry, in the user namespace, after the metacopy entry
    assert_eq!(&img[4096..4100], &[16, 1, 0, 0]);
    assert_eq!(&img[4116..4120], &[16, 1, 20, 0]);
    assert_eq!(&img[4120..4136], b"overlay.redirect");
    assert_eq!(&img[4136..4156], b"/ab/cd/ef/abcdef0123");
    // the root has `.`, `..` and `bin` as directory links
    let meta = 2 * 4096;
    assert_eq!(u32_at(img, meta + 44), 3);
    // the regular file: third inode, at slot 4
    let reg = meta + 4 * 32;
    assert_eq!(u16_at(img, reg), 1);
    assert_eq!(u16_at(img, reg + 2), 3);
    assert_eq!(u16_at(img, reg + 4), 0o100644);
    assert_eq!(u64_at(img, reg + 8), 1234);
    assert_eq!(u32_at(img, reg + 20), 2);
    assert_eq!(u32_at(img, reg + 24), 1000);
    assert_eq!(u32_at(img, reg + 28), 100);
    assert_eq!(out[1 + reg + 64 + 4], 2);
    assert_eq!(u32_at(img, reg + 64 + 12), 0);
    assert_eq!(u32_at(img, reg + 64 + 16), 5);
    // the symlink: fourth inode, at slot 7, its source inline
    let link = meta + 7 * 32;
    assert_eq!(u16_at(img, link), 5);
    assert_eq!(u64_at(img, link + 8), 5);
    assert_eq!(&img[link + 64..link + 69], b"hello");
    // the root's entries, sorted by name; the fifo has no inode and no entry
    let d = 3 * 4096;
    let nids: Vec<u64> = (0..5).map(|k| u64_at(img, d + 12 * k)).collect();
    assert_eq!(nids, vec![0, 0, 2, 4, 7]);
    let offs: Vec<u16> = (0..5).map(|k| u16_at(img, d + 12 * k + 8)).collect();
    assert_eq!(offs, vec![60, 61, 63, 66, 71]);
    let types: Vec<u8> = (0..5).map(|k| img[d + 12 * k + 10]).collect();
    assert_eq!(types, vec![2, 2, 2, 1, 7]);
    assert_eq!(&img[d + 60..d + 75], b"...binhellolink");
    // `bin`'s entries: itself, then the root
    let b = 4 * 4096;
    assert_eq!(u64_at(img, b), 2);
    assert_eq!(u64_at(img, b + 12), 0);
    assert_eq!(u32_at(img, meta + 2 * 32 + 16), 4);
}

#[test]
fn erofs_missing_content_size() {
    let tree = sample_tree();
    let mut out = Vec::new();
    let r = MetaImageWriter::new().write(&tree, &vec![("/elsewhere".to_owned(), 1)], &mut out);
    assert_eq!(r, Err(Error::MissingCasSize("/ab/cd/ef/abcdef0123".to_owned())));
    assert!(out.is_empty());
}

#[test]
fn erofs_symlink_too_large() {
    let source = "x".repeat(5000);
    let tree = dir(
        "/",
        0o755,
        vec![leaf("big", 0o777, LayoutFile::Symlink(source, "big".to_owned()))],
    );
    let mut out = Vec::new();
    let r = MetaImageWriter::new().write(&tree, &vec![], &mut out);
    assert_eq!(r, Err(Error::InodeTooLarge));
    assert!(out.is_empty());
}

#[test]
fn erofs_name_too_long() {
    let name = "n".repeat(4090);
    let tree = dir("/", 0o755, vec![dir(&name, 0o755, vec![])]);
    let mut out = Vec::new();
    let r = MetaImageWriter::new().write(&tree, &vec![], &mut out);
    assert_eq!(r, Err(Error::NameTooLong));
}

#[test]
fn erofs_entries_spill_into_blocks() {
    let children: Vec<Element> = (0..300)
        .map(|k| dir(&format!("directory-{k:04}"), 0o755, vec![]))
        .collect();
    let tree = dir("/", 0o755, children);
    let mut out = Vec::new();
    MetaImageWriter::new().write(&tree, &vec![], &mut out).unwrap();
    // 302 entries: `.`, `..` and 300 of 26 bytes each, too many for one block
    let blocks = u32_at(&out, 1024 + 36) as usize;
    assert_eq!(out.len(), blocks * 4096);
    let root_size = u64_at(&out, 2 * 4096 + 8);
    assert_eq!(root_size, 2 * 4096);
}

#[test]
fn payload_compression_bytes() {
    assert_eq!(Compression::from_u8(1), Compression::NoCompression);
    assert_eq!(Compression::from_u8(2), Compression::Zstd);
    assert_eq!(Compression::from_u8(9), Compression::Unknown);
    assert_eq!(Compression::Zstd.to_u8(), 2);
    assert_eq!(Compression::NoCompression.to_u8(), 1);
}

#[test]
fn payload_kind_bytes() {
    use_kind_bytes();
}

fn use_kind_bytes() {
    for b in 0..=255u8 {
        let k = boulder::stone_payload::Kind::from_u8(b);
        if (1..=5).contains(&b) {
            assert_eq!(k.to_u8(), b);
        } else {
            assert_eq!(k, boulder::stone_payload::Kind::Unknown);
            assert_eq!(k.to_u8(), 255);
        }
    }
}

#[test]
fn dirent_block_writer_leaves_padding_to_caller() {
    let ds = vec![
        Dirent { name: "a".to_owned(), child_ino: 0, file_type: DirentFileType::RegFile },
        Dirent { name: "bc".to_owned(), child_ino: 1, file_type: DirentFileType::Dir },
    ];
    let nids = vec![5u64, 7];
    let mut out = vec![9u8];
    write_dirent_block(&mut out, &ds, 0, 2, &nids);
    // the records and the names, 12 * 2 + 3 bytes, after what was there
    assert_eq!(out.len(), 1 + 27);
    assert_eq!(out[0], 9);
    assert_eq!(u64_at(&out, 1), 5);
    assert_eq!(u16_at(&out, 9), 24);
    assert_eq!(&out[11..13], &[1, 0]);
    assert_eq!(u64_at(&out, 13), 7);
    assert_eq!(u16_at(&out, 21), 25);
    assert_eq!(&out[23..25], &[2, 0]);
    assert_eq!(&out[25..], b"abc");
}

#[test]
fn inode_writer_leaves_padding_to_caller() {
    let inodes = vec![
        Inode {
            ino: 0,
            mode: 0o40755,
            uid: 0,
            gid: 0,
            kind: InodeKind::Dir {
                children: vec![Dirent { name: "f".to_owned(), child_ino: 1, file_type: DirentFileType::RegFile }],
                num_hardlinks: 2,
            },
        },
        Inode { ino: 1, mode: 0o100644, uid: 0, gid: 0, kind: InodeKind::Reg { cas_path: "00/ab".to_owned() } },
        Inode { ino: 2, mode: 0o120777, uid: 0, gid: 0, kind: InodeKind::Symlink { source: "abc".to_owned() } },
    ];
    let sizes = vec![("00/ab".to_owned(), 10u64)];
    let l = compute_layout(&inodes, &sizes).unwrap();
    let mut out = Vec::new();
    write_inode(&mut out, &inodes, &sizes, &l, 0);
    assert_eq!(out.len(), 64);
    let mut out = Vec::new();
    write_inode(&mut out, &inodes, &sizes, &l, 1);
    // a 64-byte inode and 20 bytes of shared attribute references, unpadded
    assert_eq!(out.len(), 84);
    assert_eq!(u16_at(&out, 0), 1);
    assert_eq!(u16_at(&out, 2), 3);
    assert_eq!(u64_at(&out, 8), 10);
    let mut out = Vec::new();
    write_inode(&mut out, &inodes, &sizes, &l, 2);
    assert_eq!(out.len(), 64 + 3);
    assert_eq!(u16_at(&out, 0), 5);
    assert_eq!(&out[64..], b"abc");
}
