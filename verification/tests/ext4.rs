use bux::ext4::{
    check, create_from_dir, describe_ext2fs_error, estimate_image_size, inject_file, is_dir_mode,
    superblock, to_cstring, BlockSize, CreateOptions, Entry, EntryKind, Error, FileType,
    Filesystem, FsCall, Superblock, DYNAMIC_REV, ERROR_BASE, FLAG_EXCLUSIVE, FLAG_RW, MIN_IMAGE,
    ROOT_INO,
};

const MIB: u64 = 1024 * 1024;

fn file(len: u64) -> Entry {
    Entry { kind: EntryKind::File, len }
}

fn drive(mut fs: Filesystem, codes: &[i64]) -> (Vec<FsCall>, Filesystem) {
    let mut made = Vec::new();
    let mut codes = codes.iter();
    while let Some(call) = fs.call() {
        made.push(call);
        fs.returned(*codes.next().unwrap_or(&0));
    }
    (made, fs)
}

#[test]
fn block_sizes() {
    assert_eq!(BlockSize::B1024.bytes(), 1024);
    assert_eq!(BlockSize::B2048.bytes(), 2048);
    assert_eq!(BlockSize::B4096.bytes(), 4096);
    assert_eq!(BlockSize::B1024.log(), 0);
    assert_eq!(BlockSize::B2048.log(), 1);
    assert_eq!(BlockSize::B4096.log(), 2);
    for b in [BlockSize::B1024, BlockSize::B2048, BlockSize::B4096] {
        assert_eq!(1024u32 << b.log(), b.bytes());
    }
}

#[test]
fn default_options() {
    assert_eq!(
        CreateOptions::default(),
        CreateOptions { block_size: BlockSize::B4096, reserved_ratio: 0 }
    );
    assert_eq!(
        CreateOptions::new(BlockSize::B1024, 50),
        Some(CreateOptions { block_size: BlockSize::B1024, reserved_ratio: 50 })
    );
    assert_eq!(CreateOptions::new(BlockSize::B1024, 0).map(|o| o.reserved_ratio), Some(0));
    assert_eq!(CreateOptions::new(BlockSize::B4096, 51), None);
    assert_eq!(CreateOptions::new(BlockSize::B4096, 255), None);
}

#[test]
fn file_type_codes() {
    let all = [
        FileType::Unknown,
        FileType::RegularFile,
        FileType::Directory,
        FileType::CharDevice,
        FileType::BlockDevice,
        FileType::Fifo,
        FileType::Socket,
        FileType::Symlink,
    ];
    for (i, t) in all.iter().enumerate() {
        assert_eq!(t.code(), i as i32);
    }
}

#[test]
fn superblock_of_512_mib() {
    let sb = superblock(512 * MIB, &CreateOptions::default());
    assert_eq!(
        sb,
        Superblock {
            blocks_count: 131072,
            r_blocks_count: 0,
            log_block_size: 2,
            rev_level: DYNAMIC_REV,
        }
    );
    let opts = CreateOptions { block_size: BlockSize::B1024, reserved_ratio: 5 };
    let sb = superblock(1000 * 1024 + 1023, &opts);
    assert_eq!((sb.blocks_count, sb.r_blocks_count, sb.log_block_size), (1000, 50, 0));
    let opts = CreateOptions { block_size: BlockSize::B2048, reserved_ratio: 50 };
    assert_eq!(superblock(2048 * 7, &opts).r_blocks_count, 3);
    assert_eq!(superblock(0, &opts).blocks_count, 0);
}

#[test]
fn superblock_counts_keep_32_bits() {
    let opts = CreateOptions { block_size: BlockSize::B1024, reserved_ratio: 50 };
    let blocks: u64 = (1 << 32) + 10;
    let sb = superblock(blocks * 1024, &opts);
    assert_eq!(sb.blocks_count, 10);
    assert_eq!(sb.r_blocks_count, ((blocks / 2) % (1 << 32)) as u32);
    let sb = superblock(u64::MAX, &CreateOptions { block_size: BlockSize::B1024, reserved_ratio: 255 });
    assert_eq!(sb.blocks_count, ((u64::MAX / 1024) % (1 << 32)) as u32);
}

#[test]
fn check_tags_the_operation() {
    assert_eq!(check("ext2fs_open", 0), Ok(()));
    assert_eq!(check("ext2fs_open", 5), Err(Error::Ext2fs { op: "ext2fs_open", code: 5 }));
    assert_eq!(check("x", -1), Err(Error::Ext2fs { op: "x", code: -1 }));
}

#[test]
fn error_descriptions() {
    let known = [
        (1, "bad magic number in superblock"),
        (2, "filesystem revision too high"),
        (4, "illegal block number"),
        (5, "illegal inode number"),
        (6, "internal error in ext2fs_open_icount"),
        (7, "cannot write to an fs opened read-only"),
        (8, "block bitmap not loaded"),
        (9, "inode bitmap not loaded"),
        (10, "no free blocks"),
        (11, "no free inodes"),
        (12, "directory block not found"),
        (16, "inode already allocated"),
        (17, "block already allocated"),
        (22, "filesystem not open"),
        (23, "device is read-only"),
        (24, "directory corrupted"),
        (25, "short read"),
        (26, "short write"),
        (28, "filesystem too large"),
    ];
    for (k, text) in known {
        assert_eq!(describe_ext2fs_error(ERROR_BASE + k), text);
    }
    for code in [0i64, 1, 2, 28, ERROR_BASE, ERROR_BASE + 3, ERROR_BASE + 27, ERROR_BASE + 29, -1, i64::MIN, i64::MAX, 255, 4096] {
        assert_eq!(describe_ext2fs_error(code), format!("libext2fs error {code:#x}"));
    }
    assert_eq!(describe_ext2fs_error(-1), "libext2fs error 0xffffffffffffffff");
    assert_eq!(describe_ext2fs_error(0), "libext2fs error 0x0");
}

#[test]
fn error_messages() {
    let e = Error::Ext2fs { op: "populate_fs", code: ERROR_BASE + 10 };
    assert_eq!(e.message(), "populate_fs: no free blocks");
    assert_eq!(Error::InvalidPath("x".into()).message(), "invalid path: x");
    assert_eq!(Error::Io("broken pipe".into()).message(), "broken pipe");
}

#[test]
fn cstrings_have_no_nul() {
    assert_eq!(to_cstring("/tmp/image.raw"), Ok("/tmp/image.raw".into()));
    assert_eq!(to_cstring(""), Ok(String::new()));
    for (s, at) in [("a\0b", 1), ("\0", 0), ("ab\0\0", 2), ("0123456789\0", 10)] {
        let want = format!("nul byte found in provided data at position: {at}");
        assert_eq!(to_cstring(s), Err(Error::InvalidPath(want)));
    }
    assert_eq!(
        to_cstring("h\u{e9}\0"),
        Err(Error::InvalidPath("nul byte found in provided data at position: 3".into()))
    );
}

#[test]
fn dir_mode_bit() {
    assert!(is_dir_mode(0o040755));
    assert!(!is_dir_mode(0o100644));
    assert!(!is_dir_mode(0o120777));
    assert!(is_dir_mode(0o060000));
    assert!(!is_dir_mode(0));
}

#[test]
fn create_from_dir_makes_four_calls_and_closes() {
    let fs = create_from_dir("/tmp/rootfs", "/tmp/image.raw", 512 * MIB);
    let (made, fs) = drive(fs, &[]);
    assert_eq!(
        made,
        vec![
            FsCall::Initialize {
                path: "/tmp/image.raw".into(),
                flags: FLAG_EXCLUSIVE,
                params: superblock(512 * MIB, &CreateOptions::default()),
            },
            FsCall::AllocateTables,
            FsCall::Populate { parent: ROOT_INO, source: "/tmp/rootfs".into(), root: ROOT_INO },
            FsCall::AddJournal { blocks: 0, flags: 0 },
            FsCall::Close,
        ]
    );
    assert_eq!(fs.result(), Ok(()));
    assert!(!fs.open);
}

#[test]
fn failure_stops_the_series_and_closes_once() {
    let fs = create_from_dir("/src", "/out", MIB);
    let (made, fs) = drive(fs, &[0, 0, ERROR_BASE + 10]);
    let ops: Vec<&str> = made.iter().map(|c| c.op()).collect();
    assert_eq!(
        ops,
        vec!["ext2fs_initialize", "ext2fs_allocate_tables", "populate_fs", "ext2fs_close"]
    );
    assert_eq!(fs.result(), Err(Error::Ext2fs { op: "populate_fs", code: ERROR_BASE + 10 }));
    assert!(!fs.open);

    let (made, fs) = drive(create_from_dir("/src", "/out", MIB), &[17]);
    assert_eq!(made.len(), 1);
    assert_eq!(fs.result(), Err(Error::Ext2fs { op: "ext2fs_initialize", code: 17 }));

    let (made, fs) = drive(create_from_dir("/src", "/out", MIB), &[0, -3]);
    assert_eq!(made.len(), 3);
    assert_eq!(made[2], FsCall::Close);
    assert_eq!(fs.result(), Err(Error::Ext2fs { op: "ext2fs_allocate_tables", code: -3 }));
}

#[test]
fn close_result_is_not_looked_at() {
    let (made, fs) = drive(inject_file("/img", "/host", "/guest"), &[0, 0, 99]);
    assert_eq!(
        made,
        vec![
            FsCall::Open { path: "/img".into(), flags: FLAG_RW },
            FsCall::Write { cwd: ROOT_INO, host: "/host".into(), guest: "/guest".into(), root: ROOT_INO },
            FsCall::Close,
        ]
    );
    assert_eq!(fs.result(), Ok(()));
}

#[test]
fn invalid_strings_end_the_series_before_the_call() {
    let (made, fs) = drive(create_from_dir("/sr\0c", "/out", MIB), &[]);
    let ops: Vec<&str> = made.iter().map(|c| c.op()).collect();
    assert_eq!(ops, vec!["ext2fs_initialize", "ext2fs_allocate_tables", "ext2fs_close"]);
    assert_eq!(
        fs.result(),
        Err(Error::InvalidPath("nul byte found in provided data at position: 3".into()))
    );
    let (made, fs) = drive(create_from_dir("/src", "\0", MIB), &[]);
    assert!(made.is_empty());
    assert!(matches!(fs.result(), Err(Error::InvalidPath(_))));
    let (made, fs) = drive(inject_file("/img", "/ho\0st", "/gu\0est"), &[]);
    assert_eq!(made.len(), 2);
    assert_eq!(
        fs.result(),
        Err(Error::InvalidPath("nul byte found in provided data at position: 3".into()))
    );
}

#[test]
fn single_calls() {
    let mut fs = Filesystem::open("/img");
    fs.mkdir("etc");
    fs.symlink("bin", "usr/bin");
    fs.link(2, "file", 12, FileType::RegularFile);
    fs.read_inode(12);
    fs.write_inode(12);
    fs.write_new_inode(13);
    fs.alloc_inode(2, 0o040755);
    fs.alloc_inode(2, 0o100644);
    fs.alloc_block(100);
    fs.flush();
    let (made, fs) = drive(fs, &[]);
    assert_eq!(
        made[1..],
        vec![
            FsCall::Mkdir { cwd: ROOT_INO, name: "etc".into(), root: ROOT_INO },
            FsCall::Symlink { cwd: ROOT_INO, name: "bin".into(), target: "usr/bin".into(), root: ROOT_INO },
            FsCall::Link { dir: 2, name: "file".into(), ino: 12, file_type: 1 },
            FsCall::ReadInode { ino: 12 },
            FsCall::WriteInode { ino: 12 },
            FsCall::WriteNewInode { ino: 13 },
            FsCall::NewInode { dir: 2, mode: 0o040755, is_dir: true },
            FsCall::NewInode { dir: 2, mode: 0o100644, is_dir: false },
            FsCall::NewBlock { goal: 100 },
            FsCall::Flush,
            FsCall::Close,
        ]
    );
    assert_eq!(fs.result(), Ok(()));
    let ops: Vec<&str> = made.iter().map(|c| c.op()).collect();
    assert_eq!(
        ops,
        vec![
            "ext2fs_open",
            "do_mkdir_internal",
            "do_symlink_internal",
            "ext2fs_link",
            "ext2fs_read_inode",
            "ext2fs_write_inode",
            "ext2fs_write_new_inode",
            "ext2fs_new_inode",
            "ext2fs_new_inode",
            "ext2fs_new_block2",
            "ext2fs_flush",
            "ext2fs_close",
        ]
    );
}

#[test]
fn estimate_has_a_floor() {
    assert_eq!(estimate_image_size(&vec![]), Some(MIN_IMAGE));
    assert_eq!(MIN_IMAGE, 256 * MIB);
    assert_eq!(estimate_image_size(&vec![file(1)]), Some(256 * MIB));
    let dirs = vec![Entry { kind: EntryKind::Dir, len: 4096 }; 100];
    assert_eq!(estimate_image_size(&dirs), Some(256 * MIB));
}

#[test]
fn estimate_formula() {
    // One file of 1 GiB: (2^30 + 256) * 11 / 10 + 64 MiB.
    let one = vec![file(1 << 30)];
    assert_eq!(estimate_image_size(&one), Some(((1u64 << 30) + 256) * 11 / 10 + 64 * MIB));
    // Rounding up to 4 KiB, a directory, a long and a short symlink, a device.
    let tree = vec![
        file(300 * MIB + 1),
        Entry { kind: EntryKind::Dir, len: 0 },
        Entry { kind: EntryKind::Symlink, len: 61 },
        Entry { kind: EntryKind::Symlink, len: 60 },
        Entry { kind: EntryKind::Other, len: 1 << 40 },
    ];
    let content = 300 * MIB + 4096 + 4096 + 4096;
    let raw = content + 5 * 256;
    assert_eq!(estimate_image_size(&tree), Some(raw * 11 / 10 + 64 * MIB));
    // The smallest tree above the floor.
    let raw = (192 * MIB * 10 + 10) / 11;
    let len = raw - 256;
    let got = estimate_image_size(&vec![file(len)]).unwrap();
    let rounded = (len + 4095) / 4096 * 4096;
    assert_eq!(got, ((rounded + 256) * 11 / 10 + 64 * MIB).max(256 * MIB));
}

#[test]
fn estimate_exceeds_the_files() {
    for lens in [vec![0u64], vec![1, 4095, 4096, 4097], vec![1 << 40, 3], vec![u64::MAX / 4]] {
        let entries: Vec<Entry> = lens.iter().map(|l| file(*l)).collect();
        let files: u128 = lens.iter().map(|l| (*l as u128 + 4095) / 4096 * 4096).sum();
        let size = estimate_image_size(&entries).unwrap();
        assert!(size >= 256 * MIB);
        assert!(size as u128 > files);
    }
}

#[test]
fn estimate_that_does_not_fit() {
    assert_eq!(estimate_image_size(&vec![file(u64::MAX)]), None);
    assert_eq!(estimate_image_size(&vec![file(u64::MAX / 2), file(u64::MAX / 2), file(8192)]), None);
    let raw = u64::MAX / 11 * 10;
    assert_eq!(estimate_image_size(&vec![file(raw)]), None);
    let fits = (u64::MAX - 64 * MIB) / 11 * 10 / 4096 * 4096 - 4096;
    let got = estimate_image_size(&vec![file(fits)]).unwrap();
    assert_eq!(got as u128, (fits as u128 + 256) * 11 / 10 + 64 * MIB as u128);
}
