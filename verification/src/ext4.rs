//! Building ext4 images with the filesystem library.
//!
//! The library's primitives are called by the caller. This module prepares
//! them: it computes the superblock of a new image, validates the strings
//! that cross into C, orders the calls of a build, turns result codes into
//! errors, and makes sure that a filesystem handle is closed on every path.
//! It also estimates how large an image has to be for a directory tree.

use vstd::prelude::*;
use vstd::arithmetic::power2::{lemma2_to64, pow2};
use vstd::string::{StringExecFns, StringSliceAdditionalSpecFns};
use vstd::utf8::encode_utf8;
use crate::seqs::{first_where, lemma_first_where_unique};
use crate::text::{decimal, digits, hex};

verus! {

/// Base of the filesystem library's error codes.
pub const ERROR_BASE: i64 = 2_133_571_328;

/// Inode number of the root directory.
pub const ROOT_INO: u32 = 2;

/// Revision of a filesystem with dynamic inode sizes.
pub const DYNAMIC_REV: u32 = 1;

/// Flag: open the filesystem for reading and writing.
pub const FLAG_RW: u32 = 0x01;

/// Flag: open the device exclusively.
pub const FLAG_EXCLUSIVE: u32 = 0x4000;

/// Mode bit that marks a directory.
pub const MODE_DIR: u16 = 0o040_000;

/// Block size for an ext4 filesystem.
#[derive(Debug, Clone, Copy, PartialEq, Eq, Structural)]
pub enum BlockSize {
    /// 1024 bytes.
    B1024,
    /// 2048 bytes.
    B2048,
    /// 4096 bytes (default, recommended).
    B4096,
}

impl BlockSize {
    /// The block size in bytes.
    pub open spec fn bytes_spec(self) -> u32 {
        match self {
            BlockSize::B1024 => 1024,
            BlockSize::B2048 => 2048,
            BlockSize::B4096 => 4096,
        }
    }

    /// The block size as the superblock records it: the binary logarithm of
    /// the size in KiB.
    pub open spec fn log_spec(self) -> u32 {
        match self {
            BlockSize::B1024 => 0,
            BlockSize::B2048 => 1,
            BlockSize::B4096 => 2,
        }
    }

    /// Returns the block size in bytes.
    #[must_use]
    pub fn bytes(self) -> (n: u32)
        ensures
            n == self.bytes_spec(),
    {
        match self {
            BlockSize::B1024 => 1024,
            BlockSize::B2048 => 2048,
            BlockSize::B4096 => 4096,
        }
    }

    /// Returns the binary logarithm of the block size in KiB.
    #[must_use]
    pub fn log(self) -> (n: u32)
        ensures
            n == self.log_spec(),
    {
        match self {
            BlockSize::B1024 => 0,
            BlockSize::B2048 => 1,
            BlockSize::B4096 => 2,
        }
    }
}

/// The recorded logarithm is the logarithm: the block size is 1 KiB times
/// two to its power.
pub proof fn lemma_block_size_log(size: BlockSize)
    ensures
        size.bytes_spec() == 1024 * pow2(size.log_spec() as nat),
{
    lemma2_to64();
}

/// Options for creating a new ext4 filesystem.
#[derive(Debug, Clone, Copy, PartialEq, Eq, Structural)]
pub struct CreateOptions {
    /// Block size (default: 4096).
    pub block_size: BlockSize,
    /// Reserved block percentage, 0 to 50 (default: 0 for containers).
    pub reserved_ratio: u8,
}

impl Default for CreateOptions {
    fn default() -> (opts: Self)
        ensures
            opts == (CreateOptions { block_size: BlockSize::B4096, reserved_ratio: 0 }),
            opts.wf(),
    {
        CreateOptions { block_size: BlockSize::B4096, reserved_ratio: 0 }
    }
}

impl CreateOptions {
    /// The options' invariant: at most half of the blocks are reserved.
    pub open spec fn wf(self) -> bool {
        self.reserved_ratio <= 50
    }

    /// Options with the given block size and reserved share; `None` for a
    /// share above 50 percent.
    pub fn new(block_size: BlockSize, reserved_ratio: u8) -> (opts: Option<Self>)
        ensures
            reserved_ratio <= 50 ==> opts == Some(CreateOptions { block_size, reserved_ratio })
                && opts.unwrap().wf(),
            reserved_ratio > 50 ==> opts is None,
    {
        if reserved_ratio <= 50 {
            Some(CreateOptions { block_size, reserved_ratio })
        } else {
            None
        }
    }
}

/// File type for directory entries.
#[derive(Debug, Clone, Copy, PartialEq, Eq, Structural)]
pub enum FileType {
    /// Unknown or unspecified file type.
    Unknown,
    /// Regular file.
    RegularFile,
    /// Directory.
    Directory,
    /// Character device.
    CharDevice,
    /// Block device.
    BlockDevice,
    /// Named pipe (FIFO).
    Fifo,
    /// Unix domain socket.
    Socket,
    /// Symbolic link.
    Symlink,
}

impl FileType {
    /// The type bits of a directory entry.
    pub open spec fn code_spec(self) -> i32 {
        match self {
            FileType::Unknown => 0,
            FileType::RegularFile => 1,
            FileType::Directory => 2,
            FileType::CharDevice => 3,
            FileType::BlockDevice => 4,
            FileType::Fifo => 5,
            FileType::Socket => 6,
            FileType::Symlink => 7,
        }
    }

    /// Returns the type bits of a directory entry of this type.
    #[must_use]
    pub fn code(self) -> (n: i32)
        ensures
            n == self.code_spec(),
    {
        match self {
            FileType::Unknown => 0,
            FileType::RegularFile => 1,
            FileType::Directory => 2,
            FileType::CharDevice => 3,
            FileType::BlockDevice => 4,
            FileType::Fifo => 5,
            FileType::Socket => 6,
            FileType::Symlink => 7,
        }
    }
}

/// Errors returned by ext4 operations.
#[derive(Debug, Clone, PartialEq, Eq)]
pub enum Error {
    /// A filesystem library function returned a non-zero error code.
    Ext2fs {
        /// Name of the operation that failed.
        op: &'static str,
        /// The raw error code.
        code: i64,
    },
    /// A path could not be converted to a C string.
    InvalidPath(String),
    /// An I/O error occurred outside of the filesystem library.
    Io(String),
}

/// Mathematical value of an [`Error`].
pub enum ErrorView {
    Ext2fs { op: Seq<char>, code: i64 },
    InvalidPath(Seq<char>),
    Io(Seq<char>),
}

impl View for Error {
    type V = ErrorView;

    open spec fn view(&self) -> ErrorView {
        match *self {
            Error::Ext2fs { op, code } => ErrorView::Ext2fs { op: op@, code },
            Error::InvalidPath(msg) => ErrorView::InvalidPath(msg@),
            Error::Io(msg) => ErrorView::Io(msg@),
        }
    }
}

/// The view of an optional error.
pub open spec fn opt_error(e: Option<Error>) -> Option<ErrorView> {
    match e {
        Some(e) => Some(e@),
        None => None,
    }
}

/// A 64-bit code read as an unsigned number, two's complement.
pub open spec fn unsigned(code: i64) -> nat {
    if code >= 0 {
        code as nat
    } else {
        (code + 0x1_0000_0000_0000_0000) as nat
    }
}

/// The description of a filesystem library error code: a fixed text for the
/// well-known codes, the code in hexadecimal for the others.
pub open spec fn describe_spec(code: i64) -> Seq<char> {
    let k = code - ERROR_BASE;
    if k == 1 {
        "bad magic number in superblock"@
    } else if k == 2 {
        "filesystem revision too high"@
    } else if k == 4 {
        "illegal block number"@
    } else if k == 5 {
        "illegal inode number"@
    } else if k == 6 {
        "internal error in ext2fs_open_icount"@
    } else if k == 7 {
        "cannot write to an fs opened read-only"@
    } else if k == 8 {
        "block bitmap not loaded"@
    } else if k == 9 {
        "inode bitmap not loaded"@
    } else if k == 10 {
        "no free blocks"@
    } else if k == 11 {
        "no free inodes"@
    } else if k == 12 {
        "directory block not found"@
    } else if k == 16 {
        "inode already allocated"@
    } else if k == 17 {
        "block already allocated"@
    } else if k == 22 {
        "filesystem not open"@
    } else if k == 23 {
        "device is read-only"@
    } else if k == 24 {
        "directory corrupted"@
    } else if k == 25 {
        "short read"@
    } else if k == 26 {
        "short write"@
    } else if k == 28 {
        "filesystem too large"@
    } else {
        "libext2fs error 0x"@ + digits(unsigned(code), 16)
    }
}

/// Maps common filesystem library error codes to human-readable
/// descriptions.
pub fn describe_ext2fs_error(code: i64) -> (text: String)
    ensures
        text@ == describe_spec(code),
{
    if code == ERROR_BASE + 1 {
        "bad magic number in superblock".to_owned()
    } else if code == ERROR_BASE + 2 {
        "filesystem revision too high".to_owned()
    } else if code == ERROR_BASE + 4 {
        "illegal block number".to_owned()
    } else if code == ERROR_BASE + 5 {
        "illegal inode number".to_owned()
    } else if code == ERROR_BASE + 6 {
        "internal error in ext2fs_open_icount".to_owned()
    } else if code == ERROR_BASE + 7 {
        "cannot write to an fs opened read-only".to_owned()
    } else if code == ERROR_BASE + 8 {
        "block bitmap not loaded".to_owned()
    } else if code == ERROR_BASE + 9 {
        "inode bitmap not loaded".to_owned()
    } else if code == ERROR_BASE + 10 {
        "no free blocks".to_owned()
    } else if code == ERROR_BASE + 11 {
        "no free inodes".to_owned()
    } else if code == ERROR_BASE + 12 {
        "directory block not found".to_owned()
    } else if code == ERROR_BASE + 16 {
        "inode already allocated".to_owned()
    } else if code == ERROR_BASE + 17 {
        "block already allocated".to_owned()
    } else if code == ERROR_BASE + 22 {
        "filesystem not open".to_owned()
    } else if code == ERROR_BASE + 23 {
        "device is read-only".to_owned()
    } else if code == ERROR_BASE + 24 {
        "directory corrupted".to_owned()
    } else if code == ERROR_BASE + 25 {
        "short read".to_owned()
    } else if code == ERROR_BASE + 26 {
        "short write".to_owned()
    } else if code == ERROR_BASE + 28 {
        "filesystem too large".to_owned()
    } else {
        let raw: u64 = if code >= 0 {
            code as u64
        } else {
            u64::MAX - ((-(code + 1)) as u64)
        };
        let mut text = "libext2fs error 0x".to_owned();
        text.append(hex(raw).as_str());
        text
    }
}

/// Checks a result code of the filesystem library, converting non-zero
/// values to [`Error::Ext2fs`] tagged with the operation's name.
pub fn check(op: &'static str, code: i64) -> (r: Result<(), Error>)
    ensures
        code == 0 ==> r is Ok,
        code != 0 ==> (r matches Err(e) && e@ == (ErrorView::Ext2fs { op: op@, code })),
{
    if code == 0 {
        Ok(())
    } else {
        Err(Error::Ext2fs { op, code })
    }
}

impl Error {
    /// The error as one line of text.
    pub fn message(&self) -> (text: String)
        ensures
            text@ == match self@ {
                ErrorView::Ext2fs { op, code } => op + ": "@ + describe_spec(code),
                ErrorView::InvalidPath(msg) => "invalid path: "@ + msg,
                ErrorView::Io(msg) => msg,
            },
    {
        match self {
            Error::Ext2fs { op, code } => {
                let mut text = (*op).to_owned();
                text.append(": ");
                text.append(describe_ext2fs_error(*code).as_str());
                text
            },
            Error::InvalidPath(msg) => {
                let mut text = "invalid path: ".to_owned();
                text.append(msg.as_str());
                text
            },
            Error::Io(msg) => msg.clone(),
        }
    }
}

/// The NUL bytes.
pub open spec fn is_nul() -> spec_fn(u8) -> bool {
    |b: u8| b == 0
}

/// What converting a string to a C string gives: the string itself, or
/// `InvalidPath` with the position of its first NUL byte.
pub open spec fn cstring_spec(s: Seq<char>) -> Result<Seq<char>, ErrorView> {
    let at = first_where(encode_utf8(s), is_nul());
    if at < encode_utf8(s).len() {
        Err(
            ErrorView::InvalidPath(
                "nul byte found in provided data at position: "@ + digits(at as nat, 10),
            ),
        )
    } else {
        Ok(s)
    }
}

/// Converts a string to one that can cross into C: it must not hold a NUL
/// byte.
pub fn to_cstring(s: &str) -> (r: Result<String, Error>)
    ensures
        match r {
            Ok(c) => cstring_spec(s@) == Ok::<Seq<char>, ErrorView>(c@),
            Err(e) => cstring_spec(s@) == Err::<Seq<char>, ErrorView>(e@),
        },
{
    let bytes = s.as_bytes();
    let mut i: usize = 0;
    while i < bytes.len() && bytes[i] != 0
        invariant
            i <= bytes.len(),
            forall|j: int| 0 <= j < i ==> !is_nul()(#[trigger] bytes@[j]),
        decreases bytes.len() - i,
    {
        i += 1;
    }
    proof {
        lemma_first_where_unique(bytes@, is_nul(), i as int);
    }
    if i < bytes.len() {
        let mut msg = "nul byte found in provided data at position: ".to_owned();
        msg.append(decimal(i as u64).as_str());
        Err(Error::InvalidPath(msg))
    } else {
        Ok(s.to_owned())
    }
}

/// The superblock fields that describe a new filesystem.
#[derive(Debug, Clone, Copy, PartialEq, Eq, Structural)]
pub struct Superblock {
    /// Number of blocks.
    pub blocks_count: u32,
    /// Number of blocks reserved for the superuser.
    pub r_blocks_count: u32,
    /// Binary logarithm of the block size in KiB.
    pub log_block_size: u32,
    /// Revision level.
    pub rev_level: u32,
}

/// The low 32 bits of a number.
pub open spec fn low32(n: nat) -> u32 {
    (n % 0x1_0000_0000) as u32
}

/// The superblock of a filesystem of `size_bytes` bytes: as many blocks as
/// fit, the given percentage of them reserved, the dynamic revision. Both
/// counts are recorded in 32 bits.
pub open spec fn superblock_spec(size_bytes: u64, opts: CreateOptions) -> Superblock {
    let blocks = (size_bytes / opts.block_size.bytes_spec() as u64) as nat;
    Superblock {
        blocks_count: low32(blocks),
        r_blocks_count: low32(blocks * opts.reserved_ratio as nat / 100),
        log_block_size: opts.block_size.log_spec(),
        rev_level: DYNAMIC_REV,
    }
}

/// Computes the superblock of a new filesystem.
pub fn superblock(size_bytes: u64, opts: &CreateOptions) -> (sb: Superblock)
    ensures
        sb == superblock_spec(size_bytes, *opts),
{
    let unit: u64 = opts.block_size.bytes() as u64;
    let blocks: u64 = size_bytes / unit;
    assert(blocks <= 0x40_0000_0000_0000) by (nonlinear_arith)
        requires
            blocks == size_bytes / unit,
            unit >= 1024,
            size_bytes <= 0xffff_ffff_ffff_ffff,
    ;
    assert(blocks * opts.reserved_ratio <= u64::MAX) by (nonlinear_arith)
        requires
            blocks <= 0x40_0000_0000_0000,
            opts.reserved_ratio <= 255,
    ;
    let reserved: u64 = blocks * (opts.reserved_ratio as u64) / 100;
    Superblock {
        blocks_count: (blocks % 0x1_0000_0000) as u32,
        r_blocks_count: (reserved % 0x1_0000_0000) as u32,
        log_block_size: opts.block_size.log(),
        rev_level: DYNAMIC_REV,
    }
}

/// Whether a new inode with this mode is accounted as a directory.
pub fn is_dir_mode(mode: u16) -> (b: bool)
    ensures
        b == (mode & MODE_DIR != 0),
{
    mode & MODE_DIR != 0
}

/// One call into the filesystem library.
#[derive(Debug, Clone, PartialEq, Eq)]
pub enum FsCall {
    /// Create a filesystem at `path` with the default I/O manager.
    Initialize { path: String, flags: u32, params: Superblock },
    /// Allocate block-group tables, inode tables and bitmaps.
    AllocateTables,
    /// Open the filesystem at `path` with the default I/O manager.
    Open { path: String, flags: u32 },
    /// Copy the tree under `source` into the directory `parent`.
    Populate { parent: u32, source: String, root: u32 },
    /// Write pending changes to disk.
    Flush,
    /// Copy the host file `host` to `guest`, relative to `cwd`.
    Write { cwd: u32, host: String, guest: String, root: u32 },
    /// Create the directory `name`, relative to `cwd`.
    Mkdir { cwd: u32, name: String, root: u32 },
    /// Create the symlink `name` to `target`, relative to `cwd`.
    Symlink { cwd: u32, name: String, target: String, root: u32 },
    /// Add a journal inode of `blocks` blocks; 0 lets the library choose.
    AddJournal { blocks: u32, flags: i32 },
    /// Add the entry `name` for inode `ino` to the directory `dir`.
    Link { dir: u32, name: String, ino: u32, file_type: i32 },
    /// Read the inode `ino`.
    ReadInode { ino: u32 },
    /// Write the inode `ino`.
    WriteInode { ino: u32 },
    /// Write the freshly allocated inode `ino`.
    WriteNewInode { ino: u32 },
    /// Allocate an inode near `dir`, and account for it as in use, as a
    /// directory if `is_dir`.
    NewInode { dir: u32, mode: i32, is_dir: bool },
    /// Allocate a block near `goal`, and account for it as in use.
    NewBlock { goal: u64 },
    /// Close the filesystem. The library flushes if its dirty flag is set.
    Close,
}

/// Mathematical value of an [`FsCall`].
pub enum FsCallView {
    Initialize { path: Seq<char>, flags: u32, params: Superblock },
    AllocateTables,
    Open { path: Seq<char>, flags: u32 },
    Populate { parent: u32, source: Seq<char>, root: u32 },
    Flush,
    Write { cwd: u32, host: Seq<char>, guest: Seq<char>, root: u32 },
    Mkdir { cwd: u32, name: Seq<char>, root: u32 },
    Symlink { cwd: u32, name: Seq<char>, target: Seq<char>, root: u32 },
    AddJournal { blocks: u32, flags: i32 },
    Link { dir: u32, name: Seq<char>, ino: u32, file_type: i32 },
    ReadInode { ino: u32 },
    WriteInode { ino: u32 },
    WriteNewInode { ino: u32 },
    NewInode { dir: u32, mode: i32, is_dir: bool },
    NewBlock { goal: u64 },
    Close,
}

impl View for FsCall {
    type V = FsCallView;

    open spec fn view(&self) -> FsCallView {
        match *self {
            FsCall::Initialize { path, flags, params } => FsCallView::Initialize {
                path: path@,
                flags,
                params,
            },
            FsCall::AllocateTables => FsCallView::AllocateTables,
            FsCall::Open { path, flags } => FsCallView::Open { path: path@, flags },
            FsCall::Populate { parent, source, root } => FsCallView::Populate {
                parent,
                source: source@,
                root,
            },
            FsCall::Flush => FsCallView::Flush,
            FsCall::Write { cwd, host, guest, root } => FsCallView::Write {
                cwd,
                host: host@,
                guest: guest@,
                root,
            },
            FsCall::Mkdir { cwd, name, root } => FsCallView::Mkdir { cwd, name: name@, root },
            FsCall::Symlink { cwd, name, target, root } => FsCallView::Symlink {
                cwd,
                name: name@,
                target: target@,
                root,
            },
            FsCall::AddJournal { blocks, flags } => FsCallView::AddJournal { blocks, flags },
            FsCall::Link { dir, name, ino, file_type } => FsCallView::Link {
                dir,
                name: name@,
                ino,
                file_type,
            },
            FsCall::ReadInode { ino } => FsCallView::ReadInode { ino },
            FsCall::WriteInode { ino } => FsCallView::WriteInode { ino },
            FsCall::WriteNewInode { ino } => FsCallView::WriteNewInode { ino },
            FsCall::NewInode { dir, mode, is_dir } => FsCallView::NewInode { dir, mode, is_dir },
            FsCall::NewBlock { goal } => FsCallView::NewBlock { goal },
            FsCall::Close => FsCallView::Close,
        }
    }
}

/// The views of a list of calls.
pub open spec fn calls_of(v: Seq<FsCall>) -> Seq<FsCallView> {
    v.map_values(|c: FsCall| c@)
}

impl FsCallView {
    /// The stable name of the operation, as errors carry it.
    pub open spec fn op(self) -> Seq<char> {
        match self {
            FsCallView::Initialize { .. } => "ext2fs_initialize"@,
            FsCallView::AllocateTables => "ext2fs_allocate_tables"@,
            FsCallView::Open { .. } => "ext2fs_open"@,
            FsCallView::Populate { .. } => "populate_fs"@,
            FsCallView::Flush => "ext2fs_flush"@,
            FsCallView::Write { .. } => "do_write_internal"@,
            FsCallView::Mkdir { .. } => "do_mkdir_internal"@,
            FsCallView::Symlink { .. } => "do_symlink_internal"@,
            FsCallView::AddJournal { .. } => "ext2fs_add_journal_inode"@,
            FsCallView::Link { .. } => "ext2fs_link"@,
            FsCallView::ReadInode { .. } => "ext2fs_read_inode"@,
            FsCallView::WriteInode { .. } => "ext2fs_write_inode"@,
            FsCallView::WriteNewInode { .. } => "ext2fs_write_new_inode"@,
            FsCallView::NewInode { .. } => "ext2fs_new_inode"@,
            FsCallView::NewBlock { .. } => "ext2fs_new_block2"@,
            FsCallView::Close => "ext2fs_close"@,
        }
    }

    /// Whether the call yields a filesystem handle when it succeeds.
    pub open spec fn opens(self) -> bool {
        self is Initialize || self is Open
    }

    /// The error of the first of two results, else that of the second.
    pub open spec fn first_error(
        a: Result<Seq<char>, ErrorView>,
        b: Result<Seq<char>, ErrorView>,
    ) -> Option<ErrorView> {
        match a {
            Err(e) => Some(e),
            Ok(_) => match b {
                Err(e) => Some(e),
                Ok(_) => None,
            },
        }
    }

    /// The error of converting the call's strings to C strings, in the
    /// order of its arguments, if one of them holds a NUL byte.
    pub open spec fn invalid(self) -> Option<ErrorView> {
        match self {
            FsCallView::Initialize { path, .. } => Self::first_error(cstring_spec(path), Ok(path)),
            FsCallView::Open { path, .. } => Self::first_error(cstring_spec(path), Ok(path)),
            FsCallView::Populate { source, .. } => Self::first_error(
                cstring_spec(source),
                Ok(source),
            ),
            FsCallView::Write { host, guest, .. } => Self::first_error(
                cstring_spec(host),
                cstring_spec(guest),
            ),
            FsCallView::Mkdir { name, .. } => Self::first_error(cstring_spec(name), Ok(name)),
            FsCallView::Symlink { name, target, .. } => Self::first_error(
                cstring_spec(name),
                cstring_spec(target),
            ),
            FsCallView::Link { name, .. } => Self::first_error(cstring_spec(name), Ok(name)),
            _ => None,
        }
    }
}

/// Checks one string; the error if it cannot cross into C.
fn refuse(s: &str) -> (r: Option<Error>)
    ensures
        opt_error(r) == FsCallView::first_error(cstring_spec(s@), Ok(s@)),
{
    match to_cstring(s) {
        Ok(_) => None,
        Err(e) => Some(e),
    }
}

/// Checks two strings in order; the first error.
fn refuse_either(a: &str, b: &str) -> (r: Option<Error>)
    ensures
        opt_error(r) == FsCallView::first_error(cstring_spec(a@), cstring_spec(b@)),
{
    match to_cstring(a) {
        Err(e) => Some(e),
        Ok(_) => match to_cstring(b) {
            Err(e) => Some(e),
            Ok(_) => None,
        },
    }
}

impl FsCall {
    /// The stable name of the operation, as errors carry it.
    pub fn op(&self) -> (name: &'static str)
        ensures
            name@ == self@.op(),
    {
        match self {
            FsCall::Initialize { .. } => "ext2fs_initialize",
            FsCall::AllocateTables => "ext2fs_allocate_tables",
            FsCall::Open { .. } => "ext2fs_open",
            FsCall::Populate { .. } => "populate_fs",
            FsCall::Flush => "ext2fs_flush",
            FsCall::Write { .. } => "do_write_internal",
            FsCall::Mkdir { .. } => "do_mkdir_internal",
            FsCall::Symlink { .. } => "do_symlink_internal",
            FsCall::AddJournal { .. } => "ext2fs_add_journal_inode",
            FsCall::Link { .. } => "ext2fs_link",
            FsCall::ReadInode { .. } => "ext2fs_read_inode",
            FsCall::WriteInode { .. } => "ext2fs_write_inode",
            FsCall::WriteNewInode { .. } => "ext2fs_write_new_inode",
            FsCall::NewInode { .. } => "ext2fs_new_inode",
            FsCall::NewBlock { .. } => "ext2fs_new_block2",
            FsCall::Close => "ext2fs_close",
        }
    }

    /// Checks that the call's strings can cross into C.
    pub fn validate(&self) -> (r: Option<Error>)
        ensures
            opt_error(r) == self@.invalid(),
    {
        match self {
            FsCall::Initialize { path, .. } => refuse(path.as_str()),
            FsCall::Open { path, .. } => refuse(path.as_str()),
            FsCall::Populate { source, .. } => refuse(source.as_str()),
            FsCall::Write { host, guest, .. } => refuse_either(host.as_str(), guest.as_str()),
            FsCall::Mkdir { name, .. } => refuse(name.as_str()),
            FsCall::Symlink { name, target, .. } => refuse_either(name.as_str(), target.as_str()),
            FsCall::Link { name, .. } => refuse(name.as_str()),
            _ => None,
        }
    }

    /// A copy of the call.
    fn copy(&self) -> (c: Self)
        ensures
            c@ == self@,
    {
        match self {
            FsCall::Initialize { path, flags, params } => FsCall::Initialize {
                path: path.clone(),
                flags: *flags,
                params: *params,
            },
            FsCall::AllocateTables => FsCall::AllocateTables,
            FsCall::Open { path, flags } => FsCall::Open { path: path.clone(), flags: *flags },
            FsCall::Populate { parent, source, root } => FsCall::Populate {
                parent: *parent,
                source: source.clone(),
                root: *root,
            },
            FsCall::Flush => FsCall::Flush,
            FsCall::Write { cwd, host, guest, root } => FsCall::Write {
                cwd: *cwd,
                host: host.clone(),
                guest: guest.clone(),
                root: *root,
            },
            FsCall::Mkdir { cwd, name, root } => FsCall::Mkdir {
                cwd: *cwd,
                name: name.clone(),
                root: *root,
            },
            FsCall::Symlink { cwd, name, target, root } => FsCall::Symlink {
                cwd: *cwd,
                name: name.clone(),
                target: target.clone(),
                root: *root,
            },
            FsCall::AddJournal { blocks, flags } => FsCall::AddJournal {
                blocks: *blocks,
                flags: *flags,
            },
            FsCall::Link { dir, name, ino, file_type } => FsCall::Link {
                dir: *dir,
                name: name.clone(),
                ino: *ino,
                file_type: *file_type,
            },
            FsCall::ReadInode { ino } => FsCall::ReadInode { ino: *ino },
            FsCall::WriteInode { ino } => FsCall::WriteInode { ino: *ino },
            FsCall::WriteNewInode { ino } => FsCall::WriteNewInode { ino: *ino },
            FsCall::NewInode { dir, mode, is_dir } => FsCall::NewInode {
                dir: *dir,
                mode: *mode,
                is_dir: *is_dir,
            },
            FsCall::NewBlock { goal } => FsCall::NewBlock { goal: *goal },
            FsCall::Close => FsCall::Close,
        }
    }
}

/// A series of calls on one filesystem, and how far it has come.
///
/// The calls are made in order. The first one that fails ends the series.
/// Whenever the series ends while a filesystem handle is held, one more
/// call, `Close`, releases it.
#[derive(Debug, Clone, PartialEq, Eq)]
pub struct Filesystem {
    /// The calls to make, in order.
    pub calls: Vec<FsCall>,
    /// How many of them have succeeded.
    pub next: usize,
    /// Whether a filesystem handle is held.
    pub open: bool,
    /// The error that ended the series, if one did.
    pub error: Option<Error>,
}

/// Mathematical value of a [`Filesystem`].
pub struct FilesystemView {
    pub calls: Seq<FsCallView>,
    pub next: nat,
    pub open: bool,
    pub error: Option<ErrorView>,
}

impl View for Filesystem {
    type V = FilesystemView;

    open spec fn view(&self) -> FilesystemView {
        FilesystemView {
            calls: calls_of(self.calls@),
            next: self.next as nat,
            open: self.open,
            error: opt_error(self.error),
        }
    }
}

impl FilesystemView {
    /// A series that has made no call yet.
    pub open spec fn plan(calls: Seq<FsCallView>) -> Self {
        FilesystemView { calls, next: 0, open: false, error: None }
    }

    /// Whether a call of the series is due.
    pub open spec fn pending(self) -> bool {
        self.error is None && self.next < self.calls.len()
    }

    /// The series with the strings of the call that is due checked: if one
    /// cannot cross into C, the series ends with that error.
    pub open spec fn checked(self) -> Self {
        if self.pending() {
            match self.calls[self.next as int].invalid() {
                Some(e) => FilesystemView { error: Some(e), ..self },
                None => self,
            }
        } else {
            self
        }
    }

    /// The call to make now: the one that is due; `Close` once the series
    /// has ended with a handle held; none when all is done.
    pub open spec fn current(self) -> Option<FsCallView> {
        if self.pending() {
            Some(self.calls[self.next as int])
        } else if self.open {
            Some(FsCallView::Close)
        } else {
            None
        }
    }

    /// The series after the current call has returned `code`.
    pub open spec fn returned(self, code: i64) -> Self {
        match self.current() {
            None => self,
            Some(FsCallView::Close) => FilesystemView {
                open: false,
                next: if self.pending() {
                    self.next + 1
                } else {
                    self.next
                },
                ..self
            },
            Some(call) => if code == 0 {
                FilesystemView { next: self.next + 1, open: self.open || call.opens(), ..self }
            } else {
                FilesystemView { error: Some(ErrorView::Ext2fs { op: call.op(), code }), ..self }
            },
        }
    }

    /// Whether nothing is left to do.
    pub open spec fn finished(self) -> bool {
        self.current() is None
    }

    /// The series after the current call has been checked, made, and has
    /// returned `code`.
    pub open spec fn turn(self, code: i64) -> Self {
        self.checked().returned(code)
    }

    /// The series after as many turns as there are codes.
    pub open spec fn run(self, codes: Seq<i64>) -> Self
        decreases codes.len(),
    {
        if codes.len() == 0 {
            self
        } else {
            self.run(codes.drop_last()).turn(codes.last())
        }
    }

    /// The calls of creating a filesystem: initialize it exclusively, then
    /// allocate its tables.
    pub open spec fn create(path: Seq<char>, size_bytes: u64, opts: CreateOptions) -> Seq<
        FsCallView,
    > {
        seq![
            FsCallView::Initialize {
                path,
                flags: FLAG_EXCLUSIVE,
                params: superblock_spec(size_bytes, opts),
            },
            FsCallView::AllocateTables,
        ]
    }

    /// The call that populates the root directory from a host directory.
    pub open spec fn populate(source: Seq<char>) -> FsCallView {
        FsCallView::Populate { parent: ROOT_INO, source, root: ROOT_INO }
    }

    /// The call that adds a journal of the library's choice of size.
    pub open spec fn add_journal() -> FsCallView {
        FsCallView::AddJournal { blocks: 0, flags: 0 }
    }

    /// The call that writes a host file into the image.
    pub open spec fn write_file(host: Seq<char>, guest: Seq<char>) -> FsCallView {
        FsCallView::Write { cwd: ROOT_INO, host, guest, root: ROOT_INO }
    }

    /// The series with one more call at its end.
    pub open spec fn with(self, call: FsCallView) -> Self {
        FilesystemView { calls: self.calls.push(call), ..self }
    }
}

impl Filesystem {
    /// Adds a call to the end of the series.
    fn push(&mut self, call: FsCall)
        ensures
            final(self)@ == old(self)@.with(call@),
    {
        proof {
            assert(calls_of(self.calls@.push(call)) =~= calls_of(self.calls@).push(call@));
        }
        self.calls.push(call);
    }

    /// Plans a new ext4 filesystem image at `path`: `size_bytes` in blocks
    /// of the chosen size, with the chosen share of them reserved.
    pub fn create(path: &str, size_bytes: u64, opts: &CreateOptions) -> (fs: Self)
        ensures
            fs@ == FilesystemView::plan(FilesystemView::create(path@, size_bytes, *opts)),
    {
        let mut calls: Vec<FsCall> = Vec::new();
        calls.push(
            FsCall::Initialize {
                path: path.to_owned(),
                flags: FLAG_EXCLUSIVE,
                params: superblock(size_bytes, opts),
            },
        );
        calls.push(FsCall::AllocateTables);
        let fs = Filesystem { calls, next: 0, open: false, error: None };
        assert(fs@.calls =~= FilesystemView::create(path@, size_bytes, *opts));
        fs
    }

    /// Plans opening an existing ext4 image for read-write operations.
    pub fn open(path: &str) -> (fs: Self)
        ensures
            fs@ == FilesystemView::plan(seq![FsCallView::Open { path: path@, flags: FLAG_RW }]),
    {
        let mut calls: Vec<FsCall> = Vec::new();
        calls.push(FsCall::Open { path: path.to_owned(), flags: FLAG_RW });
        let fs = Filesystem { calls, next: 0, open: false, error: None };
        assert(fs@.calls =~= seq![FsCallView::Open { path: path@, flags: FLAG_RW }]);
        fs
    }

    /// Populates the filesystem from a host directory: all files,
    /// directories, symlinks and permissions under `source_dir` go into the
    /// image root.
    pub fn populate(&mut self, source_dir: &str)
        ensures
            final(self)@ == old(self)@.with(FilesystemView::populate(source_dir@)),
    {
        self.push(
            FsCall::Populate { parent: ROOT_INO, source: source_dir.to_owned(), root: ROOT_INO },
        );
    }

    /// Flushes all pending changes to disk without closing the filesystem.
    pub fn flush(&mut self)
        ensures
            final(self)@ == old(self)@.with(FsCallView::Flush),
    {
        self.push(FsCall::Flush);
    }

    /// Writes a single host file into the filesystem image.
    pub fn write_file(&mut self, host_path: &str, guest_path: &str)
        ensures
            final(self)@ == old(self)@.with(FilesystemView::write_file(host_path@, guest_path@)),
    {
        self.push(
            FsCall::Write {
                cwd: ROOT_INO,
                host: host_path.to_owned(),
                guest: guest_path.to_owned(),
                root: ROOT_INO,
            },
        );
    }

    /// Creates a directory inside the filesystem image.
    pub fn mkdir(&mut self, name: &str)
        ensures
            final(self)@ == old(self)@.with(
                FsCallView::Mkdir { cwd: ROOT_INO, name: name@, root: ROOT_INO },
            ),
    {
        self.push(FsCall::Mkdir { cwd: ROOT_INO, name: name.to_owned(), root: ROOT_INO });
    }

    /// Creates a symlink inside the filesystem image.
    pub fn symlink(&mut self, name: &str, target: &str)
        ensures
            final(self)@ == old(self)@.with(
                FsCallView::Symlink { cwd: ROOT_INO, name: name@, target: target@, root: ROOT_INO },
            ),
    {
        self.push(
            FsCall::Symlink {
                cwd: ROOT_INO,
                name: name.to_owned(),
                target: target.to_owned(),
                root: ROOT_INO,
            },
        );
    }

    /// Adds a journal, its size chosen by the library.
    pub fn add_journal(&mut self)
        ensures
            final(self)@ == old(self)@.with(FilesystemView::add_journal()),
    {
        self.push(FsCall::AddJournal { blocks: 0, flags: 0 });
    }

    /// Creates a directory entry linking `name` to inode `ino` in directory
    /// `dir`.
    pub fn link(&mut self, dir: u32, name: &str, ino: u32, file_type: FileType)
        ensures
            final(self)@ == old(self)@.with(
                FsCallView::Link { dir, name: name@, ino, file_type: file_type.code_spec() },
            ),
    {
        self.push(FsCall::Link { dir, name: name.to_owned(), ino, file_type: file_type.code() });
    }

    /// Reads the on-disk inode structure for the given inode number.
    pub fn read_inode(&mut self, ino: u32)
        ensures
            final(self)@ == old(self)@.with(FsCallView::ReadInode { ino }),
    {
        self.push(FsCall::ReadInode { ino });
    }

    /// Writes the inode structure back to the filesystem.
    pub fn write_inode(&mut self, ino: u32)
        ensures
            final(self)@ == old(self)@.with(FsCallView::WriteInode { ino }),
    {
        self.push(FsCall::WriteInode { ino });
    }

    /// Writes a freshly allocated inode (initializes the on-disk slot).
    pub fn write_new_inode(&mut self, ino: u32)
        ensures
            final(self)@ == old(self)@.with(FsCallView::WriteNewInode { ino }),
    {
        self.push(FsCall::WriteNewInode { ino });
    }

    /// Allocates a new inode number near `dir` with the given POSIX `mode`.
    /// The inode is accounted as a directory when the mode has the
    /// directory bit.
    pub fn alloc_inode(&mut self, dir: u32, mode: u16)
        ensures
            final(self)@ == old(self)@.with(
                FsCallView::NewInode { dir, mode: mode as i32, is_dir: mode & MODE_DIR != 0 },
            ),
    {
        self.push(FsCall::NewInode { dir, mode: mode as i32, is_dir: is_dir_mode(mode) });
    }

    /// Allocates a new block near `goal`.
    pub fn alloc_block(&mut self, goal: u64)
        ensures
            final(self)@ == old(self)@.with(FsCallView::NewBlock { goal }),
    {
        self.push(FsCall::NewBlock { goal });
    }

    /// Names the call to make now, after checking its strings. A string
    /// with a NUL byte ends the series with `InvalidPath` before the call
    /// is made. `None` means that nothing is left to do.
    pub fn call(&mut self) -> (call: Option<FsCall>)
        ensures
            final(self)@ == old(self)@.checked(),
            match call {
                Some(c) => final(self)@.current() == Some(c@),
                None => final(self)@.current() is None,
            },
    {
        if self.error.is_none() && self.next < self.calls.len() {
            assert(self@.calls[self.next as int] == self.calls@[self.next as int]@);
            match self.calls[self.next].validate() {
                Some(e) => {
                    self.error = Some(e);
                },
                None => {
                    return Some(self.calls[self.next].copy());
                },
            }
        }
        if self.open {
            Some(FsCall::Close)
        } else {
            None
        }
    }

    /// Takes the result code of the call that was made.
    ///
    /// Zero moves the series on; after `Initialize` or `Open` a handle is
    /// held. Any other code ends the series with `Ext2fs`, tagged with the
    /// operation's name. The code of `Close` is not looked at: the handle
    /// is gone either way.
    pub fn returned(&mut self, code: i64)
        ensures
            final(self)@ == old(self)@.returned(code),
    {
        if self.error.is_none() && self.next < self.calls.len() {
            assert(self@.calls[self.next as int] == self.calls@[self.next as int]@);
            match &self.calls[self.next] {
                FsCall::Close => {
                    self.open = false;
                    self.next = self.next + 1;
                },
                FsCall::Initialize { .. } => {
                    if code == 0 {
                        self.open = true;
                        self.next = self.next + 1;
                    } else {
                        self.error = Some(Error::Ext2fs { op: "ext2fs_initialize", code });
                    }
                },
                FsCall::Open { .. } => {
                    if code == 0 {
                        self.open = true;
                        self.next = self.next + 1;
                    } else {
                        self.error = Some(Error::Ext2fs { op: "ext2fs_open", code });
                    }
                },
                other => {
                    if code == 0 {
                        self.next = self.next + 1;
                    } else {
                        let op = other.op();
                        self.error = Some(Error::Ext2fs { op, code });
                    }
                },
            }
        } else if self.open {
            self.open = false;
        }
    }

    /// How the series went, once nothing is left to do: `Ok` when every
    /// call succeeded, else the error that ended it.
    pub fn result(&self) -> (r: Result<(), Error>)
        ensures
            match r {
                Ok(_) => self@.error is None,
                Err(e) => self@.error == Some(e@),
            },
    {
        match &self.error {
            None => Ok(()),
            Some(Error::Ext2fs { op, code }) => Err(Error::Ext2fs { op: *op, code: *code }),
            Some(Error::InvalidPath(msg)) => Err(Error::InvalidPath(msg.clone())),
            Some(Error::Io(msg)) => Err(Error::Io(msg.clone())),
        }
    }
}

/// Plans an ext4 image populated from a host directory: create it with the
/// default options, populate it, add a journal.
pub fn create_from_dir(source_dir: &str, output: &str, size_bytes: u64) -> (fs: Filesystem)
    ensures
        fs@ == FilesystemView::plan(
            FilesystemView::create(
                output@,
                size_bytes,
                CreateOptions { block_size: BlockSize::B4096, reserved_ratio: 0 },
            ),
        ).with(FilesystemView::populate(source_dir@)).with(FilesystemView::add_journal()),
{
    let opts = CreateOptions { block_size: BlockSize::B4096, reserved_ratio: 0 };
    let mut fs = Filesystem::create(output, size_bytes, &opts);
    fs.populate(source_dir);
    fs.add_journal();
    fs
}

/// Plans the injection of a single host file into an existing ext4 image.
pub fn inject_file(image: &str, host_file: &str, guest_path: &str) -> (fs: Filesystem)
    ensures
        fs@ == FilesystemView::plan(seq![FsCallView::Open { path: image@, flags: FLAG_RW }]).with(
            FilesystemView::write_file(host_file@, guest_path@),
        ),
{
    let mut fs = Filesystem::open(image);
    fs.write_file(host_file, guest_path);
    fs
}

/// A handle is held only between an `Initialize` or `Open` that succeeded
/// and the `Close` that follows: a series that starts without a handle and
/// has nothing left to do holds none, whatever the calls returned. And once
/// an error has ended the series, the only call still made is `Close`.
pub proof fn lemma_handle_released(calls: Seq<FsCallView>, codes: Seq<i64>)
    ensures
        ({
            let fs = FilesystemView::plan(calls).run(codes).checked();
            &&& fs.finished() ==> !fs.open
            &&& fs.error is Some ==> fs.current() is None || fs.current() == Some(
                FsCallView::Close,
            )
            &&& fs.open ==> fs.next > 0
        }),
    decreases codes.len(),
{
    if codes.len() > 0 {
        lemma_handle_released(calls, codes.drop_last());
    }
}

/// Smallest image that is ever recommended (256 MiB).
pub const MIN_IMAGE: u64 = 256 * 1024 * 1024;

/// Longest symlink target that is stored in the inode itself.
pub const INLINE_TARGET: u64 = 60;

/// What an entry of a directory tree is.
#[derive(Debug, Clone, Copy, PartialEq, Eq, Structural)]
pub enum EntryKind {
    /// A regular file.
    File,
    /// A directory.
    Dir,
    /// A symbolic link.
    Symlink,
    /// Anything else: a device, a socket, a FIFO.
    Other,
}

/// The metadata of one entry of a directory tree, not following symlinks.
#[derive(Debug, Clone, Copy, PartialEq, Eq, Structural)]
pub struct Entry {
    /// What the entry is.
    pub kind: EntryKind,
    /// Its length in bytes: of the contents, or of a symlink's target.
    pub len: u64,
}

/// A length rounded up to whole blocks.
pub open spec fn rounded(len: nat) -> nat {
    (len + 4095) / 4096 * 4096
}

/// The data blocks an entry needs, in bytes: a file its length rounded up,
/// a directory one block, a symlink one block unless its target fits in the
/// inode.
pub open spec fn content(e: Entry) -> nat {
    match e.kind {
        EntryKind::File => rounded(e.len as nat),
        EntryKind::Dir => 4096,
        EntryKind::Symlink => if e.len > 60 {
            4096
        } else {
            0
        },
        EntryKind::Other => 0,
    }
}

/// The data blocks of all entries, in bytes.
pub open spec fn content_total(entries: Seq<Entry>) -> nat
    decreases entries.len(),
{
    if entries.len() == 0 {
        0
    } else {
        content_total(entries.drop_last()) + content(entries.last())
    }
}

/// The lengths of the regular files, each rounded up to whole blocks.
pub open spec fn files_total(entries: Seq<Entry>) -> nat
    decreases entries.len(),
{
    if entries.len() == 0 {
        0
    } else {
        files_total(entries.drop_last()) + if entries.last().kind == EntryKind::File {
            rounded(entries.last().len as nat)
        } else {
            0
        }
    }
}

/// The recommended image size for a tree with these entries: data blocks
/// plus 256 bytes per inode, a tenth on top for metadata, plus the journal;
/// at least 256 MiB.
pub open spec fn image_size(entries: Seq<Entry>) -> nat {
    let raw = content_total(entries) + entries.len() * 256;
    let sized = raw * 11 / 10 + 64 * 1024 * 1024;
    if sized < 256 * 1024 * 1024 {
        256 * 1024 * 1024
    } else {
        sized
    }
}

/// The estimate is at least 256 MiB, and strictly larger than the sum of
/// the file lengths rounded up to 4 KiB.
pub proof fn lemma_estimate_bounds(entries: Seq<Entry>)
    ensures
        image_size(entries) >= MIN_IMAGE,
        image_size(entries) > files_total(entries),
        image_size(entries) > content_total(entries),
        files_total(entries) <= content_total(entries),
    decreases entries.len(),
{
    if entries.len() > 0 {
        lemma_estimate_bounds(entries.drop_last());
    }
}

/// An entry never lowers the total.
proof fn lemma_content_grows(entries: Seq<Entry>, i: int)
    requires
        0 <= i <= entries.len(),
    ensures
        content_total(entries.take(i)) <= content_total(entries),
    decreases entries.len() - i,
{
    if i < entries.len() {
        lemma_content_grows(entries, i + 1);
        assert(entries.take(i + 1).drop_last() =~= entries.take(i));
    } else {
        assert(entries.take(i) =~= entries);
    }
}

/// Estimates the required image size for a directory tree, given the
/// metadata of every entry below its root.
///
/// Accounts for file content, inode overhead, ext4 metadata, and journal.
/// Returns the recommended image size in bytes (minimum 256 MiB), or `None`
/// when that size does not fit in 64 bits.
pub fn estimate_image_size(entries: &Vec<Entry>) -> (size: Option<u64>)
    ensures
        match size {
            Some(n) => n == image_size(entries@),
            None => image_size(entries@) > u64::MAX,
        },
{
    let mut total: u128 = 0;
    let mut i: usize = 0;
    assert(entries@.take(0) =~= Seq::empty());
    while i < entries.len()
        invariant
            i <= entries.len(),
            total == content_total(entries@.take(i as int)),
            total <= u64::MAX,
        decreases entries.len() - i,
    {
        let e = entries[i];
        proof {
            assert(entries@.take(i + 1).drop_last() =~= entries@.take(i as int));
            assert(entries@.take(i + 1).last() == e);
        }
        let add: u128 = match e.kind {
            EntryKind::File => (e.len as u128 + 4095) / 4096 * 4096,
            EntryKind::Dir => 4096,
            EntryKind::Symlink => if e.len > INLINE_TARGET {
                4096
            } else {
                0
            },
            EntryKind::Other => 0,
        };
        total = total + add;
        if total > u64::MAX as u128 {
            proof {
                lemma_content_grows(entries@, i + 1);
            }
            return None;
        }
        i += 1;
    }
    assert(entries@.take(entries.len() as int) =~= entries@);
    let raw: u128 = total + (entries.len() as u128) * 256;
    let sized: u128 = raw * 11 / 10 + 64 * 1024 * 1024;
    if sized > u64::MAX as u128 {
        None
    } else if sized < MIN_IMAGE as u128 {
        Some(MIN_IMAGE)
    } else {
        Some(sized as u64)
    }
}

} // verus!
