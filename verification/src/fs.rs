//! The file system that an image may carry behind the program: a FAT volume
//! that holds a copy of a directory tree.
//!
//! The caller walks the tree and hands over what it found. The volume is as
//! large as the files need, and `fatfs` formats and fills it in memory.
//!
//! `fatfs` is built without its `chrono` feature: it then reads no clock and
//! stamps every entry with the first date that a FAT volume can hold. So the
//! same entries always give the same volume, byte for byte.

use vstd::prelude::*;

verus! {

/// Minimum number of bytes reserved for FAT
pub const RESERVED_BYTES: usize = 128 * 1024;

/// The unit in which the volume gives room to a file.
pub const SECTOR_SIZE: usize = 512;

/// What stops the making of a file system.
#[derive(Debug)]
pub enum FSError {
    /// `fatfs` could not format the volume, or could not write to it.
    IOError(std::io::Error),
}

impl FSError {
    /// What the error says of itself. What the cause says is left to it.
    pub open spec fn message(&self) -> Seq<char> {
        match self {
            FSError::IOError(_) => "IO Error"@,
        }
    }

    /// What the error says of itself.
    pub fn to_string(&self) -> (text: String)
        ensures
            text@ == self.message(),
    {
        match self {
            FSError::IOError(_) => "IO Error".to_owned(),
        }
    }
}

/// One entry of the directory tree, in the order in which the tree is walked.
#[derive(Debug)]
pub struct Entry {
    /// The path of the entry below the root of the tree, with `/` between
    /// its parts.
    pub name: String,
    /// The bytes of a file; `None` for a directory.
    pub contents: Option<Vec<u8>>,
}

/// The room that a file of `len` bytes takes: whole sectors.
pub open spec fn rounded_size(len: int) -> int {
    (len + SECTOR_SIZE - 1) / (SECTOR_SIZE as int) * SECTOR_SIZE
}

impl Entry {
    /// The room that the entry takes in the volume. A directory takes none.
    pub open spec fn room(&self) -> int {
        match self.contents {
            Some(bytes) => rounded_size(bytes@.len() as int),
            None => 0,
        }
    }
}

/// The room that the first `n` entries take together.
pub open spec fn files_size(entries: Seq<Entry>, n: int) -> int
    decreases n,
{
    if n <= 0 {
        0
    } else {
        files_size(entries, n - 1) + entries[n - 1].room()
    }
}

/// The size of the volume that holds the entries: the room of the files,
/// and `RESERVED_BYTES` for the file system itself.
pub open spec fn required_size(entries: Seq<Entry>) -> int {
    RESERVED_BYTES + files_size(entries, entries.len() as int)
}

/// The room of a file is a whole number of sectors, and holds the file.
pub proof fn lemma_rounded_size(len: int)
    requires
        len >= 0,
    ensures
        rounded_size(len) % (SECTOR_SIZE as int) == 0,
        len <= rounded_size(len) < len + SECTOR_SIZE,
{
}

/// The size of a volume is a whole number of sectors, and so of words, and
/// is not below what is reserved.
pub proof fn lemma_required_size(entries: Seq<Entry>)
    ensures
        required_size(entries) % (SECTOR_SIZE as int) == 0,
        required_size(entries) % 4 == 0,
        required_size(entries) >= RESERVED_BYTES,
{
    lemma_files_size(entries, entries.len() as int);
}

/// The room of the first `n` entries is a whole number of sectors.
pub proof fn lemma_files_size(entries: Seq<Entry>, n: int)
    ensures
        files_size(entries, n) % (SECTOR_SIZE as int) == 0,
        files_size(entries, n) >= 0,
    decreases n,
{
    if n > 0 {
        lemma_files_size(entries, n - 1);
    }
}

/// The volume that `fatfs` makes of `volume` by formatting it with the
/// volume label `label`; `None` where `fatfs` refuses.
pub uninterp spec fn formatted(volume: Seq<u8>, label: Seq<u8>) -> Option<Seq<u8>>;

/// The volume that `fatfs` makes of `volume` by creating the directory
/// `path` in it; `None` where `fatfs` refuses.
pub uninterp spec fn with_dir(volume: Seq<u8>, path: Seq<char>) -> Option<Seq<u8>>;

/// The volume that `fatfs` makes of `volume` by creating the file `path` in
/// it and writing `contents` to the file; `None` where `fatfs` refuses.
pub uninterp spec fn with_file(volume: Seq<u8>, path: Seq<char>, contents: Seq<u8>) -> Option<
    Seq<u8>,
>;

/// A FAT volume in memory, as `fatfs` left it. The bytes are private: only
/// `format_volume` makes a volume, and a call that fails keeps its volume to
/// itself. So every volume at hand was formatted by `fatfs` and changed by
/// nothing but calls that `fatfs` finished without an error.
pub struct Volume {
    bytes: Vec<u8>,
}

/// The bytes of a volume.
pub closed spec fn volume_bytes(volume: Volume) -> Seq<u8> {
    volume.bytes@
}

/// `fatfs::format_volume` on `bytes`, with `label` as the volume label and
/// everything else as `fatfs` chooses it. Without a clock the outcome
/// depends on the bytes and the label alone and is given the name
/// `formatted`. `fatfs` writes through a cursor over the slice, which cannot
/// grow or shrink, so the length stays. Nothing else is claimed.
#[verifier::external_body]
fn format_volume(bytes: Vec<u8>, label: [u8; 11]) -> (done: Result<Volume, std::io::Error>)
    ensures
        match formatted(bytes@, label@) {
            Some(made) => done matches Ok(volume) && volume_bytes(volume) == made,
            None => done is Err,
        },
        done matches Ok(volume) ==> volume_bytes(volume).len() == bytes@.len(),
{
    let mut bytes = bytes;
    let options = fatfs::FormatVolumeOptions::new().volume_label(label);
    fatfs::format_volume(std::io::Cursor::new(bytes.as_mut_slice()), options)?;
    Ok(Volume { bytes })
}

/// `fatfs::Dir::create_dir` on the root directory of the volume, which is
/// mounted for the call with `fatfs::FileSystem::new` and unmounted after
/// it. Without a clock the outcome depends on the bytes and the path alone
/// and is given the name `with_dir`. The same cursor over the slice keeps
/// the length. Nothing else is claimed.
#[verifier::external_body]
fn create_dir(volume: Volume, path: &str) -> (done: Result<Volume, std::io::Error>)
    ensures
        match with_dir(volume_bytes(volume), path@) {
            Some(made) => done matches Ok(next) && volume_bytes(next) == made,
            None => done is Err,
        },
        done matches Ok(next) ==> volume_bytes(next).len() == volume_bytes(volume).len(),
{
    let mut volume = volume;
    let stream = std::io::Cursor::new(volume.bytes.as_mut_slice());
    let disk = fatfs::FileSystem::new(stream, fatfs::FsOptions::new())?;
    disk.root_dir().create_dir(path)?;
    disk.unmount()?;
    Ok(volume)
}

/// `fatfs::Dir::create_file` on the root directory of the volume, and
/// `write_all` of `contents` to the file. The volume is mounted for the call
/// with `fatfs::FileSystem::new` and unmounted after it. Without a clock the
/// outcome depends on the bytes, the path and the contents alone and is
/// given the name `with_file`. The same cursor over the slice keeps the
/// length. Nothing else is claimed.
#[verifier::external_body]
fn create_file(volume: Volume, path: &str, contents: &[u8]) -> (done: Result<
    Volume,
    std::io::Error,
>)
    ensures
        match with_file(volume_bytes(volume), path@, contents@) {
            Some(made) => done matches Ok(next) && volume_bytes(next) == made,
            None => done is Err,
        },
        done matches Ok(next) ==> volume_bytes(next).len() == volume_bytes(volume).len(),
{
    let mut volume = volume;
    let stream = std::io::Cursor::new(volume.bytes.as_mut_slice());
    let disk = fatfs::FileSystem::new(stream, fatfs::FsOptions::new())?;
    std::io::Write::write_all(&mut disk.root_dir().create_file(path)?, contents)?;
    disk.unmount()?;
    Ok(volume)
}

/// Hands the bytes of a volume out.
fn into_bytes(volume: Volume) -> (bytes: Vec<u8>)
    ensures
        bytes@ == volume_bytes(volume),
{
    volume.bytes
}

impl Entry {
    /// The volume with the entry added: a directory is created, a file is
    /// created and written. `None` where `fatfs` refuses.
    pub open spec fn added_to(&self, volume: Seq<u8>) -> Option<Seq<u8>> {
        match self.contents {
            Some(bytes) => with_file(volume, self.name@, bytes@),
            None => with_dir(volume, self.name@),
        }
    }
}

/// The volume with the first `n` entries added one after the other; `None`
/// from the first entry on that `fatfs` refuses, and where there is no
/// volume to start with.
pub open spec fn filled(volume: Option<Seq<u8>>, entries: Seq<Entry>, n: int) -> Option<Seq<u8>>
    decreases n,
{
    if n <= 0 {
        volume
    } else {
        match filled(volume, entries, n - 1) {
            Some(so_far) => entries[n - 1].added_to(so_far),
            None => None,
        }
    }
}

/// The volume that holds the entries: `required_size` zero bytes, formatted
/// with the label `TECHNEKDISK`, and filled with the entries in their order.
/// `None` where `fatfs` refuses the volume or one of the entries.
pub open spec fn embedded(entries: Seq<Entry>) -> Option<Seq<u8>> {
    filled(
        formatted(Seq::new(required_size(entries) as nat, |i: int| 0u8), label()),
        entries,
        entries.len() as int,
    )
}

/// The label of the volume: `TECHNEKDISK`.
pub open spec fn label() -> Seq<u8> {
    seq![
        0x54u8,
        0x45u8,
        0x43u8,
        0x48u8,
        0x4eu8,
        0x45u8,
        0x4bu8,
        0x44u8,
        0x49u8,
        0x53u8,
        0x4bu8,
    ]
}

/// Once `fatfs` has refused an entry, there is no volume, however many
/// entries are counted.
pub proof fn lemma_filled_stops(volume: Option<Seq<u8>>, entries: Seq<Entry>, n: int, m: int)
    requires
        n <= m,
        filled(volume, entries, n) is None,
    ensures
        filled(volume, entries, m) is None,
    decreases m - n,
{
    if n < m {
        lemma_filled_stops(volume, entries, n, m - 1);
    }
}

/// The same entries give the same volume: whatever two makings of a file
/// system from them return, both fail, or both give the same bytes.
pub proof fn lemma_filesystem_deterministic(
    first: Result<Vec<u8>, FSError>,
    second: Result<Vec<u8>, FSError>,
    entries: Seq<Entry>,
)
    requires
        is_filesystem(first, entries),
        is_filesystem(second, entries),
    ensures
        first is Ok <==> second is Ok,
        first matches Ok(volume) ==> second matches Ok(other) && volume@ == other@,
{
}

/// Whether `created` is what the making of a file system from the entries
/// gives: the volume that holds them, or an error where `fatfs` refuses.
pub open spec fn is_filesystem(created: Result<Vec<u8>, FSError>, entries: Seq<Entry>) -> bool {
    match embedded(entries) {
        Some(made) => created matches Ok(volume) && volume@ == made,
        None => created is Err,
    }
}

/// The label of the volume: `TECHNEKDISK`.
pub fn volume_label() -> (bytes: [u8; 11])
    ensures
        bytes@ == label(),
{
    [0x54, 0x45, 0x43, 0x48, 0x4e, 0x45, 0x4b, 0x44, 0x49, 0x53, 0x4b]
}

/// Compute the required volume size
///
/// `None` where the size is more than a vector can hold: `isize::MAX`
/// bytes.
pub fn volume_size(entries: &[Entry]) -> (size: Option<usize>)
    ensures
        match size {
            Some(size) => size == required_size(entries@) && size <= isize::MAX,
            None => required_size(entries@) > isize::MAX,
        },
{
    let mut size: usize = RESERVED_BYTES;
    let mut i: usize = 0;
    while i < entries.len()
        invariant
            i <= entries@.len(),
            size == RESERVED_BYTES + files_size(entries@, i as int),
            size <= isize::MAX,
        decreases entries@.len() - i,
    {
        proof {
            lemma_files_size(entries@, entries@.len() as int - (i + 1));
            lemma_files_grow(entries@, i + 1, entries@.len() as int);
        }
        match &entries[i].contents {
            Some(bytes) => {
                let len = bytes.len();
                if len > isize::MAX as usize - (SECTOR_SIZE - 1) {
                    return None;
                }
                let room = (len + (SECTOR_SIZE - 1)) / SECTOR_SIZE * SECTOR_SIZE;
                if room > isize::MAX as usize - size {
                    return None;
                }
                size = size + room;
            },
            None => {},
        }
        i += 1;
    }
    Some(size)
}

/// The room of the entries never shrinks as more of them are counted.
pub proof fn lemma_files_grow(entries: Seq<Entry>, n: int, m: int)
    requires
        n <= m,
    ensures
        files_size(entries, n) <= files_size(entries, m),
    decreases m - n,
{
    if n < m {
        lemma_files_grow(entries, n, m - 1);
        if m > 0 {
            assert(entries[m - 1].room() >= 0);
        }
    }
}

/// Makes the volume that holds the entries: formats `required_size` zero
/// bytes, and creates the directories and the files in the order of the
/// entries, each file with its contents.
///
/// The result is the volume `embedded(entries)` wherever `fatfs` takes the
/// volume and every entry, and an error as soon as it refuses one. A volume
/// has the required size, which is a whole number of words.
pub fn create_filesystem(entries: &[Entry]) -> (created: Result<Vec<u8>, FSError>)
    requires
        required_size(entries@) <= isize::MAX,
    ensures
        is_filesystem(created, entries@),
        created matches Ok(volume) ==> volume@.len() == required_size(entries@) && volume@.len()
            % 4 == 0,
{
    proof {
        lemma_required_size(entries@);
    }
    let ghost blank = Seq::new(required_size(entries@) as nat, |i: int| 0u8);
    let ghost start = formatted(blank, label());
    // Compute the required volume size
    let size = match volume_size(entries) {
        Some(size) => size,
        None => vstd::pervasive::unreached(),
    };

    // Create a new in-memory volume
    let bytes: Vec<u8> = vec![0u8; size];
    assert(bytes@ =~= blank);
    let mut volume = match format_volume(bytes, volume_label()) {
        Ok(volume) => volume,
        Err(e) => {
            proof {
                lemma_filled_stops(start, entries@, 0, entries@.len() as int);
            }
            return Err(FSError::IOError(e));
        },
    };

    // Copy file contents and create directories.
    let mut i: usize = 0;
    while i < entries.len()
        invariant
            i <= entries@.len(),
            volume_bytes(volume).len() == required_size(entries@),
            embedded(entries@) == filled(start, entries@, entries@.len() as int),
            filled(start, entries@, i as int) == Some(volume_bytes(volume)),
        decreases entries@.len() - i,
    {
        let entry = &entries[i];
        assert(filled(start, entries@, i + 1) == entries@[i as int].added_to(volume_bytes(volume)));
        let copied = match &entry.contents {
            None => create_dir(volume, entry.name.as_str()),
            Some(bytes) => create_file(volume, entry.name.as_str(), bytes.as_slice()),
        };
        volume = match copied {
            Ok(next) => next,
            Err(e) => {
                proof {
                    lemma_filled_stops(start, entries@, i + 1, entries@.len() as int);
                }
                return Err(FSError::IOError(e));
            },
        };
        i += 1;
    }
    Ok(into_bytes(volume))
}

} // verus!
