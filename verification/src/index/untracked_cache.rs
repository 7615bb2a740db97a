//! The extension of the index that remembers which files of the working
//! tree are untracked, directory by directory.

use crate::bstring::bstring_bytes;
use crate::bstring::bstring_from;
use crate::bstring::texts;
use crate::bytes::lemma_first_index;
use crate::hash::id_bytes;
use crate::hash::hash_len_in_bytes;
use crate::hash::id_from_slice;
use crate::hash::id_is_null;
use crate::hash::null_bytes;
use crate::hash::SHA1_LEN;
use crate::index::util::be_u32;
use crate::index::util::delimiter;
use crate::index::util::lemma_var_int_more;
use crate::index::util::read_u32;
use crate::index::util::split_at_byte_exclusive;
use crate::index::util::split_at_pos;
use crate::index::util::var_int;
use crate::index::util::var_int_at;
use bstr::BString;
use git_hash::ObjectId;
use vstd::prelude::*;

verus! {

/// The signature of the extension: the bytes of `UNTR`.
pub const SIGNATURE: [u8; 4] = [85, 78, 84, 82];

/// The number of bytes of the nine numbers that an `OidStat` begins with.
pub const STAT_LEN: usize = 36;

/// A point in time: seconds since the epoch, and nanoseconds.
#[derive(Clone, Copy, Debug, PartialEq, Eq, Structural)]
pub struct Time {
    pub secs: u32,
    pub nsecs: u32,
}

/// What was known of a file of exclude patterns when the cache was written.
pub struct OidStat {
    pub mtime: Time,
    pub ctime: Time,
    pub dev: u32,
    pub ino: u32,
    pub uid: u32,
    pub gid: u32,
    /// The size in bytes on disk, capped to 32 bits.
    pub size: u32,
    pub id: ObjectId,
}

/// An `OidStat` as a mathematical value.
pub ghost struct OidStatView {
    pub mtime: Time,
    pub ctime: Time,
    pub dev: u32,
    pub ino: u32,
    pub uid: u32,
    pub gid: u32,
    pub size: u32,
    pub id: Seq<u8>,
}

impl View for OidStat {
    type V = OidStatView;

    open spec fn view(&self) -> OidStatView {
        OidStatView {
            mtime: self.mtime,
            ctime: self.ctime,
            dev: self.dev,
            ino: self.ino,
            uid: self.uid,
            gid: self.gid,
            size: self.size,
            id: id_bytes(self.id),
        }
    }
}

/// A directory with its untracked files, and its sub-directories.
pub struct Directory {
    /// The name of the directory, empty for the root.
    pub name: BString,
    /// The names of the untracked files and directories in it.
    pub untracked_entries: Vec<BString>,
    /// Where its sub-directories stand in the list that it is part of.
    pub sub_directories: Vec<usize>,
}

/// A `Directory` as a mathematical value.
pub ghost struct DirectoryView {
    pub name: Seq<u8>,
    pub untracked_entries: Seq<Seq<u8>>,
    pub sub_directories: Seq<usize>,
}

impl View for Directory {
    type V = DirectoryView;

    open spec fn view(&self) -> DirectoryView {
        DirectoryView {
            name: bstring_bytes(self.name),
            untracked_entries: texts(self.untracked_entries@),
            sub_directories: self.sub_directories@,
        }
    }
}

/// What each directory of a list is as a mathematical value.
pub open spec fn directory_views(list: Seq<Directory>) -> Seq<DirectoryView> {
    Seq::new(list.len(), |i: int| list[i]@)
}

/// The number at `at` in `s`, four bytes in big endian order.
pub open spec fn number_at(s: Seq<u8>, at: int) -> u32 {
    be_u32(s.skip(at)) as u32
}

/// The `OidStat` at the front of `s` and what follows it: nine numbers of
/// four bytes each, then a digest of `hash_len` bytes. The first two numbers
/// are stored as `mtime`, the next two as `ctime`.
pub open spec fn oid_stat(s: Seq<u8>, hash_len: int) -> Option<(OidStatView, Seq<u8>)> {
    if s.len() < STAT_LEN + hash_len {
        None
    } else {
        Some(
            (
                OidStatView {
                    mtime: Time { secs: number_at(s, 0), nsecs: number_at(s, 4) },
                    ctime: Time { secs: number_at(s, 8), nsecs: number_at(s, 12) },
                    dev: number_at(s, 16),
                    ino: number_at(s, 20),
                    uid: number_at(s, 24),
                    gid: number_at(s, 28),
                    size: number_at(s, 32),
                    id: s.subrange(STAT_LEN as int, STAT_LEN + hash_len),
                },
                s.skip(STAT_LEN + hash_len),
            ),
        )
    }
}

/// The number at the front of what is left of `data` after `at` bytes, and
/// what is left after it.
fn read_number<'a>(data: &'a [u8], rest: &'a [u8], at: usize) -> (parts: Option<(u32, &'a [u8])>)
    requires
        at <= data@.len(),
        rest@ == data@.skip(at as int),
    ensures
        match parts {
            Some((number, after)) => {
                &&& at + 4 <= data@.len()
                &&& number == number_at(data@, at as int)
                &&& after@ == data@.skip(at + 4)
            },
            None => at + 4 > data@.len(),
        },
{
    match read_u32(rest) {
        Some((number, after)) => {
            assert(after@ =~= data@.skip(at + 4));
            Some((number, after))
        },
        None => None,
    }
}

/// Reads an `OidStat` from the front of `data`. Fails exactly if `data` is
/// shorter than the nine numbers and the digest.
pub fn decode_oid_stat<'a>(data: &'a [u8], hash_len: usize) -> (parts: Option<
    (OidStat, &'a [u8]),
>)
    requires
        hash_len == SHA1_LEN,
    ensures
        match parts {
            Some((stat, rest)) => oid_stat(data@, hash_len as int) == Some((stat@, rest@)),
            None => oid_stat(data@, hash_len as int) is None,
        },
{
    assert(data@.skip(0) =~= data@);
    let (mtime_secs, rest) = read_number(data, data, 0)?;
    let (mtime_nsecs, rest) = read_number(data, rest, 4)?;
    let (ctime_secs, rest) = read_number(data, rest, 8)?;
    let (ctime_nsecs, rest) = read_number(data, rest, 12)?;
    let (dev, rest) = read_number(data, rest, 16)?;
    let (ino, rest) = read_number(data, rest, 20)?;
    let (uid, rest) = read_number(data, rest, 24)?;
    let (gid, rest) = read_number(data, rest, 28)?;
    let (size, rest) = read_number(data, rest, 32)?;
    let (hash, rest) = split_at_pos(rest, hash_len)?;
    assert(hash@ =~= data@.subrange(STAT_LEN as int, STAT_LEN + hash_len));
    assert(rest@ =~= data@.skip(STAT_LEN + hash_len));
    Some(
        (
            OidStat {
                mtime: Time { secs: mtime_secs, nsecs: mtime_nsecs },
                ctime: Time { secs: ctime_secs, nsecs: ctime_nsecs },
                dev,
                ino,
                uid,
                gid,
                size,
                id: id_from_slice(hash),
            },
            rest,
        ),
    )
}

/// Reads `count` names, each ended by a zero byte, after those in `found`:
/// all the names and what follows the last. `None` if a name has no end.
pub open spec fn entries_from(s: Seq<u8>, count: nat, found: Seq<Seq<u8>>) -> Option<
    (Seq<Seq<u8>>, Seq<u8>),
>
    decreases count,
{
    if count == 0 {
        Some((found, s))
    } else {
        match delimiter(s, 0) {
            Some(at) => entries_from(s.skip(at + 1), (count - 1) as nat, found.push(s.take(at))),
            None => None,
        }
    }
}

/// What follows the names is no longer than what they were read from.
pub proof fn lemma_entries_from(s: Seq<u8>, count: nat, found: Seq<Seq<u8>>)
    ensures
        entries_from(s, count, found) matches Some((_, rest)) ==> rest.len() <= s.len(),
    decreases count,
{
    if count > 0 {
        lemma_first_index(s, 0);
        match delimiter(s, 0) {
            Some(at) => lemma_entries_from(s.skip(at + 1), (count - 1) as nat, found.push(s.take(at))),
            None => {},
        }
    }
}

/// Reads `count` names, each ended by a zero byte, from the front of `data`.
pub fn decode_entries<'a>(data: &'a [u8], count: u64) -> (parts: Option<(Vec<BString>, &'a [u8])>)
    ensures
        match parts {
            Some((entries, rest)) => entries_from(data@, count as nat, Seq::empty()) == Some(
                (texts(entries@), rest@),
            ),
            None => entries_from(data@, count as nat, Seq::empty()) is None,
        },
{
    let mut entries: Vec<BString> = Vec::new();
    let mut rest = data;
    let mut read: u64 = 0;
    assert(texts(entries@) =~= Seq::<Seq<u8>>::empty());
    while read < count
        invariant
            read <= count,
            entries_from(rest@, (count - read) as nat, texts(entries@)) == entries_from(
                data@,
                count as nat,
                Seq::empty(),
            ),
        decreases count - read,
    {
        match split_at_byte_exclusive(rest, 0) {
            Some((name, after)) => {
                let ghost before = texts(entries@);
                entries.push(bstring_from(name));
                assert(texts(entries@) =~= before.push(name@));
                rest = after;
            },
            None => {
                return None;
            },
        }
        read += 1;
    }
    Some((entries, rest))
}

/// What a block says of its directory before its sub-directories follow.
pub ghost struct BlockHead {
    /// The number of sub-directories.
    pub sub_directories: nat,
    /// The name of the directory.
    pub name: Seq<u8>,
    /// The names of its untracked entries.
    pub untracked_entries: Seq<Seq<u8>>,
    /// What follows: the blocks of the sub-directories.
    pub rest: Seq<u8>,
}

/// The head of the block at the front of `s`: the number of untracked
/// entries and the number of sub-directories, both of variable length, the
/// name of the directory, ended by a zero byte, and the names of the
/// entries.
pub open spec fn block_head(s: Seq<u8>) -> Option<BlockHead> {
    match var_int_at(s) {
        Some((untracked, counted)) => match var_int_at(s.skip(counted)) {
            Some((sub_directories, numbered)) => {
                let named = s.skip(counted).skip(numbered);
                match delimiter(named, 0) {
                    Some(at) => match entries_from(
                        named.skip(at + 1),
                        untracked as nat,
                        Seq::empty(),
                    ) {
                        Some((untracked_entries, rest)) => Some(
                            BlockHead {
                                sub_directories: sub_directories as nat,
                                name: named.take(at),
                                untracked_entries,
                                rest,
                            },
                        ),
                        None => None,
                    },
                    None => None,
                }
            },
            None => None,
        },
        None => None,
    }
}

/// The head of a block takes up at least one byte.
pub proof fn lemma_block_head(s: Seq<u8>)
    ensures
        block_head(s) matches Some(head) ==> head.rest.len() < s.len(),
{
    if let Some((untracked, counted)) = var_int_at(s) {
        if s[0] >= 128 {
            lemma_var_int_more(s, 1, (s[0] % 128) as int);
        }
        let numbers = s.skip(counted);
        if let Some((sub_directories, numbered)) = var_int_at(numbers) {
            if numbers[0] >= 128 {
                lemma_var_int_more(numbers, 1, (numbers[0] % 128) as int);
            }
            let named = numbers.skip(numbered);
            lemma_first_index(named, 0);
            if let Some(at) = delimiter(named, 0) {
                lemma_entries_from(named.skip(at + 1), untracked as nat, Seq::empty());
            }
        }
    }
}

/// The directories that the block at the front of `s` describes, and what
/// follows the block. The directory of the block comes first, then those
/// of the blocks of its sub-directories, each with all that are below it.
/// `base` is the place that the first directory takes in the list of all:
/// the places of sub-directories are counted from it.
pub open spec fn block(s: Seq<u8>, base: int) -> Option<(Seq<DirectoryView>, Seq<u8>)>
    decreases s.len(), 0nat,
{
    match block_head(s) {
        Some(head) => {
            proof {
                lemma_block_head(s);
            }
            match blocks_from(head.rest, base + 1, head.sub_directories, Seq::empty(), Seq::empty()) {
                Some((sub_directories, below, rest)) => Some(
                    (
                        seq![
                            DirectoryView {
                                name: head.name,
                                untracked_entries: head.untracked_entries,
                                sub_directories,
                            },
                        ] + below,
                        rest,
                    ),
                ),
                None => None,
            }
        },
        None => None,
    }
}

/// Reads `count` blocks, one after the other, after those that took the
/// places in `places` and described the directories in `below`: the places
/// that the first directory of each block takes, all the directories, and
/// what follows the last block. `base` is the place of the next directory.
/// A block that takes up no bytes does not exist, and ends the reading.
pub open spec fn blocks_from(
    s: Seq<u8>,
    base: int,
    count: nat,
    places: Seq<usize>,
    below: Seq<DirectoryView>,
) -> Option<(Seq<usize>, Seq<DirectoryView>, Seq<u8>)>
    decreases s.len(), count + 1,
{
    if count == 0 {
        Some((places, below, s))
    } else {
        match block(s, base) {
            Some((found, rest)) => if rest.len() < s.len() {
                blocks_from(
                    rest,
                    base + found.len(),
                    (count - 1) as nat,
                    places.push(base as usize),
                    below + found,
                )
            } else {
                None
            },
            None => None,
        }
    }
}

/// What follows a block is shorter than what the block was read from.
pub proof fn lemma_block(s: Seq<u8>, base: int)
    ensures
        block(s, base) matches Some((found, rest)) ==> rest.len() < s.len() && found.len() > 0,
{
    if let Some(head) = block_head(s) {
        lemma_block_head(s);
        lemma_blocks_from(head.rest, base + 1, head.sub_directories, Seq::empty(), Seq::empty());
    }
}

/// What follows a run of blocks is no longer than what they were read from.
pub proof fn lemma_blocks_from(
    s: Seq<u8>,
    base: int,
    count: nat,
    places: Seq<usize>,
    below: Seq<DirectoryView>,
)
    ensures
        blocks_from(s, base, count, places, below) matches Some((_, _, rest)) ==> rest.len()
            <= s.len(),
    decreases s.len(), count,
{
    if count > 0 {
        if let Some((found, rest)) = block(s, base) {
            if rest.len() < s.len() {
                lemma_blocks_from(
                    rest,
                    base + found.len(),
                    (count - 1) as nat,
                    places.push(base as usize),
                    below + found,
                );
            }
        }
    }
}

/// Notes at the directory in place `index` that the directory in place
/// `sub_directory` is one of its sub-directories.
fn add_sub_directory(directories: &mut Vec<Directory>, index: usize, sub_directory: usize)
    requires
        index < old(directories)@.len(),
    ensures
        final(directories)@.len() == old(directories)@.len(),
        forall|i: int|
            0 <= i < old(directories)@.len() && i != index ==> final(directories)@[i] == old(
                directories,
            )@[i],
        final(directories)@[index as int]@ == (DirectoryView {
            sub_directories: old(directories)@[index as int]@.sub_directories.push(sub_directory),
            ..old(directories)@[index as int]@
        }),
{
    directories[index].sub_directories.push(sub_directory);
}

/// Reads the block at the front of `data`, and adds the directories that it
/// describes to `directories`, behind those that are there. Hands out what
/// follows the block. Fails exactly if the block is cut short; what was
/// added to `directories` until then stays there.
pub fn decode_directory_block<'a>(data: &'a [u8], directories: &mut Vec<Directory>) -> (after:
    Option<&'a [u8]>)
    ensures
        final(directories)@.len() >= old(directories)@.len(),
        final(directories)@.take(old(directories)@.len() as int) == old(directories)@,
        match after {
            Some(rest) => {
                &&& block(data@, old(directories)@.len() as int) matches Some((found, left))
                &&& directory_views(final(directories)@) == directory_views(old(directories)@)
                    + found
                &&& rest@ == left
                &&& rest@.len() < data@.len()
            },
            None => block(data@, old(directories)@.len() as int) is None,
        },
    decreases data@.len(),
{
    let ghost before = directories@;
    assert(directories@.take(before.len() as int) =~= before);
    let (num_untracked, rest) = var_int(data)?;
    let (num_dirs, rest) = var_int(rest)?;
    let (name, rest) = split_at_byte_exclusive(rest, 0)?;
    let (untracked_entries, rest) = decode_entries(rest, num_untracked)?;
    proof {
        lemma_block_head(data@);
        lemma_block(data@, before.len() as int);
    }
    let ghost head = block_head(data@)->0;

    let index = directories.len();
    directories.push(
        Directory { name: bstring_from(name), untracked_entries, sub_directories: Vec::new() },
    );
    let ghost places = Seq::<usize>::empty();
    let ghost below = Seq::<DirectoryView>::empty();
    assert(directory_views(directories@) =~= directory_views(before) + seq![
        DirectoryView {
            name: head.name,
            untracked_entries: head.untracked_entries,
            sub_directories: places,
        },
    ] + below);

    let mut rest = rest;
    let mut read: u64 = 0;
    while read < num_dirs
        invariant
            read <= num_dirs,
            before == old(directories)@,
            block_head(data@) == Some(head),
            index == before.len(),
            rest@.len() < data@.len(),
            directories@.len() == index + 1 + below.len(),
            directories@.take(index as int) == before,
            directory_views(directories@) == directory_views(before) + seq![
                DirectoryView {
                    name: head.name,
                    untracked_entries: head.untracked_entries,
                    sub_directories: places,
                },
            ] + below,
            blocks_from(
                rest@,
                directories@.len() as int,
                (num_dirs - read) as nat,
                places,
                below,
            ) == blocks_from(
                head.rest,
                index + 1,
                head.sub_directories,
                Seq::empty(),
                Seq::empty(),
            ),
        decreases num_dirs - read,
    {
        let subdir_index = directories.len();
        let ghost listed = directories@;
        let ghost current = rest@;
        match decode_directory_block(rest, directories) {
            Some(after) => {
                rest = after;
            },
            None => {
                assert(directories@.take(index as int) =~= listed.take(index as int));
                return None;
            },
        }
        let ghost found = (block(current, subdir_index as int)->0).0;
        let ghost grown = directories@;
        assert(grown.take(index as int) =~= listed.take(index as int));
        assert(grown[index as int] == listed[index as int]) by {
            assert(grown.take(listed.len() as int)[index as int] == listed[index as int]);
        }
        add_sub_directory(directories, index, subdir_index);
        proof {
            lemma_block(current, subdir_index as int);
            let directory = DirectoryView {
                name: head.name,
                untracked_entries: head.untracked_entries,
                sub_directories: places,
            };
            let noted = DirectoryView { sub_directories: places.push(subdir_index), ..directory };
            let was = directory_views(before) + seq![directory] + below + found;
            let now = directory_views(before) + seq![noted] + (below + found);
            assert(directories@.take(index as int) =~= before);
            assert(directory_views(before).len() == index);
            assert(directory_views(grown) == was);
            assert(directory_views(grown).len() == grown.len());
            assert(was.len() == index + 1 + below.len() + found.len());
            assert(now.len() == was.len());
            assert(directories@.len() == grown.len());
            assert(was[index as int] == directory);
            assert(directory_views(grown)[index as int] == grown[index as int]@);
            assert(directories@[index as int]@ == noted);
            assert forall|i: int| 0 <= i < directories@.len() implies directory_views(
                directories@,
            )[i] == now[i] by {
                if i != index {
                    assert(directories@[i] == grown[i]);
                    assert(directory_views(grown)[i] == grown[i]@);
                    if i < index {
                        assert(was[i] == directory_views(before)[i]);
                        assert(now[i] == directory_views(before)[i]);
                    } else if i <= index + below.len() {
                        assert(was[i] == below[i - index - 1]);
                        assert(now[i] == (below + found)[i - index - 1]);
                    } else {
                        assert(was[i] == found[i - index - 1 - below.len()]);
                        assert(now[i] == (below + found)[i - index - 1]);
                    }
                }
            }
            assert(directory_views(directories@) =~= now);
            places = places.push(subdir_index);
            below = below + found;
        }
        read += 1;
    }
    assert(directory_views(directories@) =~= directory_views(before) + (seq![
        DirectoryView {
            name: head.name,
            untracked_entries: head.untracked_entries,
            sub_directories: places,
        },
    ] + below));
    Some(rest)
}

/// The directories of a cache, flattened: the root comes first, and each
/// directory is followed by all that are below it.
pub struct RootDirectory {
    flattened_directories: Vec<Directory>,
}

impl View for RootDirectory {
    type V = Seq<DirectoryView>;

    closed spec fn view(&self) -> Seq<DirectoryView> {
        directory_views(self.flattened_directories@)
    }
}

impl RootDirectory {
    /// The directories, the root first.
    pub fn directories(&self) -> (list: &Vec<Directory>)
        ensures
            directory_views(list@) == self@,
    {
        &self.flattened_directories
    }
}

/// What the extension says before it lists directories.
pub struct UntrackedCache {
    /// Names the place and the machine that the cache was written for.
    pub identifier: BString,
    /// What was known of `.git/info/exclude`, unless its id is null.
    pub info_exclude: Option<OidStat>,
    /// What was known of the file that `core.excludesFile` names, unless
    /// its id is null.
    pub excludes_file: Option<OidStat>,
    /// The name of the file of exclude patterns that each directory may
    /// hold, usually `.gitignore`.
    pub exclude_filename_per_dir: BString,
    pub dir_flags: u32,
}

/// An `UntrackedCache` as a mathematical value.
pub ghost struct UntrackedCacheView {
    pub identifier: Seq<u8>,
    pub info_exclude: Option<OidStatView>,
    pub excludes_file: Option<OidStatView>,
    pub exclude_filename_per_dir: Seq<u8>,
    pub dir_flags: u32,
}

/// What an optional `OidStat` is as a mathematical value.
pub open spec fn stat_view(stat: Option<OidStat>) -> Option<OidStatView> {
    match stat {
        Some(stat) => Some(stat@),
        None => None,
    }
}

impl View for UntrackedCache {
    type V = UntrackedCacheView;

    open spec fn view(&self) -> UntrackedCacheView {
        UntrackedCacheView {
            identifier: bstring_bytes(self.identifier),
            info_exclude: stat_view(self.info_exclude),
            excludes_file: stat_view(self.excludes_file),
            exclude_filename_per_dir: bstring_bytes(self.exclude_filename_per_dir),
            dir_flags: self.dir_flags,
        }
    }
}

/// How far the bytes of an extension could be read.
pub enum Reading {
    /// The bytes are no untracked cache.
    Malformed,
    /// A cache that lists no directories.
    Complete(UntrackedCache),
    /// A cache that lists directories. The three bitmaps that follow them
    /// are well-formed; what they say of each directory is not read.
    Directories { cache: UntrackedCache, root: RootDirectory },
}

/// A `Reading` as a mathematical value.
pub ghost enum ReadingView {
    Malformed,
    Complete(UntrackedCacheView),
    Directories { cache: UntrackedCacheView, root: Seq<DirectoryView> },
}

impl View for Reading {
    type V = ReadingView;

    open spec fn view(&self) -> ReadingView {
        match self {
            Reading::Malformed => ReadingView::Malformed,
            Reading::Complete(cache) => ReadingView::Complete(cache@),
            Reading::Directories { cache, root } => ReadingView::Directories {
                cache: cache@,
                root: root@,
            },
        }
    }
}

/// An `OidStat` counts as present unless its id is null.
pub open spec fn present(stat: OidStatView) -> Option<OidStatView> {
    if stat.id == null_bytes() {
        None
    } else {
        Some(stat)
    }
}

/// What an extension says before it lists directories, the number of
/// directories that it announces, and the bytes that follow.
pub ghost struct CacheHead {
    pub cache: UntrackedCacheView,
    pub directories: int,
    pub rest: Seq<u8>,
}

/// The front of an extension: the length of the identifier, of variable
/// length, and the identifier; two `OidStat`s; the flags, in four bytes; the
/// name of the exclude file of each directory, ended by a zero byte; and
/// the number of directories, of variable length. The extension must end
/// with a zero byte.
pub open spec fn cache_head(s: Seq<u8>, hash_len: int) -> Option<CacheHead> {
    if s.len() == 0 || s.last() != 0 {
        None
    } else {
        match var_int_at(s) {
            Some((identifier_len, counted)) => {
                let named = s.skip(counted);
                if identifier_len > named.len() {
                    None
                } else {
                    match oid_stat(named.skip(identifier_len), hash_len) {
                        Some((info_exclude, second)) => match oid_stat(second, hash_len) {
                            Some((excludes_file, flagged)) => if flagged.len() < 4 {
                                None
                            } else {
                                match delimiter(flagged.skip(4), 0) {
                                    Some(at) => match var_int_at(flagged.skip(4).skip(at + 1)) {
                                        Some((directories, numbered)) => Some(
                                            CacheHead {
                                                cache: UntrackedCacheView {
                                                    identifier: named.take(identifier_len),
                                                    info_exclude: present(info_exclude),
                                                    excludes_file: present(excludes_file),
                                                    exclude_filename_per_dir: flagged.skip(4).take(
                                                        at,
                                                    ),
                                                    dir_flags: number_at(flagged, 0),
                                                },
                                                directories,
                                                rest: flagged.skip(4).skip(at + 1).skip(numbered),
                                            },
                                        ),
                                        None => None,
                                    },
                                    None => None,
                                }
                            },
                            None => None,
                        },
                        None => None,
                    }
                }
            },
            None => None,
        }
    }
}

/// What follows the bitmap at the front of `s`: the bitmap is a number of
/// bits and a number of words, four bytes each, then the words, eight bytes
/// each, and four bytes more. `None` if `s` is too short for it.
pub open spec fn after_bitmap(s: Seq<u8>) -> Option<Seq<u8>> {
    if s.len() < 8 {
        None
    } else if s.len() < 8 + 8 * be_u32(s.skip(4)) + 4 {
        None
    } else {
        Some(s.skip(8 + 8 * be_u32(s.skip(4)) + 4))
    }
}

/// How far the bytes of an extension can be read.
///
/// - Without a well-formed front they are malformed.
/// - If no directories are announced, nothing may follow the front.
/// - Otherwise the block of the root directory follows, which must describe
///   as many directories as were announced, and three bitmaps follow it.
pub open spec fn reading(s: Seq<u8>, hash_len: int) -> ReadingView {
    match cache_head(s, hash_len) {
        Some(head) => if head.directories == 0 {
            if head.rest.len() == 0 {
                ReadingView::Complete(head.cache)
            } else {
                ReadingView::Malformed
            }
        } else {
            match block(head.rest, 0) {
                Some((root, valid)) => if root.len() != head.directories {
                    ReadingView::Malformed
                } else {
                    match after_bitmap(valid) {
                        Some(check_only) => match after_bitmap(check_only) {
                            Some(hash_valid) => match after_bitmap(hash_valid) {
                                Some(_) => ReadingView::Directories { cache: head.cache, root },
                                None => ReadingView::Malformed,
                            },
                            None => ReadingView::Malformed,
                        },
                        None => ReadingView::Malformed,
                    }
                },
                None => ReadingView::Malformed,
            }
        },
        None => ReadingView::Malformed,
    }
}

/// `git_bitmap::ewah::decode`: reads a bitmap from the front of `data` and
/// hands out what follows it; the bitmap itself is dropped here. The outside
/// function fails exactly if `data` is too short for the bitmap. It
/// multiplies the number of words by eight in a `usize`, so the product
/// must fit.
#[verifier::external_body]
fn ewah_rest<'a>(data: &'a [u8]) -> (rest: Option<&'a [u8]>)
    requires
        data@.len() >= 8 ==> 8 * be_u32(data@.skip(4)) <= usize::MAX,
    ensures
        match rest {
            Some(rest) => after_bitmap(data@) == Some(rest@),
            None => after_bitmap(data@) is None,
        },
{
    git_bitmap::ewah::decode(data).ok().map(|(_, rest)| rest)
}

/// What follows the bitmap at the front of `data`, if `data` is long enough
/// for the bitmap.
pub fn skip_bitmap<'a>(data: &'a [u8]) -> (rest: Option<&'a [u8]>)
    ensures
        match rest {
            Some(rest) => after_bitmap(data@) == Some(rest@),
            None => after_bitmap(data@) is None,
        },
{
    if data.len() >= 8 {
        let (_, words) = split_at_pos(data, 4)?;
        let (words, _) = read_u32(words)?;
        if words as u64 > (usize::MAX as u64) / 8 {
            return None;
        }
    }
    ewah_rest(data)
}

/// Reads the front of an extension.
fn decode_head<'a>(data: &'a [u8], hash_len: usize) -> (parts: Option<
    (UntrackedCache, u64, &'a [u8]),
>)
    requires
        hash_len == SHA1_LEN,
    ensures
        match parts {
            Some((cache, directories, rest)) => cache_head(data@, hash_len as int) == Some(
                CacheHead { cache: cache@, directories: directories as int, rest: rest@ },
            ),
            None => cache_head(data@, hash_len as int) is None,
        },
{
    if data.len() == 0 || data[data.len() - 1] != 0 {
        return None;
    }
    let (identifier_len, rest) = var_int(data)?;
    if identifier_len > usize::MAX as u64 {
        return None;
    }
    let (identifier, rest) = split_at_pos(rest, identifier_len as usize)?;
    let (info_exclude, rest) = decode_oid_stat(rest, hash_len)?;
    let (excludes_file, rest) = decode_oid_stat(rest, hash_len)?;
    let ghost flagged = rest@;
    let (dir_flags, rest) = read_u32(rest)?;
    assert(flagged.skip(0) =~= flagged);
    let (exclude_filename_per_dir, rest) = split_at_byte_exclusive(rest, 0)?;
    let (num_directory_blocks, rest) = var_int(rest)?;
    let info_exclude = if id_is_null(&info_exclude.id) {
        None
    } else {
        Some(info_exclude)
    };
    let excludes_file = if id_is_null(&excludes_file.id) {
        None
    } else {
        Some(excludes_file)
    };
    Some(
        (
            UntrackedCache {
                identifier: bstring_from(identifier),
                info_exclude,
                excludes_file,
                exclude_filename_per_dir: bstring_from(exclude_filename_per_dir),
                dir_flags,
            },
            num_directory_blocks,
            rest,
        ),
    )
}

/// Reads the bytes of an extension as far as they can be read.
pub fn parse(data: &[u8], object_hash: git_hash::Kind) -> (read: Reading)
    ensures
        read@ == reading(data@, SHA1_LEN as int),
{
    let hash_len = hash_len_in_bytes(object_hash);
    let (cache, num_directory_blocks, rest) = match decode_head(data, hash_len) {
        Some(head) => head,
        None => {
            return Reading::Malformed;
        },
    };
    if num_directory_blocks == 0 {
        return if rest.len() == 0 {
            Reading::Complete(cache)
        } else {
            Reading::Malformed
        };
    }
    let mut directories: Vec<Directory> = Vec::new();
    let rest = match decode_directory_block(rest, &mut directories) {
        Some(rest) => rest,
        None => {
            return Reading::Malformed;
        },
    };
    if directories.len() as u64 != num_directory_blocks {
        return Reading::Malformed;
    }
    let root = RootDirectory { flattened_directories: directories };
    let after = skip_bitmap(rest);
    let after = match after {
        Some(rest) => skip_bitmap(rest),
        None => None,
    };
    let after = match after {
        Some(rest) => skip_bitmap(rest),
        None => None,
    };
    match after {
        Some(_) => Reading::Directories { cache, root },
        None => Reading::Malformed,
    }
}

/// Reads an untracked cache that lists no directories from the bytes of an
/// extension. Extensions that list directories and are well-formed as far
/// as `parse` reads them are not among the inputs.
pub fn decode(data: &[u8], object_hash: git_hash::Kind) -> (cache: Option<UntrackedCache>)
    requires
        !(reading(data@, SHA1_LEN as int) is Directories),
    ensures
        match cache {
            Some(cache) => reading(data@, SHA1_LEN as int) == ReadingView::Complete(cache@),
            None => reading(data@, SHA1_LEN as int) is Malformed,
        },
{
    match parse(data, object_hash) {
        Reading::Complete(cache) => Some(cache),
        _ => None,
    }
}

} // verus!
