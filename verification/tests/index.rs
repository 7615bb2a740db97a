use git_toolkit::index::untracked_cache::decode;
use git_toolkit::index::untracked_cache::decode_directory_block;
use git_toolkit::index::untracked_cache::decode_entries;
use git_toolkit::index::untracked_cache::decode_oid_stat;
use git_toolkit::index::untracked_cache::parse;
use git_toolkit::index::untracked_cache::skip_bitmap;
use git_toolkit::index::untracked_cache::Directory;
use git_toolkit::index::untracked_cache::Reading;
use git_toolkit::index::untracked_cache::Time;
use git_toolkit::index::untracked_cache::UntrackedCache;
use git_toolkit::index::untracked_cache::SIGNATURE;
use git_toolkit::index::util::read_u32;
use git_toolkit::index::util::split_at_byte_exclusive;
use git_toolkit::index::util::split_at_pos;
use git_toolkit::index::util::var_int;

const SHA1: git_hash::Kind = git_hash::Kind::Sha1;

/// Nine numbers, 1 to 9, and a digest of twenty bytes `fill`.
fn stat_bytes(fill: u8) -> Vec<u8> {
    let mut out = Vec::new();
    for number in 1u32..=9 {
        out.extend_from_slice(&number.to_be_bytes());
    }
    out.extend_from_slice(&[fill; 20]);
    out
}

fn head_bytes(first: u8, second: u8) -> Vec<u8> {
    let mut out = vec![5];
    out.extend_from_slice(b"ident");
    out.extend_from_slice(&stat_bytes(first));
    out.extend_from_slice(&stat_bytes(second));
    out.extend_from_slice(&[0, 0, 0, 7]);
    out.extend_from_slice(b".gitignore\0");
    out
}

/// A root with one untracked file and two sub-directories, the first of
/// which has a sub-directory of its own.
fn blocks() -> Vec<u8> {
    let mut out = Vec::new();
    out.extend_from_slice(b"\x01\x02\0file\0");
    out.extend_from_slice(b"\x00\x01a\0");
    out.extend_from_slice(b"\x00\x00a1\0");
    out.extend_from_slice(b"\x02\x00b\0x\0y\0");
    out
}

fn bitmap(words: &[u64]) -> Vec<u8> {
    let mut out = Vec::new();
    out.extend_from_slice(&4u32.to_be_bytes());
    out.extend_from_slice(&(words.len() as u32).to_be_bytes());
    for word in words {
        out.extend_from_slice(&word.to_be_bytes());
    }
    out.extend_from_slice(&0u32.to_be_bytes());
    out
}

fn with_directories(announced: u8) -> Vec<u8> {
    let mut data = head_bytes(0xaa, 0);
    data.push(announced);
    data.extend_from_slice(&blocks());
    data.extend_from_slice(&bitmap(&[1]));
    data.extend_from_slice(&bitmap(&[]));
    data.extend_from_slice(&bitmap(&[2, 3]));
    data
}

fn assert_head(cache: &UntrackedCache) {
    assert_eq!(cache.identifier, "ident");
    assert_eq!(cache.exclude_filename_per_dir, ".gitignore");
    assert_eq!(cache.dir_flags, 7);
    let info = cache.info_exclude.as_ref().expect("its id is not null");
    assert_eq!(info.id.as_slice(), &[0xaa; 20]);
    assert_eq!(info.size, 9);
    assert!(cache.excludes_file.is_none(), "its id is null");
}

#[test]
fn stat_with_a_digest_that_is_almost_null_is_present() {
    let mut data = vec![0];
    data.extend_from_slice(&stat_bytes(0));
    let mut almost = stat_bytes(0);
    *almost.last_mut().unwrap() = 1;
    data.extend_from_slice(&almost);
    data.extend_from_slice(&[0, 0, 0, 0]);
    data.extend_from_slice(b"\0\0");
    let cache = decode(&data, SHA1).expect("well-formed");
    assert_eq!(cache.identifier, "");
    assert_eq!(cache.exclude_filename_per_dir, "");
    assert!(cache.info_exclude.is_none());
    let stat = cache.excludes_file.expect("one byte of its id is not zero");
    assert_eq!(stat.id.as_slice()[19], 1);
}

fn assert_directory(directory: &Directory, name: &str, untracked: &[&str], sub_directories: &[usize]) {
    assert_eq!(directory.name, name);
    assert_eq!(directory.untracked_entries.len(), untracked.len());
    for (entry, expected) in directory.untracked_entries.iter().zip(untracked) {
        assert_eq!(entry, expected);
    }
    assert_eq!(directory.sub_directories, sub_directories);
}

#[test]
fn signature_is_untr() {
    assert_eq!(&SIGNATURE, b"UNTR");
}

#[test]
fn numbers_of_variable_length() {
    assert_eq!(var_int(&[0x00]), Some((0, &[][..])));
    assert_eq!(var_int(&[0x7f, 0xff]), Some((127, &[0xff][..])));
    assert_eq!(var_int(&[0x80, 0x00]), Some((128, &[][..])));
    assert_eq!(var_int(&[0x81, 0x00, 9]), Some((256, &[9][..])));
    assert_eq!(var_int(&[0xff, 0x7f]), Some((16511, &[][..])));
    assert_eq!(var_int(&[0x80, 0x80, 0x00]), Some((16512, &[][..])));
    assert_eq!(var_int(&[]), None);
    assert_eq!(var_int(&[0x80]), None);
    assert_eq!(var_int(&[0xff, 0xff]), None);
}

#[test]
fn numbers_of_variable_length_stay_within_64_bits() {
    let largest = [0x80, 0xfe, 0xfe, 0xfe, 0xfe, 0xfe, 0xfe, 0xfe, 0xfe, 0x7f];
    assert_eq!(var_int(&largest), Some((u64::MAX, &[][..])));
    let too_large = [0x80, 0xfe, 0xfe, 0xfe, 0xfe, 0xfe, 0xfe, 0xfe, 0xff, 0x00];
    assert_eq!(var_int(&too_large), None);
    assert_eq!(var_int(&[0xff; 11]), None);
}

#[test]
fn numbers_of_four_bytes() {
    assert_eq!(read_u32(&[0, 0, 1, 2, 9]), Some((258, &[9][..])));
    assert_eq!(read_u32(&[0xff; 4]), Some((u32::MAX, &[][..])));
    assert_eq!(read_u32(&[1, 0, 0, 0]), Some((0x100_0000, &[][..])));
    assert_eq!(read_u32(&[0, 0, 1]), None);
}

#[test]
fn splitting_at_a_position() {
    assert_eq!(split_at_pos(b"abc", 1), Some((&b"a"[..], &b"bc"[..])));
    assert_eq!(split_at_pos(b"abc", 0), Some((&b""[..], &b"abc"[..])));
    assert_eq!(split_at_pos(b"abc", 3), Some((&b"abc"[..], &b""[..])));
    assert_eq!(split_at_pos(b"abc", 4), None);
}

#[test]
fn splitting_at_a_byte() {
    assert_eq!(split_at_byte_exclusive(b"ab\0cd\0", 0), Some((&b"ab"[..], &b"cd\0"[..])));
    assert_eq!(split_at_byte_exclusive(b"\0a", 0), Some((&b""[..], &b"a"[..])));
    assert_eq!(split_at_byte_exclusive(b"a\0", 0), Some((&b"a"[..], &b""[..])));
    assert_eq!(split_at_byte_exclusive(b"abc", 0), None);
    assert_eq!(split_at_byte_exclusive(b"\0", 0), None, "a single byte is never split");
    assert_eq!(split_at_byte_exclusive(b"", 0), None);
}

#[test]
fn stat_is_nine_numbers_and_a_digest() {
    let mut data = stat_bytes(0xab);
    data.extend_from_slice(b"rest");
    let (stat, rest) = decode_oid_stat(&data, 20).expect("long enough");
    assert_eq!(rest, b"rest");
    assert_eq!(stat.mtime, Time { secs: 1, nsecs: 2 });
    assert_eq!(stat.ctime, Time { secs: 3, nsecs: 4 });
    assert_eq!((stat.dev, stat.ino, stat.uid, stat.gid, stat.size), (5, 6, 7, 8, 9));
    assert_eq!(stat.id.as_slice(), &[0xab; 20]);
    assert!(decode_oid_stat(&data[..55], 20).is_none());
    assert!(decode_oid_stat(&data[..56], 20).is_some());
}

#[test]
fn entries_end_with_a_zero_byte() {
    let (entries, rest) = decode_entries(b"one\0\0three\0rest", 3).expect("three names");
    assert_eq!(entries, ["one", "", "three"]);
    let (entries, _) = decode_entries(b"a\xffb\0", 1).expect("any byte but zero is part of a name");
    assert_eq!(entries[0], &b"a\xffb"[..]);
    assert_eq!(rest, b"rest");
    let (entries, rest) = decode_entries(b"one\0", 0).expect("nothing to read");
    assert!(entries.is_empty());
    assert_eq!(rest, b"one\0");
    assert!(decode_entries(b"one\0two", 2).is_none());
    assert!(decode_entries(b"one\0\0", 2).is_none(), "a single byte is never split");
}

#[test]
fn directories_are_listed_parents_first() {
    let mut data = blocks();
    data.extend_from_slice(b"rest");
    let mut directories = Vec::new();
    let rest = decode_directory_block(&data, &mut directories).expect("well-formed");
    assert_eq!(rest, b"rest");
    assert_eq!(directories.len(), 4);
    assert_directory(&directories[0], "", &["file"], &[1, 3]);
    assert_directory(&directories[1], "a", &[], &[2]);
    assert_directory(&directories[2], "a1", &[], &[]);
    assert_directory(&directories[3], "b", &["x", "y"], &[]);

    let rest = decode_directory_block(b"\x00\x00c\0", &mut directories).expect("well-formed");
    assert_eq!(rest, b"");
    assert_eq!(directories.len(), 5);
    assert_directory(&directories[0], "", &["file"], &[1, 3]);
    assert_directory(&directories[4], "c", &[], &[]);
}

#[test]
fn directory_block_that_is_cut_short() {
    let data = blocks();
    for len in 0..data.len() {
        let mut directories = Vec::new();
        assert!(decode_directory_block(&data[..len], &mut directories).is_none(), "{}", len);
    }
    let mut directories = Vec::new();
    assert!(decode_directory_block(b"\0\0\0", &mut directories).is_none());
    assert_eq!(decode_directory_block(b"\0\0\0\0", &mut directories), Some(&b"\0"[..]));
    assert_eq!(directories.len(), 1);
    assert!(decode_directory_block(b"\x00\x01a\0", &mut directories).is_none());
    assert_eq!(directories.len(), 2, "what was read before the end stays");
    assert_directory(&directories[0], "", &[], &[]);
}

#[test]
fn bitmaps_are_skipped() {
    let mut data = bitmap(&[7, 8]);
    assert_eq!(data.len(), 28);
    data.extend_from_slice(b"rest");
    assert_eq!(skip_bitmap(&data), Some(&b"rest"[..]));
    assert_eq!(skip_bitmap(&data[..28]), Some(&b""[..]));
    assert_eq!(skip_bitmap(&data[..27]), None);
    assert_eq!(skip_bitmap(&data[..7]), None);
    assert_eq!(skip_bitmap(&[0, 0, 0, 1, 0xff, 0xff, 0xff, 0xff, 0, 0, 0, 0]), None);
    assert_eq!(skip_bitmap(&bitmap(&[])), Some(&b""[..]));
}

#[test]
fn cache_without_directories() {
    let mut data = head_bytes(0xaa, 0);
    data.push(0);
    assert_head(&decode(&data, SHA1).expect("well-formed"));
    match parse(&data, SHA1) {
        Reading::Complete(cache) => assert_head(&cache),
        _ => panic!("nothing follows the front"),
    }
}

#[test]
fn cache_that_is_malformed() {
    let mut data = head_bytes(0xaa, 0);
    data.push(0);
    for len in 0..data.len() {
        assert!(decode(&data[..len], SHA1).is_none(), "{}", len);
    }
    let mut trailing = data.clone();
    trailing.push(0);
    assert!(decode(&trailing, SHA1).is_none(), "nothing may follow if there are no directories");
    let mut identifier_too_long = data.clone();
    identifier_too_long[0] = 0x7f;
    identifier_too_long.truncate(100);
    identifier_too_long.push(0);
    assert!(decode(&identifier_too_long, SHA1).is_none());
    assert!(decode(b"", SHA1).is_none());
    assert!(decode(b"\0", SHA1).is_none());
}

#[test]
fn cache_with_directories() {
    let data = with_directories(4);
    match parse(&data, SHA1) {
        Reading::Directories { cache, root } => {
            assert_head(&cache);
            let directories = root.directories();
            assert_eq!(directories.len(), 4);
            assert_directory(&directories[0], "", &["file"], &[1, 3]);
            assert_directory(&directories[1], "a", &[], &[2]);
            assert_directory(&directories[2], "a1", &[], &[]);
            assert_directory(&directories[3], "b", &["x", "y"], &[]);
        }
        _ => panic!("directories and bitmaps are well-formed"),
    }
}

#[test]
fn cache_with_directories_that_is_malformed() {
    for announced in [3, 5] {
        let data = with_directories(announced);
        assert!(matches!(parse(&data, SHA1), Reading::Malformed));
        assert!(decode(&data, SHA1).is_none());
    }
    let mut data = with_directories(4);
    data.pop();
    data.pop();
    *data.last_mut().unwrap() = 0;
    assert!(matches!(parse(&data, SHA1), Reading::Malformed), "the last bitmap is cut short");
    assert!(decode(&data, SHA1).is_none());
    let mut data = head_bytes(0xaa, 0);
    data.push(1);
    data.extend_from_slice(b"\x00\x00root\0");
    data.push(0);
    assert!(matches!(parse(&data, SHA1), Reading::Malformed), "the bitmaps are missing");
}
