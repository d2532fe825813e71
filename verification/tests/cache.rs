use dux::cache::frame::{decode_frame, encode_frame, FrameError};
use dux::cache::fresh::{spot_check_mtimes, spot_check_targets};
use dux::cache::{
    cache_path_for, hash_path, is_cache_valid, CacheMetadata, CachedScanConfig, CACHE_MAGIC,
    CACHE_VERSION,
};
use dux::{DiskTree, DuxError, NodeId, NodeKind, Timestamp};

fn s(text: &str) -> String {
    text.to_string()
}

fn at(nanos: u128) -> Timestamp {
    Timestamp { nanos }
}

fn config() -> CachedScanConfig {
    CachedScanConfig { follow_symlinks: false, same_filesystem: true, max_depth: None }
}

fn meta() -> CacheMetadata {
    CacheMetadata {
        version: CACHE_VERSION,
        root_path: s("/data"),
        scan_time: at(5_000),
        root_mtime: at(4_000),
        total_size: 1024,
        node_count: 1,
        config: config(),
    }
}

#[test]
fn test_cache_path_generation() {
    let path1 = cache_path_for("/home/user/data", "/tmp/dux-cache");
    let path2 = cache_path_for("/home/user/other", "/tmp/dux-cache");

    assert!(path1.ends_with(".dux"));
    assert!(path2.ends_with(".dux"));
    assert_ne!(path1, path2);
}

#[test]
fn cache_path_is_sixteen_hex_digits_in_the_cache_directory() {
    let path = cache_path_for("/home/user/data", "/tmp/dux-cache");
    let name = path.strip_prefix("/tmp/dux-cache/").unwrap();
    assert_eq!(name.len(), 20);
    let digits = &name[..16];
    assert!(digits.chars().all(|c| c.is_ascii_digit() || ('a'..='f').contains(&c)));
    assert_eq!(digits, format!("{:016x}", hash_path("/home/user/data")));
    assert_eq!(path, cache_path_for("/home/user/data", "/tmp/dux-cache"));
}

#[test]
fn test_save_load_cache() {
    let meta_bytes: Vec<u8> = vec![1, 2, 3, 4, 5];
    let tree_bytes: Vec<u8> = vec![9, 8, 7];
    let file = encode_frame(&meta_bytes, &tree_bytes).unwrap();
    let frame = decode_frame(&file).unwrap();
    assert_eq!(frame.metadata, meta_bytes);
    assert_eq!(frame.tree, tree_bytes);
}

#[test]
fn frame_layout_is_as_documented() {
    let meta_bytes: Vec<u8> = vec![0xaa, 0xbb];
    let tree_bytes: Vec<u8> = vec![0xcc];
    let file = encode_frame(&meta_bytes, &tree_bytes).unwrap();
    assert_eq!(file.len(), 16 + 2 + 1 + 4);
    assert_eq!(&file[0..4], b"DUXC");
    assert_eq!(&file[0..4], &CACHE_MAGIC);
    assert_eq!(&file[4..8], &[1, 0, 0, 0]);
    assert_eq!(&file[8..12], &[2, 0, 0, 0]);
    assert_eq!(&file[12..14], &[0xaa, 0xbb]);
    assert_eq!(&file[14..18], &[1, 0, 0, 0]);
    assert_eq!(&file[18..19], &[0xcc]);
    let crc = crc32fast::hash(&file[..19]);
    assert_eq!(&file[19..23], &crc.to_le_bytes());
    assert_ne!(crc.to_le_bytes().to_vec(), file[..4].to_vec());
}

#[test]
fn empty_payloads_make_the_smallest_frame() {
    let file = encode_frame(&Vec::new(), &Vec::new()).unwrap();
    assert_eq!(file.len(), 20);
    let frame = decode_frame(&file).unwrap();
    assert!(frame.metadata.is_empty());
    assert!(frame.tree.is_empty());
}

#[test]
fn short_files_are_too_small() {
    let file = encode_frame(&Vec::new(), &Vec::new()).unwrap();
    assert_eq!(decode_frame(&file[..19].to_vec()).unwrap_err(), FrameError::TooSmall);
    assert_eq!(decode_frame(&Vec::new()).unwrap_err(), FrameError::TooSmall);
}

#[test]
fn corrupting_the_last_byte_before_the_checksum_is_rejected() {
    let mut file = encode_frame(&vec![1, 2, 3], &vec![4, 5, 6, 7]).unwrap();
    let last = file.len() - 5;
    file[last] ^= 0xff;
    let error = decode_frame(&file).unwrap_err();
    assert_eq!(error, FrameError::ChecksumMismatch);
    assert!(matches!(error.into_error(), DuxError::Cache(_)));
}

#[test]
fn every_single_bit_flip_is_rejected() {
    let file = encode_frame(&vec![10, 20, 30, 40], &vec![50, 60, 70]).unwrap();
    let body = file.len() - 4;
    let mut index = 0;
    while index < body {
        let mut bit = 0;
        while bit < 8 {
            let mut damaged = file.clone();
            damaged[index] ^= 1 << bit;
            assert!(decode_frame(&damaged).is_err(), "byte {} bit {}", index, bit);
            bit += 1;
        }
        index += 1;
    }
}

#[test]
fn another_version_is_rejected() {
    let mut file = encode_frame(&vec![1], &vec![2]).unwrap();
    let next = (CACHE_VERSION + 1).to_le_bytes();
    file[4..8].copy_from_slice(&next);
    assert_eq!(decode_frame(&file).unwrap_err(), FrameError::ChecksumMismatch);

    let end = file.len() - 4;
    let crc = crc32fast::hash(&file[..end]).to_le_bytes();
    file[end..].copy_from_slice(&crc);
    let error = decode_frame(&file).unwrap_err();
    assert_eq!(error, FrameError::VersionMismatch { found: CACHE_VERSION + 1 });
    assert_eq!(error.message(), "Cache version mismatch: expected 1, got 2");
    assert_eq!(error.into_error().message(), "Cache error: Cache version mismatch: expected 1, got 2");
}

fn resealed(mut file: Vec<u8>) -> Vec<u8> {
    let end = file.len() - 4;
    let crc = crc32fast::hash(&file[..end]).to_le_bytes();
    file[end..].copy_from_slice(&crc);
    file
}

#[test]
fn wrong_magic_and_lengths_are_rejected() {
    let file = encode_frame(&vec![1, 2], &vec![3]).unwrap();

    let mut magic = file.clone();
    magic[0] = b'X';
    assert_eq!(decode_frame(&resealed(magic)).unwrap_err(), FrameError::BadMagic);

    let mut long_meta = file.clone();
    long_meta[8] = 200;
    assert_eq!(decode_frame(&resealed(long_meta)).unwrap_err(), FrameError::BadMetadataLength);

    let mut long_tree = file.clone();
    long_tree[14] = 200;
    assert_eq!(decode_frame(&resealed(long_tree)).unwrap_err(), FrameError::BadTreeLength);
}

#[test]
fn frame_error_texts() {
    assert_eq!(FrameError::TooSmall.message(), "Cache file too small");
    assert_eq!(FrameError::ChecksumMismatch.message(), "Cache checksum mismatch");
    assert_eq!(FrameError::BadMagic.message(), "Invalid cache magic");
    assert_eq!(FrameError::BadMetadataLength.message(), "Invalid metadata length");
    assert_eq!(FrameError::BadTreeLength.message(), "Invalid tree length");
    assert_eq!(FrameError::TooLarge.message(), "Cache payload too large");
}

#[test]
fn error_texts() {
    assert_eq!(DuxError::PathNotFound(s("/x")).message(), "Path does not exist: /x");
    assert_eq!(DuxError::NotADirectory(s("/x")).message(), "Path is not a directory: /x");
    assert_eq!(DuxError::PermissionDenied(s("/x")).message(), "Permission denied: /x");
    assert_eq!(DuxError::Io(s("broken pipe")).message(), "IO error: broken pipe");
    assert_eq!(DuxError::Cancelled.message(), "Scan was cancelled");
    assert_eq!(DuxError::Cache(s("stale")).message(), "Cache error: stale");
}

#[test]
fn test_paths_reconstructed_after_load() {
    let root_path = s("/tmp/scan");
    let mut tree = DiskTree::new(root_path.clone());
    let subdir_id =
        tree.add_node(s("subdir"), NodeKind::Directory, s("/tmp/scan/subdir"), NodeId::root());
    let file_id =
        tree.add_node(s("file.txt"), NodeKind::File, s("/tmp/scan/subdir/file.txt"), subdir_id);

    assert_eq!(tree.get(subdir_id).unwrap().path, "/tmp/scan/subdir");
    assert_eq!(tree.get(file_id).unwrap().path, "/tmp/scan/subdir/file.txt");

    let mut parts = Vec::new();
    let mut i = 0;
    while i < tree.len() {
        parts.push(tree.get(NodeId(i)).map(|n| {
            let mut copy = n.clone();
            copy.path = String::new();
            copy
        }));
        i += 1;
    }
    let mut loaded_tree = DiskTree::from_parts(root_path.clone(), parts).unwrap();
    loaded_tree.rebuild_paths();

    assert_eq!(loaded_tree.root().path, root_path);
    assert_eq!(loaded_tree.get(subdir_id).unwrap().path, "/tmp/scan/subdir");
    assert_eq!(loaded_tree.get(file_id).unwrap().path, "/tmp/scan/subdir/file.txt");
}

#[test]
fn cache_is_valid_only_for_the_same_scan() {
    let m = meta();
    assert!(is_cache_valid(&m, "/data", &config(), Some(at(4_000))));
    assert!(!is_cache_valid(&m, "/data", &config(), Some(at(4_001))));
    assert!(!is_cache_valid(&m, "/data", &config(), None));
    assert!(!is_cache_valid(&m, "/other", &config(), Some(at(4_000))));
    let mut follow = config();
    follow.follow_symlinks = true;
    assert!(!is_cache_valid(&m, "/data", &follow, Some(at(4_000))));
    let mut cross = config();
    cross.same_filesystem = false;
    assert!(!is_cache_valid(&m, "/data", &cross, Some(at(4_000))));
    let mut depth = config();
    depth.max_depth = Some(3);
    assert!(!is_cache_valid(&m, "/data", &depth, Some(at(4_000))));
}

fn tree_with_directories() -> (DiskTree, NodeId, NodeId, NodeId) {
    let mut tree = DiskTree::new(s("/r"));
    tree.set_mtime(NodeId::root(), Some(at(10)));
    let small = tree.add_node(s("small"), NodeKind::Directory, s("/r/small"), NodeId::root());
    tree.set_mtime(small, Some(at(20)));
    let big = tree.add_node(s("big"), NodeKind::Directory, s("/r/big"), NodeId::root());
    tree.set_mtime(big, Some(at(30)));
    let unknown = tree.add_node(s("unknown"), NodeKind::Directory, s("/r/unknown"), NodeId::root());
    let f1 = tree.add_node(s("f1"), NodeKind::File, s("/r/small/f1"), small);
    tree.set_size(f1, 10);
    let f2 = tree.add_node(s("f2"), NodeKind::File, s("/r/big/f2"), big);
    tree.set_size(f2, 1000);
    let f3 = tree.add_node(s("f3"), NodeKind::File, s("/r/unknown/f3"), unknown);
    tree.set_size(f3, 5000);
    tree.set_mtime(f3, Some(at(99)));
    tree.aggregate_sizes();
    (tree, small, big, unknown)
}

#[test]
fn spot_check_examines_the_largest_directories_with_mtimes() {
    let (tree, small, big, _unknown) = tree_with_directories();
    let all = spot_check_targets(&tree, 32);
    let ids: Vec<NodeId> = all.iter().map(|t| t.id).collect();
    assert_eq!(ids, vec![NodeId::root(), big, small]);
    assert_eq!(all[1].path, "/r/big");
    assert_eq!(all[1].mtime, at(30));

    let two = spot_check_targets(&tree, 2);
    let ids: Vec<NodeId> = two.iter().map(|t| t.id).collect();
    assert_eq!(ids, vec![NodeId::root(), big]);

    assert!(spot_check_targets(&tree, 0).is_empty());
}

#[test]
fn spot_check_passes_only_if_every_mtime_is_unchanged() {
    let (tree, _small, _big, _unknown) = tree_with_directories();
    let targets = spot_check_targets(&tree, 32);
    assert!(spot_check_mtimes(&targets, &vec![Some(at(10)), Some(at(30)), Some(at(20))]));
    assert!(!spot_check_mtimes(&targets, &vec![Some(at(10)), Some(at(31)), Some(at(20))]));
    assert!(!spot_check_mtimes(&targets, &vec![Some(at(10)), None, Some(at(20))]));
    assert!(!spot_check_mtimes(&targets, &vec![Some(at(10)), Some(at(30))]));
    assert!(spot_check_mtimes(&Vec::new(), &Vec::new()));
}

#[test]
fn metadata_describes_the_tree() {
    let (tree, _small, _big, _unknown) = tree_with_directories();
    let m = CacheMetadata::for_tree(&tree, s("/r"), at(500), at(10), config());
    assert_eq!(m.version, CACHE_VERSION);
    assert_eq!(m.root_path, "/r");
    assert_eq!(m.scan_time, at(500));
    assert_eq!(m.root_mtime, at(10));
    assert_eq!(m.total_size, 6010);
    assert_eq!(m.node_count, 7);
    assert_eq!(m.config, config());
}
