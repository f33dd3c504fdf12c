use peer_session::merkle::{MerkleError, MerkleIndex, MerkleLayer};
use peer_session::model::{bytes_equal, OmniHash, OmniHashAlgorithmType};
use peer_session::published_file::{
    count_is_positive, get_published_files, PublishedFile, PublishedFileRow, RowError, Timestamp,
};

fn hash(byte: u8) -> OmniHash {
    OmniHash { typ: OmniHashAlgorithmType::Sha3_256, value: vec![byte; 32] }
}

fn layer(root: u8, block: u8, depth: u32, index: u32) -> MerkleLayer {
    MerkleLayer { root_hash: hash(root), block_hash: hash(block), depth, index }
}

fn row(name: &str, root: &str) -> PublishedFileRow {
    PublishedFileRow {
        root_hash: root.to_string(),
        file_name: name.to_string(),
        block_size: 4096,
        property: Some("p".to_string()),
        created_time: Timestamp { secs: 1_700_000_000, nanos: 5 },
        updated_time: Timestamp { secs: 1_700_000_100, nanos: 6 },
    }
}

#[test]
fn same_place_twice_violates_uniqueness() {
    let mut index = MerkleIndex::new();
    assert_eq!(index.insert(layer(1, 2, 2, 3)), Ok(()));
    assert_eq!(index.insert(layer(1, 2, 2, 3)), Err(MerkleError::Duplicate));
    assert_eq!(index.len(), 1);
    assert!(index.contains(&layer(1, 2, 2, 3)));
}

#[test]
fn places_that_differ_in_one_part_are_different() {
    let mut index = MerkleIndex::new();
    assert_eq!(index.insert(layer(1, 2, 2, 3)), Ok(()));
    assert_eq!(index.insert(layer(9, 2, 2, 3)), Ok(()));
    assert_eq!(index.insert(layer(1, 9, 2, 3)), Ok(()));
    assert_eq!(index.insert(layer(1, 2, 9, 3)), Ok(()));
    assert_eq!(index.insert(layer(1, 2, 2, 9)), Ok(()));
    assert_eq!(index.len(), 5);
    let other_algorithm = MerkleLayer {
        root_hash: OmniHash { typ: OmniHashAlgorithmType::Unknown, value: vec![1; 32] },
        block_hash: hash(2),
        depth: 2,
        index: 3,
    };
    assert!(!index.contains(&other_algorithm));
}

#[test]
fn root_has_index_zero() {
    let mut index = MerkleIndex::new();
    assert_eq!(index.insert(layer(1, 1, 0, 1)), Err(MerkleError::RootIndexNotZero));
    assert_eq!(index.len(), 0);
    assert!(!index.root_exists(&hash(1)));
    assert_eq!(index.insert(layer(1, 1, 0, 0)), Ok(()));
    assert!(index.root_exists(&hash(1)));
}

#[test]
fn each_tree_has_one_root() {
    let mut index = MerkleIndex::new();
    assert_eq!(index.insert(layer(1, 1, 0, 0)), Ok(()));
    assert_eq!(index.insert(layer(1, 1, 0, 0)), Err(MerkleError::Duplicate));
    assert_eq!(index.insert(layer(1, 5, 0, 0)), Err(MerkleError::RootTaken));
    assert_eq!(index.insert(layer(2, 5, 0, 0)), Ok(()));
    assert_eq!(index.insert(layer(1, 5, 1, 0)), Ok(()));
    assert_eq!(index.len(), 3);
}

#[test]
fn block_is_found_under_its_tree_only() {
    let mut index = MerkleIndex::new();
    assert!(!index.block_exists(&hash(1), &hash(2)));
    assert_eq!(index.insert(layer(1, 2, 1, 0)), Ok(()));
    assert!(index.block_exists(&hash(1), &hash(2)));
    assert!(!index.block_exists(&hash(2), &hash(1)));
    assert!(!index.block_exists(&hash(1), &hash(3)));
    assert!(!index.root_exists(&hash(1)));
}

#[test]
fn hashes_and_places_compare_by_their_parts() {
    assert!(hash(1).same(&hash(1)));
    assert!(!hash(1).same(&hash(2)));
    assert!(!hash(1).same(&OmniHash { typ: OmniHashAlgorithmType::Unknown, value: vec![1; 32] }));
    assert!(!hash(1).same(&OmniHash { typ: OmniHashAlgorithmType::Sha3_256, value: vec![1; 31] }));
    assert!(layer(1, 2, 3, 4).same(&layer(1, 2, 3, 4)));
    assert!(!layer(1, 2, 3, 4).same(&layer(1, 2, 3, 5)));
    assert!(bytes_equal(&vec![1, 2], &vec![1, 2]));
    assert!(!bytes_equal(&vec![1, 2], &vec![1, 3]));
    assert!(bytes_equal(&Vec::new(), &Vec::new()));
}

#[test]
fn row_with_a_hash_gives_the_file() {
    let file = row("a.bin", "text-of-hash").into(Some(hash(7))).unwrap();
    assert!(file.root_hash.same(&hash(7)));
    assert_eq!(file.file_name, "a.bin");
    assert_eq!(file.block_size, 4096);
    assert_eq!(file.property, Some("p".to_string()));
    assert_eq!(file.created_time, Timestamp { secs: 1_700_000_000, nanos: 5 });
    assert_eq!(file.updated_time, Timestamp { secs: 1_700_000_100, nanos: 6 });
}

#[test]
fn row_without_a_hash_gives_no_file() {
    assert_eq!(row("a.bin", "???").into(None).err(), Some(RowError::InvalidRootHash));
}

#[test]
fn file_gives_its_row() {
    let file = PublishedFile {
        root_hash: hash(7),
        file_name: "b.bin".to_string(),
        block_size: 1,
        property: None,
        created_time: Timestamp { secs: -1, nanos: 999_999_999 },
        updated_time: Timestamp { secs: 0, nanos: 0 },
    };
    let made = PublishedFileRow::from(file, "text-of-hash".to_string()).unwrap();
    assert_eq!(made.root_hash, "text-of-hash");
    assert_eq!(made.file_name, "b.bin");
    assert_eq!(made.block_size, 1);
    assert_eq!(made.property, None);
    assert_eq!(made.created_time, Timestamp { secs: -1, nanos: 999_999_999 });
    assert_eq!(made.updated_time, Timestamp { secs: 0, nanos: 0 });
}

#[test]
fn rows_without_a_hash_are_left_out_and_the_order_is_kept() {
    let rows = vec![
        (row("1", "h1"), Some(hash(1))),
        (row("2", "??"), None),
        (row("3", "h3"), Some(hash(3))),
        (row("4", "h4"), Some(hash(4))),
        (row("5", "??"), None),
    ];
    let files = get_published_files(rows);
    let names: Vec<&str> = files.iter().map(|f| f.file_name.as_str()).collect();
    assert_eq!(names, vec!["1", "3", "4"]);
    assert!(files[0].root_hash.same(&hash(1)));
    assert!(files[1].root_hash.same(&hash(3)));
    assert!(files[2].root_hash.same(&hash(4)));
    assert!(get_published_files(Vec::new()).is_empty());
}

#[test]
fn count_says_whether_there_is_one() {
    assert!(!count_is_positive(0));
    assert!(count_is_positive(1));
    assert!(count_is_positive(i64::MAX));
    assert!(!count_is_positive(-1));
}
