use rxiu::digest::sha256_hex;
use sha2::Digest;
use rxiu::error::AppError;
use rxiu::rs::sync::{
    entry_members, hrw_owner_index, hrw_score_of, hrw_top_n_owners, is_block_assigned_to, needs_sync,
    position_of, prune_unowned_blocks, sorted_strings,
};
use rxiu::rs::{block_read_order, RsBlockEntry, RsFileEntry, RsStore};

fn names(v: &[&str]) -> Vec<String> {
    v.iter().map(|s| s.to_string()).collect()
}

fn block(hash: &str, offset: u64) -> RsBlockEntry {
    RsBlockEntry { hash: hash.to_string(), size: 1, offset }
}

#[test]
fn store_paths_under_home() {
    let s = RsStore::new("/home/u");
    assert_eq!(s.base_path(), "/home/u/.rxiu/rs");
    assert_eq!(s.blocks_path(), "/home/u/.rxiu/rs/blocks");
    assert_eq!(s.metadata_path(), "/home/u/.rxiu/rs/metadata.json");
}

#[test]
fn put_file_cuts_blocks_and_records_them() {
    let mut s = RsStore::new("/h");
    let data = b"abcdefghij";
    let e = s.put_file(data, "f.txt", names(&["a", "b"]), "rendezvous", 4);
    assert_eq!(e.name, "f.txt");
    assert_eq!(e.size, 10);
    assert_eq!(e.hash, sha256_hex(data));
    assert_eq!(e.blocks.len(), 3);
    assert_eq!(e.blocks[0].hash, sha256_hex(b"abcd"));
    assert_eq!(e.blocks[1].offset, 4);
    assert_eq!(e.blocks[2].size, 2);
    assert!(e.complete && !e.syncing && e.deletable);
    assert!(s.has_block(&sha256_hex(b"ij")));
    assert_eq!(s.list_files().len(), 1);
    assert_eq!(s.file_block_hashes("f.txt").unwrap().len(), 3);
}

#[test]
fn missing_file_has_no_blocks() {
    let s = RsStore::new("/h");
    match s.file_block_hashes("nope") {
        Err(AppError::Io(m)) => assert_eq!(m, "RS file not found"),
        other => panic!("unexpected {:?}", other),
    }
}

#[test]
fn remove_file_frees_unshared_blocks() {
    let mut s = RsStore::new("/h");
    s.put_file(b"aaaabbbb", "one", names(&["a"]), "x", 4);
    s.put_file(b"aaaacccc", "two", names(&["a"]), "x", 4);
    let freed = s.remove_file("one");
    assert_eq!(freed, vec![sha256_hex(b"bbbb")]);
    assert!(s.has_block(&sha256_hex(b"aaaa")));
    assert!(!s.has_block(&sha256_hex(b"bbbb")));
    assert!(s.get_file("one").is_none());
    assert!(s.get_file("two").is_some());
}

#[test]
fn block_written_only_when_hash_matches() {
    let mut s = RsStore::new("/h");
    let h = sha256_hex(b"data");
    assert_eq!(s.verify_and_write_block(&h, b"data").unwrap(), true);
    assert_eq!(s.verify_and_write_block(&h, b"data").unwrap(), false);
    match s.verify_and_write_block(&h, b"other") {
        Err(AppError::Io(m)) => assert_eq!(m, "Block hash mismatch"),
        other => panic!("unexpected {:?}", other),
    }
}

#[test]
fn reconstructed_content_is_checked() {
    let mut s = RsStore::new("/h");
    let e = s.put_file(b"xyz", "z", names(&["a"]), "x", 2);
    assert!(RsStore::check_reconstructed(&e, b"xyz").is_ok());
    match RsStore::check_reconstructed(&e, b"xyy") {
        Err(AppError::Io(m)) => assert_eq!(m, "RS file hash mismatch"),
        other => panic!("unexpected {:?}", other),
    }
}

#[test]
fn read_order_is_stable_by_offset() {
    let blocks = vec![block("c", 8), block("a", 0), block("b", 8), block("d", 4)];
    assert_eq!(block_read_order(&blocks), vec![1, 3, 0, 2]);
}

#[test]
fn hrw_score_is_sha256_of_member_then_hash() {
    assert_eq!(hrw_score_of("node", "hash"), sha2::Sha256::digest(b"nodehash").to_vec());
}

#[test]
fn hrw_owner_has_the_highest_score() {
    let members = names(&["alpha", "beta", "gamma", "delta"]);
    let b = block("somehash", 0);
    let owner = hrw_owner_index(&b, &members).unwrap();
    let best = members.iter().map(|m| sha2::Sha256::digest(format!("{}somehash", m).as_bytes()).to_vec()).max().unwrap();
    assert_eq!(hrw_score_of(&members[owner], "somehash"), best);
    assert!(hrw_owner_index(&b, &[]).is_none());
}

#[test]
fn hrw_top_owners_are_sorted_by_score() {
    let members = names(&["alpha", "beta", "gamma", "delta"]);
    let b = block("h1", 0);
    let top = hrw_top_n_owners(&b, &members, 2);
    assert_eq!(top.len(), 2);
    assert_eq!(top[0], hrw_owner_index(&b, &members).unwrap());
    let s0 = hrw_score_of(&members[top[0]], "h1");
    let s1 = hrw_score_of(&members[top[1]], "h1");
    assert!(s0 > s1);
    assert_eq!(hrw_top_n_owners(&b, &members, 10).len(), 4);
    for (i, _) in members.iter().enumerate() {
        assert_eq!(is_block_assigned_to(&b, &members, i, 2), top.contains(&i));
    }
}

#[test]
fn members_fall_back_when_entry_has_none() {
    let mut s = RsStore::new("/h");
    let e = s.put_file(b"q", "q", Vec::new(), "x", 1);
    let fb = names(&["z", "a"]);
    assert_eq!(entry_members(&e, &fb), names(&["z", "a"]));
    assert_eq!(entry_members(&e, &[]), Vec::<String>::new());
    assert_eq!(sorted_strings(&names(&["b", "a", "c"])), names(&["a", "b", "c"]));
    assert_eq!(position_of(&names(&["a", "b"]), "b"), Some(1));
    assert_eq!(position_of(&names(&["a", "b"]), "c"), None);
}

#[test]
fn everything_owned_with_full_replication() {
    let mut s = RsStore::new("/h");
    s.put_file(b"0123456789", "f", names(&["me", "you"]), "x", 3);
    assert!(!needs_sync(&s, "me", &[], 2));
    let dropped = prune_unowned_blocks(&mut s, "me", &[], 2);
    assert!(dropped.is_empty());
    assert!(s.get_file("f").unwrap().complete);
}

#[test]
fn node_outside_members_keeps_nothing() {
    let mut s = RsStore::new("/h");
    s.put_file(b"0123", "f", names(&["a", "b"]), "x", 2);
    let dropped = prune_unowned_blocks(&mut s, "stranger", &[], 2);
    assert_eq!(dropped.len(), 2);
    assert!(s.local_block_list().is_empty());
}

#[test]
fn replication_gives_distinct_owners() {
    let members = names(&["n1", "n2", "n3", "n4", "n5"]);
    for h in ["b1", "b2", "b3", "b4"] {
        let b = block(h, 0);
        let mut top = hrw_top_n_owners(&b, &members, 3);
        assert_eq!(top.len(), 3);
        top.sort();
        top.dedup();
        assert_eq!(top.len(), 3);
        let owners = (0..members.len()).filter(|&i| is_block_assigned_to(&b, &members, i, 3)).count();
        assert_eq!(owners, 3);
    }
    assert_eq!(hrw_top_n_owners(&block("x", 0), &names(&["a"]), 2).len(), 1);
}

#[test]
fn share_then_reassemble_gives_the_bytes_back() {
    let mut s = RsStore::new("/h");
    let data: Vec<u8> = (0u8..=250).collect();
    let e = s.put_file(&data, "f.bin", names(&["a"]), "hrw-v1", 16);
    let order = block_read_order(&e.blocks);
    assert_eq!(order, (0..e.blocks.len()).collect::<Vec<_>>());
    let mut content = Vec::new();
    for i in order {
        let b = &e.blocks[i];
        content.extend_from_slice(&data[b.offset as usize..(b.offset + b.size) as usize]);
    }
    assert_eq!(content, data);
    assert!(RsStore::check_reconstructed(&e, &content).is_ok());
}

#[test]
fn each_block_is_kept_by_min_rf_members() {
    let members = names(&["alpha", "beta", "gamma", "delta"]);
    let b = RsBlockEntry { hash: "h1".to_string(), size: 1, offset: 0 };
    for rf in 0..6usize {
        let kept = (0..members.len()).filter(|&i| is_block_assigned_to(&b, &members, i, rf)).count();
        assert_eq!(kept, rf.min(members.len()));
    }
}

#[test]
fn a_second_identical_upsert_changes_nothing() {
    let mut s = RsStore::new("/h");
    let a = s.put_file(b"aaaa", "a.txt", names(&["n"]), "hrw-v1", 4);
    let _b = s.put_file(b"bbbb", "b.txt", names(&["n"]), "hrw-v1", 4);
    let mut changed = a.clone();
    changed.complete = false;
    s.upsert_file(changed.clone());
    let once = s.list_files();
    s.upsert_file(changed.clone());
    assert_eq!(s.list_files(), once);
    assert_eq!(once.len(), 2);
    assert_eq!(once[0], changed);
    assert_eq!(once[1].name, "b.txt");
}
