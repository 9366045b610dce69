//! Versions, chunks, garbage collection, sessions and locators.

use dcfs::clock::Timestamp;
use dcfs::records::{CommitGuard, ObjectLocatorRecord, RepositoryError};
use dcfs::repository::MemoryMetadataRepository;

const ROOT: u128 = 1;
const FILE: u128 = 2;

fn at(secs: i64) -> Timestamp {
    Timestamp { secs, nanos: 0 }
}

/// A repository with the file `FILE`, made at second 10.
fn with_file() -> MemoryMetadataRepository {
    let mut repo = MemoryMetadataRepository::with_root(ROOT, at(1));
    repo.create_node_at(FILE, ROOT, b"f".to_vec(), "file", 0o100644, 0, 0, at(10))
        .unwrap();
    repo
}

fn guard(version_id: u128, expected_generation: i64, expected: Option<u128>) -> CommitGuard {
    CommitGuard {
        node_id: FILE,
        version_id,
        expected_generation,
        expected_current_version: expected,
    }
}

/// Opens, fills with one chunk of `object` and commits a version of `FILE`.
fn committed(
    repo: &mut MemoryMetadataRepository,
    version: u128,
    object: u128,
    generation: i64,
    previous: Option<u128>,
    secs: i64,
) {
    repo.create_staging_version_at(FILE, previous, 4096, version, at(secs))
        .unwrap();
    repo.attach_chunk(version, 0, 0, 10, "h", object).unwrap();
    repo.commit_version_at(guard(version, generation, previous), 10, "h", at(secs))
        .unwrap();
}

#[test]
fn opened_versions_are_empty_and_staging() {
    let mut repo = with_file();
    let v = repo
        .create_staging_version_at(FILE, Some(5), 4096, 100, at(20))
        .unwrap();
    assert_eq!(v.id, 100);
    assert_eq!(v.node_id, FILE);
    assert_eq!(v.base_version_id, Some(5));
    assert_eq!(v.state, "staging");
    assert_eq!((v.size, v.chunk_size), (0, 4096));
    assert_eq!(v.plaintext_hash, "");
    assert_eq!(v.created_at, at(20));
    assert!(v.committed_at.is_none());
    assert_eq!(repo.get_chunks(100).unwrap().len(), 0);
    assert_eq!(repo.get_version(100).unwrap().state, "staging");
    assert_eq!(repo.get_node(FILE).unwrap().generation, 1);
    assert_eq!(
        repo.create_staging_version_at(99, None, 4096, 101, at(20))
            .unwrap_err(),
        RepositoryError::NotFound
    );
}

#[test]
fn locks_are_there_for_the_asking() {
    let repo = with_file();
    assert!(repo.lock_node(FILE).is_ok());
    assert!(repo.try_lock_gc().unwrap().is_some());
}

#[test]
fn chunks_read_back_ordered_by_index() {
    let mut repo = with_file();
    repo.create_staging_version_at(FILE, None, 4096, 100, at(20))
        .unwrap();
    for index in [5i64, -1, 3, 0, 4] {
        repo.attach_chunk(100, index, index * 10, 10, "h", 900).unwrap();
    }
    let indices: Vec<i64> = repo
        .get_chunks(100)
        .unwrap()
        .iter()
        .map(|c| c.chunk_index)
        .collect();
    assert_eq!(indices, vec![-1, 0, 3, 4, 5]);
    assert_eq!(
        repo.attach_chunk(101, 0, 0, 10, "h", 900).unwrap_err(),
        RepositoryError::NotFound
    );
}

#[test]
fn attaching_again_replaces_the_chunk() {
    let mut repo = with_file();
    repo.create_staging_version_at(FILE, None, 4096, 100, at(20))
        .unwrap();
    repo.attach_chunk(100, 0, 0, 10, "old", 900).unwrap();
    repo.attach_chunk(100, 0, 0, 20, "new", 901).unwrap();
    let chunks = repo.get_chunks(100).unwrap();
    assert_eq!(chunks.len(), 1);
    assert_eq!(chunks[0].plaintext_hash, "new");
    assert_eq!((chunks[0].plaintext_size, chunks[0].object_id), (20, 901));
}

#[test]
fn chunk_ranges_take_in_both_ends() {
    let mut repo = with_file();
    repo.create_staging_version_at(FILE, None, 4096, 100, at(20))
        .unwrap();
    for index in 0..6i64 {
        repo.attach_chunk(100, index, 0, 10, "h", 900).unwrap();
    }
    let range = |first, last| -> Vec<i64> {
        repo.get_chunk_range(100, first, last)
            .unwrap()
            .iter()
            .map(|c| c.chunk_index)
            .collect()
    };
    assert_eq!(range(2, 4), vec![2, 3, 4]);
    assert_eq!(range(4, 2), Vec::<i64>::new());
    assert_eq!(range(5, 99), vec![5]);
    assert_eq!(
        repo.get_chunk_range(101, 0, 1).unwrap_err(),
        RepositoryError::NotFound
    );
}

#[test]
fn copies_fill_gaps_only() {
    let mut repo = with_file();
    repo.create_staging_version_at(FILE, None, 4096, 100, at(20))
        .unwrap();
    repo.create_staging_version_at(FILE, None, 4096, 101, at(21))
        .unwrap();
    for index in 0..4i64 {
        repo.attach_chunk(100, index, 0, 10, "old", 900).unwrap();
    }
    repo.attach_chunk(101, 1, 0, 10, "new", 901).unwrap();

    assert_eq!(repo.copy_chunk_range(100, 101, 0, 2).unwrap(), 2);
    let chunks = repo.get_chunks(101).unwrap();
    let hashes: Vec<(i64, &str, u128)> = chunks
        .iter()
        .map(|c| (c.chunk_index, c.plaintext_hash.as_str(), c.version_id))
        .collect();
    assert_eq!(
        hashes,
        vec![(0, "old", 101), (1, "new", 101), (2, "old", 101)]
    );

    // Once more copies nothing; neither do an empty range and an unknown
    // source.
    assert_eq!(repo.copy_chunk_range(100, 101, 0, 2).unwrap(), 0);
    assert_eq!(repo.copy_chunk_range(100, 101, 3, 2).unwrap(), 0);
    assert_eq!(repo.copy_chunk_range(999, 101, 0, 9).unwrap(), 0);
    assert_eq!(repo.get_chunks(100).unwrap().len(), 4);
}

#[test]
fn commits_set_the_size_and_supersede() {
    let mut repo = with_file();
    committed(&mut repo, 100, 900, 1, None, 20);
    assert_eq!(repo.get_node(FILE).unwrap().size, 10);
    committed(&mut repo, 101, 901, 2, Some(100), 30);
    assert_eq!(repo.get_version(100).unwrap().state, "superseded");
    let current = repo.get_version(101).unwrap();
    assert_eq!(current.state, "committed");
    assert_eq!(current.committed_at, Some(at(30)));
    assert_eq!(repo.get_node(FILE).unwrap().current_version_id, Some(101));
}

#[test]
fn commits_of_unknown_things_are_refused() {
    let mut repo = with_file();
    let mut g = guard(100, 0, None);
    assert_eq!(
        repo.commit_version_at(g, 0, "", at(20)).unwrap_err(),
        RepositoryError::NotFound
    );
    g.node_id = 99;
    assert_eq!(
        repo.commit_version_at(g, 0, "", at(20)).unwrap_err(),
        RepositoryError::NotFound
    );
}

#[test]
fn a_guard_commits_once() {
    let mut repo = with_file();
    committed(&mut repo, 100, 900, 1, None, 20);
    assert_eq!(
        repo.commit_version_at(guard(100, 1, None), 99, "x", at(21))
            .unwrap_err(),
        RepositoryError::Conflict
    );
    assert_eq!(repo.get_node(FILE).unwrap().size, 10);
    // A guard that expects its own version to be current goes through again.
    repo.commit_version_at(guard(100, 1, Some(100)), 11, "y", at(22))
        .unwrap();
    assert_eq!(repo.get_version(100).unwrap().state, "committed");
    assert_eq!(repo.get_node(FILE).unwrap().size, 11);
}

#[test]
fn the_latest_open_version_is_found() {
    let mut repo = with_file();
    assert_eq!(
        repo.find_open_staging_version(FILE).unwrap_err(),
        RepositoryError::NotFound
    );
    repo.create_staging_version_at(FILE, None, 4096, 100, at(20))
        .unwrap();
    repo.create_staging_version_at(FILE, None, 4096, 101, at(40))
        .unwrap();
    repo.create_staging_version_at(FILE, None, 4096, 102, at(30))
        .unwrap();
    assert_eq!(repo.find_open_staging_version(FILE).unwrap().id, 101);
    repo.touch_staging_version_at(100, 7, at(50)).unwrap();
    let found = repo.find_open_staging_version(FILE).unwrap();
    assert_eq!((found.id, found.size, found.created_at), (100, 7, at(50)));
}

#[test]
fn progress_is_noted_of_open_versions_only() {
    let mut repo = with_file();
    committed(&mut repo, 100, 900, 1, None, 20);
    repo.touch_staging_version_at(100, 77, at(50)).unwrap();
    repo.touch_staging_version_at(999, 77, at(50)).unwrap();
    assert_eq!(repo.get_version(100).unwrap().size, 10);
    assert_eq!(repo.get_version(100).unwrap().created_at, at(20));
}

#[test]
fn progress_moves_the_clock_on() {
    let mut repo = with_file();
    repo.create_staging_version_at(FILE, None, 4096, 100, at(20))
        .unwrap();
    repo.touch_staging_version(100, 5).unwrap();
    let v = repo.get_version(100).unwrap();
    assert_eq!(v.size, 5);
    assert!(v.created_at.secs > 1_600_000_000);
}

#[test]
fn sizes_are_reconciled_unless_a_file_is_open() {
    let mut repo = with_file();
    committed(&mut repo, 100, 900, 1, None, 20);
    repo.create_node_at(3, ROOT, b"g".to_vec(), "file", 0, 0, 0, at(10))
        .unwrap();
    repo.create_node_at(4, ROOT, b"d".to_vec(), "directory", 0, 0, 0, at(10))
        .unwrap();
    for id in [FILE, 3, 4] {
        repo.update_node_attr_at(id, None, None, None, Some(555), None, None, at(30))
            .unwrap();
    }
    repo.create_staging_version_at(3, None, 4096, 200, at(40))
        .unwrap();
    assert_eq!(repo.reconcile_node_sizes().unwrap(), 1);
    assert_eq!(repo.get_node(FILE).unwrap().size, 10);
    assert_eq!(repo.get_node(3).unwrap().size, 555);
    assert_eq!(repo.get_node(4).unwrap().size, 555);
    assert_eq!(repo.reconcile_node_sizes().unwrap(), 0);
}

#[test]
fn current_contents_are_never_offered() {
    let mut repo = with_file();
    committed(&mut repo, 100, 900, 1, None, 20);
    committed(&mut repo, 101, 901, 2, Some(100), 30);
    // The superseded version's object is garbage, the current one's is not.
    assert_eq!(repo.collectable_objects(at(1000), 10).unwrap(), vec![900]);
    // Nothing is garbage before it is old enough.
    assert_eq!(
        repo.collectable_objects(at(20), 10).unwrap(),
        Vec::<u128>::new()
    );
}

#[test]
fn shared_objects_are_kept() {
    let mut repo = with_file();
    committed(&mut repo, 100, 900, 1, None, 20);
    committed(&mut repo, 101, 900, 2, Some(100), 30);
    assert_eq!(
        repo.collectable_objects(at(1000), 10).unwrap(),
        Vec::<u128>::new()
    );
}

#[test]
fn uploads_protect_their_objects_while_they_move() {
    let mut repo = with_file();
    repo.create_staging_version_at(FILE, None, 4096, 100, at(20))
        .unwrap();
    repo.attach_chunk(100, 0, 0, 10, "h", 900).unwrap();
    assert_eq!(
        repo.collectable_objects(at(20), 10).unwrap(),
        Vec::<u128>::new()
    );
    assert_eq!(repo.collectable_objects(at(21), 10).unwrap(), vec![900]);
    repo.touch_staging_version_at(100, 10, at(30)).unwrap();
    assert_eq!(
        repo.collectable_objects(at(30), 10).unwrap(),
        Vec::<u128>::new()
    );
}

#[test]
fn contents_of_deleted_nodes_are_offered() {
    let mut repo = with_file();
    committed(&mut repo, 100, 900, 1, None, 20);
    repo.delete_node(FILE).unwrap();
    assert_eq!(repo.collectable_objects(at(1000), 10).unwrap(), vec![900]);
}

#[test]
fn collection_stops_at_the_limit_but_never_before_the_first() {
    let mut repo = with_file();
    repo.create_staging_version_at(FILE, None, 4096, 100, at(20))
        .unwrap();
    for index in 0..5i64 {
        repo.attach_chunk(100, index, 0, 10, "h", 900 + index as u128)
            .unwrap();
    }
    repo.attach_chunk(100, 5, 0, 10, "h", 900).unwrap();
    let all = repo.collectable_objects(at(1000), 10).unwrap();
    assert_eq!(all, vec![900, 901, 902, 903, 904]);
    assert_eq!(repo.collectable_objects(at(1000), 2).unwrap(), vec![900, 901]);
    assert_eq!(repo.collectable_objects(at(1000), 0).unwrap(), vec![900]);
    assert_eq!(repo.collectable_objects(at(1000), -3).unwrap(), vec![900]);
}

#[test]
fn garbage_is_forgotten_and_its_versions_purged() {
    let mut repo = with_file();
    committed(&mut repo, 100, 900, 1, None, 20);
    committed(&mut repo, 101, 901, 2, Some(100), 30);
    repo.attach_chunk(100, 1, 0, 10, "h", 900).unwrap();

    // With chunks left, a dead version stays.
    assert_eq!(repo.purge_empty_dead_versions(at(1000)).unwrap(), 0);
    assert_eq!(repo.forget_object(900).unwrap(), 2);
    assert_eq!(repo.forget_object(900).unwrap(), 0);
    assert_eq!(
        repo.collectable_objects(at(1000), 10).unwrap(),
        Vec::<u128>::new()
    );
    assert_eq!(repo.get_chunks(101).unwrap().len(), 1);

    assert_eq!(repo.purge_empty_dead_versions(at(20)).unwrap(), 0);
    assert_eq!(repo.purge_empty_dead_versions(at(21)).unwrap(), 1);
    assert_eq!(repo.get_version(100).unwrap_err(), RepositoryError::NotFound);
    assert_eq!(repo.get_chunks(100).unwrap_err(), RepositoryError::NotFound);
    assert_eq!(repo.get_version(101).unwrap().state, "committed");
    assert_eq!(repo.purge_empty_dead_versions(at(21)).unwrap(), 0);
}

#[test]
fn deleted_nodes_leave_nothing_to_sweep() {
    let mut repo = with_file();
    repo.delete_node(FILE).unwrap();
    assert_eq!(repo.purge_deleted_nodes(at(1000)).unwrap(), 0);
}

#[test]
fn sessions_are_found_until_they_expire() {
    let mut repo = with_file();
    let s = repo
        .create_session_at(7, "hash", "laptop", at(100), at(10))
        .unwrap();
    assert_eq!((s.id, s.label.as_str()), (7, "laptop"));
    assert_eq!((s.created_at, s.expires_at), (at(10), at(100)));
    assert_eq!(repo.find_session_at("hash", at(99)).unwrap().id, 7);
    assert_eq!(
        repo.find_session_at("hash", at(100)).unwrap_err(),
        RepositoryError::NotFound
    );
    assert_eq!(
        repo.find_session_at("other", at(50)).unwrap_err(),
        RepositoryError::NotFound
    );
}

#[test]
fn sessions_live_by_the_system_clock() {
    let mut repo = with_file();
    let s = repo.create_session(7, "past", "l", at(100)).unwrap();
    assert!(s.created_at.secs > 1_600_000_000);
    repo.create_session(8, "future", "l", at(i64::MAX)).unwrap();
    assert_eq!(repo.find_session("past").unwrap_err(), RepositoryError::NotFound);
    assert_eq!(repo.find_session("future").unwrap().id, 8);
}

#[test]
fn a_second_session_takes_the_place_of_the_first() {
    let mut repo = with_file();
    repo.create_session_at(7, "hash", "a", at(100), at(10)).unwrap();
    assert!(repo.revoke_session(7).unwrap());
    repo.create_session_at(8, "hash", "b", at(200), at(20)).unwrap();
    assert_eq!(repo.find_session_at("hash", at(50)).unwrap().id, 8);
}

#[test]
fn revoked_sessions_are_not_found() {
    let mut repo = with_file();
    repo.create_session_at(7, "one", "a", at(100), at(10)).unwrap();
    repo.create_session_at(8, "two", "b", at(100), at(10)).unwrap();
    assert!(repo.revoke_session(7).unwrap());
    assert_eq!(
        repo.find_session_at("one", at(50)).unwrap_err(),
        RepositoryError::NotFound
    );
    assert_eq!(repo.find_session_at("two", at(50)).unwrap().id, 8);
    assert!(!repo.revoke_session(7).unwrap());
    assert!(!repo.revoke_session(99).unwrap());
}

#[test]
fn expired_sessions_are_purged() {
    let mut repo = with_file();
    repo.create_session_at(7, "one", "a", at(100), at(10)).unwrap();
    repo.create_session_at(8, "two", "b", at(200), at(10)).unwrap();
    repo.create_session_at(9, "three", "c", at(300), at(10)).unwrap();
    assert_eq!(repo.purge_expired_sessions(at(200)).unwrap(), 1);
    assert_eq!(repo.find_session_at("two", at(150)).unwrap().id, 8);
    assert_eq!(repo.purge_expired_sessions(at(201)).unwrap(), 1);
    assert_eq!(repo.find_session_at("three", at(250)).unwrap().id, 9);
    assert_eq!(
        repo.find_session_at("two", at(150)).unwrap_err(),
        RepositoryError::NotFound
    );
}

#[test]
fn locators_are_kept_until_they_are_deleted() {
    let mut repo = with_file();
    let locator = ObjectLocatorRecord {
        object_id: 900,
        url: "https://a".to_string(),
    };
    assert_eq!(
        repo.get_object_locator(900).unwrap_err(),
        RepositoryError::NotFound
    );
    repo.touch_object_url(900, "https://b").unwrap();
    assert_eq!(
        repo.get_object_locator(900).unwrap_err(),
        RepositoryError::NotFound
    );
    repo.put_object_locator(&locator).unwrap();
    assert_eq!(repo.get_object_locator(900).unwrap().url, "https://a");
    repo.touch_object_url(900, "https://b").unwrap();
    assert_eq!(repo.get_object_locator(900).unwrap().url, "https://b");
    repo.delete_object_locator(900).unwrap();
    repo.delete_object_locator(900).unwrap();
    assert_eq!(
        repo.get_object_locator(900).unwrap_err(),
        RepositoryError::NotFound
    );
}

#[test]
fn time_is_ordered_by_seconds_first() {
    let early = Timestamp { secs: 5, nanos: 999 };
    let late = Timestamp { secs: 6, nanos: 0 };
    assert!(early.is_before(late));
    assert!(!late.is_before(early));
    assert!(!early.is_before(early));
    assert!(Timestamp { secs: 5, nanos: 0 }.is_before(early));
}

#[test]
fn writing_moves_nothing() {
    let mut repo = with_file();
    committed(&mut repo, 100, 900, 1, None, 20);
    repo.reconcile_node_sizes().unwrap();
    let found = repo.find_child(ROOT, b"f").unwrap();
    assert_eq!(found.id, FILE);
    assert_eq!(found.ctime, at(10));
}

#[test]
fn one_of_two_rival_commits_wins() {
    let mut repo = with_file();
    committed(&mut repo, 100, 900, 1, None, 20);
    // Two uploads, both based on the current version.
    for version in [101u128, 102] {
        repo.create_staging_version_at(FILE, Some(100), 4096, version, at(30))
            .unwrap();
    }
    repo.commit_version_at(guard(101, 3, Some(100)), 5, "a", at(40))
        .unwrap();
    assert_eq!(
        repo.commit_version_at(guard(102, 3, Some(100)), 6, "b", at(41))
            .unwrap_err(),
        RepositoryError::Conflict
    );
    let node = repo.get_node(FILE).unwrap();
    assert_eq!((node.current_version_id, node.size), (Some(101), 5));
    assert_eq!(repo.get_version(102).unwrap().state, "staging");
}
