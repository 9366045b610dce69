//! The in-memory repository, request by request.

use dcfs::records::{CommitGuard, RepositoryError};
use dcfs::repository::MemoryMetadataRepository;

fn new_id() -> u128 {
    uuid::Uuid::new_v4().as_u128()
}

#[test]
fn get_root_returns_root_node() {
    let repo = MemoryMetadataRepository::new();
    let root = repo.get_root().unwrap();
    assert_eq!(root.parent_id, None);
    assert!(root.name.is_empty(), "root has no name component");
    assert_eq!(root.kind, "directory");
}

#[test]
fn create_and_get_node() {
    let mut repo = MemoryMetadataRepository::new();
    let root = repo.get_root().unwrap();
    let id = new_id();
    let node = repo
        .create_node(id, root.id, b"hello".to_vec(), "file", 0o100644, 1000, 1000)
        .unwrap();
    assert_eq!(node.id, id);
    assert_eq!(node.name, b"hello".to_vec());
    assert_eq!(node.generation, 0);

    let fetched = repo.get_node(id).unwrap();
    assert_eq!(fetched.id, id);
}

#[test]
fn create_node_already_exists() {
    let mut repo = MemoryMetadataRepository::new();
    let root = repo.get_root().unwrap();
    let id = new_id();
    repo.create_node(id, root.id, b"a".to_vec(), "file", 0o100644, 0, 0)
        .unwrap();
    let err = repo
        .create_node(id, root.id, b"b".to_vec(), "file", 0o100644, 0, 0)
        .unwrap_err();
    assert!(matches!(err, RepositoryError::AlreadyExists));
}

#[test]
fn delete_node() {
    let mut repo = MemoryMetadataRepository::new();
    let root = repo.get_root().unwrap();
    let id = new_id();
    repo.create_node(id, root.id, b"x".to_vec(), "file", 0o100644, 0, 0)
        .unwrap();
    repo.delete_node(id).unwrap();
    assert!(matches!(
        repo.get_node(id).unwrap_err(),
        RepositoryError::NotFound
    ));
}

#[test]
fn delete_node_not_found() {
    let mut repo = MemoryMetadataRepository::new();
    assert!(matches!(
        repo.delete_node(new_id()).unwrap_err(),
        RepositoryError::NotFound
    ));
}

#[test]
fn rename_node() {
    let mut repo = MemoryMetadataRepository::new();
    let root = repo.get_root().unwrap();
    let id = new_id();
    repo.create_node(id, root.id, b"old".to_vec(), "file", 0o100644, 0, 0)
        .unwrap();
    repo.rename_node(id, root.id, b"new".to_vec()).unwrap();
    let node = repo.get_node(id).unwrap();
    assert_eq!(node.name, b"new".to_vec());
}

#[test]
fn update_node_attr() {
    let mut repo = MemoryMetadataRepository::new();
    let root = repo.get_root().unwrap();
    let id = new_id();
    repo.create_node(id, root.id, b"f".to_vec(), "file", 0o100644, 0, 0)
        .unwrap();
    let updated = repo
        .update_node_attr(id, Some(0o100755), None, None, Some(42), None, None)
        .unwrap();
    assert_eq!(updated.mode, 0o100755);
    assert_eq!(updated.size, 42);
    assert_eq!(updated.uid, 0); // unchanged
}

#[test]
fn list_children_with_limit_offset() {
    let mut repo = MemoryMetadataRepository::new();
    let root = repo.get_root().unwrap();
    for i in 0..5 {
        repo.create_node(
            new_id(),
            root.id,
            format!("f{i}").into_bytes(),
            "file",
            0o100644,
            0,
            0,
        )
        .unwrap();
    }
    let page = repo.list_children(root.id, 2, 0).unwrap();
    assert_eq!(page.len(), 2);
    let page2 = repo.list_children(root.id, 10, 3).unwrap();
    assert_eq!(page2.len(), 2);
}

#[test]
fn staging_version_and_chunks() {
    let mut repo = MemoryMetadataRepository::new();
    let root = repo.get_root().unwrap();
    let id = new_id();
    repo.create_node(id, root.id, b"f".to_vec(), "file", 0o100644, 0, 0)
        .unwrap();

    let version = repo.create_staging_version(id, None, 4096).unwrap();
    assert_eq!(version.state, "staging");
    assert_eq!(version.chunk_size, 4096);

    let obj = new_id();
    repo.attach_chunk(version.id, 0, 0, 100, "hash0", obj)
        .unwrap();
    repo.attach_chunk(version.id, 1, 100, 50, "hash1", obj)
        .unwrap();

    let chunks = repo.get_chunks(version.id).unwrap();
    assert_eq!(chunks.len(), 2);
    assert_eq!(chunks[0].chunk_index, 0);
    assert_eq!(chunks[1].plaintext_size, 50);
}

#[test]
fn commit_version_atomic_success() {
    let mut repo = MemoryMetadataRepository::new();
    let root = repo.get_root().unwrap();
    let id = new_id();
    repo.create_node(id, root.id, b"f".to_vec(), "file", 0o100644, 0, 0)
        .unwrap();

    let version = repo.create_staging_version(id, None, 4096).unwrap();
    let node = repo.get_node(id).unwrap();
    assert_eq!(node.generation, 1);

    let guard = CommitGuard {
        node_id: id,
        version_id: version.id,
        expected_generation: 1,
        expected_current_version: None,
    };
    let committed = repo.commit_version(guard, 150, "totalhash").unwrap();
    assert_eq!(committed.state, "committed");
    assert_eq!(committed.size, 150);
    assert_eq!(committed.plaintext_hash, "totalhash");
    assert!(committed.committed_at.is_some());

    let node = repo.get_node(id).unwrap();
    assert_eq!(node.current_version_id, Some(version.id));
}

#[test]
fn commit_version_conflict_on_generation() {
    let mut repo = MemoryMetadataRepository::new();
    let root = repo.get_root().unwrap();
    let id = new_id();
    repo.create_node(id, root.id, b"f".to_vec(), "file", 0o100644, 0, 0)
        .unwrap();
    let v1 = repo.create_staging_version(id, None, 4096).unwrap();
    // bump generation again
    let _v2 = repo
        .create_staging_version(id, Some(v1.id), 4096)
        .unwrap();

    let guard = CommitGuard {
        node_id: id,
        version_id: v1.id,
        expected_generation: 1, // stale
        expected_current_version: None,
    };
    assert!(matches!(
        repo.commit_version(guard, 0, "").unwrap_err(),
        RepositoryError::Conflict
    ));
}

#[test]
fn commit_version_conflict_on_current_version() {
    let mut repo = MemoryMetadataRepository::new();
    let root = repo.get_root().unwrap();
    let id = new_id();
    repo.create_node(id, root.id, b"f".to_vec(), "file", 0o100644, 0, 0)
        .unwrap();
    let v1 = repo.create_staging_version(id, None, 4096).unwrap();
    let guard1 = CommitGuard {
        node_id: id,
        version_id: v1.id,
        expected_generation: 1,
        expected_current_version: None,
    };
    repo.commit_version(guard1, 10, "h").unwrap();

    // now try with stale expected_current_version
    let v2 = repo
        .create_staging_version(id, Some(v1.id), 4096)
        .unwrap();
    let guard2 = CommitGuard {
        node_id: id,
        version_id: v2.id,
        expected_generation: 2,
        expected_current_version: None, // stale, should be Some(v1.id)
    };
    assert!(matches!(
        repo.commit_version(guard2, 0, "").unwrap_err(),
        RepositoryError::Conflict
    ));
}

#[test]
fn get_version_not_found() {
    let repo = MemoryMetadataRepository::new();
    assert!(matches!(
        repo.get_version(new_id()).unwrap_err(),
        RepositoryError::NotFound
    ));
}

#[test]
fn get_chunks_not_found() {
    let repo = MemoryMetadataRepository::new();
    assert!(matches!(
        repo.get_chunks(new_id()).unwrap_err(),
        RepositoryError::NotFound
    ));
}
