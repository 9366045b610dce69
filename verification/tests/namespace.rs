//! The directory tree, scenario by scenario.

use dcfs::clock::Timestamp;
use dcfs::records::{NodeRecord, RepositoryError};
use dcfs::repository::MemoryMetadataRepository;

fn at(secs: i64) -> Timestamp {
    Timestamp { secs, nanos: 0 }
}

fn new_id() -> u128 {
    uuid::Uuid::new_v4().as_u128()
}

fn create(repo: &mut MemoryMetadataRepository, parent: u128, name: &[u8], kind: &str) -> u128 {
    let id = new_id();
    let mode = if kind == "directory" { 0o40755 } else { 0o100644 };
    repo.create_node(id, parent, name.to_vec(), kind, mode, 1000, 1000)
        .unwrap();
    id
}

fn names(nodes: &[NodeRecord]) -> Vec<Vec<u8>> {
    let mut names: Vec<Vec<u8>> = nodes.iter().map(|n| n.name.clone()).collect();
    names.sort();
    names
}

#[test]
fn root_is_a_nameless_directory() {
    let repo = MemoryMetadataRepository::with_root(77, at(5));
    let root = repo.get_root().unwrap();
    assert_eq!(root.id, 77);
    assert_eq!(root.name, b"".to_vec());
    assert_eq!(root.kind, "directory");
    assert_eq!(root.mode, 0o40755);
    assert!(root.parent_id.is_none());
    assert_eq!(root.ctime, at(5));
    assert_eq!(repo.list_children(77, 10, 0).unwrap().len(), 0);
}

#[test]
fn a_default_repository_has_a_root_of_its_own() {
    let a = MemoryMetadataRepository::default().get_root().unwrap();
    let b = MemoryMetadataRepository::default().get_root().unwrap();
    assert_ne!(a.id, b.id);
    // A random identifier of the standard layout, and a plausible clock.
    assert_eq!(uuid::Uuid::from_u128(a.id).get_version_num(), 4);
    assert!(a.atime.secs > 1_600_000_000);
    assert!(a.atime.nanos < 1_000_000_000);
}

#[test]
fn creates_nested_directories_and_lists_them() {
    let mut repo = MemoryMetadataRepository::new();
    let root = repo.get_root().unwrap().id;
    let docs = create(&mut repo, root, b"docs", "directory");
    let nested = create(&mut repo, docs, b"nested", "directory");
    create(&mut repo, nested, b"notes.txt", "file");

    let children = repo.list_children(nested, 100, 0).unwrap();
    assert_eq!(children.len(), 1);
    assert_eq!(children[0].name, b"notes.txt".to_vec());

    // An empty file starts with no version and zero size.
    let file = repo.get_node(children[0].id).unwrap();
    assert_eq!(file.size, 0);
    assert!(file.current_version_id.is_none());
}

#[test]
fn preserves_raw_non_utf8_filenames() {
    let mut repo = MemoryMetadataRepository::new();
    let root = repo.get_root().unwrap().id;
    let raw = [0xff, 0xfe, b'x'];
    let id = create(&mut repo, root, &raw, "file");
    assert_eq!(repo.get_node(id).unwrap().name, raw.to_vec());
    assert_eq!(repo.find_child(root, &raw).unwrap().id, id);
}

#[test]
fn duplicate_create_is_a_conflict() {
    let mut repo = MemoryMetadataRepository::new();
    let root = repo.get_root().unwrap().id;
    let id = new_id();
    repo.create_node(id, root, b"once".to_vec(), "file", 0o100644, 0, 0)
        .unwrap();
    assert_eq!(
        repo.create_node(id, root, b"once".to_vec(), "file", 0o100644, 0, 0)
            .unwrap_err(),
        RepositoryError::AlreadyExists
    );
    assert_eq!(repo.list_children(root, 10, 0).unwrap().len(), 1);
}

#[test]
fn creating_does_not_look_at_names() {
    let mut repo = MemoryMetadataRepository::new();
    let root = repo.get_root().unwrap().id;
    create(&mut repo, root, b"same", "file");
    create(&mut repo, root, b"same", "file");
    assert_eq!(repo.list_children(root, 10, 0).unwrap().len(), 2);
}

#[test]
fn deleting_undoes_creating() {
    let mut repo = MemoryMetadataRepository::new();
    let root = repo.get_root().unwrap().id;
    let kept = create(&mut repo, root, b"kept", "file");
    let gone = create(&mut repo, root, b"gone", "file");
    repo.delete_node(gone).unwrap();
    assert_eq!(names(&repo.list_children(root, 10, 0).unwrap()), vec![b"kept".to_vec()]);
    assert_eq!(repo.get_node(kept).unwrap().name, b"kept".to_vec());
}

#[test]
fn rename_is_metadata_only() {
    let mut repo = MemoryMetadataRepository::new();
    let root = repo.get_root().unwrap().id;
    let dir = create(&mut repo, root, b"dir", "directory");
    let file = create(&mut repo, root, b"old", "file");
    repo.rename_node(file, dir, b"new".to_vec()).unwrap();

    let node = repo.get_node(file).unwrap();
    assert_eq!(node.name, b"new".to_vec());
    assert_eq!(node.parent_id, Some(dir));
    assert!(node.current_version_id.is_none());
    assert_eq!(repo.list_children(dir, 10, 0).unwrap().len(), 1);
}

#[test]
fn rename_sets_the_change_time_and_nothing_else() {
    let mut repo = MemoryMetadataRepository::with_root(1, at(1));
    repo.create_node_at(2, 1, b"f".to_vec(), "file", 0o100600, 7, 8, at(2))
        .unwrap();
    repo.rename_node_at(2, 1, b"g".to_vec(), at(9)).unwrap();
    let node = repo.get_node(2).unwrap();
    assert_eq!(node.ctime, at(9));
    assert_eq!(node.mtime, at(2));
    assert_eq!(node.atime, at(2));
    assert_eq!((node.mode, node.uid, node.gid), (0o100600, 7, 8));
    assert_eq!(node.kind, "file");
    assert_eq!(
        repo.rename_node_at(99, 1, b"g".to_vec(), at(9)).unwrap_err(),
        RepositoryError::NotFound
    );
}

#[test]
fn publish_never_replaces_an_existing_destination() {
    let mut repo = MemoryMetadataRepository::new();
    let root = repo.get_root().unwrap().id;
    let published = create(&mut repo, root, b"published", "file");
    let temporary = create(&mut repo, root, b".uploading", "file");

    assert_eq!(
        repo.publish_node(temporary, root, b"published".to_vec())
            .unwrap_err(),
        RepositoryError::AlreadyExists
    );
    assert_eq!(repo.get_node(published).unwrap().name, b"published".to_vec());
    assert_eq!(repo.get_node(temporary).unwrap().name, b".uploading".to_vec());

    repo.publish_node(temporary, root, b"new-name".to_vec())
        .unwrap();
    assert_eq!(repo.get_node(temporary).unwrap().name, b"new-name".to_vec());
    assert_eq!(
        repo.publish_node(new_id(), root, b"x".to_vec()).unwrap_err(),
        RepositoryError::NotFound
    );
}

#[test]
fn publishing_under_its_own_name_is_no_conflict() {
    let mut repo = MemoryMetadataRepository::new();
    let root = repo.get_root().unwrap().id;
    let id = create(&mut repo, root, b"same", "file");
    repo.publish_node(id, root, b"same".to_vec()).unwrap();
    repo.rename_node(id, root, b"same".to_vec()).unwrap();
    assert_eq!(repo.find_child(root, b"same").unwrap().id, id);
}

#[test]
fn patch_updates_only_the_supplied_fields() {
    let mut repo = MemoryMetadataRepository::new();
    let root = repo.get_root().unwrap().id;
    let file = create(&mut repo, root, b"attrs", "file");
    let node = repo
        .update_node_attr(file, Some(0o100600), None, None, None, None, None)
        .unwrap();
    assert_eq!(node.mode, 0o100600);
    assert_eq!(node.uid, 1000, "uid must be untouched");
    assert_eq!(
        repo.update_node_attr(new_id(), None, None, None, None, None, None)
            .unwrap_err(),
        RepositoryError::NotFound
    );
}

#[test]
fn patch_can_set_every_field() {
    let mut repo = MemoryMetadataRepository::with_root(1, at(1));
    repo.create_node_at(2, 1, b"f".to_vec(), "file", 0, 0, 0, at(2))
        .unwrap();
    let node = repo
        .update_node_attr_at(
            2,
            Some(1),
            Some(2),
            Some(3),
            Some(4),
            Some(at(5)),
            Some(at(6)),
            at(7),
        )
        .unwrap();
    assert_eq!((node.mode, node.uid, node.gid, node.size), (1, 2, 3, 4));
    assert_eq!((node.mtime, node.atime, node.ctime), (at(5), at(6), at(7)));
    let again = repo.get_node(2).unwrap();
    assert_eq!(again.size, 4);
    assert_eq!(again.ctime, at(7));
}

#[test]
fn unlink_removes_the_node() {
    let mut repo = MemoryMetadataRepository::new();
    let root = repo.get_root().unwrap().id;
    let file = create(&mut repo, root, b"gone", "file");
    repo.delete_node(file).unwrap();
    assert_eq!(repo.get_node(file).unwrap_err(), RepositoryError::NotFound);
    assert_eq!(
        repo.delete_node(file).unwrap_err(),
        RepositoryError::NotFound,
        "deleting twice must not succeed"
    );
}

#[test]
fn children_are_found_by_name() {
    let mut repo = MemoryMetadataRepository::new();
    let root = repo.get_root().unwrap().id;
    let docs = create(&mut repo, root, b"docs", "directory");
    let file = create(&mut repo, docs, b"a.txt", "file");
    assert_eq!(repo.find_child(root, b"docs").unwrap().id, docs);
    assert_eq!(repo.find_child(docs, b"a.txt").unwrap().id, file);
    assert_eq!(
        repo.find_child(docs, b"missing").unwrap_err(),
        RepositoryError::NotFound
    );
    assert_eq!(
        repo.find_child(root, b"a.txt").unwrap_err(),
        RepositoryError::NotFound
    );
}

#[test]
fn list_children_paginates() {
    let mut repo = MemoryMetadataRepository::new();
    let root = repo.get_root().unwrap().id;
    for i in 0..5u8 {
        create(&mut repo, root, &[b'f', b'0' + i], "file");
    }
    assert_eq!(repo.list_children(root, 2, 0).unwrap().len(), 2);
    assert_eq!(repo.list_children(root, 10, 4).unwrap().len(), 1);
    assert_eq!(repo.list_children(root, 10, 5).unwrap().len(), 0);
    assert_eq!(repo.list_children(root, 0, 0).unwrap().len(), 0);
}

#[test]
fn pages_join_up() {
    let mut repo = MemoryMetadataRepository::new();
    let root = repo.get_root().unwrap().id;
    for i in 0..7u8 {
        create(&mut repo, root, &[b'f', b'0' + i], "file");
    }
    let mut paged: Vec<u128> = Vec::new();
    for page in 0..4u32 {
        paged.extend(
            repo.list_children(root, 2, 2 * page)
                .unwrap()
                .iter()
                .map(|n| n.id),
        );
    }
    let whole: Vec<u128> = repo
        .list_children(root, 100, 0)
        .unwrap()
        .iter()
        .map(|n| n.id)
        .collect();
    assert_eq!(paged, whole);
    assert_eq!(whole.len(), 7);
}

#[test]
fn rename_replaces_an_existing_file() {
    let mut repo = MemoryMetadataRepository::new();
    let root = repo.get_root().unwrap().id;
    let target = create(&mut repo, root, b"config", "file");
    let temp = create(&mut repo, root, b"config.lock", "file");
    repo.rename_node(temp, root, b"config".to_vec()).unwrap();

    // One entry survives, and it is the file that was renamed in.
    assert_eq!(
        names(&repo.list_children(root, 10, 0).unwrap()),
        vec![b"config".to_vec()]
    );
    assert_eq!(repo.get_node(temp).unwrap().id, temp, "the renamed node kept its id");
    assert_eq!(
        repo.get_node(target).unwrap_err(),
        RepositoryError::NotFound,
        "the replaced node is gone"
    );
}

#[test]
fn rename_onto_a_non_empty_directory_is_refused() {
    let mut repo = MemoryMetadataRepository::new();
    let root = repo.get_root().unwrap().id;
    let occupied = create(&mut repo, root, b"occupied", "directory");
    let child = create(&mut repo, occupied, b"child", "file");
    let mover = create(&mut repo, root, b"mover", "directory");
    assert_eq!(
        repo.rename_node(mover, root, b"occupied".to_vec())
            .unwrap_err(),
        RepositoryError::DirectoryNotEmpty
    );
    // Both directories survive untouched.
    assert_eq!(repo.get_node(occupied).unwrap().name, b"occupied".to_vec());
    assert_eq!(repo.get_node(mover).unwrap().name, b"mover".to_vec());

    // Once it is empty, the directory is replaced.
    repo.delete_node(child).unwrap();
    repo.rename_node(mover, root, b"occupied".to_vec()).unwrap();
    assert_eq!(repo.find_child(root, b"occupied").unwrap().id, mover);
}

#[test]
fn replacing_takes_the_victim_that_it_is_given() {
    let mut repo = MemoryMetadataRepository::with_root(1, at(1));
    for id in [2u128, 3, 4] {
        repo.create_node_at(id, 1, b"same".to_vec(), "file", 0, 0, 0, at(2))
            .unwrap();
    }
    repo.replace_node(2, 1, b"same".to_vec(), Some(4), at(3)).unwrap();
    assert_eq!(repo.get_node(4).unwrap_err(), RepositoryError::NotFound);
    assert_eq!(repo.get_node(3).unwrap().ctime, at(2));
    assert_eq!(repo.get_node(2).unwrap().ctime, at(3));
}

#[test]
fn symlinks_carry_a_raw_target() {
    let mut repo = MemoryMetadataRepository::new();
    let root = repo.get_root().unwrap().id;
    let id = new_id();
    let link = repo
        .create_symlink(id, root, b"link".to_vec(), b"../elsewhere".to_vec(), 1000, 1000)
        .unwrap();
    assert_eq!(link.kind, "symlink");
    assert_eq!(link.link_target, Some(b"../elsewhere".to_vec()));
    assert_eq!(link.size, 12);
    assert_eq!(link.mode, 0o120777);
    assert_eq!(
        repo.get_node(id).unwrap().link_target,
        Some(b"../elsewhere".to_vec())
    );
}

#[test]
fn symlinks_keep_names_unique() {
    let mut repo = MemoryMetadataRepository::with_root(1, at(1));
    repo.create_symlink_at(2, 1, b"l".to_vec(), b"a".to_vec(), 0, 0, at(2))
        .unwrap();
    // Neither a taken name nor a taken identifier will do.
    assert_eq!(
        repo.create_symlink_at(3, 1, b"l".to_vec(), b"b".to_vec(), 0, 0, at(3))
            .unwrap_err(),
        RepositoryError::AlreadyExists
    );
    assert_eq!(
        repo.create_symlink_at(2, 1, b"m".to_vec(), b"b".to_vec(), 0, 0, at(3))
            .unwrap_err(),
        RepositoryError::AlreadyExists
    );
    assert_eq!(repo.list_children(1, 10, 0).unwrap().len(), 1);
}
