use futurecommander::disk::{RealFileSystem, RealNode};
use futurecommander::kind::Kind;
use futurecommander::operation::CreateOperation;
use futurecommander::path::FsPath;
use futurecommander::port::{FileSystemAdapter, ReadableFileSystem, WriteableFileSystem};
use futurecommander::representation::VirtualPath;
use futurecommander::virt::{VirtualFileSystem, VirtualState, VirtualStatus};

fn p(s: &str) -> FsPath {
    FsPath::new(s)
}

fn build(nodes: &[(&str, Kind, u64)]) -> RealFileSystem {
    let mut fs = RealFileSystem::new();
    for (path, kind, size) in nodes {
        assert!(fs.insert(RealNode::new(p(path), *kind, *size)));
    }
    fs
}

fn simple_chroot() -> RealFileSystem {
    build(&[
        ("/chroot", Kind::Directory, 0),
        ("/chroot/RDIR", Kind::Directory, 0),
        ("/chroot/RDIR/RFILEA", Kind::File, 11),
        ("/chroot/RDIR/RFILEB", Kind::File, 12),
        ("/chroot/RDIR2", Kind::Directory, 0),
        ("/chroot/RDIR2/RFILEA", Kind::File, 6),
        ("/chroot/RDIR2/RFILEC", Kind::File, 7),
        ("/chroot/RDIR3", Kind::Directory, 0),
    ])
}

fn static_samples() -> RealFileSystem {
    build(&[
        ("/samples", Kind::Directory, 0),
        ("/samples/A", Kind::Directory, 0),
        ("/samples/A/.gitkeep", Kind::File, 0),
        ("/samples/A/C", Kind::File, 5),
        ("/samples/B", Kind::Directory, 0),
        ("/samples/B/.gitkeep", Kind::File, 0),
        ("/samples/B/D", Kind::Directory, 0),
        ("/samples/B/D/E", Kind::Directory, 0),
        ("/samples/B/D/G", Kind::Directory, 0),
        ("/samples/F", Kind::File, 3),
    ])
}

fn contains(collection: &[VirtualStatus], expected: &VirtualStatus) -> bool {
    collection.iter().any(|s| s.same(expected))
}

fn existing(path: &FsPath, kind: Kind) -> VirtualStatus {
    VirtualStatus::new(VirtualState::Exists, VirtualPath::from(path.clone(), Some(path.clone()), kind).unwrap())
}

#[test]
fn status_query_relay_real_fs() {
    let vfs = FileSystemAdapter(VirtualFileSystem::over(static_samples()));
    let status = vfs.virtual_status(&p("/samples")).unwrap();
    assert_eq!(status.state(), VirtualState::Exists);
    assert!(status.is_dir());
}

#[test]
fn read_dir_query_relay_real_fs() {
    let vfs = FileSystemAdapter(VirtualFileSystem::over(static_samples()));
    let collection = vfs.read_virtual_dir(&p("/samples")).unwrap();
    assert!(contains(&collection, &existing(&p("/samples/A"), Kind::Directory)));
    assert!(contains(&collection, &existing(&p("/samples/B"), Kind::Directory)));
    assert!(contains(&collection, &existing(&p("/samples/F"), Kind::File)));
}

#[test]
fn create_virtual_create_operation_directory() {
    let mut fs = VirtualFileSystem::over(simple_chroot());
    let operation = CreateOperation::new(&p("/chroot/CREATED"), Kind::Directory, false, false);
    operation.execute(&mut fs).unwrap();
    assert!(fs.virtual_state().unwrap().is_virtual(&p("/chroot/CREATED")).unwrap());
    assert!(fs.virtual_state().unwrap().is_directory(&p("/chroot/CREATED")).unwrap());
}

#[test]
fn create_virtual_create_operation_directory_recursive() {
    let mut fs = VirtualFileSystem::over(simple_chroot());
    let operation = CreateOperation::new(&p("/chroot/CREATED/NESTED/DIRECTORY"), Kind::Directory, true, false);
    operation.execute(&mut fs).unwrap();
    assert!(fs.virtual_state().unwrap().is_virtual(&p("/chroot/CREATED/NESTED/DIRECTORY")).unwrap());
    assert!(fs.virtual_state().unwrap().is_directory(&p("/chroot/CREATED/NESTED/DIRECTORY")).unwrap());
}

#[test]
fn create_virtual_create_operation_file() {
    let mut fs = VirtualFileSystem::over(simple_chroot());
    let operation = CreateOperation::new(&p("/chroot/CREATED"), Kind::File, false, false);
    operation.execute(&mut fs).unwrap();
    assert!(fs.virtual_state().unwrap().is_virtual(&p("/chroot/CREATED")).unwrap());
    assert!(fs.virtual_state().unwrap().is_file(&p("/chroot/CREATED")).unwrap());
}

#[test]
fn virtual_create_operation_file_overwrite() {
    let mut fs = VirtualFileSystem::over(simple_chroot());
    let operation = CreateOperation::new(&p("/chroot/RDIR/RFILEA"), Kind::File, false, true);
    operation.execute(&mut fs).unwrap();
    assert!(fs.virtual_state().unwrap().is_virtual(&p("/chroot/RDIR/RFILEA")).unwrap());
    assert!(fs.virtual_state().unwrap().is_file(&p("/chroot/RDIR/RFILEA")).unwrap());
}

#[test]
fn virtual_status_follows_the_writes() {
    let mut vfs = FileSystemAdapter(VirtualFileSystem::over(simple_chroot()));
    assert_eq!(vfs.virtual_status(&p("/chroot/RDIR/RFILEA")).unwrap().state(), VirtualState::Exists);
    vfs.remove_file(&p("/chroot/RDIR/RFILEA")).unwrap();
    assert_eq!(vfs.virtual_status(&p("/chroot/RDIR/RFILEA")).unwrap().state(), VirtualState::Removed);
    vfs.create_empty_file(&p("/chroot/NEW")).unwrap();
    assert_eq!(vfs.virtual_status(&p("/chroot/NEW")).unwrap().state(), VirtualState::ExistsVirtually);
    vfs.create_empty_file(&p("/chroot/RDIR/RFILEB")).unwrap();
    assert_eq!(vfs.virtual_status(&p("/chroot/RDIR/RFILEB")).unwrap().state(), VirtualState::Replaced);
    vfs.copy_file_to_file(&p("/chroot/RDIR/RFILEB"), &p("/chroot/RDIR/RFILEA")).unwrap();
    assert!(vfs.status(&p("/chroot/RDIR/RFILEA")).unwrap().is_existing());
    assert_eq!(
        vfs.virtual_status(&p("/chroot/NOWHERE")).unwrap().state(),
        VirtualState::NotExists
    );
}

#[test]
fn virtual_directory_lists_through_its_source() {
    let mut vfs = FileSystemAdapter(VirtualFileSystem::over(simple_chroot()));
    vfs.bind_directory_to_directory(&p("/chroot/RDIR"), &p("/chroot/BOUND")).unwrap();
    let status = vfs.virtual_status(&p("/chroot/BOUND/RFILEA")).unwrap();
    assert_eq!(status.state(), VirtualState::ExistsThroughVirtualParent);
    assert!(status.is_file());
    let children = vfs.read_virtual_dir(&p("/chroot/BOUND")).unwrap();
    assert_eq!(children.len(), 2);
    assert!(children[0].path().same(&p("/chroot/BOUND/RFILEA")));
    let maintained = vfs.read_maintained(&p("/chroot")).unwrap();
    assert_eq!(maintained.len(), 1);
    assert!(maintained[0].path().same(&p("/chroot/BOUND")));
}

#[test]
fn removed_virtual_node_is_gone_and_its_state_is_reset() {
    let mut vfs = FileSystemAdapter(VirtualFileSystem::over(simple_chroot()));
    vfs.create_empty_directory(&p("/chroot/NEWDIR")).unwrap();
    assert!(vfs.0.has_addition());
    vfs.remove_empty_directory(&p("/chroot/NEWDIR")).unwrap();
    assert!(!vfs.status(&p("/chroot/NEWDIR")).unwrap().is_existing());
    vfs.remove_empty_directory(&p("/chroot/RDIR3")).unwrap();
    assert!(vfs.0.has_subtraction());
    vfs.0.reset();
    assert!(vfs.0.is_empty());
    assert!(vfs.status(&p("/chroot/RDIR3")).unwrap().is_existing());
}

#[test]
fn from_file_system_reparents_the_children() {
    let fs = VirtualFileSystem::over(simple_chroot());
    let entries = FileSystemAdapter::<VirtualFileSystem>::from_file_system(
        &fs,
        &p("/chroot/RDIR"),
        Some(&p("/chroot/RDIR")),
        Some(&p("/elsewhere")),
    )
    .unwrap();
    assert_eq!(entries.len(), 2);
    assert!(entries[1].path().same(&p("/elsewhere/RFILEB")));
    assert!(entries[1].as_virtual().as_source().unwrap().same(&p("/chroot/RDIR/RFILEB")));
}

#[test]
fn depth_bound_counts_both_layers() {
    let mut vfs = FileSystemAdapter(VirtualFileSystem::over(simple_chroot()));
    assert_eq!(vfs.depth_bound(), 3 + 0 + 2);
    vfs.create_empty_directory(&p("/chroot/RDIR3/X")).unwrap();
    assert_eq!(vfs.depth_bound(), 3 + 3 + 2);
}
