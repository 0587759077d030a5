use futurecommander::capability::{BlindGuard, QuietGuard, ZealedGuard};
use futurecommander::disk::{RealFileSystem, RealNode};
use futurecommander::errors::{DomainError, DomainErrorOf};
use futurecommander::event::{CopyEvent, CreateEvent, MoveEvent, RemoveEvent};
use futurecommander::kind::Kind;
use futurecommander::path::FsPath;
use futurecommander::port::{FileSystemAdapter, ReadableFileSystem};
use futurecommander::virt::VirtualFileSystem;

fn p(s: &str) -> FsPath {
    FsPath::new(s)
}

fn build(nodes: &[(&str, Kind, u64)]) -> RealFileSystem {
    let mut fs = RealFileSystem::new();
    for (path, kind, size) in nodes {
        assert!(fs.insert(RealNode::new(p(path), *kind, *size)));
    }
    fs
}

fn simple_chroot() -> RealFileSystem {
    build(&[
        ("/chroot", Kind::Directory, 0),
        ("/chroot/RDIR", Kind::Directory, 0),
        ("/chroot/RDIR/RFILEA", Kind::File, 11),
        ("/chroot/RDIR/RFILEB", Kind::File, 12),
        ("/chroot/RDIR2", Kind::Directory, 0),
        ("/chroot/RDIR2/RFILEA", Kind::File, 6),
        ("/chroot/RDIR2/RFILEC", Kind::File, 7),
        ("/chroot/RDIR3", Kind::Directory, 0),
    ])
}

fn static_samples() -> RealFileSystem {
    build(&[
        ("/samples", Kind::Directory, 0),
        ("/samples/A", Kind::Directory, 0),
        ("/samples/A/.gitkeep", Kind::File, 0),
        ("/samples/A/C", Kind::File, 5),
        ("/samples/B", Kind::Directory, 0),
        ("/samples/B/.gitkeep", Kind::File, 0),
        ("/samples/B/D", Kind::Directory, 0),
        ("/samples/B/D/E", Kind::Directory, 0),
        ("/samples/B/D/G", Kind::Directory, 0),
        ("/samples/F", Kind::File, 3),
    ])
}

fn present<F: ReadableFileSystem>(fs: &F, s: &str) -> bool {
    fs.status(&p(s)).unwrap().is_existing()
}

#[test]
fn create_operation_directory() {
    let mut fs = FileSystemAdapter(simple_chroot());
    CreateEvent::new(&p("/chroot/CREATED"), Kind::Directory, false, false)
        .atomize(&fs)
        .unwrap()
        .apply(&mut fs)
        .unwrap();
    assert!(fs.status(&p("/chroot/CREATED")).unwrap().is_dir());
    assert!(present(&fs, "/chroot/CREATED"));
}

#[test]
fn create_operation_directory_recursive() {
    let mut fs = FileSystemAdapter(simple_chroot());
    CreateEvent::new(&p("/chroot/CREATED/NESTED/DIRECTORY"), Kind::Directory, true, false)
        .atomize(&fs)
        .unwrap()
        .apply(&mut fs)
        .unwrap();
    assert!(present(&fs, "/chroot/CREATED/NESTED/DIRECTORY"));
    assert!(fs.status(&p("/chroot/CREATED/NESTED/DIRECTORY")).unwrap().is_dir());
}

#[test]
fn create_operation_file() {
    let mut fs = FileSystemAdapter(simple_chroot());
    CreateEvent::new(&p("/chroot/CREATED"), Kind::File, false, false)
        .atomize(&fs)
        .unwrap()
        .apply(&mut fs)
        .unwrap();
    assert!(present(&fs, "/chroot/CREATED"));
    assert!(fs.status(&p("/chroot/CREATED")).unwrap().is_file());
}

#[test]
fn create_operation_file_overwrite() {
    let mut fs = FileSystemAdapter(simple_chroot());
    let a_len = fs.0.size(&p("/chroot/RDIR/RFILEA"));
    CreateEvent::new(&p("/chroot/RDIR/RFILEA"), Kind::File, false, true)
        .atomize(&fs)
        .unwrap()
        .apply(&mut fs)
        .unwrap();
    assert!(present(&fs, "/chroot/RDIR/RFILEA"));
    assert_ne!(a_len, fs.0.size(&p("/chroot/RDIR/RFILEA")));
}

#[test]
fn virtual_create_operation_directory() {
    let mut fs = FileSystemAdapter(VirtualFileSystem::over(simple_chroot()));
    CreateEvent::new(&p("/chroot/CREATED"), Kind::Directory, false, false)
        .atomize(&fs)
        .unwrap()
        .apply(&mut fs)
        .unwrap();
    assert!(fs.0.virtual_state().unwrap().is_virtual(&p("/chroot/CREATED")).unwrap());
    assert!(fs.0.virtual_state().unwrap().is_directory(&p("/chroot/CREATED")).unwrap());
}

#[test]
fn virtual_create_operation_directory_recursive() {
    let mut fs = FileSystemAdapter(VirtualFileSystem::over(simple_chroot()));
    let opcodes = CreateEvent::new(&p("/chroot/CREATED/NESTED/DIRECTORY"), Kind::Directory, true, false)
        .atomize(&fs)
        .unwrap();
    opcodes.apply(&mut fs).unwrap();
    let state = fs.0.virtual_state().unwrap();
    assert!(state.is_virtual(&p("/chroot/CREATED/NESTED/DIRECTORY")).unwrap());
    assert!(state.is_directory(&p("/chroot/CREATED/NESTED/DIRECTORY")).unwrap());
}

#[test]
fn virtual_create_operation_file() {
    let mut fs = FileSystemAdapter(VirtualFileSystem::over(simple_chroot()));
    CreateEvent::new(&p("/chroot/CREATED"), Kind::File, false, false)
        .atomize(&fs)
        .unwrap()
        .apply(&mut fs)
        .unwrap();
    assert!(fs.0.virtual_state().unwrap().is_virtual(&p("/chroot/CREATED")).unwrap());
    assert!(fs.0.virtual_state().unwrap().is_file(&p("/chroot/CREATED")).unwrap());
}

#[test]
fn create_virtual_create_operation_file_overwrite() {
    let mut fs = FileSystemAdapter(VirtualFileSystem::over(simple_chroot()));
    let opcodes = CreateEvent::new(&p("/chroot/RDIR/RFILEA"), Kind::File, false, true)
        .atomize(&fs)
        .unwrap();
    opcodes.apply(&mut fs).unwrap();
    let entry = fs.status(&p("/chroot/RDIR/RFILEA")).unwrap();
    assert!(entry.is_existing());
    assert!(entry.is_file());
}

#[test]
fn move_operation_dir() {
    let mut fs = FileSystemAdapter(simple_chroot());
    MoveEvent::new(&p("/chroot/RDIR"), &p("/chroot/MOVED"), false, false)
        .atomize(&fs)
        .unwrap()
        .apply(&mut fs)
        .unwrap();
    assert!(!present(&fs, "/chroot/RDIR"));
    assert!(present(&fs, "/chroot/MOVED"));
    assert!(present(&fs, "/chroot/MOVED/RFILEA"));
    assert!(present(&fs, "/chroot/MOVED/RFILEB"));
}

#[test]
fn move_operation_dir_merge_overwrite() {
    let mut fs = FileSystemAdapter(simple_chroot());
    let a_len = fs.0.size(&p("/chroot/RDIR/RFILEA"));
    let opcodes = MoveEvent::new(&p("/chroot/RDIR"), &p("/chroot/RDIR2"), true, true)
        .atomize(&fs)
        .unwrap();
    opcodes.apply(&mut fs).unwrap();
    assert!(!present(&fs, "/chroot/RDIR"));
    assert!(present(&fs, "/chroot/RDIR2/RFILEA"));
    assert!(present(&fs, "/chroot/RDIR2/RFILEB"));
    assert!(present(&fs, "/chroot/RDIR2/RFILEC"));
    assert_eq!(a_len, fs.0.size(&p("/chroot/RDIR2/RFILEA")));
}

#[test]
fn move_operation_file() {
    let mut fs = FileSystemAdapter(simple_chroot());
    let a_len = fs.0.size(&p("/chroot/RDIR/RFILEA"));
    MoveEvent::new(&p("/chroot/RDIR/RFILEA"), &p("/chroot/MOVED"), false, false)
        .atomize(&fs)
        .unwrap()
        .apply(&mut fs)
        .unwrap();
    assert!(!present(&fs, "/chroot/RDIR/RFILEA"));
    assert!(present(&fs, "/chroot/MOVED"));
    assert_eq!(a_len, fs.0.size(&p("/chroot/MOVED")));
}

#[test]
fn move_operation_file_overwrite() {
    let mut fs = FileSystemAdapter(simple_chroot());
    let a_len = fs.0.size(&p("/chroot/RDIR/RFILEA"));
    MoveEvent::new(&p("/chroot/RDIR/RFILEA"), &p("/chroot/RDIR2/RFILEA"), false, true)
        .atomize(&fs)
        .unwrap()
        .apply(&mut fs)
        .unwrap();
    assert!(!present(&fs, "/chroot/RDIR/RFILEA"));
    assert!(present(&fs, "/chroot/RDIR2/RFILEA"));
    assert_eq!(a_len, fs.0.size(&p("/chroot/RDIR2/RFILEA")));
}

#[test]
fn virtual_move_operation_directory() {
    let mut fs = FileSystemAdapter(VirtualFileSystem::over(static_samples()));
    MoveEvent::new(&p("/samples/A"), &p("/samples/Z"), false, false)
        .atomize(&fs)
        .unwrap()
        .apply(&mut fs)
        .unwrap();
    let state = fs.0.virtual_state().unwrap();
    assert!(!state.is_virtual(&p("/samples/A")).unwrap());
    assert!(state.is_virtual(&p("/samples/Z")).unwrap());
    assert!(state.is_directory(&p("/samples/Z")).unwrap());
}

#[test]
fn virtual_move_operation_directory_merge() {
    let mut fs = FileSystemAdapter(VirtualFileSystem::over(static_samples()));
    let gitkeep = p("/samples/B/.gitkeep");
    fs.0.mut_sub_state().attach(&gitkeep, Some(&gitkeep), Kind::File).unwrap();
    MoveEvent::new(&p("/samples/B"), &p("/samples/A"), true, false)
        .atomize(&fs)
        .unwrap()
        .apply(&mut fs)
        .unwrap();
    let state = fs.0.virtual_state().unwrap();
    assert!(!state.is_virtual(&p("/samples/B")).unwrap());
    assert!(state.is_virtual(&p("/samples/A/D")).unwrap());
    assert!(state.is_directory(&p("/samples/A/D")).unwrap());
}

#[test]
fn virtual_move_operation_file() {
    let mut fs = FileSystemAdapter(VirtualFileSystem::over(static_samples()));
    MoveEvent::new(&p("/samples/F"), &p("/samples/Z"), false, false)
        .atomize(&fs)
        .unwrap()
        .apply(&mut fs)
        .unwrap();
    let state = fs.0.virtual_state().unwrap();
    assert!(!state.is_virtual(&p("/samples/F")).unwrap());
    assert!(state.is_virtual(&p("/samples/Z")).unwrap());
    assert!(state.is_file(&p("/samples/Z")).unwrap());
}

#[test]
fn virtual_move_operation_file_overwrite() {
    let mut fs = FileSystemAdapter(VirtualFileSystem::over(static_samples()));
    MoveEvent::new(&p("/samples/F"), &p("/samples/A/C"), false, true)
        .atomize(&fs)
        .unwrap()
        .apply(&mut fs)
        .unwrap();
    let state = fs.0.virtual_state().unwrap();
    assert!(!state.is_virtual(&p("/samples/F")).unwrap());
    assert!(state.is_virtual(&p("/samples/A/C")).unwrap());
    assert!(state.is_file(&p("/samples/A/C")).unwrap());
}

fn both() -> (FileSystemAdapter<VirtualFileSystem>, FileSystemAdapter<RealFileSystem>) {
    (
        FileSystemAdapter(VirtualFileSystem::over(static_samples())),
        FileSystemAdapter(static_samples()),
    )
}

fn expect(r: Result<futurecommander::atomic::AtomicTransaction, DomainError>, expected: &DomainError) {
    assert_eq!(&r.err().unwrap(), expected);
}

#[test]
fn error_copy_into_itself() {
    let (vfs, rfs) = both();
    let source = p("/samples/B");
    let destination = p("/samples/B/D/B");
    let expected = DomainErrorOf::CopyIntoItSelf(source.clone(), destination.clone());
    expect(MoveEvent::new(&source, &destination, true, false).atomize_guarded(&vfs, &mut ZealedGuard), &expected);
    expect(MoveEvent::new(&source, &destination, true, false).atomize_guarded(&rfs, &mut ZealedGuard), &expected);
    expect(CopyEvent::new(&source, &destination, true, false).atomize_guarded(&vfs, &mut ZealedGuard), &expected);
    expect(CopyEvent::new(&source, &destination, true, false).atomize_guarded(&rfs, &mut ZealedGuard), &expected);
}

#[test]
fn error_merge_not_allowed() {
    let (vfs, rfs) = both();
    let source = p("/samples/B");
    let destination = p("/samples/A");
    let expected = DomainErrorOf::MergeNotAllowed(destination.clone());
    expect(MoveEvent::new(&source, &destination, false, false).atomize_guarded(&vfs, &mut ZealedGuard), &expected);
    expect(MoveEvent::new(&source, &destination, false, false).atomize_guarded(&rfs, &mut ZealedGuard), &expected);
    expect(CopyEvent::new(&source, &destination, false, false).atomize_guarded(&vfs, &mut ZealedGuard), &expected);
    expect(CopyEvent::new(&source, &destination, false, false).atomize_guarded(&rfs, &mut ZealedGuard), &expected);
}

#[test]
fn error_overwrite_not_allowed() {
    let (vfs, rfs) = both();
    let source = p("/samples/F");
    let destination = p("/samples/A/C");
    let expected = DomainErrorOf::OverwriteNotAllowed(destination.clone());
    expect(MoveEvent::new(&source, &destination, true, false).atomize_guarded(&vfs, &mut ZealedGuard), &expected);
    expect(MoveEvent::new(&source, &destination, true, false).atomize_guarded(&rfs, &mut ZealedGuard), &expected);
    expect(CopyEvent::new(&source, &destination, true, false).atomize_guarded(&vfs, &mut ZealedGuard), &expected);
    expect(CopyEvent::new(&source, &destination, true, false).atomize_guarded(&rfs, &mut ZealedGuard), &expected);
    expect(CreateEvent::new(&destination, Kind::File, false, false).atomize_guarded(&vfs, &mut ZealedGuard), &expected);
    expect(CreateEvent::new(&destination, Kind::File, false, false).atomize_guarded(&rfs, &mut ZealedGuard), &expected);
}

#[test]
fn error_directory_overwrite_not_allowed() {
    let (vfs, rfs) = both();
    let to_overwrite = p("/samples/A/C");
    let expected = DomainErrorOf::DirectoryOverwriteNotAllowed(to_overwrite.clone());
    expect(CreateEvent::new(&to_overwrite, Kind::Directory, false, false).atomize_guarded(&vfs, &mut ZealedGuard), &expected);
    expect(CreateEvent::new(&to_overwrite, Kind::Directory, false, false).atomize_guarded(&rfs, &mut ZealedGuard), &expected);
}

#[test]
fn error_merge_file_with_directory() {
    let (vfs, rfs) = both();
    let source = p("/samples/B");
    let destination = p("/samples/A/C");
    let expected = DomainErrorOf::MergeFileWithDirectory(source.clone(), destination.clone());
    expect(MoveEvent::new(&source, &destination, true, false).atomize_guarded(&vfs, &mut ZealedGuard), &expected);
    expect(MoveEvent::new(&source, &destination, true, false).atomize_guarded(&rfs, &mut ZealedGuard), &expected);
    expect(CopyEvent::new(&source, &destination, true, false).atomize_guarded(&vfs, &mut ZealedGuard), &expected);
    expect(CopyEvent::new(&source, &destination, true, false).atomize_guarded(&rfs, &mut ZealedGuard), &expected);
}

#[test]
fn error_overwrite_directory_with_file() {
    let (vfs, rfs) = both();
    let source = p("/samples/A/C");
    let destination = p("/samples/B");
    let expected = DomainErrorOf::OverwriteDirectoryWithFile(source.clone(), destination.clone());
    expect(MoveEvent::new(&source, &destination, true, true).atomize_guarded(&vfs, &mut ZealedGuard), &expected);
    expect(MoveEvent::new(&source, &destination, true, true).atomize_guarded(&rfs, &mut ZealedGuard), &expected);
    expect(CopyEvent::new(&source, &destination, true, true).atomize_guarded(&vfs, &mut ZealedGuard), &expected);
    expect(CopyEvent::new(&source, &destination, true, true).atomize_guarded(&rfs, &mut ZealedGuard), &expected);
}

#[test]
fn error_create_unknown() {
    let (vfs, rfs) = both();
    let dummy = p("/samples/A");
    let expected = DomainErrorOf::CreateUnknown(dummy.clone());
    expect(CreateEvent::new(&dummy, Kind::Unknown, false, false).atomize_guarded(&vfs, &mut ZealedGuard), &expected);
    expect(CreateEvent::new(&dummy, Kind::Unknown, false, false).atomize_guarded(&rfs, &mut ZealedGuard), &expected);
}

#[test]
fn error_does_not_exists() {
    let (vfs, rfs) = both();
    let not_exists = p("/samples/NOTEXISTS");
    let expected = DomainErrorOf::DoesNotExists(not_exists.clone());
    expect(RemoveEvent::new(&not_exists, false).atomize_guarded(&vfs, &mut ZealedGuard), &expected);
    expect(RemoveEvent::new(&not_exists, false).atomize_guarded(&rfs, &mut ZealedGuard), &expected);
}

#[test]
fn error_delete_recursive_not_allowed() {
    let (vfs, rfs) = both();
    let not_empty_dir = p("/samples/A");
    let expected = DomainErrorOf::RecursiveNotAllowed(not_empty_dir.clone());
    expect(RemoveEvent::new(&not_empty_dir, false).atomize_guarded(&vfs, &mut ZealedGuard), &expected);
    expect(RemoveEvent::new(&not_empty_dir, false).atomize_guarded(&rfs, &mut ZealedGuard), &expected);
}

#[test]
fn domain_error_source_does_not_exists() {
    let (vfs, rfs) = both();
    let not_existing_source = p("/samples/NOTEXISTS");
    let destination = p("/samples/NEW");
    let expected = DomainErrorOf::SourceDoesNotExists(not_existing_source.clone());
    expect(MoveEvent::new(&not_existing_source, &destination, true, false).atomize_guarded(&vfs, &mut ZealedGuard), &expected);
    expect(MoveEvent::new(&not_existing_source, &destination, true, false).atomize_guarded(&rfs, &mut ZealedGuard), &expected);
    expect(CopyEvent::new(&not_existing_source, &destination, true, false).atomize_guarded(&vfs, &mut ZealedGuard), &expected);
    expect(CopyEvent::new(&not_existing_source, &destination, true, false).atomize_guarded(&rfs, &mut ZealedGuard), &expected);
}

#[test]
fn quiet_guard_skips_what_was_not_asked() {
    let rfs = FileSystemAdapter(static_samples());
    let t = CopyEvent::new(&p("/samples/B"), &p("/samples/A"), false, false)
        .atomize_guarded(&rfs, &mut QuietGuard)
        .unwrap();
    assert!(t.is_empty());
    let t = RemoveEvent::new(&p("/samples/A"), false).atomize_guarded(&rfs, &mut QuietGuard).unwrap();
    assert!(t.is_empty());
}

#[test]
fn blind_guard_merges_and_overwrites() {
    let mut rfs = FileSystemAdapter(static_samples());
    let t = CopyEvent::new(&p("/samples/B"), &p("/samples/A"), false, false)
        .atomize_guarded(&rfs, &mut BlindGuard)
        .unwrap();
    t.apply(&mut rfs).unwrap();
    assert!(present(&rfs, "/samples/A/D/E"));
    assert!(present(&rfs, "/samples/B/D/G"));
}

#[test]
fn remove_recursive_removes_the_tree() {
    let mut rfs = FileSystemAdapter(static_samples());
    let t = RemoveEvent::new(&p("/samples/B"), true).atomize(&rfs).unwrap();
    assert_eq!(t.len(), 5);
    t.apply(&mut rfs).unwrap();
    assert!(!present(&rfs, "/samples/B"));
    assert!(!present(&rfs, "/samples/B/D/E"));
    assert!(present(&rfs, "/samples/A/C"));
}

#[test]
fn copy_a_directory_writes_in_order() {
    let rfs = FileSystemAdapter(simple_chroot());
    let t = CopyEvent::new(&p("/chroot/RDIR"), &p("/chroot/COPY"), false, false).atomize(&rfs).unwrap();
    let atomics = t.into_atomics();
    assert_eq!(atomics.len(), 3);
    assert_eq!(atomics[0], futurecommander::atomic::AtomicOf::CreateEmptyDirectory(p("/chroot/COPY")));
    assert_eq!(
        atomics[1],
        futurecommander::atomic::AtomicOf::CopyFileToFile(p("/chroot/RDIR/RFILEA"), p("/chroot/COPY/RFILEA"))
    );
    assert_eq!(
        atomics[2],
        futurecommander::atomic::AtomicOf::CopyFileToFile(p("/chroot/RDIR/RFILEB"), p("/chroot/COPY/RFILEB"))
    );
}

#[test]
fn virtual_copy_then_real_copy_agree() {
    let mut vfs = FileSystemAdapter(VirtualFileSystem::over(simple_chroot()));
    let mut rfs = FileSystemAdapter(simple_chroot());
    let event = CopyEvent::new(&p("/chroot/RDIR"), &p("/chroot/RDIR3/IN"), false, false);
    event.atomize(&vfs).unwrap().apply(&mut vfs).unwrap();
    event.atomize(&rfs).unwrap().apply(&mut rfs).unwrap();
    for path in ["/chroot/RDIR3/IN", "/chroot/RDIR3/IN/RFILEA", "/chroot/RDIR3/IN/RFILEB"] {
        assert!(present(&vfs, path));
        assert!(present(&rfs, path));
    }
}

#[test]
fn a_move_of_the_deepest_tree_walks_to_its_bottom() {
    let mut fs = FileSystemAdapter(build(&[
        ("/a", Kind::Directory, 0),
        ("/a/b", Kind::Directory, 0),
        ("/a/b/c", Kind::Directory, 0),
        ("/a/b/c/d", Kind::File, 4),
    ]));
    assert_eq!(fs.depth_bound(), 4);
    let t = MoveEvent::new(&p("/a/b"), &p("/x"), false, false).atomize(&fs).unwrap();
    assert_eq!(t.len(), 5);
    t.apply(&mut fs).unwrap();
    assert!(present(&fs, "/x/c/d"));
    assert!(!present(&fs, "/a/b"));

    let t = RemoveEvent::new(&p("/x"), true).atomize(&fs).unwrap();
    assert_eq!(t.len(), 3);
    t.apply(&mut fs).unwrap();
    assert!(!present(&fs, "/x"));
    assert!(present(&fs, "/a"));
}

#[test]
fn a_virtual_move_of_a_bound_copy_walks_to_its_bottom() {
    let mut fs = FileSystemAdapter(VirtualFileSystem::over(build(&[
        ("/a", Kind::Directory, 0),
        ("/a/b", Kind::Directory, 0),
        ("/a/b/c", Kind::File, 4),
    ])));
    CopyEvent::new(&p("/a"), &p("/x"), false, false).atomize(&fs).unwrap().apply(&mut fs).unwrap();
    assert!(present(&fs, "/x/b/c"));
    let t = MoveEvent::new(&p("/x"), &p("/y"), false, false).atomize(&fs).unwrap();
    assert_eq!(t.len(), 5);
    t.apply(&mut fs).unwrap();
    assert!(present(&fs, "/y/b/c"));
    assert!(!present(&fs, "/x"));
    assert!(present(&fs, "/a/b/c"));
}
