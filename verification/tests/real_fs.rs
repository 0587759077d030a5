use futurecommander::disk::{RealFileSystem, RealNode};
use futurecommander::errors::{InfrastructureError, InfrastructureErrorOf, OperationErrorOf};
use futurecommander::kind::Kind;
use futurecommander::operation::RemoveOperation;
use futurecommander::path::FsPath;
use futurecommander::port::{FileSystemAdapter, ReadableFileSystem, WriteableFileSystem};
use futurecommander::virt::VirtualFileSystem;

fn p(s: &str) -> FsPath {
    FsPath::new(s)
}

fn build(nodes: &[(&str, Kind, u64)]) -> RealFileSystem {
    let mut fs = RealFileSystem::new();
    for (path, kind, size) in nodes {
        assert!(fs.insert(RealNode::new(p(path), *kind, *size)));
    }
    fs
}

fn simple_chroot() -> RealFileSystem {
    build(&[
        ("/chroot", Kind::Directory, 0),
        ("/chroot/RDIR", Kind::Directory, 0),
        ("/chroot/RDIR/RFILEA", Kind::File, 11),
        ("/chroot/RDIR/RFILEB", Kind::File, 12),
        ("/chroot/RDIR2", Kind::Directory, 0),
        ("/chroot/RDIR2/RFILEA", Kind::File, 6),
        ("/chroot/RDIR2/RFILEC", Kind::File, 7),
        ("/chroot/RDIR3", Kind::Directory, 0),
    ])
}

fn advanced_chroot() -> RealFileSystem {
    build(&[
        ("/samples", Kind::Directory, 0),
        ("/samples/A", Kind::Directory, 0),
        ("/samples/A/.gitkeep", Kind::File, 0),
        ("/samples/A/C", Kind::File, 5),
        ("/samples/B", Kind::Directory, 0),
        ("/samples/B/.gitkeep", Kind::File, 0),
        ("/samples/B/D", Kind::Directory, 0),
        ("/samples/B/D/E", Kind::Directory, 0),
        ("/samples/B/D/G", Kind::Directory, 0),
        ("/samples/F", Kind::File, 3),
    ])
}

fn present(fs: &FileSystemAdapter<RealFileSystem>, s: &str) -> bool {
    fs.status(&p(s)).unwrap().is_existing()
}

#[test]
fn create_empty_file() {
    let mut fs = FileSystemAdapter(simple_chroot());
    fs.create_empty_file(&p("/chroot/FILE")).unwrap();
    let entry = fs.status(&p("/chroot/FILE")).unwrap();
    assert!(entry.is_existing());
    assert!(entry.is_file());
}

#[test]
fn create_empty_directory() {
    let mut fs = FileSystemAdapter(simple_chroot());
    fs.create_empty_directory(&p("/chroot/DIRECTORY")).unwrap();
    let entry = fs.status(&p("/chroot/DIRECTORY")).unwrap();
    assert!(entry.is_existing());
    assert!(entry.is_dir());
}

#[test]
fn copy_file_to_file() {
    let mut fs = FileSystemAdapter(simple_chroot());
    fs.copy_file_to_file(&p("/chroot/RDIR/RFILEA"), &p("/chroot/COPIED")).unwrap();
    let entry = fs.status(&p("/chroot/COPIED")).unwrap();
    assert!(entry.is_existing());
    assert!(entry.is_file());
    assert!(fs.0.size(&p("/chroot/COPIED")) > 1);
}

#[test]
fn remove_file() {
    let mut fs = FileSystemAdapter(simple_chroot());
    fs.remove_file(&p("/chroot/RDIR/RFILEA")).unwrap();
    assert!(!present(&fs, "/chroot/RDIR/RFILEA"));
}

#[test]
fn remove_empty_directory() {
    let mut fs = FileSystemAdapter(simple_chroot());
    fs.create_empty_directory(&p("/chroot/TEST")).unwrap();
    assert!(present(&fs, "/chroot/TEST"));
    fs.remove_empty_directory(&p("/chroot/TEST")).unwrap();
    assert!(!present(&fs, "/chroot/TEST"));
}

#[test]
fn move_file_to_file() {
    let mut fs = FileSystemAdapter(simple_chroot());
    fs.move_file_to_file(&p("/chroot/RDIR/RFILEA"), &p("/chroot/MOVED")).unwrap();
    assert!(!present(&fs, "/chroot/RDIR/RFILEA"));
    assert!(present(&fs, "/chroot/MOVED"));
    assert_eq!(fs.0.size(&p("/chroot/MOVED")), 11);
}

#[test]
fn remove_operation_file() {
    let mut fs = simple_chroot();
    let operation = RemoveOperation::new(&p("/chroot/RDIR/RFILEA"), false);
    operation.execute(&mut fs).unwrap();
    assert!(!fs.exists_path(&p("/chroot/RDIR/RFILEA")));
}

#[test]
fn remove_operation_directory() {
    let mut fs = simple_chroot();
    let operation = RemoveOperation::new(&p("/chroot/RDIR3"), false);
    operation.execute(&mut fs).unwrap();
    assert!(!fs.exists_path(&p("/chroot/RDIR3")));
}

#[test]
fn remove_operation_directory_recursive() {
    let mut fs = simple_chroot();
    let operation = RemoveOperation::new(&p("/chroot/RDIR"), true);
    operation.execute(&mut fs).unwrap();
    assert!(!fs.exists_path(&p("/chroot/RDIR")));
    assert!(!fs.exists_path(&p("/chroot/RDIR/RFILEB")));
    assert!(fs.exists_path(&p("/chroot/RDIR2/RFILEA")));
}

#[test]
fn remove_operation_refuses_a_full_directory() {
    let mut fs = simple_chroot();
    let operation = RemoveOperation::new(&p("/chroot/RDIR"), false);
    assert_eq!(
        operation.execute(&mut fs).err().unwrap(),
        OperationErrorOf::DirectoryIsNotEmpty(p("/chroot/RDIR"))
    );
    let missing = RemoveOperation::new(&p("/chroot/NOPE"), false);
    assert_eq!(
        missing.execute(&mut fs).err().unwrap(),
        OperationErrorOf::DoesNotExists(p("/chroot/NOPE"))
    );
}

fn both() -> (FileSystemAdapter<VirtualFileSystem>, FileSystemAdapter<RealFileSystem>) {
    (
        FileSystemAdapter(VirtualFileSystem::over(advanced_chroot())),
        FileSystemAdapter(advanced_chroot()),
    )
}

fn check(left: Result<(), InfrastructureError>, expected: &InfrastructureError) {
    assert_eq!(&left.err().unwrap(), expected);
}

#[test]
fn error_path_does_not_exists() {
    let (mut vfs, mut rfs) = both();
    let not_exists = p("/samples/NOTEXISTS");
    let expected = InfrastructureErrorOf::PathDoesNotExists(not_exists.clone());
    check(vfs.remove_file(&not_exists), &expected);
    check(vfs.remove_empty_directory(&not_exists), &expected);
    check(rfs.remove_file(&not_exists), &expected);
    check(rfs.remove_empty_directory(&not_exists), &expected);
}

#[test]
fn error_parent_does_not_exists() {
    let (mut vfs, mut rfs) = both();
    let existing_source = p("/samples/F");
    let not_exists = p("/samples/NOTPARENT/NOTCHILD");
    let expected = InfrastructureErrorOf::ParentDoesNotExists(p("/samples/NOTPARENT"));
    check(vfs.create_empty_directory(&not_exists), &expected);
    check(vfs.create_empty_file(&not_exists), &expected);
    check(vfs.copy_file_to_file(&existing_source, &not_exists), &expected);
    check(vfs.move_file_to_file(&existing_source, &not_exists), &expected);
    check(vfs.bind_directory_to_directory(&existing_source, &not_exists), &expected);
    check(rfs.create_empty_directory(&not_exists), &expected);
    check(rfs.create_empty_file(&not_exists), &expected);
    check(rfs.copy_file_to_file(&existing_source, &not_exists), &expected);
    check(rfs.move_file_to_file(&existing_source, &not_exists), &expected);
    check(rfs.bind_directory_to_directory(&existing_source, &not_exists), &expected);
}

#[test]
fn error_parent_is_not_a_directory() {
    let (mut vfs, mut rfs) = both();
    let existing_source = p("/samples/A");
    let not_exists = p("/samples/F/NOTCHILD");
    let expected = InfrastructureErrorOf::ParentIsNotADirectory(p("/samples/F"));
    check(vfs.create_empty_directory(&not_exists), &expected);
    check(vfs.create_empty_file(&not_exists), &expected);
    check(vfs.copy_file_to_file(&existing_source, &not_exists), &expected);
    check(vfs.move_file_to_file(&existing_source, &not_exists), &expected);
    check(vfs.bind_directory_to_directory(&existing_source, &not_exists), &expected);
    check(rfs.create_empty_directory(&not_exists), &expected);
    check(rfs.create_empty_file(&not_exists), &expected);
    check(rfs.copy_file_to_file(&existing_source, &not_exists), &expected);
    check(rfs.move_file_to_file(&existing_source, &not_exists), &expected);
    check(rfs.bind_directory_to_directory(&existing_source, &not_exists), &expected);
}

#[test]
fn errors_error_source_does_not_exists() {
    let (mut vfs, mut rfs) = both();
    let not_exists = p("/samples/NOTEXISTS");
    let existing_destination = p("/samples/A");
    let expected = InfrastructureErrorOf::SourceDoesNotExists(not_exists.clone());
    check(vfs.copy_file_to_file(&not_exists, &existing_destination), &expected);
    check(vfs.move_file_to_file(&not_exists, &existing_destination), &expected);
    check(vfs.bind_directory_to_directory(&not_exists, &existing_destination), &expected);
    check(rfs.copy_file_to_file(&not_exists, &existing_destination), &expected);
    check(rfs.move_file_to_file(&not_exists, &existing_destination), &expected);
    check(rfs.bind_directory_to_directory(&not_exists, &existing_destination), &expected);
}

#[test]
fn error_source_is_not_a_directory() {
    let (mut vfs, mut rfs) = both();
    let new_destination = p("/samples/NEW");
    let is_file = p("/samples/F");
    let expected = InfrastructureErrorOf::SourceIsNotADirectory(is_file.clone());
    check(vfs.bind_directory_to_directory(&is_file, &new_destination), &expected);
    check(rfs.bind_directory_to_directory(&is_file, &new_destination), &expected);
}

#[test]
fn error_source_is_not_a_file() {
    let (mut vfs, mut rfs) = both();
    let not_a_file = p("/samples/A");
    let new_destination = p("/samples/NEW");
    let expected = InfrastructureErrorOf::SourceIsNotAFile(not_a_file.clone());
    check(vfs.copy_file_to_file(&not_a_file, &new_destination), &expected);
    check(vfs.move_file_to_file(&not_a_file, &new_destination), &expected);
    check(rfs.copy_file_to_file(&not_a_file, &new_destination), &expected);
    check(rfs.move_file_to_file(&not_a_file, &new_destination), &expected);
}

#[test]
fn error_destination_is_not_a_file() {
    let (mut vfs, mut rfs) = both();
    let not_a_file = p("/samples/A");
    let existing_source = p("/samples/F");
    let expected = InfrastructureErrorOf::DestinationIsNotAFile(not_a_file.clone());
    check(vfs.copy_file_to_file(&existing_source, &not_a_file), &expected);
    check(vfs.move_file_to_file(&existing_source, &not_a_file), &expected);
    check(rfs.copy_file_to_file(&existing_source, &not_a_file), &expected);
    check(rfs.move_file_to_file(&existing_source, &not_a_file), &expected);
}

#[test]
fn error_destination_already_exists() {
    let (mut vfs, mut rfs) = both();
    let existing_destination = p("/samples/A");
    let existing_source = p("/samples/B");
    let expected = InfrastructureErrorOf::DestinationAlreadyExists(existing_destination.clone());
    check(vfs.bind_directory_to_directory(&existing_source, &existing_destination), &expected);
    check(rfs.bind_directory_to_directory(&existing_source, &existing_destination), &expected);
}

#[test]
fn error_directory_is_not_empty() {
    let (mut vfs, mut rfs) = both();
    let not_empty = p("/samples/A");
    let expected = InfrastructureErrorOf::DirectoryIsNotEmpty(not_empty.clone());
    check(vfs.remove_empty_directory(&not_empty), &expected);
    check(rfs.remove_empty_directory(&not_empty), &expected);
}

#[test]
fn a_refused_write_leaves_the_real_file_system_as_it_was() {
    let mut fs = FileSystemAdapter(simple_chroot());
    let before = fs.0.nodes().len();
    assert!(fs.copy_file_to_file(&p("/chroot/RDIR"), &p("/chroot/X")).is_err());
    assert!(fs.move_file_to_file(&p("/chroot/NOPE"), &p("/chroot/X")).is_err());
    assert_eq!(fs.0.nodes().len(), before);
}

#[test]
fn a_node_cannot_be_placed_twice_or_without_parent() {
    let mut fs = simple_chroot();
    assert!(!fs.insert(RealNode::new(p("/chroot/RDIR"), Kind::Directory, 0)));
    assert!(!fs.insert(RealNode::new(p("/nowhere/x"), Kind::File, 1)));
    assert!(!fs.insert(RealNode::new(p("relative"), Kind::File, 1)));
    assert!(!fs.insert(RealNode::new(p("/chroot/RDIR/RFILEA/x"), Kind::File, 1)));
}

#[test]
fn read_dir_lists_the_children() {
    let fs = FileSystemAdapter(simple_chroot());
    let entries = fs.read_dir(&p("/chroot/RDIR")).unwrap();
    assert_eq!(entries.len(), 2);
    assert!(entries[0].path().same(&p("/chroot/RDIR/RFILEA")));
    assert!(entries[1].path().same(&p("/chroot/RDIR/RFILEB")));
    assert!(fs.read_dir(&p("/chroot/RDIR/RFILEA")).is_err());
    assert!(fs.read_dir(&p("/chroot/NOPE")).is_err());
}

#[test]
fn copy_keeps_the_size_and_overwrite_truncates() {
    let mut fs = FileSystemAdapter(simple_chroot());
    fs.copy_file_to_file(&p("/chroot/RDIR/RFILEB"), &p("/chroot/RDIR2/RFILEA")).unwrap();
    assert_eq!(fs.0.size(&p("/chroot/RDIR2/RFILEA")), 12);
    fs.create_empty_file(&p("/chroot/RDIR2/RFILEA")).unwrap();
    assert_eq!(fs.0.size(&p("/chroot/RDIR2/RFILEA")), 0);
}
