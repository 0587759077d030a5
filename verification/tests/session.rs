use futurecommander::atomic::AtomicOf;
use futurecommander::operation::HybridFileSystem;
use futurecommander::operation::{OperationOf, Transaction};
use futurecommander::operation::{CopyOperation, PathState};
use futurecommander::port::Entry;
use futurecommander::container::{Container, FsEvent};
use futurecommander::disk::{RealFileSystem, RealNode};
use futurecommander::event::{CopyEvent, CreateEvent, MoveEvent, RemoveEvent};
use futurecommander::kind::Kind;
use futurecommander::path::FsPath;

fn p(s: &str) -> FsPath {
    FsPath::new(s)
}

fn simple_chroot() -> RealFileSystem {
    let mut fs = RealFileSystem::new();
    for (path, kind, size) in [
        ("/chroot", Kind::Directory, 0),
        ("/chroot/RDIR", Kind::Directory, 0),
        ("/chroot/RDIR/RFILEA", Kind::File, 11),
        ("/chroot/RDIR/RFILEB", Kind::File, 12),
        ("/chroot/RDIR2", Kind::Directory, 0),
        ("/chroot/RDIR2/RFILEA", Kind::File, 6),
        ("/chroot/RDIR2/RFILEC", Kind::File, 7),
        ("/chroot/RDIR3", Kind::Directory, 0),
    ] {
        assert!(fs.insert(RealNode::new(p(path), kind, size)));
    }
    fs
}

#[test]
fn copy_directory_recursively() {
    let mut container = Container::new(simple_chroot());
    let event = FsEvent::Copy(CopyEvent::new(&p("/chroot/RDIR"), &p("/chroot/COPIED"), false, false));
    container.emit(&event).unwrap();
    container.delay(event);

    assert!(container.status(&p("/chroot/COPIED")).unwrap().is_existing());
    assert!(container.status(&p("/chroot/COPIED/RFILEA")).unwrap().is_existing());
    assert!(container.status(&p("/chroot/COPIED/RFILEB")).unwrap().is_existing());
}

#[test]
fn apply_replays_the_events_on_the_real_file_system() {
    let mut container = Container::new(simple_chroot());
    let events = vec![
        FsEvent::Copy(CopyEvent::new(&p("/chroot/RDIR"), &p("/chroot/COPIED"), false, false)),
        FsEvent::Move(MoveEvent::new(&p("/chroot/RDIR2/RFILEC"), &p("/chroot/RDIR3/C"), false, false)),
        FsEvent::Remove(RemoveEvent::new(&p("/chroot/RDIR"), true)),
        FsEvent::Create(CreateEvent::new(&p("/chroot/NEW/DEEP"), Kind::Directory, true, false)),
    ];
    for event in events {
        container.emit(&event).unwrap();
        container.delay(event);
    }
    assert!(!container.is_empty());
    assert!(!container.rfs().0.exists_path(&p("/chroot/COPIED")));
    assert_eq!(container.queue().len(), 4);

    container.apply().unwrap();

    let real = &container.rfs().0;
    assert!(real.is_dir(&p("/chroot/COPIED")));
    assert_eq!(real.size(&p("/chroot/COPIED/RFILEB")), 12);
    assert!(!real.exists_path(&p("/chroot/RDIR")));
    assert!(!real.exists_path(&p("/chroot/RDIR2/RFILEC")));
    assert_eq!(real.size(&p("/chroot/RDIR3/C")), 7);
    assert!(real.is_dir(&p("/chroot/NEW/DEEP")));
    assert!(container.is_empty());
    assert_eq!(container.queue().len(), 0);
    assert!(container.status(&p("/chroot/COPIED/RFILEA")).unwrap().is_existing());
}

#[test]
fn a_refused_event_leaves_the_session_as_it_was() {
    let mut container = Container::new(simple_chroot());
    let event = FsEvent::Remove(RemoveEvent::new(&p("/chroot/NOPE"), false));
    assert!(container.emit(&event).is_err());
    assert!(container.is_empty());
}

#[test]
fn reset_forgets_what_was_played() {
    let mut container = Container::new(simple_chroot());
    let event = FsEvent::Create(CreateEvent::new(&p("/chroot/X"), Kind::File, false, false));
    container.emit(&event).unwrap();
    container.delay(event);
    assert!(container.status(&p("/chroot/X")).unwrap().is_existing());
    container.reset();
    assert!(!container.status(&p("/chroot/X")).unwrap().is_existing());
    assert_eq!(container.queue().len(), 0);
}

#[test]
fn apply_stops_at_the_first_event_that_fails() {
    let mut container = Container::new(simple_chroot());
    container.delay(FsEvent::Create(CreateEvent::new(&p("/chroot/X"), Kind::File, false, false)));
    container.delay(FsEvent::Remove(RemoveEvent::new(&p("/chroot/NOPE"), false)));
    container.delay(FsEvent::Create(CreateEvent::new(&p("/chroot/Y"), Kind::File, false, false)));
    assert!(container.apply().is_err());
    assert!(container.rfs().0.exists_path(&p("/chroot/X")));
    assert!(!container.rfs().0.exists_path(&p("/chroot/Y")));
    assert_eq!(container.queue().len(), 1);
}

#[test]
fn apply_recorded_gives_back_the_writes_it_made() {
    let mut container = Container::new(simple_chroot());
    let event = FsEvent::Move(MoveEvent::new(&p("/chroot/RDIR2/RFILEC"), &p("/chroot/RDIR3/C"), false, false));
    container.emit(&event).unwrap();
    container.delay(event);

    let (writes, result) = container.apply_recorded();
    result.unwrap();
    assert_eq!(writes, vec![AtomicOf::MoveFileToFile(p("/chroot/RDIR2/RFILEC"), p("/chroot/RDIR3/C"))]);
    assert!(container.rfs().0.is_file(&p("/chroot/RDIR3/C")));
    assert!(!container.rfs().0.exists_path(&p("/chroot/RDIR2/RFILEC")));
    assert!(container.is_empty());
}

#[test]
fn hybrid_file_system_applies_its_staged_writes() {
    let mut hybrid = HybridFileSystem::new(simple_chroot());
    hybrid.mut_transaction().add(AtomicOf::CreateEmptyDirectory(p("/chroot/RDIR3/NEW")));
    hybrid.mut_transaction().add(AtomicOf::CopyFileToFile(p("/chroot/RDIR/RFILEA"), p("/chroot/RDIR3/NEW/A")));
    assert_eq!(hybrid.transaction().len(), 2);

    hybrid.apply().unwrap();
    assert!(hybrid.transaction().is_empty());
    assert!(hybrid.vfs().is_empty());
    assert!(hybrid.vfs().status(&p("/chroot/RDIR3/NEW/A")).unwrap().is_file());
    let mut check = HybridFileSystem::new(simple_chroot());
    check.mut_transaction().add(AtomicOf::RemoveFile(p("/chroot/RDIR3/NEW/A")));
    assert!(check.apply().is_err());
    assert_eq!(check.transaction().len(), 1);
    check.reset();
    assert!(check.transaction().is_empty());
}

#[test]
fn transaction_of_operations_applies_in_order() {
    let mut fs = simple_chroot();
    let mut transaction = Transaction::new();
    transaction.add(OperationOf::CreateEmptyDirectory(p("/chroot/RDIR3/IN")));
    transaction.add(OperationOf::CopyFileIntoDirectory(p("/chroot/RDIR/RFILEA"), p("/chroot/RDIR3/IN")));
    transaction.add(OperationOf::MoveFileIntoDirectory(p("/chroot/RDIR2/RFILEC"), p("/chroot/RDIR3/IN")));
    transaction.apply(&mut futurecommander::port::FileSystemAdapter(fs.clone())).unwrap();
    let mut adapter = futurecommander::port::FileSystemAdapter(fs.clone());
    let mut again = Transaction::new();
    again.add(OperationOf::CreateEmptyDirectory(p("/chroot/RDIR3/IN")));
    again.add(OperationOf::CopyFileIntoDirectory(p("/chroot/RDIR/RFILEA"), p("/chroot/RDIR3/IN")));
    again.apply(&mut adapter).unwrap();
    assert!(adapter.0.is_file(&p("/chroot/RDIR3/IN/RFILEA")));
    assert_eq!(adapter.0.size(&p("/chroot/RDIR3/IN/RFILEA")), 11);
    let mut failing = Transaction::new();
    failing.add(OperationOf::RemoveFile(p("/chroot/NOWHERE")));
    failing.add(OperationOf::CreateEmptyDirectory(p("/chroot/AFTER")));
    assert!(failing.apply(&mut adapter).is_err());
    assert!(!adapter.0.exists_path(&p("/chroot/AFTER")));
    fs = adapter.0;
    assert!(fs.is_dir(&p("/chroot/RDIR3/IN")));
}

#[test]
fn plans_read_only_directories_as_present() {
    assert_eq!(PathState::from_entry(&Entry::new(p("/a"), true, true, false)), PathState::Directory);
    assert_eq!(PathState::from_entry(&Entry::new(p("/a"), true, false, true)), PathState::DoesNotExists);
    assert_eq!(PathState::from_entry(&Entry::new(p("/a"), false, false, false)), PathState::DoesNotExists);
    let op = CopyOperation::new(&p("/a"), &p("/b"), true, false);
    assert_eq!(op.source(), &p("/a"));
    assert_eq!(op.destination(), &p("/b"));
    assert!(op.merge());
    assert!(!op.overwrite());
}
