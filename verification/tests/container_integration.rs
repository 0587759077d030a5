use futurecommander::container::{Container, FsEvent};
use futurecommander::disk::{RealFileSystem, RealNode};
use futurecommander::event::{CopyEvent, CreateEvent, RemoveEvent};
use futurecommander::kind::Kind;
use futurecommander::path::FsPath;
use futurecommander::virt::VirtualState;

fn p(s: &str) -> FsPath {
    FsPath::new(s)
}

fn advanced_chroot() -> RealFileSystem {
    let mut fs = RealFileSystem::new();
    for (path, kind, size) in [
        ("/chroot", Kind::Directory, 0),
        ("/chroot/A", Kind::Directory, 0),
        ("/chroot/A/C", Kind::File, 5),
        ("/chroot/B", Kind::Directory, 0),
        ("/chroot/B/D", Kind::Directory, 0),
        ("/chroot/B/D/E", Kind::Directory, 0),
        ("/chroot/B/D/G", Kind::Directory, 0),
        ("/chroot/F", Kind::File, 3),
    ] {
        assert!(fs.insert(RealNode::new(p(path), kind, size)));
    }
    fs
}

fn play(fs: &mut Container, event: FsEvent) {
    fs.emit(&event).unwrap();
    fs.delay(event);
}

fn copy(fs: &mut Container, source: &str, destination: &str) {
    play(fs, FsEvent::Copy(CopyEvent::new(&p(source), &p(destination), true, false)));
}

fn remove(fs: &mut Container, path: &str) {
    play(fs, FsEvent::Remove(RemoveEvent::new(&p(path), true)));
}

fn _no_dangling(fs: &mut Container) {
    copy(fs, "/chroot/A", "/chroot/APRIME");
    remove(fs, "/chroot/A");
    copy(fs, "/chroot/APRIME", "/chroot/A");
    remove(fs, "/chroot/APRIME");

    let stated_a = fs.vfs().virtual_status(&p("/chroot/A")).unwrap();
    assert_eq!(stated_a.state(), VirtualState::Exists);
    let virtual_identity = stated_a.into_existing_virtual().unwrap();
    assert_eq!(virtual_identity.as_identity(), &p("/chroot/A"));
    assert_eq!(virtual_identity.to_kind(), Kind::Directory);
    assert_eq!(virtual_identity.as_source().unwrap(), &p("/chroot/A"));

    assert!(!fs.status(&p("/chroot/APRIME")).unwrap().is_existing());
}

fn _copy_file_dir_interversion(fs: &mut Container) {
    copy(fs, "/chroot/A/C", "/chroot/C");
    remove(fs, "/chroot/A/C");
    copy(fs, "/chroot/C", "/chroot/Z");
    remove(fs, "/chroot/C");
    copy(fs, "/chroot/B", "/chroot/C");
    remove(fs, "/chroot/B");
    copy(fs, "/chroot/Z", "/chroot/B");
    remove(fs, "/chroot/Z");

    let stated_b = fs.vfs().virtual_status(&p("/chroot/B")).unwrap();
    assert!(stated_b.is_existing());
    assert!(stated_b.is_file());
    assert_eq!(stated_b.as_virtual().as_identity(), &p("/chroot/B"));
    assert_eq!(stated_b.as_virtual().to_kind(), Kind::File);
    assert_eq!(stated_b.as_virtual().as_source().unwrap(), &p("/chroot/A/C"));

    let stated_c = fs.vfs().virtual_status(&p("/chroot/C")).unwrap().into_existing_virtual().unwrap();
    assert_eq!(stated_c.as_identity(), &p("/chroot/C"));
    assert_eq!(stated_c.to_kind(), Kind::Directory);
    assert_eq!(stated_c.as_source().unwrap(), &p("/chroot/B"));

    assert!(!fs.status(&p("/chroot/Z")).unwrap().is_existing());
}

fn _some_nesting(fs: &mut Container) {
    copy(fs, "/chroot/C", "/chroot/A/C");
    copy(fs, "/chroot/A/C/D", "/chroot/A/D");
    remove(fs, "/chroot/A/D/G");

    let stated_ad = fs.vfs().virtual_status(&p("/chroot/A/D")).unwrap().into_existing_virtual().unwrap();
    assert_eq!(stated_ad.as_identity(), &p("/chroot/A/D"));
    assert_eq!(stated_ad.to_kind(), Kind::Directory);
    assert_eq!(stated_ad.as_source().unwrap(), &p("/chroot/B/D"));

    assert!(!fs.status(&p("/chroot/A/D/G")).unwrap().is_existing());
}

#[test]
fn no_dangling() {
    let mut fs = Container::new(advanced_chroot());
    _no_dangling(&mut fs);
}

#[test]
fn copy_file_dir_interversion() {
    let mut fs = Container::new(advanced_chroot());
    _copy_file_dir_interversion(&mut fs);
}

#[test]
fn apply_a_vfs_to_real_fs() {
    let mut fs = Container::new(advanced_chroot());
    _no_dangling(&mut fs);
    _copy_file_dir_interversion(&mut fs);
    _some_nesting(&mut fs);

    fs.apply().unwrap();

    let real = &fs.rfs().0;
    assert!(real.is_dir(&p("/chroot/C")));
    assert!(real.is_file(&p("/chroot/B")));
    assert!(real.is_dir(&p("/chroot/A/C")));
    assert!(real.is_dir(&p("/chroot/A/D")));
    assert!(!real.exists_path(&p("/chroot/A/D/G")));
}

#[test]
fn the_virtual_state_after_apply_is_the_real_one() {
    let mut fs = Container::new(advanced_chroot());
    _copy_file_dir_interversion(&mut fs);
    fs.apply().unwrap();
    assert!(fs.is_empty());
    assert_eq!(fs.status(&p("/chroot/B")).unwrap().is_file(), true);
    assert_eq!(fs.vfs().virtual_status(&p("/chroot/C")).unwrap().state(), VirtualState::Exists);
}

#[test]
fn a_bound_copy_keeps_what_was_removed_below_its_source_removed() {
    let mut fs = Container::new(advanced_chroot());
    remove(&mut fs, "/chroot/B/D/G");
    copy(&mut fs, "/chroot/B", "/chroot/C");
    assert!(fs.status(&p("/chroot/C/D/E")).unwrap().is_existing());
    assert!(!fs.status(&p("/chroot/C/D/G")).unwrap().is_existing());

    fs.apply().unwrap();
    let real = &fs.rfs().0;
    assert!(real.is_dir(&p("/chroot/C/D/E")));
    assert!(!real.exists_path(&p("/chroot/C/D/G")));
}

#[test]
fn a_bound_copy_shows_what_was_added_below_its_source() {
    let mut fs = Container::new(advanced_chroot());
    copy(&mut fs, "/chroot/F", "/chroot/B/D/F");
    copy(&mut fs, "/chroot/B", "/chroot/C");
    let copied = fs.vfs().virtual_status(&p("/chroot/C/D/F")).unwrap();
    assert!(copied.is_file());
    assert_eq!(copied.as_virtual().as_source().unwrap(), &p("/chroot/F"));
    let bound = fs.vfs().virtual_status(&p("/chroot/C")).unwrap().into_existing_virtual().unwrap();
    assert_eq!(bound.as_source().unwrap(), &p("/chroot/B"));

    fs.apply().unwrap();
    assert!(fs.rfs().0.is_file(&p("/chroot/C/D/F")));
    assert_eq!(fs.rfs().0.size(&p("/chroot/C/D/F")), 3);
}

#[test]
fn a_replaced_directory_cleared_through_its_copy_reads_as_the_real_one() {
    let mut fs = Container::new(advanced_chroot());
    copy(&mut fs, "/chroot/B", "/chroot/X");
    remove(&mut fs, "/chroot/B");
    copy(&mut fs, "/chroot/F", "/chroot/B");
    remove(&mut fs, "/chroot/X");

    let virtual_b = fs.vfs().virtual_status(&p("/chroot/B")).unwrap();
    assert_eq!(virtual_b.state(), VirtualState::Exists);
    assert!(virtual_b.is_dir());

    fs.apply().unwrap();
    assert!(fs.rfs().0.is_file(&p("/chroot/B")));
}

#[test]
fn a_directory_made_on_a_fresh_session_reads_the_same_on_both_sides() {
    let mut fs = Container::new(advanced_chroot());
    play(&mut fs, FsEvent::Create(CreateEvent::new(&p("/chroot/A/N"), Kind::Directory, false, false)));

    let made = fs.status(&p("/chroot/A/N")).unwrap();
    assert!(made.is_existing());
    assert!(made.is_dir());
    assert!(!fs.status(&p("/chroot/A/N/X")).unwrap().is_existing());
    assert!(fs.status(&p("/chroot/A/C")).unwrap().is_file());

    fs.apply().unwrap();
    let real = &fs.rfs().0;
    assert!(real.is_dir(&p("/chroot/A/N")));
    assert!(!real.exists_path(&p("/chroot/A/N/X")));
    assert!(real.is_file(&p("/chroot/A/C")));
}
