use futurecommander::capability::ZealedGuard;
use futurecommander::command::{
    Command, InitializedCopyCommand, InitializedListCommand, InitializedMoveCommand,
    InitializedNewDirectoryCommand, InitializedNewFileCommand, InitializedRemoveCommand,
};
use futurecommander::container::Container;
use futurecommander::disk::{RealFileSystem, RealNode};
use futurecommander::kind::Kind;
use futurecommander::path::FsPath;
use futurecommander::shell::AvailableGuard;

fn sample(s: &str) -> FsPath {
    if s.is_empty() {
        FsPath::new("/samples")
    } else {
        FsPath::new(&format!("/samples/{}", s))
    }
}

fn static_samples() -> RealFileSystem {
    let mut fs = RealFileSystem::new();
    for (path, kind, size) in [
        ("", Kind::Directory, 0),
        ("A", Kind::Directory, 0),
        ("A/.gitkeep", Kind::File, 0),
        ("A/C", Kind::File, 5),
        ("B", Kind::Directory, 0),
        ("B/.gitkeep", Kind::File, 0),
        ("B/D", Kind::Directory, 0),
        ("B/D/E", Kind::Directory, 0),
        ("B/D/G", Kind::Directory, 0),
        ("F", Kind::File, 3),
    ] {
        assert!(fs.insert(RealNode::new(sample(path), kind, size)));
    }
    fs
}

fn copy(source: &str, destination: &str) -> Command<InitializedCopyCommand> {
    Command(InitializedCopyCommand {
        source: sample(source),
        destination: sample(destination),
        merge: false,
        overwrite: false,
        guard: AvailableGuard::Zealed,
    })
}

fn contains(container: &Container, dir: &str, child: &str) -> bool {
    container.read_dir(&sample(dir)).unwrap().iter().any(|e| e.path() == &sample(child))
}

#[test]
fn cp_only() {
    let mut container = Container::new(static_samples());
    copy("B", "A").execute(&mut container, &mut ZealedGuard).unwrap();
    copy("A/B/D", "A").execute(&mut container, &mut ZealedGuard).unwrap();

    assert!(!container.read_dir(&sample("A/D")).unwrap().is_empty());
    assert!(contains(&container, "A/D", "A/D/G"));
    assert!(contains(&container, "A/D", "A/D/E"));
}

#[test]
fn cp_preserve_source_and_node_kind() {
    let mut container = Container::new(static_samples());
    copy("B", "A").execute(&mut container, &mut ZealedGuard).unwrap();
    copy("F", "B").execute(&mut container, &mut ZealedGuard).unwrap();
    copy("B/F", "B/D/E").execute(&mut container, &mut ZealedGuard).unwrap();

    assert!(!container.read_dir(&sample("B/D/E")).unwrap().is_empty());
    assert!(contains(&container, "B/D/E", "B/D/E/F"));
}

#[test]
fn virtual_shell_copy_nested_virtual_identity() {
    let mut container = Container::new(static_samples());
    copy("B", "A").execute(&mut container, &mut ZealedGuard).unwrap();
    copy("A", "APRIME").execute(&mut container, &mut ZealedGuard).unwrap();

    assert!(contains(&container, "APRIME", "APRIME/C"));
    assert!(contains(&container, "APRIME", "APRIME/B"));
    assert!(contains(&container, "APRIME/B/D", "APRIME/B/D/E"));
    assert!(contains(&container, "APRIME/B/D", "APRIME/B/D/G"));
}

#[test]
fn virtual_shell_copy_nested_deep_through_virtual_identity() {
    let mut container = Container::new(static_samples());
    copy("B", "A").execute(&mut container, &mut ZealedGuard).unwrap();
    copy("A", "APRIME").execute(&mut container, &mut ZealedGuard).unwrap();
    copy("APRIME", "ABETA").execute(&mut container, &mut ZealedGuard).unwrap();
    copy("ABETA", "A").execute(&mut container, &mut ZealedGuard).unwrap();

    assert!(contains(&container, "APRIME", "APRIME/C"));
    assert!(contains(&container, "APRIME", "APRIME/B"));
    assert!(contains(&container, "A/ABETA/B/D", "A/ABETA/B/D/E"));
    assert!(contains(&container, "A/ABETA/B/D", "A/ABETA/B/D/G"));
}

#[test]
fn mkdir() {
    let mut container = Container::new(static_samples());
    Command(InitializedNewDirectoryCommand {
        path: sample("B/D/E/MKDIRED"),
        recursive: false,
        overwrite: false,
        guard: AvailableGuard::Zealed,
    })
    .execute(&mut container, &mut ZealedGuard)
    .unwrap();

    assert!(contains(&container, "B/D/E", "B/D/E/MKDIRED"));
}

#[test]
fn touch() {
    let mut container = Container::new(static_samples());
    Command(InitializedNewFileCommand {
        path: sample("B/D/E/TOUCHED"),
        recursive: false,
        overwrite: false,
        guard: AvailableGuard::Zealed,
    })
    .execute(&mut container, &mut ZealedGuard)
    .unwrap();

    assert!(contains(&container, "B/D/E", "B/D/E/TOUCHED"));
}

#[test]
fn rm() {
    let mut container = Container::new(static_samples());
    let b_path = sample("B");
    Command(InitializedRemoveCommand { path: b_path.clone(), recursive: true, guard: AvailableGuard::Zealed })
        .execute(&mut container, &mut ZealedGuard)
        .unwrap();

    assert!(!container.status(&b_path).unwrap().is_existing());
}

#[test]
fn virtual_shell_move_nested_virtual_identity() {
    let mut fs = Container::new(static_samples());
    copy("B", "A").execute(&mut fs, &mut ZealedGuard).unwrap();
    Command(InitializedMoveCommand {
        source: sample("A"),
        destination: sample("APRIME"),
        merge: false,
        overwrite: false,
        guard: AvailableGuard::Zealed,
    })
    .execute(&mut fs, &mut ZealedGuard)
    .unwrap();

    assert!(contains(&fs, "APRIME", "APRIME/B"));
    assert!(contains(&fs, "APRIME", "APRIME/C"));
    assert!(contains(&fs, "APRIME/B/D", "APRIME/B/D/E"));
    assert!(contains(&fs, "APRIME/B/D", "APRIME/B/D/G"));
}

#[test]
fn virtual_shell_reference_virtual_children() {
    let mut fs = Container::new(static_samples());
    Command(InitializedNewDirectoryCommand {
        path: sample("Z"),
        recursive: false,
        overwrite: false,
        guard: AvailableGuard::Zealed,
    })
    .execute(&mut fs, &mut ZealedGuard)
    .unwrap();
    Command(InitializedNewFileCommand {
        path: sample("TEST"),
        recursive: false,
        overwrite: false,
        guard: AvailableGuard::Zealed,
    })
    .execute(&mut fs, &mut ZealedGuard)
    .unwrap();
    copy("TEST", "Z").execute(&mut fs, &mut ZealedGuard).unwrap();

    assert!(contains(&fs, "Z", "Z/TEST"));
}

#[test]
fn listing_the_samples_gives_sorted_lines() {
    let container = Container::new(static_samples());
    let lines = Command(InitializedListCommand { path: sample("") }).execute(&container).ok().unwrap();
    assert_eq!(lines.join("\n") + "\n", "Directory    A\nDirectory    B\nFile         F\n");
}
