use futurecommander::capability::{Answer, Capability, Guard, ScriptedGuard, ZealedGuard};
use futurecommander::command::{
    Command, CommandErrorOf, CopyCommand, InitializedCopyCommand, InitializedListCommand,
    InitializedNewDirectoryCommand, InitializedNewFileCommand, InitializedRemoveCommand, ListCommand,
    NewDirectoryCommand, RemoveCommand,
};
use futurecommander::container::Container;
use futurecommander::disk::{RealFileSystem, RealNode};
use futurecommander::errors::DomainErrorOf;
use futurecommander::kind::Kind;
use futurecommander::path::FsPath;
use futurecommander::shell::AvailableGuard;

fn p(s: &str) -> FsPath {
    FsPath::new(s)
}

fn chroot() -> RealFileSystem {
    let mut fs = RealFileSystem::new();
    for (path, kind, size) in [
        ("/chroot", Kind::Directory, 0),
        ("/chroot/RDIR", Kind::Directory, 0),
        ("/chroot/RDIR/RFILEB", Kind::File, 12),
        ("/chroot/RDIR/RFILEA", Kind::File, 11),
        ("/chroot/RDIR2", Kind::Directory, 0),
        ("/chroot/RDIR2/RFILEA", Kind::File, 6),
        ("/chroot/RDIR3", Kind::Directory, 0),
    ] {
        assert!(fs.insert(RealNode::new(p(path), kind, size)));
    }
    fs
}

fn copy(source: &str, destination: &str) -> Command<InitializedCopyCommand> {
    Command(InitializedCopyCommand {
        source: p(source),
        destination: p(destination),
        merge: false,
        overwrite: false,
        guard: AvailableGuard::Zealed,
    })
}

#[test]
fn path_arguments_are_trimmed_joined_and_normalized() {
    let cwd = p("/chroot/RDIR");
    let r = Command::<ListCommand>::extract_path_from_args(&cwd, Some("  ../RDIR2/./RFILEA \n"), "path", "ls <path>");
    assert_eq!(r.unwrap(), p("/chroot/RDIR2/RFILEA"));
    let r = Command::<ListCommand>::extract_path_from_args(&cwd, Some("/elsewhere"), "path", "ls <path>");
    assert_eq!(r.unwrap(), p("/elsewhere"));
    let r = Command::<ListCommand>::extract_path_from_args(&cwd, None, "path", "ls <path>");
    assert_eq!(
        r.err().unwrap(),
        CommandErrorOf::ArgumentMissing(String::from("generic"), String::from("path"), String::from("ls <path>"))
    );
}

#[test]
fn a_trailing_separator_is_reported() {
    let cwd = p("/chroot");
    let (path, trail) =
        Command::<CopyCommand>::extract_path_and_trail_from_args(&cwd, Some("RDIR/"), "source", "").unwrap();
    assert_eq!(path, p("/chroot/RDIR"));
    assert!(trail);
    let (_, trail) =
        Command::<CopyCommand>::extract_path_and_trail_from_args(&cwd, Some("RDIR"), "source", "").unwrap();
    assert!(!trail);
}

#[test]
fn guard_arguments_are_checked() {
    assert_eq!(Command::<CopyCommand>::extract_available_guard(Some("skip")).unwrap(), AvailableGuard::Skip);
    assert_eq!(Command::<CopyCommand>::extract_available_guard(None).unwrap(), AvailableGuard::Interactive);
    assert_eq!(
        Command::<CopyCommand>::extract_available_guard(Some("careless")).err().unwrap(),
        CommandErrorOf::InvalidGuard(String::from("careless"))
    );
}

#[test]
fn initialize_reads_arguments_in_order() {
    let cwd = p("/chroot");
    let c = Command::<CopyCommand>::initialize(&cwd, Some("RDIR"), Some("RDIR3"), true, false, Some("blind"), "cp")
        .ok()
        .unwrap();
    assert_eq!(c.0.source, p("/chroot/RDIR"));
    assert_eq!(c.0.destination, p("/chroot/RDIR3"));
    assert!(c.0.merge && !c.0.overwrite);
    assert_eq!(c.0.guard, AvailableGuard::Blind);
    let missing = Command::<CopyCommand>::initialize(&cwd, Some("RDIR"), None, false, false, Some("nope"), "cp");
    assert_eq!(
        missing.err().unwrap(),
        CommandErrorOf::ArgumentMissing(String::from("generic"), String::from("destination"), String::from("cp"))
    );
    let bad_guard = Command::<NewDirectoryCommand>::initialize(&cwd, Some("NEW"), false, false, Some("nope"), "mkdir");
    assert_eq!(bad_guard.err().unwrap(), CommandErrorOf::InvalidGuard(String::from("nope")));
    let listed = Command::<ListCommand>::initialize(&cwd, None);
    assert_eq!(listed.0.path, cwd);
}

#[test]
fn removing_the_working_directory_or_above_is_refused() {
    let cwd = p("/chroot/RDIR");
    for target in ["/chroot/RDIR", "/chroot", "/", ".."] {
        let r = Command::<RemoveCommand>::initialize(&cwd, Some(target), true, None, "rm");
        match r {
            Err(CommandErrorOf::CwdIsInside(_)) => {}
            _ => panic!("{} should be refused", target),
        }
    }
    let r = Command::<RemoveCommand>::initialize(&cwd, Some("RFILEA"), false, Some("zealed"), "rm").ok().unwrap();
    assert_eq!(r.0.path, p("/chroot/RDIR/RFILEA"));
    assert_eq!(r.0.guard, AvailableGuard::Zealed);
}

#[test]
fn copy_into_an_existing_directory_keeps_the_name() {
    let mut container = Container::new(chroot());
    copy("/chroot/RDIR", "/chroot/RDIR3").execute(&mut container, &mut ZealedGuard).unwrap();
    assert!(container.status(&p("/chroot/RDIR3/RDIR/RFILEA")).unwrap().is_existing());
    copy("/chroot/RDIR2/RFILEA", "/chroot/NEWFILE").execute(&mut container, &mut ZealedGuard).unwrap();
    assert!(container.status(&p("/chroot/NEWFILE")).unwrap().is_file());
    assert_eq!(container.queue().len(), 2);
}

#[test]
fn copy_refusals() {
    let mut container = Container::new(chroot());
    assert_eq!(
        copy("/chroot/NOWHERE", "/chroot/RDIR3").execute(&mut container, &mut ZealedGuard).err().unwrap(),
        CommandErrorOf::DoesNotExists(p("/chroot/NOWHERE"))
    );
    assert_eq!(
        copy("/chroot/RDIR", "/chroot/RDIR2/RFILEA").execute(&mut container, &mut ZealedGuard).err().unwrap(),
        CommandErrorOf::DirectoryIntoAFile(p("/chroot/RDIR"), p("/chroot/RDIR2/RFILEA"))
    );
    assert_eq!(
        copy("/chroot/RDIR/RFILEA", "/chroot/RDIR2/RFILEA").execute(&mut container, &mut ZealedGuard).err().unwrap(),
        CommandErrorOf::CustomError(String::from("Overwrite false false"))
    );
    assert!(container.is_empty());
}

#[test]
fn a_refused_event_is_an_operation_error_and_is_not_queued() {
    let mut container = Container::new(chroot());
    copy("/chroot/RDIR", "/chroot/RDIR3").execute(&mut container, &mut ZealedGuard).unwrap();
    let again = copy("/chroot/RDIR", "/chroot/RDIR3").execute(&mut container, &mut ZealedGuard);
    assert_eq!(
        again.err().unwrap(),
        CommandErrorOf::Operation(DomainErrorOf::MergeNotAllowed(p("/chroot/RDIR3/RDIR")))
    );
    assert_eq!(container.queue().len(), 1);
}

#[test]
fn new_directory_new_file_and_remove_are_played_and_queued() {
    let mut container = Container::new(chroot());
    Command(InitializedNewDirectoryCommand {
        path: p("/chroot/A/B"),
        recursive: true,
        overwrite: false,
        guard: AvailableGuard::Zealed,
    })
    .execute(&mut container, &mut ZealedGuard)
    .unwrap();
    Command(InitializedNewFileCommand {
        path: p("/chroot/A/B/F"),
        recursive: false,
        overwrite: false,
        guard: AvailableGuard::Zealed,
    })
    .execute(&mut container, &mut ZealedGuard)
    .unwrap();
    assert!(container.status(&p("/chroot/A/B/F")).unwrap().is_file());
    let refused = Command(InitializedRemoveCommand { path: p("/chroot/RDIR"), recursive: false, guard: AvailableGuard::Zealed })
        .execute(&mut container, &mut ZealedGuard);
    assert_eq!(
        refused.err().unwrap(),
        CommandErrorOf::Operation(DomainErrorOf::RecursiveNotAllowed(p("/chroot/RDIR")))
    );
    Command(InitializedRemoveCommand { path: p("/chroot/RDIR"), recursive: true, guard: AvailableGuard::Zealed })
        .execute(&mut container, &mut ZealedGuard)
        .unwrap();
    assert!(!container.status(&p("/chroot/RDIR")).unwrap().is_existing());
    assert_eq!(container.queue().len(), 3);
}

#[test]
fn listing_sorts_by_name_and_marks_virtual_children() {
    let mut container = Container::new(chroot());
    copy("/chroot/RDIR2/RFILEA", "/chroot/RDIR/AFILE").execute(&mut container, &mut ZealedGuard).unwrap();
    let lines = Command(InitializedListCommand { path: p("/chroot/RDIR") }).execute(&container).ok().unwrap();
    assert_eq!(
        lines,
        vec![
            String::from("\x1b[1;91mFile         AFILE\x1b[0m"),
            String::from("File         RFILEA"),
            String::from("File         RFILEB"),
        ]
    );
    let empty = Command(InitializedListCommand { path: p("/chroot/RDIR3") }).execute(&container).ok().unwrap();
    assert_eq!(empty, vec![String::from("Directory is empty")]);
    let root = Command(InitializedListCommand { path: p("/chroot") }).execute(&container).ok().unwrap();
    assert_eq!(root[0], String::from("Directory    RDIR"));
}

#[test]
fn scripted_guard_keeps_the_first_unanswered_question() {
    let target = p("/chroot/RDIR");
    let mut guard = ScriptedGuard::new(vec![Answer::AllowAll]);
    assert!(guard.authorize(Capability::Merge, false, &target).unwrap());
    assert!(guard.authorize(Capability::Merge, false, &target).unwrap());
    assert!(guard.pending().is_none());
    assert!(!guard.authorize(Capability::Overwrite, false, &target).unwrap());
    assert_eq!(guard.pending(), Some((Capability::Overwrite, target.clone())));
    assert!(guard.authorize(Capability::Recursive, true, &target).unwrap());

    let mut cancelling = ScriptedGuard::new(vec![Answer::Cancel]);
    assert_eq!(
        cancelling.authorize(Capability::Overwrite, false, &target).err().unwrap(),
        DomainErrorOf::UserCancelled
    );
}

#[test]
fn an_interactive_copy_is_decided_again_once_answered() {
    let mut container = Container::new(chroot());
    copy("/chroot/RDIR", "/chroot/RDIR3").execute(&mut container, &mut ZealedGuard).unwrap();
    let mut first = ScriptedGuard::new(vec![]);
    let skipped = copy("/chroot/RDIR", "/chroot/RDIR3").execute(&mut container, &mut first);
    assert!(skipped.is_ok());
    assert_eq!(first.pending(), Some((Capability::Merge, p("/chroot/RDIR3/RDIR"))));
}
