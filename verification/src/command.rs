//! The commands of the shell: how their arguments become paths and guards,
//! and what each one asks of the session.

use vstd::prelude::*;

use crate::capability::Guard;
use crate::container::{Container, ContainerView, FsEvent, FsEventView, play_guarded_view};
use crate::disk::{RealFileSystem, RealNodeView, real_status_view};
use crate::errors::{DomainErrorOf, IoErrorKind, QueryErrorOf};
use crate::event::{CopyEvent, CreateEvent, CreateView, MoveEvent, RemoveEvent, RemoveView, TranslationView};
use crate::kind::Kind;
use crate::path::{
    FsPath, PathView, absolute, file_name_view, join_view, normalize_view, parse_view,
    push_last_view, starts_with_view, strings_view,
};
use crate::port::{Entry, EntryView, FileSystemAdapter, ReadableFileSystem, entries_view};
use crate::shell::{AvailableGuard, add_red_color, guard_named, red_view, trim, trimmed};
use crate::virt::{VfsView, VirtualFileSystem};

verus! {

/// Errors of the commands. `P` is the type of the paths, `S` that of the
/// texts.
#[derive(Debug, Clone, PartialEq, Eq)]
pub enum CommandErrorOf<P, S> {
    Exit,
    Io(IoErrorKind),
    Operation(DomainErrorOf<P>),
    Query(QueryErrorOf<P>),
    Format,
    ArgumentMissing(S, S, S),
    InvalidCommand,
    AlreadyExists(P),
    IsNotADirectory(P),
    DoesNotExists(P),
    CwdIsInside(P),
    CustomError(S),
    DirectoryIntoAFile(P, P),
    InvalidGuard(S),
}

pub type CommandError = CommandErrorOf<FsPath, String>;

pub type CommandErrorView = CommandErrorOf<PathView, Seq<char>>;

impl View for CommandErrorOf<FsPath, String> {
    type V = CommandErrorOf<PathView, Seq<char>>;

    open spec fn view(&self) -> CommandErrorOf<PathView, Seq<char>> {
        match self {
            CommandErrorOf::Exit => CommandErrorOf::Exit,
            CommandErrorOf::Io(k) => CommandErrorOf::Io(*k),
            CommandErrorOf::Operation(e) => CommandErrorOf::Operation(e@),
            CommandErrorOf::Query(e) => CommandErrorOf::Query(e@),
            CommandErrorOf::Format => CommandErrorOf::Format,
            CommandErrorOf::ArgumentMissing(c, a, u) => CommandErrorOf::ArgumentMissing(c@, a@, u@),
            CommandErrorOf::InvalidCommand => CommandErrorOf::InvalidCommand,
            CommandErrorOf::AlreadyExists(p) => CommandErrorOf::AlreadyExists(p@),
            CommandErrorOf::IsNotADirectory(p) => CommandErrorOf::IsNotADirectory(p@),
            CommandErrorOf::DoesNotExists(p) => CommandErrorOf::DoesNotExists(p@),
            CommandErrorOf::CwdIsInside(p) => CommandErrorOf::CwdIsInside(p@),
            CommandErrorOf::CustomError(s) => CommandErrorOf::CustomError(s@),
            CommandErrorOf::DirectoryIntoAFile(a, b) => CommandErrorOf::DirectoryIntoAFile(a@, b@),
            CommandErrorOf::InvalidGuard(s) => CommandErrorOf::InvalidGuard(s@),
        }
    }
}

impl From<DomainErrorOf<FsPath>> for CommandErrorOf<FsPath, String> {
    fn from(error: DomainErrorOf<FsPath>) -> (e: Self) {
        CommandErrorOf::Operation(error)
    }
}

impl vstd::std_specs::convert::FromSpecImpl<DomainErrorOf<FsPath>> for CommandErrorOf<FsPath, String> {
    open spec fn obeys_from_spec() -> bool {
        true
    }

    open spec fn from_spec(v: DomainErrorOf<FsPath>) -> Self {
        CommandErrorOf::Operation(v)
    }
}

impl From<QueryErrorOf<FsPath>> for CommandErrorOf<FsPath, String> {
    fn from(error: QueryErrorOf<FsPath>) -> (e: Self) {
        CommandErrorOf::Query(error)
    }
}

impl vstd::std_specs::convert::FromSpecImpl<QueryErrorOf<FsPath>> for CommandErrorOf<FsPath, String> {
    open spec fn obeys_from_spec() -> bool {
        true
    }

    open spec fn from_spec(v: QueryErrorOf<FsPath>) -> Self {
        CommandErrorOf::Query(v)
    }
}

/// Errors of the shell itself.
#[derive(Debug, Clone, PartialEq, Eq)]
pub enum ShellErrorOf<P, S> {
    Exit,
    Io(IoErrorKind),
    Format,
    Operation(DomainErrorOf<P>),
    Query(QueryErrorOf<P>),
    Command(CommandErrorOf<P, S>),
}

pub type ShellError = ShellErrorOf<FsPath, String>;

pub type ShellErrorView = ShellErrorOf<PathView, Seq<char>>;

impl View for ShellErrorOf<FsPath, String> {
    type V = ShellErrorOf<PathView, Seq<char>>;

    open spec fn view(&self) -> ShellErrorOf<PathView, Seq<char>> {
        match self {
            ShellErrorOf::Exit => ShellErrorOf::Exit,
            ShellErrorOf::Io(k) => ShellErrorOf::Io(*k),
            ShellErrorOf::Format => ShellErrorOf::Format,
            ShellErrorOf::Operation(e) => ShellErrorOf::Operation(e@),
            ShellErrorOf::Query(e) => ShellErrorOf::Query(e@),
            ShellErrorOf::Command(e) => ShellErrorOf::Command(e@),
        }
    }
}

impl From<CommandErrorOf<FsPath, String>> for ShellErrorOf<FsPath, String> {
    fn from(error: CommandErrorOf<FsPath, String>) -> (e: Self) {
        ShellErrorOf::Command(error)
    }
}

impl vstd::std_specs::convert::FromSpecImpl<CommandErrorOf<FsPath, String>> for ShellErrorOf<FsPath, String> {
    open spec fn obeys_from_spec() -> bool {
        true
    }

    open spec fn from_spec(v: CommandErrorOf<FsPath, String>) -> Self {
        ShellErrorOf::Command(v)
    }
}

pub open spec fn unit_command_view(r: Result<(), CommandError>) -> Result<(), CommandErrorView> {
    match r {
        Ok(()) => Ok(()),
        Err(e) => Err(e@),
    }
}

/// The value of an argument, when it was given.
pub open spec fn text_view(o: Option<&str>) -> Option<Seq<char>> {
    match o {
        Some(s) => Some(s@),
        None => None,
    }
}

/// The path that an argument names, from the working directory `cwd`.
pub open spec fn argument_path_view(cwd: PathView, value: Seq<char>) -> PathView {
    normalize_view(join_view(cwd, parse_view(trimmed(value))))
}

/// The path argument `key`, or the error that tells it is missing.
pub open spec fn path_arg_view(
    cwd: PathView,
    value: Option<Seq<char>>,
    key: Seq<char>,
    usage: Seq<char>,
) -> Result<PathView, CommandErrorView> {
    match value {
        Some(s) => Ok(argument_path_view(cwd, s)),
        None => Err(CommandErrorOf::ArgumentMissing("generic"@, key, usage)),
    }
}

pub open spec fn guard_available(s: Seq<char>) -> bool {
    s == "interactive"@ || s == "zealed"@ || s == "skip"@ || s == "blind"@
}

/// The guard argument: the interactive guard when none is given.
pub open spec fn guard_arg_view(value: Option<Seq<char>>) -> Result<AvailableGuard, CommandErrorView> {
    match value {
        Some(s) => if guard_available(s) {
            Ok(guard_named(trimmed(s)))
        } else {
            Err(CommandErrorOf::InvalidGuard(s))
        },
        None => Ok(AvailableGuard::Interactive),
    }
}

/// A command, before or after its arguments were read.
pub struct Command<C>(pub C);

pub struct CopyCommand {}

pub struct ListCommand {}

pub struct MoveCommand {}

pub struct NewDirectoryCommand {}

pub struct NewFileCommand {}

pub struct RemoveCommand {}

impl<C> Command<C> {
    /// The path given as the argument `key`.
    pub fn extract_path_from_args(cwd: &FsPath, value: Option<&str>, key: &str, usage: &str) -> (r:
        Result<FsPath, CommandError>)
        ensures
            match path_arg_view(cwd@, text_view(value), key@, usage@) {
                Ok(p) => r matches Ok(q) && q@ == p,
                Err(e) => r matches Err(f) && f@ == e,
            },
    {
        match value {
            Some(text) => {
                let given = FsPath::new(trim(text));
                Ok(absolute(cwd, &given))
            },
            None => Err(
                CommandErrorOf::ArgumentMissing("generic".to_owned(), key.to_owned(), usage.to_owned()),
            ),
        }
    }

    /// The path given as the argument `key`, and whether its text ends with
    /// a separator.
    pub fn extract_path_and_trail_from_args(
        cwd: &FsPath,
        value: Option<&str>,
        key: &str,
        usage: &str,
    ) -> (r: Result<(FsPath, bool), CommandError>)
        requires
            value matches Some(s) ==> s@.len() > 0,
        ensures
            match path_arg_view(cwd@, text_view(value), key@, usage@) {
                Ok(p) => r matches Ok((q, trail)) && q@ == p && trail == (value->0@.last() == '/'),
                Err(e) => r matches Err(f) && f@ == e,
            },
    {
        match value {
            Some(text) => {
                let given = FsPath::new(trim(text));
                let n = text.unicode_len();
                let trail = text.get_char(n - 1) == '/';
                Ok((absolute(cwd, &given), trail))
            },
            None => Err(
                CommandErrorOf::ArgumentMissing("generic".to_owned(), key.to_owned(), usage.to_owned()),
            ),
        }
    }

    /// The guard given as an argument, the interactive one when none is.
    pub fn extract_available_guard(value: Option<&str>) -> (r: Result<AvailableGuard, CommandError>)
        ensures
            match guard_arg_view(text_view(value)) {
                Ok(g) => r == Ok::<AvailableGuard, CommandError>(g),
                Err(e) => r matches Err(f) && f@ == e,
            },
    {
        match value {
            Some(text) => {
                if !AvailableGuard::available(text) {
                    return Err(CommandErrorOf::InvalidGuard(text.to_owned()));
                }
                Ok(AvailableGuard::from_name(text))
            },
            None => Ok(AvailableGuard::default()),
        }
    }
}

/// A copy whose arguments were read.
pub struct InitializedCopyCommand {
    pub source: FsPath,
    pub destination: FsPath,
    pub merge: bool,
    pub overwrite: bool,
    pub guard: AvailableGuard,
}

/// A move whose arguments were read.
pub struct InitializedMoveCommand {
    pub source: FsPath,
    pub destination: FsPath,
    pub merge: bool,
    pub overwrite: bool,
    pub guard: AvailableGuard,
}

/// A listing whose argument was read.
pub struct InitializedListCommand {
    pub path: FsPath,
}

/// A directory creation whose arguments were read.
pub struct InitializedNewDirectoryCommand {
    pub path: FsPath,
    pub recursive: bool,
    pub overwrite: bool,
    pub guard: AvailableGuard,
}

/// A file creation whose arguments were read.
pub struct InitializedNewFileCommand {
    pub path: FsPath,
    pub recursive: bool,
    pub overwrite: bool,
    pub guard: AvailableGuard,
}

/// A removal whose arguments were read.
pub struct InitializedRemoveCommand {
    pub path: FsPath,
    pub recursive: bool,
    pub guard: AvailableGuard,
}

impl Command<CopyCommand> {
    /// Reads the arguments of a copy: its source, its destination, and its
    /// guard, in this order.
    pub fn initialize(
        cwd: &FsPath,
        source: Option<&str>,
        destination: Option<&str>,
        merge: bool,
        overwrite: bool,
        guard: Option<&str>,
        usage: &str,
    ) -> (r: Result<Command<InitializedCopyCommand>, CommandError>)
        requires
            source matches Some(s) ==> s@.len() > 0,
            destination matches Some(s) ==> s@.len() > 0,
        ensures
            match (
                path_arg_view(cwd@, text_view(source), "source"@, usage@),
                path_arg_view(cwd@, text_view(destination), "destination"@, usage@),
                guard_arg_view(text_view(guard)),
            ) {
                (Ok(s), Ok(d), Ok(g)) => r matches Ok(c) && c.0.source@ == s && c.0.destination@
                    == d && c.0.merge == merge && c.0.overwrite == overwrite && c.0.guard == g,
                (Err(e), _, _) => r matches Err(f) && f@ == e,
                (Ok(_), Err(e), _) => r matches Err(f) && f@ == e,
                (Ok(_), Ok(_), Err(e)) => r matches Err(f) && f@ == e,
            },
    {
        let source = match Self::extract_path_and_trail_from_args(cwd, source, "source", usage) {
            Ok((p, _)) => p,
            Err(e) => {
                return Err(e);
            },
        };
        let destination = match Self::extract_path_and_trail_from_args(
            cwd,
            destination,
            "destination",
            usage,
        ) {
            Ok((p, _)) => p,
            Err(e) => {
                return Err(e);
            },
        };
        let guard = match Self::extract_available_guard(guard) {
            Ok(g) => g,
            Err(e) => {
                return Err(e);
            },
        };
        Ok(Command(InitializedCopyCommand { source, destination, merge, overwrite, guard }))
    }
}

impl Command<MoveCommand> {
    /// Reads the arguments of a move: its source, its destination, and its
    /// guard, in this order.
    pub fn initialize(
        cwd: &FsPath,
        source: Option<&str>,
        destination: Option<&str>,
        merge: bool,
        overwrite: bool,
        guard: Option<&str>,
        usage: &str,
    ) -> (r: Result<Command<InitializedMoveCommand>, CommandError>)
        requires
            source matches Some(s) ==> s@.len() > 0,
            destination matches Some(s) ==> s@.len() > 0,
        ensures
            match (
                path_arg_view(cwd@, text_view(source), "source"@, usage@),
                path_arg_view(cwd@, text_view(destination), "destination"@, usage@),
                guard_arg_view(text_view(guard)),
            ) {
                (Ok(s), Ok(d), Ok(g)) => r matches Ok(c) && c.0.source@ == s && c.0.destination@
                    == d && c.0.merge == merge && c.0.overwrite == overwrite && c.0.guard == g,
                (Err(e), _, _) => r matches Err(f) && f@ == e,
                (Ok(_), Err(e), _) => r matches Err(f) && f@ == e,
                (Ok(_), Ok(_), Err(e)) => r matches Err(f) && f@ == e,
            },
    {
        let source = match Self::extract_path_and_trail_from_args(cwd, source, "source", usage) {
            Ok((p, _)) => p,
            Err(e) => {
                return Err(e);
            },
        };
        let destination = match Self::extract_path_and_trail_from_args(
            cwd,
            destination,
            "destination",
            usage,
        ) {
            Ok((p, _)) => p,
            Err(e) => {
                return Err(e);
            },
        };
        let guard = match Self::extract_available_guard(guard) {
            Ok(g) => g,
            Err(e) => {
                return Err(e);
            },
        };
        Ok(Command(InitializedMoveCommand { source, destination, merge, overwrite, guard }))
    }
}

impl Command<ListCommand> {
    /// Reads the argument of a listing: the working directory when no path
    /// is given.
    pub fn initialize(cwd: &FsPath, path: Option<&str>) -> (r: Command<InitializedListCommand>)
        ensures
            r.0.path@ == match text_view(path) {
                Some(s) => argument_path_view(cwd@, s),
                None => cwd@,
            },
    {
        let path = match Self::extract_path_from_args(cwd, path, "path", "") {
            Ok(p) => p,
            Err(_) => cwd.clone(),
        };
        Command(InitializedListCommand { path })
    }
}

impl Command<NewDirectoryCommand> {
    /// Reads the arguments of a directory creation: its path, then its
    /// guard.
    pub fn initialize(
        cwd: &FsPath,
        path: Option<&str>,
        recursive: bool,
        overwrite: bool,
        guard: Option<&str>,
        usage: &str,
    ) -> (r: Result<Command<InitializedNewDirectoryCommand>, CommandError>)
        ensures
            match (path_arg_view(cwd@, text_view(path), "path"@, usage@), guard_arg_view(text_view(guard))) {
                (Ok(p), Ok(g)) => r matches Ok(c) && c.0.path@ == p && c.0.recursive == recursive
                    && c.0.overwrite == overwrite && c.0.guard == g,
                (Err(e), _) => r matches Err(f) && f@ == e,
                (Ok(_), Err(e)) => r matches Err(f) && f@ == e,
            },
    {
        let path = match Self::extract_path_from_args(cwd, path, "path", usage) {
            Ok(p) => p,
            Err(e) => {
                return Err(e);
            },
        };
        let guard = match Self::extract_available_guard(guard) {
            Ok(g) => g,
            Err(e) => {
                return Err(e);
            },
        };
        Ok(Command(InitializedNewDirectoryCommand { path, recursive, overwrite, guard }))
    }
}

impl Command<NewFileCommand> {
    /// Reads the arguments of a file creation: its path, then its guard.
    pub fn initialize(
        cwd: &FsPath,
        path: Option<&str>,
        recursive: bool,
        overwrite: bool,
        guard: Option<&str>,
        usage: &str,
    ) -> (r: Result<Command<InitializedNewFileCommand>, CommandError>)
        ensures
            match (path_arg_view(cwd@, text_view(path), "path"@, usage@), guard_arg_view(text_view(guard))) {
                (Ok(p), Ok(g)) => r matches Ok(c) && c.0.path@ == p && c.0.recursive == recursive
                    && c.0.overwrite == overwrite && c.0.guard == g,
                (Err(e), _) => r matches Err(f) && f@ == e,
                (Ok(_), Err(e)) => r matches Err(f) && f@ == e,
            },
    {
        let path = match Self::extract_path_from_args(cwd, path, "path", usage) {
            Ok(p) => p,
            Err(e) => {
                return Err(e);
            },
        };
        let guard = match Self::extract_available_guard(guard) {
            Ok(g) => g,
            Err(e) => {
                return Err(e);
            },
        };
        Ok(Command(InitializedNewFileCommand { path, recursive, overwrite, guard }))
    }
}

impl Command<RemoveCommand> {
    /// Reads the arguments of a removal: its path, which must not be the
    /// working directory or one of its ancestors, then its guard.
    pub fn initialize(
        cwd: &FsPath,
        path: Option<&str>,
        recursive: bool,
        guard: Option<&str>,
        usage: &str,
    ) -> (r: Result<Command<InitializedRemoveCommand>, CommandError>)
        ensures
            match (path_arg_view(cwd@, text_view(path), "path"@, usage@), guard_arg_view(text_view(guard))) {
                (Err(e), _) => r matches Err(f) && f@ == e,
                (Ok(p), g) => if starts_with_view(cwd@, p) {
                    r matches Err(f) && f@ == CommandErrorOf::<PathView, Seq<char>>::CwdIsInside(p)
                } else {
                    match g {
                        Ok(g) => r matches Ok(c) && c.0.path@ == p && c.0.recursive == recursive
                            && c.0.guard == g,
                        Err(e) => r matches Err(f) && f@ == e,
                    }
                },
            },
    {
        let path = match Self::extract_path_from_args(cwd, path, "path", usage) {
            Ok(p) => p,
            Err(e) => {
                return Err(e);
            },
        };
        if cwd.starts_with(&path) {
            return Err(CommandErrorOf::CwdIsInside(path));
        }
        let guard = match Self::extract_available_guard(guard) {
            Ok(g) => g,
            Err(e) => {
                return Err(e);
            },
        };
        Ok(Command(InitializedRemoveCommand { path, recursive, guard }))
    }
}

/// What a command that plays `e` does to the session: the event is played
/// on the virtual file system, asking the guard, and queued when it went
/// through.
pub open spec fn command_play_view<G: Guard>(c: ContainerView, gv: G::V, e: FsEventView) -> (
    ContainerView,
    G::V,
    Result<(), CommandErrorView>,
) {
    let played = play_guarded_view::<FileSystemAdapter<VirtualFileSystem>, G>(c.vfs, gv, e);
    match played.2 {
        Ok(()) => (ContainerView { vfs: played.0, queue: c.queue.push(e), ..c }, played.1, Ok(())),
        Err(err) => (ContainerView { vfs: played.0, ..c }, played.1, Err(CommandErrorOf::Operation(err))),
    }
}

/// Plays `event` on the session, asking `guard`, and queues it when it went
/// through.
pub fn play_and_queue<G: Guard>(container: &mut Container, event: FsEvent, guard: &mut G) -> (r: Result<
    (),
    CommandError,
>)
    requires
        old(container).wf(),
    ensures
        final(container).wf(),
        (final(container)@, final(guard)@, unit_command_view(r)) == command_play_view::<G>(
            old(container)@,
            old(guard)@,
            event@,
        ),
{
    match container.emit_guarded(&event, guard) {
        Ok(()) => {
            container.delay(event);
            Ok(())
        },
        Err(e) => Err(CommandErrorOf::Operation(e)),
    }
}

pub open spec fn vstatus(v: VfsView, p: PathView) -> Result<EntryView, crate::errors::QueryErrorView> {
    FileSystemAdapter::<VirtualFileSystem>::status_view(v, p)
}

/// What a copy does, once the source and the destination were looked at.
pub enum CopyPlan {
    Fail(CommandErrorView),
    Play(PathView),
}

/// A copy onto an existing directory copies into it, under the source's
/// name; onto nothing, it copies to the destination itself.
pub open spec fn copy_plan(v: VfsView, source: PathView, destination: PathView) -> CopyPlan {
    match vstatus(v, source) {
        Err(e) => CopyPlan::Fail(CommandErrorOf::Query(e)),
        Ok(s) => match vstatus(v, destination) {
            Err(e) => CopyPlan::Fail(CommandErrorOf::Query(e)),
            Ok(d) => if !s.exists {
                CopyPlan::Fail(CommandErrorOf::DoesNotExists(source))
            } else if d.exists {
                if d.is_dir {
                    CopyPlan::Play(push_last_view(destination, source))
                } else if s.is_dir {
                    CopyPlan::Fail(CommandErrorOf::DirectoryIntoAFile(s.path, d.path))
                } else {
                    CopyPlan::Fail(CommandErrorOf::CustomError("Overwrite false false"@))
                }
            } else {
                CopyPlan::Play(destination)
            },
        },
    }
}

/// Whether a copy goes into an existing directory.
pub open spec fn copies_into_directory(v: VfsView, source: PathView, destination: PathView) -> bool {
    &&& vstatus(v, source) matches Ok(s) && s.exists
    &&& vstatus(v, destination) matches Ok(d) && d.exists && d.is_dir
}

/// Where a copy or a move of `source` to `destination` lands, or why it
/// does not take place.
fn plan_target(container: &Container, source: &FsPath, destination: &FsPath) -> (r: Result<
    FsPath,
    CommandError,
>)
    requires
        container.wf(),
        copies_into_directory(container@.vfs, source@, destination@) ==> file_name_view(
            source@,
        ) is Some,
    ensures
        match copy_plan(container@.vfs, source@, destination@) {
            CopyPlan::Fail(e) => r matches Err(f) && f@ == e,
            CopyPlan::Play(target) => r matches Ok(t) && t@ == target,
        },
{
    let src = match container.status(source) {
        Ok(e) => e,
        Err(e) => {
            return Err(CommandErrorOf::Query(e));
        },
    };
    let dst = match container.status(destination) {
        Ok(e) => e,
        Err(e) => {
            return Err(CommandErrorOf::Query(e));
        },
    };
    if !src.is_existing() {
        return Err(CommandErrorOf::DoesNotExists(source.clone()));
    }
    if dst.is_existing() {
        if dst.is_dir() {
            Ok(destination.join_last_of(source))
        } else if src.is_dir() {
            Err(CommandErrorOf::DirectoryIntoAFile(src.to_path(), dst.to_path()))
        } else {
            Err(CommandErrorOf::CustomError("Overwrite false false".to_owned()))
        }
    } else {
        Ok(destination.clone())
    }
}

impl Command<InitializedCopyCommand> {
    /// The event that the copy plays, once the source and the destination
    /// were looked at.
    pub fn event(&self, container: &Container) -> (r: Result<FsEvent, CommandError>)
        requires
            container.wf(),
            copies_into_directory(container@.vfs, self.0.source@, self.0.destination@)
                ==> file_name_view(self.0.source@) is Some,
        ensures
            match copy_plan(container@.vfs, self.0.source@, self.0.destination@) {
                CopyPlan::Fail(e) => r matches Err(f) && f@ == e,
                CopyPlan::Play(target) => r matches Ok(event) && event@ == FsEventView::Copy(
                    TranslationView {
                        source: self.0.source@,
                        destination: target,
                        merge: self.0.merge,
                        overwrite: self.0.overwrite,
                    },
                ),
            },
    {
        let c = &self.0;
        let target = match plan_target(container, &c.source, &c.destination) {
            Ok(t) => t,
            Err(e) => {
                return Err(e);
            },
        };
        Ok(FsEvent::Copy(CopyEvent::new(&c.source, &target, c.merge, c.overwrite)))
    }

    /// Plays the copy on the session and queues it, asking `guard`.
    pub fn execute<G: Guard>(self, container: &mut Container, guard: &mut G) -> (r: Result<
        (),
        CommandError,
    >)
        requires
            old(container).wf(),
            copies_into_directory(old(container)@.vfs, self.0.source@, self.0.destination@)
                ==> file_name_view(self.0.source@) is Some,
        ensures
            final(container).wf(),
            match copy_plan(old(container)@.vfs, self.0.source@, self.0.destination@) {
                CopyPlan::Fail(e) => {
                    &&& final(container)@ == old(container)@
                    &&& final(guard)@ == old(guard)@
                    &&& r matches Err(f) && f@ == e
                },
                CopyPlan::Play(target) => (final(container)@, final(guard)@, unit_command_view(r))
                    == command_play_view::<G>(
                    old(container)@,
                    old(guard)@,
                    FsEventView::Copy(
                        TranslationView {
                            source: self.0.source@,
                            destination: target,
                            merge: self.0.merge,
                            overwrite: self.0.overwrite,
                        },
                    ),
                ),
            },
    {
        match self.event(container) {
            Ok(event) => play_and_queue(container, event, guard),
            Err(e) => Err(e),
        }
    }
}

impl Command<InitializedMoveCommand> {
    /// The event that the move plays, once the source and the destination
    /// were looked at.
    pub fn event(&self, container: &Container) -> (r: Result<FsEvent, CommandError>)
        requires
            container.wf(),
            copies_into_directory(container@.vfs, self.0.source@, self.0.destination@)
                ==> file_name_view(self.0.source@) is Some,
        ensures
            match copy_plan(container@.vfs, self.0.source@, self.0.destination@) {
                CopyPlan::Fail(e) => r matches Err(f) && f@ == e,
                CopyPlan::Play(target) => r matches Ok(event) && event@ == FsEventView::Move(
                    TranslationView {
                        source: self.0.source@,
                        destination: target,
                        merge: self.0.merge,
                        overwrite: self.0.overwrite,
                    },
                ),
            },
    {
        let c = &self.0;
        let target = match plan_target(container, &c.source, &c.destination) {
            Ok(t) => t,
            Err(e) => {
                return Err(e);
            },
        };
        Ok(FsEvent::Move(MoveEvent::new(&c.source, &target, c.merge, c.overwrite)))
    }

    /// Plays the move on the session and queues it, asking `guard`.
    pub fn execute<G: Guard>(self, container: &mut Container, guard: &mut G) -> (r: Result<
        (),
        CommandError,
    >)
        requires
            old(container).wf(),
            copies_into_directory(old(container)@.vfs, self.0.source@, self.0.destination@)
                ==> file_name_view(self.0.source@) is Some,
        ensures
            final(container).wf(),
            match copy_plan(old(container)@.vfs, self.0.source@, self.0.destination@) {
                CopyPlan::Fail(e) => {
                    &&& final(container)@ == old(container)@
                    &&& final(guard)@ == old(guard)@
                    &&& r matches Err(f) && f@ == e
                },
                CopyPlan::Play(target) => (final(container)@, final(guard)@, unit_command_view(r))
                    == command_play_view::<G>(
                    old(container)@,
                    old(guard)@,
                    FsEventView::Move(
                        TranslationView {
                            source: self.0.source@,
                            destination: target,
                            merge: self.0.merge,
                            overwrite: self.0.overwrite,
                        },
                    ),
                ),
            },
    {
        match self.event(container) {
            Ok(event) => play_and_queue(container, event, guard),
            Err(e) => Err(e),
        }
    }
}

impl Command<InitializedNewDirectoryCommand> {
    /// Plays the creation of the directory on the session and queues it.
    pub fn execute<G: Guard>(self, container: &mut Container, guard: &mut G) -> (r: Result<
        (),
        CommandError,
    >)
        requires
            old(container).wf(),
        ensures
            final(container).wf(),
            (final(container)@, final(guard)@, unit_command_view(r)) == command_play_view::<G>(
                old(container)@,
                old(guard)@,
                FsEventView::Create(
                    CreateView {
                        path: self.0.path@,
                        kind: Kind::Directory,
                        recursive: self.0.recursive,
                        overwrite: self.0.overwrite,
                    },
                ),
            ),
    {
        let event = self.event();
        play_and_queue(container, event, guard)
    }

    /// The event that the creation plays.
    pub fn event(&self) -> (e: FsEvent)
        ensures
            e@ == FsEventView::Create(
                CreateView {
                    path: self.0.path@,
                    kind: Kind::Directory,
                    recursive: self.0.recursive,
                    overwrite: self.0.overwrite,
                },
            ),
    {
        FsEvent::Create(CreateEvent::new(&self.0.path, Kind::Directory, self.0.recursive, self.0.overwrite))
    }
}

impl Command<InitializedNewFileCommand> {
    /// Plays the creation of the file on the session and queues it.
    pub fn execute<G: Guard>(self, container: &mut Container, guard: &mut G) -> (r: Result<
        (),
        CommandError,
    >)
        requires
            old(container).wf(),
        ensures
            final(container).wf(),
            (final(container)@, final(guard)@, unit_command_view(r)) == command_play_view::<G>(
                old(container)@,
                old(guard)@,
                FsEventView::Create(
                    CreateView {
                        path: self.0.path@,
                        kind: Kind::File,
                        recursive: self.0.recursive,
                        overwrite: self.0.overwrite,
                    },
                ),
            ),
    {
        let event = self.event();
        play_and_queue(container, event, guard)
    }

    /// The event that the creation plays.
    pub fn event(&self) -> (e: FsEvent)
        ensures
            e@ == FsEventView::Create(
                CreateView {
                    path: self.0.path@,
                    kind: Kind::File,
                    recursive: self.0.recursive,
                    overwrite: self.0.overwrite,
                },
            ),
    {
        FsEvent::Create(CreateEvent::new(&self.0.path, Kind::File, self.0.recursive, self.0.overwrite))
    }
}

impl Command<InitializedRemoveCommand> {
    /// Plays the removal on the session and queues it.
    pub fn execute<G: Guard>(self, container: &mut Container, guard: &mut G) -> (r: Result<
        (),
        CommandError,
    >)
        requires
            old(container).wf(),
        ensures
            final(container).wf(),
            (final(container)@, final(guard)@, unit_command_view(r)) == command_play_view::<G>(
                old(container)@,
                old(guard)@,
                FsEventView::Remove(RemoveView { path: self.0.path@, recursive: self.0.recursive }),
            ),
    {
        let event = self.event();
        play_and_queue(container, event, guard)
    }

    /// The event that the removal plays.
    pub fn event(&self) -> (e: FsEvent)
        ensures
            e@ == FsEventView::Remove(RemoveView { path: self.0.path@, recursive: self.0.recursive }),
    {
        FsEvent::Remove(RemoveEvent::new(&self.0.path, self.0.recursive))
    }
}

/// Whether the name `a` comes before `b`, or is `b`: character by
/// character, by their code points, a prefix first.
pub open spec fn name_le(a: Seq<char>, b: Seq<char>) -> bool
    decreases a.len(),
{
    if a.len() == 0 {
        true
    } else if b.len() == 0 {
        false
    } else if a[0] != b[0] {
        (a[0] as int) < (b[0] as int)
    } else {
        name_le(a.drop_first(), b.drop_first())
    }
}

proof fn lemma_name_le_total(a: Seq<char>, b: Seq<char>)
    ensures
        name_le(a, b) || name_le(b, a),
    decreases a.len(),
{
    if a.len() > 0 && b.len() > 0 && a[0] == b[0] {
        lemma_name_le_total(a.drop_first(), b.drop_first());
    }
}

fn is_name_le(a: &str, b: &str) -> (r: bool)
    ensures
        r == name_le(a@, b@),
{
    let n = a.unicode_len();
    let m = b.unicode_len();
    let mut i: usize = 0;
    assert(a@.skip(0) =~= a@ && b@.skip(0) =~= b@);
    while i < n && i < m
        invariant
            i <= n,
            i <= m,
            n == a@.len(),
            m == b@.len(),
            name_le(a@, b@) == name_le(a@.skip(i as int), b@.skip(i as int)),
        decreases n - i,
    {
        let ca = a.get_char(i);
        let cb = b.get_char(i);
        assert(a@.skip(i as int)[0] == ca);
        assert(b@.skip(i as int)[0] == cb);
        if ca != cb {
            return (ca as u32) < (cb as u32);
        }
        assert(a@.skip(i as int).drop_first() =~= a@.skip(i + 1));
        assert(b@.skip(i as int).drop_first() =~= b@.skip(i + 1));
        i += 1;
    }
    i == n
}

/// The name under which an entry is listed.
pub open spec fn entry_name(e: EntryView) -> Seq<char> {
    e.path.components.last()
}

pub open spec fn sorted_by_name(s: Seq<EntryView>) -> bool {
    forall|i: int, j: int|
        #![trigger s[i], s[j]]
        0 <= i && j == i + 1 && j < s.len() ==> name_le(entry_name(s[i]), entry_name(s[j]))
}

pub open spec fn named(s: Seq<EntryView>) -> bool {
    forall|i: int| 0 <= i < s.len() ==> (#[trigger] s[i]).path.components.len() > 0
}

/// `entries` ordered by their names.
fn sort_by_name(entries: Vec<Entry>) -> (r: Vec<Entry>)
    requires
        named(entries_view(entries@)),
    ensures
        named(entries_view(r@)),
        sorted_by_name(entries_view(r@)),
        entries_view(r@).to_multiset() == entries_view(entries@).to_multiset(),
{
    let mut sorted: Vec<Entry> = Vec::new();
    let mut rest = entries;
    let ghost all = entries_view(rest@);
    proof {
        broadcast use vstd::seq_lib::group_to_multiset_ensures;
        assert(entries_view(sorted@) =~= Seq::<EntryView>::empty());
    }
    while rest.len() > 0
        invariant
            named(entries_view(sorted@)),
            named(entries_view(rest@)),
            sorted_by_name(entries_view(sorted@)),
            entries_view(sorted@).to_multiset().add(entries_view(rest@).to_multiset())
                == all.to_multiset(),
        decreases rest.len(),
    {
        proof {
            broadcast use vstd::seq_lib::group_to_multiset_ensures;
        }
        let ghost before_rest = entries_view(rest@);
        let x = rest.pop().unwrap();
        proof {
            assert(before_rest =~= entries_view(rest@).push(x@));
            assert(before_rest.last() == x@);
            assert forall|i: int| 0 <= i < entries_view(rest@).len() implies (#[trigger] entries_view(
                rest@,
            )[i]).path.components.len() > 0 by {
                assert(entries_view(rest@)[i] == before_rest[i]);
            }
        }
        let xname = x.path().last_name();
        let mut k: usize = 0;
        while k < sorted.len()
            invariant
                k <= sorted.len(),
                named(entries_view(sorted@)),
                xname@ == entry_name(x@),
                k > 0 ==> name_le(entry_name(sorted@[k - 1]@), xname@),
            ensures
                k <= sorted.len(),
                k > 0 ==> name_le(entry_name(sorted@[k - 1]@), xname@),
                k < sorted.len() ==> !name_le(entry_name(sorted@[k as int]@), xname@),
            decreases sorted.len() - k,
        {
            assert(entries_view(sorted@)[k as int] == sorted@[k as int]@);
            let kname = sorted[k].path().last_name();
            if !is_name_le(kname.as_str(), xname.as_str()) {
                break;
            }
            k += 1;
        }
        let ghost old_sorted = entries_view(sorted@);
        proof {
            if k > 0 {
                assert(old_sorted[k - 1] == sorted@[k - 1]@);
            }
            if k < sorted.len() {
                assert(old_sorted[k as int] == sorted@[k as int]@);
                lemma_name_le_total(entry_name(x@), entry_name(sorted@[k as int]@));
            }
        }
        sorted.insert(k, x);
        proof {
            let s = entries_view(sorted@);
            assert(s =~= old_sorted.insert(k as int, x@));
            assert forall|i: int, j: int|
                0 <= i && j == i + 1 && j < s.len() implies name_le(
                entry_name(#[trigger] s[i]),
                entry_name(#[trigger] s[j]),
            ) by {
                if j < k {
                    assert(s[i] == old_sorted[i] && s[j] == old_sorted[j]);
                } else if j == k {
                    assert(s[i] == old_sorted[i] && s[j] == x@);
                } else if i == k {
                    assert(s[i] == x@ && s[j] == old_sorted[i]);
                } else {
                    assert(s[i] == old_sorted[i - 1] && s[j] == old_sorted[j - 1]);
                }
            }
            assert forall|i: int| 0 <= i < s.len() implies (#[trigger] s[i]).path.components.len()
                > 0 by {
                if i < k {
                    assert(s[i] == old_sorted[i]);
                } else if i > k {
                    assert(s[i] == old_sorted[i - 1]);
                }
            }
            vstd::seq_lib::to_multiset_insert(old_sorted, k as int, x@);
            vstd::seq_lib::to_multiset_build(entries_view(rest@), x@);
            assert(s.to_multiset().add(entries_view(rest@).to_multiset()) =~= old_sorted.to_multiset().add(
                before_rest.to_multiset(),
            ));
        }
    }
    proof {
        assert(entries_view(rest@) =~= Seq::<EntryView>::empty());
        assert(entries_view(sorted@).to_multiset().add(entries_view(rest@).to_multiset())
            =~= entries_view(sorted@).to_multiset());
    }
    sorted
}

pub open spec fn kind_label(e: EntryView) -> Seq<char> {
    if e.is_dir {
        "Directory"@
    } else if e.is_file {
        "File     "@
    } else {
        "Unknown  "@
    }
}

/// The line of a child in a listing: red when the real file system does not
/// have it.
pub open spec fn list_line_view(disk: Seq<RealNodeView>, e: EntryView) -> Seq<char> {
    let text = kind_label(e) + "    "@ + entry_name(e);
    if real_status_view(disk, e.path).exists {
        text
    } else {
        red_view(text)
    }
}

pub open spec fn list_lines_view(disk: Seq<RealNodeView>, s: Seq<EntryView>) -> Seq<Seq<char>> {
    s.map_values(|e: EntryView| list_line_view(disk, e))
}

impl Command<InitializedListCommand> {
    /// The lines that list the directory: its children by name, or a line
    /// telling that it is empty.
    pub fn execute(self, container: &Container) -> (r: Result<Vec<String>, CommandError>)
        requires
            container.wf(),
        ensures
            match FileSystemAdapter::<VirtualFileSystem>::read_dir_view(
                container@.vfs,
                self.0.path@,
            ) {
                Err(e) => r matches Err(f) && f@ == CommandErrorOf::<PathView, Seq<char>>::Query(e),
                Ok(children) => {
                    &&& r is Ok
                    &&& children.len() == 0 ==> strings_view(r->Ok_0@) == seq!["Directory is empty"@]
                    &&& children.len() > 0 ==> exists|order: Seq<EntryView>|
                        {
                            &&& order.to_multiset() == children.to_multiset()
                            &&& sorted_by_name(order)
                            &&& strings_view(r->Ok_0@) == #[trigger] list_lines_view(
                                container@.real,
                                order,
                            )
                        }
                },
            },
    {
        let c = self.0;
        let children = match container.read_dir(&c.path) {
            Ok(v) => v,
            Err(e) => {
                return Err(CommandErrorOf::Query(e));
            },
        };
        proof {
            FileSystemAdapter::<VirtualFileSystem>::lemma_read_dir_entries(container@.vfs, c.path@);
            assert(entries_view(children@) == FileSystemAdapter::<VirtualFileSystem>::read_dir_view(
                container@.vfs,
                c.path@,
            )->Ok_0);
            assert forall|i: int| 0 <= i < entries_view(children@).len() implies (#[trigger] entries_view(
                children@,
            )[i]).path.components.len() > 0 by {}
        }
        let mut lines: Vec<String> = Vec::new();
        if children.len() == 0 {
            lines.push("Directory is empty".to_owned());
            assert(strings_view(lines@) =~= seq!["Directory is empty"@]);
            return Ok(lines);
        }
        let sorted = sort_by_name(children);
        let disk: &FileSystemAdapter<RealFileSystem> = container.rfs();
        let mut i: usize = 0;
        while i < sorted.len()
            invariant
                i <= sorted.len(),
                named(entries_view(sorted@)),
                disk@ == container@.real,
                crate::disk::real_wf(disk@),
                strings_view(lines@) =~= list_lines_view(
                    container@.real,
                    entries_view(sorted@).take(i as int),
                ),
            decreases sorted.len() - i,
        {
            let e = &sorted[i];
            assert(entries_view(sorted@)[i as int] == e@);
            let mut text = if e.is_dir() {
                "Directory".to_owned()
            } else if e.is_file() {
                "File     ".to_owned()
            } else {
                "Unknown  ".to_owned()
            };
            text.append("    ");
            let name = e.path().last_name();
            text.append(name.as_str());
            assert(text@ == kind_label(e@) + "    "@ + entry_name(e@));
            let on_disk = match disk.status(e.path()) {
                Ok(found) => found.is_existing(),
                Err(_) => false,
            };
            let line = if on_disk {
                text
            } else {
                add_red_color(text.as_str())
            };
            assert(line@ == list_line_view(container@.real, e@));
            let ghost before = lines@;
            lines.push(line);
            assert(entries_view(sorted@).take(i + 1) =~= entries_view(sorted@).take(i as int).push(e@));
            assert(strings_view(lines@) =~= strings_view(before).push(line@));
            assert(list_lines_view(container@.real, entries_view(sorted@).take(i + 1))
                =~= list_lines_view(container@.real, entries_view(sorted@).take(i as int)).push(
                list_line_view(container@.real, e@),
            ));
            i += 1;
        }
        assert(entries_view(sorted@).take(sorted.len() as int) =~= entries_view(sorted@));
        Ok(lines)
    }
}

} // verus!
