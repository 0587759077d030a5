//! The operations of the first file system layer: removing from the real
//! file system and creating in the virtual one, the operations that move
//! files into directories, and the hybrid file system that stages writes for
//! the real file system behind a virtual one.

use vstd::prelude::*;

use crate::atomic::{AtomicTransaction, AtomicView, apply_all};
use crate::disk::{
    RealFileSystem, RealNodeView, is_not_node, real_children, real_exists, real_is_dir,
    without_tree,
};
use crate::errors::{
    InfrastructureError, InfrastructureErrorView, IoErrorKind, OperationError, OperationErrorOf,
    OperationErrorView,
};
use crate::kind::Kind;
use crate::path::{
    FsPath, PathView, get_parent_or_root, nth_ancestor_view, parent_or_root_view, push_last_view,
    root_view,
};
use crate::port::{Entry, EntryView, FileSystemAdapter, WriteableFileSystem, infra_unit_view};
use crate::representation::{VirtualPath, attach_view};
use crate::virt::{VfsView, VirtualFileSystem, state_exists, vfs_wf, vstatus_view};

verus! {

pub open spec fn op_unit_view(r: Result<(), OperationError>) -> Result<(), OperationErrorView> {
    match r {
        Ok(()) => Ok(()),
        Err(e) => Err(e@),
    }
}

pub struct RemoveOperationView {
    pub path: PathView,
    pub recursive: bool,
}

/// Removing a path of the real file system: a file, or a directory with
/// its content when `recursive` or when it is empty.
pub open spec fn remove_operation_view(s: Seq<RealNodeView>, p: PathView, recursive: bool) -> (
    Seq<RealNodeView>,
    Result<(), OperationErrorView>,
) {
    if !real_exists(s, p) {
        (s, Err(OperationErrorOf::DoesNotExists(p)))
    } else if real_is_dir(s, p) {
        if !recursive && real_children(s, p).len() > 0 {
            (s, Err(OperationErrorOf::DirectoryIsNotEmpty(p)))
        } else if p == root_view() {
            (s, Err(OperationErrorOf::Io(IoErrorKind::Other)))
        } else {
            (without_tree(s, p), Ok(()))
        }
    } else {
        (s.filter(is_not_node(p)), Ok(()))
    }
}

/// Removes a path of the real file system.
#[derive(Debug)]
pub struct RemoveOperation {
    path: FsPath,
    recursive: bool,
}

impl View for RemoveOperation {
    type V = RemoveOperationView;

    closed spec fn view(&self) -> RemoveOperationView {
        RemoveOperationView { path: self.path@, recursive: self.recursive }
    }
}

impl RemoveOperation {
    pub fn new(path: &FsPath, recursive: bool) -> (o: RemoveOperation)
        ensures
            o@ == (RemoveOperationView { path: path@, recursive }),
    {
        RemoveOperation { path: path.clone(), recursive }
    }

    pub fn path(&self) -> (p: &FsPath)
        ensures
            p@ == self@.path,
    {
        &self.path
    }

    pub fn recursive(&self) -> (b: bool)
        ensures
            b == self@.recursive,
    {
        self.recursive
    }

    /// Carries out the removal on `fs`.
    pub fn execute(&self, fs: &mut RealFileSystem) -> (r: Result<(), OperationError>)
        requires
            old(fs).wf(),
        ensures
            final(fs).wf(),
            (final(fs)@, op_unit_view(r)) == remove_operation_view(
                old(fs)@,
                self@.path,
                self@.recursive,
            ),
    {
        let path = &self.path;
        if !fs.exists_path(path) {
            return Err(OperationErrorOf::DoesNotExists(path.clone()));
        }
        if fs.is_dir(path) {
            if !self.recursive && fs.children(path).len() > 0 {
                return Err(OperationErrorOf::DirectoryIsNotEmpty(path.clone()));
            }
            if path.same(&FsPath::root()) {
                return Err(OperationErrorOf::Io(IoErrorKind::Other));
            }
            fs.remove_tree(path);
            Ok(())
        } else {
            let mut adapter = FileSystemAdapter(RealFileSystem::new());
            std::mem::swap(&mut adapter.0, fs);
            let r = adapter.remove_file(path);
            std::mem::swap(&mut adapter.0, fs);
            match r {
                Ok(()) => Ok(()),
                Err(_) => Err(OperationErrorOf::Io(IoErrorKind::Other)),
            }
        }
    }
}

pub struct CreateOperationView {
    pub path: PathView,
    pub kind: Kind,
    pub recursive: bool,
    pub overwrite: bool,
}

pub type VfsOpStep = (VfsView, Result<(), OperationErrorView>);

/// Attaching a node to the additions of a virtual file system.
pub open spec fn attach_add(v: VfsView, identity: PathView, source: Option<PathView>, kind: Kind) -> VfsOpStep {
    let r = attach_view(v.add, identity, source, kind);
    (
        VfsView { add: r.0, ..v },
        match r.1 {
            Ok(()) => Ok(()),
            Err(e) => Err(OperationErrorOf::Representation(e)),
        },
    )
}

/// Creating the directories from the ancestor `i` steps above `p` down to
/// `p`, below the first of them that exists.
pub open spec fn create_directories_view(v: VfsView, p: PathView, i: nat) -> VfsOpStep
    decreases p.components.len() + 1 - i,
{
    if i > p.components.len() {
        (v, Ok(()))
    } else {
        let a = nth_ancestor_view(p, i);
        match vstatus_view(v, a) {
            Err(e) => (v, Err(OperationErrorOf::Query(e))),
            Ok(s) => if state_exists(s.state) {
                (v, Ok(()))
            } else {
                let above = create_directories_view(v, p, i + 1);
                match above.1 {
                    Err(e) => (above.0, Err(e)),
                    Ok(()) => attach_add(above.0, a, None, Kind::Directory),
                }
            },
        }
    }
}

/// Creating a node in a virtual file system: an existing node is replaced
/// by an empty one; otherwise the node is attached below its parent, or,
/// for a directory made recursively, with its missing ancestors.
pub open spec fn create_operation_view(v: VfsView, p: PathView, kind: Kind, recursive: bool) -> VfsOpStep {
    match vstatus_view(v, p) {
        Err(e) => (v, Err(OperationErrorOf::Query(e))),
        Ok(st) => if state_exists(st.state) {
            attach_add(v, st.identity.identity, None, st.identity.kind)
        } else if !recursive || kind == Kind::File {
            match vstatus_view(v, parent_or_root_view(p)) {
                Err(e) => (v, Err(OperationErrorOf::Query(e))),
                Ok(parent) => if !state_exists(parent.state) {
                    (v, Err(OperationErrorOf::ParentDoesNotExists(p)))
                } else if parent.identity.kind != Kind::Directory {
                    (v, Err(OperationErrorOf::ParentIsNotADirectory(p)))
                } else {
                    attach_add(v, p, None, kind)
                },
            }
        } else {
            create_directories_view(v, p, 0)
        },
    }
}

/// Creates a node in a virtual file system.
#[derive(Debug)]
pub struct CreateOperation {
    path: FsPath,
    kind: Kind,
    recursive: bool,
    overwrite: bool,
}

impl View for CreateOperation {
    type V = CreateOperationView;

    closed spec fn view(&self) -> CreateOperationView {
        CreateOperationView {
            path: self.path@,
            kind: self.kind,
            recursive: self.recursive,
            overwrite: self.overwrite,
        }
    }
}

fn attach_added(fs: &mut VirtualFileSystem, identity: &FsPath, kind: Kind) -> (r: Result<
    (),
    OperationError,
>)
    requires
        vfs_wf(old(fs)@),
    ensures
        vfs_wf(final(fs)@),
        (final(fs)@, op_unit_view(r)) == attach_add(old(fs)@, identity@, None, kind),
{
    match fs.mut_add_state().attach(identity, None, kind) {
        Ok(()) => Ok(()),
        Err(e) => Err(OperationErrorOf::Representation(e)),
    }
}

fn create_directories(fs: &mut VirtualFileSystem, p: &FsPath, i: usize) -> (r: Result<
    (),
    OperationError,
>)
    requires
        vfs_wf(old(fs)@),
    ensures
        vfs_wf(final(fs)@),
        (final(fs)@, op_unit_view(r)) == create_directories_view(old(fs)@, p@, i as nat),
    decreases p@.components.len() + 1 - i,
{
    if i > p.depth() {
        return Ok(());
    }
    let a = p.ancestor(i);
    let exists = match fs.status(&a) {
        Err(e) => {
            return Err(OperationErrorOf::Query(e));
        },
        Ok(s) => s.is_existing(),
    };
    if exists {
        return Ok(());
    }
    if i < p.depth() {
        if let Err(e) = create_directories(fs, p, i + 1) {
            return Err(e);
        }
    } else {
        assert(create_directories_view(fs@, p@, (i + 1) as nat) == (
            fs@,
            Ok::<(), OperationErrorView>(()),
        ));
    }
    attach_added(fs, &a, Kind::Directory)
}

impl CreateOperation {
    pub fn new(path: &FsPath, kind: Kind, recursive: bool, overwrite: bool) -> (o: CreateOperation)
        ensures
            o@ == (CreateOperationView { path: path@, kind, recursive, overwrite }),
    {
        CreateOperation { path: path.clone(), kind, recursive, overwrite }
    }

    pub fn path(&self) -> (p: &FsPath)
        ensures
            p@ == self@.path,
    {
        &self.path
    }

    pub fn kind(&self) -> (k: Kind)
        ensures
            k == self@.kind,
    {
        self.kind
    }

    pub fn recursive(&self) -> (b: bool)
        ensures
            b == self@.recursive,
    {
        self.recursive
    }

    pub fn overwrite(&self) -> (b: bool)
        ensures
            b == self@.overwrite,
    {
        self.overwrite
    }

    /// Carries out the creation on `fs`.
    pub fn execute(&self, fs: &mut VirtualFileSystem) -> (r: Result<(), OperationError>)
        requires
            old(fs).wf(),
        ensures
            final(fs).wf(),
            (final(fs)@, op_unit_view(r)) == create_operation_view(
                old(fs)@,
                self@.path,
                self@.kind,
                self@.recursive,
            ),
    {
        let path = &self.path;
        let status = fs.status(path);
        let parent = get_parent_or_root(path);
        let parent_status = fs.status(&parent);
        match status {
            Err(e) => Err(OperationErrorOf::Query(e)),
            Ok(st) => if st.is_existing() {
                let kind = st.as_virtual().to_kind();
                attach_added(fs, st.path(), kind)
            } else if !self.recursive || self.kind == Kind::File {
                match parent_status {
                    Err(e) => Err(OperationErrorOf::Query(e)),
                    Ok(ps) => if !ps.is_existing() {
                        Err(OperationErrorOf::ParentDoesNotExists(path.clone()))
                    } else if !ps.is_dir() {
                        Err(OperationErrorOf::ParentIsNotADirectory(path.clone()))
                    } else {
                        attach_added(fs, path, self.kind)
                    },
                }
            } else {
                create_directories(fs, path, 0)
            },
        }
    }
}

/// A write of the first layer, on a file system that takes the atomic
/// writes.
#[derive(Debug, Clone, PartialEq, Eq)]
pub enum OperationOf<P> {
    CreateEmptyDirectory(P),
    CreateEmptyFile(P),
    CopyFileIntoDirectory(P, P),
    MoveFileIntoDirectory(P, P),
    RemoveFile(P),
    RemoveEmptyDirectory(P),
}

pub type Operation = OperationOf<FsPath>;

pub type OperationView = OperationOf<PathView>;

impl View for OperationOf<FsPath> {
    type V = OperationOf<PathView>;

    open spec fn view(&self) -> OperationOf<PathView> {
        match self {
            OperationOf::CreateEmptyDirectory(p) => OperationOf::CreateEmptyDirectory(p@),
            OperationOf::CreateEmptyFile(p) => OperationOf::CreateEmptyFile(p@),
            OperationOf::CopyFileIntoDirectory(s, d) => OperationOf::CopyFileIntoDirectory(s@, d@),
            OperationOf::MoveFileIntoDirectory(s, d) => OperationOf::MoveFileIntoDirectory(s@, d@),
            OperationOf::RemoveFile(p) => OperationOf::RemoveFile(p@),
            OperationOf::RemoveEmptyDirectory(p) => OperationOf::RemoveEmptyDirectory(p@),
        }
    }
}

/// A file copied or moved into a directory keeps its name.
pub open spec fn into_directory(src: PathView, dir: PathView) -> PathView {
    push_last_view(dir, src)
}

/// What an operation does to a file system of type `F`; a file copied or
/// moved into a directory needs a name.
pub open spec fn operation_step<F: WriteableFileSystem>(v: F::V, o: OperationView) -> (
    F::V,
    Result<(), InfrastructureErrorView>,
) {
    match o {
        OperationOf::CreateEmptyDirectory(p) => F::create_empty_directory_view(v, p),
        OperationOf::CreateEmptyFile(p) => F::create_empty_file_view(v, p),
        OperationOf::CopyFileIntoDirectory(s, d) => if s.components.len() > 0 {
            F::copy_file_to_file_view(v, s, into_directory(s, d))
        } else {
            (v, Err(crate::errors::InfrastructureErrorOf::SourceIsNotAFile(s)))
        },
        OperationOf::MoveFileIntoDirectory(s, d) => if s.components.len() > 0 {
            F::move_file_to_file_view(v, s, into_directory(s, d))
        } else {
            (v, Err(crate::errors::InfrastructureErrorOf::SourceIsNotAFile(s)))
        },
        OperationOf::RemoveFile(p) => F::remove_file_view(v, p),
        OperationOf::RemoveEmptyDirectory(p) => F::remove_empty_directory_view(v, p),
    }
}

impl OperationOf<FsPath> {
    /// Applies this operation to `fs`.
    pub fn apply<F: WriteableFileSystem>(self, fs: &mut F) -> (r: Result<(), InfrastructureError>)
        requires
            F::write_wf(old(fs)@),
        ensures
            F::write_wf(final(fs)@),
            (final(fs)@, infra_unit_view(r)) == operation_step::<F>(old(fs)@, self@),
    {
        match self {
            OperationOf::CreateEmptyDirectory(p) => fs.create_empty_directory(&p),
            OperationOf::CreateEmptyFile(p) => fs.create_empty_file(&p),
            OperationOf::CopyFileIntoDirectory(s, d) => if s.depth() > 0 {
                fs.copy_file_to_file(&s, &d.join_last_of(&s))
            } else {
                Err(crate::errors::InfrastructureErrorOf::SourceIsNotAFile(s))
            },
            OperationOf::MoveFileIntoDirectory(s, d) => if s.depth() > 0 {
                fs.move_file_to_file(&s, &d.join_last_of(&s))
            } else {
                Err(crate::errors::InfrastructureErrorOf::SourceIsNotAFile(s))
            },
            OperationOf::RemoveFile(p) => fs.remove_file(&p),
            OperationOf::RemoveEmptyDirectory(p) => fs.remove_empty_directory(&p),
        }
    }
}

/// The operations `s` applied in order, up to the first that fails.
pub open spec fn operations_step<F: WriteableFileSystem>(v: F::V, s: Seq<OperationView>) -> (
    F::V,
    Result<(), InfrastructureErrorView>,
)
    decreases s.len(),
{
    if s.len() == 0 {
        (v, Ok(()))
    } else {
        let before = operations_step::<F>(v, s.drop_last());
        match before.1 {
            Err(e) => (before.0, Err(e)),
            Ok(()) => operation_step::<F>(before.0, s.last()),
        }
    }
}

proof fn lemma_operations_prefix_err<F: WriteableFileSystem>(
    v: F::V,
    s: Seq<OperationView>,
    i: int,
)
    requires
        0 <= i <= s.len(),
        operations_step::<F>(v, s.take(i)).1 is Err,
    ensures
        operations_step::<F>(v, s) == operations_step::<F>(v, s.take(i)),
    decreases s.len(),
{
    if i == s.len() {
        assert(s.take(i) =~= s);
    } else {
        assert(s.drop_last().take(i) =~= s.take(i));
        lemma_operations_prefix_err::<F>(v, s.drop_last(), i);
    }
}

pub open spec fn operations_view(s: Seq<Operation>) -> Seq<OperationView> {
    s.map_values(|o: Operation| o@)
}

/// Operations applied in order.
#[derive(Debug)]
pub struct Transaction(pub Vec<Operation>);

impl View for Transaction {
    type V = Seq<OperationView>;

    open spec fn view(&self) -> Seq<OperationView> {
        operations_view(self.0@)
    }
}

impl Transaction {
    pub fn new() -> (t: Transaction)
        ensures
            t@ == Seq::<OperationView>::empty(),
    {
        let t = Transaction(Vec::new());
        assert(t@ =~= Seq::<OperationView>::empty());
        t
    }

    /// Appends an operation.
    pub fn add(&mut self, operation: Operation)
        ensures
            final(self)@ == old(self)@.push(operation@),
    {
        let ghost before = self.0@;
        self.0.push(operation);
        assert(operations_view(self.0@) =~= operations_view(before).push(operation@));
    }

    /// Applies the operations in order, up to the first that fails.
    pub fn apply<F: WriteableFileSystem>(self, fs: &mut F) -> (r: Result<(), InfrastructureError>)
        requires
            F::write_wf(old(fs)@),
        ensures
            F::write_wf(final(fs)@),
            (final(fs)@, infra_unit_view(r)) == operations_step::<F>(old(fs)@, self@),
    {
        let ghost start = fs@;
        let ghost s = self@;
        let mut ops = self.0;
        let n = ops.len();
        let mut i: usize = 0;
        while i < n
            invariant
                s == operations_view(self.0@),
                start == old(fs)@,
                n == s.len(),
                i <= n,
                ops@.len() == n - i,
                forall|j: int| 0 <= j < ops@.len() ==> (#[trigger] ops@[j])@ == s[i + j],
                F::write_wf(fs@),
                operations_step::<F>(start, s.take(i as int)) == (fs@, Ok::<(), InfrastructureErrorView>(())),
            decreases n - i,
        {
            let ghost before = ops@;
            let o = ops.remove(0);
            assert(o@ == s[i as int]);
            assert forall|j: int| 0 <= j < ops@.len() implies (#[trigger] ops@[j])@ == s[i + 1 + j] by {
                assert(ops@[j] == before[j + 1]);
            }
            assert(s.take(i + 1).drop_last() =~= s.take(i as int));
            assert(s.take(i + 1).last() == s[i as int]);
            let r = o.apply(fs);
            assert(operations_step::<F>(start, s.take(i + 1)) == (fs@, infra_unit_view(r)));
            if let Err(e) = r {
                proof {
                    lemma_operations_prefix_err::<F>(start, s, i + 1);
                }
                return Err(e);
            }
            i += 1;
        }
        assert(s.take(n as int) =~= s);
        Ok(())
    }

    pub fn into_operations(self) -> (v: Vec<Operation>)
        ensures
            operations_view(v@) == self@,
    {
        self.0
    }
}

pub struct CopyCommandView {
    pub source: PathView,
    pub destination: PathView,
    pub merge: bool,
    pub overwrite: bool,
}

/// A copy asked of the first layer.
#[derive(Debug)]
pub struct CopyCommand {
    source: FsPath,
    destination: FsPath,
    merge: bool,
    overwrite: bool,
}

impl View for CopyCommand {
    type V = CopyCommandView;

    closed spec fn view(&self) -> CopyCommandView {
        CopyCommandView {
            source: self.source@,
            destination: self.destination@,
            merge: self.merge,
            overwrite: self.overwrite,
        }
    }
}

impl CopyCommand {
    pub fn new(source: &FsPath, destination: &FsPath, merge: bool, overwrite: bool) -> (c: CopyCommand)
        ensures
            c@ == (CopyCommandView {
                source: source@,
                destination: destination@,
                merge,
                overwrite,
            }),
    {
        CopyCommand { source: source.clone(), destination: destination.clone(), merge, overwrite }
    }

    pub fn source(&self) -> (p: &FsPath)
        ensures
            p@ == self@.source,
    {
        &self.source
    }

    pub fn destination(&self) -> (p: &FsPath)
        ensures
            p@ == self@.destination,
    {
        &self.destination
    }

    pub fn merge(&self) -> (b: bool)
        ensures
            b == self@.merge,
    {
        self.merge
    }

    pub fn overwrite(&self) -> (b: bool)
        ensures
            b == self@.overwrite,
    {
        self.overwrite
    }
}

/// A copy to plan: the same arguments as a copy command.
#[derive(Debug)]
pub struct CopyOperation {
    source: FsPath,
    destination: FsPath,
    merge: bool,
    overwrite: bool,
}

impl View for CopyOperation {
    type V = CopyCommandView;

    closed spec fn view(&self) -> CopyCommandView {
        CopyCommandView {
            source: self.source@,
            destination: self.destination@,
            merge: self.merge,
            overwrite: self.overwrite,
        }
    }
}

impl CopyOperation {
    pub fn new(source: &FsPath, destination: &FsPath, merge: bool, overwrite: bool) -> (c: CopyOperation)
        ensures
            c@ == (CopyCommandView {
                source: source@,
                destination: destination@,
                merge,
                overwrite,
            }),
    {
        CopyOperation { source: source.clone(), destination: destination.clone(), merge, overwrite }
    }

    pub fn source(&self) -> (p: &FsPath)
        ensures
            p@ == self@.source,
    {
        &self.source
    }

    pub fn destination(&self) -> (p: &FsPath)
        ensures
            p@ == self@.destination,
    {
        &self.destination
    }

    pub fn merge(&self) -> (b: bool)
        ensures
            b == self@.merge,
    {
        self.merge
    }

    pub fn overwrite(&self) -> (b: bool)
        ensures
            b == self@.overwrite,
    {
        self.overwrite
    }
}

/// What stands at a path, as a plan sees it.
#[derive(Clone, Copy, Debug, PartialEq, Eq, Structural)]
pub enum PathState {
    File,
    Directory,
    DoesNotExists,
}

/// The state of an entry: an existing directory is a directory; anything
/// else, existing files included, reads as absent.
pub open spec fn path_state_view(e: EntryView) -> PathState {
    if e.exists && e.is_dir {
        PathState::Directory
    } else {
        PathState::DoesNotExists
    }
}

impl PathState {
    pub fn from_entry(entry: &Entry) -> (s: PathState)
        ensures
            s == path_state_view(entry@),
    {
        if entry.is_existing() {
            if entry.is_dir() {
                PathState::Directory
            } else {
                PathState::DoesNotExists
            }
        } else {
            PathState::DoesNotExists
        }
    }
}

pub struct HybridView {
    pub vfs: VfsView,
    pub disk: Seq<RealNodeView>,
    pub transaction: Seq<AtomicView>,
}

/// A virtual file system, the real file system, and the writes staged for
/// the real one.
#[derive(Debug)]
pub struct HybridFileSystem {
    virtual_file_system: VirtualFileSystem,
    real_file_system: FileSystemAdapter<RealFileSystem>,
    transaction: AtomicTransaction,
}

impl View for HybridFileSystem {
    type V = HybridView;

    closed spec fn view(&self) -> HybridView {
        HybridView {
            vfs: self.virtual_file_system@,
            disk: self.real_file_system@,
            transaction: self.transaction@,
        }
    }
}

impl HybridFileSystem {
    pub open spec fn wf(&self) -> bool {
        vfs_wf(self@.vfs) && crate::disk::real_wf(self@.disk)
    }

    /// A hybrid file system over `disk`, with nothing staged.
    pub fn new(disk: RealFileSystem) -> (h: HybridFileSystem)
        requires
            disk.wf(),
        ensures
            h.wf(),
            h@.vfs == (VfsView {
                add: crate::representation::empty_delta(),
                sub: crate::representation::empty_delta(),
                disk: disk@,
            }),
            h@.disk == disk@,
            h@.transaction == Seq::<AtomicView>::empty(),
    {
        let vfs = VirtualFileSystem::over(disk.clone());
        HybridFileSystem {
            virtual_file_system: vfs,
            real_file_system: FileSystemAdapter(disk),
            transaction: AtomicTransaction::new(),
        }
    }

    pub fn vfs(&self) -> (v: &VirtualFileSystem)
        ensures
            v@ == self@.vfs,
    {
        &self.virtual_file_system
    }

    pub fn transaction(&self) -> (t: &AtomicTransaction)
        ensures
            t@ == self@.transaction,
    {
        &self.transaction
    }

    pub fn mut_vfs(&mut self) -> (v: &mut VirtualFileSystem)
        ensures
            v@ == old(self)@.vfs,
            final(self)@ == (HybridView { vfs: final(v)@, ..old(self)@ }),
    {
        &mut self.virtual_file_system
    }

    pub fn mut_transaction(&mut self) -> (t: &mut AtomicTransaction)
        ensures
            t@ == old(self)@.transaction,
            final(self)@ == (HybridView { transaction: final(t)@, ..old(self)@ }),
    {
        &mut self.transaction
    }

    /// Forgets the virtual changes and the staged writes.
    pub fn reset(&mut self)
        requires
            old(self).wf(),
        ensures
            final(self).wf(),
            final(self)@.vfs == (VfsView {
                add: crate::representation::empty_delta(),
                sub: crate::representation::empty_delta(),
                ..old(self)@.vfs
            }),
            final(self)@.disk == old(self)@.disk,
            final(self)@.transaction == Seq::<AtomicView>::empty(),
    {
        self.virtual_file_system.reset();
        self.transaction = AtomicTransaction::new();
    }

    /// Applies the staged writes to the real file system, then resets.
    pub fn apply(&mut self) -> (r: Result<(), InfrastructureError>)
        requires
            old(self).wf(),
        ensures
            final(self).wf(),
            final(self)@.disk == apply_all::<FileSystemAdapter<RealFileSystem>>(
                old(self)@.disk,
                old(self)@.transaction,
            ).0,
            infra_unit_view(r) == apply_all::<FileSystemAdapter<RealFileSystem>>(
                old(self)@.disk,
                old(self)@.transaction,
            ).1,
            r is Ok ==> final(self)@.transaction == Seq::<AtomicView>::empty(),
            r is Ok ==> final(self)@.vfs == (VfsView {
                add: crate::representation::empty_delta(),
                sub: crate::representation::empty_delta(),
                disk: final(self)@.disk,
            }),
            r is Err ==> final(self)@.vfs == (VfsView { disk: final(self)@.disk, ..old(self)@.vfs })
                && final(self)@.transaction == old(
                self,
            )@.transaction,
    {
        let mut staged = AtomicTransaction::new();
        std::mem::swap(&mut staged, &mut self.transaction);
        let copy = staged.duplicate();
        let r = copy.apply(&mut self.real_file_system);
        self.virtual_file_system.set_disk(self.real_file_system.0.clone());
        match r {
            Ok(()) => {
                self.reset();
                Ok(())
            },
            Err(e) => {
                self.transaction = staged;
                Err(e)
            },
        }
    }
}

} // verus!
