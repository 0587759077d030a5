//! The virtual file system: a delta of additions and a delta of
//! subtractions laid over a real file system, read through the statuses they
//! give each path and written through the atomic writes.

use vstd::prelude::*;

use crate::disk::{
    lemma_children_named,
    RealFileSystem, RealNode, RealNodeView, nodes_view, real_children, real_exists, real_is_dir,
    real_is_file, real_max_depth, real_wf,
};
use crate::errors::{
    InfrastructureError, InfrastructureErrorOf, InfrastructureErrorView, IoErrorKind, QueryError,
    QueryErrorOf, QueryErrorView, RepresentationError, RepresentationErrorOf,
    RepresentationErrorView,
};
use crate::kind::Kind;
use crate::path::{FsPath, PathView, get_parent_or_root, parent_or_root_view, push_last_view};
use crate::port::{
    Entry, EntryView, FileSystemAdapter, ReadableFileSystem, WriteableFileSystem, entries_view,
    infra_unit_view,
};
use crate::representation::{
    DeltaView, VirtualDelta, VirtualPath, VirtualPathView, attach_view, carry_view, children_view, delta_wf,
    detach_view, empty_delta, from_view, get_view, is_directory_empty_view, is_virtual_view,
    is_child_of, lemma_filter_from, lemma_filter_step, lookup, max_depth, opt_ref_path_view,
    resolve_view, sub_view,
};

verus! {

/// How a path stands in a virtual file system.
#[derive(Clone, Copy, Debug, PartialEq, Eq, Structural)]
pub enum VirtualState {
    /// On the real file system, untouched.
    Exists,
    /// Added, with nothing real at its place.
    ExistsVirtually,
    /// Below an added directory whose source holds it.
    ExistsThroughVirtualParent,
    /// Nowhere.
    NotExists,
    /// Added in place of a real node.
    Replaced,
    /// A real node that was removed.
    Removed,
    /// Below a removed node.
    RemovedVirtually,
}

pub open spec fn state_exists(s: VirtualState) -> bool {
    s == VirtualState::Exists || s == VirtualState::ExistsVirtually || s
        == VirtualState::ExistsThroughVirtualParent || s == VirtualState::Replaced
}

pub struct VirtualStatusView {
    pub state: VirtualState,
    pub identity: VirtualPathView,
}

/// The status of a path of a virtual file system: its state, and the node
/// that stands there.
#[derive(Debug)]
pub struct VirtualStatus {
    state: VirtualState,
    identity: VirtualPath,
}

impl View for VirtualStatus {
    type V = VirtualStatusView;

    closed spec fn view(&self) -> VirtualStatusView {
        VirtualStatusView { state: self.state, identity: self.identity@ }
    }
}

impl Clone for VirtualStatus {
    fn clone(&self) -> (r: Self)
        ensures
            r@ == self@,
    {
        VirtualStatus { state: self.state, identity: self.identity.clone() }
    }
}

/// What a status says of its path as an entry.
pub open spec fn status_entry(s: VirtualStatusView) -> EntryView {
    EntryView {
        path: s.identity.identity,
        exists: state_exists(s.state),
        is_dir: s.identity.kind == Kind::Directory,
        is_file: s.identity.kind == Kind::File,
    }
}

impl VirtualStatus {
    pub fn new(state: VirtualState, identity: VirtualPath) -> (s: VirtualStatus)
        ensures
            s@ == (VirtualStatusView { state, identity: identity@ }),
    {
        VirtualStatus { state, identity }
    }

    pub fn state(&self) -> (s: VirtualState)
        ensures
            s == self@.state,
    {
        self.state
    }

    pub fn as_virtual(&self) -> (v: &VirtualPath)
        ensures
            v@ == self@.identity,
    {
        &self.identity
    }

    pub fn into_virtual(self) -> (v: VirtualPath)
        ensures
            v@ == self@.identity,
    {
        self.identity
    }

    /// The node, when the path exists.
    pub fn into_existing_virtual(self) -> (r: Option<VirtualPath>)
        ensures
            r matches Some(v) ==> state_exists(self@.state) && v@ == self@.identity,
            r is None <==> !state_exists(self@.state),
    {
        match self.state {
            VirtualState::Exists
            | VirtualState::ExistsVirtually
            | VirtualState::ExistsThroughVirtualParent
            | VirtualState::Replaced => Some(self.identity),
            _ => None,
        }
    }

    pub fn path(&self) -> (p: &FsPath)
        ensures
            p@ == status_entry(self@).path,
    {
        self.identity.as_identity()
    }

    pub fn is_existing(&self) -> (b: bool)
        ensures
            b == status_entry(self@).exists,
    {
        match self.state {
            VirtualState::Exists
            | VirtualState::ExistsVirtually
            | VirtualState::ExistsThroughVirtualParent
            | VirtualState::Replaced => true,
            _ => false,
        }
    }

    pub fn is_dir(&self) -> (b: bool)
        ensures
            b == status_entry(self@).is_dir,
    {
        self.identity.to_kind() == Kind::Directory
    }

    pub fn is_file(&self) -> (b: bool)
        ensures
            b == status_entry(self@).is_file,
    {
        self.identity.to_kind() == Kind::File
    }

    /// Whether two statuses are the same state of the same node.
    pub fn same(&self, other: &VirtualStatus) -> (b: bool)
        ensures
            b == (self@ == other@),
    {
        self.state == other.state && self.identity.same(&other.identity)
    }
}

/// The value of a virtual file system.
pub struct VfsView {
    pub add: DeltaView,
    pub sub: DeltaView,
    pub disk: Seq<RealNodeView>,
}

pub open spec fn vfs_wf(v: VfsView) -> bool {
    delta_wf(v.add) && delta_wf(v.sub) && real_wf(v.disk)
}

/// A virtual file system: what was added and what was removed, over a real
/// file system.
#[derive(Debug)]
pub struct VirtualFileSystem {
    add: VirtualDelta,
    sub: VirtualDelta,
    disk: RealFileSystem,
}

impl View for VirtualFileSystem {
    type V = VfsView;

    closed spec fn view(&self) -> VfsView {
        VfsView { add: self.add@, sub: self.sub@, disk: self.disk@ }
    }
}

pub open spec fn delta_result_view(r: Result<VirtualDelta, RepresentationError>) -> Result<
    DeltaView,
    RepresentationErrorView,
> {
    match r {
        Ok(d) => Ok(d@),
        Err(e) => Err(e@),
    }
}

impl Default for VirtualFileSystem {
    fn default() -> (fs: Self)
        ensures
            fs@ == (VfsView {
                add: empty_delta(),
                sub: empty_delta(),
                disk: Seq::<RealNodeView>::empty(),
            }),
            vfs_wf(fs@),
    {
        VirtualFileSystem::over(RealFileSystem::new())
    }
}

impl VirtualFileSystem {
    pub open spec fn wf(&self) -> bool {
        vfs_wf(self@)
    }

    /// A virtual file system with no change over `real`.
    pub fn over(disk: RealFileSystem) -> (fs: VirtualFileSystem)
        requires
            disk.wf(),
        ensures
            fs@ == (VfsView { add: empty_delta(), sub: empty_delta(), disk: disk@ }),
            fs.wf(),
    {
        VirtualFileSystem { add: VirtualDelta::new(), sub: VirtualDelta::new(), disk }
    }

    /// The same changes over another real file system.
    pub fn set_disk(&mut self, disk: RealFileSystem)
        requires
            old(self).wf(),
            disk.wf(),
        ensures
            final(self)@ == (VfsView { disk: disk@, ..old(self)@ }),
            final(self).wf(),
    {
        self.disk = disk;
    }

    /// Forgets every change.
    pub fn reset(&mut self)
        requires
            old(self).wf(),
        ensures
            final(self)@ == (VfsView { add: empty_delta(), sub: empty_delta(), ..old(self)@ }),
            final(self).wf(),
    {
        self.add = VirtualDelta::default();
        self.sub = VirtualDelta::default();
    }

    pub fn has_addition(&self) -> (b: bool)
        ensures
            b == (self@.add.keys.len() > 0),
    {
        !self.add.is_empty()
    }

    pub fn has_subtraction(&self) -> (b: bool)
        ensures
            b == (self@.sub.keys.len() > 0),
    {
        !self.sub.is_empty()
    }

    pub fn is_empty(&self) -> (b: bool)
        ensures
            b == (self@.add.keys.len() == 0 && self@.sub.keys.len() == 0),
    {
        !self.has_addition() && !self.has_subtraction()
    }

    pub fn mut_add_state(&mut self) -> (r: &mut VirtualDelta)
        ensures
            r@ == old(self)@.add,
            final(self)@ == (VfsView { add: final(r)@, ..old(self)@ }),
    {
        &mut self.add
    }

    pub fn mut_sub_state(&mut self) -> (r: &mut VirtualDelta)
        ensures
            r@ == old(self)@.sub,
            final(self)@ == (VfsView { sub: final(r)@, ..old(self)@ }),
    {
        &mut self.sub
    }

    pub fn add_state(&self) -> (r: &VirtualDelta)
        ensures
            r@ == self@.add,
    {
        &self.add
    }

    pub fn sub_state(&self) -> (r: &VirtualDelta)
        ensures
            r@ == self@.sub,
    {
        &self.sub
    }

    pub fn real_state(&self) -> (r: &RealFileSystem)
        ensures
            r@ == self@.disk,
    {
        &self.disk
    }

    /// What the file system holds virtually: the additions less the
    /// subtractions.
    pub fn virtual_state(&self) -> (r: Result<VirtualDelta, RepresentationError>)
        requires
            self.wf(),
        ensures
            delta_result_view(r) == sub_view(self@.add, self@.sub),
            r matches Ok(d) ==> d.wf(),
    {
        self.add.sub(&self.sub)
    }

    /// The subtractions less the additions.
    pub fn reverse_state(&self) -> (r: Result<VirtualDelta, RepresentationError>)
        requires
            self.wf(),
        ensures
            delta_result_view(r) == sub_view(self@.sub, self@.add),
            r matches Ok(d) ==> d.wf(),
    {
        self.sub.sub(&self.add)
    }
}

// Reading a virtual file system.

pub open spec fn rep_error(e: RepresentationErrorView) -> QueryErrorView {
    QueryErrorOf::Representation(e)
}

pub open spec fn status_of(state: VirtualState, r: Result<VirtualPathView, RepresentationErrorView>) -> Result<
    VirtualStatusView,
    QueryErrorView,
> {
    match r {
        Ok(v) => Ok(VirtualStatusView { state, identity: v }),
        Err(e) => Err(rep_error(e)),
    }
}

/// The node of a path of unknown kind, its own source.
pub open spec fn unknown_view(p: PathView) -> Result<VirtualPathView, RepresentationErrorView> {
    from_view(p, Some(p), Kind::Unknown)
}

/// The kind of a real path.
pub open spec fn real_kind(s: Seq<RealNodeView>, p: PathView) -> Kind {
    if real_is_dir(s, p) {
        Kind::Directory
    } else if real_is_file(s, p) {
        Kind::File
    } else {
        Kind::Unknown
    }
}

/// The status of a path below an addition.
pub open spec fn status_virtual_view(v: VfsView, p: PathView) -> Result<
    VirtualStatusView,
    QueryErrorView,
> {
    match is_virtual_view(v.sub, p) {
        Err(e) => Err(rep_error(e)),
        Ok(true) => match get_view(v.add, p) {
            Err(e) => Err(rep_error(e)),
            Ok(Some(_)) => Err(QueryErrorOf::AddSubDanglingVirtualPath(p)),
            Ok(None) => status_of(VirtualState::RemovedVirtually, unknown_view(p)),
        },
        Ok(false) => match get_view(v.add, p) {
            Err(e) => Err(rep_error(e)),
            Ok(Some(node)) => if real_exists(v.disk, p) {
                Ok(VirtualStatusView { state: VirtualState::Replaced, identity: node })
            } else {
                Ok(VirtualStatusView { state: VirtualState::ExistsVirtually, identity: node })
            },
            Ok(None) => match sub_view(v.add, v.sub) {
                Err(e) => Err(rep_error(e)),
                Ok(state) => match resolve_view(state, p) {
                    Err(e) => Err(rep_error(e)),
                    Ok(Some(real_path)) => if real_exists(v.disk, real_path) {
                        status_of(
                            VirtualState::ExistsThroughVirtualParent,
                            from_view(p, Some(real_path), real_kind(v.disk, real_path)),
                        )
                    } else {
                        status_of(VirtualState::NotExists, unknown_view(p))
                    },
                    Ok(None) => status_of(VirtualState::NotExists, unknown_view(p)),
                },
            },
        },
    }
}

/// The status of a path below no addition.
pub open spec fn status_real_view(v: VfsView, p: PathView) -> Result<
    VirtualStatusView,
    QueryErrorView,
> {
    match is_virtual_view(v.sub, p) {
        Err(e) => Err(rep_error(e)),
        Ok(true) => status_of(VirtualState::Removed, unknown_view(p)),
        Ok(false) => if real_exists(v.disk, p) {
            status_of(
                VirtualState::Exists,
                from_view(
                    p,
                    Some(p),
                    if real_is_dir(v.disk, p) {
                        Kind::Directory
                    } else {
                        Kind::File
                    },
                ),
            )
        } else {
            status_of(VirtualState::NotExists, unknown_view(p))
        },
    }
}

/// The status of a path of a virtual file system.
pub open spec fn vstatus_view(v: VfsView, p: PathView) -> Result<VirtualStatusView, QueryErrorView> {
    match is_virtual_view(v.add, p) {
        Err(e) => Err(rep_error(e)),
        Ok(true) => status_virtual_view(v, p),
        Ok(false) => status_real_view(v, p),
    }
}

pub open spec fn status_result_view(r: Result<VirtualStatus, QueryError>) -> Result<
    VirtualStatusView,
    QueryErrorView,
> {
    match r {
        Ok(s) => Ok(s@),
        Err(e) => Err(e@),
    }
}

impl View for FileSystemAdapter<VirtualFileSystem> {
    type V = VfsView;

    open spec fn view(&self) -> VfsView {
        self.0@
    }
}

fn status_from(state: VirtualState, r: Result<VirtualPath, RepresentationError>) -> (s: Result<
    VirtualStatus,
    QueryError,
>)
    ensures
        status_result_view(s) == status_of(
            state,
            match r {
                Ok(v) => Ok(v@),
                Err(e) => Err(e@),
            },
        ),
{
    match r {
        Ok(v) => Ok(VirtualStatus::new(state, v)),
        Err(e) => Err(QueryErrorOf::Representation(e)),
    }
}

impl VirtualFileSystem {
    /// The node of `path` of unknown kind, its own source.
    fn virtual_unknown(&self, path: &FsPath) -> (r: Result<VirtualPath, RepresentationError>)
        ensures
            match r {
                Ok(v) => unknown_view(path@) == Ok::<VirtualPathView, RepresentationErrorView>(
                    v@,
                ),
                Err(e) => unknown_view(path@) == Err::<VirtualPathView, RepresentationErrorView>(
                    e@,
                ),
            },
    {
        VirtualPath::from(path.clone(), Some(path.clone()), Kind::Unknown)
    }

    fn real_kind(&self, path: &FsPath) -> (k: Kind)
        requires
            self.wf(),
        ensures
            k == real_kind(self@.disk, path@),
    {
        if self.disk.is_dir(path) {
            Kind::Directory
        } else if self.disk.is_file(path) {
            Kind::File
        } else {
            Kind::Unknown
        }
    }

    fn status_virtual(&self, path: &FsPath) -> (r: Result<VirtualStatus, QueryError>)
        requires
            self.wf(),
        ensures
            status_result_view(r) == status_virtual_view(self@, path@),
    {
        match self.sub.is_virtual(path) {
            Err(e) => Err(QueryErrorOf::Representation(e)),
            Ok(true) => match self.add.get(path) {
                Err(e) => Err(QueryErrorOf::Representation(e)),
                Ok(Some(_)) => Err(QueryErrorOf::AddSubDanglingVirtualPath(path.clone())),
                Ok(None) => status_from(VirtualState::RemovedVirtually, self.virtual_unknown(path)),
            },
            Ok(false) => match self.add.get(path) {
                Err(e) => Err(QueryErrorOf::Representation(e)),
                Ok(Some(node)) => if self.disk.exists_path(path) {
                    Ok(VirtualStatus::new(VirtualState::Replaced, node.clone()))
                } else {
                    Ok(VirtualStatus::new(VirtualState::ExistsVirtually, node.clone()))
                },
                Ok(None) => match self.virtual_state() {
                    Err(e) => Err(QueryErrorOf::Representation(e)),
                    Ok(state) => match state.resolve(path) {
                        Err(e) => Err(QueryErrorOf::Representation(e)),
                        Ok(Some(real_path)) => if self.disk.exists_path(&real_path) {
                            let kind = self.real_kind(&real_path);
                            status_from(
                                VirtualState::ExistsThroughVirtualParent,
                                VirtualPath::from(path.clone(), Some(real_path), kind),
                            )
                        } else {
                            status_from(VirtualState::NotExists, self.virtual_unknown(path))
                        },
                        Ok(None) => status_from(VirtualState::NotExists, self.virtual_unknown(path)),
                    },
                },
            },
        }
    }

    fn status_real(&self, path: &FsPath) -> (r: Result<VirtualStatus, QueryError>)
        requires
            self.wf(),
        ensures
            status_result_view(r) == status_real_view(self@, path@),
    {
        match self.sub.is_virtual(path) {
            Err(e) => Err(QueryErrorOf::Representation(e)),
            Ok(true) => status_from(VirtualState::Removed, self.virtual_unknown(path)),
            Ok(false) => if self.disk.exists_path(path) {
                let kind = if self.disk.is_dir(path) {
                    Kind::Directory
                } else {
                    Kind::File
                };
                status_from(
                    VirtualState::Exists,
                    VirtualPath::from(path.clone(), Some(path.clone()), kind),
                )
            } else {
                status_from(VirtualState::NotExists, self.virtual_unknown(path))
            },
        }
    }

    /// The status of `path`.
    pub fn status(&self, path: &FsPath) -> (r: Result<VirtualStatus, QueryError>)
        requires
            self.wf(),
        ensures
            status_result_view(r) == vstatus_view(self@, path@),
    {
        match self.add.is_virtual(path) {
            Err(e) => Err(QueryErrorOf::Representation(e)),
            Ok(true) => self.status_virtual(path),
            Ok(false) => self.status_real(path),
        }
    }
}

impl FileSystemAdapter<VirtualFileSystem> {
    /// The status of `path`.
    pub fn virtual_status(&self, path: &FsPath) -> (r: Result<VirtualStatus, QueryError>)
        requires
            vfs_wf(self@),
        ensures
            status_result_view(r) == vstatus_view(self@, path@),
    {
        self.0.status(path)
    }
}

/// The node that the real child `n` gives to a directory read at `parent`
/// whose content comes from `source`.
pub open spec fn child_node_view(n: RealNodeView, source: Option<PathView>, parent: Option<PathView>) -> VirtualPathView {
    VirtualPathView {
        identity: match parent {
            Some(q) => push_last_view(q, n.path),
            None => n.path,
        },
        source: Some(
            match source {
                Some(s) => push_last_view(s, n.path),
                None => n.path,
            },
        ),
        kind: n.kind,
    }
}

/// The statuses of the real children `kids` that were not removed.
pub open spec fn real_entries_view(
    v: VfsView,
    kids: Seq<RealNodeView>,
    source: Option<PathView>,
    parent: Option<PathView>,
) -> Result<Seq<VirtualStatusView>, QueryErrorView>
    decreases kids.len(),
{
    if kids.len() == 0 {
        Ok(seq![])
    } else {
        match real_entries_view(v, kids.drop_last(), source, parent) {
            Err(e) => Err(e),
            Ok(acc) => match from_view(kids.last().path, None, Kind::Unknown) {
                Err(e) => Err(rep_error(e)),
                Ok(_) => {
                    let node = child_node_view(kids.last(), source, parent);
                    match is_virtual_view(v.sub, node.identity) {
                        Err(e) => Err(rep_error(e)),
                        Ok(true) => Ok(acc),
                        Ok(false) => Ok(
                            acc.push(VirtualStatusView { state: VirtualState::Exists, identity: node }),
                        ),
                    }
                },
            },
        }
    }
}

/// The statuses of the real children of `path` that were not removed, seen
/// from `parent`.
pub open spec fn from_fs_view(
    v: VfsView,
    path: PathView,
    source: Option<PathView>,
    parent: Option<PathView>,
) -> Result<Seq<VirtualStatusView>, QueryErrorView> {
    if !real_exists(v.disk, path) {
        Ok(seq![])
    } else if !real_is_dir(v.disk, path) {
        Err(QueryErrorOf::Io(IoErrorKind::NotADirectory))
    } else {
        real_entries_view(v, real_children(v.disk, path), source, parent)
    }
}

/// `acc` followed by the statuses of the added children `kids` that were
/// not removed.
pub open spec fn added_entries_view(
    v: VfsView,
    kids: Seq<VirtualPathView>,
    acc: Seq<VirtualStatusView>,
) -> Result<Seq<VirtualStatusView>, QueryErrorView>
    decreases kids.len(),
{
    if kids.len() == 0 {
        Ok(acc)
    } else {
        match added_entries_view(v, kids.drop_last(), acc) {
            Err(e) => Err(e),
            Ok(a) => match is_virtual_view(v.sub, kids.last().identity) {
                Err(e) => Err(rep_error(e)),
                Ok(true) => Ok(a),
                Ok(false) => match vstatus_view(v, kids.last().identity) {
                    Err(e) => Err(e),
                    Ok(s) => Ok(a.push(s)),
                },
            },
        }
    }
}

/// The statuses of the children of the directory `p`: the real ones of its
/// source, then the added ones.
pub open spec fn vread_dir_view(v: VfsView, p: PathView) -> Result<
    Seq<VirtualStatusView>,
    QueryErrorView,
> {
    match vstatus_view(v, p) {
        Err(e) => Err(e),
        Ok(st) => if !state_exists(st.state) {
            Err(QueryErrorOf::ReadTargetDoesNotExists(p))
        } else if st.identity.kind != Kind::Directory {
            Err(QueryErrorOf::IsNotADirectory(p))
        } else {
            let dir = st.identity;
            let base = match dir.source {
                Some(s) => s,
                None => dir.identity,
            };
            match from_fs_view(v, base, dir.source, Some(p)) {
                Err(e) => Err(e),
                Ok(found) => match children_view(v.add, dir.identity) {
                    None => Ok(found),
                    Some(kids) => added_entries_view(v, kids, found),
                },
            }
        },
    }
}

pub open spec fn statuses_view(s: Seq<VirtualStatus>) -> Seq<VirtualStatusView> {
    s.map_values(|x: VirtualStatus| x@)
}

pub open spec fn statuses_result_view(r: Result<Vec<VirtualStatus>, QueryError>) -> Result<
    Seq<VirtualStatusView>,
    QueryErrorView,
> {
    match r {
        Ok(s) => Ok(statuses_view(s@)),
        Err(e) => Err(e@),
    }
}

proof fn lemma_real_entries_prefix_err(
    v: VfsView,
    kids: Seq<RealNodeView>,
    i: int,
    source: Option<PathView>,
    parent: Option<PathView>,
)
    requires
        0 <= i <= kids.len(),
        real_entries_view(v, kids.take(i), source, parent) is Err,
    ensures
        real_entries_view(v, kids, source, parent) == real_entries_view(
            v,
            kids.take(i),
            source,
            parent,
        ),
    decreases kids.len(),
{
    if i == kids.len() {
        assert(kids.take(i) =~= kids);
    } else {
        assert(kids.drop_last().take(i) =~= kids.take(i));
        lemma_real_entries_prefix_err(v, kids.drop_last(), i, source, parent);
    }
}

proof fn lemma_added_entries_prefix_err(
    v: VfsView,
    kids: Seq<VirtualPathView>,
    i: int,
    acc: Seq<VirtualStatusView>,
)
    requires
        0 <= i <= kids.len(),
        added_entries_view(v, kids.take(i), acc) is Err,
    ensures
        added_entries_view(v, kids, acc) == added_entries_view(v, kids.take(i), acc),
    decreases kids.len(),
{
    if i == kids.len() {
        assert(kids.take(i) =~= kids);
    } else {
        assert(kids.drop_last().take(i) =~= kids.take(i));
        lemma_added_entries_prefix_err(v, kids.drop_last(), i, acc);
    }
}

impl FileSystemAdapter<VirtualFileSystem> {
    /// The statuses of the real children of `path` that were not removed,
    /// their content taken under `source` and their identity under
    /// `parent`, when these are given.
    pub fn from_file_system(
        fs: &VirtualFileSystem,
        path: &FsPath,
        source: Option<&FsPath>,
        parent: Option<&FsPath>,
    ) -> (r: Result<Vec<VirtualStatus>, QueryError>)
        requires
            fs.wf(),
        ensures
            statuses_result_view(r) == from_fs_view(
                fs@,
                path@,
                opt_ref_path_view(source),
                opt_ref_path_view(parent),
            ),
    {
        let mut out: Vec<VirtualStatus> = Vec::new();
        if !fs.disk.exists_path(path) {
            assert(statuses_view(out@) =~= seq![]);
            return Ok(out);
        }
        if !fs.disk.is_dir(path) {
            return Err(QueryErrorOf::Io(IoErrorKind::NotADirectory));
        }
        let kids = fs.disk.children(path);
        let ghost ks = nodes_view(kids@);
        let ghost src = opt_ref_path_view(source);
        let ghost par = opt_ref_path_view(parent);
        proof {
            lemma_children_named(fs@.disk, path@);
        }
        assert(ks.take(0) =~= seq![]);
        assert(statuses_view(out@) =~= seq![]);
        let mut i: usize = 0;
        while i < kids.len()
            invariant
                fs.wf(),
                from_fs_view(fs@, path@, src, par) == real_entries_view(fs@, ks, src, par),
                i <= kids.len(),
                ks == nodes_view(kids@),
                ks == real_children(fs@.disk, path@),
                src == opt_ref_path_view(source),
                par == opt_ref_path_view(parent),
                forall|j: int| 0 <= j < ks.len() ==> (#[trigger] ks[j]).path.components.len() > 0,
                real_entries_view(fs@, ks.take(i as int), src, par) == Ok::<
                    Seq<VirtualStatusView>,
                    QueryErrorView,
                >(statuses_view(out@)),
            decreases kids.len() - i,
        {
            assert(ks.take(i + 1).drop_last() =~= ks.take(i as int));
            assert(ks.take(i + 1).last() == ks[i as int]);
            let n: &RealNode = &kids[i];
            assert(n@ == ks[i as int]);
            let base = match VirtualPath::from_path(n.path()) {
                Err(e) => {
                    proof {
                        lemma_real_entries_prefix_err(fs@, ks, i + 1, src, par);
                    }
                    return Err(QueryErrorOf::Representation(e));
                },
                Ok(b) => b,
            };
            let mut node = base.with_source(Some(n.path())).with_kind(n.kind());
            if let Some(s) = source {
                node = node.with_new_source_parent(s);
            }
            if let Some(q) = parent {
                node = node.with_new_identity_parent(q);
            }
            assert(node@ == child_node_view(ks[i as int], src, par));
            match fs.sub.is_virtual(node.as_identity()) {
                Err(e) => {
                    proof {
                        lemma_real_entries_prefix_err(fs@, ks, i + 1, src, par);
                    }
                    return Err(QueryErrorOf::Representation(e));
                },
                Ok(true) => {},
                Ok(false) => {
                    let ghost before = out@;
                    out.push(VirtualStatus::new(VirtualState::Exists, node));
                    assert(statuses_view(out@) =~= statuses_view(before).push(out@.last()@));
                },
            }
            i += 1;
        }
        assert(ks.take(kids.len() as int) =~= ks);
        Ok(out)
    }

    /// The statuses of the children of the directory `path`.
    pub fn read_virtual_dir(&self, path: &FsPath) -> (r: Result<Vec<VirtualStatus>, QueryError>)
        requires
            vfs_wf(self@),
        ensures
            statuses_result_view(r) == vread_dir_view(self@, path@),
    {
        let status = match self.virtual_status(path) {
            Err(e) => {
                return Err(e);
            },
            Ok(s) => s,
        };
        let directory = match status.into_existing_virtual() {
            None => {
                return Err(QueryErrorOf::ReadTargetDoesNotExists(path.clone()));
            },
            Some(d) => d,
        };
        if directory.to_kind() != Kind::Directory {
            return Err(QueryErrorOf::IsNotADirectory(path.clone()));
        }
        let base = match directory.as_source() {
            Some(s) => s,
            None => directory.as_identity(),
        };
        let mut out = match Self::from_file_system(&self.0, base, directory.as_source(), Some(path)) {
            Err(e) => {
                return Err(e);
            },
            Ok(found) => found,
        };
        let kids = match self.0.add.children(directory.as_identity()) {
            None => {
                return Ok(out);
            },
            Some(k) => k,
        };
        let ghost found = statuses_view(out@);
        assert(kids@.take(0) =~= seq![]);
        let mut i: usize = 0;
        while i < kids.len()
            invariant
                vfs_wf(self@),
                vread_dir_view(self@, path@) == added_entries_view(self@, kids@, found),
                i <= kids@.len(),
                added_entries_view(self@, kids@.take(i as int), found) == Ok::<
                    Seq<VirtualStatusView>,
                    QueryErrorView,
                >(statuses_view(out@)),
            decreases kids@.len() - i,
        {
            assert(kids@.take(i + 1).drop_last() =~= kids@.take(i as int));
            assert(kids@.take(i + 1).last() == kids@[i as int]);
            let child = kids.get_at(i);
            match self.0.sub.is_virtual(child.as_identity()) {
                Err(e) => {
                    proof {
                        lemma_added_entries_prefix_err(self@, kids@, i + 1, found);
                    }
                    return Err(QueryErrorOf::Representation(e));
                },
                Ok(true) => {},
                Ok(false) => match self.virtual_status(child.as_identity()) {
                    Err(e) => {
                        proof {
                            lemma_added_entries_prefix_err(self@, kids@, i + 1, found);
                        }
                        return Err(e);
                    },
                    Ok(s) => {
                        let ghost before = out@;
                        out.push(s);
                        assert(statuses_view(out@) =~= statuses_view(before).push(out@.last()@));
                    },
                },
            }
            i += 1;
        }
        assert(kids@.take(kids@.len() as int) =~= kids@);
        Ok(out)
    }
}

proof fn lemma_lookup_identity(entries: Seq<VirtualPathView>, p: PathView)
    ensures
        lookup(entries, p) matches Some(x) ==> x.identity == p,
    decreases entries.len(),
{
    if entries.len() > 0 && entries[0].identity != p {
        lemma_lookup_identity(entries.drop_first(), p);
    }
}

/// The status of a path is about that path.
pub proof fn lemma_vstatus_identity(v: VfsView, p: PathView)
    ensures
        vstatus_view(v, p) matches Ok(s) ==> s.identity.identity == p,
{
    lemma_lookup_identity(v.add.entries, p);
}

proof fn lemma_real_entries_named(
    v: VfsView,
    kids: Seq<RealNodeView>,
    source: Option<PathView>,
    p: PathView,
)
    ensures
        real_entries_view(v, kids, source, Some(p)) matches Ok(s) ==> forall|i: int|
            0 <= i < s.len() ==> (#[trigger] s[i]).identity.identity.components.len() > 0,
    decreases kids.len(),
{
    if kids.len() > 0 {
        lemma_real_entries_named(v, kids.drop_last(), source, p);
    }
}

proof fn lemma_added_entries_named(v: VfsView, kids: Seq<VirtualPathView>, acc: Seq<VirtualStatusView>)
    requires
        forall|i: int| 0 <= i < acc.len() ==> (#[trigger] acc[i]).identity.identity.components.len() > 0,
        forall|i: int| 0 <= i < kids.len() ==> (#[trigger] kids[i]).identity.components.len() > 0,
    ensures
        added_entries_view(v, kids, acc) matches Ok(s) ==> forall|i: int|
            0 <= i < s.len() ==> (#[trigger] s[i]).identity.identity.components.len() > 0,
    decreases kids.len(),
{
    if kids.len() > 0 {
        assert forall|i: int| 0 <= i < kids.drop_last().len() implies (
        #[trigger] kids.drop_last()[i]).identity.components.len() > 0 by {
            assert(kids.drop_last()[i] == kids[i]);
        }
        lemma_added_entries_named(v, kids.drop_last(), acc);
        lemma_vstatus_identity(v, kids.last().identity);
        assert(kids.last() == kids[kids.len() - 1]);
    }
}

/// The children that a read gives have paths with at least one component.
pub proof fn lemma_vread_dir_named(v: VfsView, p: PathView)
    requires
        vfs_wf(v),
    ensures
        vread_dir_view(v, p) matches Ok(s) ==> forall|i: int|
            0 <= i < s.len() ==> (#[trigger] s[i]).identity.identity.components.len() > 0,
{
    if let Ok(st) = vstatus_view(v, p) {
        if state_exists(st.state) && st.identity.kind == Kind::Directory {
            let dir = st.identity;
            let base = match dir.source {
                Some(s) => s,
                None => dir.identity,
            };
            lemma_real_entries_named(v, real_children(v.disk, base), dir.source, p);
            if let Ok(found) = from_fs_view(v, base, dir.source, Some(p)) {
                if let Some(kids) = children_view(v.add, dir.identity) {
                    lemma_filter_from(v.add.entries, is_child_of(dir.identity));
                    assert forall|i: int| 0 <= i < kids.len() implies (
                    #[trigger] kids[i]).identity.components.len() > 0 by {
                        assert(v.add.entries.contains(kids[i]));
                        let k = choose|k: int| 0 <= k < v.add.entries.len() && v.add.entries[k] == kids[i];
                        assert(v.add.entries[k].identity.components.len() > 0);
                    }
                    lemma_added_entries_named(v, kids, found);
                }
            }
        }
    }
}

pub open spec fn vfs_depth_bound(v: VfsView) -> nat {
    let m = max_depth(v.add.entries) + real_max_depth(v.disk) + 2;
    if m > usize::MAX {
        usize::MAX as nat
    } else {
        m
    }
}

impl ReadableFileSystem for FileSystemAdapter<VirtualFileSystem> {
    open spec fn read_wf(v: VfsView) -> bool {
        vfs_wf(v)
    }

    open spec fn status_view(v: VfsView, p: PathView) -> Result<EntryView, QueryErrorView> {
        match vstatus_view(v, p) {
            Ok(s) => Ok(status_entry(s)),
            Err(e) => Err(e),
        }
    }

    open spec fn read_dir_view(v: VfsView, p: PathView) -> Result<Seq<EntryView>, QueryErrorView> {
        match vread_dir_view(v, p) {
            Ok(s) => Ok(s.map_values(|x: VirtualStatusView| status_entry(x))),
            Err(e) => Err(e),
        }
    }

    open spec fn binds_copies_view() -> bool {
        true
    }

    /// The virtual file system binds a copied directory to its source.
    fn binds_copies() -> (b: bool) {
        true
    }

    open spec fn depth_bound_view(v: VfsView) -> nat {
        vfs_depth_bound(v)
    }

    proof fn lemma_read_dir_entries(v: VfsView, p: PathView) {
        lemma_vread_dir_named(v, p);
        if let Ok(s) = Self::read_dir_view(v, p) {
            let t = vread_dir_view(v, p)->Ok_0;
            assert forall|i: int| 0 <= i < s.len() implies (#[trigger] s[i]).path.components.len()
                > 0 by {
                assert(s[i] == status_entry(t[i]));
            }
        }
    }

    fn status(&self, p: &FsPath) -> (r: Result<Entry, QueryError>) {
        match self.virtual_status(p) {
            Ok(s) => Ok(Entry::new(s.path().clone(), s.is_existing(), s.is_dir(), s.is_file())),
            Err(e) => Err(e),
        }
    }

    fn read_dir(&self, p: &FsPath) -> (r: Result<Vec<Entry>, QueryError>) {
        let statuses = match self.read_virtual_dir(p) {
            Ok(s) => s,
            Err(e) => {
                return Err(e);
            },
        };
        let ghost sv = statuses_view(statuses@);
        let mut out: Vec<Entry> = Vec::new();
        let mut i: usize = 0;
        while i < statuses.len()
            invariant
                i <= statuses.len(),
                sv == statuses_view(statuses@),
                entries_view(out@) =~= sv.take(i as int).map_values(
                    |x: VirtualStatusView| status_entry(x),
                ),
            decreases statuses.len() - i,
        {
            let s = &statuses[i];
            assert(sv[i as int] == s@);
            let ghost before = out@;
            out.push(Entry::new(s.path().clone(), s.is_existing(), s.is_dir(), s.is_file()));
            assert(entries_view(out@) =~= entries_view(before).push(out@.last()@));
            assert(sv.take(i + 1).map_values(|x: VirtualStatusView| status_entry(x))
                =~= sv.take(i as int).map_values(|x: VirtualStatusView| status_entry(x)).push(
                status_entry(sv[i as int]),
            ));
            i += 1;
        }
        assert(sv.take(statuses.len() as int) =~= sv);
        Ok(out)
    }

    fn depth_bound(&self) -> (n: usize) {
        let a = self.0.add.max_depth();
        let d = self.0.disk.max_depth();
        a.saturating_add(d).saturating_add(2)
    }
}

// Writing a virtual file system.

pub type VfsStep = (VfsView, Result<(), InfrastructureErrorView>);

pub open spec fn with_add(v: VfsView, r: (DeltaView, Result<(), RepresentationErrorView>)) -> VfsStep {
    (
        VfsView { add: r.0, ..v },
        match r.1 {
            Ok(()) => Ok(()),
            Err(e) => Err(InfrastructureErrorOf::Representation(e)),
        },
    )
}

pub open spec fn with_sub(v: VfsView, r: (DeltaView, Result<(), RepresentationErrorView>)) -> VfsStep {
    (
        VfsView { sub: r.0, ..v },
        match r.1 {
            Ok(()) => Ok(()),
            Err(e) => Err(InfrastructureErrorOf::Representation(e)),
        },
    )
}

/// Removing a path: a real node is subtracted, an added node is detached,
/// with the directory it replaced once that one is left empty.
pub open spec fn vremove_view(v: VfsView, p: PathView) -> VfsStep {
    match vstatus_view(v, p) {
        Err(e) => (v, Err(InfrastructureErrorOf::Query(e))),
        Ok(st) => match st.state {
            VirtualState::Exists
            | VirtualState::Replaced
            | VirtualState::ExistsThroughVirtualParent => with_sub(
                v,
                attach_view(v.sub, st.identity.identity, st.identity.source, st.identity.kind),
            ),
            VirtualState::ExistsVirtually => {
                let first = with_add(v, detach_view(v.add, st.identity.identity));
                let v1 = first.0;
                match first.1 {
                    Err(e) => (v1, Err(e)),
                    Ok(()) => match st.identity.source {
                        None => (v1, Ok(())),
                        Some(src) => match vstatus_view(v1, src) {
                            Err(e) => (v1, Err(InfrastructureErrorOf::Query(e))),
                            Ok(s2) => if s2.state == VirtualState::Replaced
                                && is_directory_empty_view(v1.add, s2.identity.identity) {
                                with_add(v1, detach_view(v1.add, s2.identity.identity))
                            } else {
                                (v1, Ok(()))
                            },
                        },
                    },
                }
            },
            _ => (v, Err(InfrastructureErrorOf::PathDoesNotExists(p))),
        },
    }
}

/// The parent of a path that is written must exist and be a directory.
pub open spec fn vsafe_parent_view(v: VfsView, p: PathView) -> Result<
    VirtualStatusView,
    InfrastructureErrorView,
> {
    let q = parent_or_root_view(p);
    match vstatus_view(v, q) {
        Err(e) => Err(InfrastructureErrorOf::Query(e)),
        Ok(s) => if !state_exists(s.state) {
            Err(InfrastructureErrorOf::ParentDoesNotExists(q))
        } else if s.identity.kind != Kind::Directory {
            Err(InfrastructureErrorOf::ParentIsNotADirectory(q))
        } else {
            Ok(s)
        },
    }
}

/// Putting `node` in place of what the status `dest` describes.
pub open spec fn vcreate_view(v: VfsView, node: VirtualPathView, dest: VirtualStatusView) -> VfsStep {
    match dest.state {
        VirtualState::Replaced | VirtualState::ExistsVirtually => {
            let first = with_add(v, detach_view(v.add, dest.identity.identity));
            match first.1 {
                Err(e) => (first.0, Err(e)),
                Ok(()) => with_add(
                    first.0,
                    attach_view(first.0.add, node.identity, node.source, node.kind),
                ),
            }
        },
        VirtualState::Removed | VirtualState::RemovedVirtually => {
            let first = with_sub(v, detach_view(v.sub, node.identity));
            match first.1 {
                Err(e) => (first.0, Err(e)),
                Ok(()) => with_add(
                    first.0,
                    attach_view(first.0.add, node.identity, node.source, node.kind),
                ),
            }
        },
        _ => with_add(v, attach_view(v.add, node.identity, node.source, node.kind)),
    }
}

/// Creating an empty node of `kind` at `p`.
pub open spec fn vcreate_kind_view(v: VfsView, p: PathView, kind: Kind) -> VfsStep {
    match vsafe_parent_view(v, p) {
        Err(e) => (v, Err(e)),
        Ok(_) => match vstatus_view(v, p) {
            Err(e) => (v, Err(InfrastructureErrorOf::Query(e))),
            Ok(existing) => match from_view(p, None, kind) {
                Err(e) => (v, Err(InfrastructureErrorOf::Representation(e))),
                Ok(node) => vcreate_view(v, node, existing),
            },
        },
    }
}

/// Copying the file `src` to `dst`: the new node takes the source's content.
pub open spec fn vcopy_view(v: VfsView, src: PathView, dst: PathView) -> VfsStep {
    match vstatus_view(v, src) {
        Err(e) => (v, Err(InfrastructureErrorOf::Query(e))),
        Ok(source) => match vstatus_view(v, dst) {
            Err(e) => (v, Err(InfrastructureErrorOf::Query(e))),
            Ok(destination) => match vsafe_parent_view(v, dst) {
                Err(e) => (v, Err(e)),
                Ok(_) => if !state_exists(source.state) {
                    (v, Err(InfrastructureErrorOf::SourceDoesNotExists(src)))
                } else if state_exists(destination.state) && destination.identity.kind
                    != Kind::File {
                    (v, Err(InfrastructureErrorOf::DestinationIsNotAFile(dst)))
                } else if source.identity.kind != Kind::File {
                    (v, Err(InfrastructureErrorOf::SourceIsNotAFile(src)))
                } else {
                    match from_view(
                        destination.identity.identity,
                        source.identity.source,
                        source.identity.kind,
                    ) {
                        Err(e) => (v, Err(InfrastructureErrorOf::Representation(e))),
                        Ok(node) => vcreate_view(v, node, destination),
                    }
                },
            },
        },
    }
}

pub open spec fn vmove_view(v: VfsView, src: PathView, dst: PathView) -> VfsStep {
    let first = vcopy_view(v, src, dst);
    match first.1 {
        Err(e) => (first.0, Err(e)),
        Ok(()) => vremove_view(first.0, src),
    }
}

/// Binding the directory `src` to the new path `dst`.
pub open spec fn vbind_view(v: VfsView, src: PathView, dst: PathView) -> VfsStep {
    match vstatus_view(v, src) {
        Err(e) => (v, Err(InfrastructureErrorOf::Query(e))),
        Ok(source) => match vstatus_view(v, dst) {
            Err(e) => (v, Err(InfrastructureErrorOf::Query(e))),
            Ok(destination) => match vsafe_parent_view(v, dst) {
                Err(e) => (v, Err(e)),
                Ok(_) => if !state_exists(source.state) {
                    (v, Err(InfrastructureErrorOf::SourceDoesNotExists(src)))
                } else if state_exists(destination.state) {
                    (v, Err(InfrastructureErrorOf::DestinationAlreadyExists(dst)))
                } else if source.identity.kind != Kind::Directory {
                    (v, Err(InfrastructureErrorOf::SourceIsNotADirectory(src)))
                } else {
                    match from_view(
                        destination.identity.identity,
                        source.identity.source,
                        source.identity.kind,
                    ) {
                        Err(e) => (v, Err(InfrastructureErrorOf::Representation(e))),
                        Ok(node) => {
                            let created = vcreate_view(v, node, destination);
                            match created.1 {
                                Err(e) => created,
                                Ok(()) => carry_below_view(created.0, src, dst),
                            }
                        },
                    }
                },
            },
        },
    }
}

/// The nodes added or removed below `from` are added or removed below `to`
/// too: a bound directory shows what its source shows.
pub open spec fn carry_below_view(v: VfsView, from: PathView, to: PathView) -> VfsStep {
    let added = with_add(v, carry_view(v.add, from, to));
    match added.1 {
        Err(e) => added,
        Ok(()) => with_sub(added.0, carry_view(added.0.sub, from, to)),
    }
}

/// Removing a directory, which must have no children.
pub open spec fn vremove_empty_directory_view(v: VfsView, p: PathView) -> VfsStep {
    match vstatus_view(v, p) {
        Err(e) => (v, Err(InfrastructureErrorOf::Query(e))),
        Ok(st) => if !state_exists(st.state) {
            (v, Err(InfrastructureErrorOf::PathDoesNotExists(p)))
        } else if st.identity.kind == Kind::Directory {
            match vread_dir_view(v, p) {
                Err(e) => (v, Err(InfrastructureErrorOf::Query(e))),
                Ok(c) => if c.len() > 0 {
                    (v, Err(InfrastructureErrorOf::DirectoryIsNotEmpty(p)))
                } else {
                    vremove_view(v, p)
                },
            }
        } else {
            vremove_view(v, p)
        },
    }
}

pub open spec fn step_of(fs: VfsView, r: Result<(), InfrastructureError>) -> VfsStep {
    (fs, infra_unit_view(r))
}

impl FileSystemAdapter<VirtualFileSystem> {
    fn add_attach(&mut self, node: &VirtualPath) -> (r: Result<(), InfrastructureError>)
        requires
            vfs_wf(old(self)@),
        ensures
            vfs_wf(final(self)@),
            step_of(final(self)@, r) == with_add(
                old(self)@,
                attach_view(old(self)@.add, node@.identity, node@.source, node@.kind),
            ),
    {
        match self.0.add.attach_virtual(node) {
            Ok(()) => Ok(()),
            Err(e) => Err(InfrastructureErrorOf::Representation(e)),
        }
    }

    fn carry_below(&mut self, from: &FsPath, to: &FsPath) -> (r: Result<(), InfrastructureError>)
        requires
            vfs_wf(old(self)@),
        ensures
            vfs_wf(final(self)@),
            step_of(final(self)@, r) == carry_below_view(old(self)@, from@, to@),
    {
        match self.0.add.carry(from, to) {
            Err(e) => {
                return Err(InfrastructureErrorOf::Representation(e));
            },
            Ok(()) => {},
        }
        match self.0.sub.carry(from, to) {
            Ok(()) => Ok(()),
            Err(e) => Err(InfrastructureErrorOf::Representation(e)),
        }
    }

    fn add_detach(&mut self, identity: &FsPath) -> (r: Result<(), InfrastructureError>)
        requires
            vfs_wf(old(self)@),
        ensures
            vfs_wf(final(self)@),
            step_of(final(self)@, r) == with_add(old(self)@, detach_view(old(self)@.add, identity@)),
    {
        match self.0.add.detach(identity) {
            Ok(()) => Ok(()),
            Err(e) => Err(InfrastructureErrorOf::Representation(e)),
        }
    }

    fn sub_attach(&mut self, node: &VirtualPath) -> (r: Result<(), InfrastructureError>)
        requires
            vfs_wf(old(self)@),
        ensures
            vfs_wf(final(self)@),
            step_of(final(self)@, r) == with_sub(
                old(self)@,
                attach_view(old(self)@.sub, node@.identity, node@.source, node@.kind),
            ),
    {
        match self.0.sub.attach_virtual(node) {
            Ok(()) => Ok(()),
            Err(e) => Err(InfrastructureErrorOf::Representation(e)),
        }
    }

    fn sub_detach(&mut self, identity: &FsPath) -> (r: Result<(), InfrastructureError>)
        requires
            vfs_wf(old(self)@),
        ensures
            vfs_wf(final(self)@),
            step_of(final(self)@, r) == with_sub(old(self)@, detach_view(old(self)@.sub, identity@)),
    {
        match self.0.sub.detach(identity) {
            Ok(()) => Ok(()),
            Err(e) => Err(InfrastructureErrorOf::Representation(e)),
        }
    }

    /// Removes `path`.
    pub fn remove(&mut self, path: &FsPath) -> (r: Result<(), InfrastructureError>)
        requires
            vfs_wf(old(self)@),
        ensures
            vfs_wf(final(self)@),
            step_of(final(self)@, r) == vremove_view(old(self)@, path@),
    {
        let status = match self.virtual_status(path) {
            Err(e) => {
                return Err(InfrastructureErrorOf::Query(e));
            },
            Ok(s) => s,
        };
        match status.state() {
            VirtualState::Exists
            | VirtualState::Replaced
            | VirtualState::ExistsThroughVirtualParent => self.sub_attach(status.as_virtual()),
            VirtualState::ExistsVirtually => {
                if let Err(e) = self.add_detach(status.path()) {
                    return Err(e);
                }
                match status.as_virtual().as_source() {
                    None => Ok(()),
                    Some(src) => match self.virtual_status(src) {
                        Err(e) => Err(InfrastructureErrorOf::Query(e)),
                        Ok(s2) => if s2.state() == VirtualState::Replaced
                            && self.0.add.is_directory_empty(s2.path()) {
                            self.add_detach(s2.path())
                        } else {
                            Ok(())
                        },
                    },
                }
            },
            _ => Err(InfrastructureErrorOf::PathDoesNotExists(path.clone())),
        }
    }

    /// The status of the parent of `path`, which must exist and be a
    /// directory.
    pub fn safe_parent(&self, path: &FsPath) -> (r: Result<VirtualStatus, InfrastructureError>)
        requires
            vfs_wf(self@),
        ensures
            match r {
                Ok(s) => vsafe_parent_view(self@, path@) == Ok::<
                    VirtualStatusView,
                    InfrastructureErrorView,
                >(s@),
                Err(e) => vsafe_parent_view(self@, path@) == Err::<
                    VirtualStatusView,
                    InfrastructureErrorView,
                >(e@),
            },
    {
        let parent = get_parent_or_root(path);
        match self.virtual_status(&parent) {
            Err(e) => Err(InfrastructureErrorOf::Query(e)),
            Ok(s) => if !s.is_existing() {
                Err(InfrastructureErrorOf::ParentDoesNotExists(parent))
            } else if !s.is_dir() {
                Err(InfrastructureErrorOf::ParentIsNotADirectory(parent))
            } else {
                Ok(s)
            },
        }
    }

    /// Puts `node` in place of what `destination` describes.
    pub fn create(&mut self, node: VirtualPath, destination: VirtualStatus) -> (r: Result<
        (),
        InfrastructureError,
    >)
        requires
            vfs_wf(old(self)@),
        ensures
            vfs_wf(final(self)@),
            step_of(final(self)@, r) == vcreate_view(old(self)@, node@, destination@),
    {
        match destination.state() {
            VirtualState::Replaced | VirtualState::ExistsVirtually => {
                if let Err(e) = self.add_detach(destination.path()) {
                    return Err(e);
                }
                self.add_attach(&node)
            },
            VirtualState::Removed | VirtualState::RemovedVirtually => {
                if let Err(e) = self.sub_detach(node.as_identity()) {
                    return Err(e);
                }
                self.add_attach(&node)
            },
            _ => self.add_attach(&node),
        }
    }

    fn create_kind(&mut self, path: &FsPath, kind: Kind) -> (r: Result<(), InfrastructureError>)
        requires
            vfs_wf(old(self)@),
        ensures
            vfs_wf(final(self)@),
            step_of(final(self)@, r) == vcreate_kind_view(old(self)@, path@, kind),
    {
        if let Err(e) = self.safe_parent(path) {
            return Err(e);
        }
        let existing = match self.virtual_status(path) {
            Err(e) => {
                return Err(InfrastructureErrorOf::Query(e));
            },
            Ok(s) => s,
        };
        match VirtualPath::from(path.clone(), None, kind) {
            Err(e) => Err(InfrastructureErrorOf::Representation(e)),
            Ok(node) => self.create(node, existing),
        }
    }

    /// The statuses of the children of `path` that exist only virtually.
    pub fn read_maintained(&self, path: &FsPath) -> (r: Result<Vec<VirtualStatus>, QueryError>)
        requires
            vfs_wf(self@),
        ensures
            match vread_dir_view(self@, path@) {
                Ok(all) => r matches Ok(kept) && statuses_view(kept@) == all.filter(
                    |s: VirtualStatusView| s.state == VirtualState::ExistsVirtually,
                ),
                Err(e) => r matches Err(x) && x@ == e,
            },
    {
        let all = match self.read_virtual_dir(path) {
            Err(e) => {
                return Err(e);
            },
            Ok(a) => a,
        };
        let ghost sv = statuses_view(all@);
        let ghost pred = |s: VirtualStatusView| s.state == VirtualState::ExistsVirtually;
        let mut kept: Vec<VirtualStatus> = Vec::new();
        let mut i: usize = 0;
        while i < all.len()
            invariant
                i <= all.len(),
                sv == statuses_view(all@),
                pred == (|s: VirtualStatusView| s.state == VirtualState::ExistsVirtually),
                statuses_view(kept@) =~= sv.take(i as int).filter(pred),
            decreases all.len() - i,
        {
            proof {
                lemma_filter_step(sv, pred, i as int);
            }
            assert(sv[i as int] == all@[i as int]@);
            if all[i].state() == VirtualState::ExistsVirtually {
                let c = all[i].clone();
                let ghost before = kept@;
                kept.push(c);
                assert(statuses_view(kept@) =~= statuses_view(before).push(c@));
            }
            i += 1;
        }
        assert(sv.take(all.len() as int) =~= sv);
        Ok(kept)
    }
}

impl WriteableFileSystem for FileSystemAdapter<VirtualFileSystem> {
    open spec fn write_wf(v: VfsView) -> bool {
        vfs_wf(v)
    }

    open spec fn create_empty_directory_view(v: VfsView, p: PathView) -> VfsStep {
        vcreate_kind_view(v, p, Kind::Directory)
    }

    open spec fn create_empty_file_view(v: VfsView, p: PathView) -> VfsStep {
        vcreate_kind_view(v, p, Kind::File)
    }

    open spec fn copy_file_to_file_view(v: VfsView, src: PathView, dst: PathView) -> VfsStep {
        vcopy_view(v, src, dst)
    }

    open spec fn move_file_to_file_view(v: VfsView, src: PathView, dst: PathView) -> VfsStep {
        vmove_view(v, src, dst)
    }

    open spec fn bind_directory_to_directory_view(v: VfsView, src: PathView, dst: PathView) -> VfsStep {
        vbind_view(v, src, dst)
    }

    open spec fn remove_file_view(v: VfsView, p: PathView) -> VfsStep {
        vremove_view(v, p)
    }

    open spec fn remove_empty_directory_view(v: VfsView, p: PathView) -> VfsStep {
        vremove_empty_directory_view(v, p)
    }

    fn create_empty_directory(&mut self, p: &FsPath) -> (r: Result<(), InfrastructureError>) {
        self.create_kind(p, Kind::Directory)
    }

    fn create_empty_file(&mut self, p: &FsPath) -> (r: Result<(), InfrastructureError>) {
        self.create_kind(p, Kind::File)
    }

    fn copy_file_to_file(&mut self, src: &FsPath, dst: &FsPath) -> (r: Result<
        (),
        InfrastructureError,
    >) {
        let source = match self.virtual_status(src) {
            Err(e) => {
                return Err(InfrastructureErrorOf::Query(e));
            },
            Ok(s) => s,
        };
        let destination = match self.virtual_status(dst) {
            Err(e) => {
                return Err(InfrastructureErrorOf::Query(e));
            },
            Ok(s) => s,
        };
        if let Err(e) = self.safe_parent(dst) {
            return Err(e);
        }
        if !source.is_existing() {
            return Err(InfrastructureErrorOf::SourceDoesNotExists(src.clone()));
        }
        if destination.is_existing() && !destination.is_file() {
            return Err(InfrastructureErrorOf::DestinationIsNotAFile(dst.clone()));
        }
        if !source.is_file() {
            return Err(InfrastructureErrorOf::SourceIsNotAFile(src.clone()));
        }
        let identity = source.as_virtual();
        match VirtualPath::from(destination.path().clone(), identity.to_source(), identity.to_kind()) {
            Err(e) => Err(InfrastructureErrorOf::Representation(e)),
            Ok(node) => self.create(node, destination),
        }
    }

    fn move_file_to_file(&mut self, src: &FsPath, dst: &FsPath) -> (r: Result<
        (),
        InfrastructureError,
    >) {
        if let Err(e) = self.copy_file_to_file(src, dst) {
            return Err(e);
        }
        self.remove(src)
    }

    fn bind_directory_to_directory(&mut self, src: &FsPath, dst: &FsPath) -> (r: Result<
        (),
        InfrastructureError,
    >) {
        let source = match self.virtual_status(src) {
            Err(e) => {
                return Err(InfrastructureErrorOf::Query(e));
            },
            Ok(s) => s,
        };
        let destination = match self.virtual_status(dst) {
            Err(e) => {
                return Err(InfrastructureErrorOf::Query(e));
            },
            Ok(s) => s,
        };
        if let Err(e) = self.safe_parent(dst) {
            return Err(e);
        }
        if !source.is_existing() {
            return Err(InfrastructureErrorOf::SourceDoesNotExists(src.clone()));
        }
        if destination.is_existing() {
            return Err(InfrastructureErrorOf::DestinationAlreadyExists(dst.clone()));
        }
        if !source.is_dir() {
            return Err(InfrastructureErrorOf::SourceIsNotADirectory(src.clone()));
        }
        let identity = source.as_virtual();
        match VirtualPath::from(destination.path().clone(), identity.to_source(), identity.to_kind()) {
            Err(e) => Err(InfrastructureErrorOf::Representation(e)),
            Ok(node) => match self.create(node, destination) {
                Err(e) => Err(e),
                Ok(()) => self.carry_below(src, dst),
            },
        }
    }

    fn remove_file(&mut self, p: &FsPath) -> (r: Result<(), InfrastructureError>) {
        self.remove(p)
    }

    fn remove_empty_directory(&mut self, p: &FsPath) -> (r: Result<(), InfrastructureError>) {
        let status = match self.virtual_status(p) {
            Err(e) => {
                return Err(InfrastructureErrorOf::Query(e));
            },
            Ok(s) => s,
        };
        if !status.is_existing() {
            return Err(InfrastructureErrorOf::PathDoesNotExists(p.clone()));
        }
        if status.is_dir() {
            match self.read_virtual_dir(p) {
                Err(e) => {
                    return Err(InfrastructureErrorOf::Query(e));
                },
                Ok(c) => if c.len() > 0 {
                    return Err(InfrastructureErrorOf::DirectoryIsNotEmpty(p.clone()));
                },
            }
        }
        self.remove(p)
    }
}

} // verus!
