//! The real file system, as a set of nodes below the root: each node is a
//! file or a directory, with an absolute path whose parent is the root or a
//! directory node. The writes follow what the operating system does on disk.

use vstd::prelude::*;
use crate::representation::lemma_filter_from;

use crate::errors::{
    InfrastructureErrorOf, InfrastructureErrorView, IoErrorKind, QueryErrorOf, QueryErrorView,
};
use crate::kind::Kind;
use crate::path::{
    parent_or_root_view, parent_view, root_view, get_parent_or_root, starts_with_view, FsPath,
    PathView,
};
use crate::errors::{InfrastructureError, QueryError};
use crate::port::{
    entries_view, entry_result_view, entries_result_view, infra_unit_view, Entry, EntryView,
    FileSystemAdapter, ReadableFileSystem, WriteableFileSystem,
};

verus! {

/// A node of the real file system: its path, its kind and, for a file, its
/// length.
pub struct RealNodeView {
    pub path: PathView,
    pub kind: Kind,
    pub size: u64,
}

pub open spec fn node_lookup(s: Seq<RealNodeView>, p: PathView) -> Option<RealNodeView>
    decreases s.len(),
{
    if s.len() == 0 {
        None
    } else if s[0].path == p {
        Some(s[0])
    } else {
        node_lookup(s.drop_first(), p)
    }
}

pub open spec fn has_node(s: Seq<RealNodeView>, p: PathView) -> bool {
    exists|i: int| 0 <= i < s.len() && s[i].path == p
}

pub open spec fn nodes_distinct(s: Seq<RealNodeView>) -> bool {
    forall|i: int, j: int| 0 <= i < s.len() && 0 <= j < s.len() && i != j ==> s[i].path != s[j].path
}

/// `p` is the root or a directory node.
pub open spec fn is_dir_node(s: Seq<RealNodeView>, p: PathView) -> bool {
    p == root_view() || exists|j: int|
        0 <= j < s.len() && s[j].path == p && s[j].kind == Kind::Directory
}

/// A real file system is well formed when its nodes have distinct absolute
/// paths below the root, are files or directories, and stand in a directory.
pub open spec fn real_wf(s: Seq<RealNodeView>) -> bool {
    &&& nodes_distinct(s)
    &&& forall|i: int|
        0 <= i < s.len() ==> {
            &&& (#[trigger] s[i]).path.absolute
            &&& s[i].path.components.len() > 0
            &&& (s[i].kind == Kind::File || s[i].kind == Kind::Directory)
            &&& is_dir_node(s, parent_or_root_view(s[i].path))
        }
}

pub open spec fn real_exists(s: Seq<RealNodeView>, p: PathView) -> bool {
    p == root_view() || node_lookup(s, p) is Some
}

pub open spec fn real_is_dir(s: Seq<RealNodeView>, p: PathView) -> bool {
    p == root_view() || (node_lookup(s, p) matches Some(n) && n.kind == Kind::Directory)
}

pub open spec fn real_is_file(s: Seq<RealNodeView>, p: PathView) -> bool {
    node_lookup(s, p) matches Some(n) && n.kind == Kind::File
}

pub open spec fn real_size(s: Seq<RealNodeView>, p: PathView) -> u64 {
    match node_lookup(s, p) {
        Some(n) => n.size,
        None => 0,
    }
}

pub open spec fn is_real_child_of(p: PathView) -> spec_fn(RealNodeView) -> bool {
    |n: RealNodeView| parent_or_root_view(n.path) == p
}

pub open spec fn is_not_node(p: PathView) -> spec_fn(RealNodeView) -> bool {
    |n: RealNodeView| n.path != p
}

/// The nodes directly below `p`.
pub open spec fn real_children(s: Seq<RealNodeView>, p: PathView) -> Seq<RealNodeView> {
    s.filter(is_real_child_of(p))
}

pub open spec fn node_entry(n: RealNodeView) -> EntryView {
    EntryView {
        path: n.path,
        exists: true,
        is_dir: n.kind == Kind::Directory,
        is_file: n.kind == Kind::File,
    }
}

pub open spec fn real_status_view(s: Seq<RealNodeView>, p: PathView) -> EntryView {
    EntryView {
        path: p,
        exists: real_exists(s, p),
        is_dir: real_is_dir(s, p),
        is_file: real_is_file(s, p),
    }
}

pub open spec fn real_read_dir_view(s: Seq<RealNodeView>, p: PathView) -> Result<
    Seq<EntryView>,
    QueryErrorView,
> {
    if !real_exists(s, p) {
        Err(QueryErrorOf::ReadTargetDoesNotExists(p))
    } else if !real_is_dir(s, p) {
        Err(QueryErrorOf::IsNotADirectory(p))
    } else {
        Ok(real_children(s, p).map_values(|n: RealNodeView| node_entry(n)))
    }
}

pub type RealStep = (Seq<RealNodeView>, Result<(), InfrastructureErrorView>);

/// The parent of a path that is written must be a directory that exists.
pub open spec fn real_safe_parent_view(s: Seq<RealNodeView>, p: PathView) -> Result<
    (),
    InfrastructureErrorView,
> {
    match parent_view(p) {
        Some(q) => if !real_exists(s, q) {
            Err(InfrastructureErrorOf::ParentDoesNotExists(q))
        } else if !real_is_dir(s, q) {
            Err(InfrastructureErrorOf::ParentIsNotADirectory(q))
        } else {
            Ok(())
        },
        None => Ok(()),
    }
}

/// A file is copied or moved from an existing file onto a file or a new
/// path whose parent is a directory.
pub open spec fn real_safe_file_translation_view(
    s: Seq<RealNodeView>,
    src: PathView,
    dst: PathView,
) -> Result<(), InfrastructureErrorView> {
    match real_safe_parent_view(s, dst) {
        Err(e) => Err(e),
        Ok(()) => if !real_exists(s, src) {
            Err(InfrastructureErrorOf::SourceDoesNotExists(src))
        } else if real_exists(s, dst) && !real_is_file(s, dst) {
            Err(InfrastructureErrorOf::DestinationIsNotAFile(dst))
        } else if real_exists(s, src) && !real_is_file(s, src) {
            Err(InfrastructureErrorOf::SourceIsNotAFile(src))
        } else {
            Ok(())
        },
    }
}

pub open spec fn with_size(s: Seq<RealNodeView>, p: PathView, size: u64) -> Seq<RealNodeView> {
    s.map_values(|n: RealNodeView| if n.path == p { RealNodeView { size, ..n } } else { n })
}

/// The file `p` with `size` bytes: truncated or filled when it is a file,
/// made when it is not there.
pub open spec fn real_write_file(s: Seq<RealNodeView>, p: PathView, size: u64) -> RealStep {
    if real_is_dir(s, p) {
        (s, Err(InfrastructureErrorOf::Io(IoErrorKind::IsADirectory)))
    } else if real_is_file(s, p) {
        (with_size(s, p, size), Ok(()))
    } else if !p.absolute {
        (s, Err(InfrastructureErrorOf::Io(IoErrorKind::NotFound)))
    } else {
        (s.push(RealNodeView { path: p, kind: Kind::File, size }), Ok(()))
    }
}

pub open spec fn real_create_empty_directory_view(s: Seq<RealNodeView>, p: PathView) -> RealStep {
    match real_safe_parent_view(s, p) {
        Err(e) => (s, Err(e)),
        Ok(()) => if real_exists(s, p) {
            (s, Err(InfrastructureErrorOf::Io(IoErrorKind::AlreadyExists)))
        } else if !p.absolute {
            (s, Err(InfrastructureErrorOf::Io(IoErrorKind::NotFound)))
        } else {
            (s.push(RealNodeView { path: p, kind: Kind::Directory, size: 0 }), Ok(()))
        },
    }
}

pub open spec fn real_create_empty_file_view(s: Seq<RealNodeView>, p: PathView) -> RealStep {
    match real_safe_parent_view(s, p) {
        Err(e) => (s, Err(e)),
        Ok(()) => real_write_file(s, p, 0),
    }
}

pub open spec fn real_copy_file_to_file_view(s: Seq<RealNodeView>, src: PathView, dst: PathView) -> RealStep {
    match real_safe_file_translation_view(s, src, dst) {
        Err(e) => (s, Err(e)),
        Ok(()) => real_write_file(
            s,
            dst,
            if src == dst {
                0
            } else {
                real_size(s, src)
            },
        ),
    }
}

pub open spec fn real_move_file_to_file_view(s: Seq<RealNodeView>, src: PathView, dst: PathView) -> RealStep {
    match real_safe_file_translation_view(s, src, dst) {
        Err(e) => (s, Err(e)),
        Ok(()) => if src == dst {
            (s, Ok(()))
        } else if !dst.absolute {
            (s, Err(InfrastructureErrorOf::Io(IoErrorKind::NotFound)))
        } else {
            real_write_file(s.filter(is_not_node(src)), dst, real_size(s, src))
        },
    }
}

pub open spec fn real_bind_directory_to_directory_view(
    s: Seq<RealNodeView>,
    src: PathView,
    dst: PathView,
) -> RealStep {
    match real_safe_parent_view(s, dst) {
        Err(e) => (s, Err(e)),
        Ok(()) => if !real_exists(s, src) {
            (s, Err(InfrastructureErrorOf::SourceDoesNotExists(src)))
        } else if real_exists(s, dst) {
            (s, Err(InfrastructureErrorOf::DestinationAlreadyExists(dst)))
        } else if !real_is_dir(s, src) {
            (s, Err(InfrastructureErrorOf::SourceIsNotADirectory(src)))
        } else {
            real_create_empty_directory_view(s, dst)
        },
    }
}

pub open spec fn real_remove_file_view(s: Seq<RealNodeView>, p: PathView) -> RealStep {
    if !real_exists(s, p) {
        (s, Err(InfrastructureErrorOf::PathDoesNotExists(p)))
    } else if real_is_dir(s, p) {
        (s, Err(InfrastructureErrorOf::Io(IoErrorKind::IsADirectory)))
    } else {
        (s.filter(is_not_node(p)), Ok(()))
    }
}

pub open spec fn real_remove_empty_directory_view(s: Seq<RealNodeView>, p: PathView) -> RealStep {
    if !real_exists(s, p) {
        (s, Err(InfrastructureErrorOf::PathDoesNotExists(p)))
    } else if !real_is_dir(s, p) {
        (s, Err(InfrastructureErrorOf::Io(IoErrorKind::NotADirectory)))
    } else if p == root_view() {
        (s, Err(InfrastructureErrorOf::Io(IoErrorKind::Other)))
    } else if real_children(s, p).len() > 0 {
        (s, Err(InfrastructureErrorOf::DirectoryIsNotEmpty(p)))
    } else {
        (s.filter(is_not_node(p)), Ok(()))
    }
}

pub proof fn lemma_node_lookup_index(s: Seq<RealNodeView>, p: PathView, i: int)
    requires
        nodes_distinct(s),
        0 <= i < s.len(),
        s[i].path == p,
    ensures
        node_lookup(s, p) == Some(s[i]),
    decreases s.len(),
{
    if i > 0 {
        assert(s[0].path != p);
        lemma_node_lookup_index(s.drop_first(), p, i - 1);
    }
}


pub proof fn lemma_node_lookup_some(s: Seq<RealNodeView>, p: PathView)
    requires
        node_lookup(s, p) is Some,
    ensures
        exists|i: int| 0 <= i < s.len() && s[i].path == p && node_lookup(s, p) == Some(s[i]),
    decreases s.len(),
{
    if s[0].path != p {
        lemma_node_lookup_some(s.drop_first(), p);
        let i = choose|i: int|
            0 <= i < s.drop_first().len() && s.drop_first()[i].path == p && node_lookup(
                s.drop_first(),
                p,
            ) == Some(s.drop_first()[i]);
        assert(s[i + 1] == s.drop_first()[i]);
    }
}

pub proof fn lemma_node_lookup_none(s: Seq<RealNodeView>, p: PathView)
    ensures
        node_lookup(s, p) is None <==> !has_node(s, p),
    decreases s.len(),
{
    if s.len() > 0 {
        lemma_node_lookup_none(s.drop_first(), p);
        if has_node(s, p) && s[0].path != p {
            let i = choose|i: int| 0 <= i < s.len() && s[i].path == p;
            assert(s.drop_first()[i - 1].path == p);
        }
        if has_node(s.drop_first(), p) {
            let i = choose|i: int| 0 <= i < s.drop_first().len() && s.drop_first()[i].path == p;
            assert(s[i + 1].path == p);
        }
    }
}


pub proof fn lemma_filter_nodes(s: Seq<RealNodeView>, pred: spec_fn(RealNodeView) -> bool)
    requires
        nodes_distinct(s),
    ensures
        nodes_distinct(s.filter(pred)),
    decreases s.len(),
{
    reveal(Seq::filter);
    if s.len() > 0 {
        let r = s.drop_last();
        assert(nodes_distinct(r));
        lemma_filter_nodes(r, pred);
        crate::representation::lemma_filter_from(r, pred);
        let f = r.filter(pred);
        if pred(s.last()) {
            assert forall|i: int| 0 <= i < f.len() implies f[i].path != s.last().path by {
                assert(r.contains(f[i]));
                let k = choose|k: int| 0 <= k < r.len() && r[k] == f[i];
                assert(s[k] == r[k]);
            }
            assert forall|i: int, j: int|
                0 <= i < f.push(s.last()).len() && 0 <= j < f.push(s.last()).len() && i != j
                implies f.push(s.last())[i].path != f.push(s.last())[j].path by {
                if i < f.len() && j < f.len() {
                } else if i < f.len() {
                    assert(f[i].path != s.last().path);
                } else if j < f.len() {
                    assert(f[j].path != s.last().path);
                }
            }
        }
    }
}

/// The greatest depth of the nodes.
pub open spec fn real_max_depth(s: Seq<RealNodeView>) -> nat
    decreases s.len(),
{
    if s.len() == 0 {
        0
    } else {
        let m = real_max_depth(s.drop_last());
        if s.last().path.components.len() > m {
            s.last().path.components.len()
        } else {
            m
        }
    }
}

/// A node can be put in a file system: at an absolute path below the root
/// where nothing is, in a directory, as a file or a directory.
pub open spec fn can_place(s: Seq<RealNodeView>, n: RealNodeView) -> bool {
    &&& n.path.absolute
    &&& n.path.components.len() > 0
    &&& (n.kind == Kind::File || n.kind == Kind::Directory)
    &&& !has_node(s, n.path)
    &&& real_is_dir(s, parent_or_root_view(n.path))
}

pub open spec fn is_outside(p: PathView) -> spec_fn(RealNodeView) -> bool {
    |n: RealNodeView| !starts_with_view(n.path, p)
}

/// The file system without `p` and what lies below it.
pub open spec fn without_tree(s: Seq<RealNodeView>, p: PathView) -> Seq<RealNodeView> {
    s.filter(is_outside(p))
}

/// A node of the real file system.
#[derive(Debug)]
pub struct RealNode {
    path: FsPath,
    kind: Kind,
    size: u64,
}

impl View for RealNode {
    type V = RealNodeView;

    closed spec fn view(&self) -> RealNodeView {
        RealNodeView { path: self.path@, kind: self.kind, size: self.size }
    }
}

impl Clone for RealNode {
    fn clone(&self) -> (r: Self)
        ensures
            r@ == self@,
    {
        RealNode { path: self.path.clone(), kind: self.kind, size: self.size }
    }
}

impl RealNode {
    pub fn new(path: FsPath, kind: Kind, size: u64) -> (n: RealNode)
        ensures
            n@ == (RealNodeView { path: path@, kind, size }),
    {
        RealNode { path, kind, size }
    }

    pub fn path(&self) -> (p: &FsPath)
        ensures
            p@ == self@.path,
    {
        &self.path
    }

    pub fn kind(&self) -> (k: Kind)
        ensures
            k == self@.kind,
    {
        self.kind
    }

    pub fn size(&self) -> (n: u64)
        ensures
            n == self@.size,
    {
        self.size
    }
}

pub open spec fn nodes_view(v: Seq<RealNode>) -> Seq<RealNodeView> {
    v.map_values(|n: RealNode| n@)
}

/// The real file system: the nodes below the root.
#[derive(Debug)]
pub struct RealFileSystem {
    nodes: Vec<RealNode>,
}

impl View for RealFileSystem {
    type V = Seq<RealNodeView>;

    closed spec fn view(&self) -> Seq<RealNodeView> {
        nodes_view(self.nodes@)
    }
}

impl Clone for RealFileSystem {
    fn clone(&self) -> (r: Self)
        ensures
            r@ == self@,
    {
        let mut nodes: Vec<RealNode> = Vec::new();
        let mut i: usize = 0;
        while i < self.nodes.len()
            invariant
                i <= self.nodes.len(),
                nodes_view(nodes@) =~= nodes_view(self.nodes@).take(i as int),
            decreases self.nodes.len() - i,
        {
            let c = self.nodes[i].clone();
            let ghost before = nodes@;
            nodes.push(c);
            assert(nodes_view(nodes@) =~= nodes_view(before).push(c@));
            i += 1;
        }
        let r = RealFileSystem { nodes };
        assert(r@ =~= self@);
        r
    }
}

impl RealFileSystem {
    pub open spec fn wf(&self) -> bool {
        real_wf(self@)
    }

    /// A file system with nothing but the root.
    pub fn new() -> (fs: RealFileSystem)
        ensures
            fs@ == Seq::<RealNodeView>::empty(),
            fs.wf(),
    {
        let fs = RealFileSystem { nodes: Vec::new() };
        assert(fs@ =~= Seq::<RealNodeView>::empty());
        fs
    }

    fn find(&self, p: &FsPath) -> (r: Option<usize>)
        ensures
            r matches Some(i) ==> i < self@.len() && self@[i as int].path == p@,
            r is None ==> !has_node(self@, p@),
    {
        let mut i: usize = 0;
        while i < self.nodes.len()
            invariant
                i <= self.nodes.len(),
                forall|j: int| 0 <= j < i ==> self@[j].path != p@,
            decreases self.nodes.len() - i,
        {
            if self.nodes[i].path.same(p) {
                return Some(i);
            }
            i += 1;
        }
        None
    }

    /// The node at `p`, if there is one.
    pub fn node(&self, p: &FsPath) -> (r: Option<&RealNode>)
        requires
            self.wf(),
        ensures
            r matches Some(n) ==> node_lookup(self@, p@) == Some(n@),
            r is None ==> node_lookup(self@, p@) is None,
    {
        match self.find(p) {
            Some(i) => {
                proof {
                    lemma_node_lookup_index(self@, p@, i as int);
                }
                Some(&self.nodes[i])
            },
            None => {
                proof {
                    lemma_node_lookup_none(self@, p@);
                }
                None
            },
        }
    }

    pub fn exists_path(&self, p: &FsPath) -> (b: bool)
        requires
            self.wf(),
        ensures
            b == real_exists(self@, p@),
    {
        p.same(&FsPath::root()) || self.node(p).is_some()
    }

    pub fn is_dir(&self, p: &FsPath) -> (b: bool)
        requires
            self.wf(),
        ensures
            b == real_is_dir(self@, p@),
    {
        if p.same(&FsPath::root()) {
            return true;
        }
        match self.node(p) {
            Some(n) => n.kind == Kind::Directory,
            None => false,
        }
    }

    pub fn is_file(&self, p: &FsPath) -> (b: bool)
        requires
            self.wf(),
        ensures
            b == real_is_file(self@, p@),
    {
        match self.node(p) {
            Some(n) => n.kind == Kind::File,
            None => false,
        }
    }

    pub fn size(&self, p: &FsPath) -> (n: u64)
        requires
            self.wf(),
        ensures
            n == real_size(self@, p@),
    {
        match self.node(p) {
            Some(n) => n.size,
            None => 0,
        }
    }

    /// The nodes directly below `p`.
    pub fn children(&self, p: &FsPath) -> (r: Vec<RealNode>)
        ensures
            nodes_view(r@) == real_children(self@, p@),
    {
        let ghost pred = is_real_child_of(p@);
        let mut kept: Vec<RealNode> = Vec::new();
        let mut i: usize = 0;
        while i < self.nodes.len()
            invariant
                i <= self.nodes.len(),
                pred == is_real_child_of(p@),
                nodes_view(kept@) =~= nodes_view(self.nodes@).take(i as int).filter(pred),
            decreases self.nodes.len() - i,
        {
            proof {
                crate::representation::lemma_filter_step(nodes_view(self.nodes@), pred, i as int);
            }
            assert(nodes_view(self.nodes@)[i as int] == self.nodes@[i as int]@);
            if get_parent_or_root(&self.nodes[i].path).same(p) {
                let c = self.nodes[i].clone();
                let ghost before = kept@;
                kept.push(c);
                assert(nodes_view(kept@) =~= nodes_view(before).push(c@));
            }
            i += 1;
        }
        assert(nodes_view(self.nodes@).take(self.nodes.len() as int) =~= nodes_view(self.nodes@));
        kept
    }


    fn push_node(&mut self, n: RealNode)
        requires
            old(self).wf(),
            !has_node(old(self)@, n@.path),
            n@.path.absolute,
            n@.path.components.len() > 0,
            n@.kind == Kind::File || n@.kind == Kind::Directory,
            is_dir_node(old(self)@, parent_or_root_view(n@.path)),
        ensures
            final(self)@ == old(self)@.push(n@),
            final(self).wf(),
    {
        let ghost before = self@;
        let ghost nv = n@;
        self.nodes.push(n);
        assert(self@ =~= before.push(nv));
        proof {
            let s = self@;
            assert forall|i: int, j: int|
                0 <= i < s.len() && 0 <= j < s.len() && i != j implies s[i].path != s[j].path by {
                if i == s.len() - 1 {
                    assert(s[j] == before[j]);
                } else if j == s.len() - 1 {
                    assert(s[i] == before[i]);
                }
            }
            assert forall|i: int| 0 <= i < s.len() implies is_dir_node(
                s,
                parent_or_root_view((#[trigger] s[i]).path),
            ) by {
                let q = if i == s.len() - 1 {
                    parent_or_root_view(nv.path)
                } else {
                    parent_or_root_view(before[i].path)
                };
                if i < s.len() - 1 {
                    assert(s[i] == before[i]);
                }
                if q != root_view() {
                    let j = choose|j: int|
                        0 <= j < before.len() && before[j].path == q && before[j].kind
                            == Kind::Directory;
                    assert(s[j] == before[j]);
                }
            }
        }
    }

    fn set_size(&mut self, p: &FsPath, size: u64)
        requires
            old(self).wf(),
        ensures
            final(self)@ == with_size(old(self)@, p@, size),
            final(self).wf(),
    {
        let ghost before = self@;
        let mut i: usize = 0;
        while i < self.nodes.len()
            invariant
                i <= self.nodes.len(),
                self.nodes@.len() == before.len(),
                forall|j: int|
                    0 <= j < i ==> #[trigger] self@[j] == (if before[j].path == p@ {
                        RealNodeView { size, ..before[j] }
                    } else {
                        before[j]
                    }),
                forall|j: int| i <= j < self.nodes@.len() ==> #[trigger] self@[j] == before[j],
            decreases self.nodes.len() - i,
        {
            let ghost prev = self.nodes@;
            assert(self@[i as int] == before[i as int]);
            if self.nodes[i].path.same(p) {
                let n = RealNode { path: self.nodes[i].path.clone(), kind: self.nodes[i].kind, size };
                self.nodes.set(i, n);
                assert(self.nodes@ == prev.update(i as int, n));
                assert forall|j: int| 0 <= j < self.nodes@.len() && j != i implies #[trigger] self@[j]
                    == nodes_view(prev)[j] by {
                    assert(self.nodes@[j] == prev[j]);
                }
                assert(self@[i as int] == RealNodeView { size, ..before[i as int] });
            }
            i += 1;
        }
        assert(self@ =~= with_size(before, p@, size));
        proof {
            let s = self@;
            assert forall|i: int| 0 <= i < s.len() implies is_dir_node(
                s,
                parent_or_root_view((#[trigger] s[i]).path),
            ) by {
                let q = parent_or_root_view(before[i].path);
                if q != root_view() {
                    let j = choose|j: int|
                        0 <= j < before.len() && before[j].path == q && before[j].kind
                            == Kind::Directory;
                    assert(s[j].path == q && s[j].kind == Kind::Directory);
                }
            }
        }
    }

    fn remove_node(&mut self, p: &FsPath)
        requires
            old(self).wf(),
            real_is_file(old(self)@, p@) || (real_is_dir(old(self)@, p@) && p@ != root_view()
                && real_children(old(self)@, p@).len() == 0),
        ensures
            final(self)@ == old(self)@.filter(is_not_node(p@)),
            final(self).wf(),
    {
        let ghost before = self@;
        let ghost pred = is_not_node(p@);
        let mut kept: Vec<RealNode> = Vec::new();
        let mut i: usize = 0;
        while i < self.nodes.len()
            invariant
                i <= self.nodes.len(),
                pred == is_not_node(p@),
                self@ == before,
                nodes_view(kept@) =~= before.take(i as int).filter(pred),
            decreases self.nodes.len() - i,
        {
            proof {
                crate::representation::lemma_filter_step(before, pred, i as int);
            }
            assert(before[i as int] == self.nodes@[i as int]@);
            if !self.nodes[i].path.same(p) {
                let c = self.nodes[i].clone();
                let ghost b = kept@;
                kept.push(c);
                assert(nodes_view(kept@) =~= nodes_view(b).push(c@));
            }
            i += 1;
        }
        assert(before.take(self.nodes.len() as int) =~= before);
        self.nodes = kept;
        proof {
            let s = self@;
            lemma_filter_nodes(before, pred);
            crate::representation::lemma_filter_from(before, pred);
            let pn = node_lookup(before, p@)->0;
            crate::disk::lemma_node_lookup_some(before, p@);
            assert forall|i: int| 0 <= i < s.len() implies {
                &&& (#[trigger] s[i]).path.absolute
                &&& s[i].path.components.len() > 0
                &&& (s[i].kind == Kind::File || s[i].kind == Kind::Directory)
                &&& is_dir_node(s, parent_or_root_view(s[i].path))
            } by {
                assert(before.contains(s[i]));
                let k = choose|k: int| 0 <= k < before.len() && before[k] == s[i];
                let q = parent_or_root_view(s[i].path);
                if q != root_view() {
                    let j = choose|j: int|
                        0 <= j < before.len() && before[j].path == q && before[j].kind
                            == Kind::Directory;
                    if q == p@ {
                        lemma_node_lookup_index(before, p@, j);
                        assert(real_is_dir(before, p@));
                        crate::representation::lemma_filter_keeps(before, is_real_child_of(p@), k);
                    }
                    crate::representation::lemma_filter_keeps(before, pred, j);
                    let m = choose|m: int| 0 <= m < s.len() && s[m] == before[j];
                    assert(s[m].path == q);
                }
            }
        }
    }

    /// Puts `node` in the file system when it can be placed there.
    pub fn insert(&mut self, node: RealNode) -> (placed: bool)
        requires
            old(self).wf(),
        ensures
            final(self).wf(),
            placed == can_place(old(self)@, node@),
            final(self)@ == if placed {
                old(self)@.push(node@)
            } else {
                old(self)@
            },
    {
        if !node.path.is_absolute() || node.path.depth() == 0 || node.kind == Kind::Unknown {
            return false;
        }
        if self.find(&node.path).is_some() {
            return false;
        }
        let parent = get_parent_or_root(&node.path);
        if !self.is_dir(&parent) {
            return false;
        }
        proof {
            lemma_node_lookup_none(self@, node@.path);
            lemma_is_dir_node(self@, parent_or_root_view(node@.path));
        }
        self.push_node(node);
        true
    }

    /// Removes `p` and everything below it.
    pub fn remove_tree(&mut self, p: &FsPath)
        requires
            old(self).wf(),
        ensures
            final(self).wf(),
            final(self)@ == without_tree(old(self)@, p@),
    {
        let ghost before = self@;
        let ghost pred = is_outside(p@);
        let mut kept: Vec<RealNode> = Vec::new();
        let mut i: usize = 0;
        while i < self.nodes.len()
            invariant
                i <= self.nodes.len(),
                pred == is_outside(p@),
                self@ == before,
                nodes_view(kept@) =~= before.take(i as int).filter(pred),
            decreases self.nodes.len() - i,
        {
            proof {
                crate::representation::lemma_filter_step(before, pred, i as int);
            }
            assert(before[i as int] == self.nodes@[i as int]@);
            if !self.nodes[i].path.starts_with(p) {
                let c = self.nodes[i].clone();
                let ghost b = kept@;
                kept.push(c);
                assert(nodes_view(kept@) =~= nodes_view(b).push(c@));
            }
            i += 1;
        }
        assert(before.take(self.nodes.len() as int) =~= before);
        self.nodes = kept;
        proof {
            let s = self@;
            lemma_filter_nodes(before, pred);
            crate::representation::lemma_filter_from(before, pred);
            assert forall|i: int| 0 <= i < s.len() implies {
                &&& (#[trigger] s[i]).path.absolute
                &&& s[i].path.components.len() > 0
                &&& (s[i].kind == Kind::File || s[i].kind == Kind::Directory)
                &&& is_dir_node(s, parent_or_root_view(s[i].path))
            } by {
                assert(before.contains(s[i]));
                let k = choose|k: int| 0 <= k < before.len() && before[k] == s[i];
                let q = parent_or_root_view(s[i].path);
                if q != root_view() {
                    let j = choose|j: int|
                        0 <= j < before.len() && before[j].path == q && before[j].kind
                            == Kind::Directory;
                    if starts_with_view(q, p@) {
                        assert(s[i].path.components.drop_last() == q.components);
                        assert(p@.components.is_prefix_of(s[i].path.components));
                        assert(starts_with_view(s[i].path, p@));
                    }
                    crate::representation::lemma_filter_keeps(before, pred, j);
                    let m = choose|m: int| 0 <= m < s.len() && s[m] == before[j];
                    assert(s[m].path == q);
                }
            }
        }
    }

    /// The largest number of components of a node's path.
    pub fn max_depth(&self) -> (m: usize)
        ensures
            m == real_max_depth(self@),
    {
        let ghost s = self@;
        let mut m: usize = 0;
        let mut i: usize = 0;
        while i < self.nodes.len()
            invariant
                i <= self.nodes.len(),
                s == self@,
                m == real_max_depth(s.take(i as int)),
            decreases self.nodes.len() - i,
        {
            assert(s.take(i + 1).drop_last() =~= s.take(i as int));
            assert(s[i as int] == self.nodes@[i as int]@);
            let d = self.nodes[i].path().depth();
            if d > m {
                m = d;
            }
            i += 1;
        }
        assert(s.take(self.nodes.len() as int) =~= s);
        m
    }

    /// Every node.
    pub fn nodes(&self) -> (r: &Vec<RealNode>)
        ensures
            nodes_view(r@) == self@,
    {
        &self.nodes
    }
}

/// The children of a path in a well formed file system are nodes of it,
/// each one step below `p`.
pub proof fn lemma_children_named(s: Seq<RealNodeView>, p: PathView)
    requires
        real_wf(s),
    ensures
        forall|j: int|
            0 <= j < real_children(s, p).len() ==> {
                &&& (#[trigger] real_children(s, p)[j]).path.components.len() > 0
                &&& real_children(s, p)[j].path.absolute
                &&& parent_or_root_view(real_children(s, p)[j].path) == p
                &&& s.contains(real_children(s, p)[j])
            },
{
    lemma_filter_from(s, is_real_child_of(p));
    assert forall|j: int| 0 <= j < real_children(s, p).len() implies {
        &&& (#[trigger] real_children(s, p)[j]).path.components.len() > 0
        &&& real_children(s, p)[j].path.absolute
        &&& parent_or_root_view(real_children(s, p)[j].path) == p
        &&& s.contains(real_children(s, p)[j])
    } by {
        let n = real_children(s, p)[j];
        assert(s.contains(n));
        let k = choose|k: int| 0 <= k < s.len() && s[k] == n;
        assert(s[k].path.absolute);
    }
}

pub proof fn lemma_is_dir_node(s: Seq<RealNodeView>, q: PathView)
    requires
        real_is_dir(s, q),
    ensures
        is_dir_node(s, q),
{
    if q != root_view() {
        lemma_node_lookup_some(s, q);
    }
}

impl View for FileSystemAdapter<RealFileSystem> {
    type V = Seq<RealNodeView>;

    open spec fn view(&self) -> Seq<RealNodeView> {
        self.0@
    }
}

impl FileSystemAdapter<RealFileSystem> {
    /// The parent of `path` must exist and be a directory.
    pub fn safe_parent(&self, path: &FsPath) -> (r: Result<(), InfrastructureError>)
        requires
            real_wf(self@),
        ensures
            infra_unit_view(r) == real_safe_parent_view(self@, path@),
    {
        match path.parent() {
            Some(parent) => if !self.0.exists_path(&parent) {
                Err(InfrastructureErrorOf::ParentDoesNotExists(parent))
            } else if !self.0.is_dir(&parent) {
                Err(InfrastructureErrorOf::ParentIsNotADirectory(parent))
            } else {
                Ok(())
            },
            None => Ok(()),
        }
    }

    /// A file can be copied or moved from `source` to `destination`.
    pub fn safe_file_translation(&self, source: &FsPath, destination: &FsPath) -> (r: Result<
        (),
        InfrastructureError,
    >)
        requires
            real_wf(self@),
        ensures
            infra_unit_view(r) == real_safe_file_translation_view(self@, source@, destination@),
    {
        if let Err(e) = self.safe_parent(destination) {
            return Err(e);
        }
        if !self.0.exists_path(source) {
            return Err(InfrastructureErrorOf::SourceDoesNotExists(source.clone()));
        }
        if self.0.exists_path(destination) && !self.0.is_file(destination) {
            return Err(InfrastructureErrorOf::DestinationIsNotAFile(destination.clone()));
        }
        if self.0.exists_path(source) && !self.0.is_file(source) {
            return Err(InfrastructureErrorOf::SourceIsNotAFile(source.clone()));
        }
        Ok(())
    }

    fn write_file(&mut self, p: &FsPath, size: u64) -> (r: Result<(), InfrastructureError>)
        requires
            real_wf(old(self)@),
            real_safe_parent_view(old(self)@, p@) is Ok,
        ensures
            real_wf(final(self)@),
            final(self)@ == real_write_file(old(self)@, p@, size).0,
            infra_unit_view(r) == real_write_file(old(self)@, p@, size).1,
    {
        if self.0.is_dir(p) {
            return Err(InfrastructureErrorOf::Io(IoErrorKind::IsADirectory));
        }
        if self.0.is_file(p) {
            self.0.set_size(p, size);
            return Ok(());
        }
        if !p.is_absolute() {
            return Err(InfrastructureErrorOf::Io(IoErrorKind::NotFound));
        }
        proof {
            lemma_node_lookup_none(self@, p@);
            if node_lookup(self@, p@) is Some {
                lemma_node_lookup_some(self@, p@);
                let i = choose|i: int|
                    0 <= i < self@.len() && self@[i].path == p@ && node_lookup(self@, p@) == Some(
                        self@[i],
                    );
                assert(self@[i].kind == Kind::File || self@[i].kind == Kind::Directory);
            }
            if p@.components.len() == 0 {
                assert(p@.components =~= root_view().components);
            }
            lemma_is_dir_node(self@, parent_or_root_view(p@));
        }
        self.0.push_node(RealNode::new(p.clone(), Kind::File, size));
        Ok(())
    }
}

impl ReadableFileSystem for FileSystemAdapter<RealFileSystem> {
    open spec fn read_wf(v: Seq<RealNodeView>) -> bool {
        real_wf(v)
    }

    open spec fn status_view(v: Seq<RealNodeView>, p: PathView) -> Result<EntryView, QueryErrorView> {
        Ok(real_status_view(v, p))
    }

    open spec fn read_dir_view(v: Seq<RealNodeView>, p: PathView) -> Result<
        Seq<EntryView>,
        QueryErrorView,
    > {
        real_read_dir_view(v, p)
    }

    open spec fn binds_copies_view() -> bool {
        false
    }

    /// The real file system rebuilds a copied directory child by child.
    fn binds_copies() -> (b: bool) {
        false
    }

    open spec fn depth_bound_view(v: Seq<RealNodeView>) -> nat {
        real_max_depth(v)
    }

    proof fn lemma_read_dir_entries(v: Seq<RealNodeView>, p: PathView) {
        lemma_children_named(v, p);
        if let Ok(s) = Self::read_dir_view(v, p) {
            assert forall|i: int| 0 <= i < s.len() implies (#[trigger] s[i]).path.components.len()
                > 0 by {
                assert(s[i] == node_entry(real_children(v, p)[i]));
            }
        }
    }

    fn status(&self, p: &FsPath) -> (r: Result<Entry, QueryError>) {
        Ok(Entry::new(p.clone(), self.0.exists_path(p), self.0.is_dir(p), self.0.is_file(p)))
    }

    fn read_dir(&self, p: &FsPath) -> (r: Result<Vec<Entry>, QueryError>) {
        if !self.0.exists_path(p) {
            return Err(QueryErrorOf::ReadTargetDoesNotExists(p.clone()));
        }
        if !self.0.is_dir(p) {
            return Err(QueryErrorOf::IsNotADirectory(p.clone()));
        }
        let children = self.0.children(p);
        let ghost kids = nodes_view(children@);
        let mut out: Vec<Entry> = Vec::new();
        let mut i: usize = 0;
        while i < children.len()
            invariant
                i <= children.len(),
                kids == nodes_view(children@),
                entries_view(out@) =~= kids.take(i as int).map_values(
                    |n: RealNodeView| node_entry(n),
                ),
            decreases children.len() - i,
        {
            let n = &children[i];
            assert(kids[i as int] == n@);
            let e = Entry::new(
                n.path().clone(),
                true,
                n.kind() == Kind::Directory,
                n.kind() == Kind::File,
            );
            let ghost before = out@;
            out.push(e);
            assert(entries_view(out@) =~= entries_view(before).push(e@));
            i += 1;
        }
        assert(kids.take(children.len() as int) =~= kids);
        Ok(out)
    }

    fn depth_bound(&self) -> (n: usize) {
        self.0.max_depth()
    }
}

impl WriteableFileSystem for FileSystemAdapter<RealFileSystem> {
    open spec fn write_wf(v: Seq<RealNodeView>) -> bool {
        real_wf(v)
    }

    open spec fn create_empty_directory_view(v: Seq<RealNodeView>, p: PathView) -> RealStep {
        real_create_empty_directory_view(v, p)
    }

    open spec fn create_empty_file_view(v: Seq<RealNodeView>, p: PathView) -> RealStep {
        real_create_empty_file_view(v, p)
    }

    open spec fn copy_file_to_file_view(v: Seq<RealNodeView>, src: PathView, dst: PathView) -> RealStep {
        real_copy_file_to_file_view(v, src, dst)
    }

    open spec fn move_file_to_file_view(v: Seq<RealNodeView>, src: PathView, dst: PathView) -> RealStep {
        real_move_file_to_file_view(v, src, dst)
    }

    open spec fn bind_directory_to_directory_view(
        v: Seq<RealNodeView>,
        src: PathView,
        dst: PathView,
    ) -> RealStep {
        real_bind_directory_to_directory_view(v, src, dst)
    }

    open spec fn remove_file_view(v: Seq<RealNodeView>, p: PathView) -> RealStep {
        real_remove_file_view(v, p)
    }

    open spec fn remove_empty_directory_view(v: Seq<RealNodeView>, p: PathView) -> RealStep {
        real_remove_empty_directory_view(v, p)
    }

    fn create_empty_directory(&mut self, p: &FsPath) -> (r: Result<(), InfrastructureError>) {
        if let Err(e) = self.safe_parent(p) {
            return Err(e);
        }
        if self.0.exists_path(p) {
            return Err(InfrastructureErrorOf::Io(IoErrorKind::AlreadyExists));
        }
        if !p.is_absolute() {
            return Err(InfrastructureErrorOf::Io(IoErrorKind::NotFound));
        }
        proof {
            lemma_node_lookup_none(self@, p@);
            if node_lookup(self@, p@) is Some {
                lemma_node_lookup_some(self@, p@);
                let i = choose|i: int|
                    0 <= i < self@.len() && self@[i].path == p@ && node_lookup(self@, p@) == Some(
                        self@[i],
                    );
                assert(self@[i].kind == Kind::File || self@[i].kind == Kind::Directory);
            }
            if p@.components.len() == 0 {
                assert(p@.components =~= root_view().components);
            }
            lemma_is_dir_node(self@, parent_or_root_view(p@));
        }
        self.0.push_node(RealNode::new(p.clone(), Kind::Directory, 0));
        Ok(())
    }

    fn create_empty_file(&mut self, p: &FsPath) -> (r: Result<(), InfrastructureError>) {
        if let Err(e) = self.safe_parent(p) {
            return Err(e);
        }
        self.write_file(p, 0)
    }

    fn copy_file_to_file(&mut self, src: &FsPath, dst: &FsPath) -> (r: Result<
        (),
        InfrastructureError,
    >) {
        if let Err(e) = self.safe_file_translation(src, dst) {
            return Err(e);
        }
        let size = if src.same(dst) {
            0
        } else {
            self.0.size(src)
        };
        self.write_file(dst, size)
    }

    fn move_file_to_file(&mut self, src: &FsPath, dst: &FsPath) -> (r: Result<
        (),
        InfrastructureError,
    >) {
        if let Err(e) = self.safe_file_translation(src, dst) {
            return Err(e);
        }
        if src.same(dst) {
            return Ok(());
        }
        if !dst.is_absolute() {
            return Err(InfrastructureErrorOf::Io(IoErrorKind::NotFound));
        }
        let size = self.0.size(src);
        let ghost s = self@;
        self.0.remove_node(src);
        proof {
            assert(real_safe_parent_view(s, dst@) is Ok);
            lemma_safe_parent_after_remove(s, src@, dst@);
        }
        self.write_file(dst, size)
    }

    fn bind_directory_to_directory(&mut self, src: &FsPath, dst: &FsPath) -> (r: Result<
        (),
        InfrastructureError,
    >) {
        if let Err(e) = self.safe_parent(dst) {
            return Err(e);
        }
        if !self.0.exists_path(src) {
            return Err(InfrastructureErrorOf::SourceDoesNotExists(src.clone()));
        }
        if self.0.exists_path(dst) {
            return Err(InfrastructureErrorOf::DestinationAlreadyExists(dst.clone()));
        }
        if !self.0.is_dir(src) {
            return Err(InfrastructureErrorOf::SourceIsNotADirectory(src.clone()));
        }
        self.create_empty_directory(dst)
    }

    fn remove_file(&mut self, p: &FsPath) -> (r: Result<(), InfrastructureError>) {
        if !self.0.exists_path(p) {
            return Err(InfrastructureErrorOf::PathDoesNotExists(p.clone()));
        }
        if self.0.is_dir(p) {
            return Err(InfrastructureErrorOf::Io(IoErrorKind::IsADirectory));
        }
        proof {
            if p@ != root_view() {
                lemma_node_lookup_some(self@, p@);
            }
        }
        self.0.remove_node(p);
        Ok(())
    }

    fn remove_empty_directory(&mut self, p: &FsPath) -> (r: Result<(), InfrastructureError>) {
        if !self.0.exists_path(p) {
            return Err(InfrastructureErrorOf::PathDoesNotExists(p.clone()));
        }
        if !self.0.is_dir(p) {
            return Err(InfrastructureErrorOf::Io(IoErrorKind::NotADirectory));
        }
        if p.same(&FsPath::root()) {
            return Err(InfrastructureErrorOf::Io(IoErrorKind::Other));
        }
        if self.0.children(p).len() > 0 {
            return Err(InfrastructureErrorOf::DirectoryIsNotEmpty(p.clone()));
        }
        self.0.remove_node(p);
        Ok(())
    }
}

/// Removing a file keeps the parent of another path a directory.
pub proof fn lemma_safe_parent_after_remove(s: Seq<RealNodeView>, src: PathView, dst: PathView)
    requires
        real_wf(s),
        real_is_file(s, src),
        real_safe_parent_view(s, dst) is Ok,
    ensures
        real_safe_parent_view(s.filter(is_not_node(src)), dst) is Ok,
{
    let t = s.filter(is_not_node(src));
    lemma_filter_nodes(s, is_not_node(src));
    crate::representation::lemma_filter_from(s, is_not_node(src));
    if let Some(q) = parent_view(dst) {
        if q != root_view() {
            lemma_node_lookup_some(s, q);
            let j = choose|j: int| 0 <= j < s.len() && s[j].path == q && node_lookup(s, q) == Some(s[j]);
            lemma_node_lookup_some(s, src);
            crate::representation::lemma_filter_keeps(s, is_not_node(src), j);
            let m = choose|m: int| 0 <= m < t.len() && t[m] == s[j];
            lemma_node_lookup_index(t, q, m);
        }
    }
}

} // verus!
