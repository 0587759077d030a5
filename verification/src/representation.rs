//! The representation of a virtual change set: a delta is a hierarchy that
//! maps parent paths to the virtual children attached under them.

use vstd::prelude::*;

use crate::errors::{RepresentationError, RepresentationErrorOf, RepresentationErrorView};
use crate::kind::Kind;
use crate::path::{
    FsPath, PathView, get_parent_or_root, join_view, nth_ancestor_view, parent_or_root_view,
    parse_view, push_last_view, root_identity, root_view, starts_with_view, strip_prefix_view,
};

verus! {

/// The value of a virtual path: its identity, the real path its content
/// comes from if any, and its kind.
pub struct VirtualPathView {
    pub identity: PathView,
    pub source: Option<PathView>,
    pub kind: Kind,
}

pub open spec fn opt_path_view(o: Option<FsPath>) -> Option<PathView> {
    match o {
        Some(p) => Some(p@),
        None => None,
    }
}

pub open spec fn opt_ref_path_view(o: Option<&FsPath>) -> Option<PathView> {
    match o {
        Some(p) => Some(p@),
        None => None,
    }
}

/// A node of a virtual file system: where it stands, where its content comes
/// from, and what it is.
#[derive(Debug)]
pub struct VirtualPath {
    identity: FsPath,
    source: Option<FsPath>,
    kind: Kind,
}

impl View for VirtualPath {
    type V = VirtualPathView;

    closed spec fn view(&self) -> VirtualPathView {
        VirtualPathView {
            identity: self.identity@,
            source: opt_path_view(self.source),
            kind: self.kind,
        }
    }
}

fn clone_opt_path(o: &Option<FsPath>) -> (r: Option<FsPath>)
    ensures
        opt_path_view(r) == opt_path_view(*o),
{
    match o {
        Some(p) => Some(p.clone()),
        None => None,
    }
}

fn clone_opt_ref_path(o: Option<&FsPath>) -> (r: Option<FsPath>)
    ensures
        opt_path_view(r) == opt_ref_path_view(o),
{
    match o {
        Some(p) => Some(p.clone()),
        None => None,
    }
}

impl Clone for VirtualPath {
    fn clone(&self) -> (res: Self)
        ensures
            res@ == self@,
    {
        VirtualPath {
            identity: self.identity.clone(),
            source: clone_opt_path(&self.source),
            kind: self.kind,
        }
    }
}

pub open spec fn from_view(identity: PathView, source: Option<PathView>, kind: Kind) -> Result<
    VirtualPathView,
    RepresentationErrorView,
> {
    if identity.absolute {
        Ok(VirtualPathView { identity, source, kind })
    } else {
        Err(RepresentationErrorOf::IsRelativePath(identity))
    }
}

pub open spec fn vp_result_view(r: Result<VirtualPath, RepresentationError>) -> Result<
    VirtualPathView,
    RepresentationErrorView,
> {
    match r {
        Ok(v) => Ok(v@),
        Err(e) => Err(e@),
    }
}

impl VirtualPath {
    /// A virtual path; only an absolute identity is accepted.
    pub fn from(identity: FsPath, source: Option<FsPath>, kind: Kind) -> (r: Result<
        VirtualPath,
        RepresentationError,
    >)
        ensures
            vp_result_view(r) == from_view(identity@, opt_path_view(source), kind),
    {
        if identity.is_absolute() {
            Ok(VirtualPath { identity, source, kind })
        } else {
            Err(RepresentationErrorOf::IsRelativePath(identity))
        }
    }

    /// The virtual path of `identity`, with no source and an unknown kind.
    pub fn from_path(identity: &FsPath) -> (r: Result<VirtualPath, RepresentationError>)
        ensures
            vp_result_view(r) == from_view(identity@, None, Kind::Unknown),
    {
        VirtualPath::from(identity.clone(), None, Kind::Unknown)
    }

    /// The virtual path that a text denotes.
    pub fn from_str(s: &str) -> (r: Result<VirtualPath, RepresentationError>)
        ensures
            vp_result_view(r) == from_view(parse_view(s@), None, Kind::Unknown),
    {
        VirtualPath::from_path(&FsPath::new(s))
    }

    pub fn with_source(self, source: Option<&FsPath>) -> (r: VirtualPath)
        ensures
            r@ == (VirtualPathView { source: opt_ref_path_view(source), ..self@ }),
    {
        VirtualPath { identity: self.identity, source: clone_opt_ref_path(source), kind: self.kind }
    }

    pub fn with_kind(self, kind: Kind) -> (r: VirtualPath)
        ensures
            r@ == (VirtualPathView { kind, ..self@ }),
    {
        VirtualPath { identity: self.identity, source: self.source, kind }
    }

    pub fn as_identity(&self) -> (r: &FsPath)
        ensures
            r@ == self@.identity,
    {
        &self.identity
    }

    pub fn to_identity(&self) -> (r: FsPath)
        ensures
            r@ == self@.identity,
    {
        self.identity.clone()
    }

    pub fn as_source(&self) -> (r: Option<&FsPath>)
        ensures
            opt_ref_path_view(r) == self@.source,
    {
        match &self.source {
            Some(p) => Some(p),
            None => None,
        }
    }

    pub fn to_source(&self) -> (r: Option<FsPath>)
        ensures
            opt_path_view(r) == self@.source,
    {
        clone_opt_path(&self.source)
    }

    pub fn to_kind(&self) -> (r: Kind)
        ensures
            r == self@.kind,
    {
        self.kind
    }

    /// The same node moved under `parent`: its identity's last component
    /// appended to `parent`.
    pub fn with_new_identity_parent(self, parent: &FsPath) -> (r: VirtualPath)
        requires
            self@.identity.components.len() > 0,
        ensures
            r@ == (VirtualPathView { identity: push_last_view(parent@, self@.identity), ..self@ }),
    {
        let identity = parent.join_last_of(&self.identity);
        VirtualPath { identity, source: self.source, kind: self.kind }
    }

    /// The same node with its content taken under `parent`: its source's
    /// last component appended to `parent`.
    pub fn with_new_source_parent(self, parent: &FsPath) -> (r: VirtualPath)
        requires
            self@.source matches Some(s) && s.components.len() > 0,
        ensures
            r@ == (VirtualPathView {
                source: Some(push_last_view(parent@, self@.source.unwrap())),
                ..self@
            }),
    {
        let source = match &self.source {
            Some(s) => parent.join_last_of(s),
            None => parent.clone(),
        };
        VirtualPath { identity: self.identity, source: Some(source), kind: self.kind }
    }

    /// Whether two virtual paths have the same identity, source and kind.
    pub fn same(&self, other: &VirtualPath) -> (b: bool)
        ensures
            b == (self@ == other@),
    {
        if !self.identity.same(&other.identity) || self.kind != other.kind {
            return false;
        }
        match (&self.source, &other.source) {
            (Some(a), Some(b)) => a.same(b),
            (None, None) => true,
            _ => false,
        }
    }
}

/// The value of a delta: the parent paths of its hierarchy and the virtual
/// children attached under them, in the order they were attached.
#[verifier::ext_equal]
pub struct DeltaView {
    pub keys: Seq<PathView>,
    pub entries: Seq<VirtualPathView>,
}

pub open spec fn empty_delta() -> DeltaView {
    DeltaView { keys: seq![], entries: seq![] }
}

/// The entry whose identity is `p`, the first one if there were several.
pub open spec fn lookup(entries: Seq<VirtualPathView>, p: PathView) -> Option<VirtualPathView>
    decreases entries.len(),
{
    if entries.len() == 0 {
        None
    } else if entries[0].identity == p {
        Some(entries[0])
    } else {
        lookup(entries.drop_first(), p)
    }
}

pub open spec fn has_identity(entries: Seq<VirtualPathView>, p: PathView) -> bool {
    exists|i: int| 0 <= i < entries.len() && entries[i].identity == p
}

pub open spec fn identities_distinct(entries: Seq<VirtualPathView>) -> bool {
    forall|i: int, j: int|
        0 <= i < entries.len() && 0 <= j < entries.len() && i != j ==> entries[i].identity
            != entries[j].identity
}

/// A delta is well formed when its keys are distinct, its entries have
/// distinct absolute identities other than the root, and every entry stands
/// under a key that is its parent.
pub open spec fn delta_wf(d: DeltaView) -> bool {
    &&& d.keys.no_duplicates()
    &&& identities_distinct(d.entries)
    &&& forall|i: int|
        0 <= i < d.entries.len() ==> {
            &&& (#[trigger] d.entries[i]).identity.absolute
            &&& d.entries[i].identity.components.len() > 0
            &&& d.keys.contains(parent_or_root_view(d.entries[i].identity))
        }
}

/// The entry at `p`, as the delta's hierarchy finds it.
pub open spec fn get_view(d: DeltaView, p: PathView) -> Result<
    Option<VirtualPathView>,
    RepresentationErrorView,
> {
    if !d.keys.contains(parent_or_root_view(p)) {
        Ok(None)
    } else if !p.absolute {
        Err(RepresentationErrorOf::IsRelativePath(p))
    } else {
        Ok(lookup(d.entries, p))
    }
}

pub open spec fn is_directory_view(d: DeltaView, p: PathView) -> Result<
    bool,
    RepresentationErrorView,
> {
    if p == root_view() {
        Ok(true)
    } else {
        match get_view(d, p) {
            Err(e) => Err(e),
            Ok(Some(v)) => Ok(v.kind == Kind::Directory),
            Ok(None) => Ok(false),
        }
    }
}

pub open spec fn is_file_view(d: DeltaView, p: PathView) -> Result<bool, RepresentationErrorView> {
    if p == root_view() {
        Ok(false)
    } else {
        match get_view(d, p) {
            Err(e) => Err(e),
            Ok(Some(v)) => Ok(v.kind == Kind::File),
            Ok(None) => Ok(false),
        }
    }
}

pub open spec fn child_of(e: VirtualPathView, parent: PathView) -> bool {
    parent_or_root_view(e.identity) == parent
}

pub open spec fn is_child_of(parent: PathView) -> spec_fn(VirtualPathView) -> bool {
    |e: VirtualPathView| child_of(e, parent)
}

pub open spec fn is_not_child_of(parent: PathView) -> spec_fn(VirtualPathView) -> bool {
    |e: VirtualPathView| !child_of(e, parent)
}

pub open spec fn is_not_identity(p: PathView) -> spec_fn(VirtualPathView) -> bool {
    |e: VirtualPathView| e.identity != p
}

pub open spec fn is_not_key(p: PathView) -> spec_fn(PathView) -> bool {
    |k: PathView| k != p
}

/// The children attached under `parent`, if it is a key.
pub open spec fn children_view(d: DeltaView, parent: PathView) -> Option<Seq<VirtualPathView>> {
    if d.keys.contains(parent) {
        Some(d.entries.filter(is_child_of(parent)))
    } else {
        None
    }
}

pub open spec fn is_directory_empty_view(d: DeltaView, p: PathView) -> bool {
    match children_view(d, p) {
        Some(c) => c.len() == 0,
        None => true,
    }
}

pub open spec fn bool_result_view(r: Result<bool, RepresentationError>) -> Result<
    bool,
    RepresentationErrorView,
> {
    match r {
        Ok(b) => Ok(b),
        Err(e) => Err(e@),
    }
}

pub open spec fn unit_result_view(r: Result<(), RepresentationError>) -> Result<
    (),
    RepresentationErrorView,
> {
    match r {
        Ok(()) => Ok(()),
        Err(e) => Err(e@),
    }
}

/// Attaching a node: refused when it is already there; its parent becomes a
/// key; refused when the parent is a file; the root only becomes a key.
pub open spec fn attach_view(d: DeltaView, identity: PathView, source: Option<PathView>, kind: Kind) -> (
    DeltaView,
    Result<(), RepresentationErrorView>,
) {
    match get_view(d, identity) {
        Err(e) => (d, Err(e)),
        Ok(Some(_)) => (d, Err(RepresentationErrorOf::AlreadyExists(identity))),
        Ok(None) => {
            let parent = parent_or_root_view(identity);
            let d1 = if d.keys.contains(parent) {
                d
            } else {
                DeltaView { keys: d.keys.push(parent), entries: d.entries }
            };
            match is_file_view(d1, parent) {
                Err(e) => (d1, Err(e)),
                Ok(true) => (d1, Err(RepresentationErrorOf::VirtualParentIsAFile(identity))),
                Ok(false) => {
                    if identity == root_view() {
                        (d1, Ok(()))
                    } else if !identity.absolute {
                        (d1, Err(RepresentationErrorOf::IsRelativePath(identity)))
                    } else {
                        (
                            DeltaView {
                                keys: d1.keys,
                                entries: d1.entries.push(
                                    VirtualPathView { identity, source, kind },
                                ),
                            },
                            Ok(()),
                        )
                    }
                },
            }
        },
    }
}

/// Detaching a node: refused when it is not there; its parent stops being a
/// key once it has no children left; the node stops being a key, and the
/// children attached under it go with it.
pub open spec fn detach_view(d: DeltaView, identity: PathView) -> (
    DeltaView,
    Result<(), RepresentationErrorView>,
) {
    match get_view(d, identity) {
        Err(e) => (d, Err(e)),
        Ok(None) => (d, Err(RepresentationErrorOf::DoesNotExists(identity))),
        Ok(Some(_)) => {
            let parent = parent_or_root_view(identity);
            let d1 = DeltaView {
                keys: d.keys,
                entries: d.entries.filter(is_not_identity(identity)),
            };
            let d2 = if is_directory_empty_view(d1, parent) {
                DeltaView { keys: d1.keys.filter(is_not_key(parent)), entries: d1.entries }
            } else {
                d1
            };
            let d3 = if d2.keys.contains(identity) {
                DeltaView {
                    keys: d2.keys.filter(is_not_key(identity)),
                    entries: d2.entries.filter(is_not_child_of(identity)),
                }
            } else {
                d2
            };
            (d3, Ok(()))
        },
    }
}


/// The collection after `v` is inserted: unchanged when a node with the same
/// identity is already there.
pub open spec fn insert_view(c: Seq<VirtualPathView>, v: VirtualPathView) -> Seq<VirtualPathView> {
    if has_identity(c, v.identity) {
        c
    } else {
        c.push(v)
    }
}

/// The first ancestor of `p`, from `p` itself up, found at or above `i`
/// steps, with its distance.
pub open spec fn first_virtual_ancestor_from(d: DeltaView, p: PathView, i: nat) -> Result<
    Option<(nat, VirtualPathView)>,
    RepresentationErrorView,
>
    decreases p.components.len() + 1 - i,
{
    if i > p.components.len() {
        Ok(None)
    } else {
        match get_view(d, nth_ancestor_view(p, i)) {
            Err(e) => Err(e),
            Ok(Some(v)) => Ok(Some((i, v))),
            Ok(None) => first_virtual_ancestor_from(d, p, i + 1),
        }
    }
}

/// The nearest attached node among `p` and its ancestors, with its distance.
pub open spec fn first_virtual_ancestor_view(d: DeltaView, p: PathView) -> Result<
    Option<(nat, VirtualPathView)>,
    RepresentationErrorView,
> {
    first_virtual_ancestor_from(d, p, 0)
}

pub open spec fn is_virtual_view(d: DeltaView, p: PathView) -> Result<bool, RepresentationErrorView> {
    match first_virtual_ancestor_view(d, p) {
        Err(e) => Err(e),
        Ok(o) => Ok(o is Some),
    }
}

/// The real path that `p` stands for: the source of its nearest attached
/// ancestor, followed by the rest of `p` below that ancestor.
pub open spec fn resolve_view(d: DeltaView, p: PathView) -> Result<
    Option<PathView>,
    RepresentationErrorView,
> {
    match first_virtual_ancestor_view(d, p) {
        Err(e) => Err(e),
        Ok(None) => Ok(None),
        Ok(Some((depth, ancestor))) => match ancestor.source {
            Some(source) => Ok(
                Some(
                    join_view(
                        source,
                        PathView {
                            absolute: false,
                            components: p.components.skip(p.components.len() - depth),
                        },
                    ),
                ),
            ),
            None => Ok(None),
        },
    }
}


/// Detaching keeps a delta well formed.
pub proof fn lemma_detach_wf(d: DeltaView, identity: PathView)
    requires
        delta_wf(d),
    ensures
        delta_wf(detach_view(d, identity).0),
{
    if let Ok(Some(_)) = get_view(d, identity) {
        let parent = parent_or_root_view(identity);
        let d1 = DeltaView { keys: d.keys, entries: d.entries.filter(is_not_identity(identity)) };
        lemma_filter_from(d.entries, is_not_identity(identity));
        lemma_filter_identities(d.entries, is_not_identity(identity));
        assert forall|i: int| 0 <= i < d1.entries.len() implies {
            &&& (#[trigger] d1.entries[i]).identity.absolute
            &&& d1.entries[i].identity.components.len() > 0
            &&& d1.keys.contains(parent_or_root_view(d1.entries[i].identity))
        } by {
            assert(d.entries.contains(d1.entries[i]));
            let k = choose|k: int| 0 <= k < d.entries.len() && d.entries[k] == d1.entries[i];
        }
        assert(delta_wf(d1));
        let d2 = if is_directory_empty_view(d1, parent) {
            DeltaView { keys: d1.keys.filter(is_not_key(parent)), entries: d1.entries }
        } else {
            d1
        };
        if is_directory_empty_view(d1, parent) {
            lemma_filter_from(d1.keys, is_not_key(parent));
            lemma_filter_no_dup(d1.keys, is_not_key(parent));
            assert forall|i: int| 0 <= i < d2.entries.len() implies d2.keys.contains(
                parent_or_root_view(#[trigger] d2.entries[i].identity),
            ) by {
                let pk = parent_or_root_view(d1.entries[i].identity);
                assert(d1.keys.contains(pk));
                if pk == parent {
                    lemma_filter_keeps(d1.entries, is_child_of(parent), i);
                }
                let m = choose|m: int| 0 <= m < d1.keys.len() && d1.keys[m] == pk;
                lemma_filter_keeps(d1.keys, is_not_key(parent), m);
            }
        }
        assert(delta_wf(d2));
        if d2.keys.contains(identity) {
            let d3 = DeltaView {
                keys: d2.keys.filter(is_not_key(identity)),
                entries: d2.entries.filter(is_not_child_of(identity)),
            };
            lemma_filter_from(d2.keys, is_not_key(identity));
            lemma_filter_no_dup(d2.keys, is_not_key(identity));
            lemma_filter_from(d2.entries, is_not_child_of(identity));
            lemma_filter_identities(d2.entries, is_not_child_of(identity));
            assert forall|i: int| 0 <= i < d3.entries.len() implies {
                &&& (#[trigger] d3.entries[i]).identity.absolute
                &&& d3.entries[i].identity.components.len() > 0
                &&& d3.keys.contains(parent_or_root_view(d3.entries[i].identity))
            } by {
                assert(d2.entries.contains(d3.entries[i]));
                let k = choose|k: int| 0 <= k < d2.entries.len() && d2.entries[k] == d3.entries[i];
                let pk = parent_or_root_view(d3.entries[i].identity);
                let m = choose|m: int| 0 <= m < d2.keys.len() && d2.keys[m] == pk;
                lemma_filter_keeps(d2.keys, is_not_key(identity), m);
            }
            assert(delta_wf(d3));
        }
    }
}

pub proof fn lemma_fva_depth(d: DeltaView, p: PathView, i: nat)
    ensures
        first_virtual_ancestor_from(d, p, i) matches Ok(Some((k, v))) ==> k <= p.components.len(),
    decreases p.components.len() + 1 - i,
{
    if i <= p.components.len() {
        lemma_fva_depth(d, p, i + 1);
    }
}


pub open spec fn depth_of(e: VirtualPathView) -> nat {
    e.identity.components.len()
}

pub open spec fn at_depth(k: nat) -> spec_fn(VirtualPathView) -> bool {
    |e: VirtualPathView| depth_of(e) == k
}

/// The greatest depth of the identities.
pub open spec fn max_depth(s: Seq<VirtualPathView>) -> nat
    decreases s.len(),
{
    if s.len() == 0 {
        0
    } else {
        let m = max_depth(s.drop_last());
        if depth_of(s.last()) > m {
            depth_of(s.last())
        } else {
            m
        }
    }
}

/// The nodes of depth below `k`, the shallower first, in their order within
/// a depth.
pub open spec fn levels(s: Seq<VirtualPathView>, k: nat) -> Seq<VirtualPathView>
    decreases k,
{
    if k == 0 {
        seq![]
    } else {
        levels(s, (k - 1) as nat) + s.filter(at_depth((k - 1) as nat))
    }
}

/// The nodes ordered by depth: a node comes after its ancestors.
pub open spec fn depth_order(s: Seq<VirtualPathView>) -> Seq<VirtualPathView> {
    levels(s, max_depth(s) + 1)
}

pub type StepResult = (DeltaView, Result<(), RepresentationErrorView>);

/// The steps run one after the other over `items`, stopping at the first
/// error.
pub open spec fn fold_steps(
    r: DeltaView,
    items: Seq<VirtualPathView>,
    step: spec_fn(DeltaView, VirtualPathView) -> StepResult,
) -> StepResult
    decreases items.len(),
{
    if items.len() == 0 {
        (r, Ok(()))
    } else {
        let prev = fold_steps(r, items.drop_last(), step);
        if prev.1 is Err {
            prev
        } else {
            step(prev.0, items.last())
        }
    }
}

/// Subtracting one node: detached when it is there.
pub open spec fn subtract_step() -> spec_fn(DeltaView, VirtualPathView) -> StepResult {
    |r: DeltaView, item: VirtualPathView|
        match get_view(r, item.identity) {
            Err(e) => (r, Err(e)),
            Ok(Some(_)) => detach_view(r, item.identity),
            Ok(None) => (r, Ok(())),
        }
}

/// Adding one node of `right`: a node at its identity is detached first,
/// then it is attached.
pub open spec fn add_step(right: DeltaView) -> spec_fn(DeltaView, VirtualPathView) -> StepResult {
    |r: DeltaView, item: VirtualPathView|
        match get_view(right, item.identity) {
            Err(e) => (r, Err(e)),
            Ok(None) => (r, Ok(())),
            Ok(Some(_)) => match get_view(r, item.identity) {
                Err(e) => (r, Err(e)),
                Ok(Some(_)) => {
                    let detached = detach_view(r, item.identity);
                    if detached.1 is Err {
                        detached
                    } else {
                        attach_view(detached.0, item.identity, item.source, item.kind)
                    }
                },
                Ok(None) => attach_view(r, item.identity, item.source, item.kind),
            },
        }
}

pub open spec fn delta_result(x: StepResult) -> Result<DeltaView, RepresentationErrorView> {
    match x.1 {
        Ok(()) => Ok(x.0),
        Err(e) => Err(e),
    }
}

/// Whether `p` lies strictly below `base`.
pub open spec fn strictly_below(p: PathView, base: PathView) -> bool {
    starts_with_view(p, base) && p.components.len() > base.components.len()
}

pub open spec fn below(base: PathView) -> spec_fn(VirtualPathView) -> bool {
    |e: VirtualPathView| strictly_below(e.identity, base)
}

/// `p` moved from below `from` to below `to`.
pub open spec fn rebase_view(p: PathView, from: PathView, to: PathView) -> PathView {
    join_view(
        to,
        PathView { absolute: false, components: p.components.skip(from.components.len() as int) },
    )
}

/// Attaching the copy, below `to`, of a node below `from`.
pub open spec fn carry_step(from: PathView, to: PathView) -> spec_fn(DeltaView, VirtualPathView) -> StepResult {
    |r: DeltaView, item: VirtualPathView|
        attach_view(r, rebase_view(item.identity, from, to), item.source, item.kind)
}

/// `d` with a copy below `to` of each of its nodes below `from`, in the
/// order of the delta.
pub open spec fn carry_view(d: DeltaView, from: PathView, to: PathView) -> StepResult {
    fold_steps(d, d.entries.filter(below(from)), carry_step(from, to))
}

/// `left` with every node of `right` detached, shallower nodes first.
pub open spec fn sub_view(left: DeltaView, right: DeltaView) -> Result<
    DeltaView,
    RepresentationErrorView,
> {
    delta_result(fold_steps(left, depth_order(right.entries), subtract_step()))
}

/// `left` with every node of `right` attached in place of what was there,
/// shallower nodes first.
pub open spec fn add_view(left: DeltaView, right: DeltaView) -> Result<
    DeltaView,
    RepresentationErrorView,
> {
    delta_result(fold_steps(left, depth_order(right.entries), add_step(right)))
}

pub proof fn lemma_fold_push(
    r: DeltaView,
    items: Seq<VirtualPathView>,
    x: VirtualPathView,
    step: spec_fn(DeltaView, VirtualPathView) -> StepResult,
)
    ensures
        fold_steps(r, items.push(x), step) == (if fold_steps(r, items, step).1 is Err {
            fold_steps(r, items, step)
        } else {
            step(fold_steps(r, items, step).0, x)
        }),
{
    assert(items.push(x).drop_last() =~= items);
}

pub proof fn lemma_fold_err(
    r: DeltaView,
    items: Seq<VirtualPathView>,
    more: Seq<VirtualPathView>,
    step: spec_fn(DeltaView, VirtualPathView) -> StepResult,
)
    requires
        fold_steps(r, items, step).1 is Err,
    ensures
        fold_steps(r, items + more, step) == fold_steps(r, items, step),
    decreases more.len(),
{
    if more.len() > 0 {
        lemma_fold_err(r, items, more.drop_last(), step);
        assert((items + more).drop_last() =~= items + more.drop_last());
    } else {
        assert(items + more =~= items);
    }
}

pub proof fn lemma_max_depth(s: Seq<VirtualPathView>)
    ensures
        forall|i: int| 0 <= i < s.len() ==> depth_of(#[trigger] s[i]) <= max_depth(s),
    decreases s.len(),
{
    if s.len() > 0 {
        lemma_max_depth(s.drop_last());
        assert forall|i: int| 0 <= i < s.len() implies depth_of(#[trigger] s[i]) <= max_depth(
            s,
        ) by {
            if i < s.len() - 1 {
                assert(s[i] == s.drop_last()[i]);
            }
        }
    }
}



/// The collection after `v` and, within `fuel` levels, the nodes attached
/// below it are inserted.
pub open spec fn walk_from(d: DeltaView, c: Seq<VirtualPathView>, v: VirtualPathView, fuel: nat) -> Seq<
    VirtualPathView,
>
    decreases fuel, 0nat,
{
    let c1 = insert_view(c, v);
    if fuel == 0 {
        c1
    } else {
        match children_view(d, v.identity) {
            Some(kids) => walk_children(d, c1, kids, (fuel - 1) as nat),
            None => c1,
        }
    }
}

pub open spec fn walk_children(
    d: DeltaView,
    c: Seq<VirtualPathView>,
    kids: Seq<VirtualPathView>,
    fuel: nat,
) -> Seq<VirtualPathView>
    decreases fuel, kids.len() + 1,
{
    if kids.len() == 0 {
        c
    } else {
        walk_from(d, walk_children(d, c, kids.drop_last(), fuel), kids.last(), fuel)
    }
}

/// Walking the directory `identity`: it and the nodes attached below it are
/// inserted into the collection.
pub open spec fn walk_view(d: DeltaView, c: Seq<VirtualPathView>, identity: PathView) -> (
    Seq<VirtualPathView>,
    Result<(), RepresentationErrorView>,
) {
    match get_view(d, identity) {
        Err(e) => (c, Err(e)),
        Ok(None) => (c, Err(RepresentationErrorOf::DoesNotExists(identity))),
        Ok(Some(v)) => match is_directory_view(d, identity) {
            Err(e) => (c, Err(e)),
            Ok(false) => (c, Err(RepresentationErrorOf::IsNotADirectory(identity))),
            Ok(true) => (walk_from(d, c, v, d.entries.len()), Ok(())),
        },
    }
}

pub open spec fn attach_step() -> spec_fn(DeltaView, VirtualPathView) -> StepResult {
    |r: DeltaView, item: VirtualPathView| attach_view(r, item.identity, item.source, item.kind)
}

/// The delta made of the nodes of a collection, attached in order.
pub open spec fn into_delta_view(c: Seq<VirtualPathView>) -> Result<
    DeltaView,
    RepresentationErrorView,
> {
    delta_result(fold_steps(empty_delta(), c, attach_step()))
}

/// The delta made of the directory `identity` and the nodes attached below
/// it, when it is attached.
pub open spec fn sub_delta_view(d: DeltaView, identity: PathView) -> Result<
    Option<DeltaView>,
    RepresentationErrorView,
> {
    match get_view(d, identity) {
        Err(e) => Err(e),
        Ok(None) => Ok(None),
        Ok(Some(_)) => {
            let w = walk_view(d, seq![], identity);
            match w.1 {
                Err(e) => Err(e),
                Ok(()) => match into_delta_view(w.0) {
                    Err(e) => Err(e),
                    Ok(x) => Ok(Some(x)),
                },
            }
        },
    }
}

pub proof fn lemma_lookup_none(entries: Seq<VirtualPathView>, p: PathView)
    ensures
        lookup(entries, p) is None <==> !has_identity(entries, p),
    decreases entries.len(),
{
    if entries.len() > 0 {
        lemma_lookup_none(entries.drop_first(), p);
        if has_identity(entries, p) && entries[0].identity != p {
            let i = choose|i: int| 0 <= i < entries.len() && entries[i].identity == p;
            assert(entries.drop_first()[i - 1].identity == p);
        }
        if has_identity(entries.drop_first(), p) {
            let i = choose|i: int|
                0 <= i < entries.drop_first().len() && entries.drop_first()[i].identity == p;
            assert(entries[i + 1].identity == p);
        }
    }
}

pub proof fn lemma_lookup_index(entries: Seq<VirtualPathView>, p: PathView, i: int)
    requires
        identities_distinct(entries),
        0 <= i < entries.len(),
        entries[i].identity == p,
    ensures
        lookup(entries, p) == Some(entries[i]),
    decreases entries.len(),
{
    if i > 0 {
        assert(entries[0].identity != p);
        lemma_lookup_index(entries.drop_first(), p, i - 1);
    }
}

pub proof fn lemma_lookup_some(entries: Seq<VirtualPathView>, p: PathView)
    requires
        lookup(entries, p) is Some,
    ensures
        exists|i: int|
            0 <= i < entries.len() && entries[i].identity == p && lookup(entries, p) == Some(
                entries[i],
            ),
    decreases entries.len(),
{
    if entries[0].identity != p {
        lemma_lookup_some(entries.drop_first(), p);
        let i = choose|i: int|
            0 <= i < entries.drop_first().len() && entries.drop_first()[i].identity == p
                && lookup(entries.drop_first(), p) == Some(entries.drop_first()[i]);
        assert(entries[i + 1] == entries.drop_first()[i]);
    } else {
        assert(entries[0].identity == p);
    }
}


/// What a filter keeps comes from the sequence and meets the predicate.
pub proof fn lemma_filter_from<A>(s: Seq<A>, pred: spec_fn(A) -> bool)
    ensures
        forall|i: int|
            0 <= i < s.filter(pred).len() ==> pred(#[trigger] s.filter(pred)[i]) && s.contains(
                s.filter(pred)[i],
            ),
{
    assert forall|i: int| 0 <= i < s.filter(pred).len() implies pred(
        #[trigger] s.filter(pred)[i],
    ) && s.contains(s.filter(pred)[i]) by {
        s.lemma_filter_pred(pred, i);
        assert(s.filter(pred).contains(s.filter(pred)[i]));
        s.lemma_filter_contains_rev(pred, s.filter(pred)[i]);
    }
}

/// A filter keeps distinct values distinct.
pub proof fn lemma_filter_no_dup<A>(s: Seq<A>, pred: spec_fn(A) -> bool)
    requires
        s.no_duplicates(),
    ensures
        s.filter(pred).no_duplicates(),
    decreases s.len(),
{
    reveal(Seq::filter);
    if s.len() > 0 {
        let r = s.drop_last();
        assert(r.no_duplicates());
        lemma_filter_no_dup(r, pred);
        lemma_filter_from(r, pred);
        let f = r.filter(pred);
        if pred(s.last()) {
            assert forall|i: int| 0 <= i < f.len() implies f[i] != s.last() by {
                assert(r.contains(f[i]));
                let k = choose|k: int| 0 <= k < r.len() && r[k] == f[i];
                assert(s[k] == r[k]);
            }
            assert forall|i: int, j: int|
                0 <= i < f.push(s.last()).len() && 0 <= j < f.push(s.last()).len() && i != j
                implies f.push(s.last())[i] != f.push(s.last())[j] by {
                if i < f.len() && j < f.len() {
                } else if i < f.len() {
                    assert(f[i] != s.last());
                } else if j < f.len() {
                    assert(f[j] != s.last());
                }
            }
        }
    }
}

/// A filter keeps identities distinct.
pub proof fn lemma_filter_identities(s: Seq<VirtualPathView>, pred: spec_fn(VirtualPathView) -> bool)
    requires
        identities_distinct(s),
    ensures
        identities_distinct(s.filter(pred)),
    decreases s.len(),
{
    reveal(Seq::filter);
    if s.len() > 0 {
        let r = s.drop_last();
        assert(identities_distinct(r));
        lemma_filter_identities(r, pred);
        lemma_filter_from(r, pred);
        let f = r.filter(pred);
        if pred(s.last()) {
            assert forall|i: int| 0 <= i < f.len() implies f[i].identity != s.last().identity by {
                assert(r.contains(f[i]));
                let k = choose|k: int| 0 <= k < r.len() && r[k] == f[i];
                assert(s[k] == r[k]);
            }
            assert forall|i: int, j: int|
                0 <= i < f.push(s.last()).len() && 0 <= j < f.push(s.last()).len() && i != j
                implies f.push(s.last())[i].identity != f.push(s.last())[j].identity by {
                if i < f.len() && j < f.len() {
                } else if i < f.len() {
                    assert(f[i].identity != s.last().identity);
                } else if j < f.len() {
                    assert(f[j].identity != s.last().identity);
                }
            }
        }
    }
}

/// A step of a filter built one element at a time.
pub proof fn lemma_filter_step<A>(s: Seq<A>, pred: spec_fn(A) -> bool, i: int)
    requires
        0 <= i < s.len(),
    ensures
        s.take(i + 1).filter(pred) == (if pred(s[i]) {
            s.take(i).filter(pred).push(s[i])
        } else {
            s.take(i).filter(pred)
        }),
{
    reveal(Seq::filter);
    assert(s.take(i + 1).drop_last() =~= s.take(i));
    assert(s.take(i + 1).last() == s[i]);
}

/// A filter that keeps nothing of a sequence whose elements all fail.
pub proof fn lemma_filter_none<A>(s: Seq<A>, pred: spec_fn(A) -> bool)
    requires
        forall|i: int| 0 <= i < s.len() ==> !pred(s[i]),
    ensures
        s.filter(pred).len() == 0,
{
    assert(s.all(|x: A| !pred(x)));
    s.lemma_all_neg_filter_empty(pred);
}

/// A filter keeps every element that passes.
pub proof fn lemma_filter_keeps<A>(s: Seq<A>, pred: spec_fn(A) -> bool, i: int)
    requires
        0 <= i < s.len(),
        pred(s[i]),
    ensures
        s.filter(pred).contains(s[i]),
        s.filter(pred).len() > 0,
{
    broadcast use vstd::seq_lib::group_filter_ensures;
    assert(s.filter(pred).contains(s[i]));
}

pub open spec fn paths_view(v: Seq<FsPath>) -> Seq<PathView> {
    v.map_values(|p: FsPath| p@)
}

pub open spec fn vps_view(v: Seq<VirtualPath>) -> Seq<VirtualPathView> {
    v.map_values(|e: VirtualPath| e@)
}


pub open spec fn children_wf(c: Seq<VirtualPathView>) -> bool {
    identities_distinct(c)
}

/// A set of virtual nodes, at most one per identity.
#[derive(Debug)]
pub struct VirtualChildren {
    items: Vec<VirtualPath>,
}

impl View for VirtualChildren {
    type V = Seq<VirtualPathView>;

    closed spec fn view(&self) -> Seq<VirtualPathView> {
        vps_view(self.items@)
    }
}

impl VirtualChildren {
    pub open spec fn wf(&self) -> bool {
        children_wf(self@)
    }

    /// The empty collection.
    pub fn new() -> (c: VirtualChildren)
        ensures
            c@ == Seq::<VirtualPathView>::empty(),
            c.wf(),
    {
        let c = VirtualChildren { items: Vec::new() };
        assert(c@ =~= Seq::<VirtualPathView>::empty());
        c
    }

    fn find(&self, p: &FsPath) -> (r: Option<usize>)
        ensures
            r matches Some(i) ==> i < self@.len() && self@[i as int].identity == p@,
            r is None ==> !has_identity(self@, p@),
    {
        let mut i: usize = 0;
        while i < self.items.len()
            invariant
                i <= self.items.len(),
                forall|j: int| 0 <= j < i ==> self@[j].identity != p@,
            decreases self.items.len() - i,
        {
            if self.items[i].as_identity().same(p) {
                return Some(i);
            }
            i += 1;
        }
        None
    }

    /// Inserts `v` unless a node with its identity is there; says whether it
    /// was inserted.
    pub fn insert(&mut self, v: VirtualPath) -> (inserted: bool)
        requires
            old(self).wf(),
        ensures
            final(self).wf(),
            final(self)@ == insert_view(old(self)@, v@),
            inserted == !has_identity(old(self)@, v@.identity),
    {
        if self.find(v.as_identity()).is_some() {
            return false;
        }
        let ghost before = self.items@;
        let ghost vv = v@;
        self.items.push(v);
        assert(vps_view(self.items@) =~= vps_view(before).push(vv));
        proof {
            let c = self@;
            assert forall|i: int, j: int|
                0 <= i < c.len() && 0 <= j < c.len() && i != j implies c[i].identity
                != c[j].identity by {
                if i == c.len() - 1 {
                    assert(c[j] == vps_view(before)[j]);
                } else if j == c.len() - 1 {
                    assert(c[i] == vps_view(before)[i]);
                }
            }
        }
        true
    }

    /// The node with the identity of `v`, if there is one.
    pub fn get(&self, v: &VirtualPath) -> (r: Option<&VirtualPath>)
        requires
            self.wf(),
        ensures
            r matches Some(x) ==> lookup(self@, v@.identity) == Some(x@),
            r is None ==> lookup(self@, v@.identity) is None,
    {
        match self.find(v.as_identity()) {
            Some(i) => {
                proof {
                    lemma_lookup_index(self@, v@.identity, i as int);
                }
                Some(&self.items[i])
            },
            None => {
                proof {
                    lemma_lookup_none(self@, v@.identity);
                }
                None
            },
        }
    }

    /// Whether a node with the identity of `v` is there.
    pub fn contains(&self, v: &VirtualPath) -> (b: bool)
        ensures
            b == has_identity(self@, v@.identity),
    {
        self.find(v.as_identity()).is_some()
    }

    pub fn len(&self) -> (n: usize)
        ensures
            n == self@.len(),
    {
        self.items.len()
    }

    pub fn is_empty(&self) -> (b: bool)
        ensures
            b == (self@.len() == 0),
    {
        self.items.len() == 0
    }

    /// The `i`-th node.
    pub fn get_at(&self, i: usize) -> (r: &VirtualPath)
        requires
            i < self@.len(),
        ensures
            r@ == self@[i as int],
    {
        &self.items[i]
    }

    /// The delta made of these nodes, attached in order.
    pub fn into_delta(self) -> (r: Result<VirtualDelta, RepresentationError>)
        ensures
            match r {
                Ok(d) => d.wf() && into_delta_view(self@) == Ok::<
                    DeltaView,
                    RepresentationErrorView,
                >(d@),
                Err(e) => into_delta_view(self@) == Err::<DeltaView, RepresentationErrorView>(
                    e@,
                ),
            },
    {
        let mut d = VirtualDelta::new();
        let mut i: usize = 0;
        while i < self.items.len()
            invariant
                i <= self.items.len(),
                d.wf(),
                fold_steps(empty_delta(), self@.take(i as int), attach_step()) == (
                    d@,
                    Ok::<(), RepresentationErrorView>(()),
                ),
            decreases self.items.len() - i,
        {
            proof {
                lemma_fold_push(empty_delta(), self@.take(i as int), self@[i as int], attach_step());
            }
            assert(self@.take(i + 1) =~= self@.take(i as int).push(self@[i as int]));
            assert(self@[i as int] == self.items@[i as int]@);
            let item = &self.items[i];
            if let Err(e) = d.attach_virtual(item) {
                proof {
                    lemma_fold_err(
                        empty_delta(),
                        self@.take(i + 1),
                        self@.skip(i + 1),
                        attach_step(),
                    );
                    assert(self@.take(i + 1) + self@.skip(i + 1) =~= self@);
                }
                return Err(e);
            }
            i += 1;
        }
        assert(self@.take(self.items.len() as int) =~= self@);
        Ok(d)
    }
}

/// A change set over a file system: the virtual nodes, attached under their
/// parents.
#[derive(Debug)]
pub struct VirtualDelta {
    hierarchy: Vec<FsPath>,
    entries: Vec<VirtualPath>,
}

impl View for VirtualDelta {
    type V = DeltaView;

    closed spec fn view(&self) -> DeltaView {
        DeltaView { keys: paths_view(self.hierarchy@), entries: vps_view(self.entries@) }
    }
}


fn clone_paths(v: &Vec<FsPath>) -> (r: Vec<FsPath>)
    ensures
        paths_view(r@) == paths_view(v@),
{
    let mut r: Vec<FsPath> = Vec::new();
    let mut i: usize = 0;
    while i < v.len()
        invariant
            i <= v.len(),
            paths_view(r@) =~= paths_view(v@).take(i as int),
        decreases v.len() - i,
    {
        let c = v[i].clone();
        let ghost before = r@;
        r.push(c);
        assert(paths_view(r@) =~= paths_view(before).push(c@));
        i += 1;
    }
    assert(paths_view(v@).take(v.len() as int) =~= paths_view(v@));
    r
}

fn clone_vps(v: &Vec<VirtualPath>) -> (r: Vec<VirtualPath>)
    ensures
        vps_view(r@) == vps_view(v@),
{
    let mut r: Vec<VirtualPath> = Vec::new();
    let mut i: usize = 0;
    while i < v.len()
        invariant
            i <= v.len(),
            vps_view(r@) =~= vps_view(v@).take(i as int),
        decreases v.len() - i,
    {
        let c = v[i].clone();
        let ghost before = r@;
        r.push(c);
        assert(vps_view(r@) =~= vps_view(before).push(c@));
        i += 1;
    }
    assert(vps_view(v@).take(v.len() as int) =~= vps_view(v@));
    r
}

impl Clone for VirtualDelta {
    fn clone(&self) -> (res: Self)
        ensures
            res@ == self@,
    {
        VirtualDelta { hierarchy: clone_paths(&self.hierarchy), entries: clone_vps(&self.entries) }
    }
}

impl Default for VirtualDelta {
    fn default() -> (d: Self)
        ensures
            d@ == empty_delta(),
            d.wf(),
    {
        VirtualDelta::new()
    }
}

impl VirtualDelta {
    pub open spec fn wf(&self) -> bool {
        delta_wf(self@)
    }

    /// The empty delta.
    pub fn new() -> (d: VirtualDelta)
        ensures
            d@ == empty_delta(),
            d.wf(),
    {
        let d = VirtualDelta { hierarchy: Vec::new(), entries: Vec::new() };
        assert(d@.keys =~= seq![]);
        assert(d@.entries =~= seq![]);
        d
    }

    fn find_key(&self, p: &FsPath) -> (r: Option<usize>)
        ensures
            r matches Some(i) ==> i < self@.keys.len() && self@.keys[i as int] == p@,
            r is None ==> !self@.keys.contains(p@),
    {
        let mut i: usize = 0;
        while i < self.hierarchy.len()
            invariant
                i <= self.hierarchy.len(),
                forall|j: int| 0 <= j < i ==> self@.keys[j] != p@,
            decreases self.hierarchy.len() - i,
        {
            if self.hierarchy[i].same(p) {
                return Some(i);
            }
            i += 1;
        }
        None
    }

    fn find_entry(&self, p: &FsPath) -> (r: Option<usize>)
        ensures
            r matches Some(i) ==> i < self@.entries.len() && self@.entries[i as int].identity
                == p@,
            r is None ==> !has_identity(self@.entries, p@),
    {
        let mut i: usize = 0;
        while i < self.entries.len()
            invariant
                i <= self.entries.len(),
                forall|j: int| 0 <= j < i ==> self@.entries[j].identity != p@,
            decreases self.entries.len() - i,
        {
            if self.entries[i].as_identity().same(p) {
                return Some(i);
            }
            i += 1;
        }
        None
    }

    /// The node at `identity`, if it is attached.
    pub fn get(&self, identity: &FsPath) -> (r: Result<Option<&VirtualPath>, RepresentationError>)
        requires
            self.wf(),
        ensures
            match r {
                Ok(Some(v)) => get_view(self@, identity@) == Ok::<
                    Option<VirtualPathView>,
                    RepresentationErrorView,
                >(Some(v@)),
                Ok(None) => get_view(self@, identity@) == Ok::<
                    Option<VirtualPathView>,
                    RepresentationErrorView,
                >(None),
                Err(e) => get_view(self@, identity@) == Err::<
                    Option<VirtualPathView>,
                    RepresentationErrorView,
                >(e@),
            },
    {
        let parent = get_parent_or_root(identity);
        if self.find_key(&parent).is_none() {
            return Ok(None);
        }
        if !identity.is_absolute() {
            return Err(RepresentationErrorOf::IsRelativePath(identity.clone()));
        }
        match self.find_entry(identity) {
            Some(i) => {
                proof {
                    lemma_lookup_index(self@.entries, identity@, i as int);
                }
                Ok(Some(&self.entries[i]))
            },
            None => {
                proof {
                    lemma_lookup_none(self@.entries, identity@);
                }
                Ok(None)
            },
        }
    }

    fn remove_identity(&mut self, p: &FsPath)
        ensures
            final(self)@ == (DeltaView {
                keys: old(self)@.keys,
                entries: old(self)@.entries.filter(is_not_identity(p@)),
            }),
    {
        let ghost pred = is_not_identity(p@);
        let mut kept: Vec<VirtualPath> = Vec::new();
        let mut i: usize = 0;
        while i < self.entries.len()
            invariant
                i <= self.entries.len(),
                self@ == old(self)@,
                pred == is_not_identity(p@),
                vps_view(kept@) =~= vps_view(self.entries@).take(i as int).filter(pred),
            decreases self.entries.len() - i,
        {
            proof {
                lemma_filter_step(vps_view(self.entries@), pred, i as int);
            }
            assert(vps_view(self.entries@)[i as int] == self.entries@[i as int]@);
            let ghost prev = vps_view(self.entries@).take(i as int).filter(pred);
            if !self.entries[i].as_identity().same(p) {
                let c = self.entries[i].clone();
                let ghost before = kept@;
                kept.push(c);
                assert(pred(vps_view(self.entries@)[i as int]));
                assert(vps_view(kept@) =~= vps_view(before).push(c@));
                assert(vps_view(kept@) =~= prev.push(vps_view(self.entries@)[i as int]));
            } else {
                assert(!pred(vps_view(self.entries@)[i as int]));
            }
            assert(vps_view(kept@) =~= vps_view(self.entries@).take(i + 1).filter(pred));
            i += 1;
        }
        assert(vps_view(self.entries@).take(self.entries.len() as int) =~= vps_view(
            self.entries@,
        ));
        self.entries = kept;
    }

    fn remove_children_of(&mut self, p: &FsPath)
        ensures
            final(self)@ == (DeltaView {
                keys: old(self)@.keys,
                entries: old(self)@.entries.filter(is_not_child_of(p@)),
            }),
    {
        let ghost pred = is_not_child_of(p@);
        let mut kept: Vec<VirtualPath> = Vec::new();
        let mut i: usize = 0;
        while i < self.entries.len()
            invariant
                i <= self.entries.len(),
                self@ == old(self)@,
                pred == is_not_child_of(p@),
                vps_view(kept@) =~= vps_view(self.entries@).take(i as int).filter(pred),
            decreases self.entries.len() - i,
        {
            proof {
                lemma_filter_step(vps_view(self.entries@), pred, i as int);
            }
            assert(vps_view(self.entries@)[i as int] == self.entries@[i as int]@);
            if !get_parent_or_root(self.entries[i].as_identity()).same(p) {
                let c = self.entries[i].clone();
                let ghost before = kept@;
                kept.push(c);
                assert(vps_view(kept@) =~= vps_view(before).push(c@));
            }
            i += 1;
        }
        assert(vps_view(self.entries@).take(self.entries.len() as int) =~= vps_view(
            self.entries@,
        ));
        self.entries = kept;
    }

    fn remove_key(&mut self, p: &FsPath)
        ensures
            final(self)@ == (DeltaView {
                keys: old(self)@.keys.filter(is_not_key(p@)),
                entries: old(self)@.entries,
            }),
    {
        let ghost pred = is_not_key(p@);
        let mut kept: Vec<FsPath> = Vec::new();
        let mut i: usize = 0;
        while i < self.hierarchy.len()
            invariant
                i <= self.hierarchy.len(),
                self@ == old(self)@,
                pred == is_not_key(p@),
                paths_view(kept@) =~= paths_view(self.hierarchy@).take(i as int).filter(pred),
            decreases self.hierarchy.len() - i,
        {
            proof {
                lemma_filter_step(paths_view(self.hierarchy@), pred, i as int);
            }
            assert(paths_view(self.hierarchy@)[i as int] == self.hierarchy@[i as int]@);
            if !self.hierarchy[i].same(p) {
                let c = self.hierarchy[i].clone();
                let ghost before = kept@;
                kept.push(c);
                assert(paths_view(kept@) =~= paths_view(before).push(c@));
            }
            i += 1;
        }
        assert(paths_view(self.hierarchy@).take(self.hierarchy.len() as int) =~= paths_view(
            self.hierarchy@,
        ));
        self.hierarchy = kept;
    }

    /// Whether `identity` has no children: it is not a key, or nothing is
    /// attached under it.
    pub fn is_directory_empty(&self, identity: &FsPath) -> (b: bool)
        ensures
            b == is_directory_empty_view(self@, identity@),
    {
        match self.find_key(identity) {
            None => {
                return true;
            },
            Some(k) => {
                assert(self@.keys.contains(identity@));
            },
        }
        let mut i: usize = 0;
        while i < self.entries.len()
            invariant
                i <= self.entries.len(),
                self@.keys.contains(identity@),
                forall|j: int| 0 <= j < i ==> !child_of(self@.entries[j], identity@),
            decreases self.entries.len() - i,
        {
            if get_parent_or_root(self.entries[i].as_identity()).same(identity) {
                proof {
                    lemma_filter_keeps(self@.entries, is_child_of(identity@), i as int);
                }
                return false;
            }
            i += 1;
        }
        proof {
            lemma_filter_none(self@.entries, is_child_of(identity@));
        }
        true
    }

    /// Whether the hierarchy holds no key.
    pub fn is_empty(&self) -> (b: bool)
        ensures
            b == (self@.keys.len() == 0),
    {
        self.hierarchy.len() == 0
    }

    /// Whether `identity` is the root or an attached directory.
    pub fn is_directory(&self, identity: &FsPath) -> (r: Result<bool, RepresentationError>)
        requires
            self.wf(),
        ensures
            bool_result_view(r) == is_directory_view(self@, identity@),
    {
        if identity.same(&root_identity()) {
            return Ok(true);
        }
        match self.get(identity) {
            Err(e) => Err(e),
            Ok(Some(v)) => Ok(v.to_kind() == Kind::Directory),
            Ok(None) => Ok(false),
        }
    }

    /// Whether `identity` is an attached file.
    pub fn is_file(&self, identity: &FsPath) -> (r: Result<bool, RepresentationError>)
        requires
            self.wf(),
        ensures
            bool_result_view(r) == is_file_view(self@, identity@),
    {
        if identity.same(&root_identity()) {
            return Ok(false);
        }
        match self.get(identity) {
            Err(e) => Err(e),
            Ok(Some(v)) => Ok(v.to_kind() == Kind::File),
            Ok(None) => Ok(false),
        }
    }

    /// Copies below `to` each node below `from`, keeping their sources and
    /// kinds.
    pub fn carry(&mut self, from: &FsPath, to: &FsPath) -> (r: Result<(), RepresentationError>)
        requires
            old(self).wf(),
        ensures
            final(self).wf(),
            (final(self)@, unit_result_view(r)) == carry_view(old(self)@, from@, to@),
    {
        let ghost start = self@;
        let ghost pred = below(from@);
        let mut items: Vec<VirtualPath> = Vec::new();
        let mut i: usize = 0;
        while i < self.entries.len()
            invariant
                i <= self.entries.len(),
                self@ == start,
                pred == below(from@),
                vps_view(items@) =~= vps_view(self.entries@).take(i as int).filter(pred),
            decreases self.entries.len() - i,
        {
            let e = &self.entries[i];
            let ghost before = vps_view(self.entries@).take(i as int);
            assert(vps_view(self.entries@).take(i + 1) =~= before.push(e@));
            assert(before.push(e@).drop_last() =~= before);
            proof {
                reveal(Seq::filter);
            }
            if e.as_identity().starts_with(from) && e.as_identity().depth() > from.depth() {
                items.push(e.clone());
            }
            i += 1;
        }
        assert(vps_view(self.entries@).take(self.entries.len() as int) =~= vps_view(self.entries@));
        assert(vps_view(self.entries@) == start.entries);
        let ghost all = vps_view(items@);
        assert(all == start.entries.filter(below(from@)));
        let ghost step = carry_step(from@, to@);
        let mut k: usize = 0;
        assert(all.take(0) =~= Seq::<VirtualPathView>::empty());
        while k < items.len()
            invariant
                k <= items.len(),
                all == vps_view(items@),
                all == start.entries.filter(below(from@)),
                start == old(self)@,
                step == carry_step(from@, to@),
                self.wf(),
                fold_steps(start, all.take(k as int), step) == (self@, Ok::<(), RepresentationErrorView>(())),
                forall|j: int| 0 <= j < all.len() ==> strictly_below(#[trigger] all[j].identity, from@),
            decreases items.len() - k,
        {
            let item = &items[k];
            assert(all[k as int] == item@);
            assert(all.take(k + 1) =~= all.take(k as int).push(item@));
            proof {
                lemma_fold_push(start, all.take(k as int), item@, step);
            }
            let rest = match item.as_identity().strip_prefix(from) {
                Some(q) => q,
                None => {
                    assert(false);
                    return Ok(());
                },
            };
            let target = to.join(&rest);
            assert(target@ == rebase_view(item@.identity, from@, to@));
            let ghost self_before = self@;
            let src_opt = item.as_source();
            assert(opt_ref_path_view(src_opt) == item@.source);
            assert(step(self_before, item@) == attach_view(
                self_before,
                rebase_view(item@.identity, from@, to@),
                item@.source,
                item@.kind,
            ));
            match self.attach(&target, src_opt, item.to_kind()) {
                Ok(()) => {},
                Err(e) => {
                    proof {
                        assert(fold_steps(start, all.take(k + 1), step) == (self@, Err::<
                            (),
                            RepresentationErrorView,
                        >(e@)));
                        lemma_fold_err(start, all.take(k + 1), all.skip(k + 1), step);
                        assert(all.take(k + 1) + all.skip(k + 1) =~= all);
                    }
                    return Err(e);
                },
            }
            k += 1;
        }
        assert(all.take(items.len() as int) =~= all);
        Ok(())
    }

    /// Attaches a node at `identity`.
    pub fn attach(&mut self, identity: &FsPath, source: Option<&FsPath>, kind: Kind) -> (r: Result<
        (),
        RepresentationError,
    >)
        requires
            old(self).wf(),
        ensures
            final(self).wf(),
            final(self)@ == attach_view(old(self)@, identity@, opt_ref_path_view(source), kind).0,
            unit_result_view(r) == attach_view(
                old(self)@,
                identity@,
                opt_ref_path_view(source),
                kind,
            ).1,
    {
        match self.get(identity) {
            Err(e) => {
                return Err(e);
            },
            Ok(Some(_)) => {
                return Err(RepresentationErrorOf::AlreadyExists(identity.clone()));
            },
            Ok(None) => {},
        }
        let parent = get_parent_or_root(identity);
        let found = self.find_key(&parent);
        if let Some(k) = found {
            assert(self@.keys.contains(parent@));
        }
        if found.is_none() {
            let ghost before = self.hierarchy@;
            self.hierarchy.push(parent.clone());
            assert(paths_view(self.hierarchy@) =~= paths_view(before).push(parent@));
            assert(self@.keys[self@.keys.len() - 1] == parent@);
            proof {
                let d = self@;
                assert forall|i: int, j: int|
                    0 <= i < d.keys.len() && 0 <= j < d.keys.len() && i != j implies d.keys[i]
                    != d.keys[j] by {
                    if i == d.keys.len() - 1 {
                        assert(!old(self)@.keys.contains(parent@));
                        assert(d.keys[j] == old(self)@.keys[j]);
                    } else if j == d.keys.len() - 1 {
                        assert(!old(self)@.keys.contains(parent@));
                        assert(d.keys[i] == old(self)@.keys[i]);
                    }
                }
                assert forall|i: int| 0 <= i < d.entries.len() implies d.keys.contains(
                    parent_or_root_view(d.entries[i].identity),
                ) by {
                    let k = choose|k: int|
                        0 <= k < old(self)@.keys.len() && old(self)@.keys[k]
                            == parent_or_root_view(d.entries[i].identity);
                    assert(d.keys[k] == old(self)@.keys[k]);
                }
            }
        }
        match self.is_file(&parent) {
            Err(e) => {
                return Err(e);
            },
            Ok(true) => {
                return Err(RepresentationErrorOf::VirtualParentIsAFile(identity.clone()));
            },
            Ok(false) => {},
        }
        if identity.same(&root_identity()) {
            return Ok(());
        }
        let v = match VirtualPath::from_path(identity) {
            Err(e) => {
                return Err(e);
            },
            Ok(v) => v,
        };
        let v = v.with_source(source).with_kind(kind);
        proof {
            lemma_lookup_none(self@.entries, identity@);
        }
        let ghost before = self.entries@;
        self.entries.push(v);
        assert(vps_view(self.entries@) =~= vps_view(before).push(v@));
        proof {
            let d = self@;
            assert(d.keys.contains(parent@));
            assert(d.entries[d.entries.len() - 1] == v@);
            assert(v@.identity == identity@);
            assert(identity@.absolute);
            assert(identity@ != root_view());
            assert forall|i: int| 0 <= i < d.entries.len() implies {
                &&& (#[trigger] d.entries[i]).identity.absolute
                &&& d.entries[i].identity.components.len() > 0
                &&& d.keys.contains(parent_or_root_view(d.entries[i].identity))
            } by {
                if i < d.entries.len() - 1 {
                    assert(d.entries[i] == vps_view(before)[i]);
                } else {
                    if identity@.components.len() == 0 {
                        assert(identity@.components =~= root_view().components);
                    }
                }
            }
            assert forall|i: int, j: int|
                0 <= i < d.entries.len() && 0 <= j < d.entries.len() && i != j implies d.entries[i].identity
                != d.entries[j].identity by {
                if i == d.entries.len() - 1 {
                    assert(d.entries[j] == vps_view(before)[j]);
                } else if j == d.entries.len() - 1 {
                    assert(d.entries[i] == vps_view(before)[i]);
                }
            }
        }
        Ok(())
    }

    /// Attaches the node `virtual_path`.
    pub fn attach_virtual(&mut self, virtual_path: &VirtualPath) -> (r: Result<
        (),
        RepresentationError,
    >)
        requires
            old(self).wf(),
        ensures
            final(self).wf(),
            final(self)@ == attach_view(
                old(self)@,
                virtual_path@.identity,
                virtual_path@.source,
                virtual_path@.kind,
            ).0,
            unit_result_view(r) == attach_view(
                old(self)@,
                virtual_path@.identity,
                virtual_path@.source,
                virtual_path@.kind,
            ).1,
    {
        self.attach(virtual_path.as_identity(), virtual_path.as_source(), virtual_path.to_kind())
    }

    /// Detaches the node at `identity`.
    pub fn detach(&mut self, identity: &FsPath) -> (r: Result<(), RepresentationError>)
        requires
            old(self).wf(),
        ensures
            final(self).wf(),
            final(self)@ == detach_view(old(self)@, identity@).0,
            unit_result_view(r) == detach_view(old(self)@, identity@).1,
    {
        match self.get(identity) {
            Err(e) => {
                return Err(e);
            },
            Ok(None) => {
                return Err(RepresentationErrorOf::DoesNotExists(identity.clone()));
            },
            Ok(Some(_)) => {},
        }
        let ghost d = self@;
        proof {
            lemma_lookup_some(d.entries, identity@);
            lemma_filter_from(d.entries, is_not_identity(identity@));
            lemma_filter_identities(d.entries, is_not_identity(identity@));
        }
        let parent = get_parent_or_root(identity);
        self.remove_identity(identity);
        let ghost d1 = self@;
        if self.is_directory_empty(&parent) {
            self.remove_key(&parent);
            proof {
                lemma_filter_from(d1.keys, is_not_key(parent@));
                lemma_filter_no_dup(d1.keys, is_not_key(parent@));
                assert forall|i: int| 0 <= i < d1.entries.len() implies !child_of(
                    d1.entries[i],
                    parent@,
                ) by {
                    if child_of(d1.entries[i], parent@) {
                        lemma_filter_keeps(d1.entries, is_child_of(parent@), i);
                    }
                }
            }
        }
        let ghost d2 = self@;
        proof {
            assert forall|i: int| 0 <= i < d2.entries.len() implies d2.keys.contains(
                parent_or_root_view(#[trigger] d2.entries[i].identity),
            ) by {
                assert(d1.entries.contains(d2.entries[i]));
                assert(d.entries.contains(d2.entries[i]));
                let k = choose|k: int| 0 <= k < d.entries.len() && d.entries[k] == d2.entries[i];
                let pk = parent_or_root_view(d2.entries[i].identity);
                assert(d.keys.contains(pk));
                if d2.keys != d1.keys {
                    let m = choose|m: int| 0 <= m < d1.keys.len() && d1.keys[m] == pk;
                    lemma_filter_keeps(d1.keys, is_not_key(parent@), m);
                }
            }
        }
        if self.find_key(identity).is_some() {
            self.remove_key(identity);
            self.remove_children_of(identity);
            proof {
                lemma_filter_from(d2.keys, is_not_key(identity@));
                lemma_filter_no_dup(d2.keys, is_not_key(identity@));
                lemma_filter_from(d2.entries, is_not_child_of(identity@));
                lemma_filter_identities(d2.entries, is_not_child_of(identity@));
                let d3 = self@;
                assert forall|i: int| 0 <= i < d3.entries.len() implies d3.keys.contains(
                    parent_or_root_view(#[trigger] d3.entries[i].identity),
                ) by {
                    assert(d2.entries.contains(d3.entries[i]));
                    let k = choose|k: int| 0 <= k < d2.entries.len() && d2.entries[k] == d3.entries[i];
                    let pk = parent_or_root_view(d3.entries[i].identity);
                    let m = choose|m: int| 0 <= m < d2.keys.len() && d2.keys[m] == pk;
                    lemma_filter_keeps(d2.keys, is_not_key(identity@), m);
                }
            }
        }
        Ok(())
    }

    /// The children attached under `parent`, if it is a key.
    pub fn children(&self, parent: &FsPath) -> (r: Option<VirtualChildren>)
        requires
            self.wf(),
        ensures
            r matches Some(c) ==> c.wf() && children_view(self@, parent@) == Some(c@),
            r is None ==> children_view(self@, parent@) is None,
    {
        match self.find_key(parent) {
            None => {
                return None;
            },
            Some(k) => {
                assert(self@.keys.contains(parent@));
            },
        }
        let ghost pred = is_child_of(parent@);
        let mut items: Vec<VirtualPath> = Vec::new();
        let mut i: usize = 0;
        while i < self.entries.len()
            invariant
                i <= self.entries.len(),
                pred == is_child_of(parent@),
                vps_view(items@) =~= vps_view(self.entries@).take(i as int).filter(pred),
            decreases self.entries.len() - i,
        {
            proof {
                lemma_filter_step(vps_view(self.entries@), pred, i as int);
            }
            assert(vps_view(self.entries@)[i as int] == self.entries@[i as int]@);
            if get_parent_or_root(self.entries[i].as_identity()).same(parent) {
                let c = self.entries[i].clone();
                let ghost before = items@;
                items.push(c);
                assert(vps_view(items@) =~= vps_view(before).push(c@));
            }
            i += 1;
        }
        assert(vps_view(self.entries@).take(self.entries.len() as int) =~= vps_view(
            self.entries@,
        ));
        proof {
            lemma_filter_identities(self@.entries, pred);
        }
        Some(VirtualChildren { items })
    }

    /// The ancestor `depth` steps above `path`, or `path` itself when there
    /// is none.
    pub fn remove_nth_parents(path: &FsPath, depth: usize) -> (r: FsPath)
        ensures
            r@ == nth_ancestor_view(path@, depth as nat),
    {
        path.ancestor(depth)
    }

    /// The nearest attached node among `path` and its ancestors, with the
    /// number of steps up to it.
    pub fn first_virtual_ancestor(&self, path: &FsPath) -> (r: Result<
        Option<(usize, VirtualPath)>,
        RepresentationError,
    >)
        requires
            self.wf(),
        ensures
            match r {
                Ok(Some((i, v))) => first_virtual_ancestor_view(self@, path@) == Ok::<
                    Option<(nat, VirtualPathView)>,
                    RepresentationErrorView,
                >(Some((i as nat, v@))),
                Ok(None) => first_virtual_ancestor_view(self@, path@) == Ok::<
                    Option<(nat, VirtualPathView)>,
                    RepresentationErrorView,
                >(None),
                Err(e) => first_virtual_ancestor_view(self@, path@) == Err::<
                    Option<(nat, VirtualPathView)>,
                    RepresentationErrorView,
                >(e@),
            },
    {
        let n = path.depth();
        let mut i: usize = 0;
        loop
            invariant
                n == path@.components.len(),
                i <= n,
                first_virtual_ancestor_view(self@, path@) == first_virtual_ancestor_from(
                    self@,
                    path@,
                    i as nat,
                ),
                self.wf(),
            decreases n - i,
        {
            let ancestor = path.ancestor(i);
            match self.get(&ancestor) {
                Err(e) => {
                    return Err(e);
                },
                Ok(Some(v)) => {
                    return Ok(Some((i, v.clone())));
                },
                Ok(None) => {},
            }
            if i == n {
                assert(first_virtual_ancestor_from(self@, path@, (n + 1) as nat) is Ok);
                return Ok(None);
            }
            i += 1;
        }
    }

    /// Whether `path` or one of its ancestors is attached.
    pub fn is_virtual(&self, path: &FsPath) -> (r: Result<bool, RepresentationError>)
        requires
            self.wf(),
        ensures
            bool_result_view(r) == is_virtual_view(self@, path@),
    {
        match self.first_virtual_ancestor(path) {
            Err(e) => Err(e),
            Ok(Some(_)) => Ok(true),
            Ok(None) => Ok(false),
        }
    }

    /// The real path that `path` stands for, when its nearest attached
    /// ancestor has a source.
    pub fn resolve(&self, path: &FsPath) -> (r: Result<Option<FsPath>, RepresentationError>)
        requires
            self.wf(),
        ensures
            match r {
                Ok(Some(q)) => resolve_view(self@, path@) == Ok::<
                    Option<PathView>,
                    RepresentationErrorView,
                >(Some(q@)),
                Ok(None) => resolve_view(self@, path@) == Ok::<
                    Option<PathView>,
                    RepresentationErrorView,
                >(None),
                Err(e) => resolve_view(self@, path@) == Err::<
                    Option<PathView>,
                    RepresentationErrorView,
                >(e@),
            },
    {
        match self.first_virtual_ancestor(path) {
            Err(e) => Err(e),
            Ok(None) => Ok(None),
            Ok(Some((depth, ancestor))) => match ancestor.as_source() {
                Some(source) => {
                    proof {
                        lemma_fva_depth(self@, path@, 0);
                    }
                    let base = VirtualDelta::remove_nth_parents(path, depth);
                    assert(path@.components.take(path@.components.len() - depth)
                        .is_prefix_of(path@.components));
                    match path.strip_prefix(&base) {
                        Some(rest) => {
                            assert(rest@.components =~= path@.components.skip(
                                path@.components.len() - depth,
                            ));
                            Ok(Some(source.join(&rest)))
                        },
                        None => Ok(None),
                    }
                },
                None => Ok(None),
            },
        }
    }

    /// The largest depth of an attached node.
    pub fn max_depth(&self) -> (m: usize)
        ensures
            m == max_depth(self@.entries),
    {
        let mut m: usize = 0;
        let mut i: usize = 0;
        while i < self.entries.len()
            invariant
                i <= self.entries.len(),
                m == max_depth(self@.entries.take(i as int)),
            decreases self.entries.len() - i,
        {
            assert(self@.entries.take(i + 1).drop_last() =~= self@.entries.take(i as int));
            let d = self.entries[i].as_identity().depth();
            if d > m {
                m = d;
            }
            i += 1;
        }
        assert(self@.entries.take(self.entries.len() as int) =~= self@.entries);
        m
    }

    /// Runs the subtraction or the addition of the nodes of `right` on
    /// `result`, shallower nodes first.
    fn fold_right(result: &mut VirtualDelta, right: &VirtualDelta, adding: bool) -> (r: Result<
        (),
        RepresentationError,
    >)
        requires
            old(result).wf(),
            right.wf(),
        ensures
            final(result).wf(),
            ({
                let x = fold_steps(
                    old(result)@,
                    depth_order(right@.entries),
                    if adding {
                        add_step(right@)
                    } else {
                        subtract_step()
                    },
                );
                &&& final(result)@ == x.0
                &&& unit_result_view(r) == x.1
            }),
    {
        let ghost step = if adding {
            add_step(right@)
        } else {
            subtract_step()
        };
        let ghost s = right@.entries;
        let ghost start = result@;
        let max = right.max_depth();
        let mut status: Result<(), RepresentationError> = Ok(());
        let mut k: usize = 0;
        loop
            invariant
                k <= max,
                start == old(result)@,
                max == max_depth(s),
                s == right@.entries,
                right.wf(),
                result.wf(),
                step == (if adding {
                    add_step(right@)
                } else {
                    subtract_step()
                }),
                fold_steps(start, levels(s, k as nat), step) == (result@, unit_result_view(status)),
            decreases max - k,
        {
            let mut i: usize = 0;
            while i < right.entries.len()
                invariant
                    i <= right.entries.len(),
                    k <= max,
                    s == right@.entries,
                    right.wf(),
                    result.wf(),
                    step == (if adding {
                        add_step(right@)
                    } else {
                        subtract_step()
                    }),
                    fold_steps(
                        start,
                        levels(s, k as nat) + s.take(i as int).filter(at_depth(k as nat)),
                        step,
                    ) == (result@, unit_result_view(status)),
                decreases right.entries.len() - i,
            {
                let ghost before = levels(s, k as nat) + s.take(i as int).filter(
                    at_depth(k as nat),
                );
                proof {
                    lemma_filter_step(s, at_depth(k as nat), i as int);
                }
                let item = &right.entries[i];
                assert(s[i as int] == item@);
                if item.as_identity().depth() == k {
                    assert(levels(s, k as nat) + s.take(i + 1).filter(at_depth(k as nat))
                        =~= before.push(item@));
                    proof {
                        lemma_fold_push(start, before, item@, step);
                    }
                    if status.is_ok() {
                        status = if adding {
                            VirtualDelta::add_one(result, right, item)
                        } else {
                            VirtualDelta::subtract_one(result, item)
                        };
                    }
                } else {
                    assert(levels(s, k as nat) + s.take(i + 1).filter(at_depth(k as nat))
                        =~= before);
                }
                i += 1;
            }
            assert(s.take(right.entries.len() as int) =~= s);
            assert(levels(s, (k + 1) as nat) =~= levels(s, k as nat) + s.filter(
                at_depth(k as nat),
            ));
            if k == max {
                assert(depth_order(s) == levels(s, (k + 1) as nat));
                return status;
            }
            k += 1;
        }
    }

    fn subtract_one(result: &mut VirtualDelta, item: &VirtualPath) -> (r: Result<
        (),
        RepresentationError,
    >)
        requires
            old(result).wf(),
        ensures
            final(result).wf(),
            final(result)@ == subtract_step()(old(result)@, item@).0,
            unit_result_view(r) == subtract_step()(old(result)@, item@).1,
    {
        match result.get(item.as_identity()) {
            Err(e) => Err(e),
            Ok(Some(_)) => result.detach(item.as_identity()),
            Ok(None) => Ok(()),
        }
    }

    fn add_one(result: &mut VirtualDelta, right: &VirtualDelta, item: &VirtualPath) -> (r: Result<
        (),
        RepresentationError,
    >)
        requires
            old(result).wf(),
            right.wf(),
        ensures
            final(result).wf(),
            final(result)@ == add_step(right@)(old(result)@, item@).0,
            unit_result_view(r) == add_step(right@)(old(result)@, item@).1,
    {
        match right.get(item.as_identity()) {
            Err(e) => {
                return Err(e);
            },
            Ok(None) => {
                return Ok(());
            },
            Ok(Some(_)) => {},
        }
        match result.get(item.as_identity()) {
            Err(e) => {
                return Err(e);
            },
            Ok(Some(_)) => {
                if let Err(e) = result.detach(item.as_identity()) {
                    return Err(e);
                }
            },
            Ok(None) => {},
        }
        result.attach(item.as_identity(), item.as_source(), item.to_kind())
    }

    /// This delta with every node of `right` detached, shallower nodes first.
    pub fn sub(&self, right: &VirtualDelta) -> (r: Result<VirtualDelta, RepresentationError>)
        requires
            self.wf(),
            right.wf(),
        ensures
            match r {
                Ok(d) => d.wf() && sub_view(self@, right@) == Ok::<
                    DeltaView,
                    RepresentationErrorView,
                >(d@),
                Err(e) => sub_view(self@, right@) == Err::<DeltaView, RepresentationErrorView>(
                    e@,
                ),
            },
    {
        let mut result = self.clone();
        match VirtualDelta::fold_right(&mut result, right, false) {
            Ok(()) => Ok(result),
            Err(e) => Err(e),
        }
    }

    /// This delta with every node of `right` attached in place of what was
    /// at its identity, shallower nodes first.
    pub fn add(&self, right: &VirtualDelta) -> (r: Result<VirtualDelta, RepresentationError>)
        requires
            self.wf(),
            right.wf(),
        ensures
            match r {
                Ok(d) => d.wf() && add_view(self@, right@) == Ok::<
                    DeltaView,
                    RepresentationErrorView,
                >(d@),
                Err(e) => add_view(self@, right@) == Err::<DeltaView, RepresentationErrorView>(
                    e@,
                ),
            },
    {
        let mut result = self.clone();
        match VirtualDelta::fold_right(&mut result, right, true) {
            Ok(()) => Ok(result),
            Err(e) => Err(e),
        }
    }

    fn walk_node(&self, collection: &mut VirtualChildren, v: &VirtualPath, fuel: usize)
        requires
            self.wf(),
            old(collection).wf(),
        ensures
            final(collection).wf(),
            final(collection)@ == walk_from(self@, old(collection)@, v@, fuel as nat),
        decreases fuel,
    {
        collection.insert(v.clone());
        if fuel == 0 {
            return;
        }
        match self.children(v.as_identity()) {
            None => {},
            Some(kids) => {
                let ghost c1 = collection@;
                let mut i: usize = 0;
                while i < kids.len()
                    invariant
                        i <= kids@.len(),
                        self.wf(),
                        collection.wf(),
                        fuel > 0,
                        collection@ == walk_children(
                            self@,
                            c1,
                            kids@.take(i as int),
                            (fuel - 1) as nat,
                        ),
                    decreases kids@.len() - i,
                {
                    assert(kids@.take(i + 1).drop_last() =~= kids@.take(i as int));
                    assert(kids@.take(i + 1).last() == kids@[i as int]);
                    self.walk_node(collection, kids.get_at(i), fuel - 1);
                    i += 1;
                }
                assert(kids@.take(kids@.len() as int) =~= kids@);
            },
        }
    }

    /// Inserts the directory `identity` and the nodes attached below it into
    /// `collection`.
    pub fn walk(&self, collection: &mut VirtualChildren, identity: &FsPath) -> (r: Result<
        (),
        RepresentationError,
    >)
        requires
            self.wf(),
            old(collection).wf(),
        ensures
            final(collection).wf(),
            final(collection)@ == walk_view(self@, old(collection)@, identity@).0,
            unit_result_view(r) == walk_view(self@, old(collection)@, identity@).1,
    {
        match self.get(identity) {
            Err(e) => Err(e),
            Ok(None) => Err(RepresentationErrorOf::DoesNotExists(identity.clone())),
            Ok(Some(v)) => match self.is_directory(identity) {
                Err(e) => Err(e),
                Ok(false) => Err(RepresentationErrorOf::IsNotADirectory(identity.clone())),
                Ok(true) => {
                    self.walk_node(collection, v, self.entries.len());
                    Ok(())
                },
            },
        }
    }

    /// The delta made of the directory `identity` and the nodes attached
    /// below it, when it is attached.
    pub fn sub_delta(&self, identity: &FsPath) -> (r: Result<
        Option<VirtualDelta>,
        RepresentationError,
    >)
        requires
            self.wf(),
        ensures
            match r {
                Ok(Some(x)) => x.wf() && sub_delta_view(self@, identity@) == Ok::<
                    Option<DeltaView>,
                    RepresentationErrorView,
                >(Some(x@)),
                Ok(None) => sub_delta_view(self@, identity@) == Ok::<
                    Option<DeltaView>,
                    RepresentationErrorView,
                >(None),
                Err(e) => sub_delta_view(self@, identity@) == Err::<
                    Option<DeltaView>,
                    RepresentationErrorView,
                >(e@),
            },
    {
        match self.get(identity) {
            Err(e) => {
                return Err(e);
            },
            Ok(None) => {
                return Ok(None);
            },
            Ok(Some(_)) => {},
        }
        let mut collection = VirtualChildren::new();
        if let Err(e) = self.walk(&mut collection, identity) {
            return Err(e);
        }
        match collection.into_delta() {
            Err(e) => Err(e),
            Ok(d) => Ok(Some(d)),
        }
    }
}

} // verus!
