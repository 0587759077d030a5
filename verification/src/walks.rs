//! The depth that the recursive walks of copy, move and remove are given is
//! enough: on a file system whose directories hold their children one level
//! below them, and no deeper than the bound, more depth changes nothing.

use vstd::prelude::*;

use crate::atomic::AtomicView;
use crate::capability::{Capability, Guard};
use crate::disk::{
    RealFileSystem, RealNodeView, lemma_children_named, real_children, real_max_depth,
    real_read_dir_view, real_wf,
};
use crate::event::{remove_children_view, remove_view, translate_children_view, translate_view};
use crate::path::{PathView, push_last_view};
use crate::port::{EntryView, FileSystemAdapter, ReadableFileSystem};
use crate::disk::{lemma_node_lookup_some, node_lookup, real_exists};
use crate::errors::RepresentationErrorView;
use crate::kind::Kind;
use crate::path::{join_view, nth_ancestor_view, parent_or_root_view, root_view};
use crate::representation::{
    DeltaView, VirtualPathView, children_view, detach_view,
    first_virtual_ancestor_from, fold_steps, get_view, is_child_of, is_not_child_of,
    is_not_identity, lemma_filter_from, lemma_lookup_some, lookup, max_depth, subtract_step,
};
use crate::virt::{
    VfsView, VirtualFileSystem, VirtualStatusView, added_entries_view, from_fs_view,
    lemma_vstatus_identity, real_entries_view, state_exists, vfs_depth_bound, vfs_wf,
    vread_dir_view, vstatus_view,
};

verus! {

/// A file system whose walks stay within `b`: a status is reported for the
/// path that was asked, and the children of a directory lie exactly one
/// level below it, at most `b` deep.
pub open spec fn walks_within<F: ReadableFileSystem>(fv: F::V, b: nat) -> bool {
    &&& forall|q: PathView| #[trigger] F::status_view(fv, q) is Ok ==> F::status_view(fv, q)->Ok_0.path == q
    &&& forall|q: PathView, i: int|
        #![trigger F::read_dir_view(fv, q)->Ok_0[i]]
        F::read_dir_view(fv, q) is Ok && 0 <= i < F::read_dir_view(fv, q)->Ok_0.len() ==> {
            &&& F::read_dir_view(fv, q)->Ok_0[i].path.components.len() == q.components.len() + 1
            &&& F::read_dir_view(fv, q)->Ok_0[i].path.components.len() <= b
        }
}

/// Children that each lie at most `b` deep and have at least one level of
/// depth left to walk below them.
pub open spec fn kids_within(kids: Seq<EntryView>, b: nat, fuel: nat) -> bool {
    forall|i: int|
        0 <= i < kids.len() ==> (#[trigger] kids[i]).path.components.len() <= b
            && kids[i].path.components.len() + fuel >= b + 1
}

proof fn lemma_translate_enough<F: ReadableFileSystem, G: Guard>(
    fv: F::V,
    gv: G::V,
    src: PathView,
    dst: PathView,
    merge: bool,
    overwrite: bool,
    moving: bool,
    fuel: nat,
    more: nat,
    b: nat,
)
    requires
        walks_within::<F>(fv, b),
        fuel <= more,
        src.components.len() + fuel >= b,
    ensures
        translate_view::<F, G>(fv, gv, src, dst, merge, overwrite, moving, more)
            == translate_view::<F, G>(fv, gv, src, dst, merge, overwrite, moving, fuel),
    decreases fuel, 1nat, 0nat,
{
    if let Ok(source) = F::status_view(fv, src) {
        if source.exists {
            if let Ok(destination) = F::status_view(fv, dst) {
                assert(source.path == src);
                if let Ok(kids) = F::read_dir_view(fv, source.path) {
                    assert(kids_within(kids, b, fuel)) by {
                        assert forall|i: int| 0 <= i < kids.len() implies (
                        #[trigger] kids[i]).path.components.len() <= b
                            && kids[i].path.components.len() + fuel >= b + 1 by {
                            assert(kids[i] == F::read_dir_view(fv, src)->Ok_0[i]);
                        }
                    }
                    let asked = G::authorize_view(gv, Capability::Merge, merge, destination.path);
                    lemma_translate_children_enough::<F, G>(
                        fv,
                        asked.0,
                        kids,
                        destination.path,
                        merge,
                        overwrite,
                        moving,
                        fuel,
                        more,
                        seq![],
                        b,
                    );
                    lemma_translate_children_enough::<F, G>(
                        fv,
                        gv,
                        kids,
                        destination.path,
                        merge,
                        overwrite,
                        moving,
                        fuel,
                        more,
                        seq![crate::atomic::AtomicOf::CreateEmptyDirectory(destination.path)],
                        b,
                    );
                }
            }
        }
    }
}

proof fn lemma_translate_children_enough<F: ReadableFileSystem, G: Guard>(
    fv: F::V,
    gv: G::V,
    kids: Seq<EntryView>,
    dst: PathView,
    merge: bool,
    overwrite: bool,
    moving: bool,
    fuel: nat,
    more: nat,
    acc: Seq<AtomicView>,
    b: nat,
)
    requires
        walks_within::<F>(fv, b),
        fuel <= more,
        kids_within(kids, b, fuel),
    ensures
        translate_children_view::<F, G>(fv, gv, kids, dst, merge, overwrite, moving, more, acc)
            == translate_children_view::<F, G>(fv, gv, kids, dst, merge, overwrite, moving, fuel, acc),
    decreases fuel, 0nat, kids.len(),
{
    if kids.len() > 0 {
        assert(kids_within(kids.drop_last(), b, fuel)) by {
            assert forall|i: int| 0 <= i < kids.drop_last().len() implies (
            #[trigger] kids.drop_last()[i]).path.components.len() <= b
                && kids.drop_last()[i].path.components.len() + fuel >= b + 1 by {
                assert(kids.drop_last()[i] == kids[i]);
            }
        }
        lemma_translate_children_enough::<F, G>(
            fv,
            gv,
            kids.drop_last(),
            dst,
            merge,
            overwrite,
            moving,
            fuel,
            more,
            acc,
            b,
        );
        let before = translate_children_view::<F, G>(
            fv,
            gv,
            kids.drop_last(),
            dst,
            merge,
            overwrite,
            moving,
            fuel,
            acc,
        );
        let child = kids.last().path;
        assert(kids.last() == kids[kids.len() - 1]);
        assert(fuel > 0);
        lemma_translate_enough::<F, G>(
            fv,
            before.0,
            child,
            push_last_view(dst, child),
            merge,
            overwrite,
            moving,
            (fuel - 1) as nat,
            (more - 1) as nat,
            b,
        );
    }
}

proof fn lemma_remove_enough<F: ReadableFileSystem, G: Guard>(
    fv: F::V,
    gv: G::V,
    p: PathView,
    recursive: bool,
    fuel: nat,
    more: nat,
    b: nat,
)
    requires
        walks_within::<F>(fv, b),
        fuel <= more,
        p.components.len() + fuel >= b,
    ensures
        remove_view::<F, G>(fv, gv, p, recursive, more) == remove_view::<F, G>(
            fv,
            gv,
            p,
            recursive,
            fuel,
        ),
    decreases fuel, 1nat, 0nat,
{
    if let Ok(entry) = F::status_view(fv, p) {
        assert(entry.path == p);
        if let Ok(kids) = F::read_dir_view(fv, entry.path) {
            assert(kids_within(kids, b, fuel)) by {
                assert forall|i: int| 0 <= i < kids.len() implies (
                #[trigger] kids[i]).path.components.len() <= b
                    && kids[i].path.components.len() + fuel >= b + 1 by {
                    assert(kids[i] == F::read_dir_view(fv, p)->Ok_0[i]);
                }
            }
            let asked = G::authorize_view(gv, Capability::Recursive, recursive, entry.path);
            lemma_remove_children_enough::<F, G>(fv, asked.0, kids, fuel, more, seq![], b);
        }
    }
}

proof fn lemma_remove_children_enough<F: ReadableFileSystem, G: Guard>(
    fv: F::V,
    gv: G::V,
    kids: Seq<EntryView>,
    fuel: nat,
    more: nat,
    acc: Seq<AtomicView>,
    b: nat,
)
    requires
        walks_within::<F>(fv, b),
        fuel <= more,
        kids_within(kids, b, fuel),
    ensures
        remove_children_view::<F, G>(fv, gv, kids, more, acc) == remove_children_view::<F, G>(
            fv,
            gv,
            kids,
            fuel,
            acc,
        ),
    decreases fuel, 0nat, kids.len(),
{
    if kids.len() > 0 {
        assert(kids_within(kids.drop_last(), b, fuel)) by {
            assert forall|i: int| 0 <= i < kids.drop_last().len() implies (
            #[trigger] kids.drop_last()[i]).path.components.len() <= b
                && kids.drop_last()[i].path.components.len() + fuel >= b + 1 by {
                assert(kids.drop_last()[i] == kids[i]);
            }
        }
        lemma_remove_children_enough::<F, G>(fv, gv, kids.drop_last(), fuel, more, acc, b);
        let before = remove_children_view::<F, G>(fv, gv, kids.drop_last(), fuel, acc);
        assert(kids.last() == kids[kids.len() - 1]);
        assert(fuel > 0);
        lemma_remove_enough::<F, G>(
            fv,
            before.0,
            kids.last().path,
            true,
            (fuel - 1) as nat,
            (more - 1) as nat,
            b,
        );
    }
}

/// Every node of a file system lies no deeper than its greatest depth.
proof fn lemma_max_depth_bounds(s: Seq<RealNodeView>, n: RealNodeView)
    requires
        s.contains(n),
    ensures
        n.path.components.len() <= real_max_depth(s),
    decreases s.len(),
{
    if s.last() != n {
        let i = choose|i: int| 0 <= i < s.len() && s[i] == n;
        assert(s.drop_last()[i] == n);
        lemma_max_depth_bounds(s.drop_last(), n);
    }
}

/// A well-formed real file system keeps its walks within its greatest depth.
proof fn lemma_real_walks_within(v: Seq<RealNodeView>)
    requires
        real_wf(v),
    ensures
        walks_within::<FileSystemAdapter<RealFileSystem>>(v, real_max_depth(v)),
{
    assert forall|q: PathView, i: int|
        #![trigger FileSystemAdapter::<RealFileSystem>::read_dir_view(v, q)->Ok_0[i]]
        FileSystemAdapter::<RealFileSystem>::read_dir_view(v, q) is Ok && 0 <= i
            < FileSystemAdapter::<RealFileSystem>::read_dir_view(v, q)->Ok_0.len() implies {
        &&& FileSystemAdapter::<RealFileSystem>::read_dir_view(v, q)->Ok_0[i].path.components.len()
            == q.components.len() + 1
        &&& FileSystemAdapter::<RealFileSystem>::read_dir_view(v, q)->Ok_0[i].path.components.len()
            <= real_max_depth(v)
    } by {
        lemma_children_named(v, q);
        let n = real_children(v, q)[i];
        assert(real_read_dir_view(v, q)->Ok_0[i].path == n.path);
        assert(n.path.components.len() > 0);
        assert(crate::path::parent_or_root_view(n.path).components == n.path.components.drop_last());
        lemma_max_depth_bounds(v, n);
    }
}

/// On any file system whose walks stay within its depth bound, a copy or a
/// move given more depth than the bound gives the same writes and leaves the
/// guard the same.
pub proof fn law_translate_depth_is_enough_within<F: ReadableFileSystem, G: Guard>(
    fv: F::V,
    gv: G::V,
    src: PathView,
    dst: PathView,
    merge: bool,
    overwrite: bool,
    moving: bool,
    more: nat,
)
    requires
        walks_within::<F>(fv, F::depth_bound_view(fv)),
        F::depth_bound_view(fv) <= more,
    ensures
        translate_view::<F, G>(fv, gv, src, dst, merge, overwrite, moving, more)
            == translate_view::<F, G>(
            fv,
            gv,
            src,
            dst,
            merge,
            overwrite,
            moving,
            F::depth_bound_view(fv),
        ),
{
    lemma_translate_enough::<F, G>(
        fv,
        gv,
        src,
        dst,
        merge,
        overwrite,
        moving,
        F::depth_bound_view(fv),
        more,
        F::depth_bound_view(fv),
    );
}

/// On any file system whose walks stay within its depth bound, a removal
/// given more depth than the bound gives the same writes and leaves the
/// guard the same.
pub proof fn law_remove_depth_is_enough_within<F: ReadableFileSystem, G: Guard>(
    fv: F::V,
    gv: G::V,
    p: PathView,
    recursive: bool,
    more: nat,
)
    requires
        walks_within::<F>(fv, F::depth_bound_view(fv)),
        F::depth_bound_view(fv) <= more,
    ensures
        remove_view::<F, G>(fv, gv, p, recursive, more) == remove_view::<F, G>(
            fv,
            gv,
            p,
            recursive,
            F::depth_bound_view(fv),
        ),
{
    lemma_remove_enough::<F, G>(
        fv,
        gv,
        p,
        recursive,
        F::depth_bound_view(fv),
        more,
        F::depth_bound_view(fv),
    );
}

/// A well-formed real file system keeps its walks within its depth bound.
pub proof fn law_real_walks_within_bound(v: Seq<RealNodeView>)
    requires
        real_wf(v),
    ensures
        walks_within::<FileSystemAdapter<RealFileSystem>>(
            v,
            FileSystemAdapter::<RealFileSystem>::depth_bound_view(v),
        ),
{
    lemma_real_walks_within(v);
}

/// A copy or a move over a well-formed real file system is given depth
/// enough: any more than the file system's depth bound gives the same writes
/// and leaves the guard the same, so the walk never stops for want of depth.
pub proof fn law_translate_depth_is_enough<G: Guard>(
    v: Seq<RealNodeView>,
    gv: G::V,
    src: PathView,
    dst: PathView,
    merge: bool,
    overwrite: bool,
    moving: bool,
    more: nat,
)
    requires
        real_wf(v),
        FileSystemAdapter::<RealFileSystem>::depth_bound_view(v) <= more,
    ensures
        translate_view::<FileSystemAdapter<RealFileSystem>, G>(
            v,
            gv,
            src,
            dst,
            merge,
            overwrite,
            moving,
            more,
        ) == translate_view::<FileSystemAdapter<RealFileSystem>, G>(
            v,
            gv,
            src,
            dst,
            merge,
            overwrite,
            moving,
            FileSystemAdapter::<RealFileSystem>::depth_bound_view(v),
        ),
{
    lemma_real_walks_within(v);
    lemma_translate_enough::<FileSystemAdapter<RealFileSystem>, G>(
        v,
        gv,
        src,
        dst,
        merge,
        overwrite,
        moving,
        real_max_depth(v),
        more,
        real_max_depth(v),
    );
}

/// A removal over a well-formed real file system is given depth enough: any
/// more than the file system's depth bound gives the same writes and leaves
/// the guard the same.
pub proof fn law_remove_depth_is_enough<G: Guard>(
    v: Seq<RealNodeView>,
    gv: G::V,
    p: PathView,
    recursive: bool,
    more: nat,
)
    requires
        real_wf(v),
        FileSystemAdapter::<RealFileSystem>::depth_bound_view(v) <= more,
    ensures
        remove_view::<FileSystemAdapter<RealFileSystem>, G>(v, gv, p, recursive, more)
            == remove_view::<FileSystemAdapter<RealFileSystem>, G>(
            v,
            gv,
            p,
            recursive,
            FileSystemAdapter::<RealFileSystem>::depth_bound_view(v),
        ),
{
    lemma_real_walks_within(v);
    lemma_remove_enough::<FileSystemAdapter<RealFileSystem>, G>(
        v,
        gv,
        p,
        recursive,
        real_max_depth(v),
        more,
        real_max_depth(v),
    );
}

/// Within a copy or a move over a well-formed real file system, the children
/// of a directory are each walked with the whole depth bound: the walk of
/// the children with the bound gives what it gives when each child is
/// handed the bound itself, as a fresh event on that child would be.
pub proof fn law_children_walk_as_fresh_events<G: Guard>(
    v: Seq<RealNodeView>,
    gv: G::V,
    p: PathView,
    dst: PathView,
    merge: bool,
    overwrite: bool,
    moving: bool,
    acc: Seq<AtomicView>,
)
    requires
        real_wf(v),
        real_read_dir_view(v, p) is Ok,
    ensures
        translate_children_view::<FileSystemAdapter<RealFileSystem>, G>(
            v,
            gv,
            real_read_dir_view(v, p)->Ok_0,
            dst,
            merge,
            overwrite,
            moving,
            FileSystemAdapter::<RealFileSystem>::depth_bound_view(v),
            acc,
        ) == translate_children_view::<FileSystemAdapter<RealFileSystem>, G>(
            v,
            gv,
            real_read_dir_view(v, p)->Ok_0,
            dst,
            merge,
            overwrite,
            moving,
            FileSystemAdapter::<RealFileSystem>::depth_bound_view(v) + 1,
            acc,
        ),
{
    let b = real_max_depth(v);
    let kids = real_read_dir_view(v, p)->Ok_0;
    lemma_real_walks_within(v);
    assert(kids_within(kids, b, b)) by {
        assert forall|i: int| 0 <= i < kids.len() implies (#[trigger] kids[i]).path.components.len()
            <= b && kids[i].path.components.len() + b >= b + 1 by {
            assert(kids[i] == FileSystemAdapter::<RealFileSystem>::read_dir_view(v, p)->Ok_0[i]);
        }
    }
    lemma_translate_children_enough::<FileSystemAdapter<RealFileSystem>, G>(
        v,
        gv,
        kids,
        dst,
        merge,
        overwrite,
        moving,
        b,
        b + 1,
        acc,
        b,
    );
}

/// Within a removal over a well-formed real file system, the children of a
/// directory are each walked with the whole depth bound, as a fresh removal
/// of that child would be.
pub proof fn law_children_removal_as_fresh_events<G: Guard>(
    v: Seq<RealNodeView>,
    gv: G::V,
    p: PathView,
    acc: Seq<AtomicView>,
)
    requires
        real_wf(v),
        real_read_dir_view(v, p) is Ok,
    ensures
        remove_children_view::<FileSystemAdapter<RealFileSystem>, G>(
            v,
            gv,
            real_read_dir_view(v, p)->Ok_0,
            FileSystemAdapter::<RealFileSystem>::depth_bound_view(v),
            acc,
        ) == remove_children_view::<FileSystemAdapter<RealFileSystem>, G>(
            v,
            gv,
            real_read_dir_view(v, p)->Ok_0,
            FileSystemAdapter::<RealFileSystem>::depth_bound_view(v) + 1,
            acc,
        ),
{
    let b = real_max_depth(v);
    let kids = real_read_dir_view(v, p)->Ok_0;
    lemma_real_walks_within(v);
    assert(kids_within(kids, b, b)) by {
        assert forall|i: int| 0 <= i < kids.len() implies (#[trigger] kids[i]).path.components.len()
            <= b && kids[i].path.components.len() + b >= b + 1 by {
            assert(kids[i] == FileSystemAdapter::<RealFileSystem>::read_dir_view(v, p)->Ok_0[i]);
        }
    }
    lemma_remove_children_enough::<FileSystemAdapter<RealFileSystem>, G>(
        v,
        gv,
        kids,
        b,
        b + 1,
        acc,
        b,
    );
}

/// Every node of a delta lies no deeper than its greatest depth.
proof fn lemma_entry_within_max_depth(s: Seq<VirtualPathView>, e: VirtualPathView)
    requires
        s.contains(e),
    ensures
        e.identity.components.len() <= max_depth(s),
    decreases s.len(),
{
    if s.last() != e {
        let i = choose|i: int| 0 <= i < s.len() && s[i] == e;
        assert(s.drop_last()[i] == e);
        lemma_entry_within_max_depth(s.drop_last(), e);
    }
}

/// A path of a real file system lies no deeper than its greatest depth.
proof fn lemma_real_exists_within(s: Seq<RealNodeView>, p: PathView)
    requires
        real_exists(s, p),
    ensures
        p.components.len() <= real_max_depth(s),
{
    if p != root_view() {
        lemma_node_lookup_some(s, p);
        let i = choose|i: int|
            0 <= i < s.len() && s[i].path == p && node_lookup(s, p) == Some(s[i]);
        assert(s.contains(s[i]));
        lemma_max_depth_bounds(s, s[i]);
    }
}

/// What a delta finds at a path is one of its nodes, with that identity.
proof fn lemma_get_some_within(d: DeltaView, p: PathView, n: VirtualPathView)
    requires
        get_view(d, p) == Ok::<Option<VirtualPathView>, RepresentationErrorView>(Some(n)),
    ensures
        d.entries.contains(n),
        n.identity == p,
{
    lemma_lookup_some(d.entries, p);
    let i = choose|i: int|
        0 <= i < d.entries.len() && d.entries[i].identity == p && lookup(d.entries, p) == Some(
            d.entries[i],
        );
    assert(d.entries[i] == n);
}

proof fn lemma_first_ancestor_found(d: DeltaView, p: PathView, i: nat)
    ensures
        first_virtual_ancestor_from(d, p, i) matches Ok(Some((k, n))) ==> k <= p.components.len()
            && get_view(d, nth_ancestor_view(p, k)) == Ok::<
            Option<VirtualPathView>,
            RepresentationErrorView,
        >(Some(n)),
    decreases p.components.len() + 1 - i,
{
    if i <= p.components.len() {
        lemma_first_ancestor_found(d, p, i + 1);
    }
}

/// The nodes of `d` are all among `outer`.
pub open spec fn entries_among(d: DeltaView, outer: Seq<VirtualPathView>) -> bool {
    forall|x: VirtualPathView| #[trigger] d.entries.contains(x) ==> outer.contains(x)
}

proof fn lemma_filter_among<A>(s: Seq<A>, pred: spec_fn(A) -> bool, x: A)
    requires
        s.filter(pred).contains(x),
    ensures
        s.contains(x),
{
    lemma_filter_from(s, pred);
    let i = choose|i: int| 0 <= i < s.filter(pred).len() && s.filter(pred)[i] == x;
    assert(s.contains(s.filter(pred)[i]));
}

proof fn lemma_detach_among(d: DeltaView, id: PathView, outer: Seq<VirtualPathView>)
    requires
        entries_among(d, outer),
    ensures
        entries_among(detach_view(d, id).0, outer),
{
    assert forall|x: VirtualPathView| #[trigger] detach_view(d, id).0.entries.contains(
        x,
    ) implies outer.contains(x) by {
        if get_view(d, id) matches Ok(Some(_)) {
            let e1 = d.entries.filter(is_not_identity(id));
            if detach_view(d, id).0.entries == e1 {
                lemma_filter_among(d.entries, is_not_identity(id), x);
            } else {
                lemma_filter_among(e1, is_not_child_of(id), x);
                lemma_filter_among(d.entries, is_not_identity(id), x);
            }
        }
    }
}

proof fn lemma_subtraction_among(r: DeltaView, items: Seq<VirtualPathView>, outer: Seq<VirtualPathView>)
    requires
        entries_among(r, outer),
    ensures
        entries_among(fold_steps(r, items, subtract_step()).0, outer),
    decreases items.len(),
{
    if items.len() > 0 {
        lemma_subtraction_among(r, items.drop_last(), outer);
        let prev = fold_steps(r, items.drop_last(), subtract_step());
        if prev.1 is Ok {
            lemma_detach_among(prev.0, items.last().identity, outer);
        }
    }
}

/// The greatest depth at which a virtual file system can read a
/// directory's children.
pub open spec fn vfs_reach(v: VfsView) -> nat {
    max_depth(v.add.entries) + real_max_depth(v.disk) + 2
}

/// An existing directory of a virtual file system lies at least one level
/// above its reach.
proof fn lemma_existing_directory_within(v: VfsView, p: PathView)
    requires
        vfs_wf(v),
        vstatus_view(v, p) matches Ok(st) && state_exists(st.state) && st.identity.kind
            == Kind::Directory,
    ensures
        p.components.len() + 1 <= vfs_reach(v),
{
    if crate::representation::is_virtual_view(v.add, p) == Ok::<bool, RepresentationErrorView>(
        true,
    ) {
        if let Ok(Some(node)) = get_view(v.add, p) {
            lemma_get_some_within(v.add, p, node);
            lemma_entry_within_max_depth(v.add.entries, node);
        } else {
            let folded = fold_steps(
                v.add,
                crate::representation::depth_order(v.sub.entries),
                subtract_step(),
            );
            let state = folded.0;
            lemma_subtraction_among(
                v.add,
                crate::representation::depth_order(v.sub.entries),
                v.add.entries,
            );
            lemma_first_ancestor_found(state, p, 0);
            if let Ok(Some((k, anc))) = first_virtual_ancestor_from(state, p, 0) {
                let q = nth_ancestor_view(p, k);
                lemma_get_some_within(state, q, anc);
                assert(v.add.entries.contains(anc));
                lemma_entry_within_max_depth(v.add.entries, anc);
                assert(q.components.len() == p.components.len() - k);
                if let Some(src) = anc.source {
                    let rel = PathView {
                        absolute: false,
                        components: p.components.skip(p.components.len() - k),
                    };
                    let real_path = join_view(src, rel);
                    assert(rel.components.len() == k);
                    assert(real_path.components.len() + 1 >= k);
                    assert(crate::representation::sub_view(v.add, v.sub) == Ok::<
                        DeltaView,
                        RepresentationErrorView,
                    >(state));
                    assert(crate::representation::resolve_view(state, p) == Ok::<
                        Option<PathView>,
                        RepresentationErrorView,
                    >(Some(real_path)));
                    assert(real_exists(v.disk, real_path));
                    lemma_real_exists_within(v.disk, real_path);
                    assert(p.components.len() + 1 <= vfs_reach(v));
                } else {
                    assert(false);
                }
            } else {
                assert(false);
            }
        }
    } else {
        lemma_real_exists_within(v.disk, p);
    }
}

proof fn lemma_real_entries_one_below(
    v: VfsView,
    kids: Seq<RealNodeView>,
    source: Option<PathView>,
    p: PathView,
)
    ensures
        real_entries_view(v, kids, source, Some(p)) matches Ok(s) ==> forall|i: int|
            0 <= i < s.len() ==> (#[trigger] s[i]).identity.identity.components.len()
                == p.components.len() + 1,
    decreases kids.len(),
{
    if kids.len() > 0 {
        lemma_real_entries_one_below(v, kids.drop_last(), source, p);
    }
}

/// Statuses that each lie one level below `p`, at most `b` deep.
pub open spec fn statuses_one_below(s: Seq<VirtualStatusView>, p: PathView, b: nat) -> bool {
    forall|i: int|
        0 <= i < s.len() ==> (#[trigger] s[i]).identity.identity.components.len()
            == p.components.len() + 1 && s[i].identity.identity.components.len() <= b
}

proof fn lemma_added_entries_one_below(
    v: VfsView,
    kids: Seq<VirtualPathView>,
    acc: Seq<VirtualStatusView>,
    p: PathView,
    b: nat,
)
    requires
        statuses_one_below(acc, p, b),
        forall|i: int|
            0 <= i < kids.len() ==> (#[trigger] kids[i]).identity.components.len()
                == p.components.len() + 1 && kids[i].identity.components.len() <= b,
    ensures
        added_entries_view(v, kids, acc) matches Ok(s) ==> statuses_one_below(s, p, b),
    decreases kids.len(),
{
    if kids.len() > 0 {
        lemma_added_entries_one_below(v, kids.drop_last(), acc, p, b);
        let k = kids.last();
        assert(k == kids[kids.len() - 1]);
        lemma_vstatus_identity(v, k.identity);
        if let Ok(a) = added_entries_view(v, kids.drop_last(), acc) {
            if let Ok(st) = vstatus_view(v, k.identity) {
                assert(statuses_one_below(a.push(st), p, b)) by {
                    assert forall|i: int| 0 <= i < a.push(st).len() implies (
                    #[trigger] a.push(st)[i]).identity.identity.components.len()
                        == p.components.len() + 1
                        && a.push(st)[i].identity.identity.components.len() <= b by {
                        if i < a.len() {
                            assert(a.push(st)[i] == a[i]);
                        }
                    }
                }
            }
        }
    }
}

/// The children that a virtual file system reads in a directory lie one
/// level below it, within its reach.
proof fn lemma_vread_dir_within(v: VfsView, p: PathView)
    requires
        vfs_wf(v),
    ensures
        vread_dir_view(v, p) matches Ok(s) ==> statuses_one_below(s, p, vfs_reach(v)),
{
    if let Ok(st) = vstatus_view(v, p) {
        if state_exists(st.state) && st.identity.kind == Kind::Directory {
            lemma_vstatus_identity(v, p);
            lemma_existing_directory_within(v, p);
            let dir = st.identity;
            let base = match dir.source {
                Some(s) => s,
                None => dir.identity,
            };
            let b = vfs_reach(v);
            lemma_real_entries_one_below(v, real_children(v.disk, base), dir.source, p);
            if let Ok(found) = from_fs_view(v, base, dir.source, Some(p)) {
                assert(statuses_one_below(found, p, b));
                if let Some(kids) = children_view(v.add, dir.identity) {
                    lemma_filter_from(v.add.entries, is_child_of(dir.identity));
                    assert forall|i: int| 0 <= i < kids.len() implies (
                    #[trigger] kids[i]).identity.components.len() == p.components.len() + 1
                        && kids[i].identity.components.len() <= b by {
                        assert(v.add.entries.contains(kids[i]));
                        let k = choose|k: int|
                            0 <= k < v.add.entries.len() && v.add.entries[k] == kids[i];
                        assert(v.add.entries[k].identity.components.len() > 0);
                        assert(parent_or_root_view(kids[i].identity) == p);
                        lemma_entry_within_max_depth(v.add.entries, kids[i]);
                    }
                    lemma_added_entries_one_below(v, kids, found, p, b);
                }
            }
        }
    }
}

/// A well-formed virtual file system, whose reach fits in a machine word,
/// keeps its walks within its depth bound.
pub proof fn law_virtual_walks_within_bound(v: VfsView)
    requires
        vfs_wf(v),
        vfs_reach(v) <= usize::MAX,
    ensures
        walks_within::<FileSystemAdapter<VirtualFileSystem>>(
            v,
            FileSystemAdapter::<VirtualFileSystem>::depth_bound_view(v),
        ),
{
    assert(vfs_depth_bound(v) == vfs_reach(v));
    assert forall|q: PathView| #[trigger]
        FileSystemAdapter::<VirtualFileSystem>::status_view(v, q) is Ok implies FileSystemAdapter::<
        VirtualFileSystem,
    >::status_view(v, q)->Ok_0.path == q by {
        lemma_vstatus_identity(v, q);
    }
    assert forall|q: PathView, i: int|
        #![trigger FileSystemAdapter::<VirtualFileSystem>::read_dir_view(v, q)->Ok_0[i]]
        FileSystemAdapter::<VirtualFileSystem>::read_dir_view(v, q) is Ok && 0 <= i
            < FileSystemAdapter::<VirtualFileSystem>::read_dir_view(v, q)->Ok_0.len() implies {
        &&& FileSystemAdapter::<VirtualFileSystem>::read_dir_view(v, q)->Ok_0[i].path.components.len()
            == q.components.len() + 1
        &&& FileSystemAdapter::<VirtualFileSystem>::read_dir_view(v, q)->Ok_0[i].path.components.len()
            <= FileSystemAdapter::<VirtualFileSystem>::depth_bound_view(v)
    } by {
        lemma_vread_dir_within(v, q);
        let s = vread_dir_view(v, q)->Ok_0;
        assert(FileSystemAdapter::<VirtualFileSystem>::read_dir_view(v, q)->Ok_0[i]
            == crate::virt::status_entry(s[i]));
    }
}

/// A copy or a move over a well-formed virtual file system, whose reach fits
/// in a machine word, is given depth enough: any more than the depth bound
/// gives the same writes and leaves the guard the same.
pub proof fn law_virtual_translate_depth_is_enough<G: Guard>(
    v: VfsView,
    gv: G::V,
    src: PathView,
    dst: PathView,
    merge: bool,
    overwrite: bool,
    moving: bool,
    more: nat,
)
    requires
        vfs_wf(v),
        vfs_reach(v) <= usize::MAX,
        FileSystemAdapter::<VirtualFileSystem>::depth_bound_view(v) <= more,
    ensures
        translate_view::<FileSystemAdapter<VirtualFileSystem>, G>(
            v,
            gv,
            src,
            dst,
            merge,
            overwrite,
            moving,
            more,
        ) == translate_view::<FileSystemAdapter<VirtualFileSystem>, G>(
            v,
            gv,
            src,
            dst,
            merge,
            overwrite,
            moving,
            FileSystemAdapter::<VirtualFileSystem>::depth_bound_view(v),
        ),
{
    law_virtual_walks_within_bound(v);
    law_translate_depth_is_enough_within::<FileSystemAdapter<VirtualFileSystem>, G>(
        v,
        gv,
        src,
        dst,
        merge,
        overwrite,
        moving,
        more,
    );
}

/// A removal over a well-formed virtual file system, whose reach fits in a
/// machine word, is given depth enough: any more than the depth bound gives
/// the same writes and leaves the guard the same.
pub proof fn law_virtual_remove_depth_is_enough<G: Guard>(
    v: VfsView,
    gv: G::V,
    p: PathView,
    recursive: bool,
    more: nat,
)
    requires
        vfs_wf(v),
        vfs_reach(v) <= usize::MAX,
        FileSystemAdapter::<VirtualFileSystem>::depth_bound_view(v) <= more,
    ensures
        remove_view::<FileSystemAdapter<VirtualFileSystem>, G>(v, gv, p, recursive, more)
            == remove_view::<FileSystemAdapter<VirtualFileSystem>, G>(
            v,
            gv,
            p,
            recursive,
            FileSystemAdapter::<VirtualFileSystem>::depth_bound_view(v),
        ),
{
    law_virtual_walks_within_bound(v);
    law_remove_depth_is_enough_within::<FileSystemAdapter<VirtualFileSystem>, G>(
        v,
        gv,
        p,
        recursive,
        more,
    );
}

/// On any file system whose walks stay within its depth bound, the children
/// of a directory read there are each walked, within a copy or a move, with
/// the whole bound, as a fresh event on that child would be.
pub proof fn law_children_walk_as_fresh_events_within<F: ReadableFileSystem, G: Guard>(
    fv: F::V,
    gv: G::V,
    p: PathView,
    dst: PathView,
    merge: bool,
    overwrite: bool,
    moving: bool,
    acc: Seq<AtomicView>,
)
    requires
        walks_within::<F>(fv, F::depth_bound_view(fv)),
        F::read_dir_view(fv, p) is Ok,
    ensures
        translate_children_view::<F, G>(
            fv,
            gv,
            F::read_dir_view(fv, p)->Ok_0,
            dst,
            merge,
            overwrite,
            moving,
            F::depth_bound_view(fv),
            acc,
        ) == translate_children_view::<F, G>(
            fv,
            gv,
            F::read_dir_view(fv, p)->Ok_0,
            dst,
            merge,
            overwrite,
            moving,
            F::depth_bound_view(fv) + 1,
            acc,
        ),
{
    let b = F::depth_bound_view(fv);
    let kids = F::read_dir_view(fv, p)->Ok_0;
    assert(kids_within(kids, b, b)) by {
        assert forall|i: int| 0 <= i < kids.len() implies (#[trigger] kids[i]).path.components.len()
            <= b && kids[i].path.components.len() + b >= b + 1 by {
            assert(kids[i] == F::read_dir_view(fv, p)->Ok_0[i]);
        }
    }
    lemma_translate_children_enough::<F, G>(
        fv,
        gv,
        kids,
        dst,
        merge,
        overwrite,
        moving,
        b,
        b + 1,
        acc,
        b,
    );
}

} // verus!
