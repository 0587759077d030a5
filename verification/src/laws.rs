//! Properties that hold across the operations of the library.

use vstd::prelude::*;

use crate::errors::RepresentationErrorOf;
use crate::kind::Kind;
use crate::path::{parent_or_root_view, root_view, PathView};
use crate::atomic::{AtomicOf, AtomicView, apply_all, atomic_step};
use crate::container::{ContainerView, FsEventView, delayed_view, emitted_view, fresh_vfs, reset_view};
use crate::capability::{
    BlindGuard, Capability, DefaultGuard, Guard, QuietGuard, RegistrarGuard, Registry, ZealedGuard,
    refusal_view, registry_get, registry_index, registry_set,
};
use crate::disk::{
    RealFileSystem, RealNodeView, has_node, is_not_node, lemma_filter_nodes,
    lemma_node_lookup_none, lemma_node_lookup_some, node_lookup, real_copy_file_to_file_view,
    real_create_empty_directory_view, real_create_empty_file_view, real_exists, real_is_dir,
    real_is_file, real_remove_empty_directory_view, real_remove_file_view,
    real_safe_file_translation_view, real_size, real_wf, real_write_file, with_size,
};
use crate::errors::{DomainErrorView, InfrastructureErrorView, RepresentationErrorView};
use crate::path::{dot, dot_dot, normalize_view, normalized_components, nth_ancestor_view, starts_with_view};
use crate::port::{EntryView, FileSystemAdapter, ReadableFileSystem, WriteableFileSystem};
use crate::event::{
    create_view, missing_ancestors_view, parents_view, remove_children_view, remove_view,
    translate_children_view, translate_view,
};
use crate::capability::{answer_view, answered_view};
use crate::command::{entry_name, kind_label, list_lines_view};
use crate::errors::DomainErrorOf;
use crate::shell::{red_view, trimmed};
use crate::virt::VirtualFileSystem;
use crate::disk::{is_dir_node, real_status_view};
use crate::representation::{empty_delta, first_virtual_ancestor_from};
use crate::virt::{
    VfsView, VirtualState, lemma_vstatus_identity, state_exists, vcreate_kind_view, vfs_wf,
    vstatus_view,
};
use crate::representation::{
    is_virtual_view, lemma_detach_wf,
    attach_view, child_of, children_view, delta_wf, detach_view, get_view, identities_distinct,
    is_child_of, is_directory_empty_view, is_directory_view, is_file_view, is_not_identity,
    is_not_key, lemma_filter_from, lemma_filter_keeps, lemma_filter_none, lemma_lookup_index,
    lemma_lookup_none, lemma_lookup_some, has_identity, lookup, DeltaView, VirtualPathView,
    below, carry_step, carry_view, fold_steps, rebase_view, strictly_below,
};

verus! {

/// A filter that every element passes keeps the whole sequence.
pub proof fn lemma_filter_all<A>(s: Seq<A>, pred: spec_fn(A) -> bool)
    requires
        forall|i: int| 0 <= i < s.len() ==> pred(s[i]),
    ensures
        s.filter(pred) == s,
    decreases s.len(),
{
    reveal(Seq::filter);
    if s.len() > 0 {
        lemma_filter_all(s.drop_last(), pred);
        assert(s.drop_last().push(s.last()) =~= s);
    }
}

/// After a node is attached, it is found at its identity, as it was given.
pub proof fn law_attach_then_get(d: DeltaView, identity: PathView, source: Option<PathView>, kind: Kind)
    requires
        delta_wf(d),
        identity != root_view(),
        attach_view(d, identity, source, kind).1 is Ok,
    ensures
        get_view(attach_view(d, identity, source, kind).0, identity) == Ok::<
            Option<VirtualPathView>,
            crate::errors::RepresentationErrorView,
        >(Some(VirtualPathView { identity, source, kind })),
{
    let after = attach_view(d, identity, source, kind).0;
    let parent = parent_or_root_view(identity);
    if !d.keys.contains(parent) {
        assert(after.keys == d.keys.push(parent));
        assert(after.keys[d.keys.len() as int] == parent);
    }
    assert(after.keys.contains(parent));
    assert(identity.absolute);
    let n = after.entries.len() - 1;
    assert(after.entries[n] == VirtualPathView { identity, source, kind });
    if has_identity(d.entries, identity) {
        let i = choose|i: int| 0 <= i < d.entries.len() && d.entries[i].identity == identity;
        assert(d.keys.contains(parent_or_root_view(d.entries[i].identity)));
        lemma_lookup_index(d.entries, identity, i);
    }
    assert(!has_identity(d.entries, identity)) by {
        if d.keys.contains(parent_or_root_view(identity)) {
            lemma_lookup_none(d.entries, identity);
        }
    }
    assert(identities_distinct(after.entries)) by {
        assert forall|i: int, j: int|
            0 <= i < after.entries.len() && 0 <= j < after.entries.len() && i != j
            implies after.entries[i].identity != after.entries[j].identity by {
            if i == n {
                assert(after.entries[j] == d.entries[j]);
            } else if j == n {
                assert(after.entries[i] == d.entries[i]);
            }
        }
    }
    lemma_lookup_index(after.entries, identity, n);
}

/// After a node is detached, nothing is found at its identity.
pub proof fn law_detach_then_get(d: DeltaView, identity: PathView)
    requires
        delta_wf(d),
        detach_view(d, identity).1 is Ok,
    ensures
        get_view(detach_view(d, identity).0, identity) == Ok::<
            Option<VirtualPathView>,
            crate::errors::RepresentationErrorView,
        >(None),
{
    let after = detach_view(d, identity).0;
    lemma_lookup_some(d.entries, identity);
    let d1 = d.entries.filter(is_not_identity(identity));
    lemma_filter_from(d.entries, is_not_identity(identity));
    assert(!has_identity(d1, identity));
    let pred = crate::representation::is_not_child_of(identity);
    lemma_filter_from(d1, pred);
    assert(!has_identity(after.entries, identity)) by {
        if has_identity(after.entries, identity) {
            let i = choose|i: int| 0 <= i < after.entries.len() && after.entries[i].identity == identity;
            if after.entries != d1 {
                assert(d1.contains(after.entries[i]));
            } else {
                assert(d1[i].identity == identity);
            }
        }
    }
    lemma_lookup_none(after.entries, identity);
}

/// No path is both a directory and a file of a delta.
pub proof fn law_directory_or_file(d: DeltaView, p: PathView)
    ensures
        !(is_directory_view(d, p) == Ok::<bool, crate::errors::RepresentationErrorView>(true)
            && is_file_view(d, p) == Ok::<bool, crate::errors::RepresentationErrorView>(true)),
{
}

/// Attaching a node and then detaching it gives the delta back, when the
/// node was not a key and its parent, if a key, had children.
pub proof fn law_attach_detach_round_trip(
    d: DeltaView,
    identity: PathView,
    source: Option<PathView>,
    kind: Kind,
)
    requires
        delta_wf(d),
        identity != root_view(),
        attach_view(d, identity, source, kind).1 is Ok,
        !d.keys.contains(identity),
        d.keys.contains(parent_or_root_view(identity)) ==> !is_directory_empty_view(
            d,
            parent_or_root_view(identity),
        ),
    ensures
        detach_view(attach_view(d, identity, source, kind).0, identity).1 is Ok,
        detach_view(attach_view(d, identity, source, kind).0, identity).0 == d,
{
    let parent = parent_or_root_view(identity);
    let after = attach_view(d, identity, source, kind).0;
    law_attach_then_get(d, identity, source, kind);
    let n = after.entries.len() - 1;
    assert(!has_identity(d.entries, identity)) by {
        if has_identity(d.entries, identity) {
            let i = choose|i: int| 0 <= i < d.entries.len() && d.entries[i].identity == identity;
            assert(d.keys.contains(parent_or_root_view(d.entries[i].identity)));
            lemma_lookup_index(d.entries, identity, i);
        }
    }
    // the node goes
    reveal(Seq::filter);
    assert(after.entries.drop_last() =~= d.entries);
    lemma_filter_all(d.entries, is_not_identity(identity));
    let d1 = DeltaView { keys: after.keys, entries: d.entries };
    // the parent key
    if d.keys.contains(parent) {
        assert(after.keys == d.keys);
        let c = children_view(d, parent).unwrap();
        assert(c.len() > 0);
        assert(!is_directory_empty_view(d1, parent));
    } else {
        assert(after.keys =~= d.keys.push(parent));
        assert forall|i: int| 0 <= i < d.entries.len() implies !is_child_of(parent)(d.entries[i]) by {
            assert(d.keys.contains(parent_or_root_view(d.entries[i].identity)));
        }
        lemma_filter_none(d.entries, is_child_of(parent));
        assert(is_directory_empty_view(d1, parent));
        assert(after.keys.drop_last() =~= d.keys);
        assert forall|i: int| 0 <= i < d.keys.len() implies is_not_key(parent)(d.keys[i]) by {}
        lemma_filter_all(d.keys, is_not_key(parent));
        assert(after.keys.filter(is_not_key(parent)) =~= d.keys);
    }
}

/// The copy below `to` of a node below `from`.
pub open spec fn carried(x: VirtualPathView, from: PathView, to: PathView) -> VirtualPathView {
    VirtualPathView { identity: rebase_view(x.identity, from, to), source: x.source, kind: x.kind }
}

proof fn lemma_carry_fold(r: DeltaView, items: Seq<VirtualPathView>, from: PathView, to: PathView)
    requires
        fold_steps(r, items, carry_step(from, to)).1 is Ok,
    ensures
        forall|y: VirtualPathView|
            #[trigger] r.entries.contains(y) ==> fold_steps(r, items, carry_step(from, to)).0.entries.contains(y),
        forall|x: VirtualPathView|
            #[trigger] items.contains(x) && rebase_view(x.identity, from, to) != root_view()
                ==> fold_steps(r, items, carry_step(from, to)).0.entries.contains(carried(x, from, to)),
    decreases items.len(),
{
    let step = carry_step(from, to);
    if items.len() > 0 {
        let prev = fold_steps(r, items.drop_last(), step);
        assert(prev.1 is Ok);
        lemma_carry_fold(r, items.drop_last(), from, to);
        let x = items.last();
        let after = fold_steps(r, items, step);
        assert(after == attach_view(prev.0, rebase_view(x.identity, from, to), x.source, x.kind));
        let id = rebase_view(x.identity, from, to);
        assert(after.0.entries == prev.0.entries || (id != root_view() && after.0.entries
            == prev.0.entries.push(carried(x, from, to))));
        assert forall|y: VirtualPathView| #[trigger] prev.0.entries.contains(y) implies after.0.entries.contains(y) by {
            if after.0.entries != prev.0.entries {
                let i = choose|i: int| 0 <= i < prev.0.entries.len() && prev.0.entries[i] == y;
                assert(after.0.entries[i] == y);
            }
        }
        assert forall|z: VirtualPathView|
            #[trigger] items.contains(z) && rebase_view(z.identity, from, to) != root_view() implies after.0.entries.contains(
            carried(z, from, to),
        ) by {
            let i = choose|i: int| 0 <= i < items.len() && items[i] == z;
            if i < items.len() - 1 {
                assert(items.drop_last()[i] == z);
                assert(items.drop_last().contains(z));
            } else {
                assert(z == x);
                assert(after.0.entries == prev.0.entries.push(carried(x, from, to)));
                assert(after.0.entries[prev.0.entries.len() as int] == carried(x, from, to));
            }
        }
    }
}

/// Carrying the nodes below `from` over to `to` keeps every node and gives
/// each node below `from` a copy below `to`, with the same source and kind.
pub proof fn law_carry_copies_the_nodes_below(
    d: DeltaView,
    from: PathView,
    to: PathView,
    e: VirtualPathView,
)
    requires
        carry_view(d, from, to).1 is Ok,
        d.entries.contains(e),
        strictly_below(e.identity, from),
        rebase_view(e.identity, from, to) != root_view(),
    ensures
        carry_view(d, from, to).0.entries.contains(e),
        carry_view(d, from, to).0.entries.contains(carried(e, from, to)),
{
    let items = d.entries.filter(below(from));
    lemma_carry_fold(d, items, from, to);
    let i = choose|i: int| 0 <= i < d.entries.len() && d.entries[i] == e;
    lemma_filter_keeps(d.entries, below(from), i);
}

/// A creation that succeeds in a virtual file system, where nothing at or
/// above the path was removed, leaves the path existing with the kind that
/// was created.
pub proof fn law_virtual_create_then_status(v: VfsView, p: PathView, kind: Kind)
    requires
        vfs_wf(v),
        p != root_view(),
        is_virtual_view(v.sub, p) == Ok::<bool, RepresentationErrorView>(false),
        vcreate_kind_view(v, p, kind).1 is Ok,
    ensures
        vstatus_view(vcreate_kind_view(v, p, kind).0, p) matches Ok(s) && state_exists(s.state)
            && s.identity == (VirtualPathView { identity: p, source: None, kind }),
{
    let existing = vstatus_view(v, p)->Ok_0;
    let node = VirtualPathView { identity: p, source: None, kind };
    lemma_vstatus_identity(v, p);
    let after = vcreate_kind_view(v, p, kind).0;
    let base = match existing.state {
        VirtualState::Replaced | VirtualState::ExistsVirtually => detach_view(v.add, p).0,
        _ => v.add,
    };
    if existing.state == VirtualState::Replaced || existing.state == VirtualState::ExistsVirtually {
        lemma_detach_wf(v.add, p);
    }
    assert(after.add == attach_view(base, p, None, kind).0);
    assert(after.sub == v.sub);
    law_attach_then_get(base, p, None, kind);
    assert(get_view(after.add, p) == Ok::<Option<VirtualPathView>, RepresentationErrorView>(
        Some(node),
    ));
    assert(nth_ancestor_view(p, 0) == p) by {
        assert(p.components.take(p.components.len() as int) =~= p.components);
    }
    assert(is_virtual_view(after.add, p) == Ok::<bool, RepresentationErrorView>(true));
}

/// A directory made on the real file system is there, as a directory.
pub proof fn law_real_create_directory_then_status(s: Seq<RealNodeView>, p: PathView)
    requires
        real_wf(s),
        real_create_empty_directory_view(s, p).1 is Ok,
    ensures
        real_exists(real_create_empty_directory_view(s, p).0, p),
        real_is_dir(real_create_empty_directory_view(s, p).0, p),
{
    let n = RealNodeView { path: p, kind: Kind::Directory, size: 0 };
    lemma_node_lookup_none(s, p);
    lemma_lookup_push_new(s, n);
}

/// A file made on the real file system is there, as an empty file.
pub proof fn law_real_create_file_then_status(s: Seq<RealNodeView>, p: PathView)
    requires
        real_wf(s),
        real_create_empty_file_view(s, p).1 is Ok,
    ensures
        real_is_file(real_create_empty_file_view(s, p).0, p),
        real_size(real_create_empty_file_view(s, p).0, p) == 0,
{
    lemma_write_file_then_status(s, p, 0);
}

/// A file removed from the real file system is not there any more.
pub proof fn law_real_remove_file_then_absent(s: Seq<RealNodeView>, p: PathView)
    requires
        real_wf(s),
        real_remove_file_view(s, p).1 is Ok,
    ensures
        !real_exists(real_remove_file_view(s, p).0, p),
{
    lemma_lookup_filtered_out(s, p);
}

/// A directory removed from the real file system is not there any more.
pub proof fn law_real_remove_directory_then_absent(s: Seq<RealNodeView>, p: PathView)
    requires
        real_wf(s),
        real_remove_empty_directory_view(s, p).1 is Ok,
    ensures
        !real_exists(real_remove_empty_directory_view(s, p).0, p),
{
    lemma_lookup_filtered_out(s, p);
}

/// A file copied on the real file system is at its destination with the
/// size of its source.
pub proof fn law_real_copy_then_same_size(s: Seq<RealNodeView>, src: PathView, dst: PathView)
    requires
        real_wf(s),
        src != dst,
        real_copy_file_to_file_view(s, src, dst).1 is Ok,
    ensures
        real_is_file(real_copy_file_to_file_view(s, src, dst).0, dst),
        real_size(real_copy_file_to_file_view(s, src, dst).0, dst) == real_size(s, src),
{
    lemma_write_file_then_status(s, dst, real_size(s, src));
}

/// A write that the real file system refuses changes nothing.
pub proof fn law_real_refused_write_changes_nothing(s: Seq<RealNodeView>, a: AtomicView)
    requires
        real_wf(s),
        atomic_step::<FileSystemAdapter<RealFileSystem>>(s, a).1 is Err,
    ensures
        atomic_step::<FileSystemAdapter<RealFileSystem>>(s, a).0 == s,
{
    match a {
        AtomicOf::MoveFileToFile(src, dst) => {
            if real_safe_file_translation_view(s, src, dst) is Ok && src != dst {
                lemma_lookup_filter_other(s, src, dst);
                let f = s.filter(is_not_node(src));
                assert(real_is_dir(f, dst) == real_is_dir(s, dst));
                assert(real_is_file(f, dst) == real_is_file(s, dst));
                if dst == root_view() {
                    if node_lookup(s, dst) is Some {
                        lemma_node_lookup_some(s, dst);
                        let i = choose|i: int| 0 <= i < s.len() && s[i].path == dst && node_lookup(s, dst) == Some(s[i]);
                        assert(s[i].path.components.len() > 0);
                    }
                }
                assert(!real_is_dir(s, dst));
            }
        },
        _ => {},
    }
}

/// Filtering out the node at `p` leaves what is found at other paths.
proof fn lemma_lookup_filter_other(s: Seq<RealNodeView>, p: PathView, q: PathView)
    requires
        crate::disk::nodes_distinct(s),
        q != p,
    ensures
        node_lookup(s.filter(is_not_node(p)), q) == node_lookup(s, q),
{
    let f = s.filter(is_not_node(p));
    lemma_filter_nodes(s, is_not_node(p));
    crate::representation::lemma_filter_from(s, is_not_node(p));
    lemma_node_lookup_none(s, q);
    lemma_node_lookup_none(f, q);
    if node_lookup(s, q) is Some {
        lemma_node_lookup_some(s, q);
        let i = choose|i: int| 0 <= i < s.len() && s[i].path == q && node_lookup(s, q) == Some(s[i]);
        crate::representation::lemma_filter_keeps(s, is_not_node(p), i);
        let j = choose|j: int| 0 <= j < f.len() && f[j] == s[i];
        crate::disk::lemma_node_lookup_index(f, q, j);
    } else {
        assert(!has_node(f, q)) by {
            if has_node(f, q) {
                let j = choose|j: int| 0 <= j < f.len() && f[j].path == q;
                assert(s.contains(f[j]));
                let k = choose|k: int| 0 <= k < s.len() && s[k] == f[j];
            }
        }
    }
}

/// Adding the path that a write makes: `n` is found at its path.
proof fn lemma_lookup_push_new(s: Seq<RealNodeView>, n: RealNodeView)
    requires
        !has_node(s, n.path),
    ensures
        node_lookup(s.push(n), n.path) == Some(n),
    decreases s.len(),
{
    if s.len() > 0 {
        assert(s[0].path != n.path);
        assert(s.push(n).drop_first() =~= s.drop_first().push(n));
        assert(!has_node(s.drop_first(), n.path)) by {
            if has_node(s.drop_first(), n.path) {
                let i = choose|i: int| 0 <= i < s.drop_first().len() && s.drop_first()[i].path == n.path;
                assert(s[i + 1].path == n.path);
            }
        }
        lemma_lookup_push_new(s.drop_first(), n);
    }
}

/// The node at `p` after its size is set.
proof fn lemma_lookup_with_size(s: Seq<RealNodeView>, p: PathView, size: u64)
    ensures
        node_lookup(with_size(s, p, size), p) == match node_lookup(s, p) {
            Some(n) => Some(RealNodeView { size, ..n }),
            None => None,
        },
    decreases s.len(),
{
    if s.len() > 0 {
        assert(with_size(s, p, size).drop_first() =~= with_size(s.drop_first(), p, size));
        lemma_lookup_with_size(s.drop_first(), p, size);
    }
}

/// Nothing is found at `p` once its node is filtered out.
proof fn lemma_lookup_filtered_out(s: Seq<RealNodeView>, p: PathView)
    ensures
        node_lookup(s.filter(is_not_node(p)), p) is None,
{
    let f = s.filter(is_not_node(p));
    crate::representation::lemma_filter_from(s, is_not_node(p));
    assert(!has_node(f, p)) by {
        if has_node(f, p) {
            let i = choose|i: int| 0 <= i < f.len() && f[i].path == p;
            assert(is_not_node(p)(f[i]));
        }
    }
    lemma_node_lookup_none(f, p);
}

/// After a file is written at `p`, it is a file of the size written.
proof fn lemma_write_file_then_status(s: Seq<RealNodeView>, p: PathView, size: u64)
    requires
        real_wf(s),
        real_write_file(s, p, size).1 is Ok,
    ensures
        real_is_file(real_write_file(s, p, size).0, p),
        real_size(real_write_file(s, p, size).0, p) == size,
{
    lemma_lookup_with_size(s, p, size);
    if !real_is_file(s, p) {
        lemma_node_lookup_none(s, p);
        if node_lookup(s, p) is Some {
            lemma_node_lookup_some(s, p);
            let i = choose|i: int| 0 <= i < s.len() && s[i].path == p && node_lookup(s, p) == Some(s[i]);
            assert(s[i].kind == Kind::File || s[i].kind == Kind::Directory);
        }
        lemma_lookup_push_new(s, RealNodeView { path: p, kind: Kind::File, size });
    }
}

/// Applying the writes of two transactions one after the other is applying
/// their concatenation: the second starts where the first stopped, unless
/// the first failed.
pub proof fn law_apply_concatenation<F: WriteableFileSystem>(
    v: F::V,
    s: Seq<AtomicView>,
    t: Seq<AtomicView>,
)
    ensures
        apply_all::<F>(v, s).1 is Err ==> apply_all::<F>(v, s + t) == apply_all::<F>(v, s),
        apply_all::<F>(v, s).1 is Ok ==> {
            let joined = apply_all::<F>(v, s + t);
            let second = apply_all::<F>(apply_all::<F>(v, s).0, t);
            &&& joined.0 == second.0
            &&& (joined.1 is Ok) == (second.1 is Ok)
            &&& joined.1 is Err ==> joined.1->Err_0 == second.1->Err_0
        },
    decreases t.len(),
{
    let first = apply_all::<F>(v, s);
    if t.len() == 0 {
        assert(s + t =~= s);
        assert(apply_all::<F>(first.0, t) == (first.0, Ok::<(), InfrastructureErrorView>(())));
    } else {
        assert((s + t).drop_last() =~= s + t.drop_last());
        assert((s + t).last() == t.last());
        law_apply_concatenation::<F>(v, s, t.drop_last());
        let before = apply_all::<F>(v, s + t.drop_last());
        assert(apply_all::<F>(v, s + t) == match before.1 {
            Err(e) => (before.0, Err(e)),
            Ok(()) => atomic_step::<F>(before.0, t.last()),
        });
        if first.1 is Ok {
            let mid = apply_all::<F>(first.0, t.drop_last());
            assert(apply_all::<F>(first.0, t) == match mid.1 {
                Err(e) => (mid.0, Err(e)),
                Ok(()) => atomic_step::<F>(mid.0, t.last()),
            });
        }
    }
}

/// A sequence of writes succeeds exactly when each write succeeds on the
/// state that the writes before it left.
pub proof fn law_apply_succeeds_iff_every_step_does<F: WriteableFileSystem>(
    v: F::V,
    s: Seq<AtomicView>,
)
    ensures
        apply_all::<F>(v, s).1 is Ok <==> forall|k: int|
            0 <= k < s.len() ==> (#[trigger] atomic_step::<F>(apply_all::<F>(v, s.take(k)).0, s[k])).1 is Ok,
    decreases s.len(),
{
    if s.len() > 0 {
        let n = s.len() - 1;
        law_apply_succeeds_iff_every_step_does::<F>(v, s.drop_last());
        assert forall|k: int| 0 <= k < n implies #[trigger] s.take(k) == s.drop_last().take(k) && s[k]
            == s.drop_last()[k] by {
            assert(s.take(k) =~= s.drop_last().take(k));
        }
        assert(s.take(n) =~= s.drop_last());
        if apply_all::<F>(v, s).1 is Ok {
            assert(apply_all::<F>(v, s.drop_last()).1 is Ok);
            assert forall|k: int| 0 <= k < s.len() implies (#[trigger] atomic_step::<F>(
                apply_all::<F>(v, s.take(k)).0,
                s[k],
            )).1 is Ok by {
                if k < n {
                    assert(s.take(k) == s.drop_last().take(k));
                    assert(atomic_step::<F>(apply_all::<F>(v, s.drop_last().take(k)).0, s.drop_last()[k]).1 is Ok);
                }
            }
        } else {
            if apply_all::<F>(v, s.drop_last()).1 is Ok {
                assert(atomic_step::<F>(apply_all::<F>(v, s.take(n)).0, s[n]).1 is Err);
            } else {
                let k = choose|k: int|
                    0 <= k < n && (#[trigger] atomic_step::<F>(
                        apply_all::<F>(v, s.drop_last().take(k)).0,
                        s.drop_last()[k],
                    )).1 is Err;
                assert(s.take(k) == s.drop_last().take(k));
                assert(atomic_step::<F>(apply_all::<F>(v, s.take(k)).0, s[k]).1 is Err);
            }
        }
    }
}

/// The shape of normalised components: no `.`, and every `..` before every
/// name, with none at all below the root.
pub open spec fn normal_components(absolute: bool, st: Seq<Seq<char>>) -> bool {
    &&& forall|i: int| 0 <= i < st.len() ==> #[trigger] st[i] != dot()
    &&& forall|i: int, j: int|
        0 <= i < j < st.len() && #[trigger] st[j] == dot_dot() ==> #[trigger] st[i] == dot_dot()
    &&& absolute ==> forall|i: int| 0 <= i < st.len() ==> #[trigger] st[i] != dot_dot()
}

proof fn lemma_normalized_shape(absolute: bool, comps: Seq<Seq<char>>)
    ensures
        normal_components(absolute, normalized_components(absolute, comps)),
    decreases comps.len(),
{
    assert(dot().len() == 1 && dot_dot().len() == 2);
    if comps.len() > 0 {
        lemma_normalized_shape(absolute, comps.drop_last());
        let st = normalized_components(absolute, comps.drop_last());
        let r = normalized_components(absolute, comps);
        let c = comps.last();
        if c != dot() && !(c == dot_dot() && st.len() > 0 && st.last() != dot_dot()) && !(c
            == dot_dot() && st.len() == 0 && absolute) {
            assert(r == st.push(c));
            assert forall|i: int, j: int|
                0 <= i < j < r.len() && #[trigger] r[j] == dot_dot() implies #[trigger] r[i]
                == dot_dot() by {
                if j == r.len() - 1 {
                    if c == dot_dot() && st.len() > 0 {
                        assert(st.last() == dot_dot());
                        assert(r[i] == st[i]);
                        if i < st.len() - 1 {
                            assert(st[st.len() - 1] == dot_dot());
                        }
                    }
                } else {
                    assert(r[i] == st[i] && r[j] == st[j]);
                }
            }
            assert forall|i: int| 0 <= i < r.len() implies #[trigger] r[i] != dot() by {
                if i < st.len() {
                    assert(r[i] == st[i]);
                }
            }
        } else if c == dot_dot() && st.len() > 0 && st.last() != dot_dot() {
            assert(r == st.drop_last());
            assert forall|i: int, j: int|
                0 <= i < j < r.len() && #[trigger] r[j] == dot_dot() implies #[trigger] r[i]
                == dot_dot() by {
                assert(r[i] == st[i] && r[j] == st[j]);
            }
            assert forall|i: int| 0 <= i < r.len() implies #[trigger] r[i] != dot() by {
                assert(r[i] == st[i]);
            }
            if absolute {
                assert forall|i: int| 0 <= i < r.len() implies #[trigger] r[i] != dot_dot() by {
                    assert(r[i] == st[i]);
                }
            }
        }
    }
}

proof fn lemma_normal_is_fixed(absolute: bool, st: Seq<Seq<char>>)
    requires
        normal_components(absolute, st),
    ensures
        normalized_components(absolute, st) == st,
    decreases st.len(),
{
    assert(dot().len() == 1 && dot_dot().len() == 2);
    if st.len() > 0 {
        let init = st.drop_last();
        assert forall|i: int, j: int|
            0 <= i < j < init.len() && #[trigger] init[j] == dot_dot() implies #[trigger] init[i]
            == dot_dot() by {
            assert(init[i] == st[i] && init[j] == st[j]);
        }
        assert forall|i: int| 0 <= i < init.len() implies #[trigger] init[i] != dot() by {
            assert(init[i] == st[i]);
        }
        if absolute {
            assert forall|i: int| 0 <= i < init.len() implies #[trigger] init[i] != dot_dot() by {
                assert(init[i] == st[i]);
            }
        }
        lemma_normal_is_fixed(absolute, init);
        let c = st.last();
        assert(c != dot());
        if c == dot_dot() && init.len() > 0 {
            assert(st[init.len() - 1] == dot_dot());
            assert(init.last() == dot_dot());
        }
        assert(init.push(c) =~= st);
    }
}

/// Normalising a path once is enough: the result is made of names and, for
/// a relative path, leading `..` only, or is `.` alone; normalising it again
/// gives it back.
pub proof fn law_normalize_is_idempotent(p: PathView)
    ensures
        normalize_view(normalize_view(p)) == normalize_view(p),
        normalize_view(p).components == seq![dot()] || normal_components(
            normalize_view(p).absolute,
            normalize_view(p).components,
        ),
{
    let n = normalized_components(p.absolute, p.components);
    lemma_normalized_shape(p.absolute, p.components);
    if !p.absolute && n.len() == 0 {
        let q = normalize_view(p);
        let one: Seq<Seq<char>> = seq![dot()];
        assert(one.drop_last() =~= Seq::<Seq<char>>::empty());
        assert(normalized_components(false, one.drop_last()) == Seq::<Seq<char>>::empty());
        assert(one.last() == dot());
        assert(normalized_components(false, one).len() == 0);
    } else {
        lemma_normal_is_fixed(p.absolute, n);
    }
}

/// Adding a capability grants it; taking it out refuses it; the others are
/// left as they were.
pub proof fn law_capabilities_add_sub(c: Set<Capability>, x: Capability, y: Capability)
    ensures
        c.insert(x).contains(x),
        !c.remove(x).contains(x),
        y != x ==> (c.insert(x).contains(y) == c.contains(y) && c.remove(x).contains(y)
            == c.contains(y)),
{
}

/// Every guard lets through what the event asked for.
pub proof fn law_guards_let_default_through(c: Capability, target: PathView)
    ensures
        ZealedGuard::authorize_view((), c, true, target) == ((), Ok::<bool, DomainErrorView>(true)),
        BlindGuard::authorize_view((), c, true, target) == ((), Ok::<bool, DomainErrorView>(true)),
        QuietGuard::authorize_view((), c, true, target) == ((), Ok::<bool, DomainErrorView>(true)),
        DefaultGuard::authorize_view((), c, true, target) == ((), Ok::<bool, DomainErrorView>(
            true,
        )),
{
}

/// What the event did not ask for, the zealed guard refuses with the error
/// of the capability, the quiet guard skips and the blind guard allows.
pub proof fn law_guards_on_sensitive_operations(c: Capability, target: PathView)
    ensures
        ZealedGuard::authorize_view((), c, false, target) == ((), Err::<bool, DomainErrorView>(
            refusal_view(c, target),
        )),
        QuietGuard::authorize_view((), c, false, target) == ((), Ok::<bool, DomainErrorView>(
            false,
        )),
        BlindGuard::authorize_view((), c, false, target) == ((), Ok::<bool, DomainErrorView>(true)),
{
}

/// The registrar remembers: once a capability is granted on a target, it is
/// granted again there without asking the inner guard.
pub proof fn law_registrar_remembers<G: Guard>(
    v: (G::V, Registry),
    c: Capability,
    first: bool,
    then: bool,
    target: PathView,
)
    requires
        RegistrarGuard::<G>::authorize_view(v, c, first, target).1 == Ok::<bool, DomainErrorView>(
            true,
        ),
    ensures
        ({
            let after = RegistrarGuard::<G>::authorize_view(v, c, first, target).0;
            let again = RegistrarGuard::<G>::authorize_view(after, c, then, target);
            again.1 == Ok::<bool, DomainErrorView>(true) && again.0.0 == after.0
        }),
{
    let after = RegistrarGuard::<G>::authorize_view(v, c, first, target).0;
    let caps = registry_get(v.1, target);
    lemma_registry_set_get(v.1, target, caps.insert(c));
}

/// What the registry holds for a target right after it was set there.
pub proof fn lemma_registry_set_get(reg: Registry, p: PathView, caps: Set<Capability>)
    ensures
        registry_get(registry_set(reg, p, caps), p) == caps,
{
    lemma_registry_index_bounds(reg, p, 0);
    match registry_index(reg, p, 0) {
        Some(i) => {
            lemma_registry_index_update(reg, p, 0, i, caps);
        },
        None => {
            lemma_registry_index_push(reg, p, 0, caps);
        },
    }
}

proof fn lemma_registry_index_bounds(reg: Registry, p: PathView, from: nat)
    ensures
        registry_index(reg, p, from) matches Some(i) ==> from <= i < reg.len() && reg[i as int].0
            == p && forall|j: int| from <= j < i ==> reg[j].0 != p,
        registry_index(reg, p, from) is None ==> forall|j: int| from <= j < reg.len() ==> reg[j].0 != p,
    decreases reg.len() - from,
{
    if from < reg.len() && reg[from as int].0 != p {
        lemma_registry_index_bounds(reg, p, from + 1);
    }
}

proof fn lemma_registry_index_update(reg: Registry, p: PathView, from: nat, i: nat, caps: Set<Capability>)
    requires
        registry_index(reg, p, from) == Some(i),
    ensures
        registry_index(reg.update(i as int, (p, caps)), p, from) == Some(i),
    decreases reg.len() - from,
{
    lemma_registry_index_bounds(reg, p, from);
    if from < i {
        lemma_registry_index_update(reg, p, from + 1, i, caps);
    }
}

proof fn lemma_registry_index_push(reg: Registry, p: PathView, from: nat, caps: Set<Capability>)
    requires
        registry_index(reg, p, from) is None,
        from <= reg.len(),
    ensures
        registry_index(reg.push((p, caps)), p, from) == Some(reg.len()),
    decreases reg.len() - from,
{
    lemma_registry_index_bounds(reg, p, from);
    if from < reg.len() {
        lemma_registry_index_push(reg, p, from + 1, caps);
    }
}


/// Resetting a session forgets whatever was played or queued since: the
/// reset of a session after an event was played, or queued, is the reset of
/// the session before.
pub proof fn law_reset_forgets(c: ContainerView, e: FsEventView)
    ensures
        reset_view(emitted_view(c, e)) == reset_view(c),
        reset_view(delayed_view(c, e)) == reset_view(c),
{
}

proof fn lemma_empty_delta_has_no_ancestor(p: PathView, i: nat)
    ensures
        first_virtual_ancestor_from(empty_delta(), p, i) == Ok::<
            Option<(nat, VirtualPathView)>,
            RepresentationErrorView,
        >(None),
    decreases p.components.len() + 1 - i,
{
    if i <= p.components.len() {
        lemma_empty_delta_has_no_ancestor(p, i + 1);
    }
}

/// A session with nothing played shows the disk as it is: on a virtual file
/// system with no addition and no removal, every absolute path exists, is a
/// directory or is a file exactly when it does on the real one. After a
/// successful `Container::apply` the session is such a one.
pub proof fn law_fresh_session_shows_the_disk(c: ContainerView, p: PathView)
    requires
        real_wf(c.real),
        c.vfs == fresh_vfs(c.real),
        p.absolute,
    ensures
        FileSystemAdapter::<VirtualFileSystem>::status_view(c.vfs, p) == Ok::<
            crate::port::EntryView,
            crate::errors::QueryErrorView,
        >(real_status_view(c.real, p)),
{
    lemma_empty_delta_has_no_ancestor(p, 0);
    assert(crate::representation::is_virtual_view(empty_delta(), p) == Ok::<
        bool,
        RepresentationErrorView,
    >(false));
    if node_lookup(c.real, p) is Some {
        lemma_node_lookup_some(c.real, p);
        let i = choose|i: int|
            0 <= i < c.real.len() && c.real[i].path == p && node_lookup(c.real, p) == Some(
                c.real[i],
            );
        assert(c.real[i].path.components.len() > 0);
        assert(p != root_view());
        assert(c.real[i].kind == Kind::File || c.real[i].kind == Kind::Directory);
    }
}

/// A copy or a move that went through with some depth to spare gives the
/// same writes, and leaves the guard the same, with any more depth: the depth
/// bound decides only whether the walk stops, never what it writes.
pub proof fn law_translate_more_depth_changes_nothing<F: ReadableFileSystem, G: Guard>(
    fv: F::V,
    gv: G::V,
    src: PathView,
    dst: PathView,
    merge: bool,
    overwrite: bool,
    moving: bool,
    fuel: nat,
    more: nat,
)
    requires
        fuel <= more,
        translate_view::<F, G>(fv, gv, src, dst, merge, overwrite, moving, fuel).1 is Ok,
    ensures
        translate_view::<F, G>(fv, gv, src, dst, merge, overwrite, moving, more)
            == translate_view::<F, G>(fv, gv, src, dst, merge, overwrite, moving, fuel),
    decreases fuel, 1nat, 0nat,
{
    match F::status_view(fv, src) {
        Err(_) => {},
        Ok(source) => if source.exists {
            match F::status_view(fv, dst) {
                Err(_) => {},
                Ok(destination) => {
                    if source.is_dir && !crate::path::starts_with_view(destination.path, source.path) {
                        if destination.exists {
                            if destination.is_dir {
                                let asked = G::authorize_view(
                                    gv,
                                    Capability::Merge,
                                    merge,
                                    destination.path,
                                );
                                if asked.1 == Ok::<bool, DomainErrorView>(true) {
                                    if let Ok(kids) = F::read_dir_view(fv, source.path) {
                                        lemma_translate_children_more_depth::<F, G>(
                                            fv,
                                            asked.0,
                                            kids,
                                            destination.path,
                                            merge,
                                            overwrite,
                                            moving,
                                            fuel,
                                            more,
                                            seq![],
                                        );
                                    }
                                }
                            }
                        } else if !(!moving && F::binds_copies_view()) {
                            if let Ok(kids) = F::read_dir_view(fv, source.path) {
                                lemma_translate_children_more_depth::<F, G>(
                                    fv,
                                    gv,
                                    kids,
                                    destination.path,
                                    merge,
                                    overwrite,
                                    moving,
                                    fuel,
                                    more,
                                    seq![AtomicOf::CreateEmptyDirectory(destination.path)],
                                );
                            }
                        }
                    }
                },
            }
        },
    }
}

proof fn lemma_translate_children_more_depth<F: ReadableFileSystem, G: Guard>(
    fv: F::V,
    gv: G::V,
    kids: Seq<EntryView>,
    dst: PathView,
    merge: bool,
    overwrite: bool,
    moving: bool,
    fuel: nat,
    more: nat,
    acc: Seq<AtomicView>,
)
    requires
        fuel <= more,
    ensures
        translate_children_view::<F, G>(fv, gv, kids, dst, merge, overwrite, moving, fuel, acc).1 is Ok
            ==> translate_children_view::<F, G>(fv, gv, kids, dst, merge, overwrite, moving, more, acc)
            == translate_children_view::<F, G>(fv, gv, kids, dst, merge, overwrite, moving, fuel, acc),
    decreases fuel, 0nat, kids.len(),
{
    if kids.len() > 0 {
        lemma_translate_children_more_depth::<F, G>(
            fv,
            gv,
            kids.drop_last(),
            dst,
            merge,
            overwrite,
            moving,
            fuel,
            more,
            acc,
        );
        let before = translate_children_view::<F, G>(
            fv,
            gv,
            kids.drop_last(),
            dst,
            merge,
            overwrite,
            moving,
            fuel,
            acc,
        );
        if before.1 is Ok && fuel > 0 {
            let child = kids.last().path;
            let r = translate_view::<F, G>(
                fv,
                before.0,
                child,
                crate::path::push_last_view(dst, child),
                merge,
                overwrite,
                moving,
                (fuel - 1) as nat,
            );
            if r.1 is Ok {
                law_translate_more_depth_changes_nothing::<F, G>(
                    fv,
                    before.0,
                    child,
                    crate::path::push_last_view(dst, child),
                    merge,
                    overwrite,
                    moving,
                    (fuel - 1) as nat,
                    (more - 1) as nat,
                );
            }
        }
    }
}

/// A removal that went through with some depth to spare gives the same
/// writes, and leaves the guard the same, with any more depth.
pub proof fn law_remove_more_depth_changes_nothing<F: ReadableFileSystem, G: Guard>(
    fv: F::V,
    gv: G::V,
    p: PathView,
    recursive: bool,
    fuel: nat,
    more: nat,
)
    requires
        fuel <= more,
        remove_view::<F, G>(fv, gv, p, recursive, fuel).1 is Ok,
    ensures
        remove_view::<F, G>(fv, gv, p, recursive, more) == remove_view::<F, G>(
            fv,
            gv,
            p,
            recursive,
            fuel,
        ),
    decreases fuel, 1nat, 0nat,
{
    if let Ok(entry) = F::status_view(fv, p) {
        if entry.exists && !entry.is_file && entry.is_dir {
            if let Ok(kids) = F::read_dir_view(fv, entry.path) {
                if kids.len() > 0 {
                    let asked = G::authorize_view(gv, Capability::Recursive, recursive, entry.path);
                    if asked.1 == Ok::<bool, DomainErrorView>(true) {
                        lemma_remove_children_more_depth::<F, G>(fv, asked.0, kids, fuel, more, seq![]);
                    }
                }
            }
        }
    }
}

proof fn lemma_remove_children_more_depth<F: ReadableFileSystem, G: Guard>(
    fv: F::V,
    gv: G::V,
    kids: Seq<EntryView>,
    fuel: nat,
    more: nat,
    acc: Seq<AtomicView>,
)
    requires
        fuel <= more,
    ensures
        remove_children_view::<F, G>(fv, gv, kids, fuel, acc).1 is Ok ==> remove_children_view::<
            F,
            G,
        >(fv, gv, kids, more, acc) == remove_children_view::<F, G>(fv, gv, kids, fuel, acc),
    decreases fuel, 0nat, kids.len(),
{
    if kids.len() > 0 {
        lemma_remove_children_more_depth::<F, G>(fv, gv, kids.drop_last(), fuel, more, acc);
        let before = remove_children_view::<F, G>(fv, gv, kids.drop_last(), fuel, acc);
        if before.1 is Ok && fuel > 0 {
            let r = remove_view::<F, G>(fv, before.0, kids.last().path, true, (fuel - 1) as nat);
            if r.1 is Ok {
                law_remove_more_depth_changes_nothing::<F, G>(
                    fv,
                    before.0,
                    kids.last().path,
                    true,
                    (fuel - 1) as nat,
                    (more - 1) as nat,
                );
            }
        }
    }
}

proof fn lemma_vlookup_push(entries: Seq<VirtualPathView>, e: VirtualPathView, q: PathView)
    ensures
        lookup(entries.push(e), q) == (if lookup(entries, q) is Some {
            lookup(entries, q)
        } else if e.identity == q {
            Some(e)
        } else {
            None
        }),
    decreases entries.len(),
{
    if entries.len() > 0 {
        assert(entries.push(e).drop_first() =~= entries.drop_first().push(e));
        assert(entries.push(e)[0] == entries[0]);
        lemma_vlookup_push(entries.drop_first(), e, q);
    } else {
        assert(entries.push(e).drop_first() =~= Seq::<VirtualPathView>::empty());
        assert(entries.push(e)[0] == e);
        assert(lookup(Seq::<VirtualPathView>::empty(), q) is None);
    }
}

proof fn lemma_push_contains(s: Seq<PathView>, x: PathView, y: PathView)
    ensures
        s.push(x).contains(y) == (s.contains(y) || y == x),
{
    if s.push(x).contains(y) && y != x {
        let j = choose|j: int| 0 <= j < s.push(x).len() && s.push(x)[j] == y;
        assert(j < s.len());
        assert(s[j] == y);
    }
    if s.contains(y) {
        let j = choose|j: int| 0 <= j < s.len() && s[j] == y;
        assert(s.push(x)[j] == y);
    }
    assert(s.push(x)[s.len() as int] == x);
}

/// In a well-formed delta, nothing is found below a path that is not a key.
proof fn lemma_no_key_no_child(d: DeltaView, q: PathView)
    requires
        delta_wf(d),
        !d.keys.contains(parent_or_root_view(q)),
    ensures
        lookup(d.entries, q) is None,
{
    if lookup(d.entries, q) is Some {
        lemma_lookup_some(d.entries, q);
        let i = choose|i: int|
            0 <= i < d.entries.len() && d.entries[i].identity == q && lookup(d.entries, q) == Some(
                d.entries[i],
            );
        assert(d.keys.contains(parent_or_root_view(d.entries[i].identity)));
    }
}

/// Two deltas agree when every path finds the same thing in both.
pub open spec fn deltas_agree(d1: DeltaView, d2: DeltaView) -> bool {
    forall|p: PathView| #[trigger] get_view(d1, p) == get_view(d2, p)
}

/// Deltas that agree on every path give the same outcome to the same
/// attachment, and still agree on every path afterwards. Attaching a virtual
/// path attaches its identity, source and kind, so the same holds of
/// `attach_virtual` on one delta against `attach` of those fields on the
/// other.
pub proof fn law_attach_keeps_agreement(
    d1: DeltaView,
    d2: DeltaView,
    identity: PathView,
    source: Option<PathView>,
    kind: Kind,
)
    requires
        delta_wf(d1),
        delta_wf(d2),
        deltas_agree(d1, d2),
    ensures
        attach_view(d1, identity, source, kind).1 == attach_view(d2, identity, source, kind).1,
        deltas_agree(
            attach_view(d1, identity, source, kind).0,
            attach_view(d2, identity, source, kind).0,
        ),
{
    assert(get_view(d1, identity) == get_view(d2, identity));
    if get_view(d1, identity) == Ok::<Option<VirtualPathView>, RepresentationErrorView>(None) {
        let par = parent_or_root_view(identity);
        let e1 = if d1.keys.contains(par) {
            d1
        } else {
            DeltaView { keys: d1.keys.push(par), entries: d1.entries }
        };
        let e2 = if d2.keys.contains(par) {
            d2
        } else {
            DeltaView { keys: d2.keys.push(par), entries: d2.entries }
        };
        assert(e1.keys.contains(par)) by {
            if !d1.keys.contains(par) {
                assert(e1.keys[d1.keys.len() as int] == par);
            }
        }
        assert(e2.keys.contains(par)) by {
            if !d2.keys.contains(par) {
                assert(e2.keys[d2.keys.len() as int] == par);
            }
        }
        assert forall|q: PathView| #[trigger] get_view(e1, q) == get_view(e2, q) by {
            assert(get_view(d1, q) == get_view(d2, q));
            let pq = parent_or_root_view(q);
            lemma_push_contains(d1.keys, par, pq);
            lemma_push_contains(d2.keys, par, pq);
            assert(e1.keys.contains(pq) == (d1.keys.contains(pq) || pq == par));
            assert(e2.keys.contains(pq) == (d2.keys.contains(pq) || pq == par));
            if pq == par {
                if !d1.keys.contains(par) {
                    lemma_no_key_no_child(d1, q);
                }
                if !d2.keys.contains(par) {
                    lemma_no_key_no_child(d2, q);
                }
            }
        }
        if identity != root_view() && identity.absolute && is_file_view(e1, par) == Ok::<
            bool,
            RepresentationErrorView,
        >(false) {
            assert(get_view(e1, par) == get_view(e2, par));
            let item = VirtualPathView { identity, source, kind };
            let f1 = DeltaView { keys: e1.keys, entries: e1.entries.push(item) };
            let f2 = DeltaView { keys: e2.keys, entries: e2.entries.push(item) };
            assert(attach_view(d1, identity, source, kind).0 == f1);
            assert(attach_view(d2, identity, source, kind).0 == f2);
            assert forall|q: PathView| #[trigger] get_view(f1, q) == get_view(f2, q) by {
                assert(get_view(e1, q) == get_view(e2, q));
                lemma_vlookup_push(e1.entries, item, q);
                lemma_vlookup_push(e2.entries, item, q);
                if q == identity {
                    assert(get_view(e1, identity) == get_view(e2, identity));
                    if !d1.keys.contains(par) {
                        lemma_no_key_no_child(d1, identity);
                    }
                    if !d2.keys.contains(par) {
                        lemma_no_key_no_child(d2, identity);
                    }
                }
            }
        } else {
            assert(get_view(e1, par) == get_view(e2, par));
        }
    }
}

proof fn lemma_node_lookup_push(s: Seq<RealNodeView>, n: RealNodeView, q: PathView)
    ensures
        node_lookup(s.push(n), q) == (if node_lookup(s, q) is Some {
            node_lookup(s, q)
        } else if n.path == q {
            Some(n)
        } else {
            None
        }),
    decreases s.len(),
{
    let t = s.push(n);
    if s.len() > 0 {
        assert(t.drop_first() =~= s.drop_first().push(n));
        assert(t[0] == s[0]);
        lemma_node_lookup_push(s.drop_first(), n, q);
        assert(node_lookup(t, q) == if s[0].path == q {
            Some(s[0])
        } else {
            node_lookup(s.drop_first().push(n), q)
        });
    } else {
        assert(t.drop_first() =~= Seq::<RealNodeView>::empty());
        assert(t[0] == n);
        assert(node_lookup(t, q) == if n.path == q {
            Some(n)
        } else {
            node_lookup(t.drop_first(), q)
        });
        assert(node_lookup(t.drop_first(), q) is None);
    }
}

/// Nothing of a well-formed real file system lies below a path that is not
/// there.
proof fn lemma_nothing_below_absent(s: Seq<RealNodeView>, p: PathView, q: PathView)
    requires
        real_wf(s),
        !real_exists(s, p),
        strictly_below(q, p),
    ensures
        node_lookup(s, q) is None,
    decreases q.components.len(),
{
    if node_lookup(s, q) is Some {
        lemma_node_lookup_some(s, q);
        let i = choose|i: int|
            0 <= i < s.len() && s[i].path == q && node_lookup(s, q) == Some(s[i]);
        let par = parent_or_root_view(q);
        assert(is_dir_node(s, par));
        assert(par.components =~= q.components.drop_last());
        assert(par.absolute == q.absolute);
        if par.components.len() == p.components.len() {
            assert(par.components =~= p.components) by {
                assert forall|k: int| 0 <= k < p.components.len() implies par.components[k]
                    == p.components[k] by {
                    assert(q.components[k] == p.components[k]);
                }
            }
            assert(par == p);
            if par != root_view() {
                let j = choose|j: int|
                    0 <= j < s.len() && s[j].path == par && s[j].kind == Kind::Directory;
                lemma_lookup_some_index(s, par, j);
            }
        } else {
            assert(strictly_below(par, p)) by {
                assert(p.components.is_prefix_of(par.components)) by {
                    assert forall|k: int| 0 <= k < p.components.len() implies p.components[k]
                        == par.components[k] by {
                        assert(q.components[k] == p.components[k]);
                    }
                }
            }
            if par != root_view() {
                let j = choose|j: int|
                    0 <= j < s.len() && s[j].path == par && s[j].kind == Kind::Directory;
                lemma_lookup_some_index(s, par, j);
            }
            lemma_nothing_below_absent(s, p, par);
        }
    }
}

/// A node at index `j` is found.
proof fn lemma_lookup_some_index(s: Seq<RealNodeView>, p: PathView, j: int)
    requires
        0 <= j < s.len(),
        s[j].path == p,
    ensures
        node_lookup(s, p) is Some,
    decreases s.len(),
{
    if s[0].path != p {
        lemma_lookup_some_index(s.drop_first(), p, j - 1);
    }
}

/// The node that a directory made at `p` adds.
pub open spec fn made_directory(p: PathView) -> VirtualPathView {
    VirtualPathView { identity: p, source: None, kind: Kind::Directory }
}

/// The additions of a session with nothing played once a directory is made
/// at `p`.
pub open spec fn single_addition(p: PathView) -> DeltaView {
    DeltaView { keys: seq![parent_or_root_view(p)], entries: seq![made_directory(p)] }
}

proof fn lemma_ancestor_is(q: PathView, p: PathView, i: nat)
    requires
        i <= q.components.len(),
    ensures
        (nth_ancestor_view(q, i) == p) == (starts_with_view(q, p) && i + p.components.len()
            == q.components.len()),
{
    let x = nth_ancestor_view(q, i);
    if x == p {
        assert(x.components.len() == q.components.len() - i);
        assert(p.components.is_prefix_of(q.components)) by {
            assert forall|k: int| 0 <= k < p.components.len() implies p.components[k]
                == q.components[k] by {
                assert(x.components[k] == q.components[k]);
            }
        }
    }
    if starts_with_view(q, p) && i + p.components.len() == q.components.len() {
        assert(x.components =~= p.components);
    }
}

proof fn lemma_single_addition_get(p: PathView, x: PathView)
    requires
        p.absolute,
        p.components.len() > 0,
        x.absolute,
    ensures
        get_view(single_addition(p), x) == (if x == p {
            Ok::<Option<VirtualPathView>, RepresentationErrorView>(Some(made_directory(p)))
        } else {
            Ok::<Option<VirtualPathView>, RepresentationErrorView>(None)
        }),
{
    let d = single_addition(p);
    let one = seq![made_directory(p)];
    assert(one.drop_first() =~= Seq::<VirtualPathView>::empty());
    assert(lookup(one, x) == if one[0].identity == x {
        Some(one[0])
    } else {
        lookup(one.drop_first(), x)
    });
    assert(d.keys.contains(parent_or_root_view(p))) by {
        assert(d.keys[0] == parent_or_root_view(p));
    }
}

proof fn lemma_single_addition_ancestor(p: PathView, q: PathView, i: nat)
    requires
        p.absolute,
        p.components.len() > 0,
        q.absolute,
    ensures
        first_virtual_ancestor_from(single_addition(p), q, i) == (if starts_with_view(q, p) && i
            + p.components.len() <= q.components.len() {
            Ok::<Option<(nat, VirtualPathView)>, RepresentationErrorView>(
                Some(((q.components.len() - p.components.len()) as nat, made_directory(p))),
            )
        } else {
            Ok::<Option<(nat, VirtualPathView)>, RepresentationErrorView>(None)
        }),
    decreases q.components.len() + 1 - i,
{
    if i <= q.components.len() {
        let x = nth_ancestor_view(q, i);
        lemma_single_addition_get(p, x);
        lemma_ancestor_is(q, p, i);
        lemma_single_addition_ancestor(p, q, i + 1);
    }
}

/// Making a directory agrees on both sides: on a session with nothing
/// played, making a directory at a path that is not there, in a real
/// directory, succeeds on the virtual file system and on the real one, and
/// afterwards every absolute path exists, is a directory or is a file in the
/// one exactly when it does in the other.
pub proof fn law_fresh_mkdir_agrees(disk: Seq<RealNodeView>, p: PathView, q: PathView)
    requires
        real_wf(disk),
        p.absolute,
        p.components.len() > 0,
        !real_exists(disk, p),
        real_is_dir(disk, parent_or_root_view(p)),
        q.absolute,
    ensures
        vcreate_kind_view(fresh_vfs(disk), p, Kind::Directory).1 is Ok,
        real_create_empty_directory_view(disk, p).1 is Ok,
        FileSystemAdapter::<VirtualFileSystem>::status_view(
            vcreate_kind_view(fresh_vfs(disk), p, Kind::Directory).0,
            q,
        ) == Ok::<crate::port::EntryView, crate::errors::QueryErrorView>(
            real_status_view(real_create_empty_directory_view(disk, p).0, q),
        ),
{
    let fresh = fresh_vfs(disk);
    let c = ContainerView { vfs: fresh, real: disk, queue: Seq::<FsEventView>::empty() };
    let par = parent_or_root_view(p);
    let node = made_directory(p);
    let rnode = RealNodeView { path: p, kind: Kind::Directory, size: 0 };
    lemma_empty_delta_has_no_ancestor(p, 0);
    lemma_empty_delta_has_no_ancestor(q, 0);
    lemma_empty_delta_has_no_ancestor(par, 0);
    law_fresh_session_shows_the_disk(c, par);
    law_fresh_session_shows_the_disk(c, p);
    law_fresh_session_shows_the_disk(c, q);
    // the parent exists as a directory, and `p` is not there
    assert(real_exists(disk, par));
    assert(crate::virt::vsafe_parent_view(fresh, p) is Ok);
    assert(vstatus_view(fresh, p) == crate::virt::status_of(
        VirtualState::NotExists,
        crate::virt::unknown_view(p),
    ));
    // the addition
    let d1 = DeltaView { keys: seq![par], entries: Seq::<VirtualPathView>::empty() };
    assert(empty_delta().keys.push(par) =~= seq![par]);
    if par != root_view() {
        assert(par.components.len() > 0) by {
            if par.components.len() == 0 {
                assert(par.components =~= root_view().components);
            }
        }
        assert(parent_or_root_view(par).components.len() < par.components.len());
        assert(!d1.keys.contains(parent_or_root_view(par))) by {
            if d1.keys.contains(parent_or_root_view(par)) {
                assert(d1.keys[0] == parent_or_root_view(par));
            }
        }
    }
    assert(is_file_view(d1, par) == Ok::<bool, RepresentationErrorView>(false));
    assert(Seq::<VirtualPathView>::empty().push(node) =~= seq![node]);
    assert(attach_view(empty_delta(), p, None, Kind::Directory) == (
        single_addition(p),
        Ok::<(), RepresentationErrorView>(()),
    ));
    let v2 = VfsView { add: single_addition(p), sub: empty_delta(), disk };
    assert(vcreate_kind_view(fresh, p, Kind::Directory) == (v2, Ok::<(), InfrastructureErrorView>(())));
    // the real side
    assert(real_create_empty_directory_view(disk, p) == (
        disk.push(rnode),
        Ok::<(), InfrastructureErrorView>(()),
    ));
    let after = disk.push(rnode);
    lemma_node_lookup_push(disk, rnode, q);
    // the status of `q`
    lemma_single_addition_ancestor(p, q, 0);
    if starts_with_view(q, p) {
        assert(crate::representation::is_virtual_view(empty_delta(), q) == Ok::<
            bool,
            RepresentationErrorView,
        >(false));
        if q.components.len() == p.components.len() {
            assert(q.components =~= p.components);
            assert(q == p);
            lemma_single_addition_get(p, q);
        } else {
            assert(strictly_below(q, p));
            lemma_single_addition_get(p, q);
            assert(q != p);
            lemma_nothing_below_absent(disk, p, q);
            let none = Seq::<VirtualPathView>::empty();
            assert(empty_delta().entries =~= none);
            assert(crate::representation::max_depth(none) == 0);
            assert(none.filter(crate::representation::at_depth(0)) =~= none) by {
                none.lemma_filter_len(crate::representation::at_depth(0));
                reveal(Seq::filter);
            }
            assert(crate::representation::levels(none, 0) =~= none);
            assert(crate::representation::levels(none, 1) =~= none);
            assert(crate::representation::depth_order(empty_delta().entries) =~= none);
            assert(crate::representation::sub_view(single_addition(p), empty_delta()) == Ok::<
                DeltaView,
                RepresentationErrorView,
            >(single_addition(p)));
            assert(q != root_view());
        }
    } else {
        assert(q != p);
        assert(real_exists(after, q) == real_exists(disk, q));
    }
}

/// A write that lands at `q` itself: the directory or file made there, or
/// the file removed there.
pub open spec fn writes_only_at(a: AtomicView, q: PathView) -> bool {
    match a {
        AtomicOf::CreateEmptyDirectory(x) => x == q,
        AtomicOf::CreateEmptyFile(x) => x == q,
        AtomicOf::RemoveFile(x) => x == q,
        _ => false,
    }
}

/// A creation that is not recursive makes no parent: whatever the kind and
/// the guard, when it goes through, every one of its writes lands at the
/// target itself. A directory where nothing is becomes that one write.
pub proof fn law_plain_creation_makes_no_parent<F: ReadableFileSystem, G: Guard>(
    fv: F::V,
    gv: G::V,
    p: PathView,
    kind: Kind,
    overwrite: bool,
)
    ensures
        create_view::<F, G>(fv, gv, p, kind, false, overwrite).1 matches Ok(t) ==> {
            &&& F::status_view(fv, p) is Ok
            &&& forall|i: int|
                0 <= i < t.len() ==> writes_only_at(
                    #[trigger] t[i],
                    F::status_view(fv, p)->Ok_0.path,
                )
        },
        F::status_view(fv, p) is Ok && !F::status_view(fv, p)->Ok_0.exists ==> create_view::<F, G>(
            fv,
            gv,
            p,
            Kind::Directory,
            false,
            overwrite,
        ) == (gv, Ok::<Seq<AtomicView>, DomainErrorView>(
            seq![AtomicOf::CreateEmptyDirectory(F::status_view(fv, p)->Ok_0.path)],
        )),
{
    if let Ok(e) = F::status_view(fv, p) {
        assert(parents_view::<F>(fv, p, false) == Ok::<Seq<AtomicView>, DomainErrorView>(seq![]));
        assert(seq![].push(AtomicOf::CreateEmptyDirectory(e.path)) =~= seq![
            AtomicOf::CreateEmptyDirectory(e.path),
        ]);
        assert(seq![].push(AtomicOf::RemoveFile(e.path)).push(AtomicOf::CreateEmptyFile(e.path))
            =~= seq![AtomicOf::RemoveFile(e.path), AtomicOf::CreateEmptyFile(e.path)]);
    }
}

/// The directories that a recursive creation makes above `p`, from the
/// ancestor `i` steps up, are ancestors of `p` that are not there.
proof fn lemma_missing_ancestors_are_missing<F: ReadableFileSystem>(fv: F::V, p: PathView, i: nat)
    ensures
        missing_ancestors_view::<F>(fv, p, i) matches Ok(t) ==> forall|j: int|
            0 <= j < t.len() ==> exists|k: nat|
                i <= k <= p.components.len() && (#[trigger] t[j]) == AtomicOf::<
                    PathView,
                >::CreateEmptyDirectory(F::status_view(fv, nth_ancestor_view(p, k))->Ok_0.path)
                    && F::status_view(fv, nth_ancestor_view(p, k)) is Ok && !F::status_view(
                    fv,
                    nth_ancestor_view(p, k),
                )->Ok_0.exists,
    decreases p.components.len() + 1 - i,
{
    if i <= p.components.len() {
        lemma_missing_ancestors_are_missing::<F>(fv, p, i + 1);
        if let Ok(entry) = F::status_view(fv, nth_ancestor_view(p, i)) {
            if !entry.exists {
                if let Ok(t) = missing_ancestors_view::<F>(fv, p, i + 1) {
                    let u = t.push(AtomicOf::CreateEmptyDirectory(entry.path));
                    assert forall|j: int| 0 <= j < u.len() implies exists|k: nat|
                        i <= k <= p.components.len() && (#[trigger] u[j]) == AtomicOf::<
                            PathView,
                        >::CreateEmptyDirectory(
                            F::status_view(fv, nth_ancestor_view(p, k))->Ok_0.path,
                        ) && F::status_view(fv, nth_ancestor_view(p, k)) is Ok
                            && !F::status_view(fv, nth_ancestor_view(p, k))->Ok_0.exists by {
                        if j < t.len() {
                            assert(u[j] == t[j]);
                            let k = choose|k: nat|
                                i + 1 <= k <= p.components.len() && (#[trigger] t[j])
                                    == AtomicOf::<PathView>::CreateEmptyDirectory(
                                    F::status_view(fv, nth_ancestor_view(p, k))->Ok_0.path,
                                ) && F::status_view(fv, nth_ancestor_view(p, k)) is Ok
                                    && !F::status_view(fv, nth_ancestor_view(p, k))->Ok_0.exists;
                            assert(i <= k);
                        } else {
                            assert(u[j] == AtomicOf::<PathView>::CreateEmptyDirectory(entry.path));
                        }
                    }
                }
            }
        }
    }
}

/// A recursive creation of a directory makes only directories, each at a
/// path of the target or one of its ancestors that is not there; and when
/// the target's parent is there, it makes exactly what a creation that is
/// not recursive makes.
pub proof fn law_recursive_creation_makes_only_missing_ancestors<F: ReadableFileSystem, G: Guard>(
    fv: F::V,
    gv: G::V,
    p: PathView,
    overwrite: bool,
)
    ensures
        create_view::<F, G>(fv, gv, p, Kind::Directory, true, overwrite).1 matches Ok(t)
            ==> forall|j: int|
            0 <= j < t.len() ==> exists|k: nat|
                k <= p.components.len() && (#[trigger] t[j]) == AtomicOf::<
                    PathView,
                >::CreateEmptyDirectory(F::status_view(fv, nth_ancestor_view(p, k))->Ok_0.path)
                    && F::status_view(fv, nth_ancestor_view(p, k)) is Ok && !F::status_view(
                    fv,
                    nth_ancestor_view(p, k),
                )->Ok_0.exists,
        p.components.len() > 0 && F::status_view(fv, nth_ancestor_view(p, 1)) is Ok
            && F::status_view(fv, nth_ancestor_view(p, 1))->Ok_0.exists ==> create_view::<F, G>(fv, gv, p, Kind::Directory, true, overwrite)
            == create_view::<F, G>(fv, gv, p, Kind::Directory, false, overwrite),
{
    lemma_missing_ancestors_are_missing::<F>(fv, p, 1);
    if let Ok(e) = F::status_view(fv, p) {
        if !e.exists {
            if let Ok(t) = missing_ancestors_view::<F>(fv, p, 1) {
                let u = t.push(AtomicOf::CreateEmptyDirectory(e.path));
                assert(nth_ancestor_view(p, 0).components =~= p.components);
                assert(nth_ancestor_view(p, 0) == p);
                assert forall|j: int| 0 <= j < u.len() implies exists|k: nat|
                    k <= p.components.len() && (#[trigger] u[j]) == AtomicOf::<
                        PathView,
                    >::CreateEmptyDirectory(F::status_view(fv, nth_ancestor_view(p, k))->Ok_0.path)
                        && F::status_view(fv, nth_ancestor_view(p, k)) is Ok && !F::status_view(
                        fv,
                        nth_ancestor_view(p, k),
                    )->Ok_0.exists by {
                    if j < t.len() {
                        assert(u[j] == t[j]);
                        let k = choose|k: nat|
                            1 <= k <= p.components.len() && (#[trigger] t[j])
                                == AtomicOf::<PathView>::CreateEmptyDirectory(
                                F::status_view(fv, nth_ancestor_view(p, k))->Ok_0.path,
                            ) && F::status_view(fv, nth_ancestor_view(p, k)) is Ok
                                && !F::status_view(fv, nth_ancestor_view(p, k))->Ok_0.exists;
                    } else {
                        assert(u[j] == AtomicOf::<PathView>::CreateEmptyDirectory(e.path));
                        assert(u[j] == AtomicOf::<PathView>::CreateEmptyDirectory(
                            F::status_view(fv, nth_ancestor_view(p, 0))->Ok_0.path,
                        ));
                    }
                }
            }
            if p.components.len() > 0 {
                if let Ok(parent) = F::status_view(fv, nth_ancestor_view(p, 1)) {
                    if parent.exists {
                        assert(missing_ancestors_view::<F>(fv, p, 1) == Ok::<
                            Seq<AtomicView>,
                            DomainErrorView,
                        >(seq![]));
                    }
                }
            }
        }
    }
}

/// An existing directory with no children is removed by that one write,
/// without asking the guard, whether or not the removal is recursive.
pub proof fn law_empty_directory_is_removed_without_asking<F: ReadableFileSystem, G: Guard>(
    fv: F::V,
    gv: G::V,
    p: PathView,
    recursive: bool,
    fuel: nat,
)
    requires
        F::status_view(fv, p) is Ok,
        F::status_view(fv, p)->Ok_0.exists,
        F::status_view(fv, p)->Ok_0.is_dir,
        !F::status_view(fv, p)->Ok_0.is_file,
        F::read_dir_view(fv, F::status_view(fv, p)->Ok_0.path) == Ok::<
            Seq<EntryView>,
            crate::errors::QueryErrorView,
        >(Seq::<EntryView>::empty()),
    ensures
        remove_view::<F, G>(fv, gv, p, recursive, fuel) == (gv, Ok::<
            Seq<AtomicView>,
            DomainErrorView,
        >(seq![AtomicOf::RemoveEmptyDirectory(F::status_view(fv, p)->Ok_0.path)])),
        remove_view::<F, G>(fv, gv, p, recursive, fuel) == remove_view::<F, G>(
            fv,
            gv,
            p,
            !recursive,
            fuel,
        ),
{
}

/// What each line a user may type does: `allow` lets the capability through
/// once, `allow_all` lets it through from then on, `skip` holds it back
/// once, `skip_all` holds it back from then on, `cancel` stops the event,
/// and anything else holds it back once. White space around the word does
/// not matter.
pub proof fn law_typed_answers_decide(
    v: (Set<Capability>, Set<Capability>),
    capability: Capability,
    input: Seq<char>,
)
    ensures
        trimmed(input) == "allow"@ ==> answered_view(v, capability, answer_view(trimmed(input)))
            == (v, Ok::<bool, DomainErrorView>(true)),
        trimmed(input) == "allow_all"@ ==> answered_view(
            v,
            capability,
            answer_view(trimmed(input)),
        ) == ((v.0, v.1.insert(capability)), Ok::<bool, DomainErrorView>(true)),
        trimmed(input) == "skip_all"@ ==> answered_view(
            v,
            capability,
            answer_view(trimmed(input)),
        ) == ((v.0.insert(capability), v.1), Ok::<bool, DomainErrorView>(false)),
        trimmed(input) == "cancel"@ ==> answered_view(v, capability, answer_view(trimmed(input)))
            == (v, Err::<bool, DomainErrorView>(DomainErrorOf::UserCancelled)),
        trimmed(input) != "allow"@ && trimmed(input) != "allow_all"@ && trimmed(input)
            != "skip_all"@ && trimmed(input) != "cancel"@ ==> answered_view(
            v,
            capability,
            answer_view(trimmed(input)),
        ) == (v, Ok::<bool, DomainErrorView>(false)),
{
    reveal_strlit("allow");
    reveal_strlit("allow_all");
    reveal_strlit("skip_all");
    reveal_strlit("cancel");
    assert("allow"@.len() == 5);
    assert("skip_all"@.len() == 8);
    assert("allow_all"@.len() == 9);
    assert("allow"@ != "skip_all"@);
    assert("allow_all"@ != "skip_all"@);
    assert("allow_all"@ != "allow"@);
}

/// In a listing, a child that the disk does not have is marked red, whatever
/// its kind, and one the disk has is not: the line is the kind, four spaces
/// and the name, in red exactly when the child exists only on the virtual
/// layer.
pub proof fn law_listing_marks_what_only_the_virtual_layer_has(
    disk: Seq<RealNodeView>,
    s: Seq<EntryView>,
)
    ensures
        list_lines_view(disk, s).len() == s.len(),
        forall|i: int|
            0 <= i < s.len() && !real_exists(disk, s[i].path) ==> #[trigger] list_lines_view(
                disk,
                s,
            )[i] == red_view(kind_label(s[i]) + "    "@ + entry_name(s[i])),
        forall|i: int|
            0 <= i < s.len() && real_exists(disk, s[i].path) ==> #[trigger] list_lines_view(
                disk,
                s,
            )[i] == kind_label(s[i]) + "    "@ + entry_name(s[i]),
{
}

/// A directory cannot be created over anything that is there, recursively or
/// not, and the guard is not asked.
pub proof fn law_directory_creation_never_overwrites<F: ReadableFileSystem, G: Guard>(
    fv: F::V,
    gv: G::V,
    p: PathView,
    recursive: bool,
    overwrite: bool,
)
    requires
        F::status_view(fv, p) is Ok,
        F::status_view(fv, p)->Ok_0.exists,
    ensures
        create_view::<F, G>(fv, gv, p, Kind::Directory, recursive, overwrite) == (gv, Err::<
            Seq<AtomicView>,
            DomainErrorView,
        >(DomainErrorOf::DirectoryOverwriteNotAllowed(F::status_view(fv, p)->Ok_0.path))),
{
}

/// A file is removed by that one write, without asking the guard, whether
/// or not the removal is recursive.
pub proof fn law_file_is_removed_without_asking<F: ReadableFileSystem, G: Guard>(
    fv: F::V,
    gv: G::V,
    p: PathView,
    recursive: bool,
    fuel: nat,
)
    requires
        F::status_view(fv, p) is Ok,
        F::status_view(fv, p)->Ok_0.exists,
        F::status_view(fv, p)->Ok_0.is_file,
    ensures
        remove_view::<F, G>(fv, gv, p, recursive, fuel) == (gv, Ok::<
            Seq<AtomicView>,
            DomainErrorView,
        >(seq![AtomicOf::RemoveFile(F::status_view(fv, p)->Ok_0.path)])),
{
}

/// Removing a directory that has children asks the guard for the recursive
/// capability on it: refused, nothing is written; failed, the removal fails
/// with the guard's error; granted, the directory itself is removed last.
pub proof fn law_non_empty_directory_removal_asks<F: ReadableFileSystem, G: Guard>(
    fv: F::V,
    gv: G::V,
    p: PathView,
    recursive: bool,
    fuel: nat,
)
    requires
        F::status_view(fv, p) is Ok,
        F::status_view(fv, p)->Ok_0.exists,
        F::status_view(fv, p)->Ok_0.is_dir,
        !F::status_view(fv, p)->Ok_0.is_file,
        F::read_dir_view(fv, F::status_view(fv, p)->Ok_0.path) is Ok,
        F::read_dir_view(fv, F::status_view(fv, p)->Ok_0.path)->Ok_0.len() > 0,
    ensures
        ({
            let e = F::status_view(fv, p)->Ok_0;
            let asked = G::authorize_view(gv, Capability::Recursive, recursive, e.path);
            let r = remove_view::<F, G>(fv, gv, p, recursive, fuel);
            &&& asked.1 == Ok::<bool, DomainErrorView>(false) ==> r == (asked.0, Ok::<
                Seq<AtomicView>,
                DomainErrorView,
            >(seq![]))
            &&& asked.1 is Err ==> r == (asked.0, Err::<Seq<AtomicView>, DomainErrorView>(
                asked.1->Err_0,
            ))
            &&& (asked.1 == Ok::<bool, DomainErrorView>(true) && r.1 is Ok) ==> (r.1->Ok_0.len() > 0
                && r.1->Ok_0.last() == AtomicOf::<PathView>::RemoveEmptyDirectory(e.path))
        }),
{
}

} // verus!
