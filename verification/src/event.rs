//! The events of the file manager: copy, move, remove and create. An event
//! reads a file system and turns into the atomic writes that carry it out,
//! asking a guard before it merges, overwrites or removes recursively.

use vstd::prelude::*;

use crate::atomic::{AtomicOf, AtomicTransaction, AtomicView};
use crate::capability::{Capability, DefaultGuard, Guard, bool_domain_view};
use crate::errors::{DomainError, DomainErrorOf, DomainErrorView, IoErrorKind, QueryErrorOf};
use crate::kind::Kind;
use crate::path::{FsPath, PathView, nth_ancestor_view, push_last_view, starts_with_view};
use crate::port::{Entry, EntryView, ReadableFileSystem, entries_view};

verus! {

/// What an event gives: the guard's state after it, and the writes or the
/// error.
pub type Atomized<GV> = (GV, Result<Seq<AtomicView>, DomainErrorView>);

/// The error of a walk that goes deeper than the file system it reads.
pub open spec fn too_deep() -> DomainErrorView {
    DomainErrorOf::Query(QueryErrorOf::Io(IoErrorKind::Other))
}

pub open spec fn tx_result_view(r: Result<AtomicTransaction, DomainError>) -> Result<
    Seq<AtomicView>,
    DomainErrorView,
> {
    match r {
        Ok(t) => Ok(t@),
        Err(e) => Err(e@),
    }
}

/// Copying (or, when `moving`, moving) `src` to `dst`: a directory is made
/// at the destination, or merged into an existing one, and its children
/// follow; a file is copied (moved) over a new path, or overwrites an
/// existing file. A moved directory is removed once its children are gone.
pub open spec fn translate_view<F: ReadableFileSystem, G: Guard>(
    fv: F::V,
    gv: G::V,
    src: PathView,
    dst: PathView,
    merge: bool,
    overwrite: bool,
    moving: bool,
    fuel: nat,
) -> Atomized<G::V>
    decreases fuel, 1nat, 0nat,
{
    match F::status_view(fv, src) {
        Err(e) => (gv, Err(DomainErrorOf::Query(e))),
        Ok(source) => if !source.exists {
            (gv, Err(DomainErrorOf::SourceDoesNotExists(src)))
        } else {
            match F::status_view(fv, dst) {
                Err(e) => (gv, Err(DomainErrorOf::Query(e))),
                Ok(destination) => if source.is_dir && starts_with_view(
                    destination.path,
                    source.path,
                ) {
                    (gv, Err(DomainErrorOf::CopyIntoItSelf(source.path, destination.path)))
                } else if destination.exists {
                    if source.is_dir {
                        if destination.is_dir {
                            let asked = G::authorize_view(gv, Capability::Merge, merge, destination.path);
                            match asked.1 {
                                Err(e) => (asked.0, Err(e)),
                                Ok(false) => (asked.0, Ok(seq![])),
                                Ok(true) => match F::read_dir_view(fv, source.path) {
                                    Err(e) => (asked.0, Err(DomainErrorOf::Query(e))),
                                    Ok(kids) => close_directory(
                                        translate_children_view::<F, G>(
                                            fv,
                                            asked.0,
                                            kids,
                                            destination.path,
                                            merge,
                                            overwrite,
                                            moving,
                                            fuel,
                                            seq![],
                                        ),
                                        moving,
                                        source.path,
                                    ),
                                },
                            }
                        } else {
                            (
                                gv,
                                Err(
                                    DomainErrorOf::MergeFileWithDirectory(
                                        source.path,
                                        destination.path,
                                    ),
                                ),
                            )
                        }
                    } else if source.is_file {
                        if destination.is_file {
                            let asked = G::authorize_view(
                                gv,
                                Capability::Overwrite,
                                overwrite,
                                destination.path,
                            );
                            match asked.1 {
                                Err(e) => (asked.0, Err(e)),
                                Ok(false) => (asked.0, Ok(seq![])),
                                Ok(true) => (
                                    asked.0,
                                    Ok(
                                        seq![
                                            AtomicOf::RemoveFile(destination.path),
                                            file_write(moving, source.path, destination.path),
                                        ],
                                    ),
                                ),
                            }
                        } else {
                            (
                                gv,
                                Err(
                                    DomainErrorOf::OverwriteDirectoryWithFile(
                                        source.path,
                                        destination.path,
                                    ),
                                ),
                            )
                        }
                    } else {
                        (gv, Ok(seq![]))
                    }
                } else if source.is_dir && !moving && F::binds_copies_view() {
                    (gv, Ok(seq![AtomicOf::BindDirectoryToDirectory(source.path, destination.path)]))
                } else if source.is_dir {
                    match F::read_dir_view(fv, source.path) {
                        Err(e) => (gv, Err(DomainErrorOf::Query(e))),
                        Ok(kids) => close_directory(
                            translate_children_view::<F, G>(
                                fv,
                                gv,
                                kids,
                                destination.path,
                                merge,
                                overwrite,
                                moving,
                                fuel,
                                seq![AtomicOf::CreateEmptyDirectory(destination.path)],
                            ),
                            moving,
                            source.path,
                        ),
                    }
                } else if source.is_file {
                    (gv, Ok(seq![file_write(moving, source.path, destination.path)]))
                } else {
                    (gv, Ok(seq![]))
                },
            }
        },
    }
}

/// The write that copies or moves a file.
pub open spec fn file_write(moving: bool, src: PathView, dst: PathView) -> AtomicView {
    if moving {
        AtomicOf::MoveFileToFile(src, dst)
    } else {
        AtomicOf::CopyFileToFile(src, dst)
    }
}

/// A moved directory is removed after its children.
pub open spec fn close_directory<GV>(r: Atomized<GV>, moving: bool, src: PathView) -> Atomized<GV> {
    match r.1 {
        Ok(t) => if moving {
            (r.0, Ok(t.push(AtomicOf::RemoveEmptyDirectory(src))))
        } else {
            (r.0, Ok(t))
        },
        Err(e) => (r.0, Err(e)),
    }
}

/// `acc` followed by the writes of the children `kids`, each translated to
/// its name below `dst`, in order.
pub open spec fn translate_children_view<F: ReadableFileSystem, G: Guard>(
    fv: F::V,
    gv: G::V,
    kids: Seq<EntryView>,
    dst: PathView,
    merge: bool,
    overwrite: bool,
    moving: bool,
    fuel: nat,
    acc: Seq<AtomicView>,
) -> Atomized<G::V>
    decreases fuel, 0nat, kids.len(),
{
    if kids.len() == 0 {
        (gv, Ok(acc))
    } else {
        let before = translate_children_view::<F, G>(
            fv,
            gv,
            kids.drop_last(),
            dst,
            merge,
            overwrite,
            moving,
            fuel,
            acc,
        );
        match before.1 {
            Err(e) => (before.0, Err(e)),
            Ok(t) => if fuel == 0 {
                (before.0, Err(too_deep()))
            } else {
                let child = kids.last().path;
                let r = translate_view::<F, G>(
                    fv,
                    before.0,
                    child,
                    push_last_view(dst, child),
                    merge,
                    overwrite,
                    moving,
                    (fuel - 1) as nat,
                );
                match r.1 {
                    Err(e) => (r.0, Err(e)),
                    Ok(t2) => (r.0, Ok(t + t2)),
                }
            },
        }
    }
}

/// Removing `p`: a file, an empty directory, or, when allowed, a directory
/// after all its children.
pub open spec fn remove_view<F: ReadableFileSystem, G: Guard>(
    fv: F::V,
    gv: G::V,
    p: PathView,
    recursive: bool,
    fuel: nat,
) -> Atomized<G::V>
    decreases fuel, 1nat, 0nat,
{
    match F::status_view(fv, p) {
        Err(e) => (gv, Err(DomainErrorOf::Query(e))),
        Ok(entry) => if !entry.exists {
            (gv, Err(DomainErrorOf::DoesNotExists(p)))
        } else if entry.is_file {
            (gv, Ok(seq![AtomicOf::RemoveFile(entry.path)]))
        } else if entry.is_dir {
            match F::read_dir_view(fv, entry.path) {
                Err(e) => (gv, Err(DomainErrorOf::Query(e))),
                Ok(kids) => if kids.len() == 0 {
                    (gv, Ok(seq![AtomicOf::RemoveEmptyDirectory(entry.path)]))
                } else {
                    let asked = G::authorize_view(gv, Capability::Recursive, recursive, entry.path);
                    match asked.1 {
                        Err(e) => (asked.0, Err(e)),
                        Ok(false) => (asked.0, Ok(seq![])),
                        Ok(true) => close_directory(
                            remove_children_view::<F, G>(fv, asked.0, kids, fuel, seq![]),
                            true,
                            entry.path,
                        ),
                    }
                },
            }
        } else {
            (gv, Ok(seq![]))
        },
    }
}

/// `acc` followed by the writes that remove the children `kids`, in order.
pub open spec fn remove_children_view<F: ReadableFileSystem, G: Guard>(
    fv: F::V,
    gv: G::V,
    kids: Seq<EntryView>,
    fuel: nat,
    acc: Seq<AtomicView>,
) -> Atomized<G::V>
    decreases fuel, 0nat, kids.len(),
{
    if kids.len() == 0 {
        (gv, Ok(acc))
    } else {
        let before = remove_children_view::<F, G>(fv, gv, kids.drop_last(), fuel, acc);
        match before.1 {
            Err(e) => (before.0, Err(e)),
            Ok(t) => if fuel == 0 {
                (before.0, Err(too_deep()))
            } else {
                let r = remove_view::<F, G>(
                    fv,
                    before.0,
                    kids.last().path,
                    true,
                    (fuel - 1) as nat,
                );
                match r.1 {
                    Err(e) => (r.0, Err(e)),
                    Ok(t2) => (r.0, Ok(t + t2)),
                }
            },
        }
    }
}

/// The directories to make above `p`, from the ancestor `i` steps up: the
/// missing ones, the highest first, up to the first that exists.
pub open spec fn missing_ancestors_view<F: ReadableFileSystem>(fv: F::V, p: PathView, i: nat) -> Result<
    Seq<AtomicView>,
    DomainErrorView,
>
    decreases p.components.len() + 1 - i,
{
    if i > p.components.len() {
        Ok(seq![])
    } else {
        match F::status_view(fv, nth_ancestor_view(p, i)) {
            Err(e) => Err(DomainErrorOf::Query(e)),
            Ok(entry) => if entry.exists {
                Ok(seq![])
            } else {
                match missing_ancestors_view::<F>(fv, p, i + 1) {
                    Err(e) => Err(e),
                    Ok(t) => Ok(t.push(AtomicOf::CreateEmptyDirectory(entry.path))),
                }
            },
        }
    }
}

/// The writes that make the missing ancestors of `p`, when `recursive`.
pub open spec fn parents_view<F: ReadableFileSystem>(fv: F::V, p: PathView, recursive: bool) -> Result<
    Seq<AtomicView>,
    DomainErrorView,
> {
    if recursive {
        missing_ancestors_view::<F>(fv, p, 1)
    } else {
        Ok(seq![])
    }
}

/// Creating a node of `kind` at `p`: a directory where nothing is, a file
/// where nothing is or, when allowed, over an existing file.
pub open spec fn create_view<F: ReadableFileSystem, G: Guard>(
    fv: F::V,
    gv: G::V,
    p: PathView,
    kind: Kind,
    recursive: bool,
    overwrite: bool,
) -> Atomized<G::V> {
    match F::status_view(fv, p) {
        Err(e) => (gv, Err(DomainErrorOf::Query(e))),
        Ok(entry) => match kind {
            Kind::Directory => if entry.exists {
                (gv, Err(DomainErrorOf::DirectoryOverwriteNotAllowed(entry.path)))
            } else {
                match parents_view::<F>(fv, p, recursive) {
                    Err(e) => (gv, Err(e)),
                    Ok(t) => (gv, Ok(t.push(AtomicOf::CreateEmptyDirectory(entry.path)))),
                }
            },
            Kind::File => if entry.exists {
                let asked = G::authorize_view(gv, Capability::Overwrite, overwrite, entry.path);
                match asked.1 {
                    Err(e) => (asked.0, Err(e)),
                    Ok(false) => (asked.0, Ok(seq![])),
                    Ok(true) => match parents_view::<F>(fv, p, recursive) {
                        Err(e) => (asked.0, Err(e)),
                        Ok(t) => (
                            asked.0,
                            Ok(
                                t.push(AtomicOf::RemoveFile(entry.path)).push(
                                    AtomicOf::CreateEmptyFile(entry.path),
                                ),
                            ),
                        ),
                    },
                }
            } else {
                (gv, Ok(seq![AtomicOf::CreateEmptyFile(entry.path)]))
            },
            Kind::Unknown => (gv, Err(DomainErrorOf::CreateUnknown(entry.path))),
        },
    }
}

proof fn lemma_translate_children_prefix_err<F: ReadableFileSystem, G: Guard>(
    fv: F::V,
    gv: G::V,
    kids: Seq<EntryView>,
    i: int,
    dst: PathView,
    merge: bool,
    overwrite: bool,
    moving: bool,
    fuel: nat,
    acc: Seq<AtomicView>,
)
    requires
        0 <= i <= kids.len(),
        translate_children_view::<F, G>(
            fv,
            gv,
            kids.take(i),
            dst,
            merge,
            overwrite,
            moving,
            fuel,
            acc,
        ).1 is Err,
    ensures
        translate_children_view::<F, G>(fv, gv, kids, dst, merge, overwrite, moving, fuel, acc)
            == translate_children_view::<F, G>(
            fv,
            gv,
            kids.take(i),
            dst,
            merge,
            overwrite,
            moving,
            fuel,
            acc,
        ),
    decreases kids.len(),
{
    if i == kids.len() {
        assert(kids.take(i) =~= kids);
    } else {
        assert(kids.drop_last().take(i) =~= kids.take(i));
        lemma_translate_children_prefix_err::<F, G>(
            fv,
            gv,
            kids.drop_last(),
            i,
            dst,
            merge,
            overwrite,
            moving,
            fuel,
            acc,
        );
    }
}

proof fn lemma_remove_children_prefix_err<F: ReadableFileSystem, G: Guard>(
    fv: F::V,
    gv: G::V,
    kids: Seq<EntryView>,
    i: int,
    fuel: nat,
    acc: Seq<AtomicView>,
)
    requires
        0 <= i <= kids.len(),
        remove_children_view::<F, G>(fv, gv, kids.take(i), fuel, acc).1 is Err,
    ensures
        remove_children_view::<F, G>(fv, gv, kids, fuel, acc) == remove_children_view::<F, G>(
            fv,
            gv,
            kids.take(i),
            fuel,
            acc,
        ),
    decreases kids.len(),
{
    if i == kids.len() {
        assert(kids.take(i) =~= kids);
    } else {
        assert(kids.drop_last().take(i) =~= kids.take(i));
        lemma_remove_children_prefix_err::<F, G>(fv, gv, kids.drop_last(), i, fuel, acc);
    }
}

fn file_write_atomic(moving: bool, src: FsPath, dst: FsPath) -> (a: AtomicOf<FsPath>)
    ensures
        a@ == file_write(moving, src@, dst@),
{
    if moving {
        AtomicOf::MoveFileToFile(src, dst)
    } else {
        AtomicOf::CopyFileToFile(src, dst)
    }
}

fn close_dir(r: Result<AtomicTransaction, DomainError>, moving: bool, src: &FsPath) -> (out: Result<
    AtomicTransaction,
    DomainError,
>)
    ensures
        tx_result_view(out) == close_directory((0int, tx_result_view(r)), moving, src@).1,
{
    match r {
        Ok(mut t) => {
            if moving {
                t.add(AtomicOf::RemoveEmptyDirectory(src.clone()));
            }
            Ok(t)
        },
        Err(e) => Err(e),
    }
}

fn translate<F: ReadableFileSystem, G: Guard>(
    fs: &F,
    guard: &mut G,
    src: &FsPath,
    dst: &FsPath,
    merge: bool,
    overwrite: bool,
    moving: bool,
    fuel: usize,
) -> (r: Result<AtomicTransaction, DomainError>)
    requires
        F::read_wf(fs@),
    ensures
        (final(guard)@, tx_result_view(r)) == translate_view::<F, G>(
            fs@,
            old(guard)@,
            src@,
            dst@,
            merge,
            overwrite,
            moving,
            fuel as nat,
        ),
    decreases fuel, 1nat,
{
    let source = match fs.status(src) {
        Err(e) => {
            return Err(DomainErrorOf::Query(e));
        },
        Ok(s) => s,
    };
    if !source.is_existing() {
        return Err(DomainErrorOf::SourceDoesNotExists(src.clone()));
    }
    let destination = match fs.status(dst) {
        Err(e) => {
            return Err(DomainErrorOf::Query(e));
        },
        Ok(d) => d,
    };
    if source.is_dir() && destination.is_contained_by(&source) {
        return Err(DomainErrorOf::CopyIntoItSelf(source.to_path(), destination.to_path()));
    }
    if destination.is_existing() {
        if source.is_dir() {
            if destination.is_dir() {
                match guard.authorize(Capability::Merge, merge, destination.path()) {
                    Err(e) => Err(e),
                    Ok(false) => Ok(AtomicTransaction::new()),
                    Ok(true) => match fs.read_dir(source.path()) {
                        Err(e) => Err(DomainErrorOf::Query(e)),
                        Ok(kids) => {
                            proof {
                                F::lemma_read_dir_entries(fs@, source@.path);
                    assert(F::read_dir_view(fs@, source@.path) == Ok::<
                        Seq<EntryView>,
                        crate::errors::QueryErrorView,
                    >(entries_view(kids@)));
                                assert forall|i: int| 0 <= i < kids@.len() implies (
                                #[trigger] kids@[i])@.path.components.len() > 0 by {
                                    assert(entries_view(kids@)[i] == kids@[i]@);
                        assert(F::read_dir_view(fs@, source@.path)->Ok_0[i] == kids@[i]@);
                                    assert(F::read_dir_view(fs@, source@.path)->Ok_0[i]
                                        == kids@[i]@);
                                }
                            }
                            let r = translate_children(
                                fs,
                                guard,
                                &kids,
                                destination.path(),
                                merge,
                                overwrite,
                                moving,
                                fuel,
                                AtomicTransaction::new(),
                            );
                            close_dir(r, moving, source.path())
                        },
                    },
                }
            } else {
                Err(DomainErrorOf::MergeFileWithDirectory(source.to_path(), destination.to_path()))
            }
        } else if source.is_file() {
            if destination.is_file() {
                match guard.authorize(Capability::Overwrite, overwrite, destination.path()) {
                    Err(e) => Err(e),
                    Ok(false) => Ok(AtomicTransaction::new()),
                    Ok(true) => {
                        let mut t = AtomicTransaction::new();
                        t.add(AtomicOf::RemoveFile(destination.to_path()));
                        t.add(file_write_atomic(moving, source.to_path(), destination.to_path()));
                        assert(t@ =~= seq![
                            AtomicOf::RemoveFile(destination@.path),
                            file_write(moving, source@.path, destination@.path),
                        ]);
                        Ok(t)
                    },
                }
            } else {
                Err(
                    DomainErrorOf::OverwriteDirectoryWithFile(
                        source.to_path(),
                        destination.to_path(),
                    ),
                )
            }
        } else {
            Ok(AtomicTransaction::new())
        }
    } else if source.is_dir() && !moving && F::binds_copies() {
        let mut t = AtomicTransaction::new();
        t.add(AtomicOf::BindDirectoryToDirectory(source.to_path(), destination.to_path()));
        assert(t@ =~= seq![AtomicOf::BindDirectoryToDirectory(source@.path, destination@.path)]);
        Ok(t)
    } else if source.is_dir() {
        match fs.read_dir(source.path()) {
            Err(e) => Err(DomainErrorOf::Query(e)),
            Ok(kids) => {
                proof {
                    F::lemma_read_dir_entries(fs@, source@.path);
                    assert(F::read_dir_view(fs@, source@.path) == Ok::<
                        Seq<EntryView>,
                        crate::errors::QueryErrorView,
                    >(entries_view(kids@)));
                    assert forall|i: int| 0 <= i < kids@.len() implies (
                    #[trigger] kids@[i])@.path.components.len() > 0 by {
                        assert(entries_view(kids@)[i] == kids@[i]@);
                        assert(F::read_dir_view(fs@, source@.path)->Ok_0[i] == kids@[i]@);
                    }
                }
                let mut t = AtomicTransaction::new();
                t.add(AtomicOf::CreateEmptyDirectory(destination.to_path()));
                assert(t@ =~= seq![AtomicOf::CreateEmptyDirectory(destination@.path)]);
                let r = translate_children(
                    fs,
                    guard,
                    &kids,
                    destination.path(),
                    merge,
                    overwrite,
                    moving,
                    fuel,
                    t,
                );
                close_dir(r, moving, source.path())
            },
        }
    } else if source.is_file() {
        let mut t = AtomicTransaction::new();
        t.add(file_write_atomic(moving, source.to_path(), destination.to_path()));
        assert(t@ =~= seq![file_write(moving, source@.path, destination@.path)]);
        Ok(t)
    } else {
        Ok(AtomicTransaction::new())
    }
}

fn translate_children<F: ReadableFileSystem, G: Guard>(
    fs: &F,
    guard: &mut G,
    kids: &Vec<Entry>,
    dst: &FsPath,
    merge: bool,
    overwrite: bool,
    moving: bool,
    fuel: usize,
    acc: AtomicTransaction,
) -> (r: Result<AtomicTransaction, DomainError>)
    requires
        F::read_wf(fs@),
        forall|i: int| 0 <= i < kids@.len() ==> (#[trigger] kids@[i])@.path.components.len() > 0,
    ensures
        (final(guard)@, tx_result_view(r)) == translate_children_view::<F, G>(
            fs@,
            old(guard)@,
            entries_view(kids@),
            dst@,
            merge,
            overwrite,
            moving,
            fuel as nat,
            acc@,
        ),
    decreases fuel, 0nat,
{
    let ghost ks = entries_view(kids@);
    let ghost g0 = guard@;
    let ghost a0 = acc@;
    let mut t = acc;
    assert(ks.take(0) =~= seq![]);
    let mut i: usize = 0;
    while i < kids.len()
        invariant
            F::read_wf(fs@),
            ks == entries_view(kids@),
            g0 == old(guard)@,
            a0 == acc@,
            i <= kids.len(),
            forall|j: int| 0 <= j < kids@.len() ==> (#[trigger] kids@[j])@.path.components.len() > 0,
            (guard@, Ok::<Seq<AtomicView>, DomainErrorView>(t@)) == translate_children_view::<F, G>(
                fs@,
                g0,
                ks.take(i as int),
                dst@,
                merge,
                overwrite,
                moving,
                fuel as nat,
                a0,
            ),
        decreases kids.len() - i,
    {
        assert(ks.take(i + 1).drop_last() =~= ks.take(i as int));
        assert(ks.take(i + 1).last() == ks[i as int]);
        assert(ks[i as int] == kids@[i as int]@);
        if fuel == 0 {
            proof {
                lemma_translate_children_prefix_err::<F, G>(
                    fs@,
                    g0,
                    ks,
                    i + 1,
                    dst@,
                    merge,
                    overwrite,
                    moving,
                    fuel as nat,
                    a0,
                );
            }
            return Err(DomainErrorOf::Query(QueryErrorOf::Io(IoErrorKind::Other)));
        }
        let child = kids[i].path();
        let target = dst.join_last_of(child);
        match translate(fs, guard, child, &target, merge, overwrite, moving, fuel - 1) {
            Err(e) => {
                proof {
                    lemma_translate_children_prefix_err::<F, G>(
                        fs@,
                        g0,
                        ks,
                        i + 1,
                        dst@,
                        merge,
                        overwrite,
                        moving,
                        fuel as nat,
                        a0,
                    );
                }
                return Err(e);
            },
            Ok(more) => {
                t.merge(more);
            },
        }
        i += 1;
    }
    assert(ks.take(kids.len() as int) =~= ks);
    Ok(t)
}

fn remove_path<F: ReadableFileSystem, G: Guard>(
    fs: &F,
    guard: &mut G,
    p: &FsPath,
    recursive: bool,
    fuel: usize,
) -> (r: Result<AtomicTransaction, DomainError>)
    requires
        F::read_wf(fs@),
    ensures
        (final(guard)@, tx_result_view(r)) == remove_view::<F, G>(
            fs@,
            old(guard)@,
            p@,
            recursive,
            fuel as nat,
        ),
    decreases fuel, 1nat,
{
    let entry = match fs.status(p) {
        Err(e) => {
            return Err(DomainErrorOf::Query(e));
        },
        Ok(s) => s,
    };
    if !entry.is_existing() {
        return Err(DomainErrorOf::DoesNotExists(p.clone()));
    }
    if entry.is_file() {
        let mut t = AtomicTransaction::new();
        t.add(AtomicOf::RemoveFile(entry.to_path()));
        assert(t@ =~= seq![AtomicOf::RemoveFile(entry@.path)]);
        return Ok(t);
    }
    if !entry.is_dir() {
        return Ok(AtomicTransaction::new());
    }
    let kids = match fs.read_dir(entry.path()) {
        Err(e) => {
            return Err(DomainErrorOf::Query(e));
        },
        Ok(k) => k,
    };
    if kids.len() == 0 {
        let mut t = AtomicTransaction::new();
        t.add(AtomicOf::RemoveEmptyDirectory(entry.to_path()));
        assert(t@ =~= seq![AtomicOf::RemoveEmptyDirectory(entry@.path)]);
        return Ok(t);
    }
    match guard.authorize(Capability::Recursive, recursive, entry.path()) {
        Err(e) => Err(e),
        Ok(false) => Ok(AtomicTransaction::new()),
        Ok(true) => {
            let r = remove_children(fs, guard, &kids, fuel, AtomicTransaction::new());
            close_dir(r, true, entry.path())
        },
    }
}

fn remove_children<F: ReadableFileSystem, G: Guard>(
    fs: &F,
    guard: &mut G,
    kids: &Vec<Entry>,
    fuel: usize,
    acc: AtomicTransaction,
) -> (r: Result<AtomicTransaction, DomainError>)
    requires
        F::read_wf(fs@),
    ensures
        (final(guard)@, tx_result_view(r)) == remove_children_view::<F, G>(
            fs@,
            old(guard)@,
            entries_view(kids@),
            fuel as nat,
            acc@,
        ),
    decreases fuel, 0nat,
{
    let ghost ks = entries_view(kids@);
    let ghost g0 = guard@;
    let ghost a0 = acc@;
    let mut t = acc;
    assert(ks.take(0) =~= seq![]);
    let mut i: usize = 0;
    while i < kids.len()
        invariant
            F::read_wf(fs@),
            ks == entries_view(kids@),
            g0 == old(guard)@,
            a0 == acc@,
            i <= kids.len(),
            (guard@, Ok::<Seq<AtomicView>, DomainErrorView>(t@)) == remove_children_view::<F, G>(
                fs@,
                g0,
                ks.take(i as int),
                fuel as nat,
                a0,
            ),
        decreases kids.len() - i,
    {
        assert(ks.take(i + 1).drop_last() =~= ks.take(i as int));
        assert(ks.take(i + 1).last() == ks[i as int]);
        assert(ks[i as int] == kids@[i as int]@);
        if fuel == 0 {
            proof {
                lemma_remove_children_prefix_err::<F, G>(fs@, g0, ks, i + 1, fuel as nat, a0);
            }
            return Err(DomainErrorOf::Query(QueryErrorOf::Io(IoErrorKind::Other)));
        }
        match remove_path(fs, guard, kids[i].path(), true, fuel - 1) {
            Err(e) => {
                proof {
                    lemma_remove_children_prefix_err::<F, G>(fs@, g0, ks, i + 1, fuel as nat, a0);
                }
                return Err(e);
            },
            Ok(more) => {
                t.merge(more);
            },
        }
        i += 1;
    }
    assert(ks.take(kids.len() as int) =~= ks);
    Ok(t)
}

fn missing_ancestors<F: ReadableFileSystem>(fs: &F, p: &FsPath, i: usize) -> (r: Result<
    AtomicTransaction,
    DomainError,
>)
    requires
        F::read_wf(fs@),
    ensures
        tx_result_view(r) == missing_ancestors_view::<F>(fs@, p@, i as nat),
    decreases p@.components.len() + 1 - i,
{
    if i > p.depth() {
        return Ok(AtomicTransaction::new());
    }
    let entry = match fs.status(&p.ancestor(i)) {
        Err(e) => {
            return Err(DomainErrorOf::Query(e));
        },
        Ok(s) => s,
    };
    if entry.is_existing() {
        return Ok(AtomicTransaction::new());
    }
    let rest = if i < p.depth() {
        missing_ancestors(fs, p, i + 1)
    } else {
        Ok(AtomicTransaction::new())
    };
    match rest {
        Err(e) => Err(e),
        Ok(mut t) => {
            t.add(AtomicOf::CreateEmptyDirectory(entry.to_path()));
            Ok(t)
        },
    }
}

fn parents<F: ReadableFileSystem>(fs: &F, p: &FsPath, recursive: bool) -> (r: Result<
    AtomicTransaction,
    DomainError,
>)
    requires
        F::read_wf(fs@),
    ensures
        tx_result_view(r) == parents_view::<F>(fs@, p@, recursive),
{
    if recursive {
        missing_ancestors(fs, p, 1)
    } else {
        Ok(AtomicTransaction::new())
    }
}

/// The value of a copy or a move.
pub struct TranslationView {
    pub source: PathView,
    pub destination: PathView,
    pub merge: bool,
    pub overwrite: bool,
}

/// Copies `source` to `destination`; `merge` allows merging a directory
/// into an existing one, `overwrite` allows overwriting an existing file.
#[derive(Debug)]
pub struct CopyEvent {
    source: FsPath,
    destination: FsPath,
    merge: bool,
    overwrite: bool,
}

impl View for CopyEvent {
    type V = TranslationView;

    closed spec fn view(&self) -> TranslationView {
        TranslationView {
            source: self.source@,
            destination: self.destination@,
            merge: self.merge,
            overwrite: self.overwrite,
        }
    }
}

impl Clone for CopyEvent {
    fn clone(&self) -> (r: Self)
        ensures
            r@ == self@,
    {
        CopyEvent {
            source: self.source.clone(),
            destination: self.destination.clone(),
            merge: self.merge,
            overwrite: self.overwrite,
        }
    }
}

impl CopyEvent {
    pub fn new(source: &FsPath, destination: &FsPath, merge: bool, overwrite: bool) -> (e: CopyEvent)
        ensures
            e@ == (TranslationView {
                source: source@,
                destination: destination@,
                merge,
                overwrite,
            }),
    {
        CopyEvent { source: source.clone(), destination: destination.clone(), merge, overwrite }
    }

    pub fn source(&self) -> (p: &FsPath)
        ensures
            p@ == self@.source,
    {
        &self.source
    }

    pub fn destination(&self) -> (p: &FsPath)
        ensures
            p@ == self@.destination,
    {
        &self.destination
    }

    pub fn merge(&self) -> (b: bool)
        ensures
            b == self@.merge,
    {
        self.merge
    }

    pub fn overwrite(&self) -> (b: bool)
        ensures
            b == self@.overwrite,
    {
        self.overwrite
    }

    /// The writes that carry out this copy on `fs`, asking `guard`.
    pub fn atomize_guarded<F: ReadableFileSystem, G: Guard>(&self, fs: &F, guard: &mut G) -> (r: Result<
        AtomicTransaction,
        DomainError,
    >)
        requires
            F::read_wf(fs@),
        ensures
            (final(guard)@, tx_result_view(r)) == translate_view::<F, G>(
                fs@,
                old(guard)@,
                self@.source,
                self@.destination,
                self@.merge,
                self@.overwrite,
                false,
                F::depth_bound_view(fs@),
            ),
    {
        let fuel = fs.depth_bound();
        translate(fs, guard, &self.source, &self.destination, self.merge, self.overwrite, false, fuel)
    }

    /// The writes that carry out this copy on `fs`, with the default guard.
    pub fn atomize<F: ReadableFileSystem>(&self, fs: &F) -> (r: Result<AtomicTransaction, DomainError>)
        requires
            F::read_wf(fs@),
        ensures
            tx_result_view(r) == translate_view::<F, DefaultGuard>(
                fs@,
                (),
                self@.source,
                self@.destination,
                self@.merge,
                self@.overwrite,
                false,
                F::depth_bound_view(fs@),
            ).1,
    {
        let mut guard = DefaultGuard;
        self.atomize_guarded(fs, &mut guard)
    }
}

/// Moves `source` to `destination`; `merge` allows merging a directory
/// into an existing one, `overwrite` allows overwriting an existing file.
#[derive(Debug)]
pub struct MoveEvent {
    source: FsPath,
    destination: FsPath,
    merge: bool,
    overwrite: bool,
}

impl View for MoveEvent {
    type V = TranslationView;

    closed spec fn view(&self) -> TranslationView {
        TranslationView {
            source: self.source@,
            destination: self.destination@,
            merge: self.merge,
            overwrite: self.overwrite,
        }
    }
}

impl Clone for MoveEvent {
    fn clone(&self) -> (r: Self)
        ensures
            r@ == self@,
    {
        MoveEvent {
            source: self.source.clone(),
            destination: self.destination.clone(),
            merge: self.merge,
            overwrite: self.overwrite,
        }
    }
}

impl MoveEvent {
    pub fn new(source: &FsPath, destination: &FsPath, merge: bool, overwrite: bool) -> (e: MoveEvent)
        ensures
            e@ == (TranslationView {
                source: source@,
                destination: destination@,
                merge,
                overwrite,
            }),
    {
        MoveEvent { source: source.clone(), destination: destination.clone(), merge, overwrite }
    }

    pub fn source(&self) -> (p: &FsPath)
        ensures
            p@ == self@.source,
    {
        &self.source
    }

    pub fn destination(&self) -> (p: &FsPath)
        ensures
            p@ == self@.destination,
    {
        &self.destination
    }

    pub fn merge(&self) -> (b: bool)
        ensures
            b == self@.merge,
    {
        self.merge
    }

    pub fn overwrite(&self) -> (b: bool)
        ensures
            b == self@.overwrite,
    {
        self.overwrite
    }

    /// The writes that carry out this move on `fs`, asking `guard`.
    pub fn atomize_guarded<F: ReadableFileSystem, G: Guard>(&self, fs: &F, guard: &mut G) -> (r: Result<
        AtomicTransaction,
        DomainError,
    >)
        requires
            F::read_wf(fs@),
        ensures
            (final(guard)@, tx_result_view(r)) == translate_view::<F, G>(
                fs@,
                old(guard)@,
                self@.source,
                self@.destination,
                self@.merge,
                self@.overwrite,
                true,
                F::depth_bound_view(fs@),
            ),
    {
        let fuel = fs.depth_bound();
        translate(fs, guard, &self.source, &self.destination, self.merge, self.overwrite, true, fuel)
    }

    /// The writes that carry out this move on `fs`, with the default guard.
    pub fn atomize<F: ReadableFileSystem>(&self, fs: &F) -> (r: Result<AtomicTransaction, DomainError>)
        requires
            F::read_wf(fs@),
        ensures
            tx_result_view(r) == translate_view::<F, DefaultGuard>(
                fs@,
                (),
                self@.source,
                self@.destination,
                self@.merge,
                self@.overwrite,
                true,
                F::depth_bound_view(fs@),
            ).1,
    {
        let mut guard = DefaultGuard;
        self.atomize_guarded(fs, &mut guard)
    }
}

pub struct RemoveView {
    pub path: PathView,
    pub recursive: bool,
}

/// Removes `path`; `recursive` allows removing a directory with its content.
#[derive(Debug)]
pub struct RemoveEvent {
    path: FsPath,
    recursive: bool,
}

impl View for RemoveEvent {
    type V = RemoveView;

    closed spec fn view(&self) -> RemoveView {
        RemoveView { path: self.path@, recursive: self.recursive }
    }
}

impl Clone for RemoveEvent {
    fn clone(&self) -> (r: Self)
        ensures
            r@ == self@,
    {
        RemoveEvent { path: self.path.clone(), recursive: self.recursive }
    }
}

impl RemoveEvent {
    pub fn new(path: &FsPath, recursive: bool) -> (e: RemoveEvent)
        ensures
            e@ == (RemoveView { path: path@, recursive }),
    {
        RemoveEvent { path: path.clone(), recursive }
    }

    pub fn path(&self) -> (p: &FsPath)
        ensures
            p@ == self@.path,
    {
        &self.path
    }

    pub fn recursive(&self) -> (b: bool)
        ensures
            b == self@.recursive,
    {
        self.recursive
    }

    /// The writes that carry out this removal on `fs`, asking `guard`.
    pub fn atomize_guarded<F: ReadableFileSystem, G: Guard>(&self, fs: &F, guard: &mut G) -> (r: Result<
        AtomicTransaction,
        DomainError,
    >)
        requires
            F::read_wf(fs@),
        ensures
            (final(guard)@, tx_result_view(r)) == remove_view::<F, G>(
                fs@,
                old(guard)@,
                self@.path,
                self@.recursive,
                F::depth_bound_view(fs@),
            ),
    {
        let fuel = fs.depth_bound();
        remove_path(fs, guard, &self.path, self.recursive, fuel)
    }

    /// The writes that carry out this removal on `fs`, with the default
    /// guard.
    pub fn atomize<F: ReadableFileSystem>(&self, fs: &F) -> (r: Result<AtomicTransaction, DomainError>)
        requires
            F::read_wf(fs@),
        ensures
            tx_result_view(r) == remove_view::<F, DefaultGuard>(
                fs@,
                (),
                self@.path,
                self@.recursive,
                F::depth_bound_view(fs@),
            ).1,
    {
        let mut guard = DefaultGuard;
        self.atomize_guarded(fs, &mut guard)
    }
}

pub struct CreateView {
    pub path: PathView,
    pub kind: Kind,
    pub recursive: bool,
    pub overwrite: bool,
}

/// Creates a node of `kind` at `path`; `recursive` makes the missing
/// parents, `overwrite` allows replacing an existing file.
#[derive(Debug)]
pub struct CreateEvent {
    path: FsPath,
    kind: Kind,
    recursive: bool,
    overwrite: bool,
}

impl View for CreateEvent {
    type V = CreateView;

    closed spec fn view(&self) -> CreateView {
        CreateView {
            path: self.path@,
            kind: self.kind,
            recursive: self.recursive,
            overwrite: self.overwrite,
        }
    }
}

impl Clone for CreateEvent {
    fn clone(&self) -> (r: Self)
        ensures
            r@ == self@,
    {
        CreateEvent {
            path: self.path.clone(),
            kind: self.kind,
            recursive: self.recursive,
            overwrite: self.overwrite,
        }
    }
}

impl CreateEvent {
    pub fn new(path: &FsPath, kind: Kind, recursive: bool, overwrite: bool) -> (e: CreateEvent)
        ensures
            e@ == (CreateView { path: path@, kind, recursive, overwrite }),
    {
        CreateEvent { path: path.clone(), kind, recursive, overwrite }
    }

    pub fn path(&self) -> (p: &FsPath)
        ensures
            p@ == self@.path,
    {
        &self.path
    }

    pub fn kind(&self) -> (k: Kind)
        ensures
            k == self@.kind,
    {
        self.kind
    }

    pub fn recursive(&self) -> (b: bool)
        ensures
            b == self@.recursive,
    {
        self.recursive
    }

    pub fn overwrite(&self) -> (b: bool)
        ensures
            b == self@.overwrite,
    {
        self.overwrite
    }

    /// The writes that carry out this creation on `fs`, asking `guard`.
    pub fn atomize_guarded<F: ReadableFileSystem, G: Guard>(&self, fs: &F, guard: &mut G) -> (r: Result<
        AtomicTransaction,
        DomainError,
    >)
        requires
            F::read_wf(fs@),
        ensures
            (final(guard)@, tx_result_view(r)) == create_view::<F, G>(
                fs@,
                old(guard)@,
                self@.path,
                self@.kind,
                self@.recursive,
                self@.overwrite,
            ),
    {
        let entry = match fs.status(&self.path) {
            Err(e) => {
                return Err(DomainErrorOf::Query(e));
            },
            Ok(s) => s,
        };
        match self.kind {
            Kind::Directory => {
                if entry.is_existing() {
                    return Err(DomainErrorOf::DirectoryOverwriteNotAllowed(entry.to_path()));
                }
                match parents(fs, &self.path, self.recursive) {
                    Err(e) => Err(e),
                    Ok(mut t) => {
                        t.add(AtomicOf::CreateEmptyDirectory(entry.to_path()));
                        Ok(t)
                    },
                }
            },
            Kind::File => {
                if !entry.is_existing() {
                    let mut t = AtomicTransaction::new();
                    t.add(AtomicOf::CreateEmptyFile(entry.to_path()));
                    assert(t@ =~= seq![AtomicOf::CreateEmptyFile(entry@.path)]);
                    return Ok(t);
                }
                match guard.authorize(Capability::Overwrite, self.overwrite, entry.path()) {
                    Err(e) => Err(e),
                    Ok(false) => Ok(AtomicTransaction::new()),
                    Ok(true) => match parents(fs, &self.path, self.recursive) {
                        Err(e) => Err(e),
                        Ok(mut t) => {
                            t.add(AtomicOf::RemoveFile(entry.to_path()));
                            t.add(AtomicOf::CreateEmptyFile(entry.to_path()));
                            Ok(t)
                        },
                    },
                }
            },
            Kind::Unknown => Err(DomainErrorOf::CreateUnknown(entry.to_path())),
        }
    }

    /// The writes that carry out this creation on `fs`, with the default
    /// guard.
    pub fn atomize<F: ReadableFileSystem>(&self, fs: &F) -> (r: Result<AtomicTransaction, DomainError>)
        requires
            F::read_wf(fs@),
        ensures
            tx_result_view(r) == create_view::<F, DefaultGuard>(
                fs@,
                (),
                self@.path,
                self@.kind,
                self@.recursive,
                self@.overwrite,
            ).1,
    {
        let mut guard = DefaultGuard;
        self.atomize_guarded(fs, &mut guard)
    }
}

} // verus!
