//! The container of a session: a virtual file system over the real one, the
//! events that were played on the virtual one, and the replay of those
//! events on the real one.

use vstd::prelude::*;

use crate::atomic::{Atomic, AtomicOf, AtomicTransaction, AtomicView, apply_all, atomic_step, atomics_view};
use crate::laws::law_apply_concatenation;
use crate::capability::{DefaultGuard, Guard};
use crate::disk::{RealFileSystem, RealNodeView, real_wf};
use crate::errors::{DomainError, DomainErrorOf, DomainErrorView, InfrastructureErrorView, QueryError};
use crate::event::{
    CopyEvent, CreateEvent, CreateView, MoveEvent, RemoveEvent, RemoveView, TranslationView,
    create_view, remove_view, translate_view, tx_result_view,
};
use crate::path::FsPath;
use crate::port::{
    Entry, EntryView, FileSystemAdapter, ReadableFileSystem, WriteableFileSystem, entry_result_view,
    entries_result_view, infra_unit_view,
};
use crate::representation::empty_delta;
use crate::virt::{VfsView, VirtualFileSystem, vcopy_view, vfs_wf, vremove_view};

verus! {

/// The value of an event.
pub enum FsEventView {
    Copy(TranslationView),
    Move(TranslationView),
    Remove(RemoveView),
    Create(CreateView),
}

/// One of the events of the file manager.
#[derive(Debug)]
pub enum FsEvent {
    Copy(CopyEvent),
    Move(MoveEvent),
    Remove(RemoveEvent),
    Create(CreateEvent),
}

impl View for FsEvent {
    type V = FsEventView;

    open spec fn view(&self) -> FsEventView {
        match self {
            FsEvent::Copy(e) => FsEventView::Copy(e@),
            FsEvent::Move(e) => FsEventView::Move(e@),
            FsEvent::Remove(e) => FsEventView::Remove(e@),
            FsEvent::Create(e) => FsEventView::Create(e@),
        }
    }
}

/// What an event gives on a file system of type `F`, asking a guard of type
/// `G`.
pub open spec fn event_view<F: ReadableFileSystem, G: Guard>(fv: F::V, gv: G::V, e: FsEventView) -> (
    G::V,
    Result<Seq<AtomicView>, DomainErrorView>,
) {
    match e {
        FsEventView::Copy(t) => translate_view::<F, G>(
            fv,
            gv,
            t.source,
            t.destination,
            t.merge,
            t.overwrite,
            false,
            F::depth_bound_view(fv),
        ),
        FsEventView::Move(t) => translate_view::<F, G>(
            fv,
            gv,
            t.source,
            t.destination,
            t.merge,
            t.overwrite,
            true,
            F::depth_bound_view(fv),
        ),
        FsEventView::Remove(r) => remove_view::<F, G>(
            fv,
            gv,
            r.path,
            r.recursive,
            F::depth_bound_view(fv),
        ),
        FsEventView::Create(c) => create_view::<F, G>(
            fv,
            gv,
            c.path,
            c.kind,
            c.recursive,
            c.overwrite,
        ),
    }
}

impl Clone for FsEvent {
    fn clone(&self) -> (r: Self)
        ensures
            r@ == self@,
    {
        match self {
            FsEvent::Copy(e) => FsEvent::Copy(e.clone()),
            FsEvent::Move(e) => FsEvent::Move(e.clone()),
            FsEvent::Remove(e) => FsEvent::Remove(e.clone()),
            FsEvent::Create(e) => FsEvent::Create(e.clone()),
        }
    }
}

impl FsEvent {
    /// The writes that carry out this event on `fs`, asking `guard`.
    pub fn atomize_guarded<F: ReadableFileSystem, G: Guard>(&self, fs: &F, guard: &mut G) -> (r: Result<
        AtomicTransaction,
        DomainError,
    >)
        requires
            F::read_wf(fs@),
        ensures
            (final(guard)@, tx_result_view(r)) == event_view::<F, G>(fs@, old(guard)@, self@),
    {
        match self {
            FsEvent::Copy(e) => e.atomize_guarded(fs, guard),
            FsEvent::Move(e) => e.atomize_guarded(fs, guard),
            FsEvent::Remove(e) => e.atomize_guarded(fs, guard),
            FsEvent::Create(e) => e.atomize_guarded(fs, guard),
        }
    }

    /// The writes that carry out this event on `fs`, with the default guard.
    pub fn atomize<F: ReadableFileSystem>(&self, fs: &F) -> (r: Result<AtomicTransaction, DomainError>)
        requires
            F::read_wf(fs@),
        ensures
            tx_result_view(r) == event_view::<F, DefaultGuard>(fs@, (), self@).1,
    {
        let mut guard = DefaultGuard;
        self.atomize_guarded(fs, &mut guard)
    }
}

pub open spec fn events_view(s: Seq<FsEvent>) -> Seq<FsEventView> {
    s.map_values(|e: FsEvent| e@)
}

/// The events waiting to be replayed, oldest first.
#[derive(Debug)]
pub struct EventQueue(Vec<FsEvent>);

impl View for EventQueue {
    type V = Seq<FsEventView>;

    closed spec fn view(&self) -> Seq<FsEventView> {
        events_view(self.0@)
    }
}

impl Default for EventQueue {
    fn default() -> (q: Self)
        ensures
            q@ == Seq::<FsEventView>::empty(),
    {
        let q = EventQueue(Vec::new());
        assert(q@ =~= Seq::<FsEventView>::empty());
        q
    }
}

impl EventQueue {
    /// Takes out the oldest event.
    pub fn pop_front(&mut self) -> (r: Option<FsEvent>)
        ensures
            old(self)@.len() == 0 ==> r is None && final(self)@ == old(self)@,
            old(self)@.len() > 0 ==> (r matches Some(e) && e@ == old(self)@[0] && final(self)@
                == old(self)@.drop_first()),
    {
        if self.0.len() == 0 {
            return None;
        }
        let ghost before = self.0@;
        let e = self.0.remove(0);
        assert(events_view(self.0@) =~= events_view(before).drop_first());
        Some(e)
    }

    /// Appends an event.
    pub fn push_back(&mut self, event: FsEvent)
        ensures
            final(self)@ == old(self)@.push(event@),
    {
        let ghost before = self.0@;
        self.0.push(event);
        assert(events_view(self.0@) =~= events_view(before).push(event@));
    }

    /// Forgets every event.
    pub fn clear(&mut self)
        ensures
            final(self)@ == Seq::<FsEventView>::empty(),
    {
        self.0 = Vec::new();
        assert(events_view(self.0@) =~= Seq::<FsEventView>::empty());
    }

    pub fn len(&self) -> (n: usize)
        ensures
            n == self@.len(),
    {
        self.0.len()
    }

    pub fn is_empty(&self) -> (b: bool)
        ensures
            b == (self@.len() == 0),
    {
        self.0.len() == 0
    }

    /// The event at `i`.
    pub fn get(&self, i: usize) -> (e: &FsEvent)
        requires
            i < self@.len(),
        ensures
            e@ == self@[i as int],
    {
        &self.0[i]
    }
}

/// What one event does to a file system: its writes, applied in order.
pub open spec fn play_view<F: ReadableFileSystem + WriteableFileSystem>(v: F::V, e: FsEventView) -> (
    F::V,
    Result<(), DomainErrorView>,
) {
    match event_view::<F, DefaultGuard>(v, (), e).1 {
        Err(err) => (v, Err(err)),
        Ok(t) => {
            let applied = apply_all::<F>(v, t);
            match applied.1 {
                Ok(()) => (applied.0, Ok(())),
                Err(err) => (applied.0, Err(DomainErrorOf::Infrastructure(err))),
            }
        },
    }
}

/// What one event does to a file system when `guard` decides: the file
/// system after its writes, the guard after its decisions, and the outcome.
pub open spec fn play_guarded_view<F: ReadableFileSystem + WriteableFileSystem, G: Guard>(
    v: F::V,
    gv: G::V,
    e: FsEventView,
) -> (F::V, G::V, Result<(), DomainErrorView>) {
    let decided = event_view::<F, G>(v, gv, e);
    match decided.1 {
        Err(err) => (v, decided.0, Err(err)),
        Ok(t) => {
            let applied = apply_all::<F>(v, t);
            match applied.1 {
                Ok(()) => (applied.0, decided.0, Ok(())),
                Err(err) => (applied.0, decided.0, Err(DomainErrorOf::Infrastructure(err))),
            }
        },
    }
}

/// What one event does to the real file system when it is replayed.
pub open spec fn replay_one(disk: Seq<RealNodeView>, e: FsEventView) -> (
    Seq<RealNodeView>,
    Result<(), DomainErrorView>,
) {
    play_view::<FileSystemAdapter<RealFileSystem>>(disk, e)
}

/// The events `s` replayed in order on the real file system, up to the first
/// that fails, with the number of events taken out of the queue.
pub open spec fn replay_view(disk: Seq<RealNodeView>, s: Seq<FsEventView>) -> (
    Seq<RealNodeView>,
    Result<(), DomainErrorView>,
    nat,
)
    decreases s.len(),
{
    if s.len() == 0 {
        (disk, Ok(()), 0)
    } else {
        let first = replay_one(disk, s[0]);
        match first.1 {
            Err(err) => (first.0, Err(err), 1),
            Ok(()) => {
                let rest = replay_view(first.0, s.drop_first());
                (rest.0, rest.1, rest.2 + 1)
            },
        }
    }
}

/// A virtual write keeps the real file system that the virtual one lies
/// over.
#[verifier::spinoff_prover]
#[verifier::rlimit(40)]
pub proof fn lemma_virtual_step_keeps_disk(v: VfsView, a: AtomicView)
    ensures
        atomic_step::<FileSystemAdapter<VirtualFileSystem>>(v, a).0.disk == v.disk,
{
    match a {
        AtomicOf::MoveFileToFile(s, d) => {
            let first = vcopy_view(v, s, d);
            assert(first.0.disk == v.disk);
            assert(vremove_view(first.0, s).0.disk == first.0.disk);
        },
        _ => {},
    }
}

/// Virtual writes keep the real file system that the virtual one lies over.
pub proof fn lemma_virtual_writes_keep_disk(v: VfsView, s: Seq<AtomicView>)
    ensures
        apply_all::<FileSystemAdapter<VirtualFileSystem>>(v, s).0.disk == v.disk,
    decreases s.len(),
{
    if s.len() > 0 {
        lemma_virtual_writes_keep_disk(v, s.drop_last());
        let before = apply_all::<FileSystemAdapter<VirtualFileSystem>>(v, s.drop_last());
        lemma_virtual_step_keeps_disk(before.0, s.last());
    }
}

pub struct ContainerView {
    pub vfs: VfsView,
    pub real: Seq<RealNodeView>,
    pub queue: Seq<FsEventView>,
}

/// The session: a virtual file system over the real one, and the events
/// played on the virtual one, waiting to be replayed on the real one.
#[derive(Debug)]
pub struct Container {
    virtual_fs: FileSystemAdapter<VirtualFileSystem>,
    real_fs: FileSystemAdapter<RealFileSystem>,
    event_queue: EventQueue,
}

impl View for Container {
    type V = ContainerView;

    closed spec fn view(&self) -> ContainerView {
        ContainerView {
            vfs: self.virtual_fs@,
            real: self.real_fs@,
            queue: self.event_queue@,
        }
    }
}

pub open spec fn fresh_vfs(disk: Seq<RealNodeView>) -> VfsView {
    VfsView { add: empty_delta(), sub: empty_delta(), disk }
}

/// A session over the same real file system, with nothing played.
pub open spec fn reset_view(c: ContainerView) -> ContainerView {
    ContainerView { vfs: fresh_vfs(c.real), real: c.real, queue: Seq::<FsEventView>::empty() }
}

/// A session after `e` was played on its virtual file system.
pub open spec fn emitted_view(c: ContainerView, e: FsEventView) -> ContainerView {
    ContainerView { vfs: play_view::<FileSystemAdapter<VirtualFileSystem>>(c.vfs, e).0, ..c }
}

/// A session after `e` was queued.
pub open spec fn delayed_view(c: ContainerView, e: FsEventView) -> ContainerView {
    ContainerView { queue: c.queue.push(e), ..c }
}

pub open spec fn container_wf(c: ContainerView) -> bool {
    &&& vfs_wf(c.vfs)
    &&& real_wf(c.real)
    &&& c.vfs.disk == c.real
}

pub open spec fn domain_unit_view(r: Result<(), DomainError>) -> Result<(), DomainErrorView> {
    match r {
        Ok(()) => Ok(()),
        Err(e) => Err(e@),
    }
}

impl Container {
    pub open spec fn wf(&self) -> bool {
        container_wf(self@)
    }

    /// A session over `disk`, with nothing played.
    pub fn new(disk: RealFileSystem) -> (c: Container)
        requires
            disk.wf(),
        ensures
            c.wf(),
            c@ == (ContainerView {
                vfs: fresh_vfs(disk@),
                real: disk@,
                queue: Seq::<FsEventView>::empty(),
            }),
    {
        Container {
            virtual_fs: FileSystemAdapter(VirtualFileSystem::over(disk.clone())),
            real_fs: FileSystemAdapter(disk),
            event_queue: EventQueue::default(),
        }
    }

    /// Plays `event` on the virtual file system.
    pub fn emit(&mut self, event: &FsEvent) -> (r: Result<(), DomainError>)
        requires
            old(self).wf(),
        ensures
            final(self).wf(),
            final(self)@ == emitted_view(old(self)@, event@),
            final(self)@.real == old(self)@.real,
            final(self)@.queue == old(self)@.queue,
            final(self)@.vfs == play_view::<FileSystemAdapter<VirtualFileSystem>>(
                old(self)@.vfs,
                event@,
            ).0,
            domain_unit_view(r) == play_view::<FileSystemAdapter<VirtualFileSystem>>(
                old(self)@.vfs,
                event@,
            ).1,
    {
        let t = match event.atomize(&self.virtual_fs) {
            Err(e) => {
                return Err(e);
            },
            Ok(t) => t,
        };
        let ghost steps = t@;
        let ghost before = self.virtual_fs@;
        let r = t.apply(&mut self.virtual_fs);
        proof {
            lemma_virtual_writes_keep_disk(before, steps);
        }
        match r {
            Ok(()) => Ok(()),
            Err(e) => Err(DomainErrorOf::Infrastructure(e)),
        }
    }

    /// Plays `event` on the virtual file system, asking `guard` about each
    /// capability that it needs.
    pub fn emit_guarded<G: Guard>(&mut self, event: &FsEvent, guard: &mut G) -> (r: Result<
        (),
        DomainError,
    >)
        requires
            old(self).wf(),
        ensures
            final(self).wf(),
            final(self)@.real == old(self)@.real,
            final(self)@.queue == old(self)@.queue,
            (final(self)@.vfs, final(guard)@, domain_unit_view(r)) == play_guarded_view::<
                FileSystemAdapter<VirtualFileSystem>,
                G,
            >(old(self)@.vfs, old(guard)@, event@),
    {
        let t = match event.atomize_guarded(&self.virtual_fs, guard) {
            Err(e) => {
                return Err(e);
            },
            Ok(t) => t,
        };
        let ghost steps = t@;
        let ghost before = self.virtual_fs@;
        let r = t.apply(&mut self.virtual_fs);
        proof {
            lemma_virtual_writes_keep_disk(before, steps);
        }
        match r {
            Ok(()) => Ok(()),
            Err(e) => Err(DomainErrorOf::Infrastructure(e)),
        }
    }

    /// Queues `event` for the replay on the real file system.
    pub fn delay(&mut self, event: FsEvent)
        requires
            old(self).wf(),
        ensures
            final(self).wf(),
            final(self)@ == delayed_view(old(self)@, event@),
    {
        self.event_queue.push_back(event);
    }

    /// Forgets what was played and queued.
    pub fn reset(&mut self)
        requires
            old(self).wf(),
        ensures
            final(self).wf(),
            final(self)@ == reset_view(old(self)@),
    {
        self.virtual_fs = FileSystemAdapter(VirtualFileSystem::over(self.real_fs.0.clone()));
        self.event_queue.clear();
    }

    /// Replays the queued events on the real file system, in order; once
    /// they all went through, the session starts afresh over the new real
    /// file system.
    pub fn apply(&mut self) -> (r: Result<(), DomainError>)
        requires
            old(self).wf(),
        ensures
            final(self).wf(),
            final(self)@.real == replay_view(old(self)@.real, old(self)@.queue).0,
            domain_unit_view(r) == replay_view(old(self)@.real, old(self)@.queue).1,
            r is Ok ==> final(self)@.queue == Seq::<FsEventView>::empty() && final(self)@.vfs
                == fresh_vfs(final(self)@.real),
            r is Err ==> final(self)@.queue == old(self)@.queue.skip(
                replay_view(old(self)@.real, old(self)@.queue).2 as int,
            ),
            r is Err ==> final(self)@.vfs == (VfsView {
                disk: final(self)@.real,
                ..old(self)@.vfs
            }),
    {
        let ghost start_real = self.real_fs@;
        let ghost start_queue = self.event_queue@;
        let ghost mut done: nat = 0;
        assert(start_queue.skip(0) =~= start_queue);
        while !self.event_queue.is_empty()
            invariant
                real_wf(self.real_fs@),
                vfs_wf(self.virtual_fs@),
                start_real == old(self)@.real,
                start_queue == old(self)@.queue,
                self.virtual_fs@.add == old(self)@.vfs.add,
                self.virtual_fs@.sub == old(self)@.vfs.sub,
                done <= start_queue.len(),
                self.event_queue@ == start_queue.skip(done as int),
                replay_view(start_real, start_queue) == ({
                    let rest = replay_view(self.real_fs@, self.event_queue@);
                    (rest.0, rest.1, rest.2 + done)
                }),
            decreases self.event_queue@.len(),
        {
            let ghost q = self.event_queue@;
            let event = match self.event_queue.pop_front() {
                None => {
                    return Ok(());
                },
                Some(e) => e,
            };
            proof {
                assert(start_queue.skip((done + 1) as int) =~= q.drop_first());
                done = done + 1;
            }
            let t = match event.atomize(&self.real_fs) {
                Err(e) => {
                    self.virtual_fs.0.set_disk(self.real_fs.0.clone());
                    return Err(e);
                },
                Ok(t) => t,
            };
            if let Err(e) = t.apply(&mut self.real_fs) {
                self.virtual_fs.0.set_disk(self.real_fs.0.clone());
                return Err(DomainErrorOf::Infrastructure(e));
            }
        }
        self.virtual_fs = FileSystemAdapter(VirtualFileSystem::over(self.real_fs.0.clone()));
        self.event_queue.clear();
        Ok(())
    }

    /// Replays the queued events on the real file system as `apply` does,
    /// and gives back the writes that were made there, in order: they take
    /// the real file system from where it was to where it is.
    pub fn apply_recorded(&mut self) -> (out: (Vec<Atomic>, Result<(), DomainError>))
        requires
            old(self).wf(),
        ensures
            final(self).wf(),
            final(self)@.real == replay_view(old(self)@.real, old(self)@.queue).0,
            domain_unit_view(out.1) == replay_view(old(self)@.real, old(self)@.queue).1,
            apply_all::<FileSystemAdapter<RealFileSystem>>(old(self)@.real, atomics_view(out.0@)).0
                == final(self)@.real,
            out.1 is Ok ==> final(self)@.queue == Seq::<FsEventView>::empty() && final(self)@.vfs
                == fresh_vfs(final(self)@.real),
            out.1 is Err ==> final(self)@.queue == old(self)@.queue.skip(
                replay_view(old(self)@.real, old(self)@.queue).2 as int,
            ),
            out.1 is Err ==> final(self)@.vfs == (VfsView {
                disk: final(self)@.real,
                ..old(self)@.vfs
            }),
    {
        let ghost start_real = self.real_fs@;
        let ghost start_queue = self.event_queue@;
        let ghost mut done: nat = 0;
        let mut recorded = AtomicTransaction::new();
        assert(start_queue.skip(0) =~= start_queue);
        while !self.event_queue.is_empty()
            invariant
                real_wf(self.real_fs@),
                vfs_wf(self.virtual_fs@),
                start_real == old(self)@.real,
                start_queue == old(self)@.queue,
                self.virtual_fs@.add == old(self)@.vfs.add,
                self.virtual_fs@.sub == old(self)@.vfs.sub,
                done <= start_queue.len(),
                self.event_queue@ == start_queue.skip(done as int),
                replay_view(start_real, start_queue) == ({
                    let rest = replay_view(self.real_fs@, self.event_queue@);
                    (rest.0, rest.1, rest.2 + done)
                }),
                apply_all::<FileSystemAdapter<RealFileSystem>>(start_real, recorded@) == (
                    self.real_fs@,
                    Ok::<(), InfrastructureErrorView>(()),
                ),
            decreases self.event_queue@.len(),
        {
            let ghost q = self.event_queue@;
            let event = match self.event_queue.pop_front() {
                None => {
                    return (recorded.into_atomics(), Ok(()));
                },
                Some(e) => e,
            };
            proof {
                assert(start_queue.skip((done + 1) as int) =~= q.drop_first());
                done = done + 1;
            }
            let t = match event.atomize(&self.real_fs) {
                Err(e) => {
                    self.virtual_fs.0.set_disk(self.real_fs.0.clone());
                    return (recorded.into_atomics(), Err(e));
                },
                Ok(t) => t,
            };
            let writes = t.duplicate();
            let ghost here = self.real_fs@;
            let ghost before = recorded@;
            let r = t.apply(&mut self.real_fs);
            recorded.merge(writes);
            proof {
                law_apply_concatenation::<FileSystemAdapter<RealFileSystem>>(
                    start_real,
                    before,
                    recorded@.skip(before.len() as int),
                );
                assert(recorded@.skip(before.len() as int) =~= t@);
                assert(before + t@ =~= recorded@);
            }
            if let Err(e) = r {
                self.virtual_fs.0.set_disk(self.real_fs.0.clone());
                return (recorded.into_atomics(), Err(DomainErrorOf::Infrastructure(e)));
            }
        }
        self.virtual_fs = FileSystemAdapter(VirtualFileSystem::over(self.real_fs.0.clone()));
        self.event_queue.clear();
        (recorded.into_atomics(), Ok(()))
    }

    /// Whether nothing was played on the virtual file system.
    pub fn is_empty(&self) -> (b: bool)
        ensures
            b == (self@.vfs.add.keys.len() == 0 && self@.vfs.sub.keys.len() == 0),
    {
        self.virtual_fs.0.is_empty()
    }

    pub fn vfs(&self) -> (v: &FileSystemAdapter<VirtualFileSystem>)
        ensures
            v@ == self@.vfs,
    {
        &self.virtual_fs
    }

    pub fn rfs(&self) -> (v: &FileSystemAdapter<RealFileSystem>)
        ensures
            v@ == self@.real,
    {
        &self.real_fs
    }

    pub fn queue(&self) -> (q: &EventQueue)
        ensures
            q@ == self@.queue,
    {
        &self.event_queue
    }

    /// The status of `path` on the virtual file system.
    pub fn status(&self, path: &FsPath) -> (r: Result<Entry, QueryError>)
        requires
            self.wf(),
        ensures
            entry_result_view(r) == FileSystemAdapter::<VirtualFileSystem>::status_view(
                self@.vfs,
                path@,
            ),
    {
        self.virtual_fs.status(path)
    }

    /// The children of the directory `path` on the virtual file system.
    pub fn read_dir(&self, path: &FsPath) -> (r: Result<Vec<Entry>, QueryError>)
        requires
            self.wf(),
        ensures
            entries_result_view(r) == FileSystemAdapter::<VirtualFileSystem>::read_dir_view(
                self@.vfs,
                path@,
            ),
    {
        self.virtual_fs.read_dir(path)
    }
}

} // verus!
