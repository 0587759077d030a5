//! The atomic writes, and the transactions that apply them in order.

use vstd::prelude::*;

use crate::errors::{InfrastructureError, InfrastructureErrorView};
use crate::path::{FsPath, PathView};
use crate::port::{WriteableFileSystem, infra_unit_view};

verus! {

/// One write on a file system.
#[derive(Debug, Clone, PartialEq, Eq)]
pub enum AtomicOf<P> {
    CreateEmptyDirectory(P),
    CreateEmptyFile(P),
    BindDirectoryToDirectory(P, P),
    CopyFileToFile(P, P),
    MoveFileToFile(P, P),
    RemoveFile(P),
    RemoveEmptyDirectory(P),
}

pub type Atomic = AtomicOf<FsPath>;

pub type AtomicView = AtomicOf<PathView>;

impl View for AtomicOf<FsPath> {
    type V = AtomicOf<PathView>;

    open spec fn view(&self) -> AtomicOf<PathView> {
        match self {
            AtomicOf::CreateEmptyDirectory(p) => AtomicOf::CreateEmptyDirectory(p@),
            AtomicOf::CreateEmptyFile(p) => AtomicOf::CreateEmptyFile(p@),
            AtomicOf::BindDirectoryToDirectory(s, d) => AtomicOf::BindDirectoryToDirectory(
                s@,
                d@,
            ),
            AtomicOf::CopyFileToFile(s, d) => AtomicOf::CopyFileToFile(s@, d@),
            AtomicOf::MoveFileToFile(s, d) => AtomicOf::MoveFileToFile(s@, d@),
            AtomicOf::RemoveFile(p) => AtomicOf::RemoveFile(p@),
            AtomicOf::RemoveEmptyDirectory(p) => AtomicOf::RemoveEmptyDirectory(p@),
        }
    }
}

/// What one write does to a file system of type `F`.
pub open spec fn atomic_step<F: WriteableFileSystem>(v: F::V, a: AtomicView) -> (
    F::V,
    Result<(), InfrastructureErrorView>,
) {
    match a {
        AtomicOf::CreateEmptyDirectory(p) => F::create_empty_directory_view(v, p),
        AtomicOf::CreateEmptyFile(p) => F::create_empty_file_view(v, p),
        AtomicOf::BindDirectoryToDirectory(s, d) => F::bind_directory_to_directory_view(v, s, d),
        AtomicOf::CopyFileToFile(s, d) => F::copy_file_to_file_view(v, s, d),
        AtomicOf::MoveFileToFile(s, d) => F::move_file_to_file_view(v, s, d),
        AtomicOf::RemoveFile(p) => F::remove_file_view(v, p),
        AtomicOf::RemoveEmptyDirectory(p) => F::remove_empty_directory_view(v, p),
    }
}

/// The writes `s` applied in order, up to the first that fails.
pub open spec fn apply_all<F: WriteableFileSystem>(v: F::V, s: Seq<AtomicView>) -> (
    F::V,
    Result<(), InfrastructureErrorView>,
)
    decreases s.len(),
{
    if s.len() == 0 {
        (v, Ok(()))
    } else {
        let before = apply_all::<F>(v, s.drop_last());
        match before.1 {
            Err(e) => (before.0, Err(e)),
            Ok(()) => atomic_step::<F>(before.0, s.last()),
        }
    }
}

/// A write fails or succeeds as a whole: a prefix that fails makes the
/// whole sequence fail in the same state with the same error.
pub proof fn lemma_apply_all_prefix_err<F: WriteableFileSystem>(
    v: F::V,
    s: Seq<AtomicView>,
    i: int,
)
    requires
        0 <= i <= s.len(),
        apply_all::<F>(v, s.take(i)).1 is Err,
    ensures
        apply_all::<F>(v, s) == apply_all::<F>(v, s.take(i)),
    decreases s.len(),
{
    if i == s.len() {
        assert(s.take(i) =~= s);
    } else {
        assert(s.drop_last().take(i) =~= s.take(i));
        lemma_apply_all_prefix_err::<F>(v, s.drop_last(), i);
    }
}

impl AtomicOf<FsPath> {
    /// Applies this write to `fs`.
    pub fn apply<F: WriteableFileSystem>(self, fs: &mut F) -> (r: Result<(), InfrastructureError>)
        requires
            F::write_wf(old(fs)@),
        ensures
            F::write_wf(final(fs)@),
            (final(fs)@, infra_unit_view(r)) == atomic_step::<F>(old(fs)@, self@),
    {
        self.apply_to(fs)
    }

    /// A copy of this write.
    pub fn clone_atomic(&self) -> (r: Atomic)
        ensures
            r@ == self@,
    {
        match self {
            AtomicOf::CreateEmptyDirectory(p) => AtomicOf::CreateEmptyDirectory(p.clone()),
            AtomicOf::CreateEmptyFile(p) => AtomicOf::CreateEmptyFile(p.clone()),
            AtomicOf::BindDirectoryToDirectory(s, d) => AtomicOf::BindDirectoryToDirectory(
                s.clone(),
                d.clone(),
            ),
            AtomicOf::CopyFileToFile(s, d) => AtomicOf::CopyFileToFile(s.clone(), d.clone()),
            AtomicOf::MoveFileToFile(s, d) => AtomicOf::MoveFileToFile(s.clone(), d.clone()),
            AtomicOf::RemoveFile(p) => AtomicOf::RemoveFile(p.clone()),
            AtomicOf::RemoveEmptyDirectory(p) => AtomicOf::RemoveEmptyDirectory(p.clone()),
        }
    }

    fn apply_to<F: WriteableFileSystem>(&self, fs: &mut F) -> (r: Result<(), InfrastructureError>)
        requires
            F::write_wf(old(fs)@),
        ensures
            F::write_wf(final(fs)@),
            (final(fs)@, infra_unit_view(r)) == atomic_step::<F>(old(fs)@, self@),
    {
        match self {
            AtomicOf::CreateEmptyDirectory(p) => fs.create_empty_directory(p),
            AtomicOf::CreateEmptyFile(p) => fs.create_empty_file(p),
            AtomicOf::BindDirectoryToDirectory(s, d) => fs.bind_directory_to_directory(s, d),
            AtomicOf::CopyFileToFile(s, d) => fs.copy_file_to_file(s, d),
            AtomicOf::MoveFileToFile(s, d) => fs.move_file_to_file(s, d),
            AtomicOf::RemoveFile(p) => fs.remove_file(p),
            AtomicOf::RemoveEmptyDirectory(p) => fs.remove_empty_directory(p),
        }
    }
}

pub open spec fn atomics_view(s: Seq<Atomic>) -> Seq<AtomicView> {
    s.map_values(|a: Atomic| a@)
}

/// A sequence of writes, applied in order.
#[derive(Debug)]
pub struct AtomicTransaction(pub Vec<Atomic>);

impl View for AtomicTransaction {
    type V = Seq<AtomicView>;

    open spec fn view(&self) -> Seq<AtomicView> {
        atomics_view(self.0@)
    }
}

impl Default for AtomicTransaction {
    fn default() -> (t: Self)
        ensures
            t@ == Seq::<AtomicView>::empty(),
    {
        AtomicTransaction::new()
    }
}

impl AtomicTransaction {
    /// The transaction with no write.
    pub fn new() -> (t: AtomicTransaction)
        ensures
            t@ == Seq::<AtomicView>::empty(),
    {
        let t = AtomicTransaction(Vec::new());
        assert(t@ =~= Seq::<AtomicView>::empty());
        t
    }

    /// Appends a write.
    pub fn add(&mut self, atomic: Atomic)
        ensures
            final(self)@ == old(self)@.push(atomic@),
    {
        let ghost before = self.0@;
        self.0.push(atomic);
        assert(atomics_view(self.0@) =~= atomics_view(before).push(atomic@));
    }

    /// Appends the writes of `transaction`, in order.
    pub fn merge(&mut self, transaction: AtomicTransaction)
        ensures
            final(self)@ == old(self)@ + transaction@,
    {
        let ghost before = self.0@;
        let mut other = transaction.0;
        let ghost added = other@;
        self.0.append(&mut other);
        assert(atomics_view(self.0@) =~= atomics_view(before) + atomics_view(added));
    }

    /// Applies the writes in order, up to the first that fails.
    pub fn apply<F: WriteableFileSystem>(self, fs: &mut F) -> (r: Result<(), InfrastructureError>)
        requires
            F::write_wf(old(fs)@),
        ensures
            F::write_wf(final(fs)@),
            (final(fs)@, infra_unit_view(r)) == apply_all::<F>(old(fs)@, self@),
    {
        let ghost start = fs@;
        let ghost s = self@;
        let mut i: usize = 0;
        while i < self.0.len()
            invariant
                s == self@,
                start == old(fs)@,
                i <= self.0.len(),
                F::write_wf(fs@),
                apply_all::<F>(start, s.take(i as int)) == (fs@, Ok::<(), InfrastructureErrorView>(())),
            decreases self.0.len() - i,
        {
            assert(self.0@[i as int]@ == s[i as int]);
            assert(s.take(i + 1).drop_last() =~= s.take(i as int));
            assert(s.take(i + 1).last() == s[i as int]);
            let r = self.0[i].apply_to(fs);
            assert(apply_all::<F>(start, s.take(i + 1)) == (fs@, infra_unit_view(r)));
            if let Err(e) = r {
                proof {
                    lemma_apply_all_prefix_err::<F>(start, s, i + 1);
                }
                return Err(e);
            }
            i += 1;
        }
        assert(s.take(self.0.len() as int) =~= s);
        Ok(())
    }

    /// A transaction with the same writes.
    pub fn duplicate(&self) -> (t: AtomicTransaction)
        ensures
            t@ == self@,
    {
        let mut r: Vec<Atomic> = Vec::new();
        let mut i: usize = 0;
        while i < self.0.len()
            invariant
                i <= self.0.len(),
                atomics_view(r@) =~= atomics_view(self.0@).take(i as int),
            decreases self.0.len() - i,
        {
            let c = self.0[i].clone_atomic();
            let ghost before = r@;
            r.push(c);
            assert(atomics_view(r@) =~= atomics_view(before).push(c@));
            i += 1;
        }
        assert(atomics_view(self.0@).take(self.0.len() as int) =~= atomics_view(self.0@));
        AtomicTransaction(r)
    }

    /// The writes, in order.
    pub fn into_atomics(self) -> (v: Vec<Atomic>)
        ensures
            atomics_view(v@) == self@,
    {
        self.0
    }

    /// The number of writes.
    pub fn len(&self) -> (n: usize)
        ensures
            n == self@.len(),
    {
        self.0.len()
    }

    pub fn is_empty(&self) -> (b: bool)
        ensures
            b == (self@.len() == 0),
    {
        self.0.len() == 0
    }
}

} // verus!
