//! What the events need of a file system: reading a path's status and a
//! directory's children, and the atomic writes.

use vstd::prelude::*;

use crate::errors::{InfrastructureError, InfrastructureErrorView, QueryError, QueryErrorView};
use crate::path::{file_name_view, starts_with_view, FsPath, PathView};

verus! {

/// The value of an entry: a path, and whether it exists and as what.
pub struct EntryView {
    pub path: PathView,
    pub exists: bool,
    pub is_dir: bool,
    pub is_file: bool,
}

/// The status of a path of a file system.
#[derive(Debug)]
pub struct Entry {
    path: FsPath,
    exists: bool,
    is_dir: bool,
    is_file: bool,
}

impl View for Entry {
    type V = EntryView;

    closed spec fn view(&self) -> EntryView {
        EntryView {
            path: self.path@,
            exists: self.exists,
            is_dir: self.is_dir,
            is_file: self.is_file,
        }
    }
}

impl Clone for Entry {
    fn clone(&self) -> (r: Self)
        ensures
            r@ == self@,
    {
        Entry {
            path: self.path.clone(),
            exists: self.exists,
            is_dir: self.is_dir,
            is_file: self.is_file,
        }
    }
}

impl Entry {
    pub fn new(path: FsPath, exists: bool, is_dir: bool, is_file: bool) -> (e: Entry)
        ensures
            e@ == (EntryView { path: path@, exists, is_dir, is_file }),
    {
        Entry { path, exists, is_dir, is_file }
    }

    pub fn path(&self) -> (p: &FsPath)
        ensures
            p@ == self@.path,
    {
        &self.path
    }

    pub fn to_path(&self) -> (p: FsPath)
        ensures
            p@ == self@.path,
    {
        self.path.clone()
    }

    /// The last component of the path, when it is a name.
    pub fn name(&self) -> (r: Option<String>)
        ensures
            r matches Some(s) ==> file_name_view(self@.path) == Some(s@),
            r is None <==> file_name_view(self@.path) is None,
    {
        self.path.file_name()
    }

    pub fn is_existing(&self) -> (b: bool)
        ensures
            b == self@.exists,
    {
        self.exists
    }

    pub fn is_dir(&self) -> (b: bool)
        ensures
            b == self@.is_dir,
    {
        self.is_dir
    }

    pub fn is_file(&self) -> (b: bool)
        ensures
            b == self@.is_file,
    {
        self.is_file
    }

    /// Whether this entry's path lies within `other`'s path.
    pub fn is_contained_by(&self, other: &Entry) -> (b: bool)
        ensures
            b == starts_with_view(self@.path, other@.path),
    {
        self.path.starts_with(&other.path)
    }
}

pub open spec fn entries_view(v: Seq<Entry>) -> Seq<EntryView> {
    v.map_values(|e: Entry| e@)
}

pub open spec fn entry_result_view(r: Result<Entry, QueryError>) -> Result<EntryView, QueryErrorView> {
    match r {
        Ok(e) => Ok(e@),
        Err(e) => Err(e@),
    }
}

pub open spec fn entries_result_view(r: Result<Vec<Entry>, QueryError>) -> Result<
    Seq<EntryView>,
    QueryErrorView,
> {
    match r {
        Ok(v) => Ok(entries_view(v@)),
        Err(e) => Err(e@),
    }
}

pub open spec fn infra_unit_view(r: Result<(), InfrastructureError>) -> Result<
    (),
    InfrastructureErrorView,
> {
    match r {
        Ok(()) => Ok(()),
        Err(e) => Err(e@),
    }
}

/// A file system seen through the reads and writes of this module.
#[derive(Debug)]
pub struct FileSystemAdapter<T>(pub T);

/// A file system that can be read: a path's status and a directory's
/// children.
pub trait ReadableFileSystem: View + Sized {
    spec fn read_wf(v: Self::V) -> bool;

    spec fn status_view(v: Self::V, p: PathView) -> Result<EntryView, QueryErrorView>;

    spec fn read_dir_view(v: Self::V, p: PathView) -> Result<Seq<EntryView>, QueryErrorView>;

    /// A depth that the recursive walks over this file system never go past.
    spec fn depth_bound_view(v: Self::V) -> nat;

    /// Whether a directory copied to a new path is bound to its source by a
    /// single write, its content then read through the source, rather than
    /// rebuilt child by child.
    spec fn binds_copies_view() -> bool;

    /// The children that a read of a directory gives have paths with at
    /// least one component.
    proof fn lemma_read_dir_entries(v: Self::V, p: PathView)
        requires
            Self::read_wf(v),
        ensures
            Self::read_dir_view(v, p) is Ok ==> forall|i: int|
                0 <= i < Self::read_dir_view(v, p)->Ok_0.len() ==> (#[trigger] Self::read_dir_view(
                    v,
                    p,
                )->Ok_0[i]).path.components.len() > 0,
    ;

    fn status(&self, p: &FsPath) -> (r: Result<Entry, QueryError>)
        requires
            Self::read_wf(self@),
        ensures
            entry_result_view(r) == Self::status_view(self@, p@),
    ;

    fn read_dir(&self, p: &FsPath) -> (r: Result<Vec<Entry>, QueryError>)
        requires
            Self::read_wf(self@),
        ensures
            entries_result_view(r) == Self::read_dir_view(self@, p@),
    ;

    fn binds_copies() -> (b: bool)
        ensures
            b == Self::binds_copies_view(),
    ;

    fn depth_bound(&self) -> (n: usize)
        requires
            Self::read_wf(self@),
        ensures
            n == Self::depth_bound_view(self@),
    ;
}

/// A file system that takes the atomic writes.
pub trait WriteableFileSystem: View + Sized {
    spec fn write_wf(v: Self::V) -> bool;

    spec fn create_empty_directory_view(v: Self::V, p: PathView) -> (
        Self::V,
        Result<(), InfrastructureErrorView>,
    );

    spec fn create_empty_file_view(v: Self::V, p: PathView) -> (
        Self::V,
        Result<(), InfrastructureErrorView>,
    );

    spec fn copy_file_to_file_view(v: Self::V, src: PathView, dst: PathView) -> (
        Self::V,
        Result<(), InfrastructureErrorView>,
    );

    spec fn move_file_to_file_view(v: Self::V, src: PathView, dst: PathView) -> (
        Self::V,
        Result<(), InfrastructureErrorView>,
    );

    spec fn bind_directory_to_directory_view(v: Self::V, src: PathView, dst: PathView) -> (
        Self::V,
        Result<(), InfrastructureErrorView>,
    );

    spec fn remove_file_view(v: Self::V, p: PathView) -> (
        Self::V,
        Result<(), InfrastructureErrorView>,
    );

    spec fn remove_empty_directory_view(v: Self::V, p: PathView) -> (
        Self::V,
        Result<(), InfrastructureErrorView>,
    );

    fn create_empty_directory(&mut self, p: &FsPath) -> (r: Result<(), InfrastructureError>)
        requires
            Self::write_wf(old(self)@),
        ensures
            Self::write_wf(final(self)@),
            final(self)@ == Self::create_empty_directory_view(old(self)@, p@).0,
            infra_unit_view(r) == Self::create_empty_directory_view(old(self)@, p@).1,
    ;

    fn create_empty_file(&mut self, p: &FsPath) -> (r: Result<(), InfrastructureError>)
        requires
            Self::write_wf(old(self)@),
        ensures
            Self::write_wf(final(self)@),
            final(self)@ == Self::create_empty_file_view(old(self)@, p@).0,
            infra_unit_view(r) == Self::create_empty_file_view(old(self)@, p@).1,
    ;

    fn copy_file_to_file(&mut self, src: &FsPath, dst: &FsPath) -> (r: Result<
        (),
        InfrastructureError,
    >)
        requires
            Self::write_wf(old(self)@),
        ensures
            Self::write_wf(final(self)@),
            final(self)@ == Self::copy_file_to_file_view(old(self)@, src@, dst@).0,
            infra_unit_view(r) == Self::copy_file_to_file_view(old(self)@, src@, dst@).1,
    ;

    fn move_file_to_file(&mut self, src: &FsPath, dst: &FsPath) -> (r: Result<
        (),
        InfrastructureError,
    >)
        requires
            Self::write_wf(old(self)@),
        ensures
            Self::write_wf(final(self)@),
            final(self)@ == Self::move_file_to_file_view(old(self)@, src@, dst@).0,
            infra_unit_view(r) == Self::move_file_to_file_view(old(self)@, src@, dst@).1,
    ;

    fn bind_directory_to_directory(&mut self, src: &FsPath, dst: &FsPath) -> (r: Result<
        (),
        InfrastructureError,
    >)
        requires
            Self::write_wf(old(self)@),
        ensures
            Self::write_wf(final(self)@),
            final(self)@ == Self::bind_directory_to_directory_view(old(self)@, src@, dst@).0,
            infra_unit_view(r) == Self::bind_directory_to_directory_view(old(self)@, src@, dst@).1,
    ;

    fn remove_file(&mut self, p: &FsPath) -> (r: Result<(), InfrastructureError>)
        requires
            Self::write_wf(old(self)@),
        ensures
            Self::write_wf(final(self)@),
            final(self)@ == Self::remove_file_view(old(self)@, p@).0,
            infra_unit_view(r) == Self::remove_file_view(old(self)@, p@).1,
    ;

    fn remove_empty_directory(&mut self, p: &FsPath) -> (r: Result<(), InfrastructureError>)
        requires
            Self::write_wf(old(self)@),
        ensures
            Self::write_wf(final(self)@),
            final(self)@ == Self::remove_empty_directory_view(old(self)@, p@).0,
            infra_unit_view(r) == Self::remove_empty_directory_view(old(self)@, p@).1,
    ;
}

} // verus!
