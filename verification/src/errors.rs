//! The errors of each layer. Each error enum is generic over the type of the
//! paths it carries, so that its view carries the paths' views.

use vstd::prelude::*;

use crate::path::{FsPath, PathView};

verus! {

/// The kind of a failure of the operating system.
#[derive(Clone, Copy, Debug, PartialEq, Eq, Structural)]
pub enum IoErrorKind {
    NotFound,
    AlreadyExists,
    DirectoryNotEmpty,
    IsADirectory,
    NotADirectory,
    Other,
}

/// Errors of the representation of a virtual delta.
#[derive(Debug, Clone, PartialEq, Eq)]
pub enum RepresentationErrorOf<P> {
    AlreadyExists(P),
    VirtualParentIsAFile(P),
    DoesNotExists(P),
    IsNotADirectory(P),
    IsRelativePath(P),
}

pub type RepresentationError = RepresentationErrorOf<FsPath>;

pub type RepresentationErrorView = RepresentationErrorOf<PathView>;

impl View for RepresentationErrorOf<FsPath> {
    type V = RepresentationErrorOf<PathView>;

    open spec fn view(&self) -> RepresentationErrorOf<PathView> {
        match self {
            RepresentationErrorOf::AlreadyExists(p) => RepresentationErrorOf::AlreadyExists(p@),
            RepresentationErrorOf::VirtualParentIsAFile(p) => RepresentationErrorOf::VirtualParentIsAFile(p@),
            RepresentationErrorOf::DoesNotExists(p) => RepresentationErrorOf::DoesNotExists(p@),
            RepresentationErrorOf::IsNotADirectory(p) => RepresentationErrorOf::IsNotADirectory(p@),
            RepresentationErrorOf::IsRelativePath(p) => RepresentationErrorOf::IsRelativePath(p@),
        }
    }
}

/// Errors of the queries that read a file system.
#[derive(Debug, Clone, PartialEq, Eq)]
pub enum QueryErrorOf<P> {
    Representation(RepresentationErrorOf<P>),
    Io(IoErrorKind),
    ReadTargetDoesNotExists(P),
    IsNotADirectory(P),
    AddSubDanglingVirtualPath(P),
}

pub type QueryError = QueryErrorOf<FsPath>;

pub type QueryErrorView = QueryErrorOf<PathView>;

impl View for QueryErrorOf<FsPath> {
    type V = QueryErrorOf<PathView>;

    open spec fn view(&self) -> QueryErrorOf<PathView> {
        match self {
            QueryErrorOf::Representation(a) => QueryErrorOf::Representation(a@),
            QueryErrorOf::Io(a) => QueryErrorOf::Io(*a),
            QueryErrorOf::ReadTargetDoesNotExists(a) => QueryErrorOf::ReadTargetDoesNotExists(a@),
            QueryErrorOf::IsNotADirectory(a) => QueryErrorOf::IsNotADirectory(a@),
            QueryErrorOf::AddSubDanglingVirtualPath(a) => QueryErrorOf::AddSubDanglingVirtualPath(a@),
        }
    }
}

/// Errors of the atomic writes on a file system.
#[derive(Debug, Clone, PartialEq, Eq)]
pub enum InfrastructureErrorOf<P> {
    Io(IoErrorKind),
    Representation(RepresentationErrorOf<P>),
    Query(QueryErrorOf<P>),
    PathDoesNotExists(P),
    ParentDoesNotExists(P),
    ParentIsNotADirectory(P),
    SourceDoesNotExists(P),
    SourceIsNotADirectory(P),
    SourceIsNotAFile(P),
    DestinationIsNotAFile(P),
    DestinationAlreadyExists(P),
    DirectoryIsNotEmpty(P),
    Custom(String),
}

pub type InfrastructureError = InfrastructureErrorOf<FsPath>;

pub type InfrastructureErrorView = InfrastructureErrorOf<PathView>;

impl View for InfrastructureErrorOf<FsPath> {
    type V = InfrastructureErrorOf<PathView>;

    open spec fn view(&self) -> InfrastructureErrorOf<PathView> {
        match self {
            InfrastructureErrorOf::Io(a) => InfrastructureErrorOf::Io(*a),
            InfrastructureErrorOf::Representation(a) => InfrastructureErrorOf::Representation(a@),
            InfrastructureErrorOf::Query(a) => InfrastructureErrorOf::Query(a@),
            InfrastructureErrorOf::PathDoesNotExists(a) => InfrastructureErrorOf::PathDoesNotExists(a@),
            InfrastructureErrorOf::ParentDoesNotExists(a) => InfrastructureErrorOf::ParentDoesNotExists(a@),
            InfrastructureErrorOf::ParentIsNotADirectory(a) => InfrastructureErrorOf::ParentIsNotADirectory(a@),
            InfrastructureErrorOf::SourceDoesNotExists(a) => InfrastructureErrorOf::SourceDoesNotExists(a@),
            InfrastructureErrorOf::SourceIsNotADirectory(a) => InfrastructureErrorOf::SourceIsNotADirectory(a@),
            InfrastructureErrorOf::SourceIsNotAFile(a) => InfrastructureErrorOf::SourceIsNotAFile(a@),
            InfrastructureErrorOf::DestinationIsNotAFile(a) => InfrastructureErrorOf::DestinationIsNotAFile(a@),
            InfrastructureErrorOf::DestinationAlreadyExists(a) => InfrastructureErrorOf::DestinationAlreadyExists(a@),
            InfrastructureErrorOf::DirectoryIsNotEmpty(a) => InfrastructureErrorOf::DirectoryIsNotEmpty(a@),
            InfrastructureErrorOf::Custom(a) => InfrastructureErrorOf::Custom(*a),
        }
    }
}

/// Errors of the events, when they are turned into atomic writes.
#[derive(Debug, Clone, PartialEq, Eq)]
pub enum DomainErrorOf<P> {
    IoError(IoErrorKind),
    JsonError(String),
    Infrastructure(InfrastructureErrorOf<P>),
    Query(QueryErrorOf<P>),
    CopyIntoItSelf(P, P),
    MergeNotAllowed(P),
    OverwriteNotAllowed(P),
    DirectoryOverwriteNotAllowed(P),
    MergeFileWithDirectory(P, P),
    OverwriteDirectoryWithFile(P, P),
    CreateUnknown(P),
    DoesNotExists(P),
    RecursiveNotAllowed(P),
    SourceDoesNotExists(P),
    UserCancelled,
    Custom(String),
}

pub type DomainError = DomainErrorOf<FsPath>;

pub type DomainErrorView = DomainErrorOf<PathView>;

impl View for DomainErrorOf<FsPath> {
    type V = DomainErrorOf<PathView>;

    open spec fn view(&self) -> DomainErrorOf<PathView> {
        match self {
            DomainErrorOf::IoError(a) => DomainErrorOf::IoError(*a),
            DomainErrorOf::JsonError(a) => DomainErrorOf::JsonError(*a),
            DomainErrorOf::Infrastructure(a) => DomainErrorOf::Infrastructure(a@),
            DomainErrorOf::Query(a) => DomainErrorOf::Query(a@),
            DomainErrorOf::CopyIntoItSelf(a, b) => DomainErrorOf::CopyIntoItSelf(a@, b@),
            DomainErrorOf::MergeNotAllowed(a) => DomainErrorOf::MergeNotAllowed(a@),
            DomainErrorOf::OverwriteNotAllowed(a) => DomainErrorOf::OverwriteNotAllowed(a@),
            DomainErrorOf::DirectoryOverwriteNotAllowed(a) => DomainErrorOf::DirectoryOverwriteNotAllowed(a@),
            DomainErrorOf::MergeFileWithDirectory(a, b) => DomainErrorOf::MergeFileWithDirectory(a@, b@),
            DomainErrorOf::OverwriteDirectoryWithFile(a, b) => DomainErrorOf::OverwriteDirectoryWithFile(a@, b@),
            DomainErrorOf::CreateUnknown(a) => DomainErrorOf::CreateUnknown(a@),
            DomainErrorOf::DoesNotExists(a) => DomainErrorOf::DoesNotExists(a@),
            DomainErrorOf::RecursiveNotAllowed(a) => DomainErrorOf::RecursiveNotAllowed(a@),
            DomainErrorOf::SourceDoesNotExists(a) => DomainErrorOf::SourceDoesNotExists(a@),
            DomainErrorOf::UserCancelled => DomainErrorOf::UserCancelled,
            DomainErrorOf::Custom(a) => DomainErrorOf::Custom(*a),
        }
    }
}

/// Errors of the operations of the first file system layer.
#[derive(Debug, Clone, PartialEq, Eq)]
pub enum OperationErrorOf<P> {
    Io(IoErrorKind),
    Representation(RepresentationErrorOf<P>),
    Query(QueryErrorOf<P>),
    CopyIntoItSelf(P, P),
    AlreadyExists(P),
    DirectoryIsNotEmpty(P),
    SourceIsNotAFile(P),
    OverwriteDirectoryWithFile(P, P),
    CopyDirectoryIntoFile(P, P),
    MergeNotAllowed(P, P),
    OverwriteNotAllowed(P, P),
    ParentDoesNotExists(P),
    ParentIsNotADirectory(P),
    SourceDoesNotExists(P),
    DoesNotExists(P),
    Custom(String),
}

pub type OperationError = OperationErrorOf<FsPath>;

pub type OperationErrorView = OperationErrorOf<PathView>;

impl View for OperationErrorOf<FsPath> {
    type V = OperationErrorOf<PathView>;

    open spec fn view(&self) -> OperationErrorOf<PathView> {
        match self {
            OperationErrorOf::Io(a) => OperationErrorOf::Io(*a),
            OperationErrorOf::Representation(a) => OperationErrorOf::Representation(a@),
            OperationErrorOf::Query(a) => OperationErrorOf::Query(a@),
            OperationErrorOf::CopyIntoItSelf(a, b) => OperationErrorOf::CopyIntoItSelf(a@, b@),
            OperationErrorOf::AlreadyExists(a) => OperationErrorOf::AlreadyExists(a@),
            OperationErrorOf::DirectoryIsNotEmpty(a) => OperationErrorOf::DirectoryIsNotEmpty(a@),
            OperationErrorOf::SourceIsNotAFile(a) => OperationErrorOf::SourceIsNotAFile(a@),
            OperationErrorOf::OverwriteDirectoryWithFile(a, b) => OperationErrorOf::OverwriteDirectoryWithFile(a@, b@),
            OperationErrorOf::CopyDirectoryIntoFile(a, b) => OperationErrorOf::CopyDirectoryIntoFile(a@, b@),
            OperationErrorOf::MergeNotAllowed(a, b) => OperationErrorOf::MergeNotAllowed(a@, b@),
            OperationErrorOf::OverwriteNotAllowed(a, b) => OperationErrorOf::OverwriteNotAllowed(a@, b@),
            OperationErrorOf::ParentDoesNotExists(a) => OperationErrorOf::ParentDoesNotExists(a@),
            OperationErrorOf::ParentIsNotADirectory(a) => OperationErrorOf::ParentIsNotADirectory(a@),
            OperationErrorOf::SourceDoesNotExists(a) => OperationErrorOf::SourceDoesNotExists(a@),
            OperationErrorOf::DoesNotExists(a) => OperationErrorOf::DoesNotExists(a@),
            OperationErrorOf::Custom(a) => OperationErrorOf::Custom(*a),
        }
    }
}

/// Errors of the virtual file system of the first layer.
#[derive(Debug, Clone, PartialEq, Eq)]
pub enum VirtualErrorOf<P> {
    RepresentationError(RepresentationErrorOf<P>),
    IoError(IoErrorKind),
    CopyIntoItSelf(P, P),
    OverwriteDirectoryWithFile(P, P),
    CopyDirectoryIntoFile(P, P),
    MergeNotAllowed(P, P),
    OverwriteNotAllowed(P, P),
    ParentDoesNotExists(P),
    ParentIsNotADirectory(P),
    SourceDoesNotExists(P),
    DoesNotExists(P),
    IsNotADirectory(P),
    AddSubDanglingVirtualPath(P),
}

pub type VirtualError = VirtualErrorOf<FsPath>;

pub type VirtualErrorView = VirtualErrorOf<PathView>;

impl View for VirtualErrorOf<FsPath> {
    type V = VirtualErrorOf<PathView>;

    open spec fn view(&self) -> VirtualErrorOf<PathView> {
        match self {
            VirtualErrorOf::RepresentationError(a) => VirtualErrorOf::RepresentationError(a@),
            VirtualErrorOf::IoError(a) => VirtualErrorOf::IoError(*a),
            VirtualErrorOf::CopyIntoItSelf(a, b) => VirtualErrorOf::CopyIntoItSelf(a@, b@),
            VirtualErrorOf::OverwriteDirectoryWithFile(a, b) => VirtualErrorOf::OverwriteDirectoryWithFile(a@, b@),
            VirtualErrorOf::CopyDirectoryIntoFile(a, b) => VirtualErrorOf::CopyDirectoryIntoFile(a@, b@),
            VirtualErrorOf::MergeNotAllowed(a, b) => VirtualErrorOf::MergeNotAllowed(a@, b@),
            VirtualErrorOf::OverwriteNotAllowed(a, b) => VirtualErrorOf::OverwriteNotAllowed(a@, b@),
            VirtualErrorOf::ParentDoesNotExists(a) => VirtualErrorOf::ParentDoesNotExists(a@),
            VirtualErrorOf::ParentIsNotADirectory(a) => VirtualErrorOf::ParentIsNotADirectory(a@),
            VirtualErrorOf::SourceDoesNotExists(a) => VirtualErrorOf::SourceDoesNotExists(a@),
            VirtualErrorOf::DoesNotExists(a) => VirtualErrorOf::DoesNotExists(a@),
            VirtualErrorOf::IsNotADirectory(a) => VirtualErrorOf::IsNotADirectory(a@),
            VirtualErrorOf::AddSubDanglingVirtualPath(a) => VirtualErrorOf::AddSubDanglingVirtualPath(a@),
        }
    }
}

/// Errors of the real file system of the first layer.
#[derive(Debug, Clone, PartialEq, Eq)]
pub enum RealErrorOf<P> {
    IoError(IoErrorKind),
    AlreadyExists(P),
    SourceDoesNotExists(P),
    OverwriteDirectoryWithFile(P, P),
    CopyDirectoryIntoFile(P, P),
    ParentDoesNotExists(P),
    ParentIsNotADirectory(P),
    MergeNotAllowed(P, P),
    OverwriteNotAllowed(P, P),
    DirectoryIsNotEmpty(P),
    DoesNotExists(P),
    SourceIsNotAFile(P),
}

pub type RealError = RealErrorOf<FsPath>;

pub type RealErrorView = RealErrorOf<PathView>;

impl View for RealErrorOf<FsPath> {
    type V = RealErrorOf<PathView>;

    open spec fn view(&self) -> RealErrorOf<PathView> {
        match self {
            RealErrorOf::IoError(a) => RealErrorOf::IoError(*a),
            RealErrorOf::AlreadyExists(a) => RealErrorOf::AlreadyExists(a@),
            RealErrorOf::SourceDoesNotExists(a) => RealErrorOf::SourceDoesNotExists(a@),
            RealErrorOf::OverwriteDirectoryWithFile(a, b) => RealErrorOf::OverwriteDirectoryWithFile(a@, b@),
            RealErrorOf::CopyDirectoryIntoFile(a, b) => RealErrorOf::CopyDirectoryIntoFile(a@, b@),
            RealErrorOf::ParentDoesNotExists(a) => RealErrorOf::ParentDoesNotExists(a@),
            RealErrorOf::ParentIsNotADirectory(a) => RealErrorOf::ParentIsNotADirectory(a@),
            RealErrorOf::MergeNotAllowed(a, b) => RealErrorOf::MergeNotAllowed(a@, b@),
            RealErrorOf::OverwriteNotAllowed(a, b) => RealErrorOf::OverwriteNotAllowed(a@, b@),
            RealErrorOf::DirectoryIsNotEmpty(a) => RealErrorOf::DirectoryIsNotEmpty(a@),
            RealErrorOf::DoesNotExists(a) => RealErrorOf::DoesNotExists(a@),
            RealErrorOf::SourceIsNotAFile(a) => RealErrorOf::SourceIsNotAFile(a@),
        }
    }
}

/// Errors of the business rules of the operations.
#[derive(Debug, Clone, PartialEq, Eq)]
pub enum BusinessErrorOf<P> {
    Io(IoErrorKind),
    CopyIntoItSelf(P, P),
    AlreadyExists(P),
    DirectoryIsNotEmpty(P),
    SourceIsNotAFile(P),
    OverwriteDirectoryWithFile(P, P),
    CopyDirectoryIntoFile(P, P),
    MergeNotAllowed(P, P),
    OverwriteNotAllowed(P, P),
    ParentDoesNotExists(P),
    ParentIsNotADirectory(P),
    SourceDoesNotExists(P),
    DoesNotExists(P),
    Custom(String),
}

pub type BusinessError = BusinessErrorOf<FsPath>;

pub type BusinessErrorView = BusinessErrorOf<PathView>;

impl View for BusinessErrorOf<FsPath> {
    type V = BusinessErrorOf<PathView>;

    open spec fn view(&self) -> BusinessErrorOf<PathView> {
        match self {
            BusinessErrorOf::Io(a) => BusinessErrorOf::Io(*a),
            BusinessErrorOf::CopyIntoItSelf(a, b) => BusinessErrorOf::CopyIntoItSelf(a@, b@),
            BusinessErrorOf::AlreadyExists(a) => BusinessErrorOf::AlreadyExists(a@),
            BusinessErrorOf::DirectoryIsNotEmpty(a) => BusinessErrorOf::DirectoryIsNotEmpty(a@),
            BusinessErrorOf::SourceIsNotAFile(a) => BusinessErrorOf::SourceIsNotAFile(a@),
            BusinessErrorOf::OverwriteDirectoryWithFile(a, b) => BusinessErrorOf::OverwriteDirectoryWithFile(a@, b@),
            BusinessErrorOf::CopyDirectoryIntoFile(a, b) => BusinessErrorOf::CopyDirectoryIntoFile(a@, b@),
            BusinessErrorOf::MergeNotAllowed(a, b) => BusinessErrorOf::MergeNotAllowed(a@, b@),
            BusinessErrorOf::OverwriteNotAllowed(a, b) => BusinessErrorOf::OverwriteNotAllowed(a@, b@),
            BusinessErrorOf::ParentDoesNotExists(a) => BusinessErrorOf::ParentDoesNotExists(a@),
            BusinessErrorOf::ParentIsNotADirectory(a) => BusinessErrorOf::ParentIsNotADirectory(a@),
            BusinessErrorOf::SourceDoesNotExists(a) => BusinessErrorOf::SourceDoesNotExists(a@),
            BusinessErrorOf::DoesNotExists(a) => BusinessErrorOf::DoesNotExists(a@),
            BusinessErrorOf::Custom(a) => BusinessErrorOf::Custom(*a),
        }
    }
}

impl From<QueryErrorOf<FsPath>> for DomainErrorOf<FsPath> {
    fn from(error: QueryErrorOf<FsPath>) -> (e: Self) {
        DomainErrorOf::Query(error)
    }
}

impl vstd::std_specs::convert::FromSpecImpl<QueryErrorOf<FsPath>> for DomainErrorOf<FsPath> {
    open spec fn obeys_from_spec() -> bool {
        true
    }

    open spec fn from_spec(v: QueryErrorOf<FsPath>) -> Self {
        DomainErrorOf::Query(v)
    }
}

impl From<InfrastructureErrorOf<FsPath>> for DomainErrorOf<FsPath> {
    fn from(error: InfrastructureErrorOf<FsPath>) -> (e: Self) {
        DomainErrorOf::Infrastructure(error)
    }
}

impl vstd::std_specs::convert::FromSpecImpl<InfrastructureErrorOf<FsPath>> for DomainErrorOf<FsPath> {
    open spec fn obeys_from_spec() -> bool {
        true
    }

    open spec fn from_spec(v: InfrastructureErrorOf<FsPath>) -> Self {
        DomainErrorOf::Infrastructure(v)
    }
}

} // verus!
