//! The texts that tell the user what went wrong.

use vstd::prelude::*;

use crate::capability::Capability;
use crate::command::{CommandErrorOf, CommandErrorView, ShellErrorOf, ShellErrorView};
use crate::errors::{
    BusinessErrorOf, BusinessErrorView, DomainErrorOf, DomainErrorView, InfrastructureErrorOf,
    InfrastructureErrorView, IoErrorKind, OperationErrorOf, OperationErrorView, QueryErrorOf,
    QueryErrorView, RealErrorOf, RealErrorView, RepresentationErrorOf, RepresentationErrorView,
    VirtualErrorOf, VirtualErrorView,
};
use crate::path::{FsPath, display_view};

verus! {

fn prefixed(before: &str, rest: &str) -> (s: String)
    ensures
        s@ == before@ + rest@,
{
    let mut s = before.to_owned();
    s.append(rest);
    s
}

fn framed(before: &str, p: &FsPath, after: &str) -> (s: String)
    ensures
        s@ == before@ + display_view(p@) + after@,
{
    let mut s = before.to_owned();
    let shown = p.display();
    s.append(shown.as_str());
    s.append(after);
    s
}

fn framed2(first: &str, p: &FsPath, between: &str, q: &FsPath) -> (s: String)
    ensures
        s@ == first@ + display_view(p@) + between@ + display_view(q@),
{
    let mut s = framed(first, p, between);
    let shown = q.display();
    s.append(shown.as_str());
    s
}

/// What a failure of the operating system is called.
pub open spec fn io_message_view(k: IoErrorKind) -> Seq<char> {
    match k {
        IoErrorKind::NotFound => "entity not found"@,
        IoErrorKind::AlreadyExists => "entity already exists"@,
        IoErrorKind::DirectoryNotEmpty => "directory not empty"@,
        IoErrorKind::IsADirectory => "is a directory"@,
        IoErrorKind::NotADirectory => "not a directory"@,
        IoErrorKind::Other => "other error"@,
    }
}

pub fn io_message(k: IoErrorKind) -> (s: String)
    ensures
        s@ == io_message_view(k),
{
    match k {
        IoErrorKind::NotFound => "entity not found".to_owned(),
        IoErrorKind::AlreadyExists => "entity already exists".to_owned(),
        IoErrorKind::DirectoryNotEmpty => "directory not empty".to_owned(),
        IoErrorKind::IsADirectory => "is a directory".to_owned(),
        IoErrorKind::NotADirectory => "not a directory".to_owned(),
        IoErrorKind::Other => "other error".to_owned(),
    }
}

/// The name of a capability.
pub open spec fn capability_name(c: Capability) -> Seq<char> {
    match c {
        Capability::Merge => "merge"@,
        Capability::Recursive => "recursive"@,
        Capability::Overwrite => "overwrite"@,
    }
}

impl Capability {
    pub fn name(&self) -> (s: String)
        ensures
            s@ == capability_name(*self),
    {
        match self {
            Capability::Merge => "merge".to_owned(),
            Capability::Recursive => "recursive".to_owned(),
            Capability::Overwrite => "overwrite".to_owned(),
        }
    }
}

/// The message of a representation error.
pub open spec fn representation_message(e: RepresentationErrorView) -> Seq<char>
{
    match e {
        RepresentationErrorOf::AlreadyExists(p) => "Identity "@ + display_view(p) + " already exists"@,
        RepresentationErrorOf::VirtualParentIsAFile(p) => "Identity parent "@ + display_view(p) + " is a file"@,
        RepresentationErrorOf::DoesNotExists(p) => "Identity "@ + display_view(p) + " does not exists"@,
        RepresentationErrorOf::IsNotADirectory(p) => "Identity "@ + display_view(p) + " is not a directory"@,
        RepresentationErrorOf::IsRelativePath(p) => "Path "@ + display_view(p) + " is relative"@,
    }
}

impl RepresentationErrorOf<FsPath> {
    /// The text that tells what went wrong.
    pub fn message(&self) -> (s: String)
        ensures
            s@ == representation_message(self@),
    {
        match self {
            RepresentationErrorOf::AlreadyExists(p) => framed("Identity ", p, " already exists"),
            RepresentationErrorOf::VirtualParentIsAFile(p) => framed("Identity parent ", p, " is a file"),
            RepresentationErrorOf::DoesNotExists(p) => framed("Identity ", p, " does not exists"),
            RepresentationErrorOf::IsNotADirectory(p) => framed("Identity ", p, " is not a directory"),
            RepresentationErrorOf::IsRelativePath(p) => framed("Path ", p, " is relative"),
        }
    }
}

/// The message of a query error.
pub open spec fn query_message(e: QueryErrorView) -> Seq<char>
{
    match e {
        QueryErrorOf::Representation(inner) => "Representation error "@ + representation_message(inner),
        QueryErrorOf::Io(k) => "Io error "@ + io_message_view(k),
        QueryErrorOf::ReadTargetDoesNotExists(p) => "Read target "@ + display_view(p) + " does not exists"@,
        QueryErrorOf::IsNotADirectory(p) => "Path "@ + display_view(p) + " is not a directory"@,
        QueryErrorOf::AddSubDanglingVirtualPath(p) => "Path "@ + display_view(p) + " is present in both add and sub representations"@,
    }
}

impl QueryErrorOf<FsPath> {
    /// The text that tells what went wrong.
    pub fn message(&self) -> (s: String)
        ensures
            s@ == query_message(self@),
    {
        match self {
            QueryErrorOf::Representation(inner) => prefixed("Representation error ", inner.message().as_str()),
            QueryErrorOf::Io(k) => prefixed("Io error ", io_message(*k).as_str()),
            QueryErrorOf::ReadTargetDoesNotExists(p) => framed("Read target ", p, " does not exists"),
            QueryErrorOf::IsNotADirectory(p) => framed("Path ", p, " is not a directory"),
            QueryErrorOf::AddSubDanglingVirtualPath(p) => framed("Path ", p, " is present in both add and sub representations"),
        }
    }
}

/// The message of a infrastructure error.
pub open spec fn infrastructure_message(e: InfrastructureErrorView) -> Seq<char>
{
    match e {
        InfrastructureErrorOf::Io(k) => "Io error "@ + io_message_view(k),
        InfrastructureErrorOf::Representation(inner) => "Representation error "@ + representation_message(inner),
        InfrastructureErrorOf::Query(inner) => "Query error "@ + query_message(inner),
        InfrastructureErrorOf::PathDoesNotExists(p) => "Path "@ + display_view(p) + " does not exists"@,
        InfrastructureErrorOf::ParentDoesNotExists(p) => "Parent path "@ + display_view(p) + " does not exists"@,
        InfrastructureErrorOf::ParentIsNotADirectory(p) => "Parent path "@ + display_view(p) + " is not a directory"@,
        InfrastructureErrorOf::SourceDoesNotExists(p) => "Source path "@ + display_view(p) + " does not exists"@,
        InfrastructureErrorOf::SourceIsNotADirectory(p) => "Source path "@ + display_view(p) + " is not a directory"@,
        InfrastructureErrorOf::SourceIsNotAFile(p) => "Source path "@ + display_view(p) + " is not a file"@,
        InfrastructureErrorOf::DestinationIsNotAFile(p) => "Destination path "@ + display_view(p) + " is not a file"@,
        InfrastructureErrorOf::DestinationAlreadyExists(p) => "Destination path "@ + display_view(p) + " already exists"@,
        InfrastructureErrorOf::DirectoryIsNotEmpty(p) => "Directory "@ + display_view(p) + " is not empty"@,
        InfrastructureErrorOf::Custom(s) => "Custom message "@ + s@,
    }
}

impl InfrastructureErrorOf<FsPath> {
    /// The text that tells what went wrong.
    pub fn message(&self) -> (s: String)
        ensures
            s@ == infrastructure_message(self@),
    {
        match self {
            InfrastructureErrorOf::Io(k) => prefixed("Io error ", io_message(*k).as_str()),
            InfrastructureErrorOf::Representation(inner) => prefixed("Representation error ", inner.message().as_str()),
            InfrastructureErrorOf::Query(inner) => prefixed("Query error ", inner.message().as_str()),
            InfrastructureErrorOf::PathDoesNotExists(p) => framed("Path ", p, " does not exists"),
            InfrastructureErrorOf::ParentDoesNotExists(p) => framed("Parent path ", p, " does not exists"),
            InfrastructureErrorOf::ParentIsNotADirectory(p) => framed("Parent path ", p, " is not a directory"),
            InfrastructureErrorOf::SourceDoesNotExists(p) => framed("Source path ", p, " does not exists"),
            InfrastructureErrorOf::SourceIsNotADirectory(p) => framed("Source path ", p, " is not a directory"),
            InfrastructureErrorOf::SourceIsNotAFile(p) => framed("Source path ", p, " is not a file"),
            InfrastructureErrorOf::DestinationIsNotAFile(p) => framed("Destination path ", p, " is not a file"),
            InfrastructureErrorOf::DestinationAlreadyExists(p) => framed("Destination path ", p, " already exists"),
            InfrastructureErrorOf::DirectoryIsNotEmpty(p) => framed("Directory ", p, " is not empty"),
            InfrastructureErrorOf::Custom(s) => prefixed("Custom message ", s.as_str()),
        }
    }
}

/// The message of a domain error.
pub open spec fn domain_message(e: DomainErrorView) -> Seq<char>
{
    match e {
        DomainErrorOf::IoError(k) => "I/O error "@ + io_message_view(k),
        DomainErrorOf::JsonError(s) => "Json error "@ + s@,
        DomainErrorOf::Infrastructure(inner) => "Infrastructure error "@ + infrastructure_message(inner),
        DomainErrorOf::Query(inner) => "Query error "@ + query_message(inner),
        DomainErrorOf::CopyIntoItSelf(p, q) => "Cannot copy "@ + display_view(p) + " into itself "@ + display_view(q),
        DomainErrorOf::MergeNotAllowed(p) => "Merge into "@ + display_view(p) + " is not allowed"@,
        DomainErrorOf::OverwriteNotAllowed(p) => "Overwrite of "@ + display_view(p) + " is not allowed"@,
        DomainErrorOf::DirectoryOverwriteNotAllowed(p) => "Directory overwrite of "@ + display_view(p) + " is not allowed"@,
        DomainErrorOf::MergeFileWithDirectory(p, q) => "Cannot merge file "@ + display_view(p) + " with directory "@ + display_view(q) + " is not allowed"@,
        DomainErrorOf::OverwriteDirectoryWithFile(p, q) => "Cannot overwrite directory "@ + display_view(p) + " with file "@ + display_view(q),
        DomainErrorOf::CreateUnknown(p) => "Cannot create unknown kind at path "@ + display_view(p),
        DomainErrorOf::DoesNotExists(p) => "Path "@ + display_view(p) + " does not exists"@,
        DomainErrorOf::RecursiveNotAllowed(p) => "Delete recursively "@ + display_view(p) + " is not allowed"@,
        DomainErrorOf::SourceDoesNotExists(p) => "Source "@ + display_view(p) + " does not exists"@,
        DomainErrorOf::UserCancelled => "User cancelled operation"@,
        DomainErrorOf::Custom(s) => "Custom error "@ + s@,
    }
}

impl DomainErrorOf<FsPath> {
    /// The text that tells what went wrong.
    pub fn message(&self) -> (s: String)
        ensures
            s@ == domain_message(self@),
    {
        match self {
            DomainErrorOf::IoError(k) => prefixed("I/O error ", io_message(*k).as_str()),
            DomainErrorOf::JsonError(s) => prefixed("Json error ", s.as_str()),
            DomainErrorOf::Infrastructure(inner) => prefixed("Infrastructure error ", inner.message().as_str()),
            DomainErrorOf::Query(inner) => prefixed("Query error ", inner.message().as_str()),
            DomainErrorOf::CopyIntoItSelf(p, q) => framed2("Cannot copy ", p, " into itself ", q),
            DomainErrorOf::MergeNotAllowed(p) => framed("Merge into ", p, " is not allowed"),
            DomainErrorOf::OverwriteNotAllowed(p) => framed("Overwrite of ", p, " is not allowed"),
            DomainErrorOf::DirectoryOverwriteNotAllowed(p) => framed("Directory overwrite of ", p, " is not allowed"),
            DomainErrorOf::MergeFileWithDirectory(p, q) => {
                let s = framed2("Cannot merge file ", p, " with directory ", q);
                prefixed(s.as_str(), " is not allowed")
            },
            DomainErrorOf::OverwriteDirectoryWithFile(p, q) => framed2("Cannot overwrite directory ", p, " with file ", q),
            DomainErrorOf::CreateUnknown(p) => prefixed("Cannot create unknown kind at path ", p.display().as_str()),
            DomainErrorOf::DoesNotExists(p) => framed("Path ", p, " does not exists"),
            DomainErrorOf::RecursiveNotAllowed(p) => framed("Delete recursively ", p, " is not allowed"),
            DomainErrorOf::SourceDoesNotExists(p) => framed("Source ", p, " does not exists"),
            DomainErrorOf::UserCancelled => "User cancelled operation".to_owned(),
            DomainErrorOf::Custom(s) => prefixed("Custom error ", s.as_str()),
        }
    }
}

/// The message of a operation error.
pub open spec fn operation_message(e: OperationErrorView) -> Seq<char>
{
    match e {
        OperationErrorOf::Io(k) => "Io error "@ + io_message_view(k),
        OperationErrorOf::Representation(inner) => "Representation error "@ + representation_message(inner),
        OperationErrorOf::Query(inner) => "Query error "@ + query_message(inner),
        OperationErrorOf::CopyIntoItSelf(p, q) => "Cannot copy "@ + display_view(p) + " into itself "@ + display_view(q),
        OperationErrorOf::AlreadyExists(p) => "Path "@ + display_view(p) + " already exists"@,
        OperationErrorOf::DirectoryIsNotEmpty(p) => "Directory "@ + display_view(p) + " is not empty"@,
        OperationErrorOf::SourceIsNotAFile(p) => "Source "@ + display_view(p) + " is not a file"@,
        OperationErrorOf::OverwriteDirectoryWithFile(p, q) => "Cannot overwrite directory "@ + display_view(p) + " with file "@ + display_view(q),
        OperationErrorOf::CopyDirectoryIntoFile(p, q) => "Cannot copy directory "@ + display_view(p) + " into file "@ + display_view(q),
        OperationErrorOf::MergeNotAllowed(p, q) => "Merge of "@ + display_view(p) + " into "@ + display_view(q) + " is not allowed"@,
        OperationErrorOf::OverwriteNotAllowed(p, q) => "Overwrite of "@ + display_view(p) + " into "@ + display_view(q) + " is not allowed"@,
        OperationErrorOf::ParentDoesNotExists(p) => "Parent "@ + display_view(p) + " does not exists"@,
        OperationErrorOf::ParentIsNotADirectory(p) => "Parent "@ + display_view(p) + " is not a directory"@,
        OperationErrorOf::SourceDoesNotExists(p) => "Source "@ + display_view(p) + " does not exists"@,
        OperationErrorOf::DoesNotExists(p) => "Path "@ + display_view(p) + " does not exists"@,
        OperationErrorOf::Custom(s) => "Custom error "@ + s@,
    }
}

impl OperationErrorOf<FsPath> {
    /// The text that tells what went wrong.
    pub fn message(&self) -> (s: String)
        ensures
            s@ == operation_message(self@),
    {
        match self {
            OperationErrorOf::Io(k) => prefixed("Io error ", io_message(*k).as_str()),
            OperationErrorOf::Representation(inner) => prefixed("Representation error ", inner.message().as_str()),
            OperationErrorOf::Query(inner) => prefixed("Query error ", inner.message().as_str()),
            OperationErrorOf::CopyIntoItSelf(p, q) => framed2("Cannot copy ", p, " into itself ", q),
            OperationErrorOf::AlreadyExists(p) => framed("Path ", p, " already exists"),
            OperationErrorOf::DirectoryIsNotEmpty(p) => framed("Directory ", p, " is not empty"),
            OperationErrorOf::SourceIsNotAFile(p) => framed("Source ", p, " is not a file"),
            OperationErrorOf::OverwriteDirectoryWithFile(p, q) => framed2("Cannot overwrite directory ", p, " with file ", q),
            OperationErrorOf::CopyDirectoryIntoFile(p, q) => framed2("Cannot copy directory ", p, " into file ", q),
            OperationErrorOf::MergeNotAllowed(p, q) => {
                let s = framed2("Merge of ", p, " into ", q);
                prefixed(s.as_str(), " is not allowed")
            },
            OperationErrorOf::OverwriteNotAllowed(p, q) => {
                let s = framed2("Overwrite of ", p, " into ", q);
                prefixed(s.as_str(), " is not allowed")
            },
            OperationErrorOf::ParentDoesNotExists(p) => framed("Parent ", p, " does not exists"),
            OperationErrorOf::ParentIsNotADirectory(p) => framed("Parent ", p, " is not a directory"),
            OperationErrorOf::SourceDoesNotExists(p) => framed("Source ", p, " does not exists"),
            OperationErrorOf::DoesNotExists(p) => framed("Path ", p, " does not exists"),
            OperationErrorOf::Custom(s) => prefixed("Custom error ", s.as_str()),
        }
    }
}

/// The message of a virtual error.
pub open spec fn virtual_message(e: VirtualErrorView) -> Seq<char>
{
    match e {
        VirtualErrorOf::RepresentationError(inner) => "Representation error: "@ + representation_message(inner),
        VirtualErrorOf::IoError(k) => "IO error: "@ + io_message_view(k),
        VirtualErrorOf::CopyIntoItSelf(p, q) => "Cannot copy "@ + display_view(p) + " into itself "@ + display_view(q),
        VirtualErrorOf::OverwriteDirectoryWithFile(p, q) => "Cannot overwrite directory "@ + display_view(p) + " with file "@ + display_view(q),
        VirtualErrorOf::CopyDirectoryIntoFile(p, q) => "Cannot copy directory "@ + display_view(p) + " into file "@ + display_view(q),
        VirtualErrorOf::MergeNotAllowed(p, q) => "Merge of "@ + display_view(p) + " into "@ + display_view(q) + " is not allowed"@,
        VirtualErrorOf::OverwriteNotAllowed(p, q) => "Overwrite of "@ + display_view(p) + " into "@ + display_view(q) + " is not allowrd"@,
        VirtualErrorOf::ParentDoesNotExists(p) => "Parent "@ + display_view(p) + " does not exists"@,
        VirtualErrorOf::ParentIsNotADirectory(p) => "Parent "@ + display_view(p) + " is not a directory"@,
        VirtualErrorOf::SourceDoesNotExists(p) => "Source "@ + display_view(p) + " does not exists"@,
        VirtualErrorOf::DoesNotExists(p) => "Path "@ + display_view(p) + " does not exists"@,
        VirtualErrorOf::IsNotADirectory(p) => "Path "@ + display_view(p) + " is not a directory"@,
        VirtualErrorOf::AddSubDanglingVirtualPath(p) => "Path "@ + display_view(p) + " is present in both add and sub representations"@,
    }
}

impl VirtualErrorOf<FsPath> {
    /// The text that tells what went wrong.
    pub fn message(&self) -> (s: String)
        ensures
            s@ == virtual_message(self@),
    {
        match self {
            VirtualErrorOf::RepresentationError(inner) => prefixed("Representation error: ", inner.message().as_str()),
            VirtualErrorOf::IoError(k) => prefixed("IO error: ", io_message(*k).as_str()),
            VirtualErrorOf::CopyIntoItSelf(p, q) => framed2("Cannot copy ", p, " into itself ", q),
            VirtualErrorOf::OverwriteDirectoryWithFile(p, q) => framed2("Cannot overwrite directory ", p, " with file ", q),
            VirtualErrorOf::CopyDirectoryIntoFile(p, q) => framed2("Cannot copy directory ", p, " into file ", q),
            VirtualErrorOf::MergeNotAllowed(p, q) => {
                let s = framed2("Merge of ", p, " into ", q);
                prefixed(s.as_str(), " is not allowed")
            },
            VirtualErrorOf::OverwriteNotAllowed(p, q) => {
                let s = framed2("Overwrite of ", p, " into ", q);
                prefixed(s.as_str(), " is not allowrd")
            },
            VirtualErrorOf::ParentDoesNotExists(p) => framed("Parent ", p, " does not exists"),
            VirtualErrorOf::ParentIsNotADirectory(p) => framed("Parent ", p, " is not a directory"),
            VirtualErrorOf::SourceDoesNotExists(p) => framed("Source ", p, " does not exists"),
            VirtualErrorOf::DoesNotExists(p) => framed("Path ", p, " does not exists"),
            VirtualErrorOf::IsNotADirectory(p) => framed("Path ", p, " is not a directory"),
            VirtualErrorOf::AddSubDanglingVirtualPath(p) => framed("Path ", p, " is present in both add and sub representations"),
        }
    }
}

/// The message of a real error.
pub open spec fn real_message(e: RealErrorView) -> Seq<char>
{
    match e {
        RealErrorOf::IoError(k) => "IO error: "@ + io_message_view(k),
        RealErrorOf::AlreadyExists(p) => "Path "@ + display_view(p) + " already exists"@,
        RealErrorOf::SourceDoesNotExists(p) => "Source "@ + display_view(p) + " does not exists"@,
        RealErrorOf::OverwriteDirectoryWithFile(p, q) => "Cannot overwrite directory "@ + display_view(p) + " with file "@ + display_view(q),
        RealErrorOf::CopyDirectoryIntoFile(p, q) => "Cannot copy directory "@ + display_view(p) + " into file "@ + display_view(q),
        RealErrorOf::ParentDoesNotExists(p) => "Parent "@ + display_view(p) + " does not exists"@,
        RealErrorOf::ParentIsNotADirectory(p) => "Parent "@ + display_view(p) + " is not a directory"@,
        RealErrorOf::MergeNotAllowed(p, q) => "Merge of "@ + display_view(p) + " into "@ + display_view(q) + " is not allowed"@,
        RealErrorOf::OverwriteNotAllowed(p, q) => "Overwrite of "@ + display_view(p) + " into "@ + display_view(q) + " is not allowrd"@,
        RealErrorOf::DirectoryIsNotEmpty(p) => "Directory "@ + display_view(p) + " is not empty"@,
        RealErrorOf::DoesNotExists(p) => "Path "@ + display_view(p) + " does not exists"@,
        RealErrorOf::SourceIsNotAFile(p) => "Source "@ + display_view(p) + " is not a file"@,
    }
}

impl RealErrorOf<FsPath> {
    /// The text that tells what went wrong.
    pub fn message(&self) -> (s: String)
        ensures
            s@ == real_message(self@),
    {
        match self {
            RealErrorOf::IoError(k) => prefixed("IO error: ", io_message(*k).as_str()),
            RealErrorOf::AlreadyExists(p) => framed("Path ", p, " already exists"),
            RealErrorOf::SourceDoesNotExists(p) => framed("Source ", p, " does not exists"),
            RealErrorOf::OverwriteDirectoryWithFile(p, q) => framed2("Cannot overwrite directory ", p, " with file ", q),
            RealErrorOf::CopyDirectoryIntoFile(p, q) => framed2("Cannot copy directory ", p, " into file ", q),
            RealErrorOf::ParentDoesNotExists(p) => framed("Parent ", p, " does not exists"),
            RealErrorOf::ParentIsNotADirectory(p) => framed("Parent ", p, " is not a directory"),
            RealErrorOf::MergeNotAllowed(p, q) => {
                let s = framed2("Merge of ", p, " into ", q);
                prefixed(s.as_str(), " is not allowed")
            },
            RealErrorOf::OverwriteNotAllowed(p, q) => {
                let s = framed2("Overwrite of ", p, " into ", q);
                prefixed(s.as_str(), " is not allowrd")
            },
            RealErrorOf::DirectoryIsNotEmpty(p) => framed("Directory ", p, " is not empty"),
            RealErrorOf::DoesNotExists(p) => framed("Path ", p, " does not exists"),
            RealErrorOf::SourceIsNotAFile(p) => framed("Source ", p, " is not a file"),
        }
    }
}

/// The message of a business error.
pub open spec fn business_message(e: BusinessErrorView) -> Seq<char>
{
    match e {
        BusinessErrorOf::Io(k) => "Io error "@ + io_message_view(k),
        BusinessErrorOf::CopyIntoItSelf(p, q) => "Cannot copy "@ + display_view(p) + " into itself "@ + display_view(q),
        BusinessErrorOf::AlreadyExists(p) => "Path "@ + display_view(p) + " already exists"@,
        BusinessErrorOf::DirectoryIsNotEmpty(p) => "Directory "@ + display_view(p) + " is not empty"@,
        BusinessErrorOf::SourceIsNotAFile(p) => "Source "@ + display_view(p) + " is not a file"@,
        BusinessErrorOf::OverwriteDirectoryWithFile(p, q) => "Cannot overwrite directory "@ + display_view(p) + " with file "@ + display_view(q),
        BusinessErrorOf::CopyDirectoryIntoFile(p, q) => "Cannot copy directory "@ + display_view(p) + " into file "@ + display_view(q),
        BusinessErrorOf::MergeNotAllowed(p, q) => "Merge of "@ + display_view(p) + " into "@ + display_view(q) + " is not allowed"@,
        BusinessErrorOf::OverwriteNotAllowed(p, q) => "Overwrite of "@ + display_view(p) + " into "@ + display_view(q) + " is not allowed"@,
        BusinessErrorOf::ParentDoesNotExists(p) => "Parent "@ + display_view(p) + " does not exists"@,
        BusinessErrorOf::ParentIsNotADirectory(p) => "Parent "@ + display_view(p) + " is not a directory"@,
        BusinessErrorOf::SourceDoesNotExists(p) => "Source "@ + display_view(p) + " does not exists"@,
        BusinessErrorOf::DoesNotExists(p) => "Path "@ + display_view(p) + " does not exists"@,
        BusinessErrorOf::Custom(s) => "Custom error "@ + s@,
    }
}

impl BusinessErrorOf<FsPath> {
    /// The text that tells what went wrong.
    pub fn message(&self) -> (s: String)
        ensures
            s@ == business_message(self@),
    {
        match self {
            BusinessErrorOf::Io(k) => prefixed("Io error ", io_message(*k).as_str()),
            BusinessErrorOf::CopyIntoItSelf(p, q) => framed2("Cannot copy ", p, " into itself ", q),
            BusinessErrorOf::AlreadyExists(p) => framed("Path ", p, " already exists"),
            BusinessErrorOf::DirectoryIsNotEmpty(p) => framed("Directory ", p, " is not empty"),
            BusinessErrorOf::SourceIsNotAFile(p) => framed("Source ", p, " is not a file"),
            BusinessErrorOf::OverwriteDirectoryWithFile(p, q) => framed2("Cannot overwrite directory ", p, " with file ", q),
            BusinessErrorOf::CopyDirectoryIntoFile(p, q) => framed2("Cannot copy directory ", p, " into file ", q),
            BusinessErrorOf::MergeNotAllowed(p, q) => {
                let s = framed2("Merge of ", p, " into ", q);
                prefixed(s.as_str(), " is not allowed")
            },
            BusinessErrorOf::OverwriteNotAllowed(p, q) => {
                let s = framed2("Overwrite of ", p, " into ", q);
                prefixed(s.as_str(), " is not allowed")
            },
            BusinessErrorOf::ParentDoesNotExists(p) => framed("Parent ", p, " does not exists"),
            BusinessErrorOf::ParentIsNotADirectory(p) => framed("Parent ", p, " is not a directory"),
            BusinessErrorOf::SourceDoesNotExists(p) => framed("Source ", p, " does not exists"),
            BusinessErrorOf::DoesNotExists(p) => framed("Path ", p, " does not exists"),
            BusinessErrorOf::Custom(s) => prefixed("Custom error ", s.as_str()),
        }
    }
}

/// The message of a command error.
pub open spec fn command_message(e: CommandErrorView) -> Seq<char> {
    match e {
        CommandErrorOf::Exit => "Exit program"@,
        CommandErrorOf::Operation(inner) => "container operation error: "@ + domain_message(inner),
        CommandErrorOf::Io(k) => "Input / output error : "@ + io_message_view(k),
        CommandErrorOf::Query(inner) => "container query error: "@ + query_message(inner),
        CommandErrorOf::Format => "Format error : an error occurred when formatting an argument"@,
        CommandErrorOf::ArgumentMissing(command, argument, usage) => command + " missing "@ + argument
            + " argument \n "@ + usage,
        CommandErrorOf::InvalidCommand => "Invalid command"@,
        CommandErrorOf::AlreadyExists(p) => "Path "@ + display_view(p) + " already exists"@,
        CommandErrorOf::IsNotADirectory(p) => display_view(p) + " is not a directory"@,
        CommandErrorOf::DoesNotExists(p) => display_view(p) + " does not exists"@,
        CommandErrorOf::CwdIsInside(p) => "current working directory is inside "@ + display_view(p),
        CommandErrorOf::DirectoryIntoAFile(p, q) => "Directory "@ + display_view(p) + " into a file "@
            + display_view(q),
        CommandErrorOf::CustomError(s) => "Custom error message "@ + s,
        CommandErrorOf::InvalidGuard(s) => "Invalid guard "@ + s,
    }
}

impl CommandErrorOf<FsPath, String> {
    /// The text that tells what went wrong.
    pub fn message(&self) -> (s: String)
        ensures
            s@ == command_message(self@),
    {
        match self {
            CommandErrorOf::Exit => "Exit program".to_owned(),
            CommandErrorOf::Operation(inner) => prefixed(
                "container operation error: ",
                inner.message().as_str(),
            ),
            CommandErrorOf::Io(k) => prefixed("Input / output error : ", io_message(*k).as_str()),
            CommandErrorOf::Query(inner) => prefixed("container query error: ", inner.message().as_str()),
            CommandErrorOf::Format => "Format error : an error occurred when formatting an argument".to_owned(),
            CommandErrorOf::ArgumentMissing(command, argument, usage) => {
                let head = prefixed(command.as_str(), " missing ");
                let middle = prefixed(head.as_str(), argument.as_str());
                let tail = prefixed(middle.as_str(), " argument \n ");
                prefixed(tail.as_str(), usage.as_str())
            },
            CommandErrorOf::InvalidCommand => "Invalid command".to_owned(),
            CommandErrorOf::AlreadyExists(p) => framed("Path ", p, " already exists"),
            CommandErrorOf::IsNotADirectory(p) => prefixed(p.display().as_str(), " is not a directory"),
            CommandErrorOf::DoesNotExists(p) => prefixed(p.display().as_str(), " does not exists"),
            CommandErrorOf::CwdIsInside(p) => prefixed(
                "current working directory is inside ",
                p.display().as_str(),
            ),
            CommandErrorOf::DirectoryIntoAFile(p, q) => framed2("Directory ", p, " into a file ", q),
            CommandErrorOf::CustomError(s) => prefixed("Custom error message ", s.as_str()),
            CommandErrorOf::InvalidGuard(s) => prefixed("Invalid guard ", s.as_str()),
        }
    }
}

/// The message of a shell error.
pub open spec fn shell_message(e: ShellErrorView) -> Seq<char> {
    match e {
        ShellErrorOf::Exit => "Exit program"@,
        ShellErrorOf::Operation(inner) => "container operation error: "@ + domain_message(inner),
        ShellErrorOf::Io(k) => "Input / output error : "@ + io_message_view(k),
        ShellErrorOf::Query(inner) => "container query error: "@ + query_message(inner),
        ShellErrorOf::Format => "Format error : an error occurred when formatting an argument"@,
        ShellErrorOf::Command(inner) => "Command error : "@ + command_message(inner),
    }
}

impl ShellErrorOf<FsPath, String> {
    /// The text that tells what went wrong.
    pub fn message(&self) -> (s: String)
        ensures
            s@ == shell_message(self@),
    {
        match self {
            ShellErrorOf::Exit => "Exit program".to_owned(),
            ShellErrorOf::Operation(inner) => prefixed(
                "container operation error: ",
                inner.message().as_str(),
            ),
            ShellErrorOf::Io(k) => prefixed("Input / output error : ", io_message(*k).as_str()),
            ShellErrorOf::Query(inner) => prefixed("container query error: ", inner.message().as_str()),
            ShellErrorOf::Format => "Format error : an error occurred when formatting an argument".to_owned(),
            ShellErrorOf::Command(inner) => prefixed("Command error : ", inner.message().as_str()),
        }
    }
}

} // verus!
