use futurecommander::capability::Capability;
use futurecommander::command::{CommandErrorOf, ShellError, ShellErrorOf};
use futurecommander::errors::{
    DomainError, DomainErrorOf, InfrastructureErrorOf, IoErrorKind, OperationErrorOf, QueryError, QueryErrorOf,
    RealErrorOf, RepresentationErrorOf, VirtualErrorOf,
};
use futurecommander::path::FsPath;

fn assert_two_errors_equals(left: &DomainError, right: &DomainError) {
    assert_eq!(left.message(), right.message())
}

#[test]
fn error_query_error() {
    let query_emock: QueryError = QueryErrorOf::IsNotADirectory(FsPath::new("/TEST"));
    assert_two_errors_equals(
        &DomainError::from(query_emock),
        &DomainErrorOf::Query(QueryErrorOf::IsNotADirectory(FsPath::new("/TEST"))),
    );
}

#[test]
fn error_infrastucture_error() {
    let query_emock: QueryError = QueryErrorOf::IsNotADirectory(FsPath::new("/TEST"));
    assert_two_errors_equals(
        &DomainError::from(query_emock),
        &DomainErrorOf::Query(QueryErrorOf::IsNotADirectory(FsPath::new("/TEST"))),
    );
}

#[test]
fn domain_messages_name_their_paths() {
    let a = FsPath::new("/A");
    let b = FsPath::new("/A/B");
    assert_eq!(DomainErrorOf::CopyIntoItSelf(a.clone(), b.clone()).message(), "Cannot copy /A into itself /A/B");
    assert_eq!(DomainErrorOf::MergeNotAllowed(b.clone()).message(), "Merge into /A/B is not allowed");
    assert_eq!(
        DomainErrorOf::MergeFileWithDirectory(a.clone(), b.clone()).message(),
        "Cannot merge file /A with directory /A/B is not allowed"
    );
    assert_eq!(DomainErrorOf::<FsPath>::UserCancelled.message(), "User cancelled operation");
    assert_eq!(DomainErrorOf::<FsPath>::Custom(String::from("x")).message(), "Custom error x");
    assert_eq!(
        DomainErrorOf::Infrastructure(InfrastructureErrorOf::DirectoryIsNotEmpty(a.clone())).message(),
        "Infrastructure error Directory /A is not empty"
    );
    assert_eq!(
        DomainErrorOf::Query(QueryErrorOf::Representation(RepresentationErrorOf::IsRelativePath(FsPath::new("r/s"))))
            .message(),
        "Query error Representation error Path r/s is relative"
    );
    assert_eq!(DomainErrorOf::<FsPath>::IoError(IoErrorKind::NotFound).message(), "I/O error entity not found");
}

#[test]
fn layer_messages() {
    let a = FsPath::new("/A");
    let b = FsPath::new("/B");
    assert_eq!(
        OperationErrorOf::OverwriteNotAllowed(a.clone(), b.clone()).message(),
        "Overwrite of /A into /B is not allowed"
    );
    assert_eq!(
        VirtualErrorOf::OverwriteNotAllowed(a.clone(), b.clone()).message(),
        "Overwrite of /A into /B is not allowrd"
    );
    assert_eq!(RealErrorOf::SourceIsNotAFile(a.clone()).message(), "Source /A is not a file");
    assert_eq!(
        InfrastructureErrorOf::ParentIsNotADirectory(b.clone()).message(),
        "Parent path /B is not a directory"
    );
    assert_eq!(Capability::Recursive.name(), "recursive");
}

#[test]
fn command_messages() {
    let e: CommandErrorOf<FsPath, String> =
        CommandErrorOf::ArgumentMissing(String::from("generic"), String::from("path"), String::from("ls <path>"));
    assert_eq!(e.message(), "generic missing path argument \n ls <path>");
    let e: CommandErrorOf<FsPath, String> = CommandErrorOf::DoesNotExists(FsPath::new("/X"));
    assert_eq!(e.message(), "/X does not exists");
    let e: CommandErrorOf<FsPath, String> = CommandErrorOf::from(DomainErrorOf::RecursiveNotAllowed(FsPath::new("/X")));
    assert_eq!(e.message(), "container operation error: Delete recursively /X is not allowed");
}

#[test]
fn shell_messages_wrap_command_messages() {
    let e: CommandErrorOf<FsPath, String> = CommandErrorOf::InvalidGuard(String::from("nope"));
    assert_eq!(ShellError::from(e).message(), "Command error : Invalid guard nope");
    let exit: ShellError = ShellErrorOf::Exit;
    assert_eq!(exit.message(), "Exit program");
}
