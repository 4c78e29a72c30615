//! What can go wrong with a download, and how it is reported.

use crate::paths;
use crate::text;
use std::path::PathBuf;
use vstd::prelude::*;

verus! {

/// Why a download failed. What another layer reports is kept as the text that it shows.
#[derive(Debug)]
pub enum Error {
    /// No connection to the service; with what the connector reports.
    Hub(String),
    /// The service did not describe the file; with its report.
    GetFile(String),
    /// The service did not hand out the contents of the file; with its report.
    DownloadFile(String),
    /// The service did not export the file; with its report.
    ExportFile(String),
    /// The service did not list the folder; with its report.
    ListFiles(String),
    /// The file has no name.
    MissingFileName,
    /// There is a file at the destination already.
    FileExists(PathBuf),
    /// The file of this name is a directory, and directories were not asked for.
    IsDirectory(String),
    /// What arrived is not what was sent.
    Md5Mismatch { expected: String, actual: String },
    /// The temporary file could not be created; with the system's report.
    CreateFile(String),
    /// The directory could not be created; with the system's report.
    CreateDirectory(PathBuf, String),
    /// The file could not be copied; with the system's report.
    CopyFile(String),
    /// The temporary file could not be given its final name; with the system's report.
    RenameFile(String),
    /// The contents broke off; with the report of the transport.
    ReadChunk(String),
    /// The contents could not be written; with the system's report.
    WriteChunk(String),
    /// There is nothing at the destination path.
    DestinationPathDoesNotExist(PathBuf),
    /// What is at the destination path is not a directory.
    DestinationPathNotADirectory(PathBuf),
    /// The destination path could not be resolved; with the system's report.
    CanonicalizeDestinationPath(PathBuf, String),
    /// The shortcut leads nowhere.
    MissingShortcutTarget,
    /// The file of this name is a shortcut, and following shortcuts was not asked for.
    IsShortcut(String),
    /// The symbolic link could not be put in place; with the system's report.
    CreateSymlink(PathBuf, String),
    /// A directory cannot be written to standard output.
    StdoutNotValidDestination,
}

/// What an [`Error`] holds.
pub enum ErrorView {
    Hub(Seq<char>),
    GetFile(Seq<char>),
    DownloadFile(Seq<char>),
    ExportFile(Seq<char>),
    ListFiles(Seq<char>),
    MissingFileName,
    FileExists(Seq<u8>),
    IsDirectory(Seq<char>),
    Md5Mismatch { expected: Seq<char>, actual: Seq<char> },
    CreateFile(Seq<char>),
    CreateDirectory(Seq<u8>, Seq<char>),
    CopyFile(Seq<char>),
    RenameFile(Seq<char>),
    ReadChunk(Seq<char>),
    WriteChunk(Seq<char>),
    DestinationPathDoesNotExist(Seq<u8>),
    DestinationPathNotADirectory(Seq<u8>),
    CanonicalizeDestinationPath(Seq<u8>, Seq<char>),
    MissingShortcutTarget,
    IsShortcut(Seq<char>),
    CreateSymlink(Seq<u8>, Seq<char>),
    StdoutNotValidDestination,
}

impl View for Error {
    type V = ErrorView;

    open spec fn view(&self) -> ErrorView {
        match *self {
            Error::Hub(report) => ErrorView::Hub(report@),
            Error::GetFile(report) => ErrorView::GetFile(report@),
            Error::DownloadFile(report) => ErrorView::DownloadFile(report@),
            Error::ExportFile(report) => ErrorView::ExportFile(report@),
            Error::ListFiles(report) => ErrorView::ListFiles(report@),
            Error::MissingFileName => ErrorView::MissingFileName,
            Error::FileExists(path) => ErrorView::FileExists(paths::path_bytes(path)),
            Error::IsDirectory(name) => ErrorView::IsDirectory(name@),
            Error::Md5Mismatch { expected, actual } => ErrorView::Md5Mismatch {
                expected: expected@,
                actual: actual@,
            },
            Error::CreateFile(report) => ErrorView::CreateFile(report@),
            Error::CreateDirectory(path, report) => ErrorView::CreateDirectory(
                paths::path_bytes(path),
                report@,
            ),
            Error::CopyFile(report) => ErrorView::CopyFile(report@),
            Error::RenameFile(report) => ErrorView::RenameFile(report@),
            Error::ReadChunk(report) => ErrorView::ReadChunk(report@),
            Error::WriteChunk(report) => ErrorView::WriteChunk(report@),
            Error::DestinationPathDoesNotExist(path) => ErrorView::DestinationPathDoesNotExist(
                paths::path_bytes(path),
            ),
            Error::DestinationPathNotADirectory(path) => ErrorView::DestinationPathNotADirectory(
                paths::path_bytes(path),
            ),
            Error::CanonicalizeDestinationPath(path, report) => ErrorView::CanonicalizeDestinationPath(
                paths::path_bytes(path),
                report@,
            ),
            Error::MissingShortcutTarget => ErrorView::MissingShortcutTarget,
            Error::IsShortcut(name) => ErrorView::IsShortcut(name@),
            Error::CreateSymlink(path, report) => ErrorView::CreateSymlink(
                paths::path_bytes(path),
                report@,
            ),
            Error::StdoutNotValidDestination => ErrorView::StdoutNotValidDestination,
        }
    }
}

/// The message for a failure.
pub open spec fn error_text(error: ErrorView) -> Seq<char> {
    match error {
        ErrorView::Hub(report) => report,
        ErrorView::GetFile(report) => "Failed getting file: "@ + report,
        ErrorView::DownloadFile(report) => "Failed to download file: "@ + report,
        ErrorView::ExportFile(report) => "Failed to export file: "@ + report,
        ErrorView::ListFiles(report) => "Failed to list files: "@ + report,
        ErrorView::MissingFileName => "File does not have a name"@,
        ErrorView::FileExists(path) => {
            "File '"@ + paths::shown_path(path)
                + "' already exists, use --overwrite to overwrite it"@
        },
        ErrorView::IsDirectory(name) => {
            "'"@ + name + "' is a directory, use --recursive to download directories"@
        },
        ErrorView::Md5Mismatch { expected, actual } => {
            "MD5 mismatch, expected: "@ + expected + ", actual: "@ + actual
        },
        ErrorView::CreateFile(report) => "Failed to create file: "@ + report,
        ErrorView::CreateDirectory(path, report) => {
            "Failed to create directory '"@ + paths::shown_path(path) + "': "@ + report
        },
        ErrorView::CopyFile(report) => "Failed to copy file: "@ + report,
        ErrorView::RenameFile(report) => "Failed to rename file: "@ + report,
        ErrorView::ReadChunk(report) => "Failed read from stream: "@ + report,
        ErrorView::WriteChunk(report) => "Failed write to file: "@ + report,
        ErrorView::DestinationPathDoesNotExist(path) => {
            "Destination path '"@ + paths::shown_path(path) + "' does not exist"@
        },
        ErrorView::DestinationPathNotADirectory(path) => {
            "Destination path '"@ + paths::shown_path(path) + "' is not a directory"@
        },
        ErrorView::CanonicalizeDestinationPath(path, report) => {
            "Failed to canonicalize destination path '"@ + paths::shown_path(path) + "': "@
                + report
        },
        ErrorView::MissingShortcutTarget => "Shortcut does not have a target"@,
        ErrorView::IsShortcut(name) => {
            "'"@ + name
                + "' is a shortcut, use --follow-shortcuts to download the file it points to"@
        },
        ErrorView::CreateSymlink(path, report) => {
            "Failed to create symlink '"@ + paths::shown_path(path) + "': "@ + report
        },
        ErrorView::StdoutNotValidDestination => {
            "Stdout is not a valid destination for this combination of options"@
        },
    }
}

impl Error {
    /// The message for this failure.
    pub fn message(&self) -> (message: String)
        ensures
            message@ == error_text(self@),
    {
        match self {
            Error::Hub(report) => report.clone(),
            Error::GetFile(report) => text::concat2("Failed getting file: ", report),
            Error::DownloadFile(report) => text::concat2("Failed to download file: ", report),
            Error::ExportFile(report) => text::concat2("Failed to export file: ", report),
            Error::ListFiles(report) => text::concat2("Failed to list files: ", report),
            Error::MissingFileName => "File does not have a name".to_owned(),
            Error::FileExists(path) => text::concat3(
                "File '",
                &paths::display_path(path),
                "' already exists, use --overwrite to overwrite it",
            ),
            Error::IsDirectory(name) => text::concat3(
                "'",
                name,
                "' is a directory, use --recursive to download directories",
            ),
            Error::Md5Mismatch { expected, actual } => text::concat4(
                "MD5 mismatch, expected: ",
                expected,
                ", actual: ",
                actual,
            ),
            Error::CreateFile(report) => text::concat2("Failed to create file: ", report),
            Error::CreateDirectory(path, report) => text::concat4(
                "Failed to create directory '",
                &paths::display_path(path),
                "': ",
                report,
            ),
            Error::CopyFile(report) => text::concat2("Failed to copy file: ", report),
            Error::RenameFile(report) => text::concat2("Failed to rename file: ", report),
            Error::ReadChunk(report) => text::concat2("Failed read from stream: ", report),
            Error::WriteChunk(report) => text::concat2("Failed write to file: ", report),
            Error::DestinationPathDoesNotExist(path) => text::concat3(
                "Destination path '",
                &paths::display_path(path),
                "' does not exist",
            ),
            Error::DestinationPathNotADirectory(path) => text::concat3(
                "Destination path '",
                &paths::display_path(path),
                "' is not a directory",
            ),
            Error::CanonicalizeDestinationPath(path, report) => text::concat4(
                "Failed to canonicalize destination path '",
                &paths::display_path(path),
                "': ",
                report,
            ),
            Error::MissingShortcutTarget => "Shortcut does not have a target".to_owned(),
            Error::IsShortcut(name) => text::concat3(
                "'",
                name,
                "' is a shortcut, use --follow-shortcuts to download the file it points to",
            ),
            Error::CreateSymlink(path, report) => text::concat4(
                "Failed to create symlink '",
                &paths::display_path(path),
                "': ",
                report,
            ),
            Error::StdoutNotValidDestination => {
                "Stdout is not a valid destination for this combination of options".to_owned()
            },
        }
    }
}

/// What another layer reports is told whole, at the end of a message that says what was being
/// done; the report of the connector is all of its message.
pub proof fn law_reports_are_told_whole(report: Seq<char>)
    ensures
        error_text(ErrorView::Hub(report)) == report,
        error_text(ErrorView::GetFile(report)) == "Failed getting file: "@ + report,
        error_text(ErrorView::DownloadFile(report)) == "Failed to download file: "@ + report,
        error_text(ErrorView::ExportFile(report)) == "Failed to export file: "@ + report,
        error_text(ErrorView::ListFiles(report)) == "Failed to list files: "@ + report,
        error_text(ErrorView::CreateFile(report)) == "Failed to create file: "@ + report,
        error_text(ErrorView::CopyFile(report)) == "Failed to copy file: "@ + report,
        error_text(ErrorView::RenameFile(report)) == "Failed to rename file: "@ + report,
        error_text(ErrorView::ReadChunk(report)) == "Failed read from stream: "@ + report,
        error_text(ErrorView::WriteChunk(report)) == "Failed write to file: "@ + report,
{
}

/// The messages about a path show the path, between quotes, and then the system's report where
/// there is one.
pub proof fn law_messages_show_the_path(path: Seq<u8>, report: Seq<char>)
    ensures
        ({
            let shown = "'"@ + paths::shown_path(path) + "'"@;
            &&& error_text(ErrorView::FileExists(path)) == "File "@ + shown
                + " already exists, use --overwrite to overwrite it"@
            &&& error_text(ErrorView::DestinationPathDoesNotExist(path)) == "Destination path "@
                + shown + " does not exist"@
            &&& error_text(ErrorView::DestinationPathNotADirectory(path)) == "Destination path "@
                + shown + " is not a directory"@
            &&& error_text(ErrorView::CanonicalizeDestinationPath(path, report))
                == "Failed to canonicalize destination path "@ + shown + ": "@ + report
            &&& error_text(ErrorView::CreateDirectory(path, report))
                == "Failed to create directory "@ + shown + ": "@ + report
            &&& error_text(ErrorView::CreateSymlink(path, report)) == "Failed to create symlink "@
                + shown + ": "@ + report
        }),
{
    let shown = "'"@ + paths::shown_path(path) + "'"@;
    reveal_strlit("'");
    reveal_strlit(": ");
    reveal_strlit("': ");
    reveal_strlit("File ");
    reveal_strlit("File '");
    reveal_strlit(" already exists, use --overwrite to overwrite it");
    reveal_strlit("' already exists, use --overwrite to overwrite it");
    reveal_strlit("Destination path ");
    reveal_strlit("Destination path '");
    reveal_strlit(" does not exist");
    reveal_strlit("' does not exist");
    reveal_strlit(" is not a directory");
    reveal_strlit("' is not a directory");
    reveal_strlit("Failed to canonicalize destination path ");
    reveal_strlit("Failed to canonicalize destination path '");
    reveal_strlit("Failed to create directory ");
    reveal_strlit("Failed to create directory '");
    reveal_strlit("Failed to create symlink ");
    reveal_strlit("Failed to create symlink '");
    assert(error_text(ErrorView::FileExists(path)) =~= "File "@ + shown
        + " already exists, use --overwrite to overwrite it"@);
    assert(error_text(ErrorView::DestinationPathDoesNotExist(path)) =~= "Destination path "@
        + shown + " does not exist"@);
    assert(error_text(ErrorView::DestinationPathNotADirectory(path)) =~= "Destination path "@
        + shown + " is not a directory"@);
    assert(error_text(ErrorView::CanonicalizeDestinationPath(path, report))
        =~= "Failed to canonicalize destination path "@ + shown + ": "@ + report);
    assert(error_text(ErrorView::CreateDirectory(path, report))
        =~= "Failed to create directory "@ + shown + ": "@ + report);
    assert(error_text(ErrorView::CreateSymlink(path, report)) =~= "Failed to create symlink "@
        + shown + ": "@ + report);
}

/// The messages about a name tell the name first, and the option that helps; the one about
/// checksums tells the expected one and then the actual one. The others tell nothing but what is
/// wrong.
pub proof fn law_messages_tell_names_and_checksums(
    name: Seq<char>,
    expected: Seq<char>,
    actual: Seq<char>,
)
    ensures
        error_text(ErrorView::IsDirectory(name)) == "'"@ + name
            + "' is a directory, use --recursive to download directories"@,
        error_text(ErrorView::IsShortcut(name)) == "'"@ + name
            + "' is a shortcut, use --follow-shortcuts to download the file it points to"@,
        error_text(ErrorView::Md5Mismatch { expected, actual }) == "MD5 mismatch, expected: "@
            + expected + ", actual: "@ + actual,
        error_text(ErrorView::MissingFileName) == "File does not have a name"@,
        error_text(ErrorView::MissingShortcutTarget) == "Shortcut does not have a target"@,
        error_text(ErrorView::StdoutNotValidDestination)
            == "Stdout is not a valid destination for this combination of options"@,
{
}

/// A failure is seen as what it holds.
pub proof fn law_failure_is_seen_as_it_is(error: Error)
    ensures
        error matches Error::Hub(report) ==> error@ == ErrorView::Hub(report@),
        error matches Error::GetFile(report) ==> error@ == ErrorView::GetFile(report@),
        error matches Error::DownloadFile(report) ==> error@ == ErrorView::DownloadFile(report@),
        error matches Error::ExportFile(report) ==> error@ == ErrorView::ExportFile(report@),
        error matches Error::ListFiles(report) ==> error@ == ErrorView::ListFiles(report@),
        error matches Error::CreateFile(report) ==> error@ == ErrorView::CreateFile(report@),
        error matches Error::CopyFile(report) ==> error@ == ErrorView::CopyFile(report@),
        error matches Error::RenameFile(report) ==> error@ == ErrorView::RenameFile(report@),
        error matches Error::ReadChunk(report) ==> error@ == ErrorView::ReadChunk(report@),
        error matches Error::WriteChunk(report) ==> error@ == ErrorView::WriteChunk(report@),
        error matches Error::IsDirectory(name) ==> error@ == ErrorView::IsDirectory(name@),
        error matches Error::IsShortcut(name) ==> error@ == ErrorView::IsShortcut(name@),
        error matches Error::FileExists(path) ==> error@ == ErrorView::FileExists(
            paths::path_bytes(path),
        ),
        error matches Error::DestinationPathDoesNotExist(path) ==> error@
            == ErrorView::DestinationPathDoesNotExist(paths::path_bytes(path)),
        error matches Error::DestinationPathNotADirectory(path) ==> error@
            == ErrorView::DestinationPathNotADirectory(paths::path_bytes(path)),
        error matches Error::CreateDirectory(path, report) ==> error@ == ErrorView::CreateDirectory(
            paths::path_bytes(path),
            report@,
        ),
        error matches Error::CanonicalizeDestinationPath(path, report) ==> error@
            == ErrorView::CanonicalizeDestinationPath(paths::path_bytes(path), report@),
        error matches Error::CreateSymlink(path, report) ==> error@ == ErrorView::CreateSymlink(
            paths::path_bytes(path),
            report@,
        ),
        error matches Error::Md5Mismatch { expected, actual } ==> error@ == (
        ErrorView::Md5Mismatch { expected: expected@, actual: actual@ }),
        error is MissingFileName ==> error@ == ErrorView::MissingFileName,
        error is MissingShortcutTarget ==> error@ == ErrorView::MissingShortcutTarget,
        error is StdoutNotValidDestination ==> error@ == ErrorView::StdoutNotValidDestination,
{
}

} // verus!
