use drive_download::error::Error;
use std::path::PathBuf;

fn text(value: &str) -> String {
    value.to_string()
}

#[test]
fn every_failure_has_its_message() {
    let path = || PathBuf::from("/tmp/x");
    let cases = vec![
        (Error::Hub(text("no hub")), "no hub"),
        (Error::GetFile(text("e")), "Failed getting file: e"),
        (Error::DownloadFile(text("e")), "Failed to download file: e"),
        (Error::ExportFile(text("e")), "Failed to export file: e"),
        (Error::ListFiles(text("e")), "Failed to list files: e"),
        (Error::MissingFileName, "File does not have a name"),
        (
            Error::FileExists(path()),
            "File '/tmp/x' already exists, use --overwrite to overwrite it",
        ),
        (
            Error::IsDirectory(text("d")),
            "'d' is a directory, use --recursive to download directories",
        ),
        (
            Error::Md5Mismatch { expected: text("aa"), actual: text("bb") },
            "MD5 mismatch, expected: aa, actual: bb",
        ),
        (Error::CreateFile(text("e")), "Failed to create file: e"),
        (
            Error::CreateDirectory(path(), text("e")),
            "Failed to create directory '/tmp/x': e",
        ),
        (Error::CopyFile(text("e")), "Failed to copy file: e"),
        (Error::RenameFile(text("e")), "Failed to rename file: e"),
        (Error::ReadChunk(text("e")), "Failed read from stream: e"),
        (Error::WriteChunk(text("e")), "Failed write to file: e"),
        (
            Error::DestinationPathDoesNotExist(path()),
            "Destination path '/tmp/x' does not exist",
        ),
        (
            Error::DestinationPathNotADirectory(path()),
            "Destination path '/tmp/x' is not a directory",
        ),
        (
            Error::CanonicalizeDestinationPath(path(), text("e")),
            "Failed to canonicalize destination path '/tmp/x': e",
        ),
        (Error::MissingShortcutTarget, "Shortcut does not have a target"),
        (
            Error::IsShortcut(text("s")),
            "'s' is a shortcut, use --follow-shortcuts to download the file it points to",
        ),
        (
            Error::CreateSymlink(path(), text("e")),
            "Failed to create symlink '/tmp/x': e",
        ),
        (
            Error::StdoutNotValidDestination,
            "Stdout is not a valid destination for this combination of options",
        ),
    ];
    assert_eq!(cases.len(), 22);
    for (error, message) in cases {
        assert_eq!(error.message(), message);
    }
}
