//! What was asked for, and whether a file can be downloaded that way.

use crate::drive;
use crate::drive::DriveFile;
use crate::error::{Error, ErrorView};
use crate::paths;
use std::path::PathBuf;
use vstd::prelude::*;
use vstd::utf8::*;

verus! {

/// What to download, and how.
pub struct Config {
    /// The id of the file.
    pub file_id: String,
    /// What to do where the file is there already.
    pub existing_file_action: ExistingFileAction,
    /// Whether to download what a shortcut leads to.
    pub follow_shortcuts: bool,
    /// Whether to download directories.
    pub download_directories: bool,
    /// Where to put the file.
    pub destination: Destination,
}

/// Where a download goes.
#[derive(Debug, Clone, Eq, PartialEq)]
pub enum Destination {
    /// The current directory.
    CurrentDir,
    /// This directory.
    Path(PathBuf),
    /// Standard output.
    Stdout,
}

/// What to do where the file is there already.
#[derive(Debug, Copy, Clone, Eq, PartialEq, Structural)]
pub enum ExistingFileAction {
    /// Leave it and fail.
    Abort,
    /// Replace it.
    Overwrite,
}

/// What the file system says of the directory that a download goes to.
pub struct DestinationProbe {
    /// Whether there is anything at its path.
    pub exists: bool,
    /// Whether that is a directory.
    pub is_dir: bool,
    /// Its canonical path, or the system's report.
    pub canonical: Result<PathBuf, String>,
}

/// The bytes of the directory that a download goes to, if it goes to one.
pub open spec fn destination_dir_bytes(destination: Destination) -> Option<Seq<u8>> {
    match destination {
        Destination::CurrentDir => Some(encode_utf8("."@)),
        Destination::Path(path) => Some(paths::path_bytes(path)),
        Destination::Stdout => None,
    }
}

/// The bytes of a path, or the failure in its place.
pub open spec fn path_outcome(result: Result<PathBuf, Error>) -> Result<Seq<u8>, ErrorView> {
    match result {
        Ok(path) => Ok(paths::path_bytes(path)),
        Err(error) => Err(error@),
    }
}

/// The failure, if any, of something that gives nothing else.
pub open spec fn unit_outcome(result: Result<(), Error>) -> Result<(), ErrorView> {
    match result {
        Ok(_) => Ok(()),
        Err(error) => Err(error@),
    }
}

/// The canonical path that the file system gave for `dir`, or the failure to give one.
pub open spec fn canonical_outcome(dir: Seq<u8>, probe: DestinationProbe) -> Result<
    Seq<u8>,
    ErrorView,
> {
    match probe.canonical {
        Ok(path) => Ok(paths::path_bytes(path)),
        Err(report) => Err(ErrorView::CanonicalizeDestinationPath(dir, report@)),
    }
}

/// The directory that a download goes to, as a canonical path: the current directory as the
/// file system resolves it, or a given path if it is there and is a directory.
pub open spec fn destination_root(destination: Destination, probe: DestinationProbe) -> Result<
    Seq<u8>,
    ErrorView,
> {
    match destination {
        Destination::CurrentDir => canonical_outcome(encode_utf8("."@), probe),
        Destination::Path(path) => {
            if !probe.exists {
                Err(ErrorView::DestinationPathDoesNotExist(paths::path_bytes(path)))
            } else if !probe.is_dir {
                Err(ErrorView::DestinationPathNotADirectory(paths::path_bytes(path)))
            } else {
                canonical_outcome(paths::path_bytes(path), probe)
            }
        },
        Destination::Stdout => Err(ErrorView::StdoutNotValidDestination),
    }
}

impl Config {
    /// The directory that the download goes to, if it goes to one.
    pub fn destination_dir(&self) -> (dir: Option<PathBuf>)
        ensures
            dir is Some == destination_dir_bytes(self.destination) is Some,
            dir matches Some(path) ==> Some(paths::path_bytes(path)) == destination_dir_bytes(
                self.destination,
            ),
    {
        match &self.destination {
            Destination::CurrentDir => Some(paths::path_from(".")),
            Destination::Path(path) => Some(path.clone()),
            Destination::Stdout => None,
        }
    }

    /// The canonical path of the directory that the download goes to. `probe` is what the file
    /// system says of [`Config::destination_dir`].
    pub fn canonical_destination_root(&self, probe: &DestinationProbe) -> (result: Result<
        PathBuf,
        Error,
    >)
        ensures
            path_outcome(result) == destination_root(self.destination, *probe),
    {
        match &self.destination {
            Destination::CurrentDir => match &probe.canonical {
                Ok(path) => Ok(path.clone()),
                Err(report) => Err(
                    Error::CanonicalizeDestinationPath(paths::path_from("."), report.clone()),
                ),
            },
            Destination::Path(dir) => if !probe.exists {
                Err(Error::DestinationPathDoesNotExist(dir.clone()))
            } else if !probe.is_dir {
                Err(Error::DestinationPathNotADirectory(dir.clone()))
            } else {
                match &probe.canonical {
                    Ok(path) => Ok(path.clone()),
                    Err(report) => Err(
                        Error::CanonicalizeDestinationPath(dir.clone(), report.clone()),
                    ),
                }
            },
            Destination::Stdout => Err(Error::StdoutNotValidDestination),
        }
    }

    /// The same for the file that a shortcut leads to, whose id is `target_id`.
    pub fn following(self, target_id: String) -> (config: Config)
        ensures
            config == following(self, target_id),
    {
        Config { file_id: target_id, ..self }
    }
}

/// What was asked for, but of the file that a shortcut leads to.
pub open spec fn following(config: Config, target_id: String) -> Config {
    Config { file_id: target_id, ..config }
}

/// A canonical path is its own root: a download that goes to the root of another one has that
/// same root, as long as the path is there, is a directory and is its own canonical path.
pub proof fn law_canonical_root_is_its_own(
    destination: Destination,
    probe: DestinationProbe,
    root: PathBuf,
    again: DestinationProbe,
)
    requires
        destination_root(destination, probe) == Ok::<Seq<u8>, ErrorView>(paths::path_bytes(root)),
        again.exists,
        again.is_dir,
        again.canonical matches Ok(path) && paths::path_bytes(path) == paths::path_bytes(root),
    ensures
        destination_root(Destination::Path(root), again) == destination_root(destination, probe),
{
}

/// The bytes of the path that a file called `name` would have at the destination.
pub open spec fn destination_file_bytes(destination: Destination, name: Seq<char>) -> Option<
    Seq<u8>,
> {
    match destination_dir_bytes(destination) {
        Some(dir) => Some(paths::joined(dir, encode_utf8(name))),
        None => None,
    }
}

/// The path that a file called `name` would have at the destination, if it goes to a directory.
pub fn destination_file_path(config: &Config, name: &str) -> (path: Option<PathBuf>)
    ensures
        path is Some == destination_file_bytes(config.destination, name@) is Some,
        path matches Some(file) ==> Some(paths::path_bytes(file)) == destination_file_bytes(
            config.destination,
            name@,
        ),
{
    match config.destination_dir() {
        Some(dir) => Some(paths::join_name(&dir, name)),
        None => None,
    }
}

/// The failure, if any, where `exists` tells whether the file is at the destination already.
pub open spec fn file_exists_check(file: DriveFile, config: Config, exists: bool) -> Result<
    (),
    ErrorView,
> {
    match file.name {
        None => Err(ErrorView::MissingFileName),
        Some(name) => match destination_file_bytes(config.destination, name@) {
            Some(path) if exists && config.existing_file_action
                == ExistingFileAction::Abort => Err(ErrorView::FileExists(path)),
            _ => Ok(()),
        },
    }
}

/// Fails where the file is at the destination already and must not be replaced, or where it has
/// no name. `exists` tells whether there is anything at the path that
/// [`destination_file_path`] gives; it does not matter where that gives none.
pub fn err_if_file_exists(file: &DriveFile, config: &Config, exists: bool) -> (result: Result<
    (),
    Error,
>)
    ensures
        unit_outcome(result) == file_exists_check(*file, *config, exists),
{
    match &file.name {
        None => Err(Error::MissingFileName),
        Some(name) => match destination_file_path(config, name) {
            Some(path) => if exists && config.existing_file_action == ExistingFileAction::Abort {
                Err(Error::FileExists(path))
            } else {
                Ok(())
            },
            None => Ok(()),
        },
    }
}

/// The failure, if any, of asking for a directory.
pub open spec fn directory_check(file: DriveFile, config: Config) -> Result<(), ErrorView> {
    if file.is_directory && !config.download_directories {
        Err(ErrorView::IsDirectory(drive::text_or(file.name, Seq::empty())))
    } else {
        Ok(())
    }
}

/// Fails where the file is a directory and directories were not asked for.
pub fn err_if_directory(file: &DriveFile, config: &Config) -> (result: Result<(), Error>)
    ensures
        unit_outcome(result) == directory_check(*file, *config),
{
    if file.is_directory && !config.download_directories {
        Err(Error::IsDirectory(name_or_empty(file)))
    } else {
        Ok(())
    }
}

/// The failure, if any, of asking for a shortcut.
pub open spec fn shortcut_check(file: DriveFile, config: Config) -> Result<(), ErrorView> {
    if file.is_shortcut && !config.follow_shortcuts {
        Err(ErrorView::IsShortcut(drive::text_or(file.name, Seq::empty())))
    } else {
        Ok(())
    }
}

/// Fails where the file is a shortcut and following shortcuts was not asked for.
pub fn err_if_shortcut(file: &DriveFile, config: &Config) -> (result: Result<(), Error>)
    ensures
        unit_outcome(result) == shortcut_check(*file, *config),
{
    if file.is_shortcut && !config.follow_shortcuts {
        Err(Error::IsShortcut(name_or_empty(file)))
    } else {
        Ok(())
    }
}

/// The name of the file, empty where it has none.
fn name_or_empty(file: &DriveFile) -> (name: String)
    ensures
        name@ == drive::text_or(file.name, Seq::empty()),
{
    match &file.name {
        Some(name) => name.clone(),
        None => String::new(),
    }
}

/// Fails where a shortcut has no target.
pub fn err_if_shortcut_target_is_missing(target_id: &Option<String>) -> (result: Result<(), Error>)
    ensures
        unit_outcome(result) == (match *target_id {
            Some(_) => Ok::<(), ErrorView>(()),
            None => Err::<(), ErrorView>(ErrorView::MissingShortcutTarget),
        }),
{
    if target_id.is_none() {
        Err(Error::MissingShortcutTarget)
    } else {
        Ok(())
    }
}

/// What a download comes down to.
pub enum DownloadPlan {
    /// Download the file with this id instead.
    FollowShortcut(String),
    /// Download a directory with all that is in it.
    Directory,
    /// Download one file.
    Regular,
}

/// What a [`DownloadPlan`] holds.
pub enum DownloadPlanView {
    FollowShortcut(Seq<char>),
    Directory,
    Regular,
}

impl View for DownloadPlan {
    type V = DownloadPlanView;

    open spec fn view(&self) -> DownloadPlanView {
        match *self {
            DownloadPlan::FollowShortcut(id) => DownloadPlanView::FollowShortcut(id@),
            DownloadPlan::Directory => DownloadPlanView::Directory,
            DownloadPlan::Regular => DownloadPlanView::Regular,
        }
    }
}

/// The id of the file that a shortcut leads to.
pub open spec fn shortcut_target(file: DriveFile) -> Option<Seq<char>> {
    match file.shortcut_details {
        Some(details) => drive::text_of(details.target_id),
        None => None,
    }
}

/// What the download of `file` comes down to, or the first of the checks that fails.
pub open spec fn planned(file: DriveFile, config: Config, exists: bool) -> Result<
    DownloadPlanView,
    ErrorView,
> {
    match (
        file_exists_check(file, config, exists),
        directory_check(file, config),
        shortcut_check(file, config),
    ) {
        (Err(error), _, _) => Err(error),
        (_, Err(error), _) => Err(error),
        (_, _, Err(error)) => Err(error),
        _ => if file.is_shortcut {
            match shortcut_target(file) {
                Some(id) => Ok(DownloadPlanView::FollowShortcut(id)),
                None => Err(ErrorView::MissingShortcutTarget),
            }
        } else if file.is_directory {
            Ok(DownloadPlanView::Directory)
        } else {
            Ok(DownloadPlanView::Regular)
        },
    }
}

/// Decides what the download of `file` comes down to. `exists` is as for
/// [`err_if_file_exists`].
pub fn plan_download(file: &DriveFile, config: &Config, exists: bool) -> (result: Result<
    DownloadPlan,
    Error,
>)
    ensures
        (match result {
            Ok(plan) => Ok::<DownloadPlanView, ErrorView>(plan@),
            Err(error) => Err::<DownloadPlanView, ErrorView>(error@),
        }) == planned(*file, *config, exists),
{
    match err_if_file_exists(file, config, exists) {
        Err(error) => return Err(error),
        Ok(_) => {},
    }
    match err_if_directory(file, config) {
        Err(error) => return Err(error),
        Ok(_) => {},
    }
    match err_if_shortcut(file, config) {
        Err(error) => return Err(error),
        Ok(_) => {},
    }
    if file.is_shortcut {
        let target_id = match &file.shortcut_details {
            Some(details) => drive::copy_text(&details.target_id),
            None => None,
        };
        match err_if_shortcut_target_is_missing(&target_id) {
            Err(error) => return Err(error),
            Ok(_) => {},
        }
        Ok(DownloadPlan::FollowShortcut(target_id.unwrap()))
    } else if file.is_directory {
        Ok(DownloadPlan::Directory)
    } else {
        Ok(DownloadPlan::Regular)
    }
}

/// A file that is there already is not replaced unless that was asked for.
pub proof fn law_existing_file_is_not_replaced(file: DriveFile, config: Config)
    requires
        config.existing_file_action == ExistingFileAction::Abort,
        config.destination !is Stdout,
    ensures
        planned(file, config, true) is Err,
        file.name is Some ==> planned(file, config, true)->Err_0 is FileExists,
{
}

/// Directories are downloaded, and shortcuts followed, only where that was asked for.
pub proof fn law_only_what_was_asked_for(file: DriveFile, config: Config, exists: bool)
    ensures
        planned(file, config, exists) == Ok::<DownloadPlanView, ErrorView>(
            DownloadPlanView::Directory,
        ) ==> file.is_directory && config.download_directories,
        planned(file, config, exists) matches Ok(DownloadPlanView::FollowShortcut(_))
            ==> file.is_shortcut && config.follow_shortcuts,
{
}

/// A shortcut is followed to its target: one that passes the checks leads to the file that it
/// names, and one that names none is an error.
pub proof fn law_shortcut_leads_to_its_target(file: DriveFile, config: Config, exists: bool)
    requires
        file.is_shortcut,
        config.follow_shortcuts,
        file_exists_check(file, config, exists) is Ok,
        directory_check(file, config) is Ok,
    ensures
        planned(file, config, exists) == (match shortcut_target(file) {
            Some(id) => Ok::<DownloadPlanView, ErrorView>(DownloadPlanView::FollowShortcut(id)),
            None => Err::<DownloadPlanView, ErrorView>(ErrorView::MissingShortcutTarget),
        }),
{
}

/// Where a shortcut is followed the target takes its place and all else stays: the target is
/// asked for, and whatever it is, it is checked, and goes, as if it had been asked for at once.
pub proof fn law_following_changes_only_the_file(
    config: Config,
    target_id: String,
    file: DriveFile,
    exists: bool,
    probe: DestinationProbe,
)
    ensures
        ({
            let next = following(config, target_id);
            &&& next.file_id == target_id
            &&& next.existing_file_action == config.existing_file_action
            &&& next.follow_shortcuts == config.follow_shortcuts
            &&& next.download_directories == config.download_directories
            &&& next.destination == config.destination
            &&& planned(file, next, exists) == planned(file, config, exists)
            &&& regular_target_of(file, next, probe) == regular_target_of(file, config, probe)
            &&& directory_target_of(file, next, probe) == directory_target_of(
                file,
                config,
                probe,
            )
        }),
{
}

/// Where the contents of one file go.
pub enum RegularTarget {
    /// To standard output.
    Stdout,
    /// To the file at `path`. `name` is its name, `expected_md5` its checksum.
    File { name: String, path: PathBuf, expected_md5: Option<String> },
}

/// What a [`RegularTarget`] holds.
pub enum RegularTargetView {
    Stdout,
    File { name: Seq<char>, path: Seq<u8>, expected_md5: Option<Seq<char>> },
}

impl View for RegularTarget {
    type V = RegularTargetView;

    open spec fn view(&self) -> RegularTargetView {
        match *self {
            RegularTarget::Stdout => RegularTargetView::Stdout,
            RegularTarget::File { name, path, expected_md5 } => RegularTargetView::File {
                name: name@,
                path: paths::path_bytes(path),
                expected_md5: drive::text_of(expected_md5),
            },
        }
    }
}

/// Where the contents of `file` go, or why they cannot go there.
pub open spec fn regular_target_of(
    file: DriveFile,
    config: Config,
    probe: DestinationProbe,
) -> Result<RegularTargetView, ErrorView> {
    if config.destination is Stdout {
        Ok(RegularTargetView::Stdout)
    } else {
        match (file.name, destination_root(config.destination, probe)) {
            (None, _) => Err(ErrorView::MissingFileName),
            (_, Err(error)) => Err(error),
            (Some(name), Ok(root)) => Ok(
                RegularTargetView::File {
                    name: name@,
                    path: paths::joined(root, encode_utf8(name@)),
                    expected_md5: drive::text_of(file.md5_checksum),
                },
            ),
        }
    }
}

/// Decides where the contents of `file` go. `probe` is what the file system says of
/// [`Config::destination_dir`]; it does not matter where that gives none.
pub fn regular_target(file: &DriveFile, config: &Config, probe: &DestinationProbe) -> (result:
    Result<RegularTarget, Error>)
    ensures
        (match result {
            Ok(target) => Ok::<RegularTargetView, ErrorView>(target@),
            Err(error) => Err::<RegularTargetView, ErrorView>(error@),
        }) == regular_target_of(*file, *config, *probe),
{
    match &config.destination {
        Destination::Stdout => return Ok(RegularTarget::Stdout),
        _ => {},
    }
    match &file.name {
        None => Err(Error::MissingFileName),
        Some(name) => match config.canonical_destination_root(probe) {
            Err(error) => Err(error),
            Ok(root) => Ok(
                RegularTarget::File {
                    name: name.clone(),
                    path: paths::join_name(&root, name),
                    expected_md5: drive::copy_text(&file.md5_checksum),
                },
            ),
        },
    }
}

/// The directory that a directory download goes to and, relative to it, the directory itself.
pub open spec fn directory_target_of(
    file: DriveFile,
    config: Config,
    probe: DestinationProbe,
) -> Result<(Seq<u8>, Seq<u8>), ErrorView> {
    match (destination_root(config.destination, probe), file.name) {
        (Err(error), _) => Err(error),
        (_, None) => Err(ErrorView::MissingFileName),
        (Ok(root), Some(name)) => Ok((root, encode_utf8(name@))),
    }
}

/// Decides where the directory `file` goes: the canonical path of the destination and, relative
/// to it, the path of the directory. `probe` is as for [`regular_target`].
pub fn directory_target(file: &DriveFile, config: &Config, probe: &DestinationProbe) -> (result:
    Result<(PathBuf, PathBuf), Error>)
    ensures
        (match result {
            Ok((root, dir)) => Ok::<(Seq<u8>, Seq<u8>), ErrorView>(
                (paths::path_bytes(root), paths::path_bytes(dir)),
            ),
            Err(error) => Err::<(Seq<u8>, Seq<u8>), ErrorView>(error@),
        }) == directory_target_of(*file, *config, *probe),
{
    match config.canonical_destination_root(probe) {
        Err(error) => Err(error),
        Ok(root) => match &file.name {
            None => Err(Error::MissingFileName),
            Some(name) => Ok((root, paths::path_from(name))),
        },
    }
}

/// Where a download goes: to the current directory, to the directory that was given, or to none
/// where it goes to standard output. The path of a file there is its name joined to that.
pub proof fn law_destination_is_the_one_asked_for(destination: Destination, name: Seq<char>)
    ensures
        destination is CurrentDir ==> {
            &&& destination_dir_bytes(destination) == Some(encode_utf8("."@))
            &&& destination_file_bytes(destination, name) == Some(
                paths::joined(encode_utf8("."@), encode_utf8(name)),
            )
        },
        destination matches Destination::Path(path) ==> {
            &&& destination_dir_bytes(destination) == Some(paths::path_bytes(path))
            &&& destination_file_bytes(destination, name) == Some(
                paths::joined(paths::path_bytes(path), encode_utf8(name)),
            )
        },
        destination is Stdout ==> {
            &&& destination_dir_bytes(destination) is None
            &&& destination_file_bytes(destination, name) is None
        },
{
}

/// The root of a download is what the file system says that the path of the destination is,
/// character for character. There is one if and only if the download goes to a directory, a
/// given path is there and is a directory, and the file system resolves it. Of what is wrong,
/// what stands first is told.
pub proof fn law_root_is_what_the_file_system_says(
    destination: Destination,
    probe: DestinationProbe,
    root: Seq<u8>,
)
    ensures
        destination_root(destination, probe) == Ok::<Seq<u8>, ErrorView>(root) <==> {
            &&& destination is CurrentDir || (destination is Path && probe.exists && probe.is_dir)
            &&& probe.canonical matches Ok(path)
            &&& paths::path_bytes(path) == root
        },
        destination is Stdout ==> destination_root(destination, probe) == Err::<
            Seq<u8>,
            ErrorView,
        >(ErrorView::StdoutNotValidDestination),
        destination matches Destination::Path(path) ==> {
            let bytes = paths::path_bytes(path);
            &&& !probe.exists ==> destination_root(destination, probe) == Err::<
                Seq<u8>,
                ErrorView,
            >(ErrorView::DestinationPathDoesNotExist(bytes))
            &&& probe.exists && !probe.is_dir ==> destination_root(destination, probe) == Err::<
                Seq<u8>,
                ErrorView,
            >(ErrorView::DestinationPathNotADirectory(bytes))
            &&& probe.exists && probe.is_dir ==> (probe.canonical matches Err(report)
                ==> destination_root(destination, probe) == Err::<Seq<u8>, ErrorView>(
                ErrorView::CanonicalizeDestinationPath(bytes, report@),
            ))
        },
        destination is CurrentDir ==> (probe.canonical matches Err(report) ==> destination_root(
            destination,
            probe,
        ) == Err::<Seq<u8>, ErrorView>(
            ErrorView::CanonicalizeDestinationPath(encode_utf8("."@), report@),
        )),
{
}

/// Whether a file is in the way: it is at the place that the download goes to, and it was not
/// asked to replace it.
pub open spec fn is_in_the_way(config: Config, exists: bool) -> bool {
    exists && config.existing_file_action == ExistingFileAction::Abort && !(config.destination
        is Stdout)
}

/// Each check fails just where it should. A file has to have a name, and none may be in its way;
/// a directory has to be asked for, and so has the following of a shortcut. The failure tells
/// which file it is about.
pub proof fn law_checks_fail_where_they_should(file: DriveFile, config: Config, exists: bool)
    ensures
        ({
            let check = file_exists_check(file, config, exists);
            &&& check is Ok <==> file.name is Some && !is_in_the_way(config, exists)
            &&& file.name is None ==> check == Err::<(), ErrorView>(ErrorView::MissingFileName)
            &&& file.name is Some && is_in_the_way(config, exists) ==> {
                let name = encode_utf8(file.name->Some_0@);
                &&& config.destination is CurrentDir ==> check == Err::<(), ErrorView>(
                    ErrorView::FileExists(paths::joined(encode_utf8("."@), name)),
                )
                &&& config.destination matches Destination::Path(dir) ==> check == Err::<
                    (),
                    ErrorView,
                >(ErrorView::FileExists(paths::joined(paths::path_bytes(dir), name)))
            }
        }),
        ({
            let name = match file.name {
                Some(name) => name@,
                None => Seq::empty(),
            };
            &&& directory_check(file, config) is Err <==> file.is_directory
                && !config.download_directories
            &&& directory_check(file, config) matches Err(error) ==> error
                == ErrorView::IsDirectory(name)
            &&& shortcut_check(file, config) is Err <==> file.is_shortcut
                && !config.follow_shortcuts
            &&& shortcut_check(file, config) matches Err(error) ==> error
                == ErrorView::IsShortcut(name)
        }),
{
}

/// What a download comes down to. Of the checks the first that fails is told. A file that passes
/// them is followed where it is a shortcut, downloaded as a directory where it is one, and
/// downloaded as one file otherwise.
pub proof fn law_plan_goes_by_the_file(file: DriveFile, config: Config, exists: bool)
    ensures
        ({
            let plan = planned(file, config, exists);
            let named = file.name is Some && !is_in_the_way(config, exists);
            let allowed = named && !(file.is_directory && !config.download_directories) && !(
            file.is_shortcut && !config.follow_shortcuts);
            let target = match file.shortcut_details {
                Some(details) => match details.target_id {
                    Some(id) => Some(id@),
                    None => None,
                },
                None => None,
            };
            &&& plan is Ok ==> allowed
            &&& !named ==> plan is Err && plan->Err_0 == file_exists_check(
                file,
                config,
                exists,
            )->Err_0
            &&& named && file.is_directory && !config.download_directories ==> plan is Err
                && plan->Err_0 == directory_check(file, config)->Err_0
            &&& named && !allowed && !(file.is_directory && !config.download_directories)
                ==> plan is Err && plan->Err_0 == shortcut_check(file, config)->Err_0
            &&& allowed && file.is_shortcut ==> match target {
                Some(id) => plan == Ok::<DownloadPlanView, ErrorView>(
                    DownloadPlanView::FollowShortcut(id),
                ),
                None => plan == Err::<DownloadPlanView, ErrorView>(
                    ErrorView::MissingShortcutTarget,
                ),
            }
            &&& allowed && !file.is_shortcut && file.is_directory ==> plan == Ok::<
                DownloadPlanView,
                ErrorView,
            >(DownloadPlanView::Directory)
            &&& allowed && !file.is_shortcut && !file.is_directory ==> plan == Ok::<
                DownloadPlanView,
                ErrorView,
            >(DownloadPlanView::Regular)
        }),
{
    law_checks_fail_where_they_should(file, config, exists);
}

/// The contents of a file go to standard output if and only if that is the destination. For any
/// other destination they go to the root of the download, joined with the name of the file, and
/// the checksum that is expected is that of the file; a file without a name, or a destination
/// without a root, is an error.
pub proof fn law_contents_go_where_they_were_asked_for(
    file: DriveFile,
    config: Config,
    probe: DestinationProbe,
)
    ensures
        ({
            let target = regular_target_of(file, config, probe);
            let root = destination_root(config.destination, probe);
            &&& config.destination is Stdout <==> target == Ok::<RegularTargetView, ErrorView>(
                RegularTargetView::Stdout,
            )
            &&& config.destination !is Stdout && file.name is None ==> target == Err::<
                RegularTargetView,
                ErrorView,
            >(ErrorView::MissingFileName)
            &&& config.destination !is Stdout && file.name is Some && root is Err ==> target
                == Err::<RegularTargetView, ErrorView>(root->Err_0)
            &&& config.destination !is Stdout && file.name is Some && root is Ok ==> {
                &&& target is Ok && target->Ok_0 is File
                &&& target->Ok_0->name == file.name->Some_0@
                &&& target->Ok_0->path == paths::joined(
                    root->Ok_0,
                    encode_utf8(file.name->Some_0@),
                )
                &&& target->Ok_0->expected_md5 is Some == file.md5_checksum is Some
                &&& file.md5_checksum matches Some(md5) ==> target->Ok_0->expected_md5 == Some(
                    md5@,
                )
            }
            &&& config.destination is CurrentDir && file.name is Some ==> (
            probe.canonical matches Ok(path) ==> target is Ok && target->Ok_0 is File
                && target->Ok_0->path == paths::joined(
                paths::path_bytes(path),
                encode_utf8(file.name->Some_0@),
            ))
        }),
{
}

/// A directory goes below the root of the download, under its own name. Where there is no root
/// that is told first, and then that there is no name.
pub proof fn law_directory_goes_below_the_root(
    file: DriveFile,
    config: Config,
    probe: DestinationProbe,
)
    ensures
        ({
            let target = directory_target_of(file, config, probe);
            let root = destination_root(config.destination, probe);
            &&& target is Ok <==> root is Ok && file.name is Some
            &&& root is Err ==> target->Err_0 == root->Err_0
            &&& root is Ok && file.name is None ==> target->Err_0 == ErrorView::MissingFileName
            &&& target is Ok ==> target->Ok_0 == (root->Ok_0, encode_utf8(file.name->Some_0@))
        }),
{
}

/// Where one file and where a directory go is below the same root.
pub proof fn law_files_and_directories_share_the_root(
    file: DriveFile,
    directory: DriveFile,
    config: Config,
    probe: DestinationProbe,
)
    requires
        file.name is Some,
        directory.name is Some,
        config.destination !is Stdout,
    ensures
        ({
            let (one, all) = (
                regular_target_of(file, config, probe),
                directory_target_of(directory, config, probe),
            );
            &&& one is Ok <==> all is Ok
            &&& one is Ok ==> one->Ok_0->path == paths::joined(
                all->Ok_0.0,
                encode_utf8(file.name->Some_0@),
            )
        }),
{
}

/// Plans, targets and outcomes are seen as what they hold.
pub proof fn law_plans_are_seen_as_they_are(
    plan: DownloadPlan,
    target: RegularTarget,
    path: Result<PathBuf, Error>,
    unit: Result<(), Error>,
)
    ensures
        plan matches DownloadPlan::FollowShortcut(id) ==> plan@
            == DownloadPlanView::FollowShortcut(id@),
        plan is Directory ==> plan@ == DownloadPlanView::Directory,
        plan is Regular ==> plan@ == DownloadPlanView::Regular,
        target is Stdout ==> target@ == RegularTargetView::Stdout,
        target matches RegularTarget::File { name, path: place, expected_md5 } ==> target@ == (
        RegularTargetView::File {
            name: name@,
            path: paths::path_bytes(place),
            expected_md5: match expected_md5 {
                Some(md5) => Some(md5@),
                None => None,
            },
        }),
        path matches Ok(place) ==> path_outcome(path) == Ok::<Seq<u8>, ErrorView>(
            paths::path_bytes(place),
        ),
        path matches Err(error) ==> path_outcome(path) == Err::<Seq<u8>, ErrorView>(error@),
        unit is Ok ==> unit_outcome(unit) == Ok::<(), ErrorView>(()),
        unit matches Err(error) ==> unit_outcome(unit) == Err::<(), ErrorView>(error@),
{
}

} // verus!
