use drive_download::config::{
    destination_file_path, directory_target, err_if_directory, err_if_file_exists,
    err_if_shortcut, err_if_shortcut_target_is_missing, plan_download, regular_target, Config,
    Destination, DestinationProbe, DownloadPlan, ExistingFileAction, RegularTarget,
};
use drive_download::drive::{count_size, DriveFile, ShortcutDetails};
use std::path::PathBuf;

fn file(name: Option<&str>) -> DriveFile {
    DriveFile {
        id: Some("id".to_string()),
        name: name.map(|name| name.to_string()),
        mime_type: None,
        md5_checksum: Some("sum".to_string()),
        size: None,
        shortcut_details: None,
        is_shortcut: false,
        is_directory: false,
        is_binary: true,
        doc_type: None,
        is_google_apps_type: false,
    }
}

fn directory(name: Option<&str>) -> DriveFile {
    DriveFile { is_directory: true, is_binary: false, ..file(name) }
}

fn shortcut(target: Option<Option<&str>>) -> DriveFile {
    DriveFile {
        is_shortcut: true,
        is_binary: false,
        shortcut_details: target.map(|id| ShortcutDetails {
            target_id: id.map(|id| id.to_string()),
            target_mime_type: None,
        }),
        ..file(Some("link"))
    }
}

fn config(destination: Destination) -> Config {
    Config {
        file_id: "id".to_string(),
        existing_file_action: ExistingFileAction::Abort,
        follow_shortcuts: false,
        download_directories: false,
        destination,
    }
}

fn found(path: &str) -> DestinationProbe {
    DestinationProbe { exists: true, is_dir: true, canonical: Ok(PathBuf::from(path)) }
}

fn refused() -> DestinationProbe {
    DestinationProbe { exists: true, is_dir: true, canonical: Err("denied".to_string()) }
}

fn somewhere() -> Destination {
    Destination::Path(PathBuf::from("out"))
}

#[test]
fn destination_root_of_the_current_directory() {
    let here = config(Destination::CurrentDir);
    assert_eq!(here.destination_dir(), Some(PathBuf::from(".")));
    assert_eq!(here.canonical_destination_root(&found("/work")).unwrap(), PathBuf::from("/work"));
    assert_eq!(
        here.canonical_destination_root(&refused()).unwrap_err().message(),
        "Failed to canonicalize destination path '.': denied"
    );
    // Whether the current directory is there is not asked.
    let odd = DestinationProbe { exists: false, is_dir: false, canonical: Ok(PathBuf::from("/w")) };
    assert_eq!(here.canonical_destination_root(&odd).unwrap(), PathBuf::from("/w"));
}

#[test]
fn destination_root_of_a_path() {
    let there = config(somewhere());
    assert_eq!(there.destination_dir(), Some(PathBuf::from("out")));
    assert_eq!(there.canonical_destination_root(&found("/w/out")).unwrap(), PathBuf::from("/w/out"));
    let missing = DestinationProbe { exists: false, ..found("/w") };
    assert_eq!(
        there.canonical_destination_root(&missing).unwrap_err().message(),
        "Destination path 'out' does not exist"
    );
    let plain = DestinationProbe { is_dir: false, ..found("/w") };
    assert_eq!(
        there.canonical_destination_root(&plain).unwrap_err().message(),
        "Destination path 'out' is not a directory"
    );
    assert_eq!(
        there.canonical_destination_root(&refused()).unwrap_err().message(),
        "Failed to canonicalize destination path 'out': denied"
    );
}

#[test]
fn destination_root_of_standard_output() {
    let out = config(Destination::Stdout);
    assert_eq!(out.destination_dir(), None);
    assert_eq!(
        out.canonical_destination_root(&found("/w")).unwrap_err().message(),
        "Stdout is not a valid destination for this combination of options"
    );
}

#[test]
fn existing_files() {
    let named = file(Some("a.txt"));
    let mut there = config(somewhere());
    assert_eq!(destination_file_path(&there, "a.txt"), Some(PathBuf::from("out/a.txt")));
    assert!(err_if_file_exists(&named, &there, false).is_ok());
    assert_eq!(
        err_if_file_exists(&named, &there, true).unwrap_err().message(),
        "File 'out/a.txt' already exists, use --overwrite to overwrite it"
    );
    there.existing_file_action = ExistingFileAction::Overwrite;
    assert!(err_if_file_exists(&named, &there, true).is_ok());
    assert_eq!(
        err_if_file_exists(&named, &config(Destination::CurrentDir), true).unwrap_err().message(),
        "File './a.txt' already exists, use --overwrite to overwrite it"
    );
    let out = config(Destination::Stdout);
    assert_eq!(destination_file_path(&out, "a.txt"), None);
    assert!(err_if_file_exists(&named, &out, true).is_ok());
    assert_eq!(
        err_if_file_exists(&file(None), &out, false).unwrap_err().message(),
        "File does not have a name"
    );
}

#[test]
fn directories_and_shortcuts_have_to_be_asked_for() {
    let mut asked = config(somewhere());
    assert!(err_if_directory(&file(Some("f")), &asked).is_ok());
    assert_eq!(
        err_if_directory(&directory(Some("d")), &asked).unwrap_err().message(),
        "'d' is a directory, use --recursive to download directories"
    );
    assert_eq!(
        err_if_directory(&directory(None), &asked).unwrap_err().message(),
        "'' is a directory, use --recursive to download directories"
    );
    assert!(err_if_shortcut(&file(Some("f")), &asked).is_ok());
    assert_eq!(
        err_if_shortcut(&shortcut(None), &asked).unwrap_err().message(),
        "'link' is a shortcut, use --follow-shortcuts to download the file it points to"
    );
    asked.download_directories = true;
    asked.follow_shortcuts = true;
    assert!(err_if_directory(&directory(Some("d")), &asked).is_ok());
    assert!(err_if_shortcut(&shortcut(None), &asked).is_ok());
}

#[test]
fn missing_targets() {
    assert!(err_if_shortcut_target_is_missing(&Some("t".to_string())).is_ok());
    assert_eq!(
        err_if_shortcut_target_is_missing(&None).unwrap_err().message(),
        "Shortcut does not have a target"
    );
}

#[test]
fn plans() {
    let mut asked = config(somewhere());
    assert!(matches!(plan_download(&file(Some("f")), &asked, false), Ok(DownloadPlan::Regular)));
    // The checks come in order.
    assert_eq!(
        plan_download(&directory(None), &asked, true).err().unwrap().message(),
        "File does not have a name"
    );
    assert_eq!(
        plan_download(&directory(Some("d")), &asked, true).err().unwrap().message(),
        "File 'out/d' already exists, use --overwrite to overwrite it"
    );
    assert_eq!(
        plan_download(&directory(Some("d")), &asked, false).err().unwrap().message(),
        "'d' is a directory, use --recursive to download directories"
    );
    asked.download_directories = true;
    assert!(matches!(plan_download(&directory(Some("d")), &asked, false), Ok(DownloadPlan::Directory)));
    assert_eq!(
        plan_download(&shortcut(Some(Some("t"))), &asked, false).err().unwrap().message(),
        "'link' is a shortcut, use --follow-shortcuts to download the file it points to"
    );
    asked.follow_shortcuts = true;
    match plan_download(&shortcut(Some(Some("t"))), &asked, false) {
        Ok(DownloadPlan::FollowShortcut(id)) => assert_eq!(id, "t"),
        _ => panic!("the shortcut is not followed"),
    }
    for target in [None, Some(None)] {
        assert_eq!(
            plan_download(&shortcut(target), &asked, false).err().unwrap().message(),
            "Shortcut does not have a target"
        );
    }
}

#[test]
fn targets_of_one_file() {
    let there = config(somewhere());
    match regular_target(&file(Some("a.txt")), &there, &found("/w/out")) {
        Ok(RegularTarget::File { name, path, expected_md5 }) => {
            assert_eq!(name, "a.txt");
            assert_eq!(path, PathBuf::from("/w/out/a.txt"));
            assert_eq!(expected_md5, Some("sum".to_string()));
        }
        _ => panic!("no file"),
    }
    assert!(matches!(
        regular_target(&file(None), &config(Destination::Stdout), &refused()),
        Ok(RegularTarget::Stdout)
    ));
    assert_eq!(
        regular_target(&file(None), &there, &refused()).err().unwrap().message(),
        "File does not have a name"
    );
    assert_eq!(
        regular_target(&file(Some("a")), &there, &refused()).err().unwrap().message(),
        "Failed to canonicalize destination path 'out': denied"
    );
}

#[test]
fn targets_of_a_directory() {
    let there = config(somewhere());
    assert_eq!(
        directory_target(&directory(Some("d")), &there, &found("/w/out")).unwrap(),
        (PathBuf::from("/w/out"), PathBuf::from("d"))
    );
    assert_eq!(
        directory_target(&directory(None), &there, &found("/w/out")).unwrap_err().message(),
        "File does not have a name"
    );
    assert_eq!(
        directory_target(&directory(None), &config(Destination::Stdout), &found("/w")).unwrap_err().message(),
        "Stdout is not a valid destination for this combination of options"
    );
}

#[test]
fn sizes() {
    assert_eq!(count_size(None), 0);
    assert_eq!(count_size(Some(12)), 12);
    assert_eq!(count_size(Some(-1)), u64::MAX);
    assert_eq!(count_size(Some(i64::MIN)), 1 << 63);
}

#[test]
fn a_followed_shortcut_changes_the_file_alone() {
    let mut asked = config(somewhere());
    asked.follow_shortcuts = true;
    asked.existing_file_action = ExistingFileAction::Overwrite;
    let next = asked.following("t".to_string());
    assert_eq!(next.file_id, "t");
    assert_eq!(next.existing_file_action, ExistingFileAction::Overwrite);
    assert!(next.follow_shortcuts);
    assert!(!next.download_directories);
    assert_eq!(next.destination, somewhere());
}

#[test]
fn a_canonical_root_is_its_own() {
    let root = config(somewhere()).canonical_destination_root(&found("/w/out")).unwrap();
    let again = config(Destination::Path(root.clone()));
    assert_eq!(again.canonical_destination_root(&found("/w/out")).unwrap(), root);
}
