use drive_download::config::{Config, Destination, DestinationProbe, ExistingFileAction};
use drive_download::directory::DirectoryDownload;
use drive_download::drive::{DocType, DriveFile, ShortcutDetails};
use drive_download::error::Error;
use drive_download::scan::{scan_child, Next};
use drive_download::shortcut::{
    decide_link, will_walk, LinkDecision, ShortcutJob, MIME_TYPE_DRIVE_FOLDER,
};
use drive_download::stats::{DownloadStats, PendingShortcut};
use drive_download::steps::{Event, LinkState, Notice, Request, Step};
use drive_download::walk::Walk;
use std::path::PathBuf;

fn text(value: &str) -> String {
    value.to_string()
}

fn plain(id: &str, name: &str) -> DriveFile {
    DriveFile {
        id: Some(text(id)),
        name: Some(text(name)),
        mime_type: None,
        md5_checksum: None,
        size: None,
        shortcut_details: None,
        is_shortcut: false,
        is_directory: false,
        is_binary: false,
        doc_type: None,
        is_google_apps_type: false,
    }
}

fn folder(id: &str, name: &str) -> DriveFile {
    DriveFile { is_directory: true, ..plain(id, name) }
}

fn binary(id: &str, name: &str, md5: &str, size: i64) -> DriveFile {
    DriveFile {
        is_binary: true,
        md5_checksum: Some(text(md5)),
        size: Some(size),
        ..plain(id, name)
    }
}

fn doc_type() -> DocType {
    DocType {
        label: text("document"),
        extension: text("docx"),
        export_mime: text("application/docx"),
    }
}

fn document(id: &str, name: &str) -> DriveFile {
    DriveFile { doc_type: Some(doc_type()), is_google_apps_type: true, ..plain(id, name) }
}

fn link(id: &str, name: &str, target: &str, mime: Option<&str>) -> DriveFile {
    DriveFile {
        is_shortcut: true,
        is_google_apps_type: true,
        shortcut_details: Some(ShortcutDetails {
            target_id: Some(text(target)),
            target_mime_type: mime.map(text),
        }),
        ..plain(id, name)
    }
}

fn log_notices(log: &mut Vec<String>, notices: Vec<Notice>) {
    for notice in notices {
        log.push(match notice {
            Notice::Info(line) => format!("out {}", line),
            Notice::Warning(line) => format!("err {}", line),
        });
    }
}

fn show(path: &PathBuf) -> String {
    path.display().to_string()
}

fn describe(request: &Request) -> Option<String> {
    Some(match request {
        Request::Continue => return None,
        Request::CreateDirectory(path) => format!("mkdir {}", show(path)),
        Request::ListFolder(id) => format!("list {}", id),
        Request::ProbeFile(path) => format!("probe {}", show(path)),
        Request::FetchFile(id) => format!("fetch {}", id),
        Request::ExportFile { id, mime } => format!("export {} {}", id, mime),
        Request::StoreBody { path, expected_md5 } => {
            format!("store {} {:?}", show(path), expected_md5)
        }
        Request::ProbeLink(path) => format!("probe-link {}", show(path)),
        Request::RemoveLink(path) => format!("remove-link {}", show(path)),
        Request::CreateLink { target, link } => {
            format!("create-link {} -> {}", show(link), show(target))
        }
        Request::GetFile(id) => format!("get {}", id),
        Request::ClassifyTarget(mime) => format!("classify {}", mime),
        Request::ShowSize(bytes) => format!("size {}", bytes),
        Request::Finish(Ok(())) => text("finish"),
        Request::Finish(Err(error)) => format!("fail {}", error.message()),
    })
}

fn config(destination: Destination) -> Config {
    Config {
        file_id: text("top"),
        existing_file_action: ExistingFileAction::Abort,
        follow_shortcuts: false,
        download_directories: true,
        destination,
    }
}

fn probe() -> DestinationProbe {
    DestinationProbe { exists: true, is_dir: true, canonical: Ok(PathBuf::from("/r")) }
}

/// Runs a download of the directory "top", with `answer` for what is outside.
fn run(answer: &mut dyn FnMut(&Request) -> Event) -> (Vec<String>, DownloadStats) {
    let mut log = Vec::new();
    let mut stats = DownloadStats::default();
    let (mut download, mut step) =
        DirectoryDownload::start(&folder("top", "Top"), &config(Destination::CurrentDir), &probe())
            .ok()
            .unwrap();
    loop {
        log_notices(&mut log, step.notices);
        if let Some(line) = describe(&step.request) {
            log.push(line);
        }
        let event = match &step.request {
            Request::Finish(_) => return (log, stats),
            Request::Continue => Event::Continue,
            request => answer(request),
        };
        assert!(download.accepts(&stats, &event));
        step = download.advance(&mut stats, event);
    }
}

fn well(request: &Request, lists: &mut dyn FnMut(&str) -> Vec<DriveFile>) -> Event {
    match request {
        Request::CreateDirectory(_) => Event::DirectoryCreated(Ok(())),
        Request::ListFolder(id) => Event::Listed(Ok(lists(id))),
        Request::ProbeFile(_) => Event::Probed(None),
        Request::FetchFile(_) => Event::Fetched(Ok(())),
        Request::ExportFile { .. } => Event::Exported(Ok(())),
        Request::StoreBody { .. } => Event::Stored(Ok(())),
        Request::ProbeLink(_) => Event::LinkProbed(LinkState::NotALink),
        Request::RemoveLink(_) => Event::LinkRemoved(Ok(())),
        Request::CreateLink { .. } => Event::LinkCreated(Ok(())),
        Request::GetFile(id) => Event::GotFile(Ok(folder(id, "Elsewhere"))),
        Request::ClassifyTarget(mime) if mime == "doc" => Event::Classified(Some(doc_type())),
        Request::ClassifyTarget(_) => Event::Classified(None),
        Request::ShowSize(bytes) => Event::SizeShown(format!("{} B", bytes)),
        _ => panic!("nothing to answer"),
    }
}

#[test]
fn a_tree_is_walked_depth_first() {
    let (log, stats) = run(&mut |request| {
        well(request, &mut |id| match id {
            "top" => vec![
                binary("f1", "a/b.txt", "m1", 3),
                folder("d1", "sub"),
                document("g1", "notes"),
            ],
            "d1" => vec![binary("f2", "c", "m2", 4)],
            _ => panic!("no such folder"),
        })
    });
    assert_eq!(
        log,
        [
            "out Creating directory Top",
            "mkdir /r/Top",
            "list top",
            "probe /r/Top/a_b.txt",
            "fetch f1",
            "out Downloading file 'Top/a_b.txt'",
            "store /r/Top/a_b.txt Some(\"m1\")",
            "out Creating directory Top/sub",
            "mkdir /r/Top/sub",
            "list d1",
            "probe /r/Top/sub/c",
            "fetch f2",
            "out Downloading file 'Top/sub/c'",
            "store /r/Top/sub/c Some(\"m2\")",
            "export g1 application/docx",
            "out Exporting document 'Top/notes.docx'",
            "store /r/Top/notes.docx None",
            "size 7",
            "out Downloaded 3 files in 2 directories with a total size of 7 B",
            "finish",
        ]
    );
    assert_eq!((stats.file_count, stats.folder_count, stats.total_file_size), (3, 2, 7));
    assert_eq!(stats.location("f2"), Some(PathBuf::from("Top/sub/c")));
    assert_eq!(stats.location("g1"), Some(PathBuf::from("Top/notes.docx")));
    assert_eq!(stats.location("d1"), None);
}

#[test]
fn files_that_are_there_are_not_fetched() {
    let (log, stats) = run(&mut |request| match request {
        Request::ProbeFile(path) if path.ends_with("same") => Event::Probed(Some(text("m1"))),
        Request::ProbeFile(path) if path.ends_with("changed") => Event::Probed(Some(text("old"))),
        Request::ProbeFile(_) => Event::Probed(Some(String::new())),
        request => well(request, &mut |_| {
            let mut blank = binary("f3", "unsummed", "", 1);
            blank.md5_checksum = None;
            vec![binary("f1", "same", "m1", 3), binary("f2", "changed", "m2", 4), blank]
        }),
    });
    assert_eq!(log.iter().filter(|line| line.starts_with("fetch")).count(), 2);
    assert!(!log.contains(&text("fetch f1")));
    assert_eq!((stats.file_count, stats.total_file_size), (2, 5));
    assert_eq!(stats.location("f1"), Some(PathBuf::from("Top/same")));
}

#[test]
fn what_cannot_be_downloaded_is_noted() {
    let long = "n".repeat(300);
    let cut = "n".repeat(255);
    let (log, stats) = run(&mut |request| match request {
        Request::ExportFile { .. } => Event::Exported(Err(text("too big"))),
        request => well(request, &mut |_| {
            let mut form = plain("x1", "form");
            form.is_google_apps_type = true;
            let mut map = plain("x2", "map");
            map.is_google_apps_type = true;
            map.mime_type = Some(text("apps.map"));
            vec![form, map, document("g1", "notes"), plain("x3", "odd"), binary("f1", &long, "m", 1)]
        }),
    });
    let warnings = [
        text("Skipping 'form' (unsupported Google Apps type: unknown)"),
        text("Skipping 'map' (unsupported Google Apps type: apps.map)"),
        text("Failed to export 'Top/notes.docx': too big"),
        format!("Filename truncated: '{}' -> '{}'", long, cut),
    ];
    assert_eq!(stats.warnings, warnings);
    for warning in &warnings {
        assert!(log.contains(&format!("err Warning: {}", warning)));
        assert!(log.contains(&format!("err   - {}", warning)));
    }
    assert!(log.contains(&text("err \n4 warning(s):")));
    assert_eq!(log.last(), Some(&text("finish")));
    assert_eq!(stats.file_count, 1);
}

#[test]
fn shortcuts_come_after_the_walk() {
    let (log, stats) = run(&mut |request| {
        well(request, &mut |id| match id {
            "top" => vec![
                link("s1", "to file", "f1", None),
                folder("d1", "sub"),
                link("s2", "shared", "far", Some("doc")),
                link("s3", "tree", "far tree", Some(MIME_TYPE_DRIVE_FOLDER)),
                link("s4", "data", "far data", Some("bin")),
            ],
            "d1" => vec![binary("f1", "c", "m", 4)],
            "far tree" => vec![link("s5", "again", "f1", None)],
            _ => panic!("no such folder"),
        })
    });
    let start = log.iter().position(|line| line.starts_with("out \nProcessing")).unwrap();
    assert_eq!(
        log[start..],
        [
            "out \nProcessing 4 shortcut(s)...",
            "classify ",
            "probe-link /r/Top/to file",
            "out Creating symlink 'Top/to file' -> 'sub/c'",
            "create-link /r/Top/to file -> sub/c",
            "classify doc",
            "export far application/docx",
            "out Exporting shared document shortcut 'Top/shared.docx'",
            "store /r/Top/shared.docx None",
            "classify application/vnd.google-apps.folder",
            "get far tree",
            "out Downloading shared folder shortcut 'Top/tree'",
            "out Creating directory Top/tree",
            "mkdir /r/Top/tree",
            "list far tree",
            "out Found shortcut 'again', will process after download",
            "classify bin",
            "fetch far data",
            "out Downloading shared file shortcut 'Top/data'",
            "store /r/Top/data None",
            "out \nProcessing 1 shortcut(s)...",
            "classify ",
            "probe-link /r/Top/tree/again",
            "out Creating symlink 'Top/tree/again' -> '../sub/c'",
            "create-link /r/Top/tree/again -> ../sub/c",
            "size 4",
            "out Downloaded 3 files in 3 directories with a total size of 4 B",
            "finish",
        ]
    );
    assert!(log.contains(&text("out Found shortcut 'to file', will process after download")));
    assert!(stats.pending_shortcuts.is_empty());
    assert_eq!(stats.location("far"), None);
}

#[test]
fn shortcuts_behind_shortcuts_have_their_turn() {
    let shared = |target: &str| link("s", target, target, Some(MIME_TYPE_DRIVE_FOLDER));
    let (log, stats) = run(&mut |request| {
        well(request, &mut |id| match id {
            "top" => vec![shared("one"), shared("two")],
            "one" => vec![shared("three")],
            "two" => vec![link("s", "data", "far data", None)],
            "three" => vec![shared("four")],
            "four" => vec![],
            _ => panic!("no such folder"),
        })
    });
    let turns: Vec<&String> = log
        .iter()
        .filter(|line| line.starts_with("out \nProcessing") || line.starts_with("mkdir"))
        .collect();
    assert_eq!(
        turns,
        [
            "mkdir /r/Top",
            "out \nProcessing 2 shortcut(s)...",
            "mkdir /r/Top/one",
            "mkdir /r/Top/two",
            "out \nProcessing 2 shortcut(s)...",
            "mkdir /r/Top/one/three",
            "out \nProcessing 1 shortcut(s)...",
            "mkdir /r/Top/one/three/four",
        ]
    );
    assert!(log.contains(&text("store /r/Top/two/data None")));
    assert_eq!(log.last(), Some(&text("finish")));
    assert!(stats.pending_shortcuts.is_empty());
    assert_eq!((stats.file_count, stats.folder_count), (1, 5));
}

/// The lines of `log` that tell which folders and shortcuts have had their turn.
fn turns(log: &[String]) -> Vec<&String> {
    log.iter()
        .filter(|line| {
            line.starts_with("out \nProcessing")
                || line.starts_with("mkdir")
                || line.starts_with("err Warning")
                || line.starts_with("fetch")
        })
        .collect()
}

#[test]
fn a_folder_that_links_to_itself_comes_to_an_end() {
    let (log, stats) = run(&mut |request| {
        well(request, &mut |id| match id {
            "top" => vec![
                binary("f1", "a", "m1", 3),
                link("s", "self", "top", Some(MIME_TYPE_DRIVE_FOLDER)),
            ],
            _ => panic!("no such folder"),
        })
    });
    let warning = "Skipping folder shortcut 'Top/self/self' (leads back to a folder on the way to it)";
    assert_eq!(
        turns(&log),
        [
            "mkdir /r/Top",
            "fetch f1",
            "out \nProcessing 1 shortcut(s)...",
            "mkdir /r/Top/self",
            "fetch f1",
            "out \nProcessing 1 shortcut(s)...",
            &format!("err Warning: {}", warning),
        ]
    );
    assert_eq!(log.last(), Some(&text("finish")));
    assert_eq!(stats.warnings, [warning]);
    assert!(stats.pending_shortcuts.is_empty());
    assert_eq!((stats.file_count, stats.folder_count), (2, 2));
}

#[test]
fn folders_that_link_to_each_other_come_to_an_end() {
    let shared = |target: &str| link("s", target, target, Some(MIME_TYPE_DRIVE_FOLDER));
    let (log, stats) = run(&mut |request| {
        well(request, &mut |id| match id {
            "top" => vec![shared("A"), shared("B")],
            "A" => vec![shared("B")],
            "B" => vec![shared("A")],
            _ => panic!("no such folder"),
        })
    });
    assert_eq!(
        turns(&log),
        [
            "mkdir /r/Top",
            "out \nProcessing 2 shortcut(s)...",
            "mkdir /r/Top/A",
            "mkdir /r/Top/B",
            "out \nProcessing 2 shortcut(s)...",
            "mkdir /r/Top/A/B",
            "mkdir /r/Top/B/A",
            "out \nProcessing 2 shortcut(s)...",
            "err Warning: Skipping folder shortcut 'Top/A/B/A' \
             (leads back to a folder on the way to it)",
            "err Warning: Skipping folder shortcut 'Top/B/A/B' \
             (leads back to a folder on the way to it)",
        ]
    );
    assert_eq!(log.last(), Some(&text("finish")));
    assert_eq!(stats.warnings.len(), 2);
    assert!(stats.pending_shortcuts.is_empty());
}

#[test]
fn a_folder_on_two_ways_is_walked_on_both() {
    let shared = |name: &str, target: &str| link("s", name, target, Some(MIME_TYPE_DRIVE_FOLDER));
    let (log, stats) = run(&mut |request| {
        well(request, &mut |id| match id {
            "top" => vec![shared("one", "A"), shared("two", "A"), shared("three", "B")],
            "A" => vec![],
            "B" => vec![shared("four", "A"), link("s", "data", "far data", None)],
            _ => panic!("no such folder"),
        })
    });
    for dir in ["one", "two", "three", "three/four"] {
        assert!(log.contains(&format!("mkdir /r/Top/{}", dir)));
    }
    assert!(log.contains(&text("store /r/Top/three/data None")));
    assert!(stats.warnings.is_empty());
}

#[test]
fn folders_are_walked_and_files_are_not() {
    let shortcut = |mime: Option<&str>| PendingShortcut {
        name: text("link"),
        target_id: text("t"),
        target_mime: mime.map(text),
        local_dir: PathBuf::from("Top"),
    };
    let stats = DownloadStats::default();
    assert!(will_walk(&shortcut(Some(MIME_TYPE_DRIVE_FOLDER)), &stats));
    assert!(!will_walk(&shortcut(Some("text/plain")), &stats));
    assert!(!will_walk(&shortcut(None), &stats));
    let mut known = DownloadStats::default();
    known.locate(&Some(text("t")), &PathBuf::from("Top/file"));
    assert!(!will_walk(&shortcut(Some(MIME_TYPE_DRIVE_FOLDER)), &known));
}

#[test]
fn a_second_walk_fetches_nothing() {
    let mut lists = |id: &str| match id {
        "top" => vec![
            binary("f1", "a", "m1", 3),
            folder("d1", "sub"),
            document("g1", "notes"),
        ],
        _ => vec![binary("f2", "b", "m2", 4), document("g2", "more")],
    };
    let (_, first) = run(&mut |request| well(request, &mut lists));
    let (log, second) = run(&mut |request| match request {
        Request::ProbeFile(path) if path.ends_with("a") => Event::Probed(Some(text("m1"))),
        Request::ProbeFile(_) => Event::Probed(Some(text("m2"))),
        request => well(request, &mut lists),
    });
    assert!(!log.iter().any(|line| line.starts_with("fetch")));
    assert_eq!((first.file_count, first.total_file_size), (4, 7));
    assert_eq!((second.file_count, second.total_file_size), (2, 0));
    for id in ["f1", "f2", "g1", "g2"] {
        assert!(second.location(id).is_some());
        assert_eq!(second.location(id), first.location(id));
    }
}

#[test]
fn failures_end_the_download() {
    let lists = |_: &str| vec![binary("f1", "a", "m", 1)];
    let cases: Vec<(fn(&Request) -> Option<Event>, &str)> = vec![
        (
            |request| match request {
                Request::CreateDirectory(_) => Some(Event::DirectoryCreated(Err(text("e")))),
                _ => None,
            },
            "fail Failed to create directory '/r/Top': e",
        ),
        (
            |request| match request {
                Request::ListFolder(_) => Some(Event::Listed(Err(text("e")))),
                _ => None,
            },
            "fail Failed to list files: e",
        ),
        (
            |request| match request {
                Request::FetchFile(_) => Some(Event::Fetched(Err(text("e")))),
                _ => None,
            },
            "fail Failed to download file: e",
        ),
        (
            |request| match request {
                Request::StoreBody { .. } => Some(Event::Stored(Err(Error::WriteChunk(text("e"))))),
                _ => None,
            },
            "fail Failed write to file: e",
        ),
        (
            |request| match request {
                Request::ListFolder(_) => {
                    let mut nameless = plain("x", "x");
                    nameless.name = None;
                    Some(Event::Listed(Ok(vec![nameless])))
                }
                _ => None,
            },
            "fail File does not have a name",
        ),
        (
            |request| match request {
                Request::ListFolder(id) if id == "top" => {
                    let mut nowhere = folder("x", "x");
                    nowhere.id = None;
                    Some(Event::Listed(Ok(vec![nowhere])))
                }
                _ => None,
            },
            "fail File does not have a name",
        ),
    ];
    for (failing, message) in cases {
        let (log, stats) = run(&mut |request| match failing(request) {
            Some(event) => event,
            None => well(request, &mut lists.clone()),
        });
        assert_eq!(log.last().unwrap(), message);
        assert_eq!(stats.file_count, 0);
        assert!(!log.iter().any(|line| line.starts_with("out Downloaded")));
    }
}

#[test]
fn a_download_may_not_start() {
    let out = config(Destination::Stdout);
    assert_eq!(
        DirectoryDownload::start(&folder("top", "Top"), &out, &probe()).err().unwrap().message(),
        "Stdout is not a valid destination for this combination of options"
    );
    let mut nameless = folder("top", "Top");
    nameless.name = None;
    assert_eq!(
        DirectoryDownload::start(&nameless, &config(Destination::CurrentDir), &probe())
            .err()
            .unwrap()
            .message(),
        "File does not have a name"
    );
}

#[test]
fn only_what_is_waited_for_is_accepted() {
    let mut stats = DownloadStats::default();
    let (mut walk, _) =
        Walk::start(&PathBuf::from("/r"), &folder("top", "Top"), &PathBuf::from("Top"));
    assert!(!walk.accepts(&stats, &Event::Continue));
    stats.folder_count = u64::MAX;
    assert!(!walk.accepts(&stats, &Event::DirectoryCreated(Ok(()))));
    assert!(walk.accepts(&stats, &Event::DirectoryCreated(Err(text("e")))));
    stats.folder_count = 0;
    walk.advance(&mut stats, Event::DirectoryCreated(Ok(())));
    let wild = format!("a.{}", "e".repeat(300));
    walk.advance(&mut stats, Event::Listed(Ok(vec![binary("f", &wild, "m", 1)])));
    assert!(!walk.accepts(&stats, &Event::Continue));
}

#[test]
fn counters_do_not_overflow() {
    let mut stats = DownloadStats::default();
    let (mut walk, _) =
        Walk::start(&PathBuf::from("/r"), &folder("top", "Top"), &PathBuf::from("Top"));
    walk.advance(&mut stats, Event::DirectoryCreated(Ok(())));
    walk.advance(&mut stats, Event::Listed(Ok(vec![binary("f", "a", "m", 10)])));
    walk.advance(&mut stats, Event::Continue);
    walk.advance(&mut stats, Event::Probed(None));
    walk.advance(&mut stats, Event::Fetched(Ok(())));
    stats.total_file_size = u64::MAX - 9;
    assert!(!walk.accepts(&stats, &Event::Stored(Ok(()))));
    stats.total_file_size = u64::MAX - 10;
    assert!(walk.accepts(&stats, &Event::Stored(Ok(()))));
    walk.advance(&mut stats, Event::Stored(Ok(())));
    assert_eq!(stats.total_file_size, u64::MAX);
}

#[test]
fn first_looks() {
    let dir = PathBuf::from("Top");
    let mut stats = DownloadStats::default();
    let look = |child: &DriveFile, stats: &mut DownloadStats| scan_child(&dir, child, stats).1;
    assert!(matches!(look(&folder("d", "x/y"), &mut stats), Next::Enter(path) if path == PathBuf::from("Top/x_y")));
    assert!(matches!(look(&binary("f", "z", "m", 1), &mut stats), Next::Probe(path) if path == PathBuf::from("Top/z")));
    assert!(matches!(look(&document("g", "q"), &mut stats), Next::Export(path) if path == PathBuf::from("Top/q.docx")));
    assert!(matches!(look(&link("s", "l", "t", Some("m")), &mut stats), Next::Settled));
    assert_eq!(stats.pending_shortcuts.len(), 1);
    assert_eq!(stats.pending_shortcuts[0].name, "l");
    assert_eq!(stats.pending_shortcuts[0].target_id, "t");
    assert_eq!(stats.pending_shortcuts[0].target_mime, Some(text("m")));
    assert_eq!(stats.pending_shortcuts[0].local_dir, dir);
    // A shortcut is one even where it looks like a directory, and leads nowhere.
    let mut odd = folder("s", "l");
    odd.is_shortcut = true;
    assert!(matches!(look(&odd, &mut stats), Next::Settled));
    assert_eq!(stats.pending_shortcuts.len(), 1);
    let mut nameless = plain("x", "x");
    nameless.name = None;
    assert!(matches!(look(&nameless, &mut stats), Next::Unnamed));
    assert!(stats.warnings.is_empty());
}

fn job(stats: &DownloadStats) -> (ShortcutJob, Step) {
    let shortcut = PendingShortcut {
        name: text("link"),
        target_id: text("f1"),
        target_mime: Some(text("bin")),
        local_dir: PathBuf::from("Top/in/here"),
    };
    ShortcutJob::start(&PathBuf::from("/r"), &shortcut, None, stats)
}

fn stats_with_target() -> DownloadStats {
    let mut stats = DownloadStats::default();
    stats.locate(&Some(text("f1")), &PathBuf::from("Top/there/a.txt"));
    stats
}

fn outcome(step: &Step) -> String {
    describe(&step.request).unwrap()
}

#[test]
fn a_current_link_stays() {
    let mut stats = stats_with_target();
    // The same path, written in another way, is the same link.
    for target in ["../../there/a.txt", "../..//there/./a.txt"] {
        let (mut job, first) = job(&stats);
        assert_eq!(outcome(&first), "probe-link /r/Top/in/here/link");
        let state = LinkState::Link(Some(PathBuf::from(target)));
        let step = job.advance(&mut stats, Event::LinkProbed(state));
        assert_eq!(outcome(&step), "finish");
        assert!(step.notices.is_empty());
    }
}

#[test]
fn a_stale_link_is_replaced() {
    let mut stats = stats_with_target();
    for existing in [None, Some(PathBuf::from("elsewhere"))] {
        let (mut job, _) = job(&stats);
        let step = job.advance(&mut stats, Event::LinkProbed(LinkState::Link(existing)));
        assert_eq!(outcome(&step), "remove-link /r/Top/in/here/link");
        let mut log = Vec::new();
        log_notices(&mut log, step.notices);
        let step = job.advance(&mut stats, Event::LinkRemoved(Ok(())));
        assert_eq!(outcome(&step), "create-link /r/Top/in/here/link -> ../../there/a.txt");
        log_notices(&mut log, step.notices);
        assert_eq!(
            log,
            [
                "out Replacing symlink 'Top/in/here/link' -> '../../there/a.txt'",
                "out Creating symlink 'Top/in/here/link' -> '../../there/a.txt'",
            ]
        );
        let step = job.advance(&mut stats, Event::LinkCreated(Ok(())));
        assert_eq!(outcome(&step), "finish");
    }
    assert_eq!(stats.file_count, 0);
}

#[test]
fn links_may_fail() {
    let mut stats = stats_with_target();
    let (mut first, _) = job(&stats);
    first.advance(&mut stats, Event::LinkProbed(LinkState::Link(None)));
    let step = first.advance(&mut stats, Event::LinkRemoved(Err(text("e"))));
    assert_eq!(outcome(&step), "fail Failed to create symlink '/r/Top/in/here/link': e");
    let (mut second, _) = job(&stats);
    second.advance(&mut stats, Event::LinkProbed(LinkState::NotALink));
    let step = second.advance(&mut stats, Event::LinkCreated(Err(text("e"))));
    assert_eq!(outcome(&step), "fail Failed to create symlink '/r/Top/in/here/link': e");
    let (mut third, _) = job(&stats);
    third.advance(&mut stats, Event::LinkProbed(LinkState::NotALink));
    let step = third.advance(&mut stats, Event::LinksUnsupported);
    assert_eq!(outcome(&step), "finish");
    assert_eq!(
        stats.warnings,
        ["Cannot create symlink for 'link' (not supported on this platform)"]
    );
}

#[test]
fn targets_elsewhere_may_fail() {
    let mut stats = DownloadStats::default();
    let (mut first, step) = job(&stats);
    assert_eq!(outcome(&step), "fetch f1");
    let step = first.advance(&mut stats, Event::Fetched(Err(text("e"))));
    assert_eq!(outcome(&step), "fail Failed to download file: e");

    let (mut second, _) = job(&stats);
    second.advance(&mut stats, Event::Fetched(Ok(())));
    assert!(second.accepts(&stats, &Event::Stored(Ok(()))));
    stats.file_count = u64::MAX;
    assert!(!second.accepts(&stats, &Event::Stored(Ok(()))));
    stats.file_count = 0;
    let step = second.advance(&mut stats, Event::Stored(Err(Error::RenameFile(text("e")))));
    assert_eq!(outcome(&step), "fail Failed to rename file: e");

    let shortcut = |mime: &str| PendingShortcut {
        name: text("link"),
        target_id: text("far"),
        target_mime: Some(text(mime)),
        local_dir: PathBuf::from("Top"),
    };
    let root = PathBuf::from("/r");
    let (mut third, step) = ShortcutJob::start(&root, &shortcut(MIME_TYPE_DRIVE_FOLDER), None, &stats);
    assert_eq!(outcome(&step), "get far");
    let step = third.advance(&mut stats, Event::GotFile(Err(text("e"))));
    assert_eq!(outcome(&step), "fail Failed getting file: e");

    let (mut fourth, step) = ShortcutJob::start(&root, &shortcut("doc"), Some(doc_type()), &stats);
    assert_eq!(outcome(&step), "export far application/docx");
    let step = fourth.advance(&mut stats, Event::Exported(Err(text("e"))));
    assert_eq!(outcome(&step), "finish");
    assert_eq!(stats.warnings, ["Failed to export shortcut 'Top/link.docx': e"]);
    assert_eq!(stats.file_count, 0);
}

#[test]
fn decisions_about_links() {
    assert_eq!(decide_link(false, false), LinkDecision::Create);
    assert_eq!(decide_link(true, true), LinkDecision::Keep);
    assert_eq!(decide_link(true, false), LinkDecision::Replace);
}
