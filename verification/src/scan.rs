//! The first look at a file in a directory: what it is called on disk, and what is to be done
//! about it.

use crate::config;
use crate::drive;
use crate::drive::DriveFile;
use crate::filename;
use crate::paths;
use crate::stats::{DownloadStats, PendingShortcut, PendingShortcutView, StatsView};
use crate::steps;
use crate::steps::{Notice, NoticeView};
use crate::text;
use std::path::PathBuf;
use vstd::prelude::*;
use vstd::utf8::*;

verus! {

/// The warning that a name had to be cut.
pub open spec fn cut_warning(name: Seq<char>) -> Seq<char> {
    "Filename truncated: '"@ + name + "' -> '"@ + filename::sanitized(name) + "'"@
}

/// The line that tells that a shortcut was found.
pub open spec fn shortcut_found_line(name: Seq<char>) -> Seq<char> {
    "Found shortcut '"@ + name + "', will process after download"@
}

/// The warning that a file cannot be downloaded.
pub open spec fn skip_warning(name: Seq<char>, mime: Seq<char>) -> Seq<char> {
    "Skipping '"@ + name + "' (unsupported Google Apps type: "@ + mime + ")"@
}

/// What is to be done about a child of a directory.
pub enum Next {
    /// It has no name: fail.
    Unnamed,
    /// Nothing more.
    Settled,
    /// Download it as a directory to this path.
    Enter(PathBuf),
    /// Download it as a file to this path.
    Probe(PathBuf),
    /// Export it to this path.
    Export(PathBuf),
}

/// What a [`Next`] holds.
pub enum NextView {
    Unnamed,
    Settled,
    Enter(Seq<u8>),
    Probe(Seq<u8>),
    Export(Seq<u8>),
}

impl View for Next {
    type V = NextView;

    open spec fn view(&self) -> NextView {
        match *self {
            Next::Unnamed => NextView::Unnamed,
            Next::Settled => NextView::Settled,
            Next::Enter(path) => NextView::Enter(paths::path_bytes(path)),
            Next::Probe(path) => NextView::Probe(paths::path_bytes(path)),
            Next::Export(path) => NextView::Export(paths::path_bytes(path)),
        }
    }
}

/// A first look at a child of a directory.
#[verifier::ext_equal]
pub struct ScanView {
    /// What is noted of it.
    pub stats: StatsView,
    /// What is shown of it.
    pub notices: Seq<NoticeView>,
    /// What is to be done about it.
    pub next: NextView,
}

/// What the first look at the child of the directory `dir` comes to. `stats` and `notices` are
/// what there is once its name has been dealt with, `safe` is the name that it has on disk.
pub open spec fn scan_named(
    dir: Seq<u8>,
    child: DriveFile,
    safe: Seq<char>,
    stats: StatsView,
    notices: Seq<NoticeView>,
) -> ScanView {
    if child.is_shortcut {
        match config::shortcut_target(child) {
            Some(id) => ScanView {
                stats: stats.with_pending(
                    PendingShortcutView {
                        name: safe,
                        target_id: id,
                        target_mime: drive::text_of(
                            child.shortcut_details->Some_0.target_mime_type,
                        ),
                        local_dir: dir,
                    },
                ),
                notices: notices.push(NoticeView::Info(shortcut_found_line(safe))),
                next: NextView::Settled,
            },
            None => ScanView { stats, notices, next: NextView::Settled },
        }
    } else if child.is_directory {
        ScanView { stats, notices, next: NextView::Enter(paths::joined(dir, encode_utf8(safe))) }
    } else if child.is_binary {
        ScanView { stats, notices, next: NextView::Probe(paths::joined(dir, encode_utf8(safe))) }
    } else {
        match child.doc_type {
            Some(doc) => ScanView {
                stats,
                notices,
                next: NextView::Export(
                    paths::joined(dir, encode_utf8(safe + "."@ + doc.extension@)),
                ),
            },
            None => if child.is_google_apps_type {
                let warning = skip_warning(
                    drive::text_or(child.name, Seq::empty()),
                    drive::text_or(child.mime_type, "unknown"@),
                );
                ScanView {
                    stats: stats.warned(warning),
                    notices: notices.push(steps::warning_line(warning)),
                    next: NextView::Settled,
                }
            } else {
                ScanView { stats, notices, next: NextView::Settled }
            },
        }
    }
}

/// What the first look at the child of the directory `dir` comes to.
pub open spec fn scan(dir: Seq<u8>, child: DriveFile, stats: StatsView) -> ScanView {
    match child.name {
        None => ScanView { stats, notices: Seq::empty(), next: NextView::Unnamed },
        Some(name) => if filename::is_too_long(name@) {
            let warning = cut_warning(name@);
            scan_named(
                dir,
                child,
                filename::sanitized(name@),
                stats.warned(warning),
                seq![steps::warning_line(warning)],
            )
        } else {
            scan_named(dir, child, filename::sanitized(name@), stats, Seq::empty())
        },
    }
}

/// Takes the first look at the child of the directory `dir`.
pub fn scan_child(dir: &PathBuf, child: &DriveFile, stats: &mut DownloadStats) -> (scanned: (
    Vec<Notice>,
    Next,
))
    requires
        child.name matches Some(name) ==> filename::can_be_sanitized(name@),
    ensures
        (ScanView {
            stats: final(stats)@,
            notices: scanned.0@.map_values(|notice: Notice| notice@),
            next: scanned.1@,
        }) == scan(paths::path_bytes(*dir), *child, old(stats)@),
{
    let mut notices: Vec<Notice> = Vec::new();
    let name = match &child.name {
        None => {
            assert(notices@.map_values(|notice: Notice| notice@) =~= Seq::<NoticeView>::empty());
            return (notices, Next::Unnamed);
        },
        Some(name) => name,
    };
    let (safe, cut) = filename::sanitize_filename(name);
    if cut {
        let warning = text::concat5("Filename truncated: '", name, "' -> '", &safe, "'");
        notices.push(steps::warning_notice(&warning));
        stats.warn(warning);
    }
    let ghost noted = notices@.map_values(|notice: Notice| notice@);
    let ghost counted = stats@;
    assert(noted =~= if cut {
        seq![steps::warning_line(cut_warning(name@))]
    } else {
        Seq::<NoticeView>::empty()
    });
    if child.is_shortcut {
        if let Some(details) = &child.shortcut_details {
            if let Some(target_id) = &details.target_id {
                notices.push(
                    Notice::Info(
                        text::concat3(
                            "Found shortcut '",
                            &safe,
                            "', will process after download",
                        ),
                    ),
                );
                stats.add_pending(
                    PendingShortcut {
                        name: safe,
                        target_id: target_id.clone(),
                        target_mime: drive::copy_text(&details.target_mime_type),
                        local_dir: dir.clone(),
                    },
                );
                assert(notices@.map_values(|notice: Notice| notice@) =~= noted.push(
                    NoticeView::Info(shortcut_found_line(filename::sanitized(name@))),
                ));
            }
        }
        return (notices, Next::Settled);
    }
    if child.is_directory {
        return (notices, Next::Enter(paths::join_name(dir, &safe)));
    }
    if child.is_binary {
        return (notices, Next::Probe(paths::join_name(dir, &safe)));
    }
    if let Some(doc) = &child.doc_type {
        let export_name = text::concat3(&safe, ".", &doc.extension);
        return (notices, Next::Export(paths::join_name(dir, &export_name)));
    }
    if child.is_google_apps_type {
        let mime = drive::copy_text_or(&child.mime_type, "unknown");
        let warning = text::concat5(
            "Skipping '",
            name,
            "' (unsupported Google Apps type: ",
            &mime,
            ")",
        );
        notices.push(steps::warning_notice(&warning));
        assert(notices@.map_values(|notice: Notice| notice@) =~= noted.push(
            steps::warning_line(warning@),
        ));
        stats.warn(warning);
    }
    (notices, Next::Settled)
}

/// Whether `name` names neither nothing, nor the directory that it is looked up in, nor the one
/// above that.
pub open spec fn is_proper(name: Seq<char>) -> bool {
    name.len() > 0 && name != "."@ && name != ".."@
}

/// Whether `path` is an entry of the directory `dir`: one proper name joined to it, without a
/// slash and not too long.
pub open spec fn is_entry_of(dir: Seq<u8>, path: Seq<u8>) -> bool {
    exists|name: Seq<char>|
        {
            &&& is_proper(name)
            &&& !name.contains('/')
            &&& text::utf8_len(name) <= filename::MAX_FILENAME_BYTES
            &&& path == paths::joined(dir, #[trigger] encode_utf8(name))
        }
}

/// A directory or a file with contents becomes an entry of the directory that it is listed in,
/// whatever its owner called it, as long as that leaves a proper name.
pub proof fn law_children_become_entries(dir: Seq<u8>, child: DriveFile, stats: StatsView)
    requires
        child.name matches Some(name) ==> filename::can_be_sanitized(name@) && is_proper(
            filename::sanitized(name@),
        ),
    ensures
        scan(dir, child, stats).next matches NextView::Enter(path) ==> is_entry_of(dir, path),
        scan(dir, child, stats).next matches NextView::Probe(path) ==> is_entry_of(dir, path),
{
    if let Some(name) = child.name {
        filename::law_sanitized_name_fits(name@);
        filename::law_sanitized_name_has_no_slash(name@);
    }
}

/// What is to be done about a file goes by what it is. A shortcut is settled for now, a directory
/// is entered, a file with contents is looked up, and a document is exported; of these, what
/// stands first counts. All go below the directory that they are listed in, under the sanitized
/// name. The name of a document has a dot behind that, and the extension of its own kind. A file
/// without a name is an error, and anything else is settled.
pub proof fn law_file_goes_by_what_it_is(dir: Seq<u8>, child: DriveFile, stats: StatsView)
    ensures
        ({
            let next = scan(dir, child, stats).next;
            let safe = filename::sanitized(child.name->Some_0@);
            &&& next is Unnamed <==> child.name is None
            &&& child.name is Some ==> if child.is_shortcut {
                next is Settled
            } else if child.is_directory {
                next == NextView::Enter(paths::joined(dir, encode_utf8(safe)))
            } else if child.is_binary {
                next == NextView::Probe(paths::joined(dir, encode_utf8(safe)))
            } else {
                match child.doc_type {
                    Some(doc) => exists|name: Seq<char>|
                        {
                            &&& next == NextView::Export(
                                paths::joined(dir, #[trigger] encode_utf8(name)),
                            )
                            &&& name.len() == safe.len() + 1 + doc.extension@.len()
                            &&& name.take(safe.len() as int) == safe
                            &&& name[safe.len() as int] == '.'
                            &&& name.skip(safe.len() as int + 1) == doc.extension@
                        },
                    None => next is Settled,
                }
            }
        }),
{
    if child.name is Some && !child.is_shortcut && !child.is_directory && !child.is_binary {
        if let Some(doc) = child.doc_type {
            let safe = filename::sanitized(child.name->Some_0@);
            reveal_strlit(".");
            let name = safe + "."@ + doc.extension@;
            assert(name.take(safe.len() as int) =~= safe);
            assert(name.skip(safe.len() as int + 1) =~= doc.extension@);
            assert(scan(dir, child, stats).next == NextView::Export(
                paths::joined(dir, encode_utf8(name)),
            ));
        }
    }
}

/// Documents of one name and of kinds that have different extensions are exported under
/// different names.
pub proof fn law_kinds_of_documents_are_kept_apart(
    dir: Seq<u8>,
    one: DriveFile,
    other: DriveFile,
    stats: StatsView,
    later: StatsView,
)
    requires
        one.name is Some && other.name is Some,
        one.name->Some_0@ == other.name->Some_0@,
        scan(dir, one, stats).next is Export,
        scan(dir, other, later).next is Export,
        one.doc_type->Some_0.extension@ != other.doc_type->Some_0.extension@,
    ensures
        exists|first: Seq<char>, second: Seq<char>|
            #![trigger encode_utf8(first), encode_utf8(second)]
            {
                &&& scan(dir, one, stats).next == NextView::Export(
                    paths::joined(dir, encode_utf8(first)),
                )
                &&& scan(dir, other, later).next == NextView::Export(
                    paths::joined(dir, encode_utf8(second)),
                )
                &&& first != second
                &&& encode_utf8(first) != encode_utf8(second)
            },
{
    law_file_goes_by_what_it_is(dir, one, stats);
    law_file_goes_by_what_it_is(dir, other, later);
    let safe = filename::sanitized(one.name->Some_0@);
    let (kind, sort) = (one.doc_type->Some_0, other.doc_type->Some_0);
    let first = choose|name: Seq<char>|
        {
            &&& scan(dir, one, stats).next == NextView::Export(
                paths::joined(dir, #[trigger] encode_utf8(name)),
            )
            &&& name.len() == safe.len() + 1 + kind.extension@.len()
            &&& name.take(safe.len() as int) == safe
            &&& name[safe.len() as int] == '.'
            &&& name.skip(safe.len() as int + 1) == kind.extension@
        };
    let second = choose|name: Seq<char>|
        {
            &&& scan(dir, other, later).next == NextView::Export(
                paths::joined(dir, #[trigger] encode_utf8(name)),
            )
            &&& name.len() == safe.len() + 1 + sort.extension@.len()
            &&& name.take(safe.len() as int) == safe
            &&& name[safe.len() as int] == '.'
            &&& name.skip(safe.len() as int + 1) == sort.extension@
        };
    encode_utf8_decode_utf8(first);
    encode_utf8_decode_utf8(second);
}

/// What is noted of a file. A shortcut that names its target is put behind those that were found
/// before, with its sanitized name, the target, the media type of the target and the directory
/// that it is listed in; nothing else is, and a first look counts and places nothing. A name that
/// is cut is warned of with both names. So is a file of the service's own that is no shortcut, no
/// directory, has no contents and is not exported. Each warning is shown as one.
pub proof fn law_first_look_notes_what_it_finds(dir: Seq<u8>, child: DriveFile, stats: StatsView)
    requires
        child.name is Some,
    ensures
        ({
            let seen = scan(dir, child, stats);
            let name = child.name->Some_0@;
            let safe = filename::sanitized(name);
            let cut = if filename::is_too_long(name) {
                seq!["Filename truncated: '"@ + name + "' -> '"@ + safe + "'"@]
            } else {
                Seq::<Seq<char>>::empty()
            };
            let plain = !child.is_shortcut && !child.is_directory && !child.is_binary
                && child.doc_type is None;
            let skipped = if plain && child.is_google_apps_type {
                let mime = match child.mime_type {
                    Some(mime) => mime@,
                    None => "unknown"@,
                };
                seq!["Skipping '"@ + name + "' (unsupported Google Apps type: "@ + mime + ")"@]
            } else {
                Seq::<Seq<char>>::empty()
            };
            let target = match child.shortcut_details {
                Some(details) => match details.target_id {
                    Some(id) => Some((id@, details.target_mime_type)),
                    None => None,
                },
                None => None,
            };
            let found = child.is_shortcut && target is Some;
            &&& seen.stats.file_count == stats.file_count
            &&& seen.stats.folder_count == stats.folder_count
            &&& seen.stats.total_file_size == stats.total_file_size
            &&& seen.stats.downloaded_files == stats.downloaded_files
            &&& seen.stats.warnings == stats.warnings + cut + skipped
            &&& !found ==> seen.stats.pending_shortcuts == stats.pending_shortcuts
            &&& found ==> {
                let last = seen.stats.pending_shortcuts.last();
                &&& seen.stats.pending_shortcuts.drop_last() == stats.pending_shortcuts
                &&& seen.stats.pending_shortcuts.len() == stats.pending_shortcuts.len() + 1
                &&& last.name == safe
                &&& last.target_id == target->Some_0.0
                &&& last.target_mime is Some == target->Some_0.1 is Some
                &&& target->Some_0.1 matches Some(mime) ==> last.target_mime == Some(mime@)
                &&& last.local_dir == dir
            }
            &&& seen.notices == (cut + skipped).map_values(
                |warning: Seq<char>| NoticeView::Warning("Warning: "@ + warning),
            ) + if found {
                seq![
                    NoticeView::Info(
                        "Found shortcut '"@ + safe + "', will process after download"@,
                    ),
                ]
            } else {
                Seq::<NoticeView>::empty()
            }
        }),
{
    let seen = scan(dir, child, stats);
    let name = child.name->Some_0@;
    let safe = filename::sanitized(name);
    let cut = if filename::is_too_long(name) {
        seq!["Filename truncated: '"@ + name + "' -> '"@ + safe + "'"@]
    } else {
        Seq::<Seq<char>>::empty()
    };
    let plain = !child.is_shortcut && !child.is_directory && !child.is_binary && child.doc_type
        is None;
    let skipped = if plain && child.is_google_apps_type {
        let mime = match child.mime_type {
            Some(mime) => mime@,
            None => "unknown"@,
        };
        seq!["Skipping '"@ + name + "' (unsupported Google Apps type: "@ + mime + ")"@]
    } else {
        Seq::<Seq<char>>::empty()
    };
    assert(seen.stats.warnings =~= stats.warnings + cut + skipped);
    let shown = (cut + skipped).map_values(
        |warning: Seq<char>| NoticeView::Warning("Warning: "@ + warning),
    );
    if child.is_shortcut && config::shortcut_target(child) is Some {
        assert(seen.stats.pending_shortcuts.drop_last() =~= stats.pending_shortcuts);
        assert(seen.notices =~= shown + seq![
            NoticeView::Info("Found shortcut '"@ + safe + "', will process after download"@),
        ]);
    } else {
        assert(seen.notices =~= shown + Seq::<NoticeView>::empty());
    }
}

/// A file without a name changes nothing and shows nothing. What is to be done is seen as it is.
pub proof fn law_nothing_is_done_without_a_name(
    dir: Seq<u8>,
    child: DriveFile,
    stats: StatsView,
    next: Next,
)
    ensures
        child.name is None ==> scan(dir, child, stats).stats == stats && scan(
            dir,
            child,
            stats,
        ).notices.len() == 0,
        next is Unnamed ==> next@ == NextView::Unnamed,
        next is Settled ==> next@ == NextView::Settled,
        next matches Next::Enter(path) ==> next@ == NextView::Enter(paths::path_bytes(path)),
        next matches Next::Probe(path) ==> next@ == NextView::Probe(paths::path_bytes(path)),
        next matches Next::Export(path) ==> next@ == NextView::Export(paths::path_bytes(path)),
{
}

} // verus!
