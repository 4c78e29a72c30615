//! What a directory download has done so far.

use crate::drive;
use crate::paths;
use std::path::PathBuf;
use vstd::hash_map::StringHashMap;
use vstd::prelude::*;

verus! {

/// A shortcut that is dealt with once all files are there.
pub struct PendingShortcut {
    /// The name that it has on disk.
    pub name: String,
    /// The id of its target.
    pub target_id: String,
    /// The media type of its target.
    pub target_mime: Option<String>,
    /// The directory that it lives in, relative to the destination.
    pub local_dir: PathBuf,
}

/// What a [`PendingShortcut`] holds.
pub struct PendingShortcutView {
    pub name: Seq<char>,
    pub target_id: Seq<char>,
    pub target_mime: Option<Seq<char>>,
    pub local_dir: Seq<u8>,
}

impl View for PendingShortcut {
    type V = PendingShortcutView;

    open spec fn view(&self) -> PendingShortcutView {
        PendingShortcutView {
            name: self.name@,
            target_id: self.target_id@,
            target_mime: drive::text_of(self.target_mime),
            local_dir: paths::path_bytes(self.local_dir),
        }
    }
}

impl PendingShortcut {
    /// Copies the shortcut.
    pub(crate) fn copy(&self) -> (shortcut: PendingShortcut)
        ensures
            shortcut@ == self@,
    {
        PendingShortcut {
            name: self.name.clone(),
            target_id: self.target_id.clone(),
            target_mime: drive::copy_text(&self.target_mime),
            local_dir: self.local_dir.clone(),
        }
    }
}

/// What a directory download has done so far.
pub struct DownloadStats {
    /// The number of files that were written.
    pub file_count: u64,
    /// The number of directories that were created.
    pub folder_count: u64,
    /// The size of the files that were written, in bytes.
    pub total_file_size: u64,
    /// What did not go as it should.
    pub warnings: Vec<String>,
    /// Where each file is, by its id; relative to the destination.
    pub downloaded_files: StringHashMap<PathBuf>,
    /// The shortcuts that were found.
    pub pending_shortcuts: Vec<PendingShortcut>,
}

/// What [`DownloadStats`] hold.
#[verifier::ext_equal]
pub struct StatsView {
    pub file_count: int,
    pub folder_count: int,
    pub total_file_size: int,
    pub warnings: Seq<Seq<char>>,
    pub downloaded_files: Map<Seq<char>, Seq<u8>>,
    pub pending_shortcuts: Seq<PendingShortcutView>,
}

impl View for DownloadStats {
    type V = StatsView;

    open spec fn view(&self) -> StatsView {
        StatsView {
            file_count: self.file_count as int,
            folder_count: self.folder_count as int,
            total_file_size: self.total_file_size as int,
            warnings: self.warnings@.map_values(|warning: String| warning@),
            downloaded_files: self.downloaded_files@.map_values(
                |path: PathBuf| paths::path_bytes(path),
            ),
            pending_shortcuts: self.pending_shortcuts@.map_values(
                |shortcut: PendingShortcut| shortcut@,
            ),
        }
    }
}

impl StatsView {
    /// Nothing done.
    pub open spec fn empty() -> StatsView {
        StatsView {
            file_count: 0,
            folder_count: 0,
            total_file_size: 0,
            warnings: Seq::empty(),
            downloaded_files: Map::empty(),
            pending_shortcuts: Seq::empty(),
        }
    }

    /// With one more warning.
    pub open spec fn warned(self, warning: Seq<char>) -> StatsView {
        StatsView { warnings: self.warnings.push(warning), ..self }
    }

    /// With one more directory.
    pub open spec fn with_folder(self) -> StatsView {
        StatsView { folder_count: self.folder_count + 1, ..self }
    }

    /// With one more file of `size` bytes.
    pub open spec fn with_file(self, size: int) -> StatsView {
        StatsView {
            file_count: self.file_count + 1,
            total_file_size: self.total_file_size + size,
            ..self
        }
    }

    /// With the place of the file that has this id, if it has one.
    pub open spec fn located(self, id: Option<Seq<char>>, path: Seq<u8>) -> StatsView {
        match id {
            Some(key) => StatsView {
                downloaded_files: self.downloaded_files.insert(key, path),
                ..self
            },
            None => self,
        }
    }

    /// The bytes of the path at which the file that has this id is, if it is there.
    pub open spec fn location_of(self, id: Seq<char>) -> Option<Seq<u8>> {
        if self.downloaded_files.contains_key(id) {
            Some(self.downloaded_files[id])
        } else {
            None
        }
    }

    /// With one more shortcut.
    pub open spec fn with_pending(self, shortcut: PendingShortcutView) -> StatsView {
        StatsView { pending_shortcuts: self.pending_shortcuts.push(shortcut), ..self }
    }
}

impl Default for DownloadStats {
    fn default() -> (stats: DownloadStats)
        ensures
            stats@ == StatsView::empty(),
    {
        let stats = DownloadStats {
            file_count: 0,
            folder_count: 0,
            total_file_size: 0,
            warnings: Vec::new(),
            downloaded_files: StringHashMap::new(),
            pending_shortcuts: Vec::new(),
        };
        assert(stats@ =~= StatsView::empty());
        stats
    }
}

impl DownloadStats {
    /// Adds a warning.
    pub fn warn(&mut self, warning: String)
        ensures
            final(self)@ == old(self)@.warned(warning@),
    {
        self.warnings.push(warning);
        assert(self@ =~= old(self)@.warned(warning@));
    }

    /// Counts a directory.
    pub fn count_folder(&mut self)
        requires
            old(self).folder_count < u64::MAX,
        ensures
            final(self)@ == old(self)@.with_folder(),
    {
        self.folder_count = self.folder_count + 1;
    }

    /// Counts a file of `size` bytes.
    pub fn count_file(&mut self, size: u64)
        requires
            old(self).file_count < u64::MAX,
            old(self).total_file_size + size <= u64::MAX,
        ensures
            final(self)@ == old(self)@.with_file(size as int),
    {
        self.file_count = self.file_count + 1;
        self.total_file_size = self.total_file_size + size;
    }

    /// Notes where the file that has this id is, if it has one.
    pub fn locate(&mut self, id: &Option<String>, path: &PathBuf)
        ensures
            final(self)@ == old(self)@.located(drive::text_of(*id), paths::path_bytes(*path)),
    {
        match id {
            Some(key) => {
                self.downloaded_files.insert(key.clone(), path.clone());
            },
            None => {},
        }
        assert(self@ =~= old(self)@.located(drive::text_of(*id), paths::path_bytes(*path)));
    }

    /// Adds a shortcut to deal with later.
    pub fn add_pending(&mut self, shortcut: PendingShortcut)
        ensures
            final(self)@ == old(self)@.with_pending(shortcut@),
    {
        self.pending_shortcuts.push(shortcut);
        assert(self@ =~= old(self)@.with_pending(shortcut@));
    }

    /// Takes out the shortcuts to deal with, in the order in which they were found.
    pub fn take_pending(&mut self) -> (shortcuts: Vec<PendingShortcut>)
        ensures
            shortcuts@ == old(self).pending_shortcuts@,
            final(self)@ == (StatsView { pending_shortcuts: Seq::empty(), ..old(self)@ }),
    {
        let mut shortcuts: Vec<PendingShortcut> = Vec::new();
        std::mem::swap(&mut shortcuts, &mut self.pending_shortcuts);
        assert(self@ =~= (StatsView { pending_shortcuts: Seq::empty(), ..old(self)@ }));
        shortcuts
    }

    /// Where the file that has this id is, relative to the destination, if it is there.
    pub fn location(&self, id: &str) -> (path: Option<PathBuf>)
        ensures
            path is Some == self@.location_of(id@) is Some,
            path matches Some(place) ==> Some(paths::path_bytes(place)) == self@.location_of(id@),
    {
        match self.downloaded_files.get(id) {
            Some(path) => Some(path.clone()),
            None => None,
        }
    }
}

/// Counting counts: each count changes by what is counted, and nothing else changes.
pub proof fn law_counting_changes_only_the_counts(stats: StatsView, size: int)
    ensures
        stats.with_folder().folder_count == stats.folder_count + 1,
        stats.with_folder() == (StatsView {
            folder_count: stats.with_folder().folder_count,
            ..stats
        }),
        stats.with_file(size).file_count == stats.file_count + 1,
        stats.with_file(size).total_file_size == stats.total_file_size + size,
        stats.with_file(size) == (StatsView {
            file_count: stats.with_file(size).file_count,
            total_file_size: stats.with_file(size).total_file_size,
            ..stats
        }),
{
}

/// What is noted comes last, behind all that was noted before, and nothing else changes.
pub proof fn law_notes_are_kept_in_order(
    stats: StatsView,
    warning: Seq<char>,
    shortcut: PendingShortcutView,
)
    ensures
        stats.warned(warning).warnings.drop_last() == stats.warnings,
        stats.warned(warning).warnings.last() == warning,
        stats.warned(warning) == (StatsView {
            warnings: stats.warned(warning).warnings,
            ..stats
        }),
        stats.with_pending(shortcut).pending_shortcuts.drop_last() == stats.pending_shortcuts,
        stats.with_pending(shortcut).pending_shortcuts.last() == shortcut,
        stats.with_pending(shortcut) == (StatsView {
            pending_shortcuts: stats.with_pending(shortcut).pending_shortcuts,
            ..stats
        }),
{
    assert(stats.warned(warning).warnings.drop_last() =~= stats.warnings);
    assert(stats.with_pending(shortcut).pending_shortcuts.drop_last()
        =~= stats.pending_shortcuts);
}

/// A file is found where it was placed: by its id the place that was noted last, by any other
/// what was there before. A file without an id is not noted.
pub proof fn law_files_are_found_where_they_were_placed(
    stats: StatsView,
    id: Option<Seq<char>>,
    path: Seq<u8>,
    other: Seq<char>,
)
    ensures
        id matches Some(key) ==> stats.located(id, path).location_of(key) == Some(path),
        id != Some(other) ==> stats.located(id, path).location_of(other) == stats.location_of(
            other,
        ),
        id is None ==> stats.located(id, path) == stats,
        stats.located(id, path) == (StatsView {
            downloaded_files: stats.located(id, path).downloaded_files,
            ..stats
        }),
        stats.location_of(other) is Some <==> stats.downloaded_files.contains_key(other),
        stats.location_of(other) is Some ==> stats.location_of(other) == Some(
            stats.downloaded_files[other],
        ),
{
}

/// At the start nothing has been done.
pub proof fn law_nothing_has_been_done_at_the_start()
    ensures
        ({
            let stats = StatsView::empty();
            &&& stats.file_count == 0 && stats.folder_count == 0 && stats.total_file_size == 0
            &&& stats.warnings.len() == 0 && stats.pending_shortcuts.len() == 0
            &&& forall|id: Seq<char>| !stats.downloaded_files.contains_key(id)
        }),
{
}

/// The statistics are seen as they are.
pub proof fn law_statistics_are_seen_as_they_are(stats: DownloadStats)
    ensures
        stats@.file_count == stats.file_count,
        stats@.folder_count == stats.folder_count,
        stats@.total_file_size == stats.total_file_size,
        stats@.warnings.len() == stats.warnings@.len(),
        forall|i: int|
            0 <= i < stats.warnings@.len() ==> #[trigger] stats@.warnings[i]
                == stats.warnings@[i]@,
        stats@.pending_shortcuts.len() == stats.pending_shortcuts@.len(),
        forall|i: int|
            0 <= i < stats.pending_shortcuts@.len() ==> {
                let (seen, shortcut) = (
                    #[trigger] stats@.pending_shortcuts[i],
                    stats.pending_shortcuts@[i],
                );
                &&& seen.name == shortcut.name@
                &&& seen.target_id == shortcut.target_id@
                &&& seen.target_mime is Some == shortcut.target_mime is Some
                &&& shortcut.target_mime matches Some(mime) ==> seen.target_mime == Some(mime@)
                &&& seen.local_dir == paths::path_bytes(shortcut.local_dir)
            },
        forall|id: Seq<char>|
            #![trigger stats@.downloaded_files.contains_key(id)]
            stats@.downloaded_files.contains_key(id) == stats.downloaded_files@.contains_key(id)
                && (stats.downloaded_files@.contains_key(id) ==> stats@.downloaded_files[id]
                == paths::path_bytes(stats.downloaded_files@[id])),
{
}

} // verus!
