//! The walk through a directory of the service: depth first, one file after the other.
//!
//! The walk does nothing by itself. It asks for one thing after another to be done and decides,
//! by what comes of it, what is next.

use crate::drive;
use crate::drive::DriveFile;
use crate::error::{Error, ErrorView};
use crate::filename;
use crate::paths;
use crate::scan;
use crate::scan::{Next, NextView, ScanView};
use crate::stats::{DownloadStats, StatsView};
use crate::steps;
use crate::steps::{Event, Notice, NoticeView, Request, RequestView, Step, StepView};
use crate::text;
use std::path::PathBuf;
use vstd::prelude::*;
use vstd::utf8::*;

verus! {

/// A directory that is being walked through.
struct Frame {
    dir: PathBuf,
    children: Vec<DriveFile>,
    next: usize,
}

/// What a directory that is being walked through holds.
#[verifier::ext_equal]
pub struct FrameView {
    /// Its path, relative to the destination.
    pub dir: Seq<u8>,
    /// What is in it.
    pub children: Seq<DriveFile>,
    /// The position of the child that is dealt with next.
    pub next: int,
}

impl View for Frame {
    type V = FrameView;

    closed spec fn view(&self) -> FrameView {
        FrameView {
            dir: paths::path_bytes(self.dir),
            children: self.children@,
            next: self.next as int,
        }
    }
}

/// What a walk waits for. Paths are relative to the destination.
enum Phase {
    Creating { id: Option<String>, dir: PathBuf },
    Listing { dir: PathBuf },
    Scanning,
    Probing { path: PathBuf },
    Fetching { path: PathBuf },
    Storing { path: PathBuf },
    Exporting { path: PathBuf },
    StoringExport { path: PathBuf },
    Ended,
}

/// What a walk waits for.
pub enum PhaseView {
    /// The creation of the directory that has this id.
    Creating { id: Option<Seq<char>>, dir: Seq<u8> },
    /// The list of what is in the directory.
    Listing { dir: Seq<u8> },
    /// A look at the next child of the innermost directory.
    Scanning,
    /// The checksum of the file that the child would go to.
    Probing { path: Seq<u8> },
    /// The contents of the child.
    Fetching { path: Seq<u8> },
    /// The end of saving them.
    Storing { path: Seq<u8> },
    /// The child in an office format.
    Exporting { path: Seq<u8> },
    /// The end of saving that.
    StoringExport { path: Seq<u8> },
    /// Nothing any more.
    Ended,
}

impl View for Phase {
    type V = PhaseView;

    closed spec fn view(&self) -> PhaseView {
        match *self {
            Phase::Creating { id, dir } => PhaseView::Creating {
                id: drive::text_of(id),
                dir: paths::path_bytes(dir),
            },
            Phase::Listing { dir } => PhaseView::Listing { dir: paths::path_bytes(dir) },
            Phase::Scanning => PhaseView::Scanning,
            Phase::Probing { path } => PhaseView::Probing { path: paths::path_bytes(path) },
            Phase::Fetching { path } => PhaseView::Fetching { path: paths::path_bytes(path) },
            Phase::Storing { path } => PhaseView::Storing { path: paths::path_bytes(path) },
            Phase::Exporting { path } => PhaseView::Exporting { path: paths::path_bytes(path) },
            Phase::StoringExport { path } => PhaseView::StoringExport {
                path: paths::path_bytes(path),
            },
            Phase::Ended => PhaseView::Ended,
        }
    }
}

/// A walk under way.
pub struct Walk {
    root: PathBuf,
    frames: Vec<Frame>,
    phase: Phase,
}

/// What a [`Walk`] holds.
#[verifier::ext_equal]
pub struct WalkView {
    /// The canonical path of the destination.
    pub root: Seq<u8>,
    /// The directories that are being walked through, the innermost last.
    pub frames: Seq<FrameView>,
    /// What the walk waits for.
    pub phase: PhaseView,
}

impl View for Walk {
    type V = WalkView;

    closed spec fn view(&self) -> WalkView {
        WalkView {
            root: paths::path_bytes(self.root),
            frames: self.frames@.map_values(|frame: Frame| frame@),
            phase: self.phase@,
        }
    }
}

impl WalkView {
    /// Whether there is a child to deal with in the innermost directory.
    pub open spec fn has_child(self) -> bool {
        self.frames.len() > 0 && 0 <= self.frames.last().next < self.frames.last().children.len()
    }

    /// The child to deal with in the innermost directory.
    pub open spec fn child(self) -> DriveFile {
        self.frames.last().children[self.frames.last().next]
    }

    /// Whether a walk can be like this: the places in its directories exist, and where it deals
    /// with a child, there is one.
    pub open spec fn wf(self) -> bool {
        &&& forall|i: int|
            0 <= i < self.frames.len() ==> 0 <= (#[trigger] self.frames[i]).next
                <= self.frames[i].children.len()
        &&& match self.phase {
            PhaseView::Probing { .. }
            | PhaseView::Fetching { .. }
            | PhaseView::Storing { .. } => self.has_child(),
            PhaseView::Exporting { .. } | PhaseView::StoringExport { .. } => self.has_child()
                && self.child().doc_type is Some,
            _ => true,
        }
    }

    /// This walk in another phase.
    pub open spec fn in_phase(self, phase: PhaseView) -> WalkView {
        WalkView { phase, ..self }
    }

    /// This walk with the next child to deal with.
    pub open spec fn past_child(self) -> WalkView {
        let top = self.frames.last();
        WalkView {
            frames: self.frames.drop_last().push(FrameView { next: top.next + 1, ..top }),
            ..self
        }
    }

    /// This walk once the child has been dealt with.
    pub open spec fn child_done(self) -> WalkView {
        self.past_child().in_phase(PhaseView::Scanning)
    }
}

/// The step that asks for the directory `dir` to be created, after `notices`.
pub open spec fn entering(root: Seq<u8>, dir: Seq<u8>, notices: Seq<NoticeView>) -> StepView {
    StepView {
        notices: notices.push(
            NoticeView::Info("Creating directory "@ + paths::shown_path(dir)),
        ),
        request: RequestView::CreateDirectory(paths::joined(root, dir)),
    }
}

/// A walk that is about to start on the directory `dir`, which has this id.
pub open spec fn started(root: Seq<u8>, id: Option<Seq<char>>, dir: Seq<u8>) -> WalkView {
    WalkView { root, frames: Seq::empty(), phase: PhaseView::Creating { id, dir } }
}

/// The warning that an export failed.
pub open spec fn export_warning(path: Seq<u8>, report: Seq<char>) -> Seq<char> {
    "Failed to export '"@ + paths::shown_path(path) + "': "@ + report
}

/// Whether the file on disk, if there is one, is the file of the service already.
pub open spec fn is_up_to_date(child: DriveFile, existing: Option<String>) -> bool {
    &&& existing matches Some(md5)
    &&& child.md5_checksum matches Some(expected)
    &&& expected@ == md5@
}

/// The walk, what it has done, and its next step after a look at the next child, or at the end
/// of the innermost directory.
pub open spec fn scan_step(walk: WalkView, stats: StatsView) -> (WalkView, StatsView, StepView) {
    if walk.frames.len() == 0 {
        (walk.in_phase(PhaseView::Ended), stats, steps::silent(RequestView::Finish(Ok(()))))
    } else if !walk.has_child() {
        (
            WalkView { frames: walk.frames.drop_last(), ..walk },
            stats,
            steps::silent(RequestView::Continue),
        )
    } else {
        let child = walk.child();
        let seen = scan::scan(walk.frames.last().dir, child, stats);
        match seen.next {
            NextView::Unnamed => (
                walk.in_phase(PhaseView::Ended),
                seen.stats,
                StepView {
                    notices: seen.notices,
                    request: RequestView::Finish(Err(ErrorView::MissingFileName)),
                },
            ),
            NextView::Settled => (
                walk.child_done(),
                seen.stats,
                StepView { notices: seen.notices, request: RequestView::Continue },
            ),
            NextView::Enter(dir) => (
                walk.past_child().in_phase(
                    PhaseView::Creating { id: drive::text_of(child.id), dir },
                ),
                seen.stats,
                entering(walk.root, dir, seen.notices),
            ),
            NextView::Probe(path) => (
                walk.in_phase(PhaseView::Probing { path }),
                seen.stats,
                StepView {
                    notices: seen.notices,
                    request: RequestView::ProbeFile(paths::joined(walk.root, path)),
                },
            ),
            NextView::Export(path) => (
                walk.in_phase(PhaseView::Exporting { path }),
                seen.stats,
                StepView {
                    notices: seen.notices,
                    request: RequestView::ExportFile {
                        id: drive::text_or(child.id, Seq::empty()),
                        mime: child.doc_type->Some_0.export_mime@,
                    },
                },
            ),
        }
    }
}

/// The walk, what it has done, and its next step after `event`.
pub open spec fn walk_step(walk: WalkView, stats: StatsView, event: Event) -> (
    WalkView,
    StatsView,
    StepView,
) {
    let child = walk.child();
    let done = walk.child_done();
    let ended = walk.in_phase(PhaseView::Ended);
    let go_on = steps::silent(RequestView::Continue);
    match (walk.phase, event) {
        (PhaseView::Creating { dir, .. }, Event::DirectoryCreated(Err(report))) => (
            ended,
            stats,
            steps::failed(ErrorView::CreateDirectory(paths::joined(walk.root, dir), report@)),
        ),
        (PhaseView::Creating { id, dir }, Event::DirectoryCreated(Ok(_))) => match id {
            Some(key) => (
                walk.in_phase(PhaseView::Listing { dir }),
                stats.with_folder(),
                steps::silent(RequestView::ListFolder(key)),
            ),
            None => (ended, stats.with_folder(), steps::failed(ErrorView::MissingFileName)),
        },
        (PhaseView::Listing { .. }, Event::Listed(Err(report))) => (
            ended,
            stats,
            steps::failed(ErrorView::ListFiles(report@)),
        ),
        (PhaseView::Listing { dir }, Event::Listed(Ok(children))) => (
            WalkView {
                frames: walk.frames.push(FrameView { dir, children: children@, next: 0 }),
                phase: PhaseView::Scanning,
                ..walk
            },
            stats,
            go_on,
        ),
        (PhaseView::Scanning, Event::Continue) => scan_step(walk, stats),
        (PhaseView::Probing { path }, Event::Probed(existing)) => if is_up_to_date(
            child,
            existing,
        ) {
            (done, stats.located(drive::text_of(child.id), path), go_on)
        } else {
            (
                walk.in_phase(PhaseView::Fetching { path }),
                stats,
                steps::silent(
                    RequestView::FetchFile(drive::text_or(child.id, Seq::empty())),
                ),
            )
        },
        (PhaseView::Fetching { .. }, Event::Fetched(Err(report))) => (
            ended,
            stats,
            steps::failed(ErrorView::DownloadFile(report@)),
        ),
        (PhaseView::Fetching { path }, Event::Fetched(Ok(_))) => (
            walk.in_phase(PhaseView::Storing { path }),
            stats,
            steps::noted(
                NoticeView::Info("Downloading file '"@ + paths::shown_path(path) + "'"@),
                RequestView::StoreBody {
                    path: paths::joined(walk.root, path),
                    expected_md5: drive::text_of(child.md5_checksum),
                },
            ),
        ),
        (PhaseView::Storing { path }, Event::Stored(Ok(_))) => (
            done,
            stats.with_file(drive::counted_size(child.size)).located(
                drive::text_of(child.id),
                path,
            ),
            go_on,
        ),
        (PhaseView::Exporting { path }, Event::Exported(Err(report))) => {
            let warning = export_warning(path, report@);
            (
                done,
                stats.warned(warning),
                steps::noted(steps::warning_line(warning), RequestView::Continue),
            )
        },
        (PhaseView::Exporting { path }, Event::Exported(Ok(_))) => (
            walk.in_phase(PhaseView::StoringExport { path }),
            stats,
            steps::noted(
                NoticeView::Info(
                    "Exporting "@ + child.doc_type->Some_0.label@ + " '"@ + paths::shown_path(path)
                        + "'"@,
                ),
                RequestView::StoreBody {
                    path: paths::joined(walk.root, path),
                    expected_md5: None,
                },
            ),
        ),
        (PhaseView::StoringExport { path }, Event::Stored(Ok(_))) => (
            done,
            stats.with_file(0).located(drive::text_of(child.id), path),
            go_on,
        ),
        (_, Event::Stored(Err(error))) => (ended, stats, steps::failed(error@)),
        _ => (walk, stats, go_on),
    }
}

/// Whether `event` is what a walk waits for.
pub open spec fn walk_waits_for(walk: WalkView, event: Event) -> bool {
    match walk.phase {
        PhaseView::Creating { .. } => event is DirectoryCreated,
        PhaseView::Listing { .. } => event is Listed,
        PhaseView::Scanning => event is Continue,
        PhaseView::Probing { .. } => event is Probed,
        PhaseView::Fetching { .. } => event is Fetched,
        PhaseView::Storing { .. } => event is Stored,
        PhaseView::Exporting { .. } => event is Exported,
        PhaseView::StoringExport { .. } => event is Stored,
        PhaseView::Ended => false,
    }
}

/// Whether the counters have room for what a walk counts when `event` comes, and the name that
/// it looks at can be sanitized.
pub open spec fn walk_has_room(walk: WalkView, stats: StatsView, event: Event) -> bool {
    match (walk.phase, event) {
        (PhaseView::Creating { .. }, Event::DirectoryCreated(Ok(_))) => stats.folder_count
            < u64::MAX,
        (PhaseView::Scanning, Event::Continue) => walk.has_child() ==> (walk.child().name matches
            Some(name) ==> filename::can_be_sanitized(name@)),
        (PhaseView::Storing { .. }, Event::Stored(Ok(_))) => {
            &&& stats.file_count < u64::MAX
            &&& stats.total_file_size + drive::counted_size(walk.child().size) <= u64::MAX
        },
        (PhaseView::StoringExport { .. }, Event::Stored(Ok(_))) => stats.file_count < u64::MAX,
        _ => true,
    }
}

/// Whether a walk can take `event`.
pub open spec fn walk_accepts(walk: WalkView, stats: StatsView, event: Event) -> bool {
    walk_waits_for(walk, event) && walk_has_room(walk, stats, event)
}

/// Makes the step that asks for the directory `dir` to be created.
fn entering_step(root: &PathBuf, dir: &PathBuf, notices: Vec<Notice>) -> (step: Step)
    ensures
        step@ == entering(
            paths::path_bytes(*root),
            paths::path_bytes(*dir),
            notices@.map_values(|notice: Notice| notice@),
        ),
{
    let mut notices = notices;
    let ghost before = notices@.map_values(|notice: Notice| notice@);
    notices.push(
        Notice::Info(text::concat2("Creating directory ", &paths::display_path(dir))),
    );
    assert(notices@.map_values(|notice: Notice| notice@) =~= before.push(
        NoticeView::Info("Creating directory "@ + paths::shown_path(paths::path_bytes(*dir))),
    ));
    Step { notices, request: Request::CreateDirectory(paths::join_path(root, dir)) }
}

impl Walk {
    /// Starts on the directory `file`, which goes to the path `dir` below `root`, and tells what
    /// to do first.
    pub fn start(root: &PathBuf, file: &DriveFile, dir: &PathBuf) -> (begun: (Walk, Step))
        ensures
            begun.0@ == started(
                paths::path_bytes(*root),
                drive::text_of(file.id),
                paths::path_bytes(*dir),
            ),
            begun.0@.wf(),
            begun.1@ == entering(
                paths::path_bytes(*root),
                paths::path_bytes(*dir),
                Seq::empty(),
            ),
    {
        let notices: Vec<Notice> = Vec::new();
        assert(notices@.map_values(|notice: Notice| notice@) =~= Seq::<NoticeView>::empty());
        let step = entering_step(root, dir, notices);
        let frames: Vec<Frame> = Vec::new();
        let walk = Walk {
            root: root.clone(),
            frames,
            phase: Phase::Creating { id: drive::copy_text(&file.id), dir: dir.clone() },
        };
        assert(walk@.frames =~= Seq::<FrameView>::empty());
        (walk, step)
    }

    /// The innermost directory and the child to deal with in it.
    fn top(&self) -> (top: (&Frame, &DriveFile))
        requires
            self@.has_child(),
        ensures
            top.0@ == self@.frames.last(),
            *top.1 == self@.child(),
    {
        let frame = &self.frames[self.frames.len() - 1];
        assert(self@.frames.last() == frame@);
        (frame, &frame.children[frame.next])
    }

    /// Goes on to the next child of the innermost directory.
    fn pass_child(&mut self)
        requires
            old(self)@.wf(),
            old(self)@.has_child(),
        ensures
            final(self)@ == old(self)@.past_child(),
            final(self).phase == old(self).phase,
    {
        let ghost before = self@;
        let mut frame = self.frames.pop().unwrap();
        assert(before.frames.last() == frame@);
        assert(frame.next < frame.children.len());
        frame.next = frame.next + 1;
        self.frames.push(frame);
        assert(self@.frames =~= before.past_child().frames);
    }

    /// Goes on once the child has been dealt with.
    fn finish_child(&mut self)
        requires
            old(self)@.wf(),
            old(self)@.has_child(),
        ensures
            final(self)@ == old(self)@.child_done(),
            final(self)@.wf(),
    {
        self.pass_child();
        self.phase = Phase::Scanning;
        proof {
            assert forall|i: int| 0 <= i < self@.frames.len() implies 0 <= (
            #[trigger] self@.frames[i]).next <= self@.frames[i].children.len() by {
                assert(old(self)@.frames[i].next <= old(self)@.frames[i].children.len());
            }
        }
    }

    /// Ends the walk with a failure.
    fn fail(&mut self, error: Error) -> (step: Step)
        requires
            old(self)@.wf(),
        ensures
            final(self)@ == old(self)@.in_phase(PhaseView::Ended),
            final(self)@.wf(),
            step@ == steps::failed(error@),
    {
        self.phase = Phase::Ended;
        steps::silent_step(Request::Finish(Err(error)))
    }

    /// Goes on from the checksum of the file that is at `path` already, if there is one.
    fn probed(
        &mut self,
        stats: &mut DownloadStats,
        path: PathBuf,
        existing: Option<String>,
    ) -> (step: Step)
        requires
            old(self)@.wf(),
            old(self)@.has_child(),
        ensures
            final(self)@.wf(),
            (final(self)@, final(stats)@, step@) == walk_step(
                old(self)@.in_phase(PhaseView::Probing { path: paths::path_bytes(path) }),
                old(stats)@,
                Event::Probed(existing),
            ),
    {
        let child = self.top().1;
        let up_to_date = match (&existing, &child.md5_checksum) {
            (Some(md5), Some(expected)) => *expected == *md5,
            _ => false,
        };
        if up_to_date {
            stats.locate(&child.id, &path);
            self.finish_child();
            steps::silent_step(Request::Continue)
        } else {
            let id = drive::copy_text_or(&child.id, "");
            proof {
                reveal_strlit("");
                assert(""@ =~= Seq::<char>::empty());
            }
            self.phase = Phase::Fetching { path };
            steps::silent_step(Request::FetchFile(id))
        }
    }

    /// Goes on from the export of the child to `path`.
    fn exported(
        &mut self,
        stats: &mut DownloadStats,
        path: PathBuf,
        result: Result<(), String>,
    ) -> (step: Step)
        requires
            old(self)@.wf(),
            old(self)@.has_child(),
            old(self)@.child().doc_type is Some,
        ensures
            final(self)@.wf(),
            (final(self)@, final(stats)@, step@) == walk_step(
                old(self)@.in_phase(PhaseView::Exporting { path: paths::path_bytes(path) }),
                old(stats)@,
                Event::Exported(result),
            ),
    {
        match result {
            Err(report) => {
                let warning = text::concat4(
                    "Failed to export '",
                    &paths::display_path(&path),
                    "': ",
                    &report,
                );
                let notice = steps::warning_notice(&warning);
                stats.warn(warning);
                self.finish_child();
                steps::noted_step(notice, Request::Continue)
            },
            Ok(_) => {
                let label = match &self.top().1.doc_type {
                    Some(doc) => doc.label.clone(),
                    None => String::new(),
                };
                let line = text::concat5(
                    "Exporting ",
                    &label,
                    " '",
                    &paths::display_path(&path),
                    "'",
                );
                let target = paths::join_path(&self.root, &path);
                self.phase = Phase::StoringExport { path };
                steps::noted_step(
                    Notice::Info(line),
                    Request::StoreBody { path: target, expected_md5: None },
                )
            },
        }
    }

    /// Looks at the next child, or leaves the innermost directory where there is none.
    fn scan_next(&mut self, stats: &mut DownloadStats) -> (step: Step)
        requires
            old(self)@.wf(),
            walk_accepts(old(self)@, old(stats)@, Event::Continue),
        ensures
            final(self)@.wf(),
            (final(self)@, final(stats)@, step@) == scan_step(old(self)@, old(stats)@),
    {
        let ghost before = self@;
        if self.frames.len() == 0 {
            self.phase = Phase::Ended;
            return steps::silent_step(Request::Finish(Ok(())));
        }
        let (at, count) = {
            let frame = &self.frames[self.frames.len() - 1];
            assert(before.frames.last() == frame@);
            (frame.next, frame.children.len())
        };
        if at >= count {
            let _ = self.frames.pop();
            assert(self@.frames =~= before.frames.drop_last());
            return steps::silent_step(Request::Continue);
        }
        let (notices, next) = {
            let (frame, child) = self.top();
            scan::scan_child(&frame.dir, child, stats)
        };
        match next {
            Next::Unnamed => {
                self.phase = Phase::Ended;
                Step { notices, request: Request::Finish(Err(Error::MissingFileName)) }
            },
            Next::Settled => {
                self.finish_child();
                Step { notices, request: Request::Continue }
            },
            Next::Enter(dir) => {
                let id = drive::copy_text(&self.top().1.id);
                let step = entering_step(&self.root, &dir, notices);
                self.finish_child();
                self.phase = Phase::Creating { id, dir };
                step
            },
            Next::Probe(path) => {
                let request = Request::ProbeFile(paths::join_path(&self.root, &path));
                self.phase = Phase::Probing { path };
                Step { notices, request }
            },
            Next::Export(path) => {
                let child = self.top().1;
                let id = drive::copy_text_or(&child.id, "");
                let mime = match &child.doc_type {
                    Some(doc) => doc.export_mime.clone(),
                    None => String::new(),
                };
                proof {
                    reveal_strlit("");
                    assert(""@ =~= Seq::<char>::empty());
                }
                self.phase = Phase::Exporting { path };
                Step { notices, request: Request::ExportFile { id, mime } }
            },
        }
    }
}

impl Walk {
    /// Whether this walk can take `event`.
    pub fn accepts(&self, stats: &DownloadStats, event: &Event) -> (accepted: bool)
        requires
            self@.wf(),
        ensures
            accepted == walk_accepts(self@, stats@, *event),
    {
        match (&self.phase, event) {
            (Phase::Creating { .. }, Event::DirectoryCreated(result)) => result.is_err()
                || stats.folder_count < u64::MAX,
            (Phase::Listing { .. }, Event::Listed(_)) => true,
            (Phase::Scanning, Event::Continue) => {
                if self.frames.len() == 0 {
                    return true;
                }
                let frame = &self.frames[self.frames.len() - 1];
                assert(self@.frames.last() == frame@);
                if frame.next >= frame.children.len() {
                    return true;
                }
                match &frame.children[frame.next].name {
                    Some(name) => filename::accepts_filename(name),
                    None => true,
                }
            },
            (Phase::Probing { .. }, Event::Probed(_)) => true,
            (Phase::Fetching { .. }, Event::Fetched(_)) => true,
            (Phase::Storing { .. }, Event::Stored(result)) => result.is_err() || (
            stats.file_count < u64::MAX && drive::count_size(self.top().1.size) <= u64::MAX
                - stats.total_file_size),
            (Phase::Exporting { .. }, Event::Exported(_)) => true,
            (Phase::StoringExport { .. }, Event::Stored(result)) => result.is_err()
                || stats.file_count < u64::MAX,
            _ => false,
        }
    }

    /// Takes what came of the last request, and tells what to do next.
    pub fn advance(&mut self, stats: &mut DownloadStats, event: Event) -> (step: Step)
        requires
            old(self)@.wf(),
            walk_accepts(old(self)@, old(stats)@, event),
        ensures
            final(self)@.wf(),
            (final(self)@, final(stats)@, step@) == walk_step(old(self)@, old(stats)@, event),
    {
        let mut phase = Phase::Ended;
        std::mem::swap(&mut phase, &mut self.phase);
        let ghost before = old(self)@;
        assert(self@ =~= before.in_phase(PhaseView::Ended));
        match (phase, event) {
            (Phase::Creating { id, dir }, Event::DirectoryCreated(result)) => match result {
                Err(report) => {
                    let path = paths::join_path(&self.root, &dir);
                    self.fail(Error::CreateDirectory(path, report))
                },
                Ok(_) => {
                    stats.count_folder();
                    match id {
                        None => self.fail(Error::MissingFileName),
                        Some(key) => {
                            self.phase = Phase::Listing { dir };
                            steps::silent_step(Request::ListFolder(key))
                        },
                    }
                },
            },
            (Phase::Listing { dir }, Event::Listed(result)) => match result {
                Err(report) => self.fail(Error::ListFiles(report)),
                Ok(children) => {
                    let frame = Frame { dir, children, next: 0 };
                    self.frames.push(frame);
                    self.phase = Phase::Scanning;
                    assert(self@.frames =~= before.frames.push(frame@));
                    steps::silent_step(Request::Continue)
                },
            },
            (Phase::Scanning, Event::Continue) => {
                self.phase = Phase::Scanning;
                assert(self@ =~= before);
                self.scan_next(stats)
            },
            (Phase::Probing { path }, Event::Probed(existing)) => self.probed(
                stats,
                path,
                existing,
            ),
            (Phase::Fetching { path }, Event::Fetched(result)) => match result {
                Err(report) => self.fail(Error::DownloadFile(report)),
                Ok(_) => {
                    let expected_md5 = drive::copy_text(&self.top().1.md5_checksum);
                    let line = text::concat3(
                        "Downloading file '",
                        &paths::display_path(&path),
                        "'",
                    );
                    let target = paths::join_path(&self.root, &path);
                    self.phase = Phase::Storing { path };
                    steps::noted_step(
                        Notice::Info(line),
                        Request::StoreBody { path: target, expected_md5 },
                    )
                },
            },
            (Phase::Storing { path }, Event::Stored(result)) => match result {
                Err(error) => self.fail(error),
                Ok(_) => {
                    let child = self.top().1;
                    stats.count_file(drive::count_size(child.size));
                    stats.locate(&child.id, &path);
                    self.finish_child();
                    steps::silent_step(Request::Continue)
                },
            },
            (Phase::Exporting { path }, Event::Exported(result)) => self.exported(
                stats,
                path,
                result,
            ),
            (Phase::StoringExport { path }, Event::Stored(result)) => match result {
                Err(error) => self.fail(error),
                Ok(_) => {
                    stats.count_file(0);
                    stats.locate(&self.top().1.id, &path);
                    self.finish_child();
                    steps::silent_step(Request::Continue)
                },
            },
            _ => {
                assert(false);
                steps::silent_step(Request::Continue)
            },
        }
    }
}

/// A step of a walk that can be as it is leads to one that can.
pub proof fn lemma_step_keeps_wf(walk: WalkView, stats: StatsView, event: Event)
    requires
        walk.wf(),
        walk_accepts(walk, stats, event),
    ensures
        walk_step(walk, stats, event).0.wf(),
{
    let after = walk_step(walk, stats, event).0;
    assert forall|i: int| 0 <= i < after.frames.len() implies 0 <= (
    #[trigger] after.frames[i]).next <= after.frames[i].children.len() by {
        if i < walk.frames.len() {
            assert(walk.frames[i].next <= walk.frames[i].children.len());
        }
    }
}

/// The walk waits for what it has asked for: whatever can come of its request is what it waits
/// for, and it asks for nothing more only when it has ended.
pub proof fn law_walk_waits_for_what_it_asked_for(
    walk: WalkView,
    stats: StatsView,
    event: Event,
    answer: Event,
)
    requires
        walk_accepts(walk, stats, event),
    ensures
        ({
            let (next, _, step) = walk_step(walk, stats, event);
            &&& steps::answers(step.request, answer) ==> walk_waits_for(next, answer)
            &&& step.request is Finish <==> next.phase is Ended
        }),
{
}

/// Whether `after` has all that `before` has: no count is lower, and no warning, no shortcut and
/// no file is lost.
pub open spec fn has_all_of(after: StatsView, before: StatsView) -> bool {
    &&& before.file_count <= after.file_count
    &&& before.folder_count <= after.folder_count
    &&& before.total_file_size <= after.total_file_size
    &&& before.warnings.is_prefix_of(after.warnings)
    &&& before.pending_shortcuts.is_prefix_of(after.pending_shortcuts)
    &&& before.downloaded_files.dom().subset_of(after.downloaded_files.dom())
}

/// A step loses nothing of what was done.
pub proof fn law_step_loses_nothing(walk: WalkView, stats: StatsView, event: Event)
    ensures
        has_all_of(walk_step(walk, stats, event).1, stats),
{
    let child = walk.child();
    if walk.phase == PhaseView::Scanning && event == Event::Continue && walk.has_child() {
        let seen = scan::scan(walk.frames.last().dir, child, stats);
        assert(has_all_of(seen.stats, stats));
    }
}

/// Whether `event` is a failure to create, list, fetch or save.
pub open spec fn is_failure(event: Event) -> bool {
    match event {
        Event::DirectoryCreated(result) => result is Err,
        Event::Listed(result) => result is Err,
        Event::Fetched(result) => result is Err,
        Event::Stored(result) => result is Err,
        _ => false,
    }
}

/// A failure to create, list, fetch or save ends the walk at once, with that failure and with
/// nothing counted for it.
pub proof fn law_failure_ends_the_walk(walk: WalkView, stats: StatsView, event: Event)
    requires
        walk_accepts(walk, stats, event),
        is_failure(event),
    ensures
        ({
            let (next, counted, step) = walk_step(walk, stats, event);
            &&& next == walk.in_phase(PhaseView::Ended)
            &&& counted == stats
            &&& step.request matches RequestView::Finish(Err(error))
            &&& event matches Event::DirectoryCreated(Err(report)) ==> (error matches
                ErrorView::CreateDirectory(_, text) && text == report@)
            &&& event matches Event::Listed(Err(report)) ==> error == ErrorView::ListFiles(report@)
            &&& event matches Event::Fetched(Err(report)) ==> error
                == ErrorView::DownloadFile(report@)
            &&& event matches Event::Stored(Err(cause)) ==> error == cause@
        }),
{
}

/// Whether `after` is `before` gone on to the next child of its innermost directory.
pub open spec fn has_gone_on(before: WalkView, after: WalkView) -> bool {
    let last = before.frames.len() - 1;
    &&& after.root == before.root
    &&& after.frames.len() == before.frames.len()
    &&& forall|i: int| 0 <= i < last ==> #[trigger] after.frames[i] == before.frames[i]
    &&& after.frames[last].dir == before.frames[last].dir
    &&& after.frames[last].children == before.frames[last].children
    &&& after.frames[last].next == before.frames[last].next + 1
}

/// Where `stats` say that files are once `child` has been put at `path`.
pub open spec fn places_with(stats: StatsView, child: DriveFile, path: Seq<u8>) -> Map<
    Seq<char>,
    Seq<u8>,
> {
    match child.id {
        Some(id) => stats.downloaded_files.insert(id@, path),
        None => stats.downloaded_files,
    }
}

/// A file on disk is left alone if and only if its checksum is, character for character, the one
/// that the service gives for the file. It is then known where it is, and nothing is counted.
/// In any other case, one where either checksum is missing among them, the contents of the file
/// are asked for by its id.
pub proof fn law_only_the_same_file_is_left_alone(
    walk: WalkView,
    stats: StatsView,
    path: Seq<u8>,
    existing: Option<String>,
)
    requires
        walk.phase == (PhaseView::Probing { path }),
        walk.frames.len() > 0,
    ensures
        ({
            let (next, counted, step) = walk_step(walk, stats, Event::Probed(existing));
            let child = walk.frames.last().children[walk.frames.last().next];
            let same = existing is Some && child.md5_checksum is Some && existing->Some_0@
                == child.md5_checksum->Some_0@;
            &&& step.notices.len() == 0
            &&& same ==> {
                &&& step.request is Continue
                &&& has_gone_on(walk, next) && next.phase is Scanning
                &&& counted == (StatsView {
                    downloaded_files: places_with(stats, child, path),
                    ..stats
                })
            }
            &&& !same ==> {
                &&& step.request == RequestView::FetchFile(
                    match child.id {
                        Some(id) => id@,
                        None => Seq::empty(),
                    },
                )
                &&& next == (WalkView { phase: PhaseView::Fetching { path }, ..walk })
                &&& counted == stats
            }
        }),
{
}

/// Contents that have come are saved below the root, at the path that was looked up, and are
/// expected to have the checksum that the service gives. Once they are saved the file counts
/// with its size and is known where it is.
pub proof fn law_fetched_file_is_saved_and_counted(
    walk: WalkView,
    stats: StatsView,
    path: Seq<u8>,
)
    requires
        walk.frames.len() > 0,
    ensures
        ({
            let child = walk.frames.last().children[walk.frames.last().next];
            let fetching = WalkView { phase: PhaseView::Fetching { path }, ..walk };
            let (next, counted, step) = walk_step(fetching, stats, Event::Fetched(Ok(())));
            &&& next == (WalkView { phase: PhaseView::Storing { path }, ..walk })
            &&& counted == stats
            &&& step.notices == seq![
                NoticeView::Info("Downloading file '"@ + paths::shown_path(path) + "'"@),
            ]
            &&& step.request == (RequestView::StoreBody {
                path: paths::joined(walk.root, path),
                expected_md5: match child.md5_checksum {
                    Some(md5) => Some(md5@),
                    None => None,
                },
            })
        }),
        ({
            let child = walk.frames.last().children[walk.frames.last().next];
            let storing = WalkView { phase: PhaseView::Storing { path }, ..walk };
            let (next, counted, step) = walk_step(storing, stats, Event::Stored(Ok(())));
            &&& has_gone_on(walk, next) && next.phase is Scanning
            &&& counted == (StatsView {
                file_count: stats.file_count + 1,
                total_file_size: stats.total_file_size + drive::counted_size(child.size),
                downloaded_files: places_with(stats, child, path),
                ..stats
            })
            &&& step.request is Continue && step.notices.len() == 0
        }),
{
}

/// A document that was exported is saved below the root, at the path that it was to go to, with
/// no checksum expected. Once it is saved it counts as a file without a size and is known where it
/// is. An export that fails is warned of, with the path and the report, and the walk goes on.
pub proof fn law_exported_document_is_saved_and_counted(
    walk: WalkView,
    stats: StatsView,
    path: Seq<u8>,
    report: String,
)
    requires
        walk.frames.len() > 0,
        walk.frames.last().children[walk.frames.last().next].doc_type is Some,
    ensures
        ({
            let child = walk.frames.last().children[walk.frames.last().next];
            let exporting = WalkView { phase: PhaseView::Exporting { path }, ..walk };
            let (next, counted, step) = walk_step(exporting, stats, Event::Exported(Ok(())));
            &&& next == (WalkView { phase: PhaseView::StoringExport { path }, ..walk })
            &&& counted == stats
            &&& step.notices == seq![
                NoticeView::Info(
                    "Exporting "@ + child.doc_type->Some_0.label@ + " '"@ + paths::shown_path(path)
                        + "'"@,
                ),
            ]
            &&& step.request == (RequestView::StoreBody {
                path: paths::joined(walk.root, path),
                expected_md5: None,
            })
        }),
        ({
            let child = walk.frames.last().children[walk.frames.last().next];
            let storing = WalkView { phase: PhaseView::StoringExport { path }, ..walk };
            let (next, counted, step) = walk_step(storing, stats, Event::Stored(Ok(())));
            &&& has_gone_on(walk, next) && next.phase is Scanning
            &&& counted == (StatsView {
                file_count: stats.file_count + 1,
                downloaded_files: places_with(stats, child, path),
                ..stats
            })
            &&& step.request is Continue && step.notices.len() == 0
        }),
        ({
            let exporting = WalkView { phase: PhaseView::Exporting { path }, ..walk };
            let (next, counted, step) = walk_step(exporting, stats, Event::Exported(Err(report)));
            let warning = "Failed to export '"@ + paths::shown_path(path) + "': "@ + report@;
            &&& has_gone_on(walk, next) && next.phase is Scanning
            &&& counted == (StatsView { warnings: stats.warnings.push(warning), ..stats })
            &&& step.notices == seq![NoticeView::Warning("Warning: "@ + warning)]
            &&& step.request is Continue
        }),
{
}

/// A directory that was created counts and is listed by its id; one without an id cannot be. Its
/// files are then gone through from the first on, in the order of the list, before the walk goes
/// on with the directory above.
pub proof fn law_directory_is_created_listed_and_gone_through(
    walk: WalkView,
    stats: StatsView,
    id: Option<Seq<char>>,
    dir: Seq<u8>,
    children: Vec<DriveFile>,
)
    ensures
        ({
            let creating = WalkView { phase: PhaseView::Creating { id, dir }, ..walk };
            let (next, counted, step) = walk_step(
                creating,
                stats,
                Event::DirectoryCreated(Ok(())),
            );
            &&& counted == (StatsView { folder_count: stats.folder_count + 1, ..stats })
            &&& step.notices.len() == 0
            &&& id matches Some(key) ==> step.request == RequestView::ListFolder(key) && next == (
            WalkView { phase: PhaseView::Listing { dir }, ..walk })
            &&& id is None ==> step.request == RequestView::Finish(
                Err(ErrorView::MissingFileName),
            ) && next.phase is Ended
        }),
        ({
            let listing = WalkView { phase: PhaseView::Listing { dir }, ..walk };
            let (next, counted, step) = walk_step(listing, stats, Event::Listed(Ok(children)));
            &&& counted == stats
            &&& step.request is Continue && step.notices.len() == 0
            &&& next.root == walk.root && next.phase is Scanning
            &&& next.frames.drop_last() == walk.frames
            &&& next.frames.last() == (FrameView { dir, children: children@, next: 0 })
        }),
        ({
            let scanning = WalkView { phase: PhaseView::Scanning, ..walk };
            let (next, counted, step) = walk_step(scanning, stats, Event::Continue);
            &&& walk.frames.len() == 0 ==> step.request == RequestView::Finish(Ok(()))
                && next.phase is Ended && counted == stats
            &&& walk.frames.len() > 0 && walk.frames.last().next
                == walk.frames.last().children.len() ==> {
                &&& step.request is Continue && step.notices.len() == 0
                &&& next.root == walk.root && next.phase is Scanning
                &&& next.frames == walk.frames.drop_last()
                &&& counted == stats
            }
        }),
{
    let listing = WalkView { phase: PhaseView::Listing { dir }, ..walk };
    let next = walk_step(listing, stats, Event::Listed(Ok(children))).0;
    assert(next.frames.drop_last() =~= walk.frames);
}

/// What is asked for about the next file goes by what it is. A directory is created below the
/// root, and then walked through under its own id; a file with contents is looked up below the
/// root; a document is exported by its id to the media type of its own kind; anything else is
/// passed over. All paths are those of the sanitized name below the directory that the file is
/// listed in.
pub proof fn law_next_file_is_asked_for_by_what_it_is(walk: WalkView, stats: StatsView)
    requires
        walk.phase is Scanning,
        walk.frames.len() > 0,
        0 <= walk.frames.last().next < walk.frames.last().children.len(),
    ensures
        ({
            let (next, counted, step) = walk_step(walk, stats, Event::Continue);
            let top = walk.frames.last();
            let child = top.children[top.next];
            let seen = scan::scan(top.dir, child, stats);
            let place = paths::joined(
                top.dir,
                encode_utf8(filename::sanitized(child.name->Some_0@)),
            );
            let id = match child.id {
                Some(id) => Some(id@),
                None => None,
            };
            &&& counted == seen.stats
            &&& child.name is None ==> step.request == RequestView::Finish(
                Err(ErrorView::MissingFileName),
            ) && next.phase is Ended
            &&& child.name is Some ==> if child.is_shortcut {
                &&& step.request is Continue && step.notices == seen.notices
                &&& has_gone_on(walk, next) && next.phase is Scanning
            } else if child.is_directory {
                &&& step.request == RequestView::CreateDirectory(paths::joined(walk.root, place))
                &&& step.notices == seen.notices.push(
                    NoticeView::Info("Creating directory "@ + paths::shown_path(place)),
                )
                &&& has_gone_on(walk, next)
                &&& next.phase == (PhaseView::Creating { id, dir: place })
            } else if child.is_binary {
                &&& step.request == RequestView::ProbeFile(paths::joined(walk.root, place))
                &&& step.notices == seen.notices
                &&& next == (WalkView { phase: PhaseView::Probing { path: place }, ..walk })
            } else if child.doc_type is Some {
                &&& step.request == (RequestView::ExportFile {
                    id: match id {
                        Some(key) => key,
                        None => Seq::empty(),
                    },
                    mime: child.doc_type->Some_0.export_mime@,
                })
                &&& step.notices == seen.notices
                &&& seen.next is Export
                &&& next == (WalkView {
                    phase: PhaseView::Exporting { path: seen.next->Export_0 },
                    ..walk
                })
            } else {
                &&& step.request is Continue && step.notices == seen.notices
                &&& has_gone_on(walk, next) && next.phase is Scanning
            }
        }),
{
    scan::law_file_goes_by_what_it_is(
        walk.frames.last().dir,
        walk.frames.last().children[walk.frames.last().next],
        stats,
    );
}

/// A walk starts with the creation of its directory, below the root.
pub proof fn law_walk_starts_with_its_directory(
    root: Seq<u8>,
    id: Option<Seq<char>>,
    dir: Seq<u8>,
    notices: Seq<NoticeView>,
)
    ensures
        started(root, id, dir).root == root,
        started(root, id, dir).frames.len() == 0,
        started(root, id, dir).phase == (PhaseView::Creating { id, dir }),
        entering(root, dir, notices).request == RequestView::CreateDirectory(
            paths::joined(root, dir),
        ),
        entering(root, dir, notices).notices == notices.push(
            NoticeView::Info("Creating directory "@ + paths::shown_path(dir)),
        ),
{
}

/// A failure to create a directory is told with the path that was asked for.
pub proof fn law_failed_directory_is_told(
    walk: WalkView,
    stats: StatsView,
    dir: Seq<u8>,
    report: String,
)
    requires
        walk.phase is Creating,
        walk.phase->Creating_dir == dir,
    ensures
        walk_step(walk, stats, Event::DirectoryCreated(Err(report))).2.request
            == RequestView::Finish(
            Err(ErrorView::CreateDirectory(paths::joined(walk.root, dir), report@)),
        ),
{
}

/// A walk takes whatever can come of what it asked for, as long as no counter is full and the
/// name that is next can be sanitized.
pub proof fn law_walk_takes_what_can_come(walk: WalkView, stats: StatsView, event: Event)
    requires
        stats.file_count < u64::MAX,
        stats.folder_count < u64::MAX,
        walk.has_child() ==> stats.total_file_size + drive::counted_size(walk.child().size)
            <= u64::MAX,
        walk.has_child() ==> (walk.child().name matches Some(name) ==> filename::can_be_sanitized(
            name@,
        )),
        walk.wf(),
    ensures
        walk_accepts(walk, stats, event) <==> match event {
            Event::Continue => walk.phase is Scanning,
            Event::DirectoryCreated(_) => walk.phase is Creating,
            Event::Listed(_) => walk.phase is Listing,
            Event::Probed(_) => walk.phase is Probing,
            Event::Fetched(_) => walk.phase is Fetching,
            Event::Exported(_) => walk.phase is Exporting,
            Event::Stored(_) => walk.phase is Storing || walk.phase is StoringExport,
            _ => false,
        },
{
}

} // verus!
