//! Shortcuts, once all files are there: a link to a file that was downloaded, or a download of
//! what the shortcut leads to.

use crate::drive;
use crate::drive::{DocType, DriveFile};
use crate::error::{Error, ErrorView};
use crate::filename;
use crate::paths;
use crate::stats::{DownloadStats, PendingShortcut, PendingShortcutView, StatsView};
use crate::steps;
use crate::steps::{
    Event, LinkState, Notice, NoticeView, Request, RequestView, Step, StepView,
};
use crate::text;
use crate::walk;
use crate::walk::{Walk, WalkView};
use std::path::PathBuf;
use vstd::prelude::*;
use vstd::utf8::*;

verus! {

/// The media type of a folder.
pub const MIME_TYPE_DRIVE_FOLDER: &'static str = "application/vnd.google-apps.folder";

/// What a job waits for.
enum JobPhase {
    ProbingLink { target: PathBuf },
    RemovingLink { target: PathBuf },
    Linking,
    GettingFolder,
    Walking { walk: Walk },
    Exporting { path: PathBuf },
    Fetching { path: PathBuf },
    Storing,
    Ended,
}

/// What a job waits for.
pub enum JobPhaseView {
    /// What is in the place of the link, which is to lead to `target`.
    ProbingLink { target: Seq<u8> },
    /// The removal of the link that is there.
    RemovingLink { target: Seq<u8> },
    /// The creation of the link.
    Linking,
    /// The description of the folder that the shortcut leads to.
    GettingFolder,
    /// What the walk through that folder waits for.
    Walking { walk: WalkView },
    /// The target in an office format.
    Exporting { path: Seq<u8> },
    /// The contents of the target.
    Fetching { path: Seq<u8> },
    /// The end of saving it.
    Storing,
    /// Nothing any more.
    Ended,
}

impl View for JobPhase {
    type V = JobPhaseView;

    closed spec fn view(&self) -> JobPhaseView {
        match *self {
            JobPhase::ProbingLink { target } => JobPhaseView::ProbingLink {
                target: paths::path_bytes(target),
            },
            JobPhase::RemovingLink { target } => JobPhaseView::RemovingLink {
                target: paths::path_bytes(target),
            },
            JobPhase::Linking => JobPhaseView::Linking,
            JobPhase::GettingFolder => JobPhaseView::GettingFolder,
            JobPhase::Walking { walk } => JobPhaseView::Walking { walk: walk@ },
            JobPhase::Exporting { path } => JobPhaseView::Exporting {
                path: paths::path_bytes(path),
            },
            JobPhase::Fetching { path } => JobPhaseView::Fetching {
                path: paths::path_bytes(path),
            },
            JobPhase::Storing => JobPhaseView::Storing,
            JobPhase::Ended => JobPhaseView::Ended,
        }
    }
}

/// The work on one shortcut.
pub struct ShortcutJob {
    root: PathBuf,
    shortcut: PendingShortcut,
    doc_type: Option<DocType>,
    phase: JobPhase,
}

/// What a [`ShortcutJob`] holds.
pub struct JobView {
    /// The canonical path of the destination.
    pub root: Seq<u8>,
    /// The shortcut.
    pub shortcut: PendingShortcutView,
    /// The kind of document that it leads to, if that is exported.
    pub doc_type: Option<DocType>,
    /// What the job waits for.
    pub phase: JobPhaseView,
}

impl View for ShortcutJob {
    type V = JobView;

    closed spec fn view(&self) -> JobView {
        JobView {
            root: paths::path_bytes(self.root),
            shortcut: self.shortcut@,
            doc_type: self.doc_type,
            phase: self.phase@,
        }
    }
}

impl JobView {
    /// Whether a job can be like this.
    pub open spec fn wf(self) -> bool {
        match self.phase {
            JobPhaseView::Walking { walk } => walk.wf(),
            JobPhaseView::Exporting { .. } => self.doc_type is Some,
            _ => true,
        }
    }

    /// This job in another phase.
    pub open spec fn in_phase(self, phase: JobPhaseView) -> JobView {
        JobView { phase, ..self }
    }

    /// The directory of the link.
    pub open spec fn link_dir(self) -> Seq<u8> {
        paths::joined(self.root, self.shortcut.local_dir)
    }

    /// The place of the link.
    pub open spec fn link(self) -> Seq<u8> {
        paths::joined(self.link_dir(), encode_utf8(self.shortcut.name))
    }

    /// The place of the shortcut, relative to the destination.
    pub open spec fn local_path(self) -> Seq<u8> {
        paths::joined(self.shortcut.local_dir, encode_utf8(self.shortcut.name))
    }

    /// The line that tells what is done about the link.
    pub open spec fn link_line(self, doing: Seq<char>, target: Seq<u8>) -> Seq<char> {
        doing + paths::shown_path(self.local_path()) + "' -> '"@ + paths::shown_path(target)
            + "'"@
    }

    /// This job and its step where the link to `target` is created.
    pub open spec fn linking(self, target: Seq<u8>) -> (JobView, StepView) {
        (
            self.in_phase(JobPhaseView::Linking),
            steps::noted(
                NoticeView::Info(self.link_line("Creating symlink '"@, target)),
                RequestView::CreateLink { target, link: self.link() },
            ),
        )
    }

    /// This job and its step where it fails.
    pub open spec fn failing(self, error: ErrorView) -> (JobView, StepView) {
        (self.in_phase(JobPhaseView::Ended), steps::failed(error))
    }

    /// Whether the link that this job is about to put in place leads from its directory to the
    /// file, if that was downloaded, and has the steps that it was made of.
    pub open spec fn has_sound_link(self, stats: StatsView) -> bool {
        match (self.phase, stats.location_of(self.shortcut.target_id)) {
            (JobPhaseView::ProbingLink { target }, Some(place)) => {
                let file = paths::joined(self.root, place);
                &&& paths::keeps_its_steps(self.link_dir(), file)
                &&& paths::is_sound_way(self.link_dir(), target, file)
            },
            _ => true,
        }
    }

    /// This job where it ends well.
    pub open spec fn ended(self) -> JobView {
        self.in_phase(JobPhaseView::Ended)
    }
}

/// The step that ends a job well.
pub open spec fn finished() -> StepView {
    steps::silent(RequestView::Finish(Ok(())))
}

/// The step that asks for the contents to be saved to `path`.
pub open spec fn storing(root: Seq<u8>, path: Seq<u8>, line: Seq<char>) -> StepView {
    steps::noted(
        NoticeView::Info(line),
        RequestView::StoreBody { path: paths::joined(root, path), expected_md5: None },
    )
}

/// The warning that an export failed.
pub open spec fn export_warning(path: Seq<u8>, report: Seq<char>) -> Seq<char> {
    "Failed to export shortcut '"@ + paths::shown_path(path) + "': "@ + report
}

/// The warning that there are no links.
pub open spec fn no_links_warning(name: Seq<char>) -> Seq<char> {
    "Cannot create symlink for '"@ + name + "' (not supported on this platform)"@
}

/// Whether `shortcut` says that it leads to a folder.
pub open spec fn is_to_folder(shortcut: PendingShortcutView) -> bool {
    shortcut.target_mime == Some(MIME_TYPE_DRIVE_FOLDER@)
}

/// Tells whether `shortcut` says that it leads to a folder.
fn says_folder(shortcut: &PendingShortcut) -> (says: bool)
    ensures
        says == is_to_folder(shortcut@),
{
    match &shortcut.target_mime {
        Some(mime) => *mime == MIME_TYPE_DRIVE_FOLDER.to_owned(),
        None => false,
    }
}

/// Whether the work on `shortcut` is a walk through the folder that it leads to.
pub open spec fn is_walked(shortcut: PendingShortcutView, stats: StatsView) -> bool {
    stats.location_of(shortcut.target_id) is None && is_to_folder(shortcut)
}

/// Tells whether the work on `shortcut` is a walk through the folder that it leads to.
pub fn will_walk(shortcut: &PendingShortcut, stats: &DownloadStats) -> (walks: bool)
    ensures
        walks == is_walked(shortcut@, stats@),
{
    stats.location(&shortcut.target_id).is_none() && says_folder(shortcut)
}

/// A job at its start, and its first step.
///
/// Where the target was downloaded, the shortcut becomes a link to it. Otherwise a folder is
/// walked through, a document is exported, and anything else is downloaded.
pub open spec fn job_start(
    root: Seq<u8>,
    shortcut: PendingShortcutView,
    doc_type: Option<DocType>,
    stats: StatsView,
) -> (JobView, StepView) {
    let job = JobView { root, shortcut, doc_type, phase: JobPhaseView::Ended };
    match stats.location_of(shortcut.target_id) {
        Some(place) => (
            job.in_phase(
                JobPhaseView::ProbingLink {
                    target: paths::relative_path(job.link_dir(), paths::joined(root, place)),
                },
            ),
            steps::silent(RequestView::ProbeLink(job.link())),
        ),
        None => if is_to_folder(shortcut) {
            (
                job.in_phase(JobPhaseView::GettingFolder),
                steps::silent(RequestView::GetFile(shortcut.target_id)),
            )
        } else {
            match doc_type {
                Some(doc) => (
                    job.in_phase(
                        JobPhaseView::Exporting {
                            path: paths::joined(
                                shortcut.local_dir,
                                encode_utf8(shortcut.name + "."@ + doc.extension@),
                            ),
                        },
                    ),
                    steps::silent(
                        RequestView::ExportFile {
                            id: shortcut.target_id,
                            mime: doc.export_mime@,
                        },
                    ),
                ),
                None => (
                    job.in_phase(JobPhaseView::Fetching { path: job.local_path() }),
                    steps::silent(RequestView::FetchFile(shortcut.target_id)),
                ),
            }
        },
    }
}

/// The job, what has been done, and the next step after `event`.
pub open spec fn job_step(job: JobView, stats: StatsView, event: Event) -> (
    JobView,
    StatsView,
    StepView,
) {
    match (job.phase, event) {
        (JobPhaseView::ProbingLink { target }, Event::LinkProbed(LinkState::NotALink)) => {
            let (next, step) = job.linking(target);
            (next, stats, step)
        },
        (JobPhaseView::ProbingLink { target }, Event::LinkProbed(LinkState::Link(existing))) => {
            match existing {
                Some(path) if paths::same_path(paths::path_bytes(path), target) => (
                    job.ended(),
                    stats,
                    finished(),
                ),
                _ => (
                    job.in_phase(JobPhaseView::RemovingLink { target }),
                    stats,
                    steps::noted(
                        NoticeView::Info(job.link_line("Replacing symlink '"@, target)),
                        RequestView::RemoveLink(job.link()),
                    ),
                ),
            }
        },
        (JobPhaseView::RemovingLink { target }, Event::LinkRemoved(Ok(_))) => {
            let (next, step) = job.linking(target);
            (next, stats, step)
        },
        (JobPhaseView::RemovingLink { .. }, Event::LinkRemoved(Err(report))) => {
            let (next, step) = job.failing(ErrorView::CreateSymlink(job.link(), report@));
            (next, stats, step)
        },
        (JobPhaseView::Linking, Event::LinkCreated(Ok(_))) => (job.ended(), stats, finished()),
        (JobPhaseView::Linking, Event::LinkCreated(Err(report))) => {
            let (next, step) = job.failing(ErrorView::CreateSymlink(job.link(), report@));
            (next, stats, step)
        },
        (JobPhaseView::Linking, Event::LinksUnsupported) => {
            let warning = no_links_warning(job.shortcut.name);
            (
                job.ended(),
                stats.warned(warning),
                steps::noted(steps::warning_line(warning), RequestView::Finish(Ok(()))),
            )
        },
        (JobPhaseView::GettingFolder, Event::GotFile(Err(report))) => {
            let (next, step) = job.failing(ErrorView::GetFile(report@));
            (next, stats, step)
        },
        (JobPhaseView::GettingFolder, Event::GotFile(Ok(file))) => (
            job.in_phase(
                JobPhaseView::Walking {
                    walk: walk::started(
                        job.root,
                        drive::text_of(file.id),
                        job.local_path(),
                    ),
                },
            ),
            stats,
            walk::entering(
                job.root,
                job.local_path(),
                seq![
                    NoticeView::Info(
                        "Downloading shared folder shortcut '"@ + paths::shown_path(
                            job.local_path(),
                        ) + "'"@,
                    ),
                ],
            ),
        ),
        (JobPhaseView::Walking { walk }, event) => {
            let (next, counted, step) = walk::walk_step(walk, stats, event);
            (job.in_phase(JobPhaseView::Walking { walk: next }), counted, step)
        },
        (JobPhaseView::Exporting { path }, Event::Exported(Err(report))) => {
            let warning = export_warning(path, report@);
            (
                job.ended(),
                stats.warned(warning),
                steps::noted(steps::warning_line(warning), RequestView::Finish(Ok(()))),
            )
        },
        (JobPhaseView::Exporting { path }, Event::Exported(Ok(_))) => (
            job.in_phase(JobPhaseView::Storing),
            stats,
            storing(
                job.root,
                path,
                "Exporting shared "@ + job.doc_type->Some_0.label@ + " shortcut '"@
                    + paths::shown_path(path) + "'"@,
            ),
        ),
        (JobPhaseView::Fetching { .. }, Event::Fetched(Err(report))) => {
            let (next, step) = job.failing(ErrorView::DownloadFile(report@));
            (next, stats, step)
        },
        (JobPhaseView::Fetching { path }, Event::Fetched(Ok(_))) => (
            job.in_phase(JobPhaseView::Storing),
            stats,
            storing(
                job.root,
                path,
                "Downloading shared file shortcut '"@ + paths::shown_path(path) + "'"@,
            ),
        ),
        (JobPhaseView::Storing, Event::Stored(Err(error))) => {
            let (next, step) = job.failing(error@);
            (next, stats, step)
        },
        (JobPhaseView::Storing, Event::Stored(Ok(_))) => (
            job.ended(),
            stats.with_file(0),
            finished(),
        ),
        _ => (job, stats, steps::silent(RequestView::Continue)),
    }
}

/// Whether `event` is what a job waits for.
pub open spec fn job_waits_for(job: JobView, event: Event) -> bool {
    match job.phase {
        JobPhaseView::ProbingLink { .. } => event is LinkProbed,
        JobPhaseView::RemovingLink { .. } => event is LinkRemoved,
        JobPhaseView::Linking => event is LinkCreated || event is LinksUnsupported,
        JobPhaseView::GettingFolder => event is GotFile,
        JobPhaseView::Walking { walk } => walk::walk_waits_for(walk, event),
        JobPhaseView::Exporting { .. } => event is Exported,
        JobPhaseView::Fetching { .. } => event is Fetched,
        JobPhaseView::Storing => event is Stored,
        JobPhaseView::Ended => false,
    }
}

/// Whether there is room for what a job counts when `event` comes.
pub open spec fn job_has_room(job: JobView, stats: StatsView, event: Event) -> bool {
    match (job.phase, event) {
        (JobPhaseView::Walking { walk }, event) => walk::walk_has_room(walk, stats, event),
        (JobPhaseView::Storing, Event::Stored(Ok(_))) => stats.file_count < u64::MAX,
        _ => true,
    }
}

/// Whether a job can take `event`.
pub open spec fn job_accepts(job: JobView, stats: StatsView, event: Event) -> bool {
    job_waits_for(job, event) && job_has_room(job, stats, event)
}

/// What to do about a link.
#[derive(Debug, Copy, Clone, Eq, PartialEq, Structural)]
pub enum LinkDecision {
    /// Create it.
    Create,
    /// Leave the one that is there.
    Keep,
    /// Put it in the place of the one that is there.
    Replace,
}

/// Decides what to do about a link. `present` tells whether there is a link in its place,
/// `current` whether that one can be read and leads to the same path.
pub fn decide_link(present: bool, current: bool) -> (decision: LinkDecision)
    ensures
        decision == (if !present {
            LinkDecision::Create
        } else if current {
            LinkDecision::Keep
        } else {
            LinkDecision::Replace
        }),
{
    if !present {
        LinkDecision::Create
    } else if current {
        LinkDecision::Keep
    } else {
        LinkDecision::Replace
    }
}

impl ShortcutJob {
    /// The directory of the link.
    fn link_dir(&self) -> (dir: PathBuf)
        ensures
            paths::path_bytes(dir) == self@.link_dir(),
    {
        paths::join_path(&self.root, &self.shortcut.local_dir)
    }

    /// The place of the link.
    fn link(&self) -> (link: PathBuf)
        ensures
            paths::path_bytes(link) == self@.link(),
    {
        paths::join_name(&self.link_dir(), &self.shortcut.name)
    }

    /// The place of the shortcut, relative to the destination.
    fn local_path(&self) -> (path: PathBuf)
        ensures
            paths::path_bytes(path) == self@.local_path(),
    {
        paths::join_name(&self.shortcut.local_dir, &self.shortcut.name)
    }

    /// The line that tells what is done about the link.
    fn link_line(&self, doing: &str, target: &PathBuf) -> (line: String)
        ensures
            line@ == self@.link_line(doing@, paths::path_bytes(*target)),
    {
        text::concat5(
            doing,
            &paths::display_path(&self.local_path()),
            "' -> '",
            &paths::display_path(target),
            "'",
        )
    }

    /// Starts the work on `shortcut`, and tells what to do first. `doc_type` is the kind of
    /// document that the media type of the target, the empty one where it is missing, stands for.
    pub fn start(
        root: &PathBuf,
        shortcut: &PendingShortcut,
        doc_type: Option<DocType>,
        stats: &DownloadStats,
    ) -> (begun: (ShortcutJob, Step))
        ensures
            begun.0@.wf(),
            (begun.0@, begun.1@) == job_start(
                paths::path_bytes(*root),
                shortcut@,
                doc_type,
                stats@,
            ),
            begun.0@.has_sound_link(stats@),
    {
        let mut job = ShortcutJob {
            root: root.clone(),
            shortcut: shortcut.copy(),
            doc_type,
            phase: JobPhase::Ended,
        };
        match stats.location(&job.shortcut.target_id) {
            Some(place) => {
                let target = paths::pathdiff_relative(
                    &job.link_dir(),
                    &paths::join_path(root, &place),
                );
                let step = steps::silent_step(Request::ProbeLink(job.link()));
                job.phase = JobPhase::ProbingLink { target };
                return (job, step);
            },
            None => {},
        }
        let id = job.shortcut.target_id.clone();
        if says_folder(&job.shortcut) {
            job.phase = JobPhase::GettingFolder;
            return (job, steps::silent_step(Request::GetFile(id)));
        }
        let export = match &job.doc_type {
            Some(doc) => Some(
                (
                    text::concat3(&job.shortcut.name, ".", &doc.extension),
                    doc.export_mime.clone(),
                ),
            ),
            None => None,
        };
        match export {
            Some((name, mime)) => {
                let path = paths::join_name(&job.shortcut.local_dir, &name);
                job.phase = JobPhase::Exporting { path };
                (job, steps::silent_step(Request::ExportFile { id, mime }))
            },
            None => {
                let path = job.local_path();
                job.phase = JobPhase::Fetching { path };
                (job, steps::silent_step(Request::FetchFile(id)))
            },
        }
    }
}

impl ShortcutJob {
    /// Whether this job can take `event`.
    pub fn accepts(&self, stats: &DownloadStats, event: &Event) -> (accepted: bool)
        requires
            self@.wf(),
        ensures
            accepted == job_accepts(self@, stats@, *event),
    {
        match (&self.phase, event) {
            (JobPhase::ProbingLink { .. }, Event::LinkProbed(_)) => true,
            (JobPhase::RemovingLink { .. }, Event::LinkRemoved(_)) => true,
            (JobPhase::Linking, Event::LinkCreated(_)) => true,
            (JobPhase::Linking, Event::LinksUnsupported) => true,
            (JobPhase::GettingFolder, Event::GotFile(_)) => true,
            (JobPhase::Walking { walk }, event) => walk.accepts(stats, event),
            (JobPhase::Exporting { .. }, Event::Exported(_)) => true,
            (JobPhase::Fetching { .. }, Event::Fetched(_)) => true,
            (JobPhase::Storing, Event::Stored(result)) => result.is_err() || stats.file_count
                < u64::MAX,
            _ => false,
        }
    }

    /// Ends the job with a failure.
    fn fail(&mut self, error: Error) -> (step: Step)
        ensures
            (final(self)@, step@) == old(self)@.failing(error@),
    {
        self.phase = JobPhase::Ended;
        steps::silent_step(Request::Finish(Err(error)))
    }

    /// Ends the job well.
    fn finish(&mut self) -> (step: Step)
        ensures
            final(self)@ == old(self)@.ended(),
            step@ == finished(),
    {
        self.phase = JobPhase::Ended;
        steps::silent_step(Request::Finish(Ok(())))
    }

    /// Ends the job with a warning.
    fn finish_with_warning(&mut self, stats: &mut DownloadStats, warning: String) -> (step: Step)
        ensures
            final(self)@ == old(self)@.ended(),
            final(stats)@ == old(stats)@.warned(warning@),
            step@ == steps::noted(
                steps::warning_line(warning@),
                RequestView::Finish(Ok(())),
            ),
    {
        let notice = steps::warning_notice(&warning);
        stats.warn(warning);
        self.phase = JobPhase::Ended;
        steps::noted_step(notice, Request::Finish(Ok(())))
    }

    /// Asks for the link to `target` to be created.
    fn create_link(&mut self, target: PathBuf) -> (step: Step)
        ensures
            (final(self)@, step@) == old(self)@.linking(paths::path_bytes(target)),
    {
        let line = self.link_line("Creating symlink '", &target);
        let link = self.link();
        self.phase = JobPhase::Linking;
        steps::noted_step(Notice::Info(line), Request::CreateLink { target, link })
    }

    /// Goes on from what is in the place of the link, which is to lead to `target`.
    fn link_probed(&mut self, target: PathBuf, state: LinkState) -> (step: Step)
        ensures
            forall|stats: StatsView|
                (final(self)@, stats, step@) == #[trigger] job_step(
                    old(self)@.in_phase(
                        JobPhaseView::ProbingLink { target: paths::path_bytes(target) },
                    ),
                    stats,
                    Event::LinkProbed(state),
                ),
    {
        let (present, current) = match &state {
            LinkState::NotALink => (false, false),
            LinkState::Link(None) => (true, false),
            LinkState::Link(Some(path)) => (true, paths::is_same_path(path, &target)),
        };
        match decide_link(present, current) {
            LinkDecision::Create => self.create_link(target),
            LinkDecision::Keep => self.finish(),
            LinkDecision::Replace => {
                let line = self.link_line("Replacing symlink '", &target);
                let link = self.link();
                self.phase = JobPhase::RemovingLink { target };
                steps::noted_step(Notice::Info(line), Request::RemoveLink(link))
            },
        }
    }

    /// Starts to walk through the folder that the shortcut leads to.
    fn enter_folder(&mut self, file: &DriveFile) -> (step: Step)
        ensures
            final(self)@.wf(),
            forall|stats: StatsView|
                (final(self)@, stats, step@) == #[trigger] job_step(
                    old(self)@.in_phase(JobPhaseView::GettingFolder),
                    stats,
                    Event::GotFile(Ok(*file)),
                ),
    {
        let dir = self.local_path();
        let line = text::concat3(
            "Downloading shared folder shortcut '",
            &paths::display_path(&dir),
            "'",
        );
        let (walk, entry) = Walk::start(&self.root, file, &dir);
        self.phase = JobPhase::Walking { walk };
        let mut notices: Vec<Notice> = Vec::new();
        notices.push(Notice::Info(line));
        let mut entry_notices = entry.notices;
        notices.append(&mut entry_notices);
        let step = Step { notices, request: entry.request };
        proof {
            let root = paths::path_bytes(self.root);
            let bytes = paths::path_bytes(dir);
            assert(entry@.notices =~= walk::entering(root, bytes, Seq::empty()).notices);
            assert(step@.notices =~= seq![NoticeView::Info(line@)] + entry@.notices);
            assert(step@ =~= walk::entering(root, bytes, seq![NoticeView::Info(line@)]));
        }
        step
    }

    /// Asks for the contents to be saved to `path`.
    fn store(&mut self, path: &PathBuf, line: String) -> (step: Step)
        ensures
            final(self)@ == old(self)@.in_phase(JobPhaseView::Storing),
            step@ == storing(old(self)@.root, paths::path_bytes(*path), line@),
    {
        let target = paths::join_path(&self.root, path);
        self.phase = JobPhase::Storing;
        steps::noted_step(
            Notice::Info(line),
            Request::StoreBody { path: target, expected_md5: None },
        )
    }

    /// Takes what came of the last request, and tells what to do next.
    pub fn advance(&mut self, stats: &mut DownloadStats, event: Event) -> (step: Step)
        requires
            old(self)@.wf(),
            job_accepts(old(self)@, old(stats)@, event),
        ensures
            final(self)@.wf(),
            (final(self)@, final(stats)@, step@) == job_step(old(self)@, old(stats)@, event),
    {
        let mut phase = JobPhase::Ended;
        std::mem::swap(&mut phase, &mut self.phase);
        match (phase, event) {
            (JobPhase::ProbingLink { target }, Event::LinkProbed(state)) => self.link_probed(
                target,
                state,
            ),
            (JobPhase::RemovingLink { target }, Event::LinkRemoved(result)) => match result {
                Ok(_) => self.create_link(target),
                Err(report) => {
                    let link = self.link();
                    self.fail(Error::CreateSymlink(link, report))
                },
            },
            (JobPhase::Linking, Event::LinkCreated(result)) => match result {
                Ok(_) => self.finish(),
                Err(report) => {
                    let link = self.link();
                    self.fail(Error::CreateSymlink(link, report))
                },
            },
            (JobPhase::Linking, Event::LinksUnsupported) => {
                let warning = text::concat3(
                    "Cannot create symlink for '",
                    &self.shortcut.name,
                    "' (not supported on this platform)",
                );
                self.finish_with_warning(stats, warning)
            },
            (JobPhase::GettingFolder, Event::GotFile(result)) => match result {
                Ok(file) => self.enter_folder(&file),
                Err(report) => self.fail(Error::GetFile(report)),
            },
            (JobPhase::Walking { walk }, event) => {
                let mut walk = walk;
                let step = walk.advance(stats, event);
                self.phase = JobPhase::Walking { walk };
                step
            },
            (JobPhase::Exporting { path }, Event::Exported(result)) => match result {
                Err(report) => {
                    let warning = text::concat4(
                        "Failed to export shortcut '",
                        &paths::display_path(&path),
                        "': ",
                        &report,
                    );
                    self.finish_with_warning(stats, warning)
                },
                Ok(_) => {
                    let label = match &self.doc_type {
                        Some(doc) => doc.label.clone(),
                        None => String::new(),
                    };
                    let line = text::concat5(
                        "Exporting shared ",
                        &label,
                        " shortcut '",
                        &paths::display_path(&path),
                        "'",
                    );
                    self.store(&path, line)
                },
            },
            (JobPhase::Fetching { path }, Event::Fetched(result)) => match result {
                Err(report) => self.fail(Error::DownloadFile(report)),
                Ok(_) => {
                    let line = text::concat3(
                        "Downloading shared file shortcut '",
                        &paths::display_path(&path),
                        "'",
                    );
                    self.store(&path, line)
                },
            },
            (JobPhase::Storing, Event::Stored(result)) => match result {
                Err(error) => self.fail(error),
                Ok(_) => {
                    stats.count_file(0);
                    self.finish()
                },
            },
            _ => {
                assert(false);
                self.finish()
            },
        }
    }
}

/// A step of a job that can be as it is leads to one that can.
pub proof fn lemma_step_keeps_wf(job: JobView, stats: StatsView, event: Event)
    requires
        job.wf(),
        job_accepts(job, stats, event),
    ensures
        job_step(job, stats, event).0.wf(),
{
    if let JobPhaseView::Walking { walk } = job.phase {
        walk::lemma_step_keeps_wf(walk, stats, event);
    }
}

/// The job waits for what it asks for first.
pub proof fn law_job_waits_from_its_start(
    root: Seq<u8>,
    shortcut: PendingShortcutView,
    doc_type: Option<DocType>,
    stats: StatsView,
    answer: Event,
)
    ensures
        ({
            let (job, step) = job_start(root, shortcut, doc_type, stats);
            steps::answers(step.request, answer) ==> job_waits_for(job, answer)
        }),
{
}

/// The job waits for what it has asked for.
pub proof fn law_job_waits_for_what_it_asked_for(
    job: JobView,
    stats: StatsView,
    event: Event,
    answer: Event,
)
    requires
        job_accepts(job, stats, event),
    ensures
        ({
            let (next, _, step) = job_step(job, stats, event);
            steps::answers(step.request, answer) ==> job_waits_for(next, answer)
        }),
{
    if let JobPhaseView::Walking { walk } = job.phase {
        walk::law_walk_waits_for_what_it_asked_for(walk, stats, event, answer);
    }
}

/// A job as it stands after `events`, what has been done, and the last step that it made.
pub open spec fn job_run(
    root: Seq<u8>,
    shortcut: PendingShortcutView,
    doc_type: Option<DocType>,
    stats: StatsView,
    events: Seq<Event>,
) -> (JobView, StatsView, StepView)
    decreases events.len(),
{
    if events.len() == 0 {
        let (job, step) = job_start(root, shortcut, doc_type, stats);
        (job, stats, step)
    } else {
        let before = job_run(root, shortcut, doc_type, stats, events.drop_last());
        job_step(before.0, before.1, events.last())
    }
}

/// Whether each of `events` is one that the job can take when it comes.
pub open spec fn job_run_is_accepted(
    root: Seq<u8>,
    shortcut: PendingShortcutView,
    doc_type: Option<DocType>,
    stats: StatsView,
    events: Seq<Event>,
) -> bool
    decreases events.len(),
{
    events.len() > 0 ==> {
        let before = job_run(root, shortcut, doc_type, stats, events.drop_last());
        &&& job_run_is_accepted(root, shortcut, doc_type, stats, events.drop_last())
        &&& job_accepts(before.0, before.1, events.last())
    }
}

/// A shortcut to a file that was downloaded costs no download: all that is ever asked for is to
/// put a link in its place, one that leads along the relative path to the file. Nothing is
/// counted for it; at most a warning is added.
pub proof fn law_downloaded_target_is_only_linked(
    root: Seq<u8>,
    shortcut: PendingShortcutView,
    doc_type: Option<DocType>,
    stats: StatsView,
    place: Seq<u8>,
    events: Seq<Event>,
)
    requires
        stats.location_of(shortcut.target_id) == Some(place),
        job_run_is_accepted(root, shortcut, doc_type, stats, events),
    ensures
        ({
            let (job, counted, step) = job_run(root, shortcut, doc_type, stats, events);
            let dir = paths::joined(root, shortcut.local_dir);
            let place_of_link = paths::joined(dir, encode_utf8(shortcut.name));
            let way = paths::relative_path(dir, paths::joined(root, place));
            &&& counted == (StatsView { warnings: counted.warnings, ..stats })
            &&& match step.request {
                RequestView::ProbeLink(link) => link == place_of_link,
                RequestView::RemoveLink(link) => link == place_of_link,
                RequestView::CreateLink { target, link } => target == way && link
                    == place_of_link,
                RequestView::Finish(_) => true,
                _ => false,
            }
            &&& match job.phase {
                JobPhaseView::ProbingLink { target } => target == way,
                JobPhaseView::RemovingLink { target } => target == way,
                JobPhaseView::Linking | JobPhaseView::Ended => true,
                _ => false,
            }
            &&& job.root == root && job.shortcut == shortcut
        }),
    decreases events.len(),
{
    if events.len() > 0 {
        law_downloaded_target_is_only_linked(
            root,
            shortcut,
            doc_type,
            stats,
            place,
            events.drop_last(),
        );
    }
}

/// The link of a shortcut leads to the file: what is put in its place is read in the directory of
/// the link, and leads from there to the place of the file that was downloaded. This is where the
/// relative path has the steps that it was made of, as [`ShortcutJob::start`] gives it, each is
/// single, and the two paths fork into names.
pub proof fn law_link_leads_to_the_file(
    root: Seq<u8>,
    shortcut: PendingShortcutView,
    doc_type: Option<DocType>,
    stats: StatsView,
    place: Seq<u8>,
    events: Seq<Event>,
)
    requires
        stats.location_of(shortcut.target_id) == Some(place),
        job_run_is_accepted(root, shortcut, doc_type, stats, events),
        job_start(root, shortcut, doc_type, stats).0.has_sound_link(stats),
        ({
            let (dir, file) = (
                paths::joined(root, shortcut.local_dir),
                paths::joined(root, place),
            );
            paths::all_single(paths::relative_steps_of(dir, file)) && paths::forks_into_names(
                dir,
                file,
            )
        }),
    ensures
        ({
            let step = job_run(root, shortcut, doc_type, stats, events).2;
            let dir = paths::joined(root, shortcut.local_dir);
            step.request matches RequestView::CreateLink { target, link } ==> {
                &&& link == paths::joined(dir, encode_utf8(shortcut.name))
                &&& paths::leads_to(dir, target, paths::joined(root, place))
            }
        }),
{
    law_downloaded_target_is_only_linked(root, shortcut, doc_type, stats, place, events);
}

/// A link that is in place already and leads to the same path is left alone.
pub proof fn law_current_link_is_kept(
    job: JobView,
    stats: StatsView,
    target: Seq<u8>,
    existing: PathBuf,
)
    requires
        job.phase == (JobPhaseView::ProbingLink { target }),
        paths::same_path(paths::path_bytes(existing), target),
    ensures
        job_step(job, stats, Event::LinkProbed(LinkState::Link(Some(existing)))) == (
            job.ended(),
            stats,
            finished(),
        ),
{
}

/// What the work on a shortcut starts with goes by its target. One that was downloaded is linked
/// to, along the relative path from the directory of the link to the place of the file. Of any
/// other, a folder is described, a document is exported by the id of the target to just the media
/// type of its own kind, and the contents of anything else are asked for by that id. What is saved
/// goes below the directory of the shortcut, under its name; the name of a document has a dot
/// behind that, and the extension of its own kind.
pub proof fn law_shortcut_goes_by_its_target(
    root: Seq<u8>,
    shortcut: PendingShortcutView,
    doc_type: Option<DocType>,
    stats: StatsView,
)
    ensures
        ({
            let (job, step) = job_start(root, shortcut, doc_type, stats);
            let dir = paths::joined(root, shortcut.local_dir);
            &&& job.root == root && job.shortcut == shortcut && job.doc_type == doc_type
            &&& step.notices.len() == 0
            &&& if stats.downloaded_files.contains_key(shortcut.target_id) {
                let place = stats.downloaded_files[shortcut.target_id];
                &&& step.request == RequestView::ProbeLink(
                    paths::joined(dir, encode_utf8(shortcut.name)),
                )
                &&& job.phase == (JobPhaseView::ProbingLink {
                    target: paths::relative_path(dir, paths::joined(root, place)),
                })
            } else if shortcut.target_mime == Some("application/vnd.google-apps.folder"@) {
                &&& step.request == RequestView::GetFile(shortcut.target_id)
                &&& job.phase is GettingFolder
            } else if doc_type is Some {
                let doc = doc_type->Some_0;
                &&& step.request == (RequestView::ExportFile {
                    id: shortcut.target_id,
                    mime: doc.export_mime@,
                })
                &&& job.phase is Exporting
                &&& exists|name: Seq<char>|
                    {
                        &&& job.phase->Exporting_path == paths::joined(
                            shortcut.local_dir,
                            #[trigger] encode_utf8(name),
                        )
                        &&& name.len() == shortcut.name.len() + 1 + doc.extension@.len()
                        &&& name.take(shortcut.name.len() as int) == shortcut.name
                        &&& name[shortcut.name.len() as int] == '.'
                        &&& name.skip(shortcut.name.len() as int + 1) == doc.extension@
                    }
            } else {
                &&& step.request == RequestView::FetchFile(shortcut.target_id)
                &&& job.phase == (JobPhaseView::Fetching {
                    path: paths::joined(shortcut.local_dir, encode_utf8(shortcut.name)),
                })
            }
        }),
{
    let job = job_start(root, shortcut, doc_type, stats).0;
    if !stats.downloaded_files.contains_key(shortcut.target_id) && shortcut.target_mime != Some(
        "application/vnd.google-apps.folder"@,
    ) && doc_type is Some {
        let doc = doc_type->Some_0;
        reveal_strlit(".");
        let name = shortcut.name + "."@ + doc.extension@;
        assert(name.take(shortcut.name.len() as int) =~= shortcut.name);
        assert(name.skip(shortcut.name.len() as int + 1) =~= doc.extension@);
        assert(job.phase->Exporting_path == paths::joined(
            shortcut.local_dir,
            encode_utf8(name),
        ));
    }
}

/// A document behind a shortcut is exported as one that is listed: a walk that comes upon a
/// document of the same kind asks for the same media type, and where the directory and the name
/// on disk are the same too, the two go to the same path.
pub proof fn law_documents_are_exported_alike(
    root: Seq<u8>,
    shortcut: PendingShortcutView,
    doc: DocType,
    stats: StatsView,
    walk: WalkView,
    counted: StatsView,
)
    requires
        !stats.downloaded_files.contains_key(shortcut.target_id),
        shortcut.target_mime != Some("application/vnd.google-apps.folder"@),
        walk.phase is Scanning,
        walk.frames.len() > 0,
        0 <= walk.frames.last().next < walk.frames.last().children.len(),
        ({
            let child = walk.frames.last().children[walk.frames.last().next];
            &&& child.name is Some
            &&& !child.is_shortcut && !child.is_directory && !child.is_binary
            &&& child.doc_type == Some(doc)
        }),
    ensures
        ({
            let (job, first) = job_start(root, shortcut, Some(doc), stats);
            let (after, _, step) = walk::walk_step(walk, counted, Event::Continue);
            let child = walk.frames.last().children[walk.frames.last().next];
            &&& first.request is ExportFile && step.request is ExportFile
            &&& first.request->ExportFile_id == shortcut.target_id
            &&& first.request->mime == step.request->mime
            &&& first.request->mime == doc.export_mime@
            &&& job.phase is Exporting && after.phase is Exporting
            &&& shortcut.local_dir == walk.frames.last().dir && shortcut.name
                == filename::sanitized(child.name->Some_0@) ==> job.phase->Exporting_path
                == after.phase->Exporting_path
        }),
{
    law_shortcut_goes_by_its_target(root, shortcut, Some(doc), stats);
    walk::law_next_file_is_asked_for_by_what_it_is(walk, counted);
}

/// A target that is not linked to is saved below the root at the path that it was to go to, with
/// no checksum expected, and then counts as a file without a size; it is not noted where it is. A
/// document that cannot be exported is warned of, with the path and the report, and the shortcut
/// has had its turn. Any other failure is the end, and is told as what failed.
pub proof fn law_target_is_saved_and_counted(
    job: JobView,
    stats: StatsView,
    path: Seq<u8>,
    report: String,
    error: Error,
)
    ensures
        ({
            let fetching = JobView { phase: JobPhaseView::Fetching { path }, ..job };
            let (next, counted, step) = job_step(fetching, stats, Event::Fetched(Ok(())));
            let refused = job_step(fetching, stats, Event::Fetched(Err(report)));
            &&& next == (JobView { phase: JobPhaseView::Storing, ..job }) && counted == stats
            &&& step.request == (RequestView::StoreBody {
                path: paths::joined(job.root, path),
                expected_md5: None,
            })
            &&& step.notices == seq![
                NoticeView::Info(
                    "Downloading shared file shortcut '"@ + paths::shown_path(path) + "'"@,
                ),
            ]
            &&& refused.2.request == RequestView::Finish(
                Err(ErrorView::DownloadFile(report@)),
            ) && refused.1 == stats && refused.0.phase is Ended
        }),
        ({
            let exporting = JobView { phase: JobPhaseView::Exporting { path }, ..job };
            let (next, counted, step) = job_step(exporting, stats, Event::Exported(Ok(())));
            let refused = job_step(exporting, stats, Event::Exported(Err(report)));
            let warning = "Failed to export shortcut '"@ + paths::shown_path(path) + "': "@
                + report@;
            &&& next == (JobView { phase: JobPhaseView::Storing, ..job }) && counted == stats
            &&& step.request == (RequestView::StoreBody {
                path: paths::joined(job.root, path),
                expected_md5: None,
            })
            &&& step.notices == seq![
                NoticeView::Info(
                    "Exporting shared "@ + job.doc_type->Some_0.label@ + " shortcut '"@
                        + paths::shown_path(path) + "'"@,
                ),
            ]
            &&& refused.0.phase is Ended
            &&& refused.1 == (StatsView { warnings: stats.warnings.push(warning), ..stats })
            &&& refused.2.request == RequestView::Finish(Ok(()))
            &&& refused.2.notices == seq![NoticeView::Warning("Warning: "@ + warning)]
        }),
        ({
            let storing = JobView { phase: JobPhaseView::Storing, ..job };
            let (next, counted, step) = job_step(storing, stats, Event::Stored(Ok(())));
            let refused = job_step(storing, stats, Event::Stored(Err(error)));
            &&& next.phase is Ended
            &&& counted == (StatsView { file_count: stats.file_count + 1, ..stats })
            &&& step.request == RequestView::Finish(Ok(())) && step.notices.len() == 0
            &&& refused.2.request == RequestView::Finish(Err(error@)) && refused.1 == stats
        }),
{
}

/// The folder that a shortcut leads to is walked through in a directory of the name of the
/// shortcut, below its own directory, under the id that the service gives for the folder. Each
/// step of the work is then one of that walk.
pub proof fn law_folder_is_walked_through_in_place(
    job: JobView,
    stats: StatsView,
    file: DriveFile,
    report: String,
    walk: WalkView,
    event: Event,
)
    ensures
        ({
            let getting = JobView { phase: JobPhaseView::GettingFolder, ..job };
            let (next, counted, step) = job_step(getting, stats, Event::GotFile(Ok(file)));
            let refused = job_step(getting, stats, Event::GotFile(Err(report)));
            let place = paths::joined(job.shortcut.local_dir, encode_utf8(job.shortcut.name));
            &&& counted == stats
            &&& next.phase is Walking
            &&& next.phase->walk.root == job.root && next.phase->walk.frames.len() == 0
            &&& next.phase->walk.phase == (walk::PhaseView::Creating {
                id: match file.id {
                    Some(id) => Some(id@),
                    None => None,
                },
                dir: place,
            })
            &&& step.request == RequestView::CreateDirectory(paths::joined(job.root, place))
            &&& step.notices == seq![
                NoticeView::Info(
                    "Downloading shared folder shortcut '"@ + paths::shown_path(place) + "'"@,
                ),
                NoticeView::Info("Creating directory "@ + paths::shown_path(place)),
            ]
            &&& refused.2.request == RequestView::Finish(Err(ErrorView::GetFile(report@)))
                && refused.1 == stats && refused.0.phase is Ended
        }),
        ({
            let walking = JobView { phase: JobPhaseView::Walking { walk }, ..job };
            let (next, counted, step) = job_step(walking, stats, event);
            &&& next.phase == (JobPhaseView::Walking {
                walk: walk::walk_step(walk, stats, event).0,
            })
            &&& counted == walk::walk_step(walk, stats, event).1
            &&& step == walk::walk_step(walk, stats, event).2
        }),
{
    let place = paths::joined(job.shortcut.local_dir, encode_utf8(job.shortcut.name));
    let getting = JobView { phase: JobPhaseView::GettingFolder, ..job };
    assert(job_step(getting, stats, Event::GotFile(Ok(file))).2.notices =~= seq![
        NoticeView::Info(
            "Downloading shared folder shortcut '"@ + paths::shown_path(place) + "'"@,
        ),
        NoticeView::Info("Creating directory "@ + paths::shown_path(place)),
    ]);
}

/// A link is put in its place: at once where there is none, after the removal of another where
/// there is one, and not at all where the one that is there leads the same way. Only what is in
/// the place of the link is removed, and what is put there leads to the target. A failure is told
/// with the place; where there are no links that is warned of.
pub proof fn law_link_is_put_in_its_place(
    job: JobView,
    stats: StatsView,
    target: Seq<u8>,
    state: LinkState,
    report: String,
)
    ensures
        ({
            let dir = paths::joined(job.root, job.shortcut.local_dir);
            let place = paths::joined(dir, encode_utf8(job.shortcut.name));
            let local = paths::joined(job.shortcut.local_dir, encode_utf8(job.shortcut.name));
            let ends = paths::shown_path(local) + "' -> '"@ + paths::shown_path(target) + "'"@;
            let create = StepView {
                notices: seq![NoticeView::Info("Creating symlink '"@ + ends)],
                request: RequestView::CreateLink { target, link: place },
            };
            let probing = JobView { phase: JobPhaseView::ProbingLink { target }, ..job };
            let removing = JobView { phase: JobPhaseView::RemovingLink { target }, ..job };
            let linking = JobView { phase: JobPhaseView::Linking, ..job };
            let probed = job_step(probing, stats, Event::LinkProbed(state));
            let removed = job_step(removing, stats, Event::LinkRemoved(Ok(())));
            let kept = job_step(removing, stats, Event::LinkRemoved(Err(report)));
            let created = job_step(linking, stats, Event::LinkCreated(Ok(())));
            let refused = job_step(linking, stats, Event::LinkCreated(Err(report)));
            let unknown = job_step(linking, stats, Event::LinksUnsupported);
            let failure = RequestView::Finish(Err(ErrorView::CreateSymlink(place, report@)));
            let warning = "Cannot create symlink for '"@ + job.shortcut.name
                + "' (not supported on this platform)"@;
            &&& match state {
                LinkState::NotALink => probed == (linking, stats, create),
                LinkState::Link(existing) => if existing is Some && (paths::path_bytes(
                    existing->Some_0,
                ) == target || paths::taken_for_same(
                    paths::path_bytes(existing->Some_0),
                    target,
                )) {
                    &&& probed.2.request == RequestView::Finish(Ok(())) && probed.0.phase is Ended
                    &&& probed.2.notices.len() == 0 && probed.1 == stats
                } else {
                    &&& probed.0 == removing && probed.1 == stats
                    &&& probed.2.request == RequestView::RemoveLink(place)
                    &&& probed.2.notices == seq![NoticeView::Info("Replacing symlink '"@ + ends)]
                },
            }
            &&& removed == (linking, stats, create)
            &&& kept.2.request == failure && kept.1 == stats && kept.0.phase is Ended
            &&& created.2.request == RequestView::Finish(Ok(())) && created.1 == stats
            &&& created.2.notices.len() == 0 && created.0.phase is Ended
            &&& refused.2.request == failure && refused.1 == stats && refused.0.phase is Ended
            &&& unknown.2.request == RequestView::Finish(Ok(())) && unknown.0.phase is Ended
            &&& unknown.1 == (StatsView { warnings: stats.warnings.push(warning), ..stats })
            &&& unknown.2.notices == seq![NoticeView::Warning("Warning: "@ + warning)]
        }),
{
    let local = paths::joined(job.shortcut.local_dir, encode_utf8(job.shortcut.name));
    let ends = paths::shown_path(local) + "' -> '"@ + paths::shown_path(target) + "'"@;
    assert("Creating symlink '"@ + ends =~= "Creating symlink '"@ + paths::shown_path(local)
        + "' -> '"@ + paths::shown_path(target) + "'"@);
    assert("Replacing symlink '"@ + ends =~= "Replacing symlink '"@ + paths::shown_path(local)
        + "' -> '"@ + paths::shown_path(target) + "'"@);
}

/// The work on a shortcut is a walk where its target is a folder that was not downloaded, and only
/// there; the description of the folder is then what is asked for first.
pub proof fn law_folders_that_are_not_there_are_walked(
    root: Seq<u8>,
    shortcut: PendingShortcutView,
    doc_type: Option<DocType>,
    stats: StatsView,
)
    ensures
        is_walked(shortcut, stats) <==> !stats.downloaded_files.contains_key(shortcut.target_id)
            && shortcut.target_mime == Some("application/vnd.google-apps.folder"@),
        is_walked(shortcut, stats) <==> job_start(
            root,
            shortcut,
            doc_type,
            stats,
        ).1.request is GetFile,
{
}

/// A job takes whatever can come of what it asked for, as long as no counter is full and a walk
/// takes it.
pub proof fn law_job_takes_what_can_come(job: JobView, stats: StatsView, event: Event)
    requires
        stats.file_count < u64::MAX,
    ensures
        job_accepts(job, stats, event) <==> match job.phase {
            JobPhaseView::ProbingLink { .. } => event is LinkProbed,
            JobPhaseView::RemovingLink { .. } => event is LinkRemoved,
            JobPhaseView::Linking => event is LinkCreated || event is LinksUnsupported,
            JobPhaseView::GettingFolder => event is GotFile,
            JobPhaseView::Walking { walk } => walk::walk_accepts(walk, stats, event),
            JobPhaseView::Exporting { .. } => event is Exported,
            JobPhaseView::Fetching { .. } => event is Fetched,
            JobPhaseView::Storing => event is Stored,
            JobPhaseView::Ended => false,
        },
{
}

} // verus!
