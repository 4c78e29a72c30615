//! The download of a directory as a whole: the walk through it, then the shortcuts that were
//! found on the way, then the summary.
//!
//! A shortcut may lead to a folder that holds shortcuts itself. They have their turn in the next
//! round, once all that were found before have had theirs. A shortcut that leads back into a
//! folder which shortcuts have led into on the way to it is not followed, so that folders which
//! lead to each other come to an end.

use crate::config;
use crate::config::{Config, DestinationProbe};
use crate::drive;
use crate::drive::{DocType, DriveFile};
use crate::error::{Error, ErrorView};
use crate::paths;
use crate::report;
use crate::shortcut;
use crate::shortcut::{JobPhaseView, JobView, ShortcutJob};
use crate::stats::{DownloadStats, PendingShortcut, PendingShortcutView, StatsView};
use crate::steps;
use crate::steps::{Event, Notice, NoticeView, Request, RequestView, Step, StepView};
use crate::text;
use crate::walk;
use crate::walk::{Walk, WalkView};
use crate::ways;
use crate::ways::Way;
use std::path::PathBuf;
use vstd::prelude::*;
use vstd::utf8::*;

verus! {

/// What a directory download is at.
enum Stage {
    Walking { walk: Walk },
    Turning,
    Classifying,
    Linking { job: ShortcutJob },
    Summing,
    Ended,
}

/// What a directory download is at.
pub enum StageView {
    /// The walk through the directory.
    Walking { walk: WalkView },
    /// On its way to the next shortcut.
    Turning,
    /// The kind of document that the next shortcut leads to.
    Classifying,
    /// The work on a shortcut.
    Linking { job: JobView },
    /// The summary.
    Summing,
    /// Its end.
    Ended,
}

impl View for Stage {
    type V = StageView;

    closed spec fn view(&self) -> StageView {
        match *self {
            Stage::Walking { walk } => StageView::Walking { walk: walk@ },
            Stage::Turning => StageView::Turning,
            Stage::Classifying => StageView::Classifying,
            Stage::Linking { job } => StageView::Linking { job: job@ },
            Stage::Summing => StageView::Summing,
            Stage::Ended => StageView::Ended,
        }
    }
}

/// A directory download under way.
pub struct DirectoryDownload {
    root: PathBuf,
    queue: Vec<PendingShortcut>,
    above: Vec<Way>,
    later: Vec<Way>,
    next: usize,
    stage: Stage,
}

/// What a [`DirectoryDownload`] holds.
#[verifier::ext_equal]
pub struct DownloadView {
    /// The canonical path of the destination.
    pub root: Seq<u8>,
    /// The shortcuts that were found and that take turns now.
    pub queue: Seq<PendingShortcutView>,
    /// For each of them, the folders that shortcuts have led into on the way to it.
    pub above: Seq<Seq<Seq<char>>>,
    /// The same for those that were found since, and have their turn in the next round.
    pub later: Seq<Seq<Seq<char>>>,
    /// The position of the shortcut that is dealt with next.
    pub next: int,
    /// What the download is at.
    pub stage: StageView,
}

impl View for DirectoryDownload {
    type V = DownloadView;

    closed spec fn view(&self) -> DownloadView {
        DownloadView {
            root: paths::path_bytes(self.root),
            queue: self.queue@.map_values(|shortcut: PendingShortcut| shortcut@),
            above: ways::views(self.above@),
            later: ways::views(self.later@),
            next: self.next as int,
            stage: self.stage@,
        }
    }
}

impl DownloadView {
    /// Whether a download can be like this.
    pub open spec fn wf(self) -> bool {
        &&& 0 <= self.next <= self.queue.len()
        &&& self.above.len() == self.queue.len()
        &&& match self.stage {
            StageView::Walking { walk } => walk.wf() && self.queue.len() == 0 && self.later.len()
                == 0,
            StageView::Classifying => self.next < self.queue.len(),
            StageView::Linking { job } => job.wf() && self.next > 0,
            _ => true,
        }
    }

    /// The folders that shortcuts have led into once the shortcut that has its turn is followed.
    pub open spec fn way_through(self) -> Seq<Seq<char>> {
        self.above[self.next - 1].push(self.queue[self.next - 1].target_id)
    }

    /// Whether the next shortcut leads back into a folder that shortcuts have led into on the way
    /// to it.
    pub open spec fn leads_back(self, stats: StatsView) -> bool {
        let shortcut = self.queue[self.next];
        shortcut::is_walked(shortcut, stats) && self.above[self.next].contains(
            shortcut.target_id,
        )
    }

    /// This download at another stage.
    pub open spec fn at_stage(self, stage: StageView) -> DownloadView {
        DownloadView { stage, ..self }
    }
}

/// The warning that a shortcut leads back.
pub open spec fn back_warning(shortcut: PendingShortcutView) -> Seq<char> {
    "Skipping folder shortcut '"@ + paths::shown_path(
        paths::joined(shortcut.local_dir, encode_utf8(shortcut.name)),
    ) + "' (leads back to a folder on the way to it)"@
}

/// The download, what it has done, and its step where nothing is left of the walk or of the
/// shortcuts before: the shortcuts that were found meanwhile take turns, and where there are none
/// the summary comes.
pub open spec fn turn_to_pending(
    download: DownloadView,
    stats: StatsView,
    notices: Seq<NoticeView>,
) -> (DownloadView, StatsView, StepView) {
    if stats.pending_shortcuts.len() == 0 {
        (
            download.at_stage(StageView::Summing),
            stats,
            StepView { notices, request: RequestView::ShowSize(stats.total_file_size as u64) },
        )
    } else {
        (
            DownloadView {
                queue: stats.pending_shortcuts,
                above: ways::filled(
                    download.later,
                    stats.pending_shortcuts.len(),
                    Seq::empty(),
                ),
                later: Seq::empty(),
                next: 0,
                stage: StageView::Turning,
                ..download
            },
            StatsView { pending_shortcuts: Seq::empty(), ..stats },
            StepView {
                notices: notices.push(
                    NoticeView::Info(report::processing(stats.pending_shortcuts.len())),
                ),
                request: RequestView::Continue,
            },
        )
    }
}

/// The download, what it has done, and its step once the walk has made `step`: the end of the
/// walk is the start on the shortcuts, or on the summary where there are none.
pub open spec fn after_walk_step(download: DownloadView, stats: StatsView, step: StepView) -> (
    DownloadView,
    StatsView,
    StepView,
) {
    match step.request {
        RequestView::Finish(Err(_)) => (download.at_stage(StageView::Ended), stats, step),
        RequestView::Finish(Ok(_)) => turn_to_pending(download, stats, step.notices),
        _ => (download, stats, step),
    }
}

/// The download and its step once the work on a shortcut has made `step`: the end of that work
/// is the turn of the next shortcut. What was found in the course of it was found on the way
/// through the folder that the shortcut leads to.
pub open spec fn after_job_step(download: DownloadView, stats: StatsView, step: StepView) -> (
    DownloadView,
    StepView,
) {
    match step.request {
        RequestView::Finish(Err(_)) => (download.at_stage(StageView::Ended), step),
        RequestView::Finish(Ok(_)) => (
            DownloadView {
                later: ways::filled(
                    download.later,
                    stats.pending_shortcuts.len(),
                    download.way_through(),
                ),
                stage: StageView::Turning,
                ..download
            },
            StepView { notices: step.notices, request: RequestView::Continue },
        ),
        _ => (download, step),
    }
}

/// The download, what it has done, and its next step after `event`.
pub open spec fn download_step(download: DownloadView, stats: StatsView, event: Event) -> (
    DownloadView,
    StatsView,
    StepView,
) {
    match (download.stage, event) {
        (StageView::Walking { walk }, event) => {
            let (next, counted, step) = walk::walk_step(walk, stats, event);
            after_walk_step(
                download.at_stage(StageView::Walking { walk: next }),
                counted,
                step,
            )
        },
        (StageView::Turning, Event::Continue) => if download.next < download.queue.len() {
            (
                download.at_stage(StageView::Classifying),
                stats,
                steps::silent(
                    RequestView::ClassifyTarget(
                        match download.queue[download.next].target_mime {
                            Some(mime) => mime,
                            None => Seq::empty(),
                        },
                    ),
                ),
            )
        } else {
            turn_to_pending(download, stats, Seq::empty())
        },
        (StageView::Classifying, Event::Classified(doc_type)) => if download.leads_back(stats) {
            let warning = back_warning(download.queue[download.next]);
            (
                DownloadView {
                    next: download.next + 1,
                    stage: StageView::Turning,
                    ..download
                },
                stats.warned(warning),
                steps::noted(steps::warning_line(warning), RequestView::Continue),
            )
        } else {
            let (job, step) = shortcut::job_start(
                download.root,
                download.queue[download.next],
                doc_type,
                stats,
            );
            (
                DownloadView {
                    next: download.next + 1,
                    stage: StageView::Linking { job },
                    ..download
                },
                stats,
                step,
            )
        },
        (StageView::Linking { job }, event) => {
            let (next, counted, step) = shortcut::job_step(job, stats, event);
            let (turned, made) = after_job_step(
                download.at_stage(StageView::Linking { job: next }),
                counted,
                step,
            );
            (turned, counted, made)
        },
        (StageView::Summing, Event::SizeShown(size)) => (
            download.at_stage(StageView::Ended),
            stats,
            StepView {
                notices: report::closing(stats, size@),
                request: RequestView::Finish(Ok(())),
            },
        ),
        _ => (download, stats, steps::silent(RequestView::Continue)),
    }
}

/// Whether `event` is what a download waits for.
pub open spec fn download_waits_for(download: DownloadView, event: Event) -> bool {
    match download.stage {
        StageView::Walking { walk } => walk::walk_waits_for(walk, event),
        StageView::Turning => event is Continue,
        StageView::Classifying => event is Classified,
        StageView::Linking { job } => shortcut::job_waits_for(job, event),
        StageView::Summing => event is SizeShown,
        StageView::Ended => false,
    }
}

/// Whether there is room for what a download counts when `event` comes.
pub open spec fn download_has_room(download: DownloadView, stats: StatsView, event: Event) -> bool {
    match download.stage {
        StageView::Walking { walk } => walk::walk_has_room(walk, stats, event),
        StageView::Linking { job } => shortcut::job_has_room(job, stats, event),
        _ => true,
    }
}

/// Whether a download can take `event`.
pub open spec fn download_accepts(download: DownloadView, stats: StatsView, event: Event) -> bool {
    download_waits_for(download, event) && download_has_room(download, stats, event)
}

/// A download at its start, and its first step; or why it cannot start.
pub open spec fn download_start(file: DriveFile, config: Config, probe: DestinationProbe) -> Result<
    (DownloadView, StepView),
    ErrorView,
> {
    match config::directory_target_of(file, config, probe) {
        Err(error) => Err(error),
        Ok((root, dir)) => Ok(
            (
                DownloadView {
                    root,
                    queue: Seq::empty(),
                    above: Seq::empty(),
                    later: Seq::empty(),
                    next: 0,
                    stage: StageView::Walking {
                        walk: walk::started(root, drive::text_of(file.id), dir),
                    },
                },
                walk::entering(root, dir, Seq::empty()),
            ),
        ),
    }
}

impl DirectoryDownload {
    /// Starts to download the directory `file`, and tells what to do first. `probe` is what the
    /// file system says of [`Config::destination_dir`].
    pub fn start(file: &DriveFile, config: &Config, probe: &DestinationProbe) -> (result: Result<
        (DirectoryDownload, Step),
        Error,
    >)
        ensures
            (match result {
                Ok((download, step)) => Ok::<(DownloadView, StepView), ErrorView>(
                    (download@, step@),
                ),
                Err(error) => Err::<(DownloadView, StepView), ErrorView>(error@),
            }) == download_start(*file, *config, *probe),
            result matches Ok((download, _)) ==> download@.wf(),
    {
        match config::directory_target(file, config, probe) {
            Err(error) => Err(error),
            Ok((root, dir)) => {
                let (walk, step) = Walk::start(&root, file, &dir);
                let queue: Vec<PendingShortcut> = Vec::new();
                let download = DirectoryDownload {
                    root,
                    queue,
                    above: Vec::new(),
                    later: Vec::new(),
                    next: 0,
                    stage: Stage::Walking { walk },
                };
                assert(download@.queue =~= Seq::<PendingShortcutView>::empty());
                assert(download@.above =~= Seq::<Seq<Seq<char>>>::empty());
                assert(download@.later =~= Seq::<Seq<Seq<char>>>::empty());
                Ok((download, step))
            },
        }
    }

    /// Whether this download can take `event`.
    pub fn accepts(&self, stats: &DownloadStats, event: &Event) -> (accepted: bool)
        requires
            self@.wf(),
        ensures
            accepted == download_accepts(self@, stats@, *event),
    {
        match (&self.stage, event) {
            (Stage::Walking { walk }, event) => walk.accepts(stats, event),
            (Stage::Turning, Event::Continue) => true,
            (Stage::Classifying, Event::Classified(_)) => true,
            (Stage::Linking { job }, event) => job.accepts(stats, event),
            (Stage::Summing, Event::SizeShown(_)) => true,
            _ => false,
        }
    }

    /// Goes on to the shortcuts that were found meanwhile, or to the summary.
    fn turn_to_pending(&mut self, stats: &mut DownloadStats, notices: Vec<Notice>) -> (step: Step)
        requires
            old(self)@.next == old(self)@.queue.len(),
            old(self)@.above.len() == old(self)@.queue.len(),
        ensures
            final(self)@.wf(),
            (final(self)@, final(stats)@, step@) == turn_to_pending(
                old(self)@,
                old(stats)@,
                notices@.map_values(|notice: Notice| notice@),
            ),
    {
        let count: usize = stats.pending_shortcuts.len();
        assert(count == stats@.pending_shortcuts.len());
        if count == 0 {
            self.stage = Stage::Summing;
            return Step { notices, request: Request::ShowSize(stats.total_file_size) };
        }
        let mut notices = notices;
        let ghost before = notices@.map_values(|notice: Notice| notice@);
        notices.push(Notice::Info(report::processing_line(count)));
        assert(notices@.map_values(|notice: Notice| notice@) =~= before.push(
            NoticeView::Info(report::processing(count as nat)),
        ));
        let mut above: Vec<Way> = Vec::new();
        std::mem::swap(&mut above, &mut self.later);
        assert(self@.later =~= Seq::<Seq<Seq<char>>>::empty());
        ways::fill(&mut above, count, &Way::new());
        self.above = above;
        self.queue = stats.take_pending();
        self.next = 0;
        self.stage = Stage::Turning;
        Step { notices, request: Request::Continue }
    }

    /// Goes on from the step that the walk has made.
    fn after_walk(&mut self, stats: &mut DownloadStats, step: Step) -> (made: Step)
        requires
            old(self)@.wf(),
            old(self)@.stage is Walking,
        ensures
            final(self)@.wf(),
            (final(self)@, final(stats)@, made@) == after_walk_step(
                old(self)@,
                old(stats)@,
                step@,
            ),
    {
        match step.request {
            Request::Finish(Err(error)) => {
                self.stage = Stage::Ended;
                Step { notices: step.notices, request: Request::Finish(Err(error)) }
            },
            Request::Finish(Ok(_)) => self.turn_to_pending(stats, step.notices),
            request => Step { notices: step.notices, request },
        }
    }

    /// Goes on from the step that the work on a shortcut has made.
    fn after_job(&mut self, stats: &DownloadStats, step: Step) -> (made: Step)
        requires
            old(self)@.wf(),
            old(self)@.stage is Linking,
        ensures
            final(self)@.wf(),
            (final(self)@, made@) == after_job_step(old(self)@, stats@, step@),
    {
        match step.request {
            Request::Finish(Err(error)) => {
                self.stage = Stage::Ended;
                Step { notices: step.notices, request: Request::Finish(Err(error)) }
            },
            Request::Finish(Ok(_)) => {
                let current: usize = self.next - 1;
                let way = self.above[current].into_folder(&self.queue[current].target_id);
                let count: usize = stats.pending_shortcuts.len();
                assert(count == stats@.pending_shortcuts.len());
                ways::fill(&mut self.later, count, &way);
                self.stage = Stage::Turning;
                Step { notices: step.notices, request: Request::Continue }
            },
            request => Step { notices: step.notices, request },
        }
    }

    /// Passes over the next shortcut, which leads back.
    fn skip_shortcut(&mut self, stats: &mut DownloadStats) -> (step: Step)
        requires
            old(self)@.next < old(self)@.queue.len(),
            old(self)@.above.len() == old(self)@.queue.len(),
        ensures
            final(self)@.wf(),
            final(self)@ == (DownloadView {
                next: old(self)@.next + 1,
                stage: StageView::Turning,
                ..old(self)@
            }),
            ({
                let warning = back_warning(old(self)@.queue[old(self)@.next]);
                &&& final(stats)@ == old(stats)@.warned(warning)
                &&& step@ == steps::noted(steps::warning_line(warning), RequestView::Continue)
            }),
    {
        let shortcut = &self.queue[self.next];
        let path = paths::join_name(&shortcut.local_dir, &shortcut.name);
        let warning = text::concat3(
            "Skipping folder shortcut '",
            &paths::display_path(&path),
            "' (leads back to a folder on the way to it)",
        );
        let notice = steps::warning_notice(&warning);
        stats.warn(warning);
        assert(self.next < self.queue.len());
        self.next = self.next + 1;
        self.stage = Stage::Turning;
        steps::noted_step(notice, Request::Continue)
    }

    /// Takes what came of the last request, and tells what to do next. A shortcut to a file that
    /// was downloaded starts on a link that leads there.
    pub fn advance(&mut self, stats: &mut DownloadStats, event: Event) -> (step: Step)
        requires
            old(self)@.wf(),
            download_accepts(old(self)@, old(stats)@, event),
        ensures
            final(self)@.wf(),
            (final(self)@, final(stats)@, step@) == download_step(
                old(self)@,
                old(stats)@,
                event,
            ),
            old(self)@.stage is Classifying && final(self)@.stage is Linking ==>
                final(self)@.stage->job.has_sound_link(old(stats)@),
    {
        let mut stage = Stage::Ended;
        std::mem::swap(&mut stage, &mut self.stage);
        match (stage, event) {
            (Stage::Walking { walk }, event) => {
                let mut walk = walk;
                let step = walk.advance(stats, event);
                self.stage = Stage::Walking { walk };
                self.after_walk(stats, step)
            },
            (Stage::Turning, Event::Continue) => {
                if self.next < self.queue.len() {
                    let mime = drive::copy_text_or(&self.queue[self.next].target_mime, "");
                    proof {
                        reveal_strlit("");
                        assert(""@ =~= Seq::<char>::empty());
                    }
                    self.stage = Stage::Classifying;
                    steps::silent_step(Request::ClassifyTarget(mime))
                } else {
                    let notices: Vec<Notice> = Vec::new();
                    assert(notices@.map_values(|notice: Notice| notice@)
                        =~= Seq::<NoticeView>::empty());
                    self.turn_to_pending(stats, notices)
                }
            },
            (Stage::Classifying, Event::Classified(doc_type)) => {
                let shortcut = &self.queue[self.next];
                if shortcut::will_walk(shortcut, stats) && self.above[self.next].has(
                    &shortcut.target_id,
                ) {
                    return self.skip_shortcut(stats);
                }
                let (job, step) = ShortcutJob::start(
                    &self.root,
                    &self.queue[self.next],
                    doc_type,
                    stats,
                );
                assert(self.next < self.queue.len());
                self.next = self.next + 1;
                self.stage = Stage::Linking { job };
                step
            },
            (Stage::Linking { job }, event) => {
                let mut job = job;
                let step = job.advance(stats, event);
                self.stage = Stage::Linking { job };
                self.after_job(stats, step)
            },
            (Stage::Summing, Event::SizeShown(size)) => {
                let notices = report::closing_notices(stats, &size);
                self.stage = Stage::Ended;
                Step { notices, request: Request::Finish(Ok(())) }
            },
            _ => {
                assert(false);
                steps::silent_step(Request::Continue)
            },
        }
    }
}

/// The download waits for what it has asked for: whatever can come of its request is what it
/// waits for, until the request that ends it.
pub proof fn law_download_waits_for_what_it_asked_for(
    download: DownloadView,
    stats: StatsView,
    event: Event,
    answer: Event,
)
    requires
        download_accepts(download, stats, event),
    ensures
        ({
            let (next, _, step) = download_step(download, stats, event);
            &&& steps::answers(step.request, answer) ==> download_waits_for(next, answer)
            &&& step.request is Finish <==> next.stage is Ended
        }),
{
    if let StageView::Walking { walk } = download.stage {
        walk::law_walk_waits_for_what_it_asked_for(walk, stats, event, answer);
    }
    if let StageView::Linking { job } = download.stage {
        shortcut::law_job_waits_for_what_it_asked_for(job, stats, event, answer);
    }
    if download.stage is Classifying {
        shortcut::law_job_waits_from_its_start(
            download.root,
            download.queue[download.next],
            event->Classified_0,
            stats,
            answer,
        );
    }
}

/// A step of a download that can be as it is leads to one that can.
proof fn lemma_step_keeps_wf(download: DownloadView, stats: StatsView, event: Event)
    requires
        download.wf(),
        download_accepts(download, stats, event),
    ensures
        download_step(download, stats, event).0.wf(),
{
    if let StageView::Walking { walk } = download.stage {
        walk::lemma_step_keeps_wf(walk, stats, event);
    }
    if let StageView::Linking { job } = download.stage {
        shortcut::lemma_step_keeps_wf(job, stats, event);
    }
}

/// The shortcuts take turns: once the walk is over, each that has its turn is the next one of the
/// list. It is dealt with, unless it leads back; then that is warned of. The list stays as it is
/// until all of it have had their turn. Then those that were found meanwhile make up the list, and
/// the summary is asked for only where there are none.
pub proof fn law_shortcuts_take_turns(download: DownloadView, stats: StatsView, event: Event)
    requires
        download.wf(),
        download_accepts(download, stats, event),
        download.stage !is Walking,
    ensures
        ({
            let (after, left, _) = download_step(download, stats, event);
            let all_done = download.stage is Turning && download.next == download.queue.len();
            &&& after.wf()
            &&& after.stage !is Walking
            &&& !all_done || stats.pending_shortcuts.len() == 0 ==> {
                &&& after.queue == download.queue
                &&& after.next == download.next + if download.stage is Classifying {
                    1int
                } else {
                    0
                }
            }
            &&& all_done && stats.pending_shortcuts.len() > 0 ==> {
                &&& after.stage is Turning
                &&& after.queue == stats.pending_shortcuts
                &&& after.next == 0
                &&& left.pending_shortcuts.len() == 0
            }
            &&& download.stage is Classifying ==> if download.leads_back(stats) {
                &&& after.stage is Turning
                &&& left == stats.warned(back_warning(download.queue[download.next]))
            } else {
                &&& after.stage matches StageView::Linking { job }
                &&& job.shortcut == download.queue[download.next]
                &&& left == stats
            }
            &&& after.stage is Summing <==> all_done && stats.pending_shortcuts.len() == 0
        }),
{
    lemma_step_keeps_wf(download, stats, event);
}

/// Whether no shortcut is left once a download has come to its summary.
pub open spec fn is_settled(download: DownloadView, stats: StatsView) -> bool {
    download.stage is Summing ==> download.next == download.queue.len()
        && stats.pending_shortcuts.len() == 0
}

/// No shortcut is left behind: a download comes to its summary, and ends well, only when all of
/// the list have had their turn and no other was found meanwhile.
pub proof fn law_summary_waits_for_all_shortcuts(
    download: DownloadView,
    stats: StatsView,
    event: Event,
)
    requires
        download.wf(),
        is_settled(download, stats),
        download_accepts(download, stats, event),
    ensures
        ({
            let (after, left, step) = download_step(download, stats, event);
            &&& is_settled(after, left)
            &&& step.request == RequestView::Finish(Ok(())) ==> after.next == after.queue.len()
                && left.pending_shortcuts.len() == 0
        }),
{
}

/// The shortcuts that a step finds when `event` comes.
pub open spec fn newly_found(download: DownloadView, stats: StatsView, event: Event) -> Seq<
    PendingShortcutView,
> {
    let counted = match download.stage {
        StageView::Walking { walk } => walk::walk_step(walk, stats, event).1,
        StageView::Linking { job } => shortcut::job_step(job, stats, event).1,
        _ => stats,
    };
    counted.pending_shortcuts.skip(stats.pending_shortcuts.len() as int)
}

/// What a download has come to.
pub struct DownloadRun {
    /// The download.
    pub download: DownloadView,
    /// What it has done.
    pub stats: StatsView,
    /// Its last step.
    pub step: StepView,
    /// The shortcuts that were found so far.
    pub found: Seq<PendingShortcutView>,
    /// Those of them that have had their turn.
    pub turned: Seq<PendingShortcutView>,
    /// How many lists of shortcuts have been started on.
    pub rounds: nat,
}

/// What the run `before` has come to after one more event.
pub open spec fn next_run(before: DownloadRun, event: Event) -> DownloadRun {
    let (after, stats, step) = download_step(before.download, before.stats, event);
    let stage = before.download.stage;
    DownloadRun {
        download: after,
        stats,
        step,
        found: before.found + newly_found(before.download, before.stats, event),
        turned: if stage is Classifying {
            before.turned.push(before.download.queue[before.download.next])
        } else {
            before.turned
        },
        rounds: if after.stage is Turning && (stage is Walking || stage is Turning) {
            before.rounds + 1
        } else {
            before.rounds
        },
    }
}

/// What a download that starts as `download` with the step `step` has come to after `events`.
pub open spec fn download_run(
    download: DownloadView,
    step: StepView,
    events: Seq<Event>,
) -> DownloadRun
    decreases events.len(),
{
    if events.len() == 0 {
        DownloadRun {
            download,
            stats: StatsView::empty(),
            step,
            found: Seq::empty(),
            turned: Seq::empty(),
            rounds: 0,
        }
    } else {
        next_run(download_run(download, step, events.drop_last()), events.last())
    }
}

/// Whether each of `events` is one that the download can take when it comes.
pub open spec fn download_run_is_accepted(
    download: DownloadView,
    step: StepView,
    events: Seq<Event>,
) -> bool
    decreases events.len(),
{
    events.len() > 0 ==> {
        let before = download_run(download, step, events.drop_last());
        &&& download_run_is_accepted(download, step, events.drop_last())
        &&& download_accepts(before.download, before.stats, events.last())
    }
}

/// Whether the shortcuts that were found are those that have had their turn, those that are still
/// on the list and those that were found since the list was made, in that order.
pub open spec fn accounts_for_found(run: DownloadRun) -> bool {
    run.found == run.turned + run.download.queue.skip(run.download.next)
        + run.stats.pending_shortcuts
}

/// The ids of the targets of `shortcuts`.
pub open spec fn target_ids(shortcuts: Seq<PendingShortcutView>) -> Set<Seq<char>> {
    shortcuts.map_values(|shortcut: PendingShortcutView| shortcut.target_id).to_set()
}

/// Whether `way` goes through `count` folders, none of them twice, each the target of one of
/// `turned`.
pub open spec fn is_way(way: Seq<Seq<char>>, count: int, turned: Seq<PendingShortcutView>) -> bool {
    &&& way.no_duplicates()
    &&& way.len() == count
    &&& forall|i: int| 0 <= i < way.len() ==> target_ids(turned).contains(#[trigger] way[i])
}

/// Whether each of `ways` is such a way.
pub open spec fn are_ways(
    ways: Seq<Seq<Seq<char>>>,
    count: int,
    turned: Seq<PendingShortcutView>,
) -> bool {
    forall|i: int| 0 <= i < ways.len() ==> is_way(#[trigger] ways[i], count, turned)
}

/// Whether `job` is to walk through a folder, or does.
spec fn is_on_folder(job: JobView) -> bool {
    job.phase is GettingFolder || job.phase is Walking
}

/// Whether the ways to the shortcuts of `run` are known: each goes through one folder more than
/// those of the round before, and through none twice.
spec fn knows_its_ways(run: DownloadRun) -> bool {
    let download = run.download;
    let pending = run.stats.pending_shortcuts.len();
    &&& run.rounds > 0 <==> download.queue.len() > 0
    &&& are_ways(download.above, run.rounds - 1, run.turned)
    &&& are_ways(download.later, run.rounds as int, run.turned)
    &&& match download.stage {
        StageView::Walking { .. } => run.rounds == 0,
        StageView::Linking { job } => {
            let shortcut = download.queue[download.next - 1];
            &&& job.shortcut == shortcut
            &&& run.turned.len() > 0 && run.turned.last() == shortcut
            &&& is_on_folder(job) ==> !download.above[download.next - 1].contains(
                shortcut.target_id,
            )
            &&& download.later.len() <= pending
            &&& job.phase !is Walking ==> download.later.len() == pending
        },
        StageView::Ended => true,
        _ => download.later.len() == pending,
    }
}

/// What holds of each run.
spec fn is_orderly(run: DownloadRun) -> bool {
    &&& run.download.wf()
    &&& is_settled(run.download, run.stats)
    &&& accounts_for_found(run)
    &&& knows_its_ways(run)
}

/// One more shortcut that has had its turn adds its target.
proof fn lemma_more_targets(turned: Seq<PendingShortcutView>, last: PendingShortcutView)
    ensures
        target_ids(turned).subset_of(target_ids(turned.push(last))),
        target_ids(turned.push(last)).contains(last.target_id),
{
    let (few, more) = (
        turned.map_values(|shortcut: PendingShortcutView| shortcut.target_id),
        turned.push(last).map_values(|shortcut: PendingShortcutView| shortcut.target_id),
    );
    assert(more =~= few.push(last.target_id));
    assert(more[few.len() as int] == last.target_id);
    assert forall|id: Seq<char>| few.contains(id) implies more.contains(id) by {
        let i = choose|i: int| 0 <= i < few.len() && few[i] == id;
        assert(more[i] == id);
    }
}

/// The last shortcut that has had its turn is among the targets.
proof fn lemma_last_target(turned: Seq<PendingShortcutView>)
    requires
        turned.len() > 0,
    ensures
        target_ids(turned).contains(turned.last().target_id),
{
    lemma_more_targets(turned.drop_last(), turned.last());
    assert(turned.drop_last().push(turned.last()) =~= turned);
}

/// A step of the walk through the directory keeps a run orderly.
proof fn lemma_walking_is_orderly(before: DownloadRun, event: Event)
    requires
        is_orderly(before),
        before.download.stage is Walking,
        download_accepts(before.download, before.stats, event),
    ensures
        accounts_for_found(next_run(before, event)),
        knows_its_ways(next_run(before, event)),
{
    let run = next_run(before, event);
    let walk = before.download.stage->walk;
    let fresh = newly_found(before.download, before.stats, event);
    walk::law_step_loses_nothing(walk, before.stats, event);
    let counted = walk::walk_step(walk, before.stats, event).1;
    assert(counted.pending_shortcuts =~= before.stats.pending_shortcuts + fresh);
    assert(run.found =~= run.turned + run.download.queue.skip(run.download.next)
        + run.stats.pending_shortcuts);
}

/// The turn to the next shortcut, or to the next list, keeps a run orderly.
proof fn lemma_turning_is_orderly(before: DownloadRun, event: Event)
    requires
        is_orderly(before),
        before.download.stage is Turning || before.download.stage is Summing,
        download_accepts(before.download, before.stats, event),
    ensures
        accounts_for_found(next_run(before, event)),
        knows_its_ways(next_run(before, event)),
{
    let run = next_run(before, event);
    assert(newly_found(before.download, before.stats, event) =~= Seq::empty());
    assert(run.found =~= run.turned + run.download.queue.skip(run.download.next)
        + run.stats.pending_shortcuts);
    if run.rounds > before.rounds {
        assert(run.download.above =~= before.download.later);
    }
}

/// The start on a shortcut, or its omission, keeps a run orderly.
proof fn lemma_classifying_is_orderly(before: DownloadRun, event: Event)
    requires
        is_orderly(before),
        before.download.stage is Classifying,
        download_accepts(before.download, before.stats, event),
    ensures
        accounts_for_found(next_run(before, event)),
        knows_its_ways(next_run(before, event)),
{
    let run = next_run(before, event);
    let shortcut = before.download.queue[before.download.next];
    let rest = before.download.queue.skip(before.download.next);
    assert(newly_found(before.download, before.stats, event) =~= Seq::empty());
    assert(rest =~= seq![shortcut] + run.download.queue.skip(run.download.next));
    assert(run.found =~= run.turned + run.download.queue.skip(run.download.next)
        + run.stats.pending_shortcuts);
    lemma_more_targets(before.turned, shortcut);
}

/// A step of the work on a shortcut keeps a run orderly.
proof fn lemma_linking_is_orderly(before: DownloadRun, event: Event)
    requires
        is_orderly(before),
        before.download.stage is Linking,
        download_accepts(before.download, before.stats, event),
    ensures
        accounts_for_found(next_run(before, event)),
        knows_its_ways(next_run(before, event)),
{
    let run = next_run(before, event);
    let job = before.download.stage->job;
    let fresh = newly_found(before.download, before.stats, event);
    if let JobPhaseView::Walking { walk } = job.phase {
        walk::law_step_loses_nothing(walk, before.stats, event);
    }
    let counted = shortcut::job_step(job, before.stats, event).1;
    assert(counted.pending_shortcuts =~= before.stats.pending_shortcuts + fresh);
    assert(run.found =~= run.turned + run.download.queue.skip(run.download.next)
        + run.stats.pending_shortcuts);
    if run.download.stage is Turning {
        lemma_last_target(before.turned);
        let above = before.download.above[before.download.next - 1];
        let through = before.download.way_through();
        if job.phase is Walking {
            assert(is_way(above, before.rounds - 1, before.turned));
            assert(is_way(through, before.rounds as int, before.turned));
        }
        assert forall|i: int| 0 <= i < run.download.later.len() implies is_way(
            #[trigger] run.download.later[i],
            run.rounds as int,
            run.turned,
        ) by {
            if i < before.download.later.len() {
                assert(run.download.later[i] == before.download.later[i]);
            } else {
                assert(run.download.later[i] == through);
            }
        }
    }
}

/// Each run is orderly.
proof fn lemma_run_is_orderly(
    file: DriveFile,
    config: Config,
    probe: DestinationProbe,
    events: Seq<Event>,
)
    requires
        download_start(file, config, probe) is Ok,
        ({
            let (download, step) = download_start(file, config, probe)->Ok_0;
            download_run_is_accepted(download, step, events)
        }),
    ensures
        ({
            let (download, step) = download_start(file, config, probe)->Ok_0;
            is_orderly(download_run(download, step, events))
        }),
    decreases events.len(),
{
    let (download, step) = download_start(file, config, probe)->Ok_0;
    if events.len() == 0 {
        let run = download_run(download, step, events);
        assert(run.found =~= run.turned + run.download.queue.skip(run.download.next)
            + run.stats.pending_shortcuts);
    } else {
        lemma_run_is_orderly(file, config, probe, events.drop_last());
        let before = download_run(download, step, events.drop_last());
        let event = events.last();
        lemma_step_keeps_wf(before.download, before.stats, event);
        law_summary_waits_for_all_shortcuts(before.download, before.stats, event);
        match before.download.stage {
            StageView::Walking { .. } => lemma_walking_is_orderly(before, event),
            StageView::Classifying => lemma_classifying_is_orderly(before, event),
            StageView::Linking { .. } => lemma_linking_is_orderly(before, event),
            _ => lemma_turning_is_orderly(before, event),
        }
    }
}

/// Every shortcut has its turn: at any time those that were found are those that have had their
/// turn, those that are still on the list and those that were found since the list was made, in
/// that order. So a download that has ended well has dealt with each shortcut that it found,
/// once, in the order in which it found them.
pub proof fn law_every_shortcut_has_its_turn(
    file: DriveFile,
    config: Config,
    probe: DestinationProbe,
    events: Seq<Event>,
)
    requires
        download_start(file, config, probe) is Ok,
        ({
            let (download, step) = download_start(file, config, probe)->Ok_0;
            download_run_is_accepted(download, step, events)
        }),
    ensures
        ({
            let (download, step) = download_start(file, config, probe)->Ok_0;
            let run = download_run(download, step, events);
            &&& run.download.wf()
            &&& is_settled(run.download, run.stats)
            &&& accounts_for_found(run)
            &&& events.len() > 0 && run.step.request == RequestView::Finish(Ok(())) ==> run.found
                == run.turned
        }),
{
    lemma_run_is_orderly(file, config, probe, events);
    let (download, step) = download_start(file, config, probe)->Ok_0;
    let run = download_run(download, step, events);
    if events.len() > 0 && run.step.request == RequestView::Finish(Ok(())) {
        lemma_run_is_orderly(file, config, probe, events.drop_last());
        let before = download_run(download, step, events.drop_last());
        law_summary_waits_for_all_shortcuts(before.download, before.stats, events.last());
        assert(run.turned + run.download.queue.skip(run.download.next)
            + run.stats.pending_shortcuts =~= run.turned);
    }
}

/// No folder is entered twice on one way: of the folders that shortcuts have led into on the way
/// to a shortcut, no two are the same. There is one for each round before. So there are none on
/// the way to the shortcuts of the first round.
pub proof fn law_no_folder_is_entered_twice_on_one_way(
    file: DriveFile,
    config: Config,
    probe: DestinationProbe,
    events: Seq<Event>,
)
    requires
        download_start(file, config, probe) is Ok,
        ({
            let (download, step) = download_start(file, config, probe)->Ok_0;
            download_run_is_accepted(download, step, events)
        }),
    ensures
        ({
            let (download, step) = download_start(file, config, probe)->Ok_0;
            let run = download_run(download, step, events);
            &&& run.download.above.len() == run.download.queue.len()
            &&& forall|i: int|
                0 <= i < run.download.above.len() ==> (
                #[trigger] run.download.above[i]).no_duplicates() && run.download.above[i].len()
                    + 1 == run.rounds
        }),
{
    lemma_run_is_orderly(file, config, probe, events);
    let (download, step) = download_start(file, config, probe)->Ok_0;
    let run = download_run(download, step, events);
    assert(are_ways(run.download.above, run.rounds - 1, run.turned));
}

/// The rounds come to an end: where all shortcuts that are found lead to one of finitely many
/// targets, there are no more rounds than targets, and one.
pub proof fn law_rounds_come_to_an_end(
    file: DriveFile,
    config: Config,
    probe: DestinationProbe,
    events: Seq<Event>,
    targets: Set<Seq<char>>,
)
    requires
        download_start(file, config, probe) is Ok,
        ({
            let (download, step) = download_start(file, config, probe)->Ok_0;
            &&& download_run_is_accepted(download, step, events)
            &&& target_ids(download_run(download, step, events).found).subset_of(targets)
        }),
        targets.finite(),
    ensures
        ({
            let (download, step) = download_start(file, config, probe)->Ok_0;
            download_run(download, step, events).rounds <= targets.len() + 1
        }),
{
    lemma_run_is_orderly(file, config, probe, events);
    let (download, step) = download_start(file, config, probe)->Ok_0;
    let run = download_run(download, step, events);
    if run.rounds > 0 {
        let way = run.download.above[0];
        assert(is_way(way, run.rounds - 1, run.turned));
        way.unique_seq_to_set();
        assert(way.to_set().subset_of(targets)) by {
            assert forall|id: Seq<char>| way.to_set().contains(id) implies targets.contains(id) by {
                let i = choose|i: int| 0 <= i < way.len() && way[i] == id;
                assert(target_ids(run.turned).contains(way[i]));
                let ids = run.turned.map_values(
                    |shortcut: PendingShortcutView| shortcut.target_id,
                );
                let k = choose|k: int| 0 <= k < ids.len() && ids[k] == id;
                let all = run.found.map_values(
                    |shortcut: PendingShortcutView| shortcut.target_id,
                );
                assert(run.found[k] == run.turned[k]);
                assert(all[k] == id);
                assert(target_ids(run.found).contains(id));
            }
        }
        vstd::set_lib::lemma_len_subset(way.to_set(), targets);
    }
}

/// The shortcuts wait for the walk: while it goes on none has its turn, and its end hands over
/// all that were found on the way, in that order.
pub proof fn law_shortcuts_wait_for_the_walk(
    download: DownloadView,
    stats: StatsView,
    event: Event,
    walk: WalkView,
)
    requires
        download.stage == (StageView::Walking { walk }),
    ensures
        ({
            let (_, counted, step) = walk::walk_step(walk, stats, event);
            let (after, left, _) = download_step(download, stats, event);
            &&& step.request !is Finish ==> after.stage is Walking && after.queue
                == download.queue && left == counted
            &&& step.request == RequestView::Finish(Ok(())) && counted.pending_shortcuts.len() > 0
                ==> {
                &&& after.stage is Turning
                &&& after.queue == counted.pending_shortcuts
                &&& after.next == 0
                &&& left.pending_shortcuts.len() == 0
            }
            &&& step.request == RequestView::Finish(Ok(())) && counted.pending_shortcuts.len()
                == 0 ==> after.stage is Summing
        }),
{
}

/// A download starts where the destination has a root and the directory has a name: with the walk
/// through the directory, by its id, below that root, and with the creation of a directory of
/// that name. Otherwise it fails, for want of a root first and then of a name.
pub proof fn law_download_starts_with_the_directory(
    file: DriveFile,
    config: Config,
    probe: DestinationProbe,
)
    ensures
        ({
            let start = download_start(file, config, probe);
            let root = config::destination_root(config.destination, probe);
            let dir = encode_utf8(file.name->Some_0@);
            &&& start is Ok <==> root is Ok && file.name is Some
            &&& root is Err ==> start->Err_0 == root->Err_0
            &&& root is Ok && file.name is None ==> start->Err_0 == ErrorView::MissingFileName
            &&& start is Ok ==> {
                let (download, step) = start->Ok_0;
                &&& download.root == root->Ok_0
                &&& download.queue.len() == 0 && download.above.len() == 0
                &&& download.later.len() == 0 && download.next == 0
                &&& download.stage is Walking
                &&& download.stage->walk.root == root->Ok_0
                &&& download.stage->walk.frames.len() == 0
                &&& download.stage->walk.phase == (walk::PhaseView::Creating {
                    id: match file.id {
                        Some(id) => Some(id@),
                        None => None,
                    },
                    dir,
                })
                &&& step.request == RequestView::CreateDirectory(
                    paths::joined(root->Ok_0, dir),
                )
                &&& step.notices == seq![
                    NoticeView::Info("Creating directory "@ + paths::shown_path(dir)),
                ]
            }
        }),
{
    if let Ok((download, step)) = download_start(file, config, probe) {
        assert(step.notices =~= seq![
            NoticeView::Info(
                "Creating directory "@ + paths::shown_path(encode_utf8(file.name->Some_0@)),
            ),
        ]);
    }
}

/// While the walk goes on, and while the work on a shortcut does, each step of the download is one
/// of theirs, with the same effect. A failure of either is the failure of the download.
pub proof fn law_download_does_what_its_parts_do(
    download: DownloadView,
    stats: StatsView,
    event: Event,
)
    ensures
        download.stage matches StageView::Walking { walk } ==> {
            let (next, counted, step) = walk::walk_step(walk, stats, event);
            let (after, left, made) = download_step(download, stats, event);
            &&& step.request !is Finish ==> {
                &&& after == (DownloadView { stage: StageView::Walking { walk: next }, ..download })
                &&& left == counted && made == step
            }
            &&& step.request matches RequestView::Finish(Err(_)) ==> {
                &&& after.stage is Ended
                &&& left == counted && made == step
            }
        },
        download.stage matches StageView::Linking { job } ==> {
            let (next, counted, step) = shortcut::job_step(job, stats, event);
            let (after, left, made) = download_step(download, stats, event);
            &&& left == counted
            &&& made.notices == step.notices
            &&& step.request !is Finish ==> made == step && after == (DownloadView {
                stage: StageView::Linking { job: next },
                ..download
            })
            &&& step.request matches RequestView::Finish(Err(_)) ==> made == step && after.stage
                is Ended
            &&& step.request == RequestView::Finish(Ok(())) ==> made.request is Continue && after
                == (DownloadView { later: after.later, stage: StageView::Turning, ..download })
        },
{
}

/// The turn of a shortcut. First the kind of document that its media type stands for is asked for,
/// that of the empty text where it has none. Then the work on it starts, with that kind, or it is
/// passed over with a warning: that is where it leads to a folder that is not there yet, and whose
/// id is among those of the folders on the way to it.
pub proof fn law_shortcut_has_its_turn(
    download: DownloadView,
    stats: StatsView,
    doc_type: Option<DocType>,
)
    requires
        0 <= download.next < download.queue.len(),
        download.above.len() == download.queue.len(),
    ensures
        ({
            let turning = DownloadView { stage: StageView::Turning, ..download };
            let classifying = DownloadView { stage: StageView::Classifying, ..download };
            let (after, left, step) = download_step(turning, stats, Event::Continue);
            let mime = match download.queue[download.next].target_mime {
                Some(mime) => mime,
                None => Seq::empty(),
            };
            &&& after == classifying && left == stats
            &&& step.request == RequestView::ClassifyTarget(mime) && step.notices.len() == 0
        }),
        ({
            let classifying = DownloadView { stage: StageView::Classifying, ..download };
            let (after, left, step) = download_step(
                classifying,
                stats,
                Event::Classified(doc_type),
            );
            let shortcut = download.queue[download.next];
            let back = shortcut.target_mime == Some("application/vnd.google-apps.folder"@)
                && !stats.downloaded_files.contains_key(shortcut.target_id) && exists|i: int|
                0 <= i < download.above[download.next].len()
                    && #[trigger] download.above[download.next][i] == shortcut.target_id;
            let place = paths::joined(shortcut.local_dir, encode_utf8(shortcut.name));
            let warning = "Skipping folder shortcut '"@ + paths::shown_path(place)
                + "' (leads back to a folder on the way to it)"@;
            &&& back ==> {
                &&& after == (DownloadView {
                    next: download.next + 1,
                    stage: StageView::Turning,
                    ..download
                })
                &&& left == (StatsView { warnings: stats.warnings.push(warning), ..stats })
                &&& step.request is Continue
                &&& step.notices == seq![NoticeView::Warning("Warning: "@ + warning)]
            }
            &&& !back ==> {
                let (job, first) = shortcut::job_start(download.root, shortcut, doc_type, stats);
                &&& after == (DownloadView {
                    next: download.next + 1,
                    stage: StageView::Linking { job },
                    ..download
                })
                &&& left == stats && step == first
            }
        }),
{
}

/// The end of the walk, or of a list of shortcuts. Where shortcuts were found since, all of them
/// are the next list, in their order, and how many there are is shown. Where there are none, the
/// size of all that was downloaded is to be written, and the end then tells it with the rest.
pub proof fn law_list_ends_in_the_next_or_in_the_summary(
    download: DownloadView,
    stats: StatsView,
    size: String,
)
    requires
        download.next == download.queue.len(),
        0 <= stats.total_file_size <= u64::MAX,
    ensures
        ({
            let turning = DownloadView { stage: StageView::Turning, ..download };
            let (after, left, step) = download_step(turning, stats, Event::Continue);
            let count = stats.pending_shortcuts.len();
            &&& count == 0 ==> {
                &&& after.stage is Summing && left == stats
                &&& step.request is ShowSize && step.request->ShowSize_0 == stats.total_file_size
                &&& step.notices.len() == 0
            }
            &&& count > 0 ==> {
                &&& after.root == download.root && after.stage is Turning
                &&& after.queue == stats.pending_shortcuts && after.next == 0
                &&& after.above.len() == count && after.later.len() == 0
                &&& forall|i: int|
                    0 <= i < count ==> #[trigger] after.above[i] == if i < download.later.len() {
                        download.later[i]
                    } else {
                        Seq::empty()
                    }
                &&& left.pending_shortcuts.len() == 0
                &&& left == (StatsView { pending_shortcuts: left.pending_shortcuts, ..stats })
                &&& step.request is Continue
                &&& step.notices == seq![
                    NoticeView::Info(
                        "\nProcessing "@ + text::decimal(count) + " shortcut(s)..."@,
                    ),
                ]
            }
        }),
        ({
            let summing = DownloadView { stage: StageView::Summing, ..download };
            let (after, left, step) = download_step(summing, stats, Event::SizeShown(size));
            &&& after.stage is Ended && left == stats
            &&& step.request == RequestView::Finish(Ok(()))
            &&& step.notices == report::closing(stats, size@)
        }),
{
    let turning = DownloadView { stage: StageView::Turning, ..download };
    let step = download_step(turning, stats, Event::Continue).2;
    if stats.pending_shortcuts.len() > 0 {
        assert(step.notices =~= seq![
            NoticeView::Info(
                "\nProcessing "@ + text::decimal(stats.pending_shortcuts.len())
                    + " shortcut(s)..."@,
            ),
        ]);
    }
}

/// The end of the walk does to the shortcuts that were found what the end of a list does, behind
/// the lines of its last step.
pub proof fn law_walk_ends_as_a_list_does(
    download: DownloadView,
    stats: StatsView,
    event: Event,
    walk: WalkView,
)
    requires
        download.wf(),
        download.stage == (StageView::Walking { walk }),
        walk::walk_step(walk, stats, event).2.request == RequestView::Finish(Ok(())),
    ensures
        ({
            let (_, counted, step) = walk::walk_step(walk, stats, event);
            let turning = DownloadView { stage: StageView::Turning, ..download };
            let (after, left, made) = download_step(download, stats, event);
            let (next, rest, told) = download_step(turning, counted, Event::Continue);
            &&& after.stage == next.stage && left == rest
            &&& after.queue == next.queue && after.next == next.next
            &&& after.above == next.above && after.later == next.later
            &&& made.request == told.request
            &&& made.notices == step.notices + told.notices
        }),
{
    let (_, counted, step) = walk::walk_step(walk, stats, event);
    let turning = DownloadView { stage: StageView::Turning, ..download };
    let made = download_step(download, stats, event).2;
    let told = download_step(turning, counted, Event::Continue).2;
    assert(made.notices =~= step.notices + told.notices);
}

/// What is found in the course of the work on a shortcut is found on the way to that shortcut and
/// on into its target; what was found before keeps its way.
pub proof fn law_ways_go_on_through_the_target(
    download: DownloadView,
    stats: StatsView,
    event: Event,
    job: JobView,
    i: int,
)
    requires
        download.wf(),
        download.stage == (StageView::Linking { job }),
        shortcut::job_step(job, stats, event).2.request == RequestView::Finish(Ok(())),
        0 <= i < download_step(download, stats, event).0.later.len(),
    ensures
        ({
            let (after, left, _) = download_step(download, stats, event);
            let way = download.above[download.next - 1];
            &&& after.later.len() == left.pending_shortcuts.len()
            &&& i < download.later.len() ==> after.later[i] == download.later[i]
            &&& i >= download.later.len() ==> after.later[i].drop_last() == way
                && after.later[i].last() == download.queue[download.next - 1].target_id
        }),
{
    let after = download_step(download, stats, event).0;
    let way = download.above[download.next - 1];
    if i >= download.later.len() {
        assert(after.later[i].drop_last() =~= way);
    }
}

/// A download takes whatever can come of what it asked for, as long as its walk and the work on
/// its shortcut do.
pub proof fn law_download_takes_what_can_come(
    download: DownloadView,
    stats: StatsView,
    event: Event,
)
    ensures
        download_accepts(download, stats, event) <==> match download.stage {
            StageView::Walking { walk } => walk::walk_accepts(walk, stats, event),
            StageView::Turning => event is Continue,
            StageView::Classifying => event is Classified,
            StageView::Linking { job } => shortcut::job_accepts(job, stats, event),
            StageView::Summing => event is SizeShown,
            StageView::Ended => false,
        },
{
}

} // verus!
