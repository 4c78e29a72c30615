//! What a walk through a whole tree of directories does, stated by recursion over the tree.

use crate::drive;
use crate::drive::DriveFile;
use crate::filename;
use crate::paths;
use crate::scan;
use crate::scan::NextView;
use crate::stats::StatsView;
use crate::steps;
use crate::steps::{Event, NoticeView, RequestView, StepView};
use crate::walk;
use crate::walk::{FrameView, PhaseView, WalkView};
use vstd::prelude::*;

verus! {

/// A directory of the service, with what is found when it is walked through.
pub struct Folder {
    /// What the service lists for it.
    pub listing: Vec<DriveFile>,
    /// What is found of each file that is listed.
    pub findings: Seq<Finding>,
}

/// What is found of a file.
pub enum Finding {
    /// Nothing: it is not downloaded, or not now.
    Nothing,
    /// It is a directory.
    Folder(Folder),
    /// It has contents; with the checksum of the file that is in its place already.
    File { existing: Option<String> },
    /// It is exported; with the report if that fails.
    Export { failure: Option<String> },
}

/// Something that shows outside.
pub enum Effect {
    /// A line for the user.
    Show(NoticeView),
    /// Something to be done.
    Ask(RequestView),
}

/// The lines of `notices`.
pub open spec fn shown(notices: Seq<NoticeView>) -> Seq<Effect> {
    notices.map_values(|notice: NoticeView| Effect::Show(notice))
}

/// What shows of a step.
pub open spec fn step_effects(step: StepView) -> Seq<Effect> {
    if step.request is Continue {
        shown(step.notices)
    } else {
        shown(step.notices).push(Effect::Ask(step.request))
    }
}

/// A walk, what it has done, and all that showed of it.
#[verifier::ext_equal]
pub struct Run {
    pub walk: WalkView,
    pub stats: StatsView,
    pub log: Seq<Effect>,
}

/// What comes of `walk` in the course of `events`.
pub open spec fn run(walk: WalkView, stats: StatsView, events: Seq<Event>) -> Run
    decreases events.len(),
{
    if events.len() == 0 {
        Run { walk, stats, log: Seq::empty() }
    } else {
        let before = run(walk, stats, events.drop_last());
        let (next, counted, step) = walk::walk_step(before.walk, before.stats, events.last());
        Run { walk: next, stats: counted, log: before.log + step_effects(step) }
    }
}

/// Whether `finding` can be what is found of `child`: the file has a name, and what is found
/// goes with the kind of file that it is.
pub open spec fn fits(child: DriveFile, finding: Finding) -> bool
    decreases finding, 0nat,
{
    &&& child.name matches Some(name)
    &&& filename::can_be_sanitized(name@)
    &&& match finding {
        Finding::Folder(folder) => {
            &&& child.is_directory && !child.is_shortcut
            &&& child.id is Some
            &&& folder_fits(folder)
        },
        Finding::File { .. } => child.is_binary && !child.is_directory && !child.is_shortcut,
        Finding::Export { .. } => child.doc_type is Some && !child.is_binary
            && !child.is_directory && !child.is_shortcut,
        Finding::Nothing => child.is_shortcut || (!child.is_directory && !child.is_binary
            && child.doc_type is None),
    }
}

/// Whether there is one finding for each file that is listed, and it fits.
pub open spec fn folder_fits(folder: Folder) -> bool
    decreases folder, 0nat,
{
    &&& folder.findings.len() == folder.listing@.len()
    &&& forall|i: int|
        0 <= i < folder.findings.len() ==> fits(folder.listing@[i], #[trigger] folder.findings[i])
}

/// What comes back in the course of dealing with a file.
pub open spec fn child_events(child: DriveFile, finding: Finding) -> Seq<Event>
    decreases finding, 0nat,
{
    seq![Event::Continue] + match finding {
        Finding::Nothing => Seq::empty(),
        Finding::Folder(folder) => folder_events(folder),
        Finding::File { existing } => if walk::is_up_to_date(child, existing) {
            seq![Event::Probed(existing)]
        } else {
            seq![Event::Probed(existing), Event::Fetched(Ok(())), Event::Stored(Ok(()))]
        },
        Finding::Export { failure } => match failure {
            Some(report) => seq![Event::Exported(Err(report))],
            None => seq![Event::Exported(Ok(())), Event::Stored(Ok(()))],
        },
    }
}

/// What comes back in the course of dealing with the first `count` files that are listed.
pub open spec fn children_events(
    listing: Seq<DriveFile>,
    findings: Seq<Finding>,
    count: nat,
) -> Seq<Event>
    decreases findings, count,
{
    if count == 0 || count > findings.len() {
        Seq::empty()
    } else {
        children_events(listing, findings, (count - 1) as nat) + child_events(
            listing[count - 1],
            findings[count - 1],
        )
    }
}

/// What comes back in the course of walking through a directory.
pub open spec fn folder_events(folder: Folder) -> Seq<Event>
    decreases folder, 0nat,
{
    seq![Event::DirectoryCreated(Ok(())), Event::Listed(Ok(folder.listing))] + children_events(
        folder.listing@,
        folder.findings,
        folder.findings.len(),
    ) + seq![Event::Continue]
}

/// What is done about the child of the directory `dir`, and what shows of it.
pub open spec fn child_effect(
    root: Seq<u8>,
    dir: Seq<u8>,
    child: DriveFile,
    finding: Finding,
    stats: StatsView,
) -> (StatsView, Seq<Effect>)
    decreases finding, 0nat,
{
    let seen = scan::scan(dir, child, stats);
    let id = drive::text_of(child.id);
    let key = drive::text_or(child.id, Seq::empty());
    match finding {
        Finding::Nothing => (seen.stats, shown(seen.notices)),
        Finding::Folder(folder) => {
            let path = seen.next->Enter_0;
            let inside = folder_effect(root, key, path, folder, seen.stats);
            (
                inside.0,
                shown(seen.notices) + seq![
                    Effect::Show(
                        NoticeView::Info("Creating directory "@ + paths::shown_path(path)),
                    ),
                    Effect::Ask(RequestView::CreateDirectory(paths::joined(root, path))),
                ] + inside.1,
            )
        },
        Finding::File { existing } => {
            let path = seen.next->Probe_0;
            let target = paths::joined(root, path);
            let probe = shown(seen.notices).push(Effect::Ask(RequestView::ProbeFile(target)));
            if walk::is_up_to_date(child, existing) {
                (seen.stats.located(id, path), probe)
            } else {
                (
                    seen.stats.with_file(drive::counted_size(child.size)).located(id, path),
                    probe + seq![
                        Effect::Ask(RequestView::FetchFile(key)),
                        Effect::Show(
                            NoticeView::Info(
                                "Downloading file '"@ + paths::shown_path(path) + "'"@,
                            ),
                        ),
                        Effect::Ask(
                            RequestView::StoreBody {
                                path: target,
                                expected_md5: drive::text_of(child.md5_checksum),
                            },
                        ),
                    ],
                )
            }
        },
        Finding::Export { failure } => {
            let path = seen.next->Export_0;
            let doc = child.doc_type->Some_0;
            let export = shown(seen.notices).push(
                Effect::Ask(RequestView::ExportFile { id: key, mime: doc.export_mime@ }),
            );
            match failure {
                Some(report) => {
                    let warning = walk::export_warning(path, report@);
                    (
                        seen.stats.warned(warning),
                        export.push(Effect::Show(steps::warning_line(warning))),
                    )
                },
                None => (
                    seen.stats.with_file(0).located(id, path),
                    export + seq![
                        Effect::Show(
                            NoticeView::Info(
                                "Exporting "@ + doc.label@ + " '"@ + paths::shown_path(path)
                                    + "'"@,
                            ),
                        ),
                        Effect::Ask(
                            RequestView::StoreBody {
                                path: paths::joined(root, path),
                                expected_md5: None,
                            },
                        ),
                    ],
                ),
            }
        },
    }
}

/// What is done about the first `count` files of the directory `dir`, and what shows of it.
pub open spec fn children_effect(
    root: Seq<u8>,
    dir: Seq<u8>,
    listing: Seq<DriveFile>,
    findings: Seq<Finding>,
    count: nat,
    stats: StatsView,
) -> (StatsView, Seq<Effect>)
    decreases findings, count,
{
    if count == 0 || count > findings.len() {
        (stats, Seq::empty())
    } else {
        let before = children_effect(root, dir, listing, findings, (count - 1) as nat, stats);
        let last = child_effect(
            root,
            dir,
            listing[count - 1],
            findings[count - 1],
            before.0,
        );
        (last.0, before.1 + last.1)
    }
}

/// What is done about the directory `dir` once its creation has been asked for: it counts as one
/// more directory and is listed, then its files are dealt with in the order of the list.
pub open spec fn folder_effect(
    root: Seq<u8>,
    id: Seq<char>,
    dir: Seq<u8>,
    folder: Folder,
    stats: StatsView,
) -> (StatsView, Seq<Effect>)
    decreases folder, 0nat,
{
    let inside = children_effect(
        root,
        dir,
        folder.listing@,
        folder.findings,
        folder.findings.len(),
        stats.with_folder(),
    );
    (inside.0, seq![Effect::Ask(RequestView::ListFolder(id))] + inside.1)
}

/// A run through two lists of events is a run through one and then the other.
proof fn lemma_run_concat(walk: WalkView, stats: StatsView, first: Seq<Event>, second: Seq<Event>)
    ensures
        ({
            let middle = run(walk, stats, first);
            let end = run(middle.walk, middle.stats, second);
            run(walk, stats, first + second) == Run {
                walk: end.walk,
                stats: end.stats,
                log: middle.log + end.log,
            }
        }),
    decreases second.len(),
{
    let middle = run(walk, stats, first);
    if second.len() == 0 {
        assert(first + second =~= first);
        assert(middle.log + Seq::<Effect>::empty() =~= middle.log);
    } else {
        lemma_run_concat(walk, stats, first, second.drop_last());
        assert((first + second).drop_last() =~= first + second.drop_last());
        assert((first + second).last() == second.last());
        let end = run(middle.walk, middle.stats, second);
        assert(run(walk, stats, first + second).log =~= middle.log + end.log);
    }
}

/// A run through one event is one step.
proof fn lemma_run_one(walk: WalkView, stats: StatsView, event: Event)
    ensures
        ({
            let (next, counted, step) = walk::walk_step(walk, stats, event);
            run(walk, stats, seq![event]) == Run {
                walk: next,
                stats: counted,
                log: step_effects(step),
            }
        }),
{
    assert(seq![event].drop_last() =~= Seq::<Event>::empty());
    let (next, counted, step) = walk::walk_step(walk, stats, event);
    assert(run(walk, stats, seq![event].drop_last()) == Run {
        walk,
        stats,
        log: Seq::empty(),
    });
    assert(Seq::<Effect>::empty() + step_effects(step) =~= step_effects(step));
}

/// A run that starts with one event is a step and then a run through the others.
proof fn lemma_run_first(walk: WalkView, stats: StatsView, event: Event, rest: Seq<Event>)
    ensures
        ({
            let (next, counted, step) = walk::walk_step(walk, stats, event);
            let end = run(next, counted, rest);
            run(walk, stats, seq![event] + rest) == Run {
                walk: end.walk,
                stats: end.stats,
                log: step_effects(step) + end.log,
            }
        }),
{
    lemma_run_one(walk, stats, event);
    lemma_run_concat(walk, stats, seq![event], rest);
}

/// Whether the walk, in the course of dealing with a child, does what is stated of that child,
/// and then goes on to the next.
spec fn child_is_done(walk: WalkView, stats: StatsView, finding: Finding) -> bool {
    let effect = child_effect(
        walk.root,
        walk.frames.last().dir,
        walk.child(),
        finding,
        stats,
    );
    run(walk, stats, child_events(walk.child(), finding)) == Run {
        walk: walk.child_done(),
        stats: effect.0,
        log: effect.1,
    }
}

/// A file that is in its place already is only looked at.
proof fn lemma_kept_file(walk: WalkView, stats: StatsView, existing: Option<String>)
    requires
        walk.phase == PhaseView::Scanning,
        walk.has_child(),
        fits(walk.child(), Finding::File { existing }),
        walk::is_up_to_date(walk.child(), existing),
    ensures
        child_is_done(walk, stats, Finding::File { existing }),
{
    let finding = Finding::File { existing };
    let probed = Event::Probed(existing);
    let effect = child_effect(walk.root, walk.frames.last().dir, walk.child(), finding, stats);
    let (w1, s1, step1) = walk::walk_step(walk, stats, Event::Continue);
    let (w2, s2, step2) = walk::walk_step(w1, s1, probed);
    lemma_run_first(walk, stats, Event::Continue, seq![probed]);
    lemma_run_one(w1, s1, probed);
    assert(step_effects(step1) + step_effects(step2) =~= effect.1);
    assert(w2 =~= walk.child_done());
}

/// A file that is not in its place is fetched and saved.
proof fn lemma_fetched_file(walk: WalkView, stats: StatsView, existing: Option<String>)
    requires
        walk.phase == PhaseView::Scanning,
        walk.has_child(),
        fits(walk.child(), Finding::File { existing }),
        !walk::is_up_to_date(walk.child(), existing),
    ensures
        child_is_done(walk, stats, Finding::File { existing }),
{
    let finding = Finding::File { existing };
    let probed = Event::Probed(existing);
    let fetched = Event::Fetched(Ok(()));
    let stored = Event::Stored(Ok(()));
    let effect = child_effect(walk.root, walk.frames.last().dir, walk.child(), finding, stats);
    let (w1, s1, step1) = walk::walk_step(walk, stats, Event::Continue);
    let (w2, s2, step2) = walk::walk_step(w1, s1, probed);
    let (w3, s3, step3) = walk::walk_step(w2, s2, fetched);
    let (w4, s4, step4) = walk::walk_step(w3, s3, stored);
    let last = seq![stored];
    let later = seq![fetched] + last;
    let rest = seq![probed] + later;
    assert(rest =~= seq![probed, fetched, stored]);
    lemma_run_first(walk, stats, Event::Continue, rest);
    lemma_run_first(w1, s1, probed, later);
    lemma_run_first(w2, s2, fetched, last);
    lemma_run_one(w3, s3, stored);
    assert(step_effects(step1) + (step_effects(step2) + (step_effects(step3) + step_effects(step4)))
        =~= effect.1);
    assert(w4 =~= walk.child_done());
}

/// A document is exported and saved, or the failure is noted.
proof fn lemma_exported_file(walk: WalkView, stats: StatsView, failure: Option<String>)
    requires
        walk.phase == PhaseView::Scanning,
        walk.has_child(),
        fits(walk.child(), Finding::Export { failure }),
    ensures
        child_is_done(walk, stats, Finding::Export { failure }),
{
    let finding = Finding::Export { failure };
    let effect = child_effect(walk.root, walk.frames.last().dir, walk.child(), finding, stats);
    let (w1, s1, step1) = walk::walk_step(walk, stats, Event::Continue);
    match failure {
        Some(report) => {
            let refused = Event::Exported(Err(report));
            let (w2, s2, step2) = walk::walk_step(w1, s1, refused);
            lemma_run_first(walk, stats, Event::Continue, seq![refused]);
            lemma_run_one(w1, s1, refused);
            assert(step_effects(step1) + step_effects(step2) =~= effect.1);
            assert(w2 =~= walk.child_done());
        },
        None => {
            let exported = Event::Exported(Ok(()));
            let stored = Event::Stored(Ok(()));
            let (w2, s2, step2) = walk::walk_step(w1, s1, exported);
            let (w3, s3, step3) = walk::walk_step(w2, s2, stored);
            let last = seq![stored];
            let rest = seq![exported] + last;
            assert(rest =~= seq![exported, stored]);
            lemma_run_first(walk, stats, Event::Continue, rest);
            lemma_run_first(w1, s1, exported, last);
            lemma_run_one(w2, s2, stored);
            assert(step_effects(step1) + (step_effects(step2) + step_effects(step3))
                =~= effect.1);
            assert(w3 =~= walk.child_done());
        },
    }
}

/// A child is dealt with as stated, whatever is found of it.
proof fn lemma_child(walk: WalkView, stats: StatsView, finding: Finding)
    requires
        walk.phase == PhaseView::Scanning,
        walk.has_child(),
        fits(walk.child(), finding),
    ensures
        child_is_done(walk, stats, finding),
    decreases finding, 0nat,
{
    match finding {
        Finding::Nothing => {
            let effect = child_effect(
                walk.root,
                walk.frames.last().dir,
                walk.child(),
                finding,
                stats,
            );
            let (_, _, step) = walk::walk_step(walk, stats, Event::Continue);
            lemma_run_first(walk, stats, Event::Continue, Seq::empty());
            assert(step_effects(step) + Seq::<Effect>::empty() =~= effect.1);
        },
        Finding::Folder(folder) => {
            let dir = walk.frames.last().dir;
            let effect = child_effect(walk.root, dir, walk.child(), finding, stats);
            let path = scan::scan(dir, walk.child(), stats).next->Enter_0;
            let key = drive::text_or(walk.child().id, Seq::empty());
            let (w1, s1, step1) = walk::walk_step(walk, stats, Event::Continue);
            lemma_run_first(walk, stats, Event::Continue, folder_events(folder));
            lemma_folder(w1, s1, key, path, folder);
            let inside = folder_effect(walk.root, key, path, folder, s1);
            assert(step_effects(step1) + inside.1 =~= effect.1);
            assert(w1.in_phase(PhaseView::Scanning) =~= walk.child_done());
        },
        Finding::File { existing } => {
            if walk::is_up_to_date(walk.child(), existing) {
                lemma_kept_file(walk, stats, existing);
            } else {
                lemma_fetched_file(walk, stats, existing);
            }
        },
        Finding::Export { failure } => {
            lemma_exported_file(walk, stats, failure);
        },
    }
}

/// The walk, in the course of dealing with the first `count` children, does what is stated of
/// them one after the other.
proof fn lemma_children(walk: WalkView, stats: StatsView, findings: Seq<Finding>, count: nat)
    requires
        walk.phase == PhaseView::Scanning,
        walk.frames.len() > 0,
        walk.frames.last().next == 0,
        findings.len() == walk.frames.last().children.len(),
        count <= findings.len(),
        forall|i: int|
            0 <= i < findings.len() ==> fits(
                walk.frames.last().children[i],
                #[trigger] findings[i],
            ),
    ensures
        ({
            let top = walk.frames.last();
            let effect = children_effect(
                walk.root,
                top.dir,
                top.children,
                findings,
                count,
                stats,
            );
            run(walk, stats, children_events(top.children, findings, count)) == Run {
                walk: WalkView {
                    frames: walk.frames.drop_last().push(
                        FrameView { next: count as int, ..top },
                    ),
                    ..walk
                },
                stats: effect.0,
                log: effect.1,
            }
        }),
    decreases findings, count,
{
    let top = walk.frames.last();
    if count == 0 {
        assert(walk.frames.drop_last().push(FrameView { next: 0, ..top }) =~= walk.frames);
    } else {
        let less = (count - 1) as nat;
        lemma_children(walk, stats, findings, less);
        let before = run(walk, stats, children_events(top.children, findings, less));
        assert(fits(top.children[count - 1], findings[count - 1]));
        lemma_child(before.walk, before.stats, findings[count - 1]);
        lemma_run_concat(
            walk,
            stats,
            children_events(top.children, findings, less),
            child_events(top.children[count - 1], findings[count - 1]),
        );
        assert(before.walk.child_done().frames =~= walk.frames.drop_last().push(
            FrameView { next: count as int, ..top },
        ));
    }
}

/// The walk, in the course of walking through a directory, does what is stated of it, and then
/// is back in the directory above.
proof fn lemma_folder(
    walk: WalkView,
    stats: StatsView,
    id: Seq<char>,
    dir: Seq<u8>,
    folder: Folder,
)
    requires
        walk.phase == (PhaseView::Creating { id: Some(id), dir }),
        folder_fits(folder),
    ensures
        ({
            let effect = folder_effect(walk.root, id, dir, folder, stats);
            run(walk, stats, folder_events(folder)) == Run {
                walk: walk.in_phase(PhaseView::Scanning),
                stats: effect.0,
                log: effect.1,
            }
        }),
    decreases folder, 0nat,
{
    let created = Event::DirectoryCreated(Ok(()));
    let listed = Event::Listed(Ok(folder.listing));
    let count = folder.findings.len();
    let children = children_events(folder.listing@, folder.findings, count);
    let end = seq![Event::Continue];
    let (w1, s1, step1) = walk::walk_step(walk, stats, created);
    let (w2, s2, step2) = walk::walk_step(w1, s1, listed);
    assert(folder_events(folder) =~= seq![created] + (seq![listed] + (children + end)));
    lemma_run_first(walk, stats, created, seq![listed] + (children + end));
    lemma_run_first(w1, s1, listed, children + end);
    lemma_run_concat(w2, s2, children, end);
    lemma_children(w2, s2, folder.findings, count);
    let inside = run(w2, s2, children);
    let (w3, s3, step3) = walk::walk_step(inside.walk, inside.stats, Event::Continue);
    lemma_run_one(inside.walk, inside.stats, Event::Continue);
    assert(w3 =~= walk.in_phase(PhaseView::Scanning));
    let effect = folder_effect(walk.root, id, dir, folder, stats);
    assert(step_effects(step1) + (step_effects(step2) + (inside.log + step_effects(step3)))
        =~= effect.1);
}

/// The walk follows the tree. Where nothing that is asked for fails, it goes through the
/// directory that it starts on and all below it, each file after the one listed before it and
/// each directory where it is listed; it does and shows of each what [`folder_effect`] states,
/// and it ends in success.
pub proof fn law_walk_follows_the_tree(
    root: Seq<u8>,
    id: Seq<char>,
    dir: Seq<u8>,
    folder: Folder,
    stats: StatsView,
)
    requires
        folder_fits(folder),
    ensures
        ({
            let effect = folder_effect(root, id, dir, folder, stats);
            run(
                walk::started(root, Some(id), dir),
                stats,
                folder_events(folder).push(Event::Continue),
            ) == Run {
                walk: WalkView { root, frames: Seq::empty(), phase: PhaseView::Ended },
                stats: effect.0,
                log: effect.1.push(Effect::Ask(RequestView::Finish(Ok(())))),
            }
        }),
{
    let begun = walk::started(root, Some(id), dir);
    let events = folder_events(folder);
    lemma_folder(begun, stats, id, dir, folder);
    let walked = run(begun, stats, events);
    assert(events.push(Event::Continue) =~= events + seq![Event::Continue]);
    lemma_run_concat(begun, stats, events, seq![Event::Continue]);
    lemma_run_one(walked.walk, walked.stats, Event::Continue);
    let (_, _, step) = walk::walk_step(walked.walk, walked.stats, Event::Continue);
    assert(walked.log + step_effects(step) =~= walked.log.push(
        Effect::Ask(RequestView::Finish(Ok(()))),
    ));
}

/// Whether `second` can be found of `child` by a walk after the one that found `first`: a file
/// that has contents is up to date, and a document is exported as before.
pub open spec fn is_found_again(child: DriveFile, first: Finding, second: Finding) -> bool
    decreases first, 0nat,
{
    match (first, second) {
        (Finding::Nothing, Finding::Nothing) => true,
        (Finding::Folder(before), Finding::Folder(after)) => is_walked_again(before, after),
        (Finding::File { .. }, Finding::File { existing }) => walk::is_up_to_date(child, existing),
        (Finding::Export { failure: before }, Finding::Export { failure: after }) => before is Some
            == after is Some,
        _ => false,
    }
}

/// Whether a walk after the one through `before` goes through `after`: the service lists the
/// same, and each file can be found again.
pub open spec fn is_walked_again(before: Folder, after: Folder) -> bool
    decreases before, 0nat,
{
    &&& after.listing@ == before.listing@
    &&& after.findings.len() == before.findings.len()
    &&& forall|i: int|
        0 <= i < before.findings.len() ==> is_found_again(
            before.listing@[i],
            #[trigger] before.findings[i],
            after.findings[i],
        )
}

/// How many documents are exported on account of a file.
pub open spec fn child_exports(finding: Finding) -> nat
    decreases finding, 0nat,
{
    match finding {
        Finding::Folder(folder) => children_exports(folder.findings, folder.findings.len()),
        Finding::Export { failure: None } => 1,
        _ => 0,
    }
}

/// How many documents are exported on account of the first `count` files.
pub open spec fn children_exports(findings: Seq<Finding>, count: nat) -> nat
    decreases findings, count,
{
    if count == 0 || count > findings.len() {
        0
    } else {
        children_exports(findings, (count - 1) as nat) + child_exports(findings[count - 1])
    }
}

/// The ids of the files with contents that are found on account of a file.
pub open spec fn child_ids(child: DriveFile, finding: Finding) -> Set<Seq<char>>
    decreases finding, 0nat,
{
    match finding {
        Finding::Folder(folder) => children_ids(
            folder.listing@,
            folder.findings,
            folder.findings.len(),
        ),
        Finding::File { .. } => match child.id {
            Some(id) => set![id@],
            None => Set::empty(),
        },
        _ => Set::empty(),
    }
}

/// The ids of the files with contents that are found on account of the first `count` files.
pub open spec fn children_ids(
    listing: Seq<DriveFile>,
    findings: Seq<Finding>,
    count: nat,
) -> Set<Seq<char>>
    decreases findings, count,
{
    if count == 0 || count > findings.len() {
        Set::empty()
    } else {
        children_ids(listing, findings, (count - 1) as nat) + child_ids(
            listing[count - 1],
            findings[count - 1],
        )
    }
}

/// Whether nothing is fetched in the course of `log`.
pub open spec fn fetches_nothing(log: Seq<Effect>) -> bool {
    forall|i: int|
        0 <= i < log.len() ==> !(#[trigger] log[i] matches Effect::Ask(RequestView::FetchFile(_)))
}

/// Whether what is done the second time fetches and adds nothing but `exports` documents, and
/// leaves the files whose ids are `ids` where the first time left them.
spec fn is_repeated(
    start: (StatsView, StatsView),
    first: StatsView,
    second: (StatsView, Seq<Effect>),
    exports: nat,
    ids: Set<Seq<char>>,
) -> bool {
    let (after, log) = second;
    &&& fetches_nothing(log)
    &&& after.total_file_size == start.1.total_file_size
    &&& after.file_count == start.1.file_count + exports
    &&& start.0.downloaded_files == start.1.downloaded_files ==> first.downloaded_files
        == after.downloaded_files
    &&& start.1.downloaded_files.dom().subset_of(after.downloaded_files.dom())
    &&& ids.subset_of(after.downloaded_files.dom())
}

/// The first look at a file does not depend on what has been done, and neither counts nor places
/// anything.
proof fn lemma_scan_repeats(dir: Seq<u8>, child: DriveFile, left: StatsView, right: StatsView)
    ensures
        ({
            let (first, second) = (scan::scan(dir, child, left), scan::scan(dir, child, right));
            &&& first.next == second.next
            &&& first.stats.downloaded_files == left.downloaded_files
            &&& second.stats.downloaded_files == right.downloaded_files
            &&& second.stats.file_count == right.file_count
            &&& second.stats.total_file_size == right.total_file_size
        }),
{
}

/// What is done about a file is repeated where it is found again.
proof fn lemma_child_repeats(
    root: Seq<u8>,
    dir: Seq<u8>,
    child: DriveFile,
    first: Finding,
    second: Finding,
    start: (StatsView, StatsView),
)
    requires
        is_found_again(child, first, second),
    ensures
        is_repeated(
            start,
            child_effect(root, dir, child, first, start.0).0,
            child_effect(root, dir, child, second, start.1),
            child_exports(second),
            child_ids(child, second),
        ),
    decreases first, 0nat,
{
    lemma_scan_repeats(dir, child, start.0, start.1);
    let seen = (scan::scan(dir, child, start.0), scan::scan(dir, child, start.1));
    match (first, second) {
        (Finding::Folder(before), Finding::Folder(after)) => {
            let key = drive::text_or(child.id, Seq::empty());
            let path = seen.0.next->Enter_0;
            lemma_folder_repeats(
                root,
                key,
                path,
                before,
                after,
                (seen.0.stats, seen.1.stats),
            );
        },
        _ => {},
    }
}

/// What is done about the first `count` files is repeated where they are found again.
proof fn lemma_children_repeat(
    root: Seq<u8>,
    dir: Seq<u8>,
    listing: Seq<DriveFile>,
    first: Seq<Finding>,
    second: Seq<Finding>,
    count: nat,
    start: (StatsView, StatsView),
)
    requires
        count <= first.len(),
        first.len() == second.len(),
        forall|i: int|
            0 <= i < first.len() ==> is_found_again(listing[i], #[trigger] first[i], second[i]),
    ensures
        is_repeated(
            start,
            children_effect(root, dir, listing, first, count, start.0).0,
            children_effect(root, dir, listing, second, count, start.1),
            children_exports(second, count),
            children_ids(listing, second, count),
        ),
    decreases first, count,
{
    if count > 0 {
        let less = (count - 1) as nat;
        lemma_children_repeat(root, dir, listing, first, second, less, start);
        let middle = (
            children_effect(root, dir, listing, first, less, start.0).0,
            children_effect(root, dir, listing, second, less, start.1).0,
        );
        assert(is_found_again(listing[count - 1], first[count - 1], second[count - 1]));
        lemma_child_repeats(
            root,
            dir,
            listing[count - 1],
            first[count - 1],
            second[count - 1],
            middle,
        );
    }
}

/// What is done about a directory is repeated where it is walked again.
proof fn lemma_folder_repeats(
    root: Seq<u8>,
    id: Seq<char>,
    dir: Seq<u8>,
    first: Folder,
    second: Folder,
    start: (StatsView, StatsView),
)
    requires
        is_walked_again(first, second),
    ensures
        is_repeated(
            start,
            folder_effect(root, id, dir, first, start.0).0,
            folder_effect(root, id, dir, second, start.1),
            children_exports(second.findings, second.findings.len()),
            children_ids(second.listing@, second.findings, second.findings.len()),
        ),
    decreases first, 0nat,
{
    lemma_children_repeat(
        root,
        dir,
        first.listing@,
        first.findings,
        second.findings,
        first.findings.len(),
        (start.0.with_folder(), start.1.with_folder()),
    );
}

/// A second walk fetches nothing. Where the service lists what it listed for the first walk and
/// each file with contents is up to date, no file is fetched, the size stays as it is, and only
/// the documents that are exported count as files. Each file with contents that has an id is
/// then known by it, and all files are where they were after the first walk.
pub proof fn law_second_walk_fetches_nothing(
    root: Seq<u8>,
    id: Seq<char>,
    dir: Seq<u8>,
    first: Folder,
    second: Folder,
    before: StatsView,
    stats: StatsView,
)
    requires
        is_walked_again(first, second),
        before.downloaded_files == stats.downloaded_files,
    ensures
        ({
            let old_places = folder_effect(root, id, dir, first, before).0.downloaded_files;
            let (after, log) = folder_effect(root, id, dir, second, stats);
            let count = second.findings.len();
            &&& fetches_nothing(log)
            &&& after.total_file_size == stats.total_file_size
            &&& after.file_count == stats.file_count + children_exports(second.findings, count)
            &&& after.downloaded_files == old_places
            &&& children_ids(second.listing@, second.findings, count).subset_of(
                after.downloaded_files.dom(),
            )
        }),
{
    lemma_folder_repeats(root, id, dir, first, second, (before, stats));
}

} // verus!
