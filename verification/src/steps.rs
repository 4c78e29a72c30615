//! The steps that a directory download is made of: what it asks the outside to do, and what it
//! gets back.

use crate::config;
use crate::drive;
use crate::drive::{DocType, DriveFile};
use crate::error::{Error, ErrorView};
use crate::paths;
use crate::text;
use std::path::PathBuf;
use vstd::prelude::*;

verus! {

/// A line for the user.
pub enum Notice {
    /// On standard output.
    Info(String),
    /// On standard error.
    Warning(String),
}

/// What a [`Notice`] holds.
pub enum NoticeView {
    Info(Seq<char>),
    Warning(Seq<char>),
}

impl View for Notice {
    type V = NoticeView;

    open spec fn view(&self) -> NoticeView {
        match *self {
            Notice::Info(line) => NoticeView::Info(line@),
            Notice::Warning(line) => NoticeView::Warning(line@),
        }
    }
}

/// What is at the place of a symbolic link.
pub enum LinkState {
    /// No symbolic link.
    NotALink,
    /// A symbolic link, with its target if that can be read.
    Link(Option<PathBuf>),
}

/// What to do next. Paths are absolute where the destination is.
pub enum Request {
    /// Nothing; go on.
    Continue,
    /// Create the directory at this path, with those above it.
    CreateDirectory(PathBuf),
    /// List the folder that has this id.
    ListFolder(String),
    /// Get the checksum of the file at this path, if there is one.
    ProbeFile(PathBuf),
    /// Ask for the contents of the file that has this id.
    FetchFile(String),
    /// Ask for the file that has this id, exported to this media type.
    ExportFile { id: String, mime: String },
    /// Save the contents that were asked for last to `path`.
    StoreBody { path: PathBuf, expected_md5: Option<String> },
    /// Look for a symbolic link at this path.
    ProbeLink(PathBuf),
    /// Remove the symbolic link at this path.
    RemoveLink(PathBuf),
    /// Create a symbolic link at `link` that leads to `target`.
    CreateLink { target: PathBuf, link: PathBuf },
    /// Get the description of the file that has this id.
    GetFile(String),
    /// Tell what kind of document this media type stands for, if that is exported.
    ClassifyTarget(String),
    /// Write this number of bytes for people to read.
    ShowSize(u64),
    /// The work has ended this way.
    Finish(Result<(), Error>),
}

/// What a [`Request`] holds.
pub enum RequestView {
    Continue,
    CreateDirectory(Seq<u8>),
    ListFolder(Seq<char>),
    ProbeFile(Seq<u8>),
    FetchFile(Seq<char>),
    ExportFile { id: Seq<char>, mime: Seq<char> },
    StoreBody { path: Seq<u8>, expected_md5: Option<Seq<char>> },
    ProbeLink(Seq<u8>),
    RemoveLink(Seq<u8>),
    CreateLink { target: Seq<u8>, link: Seq<u8> },
    GetFile(Seq<char>),
    ClassifyTarget(Seq<char>),
    ShowSize(u64),
    Finish(Result<(), ErrorView>),
}

impl View for Request {
    type V = RequestView;

    open spec fn view(&self) -> RequestView {
        match *self {
            Request::Continue => RequestView::Continue,
            Request::CreateDirectory(path) => RequestView::CreateDirectory(paths::path_bytes(path)),
            Request::ListFolder(id) => RequestView::ListFolder(id@),
            Request::ProbeFile(path) => RequestView::ProbeFile(paths::path_bytes(path)),
            Request::FetchFile(id) => RequestView::FetchFile(id@),
            Request::ExportFile { id, mime } => RequestView::ExportFile { id: id@, mime: mime@ },
            Request::StoreBody { path, expected_md5 } => RequestView::StoreBody {
                path: paths::path_bytes(path),
                expected_md5: drive::text_of(expected_md5),
            },
            Request::ProbeLink(path) => RequestView::ProbeLink(paths::path_bytes(path)),
            Request::RemoveLink(path) => RequestView::RemoveLink(paths::path_bytes(path)),
            Request::CreateLink { target, link } => RequestView::CreateLink {
                target: paths::path_bytes(target),
                link: paths::path_bytes(link),
            },
            Request::GetFile(id) => RequestView::GetFile(id@),
            Request::ClassifyTarget(mime) => RequestView::ClassifyTarget(mime@),
            Request::ShowSize(bytes) => RequestView::ShowSize(bytes),
            Request::Finish(result) => RequestView::Finish(config::unit_outcome(result)),
        }
    }
}

/// What has come of a request.
pub enum Event {
    /// Of [`Request::Continue`].
    Continue,
    /// Of [`Request::CreateDirectory`].
    DirectoryCreated(Result<(), String>),
    /// Of [`Request::ListFolder`].
    Listed(Result<Vec<DriveFile>, String>),
    /// Of [`Request::ProbeFile`]: the checksum, empty where the file cannot be read, if there is
    /// a file.
    Probed(Option<String>),
    /// Of [`Request::FetchFile`].
    Fetched(Result<(), String>),
    /// Of [`Request::ExportFile`].
    Exported(Result<(), String>),
    /// Of [`Request::StoreBody`].
    Stored(Result<(), Error>),
    /// Of [`Request::ProbeLink`].
    LinkProbed(LinkState),
    /// Of [`Request::RemoveLink`].
    LinkRemoved(Result<(), String>),
    /// Of [`Request::CreateLink`], where there are symbolic links.
    LinkCreated(Result<(), String>),
    /// Of [`Request::CreateLink`], where there are none.
    LinksUnsupported,
    /// Of [`Request::GetFile`].
    GotFile(Result<DriveFile, String>),
    /// Of [`Request::ClassifyTarget`].
    Classified(Option<DocType>),
    /// Of [`Request::ShowSize`].
    SizeShown(String),
}

/// Whether `event` is something that can come of `request`.
pub open spec fn answers(request: RequestView, event: Event) -> bool {
    match request {
        RequestView::Continue => event is Continue,
        RequestView::CreateDirectory(_) => event is DirectoryCreated,
        RequestView::ListFolder(_) => event is Listed,
        RequestView::ProbeFile(_) => event is Probed,
        RequestView::FetchFile(_) => event is Fetched,
        RequestView::ExportFile { .. } => event is Exported,
        RequestView::StoreBody { .. } => event is Stored,
        RequestView::ProbeLink(_) => event is LinkProbed,
        RequestView::RemoveLink(_) => event is LinkRemoved,
        RequestView::CreateLink { .. } => event is LinkCreated || event is LinksUnsupported,
        RequestView::GetFile(_) => event is GotFile,
        RequestView::ClassifyTarget(_) => event is Classified,
        RequestView::ShowSize(_) => event is SizeShown,
        RequestView::Finish(_) => false,
    }
}

/// One step: lines to show, then something to do.
pub struct Step {
    pub notices: Vec<Notice>,
    pub request: Request,
}

/// What a [`Step`] holds.
#[verifier::ext_equal]
pub struct StepView {
    pub notices: Seq<NoticeView>,
    pub request: RequestView,
}

impl View for Step {
    type V = StepView;

    open spec fn view(&self) -> StepView {
        StepView {
            notices: self.notices@.map_values(|notice: Notice| notice@),
            request: self.request@,
        }
    }
}

/// A step that shows nothing.
pub open spec fn silent(request: RequestView) -> StepView {
    StepView { notices: Seq::empty(), request }
}

/// A step that shows one line.
pub open spec fn noted(notice: NoticeView, request: RequestView) -> StepView {
    StepView { notices: seq![notice], request }
}

/// A step that ends the work with a failure.
pub open spec fn failed(error: ErrorView) -> StepView {
    silent(RequestView::Finish(Err(error)))
}

/// The line that shows a warning.
pub open spec fn warning_line(warning: Seq<char>) -> NoticeView {
    NoticeView::Warning("Warning: "@ + warning)
}

/// Makes the line that shows a warning.
pub(crate) fn warning_notice(warning: &str) -> (notice: Notice)
    ensures
        notice@ == warning_line(warning@),
{
    Notice::Warning(text::concat2("Warning: ", warning))
}

/// Makes a step that shows nothing.
pub(crate) fn silent_step(request: Request) -> (step: Step)
    ensures
        step@ == silent(request@),
{
    let step = Step { notices: Vec::new(), request };
    assert(step@ =~= silent(request@));
    step
}

/// Makes a step that shows one line.
pub(crate) fn noted_step(notice: Notice, request: Request) -> (step: Step)
    ensures
        step@ == noted(notice@, request@),
{
    let mut notices: Vec<Notice> = Vec::new();
    notices.push(notice);
    let step = Step { notices, request };
    assert(step@ =~= noted(notice@, request@));
    step
}

/// What can come of a request: of each just what is asked for.
pub proof fn law_what_can_come_of_a_request(request: RequestView, event: Event)
    ensures
        answers(request, event) <==> match event {
            Event::Continue => request is Continue,
            Event::DirectoryCreated(_) => request is CreateDirectory,
            Event::Listed(_) => request is ListFolder,
            Event::Probed(_) => request is ProbeFile,
            Event::Fetched(_) => request is FetchFile,
            Event::Exported(_) => request is ExportFile,
            Event::Stored(_) => request is StoreBody,
            Event::LinkProbed(_) => request is ProbeLink,
            Event::LinkRemoved(_) => request is RemoveLink,
            Event::LinkCreated(_) | Event::LinksUnsupported => request is CreateLink,
            Event::GotFile(_) => request is GetFile,
            Event::Classified(_) => request is ClassifyTarget,
            Event::SizeShown(_) => request is ShowSize,
        },
{
}

/// A step shows what it is said to and asks for what it is said to; a failure shows nothing and
/// is the end, and a warning says that it is one.
pub proof fn law_steps_show_and_ask(
    notice: NoticeView,
    request: RequestView,
    error: ErrorView,
    warning: Seq<char>,
)
    ensures
        silent(request).notices.len() == 0 && silent(request).request == request,
        noted(notice, request).notices == seq![notice] && noted(notice, request).request
            == request,
        failed(error).notices.len() == 0 && failed(error).request == RequestView::Finish(
            Err(error),
        ),
        warning_line(warning) == NoticeView::Warning("Warning: "@ + warning),
{
}

/// A request is seen as what it holds.
pub proof fn law_request_is_seen_as_it_is(request: Request)
    ensures
        request is Continue ==> request@ == RequestView::Continue,
        request matches Request::CreateDirectory(path) ==> request@
            == RequestView::CreateDirectory(paths::path_bytes(path)),
        request matches Request::ListFolder(id) ==> request@ == RequestView::ListFolder(id@),
        request matches Request::ProbeFile(path) ==> request@ == RequestView::ProbeFile(
            paths::path_bytes(path),
        ),
        request matches Request::FetchFile(id) ==> request@ == RequestView::FetchFile(id@),
        request matches Request::ExportFile { id, mime } ==> request@ == (
        RequestView::ExportFile { id: id@, mime: mime@ }),
        request matches Request::StoreBody { path, expected_md5 } ==> request@ == (
        RequestView::StoreBody {
            path: paths::path_bytes(path),
            expected_md5: match expected_md5 {
                Some(md5) => Some(md5@),
                None => None,
            },
        }),
        request matches Request::ProbeLink(path) ==> request@ == RequestView::ProbeLink(
            paths::path_bytes(path),
        ),
        request matches Request::RemoveLink(path) ==> request@ == RequestView::RemoveLink(
            paths::path_bytes(path),
        ),
        request matches Request::CreateLink { target, link } ==> request@ == (
        RequestView::CreateLink {
            target: paths::path_bytes(target),
            link: paths::path_bytes(link),
        }),
        request matches Request::GetFile(id) ==> request@ == RequestView::GetFile(id@),
        request matches Request::ClassifyTarget(mime) ==> request@
            == RequestView::ClassifyTarget(mime@),
        request matches Request::ShowSize(bytes) ==> request@ == RequestView::ShowSize(bytes),
        request matches Request::Finish(Ok(_)) ==> request@ == RequestView::Finish(Ok(())),
        request matches Request::Finish(Err(error)) ==> request@ == RequestView::Finish(
            Err(error@),
        ),
{
}

/// A step is seen as what it holds: its lines in their order, and its request.
pub proof fn law_step_is_seen_as_it_is(step: Step, i: int)
    requires
        0 <= i < step.notices@.len(),
    ensures
        step@.notices.len() == step.notices@.len(),
        step.notices@[i] matches Notice::Info(line) ==> step@.notices[i] == NoticeView::Info(
            line@,
        ),
        step.notices@[i] matches Notice::Warning(line) ==> step@.notices[i]
            == NoticeView::Warning(line@),
        step@.request == step.request@,
{
}

} // verus!
