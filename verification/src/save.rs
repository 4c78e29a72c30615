//! Saving contents to a file, under a temporary name until they have proved complete.

use crate::config;
use crate::digest;
use crate::digest::Md5Sum;
use crate::drive;
use crate::drive::DriveFile;
use crate::error::{Error, ErrorView};
use crate::paths;
use crate::walk;
use std::path::PathBuf;
use vstd::prelude::*;

verus! {

/// The failure, if any, of checking a checksum: there is one only where a checksum is expected
/// and it is another.
pub open spec fn md5_check(expected: Option<Seq<char>>, actual: Seq<char>) -> Result<
    (),
    ErrorView,
> {
    match expected {
        Some(md5) if md5 != actual => Err(ErrorView::Md5Mismatch { expected: md5, actual }),
        _ => Ok(()),
    }
}

/// Fails where the checksum is not the one expected.
pub fn err_if_md5_mismatch(expected: Option<String>, actual: String) -> (result: Result<(), Error>)
    ensures
        config::unit_outcome(result) == md5_check(drive::text_of(expected), actual@),
{
    match expected {
        None => Ok(()),
        Some(md5) => if md5 == actual {
            Ok(())
        } else {
            Err(Error::Md5Mismatch { expected: md5, actual })
        },
    }
}

/// The extension of a file that is not complete yet.
pub open spec fn incomplete_extension() -> Seq<char> {
    "incomplete"@
}

/// What a save waits for.
#[derive(Debug, Copy, Clone, Eq, PartialEq, Structural)]
pub enum SavePhase {
    /// The creation of the temporary file.
    Creating,
    /// The next piece of the contents.
    Reading,
    /// The writing of a piece.
    Writing,
    /// The renaming of the temporary file.
    Renaming,
    /// Nothing any more.
    Ended,
}

/// What has come of a request.
pub enum SaveEvent {
    /// The temporary file was created, or not.
    Created(Result<(), String>),
    /// A piece of the contents has arrived, or it has broken off.
    Chunk(Result<Vec<u8>, String>),
    /// The contents have ended.
    EndOfBody,
    /// The piece was written, or not.
    Written(Result<(), String>),
    /// The temporary file was renamed, or not.
    Renamed(Result<(), String>),
}

/// What to do next.
pub enum SaveRequest {
    /// Create the temporary file at this path.
    Create(PathBuf),
    /// Read the next piece of the contents.
    Read,
    /// Write this piece to the temporary file.
    Write(Vec<u8>),
    /// Rename the temporary file, the first path, to the second.
    Rename(PathBuf, PathBuf),
    /// The save has ended this way.
    Finish(Result<(), Error>),
}

/// What a [`SaveRequest`] holds.
pub enum SaveRequestView {
    Create(Seq<u8>),
    Read,
    Write(Seq<u8>),
    Rename(Seq<u8>, Seq<u8>),
    Finish(Result<(), ErrorView>),
}

impl View for SaveRequest {
    type V = SaveRequestView;

    open spec fn view(&self) -> SaveRequestView {
        match *self {
            SaveRequest::Create(path) => SaveRequestView::Create(paths::path_bytes(path)),
            SaveRequest::Read => SaveRequestView::Read,
            SaveRequest::Write(chunk) => SaveRequestView::Write(chunk@),
            SaveRequest::Rename(from, to) => SaveRequestView::Rename(
                paths::path_bytes(from),
                paths::path_bytes(to),
            ),
            SaveRequest::Finish(result) => SaveRequestView::Finish(config::unit_outcome(result)),
        }
    }
}

/// A save under way.
pub struct BodySave {
    phase: SavePhase,
    path: PathBuf,
    expected_md5: Option<String>,
    sum: Option<Md5Sum>,
    data: Ghost<Seq<u8>>,
}

/// What a [`BodySave`] holds.
pub struct BodySaveView {
    /// What it waits for.
    pub phase: SavePhase,
    /// The path that the file will have.
    pub path: Seq<u8>,
    /// The checksum that its contents should have.
    pub expected_md5: Option<Seq<char>>,
    /// The contents that were handed out for writing.
    pub data: Seq<u8>,
}

impl BodySaveView {
    /// The path of the temporary file.
    pub open spec fn temporary_path(self) -> Seq<u8> {
        paths::extension_replaced(self.path, incomplete_extension())
    }

    /// This save in another phase.
    pub open spec fn in_phase(self, phase: SavePhase) -> BodySaveView {
        BodySaveView { phase, ..self }
    }
}

impl View for BodySave {
    type V = BodySaveView;

    closed spec fn view(&self) -> BodySaveView {
        BodySaveView {
            phase: self.phase,
            path: paths::path_bytes(self.path),
            expected_md5: drive::text_of(self.expected_md5),
            data: self.data@,
        }
    }
}

/// Whether `event` is what a save in this phase waits for.
pub open spec fn save_expects(phase: SavePhase, event: SaveEvent) -> bool {
    match event {
        SaveEvent::Created(_) => phase == SavePhase::Creating,
        SaveEvent::Chunk(_) | SaveEvent::EndOfBody => phase == SavePhase::Reading,
        SaveEvent::Written(_) => phase == SavePhase::Writing,
        SaveEvent::Renamed(_) => phase == SavePhase::Renaming,
    }
}

/// The save after `event`, and what to do next.
///
/// A failure ends the save. The pieces are written as they come; when they have ended and have
/// the expected checksum, the temporary file is renamed.
pub open spec fn save_step(save: BodySaveView, event: SaveEvent) -> (
    BodySaveView,
    SaveRequestView,
) {
    match event {
        SaveEvent::Created(Err(report)) => save_failed(save, ErrorView::CreateFile(report@)),
        SaveEvent::Chunk(Err(report)) => save_failed(save, ErrorView::ReadChunk(report@)),
        SaveEvent::Written(Err(report)) => save_failed(save, ErrorView::WriteChunk(report@)),
        SaveEvent::Renamed(Err(report)) => save_failed(save, ErrorView::RenameFile(report@)),
        SaveEvent::Created(Ok(_)) | SaveEvent::Written(Ok(_)) => (
            save.in_phase(SavePhase::Reading),
            SaveRequestView::Read,
        ),
        SaveEvent::Chunk(Ok(chunk)) => (
            BodySaveView { phase: SavePhase::Writing, data: save.data + chunk@, ..save },
            SaveRequestView::Write(chunk@),
        ),
        SaveEvent::EndOfBody => match md5_check(save.expected_md5, digest::md5_text(save.data)) {
            Err(error) => save_failed(save, error),
            Ok(_) => (
                save.in_phase(SavePhase::Renaming),
                SaveRequestView::Rename(save.temporary_path(), save.path),
            ),
        },
        SaveEvent::Renamed(Ok(_)) => (
            save.in_phase(SavePhase::Ended),
            SaveRequestView::Finish(Ok(())),
        ),
    }
}

/// The save after a failure.
pub open spec fn save_failed(save: BodySaveView, error: ErrorView) -> (
    BodySaveView,
    SaveRequestView,
) {
    (save.in_phase(SavePhase::Ended), SaveRequestView::Finish(Err(error)))
}

impl BodySave {
    /// Whether this save is one that [`BodySave::start`] and [`BodySave::advance`] give.
    pub closed spec fn wf(&self) -> bool {
        self.phase != SavePhase::Renaming && self.phase != SavePhase::Ended ==> {
            &&& self.sum matches Some(sum)
            &&& sum@ == self.data@
        }
    }

    /// Starts to save contents to the file at `path`, and tells what to do first.
    pub fn start(path: &PathBuf, expected_md5: Option<String>) -> (started: (BodySave, SaveRequest))
        ensures
            started.0.wf(),
            started.0@ == (BodySaveView {
                phase: SavePhase::Creating,
                path: paths::path_bytes(*path),
                expected_md5: drive::text_of(expected_md5),
                data: Seq::empty(),
            }),
            started.1@ == SaveRequestView::Create(started.0@.temporary_path()),
            (started.0@, started.1@) == save_run(
                paths::path_bytes(*path),
                drive::text_of(expected_md5),
                Seq::empty(),
            ),
    {
        proof {
            reveal_strlit("incomplete");
        }
        let temporary = paths::replace_extension(path, "incomplete");
        let save = BodySave {
            phase: SavePhase::Creating,
            path: path.clone(),
            expected_md5,
            sum: Some(Md5Sum::new()),
            data: Ghost(Seq::empty()),
        };
        (save, SaveRequest::Create(temporary))
    }

    /// Whether `event` is what this save waits for.
    pub fn expects(&self, event: &SaveEvent) -> (expected: bool)
        ensures
            expected == save_expects(self@.phase, *event),
    {
        match event {
            SaveEvent::Created(_) => self.phase == SavePhase::Creating,
            SaveEvent::Chunk(_) | SaveEvent::EndOfBody => self.phase == SavePhase::Reading,
            SaveEvent::Written(_) => self.phase == SavePhase::Writing,
            SaveEvent::Renamed(_) => self.phase == SavePhase::Renaming,
        }
    }

    /// Ends the save with a failure.
    fn fail(&mut self, error: Error) -> (request: SaveRequest)
        ensures
            (final(self)@, request@) == save_failed(old(self)@, error@),
            final(self).wf(),
    {
        self.phase = SavePhase::Ended;
        SaveRequest::Finish(Err(error))
    }

    /// Takes what came of the last request, and tells what to do next.
    pub fn advance(&mut self, event: SaveEvent) -> (request: SaveRequest)
        requires
            old(self).wf(),
            save_expects(old(self)@.phase, event),
        ensures
            final(self).wf(),
            (final(self)@, request@) == save_step(old(self)@, event),
    {
        match event {
            SaveEvent::Created(Err(report)) => self.fail(Error::CreateFile(report)),
            SaveEvent::Chunk(Err(report)) => self.fail(Error::ReadChunk(report)),
            SaveEvent::Written(Err(report)) => self.fail(Error::WriteChunk(report)),
            SaveEvent::Renamed(Err(report)) => self.fail(Error::RenameFile(report)),
            SaveEvent::Created(Ok(_)) | SaveEvent::Written(Ok(_)) => {
                self.phase = SavePhase::Reading;
                SaveRequest::Read
            },
            SaveEvent::Chunk(Ok(chunk)) => {
                let mut sum = self.sum.take().unwrap();
                sum.update(chunk.as_slice());
                self.data = Ghost(self.data@ + chunk@);
                self.sum = Some(sum);
                self.phase = SavePhase::Writing;
                SaveRequest::Write(chunk)
            },
            SaveEvent::EndOfBody => {
                let actual = self.sum.take().unwrap().finish();
                let expected = drive::copy_text(&self.expected_md5);
                match err_if_md5_mismatch(expected, actual) {
                    Err(error) => self.fail(error),
                    Ok(_) => {
                        self.phase = SavePhase::Renaming;
                        proof {
                            reveal_strlit("incomplete");
                        }
                        SaveRequest::Rename(
                            paths::replace_extension(&self.path, "incomplete"),
                            self.path.clone(),
                        )
                    },
                }
            },
            SaveEvent::Renamed(Ok(_)) => {
                self.phase = SavePhase::Ended;
                SaveRequest::Finish(Ok(()))
            },
        }
    }
}

/// Whether `event` is something that can come of `request`.
pub open spec fn save_answers(request: SaveRequestView, event: SaveEvent) -> bool {
    match request {
        SaveRequestView::Create(_) => event is Created,
        SaveRequestView::Read => event is Chunk || event is EndOfBody,
        SaveRequestView::Write(_) => event is Written,
        SaveRequestView::Rename(_, _) => event is Renamed,
        SaveRequestView::Finish(_) => false,
    }
}

/// The save waits for what it has asked for: whatever can come of its request is what it waits
/// for, and it asks for nothing more only when it has ended.
pub proof fn law_save_waits_for_what_it_asked_for(
    save: BodySaveView,
    event: SaveEvent,
    answer: SaveEvent,
)
    requires
        save_expects(save.phase, event),
    ensures
        ({
            let (next, request) = save_step(save, event);
            &&& save_answers(request, answer) <==> save_expects(next.phase, answer)
            &&& request is Finish <==> next.phase == SavePhase::Ended
        }),
{
}

/// A save to `path` as it stands after `events`, and the last request that it made.
pub open spec fn save_run(
    path: Seq<u8>,
    expected_md5: Option<Seq<char>>,
    events: Seq<SaveEvent>,
) -> (BodySaveView, SaveRequestView)
    decreases events.len(),
{
    if events.len() == 0 {
        let save = BodySaveView {
            phase: SavePhase::Creating,
            path,
            expected_md5,
            data: Seq::empty(),
        };
        (save, SaveRequestView::Create(save.temporary_path()))
    } else {
        save_step(save_run(path, expected_md5, events.drop_last()).0, events.last())
    }
}

/// Whether each of `events` is what the save waits for when it comes.
pub open spec fn save_run_is_expected(
    path: Seq<u8>,
    expected_md5: Option<Seq<char>>,
    events: Seq<SaveEvent>,
) -> bool
    decreases events.len(),
{
    events.len() > 0 ==> {
        &&& save_run_is_expected(path, expected_md5, events.drop_last())
        &&& save_expects(save_run(path, expected_md5, events.drop_last()).0.phase, events.last())
    }
}

/// The contents that arrive in the course of `events`.
pub open spec fn received(events: Seq<SaveEvent>) -> Seq<u8>
    decreases events.len(),
{
    if events.len() == 0 {
        Seq::empty()
    } else {
        match events.last() {
            SaveEvent::Chunk(Ok(chunk)) => received(events.drop_last()) + chunk@,
            _ => received(events.drop_last()),
        }
    }
}

/// A file gets its name only when it is complete: the request to rename the temporary file, and
/// the success of the save, come only after contents that have the expected checksum. What is
/// renamed is the temporary file, and it gets the path that was asked for.
pub proof fn law_file_gets_its_name_only_when_complete(
    path: Seq<u8>,
    expected_md5: Option<Seq<char>>,
    events: Seq<SaveEvent>,
)
    requires
        save_run_is_expected(path, expected_md5, events),
    ensures
        ({
            let (save, request) = save_run(path, expected_md5, events);
            let complete = md5_check(expected_md5, digest::md5_text(received(events))) is Ok;
            &&& save.path == path && save.expected_md5 == expected_md5
            &&& save.data == received(events)
            &&& save.phase == SavePhase::Renaming ==> complete
            &&& request matches SaveRequestView::Rename(from, to) ==> complete && from
                == paths::extension_replaced(path, incomplete_extension()) && to == path
            &&& request == SaveRequestView::Finish(Ok(())) ==> complete
        }),
    decreases events.len(),
{
    if events.len() > 0 {
        law_file_gets_its_name_only_when_complete(path, expected_md5, events.drop_last());
    }
}

/// A file that was saved is recognised later: where a save that expects the checksum `md5` has
/// ended well, the contents that arrived have that checksum. Whoever reads them again computes
/// it, however they are read, and so takes the file for up to date.
pub proof fn law_saved_file_is_recognised(
    path: Seq<u8>,
    md5: Seq<char>,
    events: Seq<SaveEvent>,
    reads: Seq<Seq<u8>>,
    file: DriveFile,
    existing: String,
)
    requires
        save_run_is_expected(path, Some(md5), events),
        save_run(path, Some(md5), events).1 == SaveRequestView::Finish(Ok(())),
        digest::until_empty(reads) == received(events),
        existing@ == digest::md5_text(digest::read_run(reads).0),
        drive::text_of(file.md5_checksum) == Some(md5),
    ensures
        digest::md5_text(received(events)) == md5,
        existing@ == md5,
        walk::is_up_to_date(file, Some(existing)),
{
    law_file_gets_its_name_only_when_complete(path, Some(md5), events);
    digest::law_same_bytes_same_checksum(reads, reads);
}

/// All that was handed out for writing in the course of `events`: the bytes of the requests to
/// write, one after the other.
pub open spec fn written(
    path: Seq<u8>,
    expected_md5: Option<Seq<char>>,
    events: Seq<SaveEvent>,
) -> Seq<u8>
    decreases events.len(),
{
    if events.len() == 0 {
        Seq::empty()
    } else {
        let before = written(path, expected_md5, events.drop_last());
        match save_run(path, expected_md5, events).1 {
            SaveRequestView::Write(bytes) => before + bytes,
            _ => before,
        }
    }
}

/// What is written is what arrived: at any time the bytes that were handed out for writing are
/// those of the pieces that have arrived, all of them and in that order. The temporary file is
/// given the path that was asked for, and the save ends well, only where the bytes that were
/// written have the expected checksum, if there is one.
pub proof fn law_what_is_written_is_what_arrived(
    path: Seq<u8>,
    expected_md5: Option<Seq<char>>,
    events: Seq<SaveEvent>,
)
    requires
        save_run_is_expected(path, expected_md5, events),
    ensures
        ({
            let (save, request) = save_run(path, expected_md5, events);
            let bytes = written(path, expected_md5, events);
            let temporary = paths::extension_replaced(path, "incomplete"@);
            &&& bytes == received(events)
            &&& events.len() == 0 ==> request == SaveRequestView::Create(temporary)
            &&& save.phase == SavePhase::Renaming || request is Rename || request
                == SaveRequestView::Finish(Ok(())) ==> (expected_md5 matches Some(md5) ==> md5
                == digest::md5_text(bytes))
            &&& request is Rename ==> request == SaveRequestView::Rename(temporary, path)
        }),
    decreases events.len(),
{
    law_file_gets_its_name_only_when_complete(path, expected_md5, events);
    if events.len() > 0 {
        law_what_is_written_is_what_arrived(path, expected_md5, events.drop_last());
        assert(save_run(path, expected_md5, events.drop_last()).0.data == received(
            events.drop_last(),
        )) by {
            law_file_gets_its_name_only_when_complete(path, expected_md5, events.drop_last());
        }
    }
}

/// A file that is complete gets its name: where the contents have ended and there is no expected
/// checksum, or the bytes that were written have it, the renaming is asked for, and once that is
/// done the save ends well. Where they have another, the save ends with both checksums.
pub proof fn law_complete_file_gets_its_name(
    path: Seq<u8>,
    expected_md5: Option<Seq<char>>,
    events: Seq<SaveEvent>,
)
    requires
        events.len() > 0,
        save_run_is_expected(path, expected_md5, events),
    ensures
        ({
            let (save, request) = save_run(path, expected_md5, events);
            let actual = digest::md5_text(written(path, expected_md5, events));
            &&& events.last() is EndOfBody ==> match expected_md5 {
                Some(md5) if md5 != actual => request == SaveRequestView::Finish(
                    Err(ErrorView::Md5Mismatch { expected: md5, actual }),
                ),
                _ => request == SaveRequestView::Rename(
                    paths::extension_replaced(path, "incomplete"@),
                    path,
                ),
            }
            &&& events.last() matches SaveEvent::Renamed(Ok(_)) ==> request
                == SaveRequestView::Finish(Ok(()))
        }),
{
    law_what_is_written_is_what_arrived(path, expected_md5, events);
    law_file_gets_its_name_only_when_complete(path, expected_md5, events);
    law_file_gets_its_name_only_when_complete(path, expected_md5, events.drop_last());
    law_what_is_written_is_what_arrived(path, expected_md5, events.drop_last());
}

/// A failure ends the save at once, and is told as what failed, with the report that came. After
/// anything else but the end of the contents the save goes on: a piece is written before the
/// next is read.
pub proof fn law_failure_ends_the_save(save: BodySaveView, event: SaveEvent)
    requires
        save_expects(save.phase, event),
    ensures
        ({
            let (next, request) = save_step(save, event);
            &&& event matches SaveEvent::Created(Err(report)) ==> request
                == SaveRequestView::Finish(Err(ErrorView::CreateFile(report@)))
            &&& event matches SaveEvent::Chunk(Err(report)) ==> request
                == SaveRequestView::Finish(Err(ErrorView::ReadChunk(report@)))
            &&& event matches SaveEvent::Written(Err(report)) ==> request
                == SaveRequestView::Finish(Err(ErrorView::WriteChunk(report@)))
            &&& event matches SaveEvent::Renamed(Err(report)) ==> request
                == SaveRequestView::Finish(Err(ErrorView::RenameFile(report@)))
            &&& event matches SaveEvent::Created(Ok(_)) ==> request is Read
            &&& event matches SaveEvent::Written(Ok(_)) ==> request is Read
            &&& event matches SaveEvent::Chunk(Ok(chunk)) ==> request == SaveRequestView::Write(
                chunk@,
            )
            &&& request is Finish <==> next.phase == SavePhase::Ended
        }),
{
}

/// What can come of a request is what the save waits for, and nothing else is.
pub proof fn law_save_takes_what_can_come(save: BodySaveView, event: SaveEvent, answer: SaveEvent)
    requires
        save_expects(save.phase, event),
    ensures
        ({
            let (next, request) = save_step(save, event);
            save_expects(next.phase, answer) == match request {
                SaveRequestView::Create(_) => answer is Created,
                SaveRequestView::Read => answer is Chunk || answer is EndOfBody,
                SaveRequestView::Write(_) => answer is Written,
                SaveRequestView::Rename(_, _) => answer is Renamed,
                SaveRequestView::Finish(_) => false,
            }
        }),
        save_expects(SavePhase::Creating, answer) == answer is Created,
{
}

/// A checksum passes where none is expected or it is the one expected, character for character;
/// otherwise both are reported.
pub proof fn law_checksums_are_compared_as_texts(expected: Option<Seq<char>>, actual: Seq<char>)
    ensures
        md5_check(expected, actual) is Ok <==> expected is None || expected == Some(actual),
        md5_check(expected, actual) matches Err(error) ==> error == (ErrorView::Md5Mismatch {
            expected: expected->Some_0,
            actual,
        }),
{
}

/// A request is seen as what it holds.
pub proof fn law_save_request_is_seen_as_it_is(request: SaveRequest)
    ensures
        request matches SaveRequest::Create(path) ==> request@ == SaveRequestView::Create(
            paths::path_bytes(path),
        ),
        request is Read ==> request@ == SaveRequestView::Read,
        request matches SaveRequest::Write(chunk) ==> request@ == SaveRequestView::Write(chunk@),
        request matches SaveRequest::Rename(from, to) ==> request@ == SaveRequestView::Rename(
            paths::path_bytes(from),
            paths::path_bytes(to),
        ),
        request matches SaveRequest::Finish(Ok(_)) ==> request@ == SaveRequestView::Finish(
            Ok(()),
        ),
        request matches SaveRequest::Finish(Err(error)) ==> request@ == SaveRequestView::Finish(
            Err(error@),
        ),
{
}

} // verus!
