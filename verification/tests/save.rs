use drive_download::digest::Md5Sum;
use drive_download::save::{err_if_md5_mismatch, BodySave, SaveEvent, SaveRequest};
use std::path::PathBuf;

const ABC: &str = "900150983cd24fb0d6963f7d28e17f72";

fn begin(expected: Option<&str>) -> BodySave {
    let (save, request) =
        BodySave::start(&PathBuf::from("/d/a.txt"), expected.map(|md5| md5.to_string()));
    match request {
        SaveRequest::Create(path) => assert_eq!(path, PathBuf::from("/d/a.incomplete")),
        _ => panic!("no temporary file"),
    }
    save
}

fn step(save: &mut BodySave, event: SaveEvent) -> SaveRequest {
    assert!(save.expects(&event));
    save.advance(event)
}

fn write(save: &mut BodySave, data: &[u8]) {
    match step(save, SaveEvent::Chunk(Ok(data.to_vec()))) {
        SaveRequest::Write(chunk) => assert_eq!(chunk, data),
        _ => panic!("the piece is not written"),
    }
    assert!(matches!(step(save, SaveEvent::Written(Ok(()))), SaveRequest::Read));
}

fn failure(request: SaveRequest) -> String {
    match request {
        SaveRequest::Finish(Err(error)) => error.message(),
        _ => panic!("no failure"),
    }
}

#[test]
fn checksums_are_compared() {
    assert!(err_if_md5_mismatch(None, "x".to_string()).is_ok());
    assert!(err_if_md5_mismatch(Some("x".to_string()), "x".to_string()).is_ok());
    assert_eq!(
        err_if_md5_mismatch(Some("x".to_string()), "y".to_string()).unwrap_err().message(),
        "MD5 mismatch, expected: x, actual: y"
    );
}

#[test]
fn a_complete_file_gets_its_name() {
    for expected in [None, Some(ABC)] {
        let mut save = begin(expected);
        assert!(matches!(step(&mut save, SaveEvent::Created(Ok(()))), SaveRequest::Read));
        write(&mut save, b"a");
        write(&mut save, b"");
        write(&mut save, b"bc");
        match step(&mut save, SaveEvent::EndOfBody) {
            SaveRequest::Rename(from, to) => {
                assert_eq!(from, PathBuf::from("/d/a.incomplete"));
                assert_eq!(to, PathBuf::from("/d/a.txt"));
            }
            _ => panic!("not renamed"),
        }
        assert!(matches!(
            step(&mut save, SaveEvent::Renamed(Ok(()))),
            SaveRequest::Finish(Ok(()))
        ));
    }
}

#[test]
fn an_incomplete_file_does_not() {
    let mut save = begin(Some(ABC));
    step(&mut save, SaveEvent::Created(Ok(())));
    write(&mut save, b"ab");
    assert_eq!(
        failure(step(&mut save, SaveEvent::EndOfBody)),
        format!("MD5 mismatch, expected: {}, actual: 187ef4436122d1cc2f40dc2b92f0eba0", ABC)
    );
    assert!(!save.expects(&SaveEvent::Renamed(Ok(()))));
}

#[test]
fn failures_end_the_save() {
    let mut save = begin(None);
    assert_eq!(
        failure(step(&mut save, SaveEvent::Created(Err("e".to_string())))),
        "Failed to create file: e"
    );
    let mut save = begin(None);
    step(&mut save, SaveEvent::Created(Ok(())));
    assert_eq!(
        failure(step(&mut save, SaveEvent::Chunk(Err("e".to_string())))),
        "Failed read from stream: e"
    );
    let mut save = begin(None);
    step(&mut save, SaveEvent::Created(Ok(())));
    step(&mut save, SaveEvent::Chunk(Ok(vec![1])));
    assert_eq!(
        failure(step(&mut save, SaveEvent::Written(Err("e".to_string())))),
        "Failed write to file: e"
    );
    let mut save = begin(None);
    step(&mut save, SaveEvent::Created(Ok(())));
    step(&mut save, SaveEvent::EndOfBody);
    assert_eq!(
        failure(step(&mut save, SaveEvent::Renamed(Err("e".to_string())))),
        "Failed to rename file: e"
    );
    assert!(!save.expects(&SaveEvent::EndOfBody));
}

#[test]
fn a_saved_file_is_recognised() {
    let mut save = begin(Some(ABC));
    step(&mut save, SaveEvent::Created(Ok(())));
    write(&mut save, b"ab");
    write(&mut save, b"c");
    step(&mut save, SaveEvent::EndOfBody);
    assert!(matches!(step(&mut save, SaveEvent::Renamed(Ok(()))), SaveRequest::Finish(Ok(()))));
    let mut sum = Md5Sum::new();
    assert!(sum.update_from_read(b"a", 1));
    assert!(sum.update_from_read(b"bc", 2));
    assert!(!sum.update_from_read(b"", 0));
    assert_eq!(sum.finish(), ABC);
}
