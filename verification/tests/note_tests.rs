use notes::note::NoteError;

#[test]
fn error_messages_name_the_condition() {
    assert_eq!(NoteError::NotFound.message(), "note not found");
    assert_eq!(
        NoteError::AlreadyExists.message(),
        "a note with this title already exists"
    );
    assert_eq!(
        NoteError::EditorUnavailable.message(),
        "no usable editor was found"
    );
    assert_eq!(
        NoteError::EditorFailed.message(),
        "the editor exited abnormally"
    );
    assert_eq!(
        NoteError::StorageCorrupt.message(),
        "a stored note could not be parsed"
    );
    assert_eq!(
        NoteError::IoFailure.message(),
        "reading or writing the notes failed"
    );
}

#[test]
fn clock_reads_nonempty_timestamp() {
    let now = notes::clock::now_rfc3339();
    assert!(!now.is_empty());
    assert!(now.contains('T'));
}
